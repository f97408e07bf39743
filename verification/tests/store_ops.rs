use media_catalog::error::StoreError;
use media_catalog::schema::Rating;
use media_catalog::schema::{AppData, Color, Movie, Tag};

fn mk_movie(id: u64, title: &str) -> Movie {
    Movie {
        imdb_id: None,
        tmdb_id: id,
        title: String::from(title),
        description: String::from("a movie"),
        ratings: Vec::new(),
        tags: Vec::new(),
        platforms: Vec::new(),
        poster: None,
        release_date: 20240101,
        runtime_secs: 7200,
        score_bits: (7.5f64).to_bits(),
    }
}

fn mk_tag(name: &str) -> Tag {
    Tag {
        id: 0,
        name: String::from(name),
        color: Color { red: 10, green: 20, blue: 30 },
        icon: None,
    }
}

#[test]
fn create_and_get_movie() {
    let mut d = AppData::new();
    assert!(d.create_movie(mk_movie(100, "X")).is_ok());
    let got = d.get_movie(100).expect("movie should be stored");
    assert_eq!(got.title, "X");
    assert_eq!(got.tmdb_id, 100);
    assert!(d.get_movie(101).is_none());
}

#[test]
fn duplicate_movie_key_conflicts() {
    let mut d = AppData::new();
    assert!(d.create_movie(mk_movie(100, "X")).is_ok());
    match d.create_movie(mk_movie(100, "Y")) {
        Err(StoreError::Conflict) => {}
        other => panic!("expected Conflict, got {:?}", other),
    }
    // the first record is untouched
    assert_eq!(d.get_movie(100).unwrap().title, "X");
}

#[test]
fn replace_movie_requires_existing() {
    let mut d = AppData::new();
    match d.replace_movie(mk_movie(5, "nope")) {
        Err(StoreError::NotFound) => {}
        other => panic!("expected NotFound, got {:?}", other),
    }
    d.create_movie(mk_movie(5, "old")).unwrap();
    d.replace_movie(mk_movie(5, "new")).unwrap();
    assert_eq!(d.get_movie(5).unwrap().title, "new");
}

#[test]
fn delete_missing_movie_leaves_document_unchanged() {
    let mut d = AppData::new();
    d.create_movie(mk_movie(1, "A")).unwrap();
    d.create_movie(mk_movie(2, "B")).unwrap();
    let before = d.clone();
    match d.delete_movie(3) {
        Err(StoreError::NotFound) => {}
        other => panic!("expected NotFound, got {:?}", other),
    }
    assert_eq!(d, before);
    d.delete_movie(1).unwrap();
    assert!(d.get_movie(1).is_none());
    assert!(d.get_movie(2).is_some());
}

#[test]
fn movies_stay_sorted_by_id() {
    let mut d = AppData::new();
    d.create_movie(mk_movie(30, "c")).unwrap();
    d.create_movie(mk_movie(10, "a")).unwrap();
    d.create_movie(mk_movie(20, "b")).unwrap();
    let ids: Vec<u64> = d.movies.iter().map(|m| m.tmdb_id).collect();
    assert_eq!(ids, vec![10, 20, 30]);
}

#[test]
fn created_tag_gets_fresh_id() {
    let mut d = AppData::new();
    let t1 = d.create_tag(mk_tag("red")).expect("create_tag should succeed");
    let t2 = d.create_tag(mk_tag("blue")).expect("create_tag should succeed");
    assert_ne!(t1.id, t2.id);
    assert_eq!(t1.name, "red");
    assert_eq!(t2.name, "blue");
    assert_eq!(d.tags.len(), 2);
}

#[test]
fn many_random_tag_ids_never_collide() {
    let mut d = AppData::new();
    let mut ids = Vec::new();
    for i in 0..200 {
        let t = d
            .create_tag(mk_tag(&format!("tag{}", i)))
            .expect("create_tag should succeed");
        assert!(!ids.contains(&t.id), "assigned ID collided with an existing key");
        ids.push(t.id);
    }
    assert_eq!(d.tags.len(), 200);
}

#[test]
fn chosen_tag_id_conflicts_when_used() {
    let mut d = AppData::new();
    let t = d.create_tag_with_id(mk_tag("first"), 77).unwrap();
    assert_eq!(t.id, 77);
    let before = d.clone();
    match d.create_tag_with_id(mk_tag("second"), 77) {
        Err(StoreError::Conflict) => {}
        other => panic!("expected Conflict, got {:?}", other),
    }
    assert_eq!(d, before);
}

#[test]
fn replace_and_delete_tag() {
    let mut d = AppData::new();
    let t = d.create_tag(mk_tag("old")).unwrap();
    let renamed = Tag { name: String::from("new"), ..t.clone() };
    d.replace_tag(renamed).unwrap();
    assert_eq!(d.tags[0].name, "new");
    match d.delete_tag(t.id.wrapping_add(1)) {
        Err(StoreError::NotFound) => {}
        other => panic!("expected NotFound, got {:?}", other),
    }
    d.delete_tag(t.id).unwrap();
    assert!(d.tags.is_empty());
}

#[test]
fn delete_missing_tag_leaves_document_unchanged() {
    let mut d = AppData::new();
    d.create_tag(mk_tag("keep")).unwrap();
    let before = d.clone();
    assert!(d.delete_tag(d.tags[0].id.wrapping_add(7)).is_err());
    assert_eq!(d, before);
}

#[test]
fn end_to_end_conflicts() {
    let mut d = AppData::new();
    assert!(d.create_movie(mk_movie(100, "X")).is_ok());
    match d.create_movie(mk_movie(100, "X")) {
        Err(StoreError::Conflict) => {}
        other => panic!("expected Conflict, got {:?}", other),
    }
    let r8 = Rating {
        date: 20240101,
        rating: 8,
        speed_bits: (1.0f32).to_bits(),
        platform: None,
        tags: Vec::new(),
    };
    let r5 = Rating { rating: 5, ..r8.clone() };
    assert!(d.insert_rating(100, r8).is_ok());
    match d.insert_rating(100, r5) {
        Err(StoreError::Conflict) => {}
        other => panic!("expected Conflict, got {:?}", other),
    }
    let stored = d.get_movie(100).unwrap();
    assert_eq!(stored.ratings.len(), 1);
    assert_eq!(stored.ratings[0].rating, 8);
}
