use media_catalog::error::StoreError;
use media_catalog::schema::{AppData, Movie, Rating};

fn mk_movie(id: u64) -> Movie {
    Movie {
        imdb_id: Some(137523),
        tmdb_id: id,
        title: String::from("film"),
        description: String::new(),
        ratings: Vec::new(),
        tags: Vec::new(),
        platforms: Vec::new(),
        poster: None,
        release_date: 19991015,
        runtime_secs: 8340,
        score_bits: (8.4f64).to_bits(),
    }
}

fn mk_rating(date: u64, rating: u8) -> Rating {
    Rating {
        date,
        rating,
        speed_bits: (1.0f32).to_bits(),
        platform: None,
        tags: Vec::new(),
    }
}

fn dates_of(d: &AppData, id: u64) -> Vec<u64> {
    d.get_movie(id).unwrap().ratings.iter().map(|r| r.date).collect()
}

fn sorted_no_dups(dates: &[u64]) -> bool {
    dates.windows(2).all(|w| w[0] < w[1])
}

#[test]
fn ratings_stay_sorted_without_duplicates() {
    let mut d = AppData::new();
    d.create_movie(mk_movie(1)).unwrap();
    d.insert_rating(1, mk_rating(20240301, 7)).unwrap();
    assert!(sorted_no_dups(&dates_of(&d, 1)));
    d.insert_rating(1, mk_rating(20240101, 8)).unwrap();
    assert!(sorted_no_dups(&dates_of(&d, 1)));
    d.insert_rating(1, mk_rating(20240201, 6)).unwrap();
    assert!(sorted_no_dups(&dates_of(&d, 1)));
    d.patch_rating(1, 20240201, mk_rating(20240401, 9)).unwrap();
    assert!(sorted_no_dups(&dates_of(&d, 1)));
    d.delete_rating(1, 20240101).unwrap();
    assert!(sorted_no_dups(&dates_of(&d, 1)));
    assert_eq!(dates_of(&d, 1), vec![20240301, 20240401]);
}

#[test]
fn duplicate_date_conflicts_and_changes_nothing() {
    let mut d = AppData::new();
    d.create_movie(mk_movie(1)).unwrap();
    d.insert_rating(1, mk_rating(20240101, 8)).unwrap();
    let before = d.clone();
    match d.insert_rating(1, mk_rating(20240101, 5)) {
        Err(StoreError::Conflict) => {}
        other => panic!("expected Conflict, got {:?}", other),
    }
    assert_eq!(d, before);
}

#[test]
fn rating_on_unknown_movie_is_not_found() {
    let mut d = AppData::new();
    match d.insert_rating(42, mk_rating(20240101, 8)) {
        Err(StoreError::NotFound) => {}
        other => panic!("expected NotFound, got {:?}", other),
    }
}

#[test]
fn patch_moves_rating_like_delete_then_insert() {
    let mut d = AppData::new();
    d.create_movie(mk_movie(1)).unwrap();
    d.insert_rating(1, mk_rating(20240101, 8)).unwrap();
    d.insert_rating(1, mk_rating(20240301, 6)).unwrap();

    // one document patches; the other deletes then inserts
    let mut d2 = d.clone();
    d.patch_rating(1, 20240101, mk_rating(20240201, 9)).unwrap();
    d2.delete_rating(1, 20240101).unwrap();
    d2.insert_rating(1, mk_rating(20240201, 9)).unwrap();
    assert_eq!(d, d2);

    let dates = dates_of(&d, 1);
    assert_eq!(dates, vec![20240201, 20240301]);
    assert!(!dates.contains(&20240101));
}

#[test]
fn patch_same_date_replaces_in_place() {
    let mut d = AppData::new();
    d.create_movie(mk_movie(1)).unwrap();
    d.insert_rating(1, mk_rating(20240101, 3)).unwrap();
    d.patch_rating(1, 20240101, mk_rating(20240101, 10)).unwrap();
    let m = d.get_movie(1).unwrap();
    assert_eq!(m.ratings.len(), 1);
    assert_eq!(m.ratings[0].rating, 10);
}

#[test]
fn patch_missing_date_is_not_found() {
    let mut d = AppData::new();
    d.create_movie(mk_movie(1)).unwrap();
    let before = d.clone();
    match d.patch_rating(1, 20240101, mk_rating(20240102, 5)) {
        Err(StoreError::NotFound) => {}
        other => panic!("expected NotFound, got {:?}", other),
    }
    assert_eq!(d, before);
}

#[test]
fn patch_onto_occupied_date_conflicts() {
    let mut d = AppData::new();
    d.create_movie(mk_movie(1)).unwrap();
    d.insert_rating(1, mk_rating(20240101, 8)).unwrap();
    d.insert_rating(1, mk_rating(20240201, 6)).unwrap();
    let before = d.clone();
    match d.patch_rating(1, 20240101, mk_rating(20240201, 9)) {
        Err(StoreError::Conflict) => {}
        other => panic!("expected Conflict, got {:?}", other),
    }
    assert_eq!(d, before);
}

#[test]
fn delete_missing_rating_leaves_document_unchanged() {
    let mut d = AppData::new();
    d.create_movie(mk_movie(1)).unwrap();
    d.insert_rating(1, mk_rating(20240101, 8)).unwrap();
    let before = d.clone();
    match d.delete_rating(1, 20240401) {
        Err(StoreError::NotFound) => {}
        other => panic!("expected NotFound, got {:?}", other),
    }
    assert_eq!(d, before);
}
