use media_catalog::error::StoreError;
use media_catalog::schema::Rating;
use media_catalog::olid::{OlId, OlIdKind};
use media_catalog::schema::{AppData, Book, Reading};

fn work(id: u64) -> OlId {
    OlId { id, kind: OlIdKind::Work }
}

fn mk_book(id: u64, title: &str) -> Book {
    Book {
        olid: work(id),
        isbn: 9783785560242,
        title: String::from(title),
        description: String::new(),
        authors: vec![String::from("someone")],
        readings: Vec::new(),
        tags: Vec::new(),
        release_date: String::from("2010"),
        start_page: 1,
        end_page: 320,
        score_bits: None,
    }
}

fn empty_reading() -> Reading {
    Reading { pages_read: Vec::new(), rating: None }
}

#[test]
fn create_and_get_book() {
    let mut d = AppData::new();
    d.create_book(mk_book(7, "Erebos")).unwrap();
    assert_eq!(d.get_book(work(7)).unwrap().title, "Erebos");
    assert!(d.get_book(work(8)).is_none());
}

#[test]
fn duplicate_book_key_conflicts() {
    let mut d = AppData::new();
    d.create_book(mk_book(7, "first")).unwrap();
    match d.create_book(mk_book(7, "second")) {
        Err(StoreError::Conflict) => {}
        other => panic!("expected Conflict, got {:?}", other),
    }
    assert_eq!(d.get_book(work(7)).unwrap().title, "first");
}

#[test]
fn replace_and_delete_book() {
    let mut d = AppData::new();
    assert!(d.replace_book(mk_book(7, "x")).is_err());
    d.create_book(mk_book(7, "x")).unwrap();
    d.replace_book(mk_book(7, "y")).unwrap();
    assert_eq!(d.get_book(work(7)).unwrap().title, "y");
    d.delete_book(work(7)).unwrap();
    assert!(d.get_book(work(7)).is_none());
}

#[test]
fn delete_missing_book_leaves_document_unchanged() {
    let mut d = AppData::new();
    d.create_book(mk_book(7, "keep")).unwrap();
    let before = d.clone();
    match d.delete_book(work(9)) {
        Err(StoreError::NotFound) => {}
        other => panic!("expected NotFound, got {:?}", other),
    }
    assert_eq!(d, before);
}

#[test]
fn readings_append_and_delete_by_index() {
    let mut d = AppData::new();
    d.create_book(mk_book(7, "b")).unwrap();
    d.add_reading(work(7), empty_reading()).unwrap();
    d.add_reading(work(7), empty_reading()).unwrap();
    assert_eq!(d.get_book(work(7)).unwrap().readings.len(), 2);
    match d.delete_reading(work(7), 2) {
        Err(StoreError::NotFound) => {}
        other => panic!("expected NotFound, got {:?}", other),
    }
    d.delete_reading(work(7), 1).unwrap();
    assert_eq!(d.get_book(work(7)).unwrap().readings.len(), 1);
}

#[test]
fn delete_reading_out_of_range_leaves_document_unchanged() {
    let mut d = AppData::new();
    d.create_book(mk_book(7, "b")).unwrap();
    d.add_reading(work(7), empty_reading()).unwrap();
    let before = d.clone();
    assert!(d.delete_reading(work(7), 5).is_err());
    assert_eq!(d, before);
}

#[test]
fn zero_pages_removes_positive_overwrites() {
    let mut d = AppData::new();
    d.create_book(mk_book(7, "b")).unwrap();
    d.add_reading(work(7), empty_reading()).unwrap();

    d.set_pages(work(7), 0, 20240101, 25).unwrap();
    d.set_pages(work(7), 0, 20240102, 50).unwrap();
    let pages = &d.get_book(work(7)).unwrap().readings[0].pages_read;
    assert_eq!(pages.len(), 2);

    // zero deletes the day's entry
    d.set_pages(work(7), 0, 20240101, 0).unwrap();
    let pages = &d.get_book(work(7)).unwrap().readings[0].pages_read;
    assert_eq!(pages.len(), 1);
    assert_eq!(pages[0].date, 20240102);

    // a zero-then-positive sequence reflects only the final value
    d.set_pages(work(7), 0, 20240102, 0).unwrap();
    d.set_pages(work(7), 0, 20240102, 75).unwrap();
    let pages = &d.get_book(work(7)).unwrap().readings[0].pages_read;
    assert_eq!(pages.len(), 1);
    assert_eq!(pages[0].pages, 75);

    // zero for an absent date is a successful no-op
    let before = d.clone();
    d.set_pages(work(7), 0, 20990101, 0).unwrap();
    assert_eq!(d, before);
}

#[test]
fn set_pages_out_of_range_is_not_found() {
    let mut d = AppData::new();
    d.create_book(mk_book(7, "b")).unwrap();
    let before = d.clone();
    match d.set_pages(work(7), 0, 20240101, 10) {
        Err(StoreError::NotFound) => {}
        other => panic!("expected NotFound, got {:?}", other),
    }
    assert_eq!(d, before);
}

#[test]
fn reading_rating_set_and_clear() {
    let mut d = AppData::new();
    d.create_book(mk_book(7, "b")).unwrap();
    d.add_reading(work(7), empty_reading()).unwrap();
    let r = Rating {
        date: 20240301,
        rating: 9,
        speed_bits: (1.0f32).to_bits(),
        platform: None,
        tags: Vec::new(),
    };
    d.set_reading_rating(work(7), 0, Some(r.clone())).unwrap();
    assert_eq!(d.get_book(work(7)).unwrap().readings[0].rating, Some(r));
    d.set_reading_rating(work(7), 0, None).unwrap();
    assert_eq!(d.get_book(work(7)).unwrap().readings[0].rating, None);
    match d.set_reading_rating(work(7), 3, None) {
        Err(StoreError::NotFound) => {}
        other => panic!("expected NotFound, got {:?}", other),
    }
}
