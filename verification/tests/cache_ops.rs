use media_catalog::assets::{AssetCache, AssetPlan, asset_plan, cover_url, poster_url};
use media_catalog::enrich::{MovieDetails, ResolveStep, assemble_movie, find_step,
    platforms_from_providers, resolve_step};
use media_catalog::error::StoreError;
use media_catalog::schema::Platform;
use media_catalog::olid::{OlId, OlIdKind};
use media_catalog::schema::AppData;

#[test]
fn poster_url_is_exact() {
    let u = poster_url("w92", "abc.jpg");
    assert_eq!(u, "https://image.tmdb.org/t/p/w92/abc.jpg");
}

#[test]
fn cover_url_needs_an_identifier() {
    let id = OlId { id: 123, kind: OlIdKind::Book };
    let u = cover_url(Some(id), "S").unwrap();
    assert_eq!(u, "https://covers.openlibrary.org/b/olid/OL123M-S.jpg?default=false");
    match cover_url(None, "S") {
        Err(StoreError::ServiceUnavailable(msg)) => {
            assert_eq!(msg, "cannot auto-download cover without OpenLibrary ID");
        }
        other => panic!("expected ServiceUnavailable, got {:?}", other),
    }
}

#[test]
fn second_asset_request_skips_the_network() {
    let mut cache = AssetCache::new();
    let mut fetches = 0;
    let name = String::from("abc.jpg");

    // first request: a miss, so the plan is to fetch
    match asset_plan(&cache, &name, Ok(poster_url("w92", "abc.jpg"))) {
        AssetPlan::Fetch(u) => {
            fetches += 1;
            assert_eq!(u, "https://image.tmdb.org/t/p/w92/abc.jpg");
            cache.commit_download(name.clone(), vec![1, 2, 3]);
        }
        _ => panic!("expected a fetch on the first request"),
    }

    // second request: served from the cache, same bytes, no fetch
    match asset_plan(&cache, &name, Ok(poster_url("w92", "abc.jpg"))) {
        AssetPlan::Hit(bytes) => assert_eq!(bytes, &vec![1u8, 2, 3]),
        _ => panic!("expected a hit on the second request"),
    }
    assert_eq!(fetches, 1);
}

#[test]
fn unresolvable_asset_returns_the_resolver_error_verbatim() {
    let cache = AssetCache::new();
    let name = String::from("55");
    match asset_plan(&cache, &name, cover_url(None, "M")) {
        AssetPlan::Fail(StoreError::ServiceUnavailable(msg)) => {
            assert_eq!(msg, "cannot auto-download cover without OpenLibrary ID");
        }
        _ => panic!("expected the resolver's failure"),
    }
}

#[test]
fn committed_asset_overwrites_earlier_bytes() {
    let mut cache = AssetCache::new();
    let name = String::from("x");
    cache.commit_download(name.clone(), vec![1]);
    cache.commit_download(name.clone(), vec![2]);
    assert_eq!(cache.lookup(&name), Some(&vec![2u8]));
    assert_eq!(cache.entries.len(), 1);
}

fn details(id: u64) -> MovieDetails {
    MovieDetails {
        tmdb_id: id,
        imdb_ref: Some(String::from("tt0137523")),
        title: String::from("resolved"),
        overview: String::from("..."),
        poster_path: None,
        release_day: 19991015,
        runtime_min: 139,
        score_bits: (8.4f64).to_bits(),
    }
}

#[test]
fn second_resolution_hits_the_memo() {
    let mut d = AppData::new();
    let key = String::from("603");
    let mut provider_calls = 0;

    match resolve_step(&d, &key) {
        ResolveStep::NeedDetails(id) => {
            assert_eq!(id, 603);
            provider_calls += 1;
            let movie = assemble_movie(details(id), platforms_from_providers(&vec![8]));
            d.cache_insert(key.clone(), movie);
        }
        _ => panic!("expected a details fetch on the first resolution"),
    }

    match resolve_step(&d, &key) {
        ResolveStep::Cached(m) => {
            assert_eq!(m.tmdb_id, 603);
            assert_eq!(m.title, "resolved");
        }
        _ => panic!("expected the memo to answer the second resolution"),
    }
    assert_eq!(provider_calls, 1);
}

#[test]
fn cross_reference_keys_ask_for_resolution_first() {
    let d = AppData::new();
    let key = String::from("tt0137523");
    match resolve_step(&d, &key) {
        ResolveStep::NeedFind(n) => assert_eq!(n, 137523),
        _ => panic!("expected a cross-reference resolution"),
    }
}

#[test]
fn malformed_key_is_rejected_without_any_network() {
    let d = AppData::new();
    for bad in ["abc", "", "tt", "ttx9", "12a", "tt99999999999", "99999999999999999999999"] {
        match resolve_step(&d, &String::from(bad)) {
            ResolveStep::Reject(StoreError::BadRequest) => {}
            _ => panic!("expected BadRequest for {:?}", bad),
        }
    }
}

#[test]
fn find_step_takes_the_first_result_or_fails() {
    assert_eq!(find_step(&vec![603, 604]).unwrap(), 603);
    match find_step(&Vec::new()) {
        Err(StoreError::NotFound) => {}
        other => panic!("expected NotFound, got {:?}", other),
    }
}

#[test]
fn platform_mapping_recognizes_three_providers() {
    let p = platforms_from_providers(&vec![119, 42, 8, 337, 337]);
    assert_eq!(p, vec![Platform::DisneyPlus, Platform::Netflix, Platform::PrimeVideo]);
    let none = platforms_from_providers(&vec![1, 2, 3]);
    assert!(none.is_empty());
}

#[test]
fn assembled_movie_reads_the_cross_reference() {
    let m = assemble_movie(details(603), Vec::new());
    assert_eq!(m.imdb_id, Some(137523));
    assert_eq!(m.runtime_secs, 139 * 60);
    assert!(m.ratings.is_empty());
    let mut broken = details(604);
    broken.imdb_ref = Some(String::from("not-an-id"));
    assert_eq!(assemble_movie(broken, Vec::new()).imdb_id, None);
}

#[test]
fn clear_cache_empties_only_the_cache() {
    let mut d = AppData::new();
    d.cache_insert(String::from("603"), assemble_movie(details(603), Vec::new()));
    d.create_book(media_catalog::schema::Book {
        olid: OlId { id: 1, kind: OlIdKind::Work },
        isbn: 0,
        title: String::from("b"),
        description: String::new(),
        authors: Vec::new(),
        readings: Vec::new(),
        tags: Vec::new(),
        release_date: String::new(),
        start_page: 0,
        end_page: 0,
        score_bits: None,
    })
    .unwrap();
    d.clear_cache();
    assert!(d.tmdb_cache.is_empty());
    assert_eq!(d.books.len(), 1);
}
