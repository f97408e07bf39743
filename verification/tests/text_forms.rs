use media_catalog::decimal::{parse_u32, parse_u64, u64_to_string};
use media_catalog::enrich::{ProviderError, err_to_string, parse_imdb_ref, search_should_query};
use media_catalog::error::StoreError;
use media_catalog::olid::{Key, KeyedKey, OlId, OlIdKind};
use media_catalog::openlib::{Client, Description, Search, SearchKind, WorksEditions};

#[test]
fn decimal_parse_and_render() {
    assert_eq!(parse_u64("0"), Some(0));
    assert_eq!(parse_u64("1234567890"), Some(1234567890));
    assert_eq!(parse_u64("007"), Some(7));
    assert_eq!(parse_u64(""), None);
    assert_eq!(parse_u64("12a"), None);
    assert_eq!(parse_u64("+12"), None);
    assert_eq!(parse_u64("18446744073709551615"), Some(u64::MAX));
    assert_eq!(parse_u64("18446744073709551616"), None);
    assert_eq!(parse_u32("4294967295"), Some(u32::MAX));
    assert_eq!(parse_u32("4294967296"), None);
    assert_eq!(u64_to_string(0), "0");
    assert_eq!(u64_to_string(905), "905");
    assert_eq!(u64_to_string(u64::MAX), "18446744073709551615");
}

#[test]
fn olid_round_trips() {
    let id = OlId { id: 27448, kind: OlIdKind::Work };
    assert_eq!(id.to_text(), "OL27448W");
    assert_eq!(OlId::from_text("OL27448W").unwrap(), id);
    assert_eq!(
        OlId::from_text("OL1M").unwrap(),
        OlId { id: 1, kind: OlIdKind::Book }
    );
    assert_eq!(
        OlId::from_text("OL9A").unwrap(),
        OlId { id: 9, kind: OlIdKind::Author }
    );
}

#[test]
fn malformed_olids_are_rejected() {
    for bad in ["", "OL", "OLW", "L1W", "OL1X", "OL12", "ol1w", "OL1.5W", "OL18446744073709551616W"] {
        match OlId::from_text(bad) {
            Err(StoreError::BadRequest) => {}
            other => panic!("expected BadRequest for {:?}, got {:?}", bad, other),
        }
    }
}

#[test]
fn keys_split_on_the_last_slash() {
    let k = Key::from_text("/works/OL27448W").unwrap();
    assert_eq!(k.path, "/works");
    assert_eq!(k.id, OlId { id: 27448, kind: OlIdKind::Work });
    assert_eq!(k.to_text(), "/works/OL27448W");

    let nested = Key::from_text("/a/b/OL5M").unwrap();
    assert_eq!(nested.path, "/a/b");

    for bad in ["OL27448W", "/works/", "/works/notanid"] {
        assert!(Key::from_text(bad).is_err(), "expected failure for {:?}", bad);
    }
}

#[test]
fn keyed_key_wraps_and_unwraps() {
    let k = Key::from_text("/works/OL1W").unwrap();
    let wrapped = KeyedKey::from(k.clone());
    assert_eq!(wrapped.key, k);
    assert_eq!(Key::from(wrapped), k);
}

#[test]
fn search_request_text() {
    let c = Client::new();
    assert_eq!(c.host, "https://openlibrary.org");
    let s = Search::new(String::from("erebos"));
    assert_eq!(s.limit, 10);
    assert_eq!(s.path(), "/search.json");
    assert_eq!(c.endpoint(&s.path()), "https://openlibrary.org/search.json");
    let pairs = s.query_pairs();
    assert_eq!(pairs[0], ("q", String::from("erebos")));
    assert_eq!(pairs[1], ("offset", String::from("0")));
    assert_eq!(pairs[2], ("limit", String::from("10")));
    assert_eq!(
        pairs[3],
        (
            "fields",
            String::from(
                "key,cover_edition_key,edition_count,title,author_name,first_publish_year,ratings_average"
            )
        )
    );
    let authors = Search { kind: SearchKind::Authors, ..Search::new(String::from("x")) };
    assert_eq!(authors.path(), "/search/authors.json");
}

#[test]
fn editions_request_text() {
    let w = WorksEditions::new(OlId { id: 27448, kind: OlIdKind::Work });
    assert_eq!(w.path(), "/works/OL27448W/editions.json");
    let pairs = w.query_pairs();
    assert_eq!(pairs[0], ("offset", String::from("0")));
    assert_eq!(pairs[1], ("limit", String::from("10")));
}

#[test]
fn descriptions_collapse_to_their_text() {
    let direct = Description::Direct(String::from("plain"));
    assert_eq!(String::from(direct), "plain");
    let typed = Description::Typed {
        shape: String::from("/type/text"),
        value: String::from("structured"),
    };
    assert_eq!(String::from(typed), "structured");
    match Description::from(String::from("back")) {
        Description::Direct(s) => assert_eq!(s, "back"),
        _ => panic!("expected the direct form"),
    }
}

#[test]
fn imdb_reference_parsing() {
    assert_eq!(parse_imdb_ref("tt0137523"), Some(137523));
    assert_eq!(parse_imdb_ref("0137523"), Some(137523));
    assert_eq!(parse_imdb_ref("ttt42"), Some(42));
    assert_eq!(parse_imdb_ref("tt"), None);
    assert_eq!(parse_imdb_ref("tt12x"), None);
    assert_eq!(parse_imdb_ref("tt4294967296"), None);
}

#[test]
fn blank_titles_are_not_searched() {
    assert!(!search_should_query(""));
    assert!(!search_should_query("   \t\n"));
    assert!(search_should_query("erebos"));
    assert!(search_should_query("  e "));
}

#[test]
fn provider_errors_render_exactly() {
    let transport = ProviderError::Transport(String::from("connection refused"));
    assert_eq!(err_to_string(&transport), "connection refused");

    let validation = ProviderError::Validation(vec![
        String::from("bad key"),
        String::from("bad id"),
    ]);
    assert_eq!(err_to_string(&validation), "server validation error: bad key, bad id");

    let single = ProviderError::Validation(vec![String::from("only")]);
    assert_eq!(err_to_string(&single), "server validation error: only");

    let server = ProviderError::Server {
        code: 404,
        status_code: 34,
        status_message: String::from("The resource you requested could not be found."),
    };
    assert_eq!(
        err_to_string(&server),
        "server error 404: 34 The resource you requested could not be found."
    );
}
