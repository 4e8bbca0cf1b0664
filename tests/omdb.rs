use nf_rated::omdb::{
    classify, classify_response, json_string, maybe_rating, maybe_uint, maybe_votes,
    request_uri, sync_outcome, OmdbErrorResponseJson, OmdbSuccessResponseJson,
    ResponseKind, SyncImdbResult,
};
use nf_rated::record::{CsvRow, JsonRow, RatedRow};

const SUCCESS_BODY: &str = r#"{"Type":"movie","Runtime":"120 min","Plot":"...","Genre":"Drama","Language":"English","Writer":"X","imdbRating":"8.5","imdbVotes":"12,345","imdbID":"tt0000001"}"#;

fn local_row() -> RatedRow {
    RatedRow::from_csv(CsvRow {
        id: 7,
        title: "Ship".to_string(),
        year: 2019,
        cast: "A, B".to_string(),
        country: "India".to_string(),
        director: "D".to_string(),
        typ: "Movie".to_string(),
        duration: "118 min".to_string(),
        plot: "Local plot".to_string(),
    })
}

#[test]
fn success_body_merges_rating_and_votes() {
    let result = classify_response(SUCCESS_BODY);
    assert_eq!(result.kind(), ResponseKind::Success);
    let json = match result {
        SyncImdbResult::Success(json) => json,
        _ => panic!("expected a success"),
    };
    assert_eq!(json.imdb_rating, Some(85));
    assert_eq!(json.imdb_votes, Some(12345));
    let merged = local_row().merge(json, 42);
    assert_eq!(merged.imdb_rating, Some(85));
    assert_eq!(merged.imdb_votes, Some(12345));
    assert_eq!(merged.imdb_id.as_deref(), Some("tt0000001"));
    assert_eq!(merged.typ, "movie");
    assert_eq!(merged.duration, "120 min");
    assert_eq!(merged.plot, "...");
    assert_eq!(merged.genre.as_deref(), Some("Drama"));
    assert_eq!(merged.language.as_deref(), Some("English"));
    assert_eq!(merged.writer.as_deref(), Some("X"));
    assert_eq!(merged.last_sync, Some(42));
    assert_eq!(merged.title, "Ship");
}

#[test]
fn rate_limit_body_classifies_as_rate_limit() {
    let result = classify_response(r#"{"Error":"Request limit reached!"}"#);
    assert_eq!(result.kind(), ResponseKind::RateLimitExceeded);
}

#[test]
fn not_found_body_classifies_as_not_found() {
    let result = classify_response(r#"{"Error":"Movie not found!"}"#);
    assert_eq!(result.kind(), ResponseKind::NotFound);
}

#[test]
fn malformed_body_classifies_as_unknown_and_keeps_text() {
    let body = "{\"Type\": \"movie\", oops";
    match classify_response(body) {
        SyncImdbResult::UnknownError(msg) => assert_eq!(msg, body),
        other => panic!("expected an unknown error, got {:?}", other),
    }
    match classify_response("[1, 2, 3]") {
        SyncImdbResult::UnknownError(msg) => assert_eq!(msg, "[1, 2, 3]"),
        other => panic!("expected an unknown error, got {:?}", other),
    }
}

#[test]
fn other_error_message_is_kept_for_the_log() {
    match classify_response(r#"{"Error":"Invalid API key!"}"#) {
        SyncImdbResult::UnknownError(msg) => assert_eq!(msg, "Invalid API key!"),
        other => panic!("expected an unknown error, got {:?}", other),
    }
}

#[test]
fn missing_rating_classifies_as_missing_data() {
    let body = r#"{"Type":"movie","Runtime":"N/A","Plot":"N/A","Genre":"N/A","Language":"N/A","Writer":"N/A","imdbRating":"N/A","imdbVotes":"N/A","imdbID":"tt1"}"#;
    assert_eq!(classify_response(body).kind(), ResponseKind::MissingImdbData);
    let body = r#"{"Type":"movie","Runtime":"1 min","Plot":"p","Genre":"g","Language":"l","Writer":"w","imdbRating":"7.0","imdbVotes":"3","imdbID":"N/A"}"#;
    assert_eq!(classify_response(body).kind(), ResponseKind::MissingImdbData);
}

#[test]
fn success_with_unavailable_fields_keeps_local_values() {
    let body = r#"{"Type":"N/A","Runtime":"N/A","Plot":"N/A","Genre":"N/A","Language":"French","Writer":"N/A","imdbRating":"6.1","imdbVotes":"N/A","imdbID":"tt2"}"#;
    let json = match classify_response(body) {
        SyncImdbResult::Success(json) => json,
        other => panic!("expected a success, got {:?}", other),
    };
    assert_eq!(json.genre, None);
    assert_eq!(json.imdb_votes, None);
    let merged = local_row().merge(json, 5);
    assert_eq!(merged.typ, "Movie");
    assert_eq!(merged.duration, "118 min");
    assert_eq!(merged.plot, "Local plot");
    assert_eq!(merged.language.as_deref(), Some("French"));
    assert_eq!(merged.imdb_rating, Some(61));
}

#[test]
fn no_response_classifies_as_no_response() {
    assert_eq!(sync_outcome(None).kind(), ResponseKind::NoResponse);
    assert_eq!(sync_outcome(Some(SUCCESS_BODY)).kind(), ResponseKind::Success);
}

#[test]
fn classify_prefers_the_success_shape() {
    let success = OmdbSuccessResponseJson {
        typ: "series".to_string(),
        runtime: "N/A".to_string(),
        plot: "p".to_string(),
        genre: "g".to_string(),
        language: "l".to_string(),
        writer: "w".to_string(),
        imdb_rating: "9.95".to_string(),
        imdb_votes: "1,000".to_string(),
        imdb_id: "tt3".to_string(),
    };
    let error = OmdbErrorResponseJson { error: "limit reached".to_string() };
    match classify(Some(success), Some(error.clone()), "") {
        SyncImdbResult::Success(json) => {
            assert_eq!(json.imdb_rating, Some(100));
            assert_eq!(json.imdb_votes, Some(1000));
            assert_eq!(json.duration, None);
        }
        other => panic!("expected a success, got {:?}", other),
    }
    assert_eq!(classify(None, Some(error), "").kind(), ResponseKind::RateLimitExceeded);
    match classify(None, None, "garbage") {
        SyncImdbResult::UnknownError(msg) => assert_eq!(msg, "garbage"),
        other => panic!("expected an unknown error, got {:?}", other),
    }
}

#[test]
fn unavailable_rating_is_absent() {
    assert_eq!(maybe_rating("N/A"), None);
}

#[test]
fn ratings_scale_by_ten_and_round() {
    assert_eq!(maybe_rating("0.0"), Some(0));
    assert_eq!(maybe_rating("8.5"), Some(85));
    assert_eq!(maybe_rating("10.0"), Some(100));
    assert_eq!(maybe_rating("7.25"), Some(73));
    assert_eq!(maybe_rating("7.24"), Some(72));
    assert_eq!(maybe_rating("8"), Some(80));
    assert_eq!(maybe_rating("9.96"), Some(100));
    assert_eq!(maybe_rating("10.05"), None);
    assert_eq!(maybe_rating("10.1"), None);
    assert_eq!(maybe_rating("abc"), None);
    assert_eq!(maybe_rating(""), None);
    assert_eq!(maybe_rating("8."), None);
    assert_eq!(maybe_rating(".5"), None);
    for whole in 0..10u32 {
        for tenth in 0..10u32 {
            let text = format!("{}.{}", whole, tenth);
            let r = maybe_rating(&text).unwrap();
            assert_eq!(r, whole * 10 + tenth);
            assert!(r <= 100);
        }
    }
}

#[test]
fn votes_drop_thousands_separators() {
    assert_eq!(maybe_votes("12,345"), Some(12345));
    assert_eq!(maybe_votes("1,234,567"), Some(1234567));
    assert_eq!(maybe_votes("987"), Some(987));
    assert_eq!(maybe_votes("N/A"), None);
    assert_eq!(maybe_votes(""), None);
    assert_eq!(maybe_votes("12a"), None);
}

#[test]
fn numbers_and_text_fields() {
    assert_eq!(maybe_uint("N/A"), None);
    assert_eq!(maybe_uint("2019"), Some(2019));
    assert_eq!(maybe_uint("+7"), Some(7));
    assert_eq!(maybe_uint("4294967295"), Some(u32::MAX));
    assert_eq!(maybe_uint("4294967296"), None);
    assert_eq!(json_string("N/A"), None);
    assert_eq!(json_string("n/a"), Some("n/a".to_string()));
}

#[test]
fn missing_imdb_data_needs_rating_and_id() {
    let mut row = JsonRow {
        typ: None,
        duration: None,
        plot: None,
        genre: None,
        language: None,
        writer: None,
        imdb_rating: Some(50),
        imdb_votes: None,
        imdb_id: Some("tt9".to_string()),
    };
    assert!(!row.is_missing_imdb_data());
    row.imdb_rating = None;
    assert!(row.is_missing_imdb_data());
    row.imdb_rating = Some(0);
    row.imdb_id = None;
    assert!(row.is_missing_imdb_data());
}

#[test]
fn request_uri_percent_encodes_the_title() {
    assert_eq!(
        request_uri("KEY", "Star Wars: Épisode 1"),
        "http://www.omdbapi.com/?apikey=KEY&t=Star%20Wars%3A%20%C3%89pisode%201"
    );
    assert_eq!(request_uri("k", "abc123"), "http://www.omdbapi.com/?apikey=k&t=abc123");
}
