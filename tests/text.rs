use nf_rated::record::CsvRow;
use nf_rated::text::{contains_text, parse_tenths, parse_u32, same_text, split_words, strip_commas};

#[test]
fn words_split_at_ascii_whitespace() {
    assert_eq!(split_words("  a bc\t\nd\r\x0Ce "), vec!["a", "bc", "d", "e"]);
    assert!(split_words(" \t ").is_empty());
    assert_eq!(split_words("x\u{a0}y"), vec!["x\u{a0}y"]);
}

#[test]
fn substring_search() {
    assert!(contains_text("Request limit reached!", "limit reached"));
    assert!(!contains_text("limit", "limit reached"));
    assert!(contains_text("abc", ""));
    assert!(same_text("N/A", "N/A"));
    assert!(!same_text("N/A", "N/B"));
}

#[test]
fn unsigned_numbers() {
    assert_eq!(parse_u32("0"), Some(0));
    assert_eq!(parse_u32("+"), None);
    assert_eq!(parse_u32("-1"), None);
    assert_eq!(parse_u32(" 1"), None);
    assert_eq!(strip_commas("1,2,,3"), vec!['1', '2', '3']);
    assert_eq!(parse_tenths("123.45", 2000), Some(1235));
    assert_eq!(parse_tenths("123.45", 1000), None);
}

#[test]
fn catalogue_rows_from_fields() {
    let fields: Vec<String> = [
        "81145628", "Movie", "Norm of the North", "Richard Finn", "Alan Marriott",
        "United States", "September 9, 2019", "2019", "PG", "90 min", "Children", "A plot",
    ]
    .iter()
    .map(|s| s.to_string())
    .collect();
    let row = CsvRow::from_fields(&fields).unwrap();
    assert_eq!(row.id, 81145628);
    assert_eq!(row.year, 2019);
    assert_eq!(row.title, "Norm of the North");
    assert_eq!(row.typ, "Movie");
    assert_eq!(row.director, "Richard Finn");
    assert_eq!(row.cast, "Alan Marriott");
    assert_eq!(row.country, "United States");
    assert_eq!(row.duration, "90 min");
    assert_eq!(row.plot, "A plot");
    assert!(CsvRow::from_fields(&fields[..11].to_vec()).is_none());
    let mut bad = fields.clone();
    bad[0] = "s1".to_string();
    assert!(CsvRow::from_fields(&bad).is_none());
}
