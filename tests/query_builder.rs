use nf_rated::query::{
    build_sorted_filtered_query, build_sorted_query, destructure_query_filter,
    is_valid_query_filter, ColumnFilter, ItemType, QueryTerm, CAST_COLUMN, COUNTRY_COLUMN,
    GENRE_COLUMN, TITLE_COLUMN,
};

#[test]
fn query_genre_sci_not_adventure_drama() {
    assert_eq!(
        build_sorted_filtered_query(
            vec![ColumnFilter::new(GENRE_COLUMN, "sci !adventure drama")],
            &ItemType::Both
        ),
        "SELECT * FROM nf_imdb WHERE
  genre LIKE '%sci%'
  AND NOT genre LIKE '%adventure%'
  AND genre LIKE '%drama%'
  AND last_sync IS NOT NULL ORDER BY imdb_rating DESC;"
    )
}

#[test]
fn query_title_ship() {
    assert_eq!(
        build_sorted_filtered_query(vec![ColumnFilter::new(TITLE_COLUMN, "ship")], &ItemType::Both),
        "SELECT * FROM nf_imdb WHERE
  title LIKE '%ship%'
  AND last_sync IS NOT NULL ORDER BY imdb_rating DESC;"
    )
}

#[test]
fn query_country_not_india() {
    assert_eq!(
        build_sorted_filtered_query(
            vec![ColumnFilter::new(COUNTRY_COLUMN, "!india")],
            &ItemType::Both
        ),
        "SELECT * FROM nf_imdb WHERE
  NOT country LIKE '%india%'
  AND last_sync IS NOT NULL ORDER BY imdb_rating DESC;"
    )
}

#[test]
fn query_title_ship_movies_only() {
    assert_eq!(
        build_sorted_filtered_query(vec![ColumnFilter::new(TITLE_COLUMN, "ship")], &ItemType::Movie),
        "SELECT * FROM nf_imdb WHERE
  title LIKE '%ship%'
  AND type = 'movie'
  AND last_sync IS NOT NULL ORDER BY imdb_rating DESC;"
    )
}

#[test]
fn query_title_ship_series_only() {
    assert_eq!(
        build_sorted_filtered_query(
            vec![ColumnFilter::new(TITLE_COLUMN, "ship")],
            &ItemType::Series
        ),
        "SELECT * FROM nf_imdb WHERE
  title LIKE '%ship%'
  AND type = 'series'
  AND last_sync IS NOT NULL ORDER BY imdb_rating DESC;"
    )
}

#[test]
fn query_title_ship_genre_sci() {
    assert_eq!(
        build_sorted_filtered_query(
            vec![
                ColumnFilter::new(TITLE_COLUMN, "ship"),
                ColumnFilter::new(GENRE_COLUMN, "sci"),
            ],
            &ItemType::Both
        ),
        "SELECT * FROM nf_imdb WHERE
  title LIKE '%ship%'
  AND genre LIKE '%sci%'
  AND last_sync IS NOT NULL ORDER BY imdb_rating DESC;"
    )
}

#[test]
fn query_title_ship_genre_sci_cast_not_badactor() {
    assert_eq!(
        build_sorted_filtered_query(
            vec![
                ColumnFilter::new(TITLE_COLUMN, "ship"),
                ColumnFilter::new(GENRE_COLUMN, "sci"),
                ColumnFilter::new(CAST_COLUMN, "!badactor"),
            ],
            &ItemType::Both
        ),
        "SELECT * FROM nf_imdb WHERE
  title LIKE '%ship%'
  AND genre LIKE '%sci%'
  AND NOT 'cast' LIKE '%badactor%'
  AND last_sync IS NOT NULL ORDER BY imdb_rating DESC;"
    )
}

#[test]
fn empty_filters_are_skipped_between_others() {
    assert_eq!(
        build_sorted_filtered_query(
            vec![
                ColumnFilter::new(GENRE_COLUMN, "   "),
                ColumnFilter::new(TITLE_COLUMN, "ship"),
            ],
            &ItemType::Both
        ),
        "SELECT * FROM nf_imdb WHERE
  title LIKE '%ship%'
  AND last_sync IS NOT NULL ORDER BY imdb_rating DESC;"
    )
}

#[test]
fn lone_bang_counts_as_a_term_for_and() {
    let f = ColumnFilter::new(TITLE_COLUMN, "! ship");
    assert_eq!(f.sql_fragments(false), vec!["\n  AND title LIKE '%ship%'".to_string()]);
    assert_eq!(f.sql_fragments(true), vec!["\n  AND title LIKE '%ship%'".to_string()]);
}

#[test]
fn sorted_query_for_each_item_type() {
    assert_eq!(
        build_sorted_query(&ItemType::Both),
        "SELECT * FROM nf_imdb WHERE\n last_sync IS NOT NULL ORDER BY imdb_rating DESC;"
    );
    assert_eq!(
        build_sorted_query(&ItemType::Movie),
        "SELECT * FROM nf_imdb WHERE\n type = 'movie'\n AND last_sync IS NOT NULL ORDER BY imdb_rating DESC;"
    );
    assert_eq!(
        build_sorted_query(&ItemType::Series),
        "SELECT * FROM nf_imdb WHERE\n type = 'series'\n AND last_sync IS NOT NULL ORDER BY imdb_rating DESC;"
    );
}

#[test]
fn destructure_splits_terms() {
    let terms = destructure_query_filter("  drama\t!comedy ! sci\n");
    assert_eq!(terms.len(), 3);
    assert!(matches!(&terms[0], QueryTerm::And(s) if s == "drama"));
    assert!(matches!(&terms[1], QueryTerm::Not(s) if s == "comedy"));
    assert!(matches!(&terms[2], QueryTerm::And(s) if s == "sci"));
}

#[test]
fn validity_of_filters() {
    assert!(!is_valid_query_filter(""));
    assert!(!is_valid_query_filter("  ! "));
    assert!(is_valid_query_filter("!x"));
    assert!(is_valid_query_filter("x"));
}
