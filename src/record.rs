use vstd::prelude::*;

use crate::text::{parse_u32, u32_of_text};

verus! {

/// A catalogue entry: what the bulk load knows of a title, and what the
/// rating service added to it.
#[derive(Debug, Clone)]
pub struct RatedRow {
    // From the bulk catalogue.
    pub id: u32,
    pub title: String,
    pub year: u32,
    pub cast: String,
    pub country: String,
    pub director: String,
    // From the bulk catalogue, replaced by the rating service's values where
    // it has them.
    pub typ: String,
    pub duration: String,
    pub plot: String,
    // From the rating service only.
    pub genre: Option<String>,
    pub language: Option<String>,
    pub writer: Option<String>,
    /// The rating times ten, in `0..=100`.
    pub imdb_rating: Option<u32>,
    pub imdb_votes: Option<u32>,
    pub imdb_id: Option<String>,
    /// Seconds since the catalogue's epoch at the last successful merge;
    /// `None` while the row has never been reconciled.
    pub last_sync: Option<u32>,
}

/// A row of the bulk catalogue.
#[derive(Debug, Clone)]
pub struct CsvRow {
    pub id: u32,
    pub title: String,
    pub year: u32,
    pub cast: String,
    pub country: String,
    pub director: String,
    pub typ: String,
    pub duration: String,
    pub plot: String,
}

/// The fields that the rating service reports for a title; `None` where it
/// reported none.
#[derive(Debug, Clone)]
pub struct JsonRow {
    pub typ: Option<String>,
    pub duration: Option<String>,
    pub plot: Option<String>,
    pub genre: Option<String>,
    pub language: Option<String>,
    pub writer: Option<String>,
    /// The rating times ten, in `0..=100`.
    pub imdb_rating: Option<u32>,
    pub imdb_votes: Option<u32>,
    pub imdb_id: Option<String>,
}

impl RatedRow {
    /// A row that has not been reconciled yet.
    pub open spec fn is_pending(&self) -> bool {
        self.last_sync is None
    }

    /// The row that the bulk load creates from a catalogue row.
    pub open spec fn spec_from_csv(csv: CsvRow) -> RatedRow {
        RatedRow {
            id: csv.id,
            title: csv.title,
            year: csv.year,
            cast: csv.cast,
            country: csv.country,
            director: csv.director,
            typ: csv.typ,
            duration: csv.duration,
            plot: csv.plot,
            genre: None,
            language: None,
            writer: None,
            imdb_rating: None,
            imdb_votes: None,
            imdb_id: None,
            last_sync: None,
        }
    }

    /// `self` with the rating service's `json` merged in at time `last_sync`:
    /// the service's type, duration and plot win where it has them, every
    /// other field of the service is taken as it is.
    pub open spec fn merged(self, json: JsonRow, last_sync: u32) -> RatedRow {
        RatedRow {
            id: self.id,
            title: self.title,
            year: self.year,
            cast: self.cast,
            country: self.country,
            director: self.director,
            typ: match json.typ {
                Some(t) => t,
                None => self.typ,
            },
            duration: match json.duration {
                Some(d) => d,
                None => self.duration,
            },
            plot: match json.plot {
                Some(p) => p,
                None => self.plot,
            },
            genre: json.genre,
            language: json.language,
            writer: json.writer,
            imdb_rating: json.imdb_rating,
            imdb_votes: json.imdb_votes,
            imdb_id: json.imdb_id,
            last_sync: Some(last_sync),
        }
    }

    /// The pending row that the bulk load stores for `csv`.
    pub fn from_csv(csv: CsvRow) -> (r: RatedRow)
        ensures
            r == RatedRow::spec_from_csv(csv),
            r.is_pending(),
    {
        RatedRow {
            id: csv.id,
            title: csv.title,
            year: csv.year,
            cast: csv.cast,
            country: csv.country,
            director: csv.director,
            typ: csv.typ,
            duration: csv.duration,
            plot: csv.plot,
            genre: None,
            language: None,
            writer: None,
            imdb_rating: None,
            imdb_votes: None,
            imdb_id: None,
            last_sync: None,
        }
    }

    /// Merges the rating service's fields into this row (see `merged`).
    pub fn merge(self, json: JsonRow, last_sync: u32) -> (r: RatedRow)
        ensures
            r == self.merged(json, last_sync),
            !r.is_pending(),
    {
        let typ = match json.typ {
            Some(t) => t,
            None => self.typ,
        };
        let duration = match json.duration {
            Some(d) => d,
            None => self.duration,
        };
        let plot = match json.plot {
            Some(p) => p,
            None => self.plot,
        };
        RatedRow {
            id: self.id,
            title: self.title,
            year: self.year,
            cast: self.cast,
            country: self.country,
            director: self.director,
            typ,
            duration,
            plot,
            genre: json.genre,
            language: json.language,
            writer: json.writer,
            imdb_rating: json.imdb_rating,
            imdb_votes: json.imdb_votes,
            imdb_id: json.imdb_id,
            last_sync: Some(last_sync),
        }
    }
}

/// Merging the same fields a second time changes nothing: the row is the
/// one the first merge gave.
pub proof fn lemma_merge_idempotent(row: RatedRow, json: JsonRow, last_sync: u32)
    ensures
        row.merged(json, last_sync).merged(json, last_sync) == row.merged(json, last_sync),
{
}

/// Where the rating service reports no type, duration or plot, the merged
/// row keeps the one it had.
pub proof fn lemma_merge_keeps_local_fields(row: RatedRow, json: JsonRow, last_sync: u32)
    ensures
        json.typ is None ==> row.merged(json, last_sync).typ == row.typ,
        json.duration is None ==> row.merged(json, last_sync).duration == row.duration,
        json.plot is None ==> row.merged(json, last_sync).plot == row.plot,
{
}

impl JsonRow {
    /// The service gave no usable sync: its rating or its identifier is
    /// missing.
    pub open spec fn spec_is_missing_imdb_data(&self) -> bool {
        self.imdb_id is None || self.imdb_rating is None
    }

    pub fn is_missing_imdb_data(&self) -> (r: bool)
        ensures
            r == self.spec_is_missing_imdb_data(),
    {
        self.imdb_id.is_none() || self.imdb_rating.is_none()
    }
}

/// Column positions in the catalogue file.
pub const CSV_ID: usize = 0;
pub const CSV_TYPE: usize = 1;
pub const CSV_TITLE: usize = 2;
pub const CSV_DIRECTOR: usize = 3;
pub const CSV_CAST: usize = 4;
pub const CSV_COUNTRY: usize = 5;
pub const CSV_RELEASE_YEAR: usize = 7;
pub const CSV_DURATION: usize = 9;
pub const CSV_DESCRIPTION: usize = 11;
pub const CSV_MIN_FIELDS: usize = 12;

impl CsvRow {
    /// The catalogue row that `fields` describe, if they are complete: the
    /// identifier and the release year must be unsigned numbers.
    pub open spec fn spec_from_fields(fields: Seq<String>) -> Option<CsvRow> {
        if fields.len() < CSV_MIN_FIELDS {
            None
        } else {
            match (u32_of_text(fields[CSV_ID as int]@), u32_of_text(fields[CSV_RELEASE_YEAR as int]@)) {
                (Some(id), Some(year)) => Some(
                    CsvRow {
                        id,
                        title: fields[CSV_TITLE as int],
                        year,
                        cast: fields[CSV_CAST as int],
                        country: fields[CSV_COUNTRY as int],
                        director: fields[CSV_DIRECTOR as int],
                        typ: fields[CSV_TYPE as int],
                        duration: fields[CSV_DURATION as int],
                        plot: fields[CSV_DESCRIPTION as int],
                    },
                ),
                _ => None,
            }
        }
    }

    /// Reads a catalogue row from the fields of one record of the catalogue
    /// file.
    pub fn from_fields(fields: &Vec<String>) -> (r: Option<CsvRow>)
        ensures
            r == CsvRow::spec_from_fields(fields@),
    {
        if fields.len() < CSV_MIN_FIELDS {
            return None;
        }
        let id = parse_u32(fields[CSV_ID].as_str());
        let year = parse_u32(fields[CSV_RELEASE_YEAR].as_str());
        match (id, year) {
            (Some(id), Some(year)) => Some(
                CsvRow {
                    id,
                    title: fields[CSV_TITLE].clone(),
                    year,
                    cast: fields[CSV_CAST].clone(),
                    country: fields[CSV_COUNTRY].clone(),
                    director: fields[CSV_DIRECTOR].clone(),
                    typ: fields[CSV_TYPE].clone(),
                    duration: fields[CSV_DURATION].clone(),
                    plot: fields[CSV_DESCRIPTION].clone(),
                },
            ),
            _ => None,
        }
    }
}

} // verus!
