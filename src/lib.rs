//! Local catalogue of video titles, enriched with ratings from an external
//! rating service, and the state behind its terminal browser.
//!
//! The enrichment engine lives in `omdb` (the rating service's responses and
//! how they are classified), `record` (the catalogue rows and how external
//! fields are merged into them) and `sync` (the budgeted reconciliation run).
//! `query` builds the store's queries from the browser's filters, `browse`
//! and `stateful_list` hold the browser's state, and `text` the character
//! level parsing that the others share.

pub mod browse;
pub mod omdb;
pub mod query;
pub mod record;
pub mod stateful_list;
pub mod sync;
pub mod text;

pub use record::RatedRow;
