use nf_rated::omdb::{classify_response, SyncImdbResult};
use nf_rated::record::{CsvRow, JsonRow, RatedRow};
use nf_rated::sync::{
    decide, secs_since_creation, secs_since_creation_at, DeletionPolicy, RunStatus, SyncAction,
    SyncRun, CREATE_SECS,
};

fn row(id: u32, title: &str) -> RatedRow {
    RatedRow::from_csv(CsvRow {
        id,
        title: title.to_string(),
        year: 2000,
        cast: String::new(),
        country: String::new(),
        director: String::new(),
        typ: "movie".to_string(),
        duration: "90 min".to_string(),
        plot: "local".to_string(),
    })
}

fn external(rating: u32) -> JsonRow {
    JsonRow {
        typ: Some("series".to_string()),
        duration: None,
        plot: Some("external".to_string()),
        genre: Some("Drama".to_string()),
        language: None,
        writer: Some("W".to_string()),
        imdb_rating: Some(rating),
        imdb_votes: Some(10),
        imdb_id: Some("tt5".to_string()),
    }
}

#[test]
fn run_processes_at_most_the_budget() {
    let mut run = SyncRun::new(5, 3, DeletionPolicy::FirstRecordOfRun);
    assert_eq!(run.amount_to_process(), 3);
    assert_eq!(run.pending_count(), 5);
    let mut requests = 0;
    while let Some(i) = run.next_index() {
        assert_eq!(i, requests);
        requests += 1;
        run.record(row(i as u32, "t"), SyncImdbResult::NoResponse, 0);
    }
    assert_eq!(requests, 3);
    assert_eq!(run.status(), RunStatus::Completed);
}

#[test]
fn run_processes_every_pending_record_within_budget() {
    let mut run = SyncRun::new(2, 1000, DeletionPolicy::FirstRecordOfRun);
    assert_eq!(run.amount_to_process(), 2);
    let mut requests = 0;
    while let Some(i) = run.next_index() {
        requests += 1;
        run.record(row(i as u32, "t"), SyncImdbResult::UnknownError("x".to_string()), 0);
    }
    assert_eq!(requests, 2);
    let empty = SyncRun::new(0, 10, DeletionPolicy::Never);
    assert_eq!(empty.next_index(), None);
    assert_eq!(empty.status(), RunStatus::Completed);
}

#[test]
fn rate_limit_halts_the_run() {
    let mut run = SyncRun::new(4, 10, DeletionPolicy::FirstRecordOfRun);
    let first = run.record(row(1, "a"), SyncImdbResult::Success(external(70)), 9);
    assert!(matches!(first, SyncAction::Update(ref r) if r.imdb_rating == Some(70) && r.last_sync == Some(9)));
    let second = run.record(
        row(2, "b"),
        classify_response(r#"{"Error":"Request limit reached!"}"#),
        9,
    );
    assert!(matches!(second, SyncAction::Halt));
    assert_eq!(run.status(), RunStatus::Halted);
    assert_eq!(run.next_index(), None);
    assert_eq!(run.position(), 2);
}

#[test]
fn not_found_deletes_only_the_first_record() {
    let mut run = SyncRun::new(3, 10, DeletionPolicy::FirstRecordOfRun);
    let a = run.record(row(11, "a"), SyncImdbResult::NotFound, 0);
    assert!(matches!(a, SyncAction::Delete(11)));
    let b = run.record(row(12, "b"), SyncImdbResult::NotFound, 0);
    assert!(matches!(b, SyncAction::Keep));
    let c = run.record(row(13, "c"), SyncImdbResult::MissingImdbData, 0);
    assert!(matches!(c, SyncAction::Keep));
}

#[test]
fn missing_data_on_first_record_deletes_it() {
    let mut run = SyncRun::new(1, 1, DeletionPolicy::FirstRecordOfRun);
    let a = run.record(row(21, "a"), SyncImdbResult::MissingImdbData, 0);
    assert!(matches!(a, SyncAction::Delete(21)));
}

#[test]
fn never_policy_keeps_every_record() {
    assert!(matches!(
        decide(row(1, "a"), SyncImdbResult::NotFound, 0, DeletionPolicy::Never, 0),
        SyncAction::Keep
    ));
    assert!(matches!(
        decide(row(1, "a"), SyncImdbResult::MissingImdbData, 0, DeletionPolicy::Never, 0),
        SyncAction::Keep
    ));
}

#[test]
fn merge_twice_gives_the_same_row() {
    let once = row(3, "c").merge(external(88), 100);
    let twice = once.clone().merge(external(88), 100);
    assert_eq!(format!("{:?}", once), format!("{:?}", twice));
    assert_eq!(once.typ, "series");
    assert_eq!(once.duration, "90 min");
    assert_eq!(once.plot, "external");
    assert_eq!(once.language, None);
}

#[test]
fn absent_external_duration_keeps_local_duration() {
    let merged = row(4, "d").merge(external(10), 1);
    assert_eq!(merged.duration, "90 min");
    assert_eq!(merged.title, "d");
    assert_eq!(merged.id, 4);
}

#[test]
fn epoch_seconds() {
    assert_eq!(secs_since_creation_at(CREATE_SECS), 0);
    assert_eq!(secs_since_creation_at(CREATE_SECS + 61), 61);
    assert_eq!(secs_since_creation_at(0), 0);
    assert_eq!(secs_since_creation_at(u64::MAX), u32::MAX);
    assert!(secs_since_creation() > 0);
}
