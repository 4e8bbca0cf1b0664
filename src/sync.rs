use vstd::prelude::*;

use crate::omdb::SyncImdbResult;
use crate::record::RatedRow;

verus! {

/// The start of the catalogue's own epoch, in seconds since the Unix epoch.
pub const CREATE_SECS: u64 = 1599939357;

/// The request budget of a run where none is configured.
pub const DEFAULT_REQUEST_BUDGET: usize = 1000;

/// `unix_secs` as seconds since the catalogue's epoch, held to the range of
/// a `u32`.
pub open spec fn epoch_secs(unix_secs: u64) -> u32 {
    if unix_secs < CREATE_SECS {
        0
    } else if unix_secs - CREATE_SECS > u32::MAX {
        u32::MAX
    } else {
        (unix_secs - CREATE_SECS) as u32
    }
}

/// Seconds since the catalogue's epoch at the Unix time `unix_secs`.
pub fn secs_since_creation_at(unix_secs: u64) -> (r: u32)
    ensures
        r == epoch_secs(unix_secs),
{
    if unix_secs < CREATE_SECS {
        0
    } else if unix_secs - CREATE_SECS > 0xFFFF_FFFF {
        0xFFFF_FFFF
    } else {
        (unix_secs - CREATE_SECS) as u32
    }
}

/// Relies on `SystemTime::elapsed` measured from `UNIX_EPOCH`: whole seconds
/// since the Unix epoch by the system clock, `None` where the clock stands
/// before it. Nothing is promised of the value.
#[verifier::external_body]
fn unix_time_secs() -> (r: Option<u64>) {
    std::time::UNIX_EPOCH.elapsed().ok().map(|d| d.as_secs())
}

/// Seconds since the catalogue's epoch, now; `0` where the system clock
/// stands before the Unix epoch.
pub fn secs_since_creation() -> (r: u32)
    ensures
        exists|unix_secs: u64| r == epoch_secs(unix_secs),
{
    match unix_time_secs() {
        Some(secs) => secs_since_creation_at(secs),
        None => {
            assert(epoch_secs(0) == 0);
            0
        },
    }
}

/// Which records a run deletes when the rating service confirms that it has
/// no usable data for them.
#[derive(Debug, Clone, Copy, PartialEq, Eq, Structural)]
pub enum DeletionPolicy {
    /// Only the first record that the run processes.
    FirstRecordOfRun,
    /// None: such records stay pending for a later run.
    Never,
}

/// What the store is to do after one request.
#[derive(Debug, Clone)]
pub enum SyncAction {
    /// Write the merged row over the stored row of its identifier.
    Update(RatedRow),
    /// Delete the row of this identifier.
    Delete(u32),
    /// Leave the row as it is: it stays pending.
    Keep,
    /// Leave the row as it is and stop the run: the quota is used up.
    Halt,
}

/// Where a run stands.
#[derive(Debug, Clone, Copy, PartialEq, Eq, Structural)]
pub enum RunStatus {
    /// Records remain to be processed.
    Running,
    /// Every record that the budget allowed was processed.
    Completed,
    /// The service reported its quota used up.
    Halted,
}

/// The state of one reconciliation run over the pending records, taken in
/// the order in which the store returned them.
pub struct SyncRun {
    pending: usize,
    budget: usize,
    amount: usize,
    position: usize,
    halted: bool,
    policy: DeletionPolicy,
}

pub struct SyncRunView {
    /// The number of pending records loaded.
    pub pending: nat,
    /// The most requests that the run may make.
    pub budget: nat,
    /// The number of records the run is to process: the smaller of the two.
    pub amount: nat,
    /// The number of records processed so far, which is the number of
    /// requests made.
    pub position: nat,
    pub halted: bool,
    pub policy: DeletionPolicy,
}

impl View for SyncRun {
    type V = SyncRunView;

    closed spec fn view(&self) -> SyncRunView {
        SyncRunView {
            pending: self.pending as nat,
            budget: self.budget as nat,
            amount: self.amount as nat,
            position: self.position as nat,
            halted: self.halted,
            policy: self.policy,
        }
    }
}

pub open spec fn min_nat(a: nat, b: nat) -> nat {
    if a <= b {
        a
    } else {
        b
    }
}

impl SyncRunView {
    pub open spec fn wf(self) -> bool {
        &&& self.amount == min_nat(self.budget, self.pending)
        &&& self.position <= self.amount
    }

    pub open spec fn status(self) -> RunStatus {
        if self.halted {
            RunStatus::Halted
        } else if self.position >= self.amount {
            RunStatus::Completed
        } else {
            RunStatus::Running
        }
    }

    /// The state after one more record was processed with an outcome of
    /// kind `halts` (the quota is used up) or not.
    pub open spec fn advanced(self, halts: bool) -> SyncRunView {
        SyncRunView { position: self.position + 1, halted: halts, ..self }
    }
}

/// Whether a run under `policy` deletes the record at `position` where the
/// service has no usable data for it.
pub open spec fn deletes_at(policy: DeletionPolicy, position: nat) -> bool {
    match policy {
        DeletionPolicy::FirstRecordOfRun => position == 0,
        DeletionPolicy::Never => false,
    }
}

/// What to do with `row`, processed at `position` at time `now`, given the
/// outcome of its request.
pub open spec fn decision(
    row: RatedRow,
    outcome: SyncImdbResult,
    position: nat,
    policy: DeletionPolicy,
    now: u32,
) -> SyncAction {
    match outcome {
        SyncImdbResult::Success(json) => SyncAction::Update(row.merged(json, now)),
        SyncImdbResult::MissingImdbData | SyncImdbResult::NotFound => if deletes_at(
            policy,
            position,
        ) {
            SyncAction::Delete(row.id)
        } else {
            SyncAction::Keep
        },
        SyncImdbResult::RateLimitExceeded => SyncAction::Halt,
        SyncImdbResult::NoResponse | SyncImdbResult::UnknownError(_) => SyncAction::Keep,
    }
}

/// A store of rows keyed by identifier after `action`.
pub open spec fn applied(store: Map<u32, RatedRow>, action: SyncAction) -> Map<u32, RatedRow> {
    match action {
        SyncAction::Update(row) => if store.contains_key(row.id) {
            store.insert(row.id, row)
        } else {
            store
        },
        SyncAction::Delete(id) => store.remove(id),
        SyncAction::Keep | SyncAction::Halt => store,
    }
}

/// Decides what to do with `row`, processed at `position`, given the outcome
/// of its request.
pub fn decide(
    row: RatedRow,
    outcome: SyncImdbResult,
    position: usize,
    policy: DeletionPolicy,
    now: u32,
) -> (r: SyncAction)
    ensures
        r == decision(row, outcome, position as nat, policy, now),
{
    let deletes = match policy {
        DeletionPolicy::FirstRecordOfRun => position == 0,
        DeletionPolicy::Never => false,
    };
    match outcome {
        SyncImdbResult::Success(json) => SyncAction::Update(row.merge(json, now)),
        SyncImdbResult::MissingImdbData | SyncImdbResult::NotFound => {
            if deletes {
                SyncAction::Delete(row.id)
            } else {
                SyncAction::Keep
            }
        },
        SyncImdbResult::RateLimitExceeded => SyncAction::Halt,
        SyncImdbResult::NoResponse | SyncImdbResult::UnknownError(_) => SyncAction::Keep,
    }
}

impl SyncRun {
    /// A run over `pending` loaded records that may make at most `budget`
    /// requests.
    pub fn new(pending: usize, budget: usize, policy: DeletionPolicy) -> (r: SyncRun)
        ensures
            r@.wf(),
            r@.pending == pending,
            r@.budget == budget,
            r@.position == 0,
            !r@.halted,
            r@.policy == policy,
    {
        let amount = if budget <= pending {
            budget
        } else {
            pending
        };
        SyncRun { pending, budget, amount, position: 0, halted: false, policy }
    }

    /// The number of pending records loaded.
    pub fn pending_count(&self) -> (r: usize)
        ensures
            r == self@.pending,
    {
        self.pending
    }

    /// The number of records that the run is to process.
    pub fn amount_to_process(&self) -> (r: usize)
        ensures
            r == self@.amount,
    {
        self.amount
    }

    /// The number of records processed, and so of requests made, so far.
    pub fn position(&self) -> (r: usize)
        ensures
            r == self@.position,
    {
        self.position
    }

    pub fn status(&self) -> (r: RunStatus)
        ensures
            r == self@.status(),
    {
        if self.halted {
            RunStatus::Halted
        } else if self.position >= self.amount {
            RunStatus::Completed
        } else {
            RunStatus::Running
        }
    }

    /// The index, in load order, of the record to request next; `None` once
    /// the run has completed or halted.
    pub fn next_index(&self) -> (r: Option<usize>)
        ensures
            r == if self@.status() == RunStatus::Running {
                Some(self@.position as usize)
            } else {
                None::<usize>
            },
    {
        if self.halted || self.position >= self.amount {
            None
        } else {
            Some(self.position)
        }
    }

    /// Records the outcome of the request for `row`, the record at
    /// `next_index()`, and says what the store is to do.
    pub fn record(&mut self, row: RatedRow, outcome: SyncImdbResult, now: u32) -> (r: SyncAction)
        requires
            old(self)@.wf(),
            old(self)@.status() == RunStatus::Running,
        ensures
            final(self)@.wf(),
            final(self)@ == old(self)@.advanced(outcome is RateLimitExceeded),
            r == decision(row, outcome, old(self)@.position, old(self)@.policy, now),
    {
        let halts = match outcome {
            SyncImdbResult::RateLimitExceeded => true,
            _ => false,
        };
        let action = decide(row, outcome, self.position, self.policy, now);
        self.position = self.position + 1;
        self.halted = halts;
        action
    }
}

/// A run never makes more requests than its budget allows, nor more than
/// there are pending records.
pub proof fn lemma_requests_within_budget(run: SyncRunView)
    requires
        run.wf(),
    ensures
        run.position <= run.budget,
        run.position <= run.pending,
        run.status() == RunStatus::Running ==> run.advanced(false).wf() && run.advanced(true).wf(),
{
}

/// Once the service reports its quota used up, the run halts: no further
/// record is requested, and the store, with every row merged before, is
/// left as it was.
pub proof fn lemma_rate_limit_halts_run(
    run: SyncRunView,
    row: RatedRow,
    now: u32,
    store: Map<u32, RatedRow>,
)
    requires
        run.wf(),
        run.status() == RunStatus::Running,
    ensures
        run.advanced(true).status() == RunStatus::Halted,
        applied(
            store,
            decision(row, SyncImdbResult::RateLimitExceeded, run.position, run.policy, now),
        ) == store,
{
}

/// Under the first-record policy a title that the service does not know is
/// deleted where it is the first record processed, and left untouched
/// anywhere later in the run.
pub proof fn lemma_not_found_deletes_only_first(
    row: RatedRow,
    position: nat,
    now: u32,
    store: Map<u32, RatedRow>,
)
    ensures
        position == 0 ==> applied(
            store,
            decision(row, SyncImdbResult::NotFound, position, DeletionPolicy::FirstRecordOfRun, now),
        ) == store.remove(row.id),
        position == 0 ==> !applied(
            store,
            decision(row, SyncImdbResult::NotFound, position, DeletionPolicy::FirstRecordOfRun, now),
        ).contains_key(row.id),
        position > 0 ==> applied(
            store,
            decision(row, SyncImdbResult::NotFound, position, DeletionPolicy::FirstRecordOfRun, now),
        ) == store,
{
}

} // verus!
