//! The `jobs` table: scheduled jobs, one-off or recurring.
use vstd::prelude::*;
use vstd::string::*;
use crate::command::same_text;
use crate::json::json_clone;
use crate::time::{at_or_before, delta_from_seconds, delta_seconds, delta_subsec_nanos,
    delta_times, reached, Timestamp};

verus! {

pub const DAY_IN_SECONDS: i32 = 86400;
pub const HOUR_IN_SECONDS: i32 = 3600;
pub const MINUTE_IN_SECONDS: i32 = 60;

/// How long a job that has failed rests before it is offered again.
pub const RETRY_BACKOFF_SECONDS: i64 = 3600;

/// Whether a job recurs or runs once.
#[derive(Clone, Copy, Debug, PartialEq, Eq, Structural)]
pub enum JobType {
    Cron,
    SingleExecution,
}

/// The unit in which a recurring job's period is counted.
#[derive(Clone, Copy, Debug, PartialEq, Eq, Structural)]
pub enum CronUnit {
    Day,
    Hour,
    Minute,
    Second,
}

/// A unit of deferred work.
#[derive(Debug, PartialEq, Eq)]
pub struct Job {
    /// Identifies the job; no two stored jobs share it.
    pub id: u128,
    /// Names the handler that runs the job.
    pub name: String,
    pub job_type: JobType,
    /// The instant from which the job may run.
    pub expected_time: Timestamp,
    /// With `cron_unit`, the period of a recurring job; both are there or
    /// neither is.
    pub cron_period: Option<i32>,
    pub cron_unit: Option<CronUnit>,
    /// Whatever the handler needs; the store only carries it.
    pub metadata: serde_json::Value,
    /// When the job was last attempted.
    pub executed_at: Option<Timestamp>,
    /// What the last failure said.
    pub error_message: Option<String>,
}

impl Clone for Job {
    fn clone(&self) -> (copy: Job)
        ensures
            copy == *self,
    {
        Job {
            id: self.id,
            name: self.name.clone(),
            job_type: self.job_type,
            expected_time: self.expected_time,
            cron_period: self.cron_period,
            cron_unit: self.cron_unit,
            metadata: json_clone(&self.metadata),
            executed_at: self.executed_at,
            error_message: match &self.error_message {
                Some(message) => Some(message.clone()),
                None => None,
            },
        }
    }
}

/// Why the store turned a request down.
#[derive(Clone, Copy, Debug, PartialEq, Eq, Structural)]
pub enum StoreError {
    /// A period was given without a unit, or a unit without a period.
    CronMismatch,
    /// The identifier of a new job is already taken.
    DuplicateJobId,
    /// The slot of a job that is put back is already taken.
    DuplicateSlot,
    /// The issue already has a ballot.
    DecisionExists,
    /// The issue has no ballot.
    NotFound,
}

/// Seconds in one unit.
pub open spec fn unit_seconds(unit: CronUnit) -> int {
    match unit {
        CronUnit::Day => DAY_IN_SECONDS as int,
        CronUnit::Hour => HOUR_IN_SECONDS as int,
        CronUnit::Minute => MINUTE_IN_SECONDS as int,
        CronUnit::Second => 1,
    }
}

/// The time that `cron_period` units take, in whole seconds. Nothing is
/// clamped: a negative period gives a negative span.
pub fn get_duration_from_cron(cron_period: i32, cron_unit: &CronUnit) -> (d: chrono::TimeDelta)
    ensures
        delta_seconds(d) == cron_period * unit_seconds(*cron_unit),
        delta_subsec_nanos(d) == 0,
{
    let base = delta_from_seconds(cron_period as i64);
    match cron_unit {
        CronUnit::Day => delta_times(base, DAY_IN_SECONDS),
        CronUnit::Hour => delta_times(base, HOUR_IN_SECONDS),
        CronUnit::Minute => delta_times(base, MINUTE_IN_SECONDS),
        CronUnit::Second => base,
    }
}

/// The job occupies the slot `(name, expected_time)`.
pub open spec fn in_slot(job: Job, name: Seq<char>, expected_time: Timestamp) -> bool {
    job.name@ == name && job.expected_time == expected_time
}

/// Some row occupies the slot `(name, expected_time)`.
pub open spec fn slot_taken(rows: Seq<Job>, name: Seq<char>, expected_time: Timestamp) -> bool {
    exists|i: int| 0 <= i < rows.len() && in_slot(#[trigger] rows[i], name, expected_time)
}

/// The position of the row in the slot `(name, expected_time)`.
pub open spec fn slot_index(rows: Seq<Job>, name: Seq<char>, expected_time: Timestamp) -> int {
    choose|i: int| 0 <= i < rows.len() && in_slot(#[trigger] rows[i], name, expected_time)
}

/// Some row carries the identifier `id`.
pub open spec fn id_taken(rows: Seq<Job>, id: u128) -> bool {
    exists|i: int| 0 <= i < rows.len() && (#[trigger] rows[i]).id == id
}

/// The position of the row with the identifier `id`.
pub open spec fn id_index(rows: Seq<Job>, id: u128) -> int {
    choose|i: int| 0 <= i < rows.len() && (#[trigger] rows[i]).id == id
}

/// A period and a unit come together or not at all.
pub open spec fn cron_paired(cron_period: Option<i32>, cron_unit: Option<CronUnit>) -> bool {
    cron_period is Some <==> cron_unit is Some
}

/// What the table guarantees of its rows: no identifier and no slot is used
/// twice, and every row has its period and unit together or not at all.
pub open spec fn rows_valid(rows: Seq<Job>) -> bool {
    &&& forall|i: int, j: int|
        0 <= i < j < rows.len() ==> (#[trigger] rows[i]).id != (#[trigger] rows[j]).id
    &&& forall|i: int, j: int|
        0 <= i < j < rows.len() ==> !in_slot(
            #[trigger] rows[i],
            (#[trigger] rows[j]).name@,
            rows[j].expected_time,
        )
    &&& forall|i: int|
        0 <= i < rows.len() ==> cron_paired((#[trigger] rows[i]).cron_period, rows[i].cron_unit)
}

/// The row that a scheduling request asks for: not yet run, not yet failed.
pub open spec fn requested_job(
    id: u128,
    name: String,
    job_type: JobType,
    expected_time: Timestamp,
    cron_period: Option<i32>,
    cron_unit: Option<CronUnit>,
    metadata: serde_json::Value,
) -> Job {
    Job {
        id,
        name,
        job_type,
        expected_time,
        cron_period,
        cron_unit,
        metadata,
        executed_at: None,
        error_message: None,
    }
}

/// The table after a scheduling request for `job`.
///
/// Where the slot of `job` is taken, the row in it gets the metadata of
/// `job` and keeps everything else; nothing else of the request counts.
/// Otherwise `job` is added as a new row, unless its period and unit do
/// not come together or its identifier is taken.
pub open spec fn upserted(rows: Seq<Job>, job: Job) -> Result<Seq<Job>, StoreError> {
    if slot_taken(rows, job.name@, job.expected_time) {
        let i = slot_index(rows, job.name@, job.expected_time);
        Ok(rows.update(i, Job { metadata: job.metadata, ..rows[i] }))
    } else if !cron_paired(job.cron_period, job.cron_unit) {
        Err(StoreError::CronMismatch)
    } else if id_taken(rows, job.id) {
        Err(StoreError::DuplicateJobId)
    } else {
        Ok(rows.push(job))
    }
}

/// The table without the row that carries `id`.
pub open spec fn without_id(rows: Seq<Job>, id: u128) -> Seq<Job> {
    if id_taken(rows, id) {
        rows.remove(id_index(rows, id))
    } else {
        rows
    }
}

/// The table after a failure of the job `id` was recorded.
pub open spec fn with_error(rows: Seq<Job>, id: u128, message: String) -> Seq<Job> {
    if id_taken(rows, id) {
        let i = id_index(rows, id);
        rows.update(i, Job { error_message: Some(message), ..rows[i] })
    } else {
        rows
    }
}

/// The table after an attempt of the job `id` at `now` was recorded.
pub open spec fn with_executed_at(rows: Seq<Job>, id: u128, now: Timestamp) -> Seq<Job> {
    if id_taken(rows, id) {
        let i = id_index(rows, id);
        rows.update(i, Job { executed_at: Some(now), ..rows[i] })
    } else {
        rows
    }
}

/// Whether `job` is to be offered at `now`: its time has come, and it has
/// either never failed or was last attempted at least an hour ago. A job
/// that failed and has no recorded attempt is not offered.
pub open spec fn is_due(job: Job, now: Timestamp) -> bool {
    &&& at_or_before(job.expected_time, now)
    &&& (job.error_message is None || (job.executed_at is Some && reached(
        job.executed_at->0,
        RETRY_BACKOFF_SECONDS as int,
        now,
    )))
}

/// The rows that are due at `now`, in table order.
pub open spec fn due_rows(rows: Seq<Job>, now: Timestamp) -> Seq<Job> {
    rows.filter(|job: Job| is_due(job, now))
}

/// In a valid table a slot belongs to one row only.
pub proof fn lemma_slot_unique(rows: Seq<Job>, name: Seq<char>, expected_time: Timestamp, i: int)
    requires
        rows_valid(rows),
        0 <= i < rows.len(),
        in_slot(rows[i], name, expected_time),
    ensures
        slot_taken(rows, name, expected_time),
        slot_index(rows, name, expected_time) == i,
{
    let j = slot_index(rows, name, expected_time);
    if j < i {
        assert(!in_slot(rows[j], rows[i].name@, rows[i].expected_time));
    } else if i < j {
        assert(!in_slot(rows[i], rows[j].name@, rows[j].expected_time));
    }
}

/// In a valid table an identifier belongs to one row only.
pub proof fn lemma_id_unique(rows: Seq<Job>, id: u128, i: int)
    requires
        rows_valid(rows),
        0 <= i < rows.len(),
        rows[i].id == id,
    ensures
        id_taken(rows, id),
        id_index(rows, id) == i,
{
    let j = id_index(rows, id);
    if j < i {
        assert(rows[j].id != rows[i].id);
    } else if i < j {
        assert(rows[i].id != rows[j].id);
    }
}

/// How a scheduling request for `job` ends: with the table that
/// [`upserted`] gives, or with its error and the table as it was.
pub open spec fn upsert_outcome(
    before: Seq<Job>,
    job: Job,
    result: Result<(), StoreError>,
    after: Seq<Job>,
) -> bool {
    match upserted(before, job) {
        Ok(rows) => result is Ok && after == rows,
        Err(error) => result == Err::<(), StoreError>(error) && after == before,
    }
}

/// A row whose slot and identifier are free, and whose period and unit
/// come together, can be added to a valid table.
pub proof fn lemma_push_valid(rows: Seq<Job>, job: Job)
    requires
        rows_valid(rows),
        cron_paired(job.cron_period, job.cron_unit),
        !slot_taken(rows, job.name@, job.expected_time),
        !id_taken(rows, job.id),
    ensures
        rows_valid(rows.push(job)),
{
    let after = rows.push(job);
    assert forall|a: int, b: int| 0 <= a < b < after.len() implies (#[trigger] after[a]).id != (
    #[trigger] after[b]).id && !in_slot(after[a], after[b].name@, after[b].expected_time) by {
        if b < rows.len() {
            assert(rows[a].id != rows[b].id);
            assert(!in_slot(rows[a], rows[b].name@, rows[b].expected_time));
        } else {
            assert(rows[a].id != job.id);
            assert(!in_slot(rows[a], job.name@, job.expected_time));
        }
    }
    assert forall|a: int| 0 <= a < after.len() implies cron_paired(
        (#[trigger] after[a]).cron_period,
        after[a].cron_unit,
    ) by {
        if a < rows.len() {
            assert(cron_paired(rows[a].cron_period, rows[a].cron_unit));
        }
    }
}

/// A request keeps the table valid.
pub proof fn lemma_upserted_valid(rows: Seq<Job>, job: Job)
    requires
        rows_valid(rows),
        upserted(rows, job) is Ok,
    ensures
        rows_valid(upserted(rows, job)->Ok_0),
{
    let after = upserted(rows, job)->Ok_0;
    if slot_taken(rows, job.name@, job.expected_time) {
        assert forall|a: int, b: int| 0 <= a < b < after.len() implies (#[trigger] after[a]).id != (
        #[trigger] after[b]).id && !in_slot(after[a], after[b].name@, after[b].expected_time) by {
            assert(rows[a].id != rows[b].id);
            assert(!in_slot(rows[a], rows[b].name@, rows[b].expected_time));
        }
        assert forall|a: int| 0 <= a < after.len() implies cron_paired(
            (#[trigger] after[a]).cron_period,
            after[a].cron_unit,
        ) by {
            assert(cron_paired(rows[a].cron_period, rows[a].cron_unit));
        }
    } else {
        lemma_push_valid(rows, job);
    }
}

/// Two requests for one slot leave one row in it, and that row holds the
/// metadata of the second request. Nothing else in the table differs from
/// what the first request left.
pub proof fn lemma_upsert_twice(rows: Seq<Job>, first: Job, second: Job)
    requires
        rows_valid(rows),
        second.name@ == first.name@,
        second.expected_time == first.expected_time,
        upserted(rows, first) is Ok,
    ensures
        upserted(upserted(rows, first)->Ok_0, second) is Ok,
        ({
            let once = upserted(rows, first)->Ok_0;
            let twice = upserted(once, second)->Ok_0;
            let at = slot_index(twice, first.name@, first.expected_time);
            &&& rows_valid(twice)
            &&& twice.len() == once.len()
            &&& slot_taken(twice, first.name@, first.expected_time)
            &&& twice[at].metadata == second.metadata
            &&& forall|i: int|
                0 <= i < twice.len() && in_slot(#[trigger] twice[i], first.name@, first.expected_time)
                    ==> i == at
            &&& forall|i: int| 0 <= i < twice.len() && i != at ==> #[trigger] twice[i] == once[i]
        }),
{
    let name = first.name@;
    let time = first.expected_time;
    let once = upserted(rows, first)->Ok_0;
    lemma_upserted_valid(rows, first);
    let j = if slot_taken(rows, name, time) {
        slot_index(rows, name, time)
    } else {
        rows.len() as int
    };
    assert(in_slot(once[j], name, time));
    lemma_slot_unique(once, name, time, j);
    let twice = upserted(once, second)->Ok_0;
    lemma_upserted_valid(once, second);
    assert(in_slot(twice[j], name, time));
    lemma_slot_unique(twice, name, time, j);
    assert forall|i: int|
        0 <= i < twice.len() && in_slot(#[trigger] twice[i], name, time) implies i == j by {
        lemma_slot_unique(twice, name, time, i);
    }
}

/// The jobs offered at `now` are exactly the rows that are due at `now`.
pub proof fn lemma_due_rows_exact(rows: Seq<Job>, now: Timestamp, job: Job)
    ensures
        due_rows(rows, now).contains(job) <==> rows.contains(job) && is_due(job, now),
{
    let due = |job: Job| is_due(job, now);
    if due_rows(rows, now).contains(job) {
        rows.lemma_filter_contains_rev(due, job);
        let k = choose|k: int| 0 <= k < due_rows(rows, now).len() && due_rows(rows, now)[k] == job;
        rows.lemma_filter_pred(due, k);
    }
    if rows.contains(job) && is_due(job, now) {
        let i = choose|i: int| 0 <= i < rows.len() && rows[i] == job;
        rows.lemma_filter_contains(due, i);
    }
}

/// No job is offered before its time, and a job that has failed is not
/// offered until an hour has gone by since it was last attempted.
pub proof fn lemma_due_rows_respect_time_and_backoff(rows: Seq<Job>, now: Timestamp, i: int)
    requires
        0 <= i < rows.len(),
    ensures
        !at_or_before(rows[i].expected_time, now) ==> !due_rows(rows, now).contains(rows[i]),
        rows[i].error_message is Some && !(rows[i].executed_at is Some && reached(
            rows[i].executed_at->0,
            RETRY_BACKOFF_SECONDS as int,
            now,
        )) ==> !due_rows(rows, now).contains(rows[i]),
{
    lemma_due_rows_exact(rows, now, rows[i]);
}

/// The table of scheduled jobs.
pub struct JobStore {
    jobs: Vec<Job>,
}

impl View for JobStore {
    type V = Seq<Job>;

    /// The rows in table order.
    closed spec fn view(&self) -> Seq<Job> {
        self.jobs@
    }
}

impl JobStore {
    /// The invariant of the table.
    #[verifier::type_invariant]
    pub open spec fn wf(&self) -> bool {
        rows_valid(self@)
    }

    /// The empty table.
    pub fn new() -> (store: JobStore)
        ensures
            store.wf(),
            store@.len() == 0,
    {
        JobStore { jobs: Vec::new() }
    }

    /// The number of rows.
    pub fn len(&self) -> (n: usize)
        ensures
            n == self@.len(),
    {
        self.jobs.len()
    }

    /// The row at position `i`, if the table has that many rows.
    pub fn row(&self, i: usize) -> (r: Option<&Job>)
        ensures
            r is Some <==> i < self@.len(),
            r is Some ==> *r->0 == self@[i as int],
    {
        if i < self.jobs.len() {
            Some(&self.jobs[i])
        } else {
            None
        }
    }

    /// The position of the row in the slot `(name, expected_time)`.
    pub fn find_slot(&self, name: &str, expected_time: &Timestamp) -> (r: Option<usize>)
        ensures
            r is Some <==> slot_taken(self@, name@, *expected_time),
            r is Some ==> r->0 == slot_index(self@, name@, *expected_time) && r->0 < self@.len(),
    {
        proof {
            use_type_invariant(self);
        }
        let n: usize = self.jobs.len();
        let mut i: usize = 0;
        while i < n
            invariant
                n == self@.len(),
                self.wf(),
                0 <= i <= n,
                forall|j: int| 0 <= j < i ==> !in_slot(#[trigger] self@[j], name@, *expected_time),
            decreases n - i,
        {
            let job = &self.jobs[i];
            if job.expected_time.secs == expected_time.secs && job.expected_time.nanos
                == expected_time.nanos && same_text(job.name.as_str(), name) {
                proof {
                    lemma_slot_unique(self@, name@, *expected_time, i as int);
                }
                return Some(i);
            }
            i = i + 1;
        }
        None
    }

    /// The position of the row with the identifier `id`.
    pub fn find_id(&self, id: u128) -> (r: Option<usize>)
        ensures
            r is Some <==> id_taken(self@, id),
            r is Some ==> r->0 == id_index(self@, id) && r->0 < self@.len(),
    {
        proof {
            use_type_invariant(self);
        }
        let n: usize = self.jobs.len();
        let mut i: usize = 0;
        while i < n
            invariant
                n == self@.len(),
                self.wf(),
                0 <= i <= n,
                forall|j: int| 0 <= j < i ==> (#[trigger] self@[j]).id != id,
            decreases n - i,
        {
            if self.jobs[i].id == id {
                proof {
                    lemma_id_unique(self@, id, i as int);
                }
                return Some(i);
            }
            i = i + 1;
        }
        None
    }
}

impl JobStore {
    /// Puts `job` in the place of the row at position `i`.
    fn set_row(&mut self, i: usize, job: Job)
        requires
            i < old(self)@.len(),
            rows_valid(old(self)@.update(i as int, job)),
        ensures
            final(self)@ == old(self)@.update(i as int, job),
    {
        let mut rows: Vec<Job> = Vec::new();
        std::mem::swap(&mut rows, &mut self.jobs);
        rows.set(i, job);
        self.jobs = rows;
    }

    /// Adds `job` as the last row.
    fn push_row(&mut self, job: Job)
        requires
            rows_valid(old(self)@.push(job)),
        ensures
            final(self)@ == old(self)@.push(job),
    {
        let mut rows: Vec<Job> = Vec::new();
        std::mem::swap(&mut rows, &mut self.jobs);
        rows.push(job);
        self.jobs = rows;
    }

    /// Takes the row at position `i` out.
    fn remove_row(&mut self, i: usize)
        requires
            i < old(self)@.len(),
        ensures
            final(self)@ == old(self)@.remove(i as int),
    {
        proof {
            use_type_invariant(&*self);
        }
        let mut rows: Vec<Job> = Vec::new();
        std::mem::swap(&mut rows, &mut self.jobs);
        let _ = rows.remove(i);
        self.jobs = rows;
    }
}

impl Job {
    /// Whether the job is to be offered at `now`.
    pub fn is_due_at(&self, now: &Timestamp) -> (r: bool)
        ensures
            r == is_due(*self, *now),
    {
        if !self.expected_time.is_at_or_before(now) {
            return false;
        }
        if self.error_message.is_none() {
            return true;
        }
        match &self.executed_at {
            Some(attempt) => attempt.has_elapsed(RETRY_BACKOFF_SECONDS, now),
            None => false,
        }
    }
}

/// `uuid::Uuid::new_v4`, read as its 128 bits: a random identifier.
/// Nothing is promised of its value. The outside function panics where the
/// system cannot supply random bytes.
#[verifier::external_body]
pub(crate) fn random_job_id() -> (id: u128) {
    uuid::Uuid::new_v4().as_u128()
}

/// Schedules a job under the identifier `id`, or refreshes the metadata of
/// the job that already holds the slot `(name, expected_time)`.
pub fn insert_job_with_id(
    db: &mut JobStore,
    id: u128,
    name: &String,
    job_type: &JobType,
    expected_time: &Timestamp,
    cron_period: &Option<i32>,
    cron_unit: &Option<CronUnit>,
    metadata: &serde_json::Value,
) -> (r: Result<(), StoreError>)
    ensures
        final(db).wf(),
        upsert_outcome(
            old(db)@,
            requested_job(
                id,
                *name,
                *job_type,
                *expected_time,
                *cron_period,
                *cron_unit,
                *metadata,
            ),
            r,
            final(db)@,
        ),
{
    let ghost job = requested_job(
        id,
        *name,
        *job_type,
        *expected_time,
        *cron_period,
        *cron_unit,
        *metadata,
    );
    proof {
        use_type_invariant(&*db);
    }
    match db.find_slot(name.as_str(), expected_time) {
        Some(i) => {
            let current = db.jobs[i].clone();
            let refreshed = Job { metadata: json_clone(metadata), ..current };
            proof {
                lemma_upserted_valid(db@, job);
            }
            db.set_row(i, refreshed);
            Ok(())
        },
        None => {
            if cron_period.is_some() != cron_unit.is_some() {
                return Err(StoreError::CronMismatch);
            }
            if db.find_id(id).is_some() {
                return Err(StoreError::DuplicateJobId);
            }
            proof {
                lemma_upserted_valid(db@, job);
            }
            db.push_row(
                Job {
                    id,
                    name: name.clone(),
                    job_type: *job_type,
                    expected_time: *expected_time,
                    cron_period: *cron_period,
                    cron_unit: *cron_unit,
                    metadata: json_clone(metadata),
                    executed_at: None,
                    error_message: None,
                },
            );
            Ok(())
        },
    }
}

/// The table after the row `job` was put back as it is, with what it has
/// on record. A row that would break what the table guarantees is turned
/// down: its period and unit must come together, and neither its slot nor
/// its identifier may be taken.
pub open spec fn restored(rows: Seq<Job>, job: Job) -> Result<Seq<Job>, StoreError> {
    if !cron_paired(job.cron_period, job.cron_unit) {
        Err(StoreError::CronMismatch)
    } else if slot_taken(rows, job.name@, job.expected_time) {
        Err(StoreError::DuplicateSlot)
    } else if id_taken(rows, job.id) {
        Err(StoreError::DuplicateJobId)
    } else {
        Ok(rows.push(job))
    }
}

/// Puts a row back into the table as it is, with its record of attempts
/// and failures: the way to fill a table from what was stored elsewhere.
pub fn restore_job(db: &mut JobStore, job: Job) -> (r: Result<(), StoreError>)
    ensures
        final(db).wf(),
        (match restored(old(db)@, job) {
            Ok(rows) => r is Ok && final(db)@ == rows,
            Err(error) => r == Err::<(), StoreError>(error) && final(db)@ == old(db)@,
        }),
{
    proof {
        use_type_invariant(&*db);
    }
    if job.cron_period.is_some() != job.cron_unit.is_some() {
        return Err(StoreError::CronMismatch);
    }
    if db.find_slot(job.name.as_str(), &job.expected_time).is_some() {
        return Err(StoreError::DuplicateSlot);
    }
    if db.find_id(job.id).is_some() {
        return Err(StoreError::DuplicateJobId);
    }
    proof {
        lemma_push_valid(db@, job);
    }
    db.push_row(job);
    Ok(())
}

/// Schedules a job, or refreshes the metadata of the job that already
/// holds the slot `(name, expected_time)`.
///
/// A new job gets a random identifier; the request for one fails where
/// that identifier is already taken, and where a period comes without a
/// unit or a unit without a period.
pub fn insert_job(
    db: &mut JobStore,
    name: &String,
    job_type: &JobType,
    expected_time: &Timestamp,
    cron_period: &Option<i32>,
    cron_unit: &Option<CronUnit>,
    metadata: &serde_json::Value,
) -> (r: Result<(), StoreError>)
    ensures
        final(db).wf(),
        exists|id: u128|
            upsert_outcome(
                old(db)@,
                #[trigger] requested_job(
                    id,
                    *name,
                    *job_type,
                    *expected_time,
                    *cron_period,
                    *cron_unit,
                    *metadata,
                ),
                r,
                final(db)@,
            ),
        slot_taken(old(db)@, name@, *expected_time) ==> r is Ok,
        !slot_taken(old(db)@, name@, *expected_time) && !cron_paired(*cron_period, *cron_unit)
            ==> r == Err::<(), StoreError>(StoreError::CronMismatch),
        r is Err ==> final(db)@ == old(db)@,
{
    let id = random_job_id();
    insert_job_with_id(db, id, name, job_type, expected_time, cron_period, cron_unit, metadata)
}

/// Removes the job `id`. A job that is not there is no error.
pub fn delete_job(db: &mut JobStore, id: &u128) -> (r: Result<(), StoreError>)
    ensures
        final(db).wf(),
        r is Ok,
        final(db)@ == without_id(old(db)@, *id),
{
    proof {
        use_type_invariant(&*db);
    }
    match db.find_id(*id) {
        Some(i) => {
            db.remove_row(i);
        },
        None => {},
    }
    Ok(())
}

/// Records what the last failure of the job `id` said. When the job was
/// last attempted stays as it was.
pub fn update_job_error_message(db: &mut JobStore, id: &u128, message: &String) -> (r: Result<
    (),
    StoreError,
>)
    ensures
        final(db).wf(),
        r is Ok,
        final(db)@ == with_error(old(db)@, *id, *message),
{
    proof {
        use_type_invariant(&*db);
    }
    match db.find_id(*id) {
        Some(i) => {
            let current = db.jobs[i].clone();
            let failed = Job { error_message: Some(message.clone()), ..current };
            db.set_row(i, failed);
        },
        None => {},
    }
    Ok(())
}

/// Records that the job `id` was attempted at `now`.
pub fn update_job_executed_at(db: &mut JobStore, id: &u128, now: &Timestamp) -> (r: Result<
    (),
    StoreError,
>)
    ensures
        final(db).wf(),
        r is Ok,
        final(db)@ == with_executed_at(old(db)@, *id, *now),
{
    proof {
        use_type_invariant(&*db);
    }
    match db.find_id(*id) {
        Some(i) => {
            let current = db.jobs[i].clone();
            let attempted = Job { executed_at: Some(*now), ..current };
            db.set_row(i, attempted);
        },
        None => {},
    }
    Ok(())
}

/// Selects the jobs to run at `now`: those whose time has come and that
/// have either never failed or were last attempted at least an hour ago.
///
/// A job that has never failed is offered on every call until the caller
/// records its execution or deletes it.
pub fn get_jobs_to_execute(db: &JobStore, now: &Timestamp) -> (r: Result<Vec<Job>, StoreError>)
    ensures
        r is Ok,
        r->Ok_0@ == due_rows(db@, *now),
        forall|k: int|
            0 <= k < r->Ok_0@.len() ==> at_or_before((#[trigger] r->Ok_0@[k]).expected_time, *now),
        forall|k: int|
            0 <= k < r->Ok_0@.len() && (#[trigger] r->Ok_0@[k]).error_message is Some ==> (
            r->Ok_0@[k].executed_at is Some && reached(
                r->Ok_0@[k].executed_at->0,
                RETRY_BACKOFF_SECONDS as int,
                *now,
            )),
{
    let n: usize = db.jobs.len();
    let mut data: Vec<Job> = Vec::with_capacity(n);
    let mut i: usize = 0;
    let ghost due = |job: Job| is_due(job, *now);
    proof {
        assert(db@.take(0) =~= Seq::<Job>::empty());
        db@.take(0).lemma_filter_len(due);
    }
    while i < n
        invariant
            n == db@.len(),
            0 <= i <= n,
            due == (|job: Job| is_due(job, *now)),
            data@ == db@.take(i as int).filter(due),
        decreases n - i,
    {
        let job = &db.jobs[i];
        proof {
            db@.lemma_take_succ_push(i as int);
            db@.take(i as int).lemma_filter_push(db@[i as int], due);
        }
        if job.is_due_at(now) {
            data.push(job.clone());
        }
        i = i + 1;
    }
    proof {
        assert(db@.take(n as int) =~= db@);
        assert forall|k: int| 0 <= k < data@.len() implies is_due(#[trigger] data@[k], *now) by {
            db@.lemma_filter_pred(due, k);
        }
    }
    Ok(data)
}

} // verus!
