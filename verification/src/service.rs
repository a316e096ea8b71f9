//! The lease protocol: claiming the next pending task, and accepting or
//! refusing the result that a worker submits for its lease.

use vstd::prelude::*;
use crate::ids::{add_seconds_micros, current_time_micros, in_calendar, is_v4_uuid, seconds_delta_ok, format_uuid, parse_uuid, random_uuid, uuid_parse, uuid_text};
use crate::proto::{outcome_text, result_outcome_text, FailedOptimization, ResultOutcome, SubmitResult, TaskRunMetrics};
use crate::store::{
    deactivate_lease, fetch_first_pending_task, first_match, insert_lease, insert_task_result,
    latest_attempt_for_task, latest_lease, lease_by_ids, lease_has_id, lease_has_ids,
    leases_deactivated, lemma_first_match, lemma_latest_lease, mark_task_running, mark_task_status,
    result_has_lease_id, task_is_pending, tasks_with_status, LeaseRowView, NewTaskResult,
    TaskResultRowView, StoreError, StoreView, TaskStore,
};

verus! {

/// A lease handed to a worker: the task, the lease, the worker, when it was
/// leased and when it expires, which attempt at the task it is, and the
/// task's payload (JSON text).
pub struct TaskLease {
    pub task_id: u128,
    pub lease_id: u128,
    pub worker_id: u128,
    pub leased_at: i64,
    pub lease_expires_at: i64,
    pub attempt: i32,
    pub payload_json: String,
}

/// What a worker reports for a successful run: the best cost as the bit
/// pattern of a 32-bit float, and the best parameters as JSON text.
pub struct ReportedSuccess {
    pub best_cost_bits: u32,
    pub best_param_json: String,
}

/// A worker's report on a leased task.
pub struct SubmitTaskResultRequest {
    pub task_id: u128,
    pub lease_id: u128,
    pub worker_id: u128,
    pub outcome: ResultOutcome,
    pub metrics: TaskRunMetrics,
    pub success: Option<ReportedSuccess>,
    pub failure: Option<FailedOptimization>,
    pub finished_at: i64,
}

/// The attempt number that the next lease of task `task` gets: one more than
/// that of its most recent lease, or 1.
pub open spec fn next_attempt(leases: Seq<LeaseRowView>, task: Seq<char>) -> int {
    match latest_lease(leases, task) {
        Some(k) => leases[k].attempt + 1,
        None => 1,
    }
}

/// The next attempt number of the task that a claim would take fits in an `i32`.
pub open spec fn claim_attempt_fits(s: StoreView) -> bool {
    match first_match(s.tasks, task_is_pending()) {
        Some(i) => next_attempt(s.leases, s.tasks[i].task_id) <= i32::MAX,
        None => true,
    }
}

/// Whether the next attempt number of the task that a claim would take fits
/// in an `i32` (the precondition of a claim).
pub fn next_attempt_fits(store: &TaskStore) -> (r: bool)
    ensures
        r == claim_attempt_fits(store@),
{
    proof {
        lemma_first_match(store@.tasks, task_is_pending());
    }
    match fetch_first_pending_task(store) {
        None => true,
        Some(task) => {
            proof {
                lemma_latest_lease(store@.leases, task@.task_id);
            }
            match latest_attempt_for_task(store, task.task_id.as_str()) {
                Some(v) => v < i32::MAX,
                None => true,
            }
        },
    }
}

/// The tables after task row `i` is leased to `worker` from `now` until
/// `expires_at` under lease `lease_id`.
pub open spec fn claimed_store(
    s: StoreView,
    i: int,
    worker: u128,
    now: i64,
    expires_at: i64,
    lease_id: u128,
) -> StoreView {
    let t = s.tasks[i].task_id;
    StoreView {
        tasks: tasks_with_status(s.tasks, t, "running"@, now),
        leases: s.leases.push(
            LeaseRowView {
                lease_id: uuid_text(lease_id),
                task_id: t,
                worker_id: uuid_text(worker),
                leased_at: now,
                lease_expires_at: expires_at,
                attempt: next_attempt(s.leases, t) as i32,
                active: true,
            },
        ),
        results: s.results,
    }
}

/// A claim at `now` by `worker`, with expiry `expires_at` and new lease id
/// `lease_id`, turns tables `s` into `s2` and answers `r`:
/// - no pending task: nothing, and the tables stay;
/// - the first pending task's id is not a UUID: `InvalidUuid`, tables stay;
/// - the lease id is taken: `DuplicateKey`, tables stay;
/// - otherwise that task is running since `now`, a new active lease for it
///   is stored, and the lease is handed out.
pub open spec fn claim_outcome(
    s: StoreView,
    worker: u128,
    now: i64,
    expires_at: i64,
    lease_id: u128,
    r: Result<Option<TaskLease>, StoreError>,
    s2: StoreView,
) -> bool {
    match first_match(s.tasks, task_is_pending()) {
        None => r == Ok::<Option<TaskLease>, StoreError>(None) && s2 == s,
        Some(i) => if uuid_parse(s.tasks[i].task_id) is None {
            r == Err::<Option<TaskLease>, StoreError>(StoreError::InvalidUuid) && s2 == s
        } else if first_match(s.leases, lease_has_id(uuid_text(lease_id))) is Some {
            r == Err::<Option<TaskLease>, StoreError>(StoreError::DuplicateKey) && s2 == s
        } else {
            &&& s2 == claimed_store(s, i, worker, now, expires_at, lease_id)
            &&& r matches Ok(Some(l)) && {
                &&& uuid_parse(s.tasks[i].task_id) == Some(l.task_id)
                &&& l.lease_id == lease_id
                &&& l.worker_id == worker
                &&& l.leased_at == now
                &&& l.lease_expires_at == expires_at
                &&& l.attempt == next_attempt(s.leases, s.tasks[i].task_id)
                &&& l.payload_json@ == s.tasks[i].payload_json
            }
        },
    }
}

/// Leases the first pending task to `worker_id` from `now` until
/// `expires_at`, under lease id `lease_id`.
pub fn claim_next_task_at(
    store: &mut TaskStore,
    worker_id: u128,
    now: i64,
    expires_at: i64,
    lease_id: u128,
) -> (r: Result<Option<TaskLease>, StoreError>)
    requires
        claim_attempt_fits(old(store)@),
    ensures
        claim_outcome(old(store)@, worker_id, now, expires_at, lease_id, r, final(store)@),
        old(store)@.wf() ==> final(store)@.wf(),
{
    proof {
        lemma_first_match(old(store)@.tasks, task_is_pending());
    }
    let task = match fetch_first_pending_task(store) {
        Some(task) => task,
        None => return Ok(None),
    };
    let task_uuid = match parse_uuid(task.task_id.as_str()) {
        Some(id) => id,
        None => return Err(StoreError::InvalidUuid),
    };
    let previous_attempt = latest_attempt_for_task(store, task.task_id.as_str());
    proof {
        lemma_latest_lease(old(store)@.leases, task@.task_id);
    }
    let attempt: i32 = match previous_attempt {
        Some(v) => v + 1,
        None => 1,
    };
    let lease_text = format_uuid(lease_id);
    let worker_text = format_uuid(worker_id);
    insert_lease(
        store,
        lease_text.as_str(),
        task.task_id.as_str(),
        worker_text.as_str(),
        now,
        expires_at,
        attempt,
    )?;
    mark_task_running(store, task.task_id.as_str(), now);
    Ok(
        Some(
            TaskLease {
                task_id: task_uuid,
                lease_id,
                worker_id,
                leased_at: now,
                lease_expires_at: expires_at,
                attempt,
                payload_json: task.payload_json,
            },
        ),
    )
}

/// A lease that runs `secs` seconds from `now` ends inside chrono's calendar.
pub open spec fn expiry_in_calendar(now: i64, secs: i64) -> bool {
    seconds_delta_ok(secs as int) && in_calendar(now + secs * 1_000_000)
}

/// A claim at clock reading `now` (inside the calendar) for a lease of `secs`
/// seconds under lease id `lease_id`: `ExpiryOutOfRange`, with the tables
/// unchanged, exactly when the expiry leaves the calendar; otherwise
/// `claim_outcome` with expiry `now + secs` seconds.
pub open spec fn claim_outcome_after(
    s: StoreView,
    worker: u128,
    now: i64,
    secs: i64,
    lease_id: u128,
    r: Result<Option<TaskLease>, StoreError>,
    s2: StoreView,
) -> bool {
    &&& in_calendar(now as int)
    &&& if expiry_in_calendar(now, secs) {
        claim_outcome(s, worker, now, (now + secs * 1_000_000) as i64, lease_id, r, s2)
    } else {
        r == Err::<Option<TaskLease>, StoreError>(StoreError::ExpiryOutOfRange) && s2 == s
    }
}

/// The expiry of a lease that starts at `now` and runs `lease_timeout_secs`
/// seconds; `None` when the expiry leaves chrono's calendar (or `now` or the
/// duration lie outside what chrono represents).
pub fn lease_expiry(now: i64, lease_timeout_secs: i64) -> (r: Option<i64>)
    ensures
        r is Some <==> (in_calendar(now as int) && expiry_in_calendar(now, lease_timeout_secs)),
        r matches Some(e) ==> e == now + lease_timeout_secs * 1_000_000,
{
    add_seconds_micros(now, lease_timeout_secs)
}

/// Leases the first pending task to `worker_id` now, for `lease_timeout_secs`
/// seconds, under a fresh random lease id; `ExpiryOutOfRange`, with the
/// tables unchanged, exactly when the expiry leaves chrono's calendar.
pub fn claim_next_task(store: &mut TaskStore, worker_id: u128, lease_timeout_secs: i64) -> (r:
    Result<Option<TaskLease>, StoreError>)
    requires
        claim_attempt_fits(old(store)@),
    ensures
        exists|now: i64, lease_id: u128|
            0 <= now && is_v4_uuid(lease_id) && #[trigger] claim_outcome_after(
                old(store)@,
                worker_id,
                now,
                lease_timeout_secs,
                lease_id,
                r,
                final(store)@,
            ),
        old(store)@.wf() ==> final(store)@.wf(),
{
    let now = current_time_micros();
    let lease_id = random_uuid();
    let expires_at = match lease_expiry(now, lease_timeout_secs) {
        Some(e) => e,
        None => {
            assert(claim_outcome_after(
                old(store)@,
                worker_id,
                now,
                lease_timeout_secs,
                lease_id,
                Err(StoreError::ExpiryOutOfRange),
                store@,
            ));
            return Err(StoreError::ExpiryOutOfRange);
        },
    };
    let r = claim_next_task_at(store, worker_id, now, expires_at, lease_id);
    assert(claim_outcome_after(
        old(store)@,
        worker_id,
        now,
        lease_timeout_secs,
        lease_id,
        r,
        store@,
    ));
    r
}

/// The result row that request `req` stores.
pub open spec fn submitted_row(req: SubmitTaskResultRequest) -> TaskResultRowView {
    TaskResultRowView {
        lease_id: uuid_text(req.lease_id),
        task_id: uuid_text(req.task_id),
        worker_id: uuid_text(req.worker_id),
        outcome: outcome_text(req.outcome),
        best_cost_bits: match req.success {
            Some(s) => Some(s.best_cost_bits),
            None => None,
        },
        best_param_json: match req.success {
            Some(s) => Some(s.best_param_json@),
            None => None,
        },
        iters: req.metrics.iters as i32,
        best_iters: req.metrics.best_iters as i32,
        termination: req.metrics.termination@,
        error_message: match req.failure {
            Some(f) => Some(f.error_message@),
            None => None,
        },
        finished_at: req.finished_at,
    }
}

/// The lease that request `req` names exists, is active, and has not expired
/// at `at`.
pub open spec fn lease_acceptable(s: StoreView, req: SubmitTaskResultRequest, at: i64) -> bool {
    match first_match(
        s.leases,
        lease_has_ids(uuid_text(req.lease_id), uuid_text(req.task_id), uuid_text(req.worker_id)),
    ) {
        Some(k) => s.leases[k].active && !(s.leases[k].lease_expires_at < at),
        None => false,
    }
}

/// The tables after request `req` is accepted at `now`: its result is
/// stored, its lease made inactive, and its task given the outcome as status.
pub open spec fn accepted_store(s: StoreView, req: SubmitTaskResultRequest, now: i64) -> StoreView {
    StoreView {
        tasks: tasks_with_status(s.tasks, uuid_text(req.task_id), outcome_text(req.outcome), now),
        leases: leases_deactivated(s.leases, uuid_text(req.lease_id)),
        results: s.results.push(submitted_row(req)),
    }
}

/// Submitting `req`, with update time `now` and lease check at `at`, turns
/// tables `s` into `s2` and answers `r`: `Conflict` (tables stay) unless the
/// lease is acceptable; `DuplicateKey` (tables stay) when a result for the
/// lease is stored; otherwise `Accepted`.
pub open spec fn submit_outcome(
    s: StoreView,
    req: SubmitTaskResultRequest,
    now: i64,
    at: i64,
    r: Result<SubmitResult, StoreError>,
    s2: StoreView,
) -> bool {
    if !lease_acceptable(s, req, at) {
        r == Ok::<SubmitResult, StoreError>(SubmitResult::Conflict) && s2 == s
    } else if first_match(s.results, result_has_lease_id(uuid_text(req.lease_id))) is Some {
        r == Err::<SubmitResult, StoreError>(StoreError::DuplicateKey) && s2 == s
    } else {
        r == Ok::<SubmitResult, StoreError>(SubmitResult::Accepted) && s2 == accepted_store(
            s,
            req,
            now,
        )
    }
}

fn copy_text_opt(o: &Option<FailedOptimization>) -> (r: Option<String>)
    ensures
        match *o {
            Some(f) => r matches Some(m) && m@ == f.error_message@,
            None => r is None,
        },
{
    match o {
        Some(f) => Some(f.error_message.clone()),
        None => None,
    }
}

/// Stores the result of `req` if its lease is active and unexpired at
/// `checked_at`, then retires the lease and gives the task the outcome as its
/// status, with update time `now`.
pub fn persist_task_result_at(
    store: &mut TaskStore,
    req: &SubmitTaskResultRequest,
    now: i64,
    checked_at: i64,
) -> (r: Result<SubmitResult, StoreError>)
    ensures
        submit_outcome(old(store)@, *req, now, checked_at, r, final(store)@),
        old(store)@.wf() ==> final(store)@.wf(),
{
    let lease_text = format_uuid(req.lease_id);
    let task_text = format_uuid(req.task_id);
    let worker_text = format_uuid(req.worker_id);
    let outcome_s = result_outcome_text(req.outcome);
    let lease = lease_by_ids(store, lease_text.as_str(), task_text.as_str(), worker_text.as_str());
    let (active, expires_at) = match lease {
        Some(l) => l,
        None => return Ok(SubmitResult::Conflict),
    };
    if !active || expires_at < checked_at {
        return Ok(SubmitResult::Conflict);
    }
    proof {
        let p = lease_has_ids(
            uuid_text(req.lease_id),
            uuid_text(req.task_id),
            uuid_text(req.worker_id),
        );
        lemma_first_match(old(store)@.leases, p);
        let k = first_match(old(store)@.leases, p)->0;
        assert(old(store)@.leases[k].lease_id == uuid_text(req.lease_id));
    }
    let input = NewTaskResult {
        lease_id: lease_text.clone(),
        task_id: task_text.clone(),
        worker_id: worker_text.clone(),
        outcome: outcome_s.to_owned(),
        best_cost_bits: match &req.success {
            Some(s) => Some(s.best_cost_bits),
            None => None,
        },
        best_param_json: match &req.success {
            Some(s) => Some(s.best_param_json.clone()),
            None => None,
        },
        iters: req.metrics.iters as i32,
        best_iters: req.metrics.best_iters as i32,
        termination: req.metrics.termination.clone(),
        error_message: copy_text_opt(&req.failure),
        finished_at: req.finished_at,
    };
    assert(input@ == submitted_row(*req));
    insert_task_result(store, input)?;
    deactivate_lease(store, lease_text.as_str());
    mark_task_status(store, task_text.as_str(), outcome_s, now);
    Ok(SubmitResult::Accepted)
}

/// `persist_task_result_at` with the current time, read once for the update
/// time and once more for the lease check.
pub fn persist_task_result(store: &mut TaskStore, req: &SubmitTaskResultRequest) -> (r: Result<
    SubmitResult,
    StoreError,
>)
    ensures
        exists|now: i64, at: i64|
            0 <= now && 0 <= at && in_calendar(now as int) && in_calendar(at as int)
                && #[trigger] submit_outcome(
                old(store)@,
                *req,
                now,
                at,
                r,
                final(store)@,
            ),
        old(store)@.wf() ==> final(store)@.wf(),
{
    let now = current_time_micros();
    let at = current_time_micros();
    let r = persist_task_result_at(store, req, now, at);
    assert(submit_outcome(old(store)@, *req, now, at, r, store@));
    r
}

} // verus!
