//! Properties that span several operations of the task tables.

use vstd::prelude::*;
use crate::ids::{uuid_parse, uuid_text};
use crate::proto::{status_of_text, ResultOutcome, SubmitResult, TaskStatus};
use crate::service::{
    accepted_store, claim_outcome, lease_acceptable, submit_outcome, SubmitTaskResultRequest,
    TaskLease,
};
use crate::store::{
    first_match, has_expired_lease, lease_expired, lease_has_id, lease_has_ids,
    leases_deactivated, leases_expired_off, lemma_first_match, result_has_lease_id,
    task_has_id, task_is_pending, task_lacks_id, tasks_failed_on_expiry, tasks_requeued,
    StoreError, StoreView, TaskRowView,
};
use crate::task_repo::{create_outcome, task_lookup, tasks_updated, TaskDto};
use crate::proto::status_text;
use crate::store::{lemma_latest_lease, LeaseRowView};

verus! {

/// Every stored task id that reads as a UUID is that UUID's own text.
pub open spec fn task_ids_canonical(s: StoreView) -> bool {
    forall|i: int|
        0 <= i < s.tasks.len() ==> (#[trigger] uuid_parse(s.tasks[i].task_id) matches Some(u)
            ==> uuid_text(u) == s.tasks[i].task_id)
}

/// Appending an element that satisfies `p` to a sequence with no such element
/// puts the first match at the end.
pub proof fn lemma_first_match_push<A>(s: Seq<A>, x: A, p: spec_fn(A) -> bool)
    requires
        first_match(s, p) is None,
        p(x),
    ensures
        first_match(s.push(x), p) == Some(s.len() as int),
{
    assert(s.push(x).drop_last() =~= s);
}

/// A map that keeps `p` keeps the first match of `p`.
pub proof fn lemma_first_match_map<A>(s: Seq<A>, f: spec_fn(A) -> A, p: spec_fn(A) -> bool)
    requires
        forall|x: A| #[trigger] p(f(x)) == p(x),
    ensures
        first_match(s.map_values(f), p) == first_match(s, p),
    decreases s.len(),
{
    if s.len() > 0 {
        assert(s.map_values(f).drop_last() =~= s.drop_last().map_values(f));
        lemma_first_match_map(s.drop_last(), f, p);
        assert(s.map_values(f).last() == f(s.last()));
    }
}

/// A lease just handed out by a claim is accepted when its worker reports on
/// it no later than its expiry: the result is stored, the lease retired and
/// the task given the outcome. (For tables whose task ids are the texts of
/// their UUIDs, as the ones this library writes.)
pub proof fn lemma_claim_then_submit_accepted(
    s: StoreView,
    worker: u128,
    now: i64,
    expires_at: i64,
    lease_id: u128,
    r: Result<Option<TaskLease>, StoreError>,
    s1: StoreView,
    req: SubmitTaskResultRequest,
    updated_at: i64,
    checked_at: i64,
    r2: Result<SubmitResult, StoreError>,
    s2: StoreView,
)
    requires
        s.wf(),
        task_ids_canonical(s),
        claim_outcome(s, worker, now, expires_at, lease_id, r, s1),
        r matches Ok(Some(l)) && req.task_id == l.task_id && req.lease_id == l.lease_id
            && req.worker_id == l.worker_id,
        checked_at <= expires_at,
        submit_outcome(s1, req, updated_at, checked_at, r2, s2),
    ensures
        r2 == Ok::<SubmitResult, StoreError>(SubmitResult::Accepted),
        s2 == accepted_store(s1, req, updated_at),
{
    lemma_first_match(s.tasks, task_is_pending());
    let i = first_match(s.tasks, task_is_pending())->0;
    let t = s.tasks[i].task_id;
    assert(uuid_parse(t) is Some);
    assert(uuid_text(req.task_id) == t);
    let lid = uuid_text(lease_id);
    let p = lease_has_ids(lid, t, uuid_text(worker));
    lemma_first_match(s.leases, lease_has_id(lid));
    assert forall|k: int| 0 <= k < s.leases.len() implies !p(#[trigger] s.leases[k]) by {
        assert(!lease_has_id(lid)(s.leases[k]));
    }
    let new_lease = s1.leases.last();
    assert(s1.leases == s.leases.push(new_lease));
    assert(first_match(s.leases, p) is None) by {
        if first_match(s.leases, p) is Some {
            lemma_first_match(s.leases, p);
        }
    }
    lemma_first_match_push(s.leases, new_lease, p);
    assert(lease_acceptable(s1, req, checked_at));
    let q = result_has_lease_id(lid);
    assert(first_match(s1.results, q) is None) by {
        lemma_first_match(s1.results, q);
        if first_match(s1.results, q) is Some {
            let j = first_match(s1.results, q)->0;
            assert(s.has_lease(s.results[j].lease_id));
            let k = choose|k: int|
                0 <= k < s.leases.len() && #[trigger] s.leases[k].lease_id == s.results[j].lease_id;
            assert(lease_has_id(lid)(s.leases[k]));
        }
    }
}

/// A leased task goes to one worker only: once a claim has handed out a
/// task, the next claim (with nothing written in between) hands out no task,
/// or another task, or fails. (For tables whose task ids are the texts of
/// their UUIDs, as the ones this library writes.)
pub proof fn lemma_claimed_task_not_claimed_again(
    s: StoreView,
    worker: u128,
    now: i64,
    expires_at: i64,
    lease_id: u128,
    r: Result<Option<TaskLease>, StoreError>,
    s1: StoreView,
    worker2: u128,
    now2: i64,
    expires_at2: i64,
    lease_id2: u128,
    r2: Result<Option<TaskLease>, StoreError>,
    s2: StoreView,
)
    requires
        task_ids_canonical(s),
        claim_outcome(s, worker, now, expires_at, lease_id, r, s1),
        r is Ok && r->Ok_0 is Some,
        claim_outcome(s1, worker2, now2, expires_at2, lease_id2, r2, s2),
    ensures
        r2 matches Ok(Some(l2)) ==> l2.task_id != r->Ok_0->Some_0.task_id,
{
    lemma_status_words_differ();
    let l1 = r->Ok_0->Some_0;
    lemma_first_match(s.tasks, task_is_pending());
    let i = first_match(s.tasks, task_is_pending())->0;
    let t = s.tasks[i].task_id;
    assert(uuid_text(l1.task_id) == t);
    if r2 is Ok && r2->Ok_0 is Some {
        let l2 = r2->Ok_0->Some_0;
        lemma_first_match(s1.tasks, task_is_pending());
        let j = first_match(s1.tasks, task_is_pending())->0;
        assert(s1.tasks[j].status == "pending"@);
        assert(s1.tasks[j].task_id != t);
        assert(s1.tasks[j].task_id == s.tasks[j].task_id);
        assert(uuid_parse(s.tasks[j].task_id) == Some(l2.task_id));
        assert(uuid_text(l2.task_id) == s.tasks[j].task_id);
    }
}

/// A lease is accepted at most once: after a submission is accepted, every
/// submission that names the same lease (whatever its task, worker, outcome
/// or report) is answered `Conflict` and changes nothing, whenever it comes.
pub proof fn lemma_submit_accepted_once(
    s: StoreView,
    req: SubmitTaskResultRequest,
    now: i64,
    at: i64,
    r: Result<SubmitResult, StoreError>,
    s1: StoreView,
    req2: SubmitTaskResultRequest,
    now2: i64,
    at2: i64,
    r2: Result<SubmitResult, StoreError>,
    s2: StoreView,
)
    requires
        submit_outcome(s, req, now, at, r, s1),
        r == Ok::<SubmitResult, StoreError>(SubmitResult::Accepted),
        req2.lease_id == req.lease_id,
        submit_outcome(s1, req2, now2, at2, r2, s2),
    ensures
        r2 == Ok::<SubmitResult, StoreError>(SubmitResult::Conflict),
        s2 == s1,
{
    let lid = uuid_text(req.lease_id);
    let p2 = lease_has_ids(lid, uuid_text(req2.task_id), uuid_text(req2.worker_id));
    assert(s1.leases == leases_deactivated(s.leases, lid));
    lemma_first_match(s1.leases, p2);
    if let Some(k) = first_match(s1.leases, p2) {
        assert(s1.leases[k].lease_id == lid);
        assert(!s1.leases[k].active);
    }
    assert(!lease_acceptable(s1, req2, at2));
}

/// After the expiry sweep at `now`, no lease is still active past its expiry.
pub proof fn lemma_no_expired_lease_after_sweep(s: StoreView, now: i64)
    ensures
        forall|k: int|
            0 <= k < s.leases.len() ==> !lease_expired(now)(
                #[trigger] leases_expired_off(s.leases, now)[k],
            ),
{
}

/// After requeueing, no task is failed.
pub proof fn lemma_requeue_leaves_no_failed(tasks: Seq<TaskRowView>)
    ensures
        forall|i: int| 0 <= i < tasks.len() ==> #[trigger] tasks_requeued(tasks)[i].status != "failed"@,
{
    reveal_strlit("pending");
    reveal_strlit("failed");
    assert("pending"@[0] != "failed"@[0]);
}

/// A running task whose lease expired is failed by the expiry sweep and
/// pending again after the requeue that follows.
pub proof fn lemma_expired_task_requeued(s: StoreView, now: i64, i: int)
    requires
        0 <= i < s.tasks.len(),
        s.tasks[i].status == "running"@,
        has_expired_lease(s.leases, now, s.tasks[i].task_id),
    ensures
        tasks_failed_on_expiry(s.tasks, s.leases, now)[i].status == "failed"@,
        tasks_requeued(tasks_failed_on_expiry(s.tasks, s.leases, now))[i].status == "pending"@,
{
}

/// A task just created is found by its id, pending, with its payload.
pub proof fn lemma_create_then_get(
    s: StoreView,
    id: u128,
    now: i64,
    payload: Seq<char>,
    r: Result<TaskDto, StoreError>,
    s1: StoreView,
    r2: Result<Option<TaskDto>, StoreError>,
)
    requires
        create_outcome(s, id, now, payload, r, s1),
        r is Ok,
        task_lookup(s1.tasks, id, r2),
    ensures
        r2 matches Ok(Some(d)) && d.id == id && d.status == TaskStatus::Pending && d.payload_json@
            == payload && d.created_at == now && d.updated_at == now,
{
    reveal_strlit("pending");
    reveal_strlit("running");
    reveal_strlit("succeeded");
    reveal_strlit("failed");
    assert("pending"@[0] != "running"@[0]);
    assert("pending"@[0] != "succeeded"@[0]);
    assert("pending"@[0] != "failed"@[0]);
    assert(status_of_text("pending"@) == TaskStatus::Pending);
    let p = task_has_id(uuid_text(id));
    let row = s1.tasks.last();
    assert(s1.tasks == s.tasks.push(row));
    lemma_first_match_push(s.tasks, row, p);
}

/// A deleted task is not found any more.
pub proof fn lemma_delete_then_get(
    tasks: Seq<TaskRowView>,
    id: u128,
    r: Result<Option<TaskDto>, StoreError>,
)
    requires
        task_lookup(tasks.filter(task_lacks_id(uuid_text(id))), id, r),
    ensures
        r == Ok::<Option<TaskDto>, StoreError>(None),
{
    let f = tasks.filter(task_lacks_id(uuid_text(id)));
    let p = task_has_id(uuid_text(id));
    lemma_first_match(f, p);
    if first_match(f, p) is Some {
        let k = first_match(f, p)->0;
        tasks.lemma_filter_pred(task_lacks_id(uuid_text(id)), k);
    }
}

/// Task `t` has a running row.
pub open spec fn task_running(tasks: Seq<TaskRowView>, t: Seq<char>) -> bool {
    exists|i: int| 0 <= i < tasks.len() && #[trigger] tasks[i].task_id == t && tasks[i].status == "running"@
}

/// Leases are exclusive: only running tasks hold active leases, and no task
/// holds two.
pub open spec fn leases_exclusive(s: StoreView) -> bool {
    &&& forall|k: int|
        0 <= k < s.leases.len() && (#[trigger] s.leases[k]).active ==> task_running(
            s.tasks,
            s.leases[k].task_id,
        )
    &&& forall|k: int, m: int|
        0 <= k < m < s.leases.len() && (#[trigger] s.leases[k]).active && (#[trigger] s.leases[m]).active
            ==> s.leases[k].task_id != s.leases[m].task_id
}

proof fn lemma_status_words_differ()
    ensures
        "pending"@ != "running"@,
        "succeeded"@ != "running"@,
        "failed"@ != "running"@,
        "pending"@ != "failed"@,
{
    reveal_strlit("pending");
    reveal_strlit("running");
    reveal_strlit("succeeded");
    reveal_strlit("failed");
    assert("pending"@[0] != "running"@[0]);
    assert("succeeded"@[0] != "running"@[0]);
    assert("failed"@[0] != "running"@[0]);
    assert("pending"@[0] != "failed"@[0]);
}

/// Claiming keeps leases exclusive: the claimed task was pending, so it held
/// no active lease, and it holds exactly the new one.
pub proof fn lemma_claim_keeps_leases_exclusive(
    s: StoreView,
    worker: u128,
    now: i64,
    expires_at: i64,
    lease_id: u128,
    r: Result<Option<TaskLease>, StoreError>,
    s1: StoreView,
)
    requires
        s.wf(),
        leases_exclusive(s),
        claim_outcome(s, worker, now, expires_at, lease_id, r, s1),
    ensures
        leases_exclusive(s1),
{
    lemma_status_words_differ();
    lemma_first_match(s.tasks, task_is_pending());
    if let Some(i) = first_match(s.tasks, task_is_pending()) {
        if s1 != s {
            let t = s.tasks[i].task_id;
            assert(s.tasks[i].status == "pending"@);
            assert forall|k: int| 0 <= k < s.leases.len() && s.leases[k].active implies s.leases[k].task_id
                != t by {
                if s.leases[k].task_id == t {
                    assert(task_running(s.tasks, s.leases[k].task_id));
                    let j = choose|j: int|
                        0 <= j < s.tasks.len() && #[trigger] s.tasks[j].task_id == t
                            && s.tasks[j].status == "running"@;
                    if j != i {
                        if j < i {
                            assert(s.tasks[j].task_id != s.tasks[i].task_id);
                        } else {
                            assert(s.tasks[i].task_id != s.tasks[j].task_id);
                        }
                    }
                }
            }
            let n = s.leases.len();
            assert forall|k: int| 0 <= k < s1.leases.len() && (#[trigger] s1.leases[k]).active implies task_running(
                s1.tasks,
                s1.leases[k].task_id,
            ) by {
                if k < n {
                    assert(s1.leases[k] == s.leases[k]);
                    let tk = s.leases[k].task_id;
                    assert(task_running(s.tasks, tk));
                    let j = choose|j: int|
                        0 <= j < s.tasks.len() && #[trigger] s.tasks[j].task_id == tk
                            && s.tasks[j].status == "running"@;
                    assert(s1.tasks[j].task_id == tk);
                } else {
                    assert(s1.leases[k].task_id == t);
                    assert(s1.tasks[i].task_id == t);
                }
            }
            assert forall|k: int, m: int|
                0 <= k < m < s1.leases.len() && (#[trigger] s1.leases[k]).active && (
                #[trigger] s1.leases[m]).active implies s1.leases[k].task_id
                != s1.leases[m].task_id by {
                assert(s1.leases[k] == s.leases[k]);
                if m < n {
                    assert(s1.leases[m] == s.leases[m]);
                }
            }
        }
    }
}

/// Accepting a submission keeps leases exclusive: the lease retired was the
/// task's only active one, and the task stops running.
pub proof fn lemma_submit_keeps_leases_exclusive(
    s: StoreView,
    req: SubmitTaskResultRequest,
    now: i64,
    at: i64,
    r: Result<SubmitResult, StoreError>,
    s1: StoreView,
)
    requires
        s.wf(),
        leases_exclusive(s),
        submit_outcome(s, req, now, at, r, s1),
    ensures
        leases_exclusive(s1),
{
    lemma_status_words_differ();
    if r == Ok::<SubmitResult, StoreError>(SubmitResult::Accepted) {
        let lid = uuid_text(req.lease_id);
        let t = uuid_text(req.task_id);
        let p = lease_has_ids(lid, t, uuid_text(req.worker_id));
        lemma_first_match(s.leases, p);
        let k0 = first_match(s.leases, p)->0;
        assert(s.leases[k0].active);
        let o = crate::proto::outcome_text(req.outcome);
        assert(o != "running"@) by {
            match req.outcome {
                ResultOutcome::Succeeded => {},
                ResultOutcome::Failed => {},
            }
        }
        assert forall|k: int| 0 <= k < s1.leases.len() && (#[trigger] s1.leases[k]).active implies task_running(
            s1.tasks,
            s1.leases[k].task_id,
        ) by {
            assert(s.leases[k].lease_id != lid);
            assert(k != k0);
            assert(s.leases[k].active);
            if k < k0 {
                assert(s.leases[k].task_id != s.leases[k0].task_id);
            } else {
                assert(s.leases[k0].task_id != s.leases[k].task_id);
            }
            let tk = s.leases[k].task_id;
            assert(task_running(s.tasks, tk));
            let j = choose|j: int|
                0 <= j < s.tasks.len() && #[trigger] s.tasks[j].task_id == tk && s.tasks[j].status
                    == "running"@;
            assert(s1.tasks[j] == s.tasks[j]);
        }
        assert forall|k: int, m: int|
            0 <= k < m < s1.leases.len() && (#[trigger] s1.leases[k]).active && (
            #[trigger] s1.leases[m]).active implies s1.leases[k].task_id != s1.leases[m].task_id by {
            assert(s.leases[k].active && s.leases[m].active);
        }
    }
}

/// The expiry sweep keeps leases exclusive: a lease that stays active
/// belongs to a task without an expired lease, which keeps running.
pub proof fn lemma_sweep_keeps_leases_exclusive(s: StoreView, now: i64)
    requires
        leases_exclusive(s),
    ensures
        leases_exclusive(
            StoreView {
                tasks: tasks_failed_on_expiry(s.tasks, s.leases, now),
                leases: leases_expired_off(s.leases, now),
                ..s
            },
        ),
{
    let s1 = StoreView {
        tasks: tasks_failed_on_expiry(s.tasks, s.leases, now),
        leases: leases_expired_off(s.leases, now),
        ..s
    };
    assert forall|k: int| 0 <= k < s1.leases.len() && (#[trigger] s1.leases[k]).active implies task_running(
        s1.tasks,
        s1.leases[k].task_id,
    ) by {
        assert(!lease_expired(now)(s.leases[k]));
        assert(s.leases[k].active);
        let tk = s.leases[k].task_id;
        assert(task_running(s.tasks, tk));
        let j = choose|j: int|
            0 <= j < s.tasks.len() && #[trigger] s.tasks[j].task_id == tk && s.tasks[j].status
                == "running"@;
        if has_expired_lease(s.leases, now, tk) {
            let m = choose|m: int|
                0 <= m < s.leases.len() && lease_expired(now)(#[trigger] s.leases[m]) && s.leases[m].task_id
                    == tk;
            if m < k {
                assert(s.leases[m].task_id != s.leases[k].task_id);
            } else {
                assert(s.leases[k].task_id != s.leases[m].task_id);
            }
        }
        assert(s1.tasks[j] == s.tasks[j]);
    }
    assert forall|k: int, m: int|
        0 <= k < m < s1.leases.len() && (#[trigger] s1.leases[k]).active && (
        #[trigger] s1.leases[m]).active implies s1.leases[k].task_id != s1.leases[m].task_id by {
        assert(s.leases[k].active && s.leases[m].active);
    }
}

/// Requeueing keeps leases exclusive: running tasks stay running.
pub proof fn lemma_requeue_keeps_leases_exclusive(s: StoreView)
    requires
        leases_exclusive(s),
    ensures
        leases_exclusive(StoreView { tasks: tasks_requeued(s.tasks), ..s }),
{
    lemma_status_words_differ();
    let s1 = StoreView { tasks: tasks_requeued(s.tasks), ..s };
    assert forall|k: int| 0 <= k < s1.leases.len() && (#[trigger] s1.leases[k]).active implies task_running(
        s1.tasks,
        s1.leases[k].task_id,
    ) by {
        let tk = s.leases[k].task_id;
        assert(task_running(s.tasks, tk));
        let j = choose|j: int|
            0 <= j < s.tasks.len() && #[trigger] s.tasks[j].task_id == tk && s.tasks[j].status
                == "running"@;
        assert(s1.tasks[j] == s.tasks[j]);
    }
}

/// Creating a task keeps leases exclusive.
pub proof fn lemma_create_keeps_leases_exclusive(
    s: StoreView,
    id: u128,
    now: i64,
    payload: Seq<char>,
    r: Result<TaskDto, StoreError>,
    s1: StoreView,
)
    requires
        leases_exclusive(s),
        create_outcome(s, id, now, payload, r, s1),
    ensures
        leases_exclusive(s1),
{
    assert forall|k: int| 0 <= k < s1.leases.len() && (#[trigger] s1.leases[k]).active implies task_running(
        s1.tasks,
        s1.leases[k].task_id,
    ) by {
        let tk = s.leases[k].task_id;
        assert(task_running(s.tasks, tk));
        let j = choose|j: int|
            0 <= j < s.tasks.len() && #[trigger] s.tasks[j].task_id == tk && s.tasks[j].status
                == "running"@;
        assert(s1.tasks[j] == s.tasks[j]);
    }
}

/// Tables without leases have exclusive leases.
pub proof fn lemma_no_leases_exclusive(s: StoreView)
    requires
        s.leases.len() == 0,
    ensures
        leases_exclusive(s),
{
}

/// Creating a task keeps every stored task id the text of its UUID.
pub proof fn lemma_create_keeps_ids_canonical(
    s: StoreView,
    id: u128,
    now: i64,
    payload: Seq<char>,
    r: Result<TaskDto, StoreError>,
    s1: StoreView,
)
    requires
        task_ids_canonical(s),
        create_outcome(s, id, now, payload, r, s1),
    ensures
        task_ids_canonical(s1),
{
    assert forall|i: int| 0 <= i < s1.tasks.len() implies (#[trigger] uuid_parse(s1.tasks[i].task_id) matches Some(u)
        ==> uuid_text(u) == s1.tasks[i].task_id) by {
        if i < s.tasks.len() {
            assert(s1.tasks[i] == s.tasks[i]);
        }
    }
}

/// Status writes (by claims, submissions, expiry and requeue alike) keep
/// every stored task id the text of its UUID: they change no id.
pub proof fn lemma_same_ids_keep_canonical(s: StoreView, s1: StoreView)
    requires
        task_ids_canonical(s),
        s1.tasks.len() == s.tasks.len(),
        forall|i: int| 0 <= i < s.tasks.len() ==> #[trigger] s1.tasks[i].task_id == s.tasks[i].task_id,
    ensures
        task_ids_canonical(s1),
{
    assert forall|i: int| 0 <= i < s1.tasks.len() implies (#[trigger] uuid_parse(s1.tasks[i].task_id) matches Some(u)
        ==> uuid_text(u) == s1.tasks[i].task_id) by {
        assert(s1.tasks[i].task_id == s.tasks[i].task_id);
        assert(uuid_parse(s.tasks[i].task_id) matches Some(u) ==> uuid_text(u) == s.tasks[i].task_id);
    }
}

/// A claim numbers its lease one more than the claimed task's most recent
/// earlier lease (one with the greatest lease time among that task's leases),
/// and 1 when the task was never leased.
pub proof fn lemma_claim_attempt_follows_latest(
    s: StoreView,
    worker: u128,
    now: i64,
    expires_at: i64,
    lease_id: u128,
    r: Result<Option<TaskLease>, StoreError>,
    s2: StoreView,
)
    requires
        claim_outcome(s, worker, now, expires_at, lease_id, r, s2),
        r matches Ok(Some(_)),
    ensures
        s2.leases.len() == s.leases.len() + 1,
        ({
            let l = r->Ok_0->Some_0;
            let t = s2.leases[s.leases.len() as int].task_id;
            &&& uuid_parse(t) == Some(l.task_id)
            &&& s2.leases[s.leases.len() as int].attempt == l.attempt
            &&& (forall|m: int| 0 <= m < s.leases.len() ==> #[trigger] s.leases[m].task_id != t)
                ==> l.attempt == 1
            &&& (exists|m: int| 0 <= m < s.leases.len() && #[trigger] s.leases[m].task_id == t)
                ==> exists|k: int|
                #![trigger s.leases[k]]
                {
                    &&& 0 <= k < s.leases.len()
                    &&& s.leases[k].task_id == t
                    &&& forall|m: int|
                        0 <= m < s.leases.len() && #[trigger] s.leases[m].task_id == t
                            ==> s.leases[m].leased_at <= s.leases[k].leased_at
                    &&& l.attempt == s.leases[k].attempt + 1
                }
        }),
{
    lemma_first_match(s.tasks, task_is_pending());
    let i = first_match(s.tasks, task_is_pending())->0;
    let t = s.tasks[i].task_id;
    lemma_latest_lease(s.leases, t);
    assert(s2.leases[s.leases.len() as int].task_id == t);
    if let Some(k) = crate::store::latest_lease(s.leases, t) {
        assert(s.leases[k].task_id == t);
    }
}

/// A submission is accepted only on a lease that carries the request's lease,
/// task and worker ids, is active, and has not expired at the instant of the
/// check; in particular a submission checked after the lease's expiry is
/// answered `Conflict`.
pub proof fn lemma_accepted_only_on_live_lease(
    s: StoreView,
    req: SubmitTaskResultRequest,
    now: i64,
    at: i64,
    r: Result<SubmitResult, StoreError>,
    s2: StoreView,
)
    requires
        submit_outcome(s, req, now, at, r, s2),
    ensures
        r == Ok::<SubmitResult, StoreError>(SubmitResult::Accepted) ==> exists|k: int|
            #![trigger s.leases[k]]
            {
                &&& 0 <= k < s.leases.len()
                &&& s.leases[k].lease_id == uuid_text(req.lease_id)
                &&& s.leases[k].task_id == uuid_text(req.task_id)
                &&& s.leases[k].worker_id == uuid_text(req.worker_id)
                &&& s.leases[k].active
                &&& at <= s.leases[k].lease_expires_at
            },
        (forall|k: int|
            0 <= k < s.leases.len() && #[trigger] s.leases[k].lease_id == uuid_text(req.lease_id)
                ==> s.leases[k].lease_expires_at < at) ==> r == Ok::<SubmitResult, StoreError>(
            SubmitResult::Conflict,
        ) && s2 == s,
{
    let p = lease_has_ids(uuid_text(req.lease_id), uuid_text(req.task_id), uuid_text(req.worker_id));
    lemma_first_match(s.leases, p);
    if let Some(k) = first_match(s.leases, p) {
        assert(p(s.leases[k]));
    }
}

/// Updating task `id` touches the rows of that task only: every other row is
/// left as it was, and each row of the task gets the new status (if one is
/// given) and the new payload (if one is given), with `now` as its update
/// time when anything was written; id and creation time stay.
pub proof fn lemma_update_touches_only_its_task(
    tasks: Seq<TaskRowView>,
    id: Seq<char>,
    status: Option<TaskStatus>,
    payload: Option<Seq<char>>,
    now: i64,
)
    ensures
        tasks_updated(tasks, id, status, payload, now).len() == tasks.len(),
        forall|k: int|
            0 <= k < tasks.len() && #[trigger] tasks[k].task_id != id ==> tasks_updated(
                tasks,
                id,
                status,
                payload,
                now,
            )[k] == tasks[k],
        forall|k: int|
            0 <= k < tasks.len() && #[trigger] tasks[k].task_id == id ==> ({
                let u = tasks_updated(tasks, id, status, payload, now)[k];
                &&& u.task_id == id
                &&& u.created_at == tasks[k].created_at
                &&& u.status == (match status {
                    Some(st) => status_text(st),
                    None => tasks[k].status,
                })
                &&& u.payload_json == (match payload {
                    Some(p) => p,
                    None => tasks[k].payload_json,
                })
                &&& u.updated_at == (if status is Some || payload is Some {
                    now
                } else {
                    tasks[k].updated_at
                })
            }),
{
}

/// Requeueing makes failed tasks pending and nothing else: a row whose status
/// is not "failed" is left exactly as it was, and a failed row changes only in
/// its status.
pub proof fn lemma_requeue_changes_only_failed(tasks: Seq<TaskRowView>)
    ensures
        tasks_requeued(tasks).len() == tasks.len(),
        forall|k: int|
            0 <= k < tasks.len() && #[trigger] tasks[k].status != "failed"@ ==> tasks_requeued(
                tasks,
            )[k] == tasks[k],
        forall|k: int|
            0 <= k < tasks.len() && #[trigger] tasks[k].status == "failed"@ ==> ({
                let u = tasks_requeued(tasks)[k];
                &&& u.status == "pending"@
                &&& u.task_id == tasks[k].task_id
                &&& u.payload_json == tasks[k].payload_json
                &&& u.created_at == tasks[k].created_at
                &&& u.updated_at == tasks[k].updated_at
            }),
{
}

} // verus!
