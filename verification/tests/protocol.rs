use nvw::proto::{ResultOutcome, SubmitResult, TaskRunMetrics, TaskStatus};
use nvw::result_repo::{find_task_result, get_task_result};
use nvw::service::{
    claim_next_task, claim_next_task_at, lease_expiry, next_attempt_fits, persist_task_result_at,
    ReportedSuccess, SubmitTaskResultRequest,
};
use nvw::store::{
    deactivate_expired_leases, latest_attempt_for_task, lease_by_ids, requeue_failed_task,
    LeaseRow, StoreError, TaskRow, TaskStore,
};
use nvw::task_repo::{create_task_at, get_task};

const TASK_A: u128 = 0x0000_0001_0000_4000_8000_0000_0000_00aa;
const TASK_B: u128 = 0x0000_0002_0000_4000_8000_0000_0000_00bb;
const WORKER: u128 = 0x1111_2222_3333_4444_8555_6666_7777_8888;
const LEASE_1: u128 = 0xaaaa_0000_0000_4000_8000_0000_0000_0001;
const LEASE_2: u128 = 0xaaaa_0000_0000_4000_8000_0000_0000_0002;

fn text(id: u128) -> String {
    uuid::Uuid::from_u128(id).to_string()
}

fn store_with_two_tasks() -> TaskStore {
    let mut s = TaskStore::new();
    create_task_at(&mut s, TASK_A, 100, "{\"a\":1}".to_string()).unwrap();
    create_task_at(&mut s, TASK_B, 200, "{\"b\":2}".to_string()).unwrap();
    s
}

fn request(lease: u128, task: u128, worker: u128, outcome: ResultOutcome) -> SubmitTaskResultRequest {
    SubmitTaskResultRequest {
        task_id: task,
        lease_id: lease,
        worker_id: worker,
        outcome,
        metrics: TaskRunMetrics { iters: 64, best_iters: 10, termination: "MaxItersReached".to_string() },
        success: match outcome {
            ResultOutcome::Succeeded => Some(ReportedSuccess {
                best_cost_bits: 1.5f32.to_bits(),
                best_param_json: "[1.0,2.0]".to_string(),
            }),
            ResultOutcome::Failed => None,
        },
        failure: match outcome {
            ResultOutcome::Failed => Some(nvw::proto::FailedOptimization { error_message: "boom".to_string() }),
            ResultOutcome::Succeeded => None,
        },
        finished_at: 5_000,
    }
}

#[test]
fn claim_on_empty_store_gives_nothing() {
    let mut s = TaskStore::new();
    let r = claim_next_task_at(&mut s, WORKER, 10, 20, LEASE_1).unwrap();
    assert!(r.is_none());
    assert_eq!(s.lease_rows().len(), 0);
}

#[test]
fn claim_takes_first_pending_task() {
    let mut s = store_with_two_tasks();
    let lease = claim_next_task_at(&mut s, WORKER, 1_000, 31_000_000, LEASE_1).unwrap().unwrap();
    assert_eq!(lease.task_id, TASK_A);
    assert_eq!(lease.lease_id, LEASE_1);
    assert_eq!(lease.worker_id, WORKER);
    assert_eq!(lease.attempt, 1);
    assert_eq!(lease.leased_at, 1_000);
    assert_eq!(lease.lease_expires_at, 31_000_000);
    assert_eq!(lease.payload_json, "{\"a\":1}");
    let row = &s.task_rows()[0];
    assert_eq!(row.status, "running");
    assert_eq!(row.updated_at, 1_000);
    assert_eq!(s.task_rows()[1].status, "pending");
    let l = &s.lease_rows()[0];
    assert_eq!(l.lease_id, text(LEASE_1));
    assert_eq!(l.task_id, text(TASK_A));
    assert_eq!(l.worker_id, text(WORKER));
    assert!(l.active);
    assert!(s.is_well_formed());
}

#[test]
fn second_claim_takes_next_task_and_third_finds_none() {
    let mut s = store_with_two_tasks();
    claim_next_task_at(&mut s, WORKER, 1, 2, LEASE_1).unwrap().unwrap();
    let second = claim_next_task_at(&mut s, WORKER, 1, 2, LEASE_2).unwrap().unwrap();
    assert_eq!(second.task_id, TASK_B);
    let third = claim_next_task_at(&mut s, WORKER, 1, 2, 77).unwrap();
    assert!(third.is_none());
}

#[test]
fn claim_with_taken_lease_id_is_refused_and_changes_nothing() {
    let mut s = store_with_two_tasks();
    claim_next_task_at(&mut s, WORKER, 1, 2, LEASE_1).unwrap();
    let r = claim_next_task_at(&mut s, WORKER, 1, 2, LEASE_1);
    assert!(matches!(r, Err(StoreError::DuplicateKey)));
    assert_eq!(s.task_rows()[1].status, "pending");
    assert_eq!(s.lease_rows().len(), 1);
}

#[test]
fn claim_of_task_with_bad_id_is_refused() {
    let rows = vec![TaskRow {
        task_id: "not-a-uuid".to_string(),
        created_at: 0,
        updated_at: 0,
        status: "pending".to_string(),
        payload_json: "{}".to_string(),
    }];
    let mut s = TaskStore::from_rows(rows, vec![], vec![]);
    let r = claim_next_task_at(&mut s, WORKER, 1, 2, LEASE_1);
    assert!(matches!(r, Err(StoreError::InvalidUuid)));
    assert_eq!(s.task_rows()[0].status, "pending");
    assert_eq!(s.lease_rows().len(), 0);
}

#[test]
fn claimed_lease_is_accepted_then_refused() {
    let mut s = store_with_two_tasks();
    let lease = claim_next_task_at(&mut s, WORKER, 1_000, 2_000, LEASE_1).unwrap().unwrap();
    let req = request(lease.lease_id, lease.task_id, lease.worker_id, ResultOutcome::Succeeded);
    let r = persist_task_result_at(&mut s, &req, 1_500, 2_000).unwrap();
    assert_eq!(r, SubmitResult::Accepted);
    assert_eq!(s.task_rows()[0].status, "succeeded");
    assert_eq!(s.task_rows()[0].updated_at, 1_500);
    assert!(!s.lease_rows()[0].active);
    assert_eq!(s.result_rows().len(), 1);
    assert_eq!(s.result_rows()[0].outcome, "succeeded");
    assert_eq!(s.result_rows()[0].best_cost_bits, Some(1.5f32.to_bits()));
    assert_eq!(s.result_rows()[0].iters, 64);
    let again = persist_task_result_at(&mut s, &req, 1_600, 1_600).unwrap();
    assert_eq!(again, SubmitResult::Conflict);
    assert_eq!(s.result_rows().len(), 1);
    assert!(s.is_well_formed());
}

#[test]
fn expired_or_foreign_lease_is_refused() {
    let mut s = store_with_two_tasks();
    let lease = claim_next_task_at(&mut s, WORKER, 1_000, 2_000, LEASE_1).unwrap().unwrap();
    let late = request(lease.lease_id, lease.task_id, WORKER, ResultOutcome::Failed);
    assert_eq!(persist_task_result_at(&mut s, &late, 2_001, 2_001).unwrap(), SubmitResult::Conflict);
    let foreign = request(lease.lease_id, lease.task_id, 42, ResultOutcome::Failed);
    assert_eq!(persist_task_result_at(&mut s, &foreign, 1_500, 1_500).unwrap(), SubmitResult::Conflict);
    assert_eq!(s.result_rows().len(), 0);
    assert_eq!(s.task_rows()[0].status, "running");
}

#[test]
fn failed_outcome_is_stored_and_read_back() {
    let mut s = store_with_two_tasks();
    let lease = claim_next_task_at(&mut s, WORKER, 1_000, 2_000, LEASE_1).unwrap().unwrap();
    let req = request(lease.lease_id, lease.task_id, WORKER, ResultOutcome::Failed);
    assert_eq!(persist_task_result_at(&mut s, &req, 1_100, 1_100).unwrap(), SubmitResult::Accepted);
    assert_eq!(s.task_rows()[0].status, "failed");
    let dto = get_task_result(&s, &text(TASK_A)).unwrap().unwrap();
    assert_eq!(dto.outcome, ResultOutcome::Failed);
    assert_eq!(dto.task_id, TASK_A);
    assert_eq!(dto.lease_id, LEASE_1);
    assert_eq!(dto.worker_id, WORKER);
    assert!(dto.success.is_none());
    assert_eq!(dto.failure.unwrap().error_message, "boom");
    assert_eq!(dto.metrics.iters, 64);
    assert_eq!(dto.metrics.best_iters, 10);
    assert_eq!(dto.finished_at, 5_000);
}

#[test]
fn successful_result_reads_back() {
    let mut s = store_with_two_tasks();
    let lease = claim_next_task_at(&mut s, WORKER, 1_000, 2_000, LEASE_1).unwrap().unwrap();
    let req = request(lease.lease_id, lease.task_id, WORKER, ResultOutcome::Succeeded);
    persist_task_result_at(&mut s, &req, 1_100, 1_100).unwrap();
    let dto = get_task_result(&s, &text(TASK_A)).unwrap().unwrap();
    assert_eq!(dto.outcome, ResultOutcome::Succeeded);
    let ok = dto.success.unwrap();
    assert_eq!(f32::from_bits(ok.best_cost_bits), 1.5);
    assert_eq!(ok.best_param_json.as_deref(), Some("[1.0,2.0]"));
    assert!(dto.failure.is_none());
    assert!(get_task_result(&s, &text(TASK_B)).unwrap().is_none());
}

#[test]
fn duplicate_result_is_an_error_and_changes_nothing() {
    let mut s = store_with_two_tasks();
    let lease = claim_next_task_at(&mut s, WORKER, 1_000, 2_000, LEASE_1).unwrap().unwrap();
    let req = request(lease.lease_id, lease.task_id, WORKER, ResultOutcome::Succeeded);
    persist_task_result_at(&mut s, &req, 1_100, 1_100).unwrap();
    let (tasks, mut leases, results) = s.into_rows();
    leases[0].active = true;
    let mut s = TaskStore::from_rows(tasks, leases, results);
    let r = persist_task_result_at(&mut s, &req, 1_200, 1_200);
    assert!(matches!(r, Err(StoreError::DuplicateKey)));
    assert!(s.lease_rows()[0].active);
    assert_eq!(s.result_rows().len(), 1);
}

#[test]
fn unknown_outcome_reads_as_error() {
    let mut s = store_with_two_tasks();
    let lease = claim_next_task_at(&mut s, WORKER, 1_000, 2_000, LEASE_1).unwrap().unwrap();
    let req = request(lease.lease_id, lease.task_id, WORKER, ResultOutcome::Succeeded);
    persist_task_result_at(&mut s, &req, 1_100, 1_100).unwrap();
    let (tasks, leases, mut results) = s.into_rows();
    results[0].outcome = "meh".to_string();
    let s = TaskStore::from_rows(tasks, leases, results);
    match get_task_result(&s, &text(TASK_A)) {
        Err(StoreError::InvalidOutcome(t)) => assert_eq!(t, "meh"),
        _ => panic!("expected an invalid outcome"),
    }
}

#[test]
fn expiry_sweep_fails_running_tasks_and_requeue_makes_them_pending() {
    let mut s = store_with_two_tasks();
    claim_next_task_at(&mut s, WORKER, 1_000, 2_000, LEASE_1).unwrap().unwrap();
    assert_eq!(deactivate_expired_leases(&mut s, 2_000), 0);
    assert!(s.lease_rows()[0].active);
    assert_eq!(deactivate_expired_leases(&mut s, 2_001), 1);
    assert!(!s.lease_rows()[0].active);
    assert_eq!(s.task_rows()[0].status, "failed");
    assert_eq!(s.task_rows()[0].updated_at, 2_001);
    assert_eq!(s.task_rows()[1].status, "pending");
    assert_eq!(deactivate_expired_leases(&mut s, 9_000), 0);
    requeue_failed_task(&mut s);
    assert_eq!(s.task_rows()[0].status, "pending");
    assert_eq!(s.task_rows()[0].updated_at, 2_001);
    let again = claim_next_task_at(&mut s, WORKER, 3_000, 4_000, LEASE_2).unwrap().unwrap();
    assert_eq!(again.task_id, TASK_A);
    assert_eq!(again.attempt, 2);
    assert_eq!(latest_attempt_for_task(&s, &text(TASK_A)), Some(2));
    assert_eq!(latest_attempt_for_task(&s, &text(TASK_B)), None);
}

#[test]
fn lease_lookup_needs_all_three_ids() {
    let mut s = store_with_two_tasks();
    claim_next_task_at(&mut s, WORKER, 1_000, 2_000, LEASE_1).unwrap();
    assert_eq!(lease_by_ids(&s, &text(LEASE_1), &text(TASK_A), &text(WORKER)), Some((true, 2_000)));
    assert_eq!(lease_by_ids(&s, &text(LEASE_1), &text(TASK_B), &text(WORKER)), None);
}

#[test]
fn latest_attempt_follows_lease_time_not_insertion() {
    let lease = |id: &str, at: i64, attempt: i32| LeaseRow {
        lease_id: id.to_string(),
        task_id: text(TASK_A),
        worker_id: text(WORKER),
        leased_at: at,
        lease_expires_at: at + 10,
        attempt,
        active: false,
    };
    let s = TaskStore::from_rows(vec![], vec![lease("l1", 50, 7), lease("l2", 20, 3), lease("l3", 50, 9)], vec![]);
    assert_eq!(latest_attempt_for_task(&s, &text(TASK_A)), Some(7));
}

#[test]
fn claim_is_held_back_when_attempt_would_overflow() {
    let (tasks, _, results) = store_with_two_tasks().into_rows();
    let leases = vec![LeaseRow {
        lease_id: "x".to_string(),
        task_id: text(TASK_A),
        worker_id: text(WORKER),
        leased_at: 0,
        lease_expires_at: 1,
        attempt: i32::MAX,
        active: false,
    }];
    let s = TaskStore::from_rows(tasks, leases, results);
    assert!(!next_attempt_fits(&s));
    assert!(next_attempt_fits(&store_with_two_tasks()));
}

#[test]
fn claim_now_sets_expiry_from_timeout() {
    let mut s = store_with_two_tasks();
    let lease = claim_next_task(&mut s, WORKER, 30).unwrap().unwrap();
    assert_eq!(lease.lease_expires_at - lease.leased_at, 30_000_000);
    assert_eq!(lease.lease_id >> 76 & 0xf, 4);
    assert_eq!(lease.task_id, TASK_A);
    let r = claim_next_task(&mut s, WORKER, i64::MAX);
    assert!(matches!(r, Err(StoreError::ExpiryOutOfRange)));
    assert_eq!(s.task_rows()[1].status, "pending");
    assert!(get_task(&s, TASK_B).unwrap().unwrap().status == TaskStatus::Pending);
}

fn active_leases_per_task(s: &TaskStore, task: u128) -> usize {
    s.lease_rows().iter().filter(|l| l.active && l.task_id == text(task)).count()
}

#[test]
fn leases_stay_exclusive_through_the_protocol() {
    let mut s = store_with_two_tasks();
    claim_next_task_at(&mut s, WORKER, 1_000, 2_000, LEASE_1).unwrap().unwrap();
    claim_next_task_at(&mut s, WORKER, 1_000, 5_000, LEASE_2).unwrap().unwrap();
    assert!(claim_next_task_at(&mut s, WORKER, 1_000, 5_000, 99).unwrap().is_none());
    assert_eq!(active_leases_per_task(&s, TASK_A), 1);
    assert_eq!(active_leases_per_task(&s, TASK_B), 1);
    assert_eq!(deactivate_expired_leases(&mut s, 3_000), 1);
    assert_eq!(active_leases_per_task(&s, TASK_A), 0);
    assert_eq!(active_leases_per_task(&s, TASK_B), 1);
    requeue_failed_task(&mut s);
    let third = claim_next_task_at(&mut s, WORKER, 3_000, 9_000, 0x77).unwrap().unwrap();
    assert_eq!(third.task_id, TASK_A);
    assert_eq!(active_leases_per_task(&s, TASK_A), 1);
    assert!(s.is_well_formed());
}

#[test]
fn claim_reads_the_clock() {
    let mut s = store_with_two_tasks();
    let lease = claim_next_task(&mut s, WORKER, 0).unwrap().unwrap();
    assert!(lease.leased_at > 1_600_000_000_000_000);
    assert_eq!(lease.lease_expires_at, lease.leased_at);
    assert_eq!(s.task_rows()[0].updated_at, lease.leased_at);
}

#[test]
fn lease_expiry_stays_inside_the_calendar() {
    assert_eq!(lease_expiry(0, 60), Some(60_000_000));
    assert_eq!(lease_expiry(1_000, -1), Some(-999_000));
    assert_eq!(lease_expiry(0, 9_223_372_036_854_775), None);
    assert_eq!(lease_expiry(0, 9_223_372_036_854_776), None);
    assert_eq!(lease_expiry(8_210_266_876_799_999_999, 0), Some(8_210_266_876_799_999_999));
    assert_eq!(lease_expiry(8_210_266_876_799_999_999, 1), None);
    assert_eq!(lease_expiry(8_210_266_876_800_000_000, 0), None);
    assert_eq!(lease_expiry(8_210_266_876_798_999_999, 1), Some(8_210_266_876_799_999_999));
    assert_eq!(lease_expiry(-8_334_601_228_800_000_000, 0), Some(-8_334_601_228_800_000_000));
    assert_eq!(lease_expiry(-8_334_601_228_800_000_001, 0), None);
    assert_eq!(lease_expiry(-8_334_601_228_800_000_000, -1), None);
}

#[test]
fn any_request_naming_a_spent_lease_is_refused() {
    let mut s = store_with_two_tasks();
    let lease = claim_next_task_at(&mut s, WORKER, 1_000, 2_000, LEASE_1).unwrap().unwrap();
    let req = request(lease.lease_id, lease.task_id, lease.worker_id, ResultOutcome::Failed);
    assert_eq!(persist_task_result_at(&mut s, &req, 1_500, 1_500).unwrap(), SubmitResult::Accepted);
    let other = request(lease.lease_id, TASK_B, 7, ResultOutcome::Succeeded);
    assert_eq!(persist_task_result_at(&mut s, &other, 1_600, 1_600).unwrap(), SubmitResult::Conflict);
    assert_eq!(s.result_rows().len(), 1);
    assert_eq!(s.task_rows()[1].status, "pending");
}

#[test]
fn claimed_task_is_not_handed_out_again() {
    let mut s = store_with_two_tasks();
    let first = claim_next_task_at(&mut s, WORKER, 1_000, 2_000, LEASE_1).unwrap().unwrap();
    let second = claim_next_task_at(&mut s, 9, 1_000, 2_000, LEASE_2).unwrap().unwrap();
    assert_ne!(first.task_id, second.task_id);
    assert!(claim_next_task_at(&mut s, 9, 1_000, 2_000, 0x55).unwrap().is_none());
}

#[test]
fn fresh_lease_ids_are_version_four() {
    let mut s = store_with_two_tasks();
    let a = claim_next_task(&mut s, WORKER, 60).unwrap().unwrap();
    let b = claim_next_task(&mut s, WORKER, 60).unwrap().unwrap();
    for id in [a.lease_id, b.lease_id] {
        assert_eq!(id & 0x0000_0000_0000_f000_c000_0000_0000_0000, 0x0000_0000_0000_4000_8000_0000_0000_0000);
    }
    assert_ne!(a.lease_id, b.lease_id);
}

#[test]
fn stored_result_reads_outcome_before_ids() {
    let mut s = store_with_two_tasks();
    let lease = claim_next_task_at(&mut s, WORKER, 1_000, 2_000, LEASE_1).unwrap().unwrap();
    let req = request(lease.lease_id, lease.task_id, lease.worker_id, ResultOutcome::Succeeded);
    persist_task_result_at(&mut s, &req, 1_500, 1_500).unwrap();
    let (tasks, leases, mut results) = s.into_rows();
    results[0].lease_id = "not-a-uuid".to_string();
    let s = TaskStore::from_rows(tasks, leases, results);
    let stored = find_task_result(&s, &text(TASK_A)).unwrap().unwrap();
    assert_eq!(stored.outcome(), ResultOutcome::Succeeded);
    assert_eq!(stored.row().best_param_json.as_deref(), Some("[1.0,2.0]"));
    assert!(matches!(stored.into_dto(), Err(StoreError::InvalidUuid)));
    assert!(find_task_result(&s, &text(TASK_B)).unwrap().is_none());
}
