//! Results as the server hands them out.

use vstd::prelude::*;
use crate::ids::{parse_uuid, uuid_parse};
use crate::proto::{
    outcome_of_text, result_outcome_from_text, FailedOptimization, ResultOutcome, TaskRunMetrics,
};
use crate::store::{
    TaskResultRow, find_task_result_row, first_match, result_has_task_id, TaskResultRowView, StoreError, TaskStore,
};

verus! {

/// What a successful run reported: the best cost as the bit pattern of a
/// 32-bit float, and the best parameters as JSON text, if stored.
pub struct SuccessRecord {
    pub best_cost_bits: u32,
    pub best_param_json: Option<String>,
}

/// A stored result as handed out.
pub struct TaskResultDto {
    pub task_id: u128,
    pub lease_id: u128,
    pub worker_id: u128,
    pub outcome: ResultOutcome,
    pub metrics: TaskRunMetrics,
    pub success: Option<SuccessRecord>,
    pub failure: Option<FailedOptimization>,
    pub finished_at: i64,
}

/// `d` is the result that row `r` describes: the ids read as UUIDs, the
/// counters widened back, the success part (a missing cost reads as the bits
/// of 0.0) only for a success, the failure part (a missing message reads as
/// empty) only for a failure.
pub open spec fn result_dto_of_row(d: TaskResultDto, r: TaskResultRowView) -> bool {
    &&& outcome_of_text(r.outcome) == Some(d.outcome)
    &&& uuid_parse(r.task_id) == Some(d.task_id)
    &&& uuid_parse(r.lease_id) == Some(d.lease_id)
    &&& uuid_parse(r.worker_id) == Some(d.worker_id)
    &&& d.metrics.iters == r.iters as usize
    &&& d.metrics.best_iters == r.best_iters as usize
    &&& d.metrics.termination@ == r.termination
    &&& d.finished_at == r.finished_at
    &&& (d.outcome == ResultOutcome::Succeeded) == (d.success is Some)
    &&& d.success matches Some(s) ==> {
        &&& s.best_cost_bits == (match r.best_cost_bits {
            Some(b) => b,
            None => 0u32,
        })
        &&& match (s.best_param_json, r.best_param_json) {
            (Some(a), Some(b)) => a@ == b,
            (None, None) => true,
            _ => false,
        }
    }
    &&& (d.outcome == ResultOutcome::Failed) == (d.failure is Some)
    &&& d.failure matches Some(f) ==> f.error_message@ == (match r.error_message {
        Some(m) => m,
        None => Seq::<char>::empty(),
    })
}

/// What converting result row `r` gives.
pub open spec fn result_row_conversion(r: TaskResultRowView, res: Result<Option<TaskResultDto>, StoreError>) -> bool {
    if outcome_of_text(r.outcome) is None {
        res matches Err(StoreError::InvalidOutcome(t)) && t@ == r.outcome
    } else if uuid_parse(r.task_id) is None || uuid_parse(r.lease_id) is None || uuid_parse(
        r.worker_id,
    ) is None {
        res == Err::<Option<TaskResultDto>, StoreError>(StoreError::InvalidUuid)
    } else {
        res matches Ok(Some(d)) && result_dto_of_row(d, r)
    }
}

/// A stored result row whose outcome text reads as an outcome; its ids and
/// the rest are read by `into_dto`.
pub struct StoredResult {
    outcome: ResultOutcome,
    row: TaskResultRow,
}

impl View for StoredResult {
    type V = TaskResultRowView;

    closed spec fn view(&self) -> TaskResultRowView {
        self.row@
    }
}

/// What `into_dto` gives, in the shape of `result_row_conversion`.
pub open spec fn as_found(r: Result<TaskResultDto, StoreError>) -> Result<Option<TaskResultDto>, StoreError> {
    match r {
        Ok(d) => Ok(Some(d)),
        Err(e) => Err(e),
    }
}

impl StoredResult {
    /// The outcome text reads as the outcome held beside it.
    #[verifier::type_invariant]
    spec fn outcome_matches(self) -> bool {
        outcome_of_text(self.row@.outcome) == Some(self.outcome)
    }

    /// The outcome of the stored result.
    pub fn outcome(&self) -> (r: ResultOutcome)
        ensures
            outcome_of_text(self@.outcome) == Some(r),
    {
        proof {
            use_type_invariant(self);
        }
        self.outcome
    }

    /// The stored row.
    pub fn row(&self) -> (r: &TaskResultRow)
        ensures
            r@ == self@,
    {
        &self.row
    }

    /// Reads the ids and assembles the result: `InvalidUuid` when an id is
    /// not a UUID.
    pub fn into_dto(self) -> (r: Result<TaskResultDto, StoreError>)
        ensures
            result_row_conversion(self@, as_found(r)),
    {
        proof {
            use_type_invariant(&self);
        }
        let outcome = self.outcome;
        let row = self.row;
        let success = match outcome {
            ResultOutcome::Succeeded => Some(
                SuccessRecord {
                    best_cost_bits: match row.best_cost_bits {
                        Some(b) => b,
                        None => 0u32,
                    },
                    best_param_json: row.best_param_json,
                },
            ),
            ResultOutcome::Failed => None,
        };
        let failure = match outcome {
            ResultOutcome::Failed => Some(
                FailedOptimization {
                    error_message: match row.error_message {
                        Some(m) => m,
                        None => String::new(),
                    },
                },
            ),
            ResultOutcome::Succeeded => None,
        };
        let task_id = match parse_uuid(row.task_id.as_str()) {
            Some(id) => id,
            None => return Err(StoreError::InvalidUuid),
        };
        let lease_id = match parse_uuid(row.lease_id.as_str()) {
            Some(id) => id,
            None => return Err(StoreError::InvalidUuid),
        };
        let worker_id = match parse_uuid(row.worker_id.as_str()) {
            Some(id) => id,
            None => return Err(StoreError::InvalidUuid),
        };
        Ok(
            TaskResultDto {
                task_id,
                lease_id,
                worker_id,
                outcome,
                metrics: TaskRunMetrics {
                    iters: row.iters as usize,
                    best_iters: row.best_iters as usize,
                    termination: row.termination,
                },
                success,
                failure,
                finished_at: row.finished_at,
            },
        )
    }
}

/// The first stored result of task `task_id`, with its outcome read: `None`
/// when there is none, `InvalidOutcome` (with the stored text) when the
/// outcome text is not one.
pub fn find_task_result(store: &TaskStore, task_id: &str) -> (r: Result<Option<StoredResult>, StoreError>)
    ensures
        match first_match(store@.results, result_has_task_id(task_id@)) {
            None => r matches Ok(None),
            Some(i) => if outcome_of_text(store@.results[i].outcome) is None {
                r matches Err(StoreError::InvalidOutcome(t)) && t@ == store@.results[i].outcome
            } else {
                r matches Ok(Some(c)) && c@ == store@.results[i]
            },
        },
{
    let row = match find_task_result_row(store, task_id) {
        Some(row) => row,
        None => return Ok(None),
    };
    match result_outcome_from_text(row.outcome.as_str()) {
        Some(outcome) => Ok(Some(StoredResult { outcome, row })),
        None => Err(StoreError::InvalidOutcome(row.outcome.clone())),
    }
}

/// The first stored result of task `task_id`: `None` when there is none,
/// `InvalidOutcome` (with the stored text) or `InvalidUuid` when the row does
/// not read back.
pub fn get_task_result(store: &TaskStore, task_id: &str) -> (r: Result<
    Option<TaskResultDto>,
    StoreError,
>)
    ensures
        match first_match(store@.results, result_has_task_id(task_id@)) {
            None => r == Ok::<Option<TaskResultDto>, StoreError>(None),
            Some(i) => result_row_conversion(store@.results[i], r),
        },
{
    match find_task_result(store, task_id) {
        Ok(Some(stored)) => match stored.into_dto() {
            Ok(d) => Ok(Some(d)),
            Err(e) => Err(e),
        },
        Ok(None) => Ok(None),
        Err(e) => Err(e),
    }
}

} // verus!
