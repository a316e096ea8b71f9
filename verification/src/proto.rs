//! Wire-level vocabulary shared by server, worker and command line.

use vstd::prelude::*;

verus! {

/// Lifecycle state of a task.
#[derive(Debug, Clone, Copy, PartialEq, Eq, Structural)]
pub enum TaskStatus {
    Pending,
    Running,
    Succeeded,
    Failed,
}

/// Outcome that a worker reports for a leased task.
#[derive(Debug, Clone, Copy, PartialEq, Eq, Structural)]
pub enum ResultOutcome {
    Succeeded,
    Failed,
}

/// Counters reported by the optimiser of a worker.
pub struct TaskRunMetrics {
    pub iters: usize,
    pub best_iters: usize,
    pub termination: String,
}

/// Why an optimisation run failed.
pub struct FailedOptimization {
    pub error_message: String,
}

/// Body of an error answer of the server.
pub struct ErrorResponse {
    pub message: String,
}

/// How the server answered a result submission.
#[derive(Debug, Clone, Copy, PartialEq, Eq, Structural)]
pub enum SubmitResult {
    Accepted,
    Conflict,
}

impl SubmitResult {
    /// The HTTP status that answers a submission: 204 (no content) when
    /// accepted, 409 (conflict) when the lease was invalid, stale or expired.
    pub fn status_code(&self) -> (c: u16)
        ensures
            c == (match *self {
                SubmitResult::Accepted => 204u16,
                SubmitResult::Conflict => 409u16,
            }),
    {
        match self {
            SubmitResult::Accepted => 204,
            SubmitResult::Conflict => 409,
        }
    }
}

impl ErrorResponse {
    /// The answer to a refused submission.
    pub fn stale_lease() -> (e: ErrorResponse)
        ensures
            e.message@ == "invalid, stale, or expired lease"@,
    {
        ErrorResponse { message: "invalid, stale, or expired lease".to_owned() }
    }
}

/// The text under which a status is stored and sent (snake case).
pub open spec fn status_text(s: TaskStatus) -> Seq<char> {
    match s {
        TaskStatus::Pending => "pending"@,
        TaskStatus::Running => "running"@,
        TaskStatus::Succeeded => "succeeded"@,
        TaskStatus::Failed => "failed"@,
    }
}

/// The status that a stored text stands for; a text that names no status
/// reads as `Pending`.
pub open spec fn status_of_text(t: Seq<char>) -> TaskStatus {
    if t == "running"@ {
        TaskStatus::Running
    } else if t == "succeeded"@ {
        TaskStatus::Succeeded
    } else if t == "failed"@ {
        TaskStatus::Failed
    } else {
        TaskStatus::Pending
    }
}

/// The text under which an outcome is stored and sent.
pub open spec fn outcome_text(o: ResultOutcome) -> Seq<char> {
    match o {
        ResultOutcome::Succeeded => "succeeded"@,
        ResultOutcome::Failed => "failed"@,
    }
}

/// The outcome that a stored text names, if any.
pub open spec fn outcome_of_text(t: Seq<char>) -> Option<ResultOutcome> {
    if t == "succeeded"@ {
        Some(ResultOutcome::Succeeded)
    } else if t == "failed"@ {
        Some(ResultOutcome::Failed)
    } else {
        None
    }
}

/// Whether two strings hold the same characters.
pub fn same_text(a: &str, b: &str) -> (r: bool)
    ensures
        r == (a@ == b@),
{
    a.to_owned() == b.to_owned()
}

/// The stored text of a status.
pub fn task_status_text(s: TaskStatus) -> (r: &'static str)
    ensures
        r@ == status_text(s),
{
    match s {
        TaskStatus::Pending => "pending",
        TaskStatus::Running => "running",
        TaskStatus::Succeeded => "succeeded",
        TaskStatus::Failed => "failed",
    }
}

/// Reads a stored status text; unknown texts read as `Pending`.
pub fn task_status_from_text(t: &str) -> (r: TaskStatus)
    ensures
        r == status_of_text(t@),
{
    if same_text(t, "running") {
        TaskStatus::Running
    } else if same_text(t, "succeeded") {
        TaskStatus::Succeeded
    } else if same_text(t, "failed") {
        TaskStatus::Failed
    } else {
        TaskStatus::Pending
    }
}

/// The stored text of an outcome.
pub fn result_outcome_text(o: ResultOutcome) -> (r: &'static str)
    ensures
        r@ == outcome_text(o),
{
    match o {
        ResultOutcome::Succeeded => "succeeded",
        ResultOutcome::Failed => "failed",
    }
}

/// Reads a stored outcome text.
pub fn result_outcome_from_text(t: &str) -> (r: Option<ResultOutcome>)
    ensures
        r == outcome_of_text(t@),
{
    if same_text(t, "succeeded") {
        Some(ResultOutcome::Succeeded)
    } else if same_text(t, "failed") {
        Some(ResultOutcome::Failed)
    } else {
        None
    }
}

/// What `str::to_lowercase` makes of a text.
pub uninterp spec fn lowercase_text(s: Seq<char>) -> Seq<char>;

/// Lower-cases a text with `str::to_lowercase`. Claimed: the result is the
/// one named by `lowercase_text` (a function of the text alone: std's
/// lower-casing does not depend on a locale).
#[verifier::external_body]
fn to_lowercase(s: &str) -> (r: String)
    ensures
        r@ == lowercase_text(s@),
{
    s.to_lowercase()
}

/// The status that a lower-case command-line word names, if any.
pub open spec fn status_named(t: Seq<char>) -> Option<TaskStatus> {
    if t == "pending"@ {
        Some(TaskStatus::Pending)
    } else if t == "running"@ {
        Some(TaskStatus::Running)
    } else if t == "succeeded"@ {
        Some(TaskStatus::Succeeded)
    } else if t == "failed"@ {
        Some(TaskStatus::Failed)
    } else {
        None
    }
}

/// The status that a lower-case word names, if any.
pub fn status_from_word(t: &str) -> (r: Option<TaskStatus>)
    ensures
        r == status_named(t@),
{
    if same_text(t, "pending") {
        Some(TaskStatus::Pending)
    } else if same_text(t, "running") {
        Some(TaskStatus::Running)
    } else if same_text(t, "succeeded") {
        Some(TaskStatus::Succeeded)
    } else if same_text(t, "failed") {
        Some(TaskStatus::Failed)
    } else {
        None
    }
}

/// A command-line status word that names no status.
pub struct InvalidStatus {
    /// The word as given.
    pub given: String,
}

impl InvalidStatus {
    /// The message that rejects the word.
    pub fn message(&self) -> (m: String)
        ensures
            m@ == "Invalid status: "@ + self.given@
                + ". Must be pending, running, succeeded, or failed."@,
    {
        let mut m = "Invalid status: ".to_owned();
        m.append(self.given.as_str());
        m.append(". Must be pending, running, succeeded, or failed.");
        m
    }
}

/// Reads a status given on the command line, in any letter case.
pub fn parse_status_arg(s: &str) -> (r: Result<TaskStatus, InvalidStatus>)
    ensures
        match status_named(lowercase_text(s@)) {
            Some(st) => r matches Ok(x) && x == st,
            None => r matches Err(e) && e.given@ == s@,
        },
{
    let lower = to_lowercase(s);
    match status_from_word(lower.as_str()) {
        Some(st) => Ok(st),
        None => Err(InvalidStatus { given: s.to_owned() }),
    }
}

/// Reading back the stored text of a status gives the status.
pub proof fn lemma_status_text_roundtrip(s: TaskStatus)
    ensures
        status_of_text(status_text(s)) == s,
{
    reveal_strlit("pending");
    reveal_strlit("running");
    reveal_strlit("succeeded");
    reveal_strlit("failed");
    assert("pending"@[0] != "running"@[0]);
    assert("pending"@[0] != "succeeded"@[0]);
    assert("pending"@[0] != "failed"@[0]);
    assert("running"@[0] != "succeeded"@[0]);
    assert("running"@[0] != "failed"@[0]);
    assert("succeeded"@[0] != "failed"@[0]);
}

/// Reading back the stored text of an outcome gives the outcome.
pub proof fn lemma_outcome_text_roundtrip(o: ResultOutcome)
    ensures
        outcome_of_text(outcome_text(o)) == Some(o),
{
    reveal_strlit("succeeded");
    reveal_strlit("failed");
    assert("succeeded"@[0] != "failed"@[0]);
}

} // verus!
