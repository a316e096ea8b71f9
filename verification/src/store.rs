//! The server's three tables (tasks, leases, results) held as rows in insertion
//! order, with the reads and writes that the server performs on them.

use vstd::prelude::*;
use crate::proto::same_text;

verus! {

/// A row of the task table.
pub struct TaskRow {
    pub task_id: String,
    pub created_at: i64,
    pub updated_at: i64,
    pub status: String,
    pub payload_json: String,
}

/// A row of the lease table.
pub struct LeaseRow {
    pub lease_id: String,
    pub task_id: String,
    pub worker_id: String,
    pub leased_at: i64,
    pub lease_expires_at: i64,
    pub attempt: i32,
    pub active: bool,
}

/// A row of the result table. The best cost, a 32-bit float, is held as its
/// IEEE-754 bit pattern.
pub struct TaskResultRow {
    pub lease_id: String,
    pub task_id: String,
    pub worker_id: String,
    pub outcome: String,
    pub best_cost_bits: Option<u32>,
    pub best_param_json: Option<String>,
    pub iters: i32,
    pub best_iters: i32,
    pub termination: String,
    pub error_message: Option<String>,
    pub finished_at: i64,
}

pub struct TaskRowView {
    pub task_id: Seq<char>,
    pub created_at: i64,
    pub updated_at: i64,
    pub status: Seq<char>,
    pub payload_json: Seq<char>,
}

pub struct LeaseRowView {
    pub lease_id: Seq<char>,
    pub task_id: Seq<char>,
    pub worker_id: Seq<char>,
    pub leased_at: i64,
    pub lease_expires_at: i64,
    pub attempt: i32,
    pub active: bool,
}

pub struct TaskResultRowView {
    pub lease_id: Seq<char>,
    pub task_id: Seq<char>,
    pub worker_id: Seq<char>,
    pub outcome: Seq<char>,
    pub best_cost_bits: Option<u32>,
    pub best_param_json: Option<Seq<char>>,
    pub iters: i32,
    pub best_iters: i32,
    pub termination: Seq<char>,
    pub error_message: Option<Seq<char>>,
    pub finished_at: i64,
}

pub open spec fn opt_text(o: Option<String>) -> Option<Seq<char>> {
    match o {
        Some(s) => Some(s@),
        None => None,
    }
}

impl View for TaskRow {
    type V = TaskRowView;

    open spec fn view(&self) -> TaskRowView {
        TaskRowView {
            task_id: self.task_id@,
            created_at: self.created_at,
            updated_at: self.updated_at,
            status: self.status@,
            payload_json: self.payload_json@,
        }
    }
}

impl View for LeaseRow {
    type V = LeaseRowView;

    open spec fn view(&self) -> LeaseRowView {
        LeaseRowView {
            lease_id: self.lease_id@,
            task_id: self.task_id@,
            worker_id: self.worker_id@,
            leased_at: self.leased_at,
            lease_expires_at: self.lease_expires_at,
            attempt: self.attempt,
            active: self.active,
        }
    }
}

impl View for TaskResultRow {
    type V = TaskResultRowView;

    open spec fn view(&self) -> TaskResultRowView {
        TaskResultRowView {
            lease_id: self.lease_id@,
            task_id: self.task_id@,
            worker_id: self.worker_id@,
            outcome: self.outcome@,
            best_cost_bits: self.best_cost_bits,
            best_param_json: opt_text(self.best_param_json),
            iters: self.iters,
            best_iters: self.best_iters,
            termination: self.termination@,
            error_message: opt_text(self.error_message),
            finished_at: self.finished_at,
        }
    }
}

fn copy_opt_text(o: &Option<String>) -> (r: Option<String>)
    ensures
        opt_text(r) == opt_text(*o),
{
    match o {
        Some(s) => Some(s.clone()),
        None => None,
    }
}

impl TaskRow {
    /// A row with the same contents.
    pub fn duplicate(&self) -> (r: TaskRow)
        ensures
            r@ == self@,
    {
        TaskRow {
            task_id: self.task_id.clone(),
            created_at: self.created_at,
            updated_at: self.updated_at,
            status: self.status.clone(),
            payload_json: self.payload_json.clone(),
        }
    }
}

impl LeaseRow {
    /// A row with the same contents.
    pub fn duplicate(&self) -> (r: LeaseRow)
        ensures
            r@ == self@,
    {
        LeaseRow {
            lease_id: self.lease_id.clone(),
            task_id: self.task_id.clone(),
            worker_id: self.worker_id.clone(),
            leased_at: self.leased_at,
            lease_expires_at: self.lease_expires_at,
            attempt: self.attempt,
            active: self.active,
        }
    }
}

impl TaskResultRow {
    /// A row with the same contents.
    pub fn duplicate(&self) -> (r: TaskResultRow)
        ensures
            r@ == self@,
    {
        TaskResultRow {
            lease_id: self.lease_id.clone(),
            task_id: self.task_id.clone(),
            worker_id: self.worker_id.clone(),
            outcome: self.outcome.clone(),
            best_cost_bits: self.best_cost_bits,
            best_param_json: copy_opt_text(&self.best_param_json),
            iters: self.iters,
            best_iters: self.best_iters,
            termination: self.termination.clone(),
            error_message: copy_opt_text(&self.error_message),
            finished_at: self.finished_at,
        }
    }
}

/// The index of the first element of `s` that satisfies `p`.
pub open spec fn first_match<A>(s: Seq<A>, p: spec_fn(A) -> bool) -> Option<int>
    decreases s.len(),
{
    if s.len() == 0 {
        None
    } else {
        match first_match(s.drop_last(), p) {
            Some(i) => Some(i),
            None => if p(s.last()) {
                Some(s.len() - 1)
            } else {
                None
            },
        }
    }
}

/// `first_match` finds the least index whose element satisfies `p`, and
/// finds none exactly when no element does.
pub proof fn lemma_first_match<A>(s: Seq<A>, p: spec_fn(A) -> bool)
    ensures
        first_match(s, p) matches Some(i) ==> {
            &&& 0 <= i < s.len()
            &&& p(s[i])
            &&& forall|k: int| 0 <= k < i ==> !p(#[trigger] s[k])
        },
        first_match(s, p) is None ==> forall|k: int| 0 <= k < s.len() ==> !p(#[trigger] s[k]),
    decreases s.len(),
{
    if s.len() > 0 {
        lemma_first_match(s.drop_last(), p);
        assert forall|k: int| 0 <= k < s.len() - 1 implies s.drop_last()[k] == s[k] by {}
    }
}

/// Extending a prefix by one element extends its first match as the
/// definition does.
pub proof fn lemma_first_match_take<A>(s: Seq<A>, p: spec_fn(A) -> bool, i: int)
    requires
        0 <= i < s.len(),
    ensures
        first_match(s.take(i + 1), p) == (match first_match(s.take(i), p) {
            Some(j) => Some(j),
            None => if p(s[i]) {
                Some(i)
            } else {
                None
            },
        }),
{
    assert(s.take(i + 1).drop_last() =~= s.take(i));
}

/// Rows whose task id is `id`.
pub open spec fn task_has_id(id: Seq<char>) -> spec_fn(TaskRowView) -> bool {
    |r: TaskRowView| r.task_id == id
}

/// Rows whose status is pending.
pub open spec fn task_is_pending() -> spec_fn(TaskRowView) -> bool {
    |r: TaskRowView| r.status == "pending"@
}

/// The task table after `status` and `now` are written to the rows of task `id`.
pub open spec fn tasks_with_status(
    tasks: Seq<TaskRowView>,
    id: Seq<char>,
    status: Seq<char>,
    now: i64,
) -> Seq<TaskRowView> {
    tasks.map_values(
        |r: TaskRowView|
            if r.task_id == id {
                TaskRowView { status: status, updated_at: now, ..r }
            } else {
                r
            },
    )
}

/// The task table after every failed task is made pending again.
pub open spec fn tasks_requeued(tasks: Seq<TaskRowView>) -> Seq<TaskRowView> {
    tasks.map_values(
        |r: TaskRowView|
            if r.status == "failed"@ {
                TaskRowView { status: "pending"@, ..r }
            } else {
                r
            },
    )
}

/// Contents of the three tables.
pub struct StoreView {
    pub tasks: Seq<TaskRowView>,
    pub leases: Seq<LeaseRowView>,
    pub results: Seq<TaskResultRowView>,
}

impl StoreView {
    /// Keys are unique in each table, and each result belongs to a lease.
    pub open spec fn wf(self) -> bool {
        &&& forall|i: int, j: int|
            0 <= i < j < self.tasks.len() ==> self.tasks[i].task_id != self.tasks[j].task_id
        &&& forall|i: int, j: int|
            0 <= i < j < self.leases.len() ==> self.leases[i].lease_id != self.leases[j].lease_id
        &&& forall|i: int, j: int|
            0 <= i < j < self.results.len() ==> self.results[i].lease_id
                != self.results[j].lease_id
        &&& forall|i: int|
            0 <= i < self.results.len() ==> self.has_lease(#[trigger] self.results[i].lease_id)
    }

    /// Some lease row has lease id `id`.
    pub open spec fn has_lease(self, id: Seq<char>) -> bool {
        exists|j: int| 0 <= j < self.leases.len() && #[trigger] self.leases[j].lease_id == id
    }
}

/// The server's tables.
pub struct TaskStore {
    tasks: Vec<TaskRow>,
    leases: Vec<LeaseRow>,
    results: Vec<TaskResultRow>,
}

impl View for TaskStore {
    type V = StoreView;

    closed spec fn view(&self) -> StoreView {
        StoreView {
            tasks: self.tasks@.map_values(|r: TaskRow| r@),
            leases: self.leases@.map_values(|r: LeaseRow| r@),
            results: self.results@.map_values(|r: TaskResultRow| r@),
        }
    }
}

impl TaskStore {
    /// Empty tables.
    pub fn new() -> (s: TaskStore)
        ensures
            s@.tasks.len() == 0,
            s@.leases.len() == 0,
            s@.results.len() == 0,
            s@.wf(),
    {
        TaskStore { tasks: Vec::new(), leases: Vec::new(), results: Vec::new() }
    }

    /// Tables holding the given rows, in the given order.
    pub fn from_rows(tasks: Vec<TaskRow>, leases: Vec<LeaseRow>, results: Vec<TaskResultRow>) -> (s:
        TaskStore)
        ensures
            s@.tasks == tasks@.map_values(|x: TaskRow| x@),
            s@.leases == leases@.map_values(|x: LeaseRow| x@),
            s@.results == results@.map_values(|x: TaskResultRow| x@),
    {
        TaskStore { tasks, leases, results }
    }

    /// The rows of the three tables, in insertion order.
    pub fn into_rows(self) -> (r: (Vec<TaskRow>, Vec<LeaseRow>, Vec<TaskResultRow>))
        ensures
            r.0@.map_values(|x: TaskRow| x@) == self@.tasks,
            r.1@.map_values(|x: LeaseRow| x@) == self@.leases,
            r.2@.map_values(|x: TaskResultRow| x@) == self@.results,
    {
        (self.tasks, self.leases, self.results)
    }

    /// The task rows, in insertion order.
    pub fn task_rows(&self) -> (r: &Vec<TaskRow>)
        ensures
            r@.map_values(|x: TaskRow| x@) == self@.tasks,
    {
        &self.tasks
    }

    /// The lease rows, in insertion order.
    pub fn lease_rows(&self) -> (r: &Vec<LeaseRow>)
        ensures
            r@.map_values(|x: LeaseRow| x@) == self@.leases,
    {
        &self.leases
    }

    /// The result rows, in insertion order.
    pub fn result_rows(&self) -> (r: &Vec<TaskResultRow>)
        ensures
            r@.map_values(|x: TaskResultRow| x@) == self@.results,
    {
        &self.results
    }
}

/// The first pending task, in insertion order.
pub fn fetch_first_pending_task(store: &TaskStore) -> (r: Option<TaskRow>)
    ensures
        match first_match(store@.tasks, task_is_pending()) {
            Some(i) => r matches Some(row) && row@ == store@.tasks[i],
            None => r is None,
        },
{
    let ghost p = task_is_pending();
    let n = store.tasks.len();
    let mut i: usize = 0;
    while i < n
        invariant
            n == store.tasks.len(),
            i <= n,
            p == task_is_pending(),
            first_match(store@.tasks.take(i as int), p) is None,
        decreases n - i,
    {
        proof {
            lemma_first_match_take(store@.tasks, p, i as int);
            assert(store@.tasks[i as int] == store.tasks@[i as int]@);
        }
        let hit = same_text(store.tasks[i].status.as_str(), "pending");
        assert(hit == p(store@.tasks[i as int]));
        if hit {
            assert(first_match(store@.tasks.take(i + 1), p) == Some(i as int));
            assert(first_match(store@.tasks, p) == Some(i as int)) by {
                lemma_first_match_prefix(store@.tasks, p, i + 1);
            }
            return Some(store.tasks[i].duplicate());
        }
        i = i + 1;
    }
    assert(store@.tasks.take(n as int) =~= store@.tasks);
    None
}

/// Writes `status` and `now` (as the update time) to the rows of task `task_id`.
pub fn mark_task_status(store: &mut TaskStore, task_id: &str, status: &str, now: i64)
    ensures
        final(store)@ == (StoreView {
            tasks: tasks_with_status(old(store)@.tasks, task_id@, status@, now),
            ..old(store)@
        }),
        old(store)@.wf() ==> final(store)@.wf(),
{
    let ghost old_tasks = store.tasks@;
    let n = store.tasks.len();
    let mut i: usize = 0;
    while i < n
        invariant
            n == store.tasks.len(),
            n == old_tasks.len(),
            i <= n,
            store.leases == old(store).leases,
            store.results == old(store).results,
            forall|k: int|
                0 <= k < i ==> #[trigger] store.tasks@[k]@ == (if old_tasks[k]@.task_id
                    == task_id@ {
                    TaskRowView { status: status@, updated_at: now, ..old_tasks[k]@ }
                } else {
                    old_tasks[k]@
                }),
            forall|k: int| i <= k < n ==> #[trigger] store.tasks@[k] == old_tasks[k],
        decreases n - i,
    {
        if same_text(store.tasks[i].task_id.as_str(), task_id) {
            store.tasks[i].status = status.to_owned();
            store.tasks[i].updated_at = now;
        }
        i = i + 1;
    }
    proof {
        assert(store@.tasks =~= tasks_with_status(old(store)@.tasks, task_id@, status@, now));
        assert(store@.leases =~= old(store)@.leases);
        assert(store@.results =~= old(store)@.results);
        if old(store)@.wf() {
            lemma_wf_same_keys(old(store)@, store@);
        }
    }
}

/// Marks task `task_id` as running at `now`.
pub fn mark_task_running(store: &mut TaskStore, task_id: &str, now: i64)
    ensures
        final(store)@ == (StoreView {
            tasks: tasks_with_status(old(store)@.tasks, task_id@, "running"@, now),
            ..old(store)@
        }),
        old(store)@.wf() ==> final(store)@.wf(),
{
    mark_task_status(store, task_id, "running", now);
}

/// Makes every failed task pending again (update times are kept).
pub fn requeue_failed_task(store: &mut TaskStore)
    ensures
        final(store)@ == (StoreView { tasks: tasks_requeued(old(store)@.tasks), ..old(store)@ }),
        old(store)@.wf() ==> final(store)@.wf(),
{
    let ghost old_tasks = store.tasks@;
    let n = store.tasks.len();
    let mut i: usize = 0;
    while i < n
        invariant
            n == store.tasks.len(),
            n == old_tasks.len(),
            i <= n,
            store.leases == old(store).leases,
            store.results == old(store).results,
            forall|k: int|
                0 <= k < i ==> #[trigger] store.tasks@[k]@ == (if old_tasks[k]@.status
                    == "failed"@ {
                    TaskRowView { status: "pending"@, ..old_tasks[k]@ }
                } else {
                    old_tasks[k]@
                }),
            forall|k: int| i <= k < n ==> #[trigger] store.tasks@[k] == old_tasks[k],
        decreases n - i,
    {
        if same_text(store.tasks[i].status.as_str(), "failed") {
            store.tasks[i].status = "pending".to_owned();
        }
        i = i + 1;
    }
    proof {
        assert(store@.tasks =~= tasks_requeued(old(store)@.tasks));
        assert(store@.leases =~= old(store)@.leases);
        assert(store@.results =~= old(store)@.results);
        if old(store)@.wf() {
            lemma_wf_same_keys(old(store)@, store@);
        }
    }
}

/// Tables with the same keys at the same places are equally well formed.
pub proof fn lemma_wf_same_keys(a: StoreView, b: StoreView)
    requires
        a.wf(),
        a.tasks.len() == b.tasks.len(),
        a.leases.len() == b.leases.len(),
        a.results.len() == b.results.len(),
        forall|i: int| 0 <= i < a.tasks.len() ==> #[trigger] a.tasks[i].task_id == b.tasks[i].task_id,
        forall|i: int|
            0 <= i < a.leases.len() ==> #[trigger] a.leases[i].lease_id == b.leases[i].lease_id,
        forall|i: int|
            0 <= i < a.results.len() ==> #[trigger] a.results[i].lease_id == b.results[i].lease_id,
    ensures
        b.wf(),
{
    assert forall|i: int, j: int| 0 <= i < j < b.tasks.len() implies b.tasks[i].task_id
        != b.tasks[j].task_id by {
        assert(a.tasks[i].task_id == b.tasks[i].task_id);
        assert(a.tasks[j].task_id == b.tasks[j].task_id);
    }
    assert forall|i: int, j: int| 0 <= i < j < b.leases.len() implies b.leases[i].lease_id
        != b.leases[j].lease_id by {
        assert(a.leases[i].lease_id == b.leases[i].lease_id);
        assert(a.leases[j].lease_id == b.leases[j].lease_id);
    }
    assert forall|i: int, j: int| 0 <= i < j < b.results.len() implies b.results[i].lease_id
        != b.results[j].lease_id by {
        assert(a.results[i].lease_id == b.results[i].lease_id);
        assert(a.results[j].lease_id == b.results[j].lease_id);
    }
    assert forall|i: int| 0 <= i < b.results.len() implies b.has_lease(
        #[trigger] b.results[i].lease_id,
    ) by {
        assert(a.results[i].lease_id == b.results[i].lease_id);
        assert(a.has_lease(a.results[i].lease_id));
        let j = choose|j: int|
            0 <= j < a.leases.len() && #[trigger] a.leases[j].lease_id == a.results[i].lease_id;
        assert(a.leases[j].lease_id == b.leases[j].lease_id);
        assert(b.leases[j].lease_id == b.results[i].lease_id);
    }
}

/// Why a read or write of the tables was refused.
#[derive(Debug, Clone)]
pub enum StoreError {
    /// A row with the same key is already stored.
    DuplicateKey,
    /// A stored identifier is not a UUID.
    InvalidUuid,
    /// A stored outcome names no outcome; the stored text.
    InvalidOutcome(String),
    /// A lease expiry falls outside the calendar.
    ExpiryOutOfRange,
}

/// The index of the first task row with id `id`.
fn task_index(store: &TaskStore, id: &str) -> (r: Option<usize>)
    ensures
        r matches Some(i) ==> first_match(store@.tasks, task_has_id(id@)) == Some(i as int),
        r is None ==> first_match(store@.tasks, task_has_id(id@)) is None,
        r matches Some(i) ==> i < store@.tasks.len(),
{
    let ghost p = task_has_id(id@);
    let n = store.tasks.len();
    let mut i: usize = 0;
    while i < n
        invariant
            n == store.tasks.len(),
            i <= n,
            p == task_has_id(id@),
            first_match(store@.tasks.take(i as int), p) is None,
        decreases n - i,
    {
        proof {
            lemma_first_match_take(store@.tasks, p, i as int);
            assert(store@.tasks[i as int] == store.tasks@[i as int]@);
        }
        let hit = same_text(store.tasks[i].task_id.as_str(), id);
        assert(hit == p(store@.tasks[i as int]));
        if hit {
            assert(first_match(store@.tasks, p) == Some(i as int)) by {
                lemma_first_match_prefix(store@.tasks, p, i + 1);
            }
            return Some(i);
        }
        i = i + 1;
    }
    assert(store@.tasks.take(n as int) =~= store@.tasks);
    None
}

/// The first task row with id `task_id`.
pub fn find_task_row(store: &TaskStore, task_id: &str) -> (r: Option<TaskRow>)
    ensures
        match first_match(store@.tasks, task_has_id(task_id@)) {
            Some(i) => r matches Some(row) && row@ == store@.tasks[i],
            None => r is None,
        },
{
    match task_index(store, task_id) {
        Some(i) => {
            assert(store@.tasks[i as int] == store.tasks@[i as int]@);
            proof {
                lemma_first_match(store@.tasks, task_has_id(task_id@));
            }
            Some(store.tasks[i].duplicate())
        },
        None => None,
    }
}

/// Appends a task row; refused, with the tables unchanged, when its id is taken.
pub fn insert_task_row(store: &mut TaskStore, row: TaskRow) -> (r: Result<(), StoreError>)
    ensures
        first_match(old(store)@.tasks, task_has_id(row@.task_id)) is Some ==> {
            &&& r == Err::<(), StoreError>(StoreError::DuplicateKey)
            &&& final(store)@ == old(store)@
        },
        first_match(old(store)@.tasks, task_has_id(row@.task_id)) is None ==> {
            &&& r == Ok::<(), StoreError>(())
            &&& final(store)@ == (StoreView { tasks: old(store)@.tasks.push(row@), ..old(store)@ })
        },
        old(store)@.wf() ==> final(store)@.wf(),
{
    if task_index(store, row.task_id.as_str()).is_some() {
        return Err(StoreError::DuplicateKey);
    }
    proof {
        lemma_first_match(old(store)@.tasks, task_has_id(row@.task_id));
    }
    store.tasks.push(row);
    proof {
        assert(store@.tasks =~= old(store)@.tasks.push(row@));
        assert(store@.leases =~= old(store)@.leases);
        assert(store@.results =~= old(store)@.results);
        if old(store)@.wf() {
            let s = store@;
            assert forall|i: int, j: int| 0 <= i < j < s.tasks.len() implies s.tasks[i].task_id
                != s.tasks[j].task_id by {
                if j == s.tasks.len() - 1 {
                    assert(!task_has_id(row@.task_id)(old(store)@.tasks[i]));
                }
            }
            assert forall|i: int| 0 <= i < s.results.len() implies s.has_lease(
                #[trigger] s.results[i].lease_id,
            ) by {
                assert(old(store)@.has_lease(old(store)@.results[i].lease_id));
            }
        }
    }
    Ok(())
}

/// The task table after `payload` and `now` are written to the rows of task `id`.
pub open spec fn tasks_with_payload(
    tasks: Seq<TaskRowView>,
    id: Seq<char>,
    payload: Seq<char>,
    now: i64,
) -> Seq<TaskRowView> {
    tasks.map_values(
        |r: TaskRowView|
            if r.task_id == id {
                TaskRowView { payload_json: payload, updated_at: now, ..r }
            } else {
                r
            },
    )
}

/// Writes `payload_json` and `now` (as the update time) to the rows of task `task_id`.
pub fn set_task_payload(store: &mut TaskStore, task_id: &str, payload_json: &str, now: i64)
    ensures
        final(store)@ == (StoreView {
            tasks: tasks_with_payload(old(store)@.tasks, task_id@, payload_json@, now),
            ..old(store)@
        }),
        old(store)@.wf() ==> final(store)@.wf(),
{
    let ghost old_tasks = store.tasks@;
    let n = store.tasks.len();
    let mut i: usize = 0;
    while i < n
        invariant
            n == store.tasks.len(),
            n == old_tasks.len(),
            i <= n,
            store.leases == old(store).leases,
            store.results == old(store).results,
            forall|k: int|
                0 <= k < i ==> #[trigger] store.tasks@[k]@ == (if old_tasks[k]@.task_id
                    == task_id@ {
                    TaskRowView { payload_json: payload_json@, updated_at: now, ..old_tasks[k]@ }
                } else {
                    old_tasks[k]@
                }),
            forall|k: int| i <= k < n ==> #[trigger] store.tasks@[k] == old_tasks[k],
        decreases n - i,
    {
        if same_text(store.tasks[i].task_id.as_str(), task_id) {
            store.tasks[i].payload_json = payload_json.to_owned();
            store.tasks[i].updated_at = now;
        }
        i = i + 1;
    }
    proof {
        assert(store@.tasks =~= tasks_with_payload(old(store)@.tasks, task_id@, payload_json@, now));
        assert(store@.leases =~= old(store)@.leases);
        assert(store@.results =~= old(store)@.results);
        if old(store)@.wf() {
            lemma_wf_same_keys(old(store)@, store@);
        }
    }
}

/// Rows whose task id is not `id`.
pub open spec fn task_lacks_id(id: Seq<char>) -> spec_fn(TaskRowView) -> bool {
    |r: TaskRowView| r.task_id != id
}

/// Removes the rows of task `task_id`; tells whether there were any.
pub fn delete_task_rows(store: &mut TaskStore, task_id: &str) -> (r: bool)
    ensures
        final(store)@ == (StoreView {
            tasks: old(store)@.tasks.filter(task_lacks_id(task_id@)),
            ..old(store)@
        }),
        r == (first_match(old(store)@.tasks, task_has_id(task_id@)) is Some),
        old(store)@.wf() ==> final(store)@.wf(),
{
    let ghost p = task_lacks_id(task_id@);
    let ghost q = task_has_id(task_id@);
    let ghost old_view = store@.tasks;
    let mut old_rows: Vec<TaskRow> = Vec::new();
    std::mem::swap(&mut old_rows, &mut store.tasks);
    assert(old_rows@.map_values(|x: TaskRow| x@) == old_view);
    let n = old_rows.len();
    let mut removed = false;
    let mut i: usize = 0;
    while i < n
        invariant
            n == old_rows.len(),
            i <= n,
            old_view == old_rows@.map_values(|x: TaskRow| x@),
            p == task_lacks_id(task_id@),
            q == task_has_id(task_id@),
            store.leases == old(store).leases,
            store.results == old(store).results,
            store@.tasks == old_view.take(i as int).filter(p),
            removed == (first_match(old_view.take(i as int), q) is Some),
        decreases n - i,
    {
        proof {
            lemma_first_match_take(old_view, q, i as int);
            assert(old_view[i as int] == old_rows@[i as int]@);
            assert(old_view.take(i + 1).drop_last() =~= old_view.take(i as int));
            old_view.take(i as int).lemma_filter_push(old_view[i as int], p);
            assert(old_view.take(i + 1) =~= old_view.take(i as int).push(old_view[i as int]));
        }
        if same_text(old_rows[i].task_id.as_str(), task_id) {
            removed = true;
        } else {
            let ghost before = store.tasks@;
            store.tasks.push(old_rows[i].duplicate());
            assert(store@.tasks =~= before.map_values(|x: TaskRow| x@).push(old_view[i as int]));
        }
        i = i + 1;
    }
    proof {
        assert(old_view.take(n as int) =~= old_view);
        assert(store@.leases =~= old(store)@.leases);
        assert(store@.results =~= old(store)@.results);
        if old(store)@.wf() {
            lemma_wf_filter_tasks(old(store)@, p);
        }
    }
    removed
}

/// Dropping task rows keeps the tables well formed.
pub proof fn lemma_wf_filter_tasks(a: StoreView, p: spec_fn(TaskRowView) -> bool)
    requires
        a.wf(),
    ensures
        (StoreView { tasks: a.tasks.filter(p), ..a }).wf(),
{
    let b = StoreView { tasks: a.tasks.filter(p), ..a };
    assert forall|i: int, j: int| 0 <= i < j < b.tasks.len() implies b.tasks[i].task_id
        != b.tasks[j].task_id by {
        lemma_filter_keeps_order(a.tasks, p, i, j);
    }
    assert forall|i: int| 0 <= i < b.results.len() implies b.has_lease(
        #[trigger] b.results[i].lease_id,
    ) by {
        assert(b.results[i] == a.results[i]);
        assert(a.has_lease(a.results[i].lease_id));
        let k = choose|k: int| 0 <= k < a.leases.len() && #[trigger] a.leases[k].lease_id == a.results[i].lease_id;
        assert(b.leases[k] == a.leases[k]);
    }
}

/// Each place of a filtered sequence comes from some place of the unfiltered sequence.
pub proof fn lemma_filter_index_source<A>(s: Seq<A>, p: spec_fn(A) -> bool, i: int)
    requires
        0 <= i < s.filter(p).len(),
    ensures
        exists|a: int| 0 <= a < s.len() && s[a] == s.filter(p)[i],
    decreases s.len(),
{
    reveal(Seq::filter);
    let f = s.filter(p);
    let d = s.drop_last();
    if p(s.last()) && i == f.len() - 1 {
        assert(s[s.len() - 1] == f[i]);
    } else {
        assert(f[i] == d.filter(p)[i]);
        lemma_filter_index_source(d, p, i);
        let a = choose|a: int| 0 <= a < d.len() && d[a] == d.filter(p)[i];
        assert(s[a] == d[a]);
    }
}

/// Two places of a filtered sequence come from two places of the unfiltered sequence,
/// in the same order.
pub proof fn lemma_filter_keeps_order<A>(s: Seq<A>, p: spec_fn(A) -> bool, i: int, j: int)
    requires
        0 <= i < j < s.filter(p).len(),
    ensures
        exists|a: int, b: int|
            0 <= a < b < s.len() && s[a] == s.filter(p)[i] && s[b] == s.filter(p)[j],
    decreases s.len(),
{
    reveal(Seq::filter);
    let f = s.filter(p);
    let d = s.drop_last();
    assert(s.len() > 0);
    if p(s.last()) {
        assert(f == d.filter(p).push(s.last()));
        if j < f.len() - 1 {
            lemma_filter_keeps_order(d, p, i, j);
            let (a, b) = choose|a: int, b: int|
                0 <= a < b < d.len() && d[a] == d.filter(p)[i] && d[b] == d.filter(p)[j];
            assert(s[a] == d[a] && s[b] == d[b]);
            assert(0 <= a < b < s.len() && s[a] == f[i] && s[b] == f[j]);
        } else {
            assert(f[i] == d.filter(p)[i]);
            lemma_filter_index_source(d, p, i);
            let a = choose|a: int| 0 <= a < d.len() && d[a] == d.filter(p)[i];
            assert(s[a] == d[a]);
            assert(s[s.len() - 1] == f[j]);
            assert(0 <= a < s.len() - 1 < s.len() && s[a] == f[i] && s[s.len() - 1] == f[j]);
        }
    } else {
        assert(f == d.filter(p));
        lemma_filter_keeps_order(d, p, i, j);
        let (a, b) = choose|a: int, b: int|
            0 <= a < b < d.len() && d[a] == d.filter(p)[i] && d[b] == d.filter(p)[j];
        assert(s[a] == d[a] && s[b] == d[b]);
        assert(0 <= a < b < s.len() && s[a] == f[i] && s[b] == f[j]);
    }
}

/// Leases with lease id `id`.
pub open spec fn lease_has_id(id: Seq<char>) -> spec_fn(LeaseRowView) -> bool {
    |l: LeaseRowView| l.lease_id == id
}

/// Leases that carry all three ids.
pub open spec fn lease_has_ids(
    lease_id: Seq<char>,
    task_id: Seq<char>,
    worker_id: Seq<char>,
) -> spec_fn(LeaseRowView) -> bool {
    |l: LeaseRowView| l.lease_id == lease_id && l.task_id == task_id && l.worker_id == worker_id
}

/// Active leases whose expiry lies before `now`.
pub open spec fn lease_expired(now: i64) -> spec_fn(LeaseRowView) -> bool {
    |l: LeaseRowView| l.active && l.lease_expires_at < now
}

/// The index of the most recent lease of task `task` (greatest lease time;
/// among equal times, the earliest stored).
pub open spec fn latest_lease(leases: Seq<LeaseRowView>, task: Seq<char>) -> Option<int>
    decreases leases.len(),
{
    if leases.len() == 0 {
        None
    } else {
        let prev = latest_lease(leases.drop_last(), task);
        let l = leases.last();
        if l.task_id == task && (match prev {
            None => true,
            Some(k) => leases[k].leased_at < l.leased_at,
        }) {
            Some(leases.len() - 1)
        } else {
            prev
        }
    }
}

/// `latest_lease` picks a lease of the task with the greatest lease time,
/// and picks none exactly when the task has no lease.
pub proof fn lemma_latest_lease(leases: Seq<LeaseRowView>, task: Seq<char>)
    ensures
        latest_lease(leases, task) matches Some(k) ==> {
            &&& 0 <= k < leases.len()
            &&& leases[k].task_id == task
            &&& forall|m: int|
                0 <= m < leases.len() && #[trigger] leases[m].task_id == task
                    ==> leases[m].leased_at <= leases[k].leased_at
        },
        latest_lease(leases, task) is None ==> forall|m: int|
            0 <= m < leases.len() ==> #[trigger] leases[m].task_id != task,
    decreases leases.len(),
{
    if leases.len() > 0 {
        let d = leases.drop_last();
        lemma_latest_lease(d, task);
        assert forall|m: int| 0 <= m < d.len() implies #[trigger] d[m] == leases[m] by {}
        let last = leases.len() - 1;
        match latest_lease(leases, task) {
            Some(k) => {
                assert forall|m: int|
                    0 <= m < leases.len() && #[trigger] leases[m].task_id == task implies leases[m].leased_at
                    <= leases[k].leased_at by {
                    if m < last {
                        assert(d[m] == leases[m]);
                    }
                }
            },
            None => {
                assert forall|m: int| 0 <= m < leases.len() implies #[trigger] leases[m].task_id
                    != task by {
                    if m < last {
                        assert(d[m] == leases[m]);
                    }
                }
            },
        }
    }
}

/// The lease table after lease `id` is made inactive.
pub open spec fn leases_deactivated(leases: Seq<LeaseRowView>, id: Seq<char>) -> Seq<LeaseRowView> {
    leases.map_values(
        |l: LeaseRowView|
            if l.lease_id == id {
                LeaseRowView { active: false, ..l }
            } else {
                l
            },
    )
}

/// The lease table after every lease expired at `now` is made inactive.
pub open spec fn leases_expired_off(leases: Seq<LeaseRowView>, now: i64) -> Seq<LeaseRowView> {
    leases.map_values(
        |l: LeaseRowView|
            if lease_expired(now)(l) {
                LeaseRowView { active: false, ..l }
            } else {
                l
            },
    )
}

/// Task `task` has a lease expired at `now`.
pub open spec fn has_expired_lease(leases: Seq<LeaseRowView>, now: i64, task: Seq<char>) -> bool {
    exists|k: int| 0 <= k < leases.len() && lease_expired(now)(#[trigger] leases[k]) && leases[k].task_id == task
}

/// The task table after every running task with a lease expired at `now`
/// is marked failed at `now`.
pub open spec fn tasks_failed_on_expiry(
    tasks: Seq<TaskRowView>,
    leases: Seq<LeaseRowView>,
    now: i64,
) -> Seq<TaskRowView> {
    tasks.map_values(
        |r: TaskRowView|
            if r.status == "running"@ && has_expired_lease(leases, now, r.task_id) {
                TaskRowView { status: "failed"@, updated_at: now, ..r }
            } else {
                r
            },
    )
}

/// The index of the first lease with lease id `id`.
fn lease_index(store: &TaskStore, id: &str) -> (r: Option<usize>)
    ensures
        r matches Some(i) ==> first_match(store@.leases, lease_has_id(id@)) == Some(i as int),
        r is None ==> first_match(store@.leases, lease_has_id(id@)) is None,
        r matches Some(i) ==> i < store@.leases.len(),
{
    let ghost p = lease_has_id(id@);
    let n = store.leases.len();
    let mut i: usize = 0;
    while i < n
        invariant
            n == store.leases.len(),
            i <= n,
            p == lease_has_id(id@),
            first_match(store@.leases.take(i as int), p) is None,
        decreases n - i,
    {
        proof {
            lemma_first_match_take(store@.leases, p, i as int);
            assert(store@.leases[i as int] == store.leases@[i as int]@);
        }
        let hit = same_text(store.leases[i].lease_id.as_str(), id);
        assert(hit == p(store@.leases[i as int]));
        if hit {
            assert(first_match(store@.leases, p) == Some(i as int)) by {
                lemma_first_match_prefix(store@.leases, p, i + 1);
            }
            return Some(i);
        }
        i = i + 1;
    }
    assert(store@.leases.take(n as int) =~= store@.leases);
    None
}

/// The attempt number of the most recent lease of task `task_id`.
pub fn latest_attempt_for_task(store: &TaskStore, task_id: &str) -> (r: Option<i32>)
    ensures
        r == (match latest_lease(store@.leases, task_id@) {
            Some(k) => Some(store@.leases[k].attempt),
            None => None::<i32>,
        }),
{
    let ghost ls = store@.leases;
    let n = store.leases.len();
    let mut best: Option<usize> = None;
    let mut i: usize = 0;
    while i < n
        invariant
            n == store.leases.len(),
            ls == store@.leases,
            i <= n,
            best == (match latest_lease(ls.take(i as int), task_id@) {
                Some(k) => Some(k as usize),
                None => None::<usize>,
            }),
            best matches Some(k) ==> k < i,
        decreases n - i,
    {
        proof {
            lemma_latest_lease(ls.take(i as int), task_id@);
            assert(ls.take(i + 1).drop_last() =~= ls.take(i as int));
            assert(ls[i as int] == store.leases@[i as int]@);
            assert forall|m: int| 0 <= m <= i implies #[trigger] ls.take(i + 1)[m] == ls[m] by {}
        }
        if same_text(store.leases[i].task_id.as_str(), task_id) {
            let newer = match best {
                None => true,
                Some(k) => {
                    assert(ls[k as int] == store.leases@[k as int]@);
                    store.leases[k].leased_at < store.leases[i].leased_at
                },
            };
            if newer {
                best = Some(i);
            }
        }
        i = i + 1;
    }
    assert(ls.take(n as int) =~= ls);
    proof {
        lemma_latest_lease(ls, task_id@);
    }
    match best {
        Some(k) => {
            assert(ls[k as int] == store.leases@[k as int]@);
            Some(store.leases[k].attempt)
        },
        None => None,
    }
}

/// Appends an active lease; refused, with the tables unchanged, when the lease
/// id is taken.
pub fn insert_lease(
    store: &mut TaskStore,
    lease_id: &str,
    task_id: &str,
    worker_id: &str,
    leased_at: i64,
    lease_expires_at: i64,
    attempt: i32,
) -> (r: Result<(), StoreError>)
    ensures
        first_match(old(store)@.leases, lease_has_id(lease_id@)) is Some ==> {
            &&& r == Err::<(), StoreError>(StoreError::DuplicateKey)
            &&& final(store)@ == old(store)@
        },
        first_match(old(store)@.leases, lease_has_id(lease_id@)) is None ==> {
            &&& r == Ok::<(), StoreError>(())
            &&& final(store)@ == (StoreView {
                leases: old(store)@.leases.push(
                    LeaseRowView {
                        lease_id: lease_id@,
                        task_id: task_id@,
                        worker_id: worker_id@,
                        leased_at,
                        lease_expires_at,
                        attempt,
                        active: true,
                    },
                ),
                ..old(store)@
            })
        },
        old(store)@.wf() ==> final(store)@.wf(),
{
    if lease_index(store, lease_id).is_some() {
        return Err(StoreError::DuplicateKey);
    }
    proof {
        lemma_first_match(old(store)@.leases, lease_has_id(lease_id@));
    }
    let row = LeaseRow {
        lease_id: lease_id.to_owned(),
        task_id: task_id.to_owned(),
        worker_id: worker_id.to_owned(),
        leased_at,
        lease_expires_at,
        attempt,
        active: true,
    };
    store.leases.push(row);
    proof {
        assert(store@.leases =~= old(store)@.leases.push(row@));
        assert(store@.tasks =~= old(store)@.tasks);
        assert(store@.results =~= old(store)@.results);
        if old(store)@.wf() {
            let s = store@;
            let o = old(store)@;
            assert forall|i: int, j: int| 0 <= i < j < s.leases.len() implies s.leases[i].lease_id
                != s.leases[j].lease_id by {
                if j == s.leases.len() - 1 {
                    assert(!lease_has_id(lease_id@)(o.leases[i]));
                }
            }
            assert forall|i: int| 0 <= i < s.results.len() implies s.has_lease(
                #[trigger] s.results[i].lease_id,
            ) by {
                assert(o.has_lease(o.results[i].lease_id));
                let k = choose|k: int|
                    0 <= k < o.leases.len() && #[trigger] o.leases[k].lease_id
                        == o.results[i].lease_id;
                assert(s.leases[k] == o.leases[k]);
            }
        }
    }
    Ok(())
}

/// Whether the first lease carrying all three ids is active, and when it expires.
pub fn lease_by_ids(store: &TaskStore, lease_id: &str, task_id: &str, worker_id: &str) -> (r:
    Option<(bool, i64)>)
    ensures
        r == (match first_match(store@.leases, lease_has_ids(lease_id@, task_id@, worker_id@)) {
            Some(k) => Some((store@.leases[k].active, store@.leases[k].lease_expires_at)),
            None => None::<(bool, i64)>,
        }),
{
    let ghost p = lease_has_ids(lease_id@, task_id@, worker_id@);
    let n = store.leases.len();
    let mut i: usize = 0;
    while i < n
        invariant
            n == store.leases.len(),
            i <= n,
            p == lease_has_ids(lease_id@, task_id@, worker_id@),
            first_match(store@.leases.take(i as int), p) is None,
        decreases n - i,
    {
        proof {
            lemma_first_match_take(store@.leases, p, i as int);
            assert(store@.leases[i as int] == store.leases@[i as int]@);
        }
        let hit = same_text(store.leases[i].lease_id.as_str(), lease_id) && same_text(
            store.leases[i].task_id.as_str(),
            task_id,
        ) && same_text(store.leases[i].worker_id.as_str(), worker_id);
        assert(hit == p(store@.leases[i as int]));
        if hit {
            assert(first_match(store@.leases, p) == Some(i as int)) by {
                lemma_first_match_prefix(store@.leases, p, i + 1);
            }
            return Some((store.leases[i].active, store.leases[i].lease_expires_at));
        }
        i = i + 1;
    }
    assert(store@.leases.take(n as int) =~= store@.leases);
    None
}

/// Makes lease `lease_id` inactive.
pub fn deactivate_lease(store: &mut TaskStore, lease_id: &str)
    ensures
        final(store)@ == (StoreView {
            leases: leases_deactivated(old(store)@.leases, lease_id@),
            ..old(store)@
        }),
        old(store)@.wf() ==> final(store)@.wf(),
{
    let ghost old_leases = store.leases@;
    let n = store.leases.len();
    let mut i: usize = 0;
    while i < n
        invariant
            n == store.leases.len(),
            n == old_leases.len(),
            i <= n,
            store.tasks == old(store).tasks,
            store.results == old(store).results,
            forall|k: int|
                0 <= k < i ==> #[trigger] store.leases@[k]@ == (if old_leases[k]@.lease_id
                    == lease_id@ {
                    LeaseRowView { active: false, ..old_leases[k]@ }
                } else {
                    old_leases[k]@
                }),
            forall|k: int| i <= k < n ==> #[trigger] store.leases@[k] == old_leases[k],
        decreases n - i,
    {
        if same_text(store.leases[i].lease_id.as_str(), lease_id) {
            store.leases[i].active = false;
        }
        i = i + 1;
    }
    proof {
        assert(store@.leases =~= leases_deactivated(old(store)@.leases, lease_id@));
        assert(store@.tasks =~= old(store)@.tasks);
        assert(store@.results =~= old(store)@.results);
        if old(store)@.wf() {
            lemma_wf_same_keys(old(store)@, store@);
        }
    }
}

/// Counts the leases expired at `now`.
fn count_expired(store: &TaskStore, now: i64) -> (r: usize)
    ensures
        r == store@.leases.filter(lease_expired(now)).len(),
{
    let ghost ls = store@.leases;
    let ghost p = lease_expired(now);
    let n = store.leases.len();
    let mut count: usize = 0;
    let mut i: usize = 0;
    while i < n
        invariant
            n == store.leases.len(),
            ls == store@.leases,
            p == lease_expired(now),
            i <= n,
            count == ls.take(i as int).filter(p).len(),
            count <= i,
        decreases n - i,
    {
        proof {
            reveal(Seq::filter);
            assert(ls.take(i + 1).drop_last() =~= ls.take(i as int));
            assert(ls[i as int] == store.leases@[i as int]@);
        }
        if store.leases[i].active && store.leases[i].lease_expires_at < now {
            count = count + 1;
        }
        i = i + 1;
    }
    assert(ls.take(n as int) =~= ls);
    count
}

/// Whether task `task_id` has a lease expired at `now`.
fn task_has_expired_lease(store: &TaskStore, now: i64, task_id: &str) -> (r: bool)
    ensures
        r == has_expired_lease(store@.leases, now, task_id@),
{
    let n = store.leases.len();
    let mut i: usize = 0;
    while i < n
        invariant
            n == store.leases.len(),
            i <= n,
            forall|k: int|
                0 <= k < i ==> !(lease_expired(now)(#[trigger] store@.leases[k])
                    && store@.leases[k].task_id == task_id@),
        decreases n - i,
    {
        assert(store@.leases[i as int] == store.leases@[i as int]@);
        if store.leases[i].active && store.leases[i].lease_expires_at < now && same_text(
            store.leases[i].task_id.as_str(),
            task_id,
        ) {
            return true;
        }
        i = i + 1;
    }
    false
}

/// Makes every lease expired at `now` inactive and marks the running tasks
/// that held one as failed at `now`; returns the number of such leases.
pub fn deactivate_expired_leases(store: &mut TaskStore, now: i64) -> (r: usize)
    ensures
        r == old(store)@.leases.filter(lease_expired(now)).len(),
        final(store)@ == (StoreView {
            tasks: tasks_failed_on_expiry(old(store)@.tasks, old(store)@.leases, now),
            leases: leases_expired_off(old(store)@.leases, now),
            ..old(store)@
        }),
        old(store)@.wf() ==> final(store)@.wf(),
{
    let count = count_expired(store, now);
    if count == 0 {
        proof {
            let ls = old(store)@.leases;
            let p = lease_expired(now);
            assert forall|k: int| 0 <= k < ls.len() implies !p(#[trigger] ls[k]) by {
                if p(ls[k]) {
                    ls.lemma_filter_contains(p, k);
                }
            }
            assert(leases_expired_off(ls, now) =~= ls);
            assert(tasks_failed_on_expiry(old(store)@.tasks, ls, now) =~= old(store)@.tasks);
        }
        return 0;
    }
    let ghost old_tasks = store.tasks@;
    let n = store.tasks.len();
    let mut i: usize = 0;
    while i < n
        invariant
            n == store.tasks.len(),
            n == old_tasks.len(),
            i <= n,
            store.leases == old(store).leases,
            store.results == old(store).results,
            forall|k: int|
                0 <= k < i ==> #[trigger] store.tasks@[k]@ == (if old_tasks[k]@.status
                    == "running"@ && has_expired_lease(old(store)@.leases, now, old_tasks[k]@.task_id) {
                    TaskRowView { status: "failed"@, updated_at: now, ..old_tasks[k]@ }
                } else {
                    old_tasks[k]@
                }),
            forall|k: int| i <= k < n ==> #[trigger] store.tasks@[k] == old_tasks[k],
        decreases n - i,
    {
        assert(store@.leases == old(store)@.leases);
        if same_text(store.tasks[i].status.as_str(), "running") {
            let expired = task_has_expired_lease(store, now, store.tasks[i].task_id.as_str());
            if expired {
                store.tasks[i].status = "failed".to_owned();
                store.tasks[i].updated_at = now;
            }
        }
        i = i + 1;
    }
    let ghost mid_tasks = store.tasks@;
    let ghost old_leases = store.leases@;
    let m = store.leases.len();
    let mut j: usize = 0;
    while j < m
        invariant
            m == store.leases.len(),
            m == old_leases.len(),
            old_leases == old(store).leases@,
            j <= m,
            store.tasks@ == mid_tasks,
            store.results == old(store).results,
            forall|k: int|
                0 <= k < j ==> #[trigger] store.leases@[k]@ == (if lease_expired(now)(
                    old_leases[k]@,
                ) {
                    LeaseRowView { active: false, ..old_leases[k]@ }
                } else {
                    old_leases[k]@
                }),
            forall|k: int| j <= k < m ==> #[trigger] store.leases@[k] == old_leases[k],
        decreases m - j,
    {
        if store.leases[j].active && store.leases[j].lease_expires_at < now {
            store.leases[j].active = false;
        }
        j = j + 1;
    }
    proof {
        assert(store@.tasks =~= tasks_failed_on_expiry(old(store)@.tasks, old(store)@.leases, now));
        assert(store@.leases =~= leases_expired_off(old(store)@.leases, now));
        assert(store@.results =~= old(store)@.results);
        if old(store)@.wf() {
            lemma_wf_same_keys(old(store)@, store@);
        }
    }
    count
}

/// A result to be stored.
pub struct NewTaskResult {
    pub lease_id: String,
    pub task_id: String,
    pub worker_id: String,
    pub outcome: String,
    pub best_cost_bits: Option<u32>,
    pub best_param_json: Option<String>,
    pub iters: i32,
    pub best_iters: i32,
    pub termination: String,
    pub error_message: Option<String>,
    pub finished_at: i64,
}

impl View for NewTaskResult {
    type V = TaskResultRowView;

    open spec fn view(&self) -> TaskResultRowView {
        TaskResultRowView {
            lease_id: self.lease_id@,
            task_id: self.task_id@,
            worker_id: self.worker_id@,
            outcome: self.outcome@,
            best_cost_bits: self.best_cost_bits,
            best_param_json: opt_text(self.best_param_json),
            iters: self.iters,
            best_iters: self.best_iters,
            termination: self.termination@,
            error_message: opt_text(self.error_message),
            finished_at: self.finished_at,
        }
    }
}

/// Results with lease id `id`.
pub open spec fn result_has_lease_id(id: Seq<char>) -> spec_fn(TaskResultRowView) -> bool {
    |r: TaskResultRowView| r.lease_id == id
}

/// Results of task `id`.
pub open spec fn result_has_task_id(id: Seq<char>) -> spec_fn(TaskResultRowView) -> bool {
    |r: TaskResultRowView| r.task_id == id
}

/// Appends a result; refused, with the tables unchanged, when a result for
/// the same lease is stored.
pub fn insert_task_result(store: &mut TaskStore, input: NewTaskResult) -> (r: Result<(), StoreError>)
    ensures
        first_match(old(store)@.results, result_has_lease_id(input@.lease_id)) is Some ==> {
            &&& r == Err::<(), StoreError>(StoreError::DuplicateKey)
            &&& final(store)@ == old(store)@
        },
        first_match(old(store)@.results, result_has_lease_id(input@.lease_id)) is None ==> {
            &&& r == Ok::<(), StoreError>(())
            &&& final(store)@ == (StoreView {
                results: old(store)@.results.push(input@),
                ..old(store)@
            })
        },
        old(store)@.wf() && old(store)@.has_lease(input@.lease_id) ==> final(store)@.wf(),
{
    let ghost p = result_has_lease_id(input@.lease_id);
    let n = store.results.len();
    let mut i: usize = 0;
    while i < n
        invariant
            n == store.results.len(),
            i <= n,
            p == result_has_lease_id(input@.lease_id),
            first_match(store@.results.take(i as int), p) is None,
        decreases n - i,
    {
        proof {
            lemma_first_match_take(store@.results, p, i as int);
            assert(store@.results[i as int] == store.results@[i as int]@);
        }
        let hit = same_text(store.results[i].lease_id.as_str(), input.lease_id.as_str());
        assert(hit == p(store@.results[i as int]));
        if hit {
            assert(first_match(store@.results, p) == Some(i as int)) by {
                lemma_first_match_prefix(store@.results, p, i + 1);
            }
            return Err(StoreError::DuplicateKey);
        }
        i = i + 1;
    }
    assert(store@.results.take(n as int) =~= store@.results);
    proof {
        lemma_first_match(old(store)@.results, p);
    }
    let ghost v = input@;
    let row = TaskResultRow {
        lease_id: input.lease_id,
        task_id: input.task_id,
        worker_id: input.worker_id,
        outcome: input.outcome,
        best_cost_bits: input.best_cost_bits,
        best_param_json: input.best_param_json,
        iters: input.iters,
        best_iters: input.best_iters,
        termination: input.termination,
        error_message: input.error_message,
        finished_at: input.finished_at,
    };
    assert(row@ == v);
    store.results.push(row);
    proof {
        assert(store@.results =~= old(store)@.results.push(v));
        assert(store@.tasks =~= old(store)@.tasks);
        assert(store@.leases =~= old(store)@.leases);
        if old(store)@.wf() && old(store)@.has_lease(v.lease_id) {
            let s = store@;
            let o = old(store)@;
            assert forall|i: int, j: int| 0 <= i < j < s.results.len() implies s.results[i].lease_id
                != s.results[j].lease_id by {
                if j == s.results.len() - 1 {
                    assert(!p(o.results[i]));
                }
            }
            assert forall|i: int| 0 <= i < s.results.len() implies s.has_lease(
                #[trigger] s.results[i].lease_id,
            ) by {
                if i < o.results.len() {
                    assert(o.has_lease(o.results[i].lease_id));
                }
            }
        }
    }
    Ok(())
}

/// The first stored result of task `task_id`.
pub fn find_task_result_row(store: &TaskStore, task_id: &str) -> (r: Option<TaskResultRow>)
    ensures
        match first_match(store@.results, result_has_task_id(task_id@)) {
            Some(i) => r matches Some(row) && row@ == store@.results[i],
            None => r is None,
        },
{
    let ghost p = result_has_task_id(task_id@);
    let n = store.results.len();
    let mut i: usize = 0;
    while i < n
        invariant
            n == store.results.len(),
            i <= n,
            p == result_has_task_id(task_id@),
            first_match(store@.results.take(i as int), p) is None,
        decreases n - i,
    {
        proof {
            lemma_first_match_take(store@.results, p, i as int);
            assert(store@.results[i as int] == store.results@[i as int]@);
        }
        let hit = same_text(store.results[i].task_id.as_str(), task_id);
        assert(hit == p(store@.results[i as int]));
        if hit {
            assert(first_match(store@.results, p) == Some(i as int)) by {
                lemma_first_match_prefix(store@.results, p, i + 1);
            }
            return Some(store.results[i].duplicate());
        }
        i = i + 1;
    }
    assert(store@.results.take(n as int) =~= store@.results);
    None
}

fn task_ids_unique(store: &TaskStore) -> (r: bool)
    ensures
        r == (forall|i: int, j: int|
            0 <= i < j < store@.tasks.len() ==> store@.tasks[i].task_id != store@.tasks[j].task_id),
{
    let n = store.tasks.len();
    let mut i: usize = 0;
    while i < n
        invariant
            n == store.tasks.len(),
            i <= n,
            forall|a: int, b: int|
                0 <= a < i && a < b < n ==> store@.tasks[a].task_id != store@.tasks[b].task_id,
        decreases n - i,
    {
        let mut j: usize = i + 1;
        while j < n
            invariant
                n == store.tasks.len(),
                i < n,
                i < j <= n,
                forall|a: int, b: int|
                    0 <= a < i && a < b < n ==> store@.tasks[a].task_id != store@.tasks[b].task_id,
                forall|b: int| i < b < j ==> store@.tasks[i as int].task_id != store@.tasks[b].task_id,
            decreases n - j,
        {
            assert(store@.tasks[i as int] == store.tasks@[i as int]@);
            assert(store@.tasks[j as int] == store.tasks@[j as int]@);
            if same_text(store.tasks[i].task_id.as_str(), store.tasks[j].task_id.as_str()) {
                return false;
            }
            j = j + 1;
        }
        i = i + 1;
    }
    true
}

fn lease_ids_unique(store: &TaskStore) -> (r: bool)
    ensures
        r == (forall|i: int, j: int|
            0 <= i < j < store@.leases.len() ==> store@.leases[i].lease_id != store@.leases[j].lease_id),
{
    let n = store.leases.len();
    let mut i: usize = 0;
    while i < n
        invariant
            n == store.leases.len(),
            i <= n,
            forall|a: int, b: int|
                0 <= a < i && a < b < n ==> store@.leases[a].lease_id != store@.leases[b].lease_id,
        decreases n - i,
    {
        let mut j: usize = i + 1;
        while j < n
            invariant
                n == store.leases.len(),
                i < n,
                i < j <= n,
                forall|a: int, b: int|
                    0 <= a < i && a < b < n ==> store@.leases[a].lease_id != store@.leases[b].lease_id,
                forall|b: int| i < b < j ==> store@.leases[i as int].lease_id != store@.leases[b].lease_id,
            decreases n - j,
        {
            assert(store@.leases[i as int] == store.leases@[i as int]@);
            assert(store@.leases[j as int] == store.leases@[j as int]@);
            if same_text(store.leases[i].lease_id.as_str(), store.leases[j].lease_id.as_str()) {
                return false;
            }
            j = j + 1;
        }
        i = i + 1;
    }
    true
}

fn result_ids_unique(store: &TaskStore) -> (r: bool)
    ensures
        r == (forall|i: int, j: int|
            0 <= i < j < store@.results.len() ==> store@.results[i].lease_id != store@.results[j].lease_id),
{
    let n = store.results.len();
    let mut i: usize = 0;
    while i < n
        invariant
            n == store.results.len(),
            i <= n,
            forall|a: int, b: int|
                0 <= a < i && a < b < n ==> store@.results[a].lease_id != store@.results[b].lease_id,
        decreases n - i,
    {
        let mut j: usize = i + 1;
        while j < n
            invariant
                n == store.results.len(),
                i < n,
                i < j <= n,
                forall|a: int, b: int|
                    0 <= a < i && a < b < n ==> store@.results[a].lease_id != store@.results[b].lease_id,
                forall|b: int| i < b < j ==> store@.results[i as int].lease_id != store@.results[b].lease_id,
            decreases n - j,
        {
            assert(store@.results[i as int] == store.results@[i as int]@);
            assert(store@.results[j as int] == store.results@[j as int]@);
            if same_text(store.results[i].lease_id.as_str(), store.results[j].lease_id.as_str()) {
                return false;
            }
            j = j + 1;
        }
        i = i + 1;
    }
    true
}

fn results_have_leases(store: &TaskStore) -> (r: bool)
    ensures
        r == (forall|i: int|
            0 <= i < store@.results.len() ==> store@.has_lease(#[trigger] store@.results[i].lease_id)),
{
    let n = store.results.len();
    let mut i: usize = 0;
    while i < n
        invariant
            n == store.results.len(),
            i <= n,
            forall|a: int| 0 <= a < i ==> store@.has_lease(#[trigger] store@.results[a].lease_id),
        decreases n - i,
    {
        assert(store@.results[i as int] == store.results@[i as int]@);
        let found = lease_index(store, store.results[i].lease_id.as_str());
        proof {
            let id = store@.results[i as int].lease_id;
            lemma_first_match(store@.leases, lease_has_id(id));
            if found is None {
                if store@.has_lease(id) {
                    let k = choose|k: int| 0 <= k < store@.leases.len() && #[trigger] store@.leases[k].lease_id == id;
                    assert(lease_has_id(id)(store@.leases[k]));
                }
            }
        }
        if found.is_none() {
            return false;
        }
        i = i + 1;
    }
    true
}

impl TaskStore {
    /// Whether the tables are well formed (`wf`): unique keys, and every
    /// result belonging to a stored lease.
    pub fn is_well_formed(&self) -> (r: bool)
        ensures
            r == self@.wf(),
    {
        task_ids_unique(self) && lease_ids_unique(self) && result_ids_unique(self)
            && results_have_leases(self)
    }
}

/// Once a prefix has a first match, the whole sequence has the same one.
pub proof fn lemma_first_match_prefix<A>(s: Seq<A>, p: spec_fn(A) -> bool, n: int)
    requires
        0 <= n <= s.len(),
        first_match(s.take(n), p) is Some,
    ensures
        first_match(s, p) == first_match(s.take(n), p),
    decreases s.len() - n,
{
    if n < s.len() {
        lemma_first_match_take(s, p, n);
        lemma_first_match_prefix(s, p, n + 1);
    } else {
        assert(s.take(n) =~= s);
    }
}

} // verus!
