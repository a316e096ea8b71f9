//! Tasks as the server hands them out: creation, lookup, listing, update and
//! deletion over the task table.

use vstd::prelude::*;
use crate::ids::{current_time_micros, format_uuid, in_calendar, is_v4_uuid, parse_uuid, random_uuid, uuid_parse, uuid_text};
use crate::proto::{status_of_text, status_text, task_status_from_text, task_status_text, TaskStatus};
use crate::store::{
    delete_task_rows, find_task_row, first_match, insert_task_row,
    mark_task_status, set_task_payload, opt_text, task_has_id, task_lacks_id, tasks_with_payload,
    tasks_with_status, StoreError, StoreView, TaskRow, TaskRowView, TaskStore,
};

verus! {

/// A task as handed out: its id, status, payload (JSON text) and times.
pub struct TaskDto {
    pub id: u128,
    pub status: TaskStatus,
    pub payload_json: String,
    pub created_at: i64,
    pub updated_at: i64,
}

/// `d` is the task that row `r` describes.
pub open spec fn dto_of_row(d: TaskDto, r: TaskRowView) -> bool {
    &&& uuid_parse(r.task_id) == Some(d.id)
    &&& d.status == status_of_text(r.status)
    &&& d.payload_json@ == r.payload_json
    &&& d.created_at == r.created_at
    &&& d.updated_at == r.updated_at
}

/// What converting row `r` gives: its task, or `InvalidUuid` when its id is
/// not a UUID.
pub open spec fn row_conversion(r: TaskRowView, res: Result<TaskDto, StoreError>) -> bool {
    match uuid_parse(r.task_id) {
        Some(_) => res matches Ok(d) && dto_of_row(d, r),
        None => res == Err::<TaskDto, StoreError>(StoreError::InvalidUuid),
    }
}

/// What looking up task `id` in `tasks` gives.
pub open spec fn task_lookup(
    tasks: Seq<TaskRowView>,
    id: u128,
    res: Result<Option<TaskDto>, StoreError>,
) -> bool {
    match first_match(tasks, task_has_id(uuid_text(id))) {
        None => res == Ok::<Option<TaskDto>, StoreError>(None),
        Some(i) => match uuid_parse(tasks[i].task_id) {
            Some(_) => res matches Ok(Some(d)) && dto_of_row(d, tasks[i]),
            None => res == Err::<Option<TaskDto>, StoreError>(StoreError::InvalidUuid),
        },
    }
}

/// Every task row's id is a UUID.
pub open spec fn all_ids_parse(tasks: Seq<TaskRowView>) -> bool {
    forall|i: int| 0 <= i < tasks.len() ==> #[trigger] uuid_parse(tasks[i].task_id) is Some
}

/// The new row of a created task.
pub open spec fn created_row(id: u128, now: i64, payload: Seq<char>) -> TaskRowView {
    TaskRowView {
        task_id: uuid_text(id),
        created_at: now,
        updated_at: now,
        status: "pending"@,
        payload_json: payload,
    }
}

/// Creating task `id` at `now` with payload `payload` turns tables `s` into
/// `s2` and answers `r`: `DuplicateKey` (tables stay) when the id's text is
/// taken; otherwise a pending row is appended and the new task handed back
/// (the id's text reads back as the id).
pub open spec fn create_outcome(
    s: StoreView,
    id: u128,
    now: i64,
    payload: Seq<char>,
    r: Result<TaskDto, StoreError>,
    s2: StoreView,
) -> bool {
    if first_match(s.tasks, task_has_id(uuid_text(id))) is Some {
        r == Err::<TaskDto, StoreError>(StoreError::DuplicateKey) && s2 == s
    } else {
        &&& s2 == (StoreView { tasks: s.tasks.push(created_row(id, now, payload)), ..s })
        &&& uuid_parse(uuid_text(id)) == Some(id)
        &&& r matches Ok(d) && d.id == id && d.status == TaskStatus::Pending && d.payload_json@
            == payload && d.created_at == now && d.updated_at == now
    }
}

/// The task table after an update of task `id` that writes the given status
/// and then the given payload, each with update time `now`.
pub open spec fn tasks_updated(
    tasks: Seq<TaskRowView>,
    id: Seq<char>,
    status: Option<TaskStatus>,
    payload: Option<Seq<char>>,
    now: i64,
) -> Seq<TaskRowView> {
    let after_status = match status {
        Some(s) => tasks_with_status(tasks, id, status_text(s), now),
        None => tasks,
    };
    match payload {
        Some(p) => tasks_with_payload(after_status, id, p, now),
        None => after_status,
    }
}

impl TaskRow {
    /// The task that this row describes.
    pub fn into_dto(self) -> (r: Result<TaskDto, StoreError>)
        ensures
            row_conversion(self@, r),
    {
        let id = match parse_uuid(self.task_id.as_str()) {
            Some(id) => id,
            None => return Err(StoreError::InvalidUuid),
        };
        let status = task_status_from_text(self.status.as_str());
        Ok(
            TaskDto {
                id,
                status,
                payload_json: self.payload_json,
                created_at: self.created_at,
                updated_at: self.updated_at,
            },
        )
    }
}

/// Stores a new pending task with id `task_id`, created and updated at `now`.
pub fn create_task_at(store: &mut TaskStore, task_id: u128, now: i64, payload_json: String) -> (r:
    Result<TaskDto, StoreError>)
    ensures
        create_outcome(old(store)@, task_id, now, payload_json@, r, final(store)@),
        old(store)@.wf() ==> final(store)@.wf(),
{
    let text = format_uuid(task_id);
    let row = TaskRow {
        task_id: text.clone(),
        created_at: now,
        updated_at: now,
        status: task_status_text(TaskStatus::Pending).to_owned(),
        payload_json: payload_json.clone(),
    };
    assert(row@ == created_row(task_id, now, payload_json@));
    insert_task_row(store, row)?;
    let id = match parse_uuid(text.as_str()) {
        Some(id) => id,
        None => return Err(StoreError::InvalidUuid),
    };
    Ok(
        TaskDto {
            id,
            status: TaskStatus::Pending,
            payload_json,
            created_at: now,
            updated_at: now,
        },
    )
}

/// Stores a new pending task under a fresh random id, at the current time.
pub fn create_task(store: &mut TaskStore, payload_json: String) -> (r: Result<TaskDto, StoreError>)
    ensures
        exists|id: u128, now: i64|
            is_v4_uuid(id) && 0 <= now && in_calendar(now as int) && #[trigger] create_outcome(old(store)@, id, now, payload_json@, r, final(store)@),
        old(store)@.wf() ==> final(store)@.wf(),
{
    let now = current_time_micros();
    let id = random_uuid();
    let ghost payload = payload_json@;
    let r = create_task_at(store, id, now, payload_json);
    assert(create_outcome(old(store)@, id, now, payload, r, store@));
    r
}

/// Task `task_id`, if stored.
pub fn get_task(store: &TaskStore, task_id: u128) -> (r: Result<Option<TaskDto>, StoreError>)
    ensures
        task_lookup(store@.tasks, task_id, r),
{
    let text = format_uuid(task_id);
    match find_task_row(store, text.as_str()) {
        Some(row) => match row.into_dto() {
            Ok(d) => Ok(Some(d)),
            Err(e) => Err(e),
        },
        None => Ok(None),
    }
}

/// Every stored task, in insertion order; `InvalidUuid` when some row's id is
/// not a UUID.
pub fn list_tasks(store: &TaskStore) -> (r: Result<Vec<TaskDto>, StoreError>)
    ensures
        all_ids_parse(store@.tasks) ==> (r matches Ok(v) && v@.len() == store@.tasks.len()
            && forall|i: int| 0 <= i < v@.len() ==> dto_of_row(#[trigger] v@[i], store@.tasks[i])),
        !all_ids_parse(store@.tasks) ==> r == Err::<Vec<TaskDto>, StoreError>(
            StoreError::InvalidUuid,
        ),
{
    let rows = store.task_rows();
    let n = rows.len();
    let mut out: Vec<TaskDto> = Vec::new();
    let mut i: usize = 0;
    while i < n
        invariant
            n == rows@.len(),
            rows@.map_values(|x: TaskRow| x@) == store@.tasks,
            i <= n,
            out@.len() == i,
            forall|k: int| 0 <= k < i ==> uuid_parse(#[trigger] store@.tasks[k].task_id) is Some,
            forall|k: int| 0 <= k < i ==> dto_of_row(#[trigger] out@[k], store@.tasks[k]),
        decreases n - i,
    {
        assert(store@.tasks[i as int] == rows@[i as int]@);
        match rows[i].duplicate().into_dto() {
            Ok(d) => out.push(d),
            Err(e) => return Err(e),
        }
        i = i + 1;
    }
    Ok(out)
}

/// Writes the given status and then the given payload to task `task_id`, each
/// with update time `now`, and reads the task back.
pub fn update_task_at(
    store: &mut TaskStore,
    task_id: u128,
    status: Option<TaskStatus>,
    payload_json: Option<String>,
    now: i64,
) -> (r: Result<Option<TaskDto>, StoreError>)
    ensures
        final(store)@ == (StoreView {
            tasks: tasks_updated(old(store)@.tasks, uuid_text(task_id), status, opt_text(payload_json), now),
            ..old(store)@
        }),
        task_lookup(final(store)@.tasks, task_id, r),
        old(store)@.wf() ==> final(store)@.wf(),
{
    let text = format_uuid(task_id);
    if let Some(s) = status {
        mark_task_status(store, text.as_str(), task_status_text(s), now);
    }
    if let Some(p) = payload_json {
        set_task_payload(store, text.as_str(), p.as_str(), now);
    }
    get_task(store, task_id)
}

/// `update_task_at` at the current time.
pub fn update_task(
    store: &mut TaskStore,
    task_id: u128,
    status: Option<TaskStatus>,
    payload_json: Option<String>,
) -> (r: Result<Option<TaskDto>, StoreError>)
    ensures
        exists|now: i64|
            0 <= now && in_calendar(now as int) && final(store)@ == (StoreView {
                tasks: #[trigger] tasks_updated(
                    old(store)@.tasks,
                    uuid_text(task_id),
                    status,
                    opt_text(payload_json),
                    now,
                ),
                ..old(store)@
            }),
        task_lookup(final(store)@.tasks, task_id, r),
        old(store)@.wf() ==> final(store)@.wf(),
{
    let now = current_time_micros();
    update_task_at(store, task_id, status, payload_json, now)
}

/// Removes task `task_id`; tells whether it was stored.
pub fn delete_task(store: &mut TaskStore, task_id: u128) -> (r: bool)
    ensures
        final(store)@ == (StoreView {
            tasks: old(store)@.tasks.filter(task_lacks_id(uuid_text(task_id))),
            ..old(store)@
        }),
        r == (first_match(old(store)@.tasks, task_has_id(uuid_text(task_id))) is Some),
        old(store)@.wf() ==> final(store)@.wf(),
{
    let text = format_uuid(task_id);
    delete_task_rows(store, text.as_str())
}

} // verus!
