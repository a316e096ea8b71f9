use nvw::proto::TaskStatus;
use nvw::store::{StoreError, TaskRow, TaskStore};
use nvw::task_repo::{create_task, create_task_at, delete_task, get_task, list_tasks, update_task, update_task_at};

const ID: u128 = 0x550e_8400_e29b_41d4_a716_4466_5544_0000;

#[test]
fn created_task_is_stored_under_its_text_and_found() {
    let mut s = TaskStore::new();
    let d = create_task_at(&mut s, ID, 7, "{\"x\":1}".to_string()).unwrap();
    assert_eq!(d.id, ID);
    assert_eq!(d.status, TaskStatus::Pending);
    assert_eq!(d.created_at, 7);
    assert_eq!(d.updated_at, 7);
    assert_eq!(s.task_rows()[0].task_id, "550e8400-e29b-41d4-a716-446655440000");
    assert_eq!(s.task_rows()[0].status, "pending");
    let g = get_task(&s, ID).unwrap().unwrap();
    assert_eq!(g.id, ID);
    assert_eq!(g.payload_json, "{\"x\":1}");
    assert!(get_task(&s, ID + 1).unwrap().is_none());
}

#[test]
fn creating_a_taken_id_is_refused() {
    let mut s = TaskStore::new();
    create_task_at(&mut s, ID, 1, "a".to_string()).unwrap();
    let r = create_task_at(&mut s, ID, 2, "b".to_string());
    assert!(matches!(r, Err(StoreError::DuplicateKey)));
    assert_eq!(s.task_rows().len(), 1);
    assert_eq!(s.task_rows()[0].payload_json, "a");
}

#[test]
fn created_task_with_fresh_id_is_pending() {
    let mut s = TaskStore::new();
    let d = create_task(&mut s, "p".to_string()).unwrap();
    assert_eq!(d.status, TaskStatus::Pending);
    assert_eq!(d.created_at, d.updated_at);
    assert_eq!(d.id >> 76 & 0xf, 4);
    assert_eq!(get_task(&s, d.id).unwrap().unwrap().payload_json, "p");
}

#[test]
fn update_writes_status_then_payload() {
    let mut s = TaskStore::new();
    create_task_at(&mut s, ID, 1, "a".to_string()).unwrap();
    let d = update_task_at(&mut s, ID, Some(TaskStatus::Failed), Some("b".to_string()), 9).unwrap().unwrap();
    assert_eq!(d.status, TaskStatus::Failed);
    assert_eq!(d.payload_json, "b");
    assert_eq!(d.updated_at, 9);
    assert_eq!(d.created_at, 1);
    assert_eq!(s.task_rows()[0].status, "failed");
    let unchanged = update_task_at(&mut s, ID, None, None, 99).unwrap().unwrap();
    assert_eq!(unchanged.updated_at, 9);
    assert!(update_task_at(&mut s, ID + 1, Some(TaskStatus::Running), None, 5).unwrap().is_none());
    let now = update_task(&mut s, ID, Some(TaskStatus::Succeeded), None).unwrap().unwrap();
    assert_eq!(now.status, TaskStatus::Succeeded);
}

#[test]
fn delete_removes_the_task() {
    let mut s = TaskStore::new();
    create_task_at(&mut s, ID, 1, "a".to_string()).unwrap();
    create_task_at(&mut s, ID + 1, 1, "b".to_string()).unwrap();
    assert!(delete_task(&mut s, ID));
    assert!(!delete_task(&mut s, ID));
    assert!(get_task(&s, ID).unwrap().is_none());
    assert_eq!(s.task_rows().len(), 1);
    assert!(s.is_well_formed());
}

#[test]
fn listing_reads_every_row_or_reports_a_bad_id() {
    let mut s = TaskStore::new();
    create_task_at(&mut s, ID, 1, "a".to_string()).unwrap();
    create_task_at(&mut s, ID + 1, 2, "b".to_string()).unwrap();
    let all = list_tasks(&s).unwrap();
    assert_eq!(all.len(), 2);
    assert_eq!(all[0].id, ID);
    assert_eq!(all[1].id, ID + 1);
    let bad = TaskStore::from_rows(
        vec![TaskRow {
            task_id: "zzz".to_string(),
            created_at: 0,
            updated_at: 0,
            status: "weird".to_string(),
            payload_json: String::new(),
        }],
        vec![],
        vec![],
    );
    assert!(matches!(list_tasks(&bad), Err(StoreError::InvalidUuid)));
}

#[test]
fn unknown_status_text_reads_as_pending() {
    let row = TaskRow {
        task_id: "{550E8400-E29B-41D4-A716-446655440000}".to_string(),
        created_at: 3,
        updated_at: 4,
        status: "weird".to_string(),
        payload_json: "{}".to_string(),
    };
    let d = row.into_dto().unwrap();
    assert_eq!(d.status, TaskStatus::Pending);
    assert_eq!(d.id, ID);
}

#[test]
fn duplicate_ids_are_not_well_formed() {
    let row = |id: &str| TaskRow {
        task_id: id.to_string(),
        created_at: 0,
        updated_at: 0,
        status: "pending".to_string(),
        payload_json: String::new(),
    };
    let s = TaskStore::from_rows(vec![row("a"), row("b"), row("a")], vec![], vec![]);
    assert!(!s.is_well_formed());
    let t = TaskStore::from_rows(vec![row("a"), row("b")], vec![], vec![]);
    assert!(t.is_well_formed());
}

#[test]
fn task_ids_are_written_as_hyphenated_lowercase_hex() {
    let mut s = TaskStore::new();
    create_task_at(&mut s, 0, 1, "a".to_string()).unwrap();
    create_task_at(&mut s, u128::MAX, 1, "b".to_string()).unwrap();
    create_task_at(&mut s, 0x0123_4567_89ab_cdef_0123_4567_89ab_cdef, 1, "c".to_string()).unwrap();
    assert_eq!(s.task_rows()[0].task_id, "00000000-0000-0000-0000-000000000000");
    assert_eq!(s.task_rows()[1].task_id, "ffffffff-ffff-ffff-ffff-ffffffffffff");
    assert_eq!(s.task_rows()[2].task_id, "01234567-89ab-cdef-0123-456789abcdef");
    assert_eq!(get_task(&s, u128::MAX).unwrap().unwrap().payload_json, "b");
}
