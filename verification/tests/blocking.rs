use task_relations::blocking::check_status_transition;
use task_relations::database::Database;
use task_relations::error::ErrorKind;
use task_relations::models::task::Task;
use task_relations::models::task_relationship::TaskRelationship;
use task_relations::models::task_relationship_type::{
    CreateTaskRelationshipType, TaskRelationshipType, UpdateTaskRelationshipType,
};
use task_relations::status::TaskStatus;
use task_relations::timestamp::Timestamp;

const BLOCKING_A: u128 = 1;
const BLOCKING_B: u128 = 2;
const BLOCKING_C: u128 = 3;
const BLOCKING_BLOCKS: u128 = 10;
const BLOCKING_RELATES: u128 = 11;

fn blocking_at(micros: i64) -> Timestamp {
    Timestamp::from_micros(micros).unwrap()
}

fn blocking_task(id: u128, status: TaskStatus) -> Task {
    Task {
        id,
        project_id: 1000,
        title: format!("Task {}", id),
        description: None,
        status,
        parent_task_attempt: None,
        created_at: blocking_at(0),
        updated_at: blocking_at(0),
    }
}

/// Tasks A, B and C in `todo`; the type `blocks`, which gates `done`
/// while the source is `todo` or `inprogress`; the plain type `relates`.
fn blocking_store() -> Database {
    let mut db = Database::new();
    for id in [BLOCKING_A, BLOCKING_B, BLOCKING_C] {
        Task::insert(&mut db, blocking_task(id, TaskStatus::Todo)).unwrap();
    }
    let blocks = CreateTaskRelationshipType {
        name: "blocks".to_string(),
        display_name: "Blocks".to_string(),
        description: None,
        is_directional: true,
        forward_label: Some("blocks".to_string()),
        reverse_label: Some("is blocked by".to_string()),
        enforces_blocking: true,
        blocking_disabled_statuses: Some(vec!["done".to_string()]),
        blocking_source_statuses: Some(vec!["todo".to_string(), "inprogress".to_string()]),
    };
    TaskRelationshipType::create_with_id(&mut db, &blocks, BLOCKING_BLOCKS, true, blocking_at(0))
        .unwrap();
    let relates = CreateTaskRelationshipType {
        name: "relates".to_string(),
        display_name: "Relates to".to_string(),
        description: None,
        is_directional: false,
        forward_label: None,
        reverse_label: None,
        enforces_blocking: false,
        blocking_disabled_statuses: None,
        blocking_source_statuses: None,
    };
    TaskRelationshipType::create_with_id(
        &mut db,
        &relates,
        BLOCKING_RELATES,
        false,
        blocking_at(0),
    )
    .unwrap();
    db
}

fn blocking_edge(db: &mut Database, id: u128, source: u128, target: u128, ty: u128) {
    TaskRelationship::create_with_id(db, source, target, ty, None, None, id, blocking_at(0))
        .unwrap();
}

#[test]
fn blocked_task_cannot_be_done_until_the_blocker_is() {
    let mut db = blocking_store();
    blocking_edge(&mut db, 100, BLOCKING_B, BLOCKING_A, BLOCKING_BLOCKS);

    // B is todo: A may not become done.
    let e = check_status_transition(&db, BLOCKING_A, TaskStatus::Done).unwrap_err();
    assert_eq!(e.kind, ErrorKind::Forbidden);
    assert_eq!(
        e.message,
        "Cannot set status to 'done' because task is blocked by tickets in statuses: todo, inprogress. Blocked statuses: done"
    );
    let e = Task::update_status(&mut db, BLOCKING_A, TaskStatus::Done, blocking_at(5)).unwrap_err();
    assert_eq!(e.kind, ErrorKind::Forbidden);
    assert_eq!(Task::find_by_id(&db, BLOCKING_A).unwrap().status, TaskStatus::Todo);

    // Other statuses are open to A, and B itself is not blocked.
    assert!(check_status_transition(&db, BLOCKING_A, TaskStatus::InProgress).is_ok());
    assert!(check_status_transition(&db, BLOCKING_A, TaskStatus::Cancelled).is_ok());
    assert!(check_status_transition(&db, BLOCKING_B, TaskStatus::Done).is_ok());

    // B in progress still blocks.
    Task::update_status(&mut db, BLOCKING_B, TaskStatus::InProgress, blocking_at(6)).unwrap();
    assert!(check_status_transition(&db, BLOCKING_A, TaskStatus::Done).is_err());

    // B is done: A may become done.
    Task::update_status(&mut db, BLOCKING_B, TaskStatus::Done, blocking_at(7)).unwrap();
    assert!(check_status_transition(&db, BLOCKING_A, TaskStatus::Done).is_ok());
    let moved = Task::update_status(&mut db, BLOCKING_A, TaskStatus::Done, blocking_at(8)).unwrap();
    assert_eq!(moved.status, TaskStatus::Done);
    assert_eq!(moved.updated_at.micros(), 8);
    assert_eq!(moved.created_at.micros(), 0);
    assert_eq!(Task::find_by_id(&db, BLOCKING_A).unwrap().status, TaskStatus::Done);
}

#[test]
fn one_blocker_is_enough() {
    let mut db = blocking_store();
    blocking_edge(&mut db, 100, BLOCKING_B, BLOCKING_A, BLOCKING_BLOCKS);
    blocking_edge(&mut db, 101, BLOCKING_C, BLOCKING_A, BLOCKING_BLOCKS);
    Task::update_status(&mut db, BLOCKING_B, TaskStatus::Done, blocking_at(1)).unwrap();
    assert!(check_status_transition(&db, BLOCKING_A, TaskStatus::Done).is_err());
    let blockers = TaskRelationship::find_blocking_relationships(&db, BLOCKING_A).unwrap();
    assert_eq!(blockers.len(), 1);
    assert_eq!(blockers[0].0.id, 101);
    assert_eq!(blockers[0].1.id, BLOCKING_C);
    assert_eq!(blockers[0].0.relationship_type_name, Some("blocks".to_string()));
    Task::update_status(&mut db, BLOCKING_C, TaskStatus::Cancelled, blocking_at(2)).unwrap();
    assert!(check_status_transition(&db, BLOCKING_A, TaskStatus::Done).is_ok());
    assert!(TaskRelationship::find_blocking_relationships(&db, BLOCKING_A).unwrap().is_empty());
}

#[test]
fn plain_type_never_vetoes() {
    let mut db = blocking_store();
    blocking_edge(&mut db, 100, BLOCKING_B, BLOCKING_A, BLOCKING_RELATES);
    blocking_edge(&mut db, 101, BLOCKING_C, BLOCKING_A, BLOCKING_RELATES);
    for source in [TaskStatus::Todo, TaskStatus::InProgress, TaskStatus::InReview] {
        Task::update_status(&mut db, BLOCKING_B, source, blocking_at(1)).unwrap();
        for target in [
            TaskStatus::Todo,
            TaskStatus::InProgress,
            TaskStatus::InReview,
            TaskStatus::Done,
            TaskStatus::Cancelled,
        ] {
            assert!(check_status_transition(&db, BLOCKING_A, target).is_ok());
        }
    }
    assert!(TaskRelationship::find_blocking_relationships(&db, BLOCKING_A).unwrap().is_empty());
}

#[test]
fn outgoing_blocking_edges_do_not_bind_the_source() {
    let mut db = blocking_store();
    blocking_edge(&mut db, 100, BLOCKING_A, BLOCKING_B, BLOCKING_BLOCKS);
    assert!(check_status_transition(&db, BLOCKING_A, TaskStatus::Done).is_ok());
    assert!(check_status_transition(&db, BLOCKING_B, TaskStatus::Done).is_err());
}

#[test]
fn unknown_task_has_no_status_to_change() {
    let mut db = blocking_store();
    let e = Task::update_status(&mut db, 77, TaskStatus::Done, blocking_at(0)).unwrap_err();
    assert_eq!(e.kind, ErrorKind::NotFound);
    assert!(check_status_transition(&db, 77, TaskStatus::Done).is_ok());
}

#[test]
fn blocking_switched_off_lifts_the_veto() {
    let mut db = blocking_store();
    blocking_edge(&mut db, 100, BLOCKING_B, BLOCKING_A, BLOCKING_BLOCKS);
    assert!(check_status_transition(&db, BLOCKING_A, TaskStatus::Done).is_err());
    let change = UpdateTaskRelationshipType {
        name: None,
        display_name: None,
        description: None,
        is_directional: None,
        forward_label: None,
        reverse_label: None,
        enforces_blocking: Some(false),
        blocking_disabled_statuses: None,
        blocking_source_statuses: None,
    };
    TaskRelationshipType::update(&mut db, BLOCKING_BLOCKS, &change, blocking_at(1)).unwrap();
    assert!(check_status_transition(&db, BLOCKING_A, TaskStatus::Done).is_ok());
}

#[test]
fn unreadable_source_statuses_refuse_the_transition() {
    let mut db = blocking_store();
    let odd = CreateTaskRelationshipType {
        name: "odd".to_string(),
        display_name: "Odd".to_string(),
        description: None,
        is_directional: false,
        forward_label: None,
        reverse_label: None,
        enforces_blocking: true,
        blocking_disabled_statuses: Some(vec!["done".to_string()]),
        blocking_source_statuses: Some(vec!["doing".to_string()]),
    };
    TaskRelationshipType::create_with_id(&mut db, &odd, 12, false, blocking_at(0)).unwrap();
    // An edge of another type comes first and blocks; the edge of the odd type follows.
    blocking_edge(&mut db, 100, BLOCKING_B, BLOCKING_A, BLOCKING_BLOCKS);
    blocking_edge(&mut db, 101, BLOCKING_C, BLOCKING_A, 12);

    let e = TaskRelationship::find_blocking_relationships(&db, BLOCKING_A).unwrap_err();
    assert_eq!(e.kind, ErrorKind::Deserialization);
    assert_eq!(e.message, "Failed to parse blocking_source_statuses: Unknown task status: doing");
    // No status is open to A, gated or not, while that cannot be said.
    for status in [TaskStatus::Done, TaskStatus::InProgress, TaskStatus::Cancelled] {
        let e = check_status_transition(&db, BLOCKING_A, status).unwrap_err();
        assert_eq!(e.kind, ErrorKind::Deserialization);
        let e = Task::update_status(&mut db, BLOCKING_A, status, blocking_at(1)).unwrap_err();
        assert_eq!(e.kind, ErrorKind::Deserialization);
    }
    assert_eq!(Task::find_by_id(&db, BLOCKING_A).unwrap().status, TaskStatus::Todo);
    // Tasks at which no such edge arrives are not touched by it.
    assert!(TaskRelationship::find_blocking_relationships(&db, BLOCKING_C).unwrap().is_empty());
    assert!(check_status_transition(&db, BLOCKING_C, TaskStatus::Done).is_ok());
    // Without the odd edge the answer is the blocking edge again.
    assert_eq!(TaskRelationship::delete(&mut db, 101), 1);
    let blockers = TaskRelationship::find_blocking_relationships(&db, BLOCKING_A).unwrap();
    assert_eq!(blockers.len(), 1);
    assert_eq!(blockers[0].0.id, 100);
}

#[test]
fn unreadable_disabled_statuses_refuse_the_transition() {
    let mut db = blocking_store();
    let odd = CreateTaskRelationshipType {
        name: "odd".to_string(),
        display_name: "Odd".to_string(),
        description: None,
        is_directional: false,
        forward_label: None,
        reverse_label: None,
        enforces_blocking: true,
        blocking_disabled_statuses: Some(vec!["finished".to_string()]),
        blocking_source_statuses: Some(vec!["todo".to_string()]),
    };
    TaskRelationshipType::create_with_id(&mut db, &odd, 12, false, blocking_at(0)).unwrap();
    blocking_edge(&mut db, 100, BLOCKING_B, BLOCKING_A, 12);
    let e = check_status_transition(&db, BLOCKING_A, TaskStatus::InProgress).unwrap_err();
    assert_eq!(e.kind, ErrorKind::Deserialization);
    assert_eq!(
        e.message,
        "Failed to parse blocking_disabled_statuses: Unknown task status: finished"
    );
    // Once the source is in no blocking status the edge blocks nothing.
    Task::update_status(&mut db, BLOCKING_B, TaskStatus::Done, blocking_at(1)).unwrap();
    assert!(check_status_transition(&db, BLOCKING_A, TaskStatus::InProgress).is_ok());
}
