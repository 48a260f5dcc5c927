use task_relations::database::Database;
use task_relations::error::ErrorKind;
use task_relations::models::task_relationship_type::{
    check_transition, parse_status_set, CreateTaskRelationshipType, TaskRelationshipType,
    UpdateTaskRelationshipType,
};
use task_relations::status::TaskStatus;
use task_relations::timestamp::Timestamp;

fn types_at(micros: i64) -> Timestamp {
    Timestamp::from_micros(micros).unwrap()
}

fn types_request(label: &str, directional: bool, blocking: bool) -> CreateTaskRelationshipType {
    CreateTaskRelationshipType {
        name: label.to_string(),
        display_name: format!("Display {}", label),
        description: Some(format!("Description for {}", label)),
        is_directional: directional,
        forward_label: if directional { Some(format!("{} forward", label)) } else { None },
        reverse_label: if directional { Some(format!("{} reverse", label)) } else { None },
        enforces_blocking: blocking,
        blocking_disabled_statuses: if blocking {
            Some(vec!["todo".to_string(), "inreview".to_string()])
        } else {
            None
        },
        blocking_source_statuses: if blocking {
            Some(vec!["todo".to_string(), "inprogress".to_string()])
        } else {
            None
        },
    }
}

fn types_no_change() -> UpdateTaskRelationshipType {
    UpdateTaskRelationshipType {
        name: None,
        display_name: None,
        description: None,
        is_directional: None,
        forward_label: None,
        reverse_label: None,
        enforces_blocking: None,
        blocking_disabled_statuses: None,
        blocking_source_statuses: None,
    }
}

#[test]
fn test_create_relationship_type() {
    let mut db = Database::new();
    let request = CreateTaskRelationshipType {
        name: "test_type".to_string(),
        display_name: "Test Type".to_string(),
        description: Some("Test Description".to_string()),
        is_directional: true,
        forward_label: Some("forward".to_string()),
        reverse_label: Some("reverse".to_string()),
        enforces_blocking: false,
        blocking_disabled_statuses: None,
        blocking_source_statuses: None,
    };
    let created = TaskRelationshipType::create(&mut db, &request, types_at(1_000)).unwrap();
    assert_eq!(created.name, "test_type");
    assert_eq!(created.display_name, "Test Type");
    assert_eq!(created.description, Some("Test Description".to_string()));
    assert!(created.is_directional);
    assert!(!created.is_system);
    assert!(!created.enforces_blocking);
    assert_eq!(created.forward_label, Some("forward".to_string()));
    assert_eq!(created.reverse_label, Some("reverse".to_string()));
    assert_eq!(created.blocking_disabled_statuses, None);
    assert_eq!(created.created_at.micros(), 1_000);
    assert_eq!(created.updated_at.micros(), 1_000);
    let found = TaskRelationshipType::find_by_id(&db, created.id).unwrap();
    assert_eq!(found.name, "test_type");
}

#[test]
fn test_create_directional_relationship_type_without_labels() {
    let mut db = Database::new();
    let mut request = types_request("test_type", true, false);
    request.reverse_label = None;
    let e = TaskRelationshipType::create(&mut db, &request, types_at(0)).unwrap_err();
    assert_eq!(e.kind, ErrorKind::Validation);
    assert_eq!(
        e.message,
        "Directional relationship types must have both forward_label and reverse_label"
    );
    assert!(TaskRelationshipType::find_all(&db).is_empty());

    let mut request = types_request("test_type", true, false);
    request.forward_label = None;
    let e = TaskRelationshipType::create(&mut db, &request, types_at(0)).unwrap_err();
    assert_eq!(e.kind, ErrorKind::Validation);
}

#[test]
fn create_blocking_type_without_status_sets() {
    let mut db = Database::new();
    let mut request = types_request("blocks", false, true);
    request.blocking_source_statuses = None;
    let e = TaskRelationshipType::create(&mut db, &request, types_at(0)).unwrap_err();
    assert_eq!(e.kind, ErrorKind::Validation);
    assert_eq!(
        e.message,
        "Blocking relationship types must have both blocking_disabled_statuses and blocking_source_statuses"
    );
    let mut request = types_request("blocks", false, true);
    request.blocking_disabled_statuses = None;
    let e = TaskRelationshipType::create(&mut db, &request, types_at(0)).unwrap_err();
    assert_eq!(e.kind, ErrorKind::Validation);
    assert!(TaskRelationshipType::find_by_name(&db, "blocks").is_none());
}

#[test]
fn blocking_type_needs_sets_that_are_not_empty() {
    let mut db = Database::new();
    let mut request = types_request("blocks", false, true);
    request.blocking_disabled_statuses = Some(Vec::new());
    let e = TaskRelationshipType::create(&mut db, &request, types_at(0)).unwrap_err();
    assert_eq!(e.kind, ErrorKind::Validation);
    let mut request = types_request("blocks", false, true);
    request.blocking_source_statuses = Some(Vec::new());
    let e = TaskRelationshipType::create(&mut db, &request, types_at(0)).unwrap_err();
    assert_eq!(e.kind, ErrorKind::Validation);
    assert!(TaskRelationshipType::find_all(&db).is_empty());

    // A type that does not enforce blocking may store an empty set, but
    // blocking cannot be switched on over it.
    let mut request = types_request("loose", false, false);
    request.blocking_disabled_statuses = Some(Vec::new());
    request.blocking_source_statuses = Some(vec!["todo".to_string()]);
    let loose = TaskRelationshipType::create(&mut db, &request, types_at(0)).unwrap();
    assert_eq!(loose.blocking_disabled_statuses, Some("[]".to_string()));
    let mut change = types_no_change();
    change.enforces_blocking = Some(true);
    let e = TaskRelationshipType::update(&mut db, loose.id, &change, types_at(1)).unwrap_err();
    assert_eq!(e.kind, ErrorKind::Validation);
    change.blocking_disabled_statuses = Some(Vec::new());
    let e = TaskRelationshipType::update(&mut db, loose.id, &change, types_at(1)).unwrap_err();
    assert_eq!(e.kind, ErrorKind::Validation);
    change.blocking_disabled_statuses = Some(vec!["done".to_string()]);
    let updated = TaskRelationshipType::update(&mut db, loose.id, &change, types_at(1)).unwrap();
    assert!(updated.enforces_blocking);
    assert_eq!(updated.blocking_source_statuses, Some("[\"todo\"]".to_string()));
}

#[test]
fn create_blocking_type_stores_the_sets_as_json() {
    let mut db = Database::new();
    let created =
        TaskRelationshipType::create(&mut db, &types_request("blocks", true, true), types_at(5))
            .unwrap();
    assert_eq!(created.blocking_disabled_statuses, Some("[\"todo\",\"inreview\"]".to_string()));
    assert_eq!(created.blocking_source_statuses, Some("[\"todo\",\"inprogress\"]".to_string()));
    assert_eq!(
        created.blocking_disabled_statuses_vec().unwrap(),
        Some(vec![TaskStatus::Todo, TaskStatus::InReview])
    );
    assert_eq!(
        created.blocking_source_statuses_vec().unwrap(),
        Some(vec![TaskStatus::Todo, TaskStatus::InProgress])
    );
}

#[test]
fn create_rejects_a_name_in_use() {
    let mut db = Database::new();
    TaskRelationshipType::create(&mut db, &types_request("relates", false, false), types_at(0))
        .unwrap();
    let e = TaskRelationshipType::create(
        &mut db,
        &types_request("relates", false, false),
        types_at(0),
    )
    .unwrap_err();
    assert_eq!(e.kind, ErrorKind::Validation);
    assert_eq!(TaskRelationshipType::find_all(&db).len(), 1);
}

#[test]
fn create_with_id_rejects_an_id_in_use() {
    let mut db = Database::new();
    TaskRelationshipType::create_with_id(
        &mut db,
        &types_request("a", false, false),
        7,
        false,
        types_at(0),
    )
    .unwrap();
    let e = TaskRelationshipType::create_with_id(
        &mut db,
        &types_request("b", false, false),
        7,
        false,
        types_at(0),
    )
    .unwrap_err();
    assert_eq!(e.kind, ErrorKind::Validation);
    assert_eq!(TaskRelationshipType::find_by_id(&db, 7).unwrap().name, "a");
}

#[test]
fn test_get_relationship_types() {
    let mut db = Database::new();
    TaskRelationshipType::create(&mut db, &types_request("test_type", true, false), types_at(0))
        .unwrap();
    let all = TaskRelationshipType::find_all(&db);
    assert!(!all.is_empty());
}

#[test]
fn find_all_is_ordered_by_display_name() {
    let mut db = Database::new();
    for (id, name) in [(1u128, "zeta"), (2, "alpha"), (3, "Mid"), (4, "beta"), (5, "alp")] {
        let system = id % 2 == 0;
        TaskRelationshipType::create_with_id(
            &mut db,
            &types_request(name, false, false),
            id,
            system,
            types_at(0),
        )
        .unwrap();
    }
    let names: Vec<String> =
        TaskRelationshipType::find_all(&db).into_iter().map(|t| t.display_name).collect();
    assert_eq!(
        names,
        vec!["Display Mid", "Display alp", "Display alpha", "Display beta", "Display zeta"]
    );
    let system: Vec<u128> =
        TaskRelationshipType::find_system_types(&db).into_iter().map(|t| t.id).collect();
    assert_eq!(system, vec![2, 4]);
}

#[test]
fn find_all_keeps_equal_display_names_in_stored_order() {
    let mut db = Database::new();
    for (id, name) in [(1u128, "b"), (2, "a"), (3, "c")] {
        let mut request = types_request(name, false, false);
        request.display_name = "Same".to_string();
        TaskRelationshipType::create_with_id(&mut db, &request, id, false, types_at(0)).unwrap();
    }
    let ids: Vec<u128> = TaskRelationshipType::find_all(&db).into_iter().map(|t| t.id).collect();
    assert_eq!(ids, vec![1, 2, 3]);
}

#[test]
fn test_get_relationship_type_by_id() {
    let mut db = Database::new();
    let created = TaskRelationshipType::create(
        &mut db,
        &types_request("test_type", true, false),
        types_at(0),
    )
    .unwrap();
    let found = TaskRelationshipType::find_by_id(&db, created.id).unwrap();
    assert_eq!(found.id, created.id);
    assert_eq!(found.name, "test_type");
    assert!(TaskRelationshipType::find_by_id(&db, created.id.wrapping_add(1)).is_none());
    let by_name = TaskRelationshipType::find_by_name(&db, "test_type").unwrap();
    assert_eq!(by_name.id, created.id);
    assert!(TaskRelationshipType::find_by_name(&db, "other").is_none());
}

#[test]
fn test_update_relationship_type() {
    let mut db = Database::new();
    let created = TaskRelationshipType::create(
        &mut db,
        &types_request("test_type", true, false),
        types_at(10),
    )
    .unwrap();
    let mut change = types_no_change();
    change.display_name = Some("Updated Display Name".to_string());
    let updated = TaskRelationshipType::update(&mut db, created.id, &change, types_at(20)).unwrap();
    assert_eq!(updated.display_name, "Updated Display Name");
    assert_eq!(updated.name, "test_type");
    assert_eq!(updated.description, created.description);
    assert_eq!(updated.forward_label, created.forward_label);
    assert_eq!(updated.created_at.micros(), 10);
    assert_eq!(updated.updated_at.micros(), 20);
    let found = TaskRelationshipType::find_by_id(&db, created.id).unwrap();
    assert_eq!(found.display_name, "Updated Display Name");
}

#[test]
fn update_unknown_type_is_not_found() {
    let mut db = Database::new();
    let e = TaskRelationshipType::update(&mut db, 1, &types_no_change(), types_at(0)).unwrap_err();
    assert_eq!(e.kind, ErrorKind::NotFound);
}

#[test]
fn update_validates_the_merged_type() {
    let mut db = Database::new();
    let plain =
        TaskRelationshipType::create(&mut db, &types_request("plain", false, false), types_at(0))
            .unwrap();

    // Blocking switched on, no sets stored and none given.
    let mut change = types_no_change();
    change.enforces_blocking = Some(true);
    let e = TaskRelationshipType::update(&mut db, plain.id, &change, types_at(1)).unwrap_err();
    assert_eq!(e.kind, ErrorKind::Validation);
    assert!(!TaskRelationshipType::find_by_id(&db, plain.id).unwrap().enforces_blocking);

    // One set given, the other neither stored nor given.
    change.blocking_disabled_statuses = Some(vec!["done".to_string()]);
    let e = TaskRelationshipType::update(&mut db, plain.id, &change, types_at(1)).unwrap_err();
    assert_eq!(e.kind, ErrorKind::Validation);

    // Both given.
    change.blocking_source_statuses = Some(vec!["todo".to_string()]);
    let updated = TaskRelationshipType::update(&mut db, plain.id, &change, types_at(2)).unwrap();
    assert!(updated.enforces_blocking);
    assert_eq!(updated.blocking_disabled_statuses, Some("[\"done\"]".to_string()));

    // Direction switched on with one label only.
    let mut change = types_no_change();
    change.is_directional = Some(true);
    change.forward_label = Some("blocks".to_string());
    let e = TaskRelationshipType::update(&mut db, plain.id, &change, types_at(3)).unwrap_err();
    assert_eq!(e.kind, ErrorKind::Validation);
    change.reverse_label = Some("is blocked by".to_string());
    let updated = TaskRelationshipType::update(&mut db, plain.id, &change, types_at(3)).unwrap();
    assert!(updated.is_directional);
    // Stored sets stay when the request leaves them out.
    assert_eq!(updated.blocking_source_statuses, Some("[\"todo\"]".to_string()));
}

#[test]
fn update_rejects_the_name_of_another_type() {
    let mut db = Database::new();
    let a = TaskRelationshipType::create(&mut db, &types_request("a", false, false), types_at(0))
        .unwrap();
    TaskRelationshipType::create(&mut db, &types_request("b", false, false), types_at(0)).unwrap();
    let mut change = types_no_change();
    change.name = Some("b".to_string());
    let e = TaskRelationshipType::update(&mut db, a.id, &change, types_at(1)).unwrap_err();
    assert_eq!(e.kind, ErrorKind::Validation);
    change.name = Some("a".to_string());
    assert!(TaskRelationshipType::update(&mut db, a.id, &change, types_at(1)).is_ok());
    change.name = Some("c".to_string());
    let renamed = TaskRelationshipType::update(&mut db, a.id, &change, types_at(1)).unwrap();
    assert_eq!(renamed.name, "c");
}

#[test]
fn test_delete_relationship_type() {
    let mut db = Database::new();
    let created = TaskRelationshipType::create(
        &mut db,
        &types_request("test_type", true, false),
        types_at(0),
    )
    .unwrap();
    assert_eq!(TaskRelationshipType::delete(&mut db, created.id).unwrap(), 1);
    assert!(TaskRelationshipType::find_by_id(&db, created.id).is_none());
    let e = TaskRelationshipType::delete(&mut db, created.id).unwrap_err();
    assert_eq!(e.kind, ErrorKind::NotFound);
}

#[test]
fn delete_system_type_is_forbidden() {
    let mut db = Database::new();
    TaskRelationshipType::create_with_id(
        &mut db,
        &types_request("blocks", true, true),
        9,
        true,
        types_at(0),
    )
    .unwrap();
    let e = TaskRelationshipType::delete(&mut db, 9).unwrap_err();
    assert_eq!(e.kind, ErrorKind::Forbidden);
    assert_eq!(e.message, "Cannot delete system relationship types");
    assert!(TaskRelationshipType::find_by_id(&db, 9).unwrap().is_system);
}

#[test]
fn stored_status_sets_fail_loudly() {
    assert_eq!(parse_status_set(&None).unwrap(), None);
    assert_eq!(parse_status_set(&Some("[]".to_string())).unwrap(), Some(Vec::new()));
    assert_eq!(
        parse_status_set(&Some(" [ \"done\" , \"cancelled\" ] ".to_string())).unwrap(),
        Some(vec![TaskStatus::Done, TaskStatus::Cancelled])
    );
    for text in ["", "done", "[\"done\"", "{\"a\":1}", "[1,2]", "[\"done\",null]"] {
        let e = parse_status_set(&Some(text.to_string())).unwrap_err();
        assert_eq!(e.kind, ErrorKind::Deserialization);
    }
    let e = parse_status_set(&Some("[\"done\",\"finished\"]".to_string())).unwrap_err();
    assert_eq!(e.kind, ErrorKind::Deserialization);
    assert_eq!(e.message, "Unknown task status: finished");
}

#[test]
fn validate_blocking_status_of_a_blocking_type() {
    let mut db = Database::new();
    let mut request = types_request("blocks", true, true);
    request.blocking_disabled_statuses = Some(vec!["done".to_string()]);
    let blocks = TaskRelationshipType::create(&mut db, &request, types_at(0)).unwrap();

    let e = blocks.validate_blocking_status(&TaskStatus::Done, &[TaskStatus::Todo]).unwrap_err();
    assert_eq!(e.kind, ErrorKind::Forbidden);
    assert_eq!(
        e.message,
        "Cannot set status to 'done' because task is blocked by tickets in statuses: todo, inprogress. Blocked statuses: done"
    );
    assert!(blocks
        .validate_blocking_status(&TaskStatus::Done, &[TaskStatus::Done, TaskStatus::InProgress])
        .is_err());
    // The source is not in a blocking status.
    assert!(blocks.validate_blocking_status(&TaskStatus::Done, &[TaskStatus::Done]).is_ok());
    assert!(blocks
        .validate_blocking_status(&TaskStatus::Done, &[TaskStatus::Cancelled, TaskStatus::InReview])
        .is_ok());
    // No source at all.
    assert!(blocks.validate_blocking_status(&TaskStatus::Done, &[]).is_ok());
    // The new status is not a gated one.
    assert!(blocks.validate_blocking_status(&TaskStatus::InReview, &[TaskStatus::Todo]).is_ok());
}

#[test]
fn validate_blocking_status_of_a_plain_type() {
    let mut db = Database::new();
    let mut plain =
        TaskRelationshipType::create(&mut db, &types_request("relates", false, false), types_at(0))
            .unwrap();
    for new_status in
        [TaskStatus::Todo, TaskStatus::InProgress, TaskStatus::Done, TaskStatus::Cancelled]
    {
        assert!(plain
            .validate_blocking_status(&new_status, &[TaskStatus::Todo, TaskStatus::InProgress])
            .is_ok());
    }
    // Not even unreadable sets matter while blocking is off.
    plain.blocking_disabled_statuses = Some("not json".to_string());
    plain.blocking_source_statuses = Some("[\"todo\"]".to_string());
    assert!(plain.validate_blocking_status(&TaskStatus::Done, &[TaskStatus::Todo]).is_ok());
}

#[test]
fn validate_blocking_status_fails_closed() {
    let mut db = Database::new();
    let mut blocks =
        TaskRelationshipType::create(&mut db, &types_request("blocks", true, true), types_at(0))
            .unwrap();
    blocks.blocking_disabled_statuses = Some("[\"done\"".to_string());
    let e = blocks.validate_blocking_status(&TaskStatus::InProgress, &[]).unwrap_err();
    assert_eq!(e.kind, ErrorKind::Deserialization);
    assert!(e.message.starts_with("Failed to parse blocking_disabled_statuses: "));
    assert!(e.message.len() > "Failed to parse blocking_disabled_statuses: ".len());

    blocks.blocking_disabled_statuses = Some("[\"done\"]".to_string());
    blocks.blocking_source_statuses = Some("[\"doing\"]".to_string());
    let e = blocks.validate_blocking_status(&TaskStatus::InProgress, &[]).unwrap_err();
    assert_eq!(e.kind, ErrorKind::Deserialization);
    assert_eq!(
        e.message,
        "Failed to parse blocking_source_statuses: Unknown task status: doing"
    );

    // Sets that are absent count as empty.
    blocks.blocking_disabled_statuses = None;
    blocks.blocking_source_statuses = None;
    assert!(blocks.validate_blocking_status(&TaskStatus::Done, &[TaskStatus::Todo]).is_ok());
}

#[test]
fn check_transition_on_read_sets() {
    let disabled = vec![TaskStatus::Done, TaskStatus::InReview];
    let sources = vec![TaskStatus::Todo];
    assert!(check_transition(TaskStatus::Done, &disabled, &sources, &[TaskStatus::Done]).is_ok());
    assert!(check_transition(TaskStatus::Todo, &disabled, &sources, &[TaskStatus::Todo]).is_ok());
    let e = check_transition(
        TaskStatus::InReview,
        &disabled,
        &sources,
        &[TaskStatus::Done, TaskStatus::Todo],
    )
    .unwrap_err();
    assert_eq!(e.kind, ErrorKind::Forbidden);
    assert_eq!(
        e.message,
        "Cannot set status to 'inreview' because task is blocked by tickets in statuses: todo. Blocked statuses: done, inreview"
    );
    let e = check_transition(TaskStatus::Done, &disabled, &Vec::new(), &[TaskStatus::Todo]);
    assert!(e.is_ok());
}
