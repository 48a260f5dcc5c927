use task_relations::database::Database;
use task_relations::mcp::task_server::{
    find_type_id, parse_status_filter, status_error, ApiResponseEnvelope, AttemptNotesSummary,
    AttemptRecord, GetTaskTemplateRequest, ListTasksResponse, ManageTaskRelationshipsRequest,
    ManageTaskRelationshipsResponse, RelationshipPayload, RelationshipPlan,
    RelationshipTypeEntry, StartTaskAttemptRequest, TaskServer, TemplateLookup,
};
use task_relations::models::task::{Task, TaskWithAttemptStatus};
use task_relations::models::task_relationship::TaskRelationship;
use task_relations::models::task_relationship_type::{
    CreateTaskRelationshipType, TaskRelationshipType,
};
use task_relations::models::task_template::{CreateTaskTemplate, TaskTemplate};
use task_relations::status::TaskStatus;
use task_relations::timestamp::Timestamp;

fn server_at(micros: i64) -> Timestamp {
    Timestamp::from_micros(micros).unwrap()
}

fn server_task(id: u128, status: TaskStatus) -> Task {
    Task {
        id,
        project_id: 9,
        title: format!("Task {}", id),
        description: None,
        status,
        parent_task_attempt: None,
        created_at: server_at(0),
        updated_at: server_at(0),
    }
}

fn server_request(action: &str) -> ManageTaskRelationshipsRequest {
    ManageTaskRelationshipsRequest {
        task_id: 1,
        action: action.to_string(),
        relationship_id: None,
        target_task_id: None,
        relationship_type: None,
        note: None,
        data: None,
        include_notes: None,
    }
}

fn server_entries() -> Vec<RelationshipTypeEntry> {
    let entry = |name: Option<&str>, id: Option<&str>| RelationshipTypeEntry {
        name: name.map(|s| s.to_string()),
        id: id.map(|s| s.to_string()),
    };
    vec![
        entry(None, Some("00000000-0000-0000-0000-000000000001")),
        entry(Some("blocks"), None),
        entry(Some("blocks"), Some("not an id")),
        entry(Some("blocks"), Some("00000000-0000-0000-0000-00000000000a")),
        entry(Some("blocks"), Some("00000000-0000-0000-0000-00000000000b")),
        entry(Some("relates"), Some("0000000000000000000000000000000C")),
    ]
}

#[test]
fn urls_are_joined_with_one_slash() {
    let server = TaskServer::new("http://localhost:3000///");
    assert_eq!(server.base_url, "http://localhost:3000///");
    assert_eq!(server.url("/api/tasks"), "http://localhost:3000/api/tasks");
    assert_eq!(server.url("//api/tasks/"), "http://localhost:3000/api/tasks/");
    assert_eq!(server.url("api"), "http://localhost:3000/api");
    assert_eq!(server.url(""), "http://localhost:3000/");
    assert_eq!(TaskServer::new("").url("/"), "/");
    assert_eq!(TaskServer::new("host").url("a/b"), "host/a/b");
}

#[test]
fn envelopes_give_their_data_or_an_error() {
    let ok = ApiResponseEnvelope { success: true, data: Some(7), message: None };
    assert_eq!(ok.into_data().unwrap(), 7);
    let failed = ApiResponseEnvelope {
        success: false,
        data: Some(7),
        message: Some("no such task".to_string()),
    };
    let e = failed.into_data().unwrap_err();
    assert_eq!(e.error, "VK API returned error");
    assert_eq!(e.details, Some("no such task".to_string()));
    let silent: ApiResponseEnvelope<i32> =
        ApiResponseEnvelope { success: false, data: None, message: None };
    assert_eq!(silent.into_data().unwrap_err().details, Some("Unknown error".to_string()));
    let empty: ApiResponseEnvelope<i32> =
        ApiResponseEnvelope { success: true, data: None, message: Some("m".to_string()) };
    let e = empty.into_data().unwrap_err();
    assert_eq!(e.error, "VK API response missing data field");
    assert_eq!(e.details, None);
    assert_eq!(status_error("404 Not Found").error, "VK API returned error status: 404 Not Found");
    let e = TaskServer::err("Failed to connect to VK API", Some("refused"));
    assert_eq!(e.error, "Failed to connect to VK API");
    assert_eq!(e.details, Some("refused".to_string()));
    assert_eq!(TaskServer::err("x", None).details, None);
}

#[test]
fn status_filters_are_read_or_refused() {
    assert_eq!(parse_status_filter(&None).unwrap(), None);
    assert_eq!(
        parse_status_filter(&Some("inreview".to_string())).unwrap(),
        Some(TaskStatus::InReview)
    );
    let e = parse_status_filter(&Some("in-review".to_string())).unwrap_err();
    assert_eq!(
        e.error,
        "Invalid status filter. Valid values: 'todo', 'in-progress', 'in-review', 'done', 'cancelled'"
    );
    assert_eq!(e.details, Some("in-review".to_string()));
}

#[test]
fn task_listings_filter_and_limit() {
    let statuses = [
        TaskStatus::Todo,
        TaskStatus::Done,
        TaskStatus::Todo,
        TaskStatus::InProgress,
        TaskStatus::Todo,
    ];
    let all: Vec<TaskWithAttemptStatus> = statuses
        .iter()
        .enumerate()
        .map(|(i, status)| TaskWithAttemptStatus {
            task: server_task(i as u128 + 1, *status),
            has_in_progress_attempt: i == 0,
            has_merged_attempt: false,
            last_attempt_failed: false,
            executor: String::new(),
        })
        .collect();
    let titles = |r: &ListTasksResponse| -> Vec<String> {
        r.tasks.iter().map(|t| t.title.clone()).collect()
    };
    let response = ListTasksResponse::select(&all, 255, None, None, None);
    assert_eq!(response.count, 5);
    assert_eq!(response.project_id, "00000000-0000-0000-0000-0000000000ff");
    assert_eq!(response.applied_filters.limit, 50);
    assert_eq!(response.applied_filters.status, None);
    assert_eq!(response.tasks[0].has_in_progress_attempt, Some(true));

    let response = ListTasksResponse::select(
        &all,
        255,
        Some("todo".to_string()),
        Some(TaskStatus::Todo),
        Some(2),
    );
    assert_eq!(titles(&response), vec!["Task 1", "Task 3"]);
    assert_eq!(response.count, 2);
    assert_eq!(response.applied_filters.limit, 2);
    assert_eq!(response.applied_filters.status, Some("todo".to_string()));

    let response = ListTasksResponse::select(&all, 255, None, Some(TaskStatus::Todo), Some(3));
    assert_eq!(titles(&response), vec!["Task 1", "Task 3", "Task 5"]);
    let response = ListTasksResponse::select(&all, 255, None, Some(TaskStatus::Cancelled), None);
    assert_eq!(response.count, 0);
    let response = ListTasksResponse::select(&all, 255, None, None, Some(-4));
    assert_eq!(response.count, 0);
    assert_eq!(response.applied_filters.limit, 0);
    let response = ListTasksResponse::select(&all, 255, None, None, Some(0));
    assert!(response.tasks.is_empty());
}

#[test]
fn attempts_are_put_in_order() {
    let request = |executor: &str, variant: Option<&str>, branch: &str| StartTaskAttemptRequest {
        task_id: 4,
        executor: executor.to_string(),
        variant: variant.map(|s| s.to_string()),
        base_branch: branch.to_string(),
    };
    let start = request("  open-code ", Some(" fast "), " main\n").normalized().unwrap();
    assert_eq!(start.task_id, 4);
    assert_eq!(start.executor, "OPEN_CODE");
    assert_eq!(start.variant, Some("fast".to_string()));
    assert_eq!(start.base_branch, "main");
    let start = request("Cursor_Agent", Some("   "), "dev").normalized().unwrap();
    assert_eq!(start.executor, "CURSOR_AGENT");
    assert_eq!(start.variant, None);
    assert_eq!(request("codex", None, "dev").normalized().unwrap().variant, None);
    let e = request("codex", None, "  ").normalized().unwrap_err();
    assert_eq!(e.error, "Base branch must not be empty.");
    let e = request(" \t", None, "main").normalized().unwrap_err();
    assert_eq!(e.error, "Executor must not be empty.");
    // The branch is looked at first.
    let e = request("", None, "").normalized().unwrap_err();
    assert_eq!(e.error, "Base branch must not be empty.");
}

#[test]
fn attempt_summaries_need_every_text() {
    let full = || AttemptRecord {
        has_attempt: true,
        id: Some("a1".to_string()),
        created_at: Some("c".to_string()),
        updated_at: Some("u".to_string()),
        executor: Some("CODEX".to_string()),
        branch: Some("b".to_string()),
        target_branch: Some("main".to_string()),
        latest_summary: None,
    };
    let summary = AttemptNotesSummary::from_record(&full()).unwrap();
    assert_eq!(summary.attempt_id, "a1");
    assert_eq!(summary.executor, "CODEX");
    assert_eq!(summary.target_branch, "main");
    assert_eq!(summary.latest_summary, None);
    let mut no_branch = full();
    no_branch.branch = None;
    assert!(AttemptNotesSummary::from_record(&no_branch).is_none());
    let mut no_attempt = full();
    no_attempt.has_attempt = false;
    assert!(AttemptNotesSummary::from_record(&no_attempt).is_none());
    let mut second = full();
    second.id = Some("a2".to_string());
    second.latest_summary = Some("done".to_string());
    let summaries = AttemptNotesSummary::from_records(&vec![no_branch, full(), no_attempt, second]);
    assert_eq!(summaries.len(), 2);
    assert_eq!(summaries[0].attempt_id, "a1");
    assert_eq!(summaries[1].attempt_id, "a2");
    assert_eq!(summaries[1].latest_summary, Some("done".to_string()));
}

#[test]
fn test_mcp_invalid_action() {
    match server_request("invalid_action").plan() {
        RelationshipPlan::Refuse(e) => {
            assert_eq!(
                e.error,
                "Invalid action: invalid_action. Must be one of: add, update, delete, list"
            );
            assert_eq!(e.details, None);
        }
        other => panic!("unexpected plan {:?}", other),
    }
    assert!(matches!(server_request("LIST").plan(), RelationshipPlan::Refuse(_)));
    assert!(matches!(server_request("").plan(), RelationshipPlan::Refuse(_)));
}

#[test]
fn test_mcp_missing_required_params() {
    match server_request("add").plan() {
        RelationshipPlan::Refuse(e) => {
            assert_eq!(e.error, "relationship_type is required for 'add' action")
        }
        other => panic!("unexpected plan {:?}", other),
    }
    match server_request("update").plan() {
        RelationshipPlan::Refuse(e) => {
            assert_eq!(e.error, "relationship_id is required for 'update' action")
        }
        other => panic!("unexpected plan {:?}", other),
    }
    match server_request("delete").plan() {
        RelationshipPlan::Refuse(e) => {
            assert_eq!(e.error, "relationship_id is required for 'delete' action")
        }
        other => panic!("unexpected plan {:?}", other),
    }
    // The target is asked for only after the type has been found.
    let e = RelationshipPayload::for_add(&server_entries(), "blocks", None, None, None).unwrap_err();
    assert_eq!(e.error, "target_task_id is required for 'add' action");
    let e = RelationshipPayload::for_add(&server_entries(), "unknown", None, None, None).unwrap_err();
    assert_eq!(e.error, "Relationship type 'unknown' not found");
}

#[test]
fn plans_carry_the_request() {
    let mut request = server_request("list");
    request.include_notes = Some(false);
    assert!(matches!(
        request.plan(),
        RelationshipPlan::List { task_id: 1, include_notes: false }
    ));
    assert!(matches!(
        server_request("list").plan(),
        RelationshipPlan::List { task_id: 1, include_notes: true }
    ));
    let mut request = server_request("add");
    request.relationship_type = Some("blocks".to_string());
    request.target_task_id = Some(2);
    request.note = Some("because".to_string());
    request.data = Some(serde_json::Value::Bool(true));
    match request.plan() {
        RelationshipPlan::Add { task_id, named_type, target_task_id, note, data, include_notes } => {
            assert_eq!(task_id, 1);
            assert_eq!(named_type, "blocks");
            assert_eq!(target_task_id, Some(2));
            assert_eq!(note, Some("because".to_string()));
            assert_eq!(data, Some(serde_json::Value::Bool(true)));
            assert!(include_notes);
        }
        other => panic!("unexpected plan {:?}", other),
    }
    let mut request = server_request("update");
    request.relationship_id = Some(5);
    request.note = Some("new".to_string());
    match request.plan() {
        RelationshipPlan::Update { relationship_id, relationship_type, note, .. } => {
            assert_eq!(relationship_id, 5);
            assert_eq!(relationship_type, None);
            assert_eq!(note, Some("new".to_string()));
        }
        other => panic!("unexpected plan {:?}", other),
    }
    let mut request = server_request("delete");
    request.relationship_id = Some(5);
    assert!(matches!(
        request.plan(),
        RelationshipPlan::Delete { task_id: 1, relationship_id: 5 }
    ));
}

#[test]
fn type_ids_are_found_by_name() {
    let entries = server_entries();
    // The first entry of that name whose id can be read.
    assert_eq!(find_type_id(&entries, "blocks"), Some(10));
    assert_eq!(find_type_id(&entries, "relates"), Some(12));
    assert_eq!(find_type_id(&entries, "Blocks"), None);
    assert_eq!(find_type_id(&Vec::new(), "blocks"), None);
    let payload = RelationshipPayload::for_add(
        &entries,
        "relates",
        Some(3),
        Some("n".to_string()),
        None,
    )
    .unwrap();
    assert_eq!(payload.relationship_type_id, Some(12));
    assert_eq!(payload.target_task_id, Some(3));
    assert_eq!(payload.note, Some("n".to_string()));
    let payload =
        RelationshipPayload::for_update(&Vec::new(), &None, None, None, None).unwrap();
    assert_eq!(payload.relationship_type_id, None);
    assert_eq!(payload.target_task_id, None);
    let payload = RelationshipPayload::for_update(
        &entries,
        &Some("blocks".to_string()),
        Some(4),
        None,
        Some(serde_json::Value::Null),
    )
    .unwrap();
    assert_eq!(payload.relationship_type_id, Some(10));
    assert_eq!(payload.data, Some(serde_json::Value::Null));
    let e = RelationshipPayload::for_update(&entries, &Some("x".to_string()), None, None, None)
        .unwrap_err();
    assert_eq!(e.error, "Relationship type 'x' not found");
}

#[test]
fn test_mcp_list_relationships() {
    let mut db = Database::new();
    for id in [1u128, 2, 3] {
        Task::insert(&mut db, server_task(id, TaskStatus::Todo)).unwrap();
    }
    let directional = CreateTaskRelationshipType {
        name: "blocks".to_string(),
        display_name: "Blocks".to_string(),
        description: None,
        is_directional: true,
        forward_label: Some("blocks".to_string()),
        reverse_label: Some("is blocked by".to_string()),
        enforces_blocking: false,
        blocking_disabled_statuses: None,
        blocking_source_statuses: None,
    };
    TaskRelationshipType::create_with_id(&mut db, &directional, 10, true, server_at(0)).unwrap();
    let plain = CreateTaskRelationshipType {
        name: "relates".to_string(),
        display_name: "Relates to".to_string(),
        description: None,
        is_directional: false,
        forward_label: None,
        reverse_label: None,
        enforces_blocking: false,
        blocking_disabled_statuses: None,
        blocking_source_statuses: None,
    };
    TaskRelationshipType::create_with_id(&mut db, &plain, 11, false, server_at(0)).unwrap();
    TaskRelationship::create_with_id(&mut db, 1, 2, 10, None, Some("first".to_string()), 100, server_at(1))
        .unwrap();
    TaskRelationship::create_with_id(&mut db, 3, 1, 10, None, None, 101, server_at(2)).unwrap();
    TaskRelationship::create_with_id(&mut db, 1, 3, 11, None, Some("third".to_string()), 102, server_at(3))
        .unwrap();

    let groups = TaskRelationship::find_by_task(&db, 1).unwrap();
    let response = ManageTaskRelationshipsResponse::from_groups(&groups, true);
    let rows: Vec<(String, Option<String>, Option<String>)> = response
        .relationships
        .iter()
        .map(|s| (s.relationship_type.clone(), s.direction.clone(), s.note.clone()))
        .collect();
    assert_eq!(
        rows,
        vec![
            ("relates".to_string(), None, Some("third".to_string())),
            ("blocks".to_string(), Some("forward".to_string()), Some("first".to_string())),
            ("blocks".to_string(), Some("reverse".to_string()), None),
        ]
    );
    let first = &response.relationships[1];
    assert_eq!(first.relationship_id, "00000000-0000-0000-0000-000000000064");
    assert_eq!(first.relationship_type_display, "Blocks");
    assert_eq!(first.source_task_id, "00000000-0000-0000-0000-000000000001");
    assert_eq!(first.source_task_title, "Task 1");
    assert_eq!(first.target_task_id, "00000000-0000-0000-0000-000000000002");
    assert_eq!(first.target_task_title, "Task 2");

    let response = ManageTaskRelationshipsResponse::from_groups(&groups, false);
    assert!(response.relationships.iter().all(|s| s.note.is_none()));
    assert_eq!(response.relationships.len(), 3);
    assert!(ManageTaskRelationshipsResponse::from_groups(&Vec::new(), true).relationships.is_empty());
}

#[test]
fn test_mcp_add_relationship() {
    let mut db = Database::new();
    for id in [1u128, 2] {
        Task::insert(&mut db, server_task(id, TaskStatus::Todo)).unwrap();
    }
    let plain = CreateTaskRelationshipType {
        name: "relates".to_string(),
        display_name: "Relates to".to_string(),
        description: None,
        is_directional: false,
        forward_label: None,
        reverse_label: None,
        enforces_blocking: false,
        blocking_disabled_statuses: None,
        blocking_source_statuses: None,
    };
    TaskRelationshipType::create_with_id(&mut db, &plain, 12, false, server_at(0)).unwrap();
    let stored = TaskRelationship::create_with_id(
        &mut db,
        1,
        2,
        12,
        None,
        Some("Test note".to_string()),
        100,
        server_at(1),
    )
    .unwrap();
    let response = ManageTaskRelationshipsResponse::of_change(
        stored.id,
        "relates".to_string(),
        1,
        Some(2),
        &stored,
        true,
    );
    assert_eq!(response.relationships.len(), 1);
    let summary = &response.relationships[0];
    assert_eq!(summary.relationship_id, "00000000-0000-0000-0000-000000000064");
    assert_eq!(summary.relationship_type, "relates");
    assert_eq!(summary.relationship_type_display, "");
    assert_eq!(summary.source_task_id, "00000000-0000-0000-0000-000000000001");
    assert_eq!(summary.target_task_id, "00000000-0000-0000-0000-000000000002");
    assert_eq!(summary.source_task_title, "");
    assert_eq!(summary.direction, None);
    assert_eq!(summary.note, Some("Test note".to_string()));
}

#[test]
fn test_mcp_update_relationship() {
    let stored = TaskRelationship {
        id: 100,
        source_task_id: 1,
        target_task_id: 2,
        relationship_type_id: 12,
        data: None,
        note: Some("Updated note".to_string()),
        created_at: server_at(0),
        updated_at: server_at(1),
        relationship_type_name: None,
        is_directional: None,
        forward_label: None,
        reverse_label: None,
    };
    let response =
        ManageTaskRelationshipsResponse::of_change(100, String::new(), 1, None, &stored, true);
    let summary = &response.relationships[0];
    assert_eq!(summary.relationship_type, "");
    assert_eq!(summary.target_task_id, "");
    assert_eq!(summary.note, Some("Updated note".to_string()));
    let response =
        ManageTaskRelationshipsResponse::of_change(100, String::new(), 1, None, &stored, false);
    assert_eq!(response.relationships[0].note, None);
}

#[test]
fn test_mcp_get_template() {
    let mut db = Database::new();
    for label in ["first", "second"] {
        let request = CreateTaskTemplate {
            group_id: None,
            template_name: label.to_string(),
            template_title: format!("{} Template", label),
            ticket_title: "t".to_string(),
            ticket_description: "d".to_string(),
        };
        TaskTemplate::create(&mut db, &request, server_at(0)).unwrap();
    }
    let templates = TaskTemplate::find_all(&db);
    assert_eq!(GetTaskTemplateRequest::pick(&templates, "second").unwrap().template_title, "second Template");
    let e = GetTaskTemplateRequest::pick(&templates, "third").unwrap_err();
    assert_eq!(e.error, "Template with name 'third' not found");

    let by_id = GetTaskTemplateRequest { template_id: Some(3), template_name: Some("x".to_string()) };
    assert!(matches!(by_id.lookup().unwrap(), TemplateLookup::ById(3)));
    let by_name = GetTaskTemplateRequest { template_id: None, template_name: Some("x".to_string()) };
    match by_name.lookup().unwrap() {
        TemplateLookup::ByName(name) => assert_eq!(name, "x"),
        other => panic!("unexpected lookup {:?}", other),
    }
    let neither = GetTaskTemplateRequest { template_id: None, template_name: None };
    assert_eq!(
        neither.lookup().unwrap_err().error,
        "Either template_id or template_name must be provided"
    );
}

#[test]
fn test_mcp_delete_relationship() {
    let mut request = server_request("delete");
    request.relationship_id = Some(100);
    request.target_task_id = Some(2);
    request.note = Some("ignored".to_string());
    match request.plan() {
        RelationshipPlan::Delete { task_id, relationship_id } => {
            assert_eq!(task_id, 1);
            assert_eq!(relationship_id, 100);
        }
        other => panic!("unexpected plan {:?}", other),
    }
    // After the deletion the store holds the relationship no more, and the answer is empty.
    let mut db = Database::new();
    for id in [1u128, 2] {
        Task::insert(&mut db, server_task(id, TaskStatus::Todo)).unwrap();
    }
    let plain = CreateTaskRelationshipType {
        name: "relates".to_string(),
        display_name: "Relates to".to_string(),
        description: None,
        is_directional: false,
        forward_label: None,
        reverse_label: None,
        enforces_blocking: false,
        blocking_disabled_statuses: None,
        blocking_source_statuses: None,
    };
    TaskRelationshipType::create_with_id(&mut db, &plain, 12, false, server_at(0)).unwrap();
    TaskRelationship::create_with_id(&mut db, 1, 2, 12, None, None, 100, server_at(1)).unwrap();
    assert_eq!(TaskRelationship::delete(&mut db, 100), 1);
    let groups = TaskRelationship::find_by_task(&db, 1).unwrap();
    assert!(ManageTaskRelationshipsResponse::from_groups(&groups, true).relationships.is_empty());
}

#[test]
fn test_mcp_create_template() {
    let mut db = Database::new();
    let request = CreateTaskTemplate {
        group_id: None,
        template_name: "mcp_template".to_string(),
        template_title: "MCP Template".to_string(),
        ticket_title: "Ticket".to_string(),
        ticket_description: "Description".to_string(),
    };
    let created = TaskTemplate::create_with_id(&mut db, &request, 0xabc, server_at(0)).unwrap();
    let response =
        task_relations::mcp::task_server::CreateTaskTemplateResponse::new(created.id);
    assert_eq!(response.template_id, "00000000-0000-0000-0000-000000000abc");
    assert_eq!(TaskTemplate::find_by_id(&db, 0xabc).unwrap().template_name, "mcp_template");
}
