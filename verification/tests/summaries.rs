use task_relations::mcp::task_server::{
    AttemptRecord, CreateTaskResponse, CreateTaskTemplateGroupResponse,
    CreateTaskTemplateResponse, DeleteTaskResponse, DeleteTaskTemplateGroupResponse,
    DeleteTaskTemplateResponse, GetTaskResponse, ListProjectsResponse, ProjectSummary,
    StartTaskAttemptResponse, TaskDetails, TaskSummary, UpdateTaskResponse,
};
use task_relations::models::task::{Project, Task, TaskWithAttemptStatus};
use task_relations::status::TaskStatus;
use task_relations::timestamp::Timestamp;

fn summaries_task() -> Task {
    Task {
        id: 0x0123456789abcdef_0fedcba987654321,
        project_id: 5,
        title: "Write the report".to_string(),
        description: Some("All of it".to_string()),
        status: TaskStatus::InReview,
        parent_task_attempt: None,
        created_at: Timestamp::from_micros(1_700_000_000_000_000).unwrap(),
        updated_at: Timestamp::from_micros(1_700_000_000_500_000).unwrap(),
    }
}

#[test]
fn task_details_from_task() {
    let details = TaskDetails::from_task(summaries_task());
    assert_eq!(details.id, "01234567-89ab-cdef-0fed-cba987654321");
    assert_eq!(details.title, "Write the report");
    assert_eq!(details.description, Some("All of it".to_string()));
    assert_eq!(details.status, "inreview");
    assert_eq!(details.created_at, "2023-11-14T22:13:20+00:00");
    assert_eq!(details.updated_at, "2023-11-14T22:13:20.500+00:00");
    assert_eq!(details.has_in_progress_attempt, None);
    assert_eq!(details.has_merged_attempt, None);
    assert_eq!(details.last_attempt_failed, None);
}

#[test]
fn task_summary_from_task_with_status() {
    let summary = TaskSummary::from_task_with_status(TaskWithAttemptStatus {
        task: summaries_task(),
        has_in_progress_attempt: true,
        has_merged_attempt: false,
        last_attempt_failed: true,
        executor: "CODEX".to_string(),
    });
    assert_eq!(summary.id, "01234567-89ab-cdef-0fed-cba987654321");
    assert_eq!(summary.title, "Write the report");
    assert_eq!(summary.status, "inreview");
    assert_eq!(summary.created_at, "2023-11-14T22:13:20+00:00");
    assert_eq!(summary.has_in_progress_attempt, Some(true));
    assert_eq!(summary.has_merged_attempt, Some(false));
    assert_eq!(summary.last_attempt_failed, Some(true));
}

fn summaries_project(id: u128, label: &str) -> Project {
    Project {
        id,
        name: label.to_string(),
        git_repo_path: format!("/repos/{}", label),
        setup_script: Some("make setup".to_string()),
        dev_script: None,
        cleanup_script: Some("make clean".to_string()),
        copy_files: None,
        created_at: Timestamp::from_micros(0).unwrap(),
        updated_at: Timestamp::from_micros(-1).unwrap(),
    }
}

#[test]
fn project_summary_from_project() {
    let summary = ProjectSummary::from_project(summaries_project(255, "alpha"));
    assert_eq!(summary.id, "00000000-0000-0000-0000-0000000000ff");
    assert_eq!(summary.name, "alpha");
    assert_eq!(summary.git_repo_path, "/repos/alpha");
    assert_eq!(summary.setup_script, Some("make setup".to_string()));
    assert_eq!(summary.dev_script, None);
    assert_eq!(summary.cleanup_script, Some("make clean".to_string()));
    assert_eq!(summary.created_at, "1970-01-01T00:00:00+00:00");
    assert_eq!(summary.updated_at, "1969-12-31T23:59:59.999999+00:00");
}

#[test]
fn projects_are_listed_one_for_one() {
    let response = ListProjectsResponse::from_projects(vec![
        summaries_project(1, "one"),
        summaries_project(u128::MAX, "two"),
    ]);
    assert_eq!(response.count, 2);
    assert_eq!(response.projects[0].name, "one");
    assert_eq!(response.projects[1].id, "ffffffff-ffff-ffff-ffff-ffffffffffff");
    assert_eq!(ListProjectsResponse::from_projects(Vec::new()).count, 0);
}

#[test]
fn timestamps_outside_the_calendar_are_refused() {
    assert!(Timestamp::from_micros(i64::MAX).is_none());
    assert!(Timestamp::from_micros(i64::MIN).is_none());
    let t = Timestamp::from_micros(1).unwrap();
    assert_eq!(t.micros(), 1);
    assert_eq!(t.to_rfc3339(), "1970-01-01T00:00:00.000001+00:00");
    assert!(t.at_or_after(&Timestamp::from_micros(1).unwrap()));
    assert!(!t.at_or_after(&Timestamp::from_micros(2).unwrap()));
}

#[test]
fn answers_hold_ids_in_hyphenated_form() {
    let id: u128 = 0xa1a2a3a4_b1b2_c1c2_d1d2_d3d4d5d6d7d8;
    let text = "a1a2a3a4-b1b2-c1c2-d1d2-d3d4d5d6d7d8";
    assert_eq!(CreateTaskResponse::new(id).task_id, text);
    assert_eq!(DeleteTaskResponse::new(id).deleted_task_id, Some(text.to_string()));
    let started = StartTaskAttemptResponse::new(id, 16);
    assert_eq!(started.task_id, text);
    assert_eq!(started.attempt_id, "00000000-0000-0000-0000-000000000010");
    assert_eq!(CreateTaskTemplateResponse::new(id).template_id, text);
    assert_eq!(DeleteTaskTemplateResponse::new(id).deleted_template_id, Some(text.to_string()));
    assert_eq!(CreateTaskTemplateGroupResponse::new(id).group_id, text);
    assert_eq!(DeleteTaskTemplateGroupResponse::new(id).deleted_group_id, Some(text.to_string()));
    assert_eq!(UpdateTaskResponse::new(summaries_task()).task.status, "inreview");

    let without = GetTaskResponse::new(summaries_task(), None);
    assert_eq!(without.task.title, "Write the report");
    assert!(without.attempts.is_none());
    let record = AttemptRecord {
        has_attempt: true,
        id: Some("a".to_string()),
        created_at: Some("c".to_string()),
        updated_at: Some("u".to_string()),
        executor: Some("e".to_string()),
        branch: Some("b".to_string()),
        target_branch: Some("t".to_string()),
        latest_summary: Some("s".to_string()),
    };
    let with = GetTaskResponse::new(summaries_task(), Some(vec![record]));
    let attempts = with.attempts.unwrap();
    assert_eq!(attempts.len(), 1);
    assert_eq!(attempts[0].latest_summary, Some("s".to_string()));
    assert_eq!(GetTaskResponse::new(summaries_task(), Some(Vec::new())).attempts.unwrap().len(), 0);
}
