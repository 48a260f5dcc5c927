use task_relations::error::{EngineError, ErrorKind};
use task_relations::status::{contains_status, statuses_from_names, TaskStatus};

fn status_all() -> Vec<TaskStatus> {
    vec![
        TaskStatus::Todo,
        TaskStatus::InProgress,
        TaskStatus::InReview,
        TaskStatus::Done,
        TaskStatus::Cancelled,
    ]
}

#[test]
fn status_names_are_the_stored_names() {
    assert_eq!(TaskStatus::Todo.as_str(), "todo");
    assert_eq!(TaskStatus::InProgress.as_str(), "inprogress");
    assert_eq!(TaskStatus::InReview.as_str(), "inreview");
    assert_eq!(TaskStatus::Done.as_str(), "done");
    assert_eq!(TaskStatus::Cancelled.as_str(), "cancelled");
    assert_eq!(TaskStatus::InReview.to_string(), "inreview".to_string());
}

#[test]
fn status_is_read_back_from_its_name() {
    for status in status_all() {
        let read = TaskStatus::from_str(status.as_str()).unwrap();
        assert_eq!(read, status);
    }
}

#[test]
fn status_rejects_other_text() {
    for text in ["", "Todo", "in-progress", "in_review", "finished", " done"] {
        let e = TaskStatus::from_str(text).unwrap_err();
        assert_eq!(e.kind, ErrorKind::Validation);
        assert_eq!(e.message, format!("Unknown task status: {}", text));
    }
}

#[test]
fn status_list_is_read_one_for_one() {
    let names = vec!["done".to_string(), "todo".to_string(), "done".to_string()];
    let statuses = statuses_from_names(&names).unwrap();
    assert_eq!(statuses, vec![TaskStatus::Done, TaskStatus::Todo, TaskStatus::Done]);
    assert_eq!(statuses_from_names(&Vec::new()).unwrap(), Vec::new());
}

#[test]
fn status_list_fails_on_the_first_unknown_name() {
    let names = vec!["done".to_string(), "later".to_string(), "never".to_string()];
    let e = statuses_from_names(&names).unwrap_err();
    assert_eq!(e.kind, ErrorKind::Deserialization);
    assert_eq!(e.message, "Unknown task status: later");
}

#[test]
fn status_membership() {
    let list = vec![TaskStatus::Todo, TaskStatus::InProgress];
    assert!(contains_status(&list, TaskStatus::Todo));
    assert!(contains_status(&list, TaskStatus::InProgress));
    assert!(!contains_status(&list, TaskStatus::Done));
    assert!(!contains_status(&[], TaskStatus::Done));
}

#[test]
fn errors_show_their_kind_and_message() {
    let e = EngineError::new(ErrorKind::Forbidden, "no");
    assert_eq!(e.kind, ErrorKind::Forbidden);
    assert_eq!(e.message, "no");
    assert_eq!(e.to_string(), "forbidden: no");
    assert_eq!(EngineError::not_found("x").to_string(), "not found: x");
    assert_eq!(EngineError::validation("").to_string(), "validation error: ");
    assert_eq!(EngineError::deserialization("bad").to_string(), "deserialization error: bad");
    assert_eq!(EngineError::forbidden("f").kind, ErrorKind::Forbidden);
    let copy = e.clone();
    assert_eq!(copy.kind, e.kind);
    assert_eq!(copy.message, e.message);
    assert_eq!(ErrorKind::NotFound.as_str(), "not found");
}
