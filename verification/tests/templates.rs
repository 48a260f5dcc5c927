use task_relations::database::Database;
use task_relations::error::ErrorKind;
use task_relations::models::task_template::{CreateTaskTemplate, TaskTemplate, UpdateTaskTemplate};
use task_relations::models::task_template_group::{
    CreateTaskTemplateGroup, TaskTemplateGroup, TaskTemplateGroupWithChildren,
    UpdateTaskTemplateGroup,
};
use task_relations::routes::task_template_groups::{
    delete_task_template_group, get_task_template_group, get_task_template_groups,
    TaskTemplateGroupSearchParams,
};
use task_relations::routes::task_templates::{
    create_task_template, delete_task_template, get_task_template, get_task_templates,
    update_task_template, TaskTemplateSearchParams,
};
use task_relations::timestamp::Timestamp;

fn templates_at(micros: i64) -> Timestamp {
    Timestamp::from_micros(micros).unwrap()
}

fn templates_group(db: &mut Database, id: u128, label: &str, parent: Option<u128>) {
    let request = CreateTaskTemplateGroup { name: label.to_string(), parent_group_id: parent };
    TaskTemplateGroup::create_with_id(db, &request, id, templates_at(0)).unwrap();
}

fn templates_request(label: &str, group: Option<u128>) -> CreateTaskTemplate {
    CreateTaskTemplate {
        group_id: group,
        template_name: label.to_string(),
        template_title: format!("{} Template", label),
        ticket_title: format!("Ticket: {}", label),
        ticket_description: format!("Description for {}", label),
    }
}

fn templates_names(trees: &[TaskTemplateGroupWithChildren]) -> Vec<String> {
    trees.iter().map(|t| t.group.name.clone()).collect()
}

#[test]
fn test_create_template_group() {
    let mut db = Database::new();
    let request = CreateTaskTemplateGroup { name: "Bug Reports".to_string(), parent_group_id: None };
    let group = TaskTemplateGroup::create(&mut db, &request, templates_at(3)).unwrap();
    assert_eq!(group.name, "Bug Reports");
    assert_eq!(group.parent_group_id, None);
    assert_eq!(group.created_at.micros(), 3);
    assert_eq!(get_task_template_group(&db, group.id).unwrap().name, "Bug Reports");
}

#[test]
fn test_create_template_group_with_parent() {
    let mut db = Database::new();
    templates_group(&mut db, 1, "Parent Group", None);
    let request =
        CreateTaskTemplateGroup { name: "Child Group".to_string(), parent_group_id: Some(1) };
    let child = TaskTemplateGroup::create(&mut db, &request, templates_at(0)).unwrap();
    assert_eq!(child.name, "Child Group");
    assert_eq!(child.parent_group_id, Some(1));
    assert_eq!(TaskTemplateGroup::get_depth(&db, child.id), 2);
}

#[test]
fn groups_are_at_most_three_deep() {
    let mut db = Database::new();
    templates_group(&mut db, 1, "one", None);
    templates_group(&mut db, 2, "two", Some(1));
    templates_group(&mut db, 3, "three", Some(2));
    assert_eq!(TaskTemplateGroup::get_depth(&db, 1), 1);
    assert_eq!(TaskTemplateGroup::get_depth(&db, 3), 3);
    assert_eq!(TaskTemplateGroup::get_depth(&db, 9), 0);
    assert!(TaskTemplateGroup::validate_depth(&db, None).is_ok());
    assert!(TaskTemplateGroup::validate_depth(&db, Some(2)).is_ok());
    let e = TaskTemplateGroup::validate_depth(&db, Some(3)).unwrap_err();
    assert_eq!(e.kind, ErrorKind::Validation);
    assert_eq!(e.message, "Maximum depth of 3 levels exceeded");
    let request = CreateTaskTemplateGroup { name: "four".to_string(), parent_group_id: Some(3) };
    let e = TaskTemplateGroup::create(&mut db, &request, templates_at(0)).unwrap_err();
    assert_eq!(e.kind, ErrorKind::Validation);
    assert_eq!(TaskTemplateGroup::find_all(&db).len(), 3);
}

#[test]
fn group_update_rejects_cycles() {
    let mut db = Database::new();
    templates_group(&mut db, 1, "one", None);
    templates_group(&mut db, 2, "two", Some(1));
    templates_group(&mut db, 3, "three", Some(2));
    let to = |parent| UpdateTaskTemplateGroup { name: None, parent_group_id: parent };
    let e = TaskTemplateGroup::update(&mut db, 1, &to(Some(1)), templates_at(1)).unwrap_err();
    assert_eq!(e.message, "Cannot set group as its own parent");
    let e = TaskTemplateGroup::update(&mut db, 1, &to(Some(3)), templates_at(1)).unwrap_err();
    assert_eq!(e.kind, ErrorKind::Validation);
    assert_eq!(e.message, "Cannot create circular reference");
    let e = TaskTemplateGroup::update(&mut db, 9, &to(None), templates_at(1)).unwrap_err();
    assert_eq!(e.kind, ErrorKind::NotFound);
    // Renaming keeps the parent.
    let renamed = TaskTemplateGroup::update(
        &mut db,
        2,
        &UpdateTaskTemplateGroup { name: Some("zwei".to_string()), parent_group_id: None },
        templates_at(2),
    )
    .unwrap();
    assert_eq!(renamed.name, "zwei");
    assert_eq!(renamed.parent_group_id, Some(1));
    assert_eq!(renamed.updated_at.micros(), 2);
    // A new parent that is too deep.
    templates_group(&mut db, 4, "four", None);
    let e = TaskTemplateGroup::update(&mut db, 4, &to(Some(3)), templates_at(3)).unwrap_err();
    assert_eq!(e.message, "Maximum depth of 3 levels exceeded");
    let moved = TaskTemplateGroup::update(&mut db, 4, &to(Some(2)), templates_at(3)).unwrap();
    assert_eq!(moved.parent_group_id, Some(2));
}

#[test]
fn test_get_template_groups() {
    let mut db = Database::new();
    templates_group(&mut db, 1, "Group 1", None);
    templates_group(&mut db, 2, "Group 2", None);
    let params =
        TaskTemplateGroupSearchParams { search: None, parent_id: None, hierarchical: None };
    let groups = get_task_template_groups(&db, &params);
    assert!(groups.len() >= 2);
    assert_eq!(templates_names(&groups), vec!["Group 1", "Group 2"]);
    assert!(groups.iter().all(|g| g.children.is_empty()));
}

#[test]
fn group_listings() {
    let mut db = Database::new();
    templates_group(&mut db, 1, "Features", None);
    templates_group(&mut db, 2, "Bugs", None);
    templates_group(&mut db, 3, "Crashes", Some(2));
    templates_group(&mut db, 4, "Backend", Some(2));
    templates_group(&mut db, 5, "Panics", Some(3));
    templates_group(&mut db, 6, "Orphan", Some(77));

    let all: Vec<String> =
        TaskTemplateGroup::find_all(&db).into_iter().map(|g| g.name).collect();
    assert_eq!(all, vec!["Backend", "Bugs", "Crashes", "Features", "Orphan", "Panics"]);
    let under: Vec<u128> =
        TaskTemplateGroup::find_by_parent_id(&db, Some(2)).into_iter().map(|g| g.id).collect();
    assert_eq!(under, vec![4, 3]);
    let top: Vec<u128> =
        TaskTemplateGroup::find_by_parent_id(&db, None).into_iter().map(|g| g.id).collect();
    assert_eq!(top, vec![2, 1]);

    let forest = TaskTemplateGroup::find_hierarchy(&db);
    assert_eq!(templates_names(&forest), vec!["Bugs", "Features", "Orphan"]);
    assert_eq!(templates_names(&forest[0].children), vec!["Backend", "Crashes"]);
    assert_eq!(templates_names(&forest[0].children[1].children), vec!["Panics"]);
    assert!(forest[0].children[0].children.is_empty());
    assert!(forest[1].children.is_empty());

    let hierarchical = TaskTemplateGroupSearchParams {
        search: Some("ignored".to_string()),
        parent_id: None,
        hierarchical: Some(true),
    };
    assert_eq!(get_task_template_groups(&db, &hierarchical).len(), 3);
    let searched = TaskTemplateGroupSearchParams {
        search: Some("RASH".to_string()),
        parent_id: Some(2),
        hierarchical: Some(false),
    };
    assert_eq!(templates_names(&get_task_template_groups(&db, &searched)), vec!["Crashes"]);
}

#[test]
fn test_create_template() {
    let mut db = Database::new();
    let request = CreateTaskTemplate {
        group_id: None,
        template_name: "bug_report".to_string(),
        template_title: "Bug Report Template".to_string(),
        ticket_title: "Bug: {title}".to_string(),
        ticket_description: "## Description\n{description}".to_string(),
    };
    let template = create_task_template(&mut db, &request, templates_at(0)).unwrap();
    assert_eq!(template.template_name, "bug_report");
    assert_eq!(template.template_title, "Bug Report Template");
    assert_eq!(template.ticket_title, "Bug: {title}");
    assert_eq!(template.group_id, None);
    let e = create_task_template(&mut db, &request, templates_at(0)).unwrap_err();
    assert_eq!(e.kind, ErrorKind::Validation);
    assert_eq!(e.message, "Template with name 'bug_report' already exists");
}

#[test]
fn test_create_template_with_group() {
    let mut db = Database::new();
    templates_group(&mut db, 1, "Test Group", None);
    let template =
        create_task_template(&mut db, &templates_request("grouped_template", Some(1)), templates_at(0))
            .unwrap();
    assert_eq!(template.group_id, Some(1));
    assert_eq!(TaskTemplate::find_by_group_id(&db, Some(1)).len(), 1);
    assert_eq!(TaskTemplate::count_in_group(&db, 1), 1);
    assert!(TaskTemplate::find_by_group_id(&db, None).is_empty());
}

#[test]
fn test_get_template_by_id() {
    let mut db = Database::new();
    let created =
        TaskTemplate::create(&mut db, &templates_request("test_template", None), templates_at(0))
            .unwrap();
    let found = get_task_template(&db, created.id).unwrap();
    assert_eq!(found.id, created.id);
    assert_eq!(found.template_name, "test_template");
    let e = get_task_template(&db, created.id.wrapping_add(1)).unwrap_err();
    assert_eq!(e.kind, ErrorKind::NotFound);
    assert_eq!(
        TaskTemplate::find_by_template_name(&db, "test_template").unwrap().id,
        created.id
    );
    assert!(TaskTemplate::find_by_template_name(&db, "none").is_none());
}

#[test]
fn test_update_template() {
    let mut db = Database::new();
    let created =
        TaskTemplate::create(&mut db, &templates_request("test_template", None), templates_at(1))
            .unwrap();
    TaskTemplate::create(&mut db, &templates_request("other", None), templates_at(1)).unwrap();
    let change = UpdateTaskTemplate {
        group_id: None,
        template_name: None,
        template_title: Some("Updated Title".to_string()),
        ticket_title: None,
        ticket_description: None,
    };
    let updated = update_task_template(&mut db, created.id, &change, templates_at(2)).unwrap();
    assert_eq!(updated.template_title, "Updated Title");
    assert_eq!(updated.template_name, "test_template");
    assert_eq!(updated.ticket_title, "Ticket: test_template");
    assert_eq!(updated.created_at.micros(), 1);
    assert_eq!(updated.updated_at.micros(), 2);
    let rename = |name: &str| UpdateTaskTemplate {
        group_id: None,
        template_name: Some(name.to_string()),
        template_title: None,
        ticket_title: None,
        ticket_description: None,
    };
    let e = update_task_template(&mut db, created.id, &rename("other"), templates_at(3)).unwrap_err();
    assert_eq!(e.kind, ErrorKind::Validation);
    assert_eq!(e.message, "Template with name 'other' already exists");
    assert!(update_task_template(&mut db, created.id, &rename("test_template"), templates_at(3)).is_ok());
    assert!(update_task_template(&mut db, created.id, &rename("fresh"), templates_at(3)).is_ok());
    let e = update_task_template(&mut db, 12345, &rename("x"), templates_at(3)).unwrap_err();
    assert_eq!(e.kind, ErrorKind::NotFound);
}

#[test]
fn test_delete_template() {
    let mut db = Database::new();
    let created =
        TaskTemplate::create(&mut db, &templates_request("test_template", None), templates_at(0))
            .unwrap();
    assert!(delete_task_template(&mut db, created.id).is_ok());
    assert!(TaskTemplate::find_by_id(&db, created.id).is_none());
    let e = delete_task_template(&mut db, created.id).unwrap_err();
    assert_eq!(e.kind, ErrorKind::NotFound);
    assert_eq!(TaskTemplate::delete(&mut db, created.id), 0);
}

#[test]
fn test_delete_group_with_templates() {
    let mut db = Database::new();
    templates_group(&mut db, 1, "Test Group", None);
    let template =
        TaskTemplate::create(&mut db, &templates_request("test_template", Some(1)), templates_at(0))
            .unwrap();
    let e = delete_task_template_group(&mut db, 1).unwrap_err();
    assert_eq!(e.kind, ErrorKind::Validation);
    assert_eq!(e.message, "Cannot delete group with templates");
    assert!(TaskTemplateGroup::find_by_id(&db, 1).is_some());
    TaskTemplate::delete(&mut db, template.id);
    templates_group(&mut db, 2, "Child", Some(1));
    let e = delete_task_template_group(&mut db, 1).unwrap_err();
    assert_eq!(e.message, "Cannot delete group with child groups");
    assert!(delete_task_template_group(&mut db, 2).is_ok());
    assert!(delete_task_template_group(&mut db, 1).is_ok());
    let e = delete_task_template_group(&mut db, 1).unwrap_err();
    assert_eq!(e.kind, ErrorKind::NotFound);
    assert_eq!(TaskTemplateGroup::delete(&mut db, 1).unwrap(), 0);
}

#[test]
fn template_listings_and_search() {
    let mut db = Database::new();
    templates_group(&mut db, 1, "g", None);
    for (label, group) in [("zeta", None), ("alpha", Some(1)), ("Beta", Some(1)), ("gamma", None)] {
        TaskTemplate::create(&mut db, &templates_request(label, group), templates_at(0)).unwrap();
    }
    let names = |found: Vec<TaskTemplate>| -> Vec<String> {
        found.into_iter().map(|t| t.template_name).collect()
    };
    assert_eq!(names(TaskTemplate::find_all(&db)), vec!["Beta", "alpha", "gamma", "zeta"]);
    let params = |search: Option<&str>, group| TaskTemplateSearchParams {
        search: search.map(|s| s.to_string()),
        group_id: group,
    };
    assert_eq!(names(get_task_templates(&db, &params(None, Some(1)))), vec!["Beta", "alpha"]);
    assert_eq!(names(get_task_templates(&db, &params(Some("ETA"), None))), vec!["Beta", "zeta"]);
    assert_eq!(
        names(get_task_templates(&db, &params(Some("ticket: g"), None))),
        vec!["gamma"]
    );
    assert_eq!(names(get_task_templates(&db, &params(Some(""), Some(1)))), vec!["Beta", "alpha"]);
    assert!(get_task_templates(&db, &params(Some("nothing"), None)).is_empty());
}
