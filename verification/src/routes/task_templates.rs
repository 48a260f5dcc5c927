//! The handlers for task templates.

use crate::database::{Database, DatabaseView};
use crate::error::{refusal, EngineError, ErrorKind};
use crate::models::task_template::{
    merged_template, CreateTaskTemplate, TaskTemplate, TaskTemplateView, UpdateTaskTemplate,
    TEMPLATE_NOT_FOUND,
};
use crate::table::{first_index, kept, ordered};
use crate::text::{matches_search, text_matches};
use crate::timestamp::Timestamp;
use vstd::prelude::*;

verus! {

/// The query of a listing of templates.
#[derive(Debug)]
pub struct TaskTemplateSearchParams {
    pub search: Option<String>,
    pub group_id: Option<u128>,
}

/// The templates whose name, title or ticket title matches the search.
pub open spec fn template_matches(search: Seq<char>) -> spec_fn(TaskTemplateView) -> bool {
    |t: TaskTemplateView|
        matches_search(t.template_name, search) || matches_search(t.template_title, search)
            || matches_search(t.ticket_title, search)
}

/// The templates that a listing starts from: those of the group named, or
/// all of them, by title.
pub open spec fn listed_templates(db: DatabaseView, group_id: Option<u128>) -> Seq<
    TaskTemplateView,
> {
    match group_id {
        Some(group) => ordered(
            kept(db.templates, TaskTemplateView::in_group(Some(group))),
            TaskTemplateView::by_title(),
        ),
        None => ordered(db.templates, TaskTemplateView::by_title()),
    }
}

/// The templates of the group named, or all of them, by title; with a
/// search, those of them whose name, title or ticket title holds the
/// search text, whatever the case of the letters.
pub fn get_task_templates(db: &Database, params: &TaskTemplateSearchParams) -> (found: Vec<
    TaskTemplate,
>)
    ensures
        found.deep_view() == match params.search {
            Some(search) => kept(
                listed_templates(db@, params.group_id),
                template_matches(search@),
            ),
            None => listed_templates(db@, params.group_id),
        },
{
    let templates = match params.group_id {
        Some(group) => TaskTemplate::find_by_group_id(db, Some(group)),
        None => TaskTemplate::find_all(db),
    };
    match &params.search {
        None => templates,
        Some(search) => {
            let ghost rows = templates.deep_view();
            let ghost keep = template_matches(search@);
            let mut found: Vec<TaskTemplate> = Vec::new();
            let mut i: usize = 0;
            while i < templates.len()
                invariant
                    i <= templates.len(),
                    rows == templates.deep_view(),
                    keep == template_matches(search@),
                    found.deep_view() == kept(rows.take(i as int), keep),
                decreases templates.len() - i,
            {
                proof {
                    assert(rows.take(i + 1).drop_last() =~= rows.take(i as int));
                    assert(rows[i as int] == templates[i as int]@);
                }
                if text_matches(templates[i].template_name.as_str(), search.as_str())
                    || text_matches(templates[i].template_title.as_str(), search.as_str())
                    || text_matches(templates[i].ticket_title.as_str(), search.as_str()) {
                    let ghost before = found.deep_view();
                    found.push(templates[i].clone());
                    proof {
                        assert(found.deep_view() =~= before.push(rows[i as int]));
                    }
                }
                i += 1;
            }
            proof {
                assert(rows.take(rows.len() as int) =~= rows);
            }
            found
        },
    }
}

/// The template with the given id; not found if it is not stored.
pub fn get_task_template(db: &Database, template_id: u128) -> (r: Result<TaskTemplate, EngineError>)
    ensures
        match r {
            Ok(template) => db@.template(template_id) == Some(template@),
            Err(e) => db@.template(template_id) is None && e@ == refusal(
                ErrorKind::NotFound,
                TEMPLATE_NOT_FOUND@,
            ),
        },
{
    match TaskTemplate::find_by_id(db, template_id) {
        Some(template) => Ok(template),
        None => Err(EngineError::not_found(TEMPLATE_NOT_FOUND)),
    }
}

/// Creates a template. The rules are those of [`TaskTemplate::create`].
pub fn create_task_template(db: &mut Database, payload: &CreateTaskTemplate, now: Timestamp) -> (r:
    Result<TaskTemplate, EngineError>)
    requires
        old(db).wf(),
    ensures
        final(db).wf(),
        old(db)@.template_named(payload.template_name@) is Some ==> r is Err,
        match r {
            Ok(row) => old(db)@.template_create_refusal(payload.template_name@, row.id) is None
                && row@ == (TaskTemplateView {
                id: row.id,
                group_id: payload.group_id,
                template_name: payload.template_name@,
                template_title: payload.template_title@,
                ticket_title: payload.ticket_title@,
                ticket_description: payload.ticket_description@,
                created_at: now@,
                updated_at: now@,
            }) && final(db)@ == (DatabaseView {
                templates: old(db)@.templates.push(row@),
                ..old(db)@
            }),
            Err(e) => final(db)@ == old(db)@ && exists|id: u128|
                old(db)@.template_create_refusal(payload.template_name@, id) == Some(e@),
        },
{
    TaskTemplate::create(db, payload, now)
}

/// Changes a template. The rules are those of [`TaskTemplate::update`].
pub fn update_task_template(
    db: &mut Database,
    template_id: u128,
    payload: &UpdateTaskTemplate,
    now: Timestamp,
) -> (r: Result<TaskTemplate, EngineError>)
    requires
        old(db).wf(),
    ensures
        final(db).wf(),
        match r {
            Ok(row) => old(db)@.template_update_refusal(
                template_id,
                payload.template_name.deep_view(),
            ) is None && old(db)@.template(template_id) is Some && row@ == merged_template(
                old(db)@.template(template_id)->0,
                payload.group_id,
                payload.template_name.deep_view(),
                payload.template_title.deep_view(),
                payload.ticket_title.deep_view(),
                payload.ticket_description.deep_view(),
                now@,
            ) && final(db)@ == (DatabaseView {
                templates: old(db)@.templates.update(
                    first_index(old(db)@.templates, TaskTemplateView::with_id(template_id)),
                    row@,
                ),
                ..old(db)@
            }),
            Err(e) => old(db)@.template_update_refusal(
                template_id,
                payload.template_name.deep_view(),
            ) == Some(e@) && final(db)@ == old(db)@,
        },
{
    TaskTemplate::update(db, template_id, payload, now)
}

/// Deletes a template; not found if it is not stored.
pub fn delete_task_template(db: &mut Database, template_id: u128) -> (r: Result<(), EngineError>)
    requires
        old(db).wf(),
    ensures
        final(db).wf(),
        match r {
            Ok(_) => old(db)@.template(template_id) is Some && final(db)@ == (DatabaseView {
                templates: old(db)@.templates.remove(
                    first_index(old(db)@.templates, TaskTemplateView::with_id(template_id)),
                ),
                ..old(db)@
            }),
            Err(e) => old(db)@.template(template_id) is None && e@ == refusal(
                ErrorKind::NotFound,
                TEMPLATE_NOT_FOUND@,
            ) && final(db)@ == old(db)@,
        },
{
    if TaskTemplate::delete(db, template_id) == 0 {
        Err(EngineError::not_found(TEMPLATE_NOT_FOUND))
    } else {
        Ok(())
    }
}

} // verus!
