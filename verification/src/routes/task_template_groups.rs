//! The handlers for template groups.

use crate::database::{Database, DatabaseView};
use crate::error::{refusal, EngineError, ErrorKind};
use crate::models::task_template_group::{
    CreateTaskTemplateGroup, GroupTreeView, TaskTemplateGroup, TaskTemplateGroupView,
    TaskTemplateGroupWithChildren, UpdateTaskTemplateGroup, GROUP_NOT_FOUND,
};
use crate::table::{first_index, kept};
use crate::text::{matches_search, text_matches};
use crate::timestamp::Timestamp;
use vstd::prelude::*;

verus! {

/// The query of a listing of template groups.
#[derive(Debug)]
pub struct TaskTemplateGroupSearchParams {
    pub search: Option<String>,
    pub parent_id: Option<u128>,
    pub hierarchical: Option<bool>,
}

/// The groups whose name matches the search.
pub open spec fn group_matches(search: Seq<char>) -> spec_fn(TaskTemplateGroupView) -> bool {
    |g: TaskTemplateGroupView| matches_search(g.name, search)
}

/// A group on its own, without the groups that lie in it.
pub open spec fn alone(group: TaskTemplateGroupView) -> GroupTreeView {
    GroupTreeView { group, children: Seq::empty() }
}

/// The groups of a flat listing: those under the parent named, or those
/// under none; with a search, those of them whose name matches.
pub open spec fn flat_listing(
    db: DatabaseView,
    parent_id: Option<u128>,
    search: Option<Seq<char>>,
) -> Seq<TaskTemplateGroupView> {
    match search {
        Some(text) => kept(db.groups_under(parent_id), group_matches(text)),
        None => db.groups_under(parent_id),
    }
}

/// The template groups. Asked for the hierarchy, the whole forest; else
/// the groups under the parent named, or under none, by name, each on its
/// own, and with a search only those whose name holds the search text.
pub fn get_task_template_groups(db: &Database, params: &TaskTemplateGroupSearchParams) -> (found:
    Vec<TaskTemplateGroupWithChildren>)
    ensures
        found.deep_view() == if params.hierarchical == Some(true) {
            db@.hierarchy()
        } else {
            flat_listing(db@, params.parent_id, params.search.deep_view()).map_values(
                |g: TaskTemplateGroupView| alone(g),
            )
        },
{
    let hierarchical = match params.hierarchical {
        Some(value) => value,
        None => false,
    };
    if hierarchical {
        return TaskTemplateGroup::find_hierarchy(db);
    }
    let groups = TaskTemplateGroup::find_by_parent_id(db, params.parent_id);
    let ghost rows = groups.deep_view();
    let ghost wanted = flat_listing(db@, params.parent_id, params.search.deep_view());
    let mut found: Vec<TaskTemplateGroupWithChildren> = Vec::new();
    let mut i: usize = 0;
    proof {
        assert(found.deep_view() =~= Seq::empty());
    }
    while i < groups.len()
        invariant
            i <= groups.len(),
            rows == groups.deep_view(),
            rows == db@.groups_under(params.parent_id),
            found.deep_view() == (match params.search.deep_view() {
                Some(text) => kept(rows.take(i as int), group_matches(text)),
                None => rows.take(i as int),
            }).map_values(|g: TaskTemplateGroupView| alone(g)),
        decreases groups.len() - i,
    {
        proof {
            assert(rows.take(i + 1).drop_last() =~= rows.take(i as int));
            assert(rows[i as int] == groups[i as int]@);
        }
        let keep = match &params.search {
            Some(search) => text_matches(groups[i].name.as_str(), search.as_str()),
            None => true,
        };
        if keep {
            let ghost before = found.deep_view();
            let entry = TaskTemplateGroupWithChildren {
                group: groups[i].clone(),
                children: Vec::new(),
            };
            proof {
                assert(entry@.children =~= Seq::empty());
                assert(entry@ == alone(rows[i as int]));
            }
            found.push(entry);
            proof {
                assert(found.deep_view() =~= before.push(alone(rows[i as int])));
                match params.search.deep_view() {
                    Some(text) => {
                        assert(found.deep_view() =~= kept(
                            rows.take(i + 1),
                            group_matches(text),
                        ).map_values(|g: TaskTemplateGroupView| alone(g)));
                    },
                    None => {
                        assert(rows.take(i + 1) =~= rows.take(i as int).push(rows[i as int]));
                        assert(found.deep_view() =~= rows.take(i + 1).map_values(
                            |g: TaskTemplateGroupView| alone(g),
                        ));
                    },
                }
            }
        }
        i += 1;
    }
    proof {
        assert(rows.take(rows.len() as int) =~= rows);
    }
    found
}

/// The group with the given id; not found if it is not stored.
pub fn get_task_template_group(db: &Database, group_id: u128) -> (r: Result<
    TaskTemplateGroup,
    EngineError,
>)
    ensures
        match r {
            Ok(group) => db@.template_group(group_id) == Some(group@),
            Err(e) => db@.template_group(group_id) is None && e@ == refusal(
                ErrorKind::NotFound,
                GROUP_NOT_FOUND@,
            ),
        },
{
    match TaskTemplateGroup::find_by_id(db, group_id) {
        Some(group) => Ok(group),
        None => Err(EngineError::not_found(GROUP_NOT_FOUND)),
    }
}

/// Creates a group. The rules are those of
/// [`TaskTemplateGroup::create`].
pub fn create_task_template_group(
    db: &mut Database,
    payload: &CreateTaskTemplateGroup,
    now: Timestamp,
) -> (r: Result<TaskTemplateGroup, EngineError>)
    requires
        old(db).wf(),
    ensures
        final(db).wf(),
        old(db)@.depth_refusal(payload.parent_group_id) is Some ==> r is Err,
        match r {
            Ok(row) => old(db)@.group_create_refusal(payload.parent_group_id, row.id) is None
                && row@ == (TaskTemplateGroupView {
                id: row.id,
                name: payload.name@,
                parent_group_id: payload.parent_group_id,
                created_at: now@,
                updated_at: now@,
            }) && final(db)@ == (DatabaseView {
                template_groups: old(db)@.template_groups.push(row@),
                ..old(db)@
            }),
            Err(e) => final(db)@ == old(db)@ && exists|id: u128|
                old(db)@.group_create_refusal(payload.parent_group_id, id) == Some(e@),
        },
{
    TaskTemplateGroup::create(db, payload, now)
}

/// Changes a group. The rules are those of
/// [`TaskTemplateGroup::update`].
pub fn update_task_template_group(
    db: &mut Database,
    group_id: u128,
    payload: &UpdateTaskTemplateGroup,
    now: Timestamp,
) -> (r: Result<TaskTemplateGroup, EngineError>)
    requires
        old(db).wf(),
    ensures
        final(db).wf(),
        match r {
            Ok(row) => old(db)@.group_update_refusal(group_id, payload.parent_group_id) is None
                && old(db)@.template_group(group_id) is Some && row@ == (TaskTemplateGroupView {
                id: group_id,
                name: match payload.name {
                    Some(name) => name@,
                    None => old(db)@.template_group(group_id)->0.name,
                },
                parent_group_id: match payload.parent_group_id {
                    Some(parent) => Some(parent),
                    None => old(db)@.template_group(group_id)->0.parent_group_id,
                },
                created_at: old(db)@.template_group(group_id)->0.created_at,
                updated_at: now@,
            }) && final(db)@ == (DatabaseView {
                template_groups: old(db)@.template_groups.update(
                    first_index(old(db)@.template_groups, TaskTemplateGroupView::with_id(group_id)),
                    row@,
                ),
                ..old(db)@
            }),
            Err(e) => old(db)@.group_update_refusal(group_id, payload.parent_group_id) == Some(e@)
                && final(db)@ == old(db)@,
        },
{
    TaskTemplateGroup::update(db, group_id, payload, now)
}

/// Deletes a group in which neither groups nor templates lie; not found
/// if it is not stored.
pub fn delete_task_template_group(db: &mut Database, group_id: u128) -> (r: Result<
    (),
    EngineError,
>)
    requires
        old(db).wf(),
    ensures
        final(db).wf(),
        match r {
            Ok(_) => old(db)@.group_delete_refusal(group_id) is None && old(db)@.template_group(
                group_id,
            ) is Some && final(db)@ == (DatabaseView {
                template_groups: old(db)@.template_groups.remove(
                    first_index(old(db)@.template_groups, TaskTemplateGroupView::with_id(group_id)),
                ),
                ..old(db)@
            }),
            Err(e) => final(db)@ == old(db)@ && e@ == match old(db)@.group_delete_refusal(
                group_id,
            ) {
                Some(refused) => refused,
                None => refusal(ErrorKind::NotFound, GROUP_NOT_FOUND@),
            } && (old(db)@.group_delete_refusal(group_id) is None ==> old(db)@.template_group(
                group_id,
            ) is None),
        },
{
    match TaskTemplateGroup::delete(db, group_id) {
        Err(e) => Err(e),
        Ok(count) => {
            if count == 0 {
                Err(EngineError::not_found(GROUP_NOT_FOUND))
            } else {
                Ok(())
            }
        },
    }
}

} // verus!
