//! The handlers for relationship types.

use crate::database::{Database, DatabaseView};
use crate::error::{refusal, EngineError, ErrorKind};
use crate::models::task_relationship_type::{
    create_refusal, created_type, delete_refusal, merged_type, update_refusal, without_type,
    CreateTaskRelationshipType, TaskRelationshipType, TaskRelationshipTypeView,
    UpdateTaskRelationshipType, TYPE_NOT_FOUND,
};
use crate::table::{first_index, kept, ordered};
use crate::text::{matches_search, text_matches};
use crate::timestamp::Timestamp;
use vstd::prelude::*;

verus! {

/// The query of a listing of relationship types.
#[derive(Debug)]
pub struct RelationshipTypeSearchParams {
    pub search: Option<String>,
}

/// The types whose name or display name matches the search.
pub open spec fn type_matches(search: Seq<char>) -> spec_fn(TaskRelationshipTypeView) -> bool {
    |t: TaskRelationshipTypeView|
        matches_search(t.name, search) || matches_search(t.display_name, search)
}

/// The relationship type that a request names; not found if it is not
/// stored.
pub fn load_relationship_type(db: &Database, type_id: u128) -> (r: Result<
    TaskRelationshipType,
    EngineError,
>)
    ensures
        match r {
            Ok(ty) => db@.relationship_type(type_id) == Some(ty@),
            Err(e) => db@.relationship_type(type_id) is None && e@ == refusal(
                ErrorKind::NotFound,
                TYPE_NOT_FOUND@,
            ),
        },
{
    match TaskRelationshipType::find_by_id(db, type_id) {
        Some(ty) => Ok(ty),
        None => Err(EngineError::not_found(TYPE_NOT_FOUND)),
    }
}

/// The relationship types by display name; with a search, those of them
/// whose name or display name holds the search text, whatever the case of
/// the letters.
pub fn get_relationship_types(db: &Database, params: &RelationshipTypeSearchParams) -> (found: Vec<
    TaskRelationshipType,
>)
    ensures
        found.deep_view() == match params.search {
            Some(search) => kept(
                ordered(db@.relationship_types, TaskRelationshipTypeView::by_display_name()),
                type_matches(search@),
            ),
            None => ordered(db@.relationship_types, TaskRelationshipTypeView::by_display_name()),
        },
{
    let types = TaskRelationshipType::find_all(db);
    match &params.search {
        None => types,
        Some(search) => {
            let ghost rows = types.deep_view();
            let ghost keep = type_matches(search@);
            let mut found: Vec<TaskRelationshipType> = Vec::new();
            let mut i: usize = 0;
            while i < types.len()
                invariant
                    i <= types.len(),
                    rows == types.deep_view(),
                    keep == type_matches(search@),
                    found.deep_view() == kept(rows.take(i as int), keep),
                decreases types.len() - i,
            {
                proof {
                    assert(rows.take(i + 1).drop_last() =~= rows.take(i as int));
                    assert(rows[i as int] == types[i as int]@);
                }
                if text_matches(types[i].name.as_str(), search.as_str()) || text_matches(
                    types[i].display_name.as_str(),
                    search.as_str(),
                ) {
                    let ghost before = found.deep_view();
                    found.push(types[i].clone());
                    proof {
                        assert(found.deep_view() =~= before.push(rows[i as int]));
                    }
                }
                i += 1;
            }
            proof {
                assert(rows.take(rows.len() as int) =~= rows);
            }
            found
        },
    }
}

/// The relationship type with the given id; not found if it is not
/// stored.
pub fn get_relationship_type(db: &Database, type_id: u128) -> (r: Result<
    TaskRelationshipType,
    EngineError,
>)
    ensures
        match r {
            Ok(ty) => db@.relationship_type(type_id) == Some(ty@),
            Err(e) => db@.relationship_type(type_id) is None && e@ == refusal(
                ErrorKind::NotFound,
                TYPE_NOT_FOUND@,
            ),
        },
{
    load_relationship_type(db, type_id)
}

/// Creates a relationship type. The rules are those of
/// [`TaskRelationshipType::create`], which checks them for every caller.
pub fn create_relationship_type(
    db: &mut Database,
    payload: &CreateTaskRelationshipType,
    now: Timestamp,
) -> (r: Result<TaskRelationshipType, EngineError>)
    requires
        old(db).wf(),
    ensures
        final(db).wf(),
        match r {
            Ok(row) => create_refusal(old(db)@, payload@, row.id) is None && row@ == created_type(
                payload@,
                row.id,
                false,
                now@,
            ) && final(db)@ == (DatabaseView {
                relationship_types: old(db)@.relationship_types.push(row@),
                ..old(db)@
            }),
            Err(e) => final(db)@ == old(db)@ && exists|id: u128|
                create_refusal(old(db)@, payload@, id) == Some(e@),
        },
{
    TaskRelationshipType::create(db, payload, now)
}

/// Changes a relationship type; not found if it is not stored. The rules
/// are those of [`TaskRelationshipType::update`], which checks them for
/// every caller.
pub fn update_relationship_type(
    db: &mut Database,
    type_id: u128,
    payload: &UpdateTaskRelationshipType,
    now: Timestamp,
) -> (r: Result<TaskRelationshipType, EngineError>)
    requires
        old(db).wf(),
    ensures
        final(db).wf(),
        match r {
            Ok(row) => update_refusal(old(db)@, type_id, payload@) is None && old(
                db,
            )@.relationship_type(type_id) is Some && row@ == merged_type(
                old(db)@.relationship_type(type_id)->0,
                payload@,
                now@,
            ) && final(db)@ == (DatabaseView {
                relationship_types: old(db)@.relationship_types.update(
                    first_index(
                        old(db)@.relationship_types,
                        TaskRelationshipTypeView::with_id(type_id),
                    ),
                    row@,
                ),
                ..old(db)@
            }),
            Err(e) => update_refusal(old(db)@, type_id, payload@) == Some(e@) && final(db)@ == old(
                db,
            )@,
        },
{
    TaskRelationshipType::update(db, type_id, payload, now)
}

/// Deletes a relationship type, and with it the relationships of that
/// type. The rules are those of [`TaskRelationshipType::delete`].
pub fn delete_relationship_type(db: &mut Database, type_id: u128) -> (r: Result<(), EngineError>)
    requires
        old(db).wf(),
    ensures
        final(db).wf(),
        match r {
            Ok(_) => delete_refusal(old(db)@, type_id) is None && final(db)@ == without_type(
                old(db)@,
                type_id,
            ),
            Err(e) => delete_refusal(old(db)@, type_id) == Some(e@) && final(db)@ == old(db)@,
        },
{
    match TaskRelationshipType::delete(db, type_id) {
        Ok(_) => Ok(()),
        Err(e) => Err(e),
    }
}

} // verus!
