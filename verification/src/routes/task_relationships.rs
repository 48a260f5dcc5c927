//! The handlers for the relationships of a task.

use crate::database::{Database, DatabaseView};
use crate::error::{refusal, EngineError, EngineErrorView, ErrorKind};
use crate::models::task::{Task, TASK_NOT_FOUND};
use crate::models::task_relationship::{
    create_refusal, created_relationship, merged_relationship, payload_text, payload_writable,
    update_refusal, with_changed_relationship, with_relationship, without_relationships,
    CreateTaskRelationship, EdgeFilter, TaskRelationship, TaskRelationshipGrouped,
    TaskRelationshipGroupedView, UpdateTaskRelationship, PAYLOAD_NOT_WRITTEN,
    RELATIONSHIP_ID_TAKEN, RELATIONSHIP_NOT_FOUND, SELF_REFERENCE,
};
use crate::models::task_relationship_type::{TaskRelationshipType, TYPE_NOT_FOUND};
use crate::timestamp::Timestamp;
use vstd::prelude::*;

verus! {

/// The message for a relationship that is asked for through a task that
/// is neither its source nor its target.
pub const NOT_OF_THE_TASK: &'static str = "Relationship does not belong to the task";

/// Why a request on a relationship of a task is refused before it is
/// looked at, if it is: by the first of these rules that it breaks. The
/// task exists; the relationship can be read; the relationship leaves the
/// task or arrives at it.
pub open spec fn load_refusal(db: DatabaseView, task_id: u128, relationship_id: u128) -> Option<
    EngineErrorView,
> {
    if db.task(task_id) is None {
        Some(refusal(ErrorKind::NotFound, TASK_NOT_FOUND@))
    } else {
        match db.relationship(relationship_id) {
            None => Some(refusal(ErrorKind::NotFound, RELATIONSHIP_NOT_FOUND@)),
            Some(r) => if !r.touches(task_id) {
                Some(refusal(ErrorKind::Validation, NOT_OF_THE_TASK@))
            } else {
                None
            },
        }
    }
}

/// The relationship that a request names, which must be one of the given
/// task.
pub fn load_relationship(db: &Database, task_id: u128, relationship_id: u128) -> (r: Result<
    TaskRelationship,
    EngineError,
>)
    ensures
        match r {
            Ok(row) => load_refusal(db@, task_id, relationship_id) is None && db@.relationship(
                relationship_id,
            ) == Some(row@),
            Err(e) => load_refusal(db@, task_id, relationship_id) == Some(e@),
        },
{
    if Task::find_by_id(db, task_id).is_none() {
        return Err(EngineError::not_found(TASK_NOT_FOUND));
    }
    let row = match TaskRelationship::find_by_id(db, relationship_id) {
        Some(row) => row,
        None => {
            return Err(EngineError::not_found(RELATIONSHIP_NOT_FOUND));
        },
    };
    if row.source_task_id != task_id && row.target_task_id != task_id {
        return Err(EngineError::validation(NOT_OF_THE_TASK));
    }
    Ok(row)
}

/// The relationships of a task in groups by type. A task that is not
/// stored is not found.
pub fn get_task_relationships(db: &Database, task_id: u128) -> (r: Result<
    Vec<TaskRelationshipGrouped>,
    EngineError,
>)
    ensures
        match r {
            Ok(groups) => db@.task(task_id) is Some && db@.grouped_by_task(task_id) == Ok::<
                Seq<TaskRelationshipGroupedView>,
                EngineErrorView,
            >(groups.deep_view()),
            Err(e) => if db@.task(task_id) is None {
                e@ == refusal(ErrorKind::NotFound, TASK_NOT_FOUND@)
            } else {
                db@.grouped_by_task(task_id) == Err::<
                    Seq<TaskRelationshipGroupedView>,
                    EngineErrorView,
                >(e@)
            },
        },
{
    if Task::find_by_id(db, task_id).is_none() {
        return Err(EngineError::not_found(TASK_NOT_FOUND));
    }
    TaskRelationship::find_by_task(db, task_id)
}

/// Why the handler refuses a request to create a relationship before the
/// rules of the store are asked, if it does: the source task, the target
/// task or the type is not stored.
pub open spec fn create_precheck(
    db: DatabaseView,
    task_id: u128,
    target_task_id: u128,
    relationship_type_id: u128,
) -> Option<EngineErrorView> {
    if db.task(task_id) is None || db.task(target_task_id) is None {
        Some(refusal(ErrorKind::NotFound, TASK_NOT_FOUND@))
    } else if db.relationship_type(relationship_type_id) is None {
        Some(refusal(ErrorKind::NotFound, TYPE_NOT_FOUND@))
    } else {
        None
    }
}

/// Creates a relationship from the given task.
///
/// The source task, the target task and the type must be stored, in this
/// order; otherwise the request is not found. After that the outcome is
/// that of [`TaskRelationship::create`].
pub fn create_task_relationship(
    db: &mut Database,
    task_id: u128,
    payload: &CreateTaskRelationship,
    now: Timestamp,
) -> (r: Result<TaskRelationship, EngineError>)
    requires
        old(db).wf(),
    ensures
        final(db).wf(),
        match r {
            Ok(row) => create_precheck(
                old(db)@,
                task_id,
                payload.target_task_id,
                payload.relationship_type_id,
            ) is None && create_refusal(
                old(db)@,
                task_id,
                payload.target_task_id,
                payload.relationship_type_id,
                row.id,
            ) is None && payload_writable(payload.data) && row@ == created_relationship(
                task_id,
                payload.target_task_id,
                payload.relationship_type_id,
                payload_text(payload.data),
                payload.note.deep_view(),
                row.id,
                now@,
            ) && final(db)@ == with_relationship(old(db)@, row@),
            Err(e) => final(db)@ == old(db)@ && match create_precheck(
                old(db)@,
                task_id,
                payload.target_task_id,
                payload.relationship_type_id,
            ) {
                Some(refused) => e@ == refused,
                None => if task_id == payload.target_task_id {
                    e@ == refusal(ErrorKind::Validation, SELF_REFERENCE@)
                } else if !payload_writable(payload.data) {
                    e@ == refusal(ErrorKind::Deserialization, PAYLOAD_NOT_WRITTEN@)
                } else {
                    e@ == refusal(ErrorKind::Validation, RELATIONSHIP_ID_TAKEN@)
                        && exists|id: u128| old(db)@.stored_relationship(id) is Some
                },
            },
        },
        create_precheck(
            old(db)@,
            task_id,
            payload.target_task_id,
            payload.relationship_type_id,
        ) is Some || task_id == payload.target_task_id ==> r is Err,
{
    if Task::find_by_id(db, task_id).is_none() {
        return Err(EngineError::not_found(TASK_NOT_FOUND));
    }
    if Task::find_by_id(db, payload.target_task_id).is_none() {
        return Err(EngineError::not_found(TASK_NOT_FOUND));
    }
    if TaskRelationshipType::find_by_id(db, payload.relationship_type_id).is_none() {
        return Err(EngineError::not_found(TYPE_NOT_FOUND));
    }
    TaskRelationship::create(db, task_id, payload, now)
}

/// Changes a relationship of the given task.
///
/// The request is refused by the first rule of [`load_refusal`] that it
/// breaks. After that the outcome is that of
/// [`TaskRelationship::update`].
pub fn update_task_relationship(
    db: &mut Database,
    task_id: u128,
    relationship_id: u128,
    payload: &UpdateTaskRelationship,
    now: Timestamp,
) -> (r: Result<TaskRelationship, EngineError>)
    requires
        old(db).wf(),
    ensures
        final(db).wf(),
        match r {
            Ok(row) => load_refusal(old(db)@, task_id, relationship_id) is None && update_refusal(
                old(db)@,
                relationship_id,
                payload.target_task_id,
                payload.relationship_type_id,
            ) is None && payload_writable(payload.data) && old(db)@.stored_relationship(
                relationship_id,
            ) is Some && row@ == merged_relationship(
                old(db)@.stored_relationship(relationship_id)->0,
                payload.target_task_id,
                payload.relationship_type_id,
                payload_text(payload.data),
                payload.note.deep_view(),
                now@,
            ) && final(db)@ == with_changed_relationship(old(db)@, relationship_id, row@),
            Err(e) => final(db)@ == old(db)@ && match load_refusal(
                old(db)@,
                task_id,
                relationship_id,
            ) {
                Some(refused) => e@ == refused,
                None => match update_refusal(
                    old(db)@,
                    relationship_id,
                    payload.target_task_id,
                    payload.relationship_type_id,
                ) {
                    Some(refused) => e@ == refused,
                    None => !payload_writable(payload.data) && e@ == refusal(
                        ErrorKind::Deserialization,
                        PAYLOAD_NOT_WRITTEN@,
                    ),
                },
            },
        },
{
    match load_relationship(db, task_id, relationship_id) {
        Ok(_) => {},
        Err(e) => {
            return Err(e);
        },
    }
    TaskRelationship::update(db, relationship_id, payload, now)
}

/// Deletes a relationship of the given task.
///
/// The request is refused by the first rule of [`load_refusal`] that it
/// breaks. Otherwise the relationship is deleted.
pub fn delete_task_relationship(db: &mut Database, task_id: u128, relationship_id: u128) -> (r:
    Result<(), EngineError>)
    requires
        old(db).wf(),
    ensures
        final(db).wf(),
        match r {
            Ok(_) => load_refusal(old(db)@, task_id, relationship_id) is None && final(db)@
                == without_relationships(old(db)@, EdgeFilter::Id(relationship_id)) && final(db)@.stored_relationship(relationship_id) is None,
            Err(e) => load_refusal(old(db)@, task_id, relationship_id) == Some(e@) && final(db)@
                == old(db)@,
        },
{
    match load_relationship(db, task_id, relationship_id) {
        Ok(_) => {},
        Err(e) => {
            return Err(e);
        },
    }
    let count = TaskRelationship::delete(db, relationship_id);
    if count == 0 {
        return Err(EngineError::not_found(RELATIONSHIP_NOT_FOUND));
    }
    Ok(())
}

} // verus!
