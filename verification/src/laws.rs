//! What holds of the engine as a whole, stated over the views of its data
//! and proved from the definitions that the contracts use.

use crate::database::DatabaseView;
use crate::error::{refusal, EngineErrorView, ErrorKind};
use crate::models::task_relationship::{
    create_refusal, created_relationship, grouped, lemma_type_ids, newest_first, of_type, type_ids,
    update_refusal, with_relationship, without_relationships, EdgeFilter,
    TaskRelationshipGroupedView, TaskRelationshipView, TaskRelationshipWithDetailsView,
    SELF_REFERENCE,
};
use crate::models::task_relationship_type::{
    created_type, delete_refusal, merged_type, name_of_another, not_empty,
    CreateTaskRelationshipTypeView, TaskRelationshipTypeView, UpdateTaskRelationshipTypeView,
    BLOCKING_NEEDS_STATUSES, DIRECTIONAL_NEEDS_LABELS, SYSTEM_TYPE_KEPT,
};
use crate::status::TaskStatus;
use crate::table::{
    first_index, kept, lemma_first_index, lemma_first_index_is, lemma_kept, lemma_ordered, ordered,
    strict_weak,
};
use crate::text::{lemma_text_order_asymmetric, lemma_text_order_transitive, text_before};
use vstd::prelude::*;

verus! {

/// In a well-formed store every directional type has both labels, and
/// every type that enforces blocking has both status sets, each stored as
/// a JSON list of strings that is not empty.
pub proof fn law_stored_types_are_complete(db: DatabaseView, id: u128)
    requires
        db.wf(),
    ensures
        db.relationship_type(id) matches Some(ty) ==> ty.complete(),
{
    lemma_first_index(db.relationship_types, TaskRelationshipTypeView::with_id(id));
}

/// A request to create a directional type is refused as a validation error
/// if one of the two labels is missing. With both labels, a request that
/// breaks no other rule is accepted.
pub proof fn law_create_needs_labels(
    db: DatabaseView,
    data: CreateTaskRelationshipTypeView,
    id: u128,
)
    ensures
        data.is_directional && (data.forward_label is None || data.reverse_label is None)
            ==> crate::models::task_relationship_type::create_refusal(db, data, id) == Some(
            refusal(ErrorKind::Validation, DIRECTIONAL_NEEDS_LABELS@),
        ),
        data.is_directional && data.forward_label is Some && data.reverse_label is Some && (
        data.enforces_blocking ==> not_empty(data.blocking_disabled_statuses) && not_empty(
            data.blocking_source_statuses,
        ) && created_type(data, id, false, 0).gated()) && db.relationship_type_named(data.name)
            is None && db.relationship_type(id) is None
            ==> crate::models::task_relationship_type::create_refusal(db, data, id) is None,
{
}

/// A request to change a type is refused as a validation error if the
/// merged type is directional and one of its two labels is missing,
/// whether or not the request touches the labels. With both labels, a
/// request that breaks no other rule is accepted.
pub proof fn law_update_needs_labels(
    db: DatabaseView,
    id: u128,
    data: UpdateTaskRelationshipTypeView,
)
    requires
        db.relationship_type(id) is Some,
    ensures
        ({
            let merged = merged_type(db.relationship_type(id)->0, data, 0);
            &&& merged.is_directional && (merged.forward_label is None || merged.reverse_label
                is None) ==> crate::models::task_relationship_type::update_refusal(db, id, data)
                == Some(refusal(ErrorKind::Validation, DIRECTIONAL_NEEDS_LABELS@))
            &&& merged.is_directional && merged.forward_label is Some && merged.reverse_label
                is Some && (merged.enforces_blocking ==> not_empty(data.blocking_disabled_statuses)
                && not_empty(data.blocking_source_statuses) && merged.gated()) && !name_of_another(
                db,
                id,
                data.name,
            ) ==> crate::models::task_relationship_type::update_refusal(db, id, data) is None
        }),
{
}

/// A request to create a type that enforces blocking is refused as a
/// validation error if one of the two status sets is missing or empty,
/// whatever else the request holds. With both sets, neither of them empty,
/// and each read back from its text as a list that is not empty, a request
/// that breaks no other rule is accepted.
pub proof fn law_create_needs_status_sets(
    db: DatabaseView,
    data: CreateTaskRelationshipTypeView,
    id: u128,
)
    ensures
        data.enforces_blocking && (data.blocking_disabled_statuses is None
            || data.blocking_source_statuses is None
            || data.blocking_disabled_statuses->0.len() == 0
            || data.blocking_source_statuses->0.len() == 0)
            ==> crate::models::task_relationship_type::create_refusal(db, data, id) is Some
            && crate::models::task_relationship_type::create_refusal(db, data, id)->0.kind
            == ErrorKind::Validation,
        data.enforces_blocking && (data.blocking_disabled_statuses is None
            || data.blocking_source_statuses is None
            || data.blocking_disabled_statuses->0.len() == 0
            || data.blocking_source_statuses->0.len() == 0) && (data.is_directional
            ==> data.forward_label is Some && data.reverse_label is Some)
            ==> crate::models::task_relationship_type::create_refusal(db, data, id) == Some(
            refusal(ErrorKind::Validation, BLOCKING_NEEDS_STATUSES@),
        ),
        data.enforces_blocking && data.blocking_disabled_statuses is Some
            && data.blocking_source_statuses is Some && data.blocking_disabled_statuses->0.len()
            > 0 && data.blocking_source_statuses->0.len() > 0 && created_type(
            data,
            id,
            false,
            0,
        ).gated() && (data.is_directional ==> data.forward_label is Some && data.reverse_label
            is Some) && db.relationship_type_named(data.name) is None && db.relationship_type(id)
            is None ==> crate::models::task_relationship_type::create_refusal(db, data, id)
            is None,
{
}

/// A request to change a type is refused as a validation error if the
/// merged type enforces blocking and one of its two status sets is
/// missing, or a set given is empty. This holds in particular of a request
/// that only switches blocking on while no status set is stored: the rule
/// is checked on the merged type, not on the fields of the request. With
/// both sets, given or stored, each read back from its text as a list that
/// is not empty, a request that breaks no other rule is accepted.
pub proof fn law_update_needs_status_sets(
    db: DatabaseView,
    id: u128,
    data: UpdateTaskRelationshipTypeView,
)
    requires
        db.relationship_type(id) is Some,
    ensures
        ({
            let stored = db.relationship_type(id)->0;
            let merged = merged_type(stored, data, 0);
            let refused = crate::models::task_relationship_type::update_refusal(db, id, data);
            &&& merged.enforces_blocking && (merged.blocking_disabled_statuses is None
                || merged.blocking_source_statuses is None || !not_empty(
                data.blocking_disabled_statuses,
            ) || !not_empty(data.blocking_source_statuses)) ==> refused is Some && refused->0.kind
                == ErrorKind::Validation
            &&& data.enforces_blocking == Some(true) && data.blocking_disabled_statuses is None
                && data.blocking_source_statuses is None && (stored.blocking_disabled_statuses
                is None || stored.blocking_source_statuses is None) ==> refused is Some
                && refused->0.kind == ErrorKind::Validation
            &&& merged.enforces_blocking && not_empty(data.blocking_disabled_statuses)
                && not_empty(data.blocking_source_statuses) && merged.gated() && merged.labelled()
                && !name_of_another(db, id, data.name) ==> refused is None
        }),
{
}

/// In a well-formed store no relationship joins a task to itself.
pub proof fn law_no_stored_self_reference(db: DatabaseView, id: u128)
    requires
        db.wf(),
    ensures
        db.stored_relationship(id) matches Some(r) ==> r.source_task_id != r.target_task_id,
{
    lemma_first_index(db.relationships, TaskRelationshipView::with_id(id));
}

/// A request to create a relationship from a task to itself is refused as
/// a validation error, whatever else it holds.
pub proof fn law_create_rejects_self_reference(
    db: DatabaseView,
    task: u128,
    relationship_type_id: u128,
    id: u128,
)
    ensures
        create_refusal(db, task, task, relationship_type_id, id) == Some(
            refusal(ErrorKind::Validation, SELF_REFERENCE@),
        ),
{
}

/// A request to change a relationship that can be read is refused as a
/// validation error if the target it is to have is its source, whether
/// the request names that target or leaves the stored one.
pub proof fn law_update_rejects_self_reference(
    db: DatabaseView,
    id: u128,
    target_task_id: Option<u128>,
    relationship_type_id: Option<u128>,
)
    requires
        db.relationship(id) is Some,
        db.relationship(id)->0.source_task_id == match target_task_id {
            Some(target) => target,
            None => db.relationship(id)->0.target_task_id,
        },
    ensures
        update_refusal(db, id, target_task_id, relationship_type_id) == Some(
            refusal(ErrorKind::Validation, SELF_REFERENCE@),
        ),
{
}

/// Deleting a built-in type is always forbidden; deleting any other type
/// that exists is never refused.
pub proof fn law_delete_spares_system_types(db: DatabaseView, id: u128)
    requires
        db.relationship_type(id) is Some,
    ensures
        db.relationship_type(id)->0.is_system ==> delete_refusal(db, id) == Some(
            refusal(ErrorKind::Forbidden, SYSTEM_TYPE_KEPT@),
        ),
        !db.relationship_type(id)->0.is_system ==> delete_refusal(db, id) is None,
{
}

/// A relationship that has just been created is found again with its
/// details, and these hold the source, the target and the type of the
/// request, and its note and payload, provided that the source task is
/// stored.
pub proof fn law_created_relationship_is_found(
    db: DatabaseView,
    source_task_id: u128,
    target_task_id: u128,
    relationship_type_id: u128,
    data: Option<Seq<char>>,
    note: Option<Seq<char>>,
    id: u128,
    now: i64,
)
    requires
        create_refusal(db, source_task_id, target_task_id, relationship_type_id, id) is None,
        db.task(source_task_id) is Some,
    ensures
        ({
            let row = created_relationship(
                source_task_id,
                target_task_id,
                relationship_type_id,
                data,
                note,
                id,
                now,
            );
            let found = with_relationship(db, row).relationship_with_details(id);
            &&& found matches Ok(Some(details))
            &&& details.relationship.id == id
            &&& details.relationship.source_task_id == source_task_id
            &&& details.relationship.target_task_id == target_task_id
            &&& details.relationship.relationship_type_id == relationship_type_id
            &&& details.relationship.note == note
            &&& details.relationship.data == data
            &&& details.relationship.created_at == now
            &&& Some(details.source_task) == db.task(source_task_id)
            &&& Some(details.target_task) == db.task(target_task_id)
            &&& Some(details.relationship_type) == db.relationship_type(relationship_type_id)
        }),
{
    let row = created_relationship(
        source_task_id,
        target_task_id,
        relationship_type_id,
        data,
        note,
        id,
        now,
    );
    let after = with_relationship(db, row);
    let wanted = TaskRelationshipView::with_id(id);
    lemma_first_index(db.relationships, wanted);
    assert forall|i: int| 0 <= i < db.relationships.len() implies !wanted(
        #[trigger] after.relationships[i],
    ) by {
        assert(after.relationships[i] == db.relationships[i]);
    }
    lemma_first_index_is(after.relationships, wanted, db.relationships.len() as int);
}

/// Two readings of the groups of a task from the same store are the same:
/// the groups, their order, and the forward and reverse relationships of
/// each.
pub proof fn law_grouping_is_repeatable(
    db: DatabaseView,
    task: u128,
    first: Result<Seq<TaskRelationshipGroupedView>, EngineErrorView>,
    second: Result<Seq<TaskRelationshipGroupedView>, EngineErrorView>,
)
    requires
        first == db.grouped_by_task(task),
        second == db.grouped_by_task(task),
    ensures
        first == second,
{
}

/// The groups divide the relationships by type: no two groups have the
/// same type, each group holds exactly the forward and the reverse
/// relationships of its type, and every relationship is of the type of
/// one of the groups.
pub proof fn law_groups_divide_by_type(
    forward: Seq<TaskRelationshipWithDetailsView>,
    reverse: Seq<TaskRelationshipWithDetailsView>,
)
    ensures
        grouped(forward, reverse).len() == type_ids(forward + reverse).len(),
        type_ids(forward + reverse).no_duplicates(),
        forall|k: int|
            0 <= k < grouped(forward, reverse).len() ==> {
                let group = #[trigger] grouped(forward, reverse)[k];
                let ty = type_ids(forward + reverse)[k];
                &&& group.relationship_type.id == ty
                &&& group.forward == kept(forward, of_type(ty))
                &&& group.reverse == kept(reverse, of_type(ty))
                &&& group.forward.len() + group.reverse.len() > 0
            },
        forall|i: int|
            0 <= i < forward.len() ==> type_ids(forward + reverse).contains(
                (#[trigger] forward[i]).relationship_type.id,
            ),
        forall|i: int|
            0 <= i < reverse.len() ==> type_ids(forward + reverse).contains(
                (#[trigger] reverse[i]).relationship_type.id,
            ),
{
    let all = forward + reverse;
    let ids = type_ids(all);
    lemma_type_ids(all);
    assert forall|k: int| 0 <= k < grouped(forward, reverse).len() implies {
        let group = #[trigger] grouped(forward, reverse)[k];
        let ty = ids[k];
        &&& group.relationship_type.id == ty
        &&& group.forward == kept(forward, of_type(ty))
        &&& group.reverse == kept(reverse, of_type(ty))
        &&& group.forward.len() + group.reverse.len() > 0
    } by {
        let ty = ids[k];
        lemma_first_index(all, of_type(ty));
        let at = first_index(all, of_type(ty));
        lemma_kept(forward, of_type(ty));
        lemma_kept(reverse, of_type(ty));
        if at < forward.len() {
            assert(all[at] == forward[at]);
            assert(kept(forward, of_type(ty)).contains(forward[at]));
        } else {
            assert(all[at] == reverse[at - forward.len()]);
            assert(kept(reverse, of_type(ty)).contains(reverse[at - forward.len()]));
        }
    }
    assert forall|i: int| 0 <= i < forward.len() implies ids.contains(
        (#[trigger] forward[i]).relationship_type.id,
    ) by {
        assert(all[i] == forward[i]);
    }
    assert forall|i: int| 0 <= i < reverse.len() implies ids.contains(
        (#[trigger] reverse[i]).relationship_type.id,
    ) by {
        assert(all[forward.len() + i] == reverse[i]);
    }
}

/// A type that does not enforce blocking allows every transition,
/// whatever the statuses of the source tasks.
pub proof fn law_non_blocking_type_allows(
    ty: TaskRelationshipTypeView,
    new_status: TaskStatus,
    observed: Seq<TaskStatus>,
)
    requires
        !ty.enforces_blocking,
    ensures
        ty.verdict(new_status, observed) is Allowed,
{
}

/// Where no stored type enforces blocking, every task may enter every
/// status: no relationship blocks, none objects, and of none is it open
/// whether it blocks.
pub proof fn law_without_blocking_types_all_may_enter(
    db: DatabaseView,
    task: u128,
    new_status: TaskStatus,
)
    requires
        forall|i: int|
            0 <= i < db.relationship_types.len() ==> !(
            #[trigger] db.relationship_types[i]).enforces_blocking,
    ensures
        db.blocking_fault(task) is None,
        db.may_enter(task, new_status),
        db.objection(task, new_status) is None,
{
    let edges = db.blocking_edges(task);
    assert forall|i: int| 0 <= i < edges.len() implies db.edge_verdict(
        #[trigger] edges[i],
        new_status,
    ) is Allowed by {
        let id = edges[i].0.relationship_type_id;
        lemma_first_index(db.relationship_types, TaskRelationshipTypeView::with_id(id));
    }
    assert forall|i: int| 0 <= i < edges.len() implies !(db.objecting(new_status))(
        #[trigger] edges[i],
    ) by {
        assert(db.edge_verdict(edges[i], new_status) is Allowed);
    }
    lemma_first_index_is(edges, db.objecting(new_status), edges.len() as int);
    assert forall|i: int| 0 <= i < db.relationships.len() implies !(db.undecided(task))(
        #[trigger] db.relationships[i],
    ) by {
        let id = db.relationships[i].relationship_type_id;
        lemma_first_index(db.relationship_types, TaskRelationshipTypeView::with_id(id));
    }
    lemma_first_index_is(db.relationships, db.undecided(task), db.relationships.len() as int);
}

/// A relationship that arrives at a task, and whose type enforces blocking
/// while its blocking source statuses cannot be read, keeps the task from
/// every status: the entry is refused with a deserialization error, and
/// never allowed in silence.
pub proof fn law_unreadable_blocker_fails_closed(
    db: DatabaseView,
    task: u128,
    new_status: TaskStatus,
    at: int,
    e: EngineErrorView,
)
    requires
        0 <= at < db.relationships.len(),
        db.relationships[at].target_task_id == task,
        db.relationship_type(db.relationships[at].relationship_type_id) matches Some(ty)
            && ty.enforces_blocking && !ty.sources().readable(),
        db.refuses_entry(task, new_status, e),
    ensures
        db.blocking_fault(task) is Some,
        e.kind == ErrorKind::Deserialization,
{
    lemma_first_index(db.relationships, db.undecided(task));
    assert((db.undecided(task))(db.relationships[at]));
}

/// Where none of the rows is read, nothing is selected.
proof fn lemma_nothing_selected<A, B>(rows: Seq<A>, reading: spec_fn(A) -> Option<B>)
    requires
        forall|i: int| 0 <= i < rows.len() ==> reading(#[trigger] rows[i]) is None,
    ensures
        rows.filter_map(reading).len() == 0,
    decreases rows.len(),
{
    if rows.len() > 0 {
        let init = rows.drop_last();
        assert forall|i: int| 0 <= i < init.len() implies reading(#[trigger] init[i]) is None by {
            assert(init[i] == rows[i]);
        }
        lemma_nothing_selected(init, reading);
        assert(reading(rows[rows.len() - 1]) is None);
    }
}

/// After the relationships of a task have been deleted, none that leaves
/// the task or arrives at it is stored, the listings by source and by
/// target of that task are empty, and every other relationship is still
/// stored.
pub proof fn law_cascade_removes_every_edge(db: DatabaseView, task: u128)
    ensures
        ({
            let after = without_relationships(db, EdgeFilter::Touching(task));
            &&& forall|i: int|
                0 <= i < after.relationships.len() ==> !(#[trigger] after.relationships[i]).touches(
                    task,
                )
            &&& after.listing(EdgeFilter::Source(task)).len() == 0
            &&& after.listing(EdgeFilter::Target(task)).len() == 0
            &&& forall|i: int|
                0 <= i < db.relationships.len() && !db.relationships[i].touches(task)
                    ==> after.relationships.contains(#[trigger] db.relationships[i])
            &&& forall|i: int|
                0 <= i < after.relationships.len() ==> db.relationships.contains(
                    #[trigger] after.relationships[i],
                )
        }),
{
    let keep = EdgeFilter::Touching(task).rejecting();
    let after = without_relationships(db, EdgeFilter::Touching(task));
    lemma_kept(db.relationships, keep);
    assert forall|i: int| 0 <= i < after.relationships.len() implies !(
    #[trigger] after.relationships[i]).touches(task) by {
        assert(keep(after.relationships[i]));
    }
    assert forall|i: int| 0 <= i < after.relationships.len() implies (after.reading(
        EdgeFilter::Source(task),
    ))(#[trigger] after.relationships[i]) is None by {
        assert(keep(after.relationships[i]));
    }
    assert forall|i: int| 0 <= i < after.relationships.len() implies (after.reading(
        EdgeFilter::Target(task),
    ))(#[trigger] after.relationships[i]) is None by {
        assert(keep(after.relationships[i]));
    }
    lemma_nothing_selected(after.relationships, after.reading(EdgeFilter::Source(task)));
    lemma_nothing_selected(after.relationships, after.reading(EdgeFilter::Target(task)));
    assert forall|i: int|
        0 <= i < db.relationships.len() && !db.relationships[i].touches(
            task,
        ) implies after.relationships.contains(#[trigger] db.relationships[i]) by {
        assert(keep(db.relationships[i]));
    }
}

/// A listing holds the relationships that were selected, each once, and
/// none of them stands behind an older one.
pub proof fn law_listing_is_newest_first(db: DatabaseView, filter: EdgeFilter)
    ensures
        db.listing(filter).to_multiset() == db.select(filter).to_multiset(),
        db.listing(filter).len() == db.select(filter).len(),
        forall|i: int, j: int|
            #![trigger db.listing(filter)[i], db.listing(filter)[j]]
            0 <= i < j < db.listing(filter).len() ==> db.listing(filter)[i].created_at
                >= db.listing(filter)[j].created_at,
{
    assert(strict_weak(newest_first()));
    lemma_ordered(db.select(filter), newest_first());
    let listing = db.listing(filter);
    assert forall|i: int, j: int|
        #![trigger listing[i], listing[j]]
        0 <= i < j < listing.len() implies listing[i].created_at >= listing[j].created_at by {
        assert(!(newest_first())(listing[j], listing[i]));
    }
}

/// The listing of the relationship types holds every type once, and no
/// type stands behind one with a later display name.
pub proof fn law_types_are_listed_by_display_name(db: DatabaseView)
    ensures
        ({
            let listing = ordered(
                db.relationship_types,
                TaskRelationshipTypeView::by_display_name(),
            );
            &&& listing.to_multiset() == db.relationship_types.to_multiset()
            &&& listing.len() == db.relationship_types.len()
            &&& forall|i: int, j: int|
                #![trigger listing[i], listing[j]]
                0 <= i < j < listing.len() ==> !text_before(
                    listing[j].display_name,
                    listing[i].display_name,
                )
        }),
{
    let before = TaskRelationshipTypeView::by_display_name();
    assert(strict_weak(before)) by {
        assert forall|a: TaskRelationshipTypeView, b: TaskRelationshipTypeView| #[trigger]
            before(a, b) implies !before(b, a) by {
            lemma_text_order_asymmetric(a.display_name, b.display_name);
        }
        assert forall|
            a: TaskRelationshipTypeView,
            b: TaskRelationshipTypeView,
            c: TaskRelationshipTypeView,
        | !#[trigger] before(a, b) && !#[trigger] before(b, c) implies !before(a, c) by {
            lemma_text_order_transitive(a.display_name, b.display_name, c.display_name);
        }
    }
    lemma_ordered(db.relationship_types, before);
    let listing = ordered(db.relationship_types, before);
    assert forall|i: int, j: int|
        #![trigger listing[i], listing[j]]
        0 <= i < j < listing.len() implies !text_before(
        listing[j].display_name,
        listing[i].display_name,
    ) by {
        assert(!before(listing[j], listing[i]));
    }
}

} // verus!
