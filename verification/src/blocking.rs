//! The check that stands before a change of status: may the task enter
//! the status, given the relationships that arrive at it?

use crate::database::{Database, DatabaseView};
use crate::error::{EngineError, EngineErrorView};
use crate::models::task::TaskView;
use crate::models::task_relationship::{TaskRelationship, TaskRelationshipView};
use crate::models::task_relationship_type::{
    TaskRelationshipType, Verdict,
};
use crate::status::TaskStatus;
use crate::table::{first_match, lemma_first_index_is};
use vstd::prelude::*;

verus! {

impl DatabaseView {
    /// How the type of a blocking relationship answers the transition of
    /// its target to `new_status`, given the status of its source task.
    pub open spec fn edge_verdict(
        self,
        edge: (TaskRelationshipView, TaskView),
        new_status: TaskStatus,
    ) -> Verdict {
        match self.relationship_type(edge.0.relationship_type_id) {
            Some(ty) => ty.verdict(new_status, seq![edge.1.status]),
            None => Verdict::Allowed,
        }
    }

    /// The blocking relationships whose type does not allow the
    /// transition.
    pub open spec fn objecting(self, new_status: TaskStatus) -> spec_fn(
        (TaskRelationshipView, TaskView),
    ) -> bool {
        |edge: (TaskRelationshipView, TaskView)| !(self.edge_verdict(edge, new_status) is Allowed)
    }

    /// The first of the relationships that block `task` whose type does not
    /// allow the transition to `new_status`.
    pub open spec fn objection(self, task: u128, new_status: TaskStatus) -> Option<
        (TaskRelationshipView, TaskView),
    > {
        first_match(self.blocking_edges(task), self.objecting(new_status))
    }

    /// Whether `e` is the refusal of the transition: that of the type of
    /// the first relationship that objects.
    pub open spec fn refuses_transition(
        self,
        task: u128,
        new_status: TaskStatus,
        e: EngineErrorView,
    ) -> bool {
        &&& self.objection(task, new_status) matches Some(edge)
        &&& self.relationship_type(edge.0.relationship_type_id) matches Some(ty)
        &&& ty.refuses_with(new_status, seq![edge.1.status], e)
    }

    /// Whether `e` is the refusal of the entry of `task` into
    /// `new_status`: the report of a relationship of which it cannot be
    /// said whether it blocks, if there is one; else the refusal of the
    /// type of the first relationship that objects.
    pub open spec fn refuses_entry(
        self,
        task: u128,
        new_status: TaskStatus,
        e: EngineErrorView,
    ) -> bool {
        if self.blocking_fault(task) is Some {
            self.reports_blocking_fault(task, e)
        } else {
            !self.may_enter(task, new_status) && self.refuses_transition(task, new_status, e)
        }
    }

    /// Whether `task` may enter `new_status`: the type of every
    /// relationship that blocks it allows the transition.
    pub open spec fn may_enter(self, task: u128, new_status: TaskStatus) -> bool {
        forall|i: int|
            0 <= i < self.blocking_edges(task).len() ==> self.edge_verdict(
                #[trigger] self.blocking_edges(task)[i],
                new_status,
            ) is Allowed
    }
}

/// Decides whether `task_id` may enter `new_status`.
///
/// The relationships that block the task are found first. If it cannot be
/// said of one of them whether it blocks, because the blocking source
/// statuses of its type cannot be read, the transition is refused with
/// that deserialization error: nothing that may block is passed over.
///
/// Otherwise every relationship that blocks the task is asked through its
/// type, in the order in which the relationships are stored. The first
/// type that does not allow the transition refuses it: forbidden for a
/// veto, a deserialization error where its disabled statuses cannot be
/// read. One refusal is enough.
pub fn check_status_transition(db: &Database, task_id: u128, new_status: TaskStatus) -> (r: Result<
    (),
    EngineError,
>)
    ensures
        match r {
            Ok(_) => db@.blocking_fault(task_id) is None && db@.may_enter(task_id, new_status)
                && db@.objection(task_id, new_status) is None,
            Err(e) => db@.refuses_entry(task_id, new_status, e@),
        },
        r is Ok <==> db@.blocking_fault(task_id) is None && db@.may_enter(task_id, new_status),
{
    let edges = match TaskRelationship::find_blocking_relationships(db, task_id) {
        Ok(edges) => edges,
        Err(e) => {
            return Err(e);
        },
    };
    let ghost all = db@.blocking_edges(task_id);
    let ghost objecting = db@.objecting(new_status);
    let mut i: usize = 0;
    while i < edges.len()
        invariant
            i <= edges.len(),
            all == edges.deep_view(),
            all == db@.blocking_edges(task_id),
            db@.blocking_fault(task_id) is None,
            objecting == db@.objecting(new_status),
            forall|j: int| 0 <= j < i ==> !objecting(#[trigger] all[j]),
        decreases edges.len() - i,
    {
        proof {
            assert(all[i as int] == (edges[i as int].0@, edges[i as int].1@));
        }
        match TaskRelationshipType::find_by_id(db, edges[i].0.relationship_type_id) {
            Some(ty) => {
                let observed: Vec<TaskStatus> = vec![edges[i].1.status];
                proof {
                    assert(observed@ =~= seq![edges[i as int].1.status]);
                }
                match ty.validate_blocking_status(&new_status, observed.as_slice()) {
                    Ok(_) => {},
                    Err(e) => {
                        proof {
                            lemma_first_index_is(all, objecting, i as int);
                            assert(!db@.may_enter(task_id, new_status)) by {
                                assert(objecting(all[i as int]));
                            }
                        }
                        return Err(e);
                    },
                }
            },
            None => {},
        }
        i += 1;
    }
    proof {
        lemma_first_index_is(all, objecting, all.len() as int);
        assert forall|j: int| 0 <= j < all.len() implies db@.edge_verdict(
            #[trigger] all[j],
            new_status,
        ) is Allowed by {
            assert(!objecting(all[j]));
        }
    }
    Ok(())
}

} // verus!
