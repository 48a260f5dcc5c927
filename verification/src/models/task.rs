//! Tasks and projects, as far as the relationship engine reads them.

use crate::blocking::check_status_transition;
use crate::database::{Database, DatabaseView};
use crate::error::{refusal, EngineError, ErrorKind};
use crate::models::task_relationship::{
    without_relationships, EdgeFilter, TaskRelationship, };
use crate::status::TaskStatus;
use crate::table::{
    first_index, lemma_distinct_push, lemma_distinct_remove,
    lemma_distinct_replace, lemma_first_index, lemma_first_index_is,
};
use crate::timestamp::Timestamp;
use vstd::prelude::*;

verus! {

// The messages of the refusals.

pub const TASK_NOT_FOUND: &'static str = "Task not found";

pub const TASK_ID_TAKEN: &'static str = "A task with this id already exists";

/// A unit of work in a project.
#[derive(Debug)]
pub struct Task {
    pub id: u128,
    pub project_id: u128,
    pub title: String,
    pub description: Option<String>,
    pub status: TaskStatus,
    pub parent_task_attempt: Option<u128>,
    pub created_at: Timestamp,
    pub updated_at: Timestamp,
}

/// The mathematical value of a [`Task`].
pub struct TaskView {
    pub id: u128,
    pub project_id: u128,
    pub title: Seq<char>,
    pub description: Option<Seq<char>>,
    pub status: TaskStatus,
    pub parent_task_attempt: Option<u128>,
    pub created_at: i64,
    pub updated_at: i64,
}

impl View for Task {
    type V = TaskView;

    open spec fn view(&self) -> TaskView {
        TaskView {
            id: self.id,
            project_id: self.project_id,
            title: self.title@,
            description: self.description.deep_view(),
            status: self.status,
            parent_task_attempt: self.parent_task_attempt,
            created_at: self.created_at@,
            updated_at: self.updated_at@,
        }
    }
}

impl DeepView for Task {
    type V = TaskView;

    open spec fn deep_view(&self) -> TaskView {
        self@
    }
}

impl Clone for Task {
    fn clone(&self) -> (copy: Self)
        ensures
            copy@ == self@,
    {
        Task {
            id: self.id,
            project_id: self.project_id,
            title: self.title.clone(),
            description: self.description.clone(),
            status: self.status,
            parent_task_attempt: self.parent_task_attempt,
            created_at: self.created_at,
            updated_at: self.updated_at,
        }
    }
}

impl TaskView {
    /// The key of a task: its id.
    pub open spec fn id_key() -> spec_fn(TaskView) -> u128 {
        |t: TaskView| t.id
    }

    /// The tasks with the given id.
    pub open spec fn with_id(id: u128) -> spec_fn(TaskView) -> bool {
        |t: TaskView| t.id == id
    }
}

impl Task {
    /// The place of the task with the given id among the tasks, or their
    /// number if there is none.
    pub(crate) fn position(db: &Database, id: u128) -> (at: usize)
        ensures
            at == first_index(db@.tasks, TaskView::with_id(id)),
            at <= db.tasks.len(),
            at < db.tasks.len() ==> db.tasks[at as int].id == id,
            db@.task(id) == if at < db.tasks.len() {
                Some(db.tasks[at as int]@)
            } else {
                None
            },
    {
        proof {
            db.lemma_view();
        }
        let mut at: usize = 0;
        while at < db.tasks.len() && db.tasks[at].id != id
            invariant
                at <= db.tasks.len(),
                forall|i: int| 0 <= i < at ==> db.tasks[i].id != id,
            decreases db.tasks.len() - at,
        {
            at += 1;
        }
        proof {
            lemma_first_index_is(db@.tasks, TaskView::with_id(id), at as int);
        }
        at
    }

    /// Adds a task to the store. An id that is in use is a validation
    /// error, and the store is then unchanged.
    pub fn insert(db: &mut Database, task: Task) -> (r: Result<(), EngineError>)
        requires
            old(db).wf(),
        ensures
            final(db).wf(),
            match r {
                Ok(_) => old(db)@.task(task.id) is None && final(db)@ == (DatabaseView {
                    tasks: old(db)@.tasks.push(task@),
                    ..old(db)@
                }),
                Err(e) => old(db)@.task(task.id) is Some && final(db)@ == old(db)@ && e@
                    == refusal(ErrorKind::Validation, TASK_ID_TAKEN@),
            },
    {
        if Task::position(db, task.id) < db.tasks.len() {
            return Err(EngineError::validation(TASK_ID_TAKEN));
        }
        let ghost added = task@;
        proof {
            db.lemma_view();
            lemma_first_index(db@.tasks, TaskView::with_id(task.id));
            lemma_distinct_push(db@.tasks, TaskView::id_key(), task@);
        }
        db.tasks.push(task);
        proof {
            db.lemma_view();
            assert(db.tasks.deep_view() =~= old(db)@.tasks.push(added));
        }
        Ok(())
    }

    /// Deletes a task, and with it every relationship that leaves it or
    /// arrives at it. Says how many tasks were deleted: one, or none if
    /// there was no such task.
    pub fn delete(db: &mut Database, id: u128) -> (count: u64)
        requires
            old(db).wf(),
        ensures
            final(db).wf(),
            final(db)@.relationships == without_relationships(
                old(db)@,
                EdgeFilter::Touching(id),
            ).relationships,
            final(db)@.relationship_types == old(db)@.relationship_types,
            final(db)@.tasks == if old(db)@.task(id) is Some {
                old(db)@.tasks.remove(first_index(old(db)@.tasks, TaskView::with_id(id)))
            } else {
                old(db)@.tasks
            },
            count == if old(db)@.task(id) is Some {
                1int
            } else {
                0int
            },
    {
        TaskRelationship::delete_by_task(db, id);
        let at = Task::position(db, id);
        if at >= db.tasks.len() {
            return 0;
        }
        let ghost before = db@;
        proof {
            db.lemma_view();
            lemma_distinct_remove(db@.tasks, TaskView::id_key(), at as int);
        }
        db.tasks.remove(at);
        proof {
            db.lemma_view();
            assert(db.tasks.deep_view() =~= before.tasks.remove(at as int));
        }
        1
    }

    /// Moves a task to a new status, unless a relationship that blocks the
    /// task refuses it.
    ///
    /// A task that is not stored is not found. Otherwise the outcome of
    /// [`check_status_transition`] decides: if it refuses, be it for a
    /// veto or because a status set cannot be read, the store is unchanged
    /// and its refusal is handed back; if it allows, the task gets the new
    /// status and the new time of change.
    pub fn update_status(
        db: &mut Database,
        id: u128,
        new_status: TaskStatus,
        now: crate::timestamp::Timestamp,
    ) -> (r: Result<Task, EngineError>)
        requires
            old(db).wf(),
        ensures
            final(db).wf(),
            match r {
                Ok(task) => old(db)@.task(id) is Some && old(db)@.blocking_fault(id) is None && old(
                    db,
                )@.may_enter(id, new_status) && task@ == (TaskView {
                    status: new_status,
                    updated_at: now@,
                    ..old(db)@.task(id)->0
                }) && final(db)@ == (DatabaseView {
                    tasks: old(db)@.tasks.update(
                        first_index(old(db)@.tasks, TaskView::with_id(id)),
                        task@,
                    ),
                    ..old(db)@
                }),
                Err(e) => final(db)@ == old(db)@ && match old(db)@.task(id) {
                    None => e@ == refusal(ErrorKind::NotFound, TASK_NOT_FOUND@),
                    Some(_) => old(db)@.refuses_entry(id, new_status, e@),
                },
            },
    {
        let at = Task::position(db, id);
        if at >= db.tasks.len() {
            return Err(EngineError::not_found(TASK_NOT_FOUND));
        }
        match check_status_transition(db, id, new_status) {
            Ok(_) => {},
            Err(e) => {
                return Err(e);
            },
        }
        let stored = &db.tasks[at];
        let task = Task {
            id: stored.id,
            project_id: stored.project_id,
            title: stored.title.clone(),
            description: stored.description.clone(),
            status: new_status,
            parent_task_attempt: stored.parent_task_attempt,
            created_at: stored.created_at,
            updated_at: now,
        };
        let copy = task.clone();
        proof {
            db.lemma_view();
            let rows = db@.tasks;
            lemma_distinct_replace(rows, TaskView::id_key(), at as int, task@);
        }
        db.tasks.set(at, task);
        proof {
            db.lemma_view();
            assert(db.tasks.deep_view() =~= old(db)@.tasks.update(at as int, copy@));
        }
        Ok(copy)
    }

    /// The task with the given id.
    pub fn find_by_id(db: &Database, id: u128) -> (found: Option<Task>)
        ensures
            found.deep_view() == db@.task(id),
    {
        let at = Task::position(db, id);
        if at < db.tasks.len() {
            Some(db.tasks[at].clone())
        } else {
            None
        }
    }
}

/// A task together with what is known of the attempts to carry it out.
#[derive(Debug)]
pub struct TaskWithAttemptStatus {
    pub task: Task,
    pub has_in_progress_attempt: bool,
    pub has_merged_attempt: bool,
    pub last_attempt_failed: bool,
    pub executor: String,
}

/// The mathematical value of a [`TaskWithAttemptStatus`].
pub struct TaskWithAttemptStatusView {
    pub task: TaskView,
    pub has_in_progress_attempt: bool,
    pub has_merged_attempt: bool,
    pub last_attempt_failed: bool,
    pub executor: Seq<char>,
}

impl View for TaskWithAttemptStatus {
    type V = TaskWithAttemptStatusView;

    open spec fn view(&self) -> TaskWithAttemptStatusView {
        TaskWithAttemptStatusView {
            task: self.task@,
            has_in_progress_attempt: self.has_in_progress_attempt,
            has_merged_attempt: self.has_merged_attempt,
            last_attempt_failed: self.last_attempt_failed,
            executor: self.executor@,
        }
    }
}

impl DeepView for TaskWithAttemptStatus {
    type V = TaskWithAttemptStatusView;

    open spec fn deep_view(&self) -> TaskWithAttemptStatusView {
        self@
    }
}

impl Clone for TaskWithAttemptStatus {
    fn clone(&self) -> (copy: Self)
        ensures
            copy@ == self@,
    {
        TaskWithAttemptStatus {
            task: self.task.clone(),
            has_in_progress_attempt: self.has_in_progress_attempt,
            has_merged_attempt: self.has_merged_attempt,
            last_attempt_failed: self.last_attempt_failed,
            executor: self.executor.clone(),
        }
    }
}

/// A project: a repository and the scripts that go with it.
#[derive(Debug)]
pub struct Project {
    pub id: u128,
    pub name: String,
    pub git_repo_path: String,
    pub setup_script: Option<String>,
    pub dev_script: Option<String>,
    pub cleanup_script: Option<String>,
    pub copy_files: Option<String>,
    pub created_at: Timestamp,
    pub updated_at: Timestamp,
}

/// The mathematical value of a [`Project`].
pub struct ProjectView {
    pub id: u128,
    pub name: Seq<char>,
    pub git_repo_path: Seq<char>,
    pub setup_script: Option<Seq<char>>,
    pub dev_script: Option<Seq<char>>,
    pub cleanup_script: Option<Seq<char>>,
    pub copy_files: Option<Seq<char>>,
    pub created_at: i64,
    pub updated_at: i64,
}

impl View for Project {
    type V = ProjectView;

    open spec fn view(&self) -> ProjectView {
        ProjectView {
            id: self.id,
            name: self.name@,
            git_repo_path: self.git_repo_path@,
            setup_script: self.setup_script.deep_view(),
            dev_script: self.dev_script.deep_view(),
            cleanup_script: self.cleanup_script.deep_view(),
            copy_files: self.copy_files.deep_view(),
            created_at: self.created_at@,
            updated_at: self.updated_at@,
        }
    }
}

impl DeepView for Project {
    type V = ProjectView;

    open spec fn deep_view(&self) -> ProjectView {
        self@
    }
}

impl Clone for Project {
    fn clone(&self) -> (copy: Self)
        ensures
            copy@ == self@,
    {
        Project {
            id: self.id,
            name: self.name.clone(),
            git_repo_path: self.git_repo_path.clone(),
            setup_script: self.setup_script.clone(),
            dev_script: self.dev_script.clone(),
            cleanup_script: self.cleanup_script.clone(),
            copy_files: self.copy_files.clone(),
            created_at: self.created_at,
            updated_at: self.updated_at,
        }
    }
}

} // verus!
