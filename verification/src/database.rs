//! The store: the tables that the engine reads and writes.

use crate::models::task::{Task, TaskView};
use crate::models::task_relationship::{TaskRelationship, TaskRelationshipView};
use crate::models::task_relationship_type::{
    text_holds_statuses, TaskRelationshipType, TaskRelationshipTypeView,
};
use crate::models::task_template::{TaskTemplate, TaskTemplateView};
use crate::models::task_template_group::{TaskTemplateGroup, TaskTemplateGroupView};
use crate::error::{EngineError, ErrorKind};
use crate::table::{distinct_by, first_match, lemma_distinct_by_keys, no_repeats};
use crate::text::text_eq;
use vstd::prelude::*;

verus! {

/// The tables of the store. Rows stand in the order in which they were
/// added.
#[derive(Debug)]
pub struct Database {
    pub(crate) tasks: Vec<Task>,
    pub(crate) relationship_types: Vec<TaskRelationshipType>,
    pub(crate) relationships: Vec<TaskRelationship>,
    pub(crate) template_groups: Vec<TaskTemplateGroup>,
    pub(crate) templates: Vec<TaskTemplate>,
}

/// The mathematical value of a [`Database`].
pub struct DatabaseView {
    pub tasks: Seq<TaskView>,
    pub relationship_types: Seq<TaskRelationshipTypeView>,
    pub relationships: Seq<TaskRelationshipView>,
    pub template_groups: Seq<TaskTemplateGroupView>,
    pub templates: Seq<TaskTemplateView>,
}

impl View for Database {
    type V = DatabaseView;

    closed spec fn view(&self) -> DatabaseView {
        DatabaseView {
            tasks: self.tasks.deep_view(),
            relationship_types: self.relationship_types.deep_view(),
            relationships: self.relationships.deep_view(),
            template_groups: self.template_groups.deep_view(),
            templates: self.templates.deep_view(),
        }
    }
}

impl DatabaseView {
    /// The task with the given id.
    pub open spec fn task(self, id: u128) -> Option<TaskView> {
        first_match(self.tasks, TaskView::with_id(id))
    }

    /// The relationship type with the given id.
    pub open spec fn relationship_type(self, id: u128) -> Option<TaskRelationshipTypeView> {
        first_match(self.relationship_types, TaskRelationshipTypeView::with_id(id))
    }

    /// The relationship type with the given name.
    pub open spec fn relationship_type_named(self, name: Seq<char>) -> Option<
        TaskRelationshipTypeView,
    > {
        first_match(self.relationship_types, TaskRelationshipTypeView::with_name(name))
    }

    /// The stored relationship with the given id.
    pub open spec fn stored_relationship(self, id: u128) -> Option<TaskRelationshipView> {
        first_match(self.relationships, TaskRelationshipView::with_id(id))
    }

    /// The invariant of the store: ids occur once in each table, the names
    /// of types and of templates occur once, every type is complete (a
    /// directional type has both labels, a type that enforces blocking has
    /// two status sets that are not empty), and no relationship joins a
    /// task to itself.
    pub open spec fn wf(self) -> bool {
        &&& distinct_by(self.tasks, TaskView::id_key())
        &&& distinct_by(self.relationship_types, TaskRelationshipTypeView::id_key())
        &&& distinct_by(self.relationship_types, TaskRelationshipTypeView::name_key())
        &&& forall|i: int|
            0 <= i < self.relationship_types.len() ==> (
            #[trigger] self.relationship_types[i]).complete()
        &&& distinct_by(self.relationships, TaskRelationshipView::id_key())
        &&& forall|i: int|
            0 <= i < self.relationships.len() ==> (#[trigger] self.relationships[i]).source_task_id
                != self.relationships[i].target_task_id
        &&& distinct_by(self.template_groups, TaskTemplateGroupView::id_key())
        &&& distinct_by(self.templates, TaskTemplateView::id_key())
        &&& distinct_by(self.templates, TaskTemplateView::name_key())
    }
}

/// The message for rows that cannot be loaded.
pub const TABLES_MALFORMED: &'static str = "The rows break the invariant of the store";

/// Whether no number occurs twice.
fn numbers_distinct(numbers: &Vec<u128>) -> (distinct: bool)
    ensures
        distinct == no_repeats(numbers@),
{
    let mut j: usize = 0;
    while j < numbers.len()
        invariant
            j <= numbers.len(),
            forall|a: int, b: int| 0 <= a < b < j ==> numbers[a] != numbers[b],
        decreases numbers.len() - j,
    {
        let mut i: usize = 0;
        while i < j
            invariant
                i <= j,
                j < numbers.len(),
                forall|a: int| 0 <= a < i ==> numbers[a] != numbers[j as int],
            decreases j - i,
        {
            if numbers[i] == numbers[j] {
                return false;
            }
            i += 1;
        }
        j += 1;
    }
    true
}

/// Whether no text occurs twice.
fn texts_distinct(texts: &Vec<String>) -> (distinct: bool)
    ensures
        distinct == no_repeats(texts.deep_view()),
{
    let mut j: usize = 0;
    while j < texts.len()
        invariant
            j <= texts.len(),
            forall|a: int, b: int| 0 <= a < b < j ==> texts[a]@ != texts[b]@,
        decreases texts.len() - j,
    {
        let mut i: usize = 0;
        while i < j
            invariant
                i <= j,
                j < texts.len(),
                forall|a: int| 0 <= a < i ==> texts[a]@ != texts[j as int]@,
            decreases j - i,
        {
            if text_eq(texts[i].as_str(), texts[j].as_str()) {
                proof {
                    assert(texts.deep_view()[i as int] == texts.deep_view()[j as int]);
                }
                return false;
            }
            i += 1;
        }
        j += 1;
    }
    true
}

impl Database {
    /// A store that holds the given rows, if they keep the invariant of
    /// the store; a validation error if they do not.
    pub fn from_tables(
        tasks: Vec<Task>,
        relationship_types: Vec<TaskRelationshipType>,
        relationships: Vec<TaskRelationship>,
        template_groups: Vec<TaskTemplateGroup>,
        templates: Vec<TaskTemplate>,
    ) -> (r: Result<Database, EngineError>)
        ensures
            match r {
                Ok(db) => db.wf() && db@ == (DatabaseView {
                    tasks: tasks.deep_view(),
                    relationship_types: relationship_types.deep_view(),
                    relationships: relationships.deep_view(),
                    template_groups: template_groups.deep_view(),
                    templates: templates.deep_view(),
                }),
                Err(e) => !(DatabaseView {
                    tasks: tasks.deep_view(),
                    relationship_types: relationship_types.deep_view(),
                    relationships: relationships.deep_view(),
                    template_groups: template_groups.deep_view(),
                    templates: templates.deep_view(),
                }).wf() && e@ == crate::error::refusal(ErrorKind::Validation, TABLES_MALFORMED@),
            },
    {
        let db = Database { tasks, relationship_types, relationships, template_groups, templates };
        if db.check() {
            Ok(db)
        } else {
            Err(EngineError::validation(TABLES_MALFORMED))
        }
    }

    /// Whether the rows keep the invariant of the store.
    fn check(&self) -> (kept: bool)
        ensures
            kept == self.wf(),
    {
        let ghost view = self@;
        let mut task_ids: Vec<u128> = Vec::new();
        let mut i: usize = 0;
        while i < self.tasks.len()
            invariant
                i <= self.tasks.len(),
                task_ids.len() == i,
                forall|k: int| 0 <= k < i ==> task_ids[k] == self.tasks[k].id,
            decreases self.tasks.len() - i,
        {
            task_ids.push(self.tasks[i].id);
            i += 1;
        }
        let mut type_ids: Vec<u128> = Vec::new();
        let mut type_names: Vec<String> = Vec::new();
        let mut complete: bool = true;
        let mut i: usize = 0;
        while i < self.relationship_types.len()
            invariant
                i <= self.relationship_types.len(),
                view == self@,
                type_ids.len() == i,
                type_names.len() == i,
                forall|k: int| 0 <= k < i ==> type_ids[k] == self.relationship_types[k].id,
                forall|k: int| 0 <= k < i ==> type_names[k]@ == self.relationship_types[k].name@,
                complete == forall|k: int|
                    0 <= k < i ==> (#[trigger] view.relationship_types[k]).complete(),
            decreases self.relationship_types.len() - i,
        {
            let ty = &self.relationship_types[i];
            type_ids.push(ty.id);
            type_names.push(ty.name.clone());
            let labelled = !ty.is_directional || (ty.forward_label.is_some()
                && ty.reverse_label.is_some());
            let gated = !ty.enforces_blocking || (text_holds_statuses(
                &ty.blocking_disabled_statuses,
            ) && text_holds_statuses(&ty.blocking_source_statuses));
            proof {
                assert(view.relationship_types[i as int] == ty@);
            }
            if !(labelled && gated) {
                complete = false;
            }
            i += 1;
        }
        let mut edge_ids: Vec<u128> = Vec::new();
        let mut loop_free: bool = true;
        let mut i: usize = 0;
        while i < self.relationships.len()
            invariant
                i <= self.relationships.len(),
                view == self@,
                edge_ids.len() == i,
                forall|k: int| 0 <= k < i ==> edge_ids[k] == self.relationships[k].id,
                loop_free == forall|k: int|
                    0 <= k < i ==> (#[trigger] view.relationships[k]).source_task_id
                        != view.relationships[k].target_task_id,
            decreases self.relationships.len() - i,
        {
            proof {
                assert(view.relationships[i as int] == self.relationships[i as int]@);
            }
            edge_ids.push(self.relationships[i].id);
            if self.relationships[i].source_task_id == self.relationships[i].target_task_id {
                loop_free = false;
            }
            i += 1;
        }
        let mut group_ids: Vec<u128> = Vec::new();
        let mut i: usize = 0;
        while i < self.template_groups.len()
            invariant
                i <= self.template_groups.len(),
                group_ids.len() == i,
                forall|k: int| 0 <= k < i ==> group_ids[k] == self.template_groups[k].id,
            decreases self.template_groups.len() - i,
        {
            group_ids.push(self.template_groups[i].id);
            i += 1;
        }
        let mut template_ids: Vec<u128> = Vec::new();
        let mut template_names: Vec<String> = Vec::new();
        let mut i: usize = 0;
        while i < self.templates.len()
            invariant
                i <= self.templates.len(),
                template_ids.len() == i,
                template_names.len() == i,
                forall|k: int| 0 <= k < i ==> template_ids[k] == self.templates[k].id,
                forall|k: int|
                    0 <= k < i ==> template_names[k]@ == self.templates[k].template_name@,
            decreases self.templates.len() - i,
        {
            template_ids.push(self.templates[i].id);
            template_names.push(self.templates[i].template_name.clone());
            i += 1;
        }
        proof {
            lemma_distinct_by_keys(view.tasks, TaskView::id_key(), task_ids@);
            lemma_distinct_by_keys(
                view.relationship_types,
                TaskRelationshipTypeView::id_key(),
                type_ids@,
            );
            lemma_distinct_by_keys(
                view.relationship_types,
                TaskRelationshipTypeView::name_key(),
                type_names.deep_view(),
            );
            lemma_distinct_by_keys(view.relationships, TaskRelationshipView::id_key(), edge_ids@);
            lemma_distinct_by_keys(
                view.template_groups,
                TaskTemplateGroupView::id_key(),
                group_ids@,
            );
            lemma_distinct_by_keys(view.templates, TaskTemplateView::id_key(), template_ids@);
            lemma_distinct_by_keys(
                view.templates,
                TaskTemplateView::name_key(),
                template_names.deep_view(),
            );
        }
        numbers_distinct(&task_ids) && numbers_distinct(&type_ids) && texts_distinct(&type_names)
            && complete && numbers_distinct(&edge_ids) && loop_free && numbers_distinct(&group_ids)
            && numbers_distinct(&template_ids) && texts_distinct(&template_names)
    }

    /// Whether the invariant of the store holds.
    pub open spec fn wf(&self) -> bool {
        self@.wf()
    }

    /// What the view is made of.
    pub(crate) proof fn lemma_view(&self)
        ensures
            self@.tasks == self.tasks.deep_view(),
            self@.relationship_types == self.relationship_types.deep_view(),
            self@.relationships == self.relationships.deep_view(),
            self@.template_groups == self.template_groups.deep_view(),
            self@.templates == self.templates.deep_view(),
    {
    }

    /// A store without rows.
    pub fn new() -> (db: Database)
        ensures
            db.wf(),
            db@.tasks.len() == 0,
            db@.relationship_types.len() == 0,
            db@.relationships.len() == 0,
            db@.template_groups.len() == 0,
            db@.templates.len() == 0,
    {
        Database {
            tasks: Vec::new(),
            relationship_types: Vec::new(),
            relationships: Vec::new(),
            template_groups: Vec::new(),
            templates: Vec::new(),
        }
    }
}

} // verus!
