//! Relationships: the edges of the task graph.

use crate::codec::{
    decode_value, encode_value, error_text, json_text_of_value, json_value_of_text,
};
use crate::database::{Database, DatabaseView};
use crate::ids::fresh_id;
use crate::error::{refusal, EngineError, EngineErrorView, ErrorKind};
use crate::models::task::{Task, TaskView, TASK_NOT_FOUND};
use crate::models::task_relationship_type::{
    reports_unreadable, TaskRelationshipType, TaskRelationshipTypeView, SOURCES_NOT_READ,
    TYPE_NOT_FOUND,
};
use crate::status::contains_status;
use crate::table::{
    first_index, first_match, insert_ordered, kept, lemma_distinct_push,
    lemma_distinct_replace, lemma_first_index, lemma_first_index_is, lemma_insert_at, lemma_kept,
    lemma_kept_all, lemma_kept_all_but, lemma_kept_distinct, ordered,
};
use crate::timestamp::Timestamp;
use vstd::prelude::*;
use vstd::string::*;

verus! {

// The messages of the refusals.

pub const SELF_REFERENCE: &'static str = "Cannot create self-referential relationship";

pub const RELATIONSHIP_NOT_FOUND: &'static str = "Relationship not found";

pub const RELATIONSHIP_ID_TAKEN: &'static str = "A relationship with this id already exists";

pub const PAYLOAD_NOT_WRITTEN: &'static str = "The payload could not be written as JSON";

pub const PAYLOAD_NOT_READ: &'static str = "The stored payload is not JSON: ";

/// A directed, typed edge from a source task to a target task.
#[derive(Debug)]
pub struct TaskRelationship {
    pub id: u128,
    pub source_task_id: u128,
    pub target_task_id: u128,
    pub relationship_type_id: u128,
    /// JSON text of the payload, if there is one.
    pub data: Option<String>,
    pub note: Option<String>,
    pub created_at: Timestamp,
    pub updated_at: Timestamp,
    /// Filled in from the relationship type when the edge is read.
    pub relationship_type_name: Option<String>,
    /// Filled in from the relationship type when the edge is read.
    pub is_directional: Option<bool>,
    /// Filled in from the relationship type when the edge is read.
    pub forward_label: Option<String>,
    /// Filled in from the relationship type when the edge is read.
    pub reverse_label: Option<String>,
}

/// The mathematical value of a [`TaskRelationship`].
pub struct TaskRelationshipView {
    pub id: u128,
    pub source_task_id: u128,
    pub target_task_id: u128,
    pub relationship_type_id: u128,
    pub data: Option<Seq<char>>,
    pub note: Option<Seq<char>>,
    pub created_at: i64,
    pub updated_at: i64,
    pub relationship_type_name: Option<Seq<char>>,
    pub is_directional: Option<bool>,
    pub forward_label: Option<Seq<char>>,
    pub reverse_label: Option<Seq<char>>,
}

impl View for TaskRelationship {
    type V = TaskRelationshipView;

    open spec fn view(&self) -> TaskRelationshipView {
        TaskRelationshipView {
            id: self.id,
            source_task_id: self.source_task_id,
            target_task_id: self.target_task_id,
            relationship_type_id: self.relationship_type_id,
            data: self.data.deep_view(),
            note: self.note.deep_view(),
            created_at: self.created_at@,
            updated_at: self.updated_at@,
            relationship_type_name: self.relationship_type_name.deep_view(),
            is_directional: self.is_directional,
            forward_label: self.forward_label.deep_view(),
            reverse_label: self.reverse_label.deep_view(),
        }
    }
}

impl DeepView for TaskRelationship {
    type V = TaskRelationshipView;

    open spec fn deep_view(&self) -> TaskRelationshipView {
        self@
    }
}

impl Clone for TaskRelationship {
    fn clone(&self) -> (copy: Self)
        ensures
            copy@ == self@,
    {
        TaskRelationship {
            id: self.id,
            source_task_id: self.source_task_id,
            target_task_id: self.target_task_id,
            relationship_type_id: self.relationship_type_id,
            data: self.data.clone(),
            note: self.note.clone(),
            created_at: self.created_at,
            updated_at: self.updated_at,
            relationship_type_name: self.relationship_type_name.clone(),
            is_directional: self.is_directional,
            forward_label: self.forward_label.clone(),
            reverse_label: self.reverse_label.clone(),
        }
    }
}

/// A request to create a relationship from a given source task.
#[derive(Debug)]
pub struct CreateTaskRelationship {
    pub target_task_id: u128,
    pub relationship_type_id: u128,
    pub data: Option<serde_json::Value>,
    pub note: Option<String>,
}

/// A request to change a relationship. A field that is `None` keeps its
/// stored value.
#[derive(Debug)]
pub struct UpdateTaskRelationship {
    pub target_task_id: Option<u128>,
    pub relationship_type_id: Option<u128>,
    pub data: Option<serde_json::Value>,
    pub note: Option<String>,
}

/// A relationship with its two tasks and its type.
#[derive(Debug)]
pub struct TaskRelationshipWithDetails {
    pub relationship: TaskRelationship,
    pub source_task: Task,
    pub target_task: Task,
    pub relationship_type: TaskRelationshipType,
}

/// The mathematical value of a [`TaskRelationshipWithDetails`].
pub struct TaskRelationshipWithDetailsView {
    pub relationship: TaskRelationshipView,
    pub source_task: TaskView,
    pub target_task: TaskView,
    pub relationship_type: TaskRelationshipTypeView,
}

impl View for TaskRelationshipWithDetails {
    type V = TaskRelationshipWithDetailsView;

    open spec fn view(&self) -> TaskRelationshipWithDetailsView {
        TaskRelationshipWithDetailsView {
            relationship: self.relationship@,
            source_task: self.source_task@,
            target_task: self.target_task@,
            relationship_type: self.relationship_type@,
        }
    }
}

impl DeepView for TaskRelationshipWithDetails {
    type V = TaskRelationshipWithDetailsView;

    open spec fn deep_view(&self) -> TaskRelationshipWithDetailsView {
        self@
    }
}

impl Clone for TaskRelationshipWithDetails {
    fn clone(&self) -> (copy: Self)
        ensures
            copy@ == self@,
    {
        TaskRelationshipWithDetails {
            relationship: self.relationship.clone(),
            source_task: self.source_task.clone(),
            target_task: self.target_task.clone(),
            relationship_type: self.relationship_type.clone(),
        }
    }
}

/// The relationships of one task that have one type: those that leave the
/// task, and those that arrive at it.
#[derive(Debug)]
pub struct TaskRelationshipGrouped {
    pub relationship_type: TaskRelationshipType,
    /// Relationships where the task is the source.
    pub forward: Vec<TaskRelationshipWithDetails>,
    /// Relationships where the task is the target.
    pub reverse: Vec<TaskRelationshipWithDetails>,
}

/// The mathematical value of a [`TaskRelationshipGrouped`].
pub struct TaskRelationshipGroupedView {
    pub relationship_type: TaskRelationshipTypeView,
    pub forward: Seq<TaskRelationshipWithDetailsView>,
    pub reverse: Seq<TaskRelationshipWithDetailsView>,
}

impl View for TaskRelationshipGrouped {
    type V = TaskRelationshipGroupedView;

    open spec fn view(&self) -> TaskRelationshipGroupedView {
        TaskRelationshipGroupedView {
            relationship_type: self.relationship_type@,
            forward: self.forward.deep_view(),
            reverse: self.reverse.deep_view(),
        }
    }
}

impl DeepView for TaskRelationshipGrouped {
    type V = TaskRelationshipGroupedView;

    open spec fn deep_view(&self) -> TaskRelationshipGroupedView {
        self@
    }
}

/// A choice of relationships.
#[derive(Clone, Copy, Debug)]
pub enum EdgeFilter {
    /// Those that leave the given task.
    Source(u128),
    /// Those that arrive at the given task.
    Target(u128),
    /// Those of the given type.
    Type(u128),
    /// The one with the given id.
    Id(u128),
    /// Those that leave the given task or arrive at it.
    Touching(u128),
}

impl EdgeFilter {
    /// Whether the relationship is one of those chosen.
    pub open spec fn accepts(self, r: TaskRelationshipView) -> bool {
        match self {
            EdgeFilter::Source(task) => r.source_task_id == task,
            EdgeFilter::Target(task) => r.target_task_id == task,
            EdgeFilter::Type(ty) => r.relationship_type_id == ty,
            EdgeFilter::Id(id) => r.id == id,
            EdgeFilter::Touching(task) => r.touches(task),
        }
    }

    /// The relationships that are not chosen.
    pub open spec fn rejecting(self) -> spec_fn(TaskRelationshipView) -> bool {
        |r: TaskRelationshipView| !self.accepts(r)
    }

    /// Whether the relationship is one of those chosen.
    pub fn test(&self, r: &TaskRelationship) -> (chosen: bool)
        ensures
            chosen == self.accepts(r@),
    {
        match self {
            EdgeFilter::Source(task) => r.source_task_id == *task,
            EdgeFilter::Target(task) => r.target_task_id == *task,
            EdgeFilter::Type(ty) => r.relationship_type_id == *ty,
            EdgeFilter::Id(id) => r.id == *id,
            EdgeFilter::Touching(task) => r.source_task_id == *task || r.target_task_id == *task,
        }
    }
}

impl TaskRelationshipView {
    /// The edge as it is read: with the name, direction and labels of its
    /// type filled in.
    pub open spec fn with_type(self, ty: TaskRelationshipTypeView) -> TaskRelationshipView {
        TaskRelationshipView {
            relationship_type_name: Some(ty.name),
            is_directional: Some(ty.is_directional),
            forward_label: ty.forward_label,
            reverse_label: ty.reverse_label,
            ..self
        }
    }

    /// The key of a relationship: its id.
    pub open spec fn id_key() -> spec_fn(TaskRelationshipView) -> u128 {
        |r: TaskRelationshipView| r.id
    }

    /// The relationships with the given id.
    pub open spec fn with_id(id: u128) -> spec_fn(TaskRelationshipView) -> bool {
        |r: TaskRelationshipView| r.id == id
    }

    /// Whether `task` is one of the two ends of the edge.
    pub open spec fn touches(self, task: u128) -> bool {
        self.source_task_id == task || self.target_task_id == task
    }
}

/// The order of relationships in listings: the newest first.
pub open spec fn newest_first() -> spec_fn(TaskRelationshipView, TaskRelationshipView) -> bool {
    |a: TaskRelationshipView, b: TaskRelationshipView| a.created_at > b.created_at
}

impl DatabaseView {
    /// The relationship as it is read: with its type filled in. A
    /// relationship whose type is not stored is not read at all.
    pub open spec fn read(self, r: TaskRelationshipView) -> Option<TaskRelationshipView> {
        match self.relationship_type(r.relationship_type_id) {
            Some(ty) => Some(r.with_type(ty)),
            None => None,
        }
    }

    /// Reads the relationships that the filter chooses.
    pub open spec fn reading(self, filter: EdgeFilter) -> spec_fn(TaskRelationshipView) -> Option<
        TaskRelationshipView,
    > {
        |r: TaskRelationshipView|
            if filter.accepts(r) {
                self.read(r)
            } else {
                None
            }
    }

    /// The relationships that the filter chooses, as they are read, in the
    /// order in which they are stored.
    pub open spec fn select(self, filter: EdgeFilter) -> Seq<TaskRelationshipView> {
        self.relationships.filter_map(self.reading(filter))
    }

    /// The relationships that the filter chooses, as they are read, the
    /// newest first.
    pub open spec fn listing(self, filter: EdgeFilter) -> Seq<TaskRelationshipView> {
        ordered(self.select(filter), newest_first())
    }

    /// The relationship with the given id, as it is read.
    pub open spec fn relationship(self, id: u128) -> Option<TaskRelationshipView> {
        match self.stored_relationship(id) {
            Some(r) => self.read(r),
            None => None,
        }
    }

    /// The relationship with its two tasks and its type; a refusal where
    /// one of the three is not stored.
    pub open spec fn details(self, r: TaskRelationshipView) -> Result<
        TaskRelationshipWithDetailsView,
        EngineErrorView,
    > {
        match self.task(r.source_task_id) {
            None => Err(refusal(ErrorKind::NotFound, TASK_NOT_FOUND@)),
            Some(source_task) => match self.task(r.target_task_id) {
                None => Err(refusal(ErrorKind::NotFound, TASK_NOT_FOUND@)),
                Some(target_task) => match self.relationship_type(r.relationship_type_id) {
                    None => Err(refusal(ErrorKind::NotFound, TYPE_NOT_FOUND@)),
                    Some(relationship_type) => Ok(
                        TaskRelationshipWithDetailsView {
                            relationship: r,
                            source_task,
                            target_task,
                            relationship_type,
                        },
                    ),
                },
            },
        }
    }

    /// The relationship with the given id, read with its details: none
    /// where no relationship with this id is stored, and a refusal where
    /// one is stored but one of its tasks or its type is not.
    pub open spec fn relationship_with_details(self, id: u128) -> Result<
        Option<TaskRelationshipWithDetailsView>,
        EngineErrorView,
    > {
        match self.stored_relationship(id) {
            None => Ok(None),
            Some(r) => match self.details(r) {
                Ok(details) => Ok(
                    Some(
                        TaskRelationshipWithDetailsView {
                            relationship: r.with_type(details.relationship_type),
                            ..details
                        },
                    ),
                ),
                Err(e) => Err(e),
            },
        }
    }
}

impl TaskRelationship {
    /// The place of the relationship with the given id among the stored
    /// ones, or their number if there is none.
    pub(crate) fn position(db: &Database, id: u128) -> (at: usize)
        ensures
            at == first_index(db@.relationships, TaskRelationshipView::with_id(id)),
            at <= db.relationships.len(),
            at < db.relationships.len() ==> db.relationships[at as int].id == id,
            db@.stored_relationship(id) == if at < db.relationships.len() {
                Some(db.relationships[at as int]@)
            } else {
                None
            },
    {
        proof {
            db.lemma_view();
        }
        let mut at: usize = 0;
        while at < db.relationships.len() && db.relationships[at].id != id
            invariant
                at <= db.relationships.len(),
                forall|i: int| 0 <= i < at ==> db.relationships[i].id != id,
            decreases db.relationships.len() - at,
        {
            at += 1;
        }
        proof {
            lemma_first_index_is(db@.relationships, TaskRelationshipView::with_id(id), at as int);
        }
        at
    }

    /// The relationship with the fields of its type filled in.
    fn joined(&self, ty: &TaskRelationshipType) -> (row: TaskRelationship)
        ensures
            row@ == self@.with_type(ty@),
    {
        TaskRelationship {
            id: self.id,
            source_task_id: self.source_task_id,
            target_task_id: self.target_task_id,
            relationship_type_id: self.relationship_type_id,
            data: self.data.clone(),
            note: self.note.clone(),
            created_at: self.created_at,
            updated_at: self.updated_at,
            relationship_type_name: Some(ty.name.clone()),
            is_directional: Some(ty.is_directional),
            forward_label: ty.forward_label.clone(),
            reverse_label: ty.reverse_label.clone(),
        }
    }

    /// Reads a stored relationship: fills in its type, if that is stored.
    fn read(db: &Database, stored: &TaskRelationship) -> (row: Option<TaskRelationship>)
        ensures
            row.deep_view() == db@.read(stored@),
    {
        let at = TaskRelationshipType::position(db, stored.relationship_type_id);
        if at < db.relationship_types.len() {
            Some(stored.joined(&db.relationship_types[at]))
        } else {
            None
        }
    }

    /// Puts `row` into `sorted` at its place by creation time, behind the
    /// rows that are as new.
    fn insert_newest_first(sorted: &mut Vec<TaskRelationship>, row: TaskRelationship)
        ensures
            final(sorted).deep_view() == insert_ordered(
                old(sorted).deep_view(),
                row@,
                newest_first(),
            ),
    {
        let ghost rows = sorted.deep_view();
        let mut at: usize = 0;
        while at < sorted.len() && sorted[at].created_at.at_or_after(&row.created_at)
            invariant
                at <= sorted.len(),
                sorted.deep_view() == rows,
                forall|i: int| 0 <= i < at ==> (#[trigger] rows[i]).created_at >= row@.created_at,
            decreases sorted.len() - at,
        {
            proof {
                assert(rows[at as int] == sorted[at as int]@);
            }
            at += 1;
        }
        proof {
            if at < sorted.len() {
                assert(rows[at as int] == sorted[at as int]@);
            }
            lemma_insert_at(rows, row@, newest_first(), at as int);
        }
        sorted.insert(at, row);
        proof {
            assert(sorted.deep_view() =~= rows.insert(at as int, row@));
        }
    }

    /// The relationships that the filter chooses, as they are read, the
    /// newest first.
    pub fn list(db: &Database, filter: EdgeFilter) -> (found: Vec<TaskRelationship>)
        ensures
            found.deep_view() == db@.listing(filter),
    {
        proof {
            db.lemma_view();
        }
        let ghost rows = db@.relationships;
        let ghost reading = db@.reading(filter);
        let mut found: Vec<TaskRelationship> = Vec::new();
        let mut i: usize = 0;
        while i < db.relationships.len()
            invariant
                i <= db.relationships.len(),
                rows == db.relationships.deep_view(),
                rows == db@.relationships,
                reading == db@.reading(filter),
                found.deep_view() == ordered(rows.take(i as int).filter_map(reading), newest_first()),
            decreases db.relationships.len() - i,
        {
            proof {
                rows.lemma_filter_map_take_succ(reading, i as int);
                assert(rows[i as int] == db.relationships[i as int]@);
            }
            if filter.test(&db.relationships[i]) {
                match TaskRelationship::read(db, &db.relationships[i]) {
                    Some(row) => {
                        proof {
                            let before = rows.take(i as int).filter_map(reading);
                            assert((before + seq![row@]).drop_last() =~= before);
                        }
                        TaskRelationship::insert_newest_first(&mut found, row);
                    },
                    None => {
                        proof {
                            let before = rows.take(i as int).filter_map(reading);
                            assert(before + Seq::empty() =~= before);
                        }
                    },
                }
            } else {
                proof {
                    let before = rows.take(i as int).filter_map(reading);
                    assert(before + Seq::empty() =~= before);
                }
            }
            i += 1;
        }
        proof {
            assert(rows.take(rows.len() as int) =~= rows);
        }
        found
    }

    /// The relationships that leave the given task, the newest first.
    pub fn find_by_source_task(db: &Database, source_task_id: u128) -> (found: Vec<
        TaskRelationship,
    >)
        ensures
            found.deep_view() == db@.listing(EdgeFilter::Source(source_task_id)),
    {
        TaskRelationship::list(db, EdgeFilter::Source(source_task_id))
    }

    /// The relationships that arrive at the given task, the newest first.
    pub fn find_by_target_task(db: &Database, target_task_id: u128) -> (found: Vec<
        TaskRelationship,
    >)
        ensures
            found.deep_view() == db@.listing(EdgeFilter::Target(target_task_id)),
    {
        TaskRelationship::list(db, EdgeFilter::Target(target_task_id))
    }

    /// The relationships of the given type, the newest first.
    pub fn find_by_type(db: &Database, relationship_type_id: u128) -> (found: Vec<
        TaskRelationship,
    >)
        ensures
            found.deep_view() == db@.listing(EdgeFilter::Type(relationship_type_id)),
    {
        TaskRelationship::list(db, EdgeFilter::Type(relationship_type_id))
    }

    /// The relationship with the given id, as it is read.
    pub fn find_by_id(db: &Database, id: u128) -> (found: Option<TaskRelationship>)
        ensures
            found.deep_view() == db@.relationship(id),
    {
        let at = TaskRelationship::position(db, id);
        if at < db.relationships.len() {
            TaskRelationship::read(db, &db.relationships[at])
        } else {
            None
        }
    }

    /// The two tasks and the type of a relationship that has been read.
    pub fn with_details(db: &Database, row: TaskRelationship) -> (r: Result<
        TaskRelationshipWithDetails,
        EngineError,
    >)
        ensures
            match r {
                Ok(details) => db@.details(row@) == Ok::<
                    TaskRelationshipWithDetailsView,
                    EngineErrorView,
                >(details@),
                Err(e) => db@.details(row@) == Err::<
                    TaskRelationshipWithDetailsView,
                    EngineErrorView,
                >(e@),
            },
    {
        let source_task = match Task::find_by_id(db, row.source_task_id) {
            Some(task) => task,
            None => {
                return Err(EngineError::not_found(TASK_NOT_FOUND));
            },
        };
        let target_task = match Task::find_by_id(db, row.target_task_id) {
            Some(task) => task,
            None => {
                return Err(EngineError::not_found(TASK_NOT_FOUND));
            },
        };
        let relationship_type = match TaskRelationshipType::find_by_id(
            db,
            row.relationship_type_id,
        ) {
            Some(ty) => ty,
            None => {
                return Err(EngineError::not_found(TYPE_NOT_FOUND));
            },
        };
        Ok(TaskRelationshipWithDetails { relationship: row, source_task, target_task, relationship_type })
    }

    /// The relationship with the given id, with its two tasks and its
    /// type. There is none where no relationship with this id is stored.
    /// Where one is stored, it is an error of kind not found if its source
    /// task, its target task or its type is not stored.
    pub fn find_with_details_by_id(db: &Database, id: u128) -> (r: Result<
        Option<TaskRelationshipWithDetails>,
        EngineError,
    >)
        ensures
            match r {
                Ok(details) => db@.relationship_with_details(id) == Ok::<
                    Option<TaskRelationshipWithDetailsView>,
                    EngineErrorView,
                >(details.deep_view()),
                Err(e) => db@.relationship_with_details(id) == Err::<
                    Option<TaskRelationshipWithDetailsView>,
                    EngineErrorView,
                >(e@),
            },
    {
        let at = TaskRelationship::position(db, id);
        if at >= db.relationships.len() {
            return Ok(None);
        }
        match TaskRelationship::with_details(db, db.relationships[at].clone()) {
            Ok(details) => {
                let relationship = details.relationship.joined(&details.relationship_type);
                Ok(
                    Some(
                        TaskRelationshipWithDetails {
                            relationship,
                            source_task: details.source_task,
                            target_task: details.target_task,
                            relationship_type: details.relationship_type,
                        },
                    ),
                )
            },
            Err(e) => Err(e),
        }
    }
}

/// Why a request to create a relationship is refused whatever id it is to
/// get, if it is: by the first of these rules that it breaks. The two
/// tasks differ; the target task exists; the type exists.
pub open spec fn create_rules(
    db: DatabaseView,
    source_task_id: u128,
    target_task_id: u128,
    relationship_type_id: u128,
) -> Option<EngineErrorView> {
    if source_task_id == target_task_id {
        Some(refusal(ErrorKind::Validation, SELF_REFERENCE@))
    } else if db.task(target_task_id) is None {
        Some(refusal(ErrorKind::NotFound, TASK_NOT_FOUND@))
    } else if db.relationship_type(relationship_type_id) is None {
        Some(refusal(ErrorKind::NotFound, TYPE_NOT_FOUND@))
    } else {
        None
    }
}

/// Why a request to create a relationship is refused, if it is: by the
/// first of these rules that it breaks. The two tasks differ; the target
/// task exists; the type exists; the id is not in use.
pub open spec fn create_refusal(
    db: DatabaseView,
    source_task_id: u128,
    target_task_id: u128,
    relationship_type_id: u128,
    id: u128,
) -> Option<EngineErrorView> {
    if create_rules(db, source_task_id, target_task_id, relationship_type_id) is Some {
        create_rules(db, source_task_id, target_task_id, relationship_type_id)
    } else if db.stored_relationship(id) is Some {
        Some(refusal(ErrorKind::Validation, RELATIONSHIP_ID_TAKEN@))
    } else {
        None
    }
}

/// The JSON text of the payload of a request; none where no payload is
/// given.
pub open spec fn payload_text(data: Option<serde_json::Value>) -> Option<Seq<char>> {
    match data {
        Some(value) => json_text_of_value(value),
        None => None,
    }
}

/// Whether the payload of a request, if one is given, can be written as
/// JSON.
pub open spec fn payload_writable(data: Option<serde_json::Value>) -> bool {
    data matches Some(value) ==> json_text_of_value(value) is Some
}

/// Writes the payload of a request as JSON.
fn write_payload(data: &Option<serde_json::Value>) -> (r: Result<Option<String>, EngineError>)
    ensures
        match r {
            Ok(text) => payload_writable(*data) && text.deep_view() == payload_text(*data),
            Err(e) => !payload_writable(*data) && e@ == refusal(
                ErrorKind::Deserialization,
                PAYLOAD_NOT_WRITTEN@,
            ),
        },
{
    match data {
        None => Ok(None),
        Some(value) => match encode_value(value) {
            Ok(text) => Ok(Some(text)),
            Err(_) => Err(EngineError::deserialization(PAYLOAD_NOT_WRITTEN)),
        },
    }
}

/// The relationship that a request creates.
pub open spec fn created_relationship(
    source_task_id: u128,
    target_task_id: u128,
    relationship_type_id: u128,
    data: Option<Seq<char>>,
    note: Option<Seq<char>>,
    id: u128,
    now: i64,
) -> TaskRelationshipView {
    TaskRelationshipView {
        id,
        source_task_id,
        target_task_id,
        relationship_type_id,
        data,
        note,
        created_at: now,
        updated_at: now,
        relationship_type_name: None,
        is_directional: None,
        forward_label: None,
        reverse_label: None,
    }
}

/// The stored relationship with the fields of the request laid over it.
pub open spec fn merged_relationship(
    stored: TaskRelationshipView,
    target_task_id: Option<u128>,
    relationship_type_id: Option<u128>,
    data: Option<Seq<char>>,
    note: Option<Seq<char>>,
    now: i64,
) -> TaskRelationshipView {
    TaskRelationshipView {
        id: stored.id,
        source_task_id: stored.source_task_id,
        target_task_id: match target_task_id {
            Some(target) => target,
            None => stored.target_task_id,
        },
        relationship_type_id: match relationship_type_id {
            Some(ty) => ty,
            None => stored.relationship_type_id,
        },
        data: match data {
            Some(text) => Some(text),
            None => stored.data,
        },
        note: match note {
            Some(text) => Some(text),
            None => stored.note,
        },
        created_at: stored.created_at,
        updated_at: now,
        relationship_type_name: None,
        is_directional: None,
        forward_label: None,
        reverse_label: None,
    }
}

/// Why a request to change a relationship is refused, if it is: by the
/// first of these rules that it breaks. The relationship can be read; its
/// source differs from the target it is to have; a target given exists; a
/// type given exists.
pub open spec fn update_refusal(
    db: DatabaseView,
    id: u128,
    target_task_id: Option<u128>,
    relationship_type_id: Option<u128>,
) -> Option<EngineErrorView> {
    match db.relationship(id) {
        None => Some(refusal(ErrorKind::NotFound, RELATIONSHIP_NOT_FOUND@)),
        Some(stored) => {
            let target = match target_task_id {
                Some(target) => target,
                None => stored.target_task_id,
            };
            if stored.source_task_id == target {
                Some(refusal(ErrorKind::Validation, SELF_REFERENCE@))
            } else if target_task_id is Some && db.task(target) is None {
                Some(refusal(ErrorKind::NotFound, TASK_NOT_FOUND@))
            } else if relationship_type_id matches Some(ty) && db.relationship_type(ty) is None {
                Some(refusal(ErrorKind::NotFound, TYPE_NOT_FOUND@))
            } else {
                None
            }
        },
    }
}

/// The store with one more relationship, behind the stored ones.
pub open spec fn with_relationship(db: DatabaseView, row: TaskRelationshipView) -> DatabaseView {
    DatabaseView { relationships: db.relationships.push(row), ..db }
}

/// The store with the relationship `id` replaced by `row`.
pub open spec fn with_changed_relationship(
    db: DatabaseView,
    id: u128,
    row: TaskRelationshipView,
) -> DatabaseView {
    DatabaseView {
        relationships: db.relationships.update(
            first_index(db.relationships, TaskRelationshipView::with_id(id)),
            row,
        ),
        ..db
    }
}

/// The store without the relationships that the filter chooses.
pub open spec fn without_relationships(db: DatabaseView, filter: EdgeFilter) -> DatabaseView {
    DatabaseView { relationships: kept(db.relationships, filter.rejecting()), ..db }
}

impl TaskRelationship {
    /// The payload of the relationship, read as JSON: the document that
    /// the stored text denotes. Stored text that is not JSON is a
    /// deserialization error.
    pub fn data_as_json(&self) -> (r: Result<Option<serde_json::Value>, EngineError>)
        ensures
            match self@.data {
                None => r matches Ok(None),
                Some(text) => match json_value_of_text(text) {
                    Some(value) => r matches Ok(Some(found)) && found == value,
                    None => r matches Err(e) && e.kind == ErrorKind::Deserialization
                        && exists|detail: Seq<char>| e.message@ == PAYLOAD_NOT_READ@ + detail,
                },
            },
    {
        match &self.data {
            None => Ok(None),
            Some(text) => match decode_value(text.as_str()) {
                Ok(value) => Ok(Some(value)),
                Err(e) => {
                    let detail = error_text(&e);
                    let mut message = String::from_str(PAYLOAD_NOT_READ);
                    message.append(detail.as_str());
                    proof {
                        assert(message@ == PAYLOAD_NOT_READ@ + detail@);
                    }
                    Err(EngineError { kind: ErrorKind::Deserialization, message })
                },
            },
        }
    }

    /// Why a request to create a relationship is refused whatever id it
    /// is to get, if it is.
    fn check_create(
        db: &Database,
        source_task_id: u128,
        target_task_id: u128,
        relationship_type_id: u128,
    ) -> (refused: Option<EngineError>)
        ensures
            refused.deep_view() == create_rules(
                db@,
                source_task_id,
                target_task_id,
                relationship_type_id,
            ),
    {
        if source_task_id == target_task_id {
            return Some(EngineError::validation(SELF_REFERENCE));
        }
        if Task::position(db, target_task_id) >= db.tasks.len() {
            return Some(EngineError::not_found(TASK_NOT_FOUND));
        }
        if TaskRelationshipType::position(db, relationship_type_id) >= db.relationship_types.len() {
            return Some(EngineError::not_found(TYPE_NOT_FOUND));
        }
        None
    }

    /// Creates a relationship from `source_task_id` under a new random id.
    ///
    /// The rules are asked first, in the order of [`create_rules`]: a
    /// relationship from a task to itself is a validation error, and a
    /// target task or a type that is not stored is not found, whatever the
    /// payload. Only then is the payload written as JSON (one that cannot
    /// be written is a deserialization error) and the id drawn; the
    /// outcome is that of [`TaskRelationship::create_with_id`]. Whenever
    /// the request is refused the store is unchanged.
    pub fn create(
        db: &mut Database,
        source_task_id: u128,
        data: &CreateTaskRelationship,
        now: Timestamp,
    ) -> (r: Result<TaskRelationship, EngineError>)
        requires
            old(db).wf(),
        ensures
            final(db).wf(),
            match r {
                Ok(row) => create_refusal(
                    old(db)@,
                    source_task_id,
                    data.target_task_id,
                    data.relationship_type_id,
                    row.id,
                ) is None && payload_writable(data.data) && row@ == created_relationship(
                    source_task_id,
                    data.target_task_id,
                    data.relationship_type_id,
                    payload_text(data.data),
                    data.note.deep_view(),
                    row.id,
                    now@,
                ) && final(db)@ == with_relationship(old(db)@, row@),
                Err(e) => final(db)@ == old(db)@ && match create_rules(
                    old(db)@,
                    source_task_id,
                    data.target_task_id,
                    data.relationship_type_id,
                ) {
                    Some(refused) => e@ == refused,
                    None => if !payload_writable(data.data) {
                        e@ == refusal(ErrorKind::Deserialization, PAYLOAD_NOT_WRITTEN@)
                    } else {
                        e@ == refusal(ErrorKind::Validation, RELATIONSHIP_ID_TAKEN@)
                            && exists|id: u128| old(db)@.stored_relationship(id) is Some
                    },
                },
            },
            source_task_id == data.target_task_id ==> r is Err && r->Err_0@ == refusal(
                ErrorKind::Validation,
                SELF_REFERENCE@,
            ),
            source_task_id != data.target_task_id && old(db)@.task(data.target_task_id) is None
                ==> r is Err && r->Err_0@ == refusal(ErrorKind::NotFound, TASK_NOT_FOUND@),
            source_task_id != data.target_task_id && old(db)@.task(data.target_task_id) is Some
                && old(db)@.relationship_type(data.relationship_type_id) is None ==> r is Err
                && r->Err_0@ == refusal(ErrorKind::NotFound, TYPE_NOT_FOUND@),
    {
        match TaskRelationship::check_create(
            db,
            source_task_id,
            data.target_task_id,
            data.relationship_type_id,
        ) {
            Some(e) => {
                return Err(e);
            },
            None => {},
        }
        let text = match write_payload(&data.data) {
            Ok(text) => text,
            Err(e) => {
                return Err(e);
            },
        };
        let id = fresh_id();
        let r = TaskRelationship::create_with_id(
            db,
            source_task_id,
            data.target_task_id,
            data.relationship_type_id,
            text,
            data.note.clone(),
            id,
            now,
        );
        proof {
            if r is Err {
                assert(old(db)@.stored_relationship(id) is Some);
            }
        }
        r
    }

    /// Creates a relationship under the given id, with a payload that has
    /// been written as JSON.
    ///
    /// The request is refused by the first rule of [`create_refusal`] that
    /// it breaks, and the store is then unchanged. Otherwise the new
    /// relationship is added behind the stored ones and handed back.
    pub fn create_with_id(
        db: &mut Database,
        source_task_id: u128,
        target_task_id: u128,
        relationship_type_id: u128,
        data: Option<String>,
        note: Option<String>,
        id: u128,
        now: Timestamp,
    ) -> (r: Result<TaskRelationship, EngineError>)
        requires
            old(db).wf(),
        ensures
            final(db).wf(),
            match r {
                Ok(row) => create_refusal(
                    old(db)@,
                    source_task_id,
                    target_task_id,
                    relationship_type_id,
                    id,
                ) is None && row@ == created_relationship(
                    source_task_id,
                    target_task_id,
                    relationship_type_id,
                    data.deep_view(),
                    note.deep_view(),
                    id,
                    now@,
                ) && final(db)@ == with_relationship(old(db)@, row@),
                Err(e) => create_refusal(
                    old(db)@,
                    source_task_id,
                    target_task_id,
                    relationship_type_id,
                    id,
                ) == Some(e@) && final(db)@ == old(db)@,
            },
    {
        match TaskRelationship::check_create(
            db,
            source_task_id,
            target_task_id,
            relationship_type_id,
        ) {
            Some(e) => {
                return Err(e);
            },
            None => {},
        }
        if TaskRelationship::position(db, id) < db.relationships.len() {
            return Err(EngineError::validation(RELATIONSHIP_ID_TAKEN));
        }
        let row = TaskRelationship {
            id,
            source_task_id,
            target_task_id,
            relationship_type_id,
            data,
            note,
            created_at: now,
            updated_at: now,
            relationship_type_name: None,
            is_directional: None,
            forward_label: None,
            reverse_label: None,
        };
        let copy = row.clone();
        proof {
            db.lemma_view();
            let rows = db@.relationships;
            lemma_first_index(rows, TaskRelationshipView::with_id(id));
            lemma_distinct_push(rows, TaskRelationshipView::id_key(), row@);
        }
        db.relationships.push(row);
        proof {
            db.lemma_view();
            assert(db.relationships.deep_view() =~= old(db)@.relationships.push(copy@));
        }
        Ok(copy)
    }

    /// Changes a relationship: the fields given are laid over the stored
    /// ones.
    ///
    /// A request that breaks a rule of [`update_refusal`] is refused by the
    /// first such rule. Otherwise a payload given is written as JSON and
    /// the outcome is that of [`TaskRelationship::update_with`]; a payload
    /// that cannot be written is a deserialization error. Whenever the
    /// request is refused the store is unchanged.
    pub fn update(db: &mut Database, id: u128, data: &UpdateTaskRelationship, now: Timestamp) -> (r:
        Result<TaskRelationship, EngineError>)
        requires
            old(db).wf(),
        ensures
            final(db).wf(),
            match r {
                Ok(row) => update_refusal(
                    old(db)@,
                    id,
                    data.target_task_id,
                    data.relationship_type_id,
                ) is None && payload_writable(data.data) && old(db)@.stored_relationship(id)
                    is Some && row@ == merged_relationship(
                    old(db)@.stored_relationship(id)->0,
                    data.target_task_id,
                    data.relationship_type_id,
                    payload_text(data.data),
                    data.note.deep_view(),
                    now@,
                ) && final(db)@ == with_changed_relationship(old(db)@, id, row@),
                Err(e) => final(db)@ == old(db)@ && match update_refusal(
                    old(db)@,
                    id,
                    data.target_task_id,
                    data.relationship_type_id,
                ) {
                    Some(refused) => e@ == refused,
                    None => !payload_writable(data.data) && e@ == refusal(
                        ErrorKind::Deserialization,
                        PAYLOAD_NOT_WRITTEN@,
                    ),
                },
            },
    {
        let at = TaskRelationship::position(db, id);
        if at < db.relationships.len() {
            match TaskRelationship::check_update(
                db,
                at,
                data.target_task_id,
                data.relationship_type_id,
            ) {
                Some(e) => {
                    return Err(e);
                },
                None => {},
            }
        } else {
            return Err(EngineError::not_found(RELATIONSHIP_NOT_FOUND));
        }
        let text = match write_payload(&data.data) {
            Ok(text) => text,
            Err(e) => {
                return Err(e);
            },
        };
        TaskRelationship::update_with(
            db,
            id,
            data.target_task_id,
            data.relationship_type_id,
            text,
            data.note.clone(),
            now,
        )
    }

    /// The refusal of a change to the stored relationship at `at`, if
    /// there is one.
    fn check_update(
        db: &Database,
        at: usize,
        target_task_id: Option<u128>,
        relationship_type_id: Option<u128>,
    ) -> (refused: Option<EngineError>)
        requires
            at < db.relationships.len(),
            at == first_index(
                db@.relationships,
                TaskRelationshipView::with_id(db.relationships[at as int].id),
            ),
        ensures
            refused.deep_view() == update_refusal(
                db@,
                db.relationships[at as int].id,
                target_task_id,
                relationship_type_id,
            ),
    {
        proof {
            db.lemma_view();
            lemma_first_index(
                db@.relationships,
                TaskRelationshipView::with_id(db.relationships[at as int].id),
            );
        }
        let stored = &db.relationships[at];
        if TaskRelationshipType::position(db, stored.relationship_type_id)
            >= db.relationship_types.len() {
            return Some(EngineError::not_found(RELATIONSHIP_NOT_FOUND));
        }
        let target = match target_task_id {
            Some(target) => target,
            None => stored.target_task_id,
        };
        if stored.source_task_id == target {
            return Some(EngineError::validation(SELF_REFERENCE));
        }
        if target_task_id.is_some() && Task::position(db, target) >= db.tasks.len() {
            return Some(EngineError::not_found(TASK_NOT_FOUND));
        }
        match relationship_type_id {
            Some(ty) => {
                if TaskRelationshipType::position(db, ty) >= db.relationship_types.len() {
                    return Some(EngineError::not_found(TYPE_NOT_FOUND));
                }
            },
            None => {},
        }
        None
    }

    /// Changes a relationship, with a payload that has been written as
    /// JSON.
    ///
    /// The request is refused by the first rule of [`update_refusal`] that
    /// it breaks, and the store is then unchanged. Otherwise the merged
    /// relationship takes the place of the stored one and is handed back.
    pub fn update_with(
        db: &mut Database,
        id: u128,
        target_task_id: Option<u128>,
        relationship_type_id: Option<u128>,
        data: Option<String>,
        note: Option<String>,
        now: Timestamp,
    ) -> (r: Result<TaskRelationship, EngineError>)
        requires
            old(db).wf(),
        ensures
            final(db).wf(),
            match r {
                Ok(row) => update_refusal(old(db)@, id, target_task_id, relationship_type_id)
                    is None && old(db)@.stored_relationship(id) is Some && row@
                    == merged_relationship(
                    old(db)@.stored_relationship(id)->0,
                    target_task_id,
                    relationship_type_id,
                    data.deep_view(),
                    note.deep_view(),
                    now@,
                ) && final(db)@ == with_changed_relationship(old(db)@, id, row@),
                Err(e) => update_refusal(old(db)@, id, target_task_id, relationship_type_id)
                    == Some(e@) && final(db)@ == old(db)@,
            },
    {
        let at = TaskRelationship::position(db, id);
        if at >= db.relationships.len() {
            return Err(EngineError::not_found(RELATIONSHIP_NOT_FOUND));
        }
        match TaskRelationship::check_update(db, at, target_task_id, relationship_type_id) {
            Some(e) => {
                return Err(e);
            },
            None => {},
        }
        let stored = &db.relationships[at];
        let row = TaskRelationship {
            id: stored.id,
            source_task_id: stored.source_task_id,
            target_task_id: match target_task_id {
                Some(target) => target,
                None => stored.target_task_id,
            },
            relationship_type_id: match relationship_type_id {
                Some(ty) => ty,
                None => stored.relationship_type_id,
            },
            data: match data {
                Some(text) => Some(text),
                None => stored.data.clone(),
            },
            note: match note {
                Some(text) => Some(text),
                None => stored.note.clone(),
            },
            created_at: stored.created_at,
            updated_at: now,
            relationship_type_name: None,
            is_directional: None,
            forward_label: None,
            reverse_label: None,
        };
        let copy = row.clone();
        proof {
            db.lemma_view();
            let rows = db@.relationships;
            lemma_distinct_replace(rows, TaskRelationshipView::id_key(), at as int, row@);
        }
        db.relationships.set(at, row);
        proof {
            db.lemma_view();
            assert(db.relationships.deep_view() =~= old(db)@.relationships.update(
                at as int,
                copy@,
            ));
        }
        Ok(copy)
    }

    /// Deletes the relationship with the given id, and says how many
    /// relationships were deleted: one, or none if there was no such
    /// relationship.
    pub fn delete(db: &mut Database, id: u128) -> (count: u64)
        requires
            old(db).wf(),
        ensures
            final(db).wf(),
            final(db)@ == without_relationships(old(db)@, EdgeFilter::Id(id)),
            count == old(db)@.relationships.len() - final(db)@.relationships.len(),
            count == if old(db)@.stored_relationship(id) is Some {
                1int
            } else {
                0int
            },
            final(db)@.stored_relationship(id) is None,
    {
        let ghost rows = db@.relationships;
        let ghost keep = EdgeFilter::Id(id).rejecting();
        let count = remove_matching(db, EdgeFilter::Id(id));
        proof {
            lemma_kept(rows, keep);
            lemma_kept_distinct(rows, keep, TaskRelationshipView::id_key());
            let wanted = TaskRelationshipView::with_id(id);
            lemma_first_index(rows, wanted);
            let at = first_index(rows, wanted);
            if at < rows.len() {
                assert forall|i: int| 0 <= i < rows.len() && i != at implies keep(
                    #[trigger] rows[i],
                ) by {
                    if i < at {
                        assert((TaskRelationshipView::id_key())(rows[i]) != (
                        TaskRelationshipView::id_key())(rows[at]));
                    } else {
                        assert((TaskRelationshipView::id_key())(rows[at]) != (
                        TaskRelationshipView::id_key())(rows[i]));
                    }
                }
                lemma_kept_all_but(rows, keep, at);
            } else {
                assert forall|i: int| 0 <= i < rows.len() implies keep(#[trigger] rows[i]) by {
                    assert(!wanted(rows[i]));
                }
                lemma_kept_all(rows, keep);
            }
            let rest = kept(rows, keep);
            assert forall|i: int| 0 <= i < rest.len() implies !wanted(#[trigger] rest[i]) by {
                assert(keep(rest[i]));
            }
            lemma_first_index_is(rest, wanted, rest.len() as int);
        }
        count
    }

    /// Deletes every relationship that leaves the given task or arrives at
    /// it, and says how many they were.
    pub fn delete_by_task(db: &mut Database, task_id: u128) -> (count: u64)
        requires
            old(db).wf(),
        ensures
            final(db).wf(),
            final(db)@ == without_relationships(old(db)@, EdgeFilter::Touching(task_id)),
            count == old(db)@.relationships.len() - final(db)@.relationships.len(),
            forall|i: int|
                0 <= i < final(db)@.relationships.len() ==> !(
                #[trigger] final(db)@.relationships[i]).touches(task_id),
    {
        let ghost rows = db@.relationships;
        let ghost keep = EdgeFilter::Touching(task_id).rejecting();
        let count = remove_matching(db, EdgeFilter::Touching(task_id));
        proof {
            lemma_kept(rows, keep);
            lemma_kept_distinct(rows, keep, TaskRelationshipView::id_key());
        }
        count
    }
}

/// The details whose relationship has the given type.
pub open spec fn of_type(ty: u128) -> spec_fn(TaskRelationshipWithDetailsView) -> bool {
    |d: TaskRelationshipWithDetailsView| d.relationship_type.id == ty
}

/// The ids of the types of the details, each once, in the order in which
/// they first occur.
pub open spec fn type_ids(details: Seq<TaskRelationshipWithDetailsView>) -> Seq<u128>
    decreases details.len(),
{
    if details.len() == 0 {
        Seq::empty()
    } else {
        let ids = type_ids(details.drop_last());
        let ty = details.last().relationship_type.id;
        if ids.contains(ty) {
            ids
        } else {
            ids.push(ty)
        }
    }
}

/// The group of one type: the type as the first relationship of that type
/// carries it, and the relationships of that type in either direction, in
/// the order in which they were given.
pub open spec fn group_of(
    forward: Seq<TaskRelationshipWithDetailsView>,
    reverse: Seq<TaskRelationshipWithDetailsView>,
    ty: u128,
) -> TaskRelationshipGroupedView {
    TaskRelationshipGroupedView {
        relationship_type: first_match(forward + reverse, of_type(ty))->0.relationship_type,
        forward: kept(forward, of_type(ty)),
        reverse: kept(reverse, of_type(ty)),
    }
}

/// The relationships in groups by type. The groups stand in the order in
/// which their types first occur, the forward relationships counted first.
pub open spec fn grouped(
    forward: Seq<TaskRelationshipWithDetailsView>,
    reverse: Seq<TaskRelationshipWithDetailsView>,
) -> Seq<TaskRelationshipGroupedView> {
    type_ids(forward + reverse).map_values(|ty: u128| group_of(forward, reverse, ty))
}

/// Every id among the type ids is the type of one of the details, and the
/// ids are distinct.
pub proof fn lemma_type_ids(details: Seq<TaskRelationshipWithDetailsView>)
    ensures
        forall|k: int|
            0 <= k < type_ids(details).len() ==> first_index(
                details,
                of_type(#[trigger] type_ids(details)[k]),
            ) < details.len(),
        forall|i: int|
            0 <= i < details.len() ==> type_ids(details).contains(
                (#[trigger] details[i]).relationship_type.id,
            ),
        type_ids(details).no_duplicates(),
    decreases details.len(),
{
    if details.len() > 0 {
        let init = details.drop_last();
        let ids = type_ids(init);
        let ty = details.last().relationship_type.id;
        let out = type_ids(details);
        lemma_type_ids(init);
        assert forall|k: int| 0 <= k < out.len() implies first_index(
            details,
            of_type(#[trigger] out[k]),
        ) < details.len() by {
            lemma_first_index(details, of_type(out[k]));
            lemma_first_index(init, of_type(out[k]));
        }
        assert forall|i: int| 0 <= i < details.len() implies out.contains(
            (#[trigger] details[i]).relationship_type.id,
        ) by {
            if i < init.len() {
                assert(init[i] == details[i]);
                assert(ids.contains(init[i].relationship_type.id));
                let k = choose|k: int| 0 <= k < ids.len() && ids[k] == init[i].relationship_type.id;
                assert(out[k] == ids[k]);
            } else {
                if ids.contains(ty) {
                } else {
                    assert(out[out.len() - 1] == ty);
                }
            }
        }
    }
}

/// The details of the given type among `list`, in their order.
fn details_of_type(list: &Vec<TaskRelationshipWithDetails>, ty: u128) -> (found: Vec<
    TaskRelationshipWithDetails,
>)
    ensures
        found.deep_view() == kept(list.deep_view(), of_type(ty)),
{
    let ghost rows = list.deep_view();
    let mut found: Vec<TaskRelationshipWithDetails> = Vec::new();
    let mut i: usize = 0;
    while i < list.len()
        invariant
            i <= list.len(),
            rows == list.deep_view(),
            found.deep_view() == kept(rows.take(i as int), of_type(ty)),
        decreases list.len() - i,
    {
        proof {
            assert(rows.take(i + 1).drop_last() =~= rows.take(i as int));
            assert(rows[i as int] == list[i as int]@);
        }
        if list[i].relationship_type.id == ty {
            let ghost before = found.deep_view();
            found.push(list[i].clone());
            proof {
                assert(found.deep_view() =~= before.push(rows[i as int]));
            }
        }
        i += 1;
    }
    proof {
        assert(rows.take(rows.len() as int) =~= rows);
    }
    found
}

/// Whether `ids` holds `id`.
fn holds_id(ids: &Vec<u128>, id: u128) -> (found: bool)
    ensures
        found == ids@.contains(id),
{
    let mut i: usize = 0;
    while i < ids.len() && ids[i] != id
        invariant
            i <= ids.len(),
            forall|j: int| 0 <= j < i ==> ids@[j] != id,
        decreases ids.len() - i,
    {
        i += 1;
    }
    i < ids.len()
}

/// Adds to `ids` the types of `list` that it does not hold yet.
fn collect_type_ids(
    ids: &mut Vec<u128>,
    list: &Vec<TaskRelationshipWithDetails>,
    Ghost(ahead): Ghost<Seq<TaskRelationshipWithDetailsView>>,
)
    requires
        old(ids)@ == type_ids(ahead),
    ensures
        final(ids)@ == type_ids(ahead + list.deep_view()),
{
    let ghost rows = list.deep_view();
    let mut i: usize = 0;
    proof {
        assert(ahead + rows.take(0) =~= ahead);
    }
    while i < list.len()
        invariant
            i <= list.len(),
            rows == list.deep_view(),
            ids@ == type_ids(ahead + rows.take(i as int)),
        decreases list.len() - i,
    {
        proof {
            assert((ahead + rows.take(i + 1)).drop_last() =~= ahead + rows.take(i as int));
            assert((ahead + rows.take(i + 1)).last() == list[i as int]@);
        }
        let ty = list[i].relationship_type.id;
        if !holds_id(ids, ty) {
            ids.push(ty);
        }
        i += 1;
    }
    proof {
        assert(rows.take(rows.len() as int) =~= rows);
    }
}

/// The type that the first of the details of type `ty` carries.
fn first_type(
    forward: &Vec<TaskRelationshipWithDetails>,
    reverse: &Vec<TaskRelationshipWithDetails>,
    ty: u128,
) -> (found: TaskRelationshipType)
    requires
        first_index(forward.deep_view() + reverse.deep_view(), of_type(ty)) < forward.len()
            + reverse.len(),
    ensures
        Some(found@) == match first_match(forward.deep_view() + reverse.deep_view(), of_type(ty)) {
            Some(details) => Some(details.relationship_type),
            None => None,
        },
{
    let ghost all = forward.deep_view() + reverse.deep_view();
    proof {
        lemma_first_index(all, of_type(ty));
    }
    let mut i: usize = 0;
    while i < forward.len() && forward[i].relationship_type.id != ty
        invariant
            i <= forward.len(),
            all == forward.deep_view() + reverse.deep_view(),
            forall|j: int| 0 <= j < i ==> !(of_type(ty))(#[trigger] all[j]),
        decreases forward.len() - i,
    {
        proof {
            assert(all[i as int] == forward[i as int]@);
        }
        i += 1;
    }
    if i < forward.len() {
        proof {
            assert(all[i as int] == forward[i as int]@);
            lemma_first_index_is(all, of_type(ty), i as int);
        }
        return forward[i].relationship_type.clone();
    }
    let mut j: usize = 0;
    while j < reverse.len() && reverse[j].relationship_type.id != ty
        invariant
            j <= reverse.len(),
            i == forward.len(),
            all == forward.deep_view() + reverse.deep_view(),
            forall|k: int| 0 <= k < i + j ==> !(of_type(ty))(#[trigger] all[k]),
        decreases reverse.len() - j,
    {
        proof {
            assert(all[i + j] == reverse[j as int]@);
        }
        j += 1;
    }
    proof {
        if j < reverse.len() {
            assert(all[i + j] == reverse[j as int]@);
        }
        lemma_first_index_is(all, of_type(ty), i + j);
    }
    reverse[j].relationship_type.clone()
}

/// Puts relationships with their details into groups by type.
///
/// Each type that occurs gets one group, which holds the forward and the
/// reverse relationships of that type in the order in which they were
/// given. The groups stand in the order in which their types first occur,
/// the forward relationships counted first.
pub fn group_by_type(
    forward: &Vec<TaskRelationshipWithDetails>,
    reverse: &Vec<TaskRelationshipWithDetails>,
) -> (groups: Vec<TaskRelationshipGrouped>)
    ensures
        groups.deep_view() == grouped(forward.deep_view(), reverse.deep_view()),
{
    let ghost all = forward.deep_view() + reverse.deep_view();
    let mut ids: Vec<u128> = Vec::new();
    proof {
        assert(Seq::<TaskRelationshipWithDetailsView>::empty() + forward.deep_view()
            =~= forward.deep_view());
    }
    collect_type_ids(&mut ids, forward, Ghost(Seq::empty()));
    collect_type_ids(&mut ids, reverse, Ghost(forward.deep_view()));
    proof {
        lemma_type_ids(all);
    }
    let ghost group = |ty: u128| group_of(forward.deep_view(), reverse.deep_view(), ty);
    let mut groups: Vec<TaskRelationshipGrouped> = Vec::new();
    let mut k: usize = 0;
    while k < ids.len()
        invariant
            k <= ids.len(),
            all == forward.deep_view() + reverse.deep_view(),
            ids@ == type_ids(all),
            forall|n: int|
                0 <= n < ids.len() ==> first_index(all, of_type(#[trigger] ids@[n])) < all.len(),
            groups.deep_view() == Seq::new(
                k as nat,
                |n: int| group_of(forward.deep_view(), reverse.deep_view(), ids@[n]),
            ),
        decreases ids.len() - k,
    {
        let ty = ids[k];
        let ghost before = groups.deep_view();
        let entry = TaskRelationshipGrouped {
            relationship_type: first_type(forward, reverse, ty),
            forward: details_of_type(forward, ty),
            reverse: details_of_type(reverse, ty),
        };
        proof {
            assert(entry@ == group_of(forward.deep_view(), reverse.deep_view(), ty));
        }
        groups.push(entry);
        proof {
            assert(groups.deep_view() =~= before.push(
                group_of(forward.deep_view(), reverse.deep_view(), ty),
            ));
            assert(groups.deep_view() =~= Seq::new(
                (k + 1) as nat,
                |n: int| group_of(forward.deep_view(), reverse.deep_view(), ids@[n]),
            ));
        }
        k += 1;
    }
    proof {
        assert(groups.deep_view() =~= grouped(forward.deep_view(), reverse.deep_view()));
    }
    groups
}

impl DatabaseView {
    /// The details of each of the relationships; the first refusal where
    /// one of them has none.
    pub open spec fn all_details(self, rows: Seq<TaskRelationshipView>) -> Result<
        Seq<TaskRelationshipWithDetailsView>,
        EngineErrorView,
    >
        decreases rows.len(),
    {
        if rows.len() == 0 {
            Ok(Seq::empty())
        } else {
            match self.all_details(rows.drop_last()) {
                Err(e) => Err(e),
                Ok(ahead) => match self.details(rows.last()) {
                    Ok(details) => Ok(ahead.push(details)),
                    Err(e) => Err(e),
                },
            }
        }
    }

    /// The relationships of a task in groups by type: those that leave it
    /// as forward, those that arrive at it as reverse, each the newest
    /// first. A refusal where a task or type of one of them is not stored.
    pub open spec fn grouped_by_task(self, task: u128) -> Result<
        Seq<TaskRelationshipGroupedView>,
        EngineErrorView,
    > {
        match self.all_details(self.listing(EdgeFilter::Source(task))) {
            Err(e) => Err(e),
            Ok(forward) => match self.all_details(self.listing(EdgeFilter::Target(task))) {
                Err(e) => Err(e),
                Ok(reverse) => Ok(grouped(forward, reverse)),
            },
        }
    }

    /// The relationship as a blocker of `task`, with its source task: it
    /// arrives at `task`, its type enforces blocking, and its source task
    /// is in one of the blocking source statuses of the type.
    pub open spec fn blocker(self, task: u128) -> spec_fn(TaskRelationshipView) -> Option<
        (TaskRelationshipView, TaskView),
    > {
        |r: TaskRelationshipView|
            if r.target_task_id != task {
                None
            } else {
                match self.relationship_type(r.relationship_type_id) {
                    None => None,
                    Some(ty) => match self.task(r.source_task_id) {
                        None => None,
                        Some(source) => if ty.enforces_blocking && ty.sources() is Listed
                            && ty.sources().statuses().contains(source.status) {
                            Some((r.with_type(ty), source))
                        } else {
                            None
                        },
                    },
                }
            }
    }

    /// The relationships that block `task`, each with its source task, in
    /// the order in which they are stored.
    pub open spec fn blocking_edges(self, task: u128) -> Seq<(TaskRelationshipView, TaskView)> {
        self.relationships.filter_map(self.blocker(task))
    }

    /// The relationships of which it cannot be said whether they block
    /// `task`: they arrive at `task`, and their type enforces blocking but
    /// its blocking source statuses cannot be read.
    pub open spec fn undecided(self, task: u128) -> spec_fn(TaskRelationshipView) -> bool {
        |r: TaskRelationshipView|
            r.target_task_id == task && match self.relationship_type(r.relationship_type_id) {
                Some(ty) => ty.enforces_blocking && !ty.sources().readable(),
                None => false,
            }
    }

    /// The first stored relationship of which it cannot be said whether it
    /// blocks `task`.
    pub open spec fn blocking_fault(self, task: u128) -> Option<TaskRelationshipView> {
        first_match(self.relationships, self.undecided(task))
    }

    /// Whether `e` reports the first relationship of which it cannot be
    /// said whether it blocks `task`: a deserialization error that names
    /// the blocking source statuses of its type.
    pub open spec fn reports_blocking_fault(self, task: u128, e: EngineErrorView) -> bool {
        &&& self.blocking_fault(task) matches Some(r)
        &&& self.relationship_type(r.relationship_type_id) matches Some(ty)
        &&& reports_unreadable(e, SOURCES_NOT_READ@, ty.sources())
    }
}

/// Once the details of a prefix fail, those of the whole fail the same way.
proof fn lemma_details_stay_failed(db: DatabaseView, rows: Seq<TaskRelationshipView>, n: int)
    requires
        0 <= n <= rows.len(),
        db.all_details(rows.take(n)) is Err,
    ensures
        db.all_details(rows) == db.all_details(rows.take(n)),
    decreases rows.len() - n,
{
    if n == rows.len() {
        assert(rows.take(n) =~= rows);
    } else {
        assert(rows.take(n + 1).drop_last() =~= rows.take(n));
        lemma_details_stay_failed(db, rows, n + 1);
    }
}

impl TaskRelationship {
    /// The details of each of the relationships, which have been read.
    pub fn all_with_details(db: &Database, rows: &Vec<TaskRelationship>) -> (r: Result<
        Vec<TaskRelationshipWithDetails>,
        EngineError,
    >)
        ensures
            match r {
                Ok(details) => db@.all_details(rows.deep_view()) == Ok::<
                    Seq<TaskRelationshipWithDetailsView>,
                    EngineErrorView,
                >(details.deep_view()),
                Err(e) => db@.all_details(rows.deep_view()) == Err::<
                    Seq<TaskRelationshipWithDetailsView>,
                    EngineErrorView,
                >(e@),
            },
    {
        let ghost all = rows.deep_view();
        let mut found: Vec<TaskRelationshipWithDetails> = Vec::new();
        let mut i: usize = 0;
        proof {
            assert(found.deep_view() =~= Seq::empty());
        }
        while i < rows.len()
            invariant
                i <= rows.len(),
                all == rows.deep_view(),
                db@.all_details(all.take(i as int)) == Ok::<
                    Seq<TaskRelationshipWithDetailsView>,
                    EngineErrorView,
                >(found.deep_view()),
            decreases rows.len() - i,
        {
            proof {
                assert(all.take(i + 1).drop_last() =~= all.take(i as int));
                assert(all.take(i + 1).last() == rows[i as int]@);
            }
            match TaskRelationship::with_details(db, rows[i].clone()) {
                Ok(details) => {
                    let ghost before = found.deep_view();
                    found.push(details);
                    proof {
                        assert(found.deep_view() =~= before.push(details@));
                    }
                },
                Err(e) => {
                    proof {
                        lemma_details_stay_failed(db@, all, i + 1);
                    }
                    return Err(e);
                },
            }
            i += 1;
        }
        proof {
            assert(all.take(all.len() as int) =~= all);
        }
        Ok(found)
    }

    /// The relationships of a task in groups by type: those that leave it
    /// as forward, those that arrive at it as reverse, each the newest
    /// first. It is an error if a task or the type of one of them is not
    /// stored.
    pub fn find_by_task(db: &Database, task_id: u128) -> (r: Result<
        Vec<TaskRelationshipGrouped>,
        EngineError,
    >)
        ensures
            match r {
                Ok(groups) => db@.grouped_by_task(task_id) == Ok::<
                    Seq<TaskRelationshipGroupedView>,
                    EngineErrorView,
                >(groups.deep_view()),
                Err(e) => db@.grouped_by_task(task_id) == Err::<
                    Seq<TaskRelationshipGroupedView>,
                    EngineErrorView,
                >(e@),
            },
    {
        let forward_rows = TaskRelationship::find_by_source_task(db, task_id);
        let reverse_rows = TaskRelationship::find_by_target_task(db, task_id);
        let forward = match TaskRelationship::all_with_details(db, &forward_rows) {
            Ok(details) => details,
            Err(e) => {
                return Err(e);
            },
        };
        let reverse = match TaskRelationship::all_with_details(db, &reverse_rows) {
            Ok(details) => details,
            Err(e) => {
                return Err(e);
            },
        };
        Ok(group_by_type(&forward, &reverse))
    }

    /// The relationships that block the given task, each with its source
    /// task: those that arrive at the task, whose type enforces blocking,
    /// and whose source task is in one of the blocking source statuses of
    /// the type, in the order in which they are stored.
    ///
    /// Where a relationship arrives at the task and its type enforces
    /// blocking, but the blocking source statuses of the type cannot be
    /// read, nothing is left out in silence: the first such relationship
    /// makes the whole answer a deserialization error.
    pub fn find_blocking_relationships(db: &Database, task_id: u128) -> (r: Result<
        Vec<(TaskRelationship, Task)>,
        EngineError,
    >)
        ensures
            match r {
                Ok(found) => db@.blocking_fault(task_id) is None && found.deep_view()
                    == db@.blocking_edges(task_id),
                Err(e) => db@.reports_blocking_fault(task_id, e@),
            },
    {
        proof {
            db.lemma_view();
        }
        let ghost rows = db@.relationships;
        let ghost blocker = db@.blocker(task_id);
        let ghost undecided = db@.undecided(task_id);
        let mut found: Vec<(TaskRelationship, Task)> = Vec::new();
        let mut i: usize = 0;
        while i < db.relationships.len()
            invariant
                i <= db.relationships.len(),
                rows == db.relationships.deep_view(),
                rows == db@.relationships,
                blocker == db@.blocker(task_id),
                undecided == db@.undecided(task_id),
                forall|j: int| 0 <= j < i ==> !undecided(#[trigger] rows[j]),
                found.deep_view() == rows.take(i as int).filter_map(blocker),
            decreases db.relationships.len() - i,
        {
            proof {
                rows.lemma_filter_map_take_succ(blocker, i as int);
                assert(rows[i as int] == db.relationships[i as int]@);
            }
            let ghost before = found.deep_view();
            match TaskRelationship::as_blocker(db, &db.relationships[i], task_id) {
                Ok(Some(pair)) => {
                    found.push(pair);
                    proof {
                        assert(found.deep_view() =~= before + seq![blocker(rows[i as int])->0]);
                    }
                },
                Ok(None) => {
                    proof {
                        assert(before + Seq::empty() =~= before);
                    }
                },
                Err(e) => {
                    proof {
                        lemma_first_index_is(rows, undecided, i as int);
                    }
                    return Err(e);
                },
            }
            i += 1;
        }
        proof {
            assert(rows.take(rows.len() as int) =~= rows);
            lemma_first_index_is(rows, undecided, rows.len() as int);
        }
        Ok(found)
    }

    /// The stored relationship as a blocker of `task_id`, with its source
    /// task, if it is one; an error if that cannot be said.
    fn as_blocker(db: &Database, stored: &TaskRelationship, task_id: u128) -> (r: Result<
        Option<(TaskRelationship, Task)>,
        EngineError,
    >)
        ensures
            match r {
                Ok(pair) => !(db@.undecided(task_id))(stored@) && pair.deep_view() == (db@.blocker(
                    task_id,
                ))(stored@),
                Err(e) => (db@.undecided(task_id))(stored@) && db@.relationship_type(
                    stored.relationship_type_id,
                ) is Some && reports_unreadable(
                    e@,
                    SOURCES_NOT_READ@,
                    db@.relationship_type(stored.relationship_type_id)->0.sources(),
                ),
            },
    {
        if stored.target_task_id != task_id {
            return Ok(None);
        }
        let at = TaskRelationshipType::position(db, stored.relationship_type_id);
        if at >= db.relationship_types.len() {
            return Ok(None);
        }
        let ty = &db.relationship_types[at];
        if !ty.enforces_blocking {
            return Ok(None);
        }
        let statuses = match ty.blocking_source_statuses_vec() {
            Ok(Some(statuses)) => statuses,
            Ok(None) => {
                return Ok(None);
            },
            Err(e) => {
                let mut message = String::from_str(SOURCES_NOT_READ);
                message.append(e.message.as_str());
                proof {
                    assert(message@ == SOURCES_NOT_READ@ + e.message@);
                }
                return Err(EngineError { kind: ErrorKind::Deserialization, message });
            },
        };
        match Task::find_by_id(db, stored.source_task_id) {
            Some(source) => {
                if contains_status(statuses.as_slice(), source.status) {
                    Ok(Some((stored.joined(ty), source)))
                } else {
                    Ok(None)
                }
            },
            None => Ok(None),
        }
    }

}

/// Takes the chosen relationships out of the store, and says how many
/// they were.
pub(crate) fn remove_matching(db: &mut Database, filter: EdgeFilter) -> (removed: u64)
    ensures
        final(db)@ == (DatabaseView {
            relationships: kept(old(db)@.relationships, filter.rejecting()),
            ..old(db)@
        }),
        removed == old(db)@.relationships.len() - final(db)@.relationships.len(),
{
    proof {
        db.lemma_view();
    }
    let ghost rows = db@.relationships;
    let ghost keep = filter.rejecting();
    let mut survivors: Vec<TaskRelationship> = Vec::new();
    let mut i: usize = 0;
    while i < db.relationships.len()
        invariant
            i <= db.relationships.len(),
            rows == db.relationships.deep_view(),
            keep == filter.rejecting(),
            survivors.deep_view() == kept(rows.take(i as int), keep),
        decreases db.relationships.len() - i,
    {
        proof {
            assert(rows.take(i + 1).drop_last() =~= rows.take(i as int));
        }
        if !filter.test(&db.relationships[i]) {
            let ghost before = survivors.deep_view();
            survivors.push(db.relationships[i].clone());
            proof {
                assert(survivors.deep_view() =~= before.push(rows[i as int]));
            }
        }
        i += 1;
    }
    proof {
        assert(rows.take(rows.len() as int) =~= rows);
        lemma_kept(rows, keep);
    }
    let removed: usize = db.relationships.len() - survivors.len();
    db.relationships = survivors;
    proof {
        db.lemma_view();
    }
    removed as u64
}

} // verus!
