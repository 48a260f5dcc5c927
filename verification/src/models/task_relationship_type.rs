//! Relationship types: what an edge of a given kind means.

use crate::codec::{
    decode_string_list, encode_string_list, error_text, json_string_list, json_text_of_list,
};
use crate::database::{Database, DatabaseView};
use crate::ids::fresh_id;
use crate::models::task_relationship::{remove_matching, EdgeFilter, TaskRelationshipView};
use crate::error::{refusal, EngineError, EngineErrorView, ErrorKind};
use crate::status::{
    contains_status, decode_statuses, statuses_from_names, unknown_status_message, TaskStatus,
};
use crate::table::{
    first_index, insert_ordered, kept, lemma_distinct_from_others, lemma_distinct_push, lemma_distinct_remove, lemma_distinct_replace,
    lemma_distinct_update, lemma_first_index,
    lemma_first_index_is, lemma_insert_at, lemma_kept, lemma_kept_distinct, ordered,
};
use crate::text::{join, joined, text_before, text_eq, text_lt};
use vstd::string::*;
use crate::timestamp::Timestamp;
use vstd::prelude::*;

verus! {

// The messages of the refusals.

pub const DIRECTIONAL_NEEDS_LABELS: &'static str =
    "Directional relationship types must have both forward_label and reverse_label";

pub const BLOCKING_NEEDS_STATUSES: &'static str =
    "Blocking relationship types must have both blocking_disabled_statuses and blocking_source_statuses";

pub const SYSTEM_TYPE_KEPT: &'static str = "Cannot delete system relationship types";

pub const TYPE_NOT_FOUND: &'static str = "Relationship type not found";

pub const TYPE_NAME_TAKEN: &'static str = "A relationship type with this name already exists";

pub const TYPE_ID_TAKEN: &'static str = "A relationship type with this id already exists";

// What stands before the detail of a status set that cannot be read.

pub const DISABLED_NOT_READ: &'static str = "Failed to parse blocking_disabled_statuses: ";

pub const SOURCES_NOT_READ: &'static str = "Failed to parse blocking_source_statuses: ";

/// The schema of one kind of edge between tasks.
#[derive(Debug)]
pub struct TaskRelationshipType {
    pub id: u128,
    pub name: String,
    pub display_name: String,
    pub description: Option<String>,
    pub is_system: bool,
    pub is_directional: bool,
    pub forward_label: Option<String>,
    pub reverse_label: Option<String>,
    pub enforces_blocking: bool,
    /// JSON list of the statuses that a blocked target may not enter.
    pub blocking_disabled_statuses: Option<String>,
    /// JSON list of the source statuses that count as still blocking.
    pub blocking_source_statuses: Option<String>,
    pub created_at: Timestamp,
    pub updated_at: Timestamp,
}

/// The mathematical value of a [`TaskRelationshipType`].
pub struct TaskRelationshipTypeView {
    pub id: u128,
    pub name: Seq<char>,
    pub display_name: Seq<char>,
    pub description: Option<Seq<char>>,
    pub is_system: bool,
    pub is_directional: bool,
    pub forward_label: Option<Seq<char>>,
    pub reverse_label: Option<Seq<char>>,
    pub enforces_blocking: bool,
    pub blocking_disabled_statuses: Option<Seq<char>>,
    pub blocking_source_statuses: Option<Seq<char>>,
    pub created_at: i64,
    pub updated_at: i64,
}

impl View for TaskRelationshipType {
    type V = TaskRelationshipTypeView;

    open spec fn view(&self) -> TaskRelationshipTypeView {
        TaskRelationshipTypeView {
            id: self.id,
            name: self.name@,
            display_name: self.display_name@,
            description: self.description.deep_view(),
            is_system: self.is_system,
            is_directional: self.is_directional,
            forward_label: self.forward_label.deep_view(),
            reverse_label: self.reverse_label.deep_view(),
            enforces_blocking: self.enforces_blocking,
            blocking_disabled_statuses: self.blocking_disabled_statuses.deep_view(),
            blocking_source_statuses: self.blocking_source_statuses.deep_view(),
            created_at: self.created_at@,
            updated_at: self.updated_at@,
        }
    }
}

impl DeepView for TaskRelationshipType {
    type V = TaskRelationshipTypeView;

    open spec fn deep_view(&self) -> TaskRelationshipTypeView {
        self@
    }
}

impl Clone for TaskRelationshipType {
    fn clone(&self) -> (copy: Self)
        ensures
            copy@ == self@,
    {
        TaskRelationshipType {
            id: self.id,
            name: self.name.clone(),
            display_name: self.display_name.clone(),
            description: self.description.clone(),
            is_system: self.is_system,
            is_directional: self.is_directional,
            forward_label: self.forward_label.clone(),
            reverse_label: self.reverse_label.clone(),
            enforces_blocking: self.enforces_blocking,
            blocking_disabled_statuses: self.blocking_disabled_statuses.clone(),
            blocking_source_statuses: self.blocking_source_statuses.clone(),
            created_at: self.created_at,
            updated_at: self.updated_at,
        }
    }
}

/// A request to create a relationship type.
#[derive(Debug)]
pub struct CreateTaskRelationshipType {
    pub name: String,
    pub display_name: String,
    pub description: Option<String>,
    pub is_directional: bool,
    pub forward_label: Option<String>,
    pub reverse_label: Option<String>,
    pub enforces_blocking: bool,
    pub blocking_disabled_statuses: Option<Vec<String>>,
    pub blocking_source_statuses: Option<Vec<String>>,
}

/// The mathematical value of a [`CreateTaskRelationshipType`].
pub struct CreateTaskRelationshipTypeView {
    pub name: Seq<char>,
    pub display_name: Seq<char>,
    pub description: Option<Seq<char>>,
    pub is_directional: bool,
    pub forward_label: Option<Seq<char>>,
    pub reverse_label: Option<Seq<char>>,
    pub enforces_blocking: bool,
    pub blocking_disabled_statuses: Option<Seq<Seq<char>>>,
    pub blocking_source_statuses: Option<Seq<Seq<char>>>,
}

impl View for CreateTaskRelationshipType {
    type V = CreateTaskRelationshipTypeView;

    open spec fn view(&self) -> CreateTaskRelationshipTypeView {
        CreateTaskRelationshipTypeView {
            name: self.name@,
            display_name: self.display_name@,
            description: self.description.deep_view(),
            is_directional: self.is_directional,
            forward_label: self.forward_label.deep_view(),
            reverse_label: self.reverse_label.deep_view(),
            enforces_blocking: self.enforces_blocking,
            blocking_disabled_statuses: self.blocking_disabled_statuses.deep_view(),
            blocking_source_statuses: self.blocking_source_statuses.deep_view(),
        }
    }
}

/// A request to change a relationship type. A field that is `None` keeps
/// its stored value.
#[derive(Debug)]
pub struct UpdateTaskRelationshipType {
    pub name: Option<String>,
    pub display_name: Option<String>,
    pub description: Option<String>,
    pub is_directional: Option<bool>,
    pub forward_label: Option<String>,
    pub reverse_label: Option<String>,
    pub enforces_blocking: Option<bool>,
    pub blocking_disabled_statuses: Option<Vec<String>>,
    pub blocking_source_statuses: Option<Vec<String>>,
}

/// The mathematical value of an [`UpdateTaskRelationshipType`].
pub struct UpdateTaskRelationshipTypeView {
    pub name: Option<Seq<char>>,
    pub display_name: Option<Seq<char>>,
    pub description: Option<Seq<char>>,
    pub is_directional: Option<bool>,
    pub forward_label: Option<Seq<char>>,
    pub reverse_label: Option<Seq<char>>,
    pub enforces_blocking: Option<bool>,
    pub blocking_disabled_statuses: Option<Seq<Seq<char>>>,
    pub blocking_source_statuses: Option<Seq<Seq<char>>>,
}

impl View for UpdateTaskRelationshipType {
    type V = UpdateTaskRelationshipTypeView;

    open spec fn view(&self) -> UpdateTaskRelationshipTypeView {
        UpdateTaskRelationshipTypeView {
            name: self.name.deep_view(),
            display_name: self.display_name.deep_view(),
            description: self.description.deep_view(),
            is_directional: self.is_directional,
            forward_label: self.forward_label.deep_view(),
            reverse_label: self.reverse_label.deep_view(),
            enforces_blocking: self.enforces_blocking,
            blocking_disabled_statuses: self.blocking_disabled_statuses.deep_view(),
            blocking_source_statuses: self.blocking_source_statuses.deep_view(),
        }
    }
}

impl TaskRelationshipTypeView {
    /// The key of a type: its id.
    pub open spec fn id_key() -> spec_fn(TaskRelationshipTypeView) -> u128 {
        |t: TaskRelationshipTypeView| t.id
    }

    /// The second key of a type: its name.
    pub open spec fn name_key() -> spec_fn(TaskRelationshipTypeView) -> Seq<char> {
        |t: TaskRelationshipTypeView| t.name
    }

    /// The types with the given id.
    pub open spec fn with_id(id: u128) -> spec_fn(TaskRelationshipTypeView) -> bool {
        |t: TaskRelationshipTypeView| t.id == id
    }

    /// The types with the given name.
    pub open spec fn with_name(name: Seq<char>) -> spec_fn(TaskRelationshipTypeView) -> bool {
        |t: TaskRelationshipTypeView| t.name == name
    }

    /// The built-in types.
    pub open spec fn system() -> spec_fn(TaskRelationshipTypeView) -> bool {
        |t: TaskRelationshipTypeView| t.is_system
    }

    /// The order of types in listings: by display name.
    pub open spec fn by_display_name() -> spec_fn(
        TaskRelationshipTypeView,
        TaskRelationshipTypeView,
    ) -> bool {
        |a: TaskRelationshipTypeView, b: TaskRelationshipTypeView|
            text_before(a.display_name, b.display_name)
    }

    /// A directional type carries both labels.
    pub open spec fn labelled(self) -> bool {
        self.is_directional ==> self.forward_label is Some && self.reverse_label is Some
    }

    /// A type that enforces blocking carries both status sets, each as a
    /// JSON list of strings that is not empty.
    pub open spec fn gated(self) -> bool {
        self.enforces_blocking ==> holds_statuses(self.blocking_disabled_statuses)
            && holds_statuses(self.blocking_source_statuses)
    }

    /// Both structural rules hold of the type.
    pub open spec fn complete(self) -> bool {
        self.labelled() && self.gated()
    }
}

/// What the stored text of a status set holds.
pub enum StoredStatuses {
    /// No text is stored.
    Absent,
    /// The text lists these statuses.
    Listed(Seq<TaskStatus>),
    /// The text is not a JSON list of strings.
    Malformed,
    /// The text lists this name, which is no status.
    Unknown(Seq<char>),
}

impl StoredStatuses {
    /// Whether the text can be read.
    pub open spec fn readable(self) -> bool {
        self is Absent || self is Listed
    }

    /// The statuses listed; none where no text is stored.
    pub open spec fn statuses(self) -> Seq<TaskStatus> {
        match self {
            StoredStatuses::Listed(statuses) => statuses,
            _ => Seq::empty(),
        }
    }
}

/// What the stored text of a status set holds.
pub open spec fn stored_statuses(raw: Option<Seq<char>>) -> StoredStatuses {
    match raw {
        None => StoredStatuses::Absent,
        Some(text) => match json_string_list(text) {
            None => StoredStatuses::Malformed,
            Some(names) => match decode_statuses(names) {
                Ok(statuses) => StoredStatuses::Listed(statuses),
                Err(name) => StoredStatuses::Unknown(name),
            },
        },
    }
}

/// Reads the stored text of a status set. Text that is not a JSON list of
/// status names is a deserialization error, never an empty set.
pub fn parse_status_set(raw: &Option<String>) -> (r: Result<Option<Vec<TaskStatus>>, EngineError>)
    ensures
        match stored_statuses(raw.deep_view()) {
            StoredStatuses::Absent => r matches Ok(None),
            StoredStatuses::Listed(statuses) => r matches Ok(Some(v)) && v@ == statuses,
            StoredStatuses::Malformed => r matches Err(e) && e.kind == ErrorKind::Deserialization,
            StoredStatuses::Unknown(name) => r matches Err(e) && e@ == refusal(
                ErrorKind::Deserialization,
                unknown_status_message(name),
            ),
        },
{
    match raw {
        None => Ok(None),
        Some(text) => match decode_string_list(text.as_str()) {
            Err(e) => Err(
                EngineError { kind: ErrorKind::Deserialization, message: error_text(&e) },
            ),
            Ok(names) => match statuses_from_names(&names) {
                Ok(statuses) => Ok(Some(statuses)),
                Err(e) => Err(e),
            },
        },
    }
}

/// The names of the statuses, one for one.
pub open spec fn names_of(statuses: Seq<TaskStatus>) -> Seq<Seq<char>> {
    statuses.map_values(|status: TaskStatus| status.name())
}

/// The names of the statuses, one for one.
pub fn status_names(statuses: &Vec<TaskStatus>) -> (names: Vec<String>)
    ensures
        names.deep_view() == names_of(statuses@),
{
    let mut names: Vec<String> = Vec::new();
    let mut i: usize = 0;
    while i < statuses.len()
        invariant
            i <= statuses.len(),
            names.deep_view() == names_of(statuses@.take(i as int)),
        decreases statuses.len() - i,
    {
        let ghost before = names.deep_view();
        names.push(statuses[i].to_string());
        proof {
            assert(names.deep_view() =~= before.push(statuses[i as int].name()));
            assert(names_of(statuses@.take(i + 1)) =~= names_of(statuses@.take(i as int)).push(
                statuses[i as int].name(),
            ));
        }
        i += 1;
    }
    proof {
        assert(statuses@.take(statuses.len() as int) =~= statuses@);
    }
    names
}

/// Whether one of the observed statuses is a blocking one.
pub open spec fn any_blocking(observed: Seq<TaskStatus>, sources: Seq<TaskStatus>) -> bool {
    exists|i: int| 0 <= i < observed.len() && sources.contains(#[trigger] observed[i])
}

/// Whether the transition is vetoed: the new status is one of the disabled
/// ones, and one of the observed source statuses is a blocking one.
pub open spec fn vetoes(
    disabled: Seq<TaskStatus>,
    sources: Seq<TaskStatus>,
    new_status: TaskStatus,
    observed: Seq<TaskStatus>,
) -> bool {
    disabled.contains(new_status) && any_blocking(observed, sources)
}

/// The explanation of a veto: the status asked for, the blocking source
/// statuses and the disabled statuses.
pub open spec fn veto_message(
    new_status: TaskStatus,
    sources: Seq<TaskStatus>,
    disabled: Seq<TaskStatus>,
) -> Seq<char> {
    "Cannot set status to '"@ + new_status.name()
        + "' because task is blocked by tickets in statuses: "@ + joined(names_of(sources), ", "@)
        + ". Blocked statuses: "@ + joined(names_of(disabled), ", "@)
}

/// Decides a transition for status sets that have been read: it is vetoed
/// if the new status is disabled and one of the observed source statuses
/// is a blocking one, and allowed otherwise.
pub fn check_transition(
    new_status: TaskStatus,
    disabled: &Vec<TaskStatus>,
    sources: &Vec<TaskStatus>,
    observed: &[TaskStatus],
) -> (r: Result<(), EngineError>)
    ensures
        match r {
            Ok(_) => !vetoes(disabled@, sources@, new_status, observed@),
            Err(e) => vetoes(disabled@, sources@, new_status, observed@) && e@ == refusal(
                ErrorKind::Forbidden,
                veto_message(new_status, sources@, disabled@),
            ),
        },
{
    if !contains_status(disabled.as_slice(), new_status) {
        return Ok(());
    }
    let mut i: usize = 0;
    while i < observed.len() && !contains_status(sources.as_slice(), observed[i])
        invariant
            i <= observed.len(),
            forall|j: int| 0 <= j < i ==> !sources@.contains(#[trigger] observed@[j]),
        decreases observed.len() - i,
    {
        i += 1;
    }
    if i == observed.len() {
        return Ok(());
    }
    let source_list = join(&status_names(sources), ", ");
    let disabled_list = join(&status_names(disabled), ", ");
    let mut message = String::from_str("Cannot set status to '");
    message.append(new_status.as_str());
    message.append("' because task is blocked by tickets in statuses: ");
    message.append(source_list.as_str());
    message.append(". Blocked statuses: ");
    message.append(disabled_list.as_str());
    Err(EngineError { kind: ErrorKind::Forbidden, message })
}

/// How a type answers a proposed transition.
pub enum Verdict {
    /// The transition may go ahead.
    Allowed,
    /// The transition is vetoed.
    Vetoed,
    /// The disabled statuses of the type cannot be read.
    UnreadableDisabled,
    /// The blocking source statuses of the type cannot be read.
    UnreadableSources,
}

impl TaskRelationshipTypeView {
    /// What the stored disabled statuses hold.
    pub open spec fn disabled(self) -> StoredStatuses {
        stored_statuses(self.blocking_disabled_statuses)
    }

    /// What the stored blocking source statuses hold.
    pub open spec fn sources(self) -> StoredStatuses {
        stored_statuses(self.blocking_source_statuses)
    }

    /// How the type answers a transition of the target to `new_status`,
    /// where the source tasks are in the `observed` statuses.
    pub open spec fn verdict(self, new_status: TaskStatus, observed: Seq<TaskStatus>) -> Verdict {
        if !self.enforces_blocking {
            Verdict::Allowed
        } else if !self.disabled().readable() {
            Verdict::UnreadableDisabled
        } else if !self.sources().readable() {
            Verdict::UnreadableSources
        } else if vetoes(
            self.disabled().statuses(),
            self.sources().statuses(),
            new_status,
            observed,
        ) {
            Verdict::Vetoed
        } else {
            Verdict::Allowed
        }
    }
}

impl TaskRelationshipTypeView {
    /// Whether `e` is the refusal with which the type answers the
    /// transition: for a veto, forbidden with the explanation; for a status
    /// set that cannot be read, a deserialization error that names the set.
    pub open spec fn refuses_with(
        self,
        new_status: TaskStatus,
        observed: Seq<TaskStatus>,
        e: EngineErrorView,
    ) -> bool {
        match self.verdict(new_status, observed) {
            Verdict::Allowed => false,
            Verdict::Vetoed => e == refusal(
                ErrorKind::Forbidden,
                veto_message(new_status, self.sources().statuses(), self.disabled().statuses()),
            ),
            Verdict::UnreadableDisabled => reports_unreadable(
                e,
                DISABLED_NOT_READ@,
                self.disabled(),
            ),
            Verdict::UnreadableSources => reports_unreadable(e, SOURCES_NOT_READ@, self.sources()),
        }
    }
}

/// Whether `e` reports that the status set of a field cannot be read: a
/// deserialization error whose message is `prefix` and then the detail,
/// which for a name that is no status is the message for that name.
pub open spec fn reports_unreadable(
    e: EngineErrorView,
    prefix: Seq<char>,
    stored: StoredStatuses,
) -> bool {
    &&& e.kind == ErrorKind::Deserialization
    &&& exists|detail: Seq<char>| e.message == prefix + detail
    &&& stored matches StoredStatuses::Unknown(name) ==> e.message == prefix
        + unknown_status_message(name)
}

/// Whether the text of a status set is a JSON list of strings that is not
/// empty.
pub open spec fn holds_statuses(text: Option<Seq<char>>) -> bool {
    text is Some && json_string_list(text->0) is Some && json_string_list(text->0)->0.len() > 0
}

/// Whether the text of a status set is a JSON list of strings that is not
/// empty.
pub fn text_holds_statuses(text: &Option<String>) -> (holds: bool)
    ensures
        holds == holds_statuses(text.deep_view()),
{
    match text {
        None => false,
        Some(stored) => match decode_string_list(stored.as_str()) {
            Ok(list) => list.len() > 0,
            Err(_) => false,
        },
    }
}

/// Whether a status set of a request, if one is given, is not empty.
pub open spec fn not_empty(given: Option<Seq<Seq<char>>>) -> bool {
    given matches Some(list) ==> list.len() > 0
}

/// Whether a status set of a request, if one is given, is not empty.
fn is_not_empty(given: &Option<Vec<String>>) -> (filled: bool)
    ensures
        filled == not_empty(given.deep_view()),
{
    match given {
        Some(list) => list.len() > 0,
        None => true,
    }
}

/// The JSON text of a status set of a request.
pub open spec fn written(names: Option<Seq<Seq<char>>>) -> Option<Seq<char>> {
    match names {
        Some(list) => Some(json_text_of_list(list)),
        None => None,
    }
}

/// Writes a status set of a request as JSON.
pub fn write_status_set(names: &Option<Vec<String>>) -> (text: Option<String>)
    ensures
        text.deep_view() == written(names.deep_view()),
{
    match names {
        None => None,
        Some(list) => match encode_string_list(list) {
            Ok(text) => Some(text),
            Err(_) => None,
        },
    }
}

/// Why a request to create a type is refused, if it is: by the first of
/// these rules that it breaks. A directional type has both labels; a type
/// that enforces blocking has both status sets, neither of them empty,
/// and each reads back from its text as a list that is not empty; the
/// name is not in use; the id is not in use.
pub open spec fn create_refusal(
    db: DatabaseView,
    data: CreateTaskRelationshipTypeView,
    id: u128,
) -> Option<EngineErrorView> {
    if data.is_directional && (data.forward_label is None || data.reverse_label is None) {
        Some(refusal(ErrorKind::Validation, DIRECTIONAL_NEEDS_LABELS@))
    } else if data.enforces_blocking && !(not_empty(data.blocking_disabled_statuses) && not_empty(
        data.blocking_source_statuses,
    ) && created_type(data, id, false, 0).gated()) {
        Some(refusal(ErrorKind::Validation, BLOCKING_NEEDS_STATUSES@))
    } else if db.relationship_type_named(data.name) is Some {
        Some(refusal(ErrorKind::Validation, TYPE_NAME_TAKEN@))
    } else if db.relationship_type(id) is Some {
        Some(refusal(ErrorKind::Validation, TYPE_ID_TAKEN@))
    } else {
        None
    }
}

/// The type that a request creates.
pub open spec fn created_type(
    data: CreateTaskRelationshipTypeView,
    id: u128,
    is_system: bool,
    now: i64,
) -> TaskRelationshipTypeView {
    TaskRelationshipTypeView {
        id,
        name: data.name,
        display_name: data.display_name,
        description: data.description,
        is_system,
        is_directional: data.is_directional,
        forward_label: data.forward_label,
        reverse_label: data.reverse_label,
        enforces_blocking: data.enforces_blocking,
        blocking_disabled_statuses: written(data.blocking_disabled_statuses),
        blocking_source_statuses: written(data.blocking_source_statuses),
        created_at: now,
        updated_at: now,
    }
}

/// The given value where there is one, and the stored value otherwise.
pub open spec fn given_or<T>(given: Option<T>, stored: T) -> T {
    match given {
        Some(value) => value,
        None => stored,
    }
}

/// The given value where there is one, and the stored value otherwise.
pub open spec fn given_or_else<T>(given: Option<T>, stored: Option<T>) -> Option<T> {
    match given {
        Some(value) => Some(value),
        None => stored,
    }
}

/// The stored type with the fields of the request laid over it.
pub open spec fn merged_type(
    stored: TaskRelationshipTypeView,
    data: UpdateTaskRelationshipTypeView,
    now: i64,
) -> TaskRelationshipTypeView {
    TaskRelationshipTypeView {
        id: stored.id,
        name: given_or(data.name, stored.name),
        display_name: given_or(data.display_name, stored.display_name),
        description: given_or_else(data.description, stored.description),
        is_system: stored.is_system,
        is_directional: given_or(data.is_directional, stored.is_directional),
        forward_label: given_or_else(data.forward_label, stored.forward_label),
        reverse_label: given_or_else(data.reverse_label, stored.reverse_label),
        enforces_blocking: given_or(data.enforces_blocking, stored.enforces_blocking),
        blocking_disabled_statuses: if data.blocking_disabled_statuses is Some {
            written(data.blocking_disabled_statuses)
        } else {
            stored.blocking_disabled_statuses
        },
        blocking_source_statuses: if data.blocking_source_statuses is Some {
            written(data.blocking_source_statuses)
        } else {
            stored.blocking_source_statuses
        },
        created_at: stored.created_at,
        updated_at: now,
    }
}

/// Why a request to change a type is refused, if it is: by the first of
/// these rules that it breaks. The type exists; the merged type, if
/// directional, has both labels; the merged type, if it enforces blocking,
/// has both status sets, given or stored, no set given is empty, and each
/// reads back from its text as a list that is not empty; a name given is
/// not that of another type.
pub open spec fn update_refusal(
    db: DatabaseView,
    id: u128,
    data: UpdateTaskRelationshipTypeView,
) -> Option<EngineErrorView> {
    match db.relationship_type(id) {
        None => Some(refusal(ErrorKind::NotFound, TYPE_NOT_FOUND@)),
        Some(stored) => {
            let merged = merged_type(stored, data, 0);
            if !merged.labelled() {
                Some(refusal(ErrorKind::Validation, DIRECTIONAL_NEEDS_LABELS@))
            } else if merged.enforces_blocking && !(not_empty(data.blocking_disabled_statuses)
                && not_empty(data.blocking_source_statuses) && merged.gated()) {
                Some(refusal(ErrorKind::Validation, BLOCKING_NEEDS_STATUSES@))
            } else if name_of_another(db, id, data.name) {
                Some(refusal(ErrorKind::Validation, TYPE_NAME_TAKEN@))
            } else {
                None
            }
        },
    }
}

/// Whether the name given is that of a type other than `id`.
pub open spec fn name_of_another(db: DatabaseView, id: u128, name: Option<Seq<char>>) -> bool {
    &&& name matches Some(n)
    &&& db.relationship_type_named(n) matches Some(other)
    &&& other.id != id
}

/// Why a request to delete a type is refused, if it is: the type does not
/// exist, or it is a built-in type.
pub open spec fn delete_refusal(db: DatabaseView, id: u128) -> Option<EngineErrorView> {
    match db.relationship_type(id) {
        None => Some(refusal(ErrorKind::NotFound, TYPE_NOT_FOUND@)),
        Some(stored) => if stored.is_system {
            Some(refusal(ErrorKind::Forbidden, SYSTEM_TYPE_KEPT@))
        } else {
            None
        },
    }
}

/// The store after the type `id` has been deleted: without that type, and
/// without the relationships of that type.
pub open spec fn without_type(db: DatabaseView, id: u128) -> DatabaseView {
    DatabaseView {
        relationship_types: db.relationship_types.remove(
            first_index(db.relationship_types, TaskRelationshipTypeView::with_id(id)),
        ),
        relationships: kept(db.relationships, EdgeFilter::Type(id).rejecting()),
        ..db
    }
}

/// The given text where there is one, and a copy of the stored text
/// otherwise.
fn text_or(given: &Option<String>, stored: &String) -> (text: String)
    ensures
        text@ == given_or(given.deep_view(), stored@),
{
    match given {
        Some(value) => value.clone(),
        None => stored.clone(),
    }
}

/// The given text where there is one, and a copy of the stored text
/// otherwise.
fn text_or_else(given: &Option<String>, stored: &Option<String>) -> (text: Option<String>)
    ensures
        text.deep_view() == given_or_else(given.deep_view(), stored.deep_view()),
{
    match given {
        Some(value) => Some(value.clone()),
        None => stored.clone(),
    }
}

impl TaskRelationshipType {
    /// Creates a relationship type under a new random id.
    ///
    /// The outcome is that of [`TaskRelationshipType::create_with_id`] for
    /// the id that was drawn, with `is_system` false.
    pub fn create(db: &mut Database, data: &CreateTaskRelationshipType, now: Timestamp) -> (r:
        Result<TaskRelationshipType, EngineError>)
        requires
            old(db).wf(),
        ensures
            final(db).wf(),
            match r {
                Ok(row) => create_refusal(old(db)@, data@, row.id) is None && row@ == created_type(
                    data@,
                    row.id,
                    false,
                    now@,
                ) && final(db)@ == (DatabaseView {
                    relationship_types: old(db)@.relationship_types.push(row@),
                    ..old(db)@
                }),
                Err(e) => final(db)@ == old(db)@ && exists|id: u128|
                    create_refusal(old(db)@, data@, id) == Some(e@),
            },
    {
        let id = fresh_id();
        TaskRelationshipType::create_with_id(db, data, id, false, now)
    }

    /// Creates a relationship type under the given id, built-in or not.
    ///
    /// The request is refused by the first rule of [`create_refusal`] that
    /// it breaks, and the store is then unchanged. Otherwise the new type
    /// is added behind the stored ones and handed back.
    pub fn create_with_id(
        db: &mut Database,
        data: &CreateTaskRelationshipType,
        id: u128,
        is_system: bool,
        now: Timestamp,
    ) -> (r: Result<TaskRelationshipType, EngineError>)
        requires
            old(db).wf(),
        ensures
            final(db).wf(),
            match r {
                Ok(row) => create_refusal(old(db)@, data@, id) is None && row@ == created_type(
                    data@,
                    id,
                    is_system,
                    now@,
                ) && final(db)@ == (DatabaseView {
                    relationship_types: old(db)@.relationship_types.push(row@),
                    ..old(db)@
                }),
                Err(e) => create_refusal(old(db)@, data@, id) == Some(e@) && final(db)@ == old(
                    db,
                )@,
            },
    {
        if data.is_directional && (data.forward_label.is_none() || data.reverse_label.is_none()) {
            return Err(EngineError::validation(DIRECTIONAL_NEEDS_LABELS));
        }
        let disabled = write_status_set(&data.blocking_disabled_statuses);
        let sources = write_status_set(&data.blocking_source_statuses);
        if data.enforces_blocking && !(is_not_empty(&data.blocking_disabled_statuses)
            && is_not_empty(&data.blocking_source_statuses) && text_holds_statuses(&disabled)
            && text_holds_statuses(&sources)) {
            return Err(EngineError::validation(BLOCKING_NEEDS_STATUSES));
        }
        let named = TaskRelationshipType::position_of_name(db, data.name.as_str());
        if named < db.relationship_types.len() {
            return Err(EngineError::validation(TYPE_NAME_TAKEN));
        }
        let held = TaskRelationshipType::position(db, id);
        if held < db.relationship_types.len() {
            return Err(EngineError::validation(TYPE_ID_TAKEN));
        }
        let row = TaskRelationshipType {
            id,
            name: data.name.clone(),
            display_name: data.display_name.clone(),
            description: data.description.clone(),
            is_system,
            is_directional: data.is_directional,
            forward_label: data.forward_label.clone(),
            reverse_label: data.reverse_label.clone(),
            enforces_blocking: data.enforces_blocking,
            blocking_disabled_statuses: disabled,
            blocking_source_statuses: sources,
            created_at: now,
            updated_at: now,
        };
        let copy = row.clone();
        proof {
            db.lemma_view();
            let rows = db@.relationship_types;
            lemma_first_index(rows, TaskRelationshipTypeView::with_id(id));
            lemma_first_index(rows, TaskRelationshipTypeView::with_name(data@.name));
            lemma_distinct_push(rows, TaskRelationshipTypeView::id_key(), row@);
            lemma_distinct_push(rows, TaskRelationshipTypeView::name_key(), row@);
        }
        db.relationship_types.push(row);
        proof {
            db.lemma_view();
            assert(db.relationship_types.deep_view() =~= old(db)@.relationship_types.push(copy@));
        }
        Ok(copy)
    }

    /// Changes a relationship type: the fields given are laid over the
    /// stored ones, and both structural rules are checked on the result.
    ///
    /// The request is refused by the first rule of [`update_refusal`] that
    /// it breaks, and the store is then unchanged. Otherwise the merged
    /// type takes the place of the stored one and is handed back.
    pub fn update(
        db: &mut Database,
        id: u128,
        data: &UpdateTaskRelationshipType,
        now: Timestamp,
    ) -> (r: Result<TaskRelationshipType, EngineError>)
        requires
            old(db).wf(),
        ensures
            final(db).wf(),
            match r {
                Ok(row) => update_refusal(old(db)@, id, data@) is None && old(
                    db,
                )@.relationship_type(id) is Some && row@ == merged_type(
                    old(db)@.relationship_type(id)->0,
                    data@,
                    now@,
                ) && final(db)@ == (DatabaseView {
                    relationship_types: old(db)@.relationship_types.update(
                        first_index(
                            old(db)@.relationship_types,
                            TaskRelationshipTypeView::with_id(id),
                        ),
                        row@,
                    ),
                    ..old(db)@
                }),
                Err(e) => update_refusal(old(db)@, id, data@) == Some(e@) && final(db)@ == old(
                    db,
                )@,
            },
    {
        let at = TaskRelationshipType::position(db, id);
        if at >= db.relationship_types.len() {
            return Err(EngineError::not_found(TYPE_NOT_FOUND));
        }
        let stored = &db.relationship_types[at];
        let is_directional = match data.is_directional {
            Some(value) => value,
            None => stored.is_directional,
        };
        let forward_label = text_or_else(&data.forward_label, &stored.forward_label);
        let reverse_label = text_or_else(&data.reverse_label, &stored.reverse_label);
        let enforces_blocking = match data.enforces_blocking {
            Some(value) => value,
            None => stored.enforces_blocking,
        };
        if is_directional && (forward_label.is_none() || reverse_label.is_none()) {
            return Err(EngineError::validation(DIRECTIONAL_NEEDS_LABELS));
        }
        let disabled = if data.blocking_disabled_statuses.is_some() {
            write_status_set(&data.blocking_disabled_statuses)
        } else {
            stored.blocking_disabled_statuses.clone()
        };
        let sources = if data.blocking_source_statuses.is_some() {
            write_status_set(&data.blocking_source_statuses)
        } else {
            stored.blocking_source_statuses.clone()
        };
        if enforces_blocking && !(is_not_empty(&data.blocking_disabled_statuses) && is_not_empty(
            &data.blocking_source_statuses,
        ) && text_holds_statuses(&disabled) && text_holds_statuses(&sources)) {
            return Err(EngineError::validation(BLOCKING_NEEDS_STATUSES));
        }
        let name = text_or(&data.name, &stored.name);
        if data.name.is_some() {
            let named = TaskRelationshipType::position_of_name(db, name.as_str());
            if named < db.relationship_types.len() && db.relationship_types[named].id != id {
                return Err(EngineError::validation(TYPE_NAME_TAKEN));
            }
        }
        let row = TaskRelationshipType {
            id: stored.id,
            name,
            display_name: text_or(&data.display_name, &stored.display_name),
            description: text_or_else(&data.description, &stored.description),
            is_system: stored.is_system,
            is_directional,
            forward_label,
            reverse_label,
            enforces_blocking,
            blocking_disabled_statuses: disabled,
            blocking_source_statuses: sources,
            created_at: stored.created_at,
            updated_at: now,
        };
        let copy = row.clone();
        proof {
            db.lemma_view();
            let rows = db@.relationship_types;
            let spot = at as int;
            lemma_distinct_replace(rows, TaskRelationshipTypeView::id_key(), spot, row@);
            let named = first_index(rows, TaskRelationshipTypeView::with_name(row@.name));
            lemma_first_index(rows, TaskRelationshipTypeView::with_name(row@.name));
            if named < rows.len() {
                // The one row of that name is the row that is changed.
                lemma_distinct_from_others(rows, TaskRelationshipTypeView::id_key(), spot);
                lemma_distinct_replace(rows, TaskRelationshipTypeView::name_key(), spot, row@);
            } else {
                assert forall|i: int| 0 <= i < rows.len() && i != spot implies (
                TaskRelationshipTypeView::name_key())(#[trigger] rows[i]) != (
                TaskRelationshipTypeView::name_key())(row@) by {
                    assert(!(TaskRelationshipTypeView::with_name(row@.name))(rows[i]));
                }
                lemma_distinct_update(rows, TaskRelationshipTypeView::name_key(), spot, row@);
            }
        }
        db.relationship_types.set(at, row);
        proof {
            db.lemma_view();
            assert(db.relationship_types.deep_view() =~= old(db)@.relationship_types.update(
                at as int,
                copy@,
            ));
        }
        Ok(copy)
    }

    /// Deletes a relationship type, and with it the relationships of that
    /// type. A built-in type is never deleted.
    ///
    /// Hands back the number of types taken out, which is one.
    pub fn delete(db: &mut Database, id: u128) -> (r: Result<u64, EngineError>)
        requires
            old(db).wf(),
        ensures
            final(db).wf(),
            match r {
                Ok(count) => delete_refusal(old(db)@, id) is None && count == 1 && final(db)@
                    == without_type(old(db)@, id),
                Err(e) => delete_refusal(old(db)@, id) == Some(e@) && final(db)@ == old(db)@,
            },
    {
        let at = TaskRelationshipType::position(db, id);
        if at >= db.relationship_types.len() {
            return Err(EngineError::not_found(TYPE_NOT_FOUND));
        }
        if db.relationship_types[at].is_system {
            return Err(EngineError::forbidden(SYSTEM_TYPE_KEPT));
        }
        proof {
            db.lemma_view();
            lemma_distinct_remove(
                db@.relationship_types,
                TaskRelationshipTypeView::id_key(),
                at as int,
            );
            lemma_distinct_remove(
                db@.relationship_types,
                TaskRelationshipTypeView::name_key(),
                at as int,
            );
        }
        db.relationship_types.remove(at);
        proof {
            db.lemma_view();
            assert(db.relationship_types.deep_view() =~= old(db)@.relationship_types.remove(
                at as int,
            ));
        }
        let ghost edges = db@.relationships;
        remove_matching(db, EdgeFilter::Type(id));
        proof {
            lemma_kept(edges, EdgeFilter::Type(id).rejecting());
            lemma_kept_distinct(
                edges,
                EdgeFilter::Type(id).rejecting(),
                TaskRelationshipView::id_key(),
            );
        }
        Ok(1)
    }

    /// The statuses that a blocked target may not enter.
    pub fn blocking_disabled_statuses_vec(&self) -> (r: Result<
        Option<Vec<TaskStatus>>,
        EngineError,
    >)
        ensures
            match self@.disabled() {
                StoredStatuses::Absent => r matches Ok(None),
                StoredStatuses::Listed(statuses) => r matches Ok(Some(v)) && v@ == statuses,
                StoredStatuses::Malformed => r matches Err(e) && e.kind
                    == ErrorKind::Deserialization,
                StoredStatuses::Unknown(name) => r matches Err(e) && e@ == refusal(
                    ErrorKind::Deserialization,
                    unknown_status_message(name),
                ),
            },
    {
        parse_status_set(&self.blocking_disabled_statuses)
    }

    /// The source statuses that count as still blocking.
    pub fn blocking_source_statuses_vec(&self) -> (r: Result<Option<Vec<TaskStatus>>, EngineError>)
        ensures
            match self@.sources() {
                StoredStatuses::Absent => r matches Ok(None),
                StoredStatuses::Listed(statuses) => r matches Ok(Some(v)) && v@ == statuses,
                StoredStatuses::Malformed => r matches Err(e) && e.kind
                    == ErrorKind::Deserialization,
                StoredStatuses::Unknown(name) => r matches Err(e) && e@ == refusal(
                    ErrorKind::Deserialization,
                    unknown_status_message(name),
                ),
            },
    {
        parse_status_set(&self.blocking_source_statuses)
    }

    /// Decides whether the target of an edge of this type may enter
    /// `new_status` while the source tasks are in `blocking_task_statuses`.
    ///
    /// A type that does not enforce blocking allows everything. Otherwise
    /// both status sets are read first, and a set that cannot be read is an
    /// error, not an empty set. The transition is vetoed if the new status
    /// is disabled and one of the source statuses is a blocking one.
    pub fn validate_blocking_status(
        &self,
        new_status: &TaskStatus,
        blocking_task_statuses: &[TaskStatus],
    ) -> (r: Result<(), EngineError>)
        ensures
            match r {
                Ok(_) => self@.verdict(*new_status, blocking_task_statuses@) is Allowed,
                Err(e) => self@.refuses_with(*new_status, blocking_task_statuses@, e@),
            },
    {
        if !self.enforces_blocking {
            return Ok(());
        }
        let disabled = match self.blocking_disabled_statuses_vec() {
            Ok(statuses) => statuses,
            Err(e) => {
                let mut message = String::from_str(DISABLED_NOT_READ);
                message.append(e.message.as_str());
                return Err(EngineError { kind: ErrorKind::Deserialization, message });
            },
        };
        let sources = match self.blocking_source_statuses_vec() {
            Ok(statuses) => statuses,
            Err(e) => {
                let mut message = String::from_str(SOURCES_NOT_READ);
                message.append(e.message.as_str());
                return Err(EngineError { kind: ErrorKind::Deserialization, message });
            },
        };
        let disabled = match disabled {
            Some(statuses) => statuses,
            None => Vec::new(),
        };
        let sources = match sources {
            Some(statuses) => statuses,
            None => Vec::new(),
        };
        check_transition(*new_status, &disabled, &sources, blocking_task_statuses)
    }

    /// The place of the type with the given id among the types, or their
    /// number if there is none.
    pub(crate) fn position(db: &Database, id: u128) -> (at: usize)
        ensures
            at == first_index(db@.relationship_types, TaskRelationshipTypeView::with_id(id)),
            at <= db.relationship_types.len(),
            at < db.relationship_types.len() ==> db.relationship_types[at as int].id == id,
            db@.relationship_type(id) == if at < db.relationship_types.len() {
                Some(db.relationship_types[at as int]@)
            } else {
                None
            },
    {
        proof {
            db.lemma_view();
        }
        let mut at: usize = 0;
        while at < db.relationship_types.len() && db.relationship_types[at].id != id
            invariant
                at <= db.relationship_types.len(),
                forall|i: int| 0 <= i < at ==> db.relationship_types[i].id != id,
            decreases db.relationship_types.len() - at,
        {
            at += 1;
        }
        proof {
            lemma_first_index_is(
                db@.relationship_types,
                TaskRelationshipTypeView::with_id(id),
                at as int,
            );
        }
        at
    }

    /// The place of the type with the given name among the types, or their
    /// number if there is none.
    pub(crate) fn position_of_name(db: &Database, name: &str) -> (at: usize)
        ensures
            at == first_index(db@.relationship_types, TaskRelationshipTypeView::with_name(name@)),
            at <= db.relationship_types.len(),
            at < db.relationship_types.len() ==> db.relationship_types[at as int].name@ == name@,
            db@.relationship_type_named(name@) == if at < db.relationship_types.len() {
                Some(db.relationship_types[at as int]@)
            } else {
                None
            },
    {
        proof {
            db.lemma_view();
        }
        let mut at: usize = 0;
        while at < db.relationship_types.len() && !text_eq(
            db.relationship_types[at].name.as_str(),
            name,
        )
            invariant
                at <= db.relationship_types.len(),
                forall|i: int| 0 <= i < at ==> db.relationship_types[i].name@ != name@,
            decreases db.relationship_types.len() - at,
        {
            at += 1;
        }
        proof {
            lemma_first_index_is(
                db@.relationship_types,
                TaskRelationshipTypeView::with_name(name@),
                at as int,
            );
        }
        at
    }

    /// Puts `row` into `sorted` at its place by display name, behind the
    /// rows with the same display name.
    fn insert_by_display_name(sorted: &mut Vec<TaskRelationshipType>, row: TaskRelationshipType)
        ensures
            final(sorted).deep_view() == insert_ordered(
                old(sorted).deep_view(),
                row@,
                TaskRelationshipTypeView::by_display_name(),
            ),
    {
        let ghost rows = sorted.deep_view();
        let mut at: usize = 0;
        while at < sorted.len() && !text_lt(
            row.display_name.as_str(),
            sorted[at].display_name.as_str(),
        )
            invariant
                at <= sorted.len(),
                sorted.deep_view() == rows,
                forall|i: int|
                    0 <= i < at ==> !text_before(row@.display_name, (#[trigger] rows[i]).display_name),
            decreases sorted.len() - at,
        {
            proof {
                assert(rows[at as int] == sorted[at as int]@);
            }
            at += 1;
        }
        proof {
            if at < sorted.len() {
                assert(rows[at as int] == sorted[at as int]@);
            }
            lemma_insert_at(rows, row@, TaskRelationshipTypeView::by_display_name(), at as int);
        }
        sorted.insert(at, row);
        proof {
            assert(sorted.deep_view() =~= rows.insert(at as int, row@));
        }
    }

    /// Every relationship type, by display name.
    pub fn find_all(db: &Database) -> (found: Vec<TaskRelationshipType>)
        ensures
            found.deep_view() == ordered(
                db@.relationship_types,
                TaskRelationshipTypeView::by_display_name(),
            ),
    {
        proof {
            db.lemma_view();
        }
        let ghost rows = db@.relationship_types;
        let ghost before = TaskRelationshipTypeView::by_display_name();
        let mut found: Vec<TaskRelationshipType> = Vec::new();
        let mut i: usize = 0;
        while i < db.relationship_types.len()
            invariant
                i <= db.relationship_types.len(),
                rows == db.relationship_types.deep_view(),
                before == TaskRelationshipTypeView::by_display_name(),
                found.deep_view() == ordered(rows.take(i as int), before),
            decreases db.relationship_types.len() - i,
        {
            proof {
                assert(rows.take(i + 1).drop_last() =~= rows.take(i as int));
            }
            TaskRelationshipType::insert_by_display_name(
                &mut found,
                db.relationship_types[i].clone(),
            );
            i += 1;
        }
        proof {
            assert(rows.take(rows.len() as int) =~= rows);
        }
        found
    }

    /// The relationship type with the given id.
    pub fn find_by_id(db: &Database, id: u128) -> (found: Option<TaskRelationshipType>)
        ensures
            found.deep_view() == db@.relationship_type(id),
    {
        let at = TaskRelationshipType::position(db, id);
        if at < db.relationship_types.len() {
            Some(db.relationship_types[at].clone())
        } else {
            None
        }
    }

    /// The relationship type with the given name.
    pub fn find_by_name(db: &Database, name: &str) -> (found: Option<TaskRelationshipType>)
        ensures
            found.deep_view() == db@.relationship_type_named(name@),
    {
        let at = TaskRelationshipType::position_of_name(db, name);
        if at < db.relationship_types.len() {
            Some(db.relationship_types[at].clone())
        } else {
            None
        }
    }

    /// The built-in relationship types, by display name.
    pub fn find_system_types(db: &Database) -> (found: Vec<TaskRelationshipType>)
        ensures
            found.deep_view() == ordered(
                kept(db@.relationship_types, TaskRelationshipTypeView::system()),
                TaskRelationshipTypeView::by_display_name(),
            ),
    {
        proof {
            db.lemma_view();
        }
        let ghost rows = db@.relationship_types;
        let ghost before = TaskRelationshipTypeView::by_display_name();
        let ghost system = TaskRelationshipTypeView::system();
        let mut found: Vec<TaskRelationshipType> = Vec::new();
        let mut i: usize = 0;
        while i < db.relationship_types.len()
            invariant
                i <= db.relationship_types.len(),
                rows == db.relationship_types.deep_view(),
                before == TaskRelationshipTypeView::by_display_name(),
                system == TaskRelationshipTypeView::system(),
                found.deep_view() == ordered(kept(rows.take(i as int), system), before),
            decreases db.relationship_types.len() - i,
        {
            proof {
                assert(rows.take(i + 1).drop_last() =~= rows.take(i as int));
                assert(kept(rows.take(i as int), system).push(rows[i as int]).drop_last()
                    =~= kept(rows.take(i as int), system));
            }
            if db.relationship_types[i].is_system {
                TaskRelationshipType::insert_by_display_name(
                    &mut found,
                    db.relationship_types[i].clone(),
                );
            }
            i += 1;
        }
        proof {
            assert(rows.take(rows.len() as int) =~= rows);
        }
        found
    }
}

} // verus!
