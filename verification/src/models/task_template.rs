//! Task templates: titles and descriptions from which tickets are made.

use crate::database::{Database, DatabaseView};
use crate::error::{refusal, EngineError, EngineErrorView, ErrorKind};
use crate::ids::fresh_id;
use crate::table::{
    first_index, first_match, insert_ordered, kept, lemma_distinct_push,
    lemma_distinct_remove, lemma_distinct_replace, lemma_distinct_update, lemma_first_index, lemma_first_index_is,
    lemma_insert_at, ordered,
};
use crate::text::{text_before, text_eq, text_lt};
use crate::timestamp::Timestamp;
use vstd::prelude::*;
use vstd::string::*;

verus! {

// The messages of the refusals.

pub const TEMPLATE_NOT_FOUND: &'static str = "Template not found";

pub const TEMPLATE_ID_TAKEN: &'static str = "A template with this id already exists";

/// A template for tickets.
#[derive(Debug)]
pub struct TaskTemplate {
    pub id: u128,
    pub group_id: Option<u128>,
    pub template_name: String,
    pub template_title: String,
    pub ticket_title: String,
    pub ticket_description: String,
    pub created_at: Timestamp,
    pub updated_at: Timestamp,
}

/// The mathematical value of a [`TaskTemplate`].
pub struct TaskTemplateView {
    pub id: u128,
    pub group_id: Option<u128>,
    pub template_name: Seq<char>,
    pub template_title: Seq<char>,
    pub ticket_title: Seq<char>,
    pub ticket_description: Seq<char>,
    pub created_at: i64,
    pub updated_at: i64,
}

impl View for TaskTemplate {
    type V = TaskTemplateView;

    open spec fn view(&self) -> TaskTemplateView {
        TaskTemplateView {
            id: self.id,
            group_id: self.group_id,
            template_name: self.template_name@,
            template_title: self.template_title@,
            ticket_title: self.ticket_title@,
            ticket_description: self.ticket_description@,
            created_at: self.created_at@,
            updated_at: self.updated_at@,
        }
    }
}

impl DeepView for TaskTemplate {
    type V = TaskTemplateView;

    open spec fn deep_view(&self) -> TaskTemplateView {
        self@
    }
}

impl Clone for TaskTemplate {
    fn clone(&self) -> (copy: Self)
        ensures
            copy@ == self@,
    {
        TaskTemplate {
            id: self.id,
            group_id: self.group_id,
            template_name: self.template_name.clone(),
            template_title: self.template_title.clone(),
            ticket_title: self.ticket_title.clone(),
            ticket_description: self.ticket_description.clone(),
            created_at: self.created_at,
            updated_at: self.updated_at,
        }
    }
}

impl TaskTemplateView {
    /// The key of a template: its id.
    pub open spec fn id_key() -> spec_fn(TaskTemplateView) -> u128 {
        |t: TaskTemplateView| t.id
    }

    /// The second key of a template: its name.
    pub open spec fn name_key() -> spec_fn(TaskTemplateView) -> Seq<char> {
        |t: TaskTemplateView| t.template_name
    }

    /// The templates with the given id.
    pub open spec fn with_id(id: u128) -> spec_fn(TaskTemplateView) -> bool {
        |t: TaskTemplateView| t.id == id
    }

    /// The templates with the given name.
    pub open spec fn with_name(name: Seq<char>) -> spec_fn(TaskTemplateView) -> bool {
        |t: TaskTemplateView| t.template_name == name
    }

    /// The templates in the given group, or in none.
    pub open spec fn in_group(group: Option<u128>) -> spec_fn(TaskTemplateView) -> bool {
        |t: TaskTemplateView| t.group_id == group
    }

    /// The order of templates in listings: by title.
    pub open spec fn by_title() -> spec_fn(TaskTemplateView, TaskTemplateView) -> bool {
        |a: TaskTemplateView, b: TaskTemplateView| text_before(a.template_title, b.template_title)
    }
}

/// A request to create a template.
#[derive(Debug)]
pub struct CreateTaskTemplate {
    pub group_id: Option<u128>,
    pub template_name: String,
    pub template_title: String,
    pub ticket_title: String,
    pub ticket_description: String,
}

/// A request to change a template. A field that is `None` keeps its
/// stored value.
#[derive(Debug)]
pub struct UpdateTaskTemplate {
    pub group_id: Option<u128>,
    pub template_name: Option<String>,
    pub template_title: Option<String>,
    pub ticket_title: Option<String>,
    pub ticket_description: Option<String>,
}

/// The message for a template name that is in use.
pub open spec fn name_taken_message(name: Seq<char>) -> Seq<char> {
    "Template with name '"@ + name + "' already exists"@
}

/// The refusal of a template name that is in use.
fn name_taken(name: &str) -> (e: EngineError)
    ensures
        e@ == refusal(ErrorKind::Validation, name_taken_message(name@)),
{
    let mut message = String::from_str("Template with name '");
    message.append(name);
    message.append("' already exists");
    EngineError { kind: ErrorKind::Validation, message }
}

impl DatabaseView {
    /// The template with the given id.
    pub open spec fn template(self, id: u128) -> Option<TaskTemplateView> {
        first_match(self.templates, TaskTemplateView::with_id(id))
    }

    /// The template with the given name.
    pub open spec fn template_named(self, name: Seq<char>) -> Option<TaskTemplateView> {
        first_match(self.templates, TaskTemplateView::with_name(name))
    }

    /// Why a request to create a template is refused, if it is: the name
    /// is in use, or the id is.
    pub open spec fn template_create_refusal(self, name: Seq<char>, id: u128) -> Option<
        EngineErrorView,
    > {
        if self.template_named(name) is Some {
            Some(refusal(ErrorKind::Validation, name_taken_message(name)))
        } else if self.template(id) is Some {
            Some(refusal(ErrorKind::Validation, TEMPLATE_ID_TAKEN@))
        } else {
            None
        }
    }

    /// Why a request to change a template is refused, if it is: the
    /// template does not exist, or the name it is to get is not its own
    /// and is in use.
    pub open spec fn template_update_refusal(self, id: u128, name: Option<Seq<char>>) -> Option<
        EngineErrorView,
    > {
        match self.template(id) {
            None => Some(refusal(ErrorKind::NotFound, TEMPLATE_NOT_FOUND@)),
            Some(stored) => if name is Some && name->0 != stored.template_name
                && self.template_named(name->0) is Some {
                Some(refusal(ErrorKind::Validation, name_taken_message(name->0)))
            } else {
                None
            },
        }
    }
}

/// The stored template with the fields of the request laid over it.
pub open spec fn merged_template(
    stored: TaskTemplateView,
    group_id: Option<u128>,
    template_name: Option<Seq<char>>,
    template_title: Option<Seq<char>>,
    ticket_title: Option<Seq<char>>,
    ticket_description: Option<Seq<char>>,
    now: i64,
) -> TaskTemplateView {
    TaskTemplateView {
        id: stored.id,
        group_id: match group_id {
            Some(group) => Some(group),
            None => stored.group_id,
        },
        template_name: match template_name {
            Some(text) => text,
            None => stored.template_name,
        },
        template_title: match template_title {
            Some(text) => text,
            None => stored.template_title,
        },
        ticket_title: match ticket_title {
            Some(text) => text,
            None => stored.ticket_title,
        },
        ticket_description: match ticket_description {
            Some(text) => text,
            None => stored.ticket_description,
        },
        created_at: stored.created_at,
        updated_at: now,
    }
}

/// The given text where there is one, and a copy of the stored text
/// otherwise.
fn text_or(given: &Option<String>, stored: &String) -> (text: String)
    ensures
        text@ == match given.deep_view() {
            Some(value) => value,
            None => stored@,
        },
{
    match given {
        Some(value) => value.clone(),
        None => stored.clone(),
    }
}

impl TaskTemplate {
    /// The place of the template with the given id among the templates,
    /// or their number if there is none.
    pub(crate) fn position(db: &Database, id: u128) -> (at: usize)
        ensures
            at == first_index(db@.templates, TaskTemplateView::with_id(id)),
            at <= db.templates.len(),
            at < db.templates.len() ==> db.templates[at as int].id == id,
            db@.template(id) == if at < db.templates.len() {
                Some(db.templates[at as int]@)
            } else {
                None
            },
    {
        proof {
            db.lemma_view();
        }
        let mut at: usize = 0;
        while at < db.templates.len() && db.templates[at].id != id
            invariant
                at <= db.templates.len(),
                forall|i: int| 0 <= i < at ==> db.templates[i].id != id,
            decreases db.templates.len() - at,
        {
            at += 1;
        }
        proof {
            lemma_first_index_is(db@.templates, TaskTemplateView::with_id(id), at as int);
        }
        at
    }

    /// The place of the template with the given name among the templates,
    /// or their number if there is none.
    pub(crate) fn position_of_name(db: &Database, name: &str) -> (at: usize)
        ensures
            at == first_index(db@.templates, TaskTemplateView::with_name(name@)),
            at <= db.templates.len(),
            at < db.templates.len() ==> db.templates[at as int].template_name@ == name@,
            db@.template_named(name@) == if at < db.templates.len() {
                Some(db.templates[at as int]@)
            } else {
                None
            },
    {
        proof {
            db.lemma_view();
        }
        let mut at: usize = 0;
        while at < db.templates.len() && !text_eq(db.templates[at].template_name.as_str(), name)
            invariant
                at <= db.templates.len(),
                forall|i: int| 0 <= i < at ==> db.templates[i].template_name@ != name@,
            decreases db.templates.len() - at,
        {
            at += 1;
        }
        proof {
            lemma_first_index_is(db@.templates, TaskTemplateView::with_name(name@), at as int);
        }
        at
    }

    /// Puts `row` into `sorted` at its place by title, behind the rows
    /// with the same title.
    fn insert_by_title(sorted: &mut Vec<TaskTemplate>, row: TaskTemplate)
        ensures
            final(sorted).deep_view() == insert_ordered(
                old(sorted).deep_view(),
                row@,
                TaskTemplateView::by_title(),
            ),
    {
        let ghost rows = sorted.deep_view();
        let mut at: usize = 0;
        while at < sorted.len() && !text_lt(
            row.template_title.as_str(),
            sorted[at].template_title.as_str(),
        )
            invariant
                at <= sorted.len(),
                sorted.deep_view() == rows,
                forall|i: int|
                    0 <= i < at ==> !text_before(
                        row@.template_title,
                        (#[trigger] rows[i]).template_title,
                    ),
            decreases sorted.len() - at,
        {
            proof {
                assert(rows[at as int] == sorted[at as int]@);
            }
            at += 1;
        }
        proof {
            if at < sorted.len() {
                assert(rows[at as int] == sorted[at as int]@);
            }
            lemma_insert_at(rows, row@, TaskTemplateView::by_title(), at as int);
        }
        sorted.insert(at, row);
        proof {
            assert(sorted.deep_view() =~= rows.insert(at as int, row@));
        }
    }

    /// Every template, by title.
    pub fn find_all(db: &Database) -> (found: Vec<TaskTemplate>)
        ensures
            found.deep_view() == ordered(db@.templates, TaskTemplateView::by_title()),
    {
        proof {
            db.lemma_view();
        }
        let ghost rows = db@.templates;
        let mut found: Vec<TaskTemplate> = Vec::new();
        let mut i: usize = 0;
        while i < db.templates.len()
            invariant
                i <= db.templates.len(),
                rows == db.templates.deep_view(),
                found.deep_view() == ordered(rows.take(i as int), TaskTemplateView::by_title()),
            decreases db.templates.len() - i,
        {
            proof {
                assert(rows.take(i + 1).drop_last() =~= rows.take(i as int));
            }
            TaskTemplate::insert_by_title(&mut found, db.templates[i].clone());
            i += 1;
        }
        proof {
            assert(rows.take(rows.len() as int) =~= rows);
        }
        found
    }

    /// The template with the given id.
    pub fn find_by_id(db: &Database, id: u128) -> (found: Option<TaskTemplate>)
        ensures
            found.deep_view() == db@.template(id),
    {
        let at = TaskTemplate::position(db, id);
        if at < db.templates.len() {
            Some(db.templates[at].clone())
        } else {
            None
        }
    }

    /// The template with the given name.
    pub fn find_by_template_name(db: &Database, template_name: &str) -> (found: Option<
        TaskTemplate,
    >)
        ensures
            found.deep_view() == db@.template_named(template_name@),
    {
        let at = TaskTemplate::position_of_name(db, template_name);
        if at < db.templates.len() {
            Some(db.templates[at].clone())
        } else {
            None
        }
    }

    /// The templates in the given group, or in none if `group_id` is
    /// `None`, by title.
    pub fn find_by_group_id(db: &Database, group_id: Option<u128>) -> (found: Vec<TaskTemplate>)
        ensures
            found.deep_view() == ordered(
                kept(db@.templates, TaskTemplateView::in_group(group_id)),
                TaskTemplateView::by_title(),
            ),
    {
        proof {
            db.lemma_view();
        }
        let ghost rows = db@.templates;
        let ghost keep = TaskTemplateView::in_group(group_id);
        let mut found: Vec<TaskTemplate> = Vec::new();
        let mut i: usize = 0;
        while i < db.templates.len()
            invariant
                i <= db.templates.len(),
                rows == db.templates.deep_view(),
                keep == TaskTemplateView::in_group(group_id),
                found.deep_view() == ordered(
                    kept(rows.take(i as int), keep),
                    TaskTemplateView::by_title(),
                ),
            decreases db.templates.len() - i,
        {
            proof {
                assert(rows.take(i + 1).drop_last() =~= rows.take(i as int));
                assert(kept(rows.take(i as int), keep).push(rows[i as int]).drop_last() =~= kept(
                    rows.take(i as int),
                    keep,
                ));
            }
            let same = match (db.templates[i].group_id, group_id) {
                (Some(a), Some(b)) => a == b,
                (None, None) => true,
                _ => false,
            };
            if same {
                TaskTemplate::insert_by_title(&mut found, db.templates[i].clone());
            }
            i += 1;
        }
        proof {
            assert(rows.take(rows.len() as int) =~= rows);
        }
        found
    }

    /// The number of templates in the given group.
    pub fn count_in_group(db: &Database, group_id: u128) -> (count: usize)
        ensures
            count == db@.templates_in(group_id).len(),
    {
        proof {
            db.lemma_view();
        }
        let ghost rows = db@.templates;
        let ghost keep = TaskTemplateView::in_group(Some(group_id));
        let mut count: usize = 0;
        let mut i: usize = 0;
        while i < db.templates.len()
            invariant
                i <= db.templates.len(),
                rows == db.templates.deep_view(),
                keep == TaskTemplateView::in_group(Some(group_id)),
                count == kept(rows.take(i as int), keep).len(),
                count <= i,
            decreases db.templates.len() - i,
        {
            proof {
                assert(rows.take(i + 1).drop_last() =~= rows.take(i as int));
            }
            match db.templates[i].group_id {
                Some(group) => {
                    if group == group_id {
                        count += 1;
                    }
                },
                None => {},
            }
            i += 1;
        }
        proof {
            assert(rows.take(rows.len() as int) =~= rows);
        }
        count
    }

    /// Creates a template under a new random id. The outcome is that of
    /// [`TaskTemplate::create_with_id`] for the id that was drawn.
    pub fn create(db: &mut Database, data: &CreateTaskTemplate, now: Timestamp) -> (r: Result<
        TaskTemplate,
        EngineError,
    >)
        requires
            old(db).wf(),
        ensures
            final(db).wf(),
            match r {
                Ok(row) => old(db)@.template_create_refusal(data.template_name@, row.id) is None
                    && row@ == (TaskTemplateView {
                    id: row.id,
                    group_id: data.group_id,
                    template_name: data.template_name@,
                    template_title: data.template_title@,
                    ticket_title: data.ticket_title@,
                    ticket_description: data.ticket_description@,
                    created_at: now@,
                    updated_at: now@,
                }) && final(db)@ == (DatabaseView {
                    templates: old(db)@.templates.push(row@),
                    ..old(db)@
                }),
                Err(e) => final(db)@ == old(db)@ && exists|id: u128|
                    old(db)@.template_create_refusal(data.template_name@, id) == Some(e@),
            },
            old(db)@.template_named(data.template_name@) is Some ==> r is Err,
    {
        let id = fresh_id();
        TaskTemplate::create_with_id(db, data, id, now)
    }

    /// Creates a template under the given id. A name in use and an id in
    /// use are validation errors, and the store is then unchanged.
    pub fn create_with_id(db: &mut Database, data: &CreateTaskTemplate, id: u128, now: Timestamp) -> (r:
        Result<TaskTemplate, EngineError>)
        requires
            old(db).wf(),
        ensures
            final(db).wf(),
            match r {
                Ok(row) => old(db)@.template_create_refusal(data.template_name@, id) is None
                    && row@ == (TaskTemplateView {
                    id,
                    group_id: data.group_id,
                    template_name: data.template_name@,
                    template_title: data.template_title@,
                    ticket_title: data.ticket_title@,
                    ticket_description: data.ticket_description@,
                    created_at: now@,
                    updated_at: now@,
                }) && final(db)@ == (DatabaseView {
                    templates: old(db)@.templates.push(row@),
                    ..old(db)@
                }),
                Err(e) => old(db)@.template_create_refusal(data.template_name@, id) == Some(e@)
                    && final(db)@ == old(db)@,
            },
    {
        if TaskTemplate::position_of_name(db, data.template_name.as_str()) < db.templates.len() {
            return Err(name_taken(data.template_name.as_str()));
        }
        if TaskTemplate::position(db, id) < db.templates.len() {
            return Err(EngineError::validation(TEMPLATE_ID_TAKEN));
        }
        let row = TaskTemplate {
            id,
            group_id: data.group_id,
            template_name: data.template_name.clone(),
            template_title: data.template_title.clone(),
            ticket_title: data.ticket_title.clone(),
            ticket_description: data.ticket_description.clone(),
            created_at: now,
            updated_at: now,
        };
        let copy = row.clone();
        proof {
            db.lemma_view();
            let rows = db@.templates;
            lemma_first_index(rows, TaskTemplateView::with_id(id));
            lemma_first_index(rows, TaskTemplateView::with_name(data.template_name@));
            lemma_distinct_push(rows, TaskTemplateView::id_key(), row@);
            lemma_distinct_push(rows, TaskTemplateView::name_key(), row@);
        }
        db.templates.push(row);
        proof {
            db.lemma_view();
            assert(db.templates.deep_view() =~= old(db)@.templates.push(copy@));
        }
        Ok(copy)
    }

    /// Changes a template: the fields given are laid over the stored
    /// ones. A template that does not exist is not found; a new name that
    /// is in use is a validation error; the store is then unchanged.
    pub fn update(db: &mut Database, id: u128, data: &UpdateTaskTemplate, now: Timestamp) -> (r:
        Result<TaskTemplate, EngineError>)
        requires
            old(db).wf(),
        ensures
            final(db).wf(),
            match r {
                Ok(row) => old(db)@.template_update_refusal(id, data.template_name.deep_view())
                    is None && old(db)@.template(id) is Some && row@ == merged_template(
                    old(db)@.template(id)->0,
                    data.group_id,
                    data.template_name.deep_view(),
                    data.template_title.deep_view(),
                    data.ticket_title.deep_view(),
                    data.ticket_description.deep_view(),
                    now@,
                ) && final(db)@ == (DatabaseView {
                    templates: old(db)@.templates.update(
                        first_index(old(db)@.templates, TaskTemplateView::with_id(id)),
                        row@,
                    ),
                    ..old(db)@
                }),
                Err(e) => old(db)@.template_update_refusal(id, data.template_name.deep_view())
                    == Some(e@) && final(db)@ == old(db)@,
            },
    {
        let at = TaskTemplate::position(db, id);
        if at >= db.templates.len() {
            return Err(EngineError::not_found(TEMPLATE_NOT_FOUND));
        }
        let stored = &db.templates[at];
        match &data.template_name {
            Some(name) => {
                if !text_eq(name.as_str(), stored.template_name.as_str())
                    && TaskTemplate::position_of_name(db, name.as_str()) < db.templates.len() {
                    return Err(name_taken(name.as_str()));
                }
            },
            None => {},
        }
        let row = TaskTemplate {
            id: stored.id,
            group_id: match data.group_id {
                Some(group) => Some(group),
                None => stored.group_id,
            },
            template_name: text_or(&data.template_name, &stored.template_name),
            template_title: text_or(&data.template_title, &stored.template_title),
            ticket_title: text_or(&data.ticket_title, &stored.ticket_title),
            ticket_description: text_or(&data.ticket_description, &stored.ticket_description),
            created_at: stored.created_at,
            updated_at: now,
        };
        let copy = row.clone();
        proof {
            db.lemma_view();
            let rows = db@.templates;
            let spot = at as int;
            lemma_distinct_replace(rows, TaskTemplateView::id_key(), spot, row@);
            if row@.template_name == rows[spot].template_name {
                lemma_distinct_replace(rows, TaskTemplateView::name_key(), spot, row@);
            } else {
                lemma_first_index(rows, TaskTemplateView::with_name(row@.template_name));
                assert forall|i: int| 0 <= i < rows.len() && i != spot implies (
                TaskTemplateView::name_key())(#[trigger] rows[i]) != (
                TaskTemplateView::name_key())(row@) by {
                    assert(!(TaskTemplateView::with_name(row@.template_name))(rows[i]));
                }
                lemma_distinct_update(rows, TaskTemplateView::name_key(), spot, row@);
            }
        }
        db.templates.set(at, row);
        proof {
            db.lemma_view();
            assert(db.templates.deep_view() =~= old(db)@.templates.update(at as int, copy@));
        }
        Ok(copy)
    }

    /// Deletes the template with the given id, and says how many
    /// templates were deleted: one, or none if there was no such template.
    pub fn delete(db: &mut Database, id: u128) -> (count: u64)
        requires
            old(db).wf(),
        ensures
            final(db).wf(),
            final(db)@ == (DatabaseView {
                templates: if old(db)@.template(id) is Some {
                    old(db)@.templates.remove(
                        first_index(old(db)@.templates, TaskTemplateView::with_id(id)),
                    )
                } else {
                    old(db)@.templates
                },
                ..old(db)@
            }),
            count == if old(db)@.template(id) is Some {
                1int
            } else {
                0int
            },
    {
        let at = TaskTemplate::position(db, id);
        if at >= db.templates.len() {
            proof {
                db.lemma_view();
                assert(db@ == (DatabaseView { templates: db@.templates, ..db@ }));
            }
            return 0;
        }
        proof {
            db.lemma_view();
            lemma_distinct_remove(db@.templates, TaskTemplateView::id_key(), at as int);
            lemma_distinct_remove(db@.templates, TaskTemplateView::name_key(), at as int);
        }
        db.templates.remove(at);
        proof {
            db.lemma_view();
            assert(db.templates.deep_view() =~= old(db)@.templates.remove(at as int));
        }
        1
    }
}

} // verus!
