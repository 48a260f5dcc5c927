//! Groups of task templates, which form a forest.

use crate::database::{Database, DatabaseView};
use crate::error::{refusal, EngineError, EngineErrorView, ErrorKind};
use crate::ids::fresh_id;
use crate::models::task_template::TaskTemplateView;
use crate::table::{
    first_index, first_match, insert_ordered, kept, lemma_distinct_push,
    lemma_distinct_remove, lemma_distinct_replace, lemma_first_index, lemma_first_index_is,
    lemma_insert_at, ordered,
};
use crate::text::{text_before, text_lt};
use crate::timestamp::Timestamp;
use vstd::prelude::*;

verus! {

// The messages of the refusals.

pub const GROUP_NOT_FOUND: &'static str = "Template group not found";

pub const GROUP_ID_TAKEN: &'static str = "A template group with this id already exists";

pub const DEPTH_EXCEEDED: &'static str = "Maximum depth of 3 levels exceeded";

pub const OWN_PARENT: &'static str = "Cannot set group as its own parent";

pub const CIRCULAR_REFERENCE: &'static str = "Cannot create circular reference";

pub const HAS_CHILD_GROUPS: &'static str = "Cannot delete group with child groups";

pub const HAS_TEMPLATES: &'static str = "Cannot delete group with templates";

/// The greatest number of levels that a chain of groups may have.
pub const MAX_DEPTH: usize = 3;

/// A group of task templates. A group may lie in another group.
#[derive(Debug)]
pub struct TaskTemplateGroup {
    pub id: u128,
    pub name: String,
    pub parent_group_id: Option<u128>,
    pub created_at: Timestamp,
    pub updated_at: Timestamp,
}

/// The mathematical value of a [`TaskTemplateGroup`].
pub struct TaskTemplateGroupView {
    pub id: u128,
    pub name: Seq<char>,
    pub parent_group_id: Option<u128>,
    pub created_at: i64,
    pub updated_at: i64,
}

impl View for TaskTemplateGroup {
    type V = TaskTemplateGroupView;

    open spec fn view(&self) -> TaskTemplateGroupView {
        TaskTemplateGroupView {
            id: self.id,
            name: self.name@,
            parent_group_id: self.parent_group_id,
            created_at: self.created_at@,
            updated_at: self.updated_at@,
        }
    }
}

impl DeepView for TaskTemplateGroup {
    type V = TaskTemplateGroupView;

    open spec fn deep_view(&self) -> TaskTemplateGroupView {
        self@
    }
}

impl Clone for TaskTemplateGroup {
    fn clone(&self) -> (copy: Self)
        ensures
            copy@ == self@,
    {
        TaskTemplateGroup {
            id: self.id,
            name: self.name.clone(),
            parent_group_id: self.parent_group_id,
            created_at: self.created_at,
            updated_at: self.updated_at,
        }
    }
}

impl TaskTemplateGroupView {
    /// The key of a group: its id.
    pub open spec fn id_key() -> spec_fn(TaskTemplateGroupView) -> u128 {
        |g: TaskTemplateGroupView| g.id
    }

    /// The groups with the given id.
    pub open spec fn with_id(id: u128) -> spec_fn(TaskTemplateGroupView) -> bool {
        |g: TaskTemplateGroupView| g.id == id
    }

    /// The groups that lie in the given group, or in none.
    pub open spec fn child_of(parent: Option<u128>) -> spec_fn(TaskTemplateGroupView) -> bool {
        |g: TaskTemplateGroupView| g.parent_group_id == parent
    }

    /// The order of groups in listings: by name.
    pub open spec fn by_name() -> spec_fn(TaskTemplateGroupView, TaskTemplateGroupView) -> bool {
        |a: TaskTemplateGroupView, b: TaskTemplateGroupView| text_before(a.name, b.name)
    }
}

/// A request to create a group.
#[derive(Debug)]
pub struct CreateTaskTemplateGroup {
    pub name: String,
    pub parent_group_id: Option<u128>,
}

/// A request to change a group. A field that is `None` keeps its stored
/// value.
#[derive(Debug)]
pub struct UpdateTaskTemplateGroup {
    pub name: Option<String>,
    pub parent_group_id: Option<u128>,
}

/// A group with the groups that lie in it.
#[derive(Debug)]
pub struct TaskTemplateGroupWithChildren {
    pub group: TaskTemplateGroup,
    pub children: Vec<TaskTemplateGroupWithChildren>,
}

/// The mathematical value of a [`TaskTemplateGroupWithChildren`].
pub struct GroupTreeView {
    pub group: TaskTemplateGroupView,
    pub children: Seq<GroupTreeView>,
}

/// The value of a group with its children.
pub open spec fn tree_view(tree: TaskTemplateGroupWithChildren) -> GroupTreeView
    decreases tree,
{
    GroupTreeView {
        group: tree.group@,
        children: Seq::new(
            tree.children@.len(),
            |i: int|
                if 0 <= i < tree.children@.len() {
                    tree_view(tree.children@[i])
                } else {
                    arbitrary()
                },
        ),
    }
}

impl View for TaskTemplateGroupWithChildren {
    type V = GroupTreeView;

    open spec fn view(&self) -> GroupTreeView {
        tree_view(*self)
    }
}

impl DeepView for TaskTemplateGroupWithChildren {
    type V = GroupTreeView;

    open spec fn deep_view(&self) -> GroupTreeView {
        tree_view(*self)
    }
}

impl DatabaseView {
    /// The group with the given id.
    pub open spec fn template_group(self, id: u128) -> Option<TaskTemplateGroupView> {
        first_match(self.template_groups, TaskTemplateGroupView::with_id(id))
    }

    /// The groups that lie in the given group, or in none, by name.
    pub open spec fn groups_under(self, parent: Option<u128>) -> Seq<TaskTemplateGroupView> {
        ordered(
            kept(self.template_groups, TaskTemplateGroupView::child_of(parent)),
            TaskTemplateGroupView::by_name(),
        )
    }

    /// The number of stored groups on the way from `id` upwards through
    /// the parents, as far as `fuel` steps lead.
    pub open spec fn depth_within(self, id: Option<u128>, fuel: nat) -> nat
        decreases fuel,
    {
        if fuel == 0 {
            0
        } else {
            match id {
                None => 0,
                Some(group) => match self.template_group(group) {
                    None => 0,
                    Some(stored) => 1 + self.depth_within(
                        stored.parent_group_id,
                        (fuel - 1) as nat,
                    ),
                },
            }
        }
    }

    /// The depth of a group: the number of stored groups on the way from
    /// it upwards through the parents, itself counted. No way is followed
    /// for more steps than there are groups.
    pub open spec fn group_depth(self, id: u128) -> nat {
        self.depth_within(Some(id), self.template_groups.len())
    }

    /// Whether the way from `from` upwards through the parents comes to
    /// `target` within `fuel` steps.
    pub open spec fn reaches_within(self, from: Option<u128>, target: u128, fuel: nat) -> bool
        decreases fuel,
    {
        if fuel == 0 {
            false
        } else {
            match from {
                None => false,
                Some(group) => group == target || match self.template_group(group) {
                    None => false,
                    Some(stored) => self.reaches_within(
                        stored.parent_group_id,
                        target,
                        (fuel - 1) as nat,
                    ),
                },
            }
        }
    }

    /// Whether `group` is `ancestor` or lies, at any depth, in it. No way
    /// is followed for more steps than there are groups.
    pub open spec fn lies_in(self, group: u128, ancestor: u128) -> bool {
        self.reaches_within(Some(group), ancestor, self.template_groups.len())
    }

    /// Why a parent is refused, if it is: its depth is three or more.
    pub open spec fn depth_refusal(self, parent: Option<u128>) -> Option<EngineErrorView> {
        if parent is Some && self.group_depth(parent->0) >= MAX_DEPTH {
            Some(refusal(ErrorKind::Validation, DEPTH_EXCEEDED@))
        } else {
            None
        }
    }

    /// Why a request to create a group is refused, if it is: the parent
    /// is too deep, or the id is in use.
    pub open spec fn group_create_refusal(self, parent: Option<u128>, id: u128) -> Option<
        EngineErrorView,
    > {
        if self.depth_refusal(parent) is Some {
            self.depth_refusal(parent)
        } else if self.template_group(id) is Some {
            Some(refusal(ErrorKind::Validation, GROUP_ID_TAKEN@))
        } else {
            None
        }
    }

    /// Why a request to change a group is refused, if it is: by the first
    /// of these rules that it breaks. The group exists; a parent given is
    /// not the group itself; a parent given does not lie in the group; the
    /// parent that the group is to have is not too deep.
    pub open spec fn group_update_refusal(self, id: u128, parent: Option<u128>) -> Option<
        EngineErrorView,
    > {
        match self.template_group(id) {
            None => Some(refusal(ErrorKind::NotFound, GROUP_NOT_FOUND@)),
            Some(stored) => if parent == Some(id) {
                Some(refusal(ErrorKind::Validation, OWN_PARENT@))
            } else if parent is Some && self.lies_in(parent->0, id) {
                Some(refusal(ErrorKind::Validation, CIRCULAR_REFERENCE@))
            } else {
                self.depth_refusal(
                    match parent {
                        Some(group) => Some(group),
                        None => stored.parent_group_id,
                    },
                )
            },
        }
    }

    /// The groups that lie in no stored group: those without a parent, and
    /// those whose parent is not stored.
    pub open spec fn top_level(self) -> spec_fn(TaskTemplateGroupView) -> bool {
        |g: TaskTemplateGroupView|
            g.parent_group_id is None || self.template_group(g.parent_group_id->0) is None
    }

    /// A group with the groups that lie in it, by name, each with its own,
    /// down to `fuel` levels below the group.
    pub open spec fn subtree(self, group: TaskTemplateGroupView, fuel: nat) -> GroupTreeView
        decreases fuel, 0nat,
    {
        GroupTreeView {
            group,
            children: if fuel == 0 {
                Seq::empty()
            } else {
                self.subtrees(self.groups_under(Some(group.id)), (fuel - 1) as nat)
            },
        }
    }

    /// The subtrees of the groups, one for one.
    pub open spec fn subtrees(self, groups: Seq<TaskTemplateGroupView>, fuel: nat) -> Seq<
        GroupTreeView,
    >
        decreases fuel, groups.len() + 1,
    {
        if groups.len() == 0 {
            Seq::empty()
        } else {
            self.subtrees(groups.drop_last(), fuel).push(self.subtree(groups.last(), fuel))
        }
    }

    /// The forest of the groups: the top-level groups by name, each with
    /// the groups that lie in it. No way down is followed for more levels
    /// than there are groups.
    pub open spec fn hierarchy(self) -> Seq<GroupTreeView> {
        self.subtrees(
            ordered(
                kept(self.template_groups, self.top_level()),
                TaskTemplateGroupView::by_name(),
            ),
            self.template_groups.len(),
        )
    }

    /// The templates in the given group.
    pub open spec fn templates_in(self, group: u128) -> Seq<TaskTemplateView> {
        kept(self.templates, TaskTemplateView::in_group(Some(group)))
    }

    /// Why a request to delete a group is refused, if it is: groups lie
    /// in it, or templates do.
    pub open spec fn group_delete_refusal(self, id: u128) -> Option<EngineErrorView> {
        if self.groups_under(Some(id)).len() > 0 {
            Some(refusal(ErrorKind::Validation, HAS_CHILD_GROUPS@))
        } else if self.templates_in(id).len() > 0 {
            Some(refusal(ErrorKind::Validation, HAS_TEMPLATES@))
        } else {
            None
        }
    }
}

impl TaskTemplateGroup {
    /// The place of the group with the given id among the groups, or
    /// their number if there is none.
    pub(crate) fn position(db: &Database, id: u128) -> (at: usize)
        ensures
            at == first_index(db@.template_groups, TaskTemplateGroupView::with_id(id)),
            at <= db.template_groups.len(),
            at < db.template_groups.len() ==> db.template_groups[at as int].id == id,
            db@.template_group(id) == if at < db.template_groups.len() {
                Some(db.template_groups[at as int]@)
            } else {
                None
            },
    {
        proof {
            db.lemma_view();
        }
        let mut at: usize = 0;
        while at < db.template_groups.len() && db.template_groups[at].id != id
            invariant
                at <= db.template_groups.len(),
                forall|i: int| 0 <= i < at ==> db.template_groups[i].id != id,
            decreases db.template_groups.len() - at,
        {
            at += 1;
        }
        proof {
            lemma_first_index_is(
                db@.template_groups,
                TaskTemplateGroupView::with_id(id),
                at as int,
            );
        }
        at
    }

    /// Puts `row` into `sorted` at its place by name, behind the rows with
    /// the same name.
    fn insert_by_name(sorted: &mut Vec<TaskTemplateGroup>, row: TaskTemplateGroup)
        ensures
            final(sorted).deep_view() == insert_ordered(
                old(sorted).deep_view(),
                row@,
                TaskTemplateGroupView::by_name(),
            ),
    {
        let ghost rows = sorted.deep_view();
        let mut at: usize = 0;
        while at < sorted.len() && !text_lt(row.name.as_str(), sorted[at].name.as_str())
            invariant
                at <= sorted.len(),
                sorted.deep_view() == rows,
                forall|i: int| 0 <= i < at ==> !text_before(row@.name, (#[trigger] rows[i]).name),
            decreases sorted.len() - at,
        {
            proof {
                assert(rows[at as int] == sorted[at as int]@);
            }
            at += 1;
        }
        proof {
            if at < sorted.len() {
                assert(rows[at as int] == sorted[at as int]@);
            }
            lemma_insert_at(rows, row@, TaskTemplateGroupView::by_name(), at as int);
        }
        sorted.insert(at, row);
        proof {
            assert(sorted.deep_view() =~= rows.insert(at as int, row@));
        }
    }

    /// Every group, by name.
    pub fn find_all(db: &Database) -> (found: Vec<TaskTemplateGroup>)
        ensures
            found.deep_view() == ordered(db@.template_groups, TaskTemplateGroupView::by_name()),
    {
        proof {
            db.lemma_view();
        }
        let ghost rows = db@.template_groups;
        let mut found: Vec<TaskTemplateGroup> = Vec::new();
        let mut i: usize = 0;
        while i < db.template_groups.len()
            invariant
                i <= db.template_groups.len(),
                rows == db.template_groups.deep_view(),
                found.deep_view() == ordered(rows.take(i as int), TaskTemplateGroupView::by_name()),
            decreases db.template_groups.len() - i,
        {
            proof {
                assert(rows.take(i + 1).drop_last() =~= rows.take(i as int));
            }
            TaskTemplateGroup::insert_by_name(&mut found, db.template_groups[i].clone());
            i += 1;
        }
        proof {
            assert(rows.take(rows.len() as int) =~= rows);
        }
        found
    }

    /// The group with the given id.
    pub fn find_by_id(db: &Database, id: u128) -> (found: Option<TaskTemplateGroup>)
        ensures
            found.deep_view() == db@.template_group(id),
    {
        let at = TaskTemplateGroup::position(db, id);
        if at < db.template_groups.len() {
            Some(db.template_groups[at].clone())
        } else {
            None
        }
    }

    /// The groups that lie in the given group, or in none if `parent_id`
    /// is `None`, by name.
    pub fn find_by_parent_id(db: &Database, parent_id: Option<u128>) -> (found: Vec<
        TaskTemplateGroup,
    >)
        ensures
            found.deep_view() == db@.groups_under(parent_id),
    {
        proof {
            db.lemma_view();
        }
        let ghost rows = db@.template_groups;
        let ghost keep = TaskTemplateGroupView::child_of(parent_id);
        let mut found: Vec<TaskTemplateGroup> = Vec::new();
        let mut i: usize = 0;
        while i < db.template_groups.len()
            invariant
                i <= db.template_groups.len(),
                rows == db.template_groups.deep_view(),
                keep == TaskTemplateGroupView::child_of(parent_id),
                found.deep_view() == ordered(
                    kept(rows.take(i as int), keep),
                    TaskTemplateGroupView::by_name(),
                ),
            decreases db.template_groups.len() - i,
        {
            proof {
                assert(rows.take(i + 1).drop_last() =~= rows.take(i as int));
                assert(kept(rows.take(i as int), keep).push(rows[i as int]).drop_last() =~= kept(
                    rows.take(i as int),
                    keep,
                ));
            }
            let same = match (db.template_groups[i].parent_group_id, parent_id) {
                (Some(a), Some(b)) => a == b,
                (None, None) => true,
                _ => false,
            };
            if same {
                TaskTemplateGroup::insert_by_name(&mut found, db.template_groups[i].clone());
            }
            i += 1;
        }
        proof {
            assert(rows.take(rows.len() as int) =~= rows);
        }
        found
    }

    /// The group with the groups that lie in it, down to `fuel` levels.
    fn build_subtree(db: &Database, group: TaskTemplateGroup, fuel: usize) -> (tree:
        TaskTemplateGroupWithChildren)
        ensures
            tree@ == db@.subtree(group@, fuel as nat),
        decreases fuel,
    {
        let mut children: Vec<TaskTemplateGroupWithChildren> = Vec::new();
        if fuel > 0 {
            let below = TaskTemplateGroup::find_by_parent_id(db, Some(group.id));
            let ghost all = below.deep_view();
            let mut i: usize = 0;
            proof {
                assert(children.deep_view() =~= Seq::empty());
            }
            while i < below.len()
                invariant
                    i <= below.len(),
                    fuel > 0,
                    all == below.deep_view(),
                    children.deep_view() == db@.subtrees(all.take(i as int), (fuel - 1) as nat),
                decreases below.len() - i,
            {
                let ghost before = children.deep_view();
                let child = TaskTemplateGroup::build_subtree(db, below[i].clone(), fuel - 1);
                proof {
                    assert(all.take(i + 1).drop_last() =~= all.take(i as int));
                    assert(all.take(i + 1).last() == below[i as int]@);
                }
                children.push(child);
                proof {
                    assert(children.deep_view() =~= before.push(child@));
                }
                i += 1;
            }
            proof {
                assert(all.take(all.len() as int) =~= all);
            }
        } else {
            proof {
                assert(children.deep_view() =~= Seq::empty());
            }
        }
        let tree = TaskTemplateGroupWithChildren { group, children };
        proof {
            assert(tree_view(tree).children =~= tree.children.deep_view());
        }
        tree
    }

    /// The forest of the groups: the top-level groups by name, each with
    /// the groups that lie in it, by name, and so on downwards. A group
    /// whose parent is not stored counts as a top-level group.
    pub fn find_hierarchy(db: &Database) -> (forest: Vec<TaskTemplateGroupWithChildren>)
        ensures
            forest.deep_view() == db@.hierarchy(),
    {
        proof {
            db.lemma_view();
        }
        let ghost rows = db@.template_groups;
        let ghost keep = db@.top_level();
        let mut roots: Vec<TaskTemplateGroup> = Vec::new();
        let mut i: usize = 0;
        while i < db.template_groups.len()
            invariant
                i <= db.template_groups.len(),
                rows == db.template_groups.deep_view(),
                rows == db@.template_groups,
                keep == db@.top_level(),
                roots.deep_view() == ordered(
                    kept(rows.take(i as int), keep),
                    TaskTemplateGroupView::by_name(),
                ),
            decreases db.template_groups.len() - i,
        {
            proof {
                assert(rows.take(i + 1).drop_last() =~= rows.take(i as int));
                assert(kept(rows.take(i as int), keep).push(rows[i as int]).drop_last() =~= kept(
                    rows.take(i as int),
                    keep,
                ));
            }
            let top = match db.template_groups[i].parent_group_id {
                None => true,
                Some(parent) => TaskTemplateGroup::position(db, parent)
                    >= db.template_groups.len(),
            };
            if top {
                TaskTemplateGroup::insert_by_name(&mut roots, db.template_groups[i].clone());
            }
            i += 1;
        }
        proof {
            assert(rows.take(rows.len() as int) =~= rows);
        }
        let ghost all = roots.deep_view();
        let fuel: usize = db.template_groups.len();
        let mut forest: Vec<TaskTemplateGroupWithChildren> = Vec::new();
        let mut k: usize = 0;
        proof {
            assert(forest.deep_view() =~= Seq::empty());
        }
        while k < roots.len()
            invariant
                k <= roots.len(),
                all == roots.deep_view(),
                forest.deep_view() == db@.subtrees(all.take(k as int), fuel as nat),
            decreases roots.len() - k,
        {
            let ghost before = forest.deep_view();
            let tree = TaskTemplateGroup::build_subtree(db, roots[k].clone(), fuel);
            proof {
                assert(all.take(k + 1).drop_last() =~= all.take(k as int));
                assert(all.take(k + 1).last() == roots[k as int]@);
            }
            forest.push(tree);
            proof {
                assert(forest.deep_view() =~= before.push(tree@));
            }
            k += 1;
        }
        proof {
            assert(all.take(all.len() as int) =~= all);
        }
        forest
    }

    /// The depth of a group: the number of stored groups on the way from
    /// it upwards through the parents, itself counted.
    pub fn get_depth(db: &Database, id: u128) -> (depth: usize)
        ensures
            depth == db@.group_depth(id),
            depth <= db@.template_groups.len(),
    {
        proof {
            db.lemma_view();
        }
        let mut depth: usize = 0;
        let mut current: Option<u128> = Some(id);
        let mut fuel: usize = db.template_groups.len();
        while fuel > 0 && current.is_some()
            invariant
                depth + fuel <= db.template_groups.len(),
                db@.template_groups.len() == db.template_groups.len(),
                depth + db@.depth_within(current, fuel as nat) == db@.group_depth(id),
            decreases fuel,
        {
            let group = current.unwrap();
            let at = TaskTemplateGroup::position(db, group);
            if at < db.template_groups.len() {
                depth += 1;
                current = db.template_groups[at].parent_group_id;
            } else {
                current = None;
            }
            fuel -= 1;
        }
        depth
    }

    /// Checks that a group may lie in `parent_group_id`: the depth of the
    /// parent is less than three.
    pub fn validate_depth(db: &Database, parent_group_id: Option<u128>) -> (r: Result<
        (),
        EngineError,
    >)
        ensures
            match r {
                Ok(_) => db@.depth_refusal(parent_group_id) is None,
                Err(e) => db@.depth_refusal(parent_group_id) == Some(e@),
            },
    {
        match parent_group_id {
            Some(parent) => {
                if TaskTemplateGroup::get_depth(db, parent) >= MAX_DEPTH {
                    return Err(EngineError::validation(DEPTH_EXCEEDED));
                }
            },
            None => {},
        }
        Ok(())
    }

    /// Creates a group under a new random id. The outcome is that of
    /// [`TaskTemplateGroup::create_with_id`] for the id that was drawn.
    pub fn create(db: &mut Database, data: &CreateTaskTemplateGroup, now: Timestamp) -> (r: Result<
        TaskTemplateGroup,
        EngineError,
    >)
        requires
            old(db).wf(),
        ensures
            final(db).wf(),
            match r {
                Ok(row) => old(db)@.group_create_refusal(data.parent_group_id, row.id) is None
                    && row@ == (TaskTemplateGroupView {
                    id: row.id,
                    name: data.name@,
                    parent_group_id: data.parent_group_id,
                    created_at: now@,
                    updated_at: now@,
                }) && final(db)@ == (DatabaseView {
                    template_groups: old(db)@.template_groups.push(row@),
                    ..old(db)@
                }),
                Err(e) => final(db)@ == old(db)@ && exists|id: u128|
                    old(db)@.group_create_refusal(data.parent_group_id, id) == Some(e@),
            },
            old(db)@.depth_refusal(data.parent_group_id) is Some ==> r is Err,
    {
        let id = fresh_id();
        TaskTemplateGroup::create_with_id(db, data, id, now)
    }

    /// Creates a group under the given id. A parent of depth three or more
    /// and an id in use are validation errors, and the store is then
    /// unchanged.
    pub fn create_with_id(
        db: &mut Database,
        data: &CreateTaskTemplateGroup,
        id: u128,
        now: Timestamp,
    ) -> (r: Result<TaskTemplateGroup, EngineError>)
        requires
            old(db).wf(),
        ensures
            final(db).wf(),
            match r {
                Ok(row) => old(db)@.group_create_refusal(data.parent_group_id, id) is None && row@
                    == (TaskTemplateGroupView {
                    id,
                    name: data.name@,
                    parent_group_id: data.parent_group_id,
                    created_at: now@,
                    updated_at: now@,
                }) && final(db)@ == (DatabaseView {
                    template_groups: old(db)@.template_groups.push(row@),
                    ..old(db)@
                }),
                Err(e) => old(db)@.group_create_refusal(data.parent_group_id, id) == Some(e@)
                    && final(db)@ == old(db)@,
            },
    {
        match TaskTemplateGroup::validate_depth(db, data.parent_group_id) {
            Ok(_) => {},
            Err(e) => {
                return Err(e);
            },
        }
        if TaskTemplateGroup::position(db, id) < db.template_groups.len() {
            return Err(EngineError::validation(GROUP_ID_TAKEN));
        }
        let row = TaskTemplateGroup {
            id,
            name: data.name.clone(),
            parent_group_id: data.parent_group_id,
            created_at: now,
            updated_at: now,
        };
        let copy = row.clone();
        proof {
            db.lemma_view();
            let rows = db@.template_groups;
            lemma_first_index(rows, TaskTemplateGroupView::with_id(id));
            lemma_distinct_push(rows, TaskTemplateGroupView::id_key(), row@);
        }
        db.template_groups.push(row);
        proof {
            db.lemma_view();
            assert(db.template_groups.deep_view() =~= old(db)@.template_groups.push(copy@));
        }
        Ok(copy)
    }

    /// Whether the way from `from` upwards through the parents comes to
    /// `target`.
    fn lies_in(db: &Database, from: u128, target: u128) -> (reached: bool)
        ensures
            reached == db@.lies_in(from, target),
    {
        proof {
            db.lemma_view();
        }
        let mut current: Option<u128> = Some(from);
        let mut fuel: usize = db.template_groups.len();
        while fuel > 0 && current.is_some()
            invariant
                db@.template_groups.len() == db.template_groups.len(),
                db@.reaches_within(current, target, fuel as nat) == db@.lies_in(from, target),
            decreases fuel,
        {
            let group = current.unwrap();
            if group == target {
                return true;
            }
            let at = TaskTemplateGroup::position(db, group);
            if at < db.template_groups.len() {
                current = db.template_groups[at].parent_group_id;
            } else {
                current = None;
            }
            fuel -= 1;
        }
        false
    }

    /// Changes a group: the fields given are laid over the stored ones.
    ///
    /// The request is refused by the first rule of
    /// [`DatabaseView::group_update_refusal`] that it breaks, and the
    /// store is then unchanged.
    pub fn update(db: &mut Database, id: u128, data: &UpdateTaskTemplateGroup, now: Timestamp) -> (r:
        Result<TaskTemplateGroup, EngineError>)
        requires
            old(db).wf(),
        ensures
            final(db).wf(),
            match r {
                Ok(row) => old(db)@.group_update_refusal(id, data.parent_group_id) is None && old(
                    db,
                )@.template_group(id) is Some && row@ == (TaskTemplateGroupView {
                    id,
                    name: match data.name {
                        Some(name) => name@,
                        None => old(db)@.template_group(id)->0.name,
                    },
                    parent_group_id: match data.parent_group_id {
                        Some(parent) => Some(parent),
                        None => old(db)@.template_group(id)->0.parent_group_id,
                    },
                    created_at: old(db)@.template_group(id)->0.created_at,
                    updated_at: now@,
                }) && final(db)@ == (DatabaseView {
                    template_groups: old(db)@.template_groups.update(
                        first_index(old(db)@.template_groups, TaskTemplateGroupView::with_id(id)),
                        row@,
                    ),
                    ..old(db)@
                }),
                Err(e) => old(db)@.group_update_refusal(id, data.parent_group_id) == Some(e@)
                    && final(db)@ == old(db)@,
            },
    {
        let at = TaskTemplateGroup::position(db, id);
        if at >= db.template_groups.len() {
            return Err(EngineError::not_found(GROUP_NOT_FOUND));
        }
        match data.parent_group_id {
            Some(parent) => {
                if parent == id {
                    return Err(EngineError::validation(OWN_PARENT));
                }
                if TaskTemplateGroup::lies_in(db, parent, id) {
                    return Err(EngineError::validation(CIRCULAR_REFERENCE));
                }
            },
            None => {},
        }
        let stored = &db.template_groups[at];
        let parent_group_id = match data.parent_group_id {
            Some(parent) => Some(parent),
            None => stored.parent_group_id,
        };
        match TaskTemplateGroup::validate_depth(db, parent_group_id) {
            Ok(_) => {},
            Err(e) => {
                return Err(e);
            },
        }
        let row = TaskTemplateGroup {
            id: stored.id,
            name: match &data.name {
                Some(name) => name.clone(),
                None => stored.name.clone(),
            },
            parent_group_id,
            created_at: stored.created_at,
            updated_at: now,
        };
        let copy = row.clone();
        proof {
            db.lemma_view();
            let rows = db@.template_groups;
            lemma_distinct_replace(rows, TaskTemplateGroupView::id_key(), at as int, row@);
        }
        db.template_groups.set(at, row);
        proof {
            db.lemma_view();
            assert(db.template_groups.deep_view() =~= old(db)@.template_groups.update(
                at as int,
                copy@,
            ));
        }
        Ok(copy)
    }

    /// Deletes a group in which neither groups nor templates lie. Says how
    /// many groups were deleted: one, or none if there was no such group.
    pub fn delete(db: &mut Database, id: u128) -> (r: Result<u64, EngineError>)
        requires
            old(db).wf(),
        ensures
            final(db).wf(),
            match r {
                Ok(count) => old(db)@.group_delete_refusal(id) is None && final(db)@
                    == (DatabaseView {
                    template_groups: if old(db)@.template_group(id) is Some {
                        old(db)@.template_groups.remove(
                            first_index(
                                old(db)@.template_groups,
                                TaskTemplateGroupView::with_id(id),
                            ),
                        )
                    } else {
                        old(db)@.template_groups
                    },
                    ..old(db)@
                }) && count == if old(db)@.template_group(id) is Some {
                    1int
                } else {
                    0int
                },
                Err(e) => old(db)@.group_delete_refusal(id) == Some(e@) && final(db)@ == old(db)@,
            },
    {
        let children = TaskTemplateGroup::find_by_parent_id(db, Some(id));
        if children.len() > 0 {
            return Err(EngineError::validation(HAS_CHILD_GROUPS));
        }
        if crate::models::task_template::TaskTemplate::count_in_group(db, id) > 0 {
            return Err(EngineError::validation(HAS_TEMPLATES));
        }
        let at = TaskTemplateGroup::position(db, id);
        if at >= db.template_groups.len() {
            proof {
                db.lemma_view();
                assert(db@ == (DatabaseView { template_groups: db@.template_groups, ..db@ }));
            }
            return Ok(0);
        }
        proof {
            db.lemma_view();
            lemma_distinct_remove(
                db@.template_groups,
                TaskTemplateGroupView::id_key(),
                at as int,
            );
        }
        db.template_groups.remove(at);
        proof {
            db.lemma_view();
            assert(db.template_groups.deep_view() =~= old(db)@.template_groups.remove(at as int));
        }
        Ok(1)
    }
}

} // verus!
