//! Requests and responses of the task tools, and the summaries that the
//! tools hand out.

use crate::ids::{hyphenated, id_text, parse_id, parsed_id};
use crate::models::task::{
    Project, ProjectView, Task, TaskView, TaskWithAttemptStatus, TaskWithAttemptStatusView,
};
use crate::models::task_relationship::{
    TaskRelationship, TaskRelationshipGrouped, TaskRelationshipGroupedView,
    TaskRelationshipWithDetails, TaskRelationshipWithDetailsView,
};
use crate::models::task_relationship_type::TaskRelationshipTypeView;
use crate::models::task_template::{TaskTemplate, TaskTemplateView};
use crate::status::TaskStatus;
use crate::table::{first_match, kept, lemma_first_index_is};
use crate::text::{
    ascii_uppercased, hyphens_replaced, replace_hyphens, text_eq, to_ascii_uppercase, trim,
    trim_end, trim_start, trimmed, without_leading, without_trailing,
};
use crate::timestamp::rfc3339_text;
use vstd::prelude::*;
use vstd::string::*;

verus! {

/// What a tool reports when it cannot do what was asked.
#[derive(Debug)]
pub struct ToolError {
    pub error: String,
    pub details: Option<String>,
}

/// The mathematical value of a [`ToolError`].
pub struct ToolErrorView {
    pub error: Seq<char>,
    pub details: Option<Seq<char>>,
}

impl View for ToolError {
    type V = ToolErrorView;

    open spec fn view(&self) -> ToolErrorView {
        ToolErrorView { error: self.error@, details: self.details.deep_view() }
    }
}

/// The view of a tool error with the given message and details.
pub open spec fn tool_error(error: Seq<char>, details: Option<Seq<char>>) -> ToolErrorView {
    ToolErrorView { error, details }
}

// The messages of the tool errors.

pub const INVALID_STATUS_FILTER: &'static str =
    "Invalid status filter. Valid values: 'todo', 'in-progress', 'in-review', 'done', 'cancelled'";

pub const API_ERROR: &'static str = "VK API returned error";

pub const API_UNKNOWN_ERROR: &'static str = "Unknown error";

pub const API_DATA_MISSING: &'static str = "VK API response missing data field";

pub const API_STATUS_ERROR: &'static str = "VK API returned error status: ";

pub const BASE_BRANCH_EMPTY: &'static str = "Base branch must not be empty.";

pub const EXECUTOR_EMPTY: &'static str = "Executor must not be empty.";

pub const TEMPLATE_KEY_MISSING: &'static str =
    "Either template_id or template_name must be provided";

pub const ADD_NEEDS_TYPE: &'static str = "relationship_type is required for 'add' action";

pub const ADD_NEEDS_TARGET: &'static str = "target_task_id is required for 'add' action";

pub const UPDATE_NEEDS_ID: &'static str = "relationship_id is required for 'update' action";

pub const DELETE_NEEDS_ID: &'static str = "relationship_id is required for 'delete' action";

/// The default number of tasks in a listing.
pub const DEFAULT_TASK_LIMIT: i32 = 50;

/// The envelope in which the HTTP API answers.
#[derive(Debug)]
pub struct ApiResponseEnvelope<T> {
    pub success: bool,
    pub data: Option<T>,
    pub message: Option<String>,
}

impl<T> ApiResponseEnvelope<T> {
    /// The data of an answer. An answer that reports no success is an
    /// error with its message, or with a stock message if it has none; a
    /// successful answer without data is an error too.
    pub fn into_data(self) -> (r: Result<T, ToolError>)
        ensures
            match r {
                Ok(data) => self.success && self.data == Some(data),
                Err(e) => if !self.success {
                    e@ == tool_error(
                        API_ERROR@,
                        Some(
                            match self.message {
                                Some(message) => message@,
                                None => API_UNKNOWN_ERROR@,
                            },
                        ),
                    )
                } else {
                    self.data is None && e@ == tool_error(API_DATA_MISSING@, None)
                },
            },
    {
        if !self.success {
            let details = match self.message {
                Some(message) => message,
                None => API_UNKNOWN_ERROR.to_owned(),
            };
            return Err(ToolError { error: API_ERROR.to_owned(), details: Some(details) });
        }
        match self.data {
            Some(data) => Ok(data),
            None => Err(ToolError { error: API_DATA_MISSING.to_owned(), details: None }),
        }
    }
}

/// The error for an answer whose HTTP status reports a failure.
pub fn status_error(status: &str) -> (e: ToolError)
    ensures
        e@ == tool_error(API_STATUS_ERROR@ + status@, None),
{
    let mut error = String::from_str(API_STATUS_ERROR);
    error.append(status);
    ToolError { error, details: None }
}

/// The server of the task tools, as far as it does not touch the network.
#[derive(Debug)]
pub struct TaskServer {
    pub base_url: String,
}

/// The address of a path of the API: the base without slashes at its end,
/// a slash, and the path without slashes at its start.
pub open spec fn joined_url(base: Seq<char>, path: Seq<char>) -> Seq<char> {
    without_trailing(base, '/') + "/"@ + without_leading(path, '/')
}

impl TaskServer {
    /// A server for the API at `base_url`.
    pub fn new(base_url: &str) -> (server: Self)
        ensures
            server.base_url@ == base_url@,
    {
        TaskServer { base_url: base_url.to_owned() }
    }

    /// A tool error with the given message and details.
    pub fn err(msg: &str, details: Option<&str>) -> (e: ToolError)
        ensures
            e.error@ == msg@,
            e.details.deep_view() == match details {
                Some(text) => Some(text@),
                None => None,
            },
    {
        ToolError {
            error: msg.to_owned(),
            details: match details {
                Some(text) => Some(text.to_owned()),
                None => None,
            },
        }
    }

    /// The address of a path of the API.
    pub fn url(&self, path: &str) -> (address: String)
        ensures
            address@ == joined_url(self.base_url@, path@),
    {
        let mut address = String::from_str(trim_end(self.base_url.as_str(), '/'));
        address.append("/");
        address.append(trim_start(path, '/'));
        address
    }
}

/// Reads the status that a request names. No status named is no filter;
/// a text that names no status is an error that holds the text.
pub fn parse_status_filter(status: &Option<String>) -> (r: Result<Option<TaskStatus>, ToolError>)
    ensures
        match status {
            None => r matches Ok(None),
            Some(text) => match TaskStatus::parse(text@) {
                Some(parsed) => r matches Ok(Some(found)) && found == parsed,
                None => r matches Err(e) && e@ == tool_error(INVALID_STATUS_FILTER@, Some(text@)),
            },
        },
{
    match status {
        None => Ok(None),
        Some(text) => match TaskStatus::from_str(text.as_str()) {
            Ok(parsed) => Ok(Some(parsed)),
            Err(_) => Err(
                ToolError { error: INVALID_STATUS_FILTER.to_owned(), details: Some(text.clone()) },
            ),
        },
    }
}

/// A request to create a task.
#[derive(Debug)]
pub struct CreateTaskRequest {
    pub project_id: u128,
    pub title: String,
    pub description: Option<String>,
}

/// The answer to a request to create a task.
#[derive(Debug)]
pub struct CreateTaskResponse {
    pub task_id: String,
}

impl CreateTaskResponse {
    /// The answer for the task that was created.
    pub fn new(task_id: u128) -> (response: Self)
        ensures
            response.task_id@ == hyphenated(task_id),
    {
        CreateTaskResponse { task_id: id_text(task_id) }
    }
}

/// What a listing says of a project.
#[derive(Debug)]
pub struct ProjectSummary {
    pub id: String,
    pub name: String,
    pub git_repo_path: String,
    pub setup_script: Option<String>,
    pub cleanup_script: Option<String>,
    pub dev_script: Option<String>,
    pub created_at: String,
    pub updated_at: String,
}

/// The mathematical value of a [`ProjectSummary`].
pub struct ProjectSummaryView {
    pub id: Seq<char>,
    pub name: Seq<char>,
    pub git_repo_path: Seq<char>,
    pub setup_script: Option<Seq<char>>,
    pub cleanup_script: Option<Seq<char>>,
    pub dev_script: Option<Seq<char>>,
    pub created_at: Seq<char>,
    pub updated_at: Seq<char>,
}

impl View for ProjectSummary {
    type V = ProjectSummaryView;

    open spec fn view(&self) -> ProjectSummaryView {
        ProjectSummaryView {
            id: self.id@,
            name: self.name@,
            git_repo_path: self.git_repo_path@,
            setup_script: self.setup_script.deep_view(),
            cleanup_script: self.cleanup_script.deep_view(),
            dev_script: self.dev_script.deep_view(),
            created_at: self.created_at@,
            updated_at: self.updated_at@,
        }
    }
}

impl DeepView for ProjectSummary {
    type V = ProjectSummaryView;

    open spec fn deep_view(&self) -> ProjectSummaryView {
        self@
    }
}

/// The summary of a project: its id in hyphenated form, its times as
/// RFC 3339 text, everything else as it stands.
pub open spec fn project_summary(project: ProjectView) -> ProjectSummaryView {
    ProjectSummaryView {
        id: hyphenated(project.id),
        name: project.name,
        git_repo_path: project.git_repo_path,
        setup_script: project.setup_script,
        cleanup_script: project.cleanup_script,
        dev_script: project.dev_script,
        created_at: rfc3339_text(project.created_at)->0,
        updated_at: rfc3339_text(project.updated_at)->0,
    }
}

impl ProjectSummary {
    /// The summary of a project.
    pub fn from_project(project: Project) -> (summary: Self)
        ensures
            summary@ == project_summary(project@),
    {
        ProjectSummary {
            id: id_text(project.id),
            name: project.name,
            git_repo_path: project.git_repo_path,
            setup_script: project.setup_script,
            cleanup_script: project.cleanup_script,
            dev_script: project.dev_script,
            created_at: project.created_at.to_rfc3339(),
            updated_at: project.updated_at.to_rfc3339(),
        }
    }
}

/// The answer to a request to list the projects.
#[derive(Debug)]
pub struct ListProjectsResponse {
    pub projects: Vec<ProjectSummary>,
    pub count: usize,
}

impl ListProjectsResponse {
    /// The summaries of the projects, one for one, and their number.
    pub fn from_projects(projects: Vec<Project>) -> (response: Self)
        ensures
            response.projects.deep_view() == projects.deep_view().map_values(
                |p: ProjectView| project_summary(p),
            ),
            response.count == projects.len(),
    {
        let ghost all = projects.deep_view();
        let mut summaries: Vec<ProjectSummary> = Vec::new();
        let mut i: usize = 0;
        while i < projects.len()
            invariant
                i <= projects.len(),
                all == projects.deep_view(),
                summaries.deep_view() == all.take(i as int).map_values(
                    |p: ProjectView| project_summary(p),
                ),
            decreases projects.len() - i,
        {
            let ghost before = summaries.deep_view();
            summaries.push(ProjectSummary::from_project(projects[i].clone()));
            proof {
                assert(summaries.deep_view() =~= before.push(project_summary(all[i as int])));
                assert(summaries.deep_view() =~= all.take(i + 1).map_values(
                    |p: ProjectView| project_summary(p),
                ));
            }
            i += 1;
        }
        proof {
            assert(all.take(all.len() as int) =~= all);
        }
        ListProjectsResponse { count: summaries.len(), projects: summaries }
    }
}

/// A request to list the tasks of a project.
#[derive(Debug)]
pub struct ListTasksRequest {
    pub project_id: u128,
    pub status: Option<String>,
    pub limit: Option<i32>,
}

/// What a listing says of a task.
#[derive(Debug)]
pub struct TaskSummary {
    pub id: String,
    pub title: String,
    pub status: String,
    pub created_at: String,
    pub updated_at: String,
    pub has_in_progress_attempt: Option<bool>,
    pub has_merged_attempt: Option<bool>,
    pub last_attempt_failed: Option<bool>,
}

/// The mathematical value of a [`TaskSummary`].
pub struct TaskSummaryView {
    pub id: Seq<char>,
    pub title: Seq<char>,
    pub status: Seq<char>,
    pub created_at: Seq<char>,
    pub updated_at: Seq<char>,
    pub has_in_progress_attempt: Option<bool>,
    pub has_merged_attempt: Option<bool>,
    pub last_attempt_failed: Option<bool>,
}

impl View for TaskSummary {
    type V = TaskSummaryView;

    open spec fn view(&self) -> TaskSummaryView {
        TaskSummaryView {
            id: self.id@,
            title: self.title@,
            status: self.status@,
            created_at: self.created_at@,
            updated_at: self.updated_at@,
            has_in_progress_attempt: self.has_in_progress_attempt,
            has_merged_attempt: self.has_merged_attempt,
            last_attempt_failed: self.last_attempt_failed,
        }
    }
}

impl DeepView for TaskSummary {
    type V = TaskSummaryView;

    open spec fn deep_view(&self) -> TaskSummaryView {
        self@
    }
}

/// The summary of a task: its id in hyphenated form, its status by name,
/// its times as RFC 3339 text, and what is known of its attempts.
pub open spec fn task_summary(task: TaskWithAttemptStatusView) -> TaskSummaryView {
    TaskSummaryView {
        id: hyphenated(task.task.id),
        title: task.task.title,
        status: task.task.status.name(),
        created_at: rfc3339_text(task.task.created_at)->0,
        updated_at: rfc3339_text(task.task.updated_at)->0,
        has_in_progress_attempt: Some(task.has_in_progress_attempt),
        has_merged_attempt: Some(task.has_merged_attempt),
        last_attempt_failed: Some(task.last_attempt_failed),
    }
}

impl TaskSummary {
    /// The summary of a task with what is known of its attempts.
    pub fn from_task_with_status(task: TaskWithAttemptStatus) -> (summary: Self)
        ensures
            summary@ == task_summary(task@),
    {
        TaskSummary {
            id: id_text(task.task.id),
            title: task.task.title,
            status: task.task.status.to_string(),
            created_at: task.task.created_at.to_rfc3339(),
            updated_at: task.task.updated_at.to_rfc3339(),
            has_in_progress_attempt: Some(task.has_in_progress_attempt),
            has_merged_attempt: Some(task.has_merged_attempt),
            last_attempt_failed: Some(task.last_attempt_failed),
        }
    }
}

/// What the tools say of one task.
#[derive(Debug)]
pub struct TaskDetails {
    pub id: String,
    pub title: String,
    pub description: Option<String>,
    pub status: String,
    pub created_at: String,
    pub updated_at: String,
    pub has_in_progress_attempt: Option<bool>,
    pub has_merged_attempt: Option<bool>,
    pub last_attempt_failed: Option<bool>,
}

/// The mathematical value of a [`TaskDetails`].
pub struct TaskDetailsView {
    pub id: Seq<char>,
    pub title: Seq<char>,
    pub description: Option<Seq<char>>,
    pub status: Seq<char>,
    pub created_at: Seq<char>,
    pub updated_at: Seq<char>,
    pub has_in_progress_attempt: Option<bool>,
    pub has_merged_attempt: Option<bool>,
    pub last_attempt_failed: Option<bool>,
}

impl View for TaskDetails {
    type V = TaskDetailsView;

    open spec fn view(&self) -> TaskDetailsView {
        TaskDetailsView {
            id: self.id@,
            title: self.title@,
            description: self.description.deep_view(),
            status: self.status@,
            created_at: self.created_at@,
            updated_at: self.updated_at@,
            has_in_progress_attempt: self.has_in_progress_attempt,
            has_merged_attempt: self.has_merged_attempt,
            last_attempt_failed: self.last_attempt_failed,
        }
    }
}

/// The details of a task: its id in hyphenated form, its status by name,
/// its times as RFC 3339 text, and nothing of its attempts.
pub open spec fn task_details(task: TaskView) -> TaskDetailsView {
    TaskDetailsView {
        id: hyphenated(task.id),
        title: task.title,
        description: task.description,
        status: task.status.name(),
        created_at: rfc3339_text(task.created_at)->0,
        updated_at: rfc3339_text(task.updated_at)->0,
        has_in_progress_attempt: None,
        has_merged_attempt: None,
        last_attempt_failed: None,
    }
}

impl TaskDetails {
    /// The details of a task.
    pub fn from_task(task: Task) -> (details: Self)
        ensures
            details@ == task_details(task@),
    {
        TaskDetails {
            id: id_text(task.id),
            title: task.title,
            description: task.description,
            status: task.status.to_string(),
            created_at: task.created_at.to_rfc3339(),
            updated_at: task.updated_at.to_rfc3339(),
            has_in_progress_attempt: None,
            has_merged_attempt: None,
            last_attempt_failed: None,
        }
    }
}

/// The filters that a listing of tasks applied.
#[derive(Debug)]
pub struct ListTasksFilters {
    pub status: Option<String>,
    pub limit: i32,
}

/// The answer to a request to list the tasks of a project.
#[derive(Debug)]
pub struct ListTasksResponse {
    pub tasks: Vec<TaskSummary>,
    pub count: usize,
    pub project_id: String,
    pub applied_filters: ListTasksFilters,
}

/// The tasks with the status wanted; all tasks where none is wanted.
pub open spec fn with_status(wanted: Option<TaskStatus>) -> spec_fn(
    TaskWithAttemptStatusView,
) -> bool {
    |t: TaskWithAttemptStatusView|
        match wanted {
            Some(status) => t.task.status == status,
            None => true,
        }
}

/// The number of tasks that a listing may hold: the limit given, fifty
/// where none is given, and nothing below zero.
pub open spec fn task_limit(limit: Option<i32>) -> int {
    let wanted = match limit {
        Some(n) => n,
        None => DEFAULT_TASK_LIMIT,
    };
    if wanted < 0 {
        0
    } else {
        wanted as int
    }
}

/// The first `limit` of the rows, or all of them if they are fewer.
pub open spec fn at_most<A>(rows: Seq<A>, limit: int) -> Seq<A> {
    if limit < rows.len() {
        rows.take(limit)
    } else {
        rows
    }
}

impl ListTasksResponse {
    /// The listing of the tasks of a project: the tasks with the status
    /// wanted, in the order given, no more than the limit allows, each as
    /// its summary; their number; and the filters that were applied.
    pub fn select(
        all_tasks: &Vec<TaskWithAttemptStatus>,
        project_id: u128,
        status: Option<String>,
        status_filter: Option<TaskStatus>,
        limit: Option<i32>,
    ) -> (response: Self)
        ensures
            response.tasks.deep_view() == at_most(
                kept(all_tasks.deep_view(), with_status(status_filter)),
                task_limit(limit),
            ).map_values(|t: TaskWithAttemptStatusView| task_summary(t)),
            response.count == response.tasks.len(),
            response.project_id@ == hyphenated(project_id),
            response.applied_filters.status == status,
            response.applied_filters.limit == task_limit(limit),
    {
        let wanted: i32 = match limit {
            Some(n) => n,
            None => DEFAULT_TASK_LIMIT,
        };
        let bounded: i32 = if wanted < 0 {
            0
        } else {
            wanted
        };
        let ghost rows = all_tasks.deep_view();
        let ghost keep = with_status(status_filter);
        let mut tasks: Vec<TaskSummary> = Vec::new();
        let mut taken: i32 = 0;
        let mut i: usize = 0;
        proof {
            assert(tasks.deep_view() =~= Seq::empty());
        }
        while i < all_tasks.len() && taken < bounded
            invariant
                i <= all_tasks.len(),
                rows == all_tasks.deep_view(),
                keep == with_status(status_filter),
                0 <= taken <= bounded,
                taken == kept(rows.take(i as int), keep).len(),
                tasks.deep_view() == kept(rows.take(i as int), keep).map_values(
                    |t: TaskWithAttemptStatusView| task_summary(t),
                ),
            decreases all_tasks.len() - i,
        {
            proof {
                assert(rows.take(i + 1).drop_last() =~= rows.take(i as int));
                assert(rows[i as int] == all_tasks[i as int]@);
            }
            let chosen = match status_filter {
                Some(status) => all_tasks[i].task.status == status,
                None => true,
            };
            if chosen {
                let ghost before = tasks.deep_view();
                tasks.push(TaskSummary::from_task_with_status(all_tasks[i].clone()));
                taken += 1;
                proof {
                    assert(tasks.deep_view() =~= before.push(task_summary(rows[i as int])));
                    assert(tasks.deep_view() =~= kept(rows.take(i + 1), keep).map_values(
                        |t: TaskWithAttemptStatusView| task_summary(t),
                    ));
                }
            }
            i += 1;
        }
        proof {
            lemma_kept_prefix(rows, keep, i as int);
            let all = kept(rows, keep);
            let part = kept(rows.take(i as int), keep);
            if i == all_tasks.len() {
                assert(rows.take(i as int) =~= rows);
            }
            assert(part =~= at_most(all, task_limit(limit)));
        }
        ListTasksResponse {
            count: tasks.len(),
            tasks,
            project_id: id_text(project_id),
            applied_filters: ListTasksFilters { status, limit: bounded },
        }
    }
}

/// The rows kept of a prefix are a prefix of the rows kept.
proof fn lemma_kept_prefix<A>(rows: Seq<A>, keep: spec_fn(A) -> bool, n: int)
    requires
        0 <= n <= rows.len(),
    ensures
        kept(rows.take(n), keep).len() <= kept(rows, keep).len(),
        kept(rows.take(n), keep) == kept(rows, keep).take(kept(rows.take(n), keep).len() as int),
    decreases rows.len() - n,
{
    if n == rows.len() {
        assert(rows.take(n) =~= rows);
        assert(kept(rows, keep).take(kept(rows, keep).len() as int) =~= kept(rows, keep));
    } else {
        assert(rows.take(n + 1).drop_last() =~= rows.take(n));
        lemma_kept_prefix(rows, keep, n + 1);
        let longer = kept(rows.take(n + 1), keep);
        let shorter = kept(rows.take(n), keep);
        let all = kept(rows, keep);
        assert(shorter =~= longer.take(shorter.len() as int));
        assert(shorter =~= all.take(shorter.len() as int));
    }
}

/// A request to change a task.
#[derive(Debug)]
pub struct UpdateTaskRequest {
    pub task_id: u128,
    pub title: Option<String>,
    pub description: Option<String>,
    pub status: Option<String>,
}

/// The answer to a request to change a task.
#[derive(Debug)]
pub struct UpdateTaskResponse {
    pub task: TaskDetails,
}

impl UpdateTaskResponse {
    /// The answer for the task as it stands after the change.
    pub fn new(task: Task) -> (response: Self)
        ensures
            response.task@ == task_details(task@),
    {
        UpdateTaskResponse { task: TaskDetails::from_task(task) }
    }
}

/// A request to delete a task.
#[derive(Debug)]
pub struct DeleteTaskRequest {
    pub task_id: u128,
}

/// A request to start an attempt at a task.
#[derive(Debug)]
pub struct StartTaskAttemptRequest {
    pub task_id: u128,
    pub executor: String,
    pub variant: Option<String>,
    pub base_branch: String,
}

/// A request to start an attempt, with its texts put in order.
#[derive(Debug)]
pub struct TaskAttemptStart {
    pub task_id: u128,
    /// The name of the executor, in upper case with underscores.
    pub executor: String,
    pub variant: Option<String>,
    pub base_branch: String,
}

impl StartTaskAttemptRequest {
    /// Puts the texts of the request in order: the base branch and the
    /// executor without whitespace around them, neither of them empty; the
    /// executor in upper case with underscores for hyphens; the variant
    /// without whitespace around it, and none if nothing is left of it.
    pub fn normalized(&self) -> (r: Result<TaskAttemptStart, ToolError>)
        ensures
            match r {
                Ok(start) => trimmed(self.base_branch@).len() > 0 && trimmed(self.executor@).len()
                    > 0 && start.task_id == self.task_id && start.base_branch@ == trimmed(
                    self.base_branch@,
                ) && start.executor@ == ascii_uppercased(
                    hyphens_replaced(trimmed(self.executor@)),
                ) && start.variant.deep_view() == match self.variant {
                    Some(variant) => if trimmed(variant@).len() == 0 {
                        None
                    } else {
                        Some(trimmed(variant@))
                    },
                    None => None,
                },
                Err(e) => if trimmed(self.base_branch@).len() == 0 {
                    e@ == tool_error(BASE_BRANCH_EMPTY@, None)
                } else {
                    trimmed(self.executor@).len() == 0 && e@ == tool_error(EXECUTOR_EMPTY@, None)
                },
            },
    {
        let base_branch = trim(self.base_branch.as_str());
        if base_branch.unicode_len() == 0 {
            return Err(ToolError { error: BASE_BRANCH_EMPTY.to_owned(), details: None });
        }
        let executor = trim(self.executor.as_str());
        if executor.unicode_len() == 0 {
            return Err(ToolError { error: EXECUTOR_EMPTY.to_owned(), details: None });
        }
        let replaced = replace_hyphens(executor);
        let variant = match &self.variant {
            Some(text) => {
                let kept = trim(text.as_str());
                if kept.unicode_len() == 0 {
                    None
                } else {
                    Some(kept.to_owned())
                }
            },
            None => None,
        };
        Ok(
            TaskAttemptStart {
                task_id: self.task_id,
                executor: to_ascii_uppercase(replaced.as_str()),
                variant,
                base_branch: base_branch.to_owned(),
            },
        )
    }
}

/// The answer to a request to start an attempt.
#[derive(Debug)]
pub struct StartTaskAttemptResponse {
    pub task_id: String,
    pub attempt_id: String,
}

impl StartTaskAttemptResponse {
    /// The answer for the attempt that was started.
    pub fn new(task_id: u128, attempt_id: u128) -> (response: Self)
        ensures
            response.task_id@ == hyphenated(task_id),
            response.attempt_id@ == hyphenated(attempt_id),
    {
        StartTaskAttemptResponse { task_id: id_text(task_id), attempt_id: id_text(attempt_id) }
    }
}

/// The answer to a request to delete a task.
#[derive(Debug)]
pub struct DeleteTaskResponse {
    pub deleted_task_id: Option<String>,
}

impl DeleteTaskResponse {
    /// The answer for the task that was deleted.
    pub fn new(task_id: u128) -> (response: Self)
        ensures
            response.deleted_task_id.deep_view() == Some(hyphenated(task_id)),
    {
        DeleteTaskResponse { deleted_task_id: Some(id_text(task_id)) }
    }
}

/// A request for one task.
#[derive(Debug)]
pub struct GetTaskRequest {
    pub task_id: u128,
    pub include_attempts: Option<bool>,
}

/// What the tools say of one attempt at a task.
#[derive(Debug)]
pub struct AttemptNotesSummary {
    pub attempt_id: String,
    pub created_at: String,
    pub updated_at: String,
    pub executor: String,
    pub branch: String,
    pub target_branch: String,
    pub latest_summary: Option<String>,
}

/// The mathematical value of an [`AttemptNotesSummary`].
pub struct AttemptNotesSummaryView {
    pub attempt_id: Seq<char>,
    pub created_at: Seq<char>,
    pub updated_at: Seq<char>,
    pub executor: Seq<char>,
    pub branch: Seq<char>,
    pub target_branch: Seq<char>,
    pub latest_summary: Option<Seq<char>>,
}

impl View for AttemptNotesSummary {
    type V = AttemptNotesSummaryView;

    open spec fn view(&self) -> AttemptNotesSummaryView {
        AttemptNotesSummaryView {
            attempt_id: self.attempt_id@,
            created_at: self.created_at@,
            updated_at: self.updated_at@,
            executor: self.executor@,
            branch: self.branch@,
            target_branch: self.target_branch@,
            latest_summary: self.latest_summary.deep_view(),
        }
    }
}

impl DeepView for AttemptNotesSummary {
    type V = AttemptNotesSummaryView;

    open spec fn deep_view(&self) -> AttemptNotesSummaryView {
        self@
    }
}

/// What the API says of one attempt, as far as it is text.
#[derive(Debug)]
pub struct AttemptRecord {
    /// Whether the record holds an attempt at all.
    pub has_attempt: bool,
    pub id: Option<String>,
    pub created_at: Option<String>,
    pub updated_at: Option<String>,
    pub executor: Option<String>,
    pub branch: Option<String>,
    pub target_branch: Option<String>,
    pub latest_summary: Option<String>,
}

/// The mathematical value of an [`AttemptRecord`].
pub struct AttemptRecordView {
    pub has_attempt: bool,
    pub id: Option<Seq<char>>,
    pub created_at: Option<Seq<char>>,
    pub updated_at: Option<Seq<char>>,
    pub executor: Option<Seq<char>>,
    pub branch: Option<Seq<char>>,
    pub target_branch: Option<Seq<char>>,
    pub latest_summary: Option<Seq<char>>,
}

impl View for AttemptRecord {
    type V = AttemptRecordView;

    open spec fn view(&self) -> AttemptRecordView {
        AttemptRecordView {
            has_attempt: self.has_attempt,
            id: self.id.deep_view(),
            created_at: self.created_at.deep_view(),
            updated_at: self.updated_at.deep_view(),
            executor: self.executor.deep_view(),
            branch: self.branch.deep_view(),
            target_branch: self.target_branch.deep_view(),
            latest_summary: self.latest_summary.deep_view(),
        }
    }
}

impl DeepView for AttemptRecord {
    type V = AttemptRecordView;

    open spec fn deep_view(&self) -> AttemptRecordView {
        self@
    }
}

/// The summary of an attempt: the texts of its record, if the record
/// holds an attempt and every text but the latest summary.
pub open spec fn attempt_summary(record: AttemptRecordView) -> Option<AttemptNotesSummaryView> {
    if record.has_attempt && record.id is Some && record.created_at is Some && record.updated_at
        is Some && record.executor is Some && record.branch is Some && record.target_branch
        is Some {
        Some(
            AttemptNotesSummaryView {
                attempt_id: record.id->0,
                created_at: record.created_at->0,
                updated_at: record.updated_at->0,
                executor: record.executor->0,
                branch: record.branch->0,
                target_branch: record.target_branch->0,
                latest_summary: record.latest_summary,
            },
        )
    } else {
        None
    }
}

impl AttemptNotesSummary {
    /// The summary of an attempt, if the record holds all that it needs.
    pub fn from_record(record: &AttemptRecord) -> (summary: Option<AttemptNotesSummary>)
        ensures
            summary.deep_view() == attempt_summary(record@),
    {
        if !record.has_attempt {
            return None;
        }
        match (
            &record.id,
            &record.created_at,
            &record.updated_at,
            &record.executor,
            &record.branch,
            &record.target_branch,
        ) {
            (
                Some(id),
                Some(created_at),
                Some(updated_at),
                Some(executor),
                Some(branch),
                Some(target_branch),
            ) => Some(
                AttemptNotesSummary {
                    attempt_id: id.clone(),
                    created_at: created_at.clone(),
                    updated_at: updated_at.clone(),
                    executor: executor.clone(),
                    branch: branch.clone(),
                    target_branch: target_branch.clone(),
                    latest_summary: record.latest_summary.clone(),
                },
            ),
            _ => None,
        }
    }

    /// The summaries of the attempts whose records are complete, in the
    /// order of the records.
    pub fn from_records(records: &Vec<AttemptRecord>) -> (summaries: Vec<AttemptNotesSummary>)
        ensures
            summaries.deep_view() == records.deep_view().filter_map(
                |r: AttemptRecordView| attempt_summary(r),
            ),
    {
        let ghost rows = records.deep_view();
        let ghost summary = |r: AttemptRecordView| attempt_summary(r);
        let mut summaries: Vec<AttemptNotesSummary> = Vec::new();
        let mut i: usize = 0;
        proof {
            assert(summaries.deep_view() =~= Seq::empty());
        }
        while i < records.len()
            invariant
                i <= records.len(),
                rows == records.deep_view(),
                summary == (|r: AttemptRecordView| attempt_summary(r)),
                summaries.deep_view() == rows.take(i as int).filter_map(summary),
            decreases records.len() - i,
        {
            proof {
                rows.lemma_filter_map_take_succ(summary, i as int);
                assert(rows[i as int] == records[i as int]@);
            }
            let ghost before = summaries.deep_view();
            match AttemptNotesSummary::from_record(&records[i]) {
                Some(found) => {
                    summaries.push(found);
                    proof {
                        assert(summaries.deep_view() =~= before + seq![
                            attempt_summary(rows[i as int])->0,
                        ]);
                    }
                },
                None => {
                    proof {
                        assert(before + Seq::empty() =~= before);
                    }
                },
            }
            i += 1;
        }
        proof {
            assert(rows.take(rows.len() as int) =~= rows);
        }
        summaries
    }
}

/// The answer to a request for one task.
#[derive(Debug)]
pub struct GetTaskResponse {
    pub task: TaskDetails,
    pub attempts: Option<Vec<AttemptNotesSummary>>,
}

impl GetTaskResponse {
    /// The answer for a task: its details, and the summaries of its
    /// attempts if their records were asked for.
    pub fn new(task: Task, records: Option<Vec<AttemptRecord>>) -> (response: Self)
        ensures
            response.task@ == task_details(task@),
            response.attempts.deep_view() == match records {
                Some(list) => Some(
                    list.deep_view().filter_map(|r: AttemptRecordView| attempt_summary(r)),
                ),
                None => None,
            },
    {
        let attempts = match records {
            Some(list) => Some(AttemptNotesSummary::from_records(&list)),
            None => None,
        };
        GetTaskResponse { task: TaskDetails::from_task(task), attempts }
    }
}

/// A request to manage the relationships of a task.
#[derive(Debug)]
pub struct ManageTaskRelationshipsRequest {
    pub task_id: u128,
    /// One of `add`, `update`, `delete` and `list`.
    pub action: String,
    pub relationship_id: Option<u128>,
    pub target_task_id: Option<u128>,
    /// The name of a relationship type.
    pub relationship_type: Option<String>,
    pub note: Option<String>,
    pub data: Option<serde_json::Value>,
    /// Whether the response holds the notes; it does if nothing is said.
    pub include_notes: Option<bool>,
}

/// What the tools say of one relationship.
#[derive(Debug)]
pub struct TaskRelationshipSummary {
    pub relationship_id: String,
    pub relationship_type: String,
    pub relationship_type_display: String,
    pub source_task_id: String,
    pub source_task_title: String,
    pub target_task_id: String,
    pub target_task_title: String,
    /// `forward` or `reverse`, for a directional relationship.
    pub direction: Option<String>,
    pub note: Option<String>,
}

/// The mathematical value of a [`TaskRelationshipSummary`].
pub struct TaskRelationshipSummaryView {
    pub relationship_id: Seq<char>,
    pub relationship_type: Seq<char>,
    pub relationship_type_display: Seq<char>,
    pub source_task_id: Seq<char>,
    pub source_task_title: Seq<char>,
    pub target_task_id: Seq<char>,
    pub target_task_title: Seq<char>,
    pub direction: Option<Seq<char>>,
    pub note: Option<Seq<char>>,
}

impl View for TaskRelationshipSummary {
    type V = TaskRelationshipSummaryView;

    open spec fn view(&self) -> TaskRelationshipSummaryView {
        TaskRelationshipSummaryView {
            relationship_id: self.relationship_id@,
            relationship_type: self.relationship_type@,
            relationship_type_display: self.relationship_type_display@,
            source_task_id: self.source_task_id@,
            source_task_title: self.source_task_title@,
            target_task_id: self.target_task_id@,
            target_task_title: self.target_task_title@,
            direction: self.direction.deep_view(),
            note: self.note.deep_view(),
        }
    }
}

impl DeepView for TaskRelationshipSummary {
    type V = TaskRelationshipSummaryView;

    open spec fn deep_view(&self) -> TaskRelationshipSummaryView {
        self@
    }
}

/// The answer to a request to manage the relationships of a task.
#[derive(Debug)]
pub struct ManageTaskRelationshipsResponse {
    pub relationships: Vec<TaskRelationshipSummary>,
}

/// The summary of a relationship in the group of its type: ids in
/// hyphenated form, the titles of the two tasks, the direction if the
/// type is directional, and the note if notes are wanted.
pub open spec fn listed_summary(
    ty: TaskRelationshipTypeView,
    details: TaskRelationshipWithDetailsView,
    direction: Seq<char>,
    include_notes: bool,
) -> TaskRelationshipSummaryView {
    TaskRelationshipSummaryView {
        relationship_id: hyphenated(details.relationship.id),
        relationship_type: ty.name,
        relationship_type_display: ty.display_name,
        source_task_id: hyphenated(details.source_task.id),
        source_task_title: details.source_task.title,
        target_task_id: hyphenated(details.target_task.id),
        target_task_title: details.target_task.title,
        direction: if ty.is_directional {
            Some(direction)
        } else {
            None
        },
        note: if include_notes {
            details.relationship.note
        } else {
            None
        },
    }
}

/// The summaries of one group: of its forward relationships, then of its
/// reverse ones.
pub open spec fn group_summaries(group: TaskRelationshipGroupedView, include_notes: bool) -> Seq<
    TaskRelationshipSummaryView,
> {
    group.forward.map_values(
        |d: TaskRelationshipWithDetailsView|
            listed_summary(group.relationship_type, d, "forward"@, include_notes),
    ) + group.reverse.map_values(
        |d: TaskRelationshipWithDetailsView|
            listed_summary(group.relationship_type, d, "reverse"@, include_notes),
    )
}

/// The summaries of the groups, one group after the other.
pub open spec fn all_summaries(groups: Seq<TaskRelationshipGroupedView>, include_notes: bool) -> Seq<
    TaskRelationshipSummaryView,
>
    decreases groups.len(),
{
    if groups.len() == 0 {
        Seq::empty()
    } else {
        all_summaries(groups.drop_last(), include_notes) + group_summaries(
            groups.last(),
            include_notes,
        )
    }
}

/// Adds the summaries of the relationships to `out`.
fn push_summaries(
    out: &mut Vec<TaskRelationshipSummary>,
    group: &TaskRelationshipGrouped,
    list: &Vec<TaskRelationshipWithDetails>,
    direction: &str,
    include_notes: bool,
)
    ensures
        final(out).deep_view() == old(out).deep_view() + list.deep_view().map_values(
            |d: TaskRelationshipWithDetailsView|
                listed_summary(group@.relationship_type, d, direction@, include_notes),
        ),
{
    let ghost start = out.deep_view();
    let ghost rows = list.deep_view();
    let ghost ty = group@.relationship_type;
    let mut i: usize = 0;
    proof {
        assert(out.deep_view() =~= start + rows.take(0).map_values(
            |d: TaskRelationshipWithDetailsView| listed_summary(ty, d, direction@, include_notes),
        ));
    }
    while i < list.len()
        invariant
            i <= list.len(),
            rows == list.deep_view(),
            ty == group@.relationship_type,
            out.deep_view() == start + rows.take(i as int).map_values(
                |d: TaskRelationshipWithDetailsView|
                    listed_summary(ty, d, direction@, include_notes),
            ),
        decreases list.len() - i,
    {
        let details = &list[i];
        let ghost before = out.deep_view();
        let summary = TaskRelationshipSummary {
            relationship_id: id_text(details.relationship.id),
            relationship_type: group.relationship_type.name.clone(),
            relationship_type_display: group.relationship_type.display_name.clone(),
            source_task_id: id_text(details.source_task.id),
            source_task_title: details.source_task.title.clone(),
            target_task_id: id_text(details.target_task.id),
            target_task_title: details.target_task.title.clone(),
            direction: if group.relationship_type.is_directional {
                Some(direction.to_owned())
            } else {
                None
            },
            note: if include_notes {
                details.relationship.note.clone()
            } else {
                None
            },
        };
        proof {
            assert(rows[i as int] == list[i as int]@);
            assert(summary@ == listed_summary(ty, rows[i as int], direction@, include_notes));
        }
        out.push(summary);
        proof {
            assert(out.deep_view() =~= before.push(
                listed_summary(ty, rows[i as int], direction@, include_notes),
            ));
            assert(out.deep_view() =~= start + rows.take(i + 1).map_values(
                |d: TaskRelationshipWithDetailsView|
                    listed_summary(ty, d, direction@, include_notes),
            ));
        }
        i += 1;
    }
    proof {
        assert(rows.take(rows.len() as int) =~= rows);
    }
}

impl ManageTaskRelationshipsResponse {
    /// The response to `list`: for each group its forward relationships,
    /// then its reverse ones, each as its summary.
    pub fn from_groups(groups: &Vec<TaskRelationshipGrouped>, include_notes: bool) -> (response:
        Self)
        ensures
            response.relationships.deep_view() == all_summaries(groups.deep_view(), include_notes),
    {
        let ghost all = groups.deep_view();
        let mut summaries: Vec<TaskRelationshipSummary> = Vec::new();
        let mut i: usize = 0;
        proof {
            assert(summaries.deep_view() =~= Seq::empty());
        }
        while i < groups.len()
            invariant
                i <= groups.len(),
                all == groups.deep_view(),
                summaries.deep_view() == all_summaries(all.take(i as int), include_notes),
            decreases groups.len() - i,
        {
            proof {
                assert(all.take(i + 1).drop_last() =~= all.take(i as int));
                assert(all.take(i + 1).last() == groups[i as int]@);
            }
            let ghost before = summaries.deep_view();
            push_summaries(&mut summaries, &groups[i], &groups[i].forward, "forward", include_notes);
            push_summaries(&mut summaries, &groups[i], &groups[i].reverse, "reverse", include_notes);
            proof {
                assert(summaries.deep_view() =~= before + group_summaries(
                    groups[i as int]@,
                    include_notes,
                ));
            }
            i += 1;
        }
        proof {
            assert(all.take(all.len() as int) =~= all);
        }
        ManageTaskRelationshipsResponse { relationships: summaries }
    }

    /// The response to `add` and to `update`: one summary, which holds
    /// the ids and the name of the type as the request gave them, no
    /// titles, no direction, and the note of the relationship as it is
    /// stored, if notes are wanted.
    pub fn of_change(
        relationship_id: u128,
        relationship_type: String,
        task_id: u128,
        target_task_id: Option<u128>,
        stored: &TaskRelationship,
        include_notes: bool,
    ) -> (response: Self)
        ensures
            response.relationships.len() == 1,
            response.relationships[0]@ == (TaskRelationshipSummaryView {
                relationship_id: hyphenated(relationship_id),
                relationship_type: relationship_type@,
                relationship_type_display: Seq::empty(),
                source_task_id: hyphenated(task_id),
                source_task_title: Seq::empty(),
                target_task_id: match target_task_id {
                    Some(target) => hyphenated(target),
                    None => Seq::empty(),
                },
                target_task_title: Seq::empty(),
                direction: None,
                note: if include_notes {
                    stored@.note
                } else {
                    None
                },
            }),
    {
        let summary = TaskRelationshipSummary {
            relationship_id: id_text(relationship_id),
            relationship_type,
            relationship_type_display: String::new(),
            source_task_id: id_text(task_id),
            source_task_title: String::new(),
            target_task_id: match target_task_id {
                Some(target) => id_text(target),
                None => String::new(),
            },
            target_task_title: String::new(),
            direction: None,
            note: if include_notes {
                stored.note.clone()
            } else {
                None
            },
        };
        let mut relationships: Vec<TaskRelationshipSummary> = Vec::new();
        relationships.push(summary);
        ManageTaskRelationshipsResponse { relationships }
    }
}

/// What a listing of relationship types says of one type, as far as it is
/// text.
#[derive(Debug)]
pub struct RelationshipTypeEntry {
    pub name: Option<String>,
    pub id: Option<String>,
}

/// The mathematical value of a [`RelationshipTypeEntry`].
pub struct RelationshipTypeEntryView {
    pub name: Option<Seq<char>>,
    pub id: Option<Seq<char>>,
}

impl View for RelationshipTypeEntry {
    type V = RelationshipTypeEntryView;

    open spec fn view(&self) -> RelationshipTypeEntryView {
        RelationshipTypeEntryView { name: self.name.deep_view(), id: self.id.deep_view() }
    }
}

impl DeepView for RelationshipTypeEntry {
    type V = RelationshipTypeEntryView;

    open spec fn deep_view(&self) -> RelationshipTypeEntryView {
        self@
    }
}

/// The entries with the given name whose id can be read.
pub open spec fn names_type(name: Seq<char>) -> spec_fn(RelationshipTypeEntryView) -> bool {
    |entry: RelationshipTypeEntryView|
        entry.name == Some(name) && entry.id is Some && parsed_id(entry.id->0) is Some
}

/// The id of the type with the given name: that of the first entry with
/// this name whose id can be read.
pub open spec fn type_id_named(entries: Seq<RelationshipTypeEntryView>, name: Seq<char>) -> Option<
    u128,
> {
    match first_match(entries, names_type(name)) {
        Some(entry) => parsed_id(entry.id->0),
        None => None,
    }
}

/// The message for a type name that no entry has.
pub open spec fn type_not_found_message(name: Seq<char>) -> Seq<char> {
    "Relationship type '"@ + name + "' not found"@
}

/// The message for an action that is none of the four.
pub open spec fn invalid_action_message(action: Seq<char>) -> Seq<char> {
    "Invalid action: "@ + action + ". Must be one of: add, update, delete, list"@
}

/// The id of the type with the given name: that of the first entry with
/// this name whose id can be read.
pub fn find_type_id(entries: &Vec<RelationshipTypeEntry>, name: &str) -> (found: Option<u128>)
    ensures
        found == type_id_named(entries.deep_view(), name@),
{
    let ghost rows = entries.deep_view();
    let ghost wanted = names_type(name@);
    let mut i: usize = 0;
    while i < entries.len()
        invariant
            i <= entries.len(),
            rows == entries.deep_view(),
            wanted == names_type(name@),
            forall|j: int| 0 <= j < i ==> !wanted(#[trigger] rows[j]),
        decreases entries.len() - i,
    {
        proof {
            assert(rows[i as int] == entries[i as int]@);
        }
        match (&entries[i].name, &entries[i].id) {
            (Some(entry_name), Some(entry_id)) => {
                if text_eq(entry_name.as_str(), name) {
                    match parse_id(entry_id.as_str()) {
                        Some(id) => {
                            proof {
                                lemma_first_index_is(rows, wanted, i as int);
                            }
                            return Some(id);
                        },
                        None => {},
                    }
                }
            },
            _ => {},
        }
        i += 1;
    }
    proof {
        lemma_first_index_is(rows, wanted, rows.len() as int);
    }
    None
}

/// What is sent to the API to create or change a relationship. A field
/// that is `None` is left out of a change.
#[derive(Debug)]
pub struct RelationshipPayload {
    pub target_task_id: Option<u128>,
    pub relationship_type_id: Option<u128>,
    pub note: Option<String>,
    pub data: Option<serde_json::Value>,
}

/// What the tool does for a request, before it has asked the API
/// anything.
#[derive(Debug)]
pub enum RelationshipPlan {
    /// Nothing: the request is refused.
    Refuse(ToolError),
    /// Read the groups of the task and answer with their summaries.
    List { task_id: u128, include_notes: bool },
    /// Read the types, find the one named, and create the relationship.
    Add {
        task_id: u128,
        named_type: String,
        target_task_id: Option<u128>,
        note: Option<String>,
        data: Option<serde_json::Value>,
        include_notes: bool,
    },
    /// Change the relationship; if a type is named, read the types first
    /// and find it.
    Update {
        task_id: u128,
        relationship_id: u128,
        relationship_type: Option<String>,
        target_task_id: Option<u128>,
        note: Option<String>,
        data: Option<serde_json::Value>,
        include_notes: bool,
    },
    /// Delete the relationship.
    Delete { task_id: u128, relationship_id: u128 },
}

/// Whether the plan is a refusal with the given message and no details.
pub open spec fn refused_with(plan: RelationshipPlan, message: Seq<char>) -> bool {
    plan matches RelationshipPlan::Refuse(e) && e@ == tool_error(message, None)
}

impl ManageTaskRelationshipsRequest {
    /// Whether the response is to hold the notes.
    pub open spec fn wants_notes(&self) -> bool {
        match self.include_notes {
            Some(wanted) => wanted,
            None => true,
        }
    }

    /// Whether `plan` is what the tool does for the request. `list` needs
    /// nothing; `add` needs the name of a type; `update` and `delete`
    /// need the id of a relationship; any other action is refused.
    pub open spec fn planned(self, plan: RelationshipPlan) -> bool {
        if self.action@ == "list"@ {
            plan == (RelationshipPlan::List {
                task_id: self.task_id,
                include_notes: self.wants_notes(),
            })
        } else if self.action@ == "add"@ {
            match self.relationship_type {
                None => refused_with(plan, ADD_NEEDS_TYPE@),
                Some(name) => match plan {
                    RelationshipPlan::Add {
                        task_id,
                        named_type,
                        target_task_id,
                        note,
                        data,
                        include_notes,
                    } => task_id == self.task_id && named_type@ == name@ && target_task_id
                        == self.target_task_id && note == self.note && data == self.data
                        && include_notes == self.wants_notes(),
                    _ => false,
                },
            }
        } else if self.action@ == "update"@ {
            match self.relationship_id {
                None => refused_with(plan, UPDATE_NEEDS_ID@),
                Some(id) => plan == (RelationshipPlan::Update {
                    task_id: self.task_id,
                    relationship_id: id,
                    relationship_type: self.relationship_type,
                    target_task_id: self.target_task_id,
                    note: self.note,
                    data: self.data,
                    include_notes: self.wants_notes(),
                }),
            }
        } else if self.action@ == "delete"@ {
            match self.relationship_id {
                None => refused_with(plan, DELETE_NEEDS_ID@),
                Some(id) => plan == (RelationshipPlan::Delete {
                    task_id: self.task_id,
                    relationship_id: id,
                }),
            }
        } else {
            refused_with(plan, invalid_action_message(self.action@))
        }
    }

    /// What the tool does for the request, before it has asked the API
    /// anything.
    pub fn plan(self) -> (plan: RelationshipPlan)
        ensures
            self.planned(plan),
    {
        proof {
            reveal_strlit("list");
            reveal_strlit("add");
            reveal_strlit("update");
            reveal_strlit("delete");
            assert("list"@.len() == 4);
            assert("add"@.len() == 3);
            assert("update"@.len() == 6);
            assert("delete"@.len() == 6);
            assert("update"@[0] == 'u');
            assert("delete"@[0] == 'd');
        }
        let include_notes = match self.include_notes {
            Some(wanted) => wanted,
            None => true,
        };
        if text_eq(self.action.as_str(), "list") {
            RelationshipPlan::List { task_id: self.task_id, include_notes }
        } else if text_eq(self.action.as_str(), "add") {
            match self.relationship_type {
                None => RelationshipPlan::Refuse(
                    ToolError { error: ADD_NEEDS_TYPE.to_owned(), details: None },
                ),
                Some(named_type) => RelationshipPlan::Add {
                    task_id: self.task_id,
                    named_type,
                    target_task_id: self.target_task_id,
                    note: self.note,
                    data: self.data,
                    include_notes,
                },
            }
        } else if text_eq(self.action.as_str(), "update") {
            match self.relationship_id {
                None => RelationshipPlan::Refuse(
                    ToolError { error: UPDATE_NEEDS_ID.to_owned(), details: None },
                ),
                Some(relationship_id) => RelationshipPlan::Update {
                    task_id: self.task_id,
                    relationship_id,
                    relationship_type: self.relationship_type,
                    target_task_id: self.target_task_id,
                    note: self.note,
                    data: self.data,
                    include_notes,
                },
            }
        } else if text_eq(self.action.as_str(), "delete") {
            match self.relationship_id {
                None => RelationshipPlan::Refuse(
                    ToolError { error: DELETE_NEEDS_ID.to_owned(), details: None },
                ),
                Some(relationship_id) => RelationshipPlan::Delete {
                    task_id: self.task_id,
                    relationship_id,
                },
            }
        } else {
            let mut error = String::from_str("Invalid action: ");
            error.append(self.action.as_str());
            error.append(". Must be one of: add, update, delete, list");
            RelationshipPlan::Refuse(ToolError { error, details: None })
        }
    }
}

/// The refusal for a type name that no entry has.
fn type_not_found(name: &str) -> (e: ToolError)
    ensures
        e@ == tool_error(type_not_found_message(name@), None),
{
    let mut error = String::from_str("Relationship type '");
    error.append(name);
    error.append("' not found");
    ToolError { error, details: None }
}

impl RelationshipPayload {
    /// What is sent to create a relationship, once the types are known.
    /// The type named must be among the entries, and then a target must
    /// be given: the type is looked for first.
    pub fn for_add(
        entries: &Vec<RelationshipTypeEntry>,
        relationship_type: &str,
        target_task_id: Option<u128>,
        note: Option<String>,
        data: Option<serde_json::Value>,
    ) -> (r: Result<RelationshipPayload, ToolError>)
        ensures
            match type_id_named(entries.deep_view(), relationship_type@) {
                None => r matches Err(e) && e@ == tool_error(
                    type_not_found_message(relationship_type@),
                    None,
                ),
                Some(ty) => match target_task_id {
                    None => r matches Err(e) && e@ == tool_error(ADD_NEEDS_TARGET@, None),
                    Some(target) => r matches Ok(payload) && payload.target_task_id == Some(target)
                        && payload.relationship_type_id == Some(ty) && payload.note == note
                        && payload.data == data,
                },
            },
    {
        let ty = match find_type_id(entries, relationship_type) {
            Some(ty) => ty,
            None => {
                return Err(type_not_found(relationship_type));
            },
        };
        match target_task_id {
            None => Err(ToolError { error: ADD_NEEDS_TARGET.to_owned(), details: None }),
            Some(target) => Ok(
                RelationshipPayload {
                    target_task_id: Some(target),
                    relationship_type_id: Some(ty),
                    note,
                    data,
                },
            ),
        }
    }

    /// What is sent to change a relationship. A type named must be among
    /// the entries; without a name the entries are not looked at.
    pub fn for_update(
        entries: &Vec<RelationshipTypeEntry>,
        relationship_type: &Option<String>,
        target_task_id: Option<u128>,
        note: Option<String>,
        data: Option<serde_json::Value>,
    ) -> (r: Result<RelationshipPayload, ToolError>)
        ensures
            match relationship_type {
                Some(name) => match type_id_named(entries.deep_view(), name@) {
                    None => r matches Err(e) && e@ == tool_error(
                        type_not_found_message(name@),
                        None,
                    ),
                    Some(ty) => r matches Ok(payload) && payload.relationship_type_id == Some(ty)
                        && payload.target_task_id == target_task_id && payload.note == note
                        && payload.data == data,
                },
                None => r matches Ok(payload) && payload.relationship_type_id is None
                    && payload.target_task_id == target_task_id && payload.note == note
                    && payload.data == data,
            },
    {
        let relationship_type_id = match relationship_type {
            Some(name) => match find_type_id(entries, name.as_str()) {
                Some(ty) => Some(ty),
                None => {
                    return Err(type_not_found(name.as_str()));
                },
            },
            None => None,
        };
        Ok(RelationshipPayload { target_task_id, relationship_type_id, note, data })
    }
}

/// A request for one template, by id or by name.
#[derive(Debug)]
pub struct GetTaskTemplateRequest {
    pub template_id: Option<u128>,
    pub template_name: Option<String>,
}

/// How a template is looked for.
#[derive(Debug)]
pub enum TemplateLookup {
    /// By its id.
    ById(u128),
    /// By its name, among all templates.
    ByName(String),
}

/// The message for a template name that no template has.
pub open spec fn template_not_found_message(name: Seq<char>) -> Seq<char> {
    "Template with name '"@ + name + "' not found"@
}

impl GetTaskTemplateRequest {
    /// How the template is looked for: by its id if one is given, else by
    /// its name; a request with neither is refused.
    pub fn lookup(self) -> (r: Result<TemplateLookup, ToolError>)
        ensures
            match (self.template_id, self.template_name) {
                (Some(id), _) => r matches Ok(TemplateLookup::ById(found)) && found == id,
                (None, Some(name)) => r matches Ok(TemplateLookup::ByName(found)) && found@
                    == name@,
                (None, None) => r matches Err(e) && e@ == tool_error(TEMPLATE_KEY_MISSING@, None),
            },
    {
        match self.template_id {
            Some(id) => Ok(TemplateLookup::ById(id)),
            None => match self.template_name {
                Some(name) => Ok(TemplateLookup::ByName(name)),
                None => Err(ToolError { error: TEMPLATE_KEY_MISSING.to_owned(), details: None }),
            },
        }
    }

    /// The first of the templates with the given name.
    pub fn pick(templates: &Vec<TaskTemplate>, name: &str) -> (r: Result<TaskTemplate, ToolError>)
        ensures
            match first_match(templates.deep_view(), TaskTemplateView::with_name(name@)) {
                Some(template) => r matches Ok(found) && found@ == template,
                None => r matches Err(e) && e@ == tool_error(
                    template_not_found_message(name@),
                    None,
                ),
            },
    {
        let ghost rows = templates.deep_view();
        let mut i: usize = 0;
        while i < templates.len() && !text_eq(templates[i].template_name.as_str(), name)
            invariant
                i <= templates.len(),
                rows == templates.deep_view(),
                forall|j: int|
                    0 <= j < i ==> !(TaskTemplateView::with_name(name@))(#[trigger] rows[j]),
            decreases templates.len() - i,
        {
            proof {
                assert(rows[i as int] == templates[i as int]@);
            }
            i += 1;
        }
        proof {
            if i < templates.len() {
                assert(rows[i as int] == templates[i as int]@);
            }
            lemma_first_index_is(rows, TaskTemplateView::with_name(name@), i as int);
        }
        if i < templates.len() {
            Ok(templates[i].clone())
        } else {
            let mut error = String::from_str("Template with name '");
            error.append(name);
            error.append("' not found");
            Err(ToolError { error, details: None })
        }
    }
}

/// The answer to a request to create a template.
#[derive(Debug)]
pub struct CreateTaskTemplateResponse {
    pub template_id: String,
}

impl CreateTaskTemplateResponse {
    /// The answer for the template that was created.
    pub fn new(template_id: u128) -> (response: Self)
        ensures
            response.template_id@ == hyphenated(template_id),
    {
        CreateTaskTemplateResponse { template_id: id_text(template_id) }
    }
}

/// The answer to a request to delete a template.
#[derive(Debug)]
pub struct DeleteTaskTemplateResponse {
    pub deleted_template_id: Option<String>,
}

impl DeleteTaskTemplateResponse {
    /// The answer for the template that was deleted.
    pub fn new(template_id: u128) -> (response: Self)
        ensures
            response.deleted_template_id.deep_view() == Some(hyphenated(template_id)),
    {
        DeleteTaskTemplateResponse { deleted_template_id: Some(id_text(template_id)) }
    }
}

/// The answer to a request to create a template group.
#[derive(Debug)]
pub struct CreateTaskTemplateGroupResponse {
    pub group_id: String,
}

impl CreateTaskTemplateGroupResponse {
    /// The answer for the group that was created.
    pub fn new(group_id: u128) -> (response: Self)
        ensures
            response.group_id@ == hyphenated(group_id),
    {
        CreateTaskTemplateGroupResponse { group_id: id_text(group_id) }
    }
}

/// The answer to a request to delete a template group.
#[derive(Debug)]
pub struct DeleteTaskTemplateGroupResponse {
    pub deleted_group_id: Option<String>,
}

impl DeleteTaskTemplateGroupResponse {
    /// The answer for the group that was deleted.
    pub fn new(group_id: u128) -> (response: Self)
        ensures
            response.deleted_group_id.deep_view() == Some(hyphenated(group_id)),
    {
        DeleteTaskTemplateGroupResponse { deleted_group_id: Some(id_text(group_id)) }
    }
}

} // verus!
