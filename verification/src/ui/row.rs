//! The rows of the dashboard.
use crate::store::{Status, TaskRef, TaskRefV};
use crate::text;
use vstd::prelude::*;
use vstd::string::*;

verus! {

/// One row in the dashboard. Detached from the store so tests can build it.
/// Carries `project`/`store_root` so the cross-project view can label each task
/// and route actions back to the store it came from.
#[derive(Debug)]
pub struct TaskRow {
    pub id: String,
    pub slug: String,
    pub title: String,
    pub status: Status,
    pub path: String,
    pub body: String,
    pub branch: Option<String>,
    pub github_issue: Option<u64>,
    pub github_pr: Option<u64>,
    pub created_at: String,
    pub updated_at: String,
    pub tags: Vec<String>,
    pub shared: bool,
    /// State of the last `rein run`'s background session (`working`/`done`/…).
    /// Sessions that background themselves are resolved by a query of their agent; Codex
    /// and opencode runs use rein's wrapper status file.
    pub run_state: Option<String>,
    /// Isolated worktree path from the task's state, if it was started in
    /// worktree mode — distinguishes a worktree-backed task from a plain branch.
    pub worktree: Option<String>,
    /// The project's main repo working directory (from `StoreInfo`), used as the
    /// working directory for branch/single-mode tasks that have no worktree.
    pub repo_dir: Option<String>,
    pub project: String,
    pub store_root: String,
}

/// What a [`TaskRow`] stands for.
#[verifier::ext_equal]
pub struct TaskRowV {
    pub id: Seq<char>,
    pub slug: Seq<char>,
    pub title: Seq<char>,
    pub status: Status,
    pub path: Seq<char>,
    pub body: Seq<char>,
    pub branch: Option<Seq<char>>,
    pub github_issue: Option<u64>,
    pub github_pr: Option<u64>,
    pub created_at: Seq<char>,
    pub updated_at: Seq<char>,
    pub tags: Seq<Seq<char>>,
    pub shared: bool,
    pub run_state: Option<Seq<char>>,
    pub worktree: Option<Seq<char>>,
    pub repo_dir: Option<Seq<char>>,
    pub project: Seq<char>,
    pub store_root: Seq<char>,
}

impl View for TaskRow {
    type V = TaskRowV;

    open spec fn view(&self) -> TaskRowV {
        TaskRowV {
            id: self.id@,
            slug: self.slug@,
            title: self.title@,
            status: self.status,
            path: self.path@,
            body: self.body@,
            branch: text::opt_view(self.branch),
            github_issue: self.github_issue,
            github_pr: self.github_pr,
            created_at: self.created_at@,
            updated_at: self.updated_at@,
            tags: text::views(self.tags@),
            shared: self.shared,
            run_state: text::opt_view(self.run_state),
            worktree: text::opt_view(self.worktree),
            repo_dir: text::opt_view(self.repo_dir),
            project: self.project@,
            store_root: self.store_root@,
        }
    }
}

impl Clone for TaskRow {
    fn clone(&self) -> (r: Self)
        ensures
            r@ == self@,
    {
        TaskRow {
            id: self.id.clone(),
            slug: self.slug.clone(),
            title: self.title.clone(),
            status: self.status,
            path: self.path.clone(),
            body: self.body.clone(),
            branch: text::clone_opt(&self.branch),
            github_issue: self.github_issue,
            github_pr: self.github_pr,
            created_at: self.created_at.clone(),
            updated_at: self.updated_at.clone(),
            tags: text::clone_list(&self.tags),
            shared: self.shared,
            run_state: text::clone_opt(&self.run_state),
            worktree: text::clone_opt(&self.worktree),
            repo_dir: text::clone_opt(&self.repo_dir),
            project: self.project.clone(),
            store_root: self.store_root.clone(),
        }
    }
}

/// The row of a task.
pub open spec fn row_of(t: TaskRefV, project: Seq<char>, store_root: Seq<char>) -> TaskRowV {
    TaskRowV {
        id: t.id,
        slug: t.slug,
        title: t.doc.front.title,
        status: t.status,
        path: t.path,
        body: t.doc.body,
        branch: t.doc.front.branch,
        github_issue: t.doc.front.github_issue,
        github_pr: t.doc.front.github_pr,
        created_at: t.doc.front.created_at,
        updated_at: t.doc.front.updated_at,
        tags: t.doc.front.tags,
        shared: t.doc.front.shared,
        run_state: None,
        worktree: None,
        repo_dir: None,
        project,
        store_root,
    }
}

/// Where the work on a task happens.
pub open spec fn dir_of_row(t: TaskRowV) -> Option<Seq<char>> {
    match t.worktree {
        Some(w) => Some(w),
        None => t.repo_dir,
    }
}

/// A run of the task is going on.
pub open spec fn is_live(state: Option<Seq<char>>) -> bool {
    state == Some("working"@) || state == Some("running"@)
}

impl TaskRow {
    /// The row of a task.
    pub fn from_ref(t: &TaskRef, project: &str, store_root: &str) -> (r: TaskRow)
        ensures
            r@ == row_of(t@, project@, store_root@),
    {
        TaskRow {
            id: t.id.clone(),
            slug: t.slug.clone(),
            title: t.doc.front.title.clone(),
            status: t.status,
            path: t.path.clone(),
            body: t.doc.body.clone(),
            branch: text::clone_opt(&t.doc.front.branch),
            github_issue: t.doc.front.github_issue,
            github_pr: t.doc.front.github_pr,
            created_at: t.doc.front.created_at.clone(),
            updated_at: t.doc.front.updated_at.clone(),
            tags: text::clone_list(&t.doc.front.tags),
            shared: t.doc.front.shared,
            run_state: None,
            worktree: None,
            repo_dir: None,
            project: String::from_str(project),
            store_root: String::from_str(store_root),
        }
    }

    /// Whether the task is backed by an isolated worktree (vs a plain branch).
    pub fn is_worktree(&self) -> (r: bool)
        ensures
            r == (self@.worktree is Some),
    {
        self.worktree.is_some()
    }

    /// The task's working directory: its worktree if it has one, else the
    /// project's main repo. `None` when neither is known.
    pub fn work_dir(&self) -> (r: Option<String>)
        ensures
            text::opt_view(r) == dir_of_row(self@),
    {
        match &self.worktree {
            Some(w) => Some(w.clone()),
            None => text::clone_opt(&self.repo_dir),
        }
    }

    /// Whether a background run is live.
    pub fn is_running(&self) -> (r: bool)
        ensures
            r == is_live(self@.run_state),
    {
        match &self.run_state {
            Some(s) => text::same(s, "working") || text::same(s, "running"),
            None => false,
        }
    }
}

} // verus!
