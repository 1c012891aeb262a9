//! The state of the dashboard.
use crate::gitx::{Worktree, WorktreeV};
use crate::paths;
use crate::store::Status;
use crate::text;
use crate::ui::keys::{ForcePush, ForcePushV};
use crate::ui::matching;
use crate::ui::row::{TaskRow, TaskRowV};
use vstd::prelude::*;
use vstd::string::*;

verus! {

/// An in-flight `rein summary` launched from the dashboard (`S`). The LLM call
/// runs on a worker thread so the UI keeps animating a spinner instead of
/// freezing.
#[derive(Debug)]
pub struct Summarizing {
    /// Task slug, shown in the spinner overlay.
    pub slug: String,
    /// How long it has been running, for the elapsed-seconds readout.
    pub seconds: u64,
}

/// What a [`Summarizing`] stands for.
#[verifier::ext_equal]
pub struct SummarizingV {
    pub slug: Seq<char>,
    pub seconds: u64,
}

impl View for Summarizing {
    type V = SummarizingV;

    open spec fn view(&self) -> SummarizingV {
        SummarizingV { slug: self.slug@, seconds: self.seconds }
    }
}

/// The state of the dashboard.
#[derive(Debug)]
pub struct App {
    pub tasks: Vec<TaskRow>,
    pub tab: usize,
    pub selected: usize,
    pub filter: String,
    pub filtering: bool,
    pub creating: bool,
    pub moving: bool,
    /// True while awaiting the delete confirmation key (`y` confirms; else cancels).
    pub deleting: bool,
    /// True while awaiting the start-mode key (`s` single / `w` worktree / `b` branch).
    pub starting: bool,
    /// True while awaiting the PR-mode key (`w` worktree / `b` branch).
    pub pring: bool,
    /// True while awaiting the agent key (`c`, `x` codex, `o` opencode).
    pub choosing_agent: bool,
    /// True while the optional issue→project picker is shown (after `i` on a
    /// task with no issue yet).
    pub issuing: bool,
    /// Candidate GitHub Project titles for the issue picker (fetched on `i`).
    pub issue_projects: Vec<String>,
    /// Cursor in the issue→project picker (0 = "no project", then projects).
    pub issue_sel: usize,
    /// The task awaiting issue creation while the project picker is open.
    pub issue_target: Option<String>,
    pub input: String,
    pub message: String,
    /// A modal overlay; `Some` blocks input until dismissed with any key.
    pub popup: Option<String>,
    /// Whether the current popup is an error (red) vs an informational result.
    pub popup_error: bool,
    /// Active project filter: `None` shows every project, `Some(name)` scopes
    /// the task list to one. Pre-set to the launch repo's project so `rein ui`
    /// lands in the current project's tasks.
    pub project_scope: Option<String>,
    /// The run agent that is configured for the scoped project, if any.
    pub scope_agent: Option<String>,
    /// Every known project (incl. ones with no tasks), for the picker.
    pub all_projects: Vec<String>,
    /// True while the left pane is the hierarchical project picker.
    pub picking_project: bool,
    /// Cursor in the project picker (0 = "all projects", then `project_list()`).
    pub project_sel: usize,
    /// Store + label of the repo `rein ui` was launched from, if any — the
    /// fallback target for `new` when no task is selected.
    pub home_store_root: Option<String>,
    pub home_label: Option<String>,
    /// True while drilled into the selected task's checklist items: the left
    /// pane lists the items and the preview shows the selected item's matching
    /// Agent-Log entries; `space` checks/unchecks the item under the cursor.
    pub viewing_items: bool,
    /// Cursor among the focused task's checklist items (only meaningful while
    /// `viewing_items`).
    pub item_sel: usize,
    /// True while typing a new checklist item in the item view (a sub-mode of
    /// `viewing_items`); the text accumulates in `input`.
    pub creating_item: bool,
    /// True while editing the selected checklist item's text (a sub-mode of
    /// `viewing_items`, prefilled into `input`).
    pub editing_item: bool,
    /// True while awaiting the item-delete confirmation key (`y` confirms; any
    /// other key cancels) in the item view.
    pub deleting_item: bool,
    /// True while drilled into the focused project's git worktrees: the left
    /// pane lists each worktree and the preview shows the selected one's
    /// details; `n` adds, `space` locks/unlocks, `d` removes, `y` copies its path.
    pub viewing_worktrees: bool,
    /// The worktrees of the anchor project's repo (refreshed after each mutation).
    pub worktrees: Vec<Worktree>,
    /// Cursor among `worktrees` (only meaningful while `viewing_worktrees`).
    pub worktree_sel: usize,
    /// Task id whose project's repo backs the worktree view — the handle the
    /// event loop resolves to a repo for list/add/remove/lock.
    pub worktree_anchor: Option<String>,
    /// Display label (project name) for the worktree view's title and hint.
    pub worktree_project: String,
    /// True while typing a branch name for a new worktree (a sub-mode of
    /// `viewing_worktrees`); the text accumulates in `input`.
    pub creating_worktree: bool,
    /// True while awaiting the worktree-remove confirmation key (`y` confirms;
    /// any other key cancels) in the worktree view.
    pub deleting_worktree: bool,
    /// An in-flight `rein summary` (the `S` action), or `None`. While `Some`,
    /// the dashboard shows an animated overlay and swallows keys until it
    /// resolves into a result popup.
    pub summarizing: Option<Summarizing>,
    /// Animation frame for the summarizing spinner, advanced each idle tick.
    pub spinner_frame: usize,
    /// A pending force-push offer after a push hit a sync conflict, or `None`.
    /// While `Some`, the dashboard shows a prompt (`f` overwrites the remote).
    pub force_push: Option<ForcePush>,
}

/// What an [`App`] stands for.
pub struct AppV {
    pub tasks: Seq<TaskRowV>,
    pub tab: usize,
    pub selected: usize,
    pub filter: Seq<char>,
    pub filtering: bool,
    pub creating: bool,
    pub moving: bool,
    pub deleting: bool,
    pub starting: bool,
    pub pring: bool,
    pub choosing_agent: bool,
    pub issuing: bool,
    pub issue_projects: Seq<Seq<char>>,
    pub issue_sel: usize,
    pub issue_target: Option<Seq<char>>,
    pub input: Seq<char>,
    pub message: Seq<char>,
    pub popup: Option<Seq<char>>,
    pub popup_error: bool,
    pub project_scope: Option<Seq<char>>,
    pub scope_agent: Option<Seq<char>>,
    pub all_projects: Seq<Seq<char>>,
    pub picking_project: bool,
    pub project_sel: usize,
    pub home_store_root: Option<Seq<char>>,
    pub home_label: Option<Seq<char>>,
    pub viewing_items: bool,
    pub item_sel: usize,
    pub creating_item: bool,
    pub editing_item: bool,
    pub deleting_item: bool,
    pub viewing_worktrees: bool,
    pub worktrees: Seq<WorktreeV>,
    pub worktree_sel: usize,
    pub worktree_anchor: Option<Seq<char>>,
    pub worktree_project: Seq<char>,
    pub creating_worktree: bool,
    pub deleting_worktree: bool,
    pub summarizing: Option<SummarizingV>,
    pub spinner_frame: usize,
    pub force_push: Option<ForcePushV>,
}

impl View for App {
    type V = AppV;

    open spec fn view(&self) -> AppV {
        AppV {
            tasks: text::views(self.tasks@),
            tab: self.tab,
            selected: self.selected,
            filter: self.filter@,
            filtering: self.filtering,
            creating: self.creating,
            moving: self.moving,
            deleting: self.deleting,
            starting: self.starting,
            pring: self.pring,
            choosing_agent: self.choosing_agent,
            issuing: self.issuing,
            issue_projects: text::views(self.issue_projects@),
            issue_sel: self.issue_sel,
            issue_target: text::opt_view(self.issue_target),
            input: self.input@,
            message: self.message@,
            popup: text::opt_view(self.popup),
            popup_error: self.popup_error,
            project_scope: text::opt_view(self.project_scope),
            scope_agent: text::opt_view(self.scope_agent),
            all_projects: text::views(self.all_projects@),
            picking_project: self.picking_project,
            project_sel: self.project_sel,
            home_store_root: text::opt_view(self.home_store_root),
            home_label: text::opt_view(self.home_label),
            viewing_items: self.viewing_items,
            item_sel: self.item_sel,
            creating_item: self.creating_item,
            editing_item: self.editing_item,
            deleting_item: self.deleting_item,
            viewing_worktrees: self.viewing_worktrees,
            worktrees: text::views(self.worktrees@),
            worktree_sel: self.worktree_sel,
            worktree_anchor: text::opt_view(self.worktree_anchor),
            worktree_project: self.worktree_project@,
            creating_worktree: self.creating_worktree,
            deleting_worktree: self.deleting_worktree,
            summarizing: match self.summarizing {
                Some(s) => Some(s@),
                None => None,
            },
            spinner_frame: self.spinner_frame,
            force_push: match self.force_push {
                Some(f) => Some(f@),
                None => None,
            },
        }
    }
}

// ---------------------------------------------------------------------------
// Tabs and projects
// ---------------------------------------------------------------------------

/// How many tabs there are.
pub const TAB_COUNT: usize = 5;

/// The status that a tab shows; the first shows every status.
pub open spec fn tab_status(tab: usize) -> Option<Status> {
    if tab == 1 {
        Some(Status::Inbox)
    } else if tab == 2 {
        Some(Status::Active)
    } else if tab == 3 {
        Some(Status::Done)
    } else if tab == 4 {
        Some(Status::Canceled)
    } else {
        None
    }
}

/// The status that a tab shows.
pub fn status_of_tab(tab: usize) -> (r: Option<Status>)
    ensures
        r == tab_status(tab),
{
    match tab {
        1 => Some(Status::Inbox),
        2 => Some(Status::Active),
        3 => Some(Status::Done),
        4 => Some(Status::Canceled),
        _ => None,
    }
}

/// What a tab is called.
pub open spec fn tab_called(tab: usize) -> Seq<char> {
    match tab_status(tab) {
        Some(s) => s.name(),
        None => "all"@,
    }
}

/// A sorted list of names with one more; a name that is there stays once.
pub open spec fn with_name(names: Seq<Seq<char>>, name: Seq<char>, n: int) -> Seq<Seq<char>>
    decreases n,
{
    if n <= 0 || n > names.len() {
        seq![name] + names
    } else if names[n - 1] == name {
        names
    } else if paths::text_before(names[n - 1], name) {
        names.insert(n, name)
    } else {
        with_name(names, name, n - 1)
    }
}

/// Names in order, each once.
pub open spec fn sorted_names(names: Seq<Seq<char>>) -> Seq<Seq<char>>
    decreases names.len(),
{
    if names.len() == 0 {
        seq![]
    } else {
        let before = sorted_names(names.drop_last());
        with_name(before, names.last(), before.len() as int)
    }
}

/// The projects of rows that have one.
pub open spec fn row_projects(rows: Seq<TaskRowV>) -> Seq<Seq<char>>
    decreases rows.len(),
{
    if rows.len() == 0 {
        seq![]
    } else if rows.last().project.len() == 0 {
        row_projects(rows.drop_last())
    } else {
        row_projects(rows.drop_last()).push(rows.last().project)
    }
}

/// The projects that the picker offers.
pub open spec fn projects_of_app(a: AppV) -> Seq<Seq<char>> {
    if a.all_projects.len() > 0 {
        a.all_projects
    } else {
        sorted_names(row_projects(a.tasks))
    }
}

/// Adds a name to a sorted list.
fn add_name(names: &mut Vec<String>, name: &str)
    ensures
        text::views(final(names)@) == with_name(
            text::views(old(names)@),
            name@,
            text::views(old(names)@).len() as int,
        ),
{
    let ghost all = text::views(names@);
    let mut n: usize = names.len();
    while n > 0
        invariant
            0 <= n <= names.len(),
            all == text::views(names@),
            all == text::views(old(names)@),
            with_name(all, name@, all.len() as int) == with_name(all, name@, n as int),
        decreases n,
    {
        if text::same(&names[n - 1], name) {
            return;
        }
        if paths::sorts_before(&names[n - 1], name) {
            names.insert(n, String::from_str(name));
            assert(text::views(names@) =~= all.insert(n as int, name@));
            return;
        }
        n -= 1;
    }
    names.insert(0, String::from_str(name));
    assert(text::views(names@) =~= seq![name@] + all);
}

/// Names in order, each once.
pub fn sort_names(names: &Vec<String>) -> (r: Vec<String>)
    ensures
        text::views(r@) == sorted_names(text::views(names@)),
{
    let ghost all = text::views(names@);
    let mut out: Vec<String> = Vec::new();
    assert(text::views(out@) =~= sorted_names(all.take(0)));
    let mut i: usize = 0;
    while i < names.len()
        invariant
            0 <= i <= names.len(),
            all == text::views(names@),
            text::views(out@) == sorted_names(all.take(i as int)),
        decreases names.len() - i,
    {
        proof {
            assert(all.take(i as int + 1).drop_last() =~= all.take(i as int));
            assert(all.take(i as int + 1).last() == names@[i as int]@);
        }
        add_name(&mut out, &names[i]);
        i += 1;
    }
    proof {
        assert(all.take(i as int) =~= all);
    }
    out
}

// ---------------------------------------------------------------------------
// What is shown
// ---------------------------------------------------------------------------

/// What the filter is matched against: the project name is searchable too, so the
/// filter doubles as a project picker.
pub open spec fn candidate_of(t: TaskRowV) -> Seq<char> {
    t.project + " "@ + t.slug + " "@ + t.title
}

/// A row is in the scope.
pub open spec fn in_scope(a: AppV, t: TaskRowV) -> bool {
    &&& a.project_scope is None || a.project_scope == Some(t.project)
    &&& tab_status(a.tab) is None || tab_status(a.tab) == Some(t.status)
}

/// A row is shown.
pub open spec fn is_shown(a: AppV, t: TaskRowV) -> bool {
    &&& in_scope(a, t)
    &&& a.filter.len() == 0 || (matching::fits_matcher(a.filter, candidate_of(t))
        && matching::fuzzy_matches(a.filter, candidate_of(t)))
}

/// The places of the first `n` rows that are shown.
pub open spec fn shown_upto(a: AppV, n: int) -> Seq<int>
    decreases n,
{
    if n <= 0 || n > a.tasks.len() {
        seq![]
    } else if is_shown(a, a.tasks[n - 1]) {
        shown_upto(a, n - 1).push(n - 1)
    } else {
        shown_upto(a, n - 1)
    }
}

/// The places of the rows that are shown.
pub open spec fn visible_of(a: AppV) -> Seq<int> {
    shown_upto(a, a.tasks.len() as int)
}

/// Places as integers.
pub open spec fn ints(v: Seq<usize>) -> Seq<int> {
    Seq::new(v.len(), |i: int| v[i] as int)
}

/// The smaller of two numbers.
pub open spec fn least(a: int, b: int) -> int {
    if a < b {
        a
    } else {
        b
    }
}

/// A cursor within a list.
pub open spec fn clamped(sel: usize, len: nat) -> int {
    least(sel as int, len - 1)
}

/// The row under the cursor.
pub open spec fn selected_row(a: AppV) -> Option<TaskRowV> {
    let vis = visible_of(a);
    if vis.len() == 0 {
        None
    } else {
        Some(a.tasks[vis[clamped(a.selected, vis.len())]])
    }
}

/// The rows that are shown are rows.
pub proof fn lemma_shown(a: AppV, n: int)
    requires
        0 <= n <= a.tasks.len(),
    ensures
        forall|k: int| 0 <= k < shown_upto(a, n).len() ==> 0 <= #[trigger] shown_upto(a, n)[k] < n,
    decreases n,
{
    if n > 0 {
        lemma_shown(a, n - 1);
        let before = shown_upto(a, n - 1);
        assert forall|k: int| 0 <= k < shown_upto(a, n).len() implies 0
            <= #[trigger] shown_upto(a, n)[k] < n by {
            if k < before.len() {
                assert(shown_upto(a, n)[k] == before[k]);
            }
        }
    }
}

/// An optional row.
pub open spec fn opt_row(t: Option<&TaskRow>) -> Option<TaskRowV> {
    match t {
        Some(r) => Some(r@),
        None => None,
    }
}

impl App {
    /// The tab is one of the tabs.
    pub open spec fn wf(&self) -> bool {
        self.tab < TAB_COUNT
    }

    /// The dashboard over some tasks.
    pub fn new(tasks: Vec<TaskRow>) -> (r: App)
        ensures
            r.wf(),
            r@ == fresh_app(text::views(tasks@)),
    {
        let r = App {
            tasks,
            tab: 0,
            selected: 0,
            filter: String::new(),
            filtering: false,
            creating: false,
            moving: false,
            deleting: false,
            starting: false,
            pring: false,
            choosing_agent: false,
            issuing: false,
            issue_projects: Vec::new(),
            issue_sel: 0,
            issue_target: None,
            input: String::new(),
            message: String::new(),
            popup: None,
            popup_error: false,
            project_scope: None,
            scope_agent: None,
            all_projects: Vec::new(),
            picking_project: false,
            project_sel: 0,
            home_store_root: None,
            home_label: None,
            viewing_items: false,
            item_sel: 0,
            creating_item: false,
            editing_item: false,
            deleting_item: false,
            viewing_worktrees: false,
            worktrees: Vec::new(),
            worktree_sel: 0,
            worktree_anchor: None,
            worktree_project: String::new(),
            creating_worktree: false,
            deleting_worktree: false,
            summarizing: None,
            spinner_frame: 0,
            force_push: None,
        };
        assert(r@.filter =~= seq![] && r@.input =~= seq![] && r@.message =~= seq![]);
        assert(r@.worktree_project =~= seq![] && r@.worktrees =~= seq![]);
        assert(r@.issue_projects =~= seq![] && r@.all_projects =~= seq![]);
        r
    }

    /// What the tab is called.
    pub fn tab_name(&self) -> (r: &'static str)
        requires
            self.wf(),
        ensures
            r@ == tab_called(self.tab),
    {
        match status_of_tab(self.tab) {
            Some(s) => s.as_str(),
            None => "all",
        }
    }

    /// Canonical project list for the picker: the authoritative `all_projects`
    /// when populated (includes empty projects), else derived from the rows.
    pub fn project_list(&self) -> (r: Vec<String>)
        ensures
            text::views(r@) == projects_of_app(self@),
    {
        proof {
            assert(self@.all_projects.len() == self.all_projects@.len());
        }
        if self.all_projects.len() > 0 {
            return text::clone_list(&self.all_projects);
        }
        let ghost all = text::views(self.tasks@);
        let mut names: Vec<String> = Vec::new();
        assert(text::views(names@) =~= row_projects(all.take(0)));
        let mut i: usize = 0;
        while i < self.tasks.len()
            invariant
                0 <= i <= self.tasks.len(),
                all == text::views(self.tasks@),
                text::views(names@) == row_projects(all.take(i as int)),
            decreases self.tasks.len() - i,
        {
            proof {
                assert(all.take(i as int + 1).drop_last() =~= all.take(i as int));
                assert(all.take(i as int + 1).last() == self.tasks@[i as int]@);
            }
            if !self.tasks[i].project.as_str().is_empty() {
                crate::commands::local::push_line(&mut names, self.tasks[i].project.clone());
            }
            i += 1;
        }
        proof {
            assert(all.take(i as int) =~= all);
        }
        sort_names(&names)
    }

    /// Label of the active project scope for display (`all` when unscoped).
    pub fn scope_name(&self) -> (r: String)
        ensures
            r@ == match self@.project_scope {
                Some(p) => p,
                None => "all"@,
            },
    {
        match &self.project_scope {
            Some(p) => p.clone(),
            None => String::from_str("all"),
        }
    }

    /// Whether a row is in the scope.
    fn scoped(&self, i: usize) -> (r: bool)
        requires
            i < self.tasks.len(),
        ensures
            r == in_scope(self@, self@.tasks[i as int]),
    {
        let in_project = match &self.project_scope {
            None => true,
            Some(p) => text::same(p, &self.tasks[i].project),
        };
        let in_tab = match status_of_tab(self.tab) {
            None => true,
            Some(s) => s == self.tasks[i].status,
        };
        in_project && in_tab
    }

    /// What the filter is matched against.
    fn candidate(&self, i: usize) -> (r: String)
        requires
            i < self.tasks.len(),
        ensures
            r@ == candidate_of(self@.tasks[i as int]),
    {
        let mut c = self.tasks[i].project.clone();
        c.append(" ");
        c.append(&self.tasks[i].slug);
        c.append(" ");
        c.append(&self.tasks[i].title);
        c
    }

    /// What the rows in the scope are matched by, as far as the matcher takes it.
    fn candidates(&self) -> (r: Vec<String>)
        ensures
            forall|i: int|
                0 <= i < r@.len() ==> matching::fits_matcher(
                    self@.filter,
                    (#[trigger] r@[i])@,
                ),
            forall|k: int|
                0 <= k < self@.tasks.len() && in_scope(self@, #[trigger] self@.tasks[k])
                    && matching::fits_matcher(self@.filter, candidate_of(self@.tasks[k]))
                    ==> text::views(r@).contains(candidate_of(self@.tasks[k])),
    {
        let words = matching::filter_words(&self.filter);
        let mut out: Vec<String> = Vec::new();
        let mut i: usize = 0;
        while i < self.tasks.len()
            invariant
                0 <= i <= self.tasks.len(),
                matching::words_view(words@) == matching::words_of(self@.filter),
                forall|k: int|
                    0 <= k < out@.len() ==> matching::fits_matcher(
                        self@.filter,
                        (#[trigger] out@[k])@,
                    ),
                forall|k: int|
                    0 <= k < i && in_scope(self@, #[trigger] self@.tasks[k])
                        && matching::fits_matcher(self@.filter, candidate_of(self@.tasks[k]))
                        ==> text::views(out@).contains(candidate_of(self@.tasks[k])),
            decreases self.tasks.len() - i,
        {
            if self.scoped(i) {
                let c = self.candidate(i);
                if matching::fits(&words, &c) {
                    let ghost before = text::views(out@);
                    let ghost t = c@;
                    out.push(c);
                    proof {
                        let now = text::views(out@);
                        assert(now =~= before.push(t));
                        assert(now[before.len() as int] == t);
                        assert forall|s: Seq<char>| before.contains(s) implies #[trigger] now.contains(s) by {
                            let k = choose|k: int| 0 <= k < before.len() && before[k] == s;
                            assert(now[k] == s);
                        }
                    }
                }
            }
            i += 1;
        }
        out
    }

    /// The rows in the scope whose candidates are among those that the filter keeps.
    pub fn among(&self, kept: &Vec<String>) -> (r: Vec<usize>)
        ensures
            ints(r@) == among_upto(self@, text::views(kept@), self@.tasks.len() as int),
    {
        let mut out: Vec<usize> = Vec::new();
        assert(ints(out@) =~= seq![]);
        let mut i: usize = 0;
        while i < self.tasks.len()
            invariant
                0 <= i <= self.tasks.len(),
                ints(out@) == among_upto(self@, text::views(kept@), i as int),
            decreases self.tasks.len() - i,
        {
            let ghost before = ints(out@);
            if self.scoped(i) && crate::store::is_taken(kept, &self.candidate(i)) {
                out.push(i);
                assert(ints(out@) =~= before.push(i as int));
            }
            i += 1;
        }
        out
    }

    /// The rows in the scope.
    fn all_scoped(&self) -> (r: Vec<usize>)
        requires
            self@.filter.len() == 0,
        ensures
            ints(r@) == visible_of(self@),
    {
        let mut out: Vec<usize> = Vec::new();
        assert(ints(out@) =~= seq![]);
        let mut i: usize = 0;
        while i < self.tasks.len()
            invariant
                0 <= i <= self.tasks.len(),
                self@.filter.len() == 0,
                ints(out@) == shown_upto(self@, i as int),
            decreases self.tasks.len() - i,
        {
            let ghost before = ints(out@);
            if self.scoped(i) {
                out.push(i);
                assert(ints(out@) =~= before.push(i as int));
            }
            i += 1;
        }
        out
    }

    /// Indices into `tasks` visible under the project scope + tab + fuzzy filter.
    pub fn visible(&self) -> (r: Vec<usize>)
        requires
            self.wf(),
        ensures
            ints(r@) == visible_of(self@),
            forall|k: int| 0 <= k < r@.len() ==> (#[trigger] r@[k]) < self.tasks.len(),
    {
        let r = if self.filter.as_str().is_empty() {
            self.all_scoped()
        } else {
            let candidates = self.candidates();
            let kept = matching::fuzzy_kept(&self.filter, &candidates);
            proof {
                let cs = text::views(candidates@);
                assert forall|k: int|
                    0 <= k < self@.tasks.len() && in_scope(self@, #[trigger] self@.tasks[k]) implies (
                text::views(kept@).contains(candidate_of(self@.tasks[k])) <==> is_shown(
                    self@,
                    self@.tasks[k],
                )) by {
                    let c = candidate_of(self@.tasks[k]);
                    if cs.contains(c) {
                        let j = choose|j: int| 0 <= j < cs.len() && cs[j] == c;
                        assert(matching::fits_matcher(self@.filter, candidates@[j]@));
                    }
                }
                lemma_among(self@, text::views(kept@), self@.tasks.len() as int);
            }
            self.among(&kept)
        };
        proof {
            lemma_shown(self@, self@.tasks.len() as int);
            assert forall|k: int| 0 <= k < r@.len() implies (#[trigger] r@[k]) < self.tasks.len() by {
                assert(ints(r@)[k] == visible_of(self@)[k]);
            }
        }
        r
    }

    /// The row under the cursor.
    pub fn selected_task(&self) -> (r: Option<&TaskRow>)
        requires
            self.wf(),
        ensures
            opt_row(r) == selected_row(self@),
    {
        let vis = self.visible();
        proof {
            assert(visible_of(self@).len() == vis@.len());
        }
        if vis.len() == 0 {
            return None;
        }
        let at: usize = if self.selected < vis.len() {
            self.selected
        } else {
            vis.len() - 1
        };
        proof {
            assert(ints(vis@)[at as int] == vis@[at as int]);
        }
        Some(&self.tasks[vis[at]])
    }
}

/// The places of the first `n` rows that are in the scope and among those kept.
pub open spec fn among_upto(a: AppV, kept: Seq<Seq<char>>, n: int) -> Seq<int>
    decreases n,
{
    if n <= 0 || n > a.tasks.len() {
        seq![]
    } else if in_scope(a, a.tasks[n - 1]) && kept.contains(candidate_of(a.tasks[n - 1])) {
        among_upto(a, kept, n - 1).push(n - 1)
    } else {
        among_upto(a, kept, n - 1)
    }
}

/// What the matcher keeps is what is shown.
proof fn lemma_among(a: AppV, kept: Seq<Seq<char>>, n: int)
    requires
        0 <= n <= a.tasks.len(),
        forall|k: int|
            0 <= k < a.tasks.len() && in_scope(a, #[trigger] a.tasks[k]) ==> (kept.contains(
                candidate_of(a.tasks[k]),
            ) <==> is_shown(a, a.tasks[k])),
    ensures
        among_upto(a, kept, n) == shown_upto(a, n),
    decreases n,
{
    if n > 0 {
        lemma_among(a, kept, n - 1);
        let t = a.tasks[n - 1];
        assert(in_scope(a, t) ==> (kept.contains(candidate_of(t)) <==> is_shown(a, t)));
    }
}

/// The dashboard over some tasks, as it starts.
pub open spec fn fresh_app(tasks: Seq<TaskRowV>) -> AppV {
    AppV {
        tasks,
        tab: 0,
        selected: 0,
        filter: seq![],
        filtering: false,
        creating: false,
        moving: false,
        deleting: false,
        starting: false,
        pring: false,
        choosing_agent: false,
        issuing: false,
        issue_projects: seq![],
        issue_sel: 0,
        issue_target: None,
        input: seq![],
        message: seq![],
        popup: None,
        popup_error: false,
        project_scope: None,
        scope_agent: None,
        all_projects: seq![],
        picking_project: false,
        project_sel: 0,
        home_store_root: None,
        home_label: None,
        viewing_items: false,
        item_sel: 0,
        creating_item: false,
        editing_item: false,
        deleting_item: false,
        viewing_worktrees: false,
        worktrees: seq![],
        worktree_sel: 0,
        worktree_anchor: None,
        worktree_project: seq![],
        creating_worktree: false,
        deleting_worktree: false,
        summarizing: None,
        spinner_frame: 0,
        force_push: None,
    }
}

} // verus!
