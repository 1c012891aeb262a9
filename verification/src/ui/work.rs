//! What the actions of the dashboard stand for, and what comes of them.
use crate::commands::run::Agent;
use crate::commands::syncing::{SyncError, SyncErrorV};
use crate::gitx::{Worktree, WorktreeV};
use crate::store::Status;
use crate::sync;
use crate::text;
use crate::ui::app::{self, App, AppV, Summarizing, SummarizingV};
use crate::ui::input;
use crate::ui::keys::{ForcePush, ForcePushV, ForceSurface, StartMode, UiAction, UiActionV};
use crate::ui::row::{self, TaskRow, TaskRowV};
use vstd::prelude::*;
use vstd::string::*;

verus! {

// ---------------------------------------------------------------------------
// What an action stands for
// ---------------------------------------------------------------------------

/// What is done to a task.
#[derive(Debug)]
pub enum Verb {
    /// Claim it, in a worktree or on a branch that is named by its slug.
    Start { worktree: bool, branch: bool },
    Move(Status),
    Done,
    /// Remove it; a dirty worktree blocks that.
    Delete,
    /// Create an issue, onto a board that is picked where the owner has boards.
    OfferIssue,
    /// Create an issue, onto a board.
    Issue(Option<String>),
    /// Push to its issue; `true` overwrites the remote body.
    PushIssue(bool),
    /// Push to its pull request; `true` overwrites the remote body.
    PushPr(bool),
    /// Open a pull request, from a worktree or from a branch.
    OpenPr(bool),
    Run,
    Attach,
    ShowLog,
    ChooseAgent(Agent),
    Summarize,
    ToggleItem(String),
    AddItem(String),
    EditItem(String, String),
    DeleteItem(String),
    ListWorktrees,
    AddWorktree(String),
    RemoveWorktree(String),
    LockWorktree(String, bool),
}

/// What a [`Verb`] stands for.
pub enum VerbV {
    Start { worktree: bool, branch: bool },
    Move(Status),
    Done,
    Delete,
    OfferIssue,
    Issue(Option<Seq<char>>),
    PushIssue(bool),
    PushPr(bool),
    OpenPr(bool),
    Run,
    Attach,
    ShowLog,
    ChooseAgent(Agent),
    Summarize,
    ToggleItem(Seq<char>),
    AddItem(Seq<char>),
    EditItem(Seq<char>, Seq<char>),
    DeleteItem(Seq<char>),
    ListWorktrees,
    AddWorktree(Seq<char>),
    RemoveWorktree(Seq<char>),
    LockWorktree(Seq<char>, bool),
}

impl View for Verb {
    type V = VerbV;

    open spec fn view(&self) -> VerbV {
        match self {
            Verb::Start { worktree, branch } => VerbV::Start {
                worktree: *worktree,
                branch: *branch,
            },
            Verb::Move(s) => VerbV::Move(*s),
            Verb::Done => VerbV::Done,
            Verb::Delete => VerbV::Delete,
            Verb::OfferIssue => VerbV::OfferIssue,
            Verb::Issue(p) => VerbV::Issue(text::opt_view(*p)),
            Verb::PushIssue(f) => VerbV::PushIssue(*f),
            Verb::PushPr(f) => VerbV::PushPr(*f),
            Verb::OpenPr(w) => VerbV::OpenPr(*w),
            Verb::Run => VerbV::Run,
            Verb::Attach => VerbV::Attach,
            Verb::ShowLog => VerbV::ShowLog,
            Verb::ChooseAgent(a) => VerbV::ChooseAgent(*a),
            Verb::Summarize => VerbV::Summarize,
            Verb::ToggleItem(i) => VerbV::ToggleItem(i@),
            Verb::AddItem(t) => VerbV::AddItem(t@),
            Verb::EditItem(i, t) => VerbV::EditItem(i@, t@),
            Verb::DeleteItem(i) => VerbV::DeleteItem(i@),
            Verb::ListWorktrees => VerbV::ListWorktrees,
            Verb::AddWorktree(b) => VerbV::AddWorktree(b@),
            Verb::RemoveWorktree(p) => VerbV::RemoveWorktree(p@),
            Verb::LockWorktree(p, l) => VerbV::LockWorktree(p@, *l),
        }
    }
}

/// What is to be done.
#[derive(Debug)]
pub enum Job {
    Nothing,
    Quit,
    /// Edit a document.
    Edit(String),
    /// Create a task, in the store that the dashboard creates in.
    Create(String),
    /// Copy a path to the clipboard.
    Copy(String),
    /// Do something to the task with an id, read fresh from disk.
    Do(String, Verb),
}

/// What a [`Job`] stands for.
pub enum JobV {
    Nothing,
    Quit,
    Edit(Seq<char>),
    Create(Seq<char>),
    Copy(Seq<char>),
    Do(Seq<char>, VerbV),
}

impl View for Job {
    type V = JobV;

    open spec fn view(&self) -> JobV {
        match self {
            Job::Nothing => JobV::Nothing,
            Job::Quit => JobV::Quit,
            Job::Edit(p) => JobV::Edit(p@),
            Job::Create(t) => JobV::Create(t@),
            Job::Copy(p) => JobV::Copy(p@),
            Job::Do(id, v) => JobV::Do(id@, v@),
        }
    }
}

/// How a task is claimed.
pub open spec fn start_verb(mode: StartMode) -> VerbV {
    match mode {
        StartMode::Single => VerbV::Start { worktree: false, branch: false },
        StartMode::Worktree => VerbV::Start { worktree: true, branch: false },
        StartMode::Branch => VerbV::Start { worktree: false, branch: true },
    }
}

/// What an action stands for.
pub open spec fn job_of(action: UiActionV) -> JobV {
    match action {
        UiActionV::Nothing => JobV::Nothing,
        UiActionV::Quit => JobV::Quit,
        UiActionV::Edit(p) => JobV::Edit(p),
        UiActionV::New(t) => JobV::Create(t),
        UiActionV::Start(id, mode) => JobV::Do(id, start_verb(mode)),
        UiActionV::Move(id, to) => JobV::Do(id, VerbV::Move(to)),
        UiActionV::Done(id) => JobV::Do(id, VerbV::Done),
        UiActionV::Delete(id) => JobV::Do(id, VerbV::Delete),
        UiActionV::Issue(id) => JobV::Do(id, VerbV::OfferIssue),
        UiActionV::IssueWithProject(id, p) => JobV::Do(id, VerbV::Issue(p)),
        UiActionV::PushIssue(id) => JobV::Do(id, VerbV::PushIssue(false)),
        UiActionV::PushPr(id) => JobV::Do(id, VerbV::PushPr(false)),
        UiActionV::ForcePush(id, ForceSurface::Issue) => JobV::Do(id, VerbV::PushIssue(true)),
        UiActionV::ForcePush(id, ForceSurface::Pr) => JobV::Do(id, VerbV::PushPr(true)),
        UiActionV::CreatePr(id, w) => JobV::Do(id, VerbV::OpenPr(w)),
        UiActionV::CopyDir(p) => JobV::Copy(p),
        UiActionV::Run(id) => JobV::Do(id, VerbV::Run),
        UiActionV::AttachRun(id) => JobV::Do(id, VerbV::Attach),
        UiActionV::ShowLog(id) => JobV::Do(id, VerbV::ShowLog),
        UiActionV::SetAgent(id, agent) => JobV::Do(id, VerbV::ChooseAgent(agent)),
        UiActionV::Summary(id) => JobV::Do(id, VerbV::Summarize),
        UiActionV::ToggleItem(id, i) => JobV::Do(id, VerbV::ToggleItem(i)),
        UiActionV::AddItem(id, t) => JobV::Do(id, VerbV::AddItem(t)),
        UiActionV::EditItem(id, i, t) => JobV::Do(id, VerbV::EditItem(i, t)),
        UiActionV::DeleteItem(id, i) => JobV::Do(id, VerbV::DeleteItem(i)),
        UiActionV::Worktrees(id) => JobV::Do(id, VerbV::ListWorktrees),
        UiActionV::AddWorktree(id, b) => JobV::Do(id, VerbV::AddWorktree(b)),
        UiActionV::DeleteWorktree(id, p) => JobV::Do(id, VerbV::RemoveWorktree(p)),
        UiActionV::LockWorktree(id, p, l) => JobV::Do(id, VerbV::LockWorktree(p, l)),
    }
}

/// What an action stands for.
pub fn dispatch(action: UiAction) -> (r: Job)
    ensures
        r@ == job_of(action@),
{
    match action {
        UiAction::Nothing => Job::Nothing,
        UiAction::Quit => Job::Quit,
        UiAction::Edit(p) => Job::Edit(p),
        UiAction::New(t) => Job::Create(t),
        UiAction::Start(id, mode) => Job::Do(
            id,
            match mode {
                StartMode::Single => Verb::Start { worktree: false, branch: false },
                StartMode::Worktree => Verb::Start { worktree: true, branch: false },
                StartMode::Branch => Verb::Start { worktree: false, branch: true },
            },
        ),
        UiAction::Move(id, to) => Job::Do(id, Verb::Move(to)),
        UiAction::Done(id) => Job::Do(id, Verb::Done),
        UiAction::Delete(id) => Job::Do(id, Verb::Delete),
        UiAction::Issue(id) => Job::Do(id, Verb::OfferIssue),
        UiAction::IssueWithProject(id, p) => Job::Do(id, Verb::Issue(p)),
        UiAction::PushIssue(id) => Job::Do(id, Verb::PushIssue(false)),
        UiAction::PushPr(id) => Job::Do(id, Verb::PushPr(false)),
        // the user confirmed `f` after a conflict: re-push with force, the
        // single-surface `rein push --resolved` (overwrites the remote)
        UiAction::ForcePush(id, ForceSurface::Issue) => Job::Do(id, Verb::PushIssue(true)),
        UiAction::ForcePush(id, ForceSurface::Pr) => Job::Do(id, Verb::PushPr(true)),
        UiAction::CreatePr(id, w) => Job::Do(id, Verb::OpenPr(w)),
        UiAction::CopyDir(p) => Job::Copy(p),
        UiAction::Run(id) => Job::Do(id, Verb::Run),
        UiAction::AttachRun(id) => Job::Do(id, Verb::Attach),
        UiAction::ShowLog(id) => Job::Do(id, Verb::ShowLog),
        UiAction::SetAgent(id, agent) => Job::Do(id, Verb::ChooseAgent(agent)),
        UiAction::Summary(id) => Job::Do(id, Verb::Summarize),
        UiAction::ToggleItem(id, i) => Job::Do(id, Verb::ToggleItem(i)),
        UiAction::AddItem(id, t) => Job::Do(id, Verb::AddItem(t)),
        UiAction::EditItem(id, i, t) => Job::Do(id, Verb::EditItem(i, t)),
        UiAction::DeleteItem(id, i) => Job::Do(id, Verb::DeleteItem(i)),
        UiAction::Worktrees(id) => Job::Do(id, Verb::ListWorktrees),
        UiAction::AddWorktree(id, b) => Job::Do(id, Verb::AddWorktree(b)),
        UiAction::DeleteWorktree(id, p) => Job::Do(id, Verb::RemoveWorktree(p)),
        UiAction::LockWorktree(id, p, l) => Job::Do(id, Verb::LockWorktree(p, l)),
    }
}

/// The message where a task is no longer there.
pub open spec fn vanished_text(id: Seq<char>) -> Seq<char> {
    "task '"@ + id + "' vanished"@
}

/// The message where a task is no longer there.
pub fn vanished(id: &str) -> (r: String)
    ensures
        r@ == vanished_text(id@),
{
    let mut m = String::from_str("task '");
    m.append(id);
    m.append("' vanished");
    m
}

// ---------------------------------------------------------------------------
// What comes of it
// ---------------------------------------------------------------------------

/// A text result.
pub open spec fn done_view(r: Result<(), String>) -> Result<(), Seq<char>> {
    match r {
        Ok(_) => Ok(()),
        Err(e) => Err(e@),
    }
}

/// A text result.
pub open spec fn said_view(r: Result<String, String>) -> Result<Seq<char>, Seq<char>> {
    match r {
        Ok(s) => Ok(s@),
        Err(e) => Err(e@),
    }
}

/// What comes of a push.
pub open spec fn push_view(r: Result<(), SyncError>) -> Result<(), SyncErrorV> {
    match r {
        Ok(_) => Ok(()),
        Err(e) => Err(e@),
    }
}

/// The dashboard with an error over it.
pub open spec fn failing(a: AppV, e: Seq<char>) -> AppV {
    AppV { popup: Some(e), popup_error: true, ..a }
}

/// The dashboard with a text over it.
pub open spec fn informing(a: AppV, m: Seq<char>) -> AppV {
    AppV { popup: Some(m), popup_error: false, ..a }
}

/// The dashboard over other rows.
pub open spec fn reloaded(a: AppV, rows: Seq<TaskRowV>) -> AppV {
    AppV { tasks: rows, ..a }
}

/// The dashboard with a message in its status line.
pub open spec fn telling(a: AppV, m: Seq<char>) -> AppV {
    AppV { message: m, ..a }
}

/// The dashboard after a command: "ok", or the error over it.
pub open spec fn finished(a: AppV, r: Result<(), Seq<char>>, rows: Seq<TaskRowV>) -> AppV {
    reloaded(
        match r {
            Ok(_) => telling(a, "ok"@),
            Err(e) => failing(a, e),
        },
        rows,
    )
}

/// The dashboard after a push: a conflict offers to overwrite the remote body, and
/// everything else ends as any command does.
pub open spec fn push_finished(
    a: AppV,
    r: Result<(), SyncErrorV>,
    id: Seq<char>,
    surface: ForceSurface,
    rows: Seq<TaskRowV>,
) -> AppV {
    match r {
        Ok(_) => finished(a, Ok(()), rows),
        Err(SyncErrorV::Conflict(c)) => AppV {
            force_push: Some(ForcePushV { task_id: id, surface, slug: c.slug }),
            ..a
        },
        Err(SyncErrorV::Refused(e)) => finished(a, Err(e), rows),
    }
}

/// The dashboard after a command that has something to show: over it, as a text or as
/// an error.
pub open spec fn shown(a: AppV, r: Result<Seq<char>, Seq<char>>, rows: Seq<TaskRowV>) -> AppV {
    reloaded(
        match r {
            Ok(m) => informing(a, m),
            Err(e) => failing(a, e),
        },
        rows,
    )
}

/// The dashboard after a change of items, whose own list shows what came of it.
pub open spec fn items_changed(a: AppV, r: Result<(), Seq<char>>, rows: Seq<TaskRowV>) -> AppV {
    reloaded(
        match r {
            Ok(_) => a,
            Err(e) => failing(a, e),
        },
        rows,
    )
}

/// The dashboard with the cursor on the last item of the selected task.
pub open spec fn on_last_item(a: AppV) -> AppV {
    let n = input::selected_items(a).len();
    if n > 0 {
        AppV { item_sel: (n - 1) as usize, ..a }
    } else {
        a
    }
}

/// The dashboard with the item cursor within the items of the selected task.
pub open spec fn within_items(a: AppV) -> AppV {
    let n = input::selected_items(a).len();
    if n == 0 {
        AppV { item_sel: 0, ..a }
    } else {
        AppV { item_sel: app::clamped(a.item_sel, n) as usize, ..a }
    }
}

impl App {
    /// Shows an error over the dashboard.
    pub fn show_error(&mut self, e: String)
        ensures
            final(self)@ == failing(old(self)@, e@),
    {
        self.popup = Some(e);
        self.popup_error = true;
    }

    /// Shows a text over the dashboard.
    pub fn show_text(&mut self, m: String)
        ensures
            final(self)@ == informing(old(self)@, m@),
    {
        self.popup = Some(m);
        self.popup_error = false;
    }

    /// Shows other rows.
    pub fn reload(&mut self, rows: Vec<TaskRow>)
        ensures
            final(self)@ == reloaded(old(self)@, text::views(rows@)),
    {
        self.tasks = rows;
    }

    /// Offers to overwrite a remote body.
    fn offer_force(&mut self, fp: ForcePush)
        ensures
            final(self)@ == (AppV { force_push: Some(fp@), ..old(self)@ }),
    {
        self.force_push = Some(fp);
    }

    /// Ends a command: a message where it went well, a modal error where it did not —
    /// not a clipped status line, so the cause (e.g. git's stderr) shows.
    pub fn finish(&mut self, result: Result<(), String>, rows: Vec<TaskRow>)
        ensures
            final(self)@ == finished(old(self)@, done_view(result), text::views(rows@)),
    {
        match result {
            Ok(_) => self.tell(String::from_str("ok")),
            Err(e) => self.show_error(e),
        }
        self.reload(rows);
    }

    /// Like `finish`, but a sync conflict arms the force-push offer (a prompt the
    /// user answers with `f`) instead of a dead-end error popup — the dashboard
    /// counterpart of the CLI's `rein push --resolved`. Success and every other
    /// error behave exactly like `finish`.
    pub fn finish_push(
        &mut self,
        result: Result<(), SyncError>,
        id: &str,
        surface: ForceSurface,
        rows: Vec<TaskRow>,
    )
        ensures
            final(self)@ == push_finished(
                old(self)@,
                push_view(result),
                id@,
                surface,
                text::views(rows@),
            ),
    {
        match result {
            Ok(_) => self.finish(Ok(()), rows),
            Err(SyncError::Conflict(c)) => self.offer_force(
                ForcePush { task_id: String::from_str(id), surface, slug: c.slug },
            ),
            Err(SyncError::Refused(e)) => self.finish(Err(e), rows),
        }
    }

    /// Ends a run: its session id / local log hints go into a popup, not to stdout
    /// (raw mode would garble the dashboard).
    pub fn show_run(&mut self, result: Result<String, String>, rows: Vec<TaskRow>)
        ensures
            final(self)@ == shown(old(self)@, said_view(result), text::views(rows@)),
    {
        match result {
            Ok(m) => self.show_text(m),
            Err(e) => self.show_error(e),
        }
        self.reload(rows);
    }

    /// Ends a change of an item: the item list redraws with the new state (its own
    /// feedback, so no transient status line).
    pub fn finish_item(&mut self, result: Result<(), String>, rows: Vec<TaskRow>)
        ensures
            final(self)@ == items_changed(old(self)@, done_view(result), text::views(rows@)),
    {
        match result {
            Ok(_) => {},
            Err(e) => self.show_error(e),
        }
        self.reload(rows);
    }

    /// Moves the item cursor.
    fn put_item_cursor(&mut self, n: usize)
        ensures
            final(self)@ == (AppV { item_sel: n, ..old(self)@ }),
    {
        self.item_sel = n;
    }

    /// How many items the selected task has.
    fn item_count(&self) -> (r: usize)
        requires
            self.wf(),
        ensures
            r == input::selected_items(self@).len(),
    {
        let its = self.items_of_selected();
        proof {
            assert(input::selected_items(self@).len() == its@.len());
        }
        its.len()
    }

    /// Lands the cursor on the freshly added item (now the last one).
    pub fn item_added(&mut self)
        requires
            old(self).wf(),
        ensures
            final(self)@ == on_last_item(old(self)@),
    {
        let n = self.item_count();
        if n > 0 {
            self.put_item_cursor(n - 1);
        }
    }

    /// Clamps the cursor to the new list: the deleted item is gone.
    pub fn item_deleted(&mut self)
        requires
            old(self).wf(),
        ensures
            final(self)@ == within_items(old(self)@),
    {
        let n = self.item_count();
        let at: usize = if n == 0 {
            0
        } else if self.item_sel < n {
            self.item_sel
        } else {
            n - 1
        };
        self.put_item_cursor(at);
    }
}

// ---------------------------------------------------------------------------
// Creating, editing, copying
// ---------------------------------------------------------------------------

/// The store that the dashboard creates in: that of the selected task, else that of
/// the repository it was launched from.
pub open spec fn create_root(a: AppV) -> Option<Seq<char>> {
    match app::selected_row(a) {
        Some(t) => Some(t.store_root),
        None => a.home_store_root,
    }
}

/// The place among the rows that are shown of the first one, at or behind `i`, with a
/// document path.
pub open spec fn shown_at(a: AppV, path: Seq<char>, i: int) -> Option<int>
    decreases app::visible_of(a).len() - i,
{
    let vis = app::visible_of(a);
    if i < 0 || i >= vis.len() {
        None
    } else if a.tasks[vis[i]].path == path {
        Some(i)
    } else {
        shown_at(a, path, i + 1)
    }
}

/// The dashboard with the cursor on the row with a document path, if it is shown.
pub open spec fn on_path(a: AppV, path: Seq<char>) -> AppV {
    match shown_at(a, path, 0) {
        Some(i) => AppV { selected: i as usize, ..a },
        None => a,
    }
}

/// The message where an edit failed.
pub open spec fn edit_failed(e: Seq<char>) -> Seq<char> {
    "edit failed: "@ + e
}

/// The dashboard after an edit that may have failed.
pub open spec fn edit_told(a: AppV, e: Option<Seq<char>>) -> AppV {
    match e {
        Some(e) => telling(a, edit_failed(e)),
        None => a,
    }
}

/// The dashboard after a task was created and edited: on the first tab and without a
/// filter, so that it shows, and with the cursor on it.
pub open spec fn created_app(
    a: AppV,
    path: Seq<char>,
    e: Option<Seq<char>>,
    rows: Seq<TaskRowV>,
) -> AppV {
    on_path(AppV { tab: 0, filter: seq![], tasks: rows, ..edit_told(a, e) }, path)
}

/// The dashboard after a copy to the clipboard.
pub open spec fn copy_told(a: AppV, path: Seq<char>, r: Result<(), Seq<char>>) -> AppV {
    match r {
        Ok(_) => telling(a, "copied "@ + path),
        Err(e) => failing(a, "clipboard copy failed: "@ + e),
    }
}

impl App {
    /// The store that the dashboard creates in: that of the selected task, else that
    /// of the launch repo.
    pub fn root_to_create_in(&self) -> (r: Option<String>)
        requires
            self.wf(),
        ensures
            text::opt_view(r) == create_root(self@),
    {
        match self.selected_task() {
            Some(t) => Some(t.store_root.clone()),
            None => text::clone_opt(&self.home_store_root),
        }
    }

    /// Tells that there is nowhere to create a task.
    pub fn nowhere_to_create(&mut self)
        ensures
            final(self)@ == telling(
                old(self)@,
                "no project to create in — run `rein init` in a repo first"@,
            ),
    {
        self.tell(String::from_str("no project to create in — run `rein init` in a repo first"));
    }

    /// Tells that an edit failed, where it did.
    fn tell_edit(&mut self, failed: Option<String>)
        ensures
            final(self)@ == edit_told(old(self)@, text::opt_view(failed)),
    {
        match failed {
            Some(e) => {
                let mut m = String::from_str("edit failed: ");
                m.append(&e);
                self.tell(m);
            },
            None => {},
        }
    }

    /// Ends an edit.
    pub fn edited(&mut self, failed: Option<String>, rows: Vec<TaskRow>)
        ensures
            final(self)@ == reloaded(
                edit_told(old(self)@, text::opt_view(failed)),
                text::views(rows@),
            ),
    {
        self.tell_edit(failed);
        self.reload(rows);
    }

    /// Shows everything of some rows.
    fn show_all(&mut self, rows: Vec<TaskRow>)
        ensures
            final(self).wf(),
            final(self)@ == (AppV {
                tab: 0,
                filter: seq![],
                tasks: text::views(rows@),
                ..old(self)@
            }),
    {
        self.tab = 0;
        self.filter = String::new();
        self.tasks = rows;
    }

    /// Where the row with a document path is shown.
    fn place_of(&self, path: &str) -> (r: Option<usize>)
        requires
            self.wf(),
        ensures
            match r {
                Some(i) => shown_at(self@, path@, 0) == Some(i as int),
                None => shown_at(self@, path@, 0) is None,
            },
    {
        let vis = self.visible();
        let mut i: usize = 0;
        proof {
            assert(app::visible_of(self@).len() == vis@.len());
        }
        while i < vis.len()
            invariant
                i <= vis.len(),
                app::ints(vis@) == app::visible_of(self@),
                app::visible_of(self@).len() == vis@.len(),
                forall|k: int| 0 <= k < vis@.len() ==> (#[trigger] vis@[k]) < self.tasks.len(),
                shown_at(self@, path@, 0) == shown_at(self@, path@, i as int),
            decreases vis.len() - i,
        {
            proof {
                assert(app::ints(vis@)[i as int] == vis@[i as int]);
            }
            if text::same(&self.tasks[vis[i]].path, path) {
                return Some(i);
            }
            i += 1;
        }
        None
    }

    /// Move the selection onto the row whose doc lives at `path`, if visible.
    pub fn select_path(&mut self, path: &str)
        requires
            old(self).wf(),
        ensures
            final(self)@ == on_path(old(self)@, path@),
    {
        match self.place_of(path) {
            Some(i) => self.select(i),
            None => {},
        }
    }

    /// Ends the creation of a task: its document was written and edited.
    pub fn created(&mut self, path: &str, failed: Option<String>, rows: Vec<TaskRow>)
        ensures
            final(self)@ == created_app(
                old(self)@,
                path@,
                text::opt_view(failed),
                text::views(rows@),
            ),
    {
        self.tell_edit(failed);
        self.show_all(rows);
        self.select_path(path);
    }

    /// Ends a copy to the clipboard.
    pub fn copied(&mut self, path: &str, result: Result<(), String>)
        ensures
            final(self)@ == copy_told(old(self)@, path@, done_view(result)),
    {
        match result {
            Ok(_) => {
                let mut m = String::from_str("copied ");
                m.append(path);
                self.tell(m);
            },
            Err(e) => {
                let mut m = String::from_str("clipboard copy failed: ");
                m.append(&e);
                self.show_error(m);
            },
        }
    }
}

// ---------------------------------------------------------------------------
// Issues and worktrees
// ---------------------------------------------------------------------------

/// The dashboard with the issue→project picker open.
pub open spec fn issue_offered(a: AppV, id: Seq<char>, boards: Seq<Seq<char>>) -> AppV {
    AppV { issue_projects: boards, issue_target: Some(id), issue_sel: 0, issuing: true, ..a }
}

/// The dashboard with the worktree view open.
pub open spec fn worktrees_opened(
    a: AppV,
    id: Seq<char>,
    project: Seq<char>,
    ws: Seq<WorktreeV>,
) -> AppV {
    AppV {
        worktrees: ws,
        worktree_sel: 0,
        worktree_anchor: Some(id),
        worktree_project: project,
        viewing_worktrees: true,
        ..a
    }
}

/// A cursor within a list; at its start where it is empty.
pub open spec fn within(sel: usize, len: nat) -> usize {
    if len == 0 {
        0
    } else {
        app::clamped(sel, len) as usize
    }
}

/// The dashboard over other worktrees, with the cursor among them.
pub open spec fn worktrees_reloaded(a: AppV, ws: Seq<WorktreeV>) -> AppV {
    AppV { worktrees: ws, worktree_sel: within(a.worktree_sel, ws.len()), ..a }
}

/// The first worktree at or behind `i` that is on a branch.
pub open spec fn on_branch(ws: Seq<WorktreeV>, branch: Seq<char>, i: int) -> Option<int>
    decreases ws.len() - i,
{
    if i < 0 || i >= ws.len() {
        None
    } else if ws[i].branch == Some(branch) {
        Some(i)
    } else {
        on_branch(ws, branch, i + 1)
    }
}

/// The dashboard with the cursor on the worktree of a branch, if there is one.
pub open spec fn on_worktree_of(a: AppV, branch: Seq<char>) -> AppV {
    match on_branch(a.worktrees, branch, 0) {
        Some(i) => AppV { worktree_sel: i as usize, ..a },
        None => a,
    }
}

impl App {
    /// Offers the project boards that an issue may be filed onto. Where there are none,
    /// nothing is offered, and the issue is created straight away.
    pub fn offer_boards(&mut self, id: String, boards: Vec<String>) -> (r: bool)
        ensures
            r == (boards@.len() > 0),
            final(self)@ == if boards@.len() > 0 {
                issue_offered(old(self)@, id@, text::views(boards@))
            } else {
                old(self)@
            },
    {
        if boards.len() == 0 {
            return false;
        }
        self.open_boards(id, boards);
        true
    }

    /// Opens the issue→project picker.
    fn open_boards(&mut self, id: String, boards: Vec<String>)
        ensures
            final(self)@ == issue_offered(old(self)@, id@, text::views(boards@)),
    {
        self.issue_projects = boards;
        self.issue_target = Some(id);
        self.issue_sel = 0;
        self.issuing = true;
    }

    /// Opens the worktree view.
    fn show_worktrees(&mut self, id: String, project: String, ws: Vec<Worktree>)
        ensures
            final(self)@ == worktrees_opened(old(self)@, id@, project@, text::views(ws@)),
    {
        self.worktrees = ws;
        self.worktree_sel = 0;
        self.worktree_anchor = Some(id);
        self.worktree_project = project;
        self.viewing_worktrees = true;
    }

    /// Opens the worktree view of a project, or shows why it cannot be listed.
    pub fn open_worktrees(
        &mut self,
        id: String,
        project: String,
        listed: Result<Vec<Worktree>, String>,
    )
        ensures
            final(self)@ == match listed {
                Ok(ws) => worktrees_opened(old(self)@, id@, project@, text::views(ws@)),
                Err(e) => failing(old(self)@, e@),
            },
    {
        match listed {
            Ok(ws) => self.show_worktrees(id, project, ws),
            Err(e) => self.show_error(e),
        }
    }

    /// Refreshes `worktrees` after a change of them, clamping the cursor.
    pub fn reload_worktrees(&mut self, ws: Vec<Worktree>)
        ensures
            final(self)@ == worktrees_reloaded(old(self)@, text::views(ws@)),
    {
        let n = ws.len();
        proof {
            assert(text::views(ws@).len() == n);
        }
        self.worktree_sel =
        if n == 0 {
            0
        } else if self.worktree_sel < n {
            self.worktree_sel
        } else {
            n - 1
        };
        self.worktrees = ws;
    }

    /// The worktree of a branch.
    fn worktree_on(&self, branch: &str) -> (r: Option<usize>)
        ensures
            match r {
                Some(i) => on_branch(self@.worktrees, branch@, 0) == Some(i as int),
                None => on_branch(self@.worktrees, branch@, 0) is None,
            },
    {
        let ghost all = self@.worktrees;
        let mut i: usize = 0;
        proof {
            assert(all.len() == self.worktrees@.len());
        }
        while i < self.worktrees.len()
            invariant
                i <= self.worktrees.len(),
                all == text::views(self.worktrees@),
                on_branch(all, branch@, 0) == on_branch(all, branch@, i as int),
            decreases self.worktrees.len() - i,
        {
            let hit = match &self.worktrees[i].branch {
                Some(b) => text::same(b, branch),
                None => false,
            };
            if hit {
                return Some(i);
            }
            i += 1;
        }
        None
    }

    /// Lands the cursor on the worktree that was just added, if it's there.
    pub fn worktree_added(&mut self, branch: &str)
        ensures
            final(self)@ == on_worktree_of(old(self)@, branch@),
    {
        match self.worktree_on(branch) {
            Some(i) => self.select_worktree(i),
            None => {},
        }
    }
}

// ---------------------------------------------------------------------------
// Summaries
// ---------------------------------------------------------------------------

/// The dashboard while a summary runs.
pub open spec fn summary_running(a: AppV, slug: Seq<char>) -> AppV {
    AppV { spinner_frame: 0, summarizing: Some(SummarizingV { slug, seconds: 0 }), ..a }
}

/// The dashboard some seconds into a summary.
pub open spec fn at_seconds(a: AppV, seconds: u64) -> AppV {
    match a.summarizing {
        Some(s) => AppV { summarizing: Some(SummarizingV { slug: s.slug, seconds }), ..a },
        None => a,
    }
}

/// The dashboard after a summary.
pub open spec fn summary_ended(a: AppV) -> AppV {
    AppV { summarizing: None, ..a }
}

impl App {
    /// Begins a summary: the LLM call can take many seconds, so it runs on a worker
    /// thread and the dashboard keeps animating a spinner.
    pub fn summary_started(&mut self, slug: String)
        ensures
            final(self)@ == summary_running(old(self)@, slug@),
    {
        self.spinner_frame = 0;
        self.summarizing = Some(Summarizing { slug, seconds: 0 });
    }

    /// Shows a running summary.
    fn put_summary(&mut self, slug: String, seconds: u64)
        ensures
            final(self)@ == (AppV {
                summarizing: Some(SummarizingV { slug: slug@, seconds }),
                ..old(self)@
            }),
    {
        self.summarizing = Some(Summarizing { slug, seconds });
    }

    /// The slug of the task whose summary runs.
    fn slug_of_summary(&self) -> (r: Option<String>)
        ensures
            text::opt_view(r) == match self@.summarizing {
                Some(s) => Some(s.slug),
                None => None,
            },
    {
        match &self.summarizing {
            Some(s) => Some(s.slug.clone()),
            None => None,
        }
    }

    /// Notes how long the summary has been running.
    pub fn summary_seconds(&mut self, seconds: u64)
        ensures
            final(self)@ == at_seconds(old(self)@, seconds),
    {
        match self.slug_of_summary() {
            Some(slug) => self.put_summary(slug, seconds),
            None => {},
        }
    }

    /// Drops the spinner.
    fn stop_summary(&mut self)
        ensures
            final(self)@ == summary_ended(old(self)@),
    {
        self.summarizing = None;
    }

    /// Ends a summary: its result replaces the spinner, and the freshly written
    /// title/Goal show in list and preview.
    pub fn summary_done(&mut self, result: Result<String, String>, rows: Vec<TaskRow>)
        ensures
            final(self)@ == shown(
                summary_ended(old(self)@),
                said_view(result),
                text::views(rows@),
            ),
    {
        self.stop_summary();
        self.show_run(result, rows);
    }

    /// Ends a summary whose worker vanished without a result.
    pub fn summary_lost(&mut self)
        ensures
            final(self)@ == failing(summary_ended(old(self)@), "summary ended unexpectedly"@),
    {
        self.stop_summary();
        self.show_error(String::from_str("summary ended unexpectedly"));
    }
}

// ---------------------------------------------------------------------------
// Which of these ends what
// ---------------------------------------------------------------------------

/// What came of a verb: something to show, or why it came to nothing.
pub open spec fn end_view(r: Result<String, SyncError>) -> Result<Seq<char>, SyncErrorV> {
    match r {
        Ok(m) => Ok(m@),
        Err(e) => Err(e@),
    }
}

/// What the user is told of an error.
pub open spec fn error_text(e: SyncErrorV) -> Seq<char> {
    match e {
        SyncErrorV::Refused(m) => m,
        SyncErrorV::Conflict(c) => sync::conflict_text(c),
    }
}

/// A result without what there is to show.
pub open spec fn without_text(r: Result<Seq<char>, SyncErrorV>) -> Result<(), Seq<char>> {
    match r {
        Ok(_) => Ok(()),
        Err(e) => Err(error_text(e)),
    }
}

/// A result whose error is a text.
pub open spec fn with_text(r: Result<Seq<char>, SyncErrorV>) -> Result<Seq<char>, Seq<char>> {
    match r {
        Ok(m) => Ok(m),
        Err(e) => Err(error_text(e)),
    }
}

/// The result of a push.
pub open spec fn of_push(r: Result<Seq<char>, SyncErrorV>) -> Result<(), SyncErrorV> {
    match r {
        Ok(_) => Ok(()),
        Err(e) => Err(e),
    }
}

/// The dashboard with the error over it, where there is one.
pub open spec fn failing_if(a: AppV, r: Result<(), Seq<char>>) -> AppV {
    match r {
        Ok(_) => a,
        Err(e) => failing(a, e),
    }
}

/// The dashboard after a verb: a run or a log is shown; a push may offer to overwrite
/// the remote body; a change of items moves the cursor among them; a change of
/// worktrees and what opens a view only fail over the dashboard; anything else ends
/// with "ok" or its error.
pub open spec fn settled(
    a: AppV,
    verb: VerbV,
    id: Seq<char>,
    r: Result<Seq<char>, SyncErrorV>,
    rows: Seq<TaskRowV>,
) -> AppV {
    match verb {
        VerbV::Run | VerbV::ShowLog => shown(a, with_text(r), rows),
        VerbV::PushIssue(false) => push_finished(a, of_push(r), id, ForceSurface::Issue, rows),
        VerbV::PushPr(false) => push_finished(a, of_push(r), id, ForceSurface::Pr, rows),
        VerbV::ToggleItem(_) | VerbV::EditItem(_, _) => items_changed(a, without_text(r), rows),
        VerbV::AddItem(_) => on_last_item(items_changed(a, without_text(r), rows)),
        VerbV::DeleteItem(_) => within_items(items_changed(a, without_text(r), rows)),
        VerbV::Summarize | VerbV::ListWorktrees | VerbV::AddWorktree(_) | VerbV::RemoveWorktree(
            _,
        ) | VerbV::LockWorktree(_, _) => failing_if(a, without_text(r)),
        _ => finished(a, without_text(r), rows),
    }
}

/// The dashboard after a verb whose task is no longer there.
pub open spec fn gone_app(a: AppV, verb: VerbV, id: Seq<char>, rows: Seq<TaskRowV>) -> AppV {
    if verb is ListWorktrees {
        telling(a, vanished_text(id))
    } else {
        settled(a, verb, id, Err(SyncErrorV::Refused(vanished_text(id))), rows)
    }
}

/// A result whose error is a text.
fn texts(r: Result<String, SyncError>) -> (t: Result<String, String>)
    ensures
        said_view(t) == with_text(end_view(r)),
{
    match r {
        Ok(m) => Ok(m),
        Err(e) => Err(e.message()),
    }
}

/// A result without what there is to show.
fn bare(r: Result<String, SyncError>) -> (t: Result<(), String>)
    ensures
        done_view(t) == without_text(end_view(r)),
{
    match r {
        Ok(_) => Ok(()),
        Err(e) => Err(e.message()),
    }
}

/// The result of a push.
fn pushed(r: Result<String, SyncError>) -> (t: Result<(), SyncError>)
    ensures
        push_view(t) == of_push(end_view(r)),
{
    match r {
        Ok(_) => Ok(()),
        Err(e) => Err(e),
    }
}

impl App {
    /// Shows an error over the dashboard, where there is one.
    fn fail_if(&mut self, result: Result<(), String>)
        ensures
            final(self)@ == failing_if(old(self)@, done_view(result)),
    {
        match result {
            Ok(_) => {},
            Err(e) => self.show_error(e),
        }
    }

    /// Ends the addition of an item.
    fn finish_added(&mut self, result: Result<(), String>, rows: Vec<TaskRow>)
        requires
            old(self).wf(),
        ensures
            final(self)@ == on_last_item(
                items_changed(old(self)@, done_view(result), text::views(rows@)),
            ),
    {
        self.finish_item(result, rows);
        assert(self.tab == self@.tab);
        self.item_added();
    }

    /// Ends the removal of an item.
    fn finish_deleted(&mut self, result: Result<(), String>, rows: Vec<TaskRow>)
        requires
            old(self).wf(),
        ensures
            final(self)@ == within_items(
                items_changed(old(self)@, done_view(result), text::views(rows@)),
            ),
    {
        self.finish_item(result, rows);
        assert(self.tab == self@.tab);
        self.item_deleted();
    }

    /// Ends what was done to a task.
    pub fn settle(
        &mut self,
        verb: &Verb,
        id: &str,
        result: Result<String, SyncError>,
        rows: Vec<TaskRow>,
    )
        requires
            old(self).wf(),
        ensures
            final(self)@ == settled(
                old(self)@,
                verb@,
                id@,
                end_view(result),
                text::views(rows@),
            ),
    {
        match verb {
            Verb::Run | Verb::ShowLog => self.show_run(texts(result), rows),
            Verb::PushIssue(false) => self.finish_push(
                pushed(result),
                id,
                ForceSurface::Issue,
                rows,
            ),
            Verb::PushPr(false) => self.finish_push(pushed(result), id, ForceSurface::Pr, rows),
            Verb::ToggleItem(_) | Verb::EditItem(_, _) => self.finish_item(bare(result), rows),
            Verb::AddItem(_) => self.finish_added(bare(result), rows),
            Verb::DeleteItem(_) => self.finish_deleted(bare(result), rows),
            Verb::Summarize | Verb::ListWorktrees | Verb::AddWorktree(_) | Verb::RemoveWorktree(
                _,
            ) | Verb::LockWorktree(_, _) => self.fail_if(bare(result)),
            _ => self.finish(bare(result), rows),
        }
    }

    /// Ends what could not be done, because its task is no longer there.
    pub fn gone(&mut self, verb: &Verb, id: &str, rows: Vec<TaskRow>)
        requires
            old(self).wf(),
        ensures
            final(self)@ == gone_app(old(self)@, verb@, id@, text::views(rows@)),
    {
        let m = vanished(id);
        match verb {
            Verb::ListWorktrees => self.tell(m),
            _ => self.settle(verb, id, Err(SyncError::Refused(m)), rows),
        }
    }
}

// ---------------------------------------------------------------------------
// Time
// ---------------------------------------------------------------------------

/// After how many idle ticks the state of live runs is read again.
pub const RELOAD_TICKS: u32 = 16;

/// A run of some row is live.
#[verifier::opaque]
pub open spec fn any_live(rows: Seq<TaskRowV>) -> bool {
    exists|i: int| 0 <= i < rows.len() && row::is_live((#[trigger] rows[i]).run_state)
}

/// A tick later.
pub open spec fn tick_after(n: u32) -> u32 {
    if n < u32::MAX {
        (n + 1) as u32
    } else {
        n
    }
}

/// Counts a tick.
fn count_tick(n: u32) -> (r: u32)
    ensures
        r == tick_after(n),
{
    if n < u32::MAX {
        n + 1
    } else {
        n
    }
}

/// The rows are read again after an idle tick: while a run is live, and after some
/// ticks.
pub open spec fn due(a: AppV, idle: u32) -> bool {
    a.summarizing is None && any_live(a.tasks) && tick_after(idle) >= RELOAD_TICKS
}

/// How many idle ticks are counted after one more.
pub open spec fn idle_after(a: AppV, idle: u32) -> u32 {
    if a.summarizing is Some {
        idle
    } else if due(a, idle) {
        0
    } else {
        tick_after(idle)
    }
}

/// The next frame of the spinner.
pub open spec fn frame_after(n: usize) -> usize {
    if n == usize::MAX {
        0
    } else {
        (n + 1) as usize
    }
}

/// The next frame of the spinner.
fn next_frame(n: usize) -> (r: usize)
    ensures
        r == frame_after(n),
{
    if n == usize::MAX {
        0
    } else {
        n + 1
    }
}

/// The dashboard after an idle tick: the spinner of a running summary turns.
pub open spec fn ticked(a: AppV) -> AppV {
    if a.summarizing is Some {
        AppV { spinner_frame: frame_after(a.spinner_frame), ..a }
    } else {
        a
    }
}

impl App {
    /// How long to wait for a key, in milliseconds: shorter while summarizing, so the
    /// spinner stays smooth and the result surfaces promptly.
    pub fn poll_millis(&self) -> (r: u64)
        ensures
            r == if self@.summarizing is Some {
                80
            } else {
                250u64
            },
    {
        if self.summarizing.is_some() {
            80
        } else {
            250
        }
    }

    /// Whether a run of some row is live.
    fn has_live(&self) -> (r: bool)
        ensures
            r == any_live(self@.tasks),
    {
        let ghost all = self@.tasks;
        let mut i: usize = 0;
        proof {
            reveal(any_live);
            assert(all.len() == self.tasks@.len());
        }
        while i < self.tasks.len()
            invariant
                i <= self.tasks.len(),
                all == text::views(self.tasks@),
                forall|k: int| 0 <= k < i ==> !row::is_live((#[trigger] all[k]).run_state),
            decreases self.tasks.len() - i,
        {
            if self.tasks[i].is_running() {
                proof {
                    reveal(any_live);
                    assert(row::is_live(all[i as int].run_state));
                }
                return true;
            }
            i += 1;
        }
        false
    }

    /// Shows a frame of the spinner.
    #[verifier::spinoff_prover]
    fn put_frame(&mut self, n: usize)
        ensures
            final(self)@ == (AppV { spinner_frame: n, ..old(self)@ }),
    {
        self.spinner_frame = n;
    }

    /// An idle tick, with how many were counted before: how many are counted now, and
    /// whether to read the rows again. While a background run is live, its state is
    /// polled every few seconds, so running → done/failed updates without the user
    /// touching anything; a running summary only turns its spinner.
    #[verifier::spinoff_prover]
    pub fn tick(&mut self, idle: u32) -> (r: (u32, bool))
        ensures
            final(self)@ == ticked(old(self)@),
            r.0 == idle_after(old(self)@, idle),
            r.1 == due(old(self)@, idle),
    {
        if self.summarizing.is_some() {
            let frame = next_frame(self.spinner_frame);
            self.put_frame(frame);
            return (idle, false);
        }
        let next = count_tick(idle);
        if next >= RELOAD_TICKS && self.has_live() {
            (0, true)
        } else {
            (next, false)
        }
    }
}

} // verus!
