//! Keys, and what they ask for.
use crate::commands::run::Agent;
use crate::store::Status;
use crate::text;
use vstd::prelude::*;
use vstd::string::*;

verus! {

/// A key.
#[derive(Debug, Clone, Copy, PartialEq, Eq, Structural)]
pub enum KeyCode {
    Char(char),
    Esc,
    Enter,
    Backspace,
    Tab,
    Up,
    Down,
    Other,
}

/// A key event.
#[derive(Debug, Clone, Copy, PartialEq, Eq, Structural)]
pub struct KeyEvent {
    pub code: KeyCode,
    /// The control key is held.
    pub ctrl: bool,
    /// The key goes down.
    pub press: bool,
}

impl KeyEvent {
    /// The press of a key.
    pub fn of(code: KeyCode) -> (r: KeyEvent)
        ensures
            r == (KeyEvent { code, ctrl: false, press: true }),
    {
        KeyEvent { code, ctrl: false, press: true }
    }
}

/// How `s` claims a task: plain single mode, an isolated worktree, or a
/// main-repo branch — the dashboard counterpart of `rein start [--worktree|--branch]`.
#[derive(Debug, Clone, Copy, PartialEq, Eq, Structural)]
pub enum StartMode {
    Single,
    Worktree,
    Branch,
}

/// Which surface a force-push targets — the dashboard knows this from the key
/// that hit the conflict (`i` → issue, `p` → PR), so the offer can retry the
/// right one.
#[derive(Debug, Clone, Copy, PartialEq, Eq, Structural)]
pub enum ForceSurface {
    Issue,
    Pr,
}

/// A pending force-push offer, armed when a push (`i`/`p`) hits a sync conflict.
/// While present the dashboard shows a prompt: `f` overwrites the remote with
/// the local copy (the `rein push --resolved` path), any other key cancels.
#[derive(Debug, PartialEq)]
pub struct ForcePush {
    pub task_id: String,
    pub surface: ForceSurface,
    pub slug: String,
}

/// What a [`ForcePush`] stands for.
#[verifier::ext_equal]
pub struct ForcePushV {
    pub task_id: Seq<char>,
    pub surface: ForceSurface,
    pub slug: Seq<char>,
}

impl View for ForcePush {
    type V = ForcePushV;

    open spec fn view(&self) -> ForcePushV {
        ForcePushV { task_id: self.task_id@, surface: self.surface, slug: self.slug@ }
    }
}

/// What the event loop should do after a key.
#[derive(Debug, PartialEq)]
pub enum UiAction {
    Nothing,
    Quit,
    Edit(String),
    /// create an inbox task with this title
    New(String),
    /// claim inbox → active in the chosen mode
    Start(String, StartMode),
    /// free-form transition to any state
    Move(String, Status),
    Done(String),
    /// permanently remove the task (files + worktree)
    Delete(String),
    /// begin creating an issue (offers a project picker)
    Issue(String),
    /// create the issue, optionally onto a project board
    IssueWithProject(String, Option<String>),
    /// push the managed section to an existing issue
    PushIssue(String),
    /// push the managed section to an existing PR
    PushPr(String),
    /// overwrite the remote after a sync conflict (push --resolved)
    ForcePush(String, ForceSurface),
    /// open a draft PR; bool = worktree (vs main-repo branch)
    CreatePr(String, bool),
    /// copy the task's working directory path to the clipboard
    CopyDir(String),
    /// launch an agent on the task in the background
    Run(String),
    /// open the last background run in the native agent UI
    AttachRun(String),
    /// show recent log output of a running task
    ShowLog(String),
    /// choose the run agent of the task's project
    SetAgent(String, Agent),
    /// LLM-summarize the task's items into title + Goal (rein owns the write)
    Summary(String),
    /// task id + item id: flip its checkbox (reopens a failed item)
    ToggleItem(String, String),
    /// task id + text: append a new checklist item to ## Tasks
    AddItem(String, String),
    /// task id + item id + new text: reword a checklist item
    EditItem(String, String, String),
    /// task id + item id: remove a checklist item
    DeleteItem(String, String),
    /// anchor task id: open the worktree view for its project's repo
    Worktrees(String),
    /// anchor task id + branch: git worktree add (-b if branch is new)
    AddWorktree(String, String),
    /// anchor task id + worktree path: git worktree remove
    DeleteWorktree(String, String),
    /// anchor task id + path + lock(true)/unlock(false)
    LockWorktree(String, String, bool),
}

/// What a [`UiAction`] stands for.
pub enum UiActionV {
    Nothing,
    Quit,
    Edit(Seq<char>),
    New(Seq<char>),
    Start(Seq<char>, StartMode),
    Move(Seq<char>, Status),
    Done(Seq<char>),
    Delete(Seq<char>),
    Issue(Seq<char>),
    IssueWithProject(Seq<char>, Option<Seq<char>>),
    PushIssue(Seq<char>),
    PushPr(Seq<char>),
    ForcePush(Seq<char>, ForceSurface),
    CreatePr(Seq<char>, bool),
    CopyDir(Seq<char>),
    Run(Seq<char>),
    AttachRun(Seq<char>),
    ShowLog(Seq<char>),
    SetAgent(Seq<char>, Agent),
    Summary(Seq<char>),
    ToggleItem(Seq<char>, Seq<char>),
    AddItem(Seq<char>, Seq<char>),
    EditItem(Seq<char>, Seq<char>, Seq<char>),
    DeleteItem(Seq<char>, Seq<char>),
    Worktrees(Seq<char>),
    AddWorktree(Seq<char>, Seq<char>),
    DeleteWorktree(Seq<char>, Seq<char>),
    LockWorktree(Seq<char>, Seq<char>, bool),
}

impl View for UiAction {
    type V = UiActionV;

    open spec fn view(&self) -> UiActionV {
        match self {
            UiAction::Nothing => UiActionV::Nothing,
            UiAction::Quit => UiActionV::Quit,
            UiAction::Edit(p) => UiActionV::Edit(p@),
            UiAction::New(t) => UiActionV::New(t@),
            UiAction::Start(id, m) => UiActionV::Start(id@, *m),
            UiAction::Move(id, s) => UiActionV::Move(id@, *s),
            UiAction::Done(id) => UiActionV::Done(id@),
            UiAction::Delete(id) => UiActionV::Delete(id@),
            UiAction::Issue(id) => UiActionV::Issue(id@),
            UiAction::IssueWithProject(id, p) => UiActionV::IssueWithProject(
                id@,
                text::opt_view(*p),
            ),
            UiAction::PushIssue(id) => UiActionV::PushIssue(id@),
            UiAction::PushPr(id) => UiActionV::PushPr(id@),
            UiAction::ForcePush(id, s) => UiActionV::ForcePush(id@, *s),
            UiAction::CreatePr(id, w) => UiActionV::CreatePr(id@, *w),
            UiAction::CopyDir(p) => UiActionV::CopyDir(p@),
            UiAction::Run(id) => UiActionV::Run(id@),
            UiAction::AttachRun(id) => UiActionV::AttachRun(id@),
            UiAction::ShowLog(id) => UiActionV::ShowLog(id@),
            UiAction::SetAgent(id, a) => UiActionV::SetAgent(id@, *a),
            UiAction::Summary(id) => UiActionV::Summary(id@),
            UiAction::ToggleItem(id, i) => UiActionV::ToggleItem(id@, i@),
            UiAction::AddItem(id, t) => UiActionV::AddItem(id@, t@),
            UiAction::EditItem(id, i, t) => UiActionV::EditItem(id@, i@, t@),
            UiAction::DeleteItem(id, i) => UiActionV::DeleteItem(id@, i@),
            UiAction::Worktrees(id) => UiActionV::Worktrees(id@),
            UiAction::AddWorktree(id, b) => UiActionV::AddWorktree(id@, b@),
            UiAction::DeleteWorktree(id, p) => UiActionV::DeleteWorktree(id@, p@),
            UiAction::LockWorktree(id, p, l) => UiActionV::LockWorktree(id@, p@, *l),
        }
    }
}

} // verus!
