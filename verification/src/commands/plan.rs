//! What a command wants done: steps in order, and the refusal that ends it.
use crate::gh::{GhCall, GhCallV};
use crate::gitx::{GitCall, GitCallV};
use crate::state::{self, TaskState, TaskStateV};
use crate::store::Status;
use crate::task::doc::{self, FrontmatterV, TaskDocV};
use crate::task::TaskDoc;
use crate::text;
use vstd::prelude::*;
use vstd::string::*;

verus! {

// ---------------------------------------------------------------------------
// Changes of state and frontmatter
// ---------------------------------------------------------------------------

/// A change of the state of a task.
#[derive(Debug)]
pub enum StateEdit {
    /// Forgets whatever was recorded.
    Fresh,
    Path(String),
    Branch(String),
    Worktree(Option<String>),
    IssueHash(Option<String>),
    PrHash(Option<String>),
    /// A run that was started: its session, its backend, and the files of a
    /// backend that rein runs in the background itself.
    Run { session: String, agent: String, log: Option<String>, status: Option<String> },
}

/// What a [`StateEdit`] stands for.
#[verifier::ext_equal]
pub enum StateEditV {
    Fresh,
    Path(Seq<char>),
    Branch(Seq<char>),
    Worktree(Option<Seq<char>>),
    IssueHash(Option<Seq<char>>),
    PrHash(Option<Seq<char>>),
    Run {
        session: Seq<char>,
        agent: Seq<char>,
        log: Option<Seq<char>>,
        status: Option<Seq<char>>,
    },
}

impl View for StateEdit {
    type V = StateEditV;

    open spec fn view(&self) -> StateEditV {
        match self {
            StateEdit::Fresh => StateEditV::Fresh,
            StateEdit::Path(p) => StateEditV::Path(p@),
            StateEdit::Branch(b) => StateEditV::Branch(b@),
            StateEdit::Worktree(w) => StateEditV::Worktree(text::opt_view(*w)),
            StateEdit::IssueHash(h) => StateEditV::IssueHash(text::opt_view(*h)),
            StateEdit::PrHash(h) => StateEditV::PrHash(text::opt_view(*h)),
            StateEdit::Run { session, agent, log, status } => StateEditV::Run {
                session: session@,
                agent: agent@,
                log: text::opt_view(*log),
                status: text::opt_view(*status),
            },
        }
    }
}

/// A state after one change.
pub open spec fn edited(st: TaskStateV, e: StateEditV) -> TaskStateV {
    match e {
        StateEditV::Fresh => state::no_state(),
        StateEditV::Path(p) => TaskStateV { path: p, ..st },
        StateEditV::Branch(b) => TaskStateV { branch: Some(b), ..st },
        StateEditV::Worktree(w) => TaskStateV { worktree: w, ..st },
        StateEditV::IssueHash(h) => TaskStateV { issue_synced_hash: h, ..st },
        StateEditV::PrHash(h) => TaskStateV { pr_synced_hash: h, ..st },
        StateEditV::Run { session, agent, log, status } => TaskStateV {
            run_session: Some(session),
            run_agent: Some(agent),
            run_log: log,
            run_status: status,
            ..st
        },
    }
}

/// A state after changes, in order.
pub open spec fn edited_all(st: TaskStateV, es: Seq<StateEditV>) -> TaskStateV
    decreases es.len(),
{
    if es.len() == 0 {
        st
    } else {
        edited(edited_all(st, es.drop_last()), es.last())
    }
}

/// Applies changes to a state, in order.
pub fn edit_state(st: &TaskState, edits: &Vec<StateEdit>) -> (r: TaskState)
    ensures
        r@ == edited_all(st@, text::views(edits@)),
{
    let mut out = st.clone();
    let ghost all = text::views(edits@);
    let mut i: usize = 0;
    while i < edits.len()
        invariant
            0 <= i <= edits.len(),
            all == text::views(edits@),
            out@ == edited_all(st@, all.take(i as int)),
        decreases edits.len() - i,
    {
        proof {
            assert(all.take(i as int + 1).drop_last() =~= all.take(i as int));
            assert(all.take(i as int + 1).last() == edits@[i as int]@);
        }
        match &edits[i] {
            StateEdit::Fresh => {
                out = TaskState::default();
            },
            StateEdit::Path(p) => {
                out.path = p.clone();
            },
            StateEdit::Branch(b) => {
                out.branch = Some(b.clone());
            },
            StateEdit::Worktree(w) => {
                out.worktree = text::clone_opt(w);
            },
            StateEdit::IssueHash(h) => {
                out.issue_synced_hash = text::clone_opt(h);
            },
            StateEdit::PrHash(h) => {
                out.pr_synced_hash = text::clone_opt(h);
            },
            StateEdit::Run { session, agent, log, status } => {
                out.run_session = Some(session.clone());
                out.run_agent = Some(agent.clone());
                out.run_log = text::clone_opt(log);
                out.run_status = text::clone_opt(status);
            },
        }
        i += 1;
    }
    proof {
        assert(all.take(i as int) =~= all);
    }
    out
}

/// A change of the frontmatter of a document.
#[derive(Debug)]
pub enum FrontEdit {
    Status(Status),
    Branch(String),
    Issue(u64),
    Pr(u64),
}

/// What a [`FrontEdit`] stands for.
#[verifier::ext_equal]
pub enum FrontEditV {
    Status(Status),
    Branch(Seq<char>),
    Issue(u64),
    Pr(u64),
}

impl View for FrontEdit {
    type V = FrontEditV;

    open spec fn view(&self) -> FrontEditV {
        match self {
            FrontEdit::Status(s) => FrontEditV::Status(*s),
            FrontEdit::Branch(b) => FrontEditV::Branch(b@),
            FrontEdit::Issue(n) => FrontEditV::Issue(*n),
            FrontEdit::Pr(n) => FrontEditV::Pr(*n),
        }
    }
}

/// Frontmatter after one change.
pub open spec fn front_edited(f: FrontmatterV, e: FrontEditV) -> FrontmatterV {
    match e {
        FrontEditV::Status(s) => FrontmatterV { status: s.name(), ..f },
        FrontEditV::Branch(b) => FrontmatterV { branch: Some(b), ..f },
        FrontEditV::Issue(n) => FrontmatterV { github_issue: Some(n), ..f },
        FrontEditV::Pr(n) => FrontmatterV { github_pr: Some(n), ..f },
    }
}

/// A document after one change of its frontmatter, at a time.
pub open spec fn doc_edited(d: TaskDocV, e: FrontEditV, now: Seq<char>) -> TaskDocV {
    doc::touched(TaskDocV { front: front_edited(d.front, e), ..d }, now)
}

/// Changes the frontmatter of a document.
pub fn edit_front(d: &TaskDoc, edit: &FrontEdit, now: &str) -> (r: TaskDoc)
    ensures
        r@ == doc_edited(d@, edit@, now@),
{
    let mut out = d.clone();
    match edit {
        FrontEdit::Status(s) => {
            out.front.status = String::from_str(s.as_str());
        },
        FrontEdit::Branch(b) => {
            out.front.branch = Some(b.clone());
        },
        FrontEdit::Issue(n) => {
            out.front.github_issue = Some(*n);
        },
        FrontEdit::Pr(n) => {
            out.front.github_pr = Some(*n);
        },
    }
    out.touch_at(now);
    out
}

/// The text of a document with its frontmatter changed, where it is a document.
pub fn edit_front_text(content: &str, edit: &FrontEdit, now: &str) -> (r: Option<String>)
    ensures
        text::opt_view(r) == match doc::parsed(content@) {
            Ok(d) => Some(doc::serialized(doc_edited(d, edit@, now@))),
            Err(_) => None,
        },
{
    match TaskDoc::parse(content) {
        Ok(d) => Some(edit_front(&d, edit, now).serialize()),
        Err(_) => None,
    }
}

// ---------------------------------------------------------------------------
// Steps
// ---------------------------------------------------------------------------

/// What a failed call of `gh` means for the command.
#[derive(Debug)]
pub enum OnFail {
    /// The command fails.
    Abort,
    /// A warning with this start is printed, and the command goes on.
    Warn(String),
    /// The command goes on.
    Ignore,
}

/// What an [`OnFail`] stands for.
#[verifier::ext_equal]
pub enum OnFailV {
    Abort,
    Warn(Seq<char>),
    Ignore,
}

impl View for OnFail {
    type V = OnFailV;

    open spec fn view(&self) -> OnFailV {
        match self {
            OnFail::Abort => OnFailV::Abort,
            OnFail::Warn(s) => OnFailV::Warn(s@),
            OnFail::Ignore => OnFailV::Ignore,
        }
    }
}

/// One thing to do. A step that fails ends the command, unless it says otherwise.
#[derive(Debug)]
#[allow(inconsistent_fields)]
pub enum Step {
    /// Create a directory and those above it.
    MakeDir(String),
    /// Write a file atomically.
    Write { path: String, text: String },
    /// Write a file where there is none.
    WriteNew { path: String, text: String },
    /// Move a document, creating the directory that it goes to.
    MoveDoc { from: String, to: String, slug: String },
    /// Change the frontmatter of the document at a path, as it is there then.
    EditFront { path: String, edit: FrontEdit },
    /// Change the state of a task, as it is stored then.
    EditState { id: String, edits: Vec<StateEdit> },
    /// Remove a file that must be there.
    Remove(String),
    /// Remove a file if it is there.
    RemoveIfThere(String),
    /// Remove a file if possible.
    RemoveQuietly(String),
    /// Call git; a failure is reported behind the context, where there is one.
    Git { call: GitCall, context: Option<String> },
    /// Call `gh`.
    Gh { call: GhCall, on_fail: OnFail },
    /// Bind the worktree at a path to a task.
    Bind { worktree: String, id: String },
    /// Publish the final state of a task to its pull request.
    FinalPr { id: String, number: u64, on_fail: OnFail },
    /// Open a draft pull request for a task from a branch.
    OpenPr { id: String, branch: String },
    /// Print a line.
    Say(String),
}

/// What a [`Step`] stands for.
#[verifier::ext_equal]
#[allow(inconsistent_fields)]
pub enum StepV {
    MakeDir(Seq<char>),
    Write { path: Seq<char>, text: Seq<char> },
    WriteNew { path: Seq<char>, text: Seq<char> },
    MoveDoc { from: Seq<char>, to: Seq<char>, slug: Seq<char> },
    EditFront { path: Seq<char>, edit: FrontEditV },
    EditState { id: Seq<char>, edits: Seq<StateEditV> },
    Remove(Seq<char>),
    RemoveIfThere(Seq<char>),
    RemoveQuietly(Seq<char>),
    Git { call: GitCallV, context: Option<Seq<char>> },
    Gh { call: GhCallV, on_fail: OnFailV },
    Bind { worktree: Seq<char>, id: Seq<char> },
    FinalPr { id: Seq<char>, number: u64, on_fail: OnFailV },
    OpenPr { id: Seq<char>, branch: Seq<char> },
    Say(Seq<char>),
}

impl View for Step {
    type V = StepV;

    open spec fn view(&self) -> StepV {
        match self {
            Step::MakeDir(p) => StepV::MakeDir(p@),
            Step::Write { path, text } => StepV::Write { path: path@, text: text@ },
            Step::WriteNew { path, text } => StepV::WriteNew { path: path@, text: text@ },
            Step::MoveDoc { from, to, slug } => StepV::MoveDoc {
                from: from@,
                to: to@,
                slug: slug@,
            },
            Step::EditFront { path, edit } => StepV::EditFront { path: path@, edit: edit@ },
            Step::EditState { id, edits } => StepV::EditState {
                id: id@,
                edits: text::views(edits@),
            },
            Step::Remove(p) => StepV::Remove(p@),
            Step::RemoveIfThere(p) => StepV::RemoveIfThere(p@),
            Step::RemoveQuietly(p) => StepV::RemoveQuietly(p@),
            Step::Git { call, context } => StepV::Git {
                call: call@,
                context: text::opt_view(*context),
            },
            Step::Gh { call, on_fail } => StepV::Gh { call: call@, on_fail: on_fail@ },
            Step::Bind { worktree, id } => StepV::Bind { worktree: worktree@, id: id@ },
            Step::FinalPr { id, number, on_fail } => StepV::FinalPr {
                id: id@,
                number: *number,
                on_fail: on_fail@,
            },
            Step::OpenPr { id, branch } => StepV::OpenPr { id: id@, branch: branch@ },
            Step::Say(s) => StepV::Say(s@),
        }
    }
}

/// What comes of a command: the steps to do first, and then the refusal that ends
/// it, if any.
#[derive(Debug)]
pub struct Outcome {
    pub steps: Vec<Step>,
    pub error: Option<String>,
}

/// What an [`Outcome`] stands for.
#[verifier::ext_equal]
pub struct OutcomeV {
    pub steps: Seq<StepV>,
    pub error: Option<Seq<char>>,
}

impl View for Outcome {
    type V = OutcomeV;

    open spec fn view(&self) -> OutcomeV {
        OutcomeV { steps: text::views(self.steps@), error: text::opt_view(self.error) }
    }
}

/// Nothing is done, for a reason.
pub open spec fn refusal(e: Seq<char>) -> OutcomeV {
    OutcomeV { steps: seq![], error: Some(e) }
}

/// Steps that end well.
pub open spec fn completed(steps: Seq<StepV>) -> OutcomeV {
    OutcomeV { steps, error: None }
}

/// Nothing is done, for a reason.
pub fn refuse(e: String) -> (r: Outcome)
    ensures
        r@ == refusal(e@),
{
    let r = Outcome { steps: Vec::new(), error: Some(e) };
    assert(r@.steps =~= seq![]);
    r
}

/// No steps.
pub fn no_steps() -> (r: Vec<Step>)
    ensures
        text::views(r@) == Seq::<StepV>::empty(),
{
    let r: Vec<Step> = Vec::new();
    assert(text::views(r@) =~= Seq::<StepV>::empty());
    r
}

/// Adds a line to print.
pub fn push_say(steps: &mut Vec<Step>, line: String)
    ensures
        text::views(final(steps)@) == text::views(old(steps)@).push(StepV::Say(line@)),
{
    push_step(steps, Step::Say(line));
}

/// Steps that end well.
pub fn complete(steps: Vec<Step>) -> (r: Outcome)
    ensures
        r@ == completed(text::views(steps@)),
{
    Outcome { steps, error: None }
}

/// Adds a step.
pub fn push_step(steps: &mut Vec<Step>, step: Step)
    ensures
        text::views(final(steps)@) == text::views(old(steps)@).push(step@),
{
    let ghost before = text::views(steps@);
    steps.push(step);
    assert(text::views(steps@) =~= before.push(step@));
}

/// Adds steps.
pub fn push_steps(steps: &mut Vec<Step>, more: Vec<Step>)
    ensures
        text::views(final(steps)@) == text::views(old(steps)@) + text::views(more@),
{
    let ghost before = text::views(steps@);
    let ghost added = text::views(more@);
    let mut more = more;
    steps.append(&mut more);
    assert(text::views(steps@) =~= before + added);
}

/// One step.
pub fn one_step(step: Step) -> (r: Vec<Step>)
    ensures
        text::views(r@) == seq![step@],
{
    let mut r: Vec<Step> = Vec::new();
    r.push(step);
    assert(text::views(r@) =~= seq![step@]);
    r
}

} // verus!
