//! Commands that claim a task and open its pull request.
use crate::commands::lifecycle::{self, target, with_number};
use crate::commands::plan::{self, no_steps, one_step, push_say, push_step, push_steps, refuse};
use crate::commands::plan::{FrontEdit, FrontEditV, OnFail, OnFailV, Outcome, OutcomeV};
use crate::commands::plan::{StateEdit, StateEditV, Step, StepV};
use crate::commands::storing;
use crate::ctx::{Ctx, CtxV};
use crate::gh::{self, Gh, GhCall, GhCallV};
use crate::gitx::GitCallV;
use crate::paths;
use crate::projects;
use crate::state;
use crate::store::{self, Status, Store, StoreV, TaskRef, TaskRefV};
use crate::sync;
use crate::task;
use crate::task::managed;
use crate::text;
use vstd::prelude::*;
use vstd::string::*;

verus! {

// ---------------------------------------------------------------------------
// Where the work happens
// ---------------------------------------------------------------------------

/// Worktrees live under the rein store (`<store>/worktrees/<slug>`) rather than
/// beside the repo.
pub open spec fn worktree_place(root: Seq<char>, slug: Seq<char>) -> Seq<char> {
    paths::joined_path(paths::joined_path(root, "worktrees"@), slug)
}

/// Worktrees live under the rein store (`<store>/worktrees/<slug>`) rather than
/// beside the repo, so the project's parent dir stays clean and cleanup happens
/// from a path the engine owns.
pub fn worktree_path(store: &Store, slug: &str) -> (r: String)
    ensures
        r@ == worktree_place(store@.root, slug@),
{
    paths::join(&paths::join(&store.root, "worktrees"), slug)
}

/// The refusal of a branch that is there already.
pub open spec fn taken_message(branch: Seq<char>) -> Seq<char> {
    "branch '"@ + branch
        + "' already exists — likely left by an earlier run. Delete it with `git branch -D "@
        + branch + "` (or finish/cancel that task), then retry."@
}

/// Turn the predictable "branch already exists" collision (usually a leftover
/// from an earlier run for the same task) into an actionable message, before
/// `git worktree add -b` / `git switch -c` fails with a bare git fatal.
fn ensure_branch_free(branch: &str, exists: bool) -> (r: Result<(), String>)
    ensures
        match r {
            Ok(_) => !exists,
            Err(e) => exists && e@ == taken_message(branch@),
        },
{
    if exists {
        let mut m = String::from_str("branch '");
        m.append(branch);
        m.append(
            "' already exists — likely left by an earlier run. Delete it with `git branch -D ",
        );
        m.append(branch);
        m.append("` (or finish/cancel that task), then retry.");
        Err(m)
    } else {
        Ok(())
    }
}

/// Where the work on a task happens: what is done for it, and what its state
/// records of it.
pub struct Setup {
    pub steps: Vec<Step>,
    pub edits: Vec<StateEdit>,
}

/// What a [`Setup`] stands for.
#[verifier::ext_equal]
pub struct SetupV {
    pub steps: Seq<StepV>,
    pub edits: Seq<StateEditV>,
}

impl View for Setup {
    type V = SetupV;

    open spec fn view(&self) -> SetupV {
        SetupV { steps: text::views(self.steps@), edits: text::views(self.edits@) }
    }
}

/// A worktree on a new branch, bound to the task.
pub open spec fn worktree_setup(
    c: CtxV,
    t: TaskRefV,
    doc: Seq<char>,
    branch: Seq<char>,
) -> SetupV {
    let path = worktree_place(c.store.root, t.slug);
    SetupV {
        steps: seq![
            StepV::Git {
                call: GitCallV {
                    dir: c.repo.workdir,
                    args: seq!["worktree"@, "add"@, "-b"@, branch, path],
                },
                context: Some("git worktree add failed"@),
            },
            StepV::Bind { worktree: path, id: t.id },
            StepV::EditFront { path: doc, edit: FrontEditV::Branch(branch) },
            StepV::Say("worktree: "@ + path),
        ],
        edits: seq![StateEditV::Branch(branch), StateEditV::Worktree(Some(path))],
    }
}

/// Add a worktree for `task` on `branch`, bind the task↔worktree pointer, and record
/// the branch/worktree. Shared by `start` and `create_pr`.
fn setup_worktree(ctx: &Ctx, task: &TaskRef, doc: &str, branch: &str) -> (r: Setup)
    ensures
        r@ == worktree_setup(ctx@, task@, doc@, branch@),
{
    let path = worktree_path(&ctx.store, &task.slug);
    let mut steps = no_steps();
    push_step(
        &mut steps,
        Step::Git {
            call: ctx.repo.worktree_add(&path, branch),
            context: Some(String::from_str("git worktree add failed")),
        },
    );
    // bind task to the new worktree via its git-dir pointer
    push_step(&mut steps, Step::Bind { worktree: path.clone(), id: task.id.clone() });
    push_step(
        &mut steps,
        Step::EditFront {
            path: String::from_str(doc),
            edit: FrontEdit::Branch(String::from_str(branch)),
        },
    );
    let mut line = String::from_str("worktree: ");
    line.append(&path);
    push_say(&mut steps, line);
    let mut edits: Vec<StateEdit> = Vec::new();
    edits.push(StateEdit::Branch(String::from_str(branch)));
    edits.push(StateEdit::Worktree(Some(path)));
    let r = Setup { steps, edits };
    assert(r@.steps =~= worktree_setup(ctx@, task@, doc@, branch@).steps);
    assert(r@.edits =~= worktree_setup(ctx@, task@, doc@, branch@).edits);
    r
}

/// A new branch in the main repo.
pub open spec fn branch_setup(c: CtxV, doc: Seq<char>, branch: Seq<char>) -> SetupV {
    SetupV {
        steps: seq![
            StepV::Git {
                call: GitCallV { dir: c.repo.workdir, args: seq!["switch"@, "-c"@, branch] },
                context: None,
            },
            StepV::EditFront { path: doc, edit: FrontEditV::Branch(branch) },
        ],
        edits: seq![StateEditV::Branch(branch)],
    }
}

/// Create `branch` in the main repo, switch to it, and record it. Shared by `start`
/// and `create_pr` (single/branch mode).
fn setup_branch(ctx: &Ctx, doc: &str, branch: &str) -> (r: Setup)
    ensures
        r@ == branch_setup(ctx@, doc@, branch@),
{
    let mut steps = no_steps();
    push_step(
        &mut steps,
        Step::Git { call: ctx.repo.branch_create_and_switch(branch), context: None },
    );
    push_step(
        &mut steps,
        Step::EditFront {
            path: String::from_str(doc),
            edit: FrontEdit::Branch(String::from_str(branch)),
        },
    );
    let mut edits: Vec<StateEdit> = Vec::new();
    edits.push(StateEdit::Branch(String::from_str(branch)));
    let r = Setup { steps, edits };
    assert(r@.steps =~= branch_setup(ctx@, doc@, branch@).steps);
    assert(r@.edits =~= branch_setup(ctx@, doc@, branch@).edits);
    r
}

/// The branch that is checked out already; nothing where the head is detached.
pub open spec fn single_setup(doc: Seq<char>, current: Option<Seq<char>>) -> SetupV {
    match current {
        Some(b) => SetupV {
            steps: seq![StepV::EditFront { path: doc, edit: FrontEditV::Branch(b) }],
            edits: seq![StateEditV::Branch(b)],
        },
        None => SetupV { steps: seq![], edits: seq![] },
    }
}

/// Single mode claims no new branch — the work happens on whatever branch is already
/// checked out, so record *that* in the frontmatter (and state) rather than leaving
/// `branch:` blank. Detached HEAD → nothing to record.
fn setup_single(doc: &str, current: &Option<String>) -> (r: Setup)
    ensures
        r@ == single_setup(doc@, text::opt_view(*current)),
{
    let mut steps = no_steps();
    let mut edits: Vec<StateEdit> = Vec::new();
    match current {
        Some(b) => {
            push_step(
                &mut steps,
                Step::EditFront {
                    path: String::from_str(doc),
                    edit: FrontEdit::Branch(b.clone()),
                },
            );
            edits.push(StateEdit::Branch(b.clone()));
        },
        None => {},
    }
    let r = Setup { steps, edits };
    assert(r@.steps =~= single_setup(doc@, text::opt_view(*current)).steps);
    assert(r@.edits =~= single_setup(doc@, text::opt_view(*current)).edits);
    r
}

// ---------------------------------------------------------------------------
// start
// ---------------------------------------------------------------------------

/// The branch that a task is started on.
pub open spec fn branch_for(t: TaskRefV, branch: Option<Seq<char>>) -> Seq<char> {
    match branch {
        Some(b) => b,
        None => t.slug,
    }
}

/// The branch that a task is started on: the one that is asked for, or its slug.
pub fn branch_name(task: &TaskRef, branch: Option<&str>) -> (r: String)
    ensures
        r@ == branch_for(task@, projects::str_view(branch)),
{
    match branch {
        Some(b) => String::from_str(b),
        None => task.slug.clone(),
    }
}

/// The task that was claimed, looked up again.
pub open spec fn claimed(s: StoreV, t: TaskRefV) -> Option<TaskRefV> {
    storing::found_moved(s, t, Status::Active, Seq::<char>::empty())
}

/// The branch that starting an inbox task needs.
pub fn start_branch(ctx: &Ctx, task: &TaskRef, branch: Option<&str>) -> (r: String)
    ensures
        r@ == match claimed(ctx@.store, task@) {
            Some(t) => branch_for(t, projects::str_view(branch)),
            None => branch_for(task@, projects::str_view(branch)),
        },
{
    proof {
        reveal_strlit("");
        assert(""@ =~= Seq::<char>::empty());
    }
    match ctx.store.find_moved(task, Status::Active, "") {
        Some(t) => branch_name(&t, branch),
        None => branch_name(task, branch),
    }
}

/// How a task is started.
pub open spec fn start_setup(
    c: CtxV,
    t: TaskRefV,
    doc: Seq<char>,
    worktree: bool,
    branch: Option<Seq<char>>,
    current: Option<Seq<char>>,
) -> SetupV {
    if worktree {
        worktree_setup(c, t, doc, branch_for(t, branch))
    } else {
        let s = if branch is Some {
            branch_setup(c, doc, branch_for(t, branch))
        } else {
            single_setup(doc, current)
        };
        SetupV { steps: s.steps.push(storing::current_step(c.store.root, t.id)), edits: s.edits }
    }
}

/// What a started task publishes.
pub open spec fn start_publishes(t: TaskRefV, branch: Seq<char>, draft_pr: bool) -> Seq<StepV> {
    if draft_pr {
        seq![StepV::OpenPr { id: t.id, branch }]
    } else {
        match t.doc.front.github_issue {
            Some(issue) => seq![
                StepV::Gh {
                    call: gh::comment_call(issue, "Started on branch `"@ + branch + "`"@),
                    on_fail: OnFailV::Ignore,
                },
            ],
            None => seq![],
        }
    }
}

/// What starting a task does once it was claimed.
pub open spec fn set_up(
    c: CtxV,
    t: TaskRefV,
    claim: Seq<StepV>,
    rel: Seq<char>,
    worktree: bool,
    branch: Option<Seq<char>>,
    draft_pr: bool,
    exists: bool,
    current: Option<Seq<char>>,
) -> OutcomeV {
    let setup = start_setup(c, t, t.path, worktree, branch, current);
    if exists && (worktree || branch is Some) {
        OutcomeV { steps: claim, error: Some(taken_message(branch_for(t, branch))) }
    } else if draft_pr && !worktree && branch is None {
        OutcomeV {
            steps: claim + setup.steps,
            error: Some("--draft-pr requires --worktree or --branch"@),
        }
    } else {
        plan::completed(
            (claim + setup.steps + start_publishes(t, branch_for(t, branch), draft_pr)).push(
                StepV::EditState { id: t.id, edits: seq![StateEditV::Path(rel)] + setup.edits },
            ).push(StepV::Say("started "@ + t.id)),
        )
    }
}

/// What `rein start` does. `exists` says whether the branch of the task is there
/// already, `current` which branch is checked out.
pub open spec fn started(
    c: CtxV,
    query: Seq<char>,
    worktree: bool,
    branch: Option<Seq<char>>,
    draft_pr: bool,
    exists: bool,
    current: Option<Seq<char>>,
) -> OutcomeV {
    match store::found(store::all_tasks(c.store), query) {
        Err(e) => plan::refusal(e),
        Ok(t) => match t.status {
            Status::Inbox => {
                let root = c.store.root;
                let claim = storing::move_steps(root, t, Status::Active, Seq::<char>::empty());
                let doc = storing::moved_path(root, t.slug, Status::Active, Seq::<char>::empty());
                match claimed(c.store, t) {
                    Some(f) => set_up(
                        c,
                        f,
                        claim,
                        paths::relative_to(doc, root),
                        worktree,
                        branch,
                        draft_pr,
                        exists,
                        current,
                    ),
                    None => OutcomeV { steps: claim, error: Some("task vanished after claim"@) },
                }
            },
            Status::Active => plan::refusal("'"@ + t.slug + "' is already active"@),
            _ => plan::refusal(
                "'"@ + t.slug + "' is "@ + t.status.name()
                    + " — only inbox tasks can be started"@,
            ),
        },
    }
}

/// A refusal that names a task and its status.
fn refuse_status(task: &TaskRef, why: &str) -> (r: Outcome)
    ensures
        r@ == plan::refusal("'"@ + task@.slug + "' is "@ + task@.status.name() + why@),
{
    let mut m = String::from_str("'");
    m.append(&task.slug);
    m.append("' is ");
    m.append(task.status.as_str());
    m.append(why);
    refuse(m)
}

/// inbox→active claim + optional worktree/branch/draft-PR.
pub fn start(
    ctx: &Ctx,
    query: &str,
    worktree: bool,
    branch: Option<&str>,
    draft_pr: bool,
    exists: bool,
    current: &Option<String>,
) -> (r: Outcome)
    ensures
        r@ == started(
            ctx@,
            query@,
            worktree,
            projects::str_view(branch),
            draft_pr,
            exists,
            text::opt_view(*current),
        ),
{
    match ctx.store.find(query) {
        Err(e) => refuse(e),
        Ok(task) => {
            match task.status {
                Status::Inbox => {},
                Status::Active => {
                    let mut m = String::from_str("'");
                    m.append(&task.slug);
                    m.append("' is already active");
                    return refuse(m);
                },
                _ => {
                    return refuse_status(&task, " — only inbox tasks can be started");
                },
            }
            // atomic rename = claim; loser of a race errors here
            let mut steps = ctx.store.move_task(&task, Status::Active, "");
            let doc = ctx.store.dest_of(&task.slug, Status::Active, "");
            proof {
                reveal_strlit("");
                assert(""@ =~= Seq::<char>::empty());
            }
            let task = match ctx.store.find_moved(&task, Status::Active, "") {
                Some(t) => t,
                None => {
                    return Outcome {
                        steps,
                        error: Some(String::from_str("task vanished after claim")),
                    };
                },
            };
            let name = branch_name(&task, branch);
            if worktree || branch.is_some() {
                match ensure_branch_free(&name, exists) {
                    Err(e) => {
                        return Outcome { steps, error: Some(e) };
                    },
                    Ok(_) => {},
                }
            }
            let mut setup = if worktree {
                setup_worktree(ctx, &task, &task.path, &name)
            } else if branch.is_some() {
                setup_branch(ctx, &task.path, &name)
            } else {
                setup_single(&task.path, current)
            };
            if !worktree {
                // single mode: current pointer
                push_step(&mut setup.steps, ctx.store.write_current(&task.id));
            }
            let ghost made = setup@;
            assert(made == start_setup(
                ctx@,
                task@,
                task@.path,
                worktree,
                projects::str_view(branch),
                text::opt_view(*current),
            ));
            push_steps(&mut steps, setup.steps);
            if draft_pr && !worktree && branch.is_none() {
                return Outcome {
                    steps,
                    error: Some(String::from_str("--draft-pr requires --worktree or --branch")),
                };
            }
            if draft_pr {
                push_steps(
                    &mut steps,
                    one_step(Step::OpenPr { id: task.id.clone(), branch: name }),
                );
            } else {
                match task.doc.front.github_issue {
                    Some(issue) => {
                        let mut comment = String::from_str("Started on branch `");
                        comment.append(&name);
                        comment.append("`");
                        push_steps(
                            &mut steps,
                            one_step(
                                Step::Gh {
                                    call: Gh::issue_comment(issue, &comment),
                                    on_fail: OnFail::Ignore,
                                },
                            ),
                        );
                    },
                    None => {
                        push_steps(&mut steps, no_steps());
                    },
                }
            }
            let mut edits: Vec<StateEdit> = Vec::new();
            edits.push(StateEdit::Path(paths::relative(&doc, &ctx.store.root)));
            let ghost first = text::views(edits@);
            let mut more = setup.edits;
            edits.append(&mut more);
            assert(text::views(edits@) =~= first + made.edits);
            assert(first =~= seq![StateEditV::Path(paths::relative_to(doc@, ctx@.store.root))]);
            push_step(&mut steps, Step::EditState { id: task.id.clone(), edits });
            let mut line = String::from_str("started ");
            line.append(&task.id);
            push_say(&mut steps, line);
            plan::complete(steps)
        },
    }
}

// ---------------------------------------------------------------------------
// Pull requests
// ---------------------------------------------------------------------------

/// The branch that the pull request of an active task is opened from.
pub open spec fn pr_branch(c: CtxV, t: TaskRefV) -> Seq<char> {
    match t.doc.front.branch {
        Some(b) => b,
        None => match state::state_from(c.store.states, t.id, 0).branch {
            Some(b) => b,
            None => t.slug,
        },
    }
}

/// The branch that the pull request of an active task is opened from: its own, the
/// recorded one, or its slug.
pub fn pr_branch_name(ctx: &Ctx, task: &TaskRef) -> (r: String)
    ensures
        r@ == pr_branch(ctx@, task@),
{
    match &task.doc.front.branch {
        Some(b) => b.clone(),
        None => match state::load(&ctx.store, &task.id).branch {
            Some(b) => b,
            None => task.slug.clone(),
        },
    }
}

/// The document that a change of a task goes to: that of the first task with its id.
pub open spec fn doc_of(s: StoreV, t: TaskRefV) -> Seq<char> {
    match store::with_id_from(store::all_tasks(s), t.id, 0) {
        Some(f) => f.path,
        None => t.path,
    }
}

/// The document that a change of a task goes to.
fn doc_place(s: &Store, task: &TaskRef) -> (r: String)
    ensures
        r@ == doc_of(s@, task@),
{
    match s.find_by_id(&task.id) {
        Some(f) => f.path,
        None => task.path.clone(),
    }
}

/// What `rein pr` does. `exists` says whether the branch is there already.
pub open spec fn pr_created(
    c: CtxV,
    query: Option<Seq<char>>,
    worktree: bool,
    exists: bool,
) -> OutcomeV {
    match lifecycle::target_of(c, query) {
        Err(e) => plan::refusal(e),
        Ok(t) => match t.doc.front.github_pr {
            Some(pr) => plan::refusal(
                lifecycle::numbered_text("'"@ + t.slug + "' already has PR #"@, pr),
            ),
            None => match t.status {
                Status::Inbox => started(
                    c,
                    t.slug,
                    worktree,
                    if worktree {
                        None
                    } else {
                        Some(t.slug)
                    },
                    true,
                    exists,
                    None,
                ),
                Status::Active => {
                    let branch = pr_branch(c, t);
                    let bound = state::state_from(c.store.states, t.id, 0).branch is Some;
                    let setup = if bound {
                        SetupV { steps: seq![], edits: seq![] }
                    } else if worktree {
                        worktree_setup(c, t, doc_of(c.store, t), branch)
                    } else {
                        branch_setup(c, doc_of(c.store, t), branch)
                    };
                    if !bound && exists {
                        plan::refusal(taken_message(branch))
                    } else {
                        plan::completed(
                            setup.steps.push(StepV::OpenPr { id: t.id, branch }).push(
                                StepV::EditState { id: t.id, edits: setup.edits },
                            ),
                        )
                    }
                },
                _ => plan::refusal(
                    "'"@ + t.slug + "' is "@ + t.status.name()
                        + " — only inbox/active tasks can open a PR"@,
                ),
            },
        },
    }
}

/// Open a draft PR for a task, from the dashboard or `rein pr`. Inbox tasks are
/// claimed and set up exactly like `start` (worktree or main-repo branch per
/// `worktree`); active tasks reuse their bound branch, or get one set up if they
/// have none. Refuses if a PR is already attached.
pub fn create_pr(ctx: &Ctx, query: Option<&str>, worktree: bool, exists: bool) -> (r: Outcome)
    ensures
        r@ == pr_created(ctx@, projects::str_view(query), worktree, exists),
{
    match target(ctx, query) {
        Err(e) => refuse(e),
        Ok(task) => {
            match task.doc.front.github_pr {
                Some(pr) => {
                    let mut m = String::from_str("'");
                    m.append(&task.slug);
                    m.append("' already has PR #");
                    return refuse(with_number(&m, pr));
                },
                None => {},
            }
            match task.status {
                // inbox → delegate to start, which claims + sets up + opens the PR in one go
                Status::Inbox => {
                    let slug = task.slug.clone();
                    if worktree {
                        start(ctx, &slug, true, None, true, exists, &None)
                    } else {
                        start(ctx, &slug, false, Some(slug.as_str()), true, exists, &None)
                    }
                },
                Status::Active => {
                    // active: reuse the bound branch, else set one up per the chosen mode
                    let branch = pr_branch_name(ctx, &task);
                    let bound = state::load(&ctx.store, &task.id).branch.is_some();
                    if !bound {
                        match ensure_branch_free(&branch, exists) {
                            Err(e) => {
                                return refuse(e);
                            },
                            Ok(_) => {},
                        }
                    }
                    let setup = if bound {
                        let steps = no_steps();
                        let edits: Vec<StateEdit> = Vec::new();
                        let s = Setup { steps, edits };
                        assert(s@.edits =~= seq![]);
                        assert(s@.steps =~= seq![]);
                        s
                    } else if worktree {
                        setup_worktree(ctx, &task, &doc_place(&ctx.store, &task), &branch)
                    } else {
                        setup_branch(ctx, &doc_place(&ctx.store, &task), &branch)
                    };
                    let mut steps = setup.steps;
                    push_step(&mut steps, Step::OpenPr { id: task.id.clone(), branch });
                    push_step(
                        &mut steps,
                        Step::EditState { id: task.id.clone(), edits: setup.edits },
                    );
                    plan::complete(steps)
                },
                _ => refuse_status(&task, " — only inbox/active tasks can open a PR"),
            }
        },
    }
}

/// The refusal of a pull request without commits.
pub open spec fn empty_message(branch: Seq<char>, base: Seq<char>) -> Seq<char> {
    "no commits on '"@ + branch + "' yet — nothing to open a PR against '"@ + base
        + "'. Commit your work first, then run `rein pr` again."@
}

/// Why no pull request can be opened: a branch other than the one that it would target has
/// no commits of its own.
pub open spec fn lacks_commits(branch: Seq<char>, base: Option<Seq<char>>, ahead: u64) -> Option<
    Seq<char>,
> {
    match base {
        Some(b) => if b != branch && ahead == 0 {
            Some(empty_message(branch, b))
        } else {
            None
        },
        None => None,
    }
}

/// GitHub rejects a PR with no diff; warn instead of letting `gh` fail cryptically.
/// `base` is the branch that the pull request would target, `ahead` counts the
/// commits on `branch` that it lacks.
pub fn check_commits(branch: &str, base: &Option<String>, ahead: u64) -> (r: Result<(), String>)
    ensures
        match r {
            Ok(_) => lacks_commits(branch@, text::opt_view(*base), ahead) is None,
            Err(e) => lacks_commits(branch@, text::opt_view(*base), ahead) == Some(e@),
        },
{
    match base {
        Some(b) => {
            if !text::same(b, branch) && ahead == 0 {
                let mut m = String::from_str("no commits on '");
                m.append(branch);
                m.append("' yet — nothing to open a PR against '");
                m.append(b);
                m.append("'. Commit your work first, then run `rein pr` again.");
                return Err(m);
            }
            Ok(())
        },
        None => Ok(()),
    }
}

/// The body of a new pull request, and the hash that it leaves as a baseline. When
/// the task is already linked to an issue, the issue holds the full managed task
/// description — so the PR body is just `resolves #<n>`. With no issue, the PR body
/// carries the full projection and seeds the sync baseline.
pub open spec fn pr_body(t: TaskRefV) -> (Seq<char>, Option<Seq<char>>) {
    match t.doc.front.github_issue {
        Some(issue) => (lifecycle::numbered_text("resolves #"@, issue), None),
        None => (managed::pr_block(t.doc), Some(sync::hash_of(managed::pr_block(t.doc)))),
    }
}

/// The body of a new pull request, and the hash that it leaves as a baseline.
fn body_for_pr(task: &TaskRef) -> (r: (String, Option<String>))
    ensures
        (r.0@, text::opt_view(r.1)) == pr_body(task@),
{
    match task.doc.front.github_issue {
        Some(issue) => (with_number("resolves #", issue), None),
        None => {
            let projection = task::pr_projection(&task.doc);
            let hash = sync::hash_block(&projection);
            (projection, Some(hash))
        },
    }
}

/// The step that pushes a branch.
pub open spec fn branch_push(c: CtxV, branch: Seq<char>) -> StepV {
    StepV::Git {
        call: GitCallV {
            dir: c.repo.workdir,
            args: seq!["push"@, "-u"@, "origin"@, branch],
        },
        context: Some("git push failed"@),
    }
}

/// The call that opens a draft pull request.
pub open spec fn draft_call(t: TaskRefV, branch: Seq<char>) -> GhCallV {
    GhCallV {
        args: seq![
            "pr"@,
            "create"@,
            "--draft"@,
            "--title"@,
            t.doc.front.title,
            "--body-file"@,
            "-"@,
            "--head"@,
            branch,
        ],
        stdin: Some(pr_body(t).0),
    }
}

/// The calls that open a draft pull request: the branch is pushed first, so that
/// `gh pr create --head` can find it on the remote.
pub fn create_draft_pr(ctx: &Ctx, task: &TaskRef, branch: &str) -> (r: (Step, GhCall))
    ensures
        r.0@ == branch_push(ctx@, branch@),
        r.1@ == draft_call(task@, branch@),
{
    let (body, _) = body_for_pr(task);
    let push = Step::Git {
        call: ctx.repo.push_branch(branch),
        context: Some(String::from_str("git push failed")),
    };
    (push, Gh::pr_create_draft(&task.doc.front.title, &body, branch))
}

/// What is done once a pull request is open.
pub open spec fn opened(t: TaskRefV, number: u64) -> Seq<StepV> {
    seq![
        StepV::EditFront { path: t.path, edit: FrontEditV::Pr(number) },
        StepV::EditState { id: t.id, edits: seq![StateEditV::PrHash(pr_body(t).1)] },
    ] + (match t.doc.front.github_issue {
        Some(issue) => seq![
            StepV::Gh {
                call: gh::comment_call(
                    issue,
                    lifecycle::numbered_text("Started in PR #"@, number),
                ),
                on_fail: OnFailV::Ignore,
            },
        ],
        None => Seq::<StepV>::empty(),
    }) + seq![StepV::Say(lifecycle::numbered_text("draft PR: #"@, number))]
}

/// Records a pull request that was opened: in the document, in the sync baseline,
/// and on the linked issue.
pub fn pr_opened(task: &TaskRef, number: u64) -> (r: Vec<Step>)
    ensures
        text::views(r@) == opened(task@, number),
{
    let (_, hash) = body_for_pr(task);
    let mut edits: Vec<StateEdit> = Vec::new();
    edits.push(StateEdit::PrHash(hash));
    assert(text::views(edits@) =~= seq![StateEditV::PrHash(pr_body(task@).1)]);
    let mut steps = one_step(
        Step::EditFront { path: task.path.clone(), edit: FrontEdit::Pr(number) },
    );
    push_step(&mut steps, Step::EditState { id: task.id.clone(), edits });
    match task.doc.front.github_issue {
        Some(issue) => {
            push_step(
                &mut steps,
                Step::Gh {
                    call: Gh::issue_comment(issue, &with_number("Started in PR #", number)),
                    on_fail: OnFail::Ignore,
                },
            );
        },
        None => {},
    }
    push_say(&mut steps, with_number("draft PR: #", number));
    assert(text::views(steps@) =~= opened(task@, number));
    steps
}

} // verus!
