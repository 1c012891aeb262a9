//! Commands that move a task through its states: move, done, cancel, delete.
use crate::commands::plan::{self, no_steps, one_step, push_say, push_step, push_steps, refuse};
use crate::commands::plan::{OnFail, OnFailV, Outcome, OutcomeV, StateEdit, StateEditV, Step, StepV};
use crate::commands::storing;
use crate::ctx::{Ctx, CtxV};
use crate::gh::{self, Gh, GhCallV};
use crate::gitx::GitCallV;
use crate::paths;
use crate::projects;
use crate::resolve;
use crate::state;
use crate::store::{self, Status, Store, StoreV, TaskRef, TaskRefV};
use crate::sync;
use crate::task::doc::{self, TaskDocV};
use crate::task::managed;
use crate::task::{self, TaskDoc};
use crate::text;
use vstd::prelude::*;
use vstd::string::*;

verus! {

// ---------------------------------------------------------------------------
// The task of a command
// ---------------------------------------------------------------------------

/// The task that a command is about: the one that is asked for, or the resolved
/// one.
pub open spec fn target_of(c: CtxV, query: Option<Seq<char>>) -> Result<TaskRefV, Seq<char>> {
    match query {
        Some(q) => store::found(store::all_tasks(c.store), q),
        None => match resolve::resolved(c, None) {
            Ok((t, _)) => Ok(t),
            Err(e) => Err(e),
        },
    }
}

/// The task that a command is about.
pub fn target(ctx: &Ctx, query: Option<&str>) -> (r: Result<TaskRef, String>)
    ensures
        store::task_result(r) == target_of(ctx@, projects::str_view(query)),
{
    match query {
        Some(q) => ctx.store.find(q),
        None => match resolve::resolve_task(ctx, None) {
            Ok((t, _)) => Ok(t),
            Err(e) => Err(e),
        },
    }
}

// ---------------------------------------------------------------------------
// Worktrees
// ---------------------------------------------------------------------------

/// The worktree of a task that is there.
#[derive(Debug)]
pub struct WorktreeInfo {
    pub path: String,
    pub dirty: bool,
}

/// What a [`WorktreeInfo`] stands for.
#[verifier::ext_equal]
pub struct WorktreeInfoV {
    pub path: Seq<char>,
    pub dirty: bool,
}

impl View for WorktreeInfo {
    type V = WorktreeInfoV;

    open spec fn view(&self) -> WorktreeInfoV {
        WorktreeInfoV { path: self.path@, dirty: self.dirty }
    }
}

/// What an optional [`WorktreeInfo`] stands for.
pub open spec fn info_view(w: Option<WorktreeInfo>) -> Option<WorktreeInfoV> {
    match w {
        Some(i) => Some(i@),
        None => None,
    }
}

/// The worktree that is recorded for a task.
pub open spec fn recorded_worktree(s: StoreV, id: Seq<char>) -> Option<Seq<char>> {
    state::state_from(s.states, id, 0).worktree
}

/// The worktree that is recorded for a task.
pub fn worktree_of(store: &Store, task_id: &str) -> (r: Option<String>)
    ensures
        text::opt_view(r) == recorded_worktree(store@, task_id@),
{
    state::load(store, task_id).worktree
}

/// What is known of the worktree of a task.
pub open spec fn info_for(s: StoreV, id: Seq<char>, exists: bool, changes: Seq<char>) -> Option<
    WorktreeInfoV,
> {
    match recorded_worktree(s, id) {
        Some(path) => if exists {
            Some(WorktreeInfoV { path, dirty: changes.len() > 0 })
        } else {
            None
        },
        None => None,
    }
}

/// The worktree of a task, where its directory is there: dirty where git reports
/// changes in it.
pub fn worktree_info(store: &Store, task_id: &str, exists: bool, changes: &str) -> (r: Option<
    WorktreeInfo,
>)
    ensures
        info_view(r) == info_for(store@, task_id@, exists, changes@),
{
    match worktree_of(store, task_id) {
        Some(path) => if exists {
            Some(WorktreeInfo { path, dirty: crate::gitx::is_dirty(changes) })
        } else {
            None
        },
        None => None,
    }
}

/// The refusal to lose changes in a worktree.
pub open spec fn dirty_message(path: Seq<char>, advice: Seq<char>) -> Seq<char> {
    "worktree "@ + path + " has uncommitted changes — "@ + advice
}

/// The refusal to lose changes in a worktree.
fn say_dirty(path: &str, advice: &str) -> (r: String)
    ensures
        r@ == dirty_message(path@, advice@),
{
    let mut m = String::from_str("worktree ");
    m.append(path);
    m.append(" has uncommitted changes — ");
    m.append(advice);
    m
}

/// The call that removes a worktree.
pub open spec fn remove_call(workdir: Seq<char>, path: Seq<char>, force: bool) -> GitCallV {
    GitCallV {
        dir: workdir,
        args: if force {
            seq!["worktree"@, "remove"@, "--force"@, path]
        } else {
            seq!["worktree"@, "remove"@, path]
        },
    }
}

/// The steps that remove a worktree, unless it is kept.
pub open spec fn removal(
    c: CtxV,
    wt: Option<WorktreeInfoV>,
    keep: bool,
    force: bool,
) -> Seq<StepV> {
    match wt {
        Some(i) => if keep {
            seq![]
        } else {
            seq![
                StepV::Git { call: remove_call(c.repo.workdir, i.path, force), context: None },
                StepV::Say("removed worktree "@ + i.path),
            ]
        },
        None => seq![],
    }
}

/// The steps that remove a worktree, unless it is kept.
fn remove_worktree(ctx: &Ctx, wt: &Option<WorktreeInfo>, keep: bool, force: bool) -> (r: Vec<Step>)
    ensures
        text::views(r@) == removal(ctx@, info_view(*wt), keep, force),
{
    let mut steps = no_steps();
    match wt {
        Some(i) => {
            if !keep {
                push_step(
                    &mut steps,
                    Step::Git { call: ctx.repo.worktree_remove(&i.path, force), context: None },
                );
                let mut line = String::from_str("removed worktree ");
                line.append(&i.path);
                push_say(&mut steps, line);
            }
        },
        None => {},
    }
    assert(text::views(steps@) =~= removal(ctx@, info_view(*wt), keep, force));
    steps
}

/// The step that unsets the current task, where it is this one.
pub open spec fn unset_current(s: StoreV, id: Seq<char>) -> Seq<StepV> {
    if store::current_of(s) == Some(id) {
        seq![storing::clear_step(s.root)]
    } else {
        seq![]
    }
}

/// The step that unsets the current task, where it is this one.
fn clear_if_current(store: &Store, id: &str) -> (r: Vec<Step>)
    ensures
        text::views(r@) == unset_current(store@, id@),
{
    match store.read_current() {
        Some(cur) => if text::same(&cur, id) {
            one_step(store.clear_current())
        } else {
            no_steps()
        },
        None => no_steps(),
    }
}

// ---------------------------------------------------------------------------
// move (free-form state transition)
// ---------------------------------------------------------------------------

/// Where a moved task is, as its state records it.
pub open spec fn moved_rel(s: StoreV, t: TaskRefV, to: Status, month: Seq<char>) -> Seq<char> {
    paths::relative_to(storing::moved_path(s.root, t.slug, to, month), s.root)
}

/// The steps of a plain move.
pub open spec fn relocated(s: StoreV, t: TaskRefV, to: Status, month: Seq<char>) -> Seq<StepV> {
    storing::move_steps(s.root, t, to, month).push(
        StepV::EditState {
            id: t.id,
            edits: seq![StateEditV::Path(moved_rel(s, t, to, month))],
        },
    )
}

/// Relocate a task to any status — a plain directory move with frontmatter and
/// state-path sync, no GitHub or worktree side effects. Store-only so the TUI
/// can move tasks in any discovered project. The rich forward verbs (`start`,
/// `done`, `cancel`) own the side effects; this is the escape hatch that makes
/// every transition reversible (e.g. reopen a done task back to active).
pub fn relocate(store: &Store, task: &TaskRef, to: Status, month: &str) -> (r: Vec<Step>)
    ensures
        text::views(r@) == relocated(store@, task@, to, month@),
{
    let mut steps = store.move_task(task, to, month);
    let dest = store.dest_of(&task.slug, to, month);
    let mut edits: Vec<StateEdit> = Vec::new();
    edits.push(StateEdit::Path(paths::relative(&dest, &store.root)));
    assert(text::views(edits@) =~= seq![
        StateEditV::Path(moved_rel(store@, task@, to, month@)),
    ]);
    push_step(&mut steps, Step::EditState { id: task.id.clone(), edits });
    steps
}

/// What `rein move` does.
pub open spec fn moved(c: CtxV, query: Seq<char>, status: Seq<char>, month: Seq<char>) -> OutcomeV {
    match Status::named(status) {
        None => plan::refusal(
            "unknown status '"@ + status + "' (inbox|active|done|canceled)"@,
        ),
        Some(to) => match store::found(store::all_tasks(c.store), query) {
            Err(e) => plan::refusal(e),
            Ok(t) => if t.status == to {
                plan::refusal("'"@ + t.slug + "' is already "@ + to.name())
            } else {
                plan::completed(
                    relocated(c.store, t, to, month).push(
                        StepV::Say(
                            "moved "@ + t.slug + " "@ + t.status.name() + " → "@ + to.name(),
                        ),
                    ),
                )
            },
        },
    }
}

/// The refusal of a status that the task has already.
fn already(slug: &str, status: Status) -> (r: Outcome)
    ensures
        r@ == plan::refusal("'"@ + slug@ + "' is already "@ + status.name()),
{
    let mut m = String::from_str("'");
    m.append(slug);
    m.append("' is already ");
    m.append(status.as_str());
    refuse(m)
}

/// `rein move <task> <status>` — move a task between any two states.
pub fn move_to(ctx: &Ctx, query: &str, status: &str, month: &str) -> (r: Outcome)
    ensures
        r@ == moved(ctx@, query@, status@, month@),
{
    match Status::parse(status) {
        None => {
            let mut m = String::from_str("unknown status '");
            m.append(status);
            m.append("' (inbox|active|done|canceled)");
            refuse(m)
        },
        Some(to) => match ctx.store.find(query) {
            Err(e) => refuse(e),
            Ok(t) => {
                if t.status == to {
                    return already(&t.slug, to);
                }
                let mut steps = relocate(&ctx.store, &t, to, month);
                let mut line = String::from_str("moved ");
                line.append(&t.slug);
                line.append(" ");
                line.append(t.status.as_str());
                line.append(" → ");
                line.append(to.as_str());
                push_say(&mut steps, line);
                plan::complete(steps)
            },
        },
    }
}

// ---------------------------------------------------------------------------
// done / cancel
// ---------------------------------------------------------------------------

/// A text with the number of an issue or a pull request.
pub open spec fn numbered_text(s: Seq<char>, n: u64) -> Seq<char> {
    s + text::decimal(n as nat)
}

/// A text with the number of an issue or a pull request.
pub fn with_number(s: &str, n: u64) -> (r: String)
    ensures
        r@ == numbered_text(s@, n),
{
    let mut r = String::from_str(s);
    r.append(&text::format_u64(n));
    r
}

/// The step that closes the issue of a task.
pub open spec fn close_step(issue: u64, not_planned: bool, comment: Seq<char>) -> StepV {
    StepV::Gh {
        call: gh::close_call(issue, not_planned, comment),
        on_fail: OnFailV::Warn(numbered_text("failed to close issue #"@, issue)),
    }
}

/// The step that closes the issue of a task.
fn close_issue(issue: u64, not_planned: bool, comment: &str) -> (r: Step)
    ensures
        r@ == close_step(issue, not_planned, comment@),
{
    Step::Gh {
        call: Gh::issue_close(issue, not_planned, comment),
        on_fail: OnFail::Warn(with_number("failed to close issue #", issue)),
    }
}

/// What a finished task publishes: the final state of its pull request, where no
/// issue holds the task, and the end of its issue.
pub open spec fn done_publishes(t: TaskRefV) -> Seq<StepV> {
    match t.doc.front.github_issue {
        Some(issue) => seq![close_step(issue, false, "Completed via rein."@)],
        None => match t.doc.front.github_pr {
            Some(pr) => seq![
                StepV::FinalPr {
                    id: t.id,
                    number: pr,
                    on_fail: OnFailV::Warn(numbered_text("failed to update PR #"@, pr)),
                },
            ],
            None => seq![],
        },
    }
}

/// What a canceled task publishes: the end of its issue.
pub open spec fn cancel_publishes(t: TaskRefV) -> Seq<StepV> {
    match t.doc.front.github_issue {
        Some(issue) => seq![close_step(issue, true, "Canceled via rein."@)],
        None => seq![],
    }
}

/// The changes of the state of a task that ends: its worktree is forgotten where it
/// is not kept, and the place where the task is found now is recorded.
pub open spec fn ended_edits(root: Seq<char>, found: Option<TaskRefV>, keep: bool) -> Seq<
    StateEditV,
> {
    (if keep {
        seq![]
    } else {
        seq![StateEditV::Worktree(None)]
    }) + (match found {
        Some(f) => seq![StateEditV::Path(paths::relative_to(f.path, root))],
        None => seq![],
    })
}

/// The steps of a task that ends.
pub open spec fn ending(
    c: CtxV,
    t: TaskRefV,
    to: Status,
    publishes: Seq<StepV>,
    wt: Option<WorktreeInfoV>,
    keep: bool,
    force: bool,
    month: Seq<char>,
    said: Seq<char>,
) -> Seq<StepV> {
    (storing::move_steps(c.store.root, t, to, month) + publishes + removal(c, wt, keep, force)
        + unset_current(c.store, t.id)).push(
        StepV::EditState {
            id: t.id,
            edits: ended_edits(
                c.store.root,
                storing::found_moved(c.store, t, to, month),
                keep,
            ),
        },
    ).push(StepV::Say(said + t.id))
}

/// The steps of a task that ends.
fn end_task(
    ctx: &Ctx,
    t: &TaskRef,
    to: Status,
    publishes: Vec<Step>,
    wt: &Option<WorktreeInfo>,
    keep: bool,
    force: bool,
    month: &str,
    said: &str,
) -> (r: Vec<Step>)
    ensures
        text::views(r@) == ending(
            ctx@,
            t@,
            to,
            text::views(publishes@),
            info_view(*wt),
            keep,
            force,
            month@,
            said@,
        ),
{
    let mut steps = ctx.store.move_task(t, to, month);
    push_steps(&mut steps, publishes);
    push_steps(&mut steps, remove_worktree(ctx, wt, keep, force));
    push_steps(&mut steps, clear_if_current(&ctx.store, &t.id));
    let found = ctx.store.find_moved(t, to, month);
    let mut edits: Vec<StateEdit> = Vec::new();
    if !keep {
        edits.push(StateEdit::Worktree(None));
    }
    match &found {
        Some(f) => {
            edits.push(StateEdit::Path(paths::relative(&f.path, &ctx.store.root)));
        },
        None => {},
    }
    assert(text::views(edits@) =~= ended_edits(ctx@.store.root, store::opt_task(found), keep));
    push_step(&mut steps, Step::EditState { id: t.id.clone(), edits });
    let mut line = String::from_str(said);
    line.append(&t.id);
    push_say(&mut steps, line);
    steps
}

/// A task has ended.
pub open spec fn has_ended(t: TaskRefV) -> bool {
    t.status == Status::Done || t.status == Status::Canceled
}

/// The path of a worktree that must not be lost.
pub open spec fn at_stake(wt: Option<WorktreeInfoV>, keep: bool, force: bool) -> Option<
    Seq<char>,
> {
    match wt {
        Some(i) => if i.dirty && !keep && !force {
            Some(i.path)
        } else {
            None
        },
        None => None,
    }
}

/// The path of a worktree that must not be lost.
fn endangered(wt: &Option<WorktreeInfo>, keep: bool, force: bool) -> (r: Option<String>)
    ensures
        text::opt_view(r) == at_stake(info_view(*wt), keep, force),
{
    match wt {
        Some(i) => if i.dirty && !keep && !force {
            Some(i.path.clone())
        } else {
            None
        },
        None => None,
    }
}

/// What `rein done` does.
pub open spec fn finished(
    c: CtxV,
    query: Option<Seq<char>>,
    keep: bool,
    wt: Option<WorktreeInfoV>,
    month: Seq<char>,
) -> OutcomeV {
    match target_of(c, query) {
        Err(e) => plan::refusal(e),
        Ok(t) => if has_ended(t) {
            plan::refusal("'"@ + t.slug + "' is already "@ + t.status.name())
        } else {
            match at_stake(wt, keep, false) {
                Some(path) => plan::refusal(
                    dirty_message(path, "commit/stash and retry, or use --keep-worktree"@),
                ),
                None => plan::completed(
                    ending(
                        c,
                        t,
                        Status::Done,
                        done_publishes(t),
                        wt,
                        keep,
                        false,
                        month,
                        "done "@,
                    ),
                ),
            }
        },
    }
}

/// `rein done`: `wt` is the worktree of the task, where it is there.
pub fn done(
    ctx: &Ctx,
    query: Option<&str>,
    keep_worktree: bool,
    wt: &Option<WorktreeInfo>,
    month: &str,
) -> (r: Outcome)
    ensures
        r@ == finished(ctx@, projects::str_view(query), keep_worktree, info_view(*wt), month@),
{
    match target(ctx, query) {
        Err(e) => refuse(e),
        Ok(t) => {
            match t.status {
                Status::Done | Status::Canceled => {
                    return already(&t.slug, t.status);
                },
                _ => {},
            }
            // pre-flight before any side effect: no half-done states
            match endangered(wt, keep_worktree, false) {
                Some(path) => refuse(
                    say_dirty(&path, "commit/stash and retry, or use --keep-worktree"),
                ),
                None => {
                    let publishes = match t.doc.front.github_issue {
                        Some(issue) => one_step(close_issue(issue, false, "Completed via rein.")),
                        None => match t.doc.front.github_pr {
                            Some(pr) => one_step(
                                Step::FinalPr {
                                    id: t.id.clone(),
                                    number: pr,
                                    on_fail: OnFail::Warn(
                                        with_number("failed to update PR #", pr),
                                    ),
                                },
                            ),
                            None => no_steps(),
                        },
                    };
                    plan::complete(
                        end_task(
                            ctx,
                            &t,
                            Status::Done,
                            publishes,
                            wt,
                            keep_worktree,
                            false,
                            month,
                            "done ",
                        ),
                    )
                },
            }
        },
    }
}

/// What `rein cancel` does.
pub open spec fn canceled(
    c: CtxV,
    query: Option<Seq<char>>,
    keep: bool,
    force: bool,
    wt: Option<WorktreeInfoV>,
    month: Seq<char>,
) -> OutcomeV {
    match target_of(c, query) {
        Err(e) => plan::refusal(e),
        Ok(t) => if has_ended(t) {
            plan::refusal("'"@ + t.slug + "' is already "@ + t.status.name())
        } else {
            match at_stake(wt, keep, force) {
                Some(path) => plan::refusal(
                    dirty_message(path, "use --force to discard, or --keep-worktree"@),
                ),
                None => plan::completed(
                    ending(
                        c,
                        t,
                        Status::Canceled,
                        cancel_publishes(t),
                        wt,
                        keep,
                        force,
                        month,
                        "canceled "@,
                    ),
                ),
            }
        },
    }
}

/// `rein cancel`: `wt` is the worktree of the task, where it is there.
pub fn cancel(
    ctx: &Ctx,
    query: Option<&str>,
    keep_worktree: bool,
    force: bool,
    wt: &Option<WorktreeInfo>,
    month: &str,
) -> (r: Outcome)
    ensures
        r@ == canceled(
            ctx@,
            projects::str_view(query),
            keep_worktree,
            force,
            info_view(*wt),
            month@,
        ),
{
    match target(ctx, query) {
        Err(e) => refuse(e),
        Ok(t) => {
            match t.status {
                Status::Done | Status::Canceled => {
                    return already(&t.slug, t.status);
                },
                _ => {},
            }
            match endangered(wt, keep_worktree, force) {
                Some(path) => refuse(
                    say_dirty(&path, "use --force to discard, or --keep-worktree"),
                ),
                None => {
                    let publishes = match t.doc.front.github_issue {
                        Some(issue) => one_step(close_issue(issue, true, "Canceled via rein.")),
                        None => no_steps(),
                    };
                    plan::complete(
                        end_task(
                            ctx,
                            &t,
                            Status::Canceled,
                            publishes,
                            wt,
                            keep_worktree,
                            force,
                            month,
                            "canceled ",
                        ),
                    )
                },
            }
        },
    }
}

// ---------------------------------------------------------------------------
// The final state of a pull request
// ---------------------------------------------------------------------------

/// The call that rewrites the body of a pull request.
pub open spec fn pr_edit_call(number: u64, body: Seq<char>) -> GhCallV {
    GhCallV {
        args: seq!["pr"@, "edit"@, text::decimal(number as nat), "--body-file"@, "-"@],
        stdin: Some(body),
    }
}

/// What publishing the final state of a task to its pull request does, given the
/// body that the pull request has.
pub open spec fn final_update(d: TaskDocV, id: Seq<char>, pr: u64, remote: Seq<char>) -> OutcomeV {
    match sync::owned_by_other(remote, id) {
        Some(e) => plan::refusal(e),
        None => plan::completed(
            seq![
                StepV::Gh {
                    call: pr_edit_call(pr, managed::with_block(remote, managed::pr_block(d))),
                    on_fail: OnFailV::Abort,
                },
                StepV::EditState {
                    id,
                    edits: seq![StateEditV::PrHash(Some(sync::hash_of(managed::pr_block(d))))],
                },
            ],
        ),
    }
}

/// Publishes the final state of a task to its pull request.
pub fn final_pr_update(doc: &TaskDoc, task_id: &str, pr: u64, remote: &str) -> (r: Outcome)
    ensures
        r@ == final_update(doc@, task_id@, pr, remote@),
{
    match sync::check_ownership(remote, task_id) {
        Err(e) => refuse(e),
        Ok(_) => {
            let block = task::pr_projection(doc);
            let mut steps = no_steps();
            push_step(
                &mut steps,
                Step::Gh {
                    call: Gh::pr_edit_body(pr, &task::replace_managed(remote, &block)),
                    on_fail: OnFail::Abort,
                },
            );
            let mut edits: Vec<StateEdit> = Vec::new();
            edits.push(StateEdit::PrHash(Some(sync::hash_block(&block))));
            assert(text::views(edits@) =~= seq![
                StateEditV::PrHash(Some(sync::hash_of(managed::pr_block(doc@)))),
            ]);
            push_step(&mut steps, Step::EditState { id: String::from_str(task_id), edits });
            assert(text::views(steps@) =~= final_update(doc@, task_id@, pr, remote@).steps);
            plan::complete(steps)
        },
    }
}

// ---------------------------------------------------------------------------
// delete (hard removal)
// ---------------------------------------------------------------------------

/// What `rein delete` does.
pub open spec fn deleted(
    c: CtxV,
    query: Seq<char>,
    force: bool,
    wt: Option<WorktreeInfoV>,
) -> OutcomeV {
    match store::found(store::all_tasks(c.store), query) {
        Err(e) => plan::refusal(e),
        Ok(t) => match at_stake(wt, false, force) {
            Some(path) => plan::refusal(
                dirty_message(path, "use --force to discard, or commit first"@),
            ),
            None => plan::completed(
                (removal(c, wt, false, force) + seq![
                    StepV::Remove(t.path),
                    StepV::RemoveIfThere(state::state_path_of(c.store.root, t.id)),
                    StepV::RemoveQuietly(
                        sync::backup_path(c.store.root, t.slug, ".local.md"@),
                    ),
                    StepV::RemoveQuietly(
                        sync::backup_path(c.store.root, t.slug, ".remote.md"@),
                    ),
                ] + unset_current(c.store, t.id)).push(StepV::Say("deleted "@ + t.id)),
            ),
        },
    }
}

/// `rein delete <task>` — permanently remove a task: its document, derived
/// state, any conflict backups, and its worktree. A local, destructive
/// operation with no GitHub side effects (use `cancel` to also close a linked
/// issue). Refuses a dirty worktree unless `--force`, mirroring `cancel`.
pub fn delete(ctx: &Ctx, query: &str, force: bool, wt: &Option<WorktreeInfo>) -> (r: Outcome)
    ensures
        r@ == deleted(ctx@, query@, force, info_view(*wt)),
{
    match ctx.store.find(query) {
        Err(e) => refuse(e),
        Ok(t) => {
            // pre-flight before any removal so a refusal leaves the task fully intact
            match endangered(wt, false, force) {
                Some(path) => refuse(
                    say_dirty(&path, "use --force to discard, or commit first"),
                ),
                None => {
                    // the worktree goes first (git needs the repo intact), the records after it
                    let mut steps = remove_worktree(ctx, wt, false, force);
                    let mut records = one_step(Step::Remove(t.path.clone()));
                    push_step(
                        &mut records,
                        Step::RemoveIfThere(state::state_path(&ctx.store, &t.id)),
                    );
                    let (local, remote) = sync::conflict_paths(&ctx.store, &t);
                    push_step(&mut records, Step::RemoveQuietly(local));
                    push_step(&mut records, Step::RemoveQuietly(remote));
                    assert(text::views(records@) =~= seq![
                        StepV::Remove(t@.path),
                        StepV::RemoveIfThere(state::state_path_of(ctx@.store.root, t@.id)),
                        StepV::RemoveQuietly(
                            sync::backup_path(ctx@.store.root, t@.slug, ".local.md"@),
                        ),
                        StepV::RemoveQuietly(
                            sync::backup_path(ctx@.store.root, t@.slug, ".remote.md"@),
                        ),
                    ]);
                    push_steps(&mut steps, records);
                    push_steps(&mut steps, clear_if_current(&ctx.store, &t.id));
                    let mut line = String::from_str("deleted ");
                    line.append(&t.id);
                    push_say(&mut steps, line);
                    plan::complete(steps)
                },
            }
        },
    }
}

} // verus!
