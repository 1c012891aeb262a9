//! Laws of moving, finishing, canceling and deleting a task: where its document goes, what
//! is published, and what is forgotten.
use crate::commands::effects;
use crate::commands::lifecycle::{self, WorktreeInfoV};
use crate::commands::plan::{self, OnFailV, StateEditV, StepV};
use crate::commands::storing;
use crate::ctx::CtxV;
use crate::gh::GhCallV;
use crate::gitx::GitCallV;
use crate::paths;
use crate::state::{self, TaskStateV};
use crate::store::{self, Status, TaskRefV};
use crate::sync;
use crate::task::doc::FrontmatterV;
use crate::text;
use vstd::prelude::*;
use vstd::string::*;

verus! {

/// Where the document of a task is kept in a status: in the directory of the status, and
/// there in that of the month where the task is done.
pub open spec fn kept_at(
    root: Seq<char>,
    slug: Seq<char>,
    to: Status,
    month: Seq<char>,
    path: Seq<char>,
) -> bool {
    let name = slug + ".md"@;
    match to {
        Status::Done => path == paths::joined_path(
            paths::joined_path(paths::joined_path(root, "done"@), month),
            name,
        ),
        Status::Inbox => path == paths::joined_path(paths::joined_path(root, "inbox"@), name),
        Status::Active => path == paths::joined_path(paths::joined_path(root, "active"@), name),
        Status::Canceled => path == paths::joined_path(
            paths::joined_path(root, "canceled"@),
            name,
        ),
    }
}

/// The name of a status, in the frontmatter and of its directory.
pub open spec fn status_name(to: Status) -> Seq<char> {
    match to {
        Status::Inbox => "inbox"@,
        Status::Active => "active"@,
        Status::Done => "done"@,
        Status::Canceled => "canceled"@,
    }
}

/// Steps take the document of a task from where it is to where a status keeps it, and set
/// its status there; nothing else of its frontmatter changes.
pub open spec fn takes_to(
    steps: Seq<StepV>,
    root: Seq<char>,
    t: TaskRefV,
    to: Status,
    month: Seq<char>,
    dest: Seq<char>,
) -> bool {
    &&& kept_at(root, t.slug, to, month, dest)
    &&& steps.len() > 0
    &&& steps[0] == (StepV::MoveDoc { from: t.path, to: dest, slug: t.slug })
    &&& effects::front_after(steps, dest, t.doc.front) == (FrontmatterV {
        status: status_name(to),
        ..t.doc.front
    })
}

/// The first steps of a move.
proof fn lemma_move(
    root: Seq<char>,
    t: TaskRefV,
    to: Status,
    month: Seq<char>,
    rest: Seq<StepV>,
)
    requires
        forall|i: int| 0 <= i < rest.len() ==> !(#[trigger] rest[i] is EditFront),
    ensures
        ({
            let all = storing::move_steps(root, t, to, month) + rest;
            &&& takes_to(all, root, t, to, month, storing::moved_path(root, t.slug, to, month))
            &&& effects::git_calls(all) == effects::git_calls(rest)
            &&& effects::gh_calls(all) == effects::gh_calls(rest)
            &&& effects::printed(all) == effects::printed(rest)
            &&& forall|id: Seq<char>, st: TaskStateV| #[trigger]
                effects::state_after(all, id, st) == effects::state_after(rest, id, st)
        }),
{
    let x = storing::move_steps(root, t, to, month);
    let dest = storing::moved_path(root, t.slug, to, month);
    let e = Seq::<StepV>::empty();
    effects::lemma_few();
    effects::lemma_push(e, x[0]);
    effects::lemma_push(e.push(x[0]), x[1]);
    assert(x =~= e.push(x[0]).push(x[1]));
    effects::lemma_concat(x, rest);
    lemma_front_stays(rest, dest, FrontmatterV { status: to.name(), ..t.doc.front });
    assert(effects::git_calls(x) + effects::git_calls(rest) =~= effects::git_calls(rest));
    assert(effects::gh_calls(x) + effects::gh_calls(rest) =~= effects::gh_calls(rest));
    assert(effects::printed(x) + effects::printed(rest) =~= effects::printed(rest));
    assert((x + rest)[0] == x[0]);
}

/// Steps that edit no frontmatter leave it.
proof fn lemma_front_stays(steps: Seq<StepV>, path: Seq<char>, f: FrontmatterV)
    requires
        forall|i: int| 0 <= i < steps.len() ==> !(#[trigger] steps[i] is EditFront),
    ensures
        effects::front_after(steps, path, f) == f,
    decreases steps.len(),
{
    if steps.len() > 0 {
        let d = steps.drop_last();
        assert forall|i: int| 0 <= i < d.len() implies !(#[trigger] d[i] is EditFront) by {
            assert(d[i] == steps[i]);
        }
        lemma_front_stays(d, path, f);
        assert(!(steps[steps.len() - 1] is EditFront));
    }
}

// ---------------------------------------------------------------------------
// move
// ---------------------------------------------------------------------------

/// A plain move takes the document to the directory of the status that was named, sets
/// the status in its frontmatter and its path in its state, and does nothing else. A
/// status that is no status, and that the task has, is refused.
pub proof fn law_a_move_goes_where_it_was_sent(
    c: CtxV,
    query: Seq<char>,
    to: Status,
    month: Seq<char>,
    t: TaskRefV,
    st: TaskStateV,
)
    requires
        store::found(store::all_tasks(c.store), query) == Ok::<TaskRefV, Seq<char>>(t),
    ensures
        ({
            let o = lifecycle::moved(c, query, status_name(to), month);
            let dest = o.steps[0]->to;
            if t.status == to {
                o.error is Some && o.steps.len() == 0
            } else {
                &&& o.error is None
                &&& takes_to(o.steps, c.store.root, t, to, month, dest)
                &&& effects::state_after(o.steps, t.id, st) == (TaskStateV {
                    path: paths::relative_to(dest, c.store.root),
                    ..st
                })
                &&& effects::git_calls(o.steps).len() == 0
                &&& effects::gh_calls(o.steps).len() == 0
            }
        }),
{
    reveal_strlit("inbox");
    reveal_strlit("active");
    reveal_strlit("done");
    reveal_strlit("canceled");
    assert("inbox"@[0] != "active"@[0]);
    assert("done"@[0] != "canceled"@[0]);
    assert("inbox"@.len() != "done"@.len());
    assert("active"@.len() != "done"@.len());
    assert("inbox"@[0] != "canceled"@[0]);
    assert("active"@[0] != "canceled"@[0]);
    assert(Status::named(status_name(to)) == Some(to));
    if t.status != to {
        let o = lifecycle::moved(c, query, status_name(to), month);
        let m = storing::move_steps(c.store.root, t, to, month);
        let rest = o.steps.skip(2);
        let e = Seq::<StepV>::empty();
        assert(o.steps =~= m + rest);
        assert(rest =~= e.push(rest[0]).push(rest[1]));
        effects::lemma_few();
        effects::lemma_push(e, rest[0]);
        effects::lemma_push(e.push(rest[0]), rest[1]);
        lemma_move(c.store.root, t, to, month, rest);
        let p = lifecycle::moved_rel(c.store, t, to, month);
        effects::lemma_edits(st, StateEditV::Path(p), StateEditV::Path(p), StateEditV::Path(p));
        assert(rest[0] == (StepV::EditState { id: t.id, edits: seq![StateEditV::Path(p)] }));
        assert(rest[1] is Say);
    }
}

// ---------------------------------------------------------------------------
// done, cancel
// ---------------------------------------------------------------------------

/// A task that can end: it is there, it has not ended yet, and its worktree is not at
/// stake.
pub open spec fn can_end(
    c: CtxV,
    query: Option<Seq<char>>,
    t: TaskRefV,
    wt: Option<WorktreeInfoV>,
    keep: bool,
    force: bool,
) -> bool {
    &&& lifecycle::target_of(c, query) == Ok::<TaskRefV, Seq<char>>(t)
    &&& t.status == Status::Inbox || t.status == Status::Active
    &&& wt matches Some(i) ==> (!i.dirty || keep || force)
}

/// The one git call that removes a worktree, where there is one and it is not kept.
pub open spec fn removes(c: CtxV, wt: Option<WorktreeInfoV>, keep: bool, force: bool) -> Seq<
    GitCallV,
> {
    match wt {
        Some(i) => if keep {
            seq![]
        } else {
            seq![
                GitCallV {
                    dir: c.repo.workdir,
                    args: if force {
                        seq!["worktree"@, "remove"@, "--force"@, i.path]
                    } else {
                        seq!["worktree"@, "remove"@, i.path]
                    },
                },
            ]
        },
        None => seq![],
    }
}

/// What the steps of an end leave behind.
pub open spec fn ends(
    c: CtxV,
    t: TaskRefV,
    to: Status,
    wt: Option<WorktreeInfoV>,
    keep: bool,
    force: bool,
    month: Seq<char>,
    st: TaskStateV,
    steps: Seq<StepV>,
) -> bool {
    let after = effects::state_after(steps, t.id, st);
    &&& takes_to(steps, c.store.root, t, to, month, steps[0]->to)
    &&& effects::git_calls(steps) == removes(c, wt, keep, force)
    &&& after.worktree == if keep {
        st.worktree
    } else {
        None
    }
    &&& after == (TaskStateV { path: after.path, worktree: after.worktree, ..st })
    &&& storing::found_moved(c.store, t, to, month) matches Some(f) ==> after.path
        == paths::relative_to(f.path, c.store.root)
    &&& steps.contains(StepV::RemoveIfThere(paths::joined_path(c.store.root, "current"@)))
        <==> store::current_of(c.store) == Some(t.id)
}

/// What the steps of an end leave behind, given what is published.
proof fn lemma_ending(
    c: CtxV,
    t: TaskRefV,
    to: Status,
    publishes: Seq<StepV>,
    wt: Option<WorktreeInfoV>,
    keep: bool,
    force: bool,
    month: Seq<char>,
    said: Seq<char>,
    st: TaskStateV,
)
    requires
        publishes.len() <= 1,
        publishes.len() == 1 ==> publishes[0] is Gh || publishes[0] is FinalPr,
    ensures
        ({
            let steps = lifecycle::ending(c, t, to, publishes, wt, keep, force, month, said);
            &&& ends(c, t, to, wt, keep, force, month, st, steps)
            &&& effects::gh_calls(steps) == effects::gh_calls(publishes)
            &&& forall|i: int| 0 <= i < publishes.len() ==> steps.contains(#[trigger] publishes[i])
        }),
{
    let all = lifecycle::ending(c, t, to, publishes, wt, keep, force, month, said);
    let m = storing::move_steps(c.store.root, t, to, month);
    let gone = lifecycle::removal(c, wt, keep, force);
    let unset = lifecycle::unset_current(c.store, t.id);
    let edit = StepV::EditState {
        id: t.id,
        edits: lifecycle::ended_edits(
            c.store.root,
            storing::found_moved(c.store, t, to, month),
            keep,
        ),
    };
    let say = StepV::Say(said + t.id);
    let mid = publishes + gone + unset;
    let rest = mid.push(edit).push(say);
    assert(all =~= m + rest);
    let e = Seq::<StepV>::empty();
    effects::lemma_few();
    // what is published
    if publishes.len() == 1 {
        assert(publishes =~= e.push(publishes[0]));
        effects::lemma_push(e, publishes[0]);
    } else {
        assert(publishes =~= e);
    }
    // the worktree
    if gone.len() == 2 {
        effects::lemma_push(e, gone[0]);
        effects::lemma_push(e.push(gone[0]), gone[1]);
        assert(gone =~= e.push(gone[0]).push(gone[1]));
    } else {
        assert(gone =~= e);
    }
    assert(effects::git_calls(gone) =~= removes(c, wt, keep, force));
    // the current task
    if unset.len() == 1 {
        effects::lemma_push(e, unset[0]);
        assert(unset =~= e.push(unset[0]));
    } else {
        assert(unset =~= e);
    }
    effects::lemma_concat(publishes, gone);
    effects::lemma_concat(publishes + gone, unset);
    effects::lemma_push(mid, edit);
    effects::lemma_push(mid.push(edit), say);
    assert(effects::git_calls(publishes) =~= Seq::<GitCallV>::empty());
    assert(effects::git_calls(rest) =~= removes(c, wt, keep, force));
    assert(effects::gh_calls(rest) =~= effects::gh_calls(publishes));
    lemma_move(c.store.root, t, to, month, rest);
    let edits = lifecycle::ended_edits(
        c.store.root,
        storing::found_moved(c.store, t, to, month),
        keep,
    );
    let w = StateEditV::Worktree(None);
    match storing::found_moved(c.store, t, to, month) {
        Some(f) => {
            let p = StateEditV::Path(paths::relative_to(f.path, c.store.root));
            if keep {
                effects::lemma_edits(st, p, p, p);
                assert(edits =~= seq![p]);
            } else {
                effects::lemma_edits(st, w, p, p);
                assert(edits =~= seq![w, p]);
            }
        },
        None => {
            effects::lemma_edits(st, w, w, w);
            if keep {
                assert(edits =~= Seq::<StateEditV>::empty());
            } else {
                assert(edits =~= seq![w]);
            }
        },
    }
    assert(effects::state_after(mid, t.id, st) == st);
    assert(effects::state_after(rest, t.id, st) == plan::edited_all(st, edits));
    let clear = StepV::RemoveIfThere(paths::joined_path(c.store.root, "current"@));
    if unset.len() == 1 {
        assert(all[(m.len() + publishes.len() + gone.len()) as int] == clear);
    }
    assert forall|i: int| 0 <= i < publishes.len() implies all.contains(#[trigger] publishes[i]) by {
        assert(all[m.len() + i] == publishes[i]);
    }
}

/// A finished task is kept with those that are done, in the month, and says so; its
/// worktree is removed and forgotten unless it is kept; it is no longer the current one.
/// Its issue is closed as completed; where it has only a pull request, that gets its final
/// state.
pub proof fn law_done_finishes_the_task(
    c: CtxV,
    query: Option<Seq<char>>,
    keep: bool,
    wt: Option<WorktreeInfoV>,
    month: Seq<char>,
    t: TaskRefV,
    st: TaskStateV,
)
    requires
        can_end(c, query, t, wt, keep, false),
    ensures
        ({
            let o = lifecycle::finished(c, query, keep, wt, month);
            &&& o.error is None
            &&& ends(c, t, Status::Done, wt, keep, false, month, st, o.steps)
            &&& match t.doc.front.github_issue {
                Some(n) => {
                    &&& effects::gh_calls(o.steps).len() == 1
                    &&& closes(effects::gh_calls(o.steps)[0], n)
                    &&& !effects::gh_calls(o.steps)[0].args.contains("not planned"@)
                },
                None => effects::gh_calls(o.steps).len() == 0,
            }
            &&& forall|id: Seq<char>, number: u64, on_fail: OnFailV|
                o.steps.contains(#[trigger] final_pr(id, number, on_fail)) ==> id == t.id
                    && t.doc.front.github_issue is None && t.doc.front.github_pr == Some(number)
            &&& t.doc.front.github_issue is None && t.doc.front.github_pr is Some ==> exists|
                on_fail: OnFailV,
            | o.steps.contains(#[trigger] final_pr(t.id, t.doc.front.github_pr.unwrap(), on_fail))
        }),
{
    let p = lifecycle::done_publishes(t);
    let o = lifecycle::finished(c, query, keep, wt, month);
    lemma_ending(c, t, Status::Done, p, wt, keep, false, month, "done "@, st);
    effects::lemma_few();
    if p.len() == 1 {
        effects::lemma_push(Seq::<StepV>::empty(), p[0]);
        assert(p =~= Seq::<StepV>::empty().push(p[0]));
    } else {
        assert(p =~= Seq::<StepV>::empty());
    }
    if let Some(n) = t.doc.front.github_issue {
        lemma_close_words(n, "Completed via rein."@);
    } else if let Some(n) = t.doc.front.github_pr {
        assert(p[0] == final_pr(t.id, n, p[0]->FinalPr_on_fail));
        assert(o.steps.contains(p[0]));
    }
    assert forall|id: Seq<char>, number: u64, on_fail: OnFailV|
        o.steps.contains(#[trigger] final_pr(id, number, on_fail)) implies id == t.id
        && t.doc.front.github_issue is None && t.doc.front.github_pr == Some(number) by {
        let x = final_pr(id, number, on_fail);
        let i = choose|i: int| 0 <= i < o.steps.len() && o.steps[i] == x;
        let gone = lifecycle::removal(c, wt, keep, false);
        assert(o.steps[i] is FinalPr);
        if i >= 2 && i < 2 + p.len() {
            assert(o.steps[i] == p[i - 2]);
        } else if i >= 2 + p.len() && i < 2 + p.len() + gone.len() {
            assert(o.steps[i] == gone[i - 2 - p.len()]);
        } else if i >= 2 + p.len() + gone.len() {
            let unset = lifecycle::unset_current(c.store, t.id);
            if i < 2 + p.len() + gone.len() + unset.len() {
                assert(o.steps[i] == unset[i - 2 - p.len() - gone.len()]);
            }
        }
    }
}

/// The step that publishes the final state of a task to a pull request.
pub open spec fn final_pr(id: Seq<char>, number: u64, on_fail: OnFailV) -> StepV {
    StepV::FinalPr { id, number, on_fail }
}

/// A call that closes an issue.
pub open spec fn closes(call: GhCallV, n: u64) -> bool {
    &&& call.args.len() >= 3
    &&& call.args[0] == "issue"@
    &&& call.args[1] == "close"@
    &&& call.args[2] == text::decimal(n as nat)
}

/// The words of the call that closes an issue as completed.
proof fn lemma_close_words(n: u64, comment: Seq<char>)
    requires
        comment == "Completed via rein."@,
    ensures
        !crate::gh::close_call(n, false, comment).args.contains("not planned"@),
{
    reveal_strlit("not planned");
    reveal_strlit("issue");
    reveal_strlit("close");
    reveal_strlit("--comment");
    reveal_strlit("Completed via rein.");
    text::lemma_decimal(n as nat);
    let a = crate::gh::close_call(n, false, comment).args;
    let w = "not planned"@;
    assert(a[0].len() == 5 && a[1].len() == 5 && a[3].len() == 9 && a[4].len() == 19);
    assert(w.len() == 11);
    assert(w[0] == 'n');
    assert(a[2] != w) by {
        assert('0' <= a[2][0] <= '9');
    }
    assert forall|i: int| 0 <= i < a.len() implies a[i] != w by {
        assert(i == 0 || i == 1 || i == 2 || i == 3 || i == 4);
    }
}

/// A canceled task is kept with those that are canceled, and says so; its worktree is
/// removed and forgotten unless it is kept; it is no longer the current one. Its issue is
/// closed as not planned, and nothing else of it is published.
pub proof fn law_cancel_ends_the_task(
    c: CtxV,
    query: Option<Seq<char>>,
    keep: bool,
    force: bool,
    wt: Option<WorktreeInfoV>,
    month: Seq<char>,
    t: TaskRefV,
    st: TaskStateV,
)
    requires
        can_end(c, query, t, wt, keep, force),
    ensures
        ({
            let o = lifecycle::canceled(c, query, keep, force, wt, month);
            &&& o.error is None
            &&& ends(c, t, Status::Canceled, wt, keep, force, month, st, o.steps)
            &&& match t.doc.front.github_issue {
                Some(n) => {
                    &&& effects::gh_calls(o.steps).len() == 1
                    &&& closes(effects::gh_calls(o.steps)[0], n)
                    &&& effects::gh_calls(o.steps)[0].args.contains("not planned"@)
                },
                None => effects::gh_calls(o.steps).len() == 0,
            }
        }),
{
    let p = lifecycle::cancel_publishes(t);
    lemma_ending(c, t, Status::Canceled, p, wt, keep, force, month, "canceled "@, st);
    effects::lemma_few();
    if p.len() == 1 {
        effects::lemma_push(Seq::<StepV>::empty(), p[0]);
        assert(p =~= Seq::<StepV>::empty().push(p[0]));
    } else {
        assert(p =~= Seq::<StepV>::empty());
    }
    if let Some(n) = t.doc.front.github_issue {
        let a = crate::gh::close_call(n, true, "Canceled via rein."@).args;
        assert(a[6] == "not planned"@);
    }
}

/// A task that has ended does not end again.
pub proof fn law_an_ended_task_does_not_end_again(
    c: CtxV,
    query: Option<Seq<char>>,
    keep: bool,
    force: bool,
    wt: Option<WorktreeInfoV>,
    month: Seq<char>,
    t: TaskRefV,
)
    requires
        lifecycle::target_of(c, query) == Ok::<TaskRefV, Seq<char>>(t),
        t.status == Status::Done || t.status == Status::Canceled,
    ensures
        lifecycle::finished(c, query, keep, wt, month).error is Some,
        lifecycle::canceled(c, query, keep, force, wt, month).error is Some,
{
}

// ---------------------------------------------------------------------------
// delete
// ---------------------------------------------------------------------------

/// A deletion removes the document of the task, its state, the backups of its conflicts
/// and its worktree; it is no longer the current one. No other file is removed.
pub proof fn law_a_deletion_removes_all_of_a_task(
    c: CtxV,
    query: Seq<char>,
    force: bool,
    wt: Option<WorktreeInfoV>,
    t: TaskRefV,
)
    requires
        store::found(store::all_tasks(c.store), query) == Ok::<TaskRefV, Seq<char>>(t),
        wt matches Some(i) ==> (!i.dirty || force),
    ensures
        ({
            let o = lifecycle::deleted(c, query, force, wt);
            let root = c.store.root;
            &&& o.error is None
            &&& effects::git_calls(o.steps) == removes(c, wt, false, force)
            &&& forall|p: Seq<char>| #[trigger] o.steps.contains(StepV::Remove(p)) <==> p == t.path
            &&& o.steps.contains(StepV::RemoveIfThere(state::state_path_of(root, t.id)))
            &&& o.steps.contains(
                StepV::RemoveQuietly(sync::backup_path(root, t.slug, ".local.md"@)),
            )
            &&& o.steps.contains(
                StepV::RemoveQuietly(sync::backup_path(root, t.slug, ".remote.md"@)),
            )
            &&& store::current_of(c.store) == Some(t.id) ==> o.steps.contains(
                StepV::RemoveIfThere(paths::joined_path(root, "current"@)),
            )
        }),
{
    let o = lifecycle::deleted(c, query, force, wt);
    let root = c.store.root;
    let gone = lifecycle::removal(c, wt, false, force);
    let unset = lifecycle::unset_current(c.store, t.id);
    let records = o.steps.subrange(gone.len() as int, gone.len() as int + 4);
    let say = StepV::Say("deleted "@ + t.id);
    let e = Seq::<StepV>::empty();
    effects::lemma_few();
    if gone.len() == 2 {
        effects::lemma_push(e, gone[0]);
        effects::lemma_push(e.push(gone[0]), gone[1]);
        assert(gone =~= e.push(gone[0]).push(gone[1]));
    } else {
        assert(gone =~= e);
    }
    assert(effects::git_calls(gone) =~= removes(c, wt, false, force));
    effects::lemma_push(e, records[0]);
    effects::lemma_push(e.push(records[0]), records[1]);
    effects::lemma_push(e.push(records[0]).push(records[1]), records[2]);
    effects::lemma_push(e.push(records[0]).push(records[1]).push(records[2]), records[3]);
    assert(records =~= e.push(records[0]).push(records[1]).push(records[2]).push(records[3]));
    if unset.len() == 1 {
        effects::lemma_push(e, unset[0]);
        assert(unset =~= e.push(unset[0]));
    } else {
        assert(unset =~= e);
    }
    effects::lemma_concat(gone, records);
    effects::lemma_concat(gone + records, unset);
    effects::lemma_push(gone + records + unset, say);
    assert(o.steps =~= (gone + records + unset).push(say));
    assert(effects::git_calls(o.steps) =~= removes(c, wt, false, force));
    let n = gone.len() as int;
    assert(o.steps[n] == StepV::Remove(t.path));
    assert(o.steps[n + 1] == StepV::RemoveIfThere(state::state_path_of(root, t.id)));
    assert(o.steps[n + 2] == StepV::RemoveQuietly(sync::backup_path(root, t.slug, ".local.md"@)));
    assert(o.steps[n + 3] == StepV::RemoveQuietly(
        sync::backup_path(root, t.slug, ".remote.md"@),
    ));
    if unset.len() == 1 {
        assert(o.steps[n + 4] == unset[0]);
    }
    assert forall|p: Seq<char>| #[trigger] o.steps.contains(StepV::Remove(p)) implies p
        == t.path by {
        let x = StepV::Remove(p);
        let i = choose|i: int| 0 <= i < o.steps.len() && o.steps[i] == x;
        if i < n {
            assert(o.steps[i] == gone[i]);
        } else if i >= n + 4 && i < n + 4 + unset.len() {
            assert(o.steps[i] == unset[i - n - 4]);
        }
    }
}

// ---------------------------------------------------------------------------
// Worktrees
// ---------------------------------------------------------------------------

/// The worktree of a task is the one that its state records, where that is there; it is
/// dirty where git reports anything. Changes that git reports end up in a refusal.
pub proof fn law_a_reported_change_makes_a_worktree_dirty(
    c: CtxV,
    query: Option<Seq<char>>,
    t: TaskRefV,
    exists: bool,
    changes: Seq<char>,
    month: Seq<char>,
)
    requires
        lifecycle::target_of(c, query) == Ok::<TaskRefV, Seq<char>>(t),
    ensures
        ({
            let w = lifecycle::info_for(c.store, t.id, exists, changes);
            let st = state::state_from(c.store.states, t.id, 0);
            &&& w is Some <==> st.worktree is Some && exists
            &&& w matches Some(i) ==> st.worktree == Some(i.path)
            &&& w is Some && changes != Seq::<char>::empty() ==> lifecycle::finished(
                c,
                query,
                false,
                w,
                month,
            ).error is Some
            &&& changes == Seq::<char>::empty() && (t.status == Status::Inbox || t.status
                == Status::Active) ==> lifecycle::finished(c, query, false, w, month).error is None
        }),
{
    if changes.len() == 0 {
        assert(changes =~= Seq::<char>::empty());
    }
}

} // verus!
