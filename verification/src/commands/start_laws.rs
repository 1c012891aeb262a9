//! Laws of starting a task: the branch that is asked for is the branch that is made,
//! recorded and published.
use crate::commands::effects;
use crate::commands::lifecycle;
use crate::commands::plan::{self, OnFailV, StateEditV, StepV};
use crate::commands::start;
use crate::commands::storing;
use crate::ctx::CtxV;
use crate::gh;
use crate::gitx::GitCallV;
use crate::paths;
use crate::state::{self, TaskStateV};
use crate::store::{self, Status, TaskRefV};
use crate::task::doc::FrontmatterV;
use crate::task::managed;
use crate::text;
use crate::write_laws;
use vstd::prelude::*;
use vstd::string::*;

verus! {

/// The one git call that makes a branch: in a worktree of its own below the store, or in
/// the main repository.
pub open spec fn makes_branch(
    c: CtxV,
    slug: Seq<char>,
    worktree: bool,
    branch: Seq<char>,
) -> Seq<GitCallV> {
    let place = paths::joined_path(paths::joined_path(c.store.root, "worktrees"@), slug);
    seq![
        GitCallV {
            dir: c.repo.workdir,
            args: if worktree {
                seq!["worktree"@, "add"@, "-b"@, branch, place]
            } else {
                seq!["switch"@, "-c"@, branch]
            },
        },
    ]
}

/// Where a worktree of a task is.
pub open spec fn place_of(c: CtxV, slug: Seq<char>) -> Seq<char> {
    paths::joined_path(paths::joined_path(c.store.root, "worktrees"@), slug)
}

/// A task of the inbox that can be claimed, and as what it is found then.
pub open spec fn claimable(c: CtxV, query: Seq<char>, t: TaskRefV, f: TaskRefV) -> bool {
    &&& store::found(store::all_tasks(c.store), query) == Ok::<TaskRefV, Seq<char>>(t)
    &&& t.status == Status::Inbox
    &&& start::claimed(c.store, t) == Some(f)
}

/// What the steps of a setup leave behind.
proof fn lemma_worktree_setup(
    c: CtxV,
    t: TaskRefV,
    doc: Seq<char>,
    branch: Seq<char>,
    st: TaskStateV,
    fr: FrontmatterV,
)
    ensures
        ({
            let s = start::worktree_setup(c, t, doc, branch);
            &&& effects::git_calls(s.steps) == makes_branch(c, t.slug, true, branch)
            &&& effects::gh_calls(s.steps).len() == 0
            &&& forall|id: Seq<char>, st: TaskStateV| #[trigger]
                effects::state_after(s.steps, id, st) == st
            &&& effects::front_after(s.steps, doc, fr) == (FrontmatterV {
                branch: Some(branch),
                ..fr
            })
            &&& s.steps.contains(
                StepV::Bind { worktree: place_of(c, t.slug), id: t.id },
            )
        }),
{
    let x = start::worktree_setup(c, t, doc, branch).steps;
    let e = Seq::<StepV>::empty();
    assert(x.len() == 4);
    effects::lemma_few();
    effects::lemma_push(e, x[0]);
    effects::lemma_push(e.push(x[0]), x[1]);
    effects::lemma_push(e.push(x[0]).push(x[1]), x[2]);
    effects::lemma_push(e.push(x[0]).push(x[1]).push(x[2]), x[3]);
    assert(x =~= e.push(x[0]).push(x[1]).push(x[2]).push(x[3]));
    assert(x[1] is Bind);
    assert(effects::git_calls(x) =~= makes_branch(c, t.slug, true, branch));
}

proof fn lemma_branch_setup(
    c: CtxV,
    t: TaskRefV,
    doc: Seq<char>,
    branch: Seq<char>,
    fr: FrontmatterV,
)
    ensures
        ({
            let s = start::branch_setup(c, doc, branch);
            &&& effects::git_calls(s.steps) == makes_branch(c, t.slug, false, branch)
            &&& effects::gh_calls(s.steps).len() == 0
            &&& forall|id: Seq<char>, st: TaskStateV| #[trigger]
                effects::state_after(s.steps, id, st) == st
            &&& effects::front_after(s.steps, doc, fr) == (FrontmatterV {
                branch: Some(branch),
                ..fr
            })
        }),
{
    let x = start::branch_setup(c, doc, branch).steps;
    let e = Seq::<StepV>::empty();
    assert(x.len() == 2);
    effects::lemma_few();
    effects::lemma_push(e, x[0]);
    effects::lemma_push(e.push(x[0]), x[1]);
    assert(x =~= e.push(x[0]).push(x[1]));
    assert(effects::git_calls(x) =~= makes_branch(c, t.slug, false, branch));
}

proof fn lemma_single_setup(doc: Seq<char>, current: Option<Seq<char>>, fr: FrontmatterV)
    ensures
        ({
            let s = start::single_setup(doc, current);
            &&& effects::git_calls(s.steps).len() == 0
            &&& effects::gh_calls(s.steps).len() == 0
            &&& forall|id: Seq<char>, st: TaskStateV| #[trigger]
                effects::state_after(s.steps, id, st) == st
            &&& effects::front_after(s.steps, doc, fr).branch == if current is Some {
                current
            } else {
                fr.branch
            }
        }),
{
    let x = start::single_setup(doc, current).steps;
    let e = Seq::<StepV>::empty();
    effects::lemma_few();
    if current is Some {
        effects::lemma_push(e, x[0]);
        assert(x =~= e.push(x[0]));
    } else {
        assert(x =~= e);
    }
}

/// Moving a document changes neither a recorded state nor a recorded branch, and calls
/// nothing.
proof fn lemma_move_steps(root: Seq<char>, t: TaskRefV, to: Status, month: Seq<char>)
    ensures
        ({
            let x = storing::move_steps(root, t, to, month);
            &&& effects::git_calls(x).len() == 0
            &&& effects::gh_calls(x).len() == 0
            &&& forall|id: Seq<char>, st: TaskStateV| #[trigger]
                effects::state_after(x, id, st) == st
            &&& forall|at: Seq<char>, f: FrontmatterV| #[trigger]
                effects::front_after(x, at, f).branch == f.branch
        }),
{
    let x = storing::move_steps(root, t, to, month);
    let e = Seq::<StepV>::empty();
    assert(x.len() == 2);
    effects::lemma_few();
    effects::lemma_push(e, x[0]);
    effects::lemma_push(e.push(x[0]), x[1]);
    assert(x =~= e.push(x[0]).push(x[1]));
}

/// What a started task leaves behind, step by step.
#[verifier::rlimit(40)]
proof fn lemma_started(
    c: CtxV,
    f: TaskRefV,
    claim: Seq<StepV>,
    rel: Seq<char>,
    worktree: bool,
    branch: Option<Seq<char>>,
    draft_pr: bool,
    current: Option<Seq<char>>,
    st: TaskStateV,
    fr: FrontmatterV,
)
    requires
        draft_pr ==> worktree || branch is Some,
        effects::git_calls(claim).len() == 0,
        forall|id: Seq<char>, st: TaskStateV| #[trigger] effects::state_after(claim, id, st) == st,
        forall|at: Seq<char>, f: FrontmatterV| #[trigger]
            effects::front_after(claim, at, f).branch == f.branch,
    ensures
        ({
            let o = start::set_up(
                c,
                f,
                claim,
                rel,
                worktree,
                branch,
                draft_pr,
                false,
                current,
            );
            let name = start::branch_for(f, branch);
            let setup = start::start_setup(c, f, f.path, worktree, branch, current);
            let shown = start::start_publishes(f, name, draft_pr);
            &&& o.error is None
            &&& effects::git_calls(o.steps) == effects::git_calls(setup.steps)
            &&& effects::front_after(o.steps, f.path, fr).branch == effects::front_after(
                setup.steps,
                f.path,
                effects::front_after(claim, f.path, fr),
            ).branch
            &&& forall|x: StepV| #[trigger] setup.steps.contains(x) ==> o.steps.contains(x)
            &&& forall|x: StepV| #[trigger] shown.contains(x) ==> o.steps.contains(x)
            &&& forall|x: StepV| #[trigger] claim.contains(x) ==> o.steps.contains(x)
            &&& effects::state_after(setup.steps, f.id, st) == st ==> effects::state_after(
                o.steps,
                f.id,
                st,
            ) == plan::edited_all(
                st,
                seq![StateEditV::Path(rel)] + setup.edits,
            )
        }),
{
    let o = start::set_up(c, f, claim, rel, worktree, branch, draft_pr, false, current);
    let name = start::branch_for(f, branch);
    let setup = start::start_setup(c, f, f.path, worktree, branch, current);
    let shown = start::start_publishes(f, name, draft_pr);
    let e = Seq::<StepV>::empty();
    effects::lemma_few();
    let a = claim + setup.steps;
    let b = a + shown;
    let x = StepV::EditState { id: f.id, edits: seq![StateEditV::Path(rel)] + setup.edits };
    let y = StepV::Say("started "@ + f.id);
    assert(o.steps == b.push(x).push(y));
    effects::lemma_push(b.push(x), y);
    effects::lemma_push(b, x);
    effects::lemma_concat(a, shown);
    effects::lemma_concat(claim, setup.steps);
    if shown.len() > 0 {
        effects::lemma_push(e, shown[0]);
        assert(shown =~= e.push(shown[0]));
    } else {
        assert(shown =~= e);
    }
    assert(effects::git_calls(o.steps) =~= effects::git_calls(setup.steps));
    assert forall|z: StepV| #[trigger] setup.steps.contains(z) implies o.steps.contains(z) by {
        let k = choose|k: int| 0 <= k < setup.steps.len() && setup.steps[k] == z;
        assert(o.steps[claim.len() + k] == z);
    }
    assert forall|z: StepV| #[trigger] shown.contains(z) implies o.steps.contains(z) by {
        let k = choose|k: int| 0 <= k < shown.len() && shown[k] == z;
        assert(o.steps[a.len() + k] == z);
    }
    assert forall|z: StepV| #[trigger] claim.contains(z) implies o.steps.contains(z) by {
        let k = choose|k: int| 0 <= k < claim.len() && claim[k] == z;
        assert(o.steps[k] == z);
    }
}

/// What the setup of a started task leaves behind, with the step that makes it the
/// current one.
proof fn lemma_start_setup(
    c: CtxV,
    f: TaskRefV,
    worktree: bool,
    branch: Option<Seq<char>>,
    current: Option<Seq<char>>,
    st: TaskStateV,
    fr: FrontmatterV,
    rel: Seq<char>,
)
    ensures
        ({
            let s = start::start_setup(c, f, f.path, worktree, branch, current);
            let name = match branch {
                Some(b) => b,
                None => f.slug,
            };
            let made = worktree || branch is Some;
            let last = plan::edited_all(
                st,
                seq![StateEditV::Path(rel)] + s.edits,
            );
            &&& effects::git_calls(s.steps) == if made {
                makes_branch(c, f.slug, worktree, name)
            } else {
                Seq::<GitCallV>::empty()
            }
            &&& forall|id: Seq<char>, st: TaskStateV| #[trigger]
                effects::state_after(s.steps, id, st) == st
            &&& made ==> effects::front_after(s.steps, f.path, fr).branch == Some(name)
            &&& !made && current is Some ==> effects::front_after(s.steps, f.path, fr).branch
                == current
            &&& !made && current is None ==> effects::front_after(s.steps, f.path, fr).branch
                == fr.branch
            &&& worktree ==> s.steps.contains(
                StepV::Bind { worktree: place_of(c, f.slug), id: f.id },
            )
            &&& !worktree ==> s.steps.contains(
                StepV::Write {
                    path: paths::joined_path(c.store.root, "current"@),
                    text: f.id + "\n"@,
                },
            )
            &&& last == (TaskStateV {
                path: rel,
                branch: if made {
                    Some(name)
                } else if current is Some {
                    current
                } else {
                    st.branch
                },
                worktree: if worktree {
                    Some(place_of(c, f.slug))
                } else {
                    st.worktree
                },
                ..st
            })
        }),
{
    let s = start::start_setup(c, f, f.path, worktree, branch, current);
    let name = match branch {
        Some(b) => b,
        None => f.slug,
    };
    let p = StateEditV::Path(rel);
    let n = StateEditV::Branch(name);
    let w = StateEditV::Worktree(Some(place_of(c, f.slug)));
    effects::lemma_few();
    effects::lemma_edits(st, p, n, w);
    if worktree {
        lemma_worktree_setup(c, f, f.path, name, st, fr);
        assert(seq![p] + s.edits =~= seq![p, n, w]);
    } else {
        let x = StepV::Write {
            path: paths::joined_path(c.store.root, "current"@),
            text: f.id + "\n"@,
        };
        if branch is Some {
            lemma_branch_setup(c, f, f.path, name, fr);
            effects::lemma_push(start::branch_setup(c, f.path, name).steps, x);
            assert(seq![p] + s.edits =~= seq![p, n]);
        } else {
            lemma_single_setup(f.path, current, fr);
            effects::lemma_push(start::single_setup(f.path, current).steps, x);
            match current {
                Some(b) => {
                    effects::lemma_edits(st, p, StateEditV::Branch(b), w);
                    assert(seq![p] + s.edits =~= seq![p, StateEditV::Branch(b)]);
                },
                None => {
                    assert(seq![p] + s.edits =~= seq![p]);
                },
            }
        }
        assert(s.steps.last() == x);
        assert(s.steps[s.steps.len() - 1] == x);
    }
}

/// A task that is started is claimed, and works on the branch that was asked for: git
/// makes that branch, the document and the state record it, and so does what is published.
/// The slug names the branch only where none was asked for. Without a branch of its own
/// the task works on the one that is checked out.
#[verifier::rlimit(40)]
pub proof fn law_start_makes_the_branch_asked_for(
    c: CtxV,
    query: Seq<char>,
    t: TaskRefV,
    f: TaskRefV,
    worktree: bool,
    branch: Option<Seq<char>>,
    draft_pr: bool,
    current: Option<Seq<char>>,
    st: TaskStateV,
    fr: FrontmatterV,
)
    requires
        claimable(c, query, t, f),
        draft_pr ==> worktree || branch is Some,
    ensures
        ({
            let o = start::started(c, query, worktree, branch, draft_pr, false, current);
            let name = match branch {
                Some(b) => b,
                None => f.slug,
            };
            let made = worktree || branch is Some;
            let after = effects::state_after(o.steps, t.id, st);
            let front = effects::front_after(o.steps, f.path, fr);
            &&& o.error is None
            &&& f.id == t.id
            &&& o.steps[0] == (StepV::MoveDoc {
                from: t.path,
                to: paths::joined_path(
                    paths::joined_path(c.store.root, "active"@),
                    t.slug + ".md"@,
                ),
                slug: t.slug,
            })
            &&& made ==> effects::git_calls(o.steps) == makes_branch(c, f.slug, worktree, name)
                && after.branch == Some(name) && front.branch == Some(name)
            &&& !made ==> effects::git_calls(o.steps).len() == 0 && (match current {
                Some(b) => after.branch == Some(b) && front.branch == Some(b),
                None => after.branch == st.branch && front.branch == fr.branch,
            })
            &&& worktree ==> after.worktree == Some(place_of(c, f.slug)) && o.steps.contains(
                StepV::Bind { worktree: place_of(c, f.slug), id: t.id },
            )
            &&& !worktree ==> after.worktree == st.worktree && o.steps.contains(
                StepV::Write {
                    path: paths::joined_path(c.store.root, "current"@),
                    text: t.id + "\n"@,
                },
            )
            &&& draft_pr ==> o.steps.contains(StepV::OpenPr { id: t.id, branch: name })
            &&& !draft_pr && f.doc.front.github_issue is Some ==> o.steps.contains(
                StepV::Gh {
                    call: gh::comment_call(
                        f.doc.front.github_issue->0,
                        "Started on branch `"@ + name + "`"@,
                    ),
                    on_fail: OnFailV::Ignore,
                },
            )
        }),
{
    let root = c.store.root;
    let none = Seq::<char>::empty();
    let claim = storing::move_steps(root, t, Status::Active, none);
    let doc = storing::moved_path(root, t.slug, Status::Active, none);
    let rel = paths::relative_to(doc, root);
    let o = start::started(c, query, worktree, branch, draft_pr, false, current);
    let setup = start::start_setup(c, f, f.path, worktree, branch, current);
    let name = start::branch_for(f, branch);
    let after = store::file_moved(c.store, t.path, doc);
    write_laws::lemma_with_id(store::all_tasks(after), t.id, 0);
    lemma_move_steps(root, t, Status::Active, none);
    lemma_started(c, f, claim, rel, worktree, branch, draft_pr, current, st, fr);
    lemma_start_setup(
        c,
        f,
        worktree,
        branch,
        current,
        st,
        effects::front_after(claim, f.path, fr),
        rel,
    );
    assert(f.id == t.id);
    assert(o.steps[0] == claim[0]);
    let shown = start::start_publishes(f, name, draft_pr);
    if draft_pr {
        assert(shown[0] == (StepV::OpenPr { id: f.id, branch: name }));
        assert(shown.contains(StepV::OpenPr { id: t.id, branch: name }));
    } else if let Some(n) = f.doc.front.github_issue {
        let call = gh::comment_call(n, "Started on branch `"@ + name + "`"@);
        assert(shown[0] == (StepV::Gh { call, on_fail: OnFailV::Ignore }));
        assert(shown.contains(StepV::Gh { call, on_fail: OnFailV::Ignore }));
    }
}

/// A branch that is there already is not taken: no git call is made, and the branch that
/// was asked for is named.
pub proof fn law_start_takes_no_branch_that_is_there(
    c: CtxV,
    query: Seq<char>,
    t: TaskRefV,
    f: TaskRefV,
    worktree: bool,
    branch: Option<Seq<char>>,
    draft_pr: bool,
    current: Option<Seq<char>>,
)
    requires
        claimable(c, query, t, f),
        worktree || branch is Some,
    ensures
        ({
            let o = start::started(c, query, worktree, branch, draft_pr, true, current);
            let name = match branch {
                Some(b) => b,
                None => f.slug,
            };
            &&& effects::git_calls(o.steps).len() == 0
            &&& effects::gh_calls(o.steps).len() == 0
            &&& o.error matches Some(m) && text::has(m, "branch '"@ + name + "' already exists"@)
        }),
{
    let name = match branch {
        Some(b) => b,
        None => f.slug,
    };
    lemma_move_steps(c.store.root, t, Status::Active, Seq::<char>::empty());
    let x = "branch '"@ + name + "' already exists"@;
    let m = start::taken_message(name);
    reveal_strlit("branch '");
    reveal_strlit("' already exists");
    reveal_strlit("' already exists — likely left by an earlier run. Delete it with `git branch -D ");
    assert(m.subrange(0, x.len() as int) =~= x);
    crate::facts::lemma_occurs_has(m, x, 0);
}

/// Only a task of the inbox is started; any other is left as it is.
pub proof fn law_only_inbox_tasks_are_started(
    c: CtxV,
    query: Seq<char>,
    t: TaskRefV,
    worktree: bool,
    branch: Option<Seq<char>>,
    draft_pr: bool,
    exists: bool,
    current: Option<Seq<char>>,
)
    requires
        store::found(store::all_tasks(c.store), query) == Ok::<TaskRefV, Seq<char>>(t),
        t.status != Status::Inbox,
    ensures
        start::started(c, query, worktree, branch, draft_pr, exists, current).error is Some,
        start::started(c, query, worktree, branch, draft_pr, exists, current).steps.len() == 0,
{
}

// ---------------------------------------------------------------------------
// Pull requests
// ---------------------------------------------------------------------------

/// The pull request of an active task is opened from the branch of the task: the one that
/// its document names, else the one that its state records, else one named after it. A
/// task without a recorded branch gets it made and recorded first, one with a branch keeps
/// what it has.
#[verifier::rlimit(40)]
pub proof fn law_a_pull_request_comes_from_the_branch_of_the_task(
    c: CtxV,
    query: Option<Seq<char>>,
    t: TaskRefV,
    worktree: bool,
    fr: FrontmatterV,
)
    requires
        lifecycle::target_of(c, query) == Ok::<TaskRefV, Seq<char>>(t),
        t.status == Status::Active,
        t.doc.front.github_pr is None,
    ensures
        ({
            let o = start::pr_created(c, query, worktree, false);
            let st = state::state_from(c.store.states, t.id, 0);
            let doc = start::doc_of(c.store, t);
            let name = match (t.doc.front.branch, st.branch) {
                (Some(b), _) => b,
                (None, Some(b)) => b,
                (None, None) => t.slug,
            };
            &&& o.error is None
            &&& o.steps.contains(StepV::OpenPr { id: t.id, branch: name })
            &&& st.branch is Some ==> effects::git_calls(o.steps).len() == 0
                && effects::state_after(o.steps, t.id, st) == st && effects::front_after(
                o.steps,
                doc,
                fr,
            ) == fr
            &&& st.branch is None ==> effects::git_calls(o.steps) == makes_branch(
                c,
                t.slug,
                worktree,
                name,
            ) && effects::state_after(o.steps, t.id, st).branch == Some(name)
                && effects::front_after(o.steps, doc, fr).branch == Some(name)
            &&& st.branch is None && worktree ==> effects::state_after(o.steps, t.id, st).worktree
                == Some(place_of(c, t.slug)) && o.steps.contains(
                StepV::Bind { worktree: place_of(c, t.slug), id: t.id },
            )
        }),
{
    let o = start::pr_created(c, query, worktree, false);
    let st = state::state_from(c.store.states, t.id, 0);
    let doc = start::doc_of(c.store, t);
    let name = start::pr_branch(c, t);
    let setup = if st.branch is Some {
        start::SetupV { steps: seq![], edits: seq![] }
    } else if worktree {
        start::worktree_setup(c, t, doc, name)
    } else {
        start::branch_setup(c, doc, name)
    };
    let x = StepV::OpenPr { id: t.id, branch: name };
    let y = StepV::EditState { id: t.id, edits: setup.edits };
    assert(o.steps == setup.steps.push(x).push(y));
    effects::lemma_few();
    effects::lemma_push(setup.steps, x);
    effects::lemma_push(setup.steps.push(x), y);
    let n = StateEditV::Branch(name);
    let w = StateEditV::Worktree(Some(place_of(c, t.slug)));
    effects::lemma_edits(st, n, w, w);
    assert(o.steps[setup.steps.len() as int] == x);
    if st.branch is Some {
        assert(setup.steps =~= Seq::<StepV>::empty());
        assert(setup.edits =~= Seq::<StateEditV>::empty());
    } else if worktree {
        lemma_worktree_setup(c, t, doc, name, st, fr);
        let b = StepV::Bind { worktree: place_of(c, t.slug), id: t.id };
        let k = choose|k: int| 0 <= k < setup.steps.len() && setup.steps[k] == b;
        assert(o.steps[k] == b);
    } else {
        lemma_branch_setup(c, t, doc, name, fr);
    }
}

/// The pull request of a task of the inbox is opened by starting the task, on a branch
/// that is named after it; a task that has a pull request gets no other.
pub proof fn law_a_pull_request_starts_an_inbox_task(
    c: CtxV,
    query: Option<Seq<char>>,
    t: TaskRefV,
    worktree: bool,
    exists: bool,
)
    requires
        lifecycle::target_of(c, query) == Ok::<TaskRefV, Seq<char>>(t),
    ensures
        ({
            let o = start::pr_created(c, query, worktree, exists);
            &&& t.doc.front.github_pr is Some ==> o.error is Some && o.steps.len() == 0
            &&& t.doc.front.github_pr is None && t.status == Status::Inbox ==> o == start::started(
                c,
                t.slug,
                worktree,
                if worktree {
                    None
                } else {
                    Some(t.slug)
                },
                true,
                exists,
                None,
            )
            &&& t.status == Status::Done || t.status == Status::Canceled ==> o.error is Some
                && o.steps.len() == 0
        }),
{
}

/// A pull request that was opened is recorded: its number in the document, and, where the
/// pull request carries the task, the hash of what it carries. Where an issue holds the
/// task, the body only refers to it, and nothing of the pull request is tracked.
pub proof fn law_an_opened_pull_request_is_recorded(
    t: TaskRefV,
    number: u64,
    st: TaskStateV,
    fr: FrontmatterV,
)
    ensures
        ({
            let x = start::opened(t, number);
            &&& effects::front_after(x, t.path, fr) == (FrontmatterV {
                github_pr: Some(number),
                ..fr
            })
            &&& effects::state_after(x, t.id, st).pr_synced_hash == (match t.doc.front.github_issue {
                Some(_) => None,
                None => Some(crate::sync::hash_of(managed::pr_block(t.doc))),
            })
            &&& effects::state_after(x, t.id, st) == (TaskStateV {
                pr_synced_hash: effects::state_after(x, t.id, st).pr_synced_hash,
                ..st
            })
            &&& match t.doc.front.github_issue {
                Some(n) => effects::gh_calls(x) == seq![
                    gh::comment_call(n, "Started in PR #"@ + text::decimal(number as nat)),
                ] && start::pr_body(t).0 == "resolves #"@ + text::decimal(n as nat),
                None => effects::gh_calls(x).len() == 0 && start::pr_body(t).0
                    == managed::pr_block(t.doc),
            }
        }),
{
    let x = start::opened(t, number);
    let e = Seq::<StepV>::empty();
    effects::lemma_few();
    effects::lemma_push(e, x[0]);
    effects::lemma_push(e.push(x[0]), x[1]);
    effects::lemma_push(e.push(x[0]).push(x[1]), x[2]);
    let h = StateEditV::PrHash(start::pr_body(t).1);
    effects::lemma_edits(st, h, h, h);
    if t.doc.front.github_issue is Some {
        effects::lemma_push(e.push(x[0]).push(x[1]).push(x[2]), x[3]);
        assert(x =~= e.push(x[0]).push(x[1]).push(x[2]).push(x[3]));
        assert(effects::gh_calls(x) =~= seq![
            gh::comment_call(
                t.doc.front.github_issue->0,
                "Started in PR #"@ + text::decimal(number as nat),
            ),
        ]);
    } else {
        assert(x =~= e.push(x[0]).push(x[1]).push(x[2]));
    }
}

} // verus!
