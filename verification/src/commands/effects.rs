//! What steps leave behind: the state of a task, its frontmatter, and what was called.
use crate::commands::plan::{self, FrontEditV, StateEditV, StepV};
use crate::gh::GhCallV;
use crate::gitx::GitCallV;
use crate::state::TaskStateV;
use crate::task::doc::FrontmatterV;
use vstd::prelude::*;

verus! {

/// The state of a task after steps, where it was `st` before.
pub open spec fn state_after(steps: Seq<StepV>, id: Seq<char>, st: TaskStateV) -> TaskStateV
    decreases steps.len(),
{
    if steps.len() == 0 {
        st
    } else {
        let before = state_after(steps.drop_last(), id, st);
        match steps.last() {
            StepV::EditState { id: of, edits } => if of == id {
                plan::edited_all(before, edits)
            } else {
                before
            },
            _ => before,
        }
    }
}

/// The frontmatter of the document at a path after steps, where it was `f` before.
pub open spec fn front_after(steps: Seq<StepV>, path: Seq<char>, f: FrontmatterV) -> FrontmatterV
    decreases steps.len(),
{
    if steps.len() == 0 {
        f
    } else {
        let before = front_after(steps.drop_last(), path, f);
        match steps.last() {
            StepV::EditFront { path: at, edit } => if at == path {
                plan::front_edited(before, edit)
            } else {
                before
            },
            _ => before,
        }
    }
}

/// The calls of git in steps, in order.
pub open spec fn git_calls(steps: Seq<StepV>) -> Seq<GitCallV>
    decreases steps.len(),
{
    if steps.len() == 0 {
        seq![]
    } else {
        let before = git_calls(steps.drop_last());
        match steps.last() {
            StepV::Git { call, .. } => before.push(call),
            _ => before,
        }
    }
}

/// The calls of `gh` in steps, in order.
pub open spec fn gh_calls(steps: Seq<StepV>) -> Seq<GhCallV>
    decreases steps.len(),
{
    if steps.len() == 0 {
        seq![]
    } else {
        let before = gh_calls(steps.drop_last());
        match steps.last() {
            StepV::Gh { call, .. } => before.push(call),
            _ => before,
        }
    }
}

/// The lines that steps print, in order.
pub open spec fn printed(steps: Seq<StepV>) -> Seq<Seq<char>>
    decreases steps.len(),
{
    if steps.len() == 0 {
        seq![]
    } else {
        let before = printed(steps.drop_last());
        match steps.last() {
            StepV::Say(line) => before.push(line),
            _ => before,
        }
    }
}

/// What one more step leaves behind.
pub proof fn lemma_push(steps: Seq<StepV>, x: StepV)
    ensures
        forall|id: Seq<char>, st: TaskStateV| #[trigger]
            state_after(steps.push(x), id, st) == match x {
                StepV::EditState { id: of, edits } => if of == id {
                    plan::edited_all(state_after(steps, id, st), edits)
                } else {
                    state_after(steps, id, st)
                },
                _ => state_after(steps, id, st),
            },
        forall|path: Seq<char>, f: FrontmatterV| #[trigger]
            front_after(steps.push(x), path, f) == match x {
                StepV::EditFront { path: at, edit } => if at == path {
                    plan::front_edited(front_after(steps, path, f), edit)
                } else {
                    front_after(steps, path, f)
                },
                _ => front_after(steps, path, f),
            },
        git_calls(steps.push(x)) == match x {
            StepV::Git { call, .. } => git_calls(steps).push(call),
            _ => git_calls(steps),
        },
        gh_calls(steps.push(x)) == match x {
            StepV::Gh { call, .. } => gh_calls(steps).push(call),
            _ => gh_calls(steps),
        },
        printed(steps.push(x)) == match x {
            StepV::Say(line) => printed(steps).push(line),
            _ => printed(steps),
        },
{
    assert(steps.push(x).drop_last() =~= steps);
    assert(steps.push(x).last() == x);
}

/// What steps leave behind is what the last of them leave behind of what the first left.
pub proof fn lemma_concat(a: Seq<StepV>, b: Seq<StepV>)
    ensures
        forall|id: Seq<char>, st: TaskStateV| #[trigger]
            state_after(a + b, id, st) == state_after(b, id, state_after(a, id, st)),
        forall|path: Seq<char>, f: FrontmatterV| #[trigger]
            front_after(a + b, path, f) == front_after(b, path, front_after(a, path, f)),
        git_calls(a + b) == git_calls(a) + git_calls(b),
        gh_calls(a + b) == gh_calls(a) + gh_calls(b),
        printed(a + b) == printed(a) + printed(b),
    decreases b.len(),
{
    if b.len() == 0 {
        assert(a + b =~= a);
        assert(git_calls(a) + git_calls(b) =~= git_calls(a));
        assert(gh_calls(a) + gh_calls(b) =~= gh_calls(a));
        assert(printed(a) + printed(b) =~= printed(a));
    } else {
        let d = b.drop_last();
        let x = b.last();
        lemma_concat(a, d);
        assert(a + b =~= (a + d).push(x));
        assert(b =~= d.push(x));
        lemma_push(a + d, x);
        lemma_push(d, x);
        assert(git_calls(a + b) =~= git_calls(a) + git_calls(b));
        assert(gh_calls(a + b) =~= gh_calls(a) + gh_calls(b));
        assert(printed(a + b) =~= printed(a) + printed(b));
    }
}

/// No steps leave everything as it is, and one step leaves what it says.
pub proof fn lemma_few()
    ensures
        forall|id: Seq<char>, st: TaskStateV| #[trigger]
            state_after(Seq::<StepV>::empty(), id, st) == st,
        forall|path: Seq<char>, f: FrontmatterV| #[trigger]
            front_after(Seq::<StepV>::empty(), path, f) == f,
        git_calls(Seq::<StepV>::empty()) == Seq::<GitCallV>::empty(),
        gh_calls(Seq::<StepV>::empty()) == Seq::<GhCallV>::empty(),
        printed(Seq::<StepV>::empty()) == Seq::<Seq<char>>::empty(),
{
}

/// One change and two changes of a state, in order.
pub proof fn lemma_edits(st: TaskStateV, a: StateEditV, b: StateEditV, c: StateEditV)
    ensures
        plan::edited_all(st, Seq::<StateEditV>::empty()) == st,
        plan::edited_all(st, seq![a]) == plan::edited(st, a),
        plan::edited_all(st, seq![a, b]) == plan::edited(plan::edited(st, a), b),
        plan::edited_all(st, seq![a, b, c]) == plan::edited(
            plan::edited(plan::edited(st, a), b),
            c,
        ),
{
    let e = Seq::<StateEditV>::empty();
    assert(seq![a].drop_last() =~= e);
    assert(seq![a, b].drop_last() =~= seq![a]);
    assert(seq![a, b, c].drop_last() =~= seq![a, b]);
}

/// Each change of a state sets the field that it is named after, and no other.
pub proof fn law_state_edits_set_one_field(
    st: TaskStateV,
    v: Seq<char>,
    o: Option<Seq<char>>,
    agent: Seq<char>,
    log: Option<Seq<char>>,
    status: Option<Seq<char>>,
)
    ensures
        plan::edited(st, StateEditV::Path(v)) == (TaskStateV { path: v, ..st }),
        plan::edited(st, StateEditV::Branch(v)) == (TaskStateV { branch: Some(v), ..st }),
        plan::edited(st, StateEditV::Worktree(o)) == (TaskStateV { worktree: o, ..st }),
        plan::edited(st, StateEditV::IssueHash(o)) == (TaskStateV { issue_synced_hash: o, ..st }),
        plan::edited(st, StateEditV::PrHash(o)) == (TaskStateV { pr_synced_hash: o, ..st }),
        plan::edited(st, StateEditV::Run { session: v, agent, log, status }) == (TaskStateV {
            run_session: Some(v),
            run_agent: Some(agent),
            run_log: log,
            run_status: status,
            ..st
        }),
        plan::edited(st, StateEditV::Fresh).branch is None,
        plan::edited(st, StateEditV::Fresh).worktree is None,
        plan::edited(st, StateEditV::Fresh).issue_synced_hash is None,
        plan::edited(st, StateEditV::Fresh).pr_synced_hash is None,
        plan::edited(st, StateEditV::Fresh).run_session is None,
        plan::edited(st, StateEditV::Fresh).run_agent is None,
{
}

/// Each change of frontmatter sets the field that it is named after, and no other.
pub proof fn law_front_edits_set_one_field(
    f: FrontmatterV,
    s: crate::store::Status,
    b: Seq<char>,
    n: u64,
)
    ensures
        plan::front_edited(f, FrontEditV::Status(s)) == (FrontmatterV { status: s.name(), ..f }),
        plan::front_edited(f, FrontEditV::Branch(b)) == (FrontmatterV { branch: Some(b), ..f }),
        plan::front_edited(f, FrontEditV::Issue(n)) == (FrontmatterV {
            github_issue: Some(n),
            ..f
        }),
        plan::front_edited(f, FrontEditV::Pr(n)) == (FrontmatterV { github_pr: Some(n), ..f }),
{
}

} // verus!
