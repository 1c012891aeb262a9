//! Laws of publishing: what reaches an issue or a pull request, what stays around it, and
//! what is recorded of it.
use crate::commands::effects;
use crate::commands::items as item_commands;
use crate::commands::lifecycle;
use crate::commands::plan::{StateEditV, StepV};
use crate::commands::sync_cmd;
use crate::commands::syncing::{self, Surface, SyncErrorV};
use crate::gh::GhCallV;
use crate::state::{self, TaskStateV};
use crate::store::{StoreV, TaskRefV};
use crate::sync;
use crate::task::around_laws;
use crate::task::doc::{self, TaskDocV};
use crate::task::items;
use crate::task::managed;
use crate::text;
use vstd::prelude::*;
use vstd::string::*;

verus! {

/// A call that rewrites the body of an issue (or a pull request) with a number, and
/// replaces nothing but the block in the body that is there.
pub open spec fn rewrites(
    call: GhCallV,
    kind: Seq<char>,
    number: u64,
    remote: Seq<char>,
    block: Seq<char>,
) -> bool {
    &&& call.args == seq![kind, "edit"@, text::decimal(number as nat), "--body-file"@, "-"@]
    &&& call.stdin matches Some(body) && around_laws::keeps_around(remote, block, body)
}

// ---------------------------------------------------------------------------
// The final update
// ---------------------------------------------------------------------------

/// The final update of a pull request replaces the managed section and keeps the text that
/// people wrote around it, line by line; it records the hash of the block that it wrote,
/// and nothing else.
pub proof fn law_the_final_update_keeps_what_people_wrote(
    d: TaskDocV,
    id: Seq<char>,
    pr: u64,
    remote: Seq<char>,
    st: TaskStateV,
)
    requires
        sync::owned_by_other(remote, id) is None,
    ensures
        ({
            let o = lifecycle::final_update(d, id, pr, remote);
            &&& o.error is None
            &&& effects::gh_calls(o.steps).len() == 1
            &&& rewrites(
                effects::gh_calls(o.steps)[0],
                "pr"@,
                pr,
                remote,
                managed::pr_block(d),
            )
            &&& effects::state_after(o.steps, id, st) == (TaskStateV {
                pr_synced_hash: Some(sync::hash_of(managed::pr_block(d))),
                ..st
            })
        }),
{
    let o = lifecycle::final_update(d, id, pr, remote);
    let e = Seq::<StepV>::empty();
    around_laws::law_text_around_a_block_is_kept(remote, managed::pr_block(d));
    effects::lemma_few();
    effects::lemma_push(e, o.steps[0]);
    effects::lemma_push(e.push(o.steps[0]), o.steps[1]);
    assert(o.steps =~= e.push(o.steps[0]).push(o.steps[1]));
    let h = StateEditV::PrHash(Some(sync::hash_of(managed::pr_block(d))));
    effects::lemma_edits(st, h, h, h);
}

/// The final update leaves a pull request alone that holds the block of another task.
pub proof fn law_the_final_update_spares_another_task(
    d: TaskDocV,
    id: Seq<char>,
    pr: u64,
    remote: Seq<char>,
    other: Seq<char>,
)
    requires
        managed::managed_of(remote) matches Some((owner, _, _)) && owner == other,
        other != id,
    ensures
        lifecycle::final_update(d, id, pr, remote).steps.len() == 0,
        lifecycle::final_update(d, id, pr, remote).error is Some,
{
}

// ---------------------------------------------------------------------------
// Pushing
// ---------------------------------------------------------------------------

/// The hash of the last sync that is recorded for a surface.
pub open spec fn base_on(st: TaskStateV, on: Surface) -> Option<Seq<char>> {
    match on {
        Surface::Issue(_) => st.issue_synced_hash,
        _ => st.pr_synced_hash,
    }
}

/// The block that a task shows on a surface.
pub open spec fn shown_on(t: TaskRefV, on: Surface) -> Seq<char> {
    match on {
        Surface::Issue(_) => managed::issue_block(t.doc),
        _ => managed::pr_block(t.doc),
    }
}

/// A state with the hash of a sync recorded for a surface.
pub open spec fn synced_on(st: TaskStateV, on: Surface, hash: Seq<char>) -> TaskStateV {
    match on {
        Surface::Issue(_) => TaskStateV { issue_synced_hash: Some(hash), ..st },
        _ => TaskStateV { pr_synced_hash: Some(hash), ..st },
    }
}

/// Whether the block of a remote body is another than at the last sync.
pub open spec fn changed_there(base: Option<Seq<char>>, remote: Seq<char>) -> bool {
    managed::managed_of(remote) matches Some((_, block, _)) && base != Some(sync::hash_of(block))
}

/// What a push that is made does: one call, which rewrites the body of the surface and
/// keeps the text around the block, and the hash of the block that was written is recorded
/// for that surface. Backups of an earlier conflict go.
pub open spec fn publishes(
    p: syncing::PushedV,
    s: StoreV,
    t: TaskRefV,
    on: Surface,
    remote: Seq<char>,
    st: TaskStateV,
) -> bool {
    let kind = match on {
        Surface::Issue(_) => "issue"@,
        _ => "pr"@,
    };
    &&& p.error is None
    &&& effects::gh_calls(p.steps).len() == 1
    &&& rewrites(effects::gh_calls(p.steps)[0], kind, on.at(), remote, shown_on(t, on))
    &&& effects::state_after(p.steps, t.id, st) == synced_on(
        st,
        on,
        sync::hash_of(shown_on(t, on)),
    )
    &&& p.steps.contains(
        StepV::RemoveQuietly(sync::backup_path(s.root, t.slug, ".local.md"@)),
    )
    &&& p.steps.contains(
        StepV::RemoveQuietly(sync::backup_path(s.root, t.slug, ".remote.md"@)),
    )
}

/// What a push that is not made leaves: GitHub and the recorded state as they are.
pub open spec fn publishes_nothing(p: syncing::PushedV, id: Seq<char>, st: TaskStateV) -> bool {
    &&& effects::gh_calls(p.steps).len() == 0
    &&& effects::state_after(p.steps, id, st) == st
}

/// The steps of a push that is made.
proof fn lemma_published(
    s: StoreV,
    t: TaskRefV,
    on: Surface,
    remote: Seq<char>,
    resolved: bool,
    st: TaskStateV,
)
    requires
        on !is Unmanaged,
        sync::owned_by_other(remote, t.id) is None,
        syncing::push_plan(s, t, on, remote, resolved) == sync::SyncPlan::Push,
    ensures
        publishes(syncing::pushed(s, t, on, remote, resolved), s, t, on, remote, st),
{
    let p = syncing::pushed(s, t, on, remote, resolved);
    let e = Seq::<StepV>::empty();
    let x = p.steps;
    around_laws::law_text_around_a_block_is_kept(remote, shown_on(t, on));
    assert(x.len() == 5);
    effects::lemma_few();
    effects::lemma_push(e, x[0]);
    effects::lemma_push(e.push(x[0]), x[1]);
    effects::lemma_push(e.push(x[0]).push(x[1]), x[2]);
    effects::lemma_push(e.push(x[0]).push(x[1]).push(x[2]), x[3]);
    effects::lemma_push(e.push(x[0]).push(x[1]).push(x[2]).push(x[3]), x[4]);
    assert(x =~= e.push(x[0]).push(x[1]).push(x[2]).push(x[3]).push(x[4]));
    let h = syncing::surface_edit(on, Some(sync::hash_of(shown_on(t, on))));
    effects::lemma_edits(st, h, h, h);
    assert(x[2] == StepV::RemoveQuietly(sync::backup_path(s.root, t.slug, ".local.md"@)));
    assert(x[3] == StepV::RemoveQuietly(sync::backup_path(s.root, t.slug, ".remote.md"@)));
}

/// `push --resolved` publishes, whatever was changed there, and keeps the text that people
/// wrote around the block.
pub proof fn law_a_resolved_push_keeps_what_people_wrote(
    s: StoreV,
    t: TaskRefV,
    on: Surface,
    remote: Seq<char>,
    st: TaskStateV,
)
    requires
        on !is Unmanaged,
        sync::owned_by_other(remote, t.id) is None,
    ensures
        publishes(syncing::pushed(s, t, on, remote, true), s, t, on, remote, st),
{
    lemma_published(s, t, on, remote, true, st);
}

/// What a plain push does is told by two questions: whether the document shows another
/// block than at the last sync, and whether the remote body does. It publishes where only
/// the first is so, says so where neither is, and refuses otherwise; what both sides say
/// is left in two backups where both changed.
pub proof fn law_a_plain_push_follows_the_changes(
    s: StoreV,
    t: TaskRefV,
    on: Surface,
    remote: Seq<char>,
)
    requires
        on !is Unmanaged,
        sync::owned_by_other(remote, t.id) is None,
    ensures
        ({
            let p = syncing::pushed(s, t, on, remote, false);
            let st = state::state_from(s.states, t.id, 0);
            let here = base_on(st, on) != Some(sync::hash_of(shown_on(t, on)));
            let there = changed_there(base_on(st, on), remote);
            &&& here && !there ==> publishes(p, s, t, on, remote, st)
            &&& !(here && !there) ==> publishes_nothing(p, t.id, st)
            &&& !here && !there ==> p.error is None
            &&& !here && there ==> p.error is Some && p.steps.len() == 0
            &&& here && there ==> p.error is Some && p.steps.contains(
                StepV::Write {
                    path: sync::backup_path(s.root, t.slug, ".local.md"@),
                    text: text::trimmed(shown_on(t, on)) + "\n"@,
                },
            ) && p.steps.contains(
                StepV::Write {
                    path: sync::backup_path(s.root, t.slug, ".remote.md"@),
                    text: text::trimmed(sync::block_in(remote)->0) + "\n"@,
                },
            )
        }),
{
    let p = syncing::pushed(s, t, on, remote, false);
    let st = state::state_from(s.states, t.id, 0);
    let here = base_on(st, on) != Some(sync::hash_of(shown_on(t, on)));
    let there = changed_there(base_on(st, on), remote);
    let e = Seq::<StepV>::empty();
    effects::lemma_few();
    assert(syncing::opt_hash(sync::block_in(remote)) is Some <==> managed::managed_of(
        remote,
    ) is Some);
    if here && !there {
        lemma_published(s, t, on, remote, false, st);
    } else if here && there {
        let x = p.steps;
        assert(x.len() == 3);
        effects::lemma_push(e, x[0]);
        effects::lemma_push(e.push(x[0]), x[1]);
        effects::lemma_push(e.push(x[0]).push(x[1]), x[2]);
        assert(x =~= e.push(x[0]).push(x[1]).push(x[2]));
        assert(x[1] is Write && x[2] is Write);
    } else if !here && !there {
        effects::lemma_push(e, p.steps[0]);
        assert(p.steps =~= e.push(p.steps[0]));
    } else {
        assert(p.steps =~= e);
    }
}

/// The pull request of a task that an issue holds is left alone, and so is a body that
/// holds the block of another task.
pub proof fn law_a_push_leaves_alone_what_is_not_its_own(
    s: StoreV,
    t: TaskRefV,
    on: Surface,
    remote: Seq<char>,
    resolved: bool,
    st: TaskStateV,
)
    requires
        on is Unmanaged || (managed::managed_of(remote) matches Some((owner, _, _)) && owner
            != t.id),
    ensures
        publishes_nothing(syncing::pushed(s, t, on, remote, resolved), t.id, st),
        on is Unmanaged <==> syncing::pushed(s, t, on, remote, resolved).error is None,
{
    let p = syncing::pushed(s, t, on, remote, resolved);
    let e = Seq::<StepV>::empty();
    effects::lemma_few();
    if on is Unmanaged {
        effects::lemma_push(e, p.steps[0]);
        assert(p.steps =~= e.push(p.steps[0]));
    } else {
        assert(p.steps =~= e);
    }
}

/// A task is published where it is linked: on its issue, and on its pull request where it
/// has no issue; never on a number that it is not linked to.
pub proof fn law_a_task_is_published_where_it_is_linked(t: TaskRefV)
    ensures
        forall|n: u64| #[trigger]
            syncing::surfaces_of(t).contains(Surface::Issue(n)) <==> t.doc.front.github_issue
                == Some(n),
        forall|n: u64| #[trigger]
            syncing::surfaces_of(t).contains(Surface::Pr(n)) <==> t.doc.front.github_pr == Some(n)
                && t.doc.front.github_issue is None,
        sync_cmd::issue_surface(t) matches Some(on) ==> t.doc.front.github_issue == Some(on.at())
            && on is Issue,
        sync_cmd::pr_surface(t) matches Some(on) ==> t.doc.front.github_pr == Some(on.at())
            && on !is Issue && (on is Unmanaged <==> t.doc.front.github_issue is Some),
        sync_cmd::issue_surface(t) is Some <==> t.doc.front.github_issue is Some,
        sync_cmd::pr_surface(t) is Some <==> t.doc.front.github_pr is Some,
{
    let on = syncing::surfaces_of(t);
    assert forall|n: u64| t.doc.front.github_issue == Some(n) implies #[trigger] on.contains(
        Surface::Issue(n),
    ) by {
        assert(on[0] == Surface::Issue(n));
    }
    assert forall|n: u64|
        t.doc.front.github_pr == Some(n) && t.doc.front.github_issue is None implies #[trigger] on.contains(
        Surface::Pr(n),
    ) by {
        assert(on[0] == Surface::Pr(n));
    }
}

// ---------------------------------------------------------------------------
// Pulling
// ---------------------------------------------------------------------------

/// A pull of a task whose items have their ids does what the changes tell: where only the
/// remote body changed, the document is written with what was pulled and its own Agent
/// Log, and the hash of what was pulled is recorded; where the document changed too, both
/// sides are left in backups and neither is touched; else nothing is done.
pub proof fn law_a_pull_follows_the_changes(
    s: StoreV,
    t: TaskRefV,
    remote: Seq<char>,
    owner: Seq<char>,
    block: Seq<char>,
    inner: Seq<char>,
    strict: bool,
    now: Seq<char>,
)
    requires
        items::untagged(items::items_of(t.doc.body)) == 0,
        managed::managed_of(remote) == Some((owner, block, inner)),
        owner == t.id,
    ensures
        ({
            let p = syncing::pulled(s, t, remote, strict, now);
            let st = state::state_from(s.states, t.id, 0);
            let base = st.issue_synced_hash;
            let here = base != Some(sync::hash_of(managed::issue_block(t.doc)));
            let there = base != Some(sync::hash_of(block));
            &&& p.result == (if !there {
                Ok::<bool, SyncErrorV>(false)
            } else if !here {
                Ok::<bool, SyncErrorV>(true)
            } else {
                p.result
            })
            &&& !there ==> p.steps.len() == 0 && p.store == s
            &&& there && !here ==> {
                let d = TaskDocV {
                    front: doc::touched(t.doc, now).front,
                    body: crate::task::sections::merged_body(inner, t.doc.body),
                };
                &&& p.steps.contains(StepV::Write { path: t.path, text: doc::serialized(d) })
                &&& effects::state_after(p.steps, t.id, st) == (TaskStateV {
                    issue_synced_hash: Some(sync::hash_of(block)),
                    ..st
                })
            }
            &&& there && here ==> p.result is Err && p.store == s && effects::state_after(
                p.steps,
                t.id,
                st,
            ) == st && p.steps.contains(
                StepV::Write {
                    path: sync::backup_path(s.root, t.slug, ".local.md"@),
                    text: text::trimmed(managed::issue_block(t.doc)) + "\n"@,
                },
            ) && p.steps.contains(
                StepV::Write {
                    path: sync::backup_path(s.root, t.slug, ".remote.md"@),
                    text: text::trimmed(block) + "\n"@,
                },
            )
        }),
{
    let p = syncing::pulled(s, t, remote, strict, now);
    let st = state::state_from(s.states, t.id, 0);
    let base = st.issue_synced_hash;
    let here = base != Some(sync::hash_of(managed::issue_block(t.doc)));
    let there = base != Some(sync::hash_of(block));
    let e = Seq::<StepV>::empty();
    effects::lemma_few();
    let x = p.steps;
    assert(sync::block_in(remote) == Some(block));
    assert(item_commands::assigned(s, t, now).steps =~= e);
    if there && !here {
        assert(x.len() == 4);
        effects::lemma_push(e, x[0]);
        effects::lemma_push(e.push(x[0]), x[1]);
        effects::lemma_push(e.push(x[0]).push(x[1]), x[2]);
        effects::lemma_push(e.push(x[0]).push(x[1]).push(x[2]), x[3]);
        assert(x =~= e.push(x[0]).push(x[1]).push(x[2]).push(x[3]));
        let h = StateEditV::IssueHash(Some(sync::hash_of(block)));
        effects::lemma_edits(st, h, h, h);
        assert(x[0] is Write);
    } else if there && here {
        assert(x.len() == 3);
        effects::lemma_push(e, x[0]);
        effects::lemma_push(e.push(x[0]), x[1]);
        effects::lemma_push(e.push(x[0]).push(x[1]), x[2]);
        assert(x =~= e.push(x[0]).push(x[1]).push(x[2]));
        assert(x[1] is Write && x[2] is Write);
    }
}

} // verus!
