//! Laws of the commands: what they refuse, what they never touch, and what they agree
//! on.
use crate::commands::items;
use crate::commands::lifecycle::{self, WorktreeInfoV};
use crate::commands::local;
use crate::commands::plan::StepV;
use crate::commands::run;
use crate::commands::storing;
use crate::commands::syncing::{self, Surface, SyncErrorV};
use crate::ctx::CtxV;
use crate::facts;
use crate::resolve::{self, Source};
use crate::store::{self, StoreV, TaskRefV};
use crate::sync;
use crate::task::item_laws;
use crate::task::items::{self as checklist, ItemV};
use crate::text;
use crate::write_laws;
use vstd::prelude::*;
use vstd::string::*;

verus! {

// ---------------------------------------------------------------------------
// Refusals
// ---------------------------------------------------------------------------

/// `move`, `done`, `cancel` and `delete` look before they act: one that is refused
/// does nothing at all.
pub proof fn law_a_refusal_leaves_everything(
    c: CtxV,
    query: Option<Seq<char>>,
    name: Seq<char>,
    status: Seq<char>,
    keep: bool,
    force: bool,
    wt: Option<WorktreeInfoV>,
    month: Seq<char>,
)
    ensures
        lifecycle::moved(c, name, status, month).error is Some ==> lifecycle::moved(
            c,
            name,
            status,
            month,
        ).steps.len() == 0,
        lifecycle::finished(c, query, keep, wt, month).error is Some ==> lifecycle::finished(
            c,
            query,
            keep,
            wt,
            month,
        ).steps.len() == 0,
        lifecycle::canceled(c, query, keep, force, wt, month).error is Some ==> lifecycle::canceled(
            c,
            query,
            keep,
            force,
            wt,
            month,
        ).steps.len() == 0,
        lifecycle::deleted(c, name, force, wt).error is Some ==> lifecycle::deleted(
            c,
            name,
            force,
            wt,
        ).steps.len() == 0,
{
}

/// Uncommitted changes in a worktree are never lost by accident: without `--force`, or
/// `--keep-worktree`, no task with a dirty worktree ends or is deleted.
pub proof fn law_a_dirty_worktree_is_refused(
    c: CtxV,
    query: Option<Seq<char>>,
    name: Seq<char>,
    wt: WorktreeInfoV,
    month: Seq<char>,
)
    requires
        wt.dirty,
    ensures
        lifecycle::finished(c, query, false, Some(wt), month).error is Some,
        lifecycle::canceled(c, query, false, false, Some(wt), month).error is Some,
        lifecycle::deleted(c, name, false, Some(wt)).error is Some,
{
}

/// A step that calls git.
pub open spec fn calls_git(step: StepV) -> bool {
    step is Git
}

/// A worktree that is kept is not touched: neither `done` nor `cancel` then calls git.
pub proof fn law_a_kept_worktree_is_not_removed(
    c: CtxV,
    query: Option<Seq<char>>,
    force: bool,
    wt: Option<WorktreeInfoV>,
    month: Seq<char>,
)
    ensures
        forall|i: int|
            0 <= i < lifecycle::finished(c, query, true, wt, month).steps.len() ==> !calls_git(
                #[trigger] lifecycle::finished(c, query, true, wt, month).steps[i],
            ),
        forall|i: int|
            0 <= i < lifecycle::canceled(c, query, true, force, wt, month).steps.len()
                ==> !calls_git(
                #[trigger] lifecycle::canceled(c, query, true, force, wt, month).steps[i],
            ),
{
}

/// A step that reaches GitHub.
pub open spec fn reaches_github(step: StepV) -> bool {
    step is Gh || step is FinalPr || step is OpenPr
}

/// A plain move and a deletion have no effect on GitHub.
pub proof fn law_moving_and_deleting_stay_local(
    c: CtxV,
    name: Seq<char>,
    status: Seq<char>,
    force: bool,
    wt: Option<WorktreeInfoV>,
    month: Seq<char>,
)
    ensures
        forall|i: int|
            0 <= i < lifecycle::moved(c, name, status, month).steps.len() ==> !reaches_github(
                #[trigger] lifecycle::moved(c, name, status, month).steps[i],
            ),
        forall|i: int|
            0 <= i < lifecycle::deleted(c, name, force, wt).steps.len() ==> !reaches_github(
                #[trigger] lifecycle::deleted(c, name, force, wt).steps[i],
            ),
{
}

// ---------------------------------------------------------------------------
// Sync
// ---------------------------------------------------------------------------

/// A plain push that meets a conflict, a remote change or a body of another task
/// reaches GitHub with nothing; on a conflict both versions are left in backups.
pub proof fn law_a_conflict_pushes_nothing(
    s: StoreV,
    t: TaskRefV,
    on: Surface,
    remote: Seq<char>,
)
    ensures
        syncing::pushed(s, t, on, remote, false).error is Some ==> forall|i: int|
            0 <= i < syncing::pushed(s, t, on, remote, false).steps.len() ==> !reaches_github(
                #[trigger] syncing::pushed(s, t, on, remote, false).steps[i],
            ),
        syncing::pushed(s, t, on, remote, false).error matches Some(SyncErrorV::Conflict(_))
            ==> syncing::pushed(s, t, on, remote, false).steps == syncing::backups(
            s.root,
            t.slug,
            syncing::surface_block(t, on),
            syncing::block_text(sync::block_in(remote)),
        ),
{
}

/// A plain push rewrites a remote body only where its block is as it was at the last
/// sync, or where it has none: a change that someone made there is never overwritten.
pub proof fn law_a_push_overwrites_no_remote_edit(
    s: StoreV,
    t: TaskRefV,
    on: Surface,
    remote: Seq<char>,
    i: int,
)
    requires
        0 <= i < syncing::pushed(s, t, on, remote, false).steps.len(),
        reaches_github(syncing::pushed(s, t, on, remote, false).steps[i]),
    ensures
        sync::block_in(remote) is None || syncing::opt_hash(sync::block_in(remote))
            == syncing::surface_base(s, t, on),
{
    sync::law_push_overwrites_no_remote_change(
        syncing::surface_base(s, t, on),
        sync::hash_of(syncing::surface_block(t, on)),
        syncing::opt_hash(sync::block_in(remote)),
    );
}

/// `push --resolved` overwrites the block of the task, whatever it holds, and no body
/// that belongs to another task.
pub proof fn law_a_resolved_push_overwrites(
    s: StoreV,
    t: TaskRefV,
    on: Surface,
    remote: Seq<char>,
)
    requires
        !(on is Unmanaged),
        sync::owned_by_other(remote, t.id) is None,
    ensures
        syncing::pushed(s, t, on, remote, true).error is None,
        syncing::pushed(s, t, on, remote, true).steps.len() > 0,
        syncing::pushed(s, t, on, remote, true).steps[0] == (StepV::Gh {
            call: syncing::edit_call(
                on,
                crate::task::managed::with_block(remote, syncing::surface_block(t, on)),
            ),
            on_fail: crate::commands::plan::OnFailV::Abort,
        }),
{
}

/// A pull never writes to GitHub.
pub proof fn law_a_pull_never_writes_remote(
    s: StoreV,
    t: TaskRefV,
    remote: Seq<char>,
    strict: bool,
    now: Seq<char>,
)
    ensures
        forall|i: int|
            0 <= i < syncing::pulled(s, t, remote, strict, now).steps.len() ==> !reaches_github(
                #[trigger] syncing::pulled(s, t, remote, strict, now).steps[i],
            ),
{
}

// ---------------------------------------------------------------------------
// The to-do list
// ---------------------------------------------------------------------------

/// How many items are open.
pub open spec fn open_count(its: Seq<ItemV>, i: int) -> nat
    decreases its.len() - i,
{
    if i < 0 || i >= its.len() {
        0
    } else if local::is_open(its[i]) {
        open_count(its, i + 1) + 1
    } else {
        open_count(its, i + 1)
    }
}

/// A line of the to-do list is a heading, or the line of an item that is open.
pub open spec fn is_todo(its: Seq<ItemV>, line: Seq<char>) -> bool {
    ||| text::begins(line, "## "@)
    ||| exists|k: int|
        0 <= k < its.len() && local::is_open(#[trigger] its[k]) && line == local::todo_line(
            its[k],
            false,
        )
}

/// The to-do list names every open item, and nothing that is done or failed: a failed
/// item drops out of it, and a run is not asked to do it again.
pub proof fn law_todo_lists_the_open_items(
    its: Seq<ItemV>,
    sections: Seq<Seq<char>>,
    i: int,
    last: Option<Seq<char>>,
)
    requires
        0 <= i <= its.len(),
    ensures
        forall|k: int|
            0 <= k < local::todo_from(its, sections, false, i, last).len() ==> is_todo(
                its,
                #[trigger] local::todo_from(its, sections, false, i, last)[k],
            ),
        forall|k: int|
            i <= k < its.len() && local::is_open(#[trigger] its[k]) ==> local::todo_from(
                its,
                sections,
                false,
                i,
                last,
            ).contains(local::todo_line(its[k], false)),
        open_count(its, i) == 0 <==> local::todo_from(its, sections, false, i, last).len() == 0,
    decreases its.len() - i,
{
    let all = local::todo_from(its, sections, false, i, last);
    if i < its.len() {
        if !local::is_open(its[i]) {
            law_todo_lists_the_open_items(its, sections, i + 1, last);
        } else {
            let next = Some(sections[i]);
            law_todo_lists_the_open_items(its, sections, i + 1, next);
            let rest = local::todo_from(its, sections, false, i + 1, next);
            let head = if last != Some(sections[i]) && sections[i].len() > 0 {
                seq!["## "@ + sections[i]]
            } else {
                Seq::<Seq<char>>::empty()
            };
            let line = local::todo_line(its[i], false);
            assert(all == head + seq![line] + rest);
            facts::lemma_begins("## "@, sections[i]);
            assert forall|k: int| 0 <= k < all.len() implies is_todo(its, #[trigger] all[k]) by {
                if k < head.len() {
                    assert(all[k] == "## "@ + sections[i]);
                } else if k == head.len() {
                    assert(all[k] == line);
                } else {
                    assert(all[k] == rest[k - head.len() - 1]);
                }
            }
            assert forall|k: int|
                i <= k < its.len() && local::is_open(#[trigger] its[k]) implies all.contains(
                local::todo_line(its[k], false),
            ) by {
                if k == i {
                    assert(all[head.len() as int] == line);
                } else {
                    let l = local::todo_line(its[k], false);
                    assert(rest.contains(l));
                    let m = choose|m: int| 0 <= m < rest.len() && rest[m] == l;
                    assert(all[head.len() + 1 + m] == l);
                }
            }
        }
    }
}

/// The ids that `todo` prints, and those in the title of a session, are the ones that
/// the next mutation assigns: once they are written, both read the same.
pub proof fn law_todo_shows_the_ids_that_stay(
    t: TaskRefV,
    healed: TaskRefV,
    all: bool,
    branch: Seq<char>,
)
    requires
        healed.slug == t.slug,
        healed.doc.body == checklist::healed_body(t.doc.body),
    ensures
        local::todo_lines(healed.doc.body, all) == local::todo_lines(t.doc.body, all),
        run::session_title(healed, branch) == run::session_title(t, branch),
{
    item_laws::law_healing_is_idempotent(t.doc.body);
}

// ---------------------------------------------------------------------------
// Binding
// ---------------------------------------------------------------------------

/// A worktree that is bound to a task resolves to it, whatever else is current: what
/// runs there never touches another task.
pub proof fn law_a_bound_worktree_means_its_task(c: CtxV, id: Seq<char>, t: TaskRefV)
    requires
        facts::snug(id),
        id.len() > 0,
        c.repo.pointer == Some(id + "\n"@),
        store::with_id_from(store::all_tasks(c.store), id, 0) == Some(t),
    ensures
        resolve::resolved(c, None) == Ok::<(TaskRefV, Source), Seq<char>>(
            (t, Source::WorktreePointer),
        ),
        t.id == id,
        resolve::gate(c, Source::WorktreePointer) is None,
{
    write_laws::law_pointers_read_back(id);
    write_laws::lemma_with_id(store::all_tasks(c.store), id, 0);
}

/// A task that was started in the main repository is the current one there.
pub proof fn law_a_started_task_is_current(c: CtxV, id: Seq<char>, t: TaskRefV)
    requires
        facts::snug(id),
        id.len() > 0,
        c.repo.pointer is None,
        crate::projects::given(c.env_task) is None,
        storing::current_step(c.store.root, id) matches StepV::Write { text, .. }
            && c.store.current == Some(text),
        store::with_id_from(store::all_tasks(c.store), id, 0) == Some(t),
    ensures
        resolve::resolved(c, None) == Ok::<(TaskRefV, Source), Seq<char>>(
            (t, Source::CurrentFile),
        ),
{
    write_laws::law_pointers_read_back(id);
}

// ---------------------------------------------------------------------------
// The doctor
// ---------------------------------------------------------------------------

/// A document that was put right needs no more of it: its status is that of its
/// directory.
pub proof fn law_the_doctor_settles_a_status(
    c: local::CareV,
    t: TaskRefV,
    now: Seq<char>,
    later: Seq<char>,
)
    ensures
        local::status_cared(
            c,
            TaskRefV { doc: local::restated(t, now), ..t },
            later,
        ) == c,
{
}

// ---------------------------------------------------------------------------
// Which task
// ---------------------------------------------------------------------------

/// A command that names a task is about that task, and one that names none about the one
/// that is resolved.
pub proof fn law_a_command_is_about_the_task_it_names(c: CtxV, query: Seq<char>)
    ensures
        lifecycle::target_of(c, Some(query)) == store::found(store::all_tasks(c.store), query),
        resolve::resolved(c, None) matches Ok((t, _)) ==> lifecycle::target_of(c, None) == Ok::<
            TaskRefV,
            Seq<char>,
        >(t),
        resolve::resolved(c, None) is Err ==> lifecycle::target_of(c, None) is Err,
{
}

/// Nothing is changed where it is not clear which task is meant: neither where none is
/// resolved, nor where the current one is only one of several that are active.
pub proof fn law_an_unclear_task_is_not_changed(c: CtxV, flag: Option<Seq<char>>, now: Seq<char>)
    ensures
        ({
            let a = items::mutable_task(c, flag, now);
            match resolve::resolved(c, flag) {
                Err(_) => a.task is Err && a.steps.len() == 0,
                Ok((t, source)) => {
                    let several = resolve::with_status(
                        store::all_tasks(c.store),
                        crate::store::Status::Active,
                    ).len() >= 2;
                    &&& source == Source::CurrentFile && several ==> a.task is Err && a.steps.len()
                        == 0
                    &&& !(source == Source::CurrentFile && several) ==> a == items::assigned(
                        c.store,
                        t,
                        now,
                    )
                },
            }
        }),
{
}

/// The ids that are offered where an item is not found are those of the items, in order.
pub proof fn law_the_ids_of_the_items_are_offered(its: Seq<ItemV>, it: ItemV)
    ensures
        items::ids_of(its.push(it)) == (match it.id {
            Some(id) => items::ids_of(its).push(id),
            None => items::ids_of(its),
        }),
        items::ids_of(Seq::<ItemV>::empty()).len() == 0,
{
    assert(its.push(it).drop_last() =~= its);
}

/// A refusal about an item says that a task was named where one was; else it names the
/// task and, where it has items, all their ids.
pub proof fn law_a_refusal_about_an_item_helps(
    s: StoreV,
    t: TaskRefV,
    id: Seq<char>,
    base: Seq<char>,
)
    ensures
        ({
            let m = items::item_hint(s, t, id, base);
            let ids = items::ids_of(checklist::items_of(t.doc.body));
            &&& store::found(store::all_tasks(s), id) is Ok ==> text::begins(
                m,
                "'"@ + id + "' is a task, not an item"@,
            )
            &&& store::found(store::all_tasks(s), id) is Err ==> text::begins(m, base) && text::has(
                m,
                t.slug,
            ) && (ids.len() > 0 ==> text::ends(m, text::joined(ids, ", "@)))
        }),
{
    let m = items::item_hint(s, t, id, base);
    let ids = items::ids_of(checklist::items_of(t.doc.body));
    if store::found(store::all_tasks(s), id) is Ok {
        let p = "'"@ + id + "' is a task, not an item"@;
        reveal_strlit("' is a task, not an item");
        reveal_strlit(
            "' is a task, not an item — pass an item number (see `rein status`), e.g. `rein check 1 --task ",
        );
        assert(m.subrange(0, p.len() as int) =~= p);
    } else {
        assert(m.subrange(0, base.len() as int) =~= base);
        if ids.len() == 0 {
            let k = base.len() as int + " — '"@.len();
            assert(m.subrange(k, k + t.slug.len()) =~= t.slug);
            facts::lemma_occurs_has(m, t.slug, k);
        } else {
            let k = base.len() as int + ". available items in "@.len();
            assert(m.subrange(k, k + t.slug.len()) =~= t.slug);
            facts::lemma_occurs_has(m, t.slug, k);
            let j = text::joined(ids, ", "@);
            assert(m.subrange(m.len() - j.len(), m.len() as int) =~= j);
        }
    }
}

} // verus!
