//! Sync steps: what one pull or one push does, given the body that is remote.
use crate::commands::items::{self, set_body, write_doc};
use crate::commands::lifecycle::{self, with_number};
use crate::commands::plan::{self, no_steps, push_say, push_step, push_steps, OnFail, OnFailV};
use crate::commands::plan::{StateEdit, StateEditV, Step, StepV};
use crate::gh::{Gh, GhCall, GhCallV};
use crate::paths;
use crate::state::{self, TaskStateV};
use crate::store::{self, Store, StoreV, TaskRef, TaskRefV};
use crate::sync::{self, Conflict, ConflictV, SyncPlan};
use crate::task;
use crate::task::doc;
use crate::task::managed;
use crate::task::sections;
use crate::text;
use vstd::prelude::*;
use vstd::string::*;

verus! {

// ---------------------------------------------------------------------------
// Results
// ---------------------------------------------------------------------------

/// Why a sync came to nothing.
#[derive(Debug)]
pub enum SyncError {
    Refused(String),
    Conflict(Conflict),
}

/// What a [`SyncError`] stands for.
#[verifier::ext_equal]
pub enum SyncErrorV {
    Refused(Seq<char>),
    Conflict(ConflictV),
}

impl View for SyncError {
    type V = SyncErrorV;

    open spec fn view(&self) -> SyncErrorV {
        match self {
            SyncError::Refused(m) => SyncErrorV::Refused(m@),
            SyncError::Conflict(c) => SyncErrorV::Conflict(c@),
        }
    }
}

impl SyncError {
    /// What the user is told.
    pub fn message(&self) -> (r: String)
        ensures
            match self {
                SyncError::Refused(m) => r@ == m@,
                SyncError::Conflict(c) => r@ == sync::conflict_text(c@),
            },
    {
        match self {
            SyncError::Refused(m) => m.clone(),
            SyncError::Conflict(c) => c.message(),
        }
    }
}

/// What comes of a sync: the steps to do, the store after them, and whether
/// anything changed.
#[derive(Debug)]
pub struct Synced {
    pub steps: Vec<Step>,
    pub store: Store,
    pub result: Result<bool, SyncError>,
}

/// What a [`Synced`] stands for.
#[verifier::ext_equal]
pub struct SyncedV {
    pub steps: Seq<StepV>,
    pub store: StoreV,
    pub result: Result<bool, SyncErrorV>,
}

impl View for Synced {
    type V = SyncedV;

    open spec fn view(&self) -> SyncedV {
        SyncedV {
            steps: text::views(self.steps@),
            store: self.store@,
            result: match self.result {
                Ok(b) => Ok(b),
                Err(e) => Err(e@),
            },
        }
    }
}

// ---------------------------------------------------------------------------
// Backups
// ---------------------------------------------------------------------------

/// The steps that leave both versions of a task that is in conflict.
pub open spec fn backups(
    root: Seq<char>,
    slug: Seq<char>,
    local: Seq<char>,
    remote: Seq<char>,
) -> Seq<StepV> {
    seq![
        StepV::MakeDir(paths::joined_path(root, "conflicts"@)),
        StepV::Write {
            path: sync::backup_path(root, slug, ".local.md"@),
            text: text::trimmed(local) + "\n"@,
        },
        StepV::Write {
            path: sync::backup_path(root, slug, ".remote.md"@),
            text: text::trimmed(remote) + "\n"@,
        },
    ]
}

/// A block as a backup holds it.
fn as_backup(block: &str) -> (r: String)
    ensures
        r@ == text::trimmed(block@) + "\n"@,
{
    let mut r = text::trim(block);
    r.append("\n");
    r
}

/// Leave both versions of a task that is in conflict.
pub fn write_conflict(store: &Store, task: &TaskRef, local: &str, remote: &str) -> (r: Vec<Step>)
    ensures
        text::views(r@) == backups(store@.root, task@.slug, local@, remote@),
{
    let (lp, rp) = sync::conflict_paths(store, task);
    let mut steps = no_steps();
    push_step(&mut steps, Step::MakeDir(store.conflicts_dir()));
    push_step(&mut steps, Step::Write { path: lp, text: as_backup(local) });
    push_step(&mut steps, Step::Write { path: rp, text: as_backup(remote) });
    assert(text::views(steps@) =~= backups(store@.root, task@.slug, local@, remote@));
    steps
}

/// The steps that drop the backups of a task.
pub open spec fn no_backups(root: Seq<char>, slug: Seq<char>) -> Seq<StepV> {
    seq![
        StepV::RemoveQuietly(sync::backup_path(root, slug, ".local.md"@)),
        StepV::RemoveQuietly(sync::backup_path(root, slug, ".remote.md"@)),
    ]
}

/// Drop the backups of a task.
pub fn clear_conflict(store: &Store, task: &TaskRef) -> (r: Vec<Step>)
    ensures
        text::views(r@) == no_backups(store@.root, task@.slug),
{
    let (lp, rp) = sync::conflict_paths(store, task);
    let mut steps = no_steps();
    push_step(&mut steps, Step::RemoveQuietly(lp));
    push_step(&mut steps, Step::RemoveQuietly(rp));
    assert(text::views(steps@) =~= no_backups(store@.root, task@.slug));
    steps
}

// ---------------------------------------------------------------------------
// Pulling
// ---------------------------------------------------------------------------

/// The hash of an optional block.
pub open spec fn opt_hash(block: Option<Seq<char>>) -> Option<Seq<char>> {
    match block {
        Some(b) => Some(sync::hash_of(b)),
        None => None,
    }
}

/// The hash of an optional block.
fn hash_opt(block: &Option<String>) -> (r: Option<String>)
    ensures
        text::opt_view(r) == opt_hash(text::opt_view(*block)),
{
    match block {
        Some(b) => Some(sync::hash_block(b)),
        None => None,
    }
}

/// An optional block; empty where there is none.
pub open spec fn block_text(block: Option<Seq<char>>) -> Seq<char> {
    match block {
        Some(b) => b,
        None => ""@,
    }
}

/// An optional block; empty where there is none.
fn text_of(block: &Option<String>) -> (r: String)
    ensures
        r@ == block_text(text::opt_view(*block)),
{
    match block {
        Some(b) => b.clone(),
        None => String::from_str(""),
    }
}

/// What pulling a remote body into a task with ids does.
pub open spec fn adopted(
    s: StoreV,
    steps: Seq<StepV>,
    t: TaskRefV,
    remote: Seq<char>,
    strict: bool,
    now: Seq<char>,
) -> SyncedV {
    let local = managed::issue_block(t.doc);
    let block = sync::block_in(remote);
    let st = state::state_from(s.states, t.id, 0);
    if block is None && strict {
        SyncedV {
            steps,
            store: s,
            result: Err(
                SyncErrorV::Refused(
                    "issue body has no managed section for '"@ + t.slug + "'"@,
                ),
            ),
        }
    } else {
        match sync::planned(st.issue_synced_hash, sync::hash_of(local), opt_hash(block)) {
            SyncPlan::UpToDate | SyncPlan::Push => SyncedV { steps, store: s, result: Ok(false) },
            SyncPlan::Pull => match managed::managed_of(remote) {
                Some((_, _, inner)) => {
                    let d = items::with_body(t.doc, sections::merged_body(inner, t.doc.body), now);
                    SyncedV {
                        steps: steps.push(items::write_step(t, d)).push(
                            StepV::EditState {
                                id: t.id,
                                edits: seq![StateEditV::IssueHash(opt_hash(block))],
                            },
                        ) + no_backups(s.root, t.slug),
                        store: store::stated(
                            store::written(s, t.path, doc::serialized(d)),
                            t.id,
                            TaskStateV { issue_synced_hash: opt_hash(block), ..st },
                        ),
                        result: Ok(true),
                    }
                },
                None => SyncedV {
                    steps,
                    store: s,
                    result: Err(SyncErrorV::Refused("managed section disappeared"@)),
                },
            },
            SyncPlan::Conflict => SyncedV {
                steps: steps + backups(s.root, t.slug, local, block_text(block)),
                store: s,
                result: Err(
                    SyncErrorV::Conflict(ConflictV { surface: "issue"@, slug: t.slug }),
                ),
            },
        }
    }
}

/// What pulling a remote body into a task does.
pub open spec fn pulled(
    s: StoreV,
    t: TaskRefV,
    remote: Seq<char>,
    strict: bool,
    now: Seq<char>,
) -> SyncedV {
    match sync::owned_by_other(remote, t.id) {
        Some(e) => SyncedV { steps: seq![], store: s, result: Err(SyncErrorV::Refused(e)) },
        None => {
            let a = items::assigned(s, t, now);
            match a.task {
                Err(e) => SyncedV {
                    steps: a.steps,
                    store: a.store,
                    result: Err(SyncErrorV::Refused(e)),
                },
                Ok(fresh) => adopted(a.store, a.steps, fresh, remote, strict, now),
            }
        },
    }
}

/// Pulls a remote body into a task with ids.
fn adopt(
    store: Store,
    before: Vec<Step>,
    task: &TaskRef,
    remote_body: &str,
    strict: bool,
    now: &str,
) -> (r: Synced)
    ensures
        r@ == adopted(store@, text::views(before@), task@, remote_body@, strict, now@),
{
    let mut steps = before;
    let local_block = task::issue_projection(&task.doc);
    let local_hash = sync::hash_block(&local_block);
    let remote_block = sync::remote_block(remote_body);
    if remote_block.is_none() && strict {
        let mut m = String::from_str("issue body has no managed section for '");
        m.append(&task.slug);
        m.append("'");
        return Synced { steps, store, result: Err(SyncError::Refused(m)) };
    }
    let remote_hash = hash_opt(&remote_block);
    let st = state::load(&store, &task.id);
    match sync::plan(as_str(&st.issue_synced_hash), &local_hash, as_str(&remote_hash)) {
        // pull never writes remote
        SyncPlan::UpToDate | SyncPlan::Push => Synced { steps, store, result: Ok(false) },
        SyncPlan::Pull => match task::extract_managed(remote_body) {
            Some((_, _, inner)) => {
                let body = task::body_from_remote(&inner, &task.doc.body);
                let d = set_body(&task.doc, body, now);
                push_step(&mut steps, write_doc(task, &d));
                let mut edits: Vec<StateEdit> = Vec::new();
                edits.push(StateEdit::IssueHash(text::clone_opt(&remote_hash)));
                assert(text::views(edits@) =~= seq![
                    StateEditV::IssueHash(text::opt_view(remote_hash)),
                ]);
                push_step(&mut steps, Step::EditState { id: task.id.clone(), edits });
                push_steps(&mut steps, clear_conflict(&store, task));
                let mut st = st;
                st.issue_synced_hash = remote_hash;
                let after = store.after_write(&task.path, &d.serialize()).after_state(
                    &task.id,
                    st,
                );
                Synced { steps, store: after, result: Ok(true) }
            },
            None => Synced {
                steps,
                store,
                result: Err(SyncError::Refused(String::from_str("managed section disappeared"))),
            },
        },
        SyncPlan::Conflict => {
            push_steps(
                &mut steps,
                write_conflict(&store, task, &local_block, &text_of(&remote_block)),
            );
            let c = sync::conflict_error(task, "issue");
            Synced { steps, store, result: Err(SyncError::Conflict(c)) }
        },
    }
}

/// An optional text, borrowed.
fn as_str(o: &Option<String>) -> (r: Option<&str>)
    ensures
        crate::projects::str_view(r) == text::opt_view(*o),
{
    match o {
        Some(s) => Some(s.as_str()),
        None => None,
    }
}

/// Apply remote → local for one task using the 3-way table.
/// Says whether the local doc changed. `strict` errors on remote-missing.
pub fn pull_into(
    store: &Store,
    task: &TaskRef,
    remote_body: &str,
    strict: bool,
    now: &str,
) -> (r: Synced)
    ensures
        r@ == pulled(store@, task@, remote_body@, strict, now@),
{
    match sync::check_ownership(remote_body, &task.id) {
        Err(e) => Synced {
            steps: no_steps(),
            store: store.clone(),
            result: Err(SyncError::Refused(e)),
        },
        Ok(_) => {
            let a = items::assign_ids(store, task, now);
            match a.task {
                Err(e) => Synced {
                    steps: a.steps,
                    store: a.store,
                    result: Err(SyncError::Refused(e)),
                },
                Ok(fresh) => adopt(a.store, a.steps, &fresh, remote_body, strict, now),
            }
        },
    }
}

// ---------------------------------------------------------------------------
// Pushing
// ---------------------------------------------------------------------------

/// Where a task is published.
#[derive(Debug, Clone, Copy, PartialEq, Eq)]
pub enum Surface {
    Issue(u64),
    Pr(u64),
    /// A pull request of a task whose issue holds its description.
    Unmanaged(u64),
}

/// The surfaces of a task.
pub open spec fn surfaces_of(t: TaskRefV) -> Seq<Surface> {
    match (t.doc.front.github_issue, t.doc.front.github_pr) {
        (Some(i), Some(p)) => seq![Surface::Issue(i), Surface::Unmanaged(p)],
        (Some(i), None) => seq![Surface::Issue(i)],
        (None, Some(p)) => seq![Surface::Pr(p)],
        (None, None) => seq![],
    }
}

/// The surfaces of a task. The issue of a task holds its description, so the pull
/// request of a task with an issue is left alone.
pub fn surfaces(task: &TaskRef) -> (r: Vec<Surface>)
    ensures
        r@ == surfaces_of(task@),
{
    let mut out: Vec<Surface> = Vec::new();
    match task.doc.front.github_issue {
        Some(i) => {
            out.push(Surface::Issue(i));
            match task.doc.front.github_pr {
                Some(p) => {
                    out.push(Surface::Unmanaged(p));
                },
                None => {},
            }
        },
        None => match task.doc.front.github_pr {
            Some(p) => {
                out.push(Surface::Pr(p));
            },
            None => {},
        },
    }
    assert(out@ =~= surfaces_of(task@));
    out
}

impl Surface {
    /// What it is called.
    pub open spec fn called(self) -> Seq<char> {
        match self {
            Surface::Issue(_) => "issue"@,
            _ => "PR"@,
        }
    }

    /// Its number.
    pub open spec fn at(self) -> u64 {
        match self {
            Surface::Issue(n) => n,
            Surface::Pr(n) => n,
            Surface::Unmanaged(n) => n,
        }
    }

    /// What it is called.
    pub fn name(&self) -> (r: &'static str)
        ensures
            r@ == self.called(),
    {
        match self {
            Surface::Issue(_) => "issue",
            _ => "PR",
        }
    }

    /// Its number.
    pub fn number(&self) -> (r: u64)
        ensures
            r == self.at(),
    {
        match self {
            Surface::Issue(n) => *n,
            Surface::Pr(n) => *n,
            Surface::Unmanaged(n) => *n,
        }
    }

    /// The call that shows its body, where rein manages it.
    pub open spec fn viewed_by(self) -> Option<GhCallV> {
        if self is Unmanaged {
            None
        } else {
            Some(
                GhCallV {
                    args: seq![
                        if self is Issue {
                            "issue"@
                        } else {
                            "pr"@
                        },
                        "view"@,
                        text::decimal(self.at() as nat),
                        "--json"@,
                        "body"@,
                    ],
                    stdin: None,
                },
            )
        }
    }

    /// The call that shows its body, where rein manages it.
    pub fn view_call(&self) -> (r: Option<GhCall>)
        ensures
            match r {
                Some(c) => self.viewed_by() == Some(c@),
                None => self.viewed_by() is None,
            },
    {
        match self {
            Surface::Issue(n) => Some(Gh::issue_view_body(*n)),
            Surface::Pr(n) => Some(Gh::pr_view_body(*n)),
            Surface::Unmanaged(_) => None,
        }
    }
}

/// A line about a surface.
pub open spec fn surface_line(on: Surface, what: Seq<char>) -> Seq<char> {
    lifecycle::numbered_text(on.called() + " #"@, on.at()) + what
}

/// A line about a surface.
fn line_about(on: &Surface, what: &str) -> (r: String)
    ensures
        r@ == surface_line(*on, what@),
{
    let mut head = String::from_str(on.name());
    head.append(" #");
    let mut line = with_number(&head, on.number());
    line.append(what);
    line
}

/// The block of a task on a surface.
pub open spec fn surface_block(t: TaskRefV, on: Surface) -> Seq<char> {
    if on is Issue {
        managed::issue_block(t.doc)
    } else {
        managed::pr_block(t.doc)
    }
}

/// The hash that the last sync of a surface left.
pub open spec fn surface_base(s: StoreV, t: TaskRefV, on: Surface) -> Option<Seq<char>> {
    let st = state::state_from(s.states, t.id, 0);
    if on is Issue {
        st.issue_synced_hash
    } else {
        st.pr_synced_hash
    }
}

/// The change of the state that a sync of a surface leaves.
pub open spec fn surface_edit(on: Surface, hash: Option<Seq<char>>) -> StateEditV {
    if on is Issue {
        StateEditV::IssueHash(hash)
    } else {
        StateEditV::PrHash(hash)
    }
}

/// The call that rewrites the body of a surface.
pub open spec fn edit_call(on: Surface, body: Seq<char>) -> GhCallV {
    GhCallV {
        args: seq![
            if on is Issue {
                "issue"@
            } else {
                "pr"@
            },
            "edit"@,
            text::decimal(on.at() as nat),
            "--body-file"@,
            "-"@,
        ],
        stdin: Some(body),
    }
}

/// What comes of a push.
#[derive(Debug)]
pub struct Pushed {
    pub steps: Vec<Step>,
    pub error: Option<SyncError>,
}

/// What a [`Pushed`] stands for.
#[verifier::ext_equal]
pub struct PushedV {
    pub steps: Seq<StepV>,
    pub error: Option<SyncErrorV>,
}

impl View for Pushed {
    type V = PushedV;

    open spec fn view(&self) -> PushedV {
        PushedV {
            steps: text::views(self.steps@),
            error: match self.error {
                Some(e) => Some(e@),
                None => None,
            },
        }
    }
}

/// The plan of a push: forced where the user resolved a conflict.
pub open spec fn push_plan(
    s: StoreV,
    t: TaskRefV,
    on: Surface,
    remote: Seq<char>,
    resolved: bool,
) -> SyncPlan {
    if resolved {
        SyncPlan::Push
    } else {
        sync::planned(
            surface_base(s, t, on),
            sync::hash_of(surface_block(t, on)),
            opt_hash(sync::block_in(remote)),
        )
    }
}

/// What pushing a task to a surface does, given the body that is there.
pub open spec fn pushed(
    s: StoreV,
    t: TaskRefV,
    on: Surface,
    remote: Seq<char>,
    resolved: bool,
) -> PushedV {
    let local = surface_block(t, on);
    if on is Unmanaged {
        PushedV { steps: seq![StepV::Say(surface_line(on, ": unmanaged"@))], error: None }
    } else {
        match sync::owned_by_other(remote, t.id) {
            Some(e) => PushedV { steps: seq![], error: Some(SyncErrorV::Refused(e)) },
            None => match push_plan(s, t, on, remote, resolved) {
                SyncPlan::UpToDate => PushedV {
                    steps: seq![StepV::Say(surface_line(on, ": up to date"@))],
                    error: None,
                },
                SyncPlan::Pull => PushedV {
                    steps: seq![],
                    error: Some(
                        SyncErrorV::Refused(
                            surface_line(
                                on,
                                " changed remotely and local is unchanged — run `rein pull` first"@,
                            ),
                        ),
                    ),
                },
                SyncPlan::Push => PushedV {
                    steps: (seq![
                        StepV::Gh {
                            call: edit_call(on, managed::with_block(remote, local)),
                            on_fail: OnFailV::Abort,
                        },
                        StepV::EditState {
                            id: t.id,
                            edits: seq![surface_edit(on, Some(sync::hash_of(local)))],
                        },
                    ] + no_backups(s.root, t.slug)).push(
                        StepV::Say(surface_line(on, ": pushed"@)),
                    ),
                    error: None,
                },
                SyncPlan::Conflict => PushedV {
                    steps: backups(s.root, t.slug, local, block_text(sync::block_in(remote))),
                    error: Some(
                        SyncErrorV::Conflict(ConflictV { surface: on.called(), slug: t.slug }),
                    ),
                },
            },
        }
    }
}

/// Pushes a task to a surface, given the body that is there.
pub fn push_surface(
    store: &Store,
    task: &TaskRef,
    on: &Surface,
    remote_body: &str,
    resolved: bool,
) -> (r: Pushed)
    ensures
        r@ == pushed(store@, task@, *on, remote_body@, resolved),
{
    let (local_block, base) = match on {
        Surface::Unmanaged(_) => {
            let mut steps = no_steps();
            push_say(&mut steps, line_about(on, ": unmanaged"));
            assert(text::views(steps@) =~= seq![StepV::Say(surface_line(*on, ": unmanaged"@))]);
            return Pushed { steps, error: None };
        },
        Surface::Issue(_) => (
            task::issue_projection(&task.doc),
            state::load(store, &task.id).issue_synced_hash,
        ),
        Surface::Pr(_) => (
            task::pr_projection(&task.doc),
            state::load(store, &task.id).pr_synced_hash,
        ),
    };
    match sync::check_ownership(remote_body, &task.id) {
        Err(e) => {
            return Pushed { steps: no_steps(), error: Some(SyncError::Refused(e)) };
        },
        Ok(_) => {},
    }
    let local_hash = sync::hash_block(&local_block);
    let remote_block = sync::remote_block(remote_body);
    let remote_hash = hash_opt(&remote_block);
    let plan = if resolved {
        SyncPlan::Push
    } else {
        sync::plan(as_str(&base), &local_hash, as_str(&remote_hash))
    };
    match plan {
        SyncPlan::UpToDate => {
            let mut steps = no_steps();
            push_say(&mut steps, line_about(on, ": up to date"));
            assert(text::views(steps@) =~= seq![StepV::Say(surface_line(*on, ": up to date"@))]);
            Pushed { steps, error: None }
        },
        SyncPlan::Pull => Pushed {
            steps: no_steps(),
            error: Some(
                SyncError::Refused(
                    line_about(
                        on,
                        " changed remotely and local is unchanged — run `rein pull` first",
                    ),
                ),
            ),
        },
        SyncPlan::Push => {
            let new_body = task::replace_managed(remote_body, &local_block);
            let call = match on {
                Surface::Issue(n) => Gh::issue_edit_body(*n, &new_body),
                _ => Gh::pr_edit_body(on.number(), &new_body),
            };
            let mut edits: Vec<StateEdit> = Vec::new();
            match on {
                Surface::Issue(_) => {
                    edits.push(StateEdit::IssueHash(Some(local_hash)));
                },
                _ => {
                    edits.push(StateEdit::PrHash(Some(local_hash)));
                },
            }
            assert(text::views(edits@) =~= seq![surface_edit(*on, Some(local_hash@))]);
            let mut steps = no_steps();
            push_step(&mut steps, Step::Gh { call, on_fail: OnFail::Abort });
            push_step(&mut steps, Step::EditState { id: task.id.clone(), edits });
            assert(text::views(steps@) =~= seq![
                StepV::Gh {
                    call: edit_call(*on, managed::with_block(remote_body@, local_block@)),
                    on_fail: OnFailV::Abort,
                },
                StepV::EditState {
                    id: task@.id,
                    edits: seq![surface_edit(*on, Some(local_hash@))],
                },
            ]);
            push_steps(&mut steps, clear_conflict(store, task));
            push_say(&mut steps, line_about(on, ": pushed"));
            Pushed { steps, error: None }
        },
        SyncPlan::Conflict => {
            let steps = write_conflict(store, task, &local_block, &text_of(&remote_block));
            let c = sync::conflict_error(task, on.name());
            Pushed { steps, error: Some(SyncError::Conflict(c)) }
        },
    }
}

} // verus!
