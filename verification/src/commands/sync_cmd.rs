//! Commands that share tasks on GitHub.
use crate::commands::items::{self, write_doc, Assigned, AssignedV};
use crate::commands::lifecycle::{self, with_number};
use crate::commands::plan::{self, no_steps, one_step, push_say, push_step, push_steps, refuse};
use crate::commands::plan::{FrontEdit, FrontEditV, Outcome, OutcomeV};
use crate::commands::plan::{StateEdit, StateEditV, Step, StepV};
use crate::commands::storing;
use crate::commands::syncing::{self, pull_into, surfaces, Surface, SyncError, SyncErrorV};
use crate::ctx::{Ctx, CtxV};
use crate::gh::{Gh, GhCall, GhCallV, RemoteIssue, RemoteIssueV};
use crate::paths;
use crate::resolve;
use crate::state::{self, TaskStateV};
use crate::store::{self, Status, Store, StoreV, TaskRef, TaskRefV};
use crate::sync;
use crate::task::doc::{self, FrontmatterV, TaskDocV};
use crate::task::managed;
use crate::task::sections;
use crate::task::{self, TaskDoc};
use crate::text;
use crate::util;
use vstd::prelude::*;
use vstd::string::*;

verus! {

// ---------------------------------------------------------------------------
// issue
// ---------------------------------------------------------------------------

/// The task that `rein issue` publishes, with its ids given.
pub open spec fn issue_task(c: CtxV, query: Seq<char>, now: Seq<char>) -> AssignedV {
    match store::found(store::all_tasks(c.store), query) {
        Err(e) => AssignedV { steps: seq![], store: c.store, task: Err(e) },
        Ok(t) => match t.doc.front.github_issue {
            Some(n) => AssignedV {
                steps: seq![],
                store: c.store,
                task: Err(
                    lifecycle::numbered_text("'"@ + t.slug + "' is already issue #"@, n)
                        + " — use `rein push`"@,
                ),
            },
            None => items::assigned(c.store, t, now),
        },
    }
}

/// `rein issue <task> [--project <name>]` — publish a local doc as a new GitHub
/// issue, optionally filing it onto a Project board: the task to publish, with its
/// ids given.
pub fn issue(ctx: &Ctx, query: &str, now: &str) -> (r: Assigned)
    ensures
        r@ == issue_task(ctx@, query@, now@),
{
    match ctx.store.find(query) {
        Err(e) => items::unassigned(&ctx.store, e),
        Ok(t) => match t.doc.front.github_issue {
            Some(n) => {
                let mut m = String::from_str("'");
                m.append(&t.slug);
                m.append("' is already issue #");
                let mut m = with_number(&m, n);
                m.append(" — use `rein push`");
                items::unassigned(&ctx.store, m)
            },
            None => items::assign_ids(&ctx.store, &t, now),
        },
    }
}

/// The call that creates the issue of a task.
pub open spec fn create_call(t: TaskRefV, project: Option<Seq<char>>) -> GhCallV {
    GhCallV {
        args: seq![
            "issue"@,
            "create"@,
            "--title"@,
            t.doc.front.title,
            "--body-file"@,
            "-"@,
            "--label"@,
            "rein"@,
        ] + (match project {
            Some(p) => seq!["--project"@, p],
            None => Seq::<Seq<char>>::empty(),
        }),
        stdin: Some(managed::issue_block(t.doc)),
    }
}

/// The call that creates the issue of a task.
pub fn issue_call(task: &TaskRef, project: &Option<String>) -> (r: GhCall)
    ensures
        r@ == create_call(task@, text::opt_view(*project)),
{
    Gh::issue_create(&task.doc.front.title, &task::issue_projection(&task.doc), project)
}

/// What is done once the issue of a task is there.
pub open spec fn issue_recorded(t: TaskRefV, number: u64) -> Seq<StepV> {
    seq![
        StepV::EditFront { path: t.path, edit: FrontEditV::Issue(number) },
        StepV::EditState {
            id: t.id,
            edits: seq![
                StateEditV::IssueHash(Some(sync::hash_of(managed::issue_block(t.doc)))),
            ],
        },
        StepV::Say(lifecycle::numbered_text("issue #"@, number) + " created for "@ + t.id),
    ]
}

/// Records the issue of a task.
pub fn issue_created(task: &TaskRef, number: u64) -> (r: Vec<Step>)
    ensures
        text::views(r@) == issue_recorded(task@, number),
{
    let block = task::issue_projection(&task.doc);
    let mut edits: Vec<StateEdit> = Vec::new();
    edits.push(StateEdit::IssueHash(Some(sync::hash_block(&block))));
    assert(text::views(edits@) =~= seq![
        StateEditV::IssueHash(Some(sync::hash_of(managed::issue_block(task@.doc)))),
    ]);
    let mut steps = one_step(
        Step::EditFront { path: task.path.clone(), edit: FrontEdit::Issue(number) },
    );
    push_step(&mut steps, Step::EditState { id: task.id.clone(), edits });
    let mut line = with_number("issue #", number);
    line.append(" created for ");
    line.append(&task.id);
    push_say(&mut steps, line);
    assert(text::views(steps@) =~= issue_recorded(task@, number));
    steps
}

// ---------------------------------------------------------------------------
// pull-inbox
// ---------------------------------------------------------------------------

/// The task that an issue is, where it is known: by its marker, or by its number.
pub open spec fn known_as(s: StoreV, ri: RemoteIssueV) -> Option<TaskRefV> {
    let ts = store::all_tasks(s);
    let marked = match managed::managed_of(ri.body) {
        Some((id, _, _)) => store::with_id_from(ts, id, 0),
        None => None,
    };
    match marked {
        Some(t) => Some(t),
        None => store::with_issue_from(ts, ri.number, 0),
    }
}

/// The task that an issue is, where it is known. Identity: marker ID first, then
/// issue number.
fn find_known(s: &Store, ri: &RemoteIssue) -> (r: Option<TaskRef>)
    ensures
        store::opt_task(r) == known_as(s@, ri@),
{
    let marked = match task::extract_managed(&ri.body) {
        Some((id, _, _)) => s.find_by_id(&id),
        None => None,
    };
    match marked {
        Some(t) => Some(t),
        None => s.find_by_issue(ri.number),
    }
}

/// The slug of an imported issue.
pub open spec fn import_slug(s: StoreV, ri: RemoteIssueV) -> Seq<char> {
    store::free_slug(store::slugs_of(store::all_tasks(s)), util::slug_of(ri.title))
}

/// The id of an imported issue: its marker carries one, and only issues that humans
/// created get a fresh one.
pub open spec fn import_id(s: StoreV, ri: RemoteIssueV, today: Seq<char>) -> Seq<char> {
    match managed::managed_of(ri.body) {
        Some((id, _, _)) => id,
        None => "task-"@ + today + "-"@ + import_slug(s, ri),
    }
}

/// What an imported issue says.
pub open spec fn import_inner(ri: RemoteIssueV) -> Seq<char> {
    match managed::managed_of(ri.body) {
        Some((_, _, inner)) => inner,
        None => text::trimmed(ri.body),
    }
}

/// The document of an imported issue.
pub open spec fn import_doc(
    s: StoreV,
    ri: RemoteIssueV,
    today: Seq<char>,
    now: Seq<char>,
) -> TaskDocV {
    let d = doc::new_doc(import_id(s, ri, today), ri.title, "inbox"@, now, true);
    TaskDocV {
        front: FrontmatterV { github_issue: Some(ri.number), ..d.front },
        body: if import_inner(ri).len() == 0 {
            d.body
        } else {
            sections::merged_body(import_inner(ri), d.body)
        },
    }
}

/// Where an imported issue is kept.
pub open spec fn import_path(s: StoreV, ri: RemoteIssueV) -> Seq<char> {
    paths::joined_path(
        store::dir_of(s.root, Status::Inbox),
        storing::doc_name(import_slug(s, ri)),
    )
}

/// The hash that an import leaves: the remote is the base that was adopted.
pub open spec fn import_hash(
    s: StoreV,
    ri: RemoteIssueV,
    today: Seq<char>,
    now: Seq<char>,
) -> Seq<char> {
    match sync::block_in(ri.body) {
        Some(b) => sync::hash_of(b),
        None => sync::hash_of(managed::issue_block(import_doc(s, ri, today, now))),
    }
}

/// The place of a new inbox document, as its state records it.
pub open spec fn inbox_rel(slug: Seq<char>) -> Seq<char> {
    "inbox/"@ + slug + ".md"@
}

/// The place of a new inbox document, as its state records it.
pub fn inbox_place(slug: &str) -> (r: String)
    ensures
        r@ == inbox_rel(slug@),
{
    let mut r = String::from_str("inbox/");
    r.append(slug);
    r.append(".md");
    r
}

/// What importing an issue does.
pub open spec fn import_steps(
    s: StoreV,
    ri: RemoteIssueV,
    today: Seq<char>,
    now: Seq<char>,
) -> Seq<StepV> {
    seq![
        StepV::Write {
            path: import_path(s, ri),
            text: doc::serialized(import_doc(s, ri, today, now)),
        },
        StepV::EditState {
            id: import_id(s, ri, today),
            edits: seq![
                StateEditV::Path(inbox_rel(import_slug(s, ri))),
                StateEditV::IssueHash(Some(import_hash(s, ri, today, now))),
            ],
        },
        StepV::Say(
            lifecycle::numbered_text("imported #"@, ri.number) + " as "@ + import_slug(s, ri),
        ),
    ]
}

/// The store after an issue was imported.
pub open spec fn import_store(
    s: StoreV,
    ri: RemoteIssueV,
    today: Seq<char>,
    now: Seq<char>,
) -> StoreV {
    let id = import_id(s, ri, today);
    let st = state::state_from(s.states, id, 0);
    store::stated(
        store::written(
            s,
            import_path(s, ri),
            doc::serialized(import_doc(s, ri, today, now)),
        ),
        id,
        TaskStateV {
            path: inbox_rel(import_slug(s, ri)),
            issue_synced_hash: Some(import_hash(s, ri, today, now)),
            ..st
        },
    )
}

/// Imports an issue that is not known: the steps, and the store after them.
pub fn import_new(s: &Store, ri: &RemoteIssue, today: &str, now: &str) -> (r: (Vec<Step>, Store))
    ensures
        text::views(r.0@) == import_steps(s@, ri@, today@, now@),
        r.1@ == import_store(s@, ri@, today@, now@),
{
    let slug = s.unique_slug(&util::slugify(&ri.title));
    let (marker, block, inner) = match task::extract_managed(&ri.body) {
        Some((id, block, inner)) => (Some(id), Some(block), inner),
        None => (None, None, text::trim(&ri.body)),
    };
    // marker carries the ID; only human-created issues get a fresh one
    let id = match marker {
        Some(id) => id,
        None => {
            let mut id = String::from_str("task-");
            id.append(today);
            id.append("-");
            id.append(&slug);
            id
        },
    };
    let mut d = TaskDoc::template(&id, &ri.title, "inbox", now, true);
    if !inner.as_str().is_empty() {
        d.body = task::body_from_remote(&inner, &d.body);
    }
    d.front.github_issue = Some(ri.number);
    let mut name = slug.clone();
    name.append(".md");
    let path = paths::join(&s.status_dir(Status::Inbox), &name);
    // remote is the base we just adopted
    let hash = match block {
        Some(b) => sync::hash_block(&b),
        None => sync::hash_block(&task::issue_projection(&d)),
    };
    let text = d.serialize();
    let mut st = state::load(s, &id);
    st.path = inbox_place(&slug);
    st.issue_synced_hash = Some(hash.clone());
    let after = s.after_write(&path, &text).after_state(&id, st);
    let mut edits: Vec<StateEdit> = Vec::new();
    edits.push(StateEdit::Path(inbox_place(&slug)));
    edits.push(StateEdit::IssueHash(Some(hash)));
    assert(text::views(edits@) =~= seq![
        StateEditV::Path(inbox_rel(import_slug(s@, ri@))),
        StateEditV::IssueHash(Some(import_hash(s@, ri@, today@, now@))),
    ]);
    let mut steps = one_step(Step::Write { path, text });
    push_step(&mut steps, Step::EditState { id, edits });
    let mut line = with_number("imported #", ri.number);
    line.append(" as ");
    line.append(&slug);
    push_say(&mut steps, line);
    assert(text::views(steps@) =~= import_steps(s@, ri@, today@, now@));
    (steps, after)
}

/// How far a pull of the inbox came.
pub struct InboxRun {
    pub steps: Vec<Step>,
    pub store: Store,
    pub imported: usize,
    pub updated: usize,
    pub error: Option<SyncError>,
}

/// What an [`InboxRun`] stands for.
#[verifier::ext_equal]
pub struct InboxRunV {
    pub steps: Seq<StepV>,
    pub store: StoreV,
    pub imported: nat,
    pub updated: nat,
    pub error: Option<SyncErrorV>,
}

impl View for InboxRun {
    type V = InboxRunV;

    open spec fn view(&self) -> InboxRunV {
        InboxRunV {
            steps: text::views(self.steps@),
            store: self.store@,
            imported: self.imported as nat,
            updated: self.updated as nat,
            error: match self.error {
                Some(e) => Some(e@),
                None => None,
            },
        }
    }
}

/// A pull of the inbox after one more issue.
#[verifier::opaque]
pub open spec fn inbox_step(
    run: InboxRunV,
    ri: RemoteIssueV,
    today: Seq<char>,
    now: Seq<char>,
) -> InboxRunV {
    match known_as(run.store, ri) {
        Some(t) => {
            let p = syncing::pulled(run.store, t, ri.body, false, now);
            InboxRunV {
                steps: run.steps + p.steps,
                store: p.store,
                imported: run.imported,
                updated: if p.result == Ok::<bool, SyncErrorV>(true) {
                    run.updated + 1
                } else {
                    run.updated
                },
                error: match p.result {
                    Ok(_) => None,
                    Err(e) => Some(e),
                },
            }
        },
        None => InboxRunV {
            steps: run.steps + import_steps(run.store, ri, today, now),
            store: import_store(run.store, ri, today, now),
            imported: run.imported + 1,
            updated: run.updated,
            error: None,
        },
    }
}

/// A pull of the inbox: one issue after the other, up to the first that fails.
pub open spec fn inbox_run(
    s: StoreV,
    issues: Seq<RemoteIssueV>,
    today: Seq<char>,
    now: Seq<char>,
) -> InboxRunV
    decreases issues.len(),
{
    if issues.len() == 0 {
        InboxRunV { steps: seq![], store: s, imported: 0, updated: 0, error: None }
    } else {
        let run = inbox_run(s, issues.drop_last(), today, now);
        if run.error is Some {
            run
        } else {
            inbox_step(run, issues.last(), today, now)
        }
    }
}

/// What `rein pull-inbox` does: the issues are taken, and what came of them is told.
pub open spec fn inbox_told(
    s: StoreV,
    issues: Seq<RemoteIssueV>,
    today: Seq<char>,
    now: Seq<char>,
) -> InboxRunV {
    let run = inbox_run(s, issues, today, now);
    if run.error is Some {
        run
    } else {
        InboxRunV {
            steps: run.steps.push(
                StepV::Say(
                    "pull-inbox: "@ + text::decimal(run.imported) + " imported, "@ + text::decimal(
                        run.updated,
                    ) + " updated"@,
                ),
            ),
            ..run
        }
    }
}

/// Takes one more issue.
fn take_issue(run: InboxRun, ri: &RemoteIssue, today: &str, now: &str) -> (r: InboxRun)
    requires
        run.imported < usize::MAX,
        run.updated < usize::MAX,
    ensures
        r@ == inbox_step(run@, ri@, today@, now@),
        r.imported + r.updated <= run.imported + run.updated + 1,
{
    proof {
        reveal(inbox_step);
    }
    let mut steps = run.steps;
    match find_known(&run.store, ri) {
        Some(t) => {
            let p = pull_into(&run.store, &t, &ri.body, false, now);
            push_steps(&mut steps, p.steps);
            match p.result {
                Ok(changed) => InboxRun {
                    steps,
                    store: p.store,
                    imported: run.imported,
                    updated: if changed {
                        run.updated + 1
                    } else {
                        run.updated
                    },
                    error: None,
                },
                Err(e) => InboxRun {
                    steps,
                    store: p.store,
                    imported: run.imported,
                    updated: run.updated,
                    error: Some(e),
                },
            }
        },
        None => {
            let (more, after) = import_new(&run.store, ri, today, now);
            push_steps(&mut steps, more);
            InboxRun {
                steps,
                store: after,
                imported: run.imported + 1,
                updated: run.updated,
                error: None,
            }
        },
    }
}

/// `rein pull-inbox` — import/refresh all rein-labeled issues. Idempotent:
/// the marker task ID (or the issue number) is the identity.
pub fn pull_inbox(s: &Store, issues: &Vec<RemoteIssue>, today: &str, now: &str) -> (r: InboxRun)
    ensures
        r@ == inbox_told(s@, text::views(issues@), today@, now@),
{
    let ghost all = text::views(issues@);
    let mut run = InboxRun {
        steps: no_steps(),
        store: s.clone(),
        imported: 0,
        updated: 0,
        error: None,
    };
    let mut i: usize = 0;
    while i < issues.len()
        invariant
            0 <= i <= issues.len(),
            all == text::views(issues@),
            run@ == inbox_run(s@, all.take(i as int), today@, now@),
            run.error is None,
            run.imported + run.updated <= i,
        decreases issues.len() - i,
    {
        proof {
            assert(all.take(i as int + 1).drop_last() =~= all.take(i as int));
            assert(all.take(i as int + 1).last() == issues@[i as int]@);
        }
        run = take_issue(run, &issues[i], today, now);
        i += 1;
        if run.error.is_some() {
            proof {
                lemma_failed_run(s@, all, i as int, today@, now@);
            }
            return run;
        }
    }
    proof {
        assert(all.take(i as int) =~= all);
    }
    let mut line = String::from_str("pull-inbox: ");
    line.append(&text::format_u64(run.imported as u64));
    line.append(" imported, ");
    line.append(&text::format_u64(run.updated as u64));
    line.append(" updated");
    push_say(&mut run.steps, line);
    run
}

/// A pull that failed on the first issues has failed on all of them.
proof fn lemma_failed_run(
    s: StoreV,
    issues: Seq<RemoteIssueV>,
    i: int,
    today: Seq<char>,
    now: Seq<char>,
)
    requires
        0 <= i <= issues.len(),
        inbox_run(s, issues.take(i), today, now).error is Some,
    ensures
        inbox_run(s, issues, today, now) == inbox_run(s, issues.take(i), today, now),
    decreases issues.len(),
{
    if i == issues.len() {
        assert(issues.take(i) =~= issues);
    } else {
        assert(issues.drop_last().take(i) =~= issues.take(i));
        lemma_failed_run(s, issues.drop_last(), i, today, now);
    }
}

// ---------------------------------------------------------------------------
// pull
// ---------------------------------------------------------------------------

/// The issue of the resolved task.
pub open spec fn pull_target_of(c: CtxV) -> Result<(TaskRefV, u64), Seq<char>> {
    match resolve::resolved(c, None) {
        Err(e) => Err(e),
        Ok((t, _)) => match t.doc.front.github_issue {
            Some(n) => Ok((t, n)),
            None => Err("'"@ + t.slug + "' has no attached issue"@),
        },
    }
}

/// A refusal that names a task.
fn about(task: &TaskRef, what: &str) -> (r: String)
    ensures
        r@ == "'"@ + task@.slug + what@,
{
    let mut m = String::from_str("'");
    m.append(&task.slug);
    m.append(what);
    m
}

/// The issue of the resolved task.
pub fn pull_target(ctx: &Ctx) -> (r: Result<(TaskRef, u64), String>)
    ensures
        match r {
            Ok((t, n)) => pull_target_of(ctx@) == Ok::<(TaskRefV, u64), Seq<char>>((t@, n)),
            Err(e) => pull_target_of(ctx@) == Err::<(TaskRefV, u64), Seq<char>>(e@),
        },
{
    match resolve::resolve_task(ctx, None) {
        Err(e) => Err(e),
        Ok((t, _)) => match t.doc.front.github_issue {
            Some(n) => Ok((t, n)),
            None => Err(about(&t, "' has no attached issue")),
        },
    }
}

/// What `rein pull` does with the body of an issue: the task is pulled, and what came of
/// it is told.
pub open spec fn pull_told(
    s: StoreV,
    t: TaskRefV,
    remote: Seq<char>,
    now: Seq<char>,
) -> syncing::SyncedV {
    let p = syncing::pulled(s, t, remote, true, now);
    match p.result {
        Ok(changed) => syncing::SyncedV {
            steps: p.steps.push(
                StepV::Say(
                    "pull: "@ + if changed {
                        "updated from remote"@
                    } else {
                        "up to date"@
                    },
                ),
            ),
            ..p
        },
        Err(_) => p,
    }
}

/// `rein pull` — pull the resolved task's issue, given the body that it has.
pub fn pull(s: &Store, task: &TaskRef, remote_body: &str, now: &str) -> (r: syncing::Synced)
    ensures
        r@ == pull_told(s@, task@, remote_body@, now@),
{
    let mut p = pull_into(s, task, remote_body, true, now);
    match &p.result {
        Ok(changed) => {
            let mut line = String::from_str("pull: ");
            line.append(
                if *changed {
                    "updated from remote"
                } else {
                    "up to date"
                },
            );
            push_say(&mut p.steps, line);
        },
        Err(_) => {},
    }
    p
}

// ---------------------------------------------------------------------------
// push
// ---------------------------------------------------------------------------

/// What a push is about: the task with its ids given, and the surfaces that it is
/// pushed to.
pub struct PushTarget {
    pub steps: Vec<Step>,
    pub store: Store,
    pub task: Result<TaskRef, String>,
    pub surfaces: Vec<Surface>,
}

/// What a [`PushTarget`] stands for.
#[verifier::ext_equal]
pub struct PushTargetV {
    pub steps: Seq<StepV>,
    pub store: StoreV,
    pub task: Result<TaskRefV, Seq<char>>,
    pub surfaces: Seq<Surface>,
}

impl View for PushTarget {
    type V = PushTargetV;

    open spec fn view(&self) -> PushTargetV {
        PushTargetV {
            steps: text::views(self.steps@),
            store: self.store@,
            task: store::task_result(self.task),
            surfaces: self.surfaces@,
        }
    }
}

/// What a push of a task is about.
pub open spec fn push_target(s: StoreV, t: TaskRefV, now: Seq<char>) -> PushTargetV {
    if t.doc.front.github_issue is None && t.doc.front.github_pr is None {
        PushTargetV {
            steps: seq![],
            store: s,
            task: Err("'"@ + t.slug + "' has neither issue nor PR attached"@),
            surfaces: seq![],
        }
    } else {
        let a = items::assigned(s, t, now);
        PushTargetV {
            steps: a.steps,
            store: a.store,
            task: a.task,
            surfaces: match a.task {
                Ok(fresh) => syncing::surfaces_of(fresh),
                Err(_) => seq![],
            },
        }
    }
}

/// Push a specific task to its issue and/or PR.
pub fn push_task(s: &Store, task: &TaskRef, now: &str) -> (r: PushTarget)
    ensures
        r@ == push_target(s@, task@, now@),
{
    let none: Vec<Surface> = Vec::new();
    assert(none@ =~= seq![]);
    if task.doc.front.github_issue.is_none() && task.doc.front.github_pr.is_none() {
        return PushTarget {
            steps: no_steps(),
            store: s.clone(),
            task: Err(about(task, "' has neither issue nor PR attached")),
            surfaces: none,
        };
    }
    let a = items::assign_ids(s, task, now);
    let on = match &a.task {
        Ok(fresh) => surfaces(fresh),
        Err(_) => none,
    };
    PushTarget { steps: a.steps, store: a.store, task: a.task, surfaces: on }
}

/// What a push of the resolved task is about.
pub open spec fn push_of(c: CtxV, now: Seq<char>) -> PushTargetV {
    match resolve::resolved(c, None) {
        Ok((t, _)) => push_target(c.store, t, now),
        Err(e) => PushTargetV { steps: seq![], store: c.store, task: Err(e), surfaces: seq![] },
    }
}

/// `rein push [--resolved]` — push the resolved task to its issue and/or PR.
pub fn push(ctx: &Ctx, now: &str) -> (r: PushTarget)
    ensures
        r@ == push_of(ctx@, now@),
{
    match resolve::resolve_task(ctx, None) {
        Ok((t, _)) => push_task(&ctx.store, &t, now),
        Err(e) => {
            let none: Vec<Surface> = Vec::new();
            assert(none@ =~= seq![]);
            PushTarget {
                steps: no_steps(),
                store: ctx.store.clone(),
                task: Err(e),
                surfaces: none,
            }
        },
    }
}

/// What a push to one surface is about.
pub open spec fn one_surface(
    a: AssignedV,
    on: spec_fn(TaskRefV) -> Option<Surface>,
    missing: Seq<char>,
) -> PushTargetV {
    match a.task {
        Err(e) => PushTargetV {
            steps: a.steps,
            store: a.store,
            task: Err(e),
            surfaces: seq![],
        },
        Ok(t) => match on(t) {
            Some(x) => PushTargetV {
                steps: a.steps,
                store: a.store,
                task: Ok(t),
                surfaces: seq![x],
            },
            None => PushTargetV {
                steps: a.steps,
                store: a.store,
                task: Err("'"@ + t.slug + missing),
                surfaces: seq![],
            },
        },
    }
}

/// The issue of a task.
pub open spec fn issue_surface(t: TaskRefV) -> Option<Surface> {
    match t.doc.front.github_issue {
        Some(n) => Some(Surface::Issue(n)),
        None => None,
    }
}

/// The pull request of a task: left alone where an issue holds the task.
pub open spec fn pr_surface(t: TaskRefV) -> Option<Surface> {
    match t.doc.front.github_pr {
        Some(n) => Some(
            if t.doc.front.github_issue is Some {
                Surface::Unmanaged(n)
            } else {
                Surface::Pr(n)
            },
        ),
        None => None,
    }
}

/// What a push to the issue alone is about.
pub open spec fn issue_push(s: StoreV, t: TaskRefV, now: Seq<char>) -> PushTargetV {
    one_surface(
        items::assigned(s, t, now),
        |t: TaskRefV| issue_surface(t),
        "' has no attached issue"@,
    )
}

/// What a push to the pull request alone is about.
pub open spec fn pr_push(s: StoreV, t: TaskRefV, now: Seq<char>) -> PushTargetV {
    one_surface(
        items::assigned(s, t, now),
        |t: TaskRefV| pr_surface(t),
        "' has no attached PR"@,
    )
}

/// A push to one surface, where there is one.
fn push_one(a: Assigned, on: Option<Surface>, t: Option<TaskRef>, missing: &str) -> (r: PushTarget)
    requires
        a@.task is Ok <==> t is Some,
        t matches Some(x) ==> a@.task == Ok::<TaskRefV, Seq<char>>(x@),
    ensures
        r@ == match a@.task {
            Err(e) => (PushTargetV {
                steps: a@.steps,
                store: a@.store,
                task: Err(e),
                surfaces: seq![],
            }),
            Ok(t) => match on {
                Some(x) => (PushTargetV {
                    steps: a@.steps,
                    store: a@.store,
                    task: Ok(t),
                    surfaces: seq![x],
                }),
                None => (PushTargetV {
                    steps: a@.steps,
                    store: a@.store,
                    task: Err("'"@ + t.slug + missing@),
                    surfaces: seq![],
                }),
            },
        },
{
    let mut surfaces: Vec<Surface> = Vec::new();
    assert(surfaces@ =~= seq![]);
    match t {
        None => PushTarget { steps: a.steps, store: a.store, task: a.task, surfaces },
        Some(t) => match on {
            Some(x) => {
                surfaces.push(x);
                assert(surfaces@ =~= seq![x]);
                PushTarget { steps: a.steps, store: a.store, task: a.task, surfaces }
            },
            None => PushTarget {
                steps: a.steps,
                store: a.store,
                task: Err(about(&t, missing)),
                surfaces,
            },
        },
    }
}

/// Push the managed section to the task's issue only (TUI `i` on a task that
/// already has an issue). Mirrors `push_task` but targets a single surface so
/// `i` and `p` publish to their own surfaces independently.
pub fn push_issue(s: &Store, task: &TaskRef, now: &str) -> (r: PushTarget)
    ensures
        r@ == issue_push(s@, task@, now@),
{
    let a = items::assign_ids(s, task, now);
    match &a.task {
        Ok(t) => {
            let t = t.clone();
            let on = match t.doc.front.github_issue {
                Some(n) => Some(Surface::Issue(n)),
                None => None,
            };
            push_one(a, on, Some(t), "' has no attached issue")
        },
        Err(_) => push_one(a, None, None, ""),
    }
}

/// Push the managed section to the task's PR only (TUI `p` on a task that
/// already has a PR).
pub fn push_pr(s: &Store, task: &TaskRef, now: &str) -> (r: PushTarget)
    ensures
        r@ == pr_push(s@, task@, now@),
{
    let a = items::assign_ids(s, task, now);
    match &a.task {
        Ok(t) => {
            let t = t.clone();
            let on = match t.doc.front.github_pr {
                Some(n) => Some(
                    if t.doc.front.github_issue.is_some() {
                        Surface::Unmanaged(n)
                    } else {
                        Surface::Pr(n)
                    },
                ),
                None => None,
            };
            push_one(a, on, Some(t), "' has no attached PR")
        },
        Err(_) => push_one(a, None, None, ""),
    }
}

// ---------------------------------------------------------------------------
// attach
// ---------------------------------------------------------------------------

/// The resolved task with a change of its frontmatter, at a time.
pub open spec fn attached(
    t: TaskRefV,
    edit: FrontEditV,
    said: Seq<char>,
    now: Seq<char>,
) -> OutcomeV {
    plan::completed(
        seq![items::write_step(t, plan::doc_edited(t.doc, edit, now)), StepV::Say(said)],
    )
}

/// What `rein attach-issue` does.
pub open spec fn issue_attached(c: CtxV, number: u64, now: Seq<char>) -> OutcomeV {
    match resolve::resolved(c, None) {
        Err(e) => plan::refusal(e),
        Ok((t, _)) => {
            let said = lifecycle::numbered_text("attached issue #"@, number) + " to "@ + t.slug
                + " — run `rein pull` to adopt remote or `rein push --resolved` to overwrite"@;
            match store::with_issue_from(store::all_tasks(c.store), number, 0) {
                Some(other) => if other.id != t.id {
                    plan::refusal(
                        lifecycle::numbered_text("issue #"@, number) + " is already attached to '"@
                            + other.slug + "'"@,
                    )
                } else {
                    attached(t, FrontEditV::Issue(number), said, now)
                },
                None => attached(t, FrontEditV::Issue(number), said, now),
            }
        },
    }
}

/// Writes a change of the frontmatter of a task.
fn attach(task: &TaskRef, edit: FrontEdit, said: String, now: &str) -> (r: Outcome)
    ensures
        r@ == attached(task@, edit@, said@, now@),
{
    let d = plan::edit_front(&task.doc, &edit, now);
    let mut steps = one_step(write_doc(task, &d));
    push_say(&mut steps, said);
    assert(text::views(steps@) =~= attached(task@, edit@, said@, now@).steps);
    plan::complete(steps)
}

/// `rein attach-issue <n>`: links the resolved task to an issue.
pub fn attach_issue(ctx: &Ctx, number: u64, now: &str) -> (r: Outcome)
    ensures
        r@ == issue_attached(ctx@, number, now@),
{
    match resolve::resolve_task(ctx, None) {
        Err(e) => refuse(e),
        Ok((task, _)) => {
            match ctx.store.find_by_issue(number) {
                Some(other) => {
                    if !text::same(&other.id, &task.id) {
                        let mut m = with_number("issue #", number);
                        m.append(" is already attached to '");
                        m.append(&other.slug);
                        m.append("'");
                        return refuse(m);
                    }
                },
                None => {},
            }
            let mut said = with_number("attached issue #", number);
            said.append(" to ");
            said.append(&task.slug);
            said.append(
                " — run `rein pull` to adopt remote or `rein push --resolved` to overwrite",
            );
            attach(&task, FrontEdit::Issue(number), said, now)
        },
    }
}

/// What `rein attach-pr` does.
pub open spec fn pr_attached(c: CtxV, number: u64, now: Seq<char>) -> OutcomeV {
    match resolve::resolved(c, None) {
        Err(e) => plan::refusal(e),
        Ok((t, _)) => attached(
            t,
            FrontEditV::Pr(number),
            lifecycle::numbered_text("attached PR #"@, number) + " to "@ + t.slug
                + " — run `rein push` to publish the managed section"@,
            now,
        ),
    }
}

/// `rein attach-pr <n>`: links the resolved task to a pull request.
pub fn attach_pr(ctx: &Ctx, number: u64, now: &str) -> (r: Outcome)
    ensures
        r@ == pr_attached(ctx@, number, now@),
{
    match resolve::resolve_task(ctx, None) {
        Err(e) => refuse(e),
        Ok((task, _)) => {
            let mut said = with_number("attached PR #", number);
            said.append(" to ");
            said.append(&task.slug);
            said.append(" — run `rein push` to publish the managed section");
            attach(&task, FrontEdit::Pr(number), said, now)
        },
    }
}

} // verus!
