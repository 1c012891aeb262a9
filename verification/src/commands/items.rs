//! Commands that change a document: checklist items, log entries, title and goal.
use crate::commands::plan::{self, one_step, push_step, refuse, Outcome, OutcomeV, Step, StepV};
use crate::ctx::{Ctx, CtxV};
use crate::projects;
use crate::resolve;
use crate::store::{self, Store, StoreV, TaskRef, TaskRefV};
use crate::task::doc::{self, FrontmatterV, TaskDocV};
use crate::task::items::{self, ItemErrorV, ItemV};
use crate::task::sections;
use crate::task::{self, ItemError, TaskDoc};
use crate::text;
use vstd::prelude::*;
use vstd::string::*;

verus! {

// ---------------------------------------------------------------------------
// Writing
// ---------------------------------------------------------------------------

/// A document with a new body, at a time.
pub open spec fn with_body(d: TaskDocV, body: Seq<char>, now: Seq<char>) -> TaskDocV {
    doc::touched(TaskDocV { body, ..d }, now)
}

/// The step that writes the document of a task.
pub open spec fn write_step(t: TaskRefV, d: TaskDocV) -> StepV {
    StepV::Write { path: t.path, text: doc::serialized(d) }
}

/// The step that writes the document of a task.
pub fn write_doc(t: &TaskRef, d: &TaskDoc) -> (r: Step)
    ensures
        r@ == write_step(t@, d@),
{
    Step::Write { path: t.path.clone(), text: d.serialize() }
}

/// A document with a new body.
pub fn set_body(d: &TaskDoc, body: String, now: &str) -> (r: TaskDoc)
    ensures
        r@ == with_body(d@, body@, now@),
{
    let mut out = d.clone();
    out.body = body;
    out.touch_at(now);
    out
}

/// A task with its ids given: what is written for it, the store after that, and
/// the task as it is then found.
pub struct Assigned {
    pub steps: Vec<Step>,
    pub store: Store,
    pub task: Result<TaskRef, String>,
}

/// What an [`Assigned`] stands for.
#[verifier::ext_equal]
pub struct AssignedV {
    pub steps: Seq<StepV>,
    pub store: StoreV,
    pub task: Result<TaskRefV, Seq<char>>,
}

impl View for Assigned {
    type V = AssignedV;

    open spec fn view(&self) -> AssignedV {
        AssignedV {
            steps: text::views(self.steps@),
            store: self.store@,
            task: store::task_result(self.task),
        }
    }
}

/// The document of a task with an id on every item.
pub open spec fn healed_doc(t: TaskRefV, now: Seq<char>) -> TaskDocV {
    with_body(t.doc, items::healed_body(t.doc.body), now)
}

/// A task with its ids given: nothing is written where every item has one.
pub open spec fn assigned(s: StoreV, t: TaskRefV, now: Seq<char>) -> AssignedV {
    if items::untagged(items::items_of(t.doc.body)) == 0 {
        AssignedV { steps: seq![], store: s, task: Ok(t) }
    } else {
        let d = healed_doc(t, now);
        let after = store::written(s, t.path, doc::serialized(d));
        AssignedV {
            steps: seq![write_step(t, d)],
            store: after,
            task: match store::with_id_from(store::all_tasks(after), t.id, 0) {
                Some(fresh) => Ok(fresh),
                None => Err("task vanished while assigning IDs"@),
            },
        }
    }
}

/// Assign stable integer item IDs to any items lacking one and persist if
/// changed. This is the shared local touchpoint that heals documents edited
/// outside GitHub sync (open after $EDITOR, mutations, doctor).
pub fn assign_ids(store: &Store, task: &TaskRef, now: &str) -> (r: Assigned)
    ensures
        r@ == assigned(store@, task@, now@),
{
    let (body, changed) = task::ensure_item_ids(&task.doc.body);
    if !changed {
        let steps: Vec<Step> = Vec::new();
        proof {
            assert(text::views(steps@) =~= seq![]);
        }
        return Assigned { steps, store: store.clone(), task: Ok(task.clone()) };
    }
    let d = set_body(&task.doc, body, now);
    let after = store.after_write(&task.path, &d.serialize());
    let fresh = match after.find_by_id(&task.id) {
        Some(t) => Ok(t),
        None => Err(String::from_str("task vanished while assigning IDs")),
    };
    Assigned { steps: one_step(write_doc(task, &d)), store: after, task: fresh }
}

/// The task that a mutation is about, with its ids given.
pub open spec fn mutable_task(c: CtxV, flag: Option<Seq<char>>, now: Seq<char>) -> AssignedV {
    match resolve::resolved(c, flag) {
        Err(e) => AssignedV { steps: seq![], store: c.store, task: Err(e) },
        Ok((t, source)) => match resolve::gate(c, source) {
            Some(e) => AssignedV { steps: seq![], store: c.store, task: Err(e) },
            None => assigned(c.store, t, now),
        },
    }
}

/// Nothing was assigned, for a reason.
pub fn unassigned(store: &Store, e: String) -> (r: Assigned)
    ensures
        r@ == (AssignedV { steps: seq![], store: store@, task: Err(e@) }),
{
    let steps: Vec<Step> = Vec::new();
    proof {
        assert(text::views(steps@) =~= seq![]);
    }
    Assigned { steps, store: store.clone(), task: Err(e) }
}

/// The task that a mutation is about, with its ids given.
pub fn resolve_for_mutation(ctx: &Ctx, flag: Option<&str>, now: &str) -> (r: Assigned)
    ensures
        r@ == mutable_task(ctx@, projects::str_view(flag), now@),
{
    match resolve::resolve_task(ctx, flag) {
        Err(e) => unassigned(&ctx.store, e),
        Ok((task, source)) => match resolve::gate_mutation(ctx, source) {
            Err(e) => unassigned(&ctx.store, e),
            // local touchpoint: assign item IDs so checking works without GitHub sync
            Ok(_) => assign_ids(&ctx.store, &task, now),
        },
    }
}

// ---------------------------------------------------------------------------
// Errors
// ---------------------------------------------------------------------------

/// The ids of items, in order.
pub open spec fn ids_of(its: Seq<ItemV>) -> Seq<Seq<char>>
    decreases its.len(),
{
    if its.len() == 0 {
        seq![]
    } else {
        match its.last().id {
            Some(id) => ids_of(its.drop_last()).push(id),
            None => ids_of(its.drop_last()),
        }
    }
}

/// The message of an item error.
pub open spec fn item_message(e: ItemErrorV) -> Seq<char> {
    match e {
        ItemErrorV::EmptyText => "item text is empty"@,
        ItemErrorV::NotFound(id) => "item '"@ + id + "' not found"@,
        ItemErrorV::NotFailed(id) => "item '"@ + id + "' is not failed (nothing to reopen)"@,
    }
}

/// A message about an item, with guidance: the id of a task is no item, and the
/// items that there are.
pub open spec fn item_hint(s: StoreV, t: TaskRefV, id: Seq<char>, base: Seq<char>) -> Seq<char> {
    if store::found(store::all_tasks(s), id) is Ok {
        "'"@ + id
            + "' is a task, not an item — pass an item number (see `rein status`), e.g. `rein check 1 --task "@
            + id + "`"@
    } else {
        let avail = ids_of(items::items_of(t.doc.body));
        if avail.len() == 0 {
            base + " — '"@ + t.slug + "' has no checklist items"@
        } else {
            base + ". available items in "@ + t.slug + ": "@ + text::joined(avail, ", "@)
        }
    }
}

/// The ids of items, in order.
pub fn item_ids(its: &Vec<task::Item>) -> (r: Vec<String>)
    ensures
        text::views(r@) == ids_of(text::views(its@)),
{
    let mut out: Vec<String> = Vec::new();
    let ghost all = text::views(its@);
    let mut i: usize = 0;
    while i < its.len()
        invariant
            0 <= i <= its.len(),
            all == text::views(its@),
            text::views(out@) == ids_of(all.take(i as int)),
        decreases its.len() - i,
    {
        let ghost before = text::views(out@);
        proof {
            assert(all.take(i as int + 1).drop_last() =~= all.take(i as int));
            assert(all.take(i as int + 1).last() == its@[i as int]@);
        }
        match &its[i].id {
            Some(id) => {
                out.push(id.clone());
                proof {
                    assert(text::views(out@) =~= before.push(id@));
                }
            },
            None => {},
        }
        i += 1;
    }
    proof {
        assert(all.take(i as int) =~= all);
    }
    out
}

/// Turn a bare "item not found" into actionable guidance.
fn item_error_hint(store: &Store, t: &TaskRef, item_id: &str, base: &str) -> (r: String)
    ensures
        r@ == item_hint(store@, t@, item_id@, base@),
{
    if store.find(item_id).is_ok() {
        let mut m = String::from_str("'");
        m.append(item_id);
        m.append(
            "' is a task, not an item — pass an item number (see `rein status`), e.g. `rein check 1 --task ",
        );
        m.append(item_id);
        m.append("`");
        return m;
    }
    let avail = item_ids(&task::scan_items(&t.doc.body));
    proof {
        assert(text::views(avail@).len() == avail@.len());
    }
    let mut m = String::from_str(base);
    if avail.len() == 0 {
        m.append(" — '");
        m.append(&t.slug);
        m.append("' has no checklist items");
    } else {
        m.append(". available items in ");
        m.append(&t.slug);
        m.append(": ");
        m.append(&text::join(&avail, ", "));
    }
    m
}

// ---------------------------------------------------------------------------
// The commands
// ---------------------------------------------------------------------------

/// The outcome of changing the body of the task that a mutation is about.
pub open spec fn body_change(
    a: AssignedV,
    id: Seq<char>,
    body: spec_fn(TaskRefV) -> Result<Seq<char>, ItemErrorV>,
    said: spec_fn(TaskRefV) -> Seq<char>,
    now: Seq<char>,
) -> OutcomeV {
    match a.task {
        Err(e) => OutcomeV { steps: a.steps, error: Some(e) },
        Ok(t) => match body(t) {
            Ok(b) => plan::completed(
                a.steps.push(write_step(t, with_body(t.doc, b, now))).push(StepV::Say(said(t))),
            ),
            Err(e) => OutcomeV {
                steps: a.steps,
                error: Some(item_hint(a.store, t, id, item_message(e))),
            },
        },
    }
}

/// Ends a change of a body.
fn finish_change(
    a: Assigned,
    t: &TaskRef,
    item_id: &str,
    body: Result<String, ItemError>,
    said: String,
    now: &str,
) -> (r: Outcome)
    ensures
        r@ == match items::text_result(body) {
            Ok(b) => plan::completed(
                a@.steps.push(write_step(t@, with_body(t@.doc, b, now@))).push(StepV::Say(said@)),
            ),
            Err(e) => (OutcomeV {
                steps: a@.steps,
                error: Some(item_hint(a@.store, t@, item_id@, item_message(e))),
            }),
        },
{
    match body {
        Ok(b) => {
            let mut steps = a.steps;
            let d = set_body(&t.doc, b, now);
            push_step(&mut steps, write_doc(t, &d));
            push_step(&mut steps, Step::Say(said));
            plan::complete(steps)
        },
        Err(e) => {
            let hint = item_error_hint(&a.store, t, item_id, &e.message());
            Outcome { steps: a.steps, error: Some(hint) }
        },
    }
}

/// What is printed after a check.
pub open spec fn checked_line(id: Seq<char>, slug: Seq<char>, checked: bool) -> Seq<char> {
    (if checked {
        "checked"@
    } else {
        "unchecked"@
    }) + " "@ + id + " in "@ + slug
}

/// What `rein check` and `rein uncheck` do.
pub open spec fn check_outcome(
    c: CtxV,
    id: Seq<char>,
    flag: Option<Seq<char>>,
    checked: bool,
    now: Seq<char>,
) -> OutcomeV {
    body_change(
        mutable_task(c, flag, now),
        id,
        |t: TaskRefV| items::checked_body(t.doc.body, id, checked),
        |t: TaskRefV| checked_line(id, t.slug, checked),
        now,
    )
}

/// `rein check` / `rein uncheck`: set the checkbox of an item.
pub fn check(ctx: &Ctx, item_id: &str, flag: Option<&str>, checked: bool, now: &str) -> (r: Outcome)
    ensures
        r@ == check_outcome(ctx@, item_id@, projects::str_view(flag), checked, now@),
{
    let a = resolve_for_mutation(ctx, flag, now);
    match &a.task {
        Err(e) => {
            let e = e.clone();
            Outcome { steps: a.steps, error: Some(e) }
        },
        Ok(t) => {
            let t = t.clone();
            let mut said = String::from_str(
                if checked {
                    "checked"
                } else {
                    "unchecked"
                },
            );
            said.append(" ");
            said.append(item_id);
            said.append(" in ");
            said.append(&t.slug);
            let body = task::set_checked(&t.doc.body, item_id, checked);
            finish_change(a, &t, item_id, body, said, now)
        },
    }
}

/// An item with an id is among the items.
pub open spec fn has_item(its: Seq<ItemV>, id: Seq<char>) -> bool {
    exists|k: int| 0 <= k < its.len() && (#[trigger] its[k]).id == Some(id)
}

/// Whether an item with an id is among the items.
fn item_exists(its: &Vec<task::Item>, id: &str) -> (r: bool)
    ensures
        r == has_item(text::views(its@), id@),
{
    let ghost all = text::views(its@);
    let mut i: usize = 0;
    while i < its.len()
        invariant
            0 <= i <= its.len(),
            all == text::views(its@),
            forall|k: int| 0 <= k < i ==> (#[trigger] all[k]).id != Some(id@),
        decreases its.len() - i,
    {
        match &its[i].id {
            Some(x) => {
                if text::same(x, id) {
                    proof {
                        assert(all[i as int].id == Some(id@));
                    }
                    return true;
                }
            },
            None => {},
        }
        i += 1;
    }
    false
}

/// A log entry about an item.
pub open spec fn item_entry(now: Seq<char>, id: Seq<char>, what: Seq<char>) -> Seq<char> {
    now + " Task"@ + id + what
}

/// A log entry about an item.
fn entry_for(now: &str, id: &str, what: &str) -> (r: String)
    ensures
        r@ == item_entry(now@, id@, what@),
{
    let mut e = String::from_str(now);
    e.append(" Task");
    e.append(id);
    e.append(what);
    e
}

/// What `rein log` does.
pub open spec fn log_outcome(
    c: CtxV,
    what: Seq<char>,
    id: Seq<char>,
    flag: Option<Seq<char>>,
    now: Seq<char>,
) -> OutcomeV {
    body_change(
        mutable_task(c, flag, now),
        id,
        |t: TaskRefV|
            if has_item(items::items_of(t.doc.body), id) {
                Ok(sections::with_log(t.doc.body, item_entry(now, id, ": "@ + what)))
            } else {
                Err(ItemErrorV::NotFound(id))
            },
        |t: TaskRefV| "logged Task"@ + id + " in "@ + t.slug,
        now,
    )
}

/// `rein log <text> --item <item-id> [--task <doc>]` — append an Agent-Log entry tied to a
/// checklist item. The item id is mandatory (so a long task list never loses the
/// association the way a hand-written `Task<id>:` prefix does) and the entry is
/// written as `Task<id>: <text>`, the convention `rein ui`'s per-item log filter
/// matches. An unknown id fails with the available ids instead of silently tagging
/// an item that does not exist.
pub fn log(ctx: &Ctx, text: &str, item_id: &str, flag: Option<&str>, now: &str) -> (r: Outcome)
    ensures
        r@ == log_outcome(ctx@, text@, item_id@, projects::str_view(flag), now@),
{
    let a = resolve_for_mutation(ctx, flag, now);
    match &a.task {
        Err(e) => {
            let e = e.clone();
            Outcome { steps: a.steps, error: Some(e) }
        },
        Ok(t) => {
            let t = t.clone();
            let mut said = String::from_str("logged Task");
            said.append(item_id);
            said.append(" in ");
            said.append(&t.slug);
            let body = if item_exists(&task::scan_items(&t.doc.body), item_id) {
                let mut what = String::from_str(": ");
                what.append(text);
                Ok(task::append_log(&t.doc.body, &entry_for(now, item_id, &what)))
            } else {
                Err(ItemError::NotFound(String::from_str(item_id)))
            };
            finish_change(a, &t, item_id, body, said, now)
        },
    }
}

/// What `rein note` does.
pub open spec fn note_outcome(
    c: CtxV,
    what: Seq<char>,
    flag: Option<Seq<char>>,
    now: Seq<char>,
) -> OutcomeV {
    body_change(
        mutable_task(c, flag, now),
        Seq::<char>::empty(),
        |t: TaskRefV|
            Ok::<Seq<char>, ItemErrorV>(sections::with_log(t.doc.body, now + " "@ + what)),
        |t: TaskRefV| "noted in "@ + t.slug,
        now,
    )
}

/// `rein note <text> [--task <doc>]` — append a general Agent-Log entry not tied
/// to any checklist item (a cross-cutting observation, a decision, a heads-up).
/// `--task` selects the document like the other mutation verbs; without it the
/// resolved task is used.
pub fn note(ctx: &Ctx, text: &str, flag: Option<&str>, now: &str) -> (r: Outcome)
    ensures
        r@ == note_outcome(ctx@, text@, projects::str_view(flag), now@),
{
    let a = resolve_for_mutation(ctx, flag, now);
    match &a.task {
        Err(e) => {
            let e = e.clone();
            Outcome { steps: a.steps, error: Some(e) }
        },
        Ok(t) => {
            let t = t.clone();
            let mut said = String::from_str("noted in ");
            said.append(&t.slug);
            let mut entry = String::from_str(now);
            entry.append(" ");
            entry.append(text);
            let body = Ok(task::append_log(&t.doc.body, &entry));
            finish_change(a, &t, "", body, said, now)
        },
    }
}

/// The body of a task with an item failed, and the reason in the log.
pub open spec fn failed_with_reason(
    body: Seq<char>,
    id: Seq<char>,
    reason: Seq<char>,
    now: Seq<char>,
) -> Result<Seq<char>, ItemErrorV> {
    match items::failed_body(body, id) {
        Ok(b) => Ok(sections::with_log(b, item_entry(now, id, ": FAIL "@ + reason))),
        Err(e) => Err(e),
    }
}

/// What `rein fail` does.
pub open spec fn fail_outcome(
    c: CtxV,
    id: Seq<char>,
    reason: Seq<char>,
    flag: Option<Seq<char>>,
    now: Seq<char>,
) -> OutcomeV {
    body_change(
        mutable_task(c, flag, now),
        id,
        |t: TaskRefV| failed_with_reason(t.doc.body, id, reason, now),
        |t: TaskRefV|
            "failed "@ + id + " in "@ + t.slug + " (resolved as not-done; `rein retry "@ + id
                + "` to reopen)"@,
        now,
    )
}

/// `rein fail`: resolve an item as failed: checked box (terminal, drops out of
/// `todo`) plus a visible ~~strike~~ ❌. The reason lands in the (local,
/// non-projected) Agent Log, tagged `Task<id>` so it shows under the item.
pub fn fail(ctx: &Ctx, item_id: &str, reason: &str, flag: Option<&str>, now: &str) -> (r: Outcome)
    ensures
        r@ == fail_outcome(ctx@, item_id@, reason@, projects::str_view(flag), now@),
{
    let a = resolve_for_mutation(ctx, flag, now);
    match &a.task {
        Err(e) => {
            let e = e.clone();
            Outcome { steps: a.steps, error: Some(e) }
        },
        Ok(t) => {
            let t = t.clone();
            let mut said = String::from_str("failed ");
            said.append(item_id);
            said.append(" in ");
            said.append(&t.slug);
            said.append(" (resolved as not-done; `rein retry ");
            said.append(item_id);
            said.append("` to reopen)");
            let body = match task::set_failed(&t.doc.body, item_id) {
                Ok(b) => {
                    let mut what = String::from_str(": FAIL ");
                    what.append(reason);
                    Ok(task::append_log(&b, &entry_for(now, item_id, &what)))
                },
                Err(e) => Err(e),
            };
            finish_change(a, &t, item_id, body, said, now)
        },
    }
}

/// The body of a task with an item reopened, and the retry in the log.
pub open spec fn retried(body: Seq<char>, id: Seq<char>, now: Seq<char>) -> Result<
    Seq<char>,
    ItemErrorV,
> {
    match items::reopened(body, id) {
        Ok(b) => Ok(sections::with_log(b, item_entry(now, id, ": RETRY"@))),
        Err(e) => Err(e),
    }
}

/// What `rein retry` does.
pub open spec fn retry_outcome(
    c: CtxV,
    id: Seq<char>,
    flag: Option<Seq<char>>,
    now: Seq<char>,
) -> OutcomeV {
    body_change(
        mutable_task(c, flag, now),
        id,
        |t: TaskRefV| retried(t.doc.body, id, now),
        |t: TaskRefV| "reopened "@ + id + " in "@ + t.slug,
        now,
    )
}

/// `rein retry`: reopen a failed item — the inverse of `fail`.
pub fn retry(ctx: &Ctx, item_id: &str, flag: Option<&str>, now: &str) -> (r: Outcome)
    ensures
        r@ == retry_outcome(ctx@, item_id@, projects::str_view(flag), now@),
{
    let a = resolve_for_mutation(ctx, flag, now);
    match &a.task {
        Err(e) => {
            let e = e.clone();
            Outcome { steps: a.steps, error: Some(e) }
        },
        Ok(t) => {
            let t = t.clone();
            let mut said = String::from_str("reopened ");
            said.append(item_id);
            said.append(" in ");
            said.append(&t.slug);
            let body = match task::clear_failed(&t.doc.body, item_id) {
                Ok(b) => Ok(task::append_log(&b, &entry_for(now, item_id, ": RETRY"))),
                Err(e) => Err(e),
            };
            finish_change(a, &t, item_id, body, said, now)
        },
    }
}

/// A title in one line.
pub open spec fn one_line_title(t: Seq<char>) -> Seq<char> {
    text::replaced(text::trimmed(t), "\n"@, " "@)
}

/// The outcome of changing the document of the task that a mutation is about.
pub open spec fn doc_change(a: AssignedV, d: spec_fn(TaskDocV) -> TaskDocV, said: Seq<char>) -> OutcomeV {
    match a.task {
        Err(e) => OutcomeV { steps: a.steps, error: Some(e) },
        Ok(t) => plan::completed(
            a.steps.push(write_step(t, d(t.doc))).push(StepV::Say(said + t.slug)),
        ),
    }
}

/// What `rein title` does.
pub open spec fn title_outcome(
    c: CtxV,
    what: Seq<char>,
    flag: Option<Seq<char>>,
    now: Seq<char>,
) -> OutcomeV {
    if one_line_title(what).len() == 0 {
        plan::refusal("title is empty"@)
    } else {
        doc_change(
            mutable_task(c, flag, now),
            |d: TaskDocV|
                doc::touched(
                    TaskDocV {
                        front: FrontmatterV { title: one_line_title(what), ..d.front },
                        ..d
                    },
                    now,
                ),
            "title set for "@,
        )
    }
}

/// `rein title <text> [--task <doc>]` — set the frontmatter title (LLM-safe: rein
/// owns the write, the caller passes text). Single line — newlines are folded to
/// spaces so the frontmatter stays valid.
pub fn set_title(ctx: &Ctx, text: &str, flag: Option<&str>, now: &str) -> (r: Outcome)
    ensures
        r@ == title_outcome(ctx@, text@, projects::str_view(flag), now@),
{
    proof {
        reveal_strlit("\n");
    }
    let title = text::replace(&text::trim(text), "\n", " ");
    if title.as_str().is_empty() {
        return refuse(String::from_str("title is empty"));
    }
    let a = resolve_for_mutation(ctx, flag, now);
    match &a.task {
        Err(e) => {
            let e = e.clone();
            Outcome { steps: a.steps, error: Some(e) }
        },
        Ok(t) => {
            let t = t.clone();
            let mut d = t.doc.clone();
            d.front.title = title;
            d.touch_at(now);
            let mut said = String::from_str("title set for ");
            said.append(&t.slug);
            let mut steps = a.steps;
            push_step(&mut steps, write_doc(&t, &d));
            push_step(&mut steps, Step::Say(said));
            plan::complete(steps)
        },
    }
}

/// What `rein goal` does.
pub open spec fn goal_outcome(
    c: CtxV,
    what: Seq<char>,
    flag: Option<Seq<char>>,
    now: Seq<char>,
) -> OutcomeV {
    if text::trimmed(what).len() == 0 {
        plan::refusal("goal is empty"@)
    } else {
        doc_change(
            mutable_task(c, flag, now),
            |d: TaskDocV|
                with_body(
                    d,
                    sections::with_content(d.body, "## Goal"@, text::trimmed(what)),
                    now,
                ),
            "goal set for "@,
        )
    }
}

/// `rein goal <text> [--task <doc>]` — set the `## Goal` section (LLM-safe: rein
/// owns the rewrite). The body is replaced wholesale; the heading and the rest of
/// the document are preserved.
pub fn set_goal(ctx: &Ctx, text: &str, flag: Option<&str>, now: &str) -> (r: Outcome)
    ensures
        r@ == goal_outcome(ctx@, text@, projects::str_view(flag), now@),
{
    let goal = text::trim(text);
    if goal.as_str().is_empty() {
        return refuse(String::from_str("goal is empty"));
    }
    let a = resolve_for_mutation(ctx, flag, now);
    match &a.task {
        Err(e) => {
            let e = e.clone();
            Outcome { steps: a.steps, error: Some(e) }
        },
        Ok(t) => {
            let t = t.clone();
            let body = task::set_section_content(&t.doc.body, "## Goal", &goal);
            let d = set_body(&t.doc, body, now);
            let mut said = String::from_str("goal set for ");
            said.append(&t.slug);
            let mut steps = a.steps;
            push_step(&mut steps, write_doc(&t, &d));
            push_step(&mut steps, Step::Say(said));
            plan::complete(steps)
        },
    }
}

} // verus!
