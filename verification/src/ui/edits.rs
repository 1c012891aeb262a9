//! Changes of checklist items from the dashboard.
use crate::commands::items as item_commands;
use crate::commands::items::{assign_ids, set_body, write_doc, Assigned, AssignedV};
use crate::commands::plan::{self, push_step, push_steps, refuse, Outcome, OutcomeV};
use crate::store::{self, Store, StoreV, TaskRef, TaskRefV};
use crate::task::doc;
use crate::task::items::{self, Item, ItemErrorV, ItemV};
use crate::task::sections;
use crate::task::{self, ItemError};
use crate::text;
use vstd::prelude::*;
use vstd::string::*;

verus! {

/// The first item at or behind `i` with an id.
pub open spec fn item_from(its: Seq<ItemV>, id: Seq<char>, i: int) -> Option<ItemV>
    decreases its.len() - i,
{
    if i < 0 || i >= its.len() {
        None
    } else if its[i].id == Some(id) {
        Some(its[i])
    } else {
        item_from(its, id, i + 1)
    }
}

/// A body with the checkbox of an item flipped: a failed item is reopened.
pub open spec fn flipped(body: Seq<char>, id: Seq<char>) -> Result<Seq<char>, ItemErrorV> {
    match item_from(items::items_of(body), id, 0) {
        None => Err(ItemErrorV::NotFound(id)),
        Some(it) => if it.failed {
            items::reopened(body, id)
        } else {
            items::checked_body(body, id, !it.checked)
        },
    }
}

/// A body with a new item; blank text is refused.
pub open spec fn extended(body: Seq<char>, t: Seq<char>) -> Result<Seq<char>, ItemErrorV> {
    if text::trimmed(t).len() == 0 {
        Err(ItemErrorV::EmptyText)
    } else {
        Ok(sections::with_item(body, text::trimmed(t)))
    }
}

/// What comes of a change of a document whose items have got their ids.
pub open spec fn edit_outcome(
    a: AssignedV,
    body: spec_fn(Seq<char>) -> Result<Seq<char>, ItemErrorV>,
    now: Seq<char>,
) -> OutcomeV {
    match a.task {
        Err(e) => OutcomeV { steps: a.steps, error: Some(e) },
        Ok(t) => match body(t.doc.body) {
            Ok(b) => plan::completed(
                a.steps.push(
                    item_commands::write_step(t, item_commands::with_body(t.doc, b, now)),
                ),
            ),
            Err(e) => OutcomeV {
                steps: a.steps,
                error: Some(item_commands::item_message(e)),
            },
        },
    }
}

/// What comes of a new item: the document is written with it, and then its items get
/// their ids.
pub open spec fn added_outcome(s: StoreV, t: TaskRefV, what: Seq<char>, now: Seq<char>) -> OutcomeV {
    match extended(t.doc.body, what) {
        Err(e) => plan::refusal(item_commands::item_message(e)),
        Ok(b) => {
            let d = item_commands::with_body(t.doc, b, now);
            let first = seq![item_commands::write_step(t, d)];
            let after = store::written(s, t.path, doc::serialized(d));
            match store::with_id_from(store::all_tasks(after), t.id, 0) {
                None => plan::completed(first),
                Some(fresh) => {
                    let a = item_commands::assigned(after, fresh, now);
                    OutcomeV {
                        steps: first + a.steps,
                        error: match a.task {
                            Ok(_) => None,
                            Err(e) => Some(e),
                        },
                    }
                },
            }
        },
    }
}

/// A toggle of an item: its box is flipped.
pub open spec fn toggled_outcome(
    s: StoreV,
    t: TaskRefV,
    id: Seq<char>,
    now: Seq<char>,
) -> OutcomeV {
    edit_outcome(item_commands::assigned(s, t, now), |b: Seq<char>| flipped(b, id), now)
}

/// A new text for an item.
pub open spec fn reworded_outcome(
    s: StoreV,
    t: TaskRefV,
    id: Seq<char>,
    what: Seq<char>,
    now: Seq<char>,
) -> OutcomeV {
    edit_outcome(item_commands::assigned(s, t, now), |b: Seq<char>| items::edited_body(b, id, what), now)
}

/// An item that goes.
pub open spec fn removed_outcome(
    s: StoreV,
    t: TaskRefV,
    id: Seq<char>,
    now: Seq<char>,
) -> OutcomeV {
    edit_outcome(item_commands::assigned(s, t, now), |b: Seq<char>| items::deleted_body(b, id), now)
}

/// The item with an id.
fn item_with_id(its: &Vec<Item>, id: &str) -> (r: Option<usize>)
    ensures
        match r {
            Some(k) => k < its.len() && item_from(text::views(its@), id@, 0) == Some(its@[k as int]@),
            None => item_from(text::views(its@), id@, 0) is None,
        },
{
    let ghost all = text::views(its@);
    let mut i: usize = 0;
    while i < its.len()
        invariant
            i <= its.len(),
            all == text::views(its@),
            item_from(all, id@, 0) == item_from(all, id@, i as int),
        decreases its.len() - i,
    {
        let hit = match &its[i].id {
            Some(x) => text::same(x, id),
            None => false,
        };
        if hit {
            assert(all[i as int] == its@[i as int]@);
            return Some(i);
        }
        i += 1;
    }
    None
}

/// A body with the checkbox of an item flipped.
fn flip(body: &str, item_id: &str) -> (r: Result<String, ItemError>)
    ensures
        items::text_result(r) == flipped(body@, item_id@),
{
    let its = task::scan_items(body);
    match item_with_id(&its, item_id) {
        None => Err(ItemError::NotFound(String::from_str(item_id))),
        Some(k) => if its[k].failed {
            task::clear_failed(body, item_id)
        } else {
            task::set_checked(body, item_id, !its[k].checked)
        },
    }
}

/// The message of an item error.
fn say(e: &ItemError) -> (r: String)
    ensures
        r@ == item_commands::item_message(e@),
{
    e.message()
}

/// Ends a change of a document.
fn finish(a: Assigned, t: &TaskRef, body: Result<String, ItemError>, now: &str) -> (r: Outcome)
    ensures
        r@ == match items::text_result(body) {
            Ok(b) => plan::completed(
                a@.steps.push(
                    item_commands::write_step(t@, item_commands::with_body(t@.doc, b, now@)),
                ),
            ),
            Err(e) => (OutcomeV {
                steps: a@.steps,
                error: Some(item_commands::item_message(e)),
            }),
        },
{
    let mut steps = a.steps;
    match body {
        Ok(b) => {
            let d = set_body(&t.doc, b, now);
            push_step(&mut steps, write_doc(t, &d));
            plan::complete(steps)
        },
        Err(e) => Outcome { steps, error: Some(say(&e)) },
    }
}

/// Flip the checked state of a checklist item in its document. IDs are healed
/// first so the in-UI id (computed the same way) resolves to a real marker on
/// disk; a resolved-failed item is reopened cleanly rather than left a
/// half-decorated `- [ ]` with a stale failed sentinel.
pub fn toggle_item(store: &Store, task: &TaskRef, item_id: &str, now: &str) -> (r: Outcome)
    ensures
        r@ == toggled_outcome(store@, task@, item_id@, now@),
{
    let a = assign_ids(store, task, now);
    match &a.task {
        Err(e) => {
            let e = e.clone();
            Outcome { steps: a.steps, error: Some(e) }
        },
        Ok(t) => {
            let t = t.clone();
            let body = flip(&t.doc.body, item_id);
            finish(a, &t, body, now)
        },
    }
}

/// Append a new checklist item to a task's `## Tasks` section, then heal item
/// IDs so the fresh line gets a stable integer id — the same persist-then-heal
/// path `rein open` follows after an `$EDITOR` edit (and the mirror of
/// `toggle_item`).
pub fn add_item(store: &Store, task: &TaskRef, text: &str, now: &str) -> (r: Outcome)
    ensures
        r@ == added_outcome(store@, task@, text@, now@),
{
    let b = match task::append_item(&task.doc.body, text) {
        Ok(b) => b,
        Err(e) => {
            return refuse(say(&e));
        },
    };
    let d = set_body(&task.doc, b, now);
    let mut steps = plan::one_step(write_doc(task, &d));
    let after = store.after_write(&task.path, &d.serialize());
    match after.find_by_id(&task.id) {
        None => plan::complete(steps),
        Some(fresh) => {
            let a = assign_ids(&after, &fresh, now);
            push_steps(&mut steps, a.steps);
            let error = match a.task {
                Ok(_) => None,
                Err(e) => Some(e),
            };
            Outcome { steps, error }
        },
    }
}

/// Replace a checklist item's text in its document. IDs are healed first so the
/// in-UI id (computed the same way) resolves to a real marker on disk (mirrors
/// `toggle_item`).
pub fn edit_item(store: &Store, task: &TaskRef, item_id: &str, text: &str, now: &str) -> (r: Outcome)
    ensures
        r@ == reworded_outcome(store@, task@, item_id@, text@, now@),
{
    let a = assign_ids(store, task, now);
    match &a.task {
        Err(e) => {
            let e = e.clone();
            Outcome { steps: a.steps, error: Some(e) }
        },
        Ok(t) => {
            let t = t.clone();
            let body = task::edit_item(&t.doc.body, item_id, text);
            finish(a, &t, body, now)
        },
    }
}

/// Remove a checklist item from its document. IDs are healed first so the in-UI
/// id resolves to a real marker on disk (mirrors `toggle_item`).
pub fn delete_item(store: &Store, task: &TaskRef, item_id: &str, now: &str) -> (r: Outcome)
    ensures
        r@ == removed_outcome(store@, task@, item_id@, now@),
{
    let a = assign_ids(store, task, now);
    match &a.task {
        Err(e) => {
            let e = e.clone();
            Outcome { steps: a.steps, error: Some(e) }
        },
        Ok(t) => {
            let t = t.clone();
            let body = task::delete_item(&t.doc.body, item_id);
            finish(a, &t, body, now)
        },
    }
}

} // verus!
