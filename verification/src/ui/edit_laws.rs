//! Laws of the changes that the dashboard makes to checklist items.
use crate::commands::items as item_commands;
use crate::commands::plan::{OutcomeV, StepV};
use crate::facts;
use crate::store::{StoreV, TaskRefV};
use crate::task::doc::{self, TaskDocV};
use crate::task::item_laws;
use crate::task::items::{self, ItemErrorV, ItemV, FAILED_SENTINEL};
use crate::task::meant_laws;
use crate::task::op_laws;
use crate::task::sections;
use crate::text;
use crate::ui::edits;
use vstd::prelude::*;

verus! {

proof fn lemma_item_from(its: Seq<ItemV>, id: Seq<char>, i: int, k: int)
    requires
        0 <= i <= k < its.len(),
        its[k].id == Some(id),
        forall|j: int| 0 <= j < k ==> (#[trigger] its[j]).id != Some(id),
    ensures
        edits::item_from(its, id, i) == Some(its[k]),
    decreases k - i,
{
    if i < k {
        assert(its[i].id != Some(id));
        lemma_item_from(its, id, i + 1, k);
    }
}

/// The new body of an item that is toggled.
proof fn lemma_flipped(body: Seq<char>, id: Seq<char>, k: int)
    requires
        meant_laws::means(body, id, k),
        !items::items_of(body)[k].failed,
    ensures
        edits::flipped(body, id) == items::checked_body(
            body,
            id,
            !items::items_of(body)[k].checked,
        ),
{
    lemma_item_from(items::items_of(body), id, 0, k);
}

/// Toggling an item that is not failed turns its box, a checked one as well as an open
/// one, and changes nothing else of any item; toggling it again gives back every item as
/// it was.
pub proof fn law_toggling_turns_one_box(body: Seq<char>, id: Seq<char>, k: int)
    requires
        meant_laws::means(body, id, k),
        !items::items_of(body)[k].failed,
        !(items::items_of(body)[k].checked && meant_laws::holds_two_boxes(
            text::lines_of(body)[items::items_of(body)[k].line],
        )),
    ensures
        ({
            let its = items::items_of(body);
            let once = edits::flipped(body, id);
            let twice = edits::flipped(once->Ok_0, id);
            &&& once is Ok
            &&& items::items_of(once->Ok_0).len() == its.len()
            &&& items::items_of(once->Ok_0)[k].checked == !its[k].checked
            &&& items::items_of(once->Ok_0)[k] == (ItemV { checked: !its[k].checked, ..its[k] })
            &&& forall|j: int|
                0 <= j < its.len() && j != k ==> #[trigger] items::items_of(once->Ok_0)[j]
                    == its[j]
            &&& twice is Ok
            &&& items::items_of(twice->Ok_0) == its
        }),
{
    let its = items::items_of(body);
    lemma_flipped(body, id, k);
    meant_laws::law_turning_a_box_changes_one_item(body, id, k);
    let b = edits::flipped(body, id)->Ok_0;
    lemma_flipped(b, id, k);
    meant_laws::law_turning_a_box_changes_one_item(b, id, k);
    let mid = items::items_of(b);
    assert(mid.update(k, ItemV { checked: !mid[k].checked, ..mid[k] }) =~= its);
}

/// Toggling a failed item reopens it: it is open and not failed, with the text that it
/// had, and no other item changes.
pub proof fn law_toggling_reopens_a_failed_item(body: Seq<char>, id: Seq<char>, k: int)
    requires
        meant_laws::means(body, id, k),
        items::items_of(body)[k].failed,
        !text::has(id, "-->"@),
        !text::begins(items::items_of(body)[k].text, FAILED_SENTINEL@),
    ensures
        ({
            let its = items::items_of(body);
            let r = edits::flipped(body, id);
            &&& r is Ok
            &&& items::items_of(r->Ok_0) == its.update(
                k,
                ItemV {
                    id: Some(text::trimmed(id)),
                    checked: false,
                    failed: false,
                    ..its[k]
                },
            )
        }),
{
    let its = items::items_of(body);
    let ls = text::lines_of(body);
    meant_laws::lemma_meant_line(body, id, k);
    lemma_item_from(its, id, 0, k);
    let i = its[k].line;
    let clean = its[k].text;
    op_laws::lemma_target_parts(body, id);
    let ind = items::indent(ls[i]);
    let line = items::plain_line(ind, false, id, clean);
    item_laws::lemma_plain_line(ind, false, id, clean);
    op_laws::lemma_written_lines_settled(ind, false, id, clean);
    op_laws::lemma_rewrite(body, i, line);
    item_laws::lemma_items_update(ls, i, line);
    let b = edits::flipped(body, id)->Ok_0;
    let new = items::items_of(b);
    let x = items::item_at(line, i).unwrap();
    let want = its.update(
        k,
        ItemV { id: Some(text::trimmed(id)), checked: false, failed: false, ..its[k] },
    );
    assert forall|j: int| 0 <= j < its.len() implies new[j] == want[j] by {
        assert(new[j] == if its[j].line == i {
            x
        } else {
            its[j]
        });
    }
    assert(new =~= want);
}

/// One file is written: that of the task, with a new body and the frontmatter as it was
/// but for the time.
pub open spec fn writes_body(o: OutcomeV, t: TaskRefV, body: Seq<char>, now: Seq<char>) -> bool {
    &&& o.error is None
    &&& o.steps == seq![
        StepV::Write {
            path: t.path,
            text: doc::serialized(
                TaskDocV { front: doc::FrontmatterV { updated_at: now, ..t.doc.front }, body },
            ),
        },
    ]
}

/// Nothing is done, and why is said.
pub open spec fn refuses(o: OutcomeV) -> bool {
    o.error is Some && o.steps.len() == 0
}

/// A change of a document whose items have their ids is one write, or nothing where it is
/// refused.
proof fn lemma_changed(
    s: StoreV,
    t: TaskRefV,
    change: spec_fn(Seq<char>) -> Result<Seq<char>, ItemErrorV>,
    now: Seq<char>,
)
    requires
        meant_laws::all_have_ids(t.doc.body),
    ensures
        ({
            let o = edits::edit_outcome(item_commands::assigned(s, t, now), change, now);
            match change(t.doc.body) {
                Ok(b) => writes_body(o, t, b, now),
                Err(_) => refuses(o),
            }
        }),
{
    meant_laws::lemma_none_untagged(items::items_of(t.doc.body));
    let o = edits::edit_outcome(item_commands::assigned(s, t, now), change, now);
    if let Ok(b) = change(t.doc.body) {
        assert(o.steps =~= seq![
            StepV::Write {
                path: t.path,
                text: doc::serialized(
                    TaskDocV {
                        front: doc::FrontmatterV { updated_at: now, ..t.doc.front },
                        body: b,
                    },
                ),
            },
        ]);
    }
}

/// A toggle writes the document of the task with the box of one item turned, a checked
/// one as well as an open one, and every other item as it was.
pub proof fn law_a_toggle_is_written(s: StoreV, t: TaskRefV, id: Seq<char>, k: int, now: Seq<char>)
    requires
        meant_laws::all_have_ids(t.doc.body),
        meant_laws::means(t.doc.body, id, k),
        !items::items_of(t.doc.body)[k].failed,
        !(items::items_of(t.doc.body)[k].checked && meant_laws::holds_two_boxes(
            text::lines_of(t.doc.body)[items::items_of(t.doc.body)[k].line],
        )),
    ensures
        exists|b: Seq<char>|
            {
                let its = items::items_of(t.doc.body);
                &&& #[trigger] writes_body(edits::toggled_outcome(s, t, id, now), t, b, now)
                &&& items::items_of(b) == its.update(
                    k,
                    ItemV { checked: !its[k].checked, ..its[k] },
                )
            },
{
    lemma_flipped(t.doc.body, id, k);
    meant_laws::law_turning_a_box_changes_one_item(t.doc.body, id, k);
    lemma_changed(s, t, |b: Seq<char>| edits::flipped(b, id), now);
    let b = edits::flipped(t.doc.body, id)->Ok_0;
    assert(writes_body(edits::toggled_outcome(s, t, id, now), t, b, now));
}

/// A new text is written into the document of the task: the item has it, and every other
/// item is as it was.
pub proof fn law_a_new_wording_is_written(
    s: StoreV,
    t: TaskRefV,
    id: Seq<char>,
    k: int,
    what: Seq<char>,
    now: Seq<char>,
)
    requires
        meant_laws::all_have_ids(t.doc.body),
        meant_laws::means(t.doc.body, id, k),
        text::trimmed(what).len() > 0,
        facts::one_line(text::trimmed(what)),
        !text::has(id, "-->"@),
        !text::begins(text::trimmed(what), FAILED_SENTINEL@),
    ensures
        exists|b: Seq<char>|
            {
                let its = items::items_of(t.doc.body);
                let new = items::items_of(b);
                &&& #[trigger] writes_body(
                    edits::reworded_outcome(s, t, id, what, now),
                    t,
                    b,
                    now,
                )
                &&& new.len() == its.len()
                &&& new[k].text == text::trimmed(what)
                &&& new[k].failed == its[k].failed
                &&& new[k].checked == (its[k].checked || its[k].failed)
                &&& forall|j: int| 0 <= j < its.len() && j != k ==> #[trigger] new[j] == its[j]
            },
{
    meant_laws::lemma_meant_line(t.doc.body, id, k);
    op_laws::law_edit_rewords_one_item(t.doc.body, id, what);
    lemma_changed(s, t, |b: Seq<char>| items::edited_body(b, id, what), now);
    let b = items::edited_body(t.doc.body, id, what)->Ok_0;
    let its = items::items_of(t.doc.body);
    let new = items::items_of(b);
    assert(new[k].text == text::trimmed(what));
    assert forall|j: int| 0 <= j < its.len() && j != k implies #[trigger] new[j] == its[j] by {
        assert(its[j].line != its[k].line);
    }
    assert(writes_body(edits::reworded_outcome(s, t, id, what, now), t, b, now));
}

/// A deletion is written into the document of the task: the item is gone, and the others
/// are left, in their order.
pub proof fn law_a_deletion_is_written(
    s: StoreV,
    t: TaskRefV,
    id: Seq<char>,
    k: int,
    now: Seq<char>,
)
    requires
        meant_laws::all_have_ids(t.doc.body),
        meant_laws::means(t.doc.body, id, k),
    ensures
        exists|b: Seq<char>|
            {
                let its = items::items_of(t.doc.body);
                let new = items::items_of(b);
                &&& #[trigger] writes_body(edits::removed_outcome(s, t, id, now), t, b, now)
                &&& new.len() == its.len() - 1
                &&& forall|j: int| 0 <= j < k ==> #[trigger] new[j] == its[j]
                &&& forall|j: int|
                    k <= j < new.len() ==> (#[trigger] new[j]).text == its[j + 1].text && new[j].id
                        == its[j + 1].id && new[j].checked == its[j + 1].checked
            },
{
    meant_laws::lemma_meant_line(t.doc.body, id, k);
    op_laws::law_delete_removes_one_item(t.doc.body, id);
    lemma_changed(s, t, |b: Seq<char>| items::deleted_body(b, id), now);
    let b = items::deleted_body(t.doc.body, id)->Ok_0;
    let ls = text::lines_of(t.doc.body);
    let its = items::items_of(t.doc.body);
    let new = items::items_of(b);
    let i = its[k].line;
    let a = items::items_in(ls.take(i));
    let c = items::items_in(ls.skip(i + 1));
    assert(its[a.len() as int] == its[k]);
    assert(a.len() == k);
    assert forall|j: int| k <= j < new.len() implies (#[trigger] new[j]).text == its[j + 1].text
        && new[j].id == its[j + 1].id && new[j].checked == its[j + 1].checked by {
        assert(new[j] == item_laws::shifted(c, i)[j - k]);
        assert(its[j + 1] == item_laws::shifted(c, i + 1)[j - k]);
    }
    assert(writes_body(edits::removed_outcome(s, t, id, now), t, b, now));
}

/// No item of a body has an id.
pub open spec fn unknown(body: Seq<char>, id: Seq<char>) -> bool {
    forall|k: int|
        0 <= k < items::items_of(body).len() ==> (#[trigger] items::items_of(body)[k]).id
            != Some(id)
}

/// An id that no item has is refused.
pub proof fn law_an_unknown_item_is_not_toggled(
    s: StoreV,
    t: TaskRefV,
    id: Seq<char>,
    now: Seq<char>,
)
    requires
        meant_laws::all_have_ids(t.doc.body),
        unknown(t.doc.body, id),
    ensures
        refuses(edits::toggled_outcome(s, t, id, now)),
{
    lemma_no_item_from(items::items_of(t.doc.body), id, 0);
    lemma_changed(s, t, |b: Seq<char>| edits::flipped(b, id), now);
}

proof fn lemma_no_item_from(its: Seq<ItemV>, id: Seq<char>, i: int)
    requires
        0 <= i,
        forall|j: int| 0 <= j < its.len() ==> (#[trigger] its[j]).id != Some(id),
    ensures
        edits::item_from(its, id, i) is None,
    decreases its.len() - i,
{
    if i < its.len() {
        assert(its[i].id != Some(id));
        lemma_no_item_from(its, id, i + 1);
    }
}

/// A new item is written first, into the document of the task, and blank text adds none.
pub proof fn law_an_added_item_is_written(
    s: StoreV,
    t: TaskRefV,
    what: Seq<char>,
    now: Seq<char>,
)
    ensures
        ({
            let o = edits::added_outcome(s, t, what, now);
            if text::trimmed(what).len() == 0 {
                o.error is Some && o.steps.len() == 0
            } else {
                o.steps.len() > 0 && o.steps[0] == (StepV::Write {
                    path: t.path,
                    text: doc::serialized(
                        TaskDocV {
                            front: doc::FrontmatterV { updated_at: now, ..t.doc.front },
                            body: sections::with_item(t.doc.body, text::trimmed(what)),
                        },
                    ),
                })
            }
        }),
{
}

} // verus!
