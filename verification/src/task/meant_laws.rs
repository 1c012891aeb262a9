//! Laws of the item that an id means.
use crate::facts;
use crate::task::item_laws;
use crate::task::items::{self, ItemV};
use crate::task::op_laws;
use crate::text;
use vstd::prelude::*;
use vstd::string::*;

verus! {

/// Every item of a body has its id.
pub open spec fn all_have_ids(body: Seq<char>) -> bool {
    forall|k: int|
        0 <= k < items::items_of(body).len() ==> (#[trigger] items::items_of(body)[k]).id is Some
}

/// The item at place `k` is the one that an id means: the first with it, in whose line
/// its marker stands, and no item line above holds that marker.
pub open spec fn means(body: Seq<char>, id: Seq<char>, k: int) -> bool {
    let its = items::items_of(body);
    let ls = text::lines_of(body);
    &&& 0 <= k < its.len()
    &&& its[k].id == Some(id)
    &&& forall|j: int| 0 <= j < k ==> (#[trigger] its[j]).id != Some(id)
    &&& text::has(ls[its[k].line], "<!-- task:"@ + id + " -->"@)
    &&& forall|j: int|
        0 <= j < k ==> !text::has(ls[(#[trigger] its[j]).line], "<!-- task:"@ + id + " -->"@)
}

/// A line whose own box is written with a capital, and that holds another box in small
/// letters. Unchecking such an item turns the other one.
pub open spec fn holds_two_boxes(line: Seq<char>) -> bool {
    text::begins(text::trimmed_start(line), "- [X]"@) && text::has(line, "- [x]"@)
}

/// The line of an item line is among the items.
proof fn lemma_item_line_listed(ls: Seq<Seq<char>>, i: int)
    requires
        0 <= i < ls.len(),
        items::is_item(ls[i]),
    ensures
        exists|k: int|
            0 <= k < items::items_in(ls).len() && (#[trigger] items::items_in(ls)[k]).line == i,
{
    item_laws::lemma_items_split(ls, i);
    let a = items::items_in(ls.take(i));
    let its = items::items_in(ls);
    assert(its[a.len() as int] == items::item_at(ls[i], i).unwrap());
}

/// The line that an id means is the one that is changed.
pub proof fn lemma_meant_line(body: Seq<char>, id: Seq<char>, k: int)
    requires
        means(body, id, k),
    ensures
        ({
            let its = items::items_of(body);
            let ls = text::lines_of(body);
            let i = its[k].line;
            &&& 0 <= i < ls.len()
            &&& items::target(ls, id) == Some(i)
            &&& items::item_at(ls[i], i) == Some(its[k])
            &&& items::line_state(ls[i]) == (its[k].failed, its[k].text)
            &&& forall|j: int| 0 <= j < its.len() && (#[trigger] its[j]).line == i ==> j == k
        }),
{
    let its = items::items_of(body);
    let ls = text::lines_of(body);
    let i = its[k].line;
    let m = items::marker(id);
    item_laws::lemma_items_lines(ls);
    op_laws::lemma_target_from(ls, m, 0);
    assert(items::item_at(ls[i], i) == Some(its[k]));
    assert(items::is_item(ls[i]) && text::has(ls[i], m));
    let t = items::target(ls, id)->0;
    assert(t == i) by {
        if t < i {
            lemma_item_line_listed(ls, t);
            let j = choose|j: int| 0 <= j < its.len() && (#[trigger] its[j]).line == t;
            if j >= k {
                if j > k {
                    assert(its[k].line < its[j].line);
                }
                assert(false);
            }
            assert(!text::has(ls[its[j].line], "<!-- task:"@ + id + " -->"@));
        }
    }
    assert forall|j: int| 0 <= j < its.len() && (#[trigger] its[j]).line == i implies j == k by {
        if j < k {
            assert(its[j].line < its[k].line);
        } else if k < j {
            assert(its[k].line < its[j].line);
        }
    }
}

/// Where every item has an id, none lacks one.
pub proof fn lemma_none_untagged(its: Seq<ItemV>)
    requires
        forall|k: int| 0 <= k < its.len() ==> (#[trigger] its[k]).id is Some,
    ensures
        items::untagged(its) == 0,
    decreases its.len(),
{
    if its.len() > 0 {
        let d = its.drop_last();
        assert forall|k: int| 0 <= k < d.len() implies (#[trigger] d[k]).id is Some by {
            assert(d[k] == its[k]);
        }
        lemma_none_untagged(d);
        assert(its[its.len() - 1].id is Some);
    }
}

/// A marker stands behind the box of a line, so that it stays where the box changes.
proof fn lemma_marker_behind_box(line: Seq<char>, new: Seq<char>, id: Seq<char>)
    requires
        items::is_item(line),
        items::is_item(new),
        items::behind_box(new) == items::behind_box(line),
        text::has(line, items::marker(id)),
    ensures
        text::has(new, items::marker(id)),
{
    reveal_strlit("<!-- task:");
    reveal_strlit("- [ ]");
    reveal_strlit("- [x]");
    reveal_strlit("- [X]");
    let m = items::marker(id);
    text::lemma_position_from(line, m, 0);
    text::lemma_trimmed_start(line);
    text::lemma_trimmed_start(new);
    let k = text::position(line, m)->0;
    let e = items::box_end(line);
    let t = text::trimmed_start(line);
    assert(m[0] == '<');
    assert(line.subrange(k, k + m.len())[0] == line[k]);
    assert(line[k] == '<');
    assert(k >= e) by {
        if k < e {
            if k < e - 5 {
                assert(text::is_white(line[k]));
            } else {
                let b = t.subrange(0, 5);
                assert(t[k - (e - 5)] == line[k]);
                assert(b[k - (e - 5)] == t[k - (e - 5)]);
            }
        }
    }
    let f = items::box_end(new);
    let j = k - e + f;
    assert(items::behind_box(new).len() == new.len() - f);
    assert(items::behind_box(line).len() == line.len() - e);
    assert(j + m.len() <= new.len());
    assert(new.subrange(j, j + m.len()) =~= m) by {
        assert forall|q: int| 0 <= q < m.len() implies new[j + q] == m[q] by {
            assert(items::behind_box(new)[k - e + q] == new[j + q]);
            assert(items::behind_box(line)[k - e + q] == line[k + q]);
            assert(line.subrange(k, k + m.len())[q] == line[k + q]);
        }
    }
    facts::lemma_occurs_has(new, m, j);
}

/// A carriage return at the end of a line is no part of a marker in it.
proof fn lemma_has_without_cr(line: Seq<char>, id: Seq<char>)
    ensures
        text::has(text::without_cr(line), items::marker(id)) == text::has(line, items::marker(id)),
{
    reveal_strlit(" -->");
    let m = items::marker(id);
    if line.len() > 0 && line.last() == '\r' {
        let y = line.drop_last();
        let v = seq!['\r'];
        assert(line =~= y + v);
        assert(facts::all_white(v));
        assert(m.last() == '>');
        facts::lemma_position_before_white(y, v, m);
    }
}

/// A capital box at the start of a line without its carriage return stands in the line.
proof fn lemma_begins_without_cr(line: Seq<char>)
    requires
        text::begins(text::trimmed_start(text::without_cr(line)), "- [X]"@),
    ensures
        text::begins(text::trimmed_start(line), "- [X]"@),
{
    reveal_strlit("- [X]");
    if line.len() > 0 && line.last() == '\r' {
        let y = line.drop_last();
        let v = seq!['\r'];
        assert(line =~= y + v);
        assert(facts::all_white(v));
        facts::lemma_start_before_white(y, v);
        let t = text::trimmed_start(y);
        assert((t + v).subrange(0, 5) =~= t.subrange(0, 5));
    }
}

/// Turning a box leaves no capital one in front.
proof fn lemma_no_capital(line: Seq<char>, to: bool)
    requires
        items::is_item(line),
        op_laws::toggle_meets_box(line, to),
        items::checkbox(line).unwrap().0 != to,
    ensures
        !text::begins(text::trimmed_start(items::toggled(line, to)), "- [X]"@),
{
    reveal_strlit("- [ ]");
    reveal_strlit("- [x]");
    reveal_strlit("- [X]");
    let new = items::toggled(line, to);
    let t = text::trimmed_start(line);
    text::lemma_trimmed_start(line);
    let from = if to {
        "- [ ]"@
    } else if text::has(line, "- [x]"@) {
        "- [x]"@
    } else {
        "- [X]"@
    };
    let k = line.len() - t.len();
    if text::begins(t, "- [x]"@) {
        op_laws::lemma_first_box(line, "- [x]"@);
    }
    if text::begins(t, "- [X]"@) {
        op_laws::lemma_first_box(line, "- [X]"@);
    }
    if text::begins(t, "- [ ]"@) {
        op_laws::lemma_first_box(line, "- [ ]"@);
    }
    assert(t.subrange(0, 5)[3] == t[3]);
    assert(text::begins(t, from));
    op_laws::lemma_box_replaced(line, from, to);
    text::lemma_trimmed_start(new);
    let tn = text::trimmed_start(new);
    if text::begins(tn, "- [X]"@) {
        assert(tn.subrange(0, 5)[3] == tn[3]);
        assert(tn[3] == 'X');
        assert(items::checkbox(new) == Some((to, items::box_end(line))));
        assert(new.len() - tn.len() + 5 == items::box_end(line));
        assert(tn[3] == new[items::box_end(line) - 2]);
        let ind = items::indent(line);
        let b = if to {
            "- [x]"@
        } else {
            "- [ ]"@
        };
        assert(new == ind + b + items::behind_box(line));
        assert(ind.len() == items::box_end(line) - 5);
        assert(new[items::box_end(line) - 2] == b[3]);
    }
}

/// Turning the box of the item that an id means changes that box alone, and the id still
/// means that item.
pub proof fn law_turning_a_box_changes_one_item(body: Seq<char>, id: Seq<char>, k: int)
    requires
        means(body, id, k),
        !(items::items_of(body)[k].checked && holds_two_boxes(
            text::lines_of(body)[items::items_of(body)[k].line],
        )),
    ensures
        ({
            let its = items::items_of(body);
            let r = items::checked_body(body, id, !items::items_of(body)[k].checked);
            &&& r is Ok
            &&& items::items_of(r->Ok_0) == its.update(
                k,
                ItemV { checked: !its[k].checked, ..its[k] },
            )
            &&& means(r->Ok_0, id, k)
            &&& !holds_two_boxes(text::lines_of(r->Ok_0)[items::items_of(r->Ok_0)[k].line])
        }),
{
    reveal_strlit("- [ ]");
    reveal_strlit("- [x]");
    reveal_strlit("- [X]");
    let its = items::items_of(body);
    let ls = text::lines_of(body);
    lemma_meant_line(body, id, k);
    let i = its[k].line;
    let line = ls[i];
    let to = !its[k].checked;
    let t = text::trimmed_start(line);
    text::lemma_trimmed_start(line);
    assert(op_laws::toggle_meets_box(line, to)) by {
        if to {
            assert(text::begins(t, "- [ ]"@));
        } else {
            assert(text::begins(t, "- [x]"@) || text::begins(t, "- [X]"@));
        }
    }
    op_laws::law_check_sets_one_box(body, id, to);
    let r = items::checked_body(body, id, !items::items_of(body)[k].checked);
    let b = r->Ok_0;
    let new = items::items_of(b);
    let want = its.update(k, ItemV { checked: to, ..its[k] });
    assert forall|j: int| 0 <= j < its.len() implies new[j] == want[j] by {
        assert(new[j] == if its[j].line == i {
            ItemV { checked: to, ..items::item_at(ls[i], i).unwrap() }
        } else {
            its[j]
        });
    }
    assert(new =~= want);
    // the line, as it is read again
    facts::lemma_lines_have_no_feed(body);
    assert(facts::one_line(ls[i]));
    op_laws::lemma_toggled(line, to);
    let nl = items::toggled(line, to);
    op_laws::lemma_rewrite(body, i, nl);
    let up = ls.update(i, nl);
    let rl = text::lines_of(b);
    assert(rl == facts::dry(up));
    lemma_marker_behind_box(line, nl, id);
    lemma_has_without_cr(nl, id);
    assert(rl[i] == text::without_cr(nl));
    assert forall|j: int| 0 <= j < k implies !text::has(
        rl[(#[trigger] new[j]).line],
        "<!-- task:"@ + id + " -->"@,
    ) by {
        assert(new[j] == its[j]);
        item_laws::lemma_items_lines(ls);
        assert(its[j].line < its[k].line);
        let l = its[j].line;
        assert(rl[l] == text::without_cr(ls[l]));
        lemma_has_without_cr(ls[l], id);
        assert(!text::has(ls[its[j].line], "<!-- task:"@ + id + " -->"@));
    }
    assert forall|j: int| 0 <= j < k implies (#[trigger] new[j]).id != Some(id) by {
        assert(its[j].id != Some(id));
    }
    // its own box is a small one, or an open one
    item_laws::lemma_item_without_cr(nl, i);
    let w = text::without_cr(nl);
    assert(items::checkbox(w) is Some && items::checkbox(w).unwrap().0 == to);
    let tw = text::trimmed_start(w);
    if text::begins(tw, "- [X]"@) {
        lemma_no_capital(line, to);
        lemma_begins_without_cr(nl);
        assert(false);
    }
}

} // verus!
