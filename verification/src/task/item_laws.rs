//! Laws of checklist items: ids are stable, and every operation on one item
//! leaves the others as they are.
use crate::facts;
use crate::task::items::{self, ItemV, FAILED_SENTINEL, FAIL_MARK};
use crate::text;
use vstd::prelude::*;

verus! {

/// An id that its marker gives back: no white space at either end, and no
/// comment end inside.
pub open spec fn plain_id(id: Seq<char>) -> bool {
    facts::snug(id) && !text::has(id, "-->"@)
}

/// What follows a checkbox, from an id marker on.
pub open spec fn marked_rest(id: Seq<char>, tail: Seq<char>) -> Seq<char> {
    " "@ + items::marker(id) + tail
}

/// A marker gives back its id, without white space around it, and what follows it.
pub proof fn lemma_marker(id: Seq<char>, tail: Seq<char>)
    requires
        !text::has(id, "-->"@),
    ensures
        items::marked_id(marked_rest(id, tail)) == Some(text::trimmed(id)),
        items::behind_marker(marked_rest(id, tail)) == text::trimmed(tail),
        items::raw_text(marked_rest(id, tail)) == text::trimmed(tail),
{
    reveal_strlit(" ");
    reveal_strlit("<!-- task:");
    reveal_strlit(" -->");
    reveal_strlit("-->");
    let x = marked_rest(id, tail);
    let n = id.len() as int;
    assert(x.len() == 15 + n + tail.len());
    assert forall|j: int| 0 <= j < n implies x[11 + j] == #[trigger] id[j] by {}
    // the opening of the marker
    assert(text::occurs_at(x, "<!-- task:"@, 1)) by {
        assert(x.subrange(1, 11) =~= "<!-- task:"@);
    }
    assert(!text::occurs_at(x, "<!-- task:"@, 0)) by {
        if text::occurs_at(x, "<!-- task:"@, 0) {
            assert(x.subrange(0, 10)[0] == ' ');
        }
    }
    facts::lemma_position_is(x, "<!-- task:"@, 1);
    let after = x.skip(11);
    assert(after =~= id + " -->"@ + tail);
    // the end of the marker
    assert forall|j: int| 0 <= j <= n implies !#[trigger] text::occurs_at(after, "-->"@, j) by {
        if text::occurs_at(after, "-->"@, j) {
            let w = after.subrange(j, j + 3);
            assert(w[0] == '-' && w[1] == '-' && w[2] == '>');
            assert(after[j] == '-' && after[j + 1] == '-' && after[j + 2] == '>');
            assert(after[n] == ' ');
            if j + 3 <= n {
                assert(id.subrange(j, j + 3) =~= w);
                facts::lemma_occurs_has(id, "-->"@, j);
            }
        }
    }
    assert(text::occurs_at(after, "-->"@, n + 1)) by {
        assert(after.subrange(n + 1, n + 4) =~= "-->"@);
    }
    facts::lemma_position_is(after, "-->"@, n + 1);
    assert(after.take(n + 1) =~= seq![] + id + " "@);
    assert(facts::all_white(" "@));
    facts::lemma_trimmed_pad(seq![], id, " "@);
    assert(items::marked_id(x) == Some(text::trimmed(id)));
    // the first comment end of the whole
    assert forall|j: int| 0 <= j < 12 + n implies !#[trigger] text::occurs_at(x, "-->"@, j) by {
        if text::occurs_at(x, "-->"@, j) {
            let w = x.subrange(j, j + 3);
            assert(w[0] == '-' && w[1] == '-' && w[2] == '>');
            assert(x[j] == '-' && x[j + 1] == '-' && x[j + 2] == '>');
            if j >= 11 {
                assert(after.subrange(j - 11, j - 8) =~= w);
                assert(text::occurs_at(after, "-->"@, j - 11));
            } else {
                assert(x[5] == ' ');
                assert(x[10] == ':');
            }
        }
    }
    assert(text::occurs_at(x, "-->"@, 12 + n)) by {
        assert(x.subrange(12 + n, 15 + n) =~= "-->"@);
    }
    facts::lemma_position_is(x, "-->"@, 12 + n);
    assert(x.skip(15 + n) =~= tail);
}

/// A line that opens with a checkbox.
pub proof fn lemma_box_line(ind: Seq<char>, checked: bool, rest: Seq<char>)
    requires
        facts::all_white(ind),
    ensures
        ({
            let line = ind + (if checked {
                "- [x]"@
            } else {
                "- [ ]"@
            }) + rest;
            &&& items::checkbox(line) == Some((checked, ind.len() as int + 5))
            &&& items::behind_box(line) == rest
            &&& items::indent(line) == ind
        }),
{
    reveal_strlit("- [x]");
    reveal_strlit("- [ ]");
    reveal_strlit("- [X]");
    let b = if checked {
        "- [x]"@
    } else {
        "- [ ]"@
    };
    let line = ind + b + rest;
    assert forall|i: int| 0 <= i < ind.len() implies text::is_white(#[trigger] line[i]) by {
        assert(line[i] == ind[i]);
    }
    assert(line[ind.len() as int] == '-');
    facts::lemma_trimmed_start_at(line, ind.len() as int);
    let t = text::trimmed_start(line);
    assert(t =~= b + rest);
    assert(t.subrange(0, 5) =~= b);
    if checked {
        assert(t.subrange(0, 5)[3] == 'x');
    } else {
        assert(t.subrange(0, 5)[3] == ' ');
    }
    assert("- [ ]"@[3] == ' ' && "- [x]"@[3] == 'x' && "- [X]"@[3] == 'X');
    assert(line.skip(ind.len() as int + 5) =~= rest);
    assert(line.take(ind.len() as int) =~= ind);
}

/// The indent of a line is white space.
pub proof fn lemma_indent_is_white(line: Seq<char>)
    ensures
        facts::all_white(items::indent(line)),
{
    text::lemma_trimmed_start(line);
    let ind = items::indent(line);
    assert forall|i: int| 0 <= i < ind.len() implies text::is_white(#[trigger] ind[i]) by {
        assert(ind[i] == line[i]);
    }
}

/// Reading the line of an item that is not failed gives back what it was made of.
pub proof fn lemma_plain_line(ind: Seq<char>, checked: bool, id: Seq<char>, clean: Seq<char>)
    requires
        facts::all_white(ind),
        !text::has(id, "-->"@),
        facts::snug(clean),
    ensures
        ({
            let line = items::plain_line(ind, checked, id, clean);
            &&& items::checkbox(line) == Some((checked, ind.len() as int + 5))
            &&& items::indent(line) == ind
            &&& items::marked_id(items::behind_box(line)) == Some(text::trimmed(id))
            &&& items::raw_text(items::behind_box(line)) == clean
            &&& items::line_state(line) == items::decoded(clean)
            &&& text::has(line, items::marker(id))
        }),
{
    let line = items::plain_line(ind, checked, id, clean);
    let b = if checked {
        "- [x]"@
    } else {
        "- [ ]"@
    };
    let tail = if clean.len() == 0 {
        Seq::<char>::empty()
    } else {
        " "@ + clean
    };
    let rest = marked_rest(id, tail);
    reveal_strlit(" ");
    assert(line =~= ind + b + rest) by {
        reveal_strlit("- [x]");
        reveal_strlit("- [ ]");
        reveal_strlit("- [x] ");
        reveal_strlit("- [ ] ");
        assert("- [x] "@ =~= "- [x]"@ + " "@);
        assert("- [ ] "@ =~= "- [ ]"@ + " "@);
    }
    lemma_box_line(ind, checked, rest);
    lemma_marker(id, tail);
    if clean.len() == 0 {
        assert(clean =~= seq![]);
        facts::lemma_trimmed_of(seq![], seq![], seq![]);
        assert(seq![] + Seq::<char>::empty() + seq![] =~= tail);
    } else {
        facts::lemma_trimmed_of(" "@, clean, seq![]);
        assert(" "@ + clean + seq![] =~= tail);
    }
    facts::lemma_occurs_between(ind + b + " "@, items::marker(id), tail);
    assert(line =~= ind + b + " "@ + items::marker(id) + tail);
}

/// Reading the line of a failed item gives back what it was made of.
pub proof fn lemma_failed_line(ind: Seq<char>, id: Seq<char>, clean: Seq<char>)
    requires
        facts::all_white(ind),
        !text::has(id, "-->"@),
        facts::snug(clean),
    ensures
        ({
            let line = items::failed_line(ind, id, clean);
            &&& items::checkbox(line) == Some((true, ind.len() as int + 5))
            &&& items::indent(line) == ind
            &&& items::marked_id(items::behind_box(line)) == Some(text::trimmed(id))
            &&& items::decoded(items::raw_text(items::behind_box(line))) == (true, clean)
            &&& items::line_state(line) == (true, clean)
            &&& text::has(line, items::marker(id))
        }),
{
    let line = items::failed_line(ind, id, clean);
    let shown = if clean.len() == 0 {
        FAIL_MARK@
    } else {
        "~~"@ + clean + "~~ "@ + FAIL_MARK@
    };
    let raw = FAILED_SENTINEL@ + " "@ + shown;
    let tail = " "@ + raw;
    let rest = marked_rest(id, tail);
    reveal_strlit(" ");
    reveal_strlit("~~");
    reveal_strlit("~~ ");
    reveal_strlit("❌");
    reveal_strlit("<!-- failed -->");
    assert(line =~= ind + "- [x]"@ + rest) by {
        reveal_strlit("- [x]");
        reveal_strlit("- [x] ");
        assert("- [x] "@ =~= "- [x]"@ + " "@);
    }
    lemma_box_line(ind, true, rest);
    lemma_marker(id, tail);
    assert(facts::snug(shown));
    assert(raw[0] == '<');
    assert(raw.last() == shown.last());
    facts::lemma_trimmed_of(" "@, raw, seq![]);
    assert(" "@ + raw + seq![] =~= tail);
    assert(text::trimmed(tail) == raw);
    // the decorations
    facts::lemma_begins(FAILED_SENTINEL@, " "@ + shown);
    assert(raw =~= FAILED_SENTINEL@ + (" "@ + shown));
    facts::lemma_trimmed_of(" "@, shown, seq![]);
    assert(" "@ + shown + seq![] =~= " "@ + shown);
    if clean.len() == 0 {
        facts::lemma_ends(seq![], FAIL_MARK@);
        assert(Seq::<char>::empty() + FAIL_MARK@ =~= FAIL_MARK@);
        let e = Seq::<char>::empty();
        assert(text::trimmed_end(e) == e);
        assert(!text::begins(e, "~~"@));
        assert(items::without_strike(e) == e);
        facts::lemma_trimmed_snug(e);
        assert(clean =~= e);
    } else {
        let struck = "~~"@ + clean + "~~"@;
        assert(shown =~= (struck + " "@) + FAIL_MARK@) by {
            assert("~~ "@ =~= "~~"@ + " "@);
        }
        facts::lemma_ends(struck + " "@, FAIL_MARK@);
        facts::lemma_trimmed_end_at(struck + " "@, struck.len() as int);
        assert((struck + " "@).take(struck.len() as int) =~= struck);
        facts::lemma_begins("~~"@, clean + "~~"@);
        assert(struck =~= "~~"@ + (clean + "~~"@));
        facts::lemma_ends(clean, "~~"@);
        facts::lemma_trimmed_snug(clean);
    }
    assert(items::decoded(raw) == (true, clean));
    let head = ind + "- [x]"@ + " "@;
    facts::lemma_occurs_between(head, items::marker(id), tail);
    assert(line =~= head + items::marker(id) + tail);
}

/// White space behind a line does not change the item that it holds.
pub proof fn lemma_item_before_white(line: Seq<char>, v: Seq<char>, n: int)
    requires
        facts::all_white(v),
    ensures
        items::item_at(line + v, n) == items::item_at(line, n),
{
    reveal_strlit("- [x]");
    reveal_strlit("- [ ]");
    reveal_strlit("- [X]");
    reveal_strlit("<!-- task:");
    reveal_strlit("-->");
    let x = line + v;
    let e = Seq::<char>::empty();
    text::lemma_trimmed_start(line);
    facts::lemma_start_before_white(line, v);
    let t = text::trimmed_start(line);
    let tx = text::trimmed_start(x);
    assert forall|b: Seq<char>| b.len() == 5 && b[4] == ']' implies #[trigger] text::begins(tx, b)
        == text::begins(t, b) by {
        if text::begins(tx, b) {
            assert(tx.subrange(0, 5)[4] == tx[4]);
            if t.len() <= 4 {
                assert(tx[4] == v[4 - t.len()]);
            }
            assert(t.subrange(0, 5) =~= tx.subrange(0, 5));
        }
        if text::begins(t, b) {
            assert(tx.subrange(0, 5) =~= t.subrange(0, 5));
        }
    }
    assert(text::begins(tx, "- [ ]"@) == text::begins(t, "- [ ]"@));
    assert(text::begins(tx, "- [x]"@) == text::begins(t, "- [x]"@));
    assert(text::begins(tx, "- [X]"@) == text::begins(t, "- [X]"@));
    match items::checkbox(line) {
        Some((_, after)) => {
            let rest = line.skip(after);
            let rx = x.skip(after);
            assert(items::checkbox(x) == items::checkbox(line));
            assert(rx =~= rest + v);
            facts::lemma_position_before_white(rest, v, "<!-- task:"@);
            facts::lemma_position_before_white(rest, v, "-->"@);
            facts::lemma_trimmed_pad(e, rest, v);
            assert(e + rest + v =~= rx);
            text::lemma_position_from(rest, "<!-- task:"@, 0);
            match text::position(rest, "<!-- task:"@) {
                Some(p) => {
                    let a = rest.skip(p + 10);
                    assert(rx.skip(p + 10) =~= a + v);
                    facts::lemma_position_before_white(a, v, "-->"@);
                    text::lemma_position_from(a, "-->"@, 0);
                    match text::position(a, "-->"@) {
                        Some(q) => {
                            assert((a + v).take(q) =~= a.take(q));
                        },
                        None => {},
                    }
                },
                None => {},
            }
            assert(items::marked_id(rx) == items::marked_id(rest));
            text::lemma_position_from(rest, "-->"@, 0);
            match text::position(rest, "-->"@) {
                Some(q) => {
                    let a = rest.skip(q + 3);
                    assert(rx.skip(q + 3) =~= e + a + v);
                    facts::lemma_trimmed_pad(e, a, v);
                },
                None => {},
            }
            assert(items::raw_text(rx) == items::raw_text(rest));
        },
        None => {},
    }
}

/// A carriage return at the end of a line does not change the item that it holds.
pub proof fn lemma_item_without_cr(line: Seq<char>, n: int)
    ensures
        items::item_at(text::without_cr(line), n) == items::item_at(line, n),
{
    if line.len() > 0 && line.last() == '\r' {
        assert(line =~= line.drop_last() + seq!['\r']);
        assert(facts::all_white(seq!['\r']));
        lemma_item_before_white(line.drop_last(), seq!['\r'], n);
    }
}

// ---------------------------------------------------------------------------
// Lists of items
// ---------------------------------------------------------------------------

/// Items some lines further down.
pub open spec fn shifted(its: Seq<ItemV>, k: int) -> Seq<ItemV> {
    Seq::new(its.len(), |i: int| ItemV { line: its[i].line + k, ..its[i] })
}

/// Carriage returns at the ends of lines do not change their items.
pub proof fn lemma_items_dry(ls: Seq<Seq<char>>)
    ensures
        items::items_in(facts::dry(ls)) == items::items_in(ls),
    decreases ls.len(),
{
    if ls.len() > 0 {
        lemma_items_dry(ls.drop_last());
        assert(facts::dry(ls).drop_last() =~= facts::dry(ls.drop_last()));
        lemma_item_without_cr(ls.last(), ls.len() - 1);
    }
}

/// The items up to the line of one of them.
pub proof fn lemma_items_up_to(ls: Seq<Seq<char>>, k: int)
    requires
        0 <= k < items::items_in(ls).len(),
    ensures
        0 <= items::items_in(ls)[k].line < ls.len(),
        items::items_in(ls.take(items::items_in(ls)[k].line + 1)) == items::items_in(ls).take(k + 1),
    decreases ls.len(),
{
    let d = ls.drop_last();
    let its = items::items_in(ls);
    let before = items::items_in(d);
    if k < before.len() {
        lemma_items_up_to(d, k);
        let l = before[k].line;
        assert(its[k] == before[k]);
        assert(ls.take(l + 1) =~= d.take(l + 1));
        assert(its.take(k + 1) =~= before.take(k + 1));
    } else {
        assert(ls.take(ls.len() as int) =~= ls);
        assert(its.take(k + 1) =~= its);
    }
}

/// The items of two lists of lines.
pub proof fn lemma_items_concat(a: Seq<Seq<char>>, b: Seq<Seq<char>>)
    ensures
        items::items_in(a + b) == items::items_in(a) + shifted(items::items_in(b), a.len() as int),
    decreases b.len(),
{
    if b.len() == 0 {
        assert(a + b =~= a);
        assert(items::items_in(b) =~= seq![]);
        assert(items::items_in(a) + shifted(items::items_in(b), a.len() as int) =~= items::items_in(
            a,
        ));
    } else {
        let c = b.drop_last();
        lemma_items_concat(a, c);
        assert((a + b).drop_last() =~= a + c);
        assert((a + b).last() == b.last());
        let n = a.len() as int;
        let l = b.len() - 1;
        match items::item_at(b.last(), l) {
            Some(item) => {
                let moved = ItemV { line: item.line + n, ..item };
                assert(items::item_at(b.last(), n + l) == Some(moved));
                assert(shifted(items::items_in(b), n) =~= shifted(items::items_in(c), n).push(
                    moved,
                ));
                assert(items::items_in(a + b) =~= items::items_in(a) + shifted(
                    items::items_in(b),
                    n,
                ));
            },
            None => {},
        }
    }
}

/// The item of one line, as a list.
pub open spec fn items_at(line: Seq<char>, n: int) -> Seq<ItemV> {
    match items::item_at(line, n) {
        Some(item) => seq![item],
        None => seq![],
    }
}

/// The items before a line, the one in it, and those behind it.
pub proof fn lemma_items_split(ls: Seq<Seq<char>>, i: int)
    requires
        0 <= i < ls.len(),
    ensures
        items::items_in(ls) == items::items_in(ls.take(i)) + items_at(ls[i], i) + shifted(
            items::items_in(ls.skip(i + 1)),
            i + 1,
        ),
{
    let head = ls.take(i + 1);
    assert(ls =~= head + ls.skip(i + 1));
    lemma_items_concat(head, ls.skip(i + 1));
    assert(head.drop_last() =~= ls.take(i));
    assert(items::items_in(head) =~= items::items_in(ls.take(i)) + items_at(ls[i], i));
}

/// The items of a list stand in its lines, in order.
pub proof fn lemma_items_lines(ls: Seq<Seq<char>>)
    ensures
        forall|k: int|
            0 <= k < items::items_in(ls).len() ==> 0 <= (#[trigger] items::items_in(ls)[k]).line
                < ls.len() && items::item_at(
                ls[items::items_in(ls)[k].line],
                items::items_in(ls)[k].line,
            ) == Some(items::items_in(ls)[k]),
        forall|j: int, k: int|
            0 <= j < k < items::items_in(ls).len() ==> (#[trigger] items::items_in(ls)[j]).line < (
            #[trigger] items::items_in(ls)[k]).line,
    decreases ls.len(),
{
    if ls.len() > 0 {
        let d = ls.drop_last();
        lemma_items_lines(d);
        let before = items::items_in(d);
        let its = items::items_in(ls);
        assert forall|k: int| 0 <= k < its.len() implies 0 <= (#[trigger] its[k]).line < ls.len()
            && items::item_at(ls[its[k].line], its[k].line) == Some(its[k]) by {
            if k < before.len() {
                assert(its[k] == before[k]);
                assert(d[its[k].line] == ls[its[k].line]);
            }
        }
        assert forall|j: int, k: int| 0 <= j < k < its.len() implies (#[trigger] its[j]).line < (
        #[trigger] its[k]).line by {
            assert(its[j] == before[j]);
            if k < before.len() {
                assert(its[k] == before[k]);
            }
        }
    }
}

/// `new` is `before` with the item of line `i` turned into `item`.
pub open spec fn only_item_changed(
    before: Seq<ItemV>,
    new: Seq<ItemV>,
    i: int,
    item: ItemV,
) -> bool {
    &&& new.len() == before.len()
    &&& forall|k: int|
        0 <= k < before.len() ==> #[trigger] new[k] == if before[k].line == i {
            item
        } else {
            before[k]
        }
}

/// Rewriting the line of one item changes that item alone.
pub proof fn lemma_items_update(ls: Seq<Seq<char>>, i: int, line: Seq<char>)
    requires
        0 <= i < ls.len(),
        items::is_item(ls[i]),
        items::is_item(line),
    ensures
        only_item_changed(
            items::items_in(ls),
            items::items_in(ls.update(i, line)),
            i,
            items::item_at(line, i).unwrap(),
        ),
{
    let up = ls.update(i, line);
    lemma_items_split(ls, i);
    lemma_items_split(up, i);
    assert(up.take(i) =~= ls.take(i));
    assert(up.skip(i + 1) =~= ls.skip(i + 1));
    let a = items::items_in(ls.take(i));
    let c = items::items_in(ls.skip(i + 1));
    lemma_items_lines(ls.take(i));
    lemma_items_lines(ls.skip(i + 1));
    let before = items::items_in(ls);
    let new = items::items_in(up);
    assert forall|k: int| 0 <= k < before.len() implies #[trigger] new[k] == if before[k].line == i {
        items::item_at(line, i).unwrap()
    } else {
        before[k]
    } by {
        if k < a.len() {
            assert(before[k] == a[k]);
        } else if k == a.len() {
            assert(before[k] == items::item_at(ls[i], i).unwrap());
        } else {
            assert(before[k] == shifted(c, i + 1)[k - a.len() - 1]);
        }
    }
}

// ---------------------------------------------------------------------------
// Ids
// ---------------------------------------------------------------------------

/// Digits make a plain id.
pub proof fn lemma_digits_are_plain(id: Seq<char>)
    requires
        text::all_digits(id),
    ensures
        plain_id(id),
        facts::one_line(id),
{
    reveal_strlit("-->");
    assert(text::is_digit(id[0]));
    assert(text::is_digit(id[id.len() - 1]));
    text::lemma_position_from(id, "-->"@, 0);
    if text::has(id, "-->"@) {
        let k = text::position(id, "-->"@)->0;
        assert(id.subrange(k, k + 3)[0] == '-');
        assert(text::is_digit(id[k]));
    }
    assert forall|i: int| 0 <= i < id.len() implies #[trigger] id[i] != '\n' by {
        assert(text::is_digit(id[i]));
    }
}

/// Tagging a line gives its item the id, and changes nothing else of it.
pub proof fn lemma_tagged(line: Seq<char>, id: Seq<char>, n: int)
    requires
        items::lacks_id(line),
        plain_id(id),
    ensures
        items::item_at(items::tagged(line, id), n) == Some(
            ItemV { id: Some(id), ..items::item_at(line, n).unwrap() },
        ),
{
    reveal_strlit(" ");
    reveal_strlit("- [x]");
    reveal_strlit("- [ ]");
    reveal_strlit("- [X]");
    text::lemma_trimmed_start(line);
    let t = text::trimmed_start(line);
    let k = line.len() - t.len();
    let e = items::box_end(line);
    let rest = items::behind_box(line);
    let tail = if text::trimmed_start(rest).len() == 0 {
        Seq::<char>::empty()
    } else {
        " "@ + text::trimmed_start(rest)
    };
    let new = items::tagged(line, id);
    assert(new =~= line.take(e) + marked_rest(id, tail));
    assert forall|i: int| 0 <= i < e implies new[i] == line[i] by {}
    assert(t.len() >= 5);
    assert(t[0] == '-') by {
        assert(t.subrange(0, 5)[0] == t[0]);
    }
    facts::lemma_trimmed_start_at(new, k);
    assert(text::trimmed_start(new).subrange(0, 5) =~= t.subrange(0, 5));
    assert(items::checkbox(new) == items::checkbox(line));
    assert(items::behind_box(new) =~= marked_rest(id, tail));
    lemma_marker(id, tail);
    facts::lemma_trimmed_snug(id);
    assert(text::trimmed(tail) == text::trimmed(rest)) by {
        text::lemma_trimmed_start(rest);
        let r = text::trimmed_start(rest);
        if r.len() == 0 {
            assert(r =~= tail);
            assert(text::trimmed_start(tail) == tail);
        } else {
            facts::lemma_trimmed_start_at(tail, 1);
            assert(tail.skip(1) =~= r);
        }
    }
}

/// A line with a marker for an id stays one line.
pub proof fn lemma_tagged_is_one_line(line: Seq<char>, id: Seq<char>)
    requires
        items::lacks_id(line),
        facts::one_line(line),
        facts::one_line(id),
    ensures
        facts::one_line(items::tagged(line, id)),
{
    reveal_strlit(" ");
    reveal_strlit("<!-- task:");
    reveal_strlit(" -->");
    let new = items::tagged(line, id);
    let e = items::box_end(line);
    let rest = items::behind_box(line);
    reveal_strlit("- [x]");
    reveal_strlit("- [ ]");
    reveal_strlit("- [X]");
    text::lemma_trimmed_start(line);
    text::lemma_trimmed_start(rest);
    let r = text::trimmed_start(rest);
    let d = rest.len() - r.len();
    let m = "<!-- task:"@ + id + " -->"@;
    let head = line.take(e) + " "@ + m;
    assert forall|i: int| 0 <= i < new.len() implies #[trigger] new[i] != '\n' by {
        if i < e {
            assert(new[i] == line[i]);
        } else if i < head.len() {
            assert(new[i] == head[i]);
            if i > e {
                assert(head[i] == m[i - e - 1]);
                if 10 <= i - e - 1 < 10 + id.len() {
                    assert(m[i - e - 1] == id[i - e - 11]);
                }
            }
        } else if i > head.len() {
            assert(new[i] == r[i - head.len() - 1]);
            assert(r[i - head.len() - 1] == rest[d + (i - head.len() - 1)]);
            assert(rest[d + (i - head.len() - 1)] == line[e + d + (i - head.len() - 1)]);
        }
    }
}

/// Adding an item counts it, where it has no id.
pub proof fn lemma_untagged_push(its: Seq<ItemV>, item: ItemV)
    ensures
        items::untagged(its.push(item)) == items::untagged(its) + (if item.id is None {
            1nat
        } else {
            0nat
        }),
        items::highest_id(its.push(item)) >= items::highest_id(its),
        items::highest_id(its.push(item)) >= items::id_number(item),
{
    assert(its.push(item).drop_last() =~= its);
}

/// No item without an id means that every item has one.
pub proof fn lemma_untagged(its: Seq<ItemV>)
    ensures
        items::untagged(its) == 0 <==> forall|k: int| 0 <= k < its.len() ==> (#[trigger] its[k]).id is Some,
        items::untagged(its) <= its.len(),
        forall|k: int|
            0 <= k < its.len() ==> items::id_number(#[trigger] its[k]) <= items::highest_id(its),
    decreases its.len(),
{
    if its.len() > 0 {
        let d = its.drop_last();
        lemma_untagged(d);
        assert forall|k: int| 0 <= k < its.len() implies items::id_number(#[trigger] its[k])
            <= items::highest_id(its) by {
            if k < d.len() {
                assert(d[k] == its[k]);
            }
        }
        if items::untagged(its) == 0 {
            assert forall|k: int| 0 <= k < its.len() implies (#[trigger] its[k]).id is Some by {
                if k < d.len() {
                    assert(d[k] == its[k]);
                }
            }
        }
        if forall|k: int| 0 <= k < its.len() ==> (#[trigger] its[k]).id is Some {
            assert(its.last() == its[its.len() - 1]);
            assert forall|k: int| 0 <= k < d.len() implies (#[trigger] d[k]).id is Some by {
                assert(d[k] == its[k]);
            }
        }
    }
}

/// The item with an id on it: its own, or the one that was given.
pub open spec fn with_id(item: ItemV, given: Seq<char>) -> ItemV {
    match item.id {
        Some(_) => item,
        None => ItemV { id: Some(given), ..item },
    }
}

/// Healing gives each item without an id the next number, and changes nothing else.
pub proof fn lemma_healed_items(ls: Seq<Seq<char>>, n: int)
    requires
        0 <= n <= ls.len(),
    ensures
        ({
            let before = items::items_in(ls.take(n));
            let after = items::items_in(items::healed(ls).take(n));
            &&& after.len() == before.len()
            &&& forall|k: int|
                0 <= k < before.len() ==> #[trigger] after[k] == with_id(
                    before[k],
                    text::decimal(items::given_number(ls, before[k].line)),
                )
        }),
    decreases n,
{
    if n > 0 {
        lemma_healed_items(ls, n - 1);
        let h = items::healed(ls);
        assert(ls.take(n).drop_last() =~= ls.take(n - 1));
        assert(h.take(n).drop_last() =~= h.take(n - 1));
        assert(ls.take(n).last() == ls[n - 1]);
        assert(h.take(n).last() == h[n - 1]);
        if items::lacks_id(ls[n - 1]) {
            let g = items::given_number(ls, n - 1);
            text::lemma_decimal(g);
            lemma_digits_are_plain(text::decimal(g));
            lemma_tagged(ls[n - 1], text::decimal(g), n - 1);
        }
    } else {
        assert(ls.take(0) =~= seq![]);
        assert(items::healed(ls).take(0) =~= seq![]);
    }
}

/// The items of a healed body are those of the healed lines.
proof fn lemma_healed_body(body: Seq<char>)
    requires
        items::untagged(items::items_of(body)) > 0,
    ensures
        items::items_of(items::healed_body(body)) == items::items_in(
            items::healed(text::lines_of(body)),
        ),
{
    let ls = text::lines_of(body);
    let h = items::healed(ls);
    facts::lemma_lines_have_no_feed(body);
    assert forall|i: int| 0 <= i < h.len() implies facts::one_line(#[trigger] h[i]) by {
        assert(facts::one_line(ls[i]));
        if items::lacks_id(ls[i]) {
            let g = items::given_number(ls, i);
            text::lemma_decimal(g);
            lemma_digits_are_plain(text::decimal(g));
            lemma_tagged_is_one_line(ls[i], text::decimal(g));
        }
    }
    lemma_untagged(items::items_of(body));
    assert(ls.len() > 0);
    facts::lemma_lines_written(h);
    lemma_items_dry(h);
}

/// Healing keeps every item where it is: its box, its text, its line, and the id
/// that it has. An item without an id gets the next number, counted modulo 2^32.
pub proof fn law_ids_are_stable(body: Seq<char>)
    ensures
        items::untagged(items::items_of(body)) == 0 ==> items::healed_body(body) == body,
        items::items_of(items::healed_body(body)).len() == items::items_of(body).len(),
        forall|k: int|
            0 <= k < items::items_of(body).len() ==> #[trigger] items::items_of(
                items::healed_body(body),
            )[k] == with_id(
                items::items_of(body)[k],
                text::decimal(
                    items::given_number(text::lines_of(body), items::items_of(body)[k].line),
                ),
            ),
{
    let ls = text::lines_of(body);
    lemma_untagged(items::items_of(body));
    if items::untagged(items::items_of(body)) > 0 {
        lemma_healed_body(body);
        lemma_healed_items(ls, ls.len() as int);
        assert(ls.take(ls.len() as int) =~= ls);
        assert(items::healed(ls).take(ls.len() as int) =~= items::healed(ls));
    }
}

/// While the numbers do not run out, the first item without an id gets the highest
/// number plus one, the second the highest plus two, and so on; every other item
/// stays as it is.
pub proof fn law_new_ids_count_on(body: Seq<char>)
    requires
        items::highest_id(items::items_of(body)) + items::untagged(items::items_of(body))
            <= u32::MAX,
    ensures
        items::items_of(items::healed_body(body)).len() == items::items_of(body).len(),
        forall|k: int|
            0 <= k < items::items_of(body).len() ==> #[trigger] items::items_of(
                items::healed_body(body),
            )[k] == with_id(
                items::items_of(body)[k],
                text::decimal(
                    items::highest_id(items::items_of(body)) + items::untagged(
                        items::items_of(body).take(k + 1),
                    ),
                ),
            ),
{
    let ls = text::lines_of(body);
    let its = items::items_of(body);
    let new = items::items_of(items::healed_body(body));
    law_ids_are_stable(body);
    assert forall|k: int| 0 <= k < its.len() implies #[trigger] new[k] == with_id(
        its[k],
        text::decimal(items::highest_id(its) + items::untagged(its.take(k + 1))),
    ) by {
        lemma_items_up_to(ls, k);
        let l = its[k].line;
        lemma_untagged_grows(ls, l + 1, ls.len() as int);
        assert(ls.take(ls.len() as int) =~= ls);
    }
}

/// After healing every item has an id, and healing again changes nothing.
pub proof fn law_healing_is_idempotent(body: Seq<char>)
    ensures
        items::untagged(items::items_of(items::healed_body(body))) == 0,
        items::healed_body(items::healed_body(body)) == items::healed_body(body),
{
    law_ids_are_stable(body);
    let its = items::items_of(items::healed_body(body));
    lemma_untagged(its);
}

/// How many items lack an id grows along the lines.
pub proof fn lemma_untagged_grows(ls: Seq<Seq<char>>, i: int, j: int)
    requires
        0 <= i <= j <= ls.len(),
    ensures
        items::untagged(items::items_in(ls.take(i))) <= items::untagged(
            items::items_in(ls.take(j)),
        ),
        i < j && items::lacks_id(ls[j - 1]) ==> items::untagged(items::items_in(ls.take(i)))
            < items::untagged(items::items_in(ls.take(j))),
    decreases j - i,
{
    if i < j {
        lemma_untagged_grows(ls, i, j - 1);
        let d = ls.take(j - 1);
        assert(ls.take(j).drop_last() =~= d);
        assert(ls.take(j).last() == ls[j - 1]);
        match items::item_at(ls[j - 1], j - 1) {
            Some(item) => {
                lemma_untagged_push(items::items_in(d), item);
            },
            None => {},
        }
    }
}

/// New ids are new: each is above every number in use, and above those given to
/// the items before it, as long as the numbers do not run out.
pub proof fn law_new_ids_are_fresh(body: Seq<char>)
    requires
        items::highest_id(items::items_of(body)) + items::untagged(items::items_of(body))
            <= u32::MAX,
    ensures
        forall|k: int|
            0 <= k < items::items_of(body).len() ==> items::id_number(
                #[trigger] items::items_of(body)[k],
            ) <= items::highest_id(items::items_of(body)),
        forall|i: int|
            0 <= i < text::lines_of(body).len() && items::lacks_id(text::lines_of(body)[i])
                ==> #[trigger] items::given_number(text::lines_of(body), i) > items::highest_id(
                items::items_of(body),
            ),
        forall|i: int, j: int|
            0 <= i < j < text::lines_of(body).len() && items::lacks_id(text::lines_of(body)[i])
                && items::lacks_id(text::lines_of(body)[j]) ==> #[trigger] items::given_number(
                text::lines_of(body),
                i,
            ) < #[trigger] items::given_number(text::lines_of(body), j),
{
    let ls = text::lines_of(body);
    let its = items::items_of(body);
    let n = ls.len() as int;
    lemma_untagged(its);
    assert(ls.take(n) =~= ls);
    assert forall|i: int| 0 <= i < n && items::lacks_id(ls[i]) implies #[trigger] items::given_number(
        ls,
        i,
    ) > items::highest_id(its) by {
        lemma_untagged_grows(ls, i, i + 1);
        lemma_untagged_grows(ls, i + 1, n);
    }
    assert forall|i: int, j: int|
        0 <= i < j < n && items::lacks_id(ls[i]) && items::lacks_id(
            ls[j],
        ) implies #[trigger] items::given_number(ls, i) < #[trigger] items::given_number(ls, j) by {
        lemma_untagged_grows(ls, i + 1, j + 1);
        lemma_untagged_grows(ls, j + 1, n);
    }
}

} // verus!
