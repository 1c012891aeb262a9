//! Laws of the operations on one checklist item.
use crate::facts;
use crate::task::item_laws;
use crate::task::items::{self, ItemErrorV, ItemV, FAILED_SENTINEL, FAIL_MARK};
use crate::task::sections;
use crate::text;
use vstd::prelude::*;

verus! {

/// The target of an id is the first item line that holds its marker.
pub proof fn lemma_target_from(ls: Seq<Seq<char>>, m: Seq<char>, i: int)
    requires
        0 <= i,
    ensures
        match items::target_from(ls, m, i) {
            Some(t) => i <= t < ls.len() && items::is_item(ls[t]) && text::has(ls[t], m)
                && forall|k: int|
                i <= k < t ==> !(items::is_item(#[trigger] ls[k]) && text::has(ls[k], m)),
            None => forall|k: int|
                i <= k < ls.len() ==> !(items::is_item(#[trigger] ls[k]) && text::has(ls[k], m)),
        },
    decreases ls.len() - i,
{
    if i < ls.len() && !(items::is_item(ls[i]) && text::has(ls[i], m)) {
        lemma_target_from(ls, m, i + 1);
    }
}

/// A rewritten line that keeps its box and its marker stays the target.
pub proof fn lemma_target_stays(ls: Seq<Seq<char>>, id: Seq<char>, line: Seq<char>)
    requires
        items::target(ls, id) is Some,
        items::is_item(line),
        text::has(line, items::marker(id)),
    ensures
        ({
            let i = items::target(ls, id).unwrap();
            0 <= i < ls.len() && items::target(ls.update(i, line), id) == Some(i)
        }),
{
    let m = items::marker(id);
    lemma_target_from(ls, m, 0);
    let i = items::target(ls, id).unwrap();
    let up = ls.update(i, line);
    lemma_target_from(up, m, 0);
    assert(up[i] == line);
    match items::target(up, id) {
        Some(t) => {
            if t < i {
                assert(up[t] == ls[t]);
            }
        },
        None => {},
    }
}

/// An id whose marker stands in a line holds no line feed.
pub proof fn lemma_marked_id_is_one_line(line: Seq<char>, id: Seq<char>)
    requires
        facts::one_line(line),
        text::has(line, items::marker(id)),
    ensures
        facts::one_line(id),
{
    let m = items::marker(id);
    text::lemma_position_from(line, m, 0);
    let k = text::position(line, m)->0;
    reveal_strlit("<!-- task:");
    assert forall|j: int| 0 <= j < id.len() implies #[trigger] id[j] != '\n' by {
        assert(m[10 + j] == id[j]);
        assert(line.subrange(k, k + m.len())[10 + j] == m[10 + j]);
        assert(line[k + 10 + j] == id[j]);
    }
}

/// The lines other than `i` are read back as they are written.
pub open spec fn others_settled(ls: Seq<Seq<char>>, i: int) -> bool {
    forall|k: int| 0 <= k < ls.len() && k != i ==> facts::settled_line(#[trigger] ls[k])
}

/// Rewriting one line of a body: the lines read back are those that were written,
/// without carriage returns at their ends, and they hold the same items.
pub proof fn lemma_rewrite(body: Seq<char>, i: int, line: Seq<char>)
    requires
        0 <= i < text::lines_of(body).len(),
        facts::one_line(line),
    ensures
        ({
            let up = text::lines_of(body).update(i, line);
            let new = text::lines_of(items::document(up));
            &&& new == facts::dry(up)
            &&& items::items_in(new) == items::items_in(up)
            &&& facts::settled_line(line) && others_settled(text::lines_of(body), i) ==> new == up
        }),
{
    let ls = text::lines_of(body);
    let up = ls.update(i, line);
    facts::lemma_lines_have_no_feed(body);
    assert forall|k: int| 0 <= k < up.len() implies facts::one_line(#[trigger] up[k]) by {
        if k != i {
            assert(up[k] == ls[k]);
        }
    }
    facts::lemma_lines_written(up);
    item_laws::lemma_items_dry(up);
    if facts::settled_line(line) && others_settled(ls, i) {
        assert forall|k: int| 0 <= k < up.len() implies #[trigger] facts::dry(up)[k] == up[k] by {
            if k != i {
                assert(facts::settled_line(ls[k]));
            }
        }
        assert(facts::dry(up) =~= up);
    }
}

// ---------------------------------------------------------------------------
// Checking
// ---------------------------------------------------------------------------

/// The checkbox is the first box of the line that checking (or unchecking) looks
/// for, or it is in that state already and the line holds no such box.
pub open spec fn toggle_meets_box(line: Seq<char>, checked: bool) -> bool {
    let t = text::trimmed_start(line);
    if checked {
        text::begins(t, "- [ ]"@) || !text::has(line, "- [ ]"@)
    } else {
        ||| text::begins(t, "- [x]"@)
        ||| text::begins(t, "- [X]"@) && !text::has(line, "- [x]"@)
        ||| !text::has(line, "- [x]"@) && !text::has(line, "- [X]"@)
    }
}

/// A box behind the indent of a line is the first of its kind.
pub proof fn lemma_first_box(line: Seq<char>, b: Seq<char>)
    requires
        b.len() == 5,
        b[0] == '-',
        text::begins(text::trimmed_start(line), b),
    ensures
        text::position(line, b) == Some(line.len() - text::trimmed_start(line).len()),
{
    text::lemma_trimmed_start(line);
    let t = text::trimmed_start(line);
    let k = line.len() - t.len();
    assert(line.subrange(k, k + 5) =~= t.subrange(0, 5));
    assert forall|j: int| 0 <= j < k implies !#[trigger] text::occurs_at(line, b, j) by {
        if text::occurs_at(line, b, j) {
            assert(line.subrange(j, j + 5)[0] == line[j]);
            assert(text::is_white(line[j]));
        }
    }
    facts::lemma_position_is(line, b, k);
}

/// Turning the box of a line into another keeps what stands around it.
pub proof fn lemma_box_replaced(line: Seq<char>, from: Seq<char>, checked: bool)
    requires
        items::is_item(line),
        from.len() == 5,
        from[0] == '-',
        text::begins(text::trimmed_start(line), from),
    ensures
        ({
            let to = if checked {
                "- [x]"@
            } else {
                "- [ ]"@
            };
            let new = text::replaced_first(line, from, to);
            &&& new == items::indent(line) + to + items::behind_box(line)
            &&& items::checkbox(new) == Some((checked, items::box_end(line)))
            &&& items::behind_box(new) == items::behind_box(line)
        }),
{
    lemma_first_box(line, from);
    item_laws::lemma_indent_is_white(line);
    text::lemma_trimmed_start(line);
    let to = if checked {
        "- [x]"@
    } else {
        "- [ ]"@
    };
    let new = text::replaced_first(line, from, to);
    assert(new =~= items::indent(line) + to + items::behind_box(line));
    item_laws::lemma_box_line(items::indent(line), checked, items::behind_box(line));
}

/// Toggling a line where it meets the box changes the box alone.
pub proof fn lemma_toggled(line: Seq<char>, checked: bool)
    requires
        items::is_item(line),
        toggle_meets_box(line, checked),
    ensures
        items::checkbox(items::toggled(line, checked)) == Some((checked, items::box_end(line))),
        items::behind_box(items::toggled(line, checked)) == items::behind_box(line),
        facts::one_line(line) ==> facts::one_line(items::toggled(line, checked)),
        facts::settled_line(line) ==> facts::settled_line(items::toggled(line, checked)),
{
    reveal_strlit("- [x]");
    reveal_strlit("- [ ]");
    reveal_strlit("- [X]");
    let t = text::trimmed_start(line);
    text::lemma_trimmed_start(line);
    let new = items::toggled(line, checked);
    let from = if checked {
        "- [ ]"@
    } else if text::has(line, "- [x]"@) {
        "- [x]"@
    } else {
        "- [X]"@
    };
    if text::begins(t, "- [x]"@) {
        lemma_first_box(line, "- [x]"@);
    }
    if text::begins(t, "- [X]"@) {
        lemma_first_box(line, "- [X]"@);
    }
    if text::begins(t, "- [ ]"@) {
        lemma_first_box(line, "- [ ]"@);
    }
    if text::begins(t, from) {
        lemma_box_replaced(line, from, checked);
        let e = items::box_end(line);
        if facts::one_line(line) {
            assert forall|i: int| 0 <= i < new.len() implies #[trigger] new[i] != '\n' by {
                if i < e - 5 || i >= e {
                    assert(new[i] == line[i]);
                }
            }
        }
        if line.len() > e {
            assert(new.last() == line.last());
        }
    } else {
        assert(new == line);
        assert(t.subrange(0, 5)[3] == t[3]);
    }
}

/// Checking or unchecking an item sets its box, and changes nothing else: not its
/// text or id, and no other item. Where no line ends with a carriage return, no
/// other line of the document changes.
pub proof fn law_check_sets_one_box(body: Seq<char>, id: Seq<char>, checked: bool)
    requires
        items::target(text::lines_of(body), id) is Some,
        toggle_meets_box(
            text::lines_of(body)[items::target(text::lines_of(body), id).unwrap()],
            checked,
        ),
    ensures
        ({
            let ls = text::lines_of(body);
            let i = items::target(ls, id).unwrap();
            let r = items::checked_body(body, id, checked);
            &&& r is Ok
            &&& facts::settled(ls) ==> text::lines_of(r->Ok_0) == ls.update(
                i,
                items::toggled(ls[i], checked),
            )
            &&& item_laws::only_item_changed(
                items::items_of(body),
                items::items_of(r->Ok_0),
                i,
                ItemV { checked, ..items::item_at(ls[i], i).unwrap() },
            )
        }),
{
    let ls = text::lines_of(body);
    lemma_target_from(ls, items::marker(id), 0);
    let i = items::target(ls, id).unwrap();
    facts::lemma_lines_have_no_feed(body);
    assert(facts::one_line(ls[i]));
    lemma_toggled(ls[i], checked);
    let line = items::toggled(ls[i], checked);
    lemma_rewrite(body, i, line);
    item_laws::lemma_items_update(ls, i, line);
}

/// An item that is in the wanted state already stays as it is exactly where its
/// line holds no other box to turn.
pub proof fn law_check_in_state_is_idle(line: Seq<char>, checked: bool)
    requires
        items::is_item(line),
        items::checkbox(line).unwrap().0 == checked,
    ensures
        items::toggled(line, checked) == line <==> if checked {
            !text::has(line, "- [ ]"@)
        } else {
            !text::has(line, "- [x]"@) && !text::has(line, "- [X]"@)
        },
{
    reveal_strlit("- [x]");
    reveal_strlit("- [ ]");
    reveal_strlit("- [X]");
    let from = if checked {
        "- [ ]"@
    } else if text::has(line, "- [x]"@) {
        "- [x]"@
    } else {
        "- [X]"@
    };
    let to = if checked {
        "- [x]"@
    } else {
        "- [ ]"@
    };
    text::lemma_position_from(line, from, 0);
    if text::has(line, from) {
        let k = text::position(line, from)->0;
        let new = items::toggled(line, checked);
        assert(new == line.take(k) + to + line.skip(k + 5));
        assert(new[k + 3] == to[3]);
        assert(line.subrange(k, k + 5)[3] == line[k + 3]);
    }
}

// ---------------------------------------------------------------------------
// Failing and reopening
// ---------------------------------------------------------------------------

/// A text that decoding gives is snug.
proof fn lemma_state_is_snug(line: Seq<char>)
    ensures
        facts::snug(items::line_state(line).1),
{
    let raw = items::behind_marker(items::behind_box(line));
    let rest = items::behind_box(line);
    match text::cut_at(rest, "-->"@) {
        Some((_, after)) => {
            facts::lemma_trimmed_is_snug(after);
        },
        None => {
            facts::lemma_trimmed_is_snug(rest);
        },
    }
    match text::after_prefix(raw, FAILED_SENTINEL@) {
        Some(r) => {
            facts::lemma_trimmed_is_snug(
                items::without_strike(items::without_mark(text::trimmed(r))),
            );
        },
        None => {},
    }
}

/// The characters of the text of a line are characters of the line.
proof fn lemma_state_is_one_line(line: Seq<char>)
    requires
        facts::one_line(line),
        items::is_item(line),
    ensures
        facts::one_line(items::line_state(line).1),
{
    reveal_strlit("- [x]");
    reveal_strlit("- [ ]");
    reveal_strlit("- [X]");
    reveal_strlit("-->");
    text::lemma_trimmed_start(line);
    let rest = items::behind_box(line);
    assert forall|i: int| 0 <= i < rest.len() implies #[trigger] rest[i] != '\n' by {
        assert(rest[i] == line[i + items::box_end(line)]);
    }
    let raw = items::behind_marker(rest);
    match text::cut_at(rest, "-->"@) {
        Some((_, after)) => {
            text::lemma_position_from(rest, "-->"@, 0);
            let p = text::position(rest, "-->"@)->0;
            assert forall|i: int| 0 <= i < after.len() implies #[trigger] after[i] != '\n' by {
                assert(after[i] == rest[i + p + 3]);
            }
            lemma_trimmed_one_line(after);
        },
        None => {
            lemma_trimmed_one_line(rest);
        },
    }
    lemma_decoded_is_one_line(raw);
}

/// The characters of a text without decorations are characters of the text.
pub proof fn lemma_decoded_is_one_line(raw: Seq<char>)
    requires
        facts::one_line(raw),
    ensures
        facts::one_line(items::decoded(raw).1),
{
    reveal_strlit("~~");
    match text::after_prefix(raw, FAILED_SENTINEL@) {
        Some(r) => {
            let n = FAILED_SENTINEL@.len() as int;
            assert forall|i: int| 0 <= i < r.len() implies #[trigger] r[i] != '\n' by {
                assert(r[i] == raw[i + n]);
            }
            lemma_trimmed_one_line(r);
            let t = text::trimmed(r);
            let u = items::without_mark(t);
            match text::before_suffix(t, FAIL_MARK@) {
                Some(s) => {
                    facts::lemma_trimmed_end(s);
                    assert forall|i: int| 0 <= i < u.len() implies #[trigger] u[i] != '\n' by {
                        assert(u[i] == t[i]);
                    }
                },
                None => {},
            }
            let w = items::without_strike(u);
            assert forall|i: int| 0 <= i < w.len() implies #[trigger] w[i] != '\n' by {
                match text::after_prefix(u, "~~"@) {
                    Some(x) => match text::before_suffix(x, "~~"@) {
                        Some(inner) => {
                            assert(w[i] == x[i]);
                            assert(x[i] == u[i + 2]);
                        },
                        None => {},
                    },
                    None => {},
                }
            }
            lemma_trimmed_one_line(w);
        },
        None => {},
    }
}

/// The text of an item is one line.
pub proof fn lemma_item_text_is_one_line(line: Seq<char>, n: int)
    requires
        facts::one_line(line),
        items::is_item(line),
    ensures
        facts::one_line(items::item_at(line, n).unwrap().text),
{
    let rest = items::behind_box(line);
    if items::marked_id(rest) is Some {
        lemma_state_is_one_line(line);
    } else {
        reveal_strlit("- [x]");
        reveal_strlit("- [ ]");
        reveal_strlit("- [X]");
        text::lemma_trimmed_start(line);
        assert forall|i: int| 0 <= i < rest.len() implies #[trigger] rest[i] != '\n' by {
            assert(rest[i] == line[i + items::box_end(line)]);
        }
        lemma_trimmed_one_line(rest);
        lemma_decoded_is_one_line(text::trimmed(rest));
    }
}

/// Trimming adds no line feed.
pub proof fn lemma_trimmed_one_line(s: Seq<char>)
    requires
        facts::one_line(s),
    ensures
        facts::one_line(text::trimmed(s)),
{
    let (a, b) = facts::lemma_trimmed_parts(s);
    let t = text::trimmed(s);
    assert forall|i: int| 0 <= i < t.len() implies #[trigger] t[i] != '\n' by {
        assert(s[i + a.len()] == t[i]);
    }
}

/// Settled parts make a settled line.
proof fn lemma_settled_join(a: Seq<char>, b: Seq<char>)
    requires
        facts::one_line(a),
        facts::settled_line(b),
        b.len() > 0,
    ensures
        facts::settled_line(a + b),
{
    assert forall|i: int| 0 <= i < (a + b).len() implies #[trigger] (a + b)[i] != '\n' by {
        if i < a.len() {
            assert((a + b)[i] == a[i]);
        } else {
            assert((a + b)[i] == b[i - a.len()]);
        }
    }
    assert((a + b).last() == b.last());
}

/// The written line of an item is settled.
pub proof fn lemma_written_lines_settled(
    ind: Seq<char>,
    checked: bool,
    id: Seq<char>,
    clean: Seq<char>,
)
    requires
        facts::one_line(ind),
        facts::one_line(id),
        facts::one_line(clean),
        facts::snug(clean),
    ensures
        facts::settled_line(items::failed_line(ind, id, clean)),
        facts::settled_line(items::plain_line(ind, checked, id, clean)),
{
    reveal_strlit("- [x] ");
    reveal_strlit("- [ ] ");
    reveal_strlit("<!-- task:");
    reveal_strlit(" -->");
    reveal_strlit(" ");
    reveal_strlit("~~");
    reveal_strlit("~~ ");
    reveal_strlit("❌");
    reveal_strlit("<!-- failed -->");
    let m = items::marker(id);
    let open = "<!-- task:"@ + id;
    assert forall|i: int| 0 <= i < open.len() implies #[trigger] open[i] != '\n' by {
        if i >= 10 {
            assert(open[i] == id[i - 10]);
        }
    }
    lemma_settled_join(open, " -->"@);
    let b1 = if checked {
        "- [x] "@
    } else {
        "- [ ] "@
    };
    lemma_settled_join(ind, b1);
    lemma_settled_join(ind + b1, m);
    lemma_settled_join(ind, "- [x] "@);
    lemma_settled_join(ind + "- [x] "@, m);
    let h = ind + "- [x] "@ + m;
    lemma_settled_join(h, " "@);
    lemma_settled_join(h + " "@, FAILED_SENTINEL@);
    lemma_settled_join(h + " "@ + FAILED_SENTINEL@, " "@);
    let head = h + " "@ + FAILED_SENTINEL@ + " "@;
    if clean.len() == 0 {
        lemma_settled_join(head, FAIL_MARK@);
    } else {
        assert(clean.last() != '\r');
        lemma_settled_join(head, "~~"@);
        lemma_settled_join(head + "~~"@, clean);
        lemma_settled_join(head + "~~"@ + clean, "~~ "@);
        lemma_settled_join(head + "~~"@ + clean + "~~ "@, FAIL_MARK@);
        lemma_settled_join(ind + b1 + m, " "@);
        lemma_settled_join(ind + b1 + m + " "@, clean);
    }
}

/// What the target line of a body gives to write.
pub proof fn lemma_target_parts(body: Seq<char>, id: Seq<char>)
    requires
        items::target(text::lines_of(body), id) is Some,
    ensures
        ({
            let ls = text::lines_of(body);
            let i = items::target(ls, id).unwrap();
            &&& 0 <= i < ls.len()
            &&& items::is_item(ls[i])
            &&& facts::all_white(items::indent(ls[i]))
            &&& facts::one_line(items::indent(ls[i]))
            &&& facts::one_line(id)
            &&& facts::one_line(items::line_state(ls[i]).1)
            &&& facts::snug(items::line_state(ls[i]).1)
        }),
{
    let ls = text::lines_of(body);
    lemma_target_from(ls, items::marker(id), 0);
    let i = items::target(ls, id).unwrap();
    let line = ls[i];
    facts::lemma_lines_have_no_feed(body);
    assert(facts::one_line(ls[i]));
    item_laws::lemma_indent_is_white(line);
    text::lemma_trimmed_start(line);
    let ind = items::indent(line);
    assert forall|k: int| 0 <= k < ind.len() implies #[trigger] ind[k] != '\n' by {
        assert(ind[k] == line[k]);
    }
    lemma_marked_id_is_one_line(line, id);
    lemma_state_is_one_line(line);
    lemma_state_is_snug(line);
}

/// A failed line has a checked box, the marker of its id, and the sentinel.
pub proof fn lemma_failed_line_shows(ind: Seq<char>, id: Seq<char>, clean: Seq<char>)
    requires
        facts::all_white(ind),
    ensures
        ({
            let line = items::failed_line(ind, id, clean);
            &&& text::begins(text::trimmed_start(line), "- [x]"@)
            &&& text::has(line, items::marker(id))
            &&& text::has(line, FAILED_SENTINEL@)
        }),
{
    let line = items::failed_line(ind, id, clean);
    let shown = if clean.len() == 0 {
        FAIL_MARK@
    } else {
        "~~"@ + clean + "~~ "@ + FAIL_MARK@
    };
    reveal_strlit("- [x]");
    reveal_strlit("- [ ]");
    reveal_strlit("- [X]");
    reveal_strlit("- [x] ");
    reveal_strlit(" ");
    assert("- [x] "@ =~= "- [x]"@ + " "@);
    let m = items::marker(id);
    let head = ind + "- [x] "@;
    facts::lemma_occurs_between(head, m, " "@ + FAILED_SENTINEL@ + " "@ + shown);
    assert(line =~= head + m + (" "@ + FAILED_SENTINEL@ + " "@ + shown));
    facts::lemma_occurs_between(head + m + " "@, FAILED_SENTINEL@, " "@ + shown);
    assert(line =~= (head + m + " "@) + FAILED_SENTINEL@ + (" "@ + shown));
    let rest = " "@ + m + " "@ + FAILED_SENTINEL@ + " "@ + shown;
    assert(line =~= ind + "- [x]"@ + rest);
    item_laws::lemma_box_line(ind, true, rest);
    let t = text::trimmed_start(line);
    assert forall|k: int| 0 <= k < ind.len() implies text::is_white(#[trigger] line[k]) by {
        assert(line[k] == ind[k]);
    }
    assert(line[ind.len() as int] == '-');
    facts::lemma_trimmed_start_at(line, ind.len() as int);
    assert(t.subrange(0, 5) =~= "- [x]"@);
}

/// Failing an item marks it checked and failed, keeps its text, and changes no
/// other item.
pub proof fn law_fail_marks_one_item(body: Seq<char>, id: Seq<char>)
    requires
        items::target(text::lines_of(body), id) is Some,
        !text::has(id, "-->"@),
    ensures
        ({
            let ls = text::lines_of(body);
            let i = items::target(ls, id).unwrap();
            let r = items::failed_body(body, id);
            &&& r is Ok
            &&& item_laws::only_item_changed(
                items::items_of(body),
                items::items_of(r->Ok_0),
                i,
                ItemV {
                    id: Some(text::trimmed(id)),
                    checked: true,
                    failed: true,
                    text: items::line_state(ls[i]).1,
                    line: i,
                },
            )
        }),
{
    let ls = text::lines_of(body);
    let i = items::target(ls, id).unwrap();
    lemma_target_parts(body, id);
    let ind = items::indent(ls[i]);
    let clean = items::line_state(ls[i]).1;
    let line = items::failed_in_place(ls[i], id);
    item_laws::lemma_failed_line(ind, id, clean);
    lemma_written_lines_settled(ind, true, id, clean);
    lemma_rewrite(body, i, line);
    item_laws::lemma_items_update(ls, i, line);
}

/// Failing an item rewrites its line alone, which then has a checked box, its marker
/// and the sentinel; failing it again changes nothing. Lines other than that of the
/// item that end with a carriage return are left out: writing the document takes it.
pub proof fn law_failing_is_idempotent(body: Seq<char>, id: Seq<char>)
    requires
        items::failed_body(body, id) is Ok,
        !text::has(id, "-->"@),
        others_settled(text::lines_of(body), items::target(text::lines_of(body), id).unwrap()),
    ensures
        ({
            let ls = text::lines_of(body);
            let i = items::target(ls, id).unwrap();
            let b = items::failed_body(body, id)->Ok_0;
            let line = text::lines_of(b)[i];
            &&& items::failed_body(b, id) == Ok::<Seq<char>, ItemErrorV>(b)
            &&& text::lines_of(b).len() == ls.len()
            &&& forall|k: int|
                0 <= k < ls.len() && k != i ==> #[trigger] text::lines_of(b)[k] == ls[k]
            &&& text::begins(text::trimmed_start(line), "- [x]"@)
            &&& text::has(line, items::marker(id))
            &&& text::has(line, FAILED_SENTINEL@)
        }),
{
    let ls = text::lines_of(body);
    let i = items::target(ls, id).unwrap();
    lemma_target_parts(body, id);
    let ind = items::indent(ls[i]);
    let clean = items::line_state(ls[i]).1;
    let line = items::failed_in_place(ls[i], id);
    item_laws::lemma_failed_line(ind, id, clean);
    lemma_failed_line_shows(ind, id, clean);
    lemma_written_lines_settled(ind, true, id, clean);
    lemma_rewrite(body, i, line);
    lemma_target_stays(ls, id, line);
    let up = ls.update(i, line);
    assert(up.update(i, line) =~= up);
}

/// Reopening undoes failing: the item is open again with the text it had, and a
/// line in the plain open form comes back as it was.
pub proof fn law_retry_undoes_fail(body: Seq<char>, id: Seq<char>)
    requires
        items::target(text::lines_of(body), id) is Some,
        !text::has(id, "-->"@),
        others_settled(text::lines_of(body), items::target(text::lines_of(body), id).unwrap()),
    ensures
        ({
            let ls = text::lines_of(body);
            let i = items::target(ls, id).unwrap();
            let clean = items::line_state(ls[i]).1;
            let open = items::plain_line(items::indent(ls[i]), false, id, clean);
            let failed = items::failed_body(body, id)->Ok_0;
            &&& items::reopened(failed, id) == Ok::<Seq<char>, ItemErrorV>(
                items::document(ls.update(i, open)),
            )
            &&& ls[i] == open ==> items::reopened(failed, id) == Ok::<Seq<char>, ItemErrorV>(
                items::document(ls),
            )
        }),
{
    let ls = text::lines_of(body);
    let i = items::target(ls, id).unwrap();
    lemma_target_parts(body, id);
    let ind = items::indent(ls[i]);
    let clean = items::line_state(ls[i]).1;
    let line = items::failed_in_place(ls[i], id);
    item_laws::lemma_failed_line(ind, id, clean);
    lemma_written_lines_settled(ind, true, id, clean);
    lemma_rewrite(body, i, line);
    lemma_target_stays(ls, id, line);
    let up = ls.update(i, line);
    let open = items::plain_line(ind, false, id, clean);
    assert(up.update(i, open) =~= ls.update(i, open));
    if ls[i] == open {
        assert(ls.update(i, open) =~= ls);
    }
}

/// A failed item cannot be taken for an open one: reopening what is not failed is
/// refused and changes nothing.
pub proof fn law_retry_needs_a_failed_item(body: Seq<char>, id: Seq<char>)
    ensures
        items::reopened(body, id) is Ok ==> items::target(text::lines_of(body), id) is Some
            && items::line_state(
            text::lines_of(body)[items::target(text::lines_of(body), id).unwrap()],
        ).0,
{
}

/// Rewording an item sets its text, keeps its id, its box and whether it is
/// failed, and changes no other item, nor any other line that does not end with a
/// carriage return. The new text is one line, and does not itself start with the
/// sentinel of a failed item.
pub proof fn law_edit_rewords_one_item(body: Seq<char>, id: Seq<char>, new_text: Seq<char>)
    requires
        items::target(text::lines_of(body), id) is Some,
        !text::has(id, "-->"@),
        facts::one_line(text::trimmed(new_text)),
        text::trimmed(new_text).len() > 0,
        !text::begins(text::trimmed(new_text), FAILED_SENTINEL@),
    ensures
        ({
            let ls = text::lines_of(body);
            let i = items::target(ls, id).unwrap();
            let failed = items::line_state(ls[i]).0;
            let t = text::trimmed(new_text);
            let r = items::edited_body(body, id, new_text);
            &&& r is Ok
            &&& others_settled(ls, i) ==> text::lines_of(r->Ok_0) == ls.update(
                i,
                items::reworded(ls[i], id, t),
            )
            &&& item_laws::only_item_changed(
                items::items_of(body),
                items::items_of(r->Ok_0),
                i,
                ItemV {
                    id: Some(text::trimmed(id)),
                    checked: failed || items::checkbox(ls[i]).unwrap().0,
                    failed,
                    text: t,
                    line: i,
                },
            )
        }),
{
    let ls = text::lines_of(body);
    let i = items::target(ls, id).unwrap();
    let t = text::trimmed(new_text);
    facts::lemma_trimmed_is_snug(new_text);
    lemma_target_parts(body, id);
    let ind = items::indent(ls[i]);
    let checked = items::checkbox(ls[i]).unwrap().0;
    let line = items::reworded(ls[i], id, t);
    if items::line_state(ls[i]).0 {
        item_laws::lemma_failed_line(ind, id, t);
    } else {
        item_laws::lemma_plain_line(ind, checked, id, t);
    }
    lemma_written_lines_settled(ind, checked, id, t);
    lemma_rewrite(body, i, line);
    item_laws::lemma_items_update(ls, i, line);
}

/// Deleting an item removes its line: the items before it stay, and those behind
/// it move up by one line.
pub proof fn law_delete_removes_one_item(body: Seq<char>, id: Seq<char>)
    requires
        items::target(text::lines_of(body), id) is Some,
    ensures
        ({
            let ls = text::lines_of(body);
            let i = items::target(ls, id).unwrap();
            let a = items::items_in(ls.take(i));
            let c = items::items_in(ls.skip(i + 1));
            &&& items::items_of(body) == a + seq![items::item_at(ls[i], i).unwrap()]
                + item_laws::shifted(c, i + 1)
            &&& items::deleted_body(body, id) is Ok
            &&& items::items_of(items::deleted_body(body, id)->Ok_0) == a + item_laws::shifted(c, i)
        }),
{
    let ls = text::lines_of(body);
    lemma_target_from(ls, items::marker(id), 0);
    let i = items::target(ls, id).unwrap();
    item_laws::lemma_items_split(ls, i);
    let kept = ls.remove(i);
    assert(kept =~= ls.take(i) + ls.skip(i + 1));
    item_laws::lemma_items_concat(ls.take(i), ls.skip(i + 1));
    if kept.len() > 0 {
        facts::lemma_lines_have_no_feed(body);
        assert forall|k: int| 0 <= k < kept.len() implies facts::one_line(#[trigger] kept[k]) by {
            if k < i {
                assert(kept[k] == ls[k]);
            } else {
                assert(kept[k] == ls[k + 1]);
            }
        }
        facts::lemma_lines_written(kept);
        item_laws::lemma_items_dry(kept);
    } else {
        facts::lemma_feed();
        let e = Seq::<char>::empty();
        assert(items::document(kept) =~= e + "\n"@ + e);
        facts::lemma_lines_cons(e, e);
        assert(text::lines_of(e) =~= seq![]);
        let one = text::lines_of(items::document(kept));
        assert(one =~= seq![e]);
        assert(one.drop_last() =~= seq![]);
        assert(text::trimmed_start(e) == e);
        reveal_strlit("- [x]");
        reveal_strlit("- [ ]");
        reveal_strlit("- [X]");
        assert(items::item_at(e, 0) is None);
        assert(items::items_in(one.drop_last()) =~= seq![]);
        assert(one.last() == e);
        assert(items::items_in(one) =~= seq![]);
        assert(items::items_in(kept) =~= seq![]);
    }
}

/// Blank lines hold no items.
proof fn lemma_blank_lines_hold_no_items(ls: Seq<Seq<char>>, from: int, to: int)
    requires
        0 <= from <= to <= ls.len(),
        forall|k: int| from <= k < to ==> text::trimmed(#[trigger] ls[k]).len() == 0,
    ensures
        items::items_in(ls.subrange(from, to)) == Seq::<ItemV>::empty(),
    decreases to - from,
{
    let part = ls.subrange(from, to);
    if from < to {
        lemma_blank_lines_hold_no_items(ls, from, to - 1);
        assert(part.drop_last() =~= ls.subrange(from, to - 1));
        let line = ls[to - 1];
        assert(part.last() == line);
        reveal_strlit("- [x]");
        reveal_strlit("- [ ]");
        reveal_strlit("- [X]");
        let t = text::trimmed_start(line);
        text::lemma_trimmed_start(line);
        facts::lemma_trimmed_end(t);
        if items::is_item(line) {
            assert(t.subrange(0, 5)[0] == t[0]);
            assert(text::is_white(t[0]));
        }
    }
}

/// The blank lines before the end of a section.
pub proof fn lemma_blank_end(ls: Seq<Seq<char>>, end: int)
    requires
        0 <= end <= ls.len(),
    ensures
        0 <= sections::blank_end(ls, end) <= end,
        forall|k: int|
            sections::blank_end(ls, end) <= k < end ==> text::trimmed(#[trigger] ls[k]).len() == 0,
        sections::blank_end(ls, end) > 0 ==> text::trimmed(
            ls[sections::blank_end(ls, end) - 1],
        ).len() > 0,
    decreases end,
{
    if end > 0 && text::trimmed(ls[end - 1]).len() == 0 {
        lemma_blank_end(ls, end - 1);
    }
}

/// The line of a new item: an open box without an id.
proof fn lemma_open_item(t: Seq<char>, n: int)
    requires
        facts::one_line(t),
        facts::snug(t),
        t.len() > 0,
        !text::has(t, "<!-- task:"@),
        !text::begins(t, FAILED_SENTINEL@),
    ensures
        facts::settled_line(sections::open_item(t)),
        items::item_at(sections::open_item(t), n) == Some(new_item(t, n)),
{
    let line = sections::open_item(t);
    reveal_strlit("- [ ] ");
    reveal_strlit("- [ ]");
    reveal_strlit(" ");
    reveal_strlit("<!-- task:");
    let e = Seq::<char>::empty();
    let rest = " "@ + t;
    assert(line =~= e + "- [ ]"@ + rest);
    item_laws::lemma_box_line(e, false, rest);
    lemma_settled_join("- [ ] "@, t);
    text::lemma_position_from(rest, "<!-- task:"@, 0);
    if text::has(rest, "<!-- task:"@) {
        let k = text::position(rest, "<!-- task:"@)->0;
        if k == 0 {
            assert(rest.subrange(0, 10)[0] == ' ');
        } else {
            assert(t.subrange(k - 1, k + 9) =~= rest.subrange(k, k + 10));
            facts::lemma_occurs_has(t, "<!-- task:"@, k - 1);
        }
    }
    facts::lemma_trimmed_of(" "@, t, e);
    assert(" "@ + t + e =~= rest);
    assert(line.skip(5) =~= rest);
}

/// A new item: open, not failed, and without an id.
pub open spec fn new_item(t: Seq<char>, line: int) -> ItemV {
    ItemV { id: None, checked: false, failed: false, text: t, line }
}

/// A text that an item gets as it is given: one line that is no marker of an id and
/// does not start with the sentinel of a failed item.
pub open spec fn plain_text(t: Seq<char>) -> bool {
    &&& facts::one_line(t)
    &&& !text::has(t, "<!-- task:"@)
    &&& !text::begins(t, FAILED_SENTINEL@)
}

/// A new item joins the end of the Tasks section: it stands right behind the last
/// line of the section that is not blank, it is open and has no id, no item of the
/// section stands behind it, and every other item stays as it is. Where no line ends
/// with a carriage return, every other line stays as it is too.
pub proof fn law_append_adds_one_item(body: Seq<char>, given: Seq<char>)
    requires
        sections::section(text::lines_of(body), "## Tasks"@) is Some,
        text::trimmed(given).len() > 0,
        plain_text(text::trimmed(given)),
    ensures
        ({
            let ls = text::lines_of(body);
            let t = text::trimmed(given);
            let (start, end) = sections::section(ls, "## Tasks"@).unwrap();
            let at = sections::blank_end(ls, end);
            let a = items::items_in(ls.take(at));
            let c = items::items_in(ls.skip(end));
            let r = sections::with_item(body, t);
            &&& start < at <= end
            &&& text::trimmed(ls[at - 1]).len() > 0
            &&& forall|k: int| at <= k < end ==> text::trimmed(#[trigger] ls[k]).len() == 0
            &&& text::lines_of(r) == facts::dry(ls.insert(at, sections::open_item(t)))
            &&& facts::settled(ls) ==> text::lines_of(r) == ls.insert(at, sections::open_item(t))
            &&& items::items_of(body) == a + item_laws::shifted(c, end)
            &&& items::items_of(r) == a + seq![new_item(t, at)] + item_laws::shifted(c, end + 1)
        }),
{
    let ls = text::lines_of(body);
    let t = text::trimmed(given);
    facts::lemma_trimmed_is_snug(given);
    sections::lemma_section(ls, "## Tasks"@);
    let (start, end) = sections::section(ls, "## Tasks"@).unwrap();
    let at = sections::blank_end(ls, end);
    lemma_blank_end(ls, end);
    assert(start < at) by {
        if at <= start {
            reveal_strlit("## Tasks");
            assert(text::trimmed(ls[start]).len() == 0);
        }
    }
    let line = sections::open_item(t);
    lemma_open_item(t, at);
    // the new line among the others
    let new_ls = ls.insert(at, line);
    facts::lemma_lines_have_no_feed(body);
    assert forall|k: int| 0 <= k < new_ls.len() implies facts::one_line(#[trigger] new_ls[k]) by {
        if k < at {
            assert(new_ls[k] == ls[k]);
        } else if k > at {
            assert(new_ls[k] == ls[k - 1]);
        }
    }
    facts::lemma_lines_written(new_ls);
    item_laws::lemma_items_dry(new_ls);
    if facts::settled(ls) {
        assert forall|k: int| 0 <= k < new_ls.len() implies facts::settled_line(
            #[trigger] new_ls[k],
        ) by {
            if k < at {
                assert(new_ls[k] == ls[k]);
            } else if k > at {
                assert(new_ls[k] == ls[k - 1]);
            }
        }
        facts::lemma_lines_document(new_ls);
    }
    let blanks = ls.subrange(at, end);
    lemma_blank_lines_hold_no_items(ls, at, end);
    let a = ls.take(at);
    let c = ls.skip(end);
    item_laws::lemma_items_concat(blanks, c);
    item_laws::lemma_items_concat(a, blanks + c);
    assert(ls =~= a + (blanks + c));
    let d = items::items_in(c);
    assert(item_laws::shifted(items::items_in(blanks + c), at) =~= item_laws::shifted(d, end));
    item_laws::lemma_items_split(new_ls, at);
    assert(new_ls.take(at) =~= a);
    assert(new_ls.skip(at + 1) =~= blanks + c);
    assert(item_laws::shifted(items::items_in(blanks + c), at + 1) =~= item_laws::shifted(
        d,
        end + 1,
    ));
}

/// White space behind a text adds no item.
proof fn lemma_items_before_white(x: Seq<char>, w: Seq<char>)
    requires
        facts::all_white(w),
        x.len() > 0 ==> !text::is_white(x.last()),
    ensures
        items::items_of(x + w) == items::items_of(x),
{
    let (p, m) = facts::lemma_split_last_feed(x);
    facts::lemma_feed();
    let pl = text::lines_of(p);
    let k = pl.len() as int;
    facts::lemma_lines_append(p, m);
    facts::lemma_lines_append(p, m + w);
    assert(x + w =~= p + (m + w));
    facts::lemma_lines_single(m);
    item_laws::lemma_items_concat(pl, text::lines_of(m));
    item_laws::lemma_items_concat(pl, text::lines_of(m + w));
    lemma_items_of_padded(m, w);
}

/// The items of one line with white space behind it.
proof fn lemma_items_of_padded(m: Seq<char>, w: Seq<char>)
    requires
        facts::all_white(w),
        facts::one_line(m),
    ensures
        items::items_of(m + w) == items::items_of(m),
    decreases w.len(),
{
    let s = m + w;
    facts::lemma_feed();
    facts::lemma_lines_single(m);
    let none = Seq::<ItemV>::empty();
    let e = Seq::<char>::empty();
    lemma_items_of_one(m);
    if facts::one_line(s) {
        facts::lemma_lines_single(s);
        lemma_items_of_one(s);
        item_laws::lemma_item_before_white(m, w, 0);
    } else {
        let (a, b) = facts::lemma_split_feed(s);
        facts::lemma_lines_cons(a, b);
        assert(a.len() >= m.len()) by {
            if a.len() < m.len() {
                assert(s[a.len() as int] == '\n');
                assert(m[a.len() as int] == '\n');
            }
        }
        let v = a.skip(m.len() as int);
        assert forall|j: int| 0 <= j < v.len() implies text::is_white(#[trigger] v[j]) by {
            assert(v[j] == s[m.len() + j]);
            assert(s[m.len() + j] == w[j]);
        }
        assert(a =~= m + v) by {
            assert forall|j: int| 0 <= j < m.len() implies a[j] == #[trigger] m[j] by {
                assert(s[j] == a[j]);
            }
        }
        assert forall|j: int| 0 <= j < b.len() implies text::is_white(#[trigger] b[j]) by {
            assert(b[j] == s[a.len() + 1 + j]);
            assert(s[a.len() + 1 + j] == w[a.len() + 1 + j - m.len()]);
        }
        let first = seq![text::without_cr(a)];
        item_laws::lemma_items_concat(first, text::lines_of(b));
        lemma_items_of_padded(e, b);
        assert(e + b =~= b);
        facts::lemma_lines_single(e);
        assert(items::items_of(e) =~= none);
        assert(item_laws::shifted(none, 1) =~= none);
        item_laws::lemma_item_without_cr(a, 0);
        item_laws::lemma_item_before_white(m, v, 0);
        assert(first.drop_last() =~= Seq::<Seq<char>>::empty());
        assert(first.last() == text::without_cr(a));
        assert(items::items_in(first.drop_last()) =~= none);
        assert(items::items_in(first) =~= item_laws::items_at(a, 0));
        assert(items::items_in(first) + none =~= items::items_in(first));
    }
}

/// The items of a text of one line.
proof fn lemma_items_of_one(m: Seq<char>)
    requires
        facts::one_line(m),
    ensures
        items::items_of(m) == item_laws::items_at(m, 0),
{
    facts::lemma_lines_single(m);
    let ls = text::lines_of(m);
    assert(items::items_in(Seq::<Seq<char>>::empty()) =~= Seq::<ItemV>::empty());
    if m.len() == 0 {
        assert(text::trimmed_start(m) == m);
        reveal_strlit("- [x]");
        reveal_strlit("- [ ]");
        reveal_strlit("- [X]");
    } else {
        assert(ls.drop_last() =~= Seq::<Seq<char>>::empty());
        assert(ls.last() == m);
        assert(items::items_in(ls) =~= item_laws::items_at(m, 0));
    }
}

/// The lines of a Tasks section with one item.
proof fn lemma_new_section(line: Seq<char>)
    requires
        facts::settled_line(line),
    ensures
        text::lines_of("\n## Tasks\n\n"@ + line + "\n"@) == seq![
            Seq::<char>::empty(),
            "## Tasks"@,
            Seq::<char>::empty(),
            line,
        ],
{
    facts::lemma_feed();
    reveal_strlit("\n## Tasks\n\n");
    reveal_strlit("## Tasks");
    let e = Seq::<char>::empty();
    let h = "## Tasks"@;
    let y4 = line + "\n"@ + e;
    let y3 = e + "\n"@ + y4;
    let y2 = h + "\n"@ + y3;
    let y1 = e + "\n"@ + y2;
    assert("\n## Tasks\n\n"@ + line + "\n"@ =~= y1);
    facts::lemma_lines_cons(line, e);
    facts::lemma_lines_cons(e, y4);
    facts::lemma_lines_cons(h, y3);
    facts::lemma_lines_cons(e, y2);
    assert(text::lines_of(e) =~= seq![]);
    assert(text::lines_of(y1) =~= seq![e, h, e, line]);
}

/// In a document without a Tasks section a new item gets one at its end: every
/// item stays as it is, and the new one, open and without an id, comes last.
pub proof fn law_append_makes_the_section(body: Seq<char>, given: Seq<char>)
    requires
        sections::section(text::lines_of(body), "## Tasks"@) is None,
        text::trimmed(given).len() > 0,
        plain_text(text::trimmed(given)),
    ensures
        ({
            let t = text::trimmed(given);
            let a = text::lines_of(text::trimmed_end(body) + "\n"@);
            let r = sections::with_item(body, t);
            &&& text::lines_of(r) == a + seq![
                Seq::<char>::empty(),
                "## Tasks"@,
                Seq::<char>::empty(),
                sections::open_item(t),
            ]
            &&& items::items_of(r) == items::items_of(body).push(new_item(t, a.len() as int + 3))
        }),
{
    let t = text::trimmed(given);
    facts::lemma_trimmed_is_snug(given);
    let x = text::trimmed_end(body);
    facts::lemma_trimmed_of_trimmed_end(body);
    facts::lemma_trimmed_end(body);
    let w = body.skip(x.len() as int);
    facts::lemma_feed();
    let e = Seq::<char>::empty();
    let x1 = x + "\n"@;
    let a = text::lines_of(x1);
    let line = sections::open_item(t);
    lemma_open_item(t, 3);
    lemma_open_item(t, a.len() as int + 3);
    let y = "\n## Tasks\n\n"@ + line + "\n"@;
    reveal_strlit("\n## Tasks\n\n");
    reveal_strlit("\n\n## Tasks\n\n");
    assert("\n\n## Tasks\n\n"@ =~= "\n"@ + "\n## Tasks\n\n"@);
    let r = sections::with_item(body, t);
    assert(r =~= x1 + y);
    facts::lemma_lines_append(x1, y);
    lemma_new_section(line);
    let ny = seq![e, "## Tasks"@, e, line];
    assert(text::lines_of(r) == a + ny);
    // the old items
    lemma_items_before_white(x, w);
    assert(facts::all_white("\n"@));
    lemma_items_before_white(x, "\n"@);
    assert(x + w == body);
    assert(items::items_in(a) == items::items_of(body));
    // the new one
    let head = ny.drop_last();
    assert(items::items_in(head) =~= Seq::<ItemV>::empty()) by {
        reveal_strlit("- [x]");
        reveal_strlit("- [ ]");
        reveal_strlit("- [X]");
        reveal_strlit("## Tasks");
        assert(text::trimmed_start(e) == e);
        assert(text::trimmed_start("## Tasks"@) == "## Tasks"@);
        assert(items::item_at(e, 0) is None);
        assert(items::item_at(e, 2) is None);
        assert(items::item_at("## Tasks"@, 1) is None) by {
            let h = "## Tasks"@;
            assert(h.subrange(0, 5)[0] == '#');
        }
        let h2 = head.drop_last();
        let h1 = h2.drop_last();
        assert(head.last() == e && h2.last() == "## Tasks"@ && h1.last() == e);
        assert(h1.drop_last() =~= Seq::<Seq<char>>::empty());
        assert(items::items_in(h1.drop_last()) =~= Seq::<ItemV>::empty());
        assert(items::items_in(h1) == items::items_in(h1.drop_last()));
        assert(items::items_in(h2) == items::items_in(h1));
        assert(items::items_in(head) == items::items_in(h2));
    }
    assert(ny.last() == line);
    assert(items::items_in(ny) =~= seq![new_item(t, 3)]);
    item_laws::lemma_items_concat(a, ny);
    assert(item_laws::shifted(items::items_in(ny), a.len() as int) =~= seq![
        new_item(t, a.len() as int + 3),
    ]);
    assert(items::items_of(body) + seq![new_item(t, a.len() as int + 3)] =~= items::items_of(body).push(
        new_item(t, a.len() as int + 3),
    ));
}

} // verus!
