//! Checklist items: one line each, a Markdown checkbox with an id marker.
use crate::text;
use vstd::prelude::*;
use vstd::string::*;

verus! {

/// Machine sentinel marking a checklist item as resolved-failed (as opposed to
/// resolved-done). It lives in an HTML comment so it stays invisible in
/// rendered Markdown and in the projected GitHub issue.
pub const FAILED_SENTINEL: &'static str = "<!-- failed -->";

/// Visible failure mark appended to a failed item's text (renders on GitHub).
pub const FAIL_MARK: &'static str = "❌";

/// One checklist item of a task document.
#[derive(Debug)]
pub struct Item {
    pub id: Option<String>,
    pub checked: bool,
    /// Resolved as failed (box is checked, text struck through, sentinel set).
    pub failed: bool,
    pub text: String,
    pub line: usize,
}

/// What an [`Item`] stands for.
#[verifier::ext_equal]
pub struct ItemV {
    pub id: Option<Seq<char>>,
    pub checked: bool,
    pub failed: bool,
    pub text: Seq<char>,
    pub line: int,
}

impl View for Item {
    type V = ItemV;

    open spec fn view(&self) -> ItemV {
        ItemV {
            id: text::opt_view(self.id),
            checked: self.checked,
            failed: self.failed,
            text: self.text@,
            line: self.line as int,
        }
    }
}

impl Clone for Item {
    fn clone(&self) -> (r: Self)
        ensures
            r@ == self@,
    {
        Item {
            id: text::clone_opt(&self.id),
            checked: self.checked,
            failed: self.failed,
            text: self.text.clone(),
            line: self.line,
        }
    }
}

/// Why a checklist operation was refused.
#[derive(Debug)]
pub enum ItemError {
    /// The new text is blank.
    EmptyText,
    /// No item carries the id.
    NotFound(String),
    /// The item is not failed, so there is nothing to reopen.
    NotFailed(String),
}

/// What an [`ItemError`] stands for.
#[verifier::ext_equal]
pub enum ItemErrorV {
    EmptyText,
    NotFound(Seq<char>),
    NotFailed(Seq<char>),
}

impl View for ItemError {
    type V = ItemErrorV;

    open spec fn view(&self) -> ItemErrorV {
        match self {
            ItemError::EmptyText => ItemErrorV::EmptyText,
            ItemError::NotFound(id) => ItemErrorV::NotFound(id@),
            ItemError::NotFailed(id) => ItemErrorV::NotFailed(id@),
        }
    }
}

/// What a text result stands for.
pub open spec fn text_result(r: Result<String, ItemError>) -> Result<Seq<char>, ItemErrorV> {
    match r {
        Ok(s) => Ok(s@),
        Err(e) => Err(e@),
    }
}

// ---------------------------------------------------------------------------
// One line
// ---------------------------------------------------------------------------

/// The checkbox that opens a line, after its indent: whether it is checked, and
/// the index just behind it.
pub open spec fn checkbox(line: Seq<char>) -> Option<(bool, int)> {
    let t = text::trimmed_start(line);
    let after = line.len() - t.len() + 5;
    if text::begins(t, "- [ ]"@) {
        Some((false, after))
    } else if text::begins(t, "- [x]"@) || text::begins(t, "- [X]"@) {
        Some((true, after))
    } else {
        None
    }
}

/// The line opens with a checkbox.
pub open spec fn is_item(line: Seq<char>) -> bool {
    checkbox(line) is Some
}

/// The index just behind the checkbox of an item line.
pub open spec fn box_end(line: Seq<char>) -> int {
    checkbox(line).unwrap().1
}

/// What follows the checkbox of an item line.
pub open spec fn behind_box(line: Seq<char>) -> Seq<char> {
    line.skip(box_end(line))
}

/// The id in the first id marker of what follows a checkbox.
pub open spec fn marked_id(rest: Seq<char>) -> Option<Seq<char>> {
    match text::cut_at(rest, "<!-- task:"@) {
        Some((_, after)) => match text::position(after, "-->"@) {
            Some(e) => Some(text::trimmed(after.take(e))),
            None => None,
        },
        None => None,
    }
}

/// What follows the first comment end, or everything where there is none.
pub open spec fn behind_marker(rest: Seq<char>) -> Seq<char> {
    match text::cut_at(rest, "-->"@) {
        Some((_, after)) => text::trimmed(after),
        None => text::trimmed(rest),
    }
}

/// The text of an item as it stands in the line, decorations included.
pub open spec fn raw_text(rest: Seq<char>) -> Seq<char> {
    if marked_id(rest) is Some {
        behind_marker(rest)
    } else {
        text::trimmed(rest)
    }
}

/// `t` without a failure mark at its end and the white space before it.
pub open spec fn without_mark(t: Seq<char>) -> Seq<char> {
    match text::before_suffix(t, FAIL_MARK@) {
        Some(s) => text::trimmed_end(s),
        None => t,
    }
}

/// `t` without the tildes of a strike-through.
pub open spec fn without_strike(t: Seq<char>) -> Seq<char> {
    match text::after_prefix(t, "~~"@) {
        Some(x) => match text::before_suffix(x, "~~"@) {
            Some(inner) => inner,
            None => t,
        },
        None => t,
    }
}

/// Splits the decorations of a failed item off its text: whether it is failed,
/// and its clean text. Only what starts with the sentinel is touched.
pub open spec fn decoded(raw: Seq<char>) -> (bool, Seq<char>) {
    match text::after_prefix(raw, FAILED_SENTINEL@) {
        Some(rest) => (true, text::trimmed(without_strike(without_mark(text::trimmed(rest))))),
        None => (false, raw),
    }
}

/// The item that a line holds, if any.
pub open spec fn item_at(line: Seq<char>, n: int) -> Option<ItemV> {
    match checkbox(line) {
        Some((checked, after)) => {
            let rest = line.skip(after);
            let d = decoded(raw_text(rest));
            Some(ItemV { id: marked_id(rest), checked, failed: d.0, text: d.1, line: n })
        },
        None => None,
    }
}

/// The items of a list of lines, in order.
pub open spec fn items_in(ls: Seq<Seq<char>>) -> Seq<ItemV>
    decreases ls.len(),
{
    if ls.len() == 0 {
        seq![]
    } else {
        let before = items_in(ls.drop_last());
        match item_at(ls.last(), ls.len() - 1) {
            Some(item) => before.push(item),
            None => before,
        }
    }
}

/// The items of a document body, in order.
pub open spec fn items_of(body: Seq<char>) -> Seq<ItemV> {
    items_in(text::lines_of(body))
}

/// The checkbox that opens a line.
fn checkbox_prefix(line: &str) -> (r: Option<(bool, usize)>)
    ensures
        match r {
            Some((c, a)) => checkbox(line@) == Some((c, a as int)) && a <= line@.len(),
            None => checkbox(line@) is None,
        },
{
    let t = text::trim_start(line);
    proof {
        text::lemma_trimmed_start(line@);
        reveal_strlit("- [ ]");
        reveal_strlit("- [x]");
        reveal_strlit("- [X]");
    }
    let indent: usize = line.unicode_len() - t.as_str().unicode_len();
    if text::starts_with(&t, "- [ ]") {
        Some((false, indent + 5))
    } else if text::starts_with(&t, "- [x]") || text::starts_with(&t, "- [X]") {
        Some((true, indent + 5))
    } else {
        None
    }
}

/// The id in the first id marker of what follows a checkbox.
fn extract_item_id(rest: &str) -> (r: Option<String>)
    ensures
        text::opt_view(r) == marked_id(rest@),
{
    match text::split_once(rest, "<!-- task:") {
        Some((_, after)) => {
            match text::find(&after, "-->") {
                Some(e) => Some(text::trim(after.as_str().substring_char(0, e))),
                None => None,
            }
        },
        None => None,
    }
}

/// What follows the first comment end, or everything where there is none.
fn text_behind_marker(rest: &str) -> (r: String)
    ensures
        r@ == behind_marker(rest@),
{
    match text::split_once(rest, "-->") {
        Some((_, after)) => text::trim(&after),
        None => text::trim(rest),
    }
}

/// Split a failed item's decorations off its text. A failed item carries the
/// `FAILED_SENTINEL` comment, its text wrapped in `~~strikethrough~~`, and a
/// trailing `FAIL_MARK`. Returns `(was_failed, clean_text)`; decorations are
/// only stripped when the sentinel is present, so plain text is never mangled.
fn decode_failed(text: &str) -> (r: (bool, String))
    ensures
        (r.0, r.1@) == decoded(text@),
{
    match text::strip_prefix(text, FAILED_SENTINEL) {
        None => (false, String::from_str(text)),
        Some(rest) => {
            let t = text::trim(&rest);
            let t = match text::strip_suffix(&t, FAIL_MARK) {
                Some(s) => text::trim_end(&s),
                None => t,
            };
            let t = match text::strip_prefix(&t, "~~") {
                Some(x) => match text::strip_suffix(&x, "~~") {
                    Some(inner) => inner,
                    None => t,
                },
                None => t,
            };
            (true, text::trim(&t))
        },
    }
}

/// The item that a line holds, if any.
fn read_item(line: &str, n: usize) -> (r: Option<Item>)
    ensures
        match r {
            Some(item) => item_at(line@, n as int) == Some(item@),
            None => item_at(line@, n as int) is None,
        },
{
    match checkbox_prefix(line) {
        Some((checked, after)) => {
            let rest = line.substring_char(after, line.unicode_len());
            let id = extract_item_id(rest);
            let raw = if id.is_some() {
                text_behind_marker(rest)
            } else {
                text::trim(rest)
            };
            let (failed, text) = decode_failed(&raw);
            Some(Item { id, checked, failed, text, line: n })
        },
        None => None,
    }
}

/// The checklist items of a document body, in order.
pub fn scan_items(body: &str) -> (r: Vec<Item>)
    ensures
        text::views(r@) == items_of(body@),
{
    let ls = text::lines(body);
    let mut out: Vec<Item> = Vec::new();
    let mut i: usize = 0;
    let ghost all = text::views(ls@);
    while i < ls.len()
        invariant
            0 <= i <= ls.len(),
            all == text::views(ls@),
            text::views(out@) == items_in(all.take(i as int)),
        decreases ls.len() - i,
    {
        let ghost before = text::views(out@);
        proof {
            assert(all.take(i as int + 1).drop_last() =~= all.take(i as int));
            assert(all.take(i as int + 1).last() == ls@[i as int]@);
        }
        match read_item(&ls[i], i) {
            Some(item) => {
                out.push(item);
                proof {
                    assert(text::views(out@) =~= before.push(item@));
                }
            },
            None => {},
        }
        i += 1;
    }
    proof {
        assert(all.take(i as int) =~= all);
    }
    out
}

// ---------------------------------------------------------------------------
// Sections of items
// ---------------------------------------------------------------------------

/// The last `## ` heading among the lines, without its mark; empty before the first.
pub open spec fn heading_after(ls: Seq<Seq<char>>) -> Seq<char>
    decreases ls.len(),
{
    if ls.len() == 0 {
        seq![]
    } else {
        match text::after_prefix(ls.last(), "## "@) {
            Some(h) => text::trimmed(h),
            None => heading_after(ls.drop_last()),
        }
    }
}

/// The heading that each item of the lines falls under.
pub open spec fn sections_in(ls: Seq<Seq<char>>) -> Seq<Seq<char>>
    decreases ls.len(),
{
    if ls.len() == 0 {
        seq![]
    } else if is_item(ls.last()) {
        sections_in(ls.drop_last()).push(heading_after(ls))
    } else {
        sections_in(ls.drop_last())
    }
}

/// The `## ` section heading each checklist item falls under, indexed parallel
/// to `scan_items` (same order, one entry per item). Empty for items before the
/// first heading. Lets `rein todo` group items the way the document does.
pub fn item_sections(body: &str) -> (r: Vec<String>)
    ensures
        text::views(r@) == sections_in(text::lines_of(body@)),
        r@.len() == items_of(body@).len(),
{
    let ls = text::lines(body);
    let mut current = String::new();
    let mut out: Vec<String> = Vec::new();
    let mut i: usize = 0;
    let ghost all = text::views(ls@);
    while i < ls.len()
        invariant
            0 <= i <= ls.len(),
            all == text::views(ls@),
            current@ == heading_after(all.take(i as int)),
            text::views(out@) == sections_in(all.take(i as int)),
        decreases ls.len() - i,
    {
        let ghost before = text::views(out@);
        proof {
            assert(all.take(i as int + 1).drop_last() =~= all.take(i as int));
            assert(all.take(i as int + 1).last() == ls@[i as int]@);
        }
        match text::strip_prefix(&ls[i], "## ") {
            Some(rest) => {
                current = text::trim(&rest);
            },
            None => {},
        }
        if checkbox_prefix(&ls[i]).is_some() {
            out.push(current.clone());
            proof {
                assert(text::views(out@) =~= before.push(current@));
            }
        }
        i += 1;
    }
    proof {
        assert(all.take(i as int) =~= all);
        law_one_section_per_item(body@);
    }
    out
}

/// Each item has exactly one section entry.
pub proof fn law_one_section_per_item(body: Seq<char>)
    ensures
        sections_in(text::lines_of(body)).len() == items_of(body).len(),
{
    lemma_sections_len(text::lines_of(body));
}

proof fn lemma_sections_len(ls: Seq<Seq<char>>)
    ensures
        sections_in(ls).len() == items_in(ls).len(),
    decreases ls.len(),
{
    if ls.len() > 0 {
        lemma_sections_len(ls.drop_last());
    }
}

// ---------------------------------------------------------------------------
// Ids
// ---------------------------------------------------------------------------

/// The number that an item's id is, or zero.
pub open spec fn id_number(item: ItemV) -> nat {
    match item.id {
        Some(id) => match text::number(id, u32::MAX as nat) {
            Some(n) => n,
            None => 0,
        },
        None => 0,
    }
}

/// The highest number among the ids, or zero.
pub open spec fn highest_id(items: Seq<ItemV>) -> nat
    decreases items.len(),
{
    if items.len() == 0 {
        0
    } else {
        let before = highest_id(items.drop_last());
        let n = id_number(items.last());
        if n > before {
            n
        } else {
            before
        }
    }
}

/// How many items carry no id.
pub open spec fn untagged(items: Seq<ItemV>) -> nat
    decreases items.len(),
{
    if items.len() == 0 {
        0
    } else if items.last().id is None {
        untagged(items.drop_last()) + 1
    } else {
        untagged(items.drop_last())
    }
}

/// The line holds an item without an id.
pub open spec fn lacks_id(line: Seq<char>) -> bool {
    is_item(line) && marked_id(behind_box(line)) is None
}

/// The marker of an id.
pub open spec fn marker(id: Seq<char>) -> Seq<char> {
    "<!-- task:"@ + id + " -->"@
}

/// An item line with an id marker set behind its checkbox.
pub open spec fn tagged(line: Seq<char>, id: Seq<char>) -> Seq<char> {
    let head = line.take(box_end(line)) + " "@ + marker(id);
    let rest = text::trimmed_start(behind_box(line));
    if rest.len() == 0 {
        head
    } else {
        head + " "@ + rest
    }
}

/// The number given to the item of line `i`: one more for each item without an
/// id up to it, counted on from the highest id, in 32-bit arithmetic.
pub open spec fn given_number(ls: Seq<Seq<char>>, i: int) -> nat {
    ((highest_id(items_in(ls)) + untagged(items_in(ls.take(i + 1)))) % 0x1_0000_0000) as nat
}

/// The lines with an id on every item.
pub open spec fn healed(ls: Seq<Seq<char>>) -> Seq<Seq<char>> {
    Seq::new(
        ls.len(),
        |i: int|
            if lacks_id(ls[i]) {
                tagged(ls[i], text::decimal(given_number(ls, i)))
            } else {
                ls[i]
            },
    )
}

/// The body with an id on every item.
pub open spec fn healed_body(body: Seq<char>) -> Seq<char> {
    if untagged(items_of(body)) == 0 {
        body
    } else {
        document(healed(text::lines_of(body)))
    }
}

/// A document body made of lines.
pub open spec fn document(ls: Seq<Seq<char>>) -> Seq<char> {
    text::joined(ls, "\n"@) + "\n"@
}

/// The document body made of lines.
pub fn join_document(ls: &Vec<String>) -> (r: String)
    ensures
        r@ == document(text::views(ls@)),
{
    let mut out = text::join(ls, "\n");
    out.append("\n");
    out
}

/// The highest number among the ids of a list of items.
fn highest(items: &Vec<Item>) -> (r: u32)
    ensures
        r == highest_id(text::views(items@)),
{
    let mut max: u32 = 0;
    let mut i: usize = 0;
    let ghost all = text::views(items@);
    while i < items.len()
        invariant
            0 <= i <= items.len(),
            all == text::views(items@),
            max == highest_id(all.take(i as int)),
        decreases items.len() - i,
    {
        proof {
            assert(all.take(i as int + 1).drop_last() =~= all.take(i as int));
            assert(all.take(i as int + 1).last() == items@[i as int]@);
        }
        match &items[i].id {
            Some(id) => {
                match text::parse_u32(id) {
                    Some(n) => {
                        if n > max {
                            max = n;
                        }
                    },
                    None => {},
                }
            },
            None => {},
        }
        i += 1;
    }
    proof {
        assert(all.take(i as int) =~= all);
    }
    max
}

/// The marker of an id.
fn id_marker(id: &str) -> (r: String)
    ensures
        r@ == marker(id@),
{
    let mut m = String::from_str("<!-- task:");
    m.append(id);
    m.append(" -->");
    m
}

/// An item line with an id marker set behind its checkbox.
fn tag_line(line: &str, after: usize, id: &str) -> (r: String)
    requires
        is_item(line@),
        after == box_end(line@),
        after <= line@.len(),
    ensures
        r@ == tagged(line@, id@),
{
    let mut out = String::from_str(line.substring_char(0, after));
    out.append(" ");
    out.append(&id_marker(id));
    let rest = text::trim_start(line.substring_char(after, line.unicode_len()));
    if !rest.as_str().is_empty() {
        out.append(" ");
        out.append(&rest);
    }
    out
}

/// Assign stable, monotonic integer IDs to checklist items lacking one. A
/// single sequence spans Tasks and Validation. Existing IDs (any form) are kept
/// and never renumbered, so reordering, rewording, or inserting lines never
/// moves an item's ID — it is a serial number, not a line number. New items get
/// `max(existing integer ids) + 1`. Returns the new body and whether it changed.
/// The count goes on modulo 2^32 after the highest 32-bit number.
pub fn ensure_item_ids(body: &str) -> (r: (String, bool))
    ensures
        r.0@ == healed_body(body@),
        r.1 == (untagged(items_of(body@)) > 0),
{
    let items = scan_items(body);
    let mut next: u32 = highest(&items);
    let ls = text::lines(body);
    let mut out: Vec<String> = Vec::new();
    let mut changed: bool = false;
    let mut i: usize = 0;
    let ghost all = text::views(ls@);
    let ghost top = highest_id(items_in(all));
    while i < ls.len()
        invariant
            0 <= i <= ls.len(),
            all == text::views(ls@),
            top == highest_id(items_in(all)),
            next == (top + untagged(items_in(all.take(i as int)))) % 0x1_0000_0000,
            changed == (untagged(items_in(all.take(i as int))) > 0),
            text::views(out@) == healed(all).take(i as int),
        decreases ls.len() - i,
    {
        let ghost before = text::views(out@);
        let ghost next_before = next;
        proof {
            assert(all.take(i as int + 1).drop_last() =~= all.take(i as int));
            assert(all.take(i as int + 1).last() == ls@[i as int]@);
            assert(items_in(all.take(i as int + 1)).drop_last() =~= items_in(all.take(i as int))
                || items_in(all.take(i as int + 1)) == items_in(all.take(i as int)));
            assert(healed(all).take(i as int + 1) =~= healed(all).take(i as int).push(
                healed(all)[i as int],
            ));
        }
        match read_item(&ls[i], i) {
            Some(item) => {
                proof {
                    assert(items_in(all.take(i as int + 1)) == items_in(all.take(i as int)).push(
                        item@,
                    ));
                }
                if item.id.is_none() {
                    next = if next == u32::MAX {
                        0
                    } else {
                        next + 1
                    };
                    changed = true;
                    proof {
                        let u = untagged(items_in(all.take(i as int)));
                        assert(untagged(items_in(all.take(i as int + 1))) == u + 1);
                        assert(next == (top + (u + 1)) % 0x1_0000_0000);
                    }
                    match checkbox_prefix(&ls[i]) {
                        Some((_, after)) => {
                            let id = text::format_u64(next as u64);
                            out.push(tag_line(&ls[i], after, &id));
                        },
                        None => {
                            assert(false);
                        },
                    }
                } else {
                    out.push(ls[i].clone());
                }
            },
            None => {
                out.push(ls[i].clone());
            },
        }
        proof {
            assert(text::views(out@) =~= before.push(out@.last()@));
        }
        i += 1;
    }
    proof {
        assert(all.take(i as int) =~= all);
        assert(healed(all).take(i as int) =~= healed(all));
    }
    if !changed {
        return (String::from_str(body), false);
    }
    (join_document(&out), true)
}

// ---------------------------------------------------------------------------
// Operations on one item
// ---------------------------------------------------------------------------

/// The first line at or after `i` that opens with a checkbox and holds `m`.
pub open spec fn target_from(ls: Seq<Seq<char>>, m: Seq<char>, i: int) -> Option<int>
    decreases ls.len() - i,
{
    if i < 0 || i >= ls.len() {
        None
    } else if is_item(ls[i]) && text::has(ls[i], m) {
        Some(i)
    } else {
        target_from(ls, m, i + 1)
    }
}

/// The line of the item with an id.
pub open spec fn target(ls: Seq<Seq<char>>, id: Seq<char>) -> Option<int> {
    target_from(ls, marker(id), 0)
}

/// The line of the item with an id.
fn find_target(ls: &Vec<String>, id: &str) -> (r: Option<usize>)
    ensures
        match r {
            Some(i) => i < ls.len() && target(text::views(ls@), id@) == Some(i as int) && is_item(
                ls@[i as int]@,
            ),
            None => target(text::views(ls@), id@) is None,
        },
{
    let m = id_marker(id);
    let mut i: usize = 0;
    let ghost all = text::views(ls@);
    while i < ls.len()
        invariant
            0 <= i <= ls.len(),
            all == text::views(ls@),
            m@ == marker(id@),
            target(all, id@) == target_from(all, m@, i as int),
        decreases ls.len() - i,
    {
        if checkbox_prefix(&ls[i]).is_some() && text::contains(&ls[i], &m) {
            return Some(i);
        }
        i += 1;
    }
    None
}

/// The result of rewriting the line of the item with an id.
pub open spec fn with_target(
    body: Seq<char>,
    id: Seq<char>,
    new_line: spec_fn(Seq<char>) -> Seq<char>,
) -> Result<Seq<char>, ItemErrorV> {
    let ls = text::lines_of(body);
    match target(ls, id) {
        Some(i) => Ok(document(ls.update(i, new_line(ls[i])))),
        None => Err(ItemErrorV::NotFound(id)),
    }
}

/// A line with its first open box checked, or its first checked box opened.
pub open spec fn toggled(line: Seq<char>, checked: bool) -> Seq<char> {
    if checked {
        text::replaced_first(line, "- [ ]"@, "- [x]"@)
    } else if text::has(line, "- [x]"@) {
        text::replaced_first(line, "- [x]"@, "- [ ]"@)
    } else {
        text::replaced_first(line, "- [X]"@, "- [ ]"@)
    }
}

/// The result of checking, or unchecking, an item.
pub open spec fn checked_body(
    body: Seq<char>,
    id: Seq<char>,
    checked: bool,
) -> Result<Seq<char>, ItemErrorV> {
    with_target(body, id, |line: Seq<char>| toggled(line, checked))
}

/// The lines with one of them replaced.
fn set_line(ls: Vec<String>, i: usize, line: String) -> (r: String)
    requires
        i < ls.len(),
    ensures
        r@ == document(text::views(ls@).update(i as int, line@)),
{
    let mut ls = ls;
    let ghost before = ls@;
    ls.set(i, line);
    proof {
        assert(text::views(ls@) =~= text::views(before).update(i as int, line@));
    }
    join_document(&ls)
}

/// Toggle the checkbox of the item with the given ID.
pub fn set_checked(body: &str, item_id: &str, checked: bool) -> (r: Result<String, ItemError>)
    ensures
        text_result(r) == checked_body(body@, item_id@, checked),
{
    let ls = text::lines(body);
    match find_target(&ls, item_id) {
        Some(i) => {
            let line = if checked {
                text::replace_first(&ls[i], "- [ ]", "- [x]")
            } else if text::contains(&ls[i], "- [x]") {
                text::replace_first(&ls[i], "- [x]", "- [ ]")
            } else {
                text::replace_first(&ls[i], "- [X]", "- [ ]")
            };
            Ok(set_line(ls, i, line))
        },
        None => Err(ItemError::NotFound(String::from_str(item_id))),
    }
}

/// The white space before the checkbox of a line.
pub open spec fn indent(line: Seq<char>) -> Seq<char> {
    line.take(line.len() - text::trimmed_start(line).len())
}

/// The line of a failed item: a checked box, the sentinel, and the text struck
/// through, with the failure mark.
pub open spec fn failed_line(ind: Seq<char>, id: Seq<char>, clean: Seq<char>) -> Seq<char> {
    let head = ind + "- [x] "@ + marker(id) + " "@ + FAILED_SENTINEL@ + " "@;
    if clean.len() == 0 {
        head + FAIL_MARK@
    } else {
        head + "~~"@ + clean + "~~ "@ + FAIL_MARK@
    }
}

/// The line of an item that is not failed.
pub open spec fn plain_line(
    ind: Seq<char>,
    checked: bool,
    id: Seq<char>,
    clean: Seq<char>,
) -> Seq<char> {
    let head = ind + (if checked {
        "- [x] "@
    } else {
        "- [ ] "@
    }) + marker(id);
    if clean.len() == 0 {
        head
    } else {
        head + " "@ + clean
    }
}

/// What the line of an item with a marker says: whether it is failed, and its
/// clean text.
pub open spec fn line_state(line: Seq<char>) -> (bool, Seq<char>) {
    decoded(behind_marker(behind_box(line)))
}

/// The white space before the checkbox of a line.
fn line_indent(line: &str) -> (r: String)
    ensures
        r@ == indent(line@),
{
    proof {
        text::lemma_trimmed_start(line@);
    }
    let n: usize = line.unicode_len() - text::trim_start(line).as_str().unicode_len();
    String::from_str(line.substring_char(0, n))
}

/// The line of a failed item.
fn write_failed(ind: &str, id: &str, clean: &str) -> (r: String)
    ensures
        r@ == failed_line(ind@, id@, clean@),
{
    let mut out = String::from_str(ind);
    out.append("- [x] ");
    out.append(&id_marker(id));
    out.append(" ");
    out.append(FAILED_SENTINEL);
    out.append(" ");
    if !clean.is_empty() {
        out.append("~~");
        out.append(clean);
        out.append("~~ ");
    }
    out.append(FAIL_MARK);
    out
}

/// The line of an item that is not failed.
fn write_plain(ind: &str, checked: bool, id: &str, clean: &str) -> (r: String)
    ensures
        r@ == plain_line(ind@, checked, id@, clean@),
{
    let mut out = String::from_str(ind);
    if checked {
        out.append("- [x] ");
    } else {
        out.append("- [ ] ");
    }
    out.append(&id_marker(id));
    if !clean.is_empty() {
        out.append(" ");
        out.append(clean);
    }
    out
}

/// What the line of an item with a marker says.
fn read_state(line: &str) -> (r: (bool, bool, String))
    requires
        is_item(line@),
    ensures
        r.0 == checkbox(line@).unwrap().0,
        (r.1, r.2@) == line_state(line@),
{
    match checkbox_prefix(line) {
        Some((checked, after)) => {
            let rest = line.substring_char(after, line.unicode_len());
            let (failed, clean) = decode_failed(&text_behind_marker(rest));
            (checked, failed, clean)
        },
        None => {
            assert(false);
            (false, false, String::new())
        },
    }
}

/// The line of an item with new text: a failed item keeps its decorations, any
/// other keeps its box.
pub open spec fn reworded(line: Seq<char>, id: Seq<char>, t: Seq<char>) -> Seq<char> {
    if line_state(line).0 {
        failed_line(indent(line), id, t)
    } else {
        plain_line(indent(line), checkbox(line).unwrap().0, id, t)
    }
}

/// The result of rewording an item.
pub open spec fn edited_body(
    body: Seq<char>,
    id: Seq<char>,
    new_text: Seq<char>,
) -> Result<Seq<char>, ItemErrorV> {
    let t = text::trimmed(new_text);
    if t.len() == 0 {
        Err(ItemErrorV::EmptyText)
    } else {
        with_target(body, id, |line: Seq<char>| reworded(line, id, t))
    }
}

/// Replace the text of a checklist item, preserving its checkbox state and id
/// marker. A failed item keeps its `~~strikethrough~~ ❌` decorations around the
/// new text so the failure stays visible. Empty replacement text is rejected.
pub fn edit_item(body: &str, item_id: &str, new_text: &str) -> (r: Result<String, ItemError>)
    ensures
        text_result(r) == edited_body(body@, item_id@, new_text@),
{
    let new_text = text::trim(new_text);
    if new_text.as_str().is_empty() {
        return Err(ItemError::EmptyText);
    }
    let ls = text::lines(body);
    match find_target(&ls, item_id) {
        Some(i) => {
            let ind = line_indent(&ls[i]);
            let (checked, failed, _) = read_state(&ls[i]);
            let line = if failed {
                write_failed(&ind, item_id, &new_text)
            } else {
                write_plain(&ind, checked, item_id, &new_text)
            };
            Ok(set_line(ls, i, line))
        },
        None => Err(ItemError::NotFound(String::from_str(item_id))),
    }
}

/// The result of deleting an item.
pub open spec fn deleted_body(body: Seq<char>, id: Seq<char>) -> Result<Seq<char>, ItemErrorV> {
    let ls = text::lines_of(body);
    match target(ls, id) {
        Some(i) => Ok(document(ls.remove(i))),
        None => Err(ItemErrorV::NotFound(id)),
    }
}

/// Remove a checklist item's line by id. Errors if no item carries that id.
pub fn delete_item(body: &str, item_id: &str) -> (r: Result<String, ItemError>)
    ensures
        text_result(r) == deleted_body(body@, item_id@),
{
    let mut ls = text::lines(body);
    match find_target(&ls, item_id) {
        Some(i) => {
            let ghost before = ls@;
            let _ = ls.remove(i);
            proof {
                assert(text::views(ls@) =~= text::views(before).remove(i as int));
            }
            Ok(join_document(&ls))
        },
        None => Err(ItemError::NotFound(String::from_str(item_id))),
    }
}

/// The line of an item, marked as failed.
pub open spec fn failed_in_place(line: Seq<char>, id: Seq<char>) -> Seq<char> {
    failed_line(indent(line), id, line_state(line).1)
}

/// The result of failing an item.
pub open spec fn failed_body(body: Seq<char>, id: Seq<char>) -> Result<Seq<char>, ItemErrorV> {
    with_target(body, id, |line: Seq<char>| failed_in_place(line, id))
}

/// Mark an item resolved-failed: a checked box (it is terminal — no longer open
/// work), the failed sentinel, and the text as `~~strikethrough~~ ❌` so the
/// failure is visible wherever the Tasks block renders (including the projected
/// GitHub issue). Idempotent.
pub fn set_failed(body: &str, item_id: &str) -> (r: Result<String, ItemError>)
    ensures
        text_result(r) == failed_body(body@, item_id@),
{
    let ls = text::lines(body);
    match find_target(&ls, item_id) {
        Some(i) => {
            let ind = line_indent(&ls[i]);
            let (_, _, clean) = read_state(&ls[i]);
            let line = write_failed(&ind, item_id, &clean);
            Ok(set_line(ls, i, line))
        },
        None => Err(ItemError::NotFound(String::from_str(item_id))),
    }
}

/// The result of reopening a failed item.
pub open spec fn reopened(body: Seq<char>, id: Seq<char>) -> Result<Seq<char>, ItemErrorV> {
    let ls = text::lines_of(body);
    match target(ls, id) {
        Some(i) => if line_state(ls[i]).0 {
            Ok(
                document(
                    ls.update(i, plain_line(indent(ls[i]), false, id, line_state(ls[i]).1)),
                ),
            )
        } else {
            Err(ItemErrorV::NotFailed(id))
        },
        None => Err(ItemErrorV::NotFound(id)),
    }
}

/// Reopen a failed item: restore `- [ ]` and strip the failed decorations.
/// Errors if the item is not currently failed, so it can never silently uncheck
/// a genuinely-done item.
pub fn clear_failed(body: &str, item_id: &str) -> (r: Result<String, ItemError>)
    ensures
        text_result(r) == reopened(body@, item_id@),
{
    let ls = text::lines(body);
    match find_target(&ls, item_id) {
        Some(i) => {
            let ind = line_indent(&ls[i]);
            let (_, failed, clean) = read_state(&ls[i]);
            if !failed {
                return Err(ItemError::NotFailed(String::from_str(item_id)));
            }
            let line = write_plain(&ind, false, item_id, &clean);
            Ok(set_line(ls, i, line))
        },
        None => Err(ItemError::NotFound(String::from_str(item_id))),
    }
}

impl ItemError {
    /// The message shown to the user.
    pub open spec fn text(self) -> Seq<char> {
        match self {
            ItemError::EmptyText => "item text is empty"@,
            ItemError::NotFound(id) => "item '"@ + id@ + "' not found"@,
            ItemError::NotFailed(id) => "item '"@ + id@ + "' is not failed (nothing to reopen)"@,
        }
    }

    /// The message shown to the user.
    pub fn message(&self) -> (r: String)
        ensures
            r@ == self.text(),
    {
        match self {
            ItemError::EmptyText => String::from_str("item text is empty"),
            ItemError::NotFound(id) => {
                let mut m = String::from_str("item '");
                m.append(id);
                m.append("' not found");
                m
            },
            ItemError::NotFailed(id) => {
                let mut m = String::from_str("item '");
                m.append(id);
                m.append("' is not failed (nothing to reopen)");
                m
            },
        }
    }
}

} // verus!
