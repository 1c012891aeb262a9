//! Markdown on the screen, and the log entries of an item.
use crate::task;
use crate::task::sections;
use crate::text;
use crate::ui::style::{self, Color, Line, LineV, Style};
use crate::util;
use vstd::prelude::*;
use vstd::string::*;

verus! {

// ---------------------------------------------------------------------------
// Markdown
// ---------------------------------------------------------------------------

/// A line that opens or closes a code block.
pub open spec fn is_fence(line: Seq<char>) -> bool {
    text::begins(text::trimmed_start(line), "```"@)
}

/// Whether a code block is open behind the lines.
pub open spec fn in_code(ls: Seq<Seq<char>>) -> bool
    decreases ls.len(),
{
    if ls.len() == 0 {
        false
    } else if is_fence(ls.last()) {
        !in_code(ls.drop_last())
    } else {
        in_code(ls.drop_last())
    }
}

/// The look of a line of Markdown that is not in a code block.
pub open spec fn prose_style(line: Seq<char>) -> Style {
    let t = text::trimmed_start(line);
    if text::begins(line, "## "@) {
        Style { fg: Some(Color::Cyan), bold: true, struck: false }
    } else if text::has(line, task::FAILED_SENTINEL@) {
        Style { fg: Some(Color::Red), bold: false, struck: true }
    } else if text::begins(t, "- [x]"@) || text::begins(t, "- [X]"@) {
        Style::in_color(Color::Rgb(0, 128, 0))
    } else if text::begins(t, "- [ ]"@) {
        Style::in_color(Color::Yellow)
    } else {
        Style::is_plain()
    }
}

/// The look of a line of Markdown, in a code block or not.
pub open spec fn line_style(line: Seq<char>, code: bool) -> Style {
    if is_fence(line) {
        Style::in_color(Color::DarkGray)
    } else if code {
        Style::in_color(Color::Gray)
    } else {
        prose_style(line)
    }
}

/// Lines of Markdown with their looks.
pub open spec fn rendered(ls: Seq<Seq<char>>) -> Seq<LineV>
    decreases ls.len(),
{
    if ls.len() == 0 {
        seq![]
    } else {
        rendered(ls.drop_last()).push(
            style::whole_line(ls.last(), line_style(ls.last(), in_code(ls.drop_last()))),
        )
    }
}

/// The look of a line of Markdown that is not in a code block.
fn style_prose(line: &str) -> (r: Style)
    ensures
        r == prose_style(line@),
{
    let t = text::trim_start(line);
    if text::starts_with(line, "## ") {
        Style { fg: Some(Color::Cyan), bold: true, struck: false }
    } else if text::contains(line, task::FAILED_SENTINEL) {
        // resolved-failed item: red + struck through (it carries a checked
        // box, so this branch must precede the `- [x]` one below)
        Style { fg: Some(Color::Red), bold: false, struck: true }
    } else if text::starts_with(&t, "- [x]") || text::starts_with(&t, "- [X]") {
        // completed item: a deep, theme-independent green so it stands clearly
        // apart from the yellow open-item color (ANSI green reads olive on some themes)
        Style::color(Color::Rgb(0, 128, 0))
    } else if text::starts_with(&t, "- [ ]") {
        Style::color(Color::Yellow)
    } else {
        Style::plain()
    }
}

/// Minimal line-based markdown styling (no in-TUI editing by design).
pub fn render_markdown(body: &str) -> (r: Vec<Line>)
    ensures
        text::views(r@) == rendered(text::lines_of(body@)),
{
    let ls = text::lines(body);
    let ghost all = text::views(ls@);
    let mut out = style::no_lines();
    let mut code = false;
    let mut i: usize = 0;
    proof {
        assert(all.take(0) =~= Seq::<Seq<char>>::empty());
    }
    while i < ls.len()
        invariant
            i <= ls.len(),
            all == text::views(ls@),
            code == in_code(all.take(i as int)),
            text::views(out@) == rendered(all.take(i as int)),
        decreases ls.len() - i,
    {
        let line = &ls[i];
        let fence = text::starts_with(&text::trim_start(line), "```");
        let look = if fence {
            Style::color(Color::DarkGray)
        } else if code {
            Style::color(Color::Gray)
        } else {
            style_prose(line)
        };
        style::push_styled(&mut out, style::full_line(line.clone(), look));
        if fence {
            code = !code;
        }
        proof {
            let up = all.take(i + 1);
            assert(up.drop_last() =~= all.take(i as int));
            assert(up.last() == ls@[i as int]@);
        }
        i += 1;
    }
    proof {
        assert(all.take(all.len() as int) =~= all);
    }
    out
}

// ---------------------------------------------------------------------------
// The log entries of an item
// ---------------------------------------------------------------------------

/// What `str::to_lowercase` gives for a text.
pub uninterp spec fn lowercase_of(s: Seq<char>) -> Seq<char>;

/// What `char::is_alphanumeric` says of a character.
pub uninterp spec fn is_alphanumeric(c: char) -> bool;

/// `str::to_lowercase`: the lowercase form of a text by the Unicode tables of the
/// standard library, a function of the text alone.
#[verifier::external_body]
fn to_lowercase(s: &str) -> (r: String)
    ensures
        r@ == lowercase_of(s@),
{
    s.to_lowercase()
}

/// `char::is_alphanumeric`: whether the Unicode tables of the standard library have a
/// character as a letter or a number, a function of the character alone.
#[verifier::external_body]
fn alphanumeric(c: char) -> (r: bool)
    ensures
        r == is_alphanumeric(c),
{
    c.is_alphanumeric()
}

/// What stands at `k` in a text is not part of a longer word.
pub open spec fn is_whole(s: Seq<char>, p: Seq<char>, k: int) -> bool {
    &&& k == 0 || !util::is_alnum(s[k - 1])
    &&& k + p.len() >= s.len() || !is_alphanumeric(s[k + p.len()])
}

/// A token stands in a text at or behind `i`, read from left to right.
pub open spec fn mentions_from(s: Seq<char>, p: Seq<char>, i: int) -> bool
    decreases s.len() - i,
{
    match text::position_from(s, p, i) {
        Some(k) => if is_whole(s, p, k) {
            true
        } else if p.len() > 0 && i <= k && k + p.len() <= s.len() {
            mentions_from(s, p, k + p.len())
        } else {
            false
        },
        None => false,
    }
}

/// How a log entry names an item.
pub open spec fn item_token(id: Seq<char>) -> Seq<char> {
    "task"@ + lowercase_of(id)
}

/// A log entry names an item.
pub open spec fn mentions(line: Seq<char>, id: Seq<char>) -> bool {
    id.len() > 0 && mentions_from(lowercase_of(line), item_token(id), 0)
}

/// The lines that name an item.
pub open spec fn mentioning(ls: Seq<Seq<char>>, id: Seq<char>) -> Seq<Seq<char>>
    decreases ls.len(),
{
    if ls.len() == 0 {
        seq![]
    } else if mentions(ls.last(), id) {
        mentioning(ls.drop_last(), id).push(ls.last())
    } else {
        mentioning(ls.drop_last(), id)
    }
}

/// The log entries of an item.
pub open spec fn log_of_item(body: Seq<char>, id: Seq<char>) -> Seq<Seq<char>> {
    match sections::content_of(body, task::AGENT_LOG_HEADING@) {
        Some(log) => mentioning(text::lines_of(log), id),
        None => seq![],
    }
}

/// Whether what stands at `k` in a text is not part of a longer word.
fn whole(s: &Vec<char>, len: usize, k: usize) -> (r: bool)
    requires
        k + len <= s.len(),
    ensures
        forall|p: Seq<char>| p.len() == len ==> r == #[trigger] is_whole(s@, p, k as int),
{
    (k == 0 || !util::is_ascii_alnum(s[k - 1])) && (k + len == s.len() || !alphanumeric(s[k + len]))
}

/// Whether a token stands in a text as a word of its own.
pub fn mentions_token(lower: &str, needle: &str) -> (r: bool)
    requires
        needle@.len() > 0,
    ensures
        r == mentions_from(lower@, needle@, 0),
{
    let s = text::chars_of(lower);
    let p = text::chars_of(needle);
    let mut from: usize = 0;
    loop
        invariant
            from <= s.len(),
            s@ == lower@,
            p@ == needle@,
            p.len() > 0,
            mentions_from(lower@, needle@, 0) == mentions_from(s@, p@, from as int),
        decreases s.len() - from,
    {
        match text::find_in(&s, &p, from) {
            Some(k) => {
                if whole(&s, p.len(), k) {
                    assert(is_whole(s@, p@, k as int));
                    return true;
                }
                assert(!is_whole(s@, p@, k as int));
                from = k + p.len();
            },
            None => {
                return false;
            },
        }
    }
}

/// Whether `line` mentions `Task<id>` as a standalone token (a letter or digit on
/// either side rules it out, so item `1` and item `10` never cross-match).
pub fn log_mentions_item(line: &str, id: &str) -> (r: bool)
    ensures
        r == mentions(line@, id@),
{
    if id.is_empty() {
        return false;
    }
    let lower = to_lowercase(line);
    let mut needle = String::from_str("task");
    needle.append(&to_lowercase(id));
    proof {
        reveal_strlit("task");
    }
    mentions_token(&lower, &needle)
}

/// Agent-Log lines that reference the given item id by the `Task<id>` convention
/// the run skill follows (`- <ts> Task7: …`). Case-insensitive; the id must be a
/// whole token so `Task1` never picks up a `Task10` entry.
pub fn item_log_lines(body: &str, item_id: &str) -> (r: Vec<String>)
    ensures
        text::views(r@) == log_of_item(body@, item_id@),
{
    let mut out: Vec<String> = Vec::new();
    assert(text::views(out@) =~= Seq::<Seq<char>>::empty());
    let ls = match task::log_section(body) {
        Some(log) => text::lines(&log),
        None => {
            return out;
        },
    };
    let ghost all = text::views(ls@);
    let mut i: usize = 0;
    proof {
        assert(all.take(0) =~= Seq::<Seq<char>>::empty());
    }
    while i < ls.len()
        invariant
            i <= ls.len(),
            all == text::views(ls@),
            text::views(out@) == mentioning(all.take(i as int), item_id@),
        decreases ls.len() - i,
    {
        let ghost before = text::views(out@);
        if log_mentions_item(&ls[i], item_id) {
            out.push(ls[i].clone());
            assert(text::views(out@) =~= before.push(ls@[i as int]@));
        }
        proof {
            let up = all.take(i + 1);
            assert(up.drop_last() =~= all.take(i as int));
            assert(up.last() == ls@[i as int]@);
        }
        i += 1;
    }
    proof {
        assert(all.take(all.len() as int) =~= all);
    }
    out
}

// ---------------------------------------------------------------------------
// Laws
// ---------------------------------------------------------------------------

/// A log entry that is shown for an item names it as a word of its own: neither a
/// letter nor a digit touches the name, so item `1` never shows an entry of item `10`.
pub proof fn law_mentions_are_whole_words(line: Seq<char>, id: Seq<char>)
    requires
        mentions(line, id),
    ensures
        exists|k: int|
            #![trigger text::occurs_at(lowercase_of(line), item_token(id), k)]
            text::occurs_at(lowercase_of(line), item_token(id), k) && is_whole(
                lowercase_of(line),
                item_token(id),
                k,
            ),
{
    lemma_mention_at(lowercase_of(line), item_token(id), 0);
}

/// A mention stands somewhere as a word of its own.
proof fn lemma_mention_at(s: Seq<char>, p: Seq<char>, i: int)
    requires
        0 <= i,
        mentions_from(s, p, i),
    ensures
        exists|k: int| #![trigger text::occurs_at(s, p, k)] text::occurs_at(s, p, k) && is_whole(s, p, k),
    decreases s.len() - i,
{
    let k = text::position_from(s, p, i)->0;
    text::lemma_position_from(s, p, i);
    if !is_whole(s, p, k) {
        lemma_mention_at(s, p, k + p.len());
    } else {
        assert(text::occurs_at(s, p, k));
    }
}

/// Every line of a text has its line on the screen, with the same words.
pub proof fn law_markdown_keeps_every_line(ls: Seq<Seq<char>>)
    ensures
        rendered(ls).len() == ls.len(),
        forall|i: int|
            0 <= i < ls.len() ==> (#[trigger] rendered(ls)[i]).spans == seq![style::raw(ls[i])],
    decreases ls.len(),
{
    if ls.len() > 0 {
        law_markdown_keeps_every_line(ls.drop_last());
    }
}

} // verus!
