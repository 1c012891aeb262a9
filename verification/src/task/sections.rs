//! The `## ` sections of a document body, and the Agent Log among them.
use crate::task::items::{self, join_document, ItemError, ItemErrorV};
use crate::text;
use vstd::prelude::*;
use vstd::string::*;

verus! {

/// The heading of the section that holds the agents' entries.
pub const AGENT_LOG_HEADING: &'static str = "## Agent Log";

/// The first line at or after `i` that is the heading, apart from white space.
pub open spec fn heading_from(ls: Seq<Seq<char>>, heading: Seq<char>, i: int) -> Option<int>
    decreases ls.len() - i,
{
    if i < 0 || i >= ls.len() {
        None
    } else if text::trimmed(ls[i]) == heading {
        Some(i)
    } else {
        heading_from(ls, heading, i + 1)
    }
}

/// The first line at or after `i` that starts a section, or the end.
pub open spec fn next_section(ls: Seq<Seq<char>>, i: int) -> int
    decreases ls.len() - i,
{
    if i < 0 || i >= ls.len() {
        ls.len() as int
    } else if text::begins(ls[i], "## "@) {
        i
    } else {
        next_section(ls, i + 1)
    }
}

/// Line range `[start, end)` of a section, its heading included.
pub open spec fn section(ls: Seq<Seq<char>>, heading: Seq<char>) -> Option<(int, int)> {
    match heading_from(ls, heading, 0) {
        Some(start) => Some((start, next_section(ls, start + 1))),
        None => None,
    }
}

/// A section starts with its heading, and ends behind it.
pub proof fn lemma_section(ls: Seq<Seq<char>>, heading: Seq<char>)
    ensures
        match section(ls, heading) {
            Some((start, end)) => 0 <= start < end <= ls.len() && text::trimmed(ls[start])
                == heading,
            None => forall|i: int| 0 <= i < ls.len() ==> text::trimmed(#[trigger] ls[i]) != heading,
        },
{
    lemma_heading_from(ls, heading, 0);
    if let Some(start) = heading_from(ls, heading, 0) {
        lemma_next_section(ls, start + 1);
    }
}

/// The heading found is the first.
pub proof fn lemma_heading_from(ls: Seq<Seq<char>>, heading: Seq<char>, i: int)
    requires
        0 <= i,
    ensures
        match heading_from(ls, heading, i) {
            Some(s) => i <= s < ls.len() && text::trimmed(ls[s]) == heading && forall|k: int|
                i <= k < s ==> text::trimmed(#[trigger] ls[k]) != heading,
            None => forall|k: int| i <= k < ls.len() ==> text::trimmed(#[trigger] ls[k]) != heading,
        },
    decreases ls.len() - i,
{
    if i < ls.len() && text::trimmed(ls[i]) != heading {
        lemma_heading_from(ls, heading, i + 1);
    }
}

/// The next section is the first that starts there or later.
pub proof fn lemma_next_section(ls: Seq<Seq<char>>, i: int)
    requires
        0 <= i <= ls.len(),
    ensures
        i <= next_section(ls, i) <= ls.len(),
        next_section(ls, i) < ls.len() ==> text::begins(ls[next_section(ls, i)], "## "@),
        forall|k: int| i <= k < next_section(ls, i) ==> !text::begins(#[trigger] ls[k], "## "@),
    decreases ls.len() - i,
{
    if i < ls.len() && !text::begins(ls[i], "## "@) {
        lemma_next_section(ls, i + 1);
    }
}

/// Line range `[start, end)` of a `## ` section including its heading.
fn section_range(ls: &Vec<String>, heading: &str) -> (r: Option<(usize, usize)>)
    ensures
        match r {
            Some((s, e)) => section(text::views(ls@), heading@) == Some((s as int, e as int)) && s
                < e <= ls.len(),
            None => section(text::views(ls@), heading@) is None,
        },
{
    let ghost all = text::views(ls@);
    let mut start: usize = 0;
    while start < ls.len()
        invariant
            0 <= start <= ls.len(),
            all == text::views(ls@),
            heading_from(all, heading@, 0) == heading_from(all, heading@, start as int),
        decreases ls.len() - start,
    {
        if text::same(&text::trim(&ls[start]), heading) {
            let mut end: usize = start + 1;
            while end < ls.len()
                invariant
                    start < end <= ls.len(),
                    all == text::views(ls@),
                    heading_from(all, heading@, 0) == Some(start as int),
                    next_section(all, start + 1) == next_section(all, end as int),
                decreases ls.len() - end,
            {
                if text::starts_with(&ls[end], "## ") {
                    return Some((start, end));
                }
                end += 1;
            }
            return Some((start, end));
        }
        start += 1;
    }
    None
}

/// The end of the lines before `end` without trailing blank ones.
pub open spec fn blank_end(ls: Seq<Seq<char>>, end: int) -> int
    decreases end,
{
    if 0 < end <= ls.len() && text::trimmed(ls[end - 1]).len() == 0 {
        blank_end(ls, end - 1)
    } else {
        end
    }
}

/// The line of a new, open item.
pub open spec fn open_item(t: Seq<char>) -> Seq<char> {
    "- [ ] "@ + t
}

/// The body with a new item at the end of its Tasks section; where there is no
/// such section, one at the end of the document.
pub open spec fn with_item(body: Seq<char>, t: Seq<char>) -> Seq<char> {
    let ls = text::lines_of(body);
    match section(ls, "## Tasks"@) {
        Some((_, end)) => items::document(ls.insert(blank_end(ls, end), open_item(t))),
        None => text::trimmed_end(body) + "\n\n## Tasks\n\n"@ + open_item(t) + "\n"@,
    }
}

/// Append a new unchecked checklist item to the `## Tasks` section (created at
/// the end of the document if absent), landing at the bottom of the existing
/// list. The item carries no id here; the next `ensure_item_ids` heal pass
/// assigns one, exactly as for an item typed by hand in `$EDITOR`.
pub fn append_item(body: &str, text: &str) -> (r: Result<String, ItemError>)
    ensures
        items::text_result(r) == if text::trimmed(text@).len() == 0 {
            Err(ItemErrorV::EmptyText)
        } else {
            Ok(with_item(body@, text::trimmed(text@)))
        },
{
    let text = text::trim(text);
    if text.as_str().is_empty() {
        return Err(ItemError::EmptyText);
    }
    let mut line = String::from_str("- [ ] ");
    line.append(&text);
    let mut ls = text::lines(body);
    match section_range(&ls, "## Tasks") {
        None => {
            let mut out = text::trim_end(body);
            out.append("\n\n## Tasks\n\n");
            out.append(&line);
            out.append("\n");
            Ok(out)
        },
        Some((_, end)) => {
            let ghost all = text::views(ls@);
            let mut at: usize = end;
            while at > 0 && text::trim(&ls[at - 1]).as_str().is_empty()
                invariant
                    0 <= at <= end <= ls.len(),
                    all == text::views(ls@),
                    blank_end(all, end as int) == blank_end(all, at as int),
                decreases at,
            {
                at -= 1;
            }
            ls.insert(at, line);
            proof {
                assert(text::views(ls@) =~= all.insert(at as int, line@));
            }
            Ok(join_document(&ls))
        },
    }
}

/// The body with an entry at the end of its Agent Log; where there is none, one
/// at the end of the document.
pub open spec fn with_log(body: Seq<char>, entry: Seq<char>) -> Seq<char> {
    let ls = text::lines_of(body);
    match section(ls, AGENT_LOG_HEADING@) {
        Some((_, end)) => items::document(ls.insert(end, "- "@ + entry)),
        None => text::trimmed_end(body) + "\n\n"@ + AGENT_LOG_HEADING@
            + "\n\n<!-- append-only -->\n"@ + ("- "@ + entry) + "\n"@,
    }
}

/// Append an entry to the Agent Log.
pub fn append_log(body: &str, entry: &str) -> (r: String)
    ensures
        r@ == with_log(body@, entry@),
{
    let mut line = String::from_str("- ");
    line.append(entry);
    let mut ls = text::lines(body);
    match section_range(&ls, AGENT_LOG_HEADING) {
        Some((_, end)) => {
            let ghost all = text::views(ls@);
            ls.insert(end, line);
            proof {
                assert(text::views(ls@) =~= all.insert(end as int, line@));
            }
            join_document(&ls)
        },
        None => {
            let mut out = text::trim_end(body);
            out.append("\n\n");
            out.append(AGENT_LOG_HEADING);
            out.append("\n\n<!-- append-only -->\n");
            out.append(&line);
            out.append("\n");
            out
        },
    }
}

/// The body without its Agent Log.
pub open spec fn shareable(body: Seq<char>) -> Seq<char> {
    let ls = text::lines_of(body);
    match section(ls, AGENT_LOG_HEADING@) {
        Some((start, end)) => text::trimmed(
            text::joined(ls.take(start) + ls.skip(end), "\n"@),
        ),
        None => text::trimmed(body),
    }
}

/// Body without the Agent Log section (the shareable part).
pub fn body_without_log(body: &str) -> (r: String)
    ensures
        r@ == shareable(body@),
{
    let ls = text::lines(body);
    match section_range(&ls, AGENT_LOG_HEADING) {
        Some((start, end)) => {
            let ghost all = text::views(ls@);
            let mut kept: Vec<String> = Vec::new();
            text::push_range(&mut kept, &ls, 0, start);
            text::push_range(&mut kept, &ls, end, ls.len());
            proof {
                assert(text::views(kept@) =~= all.take(start as int) + all.skip(end as int));
            }
            text::trim(&text::join(&kept, "\n"))
        },
        None => text::trim(body),
    }
}

/// The content of a section: the lines behind its heading.
pub open spec fn content_of(body: Seq<char>, heading: Seq<char>) -> Option<Seq<char>> {
    let ls = text::lines_of(body);
    match section(ls, heading) {
        Some((start, end)) => Some(
            text::trimmed(text::joined(ls.subrange(start + 1, end), "\n"@)),
        ),
        None => None,
    }
}

/// The trimmed content of a `## ` section (the lines after its heading, up to the
/// next `## `). `None` when the heading is absent. Used by `rein summary` to pull
/// the Goal text out of the document.
pub fn section_content(body: &str, heading: &str) -> (r: Option<String>)
    ensures
        text::opt_view(r) == content_of(body@, heading@),
{
    let ls = text::lines(body);
    match section_range(&ls, heading) {
        Some((start, end)) => Some(text::trim(&text::join_range(&ls, start + 1, end, "\n"))),
        None => None,
    }
}

/// The Agent Log section content (lines after heading), if present.
pub fn log_section(body: &str) -> (r: Option<String>)
    ensures
        text::opt_view(r) == content_of(body@, AGENT_LOG_HEADING@),
{
    section_content(body, AGENT_LOG_HEADING)
}

/// The body with new content in a section: its heading and everything outside it
/// stay; where there is no such section, one at the end of the document.
pub open spec fn with_content(
    body: Seq<char>,
    heading: Seq<char>,
    content: Seq<char>,
) -> Seq<char> {
    let ls = text::lines_of(body);
    match section(ls, heading) {
        Some((start, end)) => {
            let head = ls.take(start + 1) + seq![seq![], content];
            if end < ls.len() {
                items::document(head + seq![seq![]] + ls.skip(end))
            } else {
                items::document(head)
            }
        },
        None => text::trimmed_end(body) + "\n\n"@ + heading + "\n\n"@ + content + "\n"@,
    }
}

/// Replace the content of a `## ` section wholesale; the heading and the rest of
/// the document are preserved.
pub fn set_section_content(body: &str, heading: &str, content: &str) -> (r: String)
    ensures
        r@ == with_content(body@, heading@, content@),
{
    let ls = text::lines(body);
    match section_range(&ls, heading) {
        Some((start, end)) => {
            let ghost all = text::views(ls@);
            let mut out: Vec<String> = Vec::new();
            text::push_range(&mut out, &ls, 0, start + 1);
            let ghost first = text::views(out@);
            out.push(String::new());
            out.push(String::from_str(content));
            proof {
                assert(first =~= all.take(start as int + 1));
                assert(text::views(out@) =~= first + seq![seq![], content@]);
            }
            if end < ls.len() {
                let ghost head = text::views(out@);
                out.push(String::new());
                proof {
                    assert(text::views(out@) =~= head + seq![seq![]]);
                }
                text::push_range(&mut out, &ls, end, ls.len());
                proof {
                    assert(text::views(out@) =~= head + seq![seq![]] + all.skip(end as int));
                }
            }
            join_document(&out)
        },
        None => {
            let mut out = text::trim_end(body);
            out.append("\n\n");
            out.append(heading);
            out.append("\n\n");
            out.append(content);
            out.append("\n");
            out
        },
    }
}

/// The body made of a pulled text and the Agent Log of the local body.
pub open spec fn merged_body(inner: Seq<char>, local: Seq<char>) -> Seq<char> {
    let ls = text::lines_of(local);
    match section(ls, AGENT_LOG_HEADING@) {
        Some((start, end)) => text::trimmed(inner) + "\n\n"@ + text::trimmed_end(
            text::joined(ls.subrange(start, end), "\n"@),
        ) + "\n"@,
        None => text::trimmed(inner) + "\n"@,
    }
}

/// Rebuild a local body from a pulled managed inner, keeping the local Agent Log.
pub fn body_from_remote(inner: &str, local_body: &str) -> (r: String)
    ensures
        r@ == merged_body(inner@, local_body@),
{
    let ls = text::lines(local_body);
    let mut out = text::trim(inner);
    match section_range(&ls, AGENT_LOG_HEADING) {
        Some((start, end)) => {
            out.append("\n\n");
            out.append(&text::trim_end(&text::join_range(&ls, start, end, "\n")));
        },
        None => {},
    }
    out.append("\n");
    out
}

} // verus!
