//! Managed blocks: the part of an issue or pull-request body that belongs to a
//! task, between its begin and its end marker.
use crate::task::doc::{TaskDoc, TaskDocV};
use crate::task::sections::{self, body_without_log, log_section, AGENT_LOG_HEADING};
use crate::text;
use vstd::prelude::*;
use vstd::string::*;

verus! {

/// The block of a task around a text.
pub open spec fn wrapped(id: Seq<char>, inner: Seq<char>) -> Seq<char> {
    "<!-- rein:begin "@ + id + " -->\n\n"@ + text::trimmed(inner) + "\n\n<!-- rein:end -->"@
}

/// The managed block of a task, around its trimmed content.
pub fn wrap_managed(id: &str, inner: &str) -> (r: String)
    ensures
        r@ == wrapped(id@, inner@),
{
    let mut out = String::from_str("<!-- rein:begin ");
    out.append(id);
    out.append(" -->\n\n");
    out.append(&text::trim(inner));
    out.append("\n\n<!-- rein:end -->");
    out
}

/// The block that a task shows in its issue.
pub open spec fn issue_block(doc: TaskDocV) -> Seq<char> {
    wrapped(doc.front.id, sections::shareable(doc.body))
}

/// Issue projection: full body minus frontmatter minus Agent Log, marker-wrapped.
pub fn issue_projection(doc: &TaskDoc) -> (r: String)
    ensures
        r@ == issue_block(doc@),
{
    wrap_managed(&doc.front.id, &body_without_log(&doc.body))
}

/// The Agent Log as it is folded into a pull request; empty where there is
/// nothing to show.
pub open spec fn folded_log(body: Seq<char>) -> Seq<char> {
    match sections::content_of(body, AGENT_LOG_HEADING@) {
        Some(log) => {
            if text::trimmed(log).len() == 0 || text::trimmed(log) == "<!-- append-only -->"@ {
                seq![]
            } else {
                "\n\n<details>\n<summary>Agent Log</summary>\n\n"@ + text::trimmed(
                    text::replaced(text::trimmed(log), "<!-- append-only -->"@, ""@),
                ) + "\n\n</details>"@
            }
        },
        None => seq![],
    }
}

/// The block that a task shows in its pull request.
pub open spec fn pr_block(doc: TaskDocV) -> Seq<char> {
    wrapped(doc.front.id, sections::shareable(doc.body) + folded_log(doc.body))
}

/// PR projection: shareable body + Agent Log folded into `<details>`.
pub fn pr_projection(doc: &TaskDoc) -> (r: String)
    ensures
        r@ == pr_block(doc@),
{
    let mut inner = body_without_log(&doc.body);
    let ghost share = inner@;
    match log_section(&doc.body) {
        Some(log) => {
            let log = text::trim(&log);
            if !log.as_str().is_empty() && !text::same(&log, "<!-- append-only -->") {
                proof {
                    reveal_strlit("<!-- append-only -->");
                }
                let cleaned = text::replace(&log, "<!-- append-only -->", "");
                inner.append("\n\n<details>\n<summary>Agent Log</summary>\n\n");
                inner.append(&text::trim(&cleaned));
                inner.append("\n\n</details>");
                proof {
                    assert(inner@ =~= share + folded_log(doc.body@));
                }
            }
        },
        None => {},
    }
    proof {
        assert(share + seq![] =~= share);
    }
    wrap_managed(&doc.front.id, &inner)
}

/// The line opens a managed block.
pub open spec fn is_begin(line: Seq<char>) -> bool {
    text::begins(text::trimmed(line), "<!-- rein:begin"@)
}

/// The line closes a managed block.
pub open spec fn is_end(line: Seq<char>) -> bool {
    text::trimmed(line) == "<!-- rein:end -->"@
}

/// The first line at or after `i` that opens a managed block.
pub open spec fn begin_from(ls: Seq<Seq<char>>, i: int) -> Option<int>
    decreases ls.len() - i,
{
    if i < 0 || i >= ls.len() {
        None
    } else if is_begin(ls[i]) {
        Some(i)
    } else {
        begin_from(ls, i + 1)
    }
}

/// The first line at or after `i` that closes a managed block.
pub open spec fn end_from(ls: Seq<Seq<char>>, i: int) -> Option<int>
    decreases ls.len() - i,
{
    if i < 0 || i >= ls.len() {
        None
    } else if is_end(ls[i]) {
        Some(i)
    } else {
        end_from(ls, i + 1)
    }
}

/// The lines of the first managed block, both markers included.
pub open spec fn block_range(ls: Seq<Seq<char>>) -> Option<(int, int)> {
    match begin_from(ls, 0) {
        Some(b) => match end_from(ls, b) {
            Some(e) => Some((b, e)),
            None => None,
        },
        None => None,
    }
}

/// The task id that an opening line names.
pub open spec fn named_id(line: Seq<char>) -> Option<Seq<char>> {
    match text::after_prefix(text::trimmed(line), "<!-- rein:begin"@) {
        Some(rest) => match text::before_suffix(text::trimmed(rest), "-->"@) {
            Some(id) => Some(text::trimmed(id)),
            None => None,
        },
        None => None,
    }
}

/// The first managed block of a text: its task, the block, and what it holds.
pub open spec fn managed_of(t: Seq<char>) -> Option<(Seq<char>, Seq<char>, Seq<char>)> {
    let ls = text::lines_of(t);
    match block_range(ls) {
        Some((b, e)) => match named_id(ls[b]) {
            Some(id) => Some(
                (
                    id,
                    text::joined(ls.subrange(b, e + 1), "\n"@),
                    text::trimmed(text::joined(ls.subrange(b + 1, e), "\n"@)),
                ),
            ),
            None => None,
        },
        None => None,
    }
}

/// A line does not both open and close a block.
pub proof fn lemma_begin_is_not_end(line: Seq<char>)
    ensures
        !(is_begin(line) && is_end(line)),
{
    reveal_strlit("<!-- rein:begin");
    reveal_strlit("<!-- rein:end -->");
    if is_begin(line) && is_end(line) {
        let t = text::trimmed(line);
        assert(t.subrange(0, 15)[10] == 'b');
        assert(t[10] == 'e');
    }
}

/// The lines of the first managed block, both markers included.
fn find_block(ls: &Vec<String>) -> (r: Option<(usize, usize)>)
    ensures
        match r {
            Some((b, e)) => block_range(text::views(ls@)) == Some((b as int, e as int)) && b < e
                < ls.len(),
            None => block_range(text::views(ls@)) is None,
        },
{
    let ghost all = text::views(ls@);
    let mut b: usize = 0;
    while b < ls.len()
        invariant
            0 <= b <= ls.len(),
            all == text::views(ls@),
            begin_from(all, 0) == begin_from(all, b as int),
        decreases ls.len() - b,
    {
        if text::starts_with(&text::trim(&ls[b]), "<!-- rein:begin") {
            proof {
                lemma_begin_is_not_end(all[b as int]);
            }
            let mut e: usize = b;
            while e < ls.len()
                invariant
                    b <= e <= ls.len(),
                    all == text::views(ls@),
                    is_begin(all[b as int]),
                    !is_end(all[b as int]),
                    begin_from(all, 0) == Some(b as int),
                    end_from(all, b as int) == end_from(all, e as int),
                decreases ls.len() - e,
            {
                if text::same(&text::trim(&ls[e]), "<!-- rein:end -->") {
                    return Some((b, e));
                }
                e += 1;
            }
            return None;
        }
        b += 1;
    }
    None
}

/// The task id that an opening line names.
fn block_id(line: &str) -> (r: Option<String>)
    ensures
        text::opt_view(r) == named_id(line@),
{
    match text::strip_prefix(&text::trim(line), "<!-- rein:begin") {
        Some(rest) => match text::strip_suffix(&text::trim(&rest), "-->") {
            Some(id) => Some(text::trim(&id)),
            None => None,
        },
        None => None,
    }
}

/// Find a managed block in a remote body. Returns (task_id, full block, inner).
pub fn extract_managed(text: &str) -> (r: Option<(String, String, String)>)
    ensures
        match r {
            Some((id, block, inner)) => managed_of(text@) == Some((id@, block@, inner@)),
            None => managed_of(text@) is None,
        },
{
    let ls = text::lines(text);
    match find_block(&ls) {
        Some((b, e)) => {
            match block_id(&ls[b]) {
                Some(id) => Some(
                    (
                        id,
                        text::join_range(&ls, b, e + 1, "\n"),
                        text::trim(&text::join_range(&ls, b + 1, e, "\n")),
                    ),
                ),
                None => None,
            }
        },
        None => None,
    }
}

/// A remote body with a new block: in the place of the one it holds, else behind
/// what it says.
pub open spec fn with_block(remote: Seq<char>, block: Seq<char>) -> Seq<char> {
    let ls = text::lines_of(remote);
    match block_range(ls) {
        Some((b, e)) => text::trimmed(
            text::joined(ls.take(b) + text::lines_of(block) + ls.skip(e + 1), "\n"@),
        ) + "\n"@,
        None => if text::trimmed(remote).len() == 0 {
            text::trimmed(block) + "\n"@
        } else {
            text::trimmed_end(remote) + "\n\n"@ + text::trimmed(block) + "\n"@
        },
    }
}

/// Replace (or append) the managed block in a remote body, preserving
/// everything humans wrote outside the markers.
pub fn replace_managed(remote_body: &str, new_block: &str) -> (r: String)
    ensures
        r@ == with_block(remote_body@, new_block@),
{
    let ls = text::lines(remote_body);
    match find_block(&ls) {
        Some((b, e)) => {
            let ghost all = text::views(ls@);
            let new_lines = text::lines(new_block);
            let mut out: Vec<String> = Vec::new();
            text::push_range(&mut out, &ls, 0, b);
            text::push_range(&mut out, &new_lines, 0, new_lines.len());
            text::push_range(&mut out, &ls, e + 1, ls.len());
            proof {
                assert(text::views(out@) =~= all.take(b as int) + text::lines_of(new_block@)
                    + all.skip(e as int + 1));
            }
            let mut r = text::trim(&text::join(&out, "\n"));
            r.append("\n");
            r
        },
        None => {
            if text::trim(remote_body).as_str().is_empty() {
                let mut r = text::trim(new_block);
                r.append("\n");
                r
            } else {
                let mut r = text::trim_end(remote_body);
                r.append("\n\n");
                r.append(&text::trim(new_block));
                r.append("\n");
                r
            }
        },
    }
}

} // verus!
