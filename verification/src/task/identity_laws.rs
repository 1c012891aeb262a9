//! Laws of what a task is recognized by: its id and its issue are read back from every
//! document whose values are one line each, whatever else its frontmatter holds.
use crate::facts;
use crate::task::block_laws;
use crate::task::doc::{self, FrontmatterV, TaskDocV};
use crate::task::doc_laws;
use crate::task::items;
use crate::task::managed;
use crate::task::op_laws;
use crate::text;
use vstd::prelude::*;

verus! {

/// A line of no known key.
pub open spec fn unknown(line: Seq<char>) -> bool {
    match text::cut_at(line, ":"@) {
        Some((k, _)) => !doc_laws::is_known_key(text::trimmed(k)),
        None => true,
    }
}

/// Frontmatter of which every value is one line.
pub open spec fn lined(f: FrontmatterV) -> bool {
    &&& facts::one_line(f.id)
    &&& facts::one_line(f.title)
    &&& facts::one_line(f.status)
    &&& facts::one_line(f.created_at)
    &&& facts::one_line(f.updated_at)
    &&& match f.branch {
        Some(b) => facts::one_line(b),
        None => true,
    }
    &&& forall|i: int| 0 <= i < f.tags.len() ==> facts::one_line(#[trigger] f.tags[i])
    &&& forall|i: int|
        0 <= i < f.extra.len() ==> facts::one_line(#[trigger] f.extra[i]) && unknown(f.extra[i])
}

// ---------------------------------------------------------------------------
// What is read has values of one line
// ---------------------------------------------------------------------------

/// The pieces of a line are lines.
proof fn lemma_pieces_one_line(s: Seq<char>, c: char)
    requires
        facts::one_line(s),
    ensures
        facts::all_one_line(text::split_of(s, c)),
    decreases s.len(),
{
    text::lemma_char_from_range(s, c, 0);
    let ps = text::split_of(s, c);
    match text::char_from(s, c, 0) {
        Some(i) => {
            let rest = s.skip(i + 1);
            assert forall|k: int| 0 <= k < rest.len() implies #[trigger] rest[k] != '\n' by {
                assert(rest[k] == s[k + i + 1]);
            }
            lemma_pieces_one_line(rest, c);
            assert forall|k: int| 0 <= k < ps.len() implies facts::one_line(#[trigger] ps[k]) by {
                if k > 0 {
                    assert(ps[k] == text::split_of(rest, c)[k - 1]);
                } else {
                    assert(ps[0] == s.take(i));
                }
            }
        },
        None => {},
    }
}

/// The entries of lines are lines.
proof fn lemma_entries_one_line(ps: Seq<Seq<char>>)
    requires
        facts::all_one_line(ps),
    ensures
        facts::all_one_line(doc::trimmed_entries(ps)),
    decreases ps.len(),
{
    if ps.len() > 0 {
        let d = ps.drop_last();
        assert forall|k: int| 0 <= k < d.len() implies facts::one_line(#[trigger] d[k]) by {
            assert(d[k] == ps[k]);
        }
        lemma_entries_one_line(d);
        assert(facts::one_line(ps[ps.len() - 1]));
        op_laws::lemma_trimmed_one_line(ps.last());
    }
}

proof fn lemma_without_leading_one_line(s: Seq<char>, c: char)
    requires
        facts::one_line(s),
    ensures
        facts::one_line(text::without_leading(s, c)),
    decreases s.len(),
{
    if s.len() > 0 && s[0] == c {
        let r = s.skip(1);
        assert forall|k: int| 0 <= k < r.len() implies #[trigger] r[k] != '\n' by {
            assert(r[k] == s[k + 1]);
        }
        lemma_without_leading_one_line(r, c);
    }
}

proof fn lemma_without_trailing_one_line(s: Seq<char>, c: char)
    requires
        facts::one_line(s),
    ensures
        facts::one_line(text::without_trailing(s, c)),
    decreases s.len(),
{
    if s.len() > 0 && s.last() == c {
        let r = s.drop_last();
        assert forall|k: int| 0 <= k < r.len() implies #[trigger] r[k] != '\n' by {
            assert(r[k] == s[k]);
        }
        lemma_without_trailing_one_line(r, c);
    }
}

/// One more line keeps the values one line each, and the id without white space around
/// it.
proof fn lemma_line_is_lined(f: FrontmatterV, line: Seq<char>)
    requires
        lined(f),
        facts::snug(f.id),
        facts::one_line(line),
    ensures
        lined(doc::with_line(f, line)),
        facts::snug(doc::with_line(f, line).id),
{
    let g = doc::with_line(f, line);
    match text::cut_at(line, ":"@) {
        None => {},
        Some((k, v)) => {
            text::lemma_position_from(line, ":"@, 0);
            reveal_strlit(":");
            let at = text::position(line, ":"@)->0;
            assert forall|i: int| 0 <= i < v.len() implies #[trigger] v[i] != '\n' by {
                assert(v[i] == line[i + at + 1]);
            }
            let val = text::trimmed(v);
            op_laws::lemma_trimmed_one_line(v);
            facts::lemma_trimmed_is_snug(v);
            lemma_without_leading_one_line(val, '[');
            let w = text::without_leading(val, '[');
            lemma_without_trailing_one_line(w, ']');
            let u = text::without_trailing(w, ']');
            lemma_pieces_one_line(u, ',');
            lemma_entries_one_line(text::split_of(u, ','));
            assert(facts::all_one_line(doc::tags_of(val)));
        },
    }
    assert forall|i: int| 0 <= i < g.extra.len() implies facts::one_line(#[trigger] g.extra[i])
        && unknown(g.extra[i]) by {
        if i < f.extra.len() {
            assert(g.extra[i] == f.extra[i]);
        } else {
            assert(g.extra[i] == line);
        }
    }
}

proof fn lemma_front_is_lined(ls: Seq<Seq<char>>)
    requires
        facts::all_one_line(ls),
    ensures
        lined(doc::front_of(ls)),
        facts::snug(doc::front_of(ls).id),
    decreases ls.len(),
{
    if ls.len() > 0 {
        let d = ls.drop_last();
        assert forall|k: int| 0 <= k < d.len() implies facts::one_line(#[trigger] d[k]) by {
            assert(d[k] == ls[k]);
        }
        lemma_front_is_lined(d);
        assert(facts::one_line(ls[ls.len() - 1]));
        lemma_line_is_lined(doc::front_of(d), ls.last());
    }
}

/// Every document that is read has values of one line each, and an id without white
/// space around it.
pub proof fn law_read_values_are_lines(t: Seq<char>)
    ensures
        doc::parsed(t) matches Ok(d) ==> lined(d.front) && facts::snug(d.front.id),
{
    if let Ok(d) = doc::parsed(t) {
        let rest = text::after_prefix(t, "---\n"@)->0;
        let front = match text::cut_at(rest, "\n---\n"@) {
            Some((f, _)) => f,
            None => match text::cut_at(rest, "\n---"@) {
                Some((f, _)) => f,
                None => rest,
            },
        };
        facts::lemma_lines_have_no_feed(front);
        lemma_front_is_lined(text::lines_of(front));
    }
}

/// The task that a managed block names is one line, without white space around it.
pub proof fn law_marked_ids_are_lines(t: Seq<char>)
    ensures
        managed::managed_of(t) matches Some((id, _, _)) ==> facts::one_line(id) && facts::snug(id),
{
    if let Some((id, _, _)) = managed::managed_of(t) {
        let ls = text::lines_of(t);
        let (b, e) = managed::block_range(ls)->0;
        block_laws::lemma_begin_from(ls, 0);
        facts::lemma_lines_have_no_feed(t);
        let x = text::trimmed(ls[b]);
        op_laws::lemma_trimmed_one_line(ls[b]);
        let rest = text::after_prefix(x, "<!-- rein:begin"@)->0;
        let n = "<!-- rein:begin"@.len() as int;
        assert forall|i: int| 0 <= i < rest.len() implies #[trigger] rest[i] != '\n' by {
            assert(rest[i] == x[i + n]);
        }
        op_laws::lemma_trimmed_one_line(rest);
        let y = text::before_suffix(text::trimmed(rest), "-->"@)->0;
        assert forall|i: int| 0 <= i < y.len() implies #[trigger] y[i] != '\n' by {
            assert(y[i] == text::trimmed(rest)[i]);
        }
        op_laws::lemma_trimmed_one_line(y);
        facts::lemma_trimmed_is_snug(y);
    }
}

// ---------------------------------------------------------------------------
// What is written is read back
// ---------------------------------------------------------------------------

/// A carriage return at the end of a line does not change its key.
proof fn lemma_unknown_cr(x: Seq<char>)
    ensures
        unknown(text::without_cr(x)) == unknown(x),
{
    if x.len() > 0 && x.last() == '\r' {
        reveal_strlit(":");
        let y = x.drop_last();
        let v = seq!['\r'];
        assert(x =~= y + v);
        assert(facts::all_white(v));
        facts::lemma_position_before_white(y, v, ":"@);
        text::lemma_position_from(y, ":"@, 0);
        if let Some(i) = text::position(y, ":"@) {
            assert(x.take(i) =~= y.take(i));
        }
    }
}

/// Lines of no known key leave what the lines before them say.
proof fn lemma_unknown_lines(a: Seq<Seq<char>>, z: Seq<Seq<char>>)
    requires
        forall|i: int| 0 <= i < z.len() ==> unknown(#[trigger] z[i]),
    ensures
        doc::front_of(a + z) == (FrontmatterV {
            extra: doc::front_of(a + z).extra,
            ..doc::front_of(a)
        }),
    decreases z.len(),
{
    if z.len() == 0 {
        assert(a + z =~= a);
    } else {
        let d = z.drop_last();
        assert forall|i: int| 0 <= i < d.len() implies unknown(#[trigger] d[i]) by {
            assert(d[i] == z[i]);
        }
        lemma_unknown_lines(a, d);
        assert((a + z).drop_last() =~= a + d);
        assert((a + z).last() == z[z.len() - 1]);
        assert(unknown(z[z.len() - 1]));
    }
}

/// The lines in front of a line feed among lines of no known key are of no known key.
proof fn lemma_unknown_part(extra: Seq<Seq<char>>, k: int)
    requires
        facts::all_one_line(extra),
        forall|i: int| 0 <= i < extra.len() ==> unknown(#[trigger] extra[i]),
        0 <= k < doc::with_feeds(extra).len(),
        doc::with_feeds(extra)[k] == '\n',
    ensures
        ({
            let ls = text::lines_of(doc::with_feeds(extra).take(k));
            forall|i: int| 0 <= i < ls.len() ==> unknown(#[trigger] ls[i])
        }),
{
    facts::lemma_feed();
    let all = doc::with_feeds(extra);
    let y = all.take(k);
    let r = all.skip(k + 1);
    let e = Seq::<char>::empty();
    assert(extra.len() > 0);
    doc_laws::lemma_with_feeds(extra);
    facts::lemma_lines_written(extra);
    let w = y + "\n"@;
    assert(all =~= w + r);
    facts::lemma_lines_append(w, r);
    let (p, m) = facts::lemma_split_last_feed(y);
    facts::lemma_lines_append(p, m);
    facts::lemma_lines_single(m);
    assert(w =~= p + (m + "\n"@ + e));
    facts::lemma_lines_append(p, m + "\n"@ + e);
    facts::lemma_lines_cons(m, e);
    facts::lemma_lines_single(e);
    let ls = text::lines_of(y);
    let ws = text::lines_of(w);
    let n = text::lines_of(p).len() as int;
    assert(ws =~= text::lines_of(p) + seq![text::without_cr(m)]);
    assert(ls =~= text::lines_of(p) + text::lines_of(m));
    assert(text::lines_of(all) == facts::dry(extra));
    assert(facts::dry(extra).len() == extra.len());
    assert(facts::dry(extra) == ws + text::lines_of(r));
    assert forall|i: int| 0 <= i < ls.len() implies unknown(#[trigger] ls[i]) by {
        assert(ws[i] == facts::dry(extra)[i]);
        assert(ws[i] == text::without_cr(extra[i]));
        lemma_unknown_cr(extra[i]);
        if i == n {
            assert(ls[i] == m);
            assert(ws[i] == text::without_cr(m));
            lemma_unknown_cr(m);
        } else {
            assert(ls[i] == text::lines_of(p)[i]);
            assert(ws[i] == text::lines_of(p)[i]);
        }
    }
}

/// A key line without a carriage return at its end is still a line of that key, with the
/// same value.
proof fn lemma_dry_key_line(key: Seq<char>, rest: Seq<char>)
    requires
        key.len() > 0,
        facts::snug(key),
        forall|i: int| 0 <= i < key.len() ==> #[trigger] key[i] != ':',
    ensures
        ({
            let line = text::without_cr(doc_laws::key_line(key, rest));
            &&& text::cut_at(line, ":"@) == Some((key, text::without_cr(rest)))
            &&& text::trimmed(line).len() > 0
            &&& text::trimmed(key) == key
            &&& text::trimmed(text::without_cr(rest)) == text::trimmed(rest)
            &&& line[0] == key[0]
            &&& line.len() > 0
        }),
{
    reveal_strlit(":");
    let line = doc_laws::key_line(key, rest);
    if rest.len() > 0 {
        assert(line.last() == rest.last());
    }
    assert(text::without_cr(line) =~= doc_laws::key_line(key, text::without_cr(rest)));
    doc_laws::lemma_key_line(key, text::without_cr(rest));
    facts::lemma_trimmed_without_cr(rest);
}

/// White space behind a key does not belong to its value.
proof fn lemma_blank_value(v: Seq<char>)
    ensures
        text::trimmed(" "@ + v) == text::trimmed(v),
{
    reveal_strlit(" ");
    let e = Seq::<char>::empty();
    assert(facts::all_white(" "@));
    facts::lemma_trimmed_pad(" "@, v, e);
    assert(" "@ + v + e =~= " "@ + v);
}

/// What the known lines say, each read without a carriage return at its end.
pub open spec fn known_values(f: FrontmatterV) -> FrontmatterV {
    let branch = text::trimmed(doc_laws::optional_rest(f.branch));
    FrontmatterV {
        id: text::trimmed(f.id),
        title: text::trimmed(f.title),
        status: text::trimmed(f.status),
        created_at: text::trimmed(f.created_at),
        updated_at: text::trimmed(f.updated_at),
        github_issue: f.github_issue,
        github_pr: f.github_pr,
        branch: if branch.len() == 0 {
            None
        } else {
            Some(branch)
        },
        tags: doc::tags_of(text::trimmed(doc_laws::tags_rest(f.tags))),
        shared: f.shared,
        extra: seq![],
    }
}

/// Frontmatter in which a known key has got a value.
spec fn keyed(f: FrontmatterV, key: Seq<char>, val: Seq<char>) -> FrontmatterV {
    if key == "id"@ {
        FrontmatterV { id: val, ..f }
    } else if key == "title"@ {
        FrontmatterV { title: val, ..f }
    } else if key == "status"@ {
        FrontmatterV { status: val, ..f }
    } else if key == "created_at"@ {
        FrontmatterV { created_at: val, ..f }
    } else if key == "updated_at"@ {
        FrontmatterV { updated_at: val, ..f }
    } else if key == "github_issue"@ {
        FrontmatterV { github_issue: doc::linked_number(val), ..f }
    } else if key == "github_pr"@ {
        FrontmatterV { github_pr: doc::linked_number(val), ..f }
    } else if key == "branch"@ {
        FrontmatterV {
            branch: if val.len() == 0 {
                None
            } else {
                Some(val)
            },
            ..f
        }
    } else if key == "tags"@ {
        FrontmatterV { tags: doc::tags_of(val), ..f }
    } else {
        FrontmatterV { shared: val == "true"@, ..f }
    }
}

/// One more known line, read without a carriage return at its end.
proof fn lemma_known_value(
    ls: Seq<Seq<char>>,
    i: int,
    key: Seq<char>,
    rest: Seq<char>,
)
    requires
        0 <= i < ls.len(),
        ls[i] == doc_laws::key_line(key, rest),
        doc_laws::is_known_key(key),
    ensures
        doc::front_of(facts::dry(ls).take(i + 1)) == keyed(
            doc::front_of(facts::dry(ls).take(i)),
            key,
            text::trimmed(rest),
        ),
        facts::dry(ls)[i].len() > 0,
        facts::dry(ls)[i][0] != '-',
{
    let k = facts::dry(ls);
    reveal_strlit("id");
    reveal_strlit("title");
    reveal_strlit("status");
    reveal_strlit("created_at");
    reveal_strlit("updated_at");
    reveal_strlit("github_issue");
    reveal_strlit("github_pr");
    reveal_strlit("branch");
    reveal_strlit("tags");
    reveal_strlit("shared");
    lemma_dry_key_line(key, rest);
    doc_laws::lemma_known_step(k, i);
    assert(k[i] == text::without_cr(ls[i]));
}

/// The known lines say the values that they were written from.
#[verifier::spinoff_prover]
proof fn lemma_known_values(f: FrontmatterV)
    ensures
        doc::front_of(facts::dry(doc_laws::known_lines(f))) == known_values(f),
        forall|i: int|
            0 <= i < 10 ==> (#[trigger] facts::dry(doc_laws::known_lines(f))[i]).len() > 0
                && facts::dry(doc_laws::known_lines(f))[i][0] != '-',
{
    let ls = doc_laws::known_lines(f);
    let k = facts::dry(ls);
    let v = known_values(f);
    doc_laws::lemma_keys();
    lemma_blank_value(f.id);
    lemma_blank_value(f.title);
    lemma_blank_value(f.status);
    lemma_blank_value(f.created_at);
    lemma_blank_value(f.updated_at);
    doc_laws::lemma_linked(f.github_issue);
    doc_laws::lemma_linked(f.github_pr);
    assert((text::trimmed(doc_laws::shared_rest(f.shared)) == "true"@) == f.shared) by {
        reveal_strlit("true");
        reveal_strlit("false");
        lemma_blank_value("true"@);
        lemma_blank_value("false"@);
        facts::lemma_trimmed_snug("true"@);
        facts::lemma_trimmed_snug("false"@);
    }
    assert(k.take(0) =~= seq![]);
    assert(k.take(10) =~= k);
    lemma_known_value(ls, 0, "id"@, " "@ + f.id);
    lemma_known_value(ls, 1, "title"@, " "@ + f.title);
    lemma_known_value(ls, 2, "status"@, " "@ + f.status);
    lemma_known_value(ls, 3, "created_at"@, " "@ + f.created_at);
    lemma_known_value(ls, 4, "updated_at"@, " "@ + f.updated_at);
    lemma_known_value(
        ls,
        5,
        "github_issue"@,
        doc_laws::optional_rest(doc::linked_text(f.github_issue)),
    );
    lemma_known_value(
        ls,
        6,
        "github_pr"@,
        doc_laws::optional_rest(doc::linked_text(f.github_pr)),
    );
    lemma_known_value(ls, 7, "branch"@, doc_laws::optional_rest(f.branch));
    lemma_known_value(ls, 8, "tags"@, doc_laws::tags_rest(f.tags));
    lemma_known_value(ls, 9, "shared"@, doc_laws::shared_rest(f.shared));
    assert(doc::front_of(k) =~= v);
    assert forall|i: int| 0 <= i < 10 implies (#[trigger] k[i]).len() > 0 && k[i][0] != '-' by {
        assert(i == 0 || i == 1 || i == 2 || i == 3 || i == 4 || i == 5 || i == 6 || i == 7 || i
            == 8 || i == 9);
    }
}

/// A key line of one line is one line.
proof fn lemma_key_line_one_line(key: Seq<char>, rest: Seq<char>)
    requires
        facts::one_line(key),
        facts::one_line(rest),
    ensures
        facts::one_line(doc_laws::key_line(key, rest)),
{
    reveal_strlit(":");
    let line = doc_laws::key_line(key, rest);
    assert forall|i: int| 0 <= i < line.len() implies #[trigger] line[i] != '\n' by {
        if i < key.len() {
            assert(line[i] == key[i]);
        } else if i > key.len() {
            assert(line[i] == rest[i - key.len() - 1]);
        }
    }
}

/// A value behind a blank is one line.
proof fn lemma_blank_one_line(v: Seq<char>)
    requires
        facts::one_line(v),
    ensures
        facts::one_line(" "@ + v),
{
    reveal_strlit(" ");
    let line = " "@ + v;
    assert forall|i: int| 0 <= i < line.len() implies #[trigger] line[i] != '\n' by {
        if i > 0 {
            assert(line[i] == v[i - 1]);
        }
    }
}

proof fn lemma_linked_one_line(n: Option<u64>)
    ensures
        facts::one_line(doc_laws::optional_rest(doc::linked_text(n))),
{
    match n {
        Some(n) => {
            let d = text::decimal(n as nat);
            text::lemma_decimal(n as nat);
            assert forall|i: int| 0 <= i < d.len() implies #[trigger] d[i] != '\n' by {
                assert(text::is_digit(d[i]));
            }
            lemma_blank_one_line(d);
        },
        None => {},
    }
}

/// The known lines are one line each.
proof fn lemma_known_one_line(f: FrontmatterV)
    requires
        lined(f),
    ensures
        facts::all_one_line(doc_laws::known_lines(f)),
        !text::is_white(doc_laws::known_lines(f)[9].last()),
        doc_laws::known_lines(f)[9].len() > 0,
{
    let k = doc_laws::known_lines(f);
    reveal_strlit("id");
    reveal_strlit("title");
    reveal_strlit("status");
    reveal_strlit("created_at");
    reveal_strlit("updated_at");
    reveal_strlit("github_issue");
    reveal_strlit("github_pr");
    reveal_strlit("branch");
    reveal_strlit("tags");
    reveal_strlit("shared");
    reveal_strlit("true");
    reveal_strlit("false");
    reveal_strlit(" [");
    reveal_strlit("]");
    lemma_blank_one_line(f.id);
    lemma_key_line_one_line("id"@, " "@ + f.id);
    lemma_blank_one_line(f.title);
    lemma_key_line_one_line("title"@, " "@ + f.title);
    lemma_blank_one_line(f.status);
    lemma_key_line_one_line("status"@, " "@ + f.status);
    lemma_blank_one_line(f.created_at);
    lemma_key_line_one_line("created_at"@, " "@ + f.created_at);
    lemma_blank_one_line(f.updated_at);
    lemma_key_line_one_line("updated_at"@, " "@ + f.updated_at);
    lemma_linked_one_line(f.github_issue);
    lemma_key_line_one_line(
        "github_issue"@,
        doc_laws::optional_rest(doc::linked_text(f.github_issue)),
    );
    lemma_linked_one_line(f.github_pr);
    lemma_key_line_one_line("github_pr"@, doc_laws::optional_rest(doc::linked_text(f.github_pr)));
    if let Some(b) = f.branch {
        lemma_blank_one_line(b);
    }
    lemma_key_line_one_line("branch"@, doc_laws::optional_rest(f.branch));
    doc_laws::lemma_joined_tags_one_line(f.tags);
    let tr = doc_laws::tags_rest(f.tags);
    let j = text::joined(f.tags, ", "@);
    assert forall|i: int| 0 <= i < tr.len() implies #[trigger] tr[i] != '\n' by {
        if 2 <= i < 2 + j.len() {
            assert(tr[i] == j[i - 2]);
        }
    }
    lemma_key_line_one_line("tags"@, tr);
    lemma_blank_one_line("true"@);
    lemma_blank_one_line("false"@);
    lemma_key_line_one_line("shared"@, doc_laws::shared_rest(f.shared));
    assert forall|i: int| 0 <= i < k.len() implies facts::one_line(#[trigger] k[i]) by {
        assert(i == 0 || i == 1 || i == 2 || i == 3 || i == 4 || i == 5 || i == 6 || i == 7 || i
            == 8 || i == 9);
    }
    assert(k[9].last() == 'e');
}

/// No boundary starts among lines none of which is one.
#[verifier::spinoff_prover]
proof fn lemma_no_boundary(ls: Seq<Seq<char>>, x: Seq<char>, j: int)
    requires
        ls.len() > 0,
        facts::all_one_line(ls),
        forall|i: int| 0 <= i < ls.len() ==> #[trigger] facts::dry(ls)[i] != "---"@,
        0 <= j < text::joined(ls, "\n"@).len(),
    ensures
        !text::occurs_at(items::document(ls) + x, "\n---\n"@, j),
{
    reveal_strlit("\n---\n");
    reveal_strlit("---");
    facts::lemma_feed();
    let m = "\n---\n"@;
    let d = items::document(ls);
    let s = d + x;
    let n = text::joined(ls, "\n"@).len() as int;
    if text::occurs_at(s, m, j) {
        let w = s.subrange(j, j + 5);
        assert(w[0] == s[j] && w[1] == s[j + 1] && w[2] == s[j + 2] && w[3] == s[j + 3] && w[4]
            == s[j + 4]);
        assert(s[n] == d[n] && d[n] == '\n');
        assert(j + 4 <= n);
        facts::lemma_lines_written(ls);
        let a = d.take(j) + "\n"@;
        let b = d.skip(j + 5);
        assert(d =~= a + ("---"@ + "\n"@ + b)) by {
            assert forall|i: int| 0 <= i < d.len() implies d[i] == (a + ("---"@ + "\n"@ + b))[i] by {
                assert(d[i] == s[i]);
            }
        }
        assert(a.last() == '\n');
        facts::lemma_lines_append(a, "---"@ + "\n"@ + b);
        facts::lemma_lines_cons("---"@, b);
        assert(text::without_cr("---"@) == "---"@);
        let k = text::lines_of(a).len() as int;
        assert(k < text::lines_of(d).len());
        assert(text::lines_of(d)[k] == "---"@);
        assert(facts::dry(ls)[k] == "---"@);
    }
}

/// The lines of frontmatter that is cut somewhere behind its known lines: the known
/// lines, and lines of no known key.
proof fn lemma_cut_front(f: FrontmatterV, front: Seq<char>, k: int) -> (z: Seq<Seq<char>>)
    requires
        lined(f),
        ({
            let d = items::document(doc_laws::known_lines(f));
            let e = doc::with_feeds(f.extra);
            &&& d.len() - 1 <= k <= d.len() - 1 + e.len()
            &&& (d + e)[k] == '\n'
            &&& front == (d + e).take(k)
        }),
    ensures
        text::lines_of(front) == facts::dry(doc_laws::known_lines(f)) + z,
        forall|i: int| 0 <= i < z.len() ==> unknown(#[trigger] z[i]),
{
    facts::lemma_feed();
    let ls = doc_laws::known_lines(f);
    let d = items::document(ls);
    let e = doc::with_feeds(f.extra);
    let n = d.len() - 1;
    lemma_known_one_line(f);
    facts::lemma_lines_written(ls);
    if k == n {
        let z = Seq::<Seq<char>>::empty();
        let j = text::joined(ls, "\n"@);
        assert(front =~= j);
        let x = ls.drop_last();
        assert(ls =~= x.push(ls[9]));
        text::lemma_joined_push(x, "\n"@, ls[9]);
        assert(j.last() == ls[9].last());
        facts::lemma_lines_feed(j);
        assert(facts::dry(ls) + z =~= facts::dry(ls));
        z
    } else {
        let y = e.take(k - n - 1);
        assert(front =~= d + y);
        assert(e[k - n - 1] == (d + e)[k]);
        assert(facts::all_one_line(f.extra));
        lemma_unknown_part(f.extra, k - n - 1);
        facts::lemma_lines_append(d, y);
        text::lines_of(y)
    }
}

/// Where every value is one line, reading what was written gives back what the known
/// lines say: the id and the issue above all, by which a task is recognized.
pub proof fn law_identity_reads_back(d: TaskDocV)
    requires
        lined(d.front),
    ensures
        doc::parsed(doc::serialized(d)) matches Ok(p) && p.front == (FrontmatterV {
            extra: p.front.extra,
            ..known_values(d.front)
        }),
{
    facts::lemma_feed();
    reveal_strlit("---\n");
    reveal_strlit("---\n\n");
    reveal_strlit("\n---\n");
    reveal_strlit("---");
    let f = d.front;
    let ls = doc_laws::known_lines(f);
    let doc0 = items::document(ls);
    let e = doc::with_feeds(f.extra);
    let b = text::without_trailing(d.body, '\n');
    let x = e + "---\n\n"@ + b + "\n"@;
    let rest = doc0 + x;
    let m = "\n---\n"@;
    doc_laws::lemma_front_text(f);
    doc_laws::lemma_with_feeds_concat(ls, f.extra);
    doc_laws::lemma_with_feeds(ls);
    assert(doc::serialized(d) =~= "---\n"@ + rest);
    facts::lemma_begins("---\n"@, rest);
    lemma_known_values(f);
    lemma_known_one_line(f);
    let n = doc0.len() - 1;
    assert forall|i: int| 0 <= i < ls.len() implies #[trigger] facts::dry(ls)[i] != "---"@ by {
        assert(facts::dry(ls)[i][0] != '-');
    }
    assert forall|j: int| 0 <= j < n implies !#[trigger] text::occurs_at(rest, m, j) by {
        lemma_no_boundary(ls, x, j);
    }
    let end = n + e.len();
    assert(text::occurs_at(rest, m, end)) by {
        if e.len() > 0 {
            assert(f.extra.len() > 0);
            doc_laws::lemma_with_feeds(f.extra);
            assert(e.last() == '\n');
            assert(rest[end] == e[e.len() - 1]);
        } else {
            assert(rest[end] == doc0[n]);
        }
        assert(rest.subrange(end, end + 5) =~= m);
    }
    text::lemma_position_from(rest, m, 0);
    let k = text::position(rest, m)->0;
    assert(n <= k <= end);
    assert(rest.subrange(k, k + 5)[0] == rest[k]);
    assert(rest[k] == (doc0 + e)[k]);
    let front = rest.take(k);
    assert(front =~= (doc0 + e).take(k));
    let z = lemma_cut_front(f, front, k);
    lemma_unknown_lines(facts::dry(ls), z);
}

} // verus!
