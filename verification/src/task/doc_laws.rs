//! Laws of task documents: what is written is read back.
use crate::facts;
use crate::task::doc::{self, FrontmatterV, TaskDocV};
use crate::task::items;
use crate::text;
use vstd::prelude::*;

verus! {

/// A value that one frontmatter line carries: one line, without white space at
/// either end.
pub open spec fn storable_value(v: Seq<char>) -> bool {
    facts::one_line(v) && facts::snug(v)
}

/// The keys that frontmatter lines are known by.
pub open spec fn is_known_key(k: Seq<char>) -> bool {
    ||| k == "id"@
    ||| k == "title"@
    ||| k == "status"@
    ||| k == "created_at"@
    ||| k == "updated_at"@
    ||| k == "github_issue"@
    ||| k == "github_pr"@
    ||| k == "branch"@
    ||| k == "tags"@
    ||| k == "shared"@
}

/// A line that is kept as it is: not blank, not a frontmatter boundary, and of no
/// known key.
pub open spec fn storable_extra(line: Seq<char>) -> bool {
    &&& facts::settled_line(line)
    &&& text::trimmed(line).len() > 0
    &&& line != "---"@
    &&& match text::cut_at(line, ":"@) {
        Some((k, _)) => !is_known_key(text::trimmed(k)),
        None => true,
    }
}

/// Tags that a bracketed list carries: none is empty or holds a comma, the first
/// does not open with a bracket, and the last does not close with one.
pub open spec fn storable_tags(tags: Seq<Seq<char>>) -> bool {
    &&& forall|i: int|
        0 <= i < tags.len() ==> storable_value(#[trigger] tags[i]) && tags[i].len() > 0
            && forall|k: int| 0 <= k < tags[i].len() ==> #[trigger] tags[i][k] != ','
    &&& tags.len() > 0 ==> tags[0][0] != '[' && tags.last().last() != ']'
}

/// Frontmatter that its lines carry.
pub open spec fn storable(f: FrontmatterV) -> bool {
    &&& storable_value(f.id)
    &&& storable_value(f.title)
    &&& storable_value(f.status)
    &&& storable_value(f.created_at)
    &&& storable_value(f.updated_at)
    &&& match f.branch {
        Some(b) => storable_value(b) && b.len() > 0,
        None => true,
    }
    &&& storable_tags(f.tags)
    &&& forall|i: int| 0 <= i < f.extra.len() ==> storable_extra(#[trigger] f.extra[i])
}

/// The value part of an optional line.
pub open spec fn optional_rest(v: Option<Seq<char>>) -> Seq<char> {
    match v {
        Some(v) => " "@ + v,
        None => seq![],
    }
}

/// The value part of the tags line.
pub open spec fn tags_rest(tags: Seq<Seq<char>>) -> Seq<char> {
    " ["@ + (text::joined(tags, ", "@) + "]"@)
}

/// The value part of the shared line.
pub open spec fn shared_rest(shared: bool) -> Seq<char> {
    " "@ + (if shared {
        "true"@
    } else {
        "false"@
    })
}

/// A line of a key and what follows it.
pub open spec fn key_line(key: Seq<char>, rest: Seq<char>) -> Seq<char> {
    key + ":"@ + rest
}

/// The lines of the known fields.
pub open spec fn known_lines(f: FrontmatterV) -> Seq<Seq<char>> {
    seq![
        key_line("id"@, " "@ + f.id),
        key_line("title"@, " "@ + f.title),
        key_line("status"@, " "@ + f.status),
        key_line("created_at"@, " "@ + f.created_at),
        key_line("updated_at"@, " "@ + f.updated_at),
        key_line("github_issue"@, optional_rest(doc::linked_text(f.github_issue))),
        key_line("github_pr"@, optional_rest(doc::linked_text(f.github_pr))),
        key_line("branch"@, optional_rest(f.branch)),
        key_line("tags"@, tags_rest(f.tags)),
        key_line("shared"@, shared_rest(f.shared)),
    ]
}

/// The lines of the frontmatter.
pub open spec fn front_lines(f: FrontmatterV) -> Seq<Seq<char>> {
    known_lines(f) + f.extra
}

/// Lines with their feeds make a document.
pub proof fn lemma_with_feeds(ls: Seq<Seq<char>>)
    requires
        ls.len() > 0,
    ensures
        doc::with_feeds(ls) == items::document(ls),
    decreases ls.len(),
{
    facts::lemma_feed();
    let d = ls.drop_last();
    let x = ls.last();
    assert(ls =~= d.push(x));
    text::lemma_joined_push(d, "\n"@, x);
    if d.len() == 0 {
        assert(doc::with_feeds(d) =~= seq![]);
        assert(doc::with_feeds(ls) =~= items::document(ls));
    } else {
        lemma_with_feeds(d);
        assert(doc::with_feeds(ls) =~= items::document(ls));
    }
}

pub proof fn lemma_with_feeds_concat(a: Seq<Seq<char>>, b: Seq<Seq<char>>)
    ensures
        doc::with_feeds(a + b) == doc::with_feeds(a) + doc::with_feeds(b),
    decreases b.len(),
{
    if b.len() == 0 {
        assert(a + b =~= a);
        assert(doc::with_feeds(b) =~= seq![]);
        assert(doc::with_feeds(a) + doc::with_feeds(b) =~= doc::with_feeds(a));
    } else {
        assert((a + b).drop_last() =~= a + b.drop_last());
        lemma_with_feeds_concat(a, b.drop_last());
        assert(doc::with_feeds(a + b) =~= doc::with_feeds(a) + doc::with_feeds(b));
    }
}

/// The written frontmatter is its lines.
#[verifier::rlimit(40)]
pub proof fn lemma_front_text(f: FrontmatterV)
    ensures
        doc::front_text(f) == doc::with_feeds(front_lines(f)),
{
    facts::lemma_feed();
    let k = known_lines(f);
    lemma_with_feeds_concat(k, f.extra);
    reveal_strlit("id: ");
    reveal_strlit("id");
    reveal_strlit("title: ");
    reveal_strlit("title");
    reveal_strlit("status: ");
    reveal_strlit("status");
    reveal_strlit("created_at: ");
    reveal_strlit("created_at");
    reveal_strlit("updated_at: ");
    reveal_strlit("updated_at");
    reveal_strlit("github_issue:");
    reveal_strlit("github_issue");
    reveal_strlit("github_pr:");
    reveal_strlit("github_pr");
    reveal_strlit("branch:");
    reveal_strlit("branch");
    reveal_strlit("tags: [");
    reveal_strlit("tags");
    reveal_strlit("shared: ");
    reveal_strlit("shared");
    reveal_strlit(":");
    reveal_strlit(" ");
    reveal_strlit(" [");
    assert("id: "@ =~= "id"@ + ":"@ + " "@);
    assert("title: "@ =~= "title"@ + ":"@ + " "@);
    assert("status: "@ =~= "status"@ + ":"@ + " "@);
    assert("created_at: "@ =~= "created_at"@ + ":"@ + " "@);
    assert("updated_at: "@ =~= "updated_at"@ + ":"@ + " "@);
    assert("github_issue:"@ =~= "github_issue"@ + ":"@);
    assert("github_pr:"@ =~= "github_pr"@ + ":"@);
    assert("branch:"@ =~= "branch"@ + ":"@);
    assert("tags: ["@ =~= "tags"@ + ":"@ + " ["@);
    assert("shared: "@ =~= "shared"@ + ":"@ + " "@);
    let l0 = doc::front_line("id: "@, f.id);
    assert(l0 =~= k[0] + "\n"@);
    let l1 = doc::front_line("title: "@, f.title);
    assert(l1 =~= k[1] + "\n"@);
    let l2 = doc::front_line("status: "@, f.status);
    assert(l2 =~= k[2] + "\n"@);
    let l3 = doc::front_line("created_at: "@, f.created_at);
    assert(l3 =~= k[3] + "\n"@);
    let l4 = doc::front_line("updated_at: "@, f.updated_at);
    assert(l4 =~= k[4] + "\n"@);
    let l5 = doc::optional_line("github_issue:"@, doc::linked_text(f.github_issue));
    assert(l5 =~= k[5] + "\n"@);
    let l6 = doc::optional_line("github_pr:"@, doc::linked_text(f.github_pr));
    assert(l6 =~= k[6] + "\n"@);
    let l7 = doc::optional_line("branch:"@, f.branch);
    assert(l7 =~= k[7] + "\n"@);
    let l8 = doc::front_line("tags: ["@, text::joined(f.tags, ", "@) + "]"@);
    assert(l8 =~= k[8] + "\n"@);
    let b = if f.shared {
        "true"@
    } else {
        "false"@
    };
    let l9 = doc::front_line("shared: "@, b);
    assert(l9 =~= k[9] + "\n"@);
    lemma_feeds_of_ten(k);
}

/// Ten lines with their feeds.
proof fn lemma_feeds_of_ten(k: Seq<Seq<char>>)
    requires
        k.len() == 10,
    ensures
        doc::with_feeds(k) == (k[0] + "\n"@) + (k[1] + "\n"@) + (k[2] + "\n"@) + (k[3] + "\n"@) + (
        k[4] + "\n"@) + (k[5] + "\n"@) + (k[6] + "\n"@) + (k[7] + "\n"@) + (k[8] + "\n"@) + (k[9]
            + "\n"@),
{
    let e = Seq::<char>::empty();
    lemma_feeds_step(k, 0);
    assert(k.take(0) =~= seq![]);
    assert(doc::with_feeds(k.take(0)) =~= e);
    assert(e + (k[0] + "\n"@) =~= k[0] + "\n"@);
    lemma_feeds_step(k, 1);
    lemma_feeds_step(k, 2);
    lemma_feeds_step(k, 3);
    lemma_feeds_step(k, 4);
    lemma_feeds_step(k, 5);
    lemma_feeds_step(k, 6);
    lemma_feeds_step(k, 7);
    lemma_feeds_step(k, 8);
    lemma_feeds_step(k, 9);
    assert(k.take(10) =~= k);
}

proof fn lemma_feeds_step(k: Seq<Seq<char>>, i: int)
    requires
        0 <= i < k.len(),
    ensures
        doc::with_feeds(k.take(i + 1)) == doc::with_feeds(k.take(i)) + (k[i] + "\n"@),
{
    assert(k.take(i + 1).drop_last() =~= k.take(i));
    assert(k.take(i + 1).last() == k[i]);
    assert(doc::with_feeds(k.take(i)) + k[i] + "\n"@ =~= doc::with_feeds(k.take(i)) + (k[i]
        + "\n"@));
}

/// A key and its value are told apart at the first colon.
pub proof fn lemma_key_line(key: Seq<char>, rest: Seq<char>)
    requires
        key.len() > 0,
        facts::snug(key),
        forall|i: int| 0 <= i < key.len() ==> #[trigger] key[i] != ':',
    ensures
        text::cut_at(key_line(key, rest), ":"@) == Some((key, rest)),
        text::trimmed(key) == key,
        text::trimmed(key_line(key, rest)).len() > 0,
{
    reveal_strlit(":");
    let line = key_line(key, rest);
    let n = key.len() as int;
    assert(line[n] == ':');
    assert(line.subrange(n, n + 1) =~= ":"@);
    assert forall|j: int| 0 <= j < n implies !#[trigger] text::occurs_at(line, ":"@, j) by {
        if text::occurs_at(line, ":"@, j) {
            assert(line.subrange(j, j + 1)[0] == line[j]);
            assert(line[j] == key[j]);
        }
    }
    facts::lemma_position_is(line, ":"@, n);
    assert(line.take(n) =~= key);
    assert(line.skip(n + 1) =~= rest);
    facts::lemma_trimmed_snug(key);
    let (a, b) = facts::lemma_trimmed_parts(line);
    if text::trimmed(line).len() == 0 {
        assert(line =~= a + b);
        if a.len() > 0 {
            assert(line[0] == a[0]);
        } else {
            assert(line[0] == b[0]);
        }
        assert(line[0] == key[0]);
    }
}

/// The value behind a blank is read back.
proof fn lemma_value(v: Seq<char>)
    requires
        facts::snug(v),
    ensures
        text::trimmed(" "@ + v) == v,
{
    reveal_strlit(" ");
    let e = Seq::<char>::empty();
    facts::lemma_trimmed_of(" "@, v, e);
    assert(" "@ + v + e =~= " "@ + v);
}

/// A linked number is read back.
pub proof fn lemma_linked(n: Option<u64>)
    ensures
        doc::linked_number(text::trimmed(optional_rest(doc::linked_text(n)))) == n,
{
    let e = Seq::<char>::empty();
    facts::lemma_trimmed_snug(e);
    match n {
        Some(n) => {
            let d = text::decimal(n as nat);
            text::lemma_decimal(n as nat);
            assert(text::is_digit(d[0]));
            assert(text::is_digit(d[d.len() - 1]));
            lemma_value(d);
            text::lemma_decimal_reads_back(n as nat, u64::MAX as nat);
        },
        None => {
            assert(text::number(e, u64::MAX as nat) is None);
        },
    }
}

// ---------------------------------------------------------------------------
// Tags
// ---------------------------------------------------------------------------

/// The pieces between commas of two texts.
proof fn lemma_split_cons(a: Seq<char>, b: Seq<char>)
    requires
        forall|k: int| 0 <= k < a.len() ==> #[trigger] a[k] != ',',
    ensures
        text::split_of(a + seq![','] + b, ',') == seq![a] + text::split_of(b, ','),
        text::split_of(a, ',') == seq![a],
{
    let s = a + seq![','] + b;
    text::lemma_char_from_range(s, ',', 0);
    assert(s[a.len() as int] == ',');
    let i = text::char_from(s, ',', 0)->0;
    assert(i == a.len()) by {
        if i < a.len() {
            assert(s[i] == a[i]);
        }
    }
    assert(s.take(i) =~= a);
    assert(s.skip(i + 1) =~= b);
    facts::lemma_char_from_none(a, ',', 0);
}

/// The entries of a list with one more in front.
proof fn lemma_entries_cons(p: Seq<char>, ps: Seq<Seq<char>>)
    ensures
        doc::trimmed_entries(seq![p] + ps) == (if text::trimmed(p).len() == 0 {
            Seq::<Seq<char>>::empty()
        } else {
            seq![text::trimmed(p)]
        }) + doc::trimmed_entries(ps),
    decreases ps.len(),
{
    let all = seq![p] + ps;
    if ps.len() == 0 {
        assert(all.drop_last() =~= seq![]);
        assert(all.last() == p);
        assert(doc::trimmed_entries(seq![]) =~= seq![]);
        assert(doc::trimmed_entries(all) =~= (if text::trimmed(p).len() == 0 {
            Seq::<Seq<char>>::empty()
        } else {
            seq![text::trimmed(p)]
        }) + doc::trimmed_entries(ps));
    } else {
        let d = ps.drop_last();
        assert(all.drop_last() =~= seq![p] + d);
        assert(all.last() == ps.last());
        lemma_entries_cons(p, d);
        assert(doc::trimmed_entries(all) =~= (if text::trimmed(p).len() == 0 {
            Seq::<Seq<char>>::empty()
        } else {
            seq![text::trimmed(p)]
        }) + doc::trimmed_entries(ps));
    }
}

/// Tags joined by commas, after one blank or none, are read back.
proof fn lemma_tags_split(tags: Seq<Seq<char>>, pad: Seq<char>)
    requires
        tags.len() > 0,
        pad == Seq::<char>::empty() || pad == seq![' '],
        forall|i: int|
            0 <= i < tags.len() ==> storable_value(#[trigger] tags[i]) && tags[i].len() > 0
                && forall|k: int| 0 <= k < tags[i].len() ==> #[trigger] tags[i][k] != ',',
    ensures
        doc::trimmed_entries(text::split_of(pad + text::joined(tags, ", "@), ',')) == tags,
    decreases tags.len(),
{
    reveal_strlit(", ");
    let e = Seq::<char>::empty();
    let first = tags[0];
    let p = pad + first;
    assert(storable_value(tags[0]));
    assert forall|k: int| 0 <= k < p.len() implies #[trigger] p[k] != ',' by {
        if k >= pad.len() {
            assert(p[k] == first[k - pad.len()]);
        }
    }
    assert(text::trimmed(p) == first) by {
        assert(facts::all_white(pad));
        facts::lemma_trimmed_of(pad, first, e);
        assert(pad + first + e =~= p);
    }
    if tags.len() == 1 {
        lemma_split_cons(p, e);
        assert(pad + text::joined(tags, ", "@) =~= p);
        let n = Seq::<Seq<char>>::empty();
        assert(seq![p] + n =~= seq![p]);
        lemma_entries_cons(p, n);
        assert(doc::trimmed_entries(n) =~= n);
        assert(seq![first] + n =~= tags);
    } else {
        let rest = tags.skip(1);
        assert forall|i: int| 0 <= i < rest.len() implies storable_value(#[trigger] rest[i])
            && rest[i].len() > 0 && forall|k: int|
            0 <= k < rest[i].len() ==> #[trigger] rest[i][k] != ',' by {
            assert(rest[i] == tags[i + 1]);
        }
        lemma_tags_split(rest, seq![' ']);
        let b = seq![' '] + text::joined(rest, ", "@);
        assert(pad + text::joined(tags, ", "@) =~= p + seq![','] + b);
        lemma_split_cons(p, b);
        lemma_entries_cons(p, text::split_of(b, ','));
        assert(seq![first] + rest =~= tags);
    }
}

/// The tags line is read back.
proof fn lemma_tags(tags: Seq<Seq<char>>)
    requires
        storable_tags(tags),
    ensures
        doc::tags_of(text::trimmed(tags_rest(tags))) == tags,
{
    reveal_strlit(" [");
    reveal_strlit(" ");
    reveal_strlit("]");
    reveal_strlit(", ");
    let e = Seq::<char>::empty();
    let n = Seq::<Seq<char>>::empty();
    let j = text::joined(tags, ", "@);
    let v = seq!['['] + j + "]"@;
    assert(tags_rest(tags) =~= " "@ + v);
    assert(v[0] == '[');
    assert(v.last() == ']');
    lemma_value(v);
    if tags.len() == 0 {
        assert(j =~= e);
        assert(v.skip(1) =~= "]"@);
        assert(text::without_leading("]"@, '[') == "]"@);
        assert(text::without_leading(v, '[') == "]"@);
        assert("]"@.drop_last() =~= e);
        assert(text::without_trailing(e, ']') == e);
        assert(text::without_trailing("]"@, ']') == e);
        lemma_split_cons(e, e);
        facts::lemma_trimmed_snug(e);
        assert(seq![e] + n =~= seq![e]);
        lemma_entries_cons(e, n);
        assert(doc::trimmed_entries(n) =~= n);
        assert(doc::tags_of(v) =~= tags);
    } else {
        lemma_joined_ends(tags);
        assert(v.skip(1) =~= j + "]"@);
        assert((j + "]"@)[0] == j[0]);
        assert(text::without_leading(j + "]"@, '[') == j + "]"@);
        assert(text::without_leading(v, '[') == j + "]"@);
        assert((j + "]"@).drop_last() =~= j);
        assert(text::without_trailing(j, ']') == j);
        assert(text::without_trailing(j + "]"@, ']') == j);
        lemma_tags_split(tags, e);
        assert(e + j =~= j);
    }
}

/// Joined tags start with the first and end with the last.
proof fn lemma_joined_ends(tags: Seq<Seq<char>>)
    requires
        tags.len() > 0,
        forall|i: int| 0 <= i < tags.len() ==> (#[trigger] tags[i]).len() > 0,
    ensures
        text::joined(tags, ", "@).len() > 0,
        text::joined(tags, ", "@)[0] == tags[0][0],
        text::joined(tags, ", "@).last() == tags.last().last(),
    decreases tags.len(),
{
    let j = text::joined(tags, ", "@);
    assert(tags[0].len() > 0);
    if tags.len() > 1 {
        let rest = tags.skip(1);
        assert forall|i: int| 0 <= i < rest.len() implies (#[trigger] rest[i]).len() > 0 by {
            assert(rest[i] == tags[i + 1]);
        }
        lemma_joined_ends(rest);
        assert(rest.last() == tags.last());
        assert(j.last() == text::joined(rest, ", "@).last());
        assert(j[0] == tags[0][0]);
    }
}

// ---------------------------------------------------------------------------
// The whole
// ---------------------------------------------------------------------------

/// One more line of the known ones.
pub proof fn lemma_known_step(k: Seq<Seq<char>>, i: int)
    requires
        0 <= i < k.len(),
    ensures
        doc::front_of(k.take(i + 1)) == doc::with_line(doc::front_of(k.take(i)), k[i]),
{
    assert(k.take(i + 1).drop_last() =~= k.take(i));
    assert(k.take(i + 1).last() == k[i]);
}

/// The keys are told apart.
pub proof fn lemma_keys()
    ensures
        "id"@.len() == 2,
        "title"@.len() == 5,
        "status"@.len() == 6 && "status"@[1] == 't',
        "created_at"@.len() == 10 && "created_at"@[0] == 'c',
        "updated_at"@.len() == 10 && "updated_at"@[0] == 'u',
        "github_issue"@.len() == 12,
        "github_pr"@.len() == 9,
        "branch"@.len() == 6 && "branch"@[1] == 'r',
        "tags"@.len() == 4,
        "shared"@.len() == 6 && "shared"@[1] == 'h',
{
    reveal_strlit("id");
    reveal_strlit("title");
    reveal_strlit("status");
    reveal_strlit("created_at");
    reveal_strlit("updated_at");
    reveal_strlit("github_issue");
    reveal_strlit("github_pr");
    reveal_strlit("branch");
    reveal_strlit("tags");
    reveal_strlit("shared");
}

/// The known lines are read back.
proof fn lemma_known_lines(f: FrontmatterV)
    requires
        storable(f),
    ensures
        doc::front_of(known_lines(f)) == (FrontmatterV { extra: seq![], ..f }),
{
    let k = known_lines(f);
    reveal_strlit("id");
    reveal_strlit("title");
    reveal_strlit("status");
    reveal_strlit("created_at");
    reveal_strlit("updated_at");
    reveal_strlit("github_issue");
    reveal_strlit("github_pr");
    reveal_strlit("branch");
    reveal_strlit("tags");
    reveal_strlit("shared");
    lemma_key_line("id"@, " "@ + f.id);
    lemma_key_line("title"@, " "@ + f.title);
    lemma_key_line("status"@, " "@ + f.status);
    lemma_key_line("created_at"@, " "@ + f.created_at);
    lemma_key_line("updated_at"@, " "@ + f.updated_at);
    lemma_key_line("github_issue"@, optional_rest(doc::linked_text(f.github_issue)));
    lemma_key_line("github_pr"@, optional_rest(doc::linked_text(f.github_pr)));
    lemma_key_line("branch"@, optional_rest(f.branch));
    lemma_key_line("tags"@, tags_rest(f.tags));
    lemma_key_line("shared"@, shared_rest(f.shared));
    lemma_keys();
    lemma_value(f.id);
    lemma_value(f.title);
    lemma_value(f.status);
    lemma_value(f.created_at);
    lemma_value(f.updated_at);
    lemma_linked(f.github_issue);
    lemma_linked(f.github_pr);
    lemma_tags(f.tags);
    let e = Seq::<char>::empty();
    facts::lemma_trimmed_snug(e);
    match f.branch {
        Some(b) => {
            lemma_value(b);
        },
        None => {},
    }
    reveal_strlit("true");
    reveal_strlit("false");
    lemma_value("true"@);
    lemma_value("false"@);
    assert(k.take(0) =~= seq![]);
    let g0 = doc::empty_front();
    let g1 = FrontmatterV { id: f.id, ..g0 };
    let g2 = FrontmatterV { title: f.title, ..g1 };
    let g3 = FrontmatterV { status: f.status, ..g2 };
    let g4 = FrontmatterV { created_at: f.created_at, ..g3 };
    let g5 = FrontmatterV { updated_at: f.updated_at, ..g4 };
    let g6 = FrontmatterV { github_issue: f.github_issue, ..g5 };
    let g7 = FrontmatterV { github_pr: f.github_pr, ..g6 };
    let g8 = FrontmatterV { branch: f.branch, ..g7 };
    let g9 = FrontmatterV { tags: f.tags, ..g8 };
    let g10 = FrontmatterV { shared: f.shared, ..g9 };
    lemma_known_step(k, 0);
    assert(doc::front_of(k.take(1)) == g1);
    lemma_known_step(k, 1);
    assert(doc::front_of(k.take(2)) == g2);
    lemma_known_step(k, 2);
    assert(doc::front_of(k.take(3)) == g3);
    lemma_known_step(k, 3);
    assert(doc::front_of(k.take(4)) == g4);
    lemma_known_step(k, 4);
    assert(doc::front_of(k.take(5)) == g5);
    lemma_known_step(k, 5);
    assert(doc::front_of(k.take(6)) == g6);
    lemma_known_step(k, 6);
    assert(doc::front_of(k.take(7)) == g7);
    lemma_known_step(k, 7);
    assert(doc::front_of(k.take(8)) == g8);
    lemma_known_step(k, 8);
    assert(doc::front_of(k.take(9)) == g9);
    lemma_known_step(k, 9);
    assert(doc::front_of(k.take(10)) == g10);
    assert(k.take(10) =~= k);
    assert(g10 =~= FrontmatterV { extra: seq![], ..f });
}

/// Lines that are kept are kept in order.
proof fn lemma_extra_lines(f: FrontmatterV, n: int)
    requires
        storable(f),
        0 <= n <= f.extra.len(),
    ensures
        doc::front_of(known_lines(f) + f.extra.take(n)) == (FrontmatterV {
            extra: f.extra.take(n),
            ..f
        }),
    decreases n,
{
    let k = known_lines(f);
    if n == 0 {
        lemma_known_lines(f);
        assert(f.extra.take(0) =~= seq![]);
        assert(k + f.extra.take(0) =~= k);
    } else {
        lemma_extra_lines(f, n - 1);
        let ls = k + f.extra.take(n);
        assert(ls.drop_last() =~= k + f.extra.take(n - 1));
        let line = f.extra[n - 1];
        assert(ls.last() == line);
        assert(storable_extra(f.extra[n - 1]));
        assert(f.extra.take(n) =~= f.extra.take(n - 1).push(line));
    }
}

/// A key line with a value is settled.
proof fn lemma_key_line_settled(key: Seq<char>, rest: Seq<char>)
    requires
        facts::one_line(key),
        facts::settled_line(rest),
    ensures
        facts::settled_line(key_line(key, rest)),
{
    reveal_strlit(":");
    let line = key_line(key, rest);
    assert forall|i: int| 0 <= i < line.len() implies #[trigger] line[i] != '\n' by {
        if i < key.len() {
            assert(line[i] == key[i]);
        } else if i > key.len() {
            assert(line[i] == rest[i - key.len() - 1]);
        }
    }
    if rest.len() > 0 {
        assert(line.last() == rest.last());
    }
}

/// A value behind a blank is settled.
proof fn lemma_value_settled(v: Seq<char>)
    requires
        storable_value(v),
    ensures
        facts::settled_line(" "@ + v),
{
    reveal_strlit(" ");
    let line = " "@ + v;
    assert forall|i: int| 0 <= i < line.len() implies #[trigger] line[i] != '\n' by {
        if i > 0 {
            assert(line[i] == v[i - 1]);
        }
    }
    if v.len() > 0 {
        assert(line.last() == v.last());
    }
}

/// Joined tags are one line.
pub proof fn lemma_joined_tags_one_line(tags: Seq<Seq<char>>)
    requires
        forall|i: int| 0 <= i < tags.len() ==> facts::one_line(#[trigger] tags[i]),
    ensures
        facts::one_line(text::joined(tags, ", "@)),
    decreases tags.len(),
{
    reveal_strlit(", ");
    let j = text::joined(tags, ", "@);
    if tags.len() > 0 {
        assert(facts::one_line(tags[0]));
        if tags.len() > 1 {
            let rest = tags.skip(1);
            assert forall|i: int| 0 <= i < rest.len() implies facts::one_line(
                #[trigger] rest[i],
            ) by {
                assert(rest[i] == tags[i + 1]);
            }
            lemma_joined_tags_one_line(rest);
            let r = text::joined(rest, ", "@);
            let n = tags[0].len() as int;
            assert forall|i: int| 0 <= i < j.len() implies #[trigger] j[i] != '\n' by {
                if i < n {
                    assert(j[i] == tags[0][i]);
                } else if i >= n + 2 {
                    assert(j[i] == r[i - n - 2]);
                }
            }
        }
    }
}

/// The frontmatter lines are settled, and none is a frontmatter boundary.
proof fn lemma_front_lines(f: FrontmatterV)
    requires
        storable(f),
    ensures
        facts::settled(front_lines(f)),
        forall|i: int| 0 <= i < front_lines(f).len() ==> #[trigger] front_lines(f)[i] != "---"@,
        front_lines(f).last().len() > 0,
        front_lines(f).len() >= 10,
{
    let k = known_lines(f);
    let ls = front_lines(f);
    reveal_strlit("id");
    reveal_strlit("title");
    reveal_strlit("status");
    reveal_strlit("created_at");
    reveal_strlit("updated_at");
    reveal_strlit("github_issue");
    reveal_strlit("github_pr");
    reveal_strlit("branch");
    reveal_strlit("tags");
    reveal_strlit("shared");
    reveal_strlit("true");
    reveal_strlit("false");
    reveal_strlit("---");
    reveal_strlit(" [");
    reveal_strlit("]");
    let e = Seq::<char>::empty();
    assert(facts::settled_line(e));
    lemma_value_settled(f.id);
    lemma_key_line_settled("id"@, " "@ + f.id);
    lemma_value_settled(f.title);
    lemma_key_line_settled("title"@, " "@ + f.title);
    lemma_value_settled(f.status);
    lemma_key_line_settled("status"@, " "@ + f.status);
    lemma_value_settled(f.created_at);
    lemma_key_line_settled("created_at"@, " "@ + f.created_at);
    lemma_value_settled(f.updated_at);
    lemma_key_line_settled("updated_at"@, " "@ + f.updated_at);
    lemma_linked_settled(f.github_issue);
    lemma_key_line_settled("github_issue"@, optional_rest(doc::linked_text(f.github_issue)));
    lemma_linked_settled(f.github_pr);
    lemma_key_line_settled("github_pr"@, optional_rest(doc::linked_text(f.github_pr)));
    match f.branch {
        Some(b) => {
            lemma_value_settled(b);
        },
        None => {},
    }
    lemma_key_line_settled("branch"@, optional_rest(f.branch));
    assert forall|i: int| 0 <= i < f.tags.len() implies facts::one_line(#[trigger] f.tags[i]) by {
        assert(storable_value(f.tags[i]));
    }
    lemma_joined_tags_one_line(f.tags);
    let tr = tags_rest(f.tags);
    let j = text::joined(f.tags, ", "@);
    assert forall|i: int| 0 <= i < tr.len() implies #[trigger] tr[i] != '\n' by {
        if 2 <= i < 2 + j.len() {
            assert(tr[i] == j[i - 2]);
        }
    }
    assert(tr.last() == ']');
    lemma_key_line_settled("tags"@, tr);
    lemma_value_settled("true"@);
    lemma_value_settled("false"@);
    lemma_key_line_settled("shared"@, shared_rest(f.shared));
    assert forall|i: int| 0 <= i < ls.len() implies facts::settled_line(#[trigger] ls[i]) && ls[i]
        != "---"@ by {
        if i < 10 {
            assert(ls[i] == k[i]);
            assert(k[i][0] != '-');
        } else {
            assert(ls[i] == f.extra[i - 10]);
            assert(storable_extra(f.extra[i - 10]));
        }
    }
    if f.extra.len() > 0 {
        let x = f.extra.last();
        assert(x == f.extra[f.extra.len() - 1]);
        assert(storable_extra(f.extra[f.extra.len() - 1]));
        facts::lemma_trimmed_is_snug(x);
        assert(ls.last() == x);
    } else {
        assert(ls.last() == k[9]);
    }
}

proof fn lemma_linked_settled(n: Option<u64>)
    ensures
        facts::settled_line(optional_rest(doc::linked_text(n))),
{
    match n {
        Some(n) => {
            let d = text::decimal(n as nat);
            text::lemma_decimal(n as nat);
            assert(text::is_digit(d[0]));
            assert(text::is_digit(d[d.len() - 1]));
            assert forall|i: int| 0 <= i < d.len() implies #[trigger] d[i] != '\n' by {
                assert(text::is_digit(d[i]));
            }
            lemma_value_settled(d);
        },
        None => {},
    }
}

/// The end of the frontmatter is the first boundary line.
#[verifier::rlimit(60)]
#[verifier::spinoff_prover]
proof fn lemma_front_end(ls: Seq<Seq<char>>, tail: Seq<char>)
    requires
        ls.len() > 0,
        facts::settled(ls),
        forall|i: int| 0 <= i < ls.len() ==> #[trigger] ls[i] != "---"@,
    ensures
        text::position(text::joined(ls, "\n"@) + "\n---\n"@ + tail, "\n---\n"@) == Some(
            text::joined(ls, "\n"@).len() as int,
        ),
{
    reveal_strlit("\n---\n");
    reveal_strlit("---");
    facts::lemma_feed();
    let f0 = text::joined(ls, "\n"@);
    let m = "\n---\n"@;
    let s = f0 + m + tail;
    let n = f0.len() as int;
    assert(s.subrange(n, n + 5) =~= m);
    assert forall|j: int| 0 <= j < n implies !#[trigger] text::occurs_at(s, m, j) by {
        if text::occurs_at(s, m, j) {
            let w = s.subrange(j, j + 5);
            assert(w[0] == s[j] && w[1] == s[j + 1] && w[2] == s[j + 2] && w[3] == s[j + 3] && w[4]
                == s[j + 4]);
            assert(s[n] == '\n');
            assert(j + 4 <= n);
            // a boundary line among the lines
            let d = items::document(ls);
            facts::lemma_lines_document(ls);
            assert(d =~= s.take(n + 1));
            let x = d.take(j) + "\n"@;
            let y = d.skip(j + 5);
            assert(d =~= x + ("---"@ + "\n"@ + y)) by {
                assert forall|i: int| 0 <= i < d.len() implies d[i] == (x + ("---"@ + "\n"@
                    + y))[i] by {
                    assert(d[i] == s[i]);
                }
            }
            assert(x.last() == '\n');
            facts::lemma_lines_append(x, "---"@ + "\n"@ + y);
            facts::lemma_lines_cons("---"@, y);
            let k = text::lines_of(x).len() as int;
            assert(text::lines_of(d)[k] == "---"@);
        }
    }
    facts::lemma_position_is(s, m, n);
}

/// Reading what was written gives back the frontmatter, and the body without
/// leading line feeds and with one at its end.
pub proof fn law_document_reads_back(d: TaskDocV)
    requires
        storable(d.front),
    ensures
        doc::parsed(doc::serialized(d)) == Ok::<TaskDocV, doc::DocError>(
            TaskDocV {
                front: d.front,
                body: text::without_leading(text::without_trailing(d.body, '\n') + "\n"@, '\n'),
            },
        ),
{
    let f = d.front;
    let ls = front_lines(f);
    let b = text::without_trailing(d.body, '\n');
    facts::lemma_feed();
    lemma_front_text(f);
    lemma_front_lines(f);
    lemma_with_feeds(ls);
    let f0 = text::joined(ls, "\n"@);
    let s = doc::serialized(d);
    reveal_strlit("---\n\n");
    reveal_strlit("\n---\n");
    let tail = "\n"@ + b + "\n"@;
    let rest = f0 + "\n---\n"@ + tail;
    assert("\n"@ + "---\n\n"@ =~= "\n---\n"@ + "\n"@);
    assert(s =~= "---\n"@ + rest);
    facts::lemma_begins("---\n"@, rest);
    lemma_front_end(ls, tail);
    assert(rest.take(f0.len() as int) =~= f0);
    assert(rest.skip(f0.len() as int + 5) =~= tail);
    facts::lemma_lines_joined(ls);
    lemma_extra_lines(f, f.extra.len() as int);
    assert(f.extra.take(f.extra.len() as int) =~= f.extra);
    assert(tail =~= "\n"@ + (b + "\n"@));
    assert(tail[0] == '\n');
    assert(tail.skip(1) =~= b + "\n"@);
}

/// A text without trailing `c`s has none to lose.
proof fn lemma_without_trailing(s: Seq<char>, c: char)
    ensures
        text::without_trailing(s, c).len() > 0 ==> text::without_trailing(s, c).last() != c,
        text::without_trailing(text::without_trailing(s, c), c) == text::without_trailing(s, c),
    decreases s.len(),
{
    if s.len() > 0 && s.last() == c {
        lemma_without_trailing(s.drop_last(), c);
    }
}

/// Writing what was read gives back what was written, where the body does not
/// start with a line feed.
pub proof fn law_document_is_stable(d: TaskDocV)
    requires
        storable(d.front),
        text::without_trailing(d.body, '\n').len() > 0 ==> text::without_trailing(
            d.body,
            '\n',
        )[0] != '\n',
    ensures
        doc::parsed(doc::serialized(d)) is Ok,
        doc::serialized(doc::parsed(doc::serialized(d))->Ok_0) == doc::serialized(d),
{
    law_document_reads_back(d);
    facts::lemma_feed();
    let b = text::without_trailing(d.body, '\n');
    lemma_without_trailing(d.body, '\n');
    let r = text::without_leading(b + "\n"@, '\n');
    if b.len() > 0 {
        assert((b + "\n"@)[0] == b[0]);
        assert(r == b + "\n"@);
        assert((b + "\n"@).drop_last() =~= b);
        assert(text::without_trailing(r, '\n') == b);
    } else {
        let e = Seq::<char>::empty();
        assert(b + "\n"@ =~= seq!['\n']);
        assert((b + "\n"@).skip(1) =~= e);
        assert(text::without_leading(e, '\n') == e);
        assert(r == e);
        assert(text::without_trailing(r, '\n') =~= b);
    }
}

/// A document stays storable when its time of change is set.
pub proof fn law_touch_keeps_a_document_storable(d: TaskDocV, now: Seq<char>)
    requires
        storable(d.front),
        crate::util::is_time(now),
    ensures
        storable(doc::touched(d, now).front),
{
    assert(crate::util::is_time_char(now[0]));
    assert(crate::util::is_time_char(now[now.len() - 1]));
    assert forall|i: int| 0 <= i < now.len() implies #[trigger] now[i] != '\n' by {
        assert(crate::util::is_time_char(now[i]));
    }
    assert(storable_value(now));
}

} // verus!
