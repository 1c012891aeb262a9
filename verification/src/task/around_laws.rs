//! Laws of the text around a managed block: what people wrote there stays, line by
//! line, when the block is written.
use crate::facts;
use crate::task::block_laws;
use crate::task::doc::TaskDocV;
use crate::task::log_laws;
use crate::task::managed;
use crate::task::sections;
use crate::text;
use vstd::prelude::*;

verus! {

/// What lines say: the lines that are not blank, without white space around them, in
/// order.
pub open spec fn said(ls: Seq<Seq<char>>) -> Seq<Seq<char>>
    decreases ls.len(),
{
    if ls.len() == 0 {
        seq![]
    } else {
        let rest = said(ls.skip(1));
        if text::trimmed(ls[0]).len() == 0 {
            rest
        } else {
            seq![text::trimmed(ls[0])] + rest
        }
    }
}

/// What a text says, line by line.
pub open spec fn said_in(s: Seq<char>) -> Seq<Seq<char>> {
    said(text::lines_of(s))
}

/// What two lists of lines say together.
pub proof fn lemma_said_concat(a: Seq<Seq<char>>, b: Seq<Seq<char>>)
    ensures
        said(a + b) == said(a) + said(b),
    decreases a.len(),
{
    if a.len() == 0 {
        assert(a + b =~= b);
        assert(said(a) + said(b) =~= said(b));
    } else {
        assert((a + b).skip(1) =~= a.skip(1) + b);
        lemma_said_concat(a.skip(1), b);
        assert((a + b)[0] == a[0]);
        assert(said(a + b) =~= said(a) + said(b));
    }
}

/// Carriage returns at the ends of lines say nothing.
proof fn lemma_said_dry(ls: Seq<Seq<char>>)
    ensures
        said(facts::dry(ls)) == said(ls),
    decreases ls.len(),
{
    if ls.len() > 0 {
        assert(facts::dry(ls).skip(1) =~= facts::dry(ls.skip(1)));
        lemma_said_dry(ls.skip(1));
        facts::lemma_trimmed_without_cr(ls[0]);
    }
}

/// What a text says that starts with a line.
proof fn lemma_said_cons(a: Seq<char>, b: Seq<char>)
    requires
        facts::one_line(a),
    ensures
        said_in(a + "\n"@ + b) == if text::trimmed(a).len() == 0 {
            said_in(b)
        } else {
            seq![text::trimmed(a)] + said_in(b)
        },
{
    facts::lemma_lines_cons(a, b);
    facts::lemma_trimmed_without_cr(a);
    let ls = text::lines_of(a + "\n"@ + b);
    assert(ls.skip(1) =~= text::lines_of(b));
    assert(ls[0] == text::without_cr(a));
}

/// What a text of one line says.
proof fn lemma_said_single(a: Seq<char>)
    requires
        facts::one_line(a),
    ensures
        said_in(a) == if text::trimmed(a).len() == 0 {
            Seq::<Seq<char>>::empty()
        } else {
            seq![text::trimmed(a)]
        },
{
    facts::lemma_lines_single(a);
    facts::lemma_trimmed_is_snug(a);
    let ls = text::lines_of(a);
    if a.len() > 0 {
        assert(ls.skip(1) =~= seq![]);
        assert(said(ls.skip(1)) =~= seq![]);
        assert(said_in(a) =~= if text::trimmed(a).len() == 0 {
            Seq::<Seq<char>>::empty()
        } else {
            seq![text::trimmed(a)]
        });
    }
}

/// White space in front of a text says nothing.
proof fn lemma_said_behind_white(w: Seq<char>, s: Seq<char>)
    requires
        facts::all_white(w),
    ensures
        said_in(w + s) == said_in(s),
    decreases w.len(),
{
    let e = Seq::<char>::empty();
    facts::lemma_feed();
    if !facts::one_line(w) {
        let (a, b) = facts::lemma_split_feed(w);
        assert forall|i: int| 0 <= i < a.len() implies text::is_white(#[trigger] a[i]) by {
            assert(a[i] == w[i]);
        }
        assert forall|i: int| 0 <= i < b.len() implies text::is_white(#[trigger] b[i]) by {
            assert(b[i] == w[i + a.len() + 1]);
        }
        facts::lemma_trimmed_of(a, e, e);
        assert(a + e + e =~= a);
        assert(w + s =~= a + "\n"@ + (b + s));
        lemma_said_cons(a, b + s);
        lemma_said_behind_white(b, s);
    } else if facts::one_line(s) {
        assert forall|i: int| 0 <= i < (w + s).len() implies #[trigger] (w + s)[i] != '\n' by {
            if i >= w.len() {
                assert((w + s)[i] == s[i - w.len()]);
            }
        }
        lemma_said_single(w + s);
        lemma_said_single(s);
        facts::lemma_trimmed_pad(w, s, e);
        assert(w + s + e =~= w + s);
    } else {
        let (a, b) = facts::lemma_split_feed(s);
        assert forall|i: int| 0 <= i < (w + a).len() implies #[trigger] (w + a)[i] != '\n' by {
            if i >= w.len() {
                assert((w + a)[i] == a[i - w.len()]);
            }
        }
        assert(w + s =~= (w + a) + "\n"@ + b);
        lemma_said_cons(w + a, b);
        lemma_said_cons(a, b);
        facts::lemma_trimmed_pad(w, a, e);
        assert(w + a + e =~= w + a);
    }
}

/// White space says nothing.
proof fn lemma_white_says_nothing(w: Seq<char>)
    requires
        facts::all_white(w),
    ensures
        said_in(w) == Seq::<Seq<char>>::empty(),
{
    let e = Seq::<char>::empty();
    lemma_said_behind_white(w, e);
    assert(w + e =~= w);
    facts::lemma_lines_single(e);
}

/// White space behind a text says nothing.
pub proof fn lemma_said_before_white(s: Seq<char>, w: Seq<char>)
    requires
        facts::all_white(w),
    ensures
        said_in(s + w) == said_in(s),
    decreases s.len(),
{
    let e = Seq::<char>::empty();
    facts::lemma_feed();
    if !facts::one_line(s) {
        let (a, b) = facts::lemma_split_feed(s);
        assert(s + w =~= a + "\n"@ + (b + w));
        lemma_said_cons(a, b + w);
        lemma_said_cons(a, b);
        lemma_said_before_white(b, w);
    } else if facts::one_line(w) {
        assert forall|i: int| 0 <= i < (s + w).len() implies #[trigger] (s + w)[i] != '\n' by {
            if i >= s.len() {
                assert((s + w)[i] == w[i - s.len()]);
            }
        }
        lemma_said_single(s + w);
        lemma_said_single(s);
        facts::lemma_trimmed_pad(e, s, w);
        assert(e + s + w =~= s + w);
    } else {
        let (a, b) = facts::lemma_split_feed(w);
        assert forall|i: int| 0 <= i < a.len() implies text::is_white(#[trigger] a[i]) by {
            assert(a[i] == w[i]);
        }
        assert forall|i: int| 0 <= i < b.len() implies text::is_white(#[trigger] b[i]) by {
            assert(b[i] == w[i + a.len() + 1]);
        }
        assert forall|i: int| 0 <= i < (s + a).len() implies #[trigger] (s + a)[i] != '\n' by {
            if i >= s.len() {
                assert((s + a)[i] == a[i - s.len()]);
            }
        }
        assert(s + w =~= (s + a) + "\n"@ + b);
        lemma_said_cons(s + a, b);
        lemma_white_says_nothing(b);
        lemma_said_single(s);
        facts::lemma_trimmed_pad(e, s, a);
        assert(e + s + a =~= s + a);
        assert(seq![text::trimmed(s)] + Seq::<Seq<char>>::empty() =~= seq![text::trimmed(s)]);
    }
}

/// Trimming a text keeps what it says.
pub proof fn lemma_said_trimmed(s: Seq<char>)
    ensures
        said_in(text::trimmed(s)) == said_in(s),
{
    let (a, b) = facts::lemma_trimmed_parts(s);
    lemma_said_behind_white(a, text::trimmed(s) + b);
    lemma_said_before_white(text::trimmed(s), b);
    assert(a + (text::trimmed(s) + b) =~= s);
}

/// Joined lines say what the lines say.
pub proof fn lemma_said_joined(ls: Seq<Seq<char>>)
    requires
        facts::all_one_line(ls),
    ensures
        said_in(text::joined(ls, "\n"@)) == said(ls),
{
    facts::lemma_feed();
    if ls.len() == 0 {
        facts::lemma_lines_single(Seq::<char>::empty());
        assert(text::joined(ls, "\n"@) =~= seq![]);
    } else {
        facts::lemma_lines_written(ls);
        lemma_said_dry(ls);
        assert(facts::all_white("\n"@));
        lemma_said_before_white(text::joined(ls, "\n"@), "\n"@);
    }
}

/// What two texts say that a line feed parts.
proof fn lemma_said_parts(a: Seq<char>, b: Seq<char>)
    ensures
        said_in(a + "\n\n"@ + b) == said_in(a) + said_in(b),
{
    facts::lemma_feed();
    reveal_strlit("\n\n");
    let x = a + "\n\n"@;
    assert(x.last() == '\n');
    facts::lemma_lines_append(x, b);
    assert(facts::all_white("\n\n"@));
    lemma_said_before_white(a, "\n\n"@);
    lemma_said_concat(text::lines_of(x), text::lines_of(b));
}

/// The lines of a text hold a block from line `b` to line `e`: the first line that
/// opens one, and the first line behind it that closes it.
pub open spec fn block_at(remote: Seq<char>, b: int, e: int) -> bool {
    let ls = text::lines_of(remote);
    &&& 0 <= b < e < ls.len()
    &&& text::begins(text::trimmed(ls[b]), "<!-- rein:begin"@)
    &&& text::trimmed(ls[e]) == "<!-- rein:end -->"@
    &&& forall|i: int|
        0 <= i < b ==> !text::begins(text::trimmed(#[trigger] ls[i]), "<!-- rein:begin"@)
    &&& forall|i: int|
        b < i < e ==> text::trimmed(#[trigger] ls[i]) != "<!-- rein:end -->"@
}

/// A text holds no block: no line opens one that a later line closes.
pub open spec fn unmarked(remote: Seq<char>) -> bool {
    forall|b: int, e: int| !#[trigger] block_at(remote, b, e)
}

/// A text is a remote body whose block was replaced, or to which one was added: every
/// line outside the markers is there, in order, those in front of the block in front of
/// the new one, and those behind it behind.
pub open spec fn keeps_around(remote: Seq<char>, block: Seq<char>, body: Seq<char>) -> bool {
    let ls = text::lines_of(remote);
    &&& forall|b: int, e: int| #[trigger]
        block_at(remote, b, e) ==> said_in(body) == said(ls.take(b)) + said_in(block) + said(
            ls.skip(e + 1),
        )
    &&& unmarked(remote) ==> said_in(body) == said(ls) + said_in(block) && text::begins(
        body,
        text::trimmed_end(remote),
    )
}

/// Where the markers of a block stand.
pub proof fn lemma_block_at(remote: Seq<char>, b: int, e: int)
    requires
        block_at(remote, b, e),
    ensures
        managed::block_range(text::lines_of(remote)) == Some((b, e)),
{
    let ls = text::lines_of(remote);
    block_laws::lemma_begin_from(ls, 0);
    let k = managed::begin_from(ls, 0)->0;
    assert(managed::is_begin(ls[b]));
    assert(k == b) by {
        if k < b {
            assert(managed::is_begin(ls[k]));
        }
    }
    managed::lemma_begin_is_not_end(ls[b]);
    block_laws::lemma_end_from(ls, b);
    let z = managed::end_from(ls, b)->0;
    assert(managed::is_end(ls[e]));
    assert(z == e) by {
        if z < e {
            assert(managed::is_end(ls[z]));
        }
    }
}

/// A text without a block has no range of one.
pub proof fn lemma_unmarked(remote: Seq<char>)
    requires
        unmarked(remote),
    ensures
        managed::block_range(text::lines_of(remote)) is None,
{
    let ls = text::lines_of(remote);
    block_laws::lemma_begin_from(ls, 0);
    if let Some(b) = managed::begin_from(ls, 0) {
        managed::lemma_begin_is_not_end(ls[b]);
        block_laws::lemma_end_from(ls, b);
        if let Some(e) = managed::end_from(ls, b) {
            assert forall|i: int| 0 <= i < b implies !text::begins(
                text::trimmed(#[trigger] ls[i]),
                "<!-- rein:begin"@,
            ) by {
                assert(!managed::is_begin(ls[i]));
            }
            assert forall|i: int| b < i < e implies text::trimmed(#[trigger] ls[i])
                != "<!-- rein:end -->"@ by {
                assert(!managed::is_end(ls[i]));
            }
            assert(block_at(remote, b, e));
        }
    }
}

/// Writing a block into a remote body keeps what people wrote around it: every line
/// outside the markers, in order, on the side of the block on which it stood. A body
/// without markers is kept whole in front of the block.
pub proof fn law_text_around_a_block_is_kept(remote: Seq<char>, block: Seq<char>)
    ensures
        keeps_around(remote, block, managed::with_block(remote, block)),
{
    facts::lemma_feed();
    let ls = text::lines_of(remote);
    let body = managed::with_block(remote, block);
    facts::lemma_lines_have_no_feed(remote);
    facts::lemma_lines_have_no_feed(block);
    assert(facts::all_white("\n"@));
    assert forall|b: int, e: int| #[trigger] block_at(remote, b, e) implies said_in(body) == said(
        ls.take(b),
    ) + said_in(block) + said(ls.skip(e + 1)) by {
        lemma_block_at(remote, b, e);
        let bl = text::lines_of(block);
        let all = ls.take(b) + bl + ls.skip(e + 1);
        assert forall|i: int| 0 <= i < all.len() implies facts::one_line(#[trigger] all[i]) by {
            if i < b {
                assert(all[i] == ls[i]);
            } else if i < b + bl.len() {
                assert(all[i] == bl[i - b]);
            } else {
                assert(all[i] == ls[i - b - bl.len() + e + 1]);
            }
        }
        lemma_said_joined(all);
        lemma_said_trimmed(text::joined(all, "\n"@));
        lemma_said_before_white(text::trimmed(text::joined(all, "\n"@)), "\n"@);
        lemma_said_concat(ls.take(b) + bl, ls.skip(e + 1));
        lemma_said_concat(ls.take(b), bl);
    }
    if unmarked(remote) {
        lemma_unmarked(remote);
        lemma_said_trimmed(remote);
        lemma_said_trimmed(block);
        let t = text::trimmed(block);
        if text::trimmed(remote).len() == 0 {
            lemma_said_before_white(t, "\n"@);
            facts::lemma_lines_single(Seq::<char>::empty());
            assert(text::trimmed(remote) =~= seq![]);
            assert(said(ls) =~= seq![]);
            assert(said(ls) + said_in(block) =~= said_in(block));
            facts::lemma_trimmed_of_trimmed_end(remote);
            facts::lemma_trimmed_end(remote);
            let x = text::trimmed_end(remote);
            assert(x.len() == 0) by {
                if x.len() > 0 {
                    lemma_visible_is_kept(x);
                }
            }
            assert(body.subrange(0, 0) =~= x);
        } else {
            let x = text::trimmed_end(remote);
            facts::lemma_trimmed_of_trimmed_end(remote);
            lemma_said_before_white(x, remote.skip(x.len() as int));
            lemma_said_before_white(x + "\n\n"@ + t, "\n"@);
            lemma_said_parts(x, t);
            assert(body.subrange(0, x.len() as int) =~= x);
        }
    }
}

/// A text that ends in a visible character is not blank.
proof fn lemma_visible_is_kept(x: Seq<char>)
    requires
        x.len() > 0,
        !text::is_white(x.last()),
    ensures
        text::trimmed(x).len() > 0,
{
    let (a, b) = facts::lemma_trimmed_parts(x);
    if text::trimmed(x).len() == 0 {
        assert(x =~= a + b);
        if b.len() > 0 {
            assert(x.last() == b[b.len() - 1]);
        } else {
            assert(x.last() == a[a.len() - 1]);
        }
    }
}

/// Writing the block of a task into a body that holds one leaves the text around it as it
/// is, down to the indents: only white space at the very start and the very end goes, and
/// every line ends in a line feed.
pub proof fn law_text_around_a_block_is_kept_exactly(
    remote: Seq<char>,
    b: int,
    e: int,
    id: Seq<char>,
    inner: Seq<char>,
)
    requires
        block_at(remote, b, e),
        block_laws::fits_block(id, inner),
    ensures
        ({
            let ls = text::lines_of(remote);
            let before = if b == 0 {
                seq![]
            } else {
                text::joined(ls.take(b), "\n"@) + "\n"@
            };
            let behind = if e + 1 == ls.len() {
                seq![]
            } else {
                "\n"@ + text::joined(ls.skip(e + 1), "\n"@)
            };
            managed::with_block(remote, managed::wrapped(id, inner)) == text::trimmed_start(before)
                + managed::wrapped(id, inner) + text::trimmed_end(behind) + "\n"@
        }),
{
    let ls = text::lines_of(remote);
    lemma_block_at(remote, b, e);
    facts::lemma_lines_have_no_feed(remote);
    block_laws::lemma_block(id, inner);
    block_laws::lemma_outer_lines(ls, b, e);
    block_laws::lemma_with_block_shape(ls.take(b), id, inner, ls.skip(e + 1));
}

// ---------------------------------------------------------------------------
// What a block carries
// ---------------------------------------------------------------------------

/// The lines of a text hold a section from line `start` up to line `end`: the first line
/// that is the heading, and the first line behind it that starts another section.
pub open spec fn section_at(body: Seq<char>, heading: Seq<char>, start: int, end: int) -> bool {
    let ls = text::lines_of(body);
    &&& 0 <= start < end <= ls.len()
    &&& text::trimmed(ls[start]) == heading
    &&& forall|i: int| 0 <= i < start ==> text::trimmed(#[trigger] ls[i]) != heading
    &&& end < ls.len() ==> text::begins(ls[end], "## "@)
    &&& forall|i: int| start < i < end ==> !text::begins(#[trigger] ls[i], "## "@)
}

/// No line of a text is the heading.
pub open spec fn without_section(body: Seq<char>, heading: Seq<char>) -> bool {
    let ls = text::lines_of(body);
    forall|i: int| 0 <= i < ls.len() ==> text::trimmed(#[trigger] ls[i]) != heading
}

/// Where a section stands.
pub proof fn lemma_section_at(body: Seq<char>, heading: Seq<char>, start: int, end: int)
    requires
        section_at(body, heading, start, end),
    ensures
        sections::section(text::lines_of(body), heading) == Some((start, end)),
{
    let ls = text::lines_of(body);
    log_laws::lemma_heading_is(ls, heading, start);
    log_laws::lemma_next_section_is(ls, start + 1, end);
}

/// What is shared of a document is all of it but its Agent Log.
pub proof fn law_only_the_log_is_held_back(body: Seq<char>, start: int, end: int)
    ensures
        section_at(body, "## Agent Log"@, start, end) ==> said_in(sections::shareable(body))
            == said(text::lines_of(body).take(start)) + said(text::lines_of(body).skip(end)),
        without_section(body, "## Agent Log"@) ==> said_in(sections::shareable(body)) == said_in(
            body,
        ),
{
    let ls = text::lines_of(body);
    facts::lemma_lines_have_no_feed(body);
    if section_at(body, "## Agent Log"@, start, end) {
        lemma_section_at(body, "## Agent Log"@, start, end);
        let kept = ls.take(start) + ls.skip(end);
        assert forall|i: int| 0 <= i < kept.len() implies facts::one_line(#[trigger] kept[i]) by {
            if i < start {
                assert(kept[i] == ls[i]);
            } else {
                assert(kept[i] == ls[i - start + end]);
            }
        }
        lemma_said_joined(kept);
        lemma_said_trimmed(text::joined(kept, "\n"@));
        lemma_said_concat(ls.take(start), ls.skip(end));
    }
    if without_section(body, "## Agent Log"@) {
        sections::lemma_section(ls, "## Agent Log"@);
        lemma_said_trimmed(body);
    }
}

/// What a wrapped text says: its markers, and between them what the text says.
proof fn lemma_said_wrapped(id: Seq<char>, inner: Seq<char>)
    requires
        facts::one_line(id),
    ensures
        said_in(managed::wrapped(id, inner)) == seq!["<!-- rein:begin "@ + id + " -->"@] + said_in(
            inner,
        ) + seq!["<!-- rein:end -->"@],
{
    reveal_strlit("<!-- rein:begin ");
    reveal_strlit(" -->");
    reveal_strlit(" -->\n\n");
    reveal_strlit("\n\n");
    reveal_strlit("\n\n<!-- rein:end -->");
    reveal_strlit("<!-- rein:end -->");
    let b = "<!-- rein:begin "@ + id + " -->"@;
    let z = "<!-- rein:end -->"@;
    let t = text::trimmed(inner);
    assert forall|i: int| 0 <= i < b.len() implies #[trigger] b[i] != '\n' by {
        if 16 <= i < 16 + id.len() {
            assert(b[i] == id[i - 16]);
        }
    }
    assert(managed::wrapped(id, inner) =~= b + "\n\n"@ + (t + "\n\n"@ + z));
    lemma_said_parts(b, t + "\n\n"@ + z);
    lemma_said_parts(t, z);
    lemma_said_single(b);
    lemma_said_single(z);
    facts::lemma_trimmed_snug(b);
    facts::lemma_trimmed_snug(z);
    lemma_said_trimmed(inner);
    assert(said_in(managed::wrapped(id, inner)) =~= seq![b] + said_in(inner) + seq![z]);
}

/// What a task shows in its issue: between the markers that name it, everything that it
/// shares, in order, and nothing else.
pub proof fn law_an_issue_shows_what_is_shared(d: TaskDocV)
    requires
        facts::one_line(d.front.id),
    ensures
        said_in(managed::issue_block(d)) == seq!["<!-- rein:begin "@ + d.front.id + " -->"@]
            + said_in(sections::shareable(d.body)) + seq!["<!-- rein:end -->"@],
{
    lemma_said_wrapped(d.front.id, sections::shareable(d.body));
}

/// What a task shows in its pull request: what it shares, and behind that its log, folded
/// up, without the mark of an empty one.
pub proof fn law_a_pull_request_shows_the_log_too(d: TaskDocV, log: Seq<char>)
    requires
        facts::one_line(d.front.id),
    ensures
        sections::content_of(d.body, "## Agent Log"@) == Some(log) && text::trimmed(log).len() > 0
            && text::trimmed(log) != "<!-- append-only -->"@ ==> said_in(managed::pr_block(d))
            == seq!["<!-- rein:begin "@ + d.front.id + " -->"@] + said_in(
            sections::shareable(d.body),
        ) + seq!["<details>"@, "<summary>Agent Log</summary>"@] + said_in(
            text::replaced(text::trimmed(log), "<!-- append-only -->"@, ""@),
        ) + seq!["</details>"@, "<!-- rein:end -->"@],
        sections::content_of(d.body, "## Agent Log"@) == Some(log) && (text::trimmed(log).len()
            == 0 || text::trimmed(log) == "<!-- append-only -->"@) || sections::content_of(
            d.body,
            "## Agent Log"@,
        ) is None ==> said_in(managed::pr_block(d)) == said_in(managed::issue_block(d)),
{
    let share = sections::shareable(d.body);
    let inner = share + managed::folded_log(d.body);
    lemma_said_wrapped(d.front.id, inner);
    lemma_said_wrapped(d.front.id, share);
    assert(share + Seq::<char>::empty() =~= share);
    if sections::content_of(d.body, "## Agent Log"@) == Some(log) && text::trimmed(log).len() > 0
        && text::trimmed(log) != "<!-- append-only -->"@ {
        reveal_strlit("\n\n");
        reveal_strlit("\n");
        reveal_strlit("\n\n<details>\n<summary>Agent Log</summary>\n\n");
        reveal_strlit("<details>");
        reveal_strlit("<summary>Agent Log</summary>");
        reveal_strlit("\n\n</details>");
        reveal_strlit("</details>");
        let x = text::replaced(text::trimmed(log), "<!-- append-only -->"@, ""@);
        let t = text::trimmed(x);
        let head = "<details>"@ + "\n"@ + "<summary>Agent Log</summary>"@;
        let z = "</details>"@;
        assert(inner =~= share + "\n\n"@ + (head + "\n\n"@ + (t + "\n\n"@ + z)));
        lemma_said_parts(share, head + "\n\n"@ + (t + "\n\n"@ + z));
        lemma_said_parts(head, t + "\n\n"@ + z);
        lemma_said_parts(t, z);
        lemma_said_trimmed(x);
        lemma_said_single(z);
        facts::lemma_trimmed_snug(z);
        lemma_said_cons("<details>"@, "<summary>Agent Log</summary>"@);
        facts::lemma_trimmed_snug("<details>"@);
        lemma_said_single("<summary>Agent Log</summary>"@);
        facts::lemma_trimmed_snug("<summary>Agent Log</summary>"@);
        assert(said_in(head) =~= seq!["<details>"@, "<summary>Agent Log</summary>"@]);
        assert(said_in(managed::pr_block(d)) =~= seq!["<!-- rein:begin "@ + d.front.id + " -->"@]
            + said_in(share) + seq!["<details>"@, "<summary>Agent Log</summary>"@] + said_in(x)
            + seq!["</details>"@, "<!-- rein:end -->"@]);
    }
}

/// A pulled document says what was pulled, and behind that the Agent Log that it had,
/// heading and entries: nothing of the log is lost, and nothing else of the old text
/// stays.
pub proof fn law_a_pull_brings_what_was_pulled(
    inner: Seq<char>,
    local: Seq<char>,
    start: int,
    end: int,
)
    ensures
        section_at(local, "## Agent Log"@, start, end) ==> said_in(
            sections::merged_body(inner, local),
        ) == said_in(inner) + said(text::lines_of(local).subrange(start, end)),
        without_section(local, "## Agent Log"@) ==> said_in(sections::merged_body(inner, local))
            == said_in(inner),
{
    let ls = text::lines_of(local);
    let t = text::trimmed(inner);
    facts::lemma_feed();
    assert(facts::all_white("\n"@));
    facts::lemma_lines_have_no_feed(local);
    lemma_said_trimmed(inner);
    if section_at(local, "## Agent Log"@, start, end) {
        lemma_section_at(local, "## Agent Log"@, start, end);
        let log = ls.subrange(start, end);
        assert forall|i: int| 0 <= i < log.len() implies facts::one_line(#[trigger] log[i]) by {
            assert(log[i] == ls[i + start]);
        }
        lemma_said_joined(log);
        let j = text::joined(log, "\n"@);
        let x = text::trimmed_end(j);
        facts::lemma_trimmed_of_trimmed_end(j);
        lemma_said_before_white(x, j.skip(x.len() as int));
        lemma_said_parts(t, x);
        lemma_said_before_white(t + "\n\n"@ + x, "\n"@);
    }
    if without_section(local, "## Agent Log"@) {
        sections::lemma_section(ls, "## Agent Log"@);
        lemma_said_before_white(t, "\n"@);
    }
}

} // verus!
