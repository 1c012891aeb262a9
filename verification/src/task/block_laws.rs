//! Laws of managed blocks: what is written into a remote body is read back from
//! it, and what stands around it is kept.
use crate::facts;
use crate::task::items;
use crate::task::managed;
use crate::text;
use vstd::prelude::*;

verus! {

/// The line that opens the block of a task.
pub open spec fn begin_line(id: Seq<char>) -> Seq<char> {
    "<!-- rein:begin "@ + id + " -->"@
}

/// A task id and a content that a block can carry: the id is one line, and no line
/// of the content closes the block.
pub open spec fn fits_block(id: Seq<char>, inner: Seq<char>) -> bool {
    &&& facts::one_line(id)
    &&& facts::no_crlf(text::trimmed(inner))
    &&& !facts::has_line(text::lines_of(text::trimmed(inner)), "<!-- rein:end -->"@)
}

/// The lines of the block of a task.
pub open spec fn block_lines(id: Seq<char>, inner: Seq<char>) -> Seq<Seq<char>> {
    seq![begin_line(id), seq![]] + text::lines_of(text::trimmed(inner) + "\n"@) + seq![
        seq![],
        "<!-- rein:end -->"@,
    ]
}

proof fn lemma_mid(t: Seq<char>)
    requires
        facts::snug(t),
        facts::no_crlf(t),
    ensures
        text::lines_of(t + "\n"@).len() > 0,
        text::joined(text::lines_of(t + "\n"@), "\n"@) == t,
        t.len() > 0 ==> text::lines_of(t + "\n"@) == text::lines_of(t),
        t.len() == 0 ==> text::lines_of(t + "\n"@) == seq![Seq::<char>::empty()],
{
    let e = Seq::<char>::empty();
    facts::lemma_feed();
    if t.len() > 0 {
        facts::lemma_lines_feed(t);
        facts::lemma_joined_lines(t);
    } else {
        assert(t + "\n"@ =~= e + "\n"@ + e);
        facts::lemma_lines_cons(e, e);
        assert(text::lines_of(e) =~= seq![]);
        assert(text::lines_of(t + "\n"@) =~= seq![e]);
        assert(text::joined(seq![e], "\n"@) =~= t);
    }
}

/// The opening line names its task.
proof fn lemma_begin_line(id: Seq<char>)
    requires
        facts::one_line(id),
    ensures
        managed::is_begin(begin_line(id)),
        managed::named_id(begin_line(id)) == Some(text::trimmed(id)),
        facts::settled_line(begin_line(id)),
{
    reveal_strlit("<!-- rein:begin ");
    reveal_strlit("<!-- rein:begin");
    reveal_strlit(" -->");
    reveal_strlit("-->");
    reveal_strlit(" ");
    let e = Seq::<char>::empty();
    let b = begin_line(id);
    assert forall|i: int| 0 <= i < b.len() implies #[trigger] b[i] != '\n' by {
        if 16 <= i < 16 + id.len() {
            assert(b[i] == id[i - 16]);
        }
    }
    facts::lemma_trimmed_snug(b);
    let u = " "@ + id + " "@;
    let rest = u + "-->"@;
    assert(b =~= "<!-- rein:begin"@ + rest);
    facts::lemma_begins("<!-- rein:begin"@, rest);
    facts::lemma_trimmed_around(u, "-->"@, e);
    assert(u + "-->"@ + e =~= rest);
    let v = text::trimmed_start(u);
    assert(text::trimmed_end(e) == e);
    assert(v + "-->"@ + e =~= v + "-->"@);
    facts::lemma_ends(v, "-->"@);
    text::lemma_trimmed_start(u);
    assert(text::trimmed_start(v) == v);
    facts::lemma_trimmed_pad(" "@, id, " "@);
}

proof fn lemma_end_line()
    ensures
        managed::is_end("<!-- rein:end -->"@),
        !managed::is_end(Seq::<char>::empty()),
        facts::settled_line("<!-- rein:end -->"@),
        facts::snug("<!-- rein:end -->"@),
        "<!-- rein:end -->"@.len() > 0,
{
    reveal_strlit("<!-- rein:end -->");
    facts::lemma_trimmed_snug("<!-- rein:end -->"@);
    facts::lemma_trimmed_snug(Seq::<char>::empty());
}

/// A block is made of its lines, and only its last line closes it.
pub proof fn lemma_block(id: Seq<char>, inner: Seq<char>)
    requires
        fits_block(id, inner),
    ensures
        ({
            let w = managed::wrapped(id, inner);
            let bl = block_lines(id, inner);
            &&& text::lines_of(w) == bl
            &&& text::joined(bl, "\n"@) == w
            &&& facts::snug(w)
            &&& w.len() > 0
            &&& bl.len() >= 5
            &&& bl[0] == begin_line(id)
            &&& managed::is_end(bl.last())
            &&& forall|i: int| 0 <= i < bl.len() - 1 ==> !managed::is_end(#[trigger] bl[i])
            &&& text::trimmed(text::joined(bl.subrange(1, bl.len() - 1), "\n"@)) == text::trimmed(
                inner,
            )
        }),
{
    let e = Seq::<char>::empty();
    let t = text::trimmed(inner);
    let b = begin_line(id);
    let z = "<!-- rein:end -->"@;
    let w = managed::wrapped(id, inner);
    let bl = block_lines(id, inner);
    let mid = text::lines_of(t + "\n"@);
    facts::lemma_trimmed_is_snug(inner);
    facts::lemma_feed();
    lemma_mid(t);
    lemma_begin_line(id);
    lemma_end_line();
    reveal_strlit("<!-- rein:begin ");
    reveal_strlit(" -->");
    reveal_strlit(" -->\n\n");
    reveal_strlit("\n\n<!-- rein:end -->");
    reveal_strlit("<!-- rein:end -->");
    assert(" -->\n\n"@ =~= " -->"@ + "\n"@ + "\n"@);
    assert("\n\n<!-- rein:end -->"@ =~= "\n"@ + "\n"@ + z);
    // the lines, one by one
    let y4 = z;
    let y3 = e + "\n"@ + y4;
    let y2 = (t + "\n"@) + y3;
    let y1 = e + "\n"@ + y2;
    assert(w =~= b + "\n"@ + y1);
    facts::lemma_lines_single(z);
    facts::lemma_lines_cons(e, y4);
    facts::lemma_lines_append(t + "\n"@, y3);
    facts::lemma_lines_cons(e, y2);
    facts::lemma_lines_cons(b, y1);
    assert(text::without_cr(b) == b);
    assert(text::lines_of(w) =~= bl);
    // and joined again
    let first = seq![b, e];
    let last = seq![e, z];
    facts::lemma_joined_concat(first, mid, "\n"@);
    facts::lemma_joined_concat(first + mid, last, "\n"@);
    assert(first.skip(1) =~= seq![e]);
    assert(text::joined(seq![e], "\n"@) == e);
    assert(text::joined(first, "\n"@) =~= b + "\n"@ + e);
    assert(last.skip(1) =~= seq![z]);
    assert(text::joined(seq![z], "\n"@) == z);
    assert(text::joined(last, "\n"@) =~= e + "\n"@ + z);
    assert(text::joined(bl, "\n"@) =~= w);
    assert(w[0] == '<');
    assert(w.last() == z.last());
    // only the last line closes it
    managed::lemma_begin_is_not_end(b);
    assert forall|i: int| 0 <= i < bl.len() - 1 implies !managed::is_end(#[trigger] bl[i]) by {
        if i == 0 {
            assert(bl[0] == b);
        } else if i == 1 || i == bl.len() - 2 {
            assert(bl[i] == e);
        } else {
            assert(bl[i] == mid[i - 2]);
            if t.len() > 0 {
                if managed::is_end(mid[i - 2]) {
                    assert(facts::has_line(text::lines_of(t), z));
                }
            } else {
                assert(mid[i - 2] == e);
            }
        }
    }
    // what it holds
    let held = bl.subrange(1, bl.len() - 1);
    assert(held =~= seq![e] + mid + seq![e]);
    facts::lemma_joined_concat(seq![e], mid, "\n"@);
    facts::lemma_joined_concat(seq![e] + mid, seq![e], "\n"@);
    assert(text::joined(held, "\n"@) =~= "\n"@ + t + "\n"@);
    facts::lemma_trimmed_of("\n"@, t, "\n"@);
}

/// The first opening line.
pub proof fn lemma_begin_from(ls: Seq<Seq<char>>, i: int)
    requires
        0 <= i,
    ensures
        match managed::begin_from(ls, i) {
            Some(b) => i <= b < ls.len() && managed::is_begin(ls[b]) && forall|k: int|
                i <= k < b ==> !managed::is_begin(#[trigger] ls[k]),
            None => forall|k: int| i <= k < ls.len() ==> !managed::is_begin(#[trigger] ls[k]),
        },
    decreases ls.len() - i,
{
    if i < ls.len() && !managed::is_begin(ls[i]) {
        lemma_begin_from(ls, i + 1);
    }
}

/// The first closing line.
pub proof fn lemma_end_from(ls: Seq<Seq<char>>, i: int)
    requires
        0 <= i,
    ensures
        match managed::end_from(ls, i) {
            Some(b) => i <= b < ls.len() && managed::is_end(ls[b]) && forall|k: int|
                i <= k < b ==> !managed::is_end(#[trigger] ls[k]),
            None => forall|k: int| i <= k < ls.len() ==> !managed::is_end(#[trigger] ls[k]),
        },
    decreases ls.len() - i,
{
    if i < ls.len() && !managed::is_end(ls[i]) {
        lemma_end_from(ls, i + 1);
    }
}

/// A block among lines none of which before it opens one.
pub proof fn lemma_block_among(
    a: Seq<Seq<char>>,
    id: Seq<char>,
    inner: Seq<char>,
    c: Seq<Seq<char>>,
)
    requires
        fits_block(id, inner),
        forall|i: int| 0 <= i < a.len() ==> !managed::is_begin(#[trigger] a[i]),
    ensures
        ({
            let bl = block_lines(id, inner);
            let ls = a + bl + c;
            &&& managed::block_range(ls) == Some((a.len() as int, a.len() + bl.len() - 1))
            &&& ls.subrange(a.len() as int, (a.len() + bl.len()) as int) == bl
            &&& ls[a.len() as int] == begin_line(id)
        }),
{
    lemma_block(id, inner);
    lemma_begin_line(id);
    let bl = block_lines(id, inner);
    let ls = a + bl + c;
    let k = a.len() as int;
    assert(ls[k] == bl[0]);
    lemma_begin_from(ls, 0);
    let b = managed::begin_from(ls, 0)->0;
    assert(b == k) by {
        if b < k {
            assert(ls[b] == a[b]);
        }
    }
    lemma_end_from(ls, k);
    let last = k + bl.len() - 1;
    assert(ls[last] == bl.last());
    let z = managed::end_from(ls, k)->0;
    assert(z == last) by {
        if z < last {
            assert(ls[z] == bl[z - k]);
        }
    }
    assert(ls.subrange(k, k + bl.len()) =~= bl);
}

/// What a text whose lines hold a block says of it.
proof fn lemma_managed_of_lines(
    t: Seq<char>,
    a: Seq<Seq<char>>,
    id: Seq<char>,
    inner: Seq<char>,
    c: Seq<Seq<char>>,
)
    requires
        fits_block(id, inner),
        text::lines_of(t) == a + block_lines(id, inner) + c,
        forall|i: int| 0 <= i < a.len() ==> !managed::is_begin(#[trigger] a[i]),
    ensures
        managed::managed_of(t) == Some(
            (text::trimmed(id), managed::wrapped(id, inner), text::trimmed(inner)),
        ),
{
    lemma_block(id, inner);
    lemma_begin_line(id);
    lemma_block_among(a, id, inner, c);
    let bl = block_lines(id, inner);
    let ls = text::lines_of(t);
    let k = a.len() as int;
    let last = k + bl.len() - 1;
    assert(ls.subrange(k, last + 1) =~= bl);
    assert(ls.subrange(k + 1, last) =~= bl.subrange(1, bl.len() - 1));
}

/// A wrapped content is read back: its task, without white space around the id, the
/// block itself, and the content.
pub proof fn law_block_reads_back(id: Seq<char>, inner: Seq<char>)
    requires
        fits_block(id, inner),
    ensures
        managed::managed_of(managed::wrapped(id, inner)) == Some(
            (text::trimmed(id), managed::wrapped(id, inner), text::trimmed(inner)),
        ),
{
    lemma_block(id, inner);
    let n = Seq::<Seq<char>>::empty();
    assert(n + block_lines(id, inner) + n =~= block_lines(id, inner));
    lemma_managed_of_lines(managed::wrapped(id, inner), n, id, inner, n);
}

/// The text before and behind a block in a remote body.
pub open spec fn before_text(a: Seq<Seq<char>>) -> Seq<char> {
    if a.len() == 0 {
        seq![]
    } else {
        items::document(a)
    }
}

/// The text behind a block in a remote body.
pub open spec fn behind_text(c: Seq<Seq<char>>) -> Seq<char> {
    if c.len() == 0 {
        seq![]
    } else {
        "\n"@ + text::joined(c, "\n"@)
    }
}

/// What stands before a block, trimmed: it ends its last line, and holds no line
/// that opens a block.
proof fn lemma_before(a: Seq<Seq<char>>)
    requires
        facts::all_one_line(a),
        forall|i: int| 0 <= i < a.len() ==> !managed::is_begin(#[trigger] a[i]),
    ensures
        ({
            let p = text::trimmed_start(before_text(a));
            &&& forall|i: int|
                0 <= i < text::lines_of(p).len() ==> !managed::is_begin(
                    #[trigger] text::lines_of(p)[i],
                )
            &&& facts::settled(a) ==> facts::no_crlf(p)
            &&& p.len() > 0 ==> p.last() == '\n'
        }),
{
    facts::lemma_feed();
    let e = Seq::<char>::empty();
    let pre = before_text(a);
    let p = text::trimmed_start(pre);
    text::lemma_trimmed_start(pre);
    if p.len() > 0 {
        assert(pre.last() == '\n');
        assert(p.last() == pre.last());
    }
    let pw = pre.take(pre.len() - p.len());
    assert(pre =~= pw + p + e);
    if facts::settled(a) {
        if a.len() > 0 {
            lemma_document_no_crlf(a);
        }
        facts::lemma_no_crlf_part(pw, p, e);
    }
    let pl = text::lines_of(p);
    assert forall|i: int| 0 <= i < pl.len() implies !managed::is_begin(#[trigger] pl[i]) by {
        if managed::is_begin(pl[i]) {
            let l = text::trimmed(pl[i]);
            assert(facts::has_line(pl, l));
            assert forall|j: int| 0 <= j < pw.len() implies text::is_white(#[trigger] pw[j]) by {
                assert(pw[j] == pre[j]);
            }
            facts::lemma_lines_behind_white(pw, p, l);
            assert(pw + p =~= pre);
            assert(a.len() > 0) by {
                if a.len() == 0 {
                    assert(p =~= e);
                }
            }
            facts::lemma_lines_written(a);
            let d = facts::dry(a);
            let k = choose|k: int| 0 <= k < d.len() && text::trimmed(#[trigger] d[k]) == l;
            facts::lemma_trimmed_without_cr(a[k]);
            assert(managed::is_begin(a[k]));
        }
    }
}

/// What stands behind a block, trimmed: it starts a line.
proof fn lemma_behind(c: Seq<Seq<char>>)
    ensures
        ({
            let q = text::trimmed_end(behind_text(c));
            &&& facts::settled(c) ==> facts::no_crlf(q)
            &&& q.len() > 0 ==> q[0] == '\n'
        }),
{
    facts::lemma_feed();
    let e = Seq::<char>::empty();
    let post = behind_text(c);
    let q = text::trimmed_end(post);
    facts::lemma_trimmed_end(post);
    if q.len() > 0 {
        assert(q[0] == post[0]);
    }
    if facts::settled(c) {
        facts::lemma_joined_no_crlf(c);
        assert(facts::no_crlf(post)) by {
            if c.len() > 0 {
                let j = text::joined(c, "\n"@);
                assert forall|i: int|
                    0 <= i && i + 1 < post.len() && #[trigger] post[i] == '\r' implies post[i + 1]
                    != '\n' by {
                    assert(post[i] == j[i - 1]);
                    assert(post[i + 1] == j[i]);
                }
            }
        }
        assert(post =~= e + q + post.skip(q.len() as int));
        facts::lemma_no_crlf_part(e, q, post.skip(q.len() as int));
    }
}

/// The lines of a block between texts that start and end lines.
#[verifier::rlimit(60)]
#[verifier::spinoff_prover]
proof fn lemma_lines_around(p: Seq<char>, w: Seq<char>, q: Seq<char>, bl: Seq<Seq<char>>)
    requires
        p.len() > 0 ==> p.last() == '\n',
        q.len() > 0 ==> q[0] == '\n',
        text::lines_of(w) == bl,
        w.len() > 0,
        !text::is_white(w.last()),
    ensures
        text::lines_of(p + w + q + "\n"@) == text::lines_of(p) + bl + if q.len() == 0 {
            Seq::<Seq<char>>::empty()
        } else {
            text::lines_of(q.skip(1) + "\n"@)
        },
{
    facts::lemma_feed();
    let r = p + w + q + "\n"@;
    let rest = w + q + "\n"@;
    assert(r =~= p + rest);
    facts::lemma_lines_append(p, rest);
    facts::lemma_lines_feed(w);
    if q.len() == 0 {
        assert(rest =~= w + "\n"@);
        let z = Seq::<Seq<char>>::empty();
        assert(text::lines_of(r) =~= text::lines_of(p) + bl + z);
    } else {
        let q1 = q.skip(1) + "\n"@;
        assert(rest =~= (w + "\n"@) + q1);
        facts::lemma_lines_append(w + "\n"@, q1);
        assert(text::lines_of(r) =~= text::lines_of(p) + bl + text::lines_of(q1));
    }
}

/// The shape of a remote body after a block was put among its lines.
#[verifier::rlimit(60)]
#[verifier::spinoff_prover]
pub proof fn lemma_with_block_shape(
    a: Seq<Seq<char>>,
    id: Seq<char>,
    inner: Seq<char>,
    c: Seq<Seq<char>>,
)
    requires
        fits_block(id, inner),
        facts::all_one_line(a),
        forall|i: int| 0 <= i < a.len() ==> !managed::is_begin(#[trigger] a[i]),
    ensures
        ({
            let w = managed::wrapped(id, inner);
            let bl = block_lines(id, inner);
            let p = text::trimmed_start(before_text(a));
            let q = text::trimmed_end(behind_text(c));
            let r = text::trimmed(text::joined(a + bl + c, "\n"@)) + "\n"@;
            let z = if q.len() == 0 {
                Seq::<Seq<char>>::empty()
            } else {
                text::lines_of(q.skip(1) + "\n"@)
            };
            &&& r == p + w + q + "\n"@
            &&& text::lines_of(r) == text::lines_of(p) + bl + z
            &&& forall|i: int|
                0 <= i < text::lines_of(p).len() ==> !managed::is_begin(
                    #[trigger] text::lines_of(p)[i],
                )
            &&& facts::settled(a) ==> facts::no_crlf(p)
            &&& facts::settled(c) ==> facts::no_crlf(q)
            &&& p.len() > 0 ==> p.last() == '\n'
            &&& q.len() > 0 ==> q[0] == '\n'
        }),
{
    facts::lemma_feed();
    lemma_block(id, inner);
    let w = managed::wrapped(id, inner);
    let bl = block_lines(id, inner);
    let pre = before_text(a);
    let post = behind_text(c);
    facts::lemma_joined_concat(a, bl, "\n"@);
    facts::lemma_joined_concat(a + bl, c, "\n"@);
    assert(text::joined(a + bl + c, "\n"@) =~= pre + w + post);
    facts::lemma_trimmed_around(pre, w, post);
    lemma_before(a);
    lemma_behind(c);
    lemma_lines_around(text::trimmed_start(pre), w, text::trimmed_end(post), bl);
}

/// A document of settled lines holds no carriage return before a line feed.
pub proof fn lemma_document_no_crlf(a: Seq<Seq<char>>)
    requires
        facts::settled(a),
        a.len() > 0,
    ensures
        facts::no_crlf(items::document(a)),
{
    facts::lemma_feed();
    let b = a.push(Seq::<char>::empty());
    assert forall|i: int| 0 <= i < b.len() implies facts::settled_line(#[trigger] b[i]) by {
        if i < a.len() {
            assert(b[i] == a[i]);
        }
    }
    text::lemma_joined_push(a, "\n"@, Seq::<char>::empty());
    assert(text::joined(b, "\n"@) =~= items::document(a));
    facts::lemma_joined_no_crlf(b);
}

/// Without its trailing white space a body holds no opening line that it did not
/// hold before.
proof fn lemma_no_begin_in_trimmed(remote: Seq<char>)
    requires
        managed::begin_from(text::lines_of(remote), 0) is None,
    ensures
        ({
            let xl = text::lines_of(text::trimmed_end(remote));
            forall|i: int| 0 <= i < xl.len() ==> !managed::is_begin(#[trigger] xl[i])
        }),
{
    let ls = text::lines_of(remote);
    let x = text::trimmed_end(remote);
    let xl = text::lines_of(x);
    lemma_begin_from(ls, 0);
    facts::lemma_trimmed_end(remote);
    assert forall|i: int| 0 <= i < xl.len() implies !managed::is_begin(#[trigger] xl[i]) by {
        if managed::is_begin(xl[i]) {
            let l = text::trimmed(xl[i]);
            assert(facts::has_line(xl, l));
            facts::lemma_lines_before_white(x, remote.skip(x.len() as int), l);
            assert(x + remote.skip(x.len() as int) =~= remote);
            let k = choose|k: int| 0 <= k < ls.len() && text::trimmed(#[trigger] ls[k]) == l;
            assert(managed::is_begin(ls[k]));
        }
    }
}

/// The lines of a block behind a text that ends in a visible character, with one
/// empty line between them.
proof fn lemma_lines_appended(x: Seq<char>, w: Seq<char>)
    requires
        x.len() > 0,
        w.len() > 0,
        !text::is_white(x.last()),
        !text::is_white(w.last()),
    ensures
        text::lines_of(x + "\n\n"@ + w + "\n"@) == text::lines_of(x) + seq![Seq::<char>::empty()]
            + text::lines_of(w),
{
    let e = Seq::<char>::empty();
    facts::lemma_feed();
    reveal_strlit("\n\n");
    assert("\n\n"@ =~= "\n"@ + "\n"@);
    let r = x + "\n\n"@ + w + "\n"@;
    assert(r =~= (x + "\n"@) + (e + "\n"@ + (w + "\n"@)));
    facts::lemma_lines_append(x + "\n"@, e + "\n"@ + (w + "\n"@));
    facts::lemma_lines_cons(e, w + "\n"@);
    facts::lemma_lines_feed(x);
    facts::lemma_lines_feed(w);
    assert(text::lines_of(r) =~= text::lines_of(x) + seq![e] + text::lines_of(w));
}

/// A block behind a body that holds none is read back.
proof fn lemma_appended_block(remote: Seq<char>, id: Seq<char>, inner: Seq<char>)
    requires
        fits_block(id, inner),
        managed::begin_from(text::lines_of(remote), 0) is None,
        managed::block_range(text::lines_of(remote)) is None,
    ensures
        managed::managed_of(managed::with_block(remote, managed::wrapped(id, inner))) == Some(
            (text::trimmed(id), managed::wrapped(id, inner), text::trimmed(inner)),
        ),
{
    let w = managed::wrapped(id, inner);
    let bl = block_lines(id, inner);
    let r = managed::with_block(remote, w);
    let n = Seq::<Seq<char>>::empty();
    let e = Seq::<char>::empty();
    lemma_block(id, inner);
    facts::lemma_trimmed_snug(w);
    facts::lemma_lines_feed(w);
    if text::trimmed(remote).len() == 0 {
        assert(n + bl + n =~= bl);
        lemma_managed_of_lines(r, n, id, inner, n);
    } else {
        let x = text::trimmed_end(remote);
        facts::lemma_trimmed_of_trimmed_end(remote);
        facts::lemma_trimmed_end(remote);
        facts::lemma_trimmed_snug(e);
        assert(x.len() > 0) by {
            if x.len() == 0 {
                assert(x =~= e);
            }
        }
        lemma_lines_appended(x, w);
        let xl = text::lines_of(x);
        let a = xl + seq![e];
        assert(text::lines_of(r) =~= a + bl + n);
        lemma_no_begin_in_trimmed(remote);
        assert forall|i: int| 0 <= i < a.len() implies !managed::is_begin(#[trigger] a[i]) by {
            if i < xl.len() {
                assert(a[i] == xl[i]);
            } else {
                assert(a[i] == e);
                reveal_strlit("<!-- rein:begin");
            }
        }
        lemma_managed_of_lines(r, a, id, inner, n);
    }
}

/// Writing a block into a remote body and reading it gives back the block, its
/// task and its content. A dangling opening line without an end is left out: the
/// block would be read from it on.
pub proof fn law_written_block_reads_back(remote: Seq<char>, id: Seq<char>, inner: Seq<char>)
    requires
        fits_block(id, inner),
        managed::block_range(text::lines_of(remote)) is None ==> managed::begin_from(
            text::lines_of(remote),
            0,
        ) is None,
    ensures
        managed::managed_of(managed::with_block(remote, managed::wrapped(id, inner))) == Some(
            (text::trimmed(id), managed::wrapped(id, inner), text::trimmed(inner)),
        ),
{
    let ls = text::lines_of(remote);
    let w = managed::wrapped(id, inner);
    facts::lemma_lines_have_no_feed(remote);
    match managed::block_range(ls) {
        Some((b, z)) => {
            let r = managed::with_block(remote, w);
            lemma_block(id, inner);
            let a = ls.take(b);
            let c = ls.skip(z + 1);
            lemma_outer_lines(ls, b, z);
            lemma_with_block_shape(a, id, inner, c);
            let p = text::trimmed_start(before_text(a));
            let q = text::trimmed_end(behind_text(c));
            let y = if q.len() == 0 {
                Seq::<Seq<char>>::empty()
            } else {
                text::lines_of(q.skip(1) + "\n"@)
            };
            lemma_managed_of_lines(r, text::lines_of(p), id, inner, y);
        },
        None => {
            lemma_appended_block(remote, id, inner);
        },
    }
}

/// The lines before and behind a block keep what they are.
pub proof fn lemma_outer_lines(ls: Seq<Seq<char>>, b: int, z: int)
    requires
        facts::all_one_line(ls),
        managed::block_range(ls) == Some((b, z)),
    ensures
        0 <= b <= z < ls.len(),
        facts::all_one_line(ls.take(b)),
        forall|i: int| 0 <= i < b ==> !managed::is_begin(#[trigger] ls.take(b)[i]),
{
    lemma_begin_from(ls, 0);
    lemma_end_from(ls, b);
    let a = ls.take(b);
    assert forall|i: int| 0 <= i < a.len() implies facts::one_line(#[trigger] a[i])
        && !managed::is_begin(a[i]) by {
        assert(a[i] == ls[i]);
    }
}

/// What the lines behind a block hold, joined.
proof fn lemma_joined_behind(q: Seq<char>)
    requires
        facts::no_crlf(q),
        q.len() > 0,
        q[0] == '\n',
        !text::is_white(q.last()),
    ensures
        "\n"@ + text::joined(text::lines_of(q.skip(1) + "\n"@), "\n"@) == q,
        text::lines_of(q.skip(1) + "\n"@).len() > 0,
{
    facts::lemma_feed();
    let q1 = q.skip(1) + "\n"@;
    assert(facts::no_crlf(q1)) by {
        assert forall|i: int|
            0 <= i && i + 1 < q1.len() && #[trigger] q1[i] == '\r' implies q1[i + 1] != '\n' by {
            assert(q1[i] == q[i + 1]);
            if i + 2 < q.len() {
                assert(q1[i + 1] == q[i + 2]);
            } else {
                assert(q[i + 1] == q.last());
            }
        }
    }
    facts::lemma_joined_lines(q1);
    assert(q1.last() == '\n');
    let jy = text::joined(text::lines_of(q1), "\n"@);
    assert(jy + "\n"@ == q1);
    assert(jy =~= q.skip(1)) by {
        assert((jy + "\n"@).drop_last() =~= jy);
        assert(q1.drop_last() =~= q.skip(1));
    }
    assert(q =~= "\n"@ + q.skip(1));
}

/// A block between the lines before and behind it, joined.
proof fn lemma_joined_around(p: Seq<char>, bl: Seq<Seq<char>>, q: Seq<char>)
    requires
        facts::no_crlf(p),
        facts::no_crlf(q),
        p.len() > 0 ==> p.last() == '\n',
        q.len() > 0 ==> q[0] == '\n' && !text::is_white(q.last()),
        bl.len() > 0,
    ensures
        ({
            let y = if q.len() == 0 {
                Seq::<Seq<char>>::empty()
            } else {
                text::lines_of(q.skip(1) + "\n"@)
            };
            text::joined(text::lines_of(p) + bl + y, "\n"@) == p + text::joined(bl, "\n"@) + q
        }),
{
    let pl = text::lines_of(p);
    let n = Seq::<Seq<char>>::empty();
    let y = if q.len() == 0 {
        n
    } else {
        text::lines_of(q.skip(1) + "\n"@)
    };
    facts::lemma_feed();
    facts::lemma_joined_concat(pl, bl, "\n"@);
    facts::lemma_joined_concat(pl + bl, y, "\n"@);
    let w = text::joined(bl, "\n"@);
    if p.len() > 0 {
        facts::lemma_joined_lines(p);
    } else {
        assert(pl =~= n);
    }
    if q.len() > 0 {
        lemma_joined_behind(q);
    }
    assert(text::joined(pl + bl + y, "\n"@) =~= p + w + q);
}

/// A body that starts and ends in visible characters needs no trimming.
proof fn lemma_snug_around(p: Seq<char>, w: Seq<char>, q: Seq<char>)
    requires
        w.len() > 0,
        facts::snug(w),
        p.len() > 0 ==> !text::is_white(p[0]),
        q.len() > 0 ==> !text::is_white(q.last()),
    ensures
        text::trimmed(p + w + q) == p + w + q,
{
    let m = p + w + q;
    assert(facts::snug(m)) by {
        if p.len() > 0 {
            assert(m[0] == p[0]);
        } else {
            assert(m[0] == w[0]);
        }
        if q.len() > 0 {
            assert(m.last() == q.last());
        } else {
            assert(m.last() == w.last());
        }
    }
    facts::lemma_trimmed_snug(m);
}

/// The text around the place of a block is one that reading and writing keep.
pub open spec fn keeps_text_around(remote: Seq<char>) -> bool {
    let ls = text::lines_of(remote);
    match managed::block_range(ls) {
        Some((b, z)) => facts::settled(ls.take(b)) && facts::settled(ls.skip(z + 1)),
        None => {
            &&& managed::begin_from(ls, 0) is None
            &&& facts::no_crlf(text::trimmed_end(remote))
            &&& text::trimmed(remote).len() > 0 ==> !text::is_white(remote[0])
        },
    }
}

/// A block that is written into a body without one comes behind its text, with one
/// empty line between them.
pub proof fn law_first_block_comes_last(remote: Seq<char>, id: Seq<char>, inner: Seq<char>)
    requires
        fits_block(id, inner),
        managed::block_range(text::lines_of(remote)) is None,
    ensures
        managed::with_block(remote, managed::wrapped(id, inner)) == if text::trimmed(remote).len()
            == 0 {
            managed::wrapped(id, inner) + "\n"@
        } else {
            text::trimmed_end(remote) + "\n\n"@ + managed::wrapped(id, inner) + "\n"@
        },
{
    lemma_block(id, inner);
    facts::lemma_trimmed_snug(managed::wrapped(id, inner));
}

/// Updating the block of a body that holds one.
proof fn lemma_updated_twice(
    remote: Seq<char>,
    id1: Seq<char>,
    inner1: Seq<char>,
    id2: Seq<char>,
    inner2: Seq<char>,
)
    requires
        fits_block(id1, inner1),
        fits_block(id2, inner2),
        keeps_text_around(remote),
        managed::block_range(text::lines_of(remote)) is Some,
    ensures
        managed::with_block(
            managed::with_block(remote, managed::wrapped(id1, inner1)),
            managed::wrapped(id2, inner2),
        ) == managed::with_block(remote, managed::wrapped(id2, inner2)),
{
    let ls = text::lines_of(remote);
    let (b, z) = managed::block_range(ls).unwrap();
    facts::lemma_lines_have_no_feed(remote);
    lemma_outer_lines(ls, b, z);
    let a = ls.take(b);
    let c = ls.skip(z + 1);
    let w2 = managed::wrapped(id2, inner2);
    let bl1 = block_lines(id1, inner1);
    let bl2 = block_lines(id2, inner2);
    lemma_block(id1, inner1);
    lemma_block(id2, inner2);
    lemma_with_block_shape(a, id1, inner1, c);
    lemma_with_block_shape(a, id2, inner2, c);
    let p = text::trimmed_start(before_text(a));
    let q = text::trimmed_end(behind_text(c));
    let pl = text::lines_of(p);
    let y = if q.len() == 0 {
        Seq::<Seq<char>>::empty()
    } else {
        text::lines_of(q.skip(1) + "\n"@)
    };
    let r1 = managed::with_block(remote, managed::wrapped(id1, inner1));
    let l1 = text::lines_of(r1);
    assert(l1 == pl + bl1 + y);
    lemma_block_among(pl, id1, inner1, y);
    let k = pl.len() as int;
    assert(l1.take(k) =~= pl);
    assert(l1.skip(k + bl1.len()) =~= y);
    text::lemma_trimmed_start(before_text(a));
    facts::lemma_trimmed_end(behind_text(c));
    // joining the kept lines gives the kept text, and it needs no trimming
    lemma_joined_around(p, bl2, q);
    lemma_snug_around(p, w2, q);
}

/// Updating the block of a body that held none at first.
proof fn lemma_added_and_updated(
    remote: Seq<char>,
    id1: Seq<char>,
    inner1: Seq<char>,
    id2: Seq<char>,
    inner2: Seq<char>,
)
    requires
        fits_block(id1, inner1),
        fits_block(id2, inner2),
        keeps_text_around(remote),
        managed::block_range(text::lines_of(remote)) is None,
    ensures
        managed::with_block(
            managed::with_block(remote, managed::wrapped(id1, inner1)),
            managed::wrapped(id2, inner2),
        ) == managed::with_block(remote, managed::wrapped(id2, inner2)),
{
    let w1 = managed::wrapped(id1, inner1);
    let w2 = managed::wrapped(id2, inner2);
    let bl1 = block_lines(id1, inner1);
    let bl2 = block_lines(id2, inner2);
    let e = Seq::<char>::empty();
    let n = Seq::<Seq<char>>::empty();
    facts::lemma_feed();
    lemma_block(id1, inner1);
    lemma_block(id2, inner2);
    law_first_block_comes_last(remote, id1, inner1);
    law_first_block_comes_last(remote, id2, inner2);
    facts::lemma_lines_feed(w1);
    facts::lemma_trimmed_snug(w2);
    let r1 = managed::with_block(remote, w1);
    let l1 = text::lines_of(r1);
    if text::trimmed(remote).len() == 0 {
        assert(n + bl1 + n =~= bl1);
        lemma_block_among(n, id1, inner1, n);
        assert(l1.take(0) + bl2 + l1.skip(bl1.len() as int) =~= bl2);
    } else {
        let x = text::trimmed_end(remote);
        facts::lemma_trimmed_of_trimmed_end(remote);
        facts::lemma_trimmed_end(remote);
        facts::lemma_trimmed_snug(e);
        assert(x.len() > 0) by {
            if x.len() == 0 {
                assert(x =~= e);
            }
        }
        lemma_lines_appended(x, w1);
        let xl = text::lines_of(x);
        let a = xl + seq![e];
        assert(l1 =~= a + bl1 + n);
        lemma_no_begin_in_trimmed(remote);
        assert forall|i: int| 0 <= i < a.len() implies !managed::is_begin(#[trigger] a[i]) by {
            if i < xl.len() {
                assert(a[i] == xl[i]);
            } else {
                assert(a[i] == e);
                reveal_strlit("<!-- rein:begin");
            }
        }
        lemma_block_among(a, id1, inner1, n);
        let k = a.len() as int;
        assert(l1.take(k) + bl2 + l1.skip(k + bl1.len()) =~= a + bl2);
        // joining the lines again
        facts::lemma_joined_lines(x);
        facts::lemma_joined_concat(xl, seq![e], "\n"@);
        facts::lemma_joined_concat(a, bl2, "\n"@);
        assert(text::joined(seq![e], "\n"@) == e);
        reveal_strlit("\n\n");
        assert("\n\n"@ =~= "\n"@ + "\n"@);
        let p = x + "\n\n"@;
        assert(text::joined(a + bl2, "\n"@) =~= p + w2 + e);
        assert(p[0] == remote[0]);
        lemma_snug_around(p, w2, e);
        assert(p + w2 + e =~= p + w2);
    }
}

/// The last block written wins: updating a block twice is updating it once, so that
/// what humans wrote around it is neither lost nor piled up. In a body that holds a
/// block, lines outside it that end with a carriage return are left out, and in one
/// that holds none, carriage returns before line feeds and white space at its start:
/// the second update takes them away, the first does not.
pub proof fn law_last_block_wins(
    remote: Seq<char>,
    id1: Seq<char>,
    inner1: Seq<char>,
    id2: Seq<char>,
    inner2: Seq<char>,
)
    requires
        fits_block(id1, inner1),
        fits_block(id2, inner2),
        keeps_text_around(remote),
    ensures
        managed::with_block(
            managed::with_block(remote, managed::wrapped(id1, inner1)),
            managed::wrapped(id2, inner2),
        ) == managed::with_block(remote, managed::wrapped(id2, inner2)),
{
    if managed::block_range(text::lines_of(remote)) is Some {
        lemma_updated_twice(remote, id1, inner1, id2, inner2);
    } else {
        lemma_added_and_updated(remote, id1, inner1, id2, inner2);
    }
}

} // verus!
