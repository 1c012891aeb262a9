//! Facts about the text primitives that the laws rest on.
use crate::task::items;
use crate::text;
use vstd::prelude::*;

verus! {

// ---------------------------------------------------------------------------
// Trimming
// ---------------------------------------------------------------------------

/// Only white space.
pub open spec fn all_white(s: Seq<char>) -> bool {
    forall|i: int| 0 <= i < s.len() ==> text::is_white(#[trigger] s[i])
}

/// No white space at either end.
pub open spec fn snug(s: Seq<char>) -> bool {
    s.len() > 0 ==> !text::is_white(s[0]) && !text::is_white(s.last())
}

/// Trimming the start stops at the first character that is not white space.
pub proof fn lemma_trimmed_start_at(s: Seq<char>, k: int)
    requires
        0 <= k <= s.len(),
        forall|i: int| 0 <= i < k ==> text::is_white(#[trigger] s[i]),
        k < s.len() ==> !text::is_white(s[k]),
    ensures
        text::trimmed_start(s) == s.skip(k),
    decreases k,
{
    if k > 0 {
        assert(s.skip(1).skip(k - 1) =~= s.skip(k));
        assert forall|i: int| 0 <= i < k - 1 implies text::is_white(#[trigger] s.skip(1)[i]) by {
            assert(s.skip(1)[i] == s[i + 1]);
        }
        lemma_trimmed_start_at(s.skip(1), k - 1);
    } else {
        assert(s.skip(0) =~= s);
    }
}

/// Trimming the end stops at the last character that is not white space.
pub proof fn lemma_trimmed_end_at(s: Seq<char>, k: int)
    requires
        0 <= k <= s.len(),
        forall|i: int| k <= i < s.len() ==> text::is_white(#[trigger] s[i]),
        k > 0 ==> !text::is_white(s[k - 1]),
    ensures
        text::trimmed_end(s) == s.take(k),
    decreases s.len() - k,
{
    if k < s.len() {
        assert(s.drop_last().take(k) =~= s.take(k));
        lemma_trimmed_end_at(s.drop_last(), k);
    } else {
        assert(s.take(k) =~= s);
    }
}

/// Trimming the end leaves a prefix that does not end with white space.
pub proof fn lemma_trimmed_end(s: Seq<char>)
    ensures
        text::trimmed_end(s).len() <= s.len(),
        text::trimmed_end(s) == s.take(text::trimmed_end(s).len() as int),
        text::trimmed_end(s).len() > 0 ==> !text::is_white(text::trimmed_end(s).last()),
        forall|i: int| text::trimmed_end(s).len() <= i < s.len() ==> text::is_white(s[i]),
    decreases s.len(),
{
    if s.len() > 0 && text::is_white(s.last()) {
        lemma_trimmed_end(s.drop_last());
        let n = text::trimmed_end(s).len() as int;
        assert(s.drop_last().take(n) =~= s.take(n));
        assert forall|i: int| n <= i < s.len() implies text::is_white(s[i]) by {
            if i < s.len() - 1 {
                assert(s.drop_last()[i] == s[i]);
            }
        }
    } else {
        assert(s.take(s.len() as int) =~= s);
    }
}

/// A trimmed text has no white space at either end.
pub proof fn lemma_trimmed_is_snug(s: Seq<char>)
    ensures
        snug(text::trimmed(s)),
        text::trimmed(s).len() <= s.len(),
{
    text::lemma_trimmed_start(s);
    lemma_trimmed_end(text::trimmed_start(s));
}

/// Trimming takes the white space around a snug text, and nothing else.
pub proof fn lemma_trimmed_of(a: Seq<char>, m: Seq<char>, b: Seq<char>)
    requires
        all_white(a),
        all_white(b),
        snug(m),
    ensures
        text::trimmed(a + m + b) == m,
{
    let s = a + m + b;
    if m.len() > 0 {
        lemma_trimmed_start_at(s, a.len() as int);
        assert(s.skip(a.len() as int) =~= m + b);
        lemma_trimmed_end_at(m + b, m.len() as int);
        assert((m + b).take(m.len() as int) =~= m);
    } else {
        assert forall|i: int| 0 <= i < s.len() implies text::is_white(#[trigger] s[i]) by {
            if i < a.len() {
                assert(s[i] == a[i]);
            } else {
                assert(s[i] == b[i - a.len()]);
            }
        }
        lemma_trimmed_start_at(s, s.len() as int);
        assert(s.skip(s.len() as int) =~= seq![]);
        assert(m =~= seq![]);
    }
}

/// A snug text is its own trimmed form.
pub proof fn lemma_trimmed_snug(m: Seq<char>)
    requires
        snug(m),
    ensures
        text::trimmed(m) == m,
{
    lemma_trimmed_of(seq![], m, seq![]);
    assert(seq![] + m + seq![] =~= m);
}

/// Any text is its trimmed form with white space around it.
pub proof fn lemma_trimmed_parts(s: Seq<char>) -> (r: (Seq<char>, Seq<char>))
    ensures
        all_white(r.0),
        all_white(r.1),
        s == r.0 + text::trimmed(s) + r.1,
{
    text::lemma_trimmed_start(s);
    let t = text::trimmed_start(s);
    lemma_trimmed_end(t);
    let m = text::trimmed_end(t);
    let a = s.take(s.len() - t.len());
    let b = t.skip(m.len() as int);
    assert forall|i: int| 0 <= i < b.len() implies text::is_white(#[trigger] b[i]) by {
        assert(b[i] == t[i + m.len()]);
    }
    assert(t =~= m + b);
    assert(s =~= a + m + b);
    (a, b)
}

/// White space around a text does not change its trimmed form.
pub proof fn lemma_trimmed_pad(a: Seq<char>, s: Seq<char>, b: Seq<char>)
    requires
        all_white(a),
        all_white(b),
    ensures
        text::trimmed(a + s + b) == text::trimmed(s),
{
    let (x, y) = lemma_trimmed_parts(s);
    let m = text::trimmed(s);
    assert(a + s + b =~= (a + x) + m + (y + b));
    assert(all_white(a + x)) by {
        assert forall|i: int| 0 <= i < (a + x).len() implies text::is_white(
            #[trigger] (a + x)[i],
        ) by {
            if i < a.len() {
                assert((a + x)[i] == a[i]);
            } else {
                assert((a + x)[i] == x[i - a.len()]);
            }
        }
    }
    assert(all_white(y + b)) by {
        assert forall|i: int| 0 <= i < (y + b).len() implies text::is_white(
            #[trigger] (y + b)[i],
        ) by {
            if i < y.len() {
                assert((y + b)[i] == y[i]);
            } else {
                assert((y + b)[i] == b[i - y.len()]);
            }
        }
    }
    lemma_trimmed_is_snug(s);
    lemma_trimmed_of(a + x, m, y + b);
}

/// Trimming around a snug text.
pub proof fn lemma_trimmed_around(p: Seq<char>, w: Seq<char>, q: Seq<char>)
    requires
        snug(w),
        w.len() > 0,
    ensures
        text::trimmed(p + w + q) == text::trimmed_start(p) + w + text::trimmed_end(q),
{
    text::lemma_trimmed_start(p);
    lemma_trimmed_end(q);
    let p1 = text::trimmed_start(p);
    let q1 = text::trimmed_end(q);
    let s = p + w + q;
    let k = p.len() - p1.len();
    assert forall|i: int| 0 <= i < k implies text::is_white(#[trigger] s[i]) by {
        assert(s[i] == p[i]);
    }
    if p1.len() > 0 {
        assert(s[k] == p[k]);
        assert(p1[0] == p[k]);
    } else {
        assert(s[k] == w[0]);
    }
    lemma_trimmed_start_at(s, k);
    let m = p1 + w + q;
    assert(s.skip(k) =~= m) by {
        assert(p.skip(k) == p1);
        assert(p =~= p.take(k) + p1);
    }
    let n = (p1.len() + w.len() + q1.len()) as int;
    assert forall|i: int| n <= i < m.len() implies text::is_white(#[trigger] m[i]) by {
        assert(m[i] == q[i - p1.len() - w.len()]);
    }
    if q1.len() > 0 {
        assert(m[n - 1] == q[q1.len() - 1]);
        assert(q1.last() == q[q1.len() - 1]);
    } else {
        assert(m[n - 1] == w.last());
    }
    lemma_trimmed_end_at(m, n);
    assert(m.take(n) =~= p1 + w + q1);
}

/// White space behind a text stays where its start is trimmed, unless there is
/// nothing else.
pub proof fn lemma_start_before_white(s: Seq<char>, v: Seq<char>)
    requires
        all_white(v),
    ensures
        text::trimmed_start(s + v) == if text::trimmed_start(s).len() == 0 {
            Seq::<char>::empty()
        } else {
            text::trimmed_start(s) + v
        },
{
    text::lemma_trimmed_start(s);
    let t = text::trimmed_start(s);
    let x = s + v;
    let k = s.len() - t.len();
    assert forall|i: int| 0 <= i < k implies text::is_white(#[trigger] x[i]) by {
        assert(x[i] == s[i]);
    }
    if t.len() == 0 {
        assert forall|i: int| 0 <= i < x.len() implies text::is_white(#[trigger] x[i]) by {
            if i >= k {
                assert(x[i] == v[i - k]);
            }
        }
        lemma_trimmed_start_at(x, x.len() as int);
        assert(x.skip(x.len() as int) =~= Seq::<char>::empty());
    } else {
        assert(x[k] == t[0]);
        lemma_trimmed_start_at(x, k);
        assert(x.skip(k) =~= t + v);
    }
}

// ---------------------------------------------------------------------------
// Positions
// ---------------------------------------------------------------------------

/// The position of a pattern is the first index at which it occurs.
pub proof fn lemma_position_is(s: Seq<char>, p: Seq<char>, k: int)
    requires
        text::occurs_at(s, p, k),
        forall|j: int| 0 <= j < k ==> !#[trigger] text::occurs_at(s, p, j),
    ensures
        text::position(s, p) == Some(k),
{
    text::lemma_position_from(s, p, 0);
}

/// A pattern that occurs is found.
pub proof fn lemma_occurs_has(s: Seq<char>, p: Seq<char>, k: int)
    requires
        text::occurs_at(s, p, k),
    ensures
        text::has(s, p),
{
    text::lemma_position_from(s, p, 0);
}

/// Where `p` stands between two texts it occurs.
pub proof fn lemma_occurs_between(a: Seq<char>, p: Seq<char>, b: Seq<char>)
    ensures
        text::occurs_at(a + p + b, p, a.len() as int),
        text::has(a + p + b, p),
{
    assert((a + p + b).subrange(a.len() as int, (a.len() + p.len()) as int) =~= p);
    lemma_occurs_has(a + p + b, p, a.len() as int);
}

/// A text that begins with `p` is `p` and what follows it.
pub proof fn lemma_begins(p: Seq<char>, b: Seq<char>)
    ensures
        text::begins(p + b, p),
        text::after_prefix(p + b, p) == Some(b),
{
    assert((p + b).subrange(0, p.len() as int) =~= p);
    assert((p + b).skip(p.len() as int) =~= b);
}

/// A text that ends with `p` is what precedes it and `p`.
pub proof fn lemma_ends(a: Seq<char>, p: Seq<char>)
    ensures
        text::ends(a + p, p),
        text::before_suffix(a + p, p) == Some(a),
{
    assert((a + p).subrange(a.len() as int, (a.len() + p.len()) as int) =~= p);
    assert((a + p).take(a.len() as int) =~= a);
}

/// White space behind a text does not move a pattern that does not end with white
/// space.
pub proof fn lemma_position_before_white(s: Seq<char>, v: Seq<char>, p: Seq<char>)
    requires
        all_white(v),
        p.len() > 0,
        !text::is_white(p.last()),
    ensures
        text::position(s + v, p) == text::position(s, p),
{
    let x = s + v;
    assert forall|j: int| #[trigger] text::occurs_at(x, p, j) == text::occurs_at(s, p, j) by {
        let n = p.len() as int;
        if text::occurs_at(x, p, j) {
            assert(x.subrange(j, j + n)[n - 1] == x[j + n - 1]);
            if j + n > s.len() {
                assert(x[j + n - 1] == v[j + n - 1 - s.len()]);
            }
            assert(s.subrange(j, j + n) =~= x.subrange(j, j + n));
        }
        if text::occurs_at(s, p, j) {
            assert(x.subrange(j, j + n) =~= s.subrange(j, j + n));
        }
    }
    text::lemma_position_from(s, p, 0);
    match text::position(s, p) {
        Some(k) => {
            assert forall|j: int| 0 <= j < k implies !#[trigger] text::occurs_at(x, p, j) by {
                assert(!text::occurs_at(s, p, j));
            }
            assert(text::occurs_at(x, p, k));
            lemma_position_is(x, p, k);
        },
        None => {
            text::lemma_position_from(x, p, 0);
            match text::position(x, p) {
                Some(k) => {
                    assert(text::occurs_at(x, p, k));
                    assert(text::occurs_at(s, p, k));
                },
                None => {},
            }
        },
    }
}

// ---------------------------------------------------------------------------
// Lines
// ---------------------------------------------------------------------------

/// No line feed.
pub open spec fn one_line(s: Seq<char>) -> bool {
    forall|i: int| 0 <= i < s.len() ==> #[trigger] s[i] != '\n'
}

/// A line that reading it back leaves as it is: it holds no line feed and does
/// not end with a carriage return.
pub open spec fn settled_line(s: Seq<char>) -> bool {
    one_line(s) && (s.len() > 0 ==> s.last() != '\r')
}

/// Lines that reading them back leaves as they are.
pub open spec fn settled(ls: Seq<Seq<char>>) -> bool {
    forall|i: int| 0 <= i < ls.len() ==> settled_line(#[trigger] ls[i])
}

/// A line feed, as a literal and as a character.
pub proof fn lemma_feed()
    ensures
        "\n"@ == seq!['\n'],
{
    reveal_strlit("\n");
    assert("\n"@ =~= seq!['\n']);
}

/// Where no `c` stands, none is found.
pub proof fn lemma_char_from_none(s: Seq<char>, c: char, i: int)
    requires
        0 <= i,
        forall|k: int| i <= k < s.len() ==> #[trigger] s[k] != c,
    ensures
        text::char_from(s, c, i) is None,
{
    text::lemma_char_from_range(s, c, i);
}

/// The first line of a text, and the rest.
pub proof fn lemma_lines_cons(a: Seq<char>, b: Seq<char>)
    requires
        one_line(a),
    ensures
        text::lines_of(a + "\n"@ + b) == seq![text::without_cr(a)] + text::lines_of(b),
{
    lemma_feed();
    let s = a + "\n"@ + b;
    text::lemma_char_from_range(s, '\n', 0);
    assert(s[a.len() as int] == '\n');
    let i = text::char_from(s, '\n', 0)->0;
    assert(i == a.len()) by {
        if i < a.len() {
            assert(s[i] == a[i]);
        }
    }
    assert(s.take(i) =~= a);
    assert(s.skip(i + 1) =~= b);
}

/// A text without a line feed is one line.
pub proof fn lemma_lines_single(a: Seq<char>)
    requires
        one_line(a),
    ensures
        text::lines_of(a) == if a.len() == 0 {
            Seq::<Seq<char>>::empty()
        } else {
            seq![a]
        },
{
    lemma_char_from_none(a, '\n', 0);
}

/// Splits a text that holds a line feed at the first.
pub proof fn lemma_split_feed(s: Seq<char>) -> (r: (Seq<char>, Seq<char>))
    requires
        !one_line(s),
    ensures
        s == r.0 + "\n"@ + r.1,
        one_line(r.0),
{
    lemma_feed();
    text::lemma_char_from_range(s, '\n', 0);
    let i = text::char_from(s, '\n', 0)->0;
    let a = s.take(i);
    let b = s.skip(i + 1);
    assert(s =~= a + "\n"@ + b);
    (a, b)
}

/// The lines of a text hold no line feed.
pub proof fn lemma_lines_have_no_feed(s: Seq<char>)
    ensures
        forall|i: int| 0 <= i < text::lines_of(s).len() ==> one_line(#[trigger] text::lines_of(s)[i]),
    decreases s.len(),
{
    if one_line(s) {
        lemma_lines_single(s);
    } else {
        let (a, b) = lemma_split_feed(s);
        lemma_feed();
        lemma_lines_cons(a, b);
        lemma_lines_have_no_feed(b);
        let ls = text::lines_of(s);
        assert forall|i: int| 0 <= i < ls.len() implies one_line(#[trigger] ls[i]) by {
            if i == 0 {
                assert(ls[0] == text::without_cr(a));
            } else {
                assert(ls[i] == text::lines_of(b)[i - 1]);
            }
        }
    }
}

/// The lines of two texts, where the first ends with a line feed.
pub proof fn lemma_lines_append(x: Seq<char>, y: Seq<char>)
    requires
        x.len() > 0 ==> x.last() == '\n',
    ensures
        text::lines_of(x + y) == text::lines_of(x) + text::lines_of(y),
    decreases x.len(),
{
    if x.len() == 0 {
        assert(x + y =~= y);
        assert(text::lines_of(x) + text::lines_of(y) =~= text::lines_of(y));
    } else {
        assert(x[x.len() - 1] == '\n');
        let (a, b) = lemma_split_feed(x);
        lemma_feed();
        lemma_lines_cons(a, b);
        if b.len() > 0 {
            assert(b.last() == x.last());
        }
        lemma_lines_append(b, y);
        assert(x + y =~= a + "\n"@ + (b + y));
        lemma_lines_cons(a, b + y);
        assert(text::lines_of(x + y) =~= text::lines_of(x) + text::lines_of(y));
    }
}

/// Lines without the carriage return that reading takes from the end of each.
pub open spec fn dry(ls: Seq<Seq<char>>) -> Seq<Seq<char>> {
    Seq::new(ls.len(), |i: int| text::without_cr(ls[i]))
}

/// No line holds a line feed.
pub open spec fn all_one_line(ls: Seq<Seq<char>>) -> bool {
    forall|i: int| 0 <= i < ls.len() ==> one_line(#[trigger] ls[i])
}

/// The lines of a document are the lines that it was made of, each without a
/// carriage return at its end.
pub proof fn lemma_lines_written(ls: Seq<Seq<char>>)
    requires
        ls.len() > 0,
        all_one_line(ls),
    ensures
        text::lines_of(items::document(ls)) == dry(ls),
    decreases ls.len(),
{
    lemma_feed();
    let a = ls[0];
    assert(one_line(ls[0]));
    if ls.len() == 1 {
        assert(items::document(ls) =~= a + "\n"@ + seq![]);
        lemma_lines_cons(a, seq![]);
        assert(text::lines_of(seq![]) =~= seq![]);
        assert(seq![text::without_cr(a)] + Seq::<Seq<char>>::empty() =~= dry(ls));
    } else {
        let rest = ls.skip(1);
        assert forall|i: int| 0 <= i < rest.len() implies one_line(#[trigger] rest[i]) by {
            assert(rest[i] == ls[i + 1]);
        }
        lemma_lines_written(rest);
        assert(items::document(ls) =~= a + "\n"@ + items::document(rest));
        lemma_lines_cons(a, items::document(rest));
        assert(seq![text::without_cr(a)] + dry(rest) =~= dry(ls));
    }
}

/// The lines of a document are the lines that it was made of.
pub proof fn lemma_lines_document(ls: Seq<Seq<char>>)
    requires
        ls.len() > 0,
        settled(ls),
    ensures
        text::lines_of(items::document(ls)) == ls,
{
    assert forall|i: int| 0 <= i < ls.len() implies one_line(#[trigger] ls[i]) && text::without_cr(
        ls[i],
    ) == ls[i] by {
        assert(settled_line(ls[i]));
    }
    lemma_lines_written(ls);
    assert(dry(ls) =~= ls);
}

/// The lines of joined lines, where the last is not empty.
pub proof fn lemma_lines_joined(ls: Seq<Seq<char>>)
    requires
        settled(ls),
        ls.len() > 0 ==> ls.last().len() > 0,
    ensures
        text::lines_of(text::joined(ls, "\n"@)) == ls,
    decreases ls.len(),
{
    lemma_feed();
    if ls.len() == 0 {
        assert(text::lines_of(seq![]) =~= ls);
    } else if ls.len() == 1 {
        assert(settled_line(ls[0]));
        lemma_lines_single(ls[0]);
        assert(seq![ls[0]] =~= ls);
    } else {
        let a = ls[0];
        let rest = ls.skip(1);
        assert(settled_line(ls[0]));
        assert forall|i: int| 0 <= i < rest.len() implies settled_line(#[trigger] rest[i]) by {
            assert(rest[i] == ls[i + 1]);
        }
        assert(rest.last() == ls.last());
        lemma_lines_joined(rest);
        lemma_lines_cons(a, text::joined(rest, "\n"@));
        assert(seq![a] + rest =~= ls);
    }
}

/// Joining two lists of lines.
pub proof fn lemma_joined_concat(x: Seq<Seq<char>>, y: Seq<Seq<char>>, sep: Seq<char>)
    ensures
        text::joined(x + y, sep) == if x.len() == 0 {
            text::joined(y, sep)
        } else if y.len() == 0 {
            text::joined(x, sep)
        } else {
            text::joined(x, sep) + sep + text::joined(y, sep)
        },
    decreases x.len(),
{
    if x.len() == 0 {
        assert(x + y =~= y);
    } else if y.len() == 0 {
        assert(x + y =~= x);
    } else if x.len() == 1 {
        assert((x + y).skip(1) =~= y);
    } else {
        assert((x + y).skip(1) =~= x.skip(1) + y);
        lemma_joined_concat(x.skip(1), y, sep);
        assert(x[0] + sep + (text::joined(x.skip(1), sep) + sep + text::joined(y, sep)) =~= x[0]
            + sep + text::joined(x.skip(1), sep) + sep + text::joined(y, sep));
    }
}

/// No line of the text ends with a carriage return and a line feed.
pub open spec fn no_crlf(s: Seq<char>) -> bool {
    forall|i: int| 0 <= i && i + 1 < s.len() && #[trigger] s[i] == '\r' ==> s[i + 1] != '\n'
}

/// Joining the lines of a text gives it back, apart from a line feed at its end.
pub proof fn lemma_joined_lines(s: Seq<char>)
    requires
        no_crlf(s),
    ensures
        s.len() > 0 && s.last() == '\n' ==> text::joined(text::lines_of(s), "\n"@) + "\n"@ == s,
        s.len() == 0 || s.last() != '\n' ==> text::joined(text::lines_of(s), "\n"@) == s,
        s.len() > 0 ==> text::lines_of(s).len() > 0,
    decreases s.len(),
{
    lemma_feed();
    if one_line(s) {
        lemma_lines_single(s);
        if s.len() > 0 {
            assert(s[s.len() - 1] != '\n');
        }
    } else {
        let (a, b) = lemma_split_feed(s);
        lemma_lines_cons(a, b);
        assert(text::without_cr(a) == a) by {
            if a.len() > 0 && a.last() == '\r' {
                let i = a.len() - 1;
                assert(s[i] == '\r');
                assert(s[i + 1] == '\n');
            }
        }
        assert forall|i: int| 0 <= i && i + 1 < b.len() && #[trigger] b[i] == '\r' implies b[i + 1]
            != '\n' by {
            assert(s[a.len() + 1 + i] == b[i]);
            assert(s[a.len() + 1 + i + 1] == b[i + 1]);
        }
        lemma_joined_lines(b);
        let lb = text::lines_of(b);
        lemma_joined_concat(seq![a], lb, "\n"@);
        assert(text::joined(seq![a], "\n"@) == a);
        if b.len() == 0 {
            assert(lb =~= seq![]);
            assert(seq![a] + lb =~= seq![a]);
            assert(s =~= a + "\n"@);
        } else {
            assert(b.last() == s.last());
            assert(s =~= a + "\n"@ + b);
            if s.last() == '\n' {
                assert(a + "\n"@ + text::joined(lb, "\n"@) + "\n"@ =~= a + "\n"@ + (text::joined(
                    lb,
                    "\n"@,
                ) + "\n"@));
            }
        }
    }
}

// ---------------------------------------------------------------------------
// The first and the last line
// ---------------------------------------------------------------------------

/// Splits a text behind its last line feed.
pub proof fn lemma_split_last_feed(s: Seq<char>) -> (r: (Seq<char>, Seq<char>))
    ensures
        s == r.0 + r.1,
        r.0.len() > 0 ==> r.0.last() == '\n',
        one_line(r.1),
    decreases s.len(),
{
    if s.len() == 0 || s.last() == '\n' {
        assert(s + Seq::<char>::empty() =~= s);
        (s, Seq::<char>::empty())
    } else {
        let (p, l) = lemma_split_last_feed(s.drop_last());
        let m = l.push(s.last());
        assert(s =~= s.drop_last().push(s.last()));
        assert(s =~= p + m);
        assert forall|i: int| 0 <= i < m.len() implies #[trigger] m[i] != '\n' by {
            if i < l.len() {
                assert(m[i] == l[i]);
            }
        }
        (p, m)
    }
}

/// Some line of `ls` is `l`, apart from white space around it.
pub open spec fn has_line(ls: Seq<Seq<char>>, l: Seq<char>) -> bool {
    exists|i: int| 0 <= i < ls.len() && text::trimmed(#[trigger] ls[i]) == l
}

/// One trailing carriage return does not count when a line is trimmed.
pub proof fn lemma_trimmed_without_cr(s: Seq<char>)
    ensures
        text::trimmed(text::without_cr(s)) == text::trimmed(s),
{
    if s.len() > 0 && s.last() == '\r' {
        let e = Seq::<char>::empty();
        assert(s =~= e + s.drop_last() + seq!['\r']);
        assert(all_white(seq!['\r']));
        lemma_trimmed_pad(e, s.drop_last(), seq!['\r']);
    }
}

/// The lines of a text that gets white space at its end are still there.
pub proof fn lemma_lines_before_white(x: Seq<char>, w: Seq<char>, l: Seq<char>)
    requires
        all_white(w),
        x.len() > 0 ==> !text::is_white(x.last()),
        has_line(text::lines_of(x), l),
    ensures
        has_line(text::lines_of(x + w), l),
{
    let (p, m) = lemma_split_last_feed(x);
    lemma_lines_append(p, m);
    assert(x + w =~= p + (m + w));
    lemma_lines_append(p, m + w);
    lemma_lines_single(m);
    let ls = text::lines_of(x);
    let i = choose|i: int| 0 <= i < ls.len() && text::trimmed(#[trigger] ls[i]) == l;
    let new = text::lines_of(x + w);
    let k = text::lines_of(p).len() as int;
    if i < k {
        assert(new[i] == ls[i]);
    } else {
        assert(ls[i] == m);
        let tail = m + w;
        if one_line(tail) {
            lemma_lines_single(tail);
            assert(new[k] == tail);
            let e = Seq::<char>::empty();
            assert(tail =~= e + m + w);
            lemma_trimmed_pad(e, m, w);
        } else {
            let (a, b) = lemma_split_feed(tail);
            lemma_feed();
            lemma_lines_cons(a, b);
            assert(new[k] == text::without_cr(a));
            lemma_trimmed_without_cr(a);
            assert(a.len() >= m.len()) by {
                if a.len() < m.len() {
                    assert(tail[a.len() as int] == '\n');
                    assert(m[a.len() as int] == '\n');
                }
            }
            let v = a.skip(m.len() as int);
            assert forall|j: int| 0 <= j < v.len() implies text::is_white(#[trigger] v[j]) by {
                assert(v[j] == tail[m.len() + j]);
                assert(tail[m.len() + j] == w[j]);
            }
            assert forall|j: int| 0 <= j < m.len() implies a[j] == #[trigger] m[j] by {
                assert(tail[j] == a[j]);
            }
            let e = Seq::<char>::empty();
            assert(a =~= e + m + v);
            lemma_trimmed_pad(e, m, v);
        }
    }
}

/// The lines of a text that gets white space at its start are still there.
pub proof fn lemma_lines_behind_white(w: Seq<char>, x: Seq<char>, l: Seq<char>)
    requires
        all_white(w),
        has_line(text::lines_of(x), l),
    ensures
        has_line(text::lines_of(w + x), l),
    decreases w.len(),
{
    if w.len() == 0 {
        assert(w + x =~= x);
    } else {
        let c = w.last();
        let v = w.drop_last();
        let y = seq![c] + x;
        assert(text::is_white(w[w.len() - 1]));
        assert forall|i: int| 0 <= i < v.len() implies text::is_white(#[trigger] v[i]) by {
            assert(v[i] == w[i]);
        }
        let ls = text::lines_of(x);
        let i = choose|i: int| 0 <= i < ls.len() && text::trimmed(#[trigger] ls[i]) == l;
        let e = Seq::<char>::empty();
        lemma_feed();
        assert(has_line(text::lines_of(y), l)) by {
            let new = text::lines_of(y);
            if c == '\n' {
                assert(y =~= e + "\n"@ + x);
                lemma_lines_cons(e, x);
                assert(new[i + 1] == ls[i]);
            } else if one_line(x) {
                lemma_lines_single(x);
                assert forall|j: int| 0 <= j < y.len() implies #[trigger] y[j] != '\n' by {
                    if j > 0 {
                        assert(y[j] == x[j - 1]);
                    }
                }
                lemma_lines_single(y);
                assert(new[0] == y);
                assert(y =~= seq![c] + x + e);
                lemma_trimmed_pad(seq![c], x, e);
            } else {
                let (a, b) = lemma_split_feed(x);
                lemma_lines_cons(a, b);
                let a2 = seq![c] + a;
                assert forall|j: int| 0 <= j < a2.len() implies #[trigger] a2[j] != '\n' by {
                    if j > 0 {
                        assert(a2[j] == a[j - 1]);
                    }
                }
                assert(y =~= a2 + "\n"@ + b);
                lemma_lines_cons(a2, b);
                if i == 0 {
                    assert(ls[0] == text::without_cr(a));
                    lemma_trimmed_without_cr(a);
                    lemma_trimmed_without_cr(a2);
                    assert(a2 =~= seq![c] + a + e);
                    lemma_trimmed_pad(seq![c], a, e);
                    assert(new[0] == text::without_cr(a2));
                } else {
                    assert(new[i] == ls[i]);
                }
            }
        }
        lemma_lines_behind_white(v, y, l);
        assert(w + x =~= v + y);
    }
}

/// A line feed behind a text that does not end with white space adds no line.
pub proof fn lemma_lines_feed(x: Seq<char>)
    requires
        x.len() > 0,
        !text::is_white(x.last()),
    ensures
        text::lines_of(x + "\n"@) == text::lines_of(x),
{
    let (p, m) = lemma_split_last_feed(x);
    let e = Seq::<char>::empty();
    lemma_feed();
    assert(m.len() > 0) by {
        if m.len() == 0 {
            assert(x =~= p);
        }
    }
    assert(m.last() == x.last());
    lemma_lines_append(p, m);
    lemma_lines_single(m);
    assert(x + "\n"@ =~= p + (m + "\n"@ + e));
    lemma_lines_append(p, m + "\n"@ + e);
    lemma_lines_cons(m, e);
    assert(text::lines_of(e) =~= seq![]);
    assert(text::without_cr(m) == m);
    assert(seq![m] + Seq::<Seq<char>>::empty() =~= seq![m]);
}

/// Joined settled lines hold no carriage return before a line feed.
pub proof fn lemma_joined_no_crlf(ls: Seq<Seq<char>>)
    requires
        settled(ls),
    ensures
        no_crlf(text::joined(ls, "\n"@)),
    decreases ls.len(),
{
    lemma_feed();
    let j = text::joined(ls, "\n"@);
    if ls.len() == 0 {
    } else {
        let a = ls[0];
        assert(settled_line(ls[0]));
        if ls.len() == 1 {
            assert forall|i: int| 0 <= i && i + 1 < j.len() && #[trigger] j[i] == '\r' implies j[i
                + 1] != '\n' by {
                assert(j[i + 1] == a[i + 1]);
            }
        } else {
            let rest = ls.skip(1);
            assert forall|i: int| 0 <= i < rest.len() implies settled_line(#[trigger] rest[i]) by {
                assert(rest[i] == ls[i + 1]);
            }
            lemma_joined_no_crlf(rest);
            let r = text::joined(rest, "\n"@);
            assert forall|i: int| 0 <= i && i + 1 < j.len() && #[trigger] j[i] == '\r' implies j[i
                + 1] != '\n' by {
                let n = a.len() as int;
                if i + 1 < n {
                    assert(j[i + 1] == a[i + 1]);
                } else if i < n {
                    assert(j[i] == a.last());
                } else if i > n {
                    assert(j[i] == r[i - n - 1]);
                    assert(j[i + 1] == r[i - n]);
                }
            }
        }
    }
}

/// A part of a text without carriage return and line feed.
pub proof fn lemma_no_crlf_part(a: Seq<char>, b: Seq<char>, c: Seq<char>)
    requires
        no_crlf(a + b + c),
    ensures
        no_crlf(b),
{
    let s = a + b + c;
    assert forall|i: int| 0 <= i && i + 1 < b.len() && #[trigger] b[i] == '\r' implies b[i + 1]
        != '\n' by {
        assert(s[a.len() + i] == b[i]);
        assert(s[a.len() + i + 1] == b[i + 1]);
    }
}

/// A text and its trimmed form have the same trimmed form.
pub proof fn lemma_trimmed_of_trimmed_end(s: Seq<char>)
    ensures
        text::trimmed(text::trimmed_end(s)) == text::trimmed(s),
        s == text::trimmed_end(s) + s.skip(text::trimmed_end(s).len() as int),
        all_white(s.skip(text::trimmed_end(s).len() as int)),
{
    lemma_trimmed_end(s);
    let x = text::trimmed_end(s);
    let w = s.skip(x.len() as int);
    assert forall|i: int| 0 <= i < w.len() implies text::is_white(#[trigger] w[i]) by {
        assert(w[i] == s[i + x.len()]);
    }
    let e = Seq::<char>::empty();
    assert(s =~= x + w);
    assert(s =~= e + x + w);
    lemma_trimmed_pad(e, x, w);
}

} // verus!
