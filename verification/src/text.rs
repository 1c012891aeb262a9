//! Text primitives: what a string holds is a sequence of characters, and every
//! operation here is stated as a function on such sequences.
use vstd::prelude::*;
use vstd::string::*;

verus! {

/// `String::push` appends one character to the end of the string.
pub assume_specification[ String::push ](s: &mut String, c: char)
    ensures
        final(s)@ == old(s)@.push(c),
;

/// What each element of a list stands for.
pub open spec fn views<T: View>(v: Seq<T>) -> Seq<T::V> {
    Seq::new(v.len(), |i: int| v[i]@)
}

/// The contents of an optional string.
pub open spec fn opt_view(o: Option<String>) -> Option<Seq<char>> {
    match o {
        Some(s) => Some(s@),
        None => None,
    }
}

// ---------------------------------------------------------------------------
// Characters and slices
// ---------------------------------------------------------------------------

/// The characters with the Unicode `White_Space` property.
pub open spec fn is_white(c: char) -> bool {
    ||| '\u{9}' <= c <= '\u{d}'
    ||| c == ' '
    ||| c == '\u{85}'
    ||| c == '\u{a0}'
    ||| c == '\u{1680}'
    ||| '\u{2000}' <= c <= '\u{200a}'
    ||| c == '\u{2028}'
    ||| c == '\u{2029}'
    ||| c == '\u{202f}'
    ||| c == '\u{205f}'
    ||| c == '\u{3000}'
}

/// Whether a character is white space.
pub fn is_whitespace(c: char) -> (b: bool)
    ensures
        b == is_white(c),
{
    ('\u{9}' <= c && c <= '\u{d}') || c == ' ' || c == '\u{85}' || c == '\u{a0}' || c
        == '\u{1680}' || ('\u{2000}' <= c && c <= '\u{200a}') || c == '\u{2028}' || c == '\u{2029}'
        || c == '\u{202f}' || c == '\u{205f}' || c == '\u{3000}'
}

/// The characters of a string, one by one.
pub fn chars_of(s: &str) -> (v: Vec<char>)
    ensures
        v@ == s@,
{
    let mut v: Vec<char> = Vec::new();
    for c in it: s.chars()
        invariant
            it.seq() == s@,
            v@ == s@.take(it.index()),
    {
        v.push(c);
        proof {
            assert(s@.take(it.index() + 1) =~= s@.take(it.index()).push(c));
        }
    }
    proof {
        assert(s@.take(s@.len() as int) =~= s@);
    }
    v
}

/// The string made of `v[from..to]`.
pub fn slice_of(v: &Vec<char>, from: usize, to: usize) -> (s: String)
    requires
        from <= to <= v@.len(),
    ensures
        s@ == v@.subrange(from as int, to as int),
{
    let mut s = String::new();
    let mut i: usize = from;
    while i < to
        invariant
            from <= i <= to <= v@.len(),
            s@ == v@.subrange(from as int, i as int),
        decreases to - i,
    {
        s.push(v[i]);
        proof {
            assert(v@.subrange(from as int, i as int + 1) =~= v@.subrange(
                from as int,
                i as int,
            ).push(v@[i as int]));
        }
        i += 1;
    }
    s
}

/// Whether two strings hold the same characters.
pub fn same(a: &str, b: &str) -> (r: bool)
    ensures
        r == (a@ == b@),
{
    let x = String::from_str(a);
    let y = String::from_str(b);
    x == y
}

/// A copy of a list of strings.
pub fn clone_list(v: &Vec<String>) -> (r: Vec<String>)
    ensures
        views(r@) == views(v@),
{
    let mut r: Vec<String> = Vec::new();
    let mut i: usize = 0;
    while i < v.len()
        invariant
            0 <= i <= v@.len(),
            views(r@) =~= views(v@).take(i as int),
        decreases v@.len() - i,
    {
        r.push(v[i].clone());
        proof {
            assert(views(r@).last() == v@[i as int]@);
            assert(views(v@).take(i as int + 1) =~= views(v@).take(i as int).push(v@[i as int]@));
        }
        i += 1;
    }
    proof {
        assert(views(v@).take(i as int) =~= views(v@));
    }
    r
}

/// A copy of an optional string.
pub fn clone_opt(o: &Option<String>) -> (r: Option<String>)
    ensures
        opt_view(r) == opt_view(*o),
{
    match o {
        Some(s) => Some(s.clone()),
        None => None,
    }
}

// ---------------------------------------------------------------------------
// Prefixes, suffixes and positions
// ---------------------------------------------------------------------------

/// `p` occurs in `s` at index `i`.
pub open spec fn occurs_at(s: Seq<char>, p: Seq<char>, i: int) -> bool {
    0 <= i && i + p.len() <= s.len() && s.subrange(i, i + p.len()) == p
}

/// `s` begins with `p`.
pub open spec fn begins(s: Seq<char>, p: Seq<char>) -> bool {
    occurs_at(s, p, 0)
}

/// `s` ends with `p`.
pub open spec fn ends(s: Seq<char>, p: Seq<char>) -> bool {
    occurs_at(s, p, s.len() - p.len())
}

/// The first index at or after `i` at which `p` occurs in `s`.
pub open spec fn position_from(s: Seq<char>, p: Seq<char>, i: int) -> Option<int>
    decreases s.len() + 1 - i,
{
    if i < 0 || i + p.len() > s.len() {
        None
    } else if occurs_at(s, p, i) {
        Some(i)
    } else {
        position_from(s, p, i + 1)
    }
}

/// The first index at which `p` occurs in `s`.
pub open spec fn position(s: Seq<char>, p: Seq<char>) -> Option<int> {
    position_from(s, p, 0)
}

/// `p` occurs somewhere in `s`.
pub open spec fn has(s: Seq<char>, p: Seq<char>) -> bool {
    position(s, p) is Some
}

/// What follows the prefix `p` of `s`.
pub open spec fn after_prefix(s: Seq<char>, p: Seq<char>) -> Option<Seq<char>> {
    if begins(s, p) {
        Some(s.skip(p.len() as int))
    } else {
        None
    }
}

/// What precedes the suffix `p` of `s`.
pub open spec fn before_suffix(s: Seq<char>, p: Seq<char>) -> Option<Seq<char>> {
    if ends(s, p) {
        Some(s.take(s.len() - p.len()))
    } else {
        None
    }
}

/// What precedes and what follows the first `p` in `s`.
pub open spec fn cut_at(s: Seq<char>, p: Seq<char>) -> Option<(Seq<char>, Seq<char>)> {
    match position(s, p) {
        Some(i) => Some((s.take(i), s.skip(i + p.len()))),
        None => None,
    }
}

/// `s` with its first `from` turned into `to`.
pub open spec fn replaced_first(s: Seq<char>, from: Seq<char>, to: Seq<char>) -> Seq<char> {
    match position(s, from) {
        Some(i) => s.take(i) + to + s.skip(i + from.len()),
        None => s,
    }
}

/// Whether `p` occurs in `s` at index `i`, on character lists.
fn occurs_in(s: &Vec<char>, p: &Vec<char>, i: usize) -> (b: bool)
    ensures
        b == occurs_at(s@, p@, i as int),
{
    if p.len() > s.len() || i > s.len() - p.len() {
        return false;
    }
    let mut k: usize = 0;
    while k < p.len()
        invariant
            0 <= k <= p.len(),
            i + p.len() <= s.len(),
            forall|j: int| 0 <= j < k ==> s@[i + j] == p@[j],
        decreases p@.len() - k,
    {
        if s[i + k] != p[k] {
            proof {
                assert(s@.subrange(i as int, i + p@.len())[k as int] != p@[k as int]);
            }
            return false;
        }
        k += 1;
    }
    proof {
        assert(s@.subrange(i as int, i + p@.len()) =~= p@);
    }
    true
}

/// The first index at or after `i` at which `p` occurs, on character lists.
pub fn find_in(s: &Vec<char>, p: &Vec<char>, from: usize) -> (r: Option<usize>)
    ensures
        match r {
            Some(i) => position_from(s@, p@, from as int) == Some(i as int) && from <= i && i
                + p.len() <= s.len(),
            None => position_from(s@, p@, from as int) is None,
        },
{
    let mut i: usize = from;
    while p.len() <= s.len() && i <= s.len() - p.len()
        invariant
            from <= i,
            position_from(s@, p@, from as int) == position_from(s@, p@, i as int),
        decreases s@.len() + 1 - i,
    {
        if occurs_in(s, p, i) {
            return Some(i);
        }
        if i == s.len() - p.len() {
            proof {
                assert(position_from(s@, p@, i + 1) is None);
            }
            return None;
        }
        i += 1;
    }
    None
}

/// The first index of a pattern, counted in characters.
pub fn find(s: &str, p: &str) -> (r: Option<usize>)
    ensures
        match r {
            Some(i) => position(s@, p@) == Some(i as int) && i + p@.len() <= s@.len(),
            None => position(s@, p@) is None,
        },
{
    let v = chars_of(s);
    let q = chars_of(p);
    find_in(&v, &q, 0)
}

/// Whether a pattern occurs in a string.
pub fn contains(s: &str, p: &str) -> (b: bool)
    ensures
        b == has(s@, p@),
{
    find(s, p).is_some()
}

/// Whether a string begins with a prefix.
pub fn starts_with(s: &str, p: &str) -> (b: bool)
    ensures
        b == begins(s@, p@),
{
    let v = chars_of(s);
    let q = chars_of(p);
    occurs_in(&v, &q, 0)
}

/// What follows a prefix, where the string has it.
pub fn strip_prefix(s: &str, p: &str) -> (r: Option<String>)
    ensures
        opt_view(r) == after_prefix(s@, p@),
{
    let v = chars_of(s);
    let q = chars_of(p);
    if occurs_in(&v, &q, 0) {
        Some(slice_of(&v, q.len(), v.len()))
    } else {
        None
    }
}

/// What precedes a suffix, where the string has it.
pub fn strip_suffix(s: &str, p: &str) -> (r: Option<String>)
    ensures
        opt_view(r) == before_suffix(s@, p@),
{
    let v = chars_of(s);
    let q = chars_of(p);
    if q.len() <= v.len() && occurs_in(&v, &q, v.len() - q.len()) {
        Some(slice_of(&v, 0, v.len() - q.len()))
    } else {
        None
    }
}

/// Whether a string ends with a suffix.
pub fn ends_with(s: &str, p: &str) -> (b: bool)
    ensures
        b == ends(s@, p@),
{
    strip_suffix(s, p).is_some()
}

/// What precedes and what follows the first occurrence of a pattern.
pub fn split_once(s: &str, p: &str) -> (r: Option<(String, String)>)
    ensures
        match r {
            Some((a, b)) => cut_at(s@, p@) == Some((a@, b@)),
            None => cut_at(s@, p@) is None,
        },
{
    let v = chars_of(s);
    let q = chars_of(p);
    match find_in(&v, &q, 0) {
        Some(i) => Some((slice_of(&v, 0, i), slice_of(&v, i + q.len(), v.len()))),
        None => None,
    }
}

/// The string with the first occurrence of `from` turned into `to`.
pub fn replace_first(s: &str, from: &str, to: &str) -> (r: String)
    ensures
        r@ == replaced_first(s@, from@, to@),
{
    match split_once(s, from) {
        Some((a, b)) => {
            let mut out = a;
            out.append(to);
            out.append(&b);
            out
        },
        None => String::from_str(s),
    }
}

/// Where a pattern is found it occurs, and nowhere before.
pub proof fn lemma_position_from(s: Seq<char>, p: Seq<char>, i: int)
    requires
        0 <= i,
    ensures
        match position_from(s, p, i) {
            Some(j) => i <= j && occurs_at(s, p, j) && forall|k: int|
                i <= k < j ==> !#[trigger] occurs_at(s, p, k),
            None => forall|k: int| i <= k ==> !#[trigger] occurs_at(s, p, k),
        },
    decreases s.len() + 1 - i,
{
    if i + p.len() <= s.len() && !occurs_at(s, p, i) {
        lemma_position_from(s, p, i + 1);
    }
}

/// `s` with every `from`, taken from the left and without overlap, turned into `to`.
pub open spec fn replaced(s: Seq<char>, from: Seq<char>, to: Seq<char>) -> Seq<char>
    decreases s.len(),
{
    if from.len() == 0 {
        s
    } else {
        match position(s, from) {
            Some(i) => {
                proof {
                    lemma_position_from(s, from, 0);
                }
                s.take(i) + to + replaced(s.skip(i + from.len()), from, to)
            },
            None => s,
        }
    }
}

/// The string with every occurrence of `from` turned into `to`.
pub fn replace(s: &str, from: &str, to: &str) -> (r: String)
    requires
        from@.len() > 0,
    ensures
        r@ == replaced(s@, from@, to@),
{
    let mut out = String::new();
    let mut rest = String::from_str(s);
    proof {
        assert(seq![] + replaced(s@, from@, to@) =~= replaced(s@, from@, to@));
    }
    loop
        invariant
            from@.len() > 0,
            replaced(s@, from@, to@) == out@ + replaced(rest@, from@, to@),
        decreases rest@.len(),
    {
        let ghost before = out@;
        match split_once(&rest, from) {
            Some((a, b)) => {
                out.append(&a);
                out.append(to);
                proof {
                    lemma_position_from(rest@, from@, 0);
                    assert(before + (a@ + to@ + replaced(b@, from@, to@)) =~= out@ + replaced(
                        b@,
                        from@,
                        to@,
                    ));
                }
                rest = b;
            },
            None => {
                out.append(&rest);
                return out;
            },
        }
    }
}

// ---------------------------------------------------------------------------
// Trimming
// ---------------------------------------------------------------------------

/// `s` without its leading white space.
pub open spec fn trimmed_start(s: Seq<char>) -> Seq<char>
    decreases s.len(),
{
    if s.len() > 0 && is_white(s[0]) {
        trimmed_start(s.skip(1))
    } else {
        s
    }
}

/// `s` without its trailing white space.
pub open spec fn trimmed_end(s: Seq<char>) -> Seq<char>
    decreases s.len(),
{
    if s.len() > 0 && is_white(s.last()) {
        trimmed_end(s.drop_last())
    } else {
        s
    }
}

/// `s` without white space at either end.
pub open spec fn trimmed(s: Seq<char>) -> Seq<char> {
    trimmed_end(trimmed_start(s))
}

/// `s` without its leading `c`s.
pub open spec fn without_leading(s: Seq<char>, c: char) -> Seq<char>
    decreases s.len(),
{
    if s.len() > 0 && s[0] == c {
        without_leading(s.skip(1), c)
    } else {
        s
    }
}

/// `s` without its trailing `c`s.
pub open spec fn without_trailing(s: Seq<char>, c: char) -> Seq<char>
    decreases s.len(),
{
    if s.len() > 0 && s.last() == c {
        without_trailing(s.drop_last(), c)
    } else {
        s
    }
}

/// The index of the first character that is not white space.
fn white_prefix(v: &Vec<char>) -> (i: usize)
    ensures
        i <= v.len(),
        trimmed_start(v@) == v@.skip(i as int),
{
    let mut i: usize = 0;
    proof {
        assert(v@.skip(0) =~= v@);
    }
    while i < v.len() && is_whitespace(v[i])
        invariant
            0 <= i <= v.len(),
            trimmed_start(v@) == trimmed_start(v@.skip(i as int)),
        decreases v.len() - i,
    {
        proof {
            assert(v@.skip(i as int).skip(1) =~= v@.skip(i as int + 1));
        }
        i += 1;
    }
    i
}

/// The end of `v[from..]` without its trailing white space.
fn white_suffix(v: &Vec<char>, from: usize) -> (k: usize)
    requires
        from <= v.len(),
    ensures
        from <= k <= v.len(),
        trimmed_end(v@.skip(from as int)) == v@.subrange(from as int, k as int),
{
    let mut k: usize = v.len();
    proof {
        assert(v@.skip(from as int) =~= v@.subrange(from as int, k as int));
    }
    while k > from && is_whitespace(v[k - 1])
        invariant
            from <= k <= v.len(),
            trimmed_end(v@.skip(from as int)) == trimmed_end(v@.subrange(from as int, k as int)),
        decreases k,
    {
        proof {
            assert(v@.subrange(from as int, k as int).drop_last() =~= v@.subrange(
                from as int,
                k as int - 1,
            ));
        }
        k -= 1;
    }
    k
}

/// The string without its leading white space.
pub fn trim_start(s: &str) -> (r: String)
    ensures
        r@ == trimmed_start(s@),
{
    let v = chars_of(s);
    let i: usize = white_prefix(&v);
    slice_of(&v, i, v.len())
}

/// The string without its trailing white space.
pub fn trim_end(s: &str) -> (r: String)
    ensures
        r@ == trimmed_end(s@),
{
    let v = chars_of(s);
    let k: usize = white_suffix(&v, 0);
    proof {
        assert(v@.skip(0) =~= v@);
    }
    slice_of(&v, 0, k)
}

/// The string without white space at either end.
pub fn trim(s: &str) -> (r: String)
    ensures
        r@ == trimmed(s@),
{
    let v = chars_of(s);
    let i: usize = white_prefix(&v);
    let k: usize = white_suffix(&v, i);
    slice_of(&v, i, k)
}

/// The string without its leading `c`s.
pub fn trim_start_char(s: &str, c: char) -> (r: String)
    ensures
        r@ == without_leading(s@, c),
{
    let v = chars_of(s);
    let mut i: usize = 0;
    proof {
        assert(v@.skip(0) =~= v@);
    }
    while i < v.len() && v[i] == c
        invariant
            0 <= i <= v.len(),
            without_leading(v@, c) == without_leading(v@.skip(i as int), c),
        decreases v.len() - i,
    {
        proof {
            assert(v@.skip(i as int).skip(1) =~= v@.skip(i as int + 1));
        }
        i += 1;
    }
    slice_of(&v, i, v.len())
}

/// The string without its trailing `c`s.
pub fn trim_end_char(s: &str, c: char) -> (r: String)
    ensures
        r@ == without_trailing(s@, c),
{
    let v = chars_of(s);
    let mut k: usize = v.len();
    proof {
        assert(v@.take(k as int) =~= v@);
    }
    while k > 0 && v[k - 1] == c
        invariant
            0 <= k <= v.len(),
            without_trailing(v@, c) == without_trailing(v@.take(k as int), c),
        decreases k,
    {
        proof {
            assert(v@.take(k as int).drop_last() =~= v@.take(k as int - 1));
        }
        k -= 1;
    }
    slice_of(&v, 0, k)
}

// ---------------------------------------------------------------------------
// Lines
// ---------------------------------------------------------------------------

/// The first index at or after `i` at which `c` stands in `s`.
pub open spec fn char_from(s: Seq<char>, c: char, i: int) -> Option<int>
    decreases s.len() - i,
{
    if i < 0 || i >= s.len() {
        None
    } else if s[i] == c {
        Some(i)
    } else {
        char_from(s, c, i + 1)
    }
}

/// A character that is found stands where it was found, and nowhere before.
pub proof fn lemma_char_from_range(s: Seq<char>, c: char, i: int)
    requires
        0 <= i,
    ensures
        match char_from(s, c, i) {
            Some(j) => i <= j < s.len() && s[j] == c && forall|k: int| i <= k < j ==> s[k] != c,
            None => forall|k: int| i <= k < s.len() ==> s[k] != c,
        },
    decreases s.len() - i,
{
    if i < s.len() && s[i] != c {
        lemma_char_from_range(s, c, i + 1);
    }
}

/// `s` without one trailing carriage return.
pub open spec fn without_cr(s: Seq<char>) -> Seq<char> {
    if s.len() > 0 && s.last() == '\r' {
        s.drop_last()
    } else {
        s
    }
}

/// The lines of a text: each ends at a line feed, or at a carriage return and a
/// line feed; what follows the last line feed is a line where it is not empty.
pub open spec fn lines_of(s: Seq<char>) -> Seq<Seq<char>>
    decreases s.len(),
{
    if s.len() == 0 {
        seq![]
    } else {
        match char_from(s, '\n', 0) {
            Some(i) => {
                proof {
                    lemma_char_from_range(s, '\n', 0);
                }
                seq![without_cr(s.take(i))] + lines_of(s.skip(i + 1))
            },
            None => seq![s],
        }
    }
}

/// The pieces of `s` between the `c`s: one more than there are `c`s.
pub open spec fn split_of(s: Seq<char>, c: char) -> Seq<Seq<char>>
    decreases s.len(),
{
    match char_from(s, c, 0) {
        Some(i) => {
            proof {
                lemma_char_from_range(s, c, 0);
            }
            seq![s.take(i)] + split_of(s.skip(i + 1), c)
        },
        None => seq![s],
    }
}

/// The texts of a list with `sep` between neighbours.
pub open spec fn joined(ls: Seq<Seq<char>>, sep: Seq<char>) -> Seq<char>
    decreases ls.len(),
{
    if ls.len() == 0 {
        seq![]
    } else if ls.len() == 1 {
        ls[0]
    } else {
        ls[0] + sep + joined(ls.skip(1), sep)
    }
}

/// The first index at or after `from` at which `c` stands.
fn char_in(v: &Vec<char>, c: char, from: usize) -> (r: Option<usize>)
    requires
        from <= v.len(),
    ensures
        match r {
            Some(i) => from <= i < v.len() && char_from(v@, c, from as int) == Some(i as int),
            None => char_from(v@, c, from as int) is None,
        },
{
    let mut i: usize = from;
    while i < v.len()
        invariant
            from <= i <= v.len(),
            char_from(v@, c, from as int) == char_from(v@, c, i as int),
        decreases v.len() - i,
    {
        if v[i] == c {
            return Some(i);
        }
        i += 1;
    }
    None
}

/// Searching a tail is searching the whole from where the tail starts.
pub proof fn lemma_char_from_skip(s: Seq<char>, c: char, k: int, i: int)
    requires
        0 <= k <= s.len(),
        0 <= i,
    ensures
        match char_from(s.skip(k), c, i) {
            Some(j) => char_from(s, c, k + i) == Some(k + j) && i <= j < s.len() - k,
            None => char_from(s, c, k + i) is None,
        },
    decreases s.len() - k - i,
{
    if k + i < s.len() && s[k + i] != c {
        lemma_char_from_skip(s, c, k, i + 1);
    }
}

/// The lines of a text.
pub fn lines(s: &str) -> (r: Vec<String>)
    ensures
        views(r@) == lines_of(s@),
{
    let v = chars_of(s);
    let mut out: Vec<String> = Vec::new();
    let mut pos: usize = 0;
    proof {
        assert(v@.skip(0) =~= v@);
        assert(views(out@) + lines_of(v@) =~= lines_of(v@));
    }
    while pos < v.len()
        invariant
            0 <= pos <= v.len(),
            lines_of(v@) == views(out@) + lines_of(v@.skip(pos as int)),
        decreases v.len() - pos,
    {
        let ghost old_out = views(out@);
        proof {
            lemma_char_from_skip(v@, '\n', pos as int, 0);
        }
        match char_in(&v, '\n', pos) {
            Some(i) => {
                let end: usize = if i > pos && v[i - 1] == '\r' {
                    i - 1
                } else {
                    i
                };
                out.push(slice_of(&v, pos, end));
                proof {
                    let rest = v@.skip(pos as int);
                    assert(rest.take(i - pos) =~= v@.subrange(pos as int, i as int));
                    assert(without_cr(rest.take(i - pos)) =~= v@.subrange(pos as int, end as int));
                    assert(rest.skip(i - pos + 1) =~= v@.skip(i as int + 1));
                    assert(views(out@) =~= old_out.push(v@.subrange(pos as int, end as int)));
                    assert(old_out + (seq![v@.subrange(pos as int, end as int)] + lines_of(
                        v@.skip(i as int + 1),
                    )) =~= views(out@) + lines_of(v@.skip(i as int + 1)));
                }
                pos = i + 1;
            },
            None => {
                out.push(slice_of(&v, pos, v.len()));
                proof {
                    let rest = v@.skip(pos as int);
                    assert(rest =~= v@.subrange(pos as int, v@.len() as int));
                    assert(views(out@) =~= old_out.push(rest));
                    assert(v@.skip(v@.len() as int) =~= seq![]);
                    assert(old_out + seq![rest] =~= views(out@) + seq![]);
                }
                pos = v.len();
            },
        }
    }
    proof {
        assert(v@.skip(v@.len() as int) =~= seq![]);
        assert(views(out@) + seq![] =~= views(out@));
    }
    out
}

/// The pieces of a string between the `c`s.
pub fn split(s: &str, c: char) -> (r: Vec<String>)
    ensures
        views(r@) == split_of(s@, c),
{
    let v = chars_of(s);
    let mut out: Vec<String> = Vec::new();
    let mut pos: usize = 0;
    proof {
        assert(v@.skip(0) =~= v@);
        assert(views(out@) + split_of(v@, c) =~= split_of(v@, c));
    }
    loop
        invariant
            0 <= pos <= v.len(),
            v@ == s@,
            split_of(v@, c) == views(out@) + split_of(v@.skip(pos as int), c),
        decreases v.len() - pos,
    {
        let ghost old_out = views(out@);
        proof {
            lemma_char_from_skip(v@, c, pos as int, 0);
        }
        match char_in(&v, c, pos) {
            Some(i) => {
                out.push(slice_of(&v, pos, i));
                proof {
                    let rest = v@.skip(pos as int);
                    assert(rest.take(i - pos) =~= v@.subrange(pos as int, i as int));
                    assert(rest.skip(i - pos + 1) =~= v@.skip(i as int + 1));
                    assert(views(out@) =~= old_out.push(v@.subrange(pos as int, i as int)));
                    assert(old_out + (seq![v@.subrange(pos as int, i as int)] + split_of(
                        v@.skip(i as int + 1),
                        c,
                    )) =~= views(out@) + split_of(v@.skip(i as int + 1), c));
                }
                pos = i + 1;
            },
            None => {
                out.push(slice_of(&v, pos, v.len()));
                proof {
                    let rest = v@.skip(pos as int);
                    assert(rest =~= v@.subrange(pos as int, v@.len() as int));
                    assert(views(out@) =~= old_out.push(rest));
                    assert(old_out + seq![rest] =~= views(out@));
                }
                return out;
            },
        }
    }
}

/// Joining a longer list adds the separator and the new text.
pub proof fn lemma_joined_push(ls: Seq<Seq<char>>, sep: Seq<char>, x: Seq<char>)
    ensures
        joined(ls.push(x), sep) == if ls.len() == 0 {
            x
        } else {
            joined(ls, sep) + sep + x
        },
    decreases ls.len(),
{
    if ls.len() == 0 {
    } else if ls.len() == 1 {
        assert(ls.push(x).skip(1) =~= seq![x]);
        assert(joined(seq![x], sep) == x);
    } else {
        assert(ls.push(x).skip(1) =~= ls.skip(1).push(x));
        lemma_joined_push(ls.skip(1), sep, x);
        assert(ls[0] + sep + (joined(ls.skip(1), sep) + sep + x) =~= ls[0] + sep + joined(
            ls.skip(1),
            sep,
        ) + sep + x);
    }
}

/// The texts of `ls[from..to]` with `sep` between neighbours.
pub fn join_range(ls: &Vec<String>, from: usize, to: usize, sep: &str) -> (r: String)
    requires
        from <= to <= ls.len(),
    ensures
        r@ == joined(views(ls@).subrange(from as int, to as int), sep@),
{
    let mut out = String::new();
    let mut i: usize = from;
    while i < to
        invariant
            from <= i <= to <= ls.len(),
            out@ == joined(views(ls@).subrange(from as int, i as int), sep@),
        decreases to - i,
    {
        let ghost part = views(ls@).subrange(from as int, i as int);
        if i > from {
            out.append(sep);
        }
        out.append(&ls[i]);
        proof {
            lemma_joined_push(part, sep@, ls@[i as int]@);
            assert(views(ls@).subrange(from as int, i as int + 1) =~= part.push(ls@[i as int]@));
            assert(seq![] + ls@[i as int]@ =~= ls@[i as int]@);
        }
        i += 1;
    }
    out
}

/// The texts of a list with `sep` between neighbours.
pub fn join(ls: &Vec<String>, sep: &str) -> (r: String)
    ensures
        r@ == joined(views(ls@), sep@),
{
    proof {
        assert(views(ls@).subrange(0, ls@.len() as int) =~= views(ls@));
    }
    join_range(ls, 0, ls.len(), sep)
}

/// The last index at which `c` stands in `s`.
pub open spec fn last_char(s: Seq<char>, c: char) -> Option<int>
    decreases s.len(),
{
    if s.len() == 0 {
        None
    } else if s.last() == c {
        Some(s.len() - 1)
    } else {
        last_char(s.drop_last(), c)
    }
}

/// What precedes and what follows the last `c` in `s`.
pub open spec fn cut_at_last(s: Seq<char>, c: char) -> Option<(Seq<char>, Seq<char>)> {
    match last_char(s, c) {
        Some(i) => Some((s.take(i), s.skip(i + 1))),
        None => None,
    }
}

/// What precedes and what follows the last `c`.
pub fn rsplit_once(s: &str, c: char) -> (r: Option<(String, String)>)
    ensures
        match r {
            Some((a, b)) => cut_at_last(s@, c) == Some((a@, b@)),
            None => cut_at_last(s@, c) is None,
        },
{
    let v = chars_of(s);
    let mut k: usize = v.len();
    proof {
        assert(v@.take(k as int) =~= v@);
    }
    while k > 0
        invariant
            0 <= k <= v.len(),
            v@ == s@,
            last_char(v@, c) == last_char(v@.take(k as int), c),
        decreases k,
    {
        if v[k - 1] == c {
            return Some((slice_of(&v, 0, k - 1), slice_of(&v, k, v.len())));
        }
        proof {
            assert(v@.take(k as int).drop_last() =~= v@.take(k as int - 1));
        }
        k -= 1;
    }
    None
}

/// Appends copies of `ls[from..to]` to a list.
pub fn push_range(out: &mut Vec<String>, ls: &Vec<String>, from: usize, to: usize)
    requires
        from <= to <= ls.len(),
    ensures
        views(final(out)@) == views(old(out)@) + views(ls@).subrange(from as int, to as int),
{
    let ghost before = views(out@);
    let mut i: usize = from;
    proof {
        assert(before + views(ls@).subrange(from as int, from as int) =~= before);
    }
    while i < to
        invariant
            from <= i <= to <= ls.len(),
            views(out@) == before + views(ls@).subrange(from as int, i as int),
        decreases to - i,
    {
        let ghost mid = views(out@);
        out.push(ls[i].clone());
        proof {
            assert(views(out@) =~= mid.push(ls@[i as int]@));
            assert(views(ls@).subrange(from as int, i as int + 1) =~= views(ls@).subrange(
                from as int,
                i as int,
            ).push(ls@[i as int]@));
            assert(before + views(ls@).subrange(from as int, i as int + 1) =~= mid.push(
                ls@[i as int]@,
            ));
        }
        i += 1;
    }
}

// ---------------------------------------------------------------------------
// Words
// ---------------------------------------------------------------------------

/// The length of the longest prefix of `s` without white space.
pub open spec fn word_len(s: Seq<char>) -> nat
    decreases s.len(),
{
    if s.len() == 0 || is_white(s[0]) {
        0
    } else {
        1 + word_len(s.skip(1))
    }
}

/// A word ends at white space or at the end of the text.
pub proof fn lemma_word_len(s: Seq<char>)
    ensures
        word_len(s) <= s.len(),
        s.len() > 0 && !is_white(s[0]) ==> word_len(s) > 0,
    decreases s.len(),
{
    if s.len() > 0 && !is_white(s[0]) {
        lemma_word_len(s.skip(1));
    }
}

/// Trimming the start leaves a tail that does not start with white space.
pub proof fn lemma_trimmed_start(s: Seq<char>)
    ensures
        trimmed_start(s).len() <= s.len(),
        trimmed_start(s) == s.skip(s.len() - trimmed_start(s).len()),
        trimmed_start(s).len() > 0 ==> !is_white(trimmed_start(s)[0]),
        forall|i: int| 0 <= i < s.len() - trimmed_start(s).len() ==> is_white(s[i]),
    decreases s.len(),
{
    if s.len() > 0 && is_white(s[0]) {
        lemma_trimmed_start(s.skip(1));
        let t = trimmed_start(s);
        assert(s.skip(1).skip(s.skip(1).len() - t.len()) =~= s.skip(s.len() - t.len()));
        assert forall|i: int| 0 <= i < s.len() - t.len() implies is_white(s[i]) by {
            if i > 0 {
                assert(s.skip(1)[i - 1] == s[i]);
            }
        }
    } else {
        assert(s.skip(0) =~= s);
    }
}

/// The words of a text: the longest runs without white space.
pub open spec fn words_of(s: Seq<char>) -> Seq<Seq<char>>
    decreases s.len(),
{
    let t = trimmed_start(s);
    if t.len() == 0 {
        seq![]
    } else {
        proof {
            lemma_trimmed_start(s);
            lemma_word_len(t);
        }
        seq![t.take(word_len(t) as int)] + words_of(t.skip(word_len(t) as int))
    }
}

/// The words of a text.
pub fn split_whitespace(s: &str) -> (r: Vec<String>)
    ensures
        views(r@) == words_of(s@),
{
    let mut out: Vec<String> = Vec::new();
    let mut rest = String::from_str(s);
    proof {
        assert(views(out@) + words_of(s@) =~= words_of(s@));
    }
    loop
        invariant
            words_of(s@) == views(out@) + words_of(rest@),
        decreases rest@.len(),
    {
        let ghost before = views(out@);
        let v = chars_of(&trim_start(&rest));
        proof {
            lemma_trimmed_start(rest@);
            lemma_word_len(v@);
        }
        if v.len() == 0 {
            proof {
                assert(views(out@) + seq![] =~= views(out@));
            }
            return out;
        }
        let mut k: usize = 0;
        proof {
            assert(v@.skip(0) =~= v@);
        }
        while k < v.len() && !is_whitespace(v[k])
            invariant
                0 <= k <= v.len(),
                word_len(v@) == k + word_len(v@.skip(k as int)),
            decreases v.len() - k,
        {
            proof {
                assert(v@.skip(k as int).skip(1) =~= v@.skip(k as int + 1));
            }
            k += 1;
        }
        out.push(slice_of(&v, 0, k));
        proof {
            assert(v@.take(k as int) =~= v@.subrange(0, k as int));
            assert(v@.skip(k as int) =~= v@.subrange(k as int, v@.len() as int));
            assert(views(out@) =~= before.push(v@.take(k as int)));
            assert(before + (seq![v@.take(k as int)] + words_of(v@.skip(k as int))) =~= views(out@)
                + words_of(v@.skip(k as int)));
        }
        rest = slice_of(&v, k, v.len());
    }
}

// ---------------------------------------------------------------------------
// Unsigned decimal numbers
// ---------------------------------------------------------------------------

/// An ASCII digit.
pub open spec fn is_digit(c: char) -> bool {
    '0' <= c <= '9'
}

/// The digit of a number below ten.
pub open spec fn digit(n: nat) -> char {
    ('0' as nat + n) as char
}

/// The decimal digits of a number, without leading zeros.
pub open spec fn decimal(n: nat) -> Seq<char>
    decreases n,
{
    if n < 10 {
        seq![digit(n)]
    } else {
        decimal(n / 10).push(digit(n % 10))
    }
}

/// The number that a row of digits stands for.
pub open spec fn digits_value(s: Seq<char>) -> nat
    decreases s.len(),
{
    if s.len() == 0 {
        0
    } else {
        digits_value(s.drop_last()) * 10 + (s.last() as nat - '0' as nat) as nat
    }
}

/// `s` without one leading plus sign, where more follows it.
pub open spec fn without_plus(s: Seq<char>) -> Seq<char> {
    if s.len() > 1 && s[0] == '+' {
        s.skip(1)
    } else {
        s
    }
}

/// One digit or more, and nothing else.
pub open spec fn all_digits(s: Seq<char>) -> bool {
    s.len() > 0 && forall|i: int| 0 <= i < s.len() ==> is_digit(#[trigger] s[i])
}

/// The number written in `s`: digits, after an optional plus sign, of a value of
/// at most `max`.
pub open spec fn number(s: Seq<char>, max: nat) -> Option<nat> {
    let d = without_plus(s);
    if all_digits(d) && digits_value(d) <= max {
        Some(digits_value(d))
    } else {
        None
    }
}

/// The decimal digits of a number.
pub fn format_u128(n: u128) -> (r: String)
    ensures
        r@ == decimal(n as nat),
    decreases n,
{
    if n < 10 {
        let mut s = String::new();
        s.push((48 + n as u8) as char);
        s
    } else {
        let mut s = format_u128(n / 10);
        s.push((48 + (n % 10) as u8) as char);
        s
    }
}

/// The decimal digits of a number.
pub fn format_u64(n: u64) -> (r: String)
    ensures
        r@ == decimal(n as nat),
{
    format_u128(n as u128)
}

/// A longer row of digits stands for no smaller number.
proof fn lemma_digits_value_grows(s: Seq<char>, k: int)
    requires
        0 <= k <= s.len(),
    ensures
        digits_value(s.take(k)) <= digits_value(s),
    decreases s.len(),
{
    if k < s.len() {
        lemma_digits_value_grows(s.drop_last(), k);
        assert(s.drop_last().take(k) =~= s.take(k));
    } else {
        assert(s.take(k) =~= s);
    }
}

/// The number written in a string, where it is one of at most `max`.
pub fn parse_number(s: &str, max: u64) -> (r: Option<u64>)
    ensures
        match r {
            Some(n) => number(s@, max as nat) == Some(n as nat),
            None => number(s@, max as nat) is None,
        },
{
    let v = chars_of(s);
    let from: usize = if v.len() > 1 && v[0] == '+' {
        1
    } else {
        0
    };
    let ghost d = v@.skip(from as int);
    proof {
        assert(v@.skip(0) =~= v@);
    }
    if v.len() == 0 {
        return None;
    }
    let mut n: u64 = 0;
    let mut i: usize = from;
    while i < v.len()
        invariant
            from <= i <= v.len(),
            d == v@.skip(from as int),
            d == without_plus(s@),
            forall|j: int| 0 <= j < i - from ==> is_digit(#[trigger] d[j]),
            n == digits_value(d.take(i - from)),
            n <= max,
        decreases v.len() - i,
    {
        let c = v[i];
        if !('0' <= c && c <= '9') {
            proof {
                assert(!is_digit(d[i - from]));
            }
            return None;
        }
        let k: u64 = (c as u32 - 48) as u64;
        proof {
            assert(d.take(i - from + 1).drop_last() =~= d.take(i - from));
            lemma_digits_value_grows(d, i - from + 1);
        }
        match n.checked_mul(10) {
            Some(m) => {
                match m.checked_add(k) {
                    Some(sum) => {
                        if sum > max {
                            return None;
                        }
                        n = sum;
                    },
                    None => {
                        return None;
                    },
                }
            },
            None => {
                return None;
            },
        }
        i += 1;
    }
    proof {
        assert(d.take(d.len() as int) =~= d);
    }
    Some(n)
}

/// The number written in a string, where it fits in 32 bits.
pub fn parse_u32(s: &str) -> (r: Option<u32>)
    ensures
        match r {
            Some(n) => number(s@, u32::MAX as nat) == Some(n as nat),
            None => number(s@, u32::MAX as nat) is None,
        },
{
    match parse_number(s, u32::MAX as u64) {
        Some(n) => {
            assert(n <= u32::MAX);
            Some(n as u32)
        },
        None => None,
    }
}

/// The number written in a string, where it fits in 64 bits.
pub fn parse_u64(s: &str) -> (r: Option<u64>)
    ensures
        match r {
            Some(n) => number(s@, u64::MAX as nat) == Some(n as nat),
            None => number(s@, u64::MAX as nat) is None,
        },
{
    parse_number(s, u64::MAX)
}

/// Reading a number back gives what was written.
pub proof fn lemma_decimal_reads_back(n: nat, max: nat)
    requires
        n <= max,
    ensures
        number(decimal(n), max) == Some(n),
{
    lemma_decimal(n);
}

/// The digits of a number are digits, and stand for it.
pub proof fn lemma_decimal(n: nat)
    ensures
        all_digits(decimal(n)),
        digits_value(decimal(n)) == n,
    decreases n,
{
    if n < 10 {
        assert(decimal(n).drop_last() =~= seq![]);
        assert(digits_value(seq![]) == 0);
        assert(digits_value(decimal(n)) == n);
    } else {
        lemma_decimal(n / 10);
        assert(decimal(n).drop_last() =~= decimal(n / 10));
    }
}

/// A text filled up with spaces to a width.
pub open spec fn padded(s: Seq<char>, width: nat) -> Seq<char>
    decreases width - s.len(),
{
    if s.len() >= width {
        s
    } else {
        padded(s.push(' '), width)
    }
}

/// Fills a text up with spaces to a width.
pub fn pad_end(s: &str, width: usize) -> (r: String)
    ensures
        r@ == padded(s@, width as nat),
{
    let mut out = String::from_str(s);
    let mut n = s.unicode_len();
    while n < width
        invariant
            n == out@.len(),
            padded(s@, width as nat) == padded(out@, width as nat),
        decreases width - n,
    {
        out.push(' ');
        n += 1;
    }
    out
}

} // verus!
