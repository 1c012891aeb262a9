//! Which texts the fuzzy filter keeps.
use crate::text;
use vstd::prelude::*;
use vstd::string::*;

verus! {

/// The most characters of one word that the matcher's 16-bit score has room for: the
/// first one scores at most 36, and each further one at most 26.
pub const MAX_SCORED: usize = 2520;

/// The most characters of all the words that the matcher's 32-bit sum has room for.
pub const MAX_SUMMED: usize = 119_304_647;

// ---------------------------------------------------------------------------
// What the matcher makes of a filter and of a text
// ---------------------------------------------------------------------------

/// The words that a filter is made of: whether each may skip characters of a text, and
/// the characters that are looked for.
pub uninterp spec fn words_of(filter: Seq<char>) -> Seq<(bool, Seq<char>)>;

/// The characters of a text that are looked at.
pub uninterp spec fn seen_of(s: Seq<char>) -> Seq<char>;

/// A character in the case in which it is looked for.
pub uninterp spec fn fold_of(c: char) -> char;

/// The plain letter that a letter is a variant of.
pub uninterp spec fn plain_of(c: char) -> char;

/// The words of a filter, as the values that they stand for.
pub open spec fn words_view(ws: Seq<(bool, Vec<char>)>) -> Seq<(bool, Seq<char>)> {
    Seq::new(ws.len(), |i: int| (ws[i].0, ws[i].1@))
}

/// The atoms of the pattern that `Pattern::parse` makes of a filter: whether the kind of
/// each is `Fuzzy`, and its needle. They depend on the filter alone.
#[verifier::external_body]
pub(crate) fn filter_words(filter: &str) -> (r: Vec<(bool, Vec<char>)>)
    ensures
        words_view(r@) == words_of(filter@),
{
    let pattern = nucleo_matcher::pattern::Pattern::parse(
        filter,
        nucleo_matcher::pattern::CaseMatching::Ignore,
        nucleo_matcher::pattern::Normalization::Smart,
    );
    let kinds = pattern.atoms.iter().map(|a| {
        let fuzzy = matches!(a.kind, nucleo_matcher::pattern::AtomKind::Fuzzy);
        (fuzzy, a.needle_text().chars().collect())
    });
    kinds.collect()
}

/// The characters that `Utf32Str::new` takes from a text: the first one of each
/// grapheme, or every byte of the text where each of those is ASCII. They depend on the
/// text alone.
#[verifier::external_body]
pub(crate) fn seen_chars(s: &str) -> (r: Vec<char>)
    ensures
        r@ == seen_of(s@),
{
    let mut buf: Vec<char> = Vec::new();
    nucleo_matcher::Utf32Str::new(s, &mut buf).chars().collect()
}

/// `chars::to_lower_case`: simple case folding, by a table of the matcher's own.
#[verifier::external_body]
fn fold(c: char) -> (r: char)
    ensures
        r == fold_of(c),
{
    nucleo_matcher::chars::to_lower_case(c)
}

/// `chars::normalize`: the Latin letter that a letter is a variant of, by a table of the
/// matcher's own.
#[verifier::external_body]
fn plain(c: char) -> (r: char)
    ensures
        r == plain_of(c),
{
    nucleo_matcher::chars::normalize(c)
}

// ---------------------------------------------------------------------------
// What the matcher takes
// ---------------------------------------------------------------------------

/// The characters of `n` stand in `t`, in their order, with others between them or not.
pub open spec fn within(n: Seq<char>, t: Seq<char>) -> bool
    decreases t.len(),
{
    if n.len() == 0 {
        true
    } else if t.len() == 0 {
        false
    } else if n.last() == t.last() {
        within(n.drop_last(), t.drop_last())
    } else {
        within(n, t.drop_last())
    }
}

/// Some character of a word is a variant of a plain one. Such a word is compared with
/// the letters as they are, any other with the plain letters.
pub open spec fn accented(n: Seq<char>) -> bool {
    exists|i: int| 0 <= i < n.len() && plain_of(#[trigger] n[i]) != n[i]
}

/// What the characters of a text are compared as.
pub open spec fn compared(h: Seq<char>, as_is: bool) -> Seq<char> {
    Seq::new(
        h.len(),
        |i: int|
            if as_is {
                fold_of(h[i])
            } else {
                fold_of(plain_of(h[i]))
            },
    )
}

/// A word is found in a text.
pub open spec fn hits(fuzzy: bool, n: Seq<char>, h: Seq<char>) -> bool {
    let t = compared(h, accented(n));
    if fuzzy {
        within(n, t)
    } else {
        exists|k: int| #[trigger] text::occurs_at(t, n, k)
    }
}

/// A lowercase letter that case folding still changes.
pub open spec fn folds_again(c: char) -> bool {
    ||| c == '\u{b5}'
    ||| c == '\u{17f}'
    ||| c == '\u{345}'
    ||| c == '\u{3c2}'
    ||| c == '\u{3d0}'
    ||| c == '\u{3d1}'
    ||| c == '\u{3d5}'
    ||| c == '\u{3d6}'
    ||| c == '\u{3f0}'
    ||| c == '\u{3f1}'
    ||| c == '\u{3f5}'
    ||| '\u{13f8}' <= c <= '\u{13fd}'
    ||| '\u{1c80}' <= c <= '\u{1c88}'
    ||| c == '\u{1e9b}'
    ||| c == '\u{1fbe}'
    ||| '\u{ab70}' <= c <= '\u{abbf}'
}

/// The characters of a text with only those folded that are not lowercase.
pub open spec fn half_folded(h: Seq<char>) -> Seq<char> {
    Seq::new(
        h.len(),
        |i: int|
            if folds_again(h[i]) {
                h[i]
            } else {
                fold_of(h[i])
            },
    )
}

/// The first character of a text that folds to that of a word, where the rest of the
/// word still has room.
pub open spec fn starts_at(n: Seq<char>, h: Seq<char>, p: int) -> bool {
    &&& 0 <= p <= h.len() - n.len()
    &&& fold_of(h[p]) == n[0]
    &&& forall|q: int| 0 <= q < p ==> fold_of(#[trigger] h[q]) != n[0]
}

/// A word with accents is found, but not from where its search starts: a lowercase
/// letter stands there that only folds to the word's first letter.
pub open spec fn starts_amiss(n: Seq<char>, h: Seq<char>) -> bool {
    &&& 2 <= n.len() < h.len()
    &&& accented(n)
    &&& exists|p: int| #[trigger]
        starts_at(n, h, p) && folds_again(h[p]) && within(n, half_folded(h).skip(p))
}

/// A word that the matcher takes with a text.
pub open spec fn takes_word(fuzzy: bool, n: Seq<char>, h: Seq<char>) -> bool {
    &&& n.len() <= h.len() ==> n.len() * h.len() <= usize::MAX
    &&& n.len() <= MAX_SCORED || !hits(fuzzy, n, h)
    &&& !fuzzy || !starts_amiss(n, h)
}

/// How many characters words have together.
pub open spec fn sum_of(ws: Seq<(bool, Seq<char>)>) -> nat
    decreases ws.len(),
{
    if ws.len() == 0 {
        0
    } else {
        sum_of(ws.drop_last()) + ws.last().1.len()
    }
}

/// Words that the matcher takes with the characters of a text.
pub open spec fn takes(ws: Seq<(bool, Seq<char>)>, h: Seq<char>) -> bool {
    &&& sum_of(ws) <= MAX_SUMMED
    &&& h.len() <= u32::MAX
    &&& forall|i: int| 0 <= i < ws.len() ==> takes_word((#[trigger] ws[i]).0, ws[i].1, h)
}

/// A filter and a text that the matcher takes.
pub open spec fn fits_matcher(filter: Seq<char>, candidate: Seq<char>) -> bool {
    takes(words_of(filter), seen_of(candidate))
}

/// Whether a text matches a filter.
pub uninterp spec fn fuzzy_matches(filter: Seq<char>, candidate: Seq<char>) -> bool;

/// The candidates that `Pattern::match_list` keeps, for the pattern that
/// `Pattern::parse` makes of a filter: whether one is kept depends on the filter and
/// on itself alone. Nothing is claimed of their order, which is by score.
///
/// The bounds are those within which the matcher computes. `calculate_score` sums the
/// score of a word that is found in 16 bits, over as many characters as the word has,
/// and `Pattern::score` sums the words in 32 bits. The matcher takes candidates of up to
/// 2^32-1 characters, and multiplies their length by that of the word. Its optimal
/// search asserts, where it finds the word, that the text it was handed starts with the
/// first letter of the word. The text starts where a letter folds to that one, but for a
/// word with accents the search itself folds no lowercase letter.
#[verifier::external_body]
pub(crate) fn fuzzy_kept(filter: &str, candidates: &Vec<String>) -> (r: Vec<String>)
    requires
        forall|i: int|
            0 <= i < candidates@.len() ==> fits_matcher(filter@, (#[trigger] candidates@[i])@),
    ensures
        forall|s: Seq<char>| #[trigger]
            text::views(r@).contains(s) <==> (text::views(candidates@).contains(s)
                && fuzzy_matches(filter@, s)),
{
    let mut matcher = nucleo_matcher::Matcher::new(nucleo_matcher::Config::DEFAULT);
    let pattern = nucleo_matcher::pattern::Pattern::parse(
        filter,
        nucleo_matcher::pattern::CaseMatching::Ignore,
        nucleo_matcher::pattern::Normalization::Smart,
    );
    let kept = pattern.match_list(candidates.iter().map(|s| s.as_str()), &mut matcher);
    kept.into_iter().map(|(s, _)| s.to_string()).collect()
}

// ---------------------------------------------------------------------------
// Testing a text
// ---------------------------------------------------------------------------

/// Whether the characters of `n` stand in `t`, in their order, from `from` on.
fn is_within(n: &Vec<char>, t: &Vec<char>, from: usize) -> (r: bool)
    requires
        from <= t@.len(),
    ensures
        r == within(n@, t@.skip(from as int)),
{
    let ghost rest = t@.skip(from as int);
    let mut i: usize = n.len();
    let mut j: usize = t.len();
    assert(n@.take(i as int) =~= n@);
    assert(rest.take(j - from) =~= rest);
    while i > 0 && j > from
        invariant
            0 <= i <= n@.len(),
            from <= j <= t@.len(),
            rest == t@.skip(from as int),
            within(n@, rest) == within(n@.take(i as int), rest.take(j - from)),
        decreases j,
    {
        let ghost a = n@.take(i as int);
        let ghost b = rest.take(j - from);
        proof {
            assert(a.drop_last() =~= n@.take(i - 1));
            assert(b.drop_last() =~= rest.take(j - from - 1));
            assert(a.last() == n@[i - 1]);
            assert(b.last() == t@[j - 1]);
        }
        if n[i - 1] == t[j - 1] {
            i -= 1;
        }
        j -= 1;
    }
    i == 0
}

/// Whether `n` stands in `t` at `k`.
fn stands_at(n: &Vec<char>, t: &Vec<char>, k: usize) -> (r: bool)
    requires
        k + n@.len() <= t@.len(),
    ensures
        r == text::occurs_at(t@, n@, k as int),
{
    let len: usize = t.len();
    let mut i: usize = 0;
    while i < n.len()
        invariant
            0 <= i <= n@.len(),
            k + n@.len() <= t@.len(),
            len == t@.len(),
            forall|q: int| 0 <= q < i ==> t@[k + q] == n@[q],
        decreases n@.len() - i,
    {
        if n[i] != t[k + i] {
            proof {
                if text::occurs_at(t@, n@, k as int) {
                    assert(t@.subrange(k as int, k + n@.len())[i as int] == t@[k + i]);
                }
            }
            return false;
        }
        i += 1;
    }
    assert(t@.subrange(k as int, k + n@.len()) =~= n@);
    true
}

/// Whether `n` stands somewhere in `t`, without gaps.
fn stands_in(n: &Vec<char>, t: &Vec<char>) -> (r: bool)
    ensures
        r == exists|k: int| #[trigger] text::occurs_at(t@, n@, k),
{
    if n.len() > t.len() {
        return false;
    }
    let last: usize = t.len() - n.len();
    let mut k: usize = 0;
    while k <= last
        invariant
            0 <= k <= last + 1,
            last == t@.len() - n@.len(),
            forall|q: int| 0 <= q < k ==> !#[trigger] text::occurs_at(t@, n@, q),
        decreases last + 1 - k,
    {
        if stands_at(n, t, k) {
            return true;
        }
        if k == last {
            return false;
        }
        k += 1;
    }
    false
}

/// Whether some character of a word is a variant of a plain one.
fn is_accented(n: &Vec<char>) -> (r: bool)
    ensures
        r == accented(n@),
{
    let mut i: usize = 0;
    while i < n.len()
        invariant
            0 <= i <= n@.len(),
            forall|k: int| 0 <= k < i ==> plain_of(#[trigger] n@[k]) == n@[k],
        decreases n@.len() - i,
    {
        let c = n[i];
        if plain(c) != c {
            assert(plain_of(n@[i as int]) != n@[i as int]);
            return true;
        }
        i += 1;
    }
    false
}

/// What the characters of a text are compared as.
fn compare_as(h: &Vec<char>, as_is: bool) -> (r: Vec<char>)
    ensures
        r@ == compared(h@, as_is),
{
    let mut out: Vec<char> = Vec::new();
    let mut i: usize = 0;
    while i < h.len()
        invariant
            0 <= i <= h@.len(),
            out@ =~= compared(h@, as_is).take(i as int),
        decreases h@.len() - i,
    {
        let c = h[i];
        out.push(
            if as_is {
                fold(c)
            } else {
                fold(plain(c))
            },
        );
        i += 1;
    }
    assert(out@ =~= compared(h@, as_is));
    out
}

/// Whether a word is found in a text.
fn is_hit(fuzzy: bool, n: &Vec<char>, h: &Vec<char>) -> (r: bool)
    ensures
        r == hits(fuzzy, n@, h@),
{
    let t = compare_as(h, is_accented(n));
    if fuzzy {
        assert(t@.skip(0) =~= t@);
        is_within(n, &t, 0)
    } else {
        stands_in(n, &t)
    }
}

/// Whether a letter is changed by folding it again.
fn is_folded_again(c: char) -> (r: bool)
    ensures
        r == folds_again(c),
{
    c == '\u{b5}' || c == '\u{17f}' || c == '\u{345}' || c == '\u{3c2}' || c == '\u{3d0}' || c
        == '\u{3d1}' || c == '\u{3d5}' || c == '\u{3d6}' || c == '\u{3f0}' || c == '\u{3f1}' || c
        == '\u{3f5}' || ('\u{13f8}' <= c && c <= '\u{13fd}') || ('\u{1c80}' <= c && c
        <= '\u{1c88}') || c == '\u{1e9b}' || c == '\u{1fbe}' || ('\u{ab70}' <= c && c
        <= '\u{abbf}')
}

/// The characters of a text with only those folded that are not lowercase.
fn half_fold(h: &Vec<char>) -> (r: Vec<char>)
    ensures
        r@ == half_folded(h@),
{
    let mut out: Vec<char> = Vec::new();
    let mut i: usize = 0;
    while i < h.len()
        invariant
            0 <= i <= h@.len(),
            out@ =~= half_folded(h@).take(i as int),
        decreases h@.len() - i,
    {
        let c = h[i];
        out.push(
            if is_folded_again(c) {
                c
            } else {
                fold(c)
            },
        );
        i += 1;
    }
    assert(out@ =~= half_folded(h@));
    out
}

/// Where the search for a word starts.
fn start_of(n: &Vec<char>, h: &Vec<char>) -> (r: Option<usize>)
    requires
        1 <= n@.len() <= h@.len(),
    ensures
        match r {
            Some(p) => starts_at(n@, h@, p as int),
            None => forall|p: int| !#[trigger] starts_at(n@, h@, p),
        },
{
    let room: usize = h.len() - n.len();
    let mut p: usize = 0;
    while p <= room
        invariant
            0 <= p <= room + 1,
            room == h@.len() - n@.len(),
            1 <= n@.len() <= h@.len(),
            forall|q: int| 0 <= q < p ==> fold_of(#[trigger] h@[q]) != n@[0],
        decreases room + 1 - p,
    {
        if fold(h[p]) == n[0] {
            return Some(p);
        }
        if p == room {
            return None;
        }
        p += 1;
    }
    None
}

/// Whether a word with accents is found, but not from where its search starts.
fn is_amiss(n: &Vec<char>, h: &Vec<char>) -> (r: bool)
    ensures
        r == starts_amiss(n@, h@),
{
    if n.len() < 2 || n.len() >= h.len() || !is_accented(n) {
        return false;
    }
    match start_of(n, h) {
        Some(p) => {
            let r = is_folded_again(h[p]) && is_within(n, &half_fold(h), p);
            proof {
                assert forall|q: int| #[trigger] starts_at(n@, h@, q) implies q == p by {
                    if q < p {
                        assert(fold_of(h@[q]) != n@[0]);
                    } else if p < q {
                        assert(fold_of(h@[p as int]) != n@[0]);
                    }
                }
            }
            r
        },
        None => false,
    }
}

/// Whether the matcher takes a word with a text.
fn is_taken(fuzzy: bool, n: &Vec<char>, h: &Vec<char>) -> (r: bool)
    ensures
        r == takes_word(fuzzy, n@, h@),
{
    if n.len() <= h.len() && n.len().checked_mul(h.len()).is_none() {
        return false;
    }
    if n.len() > MAX_SCORED && is_hit(fuzzy, n, h) {
        return false;
    }
    !fuzzy || !is_amiss(n, h)
}

/// The words of one more.
proof fn lemma_sum_step(ws: Seq<(bool, Seq<char>)>, i: int)
    requires
        0 <= i < ws.len(),
    ensures
        sum_of(ws.take(i + 1)) == sum_of(ws.take(i)) + ws[i].1.len(),
{
    assert(ws.take(i + 1).drop_last() =~= ws.take(i));
}

/// Some words have no more characters than all.
proof fn lemma_sum_grows(ws: Seq<(bool, Seq<char>)>, i: int)
    requires
        0 <= i <= ws.len(),
    ensures
        sum_of(ws.take(i)) <= sum_of(ws),
    decreases ws.len() - i,
{
    if i < ws.len() {
        lemma_sum_step(ws, i);
        lemma_sum_grows(ws, i + 1);
    } else {
        assert(ws.take(i) =~= ws);
    }
}

/// Whether the matcher takes words with a text.
pub(crate) fn fits(words: &Vec<(bool, Vec<char>)>, candidate: &str) -> (r: bool)
    ensures
        r == takes(words_view(words@), seen_of(candidate@)),
{
    let h = seen_chars(candidate);
    if h.len() > u32::MAX as usize {
        return false;
    }
    let ghost ws = words_view(words@);
    let mut sum: usize = 0;
    let mut i: usize = 0;
    assert(ws.take(0) =~= seq![]);
    while i < words.len()
        invariant
            0 <= i <= words@.len(),
            ws == words_view(words@),
            h@ == seen_of(candidate@),
            sum == sum_of(ws.take(i as int)),
            sum <= MAX_SUMMED,
            forall|k: int| 0 <= k < i ==> takes_word((#[trigger] ws[k]).0, ws[k].1, h@),
        decreases words@.len() - i,
    {
        let n = &words[i].1;
        proof {
            lemma_sum_step(ws, i as int);
            lemma_sum_grows(ws, i + 1);
            assert(ws[i as int] == (words@[i as int].0, n@));
        }
        if n.len() > MAX_SUMMED - sum {
            return false;
        }
        if !is_taken(words[i].0, n, &h) {
            return false;
        }
        sum += n.len();
        i += 1;
    }
    assert(ws.take(i as int) =~= ws);
    true
}

} // verus!
