//! Slugs, times and content hashes.
use crate::text;
use vstd::prelude::*;
use vstd::string::*;

verus! {

// ---------------------------------------------------------------------------
// Slugs
// ---------------------------------------------------------------------------

/// An ASCII letter or digit.
pub open spec fn is_alnum(c: char) -> bool {
    ||| '0' <= c <= '9'
    ||| 'a' <= c <= 'z'
    ||| 'A' <= c <= 'Z'
}

/// The lowercase form of an ASCII letter; any other character as it is.
pub open spec fn lowered(c: char) -> char {
    if 'A' <= c <= 'Z' {
        (c as u32 + 32) as char
    } else {
        c
    }
}

/// Letters and digits in lowercase, with one dash for each run of anything else
/// behind them.
pub open spec fn dashed(s: Seq<char>) -> Seq<char>
    decreases s.len(),
{
    if s.len() == 0 {
        seq![]
    } else {
        let before = dashed(s.drop_last());
        let c = s.last();
        if is_alnum(c) {
            before.push(lowered(c))
        } else if before.len() > 0 && before.last() != '-' {
            before.push('-')
        } else {
            before
        }
    }
}

/// The slug of a title.
pub open spec fn slug_of(s: Seq<char>) -> Seq<char> {
    let t = text::without_trailing(dashed(s), '-');
    if t.len() == 0 {
        "task"@
    } else {
        t
    }
}

/// Whether a character is an ASCII letter or digit.
pub fn is_ascii_alnum(c: char) -> (b: bool)
    ensures
        b == is_alnum(c),
{
    ('0' <= c && c <= '9') || ('a' <= c && c <= 'z') || ('A' <= c && c <= 'Z')
}

/// The lowercase form of an ASCII letter.
pub fn lower(c: char) -> (r: char)
    ensures
        r == lowered(c),
{
    if 'A' <= c && c <= 'Z' {
        (c as u8 + 32) as char
    } else {
        c
    }
}

/// Lowercase slug: alnum preserved, runs of anything else collapsed to '-'.
pub fn slugify(s: &str) -> (r: String)
    ensures
        r@ == slug_of(s@),
{
    let v = text::chars_of(s);
    let mut out = String::new();
    let mut dash: bool = true;
    let mut i: usize = 0;
    while i < v.len()
        invariant
            0 <= i <= v.len(),
            out@ == dashed(v@.take(i as int)),
            dash == (out@.len() == 0 || out@.last() == '-'),
        decreases v.len() - i,
    {
        proof {
            assert(v@.take(i as int + 1).drop_last() =~= v@.take(i as int));
        }
        if is_ascii_alnum(v[i]) {
            out.push(lower(v[i]));
            dash = false;
        } else if !dash {
            out.push('-');
            dash = true;
        }
        i += 1;
    }
    proof {
        assert(v@.take(i as int) =~= v@);
    }
    let trimmed = text::trim_end_char(&out, '-');
    if trimmed.as_str().is_empty() {
        String::from_str("task")
    } else {
        trimmed
    }
}

/// A character of a slug.
pub open spec fn is_slug_char(c: char) -> bool {
    c == '-' || '0' <= c <= '9' || 'a' <= c <= 'z'
}

/// A slug: lowercase letters and digits, in runs with one dash between them.
pub open spec fn is_slug(s: Seq<char>) -> bool {
    &&& s.len() > 0
    &&& s[0] != '-'
    &&& s.last() != '-'
    &&& forall|i: int| 0 <= i < s.len() ==> is_slug_char(#[trigger] s[i])
    &&& forall|i: int| 0 <= i && i + 1 < s.len() && #[trigger] s[i] == '-' ==> s[i + 1] != '-'
}

/// Dashed text is a slug, apart from a dash at its end.
proof fn lemma_dashed(s: Seq<char>)
    ensures
        dashed(s).len() > 0 ==> dashed(s)[0] != '-',
        forall|i: int| 0 <= i < dashed(s).len() ==> is_slug_char(#[trigger] dashed(s)[i]),
        forall|i: int|
            0 <= i && i + 1 < dashed(s).len() && #[trigger] dashed(s)[i] == '-' ==> dashed(s)[i + 1]
                != '-',
    decreases s.len(),
{
    if s.len() > 0 {
        let b = dashed(s.drop_last());
        let d = dashed(s);
        lemma_dashed(s.drop_last());
        if d.len() > b.len() {
            assert(d.drop_last() =~= b);
            assert forall|i: int| 0 <= i < d.len() implies is_slug_char(#[trigger] d[i]) by {
                if i < b.len() {
                    assert(d[i] == b[i]);
                }
            }
            assert forall|i: int|
                0 <= i && i + 1 < d.len() && #[trigger] d[i] == '-' implies d[i + 1] != '-' by {
                assert(d[i] == b[i]);
                if i + 1 < b.len() {
                    assert(d[i + 1] == b[i + 1]);
                }
            }
            if b.len() > 0 {
                assert(d[0] == b[0]);
            }
        }
    }
}

/// Cutting trailing dashes off leaves a prefix.
proof fn lemma_without_trailing(s: Seq<char>, c: char)
    ensures
        text::without_trailing(s, c).len() <= s.len(),
        text::without_trailing(s, c) == s.take(text::without_trailing(s, c).len() as int),
        text::without_trailing(s, c).len() > 0 ==> text::without_trailing(s, c).last() != c,
    decreases s.len(),
{
    if s.len() > 0 && s.last() == c {
        lemma_without_trailing(s.drop_last(), c);
        let n = text::without_trailing(s, c).len() as int;
        assert(s.drop_last().take(n) =~= s.take(n));
    } else {
        assert(s.take(s.len() as int) =~= s);
    }
}

/// Every slug has the form of a slug, whatever the title.
pub proof fn law_slugs_have_one_form(title: Seq<char>)
    ensures
        is_slug(slug_of(title)),
{
    reveal_strlit("task");
    lemma_dashed(title);
    lemma_without_trailing(dashed(title), '-');
    let t = text::without_trailing(dashed(title), '-');
    let d = dashed(title);
    assert forall|i: int| 0 <= i < t.len() implies is_slug_char(#[trigger] t[i]) by {
        assert(t[i] == d[i]);
    }
    assert forall|i: int| 0 <= i && i + 1 < t.len() && #[trigger] t[i] == '-' implies t[i + 1]
        != '-' by {
        assert(t[i] == d[i]);
        assert(t[i + 1] == d[i + 1]);
    }
}

/// A slug is dashed already.
proof fn lemma_slug_is_dashed(s: Seq<char>, n: int)
    requires
        is_slug(s),
        0 <= n <= s.len(),
    ensures
        dashed(s.take(n)) == s.take(n),
    decreases n,
{
    if n > 0 {
        lemma_slug_is_dashed(s, n - 1);
        assert(s.take(n).drop_last() =~= s.take(n - 1));
        let c = s[n - 1];
        assert(is_slug_char(s[n - 1]));
        assert(s.take(n) =~= s.take(n - 1).push(c));
        if c == '-' {
            assert(n > 1);
            assert(s[n - 2] != '-' || s[n - 2 + 1] != '-');
            assert(s.take(n - 1).last() == s[n - 2]);
        }
    } else {
        assert(s.take(0) =~= seq![]);
    }
}

/// The slug of a slug is the slug itself.
pub proof fn law_slugs_are_stable(title: Seq<char>)
    ensures
        slug_of(slug_of(title)) == slug_of(title),
{
    law_slugs_have_one_form(title);
    let s = slug_of(title);
    lemma_slug_is_dashed(s, s.len() as int);
    assert(s.take(s.len() as int) =~= s);
}

// ---------------------------------------------------------------------------
// Times
// ---------------------------------------------------------------------------

/// A character of a written date or time.
pub open spec fn is_time_char(c: char) -> bool {
    ||| '0' <= c <= '9'
    ||| c == '+'
    ||| c == '-'
    ||| c == ':'
    ||| c == 'T'
}

/// A written date or time.
pub open spec fn is_time(s: Seq<char>) -> bool {
    s.len() > 0 && forall|i: int| 0 <= i < s.len() ==> is_time_char(#[trigger] s[i])
}

/// The local time, written by `chrono::DateTime::to_rfc3339_opts` with whole
/// seconds and a numeric offset. It writes digits, signs, colons and a `T`;
/// nothing is said of the time itself.
#[verifier::external_body]
pub fn now_iso() -> (r: String)
    ensures
        is_time(r@),
{
    chrono::Local::now().to_rfc3339_opts(chrono::SecondsFormat::Secs, false)
}

/// The local date as `%Y%m%d`, written by `chrono::DateTime::format`. It writes
/// digits, and a sign before a year out of four digits; nothing is said of the
/// date itself.
#[verifier::external_body]
pub fn today_compact() -> (r: String)
    ensures
        is_time(r@),
{
    chrono::Local::now().format("%Y%m%d").to_string()
}

/// The local month as `%Y-%m`, written by `chrono::DateTime::format`. It writes
/// digits, a dash, and a sign before a year out of four digits; nothing is said
/// of the month itself.
#[verifier::external_body]
pub fn month_dir() -> (r: String)
    ensures
        is_time(r@),
{
    chrono::Local::now().format("%Y-%m").to_string()
}

// ---------------------------------------------------------------------------
// Hashes
// ---------------------------------------------------------------------------

/// The SHA-256 digest of a byte string.
pub uninterp spec fn sha256_of(data: Seq<u8>) -> Seq<u8>;

/// The digest that `sha2::Sha256` gives of a byte string: always the same for the
/// same bytes, and 32 bytes long.
#[verifier::external_body]
fn sha256(data: &[u8]) -> (r: Vec<u8>)
    ensures
        r@ == sha256_of(data@),
        r@.len() == 32,
{
    let mut h = <sha2::Sha256 as sha2::Digest>::new();
    sha2::Digest::update(&mut h, data);
    sha2::Digest::finalize(h).to_vec()
}

/// The hexadecimal digit of a number below sixteen.
pub open spec fn hex_digit(n: nat) -> char {
    if n < 10 {
        ('0' as nat + n) as char
    } else {
        ('a' as nat + n - 10) as char
    }
}

/// Two hexadecimal digits for each byte.
pub open spec fn hex_of(bytes: Seq<u8>) -> Seq<char>
    decreases bytes.len(),
{
    if bytes.len() == 0 {
        seq![]
    } else {
        let b = bytes.last() as nat;
        hex_of(bytes.drop_last()).push(hex_digit(b / 16)).push(hex_digit(b % 16))
    }
}

/// The tagged hash of a text.
pub open spec fn tag_of(s: Seq<char>) -> Seq<char> {
    "sha256:"@ + hex_of(sha256_of(vstd::utf8::encode_utf8(s)))
}

/// The hexadecimal digit of a number below sixteen.
fn hex_char(n: u8) -> (c: char)
    requires
        n < 16,
    ensures
        c == hex_digit(n as nat),
{
    if n < 10 {
        (48 + n) as char
    } else {
        (97 + (n - 10)) as char
    }
}

/// The tagged SHA-256 hash of a text, in lowercase hexadecimal.
pub fn sha256_tag(s: &str) -> (r: String)
    ensures
        r@ == tag_of(s@),
{
    let digest = sha256(s.as_bytes());
    let mut hex = String::new();
    let mut i: usize = 0;
    while i < digest.len()
        invariant
            0 <= i <= digest.len(),
            hex@ == hex_of(digest@.take(i as int)),
        decreases digest.len() - i,
    {
        proof {
            assert(digest@.take(i as int + 1).drop_last() =~= digest@.take(i as int));
        }
        hex.push(hex_char(digest[i] / 16));
        hex.push(hex_char(digest[i] % 16));
        i += 1;
    }
    proof {
        assert(digest@.take(i as int) =~= digest@);
    }
    let mut out = String::from_str("sha256:");
    out.append(&hex);
    out
}

} // verus!
