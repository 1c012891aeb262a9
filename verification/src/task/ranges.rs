//! Item numbers in a short form.
use crate::text;
use vstd::prelude::*;
use vstd::string::*;

verus! {

/// The number that an id is, where it is one.
pub open spec fn numbered(id: Seq<char>) -> Option<nat> {
    text::number(id, u64::MAX as nat)
}

/// One id is the number behind the other.
pub open spec fn follows(a: Seq<char>, b: Seq<char>) -> bool {
    match (numbered(a), numbered(b)) {
        (Some(m), Some(n)) => n == m + 1,
        _ => false,
    }
}

/// How many ids from `i` on are consecutive numbers.
pub open spec fn run_from(ids: Seq<Seq<char>>, i: int) -> int
    decreases ids.len() - i,
{
    if i < 0 || i + 1 >= ids.len() || !follows(ids[i], ids[i + 1]) {
        1
    } else {
        1 + run_from(ids, i + 1)
    }
}

/// The ids from `i` on, each run of three or more folded into a range.
pub open spec fn ranges_from(ids: Seq<Seq<char>>, i: int) -> Seq<Seq<char>>
    decreases ids.len() - i,
{
    if i < 0 || i >= ids.len() {
        seq![]
    } else {
        let n = run_from(ids, i);
        if 3 <= n && i + n <= ids.len() {
            seq![ids[i] + "~"@ + ids[i + n - 1]] + ranges_from(ids, i + n)
        } else {
            seq![ids[i]] + ranges_from(ids, i + 1)
        }
    }
}

/// Item numbers in a short form.
pub open spec fn folded(ids: Seq<Seq<char>>) -> Seq<char> {
    text::joined(ranges_from(ids, 0), ","@)
}

/// Whether one id is the number behind the other.
fn is_next(a: &str, b: &str) -> (r: bool)
    ensures
        r == follows(a@, b@),
{
    match (text::parse_u64(a), text::parse_u64(b)) {
        (Some(m), Some(n)) => m < u64::MAX && n == m + 1,
        _ => false,
    }
}

/// Where the run that starts at `i` ends.
fn run_end(ids: &Vec<String>, i: usize) -> (r: usize)
    requires
        i < ids.len(),
    ensures
        r == i + run_from(text::views(ids@), i as int),
        i < r <= ids.len(),
{
    let ghost all = text::views(ids@);
    let mut j: usize = i;
    while j + 1 < ids.len() && is_next(&ids[j], &ids[j + 1])
        invariant
            i <= j < ids.len(),
            all == text::views(ids@),
            run_from(all, i as int) == (j - i) + run_from(all, j as int),
        decreases ids.len() - j,
    {
        j += 1;
    }
    j + 1
}

/// Item numbers for a title: runs of three or more consecutive numbers are folded
/// into a range (`1~12,14,16`), shorter ones are listed, and what is no number
/// stands as it is.
pub fn number_ranges(ids: &Vec<String>) -> (r: String)
    ensures
        r@ == folded(text::views(ids@)),
{
    let ghost all = text::views(ids@);
    let mut out: Vec<String> = Vec::new();
    let mut i: usize = 0;
    proof {
        assert(text::views(out@) + ranges_from(all, 0) =~= ranges_from(all, 0));
    }
    while i < ids.len()
        invariant
            0 <= i <= ids.len(),
            all == text::views(ids@),
            text::views(out@) + ranges_from(all, i as int) == ranges_from(all, 0),
        decreases ids.len() - i,
    {
        let ghost before = text::views(out@);
        let end = run_end(ids, i);
        let mut part = ids[i].clone();
        let next: usize = if end - i >= 3 {
            part.append("~");
            part.append(&ids[end - 1]);
            end
        } else {
            i + 1
        };
        let ghost p = part@;
        out.push(part);
        proof {
            assert(text::views(out@) =~= before.push(p));
            assert(before.push(p) + ranges_from(all, next as int) =~= before + (seq![p]
                + ranges_from(all, next as int)));
        }
        i = next;
    }
    proof {
        assert(text::views(out@) + ranges_from(all, i as int) =~= text::views(out@));
    }
    text::join(&out, ",")
}

/// A run of consecutive numbers of three or more is one range, whatever stands
/// behind it.
pub proof fn law_a_run_is_one_range(ids: Seq<Seq<char>>, n: int)
    requires
        3 <= n <= ids.len(),
        forall|k: int| 0 <= k < n - 1 ==> follows(#[trigger] ids[k], ids[k + 1]),
        n < ids.len() ==> !follows(ids[n - 1], ids[n]),
    ensures
        ranges_from(ids, 0) == seq![ids[0] + "~"@ + ids[n - 1]] + ranges_from(ids, n),
{
    lemma_run_is(ids, 0, n);
}

/// How long a run is.
proof fn lemma_run_is(ids: Seq<Seq<char>>, i: int, n: int)
    requires
        0 <= i < n <= ids.len(),
        forall|k: int| 0 <= k < n - 1 ==> follows(#[trigger] ids[k], ids[k + 1]),
        n < ids.len() ==> !follows(ids[n - 1], ids[n]),
    ensures
        run_from(ids, i) == n - i,
    decreases n - i,
{
    if i < n - 1 {
        assert(follows(ids[i], ids[i + 1]));
        lemma_run_is(ids, i + 1, n);
    }
}

/// Numbers that do not follow one another are listed.
pub proof fn law_single_numbers_are_listed(ids: Seq<Seq<char>>, i: int)
    requires
        0 <= i <= ids.len(),
        forall|k: int| 0 <= k < ids.len() - 1 ==> !follows(#[trigger] ids[k], ids[k + 1]),
    ensures
        ranges_from(ids, i) == ids.skip(i),
    decreases ids.len() - i,
{
    if i < ids.len() {
        law_single_numbers_are_listed(ids, i + 1);
        assert(seq![ids[i]] + ids.skip(i + 1) =~= ids.skip(i));
        assert(run_from(ids, i) == 1);
    } else {
        assert(ids.skip(i) =~= seq![]);
    }
}

} // verus!
