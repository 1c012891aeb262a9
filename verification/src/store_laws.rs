//! Laws of the store: its listing is ordered and complete, a query finds only
//! what it names, and a new slug is free.
use crate::paths;
use crate::store::{self, StoreFileV, TaskRefV};
use crate::text;
use vstd::prelude::*;

verus! {

// ---------------------------------------------------------------------------
// The order of paths
// ---------------------------------------------------------------------------

/// Of two paths that differ exactly one comes first.
pub proof fn lemma_path_total(a: Seq<char>, b: Seq<char>)
    ensures
        paths::path_before(a, b) ==> !paths::path_before(b, a),
        !paths::path_before(a, b) && !paths::path_before(b, a) ==> a == b,
    decreases a.len(),
{
    if a.len() > 0 && b.len() > 0 {
        lemma_path_total(a.skip(1), b.skip(1));
        if a[0] == b[0] && a.skip(1) == b.skip(1) {
            assert(a =~= seq![a[0]] + a.skip(1));
            assert(b =~= seq![b[0]] + b.skip(1));
        }
    } else if a.len() == 0 && b.len() == 0 {
        assert(a =~= b);
    }
}

/// What comes before something comes before what follows it.
pub proof fn lemma_path_transitive(a: Seq<char>, b: Seq<char>, c: Seq<char>)
    requires
        paths::path_before(a, b),
        paths::path_before(b, c),
    ensures
        paths::path_before(a, c),
    decreases a.len(),
{
    if a.len() > 0 && b.len() > 0 && c.len() > 0 && a[0] == b[0] && b[0] == c[0] {
        lemma_path_transitive(a.skip(1), b.skip(1), c.skip(1));
    }
}

/// Files in the order of their paths.
pub open spec fn in_order(fs: Seq<StoreFileV>) -> bool {
    forall|i: int, j: int|
        0 <= i < j < fs.len() ==> !paths::path_before((#[trigger] fs[j]).path, (
        #[trigger] fs[i]).path)
}

/// Inserting a file keeps the order.
proof fn lemma_inserted(fs: Seq<StoreFileV>, x: StoreFileV, n: int)
    requires
        in_order(fs),
        0 <= n <= fs.len(),
        forall|k: int| n <= k < fs.len() ==> paths::path_before(x.path, (#[trigger] fs[k]).path),
    ensures
        in_order(store::inserted(fs, x, n)),
        store::inserted(fs, x, n).to_multiset() =~= fs.to_multiset().insert(x),
        store::inserted(fs, x, n).len() == fs.len() + 1,
    decreases n,
{
    if n > 0 && paths::path_before(x.path, fs[n - 1].path) {
        assert forall|k: int| n - 1 <= k < fs.len() implies paths::path_before(
            x.path,
            (#[trigger] fs[k]).path,
        ) by {}
        lemma_inserted(fs, x, n - 1);
    } else {
        let r = fs.insert(n, x);
        vstd::seq_lib::to_multiset_insert(fs, n, x);
        assert forall|i: int, j: int| 0 <= i < j < r.len() implies !paths::path_before(
            (#[trigger] r[j]).path,
            (#[trigger] r[i]).path,
        ) by {
            if i < n && j < n {
                assert(r[i] == fs[i] && r[j] == fs[j]);
            } else if i < n && j == n {
                assert(r[i] == fs[i]);
                if i < n - 1 {
                    assert(!paths::path_before(fs[n - 1].path, fs[i].path));
                    if paths::path_before(x.path, fs[i].path) {
                        lemma_path_total(fs[n - 1].path, fs[i].path);
                        if fs[n - 1].path != fs[i].path {
                            lemma_path_transitive(x.path, fs[i].path, fs[n - 1].path);
                        }
                    }
                }
            } else if i < n {
                assert(r[i] == fs[i] && r[j] == fs[j - 1]);
            } else if i == n {
                assert(r[j] == fs[j - 1]);
                assert(paths::path_before(x.path, fs[j - 1].path));
                lemma_path_total(x.path, fs[j - 1].path);
            } else {
                assert(r[i] == fs[i - 1] && r[j] == fs[j - 1]);
            }
        }
    }
}

/// The Markdown files below a directory, as they come.
pub open spec fn doc_files(fs: Seq<StoreFileV>, dir: Seq<char>) -> Seq<StoreFileV> {
    fs.filter(|f: StoreFileV| store::is_doc_in(dir, f.path))
}

proof fn lemma_doc_files(fs: Seq<StoreFileV>, dir: Seq<char>)
    ensures
        fs.len() == 0 ==> doc_files(fs, dir) == Seq::<StoreFileV>::empty(),
        fs.len() > 0 ==> doc_files(fs, dir) == if store::is_doc_in(dir, fs.last().path) {
            doc_files(fs.drop_last(), dir).push(fs.last())
        } else {
            doc_files(fs.drop_last(), dir)
        },
{
    reveal(Seq::filter);
}

/// The documents of a directory are listed in the order of their paths, each of
/// them once, and nothing else.
pub proof fn law_listing_is_ordered_and_complete(fs: Seq<StoreFileV>, dir: Seq<char>)
    ensures
        in_order(store::docs_in(fs, dir)),
        store::docs_in(fs, dir).to_multiset() == doc_files(fs, dir).to_multiset(),
    decreases fs.len(),
{
    lemma_doc_files(fs, dir);
    if fs.len() > 0 {
        law_listing_is_ordered_and_complete(fs.drop_last(), dir);
        let before = store::docs_in(fs.drop_last(), dir);
        if store::is_doc_in(dir, fs.last().path) {
            lemma_inserted(before, fs.last(), before.len() as int);
            let kept = doc_files(fs.drop_last(), dir);
            vstd::seq_lib::to_multiset_build(kept, fs.last());
        }
    }
}

// ---------------------------------------------------------------------------
// Finding
// ---------------------------------------------------------------------------

proof fn lemma_named_from(ts: Seq<TaskRefV>, q: Seq<char>, i: int)
    requires
        0 <= i,
    ensures
        match store::named_from(ts, q, i) {
            Some(t) => (t.slug == q || t.id == q) && ts.contains(t),
            None => forall|k: int|
                i <= k < ts.len() ==> (#[trigger] ts[k]).slug != q && ts[k].id != q,
        },
    decreases ts.len() - i,
{
    if i < ts.len() {
        if ts[i].slug == q || ts[i].id == q {
            assert(ts.contains(ts[i]));
        } else {
            lemma_named_from(ts, q, i + 1);
        }
    }
}

/// The task is one that starts with the query.
pub open spec fn starts_with_query(t: TaskRefV, q: Seq<char>) -> bool {
    text::begins(t.slug, q) || text::begins(t.id, q)
}

proof fn lemma_prefixed(ts: Seq<TaskRefV>, q: Seq<char>)
    ensures
        forall|t: TaskRefV| #[trigger]
            store::prefixed(ts, q).contains(t) <==> ts.contains(t) && starts_with_query(t, q),
    decreases ts.len(),
{
    let r = store::prefixed(ts, q);
    if ts.len() > 0 {
        let d = ts.drop_last();
        let x = ts.last();
        lemma_prefixed(d, q);
        let b = store::prefixed(d, q);
        assert forall|t: TaskRefV| #[trigger]
            r.contains(t) <==> ts.contains(t) && starts_with_query(t, q) by {
            if r.contains(t) {
                let k = choose|k: int| 0 <= k < r.len() && r[k] == t;
                if k < b.len() {
                    assert(b[k] == t);
                    assert(b.contains(t));
                    let m = choose|m: int| 0 <= m < d.len() && d[m] == t;
                    assert(ts[m] == t);
                } else {
                    assert(t == x);
                    assert(ts[ts.len() - 1] == x);
                }
            }
            if ts.contains(t) && starts_with_query(t, q) {
                let m = choose|m: int| 0 <= m < ts.len() && ts[m] == t;
                if m < d.len() {
                    assert(d[m] == t);
                    assert(b.contains(t));
                    let k = choose|k: int| 0 <= k < b.len() && b[k] == t;
                    assert(r[k] == t);
                } else {
                    assert(r[r.len() - 1] == t);
                }
            }
        }
    }
}

/// A query finds a task that it names: one with that slug or id, or, where no
/// task has it, the only one whose slug or id starts with it. It is never guessed
/// between two.
pub proof fn law_find_is_unambiguous(ts: Seq<TaskRefV>, q: Seq<char>, t: TaskRefV)
    requires
        store::found(ts, q) == Ok::<TaskRefV, Seq<char>>(t),
    ensures
        ts.contains(t),
        t.slug == q || t.id == q || (starts_with_query(t, q) && forall|u: TaskRefV| #[trigger]
            ts.contains(u) && starts_with_query(u, q) ==> u == t),
{
    lemma_named_from(ts, q, 0);
    if store::named_from(ts, q, 0) is None {
        lemma_prefixed(ts, q);
        let ms = store::prefixed(ts, q);
        assert(ms[0] == t);
        assert(ms.contains(t));
        assert forall|u: TaskRefV| #[trigger] ts.contains(u) && starts_with_query(u, q) implies u
            == t by {
            assert(ms.contains(u));
        }
    }
}

/// An exact slug or id is always found, whatever else starts with it.
pub proof fn law_exact_name_is_found(ts: Seq<TaskRefV>, t: TaskRefV)
    requires
        ts.contains(t),
    ensures
        store::found(ts, t.slug) is Ok,
        store::found(ts, t.id) is Ok,
{
    let k = choose|k: int| 0 <= k < ts.len() && ts[k] == t;
    lemma_named_from(ts, t.slug, 0);
    lemma_named_from(ts, t.id, 0);
    assert(ts[k] == t);
}

// ---------------------------------------------------------------------------
// New slugs
// ---------------------------------------------------------------------------

/// The candidate with a number.
pub open spec fn numbered(base: Seq<char>, n: nat) -> Seq<char> {
    base + "-"@ + text::decimal(n)
}

/// Different numbers make different candidates.
proof fn lemma_numbered_differ(base: Seq<char>, m: nat, n: nat)
    requires
        numbered(base, m) == numbered(base, n),
    ensures
        m == n,
{
    text::lemma_decimal(m);
    text::lemma_decimal(n);
    let k = (base + "-"@).len() as int;
    assert(numbered(base, m).skip(k) =~= text::decimal(m));
    assert(numbered(base, n).skip(k) =~= text::decimal(n));
}

/// Either a free candidate is found, or every one that was tried is taken.
proof fn lemma_free_slug_from(taken: Seq<Seq<char>>, base: Seq<char>, n: nat, left: nat)
    ensures
        !taken.contains(store::free_slug_from(taken, base, n, left)) || forall|k: nat|
            n <= k <= n + left ==> taken.contains(#[trigger] numbered(base, k)),
    decreases left,
{
    if left > 0 && taken.contains(numbered(base, n)) {
        lemma_free_slug_from(taken, base, n + 1, (left - 1) as nat);
        if taken.contains(store::free_slug_from(taken, base, n, left)) {
            assert forall|k: nat| n <= k <= n + left implies taken.contains(
                #[trigger] numbered(base, k),
            ) by {
                if k > n {
                    assert(n + 1 <= k);
                }
            }
        }
    }
}

/// A new slug is one that no task has.
pub proof fn law_new_slug_is_free(taken: Seq<Seq<char>>, base: Seq<char>)
    ensures
        !taken.contains(store::free_slug(taken, base)),
{
    if taken.contains(base) {
        let n = taken.len();
        lemma_free_slug_from(taken, base, 2, n);
        if taken.contains(store::free_slug(taken, base)) {
            // one more candidate than there are slugs
            let range = vstd::set_lib::set_int_range(2, n as int + 3);
            let f = |k: int| numbered(base, k as nat);
            let image = range.map(f);
            vstd::set_lib::lemma_int_range(2, n as int + 3);
            assert(vstd::relations::injective_on(f, range)) by {
                assert forall|x: int, y: int|
                    range.contains(x) && range.contains(y) && #[trigger] f(x) == #[trigger] f(
                        y,
                    ) implies x == y by {
                    lemma_numbered_differ(base, x as nat, y as nat);
                }
            }
            vstd::set_lib::lemma_map_size(range, image, f);
            taken.lemma_cardinality_of_set();
            assert(image.subset_of(taken.to_set())) by {
                assert forall|s: Seq<char>| image.contains(s) implies taken.to_set().contains(
                    s,
                ) by {
                    let k = choose|k: int| range.contains(k) && f(k) == s;
                    assert(taken.contains(numbered(base, k as nat)));
                }
            }
            vstd::seq_lib::seq_to_set_is_finite(taken);
            vstd::set_lib::lemma_len_subset(image, taken.to_set());
        }
    }
}

/// A new slug is the plain one where no task has it; else it gets the smallest number, from
/// two on, with which it is free.
pub proof fn law_a_new_slug_has_the_smallest_number(taken: Seq<Seq<char>>, base: Seq<char>)
    ensures
        !taken.contains(base) ==> store::free_slug(taken, base) == base,
        taken.contains(base) ==> exists|n: nat|
            2 <= n && store::free_slug(taken, base) == #[trigger] numbered(base, n) && forall|k: nat|
                2 <= k < n ==> taken.contains(#[trigger] numbered(base, k)),
{
    if taken.contains(base) {
        lemma_smallest(taken, base, 2, taken.len());
    }
}

proof fn lemma_smallest(taken: Seq<Seq<char>>, base: Seq<char>, n: nat, left: nat)
    ensures
        exists|m: nat|
            n <= m && store::free_slug_from(taken, base, n, left) == #[trigger] numbered(base, m)
                && forall|k: nat| n <= k < m ==> taken.contains(#[trigger] numbered(base, k)),
    decreases left,
{
    if left > 0 && taken.contains(numbered(base, n)) {
        lemma_smallest(taken, base, n + 1, (left - 1) as nat);
        let m = choose|m: nat|
            n + 1 <= m && store::free_slug_from(taken, base, n + 1, (left - 1) as nat)
                == #[trigger] numbered(base, m) && forall|k: nat|
                n + 1 <= k < m ==> taken.contains(#[trigger] numbered(base, k));
        assert forall|k: nat| n <= k < m implies taken.contains(#[trigger] numbered(base, k)) by {
            if k > n {
                assert(n + 1 <= k);
            }
        }
        assert(store::free_slug_from(taken, base, n, left) == numbered(base, m));
    } else {
        assert(store::free_slug_from(taken, base, n, left) == numbered(base, n));
    }
}

/// The only task whose slug or id starts with a query is found by it; where none does, none
/// is found.
pub proof fn law_the_only_match_is_found(ts: Seq<TaskRefV>, q: Seq<char>, k: int)
    ensures
        0 <= k < ts.len() && starts_with_query(ts[k], q) && (forall|j: int|
            0 <= j < ts.len() && j != k ==> !starts_with_query(#[trigger] ts[j], q))
            ==> store::found(ts, q) == Ok::<TaskRefV, Seq<char>>(ts[k]),
        (forall|j: int| 0 <= j < ts.len() ==> !starts_with_query(#[trigger] ts[j], q))
            ==> store::found(ts, q) is Err,
{
    lemma_named_from(ts, q, 0);
    if let Some(t) = store::named_from(ts, q, 0) {
        let m = choose|m: int| 0 <= m < ts.len() && ts[m] == t;
        assert(q.subrange(0, q.len() as int) =~= q);
        assert(starts_with_query(ts[m], q));
    }
    if forall|j: int| 0 <= j < ts.len() ==> !starts_with_query(#[trigger] ts[j], q) {
        lemma_none_prefixed(ts, q);
    }
    if 0 <= k < ts.len() && starts_with_query(ts[k], q) && (forall|j: int|
        0 <= j < ts.len() && j != k ==> !starts_with_query(#[trigger] ts[j], q)) {
        lemma_one_prefixed(ts, q, k);
    }
}

proof fn lemma_none_prefixed(ts: Seq<TaskRefV>, q: Seq<char>)
    requires
        forall|j: int| 0 <= j < ts.len() ==> !starts_with_query(#[trigger] ts[j], q),
    ensures
        store::prefixed(ts, q).len() == 0,
    decreases ts.len(),
{
    if ts.len() > 0 {
        let d = ts.drop_last();
        assert forall|j: int| 0 <= j < d.len() implies !starts_with_query(#[trigger] d[j], q) by {
            assert(d[j] == ts[j]);
        }
        lemma_none_prefixed(d, q);
        assert(!starts_with_query(ts[ts.len() - 1], q));
    }
}

proof fn lemma_one_prefixed(ts: Seq<TaskRefV>, q: Seq<char>, k: int)
    requires
        0 <= k < ts.len(),
        starts_with_query(ts[k], q),
        forall|j: int| 0 <= j < ts.len() && j != k ==> !starts_with_query(#[trigger] ts[j], q),
    ensures
        store::prefixed(ts, q) == seq![ts[k]],
    decreases ts.len(),
{
    let d = ts.drop_last();
    assert forall|j: int| 0 <= j < d.len() && j != k implies !starts_with_query(
        #[trigger] d[j],
        q,
    ) by {
        assert(d[j] == ts[j]);
    }
    if k < d.len() {
        lemma_one_prefixed(d, q, k);
        assert(!starts_with_query(ts[ts.len() - 1], q));
    } else {
        lemma_none_prefixed(d, q);
        assert(store::prefixed(ts, q) =~= seq![ts[k]]);
    }
}

} // verus!
