//! Slash-separated paths, as text.
use crate::text;
use vstd::prelude::*;
use vstd::string::*;

verus! {

/// `rel` seen from `base`: an absolute path stands for itself.
pub open spec fn joined_path(base: Seq<char>, rel: Seq<char>) -> Seq<char> {
    if text::begins(rel, "/"@) || base.len() == 0 {
        rel
    } else if text::ends(base, "/"@) {
        base + rel
    } else {
        base + "/"@ + rel
    }
}

/// `rel` seen from `base`.
pub fn join(base: &str, rel: &str) -> (r: String)
    ensures
        r@ == joined_path(base@, rel@),
{
    if text::starts_with(rel, "/") || base.is_empty() {
        String::from_str(rel)
    } else {
        let mut out = String::from_str(base);
        if !text::ends_with(base, "/") {
            out.append("/");
        }
        out.append(rel);
        out
    }
}

/// `path` without trailing slashes and trailing `.` components; the root stays.
pub open spec fn settled_path(path: Seq<char>) -> Seq<char>
    decreases path.len(),
{
    if path.len() > 1 && (path.last() == '/' || (path.last() == '.' && path[path.len() - 2]
        == '/')) {
        settled_path(path.drop_last())
    } else {
        path
    }
}

/// `path` without trailing slashes and trailing `.` components.
fn settle(path: &str) -> (r: String)
    ensures
        r@ == settled_path(path@),
{
    let v = text::chars_of(path);
    let mut k: usize = v.len();
    proof {
        assert(v@.take(k as int) =~= v@);
    }
    while k > 1 && (v[k - 1] == '/' || (v[k - 1] == '.' && v[k - 2] == '/'))
        invariant
            0 <= k <= v.len(),
            settled_path(v@) == settled_path(v@.take(k as int)),
        decreases k,
    {
        proof {
            assert(v@.take(k as int).drop_last() =~= v@.take(k as int - 1));
        }
        k -= 1;
    }
    text::slice_of(&v, 0, k)
}

/// The pieces of a path that count: neither empty ones nor `.`, unless it comes first.
pub open spec fn counted(ps: Seq<Seq<char>>) -> Seq<Seq<char>>
    decreases ps.len(),
{
    if ps.len() == 0 {
        seq![]
    } else {
        let before = counted(ps.drop_last());
        if ps.last().len() == 0 || ps.last() == "."@ && ps.len() > 1 {
            before
        } else {
            before.push(ps.last())
        }
    }
}

/// The components of a path.
pub open spec fn components_of(path: Seq<char>) -> Seq<Seq<char>> {
    counted(text::split_of(path, '/'))
}

/// Two paths are the same, component by component: repeated and trailing slashes and
/// `.` components do not count.
pub open spec fn same_place(a: Seq<char>, b: Seq<char>) -> bool {
    text::begins(a, "/"@) == text::begins(b, "/"@) && components_of(a) == components_of(b)
}

/// The components of a path.
fn components(path: &str) -> (r: Vec<String>)
    ensures
        text::views(r@) == components_of(path@),
{
    let ps = text::split(path, '/');
    let ghost all = text::views(ps@);
    let mut out: Vec<String> = Vec::new();
    let mut i: usize = 0;
    proof {
        assert(text::views(out@) =~= counted(all.take(0)));
    }
    while i < ps.len()
        invariant
            0 <= i <= ps.len(),
            all == text::views(ps@),
            text::views(out@) == counted(all.take(i as int)),
        decreases ps.len() - i,
    {
        let ghost before = text::views(out@);
        proof {
            assert(all.take(i as int + 1).drop_last() =~= all.take(i as int));
            assert(all.take(i as int + 1).last() == ps@[i as int]@);
        }
        if !(ps[i].as_str().is_empty() || text::same(&ps[i], ".") && i > 0) {
            out.push(ps[i].clone());
            assert(text::views(out@) =~= before.push(ps@[i as int]@));
        }
        i += 1;
    }
    proof {
        assert(all.take(i as int) =~= all);
    }
    out
}

/// Whether two paths are the same, component by component.
pub fn same_path(a: &str, b: &str) -> (r: bool)
    ensures
        r == same_place(a@, b@),
{
    if text::starts_with(a, "/") != text::starts_with(b, "/") {
        return false;
    }
    let x = components(a);
    let y = components(b);
    let ghost xs = text::views(x@);
    let ghost ys = text::views(y@);
    assert(xs.len() == x@.len() && ys.len() == y@.len());
    if x.len() != y.len() {
        return false;
    }
    let mut i: usize = 0;
    while i < x.len()
        invariant
            0 <= i <= x.len(),
            x.len() == y.len(),
            xs == text::views(x@),
            ys == text::views(y@),
            xs == components_of(a@),
            ys == components_of(b@),
            forall|k: int| 0 <= k < i ==> xs[k] == ys[k],
        decreases x.len() - i,
    {
        if !text::same(&x[i], &y[i]) {
            assert(xs[i as int] != ys[i as int]);
            return false;
        }
        i += 1;
    }
    assert(xs =~= ys);
    true
}

/// The directory that holds a path: nothing for the root and for an empty path.
pub open spec fn parent_of(path: Seq<char>) -> Option<Seq<char>> {
    let p = settled_path(path);
    if p.len() == 0 || p == "/"@ {
        None
    } else {
        match text::last_char(p, '/') {
            None => Some(seq![]),
            Some(i) => if i == 0 {
                Some("/"@)
            } else {
                Some(settled_path(p.take(i)))
            },
        }
    }
}

/// The directory that holds a path.
pub fn parent(path: &str) -> (r: Option<String>)
    ensures
        text::opt_view(r) == parent_of(path@),
{
    let p = settle(path);
    if p.as_str().is_empty() || text::same(&p, "/") {
        return None;
    }
    match text::rsplit_once(&p, '/') {
        None => Some(String::new()),
        Some((dir, _)) => {
            proof {
                lemma_last_char(p@, '/');
            }
            if dir.as_str().is_empty() {
                Some(String::from_str("/"))
            } else {
                Some(settle(&dir))
            }
        },
    }
}

/// The last character found stands where it was found.
pub proof fn lemma_last_char(s: Seq<char>, c: char)
    ensures
        match text::last_char(s, c) {
            Some(i) => 0 <= i < s.len() && s[i] == c && forall|k: int|
                i < k < s.len() ==> #[trigger] s[k] != c,
            None => forall|k: int| 0 <= k < s.len() ==> #[trigger] s[k] != c,
        },
    decreases s.len(),
{
    if s.len() > 0 && s.last() != c {
        lemma_last_char(s.drop_last(), c);
        assert forall|k: int| 0 <= k < s.len() - 1 implies #[trigger] s[k] == s.drop_last()[k] by {}
        assert(s[s.len() - 1] != c);
    }
}

/// What follows the last slash.
pub open spec fn last_part(path: Seq<char>) -> Seq<char> {
    match text::cut_at_last(path, '/') {
        Some((_, name)) => name,
        None => path,
    }
}

/// The name of the last component of a path; a path that ends in `.` or `..` or
/// has no component has none.
pub open spec fn file_name_of(path: Seq<char>) -> Option<Seq<char>> {
    let name = last_part(settled_path(path));
    if name.len() == 0 || name == "."@ || name == ".."@ {
        None
    } else {
        Some(name)
    }
}

/// The name of the last component of a path.
pub fn file_name(path: &str) -> (r: Option<String>)
    ensures
        text::opt_view(r) == file_name_of(path@),
{
    let p = settle(path);
    let name = match text::rsplit_once(&p, '/') {
        Some((_, name)) => name,
        None => p,
    };
    if name.as_str().is_empty() || text::same(&name, ".") || text::same(&name, "..") {
        None
    } else {
        Some(name)
    }
}

/// The name before the extension `.md`, where a path has that extension: a name
/// that is nothing but an extension has none.
pub open spec fn md_stem(path: Seq<char>) -> Option<Seq<char>> {
    match text::before_suffix(last_part(path), ".md"@) {
        Some(stem) => if stem.len() == 0 {
            None
        } else {
            Some(stem)
        },
        None => None,
    }
}

/// The name before the extension `.md`, where a path has that extension.
pub fn markdown_stem(path: &str) -> (r: Option<String>)
    ensures
        text::opt_view(r) == md_stem(path@),
{
    let name = match text::rsplit_once(path, '/') {
        Some((_, name)) => name,
        None => String::from_str(path),
    };
    match text::strip_suffix(&name, ".md") {
        Some(stem) => {
            if stem.as_str().is_empty() {
                None
            } else {
                Some(stem)
            }
        },
        None => None,
    }
}

/// A directory with a slash behind it.
pub open spec fn as_prefix(dir: Seq<char>) -> Seq<char> {
    if text::ends(dir, "/"@) {
        dir
    } else {
        dir + "/"@
    }
}

/// The path as seen from a directory above it; any other path as it is.
pub open spec fn relative_to(path: Seq<char>, dir: Seq<char>) -> Seq<char> {
    match text::after_prefix(path, as_prefix(dir)) {
        Some(rest) => rest,
        None => path,
    }
}

/// A directory with a slash behind it.
pub fn dir_prefix(dir: &str) -> (r: String)
    ensures
        r@ == as_prefix(dir@),
{
    let mut out = String::from_str(dir);
    if !text::ends_with(dir, "/") {
        out.append("/");
    }
    out
}

/// The path as seen from a directory above it.
pub fn relative(path: &str, dir: &str) -> (r: String)
    ensures
        r@ == relative_to(path@, dir@),
{
    match text::strip_prefix(path, &dir_prefix(dir)) {
        Some(rest) => rest,
        None => String::from_str(path),
    }
}

/// `a` comes before `b`, component by component: a slash comes before any other
/// character.
pub open spec fn path_before(a: Seq<char>, b: Seq<char>) -> bool
    decreases a.len(),
{
    if b.len() == 0 {
        false
    } else if a.len() == 0 {
        true
    } else if a[0] == b[0] {
        path_before(a.skip(1), b.skip(1))
    } else {
        a[0] == '/' || (b[0] != '/' && a[0] < b[0])
    }
}

/// Whether `a` comes before `b`, component by component.
pub fn comes_before(a: &str, b: &str) -> (r: bool)
    ensures
        r == path_before(a@, b@),
{
    let x = text::chars_of(a);
    let y = text::chars_of(b);
    let mut i: usize = 0;
    proof {
        assert(x@.skip(0) =~= x@);
        assert(y@.skip(0) =~= y@);
    }
    while i < x.len() && i < y.len()
        invariant
            i <= x.len(),
            i <= y.len(),
            x@ == a@,
            y@ == b@,
            path_before(a@, b@) == path_before(x@.skip(i as int), y@.skip(i as int)),
        decreases x.len() - i,
    {
        if x[i] != y[i] {
            return x[i] == '/' || (y[i] != '/' && x[i] < y[i]);
        }
        proof {
            assert(x@.skip(i as int).skip(1) =~= x@.skip(i as int + 1));
            assert(y@.skip(i as int).skip(1) =~= y@.skip(i as int + 1));
        }
        i += 1;
    }
    i < y.len()
}

/// `a` comes before `b` in the order of their characters.
pub open spec fn text_before(a: Seq<char>, b: Seq<char>) -> bool
    decreases a.len(),
{
    if b.len() == 0 {
        false
    } else if a.len() == 0 {
        true
    } else if a[0] == b[0] {
        text_before(a.skip(1), b.skip(1))
    } else {
        a[0] < b[0]
    }
}

/// Whether `a` comes before `b` in the order of their characters.
pub fn sorts_before(a: &str, b: &str) -> (r: bool)
    ensures
        r == text_before(a@, b@),
{
    let x = text::chars_of(a);
    let y = text::chars_of(b);
    let mut i: usize = 0;
    proof {
        assert(x@.skip(0) =~= x@);
        assert(y@.skip(0) =~= y@);
    }
    while i < x.len() && i < y.len()
        invariant
            i <= x.len(),
            i <= y.len(),
            x@ == a@,
            y@ == b@,
            text_before(a@, b@) == text_before(x@.skip(i as int), y@.skip(i as int)),
        decreases x.len() - i,
    {
        if x[i] != y[i] {
            return x[i] < y[i];
        }
        proof {
            assert(x@.skip(i as int).skip(1) =~= x@.skip(i as int + 1));
            assert(y@.skip(i as int).skip(1) =~= y@.skip(i as int + 1));
        }
        i += 1;
    }
    i < y.len()
}

} // verus!
