//! Laws of reading paths, URLs, listings and settings: what was put together is taken apart
//! again.
use crate::facts;
use crate::gh;
use crate::gitx::{self, WorktreeV};
use crate::json::Json;
use crate::paths;
use crate::projects::{self, Place, StoreInfoV};
use crate::store::StoreV;
use crate::text;
use crate::util;
use vstd::prelude::*;
use vstd::string::*;

verus! {

// ---------------------------------------------------------------------------
// Paths
// ---------------------------------------------------------------------------

/// The last of a character is where it stands last.
proof fn lemma_last_char(s: Seq<char>, c: char, k: int)
    requires
        0 <= k < s.len(),
        s[k] == c,
        forall|i: int| k < i < s.len() ==> #[trigger] s[i] != c,
    ensures
        text::last_char(s, c) == Some(k),
    decreases s.len(),
{
    if k < s.len() - 1 {
        assert(s[s.len() - 1] != c);
        lemma_last_char(s.drop_last(), c, k);
    }
}

/// The name of a file or a directory: without slashes, and not one of the two that stand
/// for other places.
pub open spec fn is_plain_name(name: Seq<char>) -> bool {
    &&& name.len() > 0
    &&& forall|i: int| 0 <= i < name.len() ==> #[trigger] name[i] != '/'
    &&& name != "."@
    &&& name != ".."@
}

/// A path that was put together is taken apart again: seen from the directory it is the
/// name, the name is its last component, and the directory is what holds it.
pub proof fn law_a_joined_path_is_taken_apart(dir: Seq<char>, name: Seq<char>)
    requires
        is_plain_name(name),
        dir.len() > 0,
        dir.last() != '/',
    ensures
        paths::relative_to(paths::joined_path(dir, name), dir) == name,
        paths::file_name_of(paths::joined_path(dir, name)) == Some(name),
        paths::parent_of(paths::joined_path(dir, name)) == Some(paths::settled_path(dir)),
{
    reveal_strlit("/");
    reveal_strlit(".");
    reveal_strlit("..");
    let p = paths::joined_path(dir, name);
    assert(!text::begins(name, "/"@)) by {
        if text::begins(name, "/"@) {
            assert(name.subrange(0, 1)[0] == name[0]);
        }
    }
    assert(!text::ends(dir, "/"@)) by {
        if text::ends(dir, "/"@) {
            assert(dir.subrange(dir.len() - 1, dir.len() as int)[0] == dir.last());
        }
    }
    assert(p == dir + "/"@ + name);
    facts::lemma_begins(dir + "/"@, name);
    let k = dir.len() as int;
    assert(p[k] == '/');
    assert forall|i: int| k < i < p.len() implies #[trigger] p[i] != '/' by {
        assert(p[i] == name[i - k - 1]);
    }
    assert(p.last() == name[name.len() - 1]);
    assert(paths::settled_path(p) == p) by {
        if p.last() == '.' && p[p.len() - 2] == '/' {
            if name.len() == 1 {
                assert(name =~= "."@);
            } else {
                assert(p[p.len() - 2] == name[name.len() - 2]);
            }
        }
    }
    lemma_last_char(p, '/', k);
    assert(p.skip(k + 1) =~= name);
    assert(p.take(k) =~= dir);
    assert(p != "/"@);
}

/// An absolute path stands for itself, whatever it is seen from.
pub proof fn law_an_absolute_path_stands_for_itself(dir: Seq<char>, path: Seq<char>)
    requires
        text::begins(path, "/"@),
    ensures
        paths::joined_path(dir, path) == path,
{
}

/// The order of paths is strict and total.
pub proof fn law_paths_are_ordered(a: Seq<char>, b: Seq<char>)
    ensures
        !paths::path_before(a, a),
        paths::path_before(a, b) ==> !paths::path_before(b, a),
        a != b ==> paths::path_before(a, b) || paths::path_before(b, a),
    decreases a.len(),
{
    if a.len() > 0 {
        law_paths_are_ordered(a.skip(1), a.skip(1));
        if b.len() > 0 && a[0] == b[0] {
            law_paths_are_ordered(a.skip(1), b.skip(1));
            if a != b {
                assert(a.skip(1) != b.skip(1)) by {
                    if a.skip(1) == b.skip(1) {
                        assert(a =~= seq![a[0]] + a.skip(1));
                        assert(b =~= seq![b[0]] + b.skip(1));
                    }
                }
            }
        }
    }
    if a.len() == 0 && b.len() == 0 {
        assert(a =~= b);
    }
}

/// The order of names is strict and total.
pub proof fn law_names_are_ordered(a: Seq<char>, b: Seq<char>)
    ensures
        !paths::text_before(a, a),
        paths::text_before(a, b) ==> !paths::text_before(b, a),
        a != b ==> paths::text_before(a, b) || paths::text_before(b, a),
    decreases a.len(),
{
    if a.len() > 0 {
        law_names_are_ordered(a.skip(1), a.skip(1));
        if b.len() > 0 && a[0] == b[0] {
            law_names_are_ordered(a.skip(1), b.skip(1));
            if a != b {
                assert(a.skip(1) != b.skip(1)) by {
                    if a.skip(1) == b.skip(1) {
                        assert(a =~= seq![a[0]] + a.skip(1));
                        assert(b =~= seq![b[0]] + b.skip(1));
                    }
                }
            }
        }
    }
    if a.len() == 0 && b.len() == 0 {
        assert(a =~= b);
    }
}

// ---------------------------------------------------------------------------
// URLs
// ---------------------------------------------------------------------------

/// The number of an issue or a pull request is read from its URL, with or without a slash
/// at its end; a URL of another kind has none.
pub proof fn law_a_number_is_read_from_its_url(before: Seq<char>, segment: Seq<char>, n: u64)
    ensures
        gh::number_in(before + segment + "/"@ + text::decimal(n as nat), segment) == Some(n),
        gh::number_in(before + segment + "/"@ + text::decimal(n as nat) + "/"@, segment) == Some(
            n,
        ),
{
    reveal_strlit("/");
    let d = text::decimal(n as nat);
    text::lemma_decimal(n as nat);
    text::lemma_decimal_reads_back(n as nat, u64::MAX as nat);
    let head = before + segment;
    let u = head + "/"@ + d;
    let k = head.len() as int;
    assert(d.len() > 0);
    assert forall|i: int| k < i < u.len() implies #[trigger] u[i] != '/' by {
        assert(u[i] == d[i - k - 1]);
        assert(text::is_digit(d[i - k - 1]));
    }
    assert(u.last() == u[u.len() - 1]);
    assert(text::without_trailing(u, '/') == u);
    assert((u + "/"@).drop_last() =~= u);
    assert((u + "/"@).last() == '/');
    assert(text::without_trailing(u + "/"@, '/') == u);
    assert(u[k] == '/');
    lemma_last_char(u, '/', k);
    assert(u.take(k) =~= head);
    assert(u.skip(k + 1) =~= d);
    assert(head.subrange(before.len() as int, k) =~= segment);
}

/// The last number in a report counts.
pub proof fn law_the_last_number_counts(words: Seq<Seq<char>>, word: Seq<char>, segment: Seq<char>)
    ensures
        gh::last_number(words.push(word), segment) == match gh::number_in(word, segment) {
            Some(n) => Some(n),
            None => gh::last_number(words, segment),
        },
        gh::last_number(Seq::<Seq<char>>::empty(), segment) is None,
{
    assert(words.push(word).drop_last() =~= words);
}

/// A segment of a URL.
pub open spec fn is_segment(s: Seq<char>) -> bool {
    &&& s.len() > 0
    &&& facts::snug(s)
    &&& forall|i: int| 0 <= i < s.len() ==> #[trigger] s[i] != '/' && s[i] != ':'
}

/// The pieces of a text are split at each place.
proof fn lemma_split_cons(a: Seq<char>, b: Seq<char>)
    requires
        forall|i: int| 0 <= i < a.len() ==> #[trigger] a[i] != '/',
    ensures
        text::split_of(a + "/"@ + b, '/') == seq![a] + text::split_of(b, '/'),
{
    reveal_strlit("/");
    let s = a + "/"@ + b;
    text::lemma_char_from_range(s, '/', 0);
    let i = text::char_from(s, '/', 0)->0;
    assert(s[a.len() as int] == '/');
    assert(i == a.len()) by {
        if i < a.len() {
            assert(s[i] == a[i]);
        }
    }
    assert(s.take(i) =~= a);
    assert(s.skip(i + 1) =~= b);
}

/// A text without a slash is one piece.
proof fn lemma_split_one(a: Seq<char>)
    requires
        forall|i: int| 0 <= i < a.len() ==> #[trigger] a[i] != '/',
    ensures
        text::split_of(a, '/') == seq![a],
{
    text::lemma_char_from_range(a, '/', 0);
}

/// The pieces of two texts with a slash between them.
proof fn lemma_split_concat(a: Seq<char>, b: Seq<char>)
    ensures
        text::split_of(a + "/"@ + b, '/') == text::split_of(a, '/') + text::split_of(b, '/'),
    decreases a.len(),
{
    reveal_strlit("/");
    text::lemma_char_from_range(a, '/', 0);
    match text::char_from(a, '/', 0) {
        None => {
            lemma_split_cons(a, b);
        },
        Some(i) => {
            let x = a.take(i);
            let y = a.skip(i + 1);
            assert(a =~= x + "/"@ + y);
            lemma_split_cons(x, y);
            lemma_split_concat(y, b);
            assert(a + "/"@ + b =~= x + "/"@ + (y + "/"@ + b));
            lemma_split_cons(x, y + "/"@ + b);
            assert(text::split_of(a + "/"@ + b, '/') =~= text::split_of(a, '/') + text::split_of(
                b,
                '/',
            ));
        },
    }
}

/// The pieces that are not empty.
proof fn lemma_nonempty_concat(a: Seq<Seq<char>>, b: Seq<Seq<char>>)
    ensures
        projects::nonempty(a + b) == projects::nonempty(a) + projects::nonempty(b),
    decreases b.len(),
{
    if b.len() == 0 {
        assert(a + b =~= a);
        assert(projects::nonempty(a) + projects::nonempty(b) =~= projects::nonempty(a));
    } else {
        lemma_nonempty_concat(a, b.drop_last());
        assert((a + b).drop_last() =~= a + b.drop_last());
        assert(projects::nonempty(a + b) =~= projects::nonempty(a) + projects::nonempty(b));
    }
}

/// The segments of what a URL ends with.
proof fn lemma_segments(host: Seq<char>, owner: Seq<char>, repo: Seq<char>)
    requires
        is_segment(owner),
        is_segment(repo),
    ensures
        ({
            let a = projects::segments_of(host + "/"@ + owner + "/"@ + repo);
            let b = projects::segments_of(host + ":"@ + owner + "/"@ + repo);
            &&& a.len() >= 2 && a[a.len() - 2] == owner && a[a.len() - 1] == repo
            &&& b.len() >= 2 && b[b.len() - 2] == owner && b[b.len() - 1] == repo
        }),
{
    reveal_strlit("/");
    reveal_strlit(":");
    let tail = owner + "/"@ + repo;
    lemma_split_cons(owner, repo);
    lemma_split_one(repo);
    let two = seq![owner] + seq![repo];
    lemma_nonempty_concat(seq![owner], seq![repo]);
    let e = Seq::<Seq<char>>::empty();
    assert(seq![owner].drop_last() =~= e);
    assert(seq![repo].drop_last() =~= e);
    assert(projects::nonempty(e) =~= e);
    assert(seq![owner].last() == owner && seq![repo].last() == repo);
    assert(projects::nonempty(seq![owner]) =~= e.push(owner));
    assert(projects::nonempty(seq![repo]) =~= e.push(repo));
    assert(projects::nonempty(seq![owner]) =~= seq![owner]);
    assert(projects::nonempty(seq![repo]) =~= seq![repo]);
    assert(projects::nonempty(text::split_of(tail, '/')) =~= two);
    // behind a colon
    let u = host + ":"@ + owner + "/"@ + repo;
    let k = host.len() as int;
    assert(u[k] == ':');
    assert(u =~= host + ":"@ + tail);
    assert forall|i: int| k < i < u.len() implies #[trigger] u[i] != ':' by {
        assert(u[i] == tail[i - k - 1]);
        if i - k - 1 < owner.len() {
            assert(tail[i - k - 1] == owner[i - k - 1]);
        } else if i - k - 1 > owner.len() {
            assert(tail[i - k - 1] == repo[i - k - 2 - owner.len()]);
        }
    }
    lemma_last_char(u, ':', k);
    assert(u.skip(k + 1) =~= tail);
    // behind a slash
    let v = host + "/"@ + owner + "/"@ + repo;
    assert(v =~= host + "/"@ + tail);
    match text::last_char(v, ':') {
        None => {
            lemma_split_concat(host, tail);
            lemma_nonempty_concat(text::split_of(host, '/'), text::split_of(tail, '/'));
        },
        Some(c) => {
            lemma_last_char_range(v, ':');
            assert(c < k) by {
                if c >= k {
                    if c > k {
                        assert(v[c] == tail[c - k - 1]);
                        if c - k - 1 < owner.len() {
                            assert(tail[c - k - 1] == owner[c - k - 1]);
                        } else if c - k - 1 > owner.len() {
                            assert(tail[c - k - 1] == repo[c - k - 2 - owner.len()]);
                        }
                    } else {
                        assert(v[k] == '/');
                    }
                }
            }
            let h = host.skip(c + 1);
            assert(v.skip(c + 1) =~= h + "/"@ + tail);
            lemma_split_concat(h, tail);
            lemma_nonempty_concat(text::split_of(h, '/'), text::split_of(tail, '/'));
        },
    }
}

/// The last of a character is that character.
proof fn lemma_last_char_range(s: Seq<char>, c: char)
    ensures
        text::last_char(s, c) matches Some(k) ==> 0 <= k < s.len() && s[k] == c,
    decreases s.len(),
{
    if s.len() > 0 && s.last() != c {
        lemma_last_char_range(s.drop_last(), c);
    }
}

/// A remote names its owner and its repository in both forms of a URL, behind a slash and
/// behind a colon, with or without `.git` and a slash at the end.
pub proof fn law_a_remote_names_its_owner_and_repository(
    host: Seq<char>,
    owner: Seq<char>,
    repo: Seq<char>,
)
    requires
        host.len() > 0,
        !text::is_white(host[0]),
        is_segment(owner),
        is_segment(repo),
        !text::ends(repo, ".git"@),
    ensures
        ({
            let a = host + "/"@ + owner + "/"@ + repo;
            let b = host + ":"@ + owner + "/"@ + repo;
            let want = Some(owner + "/"@ + repo);
            &&& projects::owner_repo_of(a) == want && projects::owner_repo_of(b) == want
            &&& projects::owner_repo_of(a + ".git"@) == want && projects::owner_repo_of(
                b + ".git"@,
            ) == want
            &&& projects::owner_repo_of(a + "/"@) == want
        }),
{
    reveal_strlit("/");
    reveal_strlit(":");
    reveal_strlit(".git");
    lemma_segments(host, owner, repo);
    let a = host + "/"@ + owner + "/"@ + repo;
    let b = host + ":"@ + owner + "/"@ + repo;
    assert(a.skip(a.len() - repo.len()) =~= repo);
    assert(b.skip(b.len() - repo.len()) =~= repo);
    lemma_remote_tail(a, repo);
    lemma_remote_tail(b, repo);
}

/// A URL without its end.
proof fn lemma_remote_tail(u: Seq<char>, repo: Seq<char>)
    requires
        is_segment(repo),
        u.len() > repo.len(),
        !text::is_white(u[0]),
        u.skip(u.len() - repo.len()) == repo,
        u[u.len() - repo.len() - 1] == '/',
        !text::ends(repo, ".git"@),
    ensures
        projects::remote_tail(u) == u,
        projects::remote_tail(u + ".git"@) == u,
        projects::remote_tail(u + "/"@) == u,
{
    reveal_strlit("/");
    reveal_strlit(".git");
    let n = repo.len() as int;
    let m = u.len() as int;
    assert forall|i: int| 0 <= i < n implies repo[i] == u[m - n + i] by {
        assert(u.skip(m - n)[i] == u[m - n + i]);
    }
    assert(u.last() == repo[n - 1]);
    assert(u.last() != '/');
    assert(facts::snug(u));
    facts::lemma_trimmed_snug(u);
    assert(text::without_trailing(u, '/') == u);
    assert(!text::ends(u, ".git"@)) by {
        if text::ends(u, ".git"@) {
            let x = u.subrange(m - 4, m);
            assert(x == ".git"@);
            if n >= 4 {
                assert(repo.subrange(n - 4, n) =~= x);
            } else {
                assert(x[3 - n] == u[m - n - 1]);
                assert(x[0] == '.' && x[1] == 'g' && x[2] == 'i' && x[3] == 't');
            }
        }
    }
    let g = u + ".git"@;
    assert(g.last() == 't');
    assert(facts::snug(g));
    facts::lemma_trimmed_snug(g);
    assert(g.subrange(m, m + 4) =~= ".git"@);
    assert(g.take(m) =~= u);
    let s = u + "/"@;
    assert(s.last() == '/');
    assert(facts::snug(s));
    facts::lemma_trimmed_snug(s);
    assert(s.drop_last() =~= u);
}

// ---------------------------------------------------------------------------
// Worktrees and branches
// ---------------------------------------------------------------------------

/// A listing describes one worktree after the other: a path starts the next one, and the
/// lines behind it say its commit and its branch.
pub proof fn law_a_listed_worktree_reads_back(
    ls: Seq<Seq<char>>,
    path: Seq<char>,
    head: Seq<char>,
    branch: Seq<char>,
)
    ensures
        gitx::worktrees_in(
            ls.push("worktree "@ + path).push("HEAD "@ + head).push(
                "branch "@ + ("refs/heads/"@ + branch),
            ),
        ) == gitx::worktrees_in(ls).push(
            WorktreeV {
                path,
                head: Some(head),
                branch: Some(branch),
                bare: false,
                detached: false,
                locked: false,
                prunable: false,
                is_main: gitx::worktrees_in(ls).len() == 0,
            },
        ),
{
    let a = ls.push("worktree "@ + path);
    let b = a.push("HEAD "@ + head);
    let line = "branch "@ + ("refs/heads/"@ + branch);
    let c = b.push(line);
    reveal_strlit("worktree ");
    reveal_strlit("HEAD ");
    reveal_strlit("branch ");
    facts::lemma_begins("worktree "@, path);
    facts::lemma_begins("HEAD "@, head);
    facts::lemma_begins("branch "@, "refs/heads/"@ + branch);
    facts::lemma_begins("refs/heads/"@, branch);
    assert(a.drop_last() =~= ls);
    assert(b.drop_last() =~= a);
    assert(c.drop_last() =~= b);
    assert(text::after_prefix("HEAD "@ + head, "worktree "@) is None) by {
        let l = "HEAD "@ + head;
        if text::begins(l, "worktree "@) {
            assert(l.subrange(0, "worktree "@.len() as int)[0] == l[0]);
        }
    }
    assert(text::after_prefix(line, "worktree "@) is None) by {
        if text::begins(line, "worktree "@) {
            assert(line.subrange(0, "worktree "@.len() as int)[0] == line[0]);
        }
    }
    assert(text::after_prefix(line, "HEAD "@) is None) by {
        if text::begins(line, "HEAD "@) {
            assert(line.subrange(0, "HEAD "@.len() as int)[0] == line[0]);
        }
    }
    let want = gitx::worktrees_in(ls).push(
        WorktreeV {
            path,
            head: Some(head),
            branch: Some(branch),
            bare: false,
            detached: false,
            locked: false,
            prunable: false,
            is_main: gitx::worktrees_in(ls).len() == 0,
        },
    );
    let ws = gitx::worktrees_in(ls);
    let fresh = gitx::new_worktree(path, ws.len() == 0);
    let first = gitx::described(fresh, "HEAD "@ + head);
    let second = gitx::described(first, line);
    assert(gitx::worktrees_in(a) == ws.push(fresh));
    assert(gitx::worktrees_in(b) =~= ws.push(first));
    assert(gitx::worktrees_in(c) =~= ws.push(second));
    assert(first == (WorktreeV { head: Some(head), ..fresh }));
    assert(second == (WorktreeV { branch: Some(branch), ..first }));
}

/// A flag in a listing is that of the worktree which it is listed under.
pub proof fn law_a_listed_flag_is_that_of_its_worktree(w: WorktreeV)
    ensures
        gitx::described(w, "locked"@) == (WorktreeV { locked: true, ..w }),
        gitx::described(w, "prunable"@) == (WorktreeV { prunable: true, ..w }),
        gitx::described(w, "bare"@) == (WorktreeV { bare: true, ..w }),
        gitx::described(w, "detached"@) == (WorktreeV { detached: true, ..w }),
        gitx::described(w, Seq::<char>::empty()) == w,
{
    reveal_strlit("HEAD ");
    reveal_strlit("branch ");
    reveal_strlit("bare");
    reveal_strlit("detached");
    reveal_strlit("locked");
    reveal_strlit("prunable");
    reveal_strlit("locked ");
    reveal_strlit("prunable ");
    assert("bare"@.len() < "branch "@.len());
    assert("bare"@.len() < "HEAD "@.len());
    assert("locked"@.subrange(0, 5)[0] == "locked"@[0]);
    assert("prunable"@.subrange(0, 5)[0] == "prunable"@[0]);
    assert("prunable"@.subrange(0, 7)[0] == "prunable"@[0]);
    assert("detached"@.subrange(0, 5)[0] == "detached"@[0]);
    assert("detached"@.subrange(0, 7)[0] == "detached"@[0]);
    assert("HEAD "@[0] == 'H');
    assert("branch "@[0] == 'b');
    assert("locked"@ != "bare"@ && "prunable"@ != "bare"@ && "detached"@ != "bare"@);
    assert("locked"@ != "detached"@);
    assert("prunable"@ != "detached"@) by {
        assert("prunable"@[0] != "detached"@[0]);
    }
    assert("prunable"@ != "locked"@);
    assert(!text::begins("prunable"@, "locked "@)) by {
        assert("prunable"@.subrange(0, 7)[0] == "prunable"@[0]);
        assert("locked "@[0] == 'l');
    }
}

/// A pull request targets the default branch of the remote; else `main`, else `master`.
pub proof fn law_the_base_branch_follows_the_remote(
    name: Seq<char>,
    has_main: bool,
    has_master: bool,
)
    ensures
        name.len() > 0 ==> gitx::base_branch(Some("origin/"@ + name), has_main, has_master)
            == Some(name),
        gitx::base_branch(None, true, has_master) == Some("main"@),
        gitx::base_branch(None, false, true) == Some("master"@),
        gitx::base_branch(None, false, false) is None,
{
    facts::lemma_begins("origin/"@, name);
}

/// What a worktree is bound to is read back: the id of the task.
pub proof fn law_a_binding_reads_back(id: Seq<char>)
    requires
        facts::snug(id),
        id.len() > 0,
    ensures
        gitx::trimmed_given(Some(gitx::pointer_to(id))) == Some(id),
        gitx::trimmed_given(None) is None,
{
    reveal_strlit("\n");
    facts::lemma_trimmed_of(seq![], id, "\n"@);
    assert(seq![] + id + "\n"@ =~= gitx::pointer_to(id));
}

/// A reported count is the number that it shows, whatever white space stands around it.
pub proof fn law_a_count_is_read(before: Seq<char>, n: u64, after: Seq<char>)
    requires
        facts::all_white(before),
        facts::all_white(after),
    ensures
        gitx::count_in(before + text::decimal(n as nat) + after) == n,
{
    let d = text::decimal(n as nat);
    text::lemma_decimal(n as nat);
    text::lemma_decimal_reads_back(n as nat, u64::MAX as nat);
    facts::lemma_trimmed_pad(before, d, after);
    assert(text::is_digit(d[0]));
    assert(text::is_digit(d[d.len() - 1]));
    facts::lemma_trimmed_snug(d);
}

/// The commits counted are those from the base to the branch: the base stands first and
/// the branch last, with two dots between them.
pub proof fn law_commits_are_counted_from_the_base(base: Seq<char>, branch: Seq<char>)
    ensures
        ({
            let r = gitx::range_between(base, branch);
            &&& r.take(base.len() as int) == base
            &&& r.skip(base.len() as int + 2) == branch
            &&& r.len() == base.len() + 2 + branch.len()
            &&& r[base.len() as int] == '.' && r[base.len() as int + 1] == '.'
        }),
{
    reveal_strlit("..");
    let r = gitx::range_between(base, branch);
    assert(r.take(base.len() as int) =~= base);
    assert(r.skip(base.len() as int + 2) =~= branch);
}

/// Locking a worktree and unlocking it are asked of git by their names, and of the worktree
/// that was named.
pub proof fn law_a_lock_is_asked_for_by_its_name(path: Seq<char>, lock: bool)
    ensures
        gitx::lock_args(path, lock).last() == path,
        gitx::lock_args(path, lock).contains("lock"@) <== lock,
        gitx::lock_args(path, lock).contains("unlock"@) <== !lock,
        lock && path != "unlock"@ ==> !gitx::lock_args(path, lock).contains("unlock"@),
        !lock && path != "lock"@ ==> !gitx::lock_args(path, lock).contains("lock"@),
        gitx::lock_args(path, lock)[0] == "worktree"@,
        gitx::lock_args(path, lock).len() == 3,
{
    reveal_strlit("worktree");
    reveal_strlit("lock");
    reveal_strlit("unlock");
    let a = gitx::lock_args(path, lock);
    assert(a[1] == if lock {
        "lock"@
    } else {
        "unlock"@
    });
    assert("worktree"@.len() == 8 && "lock"@.len() == 4 && "unlock"@.len() == 6);
}

/// A worktree that is added stands at the path asked for and on the branch asked for: a
/// branch that is not there is made, and only such a one.
pub proof fn law_a_worktree_is_added_on_its_branch(
    path: Seq<char>,
    branch: Seq<char>,
    exists: bool,
)
    requires
        path != "-b"@,
        branch != "-b"@,
    ensures
        ({
            let a = gitx::add_args(path, branch, exists);
            &&& a[0] == "worktree"@ && a[1] == "add"@
            &&& exists ==> a.skip(2) == seq![path, branch]
            &&& !exists ==> a.skip(2).contains("-b"@) && a.last() == path
            &&& !exists ==> forall|i: int|
                2 <= i < a.len() - 1 && #[trigger] a[i] == "-b"@ ==> a[i + 1] == branch
        }),
{
    let a = gitx::add_args(path, branch, exists);
    if exists {
        assert(a.skip(2) =~= seq![path, branch]);
    } else {
        assert(a.skip(2)[0] == "-b"@);
    }
}

/// The three directories of a repository are read in the order in which they were asked
/// for; with fewer there is none.
pub proof fn law_a_repository_is_read_line_by_line(
    workdir: Seq<char>,
    git_dir: Seq<char>,
    common_dir: Seq<char>,
)
    requires
        facts::settled_line(workdir),
        facts::settled_line(git_dir),
        facts::settled_line(common_dir),
        common_dir.len() > 0,
    ensures
        gitx::repo_in(workdir + "\n"@ + (git_dir + "\n"@ + common_dir)) == Some(
            (gitx::RepoV { workdir, git_dir, common_dir, pointer: None }),
        ),
        gitx::repo_in(workdir + "\n"@ + git_dir) is None,
        gitx::repo_in(workdir) is None,
{
    facts::lemma_lines_cons(workdir, git_dir + "\n"@ + common_dir);
    facts::lemma_lines_cons(git_dir, common_dir);
    facts::lemma_lines_cons(workdir, git_dir);
    facts::lemma_lines_single(workdir);
    facts::lemma_lines_single(git_dir);
    facts::lemma_lines_single(common_dir);
}

// ---------------------------------------------------------------------------
// Stores
// ---------------------------------------------------------------------------

/// Where the data is kept, and which store is used: what is set explicitly wins, each time.
pub proof fn law_explicit_places_win(
    xdg: Option<Seq<char>>,
    home: Seq<char>,
    p: Place,
)
    ensures
        xdg matches Some(x) ==> (x.len() > 0 ==> projects::data_home_of(xdg, Some(home)) == x),
        xdg is None || xdg->0.len() == 0 ==> projects::data_home_of(xdg, Some(home))
            == paths::joined_path(home, ".local/share"@),
        text::opt_view(p.rein_root) matches Some(r) ==> (r.len() > 0 ==> projects::root_of(p)
            == Ok::<Seq<char>, Seq<char>>(r)),
        p.rein_root is None ==> (text::opt_view(p.key) matches Some(k) ==> projects::root_of(p)
            == Ok::<Seq<char>, Seq<char>>(
            paths::joined_path(paths::joined_path(p.data_home@, "rein"@), k),
        )),
        p.rein_root is None && p.key is None ==> projects::root_of(p) is Err,
{
}

/// A project is called after its remote, where that names one; else after the directory of
/// its repository; else after its store.
pub proof fn law_a_project_is_called_after_its_remote(root: Seq<char>, meta: Option<Json>)
    ensures
        projects::hint(meta, "remote"@) matches Some(u) ==> (projects::owner_repo_of(
            u,
        ) matches Some(n) ==> projects::project_of(root, meta) == n),
        projects::hint(meta, "remote"@) is None ==> (projects::hint(
            meta,
            "common_dir"@,
        ) matches Some(c) ==> (paths::parent_of(c) matches Some(d) ==> (paths::file_name_of(
            d,
        ) matches Some(n) ==> projects::project_of(root, meta) == n))),
        meta is None ==> (paths::file_name_of(root) matches Some(n) ==> projects::project_of(
            root,
            meta,
        ) == n),
        projects::hint(meta, "common_dir"@) matches Some(c) ==> projects::repo_dir_of(meta)
            == paths::parent_of(c),
{
}

/// Setting a project in its place keeps the others.
proof fn lemma_placed(ps: Seq<StoreInfoV>, x: StoreInfoV, n: int)
    requires
        0 <= n <= ps.len(),
    ensures
        projects::placed(ps, x, n).len() == ps.len() + 1,
        projects::placed(ps, x, n).contains(x),
        forall|k: int|
            0 <= k < ps.len() ==> projects::placed(ps, x, n).contains(#[trigger] ps[k]),
    decreases n,
{
    if 0 < n && paths::text_before(x.project, ps[n - 1].project) {
        lemma_placed(ps, x, n - 1);
    } else {
        let q = ps.insert(n, x);
        assert(q[n] == x);
        assert forall|k: int| 0 <= k < ps.len() implies q.contains(#[trigger] ps[k]) by {
            if k < n {
                assert(q[k] == ps[k]);
            } else {
                assert(q[k + 1] == ps[k]);
            }
        }
    }
}

/// Every store that is there is one of the projects, with what its hints say.
pub proof fn law_every_store_is_a_project(ss: Seq<StoreV>, k: int)
    requires
        0 <= k < ss.len(),
    ensures
        projects::projects_of(ss).len() == ss.len(),
        projects::projects_of(ss).contains(projects::info_of(ss[k], projects::meta_of(ss[k]))),
        projects::info_of(ss[k], projects::meta_of(ss[k])).store == ss[k],
    decreases ss.len(),
{
    let d = ss.drop_last();
    let before = projects::projects_of(d);
    let x = projects::info_of(ss.last(), projects::meta_of(ss.last()));
    lemma_placed(before, x, before.len() as int);
    if k < d.len() {
        law_every_store_is_a_project(d, k);
        let y = projects::info_of(d[k], projects::meta_of(d[k]));
        let m = choose|m: int| 0 <= m < before.len() && before[m] == y;
        assert(projects::placed(before, x, before.len() as int).contains(before[m]));
    } else if d.len() > 0 {
        law_every_store_is_a_project(d, 0);
    } else {
        assert(before.len() == 0);
    }
}

// ---------------------------------------------------------------------------
// Hashes
// ---------------------------------------------------------------------------

/// The digits of bytes tell the bytes: two digits for each, and different ones for
/// different bytes.
pub proof fn law_digits_tell_the_bytes(a: Seq<u8>, b: Seq<u8>)
    ensures
        util::hex_of(a).len() == 2 * a.len(),
        util::hex_of(a) == util::hex_of(b) ==> a == b,
    decreases a.len() + b.len(),
{
    lemma_hex_len(a);
    lemma_hex_len(b);
    if util::hex_of(a) == util::hex_of(b) {
        assert(a.len() == b.len());
        if a.len() == 0 {
            assert(a =~= b);
        } else {
            let x = a.last();
            let y = b.last();
            let ha = util::hex_of(a.drop_last());
            let hb = util::hex_of(b.drop_last());
            lemma_hex_len(a.drop_last());
            lemma_hex_len(b.drop_last());
            let n = ha.len() as int;
            assert(util::hex_of(a)[n] == util::hex_digit(x as nat / 16));
            assert(util::hex_of(a)[n + 1] == util::hex_digit(x as nat % 16));
            assert(util::hex_of(b)[n] == util::hex_digit(y as nat / 16));
            assert(util::hex_of(b)[n + 1] == util::hex_digit(y as nat % 16));
            lemma_hex_digit(x as nat / 16, y as nat / 16);
            lemma_hex_digit(x as nat % 16, y as nat % 16);
            assert(x == y);
            assert(ha =~= util::hex_of(a).take(n));
            assert(hb =~= util::hex_of(b).take(n));
            law_digits_tell_the_bytes(a.drop_last(), b.drop_last());
            assert(a =~= a.drop_last().push(x));
            assert(b =~= b.drop_last().push(y));
        }
    }
}

proof fn lemma_hex_len(a: Seq<u8>)
    ensures
        util::hex_of(a).len() == 2 * a.len(),
    decreases a.len(),
{
    if a.len() > 0 {
        lemma_hex_len(a.drop_last());
    }
}

/// Different numbers have different digits.
proof fn lemma_hex_digit(m: nat, n: nat)
    requires
        m < 16,
        n < 16,
        util::hex_digit(m) == util::hex_digit(n),
    ensures
        m == n,
{
    assert('0' as nat == 48 && 'a' as nat == 97);
}

} // verus!
