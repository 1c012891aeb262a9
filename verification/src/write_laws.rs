//! Laws of writing: what is written to a store is found in it again, and nothing
//! else is lost.
use crate::commands::local;
use crate::commands::storing;
use crate::commands::sync_cmd;
use crate::facts;
use crate::gh::RemoteIssueV;
use crate::gitx;
use crate::paths;
use crate::state::{self, StoredStateV, TaskStateV};
use crate::store::{self, Status, StoreFileV, StoreV, TaskRefV};
use crate::store_laws;
use crate::task::doc::{self, TaskDocV};
use crate::task::doc_laws;
use crate::task::identity_laws;
use crate::task::managed;
use crate::text;
use crate::util;
use vstd::prelude::*;
use vstd::string::*;

verus! {

// ---------------------------------------------------------------------------
// Files
// ---------------------------------------------------------------------------

/// Inserting a file loses none, and adds no other.
proof fn lemma_inserted_contains(fs: Seq<StoreFileV>, x: StoreFileV, n: int)
    requires
        0 <= n <= fs.len(),
    ensures
        forall|f: StoreFileV| #[trigger]
            store::inserted(fs, x, n).contains(f) <==> f == x || fs.contains(f),
    decreases n,
{
    if 0 < n && paths::path_before(x.path, fs[n - 1].path) {
        lemma_inserted_contains(fs, x, n - 1);
        assert(store::inserted(fs, x, n) == store::inserted(fs, x, n - 1));
    } else {
        let r = fs.insert(n, x);
        assert(store::inserted(fs, x, n) == r);
        assert forall|f: StoreFileV| #[trigger] r.contains(f) <==> f == x || fs.contains(f) by {
            if r.contains(f) {
                let k = choose|k: int| 0 <= k < r.len() && r[k] == f;
                if k < n {
                    assert(fs[k] == f);
                } else if k > n {
                    assert(fs[k - 1] == f);
                }
            }
            if f == x {
                assert(r[n] == x);
            }
            if fs.contains(f) {
                let k = choose|k: int| 0 <= k < fs.len() && fs[k] == f;
                if k < n {
                    assert(r[k] == f);
                } else {
                    assert(r[k + 1] == f);
                }
            }
        }
    }
}

/// The documents of a directory are its Markdown files.
pub proof fn lemma_docs_contain(fs: Seq<StoreFileV>, dir: Seq<char>)
    ensures
        forall|f: StoreFileV| #[trigger]
            store::docs_in(fs, dir).contains(f) <==> fs.contains(f) && store::is_doc_in(
                dir,
                f.path,
            ),
    decreases fs.len(),
{
    if fs.len() > 0 {
        let d = fs.drop_last();
        let x = fs.last();
        lemma_docs_contain(d, dir);
        let before = store::docs_in(d, dir);
        if store::is_doc_in(dir, x.path) {
            lemma_inserted_contains(before, x, before.len() as int);
        }
        assert forall|f: StoreFileV| #[trigger]
            store::docs_in(fs, dir).contains(f) <==> fs.contains(f) && store::is_doc_in(
                dir,
                f.path,
            ) by {
            if d.contains(f) {
                let k = choose|k: int| 0 <= k < d.len() && d[k] == f;
                assert(fs[k] == f);
            }
            if fs.contains(f) {
                let k = choose|k: int| 0 <= k < fs.len() && fs[k] == f;
                if k < d.len() {
                    assert(d[k] == f);
                }
            }
            if f == x {
                assert(fs[fs.len() - 1] == x);
            }
            if before.contains(f) {
                assert(d.contains(f));
            }
        }
    }
}

/// The tasks of files are what the files hold.
pub proof fn lemma_tasks_contain(fs: Seq<StoreFileV>, status: Status)
    ensures
        forall|f: StoreFileV|
            #![trigger fs.contains(f)]
            fs.contains(f) && store::task_in(f, status) is Some ==> store::tasks_in(
                fs,
                status,
            ).contains(store::task_in(f, status)->0),
        forall|t: TaskRefV| #[trigger]
            store::tasks_in(fs, status).contains(t) ==> exists|f: StoreFileV| #[trigger]
                fs.contains(f) && store::task_in(f, status) == Some(t),
    decreases fs.len(),
{
    if fs.len() > 0 {
        let d = fs.drop_last();
        let x = fs.last();
        lemma_tasks_contain(d, status);
        let before = store::tasks_in(d, status);
        let now = store::tasks_in(fs, status);
        assert forall|f: StoreFileV|
            #![trigger fs.contains(f)]
            fs.contains(f) && store::task_in(f, status) is Some implies now.contains(
            store::task_in(f, status)->0,
        ) by {
            let t = store::task_in(f, status)->0;
            let k = choose|k: int| 0 <= k < fs.len() && fs[k] == f;
            if k < d.len() {
                assert(d[k] == f);
                assert(d.contains(f));
                assert(before.contains(t));
                let m = choose|m: int| 0 <= m < before.len() && before[m] == t;
                assert(now[m] == t);
            } else {
                assert(now[now.len() - 1] == t);
            }
        }
        assert forall|t: TaskRefV| #[trigger] now.contains(t) implies exists|f: StoreFileV| #[trigger]
            fs.contains(f) && store::task_in(f, status) == Some(t) by {
            let m = choose|m: int| 0 <= m < now.len() && now[m] == t;
            if m < before.len() {
                assert(before[m] == t);
                assert(before.contains(t));
                let f = choose|f: StoreFileV| #[trigger]
                    d.contains(f) && store::task_in(f, status) == Some(t);
                let k = choose|k: int| 0 <= k < d.len() && d[k] == f;
                assert(fs[k] == f);
                assert(fs.contains(f));
            } else {
                assert(fs[fs.len() - 1] == x);
                assert(fs.contains(x));
            }
        }
    }
}

/// The first file with a path has it.
pub proof fn lemma_file_from(fs: Seq<StoreFileV>, path: Seq<char>, i: int)
    requires
        0 <= i,
    ensures
        match store::file_from(fs, path, i) {
            Some(k) => i <= k < fs.len() && fs[k].path == path,
            None => forall|k: int| i <= k < fs.len() ==> (#[trigger] fs[k]).path != path,
        },
    decreases fs.len() - i,
{
    if i < fs.len() && fs[i].path != path {
        lemma_file_from(fs, path, i + 1);
    }
}

/// A written file is there, and the files with other paths still are.
proof fn lemma_written_files(s: StoreV, path: Seq<char>, text: Seq<char>)
    ensures
        store::written(s, path, text).files.contains(StoreFileV { path, text }),
        forall|f: StoreFileV| #[trigger]
            s.files.contains(f) && f.path != path ==> store::written(
                s,
                path,
                text,
            ).files.contains(f),
{
    let fs = s.files;
    let g = StoreFileV { path, text };
    let after = store::written(s, path, text).files;
    lemma_file_from(fs, path, 0);
    match store::file_from(fs, path, 0) {
        Some(i) => {
            assert(after[i] == g);
        },
        None => {
            assert(after[fs.len() as int] == g);
        },
    }
    assert forall|f: StoreFileV| #[trigger] fs.contains(f) && f.path != path implies after.contains(
        f,
    ) by {
        let k = choose|k: int| 0 <= k < fs.len() && fs[k] == f;
        assert(after[k] == f);
    }
}

/// The tasks of a status are among all tasks.
pub proof fn lemma_all_tasks(s: StoreV, status: Status, t: TaskRefV)
    requires
        store::tasks_of(s, status).contains(t),
    ensures
        store::all_tasks(s).contains(t),
{
    let a = store::tasks_of(s, Status::Inbox);
    let b = store::tasks_of(s, Status::Active);
    let c = store::tasks_of(s, Status::Done);
    let all = store::all_tasks(s);
    let ts = store::tasks_of(s, status);
    let k = choose|k: int| 0 <= k < ts.len() && ts[k] == t;
    let at = k + match status {
        Status::Inbox => 0,
        Status::Active => a.len() as int,
        Status::Done => (a.len() + b.len()) as int,
        Status::Canceled => (a.len() + b.len() + c.len()) as int,
    };
    assert(all[at] == t);
}

// ---------------------------------------------------------------------------
// Documents
// ---------------------------------------------------------------------------

/// The task that a document is, where it is kept at a path.
pub open spec fn task_at(d: TaskDocV, status: Status, path: Seq<char>) -> TaskRefV {
    let read = doc::parsed(doc::serialized(d))->Ok_0;
    TaskRefV { id: read.front.id, slug: paths::md_stem(path)->0, status, path, doc: read }
}

/// A document that was written below the directory of a status is listed as a task of
/// that status: the directory is the status. Its id and its issue are those that were
/// written, and so is all of its frontmatter where its lines carry it.
pub proof fn law_written_document_is_listed(
    s: StoreV,
    d: TaskDocV,
    status: Status,
    path: Seq<char>,
)
    requires
        identity_laws::lined(d.front),
        store::is_doc_in(store::dir_of(s.root, status), path),
    ensures
        store::all_tasks(store::written(s, path, doc::serialized(d))).contains(
            task_at(d, status, path),
        ),
        task_at(d, status, path).id == text::trimmed(d.front.id),
        task_at(d, status, path).doc.front.github_issue == d.front.github_issue,
        doc_laws::storable(d.front) ==> task_at(d, status, path).doc.front == d.front,
{
    let after = store::written(s, path, doc::serialized(d));
    let f = StoreFileV { path, text: doc::serialized(d) };
    let dir = store::dir_of(s.root, status);
    let t = task_at(d, status, path);
    identity_laws::law_identity_reads_back(d);
    if doc_laws::storable(d.front) {
        doc_laws::law_document_reads_back(d);
    }
    lemma_written_files(s, path, doc::serialized(d));
    lemma_docs_contain(after.files, dir);
    let docs = store::docs_in(after.files, dir);
    assert(docs.contains(f));
    lemma_tasks_contain(docs, status);
    assert(store::task_in(f, status) == Some(t));
    lemma_all_tasks(after, status, t);
}

/// The first task with an id has it; where there is one, it is found.
pub proof fn lemma_with_id(ts: Seq<TaskRefV>, id: Seq<char>, i: int)
    requires
        0 <= i,
    ensures
        match store::with_id_from(ts, id, i) {
            Some(t) => t.id == id && ts.contains(t),
            None => forall|k: int| i <= k < ts.len() ==> (#[trigger] ts[k]).id != id,
        },
    decreases ts.len() - i,
{
    if i < ts.len() {
        if ts[i].id == id {
            assert(ts.contains(ts[i]));
        } else {
            lemma_with_id(ts, id, i + 1);
        }
    }
}

/// The first task with an issue has it; where there is one, it is found.
pub proof fn lemma_with_issue(ts: Seq<TaskRefV>, number: u64, i: int)
    requires
        0 <= i,
    ensures
        match store::with_issue_from(ts, number, i) {
            Some(t) => t.doc.front.github_issue == Some(number) && ts.contains(t),
            None => forall|k: int|
                i <= k < ts.len() ==> (#[trigger] ts[k]).doc.front.github_issue != Some(number),
        },
    decreases ts.len() - i,
{
    if i < ts.len() {
        if ts[i].doc.front.github_issue == Some(number) {
            assert(ts.contains(ts[i]));
        } else {
            lemma_with_issue(ts, number, i + 1);
        }
    }
}

/// A task that is listed is found by its id, by its issue, and by its slug.
proof fn lemma_listed_is_found(ts: Seq<TaskRefV>, t: TaskRefV)
    requires
        ts.contains(t),
    ensures
        store::with_id_from(ts, t.id, 0) is Some,
        t.doc.front.github_issue matches Some(n) ==> store::with_issue_from(ts, n, 0) is Some,
        store::found(ts, t.slug) is Ok,
{
    let k = choose|k: int| 0 <= k < ts.len() && ts[k] == t;
    lemma_with_id(ts, t.id, 0);
    assert(ts[k].id == t.id);
    if let Some(n) = t.doc.front.github_issue {
        lemma_with_issue(ts, n, 0);
        assert(ts[k].doc.front.github_issue == Some(n));
    }
    store_laws::law_exact_name_is_found(ts, t);
}

/// Writing one document leaves every task with another document as it was: commands
/// on one task never touch another.
pub proof fn law_writing_one_document_keeps_the_others(
    s: StoreV,
    path: Seq<char>,
    text: Seq<char>,
    status: Status,
    t: TaskRefV,
)
    requires
        store::tasks_of(s, status).contains(t),
        t.path != path,
    ensures
        store::tasks_of(store::written(s, path, text), status).contains(t),
{
    let after = store::written(s, path, text);
    let dir = store::dir_of(s.root, status);
    let docs = store::docs_in(s.files, dir);
    lemma_tasks_contain(docs, status);
    let f = choose|f: StoreFileV| #[trigger]
        docs.contains(f) && store::task_in(f, status) == Some(t);
    assert(f.path == t.path);
    lemma_docs_contain(s.files, dir);
    lemma_written_files(s, path, text);
    assert(s.files.contains(f));
    lemma_docs_contain(after.files, dir);
    let now = store::docs_in(after.files, dir);
    assert(now.contains(f));
    lemma_tasks_contain(now, status);
}

// ---------------------------------------------------------------------------
// Places
// ---------------------------------------------------------------------------

/// A name of a file: something, and without a slash.
pub open spec fn is_name(s: Seq<char>) -> bool {
    s.len() > 0 && forall|i: int| 0 <= i < s.len() ==> #[trigger] s[i] != '/'
}

/// What follows the last slash is all that follows it.
proof fn lemma_last_part(dir: Seq<char>, name: Seq<char>)
    requires
        is_name(name),
        dir.len() == 0 || dir.last() == '/',
    ensures
        paths::last_part(dir + name) == name,
{
    let p = dir + name;
    paths::lemma_last_char(p, '/');
    match text::last_char(p, '/') {
        Some(i) => {
            if i >= dir.len() {
                assert(p[i] == name[i - dir.len()]);
            }
            if dir.len() > 0 && i < dir.len() - 1 {
                assert(p[dir.len() - 1] == '/');
            }
            assert(p.skip(i + 1) =~= name);
        },
        None => {
            if dir.len() > 0 {
                assert(p[dir.len() - 1] == '/');
            }
            assert(p =~= name);
        },
    }
}

/// A path that ends in a slash.
proof fn lemma_prefix(dir: Seq<char>)
    ensures
        paths::as_prefix(dir).len() > 0,
        paths::as_prefix(dir).last() == '/',
        dir.len() > 0 ==> forall|rel: Seq<char>|
            rel.len() > 0 && rel[0] != '/' ==> #[trigger] paths::joined_path(dir, rel)
                == paths::as_prefix(dir) + rel,
{
    reveal_strlit("/");
    if text::ends(dir, "/"@) {
        assert(dir.subrange(dir.len() - 1, dir.len() as int)[0] == dir.last());
    }
    if dir.len() > 0 {
        assert forall|rel: Seq<char>| rel.len() > 0 && rel[0] != '/' implies #[trigger] paths::joined_path(
            dir,
            rel,
        ) == paths::as_prefix(dir) + rel by {
            assert(rel.subrange(0, 1)[0] == rel[0]);
            assert(!text::begins(rel, "/"@));
        }
    }
}

/// A document that is named after a slug, below a directory.
proof fn lemma_document_path(dir: Seq<char>, below: Seq<char>, slug: Seq<char>)
    requires
        is_name(slug),
        below.len() == 0 || below.last() == '/',
    ensures
        ({
            let path = paths::as_prefix(dir) + below + storing::doc_name(slug);
            &&& store::is_doc_in(dir, path)
            &&& paths::md_stem(path) == Some(slug)
        }),
{
    reveal_strlit(".md");
    let pre = paths::as_prefix(dir);
    let name = storing::doc_name(slug);
    let path = pre + below + name;
    lemma_prefix(dir);
    assert forall|i: int| 0 <= i < name.len() implies #[trigger] name[i] != '/' by {
        if i < slug.len() {
            assert(name[i] == slug[i]);
        } else {
            assert(name[i] == ".md"@[i - slug.len()]);
        }
    }
    assert((pre + below).last() == '/') by {
        if below.len() > 0 {
            assert((pre + below).last() == below.last());
        } else {
            assert(pre + below =~= pre);
        }
    }
    lemma_last_part(pre + below, name);
    facts::lemma_ends(slug, ".md"@);
    facts::lemma_begins(pre, below + name);
    assert(path =~= pre + (below + name));
}

/// The directory of a status is named.
proof fn lemma_status_dir(root: Seq<char>, status: Status)
    ensures
        store::dir_of(root, status).len() > 0,
{
    reveal_strlit("inbox");
    reveal_strlit("active");
    reveal_strlit("done");
    reveal_strlit("canceled");
}

/// A task keeps its file name in every status, and is kept below the directory of the
/// status that it takes.
pub proof fn law_moving_changes_only_the_directory(
    root: Seq<char>,
    slug: Seq<char>,
    to: Status,
    month: Seq<char>,
)
    requires
        is_name(slug),
        is_name(month),
    ensures
        store::is_doc_in(store::dir_of(root, to), storing::moved_path(root, slug, to, month)),
        paths::md_stem(storing::moved_path(root, slug, to, month)) == Some(slug),
{
    reveal_strlit("/");
    let dir = store::dir_of(root, to);
    let name = storing::doc_name(slug);
    let path = storing::moved_path(root, slug, to, month);
    lemma_status_dir(root, to);
    lemma_prefix(dir);
    assert(name[0] == slug[0]);
    if to == Status::Done {
        let sub = paths::joined_path(dir, month);
        assert(sub == paths::as_prefix(dir) + month);
        lemma_prefix(sub);
        assert(path == paths::as_prefix(sub) + name);
        assert(sub.last() == month.last());
        assert(month[month.len() - 1] != '/');
        assert(!text::ends(sub, "/"@)) by {
            assert(sub.subrange(sub.len() - 1, sub.len() as int)[0] == sub.last());
        }
        assert(path =~= paths::as_prefix(dir) + (month + "/"@) + name);
        lemma_document_path(dir, month + "/"@, slug);
    } else {
        assert(path == paths::as_prefix(dir) + name);
        assert(path =~= paths::as_prefix(dir) + Seq::<char>::empty() + name);
        lemma_document_path(dir, seq![], slug);
    }
}

/// A free slug is a file name, where the text that it is made from is one.
proof fn lemma_free_slug_is_name(taken: Seq<Seq<char>>, base: Seq<char>)
    requires
        is_name(base),
    ensures
        is_name(store::free_slug(taken, base)),
{
    if taken.contains(base) {
        lemma_free_slug_from_is_name(taken, base, 2, taken.len());
    }
}

proof fn lemma_free_slug_from_is_name(taken: Seq<Seq<char>>, base: Seq<char>, n: nat, left: nat)
    requires
        is_name(base),
    ensures
        is_name(store::free_slug_from(taken, base, n, left)),
    decreases left,
{
    reveal_strlit("-");
    let c = base + "-"@ + text::decimal(n);
    text::lemma_decimal(n);
    assert forall|i: int| 0 <= i < c.len() implies #[trigger] c[i] != '/' by {
        if i < base.len() {
            assert(c[i] == base[i]);
        } else if i == base.len() {
            assert(c[i] == '-');
        } else {
            assert(text::is_digit(text::decimal(n)[i - base.len() - 1]));
        }
    }
    if left > 0 && taken.contains(c) {
        lemma_free_slug_from_is_name(taken, base, n + 1, (left - 1) as nat);
    }
}

/// The slug of a title is a file name.
proof fn lemma_slug_is_name(title: Seq<char>)
    ensures
        is_name(util::slug_of(title)),
{
    util::law_slugs_have_one_form(title);
    let s = util::slug_of(title);
    assert forall|i: int| 0 <= i < s.len() implies #[trigger] s[i] != '/' by {
        assert(util::is_slug_char(s[i]));
    }
}

/// A new slug is a file name made of the characters of slugs, and no task has it.
pub proof fn lemma_new_slug(s: StoreV, title: Seq<char>)
    ensures
        ({
            let slug = store::free_slug(
                store::slugs_of(store::all_tasks(s)),
                util::slug_of(title),
            );
            &&& is_name(slug)
            &&& forall|i: int| 0 <= i < slug.len() ==> util::is_slug_char(#[trigger] slug[i])
            &&& !store::slugs_of(store::all_tasks(s)).contains(slug)
            &&& paths::md_stem(
                paths::joined_path(
                    store::dir_of(s.root, Status::Inbox),
                    storing::doc_name(slug),
                ),
            ) == Some(slug)
        }),
{
    let taken = store::slugs_of(store::all_tasks(s));
    let slug = store::free_slug(taken, util::slug_of(title));
    lemma_slug_is_name(title);
    lemma_free_slug_is_name(taken, util::slug_of(title));
    store_laws::law_new_slug_is_free(taken, util::slug_of(title));
    util::law_slugs_have_one_form(title);
    if taken.contains(util::slug_of(title)) {
        lemma_free_slug_chars(taken, util::slug_of(title), 2, taken.len());
    }
    lemma_inbox_path(s.root, slug);
}

proof fn lemma_free_slug_chars(taken: Seq<Seq<char>>, base: Seq<char>, n: nat, left: nat)
    requires
        forall|i: int| 0 <= i < base.len() ==> util::is_slug_char(#[trigger] base[i]),
    ensures
        ({
            let slug = store::free_slug_from(taken, base, n, left);
            forall|i: int| 0 <= i < slug.len() ==> util::is_slug_char(#[trigger] slug[i])
        }),
    decreases left,
{
    reveal_strlit("-");
    let c = base + "-"@ + text::decimal(n);
    text::lemma_decimal(n);
    assert forall|i: int| 0 <= i < c.len() implies util::is_slug_char(#[trigger] c[i]) by {
        if i < base.len() {
            assert(c[i] == base[i]);
        } else if i == base.len() {
            assert(c[i] == '-');
        } else {
            assert(text::is_digit(text::decimal(n)[i - base.len() - 1]));
        }
    }
    if left > 0 && taken.contains(c) {
        lemma_free_slug_chars(taken, base, n + 1, (left - 1) as nat);
        assert(store::free_slug_from(taken, base, n, left) == store::free_slug_from(
            taken,
            base,
            n + 1,
            (left - 1) as nat,
        ));
    } else {
        assert(store::free_slug_from(taken, base, n, left) == c);
    }
}

/// The document of a new slug in the inbox.
proof fn lemma_inbox_path(root: Seq<char>, slug: Seq<char>)
    requires
        is_name(slug),
    ensures
        ({
            let path = paths::joined_path(
                store::dir_of(root, Status::Inbox),
                storing::doc_name(slug),
            );
            &&& store::is_doc_in(store::dir_of(root, Status::Inbox), path)
            &&& paths::md_stem(path) == Some(slug)
        }),
{
    let dir = store::dir_of(root, Status::Inbox);
    lemma_status_dir(root, Status::Inbox);
    lemma_prefix(dir);
    assert(storing::doc_name(slug)[0] == slug[0]);
    assert(paths::as_prefix(dir) + storing::doc_name(slug) =~= paths::as_prefix(dir) + Seq::<
        char,
    >::empty() + storing::doc_name(slug));
    lemma_document_path(dir, seq![], slug);
}

// ---------------------------------------------------------------------------
// New tasks and imported issues
// ---------------------------------------------------------------------------

/// The id of a new slug is one line, without white space around it.
pub proof fn lemma_new_id(s: StoreV, title: Seq<char>, today: Seq<char>)
    requires
        facts::one_line(today),
    ensures
        facts::one_line(local::new_id(s, title, today)),
        text::trimmed(local::new_id(s, title, today)) == local::new_id(s, title, today),
{
    reveal_strlit("task-");
    reveal_strlit("-");
    let slug = local::new_slug(s, title);
    let id = local::new_id(s, title, today);
    lemma_new_slug(s, title);
    assert(util::is_slug_char(slug[slug.len() - 1]));
    assert(id.last() == slug.last());
    assert(id[0] == "task-"@[0]);
    facts::lemma_trimmed_snug(id);
    assert forall|i: int| 0 <= i < id.len() implies #[trigger] id[i] != '\n' by {
        if i < 5 {
            assert(id[i] == "task-"@[i]);
        } else if i < 5 + today.len() {
            assert(id[i] == today[i - 5]);
        } else if i > 5 + today.len() {
            assert(util::is_slug_char(slug[i - 6 - today.len()]));
        }
    }
}

/// A task that was created is found again, by its slug and by its id, and it is in the
/// inbox.
pub proof fn law_new_task_is_found(
    s: StoreV,
    title: Seq<char>,
    shared: bool,
    today: Seq<char>,
    now: Seq<char>,
)
    requires
        facts::one_line(title),
        facts::one_line(today),
        facts::one_line(now),
    ensures
        ({
            let d = doc::new_doc(local::new_id(s, title, today), title, "inbox"@, now, shared);
            let after = store::written(s, local::new_path(s, title), doc::serialized(d));
            &&& store::all_tasks(after).contains(
                task_at(d, Status::Inbox, local::new_path(s, title)),
            )
            &&& task_at(d, Status::Inbox, local::new_path(s, title)).slug == local::new_slug(
                s,
                title,
            )
            &&& store::found(store::all_tasks(after), local::new_slug(s, title)) is Ok
            &&& store::with_id_from(
                store::all_tasks(after),
                local::new_id(s, title, today),
                0,
            ) is Some
        }),
{
    let d = doc::new_doc(local::new_id(s, title, today), title, "inbox"@, now, shared);
    let path = local::new_path(s, title);
    let slug = local::new_slug(s, title);
    lemma_slug_is_name(title);
    lemma_free_slug_is_name(store::slugs_of(store::all_tasks(s)), util::slug_of(title));
    lemma_inbox_path(s.root, slug);
    lemma_new_id(s, title, today);
    reveal_strlit("inbox");
    law_written_document_is_listed(s, d, Status::Inbox, path);
    let after = store::written(s, path, doc::serialized(d));
    lemma_listed_is_found(store::all_tasks(after), task_at(d, Status::Inbox, path));
}

/// The document of an issue with a title of one line has values of one line each, and an
/// id without white space around it.
pub proof fn lemma_import_is_lined(
    s: StoreV,
    ri: RemoteIssueV,
    today: Seq<char>,
    now: Seq<char>,
)
    requires
        facts::one_line(ri.title),
        facts::one_line(today),
        facts::one_line(now),
    ensures
        identity_laws::lined(sync_cmd::import_doc(s, ri, today, now).front),
        text::trimmed(sync_cmd::import_id(s, ri, today)) == sync_cmd::import_id(s, ri, today),
{
    reveal_strlit("inbox");
    identity_laws::law_marked_ids_are_lines(ri.body);
    match managed::managed_of(ri.body) {
        Some((id, _, _)) => {
            facts::lemma_trimmed_snug(id);
        },
        None => {
            lemma_new_id(s, ri.title, today);
        },
    }
}

/// An issue that was imported is known from then on, so that the same issue is never
/// imported twice.
pub proof fn law_imported_issue_is_known(
    s: StoreV,
    ri: RemoteIssueV,
    today: Seq<char>,
    now: Seq<char>,
)
    requires
        facts::one_line(ri.title),
        facts::one_line(today),
        facts::one_line(now),
    ensures
        sync_cmd::known_as(sync_cmd::import_store(s, ri, today, now), ri) is Some,
{
    let d = sync_cmd::import_doc(s, ri, today, now);
    let path = sync_cmd::import_path(s, ri);
    lemma_slug_is_name(ri.title);
    lemma_free_slug_is_name(store::slugs_of(store::all_tasks(s)), util::slug_of(ri.title));
    lemma_inbox_path(s.root, sync_cmd::import_slug(s, ri));
    lemma_import_is_lined(s, ri, today, now);
    law_written_document_is_listed(s, d, Status::Inbox, path);
    let after = store::written(s, path, doc::serialized(d));
    let last = sync_cmd::import_store(s, ri, today, now);
    assert(last.files == after.files && last.root == after.root);
    assert(store::all_tasks(last) == store::all_tasks(after));
    lemma_listed_is_found(store::all_tasks(after), task_at(d, Status::Inbox, path));
}

// ---------------------------------------------------------------------------
// State, pointers
// ---------------------------------------------------------------------------

proof fn lemma_stored_from(sts: Seq<StoredStateV>, id: Seq<char>, i: int)
    requires
        0 <= i,
    ensures
        match store::stored_from(sts, id, i) {
            Some(k) => i <= k < sts.len() && sts[k].id == id && (forall|m: int|
                i <= m < k ==> (#[trigger] sts[m]).id != id) && state::state_from(sts, id, i)
                == sts[k].state,
            None => (forall|k: int| i <= k < sts.len() ==> (#[trigger] sts[k]).id != id)
                && state::state_from(sts, id, i) == state::no_state(),
        },
    decreases sts.len() - i,
{
    if i < sts.len() && sts[i].id != id {
        lemma_stored_from(sts, id, i + 1);
    }
}

/// The state of a task that was written is what is read, and the state of every other
/// task is as it was.
pub proof fn law_state_reads_back(s: StoreV, id: Seq<char>, st: TaskStateV, other: Seq<char>)
    ensures
        state::state_from(store::stated(s, id, st).states, id, 0) == st,
        other != id ==> state::state_from(store::stated(s, id, st).states, other, 0)
            == state::state_from(s.states, other, 0),
{
    let sts = s.states;
    let after = store::stated(s, id, st).states;
    lemma_stored_from(sts, id, 0);
    lemma_stored_from(after, id, 0);
    let k = match store::stored_from(sts, id, 0) {
        Some(k) => k,
        None => sts.len() as int,
    };
    assert(after[k] == (StoredStateV { id, state: st }));
    assert forall|m: int| 0 <= m < k implies (#[trigger] after[m]).id != id by {
        assert(after[m] == sts[m]);
    }
    if other != id {
        lemma_stored_from(sts, other, 0);
        lemma_stored_from(after, other, 0);
        match store::stored_from(sts, other, 0) {
            Some(j) => {
                assert(after[j] == sts[j]);
                assert forall|m: int| 0 <= m < j implies (#[trigger] after[m]).id != other by {
                    if m != k {
                        assert(after[m] == sts[m]);
                    }
                }
            },
            None => {
                assert forall|m: int| 0 <= m < after.len() implies (#[trigger] after[m]).id
                    != other by {
                    if m != k {
                        assert(after[m] == sts[m]);
                    }
                }
            },
        }
    }
}

/// The task that a worktree is bound to, and the one that is made current, are read
/// back from what was written.
pub proof fn law_pointers_read_back(id: Seq<char>)
    requires
        facts::snug(id),
        id.len() > 0,
    ensures
        gitx::trimmed_given(Some(id + "\n"@)) == Some(id),
{
    facts::lemma_feed();
    let e = Seq::<char>::empty();
    assert(e + id + "\n"@ =~= id + "\n"@);
    facts::lemma_trimmed_pad(e, id, "\n"@);
    facts::lemma_trimmed_snug(id);
}

} // verus!
