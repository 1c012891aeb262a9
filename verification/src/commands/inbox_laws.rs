//! Laws of the shared inbox: what is imported stays known, so that pulling it again
//! imports nothing.
use crate::commands::items;
use crate::commands::sync_cmd::{self, InboxRunV};
use crate::commands::syncing;
use crate::facts;
use crate::gh::RemoteIssueV;
use crate::store::{self, Status, StoreFileV, StoreV, TaskRefV};
use crate::task::doc::{self, TaskDocV};
use crate::task::identity_laws;
use crate::task::managed;
use crate::write_laws;
use vstd::prelude::*;
use vstd::string::*;

verus! {

/// A store whose files have paths of their own.
#[verifier::opaque]
pub open spec fn sound(s: StoreV) -> bool {
    forall|i: int, j: int|
        0 <= i < j < s.files.len() ==> (#[trigger] s.files[i]).path != (#[trigger] s.files[j]).path
}

/// An issue that can be imported: its title is one line.
pub open spec fn importable(ri: RemoteIssueV) -> bool {
    facts::one_line(ri.title)
}

/// A rewrite keeps the paths of the files apart.
proof fn lemma_written_is_sound(s: StoreV, path: Seq<char>, t: Seq<char>)
    requires
        sound(s),
    ensures
        sound(store::written(s, path, t)),
{
    reveal(sound);
    let after = store::written(s, path, t);
    write_laws::lemma_file_from(s.files, path, 0);
    let at = match store::file_from(s.files, path, 0) {
        Some(i) => i,
        None => s.files.len() as int,
    };
    assert(after.files[at] == (StoreFileV { path, text: t }));
    assert forall|i: int, j: int| 0 <= i < j < after.files.len() implies (
    #[trigger] after.files[i]).path != (#[trigger] after.files[j]).path by {
        if i != at && j != at {
            assert(after.files[i] == s.files[i] && after.files[j] == s.files[j]);
        } else if i == at && j != at {
            assert(after.files[j] == s.files[j]);
            assert(s.files[i].path != s.files[j].path);
        } else {
            assert(after.files[i] == s.files[i]);
            if at < s.files.len() {
                assert(s.files[i].path != s.files[at].path);
            }
        }
    }
}

/// A task that is listed is held by a file, below the directory of its status.
proof fn lemma_task_file(s: StoreV, t: TaskRefV) -> (r: (int, Status))
    requires
        store::all_tasks(s).contains(t),
    ensures
        0 <= r.0 < s.files.len(),
        store::task_in(s.files[r.0], r.1) == Some(t),
        store::is_doc_in(store::dir_of(s.root, r.1), t.path),
        store::tasks_of(s, r.1).contains(t),
        s.files[r.0].path == t.path,
{
    let a = store::tasks_of(s, Status::Inbox);
    let b = store::tasks_of(s, Status::Active);
    let c = store::tasks_of(s, Status::Done);
    let e = store::tasks_of(s, Status::Canceled);
    let all = store::all_tasks(s);
    let k = choose|k: int| 0 <= k < all.len() && all[k] == t;
    let status = if k < a.len() {
        assert(a[k] == t);
        Status::Inbox
    } else if k < a.len() + b.len() {
        assert(b[k - a.len()] == t);
        Status::Active
    } else if k < a.len() + b.len() + c.len() {
        assert(c[k - a.len() - b.len()] == t);
        Status::Done
    } else {
        assert(e[k - a.len() - b.len() - c.len()] == t);
        Status::Canceled
    };
    let dir = store::dir_of(s.root, status);
    let docs = store::docs_in(s.files, dir);
    write_laws::lemma_tasks_contain(docs, status);
    assert(store::tasks_of(s, status).contains(t));
    let f = choose|f: StoreFileV| #[trigger]
        docs.contains(f) && store::task_in(f, status) == Some(t);
    write_laws::lemma_docs_contain(s.files, dir);
    let i = choose|i: int| 0 <= i < s.files.len() && s.files[i] == f;
    (i, status)
}

/// A store in which an issue is recognized.
#[verifier::opaque]
pub open spec fn recognizes(s: StoreV, ri: RemoteIssueV) -> bool {
    sync_cmd::known_as(s, ri) is Some
}

/// The task that an issue is.
pub open spec fn is_issue(t: TaskRefV, ri: RemoteIssueV) -> bool {
    ||| managed::managed_of(ri.body) matches Some((id, _, _)) && t.id == id
    ||| t.doc.front.github_issue == Some(ri.number)
}

/// An issue is recognized where some task is that issue.
proof fn lemma_recognized(s: StoreV, ri: RemoteIssueV)
    ensures
        recognizes(s, ri) <==> exists|t: TaskRefV| #[trigger]
            store::all_tasks(s).contains(t) && is_issue(t, ri),
        sync_cmd::known_as(s, ri) matches Some(t) ==> store::all_tasks(s).contains(t),
{
    reveal(recognizes);
    let ts = store::all_tasks(s);
    write_laws::lemma_with_issue(ts, ri.number, 0);
    if let Some((id, _, _)) = managed::managed_of(ri.body) {
        write_laws::lemma_with_id(ts, id, 0);
    }
    if exists|t: TaskRefV| #[trigger] ts.contains(t) && is_issue(t, ri) {
        let t = choose|t: TaskRefV| #[trigger] ts.contains(t) && is_issue(t, ri);
        let k = choose|k: int| 0 <= k < ts.len() && ts[k] == t;
        assert(ts[k] == t);
    }
    if recognizes(s, ri) {
        assert(is_issue(sync_cmd::known_as(s, ri)->0, ri));
    }
}

/// Rewriting the document of a task, with its frontmatter as it was but for the time,
/// keeps every issue recognized.
proof fn lemma_rewrite_keeps_issues(s: StoreV, t: TaskRefV, d: TaskDocV, now: Seq<char>, ri: RemoteIssueV)
    requires
        sound(s),
        store::all_tasks(s).contains(t),
        d.front == doc::touched(t.doc, now).front,
        facts::one_line(now),
        recognizes(s, ri),
    ensures
        sound(store::written(s, t.path, doc::serialized(d))),
        recognizes(store::written(s, t.path, doc::serialized(d)), ri),
{
    reveal(sound);
    let after = store::written(s, t.path, doc::serialized(d));
    let (i, status) = lemma_task_file(s, t);
    identity_laws::law_read_values_are_lines(s.files[i].text);
    facts::lemma_trimmed_snug(t.doc.front.id);
    lemma_written_is_sound(s, t.path, doc::serialized(d));
    write_laws::law_written_document_is_listed(s, d, status, t.path);
    let mine = write_laws::task_at(d, status, t.path);
    lemma_recognized(s, ri);
    lemma_recognized(after, ri);
    let u = choose|u: TaskRefV| #[trigger] store::all_tasks(s).contains(u) && is_issue(u, ri);
    let (j, kept) = lemma_task_file(s, u);
    if u.path == t.path {
        assert(i == j);
        assert(u.doc == t.doc && u.id == t.id);
        assert(is_issue(mine, ri));
    } else {
        write_laws::law_writing_one_document_keeps_the_others(
            s,
            t.path,
            doc::serialized(d),
            kept,
            u,
        );
        write_laws::lemma_all_tasks(after, kept, u);
    }
}

/// Only files and the root decide which issues are recognized.
proof fn lemma_same_files(s: StoreV, r: StoreV, ri: RemoteIssueV)
    requires
        s.files == r.files,
        s.root == r.root,
    ensures
        recognizes(s, ri) == recognizes(r, ri),
        sound(s) == sound(r),
{
    reveal(sound);
    reveal(recognizes);
    assert(store::all_tasks(s) == store::all_tasks(r));
}

/// Giving a task its ids keeps every issue recognized.
proof fn lemma_assigned_keeps_issues(s: StoreV, t: TaskRefV, now: Seq<char>, ri: RemoteIssueV)
    requires
        sound(s),
        store::all_tasks(s).contains(t),
        facts::one_line(now),
        recognizes(s, ri),
    ensures
        sound(items::assigned(s, t, now).store),
        recognizes(items::assigned(s, t, now).store, ri),
        items::assigned(s, t, now).task matches Ok(f) ==> store::all_tasks(
            items::assigned(s, t, now).store,
        ).contains(f),
{
    let a = items::assigned(s, t, now);
    if a.steps.len() > 0 {
        lemma_rewrite_keeps_issues(s, t, items::healed_doc(t, now), now, ri);
        write_laws::lemma_with_id(store::all_tasks(a.store), t.id, 0);
    }
}

/// Pulling an issue into a task keeps every issue recognized.
proof fn lemma_pulled_keeps_issues(
    s: StoreV,
    t: TaskRefV,
    remote: Seq<char>,
    now: Seq<char>,
    ri: RemoteIssueV,
)
    requires
        sound(s),
        store::all_tasks(s).contains(t),
        facts::one_line(now),
        recognizes(s, ri),
    ensures
        sound(syncing::pulled(s, t, remote, false, now).store),
        recognizes(syncing::pulled(s, t, remote, false, now).store, ri),
{
    let a = items::assigned(s, t, now);
    lemma_assigned_keeps_issues(s, t, now, ri);
    let p = syncing::pulled(s, t, remote, false, now);
    if crate::sync::owned_by_other(remote, t.id) is Some {
        assert(p.store == s);
    } else if let Ok(fresh) = a.task {
        if let Some((_, _, inner)) = managed::managed_of(remote) {
            let d = items::with_body(
                fresh.doc,
                crate::task::sections::merged_body(inner, fresh.doc.body),
                now,
            );
            lemma_rewrite_keeps_issues(a.store, fresh, d, now, ri);
            let w = store::written(a.store, fresh.path, doc::serialized(d));
            if p.store.files != a.store.files {
                lemma_same_files(p.store, w, ri);
            } else {
                lemma_same_files(p.store, a.store, ri);
            }
        }
    }
}

/// Importing an issue keeps every issue recognized, and that one is from then on.
proof fn lemma_import_keeps_issues(
    s: StoreV,
    other: RemoteIssueV,
    today: Seq<char>,
    now: Seq<char>,
    ri: RemoteIssueV,
)
    requires
        sound(s),
        importable(other),
        facts::one_line(today),
        facts::one_line(now),
    ensures
        sound(sync_cmd::import_store(s, other, today, now)),
        recognizes(sync_cmd::import_store(s, other, today, now), other),
        recognizes(s, ri) ==> recognizes(sync_cmd::import_store(s, other, today, now), ri),
{
    reveal(recognizes);
    let d = sync_cmd::import_doc(s, other, today, now);
    let path = sync_cmd::import_path(s, other);
    let after = store::written(s, path, doc::serialized(d));
    let last = sync_cmd::import_store(s, other, today, now);
    write_laws::law_imported_issue_is_known(s, other, today, now);
    lemma_written_is_sound(s, path, doc::serialized(d));
    lemma_same_files(last, after, ri);
    if recognizes(s, ri) {
        lemma_recognized(s, ri);
        lemma_recognized(after, ri);
        let u = choose|u: TaskRefV| #[trigger] store::all_tasks(s).contains(u) && is_issue(u, ri);
        let (j, kept) = lemma_task_file(s, u);
        // a task at the new path would have the new slug, which is free
        if u.path == path {
            write_laws::lemma_new_slug(s, other.title);
            let slugs = store::slugs_of(store::all_tasks(s));
            let k = choose|k: int|
                0 <= k < store::all_tasks(s).len() && store::all_tasks(s)[k] == u;
            assert(slugs[k] == u.slug);
            assert(slugs.contains(u.slug));
            assert(false);
        }
        write_laws::law_writing_one_document_keeps_the_others(
            s,
            path,
            doc::serialized(d),
            kept,
            u,
        );
        write_laws::lemma_all_tasks(after, kept, u);
    }
}

/// One more issue of the inbox: every issue that was recognized still is, and that one
/// is from then on.
pub proof fn law_recognized_issues_stay_recognized(
    run: InboxRunV,
    other: RemoteIssueV,
    today: Seq<char>,
    now: Seq<char>,
    ri: RemoteIssueV,
)
    requires
        sound(run.store),
        importable(other),
        facts::one_line(today),
        facts::one_line(now),
    ensures
        sound(sync_cmd::inbox_step(run, other, today, now).store),
        recognizes(sync_cmd::inbox_step(run, other, today, now).store, other),
        recognizes(run.store, ri) ==> recognizes(
            sync_cmd::inbox_step(run, other, today, now).store,
            ri,
        ),
{
    reveal(sync_cmd::inbox_step);
    reveal(recognizes);
    match sync_cmd::known_as(run.store, other) {
        Some(t) => {
            lemma_recognized(run.store, other);
            lemma_pulled_keeps_issues(run.store, t, other.body, now, other);
            if recognizes(run.store, ri) {
                lemma_pulled_keeps_issues(run.store, t, other.body, now, ri);
            }
        },
        None => {
            lemma_import_keeps_issues(run.store, other, today, now, ri);
        },
    }
}

/// A pull of the inbox takes its last issue behind the others.
proof fn lemma_run_last(s: StoreV, issues: Seq<RemoteIssueV>, today: Seq<char>, now: Seq<char>)
    requires
        issues.len() > 0,
    ensures
        ({
            let run = sync_cmd::inbox_run(s, issues.drop_last(), today, now);
            sync_cmd::inbox_run(s, issues, today, now) == if run.error is Some {
                run
            } else {
                sync_cmd::inbox_step(run, issues.last(), today, now)
            }
        }),
{
}

/// One more issue of the inbox, as to what is recognized.
proof fn lemma_step_recognizes(
    run: InboxRunV,
    next: InboxRunV,
    x: RemoteIssueV,
    today: Seq<char>,
    now: Seq<char>,
    ri: RemoteIssueV,
)
    requires
        sound(run.store),
        importable(x),
        facts::one_line(today),
        facts::one_line(now),
        next == sync_cmd::inbox_step(run, x, today, now),
    ensures
        sound(next.store),
        recognizes(next.store, x),
        recognizes(run.store, ri) ==> recognizes(next.store, ri),
        recognizes(run.store, x) ==> next.imported == run.imported,
{
    reveal(sync_cmd::inbox_step);
    reveal(recognizes);
    law_recognized_issues_stay_recognized(run, x, today, now, ri);
}

/// Every issue that a pull of the inbox went through is recognized after it.
#[verifier::spinoff_prover]
proof fn lemma_run_recognizes(
    s: StoreV,
    issues: Seq<RemoteIssueV>,
    today: Seq<char>,
    now: Seq<char>,
    ri: RemoteIssueV,
)
    requires
        sound(s),
        forall|k: int| 0 <= k < issues.len() ==> importable(#[trigger] issues[k]),
        facts::one_line(today),
        facts::one_line(now),
    ensures
        sound(sync_cmd::inbox_run(s, issues, today, now).store),
        recognizes(s, ri) ==> recognizes(sync_cmd::inbox_run(s, issues, today, now).store, ri),
        sync_cmd::inbox_run(s, issues, today, now).error is None && issues.contains(ri)
            ==> recognizes(sync_cmd::inbox_run(s, issues, today, now).store, ri),
    decreases issues.len(),
{
    if issues.len() > 0 {
        let d = issues.drop_last();
        let x = issues.last();
        lemma_run_recognizes(s, d, today, now, ri);
        lemma_run_last(s, issues, today, now);
        let run = sync_cmd::inbox_run(s, d, today, now);
        let next = sync_cmd::inbox_run(s, issues, today, now);
        assert(importable(issues[issues.len() - 1]));
        if run.error is None {
            lemma_step_recognizes(run, next, x, today, now, ri);
            if issues.contains(ri) && ri != x {
                let k = choose|k: int| 0 <= k < issues.len() && issues[k] == ri;
                assert(d[k] == ri);
            }
        }
    }
}

/// Where every issue is recognized, a pull of the inbox imports none.
#[verifier::spinoff_prover]
proof fn lemma_run_imports_none(
    s: StoreV,
    issues: Seq<RemoteIssueV>,
    today: Seq<char>,
    now: Seq<char>,
)
    requires
        sound(s),
        forall|k: int|
            0 <= k < issues.len() ==> importable(#[trigger] issues[k]) && recognizes(s, issues[k]),
        facts::one_line(today),
        facts::one_line(now),
    ensures
        sync_cmd::inbox_run(s, issues, today, now).imported == 0,
    decreases issues.len(),
{
    if issues.len() > 0 {
        let d = issues.drop_last();
        let x = issues.last();
        assert forall|k: int| 0 <= k < d.len() implies importable(#[trigger] d[k]) && recognizes(
            s,
            d[k],
        ) by {
            assert(d[k] == issues[k]);
        }
        lemma_run_imports_none(s, d, today, now);
        assert(recognizes(s, issues[issues.len() - 1]));
        lemma_run_recognizes(s, d, today, now, x);
        lemma_run_last(s, issues, today, now);
        let run = sync_cmd::inbox_run(s, d, today, now);
        if run.error is None {
            let next = sync_cmd::inbox_run(s, issues, today, now);
            lemma_step_recognizes(run, next, x, today, now, x);
        }
    }
}

/// Pulling the inbox is idempotent: what one pull imported, the next does not import
/// again.
pub proof fn law_pulling_the_inbox_again_imports_nothing(
    s: StoreV,
    issues: Seq<RemoteIssueV>,
    today: Seq<char>,
    now: Seq<char>,
    tomorrow: Seq<char>,
    later: Seq<char>,
)
    requires
        sound(s),
        forall|k: int| 0 <= k < issues.len() ==> importable(#[trigger] issues[k]),
        facts::one_line(today) && facts::one_line(tomorrow),
        facts::one_line(now) && facts::one_line(later),
        sync_cmd::inbox_run(s, issues, today, now).error is None,
    ensures
        sync_cmd::inbox_run(
            sync_cmd::inbox_run(s, issues, today, now).store,
            issues,
            tomorrow,
            later,
        ).imported == 0,
{
    let after = sync_cmd::inbox_run(s, issues, today, now).store;
    assert forall|k: int| 0 <= k < issues.len() implies importable(#[trigger] issues[k])
        && recognizes(after, issues[k]) by {
        assert(issues.contains(issues[k]));
        lemma_run_recognizes(s, issues, today, now, issues[k]);
    }
    if issues.len() > 0 {
        lemma_run_recognizes(s, issues, today, now, issues[0]);
        lemma_run_imports_none(after, issues, tomorrow, later);
    }
}

} // verus!
