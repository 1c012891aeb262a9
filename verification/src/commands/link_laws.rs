//! Laws of links: what of a task is published as an issue or a pull request, what is
//! imported from one, and what is recorded of it.
use crate::commands::effects;
use crate::commands::item_laws;
use crate::commands::items as commands;
use crate::commands::local;
use crate::commands::plan::{OutcomeV, StateEditV, StepV};
use crate::commands::start;
use crate::commands::sync_cmd;
use crate::commands::syncing::{self, Surface, SyncErrorV};
use crate::ctx::CtxV;
use crate::facts;
use crate::gh::{self, RemoteIssueV};
use crate::gitx::GitCallV;
use crate::json::{self, Json};
use crate::paths;
use crate::resolve;
use crate::state::{self, TaskStateV};
use crate::store::{self, StoreV, TaskRefV};
use crate::store_laws;
use crate::sync;
use crate::task::doc::{self, FrontmatterV, TaskDocV};
use crate::task::items;
use crate::task::log_laws;
use crate::task::managed;
use crate::task::meant_laws;
use crate::task::section_laws;
use crate::task::sections::{self, AGENT_LOG_HEADING};
use crate::text;
use crate::util;
use crate::write_laws;
use vstd::prelude::*;
use vstd::string::*;

verus! {

/// A flag stands among arguments with a value behind it.
pub open spec fn given_as(args: Seq<Seq<char>>, flag: Seq<char>, value: Seq<char>) -> bool {
    exists|i: int| 0 <= i && i + 1 < args.len() && #[trigger] args[i] == flag && args[i + 1] == value
}

// ---------------------------------------------------------------------------
// Issues
// ---------------------------------------------------------------------------

/// The issue of a task is created with its title, the label by which it is found again,
/// and the block that the document shows; on a board only where one is named. Its number
/// is recorded in the document, and the hash of what was published in the state: the next
/// push finds nothing to do.
pub proof fn law_a_created_issue_carries_the_task(
    t: TaskRefV,
    project: Option<Seq<char>>,
    number: u64,
    st: TaskStateV,
    fr: FrontmatterV,
)
    ensures
        ({
            let call = sync_cmd::create_call(t, project);
            let x = sync_cmd::issue_recorded(t, number);
            &&& call.args[0] == "issue"@ && call.args[1] == "create"@
            &&& given_as(call.args, "--title"@, t.doc.front.title)
            &&& given_as(call.args, "--body-file"@, "-"@)
            &&& given_as(call.args, "--label"@, "rein"@)
            &&& project matches Some(p) ==> given_as(call.args, "--project"@, p)
            &&& project is None ==> call.args.len() == 8
            &&& call.stdin matches Some(body) && body == managed::issue_block(t.doc)
                && effects::state_after(x, t.id, st) == (TaskStateV {
                issue_synced_hash: Some(sync::hash_of(body)),
                ..st
            })
            &&& effects::front_after(x, t.path, fr) == (FrontmatterV {
                github_issue: Some(number),
                ..fr
            })
            &&& effects::gh_calls(x).len() == 0
        }),
{
    let call = sync_cmd::create_call(t, project);
    let a = call.args;
    assert(a[2] == "--title"@ && a[3] == t.doc.front.title);
    assert(a[4] == "--body-file"@ && a[5] == "-"@);
    assert(a[6] == "--label"@ && a[7] == "rein"@);
    if let Some(p) = project {
        assert(a[8] == "--project"@ && a[9] == p);
    }
    let x = sync_cmd::issue_recorded(t, number);
    let e = Seq::<StepV>::empty();
    effects::lemma_few();
    effects::lemma_push(e, x[0]);
    effects::lemma_push(e.push(x[0]), x[1]);
    effects::lemma_push(e.push(x[0]).push(x[1]), x[2]);
    assert(x =~= e.push(x[0]).push(x[1]).push(x[2]));
    let h = StateEditV::IssueHash(Some(sync::hash_of(managed::issue_block(t.doc))));
    effects::lemma_edits(st, h, h, h);
}

/// Only a task without an issue gets one.
pub proof fn law_a_task_gets_one_issue(c: CtxV, query: Seq<char>, now: Seq<char>, t: TaskRefV)
    requires
        store::found(store::all_tasks(c.store), query) == Ok::<TaskRefV, Seq<char>>(t),
    ensures
        t.doc.front.github_issue is Some ==> sync_cmd::issue_task(c, query, now).task is Err
            && sync_cmd::issue_task(c, query, now).steps.len() == 0,
        t.doc.front.github_issue is None && meant_laws::all_have_ids(t.doc.body)
            ==> sync_cmd::issue_task(c, query, now).task == Ok::<TaskRefV, Seq<char>>(t)
            && sync_cmd::issue_task(c, query, now).steps.len() == 0,
{
    if meant_laws::all_have_ids(t.doc.body) {
        meant_laws::lemma_none_untagged(items::items_of(t.doc.body));
    }
}

/// Items without an id get one before anything else is done: the document is written with
/// them, and otherwise as it was.
pub proof fn law_missing_ids_are_written(s: StoreV, t: TaskRefV, now: Seq<char>)
    requires
        items::untagged(items::items_of(t.doc.body)) > 0,
    ensures
        commands::assigned(s, t, now).steps == seq![
            StepV::Write {
                path: t.path,
                text: doc::serialized(
                    item_laws::rebodied(t.doc, items::healed_body(t.doc.body), now),
                ),
            },
        ],
        commands::assigned(s, t, now).task matches Ok(f) ==> f.id == t.id,
{
    let after = commands::assigned(s, t, now).store;
    write_laws::lemma_with_id(store::all_tasks(after), t.id, 0);
}

// ---------------------------------------------------------------------------
// Pull requests
// ---------------------------------------------------------------------------

/// A draft pull request is opened from a branch that is pushed first, to the remote that
/// it is opened on, with the title of the task. Where no issue holds the task, what it
/// carries is what its state then records.
pub proof fn law_a_draft_comes_from_the_pushed_branch(
    c: CtxV,
    t: TaskRefV,
    branch: Seq<char>,
    number: u64,
    st: TaskStateV,
)
    ensures
        ({
            let call = start::draft_call(t, branch);
            let after = effects::state_after(start::opened(t, number), t.id, st);
            &&& effects::git_calls(seq![start::branch_push(c, branch)]) == seq![
                GitCallV { dir: c.repo.workdir, args: seq!["push"@, "-u"@, "origin"@, branch] },
            ]
            &&& call.args[0] == "pr"@ && call.args[1] == "create"@ && call.args.contains(
                "--draft"@,
            )
            &&& given_as(call.args, "--title"@, t.doc.front.title)
            &&& given_as(call.args, "--head"@, branch)
            &&& given_as(call.args, "--body-file"@, "-"@)
            &&& call.stdin matches Some(body) && (t.doc.front.github_issue is None
                ==> after.pr_synced_hash == Some(sync::hash_of(body)) && body
                == managed::pr_block(t.doc))
        }),
{
    let a = start::draft_call(t, branch).args;
    assert(a[2] == "--draft"@);
    assert(a[3] == "--title"@ && a[4] == t.doc.front.title);
    assert(a[5] == "--body-file"@ && a[6] == "-"@);
    assert(a[7] == "--head"@ && a[8] == branch);
    let e = Seq::<StepV>::empty();
    effects::lemma_few();
    effects::lemma_push(e, start::branch_push(c, branch));
    assert(seq![start::branch_push(c, branch)] =~= e.push(start::branch_push(c, branch)));
    assert(effects::git_calls(seq![start::branch_push(c, branch)]) =~= seq![
        GitCallV { dir: c.repo.workdir, args: seq!["push"@, "-u"@, "origin"@, branch] },
    ]);
    crate::commands::start_laws::law_an_opened_pull_request_is_recorded(
        t,
        number,
        st,
        t.doc.front,
    );
}

// ---------------------------------------------------------------------------
// Links by hand
// ---------------------------------------------------------------------------

/// A link is written into the document of the resolved task, and nothing else of it
/// changes but the time. An issue that is linked to another task is refused.
pub proof fn law_a_link_is_written(c: CtxV, number: u64, now: Seq<char>, t: TaskRefV)
    requires
        resolve::resolved(c, None) is Ok,
        (resolve::resolved(c, None)->Ok_0).0 == t,
    ensures
        ({
            let o = sync_cmd::pr_attached(c, number, now);
            item_laws::writes(
                o,
                t,
                TaskDocV {
                    front: FrontmatterV {
                        github_pr: Some(number),
                        updated_at: now,
                        ..t.doc.front
                    },
                    body: t.doc.body,
                },
            )
        }),
        ({
            let o = sync_cmd::issue_attached(c, number, now);
            match store::with_issue_from(store::all_tasks(c.store), number, 0) {
                Some(other) => if other.id != t.id {
                    o.error is Some && o.steps.len() == 0
                } else {
                    issue_is_linked(o, t, number, now)
                },
                None => issue_is_linked(o, t, number, now),
            }
        }),
{
}

/// The document of a task is written with an issue.
pub open spec fn issue_is_linked(o: OutcomeV, t: TaskRefV, number: u64, now: Seq<char>) -> bool {
    item_laws::writes(
        o,
        t,
        TaskDocV {
            front: FrontmatterV { github_issue: Some(number), updated_at: now, ..t.doc.front },
            body: t.doc.body,
        },
    )
}

/// The task that is found by the number of an issue is linked to it, and one is found
/// wherever there is one.
pub proof fn law_a_linked_task_is_found_by_its_issue(ts: Seq<TaskRefV>, number: u64, i: int)
    requires
        0 <= i,
    ensures
        match store::with_issue_from(ts, number, i) {
            Some(t) => t.doc.front.github_issue == Some(number) && ts.contains(t),
            None => forall|k: int|
                i <= k < ts.len() ==> (#[trigger] ts[k]).doc.front.github_issue != Some(number),
        },
    decreases ts.len() - i,
{
    if i < ts.len() {
        if ts[i].doc.front.github_issue == Some(number) {
            assert(ts.contains(ts[i]));
        } else {
            law_a_linked_task_is_found_by_its_issue(ts, number, i + 1);
        }
    }
}

/// An issue is recognized by the id in its block before its number: one that was copied
/// to another number is still the same task.
pub proof fn law_an_issue_is_known_by_its_marker_first(s: StoreV, ri: RemoteIssueV)
    ensures
        sync_cmd::known_as(s, ri) matches Some(t) ==> t.doc.front.github_issue == Some(ri.number)
            || (managed::managed_of(ri.body) matches Some((id, _, _)) && t.id == id),
        managed::managed_of(ri.body) matches Some((id, _, _)) ==> (store::with_id_from(
            store::all_tasks(s),
            id,
            0,
        ) is Some ==> sync_cmd::known_as(s, ri) == store::with_id_from(
            store::all_tasks(s),
            id,
            0,
        )),
        sync_cmd::known_as(s, ri) is None ==> forall|k: int|
            0 <= k < store::all_tasks(s).len() ==> (#[trigger] store::all_tasks(
                s,
            )[k]).doc.front.github_issue != Some(ri.number),
{
    let ts = store::all_tasks(s);
    law_a_linked_task_is_found_by_its_issue(ts, ri.number, 0);
    if let Some((id, _, _)) = managed::managed_of(ri.body) {
        write_laws::lemma_with_id(ts, id, 0);
    }
}

// ---------------------------------------------------------------------------
// New tasks
// ---------------------------------------------------------------------------

/// The lines of the body of a new document.
pub open spec fn template_lines(title: Seq<char>) -> Seq<Seq<char>> {
    let e = Seq::<char>::empty();
    seq![
        "## Goal"@,
        e,
        title,
        e,
        "## Tasks"@,
        e,
        "## Validation"@,
        e,
        "## Notes"@,
        e,
        AGENT_LOG_HEADING@,
        e,
        "<!-- append-only -->"@,
    ]
}

/// A line at the end of a text.
proof fn lemma_one_more(a: Seq<char>, b: Seq<char>, ls: Seq<Seq<char>>)
    requires
        facts::settled_line(a),
        text::lines_of(b) == ls,
    ensures
        text::lines_of(a + "\n"@ + b) == seq![a] + ls,
{
    facts::lemma_lines_cons(a, b);
}

/// The lines of the body of a new document.
proof fn lemma_template(title: Seq<char>)
    requires
        facts::settled_line(title),
    ensures
        text::lines_of(doc::template_body(title)) == template_lines(title),
        facts::settled(template_lines(title)),
{
    let e = Seq::<char>::empty();
    facts::lemma_feed();
    reveal_strlit("## Goal\n\n");
    reveal_strlit("\n\n## Tasks\n\n## Validation\n\n## Notes\n\n");
    reveal_strlit("\n\n<!-- append-only -->\n");
    reveal_strlit("## Goal");
    reveal_strlit("## Tasks");
    reveal_strlit("## Validation");
    reveal_strlit("## Notes");
    reveal_strlit("## Agent Log");
    reveal_strlit("<!-- append-only -->");
    let t13 = "<!-- append-only -->"@ + "\n"@ + e;
    let t12 = e + "\n"@ + t13;
    let t11 = AGENT_LOG_HEADING@ + "\n"@ + t12;
    let t10 = e + "\n"@ + t11;
    let t9 = "## Notes"@ + "\n"@ + t10;
    let t8 = e + "\n"@ + t9;
    let t7 = "## Validation"@ + "\n"@ + t8;
    let t6 = e + "\n"@ + t7;
    let t5 = "## Tasks"@ + "\n"@ + t6;
    let t4 = e + "\n"@ + t5;
    let t3 = title + "\n"@ + t4;
    let t2 = e + "\n"@ + t3;
    let t1 = "## Goal"@ + "\n"@ + t2;
    assert(text::lines_of(e) =~= seq![]);
    lemma_one_more("<!-- append-only -->"@, e, seq![]);
    lemma_one_more(e, t13, text::lines_of(t13));
    lemma_one_more(AGENT_LOG_HEADING@, t12, text::lines_of(t12));
    lemma_one_more(e, t11, text::lines_of(t11));
    lemma_one_more("## Notes"@, t10, text::lines_of(t10));
    lemma_one_more(e, t9, text::lines_of(t9));
    lemma_one_more("## Validation"@, t8, text::lines_of(t8));
    lemma_one_more(e, t7, text::lines_of(t7));
    lemma_one_more("## Tasks"@, t6, text::lines_of(t6));
    lemma_one_more(e, t5, text::lines_of(t5));
    lemma_one_more(title, t4, text::lines_of(t4));
    lemma_one_more(e, t3, text::lines_of(t3));
    lemma_one_more("## Goal"@, t2, text::lines_of(t2));
    assert(t1 =~= doc::template_body(title));
    assert(text::lines_of(t1) =~= template_lines(title));
}

/// A title that starts no section and is no item: the body of a new document then has the
/// sections that it should have, and nothing to do.
pub open spec fn plain_title(title: Seq<char>) -> bool {
    &&& facts::settled_line(title)
    &&& facts::snug(title)
    &&& title.len() > 0
    &&& !text::begins(title, "## "@)
    &&& !items::is_item(title)
}

/// A heading, and an empty line, hold no item.
proof fn lemma_heading_is_no_item(line: Seq<char>)
    requires
        line.len() == 0 || line[0] == '#' || line[0] == '<',
    ensures
        !items::is_item(line),
{
    reveal_strlit("- [x]");
    reveal_strlit("- [ ]");
    reveal_strlit("- [X]");
    text::lemma_trimmed_start(line);
    let t = text::trimmed_start(line);
    if line.len() > 0 {
        assert(t == line) by {
            assert(!text::is_white(line[0]));
            if t.len() < line.len() {
                assert(text::is_white(line[0]));
            }
        }
    }
    if items::is_item(line) {
        assert(t.subrange(0, 5)[0] == t[0]);
    }
}

/// Lines without items hold none.
proof fn lemma_no_items(ls: Seq<Seq<char>>)
    requires
        forall|i: int| 0 <= i < ls.len() ==> !items::is_item(#[trigger] ls[i]),
    ensures
        items::items_in(ls).len() == 0,
    decreases ls.len(),
{
    if ls.len() > 0 {
        let d = ls.drop_last();
        assert forall|i: int| 0 <= i < d.len() implies !items::is_item(#[trigger] d[i]) by {
            assert(d[i] == ls[i]);
        }
        lemma_no_items(d);
        assert(!items::is_item(ls[ls.len() - 1]));
    }
}

/// The body of a new document: its goal is the title, it has no items and no log yet.
pub proof fn law_a_new_document_has_a_goal_and_nothing_to_do(title: Seq<char>)
    requires
        plain_title(title),
    ensures
        sections::content_of(doc::template_body(title), "## Goal"@) == Some(title),
        sections::content_of(doc::template_body(title), "## Tasks"@) is Some,
        sections::content_of(doc::template_body(title), AGENT_LOG_HEADING@) is Some,
        items::items_of(doc::template_body(title)).len() == 0,
{
    lemma_template(title);
    reveal_strlit("## ");
    reveal_strlit("## Goal");
    reveal_strlit("## Tasks");
    reveal_strlit("## Validation");
    reveal_strlit("## Notes");
    reveal_strlit("## Agent Log");
    reveal_strlit("<!-- append-only -->");
    let ls = template_lines(title);
    let e = Seq::<char>::empty();
    facts::lemma_trimmed_snug("## Goal"@);
    facts::lemma_trimmed_snug("## Tasks"@);
    facts::lemma_trimmed_snug(AGENT_LOG_HEADING@);
    sections::lemma_heading_from(ls, "## Goal"@, 0);
    sections::lemma_heading_from(ls, "## Tasks"@, 0);
    sections::lemma_heading_from(ls, AGENT_LOG_HEADING@, 0);
    assert(text::trimmed(ls[0]) == "## Goal"@);
    assert(text::trimmed(ls[4]) == "## Tasks"@);
    assert(text::trimmed(ls[10]) == AGENT_LOG_HEADING@);
    sections::lemma_next_section(ls, 1);
    assert(ls[4].subrange(0, 3) =~= "## "@);
    assert(text::begins(ls[4], "## "@));
    assert(!text::begins(ls[1], "## "@));
    assert(!text::begins(ls[3], "## "@));
    assert(!text::begins(ls[2], "## "@));
    assert(sections::next_section(ls, 1) == 4) by {
        let n = sections::next_section(ls, 1);
        if n < 4 {
            assert(text::begins(ls[n], "## "@));
            assert(n == 1 || n == 2 || n == 3);
        }
    }
    assert(ls.subrange(1, 4) =~= seq![e] + seq![title] + seq![e]);
    assert(text::joined(seq![title], "\n"@) == title);
    section_laws::lemma_padded_content(seq![title], title, true);
    let blank: Seq<Seq<char>> = seq![seq![]];
    assert(seq![e] =~= blank);
    assert forall|i: int| 0 <= i < ls.len() implies !items::is_item(#[trigger] ls[i]) by {
        if i != 2 {
            lemma_heading_is_no_item(ls[i]);
        }
    }
    lemma_no_items(ls);
}

/// A new task is written to the inbox, under a slug and an id that are its own: with its
/// title, shared where that was asked for, linked to nothing, and with a state that knows
/// only where it is. Where its document would be there already, nothing is done.
pub proof fn law_a_new_task_is_written_to_the_inbox(
    s: StoreV,
    title: Seq<char>,
    shared: bool,
    today: Seq<char>,
    now: Seq<char>,
    st: TaskStateV,
)
    ensures
        ({
            let o = local::new_outcome(s, title, shared, today, now);
            let slug = local::new_slug(s, title);
            let id = "task-"@ + today + "-"@ + slug;
            let path = paths::joined_path(paths::joined_path(s.root, "inbox"@), slug + ".md"@);
            if store::file_from(s.files, path, 0) is Some {
                o.error is Some && o.steps.len() == 0
            } else {
                &&& o.error is None
                &&& exists|d: TaskDocV|
                    {
                        &&& o.steps[0] == (StepV::Write {
                            path,
                            text: #[trigger] doc::serialized(d),
                        })
                        &&& d.front.id == id
                        &&& d.front.title == title
                        &&& d.front.status == "inbox"@
                        &&& d.front.created_at == now && d.front.updated_at == now
                        &&& d.front.shared == shared
                        &&& d.front.branch is None
                        &&& d.front.github_issue is None && d.front.github_pr is None
                        &&& d.body == doc::template_body(title)
                    }
                &&& effects::state_after(o.steps, id, st) == (TaskStateV {
                    path: "inbox/"@ + slug + ".md"@,
                    ..state::no_state()
                })
                &&& effects::printed(o.steps) == seq![id, path]
            }
        }),
        !store::slugs_of(store::all_tasks(s)).contains(local::new_slug(s, title)),
{
    store_laws::law_new_slug_is_free(store::slugs_of(store::all_tasks(s)), util::slug_of(title));
    let o = local::new_outcome(s, title, shared, today, now);
    if o.error is None {
        let id = local::new_id(s, title, today);
        let x = o.steps;
        let e = Seq::<StepV>::empty();
        effects::lemma_few();
        effects::lemma_push(e, x[0]);
        effects::lemma_push(e.push(x[0]), x[1]);
        effects::lemma_push(e.push(x[0]).push(x[1]), x[2]);
        effects::lemma_push(e.push(x[0]).push(x[1]).push(x[2]), x[3]);
        assert(x =~= e.push(x[0]).push(x[1]).push(x[2]).push(x[3]));
        let p = StateEditV::Path(sync_cmd::inbox_rel(local::new_slug(s, title)));
        effects::lemma_edits(st, StateEditV::Fresh, p, p);
        let d = doc::new_doc(id, title, "inbox"@, now, shared);
        assert(x[0] == (StepV::Write { path: local::new_path(s, title), text: doc::serialized(d) }));
        assert(effects::printed(x) =~= seq![id, local::new_path(s, title)]);
    }
}

/// An issue that is not known is imported into the inbox: with its title and its number,
/// shared, under the id that its block carries, and with what it says. The hash of what it
/// shows is recorded.
pub proof fn law_an_imported_issue_says_what_the_issue_says(
    s: StoreV,
    ri: RemoteIssueV,
    today: Seq<char>,
    now: Seq<char>,
    st: TaskStateV,
)
    requires
        plain_title(ri.title),
    ensures
        ({
            let x = sync_cmd::import_steps(s, ri, today, now);
            let d = sync_cmd::import_doc(s, ri, today, now);
            let slug = sync_cmd::import_slug(s, ri);
            let inner = match managed::managed_of(ri.body) {
                Some((_, _, inner)) => inner,
                None => text::trimmed(ri.body),
            };
            &&& x[0] == (StepV::Write {
                path: paths::joined_path(paths::joined_path(s.root, "inbox"@), slug + ".md"@),
                text: doc::serialized(d),
            })
            &&& d.front.github_issue == Some(ri.number)
            &&& d.front.title == ri.title
            &&& d.front.status == "inbox"@
            &&& d.front.shared
            &&& d.front.github_pr is None && d.front.branch is None
            &&& d.front.created_at == now && d.front.updated_at == now
            &&& managed::managed_of(ri.body) matches Some((id, _, _)) ==> d.front.id == id
            &&& managed::managed_of(ri.body) is None ==> d.front.id == "task-"@ + today + "-"@
                + slug
            &&& effects::state_after(x, d.front.id, st) == (TaskStateV {
                path: "inbox/"@ + slug + ".md"@,
                issue_synced_hash: Some(
                    match managed::managed_of(ri.body) {
                        Some((_, block, _)) => sync::hash_of(block),
                        None => sync::hash_of(managed::issue_block(d)),
                    },
                ),
                ..st
            })
            &&& facts::no_crlf(text::trimmed(inner)) && !facts::has_line(
                text::lines_of(text::trimmed(inner)),
                AGENT_LOG_HEADING@,
            ) && inner.len() > 0 ==> sections::shareable(d.body) == text::trimmed(inner)
        }),
        !store::slugs_of(store::all_tasks(s)).contains(sync_cmd::import_slug(s, ri)),
{
    store_laws::law_new_slug_is_free(store::slugs_of(store::all_tasks(s)), util::slug_of(ri.title));
    lemma_template(ri.title);
    let x = sync_cmd::import_steps(s, ri, today, now);
    let d = sync_cmd::import_doc(s, ri, today, now);
    let e = Seq::<StepV>::empty();
    effects::lemma_few();
    effects::lemma_push(e, x[0]);
    effects::lemma_push(e.push(x[0]), x[1]);
    effects::lemma_push(e.push(x[0]).push(x[1]), x[2]);
    assert(x =~= e.push(x[0]).push(x[1]).push(x[2]));
    let p = StateEditV::Path(sync_cmd::inbox_rel(sync_cmd::import_slug(s, ri)));
    let h = StateEditV::IssueHash(Some(sync_cmd::import_hash(s, ri, today, now)));
    effects::lemma_edits(st, p, h, h);
    let inner = sync_cmd::import_inner(ri);
    if facts::no_crlf(text::trimmed(inner)) && !facts::has_line(
        text::lines_of(text::trimmed(inner)),
        AGENT_LOG_HEADING@,
    ) {
        log_laws::law_pull_keeps_the_log(inner, doc::template_body(ri.title));
    }
}

// ---------------------------------------------------------------------------
// What is pushed and pulled
// ---------------------------------------------------------------------------

/// A push is about the resolved task and about every place that it is linked to; a push to
/// one place about that place alone. A task without a link is refused.
pub proof fn law_a_push_is_about_the_links_of_the_task(
    c: CtxV,
    s: StoreV,
    t: TaskRefV,
    now: Seq<char>,
)
    requires
        meant_laws::all_have_ids(t.doc.body),
    ensures
        ({
            let p = sync_cmd::push_target(s, t, now);
            let linked = t.doc.front.github_issue is Some || t.doc.front.github_pr is Some;
            &&& linked ==> p.task == Ok::<TaskRefV, Seq<char>>(t) && p.steps.len() == 0
                && p.surfaces == syncing::surfaces_of(t)
            &&& !linked ==> p.task is Err && p.steps.len() == 0 && p.surfaces.len() == 0
        }),
        match t.doc.front.github_issue {
            Some(n) => sync_cmd::issue_push(s, t, now).surfaces == seq![Surface::Issue(n)]
                && sync_cmd::issue_push(s, t, now).task == Ok::<TaskRefV, Seq<char>>(t),
            None => sync_cmd::issue_push(s, t, now).surfaces.len() == 0 && sync_cmd::issue_push(
                s,
                t,
                now,
            ).task is Err,
        },
        match t.doc.front.github_pr {
            Some(n) => sync_cmd::pr_push(s, t, now).surfaces.len() == 1 && sync_cmd::pr_push(
                s,
                t,
                now,
            ).surfaces[0].at() == n && sync_cmd::pr_push(s, t, now).surfaces[0] !is Issue
                && sync_cmd::pr_push(s, t, now).task == Ok::<TaskRefV, Seq<char>>(t),
            None => sync_cmd::pr_push(s, t, now).surfaces.len() == 0 && sync_cmd::pr_push(
                s,
                t,
                now,
            ).task is Err,
        },
        resolve::resolved(c, None) matches Ok((x, _)) ==> (x == t && c.store == s
            ==> sync_cmd::push_of(c, now) == sync_cmd::push_target(s, t, now)),
        resolve::resolved(c, None) is Err ==> sync_cmd::push_of(c, now).task is Err
            && sync_cmd::push_of(c, now).surfaces.len() == 0,
{
    meant_laws::lemma_none_untagged(items::items_of(t.doc.body));
}

/// A pull is about the issue of the resolved task, and tells whether anything came of it.
pub proof fn law_a_pull_tells_whether_anything_changed(
    c: CtxV,
    s: StoreV,
    t: TaskRefV,
    remote: Seq<char>,
    now: Seq<char>,
)
    ensures
        sync_cmd::pull_target_of(c) matches Ok((x, n)) ==> x.doc.front.github_issue == Some(n)
            && resolve::resolved(c, None) is Ok && (resolve::resolved(c, None)->Ok_0).0 == x,
        resolve::resolved(c, None) matches Ok((x, _)) ==> (x.doc.front.github_issue is Some
            ==> sync_cmd::pull_target_of(c) is Ok),
        ({
            let p = syncing::pulled(s, t, remote, true, now);
            let o = sync_cmd::pull_told(s, t, remote, now);
            &&& o.result == p.result && o.store == p.store
            &&& p.result is Err ==> o.steps == p.steps
            &&& p.result == Ok::<bool, SyncErrorV>(true) ==> o.steps == p.steps.push(
                StepV::Say("pull: "@ + "updated from remote"@),
            )
            &&& p.result == Ok::<bool, SyncErrorV>(false) ==> o.steps == p.steps.push(
                StepV::Say("pull: "@ + "up to date"@),
            )
        }),
{
}

/// What is read and what is rewritten is the same place: the issue or the pull request of
/// that number, and a pull request that is left alone is neither.
pub proof fn law_what_is_read_is_what_is_rewritten(n: u64, body: Seq<char>)
    ensures
        ({
            let view = |on: Surface| on.viewed_by()->0.args;
            let edit = |on: Surface| syncing::edit_call(on, body).args;
            let i = Surface::Issue(n);
            let p = Surface::Pr(n);
            &&& i.viewed_by() is Some && p.viewed_by() is Some
            &&& view(i)[0] == "issue"@ && edit(i)[0] == "issue"@
            &&& view(p)[0] == "pr"@ && edit(p)[0] == "pr"@
            &&& view(i)[1] == "view"@ && edit(i)[1] == "edit"@
            &&& view(p)[1] == "view"@ && edit(p)[1] == "edit"@
            &&& view(i)[2] == text::decimal(n as nat) && edit(i)[2] == text::decimal(n as nat)
            &&& view(p)[2] == text::decimal(n as nat) && edit(p)[2] == text::decimal(n as nat)
            &&& Surface::Unmanaged(n).viewed_by() is None
            &&& syncing::edit_call(i, body).stdin == Some(body)
            &&& syncing::edit_call(p, body).stdin == Some(body)
        }),
{
}

/// A pull request needs a commit: one is refused where its branch has none that the target
/// lacks, and the refusal names both; a branch that is the target itself, or whose target
/// is not known, is left to GitHub.
pub proof fn law_a_pull_request_needs_a_commit(branch: Seq<char>, base: Seq<char>, ahead: u64)
    ensures
        branch != base ==> (start::lacks_commits(branch, Some(base), ahead) is Some <==> ahead
            == 0),
        start::lacks_commits(branch, Some(base), ahead) matches Some(m) ==> text::has(m, branch)
            && text::has(m, base),
        start::lacks_commits(branch, Some(branch), ahead) is None,
        start::lacks_commits(branch, None, ahead) is None,
{
    let m = start::empty_message(branch, base);
    let a = "no commits on '"@;
    let b = "' yet — nothing to open a PR against '"@;
    let k = a.len() as int;
    assert(m.subrange(k, k + branch.len()) =~= branch);
    facts::lemma_occurs_has(m, branch, k);
    let j = k + branch.len() + b.len();
    assert(m.subrange(j, j + base.len()) =~= base);
    facts::lemma_occurs_has(m, base, j);
}

/// A pull of the inbox takes one issue after the other: one that is known is pulled into its
/// task and counted where that changed, one that is not known is imported and counted; what
/// fails ends it. The two counts are told apart at the end.
pub proof fn law_the_inbox_is_pulled_issue_by_issue(
    s: StoreV,
    issues: Seq<RemoteIssueV>,
    ri: RemoteIssueV,
    today: Seq<char>,
    now: Seq<char>,
)
    ensures
        ({
            let before = sync_cmd::inbox_run(s, issues, today, now);
            let after = sync_cmd::inbox_run(s, issues.push(ri), today, now);
            let known = sync_cmd::known_as(before.store, ri);
            &&& before.error is Some ==> after == before
            &&& before.error is None && known is None ==> {
                &&& after.imported == before.imported + 1 && after.updated == before.updated
                &&& after.error is None
                &&& after.steps == before.steps + sync_cmd::import_steps(
                    before.store,
                    ri,
                    today,
                    now,
                )
            }
            &&& before.error is None && known is Some ==> {
                let p = syncing::pulled(before.store, known->0, ri.body, false, now);
                &&& after.imported == before.imported
                &&& after.steps == before.steps + p.steps
                &&& p.result == Ok::<bool, SyncErrorV>(true) ==> after.updated == before.updated + 1
                &&& p.result == Ok::<bool, SyncErrorV>(false) ==> after.updated == before.updated
                &&& p.result is Err <==> after.error is Some
            }
        }),
        ({
            let run = sync_cmd::inbox_run(s, issues, today, now);
            let told = sync_cmd::inbox_told(s, issues, today, now);
            &&& told.error == run.error && told.store == run.store
            &&& run.error is None ==> told.steps == run.steps.push(
                StepV::Say(
                    "pull-inbox: "@ + text::decimal(run.imported) + " imported, "@ + text::decimal(
                        run.updated,
                    ) + " updated"@,
                ),
            )
        }),
{
    reveal(sync_cmd::inbox_step);
    assert(issues.push(ri).drop_last() =~= issues);
}

/// The titles of boards are those of the rows that have one, in order, and the body of a
/// reply is what it holds.
pub proof fn law_titles_are_read_in_order(rows: Seq<Json>, j: Json)
    ensures
        gh::titles_in(rows.push(j)) == (match json::member_text(j, "title"@) {
            Some(t) => gh::titles_in(rows).push(t),
            None => gh::titles_in(rows),
        }),
        gh::titles_in(Seq::<Json>::empty()).len() == 0,
        json::member_text(j, "body"@) matches Some(b) ==> gh::body_of(j) == b,
        json::member_text(j, "body"@) is None ==> gh::body_of(j).len() == 0,
{
    assert(rows.push(j).drop_last() =~= rows);
}

} // verus!
