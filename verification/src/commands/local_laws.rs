//! Laws of the commands that stay in the store: what they list, what they print, and what
//! they put right.
use crate::commands::items;
use crate::commands::local::{self, SKILL_MD};
use crate::commands::plan::{StateEditV, StepV};
use crate::commands::storing;
use crate::ctx::CtxV;
use crate::facts;
use crate::gitx::{GitCallV, RepoV};
use crate::paths;
use crate::projects;
use crate::resolve;
use crate::state;
use crate::store::{self, Status, StoreV, TaskRefV};
use crate::task::doc::{self, FrontmatterV, TaskDocV};
use crate::task::items::ItemV;
use crate::text;
use vstd::prelude::*;
use vstd::string::*;

verus! {

// ---------------------------------------------------------------------------
// Lists
// ---------------------------------------------------------------------------

/// A text that is filled up starts with itself.
proof fn lemma_padded(s: Seq<char>, width: nat)
    ensures
        text::padded(s, width).len() >= s.len(),
        text::padded(s, width).len() >= width,
        text::padded(s, width).take(s.len() as int) == s,
        forall|i: int|
            s.len() <= i < text::padded(s, width).len() ==> #[trigger] text::padded(s, width)[i]
                == ' ',
    decreases width - s.len(),
{
    if s.len() < width {
        lemma_padded(s.push(' '), width);
        let p = text::padded(s, width);
        let q = s.push(' ');
        assert(p.take(q.len() as int) == q);
        assert(p.take(s.len() as int) =~= s) by {
            assert forall|i: int| 0 <= i < s.len() implies p[i] == s[i] by {
                assert(p.take(q.len() as int)[i] == q[i]);
            }
        }
        assert(p[s.len() as int] == ' ') by {
            assert(p.take(q.len() as int)[s.len() as int] == q[s.len() as int]);
        }
    } else {
        assert(s.take(s.len() as int) =~= s);
    }
}

/// A line of the listing shows the status, the slug, the id and the title of its task, in
/// that order, each behind the one before and a space.
pub proof fn law_a_listed_task_shows_what_it_is(t: TaskRefV)
    ensures
        ({
            let l = local::list_line(t);
            exists|a: Seq<char>, b: Seq<char>, c: Seq<char>|
                {
                    &&& #[trigger] (t.status.name() + a + t.slug + b + t.id + c + t.doc.front.title)
                        == l
                    &&& facts::all_white(a) && facts::all_white(b) && facts::all_white(c)
                    &&& a.len() > 0 && b.len() > 0 && c.len() > 0
                }
        }),
{
    reveal_strlit(" ");
    let x = text::padded(t.status.name(), 9);
    let y = text::padded(t.slug, 28);
    let z = text::padded(t.id, 40);
    lemma_padded(t.status.name(), 9);
    lemma_padded(t.slug, 28);
    lemma_padded(t.id, 40);
    let a = x.skip(t.status.name().len() as int) + " "@;
    let b = y.skip(t.slug.len() as int) + " "@;
    let c = z.skip(t.id.len() as int) + " "@;
    assert(x =~= x.take(t.status.name().len() as int) + x.skip(t.status.name().len() as int));
    assert(y =~= y.take(t.slug.len() as int) + y.skip(t.slug.len() as int));
    assert(z =~= z.take(t.id.len() as int) + z.skip(t.id.len() as int));
    assert(t.status.name() + a + t.slug + b + t.id + c + t.doc.front.title =~= local::list_line(t));
}

/// A status is asked for, or all are.
pub open spec fn asked_for(t: TaskRefV, only: Option<Status>) -> bool {
    only matches Some(s) ==> t.status == s
}

/// How many tasks are asked for.
pub open spec fn count_of(ts: Seq<TaskRefV>, only: Option<Status>) -> nat
    decreases ts.len(),
{
    if ts.len() == 0 {
        0
    } else {
        count_of(ts.drop_last(), only) + if asked_for(ts.last(), only) {
            1nat
        } else {
            0nat
        }
    }
}

/// The listing has one line for each task that is asked for, in their order, and no other.
pub proof fn law_the_listing_has_every_task_that_is_asked_for(
    ts: Seq<TaskRefV>,
    only: Option<Status>,
    k: int,
)
    requires
        0 <= k < ts.len(),
    ensures
        local::listing(ts, only).len() == count_of(ts, only),
        asked_for(ts[k], only) ==> count_of(ts.take(k), only) < count_of(ts, only)
            && local::listing(ts, only)[count_of(ts.take(k), only) as int] == local::list_line(
            ts[k],
        ),
    decreases ts.len(),
{
    let d = ts.drop_last();
    if k < d.len() {
        law_the_listing_has_every_task_that_is_asked_for(d, only, k);
        assert(d.take(k) =~= ts.take(k));
    } else {
        assert(ts.take(k) =~= d);
        if d.len() > 0 {
            law_the_listing_has_every_task_that_is_asked_for(d, only, 0);
        } else {
            assert(local::listing(d, only).len() == 0);
        }
    }
}

/// `list` shows the tasks of the store: all of them, or those of the status that is named.
/// A name that is no status is refused.
pub proof fn law_list_shows_the_status_that_is_named(s: StoreV, only: Status, name: Seq<char>)
    ensures
        local::listed(s, None) == Ok::<Seq<Seq<char>>, Seq<char>>(
            local::listing(store::all_tasks(s), None),
        ),
        name == crate::commands::end_laws::status_name(only) ==> local::listed(s, Some(name))
            == Ok::<Seq<Seq<char>>, Seq<char>>(
            local::listing(store::all_tasks(s), Some(only)),
        ),
        name != "inbox"@ && name != "active"@ && name != "done"@ && name != "canceled"@
            ==> local::listed(s, Some(name)) is Err,
{
    reveal_strlit("inbox");
    reveal_strlit("active");
    reveal_strlit("done");
    reveal_strlit("canceled");
    assert("inbox"@[0] != "active"@[0]);
    assert("done"@[0] != "canceled"@[0]);
    assert("inbox"@.len() != "done"@.len());
    assert("active"@.len() != "done"@.len());
    assert("inbox"@[0] != "canceled"@[0]);
    assert("active"@[0] != "canceled"@[0]);
}

/// The tasks with a status are those of the list that have it, in their order.
pub proof fn law_tasks_are_told_apart_by_their_status(ts: Seq<TaskRefV>, status: Status, k: int)
    requires
        0 <= k < ts.len(),
    ensures
        resolve::with_status(ts, status).len() == count_of(ts, Some(status)),
        ts[k].status == status ==> count_of(ts.take(k), Some(status)) < resolve::with_status(
            ts,
            status,
        ).len() && resolve::with_status(ts, status)[count_of(ts.take(k), Some(status)) as int]
            == ts[k],
    decreases ts.len(),
{
    let d = ts.drop_last();
    if k < d.len() {
        law_tasks_are_told_apart_by_their_status(d, status, k);
        assert(d.take(k) =~= ts.take(k));
    } else {
        assert(ts.take(k) =~= d);
        if d.len() > 0 {
            law_tasks_are_told_apart_by_their_status(d, status, 0);
        } else {
            assert(resolve::with_status(d, status).len() == 0);
        }
    }
}

/// Every task is counted under one status.
pub proof fn law_every_task_is_counted_once(ts: Seq<TaskRefV>)
    ensures
        count_of(ts, Some(Status::Inbox)) + count_of(ts, Some(Status::Active)) + count_of(
            ts,
            Some(Status::Done),
        ) + count_of(ts, Some(Status::Canceled)) == ts.len(),
    decreases ts.len(),
{
    if ts.len() > 0 {
        law_every_task_is_counted_once(ts.drop_last());
    }
}

/// The line that counts the tasks of a status starts with its name and ends with their
/// number.
pub proof fn law_a_count_is_shown_with_its_status(ts: Seq<TaskRefV>, status: Status)
    requires
        ts.len() > 0,
    ensures
        ({
            let l = local::count_line(ts, status);
            exists|a: Seq<char>|
                facts::all_white(a) && a.len() > 0 && #[trigger] (status.name() + a
                    + text::decimal(count_of(ts, Some(status)))) == l
        }),
{
    reveal_strlit(" ");
    law_tasks_are_told_apart_by_their_status(ts, status, 0);
    let x = text::padded(status.name(), 9);
    lemma_padded(status.name(), 9);
    let a = x.skip(status.name().len() as int) + " "@;
    assert(x =~= x.take(status.name().len() as int) + x.skip(status.name().len() as int));
    assert(status.name() + a + text::decimal(count_of(ts, Some(status))) =~= local::count_line(
        ts,
        status,
    ));
}

/// Each active task has a line of its own, in order, with its slug and with the branch and
/// the worktree that its state records.
pub proof fn law_active_tasks_show_where_they_are(s: StoreV, ts: Seq<TaskRefV>, k: int)
    requires
        0 <= k < ts.len(),
    ensures
        ({
            let st = state::state_from(s.states, ts[k].id, 0);
            let branch = match st.branch {
                Some(b) => b,
                None => "-"@,
            };
            let worktree = match st.worktree {
                Some(w) => w,
                None => "-"@,
            };
            &&& local::active_lines(s, ts).len() == ts.len()
            &&& local::active_lines(s, ts)[k] == "active: "@ + ts[k].slug + " branch="@ + branch
                + " worktree="@ + worktree
        }),
    decreases ts.len(),
{
    let d = ts.drop_last();
    if k < d.len() {
        law_active_tasks_show_where_they_are(s, d, k);
    } else if d.len() > 0 {
        law_active_tasks_show_where_they_are(s, d, 0);
    } else {
        assert(local::active_lines(s, d).len() == 0);
    }
}

/// Each item has a line of its own, in order: an `x` where it is checked and a space where
/// it is not, its id and its text.
#[verifier::spinoff_prover]
#[verifier::rlimit(30)]
pub proof fn law_status_shows_every_item(its: Seq<ItemV>, k: int)
    requires
        0 <= k < its.len(),
    ensures
        ({
            let l = local::item_lines(its)[k];
            let id = match its[k].id {
                Some(x) => x,
                None => "-"@,
            };
            &&& local::item_lines(its).len() == its.len()
            &&& l.len() >= 6
            &&& l[3] == if its[k].checked {
                'x'
            } else {
                ' '
            }
            &&& text::begins(l.skip(6), id)
            &&& text::ends(l, its[k].text)
        }),
    decreases its.len(),
{
    let d = its.drop_last();
    if k < d.len() {
        law_status_shows_every_item(d, k);
    } else {
        if d.len() > 0 {
            law_status_shows_every_item(d, 0);
        } else {
            assert(local::item_lines(d).len() == 0);
        }
        reveal_strlit("  [");
        reveal_strlit("] ");
        reveal_strlit("x");
        reveal_strlit(" ");
        let it = its.last();
        let l = local::item_lines(its)[k];
        let id = local::or_dash(it.id);
        assert(l == local::item_lines(its).last());
        let p = text::padded(id, 3);
        lemma_padded(id, 3);
        assert(l == "  ["@ + (if it.checked {
            "x"@
        } else {
            " "@
        }) + "] "@ + p + " "@ + it.text);
        let n = l.len() - it.text.len();
        assert(l.skip(6) =~= p + " "@ + it.text);
        assert(l.skip(6).subrange(0, id.len() as int) =~= p.take(id.len() as int));
        assert(l.subrange(n, l.len() as int) =~= it.text);
    }
}

// ---------------------------------------------------------------------------
// The to-do list
// ---------------------------------------------------------------------------

/// A line of the to-do list starts with the id of its item and ends with its text. Where
/// all items are listed, their state stands between: failed, checked or open.
pub proof fn law_a_todo_shows_its_item(it: ItemV, all: bool)
    ensures
        ({
            let l = local::todo_line(it, all);
            let id = match it.id {
                Some(x) => x,
                None => "-"@,
            };
            &&& text::begins(l, id)
            &&& text::ends(l, it.text)
            &&& l[id.len() as int] == '\t'
            &&& !all ==> l.len() == id.len() + 1 + it.text.len()
            &&& all ==> l.len() == id.len() + 5 + it.text.len() && l[id.len() as int + 2] == if it.failed {
                '!'
            } else if it.checked {
                'x'
            } else {
                ' '
            }
        }),
{
    reveal_strlit("\t[");
    reveal_strlit("\t");
    reveal_strlit("] ");
    reveal_strlit("!");
    reveal_strlit("x");
    reveal_strlit(" ");
    reveal_strlit("-");
    let l = local::todo_line(it, all);
    let id = local::or_dash(it.id);
    assert(l.subrange(0, id.len() as int) =~= id);
    assert(l.subrange(l.len() - it.text.len(), l.len() as int) =~= it.text);
}

/// Where all items are listed, each has its line, whatever its state.
pub proof fn law_todo_all_lists_every_item(
    its: Seq<ItemV>,
    sections: Seq<Seq<char>>,
    i: int,
    last: Option<Seq<char>>,
    k: int,
)
    requires
        0 <= i <= k < its.len(),
    ensures
        local::todo_from(its, sections, true, i, last).contains(local::todo_line(its[k], true)),
    decreases its.len() - i,
{
    let all = local::todo_from(its, sections, true, i, last);
    let head = if last != Some(sections[i]) && sections[i].len() > 0 {
        seq!["## "@ + sections[i]]
    } else {
        Seq::<Seq<char>>::empty()
    };
    let rest = local::todo_from(its, sections, true, i + 1, Some(sections[i]));
    let line = local::todo_line(its[i], true);
    assert(all =~= head + seq![line] + rest);
    if k == i {
        assert(all[head.len() as int] == line);
    } else {
        law_todo_all_lists_every_item(its, sections, i + 1, Some(sections[i]), k);
        let want = local::todo_line(its[k], true);
        let m = choose|m: int| 0 <= m < rest.len() && rest[m] == want;
        assert(all[head.len() + 1 + m] == want);
    }
}

/// `todo` is about the task that is resolved, `current` names it, or the path of its
/// document.
pub proof fn law_queries_are_about_the_resolved_task(
    c: CtxV,
    flag: Option<Seq<char>>,
    all: bool,
)
    ensures
        resolve::resolved(c, flag) matches Ok((t, _)) ==> local::todo_told(c, flag, all) == Ok::<
            Seq<Seq<char>>,
            Seq<char>,
        >(local::todo_lines(t.doc.body, all)),
        resolve::resolved(c, flag) is Err ==> local::todo_told(c, flag, all) is Err,
        resolve::resolved(c, None) matches Ok((t, _)) ==> local::current_line(c, false) == Ok::<
            Seq<char>,
            Seq<char>,
        >(t.id) && local::current_line(c, true) == Ok::<Seq<char>, Seq<char>>(t.path),
        resolve::resolved(c, None) is Err ==> local::current_line(c, all) is Err,
{
}

// ---------------------------------------------------------------------------
// Opening, using
// ---------------------------------------------------------------------------

/// What is opened is the document of the task that is named.
pub proof fn law_the_document_that_is_named_is_opened(s: StoreV, query: Seq<char>)
    ensures
        match store::found(store::all_tasks(s), query) {
            Ok(t) => local::to_open(s, Some(query)) == Ok::<Option<Seq<char>>, Seq<char>>(
                Some(t.path),
            ),
            Err(_) => local::to_open(s, Some(query)) is Err,
        },
        local::to_open(s, None) is Err <==> store::all_tasks(s).len() == 0,
{
}

/// What was edited by hand is looked up by its path, and only its ids are completed: where
/// none is missing, or nothing is there, nothing is done.
pub proof fn law_an_edit_completes_the_ids(s: StoreV, path: Seq<char>, now: Seq<char>, i: int)
    requires
        0 <= i,
    ensures
        match local::at_path(store::all_tasks(s), path, i) {
            Some(t) => t.path == path && store::all_tasks(s).contains(t),
            None => forall|k: int|
                i <= k < store::all_tasks(s).len() ==> (#[trigger] store::all_tasks(s)[k]).path
                    != path,
        },
        match local::at_path(store::all_tasks(s), path, 0) {
            Some(t) => local::edit_followed(s, path, now).steps == items::assigned(
                s,
                t,
                now,
            ).steps,
            None => local::edit_followed(s, path, now).steps.len() == 0
                && local::edit_followed(s, path, now).error is None,
        },
    decreases store::all_tasks(s).len() - i,
{
    let ts = store::all_tasks(s);
    if i < ts.len() {
        if ts[i].path == path {
            assert(ts.contains(ts[i]));
        } else {
            law_an_edit_completes_the_ids(s, path, now, i + 1);
        }
    }
}

/// `use` names the task where resolution looks for it: in the pointer of a worktree that
/// is bound, and in the file of the store anywhere else; one file is written.
pub proof fn law_use_binds_what_is_resolved(c: CtxV, query: Seq<char>, t: TaskRefV)
    requires
        store::found(store::all_tasks(c.store), query) == Ok::<TaskRefV, Seq<char>>(t),
    ensures
        ({
            let o = local::used(c, query);
            let bound = c.repo.pointer matches Some(p) && text::trimmed(p).len() > 0;
            &&& o.error is None
            &&& o.steps.len() == 2
            &&& o.steps[0] == (StepV::Write {
                path: if bound {
                    paths::joined_path(c.repo.git_dir, "rein-task"@)
                } else {
                    paths::joined_path(c.store.root, "current"@)
                },
                text: t.id + "\n"@,
            })
            &&& o.steps[1] is Say
        }),
{
}

// ---------------------------------------------------------------------------
// Setting up
// ---------------------------------------------------------------------------

/// A store is registered under its key in the configuration of the repository where that
/// is new, and only there; the skill is written for both kinds of runners where that is
/// asked for, and the same one.
pub proof fn law_init_registers_what_is_new(
    s: StoreV,
    repo: RepoV,
    remote: Option<Seq<char>>,
    key: Seq<char>,
    created: bool,
    skill: bool,
    agent: Seq<char>,
)
    ensures
        ({
            let x = local::initialized(s, repo, remote, key, created, skill, agent);
            let own = paths::joined_path(
                repo.workdir,
                "."@ + agent + "/skills/run-rein-task/SKILL.md"@,
            );
            let other = paths::joined_path(repo.workdir, ".agents/skills/run-rein-task/SKILL.md"@);
            &&& created ==> x[0] == (StepV::Git {
                call: GitCallV { dir: repo.workdir, args: seq!["config"@, "rein.store"@, key] },
                context: None,
            })
            &&& forall|i: int| 0 < i < x.len() ==> !(#[trigger] x[i] is Git)
            &&& !created ==> !(x[0] is Git)
            &&& skill ==> x.contains(StepV::Write { path: own, text: SKILL_MD@ }) && x.contains(
                StepV::Write { path: other, text: SKILL_MD@ },
            )
            &&& !skill ==> forall|i: int| 0 <= i < x.len() ==> !(#[trigger] x[i] is Write)
            &&& forall|i: int|
                0 <= i < 6 ==> x.contains(
                    StepV::MakeDir(#[trigger] projects::layout_of(s.root)[i]),
                )
        }),
{
    let x = local::initialized(s, repo, remote, key, created, skill, agent);
    let head = if created {
        seq![
            StepV::Git {
                call: GitCallV { dir: repo.workdir, args: seq!["config"@, "rein.store"@, key] },
                context: None,
            },
        ]
    } else {
        Seq::<StepV>::empty()
    };
    let layout = storing::layout_steps(s.root, repo.common_dir, remote);
    let dirs = projects::layout_of(s.root);
    lemma_dir_steps(dirs);
    assert(layout.len() == 7);
    let said = if created {
        seq![StepV::Say("registered store key in git config rein.store ("@ + key + ")"@)]
    } else {
        Seq::<StepV>::empty()
    };
    let n = (head.len() + 7 + said.len() + 1) as int;
    assert(x.take(head.len() as int) =~= head);
    assert(x.subrange(head.len() as int, head.len() as int + 7) =~= layout);
    assert forall|i: int| head.len() <= i < head.len() + 7 implies #[trigger] x[i] == layout[i
        - head.len()] by {
        assert(x.subrange(head.len() as int, head.len() as int + 7)[i - head.len()] == x[i]);
    }
    assert forall|i: int| head.len() + 7 <= i < n implies (#[trigger] x[i]) is Say by {}
    assert forall|i: int| 0 <= i < 6 implies x.contains(StepV::MakeDir(#[trigger] dirs[i])) by {
        assert(x[head.len() + i] == layout[i]);
    }
    if skill {
        assert(x.len() == n + 4);
        assert(x[n] is Write && x[n + 2] is Write);
        assert(x[n + 1] is Say && x[n + 3] is Say);
    } else {
        assert(x.len() == n);
    }
    assert forall|i: int| 0 < i < x.len() implies !(#[trigger] x[i] is Git) by {
        if i < head.len() + 7 {
            assert(x[i] == layout[i - head.len()]);
        } else if i >= n {
            assert(i == n || i == n + 1 || i == n + 2 || i == n + 3);
        }
    }
    assert(!created ==> x[0] == layout[0]);
    if !skill {
        assert forall|i: int| 0 <= i < x.len() implies !(#[trigger] x[i] is Write) by {
            if head.len() <= i < head.len() + 7 {
                assert(x[i] == layout[i - head.len()]);
            }
        }
    }
}

/// One step for each directory, in order.
proof fn lemma_dir_steps(dirs: Seq<Seq<char>>)
    ensures
        storing::dir_steps(dirs).len() == dirs.len(),
        forall|i: int|
            0 <= i < dirs.len() ==> #[trigger] storing::dir_steps(dirs)[i] == StepV::MakeDir(
                dirs[i],
            ),
    decreases dirs.len(),
{
    if dirs.len() > 0 {
        lemma_dir_steps(dirs.drop_last());
    }
}

/// The configuration of an agent is where its own variable says; else at home, under its
/// name; else nowhere. A skill that is there is left as it is.
pub proof fn law_a_skill_is_installed_where_the_agent_looks(
    config: Option<Seq<char>>,
    home: Option<Seq<char>>,
    agent: Seq<char>,
    exists: bool,
)
    ensures
        ({
            let rest = "skills/run-rein-task/SKILL.md"@;
            let p = local::user_skill(config, home, agent);
            &&& config matches Some(d) ==> (d.len() > 0 ==> p == Some(paths::joined_path(d, rest)))
            &&& (config is None || config->0.len() == 0) ==> (home matches Some(h) ==> (h.len() > 0
                ==> p == Some(
                paths::joined_path(paths::joined_path(h, "."@ + agent), rest),
            )))
            &&& (config is None || config->0.len() == 0) && (home is None || home->0.len() == 0)
                ==> p is None
            &&& exists || p is None ==> local::skill_steps(p, exists).len() == 0
            &&& !exists && p is Some ==> local::skill_steps(p, exists)[0] == (StepV::Write {
                path: p->0,
                text: SKILL_MD@,
            })
        }),
{
}

// ---------------------------------------------------------------------------
// The doctor
// ---------------------------------------------------------------------------

/// A document whose status is not that of its directory is written with it, and is
/// otherwise as it was; any other is left alone.
pub proof fn law_the_directory_tells_the_status(c: local::CareV, t: TaskRefV, now: Seq<char>)
    ensures
        t.doc.front.status == t.status.name() ==> local::status_cared(c, t, now) == c,
        t.doc.front.status != t.status.name() ==> local::status_cared(c, t, now).steps.contains(
            StepV::Write {
                path: t.path,
                text: doc::serialized(
                    TaskDocV {
                        front: FrontmatterV {
                            status: t.status.name(),
                            updated_at: now,
                            ..t.doc.front
                        },
                        body: t.doc.body,
                    },
                ),
            },
        ),
{
    if t.doc.front.status != t.status.name() {
        let x = local::status_cared(c, t, now).steps;
        assert(x[c.steps.len() as int] is Write);
    }
}

/// The place of every task is recorded: the path of its document, below the store.
pub proof fn law_the_doctor_records_where_a_task_is(c: local::CareV, t: TaskRefV, now: Seq<char>)
    ensures
        ({
            let r = local::ids_cared(c, t, now);
            r.error is None ==> r.steps.len() > 0 && r.steps.last() == (StepV::EditState {
                id: t.id,
                edits: seq![StateEditV::Path(paths::relative_to(t.path, c.store.root))],
            })
        }),
{
}

/// The state of a task that is gone is removed, and that of no other.
pub proof fn law_only_orphan_state_is_removed(
    root: Seq<char>,
    stems: Seq<Seq<char>>,
    seen: Seq<Seq<char>>,
    p: Seq<char>,
)
    ensures
        local::orphan_steps(root, stems, seen).contains(StepV::Remove(p)) <==> exists|k: int|
            0 <= k < stems.len() && !seen.contains(#[trigger] stems[k]) && p
                == state::state_path_of(root, stems[k]),
    decreases stems.len(),
{
    let x = local::orphan_steps(root, stems, seen);
    if stems.len() == 0 {
        assert(x =~= Seq::<StepV>::empty());
    } else {
        let d = stems.drop_last();
        let before = local::orphan_steps(root, d, seen);
        law_only_orphan_state_is_removed(root, d, seen, p);
        let r = StepV::Remove(p);
        if before.contains(r) {
            let m = choose|m: int| 0 <= m < before.len() && before[m] == r;
            assert(x[m] == r);
            let k = choose|k: int|
                0 <= k < d.len() && !seen.contains(#[trigger] d[k]) && p == state::state_path_of(
                    root,
                    d[k],
                );
            assert(stems[k] == d[k]);
        }
        let last = stems.len() - 1;
        if !seen.contains(stems[last]) && p == state::state_path_of(root, stems[last]) {
            assert(x[before.len() as int] == r);
        }
        if x.contains(r) && !before.contains(r) {
            let m = choose|m: int| 0 <= m < x.len() && x[m] == r;
            if m < before.len() {
                assert(before[m] == r);
            }
            assert(!seen.contains(stems[last]));
        }
        if exists|k: int|
            0 <= k < stems.len() && !seen.contains(#[trigger] stems[k]) && p
                == state::state_path_of(root, stems[k]) {
            let k = choose|k: int|
                0 <= k < stems.len() && !seen.contains(#[trigger] stems[k]) && p
                    == state::state_path_of(root, stems[k]);
            if k < last {
                assert(d[k] == stems[k]);
            }
        }
    }
}

/// The file of the current task is removed where it names a task that is gone, and only
/// then.
pub proof fn law_a_current_task_that_is_there_stays(s: StoreV, ts: Seq<TaskRefV>)
    ensures
        ({
            let x = local::stale_steps(s, local::task_ids(ts));
            match store::current_of(s) {
                Some(id) => if exists|k: int| 0 <= k < ts.len() && (#[trigger] ts[k]).id == id {
                    x.len() == 0
                } else {
                    x.contains(StepV::RemoveIfThere(paths::joined_path(s.root, "current"@)))
                },
                None => x.len() == 0,
            }
        }),
{
    let ids = local::task_ids(ts);
    let x = local::stale_steps(s, ids);
    if let Some(id) = store::current_of(s) {
        if exists|k: int| 0 <= k < ts.len() && (#[trigger] ts[k]).id == id {
            let k = choose|k: int| 0 <= k < ts.len() && (#[trigger] ts[k]).id == id;
            assert(ids[k] == id);
        } else {
            assert(!ids.contains(id)) by {
                if ids.contains(id) {
                    let k = choose|k: int| 0 <= k < ids.len() && ids[k] == id;
                    assert(ts[k].id == id);
                }
            }
            assert(x[0] == StepV::RemoveIfThere(paths::joined_path(s.root, "current"@)));
        }
    }
}

} // verus!
