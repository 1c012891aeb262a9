//! Laws of what the dashboard shows: every row says what it stands for, and only the row
//! under the cursor is marked.
use crate::commands::run::{self, Agent};
use crate::paths;
use crate::projects::StoreInfoV;
use crate::state::{self, TaskStateV};
use crate::store;
use crate::task::items::ItemV;
use crate::text;
use crate::ui::app::{self, AppV};
use crate::ui::input;
use crate::ui::keys::{ForceSurface, KeyCode};
use crate::ui::loading::{self, LocalRunV, SessionV};
use crate::ui::markdown;
use crate::ui::panes;
use crate::ui::row::{self, TaskRowV};
use crate::ui::screen;
use crate::ui::style::{Color, SpanV};
use crate::ui::work;
use crate::write_laws;
use vstd::prelude::*;
use vstd::string::*;

verus! {

/// What a line says.
pub open spec fn said(spans: Seq<SpanV>) -> Seq<char>
    decreases spans.len(),
{
    if spans.len() == 0 {
        seq![]
    } else {
        said(spans.drop_last()) + spans.last().text
    }
}

/// What one more span says.
proof fn lemma_said(spans: Seq<SpanV>, x: SpanV)
    ensures
        said(spans.push(x)) == said(spans) + x.text,
        said(Seq::<SpanV>::empty()) == Seq::<char>::empty(),
{
    assert(spans.push(x).drop_last() =~= spans);
}

/// What two runs of spans say.
proof fn lemma_said_concat(a: Seq<SpanV>, b: Seq<SpanV>)
    ensures
        said(a + b) == said(a) + said(b),
    decreases b.len(),
{
    if b.len() == 0 {
        assert(a + b =~= a);
        assert(said(a) + said(b) =~= said(a));
    } else {
        lemma_said_concat(a, b.drop_last());
        assert((a + b).drop_last() =~= a + b.drop_last());
        assert(said(a + b) =~= said(a) + said(b));
    }
}

/// What up to three spans say.
proof fn lemma_said_few(a: SpanV, b: SpanV, c: SpanV)
    ensures
        said(seq![a]) == a.text,
        said(seq![a, b]) == a.text + b.text,
        said(seq![a, b, c]) == a.text + b.text + c.text,
{
    let e = Seq::<SpanV>::empty();
    lemma_said(e, a);
    lemma_said(e.push(a), b);
    lemma_said(e.push(a).push(b), c);
    assert(seq![a] =~= e.push(a));
    assert(seq![a, b] =~= e.push(a).push(b));
    assert(seq![a, b, c] =~= e.push(a).push(b).push(c));
    assert(Seq::<char>::empty() + a.text =~= a.text);
}

// ---------------------------------------------------------------------------
// The list of tasks
// ---------------------------------------------------------------------------

/// The row of a task says its status, its project where all are shown, its slug and its
/// title, with a dot behind it while it runs.
pub proof fn law_a_row_says_what_the_task_is(t: TaskRowV, on: bool, scoped: bool)
    ensures
        said(panes::task_row(t, on, scoped).spans) == (if on {
            "▶ "@
        } else {
            "  "@
        }) + ("["@ + t.status.name() + "] "@) + (if !scoped && t.project.len() > 0 {
            t.project + " "@
        } else {
            Seq::<char>::empty()
        }) + (t.slug + " — "@ + t.title) + (if row::is_live(t.run_state) {
            " ●"@
        } else {
            Seq::<char>::empty()
        }),
{
    let x = panes::task_row(t, on, scoped).spans;
    let a = x.take(2);
    let tag = panes::project_tag(t, scoped);
    let b = seq![x[2 + tag.len() as int]];
    let dot = panes::live_dot(t);
    let head = seq![x[0], x[1]];
    assert(a =~= head);
    assert(x =~= head + tag + b + dot);
    lemma_said_few(x[0], x[1], x[1]);
    lemma_said_few(x[2 + tag.len() as int], x[0], x[0]);
    lemma_said_concat(head, tag);
    lemma_said_concat(head + tag, b);
    lemma_said_concat(head + tag + b, dot);
    lemma_said_concat(Seq::<SpanV>::empty(), Seq::<SpanV>::empty());
    if tag.len() > 0 {
        lemma_said_few(tag[0], tag[0], tag[0]);
        assert(tag =~= seq![tag[0]]);
    } else {
        assert(tag =~= Seq::<SpanV>::empty());
    }
    if dot.len() > 0 {
        lemma_said_few(dot[0], dot[0], dot[0]);
        assert(dot =~= seq![dot[0]]);
    } else {
        assert(dot =~= Seq::<SpanV>::empty());
    }
}

/// The list of tasks has one row for each task that is shown, in their order; the one that
/// the keys act on is marked, and no other.
pub proof fn law_the_marked_row_is_the_selected_one(a: AppV, i: int)
    requires
        !a.viewing_worktrees && !a.viewing_items && !a.issuing && !a.picking_project,
        0 <= i < app::visible_of(a).len(),
    ensures
        ({
            let vis = app::visible_of(a);
            let rows = panes::list_pane(a).lines;
            let t = a.tasks[vis[i]];
            &&& rows.len() == vis.len()
            &&& exists|on: bool|
                {
                    &&& rows[i] == #[trigger] panes::task_row(t, on, a.project_scope is Some)
                    &&& on <==> i == app::clamped(a.selected, vis.len())
                    &&& on ==> app::selected_row(a) == Some(t)
                }
        }),
{
    let vis = app::visible_of(a);
    let t = a.tasks[vis[i]];
    let on = i == app::clamped(a.selected, vis.len());
    assert(panes::list_pane(a).lines[i] == panes::task_row(t, on, a.project_scope is Some));
}

/// A run is live while it works, and in no other state.
pub proof fn law_a_live_run_is_green(t: TaskRowV, on: bool)
    ensures
        panes::task_look(t, on).fg == Some(Color::Green) <==> (t.run_state == Some("working"@)
            || t.run_state == Some("running"@)),
        panes::task_look(t, on).bold == on,
{
}

/// The box of an item says its state, and a failed one is struck out; the text is that of
/// the item, and the row under the cursor is marked.
pub proof fn law_an_item_row_shows_its_state(it: ItemV, on: bool)
    ensures
        said(panes::item_row(it, on).spans) == (if on {
            "▶ "@
        } else {
            "  "@
        }) + ((if it.failed {
            "[✗]"@
        } else if it.checked {
            "[x]"@
        } else {
            "[ ]"@
        }) + " "@) + it.text,
        panes::item_row(it, on).spans[2].style.struck == it.failed,
{
    let x = panes::item_row(it, on).spans;
    lemma_said_few(x[0], x[1], x[2]);
    assert(x =~= seq![x[0], x[1], x[2]]);
}

/// The items are listed in order, all of them, and the one that the keys act on is the one
/// that is marked.
pub proof fn law_the_marked_item_is_the_one_under_the_cursor(a: AppV, i: int)
    requires
        a.viewing_items && !a.viewing_worktrees,
        0 <= i < input::selected_items(a).len(),
    ensures
        ({
            let its = input::selected_items(a);
            let rows = panes::list_pane(a).lines;
            let on = i == app::clamped(a.item_sel, its.len());
            &&& rows.len() == its.len()
            &&& rows[i] == panes::item_row(its[i], on)
            &&& on ==> input::item_under(a) == Some(its[i])
        }),
{
}

// ---------------------------------------------------------------------------
// The pickers
// ---------------------------------------------------------------------------

/// A row of the project picker counts the tasks of its project, and the first counts all.
pub proof fn law_projects_are_counted(rows: Seq<TaskRowV>, project: Seq<char>, t: TaskRowV)
    ensures
        panes::count_in(rows, None) == rows.len(),
        panes::count_in(rows, Some(project)) <= rows.len(),
        panes::count_in(rows.push(t), Some(project)) == panes::count_in(rows, Some(project)) + (
        if t.project == project {
            1nat
        } else {
            0nat
        }),
        panes::count_in(Seq::<TaskRowV>::empty(), Some(project)) == 0,
    decreases rows.len(),
{
    assert(rows.push(t).drop_last() =~= rows);
    if rows.len() > 0 {
        law_projects_are_counted(rows.drop_last(), project, t);
    }
}

/// Each row of the pickers stands for what Enter picks in it.
pub proof fn law_pickers_show_what_they_pick(a: AppV, i: int)
    ensures
        !a.viewing_worktrees && !a.viewing_items && a.issuing && 0 < i <= a.issue_projects.len()
            ==> panes::list_pane(a).lines[i].spans[1].text == a.issue_projects[i - 1],
        !a.viewing_worktrees && !a.viewing_items && !a.issuing && a.picking_project && 0 < i
            <= app::projects_of_app(a).len() ==> panes::list_pane(a).lines[i].spans[1].text
            == app::projects_of_app(a)[i - 1] + " "@ && panes::list_pane(
            a,
        ).lines[i].spans[2].text == "("@ + text::decimal(
            panes::count_in(a.tasks, Some(app::projects_of_app(a)[i - 1])),
        ) + ")"@,
{
}

/// A worktree is shown with its branch, the name of its directory, and its flags.
pub proof fn law_a_worktree_row_shows_its_flags(w: crate::gitx::WorktreeV, on: bool)
    ensures
        ({
            let x = panes::worktree_row(w, on).spans;
            &&& x.len() == 3 + (if w.is_main {
                1int
            } else {
                0
            }) + (if w.locked {
                1int
            } else {
                0
            }) + (if w.prunable {
                1int
            } else {
                0
            })
            &&& w.branch matches Some(b) ==> (!w.bare ==> x[1].text == b + " "@)
            &&& w.is_main ==> x[3].text == " [main]"@
            &&& w.locked && !w.is_main ==> x[3].text == " [locked]"@
            &&& w.prunable ==> x.last().text == " [prunable]"@
        }),
        screen::flags_of(w).contains("main"@) <== w.is_main,
        screen::flags_of(w).contains("locked"@) <== w.locked,
        screen::flags_of(w).contains("prunable"@) <== w.prunable,
        !w.is_main && !w.locked && !w.prunable ==> screen::flags_of(w).len() == 0,
{
    let f = screen::flags_of(w);
    if w.is_main {
        assert(f[0] == "main"@);
    }
    if w.locked {
        assert(f[if w.is_main {
            1
        } else {
            0
        }] == "locked"@);
    }
    if w.prunable {
        assert(f.last() == "prunable"@);
    }
}

// ---------------------------------------------------------------------------
// The other panes
// ---------------------------------------------------------------------------

/// The meta pane is about the selected task: its id, its branch and how it is backed, its
/// directory, and its issue and its pull request, each behind its own label.
pub proof fn law_meta_is_about_the_selected_task(a: AppV, t: TaskRowV)
    requires
        app::selected_row(a) == Some(t),
    ensures
        ({
            let m = screen::screen_of(a).meta.lines;
            &&& m[0].spans[0].text == t.id
            &&& m[1].spans[0].text == "branch: "@
            &&& m[1].spans[1].text == (match t.branch {
                Some(b) => b + (if t.worktree is Some {
                    " (worktree)"@
                } else {
                    " (branch)"@
                }),
                None => "—"@,
            })
            &&& m[2].spans[1].text == (match (t.worktree, t.repo_dir) {
                (Some(w), _) => w,
                (None, Some(d)) => d,
                (None, None) => "—"@,
            })
            &&& m[3].spans[0].text == "issue: "@
            &&& t.github_issue matches Some(n) ==> m[3].spans[1].text == "#"@ + text::decimal(
                n as nat,
            )
            &&& t.github_issue is None ==> m[3].spans[1].text == "—"@
            &&& m[3].spans[2].text == "   PR: "@
            &&& t.github_pr matches Some(n) ==> m[3].spans[3].text == "#"@ + text::decimal(
                n as nat,
            )
            &&& t.github_pr is None ==> m[3].spans[3].text == "—"@
            &&& m[3].spans[4].text == "   shared"@ <==> t.shared
        }),
{
    reveal_strlit("   shared");
    assert("   shared"@.len() == 9);
    assert(screen::screen_of(a).meta.lines == screen::meta_of(t));
    assert(screen::links_line(t).spans[4].text == if t.shared {
        "   shared"@
    } else {
        Seq::<char>::empty()
    });
}

/// The day of a time is its first ten characters, where they are ASCII.
pub proof fn law_a_day_is_shown_in_short(s: Seq<char>)
    requires
        s.len() >= 10,
        forall|i: int| 0 <= i < s.len() ==> (#[trigger] s[i] as u32) < 0x80,
    ensures
        screen::first_bytes(s, 10) == s.take(10),
{
    lemma_ascii_bytes(s, 10);
    assert(screen::byte_len(s.take(10)) == 10);
    let k = choose|k: int| 0 <= k <= s.len() && screen::byte_len(#[trigger] s.take(k)) == 10;
    lemma_ascii_bytes(s, k);
}

/// An ASCII text takes a byte for each character.
proof fn lemma_ascii_bytes(s: Seq<char>, k: int)
    requires
        0 <= k <= s.len(),
        forall|i: int| 0 <= i < s.len() ==> (#[trigger] s[i] as u32) < 0x80,
    ensures
        screen::byte_len(s.take(k)) == k,
    decreases k,
{
    if k > 0 {
        lemma_ascii_bytes(s, k - 1);
        assert(s.take(k).drop_last() =~= s.take(k - 1));
        assert(s.take(k).last() == s[k - 1]);
    }
}

/// The preview shows the document of the selected task; in the item view, what the log
/// says of the item under the cursor.
pub proof fn law_the_preview_shows_the_selection(a: AppV, t: TaskRowV)
    requires
        app::selected_row(a) == Some(t),
        !a.viewing_worktrees,
    ensures
        !a.viewing_items ==> screen::screen_of(a).preview.lines == markdown::rendered(
            text::lines_of(t.body),
        ),
        a.viewing_items ==> (input::item_under(a) matches Some(it) ==> (it.id matches Some(id) ==> (
        markdown::log_of_item(t.body, id).len() > 0 ==> screen::screen_of(a).preview.lines
            == markdown::rendered(
            text::lines_of(text::joined(markdown::log_of_item(t.body, id), "\n"@)),
        )))),
{
}

/// The status line asks what is to be answered, about the selected task, and shows what is
/// typed; else it shows the message, and the keys where there is none.
pub proof fn law_the_status_line_asks_the_question(a: AppV, t: TaskRowV)
    requires
        app::selected_row(a) == Some(t),
        !a.creating_item && !a.editing_item && !a.deleting_item,
    ensures
        a.creating ==> text::ends(screen::status_text(a), a.input),
        !a.creating && a.moving ==> text::begins(screen::status_text(a), "move "@ + t.slug),
        !a.creating && !a.moving && a.deleting ==> text::begins(
            screen::status_text(a),
            "delete "@ + t.slug,
        ),
        crate::ui::key_laws::in_list(a) && !a.creating_worktree && !a.deleting_worktree
            && a.message.len() > 0 ==> screen::status_text(a) == a.message,
{
    let s = screen::status_text(a);
    if a.creating {
        let n = s.len() - a.input.len();
        assert(s.subrange(n, s.len() as int) =~= a.input);
    } else if a.moving {
        let p = "move "@ + t.slug;
        assert(s.subrange(0, p.len() as int) =~= p);
    } else if a.deleting {
        let p = "delete "@ + t.slug;
        assert(s.subrange(0, p.len() as int) =~= p);
    }
}

/// A box is over the dashboard exactly while it takes the keys. An error is red, and says
/// what the error says; an offer names the task and the place of the conflict.
pub proof fn law_an_overlay_is_shown_while_it_takes_the_keys(a: AppV)
    ensures
        screen::screen_of(a).overlay is Some <==> input::is_covered(a),
        a.summarizing is None && a.force_push is None ==> (a.popup matches Some(m)
            ==> screen::screen_of(a).overlay matches Some(o) && o.body == m && (o.border
            == Color::Red <==> a.popup_error)),
        a.summarizing is None ==> (a.force_push matches Some(fp) ==> screen::screen_of(
            a,
        ).overlay matches Some(o) && text::begins(
            o.body,
            "conflict on the "@ + (if fp.surface == ForceSurface::Issue {
                "issue"@
            } else {
                "PR"@
            }) + " for '"@ + fp.slug + "'"@,
        )),
{
    if a.summarizing is None {
        if let Some(fp) = a.force_push {
            reveal_strlit("'");
            reveal_strlit("': local and remote both changed since the last sync. Backups are in conflicts/.\n\npress f to force-push — overwrite the remote with your local copy\nany other key to cancel (resolve locally, then retry)");
            let o = screen::force_overlay(fp);
            let p = "conflict on the "@ + screen::surface_name(fp.surface) + " for '"@ + fp.slug
                + "'"@;
            assert(o.body.subrange(0, p.len() as int) =~= p);
        }
    }
}

// ---------------------------------------------------------------------------
// The rows
// ---------------------------------------------------------------------------

/// Every task of every project has a row: with what its document and its state say, and
/// with the project and the store that it is of.
pub proof fn law_every_task_has_a_row(
    ps: Seq<StoreInfoV>,
    runs: Seq<LocalRunV>,
    sessions: Seq<SessionV>,
    p: int,
    i: int,
)
    requires
        0 <= p < ps.len(),
        0 <= i < store::all_tasks(ps[p].store).len(),
    ensures
        ({
            let t = store::all_tasks(ps[p].store)[i];
            let st = state::state_from(ps[p].store.states, t.id, 0);
            exists|k: int|
                {
                    let r = loading::all_rows(ps, runs, sessions)[k];
                    &&& 0 <= k < loading::all_rows(ps, runs, sessions).len()
                    &&& (#[trigger] loading::all_rows(ps, runs, sessions)[k]).id == t.id
                    &&& r.slug == t.slug && r.path == t.path && r.status == t.status
                    &&& r.title == t.doc.front.title && r.body == t.doc.body
                    &&& r.branch == t.doc.front.branch
                    &&& r.github_issue == t.doc.front.github_issue
                    &&& r.github_pr == t.doc.front.github_pr
                    &&& r.created_at == t.doc.front.created_at
                    &&& r.updated_at == t.doc.front.updated_at
                    &&& r.tags == t.doc.front.tags && r.shared == t.doc.front.shared
                    &&& r.worktree == st.worktree
                    &&& r.project == ps[p].project
                    &&& r.repo_dir == ps[p].repo_dir
                    &&& r.store_root == ps[p].store.root
                }
        }),
    decreases ps.len(),
{
    let d = ps.drop_last();
    let last = ps.last();
    let all = loading::all_rows(ps, runs, sessions);
    let before = loading::all_rows(d, runs, sessions);
    let t = store::all_tasks(ps[p].store)[i];
    if p < d.len() {
        law_every_task_has_a_row(d, runs, sessions, p, i);
        let k = choose|k: int|
            {
                let r = before[k];
                let st = state::state_from(d[p].store.states, t.id, 0);
                &&& 0 <= k < before.len()
                &&& (#[trigger] before[k]).id == t.id
                &&& r.slug == t.slug && r.path == t.path && r.status == t.status
                &&& r.title == t.doc.front.title && r.body == t.doc.body
                &&& r.branch == t.doc.front.branch
                &&& r.github_issue == t.doc.front.github_issue
                &&& r.github_pr == t.doc.front.github_pr
                &&& r.created_at == t.doc.front.created_at
                &&& r.updated_at == t.doc.front.updated_at
                &&& r.tags == t.doc.front.tags && r.shared == t.doc.front.shared
                &&& r.worktree == st.worktree
                &&& r.project == d[p].project
                &&& r.repo_dir == d[p].repo_dir
                &&& r.store_root == d[p].store.root
            };
        assert(all[k] == before[k]);
    } else {
        let mine = loading::task_rows(last, store::all_tasks(last.store), runs, sessions);
        assert(all[before.len() + i] == mine[i]);
        assert(mine[i].id == t.id);
    }
}

/// The state of a run is that of its session where its agent keeps sessions, and else that
/// of the process; a task that was never run has none.
pub proof fn law_a_run_state_is_that_of_its_run(
    st: TaskStateV,
    root: Seq<char>,
    id: Seq<char>,
    runs: Seq<LocalRunV>,
    sessions: Seq<SessionV>,
    s: SessionV,
    r: LocalRunV,
)
    requires
        r.root == root,
        r.task_id == id,
    ensures
        st.run_session is None ==> loading::run_state_of(st, root, id, runs, sessions) is None,
        st.run_session == Some(s.id) && run::recorded_agent(st) == Agent::Claude
            ==> loading::run_state_of(st, root, id, runs, sessions.push(s)) == Some(s.state),
        st.run_session is Some && run::recorded_agent(st) != Agent::Claude
            ==> loading::run_state_of(st, root, id, runs.push(r), sessions) == Some(
            run::state_name(r.status, r.alive),
        ),
{
    assert(sessions.push(s).drop_last() =~= sessions);
    assert(runs.push(r).drop_last() =~= runs);
}

/// A task that is looked for by its id is the one with it, of the first project that has
/// one.
pub proof fn law_a_task_is_found_among_projects(ps: Seq<StoreInfoV>, id: Seq<char>, i: int)
    requires
        0 <= i,
    ensures
        match loading::task_among(ps, id, i) {
            Some((k, t)) => i <= k < ps.len() && t.id == id && store::all_tasks(
                ps[k].store,
            ).contains(t),
            None => forall|k: int, m: int|
                i <= k < ps.len() && 0 <= m < store::all_tasks(ps[k].store).len()
                    ==> #[trigger] store::all_tasks(ps[k].store)[m].id != id,
        },
    decreases ps.len() - i,
{
    if i < ps.len() {
        write_laws::lemma_with_id(store::all_tasks(ps[i].store), id, 0);
        if store::with_id_from(store::all_tasks(ps[i].store), id, 0) is None {
            law_a_task_is_found_among_projects(ps, id, i + 1);
        }
    }
}

/// The dashboard lists each store once, and the one that it is launched in first.
pub proof fn law_every_store_is_listed_once(ps: Seq<StoreInfoV>, more: Seq<StoreInfoV>)
    ensures
        ({
            let all = loading::with_projects(ps, more);
            &&& all.len() >= ps.len()
            &&& all.take(ps.len() as int) == ps
            &&& forall|k: int|
                ps.len() <= k < all.len() ==> more.contains(#[trigger] all[k]) && !loading::has_root(
                    all.take(k),
                    all[k].store.root,
                )
        }),
    decreases more.len(),
{
    let all = loading::with_projects(ps, more);
    if more.len() == 0 {
        assert(all.take(ps.len() as int) =~= ps);
    } else {
        let d = more.drop_last();
        let before = loading::with_projects(ps, d);
        law_every_store_is_listed_once(ps, d);
        assert(all.take(ps.len() as int) =~= before.take(ps.len() as int));
        assert forall|k: int| ps.len() <= k < all.len() implies more.contains(#[trigger] all[k])
            && !loading::has_root(all.take(k), all[k].store.root) by {
            if k < before.len() {
                assert(all[k] == before[k]);
                assert(all.take(k) =~= before.take(k));
                assert(d.contains(before[k]));
                let m = choose|m: int| 0 <= m < d.len() && d[m] == before[k];
                assert(more[m] == before[k]);
            } else {
                assert(all.take(k) =~= before);
                assert(more[more.len() - 1] == all[k]);
            }
        }
    }
}

/// The dashboard starts in the scope of the project that it is launched in, over all rows.
pub proof fn law_the_dashboard_starts_at_home(
    ps: Seq<StoreInfoV>,
    home: Option<StoreInfoV>,
    agent: Option<Seq<char>>,
    rows: Seq<TaskRowV>,
)
    ensures
        ({
            let a = loading::started(ps, home, agent, rows);
            &&& a.tasks == rows
            &&& a.tab == 0 && a.selected == 0 && a.filter.len() == 0
            &&& crate::ui::key_laws::in_list(a)
            &&& home matches Some(h) ==> a.project_scope == Some(h.project) && a.home_store_root
                == Some(h.store.root) && a.home_label == Some(h.project)
            &&& home is None ==> a.project_scope is None && a.home_store_root is None
            &&& a.scope_agent == agent
        }),
{
}

/// The rows are read again only while a run is live and no summary runs, and then after a
/// number of ticks that is the same each time.
pub proof fn law_rows_are_read_again_while_a_run_is_live(a: AppV, idle: u32)
    ensures
        work::due(a, idle) ==> a.summarizing is None && exists|i: int|
            0 <= i < a.tasks.len() && ((#[trigger] a.tasks[i]).run_state == Some("working"@)
                || a.tasks[i].run_state == Some("running"@)),
        work::due(a, idle) ==> work::idle_after(a, idle) == 0,
        !work::due(a, idle) && a.summarizing is None && idle < u32::MAX ==> work::idle_after(
            a,
            idle,
        ) == idle + 1,
        a.summarizing is Some ==> work::idle_after(a, idle) == idle,
{
    reveal(work::any_live);
    if work::due(a, idle) {
        let i = choose|i: int|
            0 <= i < a.tasks.len() && row::is_live((#[trigger] a.tasks[i]).run_state);
        assert(a.tasks[i].run_state == Some("working"@) || a.tasks[i].run_state == Some(
            "running"@,
        ));
    }
}

// ---------------------------------------------------------------------------
// Markdown, logs, the picker
// ---------------------------------------------------------------------------

/// How many fences stand in lines.
pub open spec fn fences(ls: Seq<Seq<char>>) -> nat
    decreases ls.len(),
{
    if ls.len() == 0 {
        0
    } else {
        fences(ls.drop_last()) + if markdown::is_fence(ls.last()) {
            1nat
        } else {
            0nat
        }
    }
}

/// Lines are code behind an odd number of fences.
pub proof fn law_fences_come_in_pairs(ls: Seq<Seq<char>>)
    ensures
        markdown::in_code(ls) <==> fences(ls) % 2 == 1,
    decreases ls.len(),
{
    if ls.len() > 0 {
        law_fences_come_in_pairs(ls.drop_last());
    }
}

/// An open item and a checked one look different, and so does a heading; in a code block
/// every line looks the same but for the fences.
pub proof fn law_items_look_like_their_state(line: Seq<char>, other: Seq<char>)
    ensures
        ({
            let t = text::trimmed_start(line);
            let plain = !text::begins(line, "## "@) && !text::has(
                line,
                crate::task::FAILED_SENTINEL@,
            ) && !markdown::is_fence(line);
            &&& text::begins(line, "## "@) && !markdown::is_fence(line) ==> markdown::line_style(
                line,
                false,
            ).bold
            &&& plain && text::begins(t, "- [ ]"@) ==> markdown::line_style(line, false).fg
                == Some(Color::Yellow)
            &&& plain && text::begins(t, "- [x]"@) ==> markdown::line_style(line, false).fg
                == Some(Color::Rgb(0, 128, 0))
            &&& !text::begins(line, "## "@) && text::has(line, crate::task::FAILED_SENTINEL@)
                && !markdown::is_fence(line) ==> markdown::line_style(line, false).struck
            &&& !markdown::is_fence(line) && !markdown::is_fence(other) ==> markdown::line_style(
                line,
                true,
            ) == markdown::line_style(other, true)
        }),
{
    reveal_strlit("- [ ]");
    reveal_strlit("- [x]");
    reveal_strlit("- [X]");
    let t = text::trimmed_start(line);
    if text::begins(t, "- [ ]"@) {
        assert(t.subrange(0, 5)[3] == ' ');
    }
}

/// The log of an item is made of the lines that name it, all of them, in their order.
pub proof fn law_the_log_of_an_item_is_complete(ls: Seq<Seq<char>>, id: Seq<char>, k: int)
    requires
        0 <= k < ls.len(),
    ensures
        markdown::mentions(ls[k], id) <==> markdown::mentioning(ls.take(k + 1), id)
            == markdown::mentioning(ls.take(k), id).push(ls[k]),
        !markdown::mentions(ls[k], id) ==> markdown::mentioning(ls.take(k + 1), id)
            == markdown::mentioning(ls.take(k), id),
{
    assert(ls.take(k + 1).drop_last() =~= ls.take(k));
    assert(ls.take(k + 1).last() == ls[k]);
    if !markdown::mentions(ls[k], id) {
        assert(markdown::mentioning(ls.take(k), id).len() != markdown::mentioning(
            ls.take(k),
            id,
        ).push(ls[k]).len());
    }
}

/// The picker ends with the document under the cursor on Enter, with none on Escape, and
/// on nothing else.
pub proof fn law_the_picker_picks_the_selected_document(a: AppV, code: KeyCode)
    ensures
        loading::pick_of(a, crate::ui::key_laws::press(KeyCode::Enter)) == loading::PickV::Ended(
            match app::selected_row(a) {
                Some(t) => Some(t.path),
                None => None,
            },
        ),
        !a.filtering ==> loading::pick_of(a, crate::ui::key_laws::press(KeyCode::Esc))
            == loading::PickV::Ended(None),
        a.filtering && code != KeyCode::Enter ==> loading::pick_of(
            a,
            crate::ui::key_laws::press(code),
        ) is Going,
        code != KeyCode::Enter && code != KeyCode::Esc && code != KeyCode::Char('q')
            ==> loading::pick_of(a, crate::ui::key_laws::press(code)) is Going,
{
}

/// The cursor of the worktree view stays among the worktrees, and goes to the one of the
/// branch that was added.
pub proof fn law_the_worktree_cursor_stays_among_them(
    a: AppV,
    ws: Seq<crate::gitx::WorktreeV>,
    branch: Seq<char>,
    k: int,
)
    requires
        0 <= k < ws.len() <= usize::MAX,
        ws[k].branch == Some(branch),
    ensures
        ({
            let b = work::worktrees_reloaded(a, ws);
            let c = work::on_worktree_of(b, branch);
            &&& b.worktrees == ws
            &&& b.worktree_sel < ws.len()
            &&& a.worktree_sel < ws.len() ==> b.worktree_sel == a.worktree_sel
            &&& c.worktree_sel < ws.len() && ws[c.worktree_sel as int].branch == Some(branch)
        }),
{
    lemma_on_branch(ws, branch, 0, k);
}

proof fn lemma_on_branch(ws: Seq<crate::gitx::WorktreeV>, branch: Seq<char>, i: int, k: int)
    requires
        0 <= i <= k < ws.len(),
        ws[k].branch == Some(branch),
    ensures
        work::on_branch(ws, branch, i) matches Some(j) && i <= j <= k && ws[j].branch == Some(
            branch,
        ),
    decreases k - i,
{
    if ws[i].branch != Some(branch) {
        lemma_on_branch(ws, branch, i + 1, k);
    }
}

/// Names are listed in order, each once, and every one of them.
pub proof fn law_every_name_is_listed(names: Seq<Seq<char>>, name: Seq<char>, n: int)
    requires
        0 <= n <= names.len(),
    ensures
        app::with_name(names, name, n).contains(name),
        forall|k: int|
            0 <= k < names.len() ==> app::with_name(names, name, n).contains(#[trigger] names[k]),
        app::with_name(names, name, n).len() <= names.len() + 1,
    decreases n,
{
    let w = app::with_name(names, name, n);
    if n <= 0 {
        assert(w[0] == name);
        assert forall|k: int| 0 <= k < names.len() implies w.contains(#[trigger] names[k]) by {
            assert(w[k + 1] == names[k]);
        }
    } else if names[n - 1] == name {
        assert(w[n - 1] == name);
    } else if paths::text_before(names[n - 1], name) {
        assert(w[n] == name);
        assert forall|k: int| 0 <= k < names.len() implies w.contains(#[trigger] names[k]) by {
            if k < n {
                assert(w[k] == names[k]);
            } else {
                assert(w[k + 1] == names[k]);
            }
        }
    } else {
        law_every_name_is_listed(names, name, n - 1);
    }
}

} // verus!
