//! Laws of the dashboard: what it shows, and what no key does.
use crate::facts;
use crate::text;
use crate::ui::app::{self, AppV};
use crate::ui::input;
use crate::ui::keys::{ForceSurface, KeyCode, KeyEvent};
use crate::ui::row::TaskRowV;
use crate::ui::work::{self, JobV, VerbV};
use vstd::prelude::*;
use vstd::string::*;

verus! {

// ---------------------------------------------------------------------------
// What is shown
// ---------------------------------------------------------------------------

/// The rows that are shown are those in the scope, of the tab and that the filter
/// matches, all of them, in their order.
pub proof fn law_the_list_shows_what_is_in_scope(a: AppV, n: int)
    requires
        0 <= n <= a.tasks.len(),
    ensures
        forall|k: int|
            0 <= k < app::shown_upto(a, n).len() ==> 0 <= (#[trigger] app::shown_upto(a, n)[k]) < n
                && app::is_shown(a, a.tasks[app::shown_upto(a, n)[k]]),
        forall|k: int, m: int|
            0 <= k < m < app::shown_upto(a, n).len() ==> (#[trigger] app::shown_upto(a, n)[k]) < (
            #[trigger] app::shown_upto(a, n)[m]),
        forall|i: int|
            0 <= i < n && app::is_shown(a, #[trigger] a.tasks[i]) ==> app::shown_upto(
                a,
                n,
            ).contains(i),
    decreases n,
{
    if n > 0 {
        law_the_list_shows_what_is_in_scope(a, n - 1);
        let before = app::shown_upto(a, n - 1);
        let now = app::shown_upto(a, n);
        assert forall|k: int| 0 <= k < now.len() implies 0 <= (#[trigger] now[k]) < n
            && app::is_shown(a, a.tasks[now[k]]) by {
            if k < before.len() {
                assert(now[k] == before[k]);
            }
        }
        assert forall|k: int, m: int| 0 <= k < m < now.len() implies (#[trigger] now[k]) < (
        #[trigger] now[m]) by {
            assert(now[k] == before[k]);
            if m < before.len() {
                assert(now[m] == before[m]);
            }
        }
        assert forall|i: int| 0 <= i < n && app::is_shown(a, #[trigger] a.tasks[i]) implies now.contains(
            i,
        ) by {
            if i < n - 1 {
                assert(before.contains(i));
                let k = choose|k: int| 0 <= k < before.len() && before[k] == i;
                assert(now[k] == i);
            } else {
                assert(now[now.len() - 1] == i);
            }
        }
    }
}

/// A task is selected wherever one is shown, and it is one that is shown.
pub proof fn law_the_selection_is_shown(a: AppV)
    ensures
        app::selected_row(a) is Some <==> app::visible_of(a).len() > 0,
        app::selected_row(a) matches Some(t) ==> a.tasks.contains(t) && app::is_shown(a, t),
{
    law_the_list_shows_what_is_in_scope(a, a.tasks.len() as int);
    let vis = app::visible_of(a);
    if vis.len() > 0 {
        let k = app::clamped(a.selected, vis.len());
        assert(0 <= vis[k] < a.tasks.len());
        assert(a.tasks[vis[k]] == app::selected_row(a)->0);
    }
}

/// Tab goes through all the tabs, and back to the first.
pub proof fn law_tabs_cycle(tab: usize)
    requires
        tab < app::TAB_COUNT,
    ensures
        input::next_tab(tab) < app::TAB_COUNT,
        input::next_tab(input::next_tab(input::next_tab(input::next_tab(input::next_tab(tab)))))
            == tab,
{
}

/// A new task that is in the scope gets the cursor.
pub proof fn law_a_created_task_is_selected(
    a: AppV,
    path: Seq<char>,
    e: Option<Seq<char>>,
    rows: Seq<TaskRowV>,
    i: int,
)
    requires
        rows.len() <= usize::MAX,
        0 <= i < rows.len(),
        rows[i].path == path,
        a.project_scope is None || a.project_scope == Some(rows[i].project),
    ensures
        app::selected_row(work::created_app(a, path, e, rows)) matches Some(t) && t.path == path,
{
    let b = AppV { tab: 0, filter: seq![], tasks: rows, ..work::edit_told(a, e) };
    assert(b.project_scope == a.project_scope);
    lemma_path_is_selected(b, path, i);
}

/// The cursor goes to a row that is in the scope.
proof fn lemma_path_is_selected(b: AppV, path: Seq<char>, i: int)
    requires
        b.tasks.len() <= usize::MAX,
        0 <= i < b.tasks.len(),
        b.tasks[i].path == path,
        b.tab == 0,
        b.filter.len() == 0,
        b.project_scope is None || b.project_scope == Some(b.tasks[i].project),
    ensures
        app::selected_row(work::on_path(b, path)) matches Some(t) && t.path == path,
{
    let n = b.tasks.len() as int;
    law_the_list_shows_what_is_in_scope(b, n);
    let vis = app::visible_of(b);
    assert(app::is_shown(b, b.tasks[i]));
    assert(vis.contains(i));
    let k = choose|k: int| 0 <= k < vis.len() && vis[k] == i;
    lemma_shown_at(b, path, 0, k);
    lemma_visible_len(b, n);
    let j = work::shown_at(b, path, 0)->0;
    lemma_cursor_keeps_rows(b, j as usize, n);
}

/// A path that is shown is found where it is shown first.
proof fn lemma_shown_at(a: AppV, path: Seq<char>, i: int, k: int)
    requires
        0 <= i <= k < app::visible_of(a).len(),
        a.tasks[app::visible_of(a)[k]].path == path,
    ensures
        work::shown_at(a, path, i) matches Some(j) && i <= j <= k
            && a.tasks[app::visible_of(a)[j]].path == path,
    decreases k - i,
{
    if a.tasks[app::visible_of(a)[i]].path != path {
        lemma_shown_at(a, path, i + 1, k);
    }
}

/// No more rows are shown than there are.
proof fn lemma_visible_len(a: AppV, n: int)
    requires
        0 <= n <= a.tasks.len(),
    ensures
        app::shown_upto(a, n).len() <= n,
    decreases n,
{
    if n > 0 {
        lemma_visible_len(a, n - 1);
    }
}

/// The cursor does not decide which rows are shown.
proof fn lemma_cursor_keeps_rows(a: AppV, sel: usize, n: int)
    requires
        0 <= n <= a.tasks.len(),
    ensures
        app::shown_upto(AppV { selected: sel, ..a }, n) == app::shown_upto(a, n),
    decreases n,
{
    if n > 0 {
        lemma_cursor_keeps_rows(a, sel, n - 1);
        let b = AppV { selected: sel, ..a };
        assert(app::is_shown(b, b.tasks[n - 1]) == app::is_shown(a, a.tasks[n - 1]));
    }
}

// ---------------------------------------------------------------------------
// What no key does
// ---------------------------------------------------------------------------

/// A key that is released does nothing.
pub proof fn law_a_release_does_nothing(a: AppV, k: KeyEvent)
    requires
        !k.press,
    ensures
        input::after_key(a, k) == a,
        input::key_action(a, k) is Nothing,
{
}

/// A running summary swallows every key but Ctrl-c, and only that quits.
pub proof fn law_a_running_summary_swallows_keys(a: AppV, k: KeyEvent)
    requires
        a.summarizing is Some,
    ensures
        input::after_key(a, k) == a,
        input::key_action(a, k) is Nothing || input::key_action(a, k) is Quit,
        input::key_action(a, k) is Quit <==> k.press && input::is_ctrl_c(k),
{
}

/// A modal text is dismissed by any key, which does nothing else: not even `q` quits.
pub proof fn law_a_popup_swallows_one_key(a: AppV, k: KeyEvent)
    requires
        k.press,
        a.summarizing is None,
        a.force_push is None,
        a.popup is Some,
    ensures
        input::after_key(a, k) == (AppV { popup: None, ..a }),
        input::key_action(a, k) is Nothing,
{
}

/// A message is gone with the next key: what the dashboard does then is what it would
/// do without it.
pub proof fn law_messages_are_transient(a: AppV, k: KeyEvent)
    requires
        k.press,
        !input::is_covered(a),
    ensures
        input::after_key(a, k) == input::after_key(input::quiet(a), k),
        input::key_action(a, k) == input::key_action(input::quiet(a), k),
{
    assert(input::quiet(input::quiet(a)) == input::quiet(a));
}

/// Nothing is removed but by `y` behind its question: no key removes a task, an item or
/// a worktree unless that was asked, and any key but `y` calls it off.
pub proof fn law_only_a_confirmation_removes(a: AppV, k: KeyEvent)
    ensures
        input::key_action(a, k) is Delete ==> a.deleting && k.code == KeyCode::Char('y'),
        input::key_action(a, k) is DeleteItem ==> a.deleting_item && k.code == KeyCode::Char('y'),
        input::key_action(a, k) is DeleteWorktree ==> a.deleting_worktree && k.code
            == KeyCode::Char('y'),
{
    reveal(input::mode_key);
}

/// The main worktree is never removed or locked.
pub proof fn law_the_main_worktree_is_left_alone(a: AppV, k: KeyEvent)
    requires
        a.worktree_sel < a.worktrees.len(),
        a.worktrees[a.worktree_sel as int].is_main,
    ensures
        !(input::key_action(a, k) is DeleteWorktree),
        !(input::key_action(a, k) is LockWorktree),
{
    reveal(input::mode_key);
}

/// While a text is typed, no letter does anything but join it.
pub proof fn law_typing_triggers_nothing(a: AppV, c: char, ctrl: bool)
    requires
        !input::is_covered(a),
        !a.viewing_items,
        !a.viewing_worktrees,
        a.creating,
    ensures
        ({
            let k = KeyEvent { code: KeyCode::Char(c), ctrl, press: true };
            &&& input::key_action(a, k) is Nothing
            &&& input::after_key(a, k) == (AppV { input: a.input.push(c), ..input::quiet(a) })
        }),
{
    reveal(input::mode_key);
}

// ---------------------------------------------------------------------------
// Conflicts
// ---------------------------------------------------------------------------

/// A push that met a conflict is answered by `f` with the same push, which then
/// overwrites the remote body, and by any other key with nothing.
pub proof fn law_a_conflict_is_answered_by_f(
    a: AppV,
    c: crate::sync::ConflictV,
    id: Seq<char>,
    surface: ForceSurface,
    rows: Seq<TaskRowV>,
    k: KeyEvent,
)
    requires
        a.summarizing is None,
        k.press,
        !input::is_ctrl_c(k),
    ensures
        ({
            let b = work::push_finished(
                a,
                Err(crate::commands::syncing::SyncErrorV::Conflict(c)),
                id,
                surface,
                rows,
            );
            &&& k.code == KeyCode::Char('f') ==> work::job_of(input::key_action(b, k))
                == (JobV::Do(
                id,
                match surface {
                    ForceSurface::Issue => VerbV::PushIssue(true),
                    ForceSurface::Pr => VerbV::PushPr(true),
                },
            ))
            &&& k.code != KeyCode::Char('f') ==> input::key_action(b, k) is Nothing
            &&& input::after_key(b, k).force_push is None
        }),
{
}

/// What the filter is matched against holds the project, the slug and the title of a task.
pub proof fn law_a_task_is_matched_by_all_its_names(t: TaskRowV)
    ensures
        text::has(app::candidate_of(t), t.project),
        text::has(app::candidate_of(t), t.slug),
        text::has(app::candidate_of(t), t.title),
{
    let c = app::candidate_of(t);
    let n = t.project.len() as int + " "@.len();
    let m = n + t.slug.len() + " "@.len();
    assert(c.subrange(0, t.project.len() as int) =~= t.project);
    assert(c.subrange(n, n + t.slug.len()) =~= t.slug);
    assert(c.subrange(m, m + t.title.len()) =~= t.title);
    facts::lemma_occurs_has(c, t.project, 0);
    facts::lemma_occurs_has(c, t.slug, n);
    facts::lemma_occurs_has(c, t.title, m);
}

/// A task of another project, or of a status that the tab does not show, is not shown; what
/// is in the scope is shown as long as nothing is filtered.
pub proof fn law_the_scope_decides_what_is_shown(a: AppV, t: TaskRowV)
    ensures
        a.project_scope matches Some(p) ==> (p != t.project ==> !app::is_shown(a, t)),
        a.tab == 1 ==> (app::is_shown(a, t) ==> t.status == crate::store::Status::Inbox),
        a.tab == 2 ==> (app::is_shown(a, t) ==> t.status == crate::store::Status::Active),
        a.tab == 3 ==> (app::is_shown(a, t) ==> t.status == crate::store::Status::Done),
        a.tab == 4 ==> (app::is_shown(a, t) ==> t.status == crate::store::Status::Canceled),
        a.project_scope is None && a.tab == 0 && a.filter.len() == 0 ==> app::is_shown(a, t),
        a.project_scope == Some(t.project) && a.tab == 0 && a.filter.len() == 0 ==> app::is_shown(
            a,
            t,
        ),
{
}

} // verus!
