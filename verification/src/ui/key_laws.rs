//! Laws of the keys: each acts on what is selected, does what it stands for, and leaves
//! the rest as it is.
use crate::commands::run::Agent;
use crate::commands::syncing::SyncErrorV;
use crate::store::Status;
use crate::text;
use crate::ui::app::{self, AppV};
use crate::ui::input;
use crate::ui::keys::{ForceSurface, KeyCode, KeyEvent};
use crate::ui::row::{self, TaskRowV};
use crate::ui::work::{self, JobV, VerbV};
use vstd::prelude::*;

verus! {

/// The press of a key, without the control key.
pub open spec fn press(code: KeyCode) -> KeyEvent {
    KeyEvent { code, ctrl: false, press: true }
}

/// What is done where a key is pressed.
pub open spec fn job_on(a: AppV, code: KeyCode) -> JobV {
    work::job_of(input::key_action(a, press(code)))
}

/// The message does not decide which rows are shown.
proof fn lemma_message_keeps_rows(a: AppV, n: int)
    requires
        0 <= n <= a.tasks.len(),
    ensures
        app::shown_upto(input::quiet(a), n) == app::shown_upto(a, n),
    decreases n,
{
    if n > 0 {
        lemma_message_keeps_rows(a, n - 1);
        let b = input::quiet(a);
        assert(app::is_shown(b, b.tasks[n - 1]) == app::is_shown(a, a.tasks[n - 1]));
    }
}

/// The message does not decide what is selected.
proof fn lemma_quiet(a: AppV)
    ensures
        app::visible_of(input::quiet(a)) == app::visible_of(a),
        app::selected_row(input::quiet(a)) == app::selected_row(a),
        input::selected_items(input::quiet(a)) == input::selected_items(a),
        input::item_under(input::quiet(a)) == input::item_under(a),
        input::item_target(input::quiet(a)) == input::item_target(a),
        input::selected_id(input::quiet(a)) == input::selected_id(a),
{
    lemma_message_keeps_rows(a, a.tasks.len() as int);
}

// ---------------------------------------------------------------------------
// What a key acts on
// ---------------------------------------------------------------------------

/// Something that is done to a task is done to the selected one; the exceptions are a
/// push that overwrites, which is done to the task that it was offered for, an issue on a
/// board, which is created for the task that the boards were offered for, and what is done
/// in the view of worktrees, to the task that the view was opened from.
pub open spec fn is_about(a: AppV, id: Seq<char>, verb: VerbV) -> bool {
    match verb {
        VerbV::PushIssue(true) => a.force_push matches Some(fp) && fp.task_id == id && fp.surface
            == ForceSurface::Issue,
        VerbV::PushPr(true) => a.force_push matches Some(fp) && fp.task_id == id && fp.surface
            == ForceSurface::Pr,
        VerbV::Issue(_) => a.issue_target == Some(id),
        VerbV::AddWorktree(_) | VerbV::RemoveWorktree(_) | VerbV::LockWorktree(_, _) =>
            a.worktree_anchor == Some(id),
        _ => app::selected_row(a) matches Some(t) && t.id == id,
    }
}

/// What is done to a task is fit for it, and says what was chosen: the item or the
/// worktree under the cursor, the text that was typed, and nothing that its state or its
/// links rule out.
pub open spec fn is_fit(a: AppV, verb: VerbV) -> bool {
    let t = app::selected_row(a)->0;
    let w = a.worktrees[a.worktree_sel as int];
    let typed = text::trimmed(a.input);
    match verb {
        VerbV::Done => t.status == Status::Inbox || t.status == Status::Active,
        VerbV::Move(to) => t.status != to && a.moving,
        VerbV::Delete => a.deleting,
        VerbV::Start { .. } => a.starting,
        VerbV::Run => t.status == Status::Active,
        VerbV::ShowLog => row::is_live(t.run_state),
        VerbV::Summarize => input::selected_items(a).len() > 0,
        VerbV::PushIssue(false) => t.github_issue is Some,
        VerbV::OfferIssue => t.github_issue is None,
        VerbV::PushPr(false) => t.github_pr is Some,
        VerbV::OpenPr(worktree) => a.pring || (t.github_pr is None && !worktree && t.branch is Some
            && (t.status == Status::Inbox || t.status == Status::Active)),
        VerbV::ChooseAgent(_) => a.choosing_agent,
        VerbV::Issue(board) => a.issuing && match board {
            Some(b) => 0 < a.issue_sel <= a.issue_projects.len() && a.issue_projects[a.issue_sel
                - 1] == b,
            None => a.issue_sel == 0 || a.issue_sel > a.issue_projects.len(),
        },
        VerbV::ToggleItem(i) => input::item_under(a) matches Some(it) && it.id == Some(i),
        VerbV::DeleteItem(i) => a.deleting_item && (input::item_under(a) matches Some(it) && it.id
            == Some(i)),
        VerbV::EditItem(i, what) => a.editing_item && what == typed && what.len() > 0 && (
        input::item_under(a) matches Some(it) && it.id == Some(i)),
        VerbV::AddItem(what) => a.creating_item && what == typed && what.len() > 0,
        VerbV::AddWorktree(branch) => a.creating_worktree && branch == typed && branch.len() > 0,
        VerbV::RemoveWorktree(p) => a.deleting_worktree && a.worktree_sel < a.worktrees.len()
            && !w.is_main && p == w.path,
        VerbV::LockWorktree(p, lock) => a.worktree_sel < a.worktrees.len() && !w.is_main && p
            == w.path && lock == !w.locked,
        _ => true,
    }
}

/// No key does anything to a task that is not selected or was not chosen before, and none
/// does what the task is not fit for. What is edited is the document of the selected task,
/// what is created has the title that was typed, and what is copied is the directory of
/// the selected task or the worktree under the cursor.
pub proof fn law_a_key_acts_on_what_is_chosen(a: AppV, k: KeyEvent)
    ensures
        match work::job_of(input::key_action(a, k)) {
            JobV::Do(id, verb) => is_about(a, id, verb) && is_fit(a, verb),
            JobV::Edit(p) => app::selected_row(a) matches Some(t) && t.path == p,
            JobV::Create(title) => a.creating && title == text::trimmed(a.input) && title.len() > 0,
            JobV::Copy(p) => if a.viewing_worktrees {
                a.worktree_sel < a.worktrees.len() && p == a.worktrees[a.worktree_sel as int].path
            } else {
                app::selected_row(a) matches Some(t) && (t.worktree == Some(p) || (t.worktree is None
                    && t.repo_dir == Some(p)))
            },
            JobV::Quit => k.press,
            JobV::Nothing => true,
        },
{
    reveal(input::mode_key);
    lemma_quiet(a);
}

// ---------------------------------------------------------------------------
// The list of tasks
// ---------------------------------------------------------------------------

/// The list of tasks has the keys: nothing is asked, typed, picked or shown over it.
pub open spec fn in_list(a: AppV) -> bool {
    &&& !input::is_covered(a)
    &&& !a.viewing_items && !a.viewing_worktrees
    &&& !a.creating && !a.moving && !a.deleting && !a.starting && !a.pring && !a.choosing_agent
    &&& !a.issuing && !a.picking_project && !a.filtering
}

/// The letters of the task list: each does its own thing to the selected task.
pub proof fn law_letters_do_what_they_stand_for(a: AppV, t: TaskRowV)
    requires
        in_list(a),
        app::selected_row(a) == Some(t),
    ensures
        job_on(a, KeyCode::Enter) == JobV::Edit(t.path),
        job_on(a, KeyCode::Char('q')) is Quit,
        t.status == Status::Inbox || t.status == Status::Active ==> job_on(a, KeyCode::Char('d'))
            == JobV::Do(t.id, VerbV::Done),
        t.status == Status::Done || t.status == Status::Canceled ==> job_on(
            a,
            KeyCode::Char('d'),
        ) is Nothing,
        t.github_issue is Some ==> job_on(a, KeyCode::Char('i')) == JobV::Do(
            t.id,
            VerbV::PushIssue(false),
        ),
        t.github_issue is None ==> job_on(a, KeyCode::Char('i')) == JobV::Do(
            t.id,
            VerbV::OfferIssue,
        ),
        t.github_pr is Some ==> job_on(a, KeyCode::Char('p')) == JobV::Do(
            t.id,
            VerbV::PushPr(false),
        ),
        job_on(a, KeyCode::Char('r')) == job_on(a, KeyCode::Char('p')),
        t.status == Status::Active ==> job_on(a, KeyCode::Char('x')) == JobV::Do(t.id, VerbV::Run),
        t.status != Status::Active ==> job_on(a, KeyCode::Char('x')) is Nothing,
        job_on(a, KeyCode::Char('a')) == JobV::Do(t.id, VerbV::Attach),
        row::is_live(t.run_state) ==> job_on(a, KeyCode::Char('L')) == JobV::Do(
            t.id,
            VerbV::ShowLog,
        ),
        input::selected_items(a).len() > 0 ==> job_on(a, KeyCode::Char('S')) == JobV::Do(
            t.id,
            VerbV::Summarize,
        ),
        job_on(a, KeyCode::Char('w')) == JobV::Do(t.id, VerbV::ListWorktrees),
        t.worktree matches Some(d) ==> job_on(a, KeyCode::Char('y')) == JobV::Copy(d),
        t.worktree is None ==> (t.repo_dir matches Some(d) ==> job_on(a, KeyCode::Char('y'))
            == JobV::Copy(d)),
{
    reveal(input::mode_key);
    lemma_quiet(a);
}

/// The letters that ask: each asks its own question, and nothing is done before it is
/// answered.
pub proof fn law_letters_ask_their_question(a: AppV, t: TaskRowV)
    requires
        in_list(a),
        app::selected_row(a) == Some(t),
    ensures
        ({
            let q = input::quiet(a);
            let m = |c: char| input::after_key(a, press(KeyCode::Char(c)));
            &&& m('m') == (AppV { moving: true, ..q })
            &&& m('D') == (AppV { deleting: true, ..q })
            &&& m('A') == (AppV { choosing_agent: true, ..q })
            &&& t.status == Status::Inbox ==> m('s') == (AppV { starting: true, ..q })
            &&& t.status != Status::Inbox ==> !m('s').starting
            &&& t.github_pr is None && t.branch is None && (t.status == Status::Inbox || t.status
                == Status::Active) ==> m('p') == (AppV { pring: true, ..q })
            &&& input::selected_items(a).len() > 0 ==> m('l') == (AppV {
                viewing_items: true,
                item_sel: 0,
                ..q
            })
            &&& m('n') == (AppV { creating: true, input: seq![], ..q })
            &&& m('/') == (AppV { filtering: true, filter: seq![], ..q })
            &&& m('P').picking_project
        }),
        job_on(a, KeyCode::Char('m')) is Nothing,
        job_on(a, KeyCode::Char('D')) is Nothing,
        job_on(a, KeyCode::Char('A')) is Nothing,
        job_on(a, KeyCode::Char('s')) is Nothing,
        job_on(a, KeyCode::Char('l')) is Nothing,
        job_on(a, KeyCode::Char('n')) is Nothing,
        job_on(a, KeyCode::Char('P')) is Nothing,
{
    reveal(input::mode_key);
    lemma_quiet(a);
}

/// No view and no other prompt stands before a prompt.
pub open spec fn plain_prompt(a: AppV) -> bool {
    !input::is_covered(a) && !a.viewing_items && !a.viewing_worktrees && !a.creating
}

/// A move goes where the letter says, unless the task is there; any other key calls it
/// off. Either way the question is answered.
pub proof fn law_a_move_is_answered_with_a_letter(a: AppV, t: TaskRowV, code: KeyCode)
    requires
        plain_prompt(a),
        a.moving,
        app::selected_row(a) == Some(t),
    ensures
        ({
            let to = if code == KeyCode::Char('i') {
                Some(Status::Inbox)
            } else if code == KeyCode::Char('a') {
                Some(Status::Active)
            } else if code == KeyCode::Char('d') {
                Some(Status::Done)
            } else if code == KeyCode::Char('c') {
                Some(Status::Canceled)
            } else {
                None
            };
            match to {
                Some(s) => if t.status == s {
                    job_on(a, code) is Nothing
                } else {
                    job_on(a, code) == JobV::Do(t.id, VerbV::Move(s))
                },
                None => job_on(a, code) is Nothing,
            }
        }),
        !input::after_key(a, press(code)).moving,
{
    reveal(input::mode_key);
    lemma_quiet(a);
}

/// A start is made as the letter says: plain, in a worktree, or on a branch; any other key
/// calls it off.
pub proof fn law_a_start_is_answered_with_a_letter(a: AppV, t: TaskRowV, code: KeyCode)
    requires
        plain_prompt(a),
        !a.moving && !a.deleting,
        a.starting,
        app::selected_row(a) == Some(t),
    ensures
        job_on(a, KeyCode::Char('s')) == JobV::Do(
            t.id,
            VerbV::Start { worktree: false, branch: false },
        ),
        job_on(a, KeyCode::Char('w')) == JobV::Do(
            t.id,
            VerbV::Start { worktree: true, branch: false },
        ),
        job_on(a, KeyCode::Char('b')) == JobV::Do(
            t.id,
            VerbV::Start { worktree: false, branch: true },
        ),
        code != KeyCode::Char('s') && code != KeyCode::Char('w') && code != KeyCode::Char('b')
            ==> job_on(a, code) is Nothing,
        !input::after_key(a, press(code)).starting,
{
    reveal(input::mode_key);
    lemma_quiet(a);
}

/// A pull request is backed as the letter says: by a worktree, or by a branch.
pub proof fn law_a_pull_request_is_answered_with_a_letter(a: AppV, t: TaskRowV, code: KeyCode)
    requires
        plain_prompt(a),
        !a.moving && !a.deleting && !a.starting,
        a.pring,
        app::selected_row(a) == Some(t),
    ensures
        job_on(a, KeyCode::Char('w')) == JobV::Do(t.id, VerbV::OpenPr(true)),
        job_on(a, KeyCode::Char('b')) == JobV::Do(t.id, VerbV::OpenPr(false)),
        code != KeyCode::Char('w') && code != KeyCode::Char('b') ==> job_on(a, code) is Nothing,
        !input::after_key(a, press(code)).pring,
{
    reveal(input::mode_key);
    lemma_quiet(a);
}

/// The agent of a project is the one that the letter names.
pub proof fn law_an_agent_is_chosen_with_a_letter(a: AppV, t: TaskRowV, code: KeyCode)
    requires
        plain_prompt(a),
        !a.moving && !a.deleting && !a.starting && !a.pring,
        a.choosing_agent,
        app::selected_row(a) == Some(t),
    ensures
        job_on(a, KeyCode::Char('c')) == JobV::Do(t.id, VerbV::ChooseAgent(Agent::Claude)),
        job_on(a, KeyCode::Char('x')) == JobV::Do(t.id, VerbV::ChooseAgent(Agent::Codex)),
        job_on(a, KeyCode::Char('o')) == JobV::Do(t.id, VerbV::ChooseAgent(Agent::Opencode)),
        code != KeyCode::Char('c') && code != KeyCode::Char('x') && code != KeyCode::Char('o')
            ==> job_on(a, code) is Nothing,
        !input::after_key(a, press(code)).choosing_agent,
{
    reveal(input::mode_key);
    lemma_quiet(a);
}

/// A deletion is answered with `y`; any answer ends the question.
pub proof fn law_a_deletion_is_answered_with_y(a: AppV, t: TaskRowV, code: KeyCode)
    requires
        plain_prompt(a),
        !a.moving,
        a.deleting,
        app::selected_row(a) == Some(t),
    ensures
        job_on(a, KeyCode::Char('y')) == JobV::Do(t.id, VerbV::Delete),
        code != KeyCode::Char('y') ==> job_on(a, code) is Nothing,
        !input::after_key(a, press(code)).deleting,
{
    reveal(input::mode_key);
    lemma_quiet(a);
}

// ---------------------------------------------------------------------------
// The cursor, and what is typed
// ---------------------------------------------------------------------------

/// The cursor moves by one and stays within the list: down and up again leads back, from
/// every row but the last, and an arrow is the letter.
pub proof fn law_the_cursor_moves_by_one(a: AppV)
    requires
        in_list(a),
        0 <= a.selected < app::visible_of(a).len() <= usize::MAX,
    ensures
        ({
            let n = app::visible_of(a).len();
            let j = input::after_key(a, press(KeyCode::Char('j')));
            let k = input::after_key(a, press(KeyCode::Char('k')));
            &&& j == (AppV { selected: j.selected, ..input::quiet(a) })
            &&& k == (AppV { selected: k.selected, ..input::quiet(a) })
            &&& a.selected + 1 < n ==> j.selected == a.selected + 1
            &&& a.selected + 1 == n ==> j.selected == a.selected
            &&& a.selected > 0 ==> k.selected == a.selected - 1
            &&& a.selected == 0 ==> k.selected == 0
            &&& input::after_key(a, press(KeyCode::Down)) == j
            &&& input::after_key(a, press(KeyCode::Up)) == k
        }),
{
    reveal(input::mode_key);
    lemma_quiet(a);
}

/// Backspace takes back what was typed last, and nothing else.
pub proof fn law_backspace_takes_back_the_last_character(s: Seq<char>, c: char)
    ensures
        input::typed(s, KeyCode::Char(c)) == s.push(c),
        input::typed(input::typed(s, KeyCode::Char(c)), KeyCode::Backspace) == s,
        input::typed(Seq::<char>::empty(), KeyCode::Backspace) == Seq::<char>::empty(),
        input::typed(s, KeyCode::Tab) == s,
{
    assert(s.push(c).drop_last() =~= s);
}

/// Enter creates a task with the title that was typed, without the white space around it,
/// and a blank one creates none; Escape calls it off. Either way the prompt is gone.
pub proof fn law_a_title_is_typed_and_entered(a: AppV)
    requires
        !input::is_covered(a),
        !a.viewing_items && !a.viewing_worktrees,
        a.creating,
    ensures
        text::trimmed(a.input).len() > 0 ==> job_on(a, KeyCode::Enter) == JobV::Create(
            text::trimmed(a.input),
        ),
        text::trimmed(a.input).len() == 0 ==> job_on(a, KeyCode::Enter) is Nothing,
        job_on(a, KeyCode::Esc) is Nothing,
        input::after_key(a, press(KeyCode::Enter)) == (AppV {
            creating: false,
            input: seq![],
            ..input::quiet(a)
        }),
        input::after_key(a, press(KeyCode::Esc)) == input::after_key(a, press(KeyCode::Enter)),
{
    reveal(input::mode_key);
}

/// The filter grows with what is typed, which puts the cursor first; Enter keeps it and
/// Escape drops it.
pub proof fn law_a_filter_is_typed(a: AppV, c: char)
    requires
        !input::is_covered(a),
        !a.viewing_items && !a.viewing_worktrees,
        !a.creating && !a.moving && !a.deleting && !a.starting && !a.pring && !a.choosing_agent,
        !a.issuing && !a.picking_project,
        a.filtering,
    ensures
        input::after_key(a, press(KeyCode::Char(c))) == (AppV {
            filter: a.filter.push(c),
            selected: 0,
            ..input::quiet(a)
        }),
        input::after_key(a, press(KeyCode::Enter)) == (AppV {
            filtering: false,
            ..input::quiet(a)
        }),
        input::after_key(a, press(KeyCode::Esc)) == (AppV {
            filtering: false,
            filter: seq![],
            ..input::quiet(a)
        }),
        a.filter.len() > 0 ==> input::after_key(a, press(KeyCode::Backspace)) == (AppV {
            filter: a.filter.drop_last(),
            ..input::quiet(a)
        }),
        job_on(a, KeyCode::Char(c)) is Nothing,
{
    reveal(input::mode_key);
}

/// A tab shows one status, and the first shows all; the cursor is then on the first row.
pub proof fn law_a_tab_shows_one_status(a: AppV)
    requires
        in_list(a),
    ensures
        app::tab_status(0) is None,
        app::tab_status(1) == Some(Status::Inbox),
        app::tab_status(2) == Some(Status::Active),
        app::tab_status(3) == Some(Status::Done),
        app::tab_status(4) == Some(Status::Canceled),
        a.tab < 4 ==> input::after_key(a, press(KeyCode::Tab)) == (AppV {
            tab: (a.tab + 1) as usize,
            selected: 0,
            ..input::quiet(a)
        }),
        a.tab == 4 ==> input::after_key(a, press(KeyCode::Tab)) == (AppV {
            tab: 0,
            selected: 0,
            ..input::quiet(a)
        }),
{
    reveal(input::mode_key);
}

/// The project that is picked is the scope: all of them in the first row of the picker,
/// and behind it each in its own.
pub proof fn law_the_project_that_is_picked_is_the_scope(a: AppV)
    requires
        !input::is_covered(a),
        !a.viewing_items && !a.viewing_worktrees,
        !a.creating && !a.moving && !a.deleting && !a.starting && !a.pring && !a.choosing_agent,
        !a.issuing,
        a.picking_project,
    ensures
        ({
            let ps = app::projects_of_app(a);
            let b = input::after_key(a, press(KeyCode::Enter));
            &&& !b.picking_project && b.selected == 0
            &&& a.project_sel == 0 ==> b.project_scope is None
            &&& 0 < a.project_sel <= ps.len() ==> b.project_scope == Some(ps[a.project_sel - 1])
            &&& input::after_key(a, press(KeyCode::Esc)) == (AppV {
                picking_project: false,
                ..input::quiet(a)
            })
        }),
{
    reveal(input::mode_key);
    assert(app::projects_of_app(input::quiet(a)) == app::projects_of_app(a));
}

// ---------------------------------------------------------------------------
// The items of a task
// ---------------------------------------------------------------------------

/// The list of items has the keys.
pub open spec fn in_items(a: AppV) -> bool {
    !input::is_covered(a) && a.viewing_items && !a.creating_item && !a.editing_item
        && !a.deleting_item
}

/// The keys of the item list: the space toggles the item under the cursor, `e` rewords it
/// from the text that it has, `d` asks before it is removed, `n` adds one.
pub proof fn law_keys_of_the_items(a: AppV, t: TaskRowV)
    requires
        in_items(a),
        app::selected_row(a) == Some(t),
    ensures
        input::item_under(a) matches Some(it) ==> (it.id matches Some(i) ==> job_on(
            a,
            KeyCode::Char(' '),
        ) == JobV::Do(t.id, VerbV::ToggleItem(i))),
        input::item_under(a) matches Some(it) ==> input::after_key(a, press(KeyCode::Char('e')))
            == (AppV { editing_item: true, input: it.text, ..input::quiet(a) }),
        input::selected_items(a).len() > 0 ==> input::after_key(a, press(KeyCode::Char('d')))
            == (AppV { deleting_item: true, ..input::quiet(a) }),
        input::after_key(a, press(KeyCode::Char('n'))) == (AppV {
            creating_item: true,
            input: seq![],
            ..input::quiet(a)
        }),
        !input::after_key(a, press(KeyCode::Esc)).viewing_items,
        !input::after_key(a, press(KeyCode::Char('h'))).viewing_items,
        job_on(a, KeyCode::Char('e')) is Nothing,
        job_on(a, KeyCode::Char('d')) is Nothing,
        job_on(a, KeyCode::Char('n')) is Nothing,
{
    reveal(input::mode_key);
    lemma_quiet(a);
}

/// The answers in the item list: what was typed is the text of the new item, or of the one
/// under the cursor; `y` removes that one.
pub proof fn law_answers_of_the_items(a: AppV, t: TaskRowV, i: Seq<char>)
    requires
        !input::is_covered(a),
        a.viewing_items,
        app::selected_row(a) == Some(t),
        input::item_under(a) matches Some(it) && it.id == Some(i),
        text::trimmed(a.input).len() > 0,
    ensures
        a.creating_item ==> job_on(a, KeyCode::Enter) == JobV::Do(
            t.id,
            VerbV::AddItem(text::trimmed(a.input)),
        ),
        a.editing_item && !a.creating_item ==> job_on(a, KeyCode::Enter) == JobV::Do(
            t.id,
            VerbV::EditItem(i, text::trimmed(a.input)),
        ),
        a.deleting_item && !a.creating_item && !a.editing_item ==> job_on(a, KeyCode::Char('y'))
            == JobV::Do(t.id, VerbV::DeleteItem(i)),
        a.creating_item || a.editing_item ==> job_on(a, KeyCode::Esc) is Nothing,
{
    reveal(input::mode_key);
    lemma_quiet(a);
}

/// The keys of the worktree view: the space locks the worktree under the cursor where it is
/// not locked, and unlocks it where it is; `y` copies its path; `d` asks first.
pub proof fn law_keys_of_the_worktrees(a: AppV, id: Seq<char>)
    requires
        !input::is_covered(a),
        a.viewing_worktrees && !a.viewing_items,
        a.worktree_anchor == Some(id),
        a.worktree_sel < a.worktrees.len(),
        !a.worktrees[a.worktree_sel as int].is_main,
    ensures
        ({
            let w = a.worktrees[a.worktree_sel as int];
            &&& !a.creating_worktree && !a.deleting_worktree ==> {
                &&& job_on(a, KeyCode::Char(' ')) == JobV::Do(
                    id,
                    VerbV::LockWorktree(w.path, !w.locked),
                )
                &&& job_on(a, KeyCode::Char('y')) == JobV::Copy(w.path)
                &&& job_on(a, KeyCode::Char('d')) is Nothing
                &&& input::after_key(a, press(KeyCode::Char('d'))) == (AppV {
                    deleting_worktree: true,
                    ..input::quiet(a)
                })
                &&& input::after_key(a, press(KeyCode::Char('n'))) == (AppV {
                    creating_worktree: true,
                    input: seq![],
                    ..input::quiet(a)
                })
            }
            &&& a.deleting_worktree && !a.creating_worktree ==> job_on(a, KeyCode::Char('y'))
                == JobV::Do(id, VerbV::RemoveWorktree(w.path))
            &&& a.creating_worktree && text::trimmed(a.input).len() > 0 ==> job_on(
                a,
                KeyCode::Enter,
            ) == JobV::Do(id, VerbV::AddWorktree(text::trimmed(a.input)))
        }),
{
    reveal(input::mode_key);
}

/// The board that is picked is the one that the issue is filed onto, for the task that the
/// boards were offered for; the first row files it onto none.
pub proof fn law_an_issue_is_filed_onto_the_picked_board(
    a: AppV,
    id: Seq<char>,
    boards: Seq<Seq<char>>,
    n: usize,
)
    requires
        in_list(a),
        n <= boards.len(),
    ensures
        ({
            let b = AppV { issue_sel: n, ..work::issue_offered(a, id, boards) };
            job_on(b, KeyCode::Enter) == JobV::Do(
                id,
                VerbV::Issue(
                    if n == 0 {
                        None
                    } else {
                        Some(boards[n - 1])
                    },
                ),
            )
        }),
        work::issue_offered(a, id, boards).issue_sel == 0,
{
    reveal(input::mode_key);
}

// ---------------------------------------------------------------------------
// What comes of it
// ---------------------------------------------------------------------------

/// An error is shown over the dashboard whatever failed, but for a push that met a
/// conflict, which is offered to be overwritten; success is never shown as an error.
pub proof fn law_an_error_is_always_shown(
    a: AppV,
    verb: VerbV,
    id: Seq<char>,
    r: Result<Seq<char>, SyncErrorV>,
    rows: Seq<TaskRowV>,
)
    requires
        a.popup is None,
        a.force_push is None,
    ensures
        ({
            let b = work::settled(a, verb, id, r, rows);
            match r {
                Err(SyncErrorV::Refused(e)) => b.popup == Some(e) && b.popup_error
                    && b.force_push is None,
                Err(SyncErrorV::Conflict(c)) => if verb == VerbV::PushIssue(false) || verb
                    == VerbV::PushPr(false) {
                    b.popup is None && (b.force_push matches Some(fp) && fp.task_id == id && fp.slug
                        == c.slug && (fp.surface == ForceSurface::Issue <==> verb is PushIssue))
                } else {
                    b.popup == Some(crate::sync::conflict_text(c)) && b.popup_error
                },
                Ok(m) => b.force_push is None && (b.popup is Some <==> verb is Run || verb is ShowLog)
                    && (b.popup matches Some(x) ==> x == m && !b.popup_error),
            }
        }),
{
}

/// After a command the dashboard is over the rows that were read then: all commands that
/// change a task do so.
pub proof fn law_a_command_shows_the_new_rows(
    a: AppV,
    verb: VerbV,
    id: Seq<char>,
    m: Seq<char>,
    rows: Seq<TaskRowV>,
)
    requires
        !(verb is Summarize) && !(verb is ListWorktrees) && !(verb is AddWorktree),
        !(verb is RemoveWorktree) && !(verb is LockWorktree),
    ensures
        work::settled(a, verb, id, Ok(m), rows).tasks == rows,
{
}

/// A new task is created in the store of the selected one, or in that of the repository
/// that the dashboard was started in.
pub proof fn law_a_task_is_created_where_the_selection_is(a: AppV)
    ensures
        app::selected_row(a) matches Some(t) ==> work::create_root(a) == Some(t.store_root),
        app::selected_row(a) is None ==> work::create_root(a) == a.home_store_root,
{
}

} // verus!
