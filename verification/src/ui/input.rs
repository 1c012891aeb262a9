//! What keys do.
use crate::commands::run::Agent;
use crate::store::Status;
use crate::task;
use crate::task::items::{self as checklist, ItemV};
use crate::text;
use crate::ui::app::{self, App, AppV};
use crate::ui::change::{self, Change, ChangeV, ItemChange, ItemChangeV, ListChange, ListChangeV};
use crate::ui::change::{PickChange, PickChangeV, Question, WorktreeChange};
use crate::ui::keys::{KeyCode, KeyEvent, StartMode, UiAction, UiActionV};
use crate::ui::row::{self, TaskRow, TaskRowV};
use vstd::prelude::*;
use vstd::string::*;

verus! {

// ---------------------------------------------------------------------------
// Pieces
// ---------------------------------------------------------------------------

/// How the dashboard reacts to a key: how it changes, and what is to be done.
#[derive(Debug)]
pub struct Reaction {
    pub change: Change,
    pub action: UiAction,
}

/// What a [`Reaction`] stands for.
pub struct ReactionV {
    pub change: ChangeV,
    pub action: UiActionV,
}

impl View for Reaction {
    type V = ReactionV;

    open spec fn view(&self) -> ReactionV {
        ReactionV { change: self.change@, action: self.action@ }
    }
}

/// A change with nothing to be done.
pub open spec fn turns(c: ChangeV) -> ReactionV {
    ReactionV { change: c, action: UiActionV::Nothing }
}

/// Something to be done, with no change.
pub open spec fn does(action: UiActionV) -> ReactionV {
    ReactionV { change: ChangeV::Keep, action }
}

/// A message in the status line.
pub open spec fn says(m: Seq<char>) -> ReactionV {
    turns(ChangeV::Tell(m))
}

/// Neither a change nor anything to be done.
pub open spec fn idle() -> ReactionV {
    turns(ChangeV::Keep)
}

/// A change with nothing to be done.
fn turn(c: Change) -> (r: Reaction)
    ensures
        r@ == turns(c@),
{
    Reaction { change: c, action: UiAction::Nothing }
}

/// Something to be done, with no change.
fn act(action: UiAction) -> (r: Reaction)
    ensures
        r@ == does(action@),
{
    Reaction { change: Change::Keep, action }
}

/// A message in the status line.
fn say(m: &str) -> (r: Reaction)
    ensures
        r@ == says(m@),
{
    turn(Change::Tell(String::from_str(m)))
}

/// Neither a change nor anything to be done.
fn ignore() -> (r: Reaction)
    ensures
        r@ == idle(),
{
    turn(Change::Keep)
}

/// Ctrl-c.
pub open spec fn is_ctrl_c(k: KeyEvent) -> bool {
    k.code == KeyCode::Char('c') && k.ctrl
}

/// A text after a key: typed, or with its last character taken back.
pub open spec fn typed(s: Seq<char>, code: KeyCode) -> Seq<char> {
    match code {
        KeyCode::Backspace => if s.len() > 0 {
            s.drop_last()
        } else {
            s
        },
        KeyCode::Char(c) => s.push(c),
        _ => s,
    }
}

/// A text after a key.
fn type_key(s: &str, code: KeyCode) -> (r: String)
    ensures
        r@ == typed(s@, code),
{
    match code {
        KeyCode::Backspace => {
            let v = text::chars_of(s);
            if v.len() > 0 {
                let r = text::slice_of(&v, 0, v.len() - 1);
                assert(r@ =~= s@.drop_last());
                r
            } else {
                String::from_str(s)
            }
        },
        KeyCode::Char(c) => {
            let mut r = String::from_str(s);
            r.push(c);
            r
        },
        _ => String::from_str(s),
    }
}

/// A cursor one further down a list.
pub open spec fn down(sel: usize, len: nat) -> usize {
    if len == 0 {
        sel
    } else {
        app::least(sel + 1, len - 1) as usize
    }
}

/// A cursor one further up.
pub open spec fn up(sel: usize) -> usize {
    if sel > 0 {
        (sel - 1) as usize
    } else {
        0
    }
}

/// A cursor one further down a list.
fn move_down(sel: usize, len: usize) -> (r: usize)
    ensures
        r == down(sel, len as nat),
{
    if len == 0 {
        sel
    } else if sel < len - 1 {
        sel + 1
    } else {
        len - 1
    }
}

/// A cursor one further up.
fn move_up(sel: usize) -> (r: usize)
    ensures
        r == up(sel),
{
    if sel > 0 {
        sel - 1
    } else {
        0
    }
}

/// The checklist items of a task body, with stable integer ids assigned in-memory the
/// same way `assign_ids` persists them — so the id shown in the item view matches the
/// id a toggle will write back to disk.
pub open spec fn shown_items(body: Seq<char>) -> Seq<ItemV> {
    checklist::items_of(checklist::healed_body(body))
}

/// The checklist items of a task body, with stable integer ids.
pub fn task_items(body: &str) -> (r: Vec<task::Item>)
    ensures
        text::views(r@) == shown_items(body@),
{
    let (assigned, _) = task::ensure_item_ids(body);
    task::scan_items(&assigned)
}

/// The checklist items of the selected task.
pub open spec fn selected_items(a: AppV) -> Seq<ItemV> {
    match app::selected_row(a) {
        Some(t) => shown_items(t.body),
        None => seq![],
    }
}

/// The checklist item under the cursor.
pub open spec fn item_under(a: AppV) -> Option<ItemV> {
    let its = selected_items(a);
    if its.len() == 0 {
        None
    } else {
        Some(its[app::clamped(a.item_sel, its.len())])
    }
}

/// The selected task, and the id of the checklist item under the cursor.
pub open spec fn item_target(a: AppV) -> Option<(Seq<char>, Seq<char>)> {
    match (app::selected_row(a), item_under(a)) {
        (Some(t), Some(it)) => match it.id {
            Some(id) => Some((t.id, id)),
            None => None,
        },
        _ => None,
    }
}

/// The id of the selected task.
pub open spec fn selected_id(a: AppV) -> Option<Seq<char>> {
    match app::selected_row(a) {
        Some(t) => Some(t.id),
        None => None,
    }
}

impl App {
    /// The id of the selected task.
    fn id_of_selected(&self) -> (r: Option<String>)
        requires
            self.wf(),
        ensures
            text::opt_view(r) == selected_id(self@),
    {
        match self.selected_task() {
            Some(t) => Some(t.id.clone()),
            None => None,
        }
    }

    /// The checklist items of the selected task.
    pub fn items_of_selected(&self) -> (r: Vec<task::Item>)
        requires
            self.wf(),
        ensures
            text::views(r@) == selected_items(self@),
    {
        match self.selected_task() {
            Some(t) => task_items(&t.body),
            None => {
                let none: Vec<task::Item> = Vec::new();
                assert(text::views(none@) =~= seq![]);
                none
            },
        }
    }

    /// The checklist item under the cursor.
    pub fn item_of_cursor(&self) -> (r: Option<task::Item>)
        requires
            self.wf(),
        ensures
            match r {
                Some(it) => item_under(self@) == Some(it@),
                None => item_under(self@) is None,
            },
    {
        let its = self.items_of_selected();
        proof {
            assert(selected_items(self@).len() == its@.len());
        }
        if its.len() == 0 {
            return None;
        }
        let at: usize = if self.item_sel < its.len() {
            self.item_sel
        } else {
            its.len() - 1
        };
        Some(its[at].clone())
    }

    /// The selected task, and the id of the checklist item under the cursor.
    fn target_item(&self) -> (r: Option<(String, String)>)
        requires
            self.wf(),
        ensures
            match r {
                Some((t, i)) => item_target(self@) == Some((t@, i@)),
                None => item_target(self@) is None,
            },
    {
        match self.item_of_cursor() {
            Some(it) => match (self.id_of_selected(), it.id) {
                (Some(t), Some(i)) => Some((t, i)),
                _ => None,
            },
            None => None,
        }
    }
}

// ---------------------------------------------------------------------------
// The item view
// ---------------------------------------------------------------------------

/// A key while a new checklist item is typed.
pub open spec fn creating_item_key(a: AppV, code: KeyCode) -> ReactionV {
    match code {
        KeyCode::Esc => turns(ChangeV::Item(ItemChangeV::EndCreate)),
        KeyCode::Enter => ReactionV {
            change: ChangeV::Item(ItemChangeV::EndCreate),
            action: match selected_id(a) {
                Some(id) => if text::trimmed(a.input).len() > 0 {
                    UiActionV::AddItem(id, text::trimmed(a.input))
                } else {
                    UiActionV::Nothing
                },
                None => UiActionV::Nothing,
            },
        },
        _ => turns(ChangeV::Input(typed(a.input, code))),
    }
}

/// A key while a checklist item is reworded.
pub open spec fn editing_item_key(a: AppV, code: KeyCode) -> ReactionV {
    match code {
        KeyCode::Esc => turns(ChangeV::Item(ItemChangeV::EndEdit)),
        KeyCode::Enter => ReactionV {
            change: ChangeV::Item(ItemChangeV::EndEdit),
            action: match item_target(a) {
                Some((id, item)) => if text::trimmed(a.input).len() > 0 {
                    UiActionV::EditItem(id, item, text::trimmed(a.input))
                } else {
                    UiActionV::Nothing
                },
                None => UiActionV::Nothing,
            },
        },
        _ => turns(ChangeV::Input(typed(a.input, code))),
    }
}

/// A key while the removal of a checklist item is to be confirmed: only `y` proceeds.
pub open spec fn deleting_item_key(a: AppV, code: KeyCode) -> ReactionV {
    ReactionV {
        change: ChangeV::Item(ItemChangeV::EndDelete),
        action: match item_target(a) {
            Some((id, item)) => if code == KeyCode::Char('y') {
                UiActionV::DeleteItem(id, item)
            } else {
                UiActionV::Nothing
            },
            None => UiActionV::Nothing,
        },
    }
}

/// A letter in the list of checklist items.
pub open spec fn item_letter(a: AppV, c: char) -> ReactionV {
    if c == 'h' || c == 'q' {
        turns(ChangeV::Item(ItemChangeV::Close))
    } else if c == 'j' {
        turns(ChangeV::Item(ItemChangeV::Select(down(a.item_sel, selected_items(a).len()))))
    } else if c == 'k' {
        turns(ChangeV::Item(ItemChangeV::Select(up(a.item_sel))))
    } else if c == ' ' {
        match item_target(a) {
            Some((id, item)) => does(UiActionV::ToggleItem(id, item)),
            None => idle(),
        }
    } else if c == 'n' {
        turns(ChangeV::Item(ItemChangeV::Create))
    } else if c == 'e' {
        match item_under(a) {
            Some(it) => turns(ChangeV::Item(ItemChangeV::Edit(it.text))),
            None => idle(),
        }
    } else if c == 'd' {
        if selected_items(a).len() > 0 {
            turns(ChangeV::Item(ItemChangeV::AskDelete))
        } else {
            idle()
        }
    } else {
        idle()
    }
}

/// A key in the list of checklist items.
pub open spec fn item_list_key(a: AppV, code: KeyCode) -> ReactionV {
    match code {
        KeyCode::Esc => turns(ChangeV::Item(ItemChangeV::Close)),
        KeyCode::Down => item_letter(a, 'j'),
        KeyCode::Up => item_letter(a, 'k'),
        KeyCode::Char(c) => item_letter(a, c),
        _ => idle(),
    }
}

/// A key in the item view.
pub open spec fn item_key(a: AppV, k: KeyEvent) -> ReactionV {
    if a.creating_item {
        creating_item_key(a, k.code)
    } else if a.editing_item {
        editing_item_key(a, k.code)
    } else if a.deleting_item {
        deleting_item_key(a, k.code)
    } else if is_ctrl_c(k) {
        does(UiActionV::Quit)
    } else {
        item_list_key(a, k.code)
    }
}

impl App {
    /// Text entry for a new checklist item (a sub-mode of the item view): Enter adds
    /// it, Esc cancels; everything else just edits `input`.
    fn on_creating_item(&self, code: KeyCode) -> (r: Reaction)
        requires
            self.wf(),
        ensures
            r@ == creating_item_key(self@, code),
    {
        match code {
            KeyCode::Esc => turn(Change::Item(ItemChange::EndCreate)),
            KeyCode::Enter => {
                let t = text::trim(&self.input);
                let action = match self.id_of_selected() {
                    Some(id) => if t.as_str().is_empty() {
                        UiAction::Nothing
                    } else {
                        UiAction::AddItem(id, t)
                    },
                    None => UiAction::Nothing,
                };
                Reaction { change: Change::Item(ItemChange::EndCreate), action }
            },
            _ => turn(Change::Input(type_key(&self.input, code))),
        }
    }

    /// Text entry for editing the selected item (prefilled with its text): Enter saves
    /// the reworded text, Esc cancels.
    fn on_editing_item(&self, code: KeyCode) -> (r: Reaction)
        requires
            self.wf(),
        ensures
            r@ == editing_item_key(self@, code),
    {
        match code {
            KeyCode::Esc => turn(Change::Item(ItemChange::EndEdit)),
            KeyCode::Enter => {
                let t = text::trim(&self.input);
                let action = match self.target_item() {
                    Some((id, item)) => if t.as_str().is_empty() {
                        UiAction::Nothing
                    } else {
                        UiAction::EditItem(id, item, t)
                    },
                    None => UiAction::Nothing,
                };
                Reaction { change: Change::Item(ItemChange::EndEdit), action }
            },
            _ => turn(Change::Input(type_key(&self.input, code))),
        }
    }

    /// Confirms a checklist-item delete: only `y` proceeds; else cancel.
    fn on_deleting_item(&self, code: KeyCode) -> (r: Reaction)
        requires
            self.wf(),
        ensures
            r@ == deleting_item_key(self@, code),
    {
        let action = match self.target_item() {
            Some((id, item)) => if code == KeyCode::Char('y') {
                UiAction::DeleteItem(id, item)
            } else {
                UiAction::Nothing
            },
            None => UiAction::Nothing,
        };
        Reaction { change: Change::Item(ItemChange::EndDelete), action }
    }

    /// A letter in the list of checklist items.
    fn on_item_letter(&self, c: char) -> (r: Reaction)
        requires
            self.wf(),
        ensures
            r@ == item_letter(self@, c),
    {
        let its = self.items_of_selected();
        proof {
            assert(selected_items(self@).len() == its@.len());
        }
        match c {
            'h' | 'q' => turn(Change::Item(ItemChange::Close)),
            'j' => turn(Change::Item(ItemChange::Select(move_down(self.item_sel, its.len())))),
            'k' => turn(Change::Item(ItemChange::Select(move_up(self.item_sel)))),
            ' ' => match self.target_item() {
                Some((id, item)) => act(UiAction::ToggleItem(id, item)),
                None => ignore(),
            },
            // add a new checklist item to the task's ## Tasks section
            'n' => turn(Change::Item(ItemChange::Create)),
            // edit the selected item's text (prefilled into the entry)
            'e' => match self.item_of_cursor() {
                Some(it) => turn(Change::Item(ItemChange::Edit(it.text))),
                None => ignore(),
            },
            // delete the selected item (confirm with y)
            'd' => if its.len() > 0 {
                turn(Change::Item(ItemChange::AskDelete))
            } else {
                ignore()
            },
            _ => ignore(),
        }
    }

    /// Drilled into the selected task's checklist items: j/k pick an item, space
    /// toggles its checkbox, the preview shows its Agent-Log entries. h/Esc/q step
    /// back out to the task list (Ctrl-c still quits).
    fn on_item_key(&self, key: KeyEvent) -> (r: Reaction)
        requires
            self.wf(),
        ensures
            r@ == item_key(self@, key),
    {
        if self.creating_item {
            return self.on_creating_item(key.code);
        }
        if self.editing_item {
            return self.on_editing_item(key.code);
        }
        if self.deleting_item {
            return self.on_deleting_item(key.code);
        }
        if key.code == KeyCode::Char('c') && key.ctrl {
            return act(UiAction::Quit);
        }
        match key.code {
            KeyCode::Esc => turn(Change::Item(ItemChange::Close)),
            KeyCode::Down => self.on_item_letter('j'),
            KeyCode::Up => self.on_item_letter('k'),
            KeyCode::Char(c) => self.on_item_letter(c),
            _ => ignore(),
        }
    }
}

// ---------------------------------------------------------------------------
// The worktree view
// ---------------------------------------------------------------------------

/// A key while the branch of a new worktree is typed.
pub open spec fn creating_worktree_key(a: AppV, code: KeyCode) -> ReactionV {
    match code {
        KeyCode::Esc => turns(ChangeV::Worktree(WorktreeChange::EndCreate)),
        KeyCode::Enter => ReactionV {
            change: ChangeV::Worktree(WorktreeChange::EndCreate),
            action: match a.worktree_anchor {
                Some(anchor) => if text::trimmed(a.input).len() > 0 {
                    UiActionV::AddWorktree(anchor, text::trimmed(a.input))
                } else {
                    UiActionV::Nothing
                },
                None => UiActionV::Nothing,
            },
        },
        _ => turns(ChangeV::Input(typed(a.input, code))),
    }
}

/// A key while the removal of a worktree is to be confirmed: only `y` proceeds, and
/// never on the main worktree.
pub open spec fn deleting_worktree_key(a: AppV, code: KeyCode) -> ReactionV {
    ReactionV {
        change: ChangeV::Worktree(WorktreeChange::EndDelete),
        action: match a.worktree_anchor {
            Some(anchor) => if code == KeyCode::Char('y') && a.worktree_sel < a.worktrees.len()
                && !a.worktrees[a.worktree_sel as int].is_main {
                UiActionV::DeleteWorktree(anchor, a.worktrees[a.worktree_sel as int].path)
            } else {
                UiActionV::Nothing
            },
            None => UiActionV::Nothing,
        },
    }
}

/// A letter on the worktree under the cursor.
pub open spec fn on_worktree_letter(a: AppV, c: char) -> ReactionV {
    let w = a.worktrees[a.worktree_sel as int];
    if a.worktree_sel >= a.worktrees.len() {
        idle()
    } else if c == 'd' {
        if w.is_main {
            says("can't remove the main worktree"@)
        } else {
            turns(ChangeV::Worktree(WorktreeChange::AskDelete))
        }
    } else if c == ' ' {
        if w.is_main {
            says("the main worktree can't be locked"@)
        } else {
            match a.worktree_anchor {
                Some(anchor) => does(UiActionV::LockWorktree(anchor, w.path, !w.locked)),
                None => idle(),
            }
        }
    } else {
        does(UiActionV::CopyDir(w.path))
    }
}

/// A letter in the list of worktrees.
pub open spec fn worktree_letter(a: AppV, c: char) -> ReactionV {
    if c == 'h' || c == 'q' {
        turns(ChangeV::Worktree(WorktreeChange::Close))
    } else if c == 'j' {
        turns(
            ChangeV::Worktree(WorktreeChange::Select(down(a.worktree_sel, a.worktrees.len()))),
        )
    } else if c == 'k' {
        turns(ChangeV::Worktree(WorktreeChange::Select(up(a.worktree_sel))))
    } else if c == 'n' {
        turns(ChangeV::Worktree(WorktreeChange::Create))
    } else if c == 'd' || c == ' ' || c == 'y' {
        on_worktree_letter(a, c)
    } else {
        idle()
    }
}

/// A key in the list of worktrees.
pub open spec fn worktree_list_key(a: AppV, code: KeyCode) -> ReactionV {
    match code {
        KeyCode::Esc => turns(ChangeV::Worktree(WorktreeChange::Close)),
        KeyCode::Down => worktree_letter(a, 'j'),
        KeyCode::Up => worktree_letter(a, 'k'),
        KeyCode::Char(c) => worktree_letter(a, c),
        _ => idle(),
    }
}

/// A key in the worktree view.
pub open spec fn worktree_key(a: AppV, k: KeyEvent) -> ReactionV {
    if a.creating_worktree {
        creating_worktree_key(a, k.code)
    } else if a.deleting_worktree {
        deleting_worktree_key(a, k.code)
    } else if is_ctrl_c(k) {
        does(UiActionV::Quit)
    } else {
        worktree_list_key(a, k.code)
    }
}

impl App {
    /// Branch-name entry for a new worktree (a sub-mode): Enter creates it, Esc
    /// cancels; everything else just edits `input`.
    fn on_creating_worktree(&self, code: KeyCode) -> (r: Reaction)
        ensures
            r@ == creating_worktree_key(self@, code),
    {
        match code {
            KeyCode::Esc => turn(Change::Worktree(WorktreeChange::EndCreate)),
            KeyCode::Enter => {
                let branch = text::trim(&self.input);
                let action = match &self.worktree_anchor {
                    Some(anchor) => if branch.as_str().is_empty() {
                        UiAction::Nothing
                    } else {
                        UiAction::AddWorktree(anchor.clone(), branch)
                    },
                    None => UiAction::Nothing,
                };
                Reaction { change: Change::Worktree(WorktreeChange::EndCreate), action }
            },
            _ => turn(Change::Input(type_key(&self.input, code))),
        }
    }

    /// Confirms a worktree remove: only `y` proceeds; else cancel. The main worktree
    /// is never a delete target.
    fn on_deleting_worktree(&self, code: KeyCode) -> (r: Reaction)
        ensures
            r@ == deleting_worktree_key(self@, code),
    {
        let action = match &self.worktree_anchor {
            Some(anchor) => if code == KeyCode::Char('y') && self.worktree_sel
                < self.worktrees.len() && !self.worktrees[self.worktree_sel].is_main {
                UiAction::DeleteWorktree(
                    anchor.clone(),
                    self.worktrees[self.worktree_sel].path.clone(),
                )
            } else {
                UiAction::Nothing
            },
            None => UiAction::Nothing,
        };
        Reaction { change: Change::Worktree(WorktreeChange::EndDelete), action }
    }

    /// A letter on the worktree under the cursor.
    fn on_worktree(&self, c: char) -> (r: Reaction)
        ensures
            r@ == on_worktree_letter(self@, c),
    {
        if self.worktree_sel >= self.worktrees.len() {
            return ignore();
        }
        let w = &self.worktrees[self.worktree_sel];
        if c == 'd' {
            // remove the selected worktree (confirm with y); never the main one
            if w.is_main {
                say("can't remove the main worktree")
            } else {
                turn(Change::Worktree(WorktreeChange::AskDelete))
            }
        } else if c == ' ' {
            // toggle the lock state of the selected worktree (not the main one)
            if w.is_main {
                say("the main worktree can't be locked")
            } else {
                match &self.worktree_anchor {
                    Some(anchor) => act(
                        UiAction::LockWorktree(anchor.clone(), w.path.clone(), !w.locked),
                    ),
                    None => ignore(),
                }
            }
        } else {
            // copy the selected worktree's path to the clipboard
            act(UiAction::CopyDir(w.path.clone()))
        }
    }

    /// A letter in the list of worktrees.
    fn on_worktree_list(&self, c: char) -> (r: Reaction)
        ensures
            r@ == worktree_letter(self@, c),
    {
        proof {
            assert(self@.worktrees.len() == self.worktrees@.len());
        }
        match c {
            'h' | 'q' => turn(Change::Worktree(WorktreeChange::Close)),
            'j' => turn(
                Change::Worktree(
                    WorktreeChange::Select(move_down(self.worktree_sel, self.worktrees.len())),
                ),
            ),
            'k' => turn(Change::Worktree(WorktreeChange::Select(move_up(self.worktree_sel)))),
            // add a worktree (prompts for a branch name)
            'n' => turn(Change::Worktree(WorktreeChange::Create)),
            'd' | ' ' | 'y' => self.on_worktree(c),
            _ => ignore(),
        }
    }

    /// Drilled into the focused project's git worktrees: j/k pick one, n adds a
    /// worktree, space locks/unlocks it, d removes it, y copies its path; h/Esc/q step
    /// back out to the task list (Ctrl-c still quits).
    fn on_worktrees_key(&self, key: KeyEvent) -> (r: Reaction)
        ensures
            r@ == worktree_key(self@, key),
    {
        if self.creating_worktree {
            return self.on_creating_worktree(key.code);
        }
        if self.deleting_worktree {
            return self.on_deleting_worktree(key.code);
        }
        if key.code == KeyCode::Char('c') && key.ctrl {
            return act(UiAction::Quit);
        }
        match key.code {
            KeyCode::Esc => turn(Change::Worktree(WorktreeChange::Close)),
            KeyCode::Down => self.on_worktree_list('j'),
            KeyCode::Up => self.on_worktree_list('k'),
            KeyCode::Char(c) => self.on_worktree_list(c),
            _ => ignore(),
        }
    }
}

// ---------------------------------------------------------------------------
// Prompts
// ---------------------------------------------------------------------------

/// A key while the title of a new task is typed.
pub open spec fn creating_key(a: AppV, code: KeyCode) -> ReactionV {
    match code {
        KeyCode::Esc => turns(ChangeV::List(ListChangeV::EndCreate)),
        KeyCode::Enter => ReactionV {
            change: ChangeV::List(ListChangeV::EndCreate),
            action: if text::trimmed(a.input).len() > 0 {
                UiActionV::New(text::trimmed(a.input))
            } else {
                UiActionV::Nothing
            },
        },
        _ => turns(ChangeV::Input(typed(a.input, code))),
    }
}

/// The status that a key names.
pub open spec fn move_target(code: KeyCode) -> Option<Status> {
    if code == KeyCode::Char('i') {
        Some(Status::Inbox)
    } else if code == KeyCode::Char('a') {
        Some(Status::Active)
    } else if code == KeyCode::Char('d') {
        Some(Status::Done)
    } else if code == KeyCode::Char('c') {
        Some(Status::Canceled)
    } else {
        None
    }
}

/// A key while a target state is picked; any other key cancels.
pub open spec fn moving_key(a: AppV, code: KeyCode) -> ReactionV {
    match (move_target(code), app::selected_row(a)) {
        (Some(to), Some(t)) => if t.status == to {
            turns(ChangeV::EndMove("already "@ + to.name()))
        } else {
            ReactionV {
                change: ChangeV::EndAsk(Question::Move),
                action: UiActionV::Move(t.id, to),
            }
        },
        _ => turns(ChangeV::EndAsk(Question::Move)),
    }
}

/// A key while the removal of a task is to be confirmed: only `y` proceeds.
pub open spec fn deleting_key(a: AppV, code: KeyCode) -> ReactionV {
    ReactionV {
        change: ChangeV::EndAsk(Question::Delete),
        action: match selected_id(a) {
            Some(id) => if code == KeyCode::Char('y') {
                UiActionV::Delete(id)
            } else {
                UiActionV::Nothing
            },
            None => UiActionV::Nothing,
        },
    }
}

/// The start mode that a key names.
pub open spec fn mode_of(code: KeyCode) -> Option<StartMode> {
    if code == KeyCode::Char('s') {
        Some(StartMode::Single)
    } else if code == KeyCode::Char('w') {
        Some(StartMode::Worktree)
    } else if code == KeyCode::Char('b') {
        Some(StartMode::Branch)
    } else {
        None
    }
}

/// A key while a start mode is picked; any other key cancels.
pub open spec fn starting_key(a: AppV, code: KeyCode) -> ReactionV {
    ReactionV {
        change: ChangeV::EndAsk(Question::Start),
        action: match (mode_of(code), selected_id(a)) {
            (Some(mode), Some(id)) => UiActionV::Start(id, mode),
            _ => UiActionV::Nothing,
        },
    }
}

/// A key while it is picked how to back a pull request; any other key cancels.
pub open spec fn pring_key(a: AppV, code: KeyCode) -> ReactionV {
    ReactionV {
        change: ChangeV::EndAsk(Question::Pr),
        action: match selected_id(a) {
            Some(id) => if code == KeyCode::Char('w') {
                UiActionV::CreatePr(id, true)
            } else if code == KeyCode::Char('b') {
                UiActionV::CreatePr(id, false)
            } else {
                UiActionV::Nothing
            },
            None => UiActionV::Nothing,
        },
    }
}

/// The agent that a key names.
pub open spec fn agent_key(code: KeyCode) -> Option<Agent> {
    if code == KeyCode::Char('c') {
        Some(Agent::Claude)
    } else if code == KeyCode::Char('x') {
        Some(Agent::Codex)
    } else if code == KeyCode::Char('o') {
        Some(Agent::Opencode)
    } else {
        None
    }
}

/// A key while the run agent of a project is picked; any other key cancels.
pub open spec fn choosing_key(a: AppV, code: KeyCode) -> ReactionV {
    ReactionV {
        change: ChangeV::EndAsk(Question::Agent),
        action: match (agent_key(code), selected_id(a)) {
            (Some(agent), Some(id)) => UiActionV::SetAgent(id, agent),
            _ => UiActionV::Nothing,
        },
    }
}

/// The board that the cursor of the issue picker is on: none in its first row.
pub open spec fn picked_board(a: AppV) -> Option<Seq<char>> {
    if a.issue_sel == 0 || a.issue_sel > a.issue_projects.len() {
        None
    } else {
        Some(a.issue_projects[a.issue_sel - 1])
    }
}

/// A key in the issue→project picker.
pub open spec fn issuing_key(a: AppV, code: KeyCode) -> ReactionV {
    if code == KeyCode::Esc || code == KeyCode::Char('q') {
        turns(ChangeV::Pick(PickChangeV::EndIssue))
    } else if code == KeyCode::Char('j') || code == KeyCode::Down {
        turns(
            ChangeV::Pick(
                PickChangeV::IssueRow(down(a.issue_sel, a.issue_projects.len() + 1)),
            ),
        )
    } else if code == KeyCode::Char('k') || code == KeyCode::Up {
        turns(ChangeV::Pick(PickChangeV::IssueRow(up(a.issue_sel))))
    } else if code == KeyCode::Enter {
        ReactionV {
            change: ChangeV::Pick(PickChangeV::EndIssue),
            action: match a.issue_target {
                Some(id) => UiActionV::IssueWithProject(id, picked_board(a)),
                None => UiActionV::Nothing,
            },
        }
    } else {
        idle()
    }
}

/// The project that the cursor of the project picker is on: none in its first row.
pub open spec fn picked_project(a: AppV) -> Option<Seq<char>> {
    let ps = app::projects_of_app(a);
    if a.project_sel == 0 || a.project_sel > ps.len() {
        None
    } else {
        Some(ps[a.project_sel - 1])
    }
}

/// A key in the project picker.
pub open spec fn picking_key(a: AppV, code: KeyCode) -> ReactionV {
    if code == KeyCode::Esc || code == KeyCode::Char('q') {
        turns(ChangeV::Pick(PickChangeV::EndProjects))
    } else if code == KeyCode::Char('j') || code == KeyCode::Down {
        turns(
            ChangeV::Pick(
                PickChangeV::ProjectRow(
                    down(a.project_sel, app::projects_of_app(a).len() + 1),
                ),
            ),
        )
    } else if code == KeyCode::Char('k') || code == KeyCode::Up {
        turns(ChangeV::Pick(PickChangeV::ProjectRow(up(a.project_sel))))
    } else if code == KeyCode::Enter {
        turns(ChangeV::Pick(PickChangeV::Scope(picked_project(a))))
    } else {
        idle()
    }
}

/// A key while the filter is typed.
pub open spec fn filtering_key(a: AppV, code: KeyCode) -> ReactionV {
    match code {
        KeyCode::Esc => turns(ChangeV::List(ListChangeV::CancelFilter)),
        KeyCode::Enter => turns(ChangeV::List(ListChangeV::EndFilter)),
        KeyCode::Char(_) => turns(ChangeV::List(ListChangeV::Filtered(typed(a.filter, code)))),
        _ => turns(ChangeV::List(ListChangeV::Unfiltered(typed(a.filter, code)))),
    }
}

/// A cursor one further down a list with one row more than there are entries.
fn move_down_past(sel: usize, len: usize) -> (r: usize)
    ensures
        r == down(sel, (len + 1) as nat),
{
    if sel < len {
        sel + 1
    } else {
        len
    }
}

impl App {
    /// Text entry for a new task title.
    fn on_creating(&self, code: KeyCode) -> (r: Reaction)
        ensures
            r@ == creating_key(self@, code),
    {
        match code {
            KeyCode::Esc => turn(Change::List(ListChange::EndCreate)),
            KeyCode::Enter => {
                let title = text::trim(&self.input);
                let action = if title.as_str().is_empty() {
                    UiAction::Nothing
                } else {
                    UiAction::New(title)
                };
                Reaction { change: Change::List(ListChange::EndCreate), action }
            },
            _ => turn(Change::Input(type_key(&self.input, code))),
        }
    }

    /// Picks a target state for the selected task; any other key cancels.
    fn on_moving(&self, code: KeyCode) -> (r: Reaction)
        requires
            self.wf(),
        ensures
            r@ == moving_key(self@, code),
    {
        let to = match code {
            KeyCode::Char('i') => Status::Inbox,
            KeyCode::Char('a') => Status::Active,
            KeyCode::Char('d') => Status::Done,
            KeyCode::Char('c') => Status::Canceled,
            _ => {
                return turn(Change::EndAsk(Question::Move));
            },
        };
        match self.selected_task() {
            Some(t) => {
                if t.status == to {
                    let mut m = String::from_str("already ");
                    m.append(to.as_str());
                    turn(Change::EndMove(m))
                } else {
                    Reaction {
                        change: Change::EndAsk(Question::Move),
                        action: UiAction::Move(t.id.clone(), to),
                    }
                }
            },
            None => turn(Change::EndAsk(Question::Move)),
        }
    }

    /// Confirms a destructive delete: only `y` proceeds; any other key cancels.
    fn on_deleting(&self, code: KeyCode) -> (r: Reaction)
        requires
            self.wf(),
        ensures
            r@ == deleting_key(self@, code),
    {
        let action = match self.id_of_selected() {
            Some(id) => if code == KeyCode::Char('y') {
                UiAction::Delete(id)
            } else {
                UiAction::Nothing
            },
            None => UiAction::Nothing,
        };
        Reaction { change: Change::EndAsk(Question::Delete), action }
    }

    /// Picks how to claim the task: single / worktree / branch; any other key cancels.
    fn on_starting(&self, code: KeyCode) -> (r: Reaction)
        requires
            self.wf(),
        ensures
            r@ == starting_key(self@, code),
    {
        let mode = match code {
            KeyCode::Char('s') => Some(StartMode::Single),
            KeyCode::Char('w') => Some(StartMode::Worktree),
            KeyCode::Char('b') => Some(StartMode::Branch),
            _ => None,
        };
        let action = match (mode, self.id_of_selected()) {
            (Some(mode), Some(id)) => UiAction::Start(id, mode),
            _ => UiAction::Nothing,
        };
        Reaction { change: Change::EndAsk(Question::Start), action }
    }

    /// Picks how to back the PR: a worktree (under the store) or a main-repo branch;
    /// any other key cancels.
    fn on_pring(&self, code: KeyCode) -> (r: Reaction)
        requires
            self.wf(),
        ensures
            r@ == pring_key(self@, code),
    {
        let action = match self.id_of_selected() {
            Some(id) => match code {
                KeyCode::Char('w') => UiAction::CreatePr(id, true),
                KeyCode::Char('b') => UiAction::CreatePr(id, false),
                _ => UiAction::Nothing,
            },
            None => UiAction::Nothing,
        };
        Reaction { change: Change::EndAsk(Question::Pr), action }
    }

    /// Picks the run agent of the selected task's project; any other key cancels.
    fn on_choosing(&self, code: KeyCode) -> (r: Reaction)
        requires
            self.wf(),
        ensures
            r@ == choosing_key(self@, code),
    {
        let agent = match code {
            KeyCode::Char('c') => Some(Agent::Claude),
            KeyCode::Char('x') => Some(Agent::Codex),
            KeyCode::Char('o') => Some(Agent::Opencode),
            _ => None,
        };
        let action = match (agent, self.id_of_selected()) {
            (Some(agent), Some(id)) => UiAction::SetAgent(id, agent),
            _ => UiAction::Nothing,
        };
        Reaction { change: Change::EndAsk(Question::Agent), action }
    }

    /// The board that the cursor of the issue picker is on.
    fn board(&self) -> (r: Option<String>)
        ensures
            text::opt_view(r) == picked_board(self@),
    {
        proof {
            assert(self@.issue_projects.len() == self.issue_projects@.len());
        }
        if self.issue_sel == 0 || self.issue_sel > self.issue_projects.len() {
            None
        } else {
            Some(self.issue_projects[self.issue_sel - 1].clone())
        }
    }

    /// Optional issue→project picker: row 0 files no project, rows 1.. each file onto
    /// that board; Esc cancels issue creation entirely.
    fn on_issuing(&self, code: KeyCode) -> (r: Reaction)
        ensures
            r@ == issuing_key(self@, code),
    {
        proof {
            assert(self@.issue_projects.len() == self.issue_projects@.len());
        }
        match code {
            KeyCode::Esc | KeyCode::Char('q') => turn(Change::Pick(PickChange::EndIssue)),
            KeyCode::Char('j') | KeyCode::Down => turn(
                Change::Pick(
                    PickChange::IssueRow(
                        move_down_past(self.issue_sel, self.issue_projects.len()),
                    ),
                ),
            ),
            KeyCode::Char('k') | KeyCode::Up => turn(
                Change::Pick(PickChange::IssueRow(move_up(self.issue_sel))),
            ),
            KeyCode::Enter => {
                let action = match &self.issue_target {
                    Some(id) => UiAction::IssueWithProject(id.clone(), self.board()),
                    None => UiAction::Nothing,
                };
                Reaction { change: Change::Pick(PickChange::EndIssue), action }
            },
            _ => ignore(),
        }
    }

    /// Hierarchical project level: picks which project scopes the task list.
    fn on_picking(&self, code: KeyCode) -> (r: Reaction)
        ensures
            r@ == picking_key(self@, code),
    {
        let ps = self.project_list();
        proof {
            assert(app::projects_of_app(self@).len() == ps@.len());
        }
        match code {
            KeyCode::Esc | KeyCode::Char('q') => turn(Change::Pick(PickChange::EndProjects)),
            KeyCode::Char('j') | KeyCode::Down => turn(
                Change::Pick(
                    PickChange::ProjectRow(move_down_past(self.project_sel, ps.len())),
                ),
            ),
            KeyCode::Char('k') | KeyCode::Up => turn(
                Change::Pick(PickChange::ProjectRow(move_up(self.project_sel))),
            ),
            KeyCode::Enter => {
                let scope = if self.project_sel == 0 || self.project_sel > ps.len() {
                    None
                } else {
                    Some(ps[self.project_sel - 1].clone())
                };
                turn(Change::Pick(PickChange::Scope(scope)))
            },
            _ => ignore(),
        }
    }

    /// Text entry for the filter.
    fn on_filtering(&self, code: KeyCode) -> (r: Reaction)
        ensures
            r@ == filtering_key(self@, code),
    {
        match code {
            KeyCode::Esc => turn(Change::List(ListChange::CancelFilter)),
            KeyCode::Enter => turn(Change::List(ListChange::EndFilter)),
            KeyCode::Char(_) => turn(
                Change::List(ListChange::Filtered(type_key(&self.filter, code))),
            ),
            _ => turn(Change::List(ListChange::Unfiltered(type_key(&self.filter, code)))),
        }
    }
}

// ---------------------------------------------------------------------------
// The task list
// ---------------------------------------------------------------------------

/// Where a name is in a list.
pub open spec fn position_in(names: Seq<Seq<char>>, name: Seq<char>, i: int) -> Option<int>
    decreases names.len() - i,
{
    if i < 0 || i >= names.len() {
        None
    } else if names[i] == name {
        Some(i)
    } else {
        position_in(names, name, i + 1)
    }
}

/// The row of the project picker that the scope is in.
pub open spec fn scope_row(a: AppV) -> usize {
    match a.project_scope {
        None => 0,
        Some(p) => match position_in(app::projects_of_app(a), p, 0) {
            Some(i) => (i + 1) as usize,
            None => 0,
        },
    }
}

/// A task that has not ended.
pub open spec fn is_ongoing(t: TaskRowV) -> bool {
    t.status == Status::Inbox || t.status == Status::Active
}

/// A letter that acts on the selected task.
pub open spec fn task_key(t: TaskRowV, c: char) -> ReactionV {
    if c == 'l' {
        if shown_items(t.body).len() > 0 {
            turns(ChangeV::Item(ItemChangeV::Open))
        } else {
            says("no checklist items in the task"@)
        }
    } else if c == 'm' {
        turns(ChangeV::Ask(Question::Move))
    } else if c == 's' {
        if t.status == Status::Inbox {
            turns(ChangeV::Ask(Question::Start))
        } else {
            says("only inbox tasks can be started (use m to move)"@)
        }
    } else if c == 'd' {
        if is_ongoing(t) {
            does(UiActionV::Done(t.id))
        } else {
            says("task is already finished (use m to reopen)"@)
        }
    } else if c == 'D' {
        turns(ChangeV::Ask(Question::Delete))
    } else if c == 'i' {
        if t.github_issue is Some {
            does(UiActionV::PushIssue(t.id))
        } else {
            does(UiActionV::Issue(t.id))
        }
    } else if c == 'y' {
        match row::dir_of_row(t) {
            Some(dir) => does(UiActionV::CopyDir(dir)),
            None => says("no working directory known for the task"@),
        }
    } else if c == 'x' {
        if t.status == Status::Active {
            does(UiActionV::Run(t.id))
        } else {
            says("only active tasks can run (start it first)"@)
        }
    } else if c == 'a' {
        does(UiActionV::AttachRun(t.id))
    } else if c == 'L' {
        if row::is_live(t.run_state) {
            does(UiActionV::ShowLog(t.id))
        } else {
            says("no run is going on"@)
        }
    } else if c == 'A' {
        turns(ChangeV::Ask(Question::Agent))
    } else if c == 'S' {
        if shown_items(t.body).len() > 0 {
            does(UiActionV::Summary(t.id))
        } else {
            says("no checklist items to summarize"@)
        }
    } else if c == 'p' || c == 'r' {
        if t.github_pr is Some {
            does(UiActionV::PushPr(t.id))
        } else if !is_ongoing(t) {
            says("only inbox/active tasks can open a PR"@)
        } else if t.branch is Some {
            does(UiActionV::CreatePr(t.id, false))
        } else {
            turns(ChangeV::Ask(Question::Pr))
        }
    } else {
        does(UiActionV::Worktrees(t.id))
    }
}

/// A letter that acts on the selected task.
pub open spec fn is_task_letter(c: char) -> bool {
    c == 'l' || c == 'm' || c == 's' || c == 'd' || c == 'D' || c == 'i' || c == 'y' || c == 'x'
        || c == 'a' || c == 'L' || c == 'A' || c == 'S' || c == 'p' || c == 'r' || c == 'w'
}

/// A letter whose effect without a selected task goes unsaid.
pub open spec fn is_silent(c: char) -> bool {
    c == 's' || c == 'd' || c == 'x'
}

/// A letter in the task list.
pub open spec fn letter_key(a: AppV, c: char, ctrl: bool) -> ReactionV {
    if c == 'q' || (c == 'c' && ctrl) {
        does(UiActionV::Quit)
    } else if c == 'j' {
        turns(ChangeV::List(ListChangeV::Select(down(a.selected, app::visible_of(a).len()))))
    } else if c == 'k' {
        turns(ChangeV::List(ListChangeV::Select(up(a.selected))))
    } else if c == '/' {
        turns(ChangeV::List(ListChangeV::Filter))
    } else if c == 'P' {
        turns(ChangeV::Pick(PickChangeV::OpenProjects(scope_row(a))))
    } else if c == 'n' {
        turns(ChangeV::List(ListChangeV::Create))
    } else if is_task_letter(c) {
        match app::selected_row(a) {
            Some(t) => task_key(t, c),
            None => if is_silent(c) {
                idle()
            } else {
                says("no task selected"@)
            },
        }
    } else {
        idle()
    }
}

/// The next tab.
pub open spec fn next_tab(tab: usize) -> usize {
    if tab + 1 < app::TAB_COUNT {
        (tab + 1) as usize
    } else {
        0
    }
}

/// A key in the task list.
pub open spec fn list_key(a: AppV, k: KeyEvent) -> ReactionV {
    match k.code {
        KeyCode::Char(c) => letter_key(a, c, k.ctrl),
        KeyCode::Down => letter_key(a, 'j', false),
        KeyCode::Up => letter_key(a, 'k', false),
        KeyCode::Tab => turns(ChangeV::List(ListChangeV::Tab(next_tab(a.tab)))),
        KeyCode::Esc => turns(ChangeV::List(ListChangeV::DropFilter)),
        KeyCode::Enter => match app::selected_row(a) {
            Some(t) => does(UiActionV::Edit(t.path)),
            None => idle(),
        },
        _ => idle(),
    }
}

/// A letter that acts on a task.
fn on_task_letter(t: &TaskRow, c: char) -> (r: Reaction)
    requires
        is_task_letter(c),
    ensures
        r@ == task_key(t@, c),
{
    let ongoing = match t.status {
        Status::Inbox | Status::Active => true,
        _ => false,
    };
    match c {
        // drill into the task's checklist items (item list + per-item log)
        'l' => {
            let its = task_items(&t.body);
            assert(shown_items(t@.body).len() == its@.len());
            if its.len() == 0 {
                say("no checklist items in the task")
            } else {
                turn(Change::Item(ItemChange::Open))
            }
        },
        'm' => turn(Change::Ask(Question::Move)),
        's' => if t.status == Status::Inbox {
            turn(Change::Ask(Question::Start))
        } else {
            say("only inbox tasks can be started (use m to move)")
        },
        'd' => if ongoing {
            act(UiAction::Done(t.id.clone()))
        } else {
            say("task is already finished (use m to reopen)")
        },
        'D' => turn(Change::Ask(Question::Delete)),
        // already has an issue → push the managed section to it; otherwise
        // begin creating one (the event loop offers an optional project picker)
        'i' => if t.github_issue.is_some() {
            act(UiAction::PushIssue(t.id.clone()))
        } else {
            act(UiAction::Issue(t.id.clone()))
        },
        // yank the task's working directory (worktree, else the main repo)
        'y' => match t.work_dir() {
            Some(dir) => act(UiAction::CopyDir(dir)),
            None => say("no working directory known for the task"),
        },
        'x' => if t.status == Status::Active {
            act(UiAction::Run(t.id.clone()))
        } else {
            say("only active tasks can run (start it first)")
        },
        'a' => act(UiAction::AttachRun(t.id.clone())),
        'L' => if t.is_running() {
            act(UiAction::ShowLog(t.id.clone()))
        } else {
            say("no run is going on")
        },
        'A' => turn(Change::Ask(Question::Agent)),
        // summarize the task's checklist items into a title + Goal via the
        // configured LLM (the same `rein summary` path); needs items to work
        'S' => {
            let its = task_items(&t.body);
            assert(shown_items(t@.body).len() == its@.len());
            if its.len() == 0 {
                say("no checklist items to summarize")
            } else {
                act(UiAction::Summary(t.id.clone()))
            }
        },
        'p' | 'r' => if t.github_pr.is_some() {
            // already has a PR → push the managed section to it
            act(UiAction::PushPr(t.id.clone()))
        } else if !ongoing {
            say("only inbox/active tasks can open a PR")
        } else if t.branch.is_some() {
            // a task already backed by a worktree/branch reuses it, so the
            // w/b choice would be ignored — skip the prompt and open the PR.
            // only ask when there's nothing set up yet (fresh inbox/active).
            act(UiAction::CreatePr(t.id.clone(), false))
        } else {
            turn(Change::Ask(Question::Pr))
        },
        // drill into the selected task's project's git worktrees (the
        // event loop lists them and opens the view)
        _ => act(UiAction::Worktrees(t.id.clone())),
    }
}

impl App {
    /// The row of the project picker that the scope is in.
    fn row_of_scope(&self) -> (r: usize)
        ensures
            r == scope_row(self@),
    {
        match &self.project_scope {
            None => 0,
            Some(p) => {
                let ps = self.project_list();
                let ghost all = text::views(ps@);
                let mut i: usize = 0;
                while i < ps.len()
                    invariant
                        0 <= i <= ps.len(),
                        all == text::views(ps@),
                        all == app::projects_of_app(self@),
                        self@.project_scope == Some(p@),
                        position_in(all, p@, 0) == position_in(all, p@, i as int),
                    decreases ps.len() - i,
                {
                    if text::same(&ps[i], p) {
                        return i + 1;
                    }
                    i += 1;
                }
                0
            },
        }
    }

    /// A letter in the task list.
    fn on_letter(&self, c: char, ctrl: bool) -> (r: Reaction)
        requires
            self.wf(),
        ensures
            r@ == letter_key(self@, c, ctrl),
    {
        if c == 'q' || (c == 'c' && ctrl) {
            return act(UiAction::Quit);
        }
        match c {
            'j' => {
                let vis = self.visible();
                proof {
                    assert(app::visible_of(self@).len() == vis@.len());
                }
                turn(Change::List(ListChange::Select(move_down(self.selected, vis.len()))))
            },
            'k' => turn(Change::List(ListChange::Select(move_up(self.selected)))),
            '/' => turn(Change::List(ListChange::Filter)),
            // open the project level with the cursor on the current scope
            'P' => turn(Change::Pick(PickChange::OpenProjects(self.row_of_scope()))),
            'n' => turn(Change::List(ListChange::Create)),
            'l' | 'm' | 's' | 'd' | 'D' | 'i' | 'y' | 'x' | 'a' | 'L' | 'A' | 'S' | 'p' | 'r'
            | 'w' => match self.selected_task() {
                Some(t) => on_task_letter(t, c),
                None => if c == 's' || c == 'd' || c == 'x' {
                    ignore()
                } else {
                    say("no task selected")
                },
            },
            _ => ignore(),
        }
    }

    /// A key in the task list.
    fn on_list_key(&self, key: KeyEvent) -> (r: Reaction)
        requires
            self.wf(),
        ensures
            r@ == list_key(self@, key),
    {
        match key.code {
            KeyCode::Char(c) => self.on_letter(c, key.ctrl),
            KeyCode::Down => self.on_letter('j', false),
            KeyCode::Up => self.on_letter('k', false),
            KeyCode::Tab => {
                let next: usize = if self.tab + 1 < app::TAB_COUNT {
                    self.tab + 1
                } else {
                    0
                };
                turn(Change::List(ListChange::Tab(next)))
            },
            KeyCode::Esc => turn(Change::List(ListChange::DropFilter)),
            KeyCode::Enter => match self.selected_task() {
                Some(t) => act(UiAction::Edit(t.path.clone())),
                None => ignore(),
            },
            _ => ignore(),
        }
    }
}

// ---------------------------------------------------------------------------
// All keys
// ---------------------------------------------------------------------------

/// How the dashboard reacts to a key where no overlay is up.
#[verifier::opaque]
pub open spec fn mode_key(a: AppV, k: KeyEvent) -> ReactionV {
    if a.viewing_items {
        item_key(a, k)
    } else if a.viewing_worktrees {
        worktree_key(a, k)
    } else if a.creating {
        creating_key(a, k.code)
    } else if a.moving {
        moving_key(a, k.code)
    } else if a.deleting {
        deleting_key(a, k.code)
    } else if a.starting {
        starting_key(a, k.code)
    } else if a.pring {
        pring_key(a, k.code)
    } else if a.choosing_agent {
        choosing_key(a, k.code)
    } else if a.issuing {
        issuing_key(a, k.code)
    } else if a.picking_project {
        picking_key(a, k.code)
    } else if a.filtering {
        filtering_key(a, k.code)
    } else {
        list_key(a, k)
    }
}

/// An overlay takes every key.
pub open spec fn is_covered(a: AppV) -> bool {
    a.summarizing is Some || a.force_push is Some || a.popup is Some
}

/// How the dashboard reacts to a key that an overlay takes: a running summary
/// swallows it, the offer to overwrite a remote body takes `f` for yes and any other
/// key for no, and any key dismisses a modal text. Ctrl-c quits all the same.
pub open spec fn overlay_key(a: AppV, k: KeyEvent) -> ReactionV {
    if a.summarizing is Some {
        if is_ctrl_c(k) {
            does(UiActionV::Quit)
        } else {
            idle()
        }
    } else {
        match a.force_push {
            Some(fp) => if is_ctrl_c(k) {
                does(UiActionV::Quit)
            } else if k.code == KeyCode::Char('f') {
                ReactionV {
                    change: ChangeV::DropOffer,
                    action: UiActionV::ForcePush(fp.task_id, fp.surface),
                }
            } else {
                turns(ChangeV::DeclineOffer)
            },
            None => turns(ChangeV::DropPopup),
        }
    }
}

/// The dashboard with its message cleared: a status message (e.g. "ok" after an
/// action) is transient.
pub open spec fn quiet(a: AppV) -> AppV {
    AppV { message: seq![], ..a }
}

/// The dashboard after a key.
pub open spec fn after_key(a: AppV, k: KeyEvent) -> AppV {
    if !k.press {
        a
    } else if is_covered(a) {
        change::changed(a, overlay_key(a, k).change)
    } else {
        change::changed(quiet(a), mode_key(quiet(a), k).change)
    }
}

/// What a key asks for.
pub open spec fn key_action(a: AppV, k: KeyEvent) -> UiActionV {
    if !k.press {
        UiActionV::Nothing
    } else if is_covered(a) {
        overlay_key(a, k).action
    } else {
        mode_key(quiet(a), k).action
    }
}

impl App {
    /// How the dashboard reacts to a key where no overlay is up.
    fn react(&self, key: KeyEvent) -> (r: Reaction)
        requires
            self.wf(),
        ensures
            r@ == mode_key(self@, key),
    {
        proof {
            reveal(mode_key);
        }
        if self.viewing_items {
            self.on_item_key(key)
        } else if self.viewing_worktrees {
            self.on_worktrees_key(key)
        } else if self.creating {
            self.on_creating(key.code)
        } else if self.moving {
            self.on_moving(key.code)
        } else if self.deleting {
            self.on_deleting(key.code)
        } else if self.starting {
            self.on_starting(key.code)
        } else if self.pring {
            self.on_pring(key.code)
        } else if self.choosing_agent {
            self.on_choosing(key.code)
        } else if self.issuing {
            self.on_issuing(key.code)
        } else if self.picking_project {
            self.on_picking(key.code)
        } else if self.filtering {
            self.on_filtering(key.code)
        } else {
            self.on_list_key(key)
        }
    }

    /// How the dashboard reacts to a key that an overlay takes.
    fn react_covered(&self, key: KeyEvent) -> (r: Reaction)
        ensures
            r@ == overlay_key(self@, key),
    {
        let ctrl_c = key.code == KeyCode::Char('c') && key.ctrl;
        // a summary is running on a worker thread: swallow keys (so a second `S`
        // or a conflicting action can't fire mid-run) but still honor Ctrl-c so
        // the user is never trapped waiting on a slow LLM
        if self.summarizing.is_some() {
            return if ctrl_c {
                act(UiAction::Quit)
            } else {
                ignore()
            };
        }
        // a sync conflict armed a force-push offer: `f` overwrites the remote
        // with the local copy, any other key cancels (Ctrl-c still quits)
        match &self.force_push {
            Some(fp) => if ctrl_c {
                act(UiAction::Quit)
            } else if key.code == KeyCode::Char('f') {
                Reaction {
                    change: Change::DropOffer,
                    action: UiAction::ForcePush(fp.task_id.clone(), fp.surface),
                }
            } else {
                turn(Change::DeclineOffer)
            },
            // a modal error overlay swallows the next key (any key dismisses it)
            None => turn(Change::DropPopup),
        }
    }

    /// What a key does.
    pub fn on_key(&mut self, key: KeyEvent) -> (r: UiAction)
        requires
            old(self).wf(),
        ensures
            final(self).wf(),
            final(self)@ == after_key(old(self)@, key),
            r@ == key_action(old(self)@, key),
    {
        if !key.press {
            return UiAction::Nothing;
        }
        if self.summarizing.is_some() || self.force_push.is_some() || self.popup.is_some() {
            let reaction = self.react_covered(key);
            self.apply(reaction.change);
            assert(self.tab == self@.tab);
            return reaction.action;
        }
        // a status message is transient: any fresh key press clears it so the
        // keybinding hint comes back
        self.tell(String::new());
        assert(self.tab == self@.tab);
        let reaction = self.react(key);
        proof {
            lemma_tabs_stay(self@, key);
        }
        self.apply(reaction.change);
        assert(self.tab == self@.tab);
        reaction.action
    }
}

/// No reaction leaves the tabs.
proof fn lemma_tabs_stay(a: AppV, k: KeyEvent)
    requires
        a.tab < app::TAB_COUNT,
    ensures
        change::changed(a, mode_key(a, k).change).tab < app::TAB_COUNT,
{
    reveal(mode_key);
}

} // verus!
