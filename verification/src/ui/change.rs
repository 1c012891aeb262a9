//! How the dashboard changes.
use crate::text;
use crate::ui::app::{App, AppV};
use vstd::prelude::*;
use vstd::string::*;

verus! {

// ---------------------------------------------------------------------------
// The item view
// ---------------------------------------------------------------------------

/// A change of the item view.
#[derive(Debug)]
pub enum ItemChange {
    /// Drill into the checklist items.
    Open,
    Close,
    Select(usize),
    /// Start to type a new item.
    Create,
    EndCreate,
    /// Start to reword an item, from its text.
    Edit(String),
    EndEdit,
    /// Ask whether to delete an item.
    AskDelete,
    EndDelete,
}

/// What an [`ItemChange`] stands for.
pub enum ItemChangeV {
    Open,
    Close,
    Select(usize),
    Create,
    EndCreate,
    Edit(Seq<char>),
    EndEdit,
    AskDelete,
    EndDelete,
}

impl View for ItemChange {
    type V = ItemChangeV;

    open spec fn view(&self) -> ItemChangeV {
        match self {
            ItemChange::Open => ItemChangeV::Open,
            ItemChange::Close => ItemChangeV::Close,
            ItemChange::Select(n) => ItemChangeV::Select(*n),
            ItemChange::Create => ItemChangeV::Create,
            ItemChange::EndCreate => ItemChangeV::EndCreate,
            ItemChange::Edit(t) => ItemChangeV::Edit(t@),
            ItemChange::EndEdit => ItemChangeV::EndEdit,
            ItemChange::AskDelete => ItemChangeV::AskDelete,
            ItemChange::EndDelete => ItemChangeV::EndDelete,
        }
    }
}

/// The dashboard after a change of the item view.
pub open spec fn item_changed(a: AppV, c: ItemChangeV) -> AppV {
    match c {
        ItemChangeV::Open => AppV { viewing_items: true, item_sel: 0, ..a },
        ItemChangeV::Close => AppV {
            viewing_items: false,
            creating_item: false,
            editing_item: false,
            deleting_item: false,
            input: seq![],
            ..a
        },
        ItemChangeV::Select(n) => AppV { item_sel: n, ..a },
        ItemChangeV::Create => AppV { creating_item: true, input: seq![], ..a },
        ItemChangeV::EndCreate => AppV { creating_item: false, input: seq![], ..a },
        ItemChangeV::Edit(t) => AppV { editing_item: true, input: t, ..a },
        ItemChangeV::EndEdit => AppV { editing_item: false, input: seq![], ..a },
        ItemChangeV::AskDelete => AppV { deleting_item: true, ..a },
        ItemChangeV::EndDelete => AppV { deleting_item: false, ..a },
    }
}

impl App {
    fn open_items(&mut self)
        ensures
            final(self)@ == (AppV { viewing_items: true, item_sel: 0, ..old(self)@ }),
    {
        self.viewing_items = true;
        self.item_sel = 0;
    }

    fn close_items(&mut self)
        ensures
            final(self)@ == (AppV {
                viewing_items: false,
                creating_item: false,
                editing_item: false,
                deleting_item: false,
                input: seq![],
                ..old(self)@
            }),
    {
        self.viewing_items = false;
        self.creating_item = false;
        self.editing_item = false;
        self.deleting_item = false;
        self.input = String::new();
    }

    fn select_item(&mut self, n: usize)
        ensures
            final(self)@ == (AppV { item_sel: n, ..old(self)@ }),
    {
        self.item_sel = n;
    }

    fn create_item(&mut self, on: bool)
        ensures
            final(self)@ == (AppV { creating_item: on, input: seq![], ..old(self)@ }),
    {
        self.creating_item = on;
        self.input = String::new();
    }

    fn reword_item(&mut self, on: bool, text: String)
        ensures
            final(self)@ == (AppV { editing_item: on, input: text@, ..old(self)@ }),
    {
        self.editing_item = on;
        self.input = text;
    }

    fn ask_delete_item(&mut self, on: bool)
        ensures
            final(self)@ == (AppV { deleting_item: on, ..old(self)@ }),
    {
        self.deleting_item = on;
    }

    /// Changes the item view.
    fn change_items(&mut self, c: ItemChange)
        ensures
            final(self)@ == item_changed(old(self)@, c@),
    {
        match c {
            ItemChange::Open => self.open_items(),
            ItemChange::Close => self.close_items(),
            ItemChange::Select(n) => self.select_item(n),
            ItemChange::Create => self.create_item(true),
            ItemChange::EndCreate => self.create_item(false),
            ItemChange::Edit(t) => self.reword_item(true, t),
            ItemChange::EndEdit => self.reword_item(false, String::new()),
            ItemChange::AskDelete => self.ask_delete_item(true),
            ItemChange::EndDelete => self.ask_delete_item(false),
        }
    }
}

// ---------------------------------------------------------------------------
// The worktree view
// ---------------------------------------------------------------------------

/// A change of the worktree view.
#[derive(Debug, Clone, Copy)]
pub enum WorktreeChange {
    Close,
    Select(usize),
    /// Start to type the branch of a new worktree.
    Create,
    EndCreate,
    /// Ask whether to remove a worktree.
    AskDelete,
    EndDelete,
}

/// The dashboard after a change of the worktree view.
pub open spec fn worktree_changed(a: AppV, c: WorktreeChange) -> AppV {
    match c {
        WorktreeChange::Close => AppV {
            viewing_worktrees: false,
            creating_worktree: false,
            deleting_worktree: false,
            input: seq![],
            ..a
        },
        WorktreeChange::Select(n) => AppV { worktree_sel: n, ..a },
        WorktreeChange::Create => AppV { creating_worktree: true, input: seq![], ..a },
        WorktreeChange::EndCreate => AppV { creating_worktree: false, input: seq![], ..a },
        WorktreeChange::AskDelete => AppV { deleting_worktree: true, ..a },
        WorktreeChange::EndDelete => AppV { deleting_worktree: false, ..a },
    }
}

impl App {
    fn close_worktrees(&mut self)
        ensures
            final(self)@ == (AppV {
                viewing_worktrees: false,
                creating_worktree: false,
                deleting_worktree: false,
                input: seq![],
                ..old(self)@
            }),
    {
        self.viewing_worktrees = false;
        self.creating_worktree = false;
        self.deleting_worktree = false;
        self.input = String::new();
    }

    pub fn select_worktree(&mut self, n: usize)
        ensures
            final(self)@ == (AppV { worktree_sel: n, ..old(self)@ }),
    {
        self.worktree_sel = n;
    }

    fn create_worktree(&mut self, on: bool)
        ensures
            final(self)@ == (AppV { creating_worktree: on, input: seq![], ..old(self)@ }),
    {
        self.creating_worktree = on;
        self.input = String::new();
    }

    fn ask_delete_worktree(&mut self, on: bool)
        ensures
            final(self)@ == (AppV { deleting_worktree: on, ..old(self)@ }),
    {
        self.deleting_worktree = on;
    }

    /// Changes the worktree view.
    fn change_worktrees(&mut self, c: WorktreeChange)
        ensures
            final(self)@ == worktree_changed(old(self)@, c),
    {
        match c {
            WorktreeChange::Close => self.close_worktrees(),
            WorktreeChange::Select(n) => self.select_worktree(n),
            WorktreeChange::Create => self.create_worktree(true),
            WorktreeChange::EndCreate => self.create_worktree(false),
            WorktreeChange::AskDelete => self.ask_delete_worktree(true),
            WorktreeChange::EndDelete => self.ask_delete_worktree(false),
        }
    }
}

// ---------------------------------------------------------------------------
// Prompts
// ---------------------------------------------------------------------------

/// A question that the next key answers.
#[derive(Debug, Clone, Copy, PartialEq, Eq, Structural)]
pub enum Question {
    Move,
    Delete,
    Start,
    Pr,
    Agent,
}

/// The dashboard with a question asked, or no longer.
pub open spec fn asked(a: AppV, q: Question, on: bool) -> AppV {
    match q {
        Question::Move => AppV { moving: on, ..a },
        Question::Delete => AppV { deleting: on, ..a },
        Question::Start => AppV { starting: on, ..a },
        Question::Pr => AppV { pring: on, ..a },
        Question::Agent => AppV { choosing_agent: on, ..a },
    }
}

impl App {
    fn ask_move(&mut self, on: bool)
        ensures
            final(self)@ == (AppV { moving: on, ..old(self)@ }),
    {
        self.moving = on;
    }

    fn ask_delete(&mut self, on: bool)
        ensures
            final(self)@ == (AppV { deleting: on, ..old(self)@ }),
    {
        self.deleting = on;
    }

    fn ask_start(&mut self, on: bool)
        ensures
            final(self)@ == (AppV { starting: on, ..old(self)@ }),
    {
        self.starting = on;
    }

    fn ask_pr(&mut self, on: bool)
        ensures
            final(self)@ == (AppV { pring: on, ..old(self)@ }),
    {
        self.pring = on;
    }

    fn ask_agent(&mut self, on: bool)
        ensures
            final(self)@ == (AppV { choosing_agent: on, ..old(self)@ }),
    {
        self.choosing_agent = on;
    }

    /// Asks a question, or no longer.
    fn ask(&mut self, q: Question, on: bool)
        ensures
            final(self)@ == asked(old(self)@, q, on),
    {
        match q {
            Question::Move => self.ask_move(on),
            Question::Delete => self.ask_delete(on),
            Question::Start => self.ask_start(on),
            Question::Pr => self.ask_pr(on),
            Question::Agent => self.ask_agent(on),
        }
    }
}

/// A change of the pickers.
#[derive(Debug)]
pub enum PickChange {
    /// A row of the issue→project picker.
    IssueRow(usize),
    EndIssue,
    /// Open the project picker with its cursor in a row.
    OpenProjects(usize),
    ProjectRow(usize),
    EndProjects,
    /// Scope the task list.
    Scope(Option<String>),
}

/// What a [`PickChange`] stands for.
pub enum PickChangeV {
    IssueRow(usize),
    EndIssue,
    OpenProjects(usize),
    ProjectRow(usize),
    EndProjects,
    Scope(Option<Seq<char>>),
}

impl View for PickChange {
    type V = PickChangeV;

    open spec fn view(&self) -> PickChangeV {
        match self {
            PickChange::IssueRow(n) => PickChangeV::IssueRow(*n),
            PickChange::EndIssue => PickChangeV::EndIssue,
            PickChange::OpenProjects(n) => PickChangeV::OpenProjects(*n),
            PickChange::ProjectRow(n) => PickChangeV::ProjectRow(*n),
            PickChange::EndProjects => PickChangeV::EndProjects,
            PickChange::Scope(p) => PickChangeV::Scope(text::opt_view(*p)),
        }
    }
}

/// The dashboard after a change of the pickers.
pub open spec fn pick_changed(a: AppV, c: PickChangeV) -> AppV {
    match c {
        PickChangeV::IssueRow(n) => AppV { issue_sel: n, ..a },
        PickChangeV::EndIssue => AppV { issuing: false, issue_target: None, ..a },
        PickChangeV::OpenProjects(n) => AppV { project_sel: n, picking_project: true, ..a },
        PickChangeV::ProjectRow(n) => AppV { project_sel: n, ..a },
        PickChangeV::EndProjects => AppV { picking_project: false, ..a },
        // task selection is stale under a new scope
        PickChangeV::Scope(p) => AppV {
            project_scope: p,
            picking_project: false,
            selected: 0,
            ..a
        },
    }
}

impl App {
    fn pick_issue_row(&mut self, n: usize)
        ensures
            final(self)@ == (AppV { issue_sel: n, ..old(self)@ }),
    {
        self.issue_sel = n;
    }

    fn end_issue(&mut self)
        ensures
            final(self)@ == (AppV { issuing: false, issue_target: None, ..old(self)@ }),
    {
        self.issuing = false;
        self.issue_target = None;
    }

    fn open_projects(&mut self, n: usize)
        ensures
            final(self)@ == (AppV { project_sel: n, picking_project: true, ..old(self)@ }),
    {
        self.project_sel = n;
        self.picking_project = true;
    }

    fn pick_project_row(&mut self, n: usize)
        ensures
            final(self)@ == (AppV { project_sel: n, ..old(self)@ }),
    {
        self.project_sel = n;
    }

    fn end_projects(&mut self)
        ensures
            final(self)@ == (AppV { picking_project: false, ..old(self)@ }),
    {
        self.picking_project = false;
    }

    fn scope_to(&mut self, p: Option<String>)
        ensures
            final(self)@ == (AppV {
                project_scope: text::opt_view(p),
                picking_project: false,
                selected: 0,
                ..old(self)@
            }),
    {
        self.project_scope = p;
        self.picking_project = false;
        self.selected = 0;
    }

    /// Changes the pickers.
    fn change_pickers(&mut self, c: PickChange)
        ensures
            final(self)@ == pick_changed(old(self)@, c@),
    {
        match c {
            PickChange::IssueRow(n) => self.pick_issue_row(n),
            PickChange::EndIssue => self.end_issue(),
            PickChange::OpenProjects(n) => self.open_projects(n),
            PickChange::ProjectRow(n) => self.pick_project_row(n),
            PickChange::EndProjects => self.end_projects(),
            PickChange::Scope(p) => self.scope_to(p),
        }
    }
}

// ---------------------------------------------------------------------------
// The task list
// ---------------------------------------------------------------------------

/// A change of the task list.
#[derive(Debug)]
pub enum ListChange {
    Select(usize),
    Tab(usize),
    /// Start to type a filter.
    Filter,
    /// The filter that is typed: what shows up first is selected.
    Filtered(String),
    /// The filter with a character taken back.
    Unfiltered(String),
    /// Keep the filter.
    EndFilter,
    /// Drop the filter.
    DropFilter,
    /// Drop the filter while it is typed.
    CancelFilter,
    /// Start to type the title of a new task.
    Create,
    EndCreate,
}

/// What a [`ListChange`] stands for.
pub enum ListChangeV {
    Select(usize),
    Tab(usize),
    Filter,
    Filtered(Seq<char>),
    Unfiltered(Seq<char>),
    EndFilter,
    DropFilter,
    CancelFilter,
    Create,
    EndCreate,
}

impl View for ListChange {
    type V = ListChangeV;

    open spec fn view(&self) -> ListChangeV {
        match self {
            ListChange::Select(n) => ListChangeV::Select(*n),
            ListChange::Tab(n) => ListChangeV::Tab(*n),
            ListChange::Filter => ListChangeV::Filter,
            ListChange::Filtered(s) => ListChangeV::Filtered(s@),
            ListChange::Unfiltered(s) => ListChangeV::Unfiltered(s@),
            ListChange::EndFilter => ListChangeV::EndFilter,
            ListChange::DropFilter => ListChangeV::DropFilter,
            ListChange::CancelFilter => ListChangeV::CancelFilter,
            ListChange::Create => ListChangeV::Create,
            ListChange::EndCreate => ListChangeV::EndCreate,
        }
    }
}

/// The dashboard after a change of the task list.
pub open spec fn list_changed(a: AppV, c: ListChangeV) -> AppV {
    match c {
        ListChangeV::Select(n) => AppV { selected: n, ..a },
        ListChangeV::Tab(n) => AppV { tab: n, selected: 0, ..a },
        ListChangeV::Filter => AppV { filtering: true, filter: seq![], ..a },
        ListChangeV::Filtered(s) => AppV { filter: s, selected: 0, ..a },
        ListChangeV::Unfiltered(s) => AppV { filter: s, ..a },
        ListChangeV::EndFilter => AppV { filtering: false, ..a },
        ListChangeV::DropFilter => AppV { filter: seq![], ..a },
        ListChangeV::CancelFilter => AppV { filtering: false, filter: seq![], ..a },
        ListChangeV::Create => AppV { creating: true, input: seq![], ..a },
        ListChangeV::EndCreate => AppV { creating: false, input: seq![], ..a },
    }
}

impl App {
    pub fn select(&mut self, n: usize)
        ensures
            final(self)@ == (AppV { selected: n, ..old(self)@ }),
    {
        self.selected = n;
    }

    fn show_tab(&mut self, n: usize)
        ensures
            final(self)@ == (AppV { tab: n, selected: 0, ..old(self)@ }),
    {
        self.tab = n;
        self.selected = 0;
    }

    fn start_filter(&mut self, on: bool)
        ensures
            final(self)@ == (AppV { filtering: on, filter: seq![], ..old(self)@ }),
    {
        self.filtering = on;
        self.filter = String::new();
    }

    fn filter_first(&mut self, s: String)
        ensures
            final(self)@ == (AppV { filter: s@, selected: 0, ..old(self)@ }),
    {
        self.filter = s;
        self.selected = 0;
    }

    fn filter_by(&mut self, s: String)
        ensures
            final(self)@ == (AppV { filter: s@, ..old(self)@ }),
    {
        self.filter = s;
    }

    fn end_filter(&mut self)
        ensures
            final(self)@ == (AppV { filtering: false, ..old(self)@ }),
    {
        self.filtering = false;
    }

    fn create(&mut self, on: bool)
        ensures
            final(self)@ == (AppV { creating: on, input: seq![], ..old(self)@ }),
    {
        self.creating = on;
        self.input = String::new();
    }

    /// Changes the task list.
    fn change_list(&mut self, c: ListChange)
        ensures
            final(self)@ == list_changed(old(self)@, c@),
    {
        match c {
            ListChange::Select(n) => self.select(n),
            ListChange::Tab(n) => self.show_tab(n),
            ListChange::Filter => self.start_filter(true),
            ListChange::Filtered(s) => self.filter_first(s),
            ListChange::Unfiltered(s) => self.filter_by(s),
            ListChange::EndFilter => self.end_filter(),
            ListChange::DropFilter => self.filter_by(String::new()),
            ListChange::CancelFilter => self.start_filter(false),
            ListChange::Create => self.create(true),
            ListChange::EndCreate => self.create(false),
        }
    }
}

// ---------------------------------------------------------------------------
// Any change
// ---------------------------------------------------------------------------

/// A change of the dashboard.
#[derive(Debug)]
pub enum Change {
    Keep,
    /// A message in the status line.
    Tell(String),
    /// The text that is typed.
    Input(String),
    Ask(Question),
    EndAsk(Question),
    /// The move question is over, with a message.
    EndMove(String),
    /// The modal text is dismissed.
    DropPopup,
    /// The offer to overwrite a remote body is gone.
    DropOffer,
    /// The offer to overwrite a remote body is declined.
    DeclineOffer,
    Item(ItemChange),
    Worktree(WorktreeChange),
    Pick(PickChange),
    List(ListChange),
}

/// What a [`Change`] stands for.
pub enum ChangeV {
    Keep,
    Tell(Seq<char>),
    Input(Seq<char>),
    Ask(Question),
    EndAsk(Question),
    EndMove(Seq<char>),
    DropPopup,
    DropOffer,
    DeclineOffer,
    Item(ItemChangeV),
    Worktree(WorktreeChange),
    Pick(PickChangeV),
    List(ListChangeV),
}

impl View for Change {
    type V = ChangeV;

    open spec fn view(&self) -> ChangeV {
        match self {
            Change::Keep => ChangeV::Keep,
            Change::Tell(m) => ChangeV::Tell(m@),
            Change::Input(s) => ChangeV::Input(s@),
            Change::Ask(q) => ChangeV::Ask(*q),
            Change::EndAsk(q) => ChangeV::EndAsk(*q),
            Change::EndMove(m) => ChangeV::EndMove(m@),
            Change::DropPopup => ChangeV::DropPopup,
            Change::DropOffer => ChangeV::DropOffer,
            Change::DeclineOffer => ChangeV::DeclineOffer,
            Change::Item(c) => ChangeV::Item(c@),
            Change::Worktree(c) => ChangeV::Worktree(*c),
            Change::Pick(c) => ChangeV::Pick(c@),
            Change::List(c) => ChangeV::List(c@),
        }
    }
}

/// The dashboard after a change.
pub open spec fn changed(a: AppV, c: ChangeV) -> AppV {
    match c {
        ChangeV::Keep => a,
        ChangeV::Tell(m) => AppV { message: m, ..a },
        ChangeV::Input(s) => AppV { input: s, ..a },
        ChangeV::Ask(q) => asked(a, q, true),
        ChangeV::EndAsk(q) => asked(a, q, false),
        ChangeV::EndMove(m) => AppV { moving: false, message: m, ..a },
        ChangeV::DropPopup => AppV { popup: None, ..a },
        ChangeV::DropOffer => AppV { force_push: None, ..a },
        ChangeV::DeclineOffer => AppV {
            force_push: None,
            message: "force-push canceled — resolve locally and retry"@,
            ..a
        },
        ChangeV::Item(c) => item_changed(a, c),
        ChangeV::Worktree(c) => worktree_changed(a, c),
        ChangeV::Pick(c) => pick_changed(a, c),
        ChangeV::List(c) => list_changed(a, c),
    }
}

impl App {
    /// Tells something in the status line.
    pub fn tell(&mut self, m: String)
        ensures
            final(self)@ == (AppV { message: m@, ..old(self)@ }),
    {
        self.message = m;
    }

    fn type_input(&mut self, s: String)
        ensures
            final(self)@ == (AppV { input: s@, ..old(self)@ }),
    {
        self.input = s;
    }

    fn end_move(&mut self, m: String)
        ensures
            final(self)@ == (AppV { moving: false, message: m@, ..old(self)@ }),
    {
        self.moving = false;
        self.message = m;
    }

    fn drop_popup(&mut self)
        ensures
            final(self)@ == (AppV { popup: None, ..old(self)@ }),
    {
        self.popup = None;
    }

    fn drop_offer(&mut self)
        ensures
            final(self)@ == (AppV { force_push: None, ..old(self)@ }),
    {
        self.force_push = None;
    }

    fn decline_offer(&mut self)
        ensures
            final(self)@ == (AppV {
                force_push: None,
                message: "force-push canceled — resolve locally and retry"@,
                ..old(self)@
            }),
    {
        self.force_push = None;
        self.message = String::from_str("force-push canceled — resolve locally and retry");
    }

    /// Changes the dashboard.
    pub fn apply(&mut self, c: Change)
        ensures
            final(self)@ == changed(old(self)@, c@),
    {
        match c {
            Change::Keep => {},
            Change::Tell(m) => self.tell(m),
            Change::Input(s) => self.type_input(s),
            Change::Ask(q) => self.ask(q, true),
            Change::EndAsk(q) => self.ask(q, false),
            Change::EndMove(m) => self.end_move(m),
            Change::DropPopup => self.drop_popup(),
            Change::DropOffer => self.drop_offer(),
            Change::DeclineOffer => self.decline_offer(),
            Change::Item(c) => self.change_items(c),
            Change::Worktree(c) => self.change_worktrees(c),
            Change::Pick(c) => self.change_pickers(c),
            Change::List(c) => self.change_list(c),
        }
    }
}

} // verus!
