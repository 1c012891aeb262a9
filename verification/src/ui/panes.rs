//! The left pane: tasks, checklist items, worktrees, and the two pickers.
use crate::gitx::{Worktree, WorktreeV};
use crate::paths;
use crate::store::Status;
use crate::task::items::{Item, ItemV};
use crate::text;
use crate::ui::app::{self, App, AppV};
use crate::ui::input;
use crate::ui::row::{self, TaskRow, TaskRowV};
use crate::ui::style::{self, Color, Line, LineV, SpanV, Style};
use vstd::prelude::*;
use vstd::string::*;

verus! {

/// A titled box of lines.
#[derive(Debug)]
pub struct Pane {
    pub title: String,
    pub lines: Vec<Line>,
}

/// What a [`Pane`] stands for.
#[verifier::ext_equal]
pub struct PaneV {
    pub title: Seq<char>,
    pub lines: Seq<LineV>,
}

impl View for Pane {
    type V = PaneV;

    open spec fn view(&self) -> PaneV {
        PaneV { title: self.title@, lines: text::views(self.lines@) }
    }
}

/// A text between two others.
pub fn around(before: &str, middle: &str, after: &str) -> (r: String)
    ensures
        r@ == before@ + middle@ + after@,
{
    let mut r = String::from_str(before);
    r.append(middle);
    r.append(after);
    r
}

/// What marks the row under the cursor.
pub open spec fn marker(on: bool) -> Seq<char> {
    if on {
        "▶ "@
    } else {
        "  "@
    }
}

/// What marks the row under the cursor.
fn cursor(on: bool) -> (r: &'static str)
    ensures
        r@ == marker(on),
{
    if on {
        "▶ "
    } else {
        "  "
    }
}

/// The look of the row under the cursor.
pub open spec fn emphasis(on: bool) -> Style {
    Style { fg: None, bold: on, struck: false }
}

/// A pane with one line of ordinary text.
pub open spec fn notice(title: Seq<char>, t: Seq<char>) -> PaneV {
    PaneV { title, lines: seq![style::whole_line(t, Style::is_plain())] }
}

/// A pane with one line of ordinary text.
pub fn show_notice(title: String, t: &str) -> (r: Pane)
    ensures
        r@ == notice(title@, t@),
{
    let line = style::full_line(String::from_str(t), Style::plain());
    Pane { title, lines: style::one_line(line) }
}

// ---------------------------------------------------------------------------
// Checklist items
// ---------------------------------------------------------------------------

/// The box of an item, and its color.
pub open spec fn item_mark(it: ItemV) -> (Seq<char>, Color) {
    if it.failed {
        ("[✗]"@, Color::Red)
    } else if it.checked {
        ("[x]"@, Color::Rgb(0, 128, 0))
    } else {
        ("[ ]"@, Color::Yellow)
    }
}

/// The row of an item.
pub open spec fn item_row(it: ItemV, on: bool) -> LineV {
    let (mark, color) = item_mark(it);
    style::line_of(
        seq![
            style::raw(marker(on)),
            style::styled(mark + " "@, Style::in_color(color)),
            style::styled(it.text, Style { fg: None, bold: on, struck: it.failed }),
        ],
    )
}

/// The rows of items.
pub open spec fn item_rows(its: Seq<ItemV>, sel: int) -> Seq<LineV> {
    Seq::new(its.len(), |i: int| item_row(its[i], i == sel))
}

/// The slug of the selected task.
pub open spec fn selected_slug(a: AppV) -> Seq<char> {
    match app::selected_row(a) {
        Some(t) => t.slug,
        None => seq![],
    }
}

/// The checklist items of the selected task.
pub open spec fn item_pane(a: AppV) -> PaneV {
    let its = input::selected_items(a);
    let title = match app::selected_row(a) {
        Some(t) => " items · "@ + t.slug + " "@,
        None => " items "@,
    };
    if its.len() == 0 {
        notice(title, "no checklist items"@)
    } else {
        PaneV { title, lines: item_rows(its, app::clamped(a.item_sel, its.len())) }
    }
}

/// The row of an item.
fn show_item(it: &Item, on: bool) -> (r: Line)
    ensures
        r@ == item_row(it@, on),
{
    let mut spans = style::no_spans();
    style::push_span(&mut spans, String::from_str(cursor(on)), Style::plain());
    if it.failed {
        style::push_span(&mut spans, around("[✗]", " ", ""), Style::color(Color::Red));
    } else if it.checked {
        style::push_span(&mut spans, around("[x]", " ", ""), Style::color(Color::Rgb(0, 128, 0)));
    } else {
        style::push_span(&mut spans, around("[ ]", " ", ""), Style::color(Color::Yellow));
    }
    style::push_span(
        &mut spans,
        it.text.clone(),
        Style { fg: None, bold: on, struck: it.failed },
    );
    proof {
        reveal_strlit("");
        let (mark, color) = item_mark(it@);
        assert(mark + " "@ + ""@ =~= mark + " "@);
        assert(text::views(spans@) =~= item_row(it@, on).spans);
    }
    style::make_line(spans)
}

/// A cursor within a list.
pub fn clamp(sel: usize, len: usize) -> (r: usize)
    requires
        len > 0,
    ensures
        r == app::clamped(sel, len as nat),
{
    if sel < len {
        sel
    } else {
        len - 1
    }
}

impl App {
    /// The drilled-in task's checklist items with their checkbox state. The
    /// cursor (j/k) selects one; its Agent-Log entries fill the preview and
    /// `space` toggles it. Mirrors the project/issue pickers (replaces the list).
    fn render_item_list(&self) -> (r: Pane)
        requires
            self.wf(),
        ensures
            r@ == item_pane(self@),
    {
        let its = self.items_of_selected();
        proof {
            assert(input::selected_items(self@).len() == its@.len());
        }
        let title = match self.selected_task() {
            Some(t) => around(" items · ", &t.slug, " "),
            None => String::from_str(" items "),
        };
        if its.len() == 0 {
            return show_notice(title, "no checklist items");
        }
        let sel = clamp(self.item_sel, its.len());
        let ghost all = text::views(its@);
        let mut lines = style::no_lines();
        let mut i: usize = 0;
        while i < its.len()
            invariant
                i <= its.len(),
                all == text::views(its@),
                text::views(lines@) == item_rows(all, sel as int).take(i as int),
            decreases its.len() - i,
        {
            style::push_styled(&mut lines, show_item(&its[i], i == sel));
            proof {
                let rows = item_rows(all, sel as int);
                assert(rows.take(i + 1) =~= rows.take(i as int).push(rows[i as int]));
            }
            i += 1;
        }
        proof {
            let rows = item_rows(all, sel as int);
            assert(rows.take(rows.len() as int) =~= rows);
        }
        Pane { title, lines }
    }
}

// ---------------------------------------------------------------------------
// Worktrees
// ---------------------------------------------------------------------------

/// What a worktree is on, and its color.
pub open spec fn worktree_label(w: WorktreeV) -> (Seq<char>, Color) {
    if w.bare {
        ("(bare)"@, Color::DarkGray)
    } else {
        match w.branch {
            Some(b) => (b, Color::Cyan),
            None => ("(detached)"@, Color::DarkGray),
        }
    }
}

/// The name of a directory; the whole path where it has none.
pub open spec fn dir_name(path: Seq<char>) -> Seq<char> {
    match paths::file_name_of(path) {
        Some(n) => n,
        None => path,
    }
}

/// A flag of a worktree, where it is set.
pub open spec fn flag(on: bool, t: Seq<char>, color: Color) -> Seq<SpanV> {
    if on {
        seq![style::styled(t, Style::in_color(color))]
    } else {
        seq![]
    }
}

/// The row of a worktree.
pub open spec fn worktree_row(w: WorktreeV, on: bool) -> LineV {
    let (label, color) = worktree_label(w);
    style::line_of(
        seq![
            style::raw(marker(on)),
            style::styled(label + " "@, Style::in_color(color)),
            style::styled("— "@ + dir_name(w.path), emphasis(on)),
        ] + flag(w.is_main, " [main]"@, Color::Magenta) + flag(
            w.locked,
            " [locked]"@,
            Color::Yellow,
        ) + flag(w.prunable, " [prunable]"@, Color::Red),
    )
}

/// The rows of worktrees.
pub open spec fn worktree_rows(ws: Seq<WorktreeV>, sel: int) -> Seq<LineV> {
    Seq::new(ws.len(), |i: int| worktree_row(ws[i], i == sel))
}

/// The worktrees of the project.
pub open spec fn worktree_pane(a: AppV) -> PaneV {
    let title = " worktrees · "@ + a.worktree_project + " "@;
    if a.worktrees.len() == 0 {
        notice(title, "no worktrees"@)
    } else {
        PaneV {
            title,
            lines: worktree_rows(a.worktrees, app::clamped(a.worktree_sel, a.worktrees.len())),
        }
    }
}

/// The name of a directory; the whole path where it has none.
fn name_of_dir(path: &str) -> (r: String)
    ensures
        r@ == dir_name(path@),
{
    match paths::file_name(path) {
        Some(n) => n,
        None => String::from_str(path),
    }
}

/// Adds a flag of a worktree, where it is set.
fn push_flag(spans: &mut Vec<style::Span>, on: bool, t: &str, color: Color)
    ensures
        text::views(final(spans)@) == text::views(old(spans)@) + flag(on, t@, color),
{
    let ghost before = text::views(spans@);
    if on {
        style::push_span(spans, String::from_str(t), Style::color(color));
    }
    assert(text::views(spans@) =~= before + flag(on, t@, color));
}

/// The row of a worktree.
fn show_worktree(w: &Worktree, on: bool) -> (r: Line)
    ensures
        r@ == worktree_row(w@, on),
{
    let mut spans = style::no_spans();
    style::push_span(&mut spans, String::from_str(cursor(on)), Style::plain());
    let (label, color) = if w.bare {
        (String::from_str("(bare)"), Color::DarkGray)
    } else {
        match &w.branch {
            Some(b) => (b.clone(), Color::Cyan),
            None => (String::from_str("(detached)"), Color::DarkGray),
        }
    };
    style::push_span(&mut spans, around(&label, " ", ""), Style::color(color));
    style::push_span(
        &mut spans,
        around("— ", &name_of_dir(&w.path), ""),
        Style { fg: None, bold: on, struck: false },
    );
    proof {
        reveal_strlit("");
        assert(label@ + " "@ + ""@ =~= label@ + " "@);
        assert("— "@ + dir_name(w@.path) + ""@ =~= "— "@ + dir_name(w@.path));
        assert(text::views(spans@) =~= seq![
            style::raw(marker(on)),
            style::styled(worktree_label(w@).0 + " "@, Style::in_color(worktree_label(w@).1)),
            style::styled("— "@ + dir_name(w@.path), emphasis(on)),
        ]);
    }
    push_flag(&mut spans, w.is_main, " [main]", Color::Magenta);
    push_flag(&mut spans, w.locked, " [locked]", Color::Yellow);
    push_flag(&mut spans, w.prunable, " [prunable]", Color::Red);
    style::make_line(spans)
}

impl App {
    /// The focused project's git worktrees: branch (or detached/bare) + the
    /// directory name, with `main`/`locked` flags. The cursor (j/k) selects one;
    /// its details fill the preview. Replaces the task list (like the pickers).
    fn render_worktree_list(&self) -> (r: Pane)
        ensures
            r@ == worktree_pane(self@),
    {
        let title = around(" worktrees · ", &self.worktree_project, " ");
        let ghost all = self@.worktrees;
        proof {
            assert(all.len() == self.worktrees@.len());
        }
        if self.worktrees.len() == 0 {
            return show_notice(title, "no worktrees");
        }
        let sel = clamp(self.worktree_sel, self.worktrees.len());
        let mut lines = style::no_lines();
        let mut i: usize = 0;
        while i < self.worktrees.len()
            invariant
                i <= self.worktrees.len(),
                all == text::views(self.worktrees@),
                text::views(lines@) == worktree_rows(all, sel as int).take(i as int),
            decreases self.worktrees.len() - i,
        {
            style::push_styled(&mut lines, show_worktree(&self.worktrees[i], i == sel));
            proof {
                let rows = worktree_rows(all, sel as int);
                assert(rows.take(i + 1) =~= rows.take(i as int).push(rows[i as int]));
            }
            i += 1;
        }
        proof {
            let rows = worktree_rows(all, sel as int);
            assert(rows.take(rows.len() as int) =~= rows);
        }
        Pane { title, lines }
    }
}

// ---------------------------------------------------------------------------
// The issue→project picker
// ---------------------------------------------------------------------------

/// The row of a board.
pub open spec fn board_row(name: Seq<char>, on: bool) -> LineV {
    style::line_of(
        seq![
            style::raw(marker(on)),
            style::styled(name, Style { fg: Some(Color::Magenta), bold: on, struck: false }),
        ],
    )
}

/// The rows of boards.
pub open spec fn board_rows(names: Seq<Seq<char>>, sel: int) -> Seq<LineV> {
    Seq::new(names.len(), |i: int| board_row(names[i], i == sel))
}

/// "No project", and each board that a new issue can be filed onto.
pub open spec fn issue_pane(a: AppV) -> PaneV {
    let entries = seq!["— no project —"@] + a.issue_projects;
    PaneV {
        title: " file issue onto project — Enter to confirm · Esc cancel "@,
        lines: board_rows(entries, app::clamped(a.issue_sel, entries.len())),
    }
}

/// The row of a board.
fn show_board(name: &str, on: bool) -> (r: Line)
    ensures
        r@ == board_row(name@, on),
{
    let mut spans = style::no_spans();
    style::push_span(&mut spans, String::from_str(cursor(on)), Style::plain());
    style::push_span(
        &mut spans,
        String::from_str(name),
        Style { fg: Some(Color::Magenta), bold: on, struck: false },
    );
    assert(text::views(spans@) =~= board_row(name@, on).spans);
    style::make_line(spans)
}

/// A cursor within a list with one row in front of its entries.
fn clamp_past(sel: usize, len: usize) -> (r: usize)
    ensures
        r == app::clamped(sel, (len + 1) as nat),
{
    if sel < len {
        sel
    } else {
        len
    }
}

impl App {
    /// The optional issue→project picker: "no project" plus each GitHub Project
    /// the new issue can be filed onto. Mirrors the project-scope picker.
    fn render_issue_picker(&self) -> (r: Pane)
        ensures
            r@ == issue_pane(self@),
    {
        let ghost entries = seq!["— no project —"@] + self@.issue_projects;
        let sel = clamp_past(self.issue_sel, self.issue_projects.len());
        proof {
            assert(entries.len() == self.issue_projects@.len() + 1);
        }
        let mut lines = style::one_line(show_board("— no project —", sel == 0));
        proof {
            assert(board_rows(entries, sel as int).take(1) =~= seq![
                board_row("— no project —"@, sel == 0),
            ]);
        }
        let mut i: usize = 0;
        while i < self.issue_projects.len()
            invariant
                i <= self.issue_projects.len(),
                entries == seq!["— no project —"@] + text::views(self.issue_projects@),
                text::views(lines@) == board_rows(entries, sel as int).take(i + 1),
            decreases self.issue_projects.len() - i,
        {
            let on = sel > 0 && sel - 1 == i;
            style::push_styled(&mut lines, show_board(&self.issue_projects[i], on));
            proof {
                let rows = board_rows(entries, sel as int);
                assert(rows.take(i + 2) =~= rows.take(i + 1).push(rows[i + 1]));
            }
            i += 1;
        }
        proof {
            let rows = board_rows(entries, sel as int);
            assert(rows.take(rows.len() as int) =~= rows);
        }
        Pane {
            title: String::from_str(" file issue onto project — Enter to confirm · Esc cancel "),
            lines,
        }
    }
}

// ---------------------------------------------------------------------------
// The project picker
// ---------------------------------------------------------------------------

/// How many rows a project has; all of them where no project is given.
pub open spec fn count_in(rows: Seq<TaskRowV>, project: Option<Seq<char>>) -> nat
    decreases rows.len(),
{
    if rows.len() == 0 {
        0
    } else if project is None || project == Some(rows.last().project) {
        count_in(rows.drop_last(), project) + 1
    } else {
        count_in(rows.drop_last(), project)
    }
}

/// The row of a project.
pub open spec fn project_row(name: Seq<char>, n: nat, on: bool) -> LineV {
    style::line_of(
        seq![
            style::raw(marker(on)),
            style::styled(name + " "@, Style::in_color(Color::Magenta)),
            style::styled("("@ + text::decimal(n) + ")"@, emphasis(on)),
        ],
    )
}

/// The rows of the project picker: all projects, and each of them.
pub open spec fn project_rows(a: AppV, sel: int) -> Seq<LineV> {
    let names = app::projects_of_app(a);
    Seq::new(
        names.len() + 1,
        |i: int|
            if i == 0 {
                project_row("all projects"@, count_in(a.tasks, None), i == sel)
            } else {
                project_row(names[i - 1], count_in(a.tasks, Some(names[i - 1])), i == sel)
            },
    )
}

/// Every project with its task count.
pub open spec fn project_pane(a: AppV) -> PaneV {
    PaneV {
        title: " projects — Enter to select · Esc cancel "@,
        lines: project_rows(
            a,
            app::clamped(a.project_sel, app::projects_of_app(a).len() + 1),
        ),
    }
}

/// How many rows a project has.
fn count_rows(rows: &Vec<TaskRow>, project: Option<&str>) -> (r: usize)
    ensures
        r == count_in(text::views(rows@), crate::projects::str_view(project)),
{
    let ghost all = text::views(rows@);
    let ghost p = crate::projects::str_view(project);
    let mut n: usize = 0;
    let mut i: usize = 0;
    proof {
        assert(all.take(0) =~= Seq::<TaskRowV>::empty());
    }
    while i < rows.len()
        invariant
            n <= i <= rows.len(),
            all == text::views(rows@),
            p == crate::projects::str_view(project),
            n == count_in(all.take(i as int), p),
        decreases rows.len() - i,
    {
        let counted = match project {
            None => true,
            Some(name) => text::same(name, &rows[i].project),
        };
        proof {
            let up = all.take(i + 1);
            assert(up.drop_last() =~= all.take(i as int));
            assert(up.last() == rows@[i as int]@);
        }
        if counted {
            n += 1;
        }
        i += 1;
    }
    proof {
        assert(all.take(all.len() as int) =~= all);
    }
    n
}

/// The row of a project.
fn show_project(name: &str, n: usize, on: bool) -> (r: Line)
    ensures
        r@ == project_row(name@, n as nat, on),
{
    let mut spans = style::no_spans();
    style::push_span(&mut spans, String::from_str(cursor(on)), Style::plain());
    style::push_span(&mut spans, around(name, " ", ""), Style::color(Color::Magenta));
    style::push_span(
        &mut spans,
        around("(", &text::format_u64(n as u64), ")"),
        Style { fg: None, bold: on, struck: false },
    );
    proof {
        reveal_strlit("");
        assert(name@ + " "@ + ""@ =~= name@ + " "@);
        assert(text::views(spans@) =~= project_row(name@, n as nat, on).spans);
    }
    style::make_line(spans)
}

impl App {
    /// The project level of the hierarchy: every project with its task count,
    /// plus an "all projects" aggregate. Selecting one scopes the task list.
    fn render_project_picker(&self) -> (r: Pane)
        ensures
            r@ == project_pane(self@),
    {
        let names = self.project_list();
        let ghost all = text::views(names@);
        proof {
            assert(app::projects_of_app(self@).len() == names@.len());
        }
        let sel = clamp_past(self.project_sel, names.len());
        let ghost rows = project_rows(self@, sel as int);
        let mut lines = style::one_line(
            show_project("all projects", count_rows(&self.tasks, None), sel == 0),
        );
        proof {
            assert(rows.take(1) =~= seq![rows[0]]);
        }
        let mut i: usize = 0;
        while i < names.len()
            invariant
                i <= names.len(),
                all == text::views(names@),
                all == app::projects_of_app(self@),
                rows == project_rows(self@, sel as int),
                text::views(lines@) == rows.take(i + 1),
            decreases names.len() - i,
        {
            let on = sel > 0 && sel - 1 == i;
            let n = count_rows(&self.tasks, Some(names[i].as_str()));
            style::push_styled(&mut lines, show_project(&names[i], n, on));
            proof {
                assert(rows[i + 1] == project_row(
                    all[i as int],
                    count_in(self@.tasks, Some(all[i as int])),
                    on,
                ));
                assert(rows.take(i + 2) =~= rows.take(i + 1).push(rows[i + 1]));
            }
            i += 1;
        }
        proof {
            assert(rows.take(rows.len() as int) =~= rows);
        }
        Pane { title: String::from_str(" projects — Enter to select · Esc cancel "), lines }
    }
}

// ---------------------------------------------------------------------------
// Tasks
// ---------------------------------------------------------------------------

/// The color of a status.
pub open spec fn status_color(s: Status) -> Color {
    match s {
        Status::Inbox => Color::Yellow,
        Status::Active => Color::Green,
        Status::Done => Color::Blue,
        Status::Canceled => Color::DarkGray,
    }
}

/// The project of a row, where it is shown: a project tag is redundant once a single
/// project is scoped.
pub open spec fn project_tag(t: TaskRowV, scoped: bool) -> Seq<SpanV> {
    if !scoped && t.project.len() > 0 {
        seq![style::styled(t.project + " "@, Style::in_color(Color::Magenta))]
    } else {
        seq![]
    }
}

/// The dot of a live run.
pub open spec fn live_dot(t: TaskRowV) -> Seq<SpanV> {
    if row::is_live(t.run_state) {
        seq![style::styled(" ●"@, Style::in_color(Color::Green))]
    } else {
        seq![]
    }
}

/// The look of a task's name: green while a run is live.
pub open spec fn task_look(t: TaskRowV, on: bool) -> Style {
    Style {
        fg: if row::is_live(t.run_state) {
            Some(Color::Green)
        } else {
            None
        },
        bold: on,
        struck: false,
    }
}

/// The row of a task.
pub open spec fn task_row(t: TaskRowV, on: bool, scoped: bool) -> LineV {
    style::line_of(
        seq![
            style::raw(marker(on)),
            style::styled("["@ + t.status.name() + "] "@, Style::in_color(status_color(t.status))),
        ] + project_tag(t, scoped) + seq![
            style::styled(t.slug + " — "@ + t.title, task_look(t, on)),
        ] + live_dot(t),
    )
}

/// The rows of the tasks that are shown.
pub open spec fn task_rows(a: AppV) -> Seq<LineV> {
    let vis = app::visible_of(a);
    Seq::new(
        vis.len(),
        |i: int|
            task_row(
                a.tasks[vis[i]],
                i == app::clamped(a.selected, vis.len()),
                a.project_scope is Some,
            ),
    )
}

/// The scope of the list, with the run agent of the scoped project beside it.
pub open spec fn scope_title(a: AppV) -> Seq<char> {
    match a.project_scope {
        Some(p) => match a.scope_agent {
            Some(agent) => p + " ("@ + agent + ")"@,
            None => p,
        },
        None => "all"@,
    }
}

/// The filter, where there is one.
pub open spec fn filter_title(a: AppV) -> Seq<char> {
    if a.filter.len() == 0 {
        seq![]
    } else {
        "filter: "@ + a.filter
    }
}

/// The list of tasks.
pub open spec fn task_pane(a: AppV) -> PaneV {
    PaneV {
        title: " tasks ["@ + scope_title(a) + " · "@ + app::tab_called(a.tab) + "] "@
            + filter_title(a) + " "@,
        lines: task_rows(a),
    }
}

/// The color of a status.
fn color_of_status(s: Status) -> (r: Color)
    ensures
        r == status_color(s),
{
    match s {
        Status::Inbox => Color::Yellow,
        Status::Active => Color::Green,
        Status::Done => Color::Blue,
        Status::Canceled => Color::DarkGray,
    }
}

/// The row of a task.
fn show_task(t: &TaskRow, on: bool, scoped: bool) -> (r: Line)
    ensures
        r@ == task_row(t@, on, scoped),
{
    let mut spans = style::no_spans();
    style::push_span(&mut spans, String::from_str(cursor(on)), Style::plain());
    style::push_span(
        &mut spans,
        around("[", t.status.as_str(), "] "),
        Style::color(color_of_status(t.status)),
    );
    let ghost head = text::views(spans@);
    proof {
        reveal_strlit("");
        assert(head =~= seq![
            style::raw(marker(on)),
            style::styled(
                "["@ + t@.status.name() + "] "@,
                Style::in_color(status_color(t@.status)),
            ),
        ]);
    }
    if !scoped && !t.project.as_str().is_empty() {
        style::push_span(&mut spans, around(&t.project, " ", ""), Style::color(Color::Magenta));
        assert(t@.project + " "@ + ""@ =~= t@.project + " "@);
    }
    assert(text::views(spans@) =~= head + project_tag(t@, scoped));
    let ghost tagged = text::views(spans@);
    let live = t.is_running();
    let fg = if live {
        Some(Color::Green)
    } else {
        None
    };
    style::push_span(
        &mut spans,
        around(&t.slug, " — ", &t.title),
        Style { fg, bold: on, struck: false },
    );
    assert(text::views(spans@) =~= tagged + seq![
        style::styled(t@.slug + " — "@ + t@.title, task_look(t@, on)),
    ]);
    let ghost named = text::views(spans@);
    // a live background run gets a green dot; other states stay quiet
    if live {
        style::push_span(&mut spans, String::from_str(" ●"), Style::color(Color::Green));
    }
    assert(text::views(spans@) =~= named + live_dot(t@));
    style::make_line(spans)
}

impl App {
    /// The title of the task list.
    fn task_title(&self) -> (r: String)
        requires
            self.wf(),
        ensures
            r@ == task_pane(self@).title,
    {
        let mut title = String::from_str(" tasks [");
        title.append(&self.scope_name());
        match (&self.project_scope, &self.scope_agent) {
            (Some(_), Some(agent)) => {
                title.append(" (");
                title.append(agent);
                title.append(")");
            },
            _ => {},
        }
        assert(title@ =~= " tasks ["@ + scope_title(self@));
        title.append(" · ");
        title.append(self.tab_name());
        title.append("] ");
        if !self.filter.as_str().is_empty() {
            title.append("filter: ");
            title.append(&self.filter);
        }
        assert(title@ =~= " tasks ["@ + scope_title(self@) + " · "@ + app::tab_called(self@.tab)
            + "] "@ + filter_title(self@));
        title.append(" ");
        title
    }

    /// The task list.
    fn render_task_list(&self) -> (r: Pane)
        requires
            self.wf(),
        ensures
            r@ == task_pane(self@),
    {
        let title = self.task_title();
        let vis = self.visible();
        let mut lines = style::no_lines();
        proof {
            assert(app::visible_of(self@).len() == vis@.len());
        }
        if vis.len() == 0 {
            assert(text::views(lines@) =~= task_rows(self@));
            return Pane { title, lines };
        }
        let sel = clamp(self.selected, vis.len());
        let scoped = self.project_scope.is_some();
        let ghost rows = task_rows(self@);
        let mut i: usize = 0;
        while i < vis.len()
            invariant
                i <= vis.len(),
                app::ints(vis@) == app::visible_of(self@),
                forall|k: int| 0 <= k < vis@.len() ==> (#[trigger] vis@[k]) < self.tasks.len(),
                sel == app::clamped(self@.selected, vis@.len()),
                scoped == (self@.project_scope is Some),
                rows == task_rows(self@),
                text::views(lines@) == rows.take(i as int),
            decreases vis.len() - i,
        {
            style::push_styled(&mut lines, show_task(&self.tasks[vis[i]], i == sel, scoped));
            proof {
                assert(app::ints(vis@)[i as int] == vis@[i as int]);
                assert(app::visible_of(self@).len() == vis@.len());
                assert(rows.take(i + 1) =~= rows.take(i as int).push(rows[i as int]));
            }
            i += 1;
        }
        proof {
            assert(rows.len() == vis@.len());
            assert(rows.take(rows.len() as int) =~= rows);
        }
        Pane { title, lines }
    }
}

// ---------------------------------------------------------------------------
// Which of them
// ---------------------------------------------------------------------------

/// The left pane.
pub open spec fn list_pane(a: AppV) -> PaneV {
    if a.viewing_worktrees {
        worktree_pane(a)
    } else if a.viewing_items {
        item_pane(a)
    } else if a.issuing {
        issue_pane(a)
    } else if a.picking_project {
        project_pane(a)
    } else {
        task_pane(a)
    }
}

impl App {
    /// The left pane.
    pub fn render_list(&self) -> (r: Pane)
        requires
            self.wf(),
        ensures
            r@ == list_pane(self@),
    {
        if self.viewing_worktrees {
            self.render_worktree_list()
        } else if self.viewing_items {
            self.render_item_list()
        } else if self.issuing {
            self.render_issue_picker()
        } else if self.picking_project {
            self.render_project_picker()
        } else {
            self.render_task_list()
        }
    }
}

} // verus!
