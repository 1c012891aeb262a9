//! What the dashboard shows.
use crate::gitx::{Worktree, WorktreeV};
use crate::text;
use crate::ui::app::{self, App, AppV, Summarizing, SummarizingV};
use crate::ui::input;
use crate::ui::keys::{ForcePush, ForcePushV, ForceSurface};
use crate::ui::markdown;
use crate::ui::panes::{self, Pane, PaneV};
use crate::ui::row::{self, TaskRow, TaskRowV};
use crate::ui::style::{self, Color, Line, LineV, Span, SpanV, Style};
use vstd::prelude::*;
use vstd::string::*;

verus! {

/// A box over the middle of the dashboard.
#[derive(Debug)]
pub struct Overlay {
    pub title: String,
    pub body: String,
    pub border: Color,
    /// The color of the text; the terminal's own where there is none.
    pub text: Option<Color>,
    /// How much of the screen's width and height it takes, in percent.
    pub width: u16,
    pub height: u16,
}

/// What an [`Overlay`] stands for.
#[verifier::ext_equal]
pub struct OverlayV {
    pub title: Seq<char>,
    pub body: Seq<char>,
    pub border: Color,
    pub text: Option<Color>,
    pub width: u16,
    pub height: u16,
}

impl View for Overlay {
    type V = OverlayV;

    open spec fn view(&self) -> OverlayV {
        OverlayV {
            title: self.title@,
            body: self.body@,
            border: self.border,
            text: self.text,
            width: self.width,
            height: self.height,
        }
    }
}

/// What the dashboard shows: a list, the meta pane above the preview, the status
/// line, and a box over them.
#[derive(Debug)]
pub struct Screen {
    pub list: Pane,
    pub meta: Pane,
    pub preview: Pane,
    pub status: String,
    pub overlay: Option<Overlay>,
}

/// What a [`Screen`] stands for.
pub struct ScreenV {
    pub list: PaneV,
    pub meta: PaneV,
    pub preview: PaneV,
    pub status: Seq<char>,
    pub overlay: Option<OverlayV>,
}

impl View for Screen {
    type V = ScreenV;

    open spec fn view(&self) -> ScreenV {
        ScreenV {
            list: self.list@,
            meta: self.meta@,
            preview: self.preview@,
            status: self.status@,
            overlay: opt_overlay(self.overlay),
        }
    }
}

/// An optional box.
pub open spec fn opt_overlay(o: Option<Overlay>) -> Option<OverlayV> {
    match o {
        Some(o) => Some(o@),
        None => None,
    }
}

// ---------------------------------------------------------------------------
// Meta
// ---------------------------------------------------------------------------

/// How many bytes a character takes.
pub open spec fn char_bytes(c: char) -> nat {
    if (c as u32) < 0x80 {
        1
    } else if (c as u32) < 0x800 {
        2
    } else if (c as u32) < 0x10000 {
        3
    } else {
        4
    }
}

/// How many bytes a text takes.
pub open spec fn byte_len(s: Seq<char>) -> nat
    decreases s.len(),
{
    if s.len() == 0 {
        0
    } else {
        byte_len(s.drop_last()) + char_bytes(s.last())
    }
}

/// The first `n` bytes of a text; all of it where they do not end a character.
pub open spec fn first_bytes(s: Seq<char>, n: nat) -> Seq<char> {
    if exists|k: int| 0 <= k <= s.len() && byte_len(#[trigger] s.take(k)) == n {
        s.take(choose|k: int| 0 <= k <= s.len() && byte_len(#[trigger] s.take(k)) == n)
    } else {
        s
    }
}

/// A longer beginning takes more bytes.
proof fn lemma_bytes_grow(s: Seq<char>, i: int, j: int)
    requires
        0 <= i < j <= s.len(),
    ensures
        byte_len(s.take(i)) < byte_len(s.take(j)),
    decreases j - i,
{
    assert(s.take(j).drop_last() =~= s.take(j - 1));
    if i < j - 1 {
        lemma_bytes_grow(s, i, j - 1);
    }
}

/// How many bytes a character takes.
fn width(c: char) -> (r: usize)
    ensures
        r == char_bytes(c),
{
    let n = c as u32;
    if n < 0x80 {
        1
    } else if n < 0x800 {
        2
    } else if n < 0x10000 {
        3
    } else {
        4
    }
}

/// The first `n` bytes of a text; all of it where they do not end a character.
pub fn byte_prefix(s: &str, n: usize) -> (r: String)
    ensures
        r@ == first_bytes(s@, n as nat),
{
    let v = text::chars_of(s);
    let mut left: usize = n;
    let mut i: usize = 0;
    proof {
        assert(s@.take(0) =~= Seq::<char>::empty());
    }
    while i < v.len() && left > 0
        invariant
            i <= v.len(),
            v@ == s@,
            left <= n,
            byte_len(s@.take(i as int)) + left == n,
        decreases v.len() - i,
    {
        let w = width(v[i]);
        proof {
            assert(s@.take(i + 1).drop_last() =~= s@.take(i as int));
        }
        if w > left {
            proof {
                assert forall|k: int| 0 <= k <= s@.len() implies byte_len(#[trigger] s@.take(k)) != n by {
                    if k < i {
                        lemma_bytes_grow(s@, k, i as int);
                    } else if k > i + 1 {
                        lemma_bytes_grow(s@, i + 1, k);
                    }
                }
            }
            return String::from_str(s);
        }
        left -= w;
        i += 1;
    }
    proof {
        assert forall|k: int| 0 <= k <= s@.len() && k != i implies byte_len(#[trigger] s@.take(k))
            != byte_len(s@.take(i as int)) by {
            if k < i {
                lemma_bytes_grow(s@, k, i as int);
            } else {
                lemma_bytes_grow(s@, i as int, k);
            }
        }
        if left > 0 {
            assert forall|k: int| 0 <= k <= s@.len() implies byte_len(#[trigger] s@.take(k)) != n by {
                if k < i {
                    lemma_bytes_grow(s@, k, i as int);
                }
            }
        } else {
            assert(byte_len(s@.take(i as int)) == n);
        }
    }
    if left > 0 {
        String::from_str(s)
    } else {
        let r = text::slice_of(&v, 0, i);
        assert(s@.subrange(0, i as int) =~= s@.take(i as int));
        r
    }
}

/// What stands for nothing.
pub open spec fn dash() -> Seq<char> {
    "—"@
}

/// The label of a linked issue or pull request.
pub open spec fn linked_label(n: Option<u64>) -> Seq<char> {
    match n {
        Some(n) => "#"@ + text::decimal(n as nat),
        None => dash(),
    }
}

/// The label of a branch, with how it is backed: an isolated worktree, or a plain
/// branch of the main repository.
pub open spec fn branch_label(t: TaskRowV) -> Seq<char> {
    match t.branch {
        Some(b) => if t.worktree is Some {
            b + " (worktree)"@
        } else {
            b + " (branch)"@
        },
        None => dash(),
    }
}

/// The label and the color of a background session's state.
pub open spec fn run_label(state: Option<Seq<char>>) -> (Seq<char>, Color) {
    match state {
        None => (dash(), Color::DarkGray),
        Some(s) => if s == "working"@ {
            ("running"@, Color::Green)
        } else if s == "done"@ {
            ("done"@, Color::Blue)
        } else if s == "failed"@ {
            ("failed"@, Color::Red)
        } else if s == "blocked"@ {
            ("blocked"@, Color::Yellow)
        } else if s == "stopped"@ {
            ("stopped"@, Color::DarkGray)
        } else {
            (s, Color::Gray)
        },
    }
}

/// Some text, or what stands for nothing.
pub open spec fn or_dash(s: Option<Seq<char>>) -> Seq<char> {
    match s {
        Some(s) => s,
        None => dash(),
    }
}

/// The label of tags.
pub open spec fn tags_label(tags: Seq<Seq<char>>) -> Seq<char> {
    if tags.len() == 0 {
        dash()
    } else {
        text::joined(tags, ", "@)
    }
}

/// A dim text.
pub open spec fn dim(t: Seq<char>) -> SpanV {
    style::styled(t, Style::in_color(Color::DarkGray))
}

/// The line of a task's branch and run.
pub open spec fn branch_line(t: TaskRowV) -> LineV {
    let (run, color) = run_label(t.run_state);
    style::line_of(
        seq![
            dim("branch: "@),
            style::raw(branch_label(t)),
            dim("   run: "@),
            style::styled(run, Style::in_color(color)),
        ],
    )
}

/// The line of a task's issue and pull request.
pub open spec fn links_line(t: TaskRowV) -> LineV {
    style::line_of(
        seq![
            dim("issue: "@),
            style::raw(linked_label(t.github_issue)),
            dim("   PR: "@),
            style::raw(linked_label(t.github_pr)),
            style::raw(
                if t.shared {
                    "   shared"@
                } else {
                    seq![]
                },
            ),
        ],
    )
}

/// The line of a task's days and tags.
pub open spec fn days_line(t: TaskRowV) -> LineV {
    style::line_of(
        seq![
            dim("created "@),
            style::raw(first_bytes(t.created_at, 10)),
            dim("  updated "@),
            style::raw(first_bytes(t.updated_at, 10)),
            dim("  tags: "@),
            style::raw(tags_label(t.tags)),
        ],
    )
}

/// The frontmatter of a task as compact lines.
pub open spec fn meta_of(t: TaskRowV) -> Seq<LineV> {
    seq![
        style::line_of(seq![style::styled(t.id, panes::emphasis(true))]),
        branch_line(t),
        style::line_of(seq![dim("dir: "@), style::raw(or_dash(row::dir_of_row(t)))]),
        links_line(t),
        days_line(t),
    ]
}

/// The meta pane.
pub open spec fn meta_pane(a: AppV) -> PaneV {
    match app::selected_row(a) {
        Some(t) => PaneV { title: " meta "@, lines: meta_of(t) },
        None => panes::notice(" meta "@, dash()),
    }
}

/// Adds a dim text.
fn push_dim(spans: &mut Vec<Span>, t: &str)
    ensures
        text::views(final(spans)@) == text::views(old(spans)@).push(dim(t@)),
{
    style::push_span(spans, String::from_str(t), Style::color(Color::DarkGray));
}

/// Adds an ordinary text.
fn push_raw(spans: &mut Vec<Span>, t: String)
    ensures
        text::views(final(spans)@) == text::views(old(spans)@).push(style::raw(t@)),
{
    style::push_span(spans, t, Style::plain());
}

/// The label of a linked issue or pull request.
fn label_link(n: Option<u64>) -> (r: String)
    ensures
        r@ == linked_label(n),
{
    match n {
        Some(n) => {
            let mut r = String::from_str("#");
            r.append(&text::format_u64(n));
            r
        },
        None => String::from_str("—"),
    }
}

/// The label of a branch.
fn label_branch(t: &TaskRow) -> (r: String)
    ensures
        r@ == branch_label(t@),
{
    match &t.branch {
        Some(b) => {
            let mut r = b.clone();
            if t.is_worktree() {
                r.append(" (worktree)");
            } else {
                r.append(" (branch)");
            }
            r
        },
        None => String::from_str("—"),
    }
}

/// Human label + color for a background-session state.
pub fn run_state_label(state: Option<&str>) -> (r: (String, Color))
    ensures
        (r.0@, r.1) == run_label(crate::projects::str_view(state)),
{
    match state {
        None => (String::from_str("—"), Color::DarkGray),
        Some(s) => if text::same(s, "working") {
            (String::from_str("running"), Color::Green)
        } else if text::same(s, "done") {
            (String::from_str("done"), Color::Blue)
        } else if text::same(s, "failed") {
            (String::from_str("failed"), Color::Red)
        } else if text::same(s, "blocked") {
            (String::from_str("blocked"), Color::Yellow)
        } else if text::same(s, "stopped") {
            (String::from_str("stopped"), Color::DarkGray)
        } else {
            (String::from_str(s), Color::Gray)
        },
    }
}

/// The line of a task's branch and run.
fn show_branch(t: &TaskRow) -> (r: Line)
    ensures
        r@ == branch_line(t@),
{
    let state = match &t.run_state {
        Some(s) => Some(s.as_str()),
        None => None,
    };
    let (run, color) = run_state_label(state);
    let mut spans = style::no_spans();
    push_dim(&mut spans, "branch: ");
    push_raw(&mut spans, label_branch(t));
    push_dim(&mut spans, "   run: ");
    style::push_span(&mut spans, run, Style::color(color));
    assert(text::views(spans@) =~= branch_line(t@).spans);
    style::make_line(spans)
}

/// The line of a task's issue and pull request.
fn show_links(t: &TaskRow) -> (r: Line)
    ensures
        r@ == links_line(t@),
{
    let mut spans = style::no_spans();
    push_dim(&mut spans, "issue: ");
    push_raw(&mut spans, label_link(t.github_issue));
    push_dim(&mut spans, "   PR: ");
    push_raw(&mut spans, label_link(t.github_pr));
    if t.shared {
        push_raw(&mut spans, String::from_str("   shared"));
    } else {
        push_raw(&mut spans, String::new());
    }
    assert(text::views(spans@) =~= links_line(t@).spans);
    style::make_line(spans)
}

/// The label of tags.
fn label_tags(tags: &Vec<String>) -> (r: String)
    ensures
        r@ == tags_label(text::views(tags@)),
{
    proof {
        assert(text::views(tags@).len() == tags@.len());
    }
    if tags.len() == 0 {
        String::from_str("—")
    } else {
        text::join(tags, ", ")
    }
}

/// The line of a task's days and tags.
fn show_days(t: &TaskRow) -> (r: Line)
    ensures
        r@ == days_line(t@),
{
    let mut spans = style::no_spans();
    push_dim(&mut spans, "created ");
    push_raw(&mut spans, byte_prefix(&t.created_at, 10));
    push_dim(&mut spans, "  updated ");
    push_raw(&mut spans, byte_prefix(&t.updated_at, 10));
    push_dim(&mut spans, "  tags: ");
    push_raw(&mut spans, label_tags(&t.tags));
    assert(text::views(spans@) =~= days_line(t@).spans);
    style::make_line(spans)
}

/// Render the selected task's frontmatter as compact lines for the meta pane.
pub fn meta_lines(t: &TaskRow) -> (r: Vec<Line>)
    ensures
        text::views(r@) == meta_of(t@),
{
    let mut lines = style::no_lines();
    let mut id = style::no_spans();
    style::push_span(&mut id, t.id.clone(), Style { fg: None, bold: true, struck: false });
    assert(text::views(id@) =~= seq![style::styled(t@.id, panes::emphasis(true))]);
    style::push_styled(&mut lines, style::make_line(id));
    style::push_styled(&mut lines, show_branch(t));
    let mut dir = style::no_spans();
    push_dim(&mut dir, "dir: ");
    match t.work_dir() {
        Some(d) => push_raw(&mut dir, d),
        None => push_raw(&mut dir, String::from_str("—")),
    }
    assert(text::views(dir@) =~= seq![dim("dir: "@), style::raw(or_dash(row::dir_of_row(t@)))]);
    style::push_styled(&mut lines, style::make_line(dir));
    style::push_styled(&mut lines, show_links(t));
    style::push_styled(&mut lines, show_days(t));
    assert(text::views(lines@) =~= meta_of(t@));
    lines
}

impl App {
    /// A compact pane above the preview showing the selected task's frontmatter
    /// (id, branch, issue/PR numbers, timestamps, tags) — data the body doesn't show.
    fn render_meta(&self) -> (r: Pane)
        requires
            self.wf(),
        ensures
            r@ == meta_pane(self@),
    {
        match self.selected_task() {
            Some(t) => Pane { title: String::from_str(" meta "), lines: meta_lines(t) },
            None => panes::show_notice(String::from_str(" meta "), "—"),
        }
    }
}

// ---------------------------------------------------------------------------
// The preview
// ---------------------------------------------------------------------------

/// The id of an item, or what stands for none.
pub open spec fn shown_id(id: Option<Seq<char>>) -> Seq<char> {
    match id {
        Some(id) => id,
        None => "-"@,
    }
}

/// The log entries of the item under the cursor.
pub open spec fn item_log_pane(a: AppV) -> PaneV {
    match app::selected_row(a) {
        None => panes::notice(" log "@, "no task selected"@),
        Some(t) => {
            let its = input::shown_items(t.body);
            if its.len() == 0 {
                panes::notice(" log "@, "no checklist items"@)
            } else {
                let id = shown_id(its[app::clamped(a.item_sel, its.len())].id);
                let title = " log · item "@ + id + " "@;
                let logs = markdown::log_of_item(t.body, id);
                if logs.len() == 0 {
                    PaneV {
                        title,
                        lines: seq![
                            style::whole_line(
                                "no Agent Log entries reference Task"@ + id,
                                Style::in_color(Color::DarkGray),
                            ),
                        ],
                    }
                } else {
                    PaneV {
                        title,
                        lines: markdown::rendered(text::lines_of(text::joined(logs, "\n"@))),
                    }
                }
            }
        },
    }
}

/// The flags of a worktree.
pub open spec fn flags_of(w: WorktreeV) -> Seq<Seq<char>> {
    (if w.is_main {
        seq!["main"@]
    } else {
        seq![]
    }) + (if w.locked {
        seq!["locked"@]
    } else {
        seq![]
    }) + (if w.prunable {
        seq!["prunable"@]
    } else {
        seq![]
    })
}

/// The commit of a worktree, in short.
pub open spec fn head_label(w: WorktreeV) -> Seq<char> {
    match w.head {
        Some(h) => first_bytes(h, 12),
        None => dash(),
    }
}

/// A line with a dim label.
pub open spec fn labeled(label: Seq<char>, t: Seq<char>) -> LineV {
    style::line_of(seq![dim(label), style::raw(t)])
}

/// The details of a worktree.
pub open spec fn worktree_details(w: WorktreeV) -> Seq<LineV> {
    seq![
        labeled("path:   "@, w.path),
        labeled("branch: "@, panes::worktree_label(w).0),
        labeled("HEAD:   "@, head_label(w)),
        labeled("flags:  "@, tags_label(flags_of(w))),
    ]
}

/// The details of the worktree under the cursor.
pub open spec fn worktree_detail_pane(a: AppV) -> PaneV {
    if a.worktrees.len() == 0 {
        panes::notice(" worktree "@, "no worktrees"@)
    } else {
        PaneV {
            title: " worktree "@,
            lines: worktree_details(
                a.worktrees[app::clamped(a.worktree_sel, a.worktrees.len())],
            ),
        }
    }
}

/// The preview.
pub open spec fn preview_pane(a: AppV) -> PaneV {
    if a.viewing_worktrees {
        worktree_detail_pane(a)
    } else if a.viewing_items {
        item_log_pane(a)
    } else {
        match app::selected_row(a) {
            Some(t) => PaneV {
                title: " preview "@,
                lines: markdown::rendered(text::lines_of(t.body)),
            },
            None => panes::notice(" preview "@, "no task selected"@),
        }
    }
}

/// A line with a dim label.
fn show_labeled(label: &str, t: String) -> (r: Line)
    ensures
        r@ == labeled(label@, t@),
{
    let mut spans = style::no_spans();
    push_dim(&mut spans, label);
    push_raw(&mut spans, t);
    assert(text::views(spans@) =~= labeled(label@, t@).spans);
    style::make_line(spans)
}

/// The flags of a worktree.
fn list_flags(w: &Worktree) -> (r: Vec<String>)
    ensures
        text::views(r@) == flags_of(w@),
{
    let mut flags: Vec<String> = Vec::new();
    if w.is_main {
        flags.push(String::from_str("main"));
    }
    if w.locked {
        flags.push(String::from_str("locked"));
    }
    if w.prunable {
        flags.push(String::from_str("prunable"));
    }
    assert(text::views(flags@) =~= flags_of(w@));
    flags
}

/// The details of a worktree.
fn show_worktree_details(w: &Worktree) -> (r: Vec<Line>)
    ensures
        text::views(r@) == worktree_details(w@),
{
    let branch = if w.bare {
        String::from_str("(bare)")
    } else {
        match &w.branch {
            Some(b) => b.clone(),
            None => String::from_str("(detached)"),
        }
    };
    let head = match &w.head {
        Some(h) => byte_prefix(h, 12),
        None => String::from_str("—"),
    };
    let mut lines = style::no_lines();
    style::push_styled(&mut lines, show_labeled("path:   ", w.path.clone()));
    style::push_styled(&mut lines, show_labeled("branch: ", branch));
    style::push_styled(&mut lines, show_labeled("HEAD:   ", head));
    style::push_styled(&mut lines, show_labeled("flags:  ", label_tags(&list_flags(w))));
    assert(text::views(lines@) =~= worktree_details(w@));
    lines
}

impl App {
    /// Preview pane while drilled into items: the Agent-Log entries that
    /// reference the selected item (by the `Task<id>` convention the run skill
    /// uses), or a hint when none mention it.
    fn render_item_log(&self) -> (r: Pane)
        requires
            self.wf(),
        ensures
            r@ == item_log_pane(self@),
    {
        let t = match self.selected_task() {
            Some(t) => t,
            None => {
                return panes::show_notice(String::from_str(" log "), "no task selected");
            },
        };
        let its = input::task_items(&t.body);
        proof {
            assert(input::shown_items(t@.body).len() == its@.len());
        }
        if its.len() == 0 {
            return panes::show_notice(String::from_str(" log "), "no checklist items");
        }
        let sel = panes::clamp(self.item_sel, its.len());
        proof {
            assert(input::shown_items(t@.body)[sel as int] == its@[sel as int]@);
        }
        let id = match &its[sel].id {
            Some(id) => id.clone(),
            None => String::from_str("-"),
        };
        let title = panes::around(" log · item ", &id, " ");
        let logs = markdown::item_log_lines(&t.body, &id);
        proof {
            assert(markdown::log_of_item(t@.body, id@).len() == logs@.len());
        }
        if logs.len() == 0 {
            let mut hint = String::from_str("no Agent Log entries reference Task");
            hint.append(&id);
            let line = style::full_line(hint, Style::color(Color::DarkGray));
            return Pane { title, lines: style::one_line(line) };
        }
        Pane { title, lines: markdown::render_markdown(&text::join(&logs, "\n")) }
    }

    /// Preview pane while drilled into worktrees: the selected worktree's full
    /// path, branch/HEAD and flags — the read view of the CRUD.
    fn render_worktree_detail(&self) -> (r: Pane)
        ensures
            r@ == worktree_detail_pane(self@),
    {
        proof {
            assert(self@.worktrees.len() == self.worktrees@.len());
        }
        if self.worktrees.len() == 0 {
            return panes::show_notice(String::from_str(" worktree "), "no worktrees");
        }
        let sel = panes::clamp(self.worktree_sel, self.worktrees.len());
        Pane {
            title: String::from_str(" worktree "),
            lines: show_worktree_details(&self.worktrees[sel]),
        }
    }

    /// The preview.
    fn render_preview(&self) -> (r: Pane)
        requires
            self.wf(),
        ensures
            r@ == preview_pane(self@),
    {
        if self.viewing_worktrees {
            return self.render_worktree_detail();
        }
        if self.viewing_items {
            return self.render_item_log();
        }
        match self.selected_task() {
            Some(t) => Pane {
                title: String::from_str(" preview "),
                lines: markdown::render_markdown(&t.body),
            },
            None => panes::show_notice(String::from_str(" preview "), "no task selected"),
        }
    }
}

// ---------------------------------------------------------------------------
// The status line
// ---------------------------------------------------------------------------

/// The keys of the dashboard.
pub const KEY_HINT: &'static str = "j/k · Tab · P project · Enter edit · l items · n new · s start · m move · d done · D delete · x run · a attach · S summary · i issue · r PR · y copy dir · w worktrees · / · q quit";

/// Which project a new task goes to.
pub open spec fn new_target(a: AppV) -> Seq<char> {
    let home = match a.home_label {
        Some(l) => l,
        None => "?"@,
    };
    match app::selected_row(a) {
        Some(t) => if t.project.len() > 0 {
            t.project
        } else {
            home
        },
        None => home,
    }
}

/// The name of the worktree under the cursor.
pub open spec fn cursor_worktree(a: AppV) -> Seq<char> {
    if a.worktree_sel < a.worktrees.len() {
        match crate::paths::file_name_of(a.worktrees[a.worktree_sel as int].path) {
            Some(n) => n,
            None => seq![],
        }
    } else {
        seq![]
    }
}

/// The status line while something about items is asked.
pub open spec fn item_prompt(a: AppV) -> Option<Seq<char>> {
    let slug = panes::selected_slug(a);
    if a.creating_item {
        Some("new item ["@ + slug + "]: "@ + a.input + " · Enter add · Esc cancel"@)
    } else if a.editing_item {
        Some("edit item ["@ + slug + "]: "@ + a.input + " · Enter save · Esc cancel"@)
    } else if a.deleting_item {
        Some("delete item from "@ + slug + "? [y]es · any other key cancels"@)
    } else {
        None
    }
}

/// The status line while something about a task is asked.
pub open spec fn task_prompt(a: AppV) -> Option<Seq<char>> {
    let slug = panes::selected_slug(a);
    if a.creating {
        Some("new task ["@ + new_target(a) + "]: "@ + a.input)
    } else if a.moving {
        Some("move "@ + slug + " to: [i]nbox [a]ctive [d]one [c]anceled · Esc cancel"@)
    } else if a.deleting {
        Some("delete "@ + slug + " permanently? [y]es · any other key cancels"@)
    } else if a.starting {
        Some("start "@ + slug + ": [s]ingle [w]orktree [b]ranch · any other key cancels"@)
    } else if a.pring {
        Some("PR for "@ + slug + ": [w]orktree [b]ranch · any other key cancels"@)
    } else if a.choosing_agent {
        Some("run agent for "@ + slug + ": [c]laude code[x] [o]pencode · any other key cancels"@)
    } else {
        None
    }
}

/// The status line in a view or a picker.
pub open spec fn view_prompt(a: AppV) -> Option<Seq<char>> {
    if a.viewing_items {
        Some(
            "items "@ + panes::selected_slug(a)
                + " · j/k move · space toggle · n new · e edit · d delete · h/Esc/q back"@,
        )
    } else if a.creating_worktree {
        Some("new worktree branch: "@ + a.input + " · Enter create · Esc cancel"@)
    } else if a.deleting_worktree {
        Some("remove worktree "@ + cursor_worktree(a) + "? [y]es · any other key cancels"@)
    } else if a.viewing_worktrees {
        Some(
            "worktrees "@ + a.worktree_project
                + " · j/k move · n new · space lock · d remove · y copy · h/Esc/q back"@,
        )
    } else if a.issuing {
        Some("j/k pick project · Enter file issue · Esc cancel"@)
    } else if a.picking_project {
        Some("j/k move · Enter select project · Esc cancel"@)
    } else if a.filtering {
        Some("/"@ + a.filter)
    } else {
        None
    }
}

/// The status line: what is asked, where one is, the message, or the keys.
pub open spec fn status_text(a: AppV) -> Seq<char> {
    match item_prompt(a) {
        Some(s) => s,
        None => match task_prompt(a) {
            Some(s) => s,
            None => match view_prompt(a) {
                Some(s) => s,
                None => if a.message.len() > 0 {
                    a.message
                } else {
                    KEY_HINT@
                },
            },
        },
    }
}

impl App {
    /// The slug of the selected task.
    fn slug_of_selected(&self) -> (r: String)
        requires
            self.wf(),
        ensures
            r@ == panes::selected_slug(self@),
    {
        match self.selected_task() {
            Some(t) => t.slug.clone(),
            None => String::new(),
        }
    }

    /// Which project a new task goes to.
    fn target_of_new(&self) -> (r: String)
        requires
            self.wf(),
        ensures
            r@ == new_target(self@),
    {
        match self.selected_task() {
            Some(t) => {
                if !t.project.as_str().is_empty() {
                    return t.project.clone();
                }
            },
            None => {},
        }
        match &self.home_label {
            Some(l) => l.clone(),
            None => String::from_str("?"),
        }
    }

    /// The name of the worktree under the cursor.
    fn worktree_of_cursor(&self) -> (r: String)
        ensures
            r@ == cursor_worktree(self@),
    {
        proof {
            assert(self@.worktrees.len() == self.worktrees@.len());
        }
        if self.worktree_sel < self.worktrees.len() {
            match crate::paths::file_name(&self.worktrees[self.worktree_sel].path) {
                Some(n) => n,
                None => String::new(),
            }
        } else {
            String::new()
        }
    }

    /// The status line while something about items is asked.
    fn prompt_items(&self) -> (r: Option<String>)
        requires
            self.wf(),
        ensures
            text::opt_view(r) == item_prompt(self@),
    {
        if self.creating_item {
            let mut s = panes::around("new item [", &self.slug_of_selected(), "]: ");
            s.append(&self.input);
            s.append(" · Enter add · Esc cancel");
            Some(s)
        } else if self.editing_item {
            let mut s = panes::around("edit item [", &self.slug_of_selected(), "]: ");
            s.append(&self.input);
            s.append(" · Enter save · Esc cancel");
            Some(s)
        } else if self.deleting_item {
            Some(
                panes::around(
                    "delete item from ",
                    &self.slug_of_selected(),
                    "? [y]es · any other key cancels",
                ),
            )
        } else {
            None
        }
    }

    /// The status line while something about a task is asked.
    fn prompt_task(&self) -> (r: Option<String>)
        requires
            self.wf(),
        ensures
            text::opt_view(r) == task_prompt(self@),
    {
        if self.creating {
            let mut s = panes::around("new task [", &self.target_of_new(), "]: ");
            s.append(&self.input);
            return Some(s);
        }
        let slug = self.slug_of_selected();
        if self.moving {
            Some(
                panes::around(
                    "move ",
                    &slug,
                    " to: [i]nbox [a]ctive [d]one [c]anceled · Esc cancel",
                ),
            )
        } else if self.deleting {
            Some(panes::around("delete ", &slug, " permanently? [y]es · any other key cancels"))
        } else if self.starting {
            Some(
                panes::around(
                    "start ",
                    &slug,
                    ": [s]ingle [w]orktree [b]ranch · any other key cancels",
                ),
            )
        } else if self.pring {
            Some(panes::around("PR for ", &slug, ": [w]orktree [b]ranch · any other key cancels"))
        } else if self.choosing_agent {
            Some(
                panes::around(
                    "run agent for ",
                    &slug,
                    ": [c]laude code[x] [o]pencode · any other key cancels",
                ),
            )
        } else {
            None
        }
    }

    /// The status line in a view or a picker.
    fn prompt_view(&self) -> (r: Option<String>)
        requires
            self.wf(),
        ensures
            text::opt_view(r) == view_prompt(self@),
    {
        if self.viewing_items {
            Some(
                panes::around(
                    "items ",
                    &self.slug_of_selected(),
                    " · j/k move · space toggle · n new · e edit · d delete · h/Esc/q back",
                ),
            )
        } else if self.creating_worktree {
            Some(
                panes::around("new worktree branch: ", &self.input, " · Enter create · Esc cancel"),
            )
        } else if self.deleting_worktree {
            Some(
                panes::around(
                    "remove worktree ",
                    &self.worktree_of_cursor(),
                    "? [y]es · any other key cancels",
                ),
            )
        } else if self.viewing_worktrees {
            Some(
                panes::around(
                    "worktrees ",
                    &self.worktree_project,
                    " · j/k move · n new · space lock · d remove · y copy · h/Esc/q back",
                ),
            )
        } else if self.issuing {
            Some(String::from_str("j/k pick project · Enter file issue · Esc cancel"))
        } else if self.picking_project {
            Some(String::from_str("j/k move · Enter select project · Esc cancel"))
        } else if self.filtering {
            let mut s = String::from_str("/");
            s.append(&self.filter);
            Some(s)
        } else {
            None
        }
    }

    /// The status line.
    fn render_statusline(&self) -> (r: String)
        requires
            self.wf(),
        ensures
            r@ == status_text(self@),
    {
        match self.prompt_items() {
            Some(s) => {
                return s;
            },
            None => {},
        }
        match self.prompt_task() {
            Some(s) => {
                return s;
            },
            None => {},
        }
        match self.prompt_view() {
            Some(s) => {
                return s;
            },
            None => {},
        }
        if self.message.as_str().is_empty() {
            String::from_str(KEY_HINT)
        } else {
            self.message.clone()
        }
    }
}

// ---------------------------------------------------------------------------
// Overlays
// ---------------------------------------------------------------------------

/// What a remote body belongs to.
pub open spec fn surface_name(s: ForceSurface) -> Seq<char> {
    match s {
        ForceSurface::Issue => "issue"@,
        ForceSurface::Pr => "PR"@,
    }
}

/// The prompt that offers to overwrite a remote body.
pub open spec fn force_overlay(fp: ForcePushV) -> OverlayV {
    OverlayV {
        title: " sync conflict "@,
        body: "conflict on the "@ + surface_name(fp.surface) + " for '"@ + fp.slug
            + "': local and remote both changed since the last sync. Backups are in conflicts/.\n\npress f to force-push — overwrite the remote with your local copy\nany other key to cancel (resolve locally, then retry)"@,
        border: Color::Yellow,
        text: Some(Color::Yellow),
        width: 60,
        height: 35,
    }
}

/// How many frames the spinner has.
pub const FRAME_COUNT: usize = 10;

/// A frame of the spinner.
pub open spec fn frame_at(n: int) -> Seq<char> {
    if n == 0 {
        "⠋"@
    } else if n == 1 {
        "⠙"@
    } else if n == 2 {
        "⠹"@
    } else if n == 3 {
        "⠸"@
    } else if n == 4 {
        "⠼"@
    } else if n == 5 {
        "⠴"@
    } else if n == 6 {
        "⠦"@
    } else if n == 7 {
        "⠧"@
    } else if n == 8 {
        "⠇"@
    } else {
        "⠏"@
    }
}

/// The box of a running summary.
pub open spec fn summary_overlay(s: SummarizingV, frame: usize) -> OverlayV {
    OverlayV {
        title: " summary "@,
        body: frame_at(frame as int % FRAME_COUNT as int) + " summarizing "@ + s.slug + " … ("@
            + text::decimal(s.seconds as nat)
            + "s)\n\nasking the LLM to write title + Goal from the items\nCtrl-c to quit"@,
        border: Color::Cyan,
        text: Some(Color::Cyan),
        width: 50,
        height: 20,
    }
}

/// A modal text.
pub open spec fn popup_overlay(msg: Seq<char>, error: bool) -> OverlayV {
    OverlayV {
        title: if error {
            " error — press any key to dismiss "@
        } else {
            " run — press any key to dismiss "@
        },
        body: msg,
        border: if error {
            Color::Red
        } else {
            Color::Cyan
        },
        text: None,
        width: 60,
        height: 40,
    }
}

/// The box over the dashboard, if there is one.
pub open spec fn overlay_of(a: AppV) -> Option<OverlayV> {
    match a.summarizing {
        Some(s) => Some(summary_overlay(s, a.spinner_frame)),
        None => match a.force_push {
            Some(fp) => Some(force_overlay(fp)),
            None => match a.popup {
                Some(msg) => Some(popup_overlay(msg, a.popup_error)),
                None => None,
            },
        },
    }
}

/// A centered prompt offering to force-push after a sync conflict — `f`
/// overwrites the remote with the local copy, any other key cancels.
fn render_force_push(fp: &ForcePush) -> (r: Overlay)
    ensures
        r@ == force_overlay(fp@),
{
    let surface = match fp.surface {
        ForceSurface::Issue => "issue",
        ForceSurface::Pr => "PR",
    };
    let mut body = panes::around("conflict on the ", surface, " for '");
    body.append(&fp.slug);
    body.append(
        "': local and remote both changed since the last sync. Backups are in conflicts/.\n\npress f to force-push — overwrite the remote with your local copy\nany other key to cancel (resolve locally, then retry)",
    );
    Overlay {
        title: String::from_str(" sync conflict "),
        body,
        border: Color::Yellow,
        text: Some(Color::Yellow),
        width: 60,
        height: 35,
    }
}

/// A frame of the spinner.
fn spinner(n: usize) -> (r: &'static str)
    ensures
        r@ == frame_at(n as int % FRAME_COUNT as int),
{
    match n % FRAME_COUNT {
        0 => "⠋",
        1 => "⠙",
        2 => "⠹",
        3 => "⠸",
        4 => "⠼",
        5 => "⠴",
        6 => "⠦",
        7 => "⠧",
        8 => "⠇",
        _ => "⠏",
    }
}

/// A centered "summarizing…" overlay with an animated spinner and an
/// elapsed-seconds readout, shown while the `rein summary` worker runs so a
/// slow LLM reads as working rather than frozen.
fn render_summarizing(s: &Summarizing, frame: usize) -> (r: Overlay)
    ensures
        r@ == summary_overlay(s@, frame),
{
    let mut body = panes::around(spinner(frame), " summarizing ", &s.slug);
    body.append(" … (");
    body.append(&text::format_u64(s.seconds));
    body.append("s)\n\nasking the LLM to write title + Goal from the items\nCtrl-c to quit");
    Overlay {
        title: String::from_str(" summary "),
        body,
        border: Color::Cyan,
        text: Some(Color::Cyan),
        width: 50,
        height: 20,
    }
}

/// A centered modal over the dashboard for predictable failures (e.g. a
/// branch that already exists), dismissed with any key.
fn render_popup(msg: &str, error: bool) -> (r: Overlay)
    ensures
        r@ == popup_overlay(msg@, error),
{
    let (border, title) = if error {
        (Color::Red, " error — press any key to dismiss ")
    } else {
        (Color::Cyan, " run — press any key to dismiss ")
    };
    Overlay {
        title: String::from_str(title),
        body: String::from_str(msg),
        border,
        text: None,
        width: 60,
        height: 40,
    }
}

/// What the dashboard shows.
pub open spec fn screen_of(a: AppV) -> ScreenV {
    ScreenV {
        list: panes::list_pane(a),
        meta: meta_pane(a),
        preview: preview_pane(a),
        status: status_text(a),
        overlay: overlay_of(a),
    }
}

impl App {
    /// The box over the dashboard: a running summary, an offer to overwrite a remote
    /// body, or a modal text, whichever comes first.
    fn render_overlay(&self) -> (r: Option<Overlay>)
        ensures
            opt_overlay(r) == overlay_of(self@),
    {
        match &self.summarizing {
            Some(s) => {
                return Some(render_summarizing(s, self.spinner_frame));
            },
            None => {},
        }
        match &self.force_push {
            Some(fp) => {
                return Some(render_force_push(fp));
            },
            None => {},
        }
        match &self.popup {
            Some(msg) => Some(render_popup(msg, self.popup_error)),
            None => None,
        }
    }

    /// What the dashboard shows.
    pub fn render(&self) -> (r: Screen)
        requires
            self.wf(),
        ensures
            r@ == screen_of(self@),
    {
        Screen {
            list: self.render_list(),
            meta: self.render_meta(),
            preview: self.render_preview(),
            status: self.render_statusline(),
            overlay: self.render_overlay(),
        }
    }
}

} // verus!
