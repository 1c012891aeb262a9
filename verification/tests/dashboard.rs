use rein::commands::run::Agent;
use rein::commands::syncing::SyncError;
use rein::gitx::Worktree;
use rein::store::Status;
use rein::sync::Conflict;
use rein::store::Store;
use rein::ui::loading::{run_states, shown_agent, Pick};
use rein::ui::work::{dispatch, Job, Verb};
use rein::ui::{
    render_markdown, App, Color, ForceSurface, KeyCode, KeyEvent, Line, Pane, StartMode, TaskRow,
    UiAction,
};

fn rows() -> Vec<TaskRow> {
    rows_in("")
}

fn rows_in(project: &str) -> Vec<TaskRow> {
    let project = project.to_string();
    let mk = move |slug: &str, title: &str, status: Status, body: &str| TaskRow {
        id: format!("task-20260613-{}", slug),
        slug: slug.to_string(),
        title: title.to_string(),
        status,
        path: format!("/store/{}/{}.md", status.as_str(), slug),
        body: body.to_string(),
        branch: None,
        github_issue: None,
        github_pr: None,
        created_at: String::new(),
        updated_at: String::new(),
        tags: Vec::new(),
        shared: false,
        project: project.clone(),
        store_root: String::from("/store"),
        run_state: None,
        worktree: None,
        repo_dir: None,
    };
    vec![
        mk(
            "settings-cleanup",
            "Settings cleanup",
            Status::Inbox,
            "## Goal\n\nClean settings\n\n## Tasks\n\n- [ ] <!-- task:layout --> Layout\n- [x] <!-- task:toast --> Toast",
        ),
        mk("auth-refactor", "Auth refactor", Status::Active, "## Goal\n\nRefactor auth"),
        mk("old-thing", "Old thing", Status::Done, "## Goal\n\nDone already"),
    ]
}

/// Rows spanning two projects (acme/web has 2, tools has 1).
fn rows_multi() -> Vec<TaskRow> {
    let mk = |slug: &str, project: &str, status: Status| TaskRow {
        id: format!("task-20260613-{}", slug),
        slug: slug.to_string(),
        title: format!("{} title", slug),
        status,
        path: format!("/store/{}/{}/{}.md", project, status.as_str(), slug),
        body: format!("## Goal\n\n{}", slug),
        branch: None,
        github_issue: None,
        github_pr: None,
        created_at: String::new(),
        updated_at: String::new(),
        tags: Vec::new(),
        shared: false,
        project: project.to_string(),
        store_root: format!("/store/{}", project),
        run_state: None,
        worktree: None,
        repo_dir: None,
    };
    vec![
        mk("web-a", "acme/web", Status::Inbox),
        mk("web-b", "acme/web", Status::Active),
        mk("tools-a", "tools", Status::Inbox),
    ]
}

/// The text of a pane, below its title.
fn pane_text(pane: &Pane) -> String {
    let mut out = format!("{}\n", pane.title);
    for line in &pane.lines {
        for span in &line.spans {
            out.push_str(&span.text);
        }
        out.push('\n');
    }
    out
}

/// What a terminal of 160 columns shows.
fn draw(app: &App) -> String {
    let screen = app.render();
    let mut out = pane_text(&screen.list);
    out.push_str(&pane_text(&screen.meta));
    out.push_str(&pane_text(&screen.preview));
    out.extend(screen.status.chars().take(160));
    out.push('\n');
    if let Some(over) = &screen.overlay {
        out.push_str(&over.title);
        out.push('\n');
        out.push_str(&over.body);
        out.push('\n');
    }
    out
}

fn key(app: &mut App, code: KeyCode) -> UiAction {
    app.on_key(KeyEvent::of(code))
}

#[test]
fn renders_task_list_and_markdown_preview() {
    let app = App::new(rows());
    let screen = draw(&app);
    // left pane: all tasks with status chips
    assert!(screen.contains("settings-cleanup — Settings cleanup"));
    assert!(screen.contains("auth-refactor — Auth refactor"));
    assert!(screen.contains("[inbox]"));
    assert!(screen.contains("[active]"));
    // right pane previews the selected (first) task's markdown
    assert!(screen.contains("## Goal"));
    assert!(screen.contains("- [ ] <!-- task:layout --> Layout"));
    // status line shows keybindings
    assert!(screen.contains("s start"));
    assert!(screen.contains("i issue"));
    assert!(screen.contains("r PR"));
}

#[test]
fn j_k_move_selection_and_preview_follows() {
    let mut app = App::new(rows());
    assert_eq!(app.selected_task().unwrap().slug, "settings-cleanup");
    key(&mut app, KeyCode::Char('j'));
    assert_eq!(app.selected_task().unwrap().slug, "auth-refactor");
    let screen = draw(&app);
    assert!(screen.contains("Refactor auth"));
    key(&mut app, KeyCode::Char('k'));
    assert_eq!(app.selected_task().unwrap().slug, "settings-cleanup");
    // clamped at both ends
    key(&mut app, KeyCode::Char('k'));
    assert_eq!(app.selected_task().unwrap().slug, "settings-cleanup");
    for _ in 0..10 {
        key(&mut app, KeyCode::Char('j'));
    }
    assert_eq!(app.selected_task().unwrap().slug, "old-thing");
}

#[test]
fn tab_cycles_status_groups() {
    let mut app = App::new(rows());
    assert_eq!(app.tab_name(), "all");
    assert_eq!(app.visible().len(), 3);
    key(&mut app, KeyCode::Tab);
    assert_eq!(app.tab_name(), "inbox");
    assert_eq!(app.visible().len(), 1);
    assert_eq!(app.selected_task().unwrap().slug, "settings-cleanup");
    key(&mut app, KeyCode::Tab);
    assert_eq!(app.tab_name(), "active");
    assert_eq!(app.selected_task().unwrap().slug, "auth-refactor");
}

#[test]
fn fuzzy_filter_narrows_list() {
    let mut app = App::new(rows());
    key(&mut app, KeyCode::Char('/'));
    for c in "auth".chars() {
        key(&mut app, KeyCode::Char(c));
    }
    assert_eq!(app.visible().len(), 1);
    assert_eq!(app.selected_task().unwrap().slug, "auth-refactor");
    let screen = draw(&app);
    assert!(screen.contains("filter: auth"));
    // Esc clears the filter
    key(&mut app, KeyCode::Esc);
    assert_eq!(app.visible().len(), 3);
}

#[test]
fn keys_dispatch_to_cli_verbs() {
    let mut app = App::new(rows());
    // Enter opens $EDITOR on the selected doc
    let action = key(&mut app, KeyCode::Enter);
    assert_eq!(
        action,
        UiAction::Edit(String::from("/store/inbox/settings-cleanup.md"))
    );
    // s on an inbox task opens the start-mode picker; w starts in a worktree
    assert_eq!(key(&mut app, KeyCode::Char('s')), UiAction::Nothing);
    assert!(app.starting);
    let action = key(&mut app, KeyCode::Char('w'));
    assert_eq!(
        action,
        UiAction::Start("task-20260613-settings-cleanup".into(), StartMode::Worktree)
    );
    assert!(!app.starting);
    // s on an active task is refused with a message (no picker)
    key(&mut app, KeyCode::Char('j'));
    let action = key(&mut app, KeyCode::Char('s'));
    assert_eq!(action, UiAction::Nothing);
    assert!(!app.starting);
    assert!(app.message.contains("inbox"));
    // d finishes; i begins issue creation (auth-refactor has no issue yet)
    let action = key(&mut app, KeyCode::Char('d'));
    assert_eq!(action, UiAction::Done("task-20260613-auth-refactor".into()));
    let action = key(&mut app, KeyCode::Char('i'));
    assert_eq!(action, UiAction::Issue("task-20260613-auth-refactor".into()));
    // q quits
    assert_eq!(key(&mut app, KeyCode::Char('q')), UiAction::Quit);
}

#[test]
fn n_creates_task_via_input_mode() {
    let mut app = App::new(rows());
    // n opens a title prompt; typed chars do not trigger other verbs
    assert_eq!(key(&mut app, KeyCode::Char('n')), UiAction::Nothing);
    assert!(app.creating);
    for c in "my new task".chars() {
        assert_eq!(key(&mut app, KeyCode::Char(c)), UiAction::Nothing);
    }
    let screen = draw(&app);
    assert!(screen.contains("new task"));
    assert!(screen.contains("my new task"));
    // Enter emits the create action and leaves input mode
    let action = key(&mut app, KeyCode::Enter);
    assert_eq!(action, UiAction::New("my new task".into()));
    assert!(!app.creating);

    // Esc cancels without creating
    key(&mut app, KeyCode::Char('n'));
    key(&mut app, KeyCode::Char('x'));
    assert_eq!(key(&mut app, KeyCode::Esc), UiAction::Nothing);
    assert!(!app.creating);
    assert!(app.input.is_empty());
}

#[test]
fn m_moves_selected_task_to_any_state() {
    let mut app = App::new(rows());
    // selected = inbox task; m then d moves it to done (a backward-or-forward
    // transition the one-shot verbs don't offer)
    assert_eq!(key(&mut app, KeyCode::Char('m')), UiAction::Nothing);
    assert!(app.moving);
    let screen = draw(&app);
    assert!(screen.contains("move settings-cleanup to:"));
    let action = key(&mut app, KeyCode::Char('d'));
    assert_eq!(
        action,
        UiAction::Move("task-20260613-settings-cleanup".into(), Status::Done)
    );
    assert!(!app.moving);

    // m then a on the done task reopens it to active
    let mut app = App::new(rows());
    for _ in 0..2 {
        key(&mut app, KeyCode::Char('j'));
    }
    assert_eq!(app.selected_task().unwrap().slug, "old-thing");
    key(&mut app, KeyCode::Char('m'));
    let action = key(&mut app, KeyCode::Char('a'));
    assert_eq!(
        action,
        UiAction::Move("task-20260613-old-thing".into(), Status::Active)
    );

    // moving to the current state is a no-op with a message
    let mut app = App::new(rows());
    key(&mut app, KeyCode::Char('m'));
    let action = key(&mut app, KeyCode::Char('i')); // already inbox
    assert_eq!(action, UiAction::Nothing);
    assert!(app.message.contains("already inbox"));

    // any non-target key cancels move mode
    let mut app = App::new(rows());
    key(&mut app, KeyCode::Char('m'));
    assert_eq!(key(&mut app, KeyCode::Char('z')), UiAction::Nothing);
    assert!(!app.moving);
}

#[test]
fn shift_d_confirms_then_deletes() {
    // D opens a confirmation; only y proceeds to the delete action
    let mut app = App::new(rows());
    assert_eq!(key(&mut app, KeyCode::Char('D')), UiAction::Nothing);
    assert!(app.deleting);
    let screen = draw(&app);
    assert!(screen.contains("delete settings-cleanup permanently?"));
    let action = key(&mut app, KeyCode::Char('y'));
    assert_eq!(
        action,
        UiAction::Delete("task-20260613-settings-cleanup".into())
    );
    assert!(!app.deleting);

    // any other key cancels without deleting (no destructive default)
    let mut app = App::new(rows());
    key(&mut app, KeyCode::Char('D'));
    assert_eq!(key(&mut app, KeyCode::Char('n')), UiAction::Nothing);
    assert!(!app.deleting);
    // lowercase d is still "done", not delete
    assert_eq!(
        key(&mut app, KeyCode::Char('d')),
        UiAction::Done("task-20260613-settings-cleanup".into())
    );
}

#[test]
fn x_runs_only_active_tasks() {
    let mut app = App::new(rows());
    // the inbox task (index 0) can't run — must be started first
    assert_eq!(key(&mut app, KeyCode::Char('x')), UiAction::Nothing);
    assert!(app.message.contains("active"));
    // the active task runs
    key(&mut app, KeyCode::Char('j'));
    assert_eq!(app.selected_task().unwrap().status, Status::Active);
    assert_eq!(
        key(&mut app, KeyCode::Char('x')),
        UiAction::Run("task-20260613-auth-refactor".into())
    );
}

#[test]
fn s_opens_start_mode_picker() {
    // s on the inbox task opens the picker; each key maps to a start mode
    let cases = [
        (KeyCode::Char('s'), StartMode::Single),
        (KeyCode::Char('w'), StartMode::Worktree),
        (KeyCode::Char('b'), StartMode::Branch),
    ];
    for (k, mode) in cases {
        let mut app = App::new(rows());
        assert_eq!(key(&mut app, KeyCode::Char('s')), UiAction::Nothing);
        assert!(app.starting);
        let screen = draw(&app);
        assert!(screen.contains("start settings-cleanup:"));
        assert_eq!(
            key(&mut app, k),
            UiAction::Start("task-20260613-settings-cleanup".into(), mode)
        );
        assert!(!app.starting);
    }

    // any other key cancels the picker
    let mut app = App::new(rows());
    key(&mut app, KeyCode::Char('s'));
    assert_eq!(key(&mut app, KeyCode::Char('x')), UiAction::Nothing);
    assert!(!app.starting);
}

#[test]
fn r_opens_pr_with_worktree_or_branch_mode() {
    // r on an inbox task opens the worktree/branch picker; w → worktree-backed PR
    let mut app = App::new(rows());
    assert_eq!(key(&mut app, KeyCode::Char('r')), UiAction::Nothing);
    assert!(app.pring);
    let screen = draw(&app);
    assert!(screen.contains("PR for settings-cleanup:"));
    let action = key(&mut app, KeyCode::Char('w'));
    assert_eq!(
        action,
        UiAction::CreatePr("task-20260613-settings-cleanup".into(), true)
    );
    assert!(!app.pring);

    // r then b → main-repo branch PR
    let mut app = App::new(rows());
    key(&mut app, KeyCode::Char('r'));
    let action = key(&mut app, KeyCode::Char('b'));
    assert_eq!(
        action,
        UiAction::CreatePr("task-20260613-settings-cleanup".into(), false)
    );

    // any other key cancels the picker
    let mut app = App::new(rows());
    key(&mut app, KeyCode::Char('r'));
    assert_eq!(key(&mut app, KeyCode::Char('x')), UiAction::Nothing);
    assert!(!app.pring);
}

#[test]
fn r_skips_picker_when_task_already_has_a_branch() {
    // a task already backed by a worktree/branch reuses it, so r opens the PR
    // straight away instead of re-asking worktree vs branch.
    let mut with_branch = rows();
    with_branch[1].branch = Some("auth-refactor".into());
    let mut app = App::new(with_branch);
    key(&mut app, KeyCode::Char('j')); // select the active auth-refactor task
    assert_eq!(app.selected_task().unwrap().slug, "auth-refactor");
    let action = key(&mut app, KeyCode::Char('r'));
    assert_eq!(
        action,
        UiAction::CreatePr("task-20260613-auth-refactor".into(), false)
    );
    assert!(!app.pring);
}

#[test]
fn r_pushes_when_pr_attached_and_refuses_finished() {
    // a task that already has a PR → r pushes the managed section to it
    let mut with_pr = rows();
    with_pr[0].github_pr = Some(7);
    let mut app = App::new(with_pr);
    assert_eq!(
        key(&mut app, KeyCode::Char('r')),
        UiAction::PushPr("task-20260613-settings-cleanup".into())
    );
    assert!(!app.pring);

    // a done task with no PR can't open one
    let mut app = App::new(rows());
    for _ in 0..2 {
        key(&mut app, KeyCode::Char('j'));
    }
    assert_eq!(app.selected_task().unwrap().slug, "old-thing");
    assert_eq!(key(&mut app, KeyCode::Char('r')), UiAction::Nothing);
    assert!(!app.pring);
    assert!(app.message.contains("inbox/active"));
}

#[test]
fn error_popup_shows_and_swallows_next_key() {
    let mut app = App::new(rows());
    app.popup = Some("branch 'rein/fix' already exists — git branch -D rein/fix".into());
    app.popup_error = true;
    let screen = draw(&app);
    assert!(screen.contains("error — press any key to dismiss"));
    assert!(screen.contains("already exists"));
    // any key dismisses the popup and is otherwise consumed (no action)
    assert_eq!(key(&mut app, KeyCode::Char('j')), UiAction::Nothing);
    assert!(app.popup.is_none());

    // while open, the popup intercepts even quit
    app.popup = Some("boom".into());
    assert_eq!(key(&mut app, KeyCode::Char('q')), UiAction::Nothing);
    assert!(app.popup.is_none());

    // a non-error (run) popup uses the neutral title, not "error"
    let mut app = App::new(rows());
    app.popup = Some("running task — backgrounded · abcd1234".into());
    app.popup_error = false;
    let screen = draw(&app);
    assert!(screen.contains("run — press any key to dismiss"));
    assert!(screen.contains("backgrounded"));
}

#[test]
fn run_state_shows_in_meta_and_list() {
    let mut with_run = rows();
    with_run[1].run_state = Some("working".into()); // auth-refactor (active)
    let mut app = App::new(with_run);
    key(&mut app, KeyCode::Char('j')); // select the running task
    assert_eq!(app.selected_task().unwrap().slug, "auth-refactor");
    let screen = draw(&app);
    assert!(screen.contains("run: "), "meta should show a run line");
    assert!(screen.contains("running"), "working state renders as 'running'");
    assert!(screen.contains("●"), "a live run shows a dot in the list");
}

#[test]
fn meta_pane_shows_frontmatter() {
    let mut row = rows();
    row[0].branch = Some("settings-cleanup".into());
    row[0].github_issue = Some(41);
    row[0].github_pr = Some(7);
    row[0].tags = vec!["ui".into(), "cleanup".into()];
    row[0].created_at = "2026-06-13T10:00:00+09:00".into();
    row[0].updated_at = "2026-06-14T12:00:00+09:00".into();
    let app = App::new(row); // selection defaults to the first task
    let screen = draw(&app);
    assert!(screen.contains("meta"));
    assert!(screen.contains("settings-cleanup"));
    assert!(screen.contains("#41"));
    assert!(screen.contains("#7"));
    assert!(screen.contains("ui, cleanup"));
    assert!(screen.contains("2026-06-13")); // created date, trimmed to the day
}

#[test]
fn project_label_renders_and_filters() {
    let mut app = App::new(rows_in("acme/web"));
    let screen = draw(&app);
    // each row is tagged with its project for the cross-project view
    assert!(screen.contains("acme/web"));
    assert!(screen.contains("settings-cleanup — Settings cleanup"));

    // the fuzzy filter also matches on project name (doubles as a project picker)
    key(&mut app, KeyCode::Char('/'));
    for c in "acme".chars() {
        key(&mut app, KeyCode::Char(c));
    }
    assert_eq!(app.visible().len(), 3, "all tasks share the project");
}

#[test]
fn keybinding_hint_advertises_new_and_move() {
    let app = App::new(rows());
    let screen = draw(&app);
    assert!(screen.contains("n new"));
    assert!(screen.contains("m move"));
    assert!(screen.contains("D delete"));
    assert!(screen.contains("P project"));
    assert!(screen.contains("i issue"));
    assert!(screen.contains("r PR"));
    assert!(screen.contains("y copy dir"));
    assert!(screen.contains("x run"));
}

#[test]
fn i_pushes_when_issue_attached_else_creates() {
    // no issue yet → i begins issue creation (event loop offers a project picker)
    let mut app = App::new(rows());
    assert_eq!(
        key(&mut app, KeyCode::Char('i')),
        UiAction::Issue("task-20260613-settings-cleanup".into())
    );

    // an attached issue → i pushes the managed section to it
    let mut with_issue = rows();
    with_issue[0].github_issue = Some(41);
    let mut app = App::new(with_issue);
    assert_eq!(
        key(&mut app, KeyCode::Char('i')),
        UiAction::PushIssue("task-20260613-settings-cleanup".into())
    );
}

#[test]
fn y_copies_working_dir_worktree_then_repo() {
    // a worktree-backed task yanks its worktree path
    let mut row = rows();
    row[0].worktree = Some("/store/worktrees/settings-cleanup".into());
    row[0].repo_dir = Some(String::from("/repo"));
    let mut app = App::new(row);
    assert_eq!(
        key(&mut app, KeyCode::Char('y')),
        UiAction::CopyDir(String::from("/store/worktrees/settings-cleanup"))
    );

    // a plain branch/single task with no worktree falls back to the main repo
    let mut row = rows();
    row[0].repo_dir = Some(String::from("/repo"));
    let mut app = App::new(row);
    assert_eq!(
        key(&mut app, KeyCode::Char('y')),
        UiAction::CopyDir(String::from("/repo"))
    );

    // nothing known → no action, a message instead
    let mut app = App::new(rows());
    assert_eq!(key(&mut app, KeyCode::Char('y')), UiAction::Nothing);
    assert!(app.message.contains("no working directory"));
}

#[test]
fn meta_shows_worktree_vs_branch_mode_and_dir() {
    // worktree-backed task: branch line tagged (worktree), dir = the worktree
    let mut row = rows();
    row[0].branch = Some("settings-cleanup".into());
    row[0].worktree = Some("/store/worktrees/settings-cleanup".into());
    let app = App::new(row);
    let screen = draw(&app);
    assert!(screen.contains("(worktree)"));
    assert!(screen.contains("/store/worktrees/settings-cleanup"));

    // plain branch task: tagged (branch), dir = the main repo
    let mut row = rows();
    row[0].branch = Some("settings-cleanup".into());
    row[0].repo_dir = Some(String::from("/repo"));
    let app = App::new(row);
    let screen = draw(&app);
    assert!(screen.contains("(branch)"));
}

#[test]
fn status_message_clears_on_next_key() {
    // a sticky message (the "ok" case) must not pin itself over the hint forever:
    // the next key press clears it so the keybindings come back
    let mut app = App::new(rows());
    app.message = "ok".into();
    // a navigation key clears the stale message without setting a new one
    key(&mut app, KeyCode::Char('j'));
    assert!(app.message.is_empty());
    let screen = draw(&app);
    assert!(screen.contains("i issue"), "hint returns after the message clears");
}

#[test]
fn issue_project_picker_selects_and_cancels() {
    // simulate the event loop having fetched two boards and opened the picker
    let mut app = App::new(rows());
    app.issuing = true;
    app.issue_target = Some("task-20260613-settings-cleanup".into());
    app.issue_projects = vec!["Roadmap".into(), "Bugs".into()];
    app.issue_sel = 0;
    let screen = draw(&app);
    assert!(screen.contains("— no project —"));
    assert!(screen.contains("Roadmap"));

    // row 0 (no project) → create without a board
    let action = key(&mut app, KeyCode::Enter);
    assert_eq!(
        action,
        UiAction::IssueWithProject("task-20260613-settings-cleanup".into(), None)
    );
    assert!(!app.issuing);

    // j to "Roadmap" (row 1) then Enter → file onto that board
    let mut app = App::new(rows());
    app.issuing = true;
    app.issue_target = Some("task-20260613-settings-cleanup".into());
    app.issue_projects = vec!["Roadmap".into(), "Bugs".into()];
    key(&mut app, KeyCode::Char('j'));
    let action = key(&mut app, KeyCode::Enter);
    assert_eq!(
        action,
        UiAction::IssueWithProject(
            "task-20260613-settings-cleanup".into(),
            Some("Roadmap".into())
        )
    );

    // Esc cancels issue creation entirely
    let mut app = App::new(rows());
    app.issuing = true;
    app.issue_target = Some("task-20260613-settings-cleanup".into());
    app.issue_projects = vec!["Roadmap".into()];
    assert_eq!(key(&mut app, KeyCode::Esc), UiAction::Nothing);
    assert!(!app.issuing);
    assert!(app.issue_target.is_none());
}

#[test]
fn project_scope_filters_task_list() {
    let mut app = App::new(rows_multi());
    // unscoped: every project's tasks are visible, tagged by project
    assert_eq!(app.visible().len(), 3);
    let screen = draw(&app);
    assert!(screen.contains("tasks [all · all]"));
    assert!(screen.contains("acme/web"));
    assert!(screen.contains("tools"));

    // scoping to one project hides the others (and the now-redundant tag)
    app.project_scope = Some("acme/web".into());
    assert_eq!(app.visible().len(), 2);
    assert!(app.visible().iter().all(|&i| app.tasks[i].project == "acme/web"));
    let screen = draw(&app);
    assert!(screen.contains("tasks [acme/web · all]"));
    assert!(screen.contains("web-a — web-a title"));
    assert!(!screen.contains("tools-a"));
}

#[test]
fn project_picker_navigates_and_scopes() {
    let mut app = App::new(rows_multi());
    // P opens the hierarchical project level, listing projects with counts
    assert_eq!(key(&mut app, KeyCode::Char('P')), UiAction::Nothing);
    assert!(app.picking_project);
    let screen = draw(&app);
    assert!(screen.contains("projects"));
    assert!(screen.contains("all projects (3)"));
    assert!(screen.contains("acme/web (2)"));
    assert!(screen.contains("tools (1)"));

    // j to "acme/web" (index 1), Enter scopes the task list to it
    key(&mut app, KeyCode::Char('j'));
    key(&mut app, KeyCode::Enter);
    assert!(!app.picking_project);
    assert_eq!(app.project_scope.as_deref(), Some("acme/web"));
    assert_eq!(app.visible().len(), 2);

    // reopening pre-positions the cursor on the active scope; "all" resets it
    key(&mut app, KeyCode::Char('P'));
    assert_eq!(app.project_sel, 1, "cursor sits on the current scope");
    key(&mut app, KeyCode::Char('k')); // up to "all projects"
    key(&mut app, KeyCode::Enter);
    assert_eq!(app.project_scope, None);
    assert_eq!(app.visible().len(), 3);

    // Esc cancels without changing scope
    app.project_scope = Some("tools".into());
    key(&mut app, KeyCode::Char('P'));
    key(&mut app, KeyCode::Char('j'));
    key(&mut app, KeyCode::Esc);
    assert!(!app.picking_project);
    assert_eq!(app.project_scope.as_deref(), Some("tools"));
}

#[test]
fn failed_items_render_red_and_struck() {
    let body = "## Tasks\n\n- [ ] <!-- task:1 --> open\n- [x] <!-- task:2 --> done\n- [x] <!-- task:3 --> <!-- failed --> ~~nope~~ \u{274c}";
    let lines = render_markdown(body);
    let text = |l: &Line| -> String {
        l.spans.iter().map(|s| s.text.as_str()).collect()
    };

    let failed = lines.iter().find(|l| text(l).contains("nope")).unwrap();
    assert_eq!(failed.style.fg, Some(Color::Red));
    assert!(failed.style.struck);

    // a normal checked item is a deep green, an open item stays yellow
    let done = lines.iter().find(|l| text(l).contains("done")).unwrap();
    assert_eq!(done.style.fg, Some(Color::Rgb(0, 128, 0)));
    let open = lines.iter().find(|l| text(l).contains("open")).unwrap();
    assert_eq!(open.style.fg, Some(Color::Yellow));
}

// ---------------------------------------------------------------------------
// What holds of every key
// ---------------------------------------------------------------------------

/// The first task, with its checklist open.
fn item_view() -> App {
    let mut app = App::new(rows());
    key(&mut app, KeyCode::Char('l'));
    assert!(app.viewing_items);
    app
}

fn worktree(path: &str, is_main: bool) -> Worktree {
    Worktree {
        path: path.into(),
        head: Some("abc".into()),
        branch: Some("b".into()),
        bare: false,
        detached: false,
        locked: false,
        prunable: false,
        is_main,
    }
}

fn worktree_view() -> App {
    let mut app = App::new(rows());
    let list = vec![worktree("/repo", true), worktree("/repo/.wt/feat", false)];
    app.open_worktrees("task-1".into(), "acme/web".into(), Ok(list));
    assert!(app.viewing_worktrees);
    app
}

#[test]
fn releases_do_nothing() {
    let mut app = App::new(rows());
    let release = KeyEvent { code: KeyCode::Char('q'), ctrl: false, press: false };
    assert_eq!(app.on_key(release), UiAction::Nothing);
    let ctrl_c = KeyEvent { code: KeyCode::Char('c'), ctrl: true, press: true };
    assert_eq!(app.on_key(ctrl_c), UiAction::Quit);
}

#[test]
fn a_running_summary_swallows_keys() {
    let mut app = App::new(rows());
    app.summary_started("settings-cleanup".into());
    app.summary_seconds(3);
    assert_eq!(key(&mut app, KeyCode::Char('q')), UiAction::Nothing);
    assert_eq!(key(&mut app, KeyCode::Char('d')), UiAction::Nothing);
    assert!(draw(&app).contains("3s"));
    app.summary_done(Ok("summarized settings-cleanup".into()), rows());
    assert!(app.summarizing.is_none());
    assert!(draw(&app).contains("summarized settings-cleanup"));
    // a worker that went away leaves an error
    app.summary_started("settings-cleanup".into());
    app.summary_lost();
    assert!(app.popup_error);
}

#[test]
fn only_a_confirmation_removes() {
    for c in "abcdefghijklmnopqrstuvwxzABCDEFGHIJKLMNOPQRSTUVWXYZ ".chars() {
        let mut app = App::new(rows());
        key(&mut app, KeyCode::Char('D'));
        assert!(!matches!(key(&mut app, KeyCode::Char(c)), UiAction::Delete(_)));
        let mut app = item_view();
        key(&mut app, KeyCode::Char('d'));
        assert!(!matches!(key(&mut app, KeyCode::Char(c)), UiAction::DeleteItem(_, _)));
    }
    let mut app = item_view();
    assert_eq!(key(&mut app, KeyCode::Char('d')), UiAction::Nothing);
    assert_eq!(
        key(&mut app, KeyCode::Char('y')),
        UiAction::DeleteItem("task-20260613-settings-cleanup".into(), "layout".into())
    );
}

#[test]
fn the_item_view_edits_the_checklist() {
    let id = String::from("task-20260613-settings-cleanup");
    let mut app = item_view();
    let screen = draw(&app);
    assert!(screen.contains("Layout") && screen.contains("Toast"), "{}", screen);
    assert_eq!(
        key(&mut app, KeyCode::Char(' ')),
        UiAction::ToggleItem(id.clone(), "layout".into())
    );
    key(&mut app, KeyCode::Char('j'));
    assert_eq!(
        key(&mut app, KeyCode::Char(' ')),
        UiAction::ToggleItem(id.clone(), "toast".into())
    );
    key(&mut app, KeyCode::Char('n'));
    for c in "More".chars() {
        assert_eq!(key(&mut app, KeyCode::Char(c)), UiAction::Nothing);
    }
    assert_eq!(key(&mut app, KeyCode::Enter), UiAction::AddItem(id.clone(), "More".into()));
    key(&mut app, KeyCode::Char('e'));
    key(&mut app, KeyCode::Backspace);
    assert_eq!(
        key(&mut app, KeyCode::Enter),
        UiAction::EditItem(id, "toast".into(), "Toas".into())
    );
    key(&mut app, KeyCode::Esc);
    assert!(!app.viewing_items);
}

#[test]
fn an_item_shows_its_log_entries() {
    let mut with_log = rows();
    with_log[0].body = String::from(
        "## Tasks\n\n- [ ] <!-- task:1 --> one\n- [ ] <!-- task:11 --> eleven\n\n## Agent Log\n\n- a TASK1: first\n- b Task11: other\n- c Task1x: no\n",
    );
    let mut app = App::new(with_log);
    key(&mut app, KeyCode::Char('l'));
    let preview = pane_text(&app.render().preview);
    assert!(preview.contains("TASK1: first"), "{}", preview);
    assert!(!preview.contains("Task11: other") && !preview.contains("Task1x"), "{}", preview);
}

#[test]
fn the_main_worktree_is_left_alone() {
    let mut app = worktree_view();
    assert_eq!(key(&mut app, KeyCode::Char(' ')), UiAction::Nothing);
    key(&mut app, KeyCode::Char('d'));
    assert_eq!(key(&mut app, KeyCode::Char('y')), UiAction::CopyDir("/repo".into()));

    let mut app = worktree_view();
    key(&mut app, KeyCode::Char('j'));
    assert_eq!(
        key(&mut app, KeyCode::Char(' ')),
        UiAction::LockWorktree("task-1".into(), "/repo/.wt/feat".into(), true)
    );
    key(&mut app, KeyCode::Char('d'));
    assert_eq!(
        key(&mut app, KeyCode::Char('y')),
        UiAction::DeleteWorktree("task-1".into(), "/repo/.wt/feat".into())
    );
    key(&mut app, KeyCode::Char('n'));
    for c in "new".chars() {
        key(&mut app, KeyCode::Char(c));
    }
    assert_eq!(
        key(&mut app, KeyCode::Enter),
        UiAction::AddWorktree("task-1".into(), "new".into())
    );
}

#[test]
fn a_conflict_is_answered_by_f() {
    let conflict = || {
        SyncError::Conflict(Conflict { surface: "issue".into(), slug: "settings-cleanup".into() })
    };
    let id = "task-20260613-settings-cleanup";
    let mut app = App::new(rows());
    app.finish_push(Err(conflict()), id, ForceSurface::Issue, rows());
    assert!(app.force_push.is_some());
    let action = key(&mut app, KeyCode::Char('f'));
    assert_eq!(action, UiAction::ForcePush(id.into(), ForceSurface::Issue));
    assert!(matches!(dispatch(action), Job::Do(_, Verb::PushIssue(true))));

    app.finish_push(Err(conflict()), id, ForceSurface::Pr, rows());
    assert_eq!(key(&mut app, KeyCode::Char('q')), UiAction::Nothing);
    assert!(app.force_push.is_none());

    // any other failure is only shown
    app.finish_push(Err(SyncError::Refused("no gh".into())), id, ForceSurface::Pr, rows());
    assert!(app.force_push.is_none());
    assert_eq!(app.popup.as_deref(), Some("no gh"));
}

#[test]
fn a_created_task_is_selected() {
    let mut app = App::new(rows());
    app.tab = 2;
    app.filter = "nothing like it".into();
    app.created("/store/inbox/settings-cleanup.md", None, rows());
    assert_eq!(app.selected_task().unwrap().slug, "settings-cleanup");
}

#[test]
fn the_selection_stays_on_the_list() {
    let mut app = App::new(rows());
    for _ in 0..2 {
        key(&mut app, KeyCode::Char('j'));
    }
    app.reload(vec![]);
    assert!(app.selected_task().is_none());
    assert_eq!(key(&mut app, KeyCode::Char('d')), UiAction::Nothing);
}

#[test]
fn tabs_come_round() {
    let mut app = App::new(rows());
    let mut names = Vec::new();
    for _ in 0..5 {
        names.push(app.tab_name());
        key(&mut app, KeyCode::Tab);
    }
    assert_eq!(names, vec!["all", "inbox", "active", "done", "canceled"]);
    assert_eq!(app.tab_name(), "all");
}

#[test]
fn the_filter_folds_case_and_skips() {
    let mut app = App::new(rows());
    app.filter = "SETclean".into();
    let shown: Vec<&str> = app.visible().iter().map(|&i| app.tasks[i].slug.as_str()).collect();
    assert_eq!(shown, vec!["settings-cleanup"]);
    app.filter = "zzz".into();
    assert!(app.visible().is_empty());
}

#[test]
fn the_agent_of_a_project_is_chosen_with_a_letter() {
    let id = String::from("task-20260613-settings-cleanup");
    for (c, agent) in [('c', Agent::Claude), ('x', Agent::Codex), ('o', Agent::Opencode)] {
        let mut app = App::new(rows());
        key(&mut app, KeyCode::Char('A'));
        assert!(app.choosing_agent);
        assert_eq!(key(&mut app, KeyCode::Char(c)), UiAction::SetAgent(id.clone(), agent));
    }
    let mut app = App::new(rows());
    app.project_scope = Some("acme/web".into());
    app.note_agent(Some("codex".into()));
    assert!(draw(&app).contains("codex"));
}

#[test]
fn every_action_has_its_job() {
    assert!(matches!(dispatch(UiAction::Nothing), Job::Nothing));
    assert!(matches!(dispatch(UiAction::Quit), Job::Quit));
    assert!(matches!(
        dispatch(UiAction::Start("t".into(), StartMode::Branch)),
        Job::Do(_, Verb::Start { worktree: false, branch: true })
    ));
    assert!(matches!(dispatch(UiAction::Delete("t".into())), Job::Do(_, Verb::Delete)));
    assert!(matches!(dispatch(UiAction::CopyDir("/x".into())), Job::Copy(p) if p == "/x"));
}

#[test]
fn states_of_sessions_are_read_from_the_reply() {
    let sessions = run_states(r#"[{"id":"abcd1234","state":"working"},{"state":"x"}]"#);
    assert_eq!(sessions.len(), 1);
    assert_eq!(sessions[0].state, "working");
    assert!(run_states("not json").is_empty());
}

#[test]
fn the_picker_ends_with_a_document_or_without() {
    let mut app = App::picker(&Vec::new());
    assert!(matches!(app.pick_key(KeyEvent::of(KeyCode::Char('a'))), Pick::Going));
    assert!(matches!(app.pick_key(KeyEvent::of(KeyCode::Enter)), Pick::Ended(None)));
    // the first Esc leaves the filter, the next one the picker
    assert!(matches!(app.pick_key(KeyEvent::of(KeyCode::Esc)), Pick::Going));
    assert!(matches!(app.pick_key(KeyEvent::of(KeyCode::Esc)), Pick::Ended(None)));
}

/// A dashboard with one row of a title.
fn titled(title: &str) -> App {
    let mut only = rows();
    only.truncate(1);
    only[0].slug = "s".into();
    only[0].title = title.into();
    App::new(only)
}

#[test]
fn long_filters_are_answered() {
    let long = "a".repeat(4000);
    // one word and one title that the score has no room for
    let mut app = titled(&long);
    app.filter = long.clone();
    assert_eq!(app.visible().len(), 0);
    // a long word is no match for a short title
    let mut app = titled("plain");
    app.filter = long;
    assert_eq!(app.visible().len(), 0);
    // many short words are
    let mut app = titled("banana");
    app.filter = "a ".repeat(40_000);
    assert_eq!(app.visible().len(), 1);
    app.filter = format!("b{}", " ".repeat(70_000));
    assert_eq!(app.visible().len(), 1);
    app.filter = "a".repeat(2520);
    assert_eq!(app.visible().len(), 0);
}

#[test]
fn the_longest_word_is_matched() {
    let word = "a".repeat(2520);
    let mut app = titled(&word);
    app.filter = word.clone();
    assert_eq!(app.visible().len(), 1);
    let mut app = titled(&format!("{} and more", word));
    app.filter = word;
    assert_eq!(app.visible().len(), 1);
}

#[test]
fn filters_take_escapes_and_accents() {
    let mut app = titled("a b");
    app.filter = "a\\ b".into();
    assert_eq!(app.visible().len(), 1);
    let mut app = titled("caf\u{e9} noir");
    app.filter = "caf\u{e9}".into();
    assert_eq!(app.visible().len(), 1);
    // a final sigma, and a micro sign beside accents
    let mut app = titled("\u{3b1}\u{3c2}");
    app.filter = "\u{3b1}\u{3c3}".into();
    assert_eq!(app.visible().len(), 1);
    let mut app = titled("r\u{e9}sum\u{e9} 5\u{b5}s");
    app.filter = "r\u{e9}s".into();
    assert_eq!(app.visible().len(), 1);
    // a long s that the word does not start with
    let mut app = titled("\u{e9}\u{17f}s");
    app.filter = "\u{e9}s".into();
    assert_eq!(app.visible().len(), 1);
    // a word with an accent that a final sigma would start
    let mut app = titled("\u{3c2} x\u{e9} y");
    app.filter = "\u{3c3}\u{e9}".into();
    assert_eq!(app.visible().len(), 0);
    app.filter = "".into();
    assert_eq!(app.visible().len(), 1);
    // one that it does start
    let mut app = titled("\u{3c2}\u{e9}");
    app.filter = "\u{3c3}\u{e9}".into();
    assert_eq!(app.visible().len(), 1);
}

#[test]
fn a_search_that_starts_amiss_shows_nothing() {
    // the word is found, but the letter that its search starts at only folds to its first
    let mut app = titled("\u{3c2} \u{3c3}\u{e9} y");
    app.filter = "\u{3c3}\u{e9}".into();
    assert_eq!(app.visible().len(), 0);
    // without the accent the letters are compared as plain ones
    app.filter = "\u{3c3}e".into();
    assert_eq!(app.visible().len(), 1);
}

#[test]
fn a_long_word_that_is_not_found_is_answered() {
    let word = format!("!{}", "a".repeat(3000));
    let mut app = titled(&"b".repeat(4000));
    app.filter = word.clone();
    assert_eq!(app.visible().len(), 1);
    // it has to be there without gaps
    let mut app = titled(&"ab".repeat(4000));
    app.filter = word;
    assert_eq!(app.visible().len(), 1);
    // of a letter and its mark only the letter is looked at
    let mut app = titled(&format!("{}\u{3c9}", "a\u{301}".repeat(2521)));
    app.filter = format!("'{}", "a".repeat(2521));
    assert_eq!(app.visible().len(), 0);
    app.filter = format!("'{}", "a".repeat(2520));
    assert_eq!(app.visible().len(), 1);
}

#[test]
fn boards_are_offered_where_there_are_any() {
    let mut app = App::new(rows());
    assert!(!app.offer_boards("t".into(), Vec::new()));
    assert!(!app.issuing);
    assert!(app.offer_boards("t".into(), vec!["Roadmap".into()]));
    assert!(app.issuing);
    assert_eq!(app.issue_projects, vec!["Roadmap".to_string()]);
    assert_eq!(app.issue_target.as_deref(), Some("t"));
}

#[test]
fn the_agent_of_the_scoped_project_is_shown() {
    let projects = vec![Store::at("/data/api").info(), Store::at("/data/web").info()];
    let mut app = App::new(rows());
    assert_eq!(app.scoped_project(&projects), None);
    app.project_scope = Some("web".into());
    assert_eq!(app.scoped_project(&projects), Some(1));
    app.project_scope = Some("gone".into());
    assert_eq!(app.scoped_project(&projects), None);
    let codex = Some(String::from("codex"));
    let opencode = Some(String::from("opencode"));
    assert_eq!(shown_agent(codex.clone(), opencode.clone()), codex);
    assert_eq!(shown_agent(None, opencode.clone()), opencode);
    assert_eq!(shown_agent(None, None), None);
}
