//! What the dashboard is made from: projects, their tasks, and the state of runs.
use crate::commands::local;
use crate::commands::run::{self, Agent};
use crate::json::{self, Json};
use crate::paths;
use crate::projects::{StoreInfo, StoreInfoV};
use crate::state::{self, TaskState, TaskStateV};
use crate::store::{self, Store, TaskRef, TaskRefV};
use crate::text;
use crate::ui::app::{self, App, AppV};
use crate::ui::input;
use crate::ui::keys::{KeyCode, KeyEvent};
use crate::ui::row::{self, TaskRow, TaskRowV};
use vstd::prelude::*;
use vstd::string::*;

verus! {

// ---------------------------------------------------------------------------
// The state of runs
// ---------------------------------------------------------------------------

/// The state of a background session.
#[derive(Debug)]
pub struct Session {
    pub id: String,
    pub state: String,
}

/// What a [`Session`] stands for.
#[verifier::ext_equal]
pub struct SessionV {
    pub id: Seq<char>,
    pub state: Seq<char>,
}

impl View for Session {
    type V = SessionV;

    open spec fn view(&self) -> SessionV {
        SessionV { id: self.id@, state: self.state@ }
    }
}

/// What is known of a run that rein backgrounded: what its status file holds, and
/// whether its process is alive.
#[derive(Debug)]
pub struct LocalRun {
    /// The store of the task.
    pub root: String,
    pub task_id: String,
    pub status: Option<String>,
    pub alive: bool,
}

/// What a [`LocalRun`] stands for.
#[verifier::ext_equal]
pub struct LocalRunV {
    pub root: Seq<char>,
    pub task_id: Seq<char>,
    pub status: Option<Seq<char>>,
    pub alive: bool,
}

impl View for LocalRun {
    type V = LocalRunV;

    open spec fn view(&self) -> LocalRunV {
        LocalRunV {
            root: self.root@,
            task_id: self.task_id@,
            status: text::opt_view(self.status),
            alive: self.alive,
        }
    }
}

/// The sessions that a list names with both an id and a state.
pub open spec fn sessions_in(js: Seq<Json>) -> Seq<SessionV>
    decreases js.len(),
{
    if js.len() == 0 {
        seq![]
    } else {
        let before = sessions_in(js.drop_last());
        match (json::member_text(js.last(), "id"@), json::member_text(js.last(), "state"@)) {
            (Some(id), Some(state)) => before.push(SessionV { id, state }),
            _ => before,
        }
    }
}

/// The sessions that a reply names: a list, or the list in its member `sessions`.
pub open spec fn sessions_of(j: Option<Json>) -> Seq<SessionV> {
    match j {
        Some(j) => sessions_in(json::rows_of(j, "sessions"@)),
        None => seq![],
    }
}

/// The state of a session: the last one with its id counts.
pub open spec fn session_state(ss: Seq<SessionV>, id: Seq<char>) -> Option<Seq<char>>
    decreases ss.len(),
{
    if ss.len() == 0 {
        None
    } else if ss.last().id == id {
        Some(ss.last().state)
    } else {
        session_state(ss.drop_last(), id)
    }
}

/// What is known of the run of a task of a store; nothing, where none is listed.
pub open spec fn local_run(rs: Seq<LocalRunV>, root: Seq<char>, id: Seq<char>) -> LocalRunV
    decreases rs.len(),
{
    if rs.len() == 0 {
        LocalRunV { root, task_id: id, status: None, alive: false }
    } else if rs.last().root == root && rs.last().task_id == id {
        rs.last()
    } else {
        local_run(rs.drop_last(), root, id)
    }
}

/// The elements of a list, or of the list in the member `sessions`.
fn listed_sessions(j: &Json) -> (r: Option<&Vec<Json>>)
    ensures
        json::rows_of(*j, "sessions"@) == match r {
            Some(v) => v@,
            None => seq![],
        },
{
    match j {
        Json::List(v) => Some(v),
        _ => match json::get(j, "sessions") {
            Some(Json::List(v)) => Some(v),
            _ => None,
        },
    }
}

/// The sessions that a reply names.
pub fn sessions_from(reply: &Option<Json>) -> (r: Vec<Session>)
    ensures
        text::views(r@) == sessions_of(*reply),
{
    let mut out: Vec<Session> = Vec::new();
    assert(text::views(out@) =~= Seq::<SessionV>::empty());
    let j = match reply {
        Some(j) => j,
        None => {
            return out;
        },
    };
    let all = match listed_sessions(j) {
        Some(v) => v,
        None => {
            return out;
        },
    };
    let mut i: usize = 0;
    proof {
        assert(all@.take(0) =~= Seq::<Json>::empty());
    }
    while i < all.len()
        invariant
            i <= all.len(),
            text::views(out@) == sessions_in(all@.take(i as int)),
        decreases all.len() - i,
    {
        let ghost before = text::views(out@);
        proof {
            let up = all@.take(i + 1);
            assert(up.drop_last() =~= all@.take(i as int));
            assert(up.last() == all@[i as int]);
        }
        match (json::get_text(&all[i], "id"), json::get_text(&all[i], "state")) {
            (Some(id), Some(state)) => {
                let ghost s = SessionV { id: id@, state: state@ };
                out.push(Session { id, state });
                assert(text::views(out@) =~= before.push(s));
            },
            _ => {},
        }
        i += 1;
    }
    proof {
        assert(all@.take(all@.len() as int) =~= all@);
    }
    out
}

/// Background session id → state (`working`/`done`/`failed`/…) from the reply to
/// `agents --json`. Best-effort: nothing if it cannot be read.
pub fn run_states(reply: &str) -> (r: Vec<Session>)
    ensures
        text::views(r@) == sessions_of(json::json_of(reply@)),
{
    sessions_from(&json::parse_json(reply))
}

/// The state of a session.
fn state_of_session(ss: &Vec<Session>, id: &str) -> (r: Option<String>)
    ensures
        text::opt_view(r) == session_state(text::views(ss@), id@),
{
    let ghost all = text::views(ss@);
    let mut n: usize = ss.len();
    proof {
        assert(all.take(all.len() as int) =~= all);
    }
    while n > 0
        invariant
            n <= ss.len(),
            all == text::views(ss@),
            session_state(all, id@) == session_state(all.take(n as int), id@),
        decreases n,
    {
        proof {
            assert(all.take(n as int).drop_last() =~= all.take(n - 1));
            assert(all.take(n as int).last() == ss@[n - 1]@);
        }
        if text::same(&ss[n - 1].id, id) {
            return Some(ss[n - 1].state.clone());
        }
        n -= 1;
    }
    None
}

/// The state of a run that rein backgrounded.
fn state_of_run(rs: &Vec<LocalRun>, st: &TaskState, root: &str, id: &str) -> (r: Option<String>)
    requires
        st@.run_session is Some,
    ensures
        text::opt_view(r) == Some(
            run::state_name(
                local_run(text::views(rs@), root@, id@).status,
                local_run(text::views(rs@), root@, id@).alive,
            ),
        ),
{
    let ghost all = text::views(rs@);
    let mut n: usize = rs.len();
    proof {
        assert(all.take(all.len() as int) =~= all);
    }
    while n > 0
        invariant
            n <= rs.len(),
            st@.run_session is Some,
            all == text::views(rs@),
            local_run(all, root@, id@) == local_run(all.take(n as int), root@, id@),
        decreases n,
    {
        proof {
            assert(all.take(n as int).drop_last() =~= all.take(n - 1));
            assert(all.take(n as int).last() == rs@[n - 1]@);
        }
        if text::same(&rs[n - 1].root, root) && text::same(&rs[n - 1].task_id, id) {
            return run::codex_status_from_state(st, &rs[n - 1].status, rs[n - 1].alive);
        }
        n -= 1;
    }
    run::codex_status_from_state(st, &None, false)
}

// ---------------------------------------------------------------------------
// Rows
// ---------------------------------------------------------------------------

/// The state of the last run of a task: that of its session, or of the process that
/// rein backgrounded.
pub open spec fn run_state_of(
    st: TaskStateV,
    root: Seq<char>,
    id: Seq<char>,
    runs: Seq<LocalRunV>,
    sessions: Seq<SessionV>,
) -> Option<Seq<char>> {
    match st.run_session {
        None => None,
        Some(s) => if run::recorded_agent(st) == Agent::Claude {
            session_state(sessions, s)
        } else {
            let known = local_run(runs, root, id);
            Some(run::state_name(known.status, known.alive))
        },
    }
}

/// The row of a task of a project.
pub open spec fn project_row(
    p: StoreInfoV,
    t: TaskRefV,
    runs: Seq<LocalRunV>,
    sessions: Seq<SessionV>,
) -> TaskRowV {
    let st = state::state_from(p.store.states, t.id, 0);
    TaskRowV {
        run_state: run_state_of(st, p.store.root, t.id, runs, sessions),
        worktree: st.worktree,
        repo_dir: p.repo_dir,
        ..row::row_of(t, p.project, p.store.root)
    }
}

/// The rows of tasks of a project.
pub open spec fn task_rows(
    p: StoreInfoV,
    ts: Seq<TaskRefV>,
    runs: Seq<LocalRunV>,
    sessions: Seq<SessionV>,
) -> Seq<TaskRowV> {
    Seq::new(ts.len(), |i: int| project_row(p, ts[i], runs, sessions))
}

/// The rows of projects.
pub open spec fn all_rows(
    ps: Seq<StoreInfoV>,
    runs: Seq<LocalRunV>,
    sessions: Seq<SessionV>,
) -> Seq<TaskRowV>
    decreases ps.len(),
{
    if ps.len() == 0 {
        seq![]
    } else {
        all_rows(ps.drop_last(), runs, sessions) + task_rows(
            ps.last(),
            store::all_tasks(ps.last().store),
            runs,
            sessions,
        )
    }
}

/// The row of a task of a project.
fn row_for(p: &StoreInfo, t: &TaskRef, runs: &Vec<LocalRun>, sessions: &Vec<Session>) -> (r: TaskRow)
    ensures
        r@ == project_row(p@, t@, text::views(runs@), text::views(sessions@)),
{
    let st = state::load(&p.store, &t.id);
    let mut r = TaskRow::from_ref(t, &p.project, &p.store.root);
    r.run_state = match &st.run_session {
        None => None,
        Some(id) => if run::agent_of(&st) == Agent::Claude {
            state_of_session(sessions, id)
        } else {
            state_of_run(runs, &st, &p.store.root, &t.id)
        },
    };
    r.worktree = text::clone_opt(&st.worktree);
    r.repo_dir = text::clone_opt(&p.repo_dir);
    assert(r@ =~= project_row(p@, t@, text::views(runs@), text::views(sessions@)));
    r
}

/// The rows of every project, with the state of each task's last run.
pub fn load_all_rows(
    projects: &Vec<StoreInfo>,
    runs: &Vec<LocalRun>,
    sessions: &Vec<Session>,
) -> (r: Vec<TaskRow>)
    ensures
        text::views(r@) == all_rows(
            text::views(projects@),
            text::views(runs@),
            text::views(sessions@),
        ),
{
    let ghost ps = text::views(projects@);
    let ghost rs = text::views(runs@);
    let ghost ss = text::views(sessions@);
    let mut out: Vec<TaskRow> = Vec::new();
    let mut i: usize = 0;
    proof {
        assert(ps.take(0) =~= Seq::<StoreInfoV>::empty());
        assert(text::views(out@) =~= Seq::<TaskRowV>::empty());
    }
    while i < projects.len()
        invariant
            i <= projects.len(),
            ps == text::views(projects@),
            rs == text::views(runs@),
            ss == text::views(sessions@),
            text::views(out@) == all_rows(ps.take(i as int), rs, ss),
        decreases projects.len() - i,
    {
        let tasks = projects[i].store.list_tasks();
        let ghost before = text::views(out@);
        let ghost mine = task_rows(ps[i as int], text::views(tasks@), rs, ss);
        let mut k: usize = 0;
        proof {
            assert(before + mine.take(0) =~= before);
        }
        while k < tasks.len()
            invariant
                k <= tasks.len(),
                i < projects.len(),
                ps == text::views(projects@),
                rs == text::views(runs@),
                ss == text::views(sessions@),
                mine == task_rows(ps[i as int], text::views(tasks@), rs, ss),
                text::views(out@) == before + mine.take(k as int),
            decreases tasks.len() - k,
        {
            let ghost now = text::views(out@);
            let r = row_for(&projects[i], &tasks[k], runs, sessions);
            out.push(r);
            proof {
                assert(text::views(out@) =~= now.push(mine[k as int]));
                assert(mine.take(k + 1) =~= mine.take(k as int).push(mine[k as int]));
                assert(before + mine.take(k + 1) =~= (before + mine.take(k as int)).push(
                    mine[k as int],
                ));
            }
            k += 1;
        }
        proof {
            assert(mine.take(mine.len() as int) =~= mine);
            assert(ps.take(i + 1).drop_last() =~= ps.take(i as int));
            assert(ps.take(i + 1).last() == projects@[i as int]@);
        }
        i += 1;
    }
    proof {
        assert(ps.take(ps.len() as int) =~= ps);
    }
    out
}

// ---------------------------------------------------------------------------
// Finding a task
// ---------------------------------------------------------------------------

/// The first project, at or behind `i`, that has a task with an id, and that task.
pub open spec fn task_among(ps: Seq<StoreInfoV>, id: Seq<char>, i: int) -> Option<(int, TaskRefV)>
    decreases ps.len() - i,
{
    if i < 0 || i >= ps.len() {
        None
    } else {
        match store::with_id_from(store::all_tasks(ps[i].store), id, 0) {
            Some(t) => Some((i, t)),
            None => task_among(ps, id, i + 1),
        }
    }
}

/// A task and its project.
pub open spec fn found_view(r: Option<(usize, TaskRef)>) -> Option<(int, TaskRefV)> {
    match r {
        Some((i, t)) => Some((i as int, t@)),
        None => None,
    }
}

/// Locate a task by id across every project.
pub fn find_task(projects: &Vec<StoreInfo>, id: &str) -> (r: Option<(usize, TaskRef)>)
    ensures
        found_view(r) == task_among(text::views(projects@), id@, 0),
        r matches Some((i, _)) ==> i < projects.len(),
{
    let ghost ps = text::views(projects@);
    let mut i: usize = 0;
    while i < projects.len()
        invariant
            i <= projects.len(),
            ps == text::views(projects@),
            task_among(ps, id@, 0) == task_among(ps, id@, i as int),
        decreases projects.len() - i,
    {
        match projects[i].store.find_by_id(id) {
            Some(t) => {
                return Some((i, t));
            },
            None => {},
        }
        i += 1;
    }
    None
}

/// The first project, at or behind `i`, that has a task with a document path, and that
/// task.
pub open spec fn path_among(ps: Seq<StoreInfoV>, path: Seq<char>, i: int) -> Option<
    (int, TaskRefV),
>
    decreases ps.len() - i,
{
    if i < 0 || i >= ps.len() {
        None
    } else {
        match local::at_path(store::all_tasks(ps[i].store), path, 0) {
            Some(t) => Some((i, t)),
            None => path_among(ps, path, i + 1),
        }
    }
}

/// The task of a store with a document path.
fn task_at(s: &Store, path: &str) -> (r: Option<TaskRef>)
    ensures
        store::opt_task(r) == local::at_path(store::all_tasks(s@), path@, 0),
{
    let tasks = s.list_tasks();
    let ghost all = text::views(tasks@);
    let mut i: usize = 0;
    while i < tasks.len()
        invariant
            i <= tasks.len(),
            all == text::views(tasks@),
            all == store::all_tasks(s@),
            local::at_path(all, path@, 0) == local::at_path(all, path@, i as int),
        decreases tasks.len() - i,
    {
        if text::same(&tasks[i].path, path) {
            return Some(tasks[i].clone());
        }
        i += 1;
    }
    None
}

/// Locate a task by its document path across every project.
pub fn find_task_by_path(projects: &Vec<StoreInfo>, path: &str) -> (r: Option<(usize, TaskRef)>)
    ensures
        found_view(r) == path_among(text::views(projects@), path@, 0),
        r matches Some((i, _)) ==> i < projects.len(),
{
    let ghost ps = text::views(projects@);
    let mut i: usize = 0;
    while i < projects.len()
        invariant
            i <= projects.len(),
            ps == text::views(projects@),
            path_among(ps, path@, 0) == path_among(ps, path@, i as int),
        decreases projects.len() - i,
    {
        match task_at(&projects[i].store, path) {
            Some(t) => {
                return Some((i, t));
            },
            None => {},
        }
        i += 1;
    }
    None
}

/// Where the repository of a project is; a clear error where that is not recorded.
pub fn repo_dir_for(info: &StoreInfo) -> (r: Result<String, String>)
    ensures
        match (r, info@.repo_dir) {
            (Ok(d), Some(dir)) => d@ == dir,
            (Err(e), None) => e@ == "project '"@ + info@.project + "' has no recorded repo path"@,
            _ => false,
        },
{
    match &info.repo_dir {
        Some(d) => Ok(d.clone()),
        None => {
            let mut m = String::from_str("project '");
            m.append(&info.project);
            m.append("' has no recorded repo path");
            Err(m)
        },
    }
}

/// The error where the repository of a project has moved or vanished.
pub fn repo_not_found(info: &StoreInfo, dir: &str) -> (r: String)
    ensures
        r@ == "repo for '"@ + info@.project + "' not found at "@ + dir@,
{
    let mut m = String::from_str("repo for '");
    m.append(&info.project);
    m.append("' not found at ");
    m.append(dir);
    m
}

// ---------------------------------------------------------------------------
// Starting
// ---------------------------------------------------------------------------

/// A project with the same store is among the projects.
pub open spec fn has_root(ps: Seq<StoreInfoV>, root: Seq<char>) -> bool {
    exists|i: int| 0 <= i < ps.len() && paths::same_place((#[trigger] ps[i]).store.root, root)
}

/// Projects with more of them, each store once.
pub open spec fn with_projects(ps: Seq<StoreInfoV>, more: Seq<StoreInfoV>) -> Seq<StoreInfoV>
    decreases more.len(),
{
    if more.len() == 0 {
        ps
    } else {
        let before = with_projects(ps, more.drop_last());
        if has_root(before, more.last().store.root) {
            before
        } else {
            before.push(more.last())
        }
    }
}

/// The project that the dashboard is launched in.
pub open spec fn home_list(home: Option<StoreInfoV>) -> Seq<StoreInfoV> {
    match home {
        Some(h) => seq![h],
        None => seq![],
    }
}

/// An optional project.
pub open spec fn opt_info(i: Option<StoreInfo>) -> Option<StoreInfoV> {
    match i {
        Some(i) => Some(i@),
        None => None,
    }
}

/// The names of projects.
pub open spec fn names_of(ps: Seq<StoreInfoV>) -> Seq<Seq<char>> {
    Seq::new(ps.len(), |i: int| ps[i].project)
}

/// Whether a project with the same store is among the projects.
fn root_known(ps: &Vec<StoreInfo>, root: &str) -> (r: bool)
    ensures
        r == has_root(text::views(ps@), root@),
{
    let ghost all = text::views(ps@);
    let mut i: usize = 0;
    while i < ps.len()
        invariant
            i <= ps.len(),
            all == text::views(ps@),
            forall|k: int|
                0 <= k < i ==> !paths::same_place((#[trigger] all[k]).store.root, root@),
        decreases ps.len() - i,
    {
        if paths::same_path(&ps[i].store.root, root) {
            assert(paths::same_place(all[i as int].store.root, root@));
            return true;
        }
        i += 1;
    }
    false
}

/// The projects of the dashboard: the launch repo (if any) plus every other store
/// under the data directory, so it works from anywhere — even outside a repo.
pub fn dashboard_projects(home: &Option<StoreInfo>, found: &Vec<StoreInfo>) -> (r: Result<
    Vec<StoreInfo>,
    String,
>)
    ensures
        match r {
            Ok(ps) => ps@.len() > 0 && text::views(ps@) == with_projects(
                home_list(opt_info(*home)),
                text::views(found@),
            ),
            Err(e) => with_projects(home_list(opt_info(*home)), text::views(found@)).len() == 0
                && e@ == "no rein stores found — run `rein init` in a project first"@,
        },
{
    let mut out: Vec<StoreInfo> = Vec::new();
    match home {
        Some(h) => out.push(h.clone()),
        None => {},
    }
    let ghost start = home_list(opt_info(*home));
    let ghost all = text::views(found@);
    let mut i: usize = 0;
    proof {
        assert(text::views(out@) =~= start);
        assert(all.take(0) =~= Seq::<StoreInfoV>::empty());
    }
    while i < found.len()
        invariant
            i <= found.len(),
            all == text::views(found@),
            text::views(out@) == with_projects(start, all.take(i as int)),
        decreases found.len() - i,
    {
        let ghost before = text::views(out@);
        proof {
            let up = all.take(i + 1);
            assert(up.drop_last() =~= all.take(i as int));
            assert(up.last() == found@[i as int]@);
        }
        if !root_known(&out, &found[i].store.root) {
            out.push(found[i].clone());
            assert(text::views(out@) =~= before.push(found@[i as int]@));
        }
        i += 1;
    }
    proof {
        assert(all.take(all.len() as int) =~= all);
        assert(text::views(out@).len() == out@.len());
    }
    if out.len() == 0 {
        return Err(String::from_str("no rein stores found — run `rein init` in a project first"));
    }
    Ok(out)
}

/// The label of the project that the dashboard is launched in.
pub open spec fn home_project(home: Option<StoreInfoV>) -> Option<Seq<char>> {
    match home {
        Some(h) => Some(h.project),
        None => None,
    }
}

/// The store of the project that the dashboard is launched in.
pub open spec fn home_root(home: Option<StoreInfoV>) -> Option<Seq<char>> {
    match home {
        Some(h) => Some(h.store.root),
        None => None,
    }
}

/// The dashboard as it starts: over every project, and scoped to the one that it is
/// launched in.
pub open spec fn started(
    ps: Seq<StoreInfoV>,
    home: Option<StoreInfoV>,
    agent: Option<Seq<char>>,
    rows: Seq<TaskRowV>,
) -> AppV {
    AppV {
        all_projects: app::sorted_names(names_of(ps)),
        home_store_root: home_root(home),
        home_label: home_project(home),
        project_scope: home_project(home),
        scope_agent: agent,
        ..app::fresh_app(rows)
    }
}

/// The names of projects, in order and each once.
fn project_names(ps: &Vec<StoreInfo>) -> (r: Vec<String>)
    ensures
        text::views(r@) == app::sorted_names(names_of(text::views(ps@))),
{
    let ghost all = names_of(text::views(ps@));
    let mut names: Vec<String> = Vec::new();
    let mut i: usize = 0;
    proof {
        assert(text::views(names@) =~= all.take(0));
    }
    while i < ps.len()
        invariant
            i <= ps.len(),
            all == names_of(text::views(ps@)),
            text::views(names@) == all.take(i as int),
        decreases ps.len() - i,
    {
        let ghost before = text::views(names@);
        names.push(ps[i].project.clone());
        proof {
            assert(text::views(names@) =~= before.push(all[i as int]));
            assert(all.take(i + 1) =~= all.take(i as int).push(all[i as int]));
        }
        i += 1;
    }
    proof {
        assert(all.take(all.len() as int) =~= all);
    }
    app::sort_names(&names)
}

/// The first project at or after `i` that has the name of the scope.
pub open spec fn named_from(
    ps: Seq<StoreInfoV>,
    scope: Option<Seq<char>>,
    i: int,
) -> Option<int>
    decreases ps.len() - i,
{
    if scope is None || i < 0 || i >= ps.len() {
        None
    } else if scope == Some(ps[i].project) {
        Some(i)
    } else {
        named_from(ps, scope, i + 1)
    }
}

/// The run agent that is shown beside a project: the one that the environment names,
/// else the one that the project's repository is configured with.
pub fn shown_agent(env: Option<String>, configured: Option<String>) -> (r: Option<String>)
    ensures
        r == if env is Some {
            env
        } else {
            configured
        },
{
    match env {
        Some(a) => Some(a),
        None => configured,
    }
}

impl App {
    /// Names the projects, and the one that the dashboard is launched in.
    fn set_projects(
        &mut self,
        names: Vec<String>,
        root: Option<String>,
        label: Option<String>,
        scope: Option<String>,
        agent: Option<String>,
    )
        ensures
            final(self).tab == old(self).tab,
            final(self)@ == (AppV {
                all_projects: text::views(names@),
                home_store_root: text::opt_view(root),
                home_label: text::opt_view(label),
                project_scope: text::opt_view(scope),
                scope_agent: text::opt_view(agent),
                ..old(self)@
            }),
    {
        self.all_projects = names;
        self.home_store_root = root;
        self.home_label = label;
        self.project_scope = scope;
        self.scope_agent = agent;
    }

    /// The dashboard as it starts. Launched inside a project it lands scoped to it;
    /// the picker (P) goes wider.
    pub fn start(
        projects: &Vec<StoreInfo>,
        home: &Option<StoreInfo>,
        agent: Option<String>,
        rows: Vec<TaskRow>,
    ) -> (r: App)
        ensures
            r.wf(),
            r@ == started(
                text::views(projects@),
                opt_info(*home),
                text::opt_view(agent),
                text::views(rows@),
            ),
    {
        let mut a = App::new(rows);
        let (root, label, scope) = match home {
            Some(h) => (
                Some(h.store.root.clone()),
                Some(h.project.clone()),
                Some(h.project.clone()),
            ),
            None => (None, None, None),
        };
        a.set_projects(project_names(projects), root, label, scope, agent);
        a
    }

    /// Which project the dashboard is scoped to: the first of that name.
    pub fn scoped_project(&self, projects: &Vec<StoreInfo>) -> (r: Option<usize>)
        ensures
            match r {
                Some(i) => i < projects.len() && named_from(
                    text::views(projects@),
                    self@.project_scope,
                    0,
                ) == Some(i as int),
                None => named_from(text::views(projects@), self@.project_scope, 0) is None,
            },
    {
        let ghost ps = text::views(projects@);
        let ghost scope = self@.project_scope;
        match &self.project_scope {
            Some(name) => {
                let mut i: usize = 0;
                while i < projects.len()
                    invariant
                        i <= projects.len(),
                        ps == text::views(projects@),
                        scope == Some(name@),
                        scope == self@.project_scope,
                        named_from(ps, scope, 0) == named_from(ps, scope, i as int),
                    decreases projects.len() - i,
                {
                    assert(ps[i as int] == projects@[i as int]@);
                    if text::same(&projects[i].project, name) {
                        return Some(i);
                    }
                    i += 1;
                }
                None
            },
            None => None,
        }
    }

    /// Notes the run agent that is configured for the scoped project.
    pub fn note_agent(&mut self, agent: Option<String>)
        ensures
            final(self)@ == (AppV { scope_agent: text::opt_view(agent), ..old(self)@ }),
    {
        self.scope_agent = agent;
    }
}

// ---------------------------------------------------------------------------
// The picker
// ---------------------------------------------------------------------------

/// The rows of the picker.
pub open spec fn picker_rows(ts: Seq<TaskRefV>) -> Seq<TaskRowV> {
    Seq::new(ts.len(), |i: int| row::row_of(ts[i], seq![], seq![]))
}

/// What a key in the picker leads to.
#[derive(Debug)]
pub enum Pick {
    /// The picker stays.
    Going,
    /// The picker ends, with the document under the cursor where there is one.
    Ended(Option<String>),
}

/// What a [`Pick`] stands for.
#[verifier::ext_equal]
pub enum PickV {
    Going,
    Ended(Option<Seq<char>>),
}

impl View for Pick {
    type V = PickV;

    open spec fn view(&self) -> PickV {
        match self {
            Pick::Going => PickV::Going,
            Pick::Ended(p) => PickV::Ended(text::opt_view(*p)),
        }
    }
}

/// What a key in the picker leads to: Enter picks, and Esc or `q` end it once no
/// filter is typed.
pub open spec fn pick_of(a: AppV, k: KeyEvent) -> PickV {
    if !k.press {
        PickV::Going
    } else if k.code == KeyCode::Enter {
        PickV::Ended(
            match app::selected_row(a) {
                Some(t) => Some(t.path),
                None => None,
            },
        )
    } else if !a.filtering && (k.code == KeyCode::Esc || k.code == KeyCode::Char('q')) {
        PickV::Ended(None)
    } else {
        PickV::Going
    }
}

/// The picker after a key.
pub open spec fn picker_after(a: AppV, k: KeyEvent) -> AppV {
    if pick_of(a, k) is Going {
        input::after_key(a, k)
    } else {
        a
    }
}

impl App {
    /// Types a filter first.
    fn begin_filter(&mut self)
        ensures
            final(self).tab == old(self).tab,
            final(self)@ == (AppV { filtering: true, ..old(self)@ }),
    {
        self.filtering = true;
    }

    /// The fuzzy picker used by `rein open` without an argument.
    pub fn picker(tasks: &Vec<TaskRef>) -> (r: App)
        ensures
            r.wf(),
            r@ == (AppV {
                filtering: true,
                ..app::fresh_app(picker_rows(text::views(tasks@)))
            }),
    {
        let ghost all = text::views(tasks@);
        let ghost want = picker_rows(all);
        let mut rows: Vec<TaskRow> = Vec::new();
        let mut i: usize = 0;
        proof {
            reveal_strlit("");
            assert(""@ =~= Seq::<char>::empty());
            assert(text::views(rows@) =~= want.take(0));
        }
        while i < tasks.len()
            invariant
                i <= tasks.len(),
                ""@ == Seq::<char>::empty(),
                all == text::views(tasks@),
                want == picker_rows(all),
                text::views(rows@) == want.take(i as int),
            decreases tasks.len() - i,
        {
            let ghost before = text::views(rows@);
            rows.push(TaskRow::from_ref(&tasks[i], "", ""));
            proof {
                assert(text::views(rows@) =~= before.push(want[i as int]));
                assert(want.take(i + 1) =~= want.take(i as int).push(want[i as int]));
            }
            i += 1;
        }
        proof {
            assert(want.take(want.len() as int) =~= want);
        }
        let mut a = App::new(rows);
        a.begin_filter();
        a
    }

    /// What a key in the picker leads to.
    fn pick(&self, key: KeyEvent) -> (r: Pick)
        requires
            self.wf(),
        ensures
            r@ == pick_of(self@, key),
    {
        if !key.press {
            return Pick::Going;
        }
        match key.code {
            KeyCode::Enter => match self.selected_task() {
                Some(t) => Pick::Ended(Some(t.path.clone())),
                None => Pick::Ended(None),
            },
            KeyCode::Esc | KeyCode::Char('q') => if self.filtering {
                Pick::Going
            } else {
                Pick::Ended(None)
            },
            _ => Pick::Going,
        }
    }

    /// A key in the picker.
    pub fn pick_key(&mut self, key: KeyEvent) -> (r: Pick)
        requires
            old(self).wf(),
        ensures
            final(self).wf(),
            final(self)@ == picker_after(old(self)@, key),
            r@ == pick_of(old(self)@, key),
    {
        let p = self.pick(key);
        match p {
            Pick::Going => {
                self.on_key(key);
            },
            Pick::Ended(_) => {},
        }
        p
    }
}

} // verus!
