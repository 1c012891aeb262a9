//! Running an agent on a task: which one, how it is called, and what became of it.
use crate::commands::lifecycle::{self, target};
use crate::commands::local::{self, push_line, run_task_prompt};
use crate::commands::plan::{no_steps, push_step, StateEdit, StateEditV, Step, StepV};
use crate::ctx::{Ctx, CtxV};
use crate::json::{self, Json};
use crate::paths;
use crate::projects;
use crate::state::{self, TaskState, TaskStateV};
use crate::store::{self, TaskRef, TaskRefV};
use crate::task;
use crate::task::items::{self as checklist, ItemV};
use crate::task::ranges;
use crate::text;
use crate::util;
use vstd::prelude::*;
use vstd::string::*;

verus! {

// ---------------------------------------------------------------------------
// Backends
// ---------------------------------------------------------------------------

/// An agent that works on tasks.
#[derive(Debug, Clone, Copy, PartialEq, Eq, Structural)]
pub enum Agent {
    Claude,
    Codex,
    Opencode,
}

/// Codex runs in the foreground, so rein backgrounds it.
pub const CODEX_RUN_CMD: &'static str = "codex exec --json --sandbox danger-full-access --add-dir \"$REIN_ROOT\" -- \"$REIN_PROMPT\"";

/// opencode runs in the foreground, so rein backgrounds it.
pub const OPENCODE_RUN_CMD: &'static str = "opencode run --format json --dangerously-skip-permissions \"$REIN_PROMPT\"";

/// The command that dispatches a tracked background session and returns immediately.
/// `--name "$REIN_TITLE"` pins the session's display name (and terminal title) to
/// `rein:<branch>:<open task numbers>`.
pub open spec fn session_command(claude: Seq<char>) -> Seq<char> {
    claude + " --bg --dangerously-skip-permissions --name \"$REIN_TITLE\" /run-rein-task"@
}

impl Agent {
    /// What it is called, given the name of the agent that backgrounds itself.
    pub open spec fn called(self, claude: Seq<char>) -> Seq<char> {
        match self {
            Agent::Claude => claude,
            Agent::Codex => "codex"@,
            Agent::Opencode => "opencode"@,
        }
    }

    /// The agent with a name, among those that rein backgrounds.
    pub open spec fn foreground(s: Seq<char>) -> Option<Agent> {
        if s == "codex"@ {
            Some(Agent::Codex)
        } else if s == "opencode"@ {
            Some(Agent::Opencode)
        } else {
            None
        }
    }

    /// The agent with a name.
    pub open spec fn with_name(s: Seq<char>, claude: Seq<char>) -> Option<Agent> {
        if s == claude {
            Some(Agent::Claude)
        } else {
            Agent::foreground(s)
        }
    }

    /// The command that runs it, unless another is configured.
    pub open spec fn run_default(self, claude: Seq<char>) -> Seq<char> {
        match self {
            Agent::Claude => session_command(claude),
            Agent::Codex => CODEX_RUN_CMD@,
            Agent::Opencode => OPENCODE_RUN_CMD@,
        }
    }

    /// What it is called.
    pub fn name(&self, claude: &str) -> (r: String)
        ensures
            r@ == self.called(claude@),
    {
        match self {
            Agent::Claude => String::from_str(claude),
            Agent::Codex => String::from_str("codex"),
            Agent::Opencode => String::from_str("opencode"),
        }
    }

    /// The agent with a name, among those that rein backgrounds.
    fn backgrounded(s: &str) -> (r: Option<Agent>)
        ensures
            r == Agent::foreground(s@),
    {
        if text::same(s, "codex") {
            Some(Agent::Codex)
        } else if text::same(s, "opencode") {
            Some(Agent::Opencode)
        } else {
            None
        }
    }

    /// The agent with a name.
    pub fn named(s: &str, claude: &str) -> (r: Option<Agent>)
        ensures
            r == Agent::with_name(s@, claude@),
    {
        if text::same(s, claude) {
            Some(Agent::Claude)
        } else {
            Agent::backgrounded(s)
        }
    }

    /// The command that runs it, unless another is configured.
    pub fn run_cmd(&self, claude: &str) -> (r: String)
        ensures
            r@ == self.run_default(claude@),
    {
        match self {
            Agent::Claude => two(
                claude,
                " --bg --dangerously-skip-permissions --name \"$REIN_TITLE\" /run-rein-task",
            ),
            Agent::Codex => String::from_str(CODEX_RUN_CMD),
            Agent::Opencode => String::from_str(OPENCODE_RUN_CMD),
        }
    }
}

/// What the environment and the repository say about runs.
#[derive(Debug)]
pub struct RunSettings {
    /// `REIN_RUN_AGENT`
    pub env_agent: Option<String>,
    /// git config `rein.runAgent`
    pub git_agent: Option<String>,
    /// `REIN_RUN_CMD`
    pub env_cmd: Option<String>,
    /// git config `rein.run`
    pub git_cmd: Option<String>,
    /// What the agent is called that backgrounds itself.
    pub claude: String,
}

/// What [`RunSettings`] stand for.
#[verifier::ext_equal]
pub struct RunSettingsV {
    pub env_agent: Option<Seq<char>>,
    pub git_agent: Option<Seq<char>>,
    pub env_cmd: Option<Seq<char>>,
    pub git_cmd: Option<Seq<char>>,
    pub claude: Seq<char>,
}

impl View for RunSettings {
    type V = RunSettingsV;

    open spec fn view(&self) -> RunSettingsV {
        RunSettingsV {
            env_agent: text::opt_view(self.env_agent),
            git_agent: text::opt_view(self.git_agent),
            env_cmd: text::opt_view(self.env_cmd),
            git_cmd: text::opt_view(self.git_cmd),
            claude: self.claude@,
        }
    }
}

/// A value that is set and not blank.
pub open spec fn nonblank(v: Option<Seq<char>>) -> Option<Seq<char>> {
    match v {
        Some(s) => if text::trimmed(s).len() == 0 {
            None
        } else {
            v
        },
        None => None,
    }
}

/// The agent that a setting names.
pub open spec fn set_agent(v: Option<Seq<char>>, claude: Seq<char>) -> Option<Agent> {
    match v {
        Some(s) => Agent::with_name(text::trimmed(s), claude),
        None => None,
    }
}

/// The command that is configured.
pub open spec fn configured(s: RunSettingsV) -> Option<Seq<char>> {
    match nonblank(s.env_cmd) {
        Some(c) => Some(c),
        None => s.git_cmd,
    }
}

/// The agent that a command calls: the one that its first word names; a command of
/// another name is taken to background itself.
pub open spec fn agent_of_command(cmd: Seq<char>, claude: Seq<char>) -> Agent {
    let ws = text::words_of(cmd);
    if ws.len() == 0 {
        Agent::Claude
    } else {
        match Agent::with_name(ws[0], claude) {
            Some(a) => a,
            None => Agent::Claude,
        }
    }
}

/// The agent that runs a task.
pub open spec fn chosen_agent(s: RunSettingsV) -> Agent {
    match set_agent(s.env_agent, s.claude) {
        Some(a) => a,
        None => match set_agent(s.git_agent, s.claude) {
            Some(a) => a,
            None => match configured(s) {
                Some(c) => agent_of_command(c, s.claude),
                None => Agent::Opencode,
            },
        },
    }
}

/// A value that is set and not blank.
pub fn not_blank(v: &Option<String>) -> (r: Option<String>)
    ensures
        text::opt_view(r) == nonblank(text::opt_view(*v)),
{
    match v {
        Some(s) => if text::trim(s).as_str().is_empty() {
            None
        } else {
            Some(s.clone())
        },
        None => None,
    }
}

/// The agent that a setting names.
pub fn agent_in(v: &Option<String>, claude: &str) -> (r: Option<Agent>)
    ensures
        r == set_agent(text::opt_view(*v), claude@),
{
    match v {
        Some(s) => Agent::named(&text::trim(s), claude),
        None => None,
    }
}

/// The command that is configured.
fn configured_command(s: &RunSettings) -> (r: Option<String>)
    ensures
        text::opt_view(r) == configured(s@),
{
    match not_blank(&s.env_cmd) {
        Some(c) => Some(c),
        None => text::clone_opt(&s.git_cmd),
    }
}

/// The agent backend: `REIN_RUN_AGENT` → git config `rein.runAgent` → inferred from a
/// configured command whose first word names an agent → `opencode`.
pub fn run_agent(s: &RunSettings) -> (r: Agent)
    ensures
        r == chosen_agent(s@),
{
    match agent_in(&s.env_agent, &s.claude) {
        Some(a) => a,
        None => match agent_in(&s.git_agent, &s.claude) {
            Some(a) => a,
            None => match configured_command(s) {
                Some(c) => {
                    let ws = text::split_whitespace(&c);
                    proof {
                        assert(text::views(ws@).len() == ws@.len());
                    }
                    if ws.len() == 0 {
                        Agent::Claude
                    } else {
                        match Agent::named(&ws[0], &s.claude) {
                            Some(a) => a,
                            None => Agent::Claude,
                        }
                    }
                },
                None => Agent::Opencode,
            },
        },
    }
}

/// The command that runs a task.
pub open spec fn chosen_command(s: RunSettingsV) -> Seq<char> {
    match configured(s) {
        Some(c) => c,
        None => chosen_agent(s).run_default(s.claude),
    }
}

/// The command template: `REIN_RUN_CMD` → git config `rein.run` → the backend default.
pub fn run_command(s: &RunSettings) -> (r: String)
    ensures
        r@ == chosen_command(s@),
{
    match configured_command(s) {
        Some(c) => c,
        None => run_agent(s).run_cmd(&s.claude),
    }
}

// ---------------------------------------------------------------------------
// The plan of a run
// ---------------------------------------------------------------------------

/// The ids of the open (unchecked, unfailed) items, in order.
pub open spec fn open_ids(its: Seq<ItemV>) -> Seq<Seq<char>>
    decreases its.len(),
{
    if its.len() == 0 {
        seq![]
    } else {
        let before = open_ids(its.drop_last());
        let it = its.last();
        match it.id {
            Some(id) => if local::is_open(it) {
                before.push(id)
            } else {
                before
            },
            None => before,
        }
    }
}

/// The title of a session: `rein:<branch>:<open task numbers>`.
pub open spec fn session_title(t: TaskRefV, branch: Seq<char>) -> Seq<char> {
    let label = if branch.len() == 0 {
        t.slug
    } else {
        branch
    };
    let numbers = ranges::folded(
        open_ids(checklist::items_of(checklist::healed_body(t.doc.body))),
    );
    if numbers.len() == 0 {
        "rein:"@ + label
    } else {
        "rein:"@ + label + ":"@ + numbers
    }
}

/// The ids of the open items, in order.
fn ids_to_do(its: &Vec<task::Item>) -> (r: Vec<String>)
    ensures
        text::views(r@) == open_ids(text::views(its@)),
{
    let ghost all = text::views(its@);
    let mut out: Vec<String> = Vec::new();
    let mut i: usize = 0;
    while i < its.len()
        invariant
            0 <= i <= its.len(),
            all == text::views(its@),
            text::views(out@) == open_ids(all.take(i as int)),
        decreases its.len() - i,
    {
        proof {
            assert(all.take(i as int + 1).drop_last() =~= all.take(i as int));
            assert(all.take(i as int + 1).last() == its@[i as int]@);
        }
        if !its[i].checked && !its[i].failed {
            match &its[i].id {
                Some(id) => {
                    push_line(&mut out, id.clone());
                },
                None => {},
            }
        }
        i += 1;
    }
    proof {
        assert(all.take(i as int) =~= all);
    }
    out
}

/// The title of a session: the open (unchecked, unfailed) item numbers,
/// range-folded like `1~12,14,16`. IDs are computed query-only (no write), the same
/// way `rein todo` numbers them, so the title matches the ids the agent sees. Falls
/// back to the slug when no branch is recorded, and drops the trailing `:` when there
/// is nothing open.
pub fn run_title(t: &TaskRef, branch: &str) -> (r: String)
    ensures
        r@ == session_title(t@, branch@),
{
    let (assigned, _) = task::ensure_item_ids(&t.doc.body);
    let ids = ids_to_do(&task::scan_items(&assigned));
    let numbers = task::number_ranges(&ids);
    let mut title = String::from_str("rein:");
    if branch.is_empty() {
        title.append(&t.slug);
    } else {
        title.append(branch);
    }
    if !numbers.as_str().is_empty() {
        title.append(":");
        title.append(&numbers);
    }
    title
}

/// The branch of a run: the recorded one, the one in the document, or none.
pub open spec fn run_branch(st: TaskStateV, t: TaskRefV) -> Seq<char> {
    match st.branch {
        Some(b) => b,
        None => match t.doc.front.branch {
            Some(b) => b,
            None => seq![],
        },
    }
}

/// What an agent is asked to do.
pub open spec fn run_prompt(id: Seq<char>) -> Seq<char> {
    "Use the run-rein-task skill to work on task "@ + id + ". "@ + local::SKILL_MD@
}

/// A run that is to be started.
#[derive(Debug)]
pub struct RunPlan {
    pub task: TaskRef,
    /// Where it runs.
    pub dir: String,
    /// It runs in a worktree of its own.
    pub isolated: bool,
    pub branch: String,
    pub title: String,
    pub agent: Agent,
    /// What the agent is called.
    pub agent_name: String,
    pub command: String,
    pub prompt: String,
}

/// What a [`RunPlan`] stands for.
#[verifier::ext_equal]
pub struct RunPlanV {
    pub task: TaskRefV,
    pub dir: Seq<char>,
    pub isolated: bool,
    pub branch: Seq<char>,
    pub title: Seq<char>,
    pub agent: Agent,
    pub agent_name: Seq<char>,
    pub command: Seq<char>,
    pub prompt: Seq<char>,
}

impl View for RunPlan {
    type V = RunPlanV;

    open spec fn view(&self) -> RunPlanV {
        RunPlanV {
            task: self.task@,
            dir: self.dir@,
            isolated: self.isolated,
            branch: self.branch@,
            title: self.title@,
            agent: self.agent,
            agent_name: self.agent_name@,
            command: self.command@,
            prompt: self.prompt@,
        }
    }
}

/// Where a task runs: in its worktree, where that is there, or in the main repo.
pub open spec fn run_dir(c: CtxV, st: TaskStateV, exists: bool) -> Seq<char> {
    match st.worktree {
        Some(w) => if exists {
            w
        } else {
            c.repo.workdir
        },
        None => c.repo.workdir,
    }
}

/// The plan of a run.
pub open spec fn planned_run(c: CtxV, t: TaskRefV, exists: bool, s: RunSettingsV) -> RunPlanV {
    let st = state::state_from(c.store.states, t.id, 0);
    let branch = run_branch(st, t);
    RunPlanV {
        task: t,
        dir: run_dir(c, st, exists),
        isolated: st.worktree is Some && exists,
        branch,
        title: session_title(t, branch),
        agent: chosen_agent(s),
        agent_name: chosen_agent(s).called(s.claude),
        command: chosen_command(s),
        prompt: run_prompt(t.id),
    }
}

/// Where a task runs.
fn dir_of_run(ctx: &Ctx, st: &TaskState, exists: bool) -> (r: String)
    ensures
        r@ == run_dir(ctx@, st@, exists),
{
    match &st.worktree {
        Some(w) => if exists {
            w.clone()
        } else {
            ctx.repo.workdir.clone()
        },
        None => ctx.repo.workdir.clone(),
    }
}

/// Launch an agent on a task in its own working directory, in the background: the
/// plan of the run. rein knows where each task lives, so the run has its cwd set to
/// the task's worktree (or the main repo if it only has a branch). `exists` says
/// whether the directory of the recorded worktree is there.
pub fn run(ctx: &Ctx, query: Option<&str>, exists: bool, settings: &RunSettings) -> (r: Result<
    RunPlan,
    String,
>)
    ensures
        match lifecycle::target_of(ctx@, projects::str_view(query)) {
            Ok(t) => r matches Ok(p) && p@ == planned_run(ctx@, t, exists, settings@),
            Err(e) => r matches Err(m) && m@ == e,
        },
{
    match target(ctx, query) {
        Err(e) => Err(e),
        Ok(t) => {
            let st = state::load(&ctx.store, &t.id);
            let dir = dir_of_run(ctx, &st, exists);
            let isolated = st.worktree.is_some() && exists;
            let branch = match st.branch {
                Some(b) => b,
                None => match &t.doc.front.branch {
                    Some(b) => b.clone(),
                    None => String::new(),
                },
            };
            let title = run_title(&t, &branch);
            let mut prompt = String::from_str("Use the run-rein-task skill to work on task ");
            prompt.append(&t.id);
            prompt.append(". ");
            prompt.append(run_task_prompt());
            let agent = run_agent(settings);
            let p = RunPlan {
                task: t,
                dir,
                isolated,
                branch,
                title,
                agent,
                agent_name: agent.name(&settings.claude),
                command: run_command(settings),
                prompt,
            };
            assert(p@ =~= planned_run(ctx@, t@, exists, settings@));
            Ok(p)
        },
    }
}

/// What a run finds in its environment.
pub open spec fn exported(p: RunPlanV, root: Seq<char>) -> Seq<(Seq<char>, Seq<char>)> {
    seq![
        ("REIN_TASK"@, p.task.id),
        ("REIN_SLUG"@, p.task.slug),
        ("REIN_BRANCH"@, p.branch),
        ("REIN_DIR"@, p.dir),
        ("REIN_TITLE"@, p.title),
        ("REIN_PROMPT"@, p.prompt),
        ("REIN_ROOT"@, root),
    ]
}

/// What pairs of texts stand for.
pub open spec fn pairs(v: Seq<(String, String)>) -> Seq<(Seq<char>, Seq<char>)> {
    Seq::new(v.len(), |i: int| (v[i].0@, v[i].1@))
}

/// What a run finds in its environment, so that the agent resolves the task no
/// matter where it was invoked.
pub fn run_env(p: &RunPlan, root: &str) -> (r: Vec<(String, String)>)
    ensures
        pairs(r@) == exported(p@, root@),
{
    let mut out: Vec<(String, String)> = Vec::new();
    out.push((String::from_str("REIN_TASK"), p.task.id.clone()));
    out.push((String::from_str("REIN_SLUG"), p.task.slug.clone()));
    out.push((String::from_str("REIN_BRANCH"), p.branch.clone()));
    out.push((String::from_str("REIN_DIR"), p.dir.clone()));
    out.push((String::from_str("REIN_TITLE"), p.title.clone()));
    out.push((String::from_str("REIN_PROMPT"), p.prompt.clone()));
    out.push((String::from_str("REIN_ROOT"), String::from_str(root)));
    assert(pairs(out@) =~= exported(p@, root@));
    out
}

// ---------------------------------------------------------------------------
// What a run reports
// ---------------------------------------------------------------------------

/// An ASCII letter.
pub open spec fn is_letter(c: char) -> bool {
    ('a' <= c <= 'z') || ('A' <= c <= 'Z')
}

/// Behind the escape sequence whose parameters start at `i`.
pub open spec fn sequence_end(s: Seq<char>, i: int) -> int
    decreases s.len() - i,
{
    if i < 0 || i >= s.len() {
        s.len() as int
    } else if is_letter(s[i]) {
        i + 1
    } else {
        sequence_end(s, i + 1)
    }
}

/// An escape sequence starts at `i`.
pub open spec fn escapes_at(s: Seq<char>, i: int) -> bool {
    0 <= i && i + 1 < s.len() && s[i] == '\u{1b}' && s[i + 1] == '['
}

/// A text from `i` on, without its escape sequences.
pub open spec fn plain_from(s: Seq<char>, i: int) -> Seq<char>
    decreases s.len() - i,
{
    if i < 0 || i >= s.len() {
        seq![]
    } else if escapes_at(s, i) {
        if i < sequence_end(s, i + 2) <= s.len() {
            plain_from(s, sequence_end(s, i + 2))
        } else {
            seq![]
        }
    } else {
        seq![s[i]] + plain_from(s, i + 1)
    }
}

/// Strip ANSI CSI escape sequences so captured agent output is safe to print and
/// parse.
pub fn strip_ansi(s: &str) -> (r: String)
    ensures
        r@ == plain_from(s@, 0),
{
    let v = text::chars_of(s);
    let mut out = String::new();
    let mut i: usize = 0;
    assert(out@ + plain_from(v@, 0) =~= plain_from(v@, 0));
    while i < v.len()
        invariant
            0 <= i <= v.len(),
            out@ + plain_from(v@, i as int) == plain_from(v@, 0),
        decreases v.len() - i,
    {
        if v[i] == '\u{1b}' && i + 1 < v.len() && v[i + 1] == '[' {
            let mut j: usize = i + 2;
            while j < v.len() && !(('a' <= v[j] && v[j] <= 'z') || ('A' <= v[j] && v[j] <= 'Z'))
                invariant
                    i + 2 <= j <= v.len(),
                    sequence_end(v@, i as int + 2) == sequence_end(v@, j as int),
                decreases v.len() - j,
            {
                j += 1;
            }
            if j < v.len() {
                j += 1;  // the terminating letter
            }
            i = j;
        } else {
            let ghost before = out@;
            out.push(v[i]);
            assert(out@ + plain_from(v@, i as int + 1) =~= before + (seq![v@[i as int]]
                + plain_from(v@, i as int + 1)));
            i += 1;
        }
    }
    assert(out@ + plain_from(v@, i as int) =~= out@);
    out
}

/// A hexadecimal digit.
pub open spec fn is_hex(c: char) -> bool {
    ('0' <= c <= '9') || ('a' <= c <= 'f') || ('A' <= c <= 'F')
}

/// Behind the run of letters and digits that starts at `i`.
pub open spec fn token_end(s: Seq<char>, i: int) -> int
    decreases s.len() - i,
{
    if i < 0 || i >= s.len() || !util::is_alnum(s[i]) {
        i
    } else {
        token_end(s, i + 1)
    }
}

/// A run of letters and digits is a session id: eight hexadecimal digits.
pub open spec fn is_session(t: Seq<char>) -> bool {
    t.len() == 8 && forall|k: int| 0 <= k < t.len() ==> is_hex(#[trigger] t[k])
}

/// The first session id in a text from `i` on.
pub open spec fn session_from(s: Seq<char>, i: int) -> Option<Seq<char>>
    decreases s.len() - i,
{
    if i < 0 || i >= s.len() {
        None
    } else if !util::is_alnum(s[i]) {
        session_from(s, i + 1)
    } else {
        let j = token_end(s, i);
        if j <= i || j > s.len() {
            None
        } else if is_session(s.subrange(i, j)) {
            Some(s.subrange(i, j))
        } else {
            session_from(s, j)
        }
    }
}

/// Whether characters are a session id.
fn all_hex(v: &Vec<char>, from: usize, to: usize) -> (r: bool)
    requires
        from <= to <= v.len(),
    ensures
        r == is_session(v@.subrange(from as int, to as int)),
{
    let ghost t = v@.subrange(from as int, to as int);
    if to - from != 8 {
        return false;
    }
    let mut k: usize = from;
    while k < to
        invariant
            from <= k <= to <= v.len(),
            t == v@.subrange(from as int, to as int),
            forall|m: int| 0 <= m < k - from ==> is_hex(#[trigger] t[m]),
        decreases to - k,
    {
        let c = v[k];
        assert(t[k - from] == c);
        if !(('0' <= c && c <= '9') || ('a' <= c && c <= 'f') || ('A' <= c && c <= 'F')) {
            return false;
        }
        k += 1;
    }
    true
}

/// Pull the short session id out of a `backgrounded · <id> · …`
/// line (the first 8-hex token), so `rein logs` can reference it later.
pub fn parse_session_id(s: &str) -> (r: Option<String>)
    ensures
        text::opt_view(r) == session_from(s@, 0),
{
    let v = text::chars_of(s);
    let mut i: usize = 0;
    while i < v.len()
        invariant
            0 <= i <= v.len(),
            v@ == s@,
            session_from(s@, 0) == session_from(s@, i as int),
        decreases v.len() - i,
    {
        if !util::is_ascii_alnum(v[i]) {
            i += 1;
        } else {
            let mut j: usize = i;
            while j < v.len() && util::is_ascii_alnum(v[j])
                invariant
                    i <= j <= v.len(),
                    v@ == s@,
                    token_end(s@, i as int) == token_end(s@, j as int),
                    i < v.len(),
                    util::is_alnum(s@[i as int]),
                decreases v.len() - j,
            {
                j += 1;
            }
            assert(token_end(s@, i as int) == j);
            if all_hex(&v, i, j) {
                return Some(text::slice_of(&v, i, j));
            }
            i = j;
        }
    }
    None
}

/// What is said of a run that was started.
pub open spec fn running_message(p: RunPlanV, report: Seq<char>) -> Seq<char> {
    "running "@ + p.task.id + " in "@ + p.dir + (if p.isolated {
        seq![]
    } else {
        "\nnote: no worktree — running in the main repo (edits are not isolated)"@
    }) + (if text::trimmed_end(report).len() == 0 {
        seq![]
    } else {
        "\n"@ + text::trimmed_end(report)
    })
}

/// What is said of a run that was started.
fn say_running(p: &RunPlan, report: &str) -> (r: String)
    ensures
        r@ == running_message(p@, report@),
{
    let mut m = String::from_str("running ");
    m.append(&p.task.id);
    m.append(" in ");
    m.append(&p.dir);
    let ghost head = m@;
    if !p.isolated {
        m.append("\nnote: no worktree — running in the main repo (edits are not isolated)");
    }
    let ghost noted = m@;
    let shown = text::trim_end(report);
    if !shown.as_str().is_empty() {
        m.append("\n");
        m.append(&shown);
    }
    assert(m@ =~= running_message(p@, report@));
    m
}

/// A run that was started: what is recorded, and what is said.
pub struct Started {
    pub steps: Vec<Step>,
    pub message: String,
}

/// What is recorded of a run.
pub open spec fn run_recorded(
    id: Seq<char>,
    session: Seq<char>,
    agent: Seq<char>,
    log: Option<Seq<char>>,
    status: Option<Seq<char>>,
) -> StepV {
    StepV::EditState {
        id,
        edits: seq![StateEditV::Run { session, agent, log, status }],
    }
}

/// Records a run.
fn record_run(
    id: &str,
    session: String,
    agent: &str,
    log: Option<String>,
    status: Option<String>,
) -> (r: Step)
    ensures
        r@ == run_recorded(id@, session@, agent@, text::opt_view(log), text::opt_view(status)),
{
    let mut edits: Vec<StateEdit> = Vec::new();
    edits.push(
        StateEdit::Run { session, agent: String::from_str(agent), log, status },
    );
    assert(text::views(edits@) =~= seq![
        StateEditV::Run {
            session: session@,
            agent: agent@,
            log: text::opt_view(log),
            status: text::opt_view(status),
        },
    ]);
    Step::EditState { id: String::from_str(id), edits }
}

/// What is recorded of a run of a command that backgrounds itself, given what it printed.
pub open spec fn reported_steps(p: RunPlanV, output: Seq<char>) -> Seq<StepV> {
    match session_from(plain_from(output, 0), 0) {
        Some(session) => seq![run_recorded(p.task.id, session, p.agent_name, None, None)],
        None => seq![],
    }
}

/// What is recorded of a run that rein backgrounds.
pub open spec fn backgrounded_steps(
    p: RunPlanV,
    pid: Seq<char>,
    log: Seq<char>,
    status: Seq<char>,
) -> Seq<StepV> {
    seq![run_recorded(p.task.id, pid, p.agent_name, Some(log), Some(status))]
}

/// A run of a command that backgrounds itself and has returned: what it printed is
/// surfaced, and the session id in it is recorded so `rein logs` can point back at
/// it.
pub fn run_reported(p: &RunPlan, output: &str) -> (r: Started)
    ensures
        r.message@ == running_message(p@, plain_from(output@, 0)),
        text::views(r.steps@) == reported_steps(p@, output@),
{
    let report = strip_ansi(output);
    let mut steps = no_steps();
    match parse_session_id(&report) {
        Some(session) => {
            push_step(&mut steps, record_run(&p.task.id, session, &p.agent_name, None, None));
        },
        None => {},
    }
    assert(text::views(steps@) =~= reported_steps(p@, output@));
    Started { steps, message: say_running(p, &report) }
}

/// A file of a run that rein backgrounds.
pub open spec fn run_file(root: Seq<char>, slug: Seq<char>, stamp: Seq<char>, ext: Seq<char>) -> Seq<
    char,
> {
    paths::joined_path(paths::joined_path(root, "runs"@), slug + "-"@ + stamp + ext)
}

/// The log and the status file of a run that rein backgrounds.
pub fn run_files(root: &str, slug: &str, stamp: &str) -> (r: (String, String))
    ensures
        r.0@ == run_file(root@, slug@, stamp@, ".log"@),
        r.1@ == run_file(root@, slug@, stamp@, ".status"@),
{
    let dir = paths::join(root, "runs");
    let mut name = String::from_str(slug);
    name.append("-");
    name.append(stamp);
    let mut log = name.clone();
    log.append(".log");
    name.append(".status");
    (paths::join(&dir, &log), paths::join(&dir, &name))
}

/// A run that rein backgrounded: its pid, log and status file are recorded.
pub fn run_backgrounded(p: &RunPlan, pid: &str, log: &str, status: &str) -> (r: Started)
    ensures
        r.message@ == running_message(
            p@,
            "backgrounded "@ + p@.agent_name + " pid "@ + pid@ + "\nlog "@ + log@,
        ),
        text::views(r.steps@) == backgrounded_steps(p@, pid@, log@, status@),
{
    let mut report = String::from_str("backgrounded ");
    report.append(&p.agent_name);
    report.append(" pid ");
    report.append(pid);
    report.append("\nlog ");
    report.append(log);
    let mut steps = no_steps();
    push_step(
        &mut steps,
        record_run(
            &p.task.id,
            String::from_str(pid),
            &p.agent_name,
            Some(String::from_str(log)),
            Some(String::from_str(status)),
        ),
    );
    assert(text::views(steps@) =~= backgrounded_steps(p@, pid@, log@, status@));
    Started { steps, message: say_running(p, &report) }
}

// ---------------------------------------------------------------------------
// The log of a run
// ---------------------------------------------------------------------------

/// The JSON values among lines, in order.
pub open spec fn events_in(ls: Seq<Seq<char>>) -> Seq<Json>
    decreases ls.len(),
{
    if ls.len() == 0 {
        seq![]
    } else {
        match json::json_of(ls.last()) {
            Some(j) => events_in(ls.drop_last()).push(j),
            None => events_in(ls.drop_last()),
        }
    }
}

/// The events in a log: each line that is a JSON value.
pub fn events(log: &str) -> (r: Vec<Json>)
    ensures
        r@ == events_in(text::lines_of(log@)),
{
    let ls = text::lines(log);
    let ghost all = text::views(ls@);
    let mut out: Vec<Json> = Vec::new();
    let mut i: usize = 0;
    while i < ls.len()
        invariant
            0 <= i <= ls.len(),
            all == text::views(ls@),
            out@ == events_in(all.take(i as int)),
        decreases ls.len() - i,
    {
        proof {
            assert(all.take(i as int + 1).drop_last() =~= all.take(i as int));
            assert(all.take(i as int + 1).last() == ls@[i as int]@);
        }
        match json::parse_json(&ls[i]) {
            Some(j) => {
                out.push(j);
            },
            None => {},
        }
        i += 1;
    }
    proof {
        assert(all.take(i as int) =~= all);
    }
    out
}

/// The type of an event.
pub open spec fn is_type(j: Json, kind: Seq<char>) -> bool {
    json::member_text(j, "type"@) == Some(kind)
}

/// An event that leaves something open: a turn or an item that was started, or the
/// result of a command.
pub open spec fn leaves_open(j: Json) -> bool {
    ||| is_type(j, "turn.started"@)
    ||| is_type(j, "item.started"@)
    ||| is_type(j, "item.completed"@) && match json::member(j, "item"@) {
        Some(item) => is_type(item, "command_execution"@),
        None => false,
    }
}

/// A Codex log stops in the middle of a turn.
pub open spec fn is_interrupted(es: Seq<Json>) -> bool {
    es.len() > 0 && leaves_open(es.last())
}

/// Whether an event has a type.
fn has_type(j: &Json, kind: &str) -> (r: bool)
    ensures
        r == is_type(*j, kind@),
{
    match json::get_text(j, "type") {
        Some(t) => text::same(&t, kind),
        None => false,
    }
}

/// Whether a Codex log stops in the middle of a turn: on a started turn or item, or
/// on a command result with no follow-up assistant message.
pub fn turn_interrupted(es: &Vec<Json>) -> (r: bool)
    ensures
        r == is_interrupted(es@),
{
    if es.len() == 0 {
        return false;
    }
    let last = &es[es.len() - 1];
    if has_type(last, "turn.started") || has_type(last, "item.started") {
        return true;
    }
    if !has_type(last, "item.completed") {
        return false;
    }
    match json::get(last, "item") {
        Some(item) => has_type(item, "command_execution"),
        None => false,
    }
}

/// The first event at or after `i` that starts a thread, and its id.
pub open spec fn thread_from(es: Seq<Json>, i: int) -> Option<Seq<char>>
    decreases es.len() - i,
{
    if i < 0 || i >= es.len() {
        None
    } else if is_type(es[i], "thread.started"@) && json::member_text(es[i], "thread_id"@) is Some {
        json::member_text(es[i], "thread_id"@)
    } else {
        thread_from(es, i + 1)
    }
}

/// The thread of a Codex run.
pub fn codex_thread(es: &Vec<Json>) -> (r: Option<String>)
    ensures
        text::opt_view(r) == thread_from(es@, 0),
{
    let mut i: usize = 0;
    while i < es.len()
        invariant
            0 <= i <= es.len(),
            thread_from(es@, 0) == thread_from(es@, i as int),
        decreases es.len() - i,
    {
        if has_type(&es[i], "thread.started") {
            let id = json::get_text(&es[i], "thread_id");
            if id.is_some() {
                return id;
            }
        }
        i += 1;
    }
    None
}

/// The first session id at or after `i` in an opencode log.
pub open spec fn opencode_from(es: Seq<Json>, i: int) -> Option<Seq<char>>
    decreases es.len() - i,
{
    if i < 0 || i >= es.len() {
        None
    } else if json::member_text(es[i], "sessionID"@) is Some {
        json::member_text(es[i], "sessionID"@)
    } else {
        opencode_from(es, i + 1)
    }
}

/// The session of an opencode run.
pub fn opencode_session(es: &Vec<Json>) -> (r: Option<String>)
    ensures
        text::opt_view(r) == opencode_from(es@, 0),
{
    let mut i: usize = 0;
    while i < es.len()
        invariant
            0 <= i <= es.len(),
            opencode_from(es@, 0) == opencode_from(es@, i as int),
        decreases es.len() - i,
    {
        let id = json::get_text(&es[i], "sessionID");
        if id.is_some() {
            return id;
        }
        i += 1;
    }
    None
}

// ---------------------------------------------------------------------------
// What became of a run
// ---------------------------------------------------------------------------

/// What is written to the status file of a run that ended.
pub open spec fn ended_as(agent: Agent, code: Seq<char>, es: Seq<Json>, left: bool) -> Seq<char> {
    if text::trimmed(code) != "0"@ {
        text::trimmed(code)
    } else if agent == Agent::Codex && is_interrupted(es) {
        "interrupted"@
    } else if left {
        "incomplete"@
    } else {
        "0"@
    }
}

/// What is added to the log of a run that ended.
pub open spec fn end_note(status: Seq<char>) -> Option<Seq<char>> {
    if status == "interrupted"@ {
        Some("rein post-run: codex turn interrupted before completion"@)
    } else if status == "incomplete"@ {
        Some("rein post-run: unchecked items remain"@)
    } else {
        None
    }
}

/// A run that rein backgrounded has ended with an exit code: what is written to its
/// status file, and what is added to its log. `left` says whether unchecked items
/// remain.
pub fn post_run(agent: Agent, code: &str, es: &Vec<Json>, left: bool) -> (r: (
    String,
    Option<String>,
))
    ensures
        r.0@ == ended_as(agent, code@, es@, left),
        text::opt_view(r.1) == if text::trimmed(code@) == "0"@ {
            end_note(ended_as(agent, code@, es@, left))
        } else {
            None
        },
{
    proof {
        reveal_strlit("0");
        reveal_strlit("interrupted");
        reveal_strlit("incomplete");
        assert("interrupted"@[2] != "incomplete"@[2]);
        assert("0"@.len() != "interrupted"@.len());
        assert("0"@.len() != "incomplete"@.len());
    }
    let shown = text::trim(code);
    if !text::same(&shown, "0") {
        return (shown, None);
    }
    if agent == Agent::Codex && turn_interrupted(es) {
        (
            String::from_str("interrupted"),
            Some(String::from_str("rein post-run: codex turn interrupted before completion")),
        )
    } else if left {
        (
            String::from_str("incomplete"),
            Some(String::from_str("rein post-run: unchecked items remain")),
        )
    } else {
        (String::from_str("0"), None)
    }
}

/// The state of a run: its status file says how it ended; without one it is running,
/// as long as its process is alive.
pub open spec fn state_name(status: Option<Seq<char>>, alive: bool) -> Seq<char> {
    match nonblank(status) {
        Some(s) => if text::trimmed(s) == "0"@ {
            "succeeded"@
        } else if text::trimmed(s) == "interrupted"@ {
            "interrupted"@
        } else if text::trimmed(s) == "incomplete"@ {
            "incomplete"@
        } else {
            "failed"@
        },
        None => if alive {
            "running"@
        } else {
            "stopped"@
        },
    }
}

/// The state of a run.
pub fn run_state(status: &Option<String>, alive: bool) -> (r: &'static str)
    ensures
        r@ == state_name(text::opt_view(*status), alive),
{
    match not_blank(status) {
        Some(s) => {
            let s = text::trim(&s);
            if text::same(&s, "0") {
                "succeeded"
            } else if text::same(&s, "interrupted") {
                "interrupted"
            } else if text::same(&s, "incomplete") {
                "incomplete"
            } else {
                "failed"
            }
        },
        None => if alive {
            "running"
        } else {
            "stopped"
        },
    }
}

/// The state of the last run of a task that rein backgrounded, where there is one.
pub fn codex_status_from_state(st: &TaskState, status: &Option<String>, alive: bool) -> (r: Option<
    String,
>)
    ensures
        text::opt_view(r) == match st@.run_session {
            Some(_) => Some(state_name(text::opt_view(*status), alive)),
            None => None,
        },
{
    match &st.run_session {
        Some(_) => Some(String::from_str(run_state(status, alive))),
        None => None,
    }
}

/// The agent of a recorded run.
pub open spec fn recorded_agent(st: TaskStateV) -> Agent {
    match st.run_agent {
        Some(s) => match Agent::foreground(s) {
            Some(a) => a,
            None => Agent::Claude,
        },
        None => Agent::Claude,
    }
}

/// The agent of a recorded run: one that rein backgrounded, or one that did so itself.
pub fn agent_of(st: &TaskState) -> (r: Agent)
    ensures
        r == recorded_agent(st@),
{
    match &st.run_agent {
        Some(s) => match Agent::backgrounded(s) {
            Some(a) => a,
            None => Agent::Claude,
        },
        None => Agent::Claude,
    }
}

/// The refusal where no run is recorded.
pub open spec fn no_run(slug: Seq<char>) -> Seq<char> {
    "no run recorded for '"@ + slug + "' — run `rein run` first"@
}

/// The refusal where no run is recorded.
fn say_no_run(slug: &str) -> (r: String)
    ensures
        r@ == no_run(slug@),
{
    let mut m = String::from_str("no run recorded for '");
    m.append(slug);
    m.append("' — run `rein run` first");
    m
}

/// The hints about a session that backgrounded itself.
pub open spec fn session_lines(session: Seq<char>, claude: Seq<char>) -> Seq<Seq<char>> {
    seq![
        "session "@ + session,
        "  "@ + claude + " attach "@ + session + "   # watch live / resume"@,
        "  "@ + claude + " logs "@ + session + "     # recent output"@,
        "  "@ + claude + " agents        # all background sessions"@,
    ]
}

/// What a state of a run means for its reader.
pub open spec fn state_notes(state: Seq<char>) -> Seq<Seq<char>> {
    if state == "stopped"@ {
        seq!["warning status file missing"@]
    } else if state == "incomplete"@ {
        seq!["warning unchecked task items remain"@]
    } else if state == "interrupted"@ {
        seq!["warning codex turn interrupted"@]
    } else {
        seq![]
    }
}

/// The line about an optional file.
pub open spec fn file_lines(head: Seq<char>, file: Option<Seq<char>>) -> Seq<Seq<char>> {
    match file {
        Some(f) => seq![head + f],
        None => seq![],
    }
}

/// How a run is continued.
pub open spec fn resume_lines(agent: Agent, es: Seq<Json>) -> Seq<Seq<char>> {
    match agent {
        Agent::Codex => match thread_from(es, 0) {
            Some(t) => seq![
                "  codex resume --include-non-interactive "@ + t,
                "  codex exec resume "@ + t + " \"<prompt>\""@,
            ],
            None => seq![],
        },
        Agent::Opencode => match opencode_from(es, 0) {
            Some(t) => seq![
                "  opencode --session "@ + t,
                "  opencode run --session "@ + t + " \"<prompt>\""@,
            ],
            None => seq![],
        },
        Agent::Claude => seq![],
    }
}

/// What `rein logs` prints about a run.
pub open spec fn log_lines(
    st: TaskStateV,
    session: Seq<char>,
    status: Option<Seq<char>>,
    alive: bool,
    es: Seq<Json>,
    claude: Seq<char>,
) -> Seq<Seq<char>> {
    let agent = recorded_agent(st);
    if agent == Agent::Claude {
        session_lines(session, claude)
    } else {
        let state = state_name(status, alive);
        seq![agent.called(claude) + " pid "@ + session, "state "@ + state] + state_notes(state)
            + file_lines("status "@, st.run_status) + file_lines("log "@, st.run_log)
            + file_lines("  tail -f "@, st.run_log) + resume_lines(agent, es)
    }
}

/// A line made of two parts.
fn two(a: &str, b: &str) -> (r: String)
    ensures
        r@ == a@ + b@,
{
    let mut line = String::from_str(a);
    line.append(b);
    line
}

/// A line made of three parts.
fn three(a: &str, b: &str, c: &str) -> (r: String)
    ensures
        r@ == a@ + b@ + c@,
{
    let mut line = two(a, b);
    line.append(c);
    line
}

/// Adds the lines about how a run is continued.
fn push_resume(lines: &mut Vec<String>, agent: Agent, es: &Vec<Json>)
    ensures
        text::views(final(lines)@) == text::views(old(lines)@) + resume_lines(agent, es@),
{
    let ghost before = text::views(lines@);
    match agent {
        Agent::Codex => match codex_thread(es) {
            Some(t) => {
                push_line(lines, two("  codex resume --include-non-interactive ", &t));
                push_line(lines, three("  codex exec resume ", &t, " \"<prompt>\""));
            },
            None => {},
        },
        Agent::Opencode => match opencode_session(es) {
            Some(t) => {
                push_line(lines, two("  opencode --session ", &t));
                push_line(lines, three("  opencode run --session ", &t, " \"<prompt>\""));
            },
            None => {},
        },
        Agent::Claude => {},
    }
    assert(text::views(lines@) =~= before + resume_lines(agent, es@));
}

/// Adds the line about an optional file.
fn push_file(lines: &mut Vec<String>, head: &str, file: &Option<String>)
    ensures
        text::views(final(lines)@) == text::views(old(lines)@) + file_lines(
            head@,
            text::opt_view(*file),
        ),
{
    let ghost before = text::views(lines@);
    match file {
        Some(f) => {
            push_line(lines, two(head, f));
        },
        None => {},
    }
    assert(text::views(lines@) =~= before + file_lines(head@, text::opt_view(*file)));
}

/// `rein logs`: points at the background session of a task's most recent `rein run`.
/// `status` is what its status file holds, `alive` whether its process is there, `es`
/// the events in its log.
pub fn logs(
    ctx: &Ctx,
    query: Option<&str>,
    status: &Option<String>,
    alive: bool,
    es: &Vec<Json>,
    claude: &str,
) -> (r: Result<Vec<String>, String>)
    ensures
        match lifecycle::target_of(ctx@, projects::str_view(query)) {
            Err(e) => r matches Err(m) && m@ == e,
            Ok(t) => {
                let st = state::state_from(ctx@.store.states, t.id, 0);
                match st.run_session {
                    None => r matches Err(m) && m@ == no_run(t.slug),
                    Some(session) => r matches Ok(lines) && text::views(lines@) == log_lines(
                        st,
                        session,
                        text::opt_view(*status),
                        alive,
                        es@,
                        claude@,
                    ),
                }
            },
        },
{
    let t = match target(ctx, query) {
        Err(e) => {
            return Err(e);
        },
        Ok(t) => t,
    };
    let st = state::load(&ctx.store, &t.id);
    let session = match &st.run_session {
        Some(s) => s.clone(),
        None => {
            return Err(say_no_run(&t.slug));
        },
    };
    let agent = agent_of(&st);
    let mut lines: Vec<String> = Vec::new();
    if agent == Agent::Claude {
        push_line(&mut lines, two("session ", &session));
        let mut attach = three("  ", claude, " attach ");
        attach.append(&session);
        attach.append("   # watch live / resume");
        push_line(&mut lines, attach);
        let mut recent = three("  ", claude, " logs ");
        recent.append(&session);
        recent.append("     # recent output");
        push_line(&mut lines, recent);
        push_line(
            &mut lines,
            three("  ", claude, " agents        # all background sessions"),
        );
        assert(text::views(lines@) =~= session_lines(session@, claude@));
        return Ok(lines);
    }
    let state = run_state(status, alive);
    push_line(&mut lines, three(&agent.name(claude), " pid ", &session));
    push_line(&mut lines, two("state ", state));
    let ghost head = text::views(lines@);
    if text::same(state, "stopped") {
        push_line(&mut lines, String::from_str("warning status file missing"));
    } else if text::same(state, "incomplete") {
        push_line(&mut lines, String::from_str("warning unchecked task items remain"));
    } else if text::same(state, "interrupted") {
        push_line(&mut lines, String::from_str("warning codex turn interrupted"));
    }
    proof {
        assert(head =~= seq![agent.called(claude@) + " pid "@ + session@, "state "@ + state@]);
        assert(text::views(lines@) =~= head + state_notes(state@));
    }
    push_file(&mut lines, "status ", &st.run_status);
    push_file(&mut lines, "log ", &st.run_log);
    push_file(&mut lines, "  tail -f ", &st.run_log);
    push_resume(&mut lines, agent, es);
    Ok(lines)
}

// ---------------------------------------------------------------------------
// Attaching
// ---------------------------------------------------------------------------

/// The program that opens the native UI of a run.
#[derive(Debug)]
pub struct AttachCommand {
    pub program: String,
    pub args: Vec<String>,
    pub dir: String,
}

/// The arguments that open the native UI of a run.
pub open spec fn attach_args(agent: Agent, session: Seq<char>, es: Seq<Json>) -> Option<
    Seq<Seq<char>>,
> {
    match agent {
        Agent::Claude => Some(seq!["attach"@, session]),
        Agent::Codex => match thread_from(es, 0) {
            Some(t) => Some(seq!["resume"@, "--include-non-interactive"@, t]),
            None => None,
        },
        Agent::Opencode => match opencode_from(es, 0) {
            Some(t) => Some(seq!["--session"@, t]),
            None => None,
        },
    }
}

/// The refusal where the log of a run names no session yet.
pub open spec fn no_session(agent: Seq<char>, slug: Seq<char>) -> Seq<char> {
    "no "@ + agent + " session in the log of '"@ + slug + "' yet"@
}

/// The program that opens the native UI of the last run of a task (its `attach <id>`,
/// `codex resume --include-non-interactive <thread-id>`, or `opencode --session <id>`),
/// in the directory of the run.
pub fn attach_command(
    ctx: &Ctx,
    query: Option<&str>,
    exists: bool,
    es: &Vec<Json>,
    claude: &str,
) -> (r: Result<AttachCommand, String>)
    ensures
        match lifecycle::target_of(ctx@, projects::str_view(query)) {
            Err(e) => r matches Err(m) && m@ == e,
            Ok(t) => {
                let st = state::state_from(ctx@.store.states, t.id, 0);
                let agent = recorded_agent(st);
                match st.run_session {
                    None => r matches Err(m) && m@ == no_run(t.slug),
                    Some(session) => match attach_args(agent, session, es@) {
                        Some(args) => r matches Ok(a) && a.program@ == agent.called(claude@)
                            && text::views(a.args@) == args && a.dir@ == run_dir(
                            ctx@,
                            st,
                            exists,
                        ),
                        None => r matches Err(m) && m@ == no_session(agent.called(claude@), t.slug),
                    },
                }
            },
        },
{
    let t = match target(ctx, query) {
        Err(e) => {
            return Err(e);
        },
        Ok(t) => t,
    };
    let st = state::load(&ctx.store, &t.id);
    let session = match &st.run_session {
        Some(s) => s.clone(),
        None => {
            return Err(say_no_run(&t.slug));
        },
    };
    let agent = agent_of(&st);
    let mut args: Vec<String> = Vec::new();
    let id = match agent {
        Agent::Claude => {
            push_line(&mut args, String::from_str("attach"));
            Some(session)
        },
        Agent::Codex => {
            push_line(&mut args, String::from_str("resume"));
            push_line(&mut args, String::from_str("--include-non-interactive"));
            codex_thread(es)
        },
        Agent::Opencode => {
            push_line(&mut args, String::from_str("--session"));
            opencode_session(es)
        },
    };
    match id {
        Some(id) => {
            push_line(&mut args, id);
            assert(text::views(args@) =~= attach_args(agent, session@, es@)->Some_0);
            Ok(
                AttachCommand {
                    program: agent.name(claude),
                    args,
                    dir: dir_of_run(ctx, &st, exists),
                },
            )
        },
        None => {
            let mut m = three("no ", &agent.name(claude), " session in the log of '");
            m.append(&t.slug);
            m.append("' yet");
            Err(m)
        },
    }
}

/// How many lines of a log are shown of a live run.
pub const RECENT_LINES: usize = 20;

/// The end of a log: its last lines.
pub open spec fn recent_of(log: Seq<char>) -> Seq<char> {
    let ls = text::lines_of(log);
    text::joined(
        if ls.len() > RECENT_LINES {
            ls.skip(ls.len() - RECENT_LINES)
        } else {
            ls
        },
        "\n"@,
    )
}

/// What is shown of the log of a live run: its last lines.
pub fn recent(log: &str) -> (r: String)
    ensures
        r@ == recent_of(log@),
{
    let ls = text::lines(log);
    let ghost all = text::views(ls@);
    let from: usize = if ls.len() > RECENT_LINES {
        ls.len() - RECENT_LINES
    } else {
        0
    };
    proof {
        assert(all.len() == ls@.len());
        assert(all.subrange(from as int, ls@.len() as int) =~= if all.len() > RECENT_LINES {
            all.skip(all.len() - RECENT_LINES)
        } else {
            all
        });
    }
    text::join_range(&ls, from, ls.len(), "\n")
}

} // verus!
