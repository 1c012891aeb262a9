use rein::commands::items;
use rein::commands::lifecycle;
use rein::commands::local;
use rein::commands::plan::{self, OnFail, Outcome, Step};
use rein::commands::run::{self, Agent, RunSettings};
use rein::commands::start;
use rein::commands::summary;
use rein::commands::sync_cmd;
use rein::commands::syncing::{push_surface, Surface};
use rein::ctx::Ctx;
use rein::gh::{Gh, GhCall, RemoteIssue};
use rein::gitx::{self, GitCall, Repo};
use rein::projects::{self, Place};
use rein::state::{self, StoredState, TaskState};
use rein::store::{Status, Store, StoreFile, TaskRef};
use rein::ui::{edits, loading};
use rein::util;
use std::cell::RefCell;
use std::collections::{BTreeMap, BTreeSet};
use std::rc::Rc;

// ---------------------------------------------------------------------------
// A disk in memory
// ---------------------------------------------------------------------------

/// A checked-out tree of the repository.
struct Tree {
    branch: String,
    git_dir: String,
    committed: BTreeSet<String>,
}

/// Everything that the commands reach outside the library.
#[derive(Default)]
struct World {
    files: BTreeMap<String, String>,
    dirs: BTreeSet<String>,
    config: BTreeMap<String, String>,
    /// The branches, each with the number of its commits ahead of `main`.
    branches: BTreeMap<String, u64>,
    pushed: BTreeSet<String>,
    trees: BTreeMap<String, Tree>,
    gh: bool,
    env: BTreeMap<String, String>,
    pids: u32,
    out: String,
}

/// A place on the disk.
#[derive(Clone)]
struct Path {
    world: Rc<RefCell<World>>,
    at: String,
}

impl Path {
    fn join(&self, rel: impl AsRef<str>) -> Path {
        Path { world: self.world.clone(), at: format!("{}/{}", self.at, rel.as_ref()) }
    }

    fn is_file(&self) -> bool {
        self.world.borrow().files.contains_key(&self.at)
    }

    fn is_dir(&self) -> bool {
        self.world.borrow().is_dir(&self.at)
    }

    fn is_there(&self) -> bool {
        self.is_file() || self.is_dir()
    }

    fn display(&self) -> String {
        self.at.clone()
    }
}

impl AsRef<Path> for Path {
    fn as_ref(&self) -> &Path {
        self
    }
}

fn read(p: &Path) -> String {
    match p.world.borrow().files.get(&p.at) {
        Some(text) => text.clone(),
        None => panic!("read {}", p.at),
    }
}

fn write(p: impl AsRef<Path>, text: impl AsRef<str>) {
    let p: &Path = p.as_ref();
    p.world.borrow_mut().files.insert(p.at.clone(), text.as_ref().to_string());
}

/// How many files a directory holds.
fn entries(p: &Path) -> usize {
    let below = format!("{}/", p.at);
    p.world.borrow().files.keys().filter(|f| f.starts_with(&below)).count()
}

fn rename(from: &Path, to: &Path) {
    let text = read(from);
    from.world.borrow_mut().files.remove(&from.at);
    write(to, &text);
}

fn remove_file(p: &Path) {
    p.world.borrow_mut().files.remove(&p.at);
}

fn remove_dir_all(p: &Path) {
    p.world.borrow_mut().remove_tree(&p.at);
}

struct Env {
    tmp: Path,
    home: Path,
    repo: Path,
    bin_dir: Path,
}

fn setup() -> Env {
    let mut world = World::default();
    let git_dir = String::from("/tmp/proj/.git");
    world.files.insert(String::from("/tmp/proj/README.md"), String::from("hi"));
    world.dirs.insert(git_dir.clone());
    world.branches.insert(String::from("main"), 0);
    let mut committed = BTreeSet::new();
    committed.insert(String::from("/tmp/proj/README.md"));
    world.trees.insert(
        String::from("/tmp/proj"),
        Tree { branch: String::from("main"), git_dir, committed },
    );
    let at = |at: &str, world: &Rc<RefCell<World>>| Path { world: world.clone(), at: at.into() };
    let world = Rc::new(RefCell::new(world));
    Env {
        tmp: at("/tmp", &world),
        home: at("/tmp/home", &world),
        repo: at("/tmp/proj", &world),
        bin_dir: at("/tmp/bin", &world),
    }
}

impl Env {
    fn at(&self, path: &str) -> Path {
        Path { world: self.repo.world.clone(), at: path.to_string() }
    }
}

/// The name of the agent that backgrounds itself.
fn agent_name() -> String {
    format!("{:?}", Agent::Claude).to_lowercase()
}

// ---------------------------------------------------------------------------
// git
// ---------------------------------------------------------------------------

impl World {
    fn is_dir(&self, at: &str) -> bool {
        let below = format!("{}/", at);
        self.dirs.contains(at)
            || self.files.keys().any(|f| f.starts_with(&below))
            || self.dirs.iter().any(|d| d.starts_with(&below))
    }

    fn remove_tree(&mut self, at: &str) {
        let below = format!("{}/", at);
        self.files.retain(|f, _| !f.starts_with(&below));
        self.dirs.retain(|d| d != at && !d.starts_with(&below));
    }

    /// The tree that holds a directory.
    fn tree_of(&self, dir: &str) -> Option<&String> {
        self.trees.keys().find(|t| dir == t.as_str() || dir.starts_with(&format!("{}/", t)))
    }

    /// The files of a tree that no commit holds.
    fn changes(&self, tree: &str) -> Vec<String> {
        let below = format!("{}/", tree);
        let inner: Vec<String> =
            self.trees.keys().filter(|t| t.starts_with(&below)).cloned().collect();
        self.files
            .keys()
            .filter(|f| f.starts_with(&below) && !f.starts_with(&format!("{}.git/", below)))
            .filter(|f| !inner.iter().any(|t| f.starts_with(&format!("{}/", t))))
            .filter(|f| !self.trees[tree].committed.contains(*f))
            .map(|f| f[below.len()..].to_string())
            .collect()
    }

    fn git_reply(&mut self, dir: &str, args: &[&str]) -> Result<String, String> {
        let tree = match self.tree_of(dir) {
            Some(t) => t.clone(),
            None => return Err(String::from("not a git repository")),
        };
        match args {
            ["rev-parse", "--path-format=absolute", ..] => {
                Ok(format!("{}\n{}\n/tmp/proj/.git\n", tree, self.trees[&tree].git_dir))
            }
            ["rev-parse", "--abbrev-ref", "HEAD"] => Ok(self.trees[&tree].branch.clone()),
            ["rev-parse", ..] => Err(String::from("unknown revision")),
            ["config", "--get", key] => self.config.get(*key).cloned().ok_or_else(String::new),
            ["config", key, val] => {
                self.config.insert(key.to_string(), val.to_string());
                Ok(String::new())
            }
            ["branch", "--show-current"] => Ok(self.trees[&tree].branch.clone()),
            ["branch", "-r"] => {
                Ok(self.pushed.iter().map(|b| format!("  origin/{}\n", b)).collect())
            }
            ["branch", name] => {
                self.branches.insert(name.to_string(), 0);
                Ok(String::new())
            }
            ["show-ref", "--verify", "--quiet", name] => {
                match self.branches.contains_key(&name["refs/heads/".len()..]) {
                    true => Ok(String::new()),
                    false => Err(String::new()),
                }
            }
            ["switch", "-c", name] => {
                self.branches.insert(name.to_string(), 0);
                self.trees.get_mut(&tree).unwrap().branch = name.to_string();
                Ok(String::new())
            }
            ["rev-list", "--count", range] => {
                let branch = range.split("..").last().unwrap();
                Ok(format!("{}\n", self.branches[branch]))
            }
            ["push", "-u", "origin", name] => {
                if !self.config.contains_key("remote.origin.url") {
                    return Err(String::from("'origin' does not appear to be a git repository"));
                }
                self.pushed.insert(name.to_string());
                Ok(String::new())
            }
            ["status", "--porcelain"] => {
                Ok(self.changes(&tree).iter().map(|f| format!("?? {}\n", f)).collect())
            }
            ["add", _] => Ok(String::new()),
            ["commit", "-m", _] => {
                for f in self.changes(&tree) {
                    let at = format!("{}/{}", tree, f);
                    self.trees.get_mut(&tree).unwrap().committed.insert(at);
                }
                let branch = self.trees[&tree].branch.clone();
                *self.branches.get_mut(&branch).unwrap() += 1;
                Ok(String::new())
            }
            ["worktree", "add", "-b", name, path] => {
                self.branches.insert(name.to_string(), 0);
                let git_dir =
                    format!("/tmp/proj/.git/worktrees/{}", path.rsplit('/').next().unwrap());
                self.dirs.insert(path.to_string());
                self.dirs.insert(git_dir.clone());
                self.trees.insert(
                    path.to_string(),
                    Tree { branch: name.to_string(), git_dir, committed: BTreeSet::new() },
                );
                Ok(String::new())
            }
            ["worktree", "remove", rest @ ..] => {
                let path = rest.last().unwrap().to_string();
                if rest.len() == 1 && !self.changes(&path).is_empty() {
                    return Err(String::from("contains modified or untracked files"));
                }
                let tree = self.trees.remove(&path).unwrap();
                self.remove_tree(&path);
                self.remove_tree(&tree.git_dir);
                Ok(String::new())
            }
            _ => panic!("git {:?}", args),
        }
    }

    fn git(&mut self, call: &GitCall) -> Result<String, String> {
        let args: Vec<&str> = call.args.iter().map(|a| a.as_str()).collect();
        match self.git_reply(&call.dir, &args) {
            Ok(out) => gitx::git_in(call, true, &out, ""),
            Err(e) => gitx::git_in(call, false, "", &e),
        }
    }
}

fn git(_home: &Path, dir: &Path, args: &[&str]) -> String {
    let reply = dir.world.borrow_mut().git_reply(&dir.at, args);
    match reply {
        Ok(out) => out.trim_end().to_string(),
        Err(e) => panic!("git {:?} failed: {}", args, e),
    }
}

/// Add an `origin` remote that holds `main`, so PR creation can push branches.
fn add_origin(env: &Env) {
    git(&env.home, &env.repo, &["config", "remote.origin.url", &env.tmp.join("origin.git").at]);
    git(&env.home, &env.repo, &["push", "-u", "origin", "main"]);
}

/// Write a file and commit it in `dir` (a repo or worktree).
fn commit_in(env: &Env, dir: &Path, file: &str, msg: &str) {
    write(&dir.join(file), "x");
    git(&env.home, dir, &["add", "."]);
    git(&env.home, dir, &["commit", "-m", msg]);
}

// ---------------------------------------------------------------------------
// gh
// ---------------------------------------------------------------------------

struct FakeGh {
    log: Path,
    create_body: Path,
    issue_view: Path,
    edit_body: Path,
    issue_list: Path,
    pr_view: Path,
    pr_edit_body: Path,
    pr_create_body: Path,
}

fn fake_gh(env: &Env) -> FakeGh {
    FakeGh {
        log: env.bin_dir.join("gh.log"),
        create_body: env.bin_dir.join("create_body.txt"),
        issue_view: env.bin_dir.join("issue_view.json"),
        edit_body: env.bin_dir.join("edit_body.txt"),
        issue_list: env.bin_dir.join("issue_list.json"),
        pr_view: env.bin_dir.join("pr_view.json"),
        pr_edit_body: env.bin_dir.join("pr_edit_body.txt"),
        pr_create_body: env.bin_dir.join("pr_create_body.txt"),
    }
}

/// `{ "body": … }`
fn body_json(body: &str) -> String {
    let mut m = serde_json::Map::new();
    m.insert("body".into(), serde_json::Value::from(body));
    serde_json::Value::Object(m).to_string()
}

impl FakeGh {
    fn apply(&self, cmd: &mut Cmd) {
        cmd.gh = true;
    }

    fn set_issue_view_body(&self, body: &str) {
        write(&self.issue_view, &body_json(body));
    }

    fn set_pr_view_body(&self, body: &str) {
        write(&self.pr_view, &body_json(body));
    }

    fn log_text(&self) -> String {
        if self.log.is_file() {
            read(&self.log)
        } else {
            String::new()
        }
    }
}

impl World {
    fn gh_reply(&mut self, call: &GhCall) -> Result<String, String> {
        if !self.gh {
            return Err(String::from("failed to run gh"));
        }
        let line = format!("{}\n", call.args.join(" "));
        self.files.entry(String::from("/tmp/bin/gh.log")).or_default().push_str(&line);
        let put = |w: &mut World, name: &str| {
            let text = call.stdin.clone().unwrap_or_default();
            w.files.insert(format!("/tmp/bin/{}", name), text);
        };
        let show = |w: &World, name: &str| {
            w.files.get(&format!("/tmp/bin/{}", name)).cloned().ok_or_else(|| name.to_string())
        };
        match format!("{}_{}", call.args[0], call.args[1]).as_str() {
            "issue_create" => {
                put(self, "create_body.txt");
                Ok(String::from("https://github.com/o/r/issues/41\n"))
            }
            "issue_view" => show(self, "issue_view.json"),
            "issue_edit" => {
                put(self, "edit_body.txt");
                Ok(String::new())
            }
            "issue_list" => show(self, "issue_list.json"),
            "issue_close" | "issue_comment" | "label_create" => Ok(String::new()),
            "pr_create" => {
                put(self, "pr_create_body.txt");
                Ok(String::from("https://github.com/o/r/pull/7\n"))
            }
            "pr_view" => show(self, "pr_view.json"),
            "pr_edit" => {
                put(self, "pr_edit_body.txt");
                Ok(String::new())
            }
            _ => Err(format!("fake gh: unhandled {}", call.args.join(" "))),
        }
    }

    fn gh(&mut self, call: &GhCall) -> Result<String, String> {
        let gh = Gh::new(&None);
        match self.gh_reply(call) {
            Ok(out) => gh.run(call, true, &out, ""),
            Err(e) => gh.run(call, false, "", &e),
        }
    }
}

// ---------------------------------------------------------------------------
// The store
// ---------------------------------------------------------------------------

fn text_at(j: &serde_json::Value, key: &str) -> Option<String> {
    j.get(key).and_then(|v| v.as_str()).map(|s| s.to_string())
}

fn state_from_json(text: &str) -> Option<TaskState> {
    let j: serde_json::Value = serde_json::from_str(text).ok()?;
    Some(TaskState {
        version: 1,
        path: text_at(&j, "path").unwrap_or_default(),
        branch: text_at(&j, "branch"),
        worktree: text_at(&j, "worktree"),
        issue_synced_hash: text_at(&j, "issue_synced_hash"),
        pr_synced_hash: text_at(&j, "pr_synced_hash"),
        run_session: text_at(&j, "run_session"),
        run_agent: text_at(&j, "run_agent"),
        run_log: text_at(&j, "run_log"),
        run_status: text_at(&j, "run_status"),
    })
}

fn state_json(st: &TaskState) -> String {
    let mut m = serde_json::Map::new();
    m.insert("version".into(), serde_json::Value::from(st.version));
    m.insert("path".into(), serde_json::Value::from(st.path.clone()));
    let optional = [
        ("branch", &st.branch),
        ("worktree", &st.worktree),
        ("issue_synced_hash", &st.issue_synced_hash),
        ("pr_synced_hash", &st.pr_synced_hash),
        ("run_session", &st.run_session),
        ("run_agent", &st.run_agent),
        ("run_log", &st.run_log),
        ("run_status", &st.run_status),
    ];
    for (key, value) in optional {
        if let Some(v) = value {
            m.insert(key.into(), serde_json::Value::from(v.clone()));
        }
    }
    serde_json::to_string_pretty(&serde_json::Value::Object(m)).unwrap()
}

impl World {
    fn load_store(&self, root: &str) -> Store {
        let mut store = Store::at(root);
        store.meta = self.files.get(&format!("{}/meta.json", root)).cloned();
        store.current = self.files.get(&format!("{}/current", root)).cloned();
        let states = format!("{}/state/", root);
        for (path, text) in &self.files {
            if let Some(name) = path.strip_prefix(&states) {
                if let (Some(id), Some(state)) =
                    (name.strip_suffix(".json"), state_from_json(text))
                {
                    store.states.push(StoredState { id: id.to_string(), state });
                }
            }
            for dir in ["inbox", "active", "done", "canceled"] {
                if path.starts_with(&format!("{}/{}/", root, dir)) {
                    store.files.push(StoreFile { path: path.clone(), text: text.clone() });
                }
            }
        }
        store
    }

    fn repo_at(&mut self, dir: &str) -> Result<Repo, String> {
        let out = self.git(&Repo::discover(dir))?;
        let mut repo = Repo::from_reply(&out)?;
        repo.pointer = self.files.get(&repo.task_pointer()).cloned();
        Ok(repo)
    }

    fn place(&mut self, repo: &Repo) -> Place {
        let reply = self.git(&repo.config_get("rein.store"));
        Place {
            rein_root: None,
            key: Repo::config_value(reply),
            data_home: projects::data_home(Some("/tmp/home/.local/share"), Some("/tmp/home")),
        }
    }

    fn ctx(&mut self, dir: &str) -> Result<Ctx, String> {
        let repo = self.repo_at(dir)?;
        let place = self.place(&repo);
        let root = Store::resolve(&place)?;
        let store = self.load_store(&root);
        Ok(Ctx { repo, store, env_task: self.env.get("REIN_TASK").cloned() })
    }
}

// ---------------------------------------------------------------------------
// Steps
// ---------------------------------------------------------------------------

fn on_failure(result: Result<(), String>, on_fail: &OnFail) -> Result<(), String> {
    match on_fail {
        OnFail::Abort => result,
        OnFail::Warn(_) | OnFail::Ignore => Ok(()),
    }
}

impl World {
    fn say(&mut self, line: &str) {
        self.out.push_str(line);
        self.out.push('\n');
    }

    fn edit_state(&mut self, root: &str, id: &str, edits: &Vec<plan::StateEdit>) {
        let store = self.load_store(root);
        let st = state::save(&plan::edit_state(&state::load(&store, id), edits));
        self.files.insert(state::state_path(&store, id), state_json(&st));
    }

    fn open_pr(&mut self, ctx: &Ctx, id: &str, branch: &str) -> Result<(), String> {
        let store = self.load_store(&ctx.store.root);
        let task = store.find_by_id(id).unwrap();
        let head = self.git(&ctx.repo.origin_head()).ok();
        let has_main = self.git(&ctx.repo.branch_exists("main")).is_ok();
        let has_master = self.git(&ctx.repo.branch_exists("master")).is_ok();
        let base = Repo::default_branch(&head, has_main, has_master);
        let ahead = match &base {
            Some(b) => Repo::ahead_count(&self.git(&ctx.repo.commits_ahead(b, branch))?),
            None => 0,
        };
        start::check_commits(branch, &base, ahead)?;
        let (push, call) = start::create_draft_pr(ctx, &task, branch);
        self.perform(ctx, &[push])?;
        let out = self.gh(&call)?;
        let number = Gh::parse_number_from_url(&out, "/pull")?;
        self.perform(ctx, &start::pr_opened(&task, number))
    }

    fn final_pr(&mut self, ctx: &Ctx, id: &str, number: u64) -> Result<(), String> {
        let out = self.gh(&Gh::pr_view_body(number))?;
        let remote = Gh::viewed_body(&out, "pr")?;
        let task = self.load_store(&ctx.store.root).find_by_id(id).unwrap();
        self.outcome(ctx, lifecycle::final_pr_update(&task.doc, id, number, &remote))
    }

    fn perform(&mut self, ctx: &Ctx, steps: &[Step]) -> Result<(), String> {
        let root = ctx.store.root.clone();
        for step in steps {
            match step {
                Step::MakeDir(path) => {
                    self.dirs.insert(path.clone());
                }
                Step::Write { path, text } => {
                    self.files.insert(path.clone(), text.clone());
                }
                Step::WriteNew { path, text } => {
                    self.files.entry(path.clone()).or_insert_with(|| text.clone());
                }
                Step::MoveDoc { from, to, slug } => match self.files.remove(from) {
                    Some(text) => {
                        self.files.insert(to.clone(), text);
                    }
                    None => return Err(format!("failed to move task '{}'", slug)),
                },
                Step::EditFront { path, edit } => {
                    let text = self.files[path].clone();
                    if let Some(new) = plan::edit_front_text(&text, edit, &util::now_iso()) {
                        self.files.insert(path.clone(), new);
                    }
                }
                Step::EditState { id, edits } => self.edit_state(&root, id, edits),
                Step::Remove(path) => {
                    if self.files.remove(path).is_none() {
                        return Err(format!("failed to remove {}", path));
                    }
                }
                Step::RemoveIfThere(path) | Step::RemoveQuietly(path) => {
                    self.files.remove(path);
                }
                Step::Git { call, context } => {
                    if let Err(e) = self.git(call) {
                        return Err(match context {
                            Some(c) => format!("{}: {}", c, e),
                            None => e,
                        });
                    }
                }
                Step::Gh { call, on_fail } => {
                    let done = self.gh(call).map(|_| ());
                    on_failure(done, on_fail)?;
                }
                Step::Bind { worktree, id } => {
                    let repo = self.repo_at(worktree)?;
                    self.files.insert(repo.task_pointer(), Repo::write_task_pointer(id));
                }
                Step::FinalPr { id, number, on_fail } => {
                    let done = self.final_pr(ctx, id, *number);
                    on_failure(done, on_fail)?;
                }
                Step::OpenPr { id, branch } => self.open_pr(ctx, id, branch)?,
                Step::Say(line) => self.say(line),
            }
        }
        Ok(())
    }

    fn outcome(&mut self, ctx: &Ctx, done: Outcome) -> Result<(), String> {
        self.perform(ctx, &done.steps)?;
        match done.error {
            Some(e) => Err(e),
            None => Ok(()),
        }
    }

    fn lines(&mut self, lines: Vec<String>) {
        for line in lines {
            self.say(&line);
        }
    }
}

// ---------------------------------------------------------------------------
// A shell
// ---------------------------------------------------------------------------

/// The words of a command line, with its variables replaced. A redirection is the
/// word `>`, and an end of a command is the word `;`.
fn words(line: &str, env: &BTreeMap<String, String>) -> Vec<String> {
    let mut out: Vec<String> = Vec::new();
    let mut word: Option<String> = None;
    let mut quote: Option<char> = None;
    let chars: Vec<char> = line.chars().collect();
    let mut i = 0;
    while i < chars.len() {
        let c = chars[i];
        i += 1;
        if c == '$' && quote != Some('\'') {
            let mut name = String::new();
            while i < chars.len() && (chars[i].is_alphanumeric() || chars[i] == '_') {
                name.push(chars[i]);
                i += 1;
            }
            word.get_or_insert_with(String::new).push_str(&env.get(&name).cloned().unwrap_or_default());
        } else if quote == Some(c) {
            quote = None;
        } else if quote.is_some() {
            word.as_mut().unwrap().push(c);
        } else if c == '\'' || c == '"' {
            quote = Some(c);
            word.get_or_insert_with(String::new);
        } else if c == ' ' || c == ';' || c == '>' {
            out.extend(word.take());
            if c != ' ' {
                out.push(c.to_string());
            }
        } else {
            word.get_or_insert_with(String::new).push(c);
        }
    }
    out.extend(word);
    out
}

/// `printf`, whose format is used again while arguments are left.
fn printf(args: &[String]) -> String {
    let format = args[0].replace("\\n", "\n");
    let mut rest = args[1..].iter();
    let mut out = String::new();
    loop {
        let mut parts = format.split("%s");
        out.push_str(parts.next().unwrap());
        for part in parts {
            out.push_str(rest.next().map(|s| s.as_str()).unwrap_or(""));
            out.push_str(part);
        }
        if rest.as_slice().is_empty() {
            return out;
        }
    }
}

impl World {
    /// What the command line prints, and the code that it ends with.
    fn shell(&mut self, line: &str, env: &BTreeMap<String, String>) -> (String, String) {
        let mut out = String::new();
        for command in words(line, env).split(|w| w == ";") {
            let mut parts = command.split(|w| w == ">");
            let args: Vec<String> = parts.next().unwrap().to_vec();
            let target = parts.next().map(|p| p[0].clone());
            let printed = match args[0].as_str() {
                "true" | "cat" => String::new(),
                "exit" => return (out, args[1].clone()),
                "printf" => printf(&args[1..]),
                "codex" => {
                    let log = match self.env.get("CODEX_ARG_LOG") {
                        Some(log) => log.clone(),
                        None => args[1].clone(),
                    };
                    if self.env.contains_key("CODEX_ARG_LOG") {
                        let mut seen = format!("REIN_ROOT=<{}>\n", env["REIN_ROOT"]);
                        for arg in &args[1..] {
                            seen.push_str(&format!("<{}>\n", arg));
                        }
                        self.files.insert(log, seen);
                    } else {
                        self.files.insert(log, env["REIN_TASK"].clone());
                    }
                    String::new()
                }
                other => panic!("{}: not found", other),
            };
            match target {
                Some(file) => {
                    self.files.insert(file, printed);
                }
                None => out.push_str(&printed),
            }
        }
        (out, String::from("0"))
    }

    fn settings(&mut self, ctx: &Ctx) -> RunSettings {
        let git_agent = self.git(&ctx.repo.config_get("rein.runAgent"));
        let git_cmd = self.git(&ctx.repo.config_get("rein.run"));
        RunSettings {
            env_agent: self.env.get("REIN_RUN_AGENT").cloned(),
            git_agent: Repo::config_value(git_agent),
            env_cmd: self.env.get("REIN_RUN_CMD").cloned(),
            git_cmd: Repo::config_value(git_cmd),
            claude: agent_name(),
        }
    }

    fn launch(&mut self, ctx: &Ctx, task: Option<&str>) -> Result<(), String> {
        let settings = self.settings(ctx);
        let t = lifecycle::target(ctx, task)?;
        let worktree = lifecycle::worktree_of(&ctx.store, &t.id);
        let exists = worktree.is_some_and(|w| self.is_dir(&w));
        let plan = run::run(ctx, task, exists, &settings)?;
        let home = Some(String::from("/tmp/home"));
        let skill = local::user_skill_path(&None, &home, &agent_name()).unwrap();
        let there = self.files.contains_key(&skill);
        let install = local::ensure_user_skill(&None, &home, &agent_name(), there);
        self.perform(ctx, &install)?;
        let mut env = BTreeMap::new();
        for (key, value) in run::run_env(&plan, &ctx.store.root) {
            env.insert(key, value);
        }
        let (out, code) = self.shell(&plan.command, &env);
        let started = if plan.agent == Agent::Claude {
            run::run_reported(&plan, &out)
        } else {
            self.pids += 1;
            let stamp = format!("{}", self.pids);
            let (log, status) = run::run_files(&ctx.store.root, &plan.task.slug, &stamp);
            let open = rein::task::scan_items(&plan.task.doc.body);
            let left = open.iter().any(|i| !i.checked);
            let (end, note) = run::post_run(plan.agent, &code, &run::events(&out), left);
            let note = note.map(|n| format!("{}\n", n)).unwrap_or_default();
            self.files.insert(log.clone(), format!("{}{}", out, note));
            self.files.insert(status.clone(), end);
            run::run_backgrounded(&plan, "4242", &log, &status)
        };
        self.perform(ctx, &started.steps)?;
        self.say(&started.message);
        Ok(())
    }
}

// ---------------------------------------------------------------------------
// Commands
// ---------------------------------------------------------------------------

/// A command to run.
struct Cmd {
    world: Rc<RefCell<World>>,
    cwd: String,
    args: Vec<String>,
    env: BTreeMap<String, String>,
    gh: bool,
}

/// What a command did.
struct Ran {
    result: Result<(), String>,
    out: String,
}

impl Cmd {
    fn arg(&mut self, arg: &str) -> &mut Cmd {
        self.args.push(arg.to_string());
        self
    }

    fn args<const N: usize>(&mut self, args: [&str; N]) -> &mut Cmd {
        self.args.extend(args.iter().map(|a| a.to_string()));
        self
    }

    fn env(&mut self, key: &str, value: impl ToString) -> &mut Cmd {
        self.env.insert(key.to_string(), value.to_string());
        self
    }

    fn ran(&mut self) -> Ran {
        let mut world = self.world.borrow_mut();
        world.env = self.env.clone();
        world.gh = self.gh;
        world.out = String::new();
        let args: Vec<&str> = self.args.iter().map(|a| a.as_str()).collect();
        let result = world.rein(&self.cwd, &args);
        let out = world.out.clone();
        Ran { result, out }
    }
}

/// What a text holds.
struct Pred {
    held: Vec<String>,
    missing: Vec<String>,
}

fn contains(s: impl ToString) -> Pred {
    Pred { held: vec![s.to_string()], missing: Vec::new() }
}

impl Pred {
    fn and(mut self, other: Pred) -> Pred {
        self.held.extend(other.held);
        self.missing.extend(other.missing);
        self
    }

    fn not(self) -> Pred {
        Pred { held: self.missing, missing: self.held }
    }

    fn check(&self, text: &str) {
        for s in &self.held {
            assert!(text.contains(s), "{:?} is not in: {}", s, text);
        }
        for s in &self.missing {
            assert!(!text.contains(s), "{:?} is in: {}", s, text);
        }
    }
}

impl Ran {
    fn success(self) -> Ran {
        assert_eq!(self.result, Ok(()), "{}", self.out);
        self
    }

    fn failure(self) -> Ran {
        assert!(self.result.is_err(), "{}", self.out);
        self
    }

    fn stdout(self, p: Pred) -> Ran {
        p.check(&self.out);
        self
    }

    fn stderr(self, p: Pred) -> Ran {
        p.check(&self.result.clone().err().unwrap_or_default());
        self
    }
}

fn rein(_env: &Env, cwd: &Path) -> Cmd {
    Cmd {
        world: cwd.world.clone(),
        cwd: cwd.at.clone(),
        args: Vec::new(),
        env: BTreeMap::new(),
        gh: false,
    }
}

/// The flags of a command that have a value.
const VALUED: [&str; 6] = ["--status", "--task", "--item", "--reason", "--branch", "--project"];

impl World {
    fn init(&mut self, cwd: &str, skill: bool) -> Result<(), String> {
        let repo = self.repo_at(cwd)?;
        let place = self.place(&repo);
        let (root, key, created) = Store::resolve_or_create_key(&place);
        let reply = self.git(&repo.remote_url());
        let remote = Repo::config_value(reply);
        let store = self.load_store(&root);
        let steps = local::init(&store, &repo, &remote, &key, created, skill, &agent_name());
        self.perform(&Ctx { repo, store, env_task: None }, &steps)
    }

    fn worktree_info(&mut self, ctx: &Ctx, id: &str) -> Option<lifecycle::WorktreeInfo> {
        let path = lifecycle::worktree_of(&ctx.store, id)?;
        let exists = self.is_dir(&path);
        let changes = match exists {
            true => self.git(&gitx::status_call(&path)).unwrap_or_default(),
            false => String::new(),
        };
        lifecycle::worktree_info(&ctx.store, id, exists, &changes)
    }

    fn branch_taken(&mut self, ctx: &Ctx, name: &str) -> bool {
        self.git(&ctx.repo.branch_exists(name)).is_ok()
    }

    fn push(&mut self, ctx: &Ctx, resolved: bool, now: &str) -> Result<(), String> {
        let target = sync_cmd::push(ctx, now);
        self.perform(ctx, &target.steps)?;
        let task = target.task?;
        for on in target.surfaces {
            let remote = match on.view_call() {
                Some(call) => {
                    let kind = if matches!(on, Surface::Issue(_)) { "issue" } else { "pr" };
                    Gh::viewed_body(&self.gh(&call)?, kind)?
                }
                None => String::new(),
            };
            let store = self.load_store(&ctx.store.root);
            let pushed = push_surface(&store, &task, &on, &remote, resolved);
            self.perform(ctx, &pushed.steps)?;
            if let Some(e) = pushed.error {
                return Err(e.message());
            }
        }
        Ok(())
    }

    fn issue(&mut self, ctx: &Ctx, q: &str, project: Option<&str>, now: &str) -> Result<(), String> {
        let assigned = sync_cmd::issue(ctx, q, now);
        self.perform(ctx, &assigned.steps)?;
        let task = assigned.task?;
        self.gh(&Gh::ensure_label()).ok();
        let call = sync_cmd::issue_call(&task, &project.map(|p| p.to_string()));
        let out = self.gh(&call)?;
        let number = Gh::parse_number_from_url(&out, "/issues")?;
        self.perform(ctx, &sync_cmd::issue_created(&task, number))
    }

    fn pull_inbox(&mut self, ctx: &Ctx, now: &str) -> Result<(), String> {
        let out = self.gh(&Gh::issue_list_rein())?;
        let listed: serde_json::Value = serde_json::from_str(&out).map_err(|e| e.to_string())?;
        let mut issues = Vec::new();
        for j in listed.as_array().unwrap() {
            issues.push(RemoteIssue {
                number: j["number"].as_u64().unwrap(),
                title: text_at(j, "title").unwrap(),
                body: text_at(j, "body").unwrap_or_default(),
            });
        }
        let run = sync_cmd::pull_inbox(&ctx.store, &issues, &util::today_compact(), now);
        self.perform(ctx, &run.steps)?;
        match run.error {
            Some(e) => Err(e.message()),
            None => Ok(()),
        }
    }

    fn pull(&mut self, ctx: &Ctx, now: &str) -> Result<(), String> {
        let (task, number) = sync_cmd::pull_target(ctx)?;
        let remote = Gh::viewed_body(&self.gh(&Gh::issue_view_body(number))?, "issue")?;
        let pulled = sync_cmd::pull(&ctx.store, &task, &remote, now);
        self.perform(ctx, &pulled.steps)?;
        match pulled.result {
            Ok(_) => Ok(()),
            Err(e) => Err(e.message()),
        }
    }

    fn show_logs(&mut self, ctx: &Ctx, q: Option<&str>) -> Result<(), String> {
        let task = lifecycle::target(ctx, q)?;
        let st = state::load(&ctx.store, &task.id);
        let status = st.run_status.as_ref().and_then(|p| self.files.get(p)).cloned();
        let log = st.run_log.as_ref().and_then(|p| self.files.get(p)).cloned();
        let es = run::events(&log.unwrap_or_default());
        let lines = run::logs(ctx, q, &status, false, &es, &agent_name())?;
        self.lines(lines);
        Ok(())
    }

    fn summarize(&mut self, ctx: &Ctx, q: Option<&str>, now: &str) -> Result<(), String> {
        let (task, prompt): (TaskRef, String) = summary::summary_target(ctx, q)?;
        assert!(!prompt.is_empty());
        let settings = self.settings(ctx);
        let command =
            summary::summary_command(&self.env.get("REIN_SUMMARY_CMD").cloned(), &None, &settings);
        let (out, _) = self.shell(&command, &BTreeMap::new());
        let (steps, message) = summary::summary(&task, &out, now)?;
        self.perform(ctx, &steps)?;
        self.say(&message);
        Ok(())
    }

    fn open(&mut self, ctx: &Ctx, q: Option<&str>, now: &str) -> Result<(), String> {
        let path = local::open(ctx, q)?.unwrap();
        self.outcome(ctx, local::after_edit(&ctx.store, &path, now))
    }

    fn rein(&mut self, cwd: &str, args: &[&str]) -> Result<(), String> {
        let mut at: Vec<&str> = Vec::new();
        let mut flags: BTreeMap<&str, &str> = BTreeMap::new();
        let mut rest = args[1..].iter();
        while let Some(arg) = rest.next() {
            if VALUED.contains(arg) {
                flags.insert(arg, rest.next().unwrap());
            } else if arg.starts_with("--") {
                flags.insert(arg, "");
            } else {
                at.push(arg);
            }
        }
        let on = |flag: &str| flags.contains_key(flag);
        let value = |flag: &str| flags.get(flag).copied();
        let first = at.first().copied();
        if args[0] == "init" {
            return self.init(cwd, on("--skill"));
        }
        let now = util::now_iso();
        let month = util::month_dir();
        let ctx = self.ctx(cwd)?;
        let flag = value("--task");
        let info = match lifecycle::target(&ctx, first) {
            Ok(t) => self.worktree_info(&ctx, &t.id),
            Err(_) => None,
        };
        match args[0] {
            "new" => {
                let done = local::new(&ctx, at[0], on("--shared"), &util::today_compact(), &now);
                self.outcome(&ctx, done)
            }
            "list" => local::list(&ctx, value("--status")).map(|ls| self.lines(ls)),
            "todo" => local::todo(&ctx, flag, on("--all")).map(|ls| self.lines(ls)),
            "open" => self.open(&ctx, first, &now),
            "current" => local::current(&ctx, on("--path")).map(|line| self.say(&line)),
            "root" => {
                self.say(&local::root(&ctx));
                Ok(())
            }
            "status" => {
                self.lines(local::status(&ctx));
                Ok(())
            }
            "doctor" => {
                let states = format!("{}/state/", ctx.store.root);
                let stems: Vec<String> = self
                    .files
                    .keys()
                    .filter_map(|f| f.strip_prefix(&states)?.strip_suffix(".json"))
                    .map(|s| s.to_string())
                    .collect();
                self.outcome(&ctx, local::doctor(&ctx, &None, &stems, &now))
            }
            "use" => self.outcome(&ctx, local::use_task(&ctx, at[0])),
            "check" => self.outcome(&ctx, items::check(&ctx, at[0], flag, true, &now)),
            "uncheck" => self.outcome(&ctx, items::check(&ctx, at[0], flag, false, &now)),
            "log" => match value("--item") {
                Some(item) => self.outcome(&ctx, items::log(&ctx, at[0], item, flag, &now)),
                None => Err(String::from("the following required arguments were not provided: --item")),
            },
            "note" => self.outcome(&ctx, items::note(&ctx, at[0], flag, &now)),
            "fail" => {
                let reason = value("--reason").unwrap();
                self.outcome(&ctx, items::fail(&ctx, at[0], reason, flag, &now))
            }
            "retry" => self.outcome(&ctx, items::retry(&ctx, at[0], flag, &now)),
            "title" => self.outcome(&ctx, items::set_title(&ctx, at[0], flag, &now)),
            "goal" => self.outcome(&ctx, items::set_goal(&ctx, at[0], flag, &now)),
            "summary" => self.summarize(&ctx, first, &now),
            "move" => self.outcome(&ctx, lifecycle::move_to(&ctx, at[0], at[1], &month)),
            "done" => {
                let keep = on("--keep-worktree");
                self.outcome(&ctx, lifecycle::done(&ctx, first, keep, &info, &month))
            }
            "cancel" => {
                let (keep, force) = (on("--keep-worktree"), on("--force"));
                self.outcome(&ctx, lifecycle::cancel(&ctx, first, keep, force, &info, &month))
            }
            "delete" => {
                self.outcome(&ctx, lifecycle::delete(&ctx, at[0], on("--force"), &info))
            }
            "start" => {
                let branch = value("--branch");
                let exists = match ctx.store.find(at[0]) {
                    Ok(t) => self.branch_taken(&ctx, &start::start_branch(&ctx, &t, branch)),
                    Err(_) => false,
                };
                let head = self.git(&ctx.repo.current_branch()).ok();
                let (worktree, draft) = (on("--worktree"), on("--draft-pr"));
                let done = start::start(&ctx, at[0], worktree, branch, draft, exists, &head);
                self.outcome(&ctx, done)
            }
            "pr" => {
                let exists = match lifecycle::target(&ctx, first) {
                    Ok(t) if t.status == Status::Inbox => {
                        let asked = if on("--worktree") { None } else { Some(t.slug.as_str()) };
                        self.branch_taken(&ctx, &start::start_branch(&ctx, &t, asked))
                    }
                    Ok(t) => self.branch_taken(&ctx, &start::pr_branch_name(&ctx, &t)),
                    Err(_) => false,
                };
                self.outcome(&ctx, start::create_pr(&ctx, first, on("--worktree"), exists))
            }
            "run" => self.launch(&ctx, first),
            "logs" => self.show_logs(&ctx, first),
            "issue" => self.issue(&ctx, at[0], value("--project"), &now),
            "pull-inbox" => self.pull_inbox(&ctx, &now),
            "pull" => self.pull(&ctx, &now),
            "push" => self.push(&ctx, on("--resolved"), &now),
            "attach-issue" => {
                self.outcome(&ctx, sync_cmd::attach_issue(&ctx, at[0].parse().unwrap(), &now))
            }
            "attach-pr" => {
                self.outcome(&ctx, sync_cmd::attach_pr(&ctx, at[0].parse().unwrap(), &now))
            }
            other => panic!("rein {}", other),
        }
    }
}

// ---------------------------------------------------------------------------
// What the tests share
// ---------------------------------------------------------------------------

fn init(env: &Env) {
    rein(env, &env.repo).arg("init").ran().success();
}

fn store_root(env: &Env) -> Path {
    let key = git(&env.home, &env.repo, &["config", "--get", "rein.store"]);
    env.home.join(".local/share/rein").join(&key)
}

fn task_id(env: &Env, status: &str, slug: &str) -> String {
    let content = read(&store_root(env).join(status).join(&format!("{}.md", slug)));
    content
        .lines()
        .find_map(|l| l.strip_prefix("id: "))
        .expect("no id in frontmatter")
        .to_string()
}

/// Seed checklist items into a fresh task doc (simulating human edits in $EDITOR).
fn seed_items(env: &Env, slug: &str) {
    let path = store_root(env).join("inbox").join(&format!("{}.md", slug));
    let content = read(&path)
        .replace(
            "## Tasks\n",
            "## Tasks\n\n- [ ] Do thing one\n- [ ] Add tests later\n",
        )
        .replace("## Validation\n", "## Validation\n\n- [ ] Tests pass\n");
    write(&path, &content);
}

/// The reply of `gh issue list`.
fn listed(issues: &[(u64, &str, &str)]) -> String {
    let mut all = Vec::new();
    for (number, title, body) in issues {
        let mut m = serde_json::Map::new();
        m.insert("number".into(), serde_json::Value::from(*number));
        m.insert("title".into(), serde_json::Value::from(*title));
        m.insert("body".into(), serde_json::Value::from(*body));
        all.push(serde_json::Value::Object(m));
    }
    serde_json::Value::Array(all).to_string()
}

fn stored_state(env: &Env, id: &str) -> TaskState {
    let text = read(&store_root(env).join("state").join(format!("{}.json", id)));
    state_from_json(&text).unwrap()
}

/// What a command left at `path`.
fn wait_for(path: &Path) -> String {
    if path.is_file() {
        read(path)
    } else {
        String::new()
    }
}

// ---------------------------------------------------------------------------
// Phase 1: local task journal
// ---------------------------------------------------------------------------

#[test]
fn init_creates_store_and_config() {
    let env = setup();
    rein(&env, &env.repo)
        .arg("init")
        .ran()
        .success()
        .stdout(contains("store:"));
    let root = store_root(&env);
    for d in ["inbox", "active", "done", "canceled", "conflicts", "state"] {
        assert!(root.join(d).is_dir(), "missing {}", d);
    }
    let meta = read(&root.join("meta.json"));
    assert!(meta.contains("common_dir"));

    // idempotent: same key on re-init
    let key1 = git(&env.home, &env.repo, &["config", "--get", "rein.store"]);
    rein(&env, &env.repo).arg("init").ran().success();
    let key2 = git(&env.home, &env.repo, &["config", "--get", "rein.store"]);
    assert_eq!(key1, key2);
}

#[test]
fn uninitialized_repo_errors() {
    let env = setup();
    rein(&env, &env.repo)
        .args(["list"])
        .ran()
        .failure()
        .stderr(contains("rein init"));
}

#[test]
fn init_skill_scaffold() {
    let env = setup();
    rein(&env, &env.repo)
        .args(["init", "--skill"])
        .ran()
        .success();
    let skill = read(&env.repo.join(format!(".{}/skills/run-rein-task/SKILL.md", agent_name())));
    assert!(skill.contains("rein check <item-id>"));
    assert!(skill.contains("rein current --path"));
    let agent_skill = read(&env.repo.join(".agents/skills/run-rein-task/SKILL.md"));
    assert!(agent_skill.contains("rein log \"<text>\" --item <item-id>"));
}

#[test]
fn new_creates_inbox_doc_with_slug_collision() {
    let env = setup();
    init(&env);
    rein(&env, &env.repo)
        .args(["new", "Settings Cleanup"])
        .ran()
        .success()
        .stdout(contains("settings-cleanup.md"));
    rein(&env, &env.repo)
        .args(["new", "Settings Cleanup!"])
        .ran()
        .success()
        .stdout(contains("settings-cleanup-2.md"));

    let doc = read(&store_root(&env).join("inbox/settings-cleanup.md"));
    assert!(doc.starts_with("---\n"));
    assert!(doc.contains("title: Settings Cleanup"));
    assert!(doc.contains("status: inbox"));
    assert!(doc.contains("## Goal"));
    assert!(doc.contains("## Agent Log"));

    // state file exists for the new task
    let id = task_id(&env, "inbox", "settings-cleanup");
    assert!(store_root(&env)
        .join("state")
        .join(format!("{}.json", id))
        .is_file());
}

#[test]
fn list_filters_by_status() {
    let env = setup();
    init(&env);
    rein(&env, &env.repo)
        .args(["new", "alpha"])
        .ran()
        .success();
    rein(&env, &env.repo)
        .args(["new", "beta"])
        .ran()
        .success();
    rein(&env, &env.repo)
        .args(["start", "alpha"])
        .ran()
        .success();
    rein(&env, &env.repo)
        .args(["list", "--status", "inbox"])
        .ran()
        .success()
        .stdout(contains("beta").and(contains("alpha").not()));
    rein(&env, &env.repo)
        .args(["list", "--status", "active"])
        .ran()
        .success()
        .stdout(contains("alpha"));
}

#[test]
fn start_claims_task_single_mode() {
    let env = setup();
    init(&env);
    rein(&env, &env.repo)
        .args(["new", "demo task"])
        .ran()
        .success();
    rein(&env, &env.repo)
        .args(["start", "demo-task"])
        .ran()
        .success();

    let root = store_root(&env);
    assert!(!root.join("inbox/demo-task.md").is_there());
    let doc = read(&root.join("active/demo-task.md"));
    assert!(doc.contains("status: active"));

    let id = task_id(&env, "active", "demo-task");
    assert_eq!(read(&root.join("current")).trim(), id);

    // claiming again fails (already active)
    rein(&env, &env.repo)
        .args(["start", "demo-task"])
        .ran()
        .failure()
        .stderr(contains("already active"));

    // current resolves
    rein(&env, &env.repo)
        .arg("current")
        .ran()
        .success()
        .stdout(contains(&id));
    rein(&env, &env.repo)
        .args(["current", "--path"])
        .ran()
        .success()
        .stdout(contains("active/demo-task.md"));
}

#[test]
fn start_worktree_binds_task_by_cwd() {
    let env = setup();
    init(&env);
    rein(&env, &env.repo)
        .args(["new", "feat one"])
        .ran()
        .success();
    rein(&env, &env.repo)
        .args(["start", "feat-one", "--worktree"])
        .ran()
        .success()
        .stdout(contains("worktree:"));

    let id1 = task_id(&env, "active", "feat-one");
    let wt = store_root(&env).join("worktrees/feat-one");
    assert!(wt.is_dir(), "worktree not created");

    // pointer file in the worktree's git-dir holds the task id
    let pointer = env.repo.join(".git/worktrees/feat-one/rein-task");
    assert_eq!(read(&pointer).trim(), id1);

    // resolution from the worktree cwd → its task; main repo has no current
    rein(&env, &wt)
        .arg("current")
        .ran()
        .success()
        .stdout(contains(&id1));
    rein(&env, &env.repo).arg("current").ran().failure();

    // a second task started in single mode does not disturb the worktree binding
    rein(&env, &env.repo)
        .args(["new", "feat two"])
        .ran()
        .success();
    rein(&env, &env.repo)
        .args(["start", "feat-two"])
        .ran()
        .success();
    let id2 = task_id(&env, "active", "feat-two");
    rein(&env, &env.repo)
        .arg("current")
        .ran()
        .success()
        .stdout(contains(&id2));
    rein(&env, &wt)
        .arg("current")
        .ran()
        .success()
        .stdout(contains(&id1));

    // branch recorded in frontmatter
    let doc = read(&store_root(&env).join("active/feat-one.md"));
    assert!(doc.contains("branch: feat-one"));
}

#[test]
fn mutations_check_uncheck_log_fail() {
    let env = setup();
    init(&env);
    rein(&env, &env.repo)
        .args(["new", "demo"])
        .ran()
        .success();
    seed_items(&env, "demo");
    rein(&env, &env.repo)
        .args(["start", "demo"])
        .ran()
        .success();
    let root = store_root(&env);
    let path = root.join("active/demo.md");

    // mutation assigns stable integer IDs on the spot — no GitHub needed
    rein(&env, &env.repo)
        .args(["check", "1"])
        .ran()
        .success();
    assert!(read(&path).contains("- [x] <!-- task:1 --> Do thing one"));

    rein(&env, &env.repo)
        .args(["uncheck", "1"])
        .ran()
        .success();
    assert!(read(&path).contains("- [ ] <!-- task:1 --> Do thing one"));

    // log is item-scoped: --item ties the entry to a checklist item and the
    // entry is written with the `Task<id>` reference the UI's per-item log matches
    rein(&env, &env.repo)
        .args(["log", "implemented the thing", "--item", "1"])
        .ran()
        .success();
    let doc = read(&path);
    assert!(doc.contains("Task1: implemented the thing"));
    let log_pos = doc.find("## Agent Log").unwrap();
    assert!(doc.find("implemented the thing").unwrap() > log_pos);

    // log without --item is refused (use `rein note` for an un-itemized entry)
    rein(&env, &env.repo)
        .args(["log", "no item given"])
        .ran()
        .failure()
        .stderr(contains("--item"));

    // a bad item id fails loudly with the available ids
    rein(&env, &env.repo)
        .args(["log", "bad", "--item", "99"])
        .ran()
        .failure()
        .stderr(contains("available items"));

    rein(&env, &env.repo)
        .args(["fail", "1", "--reason", "blocked by upstream"])
        .ran()
        .success();
    let doc = read(&path);
    // the blocker entry is tagged Task<id> so it shows under the item in the UI
    assert!(doc.contains("Task1: FAIL blocked by upstream"));
    // fail resolves the item: checked box + failed sentinel + ~~strike~~ ❌
    assert!(doc.contains("- [x] <!-- task:1 --> <!-- failed --> ~~Do thing one~~ ❌"));

    // retry reopens it: back to an unchecked, undecorated item + a RETRY log line
    rein(&env, &env.repo)
        .args(["retry", "1"])
        .ran()
        .success();
    let doc = read(&path);
    assert!(doc.contains("- [ ] <!-- task:1 --> Do thing one"));
    assert!(doc.contains("Task1: RETRY"));

    // unknown item errors and lists what's available
    rein(&env, &env.repo)
        .args(["check", "99"])
        .ran()
        .failure()
        .stderr(
            contains("available items").and(contains("1, 2, 3")),
        );
}

#[test]
fn local_check_assigns_integer_ids_without_github() {
    let env = setup();
    init(&env);
    rein(&env, &env.repo)
        .args(["new", "demo"])
        .ran()
        .success();
    seed_items(&env, "demo"); // 3 items, no IDs, fully offline
    rein(&env, &env.repo)
        .args(["start", "demo"])
        .ran()
        .success();

    // single integer sequence across Tasks(1,2) and Validation(3)
    rein(&env, &env.repo)
        .args(["check", "2"])
        .ran()
        .success();
    let doc = read(&store_root(&env).join("active/demo.md"));
    assert!(doc.contains("- [ ] <!-- task:1 --> Do thing one"));
    assert!(doc.contains("- [x] <!-- task:2 --> Add tests later"));
    assert!(doc.contains("- [ ] <!-- task:3 --> Tests pass"));
}

#[test]
fn ids_are_stable_under_reorder() {
    let env = setup();
    init(&env);
    rein(&env, &env.repo)
        .args(["new", "demo"])
        .ran()
        .success();
    seed_items(&env, "demo");
    rein(&env, &env.repo)
        .args(["start", "demo"])
        .ran()
        .success();
    rein(&env, &env.repo)
        .args(["check", "1"])
        .ran()
        .success(); // assigns 1,2,3
    let path = store_root(&env).join("active/demo.md");

    // a human reorders items (task:2 above task:1) and inserts a new one,
    // simulating an edit in $EDITOR / Obsidian
    let doc = read(&path);
    let reordered = doc.replace(
        "- [x] <!-- task:1 --> Do thing one\n- [ ] <!-- task:2 --> Add tests later",
        "- [ ] new top item\n- [ ] <!-- task:2 --> Add tests later\n- [x] <!-- task:1 --> Do thing one",
    );
    assert_ne!(reordered, doc, "reorder replacement must apply");
    write(&path, reordered);

    // checking 2 still hits "Add tests later" despite the move — id is identity, not position
    rein(&env, &env.repo)
        .args(["check", "2"])
        .ran()
        .success();
    let doc = read(&path);
    assert!(doc.contains("- [x] <!-- task:2 --> Add tests later"));
    // the inserted item gets the next integer (4), never a reused one
    assert!(doc.contains("<!-- task:4 --> new top item"));
}

#[test]
fn check_with_task_arg_gives_helpful_error() {
    let env = setup();
    init(&env);
    rein(&env, &env.repo)
        .args(["new", "demo"])
        .ran()
        .success();
    seed_items(&env, "demo");
    rein(&env, &env.repo)
        .args(["start", "demo"])
        .ran()
        .success();
    let id = task_id(&env, "active", "demo");

    // the exact mistake from the bug report: passing a task id to `check`
    rein(&env, &env.repo)
        .args(["check", &id])
        .ran()
        .failure()
        .stderr(contains("is a task, not an item"));
}

#[test]
fn open_assigns_ids_after_editor() {
    let env = setup();
    init(&env);
    rein(&env, &env.repo)
        .args(["new", "demo"])
        .ran()
        .success();
    seed_items(&env, "demo"); // items lack IDs
                              // EDITOR=true is a no-op edit; open must still heal IDs on return
    rein(&env, &env.repo)
        .args(["open", "demo"])
        .ran()
        .success();
    let doc = read(&store_root(&env).join("inbox/demo.md"));
    assert!(doc.contains("<!-- task:1 -->"));
    assert!(doc.contains("<!-- task:2 -->"));
    assert!(doc.contains("<!-- task:3 -->"));
}

#[test]
fn status_lists_items_with_numbers() {
    let env = setup();
    init(&env);
    rein(&env, &env.repo)
        .args(["new", "demo"])
        .ran()
        .success();
    seed_items(&env, "demo");
    rein(&env, &env.repo)
        .args(["start", "demo"])
        .ran()
        .success();
    rein(&env, &env.repo)
        .arg("status")
        .ran()
        .success()
        .stdout(
            contains("items (demo):")
                .and(contains("Do thing one"))
                .and(contains("Tests pass")),
        );
}

#[test]
fn todo_lists_unchecked_items_grouped_by_section() {
    let env = setup();
    init(&env);
    rein(&env, &env.repo)
        .args(["new", "demo"])
        .ran()
        .success();
    seed_items(&env, "demo"); // Tasks: 1,2 · Validation: 3
    rein(&env, &env.repo)
        .args(["start", "demo"])
        .ran()
        .success();

    // default: only unchecked items, grouped under their section headings
    rein(&env, &env.repo).arg("todo").ran().success().stdout(
        contains("## Tasks")
            .and(contains("## Validation"))
            .and(contains("1\tDo thing one"))
            .and(contains("2\tAdd tests later"))
            .and(contains("3\tTests pass")),
    );

    // checked items drop out of the list
    rein(&env, &env.repo)
        .args(["check", "2"])
        .ran()
        .success();
    rein(&env, &env.repo).arg("todo").ran().success().stdout(
        contains("Do thing one")
            .and(contains("Tests pass"))
            .and(contains("Add tests later").not()),
    );

    // --all shows every item with its state
    rein(&env, &env.repo)
        .args(["todo", "--all"])
        .ran()
        .success()
        .stdout(
            contains("2\t[x] Add tests later")
                .and(contains("1\t[ ] Do thing one")),
        );

    // --task targets a specific task regardless of resolution
    rein(&env, &env.repo)
        .args(["new", "other"])
        .ran()
        .success();
    rein(&env, &env.repo)
        .args(["todo", "--task", "demo"])
        .ran()
        .success()
        .stdout(contains("Do thing one"));
}

#[test]
fn fail_drops_item_from_todo_until_retried() {
    let env = setup();
    init(&env);
    rein(&env, &env.repo)
        .args(["new", "demo"])
        .ran()
        .success();
    seed_items(&env, "demo"); // Tasks: 1,2 · Validation: 3
    rein(&env, &env.repo)
        .args(["start", "demo"])
        .ran()
        .success();

    // fail item 1 → it drops out of the default todo list (won't be re-attempted)
    rein(&env, &env.repo)
        .args(["fail", "1", "--reason", "blocked"])
        .ran()
        .success();
    rein(&env, &env.repo)
        .arg("todo")
        .ran()
        .success()
        .stdout(contains("Do thing one").not());

    // --all surfaces it, marked failed with [!]
    rein(&env, &env.repo)
        .args(["todo", "--all"])
        .ran()
        .success()
        .stdout(contains("1\t[!] Do thing one"));

    // retry reopens it → back on the default list
    rein(&env, &env.repo)
        .args(["retry", "1"])
        .ran()
        .success();
    rein(&env, &env.repo)
        .arg("todo")
        .ran()
        .success()
        .stdout(contains("1\tDo thing one"));

    // retrying a non-failed item is refused (never silently unchecks done work)
    rein(&env, &env.repo)
        .args(["retry", "1"])
        .ran()
        .failure()
        .stderr(contains("not failed"));
}

#[test]
fn mutation_gate_refuses_ambiguous_current() {
    let env = setup();
    init(&env);
    for title in ["one", "two"] {
        rein(&env, &env.repo)
            .args(["new", title])
            .ran()
            .success();
        let path = store_root(&env).join("inbox").join(format!("{}.md", title));
        let content =
            read(&path).replace("## Tasks\n", "## Tasks\n\n- [ ] <!-- task:1 --> Do thing\n");
        write(path, content);
    }
    // two active tasks, current points at the last
    rein(&env, &env.repo)
        .args(["start", "one"])
        .ran()
        .success();
    rein(&env, &env.repo)
        .args(["start", "two"])
        .ran()
        .success();

    rein(&env, &env.repo)
        .args(["note", "hello"])
        .ran()
        .failure()
        .stderr(contains("ambiguous").and(contains("--task")));

    // an explicit --task is never ambiguous
    rein(&env, &env.repo)
        .args(["note", "hello", "--task", "one"])
        .ran()
        .success();
    assert!(read(&store_root(&env).join("active/one.md")).contains("hello"));

    // log uses --item for the checklist id and --task for document selection
    rein(&env, &env.repo)
        .args(["log", "progress", "--item", "1"])
        .ran()
        .failure()
        .stderr(contains("ambiguous").and(contains("--task")));
    rein(&env, &env.repo)
        .args(["log", "progress", "--item", "1", "--task", "two"])
        .ran()
        .success();
    assert!(read(&store_root(&env).join("active/two.md")).contains("Task1: progress"));
    assert!(!read(&store_root(&env).join("active/one.md")).contains("Task1: progress"));

    // query commands are not gated
    rein(&env, &env.repo).arg("current").ran().success();
}

#[test]
fn resolution_order_flag_env_current() {
    let env = setup();
    init(&env);
    rein(&env, &env.repo)
        .args(["new", "one"])
        .ran()
        .success();
    rein(&env, &env.repo)
        .args(["new", "two"])
        .ran()
        .success();
    rein(&env, &env.repo)
        .args(["start", "one"])
        .ran()
        .success();
    let id_one = task_id(&env, "active", "one");
    rein(&env, &env.repo)
        .args(["use", "two"])
        .ran()
        .success();
    let id_two = task_id(&env, "inbox", "two");
    assert_eq!(read(&store_root(&env).join("current")).trim(), id_two);

    // REIN_TASK env (#3) beats current file (#4)
    rein(&env, &env.repo)
        .env("REIN_TASK", &id_one)
        .arg("current")
        .ran()
        .success()
        .stdout(contains(&id_one));

    // --task flag (#1) beats env (#3): note lands in 'two'
    rein(&env, &env.repo)
        .env("REIN_TASK", &id_one)
        .args(["note", "flag wins", "--task", "two"])
        .ran()
        .success();
    assert!(read(&store_root(&env).join("inbox/two.md")).contains("flag wins"));
}

#[test]
fn use_rebinds_worktree_pointer() {
    let env = setup();
    init(&env);
    rein(&env, &env.repo)
        .args(["new", "one"])
        .ran()
        .success();
    rein(&env, &env.repo)
        .args(["new", "two"])
        .ran()
        .success();
    rein(&env, &env.repo)
        .args(["start", "one", "--worktree"])
        .ran()
        .success();
    let wt = store_root(&env).join("worktrees/one");
    let id_two = task_id(&env, "inbox", "two");

    // inside a bound worktree, `use` rewrites the pointer, not the current file
    rein(&env, &wt).args(["use", "two"]).ran().success();
    assert_eq!(
        read(&env.repo.join(".git/worktrees/one/rein-task")).trim(),
        id_two
    );
    assert!(!store_root(&env).join("current").is_there());
}

#[test]
fn done_preflight_and_worktree_cleanup() {
    let env = setup();
    init(&env);
    rein(&env, &env.repo)
        .args(["new", "dirty job"])
        .ran()
        .success();
    rein(&env, &env.repo)
        .args(["start", "dirty-job", "--worktree"])
        .ran()
        .success();
    let wt = store_root(&env).join("worktrees/dirty-job");

    // dirty worktree → pre-flight refuses, nothing moved
    write(wt.join("junk.txt"), "wip");
    rein(&env, &env.repo)
        .args(["done", "dirty-job"])
        .ran()
        .failure()
        .stderr(contains("uncommitted"));
    assert!(store_root(&env).join("active/dirty-job.md").is_there());

    // commit → clean → done succeeds, doc lands in done/YYYY-MM, worktree removed
    git(&env.home, &wt, &["add", "."]);
    git(&env.home, &wt, &["commit", "-m", "wip"]);
    rein(&env, &env.repo)
        .args(["done", "dirty-job"])
        .ran()
        .success();
    assert!(!wt.is_there(), "worktree should be removed");
    let month = chrono::Local::now().format("%Y-%m").to_string();
    assert!(store_root(&env)
        .join("done")
        .join(&month)
        .join("dirty-job.md")
        .is_there());
    let doc = read(
        &store_root(&env)
            .join("done")
            .join(&month)
            .join("dirty-job.md"),
    );
    assert!(doc.contains("status: done"));
}

#[test]
fn done_keep_worktree() {
    let env = setup();
    init(&env);
    rein(&env, &env.repo)
        .args(["new", "keepwt"])
        .ran()
        .success();
    rein(&env, &env.repo)
        .args(["start", "keepwt", "--worktree"])
        .ran()
        .success();
    let wt = store_root(&env).join("worktrees/keepwt");
    write(wt.join("junk.txt"), "wip");
    rein(&env, &env.repo)
        .args(["done", "keepwt", "--keep-worktree"])
        .ran()
        .success();
    assert!(wt.is_there(), "worktree should be kept");
    let month = chrono::Local::now().format("%Y-%m").to_string();
    assert!(store_root(&env)
        .join("done")
        .join(&month)
        .join("keepwt.md")
        .is_there());
}

#[test]
fn cancel_force_discards_dirty_worktree() {
    let env = setup();
    init(&env);
    rein(&env, &env.repo)
        .args(["new", "byebye"])
        .ran()
        .success();
    rein(&env, &env.repo)
        .args(["start", "byebye", "--worktree"])
        .ran()
        .success();
    let wt = store_root(&env).join("worktrees/byebye");
    write(wt.join("junk.txt"), "wip");

    rein(&env, &env.repo)
        .args(["cancel", "byebye"])
        .ran()
        .failure()
        .stderr(contains("--force"));

    rein(&env, &env.repo)
        .args(["cancel", "byebye", "--force"])
        .ran()
        .success();
    assert!(!wt.is_there());
    assert!(store_root(&env).join("canceled/byebye.md").is_there());
}

#[test]
fn delete_removes_inbox_task_files() {
    let env = setup();
    init(&env);
    let root = store_root(&env);
    rein(&env, &env.repo)
        .args(["new", "scratch"])
        .ran()
        .success();
    rein(&env, &env.repo)
        .args(["start", "scratch"])
        .ran()
        .success(); // single mode → current pointer
    let id = task_id(&env, "active", "scratch");
    assert_eq!(read(&root.join("current")).trim(), id);

    // delete a task with no worktree → doc, state, and current pointer all gone
    rein(&env, &env.repo)
        .args(["delete", "scratch"])
        .ran()
        .success()
        .stdout(contains("deleted").and(contains(&id)));
    assert!(!root.join("active/scratch.md").is_there());
    assert!(!root.join("state").join(format!("{}.json", id)).is_there());
    assert!(
        !root.join("current").is_there(),
        "current pointer must be cleared"
    );

    // deleting a vanished task errors
    rein(&env, &env.repo)
        .args(["delete", "scratch"])
        .ran()
        .failure()
        .stderr(contains("no task matches"));
}

#[test]
fn delete_refuses_dirty_worktree_unless_forced() {
    let env = setup();
    init(&env);
    rein(&env, &env.repo)
        .args(["new", "wt task"])
        .ran()
        .success();
    rein(&env, &env.repo)
        .args(["start", "wt-task", "--worktree"])
        .ran()
        .success();
    let wt = store_root(&env).join("worktrees/wt-task");
    write(wt.join("junk.txt"), "wip");

    // a dirty worktree blocks deletion without --force; nothing is removed
    rein(&env, &env.repo)
        .args(["delete", "wt-task"])
        .ran()
        .failure()
        .stderr(contains("--force"));
    assert!(wt.is_there(), "worktree must survive a refused delete");
    assert!(store_root(&env).join("active/wt-task.md").is_there());

    // --force discards the worktree and removes every record
    let id = task_id(&env, "active", "wt-task");
    rein(&env, &env.repo)
        .args(["delete", "wt-task", "--force"])
        .ran()
        .success()
        .stdout(contains("removed worktree"));
    assert!(!wt.is_there());
    assert!(!store_root(&env).join("active/wt-task.md").is_there());
    assert!(!store_root(&env)
        .join("state")
        .join(format!("{}.json", id))
        .is_there());
}

#[test]
fn move_transitions_any_direction_without_side_effects() {
    let env = setup();
    init(&env);
    let root = store_root(&env);
    rein(&env, &env.repo)
        .args(["new", "wander"])
        .ran()
        .success();

    // inbox → active is a plain relocation: no current pointer, no worktree
    rein(&env, &env.repo)
        .args(["move", "wander", "active"])
        .ran()
        .success()
        .stdout(contains("moved wander inbox → active"));
    assert!(root.join("active/wander.md").is_there());
    assert!(!root.join("inbox/wander.md").is_there());
    assert!(read(&root.join("active/wander.md")).contains("status: active"));
    assert!(
        !root.join("current").is_there(),
        "move must not claim current"
    );

    // active → done, then the previously-impossible backward hop done → inbox
    rein(&env, &env.repo)
        .args(["move", "wander", "done"])
        .ran()
        .success();
    let month = chrono::Local::now().format("%Y-%m").to_string();
    assert!(root.join("done").join(&month).join("wander.md").is_there());

    rein(&env, &env.repo)
        .args(["move", "wander", "inbox"])
        .ran()
        .success()
        .stdout(contains("done → inbox"));
    assert!(root.join("inbox/wander.md").is_there());
    assert!(read(&root.join("inbox/wander.md")).contains("status: inbox"));

    // state path cache follows the file
    let id = task_id(&env, "inbox", "wander");
    let st = read(&root.join("state").join(format!("{}.json", id)));
    assert!(st.contains("inbox/wander.md"));

    // guards: same-state and unknown-state are rejected
    rein(&env, &env.repo)
        .args(["move", "wander", "inbox"])
        .ran()
        .failure()
        .stderr(contains("already inbox"));
    rein(&env, &env.repo)
        .args(["move", "wander", "nope"])
        .ran()
        .failure()
        .stderr(contains("unknown status"));
}

#[test]
fn doctor_rebuilds_state_and_fixes_drift() {
    let env = setup();
    init(&env);
    rein(&env, &env.repo)
        .args(["new", "alpha"])
        .ran()
        .success();
    rein(&env, &env.repo)
        .args(["new", "beta"])
        .ran()
        .success();
    let root = store_root(&env);
    let id_alpha = task_id(&env, "inbox", "alpha");

    // simulate damage: drop state/, stale current, manual move with stale frontmatter
    remove_dir_all(&root.join("state"));
    write(root.join("current"), "task-00000000-ghost\n");
    rename(&root.join("inbox/alpha.md"), &root.join("active/alpha.md"));

    rein(&env, &env.repo)
        .arg("doctor")
        .ran()
        .success()
        .stdout(
            contains("fixed status: alpha -> active")
                .and(contains("cleared stale current"))
                .and(contains("2 tasks ok")),
        );

    // state regenerated for both, frontmatter fixed, current cleared
    assert!(root
        .join("state")
        .join(format!("{}.json", id_alpha))
        .is_file());
    assert!(read(&root.join("active/alpha.md")).contains("status: active"));
    assert!(!root.join("current").is_there());
}

#[test]
fn root_prints_store_path() {
    let env = setup();
    init(&env);
    let expected = store_root(&env);
    rein(&env, &env.repo)
        .arg("root")
        .ran()
        .success()
        .stdout(contains(expected.display()));
}

#[test]
fn status_reports_counts() {
    let env = setup();
    init(&env);
    rein(&env, &env.repo)
        .args(["new", "one"])
        .ran()
        .success();
    rein(&env, &env.repo)
        .args(["start", "one"])
        .ran()
        .success();
    rein(&env, &env.repo)
        .arg("status")
        .ran()
        .success()
        .stdout(
            contains("via current")
                .and(contains("active    1"))
                .and(contains("inbox     0")),
        );
}

// ---------------------------------------------------------------------------
// Phase 2: shared inbox via GitHub issues (fake gh)
// ---------------------------------------------------------------------------

#[test]
fn issue_publishes_projection_and_assigns_ids() {
    let env = setup();
    init(&env);
    let gh = fake_gh(&env);
    rein(&env, &env.repo)
        .args(["new", "demo"])
        .ran()
        .success();
    seed_items(&env, "demo");

    let mut c = rein(&env, &env.repo);
    gh.apply(&mut c);
    c.args(["issue", "demo"])
        .ran()
        .success()
        .stdout(contains("issue #41"));

    // stable integer IDs assigned at the issue touchpoint (single sequence)
    let doc = read(&store_root(&env).join("inbox/demo.md"));
    assert!(doc.contains("- [ ] <!-- task:1 --> Do thing one"));
    assert!(doc.contains("- [ ] <!-- task:2 --> Add tests later"));
    assert!(doc.contains("- [ ] <!-- task:3 --> Tests pass"));
    assert!(doc.contains("github_issue: 41"));

    // published body: markers, content, no frontmatter, no Agent Log
    let body = read(&gh.create_body);
    let id = task_id(&env, "inbox", "demo");
    assert!(body.contains(&format!("<!-- rein:begin {} -->", id)));
    assert!(body.trim_end().ends_with("<!-- rein:end -->"));
    assert!(body.contains("Do thing one"));
    assert!(!body.contains("Agent Log"));
    assert!(!body.contains("id: task-"));

    // label + create were called
    let log = gh.log_text();
    assert!(log.contains("label create rein"));
    assert!(log.contains("issue create --title demo"));

    // synced hash recorded
    let st = read(&store_root(&env).join("state").join(format!("{}.json", id)));
    assert!(st.contains("issue_synced_hash"));

    // publishing twice is refused
    let mut c = rein(&env, &env.repo);
    gh.apply(&mut c);
    c.args(["issue", "demo"])
        .ran()
        .failure()
        .stderr(contains("already issue #41"));
}

#[test]
fn issue_with_project_flag_files_onto_board() {
    let env = setup();
    init(&env);
    let gh = fake_gh(&env);
    rein(&env, &env.repo)
        .args(["new", "demo"])
        .ran()
        .success();
    seed_items(&env, "demo");

    // --project passes the board name through to `gh issue create --project`
    let mut c = rein(&env, &env.repo);
    gh.apply(&mut c);
    c.args(["issue", "demo", "--project", "Roadmap"])
        .ran()
        .success()
        .stdout(contains("issue #41"));

    assert!(
        gh.log_text().contains("--project Roadmap"),
        "gh log: {}",
        gh.log_text()
    );
    assert!(read(&store_root(&env).join("inbox/demo.md")).contains("github_issue: 41"));
}

#[test]
fn push_local_change_preserves_human_text() {
    let env = setup();
    init(&env);
    let gh = fake_gh(&env);
    rein(&env, &env.repo)
        .args(["new", "demo"])
        .ran()
        .success();
    seed_items(&env, "demo");
    let mut c = rein(&env, &env.repo);
    gh.apply(&mut c);
    c.args(["issue", "demo"]).ran().success();
    rein(&env, &env.repo)
        .args(["use", "demo"])
        .ran()
        .success();

    // remote = exactly what we published, plus human text outside markers
    let published = read(&gh.create_body);
    gh.set_issue_view_body(&format!("human intro\n\n{}\n\nhuman outro", published));

    // local change
    rein(&env, &env.repo)
        .args(["check", "1"])
        .ran()
        .success();

    let mut c = rein(&env, &env.repo);
    gh.apply(&mut c);
    c.arg("push")
        .ran()
        .success()
        .stdout(contains("issue #41: pushed"));

    let edited = read(&gh.edit_body);
    assert!(edited.contains("human intro"));
    assert!(edited.contains("human outro"));
    assert!(edited.contains("- [x] <!-- task:1 --> Do thing one"));

    // second push: up to date
    gh.set_issue_view_body(&edited);
    let mut c = rein(&env, &env.repo);
    gh.apply(&mut c);
    c.arg("push")
        .ran()
        .success()
        .stdout(contains("up to date"));
}

#[test]
fn pull_applies_remote_change_and_keeps_log() {
    let env = setup();
    init(&env);
    let gh = fake_gh(&env);
    rein(&env, &env.repo)
        .args(["new", "demo"])
        .ran()
        .success();
    seed_items(&env, "demo");
    let mut c = rein(&env, &env.repo);
    gh.apply(&mut c);
    c.args(["issue", "demo"]).ran().success();
    rein(&env, &env.repo)
        .args(["use", "demo"])
        .ran()
        .success();
    rein(&env, &env.repo)
        .args(["note", "local progress note"])
        .ran()
        .success();

    // remote edited the managed section (a human reworded an item on GitHub)
    let published = read(&gh.create_body);
    gh.set_issue_view_body(&published.replace("Do thing one", "Do thing one EDITED"));

    // wait: local also changed (the log) — but Agent Log is outside the projection,
    // so local projection hash == base and this is a clean Pull.
    let mut c = rein(&env, &env.repo);
    gh.apply(&mut c);
    c.arg("pull")
        .ran()
        .success()
        .stdout(contains("updated from remote"));

    let doc = read(&store_root(&env).join("inbox/demo.md"));
    assert!(doc.contains("Do thing one EDITED"));
    assert!(
        doc.contains("local progress note"),
        "Agent Log must survive pull"
    );

    // pulling again: up to date
    let mut c = rein(&env, &env.repo);
    gh.apply(&mut c);
    c.arg("pull")
        .ran()
        .success()
        .stdout(contains("up to date"));
}

#[test]
fn conflict_detected_then_resolved() {
    let env = setup();
    init(&env);
    let gh = fake_gh(&env);
    rein(&env, &env.repo)
        .args(["new", "demo"])
        .ran()
        .success();
    seed_items(&env, "demo");
    let mut c = rein(&env, &env.repo);
    gh.apply(&mut c);
    c.args(["issue", "demo"]).ran().success();
    rein(&env, &env.repo)
        .args(["use", "demo"])
        .ran()
        .success();

    // both sides diverge
    let published = read(&gh.create_body);
    gh.set_issue_view_body(&published.replace("Do thing one", "Do thing one REMOTE"));
    rein(&env, &env.repo)
        .args(["check", "1"])
        .ran()
        .success();

    let mut c = rein(&env, &env.repo);
    gh.apply(&mut c);
    c.arg("push")
        .ran()
        .failure()
        .stderr(contains("conflict"));

    let root = store_root(&env);
    let local_backup = read(&root.join("conflicts/demo.local.md"));
    let remote_backup = read(&root.join("conflicts/demo.remote.md"));
    assert!(local_backup.contains("- [x]"));
    assert!(remote_backup.contains("REMOTE"));

    // user resolves locally, force-pushes
    let mut c = rein(&env, &env.repo);
    gh.apply(&mut c);
    c.args(["push", "--resolved"])
        .ran()
        .success()
        .stdout(contains("pushed"));
    assert!(!root.join("conflicts/demo.local.md").is_there());
    assert!(!root.join("conflicts/demo.remote.md").is_there());
    assert!(read(&gh.edit_body).contains("- [x]"));
}

#[test]
fn pull_inbox_is_idempotent() {
    let env = setup();
    init(&env);
    let gh = fake_gh(&env);

    // one tool-owned issue (marker carries the id), one human-created issue
    let marker_body =
        "<!-- rein:begin task-20260601-remote-made -->\n\n## Goal\n\nFrom remote\n\n<!-- rein:end -->";
    let list = listed(&[
        (101, "Remote made", marker_body),
        (102, "Human Idea", "just an idea, no markers"),
    ]);
    write(&gh.issue_list, list);

    let mut c = rein(&env, &env.repo);
    gh.apply(&mut c);
    c.arg("pull-inbox")
        .ran()
        .success()
        .stdout(contains("2 imported"));

    let root = store_root(&env);
    // marker id adopted verbatim — no new id minted
    let doc = read(&root.join("inbox/remote-made.md"));
    assert!(doc.contains("id: task-20260601-remote-made"));
    assert!(doc.contains("github_issue: 101"));
    assert!(doc.contains("From remote"));
    // human issue gets a fresh id
    let doc2 = read(&root.join("inbox/human-idea.md"));
    assert!(doc2.contains("github_issue: 102"));
    assert!(doc2.contains("just an idea"));

    // run again → converges, no duplicates
    let mut c = rein(&env, &env.repo);
    gh.apply(&mut c);
    c.arg("pull-inbox")
        .ran()
        .success()
        .stdout(contains("0 imported"));
    let count = entries(&root.join("inbox"));
    assert_eq!(count, 2, "pull-inbox must not duplicate tasks");
}

#[test]
fn attach_issue_links_and_hints() {
    let env = setup();
    init(&env);
    rein(&env, &env.repo)
        .args(["new", "demo"])
        .ran()
        .success();
    rein(&env, &env.repo)
        .args(["use", "demo"])
        .ran()
        .success();
    rein(&env, &env.repo)
        .args(["attach-issue", "55"])
        .ran()
        .success()
        .stdout(contains("rein pull").and(contains("--resolved")));
    assert!(read(&store_root(&env).join("inbox/demo.md")).contains("github_issue: 55"));
}

// ---------------------------------------------------------------------------
// Phase 3: PR body integration (fake gh)
// ---------------------------------------------------------------------------

#[test]
fn attach_pr_push_renders_managed_section_with_folded_log() {
    let env = setup();
    init(&env);
    let gh = fake_gh(&env);
    rein(&env, &env.repo)
        .args(["new", "demo"])
        .ran()
        .success();
    seed_items(&env, "demo");
    rein(&env, &env.repo)
        .args(["use", "demo"])
        .ran()
        .success();
    rein(&env, &env.repo)
        .args(["note", "agent did a thing"])
        .ran()
        .success();
    rein(&env, &env.repo)
        .args(["attach-pr", "7"])
        .ran()
        .success();

    gh.set_pr_view_body("Human notes stay.\n");
    let mut c = rein(&env, &env.repo);
    gh.apply(&mut c);
    c.arg("push")
        .ran()
        .success()
        .stdout(contains("PR #7: pushed"));

    let body = read(&gh.pr_edit_body);
    assert!(body.contains("Human notes stay."));
    assert!(body.contains("<details>"));
    assert!(body.contains("agent did a thing"));
    assert!(body.contains("Do thing one"));
    let id = task_id(&env, "inbox", "demo");
    assert!(body.contains(&format!("<!-- rein:begin {} -->", id)));
}

#[test]
fn start_draft_pr_warns_without_commits() {
    let env = setup();
    init(&env);
    let gh = fake_gh(&env);
    rein(&env, &env.repo)
        .args(["new", "feat"])
        .ran()
        .success();
    // a freshly claimed branch has no commits → PR creation warns, none is made
    let mut c = rein(&env, &env.repo);
    gh.apply(&mut c);
    c.args(["start", "feat", "--worktree", "--draft-pr"])
        .ran()
        .failure()
        .stderr(contains("no commits on 'feat'"));
    // the task is still claimed + the worktree set up; only the PR is skipped
    assert!(store_root(&env).join("worktrees/feat").is_dir());
    assert!(!read(&store_root(&env).join("active/feat.md")).contains("github_pr: 7"));
}

#[test]
fn pr_inbox_worktree_warns_without_commits() {
    let env = setup();
    init(&env);
    rein(&env, &env.repo)
        .args(["new", "feat"])
        .ran()
        .success();
    // the worktree is created under the store, but with no commits the PR warns
    rein(&env, &env.repo)
        .args(["pr", "feat", "--worktree"])
        .ran()
        .failure()
        .stderr(
            contains("no commits on 'feat'")
                .and(contains("rein pr")),
        );
    assert!(
        store_root(&env).join("worktrees/feat").is_dir(),
        "worktree not under store"
    );
    assert!(
        !env.tmp.join("proj-wt/feat").is_there(),
        "should not litter parent dir"
    );
    assert!(!read(&store_root(&env).join("active/feat.md")).contains("github_pr: 7"));
}

#[test]
fn pr_branch_mode_creates_branch_but_warns_without_commits() {
    let env = setup();
    init(&env);
    rein(&env, &env.repo)
        .args(["new", "alpha"])
        .ran()
        .success();
    rein(&env, &env.repo)
        .args(["pr", "alpha"])
        .ran()
        .failure()
        .stderr(contains("no commits on 'alpha'"));
    // the branch was created + checked out in the main repo even though PR warned
    assert!(!store_root(&env).join("worktrees/alpha").is_there());
    let branch = git(&env.home, &env.repo, &["rev-parse", "--abbrev-ref", "HEAD"]);
    assert_eq!(branch, "alpha");
}

#[test]
fn pr_pushes_branch_and_opens_draft_when_commits_exist() {
    let env = setup();
    init(&env);
    add_origin(&env);
    let gh = fake_gh(&env);
    rein(&env, &env.repo)
        .args(["new", "beta"])
        .ran()
        .success();
    rein(&env, &env.repo)
        .args(["start", "beta", "--worktree"])
        .ran()
        .success();
    // do work in the worktree so the branch has a commit ahead of main
    commit_in(
        &env,
        &store_root(&env).join("worktrees/beta"),
        "feature.txt",
        "work",
    );
    // active task with commits → push the branch + open the draft PR
    let mut c = rein(&env, &env.repo);
    gh.apply(&mut c);
    c.args(["pr", "beta"])
        .ran()
        .success()
        .stdout(contains("draft PR: #7"));
    assert!(read(&store_root(&env).join("active/beta.md")).contains("github_pr: 7"));
    assert!(gh.log_text().contains("pr create --draft"));
    // the branch was pushed to origin
    let remotes = git(&env.home, &env.repo, &["branch", "-r"]);
    assert!(
        remotes.contains("origin/beta"),
        "branch not pushed: {}",
        remotes
    );
    // a second PR is refused
    let mut c2 = rein(&env, &env.repo);
    gh.apply(&mut c2);
    c2.args(["pr", "beta"])
        .ran()
        .failure()
        .stderr(contains("already has PR #7"));
}

#[test]
fn pr_body_is_resolves_when_task_is_issue_linked() {
    let env = setup();
    init(&env);
    add_origin(&env);
    let gh = fake_gh(&env);
    rein(&env, &env.repo)
        .args(["new", "gamma"])
        .ran()
        .success();
    // link an issue to the task, then start it in a worktree with a commit
    rein(&env, &env.repo)
        .args(["use", "gamma"])
        .ran()
        .success();
    rein(&env, &env.repo)
        .args(["attach-issue", "41"])
        .ran()
        .success();
    let mut c = rein(&env, &env.repo);
    gh.apply(&mut c);
    c.args(["start", "gamma", "--worktree"]).ran().success();
    commit_in(
        &env,
        &store_root(&env).join("worktrees/gamma"),
        "feature.txt",
        "work",
    );

    // the issue already holds the managed task description, so the PR body is just
    // GitHub's closing keyword — no duplicated task block
    let mut c = rein(&env, &env.repo);
    gh.apply(&mut c);
    c.args(["pr", "gamma"])
        .ran()
        .success()
        .stdout(contains("draft PR: #7"));
    let body = read(&gh.pr_create_body);
    assert_eq!(body.trim(), "resolves #41", "issue-linked PR body");
    assert!(
        !body.contains("rein:begin"),
        "PR body must not duplicate the managed block"
    );

    // Subsequent pushes keep the PR unmanaged; only the issue surface receives the block.
    gh.set_issue_view_body("issue notes stay.\n");
    let mut c = rein(&env, &env.repo);
    gh.apply(&mut c);
    c.arg("push").ran().success().stdout(
        contains("issue #41: pushed")
            .and(contains("PR #7: unmanaged")),
    );
    let log = gh.log_text();
    assert!(log.contains("issue edit 41"), "log: {}", log);
    assert!(!log.contains("pr edit 7"), "log: {}", log);
    assert!(
        !gh.pr_edit_body.is_there(),
        "issue-linked PR body must not be edited"
    );
}

#[test]
fn pr_reports_actionable_error_when_branch_exists() {
    let env = setup();
    init(&env);
    rein(&env, &env.repo)
        .args(["new", "dup"])
        .ran()
        .success();
    // a leftover branch from an earlier run collides with the task slug
    git(&env.home, &env.repo, &["branch", "dup"]);
    rein(&env, &env.repo)
        .args(["pr", "dup", "--worktree"])
        .ran()
        .failure()
        .stderr(
            contains("branch 'dup' already exists")
                .and(contains("git branch -D dup")),
        );
}

#[test]
fn run_launches_agent_in_worktree_with_task_env() {
    let env = setup();
    init(&env);
    rein(&env, &env.repo)
        .args(["new", "job"])
        .ran()
        .success();
    rein(&env, &env.repo)
        .args(["start", "job", "--worktree"])
        .ran()
        .success();
    let marker = env.bin_dir.join("run_marker.txt");
    let mut c = rein(&env, &env.repo);
    c.env(
        "REIN_RUN_CMD",
        format!(
            "printf '%s|%s' \"$REIN_TASK\" \"$REIN_DIR\" > {}",
            marker.display()
        ),
    );
    c.args(["run", "job"])
        .ran()
        .success()
        .stdout(contains("running"));
    let content = wait_for(&marker);
    let id = task_id(&env, "active", "job");
    assert!(content.contains(&id), "REIN_TASK not set: {}", content);
    assert!(
        content.contains("worktrees/job"),
        "REIN_DIR not the worktree: {}",
        content
    );
}

#[test]
fn run_without_worktree_uses_repo_root_and_warns() {
    let env = setup();
    init(&env);
    rein(&env, &env.repo)
        .args(["new", "solo"])
        .ran()
        .success();
    rein(&env, &env.repo)
        .args(["start", "solo"])
        .ran()
        .success(); // single mode, no worktree
    let marker = env.bin_dir.join("run_marker2.txt");
    let mut c = rein(&env, &env.repo);
    c.env(
        "REIN_RUN_CMD",
        format!("printf '%s' \"$REIN_DIR\" > {}", marker.display()),
    );
    c.args(["run", "solo"])
        .ran()
        .success()
        .stdout(contains("edits are not isolated"));
    let content = wait_for(&marker);
    assert!(
        !content.contains("worktrees/"),
        "should run in the repo root, got: {}",
        content
    );
}

#[test]
fn run_installs_skill_at_user_level_without_touching_repo() {
    let env = setup();
    init(&env);
    rein(&env, &env.repo)
        .args(["new", "job"])
        .ran()
        .success();
    rein(&env, &env.repo)
        .args(["start", "job", "--worktree"])
        .ran()
        .success();
    let user_skill = env.home.join(format!(".{}/skills/run-rein-task/SKILL.md", agent_name()));
    let wt_skill = store_root(&env).join(format!("worktrees/job/.{}/skills/run-rein-task/SKILL.md", agent_name()));
    assert!(
        !user_skill.is_there(),
        "precondition: no user-level skill yet"
    );
    rein(&env, &env.repo)
        .env("REIN_RUN_CMD", "true")
        .args(["run", "job"])
        .ran()
        .success()
        .stdout(contains("installed run-rein-task skill"));
    // installed globally for any worktree, but the repo/worktree stays clean
    assert!(
        user_skill.is_there(),
        "skill should be installed at the user level"
    );
    assert!(
        !wt_skill.is_there(),
        "run must not add skill files to the repo worktree"
    );
}

#[test]
fn run_captures_bg_session_id_for_logs() {
    let env = setup();
    init(&env);
    rein(&env, &env.repo)
        .args(["new", "job"])
        .ran()
        .success();
    rein(&env, &env.repo)
        .args(["start", "job", "--worktree"])
        .ran()
        .success();
    // fake agent prints the id of its session; rein parses it out
    rein(&env, &env.repo)
        .env("REIN_RUN_CMD", "printf 'backgrounded abcd1234 rein:job\\n'")
        .args(["run", "job"])
        .ran()
        .success()
        .stdout(contains("backgrounded").and(contains("abcd1234")));
    let id = task_id(&env, "active", "job");
    let state = read(&store_root(&env).join("state").join(format!("{}.json", id)));
    assert!(
        state.contains("abcd1234"),
        "session id not recorded: {}",
        state
    );
    // `rein logs` surfaces the id + the agent's own viewers
    rein(&env, &env.repo)
        .args(["logs", "job"])
        .ran()
        .success()
        .stdout(contains(format!("{} attach abcd1234", agent_name())));
}

#[test]
fn run_can_background_codex_command() {
    let env = setup();
    init(&env);
    rein(&env, &env.repo)
        .args(["new", "job"])
        .ran()
        .success();
    rein(&env, &env.repo)
        .args(["start", "job", "--worktree"])
        .ran()
        .success();
    let marker = env.bin_dir.join("codex_marker.txt");
    rein(&env, &env.repo)
        .env("REIN_RUN_AGENT", "codex")
        .env(
            "REIN_RUN_CMD",
            format!(
                "printf '%s|%s|%s' \"$REIN_TASK\" \"$REIN_DIR\" \"$REIN_PROMPT\" > {}; printf '\\n{{\"type\":\"thread.started\",\"thread_id\":\"codex-thread-1\"}}\\n'",
                marker.display()
            ),
        )
        .args(["run", "job"])
        .ran()
        .success()
        .stdout(contains("backgrounded codex pid"));

    let content = wait_for(&marker);
    let id = task_id(&env, "active", "job");
    assert!(content.contains(&id), "REIN_TASK not set: {}", content);
    assert!(
        content.contains("worktrees/job"),
        "REIN_DIR not the worktree: {}",
        content
    );
    assert!(
        content.contains("rein todo"),
        "REIN_PROMPT missing task instructions: {}",
        content
    );

    let state = read(&store_root(&env).join("state").join(format!("{}.json", id)));
    assert!(
        state.contains(r#""run_agent": "codex""#),
        "run agent not recorded: {}",
        state
    );
    assert!(
        state.contains(r#""run_log""#),
        "codex log not recorded: {}",
        state
    );

    rein(&env, &env.repo)
        .args(["logs", "job"])
        .ran()
        .success()
        .stdout(
            contains("codex pid")
                .and(contains("tail -f"))
                .and(contains(
                    "codex resume --include-non-interactive codex-thread-1",
                ))
                .and(contains(
                    "codex exec resume codex-thread-1 \"<prompt>\"",
                )),
        );
}

#[test]
fn logs_reports_stopped_codex_run_when_status_file_is_missing() {
    let env = setup();
    init(&env);
    rein(&env, &env.repo)
        .args(["new", "job"])
        .ran()
        .success();
    rein(&env, &env.repo)
        .args(["start", "job"])
        .ran()
        .success();
    let id = task_id(&env, "active", "job");
    let root = store_root(&env);
    let log = root.join("runs/missing_status.log");
    
    write(
        &log,
        r#"{"type":"thread.started","thread_id":"stopped-codex-thread"}"#);
    let missing_status = root.join("runs/missing_status.status");
    write(
        root.join("state").join(format!("{}.json", id)),
        state_json(&TaskState {
            version: 1,
            path: "active/job.md".into(),
            branch: Some("main".into()),
            worktree: None,
            issue_synced_hash: None,
            pr_synced_hash: None,
            run_session: Some("999999999".into()),
            run_agent: Some("codex".into()),
            run_log: Some(log.display()),
            run_status: Some(missing_status.display()),
        }),
    );

    rein(&env, &env.repo)
        .args(["logs", "job"])
        .ran()
        .success()
        .stdout(
            contains("state stopped")
                .and(contains("warning status file missing"))
                .and(contains(
                    "codex resume --include-non-interactive stopped-codex-thread",
                )),
        )
        .stderr(contains("kill:").not());
}

#[test]
fn run_infers_codex_backend_from_run_cmd() {
    let env = setup();
    init(&env);
    rein(&env, &env.repo)
        .args(["new", "job"])
        .ran()
        .success();
    rein(&env, &env.repo)
        .args(["start", "job", "--worktree"])
        .ran()
        .success();
    let marker = env.bin_dir.join("fake_codex_marker.txt");
    rein(&env, &env.repo)
        .env("REIN_RUN_CMD", format!("codex {}", marker.display()))
        .args(["run", "job"])
        .ran()
        .success()
        .stdout(contains("backgrounded codex pid"));

    let id = task_id(&env, "active", "job");
    assert_eq!(wait_for(&marker), id);
    let state = read(&store_root(&env).join("state").join(format!("{}.json", id)));
    assert!(
        state.contains(r#""run_agent": "codex""#),
        "run agent not inferred: {}",
        state
    );
}

#[test]
fn run_default_codex_command_separates_prompt_from_options() {
    let env = setup();
    init(&env);
    rein(&env, &env.repo)
        .args(["new", "job"])
        .ran()
        .success();
    rein(&env, &env.repo)
        .args(["start", "job", "--worktree"])
        .ran()
        .success();
    let marker = env.bin_dir.join("default_codex_args.txt");
    rein(&env, &env.repo)
        .env("REIN_RUN_AGENT", "codex")
        .env("CODEX_ARG_LOG", marker.display())
        .args(["run", "job"])
        .ran()
        .success()
        .stdout(contains("backgrounded codex pid"));

    let args = wait_for(&marker);
    let root = store_root(&env);
    assert!(
        args.contains(&format!("REIN_ROOT=<{}>\n", root.display())),
        "REIN_ROOT must be exported to Codex runs: {}",
        args
    );
    assert!(
        args.contains(&format!(
            "<exec>\n<--json>\n<--sandbox>\n<danger-full-access>\n<--add-dir>\n<{}>\n<-->\n",
            root.display()
        )),
        "default codex command must grant the rein store and pass `--` before the prompt: {}",
        args
    );
    assert!(
        args.contains("<Use the run-rein-task skill"),
        "default codex prompt must be the executable run prompt: {}",
        args
    );
}

#[test]
fn run_codex_status_file_survives_shell_exit() {
    let env = setup();
    init(&env);
    rein(&env, &env.repo)
        .args(["new", "job"])
        .ran()
        .success();
    rein(&env, &env.repo)
        .args(["start", "job"])
        .ran()
        .success();
    rein(&env, &env.repo)
        .env("REIN_RUN_AGENT", "codex")
        .env("REIN_RUN_CMD", "exit 7")
        .args(["run", "job"])
        .ran()
        .success()
        .stdout(contains("backgrounded codex pid"));

    let id = task_id(&env, "active", "job");
    let state = stored_state(&env, &id);
    let status = state.run_status.as_deref().unwrap();
    assert_eq!(wait_for(&env.at(status)).trim(), "7");
}

#[test]
fn run_codex_marks_successful_exit_incomplete_when_todo_remains() {
    let env = setup();
    init(&env);
    rein(&env, &env.repo)
        .args(["new", "job"])
        .ran()
        .success();
    seed_items(&env, "job");
    rein(&env, &env.repo)
        .args(["start", "job"])
        .ran()
        .success();
    rein(&env, &env.repo)
        .env("REIN_RUN_AGENT", "codex")
        .env("REIN_RUN_CMD", "true")
        .args(["run", "job"])
        .ran()
        .success()
        .stdout(contains("backgrounded codex pid"));

    let id = task_id(&env, "active", "job");
    let state = stored_state(&env, &id);
    let status = state.run_status.as_deref().unwrap();
    assert_eq!(wait_for(&env.at(status)).trim(), "incomplete");

    rein(&env, &env.repo)
        .args(["logs", "job"])
        .ran()
        .success()
        .stdout(
            contains("state incomplete")
                .and(contains("unchecked task items remain")),
        );
    let log = state.run_log.as_deref().unwrap();
    assert!(read(&env.at(log)).contains("rein post-run: unchecked items remain"));
}

#[test]
fn run_codex_marks_unfinished_json_turn_interrupted() {
    let env = setup();
    init(&env);
    rein(&env, &env.repo)
        .args(["new", "job"])
        .ran()
        .success();
    seed_items(&env, "job");
    rein(&env, &env.repo)
        .args(["start", "job"])
        .ran()
        .success();
    rein(&env, &env.repo)
        .env("REIN_RUN_AGENT", "codex")
        .env(
            "REIN_RUN_CMD",
            "printf '%s\n' \
             '{\"type\":\"thread.started\",\"thread_id\":\"codex-thread-1\"}' \
             '{\"type\":\"turn.started\"}' \
             '{\"type\":\"item.started\",\"item\":{\"id\":\"item_1\",\"type\":\"command_execution\",\"status\":\"in_progress\"}}'",
        )
        .args(["run", "job"])
        .ran()
        .success()
        .stdout(contains("backgrounded codex pid"));

    let id = task_id(&env, "active", "job");
    let state = stored_state(&env, &id);
    let status = state.run_status.as_deref().unwrap();
    assert_eq!(wait_for(&env.at(status)).trim(), "interrupted");

    rein(&env, &env.repo)
        .args(["logs", "job"])
        .ran()
        .success()
        .stdout(
            contains("state interrupted")
                .and(contains("codex turn interrupted")),
        );
    let log = state.run_log.as_deref().unwrap();
    assert!(
        read(&env.at(log)).contains("rein post-run: codex turn interrupted before completion")
    );
}

#[test]
fn run_codex_marks_command_result_without_followup_interrupted() {
    let env = setup();
    init(&env);
    rein(&env, &env.repo)
        .args(["new", "job"])
        .ran()
        .success();
    seed_items(&env, "job");
    rein(&env, &env.repo)
        .args(["start", "job"])
        .ran()
        .success();
    rein(&env, &env.repo)
        .env("REIN_RUN_AGENT", "codex")
        .env(
            "REIN_RUN_CMD",
            "printf '%s\n' \
             '{\"type\":\"thread.started\",\"thread_id\":\"codex-thread-1\"}' \
             '{\"type\":\"turn.started\"}' \
             '{\"type\":\"item.completed\",\"item\":{\"id\":\"item_0\",\"type\":\"agent_message\",\"text\":\"Starting.\"}}' \
             '{\"type\":\"item.completed\",\"item\":{\"id\":\"item_1\",\"type\":\"command_execution\",\"command\":\"rein todo\",\"aggregated_output\":\"## Tasks\\n1\\tDo work\\n\",\"exit_code\":0,\"status\":\"completed\"}}'",
        )
        .args(["run", "job"])
        .ran()
        .success()
        .stdout(contains("backgrounded codex pid"));

    let id = task_id(&env, "active", "job");
    let state = stored_state(&env, &id);
    let status = state.run_status.as_deref().unwrap();
    assert_eq!(wait_for(&env.at(status)).trim(), "interrupted");

    rein(&env, &env.repo)
        .args(["logs", "job"])
        .ran()
        .success()
        .stdout(contains("state interrupted"));
}

#[test]
fn run_sets_session_title_with_branch_and_open_task_numbers() {
    let env = setup();
    init(&env);
    rein(&env, &env.repo)
        .args(["new", "job"])
        .ran()
        .success();
    seed_items(&env, "job"); // Tasks: 1,2 · Validation: 3 — all open
    rein(&env, &env.repo)
        .args(["start", "job", "--worktree"])
        .ran()
        .success();
    let marker = env.bin_dir.join("title_marker.txt");
    // the run command sees REIN_TITLE = rein:<branch>:<open numbers>, range-folded
    rein(&env, &env.repo)
        .env(
            "REIN_RUN_CMD",
            format!("printf '%s' \"$REIN_TITLE\" > {}", marker.display()),
        )
        .args(["run", "job"])
        .ran()
        .success();
    assert_eq!(wait_for(&marker), "rein:job:1~3");

    // checking an item drops it from the title — only open items count, and a
    // run of two no longer folds into a range
    rein(&env, &env.repo)
        .args(["check", "1", "--task", "job"])
        .ran()
        .success();
    remove_file(&marker);
    rein(&env, &env.repo)
        .env(
            "REIN_RUN_CMD",
            format!("printf '%s' \"$REIN_TITLE\" > {}", marker.display()),
        )
        .args(["run", "job"])
        .ran()
        .success();
    assert_eq!(wait_for(&marker), "rein:job:2,3");
}

#[test]
fn logs_without_a_run_errors() {
    let env = setup();
    init(&env);
    rein(&env, &env.repo)
        .args(["new", "job"])
        .ran()
        .success();
    rein(&env, &env.repo)
        .args(["start", "job"])
        .ran()
        .success();
    rein(&env, &env.repo)
        .args(["logs", "job"])
        .ran()
        .failure()
        .stderr(contains("no run recorded"));
}

#[test]
fn done_closes_issue_and_leaves_issue_linked_pr_unmanaged() {
    let env = setup();
    init(&env);
    let gh = fake_gh(&env);
    rein(&env, &env.repo)
        .args(["new", "demo"])
        .ran()
        .success();
    seed_items(&env, "demo");
    let mut c = rein(&env, &env.repo);
    gh.apply(&mut c);
    c.args(["issue", "demo"]).ran().success();
    rein(&env, &env.repo)
        .args(["use", "demo"])
        .ran()
        .success();
    rein(&env, &env.repo)
        .args(["attach-pr", "7"])
        .ran()
        .success();
    rein(&env, &env.repo)
        .args(["start", "demo"])
        .ran()
        .success();

    gh.set_pr_view_body("");
    let mut c = rein(&env, &env.repo);
    gh.apply(&mut c);
    c.args(["done", "demo"]).ran().success();

    let log = gh.log_text();
    assert!(log.contains("issue close 41"), "log: {}", log);
    assert!(!log.contains("pr edit 7"), "log: {}", log);
    assert!(
        !gh.pr_edit_body.is_there(),
        "issue-linked PR body must not be edited"
    );

    let month = chrono::Local::now().format("%Y-%m").to_string();
    assert!(store_root(&env)
        .join("done")
        .join(&month)
        .join("demo.md")
        .is_there());
}

#[test]
fn cancel_closes_issue_not_planned() {
    let env = setup();
    init(&env);
    let gh = fake_gh(&env);
    rein(&env, &env.repo)
        .args(["new", "nope"])
        .ran()
        .success();
    let mut c = rein(&env, &env.repo);
    gh.apply(&mut c);
    c.args(["issue", "nope"]).ran().success();

    let mut c = rein(&env, &env.repo);
    gh.apply(&mut c);
    c.args(["cancel", "nope"]).ran().success();
    assert!(gh
        .log_text()
        .contains("issue close 41 --comment Canceled via rein. --reason not planned"));
    assert!(store_root(&env).join("canceled/nope.md").is_there());
}

// ---------------------------------------------------------------------------
// Phase 4: agent integration — full parallel worktree workflow
// ---------------------------------------------------------------------------

#[test]
fn parallel_worktrees_full_workflow() {
    let env = setup();
    init(&env);
    // two tasks, two worktrees, mutations from each cwd stay isolated
    for title in ["job a", "job b"] {
        rein(&env, &env.repo)
            .args(["new", title])
            .ran()
            .success();
    }
    for slug in ["job-a", "job-b"] {
        let path = store_root(&env).join("inbox").join(format!("{}.md", slug));
        let content = read(&path).replace(
            "## Tasks\n",
            &format!("## Tasks\n\n- [ ] <!-- task:work --> work for {}\n", slug),
        );
        write(&path, content);
        rein(&env, &env.repo)
            .args(["start", slug, "--worktree"])
            .ran()
            .success();
    }
    let wt_a = store_root(&env).join("worktrees/job-a");
    let wt_b = store_root(&env).join("worktrees/job-b");

    // each worker mutates "its" task by cwd alone — same item id, no cross-talk
    rein(&env, &wt_a).args(["check", "work"]).ran().success();
    // item-scoped log from a worktree: the bound task resolves by cwd, --item is
    // the item id, and the entry is tagged Task<id>
    rein(&env, &wt_b)
        .args(["log", "b progress", "--item", "work"])
        .ran()
        .success();

    let doc_a = read(&store_root(&env).join("active/job-a.md"));
    let doc_b = read(&store_root(&env).join("active/job-b.md"));
    assert!(doc_a.contains("- [x] <!-- task:work -->"));
    assert!(
        doc_b.contains("- [ ] <!-- task:work -->"),
        "b must stay unchecked"
    );
    assert!(doc_b.contains("b progress"));
    assert!(!doc_a.contains("b progress"));

    // mutation without binding in the main repo is gated (2 active, no current…
    // actually current was never set in worktree mode → resolution fails cleanly)
    rein(&env, &env.repo)
        .args(["note", "lost"])
        .ran()
        .failure();

    // finish both from the parent, explicitly
    write(wt_a.join("result.txt"), "made by worker a");
    rein(&env, &env.repo)
        .args(["done", "job-a"])
        .ran()
        .failure(); // dirty
    git(&env.home, &wt_a, &["add", "-A"]);
    git(&env.home, &wt_a, &["commit", "-m", "a"]);
    rein(&env, &env.repo)
        .args(["done", "job-a"])
        .ran()
        .success();
    rein(&env, &env.repo)
        .args(["cancel", "job-b", "--force"])
        .ran()
        .success();
    assert!(!wt_a.is_there());
    assert!(!wt_b.is_there());
}

// ---------------------------------------------------------------------------
// feat-v3: note, summary, single-mode branch
// ---------------------------------------------------------------------------

#[test]
fn note_appends_a_general_untagged_agent_log_entry() {
    let env = setup();
    init(&env);
    rein(&env, &env.repo)
        .args(["new", "demo"])
        .ran()
        .success();
    seed_items(&env, "demo");
    rein(&env, &env.repo)
        .args(["start", "demo"])
        .ran()
        .success();

    // note appends a plain entry under the Agent Log, not tied to any item
    rein(&env, &env.repo)
        .args(["note", "a cross-cutting observation"])
        .ran()
        .success()
        .stdout(contains("noted in demo"));
    let doc = read(&store_root(&env).join("active/demo.md"));
    let log_pos = doc.find("## Agent Log").unwrap();
    let at = doc
        .find("a cross-cutting observation")
        .expect("note not appended");
    assert!(at > log_pos, "note must land in the Agent Log");
    // the entry carries no `Task<id>:` tag (that is `rein log`'s job)
    let line = doc
        .lines()
        .find(|l| l.contains("a cross-cutting observation"))
        .unwrap();
    assert!(
        !line.contains("Task"),
        "note entry must not be item-tagged: {}",
        line
    );
}

#[test]
fn title_and_goal_set_via_cli() {
    let env = setup();
    init(&env);
    rein(&env, &env.repo)
        .args(["new", "feat x"])
        .ran()
        .success();
    rein(&env, &env.repo)
        .args(["use", "feat-x"])
        .ran()
        .success();
    // title sets the frontmatter; goal replaces the ## Goal section — rein owns
    // the write (the caller never edits the Markdown)
    rein(&env, &env.repo)
        .args(["title", "Polish the feature"])
        .ran()
        .success();
    rein(&env, &env.repo)
        .args(["goal", "Make X usable end to end"])
        .ran()
        .success();
    let doc = read(&store_root(&env).join("inbox/feat-x.md"));
    assert!(doc.contains("title: Polish the feature"));
    assert!(doc.contains("## Goal\n\nMake X usable end to end"));
    // the rest of the scaffolding survives the Goal rewrite
    assert!(doc.contains("## Tasks"));
    assert!(doc.contains("## Agent Log"));
    // empty text is rejected
    rein(&env, &env.repo)
        .args(["goal", "   "])
        .ran()
        .failure()
        .stderr(contains("empty"));
}

#[test]
fn summary_generates_title_and_goal_from_items_via_llm() {
    let env = setup();
    init(&env);
    rein(&env, &env.repo)
        .args(["new", "feat v3"])
        .ran()
        .success();
    seed_items(&env, "feat-v3"); // Tasks: 1,2 · Validation: 3
                                 // a fake LLM: drains the piped prompt, returns the TITLE/GOAL contract
    rein(&env, &env.repo)
        .env(
            "REIN_SUMMARY_CMD",
            "cat >/dev/null; printf 'TITLE: v3 CLI ergonomics\\nGOAL: Round out the v3 CLI.\\nKeep it LLM-safe.\\n'",
        )
        .args(["summary", "feat-v3"])
        .ran()
        .success()
        .stdout(contains("summarized feat-v3"));
    let doc = read(&store_root(&env).join("inbox/feat-v3.md"));
    assert!(
        doc.contains("title: v3 CLI ergonomics"),
        "title not set: {}",
        doc
    );
    assert!(
        doc.contains("## Goal\n\nRound out the v3 CLI.\nKeep it LLM-safe."),
        "goal not set from LLM output: {}",
        doc
    );
    // the items it summarized are left untouched
    assert!(doc.contains("Do thing one"));
}

#[test]
fn summary_refuses_when_there_are_no_items() {
    let env = setup();
    init(&env);
    rein(&env, &env.repo)
        .args(["new", "empty"])
        .ran()
        .success();
    rein(&env, &env.repo)
        .env("REIN_SUMMARY_CMD", "printf 'TITLE: x\\nGOAL: y\\n'")
        .args(["summary", "empty"])
        .ran()
        .failure()
        .stderr(contains("no checklist items"));
}

#[test]
fn start_single_records_the_current_branch_in_frontmatter() {
    let env = setup();
    init(&env);
    rein(&env, &env.repo)
        .args(["new", "solo"])
        .ran()
        .success();
    // single mode claims no new branch — it records the checked-out branch (main)
    rein(&env, &env.repo)
        .args(["start", "solo"])
        .ran()
        .success();
    let doc = read(&store_root(&env).join("active/solo.md"));
    assert!(
        doc.contains("branch: main"),
        "single start should record the current branch: {}",
        doc
    );
    let id = task_id(&env, "active", "solo");
    let st = read(&store_root(&env).join("state").join(format!("{}.json", id)));
    assert!(
        st.contains("\"branch\": \"main\""),
        "state should record the branch: {}",
        st
    );
}

// ---------------------------------------------------------------------------
// Refusals and what they leave
// ---------------------------------------------------------------------------

/// A task that is published, current, and changed on both sides.
fn diverged(env: &Env, gh: &FakeGh) {
    init(env);
    rein(env, &env.repo).args(["new", "demo"]).ran().success();
    seed_items(env, "demo");
    let mut c = rein(env, &env.repo);
    gh.apply(&mut c);
    c.args(["issue", "demo"]).ran().success();
    rein(env, &env.repo).args(["use", "demo"]).ran().success();
    let published = read(&gh.create_body);
    gh.set_issue_view_body(&published.replace("Do thing one", "Do thing one REMOTE"));
    rein(env, &env.repo).args(["check", "1"]).ran().success();
}

#[test]
fn a_refusal_leaves_every_file() {
    let env = setup();
    init(&env);
    rein(&env, &env.repo).args(["new", "job"]).ran().success();
    rein(&env, &env.repo).args(["start", "job", "--worktree"]).ran().success();
    write(store_root(&env).join("worktrees/job/junk.txt"), "wip");
    let before = env.repo.world.borrow().files.clone();
    for args in [["done", "job"], ["cancel", "job"], ["delete", "job"]] {
        rein(&env, &env.repo).args(args).ran().failure();
        assert_eq!(env.repo.world.borrow().files, before);
    }
    rein(&env, &env.repo).args(["move", "job", "active"]).ran().failure();
    assert_eq!(env.repo.world.borrow().files, before);
}

#[test]
fn a_conflict_pushes_nothing() {
    let env = setup();
    let gh = fake_gh(&env);
    diverged(&env, &gh);
    let mut c = rein(&env, &env.repo);
    gh.apply(&mut c);
    c.arg("push").ran().failure().stderr(contains("conflict"));
    assert!(!gh.log_text().contains("issue edit"));
    // a pull is refused in the same way, and keeps the local copy
    let doc = read(&store_root(&env).join("inbox/demo.md"));
    let mut c = rein(&env, &env.repo);
    gh.apply(&mut c);
    c.arg("pull").ran().failure().stderr(contains("conflict"));
    assert_eq!(read(&store_root(&env).join("inbox/demo.md")), doc);
}

#[test]
fn a_remote_edit_is_pulled_before_a_push() {
    let env = setup();
    let gh = fake_gh(&env);
    diverged(&env, &gh);
    rein(&env, &env.repo).args(["uncheck", "1"]).ran().success();
    let mut c = rein(&env, &env.repo);
    gh.apply(&mut c);
    c.arg("push").ran().failure().stderr(contains("run `rein pull` first"));
    assert!(!gh.log_text().contains("issue edit"));
}

#[test]
fn a_block_of_another_task_is_never_overwritten() {
    let env = setup();
    let gh = fake_gh(&env);
    diverged(&env, &gh);
    gh.set_issue_view_body("<!-- rein:begin task-other -->\n\nx\n\n<!-- rein:end -->");
    let mut c = rein(&env, &env.repo);
    gh.apply(&mut c);
    c.args(["push", "--resolved"]).ran().failure().stderr(contains("refusing to overwrite"));
    assert!(!gh.log_text().contains("issue edit"));
}

#[test]
fn a_body_without_a_block_cannot_be_pulled() {
    let env = setup();
    let gh = fake_gh(&env);
    diverged(&env, &gh);
    gh.set_issue_view_body("only human text");
    let mut c = rein(&env, &env.repo);
    gh.apply(&mut c);
    c.arg("pull").ran().failure().stderr(contains("no managed section"));
}

#[test]
fn unlinked_tasks_have_nothing_to_sync() {
    let env = setup();
    init(&env);
    rein(&env, &env.repo).args(["new", "demo"]).ran().success();
    rein(&env, &env.repo).args(["use", "demo"]).ran().success();
    rein(&env, &env.repo).arg("pull").ran().failure().stderr(contains("no attached issue"));
    rein(&env, &env.repo).arg("push").ran().failure().stderr(contains("neither issue nor PR"));
}

#[test]
fn statuses_and_branches_are_checked() {
    let env = setup();
    init(&env);
    rein(&env, &env.repo)
        .args(["list", "--status", "nope"])
        .ran()
        .failure()
        .stderr(contains("unknown status"));
    rein(&env, &env.repo).args(["new", "demo"]).ran().success();
    rein(&env, &env.repo)
        .args(["start", "demo", "--draft-pr"])
        .ran()
        .failure()
        .stderr(contains("--draft-pr requires"));
    rein(&env, &env.repo).args(["move", "demo", "done"]).ran().success();
    rein(&env, &env.repo)
        .args(["start", "demo"])
        .ran()
        .failure()
        .stderr(contains("only inbox tasks can be started"));
    rein(&env, &env.repo)
        .args(["pr", "demo"])
        .ran()
        .failure()
        .stderr(contains("only inbox/active tasks can open a PR"));
}

#[test]
fn the_doctor_is_content_with_its_own_work() {
    let env = setup();
    init(&env);
    rein(&env, &env.repo).args(["new", "alpha"]).ran().success();
    let root = store_root(&env);
    rename(&root.join("inbox/alpha.md"), &root.join("active/alpha.md"));
    write(root.join("state/task-gone.json"), "{}");
    rein(&env, &env.repo).arg("doctor").ran().success().stdout(contains("fixed status"));
    assert!(!root.join("state/task-gone.json").is_there());
    let before = env.repo.world.borrow().files.clone();
    rein(&env, &env.repo)
        .arg("doctor")
        .ran()
        .success()
        .stdout(contains("fixed").not().and(contains("doctor: 1 tasks ok")));
    assert_eq!(env.repo.world.borrow().files, before);
}

#[test]
fn broken_summaries_are_refused() {
    assert!(summary::parse_summary("GOAL: x\n").unwrap_err().contains("TITLE"));
    assert!(summary::parse_summary("TITLE: x\n").unwrap_err().contains("GOAL"));
    assert_eq!(
        summary::parse_summary("noise\nTITLE: a\nGOAL: b\nc\n"),
        Ok((String::from("a"), String::from("b\nc")))
    );
}

// ---------------------------------------------------------------------------
// Runs
// ---------------------------------------------------------------------------

#[test]
fn reports_are_read_without_their_colors() {
    assert_eq!(run::strip_ansi("\u{1b}[32mok\u{1b}[0m."), "ok.");
    assert_eq!(run::parse_session_id("backgrounded abcd1234 x").as_deref(), Some("abcd1234"));
    assert_eq!(run::parse_session_id("nothing here"), None);
}

#[test]
fn codex_events_name_the_thread_and_the_open_turn() {
    let es = run::events("{\"type\":\"thread.started\",\"thread_id\":\"t1\"}\nnot json\n");
    assert_eq!(run::codex_thread(&es).as_deref(), Some("t1"));
    assert!(!run::turn_interrupted(&es));
    assert!(run::turn_interrupted(&run::events("{\"type\":\"turn.started\"}")));
    assert!(!run::turn_interrupted(&run::events(
        "{\"type\":\"turn.started\"}\n{\"type\":\"turn.completed\"}"
    )));
}

#[test]
fn opencode_runs_are_attached_by_their_session() {
    let env = setup();
    init(&env);
    rein(&env, &env.repo).args(["new", "job"]).ran().success();
    rein(&env, &env.repo).args(["start", "job"]).ran().success();
    rein(&env, &env.repo)
        .env("REIN_RUN_AGENT", "opencode")
        .env("REIN_RUN_CMD", "printf '{\"sessionID\":\"ses_1\"}\\n'")
        .args(["run", "job"])
        .ran()
        .success()
        .stdout(contains("backgrounded opencode pid"));
    let st = stored_state(&env, &task_id(&env, "active", "job"));
    let log = read(&env.at(st.run_log.as_deref().unwrap()));
    let es = run::events(&log);
    assert_eq!(run::opencode_session(&es).as_deref(), Some("ses_1"));
    let ctx = env.repo.world.borrow_mut().ctx(&env.repo.at).unwrap();
    let attach = run::attach_command(&ctx, Some("job"), false, &es, &agent_name()).unwrap();
    assert_eq!(attach.program, "opencode");
    assert_eq!(attach.args, vec!["--session", "ses_1"]);
    assert_eq!(attach.dir, "/tmp/proj");
}

// ---------------------------------------------------------------------------
// The dashboard's rows and edits
// ---------------------------------------------------------------------------

#[test]
fn the_dashboard_edits_one_item_at_a_time() {
    let env = setup();
    init(&env);
    rein(&env, &env.repo).args(["new", "demo"]).ran().success();
    seed_items(&env, "demo");
    let path = store_root(&env).join("inbox/demo.md");
    let now = util::now_iso();
    let mut world = env.repo.world.borrow_mut();
    let ctx = world.ctx("/tmp/proj").unwrap();
    let task = ctx.store.find("demo").unwrap();
    world.outcome(&ctx, edits::add_item(&ctx.store, &task, "More", &now)).unwrap();
    let ctx = world.ctx("/tmp/proj").unwrap();
    let task = ctx.store.find("demo").unwrap();
    world.outcome(&ctx, edits::toggle_item(&ctx.store, &task, "1", &now)).unwrap();
    let ctx = world.ctx("/tmp/proj").unwrap();
    let task = ctx.store.find("demo").unwrap();
    world.outcome(&ctx, edits::edit_item(&ctx.store, &task, "2", "Reworded", &now)).unwrap();
    let ctx = world.ctx("/tmp/proj").unwrap();
    let task = ctx.store.find("demo").unwrap();
    world.outcome(&ctx, edits::delete_item(&ctx.store, &task, "4", &now)).unwrap();
    assert!(edits::delete_item(&ctx.store, &task, "99", &now).error.is_some());
    let doc = world.files[&path.at].clone();
    let lines: Vec<&str> = doc.lines().filter(|l| l.starts_with("- [")).collect();
    assert_eq!(lines.len(), 3, "{}", doc);
    assert!(doc.contains("- [x] <!-- task:1 --> Do thing one"));
    assert!(doc.contains("<!-- task:2 --> Reworded"));
    assert!(doc.contains("<!-- task:3 --> More"));
    assert!(!doc.contains("Tests pass"));
}

#[test]
fn rows_carry_the_state_of_their_runs() {
    let env = setup();
    init(&env);
    for title in ["one", "two"] {
        rein(&env, &env.repo).args(["new", title]).ran().success();
        rein(&env, &env.repo).args(["start", title]).ran().success();
    }
    rein(&env, &env.repo)
        .env("REIN_RUN_CMD", "printf 'backgrounded abcd1234 rein:job\\n'")
        .args(["run", "one"])
        .ran()
        .success();
    let ctx = env.repo.world.borrow_mut().ctx(&env.repo.at).unwrap();
    let projects = Store::discover_in(&vec![ctx.store]);
    let sessions = loading::run_states("[{\"id\":\"abcd1234\",\"state\":\"working\"}]");
    let rows = loading::load_all_rows(&projects, &Vec::new(), &sessions);
    assert_eq!(rows.len(), 2);
    assert_eq!(rows[0].run_state.as_deref(), Some("working"));
    assert_eq!(rows[1].run_state, None);
    assert_eq!(rows[0].project, "proj");
    let (at, task) = loading::find_task(&projects, &rows[1].id).unwrap();
    assert_eq!((at, task.slug.as_str()), (0, "two"));
    assert!(loading::find_task(&projects, "ghost").is_none());
}

#[test]
fn todo_shows_the_ids_that_stay() {
    let env = setup();
    init(&env);
    rein(&env, &env.repo).args(["new", "demo"]).ran().success();
    seed_items(&env, "demo");
    rein(&env, &env.repo).args(["start", "demo"]).ran().success();
    let before = rein(&env, &env.repo).args(["todo", "--all"]).ran().success().out;
    rein(&env, &env.repo).args(["check", "1"]).ran().success();
    rein(&env, &env.repo).args(["uncheck", "1"]).ran().success();
    let after = rein(&env, &env.repo).args(["todo", "--all"]).ran().success().out;
    assert_eq!(before, after);
    assert!(before.contains("3\t[ ] Tests pass"));
}

#[test]
fn the_end_of_a_log_is_shown() {
    assert_eq!(run::recent("a\nb\n"), "a\nb");
    let log: String = (0..30).map(|i| format!("line {}\n", i)).collect();
    let shown = run::recent(&log);
    assert_eq!(shown.lines().count(), 20);
    assert!(shown.starts_with("line 10\n") && shown.ends_with("line 29"));
}

#[test]
fn a_new_task_starts_with_a_fresh_state() {
    let env = setup();
    init(&env);
    let id = rein(&env, &env.repo).args(["new", "demo"]).ran().success().out;
    let id = id.lines().next().unwrap().to_string();
    // the document is removed by hand, its state stays behind
    remove_file(&store_root(&env).join("inbox/demo.md"));
    let left = TaskState {
        branch: Some("old".into()),
        worktree: Some("/gone".into()),
        issue_synced_hash: Some("sha256:0".into()),
        run_session: Some("1".into()),
        ..TaskState::default()
    };
    write(&store_root(&env).join("state").join(format!("{}.json", id)), state_json(&left));
    let again = rein(&env, &env.repo).args(["new", "demo"]).ran().success().out;
    assert!(again.starts_with(&id));
    let st = stored_state(&env, &id);
    assert_eq!(st.path, "inbox/demo.md");
    assert_eq!((st.version, st.branch, st.worktree), (1, None, None));
    assert_eq!((st.issue_synced_hash, st.run_session), (None, None));
}

/// Two tasks whose documents carry the same id.
fn twins(env: &Env) -> String {
    init(env);
    let id = rein(env, &env.repo).args(["new", "one"]).ran().success().out;
    let root = store_root(env);
    write(&root.join("inbox/two.md"), read(&root.join("inbox/one.md")));
    id.lines().next().unwrap().to_string()
}

#[test]
fn a_started_task_is_looked_up_again_by_its_id() {
    let env = setup();
    let id = twins(&env);
    rein(&env, &env.repo).args(["start", "one"]).ran().success();
    let root = store_root(&env);
    // the branch goes to the first document with the id, the move is recorded
    assert!(read(&root.join("inbox/two.md")).contains("branch: main"));
    assert!(!read(&root.join("active/one.md")).contains("branch: main"));
    let st = stored_state(&env, &id);
    assert_eq!((st.path.as_str(), st.branch.as_deref()), ("active/one.md", Some("main")));
}

#[test]
fn an_ended_task_is_recorded_where_its_id_is_found() {
    let env = setup();
    let id = twins(&env);
    rein(&env, &env.repo).args(["cancel", "one"]).ran().success();
    assert!(store_root(&env).join("canceled/one.md").is_there());
    assert_eq!(stored_state(&env, &id).path, "inbox/two.md");
    // the last document with the id is found where it went
    rein(&env, &env.repo).args(["cancel", "two"]).ran().success();
    assert_eq!(stored_state(&env, &id).path, "canceled/one.md");
}

#[test]
fn runs_are_kept_apart_by_their_stores() {
    let env = setup();
    init(&env);
    rein(&env, &env.repo).args(["new", "job"]).ran().success();
    let ctx = env.repo.world.borrow_mut().ctx(&env.repo.at).unwrap();
    let id = ctx.store.list_tasks()[0].id.clone();
    let mut here = ctx.store.clone();
    let st = TaskState {
        run_session: Some("12".into()),
        run_agent: Some("codex".into()),
        ..TaskState::default()
    };
    here.states = vec![StoredState { id: id.clone(), state: st }];
    let mut there = here.clone();
    there.root = String::from("/other");
    for f in &mut there.files {
        f.path = f.path.replace(&here.root, "/other");
    }
    let (root, other) = (here.root.clone(), there.root.clone());
    let projects = Store::discover_in(&vec![here, there]);
    let runs = vec![
        loading::LocalRun {
            root: root.clone(),
            task_id: id.clone(),
            status: None,
            alive: true,
        },
        loading::LocalRun {
            root: other.clone(),
            task_id: id.clone(),
            status: Some("0\n".into()),
            alive: false,
        },
    ];
    let rows = loading::load_all_rows(&projects, &runs, &Vec::new());
    assert_eq!(rows.len(), 2);
    let of = |at: &str| rows.iter().find(|r| r.store_root == at).unwrap().run_state.clone();
    assert_eq!(of(&root).as_deref(), Some("running"));
    assert_eq!(of(&other).as_deref(), Some("succeeded"));
}

#[test]
fn a_recorded_agent_is_compared_exactly() {
    let of = |agent: &str| {
        run::agent_of(&TaskState { run_agent: Some(agent.into()), ..TaskState::default() })
    };
    assert_eq!(of("codex"), Agent::Codex);
    assert_eq!(of(" codex "), Agent::Claude);
    assert_eq!(of("opencode"), Agent::Opencode);
}

#[test]
fn labels_of_a_reply_are_read_in_any_case() {
    assert_eq!(
        summary::parse_summary("  title: a\nGoal: b\n"),
        Ok(("a".to_string(), "b".to_string()))
    );
    // six bytes are the label: a dotless i takes two of them
    assert_eq!(
        summary::parse_summary("T\u{131}tle: x\nGOAL: y\n"),
        Ok((": x".to_string(), "y".to_string()))
    );
    assert!(summary::parse_summary("T\u{131}tl: x\nGOAL: y\n").is_err());
}
