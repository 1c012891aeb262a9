//! Git: the calls that are made, and what their output says.
use crate::paths;
use crate::text;
use vstd::prelude::*;
use vstd::string::*;

verus! {

/// A discovered git repository, possibly a linked worktree.
#[derive(Debug)]
pub struct Repo {
    /// Top-level working directory of the current worktree.
    pub workdir: String,
    /// Git dir of the current worktree (`.git` or `.git/worktrees/<name>`).
    pub git_dir: String,
    /// Common dir shared by all worktrees.
    pub common_dir: String,
    /// The text of the task pointer file, where it could be read.
    pub pointer: Option<String>,
}

/// What a [`Repo`] stands for.
#[verifier::ext_equal]
pub struct RepoV {
    pub workdir: Seq<char>,
    pub git_dir: Seq<char>,
    pub common_dir: Seq<char>,
    pub pointer: Option<Seq<char>>,
}

impl View for Repo {
    type V = RepoV;

    open spec fn view(&self) -> RepoV {
        RepoV {
            workdir: self.workdir@,
            git_dir: self.git_dir@,
            common_dir: self.common_dir@,
            pointer: text::opt_view(self.pointer),
        }
    }
}

impl Clone for Repo {
    fn clone(&self) -> (r: Self)
        ensures
            r@ == self@,
    {
        Repo {
            workdir: self.workdir.clone(),
            git_dir: self.git_dir.clone(),
            common_dir: self.common_dir.clone(),
            pointer: text::clone_opt(&self.pointer),
        }
    }
}

// ---------------------------------------------------------------------------
// Worktrees
// ---------------------------------------------------------------------------

/// One entry of `git worktree list --porcelain`. The first entry git prints is
/// the repo's primary (main) worktree.
#[derive(Debug, PartialEq)]
pub struct Worktree {
    pub path: String,
    /// Checked-out commit (`None` for a bare main worktree).
    pub head: Option<String>,
    /// Short branch name (`None` when detached or bare).
    pub branch: Option<String>,
    pub bare: bool,
    pub detached: bool,
    pub locked: bool,
    pub prunable: bool,
    /// The primary worktree — the first one git lists; can't be removed/locked.
    pub is_main: bool,
}

/// What a [`Worktree`] stands for.
#[verifier::ext_equal]
pub struct WorktreeV {
    pub path: Seq<char>,
    pub head: Option<Seq<char>>,
    pub branch: Option<Seq<char>>,
    pub bare: bool,
    pub detached: bool,
    pub locked: bool,
    pub prunable: bool,
    pub is_main: bool,
}

impl View for Worktree {
    type V = WorktreeV;

    open spec fn view(&self) -> WorktreeV {
        WorktreeV {
            path: self.path@,
            head: text::opt_view(self.head),
            branch: text::opt_view(self.branch),
            bare: self.bare,
            detached: self.detached,
            locked: self.locked,
            prunable: self.prunable,
            is_main: self.is_main,
        }
    }
}

impl Clone for Worktree {
    fn clone(&self) -> (r: Self)
        ensures
            r@ == self@,
    {
        Worktree {
            path: self.path.clone(),
            head: text::clone_opt(&self.head),
            branch: text::clone_opt(&self.branch),
            bare: self.bare,
            detached: self.detached,
            locked: self.locked,
            prunable: self.prunable,
            is_main: self.is_main,
        }
    }
}

/// A worktree of which only the path is known.
pub open spec fn new_worktree(path: Seq<char>, is_main: bool) -> WorktreeV {
    WorktreeV {
        path,
        head: None,
        branch: None,
        bare: false,
        detached: false,
        locked: false,
        prunable: false,
        is_main,
    }
}

/// A branch name without the prefix of its reference.
pub open spec fn short_branch(b: Seq<char>) -> Seq<char> {
    match text::after_prefix(b, "refs/heads/"@) {
        Some(s) => s,
        None => b,
    }
}

/// A worktree after one more line about it.
pub open spec fn described(w: WorktreeV, line: Seq<char>) -> WorktreeV {
    match text::after_prefix(line, "HEAD "@) {
        Some(h) => WorktreeV { head: Some(h), ..w },
        None => match text::after_prefix(line, "branch "@) {
            Some(b) => WorktreeV { branch: Some(short_branch(b)), ..w },
            None => if line == "bare"@ {
                WorktreeV { bare: true, ..w }
            } else if line == "detached"@ {
                WorktreeV { detached: true, ..w }
            } else if line == "locked"@ || text::begins(line, "locked "@) {
                WorktreeV { locked: true, ..w }
            } else if line == "prunable"@ || text::begins(line, "prunable "@) {
                WorktreeV { prunable: true, ..w }
            } else {
                w
            },
        },
    }
}

/// The worktrees that lines of the listing describe: each starts at a line with
/// its path, and the first is the main one.
pub open spec fn worktrees_in(ls: Seq<Seq<char>>) -> Seq<WorktreeV>
    decreases ls.len(),
{
    if ls.len() == 0 {
        seq![]
    } else {
        let before = worktrees_in(ls.drop_last());
        match text::after_prefix(ls.last(), "worktree "@) {
            Some(p) => before.push(new_worktree(p, before.len() == 0)),
            None => if before.len() == 0 {
                before
            } else {
                before.update(before.len() - 1, described(before.last(), ls.last()))
            },
        }
    }
}

/// Takes one more line about a worktree.
fn describe(w: &mut Worktree, line: &str)
    ensures
        final(w)@ == described(old(w)@, line@),
{
    match text::strip_prefix(line, "HEAD ") {
        Some(h) => {
            w.head = Some(h);
        },
        None => match text::strip_prefix(line, "branch ") {
            Some(b) => {
                w.branch = Some(
                    match text::strip_prefix(&b, "refs/heads/") {
                        Some(s) => s,
                        None => b,
                    },
                );
            },
            None => {
                if text::same(line, "bare") {
                    w.bare = true;
                } else if text::same(line, "detached") {
                    w.detached = true;
                } else if text::same(line, "locked") || text::starts_with(line, "locked ") {
                    w.locked = true;
                } else if text::same(line, "prunable") || text::starts_with(line, "prunable ") {
                    w.prunable = true;
                }
            },
        },
    }
}

/// Parse the blank-line-separated blocks of `git worktree list --porcelain`.
pub fn parse_worktrees(out: &str) -> (r: Vec<Worktree>)
    ensures
        text::views(r@) == worktrees_in(text::lines_of(out@)),
{
    let ls = text::lines(out);
    let mut list: Vec<Worktree> = Vec::new();
    let ghost all = text::views(ls@);
    let mut i: usize = 0;
    while i < ls.len()
        invariant
            0 <= i <= ls.len(),
            all == text::views(ls@),
            text::views(list@) == worktrees_in(all.take(i as int)),
        decreases ls.len() - i,
    {
        let ghost before = text::views(list@);
        proof {
            assert(all.take(i as int + 1).drop_last() =~= all.take(i as int));
            assert(all.take(i as int + 1).last() == ls@[i as int]@);
            assert(before.len() == list@.len());
        }
        match text::strip_prefix(&ls[i], "worktree ") {
            Some(path) => {
                let is_main = list.len() == 0;
                list.push(
                    Worktree {
                        path,
                        head: None,
                        branch: None,
                        bare: false,
                        detached: false,
                        locked: false,
                        prunable: false,
                        is_main,
                    },
                );
                proof {
                    assert(text::views(list@) =~= before.push(new_worktree(path@, is_main)));
                }
            },
            None => {
                match list.pop() {
                    Some(w) => {
                        let mut w = w;
                        let ghost old_w = w@;
                        describe(&mut w, &ls[i]);
                        list.push(w);
                        proof {
                            assert(before.last() == old_w);
                            assert(text::views(list@) =~= before.update(
                                before.len() - 1,
                                described(before.last(), ls@[i as int]@),
                            ));
                        }
                    },
                    None => {},
                }
            },
        }
        i += 1;
    }
    proof {
        assert(all.take(i as int) =~= all);
    }
    list
}

/// Every listed worktree has a path line of its own, and the first one listed is
/// the only main one.
pub proof fn law_first_worktree_is_main(ls: Seq<Seq<char>>)
    ensures
        forall|i: int|
            0 <= i < worktrees_in(ls).len() ==> ((#[trigger] worktrees_in(ls)[i]).is_main <==> i
                == 0),
    decreases ls.len(),
{
    if ls.len() > 0 {
        law_first_worktree_is_main(ls.drop_last());
        let before = worktrees_in(ls.drop_last());
        let w = worktrees_in(ls);
        assert forall|i: int| 0 <= i < w.len() implies ((#[trigger] w[i]).is_main <==> i == 0) by {
            if i < before.len() {
                assert(before[i].is_main <==> i == 0);
            }
        }
    }
}

// ---------------------------------------------------------------------------
// Calls
// ---------------------------------------------------------------------------

/// A call of git in a directory.
#[derive(Debug)]
pub struct GitCall {
    pub dir: String,
    pub args: Vec<String>,
}

/// What a [`GitCall`] stands for.
#[verifier::ext_equal]
pub struct GitCallV {
    pub dir: Seq<char>,
    pub args: Seq<Seq<char>>,
}

impl View for GitCall {
    type V = GitCallV;

    open spec fn view(&self) -> GitCallV {
        GitCallV { dir: self.dir@, args: text::views(self.args@) }
    }
}

/// A list of arguments.
pub fn strings(parts: &[&str]) -> (r: Vec<String>)
    ensures
        text::views(r@) == Seq::new(parts@.len(), |i: int| parts@[i]@),
{
    let mut out: Vec<String> = Vec::new();
    let ghost all = Seq::new(parts@.len(), |i: int| parts@[i]@);
    let mut i: usize = 0;
    while i < parts.len()
        invariant
            0 <= i <= parts.len(),
            all == Seq::new(parts@.len(), |i: int| parts@[i]@),
            text::views(out@) == all.take(i as int),
        decreases parts.len() - i,
    {
        let ghost before = text::views(out@);
        out.push(String::from_str(parts[i]));
        proof {
            assert(text::views(out@) =~= before.push(parts@[i as int]@));
            assert(all.take(i as int + 1) =~= all.take(i as int).push(parts@[i as int]@));
        }
        i += 1;
    }
    proof {
        assert(all.take(i as int) =~= all);
    }
    out
}

/// The message of a git call that failed.
pub open spec fn git_failure(args: Seq<Seq<char>>, stderr: Seq<char>) -> Seq<char> {
    "git "@ + text::joined(args, " "@) + " failed: "@ + text::trimmed(stderr)
}

/// What came of a git call: its output without trailing white space, or the
/// message of its failure.
pub fn git_in(call: &GitCall, success: bool, stdout: &str, stderr: &str) -> (r: Result<
    String,
    String,
>)
    ensures
        match r {
            Ok(out) => success && out@ == text::trimmed_end(stdout@),
            Err(e) => !success && e@ == git_failure(call@.args, stderr@),
        },
{
    if success {
        Ok(text::trim_end(stdout))
    } else {
        let mut m = String::from_str("git ");
        m.append(&text::join(&call.args, " "));
        m.append(" failed: ");
        m.append(&text::trim(stderr));
        Err(m)
    }
}

/// The reference of a branch.
pub open spec fn branch_ref(branch: Seq<char>) -> Seq<char> {
    "refs/heads/"@ + branch
}

/// The base branch that a pull request targets: the default head of the remote
/// where it is known, else a local `main` or `master`.
pub open spec fn base_branch(
    origin_head: Option<Seq<char>>,
    has_main: bool,
    has_master: bool,
) -> Option<Seq<char>> {
    let named = match origin_head {
        Some(s) => text::after_prefix(s, "origin/"@),
        None => None,
    };
    if named is Some && named.unwrap().len() > 0 {
        named
    } else if has_main {
        Some("main"@)
    } else if has_master {
        Some("master"@)
    } else {
        None
    }
}

/// The text that binds a worktree to a task.
pub open spec fn pointer_to(task_id: Seq<char>) -> Seq<char> {
    task_id + "\n"@
}

/// The count in a reply; zero where it is none.
pub open spec fn count_in(out: Seq<char>) -> nat {
    match text::number(text::trimmed(out), u64::MAX as nat) {
        Some(n) => n,
        None => 0,
    }
}

/// The commits that the second branch has and the first has not.
pub open spec fn range_between(base: Seq<char>, branch: Seq<char>) -> Seq<char> {
    base + ".."@ + branch
}

/// The arguments that lock or unlock a worktree.
pub open spec fn lock_args(path: Seq<char>, lock: bool) -> Seq<Seq<char>> {
    seq![
        "worktree"@,
        if lock {
            "lock"@
        } else {
            "unlock"@
        },
        path,
    ]
}

/// The arguments that add a worktree on a branch, which is made where it is not there.
pub open spec fn add_args(path: Seq<char>, branch: Seq<char>, exists: bool) -> Seq<Seq<char>> {
    if exists {
        seq!["worktree"@, "add"@, path, branch]
    } else {
        seq!["worktree"@, "add"@, "-b"@, branch, path]
    }
}

/// The repository that a reply describes, where it has a line for each directory.
pub open spec fn repo_in(out: Seq<char>) -> Option<RepoV> {
    let ls = text::lines_of(out);
    if ls.len() < 3 {
        None
    } else {
        Some(RepoV { workdir: ls[0], git_dir: ls[1], common_dir: ls[2], pointer: None })
    }
}

/// A text without white space around it, where anything is left.
pub open spec fn trimmed_given(s: Option<Seq<char>>) -> Option<Seq<char>> {
    match s {
        Some(t) => if text::trimmed(t).len() == 0 {
            None
        } else {
            Some(text::trimmed(t))
        },
        None => None,
    }
}

impl Repo {
    /// The call that finds the repository around a directory.
    pub fn discover(cwd: &str) -> (r: GitCall)
        ensures
            r@.dir == cwd@,
            r@.args == seq![
                "rev-parse"@,
                "--path-format=absolute"@,
                "--show-toplevel"@,
                "--git-dir"@,
                "--git-common-dir"@,
            ],
    {
        let args = strings(
            &[
                "rev-parse",
                "--path-format=absolute",
                "--show-toplevel",
                "--git-dir",
                "--git-common-dir",
            ],
        );
        let r = GitCall { dir: String::from_str(cwd), args };
        assert(r@.args =~= seq![
            "rev-parse"@,
            "--path-format=absolute"@,
            "--show-toplevel"@,
            "--git-dir"@,
            "--git-common-dir"@,
        ]);
        r
    }

    /// The repository that the reply describes: a line for each directory.
    pub fn from_reply(out: &str) -> (r: Result<Repo, String>)
        ensures
            match r {
                Ok(repo) => repo_in(out@) == Some(repo@),
                Err(e) => repo_in(out@) is None && e@ == "unexpected rev-parse output"@,
            },
    {
        let ls = text::lines(out);
        proof {
            assert(text::views(ls@).len() == ls@.len());
        }
        if ls.len() < 3 {
            return Err(String::from_str("unexpected rev-parse output"));
        }
        proof {
            assert(text::views(ls@)[0] == ls@[0]@);
            assert(text::views(ls@)[1] == ls@[1]@);
            assert(text::views(ls@)[2] == ls@[2]@);
        }
        Ok(
            Repo {
                workdir: ls[0].clone(),
                git_dir: ls[1].clone(),
                common_dir: ls[2].clone(),
                pointer: None,
            },
        )
    }

    /// A call of git in the working directory.
    fn call(&self, args: Vec<String>) -> (r: GitCall)
        ensures
            r@ == (GitCallV { dir: self@.workdir, args: text::views(args@) }),
    {
        GitCall { dir: self.workdir.clone(), args }
    }

    /// The call that reads a configuration value.
    pub fn config_get(&self, key: &str) -> (r: GitCall)
        ensures
            r@ == (GitCallV { dir: self@.workdir, args: seq!["config"@, "--get"@, key@] }),
    {
        let r = self.call(strings(&["config", "--get", key]));
        assert(r@.args =~= seq!["config"@, "--get"@, key@]);
        r
    }

    /// The value that a configuration call gave: none where it failed or is empty.
    pub fn config_value(reply: Result<String, String>) -> (r: Option<String>)
        ensures
            text::opt_view(r) == match reply {
                Ok(s) => if s@.len() == 0 {
                    None
                } else {
                    Some(s@)
                },
                Err(_) => None,
            },
    {
        match reply {
            Ok(s) => {
                if s.as_str().is_empty() {
                    None
                } else {
                    Some(s)
                }
            },
            Err(_) => None,
        }
    }

    /// The call that writes a configuration value.
    pub fn config_set(&self, key: &str, val: &str) -> (r: GitCall)
        ensures
            r@ == (GitCallV { dir: self@.workdir, args: seq!["config"@, key@, val@] }),
    {
        let r = self.call(strings(&["config", key, val]));
        assert(r@.args =~= seq!["config"@, key@, val@]);
        r
    }

    /// The call that reads the URL of the remote.
    pub fn remote_url(&self) -> (r: GitCall)
        ensures
            r@ == (GitCallV {
                dir: self@.workdir,
                args: seq!["config"@, "--get"@, "remote.origin.url"@],
            }),
    {
        self.config_get("remote.origin.url")
    }

    /// The call that reads the branch that is checked out.
    pub fn current_branch(&self) -> (r: GitCall)
        ensures
            r@ == (GitCallV { dir: self@.workdir, args: seq!["branch"@, "--show-current"@] }),
    {
        let r = self.call(strings(&["branch", "--show-current"]));
        assert(r@.args =~= seq!["branch"@, "--show-current"@]);
        r
    }

    /// The call that adds a worktree on a new branch.
    pub fn worktree_add(&self, path: &str, branch: &str) -> (r: GitCall)
        ensures
            r@ == (GitCallV {
                dir: self@.workdir,
                args: seq!["worktree"@, "add"@, "-b"@, branch@, path@],
            }),
    {
        let r = self.call(strings(&["worktree", "add", "-b", branch, path]));
        assert(r@.args =~= seq!["worktree"@, "add"@, "-b"@, branch@, path@]);
        r
    }

    /// The call that lists every worktree of this repo (main + linked).
    pub fn worktree_list(&self) -> (r: GitCall)
        ensures
            r@ == (GitCallV {
                dir: self@.workdir,
                args: seq!["worktree"@, "list"@, "--porcelain"@],
            }),
    {
        let r = self.call(strings(&["worktree", "list", "--porcelain"]));
        assert(r@.args =~= seq!["worktree"@, "list"@, "--porcelain"@]);
        r
    }

    /// Add a worktree at `path` on `branch`: creates the branch (`-b`) when it
    /// doesn't exist yet, otherwise checks out the existing one. The stricter
    /// `worktree_add` (always `-b`) backs the task-claim flow, where reusing an
    /// existing branch should be an error.
    pub fn worktree_add_branch(&self, path: &str, branch: &str, exists: bool) -> (r: GitCall)
        ensures
            r@ == (GitCallV {
                dir: self@.workdir,
                args: add_args(path@, branch@, exists),
            }),
    {
        if exists {
            let r = self.call(strings(&["worktree", "add", path, branch]));
            assert(r@.args =~= seq!["worktree"@, "add"@, path@, branch@]);
            r
        } else {
            self.worktree_add(path, branch)
        }
    }

    /// Lock or unlock a linked worktree (git refuses to lock the main one).
    pub fn worktree_lock(&self, path: &str, lock: bool) -> (r: GitCall)
        ensures
            r@ == (GitCallV {
                dir: self@.workdir,
                args: lock_args(path@, lock),
            }),
    {
        let sub = if lock {
            "lock"
        } else {
            "unlock"
        };
        let r = self.call(strings(&["worktree", sub, path]));
        assert(r@.args =~= seq!["worktree"@, sub@, path@]);
        r
    }

    /// The call that removes a worktree.
    pub fn worktree_remove(&self, path: &str, force: bool) -> (r: GitCall)
        ensures
            r@ == (GitCallV {
                dir: self@.workdir,
                args: if force {
                    seq!["worktree"@, "remove"@, "--force"@, path@]
                } else {
                    seq!["worktree"@, "remove"@, path@]
                },
            }),
    {
        if force {
            let r = self.call(strings(&["worktree", "remove", "--force", path]));
            assert(r@.args =~= seq!["worktree"@, "remove"@, "--force"@, path@]);
            r
        } else {
            let r = self.call(strings(&["worktree", "remove", path]));
            assert(r@.args =~= seq!["worktree"@, "remove"@, path@]);
            r
        }
    }

    /// The call that creates a branch and switches to it.
    pub fn branch_create_and_switch(&self, branch: &str) -> (r: GitCall)
        ensures
            r@ == (GitCallV { dir: self@.workdir, args: seq!["switch"@, "-c"@, branch@] }),
    {
        let r = self.call(strings(&["switch", "-c", branch]));
        assert(r@.args =~= seq!["switch"@, "-c"@, branch@]);
        r
    }

    /// The call that succeeds where a local branch already exists — used to turn
    /// the predictable `git worktree add -b`/`switch -c` collision into an
    /// actionable message.
    pub fn branch_exists(&self, branch: &str) -> (r: GitCall)
        ensures
            r@ == (GitCallV {
                dir: self@.workdir,
                args: seq!["show-ref"@, "--verify"@, "--quiet"@, branch_ref(branch@)],
            }),
    {
        let mut name = String::from_str("refs/heads/");
        name.append(branch);
        let r = self.call(strings(&["show-ref", "--verify", "--quiet", name.as_str()]));
        assert(r@.args =~= seq!["show-ref"@, "--verify"@, "--quiet"@, branch_ref(branch@)]);
        r
    }

    /// The call that reads the default head of the remote.
    pub fn origin_head(&self) -> (r: GitCall)
        ensures
            r@ == (GitCallV {
                dir: self@.workdir,
                args: seq!["rev-parse"@, "--abbrev-ref"@, "origin/HEAD"@],
            }),
    {
        let r = self.call(strings(&["rev-parse", "--abbrev-ref", "origin/HEAD"]));
        assert(r@.args =~= seq!["rev-parse"@, "--abbrev-ref"@, "origin/HEAD"@]);
        r
    }

    /// Best-effort base branch a PR would target: the remote's default head if
    /// known, else a local `main`/`master`. `None` when nothing obvious exists.
    pub fn default_branch(
        origin_head: &Option<String>,
        has_main: bool,
        has_master: bool,
    ) -> (r: Option<String>)
        ensures
            text::opt_view(r) == base_branch(text::opt_view(*origin_head), has_main, has_master),
    {
        let named = match origin_head {
            Some(s) => text::strip_prefix(s, "origin/"),
            None => None,
        };
        match named {
            Some(b) => {
                if !b.as_str().is_empty() {
                    return Some(b);
                }
            },
            None => {},
        }
        if has_main {
            Some(String::from_str("main"))
        } else if has_master {
            Some(String::from_str("master"))
        } else {
            None
        }
    }

    /// The call that counts the commits on `branch` not reachable from `base`.
    pub fn commits_ahead(&self, base: &str, branch: &str) -> (r: GitCall)
        ensures
            r@ == (GitCallV {
                dir: self@.workdir,
                args: seq!["rev-list"@, "--count"@, range_between(base@, branch@)],
            }),
    {
        let mut range = String::from_str(base);
        range.append("..");
        range.append(branch);
        let r = self.call(strings(&["rev-list", "--count", range.as_str()]));
        assert(r@.args =~= seq!["rev-list"@, "--count"@, base@ + ".."@ + branch@]);
        r
    }

    /// The count in the reply; zero where it is none.
    pub fn ahead_count(out: &str) -> (r: u64)
        ensures
            r == count_in(out@),
    {
        match text::parse_u64(&text::trim(out)) {
            Some(n) => n,
            None => 0,
        }
    }

    /// Push `branch` to origin and set upstream, so `gh pr create --head` finds
    /// it on the remote.
    pub fn push_branch(&self, branch: &str) -> (r: GitCall)
        ensures
            r@ == (GitCallV {
                dir: self@.workdir,
                args: seq!["push"@, "-u"@, "origin"@, branch@],
            }),
    {
        let r = self.call(strings(&["push", "-u", "origin", branch]));
        assert(r@.args =~= seq!["push"@, "-u"@, "origin"@, branch@]);
        r
    }

    /// Path of the per-worktree task pointer file (truth of task↔worktree binding).
    pub fn task_pointer(&self) -> (r: String)
        ensures
            r@ == paths::joined_path(self@.git_dir, "rein-task"@),
    {
        paths::join(&self.git_dir, "rein-task")
    }

    /// The task that the worktree is bound to.
    pub fn read_task_pointer(&self) -> (r: Option<String>)
        ensures
            text::opt_view(r) == trimmed_given(self@.pointer),
    {
        match &self.pointer {
            Some(t) => {
                let id = text::trim(t);
                if id.as_str().is_empty() {
                    None
                } else {
                    Some(id)
                }
            },
            None => None,
        }
    }

    /// The text of a pointer to a task.
    pub fn write_task_pointer(task_id: &str) -> (r: String)
        ensures
            r@ == pointer_to(task_id@),
    {
        let mut out = String::from_str(task_id);
        out.append("\n");
        out
    }
}

/// The call that asks whether a worktree has uncommitted changes.
pub fn status_call(worktree: &str) -> (r: GitCall)
    ensures
        r@ == (GitCallV { dir: worktree@, args: seq!["status"@, "--porcelain"@] }),
{
    let r = GitCall { dir: String::from_str(worktree), args: strings(&["status", "--porcelain"]) };
    assert(r@.args =~= seq!["status"@, "--porcelain"@]);
    r
}

/// Whether the reply names any uncommitted change.
pub fn is_dirty(out: &str) -> (r: bool)
    ensures
        r == (out@.len() > 0),
{
    !out.is_empty()
}

} // verus!
