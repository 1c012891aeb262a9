//! Per-task derived state.
use crate::paths;
use crate::store::Store;
use crate::text;
use vstd::prelude::*;
use vstd::string::*;

verus! {

/// Per-task derived state. One file per task: "task = one owner = one writer",
/// so plain atomic temp+rename writes need no lock on the hot path.
#[derive(Debug)]
pub struct TaskState {
    pub version: u32,
    pub path: String,
    pub branch: Option<String>,
    pub worktree: Option<String>,
    pub issue_synced_hash: Option<String>,
    pub pr_synced_hash: Option<String>,
    /// Session id of the most recent `rein run`, used to locate its transcript.
    pub run_session: Option<String>,
    /// Agent backend that created `run_session`.
    pub run_agent: Option<String>,
    /// Log file for backends that rein backgrounds directly.
    pub run_log: Option<String>,
    /// Exit-code file written by rein's background wrapper.
    pub run_status: Option<String>,
}

/// What a [`TaskState`] stands for.
#[verifier::ext_equal]
pub struct TaskStateV {
    pub version: u32,
    pub path: Seq<char>,
    pub branch: Option<Seq<char>>,
    pub worktree: Option<Seq<char>>,
    pub issue_synced_hash: Option<Seq<char>>,
    pub pr_synced_hash: Option<Seq<char>>,
    pub run_session: Option<Seq<char>>,
    pub run_agent: Option<Seq<char>>,
    pub run_log: Option<Seq<char>>,
    pub run_status: Option<Seq<char>>,
}

impl View for TaskState {
    type V = TaskStateV;

    open spec fn view(&self) -> TaskStateV {
        TaskStateV {
            version: self.version,
            path: self.path@,
            branch: text::opt_view(self.branch),
            worktree: text::opt_view(self.worktree),
            issue_synced_hash: text::opt_view(self.issue_synced_hash),
            pr_synced_hash: text::opt_view(self.pr_synced_hash),
            run_session: text::opt_view(self.run_session),
            run_agent: text::opt_view(self.run_agent),
            run_log: text::opt_view(self.run_log),
            run_status: text::opt_view(self.run_status),
        }
    }
}

/// The state of a task that has none yet.
pub open spec fn no_state() -> TaskStateV {
    TaskStateV {
        version: 0,
        path: seq![],
        branch: None,
        worktree: None,
        issue_synced_hash: None,
        pr_synced_hash: None,
        run_session: None,
        run_agent: None,
        run_log: None,
        run_status: None,
    }
}

impl Default for TaskState {
    fn default() -> (r: Self)
        ensures
            r@ == no_state(),
    {
        let r = TaskState {
            version: 0,
            path: String::new(),
            branch: None,
            worktree: None,
            issue_synced_hash: None,
            pr_synced_hash: None,
            run_session: None,
            run_agent: None,
            run_log: None,
            run_status: None,
        };
        assert(r@ =~= no_state());
        r
    }
}

impl Clone for TaskState {
    fn clone(&self) -> (r: Self)
        ensures
            r@ == self@,
    {
        TaskState {
            version: self.version,
            path: self.path.clone(),
            branch: text::clone_opt(&self.branch),
            worktree: text::clone_opt(&self.worktree),
            issue_synced_hash: text::clone_opt(&self.issue_synced_hash),
            pr_synced_hash: text::clone_opt(&self.pr_synced_hash),
            run_session: text::clone_opt(&self.run_session),
            run_agent: text::clone_opt(&self.run_agent),
            run_log: text::clone_opt(&self.run_log),
            run_status: text::clone_opt(&self.run_status),
        }
    }
}

/// Where the state of a task is kept.
pub open spec fn state_path_of(root: Seq<char>, id: Seq<char>) -> Seq<char> {
    paths::joined_path(paths::joined_path(root, "state"@), id + ".json"@)
}

/// Where the state of a task is kept.
pub fn state_path(store: &Store, task_id: &str) -> (r: String)
    ensures
        r@ == state_path_of(store.root@, task_id@),
{
    let mut name = String::from_str(task_id);
    name.append(".json");
    paths::join(&paths::join(&store.root, "state"), &name)
}

/// The state of a task in a list of states: the first with its id.
pub open spec fn state_from(states: Seq<StoredStateV>, id: Seq<char>, i: int) -> TaskStateV
    decreases states.len() - i,
{
    if i < 0 || i >= states.len() {
        no_state()
    } else if states[i].id == id {
        states[i].state
    } else {
        state_from(states, id, i + 1)
    }
}

/// A state file that could be read.
#[derive(Debug)]
pub struct StoredState {
    pub id: String,
    pub state: TaskState,
}

/// What a [`StoredState`] stands for.
#[verifier::ext_equal]
pub struct StoredStateV {
    pub id: Seq<char>,
    pub state: TaskStateV,
}

impl View for StoredState {
    type V = StoredStateV;

    open spec fn view(&self) -> StoredStateV {
        StoredStateV { id: self.id@, state: self.state@ }
    }
}

impl Clone for StoredState {
    fn clone(&self) -> (r: Self)
        ensures
            r@ == self@,
    {
        StoredState { id: self.id.clone(), state: self.state.clone() }
    }
}

/// The state of a task; the empty state where there is none.
pub fn load(store: &Store, task_id: &str) -> (r: TaskState)
    ensures
        r@ == state_from(text::views(store.states@), task_id@, 0),
{
    let mut i: usize = 0;
    let ghost all = text::views(store.states@);
    while i < store.states.len()
        invariant
            0 <= i <= store.states.len(),
            all == text::views(store.states@),
            state_from(all, task_id@, 0) == state_from(all, task_id@, i as int),
        decreases store.states.len() - i,
    {
        if text::same(&store.states[i].id, task_id) {
            return store.states[i].state.clone();
        }
        i += 1;
    }
    TaskState::default()
}

/// The state as it is written: in the current version of its form.
pub fn save(state: &TaskState) -> (r: TaskState)
    ensures
        r@ == (TaskStateV { version: 1, ..state@ }),
{
    let mut st = state.clone();
    st.version = 1;
    st
}

} // verus!
