//! The store: where the task documents of one repository are kept.
use crate::paths;
pub use crate::projects::StoreInfo;
use crate::state::{self, StoredState, StoredStateV, TaskState, TaskStateV};
use crate::task::doc::{self, TaskDocV};
use crate::task::TaskDoc;
use crate::text;
use vstd::prelude::*;
use vstd::string::*;

verus! {

/// Where a task stands. The directory that holds its document says so.
#[derive(Debug, Clone, Copy, PartialEq, Eq, Structural)]
pub enum Status {
    Inbox,
    Active,
    Done,
    Canceled,
}

impl Status {
    /// The name of a status.
    pub open spec fn name(self) -> Seq<char> {
        match self {
            Status::Inbox => "inbox"@,
            Status::Active => "active"@,
            Status::Done => "done"@,
            Status::Canceled => "canceled"@,
        }
    }

    /// The status with a name.
    pub open spec fn named(s: Seq<char>) -> Option<Status> {
        if s == "inbox"@ {
            Some(Status::Inbox)
        } else if s == "active"@ {
            Some(Status::Active)
        } else if s == "done"@ {
            Some(Status::Done)
        } else if s == "canceled"@ {
            Some(Status::Canceled)
        } else {
            None
        }
    }

    /// The name of a status.
    pub fn as_str(&self) -> (r: &'static str)
        ensures
            r@ == self.name(),
    {
        match self {
            Status::Inbox => "inbox",
            Status::Active => "active",
            Status::Done => "done",
            Status::Canceled => "canceled",
        }
    }

    /// The status with a name.
    pub fn parse(s: &str) -> (r: Option<Status>)
        ensures
            r == Status::named(s@),
    {
        if text::same(s, "inbox") {
            Some(Status::Inbox)
        } else if text::same(s, "active") {
            Some(Status::Active)
        } else if text::same(s, "done") {
            Some(Status::Done)
        } else if text::same(s, "canceled") {
            Some(Status::Canceled)
        } else {
            None
        }
    }
}

/// A status is found again by its name, and no other text names one.
pub proof fn law_statuses_are_named(status: Status, s: Seq<char>)
    ensures
        Status::named(status.name()) == Some(status),
        Status::named(s) is Some ==> Status::named(s).unwrap().name() == s,
{
    reveal_strlit("inbox");
    reveal_strlit("active");
    reveal_strlit("done");
    reveal_strlit("canceled");
    assert("inbox"@[0] == 'i');
    assert("active"@[0] == 'a');
    assert("done"@[0] == 'd');
    assert("canceled"@[0] == 'c');
}

/// A task located in the store.
#[derive(Debug)]
pub struct TaskRef {
    pub id: String,
    pub slug: String,
    pub status: Status,
    pub path: String,
    pub doc: TaskDoc,
}

/// What a [`TaskRef`] stands for.
#[verifier::ext_equal]
pub struct TaskRefV {
    pub id: Seq<char>,
    pub slug: Seq<char>,
    pub status: Status,
    pub path: Seq<char>,
    pub doc: TaskDocV,
}

impl View for TaskRef {
    type V = TaskRefV;

    open spec fn view(&self) -> TaskRefV {
        TaskRefV {
            id: self.id@,
            slug: self.slug@,
            status: self.status,
            path: self.path@,
            doc: self.doc@,
        }
    }
}

impl Clone for TaskRef {
    fn clone(&self) -> (r: Self)
        ensures
            r@ == self@,
    {
        TaskRef {
            id: self.id.clone(),
            slug: self.slug.clone(),
            status: self.status,
            path: self.path.clone(),
            doc: self.doc.clone(),
        }
    }
}

/// What an optional task stands for.
pub open spec fn opt_task(t: Option<TaskRef>) -> Option<TaskRefV> {
    match t {
        Some(t) => Some(t@),
        None => None,
    }
}

/// A file of the store, as it was read.
#[derive(Debug)]
pub struct StoreFile {
    pub path: String,
    pub text: String,
}

/// What a [`StoreFile`] stands for.
#[verifier::ext_equal]
pub struct StoreFileV {
    pub path: Seq<char>,
    pub text: Seq<char>,
}

impl View for StoreFile {
    type V = StoreFileV;

    open spec fn view(&self) -> StoreFileV {
        StoreFileV { path: self.path@, text: self.text@ }
    }
}

impl Clone for StoreFile {
    fn clone(&self) -> (r: Self)
        ensures
            r@ == self@,
    {
        StoreFile { path: self.path.clone(), text: self.text.clone() }
    }
}

/// A store, as it was read: where it is, and what its files say.
#[derive(Debug)]
pub struct Store {
    pub root: String,
    /// The project hints in `meta.json`, where it could be read.
    pub meta: Option<String>,
    /// The files below the directories of the statuses.
    pub files: Vec<StoreFile>,
    /// The file that names the current task, where it could be read.
    pub current: Option<String>,
    /// The state files that could be read.
    pub states: Vec<StoredState>,
}

/// What a [`Store`] stands for.
#[verifier::ext_equal]
pub struct StoreV {
    pub root: Seq<char>,
    pub meta: Option<Seq<char>>,
    pub files: Seq<StoreFileV>,
    pub current: Option<Seq<char>>,
    pub states: Seq<StoredStateV>,
}

impl View for Store {
    type V = StoreV;

    open spec fn view(&self) -> StoreV {
        StoreV {
            root: self.root@,
            meta: text::opt_view(self.meta),
            files: text::views(self.files@),
            current: text::opt_view(self.current),
            states: text::views(self.states@),
        }
    }
}

// ---------------------------------------------------------------------------
// Listing
// ---------------------------------------------------------------------------

/// The directory of a status.
pub open spec fn dir_of(root: Seq<char>, status: Status) -> Seq<char> {
    paths::joined_path(root, status.name())
}

/// The path is that of a Markdown file below the directory.
pub open spec fn is_doc_in(dir: Seq<char>, path: Seq<char>) -> bool {
    text::begins(path, paths::as_prefix(dir)) && paths::md_stem(path) is Some
}

/// The files with `x` set before the first that comes behind it.
pub open spec fn inserted(fs: Seq<StoreFileV>, x: StoreFileV, n: int) -> Seq<StoreFileV>
    decreases n,
{
    if 0 < n <= fs.len() && paths::path_before(x.path, fs[n - 1].path) {
        inserted(fs, x, n - 1)
    } else {
        fs.insert(n, x)
    }
}

/// The Markdown files below a directory, in the order of their paths.
pub open spec fn docs_in(fs: Seq<StoreFileV>, dir: Seq<char>) -> Seq<StoreFileV>
    decreases fs.len(),
{
    if fs.len() == 0 {
        seq![]
    } else {
        let before = docs_in(fs.drop_last(), dir);
        if is_doc_in(dir, fs.last().path) {
            inserted(before, fs.last(), before.len() as int)
        } else {
            before
        }
    }
}

/// The task that a file holds, where it is a task document.
pub open spec fn task_in(f: StoreFileV, status: Status) -> Option<TaskRefV> {
    match doc::parsed(f.text) {
        Ok(d) => match paths::md_stem(f.path) {
            Some(slug) => Some(TaskRefV { id: d.front.id, slug, status, path: f.path, doc: d }),
            None => None,
        },
        Err(_) => None,
    }
}

/// The tasks that files hold, in order.
pub open spec fn tasks_in(fs: Seq<StoreFileV>, status: Status) -> Seq<TaskRefV>
    decreases fs.len(),
{
    if fs.len() == 0 {
        seq![]
    } else {
        let before = tasks_in(fs.drop_last(), status);
        match task_in(fs.last(), status) {
            Some(t) => before.push(t),
            None => before,
        }
    }
}

/// The tasks of a status.
pub open spec fn tasks_of(s: StoreV, status: Status) -> Seq<TaskRefV> {
    tasks_in(docs_in(s.files, dir_of(s.root, status)), status)
}

/// All tasks: the inbox first, then the active, the finished and the canceled.
pub open spec fn all_tasks(s: StoreV) -> Seq<TaskRefV> {
    tasks_of(s, Status::Inbox) + tasks_of(s, Status::Active) + tasks_of(s, Status::Done) + tasks_of(
        s,
        Status::Canceled,
    )
}

/// The first task at or after `i` with an id.
pub open spec fn with_id_from(ts: Seq<TaskRefV>, id: Seq<char>, i: int) -> Option<TaskRefV>
    decreases ts.len() - i,
{
    if i < 0 || i >= ts.len() {
        None
    } else if ts[i].id == id {
        Some(ts[i])
    } else {
        with_id_from(ts, id, i + 1)
    }
}

/// The first task at or after `i` with a slug or an id.
pub open spec fn named_from(ts: Seq<TaskRefV>, q: Seq<char>, i: int) -> Option<TaskRefV>
    decreases ts.len() - i,
{
    if i < 0 || i >= ts.len() {
        None
    } else if ts[i].slug == q || ts[i].id == q {
        Some(ts[i])
    } else {
        named_from(ts, q, i + 1)
    }
}

/// The tasks whose slug or id starts with a text.
pub open spec fn prefixed(ts: Seq<TaskRefV>, q: Seq<char>) -> Seq<TaskRefV>
    decreases ts.len(),
{
    if ts.len() == 0 {
        seq![]
    } else {
        let before = prefixed(ts.drop_last(), q);
        let t = ts.last();
        if text::begins(t.slug, q) || text::begins(t.id, q) {
            before.push(t)
        } else {
            before
        }
    }
}

/// The slugs of tasks.
pub open spec fn slugs_of(ts: Seq<TaskRefV>) -> Seq<Seq<char>> {
    Seq::new(ts.len(), |i: int| ts[i].slug)
}

/// The task that a query means among tasks, or why none does: an exact slug or id
/// first, then the only one whose slug or id starts with it.
pub open spec fn found(ts: Seq<TaskRefV>, q: Seq<char>) -> Result<TaskRefV, Seq<char>> {
    match named_from(ts, q, 0) {
        Some(t) => Ok(t),
        None => {
            let ms = prefixed(ts, q);
            if ms.len() == 0 {
                Err("no task matches '"@ + q + "'"@)
            } else if ms.len() == 1 {
                Ok(ms[0])
            } else {
                Err(
                    "ambiguous task '"@ + q + "': "@ + text::joined(slugs_of(ms), ", "@),
                )
            }
        },
    }
}

/// The first task at or after `i` that is linked to an issue.
pub open spec fn with_issue_from(ts: Seq<TaskRefV>, number: u64, i: int) -> Option<TaskRefV>
    decreases ts.len() - i,
{
    if i < 0 || i >= ts.len() {
        None
    } else if ts[i].doc.front.github_issue == Some(number) {
        Some(ts[i])
    } else {
        with_issue_from(ts, number, i + 1)
    }
}

/// The first slug in `base`, `base-2`, `base-3`, … from number `n` on that no task has.
pub open spec fn free_slug_from(taken: Seq<Seq<char>>, base: Seq<char>, n: nat, left: nat) -> Seq<
    char,
>
    decreases left,
{
    let candidate = base + "-"@ + text::decimal(n);
    if left > 0 && taken.contains(candidate) {
        free_slug_from(taken, base, n + 1, (left - 1) as nat)
    } else {
        candidate
    }
}

/// A slug that no task has: the text itself, or with the first free number.
pub open spec fn free_slug(taken: Seq<Seq<char>>, base: Seq<char>) -> Seq<char> {
    if taken.contains(base) {
        free_slug_from(taken, base, 2, taken.len())
    } else {
        base
    }
}

/// The first file at or after `i` with a path.
pub open spec fn file_from(fs: Seq<StoreFileV>, path: Seq<char>, i: int) -> Option<int>
    decreases fs.len() - i,
{
    if i < 0 || i >= fs.len() {
        None
    } else if fs[i].path == path {
        Some(i)
    } else {
        file_from(fs, path, i + 1)
    }
}

/// The store after a file was written.
pub open spec fn written(s: StoreV, path: Seq<char>, text: Seq<char>) -> StoreV {
    let f = StoreFileV { path, text };
    StoreV {
        files: match file_from(s.files, path, 0) {
            Some(i) => s.files.update(i, f),
            None => s.files.push(f),
        },
        ..s
    }
}

/// The store after a file was moved.
pub open spec fn file_moved(s: StoreV, from: Seq<char>, to: Seq<char>) -> StoreV {
    match file_from(s.files, from, 0) {
        Some(i) => written(StoreV { files: s.files.remove(i), ..s }, to, s.files[i].text),
        None => s,
    }
}

/// The first stored state at or after `i` of a task.
pub open spec fn stored_from(sts: Seq<StoredStateV>, id: Seq<char>, i: int) -> Option<int>
    decreases sts.len() - i,
{
    if i < 0 || i >= sts.len() {
        None
    } else if sts[i].id == id {
        Some(i)
    } else {
        stored_from(sts, id, i + 1)
    }
}

/// The store after the state of a task was written.
pub open spec fn stated(s: StoreV, id: Seq<char>, state: TaskStateV) -> StoreV {
    let st = StoredStateV { id, state };
    StoreV {
        states: match stored_from(s.states, id, 0) {
            Some(i) => s.states.update(i, st),
            None => s.states.push(st),
        },
        ..s
    }
}

/// The text of the file that names the current task, where it names one.
pub open spec fn current_of(s: StoreV) -> Option<Seq<char>> {
    match s.current {
        Some(t) => if text::trimmed(t).len() == 0 {
            None
        } else {
            Some(text::trimmed(t))
        },
        None => None,
    }
}

impl Clone for Store {
    fn clone(&self) -> (r: Self)
        ensures
            r@ == self@,
    {
        let mut files: Vec<StoreFile> = Vec::new();
        let mut i: usize = 0;
        while i < self.files.len()
            invariant
                0 <= i <= self.files.len(),
                text::views(files@) == text::views(self.files@).take(i as int),
            decreases self.files.len() - i,
        {
            let ghost before = text::views(files@);
            files.push(self.files[i].clone());
            proof {
                assert(text::views(files@) =~= before.push(self.files@[i as int]@));
                assert(text::views(self.files@).take(i as int + 1) =~= text::views(
                    self.files@,
                ).take(i as int).push(self.files@[i as int]@));
            }
            i += 1;
        }
        proof {
            assert(text::views(self.files@).take(i as int) =~= text::views(self.files@));
        }
        let mut states: Vec<StoredState> = Vec::new();
        let mut k: usize = 0;
        while k < self.states.len()
            invariant
                0 <= k <= self.states.len(),
                text::views(states@) == text::views(self.states@).take(k as int),
            decreases self.states.len() - k,
        {
            let ghost before = text::views(states@);
            states.push(self.states[k].clone());
            proof {
                assert(text::views(states@) =~= before.push(self.states@[k as int]@));
                assert(text::views(self.states@).take(k as int + 1) =~= text::views(
                    self.states@,
                ).take(k as int).push(self.states@[k as int]@));
            }
            k += 1;
        }
        proof {
            assert(text::views(self.states@).take(k as int) =~= text::views(self.states@));
        }
        Store {
            root: self.root.clone(),
            meta: text::clone_opt(&self.meta),
            files,
            current: text::clone_opt(&self.current),
            states,
        }
    }
}

impl Store {
    /// A store of which nothing but its place is known.
    pub fn at(root: &str) -> (r: Store)
        ensures
            r@ == (StoreV { root: root@, meta: None, files: seq![], current: None, states: seq![] }),
    {
        let r = Store {
            root: String::from_str(root),
            meta: None,
            files: Vec::new(),
            current: None,
            states: Vec::new(),
        };
        assert(r@ =~= StoreV {
            root: root@,
            meta: None,
            files: seq![],
            current: None,
            states: seq![],
        });
        r
    }

    /// The store after a file was written.
    pub fn after_write(&self, path: &str, text: &str) -> (r: Store)
        ensures
            r@ == written(self@, path@, text@),
    {
        let mut r = self.clone();
        let ghost all = text::views(r.files@);
        let f = StoreFile { path: String::from_str(path), text: String::from_str(text) };
        let mut i: usize = 0;
        while i < r.files.len()
            invariant
                0 <= i <= r.files.len(),
                all == text::views(r.files@),
                all == self@.files,
                r@ == self@,
                file_from(all, path@, 0) == file_from(all, path@, i as int),
                f@ == (StoreFileV { path: path@, text: text@ }),
            decreases r.files.len() - i,
        {
            if text::same(&r.files[i].path, path) {
                r.files.set(i, f);
                proof {
                    assert(text::views(r.files@) =~= all.update(i as int, f@));
                }
                return r;
            }
            i += 1;
        }
        r.files.push(f);
        proof {
            assert(text::views(r.files@) =~= all.push(f@));
        }
        r
    }

    /// The store after a file was moved.
    pub fn after_move(&self, from: &str, to: &str) -> (r: Store)
        ensures
            r@ == file_moved(self@, from@, to@),
    {
        let mut r = self.clone();
        let ghost all = text::views(r.files@);
        let mut i: usize = 0;
        while i < r.files.len()
            invariant
                0 <= i <= r.files.len(),
                all == text::views(r.files@),
                all == self@.files,
                r@ == self@,
                file_from(all, from@, 0) == file_from(all, from@, i as int),
            decreases r.files.len() - i,
        {
            if text::same(&r.files[i].path, from) {
                let f = r.files.remove(i);
                proof {
                    assert(text::views(r.files@) =~= all.remove(i as int));
                }
                return r.after_write(to, &f.text);
            }
            i += 1;
        }
        r
    }

    /// Whether a file is there.
    pub fn has_file(&self, path: &str) -> (r: bool)
        ensures
            r == (file_from(self@.files, path@, 0) is Some),
    {
        let ghost all = text::views(self.files@);
        let mut i: usize = 0;
        while i < self.files.len()
            invariant
                0 <= i <= self.files.len(),
                all == text::views(self.files@),
                all == self@.files,
                file_from(all, path@, 0) == file_from(all, path@, i as int),
            decreases self.files.len() - i,
        {
            if text::same(&self.files[i].path, path) {
                return true;
            }
            i += 1;
        }
        false
    }

    /// The store after the state of a task was written.
    pub fn after_state(&self, id: &str, state: TaskState) -> (r: Store)
        ensures
            r@ == stated(self@, id@, state@),
    {
        let mut r = self.clone();
        let ghost all = text::views(r.states@);
        let st = StoredState { id: String::from_str(id), state };
        let mut i: usize = 0;
        while i < r.states.len()
            invariant
                0 <= i <= r.states.len(),
                all == text::views(r.states@),
                all == self@.states,
                r@ == self@,
                stored_from(all, id@, 0) == stored_from(all, id@, i as int),
                st@ == (StoredStateV { id: id@, state: state@ }),
            decreases r.states.len() - i,
        {
            if text::same(&r.states[i].id, id) {
                r.states.set(i, st);
                proof {
                    assert(text::views(r.states@) =~= all.update(i as int, st@));
                }
                return r;
            }
            i += 1;
        }
        r.states.push(st);
        proof {
            assert(text::views(r.states@) =~= all.push(st@));
        }
        r
    }

    /// The directory of a status.
    pub fn status_dir(&self, status: Status) -> (r: String)
        ensures
            r@ == dir_of(self@.root, status),
    {
        paths::join(&self.root, status.as_str())
    }

    /// The directory of the backups that a sync conflict leaves.
    pub fn conflicts_dir(&self) -> (r: String)
        ensures
            r@ == paths::joined_path(self@.root, "conflicts"@),
    {
        paths::join(&self.root, "conflicts")
    }

    /// The file that names the current task.
    pub fn current_file(&self) -> (r: String)
        ensures
            r@ == paths::joined_path(self@.root, "current"@),
    {
        paths::join(&self.root, "current")
    }

    /// The current task, where one is named.
    pub fn read_current(&self) -> (r: Option<String>)
        ensures
            text::opt_view(r) == current_of(self@),
    {
        match &self.current {
            Some(t) => {
                let id = text::trim(t);
                if id.as_str().is_empty() {
                    None
                } else {
                    Some(id)
                }
            },
            None => None,
        }
    }

    /// The Markdown files below a directory, in the order of their paths.
    fn md_files(&self, dir: &str) -> (r: Vec<StoreFile>)
        ensures
            text::views(r@) == docs_in(self@.files, dir@),
    {
        let prefix = paths::dir_prefix(dir);
        let mut out: Vec<StoreFile> = Vec::new();
        let mut i: usize = 0;
        let ghost all = text::views(self.files@);
        while i < self.files.len()
            invariant
                0 <= i <= self.files.len(),
                all == text::views(self.files@),
                prefix@ == paths::as_prefix(dir@),
                text::views(out@) == docs_in(all.take(i as int), dir@),
            decreases self.files.len() - i,
        {
            let f = &self.files[i];
            proof {
                assert(all.take(i as int + 1).drop_last() =~= all.take(i as int));
                assert(all.take(i as int + 1).last() == f@);
            }
            if text::starts_with(&f.path, &prefix) && paths::markdown_stem(&f.path).is_some() {
                let ghost before = text::views(out@);
                let mut n: usize = out.len();
                while n > 0 && paths::comes_before(&f.path, &out[n - 1].path)
                    invariant
                        0 <= n <= out.len(),
                        before == text::views(out@),
                        inserted(before, f@, before.len() as int) == inserted(
                            before,
                            f@,
                            n as int,
                        ),
                    decreases n,
                {
                    n -= 1;
                }
                out.insert(n, f.clone());
                proof {
                    assert(text::views(out@) =~= before.insert(n as int, f@));
                }
            }
            i += 1;
        }
        proof {
            assert(all.take(i as int) =~= all);
        }
        out
    }

    /// The task that a file holds, where it is a task document.
    fn read_task(f: &StoreFile, status: Status) -> (r: Option<TaskRef>)
        ensures
            opt_task(r) == task_in(f@, status),
    {
        match TaskDoc::parse(&f.text) {
            Ok(doc) => {
                match paths::markdown_stem(&f.path) {
                    Some(slug) => Some(
                        TaskRef {
                            id: doc.front.id.clone(),
                            slug,
                            status,
                            path: f.path.clone(),
                            doc,
                        },
                    ),
                    None => None,
                }
            },
            Err(_) => None,
        }
    }

    /// Appends the tasks of a status to a list.
    fn push_tasks(&self, out: &mut Vec<TaskRef>, status: Status)
        ensures
            text::views(final(out)@) == text::views(old(out)@) + tasks_of(self@, status),
    {
        let files = self.md_files(&self.status_dir(status));
        let ghost start = text::views(out@);
        let ghost all = text::views(files@);
        let mut i: usize = 0;
        proof {
            assert(start + tasks_in(all.take(0), status) =~= start);
        }
        while i < files.len()
            invariant
                0 <= i <= files.len(),
                all == text::views(files@),
                text::views(out@) == start + tasks_in(all.take(i as int), status),
            decreases files.len() - i,
        {
            let ghost before = text::views(out@);
            proof {
                assert(all.take(i as int + 1).drop_last() =~= all.take(i as int));
                assert(all.take(i as int + 1).last() == files@[i as int]@);
            }
            match Store::read_task(&files[i], status) {
                Some(t) => {
                    out.push(t);
                    proof {
                        assert(text::views(out@) =~= before.push(t@));
                        assert(before.push(t@) =~= start + tasks_in(
                            all.take(i as int),
                            status,
                        ).push(t@));
                    }
                },
                None => {},
            }
            i += 1;
        }
        proof {
            assert(all.take(i as int) =~= all);
        }
    }

    /// All tasks of the store, status by status.
    pub fn list_tasks(&self) -> (r: Vec<TaskRef>)
        ensures
            text::views(r@) == all_tasks(self@),
    {
        let mut out: Vec<TaskRef> = Vec::new();
        self.push_tasks(&mut out, Status::Inbox);
        proof {
            assert(text::views(out@) =~= tasks_of(self@, Status::Inbox));
        }
        self.push_tasks(&mut out, Status::Active);
        self.push_tasks(&mut out, Status::Done);
        self.push_tasks(&mut out, Status::Canceled);
        out
    }

    /// How many documents are active, readable or not.
    pub fn active_count(&self) -> (r: usize)
        ensures
            r == docs_in(self@.files, dir_of(self@.root, Status::Active)).len(),
    {
        let files = self.md_files(&self.status_dir(Status::Active));
        assert(text::views(files@).len() == files@.len());
        files.len()
    }

    /// Find a task by exact slug, exact id, or unique prefix of either.
    pub fn find(&self, query: &str) -> (r: Result<TaskRef, String>)
        ensures
            task_result(r) == found(all_tasks(self@), query@),
    {
        find_in(&self.list_tasks(), query)
    }

    /// The first task with an id.
    pub fn find_by_id(&self, id: &str) -> (r: Option<TaskRef>)
        ensures
            opt_task(r) == with_id_from(all_tasks(self@), id@, 0),
    {
        let tasks = self.list_tasks();
        let ghost all = text::views(tasks@);
        let mut i: usize = 0;
        while i < tasks.len()
            invariant
                0 <= i <= tasks.len(),
                all == text::views(tasks@),
                all == all_tasks(self@),
                with_id_from(all, id@, 0) == with_id_from(all, id@, i as int),
            decreases tasks.len() - i,
        {
            if text::same(&tasks[i].id, id) {
                return Some(tasks[i].clone());
            }
            i += 1;
        }
        None
    }

    /// The first task that is linked to an issue.
    pub fn find_by_issue(&self, number: u64) -> (r: Option<TaskRef>)
        ensures
            opt_task(r) == with_issue_from(all_tasks(self@), number, 0),
    {
        let tasks = self.list_tasks();
        let ghost all = text::views(tasks@);
        let mut i: usize = 0;
        while i < tasks.len()
            invariant
                0 <= i <= tasks.len(),
                all == text::views(tasks@),
                all == all_tasks(self@),
                with_issue_from(all, number, 0) == with_issue_from(all, number, i as int),
            decreases tasks.len() - i,
        {
            match tasks[i].doc.front.github_issue {
                Some(n) => {
                    if n == number {
                        return Some(tasks[i].clone());
                    }
                },
                None => {},
            }
            i += 1;
        }
        None
    }

    /// A slug not used by any existing task file (suffix -2, -3, ... on clash).
    pub fn unique_slug(&self, base: &str) -> (r: String)
        ensures
            r@ == free_slug(slugs_of(all_tasks(self@)), base@),
    {
        let tasks = self.list_tasks();
        let mut taken: Vec<String> = Vec::new();
        let ghost all = slugs_of(text::views(tasks@));
        let mut i: usize = 0;
        while i < tasks.len()
            invariant
                0 <= i <= tasks.len(),
                all == slugs_of(text::views(tasks@)),
                text::views(taken@) == all.take(i as int),
            decreases tasks.len() - i,
        {
            let ghost before = text::views(taken@);
            taken.push(tasks[i].slug.clone());
            proof {
                assert(text::views(taken@) =~= before.push(tasks@[i as int].slug@));
                assert(all.take(i as int + 1) =~= all.take(i as int).push(tasks@[i as int].slug@));
            }
            i += 1;
        }
        proof {
            assert(all.take(i as int) =~= all);
        }
        if !is_taken(&taken, base) {
            return String::from_str(base);
        }
        let mut n: u128 = 2;
        let mut left: usize = taken.len();
        loop
            invariant
                all == text::views(taken@),
                2 <= n,
                n as int + left == taken.len() + 2,
                free_slug_from(all, base@, 2, all.len()) == free_slug_from(
                    all,
                    base@,
                    n as nat,
                    left as nat,
                ),
                all.contains(base@),
                all == slugs_of(all_tasks(self@)),
            decreases left,
        {
            let mut candidate = String::from_str(base);
            candidate.append("-");
            candidate.append(&text::format_u128(n));
            if left == 0 || !is_taken(&taken, &candidate) {
                return candidate;
            }
            n += 1;
            left -= 1;
        }
    }
}

/// What a task result stands for.
pub open spec fn task_result(r: Result<TaskRef, String>) -> Result<TaskRefV, Seq<char>> {
    match r {
        Ok(t) => Ok(t@),
        Err(e) => Err(e@),
    }
}

/// Whether a list of texts holds a text.
pub fn is_taken(taken: &Vec<String>, s: &str) -> (r: bool)
    ensures
        r == text::views(taken@).contains(s@),
{
    let ghost all = text::views(taken@);
    let mut i: usize = 0;
    while i < taken.len()
        invariant
            0 <= i <= taken.len(),
            all == text::views(taken@),
            forall|k: int| 0 <= k < i ==> #[trigger] all[k] != s@,
        decreases taken.len() - i,
    {
        if text::same(&taken[i], s) {
            proof {
                assert(all[i as int] == s@);
            }
            return true;
        }
        i += 1;
    }
    false
}

/// The slugs of tasks with a separator between them.
pub fn join_slugs(tasks: &Vec<TaskRef>) -> (r: String)
    ensures
        r@ == text::joined(slugs_of(text::views(tasks@)), ", "@),
{
    let mut slugs: Vec<String> = Vec::new();
    let ghost all = slugs_of(text::views(tasks@));
    let mut i: usize = 0;
    while i < tasks.len()
        invariant
            0 <= i <= tasks.len(),
            all == slugs_of(text::views(tasks@)),
            text::views(slugs@) == all.take(i as int),
        decreases tasks.len() - i,
    {
        let ghost before = text::views(slugs@);
        slugs.push(tasks[i].slug.clone());
        proof {
            assert(text::views(slugs@) =~= before.push(tasks@[i as int].slug@));
            assert(all.take(i as int + 1) =~= all.take(i as int).push(tasks@[i as int].slug@));
        }
        i += 1;
    }
    proof {
        assert(all.take(i as int) =~= all);
    }
    text::join(&slugs, ", ")
}

/// Find a task by exact slug, exact id, or unique prefix of either.
fn find_in(tasks: &Vec<TaskRef>, query: &str) -> (r: Result<TaskRef, String>)
    ensures
        task_result(r) == found(text::views(tasks@), query@),
{
    let ghost all = text::views(tasks@);
    let mut i: usize = 0;
    while i < tasks.len()
        invariant
            0 <= i <= tasks.len(),
            all == text::views(tasks@),
            named_from(all, query@, 0) == named_from(all, query@, i as int),
        decreases tasks.len() - i,
    {
        if text::same(&tasks[i].slug, query) || text::same(&tasks[i].id, query) {
            return Ok(tasks[i].clone());
        }
        i += 1;
    }
    let mut matches: Vec<TaskRef> = Vec::new();
    let mut k: usize = 0;
    while k < tasks.len()
        invariant
            0 <= k <= tasks.len(),
            all == text::views(tasks@),
            text::views(matches@) == prefixed(all.take(k as int), query@),
        decreases tasks.len() - k,
    {
        let ghost before = text::views(matches@);
        proof {
            assert(all.take(k as int + 1).drop_last() =~= all.take(k as int));
            assert(all.take(k as int + 1).last() == tasks@[k as int]@);
        }
        if text::starts_with(&tasks[k].slug, query) || text::starts_with(&tasks[k].id, query) {
            matches.push(tasks[k].clone());
            proof {
                assert(text::views(matches@) =~= before.push(tasks@[k as int]@));
            }
        }
        k += 1;
    }
    proof {
        assert(all.take(k as int) =~= all);
        assert(text::views(matches@).len() == matches@.len());
    }
    if matches.len() == 0 {
        let mut m = String::from_str("no task matches '");
        m.append(query);
        m.append("'");
        Err(m)
    } else if matches.len() == 1 {
        proof {
            assert(text::views(matches@)[0] == matches@[0]@);
        }
        Ok(matches[0].clone())
    } else {
        let mut m = String::from_str("ambiguous task '");
        m.append(query);
        m.append("': ");
        m.append(&join_slugs(&matches));
        Err(m)
    }
}

} // verus!
