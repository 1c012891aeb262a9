//! The three-way comparison between a task and its issue or pull request.
pub use crate::commands::syncing::{clear_conflict, write_conflict};
use crate::paths;
use crate::store::{Store, TaskRef};
use crate::task;
use crate::task::managed;
use crate::text;
use crate::util;
use vstd::prelude::*;
use vstd::string::*;

verus! {

/// 3-way comparison outcome for one sync surface (issue or PR).
#[derive(Debug, Clone, Copy, PartialEq, Eq, Structural)]
pub enum SyncPlan {
    UpToDate,
    Push,
    Pull,
    Conflict,
}

/// What to do, given the hash at the last sync, the local and the remote hash. A
/// remote without a block counts as unchanged.
pub open spec fn planned(
    base: Option<Seq<char>>,
    local: Seq<char>,
    remote: Option<Seq<char>>,
) -> SyncPlan {
    let local_changed = base != Some(local);
    let remote_changed = remote is Some && base != remote;
    match (local_changed, remote_changed) {
        (false, false) => SyncPlan::UpToDate,
        (true, false) => SyncPlan::Push,
        (false, true) => SyncPlan::Pull,
        (true, true) => SyncPlan::Conflict,
    }
}

/// Whether two optional texts are there and the same.
fn is_text(a: Option<&str>, b: &str) -> (r: bool)
    ensures
        r == (crate::projects::str_view(a) == Some(b@)),
{
    match a {
        Some(x) => text::same(x, b),
        None => false,
    }
}

/// base: synced hash at last successful push/pull. local/remote: current hashes
/// of the managed block. `issue.updated_at` is deliberately not used.
pub fn plan(base: Option<&str>, local_hash: &str, remote_hash: Option<&str>) -> (r: SyncPlan)
    ensures
        r == planned(
            crate::projects::str_view(base),
            local_hash@,
            crate::projects::str_view(remote_hash),
        ),
{
    let local_changed = !is_text(base, local_hash);
    let remote_changed = match remote_hash {
        // no remote managed section yet → treat as remote unchanged (first push)
        None => false,
        Some(h) => !is_text(base, h),
    };
    if local_changed {
        if remote_changed {
            SyncPlan::Conflict
        } else {
            SyncPlan::Push
        }
    } else if remote_changed {
        SyncPlan::Pull
    } else {
        SyncPlan::UpToDate
    }
}

/// The hash of a block.
pub open spec fn hash_of(block: Seq<char>) -> Seq<char> {
    util::tag_of(text::trimmed(block))
}

/// The hash of a block, without white space around it.
pub fn hash_block(block: &str) -> (r: String)
    ensures
        r@ == hash_of(block@),
{
    util::sha256_tag(&text::trim(block))
}

/// The backup of a task that a conflict leaves.
pub open spec fn backup_path(root: Seq<char>, slug: Seq<char>, suffix: Seq<char>) -> Seq<char> {
    paths::joined_path(paths::joined_path(root, "conflicts"@), slug + suffix)
}

/// Where a conflict leaves the local and the remote version.
pub fn conflict_paths(store: &Store, task: &TaskRef) -> (r: (String, String))
    ensures
        r.0@ == backup_path(store@.root, task@.slug, ".local.md"@),
        r.1@ == backup_path(store@.root, task@.slug, ".remote.md"@),
{
    let dir = store.conflicts_dir();
    let mut local = task.slug.clone();
    local.append(".local.md");
    let mut remote = task.slug.clone();
    remote.append(".remote.md");
    (paths::join(&dir, &local), paths::join(&dir, &remote))
}

/// The managed block of a remote body, if any.
pub open spec fn block_in(remote: Seq<char>) -> Option<Seq<char>> {
    match managed::managed_of(remote) {
        Some((_, block, _)) => Some(block),
        None => None,
    }
}

/// Extract the managed block from a remote body, if any.
pub fn remote_block(remote_body: &str) -> (r: Option<String>)
    ensures
        text::opt_view(r) == block_in(remote_body@),
{
    match task::extract_managed(remote_body) {
        Some((_, block, _)) => Some(block),
        None => None,
    }
}

/// A sync conflict (local and remote both changed since the last sync). A typed
/// error so callers — notably the TUI — can detect it and offer a force-push,
/// rather than string-matching the message.
#[derive(Debug)]
pub struct Conflict {
    pub surface: String,
    pub slug: String,
}

/// What a [`Conflict`] stands for.
#[verifier::ext_equal]
pub struct ConflictV {
    pub surface: Seq<char>,
    pub slug: Seq<char>,
}

impl View for Conflict {
    type V = ConflictV;

    open spec fn view(&self) -> ConflictV {
        ConflictV { surface: self.surface@, slug: self.slug@ }
    }
}

impl Clone for Conflict {
    fn clone(&self) -> (r: Self)
        ensures
            r@ == self@,
    {
        Conflict { surface: self.surface.clone(), slug: self.slug.clone() }
    }
}

/// The guidance that the user gets on a conflict.
pub open spec fn conflict_text(c: ConflictV) -> Seq<char> {
    "conflict on "@ + c.surface + " for '"@ + c.slug
        + "': local and remote both changed since last sync.\nBackups written to conflicts/. Resolve the local document, then run `rein push --resolved` (TUI: press `f` to force-push)."@
}

impl Conflict {
    /// The guidance that the user gets.
    pub fn message(&self) -> (r: String)
        ensures
            r@ == conflict_text(self@),
    {
        let mut m = String::from_str("conflict on ");
        m.append(&self.surface);
        m.append(" for '");
        m.append(&self.slug);
        m.append(
            "': local and remote both changed since last sync.\nBackups written to conflicts/. Resolve the local document, then run `rein push --resolved` (TUI: press `f` to force-push).",
        );
        m
    }
}

/// The conflict of a task on a surface.
pub fn conflict_error(task: &TaskRef, surface: &str) -> (r: Conflict)
    ensures
        r@ == (ConflictV { surface: surface@, slug: task@.slug }),
{
    Conflict { surface: String::from_str(surface), slug: task.slug.clone() }
}

/// Why a remote body must not be overwritten: the block in it belongs to another
/// task.
pub open spec fn owned_by_other(remote: Seq<char>, task_id: Seq<char>) -> Option<Seq<char>> {
    match managed::managed_of(remote) {
        Some((id, _, _)) => if id != task_id {
            Some(
                "remote managed section belongs to '"@ + id + "', not '"@ + task_id
                    + "' — refusing to overwrite"@,
            )
        } else {
            None
        },
        None => None,
    }
}

/// Guard: a managed block in the remote body must belong to the task.
pub fn check_ownership(remote_body: &str, task_id: &str) -> (r: Result<(), String>)
    ensures
        match r {
            Ok(_) => owned_by_other(remote_body@, task_id@) is None,
            Err(e) => owned_by_other(remote_body@, task_id@) == Some(e@),
        },
{
    match task::extract_managed(remote_body) {
        Some((id, _, _)) => {
            if !text::same(&id, task_id) {
                let mut m = String::from_str("remote managed section belongs to '");
                m.append(&id);
                m.append("', not '");
                m.append(task_id);
                m.append("' — refusing to overwrite");
                return Err(m);
            }
            Ok(())
        },
        None => Ok(()),
    }
}

// ---------------------------------------------------------------------------
// Laws
// ---------------------------------------------------------------------------

/// The table of the three-way comparison. A lost base with both sides there is a
/// conflict unless nothing tells them apart from it; no remote block is a first
/// push.
pub proof fn law_three_way_table(base: Seq<char>, local: Seq<char>, remote: Seq<char>)
    ensures
        planned(Some(base), base, Some(base)) == SyncPlan::UpToDate,
        local != base ==> planned(Some(base), local, Some(base)) == SyncPlan::Push,
        remote != base ==> planned(Some(base), base, Some(remote)) == SyncPlan::Pull,
        local != base && remote != base ==> planned(Some(base), local, Some(remote))
            == SyncPlan::Conflict,
        planned(None, local, Some(remote)) == SyncPlan::Conflict,
        planned(None, local, None) == SyncPlan::Push,
        planned(Some(local), local, None) == SyncPlan::UpToDate,
{
}

/// A remote change is never overwritten by a plain push: a push is planned only
/// where the remote is as it was at the last sync, or has no block.
pub proof fn law_push_overwrites_no_remote_change(
    base: Option<Seq<char>>,
    local: Seq<char>,
    remote: Option<Seq<char>>,
)
    ensures
        planned(base, local, remote) == SyncPlan::Push ==> remote is None || remote == base,
        planned(base, local, remote) == SyncPlan::Pull ==> base == Some(local),
{
}

/// After a push the task is in sync: the block that was written is read back with
/// the hash that was recorded, it belongs to the task, and nothing is left to do.
pub proof fn law_pushed_is_up_to_date(remote: Seq<char>, id: Seq<char>, inner: Seq<char>)
    requires
        task::block_laws::fits_block(id, inner),
        crate::facts::snug(id),
        managed::block_range(text::lines_of(remote)) is None ==> managed::begin_from(
            text::lines_of(remote),
            0,
        ) is None,
    ensures
        ({
            let block = managed::wrapped(id, inner);
            let pushed = managed::with_block(remote, block);
            &&& owned_by_other(pushed, id) is None
            &&& block_in(pushed) == Some(block)
            &&& planned(
                Some(hash_of(block)),
                hash_of(block),
                Some(hash_of(block_in(pushed).unwrap())),
            ) == SyncPlan::UpToDate
        }),
{
    task::block_laws::law_written_block_reads_back(remote, id, inner);
    crate::facts::lemma_trimmed_snug(id);
}

/// After a pull the task is in sync: the block that its document now makes is the
/// one that was pulled, so that its hash is the one that was recorded.
pub proof fn law_pulled_is_up_to_date(
    id: Seq<char>,
    inner: Seq<char>,
    doc: task::doc::TaskDocV,
)
    requires
        doc.front.id == id,
        crate::facts::settled(text::lines_of(doc.body)),
        crate::facts::no_crlf(text::trimmed(inner)),
        !crate::facts::has_line(
            text::lines_of(text::trimmed(inner)),
            task::sections::AGENT_LOG_HEADING@,
        ),
    ensures
        ({
            let pulled = task::doc::TaskDocV {
                body: task::sections::merged_body(inner, doc.body),
                ..doc
            };
            &&& managed::issue_block(pulled) == managed::wrapped(id, inner)
            &&& planned(
                Some(hash_of(managed::wrapped(id, inner))),
                hash_of(managed::issue_block(pulled)),
                Some(hash_of(managed::wrapped(id, inner))),
            ) == SyncPlan::UpToDate
        }),
{
    task::log_laws::law_pull_keeps_the_log(inner, doc.body);
    crate::facts::lemma_trimmed_is_snug(inner);
    crate::facts::lemma_trimmed_snug(text::trimmed(inner));
}

/// A block of another task is never overwritten.
pub proof fn law_foreign_block_is_refused(
    remote: Seq<char>,
    id: Seq<char>,
    inner: Seq<char>,
    task_id: Seq<char>,
)
    requires
        task::block_laws::fits_block(id, inner),
        managed::block_range(text::lines_of(remote)) is None ==> managed::begin_from(
            text::lines_of(remote),
            0,
        ) is None,
        text::trimmed(id) != task_id,
    ensures
        owned_by_other(managed::with_block(remote, managed::wrapped(id, inner)), task_id) is Some,
{
    task::block_laws::law_written_block_reads_back(remote, id, inner);
}

/// A log entry causes no push: the hash of what an issue shows is the same.
pub proof fn law_log_entry_needs_no_push(doc: task::doc::TaskDocV, entry: Seq<char>)
    requires
        crate::facts::settled_line(entry),
        match task::sections::section(
            text::lines_of(doc.body),
            task::sections::AGENT_LOG_HEADING@,
        ) {
            Some(_) => crate::facts::settled(text::lines_of(doc.body)),
            None => crate::facts::no_crlf(doc.body),
        },
    ensures
        managed::issue_block(
            (task::doc::TaskDocV { body: task::sections::with_log(doc.body, entry), ..doc }),
        ) == managed::issue_block(doc),
{
    task::log_laws::law_log_stays_local(doc.body, entry);
}

} // verus!
