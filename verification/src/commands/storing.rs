//! What is done to the files of a store.
use crate::commands::plan::{no_steps, push_step, FrontEdit, FrontEditV, Step, StepV};
use crate::gitx::Repo;
use crate::json;
use crate::paths;
use crate::projects;
use crate::store::{self, Status, Store, StoreV, TaskRef, TaskRefV};
use crate::task::doc;
use crate::task::TaskDoc;
use crate::text;
use vstd::prelude::*;
use vstd::string::*;

verus! {

/// The file name of a document.
pub open spec fn doc_name(slug: Seq<char>) -> Seq<char> {
    slug + ".md"@
}

/// Where a task goes when it takes a status: finished tasks are kept by month.
pub open spec fn moved_path(root: Seq<char>, slug: Seq<char>, to: Status, month: Seq<char>) -> Seq<
    char,
> {
    paths::joined_path(
        if to == Status::Done {
            paths::joined_path(store::dir_of(root, to), month)
        } else {
            store::dir_of(root, to)
        },
        doc_name(slug),
    )
}

/// The steps that move a task to a status and keep its frontmatter in line.
pub open spec fn move_steps(root: Seq<char>, t: TaskRefV, to: Status, month: Seq<char>) -> Seq<
    StepV,
> {
    let dest = moved_path(root, t.slug, to, month);
    seq![
        StepV::MoveDoc { from: t.path, to: dest, slug: t.slug },
        StepV::EditFront { path: dest, edit: FrontEditV::Status(to) },
    ]
}

/// A task that was moved, looked up again by its id. Where documents share an id it is
/// the first of them.
pub open spec fn found_moved(s: StoreV, t: TaskRefV, to: Status, month: Seq<char>) -> Option<
    TaskRefV,
> {
    let after = store::file_moved(s, t.path, moved_path(s.root, t.slug, to, month));
    store::with_id_from(store::all_tasks(after), t.id, 0)
}

/// The step that makes a task the current one.
pub open spec fn current_step(root: Seq<char>, id: Seq<char>) -> StepV {
    StepV::Write { path: paths::joined_path(root, "current"@), text: id + "\n"@ }
}

/// The step after which no task is the current one.
pub open spec fn clear_step(root: Seq<char>) -> StepV {
    StepV::RemoveIfThere(paths::joined_path(root, "current"@))
}

/// The steps that create directories.
pub open spec fn dir_steps(dirs: Seq<Seq<char>>) -> Seq<StepV>
    decreases dirs.len(),
{
    if dirs.len() == 0 {
        seq![]
    } else {
        dir_steps(dirs.drop_last()).push(StepV::MakeDir(dirs.last()))
    }
}

/// The steps that lay out a store: its directories, and its description where it
/// has none.
pub open spec fn layout_steps(
    root: Seq<char>,
    common_dir: Seq<char>,
    remote: Option<Seq<char>>,
) -> Seq<StepV> {
    dir_steps(projects::layout_of(root)).push(
        StepV::WriteNew {
            path: paths::joined_path(root, "meta.json"@),
            text: json::object_text(projects::meta_fields(common_dir, remote)),
        },
    )
}

impl Store {
    /// The step that writes a document.
    pub fn write_doc(&self, path: &str, doc: &TaskDoc) -> (r: Step)
        ensures
            r@ == (StepV::Write { path: path@, text: doc::serialized(doc@) }),
    {
        Step::Write { path: String::from_str(path), text: doc.serialize() }
    }

    /// Where a task goes when it takes a status.
    pub fn dest_of(&self, slug: &str, to: Status, month: &str) -> (r: String)
        ensures
            r@ == moved_path(self@.root, slug@, to, month@),
    {
        let dir = match to {
            Status::Done => paths::join(&self.status_dir(to), month),
            _ => self.status_dir(to),
        };
        let mut name = String::from_str(slug);
        name.append(".md");
        paths::join(&dir, &name)
    }

    /// Atomic claim/move between status dirs: the steps that move a task. The first
    /// fails if the source vanished (lost race).
    pub fn move_task(&self, task: &TaskRef, to: Status, month: &str) -> (r: Vec<Step>)
        ensures
            text::views(r@) == move_steps(self@.root, task@, to, month@),
    {
        let dest = self.dest_of(&task.slug, to, month);
        let mut steps = no_steps();
        push_step(
            &mut steps,
            Step::MoveDoc { from: task.path.clone(), to: dest.clone(), slug: task.slug.clone() },
        );
        // directory is truth; keep frontmatter status in sync
        push_step(&mut steps, Step::EditFront { path: dest, edit: FrontEdit::Status(to) });
        assert(text::views(steps@) =~= move_steps(self@.root, task@, to, month@));
        steps
    }

    /// A task that was moved, looked up again by its id: the first with that id.
    pub fn find_moved(&self, task: &TaskRef, to: Status, month: &str) -> (r: Option<TaskRef>)
        ensures
            store::opt_task(r) == found_moved(self@, task@, to, month@),
    {
        let dest = self.dest_of(&task.slug, to, month);
        self.after_move(&task.path, &dest).find_by_id(&task.id)
    }

    /// The step that makes a task the current one.
    pub fn write_current(&self, id: &str) -> (r: Step)
        ensures
            r@ == current_step(self@.root, id@),
    {
        let mut text = String::from_str(id);
        text.append("\n");
        Step::Write { path: self.current_file(), text }
    }

    /// The step after which no task is the current one.
    pub fn clear_current(&self) -> (r: Step)
        ensures
            r@ == clear_step(self@.root),
    {
        Step::RemoveIfThere(self.current_file())
    }

    /// The steps that lay out a store: its directories, and its description where
    /// it has none.
    pub fn ensure_layout(&self, repo: &Repo, remote: &Option<String>) -> (r: Vec<Step>)
        ensures
            text::views(r@) == layout_steps(
                self@.root,
                repo@.common_dir,
                text::opt_view(*remote),
            ),
    {
        let dirs = projects::layout_dirs(&self.root);
        let mut steps = no_steps();
        let ghost all = text::views(dirs@);
        let mut i: usize = 0;
        while i < dirs.len()
            invariant
                0 <= i <= dirs.len(),
                all == text::views(dirs@),
                text::views(steps@) == dir_steps(all.take(i as int)),
            decreases dirs.len() - i,
        {
            proof {
                assert(all.take(i as int + 1).drop_last() =~= all.take(i as int));
                assert(all.take(i as int + 1).last() == dirs@[i as int]@);
            }
            push_step(&mut steps, Step::MakeDir(dirs[i].clone()));
            i += 1;
        }
        proof {
            assert(all.take(i as int) =~= all);
        }
        let text = projects::meta_text(&repo.common_dir, remote);
        push_step(&mut steps, Step::WriteNew { path: paths::join(&self.root, "meta.json"), text });
        steps
    }
}

} // verus!
