//! Commands that work on the store alone.
use crate::commands::items;
use crate::commands::plan::{self, no_steps, one_step, push_say, push_step, push_steps, refuse};
use crate::commands::plan::{Outcome, OutcomeV, StateEdit, StateEditV, Step, StepV};
use crate::commands::storing;
use crate::commands::sync_cmd::{self, inbox_place};
use crate::ctx::{Ctx, CtxV};
use crate::gitx::{self, GitCallV, Repo, RepoV};
use crate::paths;
use crate::projects;
use crate::resolve::{self, Source};
use crate::state;
use crate::store::{self, Status, Store, StoreV, TaskRef, TaskRefV};
use crate::task;
use crate::task::doc::{self, FrontmatterV, TaskDocV};
use crate::task::items::{self as checklist, ItemV};
use crate::task::TaskDoc;
use crate::text;
use crate::util;
use vstd::prelude::*;
use vstd::string::*;

verus! {

// ---------------------------------------------------------------------------
// The skill
// ---------------------------------------------------------------------------

/// The bundled `run-rein-task` skill.
pub const SKILL_MD: &'static str = r#"---
description: Run the current LLM task document, implement unchecked tasks, update status via rein commands, and append execution notes.
disable-model-invocation: true
---

Run `rein todo` to list the current task's unchecked items. Each line is `<id>` then the item text, grouped under its `## section`. Read the full document with `rein current --path` only when you need the Goal or Notes for context.

Rules:

1. Execute only the unchecked items `rein todo` prints.
2. Never edit checkboxes or Agent Log in the Markdown directly. Use:
   - `rein check <item-id>` after a task is implemented and verified
   - `rein log "<text>" --item <item-id>` to record progress on a specific item — `--item` is required and the entry is tagged so it shows under that item in `rein ui`
   - `rein note "<text>"` to append an Agent Log entry not tied to any specific item
   - `rein fail <item-id> --reason "<text>"` when blocked — resolves the item (it drops out of `rein todo`, so a re-run won't re-attempt it); `rein retry <item-id>` reopens it
3. Preserve `<!-- task:... -->` ID comments when editing other sections.
4. Run relevant tests before checking validation items.
5. If a PR is attached, run `rein push` when finished.
"#;

/// What a run is told to do.
pub fn run_task_prompt() -> (r: &'static str)
    ensures
        r@ == SKILL_MD@,
{
    SKILL_MD
}

/// The step that writes the skill below a directory, and where it goes.
fn skill_under(base: &str, rel: &str) -> (r: (Step, String))
    ensures
        r.1@ == paths::joined_path(base@, rel@),
        r.0@ == (StepV::Write { path: r.1@, text: SKILL_MD@ }),
{
    let path = paths::join(base, rel);
    (Step::Write { path: path.clone(), text: String::from_str(SKILL_MD) }, path)
}

/// The directory of an agent's configuration, in a repository or at home.
pub open spec fn dot_dir(claude: Seq<char>) -> Seq<char> {
    "."@ + claude
}

/// Where an agent discovers the skill, in a repository.
pub open spec fn skill_rel(claude: Seq<char>) -> Seq<char> {
    dot_dir(claude) + "/skills/run-rein-task/SKILL.md"@
}

/// Write the bundled `run-rein-task` skill under the `skills/` of an agent's directory
/// in `base`, returning its path.
pub fn write_skill(base: &str, claude: &str) -> (r: (Step, String))
    ensures
        r.1@ == paths::joined_path(base@, skill_rel(claude@)),
        r.0@ == (StepV::Write { path: r.1@, text: SKILL_MD@ }),
{
    let mut rel = String::from_str(".");
    rel.append(claude);
    rel.append("/skills/run-rein-task/SKILL.md");
    skill_under(base, &rel)
}

/// Write the bundled `run-rein-task` skill where Codex/agent runners discover
/// project skills.
pub fn write_agent_skill(base: &str) -> (r: (Step, String))
    ensures
        r.1@ == paths::joined_path(base@, ".agents/skills/run-rein-task/SKILL.md"@),
        r.0@ == (StepV::Write { path: r.1@, text: SKILL_MD@ }),
{
    skill_under(base, ".agents/skills/run-rein-task/SKILL.md")
}

/// An agent's config dir.
pub open spec fn config_dir(
    config: Option<Seq<char>>,
    home: Option<Seq<char>>,
    claude: Seq<char>,
) -> Option<Seq<char>> {
    match projects::given(config) {
        Some(d) => Some(d),
        None => match projects::given(home) {
            Some(h) => Some(paths::joined_path(h, dot_dir(claude))),
            None => None,
        },
    }
}

/// A value that is set and not empty.
fn set_value(v: &Option<String>) -> (r: Option<String>)
    ensures
        text::opt_view(r) == projects::given(text::opt_view(*v)),
{
    match v {
        Some(s) => if s.as_str().is_empty() {
            None
        } else {
            Some(s.clone())
        },
        None => None,
    }
}

/// An agent's config dir: `$CLAUDE_CONFIG_DIR`, or the one that is named after it at
/// home. `None` if HOME is unset and the env isn't given. Skills live under `skills/`,
/// transcripts under `projects/`.
pub fn claude_config_dir(config: &Option<String>, home: &Option<String>, claude: &str) -> (r: Option<
    String,
>)
    ensures
        text::opt_view(r) == config_dir(
            text::opt_view(*config),
            text::opt_view(*home),
            claude@,
        ),
{
    match set_value(config) {
        Some(d) => Some(d),
        None => match set_value(home) {
            Some(h) => {
                let mut dir = String::from_str(".");
                dir.append(claude);
                Some(paths::join(&h, &dir))
            },
            None => None,
        },
    }
}

/// Personal (user-level) location of the bundled skill.
pub open spec fn user_skill(
    config: Option<Seq<char>>,
    home: Option<Seq<char>>,
    claude: Seq<char>,
) -> Option<Seq<char>> {
    match config_dir(config, home, claude) {
        Some(d) => Some(paths::joined_path(d, "skills/run-rein-task/SKILL.md"@)),
        None => None,
    }
}

/// Personal (user-level) location of the bundled skill, where the agent discovers it
/// for every project regardless of cwd.
pub fn user_skill_path(config: &Option<String>, home: &Option<String>, claude: &str) -> (r: Option<
    String,
>)
    ensures
        text::opt_view(r) == user_skill(
            text::opt_view(*config),
            text::opt_view(*home),
            claude@,
        ),
{
    match claude_config_dir(config, home, claude) {
        Some(d) => Some(paths::join(&d, "skills/run-rein-task/SKILL.md")),
        None => None,
    }
}

/// The steps that install the bundled skill at the user level: none where it is there.
pub open spec fn skill_steps(path: Option<Seq<char>>, exists: bool) -> Seq<StepV> {
    match path {
        Some(path) => if exists {
            seq![]
        } else {
            seq![
                StepV::Write { path, text: SKILL_MD@ },
                StepV::Say("installed run-rein-task skill at "@ + path),
            ]
        },
        None => seq![],
    }
}

/// Install the bundled skill at the user level if absent, so `rein run` resolves
/// `/run-rein-task` in any worktree without adding files to the repo. Leaves an
/// existing (possibly customized) skill untouched.
pub fn ensure_user_skill(
    config: &Option<String>,
    home: &Option<String>,
    claude: &str,
    exists: bool,
) -> (r: Vec<Step>)
    ensures
        text::views(r@) == skill_steps(
            user_skill(text::opt_view(*config), text::opt_view(*home), claude@),
            exists,
        ),
{
    let mut steps = no_steps();
    match user_skill_path(config, home, claude) {
        Some(path) => {
            if !exists {
                let mut line = String::from_str("installed run-rein-task skill at ");
                line.append(&path);
                push_step(&mut steps, Step::Write { path, text: String::from_str(SKILL_MD) });
                push_say(&mut steps, line);
                assert(text::views(steps@) =~= seq![
                    StepV::Write { path: path@, text: SKILL_MD@ },
                    StepV::Say("installed run-rein-task skill at "@ + path@),
                ]);
            }
        },
        None => {},
    }
    steps
}

// ---------------------------------------------------------------------------
// init
// ---------------------------------------------------------------------------

/// What `rein init` does.
pub open spec fn initialized(
    s: StoreV,
    repo: RepoV,
    remote: Option<Seq<char>>,
    key: Seq<char>,
    created: bool,
    skill: bool,
    claude: Seq<char>,
) -> Seq<StepV> {
    let own = paths::joined_path(repo.workdir, skill_rel(claude));
    let agents = paths::joined_path(repo.workdir, ".agents/skills/run-rein-task/SKILL.md"@);
    (if created {
        seq![
            StepV::Git {
                call: GitCallV { dir: repo.workdir, args: seq!["config"@, "rein.store"@, key] },
                context: None,
            },
        ]
    } else {
        seq![]
    }) + storing::layout_steps(s.root, repo.common_dir, remote) + (if created {
        seq![StepV::Say("registered store key in git config rein.store ("@ + key + ")"@)]
    } else {
        seq![]
    }) + seq![StepV::Say("store: "@ + s.root)] + (if skill {
        seq![
            StepV::Write { path: own, text: SKILL_MD@ },
            StepV::Say("skill: "@ + own),
            StepV::Write { path: agents, text: SKILL_MD@ },
            StepV::Say("agent skill: "@ + agents),
        ]
    } else {
        seq![]
    })
}

/// A line that names a place.
fn line_with(head: &str, path: &str) -> (r: String)
    ensures
        r@ == head@ + path@,
{
    let mut line = String::from_str(head);
    line.append(path);
    line
}

/// `rein init [--skill]`: creates the store and registers its key.
pub fn init(
    s: &Store,
    repo: &Repo,
    remote: &Option<String>,
    key: &str,
    created: bool,
    skill: bool,
    claude: &str,
) -> (r: Vec<Step>)
    ensures
        text::views(r@) == initialized(
            s@,
            repo@,
            text::opt_view(*remote),
            key@,
            created,
            skill,
            claude@,
        ),
{
    let mut steps = no_steps();
    if created {
        push_step(
            &mut steps,
            Step::Git { call: repo.config_set("rein.store", key), context: None },
        );
    }
    push_steps(&mut steps, s.ensure_layout(repo, remote));
    if created {
        let mut line = line_with("registered store key in git config rein.store (", key);
        line.append(")");
        push_say(&mut steps, line);
    }
    push_say(&mut steps, line_with("store: ", &s.root));
    if skill {
        let (write, path) = write_skill(&repo.workdir, claude);
        push_step(&mut steps, write);
        push_say(&mut steps, line_with("skill: ", &path));
        let (write, path) = write_agent_skill(&repo.workdir);
        push_step(&mut steps, write);
        push_say(&mut steps, line_with("agent skill: ", &path));
    }
    assert(text::views(steps@) =~= initialized(
        s@,
        repo@,
        text::opt_view(*remote),
        key@,
        created,
        skill,
        claude@,
    ));
    steps
}

// ---------------------------------------------------------------------------
// new
// ---------------------------------------------------------------------------

/// The slug of a new task.
pub open spec fn new_slug(s: StoreV, title: Seq<char>) -> Seq<char> {
    store::free_slug(store::slugs_of(store::all_tasks(s)), util::slug_of(title))
}

/// The id of a new task.
pub open spec fn new_id(s: StoreV, title: Seq<char>, today: Seq<char>) -> Seq<char> {
    "task-"@ + today + "-"@ + new_slug(s, title)
}

/// The document path of a new task.
pub open spec fn new_path(s: StoreV, title: Seq<char>) -> Seq<char> {
    paths::joined_path(
        store::dir_of(s.root, Status::Inbox),
        storing::doc_name(new_slug(s, title)),
    )
}

/// The steps that create a task.
pub open spec fn creation(
    s: StoreV,
    title: Seq<char>,
    shared: bool,
    today: Seq<char>,
    now: Seq<char>,
) -> Seq<StepV> {
    let id = new_id(s, title, today);
    seq![
        StepV::Write {
            path: new_path(s, title),
            text: doc::serialized(doc::new_doc(id, title, "inbox"@, now, shared)),
        },
        StepV::EditState {
            id,
            edits: seq![
                StateEditV::Fresh,
                StateEditV::Path(sync_cmd::inbox_rel(new_slug(s, title))),
            ],
        },
    ]
}

/// A task that was created: its id, its document path, and the steps that create it.
pub struct Created {
    pub id: String,
    pub path: String,
    pub steps: Vec<Step>,
}

/// Create an inbox task draft in `store`. Returns its id and document path.
/// Store-only (no repo) so the TUI can create in any discovered project.
pub fn create_task(s: &Store, title: &str, shared: bool, today: &str, now: &str) -> (r: Result<
    Created,
    String,
>)
    ensures
        match r {
            Ok(c) => {
                &&& store::file_from(s@.files, new_path(s@, title@), 0) is None
                &&& c.id@ == new_id(s@, title@, today@)
                &&& c.path@ == new_path(s@, title@)
                &&& text::views(c.steps@) == creation(s@, title@, shared, today@, now@)
            },
            Err(e) => {
                &&& store::file_from(s@.files, new_path(s@, title@), 0) is Some
                &&& e@ == "file already exists: "@ + new_path(s@, title@)
            },
        },
{
    let slug = s.unique_slug(&util::slugify(title));
    let mut id = String::from_str("task-");
    id.append(today);
    id.append("-");
    id.append(&slug);
    let d = TaskDoc::template(&id, title, "inbox", now, shared);
    let mut name = slug.clone();
    name.append(".md");
    let path = paths::join(&s.status_dir(Status::Inbox), &name);
    if s.has_file(&path) {
        return Err(line_with("file already exists: ", &path));
    }
    let mut edits: Vec<StateEdit> = Vec::new();
    edits.push(StateEdit::Fresh);
    edits.push(StateEdit::Path(inbox_place(&slug)));
    assert(text::views(edits@) =~= seq![
        StateEditV::Fresh,
        StateEditV::Path(sync_cmd::inbox_rel(new_slug(s@, title@))),
    ]);
    let mut steps = one_step(s.write_doc(&path, &d));
    push_step(&mut steps, Step::EditState { id: id.clone(), edits });
    assert(text::views(steps@) =~= creation(s@, title@, shared, today@, now@));
    Ok(Created { id, path, steps })
}

/// What `rein new` does.
pub open spec fn new_outcome(
    s: StoreV,
    title: Seq<char>,
    shared: bool,
    today: Seq<char>,
    now: Seq<char>,
) -> OutcomeV {
    if store::file_from(s.files, new_path(s, title), 0) is Some {
        plan::refusal("file already exists: "@ + new_path(s, title))
    } else {
        plan::completed(
            creation(s, title, shared, today, now).push(StepV::Say(new_id(s, title, today))).push(
                StepV::Say(new_path(s, title)),
            ),
        )
    }
}

/// `rein new <title> [--shared]`: creates a task and prints its id and path.
pub fn new(ctx: &Ctx, title: &str, shared: bool, today: &str, now: &str) -> (r: Outcome)
    ensures
        r@ == new_outcome(ctx@.store, title@, shared, today@, now@),
{
    match create_task(&ctx.store, title, shared, today, now) {
        Err(e) => refuse(e),
        Ok(c) => {
            let mut steps = c.steps;
            push_say(&mut steps, c.id);
            push_say(&mut steps, c.path);
            plan::complete(steps)
        },
    }
}

// ---------------------------------------------------------------------------
// Queries
// ---------------------------------------------------------------------------

/// One line of the listing.
pub open spec fn list_line(t: TaskRefV) -> Seq<char> {
    text::padded(t.status.name(), 9) + " "@ + text::padded(t.slug, 28) + " "@ + text::padded(
        t.id,
        40,
    ) + " "@ + t.doc.front.title
}

/// The listing of tasks, of one status or of all.
pub open spec fn listing(ts: Seq<TaskRefV>, only: Option<Status>) -> Seq<Seq<char>>
    decreases ts.len(),
{
    if ts.len() == 0 {
        seq![]
    } else if only is None || only == Some(ts.last().status) {
        listing(ts.drop_last(), only).push(list_line(ts.last()))
    } else {
        listing(ts.drop_last(), only)
    }
}

/// One line of the listing.
fn line_of(t: &TaskRef) -> (r: String)
    ensures
        r@ == list_line(t@),
{
    let mut line = text::pad_end(t.status.as_str(), 9);
    line.append(" ");
    line.append(&text::pad_end(&t.slug, 28));
    line.append(" ");
    line.append(&text::pad_end(&t.id, 40));
    line.append(" ");
    line.append(&t.doc.front.title);
    line
}

/// Adds a line.
pub fn push_line(lines: &mut Vec<String>, line: String)
    ensures
        text::views(final(lines)@) == text::views(old(lines)@).push(line@),
{
    let ghost before = text::views(lines@);
    lines.push(line);
    assert(text::views(lines@) =~= before.push(line@));
}

/// What `rein list` prints.
pub open spec fn listed(s: StoreV, status: Option<Seq<char>>) -> Result<Seq<Seq<char>>, Seq<char>> {
    match status {
        None => Ok(listing(store::all_tasks(s), None)),
        Some(x) => match Status::named(x) {
            Some(only) => Ok(listing(store::all_tasks(s), Some(only))),
            None => Err("unknown status '"@ + x + "'"@),
        },
    }
}

/// `rein list [--status <s>]`: lists the tasks.
pub fn list(ctx: &Ctx, status: Option<&str>) -> (r: Result<Vec<String>, String>)
    ensures
        match r {
            Ok(lines) => listed(ctx@.store, projects::str_view(status)) == Ok::<
                Seq<Seq<char>>,
                Seq<char>,
            >(text::views(lines@)),
            Err(e) => listed(ctx@.store, projects::str_view(status)) == Err::<
                Seq<Seq<char>>,
                Seq<char>,
            >(e@),
        },
{
    let only = match status {
        Some(s) => match Status::parse(s) {
            Some(x) => Some(x),
            None => {
                let mut m = String::from_str("unknown status '");
                m.append(s);
                m.append("'");
                return Err(m);
            },
        },
        None => None,
    };
    let tasks = ctx.store.list_tasks();
    let ghost all = text::views(tasks@);
    let mut lines: Vec<String> = Vec::new();
    let mut i: usize = 0;
    while i < tasks.len()
        invariant
            0 <= i <= tasks.len(),
            all == text::views(tasks@),
            text::views(lines@) == listing(all.take(i as int), only),
        decreases tasks.len() - i,
    {
        proof {
            assert(all.take(i as int + 1).drop_last() =~= all.take(i as int));
            assert(all.take(i as int + 1).last() == tasks@[i as int]@);
        }
        let kept = match only {
            None => true,
            Some(s) => s == tasks[i].status,
        };
        if kept {
            push_line(&mut lines, line_of(&tasks[i]));
        }
        i += 1;
    }
    proof {
        assert(all.take(i as int) =~= all);
    }
    Ok(lines)
}

/// What `rein current` prints.
pub open spec fn current_line(c: CtxV, path: bool) -> Result<Seq<char>, Seq<char>> {
    match resolve::resolved(c, None) {
        Ok((t, _)) => Ok(
            if path {
                t.path
            } else {
                t.id
            },
        ),
        Err(e) => Err(e),
    }
}

/// `rein current [--path]`: the resolved task, or its document path.
pub fn current(ctx: &Ctx, path: bool) -> (r: Result<String, String>)
    ensures
        match r {
            Ok(line) => current_line(ctx@, path) == Ok::<Seq<char>, Seq<char>>(line@),
            Err(m) => current_line(ctx@, path) == Err::<Seq<char>, Seq<char>>(m@),
        },
{
    match resolve::resolve_task(ctx, None) {
        Ok((t, _)) => Ok(
            if path {
                t.path
            } else {
                t.id
            },
        ),
        Err(e) => Err(e),
    }
}

/// What `rein use` does.
pub open spec fn used(c: CtxV, query: Seq<char>) -> OutcomeV {
    match store::found(store::all_tasks(c.store), query) {
        Err(e) => plan::refusal(e),
        Ok(t) => if gitx::trimmed_given(c.repo.pointer) is Some {
            plan::completed(
                seq![
                    StepV::Write {
                        path: paths::joined_path(c.repo.git_dir, "rein-task"@),
                        text: t.id + "\n"@,
                    },
                    StepV::Say("worktree now bound to "@ + t.id),
                ],
            )
        } else {
            plan::completed(
                seq![
                    storing::current_step(c.store.root, t.id),
                    StepV::Say("current is now "@ + t.id),
                ],
            )
        },
    }
}

/// `rein use <task>`: switches the task binding. Symmetric with resolution: a bound
/// worktree rebinds its pointer, anywhere else writes the single-mode current file.
pub fn use_task(ctx: &Ctx, query: &str) -> (r: Outcome)
    ensures
        r@ == used(ctx@, query@),
{
    match ctx.store.find(query) {
        Err(e) => refuse(e),
        Ok(t) => {
            let mut steps = no_steps();
            if ctx.repo.read_task_pointer().is_some() {
                push_step(
                    &mut steps,
                    Step::Write {
                        path: ctx.repo.task_pointer(),
                        text: Repo::write_task_pointer(&t.id),
                    },
                );
                push_say(&mut steps, line_with("worktree now bound to ", &t.id));
            } else {
                push_step(&mut steps, ctx.store.write_current(&t.id));
                push_say(&mut steps, line_with("current is now ", &t.id));
            }
            assert(text::views(steps@) =~= used(ctx@, query@).steps);
            plan::complete(steps)
        },
    }
}

/// `rein root`: where the store is.
pub fn root(ctx: &Ctx) -> (r: String)
    ensures
        r@ == ctx@.store.root,
{
    ctx.store.root.clone()
}

/// What `rein open` edits.
pub open spec fn to_open(s: StoreV, query: Option<Seq<char>>) -> Result<
    Option<Seq<char>>,
    Seq<char>,
> {
    match query {
        Some(q) => match store::found(store::all_tasks(s), q) {
            Ok(t) => Ok(Some(t.path)),
            Err(e) => Err(e),
        },
        None => if store::all_tasks(s).len() == 0 {
            Err("no tasks — create one with `rein new <title>`"@)
        } else {
            Ok(None)
        },
    }
}

/// What `rein open` edits: the document that is asked for; without a query the
/// user picks one, where there are tasks.
pub fn open(ctx: &Ctx, task: Option<&str>) -> (r: Result<Option<String>, String>)
    ensures
        match r {
            Ok(p) => to_open(ctx@.store, projects::str_view(task)) == Ok::<
                Option<Seq<char>>,
                Seq<char>,
            >(text::opt_view(p)),
            Err(m) => to_open(ctx@.store, projects::str_view(task)) == Err::<
                Option<Seq<char>>,
                Seq<char>,
            >(m@),
        },
{
    match task {
        Some(q) => match ctx.store.find(q) {
            Ok(t) => Ok(Some(t.path)),
            Err(e) => Err(e),
        },
        None => {
            let tasks = ctx.store.list_tasks();
            proof {
                assert(text::views(tasks@).len() == tasks@.len());
            }
            if tasks.len() == 0 {
                Err(String::from_str("no tasks — create one with `rein new <title>`"))
            } else {
                Ok(None)
            }
        },
    }
}

/// The first task at or after `i` with a document path.
pub open spec fn at_path(ts: Seq<TaskRefV>, path: Seq<char>, i: int) -> Option<TaskRefV>
    decreases ts.len() - i,
{
    if i < 0 || i >= ts.len() {
        None
    } else if ts[i].path == path {
        Some(ts[i])
    } else {
        at_path(ts, path, i + 1)
    }
}

/// What follows an edit of a document by hand: its new items get their ids.
pub open spec fn edit_followed(s: StoreV, path: Seq<char>, now: Seq<char>) -> OutcomeV {
    match at_path(store::all_tasks(s), path, 0) {
        Some(t) => {
            let a = items::assigned(s, t, now);
            OutcomeV {
                steps: a.steps,
                error: match a.task {
                    Ok(_) => None,
                    Err(e) => Some(e),
                },
            }
        },
        None => plan::completed(seq![]),
    }
}

/// Assign stable IDs to whatever items the user just wrote in $EDITOR.
pub fn after_edit(s: &Store, path: &str, now: &str) -> (r: Outcome)
    ensures
        r@ == edit_followed(s@, path@, now@),
{
    let tasks = s.list_tasks();
    let ghost all = text::views(tasks@);
    let mut i: usize = 0;
    while i < tasks.len()
        invariant
            0 <= i <= tasks.len(),
            all == text::views(tasks@),
            all == store::all_tasks(s@),
            at_path(all, path@, 0) == at_path(all, path@, i as int),
        decreases tasks.len() - i,
    {
        if text::same(&tasks[i].path, path) {
            let a = items::assign_ids(s, &tasks[i], now);
            let error = match a.task {
                Ok(_) => None,
                Err(e) => Some(e),
            };
            return Outcome { steps: a.steps, error };
        }
        i += 1;
    }
    plan::complete(no_steps())
}

// ---------------------------------------------------------------------------
// status
// ---------------------------------------------------------------------------

/// What a source is called.
pub open spec fn via(source: Source) -> Seq<char> {
    match source {
        Source::Flag => "--task"@,
        Source::WorktreePointer => "worktree"@,
        Source::Env => "REIN_TASK"@,
        Source::CurrentFile => "current"@,
    }
}

/// The line about the resolved task.
pub open spec fn task_line(c: CtxV) -> Seq<char> {
    match resolve::resolved(c, None) {
        Ok((t, source)) => "task: "@ + t.id + " ("@ + t.status.name() + ", via "@ + via(source)
            + ")"@,
        Err(_) => "task: none"@,
    }
}

/// The line that counts the tasks of a status.
pub open spec fn count_line(ts: Seq<TaskRefV>, status: Status) -> Seq<char> {
    text::padded(status.name(), 9) + " "@ + text::decimal(
        resolve::with_status(ts, status).len(),
    )
}

/// An optional text; a dash where there is none.
pub open spec fn or_dash(o: Option<Seq<char>>) -> Seq<char> {
    match o {
        Some(s) => s,
        None => "-"@,
    }
}

/// The lines about active tasks.
pub open spec fn active_lines(s: StoreV, ts: Seq<TaskRefV>) -> Seq<Seq<char>>
    decreases ts.len(),
{
    if ts.len() == 0 {
        seq![]
    } else {
        let t = ts.last();
        let st = state::state_from(s.states, t.id, 0);
        active_lines(s, ts.drop_last()).push(
            "active: "@ + t.slug + " branch="@ + or_dash(st.branch) + " worktree="@ + or_dash(
                st.worktree,
            ),
        )
    }
}

/// The lines about checklist items.
pub open spec fn item_lines(its: Seq<ItemV>) -> Seq<Seq<char>>
    decreases its.len(),
{
    if its.len() == 0 {
        seq![]
    } else {
        let it = its.last();
        item_lines(its.drop_last()).push(
            "  ["@ + (if it.checked {
                "x"@
            } else {
                " "@
            }) + "] "@ + text::padded(or_dash(it.id), 3) + " "@ + it.text,
        )
    }
}

/// The lines about the checklist of the resolved task.
pub open spec fn checklist_lines(c: CtxV) -> Seq<Seq<char>> {
    match resolve::resolved(c, None) {
        Ok((t, _)) => {
            let its = checklist::items_of(checklist::healed_body(t.doc.body));
            if its.len() == 0 {
                seq![]
            } else {
                seq!["items ("@ + t.slug + "):"@] + item_lines(its)
            }
        },
        Err(_) => seq![],
    }
}

/// What `rein status` prints.
pub open spec fn status_lines(c: CtxV) -> Seq<Seq<char>> {
    let ts = store::all_tasks(c.store);
    seq![
        "store: "@ + c.store.root,
        task_line(c),
        count_line(ts, Status::Inbox),
        count_line(ts, Status::Active),
        count_line(ts, Status::Done),
        count_line(ts, Status::Canceled),
    ] + active_lines(c.store, resolve::with_status(ts, Status::Active)) + checklist_lines(c)
}

/// An optional text; a dash where there is none.
fn dash_or(o: &Option<String>) -> (r: String)
    ensures
        r@ == or_dash(text::opt_view(*o)),
{
    match o {
        Some(s) => s.clone(),
        None => String::from_str("-"),
    }
}

/// The line that counts the tasks of a status.
fn count_of(tasks: &Vec<TaskRef>, status: Status) -> (r: String)
    ensures
        r@ == count_line(text::views(tasks@), status),
{
    let kept = resolve::filter_status(tasks, status);
    proof {
        assert(text::views(kept@).len() == kept@.len());
    }
    let mut line = text::pad_end(status.as_str(), 9);
    line.append(" ");
    line.append(&text::format_u64(kept.len() as u64));
    line
}

/// The lines about active tasks.
fn lines_of_active(s: &Store, tasks: &Vec<TaskRef>) -> (r: Vec<String>)
    ensures
        text::views(r@) == active_lines(s@, text::views(tasks@)),
{
    let ghost all = text::views(tasks@);
    let mut lines: Vec<String> = Vec::new();
    let mut i: usize = 0;
    while i < tasks.len()
        invariant
            0 <= i <= tasks.len(),
            all == text::views(tasks@),
            text::views(lines@) == active_lines(s@, all.take(i as int)),
        decreases tasks.len() - i,
    {
        proof {
            assert(all.take(i as int + 1).drop_last() =~= all.take(i as int));
            assert(all.take(i as int + 1).last() == tasks@[i as int]@);
        }
        let st = state::load(s, &tasks[i].id);
        let mut line = String::from_str("active: ");
        line.append(&tasks[i].slug);
        line.append(" branch=");
        line.append(&dash_or(&st.branch));
        line.append(" worktree=");
        line.append(&dash_or(&st.worktree));
        push_line(&mut lines, line);
        i += 1;
    }
    proof {
        assert(all.take(i as int) =~= all);
    }
    lines
}

/// The lines about checklist items.
fn lines_of_items(its: &Vec<task::Item>) -> (r: Vec<String>)
    ensures
        text::views(r@) == item_lines(text::views(its@)),
{
    let ghost all = text::views(its@);
    let mut lines: Vec<String> = Vec::new();
    let mut i: usize = 0;
    while i < its.len()
        invariant
            0 <= i <= its.len(),
            all == text::views(its@),
            text::views(lines@) == item_lines(all.take(i as int)),
        decreases its.len() - i,
    {
        proof {
            assert(all.take(i as int + 1).drop_last() =~= all.take(i as int));
            assert(all.take(i as int + 1).last() == its@[i as int]@);
        }
        let mut line = String::from_str("  [");
        line.append(
            if its[i].checked {
                "x"
            } else {
                " "
            },
        );
        line.append("] ");
        line.append(&text::pad_end(&dash_or(&its[i].id), 3));
        line.append(" ");
        line.append(&its[i].text);
        push_line(&mut lines, line);
        i += 1;
    }
    proof {
        assert(all.take(i as int) =~= all);
    }
    lines
}

/// Adds lines.
fn push_lines(lines: &mut Vec<String>, more: Vec<String>)
    ensures
        text::views(final(lines)@) == text::views(old(lines)@) + text::views(more@),
{
    let ghost before = text::views(lines@);
    let ghost added = text::views(more@);
    let mut more = more;
    lines.append(&mut more);
    assert(text::views(lines@) =~= before + added);
}

/// `rein status`: the store, the resolved task, the tasks of each status, and the
/// checklist of the resolved task with the integer ids `rein check` accepts. Numbers
/// are computed deterministically (same as assignment) without writing.
pub fn status(ctx: &Ctx) -> (r: Vec<String>)
    ensures
        text::views(r@) == status_lines(ctx@),
{
    let tasks = ctx.store.list_tasks();
    let resolved = resolve::resolve_task(ctx, None);
    let mut lines: Vec<String> = Vec::new();
    push_line(&mut lines, line_with("store: ", &ctx.store.root));
    match &resolved {
        Ok((t, source)) => {
            let mut line = line_with("task: ", &t.id);
            line.append(" (");
            line.append(t.status.as_str());
            line.append(", via ");
            line.append(
                match source {
                    Source::Flag => "--task",
                    Source::WorktreePointer => "worktree",
                    Source::Env => "REIN_TASK",
                    Source::CurrentFile => "current",
                },
            );
            line.append(")");
            push_line(&mut lines, line);
        },
        Err(_) => {
            push_line(&mut lines, String::from_str("task: none"));
        },
    }
    push_line(&mut lines, count_of(&tasks, Status::Inbox));
    push_line(&mut lines, count_of(&tasks, Status::Active));
    push_line(&mut lines, count_of(&tasks, Status::Done));
    push_line(&mut lines, count_of(&tasks, Status::Canceled));
    let ghost head = text::views(lines@);
    let active = resolve::filter_status(&tasks, Status::Active);
    push_lines(&mut lines, lines_of_active(&ctx.store, &active));
    let ghost upto = text::views(lines@);
    match &resolved {
        Ok((t, _)) => {
            let (assigned, _) = task::ensure_item_ids(&t.doc.body);
            let its = task::scan_items(&assigned);
            proof {
                assert(text::views(its@).len() == its@.len());
            }
            if its.len() > 0 {
                let mut line = line_with("items (", &t.slug);
                line.append("):");
                let ghost first = line@;
                push_line(&mut lines, line);
                push_lines(&mut lines, lines_of_items(&its));
                proof {
                    assert(text::views(lines@) =~= upto + (seq![first] + item_lines(
                        text::views(its@),
                    )));
                }
            } else {
                proof {
                    assert(upto + Seq::<Seq<char>>::empty() =~= upto);
                }
            }
        },
        Err(_) => {
            proof {
                assert(upto + Seq::<Seq<char>>::empty() =~= upto);
            }
        },
    }
    proof {
        assert(head =~= seq![
            "store: "@ + ctx@.store.root,
            task_line(ctx@),
            count_line(text::views(tasks@), Status::Inbox),
            count_line(text::views(tasks@), Status::Active),
            count_line(text::views(tasks@), Status::Done),
            count_line(text::views(tasks@), Status::Canceled),
        ]);
    }
    lines
}

// ---------------------------------------------------------------------------
// todo
// ---------------------------------------------------------------------------

/// The line of an item in the to-do list.
pub open spec fn todo_line(it: ItemV, all: bool) -> Seq<char> {
    if all {
        or_dash(it.id) + "\t["@ + (if it.failed {
            "!"@
        } else if it.checked {
            "x"@
        } else {
            " "@
        }) + "] "@ + it.text
    } else {
        or_dash(it.id) + "\t"@ + it.text
    }
}

/// An item is still to do.
pub open spec fn is_open(it: ItemV) -> bool {
    !it.checked && !it.failed
}

/// The to-do list from an item on, where the last heading that was printed is
/// given: an item goes under its section, and a section is named where it changes.
pub open spec fn todo_from(
    its: Seq<ItemV>,
    sections: Seq<Seq<char>>,
    all: bool,
    i: int,
    last: Option<Seq<char>>,
) -> Seq<Seq<char>>
    decreases its.len() - i,
{
    if i < 0 || i >= its.len() {
        seq![]
    } else if !all && !is_open(its[i]) {
        todo_from(its, sections, all, i + 1, last)
    } else {
        (if last != Some(sections[i]) && sections[i].len() > 0 {
            seq!["## "@ + sections[i]]
        } else {
            seq![]
        }) + seq![todo_line(its[i], all)] + todo_from(its, sections, all, i + 1, Some(sections[i]))
    }
}

/// What `rein todo` prints for a body.
pub open spec fn todo_lines(body: Seq<char>, all: bool) -> Seq<Seq<char>> {
    let b = checklist::healed_body(body);
    todo_from(
        checklist::items_of(b),
        checklist::sections_in(text::lines_of(b)),
        all,
        0,
        None,
    )
}

/// The line of an item in the to-do list.
fn line_of_item(it: &task::Item, all: bool) -> (r: String)
    ensures
        r@ == todo_line(it@, all),
{
    let mut line = dash_or(&it.id);
    if all {
        line.append("\t[");
        line.append(
            if it.failed {
                "!"
            } else if it.checked {
                "x"
            } else {
                " "
            },
        );
        line.append("] ");
    } else {
        line.append("\t");
    }
    line.append(&it.text);
    line
}

/// What `rein todo` prints.
pub open spec fn todo_told(c: CtxV, flag: Option<Seq<char>>, all: bool) -> Result<
    Seq<Seq<char>>,
    Seq<char>,
> {
    match resolve::resolved(c, flag) {
        Ok((t, _)) => Ok(todo_lines(t.doc.body, all)),
        Err(e) => Err(e),
    }
}

/// `rein todo [--task <id>] [--all]` — print the resolved task's unchecked
/// checklist items (id + text, grouped by section) so the skill can get the
/// to-do list directly instead of reading and parsing the whole document.
/// Query-only: IDs are computed deterministically (same as assignment) without
/// writing, so a following `rein check <id>` lands on the same number.
pub fn todo(ctx: &Ctx, flag: Option<&str>, all: bool) -> (r: Result<Vec<String>, String>)
    ensures
        match r {
            Ok(lines) => todo_told(ctx@, projects::str_view(flag), all) == Ok::<
                Seq<Seq<char>>,
                Seq<char>,
            >(text::views(lines@)),
            Err(m) => todo_told(ctx@, projects::str_view(flag), all) == Err::<
                Seq<Seq<char>>,
                Seq<char>,
            >(m@),
        },
{
    match resolve::resolve_task(ctx, flag) {
        Err(e) => Err(e),
        Ok((t, _)) => Ok(todo_of(&t.doc.body, all)),
    }
}

/// The to-do list of a body.
pub fn todo_of(body: &str, all: bool) -> (r: Vec<String>)
    ensures
        text::views(r@) == todo_lines(body@, all),
{
    let (assigned, _) = task::ensure_item_ids(body);
    let its = task::scan_items(&assigned);
    let sections = task::item_sections(&assigned);
    let ghost is = text::views(its@);
    let ghost ss = text::views(sections@);
    let mut lines: Vec<String> = Vec::new();
    let mut last: Option<String> = None;
    let mut i: usize = 0;
    proof {
        assert(is.len() == its@.len());
        assert(text::views(lines@) + todo_from(is, ss, all, 0, None) =~= todo_from(
            is,
            ss,
            all,
            0,
            None,
        ));
    }
    while i < its.len()
        invariant
            0 <= i <= its.len(),
            its.len() == sections.len(),
            is == text::views(its@),
            ss == text::views(sections@),
            text::views(lines@) + todo_from(is, ss, all, i as int, text::opt_view(last))
                == todo_from(is, ss, all, 0, None),
        decreases its.len() - i,
    {
        // resolved items (done or failed) drop out of the default todo list so a
        // re-run never re-attempts a blocked item; --all surfaces them, marked.
        if all || (!its[i].checked && !its[i].failed) {
            let ghost before = text::views(lines@);
            let ghost was = text::opt_view(last);
            let ghost head = if was != Some(ss[i as int]) && ss[i as int].len() > 0 {
                seq!["## "@ + ss[i as int]]
            } else {
                Seq::<Seq<char>>::empty()
            };
            let named = match &last {
                Some(l) => text::same(l, &sections[i]),
                None => false,
            };
            if !named && !sections[i].as_str().is_empty() {
                push_line(&mut lines, line_with("## ", &sections[i]));
            }
            assert(text::views(lines@) =~= before + head);
            push_line(&mut lines, line_of_item(&its[i], all));
            last = Some(sections[i].clone());
            proof {
                let rest = todo_from(is, ss, all, i as int + 1, Some(ss[i as int]));
                let line = todo_line(is[i as int], all);
                assert(todo_from(is, ss, all, i as int, was) == head + seq![line] + rest);
                assert(text::views(lines@) + rest =~= before + (head + seq![line] + rest));
            }
        }
        i += 1;
    }
    proof {
        assert(text::views(lines@) + todo_from(is, ss, all, i as int, text::opt_view(last))
            =~= text::views(lines@));
    }
    lines
}

// ---------------------------------------------------------------------------
// doctor
// ---------------------------------------------------------------------------

/// How far a doctor came.
#[verifier::ext_equal]
pub struct CareV {
    pub steps: Seq<StepV>,
    pub store: StoreV,
    pub error: Option<Seq<char>>,
}

/// How far a doctor came: the steps, the store after them, and what stopped it.
pub struct Care {
    pub steps: Vec<Step>,
    pub store: Store,
    pub error: Option<String>,
}

impl View for Care {
    type V = CareV;

    open spec fn view(&self) -> CareV {
        CareV {
            steps: text::views(self.steps@),
            store: self.store@,
            error: text::opt_view(self.error),
        }
    }
}

/// A document with the status of its directory.
pub open spec fn restated(t: TaskRefV, now: Seq<char>) -> TaskDocV {
    doc::touched(
        TaskDocV { front: FrontmatterV { status: t.status.name(), ..t.doc.front }, ..t.doc },
        now,
    )
}

/// The status of a task put right: the directory is the truth.
pub open spec fn status_cared(c: CareV, t: TaskRefV, now: Seq<char>) -> CareV {
    if t.doc.front.status == t.status.name() {
        c
    } else {
        CareV {
            steps: c.steps.push(items::write_step(t, restated(t, now))).push(
                StepV::Say("fixed status: "@ + t.slug + " -> "@ + t.status.name()),
            ),
            store: store::written(c.store, t.path, doc::serialized(restated(t, now))),
            ..c
        }
    }
}

/// The ids and the recorded place of a task put right.
pub open spec fn ids_cared(c: CareV, t: TaskRefV, now: Seq<char>) -> CareV {
    let fresh = match store::with_id_from(store::all_tasks(c.store), t.id, 0) {
        Some(x) => x,
        None => t,
    };
    let a = items::assigned(c.store, fresh, now);
    match a.task {
        Err(e) => CareV { steps: c.steps + a.steps, store: a.store, error: Some(e) },
        Ok(_) => CareV {
            steps: (c.steps + a.steps).push(
                StepV::EditState {
                    id: t.id,
                    edits: seq![StateEditV::Path(paths::relative_to(t.path, c.store.root))],
                },
            ),
            store: a.store,
            error: None,
        },
    }
}

/// Tasks put right, one after the other, up to the first that fails.
pub open spec fn cared(c: CareV, ts: Seq<TaskRefV>, now: Seq<char>) -> CareV
    decreases ts.len(),
{
    if ts.len() == 0 {
        c
    } else {
        let d = cared(c, ts.drop_last(), now);
        if d.error is Some {
            d
        } else {
            ids_cared(status_cared(d, ts.last(), now), ts.last(), now)
        }
    }
}

/// The steps that drop the state of tasks that are gone.
pub open spec fn orphan_steps(
    root: Seq<char>,
    stems: Seq<Seq<char>>,
    seen: Seq<Seq<char>>,
) -> Seq<StepV>
    decreases stems.len(),
{
    if stems.len() == 0 {
        seq![]
    } else if seen.contains(stems.last()) {
        orphan_steps(root, stems.drop_last(), seen)
    } else {
        orphan_steps(root, stems.drop_last(), seen).push(
            StepV::Remove(state::state_path_of(root, stems.last())),
        ).push(StepV::Say("removed orphan state: "@ + stems.last()))
    }
}

/// The ids of tasks.
pub open spec fn task_ids(ts: Seq<TaskRefV>) -> Seq<Seq<char>> {
    Seq::new(ts.len(), |i: int| ts[i].id)
}

/// The steps that clear a current task that is gone.
pub open spec fn stale_steps(s: StoreV, seen: Seq<Seq<char>>) -> Seq<StepV> {
    match store::current_of(s) {
        Some(id) => if seen.contains(id) {
            seq![]
        } else {
            seq![
                storing::clear_step(s.root),
                StepV::Say("cleared stale current: "@ + id),
            ]
        },
        None => seq![],
    }
}

/// What `rein doctor` does. `stems` are the tasks that state files are there for.
pub open spec fn doctored(
    c: CtxV,
    remote: Option<Seq<char>>,
    stems: Seq<Seq<char>>,
    now: Seq<char>,
) -> OutcomeV {
    let ts = store::all_tasks(c.store);
    let seen = task_ids(ts);
    let care = cared(
        CareV {
            steps: storing::layout_steps(c.store.root, c.repo.common_dir, remote),
            store: c.store,
            error: None,
        },
        ts,
        now,
    );
    match care.error {
        Some(e) => OutcomeV { steps: care.steps, error: Some(e) },
        None => plan::completed(
            (care.steps + orphan_steps(c.store.root, stems, seen) + stale_steps(
                c.store,
                seen,
            )).push(
                StepV::Say("doctor: "@ + text::decimal(ts.len()) + " tasks ok"@),
            ),
        ),
    }
}

/// Puts the status of a task right.
fn care_for_status(c: Care, t: &TaskRef, now: &str) -> (r: Care)
    ensures
        r@ == status_cared(c@, t@, now@),
{
    if text::same(&t.doc.front.status, t.status.as_str()) {
        return c;
    }
    let mut d = t.doc.clone();
    d.front.status = String::from_str(t.status.as_str());
    d.touch_at(now);
    let after = c.store.after_write(&t.path, &d.serialize());
    let mut steps = c.steps;
    push_step(&mut steps, items::write_doc(t, &d));
    let mut line = line_with("fixed status: ", &t.slug);
    line.append(" -> ");
    line.append(t.status.as_str());
    push_say(&mut steps, line);
    Care { steps, store: after, error: c.error }
}

/// Puts the ids and the recorded place of a task right.
fn care_for_ids(c: Care, t: &TaskRef, now: &str) -> (r: Care)
    ensures
        r@ == ids_cared(c@, t@, now@),
{
    let fresh = match c.store.find_by_id(&t.id) {
        Some(x) => x,
        None => t.clone(),
    };
    // assign any missing item IDs (heals docs edited outside sync)
    let a = items::assign_ids(&c.store, &fresh, now);
    let mut steps = c.steps;
    push_steps(&mut steps, a.steps);
    match a.task {
        Err(e) => Care { steps, store: a.store, error: Some(e) },
        Ok(_) => {
            let mut edits: Vec<StateEdit> = Vec::new();
            edits.push(StateEdit::Path(paths::relative(&t.path, &c.store.root)));
            assert(text::views(edits@) =~= seq![
                StateEditV::Path(paths::relative_to(t@.path, c@.store.root)),
            ]);
            push_step(&mut steps, Step::EditState { id: t.id.clone(), edits });
            Care { steps, store: a.store, error: None }
        },
    }
}

/// A doctor that failed on the first tasks has failed on all of them.
proof fn lemma_failed_care(c: CareV, ts: Seq<TaskRefV>, i: int, now: Seq<char>)
    requires
        0 <= i <= ts.len(),
        cared(c, ts.take(i), now).error is Some,
    ensures
        cared(c, ts, now) == cared(c, ts.take(i), now),
    decreases ts.len(),
{
    if i == ts.len() {
        assert(ts.take(i) =~= ts);
    } else {
        assert(ts.drop_last().take(i) =~= ts.take(i));
        lemma_failed_care(c, ts.drop_last(), i, now);
    }
}

/// The steps that drop the state of tasks that are gone.
fn drop_orphans(s: &Store, stems: &Vec<String>, seen: &Vec<String>) -> (r: Vec<Step>)
    ensures
        text::views(r@) == orphan_steps(s@.root, text::views(stems@), text::views(seen@)),
{
    let ghost all = text::views(stems@);
    let mut steps = no_steps();
    let mut i: usize = 0;
    while i < stems.len()
        invariant
            0 <= i <= stems.len(),
            all == text::views(stems@),
            text::views(steps@) == orphan_steps(
                s@.root,
                all.take(i as int),
                text::views(seen@),
            ),
        decreases stems.len() - i,
    {
        proof {
            assert(all.take(i as int + 1).drop_last() =~= all.take(i as int));
            assert(all.take(i as int + 1).last() == stems@[i as int]@);
        }
        if !store::is_taken(seen, &stems[i]) {
            push_step(&mut steps, Step::Remove(state::state_path(s, &stems[i])));
            push_say(&mut steps, line_with("removed orphan state: ", &stems[i]));
        }
        i += 1;
    }
    proof {
        assert(all.take(i as int) =~= all);
    }
    steps
}

/// Rebuild state/ from task files (directory + frontmatter are truth),
/// fix frontmatter status drift, drop orphan state files, validate current.
#[verifier::spinoff_prover]
#[verifier::rlimit(60)]
pub fn doctor(ctx: &Ctx, remote: &Option<String>, stems: &Vec<String>, now: &str) -> (r: Outcome)
    ensures
        r@ == doctored(ctx@, text::opt_view(*remote), text::views(stems@), now@),
{
    let tasks = ctx.store.list_tasks();
    let ghost all = text::views(tasks@);
    let mut care = Care {
        steps: ctx.store.ensure_layout(&ctx.repo, remote),
        store: ctx.store.clone(),
        error: None,
    };
    let ghost first = care@;
    let mut seen: Vec<String> = Vec::new();
    let mut i: usize = 0;
    while i < tasks.len()
        invariant
            0 <= i <= tasks.len(),
            all == text::views(tasks@),
            all == store::all_tasks(ctx@.store),
            first == (CareV {
                steps: storing::layout_steps(
                    ctx@.store.root,
                    ctx@.repo.common_dir,
                    text::opt_view(*remote),
                ),
                store: ctx@.store,
                error: None,
            }),
            care@ == cared(first, all.take(i as int), now@),
            care.error is None,
            text::views(seen@) == task_ids(all.take(i as int)),
        decreases tasks.len() - i,
    {
        proof {
            assert(all.take(i as int + 1).drop_last() =~= all.take(i as int));
            assert(all.take(i as int + 1).last() == tasks@[i as int]@);
            assert(task_ids(all.take(i as int + 1)) =~= task_ids(all.take(i as int)).push(
                tasks@[i as int]@.id,
            ));
        }
        // directory is truth for status
        care = care_for_ids(care_for_status(care, &tasks[i], now), &tasks[i], now);
        push_line(&mut seen, tasks[i].id.clone());
        i += 1;
        if care.error.is_some() {
            proof {
                lemma_failed_care(first, all, i as int, now@);
            }
            return Outcome { steps: care.steps, error: care.error };
        }
    }
    proof {
        assert(all.take(i as int) =~= all);
        assert(text::views(tasks@).len() == tasks@.len());
    }
    let mut steps = care.steps;
    push_steps(&mut steps, drop_orphans(&ctx.store, stems, &seen));
    // stale current pointer
    let mut stale = no_steps();
    match ctx.store.read_current() {
        Some(id) => {
            if !store::is_taken(&seen, &id) {
                push_step(&mut stale, ctx.store.clear_current());
                push_say(&mut stale, line_with("cleared stale current: ", &id));
            }
        },
        None => {},
    }
    assert(text::views(stale@) =~= stale_steps(ctx@.store, text::views(seen@)));
    push_steps(&mut steps, stale);
    let mut line = String::from_str("doctor: ");
    line.append(&text::format_u64(tasks.len() as u64));
    line.append(" tasks ok");
    push_say(&mut steps, line);
    plan::complete(steps)
}

} // verus!
