//! Which task a command is about.
use crate::ctx::{Ctx, CtxV};
use crate::gitx;
use crate::projects;
use crate::store::{self, Status, TaskRef, TaskRefV};
use crate::text;
use vstd::prelude::*;
use vstd::string::*;

verus! {

/// Where the task identity came from, in resolution order.
#[derive(Debug, Clone, Copy, PartialEq, Eq, Structural)]
pub enum Source {
    /// explicit --task flag
    Flag,
    /// cwd worktree pointer (.git/worktrees/<n>/rein-task)
    WorktreePointer,
    /// REIN_TASK env
    Env,
    /// store current file (single interactive mode)
    CurrentFile,
}

/// The task with an id, or a message.
pub open spec fn known(
    ts: Seq<TaskRefV>,
    id: Seq<char>,
    source: Source,
    missing: Seq<char>,
) -> Result<(TaskRefV, Source), Seq<char>> {
    match store::with_id_from(ts, id, 0) {
        Some(t) => Ok((t, source)),
        None => Err(missing),
    }
}

/// The task that `REIN_TASK` names: by id, or as a query.
pub open spec fn by_env(ts: Seq<TaskRefV>, id: Seq<char>) -> Result<
    (TaskRefV, Source),
    Seq<char>,
> {
    match store::with_id_from(ts, id, 0) {
        Some(t) => Ok((t, Source::Env)),
        None => match store::found(ts, id) {
            Ok(t) => Ok((t, Source::Env)),
            Err(_) => Err("REIN_TASK points to missing task '"@ + id + "'"@),
        },
    }
}

/// The task that a command is about, and how it was found: the flag, then the
/// worktree pointer, then `REIN_TASK`, then the current file. The first of these
/// that is given decides.
pub open spec fn resolved(c: CtxV, flag: Option<Seq<char>>) -> Result<
    (TaskRefV, Source),
    Seq<char>,
> {
    let ts = store::all_tasks(c.store);
    match flag {
        Some(q) => match store::found(ts, q) {
            Ok(t) => Ok((t, Source::Flag)),
            Err(e) => Err(e),
        },
        None => match gitx::trimmed_given(c.repo.pointer) {
            Some(id) => known(
                ts,
                id,
                Source::WorktreePointer,
                "worktree is bound to missing task '"@ + id + "'"@,
            ),
            None => match projects::given(c.env_task) {
                Some(id) => by_env(ts, id),
                None => match store::current_of(c.store) {
                    Some(id) => known(
                        ts,
                        id,
                        Source::CurrentFile,
                        "current points to missing task '"@ + id + "' (run `rein doctor`)"@,
                    ),
                    None => Err(
                        "no task resolved: pass --task <id>, run inside a bound worktree, or `rein use <task>`"@,
                    ),
                },
            },
        },
    }
}

/// What a resolution result stands for.
pub open spec fn resolution(r: Result<(TaskRef, Source), String>) -> Result<
    (TaskRefV, Source),
    Seq<char>,
> {
    match r {
        Ok((t, s)) => Ok((t@, s)),
        Err(e) => Err(e@),
    }
}

/// Resolution order: --task flag → worktree pointer → REIN_TASK → current file.
pub fn resolve_task(ctx: &Ctx, flag: Option<&str>) -> (r: Result<(TaskRef, Source), String>)
    ensures
        resolution(r) == resolved(ctx@, projects::str_view(flag)),
{
    match flag {
        Some(q) => {
            return match ctx.store.find(q) {
                Ok(t) => Ok((t, Source::Flag)),
                Err(e) => Err(e),
            };
        },
        None => {},
    }
    match ctx.repo.read_task_pointer() {
        Some(id) => {
            return match ctx.store.find_by_id(&id) {
                Some(t) => Ok((t, Source::WorktreePointer)),
                None => {
                    let mut m = String::from_str("worktree is bound to missing task '");
                    m.append(&id);
                    m.append("'");
                    Err(m)
                },
            };
        },
        None => {},
    }
    match &ctx.env_task {
        Some(id) => {
            if !id.as_str().is_empty() {
                return match ctx.store.find_by_id(id) {
                    Some(t) => Ok((t, Source::Env)),
                    None => match ctx.store.find(id) {
                        Ok(t) => Ok((t, Source::Env)),
                        Err(_) => {
                            let mut m = String::from_str("REIN_TASK points to missing task '");
                            m.append(id);
                            m.append("'");
                            Err(m)
                        },
                    },
                };
            }
        },
        None => {},
    }
    match ctx.store.read_current() {
        Some(id) => match ctx.store.find_by_id(&id) {
            Some(t) => Ok((t, Source::CurrentFile)),
            None => {
                let mut m = String::from_str("current points to missing task '");
                m.append(&id);
                m.append("' (run `rein doctor`)");
                Err(m)
            },
        },
        None => Err(
            String::from_str(
                "no task resolved: pass --task <id>, run inside a bound worktree, or `rein use <task>`",
            ),
        ),
    }
}

/// The tasks with a status.
pub open spec fn with_status(ts: Seq<TaskRefV>, status: Status) -> Seq<TaskRefV>
    decreases ts.len(),
{
    if ts.len() == 0 {
        seq![]
    } else if ts.last().status == status {
        with_status(ts.drop_last(), status).push(ts.last())
    } else {
        with_status(ts.drop_last(), status)
    }
}

/// The tasks with a status.
pub fn filter_status(tasks: &Vec<TaskRef>, status: Status) -> (r: Vec<TaskRef>)
    ensures
        text::views(r@) == with_status(text::views(tasks@), status),
{
    let mut out: Vec<TaskRef> = Vec::new();
    let ghost all = text::views(tasks@);
    let mut i: usize = 0;
    while i < tasks.len()
        invariant
            0 <= i <= tasks.len(),
            all == text::views(tasks@),
            text::views(out@) == with_status(all.take(i as int), status),
        decreases tasks.len() - i,
    {
        let ghost before = text::views(out@);
        proof {
            assert(all.take(i as int + 1).drop_last() =~= all.take(i as int));
            assert(all.take(i as int + 1).last() == tasks@[i as int]@);
        }
        if tasks[i].status == status {
            out.push(tasks[i].clone());
            proof {
                assert(text::views(out@) =~= before.push(tasks@[i as int]@));
            }
        }
        i += 1;
    }
    proof {
        assert(all.take(i as int) =~= all);
    }
    out
}

/// Why a mutation is refused: the task came from the current file, while several
/// tasks are active.
pub open spec fn gate(c: CtxV, source: Source) -> Option<Seq<char>> {
    let active = with_status(store::all_tasks(c.store), Status::Active);
    if source == Source::CurrentFile && active.len() >= 2 {
        Some(
            "ambiguous: "@ + text::decimal(active.len()) + " active tasks ("@ + text::joined(
                store::slugs_of(active),
                ", "@,
            ) + ") — run inside the task's worktree or pass --task <id>"@,
        )
    } else {
        None
    }
}

/// Mutation-command guard: refuse the current-file fallback when several tasks
/// are active — a worker in the wrong cwd would silently mutate the wrong task.
pub fn gate_mutation(ctx: &Ctx, source: Source) -> (r: Result<(), String>)
    ensures
        match r {
            Ok(_) => gate(ctx@, source) is None,
            Err(e) => gate(ctx@, source) == Some(e@),
        },
{
    if source != Source::CurrentFile {
        return Ok(());
    }
    let active = filter_status(&ctx.store.list_tasks(), Status::Active);
    proof {
        assert(text::views(active@).len() == active@.len());
    }
    if active.len() >= 2 {
        let mut m = String::from_str("ambiguous: ");
        m.append(&text::format_u64(active.len() as u64));
        m.append(" active tasks (");
        m.append(&store::join_slugs(&active));
        m.append(") — run inside the task's worktree or pass --task <id>");
        return Err(m);
    }
    Ok(())
}

// ---------------------------------------------------------------------------
// Laws
// ---------------------------------------------------------------------------

/// The order of resolution: what comes first is never overridden by what comes
/// later, not even where it fails.
pub proof fn law_resolution_order(c: CtxV, flag: Option<Seq<char>>)
    ensures
        resolved(c, flag) matches Ok((_, source)) ==> source == (if flag is Some {
            Source::Flag
        } else if gitx::trimmed_given(c.repo.pointer) is Some {
            Source::WorktreePointer
        } else if projects::given(c.env_task) is Some {
            Source::Env
        } else {
            Source::CurrentFile
        }),
{
}

/// Only what falls back to the current file is ever refused: with a flag, in a
/// bound worktree and with `REIN_TASK`, any number of tasks may be active.
pub proof fn law_only_the_current_file_is_gated(c: CtxV, source: Source)
    ensures
        source != Source::CurrentFile ==> gate(c, source) is None,
        with_status(store::all_tasks(c.store), Status::Active).len() <= 1 ==> gate(
            c,
            source,
        ) is None,
{
}

} // verus!
