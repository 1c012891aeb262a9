//! Laws of runs: what an agent finds, which agent it is, and what is read of it later.
use crate::commands::effects;
use crate::commands::plan::{StateEditV, StepV};
use crate::commands::run::{self, Agent, RunPlanV, RunSettingsV};
use crate::ctx::CtxV;
use crate::facts;
use crate::json::{self, Json};
use crate::state::{self, TaskStateV};
use crate::store::TaskRefV;
use crate::task::items::ItemV;
use crate::text;
use crate::util;
use vstd::prelude::*;
use vstd::string::*;

verus! {

// ---------------------------------------------------------------------------
// The environment
// ---------------------------------------------------------------------------

/// A variable has a value in an environment, and no other.
pub open spec fn has_value(
    env: Seq<(Seq<char>, Seq<char>)>,
    name: Seq<char>,
    value: Seq<char>,
) -> bool {
    &&& exists|i: int| 0 <= i < env.len() && #[trigger] env[i] == (name, value)
    &&& forall|i: int| 0 <= i < env.len() && (#[trigger] env[i]).0 == name ==> env[i].1 == value
}

/// The names of the variables, told apart.
proof fn lemma_names()
    ensures
        "REIN_TASK"@.len() == 9 && "REIN_TASK"@[5] == 'T',
        "REIN_SLUG"@.len() == 9 && "REIN_SLUG"@[5] == 'S',
        "REIN_ROOT"@.len() == 9 && "REIN_ROOT"@[5] == 'R',
        "REIN_BRANCH"@.len() == 11 && "REIN_BRANCH"@[5] == 'B',
        "REIN_PROMPT"@.len() == 11 && "REIN_PROMPT"@[5] == 'P',
        "REIN_DIR"@.len() == 8,
        "REIN_TITLE"@.len() == 10,
{
    reveal_strlit("REIN_TASK");
    reveal_strlit("REIN_SLUG");
    reveal_strlit("REIN_ROOT");
    reveal_strlit("REIN_BRANCH");
    reveal_strlit("REIN_PROMPT");
    reveal_strlit("REIN_DIR");
    reveal_strlit("REIN_TITLE");
}

/// Looked up by name, each variable that an agent finds has the value that its name says:
/// the id and the slug of the task, the branch that its state records (else the one in its
/// document), the directory of its worktree where that is there (else the main
/// repository), the root of the store, and a title and a prompt that speak of the task.
pub proof fn law_each_variable_has_the_value_of_its_name(
    c: CtxV,
    t: TaskRefV,
    exists: bool,
    s: RunSettingsV,
    root: Seq<char>,
)
    ensures
        ({
            let p = run::planned_run(c, t, exists, s);
            let env = run::exported(p, root);
            let st = state::state_from(c.store.states, t.id, 0);
            let branch = match (st.branch, t.doc.front.branch) {
                (Some(b), _) => b,
                (None, Some(b)) => b,
                (None, None) => Seq::<char>::empty(),
            };
            let dir = match st.worktree {
                Some(w) if exists => w,
                _ => c.repo.workdir,
            };
            &&& p.task == t
            &&& p.dir == dir
            &&& p.isolated <==> st.worktree is Some && exists
            &&& has_value(env, "REIN_TASK"@, t.id)
            &&& has_value(env, "REIN_SLUG"@, t.slug)
            &&& has_value(env, "REIN_BRANCH"@, branch)
            &&& has_value(env, "REIN_DIR"@, dir)
            &&& has_value(env, "REIN_ROOT"@, root)
            &&& has_value(env, "REIN_TITLE"@, p.title)
            &&& has_value(env, "REIN_PROMPT"@, p.prompt)
            &&& text::has(p.prompt, t.id)
            &&& text::begins(
                p.title,
                "rein:"@ + if branch.len() == 0 {
                    t.slug
                } else {
                    branch
                },
            )
        }),
{
    let p = run::planned_run(c, t, exists, s);
    let env = run::exported(p, root);
    lemma_names();
    assert(env[0] == ("REIN_TASK"@, p.task.id));
    assert(env[1] == ("REIN_SLUG"@, p.task.slug));
    assert(env[2] == ("REIN_BRANCH"@, p.branch));
    assert(env[3] == ("REIN_DIR"@, p.dir));
    assert(env[4] == ("REIN_TITLE"@, p.title));
    assert(env[5] == ("REIN_PROMPT"@, p.prompt));
    assert(env[6] == ("REIN_ROOT"@, root));
    let a = "Use the run-rein-task skill to work on task "@;
    facts::lemma_occurs_between(a, t.id, ". "@ + crate::commands::local::SKILL_MD@);
    assert(p.prompt =~= a + t.id + (". "@ + crate::commands::local::SKILL_MD@));
    let head = "rein:"@ + if p.branch.len() == 0 {
        t.slug
    } else {
        p.branch
    };
    assert(p.title.subrange(0, head.len() as int) =~= head);
}

/// The numbers in the title of a session are those of the items that are still to do: an
/// item that is checked or failed is not among them, and every other item with an id is.
pub proof fn law_a_session_is_titled_with_what_is_to_do(its: Seq<ItemV>, id: Seq<char>)
    ensures
        run::open_ids(its).contains(id) <==> exists|k: int|
            0 <= k < its.len() && (#[trigger] its[k]).id == Some(id) && !its[k].checked
                && !its[k].failed,
    decreases its.len(),
{
    if its.len() > 0 {
        let d = its.drop_last();
        let x = its.last();
        let ids = run::open_ids(its);
        let before = run::open_ids(d);
        law_a_session_is_titled_with_what_is_to_do(d, id);
        if before.contains(id) {
            let k = choose|k: int|
                0 <= k < d.len() && (#[trigger] d[k]).id == Some(id) && !d[k].checked
                    && !d[k].failed;
            assert(its[k] == d[k]);
            let m = choose|m: int| 0 <= m < before.len() && before[m] == id;
            assert(ids[m] == id);
        }
        if x.id == Some(id) && !x.checked && !x.failed {
            assert(its[its.len() - 1] == x);
            assert(ids[before.len() as int] == id);
        }
        if ids.contains(id) && !before.contains(id) {
            let m = choose|m: int| 0 <= m < ids.len() && ids[m] == id;
            if m < before.len() {
                assert(before[m] == id);
            }
            assert(its[its.len() - 1] == x);
        }
        if exists|k: int|
            0 <= k < its.len() && (#[trigger] its[k]).id == Some(id) && !its[k].checked
                && !its[k].failed {
            let k = choose|k: int|
                0 <= k < its.len() && (#[trigger] its[k]).id == Some(id) && !its[k].checked
                    && !its[k].failed;
            if k < d.len() {
                assert(d[k] == its[k]);
            }
        }
    }
}

// ---------------------------------------------------------------------------
// Which agent, which command
// ---------------------------------------------------------------------------

/// The names of the agents differ, as long as the first is not called like another.
pub open spec fn well_named(claude: Seq<char>) -> bool {
    claude != "codex"@ && claude != "opencode"@
}

/// An agent is found by its name, and by no other.
pub proof fn law_an_agent_is_found_by_its_name(a: Agent, b: Agent, claude: Seq<char>)
    requires
        well_named(claude),
    ensures
        Agent::with_name(a.called(claude), claude) == Some(a),
        a.called(claude) == b.called(claude) ==> a == b,
        Agent::with_name("codex"@, claude) == Some(Agent::Codex),
        Agent::with_name("opencode"@, claude) == Some(Agent::Opencode),
        Agent::with_name(claude, claude) == Some(Agent::Claude),
{
    reveal_strlit("codex");
    reveal_strlit("opencode");
    assert("codex"@.len() != "opencode"@.len());
}

/// No setting names an agent.
pub open spec fn names_none(v: Option<Seq<char>>, claude: Seq<char>) -> bool {
    v matches Some(x) ==> text::trimmed(x) != claude && text::trimmed(x) != "codex"@
        && text::trimmed(x) != "opencode"@
}

/// Which agent runs a task: the one that the environment names, else the one that the
/// repository names, else the one that the configured command calls, else opencode.
pub proof fn law_the_first_setting_that_names_an_agent_wins(s: RunSettingsV, a: Agent)
    requires
        well_named(s.claude),
    ensures
        s.env_agent matches Some(x) && text::trimmed(x) == a.called(s.claude)
            ==> run::chosen_agent(s) == a,
        names_none(s.env_agent, s.claude) && (s.git_agent matches Some(x) && text::trimmed(x)
            == a.called(s.claude)) ==> run::chosen_agent(s) == a,
        names_none(s.env_agent, s.claude) && names_none(s.git_agent, s.claude) && (s.env_cmd
            matches Some(x) && text::trimmed(x).len() > 0 && text::words_of(x).len() > 0
            && text::words_of(x)[0] == a.called(s.claude)) ==> run::chosen_agent(s) == a,
        names_none(s.env_agent, s.claude) && names_none(s.git_agent, s.claude) && s.env_cmd is None
            && (s.git_cmd matches Some(x) && text::words_of(x).len() > 0 && text::words_of(x)[0]
            == a.called(s.claude)) ==> run::chosen_agent(s) == a,
        names_none(s.env_agent, s.claude) && names_none(s.git_agent, s.claude) && s.env_cmd is None
            && s.git_cmd is None ==> run::chosen_agent(s) == Agent::Opencode,
{
    law_an_agent_is_found_by_its_name(a, a, s.claude);
    reveal_strlit("codex");
    reveal_strlit("opencode");
}

/// Which command runs a task: the one in the environment, unless it is blank, else the one
/// that the repository configures, else one that calls the agent by its name.
pub proof fn law_the_first_command_that_is_set_wins(s: RunSettingsV)
    ensures
        s.env_cmd matches Some(x) && text::trimmed(x).len() > 0 ==> run::chosen_command(s)
            == s.env_cmd->0,
        (s.env_cmd matches Some(x) ==> text::trimmed(x).len() == 0) && s.git_cmd is Some
            ==> run::chosen_command(s) == s.git_cmd->0,
        (s.env_cmd matches Some(x) ==> text::trimmed(x).len() == 0) && s.git_cmd is None
            ==> text::begins(
            run::chosen_command(s),
            run::chosen_agent(s).called(s.claude) + " "@,
        ),
        (s.env_cmd matches Some(x) ==> text::trimmed(x).len() == 0) && s.git_cmd is None && (
        run::chosen_agent(s) == Agent::Codex || run::chosen_agent(s) == Agent::Opencode)
            ==> text::has(run::chosen_command(s), "\"$REIN_PROMPT\""@),
        (s.env_cmd matches Some(x) ==> text::trimmed(x).len() == 0) && s.git_cmd is None
            && run::chosen_agent(s) == Agent::Claude ==> text::has(
            run::chosen_command(s),
            "\"$REIN_TITLE\""@,
        ),
{
    reveal_strlit("codex");
    reveal_strlit("opencode");
    reveal_strlit(" ");
    reveal_strlit("\"$REIN_PROMPT\"");
    reveal_strlit("\"$REIN_TITLE\"");
    reveal_strlit(" --bg --dangerously-skip-permissions --name \"$REIN_TITLE\" /run-rein-task");
    reveal_strlit("codex exec --json --sandbox danger-full-access --add-dir \"$REIN_ROOT\" -- \"$REIN_PROMPT\"");
    reveal_strlit("opencode run --format json --dangerously-skip-permissions \"$REIN_PROMPT\"");
    let c = run::CODEX_RUN_CMD@;
    let o = run::OPENCODE_RUN_CMD@;
    assert(c.subrange(0, 6) =~= "codex"@ + " "@);
    assert(o.subrange(0, 9) =~= "opencode"@ + " "@);
    assert(c.subrange(c.len() - 14, c.len() as int) =~= "\"$REIN_PROMPT\""@);
    facts::lemma_occurs_has(c, "\"$REIN_PROMPT\""@, c.len() - 14);
    assert(o.subrange(o.len() - 14, o.len() as int) =~= "\"$REIN_PROMPT\""@);
    facts::lemma_occurs_has(o, "\"$REIN_PROMPT\""@, o.len() - 14);
    let x = run::session_command(s.claude);
    let n = s.claude.len() as int;
    assert(x.subrange(0, n + 1) =~= s.claude + " "@);
    assert(x.subrange(n + 44, n + 57) =~= "\"$REIN_TITLE\""@);
    facts::lemma_occurs_has(x, "\"$REIN_TITLE\""@, n + 44);
}

// ---------------------------------------------------------------------------
// What is recorded of a run
// ---------------------------------------------------------------------------

/// A session id is eight hexadecimal digits that stand in the text as a word of their own;
/// where no such word stands, there is none.
pub proof fn law_a_session_id_stands_in_the_report(s: Seq<char>, i: int)
    requires
        0 <= i <= s.len(),
    ensures
        run::session_from(s, i) matches Some(id) ==> id.len() == 8 && (forall|k: int|
            0 <= k < 8 ==> run::is_hex(#[trigger] id[k])) && exists|a: int|
            i <= a && a + 8 <= s.len() && #[trigger] s.subrange(a, a + 8) == id && (a + 8
                < s.len() ==> !util::is_alnum(s[a + 8])),
    decreases s.len() - i,
{
    if i < s.len() {
        if !util::is_alnum(s[i]) {
            law_a_session_id_stands_in_the_report(s, i + 1);
        } else {
            let j = run::token_end(s, i);
            lemma_token_end(s, i);
            if run::is_session(s.subrange(i, j)) {
                assert(s.subrange(i, i + 8) == s.subrange(i, j));
            } else {
                law_a_session_id_stands_in_the_report(s, j);
            }
        }
    }
}

/// A run of letters and digits ends where none follows.
proof fn lemma_token_end(s: Seq<char>, i: int)
    requires
        0 <= i < s.len(),
        util::is_alnum(s[i]),
    ensures
        i < run::token_end(s, i) <= s.len(),
        run::token_end(s, i) < s.len() ==> !util::is_alnum(s[run::token_end(s, i)]),
    decreases s.len() - i,
{
    if i + 1 < s.len() && util::is_alnum(s[i + 1]) {
        lemma_token_end(s, i + 1);
    } else {
        assert(run::token_end(s, i + 1) == i + 1);
    }
}

/// What was recorded of a run is what is read of it later: its session, its agent and the
/// files of one that rein backgrounds; nothing else of the state changes.
pub proof fn law_a_recorded_run_is_found(
    p: RunPlanV,
    output: Seq<char>,
    pid: Seq<char>,
    log: Seq<char>,
    status: Seq<char>,
    claude: Seq<char>,
    st: TaskStateV,
)
    requires
        well_named(claude),
        p.agent_name == p.agent.called(claude),
    ensures
        ({
            let after = effects::state_after(
                run::backgrounded_steps(p, pid, log, status),
                p.task.id,
                st,
            );
            &&& after == (TaskStateV {
                run_session: Some(pid),
                run_agent: Some(p.agent_name),
                run_log: Some(log),
                run_status: Some(status),
                ..st
            })
            &&& run::recorded_agent(after) == p.agent
        }),
        ({
            let after = effects::state_after(run::reported_steps(p, output), p.task.id, st);
            match run::session_from(run::plain_from(output, 0), 0) {
                Some(id) => after == (TaskStateV {
                    run_session: Some(id),
                    run_agent: Some(p.agent_name),
                    run_log: None,
                    run_status: None,
                    ..st
                }) && run::recorded_agent(after) == p.agent,
                None => after == st,
            }
        }),
{
    let e = Seq::<StepV>::empty();
    effects::lemma_few();
    law_an_agent_is_found_by_its_name(p.agent, p.agent, claude);
    let a = run::backgrounded_steps(p, pid, log, status);
    effects::lemma_push(e, a[0]);
    assert(a =~= e.push(a[0]));
    let x = StateEditV::Run {
        session: pid,
        agent: p.agent_name,
        log: Some(log),
        status: Some(status),
    };
    effects::lemma_edits(st, x, x, x);
    let b = run::reported_steps(p, output);
    match run::session_from(run::plain_from(output, 0), 0) {
        Some(id) => {
            effects::lemma_push(e, b[0]);
            assert(b =~= e.push(b[0]));
            let y = StateEditV::Run { session: id, agent: p.agent_name, log: None, status: None };
            effects::lemma_edits(st, y, y, y);
        },
        None => {
            assert(b =~= e);
        },
    }
}

/// What is printed without escape sequences is kept, letter by letter; an escape sequence
/// goes, up to the letter that ends it, and what follows is treated alike.
pub proof fn law_only_escape_sequences_are_stripped(s: Seq<char>, i: int)
    requires
        0 <= i <= s.len(),
    ensures
        (forall|k: int| i <= k < s.len() ==> #[trigger] s[k] != '\u{1b}') ==> run::plain_from(s, i)
            == s.skip(i),
        i + 2 < s.len() && s[i] == '\u{1b}' && s[i + 1] == '[' && run::is_letter(s[i + 2])
            ==> run::plain_from(s, i) == run::plain_from(s, i + 3),
    decreases s.len() - i,
{
    if i < s.len() {
        law_only_escape_sequences_are_stripped(s, i + 1);
        if forall|k: int| i <= k < s.len() ==> #[trigger] s[k] != '\u{1b}' {
            assert(s[i] != '\u{1b}');
            assert(seq![s[i]] + s.skip(i + 1) =~= s.skip(i));
        }
        if i + 2 < s.len() && run::is_letter(s[i + 2]) {
            assert(run::sequence_end(s, i + 2) == i + 3);
        }
    } else {
        assert(s.skip(i) =~= seq![]);
    }
}

// ---------------------------------------------------------------------------
// What became of a run
// ---------------------------------------------------------------------------

/// How a run ended is read back from what was written when it ended: it succeeded where
/// its exit code is zero, its turn was finished and nothing is left to do; any other exit
/// code is a failure. Without a word about its end it is running as long as its process is
/// there.
pub proof fn law_how_a_run_ended_is_read_back(
    agent: Agent,
    code: Seq<char>,
    es: Seq<Json>,
    left: bool,
    alive: bool,
)
    ensures
        ({
            let zero = text::trimmed(code) == "0"@;
            let cut = agent == Agent::Codex && es.len() > 0 && run::leaves_open(es.last());
            let read = run::state_name(Some(run::ended_as(agent, code, es, left)), alive);
            &&& zero && !cut && !left ==> read == "succeeded"@
            &&& zero && !cut && left ==> read == "incomplete"@
            &&& zero && cut ==> read == "interrupted"@
            &&& !zero && text::trimmed(code).len() > 0 && text::trimmed(code) != "interrupted"@
                && text::trimmed(code) != "incomplete"@ ==> read == "failed"@
        }),
        run::state_name(None, true) == "running"@,
        run::state_name(None, false) == "stopped"@,
{
    reveal_strlit("0");
    reveal_strlit("interrupted");
    reveal_strlit("incomplete");
    assert("interrupted"@[2] != "incomplete"@[2]);
    facts::lemma_trimmed_snug("0"@);
    facts::lemma_trimmed_snug("interrupted"@);
    facts::lemma_trimmed_snug("incomplete"@);
    facts::lemma_trimmed_is_snug(code);
    facts::lemma_trimmed_snug(text::trimmed(code));
}

/// The native session of a run is opened by what identifies it: the recorded session of an
/// agent that backgrounds itself, and for the others the first thread (or session) that
/// their log names.
pub proof fn law_the_session_of_a_run_is_opened(session: Seq<char>, es: Seq<Json>, i: int, t: Seq<char>)
    requires
        0 <= i < es.len(),
    ensures
        run::attach_args(Agent::Claude, session, es) == Some(seq!["attach"@, session]),
        crate::json::member_text(es[i], "type"@) == Some("thread.started"@)
            && crate::json::member_text(es[i], "thread_id"@) == Some(t) && (forall|k: int|
            0 <= k < i ==> crate::json::member_text(#[trigger] es[k], "type"@) != Some(
                "thread.started"@,
            )) ==> run::attach_args(Agent::Codex, session, es) == Some(
            seq!["resume"@, "--include-non-interactive"@, t],
        ),
        crate::json::member_text(es[i], "sessionID"@) == Some(t) && (forall|k: int|
            0 <= k < i ==> crate::json::member_text(#[trigger] es[k], "sessionID"@) is None)
            ==> run::attach_args(Agent::Opencode, session, es) == Some(seq!["--session"@, t]),
{
    lemma_first_thread(es, i, 0, t);
}

/// The first event that names a thread, or a session.
proof fn lemma_first_thread(es: Seq<Json>, i: int, j: int, t: Seq<char>)
    requires
        0 <= j <= i < es.len(),
    ensures
        crate::json::member_text(es[i], "type"@) == Some("thread.started"@)
            && crate::json::member_text(es[i], "thread_id"@) == Some(t) && (forall|k: int|
            0 <= k < i ==> crate::json::member_text(#[trigger] es[k], "type"@) != Some(
                "thread.started"@,
            )) ==> run::thread_from(es, j) == Some(t),
        crate::json::member_text(es[i], "sessionID"@) == Some(t) && (forall|k: int|
            0 <= k < i ==> crate::json::member_text(#[trigger] es[k], "sessionID"@) is None)
            ==> run::opencode_from(es, j) == Some(t),
    decreases i - j,
{
    if j < i {
        lemma_first_thread(es, i, j + 1, t);
    }
}

/// A task runs in its worktree, where that is there, and else in the main repository, which
/// is said; the agent is asked to work on that very task. What is said names the task and
/// the directory.
pub proof fn law_a_task_runs_where_it_lives(
    c: CtxV,
    t: TaskRefV,
    exists: bool,
    s: RunSettingsV,
    report: Seq<char>,
)
    ensures
        ({
            let p = run::planned_run(c, t, exists, s);
            let st = state::state_from(c.store.states, t.id, 0);
            let m = run::running_message(p, report);
            let head = "running "@ + t.id + " in "@ + p.dir;
            let note = "\nnote: no worktree — running in the main repo (edits are not isolated)"@;
            &&& p.task == t
            &&& st.worktree matches Some(w) ==> (exists ==> p.dir == w && p.isolated)
            &&& st.worktree is None || !exists ==> p.dir == c.repo.workdir && !p.isolated
            &&& text::has(p.prompt, "task "@ + t.id)
            &&& text::begins(m, head)
            &&& !p.isolated ==> text::begins(m, head + note)
            &&& p.isolated && text::trimmed_end(report).len() == 0 ==> m == head
        }),
{
    let p = run::planned_run(c, t, exists, s);
    let m = run::running_message(p, report);
    let head = "running "@ + t.id + " in "@ + p.dir;
    let note = "\nnote: no worktree — running in the main repo (edits are not isolated)"@;
    assert(m.subrange(0, head.len() as int) =~= head);
    if !p.isolated {
        assert(m.subrange(0, (head + note).len() as int) =~= head + note);
    } else if text::trimmed_end(report).len() == 0 {
        assert(m =~= head);
    }
    reveal_strlit("Use the run-rein-task skill to work on task ");
    reveal_strlit("task ");
    let w = "task "@ + t.id;
    let k = "Use the run-rein-task skill to work on task "@.len() - 5;
    assert(p.prompt.subrange(k, k + w.len()) =~= w);
    facts::lemma_occurs_has(p.prompt, w, k);
}

/// What is shown of a live run is the end of its log: its last lines, in order, and all of
/// them where they are few.
pub proof fn law_the_end_of_a_log_is_shown(log: Seq<char>)
    ensures
        ({
            let ls = text::lines_of(log);
            exists|k: int|
                {
                    &&& 0 <= k <= ls.len()
                    &&& run::recent_of(log) == text::joined(#[trigger] ls.skip(k), "\n"@)
                    &&& ls.len() - k <= 20
                    &&& ls.len() <= 20 ==> k == 0
                    &&& ls.len() > 20 ==> ls.len() - k == 20
                }
        }),
{
    let ls = text::lines_of(log);
    let k = if ls.len() > 20 {
        ls.len() - 20
    } else {
        0
    };
    assert(ls.skip(0) =~= ls);
    assert(run::recent_of(log) == text::joined(ls.skip(k), "\n"@));
}

/// A log stops in the middle of a turn where its last event starts a turn or an item, or is
/// the result of a command; whatever came before does not matter.
pub proof fn law_only_the_last_event_tells_of_an_interruption(es: Seq<Json>, e: Json)
    ensures
        !run::is_interrupted(Seq::<Json>::empty()),
        run::is_interrupted(es.push(e)) == run::is_interrupted(seq![e]),
        json::member_text(e, "type"@) == Some("turn.started"@) || json::member_text(e, "type"@)
            == Some("item.started"@) ==> run::is_interrupted(es.push(e)),
        json::member_text(e, "type"@) == Some("turn.completed"@) ==> !run::is_interrupted(
            es.push(e),
        ),
{
    assert(es.push(e).last() == e);
    assert(seq![e].last() == e);
    reveal_strlit("turn.started");
    reveal_strlit("item.started");
    reveal_strlit("turn.completed");
    reveal_strlit("item.completed");
    assert("turn.completed"@.len() != "turn.started"@.len());
    assert("turn.completed"@[0] != "item.completed"@[0]);
    assert("turn.completed"@.len() != "item.started"@.len());
}

/// The first event that names a thread tells it, and the first that names a session tells
/// that.
pub proof fn law_the_first_event_names_the_session(es: Seq<Json>, i: int)
    requires
        0 <= i,
    ensures
        run::thread_from(es, i) matches Some(id) ==> exists|k: int|
            i <= k < es.len() && json::member_text(#[trigger] es[k], "type"@) == Some(
                "thread.started"@,
            ) && json::member_text(es[k], "thread_id"@) == Some(id),
        run::opencode_from(es, i) matches Some(id) ==> exists|k: int|
            i <= k < es.len() && json::member_text(#[trigger] es[k], "sessionID"@) == Some(id)
                && forall|m: int|
                i <= m < k ==> json::member_text(#[trigger] es[m], "sessionID"@) is None,
        run::opencode_from(es, i) is None ==> forall|k: int|
            i <= k < es.len() ==> json::member_text(#[trigger] es[k], "sessionID"@) is None,
    decreases es.len() - i,
{
    if i < es.len() {
        law_the_first_event_names_the_session(es, i + 1);
        if json::member_text(es[i], "sessionID"@) is Some {
            assert(json::member_text(es[i], "sessionID"@) == run::opencode_from(es, i));
        }
        if run::is_type(es[i], "thread.started"@) && json::member_text(
            es[i],
            "thread_id"@,
        ) is Some {
            assert(json::member_text(es[i], "thread_id"@) == run::thread_from(es, i));
        }
    }
}

/// What is told of a run names its session, or its process and its state; the files that
/// were recorded are told as what they are.
pub proof fn law_logs_tell_of_the_recorded_run(
    st: TaskStateV,
    session: Seq<char>,
    status: Option<Seq<char>>,
    alive: bool,
    es: Seq<Json>,
    name: Seq<char>,
)
    ensures
        ({
            let x = run::log_lines(st, session, status, alive, es, name);
            if run::recorded_agent(st) == Agent::Claude {
                x[0] == "session "@ + session && text::has(x[1], name + " attach "@ + session)
            } else {
                &&& x[0] == run::recorded_agent(st).called(name) + " pid "@ + session
                &&& x[1] == "state "@ + run::state_name(status, alive)
                &&& st.run_log matches Some(f) ==> x.contains("log "@ + f) && x.contains(
                    "  tail -f "@ + f,
                )
                &&& st.run_status matches Some(f) ==> x.contains("status "@ + f)
            }
        }),
{
    let x = run::log_lines(st, session, status, alive, es, name);
    if run::recorded_agent(st) == Agent::Claude {
        reveal_strlit("  ");
        let w = name + " attach "@ + session;
        assert(x[1].subrange(2, 2 + w.len() as int) =~= w);
        facts::lemma_occurs_has(x[1], w, 2);
    } else {
        let state = run::state_name(status, alive);
        let n = 2 + run::state_notes(state).len() as int;
        if let Some(f) = st.run_status {
            assert(x[n] == "status "@ + f);
        }
        if let Some(f) = st.run_log {
            let k = n + run::file_lines("status "@, st.run_status).len();
            assert(x[k] == "log "@ + f);
            assert(x[k + 1] == "  tail -f "@ + f);
        }
    }
}

} // verus!
