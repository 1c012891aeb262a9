//! `rein summary`: an LLM names a task from its checklist items.
use crate::commands::items::{self, write_doc};
use crate::commands::lifecycle::{self, target};
use crate::commands::local::push_line;
use crate::commands::plan::{one_step, Step, StepV};
use crate::commands::run::{self, agent_in, not_blank, Agent, RunSettings};
use crate::ctx::{Ctx, CtxV};
use crate::projects;
use crate::store::{TaskRef, TaskRefV};
use crate::task;
use crate::task::doc::{self, FrontmatterV, TaskDocV};
use crate::task::items::{self as checklist, ItemV};
use crate::task::sections;
use crate::text;
use crate::util;
use vstd::prelude::*;
use vstd::string::*;

verus! {

// ---------------------------------------------------------------------------
// The prompt
// ---------------------------------------------------------------------------

/// What the LLM is asked to do.
pub const SUMMARY_PROMPT: &'static str = "You are summarizing a software task for a task tracker, from its checklist items.\nWrite a concise one-line title naming the overall task, and a 1-3 sentence Goal\ndescribing the objective. Respond with EXACTLY these two fields and nothing else:\nTITLE: <one line>\nGOAL: <one to three sentences>\n\nChecklist items:\n";

/// The prompt for checklist items: the item texts behind a strict output contract.
pub open spec fn prompt_for(its: Seq<ItemV>) -> Seq<char>
    decreases its.len(),
{
    if its.len() == 0 {
        SUMMARY_PROMPT@
    } else {
        prompt_for(its.drop_last()) + "- "@ + text::trimmed(its.last().text) + "\n"@
    }
}

/// Build the LLM prompt: the checklist item texts plus a strict output contract.
pub fn summary_prompt(its: &Vec<task::Item>) -> (r: String)
    ensures
        r@ == prompt_for(text::views(its@)),
{
    let ghost all = text::views(its@);
    let mut p = String::from_str(SUMMARY_PROMPT);
    let mut i: usize = 0;
    while i < its.len()
        invariant
            0 <= i <= its.len(),
            all == text::views(its@),
            p@ == prompt_for(all.take(i as int)),
        decreases its.len() - i,
    {
        proof {
            assert(all.take(i as int + 1).drop_last() =~= all.take(i as int));
            assert(all.take(i as int + 1).last() == its@[i as int]@);
        }
        p.append("- ");
        p.append(&text::trim(&its[i].text));
        p.append("\n");
        i += 1;
    }
    proof {
        assert(all.take(i as int) =~= all);
    }
    p
}

/// The command that an agent summarizes with.
pub open spec fn summary_default(agent: Agent, claude: Seq<char>) -> Seq<char> {
    match agent {
        Agent::Claude => claude + " -p"@,
        Agent::Codex => "codex exec --sandbox read-only -- -"@,
        Agent::Opencode => "opencode run \"$(cat)\""@,
    }
}

/// The agent that summarizes.
pub open spec fn summary_agent(s: run::RunSettingsV) -> Agent {
    match run::set_agent(s.env_agent, s.claude) {
        Some(a) => a,
        None => match run::set_agent(s.git_agent, s.claude) {
            Some(a) => a,
            None => Agent::Opencode,
        },
    }
}

/// The summary command of settings.
pub open spec fn command_for(
    env_cmd: Option<Seq<char>>,
    git_cmd: Option<Seq<char>>,
    settings: run::RunSettingsV,
) -> Seq<char> {
    match run::nonblank(env_cmd) {
        Some(c) => c,
        None => match git_cmd {
            Some(c) => c,
            None => summary_default(summary_agent(settings), settings.claude),
        },
    }
}

/// The summary command: `REIN_SUMMARY_CMD` → git `rein.summary` → the default of the
/// agent, which follows `REIN_RUN_AGENT` → git `rein.runAgent` → `opencode`. It gets
/// the prompt on stdin.
pub fn summary_command(
    env_cmd: &Option<String>,
    git_cmd: &Option<String>,
    settings: &RunSettings,
) -> (r: String)
    ensures
        r@ == command_for(text::opt_view(*env_cmd), text::opt_view(*git_cmd), settings@),
{
    match not_blank(env_cmd) {
        Some(c) => c,
        None => match git_cmd {
            Some(c) => c.clone(),
            None => {
                let agent = match agent_in(&settings.env_agent, &settings.claude) {
                    Some(a) => a,
                    None => match agent_in(&settings.git_agent, &settings.claude) {
                        Some(a) => a,
                        None => Agent::Opencode,
                    },
                };
                match agent {
                    Agent::Claude => {
                        let mut c = settings.claude.clone();
                        c.append(" -p");
                        c
                    },
                    Agent::Codex => String::from_str("codex exec --sandbox read-only -- -"),
                    Agent::Opencode => String::from_str("opencode run \"$(cat)\""),
                }
            },
        },
    }
}

/// The task that is summarized, and the prompt for it: all its items. A task without
/// items is refused.
pub open spec fn asked(c: CtxV, query: Option<Seq<char>>) -> Result<
    (TaskRefV, Seq<char>),
    Seq<char>,
> {
    match lifecycle::target_of(c, query) {
        Err(e) => Err(e),
        Ok(t) => {
            let its = checklist::items_of(t.doc.body);
            if its.len() == 0 {
                Err(
                    "'"@ + t.slug
                        + "' has no checklist items to summarize — add some under ## Tasks first"@,
                )
            } else {
                Ok((t, prompt_for(its)))
            }
        },
    }
}

/// The task that is summarized, and the prompt for it.
pub fn summary_target(ctx: &Ctx, query: Option<&str>) -> (r: Result<(TaskRef, String), String>)
    ensures
        match r {
            Ok((task, prompt)) => asked(ctx@, projects::str_view(query)) == Ok::<
                (TaskRefV, Seq<char>),
                Seq<char>,
            >((task@, prompt@)),
            Err(m) => asked(ctx@, projects::str_view(query)) == Err::<
                (TaskRefV, Seq<char>),
                Seq<char>,
            >(m@),
        },
{
    match target(ctx, query) {
        Err(e) => Err(e),
        Ok(t) => {
            let its = task::scan_items(&t.doc.body);
            proof {
                assert(text::views(its@).len() == its@.len());
            }
            if its.len() == 0 {
                let mut m = String::from_str("'");
                m.append(&t.slug);
                m.append(
                    "' has no checklist items to summarize — add some under ## Tasks first",
                );
                return Err(m);
            }
            let prompt = summary_prompt(&its);
            Ok((t, prompt))
        },
    }
}

// ---------------------------------------------------------------------------
// The reply
// ---------------------------------------------------------------------------

/// The capital of a character is that of a label. The dotless i is the one character
/// beyond ASCII whose capital is a letter of `TITLE` or `GOAL`.
pub open spec fn has_capital(c: char, capital: char) -> bool {
    util::lowered(c) == util::lowered(capital) || c == '\u{131}' && capital == 'I'
}

/// A text starts with a label in capitals, whatever the case of its letters.
pub open spec fn begins_in_any_case(s: Seq<char>, p: Seq<char>) -> bool {
    s.len() >= p.len() && forall|i: int| 0 <= i < p.len() ==> has_capital(#[trigger] s[i], p[i])
}

/// Whether a text starts with a label in capitals, whatever the case of its letters.
fn starts_in_any_case(s: &str, p: &str) -> (r: bool)
    ensures
        r == begins_in_any_case(s@, p@),
{
    let a = text::chars_of(s);
    let b = text::chars_of(p);
    if a.len() < b.len() {
        return false;
    }
    let mut i: usize = 0;
    while i < b.len()
        invariant
            0 <= i <= b.len() <= a.len(),
            a@ == s@,
            b@ == p@,
            forall|k: int| 0 <= k < i ==> has_capital(#[trigger] s@[k], p@[k]),
        decreases b.len() - i,
    {
        let dotless: bool = a[i] == '\u{131}' && b[i] == 'I';
        if util::lower(a[i]) != util::lower(b[i]) && !dotless {
            assert(!has_capital(s@[i as int], p@[i as int]));
            return false;
        }
        i += 1;
    }
    true
}

/// What has been read of a reply.
#[verifier::ext_equal]
pub struct ReplyV {
    pub title: Option<Seq<char>>,
    pub goal: Seq<Seq<char>>,
    pub in_goal: bool,
}

/// What has been read of a reply: the title, the lines of the goal, and whether the
/// goal goes on.
struct Reply {
    title: Option<String>,
    goal: Vec<String>,
    in_goal: bool,
}

impl View for Reply {
    type V = ReplyV;

    closed spec fn view(&self) -> ReplyV {
        ReplyV {
            title: text::opt_view(self.title),
            goal: text::views(self.goal@),
            in_goal: self.in_goal,
        }
    }
}

/// What a title line says: what follows its first six bytes. The dotless i takes two
/// of them, so that the colon is left.
pub open spec fn title_text(t: Seq<char>) -> Seq<char> {
    text::trimmed(
        t.skip(
            if t[1] == '\u{131}' {
                5
            } else {
                6
            },
        ),
    )
}

/// The reply after one more line.
pub open spec fn reply_line(r: ReplyV, line: Seq<char>) -> ReplyV {
    let t = text::trimmed_start(line);
    if r.title is None && begins_in_any_case(t, "TITLE:"@) {
        ReplyV { title: Some(title_text(t)), in_goal: false, ..r }
    } else if begins_in_any_case(t, "GOAL:"@) {
        ReplyV {
            goal: if text::trimmed(t.skip(5)).len() == 0 {
                r.goal
            } else {
                r.goal.push(text::trimmed(t.skip(5)))
            },
            in_goal: true,
            ..r
        }
    } else if r.in_goal {
        ReplyV { goal: r.goal.push(line), ..r }
    } else {
        r
    }
}

/// What a reply says, line by line.
pub open spec fn reply_of(ls: Seq<Seq<char>>) -> ReplyV
    decreases ls.len(),
{
    if ls.len() == 0 {
        ReplyV { title: None, goal: seq![], in_goal: false }
    } else {
        reply_line(reply_of(ls.drop_last()), ls.last())
    }
}

/// The title and the goal in a reply.
pub open spec fn summary_of(out: Seq<char>) -> Result<(Seq<char>, Seq<char>), Seq<char>> {
    let r = reply_of(text::lines_of(out));
    let goal = text::trimmed(text::joined(r.goal, "\n"@));
    match projects::given(r.title) {
        None => Err("summary output had no non-empty TITLE: line"@),
        Some(title) => if goal.len() == 0 {
            Err("summary output had no GOAL: content"@)
        } else {
            Ok((title, goal))
        },
    }
}

/// The reply after one more line.
fn read_line(r: Reply, line: &str) -> (n: Reply)
    ensures
        n@ == reply_line(r@, line@),
{
    let mut r = r;
    let ghost before = r@;
    let t = text::trim_start(line);
    proof {
        reveal_strlit("TITLE:");
        reveal_strlit("GOAL:");
    }
    if r.title.is_none() && starts_in_any_case(&t, "TITLE:") {
        let v = text::chars_of(&t);
        let n: usize = if v[1] == '\u{131}' {
            5
        } else {
            6
        };
        let rest = text::slice_of(&v, n, v.len());
        assert(rest@ =~= t@.skip(n as int));
        r.title = Some(text::trim(&rest));
        r.in_goal = false;
    } else if starts_in_any_case(&t, "GOAL:") {
        r.in_goal = true;
        let v = text::chars_of(&t);
        let tail = text::slice_of(&v, 5, v.len());
        assert(tail@ =~= t@.skip(5));
        let rest = text::trim(&tail);
        if !rest.as_str().is_empty() {
            push_line(&mut r.goal, rest);
        }
    } else if r.in_goal {
        push_line(&mut r.goal, String::from_str(line));
    }
    assert(r@ =~= reply_line(before, line@));
    r
}

/// Parse the LLM's `TITLE:`/`GOAL:` contract. The title is the first `TITLE:`
/// line; the goal is everything from `GOAL:` onward (so it may span lines). Both
/// prefixes are matched case-insensitively and tolerate leading whitespace.
pub fn parse_summary(out: &str) -> (r: Result<(String, String), String>)
    ensures
        match r {
            Ok((title, goal)) => summary_of(out@) == Ok::<(Seq<char>, Seq<char>), Seq<char>>(
                (title@, goal@),
            ),
            Err(e) => summary_of(out@) == Err::<(Seq<char>, Seq<char>), Seq<char>>(e@),
        },
{
    let ls = text::lines(out);
    let ghost all = text::views(ls@);
    let mut read = Reply { title: None, goal: Vec::new(), in_goal: false };
    assert(read@ =~= reply_of(all.take(0)));
    let mut i: usize = 0;
    while i < ls.len()
        invariant
            0 <= i <= ls.len(),
            all == text::views(ls@),
            read@ == reply_of(all.take(i as int)),
        decreases ls.len() - i,
    {
        proof {
            assert(all.take(i as int + 1).drop_last() =~= all.take(i as int));
            assert(all.take(i as int + 1).last() == ls@[i as int]@);
        }
        read = read_line(read, &ls[i]);
        i += 1;
    }
    proof {
        assert(all.take(i as int) =~= all);
    }
    let goal = text::trim(&text::join(&read.goal, "\n"));
    match read.title {
        Some(title) => {
            if title.as_str().is_empty() {
                return Err(String::from_str("summary output had no non-empty TITLE: line"));
            }
            if goal.as_str().is_empty() {
                return Err(String::from_str("summary output had no GOAL: content"));
            }
            Ok((title, goal))
        },
        None => Err(String::from_str("summary output had no non-empty TITLE: line")),
    }
}

// ---------------------------------------------------------------------------
// Applying it
// ---------------------------------------------------------------------------

/// A document with a title and a goal, at a time.
pub open spec fn summarized(d: TaskDocV, title: Seq<char>, goal: Seq<char>, now: Seq<char>) -> TaskDocV {
    doc::touched(
        TaskDocV {
            front: FrontmatterV { title, ..d.front },
            body: sections::with_content(d.body, "## Goal"@, goal),
        },
        now,
    )
}

/// What is done with a reply: the steps that apply it, and what is said of it.
pub open spec fn applied(t: TaskRefV, out: Seq<char>, now: Seq<char>) -> Result<
    (Seq<StepV>, Seq<char>),
    Seq<char>,
> {
    match summary_of(out) {
        Err(e) => Err(e),
        Ok((title, goal)) => Ok(
            (
                seq![items::write_step(t, summarized(t.doc, title, goal, now))],
                "summarized "@ + t.slug + " → title: "@ + title,
            ),
        ),
    }
}

/// `rein summary [task]` — have an LLM summarize the task's checklist items into a
/// concise title + Goal, then apply both through rein's own safe-write path (the
/// same logic `rein title`/`rein goal` use) — the LLM only returns text, it never
/// edits the Markdown: the steps that apply a reply, and what is said of it.
pub fn summary(t: &TaskRef, out: &str, now: &str) -> (r: Result<(Vec<Step>, String), String>)
    ensures
        match r {
            Ok((steps, message)) => applied(t@, out@, now@) == Ok::<
                (Seq<StepV>, Seq<char>),
                Seq<char>,
            >((text::views(steps@), message@)),
            Err(m) => applied(t@, out@, now@) == Err::<(Seq<StepV>, Seq<char>), Seq<char>>(m@),
        },
{
    match parse_summary(out) {
        Err(e) => Err(e),
        Ok((title, goal)) => {
            // apply both in a single write — the LLM produced text, rein produces the bytes
            let mut d = t.doc.clone();
            d.front.title = title.clone();
            d.body = task::set_section_content(&d.body, "## Goal", &goal);
            d.touch_at(now);
            let mut message = String::from_str("summarized ");
            message.append(&t.slug);
            message.append(" → title: ");
            message.append(&title);
            Ok((one_step(write_doc(t, &d)), message))
        },
    }
}

} // verus!
