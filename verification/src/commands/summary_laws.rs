//! Laws of summaries: what is asked for, and what is made of the reply.
use crate::commands::lifecycle;
use crate::commands::plan::StepV;
use crate::commands::run::{self, RunSettingsV};
use crate::commands::run_laws;
use crate::commands::summary::{self, ReplyV, SUMMARY_PROMPT};
use crate::ctx::CtxV;
use crate::facts;
use crate::store::TaskRefV;
use crate::task::doc::{self, FrontmatterV, TaskDocV};
use crate::task::item_laws;
use crate::task::items::{self as checklist, ItemV};
use crate::task::op_laws;
use crate::task::section_laws;
use crate::task::sections;
use crate::text;
use vstd::prelude::*;
use vstd::string::*;

verus! {

// ---------------------------------------------------------------------------
// The prompt
// ---------------------------------------------------------------------------

/// The lines that a prompt has for items: one for each, in order, with its text.
pub open spec fn item_lines(its: Seq<ItemV>) -> Seq<Seq<char>> {
    Seq::new(its.len(), |i: int| "- "@ + text::trimmed(its[i].text))
}

/// Items whose texts are single lines, as those of a document are.
pub open spec fn single_lines(its: Seq<ItemV>) -> bool {
    forall|i: int| 0 <= i < its.len() ==> facts::one_line(text::trimmed((#[trigger] its[i]).text))
}

/// The instructions end with a line feed, and name the two labels that a reply is read by.
proof fn lemma_instructions()
    ensures
        SUMMARY_PROMPT@.len() > 0,
        SUMMARY_PROMPT@.last() == '\n',
        text::has(SUMMARY_PROMPT@, "\nTITLE: "@),
        text::has(SUMMARY_PROMPT@, "\nGOAL: "@),
{
    reveal_strlit(
        "You are summarizing a software task for a task tracker, from its checklist items.\nWrite a concise one-line title naming the overall task, and a 1-3 sentence Goal\ndescribing the objective. Respond with EXACTLY these two fields and nothing else:\nTITLE: <one line>\nGOAL: <one to three sentences>\n\nChecklist items:\n",
    );
    reveal_strlit("\nTITLE: ");
    reveal_strlit("\nGOAL: ");
    let p = SUMMARY_PROMPT@;
    assert(p.subrange(243, 251) =~= "\nTITLE: "@);
    facts::lemma_occurs_has(p, "\nTITLE: "@, 243);
    assert(p.subrange(261, 268) =~= "\nGOAL: "@);
    facts::lemma_occurs_has(p, "\nGOAL: "@, 261);
}

/// A prompt starts with the instructions, which name the labels that a reply is read by.
proof fn lemma_prompt_starts(its: Seq<ItemV>)
    ensures
        text::begins(summary::prompt_for(its), SUMMARY_PROMPT@),
        summary::prompt_for(its).len() > 0,
        summary::prompt_for(its).last() == '\n',
    decreases its.len(),
{
    facts::lemma_feed();
    lemma_instructions();
    let p = SUMMARY_PROMPT@;
    let whole = summary::prompt_for(its);
    if its.len() == 0 {
        assert(whole.subrange(0, p.len() as int) =~= p);
    } else {
        lemma_prompt_starts(its.drop_last());
        let before = summary::prompt_for(its.drop_last());
        assert(whole.subrange(0, p.len() as int) =~= before.subrange(0, p.len() as int));
    }
}

/// The prompt for items is the fixed instructions and behind them exactly one line for
/// each item, in order: a dash, a space and the text of the item.
pub proof fn law_a_prompt_lists_every_item(its: Seq<ItemV>)
    requires
        single_lines(its),
    ensures
        text::begins(summary::prompt_for(its), SUMMARY_PROMPT@),
        text::lines_of(summary::prompt_for(its)) == text::lines_of(SUMMARY_PROMPT@) + item_lines(
            its,
        ),
    decreases its.len(),
{
    facts::lemma_feed();
    reveal_strlit("- ");
    lemma_prompt_starts(its);
    if its.len() == 0 {
        assert(item_lines(its) =~= seq![]);
        assert(text::lines_of(SUMMARY_PROMPT@) + item_lines(its) =~= text::lines_of(
            SUMMARY_PROMPT@,
        ));
    } else {
        let d = its.drop_last();
        assert forall|i: int| 0 <= i < d.len() implies facts::one_line(
            text::trimmed((#[trigger] d[i]).text),
        ) by {
            assert(d[i] == its[i]);
        }
        law_a_prompt_lists_every_item(d);
        lemma_prompt_starts(d);
        let before = summary::prompt_for(d);
        let t = text::trimmed(its.last().text);
        assert(facts::one_line(text::trimmed(its[its.len() - 1].text)));
        let line = "- "@ + t;
        assert forall|i: int| 0 <= i < line.len() implies #[trigger] line[i] != '\n' by {
            if i >= 2 {
                assert(line[i] == t[i - 2]);
            }
        }
        let e = Seq::<char>::empty();
        assert(summary::prompt_for(its) =~= before + (line + "\n"@ + e));
        facts::lemma_lines_append(before, line + "\n"@ + e);
        facts::lemma_lines_cons(line, e);
        facts::lemma_trimmed_is_snug(its.last().text);
        assert(text::without_cr(line) == line) by {
            if line.last() == '\r' {
                if t.len() > 0 {
                    assert(line.last() == t.last());
                }
            }
        }
        assert(text::lines_of(e) =~= seq![]);
        assert(item_lines(its) =~= item_lines(d).push(line));
        assert(text::lines_of(summary::prompt_for(its)) =~= text::lines_of(SUMMARY_PROMPT@)
            + item_lines(its));
    }
}

/// Lists of items that say different things are asked about with different prompts.
pub proof fn law_different_items_have_different_prompts(a: Seq<ItemV>, b: Seq<ItemV>)
    requires
        single_lines(a),
        single_lines(b),
        a.len() != b.len() || exists|i: int|
            0 <= i < a.len() && text::trimmed((#[trigger] a[i]).text) != text::trimmed(b[i].text),
    ensures
        summary::prompt_for(a) != summary::prompt_for(b),
{
    law_a_prompt_lists_every_item(a);
    law_a_prompt_lists_every_item(b);
    if summary::prompt_for(a) == summary::prompt_for(b) {
        let n = text::lines_of(SUMMARY_PROMPT@).len();
        let ls = text::lines_of(summary::prompt_for(a));
        assert(item_lines(a) =~= ls.skip(n as int));
        assert(item_lines(b) =~= ls.skip(n as int));
        assert(item_lines(a).len() == item_lines(b).len());
        let i = choose|i: int|
            0 <= i < a.len() && text::trimmed((#[trigger] a[i]).text) != text::trimmed(b[i].text);
        assert(item_lines(a)[i] == item_lines(b)[i]);
        let x = text::trimmed(a[i].text);
        let y = text::trimmed(b[i].text);
        reveal_strlit("- ");
        assert(("- "@ + x).skip(2) =~= x);
        assert(("- "@ + y).skip(2) =~= y);
    }
}

/// The items of a document are single lines.
proof fn lemma_items_are_single_lines(body: Seq<char>)
    ensures
        single_lines(checklist::items_of(body)),
{
    let ls = text::lines_of(body);
    let its = checklist::items_of(body);
    item_laws::lemma_items_lines(ls);
    facts::lemma_lines_have_no_feed(body);
    assert forall|i: int| 0 <= i < its.len() implies facts::one_line(
        text::trimmed((#[trigger] its[i]).text),
    ) by {
        let line = ls[its[i].line];
        assert(checklist::item_at(line, its[i].line) == Some(its[i]));
        assert(facts::one_line(ls[its[i].line]));
        op_laws::lemma_item_text_is_one_line(line, its[i].line);
        op_laws::lemma_trimmed_one_line(its[i].text);
    }
}

/// What is asked about a task names every item of its checklist, whatever its state, and
/// nothing else; the labels that it asks for are those by which a reply is read.
pub proof fn law_all_items_of_a_task_are_summarized(
    c: CtxV,
    query: Option<Seq<char>>,
    t: TaskRefV,
)
    requires
        lifecycle::target_of(c, query) == Ok::<TaskRefV, Seq<char>>(t),
    ensures
        ({
            let its = checklist::items_of(t.doc.body);
            match summary::asked(c, query) {
                Ok((task, prompt)) => {
                    &&& its.len() > 0
                    &&& task == t
                    &&& text::begins(prompt, SUMMARY_PROMPT@)
                    &&& text::lines_of(prompt) == text::lines_of(SUMMARY_PROMPT@) + item_lines(its)
                },
                Err(_) => its.len() == 0,
            }
        }),
        text::has(SUMMARY_PROMPT@, "\nTITLE: "@),
        text::has(SUMMARY_PROMPT@, "\nGOAL: "@),
{
    lemma_items_are_single_lines(t.doc.body);
    law_a_prompt_lists_every_item(checklist::items_of(t.doc.body));
    lemma_instructions();
}

// ---------------------------------------------------------------------------
// The command
// ---------------------------------------------------------------------------

/// The first command that is set is the one that summarizes, as it is written. Where none
/// is, the agent that is set does, and `opencode` where none is.
pub proof fn law_the_first_summary_command_wins(
    env_cmd: Option<Seq<char>>,
    git_cmd: Option<Seq<char>>,
    s: RunSettingsV,
)
    ensures
        run::nonblank(env_cmd) matches Some(v) ==> summary::command_for(env_cmd, git_cmd, s) == v,
        run::nonblank(env_cmd) is None ==> (git_cmd matches Some(v) ==> summary::command_for(
            env_cmd,
            git_cmd,
            s,
        ) == v),
        run::nonblank(env_cmd) is None && git_cmd is None && run_laws::names_none(
            s.env_agent,
            s.claude,
        ) && run_laws::names_none(s.git_agent, s.claude) ==> text::begins(
            summary::command_for(env_cmd, git_cmd, s),
            "opencode "@,
        ),
        run::nonblank(env_cmd) is None && git_cmd is None && s.env_agent == Some("codex"@)
            && run_laws::well_named(s.claude) ==> text::begins(
            summary::command_for(env_cmd, git_cmd, s),
            "codex "@,
        ),
        run::nonblank(env_cmd) is None && git_cmd is None && s.env_agent == Some(s.claude)
            && facts::snug(s.claude) && s.claude.len() > 0 ==> text::begins(
            summary::command_for(env_cmd, git_cmd, s),
            s.claude,
        ),
{
    reveal_strlit("opencode ");
    reveal_strlit("codex ");
    reveal_strlit("codex");
    reveal_strlit("opencode run \"$(cat)\"");
    reveal_strlit("codex exec --sandbox read-only -- -");
    facts::lemma_trimmed_snug("codex"@);
    if facts::snug(s.claude) {
        facts::lemma_trimmed_snug(s.claude);
    }
    let o = "opencode run \"$(cat)\""@;
    assert(o.subrange(0, "opencode "@.len() as int) =~= "opencode "@);
    let x = "codex exec --sandbox read-only -- -"@;
    assert(x.subrange(0, "codex "@.len() as int) =~= "codex "@);
    facts::lemma_begins(s.claude, " -p"@);
}

// ---------------------------------------------------------------------------
// The reply
// ---------------------------------------------------------------------------

/// A reply is applied in one write of the document of the task: its title is that of the
/// reply, the time is the new one, and the rest of the frontmatter stays; the section for
/// the goal holds the goal of the reply. What the reply lacks is said, and nothing is done.
pub proof fn law_a_reply_is_applied(t: TaskRefV, out: Seq<char>, now: Seq<char>)
    ensures
        summary::summary_of(out) is Err ==> summary::applied(t, out, now) is Err,
        summary::summary_of(out) matches Ok((title, goal)) ==> {
            let r = summary::applied(t, out, now);
            let body = sections::with_content(t.doc.body, "## Goal"@, goal);
            &&& r is Ok
            &&& r->Ok_0 matches (steps, _) && steps == seq![
                StepV::Write {
                    path: t.path,
                    text: doc::serialized(
                        TaskDocV {
                            front: FrontmatterV { title, updated_at: now, ..t.doc.front },
                            body,
                        },
                    ),
                },
            ]
            &&& section_laws::is_content(goal) && (sections::section(
                text::lines_of(t.doc.body),
                "## Goal"@,
            ) is None || facts::settled(text::lines_of(t.doc.body))) ==> sections::content_of(
                body,
                "## Goal"@,
            ) == Some(goal)
        },
{
    if let Ok((title, goal)) = summary::summary_of(out) {
        reveal_strlit("## Goal");
        if section_laws::is_content(goal) {
            match sections::section(text::lines_of(t.doc.body), "## Goal"@) {
                None => {
                    section_laws::law_new_section_reads_back(t.doc.body, "## Goal"@, goal);
                },
                Some((a, b)) => {
                    if facts::settled(text::lines_of(t.doc.body)) {
                        section_laws::law_section_content_reads_back(
                            t.doc.body,
                            "## Goal"@,
                            goal,
                            a,
                            b,
                        );
                    }
                },
            }
        }
    }
}

/// A line starts a title.
pub open spec fn is_title(line: Seq<char>) -> bool {
    summary::begins_in_any_case(text::trimmed_start(line), "TITLE:"@)
}

/// A line starts a goal.
pub open spec fn is_goal(line: Seq<char>) -> bool {
    summary::begins_in_any_case(text::trimmed_start(line), "GOAL:"@)
}

/// Lines before any title and any goal say nothing.
proof fn lemma_noise(ls: Seq<Seq<char>>)
    requires
        forall|i: int| 0 <= i < ls.len() ==> !is_title(#[trigger] ls[i]) && !is_goal(ls[i]),
    ensures
        summary::reply_of(ls) == (ReplyV { title: None, goal: seq![], in_goal: false }),
    decreases ls.len(),
{
    if ls.len() > 0 {
        assert(!is_title(ls[ls.len() - 1]));
        lemma_noise(ls.drop_last());
    }
}

/// Lines behind the start of a goal are part of it.
proof fn lemma_goal_goes_on(pre: Seq<Seq<char>>, more: Seq<Seq<char>>)
    requires
        summary::reply_of(pre).title is Some,
        summary::reply_of(pre).in_goal,
        forall|i: int| 0 <= i < more.len() ==> !is_goal(#[trigger] more[i]),
    ensures
        summary::reply_of(pre + more) == (ReplyV {
            goal: summary::reply_of(pre).goal + more,
            ..summary::reply_of(pre)
        }),
    decreases more.len(),
{
    if more.len() == 0 {
        assert(pre + more =~= pre);
        assert(summary::reply_of(pre).goal + more =~= summary::reply_of(pre).goal);
    } else {
        assert(!is_goal(more[more.len() - 1]));
        lemma_goal_goes_on(pre, more.drop_last());
        assert((pre + more).drop_last() =~= pre + more.drop_last());
        assert((summary::reply_of(pre).goal + more.drop_last()).push(more.last())
            =~= summary::reply_of(pre).goal + more);
    }
}

/// What stands behind a label.
proof fn lemma_label(label: Seq<char>, t: Seq<char>)
    requires
        label.len() > 0,
        !text::is_white(label[0]),
        facts::snug(t),
    ensures
        text::trimmed_start(label + " "@ + t) == label + " "@ + t,
        summary::begins_in_any_case(label + " "@ + t, label),
        text::trimmed((label + " "@ + t).skip(label.len() as int)) == t,
{
    let line = label + " "@ + t;
    reveal_strlit(" ");
    assert(line[0] == label[0]);
    assert forall|i: int| 0 <= i < label.len() implies #[trigger] line[i] == label[i] by {}
    assert(line.skip(label.len() as int) =~= " "@ + t + seq![]);
    facts::lemma_trimmed_of(" "@, t, seq![]);
}

/// A reply that keeps the contract reads back: its title, and its goal with every
/// line that follows. What stands before the title does not matter.
pub proof fn law_a_reply_reads_back(
    noise: Seq<Seq<char>>,
    title: Seq<char>,
    goal: Seq<char>,
    more: Seq<Seq<char>>,
)
    requires
        facts::settled(noise),
        facts::settled(more),
        facts::settled_line(title),
        facts::settled_line(goal),
        facts::snug(title),
        facts::snug(goal),
        title.len() > 0,
        goal.len() > 0,
        forall|i: int|
            0 <= i < noise.len() ==> !is_title(#[trigger] noise[i]) && !is_goal(noise[i]),
        forall|i: int| 0 <= i < more.len() ==> !is_goal(#[trigger] more[i]),
        more.len() > 0 ==> more.last().len() > 0,
    ensures
        summary::summary_of(
            text::joined(
                noise + seq!["TITLE:"@ + " "@ + title, "GOAL:"@ + " "@ + goal] + more,
                "\n"@,
            ),
        ) == Ok::<(Seq<char>, Seq<char>), Seq<char>>(
            (title, text::trimmed(text::joined(seq![goal] + more, "\n"@))),
        ),
{
    let first = "TITLE:"@ + " "@ + title;
    let second = "GOAL:"@ + " "@ + goal;
    let head = noise.push(first);
    let pre = head.push(second);
    let ls = noise + seq![first, second] + more;
    assert(ls =~= pre + more);
    reveal_strlit("TITLE:");
    reveal_strlit("GOAL:");
    reveal_strlit(" ");
    assert(first.last() == title.last());
    assert(second.last() == goal.last());
    assert(facts::one_line(first)) by {
        assert forall|i: int| 0 <= i < first.len() implies #[trigger] first[i] != '\n' by {
            if i >= 7 {
                assert(first[i] == title[i - 7]);
            }
        }
    }
    assert(facts::one_line(second)) by {
        assert forall|i: int| 0 <= i < second.len() implies #[trigger] second[i] != '\n' by {
            if i >= 6 {
                assert(second[i] == goal[i - 6]);
            }
        }
    }
    assert forall|i: int| 0 <= i < ls.len() implies facts::settled_line(#[trigger] ls[i]) by {
        if i < noise.len() {
            assert(ls[i] == noise[i]);
        } else if i >= noise.len() + 2 {
            assert(ls[i] == more[i - noise.len() - 2]);
        }
    }
    assert(ls.last().len() > 0) by {
        if more.len() > 0 {
            assert(ls.last() == more.last());
        } else {
            assert(ls.last() == second);
        }
    }
    facts::lemma_lines_joined(ls);
    lemma_noise(noise);
    lemma_label("TITLE:"@, title);
    lemma_label("GOAL:"@, goal);
    assert(head.drop_last() =~= noise);
    assert(pre.drop_last() =~= head);
    assert(summary::reply_of(head).title == Some(title));
    assert(summary::reply_of(pre).goal =~= seq![goal]);
    lemma_goal_goes_on(pre, more);
    let whole = text::joined(seq![goal] + more, "\n"@);
    lemma_joined_starts(goal, more);
    lemma_trimmed_keeps(whole);
}

/// Joined lines start with the first one.
proof fn lemma_joined_starts(first: Seq<char>, more: Seq<Seq<char>>)
    requires
        first.len() > 0,
    ensures
        text::joined(seq![first] + more, "\n"@).len() > 0,
        text::joined(seq![first] + more, "\n"@)[0] == first[0],
    decreases more.len(),
{
    let all = seq![first] + more;
    if more.len() == 0 {
        assert(all =~= seq![first]);
        assert(all.drop_last() =~= seq![]);
        assert(text::joined(all, "\n"@) =~= first);
    } else {
        lemma_joined_starts(first, more.drop_last());
        let before = seq![first] + more.drop_last();
        assert(all =~= before.push(more.last()));
        text::lemma_joined_push(before, "\n"@, more.last());
    }
}

/// A text that starts with something other than white space is not trimmed away.
proof fn lemma_trimmed_keeps(s: Seq<char>)
    requires
        s.len() > 0,
        !text::is_white(s[0]),
    ensures
        text::trimmed(s).len() > 0,
    decreases s.len(),
{
    if text::is_white(s.last()) {
        lemma_trimmed_keeps(s.drop_last());
    }
}

} // verus!
