//! Laws of the commands that change a checklist, a log, a title or a goal: what is written,
//! and where.
use crate::commands::items as commands;
use crate::commands::plan::{OutcomeV, StepV};
use crate::ctx::CtxV;
use crate::facts;
use crate::resolve;
use crate::store::TaskRefV;
use crate::task::doc::{self, FrontmatterV, TaskDocV};
use crate::task::items::{self, ItemV};
use crate::task::meant_laws;
use crate::task::op_laws;
use crate::task::section_laws;
use crate::task::sections::{self, AGENT_LOG_HEADING};
use crate::task::log_laws;
use crate::text;
use vstd::prelude::*;
use vstd::string::*;

verus! {

/// A mutation is about a task: it is the one that is resolved, it may be changed, and its
/// items have their ids.
pub open spec fn is_about(c: CtxV, flag: Option<Seq<char>>, t: TaskRefV) -> bool {
    &&& resolve::resolved(c, flag) is Ok
    &&& resolve::resolved(c, flag)->Ok_0 matches (x, source) && x == t && resolve::gate(
        c,
        source,
    ) is None
    &&& meant_laws::all_have_ids(t.doc.body)
}

/// One document is written, that of the task, and one line is printed.
pub open spec fn writes(o: OutcomeV, t: TaskRefV, d: TaskDocV) -> bool {
    &&& o.error is None
    &&& o.steps.len() == 2
    &&& o.steps[0] == (StepV::Write { path: t.path, text: doc::serialized(d) })
    &&& o.steps[1] is Say
}

/// A document with a new body and a new time, and otherwise as it was.
pub open spec fn rebodied(d: TaskDocV, body: Seq<char>, now: Seq<char>) -> TaskDocV {
    TaskDocV { front: FrontmatterV { updated_at: now, ..d.front }, body }
}

/// Nothing is done, and why is said.
pub open spec fn refuses(o: OutcomeV) -> bool {
    o.error is Some && o.steps.len() == 0
}

/// A change of a body is written.
proof fn lemma_body_change(
    c: CtxV,
    flag: Option<Seq<char>>,
    t: TaskRefV,
    id: Seq<char>,
    body: spec_fn(TaskRefV) -> Result<Seq<char>, items::ItemErrorV>,
    said: spec_fn(TaskRefV) -> Seq<char>,
    now: Seq<char>,
)
    requires
        is_about(c, flag, t),
    ensures
        ({
            let o = commands::body_change(commands::mutable_task(c, flag, now), id, body, said, now);
            match body(t) {
                Ok(b) => writes(o, t, rebodied(t.doc, b, now)),
                Err(_) => refuses(o),
            }
        }),
{
    meant_laws::lemma_none_untagged(items::items_of(t.doc.body));
}

/// Checking an item writes a document in which it is checked, unchecking one in which it is
/// open, whatever it was before; no other item changes.
pub proof fn law_a_check_is_written(
    c: CtxV,
    id: Seq<char>,
    flag: Option<Seq<char>>,
    checked: bool,
    now: Seq<char>,
    t: TaskRefV,
    k: int,
)
    requires
        is_about(c, flag, t),
        meant_laws::means(t.doc.body, id, k),
        op_laws::toggle_meets_box(
            text::lines_of(t.doc.body)[items::items_of(t.doc.body)[k].line],
            checked,
        ),
    ensures
        exists|b: Seq<char>|
            {
                let its = items::items_of(t.doc.body);
                &&& #[trigger] writes(
                    commands::check_outcome(c, id, flag, checked, now),
                    t,
                    rebodied(t.doc, b, now),
                )
                &&& items::items_of(b) == its.update(k, ItemV { checked, ..its[k] })
            },
{
    let its = items::items_of(t.doc.body);
    meant_laws::lemma_meant_line(t.doc.body, id, k);
    op_laws::law_check_sets_one_box(t.doc.body, id, checked);
    lemma_body_change(
        c,
        flag,
        t,
        id,
        |t: TaskRefV| items::checked_body(t.doc.body, id, checked),
        |t: TaskRefV| commands::checked_line(id, t.slug, checked),
        now,
    );
    let b = items::checked_body(t.doc.body, id, checked)->Ok_0;
    let new = items::items_of(b);
    let want = its.update(k, ItemV { checked, ..its[k] });
    assert forall|j: int| 0 <= j < its.len() implies new[j] == want[j] by {
        assert(its[j].line == its[k].line ==> j == k);
    }
    assert(new =~= want);
    assert(writes(
        commands::check_outcome(c, id, flag, checked, now),
        t,
        rebodied(t.doc, b, now),
    ));
}

/// Failing an item writes a document in which it is failed, with the text that it had, and
/// with the reason in the log; reopening it one in which it is open again.
pub proof fn law_a_failure_is_written_with_its_reason(
    c: CtxV,
    id: Seq<char>,
    reason: Seq<char>,
    flag: Option<Seq<char>>,
    now: Seq<char>,
    t: TaskRefV,
    k: int,
)
    requires
        is_about(c, flag, t),
        meant_laws::means(t.doc.body, id, k),
        !text::has(id, "-->"@),
    ensures
        exists|b: Seq<char>|
            {
                let its = items::items_of(t.doc.body);
                let new = items::items_of(b);
                &&& writes(
                    commands::fail_outcome(c, id, reason, flag, now),
                    t,
                    rebodied(
                        t.doc,
                        #[trigger] sections::with_log(
                            b,
                            now + " Task"@ + id + (": FAIL "@ + reason),
                        ),
                        now,
                    ),
                )
                &&& new.len() == its.len()
                &&& new[k].failed && new[k].checked && new[k].text == its[k].text
                &&& forall|j: int| 0 <= j < its.len() && j != k ==> #[trigger] new[j] == its[j]
            },
{
    let its = items::items_of(t.doc.body);
    meant_laws::lemma_meant_line(t.doc.body, id, k);
    op_laws::law_fail_marks_one_item(t.doc.body, id);
    lemma_body_change(
        c,
        flag,
        t,
        id,
        |t: TaskRefV| commands::failed_with_reason(t.doc.body, id, reason, now),
        |t: TaskRefV|
            "failed "@ + id + " in "@ + t.slug + " (resolved as not-done; `rein retry "@ + id
                + "` to reopen)"@,
        now,
    );
    let b = items::failed_body(t.doc.body, id)->Ok_0;
    let new = items::items_of(b);
    assert(new[k].failed);
    assert forall|j: int| 0 <= j < its.len() && j != k implies #[trigger] new[j] == its[j] by {
        assert(its[j].line != its[k].line);
    }
    assert(writes(
        commands::fail_outcome(c, id, reason, flag, now),
        t,
        rebodied(t.doc, sections::with_log(b, now + " Task"@ + id + (": FAIL "@ + reason)), now),
    ));
}

/// Only a failed item is retried; the document is written with the item reopened and the
/// retry in the log.
pub proof fn law_a_retry_is_written(
    c: CtxV,
    id: Seq<char>,
    flag: Option<Seq<char>>,
    now: Seq<char>,
    t: TaskRefV,
    k: int,
)
    requires
        is_about(c, flag, t),
        meant_laws::means(t.doc.body, id, k),
    ensures
        if items::items_of(t.doc.body)[k].failed {
            &&& items::reopened(t.doc.body, id) is Ok
            &&& writes(
                commands::retry_outcome(c, id, flag, now),
                t,
                rebodied(
                    t.doc,
                    sections::with_log(
                        items::reopened(t.doc.body, id)->Ok_0,
                        now + " Task"@ + id + ": RETRY"@,
                    ),
                    now,
                ),
            )
        } else {
            refuses(commands::retry_outcome(c, id, flag, now))
        },
{
    meant_laws::lemma_meant_line(t.doc.body, id, k);
    lemma_body_change(
        c,
        flag,
        t,
        id,
        |t: TaskRefV| commands::retried(t.doc.body, id, now),
        |t: TaskRefV| "reopened "@ + id + " in "@ + t.slug,
        now,
    );
}

/// Bodies to which a log can be written and read back.
pub open spec fn log_is_plain(body: Seq<char>) -> bool {
    match sections::section(text::lines_of(body), AGENT_LOG_HEADING@) {
        Some(_) => facts::settled(text::lines_of(body)),
        None => facts::no_crlf(body),
    }
}

/// A body has a line more at the end of its log, and what the log said before.
pub open spec fn logs(before: Seq<char>, after: Seq<char>, line: Seq<char>) -> bool {
    let was = match sections::content_of(before, AGENT_LOG_HEADING@) {
        Some(s) => s,
        None => Seq::<char>::empty(),
    };
    &&& sections::content_of(after, AGENT_LOG_HEADING@) matches Some(is) && text::begins(is, was)
        && text::lines_of(is).len() > 0 && text::lines_of(is).last() == text::trimmed_end(line)
}

/// A log entry about an item that is there is written as the last line of the log: the
/// time, `Task` and the id of the item, and the text. An item that is not there is refused.
pub proof fn law_an_entry_is_logged_under_its_item(
    c: CtxV,
    what: Seq<char>,
    id: Seq<char>,
    flag: Option<Seq<char>>,
    now: Seq<char>,
    t: TaskRefV,
)
    requires
        is_about(c, flag, t),
        log_is_plain(t.doc.body),
        facts::settled_line(now + " Task"@ + id + (": "@ + what)),
    ensures
        if exists|k: int|
            0 <= k < items::items_of(t.doc.body).len() && (#[trigger] items::items_of(
                t.doc.body,
            )[k]).id == Some(id) {
            exists|b: Seq<char>|
                {
                    &&& #[trigger] writes(
                        commands::log_outcome(c, what, id, flag, now),
                        t,
                        rebodied(t.doc, b, now),
                    )
                    &&& logs(t.doc.body, b, "- "@ + (now + " Task"@ + id + (": "@ + what)))
                }
        } else {
            refuses(commands::log_outcome(c, what, id, flag, now))
        },
{
    let entry = now + " Task"@ + id + (": "@ + what);
    lemma_body_change(
        c,
        flag,
        t,
        id,
        |t: TaskRefV|
            if commands::has_item(items::items_of(t.doc.body), id) {
                Ok(sections::with_log(t.doc.body, commands::item_entry(now, id, ": "@ + what)))
            } else {
                Err(items::ItemErrorV::NotFound(id))
            },
        |t: TaskRefV| "logged Task"@ + id + " in "@ + t.slug,
        now,
    );
    if commands::has_item(items::items_of(t.doc.body), id) {
        log_laws::law_log_grows_at_its_end(t.doc.body, entry);
        let b = sections::with_log(t.doc.body, entry);
        assert(writes(
            commands::log_outcome(c, what, id, flag, now),
            t,
            rebodied(t.doc, b, now),
        ));
    }
}

/// A note is written as the last line of the log: the time and the text.
pub proof fn law_a_note_is_logged(
    c: CtxV,
    what: Seq<char>,
    flag: Option<Seq<char>>,
    now: Seq<char>,
    t: TaskRefV,
)
    requires
        is_about(c, flag, t),
        log_is_plain(t.doc.body),
        facts::settled_line(now + " "@ + what),
    ensures
        exists|b: Seq<char>|
            {
                &&& #[trigger] writes(
                    commands::note_outcome(c, what, flag, now),
                    t,
                    rebodied(t.doc, b, now),
                )
                &&& logs(t.doc.body, b, "- "@ + (now + " "@ + what))
            },
{
    let entry = now + " "@ + what;
    lemma_body_change(
        c,
        flag,
        t,
        Seq::<char>::empty(),
        |t: TaskRefV|
            Ok::<Seq<char>, items::ItemErrorV>(sections::with_log(t.doc.body, now + " "@ + what)),
        |t: TaskRefV| "noted in "@ + t.slug,
        now,
    );
    log_laws::law_log_grows_at_its_end(t.doc.body, entry);
    let b = sections::with_log(t.doc.body, entry);
    assert(writes(commands::note_outcome(c, what, flag, now), t, rebodied(t.doc, b, now)));
}

/// A title that is one line is written as it is, without the white space around it, and
/// nothing else of the document changes but the time; a blank one is refused.
pub proof fn law_a_title_is_set(
    c: CtxV,
    what: Seq<char>,
    flag: Option<Seq<char>>,
    now: Seq<char>,
    t: TaskRefV,
)
    requires
        is_about(c, flag, t),
        facts::one_line(text::trimmed(what)),
    ensures
        if text::trimmed(what).len() == 0 {
            refuses(commands::title_outcome(c, what, flag, now))
        } else {
            writes(
                commands::title_outcome(c, what, flag, now),
                t,
                TaskDocV {
                    front: FrontmatterV {
                        title: text::trimmed(what),
                        updated_at: now,
                        ..t.doc.front
                    },
                    body: t.doc.body,
                },
            )
        },
{
    meant_laws::lemma_none_untagged(items::items_of(t.doc.body));
    lemma_no_feed_to_replace(text::trimmed(what));
}

/// A line has no line feed to replace.
proof fn lemma_no_feed_to_replace(s: Seq<char>)
    requires
        facts::one_line(s),
    ensures
        text::replaced(s, "\n"@, " "@) == s,
{
    facts::lemma_feed();
    text::lemma_position_from(s, "\n"@, 0);
    if let Some(k) = text::position(s, "\n"@) {
        assert(s.subrange(k, k + 1)[0] == s[k]);
    }
}

/// A goal is written into its section, and is what is read from it; a blank one is refused.
pub proof fn law_a_goal_is_set(
    c: CtxV,
    what: Seq<char>,
    flag: Option<Seq<char>>,
    now: Seq<char>,
    t: TaskRefV,
)
    requires
        is_about(c, flag, t),
        sections::section(text::lines_of(t.doc.body), "## Goal"@) is None || facts::settled(
            text::lines_of(t.doc.body),
        ),
        text::trimmed(what).len() > 0 ==> section_laws::is_content(text::trimmed(what)),
    ensures
        if text::trimmed(what).len() == 0 {
            refuses(commands::goal_outcome(c, what, flag, now))
        } else {
            exists|b: Seq<char>|
                {
                    &&& #[trigger] writes(
                        commands::goal_outcome(c, what, flag, now),
                        t,
                        rebodied(t.doc, b, now),
                    )
                    &&& sections::content_of(b, "## Goal"@) == Some(text::trimmed(what))
                }
        },
{
    meant_laws::lemma_none_untagged(items::items_of(t.doc.body));
    let goal = text::trimmed(what);
    if goal.len() > 0 {
        reveal_strlit("## Goal");
        match sections::section(text::lines_of(t.doc.body), "## Goal"@) {
            None => {
                section_laws::law_new_section_reads_back(t.doc.body, "## Goal"@, goal);
            },
            Some((a, b)) => {
                section_laws::law_section_content_reads_back(t.doc.body, "## Goal"@, goal, a, b);
            },
        }
        let b = sections::with_content(t.doc.body, "## Goal"@, goal);
        assert(writes(
            commands::goal_outcome(c, what, flag, now),
            t,
            rebodied(t.doc, b, now),
        ));
    }
}

} // verus!
