//! Laws of the Agent Log: it stays local, and it survives a pull.
use crate::facts;
use crate::task::sections::{self, AGENT_LOG_HEADING};
use crate::text;
use vstd::prelude::*;

verus! {

/// The first heading is found where no line before it is one.
pub proof fn lemma_heading_is(ls: Seq<Seq<char>>, heading: Seq<char>, k: int)
    requires
        0 <= k < ls.len(),
        text::trimmed(ls[k]) == heading,
        forall|i: int| 0 <= i < k ==> text::trimmed(#[trigger] ls[i]) != heading,
    ensures
        sections::heading_from(ls, heading, 0) == Some(k),
{
    sections::lemma_heading_from(ls, heading, 0);
}

/// The next section starts at the first line that starts one.
pub proof fn lemma_next_section_is(ls: Seq<Seq<char>>, i: int, k: int)
    requires
        0 <= i <= k <= ls.len(),
        k < ls.len() ==> text::begins(ls[k], "## "@),
        forall|j: int| i <= j < k ==> !text::begins(#[trigger] ls[j], "## "@),
    ensures
        sections::next_section(ls, i) == k,
{
    sections::lemma_next_section(ls, i);
    let n = sections::next_section(ls, i);
    if n < k {
        assert(!text::begins(ls[n], "## "@));
    }
}

/// A line that does not start with a hash starts no section.
proof fn lemma_no_section(line: Seq<char>)
    requires
        line.len() > 0 ==> line[0] != '#',
    ensures
        !text::begins(line, "## "@),
{
    reveal_strlit("## ");
    if text::begins(line, "## "@) {
        assert(line.subrange(0, 3)[0] == line[0]);
    }
}

/// The lines of a new Agent Log with one entry.
pub open spec fn new_log_lines(entry: Seq<char>) -> Seq<Seq<char>> {
    seq![seq![], AGENT_LOG_HEADING@, seq![], "<!-- append-only -->"@, "- "@ + entry]
}

proof fn lemma_new_log(entry: Seq<char>)
    requires
        facts::settled_line(entry),
    ensures
        text::lines_of(
            "\n"@ + AGENT_LOG_HEADING@ + "\n\n<!-- append-only -->\n"@ + ("- "@ + entry) + "\n"@,
        ) == new_log_lines(entry),
        facts::settled(new_log_lines(entry)),
{
    reveal_strlit("\n");
    reveal_strlit("## Agent Log");
    reveal_strlit("\n\n<!-- append-only -->\n");
    reveal_strlit("<!-- append-only -->");
    reveal_strlit("- ");
    let ls = new_log_lines(entry);
    let y = "\n"@ + AGENT_LOG_HEADING@ + "\n\n<!-- append-only -->\n"@ + ("- "@ + entry) + "\n"@;
    let line = "- "@ + entry;
    assert forall|i: int| 0 <= i < line.len() implies #[trigger] line[i] != '\n' by {
        if i >= 2 {
            assert(line[i] == entry[i - 2]);
        }
    }
    if entry.len() > 0 {
        assert(line.last() == entry.last());
    }
    assert(facts::settled_line(line));
    let e = Seq::<char>::empty();
    let c = "<!-- append-only -->"@;
    let h = AGENT_LOG_HEADING@;
    assert(facts::settled(ls));
    let y5 = line + "\n"@ + e;
    let y4 = c + "\n"@ + y5;
    let y3 = e + "\n"@ + y4;
    let y2 = h + "\n"@ + y3;
    let y1 = e + "\n"@ + y2;
    assert("\n\n<!-- append-only -->\n"@ =~= "\n"@ + "\n"@ + c + "\n"@);
    assert(y =~= y1);
    facts::lemma_lines_cons(line, e);
    facts::lemma_lines_cons(c, y5);
    facts::lemma_lines_cons(e, y4);
    facts::lemma_lines_cons(h, y3);
    facts::lemma_lines_cons(e, y2);
    assert(text::lines_of(e) =~= seq![]);
    assert(text::lines_of(y) =~= ls);
}

/// The Agent Log heading is its own trimmed form.
proof fn lemma_log_heading()
    ensures
        text::trimmed(AGENT_LOG_HEADING@) == AGENT_LOG_HEADING@,
        AGENT_LOG_HEADING@.len() > 0,
{
    reveal_strlit("## Agent Log");
    facts::lemma_trimmed_snug(AGENT_LOG_HEADING@);
}

/// A log entry never reaches the shared part of a document. In a document that
/// has a log, every line stays and the entry becomes the last of the log; any other
/// gets a log at its end.
pub proof fn law_log_stays_local(body: Seq<char>, entry: Seq<char>)
    requires
        facts::settled_line(entry),
        match sections::section(text::lines_of(body), AGENT_LOG_HEADING@) {
            Some(_) => facts::settled(text::lines_of(body)),
            None => facts::no_crlf(body),
        },
    ensures
        sections::shareable(sections::with_log(body, entry)) == sections::shareable(body),
        match sections::section(text::lines_of(body), AGENT_LOG_HEADING@) {
            Some((start, end)) => text::lines_of(sections::with_log(body, entry))
                == text::lines_of(body).insert(end, "- "@ + entry) && sections::section(
                text::lines_of(sections::with_log(body, entry)),
                AGENT_LOG_HEADING@,
            ) == Some((start, end + 1)),
            None => {
                let a = text::lines_of(text::trimmed_end(body) + "\n"@);
                &&& text::lines_of(sections::with_log(body, entry)) == a + new_log_lines(entry)
                &&& sections::section(
                    text::lines_of(sections::with_log(body, entry)),
                    AGENT_LOG_HEADING@,
                ) == Some((a.len() as int + 1, a.len() as int + 5))
            },
        },
{
    let ls = text::lines_of(body);
    let h = AGENT_LOG_HEADING@;
    let line = "- "@ + entry;
    reveal_strlit("- ");
    lemma_log_heading();
    sections::lemma_section(ls, h);
    lemma_new_log(entry);
    assert(new_log_lines(entry)[4] == line);
    assert(facts::settled_line(line));
    lemma_no_section(line);
    match sections::section(ls, h) {
        Some((start, end)) => {
            let new = ls.insert(end, line);
            sections::lemma_heading_from(ls, h, 0);
            sections::lemma_next_section(ls, start + 1);
            assert forall|k: int| 0 <= k < new.len() implies facts::settled_line(
                #[trigger] new[k],
            ) by {
                if k < end {
                    assert(new[k] == ls[k]);
                } else if k > end {
                    assert(new[k] == ls[k - 1]);
                }
            }
            facts::lemma_lines_document(new);
            assert forall|i: int| 0 <= i < start implies text::trimmed(#[trigger] new[i]) != h by {
                assert(new[i] == ls[i]);
            }
            lemma_heading_is(new, h, start);
            assert forall|j: int| start + 1 <= j < end + 1 implies !text::begins(
                #[trigger] new[j],
                "## "@,
            ) by {
                if j < end {
                    assert(new[j] == ls[j]);
                }
            }
            lemma_next_section_is(new, start + 1, end + 1);
            assert(new.take(start) =~= ls.take(start));
            assert(new.skip(end + 1) =~= ls.skip(end));
        },
        None => {
            let x = text::trimmed_end(body);
            let new_body = sections::with_log(body, entry);
            facts::lemma_trimmed_of_trimmed_end(body);
            facts::lemma_trimmed_end(body);
            let w = body.skip(x.len() as int);
            facts::lemma_feed();
            let y = "\n"@ + h + "\n\n<!-- append-only -->\n"@ + line + "\n"@;
            reveal_strlit("\n\n");
            assert("\n\n"@ =~= "\n"@ + "\n"@);
            let x1 = x + "\n"@;
            assert(new_body =~= x1 + y);
            facts::lemma_lines_append(x1, y);
            let a = text::lines_of(x1);
            let new = text::lines_of(new_body);
            let k = a.len() as int;
            assert(new =~= a + new_log_lines(entry));
            // no line of the old text is the heading
            assert forall|i: int| 0 <= i < k implies text::trimmed(#[trigger] a[i]) != h by {
                if text::trimmed(a[i]) == h {
                    if x.len() > 0 {
                        facts::lemma_lines_feed(x);
                        assert(facts::has_line(text::lines_of(x), h));
                        facts::lemma_lines_before_white(x, w, h);
                        assert(x + w == body);
                    } else {
                        let e = Seq::<char>::empty();
                        assert(x1 =~= e + "\n"@ + e);
                        facts::lemma_lines_cons(e, e);
                        assert(text::lines_of(e) =~= seq![]);
                        assert(a[i] == e);
                        facts::lemma_trimmed_snug(e);
                    }
                }
            }
            let e = Seq::<char>::empty();
            facts::lemma_trimmed_snug(e);
            assert forall|i: int| 0 <= i < k + 1 implies text::trimmed(#[trigger] new[i]) != h by {
                if i < k {
                    assert(new[i] == a[i]);
                } else {
                    assert(new[i] == e);
                }
            }
            assert(new[k + 1] == h);
            lemma_heading_is(new, h, k + 1);
            reveal_strlit("<!-- append-only -->");
            lemma_no_section(e);
            lemma_no_section("<!-- append-only -->"@);
            assert(new.len() == k + 5);
            assert(new[k + 2] == e && new[k + 3] == "<!-- append-only -->"@ && new[k + 4] == line);
            lemma_next_section_is(new, k + 2, k + 5);
            assert(new.take(k + 1) + new.skip(k + 5) =~= a + seq![e]);
            // what is left of it is the old text
            facts::lemma_joined_concat(a, seq![e], "\n"@);
            assert(text::joined(seq![e], "\n"@) == e);
            facts::lemma_no_crlf_part(e, x, w);
            assert(e + x + w =~= body);
            if x.len() > 0 {
                facts::lemma_lines_feed(x);
                facts::lemma_joined_lines(x);
                assert(text::joined(a, "\n"@) == x);
            } else {
                assert(x1 =~= e + "\n"@ + e);
                facts::lemma_lines_cons(e, e);
                assert(text::lines_of(e) =~= seq![]);
                assert(a =~= seq![e]);
                assert(text::joined(a, "\n"@) =~= x);
            }
            let kept = text::joined(new.take(k + 1) + new.skip(k + 5), "\n"@);
            assert(kept =~= e + x + "\n"@);
            facts::lemma_trimmed_pad(e, x, "\n"@);
        },
    }
}

/// What a text and an entry behind it are, trimmed.
#[verifier::spinoff_prover]
#[verifier::rlimit(40)]
proof fn lemma_trimmed_with_entry(p: Seq<char>, entry: Seq<char>)
    requires
        facts::settled_line(entry),
        p.len() > 0 ==> p.last() == '\n',
    ensures
        text::trimmed(p + ("- "@ + entry)) == text::trimmed_start(p) + text::trimmed_end(
            "- "@ + entry,
        ),
        text::lines_of(text::trimmed(p + ("- "@ + entry))).len() > 0,
        text::lines_of(text::trimmed(p + ("- "@ + entry))).last() == text::trimmed_end(
            "- "@ + entry,
        ),
{
    reveal_strlit("- ");
    let e = Seq::<char>::empty();
    let line = "- "@ + entry;
    let w = text::trimmed_end(line);
    facts::lemma_trimmed_end(line);
    let q = line.skip(w.len() as int);
    assert(w.len() > 0) by {
        if w.len() == 0 {
            assert(text::is_white(line[0]));
        }
    }
    assert(w[0] == line[0]);
    assert forall|i: int| 0 <= i < q.len() implies text::is_white(#[trigger] q[i]) by {
        assert(q[i] == line[i + w.len()]);
    }
    facts::lemma_trimmed_around(p, w, q);
    assert(p + w + q =~= p + line);
    facts::lemma_trimmed_end_at(q, 0);
    assert(q.take(0) =~= e);
    let x = text::trimmed_start(p);
    text::lemma_trimmed_start(p);
    assert(x + w + e =~= x + w);
    if x.len() > 0 {
        assert(x.last() == p.last());
    }
    assert forall|i: int| 0 <= i < w.len() implies #[trigger] w[i] != '\n' by {
        assert(w[i] == line[i]);
        if i >= 2 {
            assert(line[i] == entry[i - 2]);
        }
    }
    facts::lemma_lines_append(x, w);
    facts::lemma_lines_single(w);
    assert((text::lines_of(x) + seq![w]).last() == w);
}

/// The log grows at its end: what it said before stands first, and its last line is
/// the new entry.
pub proof fn law_log_grows_at_its_end(body: Seq<char>, entry: Seq<char>)
    requires
        facts::settled_line(entry),
        match sections::section(text::lines_of(body), AGENT_LOG_HEADING@) {
            Some(_) => facts::settled(text::lines_of(body)),
            None => facts::no_crlf(body),
        },
    ensures
        ({
            let before = match sections::content_of(body, AGENT_LOG_HEADING@) {
                Some(s) => s,
                None => Seq::<char>::empty(),
            };
            let after = sections::content_of(
                sections::with_log(body, entry),
                AGENT_LOG_HEADING@,
            );
            &&& after is Some
            &&& text::begins(after.unwrap(), before)
            &&& text::lines_of(after.unwrap()).len() > 0
            &&& text::lines_of(after.unwrap()).last() == text::trimmed_end("- "@ + entry)
        }),
{
    law_log_stays_local(body, entry);
    facts::lemma_feed();
    let e = Seq::<char>::empty();
    let ls = text::lines_of(body);
    let line = "- "@ + entry;
    let new = text::lines_of(sections::with_log(body, entry));
    sections::lemma_section(ls, AGENT_LOG_HEADING@);
    match sections::section(ls, AGENT_LOG_HEADING@) {
        Some((start, end)) => {
            let held = ls.subrange(start + 1, end);
            let j = text::joined(held, "\n"@);
            assert(new.subrange(start + 1, end + 1) =~= held + seq![line]);
            facts::lemma_joined_concat(held, seq![line], "\n"@);
            assert(text::joined(seq![line], "\n"@) == line);
            let p = if held.len() == 0 {
                e
            } else {
                j + "\n"@
            };
            assert(text::joined(held + seq![line], "\n"@) =~= p + line);
            lemma_trimmed_with_entry(p, entry);
            let s = text::trimmed(p + line);
            let old_text = text::trimmed(j);
            let t = text::trimmed_start(j);
            facts::lemma_trimmed_end(t);
            assert(text::begins(s, old_text)) by {
                if t.len() == 0 {
                    assert(old_text =~= e);
                    assert(s.subrange(0, 0) =~= e);
                } else {
                    assert(held.len() > 0) by {
                        if held.len() == 0 {
                            assert(j =~= e);
                        }
                    }
                    assert(facts::all_white("\n"@));
                    facts::lemma_start_before_white(j, "\n"@);
                    assert(s.subrange(0, old_text.len() as int) =~= old_text);
                }
            }
        },
        None => {
            let k = text::lines_of(text::trimmed_end(body) + "\n"@).len() as int;
            let c = "<!-- append-only -->"@;
            let held = seq![e, c];
            assert(new.subrange(k + 2, k + 5) =~= held + seq![line]);
            facts::lemma_joined_concat(held, seq![line], "\n"@);
            assert(text::joined(seq![line], "\n"@) == line);
            let p = text::joined(held, "\n"@) + "\n"@;
            assert(text::joined(held + seq![line], "\n"@) =~= p + line);
            lemma_trimmed_with_entry(p, entry);
            let s = text::trimmed(p + line);
            assert(s.subrange(0, 0) =~= e);
        },
    }
}

// ---------------------------------------------------------------------------
// Pulling
// ---------------------------------------------------------------------------

/// The end of joined lines with a first line that is not blank.
proof fn lemma_trimmed_end_of_joined(a: Seq<char>, r: Seq<char>)
    requires
        text::trimmed_end(r).len() > 0,
    ensures
        text::trimmed_end(a + r) == a + text::trimmed_end(r),
{
    facts::lemma_trimmed_end(r);
    let n = text::trimmed_end(r).len() as int;
    let s = a + r;
    assert forall|i: int| a.len() + n <= i < s.len() implies text::is_white(#[trigger] s[i]) by {
        assert(s[i] == r[i - a.len()]);
    }
    assert(s[a.len() + n - 1] == r[n - 1]);
    assert(text::trimmed_end(r).last() == r[n - 1]);
    facts::lemma_trimmed_end_at(s, a.len() + n);
    assert(s.take(a.len() + n) =~= a + r.take(n));
}

/// A text whose trimmed end is empty is white space.
proof fn lemma_trimmed_end_empty(s: Seq<char>)
    requires
        text::trimmed_end(s).len() == 0,
    ensures
        facts::all_white(s),
        text::trimmed(s) == Seq::<char>::empty(),
{
    facts::lemma_trimmed_end(s);
    let e = Seq::<char>::empty();
    facts::lemma_trimmed_of(s, e, e);
    assert(s + e + e =~= s);
}

/// The lines of an Agent Log as a pull writes it.
#[verifier::rlimit(60)]
#[verifier::spinoff_prover]
proof fn lemma_pulled_log(ls: Seq<Seq<char>>)
    requires
        ls.len() > 0,
        facts::settled(ls),
        text::trimmed(ls[0]) == AGENT_LOG_HEADING@,
        forall|i: int| 1 <= i < ls.len() ==> !text::begins(#[trigger] ls[i], "## "@),
    ensures
        ({
            let new = text::lines_of(
                text::trimmed_end(text::joined(ls, "\n"@)) + "\n"@,
            );
            &&& new.len() > 0
            &&& text::trimmed(new[0]) == AGENT_LOG_HEADING@
            &&& forall|i: int| 1 <= i < new.len() ==> !text::begins(#[trigger] new[i], "## "@)
            &&& text::trimmed(text::joined(new.skip(1), "\n"@)) == text::trimmed(
                text::joined(ls.skip(1), "\n"@),
            )
        }),
{
    facts::lemma_feed();
    lemma_log_heading();
    let e = Seq::<char>::empty();
    let head = ls[0];
    let rest = ls.skip(1);
    let r = text::joined(rest, "\n"@);
    let all = text::joined(ls, "\n"@);
    let j = text::trimmed_end(all);
    let new = text::lines_of(j + "\n"@);
    assert(facts::settled_line(ls[0]));
    facts::lemma_trimmed_of_trimmed_end(head);
    facts::lemma_trimmed_end(head);
    let hd = text::trimmed_end(head);
    assert(hd.len() > 0) by {
        if hd.len() == 0 {
            lemma_trimmed_end_empty(head);
        }
    }
    if text::trimmed_end(r).len() == 0 {
        // only the heading is left
        lemma_trimmed_end_empty(r);
        let w = head.skip(hd.len() as int);
        let tail = if rest.len() == 0 {
            w
        } else {
            w + "\n"@ + r
        };
        assert(all =~= hd + tail) by {
            if rest.len() == 0 {
                assert(ls =~= seq![head]);
            }
        }
        assert forall|i: int| hd.len() <= i < all.len() implies text::is_white(
            #[trigger] all[i],
        ) by {
            let k = i - hd.len();
            assert(all[i] == tail[k]);
            if k < w.len() {
                assert(tail[k] == w[k]);
            } else if k > w.len() {
                assert(tail[k] == r[k - w.len() - 1]);
            }
        }
        facts::lemma_trimmed_end_at(all, hd.len() as int);
        assert(j =~= hd);
        assert forall|i: int| 0 <= i < hd.len() implies #[trigger] hd[i] != '\n' by {
            assert(hd[i] == head[i]);
        }
        assert(hd + "\n"@ =~= hd + "\n"@ + e);
        facts::lemma_lines_cons(hd, e);
        assert(text::lines_of(e) =~= seq![]);
        assert(text::without_cr(hd) == hd);
        assert(new =~= seq![hd]);
        assert(new.skip(1) =~= seq![]);
        assert(text::joined(new.skip(1), "\n"@) =~= e);
        facts::lemma_trimmed_snug(e);
    } else {
        let jr = text::trimmed_end(r);
        assert(rest.len() > 0) by {
            if rest.len() == 0 {
                assert(r =~= e);
            }
        }
        assert(all =~= head + "\n"@ + r);
        lemma_trimmed_end_of_joined(head + "\n"@, r);
        assert(j =~= head + "\n"@ + jr);
        assert(j + "\n"@ =~= head + "\n"@ + (jr + "\n"@));
        facts::lemma_lines_cons(head, jr + "\n"@);
        assert(text::without_cr(head) == head);
        facts::lemma_trimmed_end(r);
        facts::lemma_lines_feed(jr);
        let nr = text::lines_of(jr);
        assert(new =~= seq![head] + nr);
        assert(new.skip(1) =~= nr);
        // reading the rest back
        assert forall|i: int| 0 <= i < rest.len() implies facts::settled_line(
            #[trigger] rest[i],
        ) by {
            assert(rest[i] == ls[i + 1]);
        }
        facts::lemma_joined_no_crlf(rest);
        facts::lemma_trimmed_of_trimmed_end(r);
        facts::lemma_no_crlf_part(e, jr, r.skip(jr.len() as int));
        assert(e + jr + r.skip(jr.len() as int) =~= r);
        facts::lemma_joined_lines(jr);
        assert(text::joined(nr, "\n"@) == jr);
        lemma_no_new_sections(rest, jr);
        assert forall|i: int| 1 <= i < new.len() implies !text::begins(#[trigger] new[i], "## "@) by {
            assert(new[i] == nr[i - 1]);
        }
    }
}

/// Cutting joined lines short starts no section.
proof fn lemma_no_new_sections(rest: Seq<Seq<char>>, jr: Seq<char>)
    requires
        facts::settled(rest),
        forall|i: int| 0 <= i < rest.len() ==> !text::begins(#[trigger] rest[i], "## "@),
        jr.len() <= text::joined(rest, "\n"@).len(),
        jr == text::joined(rest, "\n"@).take(jr.len() as int),
    ensures
        forall|i: int|
            0 <= i < text::lines_of(jr).len() ==> !text::begins(
                #[trigger] text::lines_of(jr)[i],
                "## "@,
            ),
    decreases rest.len(),
{
    reveal_strlit("## ");
    facts::lemma_feed();
    let e = Seq::<char>::empty();
    let r = text::joined(rest, "\n"@);
    let out = text::lines_of(jr);
    if rest.len() == 0 {
        assert(jr =~= e);
    } else {
        let a = rest[0];
        assert(facts::settled_line(rest[0]));
        assert(!text::begins(rest[0], "## "@));
        if jr.len() <= a.len() {
            assert forall|i: int| 0 <= i < jr.len() implies #[trigger] jr[i] != '\n' by {
                assert(jr[i] == a[i]);
            }
            facts::lemma_lines_single(jr);
            if text::begins(jr, "## "@) {
                assert(a.subrange(0, 3) =~= jr.subrange(0, 3));
            }
        } else {
            let tail = rest.skip(1);
            let t = text::joined(tail, "\n"@);
            assert(rest.len() > 1);
            let b = jr.skip(a.len() as int + 1);
            assert(jr =~= a + "\n"@ + b);
            assert(b =~= t.take(b.len() as int));
            assert forall|i: int| 0 <= i < tail.len() implies facts::settled_line(
                #[trigger] tail[i],
            ) && !text::begins(tail[i], "## "@) by {
                assert(tail[i] == rest[i + 1]);
            }
            lemma_no_new_sections(tail, b);
            facts::lemma_lines_cons(a, b);
            assert(text::without_cr(a) == a);
            assert forall|i: int| 0 <= i < out.len() implies !text::begins(
                #[trigger] out[i],
                "## "@,
            ) by {
                if i == 0 {
                    assert(out[0] == a);
                } else {
                    assert(out[i] == text::lines_of(b)[i - 1]);
                }
            }
        }
    }
}

/// Pulling replaces the shared part by what was pulled, and keeps the local Agent
/// Log as it is.
pub proof fn law_pull_keeps_the_log(inner: Seq<char>, local: Seq<char>)
    requires
        facts::settled(text::lines_of(local)),
        facts::no_crlf(text::trimmed(inner)),
        !facts::has_line(text::lines_of(text::trimmed(inner)), AGENT_LOG_HEADING@),
    ensures
        sections::shareable(sections::merged_body(inner, local)) == text::trimmed(inner),
        sections::content_of(sections::merged_body(inner, local), AGENT_LOG_HEADING@)
            == sections::content_of(local, AGENT_LOG_HEADING@),
{
    let h = AGENT_LOG_HEADING@;
    let t = text::trimmed(inner);
    let e = Seq::<char>::empty();
    let m = sections::merged_body(inner, local);
    let ls = text::lines_of(local);
    facts::lemma_feed();
    facts::lemma_trimmed_is_snug(inner);
    facts::lemma_trimmed_snug(t);
    facts::lemma_trimmed_snug(e);
    lemma_log_heading();
    sections::lemma_section(ls, h);
    // the pulled lines
    let t1 = t + "\n"@;
    let a = text::lines_of(t1);
    if t.len() > 0 {
        facts::lemma_lines_feed(t);
        facts::lemma_joined_lines(t);
    } else {
        assert(t1 =~= e + "\n"@ + e);
        facts::lemma_lines_cons(e, e);
        assert(text::lines_of(e) =~= seq![]);
        assert(a =~= seq![e]);
        assert(text::joined(a, "\n"@) =~= t);
    }
    assert(text::joined(a, "\n"@) == t);
    assert forall|i: int| 0 <= i < a.len() implies text::trimmed(#[trigger] a[i]) != h by {
        if t.len() == 0 {
            assert(a[i] == e);
        }
    }
    let k = a.len() as int;
    match sections::section(ls, h) {
        Some((start, end)) => {
            let log = ls.subrange(start, end);
            sections::lemma_next_section(ls, start + 1);
            assert forall|i: int| 0 <= i < log.len() implies facts::settled_line(
                #[trigger] log[i],
            ) by {
                assert(log[i] == ls[start + i]);
            }
            assert forall|i: int| 1 <= i < log.len() implies !text::begins(
                #[trigger] log[i],
                "## "@,
            ) by {
                assert(log[i] == ls[start + i]);
            }
            lemma_pulled_log(log);
            let y = text::trimmed_end(text::joined(log, "\n"@)) + "\n"@;
            let new_log = text::lines_of(y);
            reveal_strlit("\n\n");
            assert("\n\n"@ =~= "\n"@ + "\n"@);
            assert(m =~= t1 + (e + "\n"@ + y));
            facts::lemma_lines_append(t1, e + "\n"@ + y);
            facts::lemma_lines_cons(e, y);
            let new = text::lines_of(m);
            assert(new =~= a + seq![e] + new_log);
            assert forall|i: int| 0 <= i < k + 1 implies text::trimmed(#[trigger] new[i]) != h by {
                if i < k {
                    assert(new[i] == a[i]);
                } else {
                    assert(new[i] == e);
                }
            }
            assert(new[k + 1] == new_log[0]);
            lemma_heading_is(new, h, k + 1);
            assert forall|j: int| k + 2 <= j < new.len() implies !text::begins(
                #[trigger] new[j],
                "## "@,
            ) by {
                assert(new[j] == new_log[j - k - 1]);
            }
            lemma_next_section_is(new, k + 2, new.len() as int);
            assert(new.take(k + 1) + new.skip(new.len() as int) =~= a + seq![e]);
            facts::lemma_joined_concat(a, seq![e], "\n"@);
            assert(text::joined(seq![e], "\n"@) == e);
            assert(text::joined(a + seq![e], "\n"@) =~= e + t + "\n"@);
            facts::lemma_trimmed_pad(e, t, "\n"@);
            assert(new.subrange(k + 2, new.len() as int) =~= new_log.skip(1));
            assert(ls.subrange(start + 1, end) =~= log.skip(1));
        },
        None => {
            assert(m =~= t1);
            sections::lemma_section(a, h);
            assert(m =~= e + t + "\n"@);
            facts::lemma_trimmed_pad(e, t, "\n"@);
        },
    }
}

} // verus!
