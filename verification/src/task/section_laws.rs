//! Laws of sections: what is written to one is read back, and the rest stays.
use crate::facts;
use crate::task::items;
use crate::task::sections;
use crate::text;
use vstd::prelude::*;
use vstd::string::*;

verus! {

/// Text that a section can hold: something, without white space around it, and with no
/// line that starts another section.
pub open spec fn is_content(content: Seq<char>) -> bool {
    &&& content.len() > 0
    &&& facts::snug(content)
    &&& facts::no_crlf(content)
    &&& forall|i: int|
        0 <= i < text::lines_of(content).len() ==> !text::begins(
            #[trigger] text::lines_of(content)[i],
            "## "@,
        )
}

/// The lines of such text: joined they are the text, and reading them back leaves them
/// as they are.
proof fn lemma_content_lines(content: Seq<char>)
    requires
        is_content(content),
    ensures
        text::lines_of(content).len() > 0,
        text::joined(text::lines_of(content), "\n"@) == content,
        facts::settled(text::lines_of(content)),
        text::lines_of(content).last().len() > 0,
{
    facts::lemma_feed();
    facts::lemma_joined_lines(content);
    facts::lemma_lines_have_no_feed(content);
    lemma_lines_settled(content);
    let ls = text::lines_of(content);
    assert(content.last() != '\n') by {
        assert(!text::is_white(content.last()));
    }
    lemma_last_line(content);
}

/// The last line of a text that does not end with a line feed is not empty.
proof fn lemma_last_line(s: Seq<char>)
    requires
        s.len() > 0,
        s.last() != '\n',
    ensures
        text::lines_of(s).len() > 0,
        text::lines_of(s).last().len() > 0,
    decreases s.len(),
{
    if facts::one_line(s) {
        facts::lemma_lines_single(s);
    } else {
        let (a, b) = facts::lemma_split_feed(s);
        facts::lemma_feed();
        facts::lemma_lines_cons(a, b);
        if b.len() == 0 {
            assert(s.last() == '\n');
        } else {
            assert(b.last() == s.last());
            lemma_last_line(b);
            assert(text::lines_of(s).last() == text::lines_of(b).last());
        }
    }
}

/// The lines of a text without a carriage return at the end of a line are settled.
proof fn lemma_lines_settled(s: Seq<char>)
    requires
        facts::no_crlf(s),
        s.len() > 0 ==> s.last() != '\r',
    ensures
        facts::settled(text::lines_of(s)),
    decreases s.len(),
{
    if facts::one_line(s) {
        facts::lemma_lines_single(s);
    } else {
        let (a, b) = facts::lemma_split_feed(s);
        facts::lemma_feed();
        facts::lemma_lines_cons(a, b);
        assert(b.len() > 0 ==> b.last() == s.last());
        assert forall|i: int| 0 <= i && i + 1 < b.len() && #[trigger] b[i] == '\r' implies b[i + 1]
            != '\n' by {
            assert(s[i + a.len() + 1] == b[i]);
            assert(s[i + a.len() + 2] == b[i + 1]);
        }
        lemma_lines_settled(b);
        if a.len() > 0 {
            assert(s[a.len() - 1] == a.last());
            assert(s[a.len() as int] == '\n');
        }
        let ls = text::lines_of(s);
        assert forall|i: int| 0 <= i < ls.len() implies facts::settled_line(#[trigger] ls[i]) by {
            if i == 0 {
                assert(ls[0] == a);
            } else {
                assert(ls[i] == text::lines_of(b)[i - 1]);
            }
        }
    }
}

/// What a section holds where its lines are blank ones around a text.
pub proof fn lemma_padded_content(cl: Seq<Seq<char>>, content: Seq<char>, tail: bool)
    requires
        cl.len() > 0,
        text::joined(cl, "\n"@) == content,
        facts::snug(content),
    ensures
        ({
            let e: Seq<Seq<char>> = seq![seq![]];
            text::trimmed(
                text::joined(
                    e + cl + (if tail {
                        e
                    } else {
                        seq![]
                    }),
                    "\n"@,
                ),
            ) == content
        }),
{
    facts::lemma_feed();
    let e: Seq<Seq<char>> = seq![seq![]];
    let none = Seq::<char>::empty();
    assert(text::joined(e, "\n"@) =~= none);
    facts::lemma_joined_concat(e, cl, "\n"@);
    assert(none + "\n"@ + content =~= "\n"@ + content);
    assert(facts::all_white("\n"@));
    facts::lemma_trimmed_snug(content);
    if tail {
        facts::lemma_joined_concat(e + cl, e, "\n"@);
        assert("\n"@ + content + "\n"@ + none =~= "\n"@ + content + "\n"@);
        facts::lemma_trimmed_pad("\n"@, content, "\n"@);
    } else {
        assert(e + cl + Seq::<Seq<char>>::empty() =~= e + cl);
        assert("\n"@ + content + none =~= "\n"@ + content);
        facts::lemma_trimmed_pad("\n"@, content, none);
    }
}

/// The lines of a body with new content in a section that it has.
pub open spec fn lines_with_content(
    ls: Seq<Seq<char>>,
    start: int,
    end: int,
    cl: Seq<Seq<char>>,
) -> Seq<Seq<char>> {
    ls.take(start + 1) + seq![seq![]] + cl + (if end < ls.len() {
        seq![seq![]] + ls.skip(end)
    } else {
        seq![]
    })
}

/// The document of these lines is the body.
proof fn lemma_lines_with_content(
    body: Seq<char>,
    heading: Seq<char>,
    content: Seq<char>,
    start: int,
    end: int,
)
    requires
        is_content(content),
        facts::settled(text::lines_of(body)),
        sections::section(text::lines_of(body), heading) == Some((start, end)),
    ensures
        text::lines_of(sections::with_content(body, heading, content)) == lines_with_content(
            text::lines_of(body),
            start,
            end,
            text::lines_of(content),
        ),
{
    let ls = text::lines_of(body);
    let cl = text::lines_of(content);
    sections::lemma_section(ls, heading);
    lemma_content_lines(content);
    let blank: Seq<Seq<char>> = seq![seq![]];
    let one: Seq<Seq<char>> = seq![content];
    let tail = if end < ls.len() {
        blank + ls.skip(end)
    } else {
        Seq::<Seq<char>>::empty()
    };
    let head = ls.take(start + 1) + blank;
    let want = lines_with_content(ls, start, end, cl);
    assert(want =~= head + cl + tail);
    assert(text::joined(one, "\n"@) =~= content);
    facts::lemma_joined_concat(head, one, "\n"@);
    facts::lemma_joined_concat(head, cl, "\n"@);
    facts::lemma_joined_concat(head + one, tail, "\n"@);
    facts::lemma_joined_concat(head + cl, tail, "\n"@);
    assert(text::joined(head + one + tail, "\n"@) == text::joined(head + cl + tail, "\n"@));
    assert(ls.take(start + 1) + seq![seq![], content] =~= head + one);
    assert(head + one + blank + ls.skip(end) =~= head + one + (blank + ls.skip(end)));
    assert(head + one + Seq::<Seq<char>>::empty() =~= head + one);
    assert(sections::with_content(body, heading, content) == items::document(want));
    assert forall|i: int| 0 <= i < want.len() implies facts::settled_line(#[trigger] want[i]) by {
        if i <= start {
            assert(want[i] == ls[i]);
        } else if i == start + 1 {
            assert(want[i] =~= Seq::<char>::empty());
        } else if i < start + 2 + cl.len() {
            assert(want[i] == cl[i - start - 2]);
        } else if i == start + 2 + cl.len() {
            assert(want[i] =~= Seq::<char>::empty());
        } else {
            assert(want[i] == ls[end + (i - start - 3 - cl.len())]);
        }
    }
    facts::lemma_lines_document(want);
}

/// What is set in a section is what is read from it, and every line outside it stays.
pub proof fn law_section_content_reads_back(
    body: Seq<char>,
    heading: Seq<char>,
    content: Seq<char>,
    start: int,
    end: int,
)
    requires
        is_content(content),
        facts::settled(text::lines_of(body)),
        sections::section(text::lines_of(body), heading) == Some((start, end)),
    ensures
        sections::content_of(sections::with_content(body, heading, content), heading) == Some(
            content,
        ),
        text::lines_of(sections::with_content(body, heading, content)) == lines_with_content(
            text::lines_of(body),
            start,
            end,
            text::lines_of(content),
        ),
{
    let ls = text::lines_of(body);
    let cl = text::lines_of(content);
    let want = lines_with_content(ls, start, end, cl);
    reveal_strlit("## ");
    lemma_content_lines(content);
    lemma_lines_with_content(body, heading, content, start, end);
    sections::lemma_heading_from(ls, heading, 0);
    sections::lemma_next_section(ls, start + 1);
    sections::lemma_heading_from(want, heading, 0);
    assert(want[start] == ls[start]);
    assert(sections::heading_from(want, heading, 0) == Some(start)) by {
        let k = sections::heading_from(want, heading, 0)->0;
        if k < start {
            assert(want[k] == ls[k]);
        }
    }
    sections::lemma_next_section(want, start + 1);
    let n = sections::next_section(want, start + 1);
    let last = start + 2 + cl.len() + (if end < ls.len() {
        1int
    } else {
        0
    });
    assert forall|k: int| start + 1 <= k < last implies !text::begins(#[trigger] want[k], "## "@) by {
        if k == start + 1 {
            assert(want[k] =~= Seq::<char>::empty());
        } else if k < start + 2 + cl.len() {
            assert(want[k] == cl[k - start - 2]);
        } else {
            assert(want[k] =~= Seq::<char>::empty());
        }
    }
    if end < ls.len() {
        assert(want[last] == ls[end]);
    }
    assert(n == last) by {
        if n < last {
            assert(text::begins(want[n], "## "@));
        }
        if n > last && end < ls.len() {
            assert(!text::begins(want[last], "## "@));
        }
    }
    let e: Seq<Seq<char>> = seq![seq![]];
    assert(want.subrange(start + 1, n) =~= e + cl + (if end < ls.len() {
        e
    } else {
        seq![]
    }));
    lemma_padded_content(cl, content, end < ls.len());
}

/// What is set in a section that a body does not have is what is read from it.
pub proof fn law_new_section_reads_back(body: Seq<char>, heading: Seq<char>, content: Seq<char>)
    requires
        is_content(content),
        heading.len() > 0,
        facts::snug(heading),
        facts::one_line(heading),
        sections::section(text::lines_of(body), heading) is None,
    ensures
        sections::content_of(sections::with_content(body, heading, content), heading) == Some(
            content,
        ),
{
    facts::lemma_feed();
    reveal_strlit("\n\n");
    let x = text::trimmed_end(body);
    let w = body.skip(x.len() as int);
    let cl = text::lines_of(content);
    let e = Seq::<char>::empty();
    let blank: Seq<Seq<char>> = seq![seq![]];
    let last = "\n"@ + heading + "\n"@ + ("\n"@ + content + "\n"@);
    lemma_content_lines(content);
    facts::lemma_trimmed_end(body);
    facts::lemma_trimmed_of_trimmed_end(body);
    sections::lemma_section(text::lines_of(body), heading);
    // the lines of what is added
    assert(content + "\n"@ =~= items::document(cl)) by {
        assert(text::joined(cl, "\n"@) + "\n"@ =~= items::document(cl));
    }
    facts::lemma_lines_document(cl);
    assert("\n"@ + content + "\n"@ =~= e + "\n"@ + (content + "\n"@));
    facts::lemma_lines_cons(e, content + "\n"@);
    facts::lemma_lines_cons(heading, "\n"@ + content + "\n"@);
    assert(text::without_cr(heading) == heading);
    assert(last =~= e + "\n"@ + (heading + "\n"@ + ("\n"@ + content + "\n"@)));
    facts::lemma_lines_cons(e, heading + "\n"@ + ("\n"@ + content + "\n"@));
    let added = blank + (seq![heading] + (blank + cl));
    assert(text::without_cr(e) =~= e);
    assert(text::lines_of(last) =~= added);
    // the lines before it
    let new = sections::with_content(body, heading, content);
    let before = if x.len() == 0 {
        "\n"@
    } else {
        x + "\n"@
    };
    let bl = text::lines_of(before);
    assert(new =~= before + last) by {
        if x.len() == 0 {
            assert(new =~= "\n"@ + last);
        }
    }
    facts::lemma_lines_append(before, last);
    let ls = text::lines_of(new);
    assert(ls == bl + added);
    assert forall|k: int| 0 <= k < bl.len() implies text::trimmed(#[trigger] bl[k]) != heading by {
        if x.len() == 0 {
            assert("\n"@ =~= e + "\n"@ + e);
            facts::lemma_lines_cons(e, e);
            assert(text::lines_of(e) =~= seq![]);
            assert(bl =~= blank);
            assert(text::trimmed(e) =~= e);
        } else {
            facts::lemma_lines_feed(x);
            if text::trimmed(bl[k]) == heading {
                assert(facts::has_line(text::lines_of(x), heading));
                facts::lemma_lines_before_white(x, w, heading);
                assert(false);
            }
        }
    }
    let start = (bl.len() + 1) as int;
    assert(ls[start] == heading);
    assert(ls[start - 1] =~= e);
    facts::lemma_trimmed_snug(heading);
    sections::lemma_heading_from(ls, heading, 0);
    assert(sections::heading_from(ls, heading, 0) == Some(start)) by {
        let k = sections::heading_from(ls, heading, 0)->0;
        if k < bl.len() {
            assert(ls[k] == bl[k]);
        } else if k == bl.len() {
            assert(text::trimmed(e) =~= e);
        }
    }
    reveal_strlit("## ");
    sections::lemma_next_section(ls, start + 1);
    assert forall|k: int| start + 1 <= k < ls.len() implies !text::begins(#[trigger] ls[k], "## "@) by {
        if k == start + 1 {
            assert(ls[k] =~= e);
        } else {
            assert(ls[k] == cl[k - start - 2]);
        }
    }
    let n = sections::next_section(ls, start + 1);
    assert(n == ls.len());
    assert(ls.subrange(start + 1, n) =~= blank + cl + Seq::<Seq<char>>::empty());
    lemma_padded_content(cl, content, false);
}

} // verus!
