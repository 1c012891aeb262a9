//! A task document: its frontmatter and its body.
use crate::text;
use crate::util;
use vstd::prelude::*;
use vstd::string::*;

verus! {

/// Parsed task document frontmatter. Unknown lines are preserved in `extra`.
#[derive(Debug, PartialEq)]
pub struct Frontmatter {
    pub id: String,
    pub title: String,
    pub status: String,
    pub created_at: String,
    pub updated_at: String,
    pub github_issue: Option<u64>,
    pub github_pr: Option<u64>,
    pub branch: Option<String>,
    pub tags: Vec<String>,
    pub shared: bool,
    pub extra: Vec<String>,
}

/// What a [`Frontmatter`] stands for.
#[verifier::ext_equal]
pub struct FrontmatterV {
    pub id: Seq<char>,
    pub title: Seq<char>,
    pub status: Seq<char>,
    pub created_at: Seq<char>,
    pub updated_at: Seq<char>,
    pub github_issue: Option<u64>,
    pub github_pr: Option<u64>,
    pub branch: Option<Seq<char>>,
    pub tags: Seq<Seq<char>>,
    pub shared: bool,
    pub extra: Seq<Seq<char>>,
}

impl View for Frontmatter {
    type V = FrontmatterV;

    open spec fn view(&self) -> FrontmatterV {
        FrontmatterV {
            id: self.id@,
            title: self.title@,
            status: self.status@,
            created_at: self.created_at@,
            updated_at: self.updated_at@,
            github_issue: self.github_issue,
            github_pr: self.github_pr,
            branch: text::opt_view(self.branch),
            tags: text::views(self.tags@),
            shared: self.shared,
            extra: text::views(self.extra@),
        }
    }
}

/// Frontmatter with nothing in it.
pub open spec fn empty_front() -> FrontmatterV {
    FrontmatterV {
        id: seq![],
        title: seq![],
        status: seq![],
        created_at: seq![],
        updated_at: seq![],
        github_issue: None,
        github_pr: None,
        branch: None,
        tags: seq![],
        shared: false,
        extra: seq![],
    }
}

impl Default for Frontmatter {
    fn default() -> (r: Self)
        ensures
            r@ == empty_front(),
    {
        let r = Frontmatter {
            id: String::new(),
            title: String::new(),
            status: String::new(),
            created_at: String::new(),
            updated_at: String::new(),
            github_issue: None,
            github_pr: None,
            branch: None,
            tags: Vec::new(),
            shared: false,
            extra: Vec::new(),
        };
        assert(r@ =~= empty_front());
        r
    }
}

impl Clone for Frontmatter {
    fn clone(&self) -> (r: Self)
        ensures
            r@ == self@,
    {
        Frontmatter {
            id: self.id.clone(),
            title: self.title.clone(),
            status: self.status.clone(),
            created_at: self.created_at.clone(),
            updated_at: self.updated_at.clone(),
            github_issue: self.github_issue,
            github_pr: self.github_pr,
            branch: text::clone_opt(&self.branch),
            tags: text::clone_list(&self.tags),
            shared: self.shared,
            extra: text::clone_list(&self.extra),
        }
    }
}

/// A task document.
#[derive(Debug)]
pub struct TaskDoc {
    pub front: Frontmatter,
    pub body: String,
}

/// What a [`TaskDoc`] stands for.
#[verifier::ext_equal]
pub struct TaskDocV {
    pub front: FrontmatterV,
    pub body: Seq<char>,
}

impl View for TaskDoc {
    type V = TaskDocV;

    open spec fn view(&self) -> TaskDocV {
        TaskDocV { front: self.front@, body: self.body@ }
    }
}

impl Clone for TaskDoc {
    fn clone(&self) -> (r: Self)
        ensures
            r@ == self@,
    {
        TaskDoc { front: self.front.clone(), body: self.body.clone() }
    }
}

/// Why a text is not a task document.
#[derive(Debug, Clone, Copy, PartialEq, Eq, Structural)]
pub enum DocError {
    /// The text does not start with a frontmatter line.
    NoFrontmatter,
    /// The frontmatter has no end line.
    Unterminated,
}

impl DocError {
    /// The message shown to the user.
    pub open spec fn text(self) -> Seq<char> {
        match self {
            DocError::NoFrontmatter => "task document must start with '---' frontmatter"@,
            DocError::Unterminated => "unterminated frontmatter"@,
        }
    }

    /// The message shown to the user.
    pub fn message(&self) -> (r: String)
        ensures
            r@ == self.text(),
    {
        match self {
            DocError::NoFrontmatter => String::from_str(
                "task document must start with '---' frontmatter",
            ),
            DocError::Unterminated => String::from_str("unterminated frontmatter"),
        }
    }
}

// ---------------------------------------------------------------------------
// Reading
// ---------------------------------------------------------------------------

/// The texts of a list without white space around them, empty ones left out.
pub open spec fn trimmed_entries(pieces: Seq<Seq<char>>) -> Seq<Seq<char>>
    decreases pieces.len(),
{
    if pieces.len() == 0 {
        seq![]
    } else {
        let t = text::trimmed(pieces.last());
        if t.len() == 0 {
            trimmed_entries(pieces.drop_last())
        } else {
            trimmed_entries(pieces.drop_last()).push(t)
        }
    }
}

/// The tags in a bracketed, comma-separated list.
pub open spec fn tags_of(val: Seq<char>) -> Seq<Seq<char>> {
    trimmed_entries(
        text::split_of(text::without_trailing(text::without_leading(val, '['), ']'), ','),
    )
}

/// The number that a value holds.
pub open spec fn linked_number(val: Seq<char>) -> Option<u64> {
    match text::number(val, u64::MAX as nat) {
        Some(n) => Some(n as u64),
        None => None,
    }
}

/// Frontmatter after one more line.
pub open spec fn with_line(f: FrontmatterV, line: Seq<char>) -> FrontmatterV {
    if text::trimmed(line).len() == 0 {
        f
    } else {
        match text::cut_at(line, ":"@) {
            None => FrontmatterV { extra: f.extra.push(line), ..f },
            Some((k, v)) => {
                let key = text::trimmed(k);
                let val = text::trimmed(v);
                if key == "id"@ {
                    FrontmatterV { id: val, ..f }
                } else if key == "title"@ {
                    FrontmatterV { title: val, ..f }
                } else if key == "status"@ {
                    FrontmatterV { status: val, ..f }
                } else if key == "created_at"@ {
                    FrontmatterV { created_at: val, ..f }
                } else if key == "updated_at"@ {
                    FrontmatterV { updated_at: val, ..f }
                } else if key == "github_issue"@ {
                    FrontmatterV { github_issue: linked_number(val), ..f }
                } else if key == "github_pr"@ {
                    FrontmatterV { github_pr: linked_number(val), ..f }
                } else if key == "branch"@ {
                    FrontmatterV {
                        branch: if val.len() == 0 {
                            None
                        } else {
                            Some(val)
                        },
                        ..f
                    }
                } else if key == "tags"@ {
                    FrontmatterV { tags: tags_of(val), ..f }
                } else if key == "shared"@ {
                    FrontmatterV { shared: val == "true"@, ..f }
                } else {
                    FrontmatterV { extra: f.extra.push(line), ..f }
                }
            },
        }
    }
}

/// The frontmatter in a list of lines: a later line wins over an earlier one.
pub open spec fn front_of(ls: Seq<Seq<char>>) -> FrontmatterV
    decreases ls.len(),
{
    if ls.len() == 0 {
        empty_front()
    } else {
        with_line(front_of(ls.drop_last()), ls.last())
    }
}

/// The document that a text holds.
pub open spec fn parsed(content: Seq<char>) -> Result<TaskDocV, DocError> {
    match text::after_prefix(content, "---\n"@) {
        None => Err(DocError::NoFrontmatter),
        Some(rest) => {
            let cut = match text::cut_at(rest, "\n---\n"@) {
                Some(c) => Some(c),
                None => text::cut_at(rest, "\n---"@),
            };
            match cut {
                None => Err(DocError::Unterminated),
                Some((front, body)) => Ok(
                    TaskDocV {
                        front: front_of(text::lines_of(front)),
                        body: text::without_leading(body, '\n'),
                    },
                ),
            }
        },
    }
}

/// The texts of a list without white space around them, empty ones left out.
fn keep_entries(pieces: &Vec<String>) -> (r: Vec<String>)
    ensures
        text::views(r@) == trimmed_entries(text::views(pieces@)),
{
    let mut out: Vec<String> = Vec::new();
    let mut i: usize = 0;
    let ghost all = text::views(pieces@);
    while i < pieces.len()
        invariant
            0 <= i <= pieces.len(),
            all == text::views(pieces@),
            text::views(out@) == trimmed_entries(all.take(i as int)),
        decreases pieces.len() - i,
    {
        let ghost before = text::views(out@);
        proof {
            assert(all.take(i as int + 1).drop_last() =~= all.take(i as int));
            assert(all.take(i as int + 1).last() == pieces@[i as int]@);
        }
        let t = text::trim(&pieces[i]);
        if !t.as_str().is_empty() {
            out.push(t);
            proof {
                assert(text::views(out@) =~= before.push(t@));
            }
        }
        i += 1;
    }
    proof {
        assert(all.take(i as int) =~= all);
    }
    out
}

/// Takes one line into the frontmatter.
fn read_line(f: &mut Frontmatter, line: &str)
    ensures
        final(f)@ == with_line(old(f)@, line@),
{
    let ghost before = f@;
    if text::trim(line).as_str().is_empty() {
        return;
    }
    let mut keep: bool = false;
    match text::split_once(line, ":") {
        None => {
            keep = true;
        },
        Some((k, v)) => {
            let key = text::trim(&k);
            let val = text::trim(&v);
            if text::same(&key, "id") {
                f.id = val;
            } else if text::same(&key, "title") {
                f.title = val;
            } else if text::same(&key, "status") {
                f.status = val;
            } else if text::same(&key, "created_at") {
                f.created_at = val;
            } else if text::same(&key, "updated_at") {
                f.updated_at = val;
            } else if text::same(&key, "github_issue") {
                f.github_issue = text::parse_u64(&val);
            } else if text::same(&key, "github_pr") {
                f.github_pr = text::parse_u64(&val);
            } else if text::same(&key, "branch") {
                f.branch = if val.as_str().is_empty() {
                    None
                } else {
                    Some(val)
                };
            } else if text::same(&key, "tags") {
                let inner = text::trim_end_char(&text::trim_start_char(&val, '['), ']');
                f.tags = keep_entries(&text::split(&inner, ','));
            } else if text::same(&key, "shared") {
                f.shared = text::same(&val, "true");
            } else {
                keep = true;
            }
        },
    }
    if keep {
        let ghost extra = text::views(f.extra@);
        f.extra.push(String::from_str(line));
        proof {
            assert(text::views(f.extra@) =~= extra.push(line@));
        }
    }
    assert(f@ =~= with_line(before, line@));
}

/// What a parse result stands for.
pub open spec fn doc_result(r: Result<TaskDoc, DocError>) -> Result<TaskDocV, DocError> {
    match r {
        Ok(d) => Ok(d@),
        Err(e) => Err(e),
    }
}

// ---------------------------------------------------------------------------
// Writing
// ---------------------------------------------------------------------------

/// A frontmatter line, with its line feed.
pub open spec fn front_line(key: Seq<char>, val: Seq<char>) -> Seq<char> {
    key + val + "\n"@
}

/// The line of an optional value.
pub open spec fn optional_line(key: Seq<char>, val: Option<Seq<char>>) -> Seq<char> {
    match val {
        Some(v) => key + " "@ + v + "\n"@,
        None => key + "\n"@,
    }
}

/// The digits of an optional number.
pub open spec fn linked_text(n: Option<u64>) -> Option<Seq<char>> {
    match n {
        Some(n) => Some(text::decimal(n as nat)),
        None => None,
    }
}

/// Lines, each with its line feed.
pub open spec fn with_feeds(ls: Seq<Seq<char>>) -> Seq<char>
    decreases ls.len(),
{
    if ls.len() == 0 {
        seq![]
    } else {
        with_feeds(ls.drop_last()) + ls.last() + "\n"@
    }
}

/// The frontmatter as it is written, without the lines around it.
pub open spec fn front_text(f: FrontmatterV) -> Seq<char> {
    front_line("id: "@, f.id) + front_line("title: "@, f.title) + front_line("status: "@, f.status)
        + front_line("created_at: "@, f.created_at) + front_line("updated_at: "@, f.updated_at)
        + optional_line("github_issue:"@, linked_text(f.github_issue)) + optional_line(
        "github_pr:"@,
        linked_text(f.github_pr),
    ) + optional_line("branch:"@, f.branch) + front_line(
        "tags: ["@,
        text::joined(f.tags, ", "@) + "]"@,
    ) + front_line(
        "shared: "@,
        if f.shared {
            "true"@
        } else {
            "false"@
        },
    ) + with_feeds(f.extra)
}

/// The text of a document.
pub open spec fn serialized(d: TaskDocV) -> Seq<char> {
    "---\n"@ + front_text(d.front) + "---\n\n"@ + text::without_trailing(d.body, '\n') + "\n"@
}

/// Writes a frontmatter line.
fn put_line(out: &mut String, key: &str, val: &str)
    ensures
        final(out)@ == old(out)@ + front_line(key@, val@),
{
    let ghost before = out@;
    out.append(key);
    out.append(val);
    out.append("\n");
    assert(out@ =~= before + front_line(key@, val@));
}

/// Writes the line of an optional value.
fn put_optional(out: &mut String, key: &str, val: &Option<String>)
    ensures
        final(out)@ == old(out)@ + optional_line(key@, text::opt_view(*val)),
{
    let ghost before = out@;
    out.append(key);
    match val {
        Some(v) => {
            out.append(" ");
            out.append(v);
        },
        None => {},
    }
    out.append("\n");
    assert(out@ =~= before + optional_line(key@, text::opt_view(*val)));
}

/// The digits of an optional number.
fn format_linked(n: Option<u64>) -> (r: Option<String>)
    ensures
        text::opt_view(r) == linked_text(n),
{
    match n {
        Some(n) => Some(text::format_u64(n)),
        None => None,
    }
}

/// A document with a new time of its last change.
pub open spec fn touched(d: TaskDocV, now: Seq<char>) -> TaskDocV {
    TaskDocV { front: FrontmatterV { updated_at: now, ..d.front }, body: d.body }
}

/// The document that a new task starts with.
pub open spec fn new_doc(
    id: Seq<char>,
    title: Seq<char>,
    status: Seq<char>,
    now: Seq<char>,
    shared: bool,
) -> TaskDocV {
    TaskDocV {
        front: FrontmatterV {
            id,
            title,
            status,
            created_at: now,
            updated_at: now,
            shared,
            ..empty_front()
        },
        body: template_body(title),
    }
}

/// The body of a new document.
pub open spec fn template_body(title: Seq<char>) -> Seq<char> {
    "## Goal\n\n"@ + title + "\n\n## Tasks\n\n## Validation\n\n## Notes\n\n"@
        + crate::task::sections::AGENT_LOG_HEADING@ + "\n\n<!-- append-only -->\n"@
}

impl TaskDoc {
    /// Reads a document.
    pub fn parse(content: &str) -> (r: Result<TaskDoc, DocError>)
        ensures
            doc_result(r) == parsed(content@),
    {
        match text::strip_prefix(content, "---\n") {
            None => Err(DocError::NoFrontmatter),
            Some(rest) => {
                let cut = match text::split_once(&rest, "\n---\n") {
                    Some(c) => Some(c),
                    None => text::split_once(&rest, "\n---"),
                };
                match cut {
                    None => Err(DocError::Unterminated),
                    Some((front_text, body)) => {
                        let mut front = Frontmatter::default();
                        let ls = text::lines(&front_text);
                        let ghost all = text::views(ls@);
                        let mut i: usize = 0;
                        while i < ls.len()
                            invariant
                                0 <= i <= ls.len(),
                                all == text::views(ls@),
                                front@ == front_of(all.take(i as int)),
                            decreases ls.len() - i,
                        {
                            proof {
                                assert(all.take(i as int + 1).drop_last() =~= all.take(i as int));
                                assert(all.take(i as int + 1).last() == ls@[i as int]@);
                            }
                            read_line(&mut front, &ls[i]);
                            i += 1;
                        }
                        proof {
                            assert(all.take(i as int) =~= all);
                        }
                        let body = text::trim_start_char(&body, '\n');
                        Ok(TaskDoc { front, body })
                    },
                }
            },
        }
    }

    /// Writes a document.
    pub fn serialize(&self) -> (r: String)
        ensures
            r@ == serialized(self@),
    {
        let f = &self.front;
        let mut front = String::new();
        put_line(&mut front, "id: ", &f.id);
        put_line(&mut front, "title: ", &f.title);
        put_line(&mut front, "status: ", &f.status);
        put_line(&mut front, "created_at: ", &f.created_at);
        put_line(&mut front, "updated_at: ", &f.updated_at);
        put_optional(&mut front, "github_issue:", &format_linked(f.github_issue));
        put_optional(&mut front, "github_pr:", &format_linked(f.github_pr));
        put_optional(&mut front, "branch:", &f.branch);
        let mut tags = text::join(&f.tags, ", ");
        tags.append("]");
        put_line(&mut front, "tags: [", &tags);
        put_line(
            &mut front,
            "shared: ",
            if f.shared {
                "true"
            } else {
                "false"
            },
        );
        let ghost known = front@;
        let ghost extra = text::views(f.extra@);
        let mut i: usize = 0;
        proof {
            assert(known + with_feeds(extra.take(0)) =~= known);
        }
        while i < f.extra.len()
            invariant
                0 <= i <= f.extra.len(),
                extra == text::views(f.extra@),
                front@ == known + with_feeds(extra.take(i as int)),
            decreases f.extra.len() - i,
        {
            front.append(&f.extra[i]);
            front.append("\n");
            proof {
                assert(extra.take(i as int + 1).drop_last() =~= extra.take(i as int));
                assert(front@ =~= known + with_feeds(extra.take(i as int + 1)));
            }
            i += 1;
        }
        proof {
            assert(extra.take(i as int) =~= extra);
            assert(front@ =~= front_text(self.front@));
        }
        let mut out = String::from_str("---\n");
        out.append(&front);
        out.append("---\n\n");
        out.append(&text::trim_end_char(&self.body, '\n'));
        out.append("\n");
        out
    }

    /// A new document: the sections every task has, and its title as the goal.
    pub fn template(id: &str, title: &str, status: &str, now: &str, shared: bool) -> (r: TaskDoc)
        ensures
            r@ == new_doc(id@, title@, status@, now@, shared),
    {
        let mut front = Frontmatter::default();
        front.id = String::from_str(id);
        front.title = String::from_str(title);
        front.status = String::from_str(status);
        front.created_at = String::from_str(now);
        front.updated_at = String::from_str(now);
        front.shared = shared;
        let mut body = String::from_str("## Goal\n\n");
        body.append(title);
        body.append("\n\n## Tasks\n\n## Validation\n\n## Notes\n\n");
        body.append(crate::task::sections::AGENT_LOG_HEADING);
        body.append("\n\n<!-- append-only -->\n");
        TaskDoc { front, body }
    }

    /// Sets the time of the last change to now.
    pub fn touch(&mut self)
        ensures
            util::is_time(final(self)@.front.updated_at),
            final(self)@ == touched(old(self)@, final(self)@.front.updated_at),
    {
        let now = util::now_iso();
        self.touch_at(&now);
    }

    /// Sets the time of the last change.
    pub fn touch_at(&mut self, now: &str)
        ensures
            final(self)@ == touched(old(self)@, now@),
    {
        self.front.updated_at = String::from_str(now);
    }
}

} // verus!
