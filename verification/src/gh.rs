//! GitHub through the `gh` command: the calls that are made, and what their
//! output says.
use crate::gitx::strings;
use crate::json::{self, Json};
use crate::text;
use vstd::prelude::*;
use vstd::string::*;

verus! {

/// The `gh` command and where it runs.
pub struct Gh {
    pub bin: String,
    /// Directory to run `gh` in. `gh` infers the target repo from its cwd, so
    /// this must be the task's repo — essential once the dashboard drives
    /// actions across projects from an arbitrary launch directory.
    pub cwd: Option<String>,
}

/// An issue as `gh issue list` gives it.
#[derive(Debug)]
pub struct RemoteIssue {
    pub number: u64,
    pub title: String,
    pub body: String,
}

/// What a [`RemoteIssue`] stands for.
#[verifier::ext_equal]
pub struct RemoteIssueV {
    pub number: u64,
    pub title: Seq<char>,
    pub body: Seq<char>,
}

impl View for RemoteIssue {
    type V = RemoteIssueV;

    open spec fn view(&self) -> RemoteIssueV {
        RemoteIssueV { number: self.number, title: self.title@, body: self.body@ }
    }
}

/// A call of `gh`: its arguments, and what it is given on standard input.
#[derive(Debug)]
pub struct GhCall {
    pub args: Vec<String>,
    pub stdin: Option<String>,
}

/// What a [`GhCall`] stands for.
#[verifier::ext_equal]
pub struct GhCallV {
    pub args: Seq<Seq<char>>,
    pub stdin: Option<Seq<char>>,
}

impl View for GhCall {
    type V = GhCallV;

    open spec fn view(&self) -> GhCallV {
        GhCallV { args: text::views(self.args@), stdin: text::opt_view(self.stdin) }
    }
}

/// The number in the last part of a URL, where what precedes it ends with a segment.
pub open spec fn number_in(tok: Seq<char>, segment: Seq<char>) -> Option<u64> {
    match text::cut_at_last(text::without_trailing(tok, '/'), '/') {
        Some((head, num)) => if text::ends(head, segment) {
            match text::number(num, u64::MAX as nat) {
                Some(n) => Some(n as u64),
                None => None,
            }
        } else {
            None
        },
        None => None,
    }
}

/// The number in the last word that holds one.
pub open spec fn last_number(words: Seq<Seq<char>>, segment: Seq<char>) -> Option<u64>
    decreases words.len(),
{
    if words.len() == 0 {
        None
    } else {
        match number_in(words.last(), segment) {
            Some(n) => Some(n),
            None => last_number(words.drop_last(), segment),
        }
    }
}

/// The titles of the rows that have one.
pub open spec fn titles_in(rows: Seq<Json>) -> Seq<Seq<char>>
    decreases rows.len(),
{
    if rows.len() == 0 {
        seq![]
    } else {
        match json::member_text(rows.last(), "title"@) {
            Some(t) => titles_in(rows.drop_last()).push(t),
            None => titles_in(rows.drop_last()),
        }
    }
}

/// The titles in a reply: of a list, or of the list `projects` in an object.
pub open spec fn titles_of(reply: Option<Json>) -> Seq<Seq<char>> {
    match reply {
        Some(j) => titles_in(json::rows_of(j, "projects"@)),
        None => seq![],
    }
}

/// The body in a reply; empty where there is none.
pub open spec fn body_of(j: Json) -> Seq<char> {
    match json::member_text(j, "body"@) {
        Some(b) => b,
        None => seq![],
    }
}

/// The number in the last part of a URL.
fn token_number(tok: &str, segment: &str) -> (r: Option<u64>)
    ensures
        r == number_in(tok@, segment@),
{
    match text::rsplit_once(&text::trim_end_char(tok, '/'), '/') {
        Some((head, num)) => {
            if text::ends_with(&head, segment) {
                text::parse_u64(&num)
            } else {
                None
            }
        },
        None => None,
    }
}

/// The rows of a reply: its own, or those of a member.
pub fn rows<'a>(j: &'a Json, key: &str) -> (r: Option<&'a Vec<Json>>)
    ensures
        json::rows_of(*j, key@) == match r {
            Some(v) => v@,
            None => seq![],
        },
{
    match j {
        Json::List(v) => Some(v),
        _ => match json::get(j, key) {
            Some(Json::List(v)) => Some(v),
            _ => None,
        },
    }
}

impl Gh {
    /// The command: `REIN_GH`, or `gh`.
    pub fn new(rein_gh: &Option<String>) -> (r: Gh)
        ensures
            r.bin@ == match text::opt_view(*rein_gh) {
                Some(b) => b,
                None => "gh"@,
            },
            r.cwd is None,
    {
        let bin = match rein_gh {
            Some(b) => b.clone(),
            None => String::from_str("gh"),
        };
        Gh { bin, cwd: None }
    }

    /// `gh` bound to a repo directory, so its target repo is unambiguous
    /// regardless of where the rein process was launched.
    pub fn in_dir(rein_gh: &Option<String>, dir: &str) -> (r: Gh)
        ensures
            r.bin@ == match text::opt_view(*rein_gh) {
                Some(b) => b,
                None => "gh"@,
            },
            text::opt_view(r.cwd) == Some(dir@),
    {
        let gh = Gh::new(rein_gh);
        Gh { bin: gh.bin, cwd: Some(String::from_str(dir)) }
    }

    /// What came of a call: its output, or the message of its failure.
    pub fn run(&self, call: &GhCall, success: bool, stdout: &str, stderr: &str) -> (r: Result<
        String,
        String,
    >)
        ensures
            match r {
                Ok(out) => success && out@ == stdout@,
                Err(e) => !success && e@ == self.bin@ + " "@ + text::joined(call@.args, " "@)
                    + " failed: "@ + text::trimmed(stderr@),
            },
    {
        if success {
            Ok(String::from_str(stdout))
        } else {
            let mut m = self.bin.clone();
            m.append(" ");
            m.append(&text::join(&call.args, " "));
            m.append(" failed: ");
            m.append(&text::trim(stderr));
            Err(m)
        }
    }

    /// The number at the end of the last URL in the output.
    pub fn parse_number_from_url(output: &str, segment: &str) -> (r: Result<u64, String>)
        ensures
            match r {
                Ok(n) => last_number(text::words_of(output@), segment@) == Some(n),
                Err(e) => last_number(text::words_of(output@), segment@) is None && e@
                    == "could not parse number from gh output: "@ + text::trimmed(output@),
            },
    {
        let words = text::split_whitespace(output);
        let ghost all = text::views(words@);
        let mut k: usize = words.len();
        proof {
            assert(all.take(k as int) =~= all);
        }
        while k > 0
            invariant
                0 <= k <= words.len(),
                all == text::views(words@),
                all == text::words_of(output@),
                last_number(all, segment@) == last_number(all.take(k as int), segment@),
            decreases k,
        {
            proof {
                assert(all.take(k as int).drop_last() =~= all.take(k as int - 1));
                assert(all.take(k as int).last() == words@[k as int - 1]@);
            }
            match token_number(&words[k - 1], segment) {
                Some(n) => {
                    return Ok(n);
                },
                None => {},
            }
            k -= 1;
        }
        let mut m = String::from_str("could not parse number from gh output: ");
        m.append(&text::trim(output));
        Err(m)
    }

    /// The call that makes sure that the label exists.
    pub fn ensure_label() -> (r: GhCall)
        ensures
            r@ == (GhCallV {
                args: seq![
                    "label"@,
                    "create"@,
                    "rein"@,
                    "--description"@,
                    "rein managed task"@,
                    "--force"@,
                ],
                stdin: None,
            }),
    {
        let args = strings(
            &["label", "create", "rein", "--description", "rein managed task", "--force"],
        );
        let r = GhCall { args, stdin: None };
        assert(r@.args =~= seq![
            "label"@,
            "create"@,
            "rein"@,
            "--description"@,
            "rein managed task"@,
            "--force"@,
        ]);
        r
    }

    /// The call that creates an issue, on a project board where one was chosen.
    pub fn issue_create(title: &str, body: &str, project: &Option<String>) -> (r: GhCall)
        ensures
            r@ == (GhCallV {
                args: seq![
                    "issue"@,
                    "create"@,
                    "--title"@,
                    title@,
                    "--body-file"@,
                    "-"@,
                    "--label"@,
                    "rein"@,
                ] + (match text::opt_view(*project) {
                    Some(p) => seq!["--project"@, p],
                    None => Seq::<Seq<char>>::empty(),
                }),
                stdin: Some(body@),
            }),
    {
        let mut args = strings(
            &["issue", "create", "--title", title, "--body-file", "-", "--label", "rein"],
        );
        let ghost base = text::views(args@);
        match project {
            Some(p) => {
                args.push(String::from_str("--project"));
                args.push(p.clone());
                proof {
                    assert(text::views(args@) =~= base + seq!["--project"@, p@]);
                }
            },
            None => {},
        }
        proof {
            assert(base =~= seq![
                "issue"@,
                "create"@,
                "--title"@,
                title@,
                "--body-file"@,
                "-"@,
                "--label"@,
                "rein"@,
            ]);
            assert(base + Seq::<Seq<char>>::empty() =~= base);
        }
        GhCall { args, stdin: Some(String::from_str(body)) }
    }

    /// The call that lists the owner's GitHub Projects (v2). `owner` scopes to a
    /// user/org login when known.
    pub fn project_list(owner: &Option<String>) -> (r: GhCall)
        ensures
            r@ == (GhCallV {
                args: seq!["project"@, "list"@, "--format"@, "json"@] + (match text::opt_view(
                    *owner,
                ) {
                    Some(o) => seq!["--owner"@, o],
                    None => Seq::<Seq<char>>::empty(),
                }),
                stdin: None,
            }),
    {
        let mut args = strings(&["project", "list", "--format", "json"]);
        let ghost base = text::views(args@);
        match owner {
            Some(o) => {
                args.push(String::from_str("--owner"));
                args.push(o.clone());
                proof {
                    assert(text::views(args@) =~= base + seq!["--owner"@, o@]);
                }
            },
            None => {},
        }
        proof {
            assert(base =~= seq!["project"@, "list"@, "--format"@, "json"@]);
            assert(base + Seq::<Seq<char>>::empty() =~= base);
        }
        GhCall { args, stdin: None }
    }

    /// The titles in a reply that was read as JSON.
    pub fn titles(reply: &Option<Json>) -> (r: Vec<String>)
        ensures
            text::views(r@) == titles_of(*reply),
    {
        let mut out: Vec<String> = Vec::new();
        match reply {
            Some(j) => {
                match rows(j, "projects") {
                    Some(v) => {
                        let mut i: usize = 0;
                        while i < v.len()
                            invariant
                                0 <= i <= v.len(),
                                text::views(out@) == titles_in(v@.take(i as int)),
                            decreases v.len() - i,
                        {
                            let ghost before = text::views(out@);
                            proof {
                                assert(v@.take(i as int + 1).drop_last() =~= v@.take(i as int));
                            }
                            match json::get_text(&v[i], "title") {
                                Some(t) => {
                                    out.push(t);
                                    proof {
                                        assert(text::views(out@) =~= before.push(t@));
                                    }
                                },
                                None => {},
                            }
                            i += 1;
                        }
                        proof {
                            assert(v@.take(i as int) =~= v@);
                        }
                    },
                    None => {
                        assert(text::views(out@) =~= titles_of(*reply));
                    },
                }
            },
            None => {
                assert(text::views(out@) =~= titles_of(*reply));
            },
        }
        out
    }

    /// Titles of the owner's GitHub Projects (v2), for the optional issue→project
    /// picker. Best-effort: an empty list if `gh` lacks the `project` scope or
    /// the command errors. `gh project list --format json` may return either a
    /// top-level array or a `{ "projects": [...] }` object — both are accepted.
    pub fn project_titles(reply: &Result<String, String>) -> (r: Vec<String>)
        ensures
            text::views(r@) == match *reply {
                Ok(out) => titles_of(json::json_of(out@)),
                Err(_) => Seq::<Seq<char>>::empty(),
            },
    {
        match reply {
            Ok(out) => Gh::titles(&json::parse_json(out)),
            Err(_) => {
                let r: Vec<String> = Vec::new();
                assert(text::views(r@) =~= Seq::<Seq<char>>::empty());
                r
            },
        }
    }

    /// The call that reads the body of an issue.
    pub fn issue_view_body(number: u64) -> (r: GhCall)
        ensures
            r@ == (GhCallV {
                args: seq!["issue"@, "view"@, text::decimal(number as nat), "--json"@, "body"@],
                stdin: None,
            }),
    {
        let n = text::format_u64(number);
        let r = GhCall {
            args: strings(&["issue", "view", n.as_str(), "--json", "body"]),
            stdin: None,
        };
        assert(r@.args =~= seq![
            "issue"@,
            "view"@,
            text::decimal(number as nat),
            "--json"@,
            "body"@,
        ]);
        r
    }

    /// The call that reads the body of a pull request.
    pub fn pr_view_body(number: u64) -> (r: GhCall)
        ensures
            r@ == (GhCallV {
                args: seq!["pr"@, "view"@, text::decimal(number as nat), "--json"@, "body"@],
                stdin: None,
            }),
    {
        let n = text::format_u64(number);
        let r = GhCall {
            args: strings(&["pr", "view", n.as_str(), "--json", "body"]),
            stdin: None,
        };
        assert(r@.args =~= seq![
            "pr"@,
            "view"@,
            text::decimal(number as nat),
            "--json"@,
            "body"@,
        ]);
        r
    }

    /// The body in a reply that was read as JSON.
    pub fn viewed(reply: &Option<Json>, surface: &str) -> (r: Result<String, String>)
        ensures
            match r {
                Ok(b) => *reply matches Some(j) && b@ == body_of(j),
                Err(e) => *reply is None && e@ == "bad gh "@ + surface@ + " view JSON"@,
            },
    {
        match reply {
            Some(j) => match json::get_text(j, "body") {
                Some(b) => Ok(b),
                None => {
                    let e = String::new();
                    assert(e@ =~= body_of(*j));
                    Ok(e)
                },
            },
            None => {
                let mut m = String::from_str("bad gh ");
                m.append(surface);
                m.append(" view JSON");
                Err(m)
            },
        }
    }

    /// The body in the output of a call that read it.
    pub fn viewed_body(out: &str, surface: &str) -> (r: Result<String, String>)
        ensures
            match r {
                Ok(b) => json::json_of(out@) matches Some(j) && b@ == body_of(j),
                Err(e) => json::json_of(out@) is None && e@ == "bad gh "@ + surface@
                    + " view JSON"@,
            },
    {
        Gh::viewed(&json::parse_json(out), surface)
    }

    /// The call that replaces the body of an issue.
    pub fn issue_edit_body(number: u64, body: &str) -> (r: GhCall)
        ensures
            r@ == (GhCallV {
                args: seq!["issue"@, "edit"@, text::decimal(number as nat), "--body-file"@, "-"@],
                stdin: Some(body@),
            }),
    {
        let n = text::format_u64(number);
        let r = GhCall {
            args: strings(&["issue", "edit", n.as_str(), "--body-file", "-"]),
            stdin: Some(String::from_str(body)),
        };
        assert(r@.args =~= seq![
            "issue"@,
            "edit"@,
            text::decimal(number as nat),
            "--body-file"@,
            "-"@,
        ]);
        r
    }

    /// The call that replaces the body of a pull request.
    pub fn pr_edit_body(number: u64, body: &str) -> (r: GhCall)
        ensures
            r@ == (GhCallV {
                args: seq!["pr"@, "edit"@, text::decimal(number as nat), "--body-file"@, "-"@],
                stdin: Some(body@),
            }),
    {
        let n = text::format_u64(number);
        let r = GhCall {
            args: strings(&["pr", "edit", n.as_str(), "--body-file", "-"]),
            stdin: Some(String::from_str(body)),
        };
        assert(r@.args =~= seq![
            "pr"@,
            "edit"@,
            text::decimal(number as nat),
            "--body-file"@,
            "-"@,
        ]);
        r
    }

    /// The call that lists the open issues with the label.
    pub fn issue_list_rein() -> (r: GhCall)
        ensures
            r@ == (GhCallV {
                args: seq![
                    "issue"@,
                    "list"@,
                    "--label"@,
                    "rein"@,
                    "--state"@,
                    "open"@,
                    "--json"@,
                    "number,title,body"@,
                ],
                stdin: None,
            }),
    {
        let args = strings(
            &["issue", "list", "--label", "rein", "--state", "open", "--json", "number,title,body"],
        );
        let r = GhCall { args, stdin: None };
        assert(r@.args =~= seq![
            "issue"@,
            "list"@,
            "--label"@,
            "rein"@,
            "--state"@,
            "open"@,
            "--json"@,
            "number,title,body"@,
        ]);
        r
    }

    /// The call that closes an issue, as not planned where it was given up.
    pub fn issue_close(number: u64, not_planned: bool, comment: &str) -> (r: GhCall)
        ensures
            r@ == close_call(number, not_planned, comment@),
    {
        let n = text::format_u64(number);
        let mut args = strings(&["issue", "close", n.as_str(), "--comment", comment]);
        let ghost base = text::views(args@);
        if not_planned {
            args.push(String::from_str("--reason"));
            args.push(String::from_str("not planned"));
            proof {
                assert(text::views(args@) =~= base + seq!["--reason"@, "not planned"@]);
            }
        }
        proof {
            assert(base =~= seq![
                "issue"@,
                "close"@,
                text::decimal(number as nat),
                "--comment"@,
                comment@,
            ]);
            assert(base + Seq::<Seq<char>>::empty() =~= base);
        }
        GhCall { args, stdin: None }
    }

    /// The call that comments on an issue.
    pub fn issue_comment(number: u64, body: &str) -> (r: GhCall)
        ensures
            r@ == comment_call(number, body@),
    {
        let n = text::format_u64(number);
        let r = GhCall {
            args: strings(&["issue", "comment", n.as_str(), "--body", body]),
            stdin: None,
        };
        assert(r@.args =~= seq![
            "issue"@,
            "comment"@,
            text::decimal(number as nat),
            "--body"@,
            body@,
        ]);
        r
    }

    /// The call that opens a draft pull request.
    pub fn pr_create_draft(title: &str, body: &str, head: &str) -> (r: GhCall)
        ensures
            r@ == (GhCallV {
                args: seq![
                    "pr"@,
                    "create"@,
                    "--draft"@,
                    "--title"@,
                    title@,
                    "--body-file"@,
                    "-"@,
                    "--head"@,
                    head@,
                ],
                stdin: Some(body@),
            }),
    {
        let args = strings(
            &["pr", "create", "--draft", "--title", title, "--body-file", "-", "--head", head],
        );
        let r = GhCall { args, stdin: Some(String::from_str(body)) };
        assert(r@.args =~= seq![
            "pr"@,
            "create"@,
            "--draft"@,
            "--title"@,
            title@,
            "--body-file"@,
            "-"@,
            "--head"@,
            head@,
        ]);
        r
    }
}

/// The call that closes an issue.
pub open spec fn close_call(number: u64, not_planned: bool, comment: Seq<char>) -> GhCallV {
    GhCallV {
        args: seq!["issue"@, "close"@, text::decimal(number as nat), "--comment"@, comment] + (
        if not_planned {
            seq!["--reason"@, "not planned"@]
        } else {
            Seq::<Seq<char>>::empty()
        }),
        stdin: None,
    }
}

/// The call that comments on an issue.
pub open spec fn comment_call(number: u64, body: Seq<char>) -> GhCallV {
    GhCallV {
        args: seq!["issue"@, "comment"@, text::decimal(number as nat), "--body"@, body],
        stdin: None,
    }
}

} // verus!
