//! Where stores are, and which project each belongs to.
use crate::json::{self, Field, FieldValue, Json};
use crate::paths;
use crate::store::{Store, StoreV};
use crate::text;
use vstd::prelude::*;
use vstd::string::*;

verus! {

/// A store paired with the project it belongs to — used by the cross-project
/// dashboard to label tasks and locate each task's repo for git/gh actions.
#[derive(Debug)]
pub struct StoreInfo {
    pub store: Store,
    /// Human-friendly project name (remote `owner/repo`, else repo dir name).
    pub project: String,
    /// The repo working directory, derived from `meta.json`'s common_dir.
    /// `None` if the hint is missing or the path can't be inferred.
    pub repo_dir: Option<String>,
}

/// What a [`StoreInfo`] stands for.
#[verifier::ext_equal]
pub struct StoreInfoV {
    pub store: StoreV,
    pub project: Seq<char>,
    pub repo_dir: Option<Seq<char>>,
}

impl View for StoreInfo {
    type V = StoreInfoV;

    open spec fn view(&self) -> StoreInfoV {
        StoreInfoV {
            store: self.store@,
            project: self.project@,
            repo_dir: text::opt_view(self.repo_dir),
        }
    }
}

impl Clone for StoreInfo {
    fn clone(&self) -> (r: Self)
        ensures
            r@ == self@,
    {
        StoreInfo {
            store: self.store.clone(),
            project: self.project.clone(),
            repo_dir: text::clone_opt(&self.repo_dir),
        }
    }
}

// ---------------------------------------------------------------------------
// Remote URLs
// ---------------------------------------------------------------------------

/// The texts of a list that are not empty.
pub open spec fn nonempty(ps: Seq<Seq<char>>) -> Seq<Seq<char>>
    decreases ps.len(),
{
    if ps.len() == 0 {
        seq![]
    } else if ps.last().len() == 0 {
        nonempty(ps.drop_last())
    } else {
        nonempty(ps.drop_last()).push(ps.last())
    }
}

/// The path segments of a remote URL without its end: what follows the last
/// colon, cut at slashes.
pub open spec fn segments_of(tail: Seq<char>) -> Seq<Seq<char>> {
    let path = match text::cut_at_last(tail, ':') {
        Some((_, p)) => p,
        None => tail,
    };
    nonempty(text::split_of(path, '/'))
}

/// A remote URL without white space, trailing slashes and one `.git`.
pub open spec fn remote_tail(remote: Seq<char>) -> Seq<char> {
    let t = text::without_trailing(text::trimmed(remote), '/');
    match text::before_suffix(t, ".git"@) {
        Some(x) => x,
        None => t,
    }
}

/// The owner and the repository that a remote URL ends with.
pub open spec fn owner_repo_of(remote: Seq<char>) -> Option<Seq<char>> {
    let segs = segments_of(remote_tail(remote));
    if segs.len() >= 2 {
        Some(segs[segs.len() - 2] + "/"@ + segs[segs.len() - 1])
    } else {
        None
    }
}

/// `s` without its trailing `p`s.
pub open spec fn without_suffixes(s: Seq<char>, p: Seq<char>) -> Seq<char>
    decreases s.len(),
{
    if p.len() > 0 && text::ends(s, p) {
        without_suffixes(s.take(s.len() - p.len()), p)
    } else {
        s
    }
}

/// The owner that a remote URL ends with, before the repository. Here every
/// trailing `.git` is cut off.
pub open spec fn owner_of(remote: Seq<char>) -> Option<Seq<char>> {
    let segs = segments_of(
        without_suffixes(text::without_trailing(text::trimmed(remote), '/'), ".git"@),
    );
    if segs.len() >= 2 {
        Some(segs[segs.len() - 2])
    } else {
        None
    }
}

/// The path segments of a remote URL without its end.
fn segments(tail: &str) -> (r: Vec<String>)
    ensures
        text::views(r@) == segments_of(tail@),
{
    let path = match text::rsplit_once(tail, ':') {
        Some((_, p)) => p,
        None => String::from_str(tail),
    };
    let pieces = text::split(&path, '/');
    let mut out: Vec<String> = Vec::new();
    let ghost all = text::views(pieces@);
    let mut i: usize = 0;
    while i < pieces.len()
        invariant
            0 <= i <= pieces.len(),
            all == text::views(pieces@),
            text::views(out@) == nonempty(all.take(i as int)),
        decreases pieces.len() - i,
    {
        let ghost before = text::views(out@);
        proof {
            assert(all.take(i as int + 1).drop_last() =~= all.take(i as int));
            assert(all.take(i as int + 1).last() == pieces@[i as int]@);
        }
        if !pieces[i].as_str().is_empty() {
            out.push(pieces[i].clone());
            proof {
                assert(text::views(out@) =~= before.push(pieces@[i as int]@));
            }
        }
        i += 1;
    }
    proof {
        assert(all.take(i as int) =~= all);
    }
    out
}

/// Pull `owner/repo` out of a git remote URL (https or ssh forms).
pub fn owner_repo_from_remote(remote: &str) -> (r: Option<String>)
    ensures
        text::opt_view(r) == owner_repo_of(remote@),
{
    let t = text::trim_end_char(&text::trim(remote), '/');
    let tail = match text::strip_suffix(&t, ".git") {
        Some(x) => x,
        None => t,
    };
    let segs = segments(&tail);
    proof {
        assert(text::views(segs@).len() == segs@.len());
    }
    if segs.len() >= 2 {
        let mut out = segs[segs.len() - 2].clone();
        out.append("/");
        out.append(&segs[segs.len() - 1]);
        Some(out)
    } else {
        None
    }
}

/// The repo owner (user/org login) from the git remote, used to scope the
/// GitHub Project picker to the right account. `None` if no remote is set.
pub fn repo_owner(remote: Option<&str>) -> (r: Option<String>)
    ensures
        text::opt_view(r) == match remote {
            Some(u) => owner_of(u@),
            None => None,
        },
{
    match remote {
        None => None,
        Some(u) => {
            let mut t = text::trim_end_char(&text::trim(u), '/');
            let ghost start = t@;
            proof {
                reveal_strlit(".git");
            }
            loop
                invariant
                    ".git"@.len() == 4,
                    without_suffixes(start, ".git"@) == without_suffixes(t@, ".git"@),
                ensures
                    t@ == without_suffixes(start, ".git"@),
                decreases t@.len(),
            {
                match text::strip_suffix(&t, ".git") {
                    Some(x) => {
                        t = x;
                    },
                    None => {
                        break;
                    },
                }
            }
            let segs = segments(&t);
            proof {
                assert(text::views(segs@).len() == segs@.len());
            }
            if segs.len() >= 2 {
                Some(segs[segs.len() - 2].clone())
            } else {
                None
            }
        },
    }
}

// ---------------------------------------------------------------------------
// Project hints
// ---------------------------------------------------------------------------

/// The text of a member of an optional JSON value.
pub open spec fn hint(meta: Option<Json>, key: Seq<char>) -> Option<Seq<char>> {
    match meta {
        Some(j) => json::member_text(j, key),
        None => None,
    }
}

/// The directory of the repository: the parent of its git directory.
pub open spec fn repo_dir_of(meta: Option<Json>) -> Option<Seq<char>> {
    match hint(meta, "common_dir"@) {
        Some(c) => paths::parent_of(c),
        None => None,
    }
}

/// The first of two optional texts that is there.
pub open spec fn or_else(a: Option<Seq<char>>, b: Option<Seq<char>>) -> Option<Seq<char>> {
    match a {
        Some(_) => a,
        None => b,
    }
}

/// The name of a project: from its remote, else its directory, else its store.
pub open spec fn project_of(root: Seq<char>, meta: Option<Json>) -> Seq<char> {
    let by_remote = match hint(meta, "remote"@) {
        Some(u) => owner_repo_of(u),
        None => None,
    };
    let by_dir = match repo_dir_of(meta) {
        Some(d) => paths::file_name_of(d),
        None => None,
    };
    match or_else(or_else(by_remote, by_dir), paths::file_name_of(root)) {
        Some(name) => name,
        None => "?"@,
    }
}

/// The JSON value in the hints of a store.
pub open spec fn meta_of(s: StoreV) -> Option<Json> {
    match s.meta {
        Some(t) => json::json_of(t),
        None => None,
    }
}

/// A store with its project.
pub open spec fn info_of(s: StoreV, meta: Option<Json>) -> StoreInfoV {
    StoreInfoV { store: s, project: project_of(s.root, meta), repo_dir: repo_dir_of(meta) }
}

/// The projects with `x` set behind those whose name does not come after its own.
pub open spec fn placed(ps: Seq<StoreInfoV>, x: StoreInfoV, n: int) -> Seq<StoreInfoV>
    decreases n,
{
    if 0 < n <= ps.len() && paths::text_before(x.project, ps[n - 1].project) {
        placed(ps, x, n - 1)
    } else {
        ps.insert(n, x)
    }
}

/// The projects of some stores, in the order of their names.
pub open spec fn projects_of(ss: Seq<StoreV>) -> Seq<StoreInfoV>
    decreases ss.len(),
{
    if ss.len() == 0 {
        seq![]
    } else {
        let before = projects_of(ss.drop_last());
        placed(before, info_of(ss.last(), meta_of(ss.last())), before.len() as int)
    }
}

/// A text that is not empty.
pub open spec fn given(s: Option<Seq<char>>) -> Option<Seq<char>> {
    match s {
        Some(t) => if t.len() == 0 {
            None
        } else {
            s
        },
        None => None,
    }
}

/// Where application data is kept: `XDG_DATA_HOME`, or below the home directory.
pub open spec fn data_home_of(xdg: Option<Seq<char>>, home: Option<Seq<char>>) -> Seq<char> {
    match given(xdg) {
        Some(x) => x,
        None => paths::joined_path(
            match home {
                Some(h) => h,
                None => "."@,
            },
            ".local/share"@,
        ),
    }
}

/// Where application data is kept.
pub fn data_home(xdg: Option<&str>, home: Option<&str>) -> (r: String)
    ensures
        r@ == data_home_of(str_view(xdg), str_view(home)),
{
    match xdg {
        Some(x) => {
            if !x.is_empty() {
                return String::from_str(x);
            }
        },
        None => {},
    }
    match home {
        Some(h) => paths::join(h, ".local/share"),
        None => paths::join(".", ".local/share"),
    }
}

/// What an optional string slice holds.
pub open spec fn str_view(s: Option<&str>) -> Option<Seq<char>> {
    match s {
        Some(t) => Some(t@),
        None => None,
    }
}

/// A fresh random key from `uuid::Uuid::new_v4`, written with dashes: 36 lowercase
/// hexadecimal digits and dashes. Nothing is said of which key it is.
#[verifier::external_body]
fn new_key() -> (r: String)
    ensures
        r@.len() == 36,
        forall|i: int|
            0 <= i < r@.len() ==> ('0' <= #[trigger] r@[i] <= '9' || 'a' <= r@[i] <= 'f' || r@[i]
                == '-'),
{
    uuid::Uuid::new_v4().to_string()
}

/// What the environment and the repository say about where the store is.
pub struct Place {
    /// `REIN_ROOT`
    pub rein_root: Option<String>,
    /// The key in git config `rein.store`.
    pub key: Option<String>,
    /// Where application data is kept.
    pub data_home: String,
}

/// The store of a key.
pub open spec fn keyed_root(data_home: Seq<char>, key: Seq<char>) -> Seq<char> {
    paths::joined_path(paths::joined_path(data_home, "rein"@), key)
}

/// Where the store of a repository is: `REIN_ROOT` overrides the configured key.
pub open spec fn root_of(p: Place) -> Result<Seq<char>, Seq<char>> {
    match given(text::opt_view(p.rein_root)) {
        Some(root) => Ok(root),
        None => match text::opt_view(p.key) {
            Some(key) => Ok(keyed_root(p.data_home@, key)),
            None => Err("repo not initialized for rein — run `rein init`"@),
        },
    }
}

impl Store {
    /// Resolve the store for a repo. `REIN_ROOT` overrides; otherwise the key
    /// is the UUID in `git config rein.store` (error if missing → `rein init`).
    pub fn resolve(p: &Place) -> (r: Result<String, String>)
        ensures
            match r {
                Ok(root) => root_of(*p) == Ok::<Seq<char>, Seq<char>>(root@),
                Err(e) => root_of(*p) == Err::<Seq<char>, Seq<char>>(e@),
            },
    {
        match &p.rein_root {
            Some(root) => {
                if !root.as_str().is_empty() {
                    return Ok(root.clone());
                }
            },
            None => {},
        }
        match &p.key {
            Some(key) => Ok(paths::join(&Store::rein_dir(&p.data_home), key)),
            None => Err(String::from_str("repo not initialized for rein — run `rein init`")),
        }
    }

    /// The store path and key for init, and whether the key is new. `REIN_ROOT`
    /// names the store by itself and needs no key.
    pub fn resolve_or_create_key(p: &Place) -> (r: (String, String, bool))
        ensures
            r.2 == (given(text::opt_view(p.rein_root)) is None && p.key is None),
            given(text::opt_view(p.rein_root)) matches Some(root) ==> r.0@ == root && r.1@ == (
            match text::opt_view(p.key) {
                Some(k) => k,
                None => Seq::<char>::empty(),
            }),
            given(text::opt_view(p.rein_root)) is None ==> r.0@ == keyed_root(
                p.data_home@,
                r.1@,
            ) && (p.key matches Some(k) ==> r.1@ == k@),
            r.2 ==> r.1@.len() == 36,
    {
        match &p.rein_root {
            Some(root) => {
                if !root.as_str().is_empty() {
                    let key = match &p.key {
                        Some(k) => k.clone(),
                        None => String::new(),
                    };
                    return (root.clone(), key, false);
                }
            },
            None => {},
        }
        match &p.key {
            Some(k) => (paths::join(&Store::rein_dir(&p.data_home), k), k.clone(), false),
            None => {
                let key = new_key();
                (paths::join(&Store::rein_dir(&p.data_home), &key), key, true)
            },
        }
    }

    /// Directory holding every per-repo store (`<data home>/rein/`).
    pub fn rein_dir(data_home: &str) -> (r: String)
        ensures
            r@ == paths::joined_path(data_home@, "rein"@),
    {
        paths::join(data_home, "rein")
    }

    /// The project of a store, from the hints that its `meta.json` holds.
    pub fn info_from(&self, meta: Option<Json>) -> (r: StoreInfo)
        ensures
            r@ == info_of(self@, meta),
    {
        let (common_dir, remote) = match &meta {
            Some(j) => (json::get_text(j, "common_dir"), json::get_text(j, "remote")),
            None => (None, None),
        };
        let repo_dir = match &common_dir {
            Some(c) => paths::parent(c),
            None => None,
        };
        let by_remote = match &remote {
            Some(u) => owner_repo_from_remote(u),
            None => None,
        };
        let by_dir = match &repo_dir {
            Some(d) => paths::file_name(d),
            None => None,
        };
        let project = match by_remote {
            Some(name) => name,
            None => match by_dir {
                Some(name) => name,
                None => match paths::file_name(&self.root) {
                    Some(name) => name,
                    None => String::from_str("?"),
                },
            },
        };
        StoreInfo { store: self.clone(), project, repo_dir }
    }

    /// Read this store's project hints from `meta.json` (common_dir, remote)
    /// and derive a display name. Never fails — falls back to the store key.
    pub fn info(&self) -> (r: StoreInfo)
        ensures
            r@ == info_of(self@, meta_of(self@)),
    {
        let meta = match &self.meta {
            Some(t) => json::parse_json(t),
            None => None,
        };
        self.info_from(meta)
    }

    /// The projects of the stores that a rein directory holds, in the order of
    /// their names.
    pub fn discover_in(stores: &Vec<Store>) -> (r: Vec<StoreInfo>)
        ensures
            text::views(r@) == projects_of(text::views(stores@)),
    {
        let mut out: Vec<StoreInfo> = Vec::new();
        let ghost all = text::views(stores@);
        let mut i: usize = 0;
        while i < stores.len()
            invariant
                0 <= i <= stores.len(),
                all == text::views(stores@),
                text::views(out@) == projects_of(all.take(i as int)),
            decreases stores.len() - i,
        {
            proof {
                assert(all.take(i as int + 1).drop_last() =~= all.take(i as int));
                assert(all.take(i as int + 1).last() == stores@[i as int]@);
            }
            let info = stores[i].info();
            let ghost before = text::views(out@);
            let mut n: usize = out.len();
            while n > 0 && paths::sorts_before(&info.project, &out[n - 1].project)
                invariant
                    0 <= n <= out.len(),
                    before == text::views(out@),
                    placed(before, info@, before.len() as int) == placed(before, info@, n as int),
                decreases n,
            {
                n -= 1;
            }
            out.insert(n, info);
            proof {
                assert(text::views(out@) =~= before.insert(n as int, info@));
            }
            i += 1;
        }
        proof {
            assert(all.take(i as int) =~= all);
        }
        out
    }
}

/// The fields of the project hints.
pub open spec fn meta_fields(common_dir: Seq<char>, remote: Option<Seq<char>>) -> Seq<
    json::FieldV,
> {
    seq![
        json::FieldV { key: "version"@, value: json::FieldValueV::Number(1) },
        json::FieldV { key: "common_dir"@, value: json::FieldValueV::Text(common_dir) },
        json::FieldV {
            key: "remote"@,
            value: match remote {
                Some(u) => json::FieldValueV::Text(u),
                None => json::FieldValueV::Null,
            },
        },
    ]
}

/// The project hints of a repository, as they are written to `meta.json`. A store
/// reads its project back from them.
pub fn meta_text(common_dir: &str, remote: &Option<String>) -> (r: String)
    ensures
        r@ == json::object_text(meta_fields(common_dir@, text::opt_view(*remote))),
        json::json_of(r@) is Some,
        hint(json::json_of(r@), "common_dir"@) == Some(common_dir@),
        hint(json::json_of(r@), "remote"@) == text::opt_view(*remote),
{
    let mut fields: Vec<Field> = Vec::new();
    fields.push(Field { key: String::from_str("version"), value: FieldValue::Number(1) });
    fields.push(
        Field {
            key: String::from_str("common_dir"),
            value: FieldValue::Text(String::from_str(common_dir)),
        },
    );
    let value = match remote {
        Some(u) => FieldValue::Text(u.clone()),
        None => FieldValue::Null,
    };
    fields.push(Field { key: String::from_str("remote"), value });
    let ghost fs = text::views(fields@);
    proof {
        assert(fs =~= meta_fields(common_dir@, text::opt_view(*remote)));
        reveal_strlit("version");
        reveal_strlit("common_dir");
        reveal_strlit("remote");
        assert(fs.drop_last().last() == fs[1]);
        assert("remote"@ != "common_dir"@) by {
            assert("remote"@.len() != "common_dir"@.len());
        }
        assert(json::field_text(fs.drop_last(), "common_dir"@) == Some(common_dir@));
        assert(json::field_text(fs, "common_dir"@) == Some(common_dir@));
        assert(json::field_text(fs, "remote"@) == text::opt_view(*remote));
    }
    json::write_object(&fields)
}

/// The directories that a store is laid out in.
pub open spec fn layout_of(root: Seq<char>) -> Seq<Seq<char>> {
    seq![
        paths::joined_path(root, "inbox"@),
        paths::joined_path(root, "active"@),
        paths::joined_path(root, "done"@),
        paths::joined_path(root, "canceled"@),
        paths::joined_path(root, "conflicts"@),
        paths::joined_path(root, "state"@),
    ]
}

/// The directories that a store is laid out in.
pub fn layout_dirs(root: &str) -> (r: Vec<String>)
    ensures
        text::views(r@) == layout_of(root@),
{
    let mut out: Vec<String> = Vec::new();
    out.push(paths::join(root, "inbox"));
    out.push(paths::join(root, "active"));
    out.push(paths::join(root, "done"));
    out.push(paths::join(root, "canceled"));
    out.push(paths::join(root, "conflicts"));
    out.push(paths::join(root, "state"));
    proof {
        assert(text::views(out@) =~= layout_of(root@));
    }
    out
}

} // verus!
