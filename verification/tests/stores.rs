use rein::commands::plan::{edit_state, StateEdit};
use rein::commands::sync_cmd::pull_inbox;
use rein::ctx::Ctx;
use rein::gh::RemoteIssue;
use rein::gitx::Repo;
use rein::paths::same_path;
use rein::projects::{data_home, layout_dirs, meta_text, repo_owner, Place};
use rein::resolve::{gate_mutation, resolve_task, Source};
use rein::state::{load, save, state_path, StoredState, TaskState};
use rein::store::{Status, Store, StoreFile};
use rein::task::TaskDoc;
use rein::ui::loading::dashboard_projects;
use rein::util::{month_dir, now_iso, sha256_tag, slugify, today_compact};

/// A store with some documents, each given by its status, its slug and its title.
fn store(tasks: &[(&str, &str, &str)]) -> Store {
    let mut s = Store::at("/store");
    for (dir, slug, title) in tasks {
        let id = format!("task-20260613-{}", slug);
        let doc = TaskDoc::template(&id, title, dir, "2026-06-13T10:00:00+09:00", false);
        s.files.push(StoreFile {
            path: format!("/store/{}/{}.md", dir, slug),
            text: doc.serialize(),
        });
    }
    s
}

fn repo(pointer: Option<&str>) -> Repo {
    Repo {
        workdir: "/repo".into(),
        git_dir: "/repo/.git".into(),
        common_dir: "/repo/.git".into(),
        pointer: pointer.map(|p| p.to_string()),
    }
}

fn at(root: &str, meta: &str) -> Store {
    let mut s = Store::at(root);
    s.meta = Some(meta.to_string());
    s
}

#[test]
fn discover_in_enumerates_stores_with_project_names() {
    let stores = vec![
        // store A: remote-derived name
        at(
            "/data/rein/aaaa",
            r#"{"version":1,"common_dir":"/home/me/web/.git","remote":"git@github.com:acme/web.git"}"#,
        ),
        // store B: no remote → falls back to the repo dir name
        at(
            "/data/rein/bbbb",
            r#"{"version":1,"common_dir":"/home/me/tools/.git","remote":null}"#,
        ),
    ];
    let infos = Store::discover_in(&stores);
    assert_eq!(infos.len(), 2);
    // sorted by project name: "acme/web" < "tools"
    assert_eq!(infos[0].project, "acme/web");
    assert_eq!(infos[0].repo_dir.as_deref(), Some("/home/me/web"));
    assert_eq!(infos[1].project, "tools");
    assert_eq!(infos[1].repo_dir.as_deref(), Some("/home/me/tools"));
}

#[test]
fn discover_in_missing_dir_is_empty() {
    assert!(Store::discover_in(&Vec::new()).is_empty());
}

#[test]
fn projects_are_sorted_and_fall_back_to_the_directory() {
    let stores = vec![
        at("/data/rein/zz", "not json"),
        Store::at("/data/rein/yy"),
        at("/data/rein/xx", r#"{"common_dir":"/home/me/alpha/.git"}"#),
    ];
    let infos = Store::discover_in(&stores);
    let names: Vec<&str> = infos.iter().map(|i| i.project.as_str()).collect();
    assert_eq!(names, vec!["alpha", "yy", "zz"]);
    assert_eq!(infos[1].repo_dir, None);
}

#[test]
fn meta_hints_read_back() {
    let remote = Some(String::from("git@github.com:acme/web.git"));
    let s = at("/data/rein/aaaa", &meta_text("/home/me/web/.git", &remote));
    let info = s.info();
    assert_eq!(info.project, "acme/web");
    assert_eq!(info.repo_dir.as_deref(), Some("/home/me/web"));
    let s = at("/data/rein/aaaa", &meta_text("/home/me/web/.git", &None));
    assert_eq!(s.info().project, "web");
}

#[test]
fn stores_are_found_by_root_by_key_or_not_at_all() {
    let mut place = Place { rein_root: None, key: None, data_home: "/data".into() };
    assert!(Store::resolve(&place).unwrap_err().contains("rein init"));
    place.key = Some("abcd".into());
    assert_eq!(Store::resolve(&place).unwrap(), "/data/rein/abcd");
    place.rein_root = Some(String::new());
    assert_eq!(Store::resolve(&place).unwrap(), "/data/rein/abcd");
    place.rein_root = Some("/elsewhere".into());
    assert_eq!(Store::resolve(&place).unwrap(), "/elsewhere");
}

#[test]
fn a_new_key_is_fresh_and_an_old_one_is_kept() {
    let mut place = Place { rein_root: None, key: None, data_home: "/data".into() };
    let (root, key, created) = Store::resolve_or_create_key(&place);
    assert!(created);
    assert_eq!(key.len(), 36);
    assert_eq!(root, format!("/data/rein/{}", key));
    let (_, other, _) = Store::resolve_or_create_key(&place);
    assert_ne!(key, other);
    place.key = Some("abcd".into());
    let (root, key, created) = Store::resolve_or_create_key(&place);
    assert_eq!((root.as_str(), key.as_str(), created), ("/data/rein/abcd", "abcd", false));
}

#[test]
fn data_home_prefers_xdg() {
    assert_eq!(data_home(Some("/xdg"), Some("/home/me")), "/xdg");
    assert_eq!(data_home(Some(""), Some("/home/me")), "/home/me/.local/share");
    assert_eq!(data_home(None, Some("/home/me")), "/home/me/.local/share");
}

#[test]
fn owners_come_from_the_remote() {
    assert_eq!(repo_owner(Some("git@github.com:acme/web.git")).as_deref(), Some("acme"));
    assert_eq!(repo_owner(Some("not-a-url")), None);
    assert_eq!(repo_owner(None), None);
}

#[test]
fn the_layout_has_a_directory_for_each_status() {
    let dirs = layout_dirs("/store");
    for d in ["inbox", "active", "done", "canceled", "conflicts", "state"] {
        assert!(dirs.contains(&format!("/store/{}", d)), "missing {}", d);
    }
}

#[test]
fn statuses_are_named() {
    for s in [Status::Inbox, Status::Active, Status::Done, Status::Canceled] {
        assert_eq!(Status::parse(s.as_str()), Some(s));
    }
    assert_eq!(Status::parse("nope"), None);
}

#[test]
fn tasks_are_listed_by_status_and_path() {
    let mut s = store(&[("active", "b", "B"), ("inbox", "z", "Z"), ("inbox", "a", "A")]);
    s.files.push(StoreFile { path: "/store/inbox/broken.md".into(), text: "no head".into() });
    s.files.push(StoreFile { path: "/store/inbox/note.txt".into(), text: "---\n---\n".into() });
    let slugs: Vec<String> = s.list_tasks().into_iter().map(|t| t.slug).collect();
    assert_eq!(slugs, vec!["a", "z", "b"]);
    assert_eq!(s.active_count(), 1);
}

#[test]
fn finding_is_exact_first_and_unambiguous() {
    let s = store(&[("inbox", "web", "W"), ("inbox", "web-two", "W2"), ("inbox", "web-three", "W3")]);
    assert_eq!(s.find("web").unwrap().slug, "web");
    assert_eq!(s.find("task-20260613-web-two").unwrap().slug, "web-two");
    assert_eq!(s.find("web-tw").unwrap().slug, "web-two");
    let e = s.find("web-t").unwrap_err();
    assert!(e.contains("ambiguous") && e.contains("web-two") && e.contains("web-three"), "{}", e);
    assert!(s.find("nope").unwrap_err().contains("no task matches"));
}

#[test]
fn tasks_are_known_by_id_and_by_issue() {
    let mut s = store(&[("inbox", "web", "W")]);
    let mut doc = TaskDoc::parse(&s.files[0].text).unwrap();
    doc.front.github_issue = Some(41);
    s.files[0].text = doc.serialize();
    assert_eq!(s.find_by_issue(41).unwrap().slug, "web");
    assert!(s.find_by_issue(42).is_none());
    assert_eq!(s.find_by_id("task-20260613-web").unwrap().slug, "web");
    assert!(s.find_by_id("web").is_none());
}

#[test]
fn new_slugs_are_free() {
    let s = store(&[("inbox", "web", "W"), ("done", "web-2", "W")]);
    assert_eq!(s.unique_slug("web"), "web-3");
    assert_eq!(s.unique_slug("other"), "other");
}

#[test]
fn writing_one_document_keeps_the_others() {
    let s = store(&[("inbox", "a", "A"), ("inbox", "b", "B")]);
    let text = s.files[1].text.replace("title: B", "title: C");
    let after = s.after_write("/store/inbox/b.md", &text);
    assert_eq!(after.files.len(), 2);
    assert_eq!(after.files[0].text, s.files[0].text);
    assert_eq!(after.find("b").unwrap().doc.front.title, "C");
    let more = after.after_write("/store/inbox/c.md", &text);
    assert_eq!(more.files.len(), 3);
    assert!(more.has_file("/store/inbox/c.md") && !after.has_file("/store/inbox/c.md"));
}

fn some_state(path: &str) -> TaskState {
    let mut st = TaskState::default();
    st.path = path.into();
    st
}

#[test]
fn states_read_back() {
    let mut s = Store::at("/store");
    assert_eq!(state_path(&s, "t"), "/store/state/t.json");
    assert_eq!(load(&s, "t").path, "");
    assert_eq!(load(&s, "t").version, 0);
    s.states.push(StoredState { id: "u".into(), state: some_state("active/u.md") });
    let st = save(&some_state("inbox/t.md"));
    assert_eq!(st.version, 1);
    let after = s.after_state("t", st);
    assert_eq!(load(&after, "t").path, "inbox/t.md");
    assert_eq!(load(&after, "u").path, "active/u.md");
}

#[test]
fn resolution_goes_by_flag_pointer_env_and_current_file() {
    let s = store(&[("active", "a", "A"), ("active", "b", "B"), ("active", "c", "C"), ("active", "d", "D")]);
    let mut ctx = Ctx {
        repo: repo(Some("task-20260613-b\n")),
        store: s,
        env_task: Some("task-20260613-c".into()),
    };
    ctx.store.current = Some("task-20260613-d\n".into());
    let (t, source) = resolve_task(&ctx, Some("a")).unwrap();
    assert_eq!((t.slug.as_str(), source), ("a", Source::Flag));
    let (t, source) = resolve_task(&ctx, None).unwrap();
    assert_eq!((t.slug.as_str(), source), ("b", Source::WorktreePointer));
    ctx.repo.pointer = None;
    let (t, source) = resolve_task(&ctx, None).unwrap();
    assert_eq!((t.slug.as_str(), source), ("c", Source::Env));
    ctx.env_task = None;
    let (t, source) = resolve_task(&ctx, None).unwrap();
    assert_eq!((t.slug.as_str(), source), ("d", Source::CurrentFile));
    ctx.store.current = None;
    assert!(resolve_task(&ctx, None).is_err());
    // only the current file is ambiguous while several tasks are active
    assert!(gate_mutation(&ctx, Source::CurrentFile).unwrap_err().contains("--task"));
    for source in [Source::Flag, Source::WorktreePointer, Source::Env] {
        assert_eq!(gate_mutation(&ctx, source), Ok(()));
    }
}

#[test]
fn dangling_bindings_are_errors() {
    let mut ctx = Ctx { repo: repo(Some("ghost\n")), store: store(&[]), env_task: None };
    assert!(resolve_task(&ctx, None).unwrap_err().contains("ghost"));
    ctx.repo.pointer = None;
    ctx.store.current = Some("ghost\n".into());
    assert!(resolve_task(&ctx, None).unwrap_err().contains("ghost"));
}

#[test]
fn slugs_have_one_form() {
    assert_eq!(slugify("Settings  Cleanup!"), "settings-cleanup");
    assert_eq!(slugify(&slugify("A -- B")), slugify("A -- B"));
    assert_eq!(slugify("日本"), "task");
}

#[test]
fn digests_are_those_of_the_standard() {
    assert_eq!(
        sha256_tag("abc"),
        "sha256:ba7816bf8f01cfea414140de5dae2223b00361a396177a9cb410ff61f20015ad"
    );
}

#[test]
fn dates_have_their_forms() {
    let day = today_compact();
    assert_eq!(day.len(), 8);
    assert!(day.chars().all(|c| c.is_ascii_digit()));
    let month = month_dir();
    assert_eq!(month, format!("{}-{}", &day[..4], &day[4..6]));
    let now = now_iso();
    assert_eq!(now.len(), 25);
    assert_eq!(now[..10].replace('-', ""), day);
    assert_eq!(&now[10..11], "T");
}

#[test]
fn paths_are_compared_by_their_components() {
    for (a, b) in [("/a/b", "/a/b/"), ("/a//b", "/a/b"), ("/a/./b/.", "/a/b"), ("a/b", "a//b/")] {
        assert!(same_path(a, b), "{} {}", a, b);
    }
    for (a, b) in [("/a/b", "a/b"), ("/a/b", "/a"), ("./a", "a"), ("/a/../b", "/b"), ("/", "")] {
        assert!(!same_path(a, b), "{} {}", a, b);
    }
}

#[test]
fn a_project_is_listed_once_however_its_store_is_written() {
    let home = Store::discover_in(&vec![Store::at("/data/rein/aaaa/")]).pop();
    let found = Store::discover_in(&vec![Store::at("/data/rein/aaaa"), Store::at("/data/rein/b")]);
    let all = dashboard_projects(&home, &found).unwrap();
    let roots: Vec<&str> = all.iter().map(|p| p.store.root.as_str()).collect();
    assert_eq!(roots, vec!["/data/rein/aaaa/", "/data/rein/b"]);
    assert!(dashboard_projects(&None, &Vec::new()).is_err());
}

#[test]
fn a_fresh_state_forgets_what_was_recorded() {
    let st = TaskState { branch: Some("b".into()), ..TaskState::default() };
    let edits = vec![StateEdit::Fresh, StateEdit::Path("inbox/x.md".into())];
    let new = edit_state(&st, &edits);
    assert_eq!((new.path.as_str(), new.branch), ("inbox/x.md", None));
}

#[test]
fn a_moved_task_is_found_where_it_went() {
    let s = store(&[("inbox", "one", "One"), ("active", "two", "Two")]);
    let t = s.find("one").unwrap();
    let moved = s.find_moved(&t, Status::Done, "2026-06").unwrap();
    assert_eq!(moved.path, "/store/done/2026-06/one.md");
    assert_eq!((moved.slug.as_str(), moved.status), ("one", Status::Done));
    assert_eq!(s.after_move("/store/none.md", "/store/x.md").files.len(), 2);
}

#[test]
fn an_issue_is_known_whatever_surrounds_its_title() {
    // a document with a boundary line, a known key and a carriage return among its lines
    let mut s = store(&[]);
    s.files.push(StoreFile {
        path: "/store/active/odd.md".into(),
        text: "---\nid:  odd \ngithub_issue: 7\nnote\r\n---\r\ntags: [[a, b]\n---\n\n## Tasks\n\n- [ ] one\n".into(),
    });
    let issue = |number: u64, title: &str, body: &str| RemoteIssue {
        number,
        title: title.into(),
        body: body.into(),
    };
    let marked = "<!-- rein:begin  task-x  -->\n\n## Goal\n\nFrom remote\n\n<!-- rein:end -->";
    let issues = vec![
        issue(5, "  Padded title \r", "an idea"),
        issue(6, " ", marked),
        issue(7, "Odd", "no markers"),
    ];
    let now = "2026-06-13T10:00:00+09:00";
    let first = pull_inbox(&s, &issues, "20260613", now);
    assert!(first.error.is_none());
    assert_eq!(first.imported, 2);
    // the item got its id, so that the document was written again
    assert!(first.store.files[0].text.contains("- [ ] <!-- task:"));
    let again = pull_inbox(&first.store, &issues, "20260614", now);
    assert!(again.error.is_none());
    assert_eq!(again.imported, 0);
    assert_eq!(again.store.files.len(), 3);
}
