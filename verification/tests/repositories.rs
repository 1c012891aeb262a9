use rein::gitx::parse_worktrees;
use rein::projects::owner_repo_from_remote;
use rein::sync::{plan, SyncPlan};
use rein::util::slugify;

#[test]
fn parses_porcelain_worktree_list() {
    let out = "\
worktree /repo
HEAD abc123
branch refs/heads/main

worktree /repo/.wt/feat
HEAD def456
branch refs/heads/feat
locked

worktree /repo/.wt/detached
HEAD 0a0a0a
detached

worktree /repo/.wt/gone
HEAD 111222
branch refs/heads/gone
prunable gitdir file points to non-existent location
";
    let wts = parse_worktrees(out);
    assert_eq!(wts.len(), 4);

    // first entry is the main worktree
    assert_eq!(wts[0].path, "/repo");
    assert_eq!(wts[0].branch.as_deref(), Some("main"));
    assert!(wts[0].is_main);
    assert!(!wts[0].locked);

    // a locked, branch-backed linked worktree
    assert_eq!(wts[1].branch.as_deref(), Some("feat"));
    assert!(wts[1].locked);
    assert!(!wts[1].is_main);

    // detached: no branch, but a HEAD
    assert_eq!(wts[2].branch, None);
    assert!(wts[2].detached);
    assert_eq!(wts[2].head.as_deref(), Some("0a0a0a"));

    // prunable carries a reason after the keyword
    assert!(wts[3].prunable);
    assert_eq!(wts[3].branch.as_deref(), Some("gone"));
}

#[test]
fn parses_bare_main_worktree() {
    let out = "worktree /repo\nbare\n";
    let wts = parse_worktrees(out);
    assert_eq!(wts.len(), 1);
    assert!(wts[0].bare);
    assert!(wts[0].is_main);
    assert_eq!(wts[0].head, None);
    assert_eq!(wts[0].branch, None);
}

#[test]
fn owner_repo_parses_https_and_ssh() {
    assert_eq!(
        owner_repo_from_remote("https://github.com/acme/web.git").as_deref(),
        Some("acme/web")
    );
    assert_eq!(
        owner_repo_from_remote("git@github.com:acme/web.git").as_deref(),
        Some("acme/web")
    );
    assert_eq!(
        owner_repo_from_remote("https://gitlab.com/group/sub/proj").as_deref(),
        Some("sub/proj")
    );
    assert_eq!(owner_repo_from_remote("not-a-url"), None);
}

#[test]
fn three_way_table() {
    let base = "sha256:aaa";
    assert_eq!(plan(Some(base), base, Some(base)), SyncPlan::UpToDate);
    assert_eq!(plan(Some(base), "sha256:bbb", Some(base)), SyncPlan::Push);
    assert_eq!(plan(Some(base), base, Some("sha256:ccc")), SyncPlan::Pull);
    assert_eq!(
        plan(Some(base), "sha256:bbb", Some("sha256:ccc")),
        SyncPlan::Conflict
    );
    // missing base (lost state) with both sides present → conflict fallback
    assert_eq!(
        plan(None, "sha256:bbb", Some("sha256:ccc")),
        SyncPlan::Conflict
    );
    // no remote section yet → first push
    assert_eq!(plan(None, "sha256:bbb", None), SyncPlan::Push);
}

#[test]
fn slugify_basic() {
    assert_eq!(slugify("Settings Cleanup!"), "settings-cleanup");
    assert_eq!(slugify("  a  b  "), "a-b");
    assert_eq!(slugify("한글 제목"), "task");
}
