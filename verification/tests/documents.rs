use rein::sync::{check_ownership, hash_block, plan, remote_block, SyncPlan};
use rein::task::{
    append_item, append_log, body_from_remote, body_without_log, clear_failed, delete_item,
    edit_item, ensure_item_ids, extract_managed, issue_projection, item_sections, log_section,
    number_ranges, pr_projection, replace_managed, scan_items, section_content,
    set_checked, set_failed, set_section_content, wrap_managed, DocError, ItemError, TaskDoc,
};

const BODY: &str = "## Tasks\n\n- [ ] <!-- task:1 --> one\n- [x] <!-- task:2 --> two\n\n## Validation\n\n- [ ] <!-- task:3 --> three\n";

fn doc() -> TaskDoc {
    let mut d = TaskDoc::template("task-1", "Demo", "inbox", "2026-06-13T10:00:00+09:00", true);
    d.body = String::from(BODY);
    d
}

#[test]
fn documents_read_back_and_are_stable() {
    let mut d = doc();
    d.front.github_issue = Some(41);
    d.front.branch = Some("demo".into());
    d.front.tags = vec!["ui".into(), "cleanup".into()];
    d.front.extra = vec!["custom: kept".into()];
    let text = d.serialize();
    let back = TaskDoc::parse(&text).unwrap();
    assert_eq!(back.front.id, "task-1");
    assert_eq!(back.front.title, "Demo");
    assert_eq!(back.front.github_issue, Some(41));
    assert_eq!(back.front.branch.as_deref(), Some("demo"));
    assert_eq!(back.front.tags, vec!["ui", "cleanup"]);
    assert!(back.front.shared);
    assert_eq!(back.front.extra, vec!["custom: kept"]);
    assert_eq!(back.body.trim(), BODY.trim());
    assert_eq!(back.serialize(), text);
}

#[test]
fn touching_changes_only_the_time() {
    let mut d = doc();
    d.touch_at("2026-06-14T12:00:00+09:00");
    assert_eq!(d.front.updated_at, "2026-06-14T12:00:00+09:00");
    assert_eq!(d.front.created_at, "2026-06-13T10:00:00+09:00");
    assert_eq!(d.body, BODY);
}

#[test]
fn documents_need_a_frontmatter() {
    assert!(matches!(TaskDoc::parse("# no head\n"), Err(DocError::NoFrontmatter)));
    assert!(matches!(TaskDoc::parse("---\nid: x\n"), Err(DocError::Unterminated)));
}

#[test]
fn healing_keeps_ids_gives_fresh_ones_and_ends() {
    let body = "- [ ] <!-- task:7 --> seven\n- [ ] new\n- [ ] other\n";
    let (healed, changed) = ensure_item_ids(body);
    assert!(changed);
    assert_eq!(
        healed,
        "- [ ] <!-- task:7 --> seven\n- [ ] <!-- task:8 --> new\n- [ ] <!-- task:9 --> other\n"
    );
    assert_eq!(ensure_item_ids(&healed), (healed.clone(), false));
}

#[test]
fn every_item_has_a_section() {
    assert_eq!(item_sections(BODY), vec!["Tasks", "Tasks", "Validation"]);
    assert_eq!(scan_items(BODY).len(), 3);
}

#[test]
fn checking_sets_one_box() {
    let body = set_checked(BODY, "3", true).unwrap();
    assert_eq!(body, BODY.replace("- [ ] <!-- task:3", "- [x] <!-- task:3"));
    assert_eq!(set_checked(&body, "3", true).unwrap(), body);
}

#[test]
fn failing_marks_one_item_and_retrying_undoes_it() {
    let failed = set_failed(BODY, "1").unwrap();
    assert!(failed.contains("- [x] <!-- task:1 --> <!-- failed --> ~~one~~ ❌"));
    assert!(scan_items(&failed)[0].failed);
    assert!(!scan_items(&failed)[2].failed);
    assert_eq!(clear_failed(&failed, "1").unwrap(), BODY);
    assert!(matches!(clear_failed(BODY, "2"), Err(ItemError::NotFailed(_))));
}

#[test]
fn items_are_reworded_removed_and_added() {
    let edited = edit_item(BODY, "2", "zwei").unwrap();
    assert_eq!(edited, BODY.replace("task:2 --> two", "task:2 --> zwei"));
    let removed = delete_item(BODY, "2").unwrap();
    assert_eq!(removed, BODY.replace("- [x] <!-- task:2 --> two\n", ""));
    let added = append_item(BODY, "four").unwrap();
    assert_eq!(scan_items(&added).len(), 4);
    assert_eq!(scan_items(&added)[2].text, "four");
    assert_eq!(item_sections(&added)[2], "Tasks");
}

#[test]
fn bad_items_are_refused() {
    assert!(matches!(append_item(BODY, "  "), Err(ItemError::EmptyText)));
    assert!(matches!(edit_item(BODY, "1", " "), Err(ItemError::EmptyText)));
    for e in [
        set_checked(BODY, "9", true).unwrap_err(),
        set_failed(BODY, "9").unwrap_err(),
        clear_failed(BODY, "9").unwrap_err(),
        delete_item(BODY, "9").unwrap_err(),
        edit_item(BODY, "9", "x").unwrap_err(),
    ] {
        assert_eq!(e.message(), "item '9' not found");
    }
}

#[test]
fn a_line_with_a_second_box_keeps_it() {
    // the first box on the line is the one that is set
    let body = "- [x] <!-- task:1 --> foo - [ ] bar\n";
    assert_eq!(
        set_checked(body, "1", false).unwrap(),
        "- [ ] <!-- task:1 --> foo - [ ] bar\n"
    );
}

#[test]
fn runs_of_numbers_fold() {
    let ids = |s: &str| -> Vec<String> { s.split(' ').map(|x| x.to_string()).collect() };
    assert_eq!(number_ranges(&ids("1 2 3")), "1~3");
    assert_eq!(number_ranges(&ids("2 3")), "2,3");
    assert_eq!(number_ranges(&ids("1 3 5")), "1,3,5");
    assert_eq!(number_ranges(&ids("1 2 3 4 7 x 9")), "1~4,7,x,9");
    assert_eq!(number_ranges(&Vec::new()), "");
}

#[test]
fn blocks_read_back() {
    let block = wrap_managed("task-1", "inner text");
    assert_eq!(
        extract_managed(&block).map(|(id, _, inner)| (id, inner)),
        Some((String::from("task-1"), String::from("inner text")))
    );
    let remote = "human intro\n\nhuman outro";
    let written = replace_managed(remote, &block);
    assert!(written.starts_with("human intro"));
    let again = replace_managed(&written, &wrap_managed("task-1", "new"));
    assert!(again.contains("human intro") && again.contains("human outro"));
    assert_eq!(extract_managed(&again).map(|(_, _, inner)| inner), Some(String::from("new")));
    assert!(!again.contains("inner text"));
}

#[test]
fn foreign_blocks_are_refused() {
    let remote = wrap_managed("task-2", "theirs");
    let e = check_ownership(&remote, "task-1").unwrap_err();
    assert!(e.contains("'task-2'") && e.contains("'task-1'"), "{}", e);
    assert_eq!(check_ownership(&remote, "task-2"), Ok(()));
    assert_eq!(check_ownership("nothing managed", "task-1"), Ok(()));
}

#[test]
fn the_three_way_table() {
    assert_eq!(plan(Some("a"), "a", Some("a")), SyncPlan::UpToDate);
    assert_eq!(plan(Some("a"), "b", Some("a")), SyncPlan::Push);
    assert_eq!(plan(Some("a"), "a", Some("b")), SyncPlan::Pull);
    assert_eq!(plan(Some("a"), "b", Some("c")), SyncPlan::Conflict);
    assert_eq!(plan(Some("a"), "b", Some("b")), SyncPlan::Conflict);
    assert_eq!(plan(None, "a", None), SyncPlan::Push);
    assert_eq!(plan(None, "a", Some("a")), SyncPlan::Conflict);
    assert_eq!(plan(Some("a"), "a", None), SyncPlan::UpToDate);
}

#[test]
fn what_was_pushed_is_up_to_date() {
    let block = issue_projection(&doc());
    let remote = replace_managed("human text", &block);
    let seen = remote_block(&remote).unwrap();
    assert_eq!(seen, block);
    let base = hash_block(&block);
    assert_eq!(plan(Some(&base), &base, Some(&hash_block(&seen))), SyncPlan::UpToDate);
}

#[test]
fn the_log_stays_local() {
    let mut d = doc();
    let before = issue_projection(&d);
    d.body = append_log(&d.body, "- progress");
    assert_eq!(issue_projection(&d), before);
    assert!(pr_projection(&d).contains("- progress"));
    assert!(!body_without_log(&d.body).contains("progress"));
    assert!(log_section(&d.body).unwrap().contains("- progress"));
}

#[test]
fn pulling_keeps_the_log() {
    let local = append_log(BODY, "- progress");
    let pulled = body_from_remote("## Tasks\n\n- [ ] <!-- task:1 --> changed", &local);
    assert!(pulled.contains("changed"));
    assert!(!pulled.contains("<!-- task:2 -->"));
    assert_eq!(log_section(&pulled), log_section(&local));
}

#[test]
fn sections_read_back() {
    let body = set_section_content(BODY, "## Tasks", "now this");
    assert_eq!(section_content(&body, "## Tasks").as_deref(), Some("now this"));
    assert_eq!(item_sections(&body), vec!["Validation"]);
    assert_eq!(section_content(&body, "## Goal"), None);
    let body = set_section_content(&body, "## Goal", "aim");
    assert_eq!(section_content(&body, "## Goal").as_deref(), Some("aim"));
    assert_eq!(section_content(&body, "## Tasks").as_deref(), Some("now this"));
}

#[test]
fn healing_counts_on_whatever_ends_a_line() {
    let body = "- [ ] <!-- task:7 --> seven\r\r\n- [ ] new\r\n- [ ] other\r";
    let (healed, changed) = ensure_item_ids(body);
    assert!(changed);
    assert_eq!(
        healed,
        "- [ ] <!-- task:7 --> seven\r\n- [ ] <!-- task:8 --> new\n- [ ] <!-- task:9 --> other\r\n"
    );
    let (before, after) = (scan_items(body), scan_items(&healed));
    assert_eq!(after.len(), 3);
    for (old, new) in before.iter().zip(&after) {
        assert_eq!((old.line, old.checked, old.failed), (new.line, new.checked, new.failed));
        assert_eq!(old.text, new.text);
    }
    let ids: Vec<&str> = after.iter().map(|i| i.id.as_deref().unwrap()).collect();
    assert_eq!(ids, vec!["7", "8", "9"]);
    assert_eq!(ensure_item_ids(&healed), (healed.clone(), false));
}

#[test]
fn a_new_item_gets_its_section() {
    let body = "intro\n- [x] <!-- task:1 --> one  \r\n \n";
    let added = append_item(body, " four ").unwrap();
    assert_eq!(
        added,
        "intro\n- [x] <!-- task:1 --> one\n\n## Tasks\n\n- [ ] four\n"
    );
    let its = scan_items(&added);
    assert_eq!(its.len(), 2);
    assert_eq!((its[0].text.as_str(), its[0].line), ("one", 1));
    assert_eq!((its[1].id.as_deref(), its[1].checked, its[1].failed), (None, false, false));
    assert_eq!((its[1].text.as_str(), its[1].line), ("four", 5));
    assert_eq!(append_item(" \n", "x").unwrap(), "\n\n## Tasks\n\n- [ ] x\n");
}

#[test]
fn failing_twice_is_failing_once() {
    let body = "intro\n- [ ] <!-- task: a  --> text\r";
    let failed = set_failed(body, " a ").unwrap();
    assert_eq!(failed, "intro\n- [x] <!-- task: a  --> <!-- failed --> ~~text~~ ❌\n");
    assert_eq!(set_failed(&failed, " a ").unwrap(), failed);
    assert_eq!(scan_items(&failed)[0].id.as_deref(), Some("a"));
}

#[test]
fn the_log_grows_at_its_end() {
    let body = "## Agent Log\n\n- a\n\n## After\n\nx\n";
    let logged = append_log(body, "b ");
    assert_eq!(body_without_log(&logged), body_without_log(body));
    assert_eq!(log_section(body).as_deref(), Some("- a"));
    assert_eq!(log_section(&logged).as_deref(), Some("- a\n\n- b"));
    let fresh = append_log("x\n", "");
    assert_eq!(log_section(&fresh).as_deref(), Some("<!-- append-only -->\n-"));
}

#[test]
fn the_last_block_wins() {
    let (one, two) = (wrap_managed(" t ", "old\ntext"), wrap_managed("t", "new"));
    for remote in ["", " \n", "Human\n\ntext\n \n", "x\n<!-- rein:begin t -->\n<!-- rein:end -->\ny"] {
        let once = replace_managed(remote, &two);
        assert_eq!(replace_managed(&replace_managed(remote, &one), &two), once);
        assert_eq!(once.matches("rein:begin").count(), 1);
    }
    assert_eq!(replace_managed("Human\n\n", &two), format!("Human\n\n{}\n", two));
    assert_eq!(replace_managed(" \n", &two), format!("{}\n", two));
}

#[test]
fn a_pushed_block_reads_back_among_carriage_returns() {
    let block = wrap_managed("t", "content");
    let hash = hash_block(&block);
    for remote in [
        "Human\r\r\ntext\r",
        "a\r\r\n<!-- rein:begin t -->\r\n\r\nx\r\n\r\n<!-- rein:end -->\r\nb\r",
    ] {
        let pushed = replace_managed(remote, &block);
        assert_eq!(remote_block(&pushed).as_deref(), Some(block.as_str()));
        let seen = hash_block(&remote_block(&pushed).unwrap());
        assert!(matches!(plan(Some(&hash), &hash, Some(&seen)), SyncPlan::UpToDate));
    }
}
