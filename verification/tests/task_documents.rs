use rein::task::{
    append_item, append_log, body_from_remote, clear_failed, delete_item, edit_item,
    ensure_item_ids, extract_managed, issue_projection, item_sections, replace_managed, scan_items,
    set_checked, set_failed, wrap_managed, TaskDoc,
};

fn sample() -> TaskDoc {
    let mut doc = TaskDoc::template(
        "task-20260613-demo",
        "Demo",
        "inbox",
        "2026-06-13T10:00:00+09:00",
        false,
    );
    doc.body = doc.body.replace(
        "## Tasks\n",
        "## Tasks\n\n- [ ] <!-- task:one --> First thing\n- [ ] Second thing\n",
    );
    doc
}

#[test]
fn roundtrip() {
    let doc = sample();
    let text = doc.serialize();
    let parsed = TaskDoc::parse(&text).unwrap();
    assert_eq!(parsed.front.id, "task-20260613-demo");
    assert_eq!(parsed.serialize(), text);
}

#[test]
fn ids_assigned() {
    let doc = sample();
    let (body, changed) = ensure_item_ids(&doc.body);
    assert!(changed);
    // "one" is non-numeric so the next item gets the first integer
    assert!(body.contains("- [ ] <!-- task:1 --> Second thing"));
}

#[test]
fn sections_align_with_items() {
    let mut doc = sample(); // adds two items under ## Tasks
    doc.body = doc.body.replace(
        "## Validation\n",
        "## Validation\n\n- [ ] <!-- task:v --> Tests pass\n",
    );
    let items = scan_items(&doc.body);
    let sections = item_sections(&doc.body);
    assert_eq!(items.len(), sections.len());
    assert_eq!(sections[0], "Tasks");
    assert_eq!(sections[1], "Tasks");
    assert_eq!(sections[2], "Validation");
}

#[test]
fn check_toggle() {
    let doc = sample();
    let body = set_checked(&doc.body, "one", true).unwrap();
    assert!(body.contains("- [x] <!-- task:one -->"));
    let body = set_checked(&body, "one", false).unwrap();
    assert!(body.contains("- [ ] <!-- task:one -->"));
    assert!(set_checked(&body, "nope", true).is_err());
}

#[test]
fn append_item_adds_to_tasks_section() {
    let doc = sample(); // two items under ## Tasks, then Validation/Notes/Agent Log
    let body = append_item(&doc.body, "Third thing").unwrap();
    let items = scan_items(&body);
    assert_eq!(items.len(), 3);
    assert_eq!(items[2].text, "Third thing");
    assert!(!items[2].checked && !items[2].failed);
    // it landed inside ## Tasks (its section), not past the section break
    let sections = item_sections(&body);
    assert_eq!(sections[2], "Tasks");
    // empty / whitespace text is rejected
    assert!(append_item(&body, "   ").is_err());
    // a following id heal gives the new item a stable integer id
    let (healed, changed) = ensure_item_ids(&body);
    assert!(changed);
    let last = scan_items(&healed).into_iter().last().unwrap();
    assert!(last.id.is_some());
    assert_eq!(last.text, "Third thing");
}

#[test]
fn append_item_creates_tasks_section_when_missing() {
    let body = "## Goal\n\nNo tasks heading here\n";
    let out = append_item(body, "First item").unwrap();
    assert!(out.contains("## Tasks"));
    let items = scan_items(&out);
    assert_eq!(items.len(), 1);
    assert_eq!(items[0].text, "First item");
}

#[test]
fn edit_item_replaces_text_keeping_state_and_id() {
    let doc = sample(); // item "one" open: "First thing"
    // edit an open item: text changes, box + id marker preserved
    let body = edit_item(&doc.body, "one", "Reworded thing").unwrap();
    assert!(body.contains("- [ ] <!-- task:one --> Reworded thing"));
    let it = scan_items(&body)
        .into_iter()
        .find(|i| i.id.as_deref() == Some("one"))
        .unwrap();
    assert!(!it.checked && !it.failed);
    assert_eq!(it.text, "Reworded thing");
    // editing a checked item keeps it checked
    let checked = set_checked(&doc.body, "one", true).unwrap();
    let body = edit_item(&checked, "one", "Still done").unwrap();
    assert!(body.contains("- [x] <!-- task:one --> Still done"));
    // editing a failed item keeps the strikethrough + ❌
    let failed = set_failed(&doc.body, "one").unwrap();
    let body = edit_item(&failed, "one", "Nope but reworded").unwrap();
    assert!(body.contains("~~Nope but reworded~~"));
    let it = scan_items(&body)
        .into_iter()
        .find(|i| i.id.as_deref() == Some("one"))
        .unwrap();
    assert!(it.failed);
    assert_eq!(it.text, "Nope but reworded");
    // empty text and unknown id are errors
    assert!(edit_item(&doc.body, "one", "   ").is_err());
    assert!(edit_item(&doc.body, "nope", "x").is_err());
}

#[test]
fn delete_item_removes_the_line() {
    let mut doc = sample(); // item "one" + an unnumbered "Second thing"
    let (with_ids, _) = ensure_item_ids(&doc.body);
    doc.body = with_ids; // "Second thing" → task:1
    assert_eq!(scan_items(&doc.body).len(), 2);
    let body = delete_item(&doc.body, "one").unwrap();
    let items = scan_items(&body);
    assert_eq!(items.len(), 1);
    assert_eq!(items[0].text, "Second thing");
    // deleting a missing id is an error
    assert!(delete_item(&body, "one").is_err());
}

#[test]
fn fail_roundtrip() {
    let doc = sample(); // item "one": "First thing"
    let body = set_failed(&doc.body, "one").unwrap();
    assert!(body.contains("- [x] <!-- task:one --> <!-- failed --> ~~First thing~~ ❌"));
    // scan reads it as both checked and failed, with the decorations stripped
    let it = scan_items(&body)
        .into_iter()
        .find(|i| i.id.as_deref() == Some("one"))
        .unwrap();
    assert!(it.checked && it.failed);
    assert_eq!(it.text, "First thing");
    // marking again is idempotent
    assert_eq!(set_failed(&body, "one").unwrap(), body);
    // clearing restores the original open item
    let reopened = clear_failed(&body, "one").unwrap();
    assert!(reopened.contains("- [ ] <!-- task:one --> First thing"));
    let it = scan_items(&reopened)
        .into_iter()
        .find(|i| i.id.as_deref() == Some("one"))
        .unwrap();
    assert!(!it.checked && !it.failed);
    // reopening a non-failed item is an error; unknown id is too
    assert!(clear_failed(&reopened, "one").is_err());
    assert!(set_failed(&doc.body, "nope").is_err());
}

#[test]
fn projection_excludes_log() {
    let mut doc = sample();
    doc.body = append_log(&doc.body, "2026-06-13 did something");
    let proj = issue_projection(&doc);
    assert!(proj.contains("rein:begin task-20260613-demo"));
    assert!(proj.contains("First thing"));
    assert!(!proj.contains("did something"));
    let (id, block, inner) = extract_managed(&proj).unwrap();
    assert_eq!(id, "task-20260613-demo");
    assert_eq!(block.trim(), proj.trim());
    assert!(inner.contains("## Goal"));
}

#[test]
fn managed_replace_preserves_outside() {
    let remote =
        "human intro\n\n<!-- rein:begin t1 -->\n\nold\n\n<!-- rein:end -->\n\nhuman outro";
    let updated = replace_managed(remote, &wrap_managed("t1", "new content"));
    assert!(updated.contains("human intro"));
    assert!(updated.contains("human outro"));
    assert!(updated.contains("new content"));
    assert!(!updated.contains("old"));
}

#[test]
fn pull_preserves_log() {
    let mut doc = sample();
    doc.body = append_log(&doc.body, "kept entry");
    let new_body = body_from_remote("## Goal\n\nUpdated goal", &doc.body);
    assert!(new_body.contains("Updated goal"));
    assert!(new_body.contains("kept entry"));
}
