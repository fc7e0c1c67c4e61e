use notionless::collection::IdMap;
use notionless::helpers::{
    compare_memories as compare_flat, compute_content_hash, decide_sync_action, parse_notion_date,
    resolve_direction, to_lower_hex, Timestamp,
};
use notionless::model::SyncAction;
use notionless::notion::PageSummary;
use notionless::paperless::DocumentRecord;
use notionless::sync::{compare_memories, export_page, plan_sync, unique_markdown, SyncStep};

fn record(id: i64, time: &str, hash: &str) -> DocumentRecord {
    DocumentRecord { document_id: id, last_edited_time: time.to_string(), content_hash: hash.to_string() }
}

fn page(time: &str, title: &str, markdown: &str) -> notionless::sync::ExportedPage {
    let summary = PageSummary { last_edited_time: time.to_string(), title: title.to_string() };
    export_page(&summary, markdown.to_string())
}

#[test]
fn content_hash_is_lowercase_sha256_hex() {
    assert_eq!(
        compute_content_hash(""),
        "e3b0c44298fc1c149afbf4c8996fb92427ae41e4649b934ca495991b7852b855"
    );
    assert_eq!(
        compute_content_hash("abc"),
        "ba7816bf8f01cfea414140de5dae2223b00361a396177a9cb410ff61f20015ad"
    );
    assert_eq!(compute_content_hash("# Title\n\n").len(), 64);
}

#[test]
fn same_content_gives_same_hash_and_different_content_differs() {
    assert_eq!(compute_content_hash("hello\n\n"), compute_content_hash("hello\n\n"));
    assert_ne!(compute_content_hash("hello\n\n"), compute_content_hash("hello!\n\n"));
}

#[test]
fn hex_encoding_writes_two_digits_per_byte() {
    assert_eq!(to_lower_hex(&[0x00, 0x0f, 0xa0, 0xff]), "000fa0ff");
    assert_eq!(to_lower_hex(&[]), "");
}

#[test]
fn notion_dates_parse_to_instants() {
    assert_eq!(
        parse_notion_date("2024-01-01T00:00:00.000Z"),
        Some(Timestamp { seconds: 1704067200, nanos: 0 })
    );
    assert_eq!(
        parse_notion_date("2024-01-01T01:00:00+01:00"),
        Some(Timestamp { seconds: 1704067200, nanos: 0 })
    );
    assert_eq!(
        parse_notion_date("2024-01-01T00:00:00.5Z"),
        Some(Timestamp { seconds: 1704067200, nanos: 500_000_000 })
    );
    assert_eq!(parse_notion_date("yesterday"), None);
    assert_eq!(parse_notion_date(""), None);
}

#[test]
fn direction_goes_to_notion_only_when_paperless_is_strictly_later() {
    let early = Some(Timestamp { seconds: 100, nanos: 0 });
    let late = Some(Timestamp { seconds: 100, nanos: 1 });
    assert_eq!(resolve_direction(early, late), SyncAction::UpdateNotion);
    assert_eq!(resolve_direction(late, early), SyncAction::UpdatePaperless);
    assert_eq!(resolve_direction(early, early), SyncAction::UpdatePaperless);
    assert_eq!(resolve_direction(None, late), SyncAction::UpdatePaperless);
    assert_eq!(resolve_direction(early, None), SyncAction::UpdatePaperless);
}

#[test]
fn matching_hash_is_up_to_date_whatever_the_timestamps() {
    let a = decide_sync_action(Some(("2025-01-02T00:00:00Z", "abc")), "2024-01-01T00:00:00Z", "abc");
    assert_eq!(a, SyncAction::UpToDate);
    let b = decide_sync_action(Some(("not a date", "abc")), "also not", "abc");
    assert_eq!(b, SyncAction::UpToDate);
}

#[test]
fn empty_paperless_hash_never_counts_as_a_match() {
    let a = decide_sync_action(Some(("2024-01-01T00:00:00Z", "")), "2024-01-01T00:00:00Z", "");
    assert_eq!(a, SyncAction::UpdatePaperless);
}

#[test]
fn differing_hash_lets_the_timestamp_decide() {
    let newer_paperless =
        decide_sync_action(Some(("2024-01-02T00:00:00Z", "old")), "2024-01-01T00:00:00Z", "new");
    assert_eq!(newer_paperless, SyncAction::UpdateNotion);
    let newer_notion =
        decide_sync_action(Some(("2024-01-01T00:00:00Z", "old")), "2024-01-02T00:00:00Z", "new");
    assert_eq!(newer_notion, SyncAction::UpdatePaperless);
    // Same minute (Notion rounds), different content: goes to Paperless.
    let same_minute =
        decide_sync_action(Some(("2024-01-01T10:00:00.000Z", "old")), "2024-01-01T10:00:00.000Z", "new");
    assert_eq!(same_minute, SyncAction::UpdatePaperless);
    let unparsable = decide_sync_action(Some(("garbage", "old")), "2024-01-01T00:00:00Z", "new");
    assert_eq!(unparsable, SyncAction::UpdatePaperless);
}

#[test]
fn page_missing_in_paperless_is_created() {
    assert_eq!(decide_sync_action(None, "2024-01-01T00:00:00Z", "abc"), SyncAction::CreateInPaperless);
}

#[test]
fn flat_comparison_decides_every_notion_page() {
    let mut paperless: IdMap<(i64, String, String)> = IdMap::new();
    paperless.insert("a".to_string(), (1, "2024-01-01T00:00:00Z".to_string(), "h1".to_string()));
    paperless.insert("b".to_string(), (2, "2024-01-05T00:00:00Z".to_string(), "old".to_string()));
    paperless.insert("z".to_string(), (9, "2024-01-05T00:00:00Z".to_string(), "zz".to_string()));
    let mut notion: IdMap<(String, String, String)> = IdMap::new();
    notion.insert("a".to_string(), ("2024-02-01T00:00:00Z".to_string(), "A".to_string(), "h1".to_string()));
    notion.insert("b".to_string(), ("2024-01-01T00:00:00Z".to_string(), "B".to_string(), "new".to_string()));
    notion.insert("c".to_string(), ("2024-01-01T00:00:00Z".to_string(), "C".to_string(), "h3".to_string()));
    let actions = compare_flat(&paperless, &notion);
    assert_eq!(actions.len(), 3);
    assert_eq!(actions.get("a"), Some(&SyncAction::UpToDate));
    assert_eq!(actions.get("b"), Some(&SyncAction::UpdateNotion));
    assert_eq!(actions.get("c"), Some(&SyncAction::CreateInPaperless));
    assert_eq!(actions.get("z"), None);
}

#[test]
fn exported_page_carries_the_hash_of_its_markdown() {
    let p = page("2024-01-01T00:00:00Z", "Title", "abc");
    assert_eq!(p.content_hash, "ba7816bf8f01cfea414140de5dae2223b00361a396177a9cb410ff61f20015ad");
    assert_eq!(p.markdown, "abc");
    assert_eq!(p.title, "Title");
    assert_eq!(p.last_edited_time, "2024-01-01T00:00:00Z");
}

#[test]
fn comparison_of_exported_pages() {
    let mut paperless: IdMap<DocumentRecord> = IdMap::new();
    let same = page("2024-01-01T00:00:00Z", "Same", "same content");
    paperless.insert("same".to_string(), record(10, "2030-01-01T00:00:00Z", &same.content_hash));
    paperless.insert("changed".to_string(), record(11, "2024-01-01T00:00:00Z", "stale"));
    let mut notion = IdMap::new();
    notion.insert("same".to_string(), same);
    notion.insert("changed".to_string(), page("2024-03-01T00:00:00Z", "Changed", "new text"));
    notion.insert("new".to_string(), page("2024-03-01T00:00:00Z", "New", "fresh"));
    let actions = compare_memories(&paperless, &notion);
    assert_eq!(actions.get("same"), Some(&SyncAction::UpToDate));
    assert_eq!(actions.get("changed"), Some(&SyncAction::UpdatePaperless));
    assert_eq!(actions.get("new"), Some(&SyncAction::CreateInPaperless));
}

#[test]
fn replacement_upload_is_marked_with_the_edit_time() {
    assert_eq!(
        unique_markdown("body", "2024-01-01T00:00:00Z"),
        "body\n\n---\n*Last updated in Notion: 2024-01-01T00:00:00Z*"
    );
}

#[test]
fn plan_turns_actions_into_steps() {
    let mut paperless: IdMap<DocumentRecord> = IdMap::new();
    paperless.insert("old".to_string(), record(42, "2024-01-01T00:00:00Z", "stale"));
    paperless.insert("newer_there".to_string(), record(43, "2025-01-01T00:00:00Z", "x"));
    let mut notion = IdMap::new();
    notion.insert("fresh".to_string(), page("2024-03-01T00:00:00Z", "Fresh", "fresh"));
    notion.insert("old".to_string(), page("2024-03-01T00:00:00Z", "Old", "changed"));
    notion.insert("newer_there".to_string(), page("2024-03-01T00:00:00Z", "N", "y"));
    let steps = plan_sync(&paperless, &notion);
    assert_eq!(steps.len(), 3);
    assert_eq!(steps[0].0, "fresh");
    match &steps[0].1 {
        SyncStep::Create(p) => {
            assert_eq!(p.notion_id, "fresh");
            assert_eq!(p.title, "Fresh");
            assert_eq!(p.content, "fresh");
            assert_eq!(p.content_hash, compute_content_hash("fresh"));
        }
        other => panic!("unexpected step {:?}", other),
    }
    assert_eq!(steps[1].0, "old");
    match &steps[1].1 {
        SyncStep::Replace(doc, p) => {
            assert_eq!(*doc, 42);
            assert_eq!(p.content, "changed\n\n---\n*Last updated in Notion: 2024-03-01T00:00:00Z*");
            assert_eq!(p.content_hash, compute_content_hash("changed"));
        }
        other => panic!("unexpected step {:?}", other),
    }
    assert_eq!(steps[2].0, "newer_there");
    assert!(matches!(steps[2].1, SyncStep::NotionOutdated));
}

#[test]
fn rerun_over_unchanged_pages_plans_no_upload() {
    let mut notion = IdMap::new();
    notion.insert("a".to_string(), page("2024-03-01T00:00:00Z", "A", "alpha"));
    notion.insert("b".to_string(), page("2024-03-02T00:00:00Z", "B", "beta"));
    let mut paperless: IdMap<DocumentRecord> = IdMap::new();
    for id in ["a", "b"] {
        let p = notion.get(id).unwrap();
        paperless.insert(id.to_string(), record(1, "2020-01-01T00:00:00Z", &p.content_hash));
    }
    let steps = plan_sync(&paperless, &notion);
    assert_eq!(steps.len(), 2);
    assert!(steps.iter().all(|(_, s)| matches!(s, SyncStep::UpToDate)));
}

#[test]
fn rerun_with_pages_newer_in_paperless_writes_nothing() {
    let mut notion = IdMap::new();
    notion.insert("synced".to_string(), page("2024-03-01T00:00:00Z", "S", "same"));
    notion.insert("newer_there".to_string(), page("2024-03-01T00:00:00Z", "N", "notion text"));
    let synced_hash = notion.get("synced").unwrap().content_hash.clone();
    let mut paperless: IdMap<DocumentRecord> = IdMap::new();
    paperless.insert("synced".to_string(), record(1, "2020-01-01T00:00:00Z", &synced_hash));
    paperless.insert("newer_there".to_string(), record(2, "2025-01-01T00:00:00Z", "edited there"));
    for _cycle in 0..2 {
        let steps = plan_sync(&paperless, &notion);
        assert!(matches!(steps[0].1, SyncStep::UpToDate));
        assert!(matches!(steps[1].1, SyncStep::NotionOutdated));
    }
}
