use notionless::paperless::model::{
    CustomFieldDefinition, CustomFieldIds, CustomFieldListResponse, CustomFieldValue, PaperlessDocument,
    PaperlessResponse,
};
use notionless::paperless::{
    base_domain, clean_token, custom_fields_create_url, custom_fields_list_url, deletion_accepted,
    document_record, document_to_adopt, document_url, field_name_content_hash, field_name_last_edited,
    field_name_notion_id, link_fields, markdown_file_name, merge_custom_fields, normalize_next_url,
    parse_duplicate_document_id, task_status_url, task_verdict, token_authorization, trash_url,
    upload_task_id, upload_url, DocumentListing, FieldCatalog, NotionPageRef, TaskReport, TaskResult,
    TaskStep, TaskWatch,
};

const IDS: CustomFieldIds = CustomFieldIds { notion_id: 1, last_edited: 2, content_hash: 3 };

fn cf(field: i64, value: Option<&str>) -> CustomFieldValue {
    CustomFieldValue { field, value: value.map(|v| v.to_string()) }
}

fn views(cfs: &[CustomFieldValue]) -> Vec<(i64, Option<String>)> {
    cfs.iter().map(|c| (c.field, c.value.clone())).collect()
}

#[test]
fn endpoints_are_built_on_the_base() {
    let base = "https://p.example.dev";
    assert_eq!(custom_fields_list_url(base), "https://p.example.dev/api/custom_fields/?page_size=100");
    assert_eq!(custom_fields_create_url(base), "https://p.example.dev/api/custom_fields/");
    assert_eq!(document_url(base, 327), "https://p.example.dev/api/documents/327/");
    assert_eq!(document_url(base, -5), "https://p.example.dev/api/documents/-5/");
    assert_eq!(trash_url(base), "https://p.example.dev/api/trash/");
    assert_eq!(upload_url(base), "https://p.example.dev/api/documents/post_document/");
    assert_eq!(task_status_url(base, "abc-1"), "https://p.example.dev/api/tasks/?task_id=abc-1");
    assert_eq!(token_authorization("t0k"), "Token t0k");
    assert_eq!(markdown_file_name("My page"), "My page.md");
    assert_eq!(clean_token("  t0k \n"), "t0k");
}

#[test]
fn base_domain_edge_cases() {
    assert_eq!(base_domain("  https://p.example.dev///  "), "https://p.example.dev");
    assert_eq!(base_domain("https://p.example.dev/sub/api/documents/"), "https://p.example.dev/sub");
    assert_eq!(base_domain("https://p.example.dev/apiary"), "https://p.example.dev");
    assert_eq!(base_domain(""), "");
    assert_eq!(base_domain("https://api.example.com/api/documents/"), "https://api.example.com");
    assert_eq!(base_domain("http://api:8000/api/"), "http://api:8000");
    assert_eq!(base_domain("https://api.example.com"), "https://api.example.com");
    assert_eq!(base_domain("paperless.local/api/documents/"), "paperless.local");
    assert!(!base_domain("http://x/api/").ends_with('/'));
}

#[test]
fn next_url_without_scheme_or_path() {
    assert_eq!(normalize_next_url("/api/documents/?page=3", "https://b"), "https://b/api/documents/?page=3");
    assert_eq!(normalize_next_url("http://host", "https://b"), "https://b/");
    assert_eq!(normalize_next_url("http://host/api/x", "https://b"), "https://b/api/x/");
    assert_eq!(normalize_next_url("?page=2", "https://b"), "https://b/?page=2");
    assert_eq!(
        normalize_next_url("http://paperless.local:8000?page=2", "http://paperless.local:8000"),
        "http://paperless.local:8000/?page=2"
    );
    assert_eq!(normalize_next_url("http://h?x=/a", "https://b"), "https://b/?x=/a");
    assert_eq!(normalize_next_url("http://h:1/p?x=/a", "https://b"), "https://b/p/?x=/a");
}

#[test]
fn duplicate_id_edge_cases() {
    assert_eq!(parse_duplicate_document_id("dup (#1) and again (# 42 )."), Some(42));
    assert_eq!(parse_duplicate_document_id("(#-7)"), Some(-7));
    assert_eq!(parse_duplicate_document_id("(#+7)"), Some(7));
    assert_eq!(parse_duplicate_document_id("(#12"), None);
    assert_eq!(parse_duplicate_document_id("(#x1)"), None);
    assert_eq!(parse_duplicate_document_id("(#)"), None);
    assert_eq!(parse_duplicate_document_id("(#9223372036854775807)"), Some(i64::MAX));
    assert_eq!(parse_duplicate_document_id("(#9223372036854775808)"), None);
    assert_eq!(parse_duplicate_document_id("(#-9223372036854775808)"), Some(i64::MIN));
}

#[test]
fn duplicate_message_round_trip() {
    for n in [0i64, 5, 327, -12, i64::MAX, i64::MIN] {
        let msg = format!("x.md: It is a duplicate of x (#{}).", n);
        assert_eq!(parse_duplicate_document_id(&msg), Some(n));
    }
}

#[test]
fn document_record_reads_the_link_fields() {
    let doc = PaperlessDocument {
        id: 7,
        custom_fields: vec![cf(9, Some("other")), cf(1, Some("page")), cf(2, Some("t")), cf(3, Some("h"))],
    };
    let (id, rec) = document_record(&doc, &IDS).unwrap();
    assert_eq!(id, "page");
    assert_eq!(rec.document_id, 7);
    assert_eq!(rec.last_edited_time, "t");
    assert_eq!(rec.content_hash, "h");
}

#[test]
fn document_record_needs_id_and_time_and_takes_last_value() {
    let no_time = PaperlessDocument { id: 1, custom_fields: vec![cf(1, Some("page"))] };
    assert!(document_record(&no_time, &IDS).is_none());
    let nulled = PaperlessDocument { id: 1, custom_fields: vec![cf(1, Some("page")), cf(2, Some("t")), cf(1, None)] };
    assert!(document_record(&nulled, &IDS).is_none());
    let no_hash = PaperlessDocument { id: 2, custom_fields: vec![cf(2, Some("t")), cf(1, Some("a")), cf(1, Some("b"))] };
    let (id, rec) = document_record(&no_hash, &IDS).unwrap();
    assert_eq!(id, "b");
    assert_eq!(rec.content_hash, "");
}

#[test]
fn uploaded_link_fields_read_back() {
    let page = NotionPageRef { notion_id: "page", last_edited_time: "t", content_hash: "h" };
    let fields = link_fields(&IDS, &page);
    assert_eq!(
        views(&fields),
        vec![(1, Some("page".to_string())), (2, Some("t".to_string())), (3, Some("h".to_string()))]
    );
    let doc = PaperlessDocument { id: 5, custom_fields: fields };
    let (id, rec) = document_record(&doc, &IDS).unwrap();
    assert_eq!((id.as_str(), rec.document_id, rec.last_edited_time.as_str(), rec.content_hash.as_str()), ("page", 5, "t", "h"));
}

#[test]
fn merge_keeps_other_fields_and_is_idempotent() {
    let page = NotionPageRef { notion_id: "page", last_edited_time: "t", content_hash: "h" };
    let existing = vec![cf(9, Some("keep")), cf(2, Some("stale")), cf(8, None), cf(1, Some("old"))];
    let merged = merge_custom_fields(&existing, &IDS, &page);
    assert_eq!(
        views(&merged),
        vec![
            (9, Some("keep".to_string())),
            (8, None),
            (1, Some("page".to_string())),
            (2, Some("t".to_string())),
            (3, Some("h".to_string())),
        ]
    );
    let again = merge_custom_fields(&merged, &IDS, &page);
    assert_eq!(views(&again), views(&merged));
    let doc = PaperlessDocument { id: 11, custom_fields: merged };
    let (id, rec) = document_record(&doc, &IDS).unwrap();
    assert_eq!((id.as_str(), rec.document_id, rec.content_hash.as_str()), ("page", 11, "h"));
}

#[test]
fn document_listing_walks_pages() {
    let (mut listing, first) = DocumentListing::start("http://p.local:8000/api/documents/", &IDS);
    assert_eq!(first, "http://p.local:8000/api/documents/");
    let page1 = PaperlessResponse {
        next: Some("http://p.local/api/documents/?page=2".to_string()),
        results: vec![
            PaperlessDocument { id: 1, custom_fields: vec![cf(1, Some("a")), cf(2, Some("t1"))] },
            PaperlessDocument { id: 2, custom_fields: vec![cf(9, Some("unrelated"))] },
        ],
    };
    let next = listing.absorb(page1);
    assert_eq!(next.as_deref(), Some("http://p.local:8000/api/documents/?page=2"));
    let page2 = PaperlessResponse {
        next: None,
        results: vec![PaperlessDocument { id: 3, custom_fields: vec![cf(1, Some("a")), cf(2, Some("t3")), cf(3, Some("h3"))] }],
    };
    assert_eq!(listing.absorb(page2), None);
    let records = listing.finish();
    assert_eq!(records.len(), 1);
    let rec = records.get("a").unwrap();
    assert_eq!(rec.document_id, 3);
    assert_eq!(rec.content_hash, "h3");
}

#[test]
fn field_catalog_resolves_names() {
    let (mut catalog, first) = FieldCatalog::start("https://p.dev");
    assert_eq!(first, "https://p.dev/api/custom_fields/?page_size=100");
    let next = catalog.absorb(CustomFieldListResponse {
        next: Some("http://p.dev/api/custom_fields/?page=2&page_size=100".to_string()),
        results: vec![
            CustomFieldDefinition { id: 4, name: "notion_id".to_string() },
            CustomFieldDefinition { id: 5, name: "other".to_string() },
        ],
    });
    assert_eq!(next.as_deref(), Some("https://p.dev/api/custom_fields/?page=2&page_size=100"));
    let end = catalog.absorb(CustomFieldListResponse {
        next: None,
        results: vec![CustomFieldDefinition { id: 6, name: "notion_last_edited".to_string() }],
    });
    assert_eq!(end, None);
    assert_eq!(catalog.lookup(field_name_notion_id()), Some(4));
    assert_eq!(catalog.lookup(field_name_last_edited()), Some(6));
    assert_eq!(catalog.lookup(field_name_content_hash()), None);
    assert_eq!(field_name_content_hash(), "notion_content_hash");
}

fn report(status: Option<&str>, result: Option<&str>) -> Option<TaskReport> {
    Some(TaskReport { status: status.map(|s| s.to_string()), result: result.map(|s| s.to_string()) })
}

#[test]
fn task_reports_settle_or_wait() {
    assert!(matches!(task_verdict(report(Some("SUCCESS"), None)), Some(TaskResult::Success)));
    match task_verdict(report(Some("FAILURE"), Some("It is a duplicate of x (#3)."))) {
        Some(TaskResult::Failure(m)) => assert_eq!(m, "It is a duplicate of x (#3)."),
        other => panic!("unexpected {:?}", other),
    }
    match task_verdict(report(Some("FAILURE"), None)) {
        Some(TaskResult::Failure(m)) => assert_eq!(m, "(no reason given)"),
        other => panic!("unexpected {:?}", other),
    }
    assert!(task_verdict(report(Some("PENDING"), None)).is_none());
    assert!(task_verdict(report(None, None)).is_none());
    assert!(task_verdict(None).is_none());
}

#[test]
fn task_watch_gives_up_after_ten_reports() {
    let mut watch = TaskWatch::new();
    for _ in 0..9 {
        assert!(matches!(watch.observe(report(Some("STARTED"), None)), TaskStep::PollAgain));
    }
    assert!(matches!(watch.observe(None), TaskStep::GiveUp));
    assert!(matches!(watch.observe(report(Some("SUCCESS"), None)), TaskStep::GiveUp));
    let mut quick = TaskWatch::new();
    assert!(matches!(quick.observe(report(Some("SUCCESS"), None)), TaskStep::Finished(TaskResult::Success)));
}

#[test]
fn upload_task_ids_and_adoption() {
    assert_eq!(upload_task_id("  abc-123 \n"), Some("abc-123".to_string()));
    assert_eq!(upload_task_id("   "), None);
    assert_eq!(document_to_adopt(&TaskResult::Failure("It is a duplicate of moin (#327).".to_string())), Some(327));
    assert_eq!(document_to_adopt(&TaskResult::Failure("broken file".to_string())), None);
    assert_eq!(document_to_adopt(&TaskResult::Success), None);
    assert_eq!(document_to_adopt(&TaskResult::Timeout), None);
}

#[test]
fn deletion_status_codes() {
    assert!(deletion_accepted(204));
    assert!(deletion_accepted(200));
    assert!(!deletion_accepted(404));
    assert!(!deletion_accepted(302));
}

#[test]
fn linked_page_is_up_to_date_next_cycle() {
    let hash = notionless::helpers::compute_content_hash("# Page\n\n");
    let page = NotionPageRef { notion_id: "page", last_edited_time: "2024-01-01T00:00:00Z", content_hash: &hash };
    for existing in [vec![], vec![cf(9, Some("keep")), cf(3, Some("stale hash"))]] {
        let doc = PaperlessDocument { id: 77, custom_fields: merge_custom_fields(&existing, &IDS, &page) };
        let (id, rec) = document_record(&doc, &IDS).unwrap();
        assert_eq!(id, "page");
        let action = notionless::helpers::decide_sync_action(
            Some((&rec.last_edited_time, &rec.content_hash)),
            "2030-06-01T12:00:00Z",
            &hash,
        );
        assert_eq!(action, notionless::model::SyncAction::UpToDate);
    }
}

#[test]
fn base_domain_never_keeps_api_or_trailing_slash() {
    for url in ["http://x/api/", "https://y:1/api/api/", "https://z//", " https://w/api ", "https://api.w/api/x"] {
        let b = base_domain(url);
        assert!(!b.ends_with('/'), "{:?}", b);
        let after_scheme = b.split_once("://").map(|(_, rest)| rest).unwrap_or(&b);
        assert!(!after_scheme.contains("/api"), "{:?}", b);
    }
}
