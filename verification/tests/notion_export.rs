use notionless::notion::model::{
    NotionBlock, NotionPage, NotionProperties, NotionResponse, NotionRichTextBlock, NotionTitleProperty,
    RichText,
};
use notionless::notion::{
    bearer_authorization, blocks_url, markdown_from_blocks, notion_version, page_title, NotionListing,
};
use notionless::number::{decimal_chars, parse_i64_chars};
use notionless::text::{chars_of, trim_chars};

fn rt(s: &str) -> RichText {
    RichText { plain_text: s.to_string() }
}

fn text_block(runs: &[&str]) -> Option<NotionRichTextBlock> {
    Some(NotionRichTextBlock { rich_text: runs.iter().map(|r| rt(r)).collect() })
}

fn block(kind: &str) -> NotionBlock {
    NotionBlock { kind: kind.to_string(), paragraph: None, heading_1: None, heading_2: None, heading_3: None }
}

fn notion_page(id: &str, time: &str, title: &[&str]) -> NotionPage {
    NotionPage {
        id: id.to_string(),
        last_edited_time: time.to_string(),
        properties: NotionProperties { name: NotionTitleProperty { title: title.iter().map(|t| rt(t)).collect() } },
    }
}

#[test]
fn markdown_exports_paragraphs_and_headings_only() {
    let mut p = block("paragraph");
    p.paragraph = text_block(&["Hello ", "world"]);
    let mut h1 = block("heading_1");
    h1.heading_1 = text_block(&["Top"]);
    let mut h2 = block("heading_2");
    h2.heading_2 = text_block(&["Mid"]);
    let mut h3 = block("heading_3");
    h3.heading_3 = text_block(&["Low"]);
    let mut list = block("bulleted_list_item");
    list.paragraph = text_block(&["ignored"]);
    let mut wrong = block("heading_1");
    wrong.paragraph = text_block(&["ignored too"]);
    let md = markdown_from_blocks(&vec![h1, p, list, h2, wrong, h3]);
    assert_eq!(md, "# Top\n\nHello world\n\n## Mid\n\n### Low\n\n");
    assert_eq!(markdown_from_blocks(&vec![]), "");
}

#[test]
fn titles_fall_back_to_untitled() {
    assert_eq!(page_title(&vec![rt("First"), rt("Second")]), "First");
    assert_eq!(page_title(&vec![]), "Untitled");
}

#[test]
fn listing_follows_cursors_until_no_more() {
    let mut listing = NotionListing::start();
    assert_eq!(NotionListing::page_size(), 100);
    let next = listing.absorb(NotionResponse {
        results: vec![notion_page("p1", "t1", &["One"]), notion_page("p2", "t2", &[])],
        has_more: true,
        next_cursor: Some("cursor-2".to_string()),
    });
    assert_eq!(next.as_deref(), Some("cursor-2"));
    let stop = listing.absorb(NotionResponse {
        results: vec![notion_page("p1", "t3", &["One again"])],
        has_more: false,
        next_cursor: Some("ignored".to_string()),
    });
    assert_eq!(stop, None);
    let pages = listing.finish();
    assert_eq!(pages.len(), 2);
    assert_eq!(pages.get("p1").unwrap().title, "One again");
    assert_eq!(pages.get("p1").unwrap().last_edited_time, "t3");
    assert_eq!(pages.get("p2").unwrap().title, "Untitled");
}

#[test]
fn listing_stops_without_cursor() {
    let mut listing = NotionListing::start();
    let next = listing.absorb(NotionResponse { results: vec![], has_more: true, next_cursor: None });
    assert_eq!(next, None);
}

#[test]
fn notion_request_parts() {
    assert_eq!(blocks_url("abc"), "https://api.notion.com/v1/blocks/abc/children");
    assert_eq!(bearer_authorization("secret"), "Bearer secret");
    assert_eq!(notion_version(), "2022-06-28");
}

#[test]
fn decimal_text_round_trips() {
    for n in [0i64, 7, 10, 99, 100, -1, -10, 1234567890, i64::MAX, i64::MIN] {
        let text = decimal_chars(n);
        assert_eq!(text.iter().collect::<String>(), n.to_string());
        assert_eq!(parse_i64_chars(&text), Some(n));
    }
}

#[test]
fn parsing_follows_std() {
    for s in ["", "+", "-", "12a", " 1", "1 ", "--1", "+-1", "99999999999999999999999"] {
        assert_eq!(parse_i64_chars(&chars_of(s)), s.parse::<i64>().ok(), "{:?}", s);
    }
    for s in ["0", "+0", "-0", "007", "+42", "-42", "9223372036854775807", "-9223372036854775808"] {
        assert_eq!(parse_i64_chars(&chars_of(s)), s.parse::<i64>().ok(), "{:?}", s);
    }
}

#[test]
fn trimming_follows_std() {
    for s in ["", "  a b  ", "\t\n x \u{3000}", "\u{85}y\u{a0}", "z"] {
        let trimmed: String = trim_chars(&chars_of(s)).iter().collect();
        assert_eq!(trimmed, s.trim());
    }
}
