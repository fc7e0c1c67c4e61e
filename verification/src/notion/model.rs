//! The Notion API records that the synchronisation reads.

use vstd::prelude::*;

verus! {

/// A run of plain text, used both for database titles and block content.
#[derive(Debug)]
pub struct RichText {
    pub plain_text: String,
}

/// One page of a Notion database query.
#[derive(Debug)]
pub struct NotionResponse {
    pub results: Vec<NotionPage>,
    pub has_more: bool,
    pub next_cursor: Option<String>,
}

/// A Notion page as listed by a database query.
#[derive(Debug)]
pub struct NotionPage {
    pub id: String,
    pub last_edited_time: String,
    pub properties: NotionProperties,
}

/// The properties of a Notion page that the synchronisation reads.
#[derive(Debug)]
pub struct NotionProperties {
    pub name: NotionTitleProperty,
}

/// The `Name` title property of a Notion page.
#[derive(Debug)]
pub struct NotionTitleProperty {
    pub title: Vec<RichText>,
}

/// The blocks of a Notion page.
#[derive(Debug)]
pub struct NotionBlockResponse {
    pub results: Vec<NotionBlock>,
}

/// One content block of a Notion page; `kind` is the block's `type`.
#[derive(Debug)]
pub struct NotionBlock {
    pub kind: String,
    pub paragraph: Option<NotionRichTextBlock>,
    pub heading_1: Option<NotionRichTextBlock>,
    pub heading_2: Option<NotionRichTextBlock>,
    pub heading_3: Option<NotionRichTextBlock>,
}

/// The text of a paragraph or heading block.
#[derive(Debug)]
pub struct NotionRichTextBlock {
    pub rich_text: Vec<RichText>,
}

} // verus!
