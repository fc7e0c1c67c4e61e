//! Flat record types of the Notion and Paperless APIs, and the per-page sync decision.

use vstd::prelude::*;

verus! {

/// A Paperless document with its custom-field values.
#[derive(Debug)]
pub struct PaperlessDocument {
    pub id: i64,
    pub custom_fields: Vec<CustomFields>,
}

/// One page of the Paperless document list.
#[derive(Debug)]
pub struct PaperlessResponse {
    pub next: Option<String>,
    pub results: Vec<PaperlessDocument>,
}

/// One custom-field value on a Paperless document.
#[derive(Debug)]
pub struct CustomFields {
    pub field: i64,
    pub value: Option<String>,
}

/// One page of a Notion database query.
#[derive(Debug)]
pub struct NotionResponse {
    pub results: Vec<NotionPage>,
}

/// A Notion page as listed by a database query.
#[derive(Debug)]
pub struct NotionPage {
    pub id: String,
    pub last_edited_time: String,
    pub properties: NotionProperties,
}

/// The properties of a Notion page that the synchronisation reads.
#[derive(Debug)]
pub struct NotionProperties {
    pub name: NotionNameProperty,
}

/// The `Name` title property of a Notion page.
#[derive(Debug)]
pub struct NotionNameProperty {
    pub title: Vec<NotionTitleText>,
}

/// A run of plain text in a page title.
#[derive(Debug)]
pub struct NotionTitleText {
    pub plain_text: String,
}

/// What to do with a given Notion page during a sync cycle.
#[derive(Debug, Clone, Copy, PartialEq, Eq, Structural)]
pub enum SyncAction {
    /// Paperless is newer.
    UpdateNotion,
    /// Notion is newer.
    UpdatePaperless,
    /// Exists only in Notion.
    CreateInPaperless,
    /// Both sides hold the same content.
    UpToDate,
}

/// The blocks of a Notion page.
#[derive(Debug)]
pub struct NotionBlockResponse {
    pub results: Vec<NotionBlock>,
}

/// One content block of a Notion page; `kind` is the block's `type`.
#[derive(Debug)]
pub struct NotionBlock {
    pub kind: String,
    pub paragraph: Option<NotionParagraph>,
    pub heading_1: Option<NotionHeading>,
    pub heading_2: Option<NotionHeading>,
    pub heading_3: Option<NotionHeading>,
}

/// The text of a paragraph block.
#[derive(Debug)]
pub struct NotionParagraph {
    pub rich_text: Vec<NotionRichText>,
}

/// The text of a heading block.
#[derive(Debug)]
pub struct NotionHeading {
    pub rich_text: Vec<NotionRichText>,
}

/// A run of plain text in a block.
#[derive(Debug)]
pub struct NotionRichText {
    pub plain_text: String,
}

} // verus!
