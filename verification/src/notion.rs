//! Everything the synchronisation decides about the Notion side: the listing of a
//! database's pages and the Markdown export of a page's blocks.

pub mod model;

use vstd::prelude::*;
use vstd::string::StringExecFns;

use self::model::{NotionBlock, NotionPage, NotionResponse, NotionRichTextBlock, RichText};
use crate::collection::IdMap;
use crate::text::text_eq;

verus! {

/// Metadata about a Notion page as returned by the database query, before its content
/// has been exported.
#[derive(Debug)]
pub struct PageSummary {
    pub last_edited_time: String,
    pub title: String,
}

/// The title of a page: its first title run, or `Untitled` where it has none.
pub open spec fn title_of(title: Seq<RichText>) -> Seq<char> {
    if title.len() > 0 {
        title[0].plain_text@
    } else {
        "Untitled"@
    }
}

/// The page title that a title property gives.
pub fn page_title(title: &Vec<RichText>) -> (r: String)
    ensures
        r@ == title_of(title@),
{
    if title.len() > 0 {
        title[0].plain_text.clone()
    } else {
        String::from_str("Untitled")
    }
}

/// A page summary by its texts: last-edited time and title.
pub open spec fn summary_view(s: PageSummary) -> (Seq<char>, Seq<char>) {
    (s.last_edited_time@, s.title@)
}

/// The page ID → (last-edited time, title) map after reading `pages` in order into `m`:
/// a later listing of the same ID replaces an earlier one.
pub open spec fn absorb_pages(m: Map<Seq<char>, (Seq<char>, Seq<char>)>, pages: Seq<NotionPage>) -> Map<
    Seq<char>,
    (Seq<char>, Seq<char>),
>
    decreases pages.len(),
{
    if pages.len() == 0 {
        m
    } else {
        let p = pages.last();
        absorb_pages(m, pages.drop_last()).insert(
            p.id@,
            (p.last_edited_time@, title_of(p.properties.name.title@)),
        )
    }
}

/// Whether the summaries of `m` are, key by key, those of `v`.
pub open spec fn summaries_match(
    m: Map<Seq<char>, PageSummary>,
    v: Map<Seq<char>, (Seq<char>, Seq<char>)>,
) -> bool {
    &&& forall|k: Seq<char>| #[trigger] m.contains_key(k) <==> v.contains_key(k)
    &&& forall|k: Seq<char>| #[trigger] m.contains_key(k) ==> summary_view(m[k]) == v[k]
}

/// The cursor with which to continue a database query after a response: its
/// `next_cursor` while it says there is more, and `None` (stop) otherwise.
pub open spec fn continuation(has_more: bool, next_cursor: Option<String>) -> Option<Seq<char>> {
    if !has_more {
        None
    } else {
        match next_cursor {
            Some(c) => Some(c@),
            None => None,
        }
    }
}

/// The summaries of a map, by texts.
pub open spec fn summary_views(m: Map<Seq<char>, PageSummary>) -> Map<Seq<char>, (Seq<char>, Seq<char>)> {
    m.map_values(|s: PageSummary| summary_view(s))
}

/// The walk over a Notion database query: collects page ID → summary, 100 pages per
/// request, and says with which cursor to continue.
pub struct NotionListing {
    pages: IdMap<PageSummary>,
}

impl NotionListing {
    /// The summaries collected so far.
    pub closed spec fn collected(&self) -> Map<Seq<char>, (Seq<char>, Seq<char>)> {
        summary_views(self.pages@)
    }

    /// Starts a walk; the first query carries no cursor.
    pub fn start() -> (r: NotionListing)
        ensures
            r.collected() == Map::<Seq<char>, (Seq<char>, Seq<char>)>::empty(),
    {
        let r = NotionListing { pages: IdMap::new() };
        assert(r.collected() =~= Map::<Seq<char>, (Seq<char>, Seq<char>)>::empty());
        r
    }

    /// The number of results a query asks for.
    pub fn page_size() -> (n: u32)
        ensures
            n == 100,
    {
        100
    }

    /// Reads one query response. Gives the cursor to continue with, or `None` when the
    /// listing is complete.
    pub fn absorb(&mut self, response: NotionResponse) -> (next: Option<String>)
        ensures
            final(self).collected() == absorb_pages(old(self).collected(), response.results@),
            match continuation(response.has_more, response.next_cursor) {
                Some(c) => next matches Some(n) && n@ == c,
                None => next is None,
            },
    {
        let ghost start = summary_views(self.pages@);
        let n = response.results.len();
        for i in 0..n
            invariant
                n == response.results@.len(),
                summary_views(self.pages@) == absorb_pages(start, response.results@.take(i as int)),
        {
            assert(response.results@.take(i + 1).drop_last() =~= response.results@.take(i as int));
            let page = &response.results[i];
            let title = page_title(&page.properties.name.title);
            let summary = PageSummary { last_edited_time: page.last_edited_time.clone(), title };
            let ghost entry = summary_view(summary);
            let ghost key = page.id@;
            let ghost before = self.pages@;
            self.pages.insert(page.id.clone(), summary);
            assert(summary_views(self.pages@) =~= summary_views(before).insert(key, entry));
        }
        assert(response.results@.take(n as int) =~= response.results@);
        if !response.has_more {
            return None;
        }
        match response.next_cursor {
            Some(cursor) => Some(cursor),
            None => None,
        }
    }

    /// The collected page ID → summary map.
    pub fn finish(self) -> (r: IdMap<PageSummary>)
        ensures
            summaries_match(r@, self.collected()),
    {
        self.pages
    }
}

/// `"https://api.notion.com/v1/blocks/{page_id}/children"`: the blocks of a page.
pub fn blocks_url(page_id: &str) -> (r: String)
    ensures
        r@ == "https://api.notion.com/v1/blocks/"@ + page_id@ + "/children"@,
{
    let mut s = String::from_str("https://api.notion.com/v1/blocks/");
    s.append(page_id);
    s.append("/children");
    s
}

/// `"Bearer {token}"`: the value of Notion's `Authorization` header.
pub fn bearer_authorization(token: &str) -> (r: String)
    ensures
        r@ == "Bearer "@ + token@,
{
    let mut s = String::from_str("Bearer ");
    s.append(token);
    s
}

/// The Notion API version the requests are made against.
pub fn notion_version() -> (r: &'static str)
    ensures
        r@ == "2022-06-28"@,
{
    "2022-06-28"
}

/// The plain text of a list of runs: the runs joined together.
pub open spec fn plain_text_of(runs: Seq<RichText>) -> Seq<char>
    decreases runs.len(),
{
    if runs.len() == 0 {
        Seq::empty()
    } else {
        plain_text_of(runs.drop_last()) + runs.last().plain_text@
    }
}

/// The Markdown of a text block under `prefix`: the prefix, the block's text and a blank
/// line; nothing where the block is absent.
pub open spec fn text_block_markdown(prefix: Seq<char>, block: Option<NotionRichTextBlock>) -> Seq<
    char,
> {
    match block {
        Some(b) => prefix + plain_text_of(b.rich_text@) + "\n\n"@,
        None => Seq::empty(),
    }
}

/// The Markdown of one block. Only paragraphs and headings 1-3 are exported; blocks of
/// any other type give nothing.
pub open spec fn block_markdown(b: NotionBlock) -> Seq<char> {
    if b.kind@ == "paragraph"@ {
        text_block_markdown(""@, b.paragraph)
    } else if b.kind@ == "heading_1"@ {
        text_block_markdown("# "@, b.heading_1)
    } else if b.kind@ == "heading_2"@ {
        text_block_markdown("## "@, b.heading_2)
    } else if b.kind@ == "heading_3"@ {
        text_block_markdown("### "@, b.heading_3)
    } else {
        Seq::empty()
    }
}

/// The Markdown of a page: the Markdown of its blocks, in order.
pub open spec fn render_markdown(blocks: Seq<NotionBlock>) -> Seq<char>
    decreases blocks.len(),
{
    if blocks.len() == 0 {
        Seq::empty()
    } else {
        render_markdown(blocks.drop_last()) + block_markdown(blocks.last())
    }
}

fn append_text_block(out: &mut String, prefix: &str, block: &Option<NotionRichTextBlock>)
    ensures
        final(out)@ == old(out)@ + text_block_markdown(prefix@, *block),
{
    match block {
        Some(b) => {
            let ghost start = out@;
            out.append(prefix);
            let n = b.rich_text.len();
            for i in 0..n
                invariant
                    n == b.rich_text@.len(),
                    out@ == start + prefix@ + plain_text_of(b.rich_text@.take(i as int)),
            {
                assert(b.rich_text@.take(i + 1).drop_last() =~= b.rich_text@.take(i as int));
                out.append(b.rich_text[i].plain_text.as_str());
                assert(out@ =~= start + prefix@ + plain_text_of(b.rich_text@.take(i + 1)));
            }
            assert(b.rich_text@.take(n as int) =~= b.rich_text@);
            out.append("\n\n");
            assert(out@ =~= start + (prefix@ + plain_text_of(b.rich_text@) + "\n\n"@));
        },
        None => {
            assert(out@ =~= out@ + Seq::<char>::empty());
        },
    }
}

/// Exports a page's blocks as Markdown. Only paragraphs and headings 1-3 are supported;
/// other block types (lists, code, to-dos, tables, nested blocks) are skipped.
pub fn markdown_from_blocks(blocks: &Vec<NotionBlock>) -> (r: String)
    ensures
        r@ == render_markdown(blocks@),
{
    let mut markdown = String::new();
    let n = blocks.len();
    for i in 0..n
        invariant
            n == blocks@.len(),
            markdown@ == render_markdown(blocks@.take(i as int)),
    {
        assert(blocks@.take(i + 1).drop_last() =~= blocks@.take(i as int));
        let block = &blocks[i];
        let kind = block.kind.as_str();
        let ghost before = markdown@;
        if text_eq(kind, "paragraph") {
            append_text_block(&mut markdown, "", &block.paragraph);
        } else if text_eq(kind, "heading_1") {
            append_text_block(&mut markdown, "# ", &block.heading_1);
        } else if text_eq(kind, "heading_2") {
            append_text_block(&mut markdown, "## ", &block.heading_2);
        } else if text_eq(kind, "heading_3") {
            append_text_block(&mut markdown, "### ", &block.heading_3);
        } else {
            assert(markdown@ =~= before + Seq::<char>::empty());
        }
        assert(blocks@.take(i + 1).last() == *block);
    }
    assert(blocks@.take(n as int) =~= blocks@);
    markdown
}


// ---------------------------------------------------------------------------------------
// Laws
// ---------------------------------------------------------------------------------------

/// The plain text of a run is its text.
pub proof fn law_plain_text_of_one_run(r: RichText)
    ensures
        plain_text_of(seq![r]) == r.plain_text@,
{
    assert(seq![r].drop_last() =~= Seq::<RichText>::empty());
    assert(plain_text_of(Seq::<RichText>::empty()) =~= Seq::<char>::empty());
    assert(Seq::<char>::empty() + r.plain_text@ =~= r.plain_text@);
}

/// The plain text of runs is their texts joined in order: the plain text of two lists of
/// runs one after the other is the plain text of the first followed by that of the second.
pub proof fn law_plain_text_concatenates(a: Seq<RichText>, b: Seq<RichText>)
    ensures
        plain_text_of(a + b) == plain_text_of(a) + plain_text_of(b),
    decreases b.len(),
{
    if b.len() == 0 {
        assert(a + b =~= a);
        assert(plain_text_of(a) + plain_text_of(b) =~= plain_text_of(a));
    } else {
        law_plain_text_concatenates(a, b.drop_last());
        assert((a + b).drop_last() =~= a + b.drop_last());
        assert((a + b).last() == b.last());
        assert(plain_text_of(a) + plain_text_of(b) =~= plain_text_of(a) + plain_text_of(
            b.drop_last(),
        ) + b.last().plain_text@);
    }
}

/// The Markdown of a page is the Markdown of its blocks one after the other: the export
/// of two lists of blocks in a row is the export of the first followed by that of the
/// second.
pub proof fn law_render_concatenates(a: Seq<NotionBlock>, b: Seq<NotionBlock>)
    ensures
        render_markdown(a + b) == render_markdown(a) + render_markdown(b),
    decreases b.len(),
{
    if b.len() == 0 {
        assert(a + b =~= a);
        assert(render_markdown(a) + render_markdown(b) =~= render_markdown(a));
    } else {
        law_render_concatenates(a, b.drop_last());
        assert((a + b).drop_last() =~= a + b.drop_last());
        assert((a + b).last() == b.last());
        assert(render_markdown(a) + render_markdown(b) =~= render_markdown(a) + render_markdown(
            b.drop_last(),
        ) + block_markdown(b.last()));
    }
}

/// The Markdown of one block: a paragraph is its text, a heading of level 1, 2 or 3 is
/// `#`, `##` or `###` and a space before its text, each followed by a blank line, where
/// the text is all of the block's runs joined in order; a block of any other type, or
/// one that lacks the content its type names, gives nothing.
pub proof fn law_block_markdown(b: NotionBlock)
    ensures
        b.kind@ == "paragraph"@ ==> block_markdown(b) == match b.paragraph {
            Some(t) => plain_text_of(t.rich_text@) + "\n\n"@,
            None => Seq::<char>::empty(),
        },
        b.kind@ == "heading_1"@ ==> block_markdown(b) == match b.heading_1 {
            Some(t) => "# "@ + plain_text_of(t.rich_text@) + "\n\n"@,
            None => Seq::<char>::empty(),
        },
        b.kind@ == "heading_2"@ ==> block_markdown(b) == match b.heading_2 {
            Some(t) => "## "@ + plain_text_of(t.rich_text@) + "\n\n"@,
            None => Seq::<char>::empty(),
        },
        b.kind@ == "heading_3"@ ==> block_markdown(b) == match b.heading_3 {
            Some(t) => "### "@ + plain_text_of(t.rich_text@) + "\n\n"@,
            None => Seq::<char>::empty(),
        },
        (b.kind@ != "paragraph"@ && b.kind@ != "heading_1"@ && b.kind@ != "heading_2"@ && b.kind@
            != "heading_3"@) ==> block_markdown(b) == Seq::<char>::empty(),
{
    reveal_strlit("");
    reveal_strlit("paragraph");
    reveal_strlit("heading_1");
    reveal_strlit("heading_2");
    reveal_strlit("heading_3");
    assert("paragraph"@[0] != "heading_1"@[0]);
    assert("paragraph"@[0] != "heading_2"@[0]);
    assert("paragraph"@[0] != "heading_3"@[0]);
    assert("heading_1"@[8] != "heading_2"@[8]);
    assert("heading_1"@[8] != "heading_3"@[8]);
    assert("heading_2"@[8] != "heading_3"@[8]);
    assert("paragraph"@ != "heading_1"@);
    assert("paragraph"@ != "heading_2"@);
    assert("paragraph"@ != "heading_3"@);
    assert("heading_1"@ != "heading_2"@);
    assert("heading_1"@ != "heading_3"@);
    assert("heading_2"@ != "heading_3"@);
    if b.kind@ == "paragraph"@ {
        match b.paragraph {
            Some(t) => {
                assert(""@ + plain_text_of(t.rich_text@) =~= plain_text_of(t.rich_text@));
            },
            None => {},
        }
    }
}

} // verus!
