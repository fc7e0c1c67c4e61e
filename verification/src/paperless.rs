//! Everything the synchronisation decides about the Paperless side: the instance's base
//! URL, pagination links, the custom fields that link a document to a Notion page, and
//! the handling of upload tasks and duplicate rejections.

pub mod model;

use vstd::prelude::*;
use vstd::string::StringExecFns;

use self::model::{
    CustomFieldDefinition, CustomFieldIds, CustomFieldListResponse, CustomFieldValue, PaperlessDocument,
    PaperlessResponse,
};
use crate::collection::IdMap;
use crate::number::{
    decimal, decimal_chars, digit_value, law_parse_reads_decimal, lemma_decimal_chars, parse_i64,
    parse_i64_chars,
};
use crate::text::{
    is_whitespace, append_chars, chars_of, ends_with_char, find, find_chars, find_chars_from, find_from, first_of_chars,
    first_of_from, lemma_find, lemma_find_from, lemma_find_is,
    lemma_find_none, lemma_rfind_is, lemma_trim_end_keeps, lemma_trim_end_matches, lemma_trim_unchanged, occurs_at, rfind,
    rfind_chars, string_from, sub_chars, trim, trim_chars, trim_end_matches, trim_end_matches_chars,
};

verus! {

/// Where the host of a URL starts: right after its `scheme://` when it begins with one
/// (the `://` holds its first `/`), and at the start otherwise.
pub open spec fn authority_start(url: Seq<char>) -> nat {
    match find(url, "://"@) {
        Some(e) => if find(url, "/"@) == Some(e + 1) {
            (e + "://"@.len()) as nat
        } else {
            0
        },
        None => 0,
    }
}

/// Where the path of a URL starts: the first `/` from the host on, or its end.
pub open spec fn authority_end(url: Seq<char>) -> int {
    match find_from(url, "/"@, authority_start(url)) {
        Some(j) => j,
        None => url.len() as int,
    }
}

/// The Paperless instance's base for a configured URL: whitespace and trailing slashes
/// removed, and everything from the first `/api` after the scheme and host on cut off.
pub open spec fn base_domain_of(url: Seq<char>) -> Seq<char> {
    let clean = trim_end_matches(trim(url), '/');
    let head = match find_from(clean, "/api"@, authority_start(clean)) {
        Some(i) => clean.subrange(0, i),
        None => clean,
    };
    trim_end_matches(head, '/')
}

/// The path and query of a pagination link. When the link has a scheme, it is what
/// follows the host: from the first `/` or `?` after the host on, with a `/` put in front
/// of a query that directly follows the host, and `/` when nothing follows. Without a
/// scheme it is the whole link.
pub open spec fn path_and_query(next: Seq<char>) -> Seq<char> {
    match find(next, "://"@) {
        Some(e) => {
            let after = next.subrange(e + "://"@.len(), next.len() as int);
            match first_of_from(after, '/', '?', 0) {
                Some(p) => if after[p] == '/' {
                    after.subrange(p, after.len() as int)
                } else {
                    seq!['/'] + after.subrange(p, after.len() as int)
                },
                None => seq!['/'],
            }
        },
        None => next,
    }
}

/// `url` with a `/` inserted before its query string, or appended when it has none, unless
/// one is already there.
pub open spec fn with_slash_before_query(url: Seq<char>) -> Seq<char> {
    match find(url, "?"@) {
        Some(q) => if ends_with_char(url.subrange(0, q), '/') {
            url
        } else {
            url.subrange(0, q).push('/') + url.subrange(q, url.len() as int)
        },
        None => if ends_with_char(url, '/') {
            url
        } else {
            url.push('/')
        },
    }
}

/// A pagination link rewritten onto the configured base.
pub open spec fn normalized_next_url(next: Seq<char>, base: Seq<char>) -> Seq<char> {
    with_slash_before_query(base + path_and_query(next))
}

/// The document ID that a Paperless duplicate-rejection message names: the number between
/// the last `(#` and the `)` after it, surrounding whitespace ignored.
pub open spec fn duplicate_document_id(message: Seq<char>) -> Option<i64> {
    match rfind(message, "(#"@) {
        None => None,
        Some(r) => {
            let rest = message.subrange(r + "(#"@.len(), message.len() as int);
            match find(rest, ")"@) {
                None => None,
                Some(k) => parse_i64(trim(rest.subrange(0, k))),
            }
        },
    }
}

/// Where the host of `url` starts (see `authority_start`).
pub fn authority_start_of(url: &Vec<char>) -> (r: usize)
    ensures
        r == authority_start(url@),
        r <= url.len(),
{
    let sep = chars_of("://");
    match find_chars(url, &sep) {
        Some(e) => {
            assert(e + sep@.len() <= url@.len());
            assert(url@.len() == url.len());
            let slash = chars_of("/");
            match find_chars(url, &slash) {
                Some(f) => if f > e && f - 1 == e {
                    e + sep.len()
                } else {
                    0
                },
                None => 0,
            }
        },
        None => 0,
    }
}

/// Strips a path suffix (e.g. `/api/documents/`) from the configured URL, leaving the
/// Paperless instance's base. Scheme and port are left untouched.
pub fn base_domain(paperless_url: &str) -> (r: String)
    ensures
        r@ == base_domain_of(paperless_url@),
{
    let url = chars_of(paperless_url);
    let clean = trim_end_matches_chars(&trim_chars(&url), '/');
    let from = authority_start_of(&clean);
    let marker = chars_of("/api");
    let head = match find_chars_from(&clean, &marker, from) {
        Some(i) => sub_chars(&clean, 0, i),
        None => clean,
    };
    string_from(&trim_end_matches_chars(&head, '/'))
}

/// Rewrites a Paperless pagination `next` URL onto the configured base.
///
/// Paperless builds `next` from what it believes its own host to be; behind a reverse
/// proxy that may carry the wrong scheme. So only the path and query are taken from `next`
/// and appended to the configured base, with a `/` before the query string if it lacks one.
pub fn normalize_next_url(next: &str, base: &str) -> (r: String)
    ensures
        r@ == normalized_next_url(next@, base@),
{
    let next_chars = chars_of(next);
    let scheme_sep = chars_of("://");
    let path: Vec<char> = match find_chars(&next_chars, &scheme_sep) {
        Some(scheme_end) => {
            assert(scheme_end + scheme_sep@.len() <= next_chars@.len());
            assert(next_chars@.len() == next_chars.len());
            let after = sub_chars(&next_chars, scheme_end + scheme_sep.len(), next_chars.len());
            match first_of_chars(&after, '/', '?') {
                Some(p) => {
                    if after[p] == '/' {
                        sub_chars(&after, p, after.len())
                    } else {
                        let mut v: Vec<char> = Vec::new();
                        v.push('/');
                        let rest = sub_chars(&after, p, after.len());
                        append_chars(&mut v, &rest);
                        assert(v@ =~= seq!['/'] + after@.subrange(p as int, after.len() as int));
                        v
                    }
                },
                None => {
                    let mut v: Vec<char> = Vec::new();
                    v.push('/');
                    assert(v@ =~= seq!['/']);
                    v
                },
            }
        },
        None => next_chars,
    };
    let mut url = chars_of(base);
    append_chars(&mut url, &path);
    let question = chars_of("?");
    let fixed: Vec<char> = match find_chars(&url, &question) {
        Some(q) => {
            if q > 0 && url[q - 1] == '/' {
                url
            } else {
                let mut head = sub_chars(&url, 0, q);
                head.push('/');
                let tail = sub_chars(&url, q, url.len());
                append_chars(&mut head, &tail);
                head
            }
        },
        None => {
            if url.len() > 0 && url[url.len() - 1] == '/' {
                url
            } else {
                url.push('/');
                url
            }
        },
    };
    string_from(&fixed)
}

/// Extracts the Paperless document ID from a duplicate-rejection message, e.g.
/// "It is a duplicate of moin moin (#327)." gives `Some(327)`.
pub fn parse_duplicate_document_id(message: &str) -> (r: Option<i64>)
    ensures
        r == duplicate_document_id(message@),
{
    let m = chars_of(message);
    let open = chars_of("(#");
    let start = match rfind_chars(&m, &open) {
        Some(r) => {
            assert(r + open@.len() <= m@.len());
            assert(m@.len() == m.len());
            r + open.len()
        },
        None => return None,
    };
    let rest = sub_chars(&m, start, m.len());
    let close = chars_of(")");
    let end = match find_chars(&rest, &close) {
        Some(k) => k,
        None => return None,
    };
    parse_i64_chars(&trim_chars(&sub_chars(&rest, 0, end)))
}

} // verus!

verus! {

// ---------------------------------------------------------------------------------------
// Endpoints
// ---------------------------------------------------------------------------------------

/// `"{base}/api/custom_fields/?page_size=100"`: the first page of the custom-field list.
pub fn custom_fields_list_url(base: &str) -> (r: String)
    ensures
        r@ == base@ + "/api/custom_fields/?page_size=100"@,
{
    let mut s = String::from_str(base);
    s.append("/api/custom_fields/?page_size=100");
    s
}

/// `"{base}/api/custom_fields/"`: where a custom field is created.
pub fn custom_fields_create_url(base: &str) -> (r: String)
    ensures
        r@ == base@ + "/api/custom_fields/"@,
{
    let mut s = String::from_str(base);
    s.append("/api/custom_fields/");
    s
}

/// `"{base}/api/documents/{document_id}/"`: one document.
pub fn document_url(base: &str, document_id: i64) -> (r: String)
    ensures
        r@ == base@ + "/api/documents/"@ + decimal(document_id as int) + "/"@,
{
    let mut v = chars_of(base);
    append_chars(&mut v, &chars_of("/api/documents/"));
    append_chars(&mut v, &decimal_chars(document_id));
    append_chars(&mut v, &chars_of("/"));
    string_from(&v)
}

/// `"{base}/api/trash/"`: the endpoint that empties the trash.
pub fn trash_url(base: &str) -> (r: String)
    ensures
        r@ == base@ + "/api/trash/"@,
{
    let mut s = String::from_str(base);
    s.append("/api/trash/");
    s
}

/// `"{base}/api/documents/post_document/"`: where documents are uploaded.
pub fn upload_url(base: &str) -> (r: String)
    ensures
        r@ == base@ + "/api/documents/post_document/"@,
{
    let mut s = String::from_str(base);
    s.append("/api/documents/post_document/");
    s
}

/// `"{base}/api/tasks/?task_id={task_id}"`: the status of one upload task.
pub fn task_status_url(base: &str, task_id: &str) -> (r: String)
    ensures
        r@ == base@ + "/api/tasks/?task_id="@ + task_id@,
{
    let mut s = String::from_str(base);
    s.append("/api/tasks/?task_id=");
    s.append(task_id);
    s
}

/// `"Token {token}"`: the value of Paperless' `Authorization` header.
pub fn token_authorization(token: &str) -> (r: String)
    ensures
        r@ == "Token "@ + token@,
{
    let mut s = String::from_str("Token ");
    s.append(token);
    s
}

/// `"{title}.md"`: the file name under which a page is uploaded.
pub fn markdown_file_name(title: &str) -> (r: String)
    ensures
        r@ == title@ + ".md"@,
{
    let mut s = String::from_str(title);
    s.append(".md");
    s
}

/// The token as it is sent: without surrounding whitespace.
pub fn clean_token(token: &str) -> (r: String)
    ensures
        r@ == trim(token@),
{
    string_from(&trim_chars(&chars_of(token)))
}

/// Whether a deletion request was answered with success (a 2xx status, 204 included).
pub fn deletion_accepted(status: u16) -> (r: bool)
    ensures
        r == (200 <= status < 300 || status == 204),
{
    (200 <= status && status < 300) || status == 204
}

// ---------------------------------------------------------------------------------------
// The custom fields that link a document to a Notion page
// ---------------------------------------------------------------------------------------

/// A custom-field value by its field ID and the text of its value.
pub open spec fn field_view(cf: CustomFieldValue) -> (i64, Option<Seq<char>>) {
    (cf.field, text_opt(cf.value))
}

/// The texts of an optional `String`.
pub open spec fn text_opt(o: Option<String>) -> Option<Seq<char>> {
    match o {
        Some(s) => Some(s@),
        None => None,
    }
}

/// The custom-field values of a list, by field ID and text.
pub open spec fn field_views(cfs: Seq<CustomFieldValue>) -> Seq<(i64, Option<Seq<char>>)> {
    cfs.map_values(|cf: CustomFieldValue| field_view(cf))
}

/// Which link a field ID carries: 0 for the Notion page ID, 1 for the last-edited time,
/// 2 for the content hash, 3 for none. Where IDs coincide, the earlier role wins.
pub open spec fn field_slot(field: i64, ids: CustomFieldIds) -> nat {
    if field == ids.notion_id {
        0
    } else if field == ids.last_edited {
        1
    } else if field == ids.content_hash {
        2
    } else {
        3
    }
}

/// Whether `field` is one of the three link fields.
pub open spec fn is_link_field(field: i64, ids: CustomFieldIds) -> bool {
    field == ids.notion_id || field == ids.last_edited || field == ids.content_hash
}

/// The three link fields are distinct custom fields.
pub open spec fn distinct_ids(ids: CustomFieldIds) -> bool {
    ids.notion_id != ids.last_edited && ids.notion_id != ids.content_hash && ids.last_edited
        != ids.content_hash
}

/// The value that the last field carrying link `slot` holds, if any field carries it.
pub open spec fn slot_value(cfs: Seq<(i64, Option<Seq<char>>)>, ids: CustomFieldIds, slot: nat) -> Option<
    Seq<char>,
>
    decreases cfs.len(),
{
    if cfs.len() == 0 {
        None
    } else if field_slot(cfs.last().0, ids) == slot {
        cfs.last().1
    } else {
        slot_value(cfs.drop_last(), ids, slot)
    }
}

/// What a document says about the Notion page it holds: the page ID, and the document ID,
/// last-edited time and content hash (empty where the document has none). Nothing unless
/// the document carries both a page ID and a last-edited time.
pub open spec fn document_entry(doc: PaperlessDocument, ids: CustomFieldIds) -> Option<
    (Seq<char>, (i64, Seq<char>, Seq<char>)),
> {
    let cfs = field_views(doc.custom_fields@);
    match (slot_value(cfs, ids, 0), slot_value(cfs, ids, 1)) {
        (Some(notion_id), Some(last_edited)) => Some(
            (
                notion_id,
                (
                    doc.id,
                    last_edited,
                    match slot_value(cfs, ids, 2) {
                        Some(h) => h,
                        None => Seq::empty(),
                    },
                ),
            ),
        ),
        _ => None,
    }
}

/// The link fields that a document for a page carries: its page ID, last-edited time and
/// content hash.
pub open spec fn link_field_views(
    ids: CustomFieldIds,
    notion_id: Seq<char>,
    last_edited: Seq<char>,
    content_hash: Seq<char>,
) -> Seq<(i64, Option<Seq<char>>)> {
    seq![
        (ids.notion_id, Some(notion_id)),
        (ids.last_edited, Some(last_edited)),
        (ids.content_hash, Some(content_hash)),
    ]
}

/// The fields of a list that are not link fields, in order.
pub open spec fn foreign_fields(cfs: Seq<(i64, Option<Seq<char>>)>, ids: CustomFieldIds) -> Seq<
    (i64, Option<Seq<char>>),
>
    decreases cfs.len(),
{
    if cfs.len() == 0 {
        Seq::empty()
    } else if is_link_field(cfs.last().0, ids) {
        foreign_fields(cfs.drop_last(), ids)
    } else {
        foreign_fields(cfs.drop_last(), ids).push(cfs.last())
    }
}

/// The fields of a document after it has been linked to a page: its other fields, kept in
/// order, followed by the three link fields.
pub open spec fn merged_field_views(
    existing: Seq<(i64, Option<Seq<char>>)>,
    ids: CustomFieldIds,
    notion_id: Seq<char>,
    last_edited: Seq<char>,
    content_hash: Seq<char>,
) -> Seq<(i64, Option<Seq<char>>)> {
    foreign_fields(existing, ids) + link_field_views(ids, notion_id, last_edited, content_hash)
}

/// A Notion page's known state in Paperless: which document holds it, and what content
/// hash was uploaded last.
#[derive(Debug)]
pub struct DocumentRecord {
    pub document_id: i64,
    pub last_edited_time: String,
    pub content_hash: String,
}

/// A record by its document ID and texts.
pub open spec fn record_view(r: DocumentRecord) -> (i64, Seq<char>, Seq<char>) {
    (r.document_id, r.last_edited_time@, r.content_hash@)
}

/// The Notion-side identity of a page being synced to Paperless: enough to tag or
/// re-tag a document without needing its full content.
pub struct NotionPageRef<'a> {
    pub notion_id: &'a str,
    pub last_edited_time: &'a str,
    pub content_hash: &'a str,
}

fn copy_text(o: &Option<String>) -> (r: Option<String>)
    ensures
        text_opt(r) == text_opt(*o),
{
    match o {
        Some(s) => Some(s.clone()),
        None => None,
    }
}

/// What Paperless holds about a Notion page in `doc`, read off its custom fields: the
/// last value of each link field counts. Nothing unless the document carries both a page
/// ID and a last-edited time; a missing content hash reads as empty.
pub fn document_record(doc: &PaperlessDocument, fields: &CustomFieldIds) -> (r: Option<
    (String, DocumentRecord),
>)
    ensures
        match r {
            Some(p) => document_entry(*doc, *fields) == Some((p.0@, record_view(p.1))),
            None => document_entry(*doc, *fields) is None,
        },
{
    let ghost cfs = field_views(doc.custom_fields@);
    let mut notion_id: Option<String> = None;
    let mut last_edited_time: Option<String> = None;
    let mut content_hash: Option<String> = None;
    let n = doc.custom_fields.len();
    for i in 0..n
        invariant
            n == doc.custom_fields@.len(),
            cfs == field_views(doc.custom_fields@),
            text_opt(notion_id) == slot_value(cfs.take(i as int), *fields, 0),
            text_opt(last_edited_time) == slot_value(cfs.take(i as int), *fields, 1),
            text_opt(content_hash) == slot_value(cfs.take(i as int), *fields, 2),
    {
        let cf = &doc.custom_fields[i];
        assert(cfs.take(i + 1).drop_last() =~= cfs.take(i as int));
        assert(cfs.take(i + 1).last() == field_view(*cf));
        if cf.field == fields.notion_id {
            notion_id = copy_text(&cf.value);
        } else if cf.field == fields.last_edited {
            last_edited_time = copy_text(&cf.value);
        } else if cf.field == fields.content_hash {
            content_hash = copy_text(&cf.value);
        }
    }
    assert(cfs.take(n as int) =~= cfs);
    match (notion_id, last_edited_time) {
        (Some(id), Some(last_edited_time)) => {
            let hash = match content_hash {
                Some(h) => h,
                None => String::new(),
            };
            Some(
                (
                    id,
                    DocumentRecord {
                        document_id: doc.id,
                        last_edited_time,
                        content_hash: hash,
                    },
                ),
            )
        },
        _ => None,
    }
}

/// The link fields for a page, in the order Paperless receives them on upload: page ID,
/// last-edited time, content hash.
pub fn link_fields(fields: &CustomFieldIds, page: &NotionPageRef) -> (r: Vec<CustomFieldValue>)
    ensures
        field_views(r@) == link_field_views(
            *fields,
            page.notion_id@,
            page.last_edited_time@,
            page.content_hash@,
        ),
{
    let mut r: Vec<CustomFieldValue> = Vec::new();
    r.push(CustomFieldValue { field: fields.notion_id, value: Some(String::from_str(page.notion_id)) });
    r.push(
        CustomFieldValue {
            field: fields.last_edited,
            value: Some(String::from_str(page.last_edited_time)),
        },
    );
    r.push(
        CustomFieldValue {
            field: fields.content_hash,
            value: Some(String::from_str(page.content_hash)),
        },
    );
    assert(field_views(r@) =~= link_field_views(
        *fields,
        page.notion_id@,
        page.last_edited_time@,
        page.content_hash@,
    ));
    r
}

/// The custom fields to write back when an existing document is linked to a page. The
/// document's other custom fields are kept, in order (Paperless replaces the whole list),
/// and the three link fields are set to the page's values.
pub fn merge_custom_fields(
    existing: &Vec<CustomFieldValue>,
    fields: &CustomFieldIds,
    page: &NotionPageRef,
) -> (r: Vec<CustomFieldValue>)
    ensures
        field_views(r@) == merged_field_views(
            field_views(existing@),
            *fields,
            page.notion_id@,
            page.last_edited_time@,
            page.content_hash@,
        ),
{
    let ghost ex = field_views(existing@);
    let mut merged: Vec<CustomFieldValue> = Vec::new();
    let n = existing.len();
    for i in 0..n
        invariant
            n == existing@.len(),
            ex == field_views(existing@),
            field_views(merged@) == foreign_fields(ex.take(i as int), *fields),
    {
        let cf = &existing[i];
        assert(ex.take(i + 1).drop_last() =~= ex.take(i as int));
        assert(ex.take(i + 1).last() == field_view(*cf));
        if !(cf.field == fields.notion_id || cf.field == fields.last_edited || cf.field
            == fields.content_hash) {
            let ghost before = merged@;
            merged.push(CustomFieldValue { field: cf.field, value: copy_text(&cf.value) });
            assert(field_views(merged@) =~= field_views(before).push(field_view(*cf)));
        }
    }
    assert(ex.take(n as int) =~= ex);
    let ghost front = merged@;
    let mut links = link_fields(fields, page);
    merged.append(&mut links);
    assert(field_views(merged@) =~= field_views(front) + link_field_views(
        *fields,
        page.notion_id@,
        page.last_edited_time@,
        page.content_hash@,
    ));
    merged
}

// ---------------------------------------------------------------------------------------
// Reading the document list
// ---------------------------------------------------------------------------------------

/// The page → record map after reading `docs` in order into `m`: a later document for the
/// same page replaces an earlier one.
pub open spec fn absorb_documents(
    m: Map<Seq<char>, (i64, Seq<char>, Seq<char>)>,
    docs: Seq<PaperlessDocument>,
    ids: CustomFieldIds,
) -> Map<Seq<char>, (i64, Seq<char>, Seq<char>)>
    decreases docs.len(),
{
    if docs.len() == 0 {
        m
    } else {
        let before = absorb_documents(m, docs.drop_last(), ids);
        match document_entry(docs.last(), ids) {
            Some(e) => before.insert(e.0, e.1),
            None => before,
        }
    }
}

/// Whether the records of `m` are, key by key, those of `v`.
pub open spec fn records_match(
    m: Map<Seq<char>, DocumentRecord>,
    v: Map<Seq<char>, (i64, Seq<char>, Seq<char>)>,
) -> bool {
    &&& forall|k: Seq<char>| #[trigger] m.contains_key(k) <==> v.contains_key(k)
    &&& forall|k: Seq<char>| #[trigger] m.contains_key(k) ==> record_view(m[k]) == v[k]
}

/// The records of a map, by document ID and texts.
pub open spec fn record_views(m: Map<Seq<char>, DocumentRecord>) -> Map<Seq<char>, (i64, Seq<char>, Seq<char>)> {
    m.map_values(|r: DocumentRecord| record_view(r))
}

/// The walk over Paperless' document list: collects, page by page, the Notion page →
/// Paperless document map, and says which page to fetch next.
pub struct DocumentListing {
    base: String,
    fields: CustomFieldIds,
    records: IdMap<DocumentRecord>,
}

impl DocumentListing {
    /// The base the pagination links are rewritten onto.
    pub closed spec fn base_view(&self) -> Seq<char> {
        self.base@
    }

    /// The link-field IDs the documents are read with.
    pub closed spec fn field_ids(&self) -> CustomFieldIds {
        self.fields
    }

    /// The records collected so far.
    pub closed spec fn collected(&self) -> Map<Seq<char>, (i64, Seq<char>, Seq<char>)> {
        record_views(self.records@)
    }

    /// Starts a walk at `start_url`; the first page to fetch is `start_url` itself.
    pub fn start(start_url: &str, fields: &CustomFieldIds) -> (r: (DocumentListing, String))
        ensures
            r.0.base_view() == base_domain_of(start_url@),
            r.0.field_ids() == *fields,
            r.0.collected() == Map::<Seq<char>, (i64, Seq<char>, Seq<char>)>::empty(),
            r.1@ == start_url@,
    {
        let listing = DocumentListing {
            base: base_domain(start_url),
            fields: *fields,
            records: IdMap::new(),
        };
        assert(listing.collected() =~= Map::<Seq<char>, (i64, Seq<char>, Seq<char>)>::empty());
        (listing, String::from_str(start_url))
    }

    /// Reads one page of the document list. Gives the next page to fetch: the page's
    /// `next` link rewritten onto the base, or `None` at the end.
    pub fn absorb(&mut self, response: PaperlessResponse) -> (next: Option<String>)
        ensures
            final(self).base_view() == old(self).base_view(),
            final(self).field_ids() == old(self).field_ids(),
            final(self).collected() == absorb_documents(
                old(self).collected(),
                response.results@,
                old(self).field_ids(),
            ),
            match response.next {
                Some(n) => next matches Some(u) && u@ == normalized_next_url(
                    n@,
                    old(self).base_view(),
                ),
                None => next is None,
            },
    {
        let ghost start = record_views(self.records@);
        let docs = &response.results;
        let n = docs.len();
        for i in 0..n
            invariant
                n == docs@.len(),
                self.base == old(self).base,
                self.fields == old(self).fields,
                record_views(self.records@) == absorb_documents(start, docs@.take(i as int), self.fields),
        {
            assert(docs@.take(i + 1).drop_last() =~= docs@.take(i as int));
            match document_record(&docs[i], &self.fields) {
                Some((id, record)) => {
                    let ghost key = id@;
                    let ghost before = self.records@;
                    let ghost rv = record_view(record);
                    self.records.insert(id, record);
                    assert(record_views(self.records@) =~= record_views(before).insert(key, rv));
                },
                None => {},
            }
        }
        assert(docs@.take(n as int) =~= docs@);
        match &response.next {
            Some(link) => Some(normalize_next_url(link.as_str(), self.base.as_str())),
            None => None,
        }
    }

    /// The collected Notion page → Paperless document map.
    pub fn finish(self) -> (r: IdMap<DocumentRecord>)
        ensures
            records_match(r@, self.collected()),
    {
        self.records
    }
}

// ---------------------------------------------------------------------------------------
// Resolving the custom fields
// ---------------------------------------------------------------------------------------

/// The walk over the custom-field list: collects name → ID (a later definition of a name
/// replaces an earlier one) and says which page to fetch next.
pub struct FieldCatalog {
    base: String,
    existing: IdMap<i64>,
}

/// The name → ID map after reading `defs` in order into `m`.
pub open spec fn absorb_definitions(m: Map<Seq<char>, i64>, defs: Seq<CustomFieldDefinition>) -> Map<
    Seq<char>,
    i64,
>
    decreases defs.len(),
{
    if defs.len() == 0 {
        m
    } else {
        absorb_definitions(m, defs.drop_last()).insert(defs.last().name@, defs.last().id)
    }
}

impl FieldCatalog {
    /// The base the pagination links are rewritten onto.
    pub closed spec fn base_view(&self) -> Seq<char> {
        self.base@
    }

    /// The name → ID map collected so far.
    pub closed spec fn known(&self) -> Map<Seq<char>, i64> {
        self.existing@
    }

    /// Starts reading the custom-field list of the instance at `base`; the first page to
    /// fetch is `"{base}/api/custom_fields/?page_size=100"`.
    pub fn start(base: &str) -> (r: (FieldCatalog, String))
        ensures
            r.0.base_view() == base@,
            r.0.known() == Map::<Seq<char>, i64>::empty(),
            r.1@ == base@ + "/api/custom_fields/?page_size=100"@,
    {
        (FieldCatalog { base: String::from_str(base), existing: IdMap::new() }, custom_fields_list_url(base))
    }

    /// Reads one page of the custom-field list. Gives the next page to fetch: the page's
    /// `next` link rewritten onto the base, or `None` at the end.
    pub fn absorb(&mut self, page: CustomFieldListResponse) -> (next: Option<String>)
        ensures
            final(self).base_view() == old(self).base_view(),
            final(self).known() == absorb_definitions(old(self).known(), page.results@),
            match page.next {
                Some(n) => next matches Some(u) && u@ == normalized_next_url(
                    n@,
                    old(self).base_view(),
                ),
                None => next is None,
            },
    {
        let ghost start = self.existing@;
        let defs = &page.results;
        let n = defs.len();
        for i in 0..n
            invariant
                n == defs@.len(),
                self.base == old(self).base,
                self.existing@ == absorb_definitions(start, defs@.take(i as int)),
        {
            assert(defs@.take(i + 1).drop_last() =~= defs@.take(i as int));
            let def = &defs[i];
            self.existing.insert(def.name.clone(), def.id);
        }
        assert(defs@.take(n as int) =~= defs@);
        match &page.next {
            Some(link) => Some(normalize_next_url(link.as_str(), self.base.as_str())),
            None => None,
        }
    }

    /// The ID of the custom field called `name`, if the instance has one; otherwise it
    /// has to be created.
    pub fn lookup(&self, name: &str) -> (r: Option<i64>)
        ensures
            match r {
                Some(id) => self.known().contains_key(name@) && self.known()[name@] == id,
                None => !self.known().contains_key(name@),
            },
    {
        match self.existing.get(name) {
            Some(id) => Some(*id),
            None => None,
        }
    }
}

/// The name of the custom field that holds the Notion page ID.
pub fn field_name_notion_id() -> (r: &'static str)
    ensures
        r@ == "notion_id"@,
{
    "notion_id"
}

/// The name of the custom field that holds the page's last-edited time.
pub fn field_name_last_edited() -> (r: &'static str)
    ensures
        r@ == "notion_last_edited"@,
{
    "notion_last_edited"
}

/// The name of the custom field that holds the content hash.
pub fn field_name_content_hash() -> (r: &'static str)
    ensures
        r@ == "notion_content_hash"@,
{
    "notion_content_hash"
}

// ---------------------------------------------------------------------------------------
// Upload tasks
// ---------------------------------------------------------------------------------------

/// Result of waiting for a Paperless task to finish.
#[derive(Debug)]
pub enum TaskResult {
    Success,
    /// The task failed; carries Paperless' plain-text reason (e.g. a duplicate message).
    Failure(String),
    Timeout,
}

/// What the task-status endpoint reports about the first matching task: its `status` and
/// its `result`, each where it is a string.
pub struct TaskReport {
    pub status: Option<String>,
    pub result: Option<String>,
}

/// The outcome a task report settles: success, failure with its reason (a placeholder
/// where Paperless gives none), or nothing yet while the task is pending, started or
/// received (or has an unknown status).
pub open spec fn task_outcome(report: Option<TaskReport>) -> Option<(bool, Seq<char>)> {
    match report {
        None => None,
        Some(r) => {
            let status = match r.status {
                Some(s) => s@,
                None => "UNKNOWN"@,
            };
            if status == "SUCCESS"@ {
                Some((true, Seq::empty()))
            } else if status == "FAILURE"@ {
                Some(
                    (
                        false,
                        match r.result {
                            Some(t) => t@,
                            None => "(no reason given)"@,
                        },
                    ),
                )
            } else {
                None
            }
        },
    }
}

/// Whether `result` is the settled outcome `outcome`.
pub open spec fn result_is(result: TaskResult, outcome: (bool, Seq<char>)) -> bool {
    if outcome.0 {
        result is Success
    } else {
        result matches TaskResult::Failure(m) && m@ == outcome.1
    }
}

/// The outcome of one task report, if it settles the task.
pub fn task_verdict(report: Option<TaskReport>) -> (r: Option<TaskResult>)
    ensures
        match task_outcome(report) {
            Some(o) => r matches Some(t) && result_is(t, o),
            None => r is None,
        },
{
    match report {
        None => None,
        Some(rep) => {
            let status: String = match rep.status {
                Some(s) => s,
                None => String::from_str("UNKNOWN"),
            };
            if crate::text::text_eq(status.as_str(), "SUCCESS") {
                Some(TaskResult::Success)
            } else if crate::text::text_eq(status.as_str(), "FAILURE") {
                let reason = match rep.result {
                    Some(t) => t,
                    None => String::from_str("(no reason given)"),
                };
                Some(TaskResult::Failure(reason))
            } else {
                None
            }
        },
    }
}

/// The number of times a task's status is asked for before giving up.
pub const TASK_POLL_LIMIT: u32 = 10;

/// What to do after a task-status report.
pub enum TaskStep {
    /// The task settled.
    Finished(TaskResult),
    /// Wait, then ask again.
    PollAgain,
    /// Wait, then give up: the task did not settle in time.
    GiveUp,
}

/// Waiting for an upload task: counts the status reports that did not settle it.
pub struct TaskWatch {
    polls: u32,
}

impl TaskWatch {
    /// A watch never counts more than `TASK_POLL_LIMIT` reports.
    #[verifier::type_invariant]
    spec fn within_limit(&self) -> bool {
        self.polls <= TASK_POLL_LIMIT
    }

    /// The number of status reports seen so far.
    pub closed spec fn polls_seen(&self) -> nat {
        self.polls as nat
    }

    /// A fresh watch; the first status request is to be made right away.
    pub fn new() -> (w: TaskWatch)
        ensures
            w.polls_seen() == 0,
    {
        TaskWatch { polls: 0 }
    }

    /// Takes one status report (`None` where the endpoint lists no task). A settling
    /// report finishes the wait; otherwise the watch asks for another round until
    /// `TASK_POLL_LIMIT` reports have been seen, and then gives up. It never asks for more
    /// than `TASK_POLL_LIMIT` reports.
    pub fn observe(&mut self, report: Option<TaskReport>) -> (step: TaskStep)
        ensures
            final(self).polls_seen() <= TASK_POLL_LIMIT,
            old(self).polls_seen() <= TASK_POLL_LIMIT,
            old(self).polls_seen() == TASK_POLL_LIMIT ==> step is GiveUp && final(self).polls_seen()
                == TASK_POLL_LIMIT,
            old(self).polls_seen() < TASK_POLL_LIMIT ==> match task_outcome(report) {
                Some(o) => step matches TaskStep::Finished(t) && result_is(t, o)
                    && final(self).polls_seen() == old(self).polls_seen() + 1,
                None => {
                    &&& final(self).polls_seen() == old(self).polls_seen() + 1
                    &&& final(self).polls_seen() < TASK_POLL_LIMIT ==> step is PollAgain
                    &&& final(self).polls_seen() == TASK_POLL_LIMIT ==> step is GiveUp
                },
            },
    {
        proof {
            use_type_invariant(&*self);
        }
        if self.polls >= TASK_POLL_LIMIT {
            return TaskStep::GiveUp;
        }
        self.polls = self.polls + 1;
        match task_verdict(report) {
            Some(t) => TaskStep::Finished(t),
            None => if self.polls < TASK_POLL_LIMIT {
                TaskStep::PollAgain
            } else {
                TaskStep::GiveUp
            },
        }
    }
}

/// The task ID in the body of an accepted upload (the JSON string, decoded): trimmed, and
/// `None` when nothing is left.
pub fn upload_task_id(body: &str) -> (r: Option<String>)
    ensures
        match r {
            Some(t) => t@ == trim(body@) && t@.len() > 0,
            None => trim(body@).len() == 0,
        },
{
    let t = trim_chars(&chars_of(body));
    if t.len() == 0 {
        None
    } else {
        Some(string_from(&t))
    }
}

/// The document to link after an upload task settled: the one a duplicate rejection
/// names, if the task failed with such a message.
pub fn document_to_adopt(result: &TaskResult) -> (r: Option<i64>)
    ensures
        match result {
            TaskResult::Failure(m) => r == duplicate_document_id(m@),
            _ => r is None,
        },
{
    match result {
        TaskResult::Failure(message) => parse_duplicate_document_id(message.as_str()),
        _ => None,
    }
}


// ---------------------------------------------------------------------------------------
// Laws
// ---------------------------------------------------------------------------------------

proof fn lemma_link_slots(
    front: Seq<(i64, Option<Seq<char>>)>,
    ids: CustomFieldIds,
    notion_id: Seq<char>,
    last_edited: Seq<char>,
    content_hash: Seq<char>,
)
    requires
        distinct_ids(ids),
    ensures
        ({
            let all = front + link_field_views(ids, notion_id, last_edited, content_hash);
            &&& slot_value(all, ids, 0) == Some(notion_id)
            &&& slot_value(all, ids, 1) == Some(last_edited)
            &&& slot_value(all, ids, 2) == Some(content_hash)
        }),
{
    let all = front + link_field_views(ids, notion_id, last_edited, content_hash);
    let a = (ids.notion_id, Some(notion_id));
    let b = (ids.last_edited, Some(last_edited));
    let c = (ids.content_hash, Some(content_hash));
    assert(all.last() == c);
    assert(all.drop_last() =~= front + seq![a, b]);
    assert((front + seq![a, b]).last() == b);
    assert((front + seq![a, b]).drop_last() =~= front + seq![a]);
    assert((front + seq![a]).last() == a);
    assert(field_slot(c.0, ids) == 2);
    assert(field_slot(b.0, ids) == 1);
    assert(field_slot(a.0, ids) == 0);
    assert(slot_value(front + seq![a], ids, 0) == Some(notion_id));
    assert(slot_value(front + seq![a, b], ids, 0) == Some(notion_id));
    assert(slot_value(front + seq![a, b], ids, 1) == Some(last_edited));
}

/// A document read back after it was linked to a page (uploaded with the link fields, or
/// an existing document merged with them) names that page, with the last-edited time and
/// content hash it was linked with, whatever other fields it carries. The three link
/// fields must be distinct custom fields.
pub proof fn law_linked_document_reads_back(
    doc: PaperlessDocument,
    existing: Seq<(i64, Option<Seq<char>>)>,
    ids: CustomFieldIds,
    notion_id: Seq<char>,
    last_edited: Seq<char>,
    content_hash: Seq<char>,
)
    requires
        distinct_ids(ids),
        field_views(doc.custom_fields@) == merged_field_views(
            existing,
            ids,
            notion_id,
            last_edited,
            content_hash,
        ),
    ensures
        document_entry(doc, ids) == Some((notion_id, (doc.id, last_edited, content_hash))),
{
    lemma_link_slots(foreign_fields(existing, ids), ids, notion_id, last_edited, content_hash);
}

/// A document uploaded with the link fields of a page names that page when it is read
/// back. The three link fields must be distinct custom fields.
pub proof fn law_uploaded_document_reads_back(
    doc: PaperlessDocument,
    ids: CustomFieldIds,
    notion_id: Seq<char>,
    last_edited: Seq<char>,
    content_hash: Seq<char>,
)
    requires
        distinct_ids(ids),
        field_views(doc.custom_fields@) == link_field_views(
            ids,
            notion_id,
            last_edited,
            content_hash,
        ),
    ensures
        document_entry(doc, ids) == Some((notion_id, (doc.id, last_edited, content_hash))),
{
    let empty = Seq::<(i64, Option<Seq<char>>)>::empty();
    assert(merged_field_views(empty, ids, notion_id, last_edited, content_hash) =~= link_field_views(
        ids,
        notion_id,
        last_edited,
        content_hash,
    ));
    law_linked_document_reads_back(doc, empty, ids, notion_id, last_edited, content_hash);
}

proof fn lemma_foreign_concat(a: Seq<(i64, Option<Seq<char>>)>, b: Seq<(i64, Option<Seq<char>>)>, ids: CustomFieldIds)
    ensures
        foreign_fields(a + b, ids) == foreign_fields(a, ids) + foreign_fields(b, ids),
    decreases b.len(),
{
    if b.len() == 0 {
        assert(a + b =~= a);
        assert(foreign_fields(a, ids) + foreign_fields(b, ids) =~= foreign_fields(a, ids));
    } else {
        lemma_foreign_concat(a, b.drop_last(), ids);
        assert((a + b).drop_last() =~= a + b.drop_last());
        assert((a + b).last() == b.last());
        if !is_link_field(b.last().0, ids) {
            assert(foreign_fields(a, ids) + foreign_fields(b.drop_last(), ids).push(b.last())
                =~= (foreign_fields(a, ids) + foreign_fields(b.drop_last(), ids)).push(b.last()));
        }
    }
}

proof fn lemma_foreign_idempotent(a: Seq<(i64, Option<Seq<char>>)>, ids: CustomFieldIds)
    ensures
        foreign_fields(foreign_fields(a, ids), ids) == foreign_fields(a, ids),
    decreases a.len(),
{
    if a.len() > 0 {
        lemma_foreign_idempotent(a.drop_last(), ids);
        let f = foreign_fields(a.drop_last(), ids);
        if !is_link_field(a.last().0, ids) {
            assert(f.push(a.last()).drop_last() =~= f);
        }
    }
}

proof fn lemma_foreign_of_links(
    ids: CustomFieldIds,
    notion_id: Seq<char>,
    last_edited: Seq<char>,
    content_hash: Seq<char>,
)
    ensures
        foreign_fields(link_field_views(ids, notion_id, last_edited, content_hash), ids)
            == Seq::<(i64, Option<Seq<char>>)>::empty(),
{
    let l = link_field_views(ids, notion_id, last_edited, content_hash);
    let e = Seq::<(i64, Option<Seq<char>>)>::empty();
    let l1 = seq![l[0]];
    let l2 = seq![l[0], l[1]];
    assert(l1.drop_last() =~= e);
    assert(foreign_fields(e, ids) == e);
    assert(foreign_fields(l1, ids) == foreign_fields(e, ids));
    assert(l2.drop_last() =~= l1);
    assert(foreign_fields(l2, ids) == foreign_fields(l1, ids));
    assert(l.drop_last() =~= l2);
    assert(foreign_fields(l, ids) == foreign_fields(l2, ids));
}

/// Linking a document never touches its other custom fields: they come out exactly as
/// they went in, in the same order.
pub proof fn law_merge_keeps_foreign_fields(
    existing: Seq<(i64, Option<Seq<char>>)>,
    ids: CustomFieldIds,
    notion_id: Seq<char>,
    last_edited: Seq<char>,
    content_hash: Seq<char>,
)
    ensures
        foreign_fields(
            merged_field_views(existing, ids, notion_id, last_edited, content_hash),
            ids,
        ) == foreign_fields(existing, ids),
{
    let f = foreign_fields(existing, ids);
    let l = link_field_views(ids, notion_id, last_edited, content_hash);
    lemma_foreign_concat(f, l, ids);
    lemma_foreign_idempotent(existing, ids);
    lemma_foreign_of_links(ids, notion_id, last_edited, content_hash);
    assert(f + Seq::<(i64, Option<Seq<char>>)>::empty() =~= f);
}

/// Linking a document to the same page twice gives the same custom fields as linking it
/// once.
pub proof fn law_merge_idempotent(
    existing: Seq<(i64, Option<Seq<char>>)>,
    ids: CustomFieldIds,
    notion_id: Seq<char>,
    last_edited: Seq<char>,
    content_hash: Seq<char>,
)
    ensures
        merged_field_views(
            merged_field_views(existing, ids, notion_id, last_edited, content_hash),
            ids,
            notion_id,
            last_edited,
            content_hash,
        ) == merged_field_views(existing, ids, notion_id, last_edited, content_hash),
{
    law_merge_keeps_foreign_fields(existing, ids, notion_id, last_edited, content_hash);
}

/// Reading a document list, the last listed document for a page decides that page's
/// record.
pub proof fn law_last_listed_document_wins(
    m: Map<Seq<char>, (i64, Seq<char>, Seq<char>)>,
    docs: Seq<PaperlessDocument>,
    ids: CustomFieldIds,
    notion_id: Seq<char>,
    record: (i64, Seq<char>, Seq<char>),
)
    requires
        docs.len() > 0,
        document_entry(docs.last(), ids) == Some((notion_id, record)),
    ensures
        absorb_documents(m, docs, ids).contains_key(notion_id),
        absorb_documents(m, docs, ids)[notion_id] == record,
{
}

/// The characters of a decimal text are a leading `-` or decimal digits.
pub open spec fn decimal_text(d: Seq<char>) -> bool {
    &&& d.len() > 0
    &&& digit_value(d.last()) is Some
    &&& forall|i: int| 0 <= i < d.len() ==> (i == 0 && d[i] == '-') || (#[trigger] digit_value(d[i])) is Some
}

proof fn lemma_digit_not_special(c: char)
    requires
        digit_value(c) is Some,
    ensures
        c != '(',
        c != ')',
        c != '#',
        !is_whitespace(c),
{
}

proof fn lemma_last_open_mark(prefix: Seq<char>, d: Seq<char>, suffix: Seq<char>)
    requires
        decimal_text(d),
        forall|m: int| !occurs_at(suffix, "(#"@, m),
    ensures
        rfind(prefix + "(#"@ + d + ")"@ + suffix, "(#"@) == Some(prefix.len() as int),
{
    reveal_strlit("(#");
    reveal_strlit(")");
    let open = "(#"@;
    let msg = prefix + open + d + ")"@ + suffix;
    let p = prefix.len() as int;
    let s0 = p + 3 + d.len();
    assert(msg.subrange(p, p + 2) =~= open);
    assert forall|m: int| p < m implies !occurs_at(msg, open, m) by {
        if occurs_at(msg, open, m) {
            assert(msg.subrange(m, m + 2)[0] == '(');
            assert(msg.subrange(m, m + 2)[1] == '#');
            if m == p + 1 {
                assert(msg[m] == '#');
            } else if m < p + 2 + d.len() {
                assert(msg[m] == d[m - p - 2]);
                if m - p - 2 != 0 || d[m - p - 2] != '-' {
                    lemma_digit_not_special(d[m - p - 2]);
                }
            } else if m == p + 2 + d.len() {
                assert(msg[m] == ')');
            } else {
                assert(msg.subrange(m, m + 2) =~= suffix.subrange(m - s0, m - s0 + 2));
                assert(occurs_at(suffix, open, m - s0));
            }
        }
    }
    lemma_rfind_is(msg, open, p);
}

proof fn lemma_first_close_mark(d: Seq<char>, suffix: Seq<char>)
    requires
        decimal_text(d),
    ensures
        find(d + ")"@ + suffix, ")"@) == Some(d.len() as int),
{
    reveal_strlit(")");
    let close = ")"@;
    let rest = d + close + suffix;
    assert(rest.subrange(d.len() as int, d.len() as int + 1) =~= close);
    assert forall|m: int| 0 <= m < d.len() implies !occurs_at(rest, close, m) by {
        if occurs_at(rest, close, m) {
            assert(rest.subrange(m, m + 1)[0] == ')');
            assert(rest[m] == d[m]);
            if m != 0 || d[m] != '-' {
                lemma_digit_not_special(d[m]);
            }
        }
    }
    lemma_find_is(rest, close, d.len() as int);
}

/// A duplicate-rejection message that names a document as `(#N)` after any text, with no
/// further `(#` after it, yields `N`.
pub proof fn law_duplicate_message_names_document(prefix: Seq<char>, n: i64, suffix: Seq<char>)
    requires
        forall|m: int| !occurs_at(suffix, "(#"@, m),
    ensures
        duplicate_document_id(prefix + "(#"@ + decimal(n as int) + ")"@ + suffix) == Some(n),
{
    reveal_strlit("(#");
    let d = decimal(n as int);
    lemma_decimal_chars(n as int);
    assert(decimal_text(d));
    let open = "(#"@;
    let close = ")"@;
    let msg = prefix + open + d + close + suffix;
    let p = prefix.len() as int;
    lemma_last_open_mark(prefix, d, suffix);
    let rest = msg.subrange(p + 2, msg.len() as int);
    assert(rest =~= d + close + suffix);
    lemma_first_close_mark(d, suffix);
    assert(rest.subrange(0, d.len() as int) =~= d);
    if d[0] != '-' {
        lemma_digit_not_special(d[0]);
    }
    lemma_digit_not_special(d.last());
    lemma_trim_unchanged(d);
    law_parse_reads_decimal(n);
}

/// The base of a configured URL never ends with `/`; it is a prefix of the URL with
/// whitespace and trailing slashes removed; it holds no `/api` after the scheme and host;
/// and it keeps the scheme, host and port whole (where the host is not empty).
pub proof fn law_base_domain_shape(url: Seq<char>)
    ensures
        ({
            let clean = trim_end_matches(trim(url), '/');
            let b = base_domain_of(url);
            let h = authority_end(clean);
            &&& !ends_with_char(b, '/')
            &&& b.len() <= clean.len()
            &&& b == clean.subrange(0, b.len() as int)
            &&& find_from(b, "/api"@, authority_start(clean)) is None
            &&& (h > 0 && clean[h - 1] != '/') ==> b.len() >= h
        }),
{
    reveal_strlit("/api");
    reveal_strlit("/");
    let clean = trim_end_matches(trim(url), '/');
    let marker = "/api"@;
    let a = authority_start(clean);
    let head = match find_from(clean, marker, a) {
        Some(i) => clean.subrange(0, i),
        None => clean,
    };
    let b = trim_end_matches(head, '/');
    lemma_trim_end_matches(head, '/');
    lemma_find_from(clean, marker, a);
    lemma_find_from(b, marker, a);
    assert(head.len() <= clean.len() && head == clean.subrange(0, head.len() as int)) by {
        match find_from(clean, marker, a) {
            Some(i) => {
                assert(occurs_at(clean, marker, i));
            },
            None => {
                assert(clean.subrange(0, clean.len() as int) =~= clean);
            },
        }
    }
    assert(b =~= clean.subrange(0, b.len() as int)) by {
        assert(b == head.subrange(0, b.len() as int));
    }
    match find_from(b, marker, a) {
        Some(m) => {
            assert(occurs_at(b, marker, m));
            assert(b.subrange(m, m + marker.len()) =~= clean.subrange(m, m + marker.len()));
            assert(occurs_at(clean, marker, m));
            match find_from(clean, marker, a) {
                Some(i) => {
                    assert(occurs_at(clean, marker, i));
                    assert(head.len() == i);
                    assert(m < i);
                },
                None => {},
            }
            assert(false);
        },
        None => {},
    }
    let h = authority_end(clean);
    if h > 0 && clean[h - 1] != '/' {
        lemma_find_from(clean, "/"@, a);
        assert(head.len() >= h) by {
            match find_from(clean, marker, a) {
                Some(i) => {
                    assert(occurs_at(clean, marker, i));
                    assert(clean.subrange(i, i + 4)[0] == '/');
                    assert(clean.subrange(i, i + 1) =~= "/"@);
                    assert(occurs_at(clean, "/"@, i));
                },
                None => {},
            }
        }
        assert(head[h - 1] == clean[h - 1]);
        lemma_trim_end_keeps(head, '/', h);
    }
}

/// Only the path and query of a pagination link matter: two links with the same path and
/// query are rewritten alike.
pub proof fn law_only_path_and_query_matter(next1: Seq<char>, next2: Seq<char>, base: Seq<char>)
    requires
        path_and_query(next1) == path_and_query(next2),
    ensures
        normalized_next_url(next1, base) == normalized_next_url(next2, base),
{
}

/// After rewriting, a pagination link always has a `/` right before its query string, or
/// ends with `/` when it has none.
pub proof fn law_slash_before_query(url: Seq<char>)
    ensures
        ({
            let w = with_slash_before_query(url);
            match find(w, "?"@) {
                Some(q) => q > 0 && w[q - 1] == '/',
                None => ends_with_char(w, '/'),
            }
        }),
{
    reveal_strlit("?");
    let qm = "?"@;
    lemma_find(url, qm);
    match find(url, qm) {
        Some(q) => {
            if !ends_with_char(url.subrange(0, q), '/') {
                let w = url.subrange(0, q).push('/') + url.subrange(q, url.len() as int);
                assert(w.subrange(q + 1, q + 2) =~= url.subrange(q, q + 1));
                assert forall|m: int| 0 <= m < q + 1 implies !occurs_at(w, qm, m) by {
                    if occurs_at(w, qm, m) {
                        assert(w.subrange(m, m + 1)[0] == '?');
                        if m < q {
                            assert(w[m] == url[m]);
                            assert(url.subrange(m, m + 1) =~= qm);
                            assert(occurs_at(url, qm, m));
                        } else {
                            assert(w[m] == '/');
                        }
                    }
                }
                lemma_find_is(w, qm, q + 1);
                assert(w[q] == '/');
            } else {
                assert(url[q - 1] == url.subrange(0, q).last());
            }
        },
        None => {
            if !ends_with_char(url, '/') {
                let w = url.push('/');
                assert forall|m: int| !occurs_at(w, qm, m) by {
                    if occurs_at(w, qm, m) {
                        assert(w.subrange(m, m + 1)[0] == '?');
                        if m < url.len() {
                            assert(url.subrange(m, m + 1) =~= qm);
                            assert(occurs_at(url, qm, m));
                        }
                    }
                }
                lemma_find_none(w, qm);
            }
        },
    }
}

/// A rewritten pagination link starts with the configured base (so it keeps the base's
/// scheme, host and port), provided the base has no query string of its own.
pub proof fn law_rewritten_link_keeps_base(next: Seq<char>, base: Seq<char>)
    requires
        forall|i: int| 0 <= i < base.len() ==> base[i] != '?',
    ensures
        normalized_next_url(next, base).len() >= base.len(),
        normalized_next_url(next, base).subrange(0, base.len() as int) == base,
{
    reveal_strlit("?");
    let qm = "?"@;
    let url = base + path_and_query(next);
    lemma_find(url, qm);
    match find(url, qm) {
        Some(q) => {
            assert(url.subrange(q, q + 1)[0] == '?');
            assert(q >= base.len()) by {
                if q < base.len() {
                    assert(url[q] == base[q]);
                }
            }
            let w = with_slash_before_query(url);
            assert(w.subrange(0, base.len() as int) =~= base);
        },
        None => {
            assert(with_slash_before_query(url).subrange(0, base.len() as int) =~= base);
        },
    }
}


// ---------------------------------------------------------------------------------------
// Laws stated over the raw custom fields and task statuses
// ---------------------------------------------------------------------------------------

proof fn lemma_slot_ignores_foreign(
    a: Seq<(i64, Option<Seq<char>>)>,
    f: (i64, Option<Seq<char>>),
    b: Seq<(i64, Option<Seq<char>>)>,
    ids: CustomFieldIds,
    slot: nat,
)
    requires
        f.0 != ids.notion_id,
        f.0 != ids.last_edited,
        f.0 != ids.content_hash,
        slot < 3,
    ensures
        slot_value(a + seq![f] + b, ids, slot) == slot_value(a + b, ids, slot),
    decreases b.len(),
{
    if b.len() == 0 {
        assert(a + seq![f] + b =~= a.push(f));
        assert(a.push(f).drop_last() =~= a);
        assert(a + b =~= a);
    } else {
        lemma_slot_ignores_foreign(a, f, b.drop_last(), ids, slot);
        assert((a + seq![f] + b).drop_last() =~= a + seq![f] + b.drop_last());
        assert((a + b).drop_last() =~= a + b.drop_last());
        assert((a + seq![f] + b).last() == b.last());
        assert((a + b).last() == b.last());
    }
}

/// A custom field that is none of the three link fields has no effect on what a
/// document says about its page: inserting one anywhere among a document's fields reads
/// the same page ID, last-edited time and content hash.
pub proof fn law_other_fields_do_not_affect_reading(
    doc_with: PaperlessDocument,
    doc_without: PaperlessDocument,
    before: Seq<(i64, Option<Seq<char>>)>,
    other: (i64, Option<Seq<char>>),
    after: Seq<(i64, Option<Seq<char>>)>,
    ids: CustomFieldIds,
)
    requires
        doc_with.id == doc_without.id,
        other.0 != ids.notion_id,
        other.0 != ids.last_edited,
        other.0 != ids.content_hash,
        field_views(doc_with.custom_fields@) == before + seq![other] + after,
        field_views(doc_without.custom_fields@) == before + after,
    ensures
        document_entry(doc_with, ids) == document_entry(doc_without, ids),
{
    lemma_slot_ignores_foreign(before, other, after, ids, 0);
    lemma_slot_ignores_foreign(before, other, after, ids, 1);
    lemma_slot_ignores_foreign(before, other, after, ids, 2);
}

proof fn lemma_slot_last_hash(
    a: Seq<(i64, Option<Seq<char>>)>,
    h: Seq<char>,
    b: Seq<(i64, Option<Seq<char>>)>,
    ids: CustomFieldIds,
)
    requires
        distinct_ids(ids),
        forall|k: int| 0 <= k < b.len() ==> (#[trigger] b[k]).0 != ids.content_hash,
    ensures
        slot_value(a + seq![(ids.content_hash, Some(h))] + b, ids, 2) == Some(h),
    decreases b.len(),
{
    let x = (ids.content_hash, Some(h));
    if b.len() == 0 {
        assert(a + seq![x] + b =~= a.push(x));
    } else {
        assert(b.last() == b[b.len() - 1]);
        lemma_slot_last_hash(a, h, b.drop_last(), ids);
        assert((a + seq![x] + b).drop_last() =~= a + seq![x] + b.drop_last());
        assert((a + seq![x] + b).last() == b.last());
    }
}

/// The content hash read from a document is the value of its last field with the
/// content-hash ID, whatever other fields come before or after it. The three link fields
/// must be distinct custom fields.
pub proof fn law_read_hash_is_last_hash_field(
    doc: PaperlessDocument,
    before: Seq<(i64, Option<Seq<char>>)>,
    hash: Seq<char>,
    after: Seq<(i64, Option<Seq<char>>)>,
    ids: CustomFieldIds,
)
    requires
        distinct_ids(ids),
        forall|k: int| 0 <= k < after.len() ==> (#[trigger] after[k]).0 != ids.content_hash,
        field_views(doc.custom_fields@) == before + seq![(ids.content_hash, Some(hash))] + after,
    ensures
        document_entry(doc, ids) matches Some(e) ==> e.1.2 == hash,
{
    lemma_slot_last_hash(before, hash, after, ids);
}

/// Whether a field is none of the three link fields, stated on the IDs themselves.
pub open spec fn keeps_field(ids: CustomFieldIds) -> spec_fn((i64, Option<Seq<char>>)) -> bool {
    |cf: (i64, Option<Seq<char>>)|
        cf.0 != ids.notion_id && cf.0 != ids.last_edited && cf.0 != ids.content_hash
}

proof fn lemma_foreign_is_filter(cfs: Seq<(i64, Option<Seq<char>>)>, ids: CustomFieldIds)
    ensures
        foreign_fields(cfs, ids) == cfs.filter(keeps_field(ids)),
    decreases cfs.len(),
{
    reveal(Seq::filter);
    if cfs.len() > 0 {
        lemma_foreign_is_filter(cfs.drop_last(), ids);
    }
}

/// Linking keeps exactly the existing fields whose ID is none of the three link-field IDs,
/// in their order, and follows them with the page ID, last-edited time and content hash
/// under their field IDs.
pub proof fn law_merge_keeps_exactly_other_fields(
    existing: Seq<(i64, Option<Seq<char>>)>,
    ids: CustomFieldIds,
    notion_id: Seq<char>,
    last_edited: Seq<char>,
    content_hash: Seq<char>,
)
    ensures
        merged_field_views(existing, ids, notion_id, last_edited, content_hash) == existing.filter(
            |cf: (i64, Option<Seq<char>>)|
                cf.0 != ids.notion_id && cf.0 != ids.last_edited && cf.0 != ids.content_hash,
        ) + seq![
            (ids.notion_id, Some(notion_id)),
            (ids.last_edited, Some(last_edited)),
            (ids.content_hash, Some(content_hash)),
        ],
{
    lemma_foreign_is_filter(existing, ids);
    assert(keeps_field(ids) =~= (|cf: (i64, Option<Seq<char>>)|
        cf.0 != ids.notion_id && cf.0 != ids.last_edited && cf.0 != ids.content_hash));
}

/// A task report settles the task as a success exactly when its status is `SUCCESS`, as a
/// failure exactly when its status is `FAILURE` (with the report's result as the reason,
/// or a placeholder), and settles nothing for any other status (`PENDING`, `STARTED`,
/// `RECEIVED`, unknown or missing) or when no task is listed.
pub proof fn law_task_settles_only_on_success_or_failure(report: Option<TaskReport>)
    ensures
        (task_outcome(report) matches Some(o) && o.0) <==> (report matches Some(r) && r.status
            matches Some(s) && s@ == "SUCCESS"@),
        (task_outcome(report) matches Some(o) && !o.0) <==> (report matches Some(r) && r.status
            matches Some(s) && s@ == "FAILURE"@),
        task_outcome(report) is None <==> !(report matches Some(r) && r.status matches Some(s) && (
        s@ == "SUCCESS"@ || s@ == "FAILURE"@)),
        match report {
            Some(r) => (r.status matches Some(s) && s@ == "FAILURE"@) ==> task_outcome(report)
                == Some(
                (
                    false,
                    match r.result {
                        Some(t) => t@,
                        None => "(no reason given)"@,
                    },
                ),
            ),
            None => true,
        },
{
    reveal_strlit("SUCCESS");
    reveal_strlit("FAILURE");
    reveal_strlit("UNKNOWN");
    assert("UNKNOWN"@[0] != "SUCCESS"@[0]);
    assert("UNKNOWN"@[0] != "FAILURE"@[0]);
    assert("SUCCESS"@[0] != "FAILURE"@[0]);
    assert("UNKNOWN"@ != "SUCCESS"@);
    assert("UNKNOWN"@ != "FAILURE"@);
    assert("SUCCESS"@ != "FAILURE"@);
    match report {
        Some(r) => {
            match r.status {
                Some(st) => {},
                None => {},
            }
        },
        None => {},
    }
}

} // verus!
