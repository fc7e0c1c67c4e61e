//! One synchronisation cycle: exporting pages, deciding per page what has to happen, and
//! turning the decisions into the steps that the cycle carries out.

use vstd::prelude::*;
use vstd::string::StringExecFns;

use crate::collection::IdMap;
use crate::helpers::{
    compute_content_hash, content_hash_of, decide_sync_action, is_later, sync_action_for, timestamp_of,
};
use crate::paperless::{
    distinct_ids, document_entry, field_views, law_linked_document_reads_back, merged_field_views,
};
use crate::paperless::model::{CustomFieldIds, PaperlessDocument};
use crate::model::SyncAction;
use crate::notion::PageSummary;
use crate::paperless::DocumentRecord;

verus! {

/// A fully exported Notion page: metadata plus rendered Markdown and its content hash.
#[derive(Debug)]
pub struct ExportedPage {
    pub last_edited_time: String,
    pub title: String,
    pub content_hash: String,
    pub markdown: String,
}

/// Completes a page summary with its exported Markdown and that Markdown's content hash.
pub fn export_page(summary: &PageSummary, markdown: String) -> (r: ExportedPage)
    ensures
        r.last_edited_time@ == summary.last_edited_time@,
        r.title@ == summary.title@,
        r.content_hash@ == content_hash_of(markdown@),
        r.content_hash@.len() == 64,
        r.markdown == markdown,
{
    let content_hash = compute_content_hash(markdown.as_str());
    ExportedPage {
        last_edited_time: summary.last_edited_time.clone(),
        title: summary.title.clone(),
        content_hash,
        markdown,
    }
}

/// What Paperless holds for a page: the last-edited text and content hash of its record.
pub open spec fn record_pair(paperless: Map<Seq<char>, DocumentRecord>, id: Seq<char>) -> Option<
    (Seq<char>, Seq<char>),
> {
    if paperless.contains_key(id) {
        Some((paperless[id].last_edited_time@, paperless[id].content_hash@))
    } else {
        None
    }
}

/// Decides, for every exported Notion page, what to do with it, given the Notion page →
/// Paperless document map. Every page gets exactly one action, in the order of
/// `notion`'s keys.
pub fn compare_memories(paperless: &IdMap<DocumentRecord>, notion: &IdMap<ExportedPage>) -> (actions:
    IdMap<SyncAction>)
    ensures
        actions.key_list() == notion.key_list(),
        forall|id: Seq<char>| #[trigger] actions@.contains_key(id) <==> notion@.contains_key(id),
        forall|id: Seq<char>|
            #[trigger] notion@.contains_key(id) ==> actions@[id] == sync_action_for(
                record_pair(paperless@, id),
                notion@[id].last_edited_time@,
                notion@[id].content_hash@,
            ),
{
    proof {
        use_type_invariant(notion);
    }
    let mut actions: IdMap<SyncAction> = IdMap::new();
    proof {
        use_type_invariant(&actions);
    }
    let n = notion.len();
    for i in 0..n
        invariant
            n == notion.key_list().len(),
            notion.wf(),
            actions.wf(),
            actions.key_list() == notion.key_list().take(i as int),
            forall|j: int|
                0 <= j < i ==> #[trigger] actions@[notion.key_list()[j]] == sync_action_for(
                    record_pair(paperless@, notion.key_list()[j]),
                    notion@[notion.key_list()[j]].last_edited_time@,
                    notion@[notion.key_list()[j]].content_hash@,
                ),
    {
        let id = notion.key_at(i);
        assert(notion.key_list().contains(id@));
        let page = notion.get(id.as_str()).unwrap();
        let record: Option<(&str, &str)> = match paperless.get(id.as_str()) {
            Some(r) => Some((r.last_edited_time.as_str(), r.content_hash.as_str())),
            None => None,
        };
        let action = decide_sync_action(
            record,
            page.last_edited_time.as_str(),
            page.content_hash.as_str(),
        );
        assert(!actions@.contains_key(id@)) by {
            if actions.key_list().contains(id@) {
                let j = choose|j: int|
                    0 <= j < actions.key_list().len() && actions.key_list()[j] == id@;
                assert(notion.key_list()[j] == notion.key_list()[i as int]);
            }
        }
        actions.insert(id.clone(), action);
        proof {
            use_type_invariant(&actions);
        }
        assert(actions.key_list() =~= notion.key_list().take(i + 1));
        assert forall|j: int| 0 <= j < i + 1 implies #[trigger] actions@[notion.key_list()[j]]
            == sync_action_for(
            record_pair(paperless@, notion.key_list()[j]),
            notion@[notion.key_list()[j]].last_edited_time@,
            notion@[notion.key_list()[j]].content_hash@,
        ) by {
            if j < i {
                assert(notion.key_list()[j] != id@);
            }
        }
    }
    assert(notion.key_list().take(n as int) =~= notion.key_list());
    assert forall|id: Seq<char>| #[trigger] notion@.contains_key(id) implies actions@[id]
        == sync_action_for(
        record_pair(paperless@, id),
        notion@[id].last_edited_time@,
        notion@[id].content_hash@,
    ) by {
        assert(notion.key_list().contains(id));
        let j = choose|j: int| 0 <= j < notion.key_list().len() && notion.key_list()[j] == id;
        assert(actions@[notion.key_list()[j]] == sync_action_for(
            record_pair(paperless@, notion.key_list()[j]),
            notion@[notion.key_list()[j]].last_edited_time@,
            notion@[notion.key_list()[j]].content_hash@,
        ));
    }
    assert forall|id: Seq<char>| #[trigger] actions@.contains_key(id) <==> notion@.contains_key(id) by {
        assert(actions@.contains_key(id) <==> actions.key_list().contains(id));
        assert(notion@.contains_key(id) <==> notion.key_list().contains(id));
    }
    actions
}

/// The Markdown uploaded when a page replaces an older version: the Markdown followed by a
/// rule and the page's last-edited time, so that Paperless does not take it for a
/// duplicate of the deleted document.
pub open spec fn unique_markdown_of(markdown: Seq<char>, last_edited: Seq<char>) -> Seq<char> {
    markdown + "\n\n---\n*Last updated in Notion: "@ + last_edited + "*"@
}

/// `"{markdown}\n\n---\n*Last updated in Notion: {last_edited}*"`.
pub fn unique_markdown(markdown: &str, last_edited: &str) -> (r: String)
    ensures
        r@ == unique_markdown_of(markdown@, last_edited@),
{
    let mut s = String::from_str(markdown);
    s.append("\n\n---\n*Last updated in Notion: ");
    s.append(last_edited);
    s.append("*");
    s
}

/// One upload: the page it is for, the link fields it carries, its title and content.
#[derive(Debug)]
pub struct UploadPlan {
    pub notion_id: String,
    pub last_edited_time: String,
    pub content_hash: String,
    pub title: String,
    pub content: String,
}

/// What a cycle does for one page.
#[derive(Debug)]
pub enum SyncStep {
    /// Upload the page as a new document.
    Create(UploadPlan),
    /// Delete the given document permanently, then upload the page anew.
    Replace(i64, UploadPlan),
    /// Paperless is newer; only reported, nothing is written back to Notion.
    NotionOutdated,
    /// Nothing to do.
    UpToDate,
    /// Paperless is older but holds no record of the page: nothing is done.
    Skip,
}

/// Whether `plan` uploads `content` for page `id` with the link fields of `page`.
pub open spec fn upload_plan_is(plan: UploadPlan, id: Seq<char>, page: ExportedPage, content: Seq<char>) -> bool {
    &&& plan.notion_id@ == id
    &&& plan.last_edited_time@ == page.last_edited_time@
    &&& plan.content_hash@ == page.content_hash@
    &&& plan.title@ == page.title@
    &&& plan.content@ == content
}

/// Whether `step` carries out `action` for page `id`, given its export and what Paperless
/// holds for it: a new page is uploaded as it is; a page that is newer in Notion replaces
/// its document, uploaded with the last-edited note; the rest is only reported.
pub open spec fn step_matches(
    step: SyncStep,
    id: Seq<char>,
    action: SyncAction,
    page: ExportedPage,
    record: Option<DocumentRecord>,
) -> bool {
    match action {
        SyncAction::CreateInPaperless => step matches SyncStep::Create(p) && upload_plan_is(
            p,
            id,
            page,
            page.markdown@,
        ),
        SyncAction::UpdateNotion => step is NotionOutdated,
        SyncAction::UpdatePaperless => match record {
            Some(r) => step matches SyncStep::Replace(d, p) && d == r.document_id && upload_plan_is(
                p,
                id,
                page,
                unique_markdown_of(page.markdown@, page.last_edited_time@),
            ),
            None => step is Skip,
        },
        SyncAction::UpToDate => step is UpToDate,
    }
}

fn upload_plan(id: &String, page: &ExportedPage, content: String) -> (p: UploadPlan)
    ensures
        upload_plan_is(p, id@, *page, content@),
{
    UploadPlan {
        notion_id: id.clone(),
        last_edited_time: page.last_edited_time.clone(),
        content_hash: page.content_hash.clone(),
        title: page.title.clone(),
        content,
    }
}

/// The step that carries out `action` for page `id`.
pub fn plan_step(id: &String, action: SyncAction, page: &ExportedPage, record: Option<&DocumentRecord>) -> (s:
    SyncStep)
    ensures
        step_matches(
            s,
            id@,
            action,
            *page,
            match record {
                Some(r) => Some(*r),
                None => None,
            },
        ),
{
    match action {
        SyncAction::CreateInPaperless => SyncStep::Create(
            upload_plan(id, page, page.markdown.clone()),
        ),
        SyncAction::UpdateNotion => SyncStep::NotionOutdated,
        SyncAction::UpdatePaperless => match record {
            Some(r) => {
                let content = unique_markdown(page.markdown.as_str(), page.last_edited_time.as_str());
                SyncStep::Replace(r.document_id, upload_plan(id, page, content))
            },
            None => SyncStep::Skip,
        },
        SyncAction::UpToDate => SyncStep::UpToDate,
    }
}

/// What Paperless holds for a page, as a record.
pub open spec fn record_of(paperless: Map<Seq<char>, DocumentRecord>, id: Seq<char>) -> Option<DocumentRecord> {
    if paperless.contains_key(id) {
        Some(paperless[id])
    } else {
        None
    }
}

/// Whether `step` is the planned step for page `id`: it names the page and carries out the
/// action that the comparison decides for it.
pub open spec fn plans_page(
    step: (String, SyncStep),
    id: Seq<char>,
    paperless: Map<Seq<char>, DocumentRecord>,
    exported: Map<Seq<char>, ExportedPage>,
) -> bool {
    &&& step.0@ == id
    &&& step_matches(
        step.1,
        id,
        sync_action_for(
            record_pair(paperless, id),
            exported[id].last_edited_time@,
            exported[id].content_hash@,
        ),
        exported[id],
        record_of(paperless, id),
    )
}

/// Whether `steps` is the plan of a cycle over the pages `ids`: one planned step per page,
/// in order.
pub open spec fn is_plan(
    steps: Seq<(String, SyncStep)>,
    ids: Seq<Seq<char>>,
    paperless: Map<Seq<char>, DocumentRecord>,
    exported: Map<Seq<char>, ExportedPage>,
) -> bool {
    &&& steps.len() == ids.len()
    &&& forall|i: int| 0 <= i < steps.len() ==> plans_page(#[trigger] steps[i], ids[i], paperless, exported)
}

pub fn plan_sync(paperless: &IdMap<DocumentRecord>, exported: &IdMap<ExportedPage>) -> (steps: Vec<
    (String, SyncStep),
>)
    ensures
        is_plan(steps@, exported.key_list(), paperless@, exported@),
{
    proof {
        use_type_invariant(exported);
    }
    let actions = compare_memories(paperless, exported);
    let mut steps: Vec<(String, SyncStep)> = Vec::new();
    let n = exported.len();
    for i in 0..n
        invariant
            n == exported.key_list().len(),
            exported.wf(),
            actions.key_list() == exported.key_list(),
            forall|id: Seq<char>| #[trigger] actions@.contains_key(id) <==> exported@.contains_key(id),
            forall|id: Seq<char>|
                #[trigger] exported@.contains_key(id) ==> actions@[id] == sync_action_for(
                    record_pair(paperless@, id),
                    exported@[id].last_edited_time@,
                    exported@[id].content_hash@,
                ),
            steps@.len() == i,
            forall|j: int|
                0 <= j < i ==> plans_page(
                    #[trigger] steps@[j],
                    exported.key_list()[j],
                    paperless@,
                    exported@,
                ),
    {
        let id = exported.key_at(i);
        assert(exported.key_list().contains(id@));
        let page = exported.get(id.as_str()).unwrap();
        let action = *actions.get(id.as_str()).unwrap();
        let step = plan_step(id, action, page, paperless.get(id.as_str()));
        steps.push((id.clone(), step));
    }
    steps
}


// ---------------------------------------------------------------------------------------
// Laws
// ---------------------------------------------------------------------------------------

/// The content hash is the authoritative change signal: a page whose non-empty hash
/// matches the one Paperless holds is up to date, whatever the timestamps say.
pub proof fn law_matching_hash_is_up_to_date(
    paperless_time: Seq<char>,
    notion_time: Seq<char>,
    hash: Seq<char>,
)
    requires
        hash.len() > 0,
    ensures
        sync_action_for(Some((paperless_time, hash)), notion_time, hash) == SyncAction::UpToDate,
{
}

/// A page that Paperless holds no record of is created there.
pub proof fn law_new_page_is_created(notion_time: Seq<char>, hash: Seq<char>)
    ensures
        sync_action_for(None, notion_time, hash) == SyncAction::CreateInPaperless,
{
}

/// Where the content differs (or Paperless holds no hash), the timestamps only decide the
/// direction: towards Notion exactly when both parse and Paperless' is strictly later,
/// towards Paperless otherwise.
pub proof fn law_timestamps_only_decide_direction(
    paperless_time: Seq<char>,
    paperless_hash: Seq<char>,
    notion_time: Seq<char>,
    notion_hash: Seq<char>,
)
    requires
        !(paperless_hash.len() > 0 && paperless_hash == notion_hash),
    ensures
        ({
            let a = sync_action_for(Some((paperless_time, paperless_hash)), notion_time, notion_hash);
            &&& a == SyncAction::UpdateNotion || a == SyncAction::UpdatePaperless
            &&& a == SyncAction::UpdateNotion <==> match (timestamp_of(notion_time), timestamp_of(paperless_time)) {
                (Some(n), Some(p)) => is_later(p, n),
                _ => false,
            }
        }),
{
}

/// Timestamps within the same instant (Notion rounds to the minute) with differing
/// content send the page to Paperless.
pub proof fn law_same_instant_goes_to_paperless(
    paperless_time: Seq<char>,
    paperless_hash: Seq<char>,
    notion_time: Seq<char>,
    notion_hash: Seq<char>,
)
    requires
        timestamp_of(paperless_time) == timestamp_of(notion_time),
        paperless_hash != notion_hash,
    ensures
        sync_action_for(Some((paperless_time, paperless_hash)), notion_time, notion_hash)
            == SyncAction::UpdatePaperless,
{
}

/// Once a page has been linked to a document (uploaded with the link fields, or an
/// existing duplicate adopted), reading that document back gives the page's record, and
/// the next comparison finds the page up to date as long as its content is unchanged,
/// whatever its timestamps. The three link fields must be distinct custom fields, and the
/// hash non-empty (content hashes are 64 characters long).
pub proof fn law_linked_page_is_up_to_date(
    doc: PaperlessDocument,
    existing: Seq<(i64, Option<Seq<char>>)>,
    ids: CustomFieldIds,
    notion_id: Seq<char>,
    last_edited: Seq<char>,
    hash: Seq<char>,
    notion_time: Seq<char>,
)
    requires
        distinct_ids(ids),
        hash.len() > 0,
        field_views(doc.custom_fields@) == merged_field_views(
            existing,
            ids,
            notion_id,
            last_edited,
            hash,
        ),
    ensures
        document_entry(doc, ids) == Some((notion_id, (doc.id, last_edited, hash))),
        sync_action_for(Some((last_edited, hash)), notion_time, hash) == SyncAction::UpToDate,
{
    law_linked_document_reads_back(doc, existing, ids, notion_id, last_edited, hash);
}


/// Whether Paperless holds page `id` with the very content hash of its export (non-empty,
/// as every content hash is): what an upload or an adoption leaves behind, read back.
pub open spec fn page_in_sync(
    paperless: Map<Seq<char>, DocumentRecord>,
    exported: Map<Seq<char>, ExportedPage>,
    id: Seq<char>,
) -> bool {
    &&& paperless.contains_key(id)
    &&& paperless[id].content_hash@ == exported[id].content_hash@
    &&& exported[id].content_hash@.len() > 0
}

/// A cycle re-run over unchanged pages, each of which Paperless holds with its content
/// hash (as the previous cycle's uploads and adoptions left them), plans no upload and no
/// deletion: every step is `UpToDate`.
pub proof fn law_rerun_uploads_nothing(
    steps: Seq<(String, SyncStep)>,
    ids: Seq<Seq<char>>,
    paperless: Map<Seq<char>, DocumentRecord>,
    exported: Map<Seq<char>, ExportedPage>,
)
    requires
        is_plan(steps, ids, paperless, exported),
        forall|i: int| 0 <= i < ids.len() ==> page_in_sync(paperless, exported, #[trigger] ids[i]),
    ensures
        forall|i: int| 0 <= i < steps.len() ==> (#[trigger] steps[i]).1 is UpToDate,
{
    assert forall|i: int| 0 <= i < steps.len() implies (#[trigger] steps[i]).1 is UpToDate by {
        assert(plans_page(steps[i], ids[i], paperless, exported));
        assert(page_in_sync(paperless, exported, ids[i]));
    }
}

/// A record read back from a linked document makes its page in sync: where the listing
/// holds, for page `id`, the content hash of the page's export, the page is in sync.
pub proof fn law_linked_record_is_in_sync(
    paperless: Map<Seq<char>, DocumentRecord>,
    read: Map<Seq<char>, (i64, Seq<char>, Seq<char>)>,
    exported: Map<Seq<char>, ExportedPage>,
    id: Seq<char>,
)
    requires
        crate::paperless::records_match(paperless, read),
        read.contains_key(id),
        read[id].2 == exported[id].content_hash@,
        exported[id].content_hash@.len() > 0,
    ensures
        page_in_sync(paperless, exported, id),
{
    assert(paperless.contains_key(id));
}


/// Per page, whatever the other pages are: a page that Paperless holds with its export's
/// non-empty content hash is planned `UpToDate`.
pub proof fn law_in_sync_page_is_planned_up_to_date(
    steps: Seq<(String, SyncStep)>,
    ids: Seq<Seq<char>>,
    paperless: Map<Seq<char>, DocumentRecord>,
    exported: Map<Seq<char>, ExportedPage>,
    i: int,
)
    requires
        is_plan(steps, ids, paperless, exported),
        0 <= i < steps.len(),
        page_in_sync(paperless, exported, ids[i]),
    ensures
        steps[i].1 is UpToDate,
{
    assert(plans_page(steps[i], ids[i], paperless, exported));
}

/// A page planned `NotionOutdated` (Paperless newer) is planned so again in a later cycle
/// where neither its Paperless record nor its export changed: the cycle writes nothing for
/// it, so nothing changes.
pub proof fn law_outdated_notion_page_stays_outdated(
    first: Seq<(String, SyncStep)>,
    first_ids: Seq<Seq<char>>,
    first_paperless: Map<Seq<char>, DocumentRecord>,
    first_exported: Map<Seq<char>, ExportedPage>,
    i: int,
    second: Seq<(String, SyncStep)>,
    second_ids: Seq<Seq<char>>,
    second_paperless: Map<Seq<char>, DocumentRecord>,
    second_exported: Map<Seq<char>, ExportedPage>,
    j: int,
)
    requires
        is_plan(first, first_ids, first_paperless, first_exported),
        is_plan(second, second_ids, second_paperless, second_exported),
        0 <= i < first.len(),
        0 <= j < second.len(),
        first_ids[i] == second_ids[j],
        record_pair(first_paperless, first_ids[i]) == record_pair(second_paperless, second_ids[j]),
        first_exported[first_ids[i]].last_edited_time@ == second_exported[second_ids[j]].last_edited_time@,
        first_exported[first_ids[i]].content_hash@ == second_exported[second_ids[j]].content_hash@,
        first[i].1 is NotionOutdated,
    ensures
        second[j].1 is NotionOutdated,
{
    assert(plans_page(first[i], first_ids[i], first_paperless, first_exported));
    assert(plans_page(second[j], second_ids[j], second_paperless, second_exported));
}

/// A re-run in which every page is either held by Paperless with its export's hash (as the
/// previous cycle's uploads and adoptions left it) or still newer in Paperless (as the
/// previous cycle left it, untouched) plans no upload and no deletion: every step is
/// `UpToDate` or `NotionOutdated`.
pub proof fn law_rerun_writes_nothing(
    steps: Seq<(String, SyncStep)>,
    ids: Seq<Seq<char>>,
    paperless: Map<Seq<char>, DocumentRecord>,
    exported: Map<Seq<char>, ExportedPage>,
)
    requires
        is_plan(steps, ids, paperless, exported),
        forall|i: int|
            0 <= i < ids.len() ==> page_in_sync(paperless, exported, #[trigger] ids[i])
                || sync_action_for(
                record_pair(paperless, ids[i]),
                exported[ids[i]].last_edited_time@,
                exported[ids[i]].content_hash@,
            ) == SyncAction::UpdateNotion,
    ensures
        forall|i: int|
            0 <= i < steps.len() ==> (#[trigger] steps[i]).1 is UpToDate || steps[i].1 is NotionOutdated,
{
    assert forall|i: int| 0 <= i < steps.len() implies (#[trigger] steps[i]).1 is UpToDate
        || steps[i].1 is NotionOutdated by {
        assert(plans_page(steps[i], ids[i], paperless, exported));
        assert(page_in_sync(paperless, exported, ids[i]) || sync_action_for(
            record_pair(paperless, ids[i]),
            exported[ids[i]].last_edited_time@,
            exported[ids[i]].content_hash@,
        ) == SyncAction::UpdateNotion);
    }
}


/// What each planned step uploads, stated on the page itself: a new page is uploaded
/// under its own ID, title, last-edited time and content hash, with its Markdown as it is;
/// a page newer in Notion deletes the document Paperless holds for it and is uploaded
/// under the same ID, title, time and hash, with its Markdown followed by the last-edited
/// note; a page newer in Paperless or up to date uploads nothing.
pub proof fn law_planned_uploads_carry_the_page(
    step: SyncStep,
    id: Seq<char>,
    action: SyncAction,
    page: ExportedPage,
    record: Option<DocumentRecord>,
)
    requires
        step_matches(step, id, action, page, record),
    ensures
        action == SyncAction::CreateInPaperless ==> (step matches SyncStep::Create(p) && p.notion_id@
            == id && p.title@ == page.title@ && p.last_edited_time@ == page.last_edited_time@
            && p.content_hash@ == page.content_hash@ && p.content@ == page.markdown@),
        match record {
            Some(r) => action == SyncAction::UpdatePaperless ==> (step matches SyncStep::Replace(d, p)
                && d == r.document_id && p.notion_id@ == id && p.title@ == page.title@
                && p.last_edited_time@ == page.last_edited_time@ && p.content_hash@
                == page.content_hash@ && p.content@ == page.markdown@
                + "\n\n---\n*Last updated in Notion: "@ + page.last_edited_time@ + "*"@),
            None => action == SyncAction::UpdatePaperless ==> step is Skip,
        },
        action == SyncAction::UpdateNotion ==> step is NotionOutdated,
        action == SyncAction::UpToDate ==> step is UpToDate,
{
}

} // verus!
