//! Change detection: timestamps, content hashes, and the per-page sync decision.

use vstd::prelude::*;
use sha2::Digest;
use vstd::utf8::encode_utf8;

use crate::collection::IdMap;
use crate::model::SyncAction;
use crate::text::push_char;

verus! {

/// The instant that chrono reads from an RFC 3339 text, as whole seconds since the Unix
/// epoch and the nanoseconds within that second.
pub uninterp spec fn rfc3339_instant(text: Seq<char>) -> Option<(i64, u32)>;

/// The SHA-256 digest of `data`.
pub uninterp spec fn sha256(data: Seq<u8>) -> Seq<u8>;

/// Parses `text` with `chrono::DateTime::parse_from_rfc3339` and gives the instant it
/// names as `DateTime<Utc>::timestamp()` and `timestamp_subsec_nanos()`, or `None` where
/// chrono rejects the text. Claimed: the result depends on the text alone.
#[verifier::external_body]
fn parse_rfc3339_instant(text: &str) -> (r: Option<(i64, u32)>)
    ensures
        r == rfc3339_instant(text@),
{
    match chrono::DateTime::parse_from_rfc3339(text) {
        Ok(dt) => {
            let utc = dt.with_timezone(&chrono::Utc);
            Some((utc.timestamp(), utc.timestamp_subsec_nanos()))
        },
        Err(_) => None,
    }
}

/// Computes `sha2::Sha256::digest(data)`. Claimed: the result depends on `data` alone,
/// and it is 32 bytes long (the output size of SHA-256).
#[verifier::external_body]
fn sha256_digest(data: &[u8]) -> (r: Vec<u8>)
    ensures
        r@ == sha256(data@),
        r@.len() == 32,
{
    sha2::Sha256::digest(data).to_vec()
}

/// An instant: seconds since the Unix epoch and nanoseconds within the second.
#[derive(Debug, Clone, Copy, PartialEq, Eq, Structural)]
pub struct Timestamp {
    pub seconds: i64,
    pub nanos: u32,
}

/// Whether instant `a` comes strictly after instant `b`.
pub open spec fn is_later(a: Timestamp, b: Timestamp) -> bool {
    a.seconds > b.seconds || (a.seconds == b.seconds && a.nanos > b.nanos)
}

/// The instant that an RFC 3339 text names, if chrono accepts it.
pub open spec fn timestamp_of(text: Seq<char>) -> Option<Timestamp> {
    match rfc3339_instant(text) {
        Some(p) => Some(Timestamp { seconds: p.0, nanos: p.1 }),
        None => None,
    }
}

/// Which way a page whose content differs between the two sides has to go: towards
/// Notion only when both timestamps parse and Paperless' is strictly later, otherwise
/// towards Paperless (also for timestamps within the same instant).
pub open spec fn direction(notion_time: Option<Timestamp>, paperless_time: Option<Timestamp>) -> SyncAction {
    match (notion_time, paperless_time) {
        (Some(nt), Some(pt)) => if is_later(pt, nt) {
            SyncAction::UpdateNotion
        } else {
            SyncAction::UpdatePaperless
        },
        _ => SyncAction::UpdatePaperless,
    }
}

/// The sync decision for one Notion page. `record` is what Paperless holds for the page
/// (its last-edited text and content hash), if anything. The content hash is the
/// authoritative change signal: a matching, non-empty hash means up to date whatever the
/// timestamps say; only when the hashes differ do the timestamps decide the direction.
pub open spec fn sync_action_for(
    record: Option<(Seq<char>, Seq<char>)>,
    notion_time: Seq<char>,
    notion_hash: Seq<char>,
) -> SyncAction {
    match record {
        None => SyncAction::CreateInPaperless,
        Some(r) => if r.1.len() > 0 && r.1 == notion_hash {
            SyncAction::UpToDate
        } else {
            direction(timestamp_of(notion_time), timestamp_of(r.0))
        },
    }
}

/// The lower-case hexadecimal digit of `n` (for `n < 16`).
pub open spec fn hex_digit(n: nat) -> char {
    if n < 10 {
        crate::number::digit_char(n)
    } else if n == 10 {
        'a'
    } else if n == 11 {
        'b'
    } else if n == 12 {
        'c'
    } else if n == 13 {
        'd'
    } else if n == 14 {
        'e'
    } else {
        'f'
    }
}

/// Two lower-case hexadecimal digits per byte, high nibble first (`{:x}` of a digest).
pub open spec fn lower_hex(bytes: Seq<u8>) -> Seq<char>
    decreases bytes.len(),
{
    if bytes.len() == 0 {
        Seq::empty()
    } else {
        lower_hex(bytes.drop_last()) + seq![
            hex_digit((bytes.last() / 16) as nat),
            hex_digit((bytes.last() % 16) as nat),
        ]
    }
}

/// The content hash of a text: the SHA-256 of its UTF-8 bytes, in lower-case hex.
pub open spec fn content_hash_of(content: Seq<char>) -> Seq<char> {
    lower_hex(sha256(encode_utf8(content)))
}

proof fn lemma_lower_hex_len(bytes: Seq<u8>)
    ensures
        lower_hex(bytes).len() == 2 * bytes.len(),
    decreases bytes.len(),
{
    if bytes.len() > 0 {
        lemma_lower_hex_len(bytes.drop_last());
    }
}

proof fn lemma_hex_digit_injective(a: nat, b: nat)
    requires
        a < 16,
        b < 16,
        hex_digit(a) == hex_digit(b),
    ensures
        a == b,
{
}

/// Hex text determines the bytes: two byte strings with the same lower-case hex are
/// equal.
pub proof fn lemma_lower_hex_injective(a: Seq<u8>, b: Seq<u8>)
    requires
        lower_hex(a) == lower_hex(b),
    ensures
        a == b,
    decreases a.len(),
{
    lemma_lower_hex_len(a);
    lemma_lower_hex_len(b);
    if a.len() > 0 {
        let la = lower_hex(a.drop_last());
        let lb = lower_hex(b.drop_last());
        lemma_lower_hex_len(a.drop_last());
        lemma_lower_hex_len(b.drop_last());
        assert(lower_hex(a) == la + seq![hex_digit((a.last() / 16) as nat), hex_digit((a.last() % 16) as nat)]);
        assert(lower_hex(b) == lb + seq![hex_digit((b.last() / 16) as nat), hex_digit((b.last() % 16) as nat)]);
        assert(la =~= lower_hex(a).take(la.len() as int));
        assert(lb =~= lower_hex(b).take(lb.len() as int));
        lemma_lower_hex_injective(a.drop_last(), b.drop_last());
        assert(lower_hex(a)[la.len() as int] == lower_hex(b)[lb.len() as int]);
        assert(lower_hex(a)[la.len() as int + 1] == lower_hex(b)[lb.len() as int + 1]);
        lemma_hex_digit_injective((a.last() / 16) as nat, (b.last() / 16) as nat);
        lemma_hex_digit_injective((a.last() % 16) as nat, (b.last() % 16) as nat);
        assert(a.last() == b.last());
        assert(a =~= a.drop_last().push(a.last()));
        assert(b =~= b.drop_last().push(b.last()));
    }
}

fn hex_digit_char(n: u8) -> (c: char)
    requires
        n < 16,
    ensures
        c == hex_digit(n as nat),
{
    match n {
        0 => '0',
        1 => '1',
        2 => '2',
        3 => '3',
        4 => '4',
        5 => '5',
        6 => '6',
        7 => '7',
        8 => '8',
        9 => '9',
        10 => 'a',
        11 => 'b',
        12 => 'c',
        13 => 'd',
        14 => 'e',
        _ => 'f',
    }
}

/// The lower-case hexadecimal text of `bytes`.
pub fn to_lower_hex(bytes: &[u8]) -> (s: String)
    ensures
        s@ == lower_hex(bytes@),
{
    let mut s = String::new();
    let mut i: usize = 0;
    while i < bytes.len()
        invariant
            i <= bytes.len(),
            s@ == lower_hex(bytes@.take(i as int)),
        decreases bytes.len() - i,
    {
        let b = bytes[i];
        push_char(&mut s, hex_digit_char(b / 16));
        push_char(&mut s, hex_digit_char(b % 16));
        assert(bytes@.take(i + 1).drop_last() =~= bytes@.take(i as int));
        i = i + 1;
        assert(s@ =~= lower_hex(bytes@.take(i as int)));
    }
    assert(bytes@.take(bytes.len() as int) =~= bytes@);
    s
}

/// Parses a Notion (RFC 3339) timestamp; `None` where it does not parse.
pub fn parse_notion_date(date_str: &str) -> (r: Option<Timestamp>)
    ensures
        r == timestamp_of(date_str@),
{
    match parse_rfc3339_instant(date_str) {
        Some(p) => Some(Timestamp { seconds: p.0, nanos: p.1 }),
        None => None,
    }
}

/// SHA-256 of the exported Markdown content, as a lower-case hex string of 64 characters.
/// The authoritative change signal, independent of Notion's minute-level timestamp
/// rounding.
pub fn compute_content_hash(content: &str) -> (r: String)
    ensures
        r@ == content_hash_of(content@),
        r@.len() == 64,
{
    let digest = sha256_digest(content.as_bytes());
    proof {
        lemma_lower_hex_len(digest@);
    }
    to_lower_hex(digest.as_slice())
}

/// Whether instant `a` comes strictly after instant `b`.
pub fn timestamp_is_later(a: Timestamp, b: Timestamp) -> (r: bool)
    ensures
        r == is_later(a, b),
{
    a.seconds > b.seconds || (a.seconds == b.seconds && a.nanos > b.nanos)
}

/// Which way a page with differing content has to go, given the parsed timestamps of both
/// sides.
pub fn resolve_direction(notion_time: Option<Timestamp>, paperless_time: Option<Timestamp>) -> (r:
    SyncAction)
    ensures
        r == direction(notion_time, paperless_time),
{
    match (notion_time, paperless_time) {
        (Some(nt), Some(pt)) => if timestamp_is_later(pt, nt) {
            SyncAction::UpdateNotion
        } else {
            SyncAction::UpdatePaperless
        },
        _ => SyncAction::UpdatePaperless,
    }
}

/// The sync decision for one Notion page, given what Paperless holds for it (its
/// last-edited text and content hash), if anything.
pub fn decide_sync_action(record: Option<(&str, &str)>, notion_time: &str, notion_hash: &str) -> (r:
    SyncAction)
    ensures
        r == sync_action_for(
            match record {
                Some(p) => Some((p.0@, p.1@)),
                None => None,
            },
            notion_time@,
            notion_hash@,
        ),
{
    match record {
        None => SyncAction::CreateInPaperless,
        Some((paperless_time, paperless_hash)) => {
            if !paperless_hash.is_empty() && crate::text::text_eq(paperless_hash, notion_hash) {
                SyncAction::UpToDate
            } else {
                let nt = parse_notion_date(notion_time);
                let pt = parse_notion_date(paperless_time);
                resolve_direction(nt, pt)
            }
        },
    }
}

/// What Paperless holds for a page in the flat form: last-edited text and content hash.
pub open spec fn flat_record(
    paperless: Map<Seq<char>, (i64, String, String)>,
    id: Seq<char>,
) -> Option<(Seq<char>, Seq<char>)> {
    if paperless.contains_key(id) {
        Some((paperless[id].1@, paperless[id].2@))
    } else {
        None
    }
}

/// Decides, for every Notion page, what to do with it. `paperless` maps a Notion page ID
/// to (Paperless document ID, last-edited time, content hash); `notion` maps a Notion page
/// ID to (last-edited time, title, content hash). Every Notion page gets exactly one
/// action, in the order of `notion`'s keys.
pub fn compare_memories(
    paperless: &IdMap<(i64, String, String)>,
    notion: &IdMap<(String, String, String)>,
) -> (actions: IdMap<SyncAction>)
    ensures
        actions.key_list() == notion.key_list(),
        forall|id: Seq<char>| #[trigger] actions@.contains_key(id) <==> notion@.contains_key(id),
        forall|id: Seq<char>|
            #[trigger] notion@.contains_key(id) ==> actions@[id] == sync_action_for(
                flat_record(paperless@, id),
                notion@[id].0@,
                notion@[id].2@,
            ),
{
    proof {
        use_type_invariant(notion);
    }
    let mut actions: IdMap<SyncAction> = IdMap::new();
    proof {
        use_type_invariant(&actions);
    }
    let n = notion.len();
    for i in 0..n
        invariant
            n == notion.key_list().len(),
            notion.wf(),
            actions.wf(),
            actions.key_list() == notion.key_list().take(i as int),
            forall|j: int|
                0 <= j < i ==> #[trigger] actions@[notion.key_list()[j]] == sync_action_for(
                    flat_record(paperless@, notion.key_list()[j]),
                    notion@[notion.key_list()[j]].0@,
                    notion@[notion.key_list()[j]].2@,
                ),
    {
        let id = notion.key_at(i);
        assert(notion.key_list().contains(id@));
        let page = notion.get(id.as_str()).unwrap();
        let record: Option<(&str, &str)> = match paperless.get(id.as_str()) {
            Some(r) => Some((r.1.as_str(), r.2.as_str())),
            None => None,
        };
        let action = decide_sync_action(record, page.0.as_str(), page.2.as_str());
        assert(!actions@.contains_key(id@)) by {
            if actions.key_list().contains(id@) {
                let j = choose|j: int| 0 <= j < actions.key_list().len() && actions.key_list()[j]
                    == id@;
                assert(notion.key_list()[j] == notion.key_list()[i as int]);
            }
        }
        actions.insert(id.clone(), action);
        proof {
            use_type_invariant(&actions);
        }
        assert(actions.key_list() =~= notion.key_list().take(i + 1));
        assert forall|j: int| 0 <= j < i + 1 implies #[trigger] actions@[notion.key_list()[j]]
            == sync_action_for(
            flat_record(paperless@, notion.key_list()[j]),
            notion@[notion.key_list()[j]].0@,
            notion@[notion.key_list()[j]].2@,
        ) by {
            if j < i {
                assert(notion.key_list()[j] != id@);
            }
        }
    }
    assert(notion.key_list().take(n as int) =~= notion.key_list());
    assert forall|id: Seq<char>| #[trigger] notion@.contains_key(id) implies actions@[id]
        == sync_action_for(flat_record(paperless@, id), notion@[id].0@, notion@[id].2@) by {
        assert(notion.key_list().contains(id));
        let j = choose|j: int| 0 <= j < notion.key_list().len() && notion.key_list()[j] == id;
        assert(actions@[notion.key_list()[j]] == sync_action_for(
            flat_record(paperless@, notion.key_list()[j]),
            notion@[notion.key_list()[j]].0@,
            notion@[notion.key_list()[j]].2@,
        ));
    }
    assert forall|id: Seq<char>| #[trigger] actions@.contains_key(id) <==> notion@.contains_key(id) by {
        assert(actions@.contains_key(id) <==> actions.key_list().contains(id));
        assert(notion@.contains_key(id) <==> notion.key_list().contains(id));
    }
    actions
}


/// Two texts have the same content hash exactly when the SHA-256 digests of their UTF-8
/// bytes are the same: the hex text loses nothing of the digest.
pub proof fn law_content_hash_identifies_digest(a: Seq<char>, b: Seq<char>)
    ensures
        (content_hash_of(a) == content_hash_of(b)) <==> (sha256(encode_utf8(a)) == sha256(
            encode_utf8(b),
        )),
{
    if content_hash_of(a) == content_hash_of(b) {
        lemma_lower_hex_injective(sha256(encode_utf8(a)), sha256(encode_utf8(b)));
    }
}

} // verus!
