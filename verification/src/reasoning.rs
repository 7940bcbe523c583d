//! The reasoning resolver: scans the history for reasoning items positioned
//! after the last user turn, merges fragments that target the same anchor,
//! and produces a position-keyed table of merged attachments.

use vstd::prelude::*;
use crate::history::{
    is_assistant_message, last_emitted_role, last_user_index, HistoryItem, ReasoningItemContent,
    ReasoningSource,
};
use crate::json::{clone_json, JsonValue, JsonV};
use crate::text::{is_blank, str_is_blank};

verus! {

/// Model of a merged reasoning attachment.
pub struct AttachmentV {
    pub text: Seq<char>,
    pub details: Option<JsonV>,
    pub source: Option<ReasoningSource>,
}

/// Accumulator for reasoning content attached to one anchor: concatenated
/// text, a last-write-wins details blob, and the winning source tag.
pub struct ReasoningAttachment {
    pub text: String,
    pub details: Option<JsonValue>,
    pub source: Option<ReasoningSource>,
}

pub open spec fn opt_json_view(d: Option<JsonValue>) -> Option<JsonV> {
    match d {
        Some(v) => Some(v@),
        None => None,
    }
}

impl View for ReasoningAttachment {
    type V = AttachmentV;

    open spec fn view(&self) -> AttachmentV {
        AttachmentV { text: self.text@, details: opt_json_view(self.details), source: self.source }
    }
}

/// Priority of a source tag; a higher value wins a merge.
pub open spec fn source_rank(s: ReasoningSource) -> int {
    match s {
        ReasoningSource::Reasoning => 0,
        ReasoningSource::ReasoningContent => 1,
        ReasoningSource::ReasoningDetails => 2,
    }
}

/// The tag that survives a merge: the incoming tag replaces the existing one
/// only when its priority is strictly greater; ties keep the existing tag.
pub open spec fn merge_source(
    target: Option<ReasoningSource>,
    incoming: Option<ReasoningSource>,
) -> Option<ReasoningSource> {
    match incoming {
        None => target,
        Some(inc) => match target {
            None => Some(inc),
            Some(t) => if source_rank(inc) > source_rank(t) {
                Some(inc)
            } else {
                Some(t)
            },
        },
    }
}

/// Pure merge of two attachments onto one anchor: text concatenates, an
/// incoming details blob replaces the existing one, and the source tag is
/// chosen by priority.
pub open spec fn merge_attachment(target: AttachmentV, incoming: AttachmentV) -> AttachmentV {
    AttachmentV {
        text: target.text + incoming.text,
        details: if incoming.details is Some {
            incoming.details
        } else {
            target.details
        },
        source: merge_source(target.source, incoming.source),
    }
}

pub fn reasoning_source_rank(source: &ReasoningSource) -> (r: u8)
    ensures
        r as int == source_rank(*source),
{
    match source {
        ReasoningSource::Reasoning => 0,
        ReasoningSource::ReasoningContent => 1,
        ReasoningSource::ReasoningDetails => 2,
    }
}

pub fn merge_reasoning_source(target: &mut Option<ReasoningSource>, incoming: Option<ReasoningSource>)
    ensures
        *final(target) == merge_source(*old(target), incoming),
{
    let incoming = match incoming {
        None => {
            return ;
        },
        Some(inc) => inc,
    };
    let replace = match target {
        None => true,
        Some(existing) => reasoning_source_rank(&incoming) > reasoning_source_rank(existing),
    };
    if replace {
        *target = Some(incoming);
    }
}

pub fn merge_reasoning_attachment(target: &mut ReasoningAttachment, incoming: ReasoningAttachment)
    ensures
        final(target)@ == merge_attachment(old(target)@, incoming@),
{
    if !incoming.text.as_str().is_empty() {
        target.text.append(incoming.text.as_str());
    } else {
        proof {
            assert(target.text@ + incoming.text@ =~= target.text@);
        }
    }
    if incoming.details.is_some() {
        target.details = incoming.details;
    }
    merge_reasoning_source(&mut target.source, incoming.source);
}

/// The text of one reasoning fragment.
pub open spec fn fragment_text(c: ReasoningItemContent) -> Seq<char> {
    match c {
        ReasoningItemContent::ReasoningText { text } => text@,
        ReasoningItemContent::Text { text } => text@,
    }
}

/// All fragments of a reasoning item concatenated, in order.
pub open spec fn concat_fragments(frags: Seq<ReasoningItemContent>) -> Seq<char>
    decreases frags.len(),
{
    if frags.len() == 0 {
        Seq::empty()
    } else {
        concat_fragments(frags.drop_last()) + fragment_text(frags.last())
    }
}

/// The concatenated text of a reasoning item's optional fragment list.
pub open spec fn reasoning_text_of(content: Option<Vec<ReasoningItemContent>>) -> Seq<char> {
    match content {
        Some(frags) => concat_fragments(frags@),
        None => Seq::empty(),
    }
}

fn concat_reasoning_text(content: &Option<Vec<ReasoningItemContent>>) -> (r: String)
    ensures
        r@ == reasoning_text_of(*content),
{
    let mut text = String::new();
    match content {
        None => text,
        Some(frags) => {
            let n = frags.len();
            for i in 0..n
                invariant
                    n == frags@.len(),
                    text@ == concat_fragments(frags@.take(i as int)),
                decreases n - i,
            {
                proof {
                    assert(frags@.take(i as int + 1).drop_last() =~= frags@.take(i as int));
                    assert(frags@.take(i as int + 1).last() == frags@[i as int]);
                }
                match &frags[i] {
                    ReasoningItemContent::ReasoningText { text: t } => text.append(t.as_str()),
                    ReasoningItemContent::Text { text: t } => text.append(t.as_str()),
                }
            }
            proof {
                assert(frags@.take(n as int) =~= frags@);
            }
            text
        },
    }
}

/// Whether a reasoning item carries anything worth attaching: text that is
/// not blank, or a details blob.
pub open spec fn attachable(item: HistoryItem) -> bool {
    match item {
        HistoryItem::Reasoning { content, details, .. } => !(is_blank(reasoning_text_of(content))
            && details is None),
        _ => false,
    }
}

/// The attachment a reasoning item contributes: its concatenated text, its
/// details blob, and its source tag, defaulting to the structured-details
/// tag when a details blob is present without an explicit tag.
pub open spec fn item_attachment(item: HistoryItem) -> AttachmentV
    recommends
        item is Reasoning,
{
    match item {
        HistoryItem::Reasoning { content, details, source } => AttachmentV {
            text: reasoning_text_of(content),
            details: opt_json_view(details),
            source: match source {
                Some(s) => Some(s),
                None => match details {
                    Some(_) => Some(ReasoningSource::ReasoningDetails),
                    None => None,
                },
            },
        },
        _ => AttachmentV { text: Seq::empty(), details: None, source: None },
    }
}

pub open spec fn is_call_or_assistant_message(item: HistoryItem) -> bool {
    item is FunctionCall || item is LocalShellCall || is_assistant_message(item)
}

/// Anchor precedence: the immediately preceding assistant message wins;
/// failing that, an immediately following call or assistant message; else
/// the reasoning item has no anchor and is dropped.
pub open spec fn anchor_of(items: Seq<HistoryItem>, idx: int) -> Option<int>
    recommends
        0 <= idx < items.len(),
{
    if idx > 0 && is_assistant_message(items[idx - 1]) {
        Some(idx - 1)
    } else if idx + 1 < items.len() && is_call_or_assistant_message(items[idx + 1]) {
        Some(idx + 1)
    } else {
        None
    }
}

/// Reasoning is only collected strictly after the last user turn.
pub open spec fn after_last_user(items: Seq<HistoryItem>, idx: int) -> bool {
    match last_user_index(items) {
        Some(u) => idx > u,
        None => true,
    }
}

pub open spec fn eligible(items: Seq<HistoryItem>, idx: int) -> bool {
    after_last_user(items, idx) && attachable(items[idx])
}

/// One step of the resolver scan: fold the reasoning item at `idx` (if
/// eligible and anchored) into the mapping.
pub open spec fn resolve_step(
    m: Map<int, AttachmentV>,
    items: Seq<HistoryItem>,
    idx: int,
) -> Map<int, AttachmentV> {
    if eligible(items, idx) {
        match anchor_of(items, idx) {
            Some(a) => m.insert(
                a,
                if m.dom().contains(a) {
                    merge_attachment(m[a], item_attachment(items[idx]))
                } else {
                    item_attachment(items[idx])
                },
            ),
            None => m,
        }
    } else {
        m
    }
}

/// The mapping after scanning the first `n` items, left to right.
pub open spec fn resolve_prefix(items: Seq<HistoryItem>, n: int) -> Map<int, AttachmentV>
    decreases n,
{
    if n <= 0 {
        Map::empty()
    } else {
        resolve_step(resolve_prefix(items, n - 1), items, n - 1)
    }
}

/// The reasoning-attachment mapping of a history: empty when the most
/// recent turn is a fresh user turn, else the full scan.
pub open spec fn resolve(items: Seq<HistoryItem>) -> Map<int, AttachmentV> {
    if last_emitted_role(items) == Some("user"@) {
        Map::empty()
    } else {
        resolve_prefix(items, items.len() as int)
    }
}

/// The attachment at one position of the mapping, if any.
pub open spec fn att_at(m: Map<int, AttachmentV>, i: int) -> Option<AttachmentV> {
    if m.dom().contains(i) {
        Some(m[i])
    } else {
        None
    }
}

/// The model of an optional attachment.
pub open spec fn opt_att_view(a: Option<ReasoningAttachment>) -> Option<AttachmentV> {
    match a {
        Some(x) => Some(x@),
        None => None,
    }
}

/// What one slot of the resolver's table claims about the mapping.
pub open spec fn table_entry_models(
    e: Option<ReasoningAttachment>,
    m: Map<int, AttachmentV>,
    k: int,
) -> bool {
    match e {
        Some(att) => m.dom().contains(k) && m[k] == att@,
        None => !m.dom().contains(k),
    }
}

/// Reasoning resolver: one pass producing, for each history position, the
/// merged attachment anchored there, if any.
pub fn resolve_reasoning(items: &Vec<HistoryItem>) -> (table: Vec<Option<ReasoningAttachment>>)
    ensures
        table@.len() == items@.len(),
        forall|k: int|
            0 <= k < items@.len() ==> table_entry_models(#[trigger] table@[k], resolve(items@), k),
{
    let n = items.len();
    let mut table: Vec<Option<ReasoningAttachment>> = Vec::new();
    for i in 0..n
        invariant
            table@.len() == i,
            forall|k: int| 0 <= k < i ==> table@[k] is None,
        decreases n - i,
    {
        table.push(None);
    }

    let last_role = crate::history::track_last_role(items);
    let is_user_last = match &last_role {
        Some(role) => crate::text::str_eq(role.as_str(), "user"),
        None => false,
    };
    if is_user_last {
        return table;
    }

    let last_user = crate::history::find_last_user_index(items);

    for idx in 0..n
        invariant
            n == items@.len(),
            table@.len() == n,
            last_emitted_role(items@) != Some("user"@),
            resolve(items@) == resolve_prefix(items@, items@.len() as int),
            match last_user {
                Some(u) => last_user_index(items@) == Some(u as int) && u < n,
                None => last_user_index(items@) is None,
            },
            forall|k: int|
                0 <= k < n ==> table_entry_models(
                    #[trigger] table@[k],
                    resolve_prefix(items@, idx as int),
                    k,
                ),
        decreases n - idx,
    {
        let ghost m_cur = resolve_prefix(items@, idx as int);
        let ghost m_next = resolve_prefix(items@, idx as int + 1);
        proof {
            assert(m_next == resolve_step(m_cur, items@, idx as int));
        }

        let skip_before_user = match last_user {
            Some(u) => idx <= u,
            None => false,
        };
        if skip_before_user {
            proof {
                assert(!eligible(items@, idx as int));
            }
        } else {
            match &items[idx] {
            HistoryItem::Reasoning { content, details, source } => {
                let text = concat_reasoning_text(content);
                if str_is_blank(text.as_str()) && details.is_none() {
                    proof {
                        assert(!attachable(items@[idx as int]));
                    }
                } else {
                let details_copy = match details {
                    Some(d) => Some(clone_json(d)),
                    None => None,
                };
                let source_tag = match source {
                    Some(s) => Some(*s),
                    None => match details {
                        Some(_) => Some(ReasoningSource::ReasoningDetails),
                        None => None,
                    },
                };
                let attachment = ReasoningAttachment {
                    text,
                    details: details_copy,
                    source: source_tag,
                };
                proof {
                    assert(attachment@ == item_attachment(items@[idx as int]));
                }

                let mut anchor: Option<usize> = None;
                if idx > 0 {
                    match &items[idx - 1] {
                        HistoryItem::Message { role, .. } => {
                            if crate::text::str_eq(role.as_str(), "assistant") {
                                anchor = Some(idx - 1);
                            }
                        },
                        _ => {},
                    }
                }
                if anchor.is_none() && idx + 1 < n {
                    match &items[idx + 1] {
                        HistoryItem::FunctionCall { .. } => {
                            anchor = Some(idx + 1);
                        },
                        HistoryItem::LocalShellCall { .. } => {
                            anchor = Some(idx + 1);
                        },
                        HistoryItem::Message { role, .. } => {
                            if crate::text::str_eq(role.as_str(), "assistant") {
                                anchor = Some(idx + 1);
                            }
                        },
                        _ => {},
                    }
                }
                proof {
                    match anchor {
                        Some(a) => {
                            assert(anchor_of(items@, idx as int) == Some(a as int));
                        },
                        None => {
                            assert(anchor_of(items@, idx as int) is None);
                        },
                    }
                }

                match anchor {
                    Some(a) => {
                        let slot = &mut table[a];
                        let prev = slot.take();
                        let merged = match prev {
                            Some(mut existing) => {
                                merge_reasoning_attachment(&mut existing, attachment);
                                existing
                            },
                            None => attachment,
                        };
                        *slot = Some(merged);
                    },
                    None => {},
                }
                }
            },
            _ => {
                proof {
                    assert(!attachable(items@[idx as int]));
                }
            },
            }
        }
    }
    table
}

} // verus!
