//! The conversation history: one tagged variant per item kind, holding as
//! plain values exactly what the assembly reads, plus the role tracker and
//! the position of the last user turn.

use vstd::prelude::*;
use crate::json::JsonValue;
use crate::text::str_eq;

verus! {

/// One part of a message's content.
pub enum ContentItem {
    InputText { text: String },
    OutputText { text: String },
    InputImage { image_url: String },
}

/// One text fragment of a reasoning trace.
pub enum ReasoningItemContent {
    ReasoningText { text: String },
    Text { text: String },
}

/// Where a reasoning fragment originated. The order of the variants below is
/// lowest to highest priority.
#[derive(Clone, Copy, PartialEq, Eq, Structural, Debug)]
pub enum ReasoningSource {
    Reasoning,
    ReasoningContent,
    ReasoningDetails,
}

/// One part of a function-call output's structured content.
pub enum FunctionCallOutputContentItem {
    InputText { text: String },
    InputImage { image_url: String },
}

/// The output carried by a function-call-output item: raw text, and
/// optionally a structured list of parts that takes precedence over it.
pub struct FunctionCallOutputPayload {
    pub content: String,
    pub content_items: Option<Vec<FunctionCallOutputContentItem>>,
}

/// One entry of the input conversation sequence.
pub enum HistoryItem {
    Message { role: String, content: Vec<ContentItem> },
    FunctionCall { name: String, arguments: String, call_id: String },
    LocalShellCall { id: Option<String>, status: String, action: JsonValue },
    FunctionCallOutput { call_id: String, output: FunctionCallOutputPayload },
    CustomToolCall { id: String, name: String, input: String },
    CustomToolCallOutput { call_id: String, output: String },
    Reasoning {
        content: Option<Vec<ReasoningItemContent>>,
        details: Option<JsonValue>,
        source: Option<ReasoningSource>,
    },
    WebSearchCall,
    GhostSnapshot,
    Compaction,
    Other,
}

/// A named subagent role that a session may run under.
#[derive(Clone, Copy, PartialEq, Eq, Structural, Debug)]
pub enum SubAgentSource {
    Review,
    Compact,
}

/// Where the session driving the conversation came from.
#[derive(Clone, Copy, PartialEq, Eq, Structural, Debug)]
pub enum SessionSource {
    Cli,
    VsCode,
    Exec,
    Mcp,
    SubAgent(SubAgentSource),
}

/// The role an item would be emitted under, `None` for the transparent
/// kinds that do not change the tracked role.
pub open spec fn item_role(item: HistoryItem) -> Option<Seq<char>> {
    match item {
        HistoryItem::Message { role, .. } => Some(role@),
        HistoryItem::FunctionCall { .. } => Some("assistant"@),
        HistoryItem::LocalShellCall { .. } => Some("assistant"@),
        HistoryItem::FunctionCallOutput { .. } => Some("tool"@),
        _ => None,
    }
}

/// The role associated with the last message-like turn of the history.
pub open spec fn last_emitted_role(items: Seq<HistoryItem>) -> Option<Seq<char>>
    decreases items.len(),
{
    if items.len() == 0 {
        None
    } else {
        match item_role(items.last()) {
            Some(r) => Some(r),
            None => last_emitted_role(items.drop_last()),
        }
    }
}

pub open spec fn is_user_message(item: HistoryItem) -> bool {
    match item {
        HistoryItem::Message { role, .. } => role@ == "user"@,
        _ => false,
    }
}

pub open spec fn is_assistant_message(item: HistoryItem) -> bool {
    match item {
        HistoryItem::Message { role, .. } => role@ == "assistant"@,
        _ => false,
    }
}

/// The position of the last user-role message, if any.
pub open spec fn last_user_index(items: Seq<HistoryItem>) -> Option<int>
    decreases items.len(),
{
    if items.len() == 0 {
        None
    } else if is_user_message(items.last()) {
        Some(items.len() - 1)
    } else {
        last_user_index(items.drop_last())
    }
}

/// Role tracker: one pass over the history computing the role of its last
/// message-like turn.
pub fn track_last_role(items: &Vec<HistoryItem>) -> (r: Option<String>)
    ensures
        match r {
            Some(role) => last_emitted_role(items@) == Some(role@),
            None => last_emitted_role(items@) is None,
        },
{
    let mut cur: Option<String> = None;
    let n = items.len();
    for i in 0..n
        invariant
            n == items@.len(),
            match cur {
                Some(role) => last_emitted_role(items@.take(i as int)) == Some(role@),
                None => last_emitted_role(items@.take(i as int)) is None,
            },
        decreases n - i,
    {
        proof {
            assert(items@.take(i as int + 1).drop_last() =~= items@.take(i as int));
            assert(items@.take(i as int + 1).last() == items@[i as int]);
        }
        match &items[i] {
            HistoryItem::Message { role, .. } => {
                cur = Some(role.clone());
            },
            HistoryItem::FunctionCall { .. } => {
                cur = Some(String::from_str("assistant"));
            },
            HistoryItem::LocalShellCall { .. } => {
                cur = Some(String::from_str("assistant"));
            },
            HistoryItem::FunctionCallOutput { .. } => {
                cur = Some(String::from_str("tool"));
            },
            _ => {},
        }
    }
    proof {
        assert(items@.take(n as int) =~= items@);
    }
    cur
}

/// The position of the last user-role message, by one pass.
pub fn find_last_user_index(items: &Vec<HistoryItem>) -> (r: Option<usize>)
    ensures
        match r {
            Some(u) => last_user_index(items@) == Some(u as int) && u < items@.len(),
            None => last_user_index(items@) is None,
        },
{
    let mut cur: Option<usize> = None;
    let n = items.len();
    for i in 0..n
        invariant
            n == items@.len(),
            match cur {
                Some(u) => last_user_index(items@.take(i as int)) == Some(u as int) && u < i,
                None => last_user_index(items@.take(i as int)) is None,
            },
        decreases n - i,
    {
        proof {
            assert(items@.take(i as int + 1).drop_last() =~= items@.take(i as int));
            assert(items@.take(i as int + 1).last() == items@[i as int]);
        }
        match &items[i] {
            HistoryItem::Message { role, .. } => {
                if str_eq(role.as_str(), "user") {
                    cur = Some(i);
                }
            },
            _ => {},
        }
    }
    proof {
        assert(items@.take(n as int) =~= items@);
    }
    cur
}

} // verus!
