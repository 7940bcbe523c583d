//! Laws of the assembly, stated and proved over the specification functions
//! that the executable functions are verified against.

use vstd::prelude::*;
use crate::assemble::{
    assemble_from, fold_attachment, is_duplicate_assistant, message_wire, reasoning_key,
    step_emits, step_last,
};
use crate::history::{is_assistant_message, last_emitted_role, HistoryItem};
use crate::json::{fields_get, obj_get, JsonV};
use crate::reasoning::{
    anchor_of, att_at, eligible, item_attachment, merge_attachment, resolve, resolve_prefix,
    resolve_step, source_rank, AttachmentV,
};
use crate::request::{
    attach_if_absent, base_payload_fields, control_fields, conversation_headers, headers_view,
    lemma_attach_gives_binding, lemma_attach_preserves_binding, payload_view, subagent_name,
    subagent_of, system_message, with_control_fields,
};
use crate::history::{SessionSource, SubAgentSource};
use crate::text::is_blank;

verus! {

/// When the conversation's most recent turn is a fresh user turn, no
/// reasoning is reattached: the attachment mapping is empty.
pub proof fn law_user_turn_keeps_mapping_empty(items: Seq<HistoryItem>)
    requires
        last_emitted_role(items) == Some("user"@),
    ensures
        resolve(items) == Map::<int, AttachmentV>::empty(),
{
}

/// Merging two attachments concatenates their texts, and the surviving
/// source tag is the higher-priority of the two (ties keep the first).
pub proof fn law_merge_concatenates_text_and_ranks_sources(a: AttachmentV, b: AttachmentV)
    ensures
        merge_attachment(a, b).text == a.text + b.text,
        a.source is Some && b.source is Some ==> {
            let merged = merge_attachment(a, b).source;
            &&& merged is Some
            &&& source_rank(merged->0) >= source_rank(a.source->0)
            &&& source_rank(merged->0) >= source_rank(b.source->0)
            &&& (merged == a.source || merged == b.source)
        },
        b.source is None ==> merge_attachment(a, b).source == a.source,
        a.source is None ==> merge_attachment(a, b).source == b.source,
{
}

/// A reasoning item with blank text and no details blob contributes
/// nothing: the resolver's scan leaves the mapping unchanged at its step.
pub proof fn law_blank_reasoning_is_dropped(items: Seq<HistoryItem>, idx: int)
    requires
        0 <= idx < items.len(),
        items[idx] matches HistoryItem::Reasoning { content, details, .. } && is_blank(
            crate::reasoning::reasoning_text_of(content),
        ) && details is None,
    ensures
        resolve_prefix(items, idx + 1) == resolve_prefix(items, idx),
{
    assert(!crate::reasoning::attachable(items[idx]));
}

/// Tracks the mapping at one anchor when exactly one eligible reasoning
/// item targets it.
proof fn lemma_single_contributor(items: Seq<HistoryItem>, i: int, a: int, n: int)
    requires
        0 <= i < items.len(),
        eligible(items, i),
        anchor_of(items, i) == Some(a),
        forall|k: int|
            0 <= k < items.len() && k != i && #[trigger] eligible(items, k) ==> anchor_of(items, k)
                != Some(a),
        0 <= n <= items.len(),
    ensures
        n <= i ==> !resolve_prefix(items, n).dom().contains(a),
        n > i ==> resolve_prefix(items, n).dom().contains(a) && resolve_prefix(items, n)[a]
            == item_attachment(items[i]),
    decreases n,
{
    if n > 0 {
        lemma_single_contributor(items, i, a, n - 1);
        let m = resolve_prefix(items, n - 1);
        let idx = n - 1;
        assert(resolve_prefix(items, n) == resolve_step(m, items, idx));
        if eligible(items, idx) && idx != i {
            assert(anchor_of(items, idx) != Some(a));
        }
    }
}

/// Tracks the mapping at one anchor when exactly two eligible reasoning
/// items target it, the first at `i`, the second at `j`.
proof fn lemma_two_contributors(items: Seq<HistoryItem>, i: int, j: int, a: int, n: int)
    requires
        0 <= i < j < items.len(),
        eligible(items, i),
        eligible(items, j),
        anchor_of(items, i) == Some(a),
        anchor_of(items, j) == Some(a),
        forall|k: int|
            0 <= k < items.len() && k != i && k != j && #[trigger] eligible(items, k)
                ==> anchor_of(items, k) != Some(a),
        0 <= n <= items.len(),
    ensures
        n <= i ==> !resolve_prefix(items, n).dom().contains(a),
        i < n <= j ==> resolve_prefix(items, n).dom().contains(a) && resolve_prefix(items, n)[a]
            == item_attachment(items[i]),
        n > j ==> resolve_prefix(items, n).dom().contains(a) && resolve_prefix(items, n)[a]
            == merge_attachment(item_attachment(items[i]), item_attachment(items[j])),
    decreases n,
{
    if n > 0 {
        lemma_two_contributors(items, i, j, a, n - 1);
        let m = resolve_prefix(items, n - 1);
        let idx = n - 1;
        assert(resolve_prefix(items, n) == resolve_step(m, items, idx));
        if eligible(items, idx) && idx != i && idx != j {
            assert(anchor_of(items, idx) != Some(a));
        }
    }
}

/// Two reasoning items anchored to the same position merge left to right:
/// the mapping at that anchor is exactly the merge of their attachments.
pub proof fn law_same_anchor_merges(items: Seq<HistoryItem>, i: int, j: int, a: int)
    requires
        last_emitted_role(items) != Some("user"@),
        0 <= i < j < items.len(),
        eligible(items, i),
        eligible(items, j),
        anchor_of(items, i) == Some(a),
        anchor_of(items, j) == Some(a),
        forall|k: int|
            0 <= k < items.len() && k != i && k != j && #[trigger] eligible(items, k)
                ==> anchor_of(items, k) != Some(a),
    ensures
        att_at(resolve(items), a) == Some(
            merge_attachment(item_attachment(items[i]), item_attachment(items[j])),
        ),
{
    lemma_two_contributors(items, i, j, a, items.len() as int);
}

/// A trailing reasoning item that immediately follows an assistant message,
/// carries non-blank text and no details blob, and is the only item
/// anchored there, surfaces its text on that assistant's wire message under
/// the key chosen by its source tag.
pub proof fn law_trailing_reasoning_attaches(
    items: Seq<HistoryItem>,
    i: int,
    last: Option<Seq<char>>,
)
    requires
        last_emitted_role(items) != Some("user"@),
        0 < i < items.len(),
        eligible(items, i),
        is_assistant_message(items[i - 1]),
        item_attachment(items[i]).details is None,
        !is_blank(item_attachment(items[i]).text),
        forall|k: int|
            0 <= k < items.len() && k != i && #[trigger] eligible(items, k) ==> anchor_of(items, k)
                != Some(i - 1),
        !is_duplicate_assistant(items[i - 1], last),
    ensures
        att_at(resolve(items), i - 1) == Some(item_attachment(items[i])),
        step_emits(items[i - 1], att_at(resolve(items), i - 1), last).len() == 1,
        ({
            let att = item_attachment(items[i]);
            let w = step_emits(items[i - 1], att_at(resolve(items), i - 1), last)[0];
            obj_get(w, reasoning_key(att.source)) == Some(JsonV::Str(att.text))
        }),
{
    assert(anchor_of(items, i) == Some(i - 1));
    lemma_single_contributor(items, i, i - 1, items.len() as int);
    let att = item_attachment(items[i]);
    match items[i - 1] {
        HistoryItem::Message { role, content } => {
            let w = step_emits(items[i - 1], att_at(resolve(items), i - 1), last)[0];
            assert(w == message_wire(role@, content@, Some(att)));
            let base = seq![
                ("role"@, JsonV::Str(role@)),
                ("content"@, crate::assemble::message_content_value(role@, content@)),
            ];
            let folded = fold_attachment(base, att);
            assert(folded == base.push((reasoning_key(att.source), JsonV::Str(att.text))));
            reveal_strlit("role");
            reveal_strlit("content");
            reveal_strlit("reasoning");
            reveal_strlit("reasoning_content");
            assert(("role"@).len() == 4);
            assert(("content"@).len() == 7);
            assert(reasoning_key(att.source).len() >= 9) by {
                assert(("reasoning"@).len() == 9);
                assert(("reasoning_content"@).len() == 17);
            }
            let key = reasoning_key(att.source);
            assert(("role"@) != key);
            assert(("content"@) != key);
            assert(folded.len() == 3);
            assert(folded[0] == ("role"@, JsonV::Str(role@)));
            assert(fields_get(folded, key) == fields_get(folded.drop_first(), key));
            assert(folded.drop_first()[0] == base[1]);
            assert(fields_get(folded.drop_first(), key) == fields_get(
                folded.drop_first().drop_first(),
                key,
            ));
            assert(folded.drop_first().drop_first().len() == 1);
            assert(folded.drop_first().drop_first()[0] == (key, JsonV::Str(att.text)));
            assert(fields_get(folded.drop_first().drop_first(), key) == Some(JsonV::Str(att.text)));
            assert(fields_get(folded, key) == Some(JsonV::Str(att.text)));
        },
        _ => {
            assert(false);
        },
    }
}

/// Consecutive assistant messages with identical text collapse to a single
/// wire message; non-identical assistant texts both appear.
pub proof fn law_duplicate_assistant_collapses(
    items: Seq<HistoryItem>,
    m: Map<int, AttachmentV>,
    i: int,
    last: Option<Seq<char>>,
)
    requires
        0 <= i,
        i + 1 < items.len(),
        is_assistant_message(items[i]),
        is_assistant_message(items[i + 1]),
        last != step_last(items[i], last),
    ensures
        step_emits(items[i], att_at(m, i), last).len() == 1,
        step_last(items[i], last) == step_last(items[i + 1], step_last(items[i], last))
            ==> assemble_from(items, m, i, last) == step_emits(items[i], att_at(m, i), last)
            + assemble_from(items, m, i + 2, step_last(items[i], last)),
        step_last(items[i], last) != step_last(items[i + 1], step_last(items[i], last))
            ==> assemble_from(items, m, i, last) == step_emits(items[i], att_at(m, i), last)
            + step_emits(items[i + 1], att_at(m, i + 1), step_last(items[i], last))
            + assemble_from(items, m, i + 2, step_last(items[i + 1], step_last(items[i], last)))
            && step_emits(items[i + 1], att_at(m, i + 1), step_last(items[i], last)).len() == 1,
{
    let t1 = step_last(items[i], last);
    let t2 = step_last(items[i + 1], t1);
    match items[i] {
        HistoryItem::Message { .. } => {
            assert(!is_duplicate_assistant(items[i], last));
        },
        _ => {
            assert(false);
        },
    }
    assert(assemble_from(items, m, i, last) == step_emits(items[i], att_at(m, i), last)
        + assemble_from(items, m, i + 1, t1));
    assert(assemble_from(items, m, i + 1, t1) == step_emits(items[i + 1], att_at(m, i + 1), t1)
        + assemble_from(items, m, i + 2, t2));
    match items[i + 1] {
        HistoryItem::Message { .. } => {
            if t1 == t2 {
                assert(is_duplicate_assistant(items[i + 1], t1));
                assert(step_emits(items[i + 1], att_at(m, i + 1), t1) =~= Seq::<JsonV>::empty());
                assert(assemble_from(items, m, i, last) =~= step_emits(items[i], att_at(m, i), last)
                    + assemble_from(items, m, i + 2, t1));
            } else {
                assert(!is_duplicate_assistant(items[i + 1], t1));
                assert(assemble_from(items, m, i, last) =~= step_emits(items[i], att_at(m, i), last)
                    + step_emits(items[i + 1], att_at(m, i + 1), t1) + assemble_from(
                    items,
                    m,
                    i + 2,
                    t2,
                ));
            }
        },
        _ => {
            assert(false);
        },
    }
}

/// Enabling reasoning controls appends exactly the four fixed control
/// fields to the payload, whatever the conversation holds; disabling it
/// appends none.
pub proof fn law_reasoning_controls_exact(
    model: Seq<char>,
    instructions: Seq<char>,
    items: Seq<HistoryItem>,
    tools: Seq<JsonV>,
)
    ensures
        ({
            let msgs = seq![system_message(instructions)] + crate::assemble::assembled_messages(
                items,
            );
            &&& payload_view(model, instructions, items, tools, false) == JsonV::Obj(
                base_payload_fields(model, msgs, tools),
            )
            &&& payload_view(model, instructions, items, tools, true) == JsonV::Obj(
                base_payload_fields(model, msgs, tools) + control_fields(),
            )
        }),
        control_fields().len() == 4,
{
}

/// Making the reasoning-control fields present is idempotent: a second
/// application changes nothing, and every pre-existing field is preserved,
/// in place.
pub proof fn law_reasoning_controls_idempotent(fields: Seq<(Seq<char>, JsonV)>)
    ensures
        with_control_fields(with_control_fields(fields)) == with_control_fields(fields),
        with_control_fields(fields).len() >= fields.len(),
        forall|i: int| 0 <= i < fields.len() ==> with_control_fields(fields)[i] == fields[i],
{
    let k1 = "reasoning"@;
    let v1 = JsonV::Obj(seq![("enabled"@, JsonV::Bool(true))]);
    let k2 = "reasoning_split"@;
    let v2 = JsonV::Bool(true);
    let k3 = "thinking"@;
    let v3 = JsonV::Obj(
        seq![("type"@, JsonV::Str("enabled"@)), ("clear_thinking"@, JsonV::Bool(false))],
    );
    let k4 = "chat_template_kwargs"@;
    let v4 = JsonV::Obj(seq![("thinking"@, JsonV::Bool(true))]);
    let f1 = attach_if_absent(fields, k1, v1);
    let f2 = attach_if_absent(f1, k2, v2);
    let f3 = attach_if_absent(f2, k3, v3);
    let f4 = attach_if_absent(f3, k4, v4);
    assert(with_control_fields(fields) == f4);
    lemma_attach_gives_binding(fields, k1, v1);
    lemma_attach_preserves_binding(f1, k2, v2, k1);
    lemma_attach_preserves_binding(f2, k3, v3, k1);
    lemma_attach_preserves_binding(f3, k4, v4, k1);
    lemma_attach_gives_binding(f1, k2, v2);
    lemma_attach_preserves_binding(f2, k3, v3, k2);
    lemma_attach_preserves_binding(f3, k4, v4, k2);
    lemma_attach_gives_binding(f2, k3, v3);
    lemma_attach_preserves_binding(f3, k4, v4, k3);
    lemma_attach_gives_binding(f3, k4, v4);
    assert(attach_if_absent(f4, k1, v1) == f4);
    assert(attach_if_absent(f4, k2, v2) == f4);
    assert(attach_if_absent(f4, k3, v3) == f4);
    assert(attach_if_absent(f4, k4, v4) == f4);
    assert(with_control_fields(f4) == f4);
    assert forall|i: int| 0 <= i < fields.len() implies f4[i] == fields[i] by {
        assert(f1[i] == fields[i]);
        assert(f2[i] == f1[i]);
        assert(f3[i] == f2[i]);
        assert(f4[i] == f3[i]);
    }
}

/// A subagent session source yields exactly one additional header, holding
/// the subagent's canonical identifier; any other source yields none.
pub proof fn law_subagent_header_exact(id: Option<Seq<char>>, source: Option<SessionSource>)
    ensures
        subagent_of(source) is Some ==> headers_view(id, source) == conversation_headers(id).push(
            ("x-openai-subagent"@, subagent_of(source)->0),
        ) && headers_view(id, source).len() == conversation_headers(id).len() + 1,
        subagent_of(source) is None ==> headers_view(id, source) == conversation_headers(id),
        forall|sub: SubAgentSource|
            subagent_of(Some(SessionSource::SubAgent(sub))) == Some(#[trigger] subagent_name(sub)),
{
}

} // verus!
