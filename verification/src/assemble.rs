//! The message assembler: one left-to-right pass over the history, emitting
//! one wire message per eligible item, consulting the reasoning table by
//! position and suppressing duplicated assistant text.

use vstd::prelude::*;
use crate::history::{
    ContentItem, FunctionCallOutputContentItem, FunctionCallOutputPayload, HistoryItem,
    ReasoningSource,
};
use crate::json::{
    arr_views, field_views, jstr, lemma_arr_views, lemma_arr_views_push, push_field, JsonV,
    JsonValue,
};
use crate::reasoning::{
    att_at, resolve, table_entry_models, AttachmentV, ReasoningAttachment,
};
use crate::text::{is_blank, opt_str_view, str_eq, str_is_blank};

verus! {

/// The wire shape of one text content part.
pub open spec fn text_part(text: Seq<char>) -> JsonV {
    JsonV::Obj(seq![("type"@, JsonV::Str("text"@)), ("text"@, JsonV::Str(text))])
}

/// The wire shape of one image content part.
pub open spec fn image_part(url: Seq<char>) -> JsonV {
    JsonV::Obj(
        seq![
            ("type"@, JsonV::Str("image_url"@)),
            ("image_url"@, JsonV::Obj(seq![("url"@, JsonV::Str(url))])),
        ],
    )
}

pub open spec fn content_part_view(c: ContentItem) -> JsonV {
    match c {
        ContentItem::InputText { text } => text_part(text@),
        ContentItem::OutputText { text } => text_part(text@),
        ContentItem::InputImage { image_url } => image_part(image_url@),
    }
}

pub open spec fn parts_views(content: Seq<ContentItem>) -> Seq<JsonV> {
    Seq::new(content.len(), |i: int| content_part_view(content[i]))
}

/// The text a content part contributes to the concatenated message text.
pub open spec fn part_text(c: ContentItem) -> Seq<char> {
    match c {
        ContentItem::InputText { text } => text@,
        ContentItem::OutputText { text } => text@,
        ContentItem::InputImage { .. } => Seq::empty(),
    }
}

/// The concatenated plain text of a message's parts.
pub open spec fn message_text(content: Seq<ContentItem>) -> Seq<char>
    decreases content.len(),
{
    if content.len() == 0 {
        Seq::empty()
    } else {
        message_text(content.drop_last()) + part_text(content.last())
    }
}

pub open spec fn has_image(content: Seq<ContentItem>) -> bool {
    exists|i: int| 0 <= i < content.len() && content[i] is InputImage
}

/// The key reasoning text is emitted under, by source tag.
pub open spec fn reasoning_key(source: Option<ReasoningSource>) -> Seq<char> {
    match source {
        Some(ReasoningSource::ReasoningContent) => "reasoning_content"@,
        _ => "reasoning"@,
    }
}

/// Folding an attachment into a wire object's fields: a details blob wins
/// outright; otherwise blank text adds nothing; otherwise the text goes
/// under the key chosen by the source tag.
pub open spec fn fold_attachment(
    fields: Seq<(Seq<char>, JsonV)>,
    att: AttachmentV,
) -> Seq<(Seq<char>, JsonV)> {
    match att.details {
        Some(d) => fields.push(("reasoning_details"@, d)),
        None => if is_blank(att.text) {
            fields
        } else {
            fields.push((reasoning_key(att.source), JsonV::Str(att.text)))
        },
    }
}

/// The content value of a message: assistant turns always carry plain text;
/// other roles carry the structured part list when an image is present.
pub open spec fn message_content_value(role: Seq<char>, content: Seq<ContentItem>) -> JsonV {
    if role == "assistant"@ {
        JsonV::Str(message_text(content))
    } else if has_image(content) {
        JsonV::Arr(parts_views(content))
    } else {
        JsonV::Str(message_text(content))
    }
}

/// The wire message of a Message item; reasoning folds only into assistant
/// turns.
pub open spec fn message_wire(
    role: Seq<char>,
    content: Seq<ContentItem>,
    att: Option<AttachmentV>,
) -> JsonV {
    let base = seq![("role"@, JsonV::Str(role)), ("content"@, message_content_value(role, content))];
    if role == "assistant"@ && att is Some {
        JsonV::Obj(fold_attachment(base, att->0))
    } else {
        JsonV::Obj(base)
    }
}

/// The wire message of a FunctionCall item: an assistant envelope with null
/// content and one function tool-call descriptor.
pub open spec fn function_call_wire(
    name: Seq<char>,
    arguments: Seq<char>,
    call_id: Seq<char>,
    att: Option<AttachmentV>,
) -> JsonV {
    let descriptor = JsonV::Obj(
        seq![
            ("id"@, JsonV::Str(call_id)),
            ("type"@, JsonV::Str("function"@)),
            (
                "function"@,
                JsonV::Obj(seq![("name"@, JsonV::Str(name)), ("arguments"@, JsonV::Str(arguments))]),
            ),
        ],
    );
    let base = seq![
        ("role"@, JsonV::Str("assistant"@)),
        ("content"@, JsonV::Null),
        ("tool_calls"@, JsonV::Arr(seq![descriptor])),
    ];
    match att {
        Some(a) => JsonV::Obj(fold_attachment(base, a)),
        None => JsonV::Obj(base),
    }
}

/// The wire message of a LocalShellCall item; a missing id becomes the
/// empty string.
pub open spec fn local_shell_wire(
    id: Option<Seq<char>>,
    status: Seq<char>,
    action: JsonV,
    att: Option<AttachmentV>,
) -> JsonV {
    let id_value = match id {
        Some(s) => s,
        None => Seq::empty(),
    };
    let descriptor = JsonV::Obj(
        seq![
            ("id"@, JsonV::Str(id_value)),
            ("type"@, JsonV::Str("local_shell_call"@)),
            ("status"@, JsonV::Str(status)),
            ("action"@, action),
        ],
    );
    let base = seq![
        ("role"@, JsonV::Str("assistant"@)),
        ("content"@, JsonV::Null),
        ("tool_calls"@, JsonV::Arr(seq![descriptor])),
    ];
    match att {
        Some(a) => JsonV::Obj(fold_attachment(base, a)),
        None => JsonV::Obj(base),
    }
}

pub open spec fn fco_part_view(c: FunctionCallOutputContentItem) -> JsonV {
    match c {
        FunctionCallOutputContentItem::InputText { text } => text_part(text@),
        FunctionCallOutputContentItem::InputImage { image_url } => image_part(image_url@),
    }
}

pub open spec fn fco_parts_views(items: Seq<FunctionCallOutputContentItem>) -> Seq<JsonV> {
    Seq::new(items.len(), |i: int| fco_part_view(items[i]))
}

/// The wire message of a FunctionCallOutput item: a tool-role message keyed
/// by call id; structured content wins over the raw text.
pub open spec fn function_call_output_wire(
    call_id: Seq<char>,
    output: FunctionCallOutputPayload,
) -> JsonV {
    let content = match output.content_items {
        Some(items) => JsonV::Arr(fco_parts_views(items@)),
        None => JsonV::Str(output.content@),
    };
    JsonV::Obj(
        seq![
            ("role"@, JsonV::Str("tool"@)),
            ("tool_call_id"@, JsonV::Str(call_id)),
            ("content"@, content),
        ],
    )
}

/// The wire message of a CustomToolCall item; reasoning never folds here.
pub open spec fn custom_tool_call_wire(id: Seq<char>, name: Seq<char>, input: Seq<char>) -> JsonV {
    let descriptor = JsonV::Obj(
        seq![
            ("id"@, JsonV::Str(id)),
            ("type"@, JsonV::Str("custom"@)),
            (
                "custom"@,
                JsonV::Obj(seq![("name"@, JsonV::Str(name)), ("input"@, JsonV::Str(input))]),
            ),
        ],
    );
    JsonV::Obj(
        seq![
            ("role"@, JsonV::Str("assistant"@)),
            ("content"@, JsonV::Null),
            ("tool_calls"@, JsonV::Arr(seq![descriptor])),
        ],
    )
}

pub open spec fn custom_tool_call_output_wire(call_id: Seq<char>, output: Seq<char>) -> JsonV {
    JsonV::Obj(
        seq![
            ("role"@, JsonV::Str("tool"@)),
            ("tool_call_id"@, JsonV::Str(call_id)),
            ("content"@, JsonV::Str(output)),
        ],
    )
}

/// Whether an assistant message is suppressed as a duplicate of the last
/// emitted assistant text.
pub open spec fn is_duplicate_assistant(item: HistoryItem, last: Option<Seq<char>>) -> bool {
    match item {
        HistoryItem::Message { role, content } => role@ == "assistant"@ && last == Some(
            message_text(content@),
        ),
        _ => false,
    }
}

/// The wire messages one history item contributes (none or one).
pub open spec fn step_emits(
    item: HistoryItem,
    att: Option<AttachmentV>,
    last: Option<Seq<char>>,
) -> Seq<JsonV> {
    match item {
        HistoryItem::Message { role, content } => {
            if is_duplicate_assistant(item, last) {
                Seq::empty()
            } else {
                seq![message_wire(role@, content@, att)]
            }
        },
        HistoryItem::FunctionCall { name, arguments, call_id } => seq![
            function_call_wire(name@, arguments@, call_id@, att),
        ],
        HistoryItem::LocalShellCall { id, status, action } => seq![
            local_shell_wire(opt_str_view(id), status@, action@, att),
        ],
        HistoryItem::FunctionCallOutput { call_id, output } => seq![
            function_call_output_wire(call_id@, output),
        ],
        HistoryItem::CustomToolCall { id, name, input } => seq![
            custom_tool_call_wire(id@, name@, input@),
        ],
        HistoryItem::CustomToolCallOutput { call_id, output } => seq![
            custom_tool_call_output_wire(call_id@, output@),
        ],
        _ => Seq::empty(),
    }
}

/// The dedup state after one item: an assistant message always leaves its
/// own text as the last assistant text.
pub open spec fn step_last(item: HistoryItem, last: Option<Seq<char>>) -> Option<Seq<char>> {
    match item {
        HistoryItem::Message { role, content } => if role@ == "assistant"@ {
            Some(message_text(content@))
        } else {
            last
        },
        _ => last,
    }
}

/// The wire messages of the items from position `i` on, given the
/// attachment mapping and the dedup state.
pub open spec fn assemble_from(
    items: Seq<HistoryItem>,
    m: Map<int, AttachmentV>,
    i: int,
    last: Option<Seq<char>>,
) -> Seq<JsonV>
    decreases items.len() - i,
{
    if i < 0 || i >= items.len() {
        Seq::empty()
    } else {
        step_emits(items[i], att_at(m, i), last) + assemble_from(
            items,
            m,
            i + 1,
            step_last(items[i], last),
        )
    }
}

/// The full wire-message array of a history (the system message aside).
pub open spec fn assembled_messages(items: Seq<HistoryItem>) -> Seq<JsonV> {
    assemble_from(items, resolve(items), 0, None)
}

fn message_text_exec(content: &Vec<ContentItem>) -> (r: String)
    ensures
        r@ == message_text(content@),
{
    let mut text = String::new();
    let n = content.len();
    for i in 0..n
        invariant
            n == content@.len(),
            text@ == message_text(content@.take(i as int)),
        decreases n - i,
    {
        proof {
            assert(content@.take(i as int + 1).drop_last() =~= content@.take(i as int));
            assert(content@.take(i as int + 1).last() == content@[i as int]);
        }
        match &content[i] {
            ContentItem::InputText { text: t } => text.append(t.as_str()),
            ContentItem::OutputText { text: t } => text.append(t.as_str()),
            ContentItem::InputImage { .. } => {
                proof {
                    assert(text@ + part_text(content@[i as int]) =~= text@);
                }
            },
        }
    }
    proof {
        assert(content@.take(n as int) =~= content@);
    }
    text
}

fn has_image_exec(content: &Vec<ContentItem>) -> (r: bool)
    ensures
        r == has_image(content@),
{
    let n = content.len();
    for i in 0..n
        invariant
            n == content@.len(),
            forall|j: int| 0 <= j < i ==> !(content@[j] is InputImage),
        decreases n - i,
    {
        match &content[i] {
            ContentItem::InputImage { .. } => {
                return true;
            },
            _ => {},
        }
    }
    false
}

fn build_text_part(t: &String) -> (r: JsonValue)
    ensures
        r@ == text_part(t@),
{
    let mut fields: Vec<(String, JsonValue)> = Vec::new();
    push_field(&mut fields, "type", jstr("text"));
    push_field(&mut fields, "text", JsonValue::Str(t.clone()));
    proof {
        assert(field_views(fields@) =~= seq![
            ("type"@, JsonV::Str("text"@)),
            ("text"@, JsonV::Str(t@)),
        ]);
    }
    JsonValue::Obj(fields)
}

fn build_image_part(url: &String) -> (r: JsonValue)
    ensures
        r@ == image_part(url@),
{
    let mut inner: Vec<(String, JsonValue)> = Vec::new();
    push_field(&mut inner, "url", JsonValue::Str(url.clone()));
    proof {
        assert(field_views(inner@) =~= seq![("url"@, JsonV::Str(url@))]);
    }
    let mut fields: Vec<(String, JsonValue)> = Vec::new();
    push_field(&mut fields, "type", jstr("image_url"));
    push_field(&mut fields, "image_url", JsonValue::Obj(inner));
    proof {
        assert(field_views(fields@) =~= seq![
            ("type"@, JsonV::Str("image_url"@)),
            ("image_url"@, JsonV::Obj(seq![("url"@, JsonV::Str(url@))])),
        ]);
    }
    JsonValue::Obj(fields)
}

fn build_parts(content: &Vec<ContentItem>) -> (r: Vec<JsonValue>)
    ensures
        arr_views(r@) == parts_views(content@),
{
    let mut out: Vec<JsonValue> = Vec::new();
    let n = content.len();
    for i in 0..n
        invariant
            n == content@.len(),
            out@.len() == i,
            forall|j: int| 0 <= j < i ==> (#[trigger] out@[j])@ == content_part_view(content@[j]),
        decreases n - i,
    {
        let part = match &content[i] {
            ContentItem::InputText { text } => build_text_part(text),
            ContentItem::OutputText { text } => build_text_part(text),
            ContentItem::InputImage { image_url } => build_image_part(image_url),
        };
        out.push(part);
    }
    proof {
        lemma_arr_views(out@);
        assert(arr_views(out@) =~= parts_views(content@));
    }
    out
}

/// Folds a reasoning attachment into a wire object's fields.
fn fold_attachment_exec(fields: &mut Vec<(String, JsonValue)>, att: ReasoningAttachment)
    ensures
        field_views(final(fields)@) == fold_attachment(field_views(old(fields)@), att@),
{
    match att.details {
        Some(d) => {
            push_field(fields, "reasoning_details", d);
        },
        None => {
            if !str_is_blank(att.text.as_str()) {
                let key: &str = match att.source {
                    Some(ReasoningSource::ReasoningContent) => "reasoning_content",
                    _ => "reasoning",
                };
                proof {
                    assert(key@ == reasoning_key(att.source));
                }
                push_field(fields, key, JsonValue::Str(att.text));
            }
        },
    }
}

fn build_message_wire(role: &String, content: &Vec<ContentItem>, att: Option<ReasoningAttachment>)
    -> (r: JsonValue)
    ensures
        r@ == message_wire(role@, content@, crate::reasoning::opt_att_view(att)),
{
    let assistant = str_eq(role.as_str(), "assistant");
    let content_value: JsonValue = if assistant {
        JsonValue::Str(message_text_exec(content))
    } else if has_image_exec(content) {
        JsonValue::Arr(build_parts(content))
    } else {
        JsonValue::Str(message_text_exec(content))
    };
    let mut fields: Vec<(String, JsonValue)> = Vec::new();
    push_field(&mut fields, "role", JsonValue::Str(role.clone()));
    push_field(&mut fields, "content", content_value);
    proof {
        assert(field_views(fields@) =~= seq![
            ("role"@, JsonV::Str(role@)),
            ("content"@, message_content_value(role@, content@)),
        ]);
    }
    if assistant {
        match att {
            Some(a) => fold_attachment_exec(&mut fields, a),
            None => {},
        }
    }
    JsonValue::Obj(fields)
}

fn build_tool_call_envelope(descriptor: JsonValue, att: Option<ReasoningAttachment>) -> (r:
    JsonValue)
    ensures
        ({
            let base = seq![
                ("role"@, JsonV::Str("assistant"@)),
                ("content"@, JsonV::Null),
                ("tool_calls"@, JsonV::Arr(seq![descriptor@])),
            ];
            r@ == match crate::reasoning::opt_att_view(att) {
                Some(a) => JsonV::Obj(fold_attachment(base, a)),
                None => JsonV::Obj(base),
            }
        }),
{
    let ghost dv = descriptor@;
    let mut calls: Vec<JsonValue> = Vec::new();
    calls.push(descriptor);
    proof {
        lemma_arr_views(calls@);
        assert(arr_views(calls@) =~= seq![dv]);
    }
    let mut fields: Vec<(String, JsonValue)> = Vec::new();
    push_field(&mut fields, "role", jstr("assistant"));
    push_field(&mut fields, "content", JsonValue::Null);
    push_field(&mut fields, "tool_calls", JsonValue::Arr(calls));
    proof {
        assert(field_views(fields@) =~= seq![
            ("role"@, JsonV::Str("assistant"@)),
            ("content"@, JsonV::Null),
            ("tool_calls"@, JsonV::Arr(seq![dv])),
        ]);
    }
    match att {
        Some(a) => fold_attachment_exec(&mut fields, a),
        None => {},
    }
    JsonValue::Obj(fields)
}

fn build_function_call_wire(
    name: &String,
    arguments: &String,
    call_id: &String,
    att: Option<ReasoningAttachment>,
) -> (r: JsonValue)
    ensures
        r@ == function_call_wire(name@, arguments@, call_id@, crate::reasoning::opt_att_view(att)),
{
    let mut inner: Vec<(String, JsonValue)> = Vec::new();
    push_field(&mut inner, "name", JsonValue::Str(name.clone()));
    push_field(&mut inner, "arguments", JsonValue::Str(arguments.clone()));
    proof {
        assert(field_views(inner@) =~= seq![
            ("name"@, JsonV::Str(name@)),
            ("arguments"@, JsonV::Str(arguments@)),
        ]);
    }
    let mut descriptor_fields: Vec<(String, JsonValue)> = Vec::new();
    push_field(&mut descriptor_fields, "id", JsonValue::Str(call_id.clone()));
    push_field(&mut descriptor_fields, "type", jstr("function"));
    push_field(&mut descriptor_fields, "function", JsonValue::Obj(inner));
    proof {
        assert(field_views(descriptor_fields@) =~= seq![
            ("id"@, JsonV::Str(call_id@)),
            ("type"@, JsonV::Str("function"@)),
            (
                "function"@,
                JsonV::Obj(seq![("name"@, JsonV::Str(name@)), ("arguments"@, JsonV::Str(arguments@))]),
            ),
        ]);
    }
    build_tool_call_envelope(JsonValue::Obj(descriptor_fields), att)
}

fn build_local_shell_wire(
    id: &Option<String>,
    status: &String,
    action: &JsonValue,
    att: Option<ReasoningAttachment>,
) -> (r: JsonValue)
    ensures
        r@ == local_shell_wire(
            opt_str_view(*id),
            status@,
            action@,
            crate::reasoning::opt_att_view(att),
        ),
{
    let id_value: String = match id {
        Some(s) => s.clone(),
        None => String::new(),
    };
    let mut descriptor_fields: Vec<(String, JsonValue)> = Vec::new();
    push_field(&mut descriptor_fields, "id", JsonValue::Str(id_value));
    push_field(&mut descriptor_fields, "type", jstr("local_shell_call"));
    push_field(&mut descriptor_fields, "status", JsonValue::Str(status.clone()));
    push_field(&mut descriptor_fields, "action", crate::json::clone_json(action));
    proof {
        let idv = match opt_str_view(*id) {
            Some(s) => s,
            None => Seq::<char>::empty(),
        };
        assert(field_views(descriptor_fields@) =~= seq![
            ("id"@, JsonV::Str(idv)),
            ("type"@, JsonV::Str("local_shell_call"@)),
            ("status"@, JsonV::Str(status@)),
            ("action"@, action@),
        ]);
    }
    build_tool_call_envelope(JsonValue::Obj(descriptor_fields), att)
}

fn build_fco_parts(items: &Vec<FunctionCallOutputContentItem>) -> (r: Vec<JsonValue>)
    ensures
        arr_views(r@) == fco_parts_views(items@),
{
    let mut out: Vec<JsonValue> = Vec::new();
    let n = items.len();
    for i in 0..n
        invariant
            n == items@.len(),
            out@.len() == i,
            forall|j: int| 0 <= j < i ==> (#[trigger] out@[j])@ == fco_part_view(items@[j]),
        decreases n - i,
    {
        let part = match &items[i] {
            FunctionCallOutputContentItem::InputText { text } => build_text_part(text),
            FunctionCallOutputContentItem::InputImage { image_url } => build_image_part(image_url),
        };
        out.push(part);
    }
    proof {
        lemma_arr_views(out@);
        assert(arr_views(out@) =~= fco_parts_views(items@));
    }
    out
}

fn build_function_call_output_wire(call_id: &String, output: &FunctionCallOutputPayload) -> (r:
    JsonValue)
    ensures
        r@ == function_call_output_wire(call_id@, *output),
{
    let content_value: JsonValue = match &output.content_items {
        Some(items) => JsonValue::Arr(build_fco_parts(items)),
        None => JsonValue::Str(output.content.clone()),
    };
    let mut fields: Vec<(String, JsonValue)> = Vec::new();
    push_field(&mut fields, "role", jstr("tool"));
    push_field(&mut fields, "tool_call_id", JsonValue::Str(call_id.clone()));
    push_field(&mut fields, "content", content_value);
    proof {
        let content_model = match &output.content_items {
            Some(items) => JsonV::Arr(fco_parts_views(items@)),
            None => JsonV::Str(output.content@),
        };
        assert(field_views(fields@) =~= seq![
            ("role"@, JsonV::Str("tool"@)),
            ("tool_call_id"@, JsonV::Str(call_id@)),
            ("content"@, content_model),
        ]);
    }
    JsonValue::Obj(fields)
}

fn build_custom_tool_call_wire(id: &String, name: &String, input: &String) -> (r: JsonValue)
    ensures
        r@ == custom_tool_call_wire(id@, name@, input@),
{
    let mut inner: Vec<(String, JsonValue)> = Vec::new();
    push_field(&mut inner, "name", JsonValue::Str(name.clone()));
    push_field(&mut inner, "input", JsonValue::Str(input.clone()));
    proof {
        assert(field_views(inner@) =~= seq![
            ("name"@, JsonV::Str(name@)),
            ("input"@, JsonV::Str(input@)),
        ]);
    }
    let mut descriptor_fields: Vec<(String, JsonValue)> = Vec::new();
    push_field(&mut descriptor_fields, "id", JsonValue::Str(id.clone()));
    push_field(&mut descriptor_fields, "type", jstr("custom"));
    push_field(&mut descriptor_fields, "custom", JsonValue::Obj(inner));
    proof {
        assert(field_views(descriptor_fields@) =~= seq![
            ("id"@, JsonV::Str(id@)),
            ("type"@, JsonV::Str("custom"@)),
            (
                "custom"@,
                JsonV::Obj(seq![("name"@, JsonV::Str(name@)), ("input"@, JsonV::Str(input@))]),
            ),
        ]);
    }
    build_tool_call_envelope(JsonValue::Obj(descriptor_fields), None)
}

fn build_custom_tool_call_output_wire(call_id: &String, output: &String) -> (r: JsonValue)
    ensures
        r@ == custom_tool_call_output_wire(call_id@, output@),
{
    let mut fields: Vec<(String, JsonValue)> = Vec::new();
    push_field(&mut fields, "role", jstr("tool"));
    push_field(&mut fields, "tool_call_id", JsonValue::Str(call_id.clone()));
    push_field(&mut fields, "content", JsonValue::Str(output.clone()));
    proof {
        assert(field_views(fields@) =~= seq![
            ("role"@, JsonV::Str("tool"@)),
            ("tool_call_id"@, JsonV::Str(call_id@)),
            ("content"@, JsonV::Str(output@)),
        ]);
    }
    JsonValue::Obj(fields)
}

/// Message assembler: appends one wire message per eligible history item to
/// `out`, consuming the resolver's table.
pub fn assemble_into(
    items: &Vec<HistoryItem>,
    table: Vec<Option<ReasoningAttachment>>,
    out: &mut Vec<JsonValue>,
)
    requires
        table@.len() == items@.len(),
        forall|k: int|
            0 <= k < items@.len() ==> table_entry_models(#[trigger] table@[k], resolve(items@), k),
    ensures
        arr_views(final(out)@) == arr_views(old(out)@) + assembled_messages(items@),
{
    let ghost m = resolve(items@);
    let mut table = table;
    let mut last_assistant_text: Option<String> = None;
    let n = items.len();
    proof {
        assert(arr_views(out@) + assemble_from(items@, m, 0, None) =~= arr_views(old(out)@)
            + assembled_messages(items@));
    }
    for idx in 0..n
        invariant
            n == items@.len(),
            table@.len() == n,
            forall|k: int|
                idx <= k < n ==> table_entry_models(#[trigger] table@[k], m, k),
            arr_views(out@) + assemble_from(items@, m, idx as int, opt_str_view(last_assistant_text))
                == arr_views(old(out)@) + assembled_messages(items@),
        decreases n - idx,
    {
        let ghost last_v = opt_str_view(last_assistant_text);
        let ghost emitted = step_emits(items@[idx as int], att_at(m, idx as int), last_v);
        let ghost next_last = step_last(items@[idx as int], last_v);
        proof {
            assert(assemble_from(items@, m, idx as int, last_v) == emitted + assemble_from(
                items@,
                m,
                idx as int + 1,
                next_last,
            ));
        }
        let ghost out_before = out@;

        match &items[idx] {
            HistoryItem::Message { role, content } => {
                let text = message_text_exec(content);
                let assistant = str_eq(role.as_str(), "assistant");
                let duplicate = if assistant {
                    match &last_assistant_text {
                        Some(prev) => str_eq(prev.as_str(), text.as_str()),
                        None => false,
                    }
                } else {
                    false
                };
                if duplicate {
                    proof {
                        assert(is_duplicate_assistant(items@[idx as int], last_v));
                        assert(emitted =~= Seq::<JsonV>::empty());
                        assert(arr_views(out@) + emitted =~= arr_views(out@));
                        assert(next_last == last_v);
                    }
                } else {
                    let ghost table_before = table@;
                    let att: Option<ReasoningAttachment> = if assistant {
                        let slot = &mut table[idx];
                        slot.take()
                    } else {
                        None
                    };
                    proof {
                        if assistant {
                            assert(table_entry_models(table_before[idx as int], m, idx as int));
                            assert(crate::reasoning::opt_att_view(att) == att_at(m, idx as int));
                        }
                        assert(forall|k: int|
                            idx < k < n ==> table@[k] == #[trigger] table_before[k]);
                    }
                    let wire = build_message_wire(role, content, att);
                    proof {
                        assert(!is_duplicate_assistant(items@[idx as int], last_v));
                        assert(emitted =~= seq![wire@]);
                        crate::json::lemma_arr_views_push(out@, wire);
                        assert(arr_views(out@.push(wire)) =~= arr_views(out@) + seq![wire@]);
                        assert((arr_views(out@) + seq![wire@]) + assemble_from(
                            items@,
                            m,
                            idx as int + 1,
                            next_last,
                        ) =~= (arr_views(out@) + emitted) + assemble_from(
                            items@,
                            m,
                            idx as int + 1,
                            next_last,
                        ));
                    }
                    out.push(wire);
                    if assistant {
                        last_assistant_text = Some(text);
                    }
                }
            },
            HistoryItem::FunctionCall { name, arguments, call_id } => {
                let ghost table_before = table@;
                let slot = &mut table[idx];
                let att = slot.take();
                proof {
                    assert(table_entry_models(table_before[idx as int], m, idx as int));
                    assert(crate::reasoning::opt_att_view(att) == att_at(m, idx as int));
                    assert(forall|k: int| idx < k < n ==> table@[k] == #[trigger] table_before[k]);
                }
                let wire = build_function_call_wire(name, arguments, call_id, att);
                proof {
                    assert(emitted =~= seq![wire@]);
                    crate::json::lemma_arr_views_push(out@, wire);
                }
                out.push(wire);
            },
            HistoryItem::LocalShellCall { id, status, action } => {
                let ghost table_before = table@;
                let slot = &mut table[idx];
                let att = slot.take();
                proof {
                    assert(table_entry_models(table_before[idx as int], m, idx as int));
                    assert(crate::reasoning::opt_att_view(att) == att_at(m, idx as int));
                    assert(forall|k: int| idx < k < n ==> table@[k] == #[trigger] table_before[k]);
                }
                let wire = build_local_shell_wire(id, status, action, att);
                proof {
                    assert(emitted =~= seq![wire@]);
                    crate::json::lemma_arr_views_push(out@, wire);
                }
                out.push(wire);
            },
            HistoryItem::FunctionCallOutput { call_id, output } => {
                let wire = build_function_call_output_wire(call_id, output);
                proof {
                    assert(emitted =~= seq![wire@]);
                    crate::json::lemma_arr_views_push(out@, wire);
                }
                out.push(wire);
            },
            HistoryItem::CustomToolCall { id, name, input } => {
                let wire = build_custom_tool_call_wire(id, name, input);
                proof {
                    assert(emitted =~= seq![wire@]);
                    crate::json::lemma_arr_views_push(out@, wire);
                }
                out.push(wire);
            },
            HistoryItem::CustomToolCallOutput { call_id, output } => {
                let wire = build_custom_tool_call_output_wire(call_id, output);
                proof {
                    assert(emitted =~= seq![wire@]);
                    crate::json::lemma_arr_views_push(out@, wire);
                }
                out.push(wire);
            },
            _ => {
                proof {
                    assert(emitted =~= Seq::<JsonV>::empty());
                    assert(arr_views(out@) + emitted =~= arr_views(out@));
                    assert(next_last == last_v);
                }
            },
        }
        proof {
            assert(arr_views(out@) + assemble_from(items@, m, idx as int + 1, opt_str_view(
                last_assistant_text,
            )) == arr_views(old(out)@) + assembled_messages(items@));
        }
    }
    proof {
        assert(assemble_from(items@, m, n as int, opt_str_view(last_assistant_text))
            =~= Seq::<JsonV>::empty());
        assert(arr_views(out@) + Seq::<JsonV>::empty() =~= arr_views(out@));
    }
}

} // verus!
