//! Payload and header finalizer: wraps the assembled message array with the
//! top-level request fields, injects the fixed reasoning-control fields when
//! enabled, and builds the outbound header set.

use vstd::prelude::*;
use crate::assemble::{assemble_into, assembled_messages};
use crate::history::{HistoryItem, SessionSource, SubAgentSource};
use crate::json::{
    arr_views, field_views, jstr, lemma_arr_views, push_field, JsonV, JsonValue,
};
use crate::reasoning::resolve_reasoning;
use crate::text::{opt_str_view, str_eq};

verus! {

/// The system message carrying the caller's instructions.
pub open spec fn system_message(instructions: Seq<char>) -> JsonV {
    JsonV::Obj(seq![("role"@, JsonV::Str("system"@)), ("content"@, JsonV::Str(instructions))])
}

/// The four fixed reasoning-control fields, independent of the conversation.
pub open spec fn control_fields() -> Seq<(Seq<char>, JsonV)> {
    seq![
        ("reasoning"@, JsonV::Obj(seq![("enabled"@, JsonV::Bool(true))])),
        ("reasoning_split"@, JsonV::Bool(true)),
        (
            "thinking"@,
            JsonV::Obj(
                seq![("type"@, JsonV::Str("enabled"@)), ("clear_thinking"@, JsonV::Bool(false))],
            ),
        ),
        ("chat_template_kwargs"@, JsonV::Obj(seq![("thinking"@, JsonV::Bool(true))])),
    ]
}

/// Whether a field list already binds a key.
pub open spec fn has_binding(fields: Seq<(Seq<char>, JsonV)>, key: Seq<char>) -> bool {
    exists|i: int| 0 <= i < fields.len() && fields[i].0 == key
}

/// Appends a field unless its key is already bound.
pub open spec fn attach_if_absent(
    fields: Seq<(Seq<char>, JsonV)>,
    key: Seq<char>,
    value: JsonV,
) -> Seq<(Seq<char>, JsonV)> {
    if has_binding(fields, key) {
        fields
    } else {
        fields.push((key, value))
    }
}

/// The payload fields with the four reasoning-control fields present; each
/// is added only where its key is not already bound, so adding them again
/// changes nothing.
pub open spec fn with_control_fields(fields: Seq<(Seq<char>, JsonV)>) -> Seq<(Seq<char>, JsonV)> {
    let f1 = attach_if_absent(
        fields,
        "reasoning"@,
        JsonV::Obj(seq![("enabled"@, JsonV::Bool(true))]),
    );
    let f2 = attach_if_absent(f1, "reasoning_split"@, JsonV::Bool(true));
    let f3 = attach_if_absent(
        f2,
        "thinking"@,
        JsonV::Obj(seq![("type"@, JsonV::Str("enabled"@)), ("clear_thinking"@, JsonV::Bool(false))]),
    );
    attach_if_absent(
        f3,
        "chat_template_kwargs"@,
        JsonV::Obj(seq![("thinking"@, JsonV::Bool(true))]),
    )
}

/// A pushed field with another key keeps a key absent.
pub proof fn lemma_push_keeps_absent(
    fields: Seq<(Seq<char>, JsonV)>,
    p: (Seq<char>, JsonV),
    key: Seq<char>,
)
    requires
        !has_binding(fields, key),
        p.0 != key,
    ensures
        !has_binding(fields.push(p), key),
{
    if has_binding(fields.push(p), key) {
        let i = choose|i: int| 0 <= i < fields.push(p).len() && fields.push(p)[i].0 == key;
        if i < fields.len() {
            assert(fields[i].0 == key);
            assert(has_binding(fields, key));
        }
    }
}

/// Attaching a field leaves its key bound.
pub proof fn lemma_attach_gives_binding(
    fields: Seq<(Seq<char>, JsonV)>,
    key: Seq<char>,
    value: JsonV,
)
    ensures
        has_binding(attach_if_absent(fields, key, value), key),
{
    if !has_binding(fields, key) {
        assert(fields.push((key, value))[fields.len() as int].0 == key);
    }
}

/// Attaching a field keeps every bound key bound.
pub proof fn lemma_attach_preserves_binding(
    fields: Seq<(Seq<char>, JsonV)>,
    key: Seq<char>,
    value: JsonV,
    other: Seq<char>,
)
    requires
        has_binding(fields, other),
    ensures
        has_binding(attach_if_absent(fields, key, value), other),
{
    if !has_binding(fields, key) {
        let i = choose|i: int| 0 <= i < fields.len() && fields[i].0 == other;
        assert(fields.push((key, value))[i].0 == other);
    }
}

/// On fields that bind none of the four control keys, attaching the control
/// fields appends exactly them, in order.
pub proof fn lemma_controls_on_fresh_fields(fields: Seq<(Seq<char>, JsonV)>)
    requires
        !has_binding(fields, "reasoning"@),
        !has_binding(fields, "reasoning_split"@),
        !has_binding(fields, "thinking"@),
        !has_binding(fields, "chat_template_kwargs"@),
    ensures
        with_control_fields(fields) == fields + control_fields(),
{
    reveal_strlit("reasoning");
    reveal_strlit("reasoning_split");
    reveal_strlit("thinking");
    reveal_strlit("chat_template_kwargs");
    assert(("reasoning"@).len() == 9);
    assert(("reasoning_split"@).len() == 15);
    assert(("thinking"@).len() == 8);
    assert(("chat_template_kwargs"@).len() == 20);
    let p1 = ("reasoning"@, JsonV::Obj(seq![("enabled"@, JsonV::Bool(true))]));
    let p2 = ("reasoning_split"@, JsonV::Bool(true));
    let p3 = (
        "thinking"@,
        JsonV::Obj(seq![("type"@, JsonV::Str("enabled"@)), ("clear_thinking"@, JsonV::Bool(false))]),
    );
    let p4 = ("chat_template_kwargs"@, JsonV::Obj(seq![("thinking"@, JsonV::Bool(true))]));
    let f1 = fields.push(p1);
    assert(with_control_fields(fields) == attach_if_absent(
        attach_if_absent(attach_if_absent(f1, p2.0, p2.1), p3.0, p3.1),
        p4.0,
        p4.1,
    ));
    lemma_push_keeps_absent(fields, p1, p2.0);
    lemma_push_keeps_absent(fields, p1, p3.0);
    lemma_push_keeps_absent(fields, p1, p4.0);
    let f2 = f1.push(p2);
    lemma_push_keeps_absent(f1, p2, p3.0);
    lemma_push_keeps_absent(f1, p2, p4.0);
    let f3 = f2.push(p3);
    lemma_push_keeps_absent(f2, p3, p4.0);
    let f4 = f3.push(p4);
    assert(with_control_fields(fields) == f4);
    assert(f4 =~= fields + control_fields());
}

/// None of the four control keys is a key of the base payload fields.
pub proof fn lemma_base_fields_fresh(model: Seq<char>, msgs: Seq<JsonV>, tools: Seq<JsonV>)
    ensures
        !has_binding(base_payload_fields(model, msgs, tools), "reasoning"@),
        !has_binding(base_payload_fields(model, msgs, tools), "reasoning_split"@),
        !has_binding(base_payload_fields(model, msgs, tools), "thinking"@),
        !has_binding(base_payload_fields(model, msgs, tools), "chat_template_kwargs"@),
{
    reveal_strlit("model");
    reveal_strlit("messages");
    reveal_strlit("stream");
    reveal_strlit("tools");
    reveal_strlit("reasoning");
    reveal_strlit("reasoning_split");
    reveal_strlit("thinking");
    reveal_strlit("chat_template_kwargs");
    let base = base_payload_fields(model, msgs, tools);
    assert(("model"@).len() == 5);
    assert(("messages"@).len() == 8);
    assert(("stream"@).len() == 6);
    assert(("tools"@).len() == 5);
    assert(("reasoning"@).len() == 9);
    assert(("reasoning_split"@).len() == 15);
    assert(("thinking"@).len() == 8);
    assert(("chat_template_kwargs"@).len() == 20);
    assert(("messages"@)[0] == 'm');
    assert(("thinking"@)[0] == 't');
    assert forall|i: int| 0 <= i < base.len() implies #[trigger] base[i].0 != "reasoning"@
        && base[i].0 != "reasoning_split"@ && base[i].0 != "thinking"@ && base[i].0
        != "chat_template_kwargs"@ by {
        assert(base[0].0 == "model"@);
        assert(base[1].0 == "messages"@);
        assert(base[2].0 == "stream"@);
        assert(base[3].0 == "tools"@);
    }
    if has_binding(base, "reasoning"@) {
        let i = choose|i: int| 0 <= i < base.len() && base[i].0 == "reasoning"@;
        assert(false);
    }
    if has_binding(base, "reasoning_split"@) {
        let i = choose|i: int| 0 <= i < base.len() && base[i].0 == "reasoning_split"@;
        assert(false);
    }
    if has_binding(base, "thinking"@) {
        let i = choose|i: int| 0 <= i < base.len() && base[i].0 == "thinking"@;
        assert(false);
    }
    if has_binding(base, "chat_template_kwargs"@) {
        let i = choose|i: int| 0 <= i < base.len() && base[i].0 == "chat_template_kwargs"@;
        assert(false);
    }
}

/// The top-level request fields common to every payload.
pub open spec fn base_payload_fields(
    model: Seq<char>,
    msgs: Seq<JsonV>,
    tools: Seq<JsonV>,
) -> Seq<(Seq<char>, JsonV)> {
    seq![
        ("model"@, JsonV::Str(model)),
        ("messages"@, JsonV::Arr(msgs)),
        ("stream"@, JsonV::Bool(true)),
        ("tools"@, JsonV::Arr(tools)),
    ]
}

/// The whole request payload for a conversation.
pub open spec fn payload_view(
    model: Seq<char>,
    instructions: Seq<char>,
    items: Seq<HistoryItem>,
    tools: Seq<JsonV>,
    enable_reasoning: bool,
) -> JsonV {
    let msgs = seq![system_message(instructions)] + assembled_messages(items);
    if enable_reasoning {
        JsonV::Obj(base_payload_fields(model, msgs, tools) + control_fields())
    } else {
        JsonV::Obj(base_payload_fields(model, msgs, tools))
    }
}

/// A character a header value may hold: horizontal tab or any character
/// other than the control characters.
pub open spec fn header_char_ok(c: char) -> bool {
    c == '\t' || (c as u32 >= 32 && c as u32 != 127)
}

pub open spec fn header_value_ok(s: Seq<char>) -> bool {
    forall|i: int| 0 <= i < s.len() ==> header_char_ok(#[trigger] s[i])
}

/// A conversation identifier is acceptable when absent or a valid header
/// value.
pub open spec fn conversation_id_ok(id: Option<Seq<char>>) -> bool {
    match id {
        Some(s) => header_value_ok(s),
        None => true,
    }
}

/// The canonical identifier of a subagent role.
pub open spec fn subagent_name(s: SubAgentSource) -> Seq<char> {
    match s {
        SubAgentSource::Review => "review"@,
        SubAgentSource::Compact => "compact"@,
    }
}

/// The subagent header value a session source yields, if any.
pub open spec fn subagent_of(source: Option<SessionSource>) -> Option<Seq<char>> {
    match source {
        Some(SessionSource::SubAgent(sub)) => Some(subagent_name(sub)),
        _ => None,
    }
}

/// The conversation/session identifier headers: both set to the identifier
/// when one is present, none otherwise.
pub open spec fn conversation_headers(id: Option<Seq<char>>) -> Seq<(Seq<char>, Seq<char>)> {
    match id {
        Some(s) => seq![("conversation_id"@, s), ("session_id"@, s)],
        None => Seq::empty(),
    }
}

/// The full outbound header set.
pub open spec fn headers_view(
    id: Option<Seq<char>>,
    source: Option<SessionSource>,
) -> Seq<(Seq<char>, Seq<char>)> {
    match subagent_of(source) {
        Some(name) => conversation_headers(id).push(("x-openai-subagent"@, name)),
        None => conversation_headers(id),
    }
}

/// The outbound header set: an ordered list of name/value pairs.
pub struct Headers {
    pub entries: Vec<(String, String)>,
}

pub open spec fn header_entries_view(entries: Seq<(String, String)>) -> Seq<(Seq<char>, Seq<char>)> {
    Seq::new(entries.len(), |i: int| (entries[i].0@, entries[i].1@))
}

impl View for Headers {
    type V = Seq<(Seq<char>, Seq<char>)>;

    open spec fn view(&self) -> Seq<(Seq<char>, Seq<char>)> {
        header_entries_view(self.entries@)
    }
}

/// First value bound to `name`, if any.
pub open spec fn header_lookup(
    entries: Seq<(Seq<char>, Seq<char>)>,
    name: Seq<char>,
) -> Option<Seq<char>>
    decreases entries.len(),
{
    if entries.len() == 0 {
        None
    } else if entries[0].0 == name {
        Some(entries[0].1)
    } else {
        header_lookup(entries.drop_first(), name)
    }
}

impl Headers {
    /// The value of the first header with this name, if any.
    pub fn get<'a>(&'a self, name: &str) -> (r: Option<&'a String>)
        ensures
            match r {
                Some(v) => header_lookup(self@, name@) == Some(v@),
                None => header_lookup(self@, name@) is None,
            },
    {
        let n = self.entries.len();
        proof {
            assert(self@.skip(0) =~= self@);
        }
        for i in 0..n
            invariant
                n == self.entries@.len(),
                self@.len() == n,
                header_lookup(self@, name@) == header_lookup(self@.skip(i as int), name@),
            decreases n - i,
        {
            proof {
                assert(self@.skip(i as int)[0] == self@[i as int]);
                assert(self@.skip(i as int).drop_first() =~= self@.skip(i as int + 1));
            }
            if str_eq(self.entries[i].0.as_str(), name) {
                return Some(&self.entries[i].1);
            }
        }
        proof {
            assert(self@.skip(n as int) =~= Seq::<(Seq<char>, Seq<char>)>::empty());
        }
        None
    }

    /// How many headers are set.
    pub fn len(&self) -> (r: usize)
        ensures
            r == self@.len(),
    {
        self.entries.len()
    }
}

/// The one failure this assembly recognizes: a header value that cannot be
/// constructed.
#[derive(Debug, PartialEq, Eq, Structural)]
pub enum ApiError {
    InvalidHeaderValue,
}

/// Assembled request body plus headers for a streaming chat-completion call.
pub struct ChatRequest {
    pub body: JsonValue,
    pub headers: Headers,
}

fn header_value_valid(s: &str) -> (r: bool)
    ensures
        r == header_value_ok(s@),
{
    let n = s.unicode_len();
    for i in 0..n
        invariant
            n == s@.len(),
            forall|j: int| 0 <= j < i ==> header_char_ok(#[trigger] s@[j]),
        decreases n - i,
    {
        let c = s.get_char(i);
        if !(c == '\t' || (c as u32 >= 32 && c as u32 != 127)) {
            return false;
        }
    }
    true
}

/// Header-builder: the base header set, with the conversation and session
/// identifier headers populated when an identifier is present. Fails
/// exactly when the identifier is not a valid header value.
pub fn build_conversation_headers(id: Option<String>) -> (r: Result<Headers, ApiError>)
    ensures
        match r {
            Ok(h) => conversation_id_ok(opt_str_view(id)) && h@ == conversation_headers(
                opt_str_view(id),
            ),
            Err(e) => !conversation_id_ok(opt_str_view(id)) && e == ApiError::InvalidHeaderValue,
        },
{
    let mut entries: Vec<(String, String)> = Vec::new();
    match id {
        Some(s) => {
            if !header_value_valid(s.as_str()) {
                return Err(ApiError::InvalidHeaderValue);
            }
            let name1: String = "conversation_id".to_owned();
            let name2: String = "session_id".to_owned();
            entries.push((name1, s.clone()));
            entries.push((name2, s));
            proof {
                assert(header_entries_view(entries@) =~= conversation_headers(opt_str_view(id)));
            }
            Ok(Headers { entries })
        },
        None => {
            proof {
                assert(header_entries_view(entries@) =~= conversation_headers(opt_str_view(id)));
            }
            Ok(Headers { entries })
        },
    }
}

/// Appends one header.
pub fn insert_header(headers: &mut Headers, name: &str, value: String)
    ensures
        final(headers)@ == old(headers)@.push((name@, value@)),
{
    let ghost before = headers.entries@;
    let ghost v = value@;
    headers.entries.push((name.to_owned(), value));
    proof {
        assert(header_entries_view(headers.entries@) =~= header_entries_view(before).push((
            name@,
            v,
        )));
    }
}

/// Subagent-header collaborator: the canonical identifier when the session
/// source names a subagent role.
pub fn subagent_header(source: &Option<SessionSource>) -> (r: Option<String>)
    ensures
        opt_str_view(r) == subagent_of(*source),
{
    match source {
        Some(SessionSource::SubAgent(sub)) => match sub {
            SubAgentSource::Review => Some("review".to_owned()),
            SubAgentSource::Compact => Some("compact".to_owned()),
        },
        _ => None,
    }
}

/// Appends one field unless its key is already bound.
fn push_field_if_absent(fields: &mut Vec<(String, JsonValue)>, key: &str, value: JsonValue)
    ensures
        field_views(final(fields)@) == attach_if_absent(field_views(old(fields)@), key@, value@),
{
    let n = fields.len();
    for i in 0..n
        invariant
            n == fields@.len(),
            fields@ == old(fields)@,
            forall|j: int| 0 <= j < i ==> field_views(fields@)[j].0 != key@,
        decreases n - i,
    {
        proof {
            crate::json::lemma_field_views(fields@);
        }
        if str_eq(fields[i].0.as_str(), key) {
            proof {
                assert(field_views(fields@)[i as int].0 == key@);
                assert(has_binding(field_views(fields@), key@));
            }
            return ;
        }
    }
    proof {
        crate::json::lemma_field_views(fields@);
        if has_binding(field_views(fields@), key@) {
            let j = choose|j: int|
                0 <= j < field_views(fields@).len() && field_views(fields@)[j].0 == key@;
            assert(false);
        }
    }
    push_field(fields, key, value);
}

/// Makes the four fixed reasoning-control fields present on the payload
/// fields; a key already bound is left as it is, so applying this again
/// changes nothing.
fn attach_reasoning_controls(fields: &mut Vec<(String, JsonValue)>)
    ensures
        field_views(final(fields)@) == with_control_fields(field_views(old(fields)@)),
{
    let mut enabled: Vec<(String, JsonValue)> = Vec::new();
    push_field(&mut enabled, "enabled", JsonValue::Bool(true));
    proof {
        assert(field_views(enabled@) =~= seq![("enabled"@, JsonV::Bool(true))]);
    }
    push_field_if_absent(fields, "reasoning", JsonValue::Obj(enabled));
    push_field_if_absent(fields, "reasoning_split", JsonValue::Bool(true));

    let mut thinking: Vec<(String, JsonValue)> = Vec::new();
    push_field(&mut thinking, "type", jstr("enabled"));
    push_field(&mut thinking, "clear_thinking", JsonValue::Bool(false));
    proof {
        assert(field_views(thinking@) =~= seq![
            ("type"@, JsonV::Str("enabled"@)),
            ("clear_thinking"@, JsonV::Bool(false)),
        ]);
    }
    push_field_if_absent(fields, "thinking", JsonValue::Obj(thinking));

    let mut kwargs: Vec<(String, JsonValue)> = Vec::new();
    push_field(&mut kwargs, "thinking", JsonValue::Bool(true));
    proof {
        assert(field_views(kwargs@) =~= seq![("thinking"@, JsonV::Bool(true))]);
    }
    push_field_if_absent(fields, "chat_template_kwargs", JsonValue::Obj(kwargs));
    proof {
        assert(field_views(fields@) == with_control_fields(field_views(old(fields)@)));
    }
}

/// Builder for one streaming chat-completion request.
pub struct ChatRequestBuilder {
    pub model: String,
    pub instructions: String,
    pub input: Vec<HistoryItem>,
    pub tools: Vec<JsonValue>,
    pub enable_reasoning: bool,
    pub conversation_id: Option<String>,
    pub session_source: Option<SessionSource>,
}

impl ChatRequestBuilder {
    pub fn new(
        model: String,
        instructions: String,
        input: Vec<HistoryItem>,
        tools: Vec<JsonValue>,
        enable_reasoning: bool,
    ) -> (r: Self)
        ensures
            r.model == model,
            r.instructions == instructions,
            r.input == input,
            r.tools == tools,
            r.enable_reasoning == enable_reasoning,
            r.conversation_id is None,
            r.session_source is None,
    {
        Self {
            model,
            instructions,
            input,
            tools,
            enable_reasoning,
            conversation_id: None,
            session_source: None,
        }
    }

    pub fn conversation_id(self, id: Option<String>) -> (r: Self)
        ensures
            r == (Self { conversation_id: id, ..self }),
    {
        Self { conversation_id: id, ..self }
    }

    pub fn session_source(self, source: Option<SessionSource>) -> (r: Self)
        ensures
            r == (Self { session_source: source, ..self }),
    {
        Self { session_source: source, ..self }
    }

    /// Assembles the request: the payload from the history and the header
    /// set from the conversation identifier and session source. Succeeds if
    /// and only if the conversation identifier, when present, is a valid
    /// header value.
    pub fn build(self) -> (r: Result<ChatRequest, ApiError>)
        ensures
            match r {
                Ok(req) => {
                    &&& conversation_id_ok(opt_str_view(self.conversation_id))
                    &&& req.body@ == payload_view(
                        self.model@,
                        self.instructions@,
                        self.input@,
                        arr_views(self.tools@),
                        self.enable_reasoning,
                    )
                    &&& req.headers@ == headers_view(
                        opt_str_view(self.conversation_id),
                        self.session_source,
                    )
                },
                Err(e) => {
                    &&& !conversation_id_ok(opt_str_view(self.conversation_id))
                    &&& e == ApiError::InvalidHeaderValue
                },
            },
    {
        let ChatRequestBuilder {
            model,
            instructions,
            input,
            tools,
            enable_reasoning,
            conversation_id,
            session_source,
        } = self;

        let mut headers = match build_conversation_headers(conversation_id) {
            Ok(h) => h,
            Err(e) => {
                return Err(e);
            },
        };

        let mut messages: Vec<JsonValue> = Vec::new();
        let mut sys_fields: Vec<(String, JsonValue)> = Vec::new();
        push_field(&mut sys_fields, "role", jstr("system"));
        push_field(&mut sys_fields, "content", JsonValue::Str(instructions));
        proof {
            assert(field_views(sys_fields@) =~= seq![
                ("role"@, JsonV::Str("system"@)),
                ("content"@, JsonV::Str(self.instructions@)),
            ]);
        }
        messages.push(JsonValue::Obj(sys_fields));
        proof {
            lemma_arr_views(messages@);
            assert(arr_views(messages@) =~= seq![system_message(self.instructions@)]);
        }

        let table = resolve_reasoning(&input);
        assemble_into(&input, table, &mut messages);
        proof {
            assert(arr_views(messages@) == seq![system_message(self.instructions@)]
                + assembled_messages(self.input@));
        }

        let mut fields: Vec<(String, JsonValue)> = Vec::new();
        push_field(&mut fields, "model", JsonValue::Str(model));
        push_field(&mut fields, "messages", JsonValue::Arr(messages));
        push_field(&mut fields, "stream", JsonValue::Bool(true));
        push_field(&mut fields, "tools", JsonValue::Arr(tools));
        proof {
            assert(field_views(fields@) =~= base_payload_fields(
                self.model@,
                seq![system_message(self.instructions@)] + assembled_messages(self.input@),
                arr_views(self.tools@),
            ));
        }
        if enable_reasoning {
            proof {
                let msgs = seq![system_message(self.instructions@)] + assembled_messages(
                    self.input@,
                );
                lemma_base_fields_fresh(self.model@, msgs, arr_views(self.tools@));
                lemma_controls_on_fresh_fields(
                    base_payload_fields(self.model@, msgs, arr_views(self.tools@)),
                );
            }
            attach_reasoning_controls(&mut fields);
        }
        let body = JsonValue::Obj(fields);

        match subagent_header(&session_source) {
            Some(value) => insert_header(&mut headers, "x-openai-subagent", value),
            None => {},
        }

        Ok(ChatRequest { body, headers })
    }
}

} // verus!
