//! End-to-end tests of the request builder: payload shape, reasoning
//! attachment, duplicate suppression, control fields, and headers.

use chat_request::history::{
    ContentItem, FunctionCallOutputContentItem, FunctionCallOutputPayload, HistoryItem,
    ReasoningItemContent, ReasoningSource, SessionSource, SubAgentSource,
};
use chat_request::json::{get, JsonValue};
use chat_request::request::{ApiError, ChatRequest, ChatRequestBuilder};

fn user_msg(text: &str) -> HistoryItem {
    HistoryItem::Message {
        role: "user".to_string(),
        content: vec![ContentItem::InputText { text: text.to_string() }],
    }
}

fn assistant_msg(text: &str) -> HistoryItem {
    HistoryItem::Message {
        role: "assistant".to_string(),
        content: vec![ContentItem::OutputText { text: text.to_string() }],
    }
}

fn reasoning(text: &str, source: Option<ReasoningSource>) -> HistoryItem {
    HistoryItem::Reasoning {
        content: Some(vec![ReasoningItemContent::ReasoningText { text: text.to_string() }]),
        details: None,
        source,
    }
}

fn function_call(name: &str, call_id: &str) -> HistoryItem {
    HistoryItem::FunctionCall {
        name: name.to_string(),
        arguments: "{}".to_string(),
        call_id: call_id.to_string(),
    }
}

fn build(input: Vec<HistoryItem>, enable_reasoning: bool) -> ChatRequest {
    ChatRequestBuilder::new(
        "gpt-test".to_string(),
        "inst".to_string(),
        input,
        Vec::new(),
        enable_reasoning,
    )
    .build()
    .expect("request")
}

fn messages(req: &ChatRequest) -> &Vec<JsonValue> {
    match get(&req.body, "messages") {
        Some(JsonValue::Arr(msgs)) => msgs,
        _ => panic!("messages array missing"),
    }
}

fn str_field<'a>(obj: &'a JsonValue, key: &str) -> &'a str {
    match get(obj, key) {
        Some(JsonValue::Str(s)) => s.as_str(),
        _ => panic!("expected string at {key}"),
    }
}

#[test]
fn attaches_conversation_and_subagent_headers() {
    let prompt_input = vec![user_msg("hi")];
    let req = ChatRequestBuilder::new(
        "gpt-test".to_string(),
        "inst".to_string(),
        prompt_input,
        Vec::new(),
        false,
    )
    .conversation_id(Some("conv-1".into()))
    .session_source(Some(SessionSource::SubAgent(SubAgentSource::Review)))
    .build()
    .expect("request");

    assert_eq!(req.headers.get("conversation_id").map(|v| v.as_str()), Some("conv-1"));
    assert_eq!(req.headers.get("session_id").map(|v| v.as_str()), Some("conv-1"));
    assert_eq!(req.headers.get("x-openai-subagent").map(|v| v.as_str()), Some("review"));
}

#[test]
fn enables_reasoning_controls() {
    let prompt_input = vec![user_msg("hi")];
    let req = ChatRequestBuilder::new(
        "gpt-test".to_string(),
        "inst".to_string(),
        prompt_input,
        Vec::new(),
        true,
    )
    .build()
    .expect("request");

    let reasoning_obj = get(&req.body, "reasoning").expect("reasoning");
    assert!(matches!(get(reasoning_obj, "enabled"), Some(JsonValue::Bool(true))));
    assert!(matches!(get(&req.body, "reasoning_split"), Some(JsonValue::Bool(true))));
    let thinking = get(&req.body, "thinking").expect("thinking");
    assert_eq!(str_field(thinking, "type"), "enabled");
    assert!(matches!(get(thinking, "clear_thinking"), Some(JsonValue::Bool(false))));
    let kwargs = get(&req.body, "chat_template_kwargs").expect("kwargs");
    assert!(matches!(get(kwargs, "thinking"), Some(JsonValue::Bool(true))));
}

#[test]
fn single_user_message_payload() {
    let req = build(vec![user_msg("hi")], false);

    assert_eq!(str_field(&req.body, "model"), "gpt-test");
    assert!(matches!(get(&req.body, "stream"), Some(JsonValue::Bool(true))));
    assert!(matches!(get(&req.body, "tools"), Some(JsonValue::Arr(t)) if t.is_empty()));
    assert!(get(&req.body, "reasoning").is_none());
    assert!(get(&req.body, "reasoning_split").is_none());
    assert!(get(&req.body, "thinking").is_none());
    assert!(get(&req.body, "chat_template_kwargs").is_none());

    let msgs = messages(&req);
    assert_eq!(msgs.len(), 2);
    assert_eq!(str_field(&msgs[0], "role"), "system");
    assert_eq!(str_field(&msgs[0], "content"), "inst");
    assert_eq!(str_field(&msgs[1], "role"), "user");
    assert_eq!(str_field(&msgs[1], "content"), "hi");
    assert_eq!(req.headers.len(), 0);
}

#[test]
fn anchor_precedence_prefers_preceding_assistant() {
    let input = vec![
        user_msg("hi"),
        assistant_msg("a"),
        reasoning("because", None),
        function_call("f", "call-1"),
    ];
    let req = build(input, false);
    let msgs = messages(&req);
    assert_eq!(msgs.len(), 4);

    // The immediately preceding assistant message wins the anchor, so the
    // reasoning text lands there, not on the following function call.
    assert_eq!(str_field(&msgs[2], "role"), "assistant");
    assert_eq!(str_field(&msgs[2], "reasoning"), "because");
    assert!(get(&msgs[3], "reasoning").is_none());
    assert!(get(&msgs[3], "tool_calls").is_some());
}

#[test]
fn reasoning_attaches_to_following_call_without_preceding_message() {
    let input = vec![
        user_msg("hi"),
        function_call("f0", "call-0"),
        reasoning("because", None),
        function_call("f1", "call-1"),
    ];
    let req = build(input, false);
    let msgs = messages(&req);
    assert_eq!(msgs.len(), 4);

    assert!(get(&msgs[2], "reasoning").is_none());
    assert_eq!(str_field(&msgs[3], "reasoning"), "because");
    let calls = match get(&msgs[3], "tool_calls") {
        Some(JsonValue::Arr(calls)) => calls,
        _ => panic!("tool_calls missing"),
    };
    assert_eq!(calls.len(), 1);
    assert_eq!(str_field(&calls[0], "id"), "call-1");
    assert_eq!(str_field(&calls[0], "type"), "function");
    let function = get(&calls[0], "function").expect("function");
    assert_eq!(str_field(function, "name"), "f1");
    assert_eq!(str_field(function, "arguments"), "{}");
}

#[test]
fn same_anchor_merges_text_and_source() {
    let input = vec![
        user_msg("hi"),
        reasoning("fore", None),
        assistant_msg("a"),
        reasoning("aft", Some(ReasoningSource::ReasoningContent)),
    ];
    let req = build(input, false);
    let msgs = messages(&req);
    assert_eq!(msgs.len(), 3);

    // Both reasoning items anchor to the assistant message: texts
    // concatenate and the higher-priority source picks the key.
    assert_eq!(str_field(&msgs[2], "reasoning_content"), "foreaft");
    assert!(get(&msgs[2], "reasoning").is_none());
}

#[test]
fn blank_reasoning_is_dropped() {
    let input = vec![user_msg("hi"), assistant_msg("a"), reasoning("  \t\n ", None)];
    let req = build(input, false);
    let msgs = messages(&req);
    assert_eq!(msgs.len(), 3);
    assert!(get(&msgs[2], "reasoning").is_none());
    assert!(get(&msgs[2], "reasoning_details").is_none());
}

#[test]
fn last_user_turn_discards_trailing_reasoning() {
    let input = vec![assistant_msg("a"), reasoning("because", None), user_msg("hi")];
    let req = build(input, false);
    let msgs = messages(&req);
    assert_eq!(msgs.len(), 3);
    assert!(get(&msgs[1], "reasoning").is_none());
}

#[test]
fn reasoning_details_take_precedence_over_text() {
    let blob = JsonValue::Str("trace".to_string());
    let input = vec![
        user_msg("hi"),
        assistant_msg("a"),
        HistoryItem::Reasoning {
            content: Some(vec![ReasoningItemContent::Text { text: "because".to_string() }]),
            details: Some(blob),
            source: None,
        },
    ];
    let req = build(input, false);
    let msgs = messages(&req);
    assert_eq!(msgs.len(), 3);
    assert!(matches!(get(&msgs[2], "reasoning_details"), Some(JsonValue::Str(s)) if s == "trace"));
    assert!(get(&msgs[2], "reasoning").is_none());
}

#[test]
fn duplicate_assistant_text_collapses() {
    let input = vec![user_msg("hi"), assistant_msg("a"), assistant_msg("a"), assistant_msg("b")];
    let req = build(input, false);
    let msgs = messages(&req);
    assert_eq!(msgs.len(), 4);
    assert_eq!(str_field(&msgs[2], "content"), "a");
    assert_eq!(str_field(&msgs[3], "content"), "b");
}

#[test]
fn local_shell_call_without_id_gets_empty_string() {
    let input = vec![
        user_msg("hi"),
        HistoryItem::LocalShellCall {
            id: None,
            status: "completed".to_string(),
            action: JsonValue::Str("ls".to_string()),
        },
    ];
    let req = build(input, false);
    let msgs = messages(&req);
    assert_eq!(msgs.len(), 3);
    assert_eq!(str_field(&msgs[2], "role"), "assistant");
    assert!(matches!(get(&msgs[2], "content"), Some(JsonValue::Null)));
    let calls = match get(&msgs[2], "tool_calls") {
        Some(JsonValue::Arr(calls)) => calls,
        _ => panic!("tool_calls missing"),
    };
    assert_eq!(str_field(&calls[0], "id"), "");
    assert_eq!(str_field(&calls[0], "type"), "local_shell_call");
    assert_eq!(str_field(&calls[0], "status"), "completed");
    assert!(matches!(get(&calls[0], "action"), Some(JsonValue::Str(s)) if s == "ls"));
}

#[test]
fn function_call_output_raw_and_structured() {
    let input = vec![
        user_msg("hi"),
        HistoryItem::FunctionCallOutput {
            call_id: "call-1".to_string(),
            output: FunctionCallOutputPayload { content: "ok".to_string(), content_items: None },
        },
        HistoryItem::FunctionCallOutput {
            call_id: "call-2".to_string(),
            output: FunctionCallOutputPayload {
                content: "ignored".to_string(),
                content_items: Some(vec![
                    FunctionCallOutputContentItem::InputText { text: "x".to_string() },
                    FunctionCallOutputContentItem::InputImage {
                        image_url: "http://img".to_string(),
                    },
                ]),
            },
        },
    ];
    let req = build(input, false);
    let msgs = messages(&req);
    assert_eq!(msgs.len(), 4);

    assert_eq!(str_field(&msgs[2], "role"), "tool");
    assert_eq!(str_field(&msgs[2], "tool_call_id"), "call-1");
    assert_eq!(str_field(&msgs[2], "content"), "ok");

    assert_eq!(str_field(&msgs[3], "tool_call_id"), "call-2");
    let parts = match get(&msgs[3], "content") {
        Some(JsonValue::Arr(parts)) => parts,
        _ => panic!("structured content expected"),
    };
    assert_eq!(parts.len(), 2);
    assert_eq!(str_field(&parts[0], "type"), "text");
    assert_eq!(str_field(&parts[0], "text"), "x");
    assert_eq!(str_field(&parts[1], "type"), "image_url");
    let image = get(&parts[1], "image_url").expect("image_url");
    assert_eq!(str_field(image, "url"), "http://img");
}

#[test]
fn custom_tool_call_and_output() {
    let input = vec![
        user_msg("hi"),
        HistoryItem::CustomToolCall {
            id: "ct-1".to_string(),
            name: "grep".to_string(),
            input: "needle".to_string(),
        },
        HistoryItem::CustomToolCallOutput {
            call_id: "ct-1".to_string(),
            output: "found".to_string(),
        },
    ];
    let req = build(input, false);
    let msgs = messages(&req);
    assert_eq!(msgs.len(), 4);

    let calls = match get(&msgs[2], "tool_calls") {
        Some(JsonValue::Arr(calls)) => calls,
        _ => panic!("tool_calls missing"),
    };
    assert_eq!(str_field(&calls[0], "id"), "ct-1");
    assert_eq!(str_field(&calls[0], "type"), "custom");
    let custom = get(&calls[0], "custom").expect("custom");
    assert_eq!(str_field(custom, "name"), "grep");
    assert_eq!(str_field(custom, "input"), "needle");

    assert_eq!(str_field(&msgs[3], "role"), "tool");
    assert_eq!(str_field(&msgs[3], "tool_call_id"), "ct-1");
    assert_eq!(str_field(&msgs[3], "content"), "found");
}

#[test]
fn markers_emit_nothing() {
    let input = vec![
        user_msg("hi"),
        HistoryItem::WebSearchCall,
        HistoryItem::GhostSnapshot,
        HistoryItem::Compaction,
        HistoryItem::Other,
    ];
    let req = build(input, false);
    assert_eq!(messages(&req).len(), 2);
}

#[test]
fn non_assistant_message_with_image_uses_part_list() {
    let input = vec![HistoryItem::Message {
        role: "user".to_string(),
        content: vec![
            ContentItem::InputText { text: "look".to_string() },
            ContentItem::InputImage { image_url: "http://img".to_string() },
        ],
    }];
    let req = build(input, false);
    let msgs = messages(&req);
    let parts = match get(&msgs[1], "content") {
        Some(JsonValue::Arr(parts)) => parts,
        _ => panic!("part list expected"),
    };
    assert_eq!(parts.len(), 2);
    assert_eq!(str_field(&parts[0], "text"), "look");
    let image = get(&parts[1], "image_url").expect("image_url");
    assert_eq!(str_field(image, "url"), "http://img");
}

#[test]
fn assistant_message_with_image_keeps_plain_text() {
    let input = vec![
        user_msg("hi"),
        HistoryItem::Message {
            role: "assistant".to_string(),
            content: vec![
                ContentItem::OutputText { text: "see".to_string() },
                ContentItem::InputImage { image_url: "http://img".to_string() },
            ],
        },
    ];
    let req = build(input, false);
    let msgs = messages(&req);
    assert_eq!(str_field(&msgs[2], "content"), "see");
}

#[test]
fn invalid_conversation_id_is_rejected() {
    let result = ChatRequestBuilder::new(
        "gpt-test".to_string(),
        "inst".to_string(),
        vec![user_msg("hi")],
        Vec::new(),
        false,
    )
    .conversation_id(Some("bad\nid".to_string()))
    .build();
    assert!(matches!(result, Err(ApiError::InvalidHeaderValue)));
}

#[test]
fn tools_pass_through_verbatim() {
    let tool = JsonValue::Obj(vec![(
        "type".to_string(),
        JsonValue::Str("function".to_string()),
    )]);
    let req = ChatRequestBuilder::new(
        "gpt-test".to_string(),
        "inst".to_string(),
        vec![user_msg("hi")],
        vec![tool],
        false,
    )
    .build()
    .expect("request");
    let tools = match get(&req.body, "tools") {
        Some(JsonValue::Arr(tools)) => tools,
        _ => panic!("tools missing"),
    };
    assert_eq!(tools.len(), 1);
    assert_eq!(str_field(&tools[0], "type"), "function");
}

#[test]
fn numbers_pass_through_in_opaque_values() {
    let schema = JsonValue::Obj(vec![
        ("type".to_string(), JsonValue::Str("array".to_string())),
        ("maxItems".to_string(), JsonValue::Num("2".to_string())),
    ]);
    let blob = JsonValue::Obj(vec![(
        "tokens".to_string(),
        JsonValue::Num("17".to_string()),
    )]);
    let input = vec![
        user_msg("hi"),
        assistant_msg("a"),
        HistoryItem::Reasoning {
            content: None,
            details: Some(blob),
            source: None,
        },
    ];
    let req = ChatRequestBuilder::new(
        "gpt-test".to_string(),
        "inst".to_string(),
        input,
        vec![schema],
        false,
    )
    .build()
    .expect("request");

    let tools = match get(&req.body, "tools") {
        Some(JsonValue::Arr(tools)) => tools,
        _ => panic!("tools missing"),
    };
    assert!(matches!(get(&tools[0], "maxItems"), Some(JsonValue::Num(n)) if n == "2"));

    let msgs = messages(&req);
    let details = get(&msgs[2], "reasoning_details").expect("details");
    assert!(matches!(get(details, "tokens"), Some(JsonValue::Num(n)) if n == "17"));
}

#[test]
fn reasoning_fragments_concatenate() {
    let input = vec![
        user_msg("hi"),
        assistant_msg("a"),
        HistoryItem::Reasoning {
            content: Some(vec![
                ReasoningItemContent::ReasoningText { text: "one ".to_string() },
                ReasoningItemContent::Text { text: "two".to_string() },
            ]),
            details: None,
            source: Some(ReasoningSource::Reasoning),
        },
    ];
    let req = build(input, false);
    let msgs = messages(&req);
    assert_eq!(str_field(&msgs[2], "reasoning"), "one two");
}

#[test]
fn reasoning_without_anchor_is_dropped() {
    let input = vec![user_msg("hi"), function_call("f", "c"), reasoning("stray", None)];
    let req = build(input, false);
    let msgs = messages(&req);
    assert_eq!(msgs.len(), 3);
    assert!(get(&msgs[2], "reasoning").is_none());
}
