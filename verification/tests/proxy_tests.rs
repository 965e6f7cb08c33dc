use anthropic_proxy::config::Config;
use anthropic_proxy::error::ProxyError;
use anthropic_proxy::frames::FrameBuffer;
use anthropic_proxy::frames::payload_is_done;
use anthropic_proxy::json::{json_string, Json};
use anthropic_proxy::models::{
    BlockOpen, ChunkChoice, ChunkDelta, ContentBlock, DeltaBody, Message, MessageContent,
    ResponseBlock, SourceRequest, StreamChunk, StreamEvent, SystemPrompt, TargetChoice,
    TargetContent, TargetResponse, TargetUsage, ToolCall, ToolCallDelta, ToolDef,
};
use anthropic_proxy::render::event_frame;
use anthropic_proxy::schema::clean_schema;
use anthropic_proxy::stream::Reassembler;
use anthropic_proxy::transform::{anthropic_to_openai, map_stop_reason, openai_to_anthropic};

fn base_config() -> Config {
    Config {
        port: 3000,
        base_url: "http://localhost:8080".to_string(),
        api_key: None,
        reasoning_model: None,
        completion_model: None,
        debug: false,
        verbose: false,
    }
}

fn empty_request(model: &str) -> SourceRequest {
    SourceRequest {
        model: model.to_string(),
        messages: Vec::new(),
        system: None,
        max_tokens: 1024,
        temperature: None,
        top_p: None,
        stop_sequences: None,
        stream: None,
        tools: None,
        extra: Vec::new(),
    }
}

fn thinking_extra() -> Vec<(String, Json)> {
    vec![(
        "thinking".to_string(),
        Json::Obj(vec![("type".to_string(), Json::Str("enabled".to_string()))]),
    )]
}

#[test]
fn reasoning_override_used_when_thinking_enabled() {
    let mut config = base_config();
    config.reasoning_model = Some("big-thinker".to_string());
    config.completion_model = Some("fast-writer".to_string());
    let mut req = empty_request("orig-model");
    req.extra = thinking_extra();
    let out = anthropic_to_openai(req, &config).unwrap();
    assert_eq!(out.model, "big-thinker");
}

#[test]
fn completion_override_used_without_thinking() {
    let mut config = base_config();
    config.reasoning_model = Some("big-thinker".to_string());
    config.completion_model = Some("fast-writer".to_string());
    let req = empty_request("orig-model");
    let out = anthropic_to_openai(req, &config).unwrap();
    assert_eq!(out.model, "fast-writer");
}

#[test]
fn request_model_used_without_overrides() {
    let config = base_config();
    let mut req = empty_request("orig-model");
    req.extra = thinking_extra();
    let out = anthropic_to_openai(req, &config).unwrap();
    assert_eq!(out.model, "orig-model");
}

#[test]
fn tool_result_message_precedes_aggregated_message() {
    let config = base_config();
    let mut req = empty_request("m");
    req.messages.push(Message {
        role: "user".to_string(),
        content: MessageContent::Blocks(vec![
            ContentBlock::ToolResult {
                tool_use_id: "call_1".to_string(),
                content: "result text".to_string(),
            },
            ContentBlock::Text {
                text: "and then some".to_string(),
            },
        ]),
    });
    let out = anthropic_to_openai(req, &config).unwrap();
    assert_eq!(out.messages.len(), 2);
    assert_eq!(out.messages[0].role, "tool");
    assert_eq!(
        out.messages[0].tool_call_id.as_deref(),
        Some("call_1")
    );
    assert_eq!(out.messages[1].role, "user");
    match &out.messages[1].content {
        Some(TargetContent::Text(t)) => assert_eq!(t, "and then some"),
        other => panic!("unexpected content: {:?}", other.is_some()),
    }
}

#[test]
fn single_text_part_collapses_to_plain_string() {
    let config = base_config();
    let mut req = empty_request("m");
    req.messages.push(Message {
        role: "assistant".to_string(),
        content: MessageContent::Blocks(vec![ContentBlock::Text {
            text: "only".to_string(),
        }]),
    });
    let out = anthropic_to_openai(req, &config).unwrap();
    assert_eq!(out.messages.len(), 1);
    assert!(matches!(
        out.messages[0].content,
        Some(TargetContent::Text(_))
    ));
}

#[test]
fn thinking_blocks_are_dropped() {
    let config = base_config();
    let mut req = empty_request("m");
    req.messages.push(Message {
        role: "assistant".to_string(),
        content: MessageContent::Blocks(vec![ContentBlock::Thinking {
            thinking: "hmm".to_string(),
        }]),
    });
    let out = anthropic_to_openai(req, &config).unwrap();
    assert_eq!(out.messages.len(), 0);
}

#[test]
fn system_prompt_blocks_become_system_messages() {
    let config = base_config();
    let mut req = empty_request("m");
    req.system = Some(SystemPrompt::Blocks(vec![
        "one".to_string(),
        "two".to_string(),
    ]));
    let out = anthropic_to_openai(req, &config).unwrap();
    assert_eq!(out.messages.len(), 2);
    assert_eq!(out.messages[0].role, "system");
    assert_eq!(out.messages[1].role, "system");
}

#[test]
fn tool_use_arguments_are_serialized_json() {
    let config = base_config();
    let mut req = empty_request("m");
    req.messages.push(Message {
        role: "assistant".to_string(),
        content: MessageContent::Blocks(vec![ContentBlock::ToolUse {
            id: "c1".to_string(),
            name: "lookup".to_string(),
            input: Json::Obj(vec![("q".to_string(), Json::Str("x".to_string()))]),
        }]),
    });
    let out = anthropic_to_openai(req, &config).unwrap();
    assert_eq!(out.messages.len(), 1);
    let calls = out.messages[0].tool_calls.as_ref().unwrap();
    assert_eq!(calls.len(), 1);
    assert_eq!(calls[0].arguments, "{\"q\":\"x\"}");
}

#[test]
fn batch_tools_are_filtered_and_empty_list_omitted() {
    let config = base_config();
    let mut req = empty_request("m");
    req.tools = Some(vec![ToolDef {
        name: "batch".to_string(),
        description: None,
        input_schema: Json::Obj(Vec::new()),
        tool_type: Some("BatchTool".to_string()),
    }]);
    let out = anthropic_to_openai(req, &config).unwrap();
    assert!(out.tools.is_none());
}

#[test]
fn kept_tool_has_sanitized_schema() {
    let config = base_config();
    let mut req = empty_request("m");
    req.tools = Some(vec![ToolDef {
        name: "fetch".to_string(),
        description: Some("gets a page".to_string()),
        input_schema: Json::Obj(vec![(
            "format".to_string(),
            Json::Str("uri".to_string()),
        )]),
        tool_type: None,
    }]);
    let out = anthropic_to_openai(req, &config).unwrap();
    let tools = out.tools.unwrap();
    assert_eq!(tools.len(), 1);
    assert_eq!(json_string(&tools[0].parameters), "{}");
}

#[test]
fn map_stop_reason_exact_values() {
    assert_eq!(map_stop_reason(Some("tool_calls")).as_deref(), Some("tool_use"));
    assert_eq!(map_stop_reason(Some("stop")).as_deref(), Some("end_turn"));
    assert_eq!(map_stop_reason(Some("length")).as_deref(), Some("max_tokens"));
    assert_eq!(
        map_stop_reason(Some("content_filter")).as_deref(),
        Some("end_turn")
    );
    assert_eq!(map_stop_reason(None), None);
}

#[test]
fn text_choice_round_trips() {
    let resp = TargetResponse {
        id: "resp_1".to_string(),
        model: "m".to_string(),
        choices: vec![TargetChoice {
            content: Some("hello there".to_string()),
            tool_calls: None,
            finish_reason: Some("stop".to_string()),
        }],
        usage: TargetUsage {
            prompt_tokens: 3,
            completion_tokens: 5,
        },
    };
    let out = openai_to_anthropic(resp).unwrap();
    assert_eq!(out.id, "resp_1");
    assert_eq!(out.response_type, "message");
    assert_eq!(out.role, "assistant");
    assert_eq!(out.content.len(), 1);
    match &out.content[0] {
        ResponseBlock::Text { text } => assert_eq!(text, "hello there"),
        _ => panic!("expected a text block"),
    }
    assert_eq!(out.stop_reason.as_deref(), Some("end_turn"));
    assert_eq!(out.usage.input_tokens, 3);
    assert_eq!(out.usage.output_tokens, 5);
}

#[test]
fn response_without_choices_is_a_transform_error() {
    let resp = TargetResponse {
        id: "r".to_string(),
        model: "m".to_string(),
        choices: Vec::new(),
        usage: TargetUsage {
            prompt_tokens: 0,
            completion_tokens: 0,
        },
    };
    match openai_to_anthropic(resp) {
        Err(ProxyError::Transform { message }) => {
            assert_eq!(message, "No choices in response");
        }
        _ => panic!("expected a transform error"),
    }
}

#[test]
fn invalid_tool_arguments_degrade_to_empty_object() {
    let resp = TargetResponse {
        id: "r".to_string(),
        model: "m".to_string(),
        choices: vec![TargetChoice {
            content: None,
            tool_calls: Some(vec![
                ToolCall {
                    id: "c1".to_string(),
                    name: "f".to_string(),
                    arguments: "{not json".to_string(),
                },
                ToolCall {
                    id: "c2".to_string(),
                    name: "g".to_string(),
                    arguments: "{\"ok\":true}".to_string(),
                },
            ]),
            finish_reason: Some("tool_calls".to_string()),
        }],
        usage: TargetUsage {
            prompt_tokens: 0,
            completion_tokens: 0,
        },
    };
    let out = openai_to_anthropic(resp).unwrap();
    assert_eq!(out.content.len(), 2);
    match &out.content[0] {
        ResponseBlock::ToolUse { input_json, .. } => assert_eq!(input_json, "{}"),
        _ => panic!("expected a tool_use block"),
    }
    match &out.content[1] {
        ResponseBlock::ToolUse { input_json, .. } => assert_eq!(input_json, "{\"ok\":true}"),
        _ => panic!("expected a tool_use block"),
    }
    assert_eq!(out.stop_reason.as_deref(), Some("tool_use"));
}

#[test]
fn sanitizer_is_idempotent_and_keeps_clean_schemas() {
    let schema = Json::Obj(vec![
        ("type".to_string(), Json::Str("object".to_string())),
        (
            "properties".to_string(),
            Json::Obj(vec![(
                "url".to_string(),
                Json::Obj(vec![
                    ("type".to_string(), Json::Str("string".to_string())),
                    ("format".to_string(), Json::Str("uri".to_string())),
                ]),
            )]),
        ),
        (
            "items".to_string(),
            Json::Obj(vec![("format".to_string(), Json::Str("uri".to_string()))]),
        ),
        ("format".to_string(), Json::Str("date".to_string())),
    ]);
    let once = json_string(&clean_schema(clone_json(&schema)));
    let twice = json_string(&clean_schema(clean_schema(clone_json(&schema))));
    assert_eq!(once, twice);
    assert_eq!(
        once,
        "{\"type\":\"object\",\"properties\":{\"url\":{\"type\":\"string\"}},\"items\":{},\"format\":\"date\"}"
    );

    let clean = Json::Obj(vec![("format".to_string(), Json::Str("date".to_string()))]);
    let before = json_string(&clean);
    let after = json_string(&clean_schema(clean));
    assert_eq!(before, after);
}

fn clone_json(j: &Json) -> Json {
    match j {
        Json::Null => Json::Null,
        Json::Bool(b) => Json::Bool(*b),
        Json::Num(s) => Json::Num(s.clone()),
        Json::Str(s) => Json::Str(s.clone()),
        Json::Arr(v) => Json::Arr(v.iter().map(clone_json).collect()),
        Json::Obj(v) => Json::Obj(v.iter().map(|(k, x)| (k.clone(), clone_json(x))).collect()),
    }
}

#[test]
fn json_string_escapes_and_renders_exactly() {
    let j = Json::Obj(vec![
        ("a".to_string(), Json::Str("x\"y\\z\n".to_string())),
        ("b".to_string(), Json::Arr(vec![Json::Null, Json::Bool(true), Json::Num("2.5".to_string())])),
    ]);
    assert_eq!(
        json_string(&j),
        "{\"a\":\"x\\\"y\\\\z\\n\",\"b\":[null,true,2.5]}"
    );
    let ctrl = Json::Str("a\u{1}b\tc".to_string());
    assert_eq!(json_string(&ctrl), "\"a\\u0001b\\tc\"");
}

#[test]
fn text_stream_produces_the_seven_events_in_order() {
    let mut r = Reassembler::new();
    let chunk1 = StreamChunk {
        id: "msg_1".to_string(),
        model: "m".to_string(),
        choices: vec![ChunkChoice {
            delta: ChunkDelta {
                reasoning: None,
                content: Some("Hi".to_string()),
                tool_calls: None,
            },
            finish_reason: None,
        }],
        usage: None,
    };
    let chunk2 = StreamChunk {
        id: "msg_1".to_string(),
        model: "m".to_string(),
        choices: vec![ChunkChoice {
            delta: ChunkDelta {
                reasoning: None,
                content: Some(" there".to_string()),
                tool_calls: None,
            },
            finish_reason: Some("stop".to_string()),
        }],
        usage: None,
    };
    let mut events = r.on_chunk(chunk1);
    events.extend(r.on_chunk(chunk2));
    events.push(r.on_done());
    assert_eq!(events.len(), 7);
    match &events[0] {
        StreamEvent::MessageStart { id, model } => {
            assert_eq!(id, "msg_1");
            assert_eq!(model, "m");
        }
        _ => panic!("expected message_start first"),
    }
    match &events[1] {
        StreamEvent::ContentBlockStart { index, block } => {
            assert_eq!(*index, 0);
            assert!(matches!(block, BlockOpen::Text));
        }
        _ => panic!("expected content_block_start"),
    }
    match &events[2] {
        StreamEvent::ContentBlockDelta { index, delta } => {
            assert_eq!(*index, 0);
            match delta {
                DeltaBody::Text(t) => assert_eq!(t, "Hi"),
                _ => panic!("expected a text delta"),
            }
        }
        _ => panic!("expected content_block_delta"),
    }
    match &events[3] {
        StreamEvent::ContentBlockDelta { index, delta } => {
            assert_eq!(*index, 0);
            match delta {
                DeltaBody::Text(t) => assert_eq!(t, " there"),
                _ => panic!("expected a text delta"),
            }
        }
        _ => panic!("expected content_block_delta"),
    }
    match &events[4] {
        StreamEvent::ContentBlockStop { index } => assert_eq!(*index, 0),
        _ => panic!("expected content_block_stop"),
    }
    match &events[5] {
        StreamEvent::MessageDelta { stop_reason, .. } => {
            assert_eq!(stop_reason.as_deref(), Some("end_turn"));
        }
        _ => panic!("expected message_delta"),
    }
    assert!(matches!(events[6], StreamEvent::MessageStop));
}

#[test]
fn tool_call_stream_accumulates_arguments() {
    let mut r = Reassembler::new();
    let mk = |tc: ToolCallDelta, finish: Option<&str>| StreamChunk {
        id: "msg_2".to_string(),
        model: "m".to_string(),
        choices: vec![ChunkChoice {
            delta: ChunkDelta {
                reasoning: None,
                content: None,
                tool_calls: Some(vec![tc]),
            },
            finish_reason: finish.map(|s| s.to_string()),
        }],
        usage: None,
    };
    let mut events = r.on_chunk(mk(
        ToolCallDelta {
            id: Some("call_9".to_string()),
            name: Some("search".to_string()),
            arguments: None,
        },
        None,
    ));
    for frag in ["{\"q\":", "\"rust", "\"}"] {
        events.extend(r.on_chunk(mk(
            ToolCallDelta {
                id: None,
                name: None,
                arguments: Some(frag.to_string()),
            },
            None,
        )));
    }
    events.extend(r.on_chunk(StreamChunk {
        id: "msg_2".to_string(),
        model: "m".to_string(),
        choices: vec![ChunkChoice {
            delta: ChunkDelta {
                reasoning: None,
                content: None,
                tool_calls: None,
            },
            finish_reason: Some("tool_calls".to_string()),
        }],
        usage: None,
    }));

    let starts: Vec<&StreamEvent> = events
        .iter()
        .filter(|e| matches!(e, StreamEvent::ContentBlockStart { .. }))
        .collect();
    assert_eq!(starts.len(), 1);
    match starts[0] {
        StreamEvent::ContentBlockStart { block, .. } => match block {
            BlockOpen::ToolUse { id, name } => {
                assert_eq!(id, "call_9");
                assert_eq!(name, "search");
            }
            _ => panic!("expected a tool_use block"),
        },
        _ => unreachable!(),
    }
    let mut joined = String::new();
    let mut delta_count = 0;
    for e in &events {
        if let StreamEvent::ContentBlockDelta { delta, .. } = e {
            match delta {
                DeltaBody::InputJson(s) => {
                    joined.push_str(s);
                    delta_count += 1;
                }
                _ => panic!("expected only input_json deltas"),
            }
        }
    }
    assert_eq!(delta_count, 3);
    assert_eq!(joined, "{\"q\":\"rust\"}");
    let stops = events
        .iter()
        .filter(|e| matches!(e, StreamEvent::ContentBlockStop { .. }))
        .count();
    assert_eq!(stops, 1);
    assert!(matches!(
        events.last().unwrap(),
        StreamEvent::MessageDelta { .. }
    ));
}

#[test]
fn transport_failure_yields_exactly_one_error_event() {
    let mut r = Reassembler::new();
    let chunk = StreamChunk {
        id: "msg_3".to_string(),
        model: "m".to_string(),
        choices: vec![ChunkChoice {
            delta: ChunkDelta {
                reasoning: None,
                content: Some("partial".to_string()),
                tool_calls: None,
            },
            finish_reason: None,
        }],
        usage: None,
    };
    let events = r.on_chunk(chunk);
    assert!(events.len() >= 2);
    let ev = r.on_transport_error("connection reset".to_string());
    match ev {
        StreamEvent::Error { message } => assert_eq!(message, "connection reset"),
        _ => panic!("expected exactly one error event"),
    }
}

#[test]
fn reasoning_fragments_open_a_thinking_block_at_index_zero() {
    let mut r = Reassembler::new();
    let chunk = StreamChunk {
        id: "msg_4".to_string(),
        model: "m".to_string(),
        choices: vec![ChunkChoice {
            delta: ChunkDelta {
                reasoning: Some("pondering".to_string()),
                content: None,
                tool_calls: None,
            },
            finish_reason: None,
        }],
        usage: None,
    };
    let events = r.on_chunk(chunk);
    assert_eq!(events.len(), 3);
    match &events[1] {
        StreamEvent::ContentBlockStart { index, block } => {
            assert_eq!(*index, 0);
            assert!(matches!(block, BlockOpen::Thinking));
        }
        _ => panic!("expected content_block_start"),
    }
    match &events[2] {
        StreamEvent::ContentBlockDelta { index, delta } => {
            assert_eq!(*index, 0);
            assert!(matches!(delta, DeltaBody::Thinking(_)));
        }
        _ => panic!("expected content_block_delta"),
    }
}

#[test]
fn thinking_then_text_bumps_the_index() {
    let mut r = Reassembler::new();
    let chunk = StreamChunk {
        id: "msg_5".to_string(),
        model: "m".to_string(),
        choices: vec![ChunkChoice {
            delta: ChunkDelta {
                reasoning: Some("hmm".to_string()),
                content: Some("answer".to_string()),
                tool_calls: None,
            },
            finish_reason: None,
        }],
        usage: None,
    };
    let events = r.on_chunk(chunk);
    // message_start, thinking start, thinking delta, thinking stop,
    // text start at index 1, text delta
    assert_eq!(events.len(), 6);
    match &events[3] {
        StreamEvent::ContentBlockStop { index } => assert_eq!(*index, 0),
        _ => panic!("expected content_block_stop"),
    }
    match &events[4] {
        StreamEvent::ContentBlockStart { index, block } => {
            assert_eq!(*index, 1);
            assert!(matches!(block, BlockOpen::Text));
        }
        _ => panic!("expected content_block_start"),
    }
}

#[test]
fn frame_buffer_handles_arbitrary_boundaries() {
    let mut fb = FrameBuffer::new();
    let first = fb.push_text("data: a");
    assert!(first.is_empty());
    let second = fb.push_text("bc\n\ndata: [DONE]\n\n");
    assert_eq!(second, vec!["abc".to_string(), "[DONE]".to_string()]);
    assert!(!payload_is_done(&second[0]));
    assert!(payload_is_done(&second[1]));
    assert!(payload_is_done("  [DONE]\r\n"));
}

#[test]
fn malformed_and_unrelated_lines_carry_no_payload() {
    let mut fb = FrameBuffer::new();
    let got = fb.push_text(": comment\nevent: x\ndata: {\"k\":1}\n\n");
    assert_eq!(got, vec!["{\"k\":1}".to_string()]);
}

#[test]
fn event_frames_render_exact_wire_text() {
    assert_eq!(
        event_frame(&StreamEvent::MessageStop),
        "event: message_stop\ndata: {\"type\":\"message_stop\"}\n\n"
    );
    assert_eq!(
        event_frame(&StreamEvent::ContentBlockStop { index: 2 }),
        "event: content_block_stop\ndata: {\"type\":\"content_block_stop\",\"index\":2}\n\n"
    );
    assert_eq!(
        event_frame(&StreamEvent::MessageDelta {
            stop_reason: Some("end_turn".to_string()),
            output_tokens: Some(7),
        }),
        "event: message_delta\ndata: {\"type\":\"message_delta\",\"delta\":{\"stop_reason\":\"end_turn\",\"stop_sequence\":null},\"usage\":{\"output_tokens\":7}}\n\n"
    );
}

#[test]
fn config_from_env_applies_defaults_and_fallbacks() {
    let env = vec![
        ("ANTHROPIC_PROXY_BASE_URL".to_string(), "http://up".to_string()),
        ("UPSTREAM_API_KEY".to_string(), "".to_string()),
        ("OPENROUTER_API_KEY".to_string(), "SECRET-REDACTED".to_string()),
        ("PORT".to_string(), "8123".to_string()),
        ("DEBUG".to_string(), "TRUE".to_string()),
        ("VERBOSE".to_string(), "0".to_string()),
    ];
    let c = Config::from_env(&env).unwrap();
    assert_eq!(c.base_url, "http://up");
    assert_eq!(c.port, 8123);
    // a present-but-empty primary key is final: no fallback is consulted
    assert_eq!(c.api_key, None);
    assert!(c.debug);
    assert!(!c.verbose);

    let env2 = vec![
        ("UPSTREAM_BASE_URL".to_string(), "http://up".to_string()),
        ("OPENROUTER_API_KEY".to_string(), "SECRET-REDACTED".to_string()),
    ];
    let c2 = Config::from_env(&env2).unwrap();
    // only an absent primary key lets the fallback stand in
    assert_eq!(c2.api_key.as_deref(), Some("SECRET-REDACTED"));
}

#[test]
fn config_from_env_requires_a_base_url() {
    let env: Vec<(String, String)> = vec![("PORT".to_string(), "80".to_string())];
    match Config::from_env(&env) {
        Err(ProxyError::Config { .. }) => {}
        _ => panic!("expected a config error"),
    }
}

#[test]
fn bad_port_values_fall_back_to_default() {
    let env = vec![
        ("UPSTREAM_BASE_URL".to_string(), "http://up".to_string()),
        ("PORT".to_string(), "99999".to_string()),
    ];
    let c = Config::from_env(&env).unwrap();
    assert_eq!(c.port, 3000);
    let env2 = vec![
        ("UPSTREAM_BASE_URL".to_string(), "http://up".to_string()),
        ("PORT".to_string(), "+8080".to_string()),
    ];
    assert_eq!(Config::from_env(&env2).unwrap().port, 8080);
}

#[test]
fn chat_completions_url_trims_trailing_slashes() {
    let mut c = base_config();
    c.base_url = "http://up///".to_string();
    assert_eq!(c.chat_completions_url(), "http://up/v1/chat/completions");
    c.base_url = "http://up".to_string();
    assert_eq!(c.chat_completions_url(), "http://up/v1/chat/completions");
}

#[test]
fn image_blocks_become_data_urls() {
    let config = base_config();
    let mut req = empty_request("m");
    req.messages.push(Message {
        role: "user".to_string(),
        content: MessageContent::Blocks(vec![
            ContentBlock::Image {
                media_type: "image/png".to_string(),
                data: "QUJD".to_string(),
            },
            ContentBlock::Text {
                text: "what is this".to_string(),
            },
        ]),
    });
    let out = anthropic_to_openai(req, &config).unwrap();
    assert_eq!(out.messages.len(), 1);
    match &out.messages[0].content {
        Some(TargetContent::Parts(parts)) => {
            assert_eq!(parts.len(), 2);
            match &parts[0] {
                anthropic_proxy::models::ContentPart::ImageUrl { url } => {
                    assert_eq!(url, "data:image/png;base64,QUJD");
                }
                _ => panic!("expected an image part"),
            }
        }
        _ => panic!("expected structured parts"),
    }
}

#[test]
fn empty_text_fragments_are_ignored() {
    let mut r = Reassembler::new();
    let chunk = StreamChunk {
        id: "msg_6".to_string(),
        model: "m".to_string(),
        choices: vec![ChunkChoice {
            delta: ChunkDelta {
                reasoning: None,
                content: Some(String::new()),
                tool_calls: None,
            },
            finish_reason: None,
        }],
        usage: None,
    };
    let events = r.on_chunk(chunk);
    assert_eq!(events.len(), 1);
    assert!(matches!(events[0], StreamEvent::MessageStart { .. }));
}

#[test]
fn chunk_without_choices_emits_nothing() {
    let mut r = Reassembler::new();
    let chunk = StreamChunk {
        id: "msg_7".to_string(),
        model: "m".to_string(),
        choices: Vec::new(),
        usage: None,
    };
    let events = r.on_chunk(chunk);
    assert!(events.is_empty());
}

#[test]
fn message_delta_carries_usage_from_the_chunk() {
    let mut r = Reassembler::new();
    let chunk = StreamChunk {
        id: "msg_8".to_string(),
        model: "m".to_string(),
        choices: vec![ChunkChoice {
            delta: ChunkDelta {
                reasoning: None,
                content: Some("x".to_string()),
                tool_calls: None,
            },
            finish_reason: Some("length".to_string()),
        }],
        usage: Some(TargetUsage {
            prompt_tokens: 11,
            completion_tokens: 42,
        }),
    };
    let events = r.on_chunk(chunk);
    match events.last().unwrap() {
        StreamEvent::MessageDelta {
            stop_reason,
            output_tokens,
        } => {
            assert_eq!(stop_reason.as_deref(), Some("max_tokens"));
            assert_eq!(*output_tokens, Some(42));
        }
        _ => panic!("expected message_delta last"),
    }
}

#[test]
fn error_kinds_have_stable_labels() {
    let e = ProxyError::Transform {
        message: "x".to_string(),
    };
    assert_eq!(e.kind(), "transform_error");
    let u = ProxyError::Upstream {
        status: 503,
        body: "busy".to_string(),
    };
    assert_eq!(u.kind(), "upstream_error");
}

#[test]
fn frame_lines_with_carriage_returns_are_handled() {
    let mut fb = FrameBuffer::new();
    let got = fb.push_text("data: {\"a\":1}\r\n\ndata: x\r\n\n");
    assert_eq!(got, vec!["{\"a\":1}".to_string(), "x".to_string()]);
}

#[test]
fn message_start_frame_matches_the_wire_shape() {
    assert_eq!(
        event_frame(&StreamEvent::MessageStart {
            id: "msg_9".to_string(),
            model: "m".to_string(),
        }),
        "event: message_start\ndata: {\"message\":{\"id\":\"msg_9\",\"type\":\"message\",\"role\":\"assistant\",\"model\":\"m\",\"usage\":{\"input_tokens\":0,\"output_tokens\":0}}}\n\n"
    );
}

#[test]
fn reasoning_after_text_stops_the_text_block_first() {
    let mut r = Reassembler::new();
    let text_chunk = StreamChunk {
        id: "msg_10".to_string(),
        model: "m".to_string(),
        choices: vec![ChunkChoice {
            delta: ChunkDelta {
                reasoning: None,
                content: Some("body".to_string()),
                tool_calls: None,
            },
            finish_reason: None,
        }],
        usage: None,
    };
    let reasoning_chunk = StreamChunk {
        id: "msg_10".to_string(),
        model: "m".to_string(),
        choices: vec![ChunkChoice {
            delta: ChunkDelta {
                reasoning: Some("later thought".to_string()),
                content: None,
                tool_calls: None,
            },
            finish_reason: None,
        }],
        usage: None,
    };
    let mut events = r.on_chunk(text_chunk);
    events.extend(r.on_chunk(reasoning_chunk));
    // message_start, text start 0, text delta 0, text stop 0,
    // thinking start 1, thinking delta 1: one block open at a time,
    // one start per index, indices never reused
    assert_eq!(events.len(), 6);
    match &events[3] {
        StreamEvent::ContentBlockStop { index } => assert_eq!(*index, 0),
        _ => panic!("expected the text block stopped first"),
    }
    match &events[4] {
        StreamEvent::ContentBlockStart { index, block } => {
            assert_eq!(*index, 1);
            assert!(matches!(block, BlockOpen::Thinking));
        }
        _ => panic!("expected a thinking block at the next index"),
    }
    match &events[5] {
        StreamEvent::ContentBlockDelta { index, delta } => {
            assert_eq!(*index, 1);
            assert!(matches!(delta, DeltaBody::Thinking(_)));
        }
        _ => panic!("expected a thinking delta"),
    }
}
