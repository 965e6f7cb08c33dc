//! The bidirectional translation engine.
//!
//! [`anthropic_to_openai`] turns a source-format request into a
//! target-format request; [`openai_to_anthropic`] turns a complete
//! target-format response back into a source-format response;
//! [`map_stop_reason`] maps the target format's terminal reasons onto the
//! source format's.

use vstd::prelude::*;
use crate::config::Config;
use crate::error::ProxyError;
use crate::json::{
    Json,
    JsonV,
    is_json,
    json_members_view,
    json_parses,
    json_string,
    obj_get,
    spec_json_text,
    spec_obj_get,
    str_is,
};
use crate::models::{
    ContentBlock,
    ContentBlockV,
    ContentPart,
    ContentPartV,
    Message,
    MessageContent,
    MessageContentV,
    MessageV,
    ResponseBlock,
    ResponseBlockV,
    SourceRequest,
    SourceRequestV,
    SourceResponse,
    SourceResponseV,
    SystemPrompt,
    SystemPromptV,
    TargetChoiceV,
    TargetContent,
    TargetContentV,
    TargetMessage,
    TargetMessageV,
    TargetRequest,
    TargetRequestV,
    TargetResponse,
    TargetResponseV,
    TargetTool,
    TargetToolV,
    ToolCall,
    ToolCallV,
    ToolDef,
    ToolDefV,
    Usage,
    UsageV,
};
use crate::schema::{clean_schema, spec_clean};
use crate::text::{chars_of, string_from_chars};

verus! {

// ----- stop-reason mapping -----

/// How a target finish reason maps onto a source stop reason:
/// `tool_calls` to `tool_use`, `stop` to `end_turn`, `length` to
/// `max_tokens`, any other reason to `end_turn`, and absent stays absent.
pub open spec fn spec_map_stop_reason(r: Option<Seq<char>>) -> Option<Seq<char>> {
    match r {
        None => None,
        Some(s) => Some(
            if s == "tool_calls"@ {
                "tool_use"@
            } else if s == "stop"@ {
                "end_turn"@
            } else if s == "length"@ {
                "max_tokens"@
            } else {
                "end_turn"@
            },
        ),
    }
}

/// Maps a target finish reason onto a source stop reason, as
/// [`spec_map_stop_reason`] says.
pub fn map_stop_reason(finish_reason: Option<&str>) -> (r: Option<String>)
    ensures
        view_of_opt(r) == spec_map_stop_reason(
            match finish_reason {
                Some(s) => Some(s@),
                None => None,
            },
        ),
{
    match finish_reason {
        None => None,
        Some(s) => {
            let owned: String = s.to_owned();
            if str_is(&owned, "tool_calls") {
                Some("tool_use".to_owned())
            } else if str_is(&owned, "stop") {
                Some("end_turn".to_owned())
            } else if str_is(&owned, "length") {
                Some("max_tokens".to_owned())
            } else {
                Some("end_turn".to_owned())
            }
        },
    }
}

/// The view of an optional string.
pub open spec fn view_of_opt(o: Option<String>) -> Option<Seq<char>> {
    match o {
        Some(s) => Some(s@),
        None => None,
    }
}

// ----- model selection -----

/// Whether the extension map asks for reasoning: it holds a `thinking`
/// object whose `type` member is the string `enabled`.
pub open spec fn spec_thinking_enabled(extra: Seq<(Seq<char>, JsonV)>) -> bool {
    match spec_obj_get(extra, "thinking"@) {
        Some(JsonV::Obj(ms)) => spec_obj_get(ms, "type"@) == Some(JsonV::Str("enabled"@)),
        _ => false,
    }
}

/// Tests the extension map for an enabled `thinking` configuration, as
/// [`spec_thinking_enabled`] says.
pub fn thinking_enabled(extra: &Vec<(String, Json)>) -> (r: bool)
    ensures
        r == spec_thinking_enabled(json_members_view(extra@)),
{
    match obj_get(extra, "thinking") {
        Some(Json::Obj(ms)) => match obj_get(ms, "type") {
            Some(Json::Str(s)) => str_is(s, "enabled"),
            _ => false,
        },
        _ => false,
    }
}

/// The effective target model: with thinking enabled the reasoning
/// override if set, else the request's own model; otherwise the
/// completion override if set, else the request's own model.
pub open spec fn spec_select_model(
    req: SourceRequestV,
    reasoning: Option<Seq<char>>,
    completion: Option<Seq<char>>,
) -> Seq<char> {
    if spec_thinking_enabled(req.extra) {
        match reasoning {
            Some(m) => m,
            None => req.model,
        }
    } else {
        match completion {
            Some(m) => m,
            None => req.model,
        }
    }
}

// ----- message conversion -----

/// The data URL a source image block becomes.
pub open spec fn spec_data_url(media_type: Seq<char>, data: Seq<char>) -> Seq<char> {
    "data:"@ + media_type + ";base64,"@ + data
}

/// A target message with role `system` and the given text.
pub open spec fn spec_system_msg(text: Seq<char>) -> TargetMessageV {
    TargetMessageV {
        role: "system"@,
        content: Some(TargetContentV::Text(text)),
        tool_calls: None,
        tool_call_id: None,
    }
}

/// The target messages a system prompt becomes: one per text, in order.
pub open spec fn spec_system_messages(sys: Option<SystemPromptV>) -> Seq<TargetMessageV> {
    match sys {
        None => Seq::empty(),
        Some(SystemPromptV::Single(t)) => seq![spec_system_msg(t)],
        Some(SystemPromptV::Blocks(ts)) => ts.map_values(|t: Seq<char>| spec_system_msg(t)),
    }
}

/// The standalone tool-role message a `tool_result` block becomes.
pub open spec fn spec_tool_result_msg(tool_use_id: Seq<char>, content: Seq<char>)
    -> TargetMessageV {
    TargetMessageV {
        role: "tool"@,
        content: Some(TargetContentV::Text(content)),
        tool_calls: None,
        tool_call_id: Some(tool_use_id),
    }
}

/// One pass over the blocks of a source message, carrying the pending
/// content parts, the pending tool calls, and the standalone messages
/// already emitted: text and image blocks become pending parts, a
/// `tool_use` block becomes a pending tool call with its input serialized
/// to JSON text, a `tool_result` block is emitted at once as a standalone
/// tool-role message, and a `thinking` block is dropped.
pub open spec fn spec_convert_blocks(
    blocks: Seq<ContentBlockV>,
    parts: Seq<ContentPartV>,
    calls: Seq<ToolCallV>,
    msgs: Seq<TargetMessageV>,
) -> (Seq<ContentPartV>, Seq<ToolCallV>, Seq<TargetMessageV>)
    decreases blocks.len(),
{
    if blocks.len() == 0 {
        (parts, calls, msgs)
    } else {
        let rest = blocks.drop_first();
        match blocks[0] {
            ContentBlockV::Text { text } => spec_convert_blocks(
                rest,
                parts.push(ContentPartV::Text { text }),
                calls,
                msgs,
            ),
            ContentBlockV::Image { media_type, data } => spec_convert_blocks(
                rest,
                parts.push(ContentPartV::ImageUrl { url: spec_data_url(media_type, data) }),
                calls,
                msgs,
            ),
            ContentBlockV::ToolUse { id, name, input } => spec_convert_blocks(
                rest,
                parts,
                calls.push(ToolCallV { id, name, arguments: spec_json_text(input) }),
                msgs,
            ),
            ContentBlockV::ToolResult { tool_use_id, content } => spec_convert_blocks(
                rest,
                parts,
                calls,
                msgs.push(spec_tool_result_msg(tool_use_id, content)),
            ),
            ContentBlockV::Thinking { .. } => spec_convert_blocks(rest, parts, calls, msgs),
        }
    }
}

/// The aggregated message built after the block pass, if anything is
/// pending: a single pending text part collapses to plain text content,
/// any other non-empty part list stays structured, and the pending tool
/// calls are attached when there are any.
pub open spec fn spec_aggregate(
    role: Seq<char>,
    parts: Seq<ContentPartV>,
    calls: Seq<ToolCallV>,
) -> Seq<TargetMessageV> {
    if parts.len() == 0 && calls.len() == 0 {
        Seq::empty()
    } else {
        let content = if parts.len() == 0 {
            None
        } else if parts.len() == 1 && parts[0] is Text {
            Some(TargetContentV::Text(parts[0]->Text_text))
        } else {
            Some(TargetContentV::Parts(parts))
        };
        let tool_calls = if calls.len() == 0 {
            None
        } else {
            Some(calls)
        };
        seq![TargetMessageV { role, content, tool_calls, tool_call_id: None }]
    }
}

/// The target messages one source message becomes: plain-string content
/// becomes one message of the same role; block content becomes the
/// standalone tool-result messages in encounter order, followed by the
/// aggregated message, if any.
pub open spec fn spec_convert_message(m: MessageV) -> Seq<TargetMessageV> {
    match m.content {
        MessageContentV::Text(t) => seq![
            TargetMessageV {
                role: m.role,
                content: Some(TargetContentV::Text(t)),
                tool_calls: None,
                tool_call_id: None,
            },
        ],
        MessageContentV::Blocks(bs) => {
            let (parts, calls, msgs) = spec_convert_blocks(
                bs,
                Seq::empty(),
                Seq::empty(),
                Seq::empty(),
            );
            msgs + spec_aggregate(m.role, parts, calls)
        },
    }
}

/// The target messages of a whole request body, in message order.
pub open spec fn spec_convert_messages(ms: Seq<MessageV>) -> Seq<TargetMessageV>
    decreases ms.len(),
{
    if ms.len() == 0 {
        Seq::empty()
    } else {
        spec_convert_messages(ms.drop_last()) + spec_convert_message(ms.last())
    }
}

// ----- tool translation -----

/// Whether a tool definition is forwarded: the unsupported built-in batch
/// kind is excluded entirely.
pub open spec fn spec_tool_kept(t: ToolDefV) -> bool {
    t.tool_type != Some("BatchTool"@)
}

/// The target form of one tool definition, its schema sanitized.
pub open spec fn spec_tool_out(t: ToolDefV) -> TargetToolV {
    TargetToolV {
        name: t.name,
        description: t.description,
        parameters: spec_clean(t.input_schema),
    }
}

/// The kept tools, translated, in order.
pub open spec fn spec_tools_out(ts: Seq<ToolDefV>) -> Seq<TargetToolV>
    decreases ts.len(),
{
    if ts.len() == 0 {
        Seq::empty()
    } else {
        spec_tools_out(ts.drop_last()) + (if spec_tool_kept(ts.last()) {
            seq![spec_tool_out(ts.last())]
        } else {
            Seq::empty()
        })
    }
}

/// The tools field of the target request: absent when the source had
/// none, and also when filtering left none.
pub open spec fn spec_translate_tools(tools: Option<Seq<ToolDefV>>) -> Option<Seq<TargetToolV>> {
    match tools {
        None => None,
        Some(ts) => if spec_tools_out(ts).len() == 0 {
            None
        } else {
            Some(spec_tools_out(ts))
        },
    }
}

// ----- whole-request translation -----

/// The target request a source request becomes, under the two optional
/// model overrides.
pub open spec fn spec_translate_request(
    req: SourceRequestV,
    reasoning: Option<Seq<char>>,
    completion: Option<Seq<char>>,
) -> TargetRequestV {
    TargetRequestV {
        model: spec_select_model(req, reasoning, completion),
        messages: spec_system_messages(req.system) + spec_convert_messages(req.messages),
        max_tokens: req.max_tokens,
        temperature: req.temperature,
        top_p: req.top_p,
        stop: req.stop_sequences,
        stream: req.stream,
        tools: spec_translate_tools(req.tools),
    }
}

/// Converts one source message into zero or more target messages, as
/// [`spec_convert_message`] says: a `tool_result` block yields a
/// standalone tool-role message at once, so those messages stand before
/// the aggregated message built from the remaining blocks.
pub fn convert_message(msg: Message) -> (r: Vec<TargetMessage>)
    ensures
        r@.map_values(|m: TargetMessage| m@) == spec_convert_message(msg@),
{
    let ghost mv = msg@;
    let mut result: Vec<TargetMessage> = Vec::new();
    match msg.content {
        MessageContent::Text(text) => {
            result.push(
                TargetMessage {
                    role: msg.role,
                    content: Some(TargetContent::Text(text)),
                    tool_calls: None,
                    tool_call_id: None,
                },
            );
            proof {
                assert(result@.map_values(|m: TargetMessage| m@) =~= spec_convert_message(mv));
            }
        },
        MessageContent::Blocks(blocks) => {
            let ghost bs0 = blocks@.map_values(|x: ContentBlock| x@);
            let mut rest = blocks;
            let mut parts: Vec<ContentPart> = Vec::new();
            let mut calls: Vec<ToolCall> = Vec::new();
            proof {
                assert(rest@.map_values(|x: ContentBlock| x@) =~= bs0);
                assert(parts@.map_values(|x: ContentPart| x@) =~= Seq::<ContentPartV>::empty());
                assert(calls@.map_values(|x: ToolCall| x@) =~= Seq::<ToolCallV>::empty());
                assert(result@.map_values(|m: TargetMessage| m@) =~= Seq::<
                    TargetMessageV,
                >::empty());
            }
            while rest.len() > 0
                invariant
                    spec_convert_blocks(bs0, Seq::empty(), Seq::empty(), Seq::empty())
                        == spec_convert_blocks(
                        rest@.map_values(|x: ContentBlock| x@),
                        parts@.map_values(|x: ContentPart| x@),
                        calls@.map_values(|x: ToolCall| x@),
                        result@.map_values(|m: TargetMessage| m@),
                    ),
                decreases rest@.len(),
            {
                let ghost rv = rest@.map_values(|x: ContentBlock| x@);
                let ghost pv = parts@.map_values(|x: ContentPart| x@);
                let ghost cv = calls@.map_values(|x: ToolCall| x@);
                let ghost ev = result@.map_values(|m: TargetMessage| m@);
                let block = rest.remove(0);
                proof {
                    assert(rv[0] == block@);
                    assert(rest@.map_values(|x: ContentBlock| x@) =~= rv.drop_first());
                }
                match block {
                    ContentBlock::Text { text } => {
                        let ghost t = text@;
                        parts.push(ContentPart::Text { text });
                        proof {
                            assert(parts@.map_values(|x: ContentPart| x@) =~= pv.push(
                                ContentPartV::Text { text: t },
                            ));
                        }
                    },
                    ContentBlock::Image { media_type, data } => {
                        let ghost mt = media_type@;
                        let ghost dt = data@;
                        let mut url = chars_of("data:");
                        let mut mtc = chars_of(media_type.as_str());
                        url.append(&mut mtc);
                        let mut sep = chars_of(";base64,");
                        url.append(&mut sep);
                        let mut dc = chars_of(data.as_str());
                        url.append(&mut dc);
                        let url_s = string_from_chars(&url);
                        proof {
                            assert(url_s@ =~= spec_data_url(mt, dt));
                        }
                        parts.push(ContentPart::ImageUrl { url: url_s });
                        proof {
                            assert(parts@.map_values(|x: ContentPart| x@) =~= pv.push(
                                ContentPartV::ImageUrl { url: spec_data_url(mt, dt) },
                            ));
                        }
                    },
                    ContentBlock::ToolUse { id, name, input } => {
                        let ghost iv = id@;
                        let ghost nv = name@;
                        let ghost inv = input@;
                        let arguments = json_string(&input);
                        calls.push(ToolCall { id, name, arguments });
                        proof {
                            assert(calls@.map_values(|x: ToolCall| x@) =~= cv.push(
                                ToolCallV { id: iv, name: nv, arguments: spec_json_text(inv) },
                            ));
                        }
                    },
                    ContentBlock::ToolResult { tool_use_id, content } => {
                        let ghost uv = tool_use_id@;
                        let ghost cv2 = content@;
                        result.push(
                            TargetMessage {
                                role: "tool".to_owned(),
                                content: Some(TargetContent::Text(content)),
                                tool_calls: None,
                                tool_call_id: Some(tool_use_id),
                            },
                        );
                        proof {
                            assert(result@.map_values(|m: TargetMessage| m@) =~= ev.push(
                                spec_tool_result_msg(uv, cv2),
                            ));
                        }
                    },
                    ContentBlock::Thinking { .. } => {
                    },
                }
            }
            proof {
                assert(rest@.map_values(|x: ContentBlock| x@).len() == 0);
            }
            let ghost pv = parts@.map_values(|x: ContentPart| x@);
            let ghost cv = calls@.map_values(|x: ToolCall| x@);
            let ghost ev = result@.map_values(|m: TargetMessage| m@);
            proof {
                assert(spec_convert_blocks(bs0, Seq::empty(), Seq::empty(), Seq::empty()) == (
                pv,
                cv,
                ev,
                ));
            }
            if parts.len() > 0 || calls.len() > 0 {
                let content: Option<TargetContent> = if parts.len() == 0 {
                    None
                } else if parts.len() == 1 {
                    let p0 = parts.remove(0);
                    match p0 {
                        ContentPart::Text { text } => Some(TargetContent::Text(text)),
                        other => {
                            let mut v: Vec<ContentPart> = Vec::new();
                            v.push(other);
                            proof {
                                assert(v@.map_values(|x: ContentPart| x@) =~= pv);
                            }
                            Some(TargetContent::Parts(v))
                        },
                    }
                } else {
                    Some(TargetContent::Parts(parts))
                };
                let tool_calls: Option<Vec<ToolCall>> = if calls.len() == 0 {
                    None
                } else {
                    Some(calls)
                };
                result.push(
                    TargetMessage { role: msg.role, content, tool_calls, tool_call_id: None },
                );
                proof {
                    assert(result@.map_values(|m: TargetMessage| m@) =~= ev + spec_aggregate(
                        mv.role,
                        pv,
                        cv,
                    ));
                }
            } else {
                proof {
                    assert(spec_aggregate(mv.role, pv, cv) =~= Seq::<TargetMessageV>::empty());
                    assert(result@.map_values(|m: TargetMessage| m@) =~= ev + spec_aggregate(
                        mv.role,
                        pv,
                        cv,
                    ));
                }
            }
            proof {
                assert(result@.map_values(|m: TargetMessage| m@) =~= spec_convert_message(mv));
            }
        },
    }
    result
}

/// Translates a source request into a target request, as
/// [`spec_translate_request`] says, under the configuration's model
/// overrides. Pure structural conversion cannot fail, so the result is
/// always `Ok`.
pub fn anthropic_to_openai(req: SourceRequest, config: &Config) -> (r: Result<
    TargetRequest,
    ProxyError,
>)
    ensures
        r matches Ok(out) && out@ == spec_translate_request(
            req@,
            crate::config::view_of_opt_string(config.reasoning_model),
            crate::config::view_of_opt_string(config.completion_model),
        ),
{
    let ghost rv = req@;
    let has_thinking = thinking_enabled(&req.extra);
    let model: String = if has_thinking {
        match &config.reasoning_model {
            Some(m) => m.clone(),
            None => req.model.clone(),
        }
    } else {
        match &config.completion_model {
            Some(m) => m.clone(),
            None => req.model.clone(),
        }
    };
    let mut messages: Vec<TargetMessage> = Vec::new();
    match req.system {
        None => {
            proof {
                assert(messages@.map_values(|m: TargetMessage| m@) =~= spec_system_messages(
                    rv.system,
                ));
            }
        },
        Some(SystemPrompt::Single(text)) => {
            messages.push(
                TargetMessage {
                    role: "system".to_owned(),
                    content: Some(TargetContent::Text(text)),
                    tool_calls: None,
                    tool_call_id: None,
                },
            );
            proof {
                assert(messages@.map_values(|m: TargetMessage| m@) =~= spec_system_messages(
                    rv.system,
                ));
            }
        },
        Some(SystemPrompt::Blocks(texts)) => {
            let ghost ts = texts@.map_values(|x: String| x@);
            let mut rest = texts;
            proof {
                assert(rest@.map_values(|x: String| x@) =~= ts);
                assert(messages@.map_values(|m: TargetMessage| m@) =~= ts.take(
                    0,
                ).map_values(|t: Seq<char>| spec_system_msg(t)));
            }
            while rest.len() > 0
                invariant
                    rest@.map_values(|x: String| x@) =~= ts.skip(
                        ts.len() - rest@.len(),
                    ),
                    rest@.len() <= ts.len(),
                    messages@.map_values(|m: TargetMessage| m@) =~= ts.take(
                        ts.len() - rest@.len(),
                    ).map_values(|t: Seq<char>| spec_system_msg(t)),
                decreases rest@.len(),
            {
                let ghost done = ts.len() - rest@.len();
                let ghost mv0 = messages@.map_values(|m: TargetMessage| m@);
                let ghost rb = rest@;
                let text = rest.remove(0);
                proof {
                    assert(text@ == rb.map_values(|x: String| x@)[0]);
                    assert(ts.skip(done)[0] == ts[done]);
                    assert(text@ == ts[done]);
                    assert(rest@ =~= rb.drop_first());
                    assert(rest@.map_values(|x: String| x@) =~= rb.map_values(
                        |x: String| x@,
                    ).drop_first());
                    assert(ts.skip(done).drop_first() =~= ts.skip(done + 1));
                }
                messages.push(
                    TargetMessage {
                        role: "system".to_owned(),
                        content: Some(TargetContent::Text(text)),
                        tool_calls: None,
                        tool_call_id: None,
                    },
                );
                proof {
                    assert(ts.take(done + 1).drop_last() =~= ts.take(done));
                    assert(ts.take(done + 1).map_values(|t: Seq<char>| spec_system_msg(t))
                        =~= ts.take(done).map_values(|t: Seq<char>| spec_system_msg(t)).push(
                        spec_system_msg(ts[done]),
                    ));
                    assert(messages@.map_values(|m: TargetMessage| m@) =~= mv0.push(
                        spec_system_msg(ts[done]),
                    ));
                }
            }
            proof {
                assert(ts.take(ts.len() as int) =~= ts);
                assert(messages@.map_values(|m: TargetMessage| m@) =~= spec_system_messages(
                    rv.system,
                ));
            }
        },
    }
    proof {
        assert(messages@.map_values(|m: TargetMessage| m@) == spec_system_messages(rv.system));
    }
    let ghost sysv = messages@.map_values(|m: TargetMessage| m@);
    let mut rest_msgs = req.messages;
    let ghost msv = rest_msgs@.map_values(|m: Message| m@);
    proof {
        assert(msv == rv.messages);
        assert(rest_msgs@.map_values(|m: Message| m@) =~= msv.skip(0));
        assert(spec_convert_messages(msv.take(0)) =~= Seq::<TargetMessageV>::empty());
        assert(messages@.map_values(|m: TargetMessage| m@) =~= sysv + spec_convert_messages(
            msv.take(0),
        ));
    }
    while rest_msgs.len() > 0
        invariant
            rest_msgs@.map_values(|m: Message| m@) =~= msv.skip(msv.len() - rest_msgs@.len()),
            rest_msgs@.len() <= msv.len(),
            messages@.map_values(|m: TargetMessage| m@) =~= sysv + spec_convert_messages(
                msv.take(msv.len() - rest_msgs@.len()),
            ),
        decreases rest_msgs@.len(),
    {
        let ghost done = msv.len() - rest_msgs@.len();
        let ghost mv0 = messages@.map_values(|m: TargetMessage| m@);
        let ghost rb = rest_msgs@;
        let m = rest_msgs.remove(0);
        proof {
            assert(m@ == rb.map_values(|m2: Message| m2@)[0]);
            assert(msv.skip(done)[0] == msv[done]);
            assert(m@ == msv[done]);
            assert(rest_msgs@ =~= rb.drop_first());
            assert(rest_msgs@.map_values(|m2: Message| m2@) =~= rb.map_values(
                |m2: Message| m2@,
            ).drop_first());
            assert(msv.skip(done).drop_first() =~= msv.skip(done + 1));
        }
        let mut converted = convert_message(m);
        let ghost convv = converted@.map_values(|m: TargetMessage| m@);
        messages.append(&mut converted);
        proof {
            assert(messages@.map_values(|m: TargetMessage| m@) =~= mv0 + convv);
            assert(msv.take(done + 1).drop_last() =~= msv.take(done));
            assert(msv.take(done + 1).last() == msv[done]);
            assert(messages@.map_values(|m: TargetMessage| m@) =~= sysv + spec_convert_messages(
                msv.take(done + 1),
            ));
        }
    }
    proof {
        assert(msv.take(msv.len() as int) =~= msv);
    }
    let tools: Option<Vec<TargetTool>> = match req.tools {
        None => None,
        Some(ts) => {
            let ghost tv = ts@.map_values(|t: ToolDef| t@);
            let mut rest = ts;
            let mut out: Vec<TargetTool> = Vec::new();
            proof {
                assert(rest@.map_values(|t: ToolDef| t@) =~= tv.skip(0));
                assert(spec_tools_out(tv.take(0)) =~= Seq::<TargetToolV>::empty());
                assert(out@.map_values(|t: TargetTool| t@) =~= spec_tools_out(tv.take(0)));
            }
            while rest.len() > 0
                invariant
                    rest@.map_values(|t: ToolDef| t@) =~= tv.skip(tv.len() - rest@.len()),
                    rest@.len() <= tv.len(),
                    out@.map_values(|t: TargetTool| t@) =~= spec_tools_out(
                        tv.take(tv.len() - rest@.len()),
                    ),
                decreases rest@.len(),
            {
                let ghost done = tv.len() - rest@.len();
                let ghost ov = out@.map_values(|t: TargetTool| t@);
                let ghost rb = rest@;
                let t = rest.remove(0);
                proof {
                    assert(t@ == rb.map_values(|t2: ToolDef| t2@)[0]);
                    assert(tv.skip(done)[0] == tv[done]);
                    assert(t@ == tv[done]);
                    assert(rest@ =~= rb.drop_first());
                    assert(rest@.map_values(|t2: ToolDef| t2@) =~= rb.map_values(
                        |t2: ToolDef| t2@,
                    ).drop_first());
                    assert(tv.skip(done).drop_first() =~= tv.skip(done + 1));
                    assert(tv.take(done + 1).drop_last() =~= tv.take(done));
                    assert(tv.take(done + 1).last() == tv[done]);
                }
                let kept = match &t.tool_type {
                    Some(s) => !str_is(s, "BatchTool"),
                    None => true,
                };
                if kept {
                    let cleaned = clean_schema(t.input_schema);
                    out.push(
                        TargetTool {
                            name: t.name,
                            description: t.description,
                            parameters: cleaned,
                        },
                    );
                    proof {
                        assert(out@.map_values(|t2: TargetTool| t2@) =~= ov.push(
                            spec_tool_out(tv[done]),
                        ));
                        assert(out@.map_values(|t2: TargetTool| t2@) =~= spec_tools_out(
                            tv.take(done + 1),
                        ));
                    }
                } else {
                    proof {
                        assert(out@.map_values(|t2: TargetTool| t2@) =~= spec_tools_out(
                            tv.take(done + 1),
                        ));
                    }
                }
            }
            proof {
                assert(tv.take(tv.len() as int) =~= tv);
            }
            if out.len() == 0 {
                None
            } else {
                Some(out)
            }
        },
    };
    let out = TargetRequest {
        model,
        messages,
        max_tokens: req.max_tokens,
        temperature: req.temperature,
        top_p: req.top_p,
        stop: req.stop_sequences,
        stream: req.stream,
        tools,
    };
    proof {
        assert(out@ =~= spec_translate_request(
            rv,
            crate::config::view_of_opt_string(config.reasoning_model),
            crate::config::view_of_opt_string(config.completion_model),
        ));
    }
    Ok(out)
}

// ----- response translation -----

/// The source content blocks of one target choice: a text block first
/// when the choice carries non-empty text, then one `tool_use` block per
/// tool call. A tool call's argument text is kept when it parses as JSON
/// and degrades to an empty object otherwise.
pub open spec fn spec_response_blocks(c: TargetChoiceV) -> Seq<ResponseBlockV> {
    (match c.content {
        Some(t) => if t.len() > 0 {
            seq![ResponseBlockV::Text { text: t }]
        } else {
            Seq::empty()
        },
        None => Seq::empty(),
    }) + (match c.tool_calls {
        Some(calls) => spec_tool_use_blocks(calls),
        None => Seq::empty(),
    })
}

/// The `tool_use` blocks of a choice's tool calls, in order.
pub open spec fn spec_tool_use_blocks(calls: Seq<ToolCallV>) -> Seq<ResponseBlockV>
    decreases calls.len(),
{
    if calls.len() == 0 {
        Seq::empty()
    } else {
        spec_tool_use_blocks(calls.drop_last()).push(
            ResponseBlockV::ToolUse {
                id: calls.last().id,
                name: calls.last().name,
                input_json: if is_json(calls.last().arguments) {
                    calls.last().arguments
                } else {
                    "{}"@
                },
            },
        )
    }
}

/// The source response a complete target response becomes: the first
/// choice's blocks under the fixed `message` type and `assistant` role,
/// the mapped stop reason, and the usage counters renamed one to one.
/// A response without any choice cannot be translated.
pub open spec fn spec_translate_response(resp: TargetResponseV) -> Option<SourceResponseV> {
    if resp.choices.len() == 0 {
        None
    } else {
        Some(
            SourceResponseV {
                id: resp.id,
                response_type: "message"@,
                role: "assistant"@,
                content: spec_response_blocks(resp.choices[0]),
                model: resp.model,
                stop_reason: spec_map_stop_reason(resp.choices[0].finish_reason),
                stop_sequence: None,
                usage: UsageV {
                    input_tokens: resp.usage.prompt_tokens,
                    output_tokens: resp.usage.completion_tokens,
                },
            },
        )
    }
}

/// Translates a complete target response into a source response, as
/// [`spec_translate_response`] says. It fails, with a `Transform` error,
/// exactly when the response carries no choice.
pub fn openai_to_anthropic(resp: TargetResponse) -> (r: Result<SourceResponse, ProxyError>)
    ensures
        match r {
            Ok(out) => spec_translate_response(resp@) == Some(out@),
            Err(e) => spec_translate_response(resp@) is None && (e matches ProxyError::Transform {
                message,
            } && message@ == "No choices in response"@),
        },
{
    let ghost rv = resp@;
    if resp.choices.len() == 0 {
        return Err(ProxyError::Transform { message: "No choices in response".to_owned() });
    }
    let choice = &resp.choices[0];
    proof {
        assert(choice@ == rv.choices[0]);
    }
    let mut content: Vec<ResponseBlock> = Vec::new();
    match &choice.content {
        Some(text) => {
            if !text.as_str().is_empty() {
                content.push(ResponseBlock::Text { text: text.clone() });
            }
        },
        None => {
        },
    }
    let ghost textv = content@.map_values(|b: ResponseBlock| b@);
    proof {
        assert(textv =~= (match rv.choices[0].content {
            Some(t) => if t.len() > 0 {
                seq![ResponseBlockV::Text { text: t }]
            } else {
                Seq::<ResponseBlockV>::empty()
            },
            None => Seq::<ResponseBlockV>::empty(),
        }));
    }
    match &choice.tool_calls {
        Some(calls) => {
            let ghost cv = calls@.map_values(|c: ToolCall| c@);
            proof {
                assert(spec_tool_use_blocks(cv.take(0)) =~= Seq::<ResponseBlockV>::empty());
                assert(content@.map_values(|b: ResponseBlock| b@) =~= textv
                    + spec_tool_use_blocks(cv.take(0)));
            }
            for i in 0..calls.len()
                invariant
                    cv == calls@.map_values(|c: ToolCall| c@),
                    content@.map_values(|b: ResponseBlock| b@) =~= textv + spec_tool_use_blocks(
                        cv.take(i as int),
                    ),
            {
                let ghost bv0 = content@.map_values(|b: ResponseBlock| b@);
                let tc = &calls[i];
                let input_json: String = if json_parses(tc.arguments.as_str()) {
                    tc.arguments.clone()
                } else {
                    "{}".to_owned()
                };
                content.push(
                    ResponseBlock::ToolUse {
                        id: tc.id.clone(),
                        name: tc.name.clone(),
                        input_json,
                    },
                );
                proof {
                    assert(cv.take(i + 1).drop_last() =~= cv.take(i as int));
                    assert(cv.take(i + 1).last() == cv[i as int]);
                    assert(content@.map_values(|b: ResponseBlock| b@) =~= bv0.push(
                        ResponseBlockV::ToolUse {
                            id: cv[i as int].id,
                            name: cv[i as int].name,
                            input_json: if is_json(cv[i as int].arguments) {
                                cv[i as int].arguments
                            } else {
                                "{}"@
                            },
                        },
                    ));
                }
            }
            proof {
                assert(cv.take(cv.len() as int) =~= cv);
            }
        },
        None => {
        },
    }
    proof {
        assert(content@.map_values(|b: ResponseBlock| b@) =~= spec_response_blocks(
            rv.choices[0],
        ));
    }
    let stop_reason: Option<String> = match &choice.finish_reason {
        Some(s) => map_stop_reason(Some(s.as_str())),
        None => map_stop_reason(None),
    };
    let out = SourceResponse {
        id: resp.id,
        response_type: "message".to_owned(),
        role: "assistant".to_owned(),
        content,
        model: resp.model,
        stop_reason,
        stop_sequence: None,
        usage: Usage {
            input_tokens: resp.usage.prompt_tokens,
            output_tokens: resp.usage.completion_tokens,
        },
    };
    proof {
        assert(out@ =~= spec_translate_response(rv)->0);
    }
    Ok(out)
}


// ----- stated properties of the translation -----

/// With thinking enabled and a reasoning-model override configured, the
/// translated request's model is the override, never the request's own
/// model.
pub proof fn lemma_reasoning_override_wins(
    req: SourceRequestV,
    reasoning: Seq<char>,
    completion: Option<Seq<char>>,
)
    requires
        spec_thinking_enabled(req.extra),
    ensures
        spec_translate_request(req, Some(reasoning), completion).model == reasoning,
{
}

/// Round trip of a plain text answer: a target response with exactly one
/// choice that carries non-empty text, no tool calls, and finish reason
/// `stop` translates to a source response whose single content block is
/// a text block with that very text, under stop reason `end_turn`.
pub proof fn lemma_text_round_trip(resp: TargetResponseV, t: Seq<char>)
    requires
        resp.choices.len() == 1,
        resp.choices[0].content == Some(t),
        t.len() > 0,
        (resp.choices[0].tool_calls is None),
        resp.choices[0].finish_reason == Some("stop"@),
    ensures
        (spec_translate_response(resp) matches Some(out) && out.content == seq![
            ResponseBlockV::Text { text: t },
        ] && out.stop_reason == Some("end_turn"@)),
{
    reveal_strlit("stop");
    reveal_strlit("tool_calls");
    assert(spec_response_blocks(resp.choices[0]) =~= seq![ResponseBlockV::Text { text: t }]);
    assert(spec_translate_response(resp) is Some);
    let out = spec_translate_response(resp)->0;
    assert(out.content == spec_response_blocks(resp.choices[0]));
    assert("stop"@.len() == 4);
    assert("tool_calls"@.len() == 10);
    assert("stop"@ != "tool_calls"@);
    assert(out.stop_reason == Some("end_turn"@));
}

/// The pending content parts a block sequence contributes, in order.
pub open spec fn spec_pending_parts(blocks: Seq<ContentBlockV>) -> Seq<ContentPartV>
    decreases blocks.len(),
{
    if blocks.len() == 0 {
        Seq::empty()
    } else {
        let rest = spec_pending_parts(blocks.drop_first());
        match blocks[0] {
            ContentBlockV::Text { text } => seq![ContentPartV::Text { text }] + rest,
            ContentBlockV::Image { media_type, data } => seq![
                ContentPartV::ImageUrl { url: spec_data_url(media_type, data) },
            ] + rest,
            _ => rest,
        }
    }
}

/// The pending tool calls a block sequence contributes, in order.
pub open spec fn spec_pending_calls(blocks: Seq<ContentBlockV>) -> Seq<ToolCallV>
    decreases blocks.len(),
{
    if blocks.len() == 0 {
        Seq::empty()
    } else {
        let rest = spec_pending_calls(blocks.drop_first());
        match blocks[0] {
            ContentBlockV::ToolUse { id, name, input } => seq![
                ToolCallV { id, name, arguments: spec_json_text(input) },
            ] + rest,
            _ => rest,
        }
    }
}

/// The standalone tool-role messages a block sequence emits, in
/// encounter order.
pub open spec fn spec_tool_result_msgs(blocks: Seq<ContentBlockV>) -> Seq<TargetMessageV>
    decreases blocks.len(),
{
    if blocks.len() == 0 {
        Seq::empty()
    } else {
        let rest = spec_tool_result_msgs(blocks.drop_first());
        match blocks[0] {
            ContentBlockV::ToolResult { tool_use_id, content } => seq![
                spec_tool_result_msg(tool_use_id, content),
            ] + rest,
            _ => rest,
        }
    }
}

proof fn lemma_convert_blocks_decompose(
    blocks: Seq<ContentBlockV>,
    parts: Seq<ContentPartV>,
    calls: Seq<ToolCallV>,
    msgs: Seq<TargetMessageV>,
)
    ensures
        spec_convert_blocks(blocks, parts, calls, msgs) == (
            parts + spec_pending_parts(blocks),
            calls + spec_pending_calls(blocks),
            msgs + spec_tool_result_msgs(blocks),
        ),
    decreases blocks.len(),
{
    if blocks.len() == 0 {
        assert(parts + spec_pending_parts(blocks) =~= parts);
        assert(calls + spec_pending_calls(blocks) =~= calls);
        assert(msgs + spec_tool_result_msgs(blocks) =~= msgs);
    } else {
        let rest = blocks.drop_first();
        match blocks[0] {
            ContentBlockV::Text { text } => {
                let x = ContentPartV::Text { text };
                lemma_convert_blocks_decompose(rest, parts.push(x), calls, msgs);
                assert(parts.push(x) + spec_pending_parts(rest) =~= parts + (seq![x]
                    + spec_pending_parts(rest)));
            },
            ContentBlockV::Image { media_type, data } => {
                let x = ContentPartV::ImageUrl { url: spec_data_url(media_type, data) };
                lemma_convert_blocks_decompose(rest, parts.push(x), calls, msgs);
                assert(parts.push(x) + spec_pending_parts(rest) =~= parts + (seq![x]
                    + spec_pending_parts(rest)));
            },
            ContentBlockV::ToolUse { id, name, input } => {
                let x = ToolCallV { id, name, arguments: spec_json_text(input) };
                lemma_convert_blocks_decompose(rest, parts, calls.push(x), msgs);
                assert(calls.push(x) + spec_pending_calls(rest) =~= calls + (seq![x]
                    + spec_pending_calls(rest)));
            },
            ContentBlockV::ToolResult { tool_use_id, content } => {
                let x = spec_tool_result_msg(tool_use_id, content);
                lemma_convert_blocks_decompose(rest, parts, calls, msgs.push(x));
                assert(msgs.push(x) + spec_tool_result_msgs(rest) =~= msgs + (seq![x]
                    + spec_tool_result_msgs(rest)));
            },
            ContentBlockV::Thinking { .. } => {
                lemma_convert_blocks_decompose(rest, parts, calls, msgs);
            },
        }
    }
}

proof fn lemma_tool_result_present(blocks: Seq<ContentBlockV>, k: int)
    requires
        0 <= k < blocks.len(),
        (blocks[k] is ToolResult),
    ensures
        spec_tool_result_msgs(blocks).len() >= 1,
    decreases blocks.len(),
{
    if k > 0 {
        lemma_tool_result_present(blocks.drop_first(), k - 1);
        assert(blocks.drop_first()[k - 1] == blocks[k]);
    }
}

proof fn lemma_text_pending(blocks: Seq<ContentBlockV>, j: int)
    requires
        0 <= j < blocks.len(),
        (blocks[j] is Text),
    ensures
        spec_pending_parts(blocks).len() >= 1,
    decreases blocks.len(),
{
    if j > 0 {
        lemma_text_pending(blocks.drop_first(), j - 1);
        assert(blocks.drop_first()[j - 1] == blocks[j]);
    }
}

proof fn lemma_tool_result_msgs_roles(blocks: Seq<ContentBlockV>)
    ensures
        forall|i: int|
            0 <= i < spec_tool_result_msgs(blocks).len() ==> #[trigger] spec_tool_result_msgs(
                blocks,
            )[i].role == "tool"@,
    decreases blocks.len(),
{
    if blocks.len() > 0 {
        lemma_tool_result_msgs_roles(blocks.drop_first());
    }
}

/// In a message whose block content holds a tool-result block followed by
/// further text, the conversion places every standalone tool-role message
/// before the aggregated message: the result is exactly the tool-result
/// messages in encounter order, then one aggregated message carrying the
/// source message's own role.
pub proof fn lemma_tool_results_precede_aggregate(
    m: MessageV,
    bs: Seq<ContentBlockV>,
    k: int,
    j: int,
)
    requires
        m.content == MessageContentV::Blocks(bs),
        0 <= k < j < bs.len(),
        (bs[k] is ToolResult),
        (bs[j] is Text),
    ensures
        spec_convert_message(m) == spec_tool_result_msgs(bs) + spec_aggregate(
            m.role,
            spec_pending_parts(bs),
            spec_pending_calls(bs),
        ),
        spec_tool_result_msgs(bs).len() >= 1,
        forall|i: int|
            0 <= i < spec_tool_result_msgs(bs).len() ==> #[trigger] spec_tool_result_msgs(
                bs,
            )[i].role == "tool"@,
        spec_aggregate(m.role, spec_pending_parts(bs), spec_pending_calls(bs)).len() == 1,
        spec_aggregate(m.role, spec_pending_parts(bs), spec_pending_calls(bs))[0].role == m.role,
{
    lemma_convert_blocks_decompose(bs, Seq::empty(), Seq::empty(), Seq::empty());
    assert(Seq::<ContentPartV>::empty() + spec_pending_parts(bs) =~= spec_pending_parts(bs));
    assert(Seq::<ToolCallV>::empty() + spec_pending_calls(bs) =~= spec_pending_calls(bs));
    assert(Seq::<TargetMessageV>::empty() + spec_tool_result_msgs(bs) =~= spec_tool_result_msgs(
        bs,
    ));
    lemma_tool_result_present(bs, k);
    lemma_text_pending(bs, j);
    lemma_tool_result_msgs_roles(bs);
}

} // verus!
