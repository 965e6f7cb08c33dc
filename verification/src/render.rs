//! Rendering stream events onto the wire.
//!
//! Each source-format stream event is serialized as one server-sent-event
//! frame: `event: <name>`, a `data:` line carrying the event's exact JSON
//! body, and a blank line.

use vstd::prelude::*;
use crate::json::{Json, JsonV, json_string, spec_json_text, lemma_json_members_view_index};
use crate::models::{BlockOpenV, DeltaBodyV, StreamEvent, StreamEventV, BlockOpen, DeltaBody};
use crate::text::{chars_of, dec_chars, spec_dec, string_from_chars};

verus! {

/// The name of an event, as the `event:` line carries it.
pub open spec fn spec_event_name(e: StreamEventV) -> Seq<char> {
    match e {
        StreamEventV::MessageStart { .. } => "message_start"@,
        StreamEventV::ContentBlockStart { .. } => "content_block_start"@,
        StreamEventV::ContentBlockDelta { .. } => "content_block_delta"@,
        StreamEventV::ContentBlockStop { .. } => "content_block_stop"@,
        StreamEventV::MessageDelta { .. } => "message_delta"@,
        StreamEventV::MessageStop => "message_stop"@,
        StreamEventV::Error { .. } => "error"@,
    }
}

/// The JSON number of a block index.
pub open spec fn spec_index_json(index: u64) -> JsonV {
    JsonV::Num(spec_dec(index as nat))
}

/// The JSON body of a `content_block_start`'s opened block.
pub open spec fn spec_block_open_json(b: BlockOpenV) -> JsonV {
    match b {
        BlockOpenV::Thinking => JsonV::Obj(
            seq![("type"@, JsonV::Str("thinking"@)), ("thinking"@, JsonV::Str(""@))],
        ),
        BlockOpenV::Text => JsonV::Obj(
            seq![("type"@, JsonV::Str("text"@)), ("text"@, JsonV::Str(""@))],
        ),
        BlockOpenV::ToolUse { id, name } => JsonV::Obj(
            seq![
                ("type"@, JsonV::Str("tool_use"@)),
                ("id"@, JsonV::Str(id)),
                ("name"@, JsonV::Str(name)),
            ],
        ),
    }
}

/// The JSON body of a `content_block_delta`'s delta.
pub open spec fn spec_delta_json(d: DeltaBodyV) -> JsonV {
    match d {
        DeltaBodyV::Thinking(s) => JsonV::Obj(
            seq![("type"@, JsonV::Str("thinking_delta"@)), ("thinking"@, JsonV::Str(s))],
        ),
        DeltaBodyV::Text(s) => JsonV::Obj(
            seq![("type"@, JsonV::Str("text_delta"@)), ("text"@, JsonV::Str(s))],
        ),
        DeltaBodyV::InputJson(s) => JsonV::Obj(
            seq![("type"@, JsonV::Str("input_json_delta"@)), ("partial_json"@, JsonV::Str(s))],
        ),
    }
}

/// The exact JSON body of each event, field for field.
pub open spec fn spec_event_json(e: StreamEventV) -> JsonV {
    match e {
        StreamEventV::MessageStart { id, model } => JsonV::Obj(
            seq![
                (
                    "message"@,
                    JsonV::Obj(
                        seq![
                            ("id"@, JsonV::Str(id)),
                            ("type"@, JsonV::Str("message"@)),
                            ("role"@, JsonV::Str("assistant"@)),
                            ("model"@, JsonV::Str(model)),
                            (
                                "usage"@,
                                JsonV::Obj(
                                    seq![
                                        ("input_tokens"@, JsonV::Num(spec_dec(0))),
                                        ("output_tokens"@, JsonV::Num(spec_dec(0))),
                                    ],
                                ),
                            ),
                        ],
                    ),
                ),
            ],
        ),
        StreamEventV::ContentBlockStart { index, block } => JsonV::Obj(
            seq![
                ("type"@, JsonV::Str("content_block_start"@)),
                ("index"@, spec_index_json(index)),
                ("content_block"@, spec_block_open_json(block)),
            ],
        ),
        StreamEventV::ContentBlockDelta { index, delta } => JsonV::Obj(
            seq![
                ("type"@, JsonV::Str("content_block_delta"@)),
                ("index"@, spec_index_json(index)),
                ("delta"@, spec_delta_json(delta)),
            ],
        ),
        StreamEventV::ContentBlockStop { index } => JsonV::Obj(
            seq![
                ("type"@, JsonV::Str("content_block_stop"@)),
                ("index"@, spec_index_json(index)),
            ],
        ),
        StreamEventV::MessageDelta { stop_reason, output_tokens } => {
            let delta = JsonV::Obj(
                seq![
                    (
                        "stop_reason"@,
                        match stop_reason {
                            Some(s) => JsonV::Str(s),
                            None => JsonV::Null,
                        },
                    ),
                    ("stop_sequence"@, JsonV::Null),
                ],
            );
            match output_tokens {
                Some(n) => JsonV::Obj(
                    seq![
                        ("type"@, JsonV::Str("message_delta"@)),
                        ("delta"@, delta),
                        (
                            "usage"@,
                            JsonV::Obj(
                                seq![("output_tokens"@, JsonV::Num(spec_dec(n as nat)))],
                            ),
                        ),
                    ],
                ),
                None => JsonV::Obj(
                    seq![("type"@, JsonV::Str("message_delta"@)), ("delta"@, delta)],
                ),
            }
        },
        StreamEventV::MessageStop => JsonV::Obj(
            seq![("type"@, JsonV::Str("message_stop"@))],
        ),
        StreamEventV::Error { message } => JsonV::Obj(
            seq![
                ("type"@, JsonV::Str("error"@)),
                (
                    "error"@,
                    JsonV::Obj(
                        seq![
                            ("type"@, JsonV::Str("stream_error"@)),
                            ("message"@, JsonV::Str(message)),
                        ],
                    ),
                ),
            ],
        ),
    }
}

/// The whole wire frame of one event.
pub open spec fn spec_event_frame(e: StreamEventV) -> Seq<char> {
    "event: "@ + spec_event_name(e) + "\ndata: "@ + spec_json_text(spec_event_json(e))
        + "\n\n"@
}

fn index_json(index: u64) -> (r: Json)
    ensures
        r@ == spec_index_json(index),
{
    let cs = dec_chars(index);
    Json::Num(string_from_chars(&cs))
}

fn str_json(lit: &str) -> (r: Json)
    ensures
        r@ == JsonV::Str(lit@),
{
    Json::Str(lit.to_owned())
}

/// Builds the JSON body of an event, as [`spec_event_json`] says.
pub fn event_json(e: &StreamEvent) -> (r: Json)
    ensures
        r@ == spec_event_json(e@),
{
    match e {
        StreamEvent::MessageStart { id, model } => {
            let mut usage: Vec<(String, Json)> = Vec::new();
            usage.push(("input_tokens".to_owned(), index_json(0)));
            usage.push(("output_tokens".to_owned(), index_json(0)));
            let mut message: Vec<(String, Json)> = Vec::new();
            message.push(("id".to_owned(), Json::Str(id.clone())));
            message.push(("type".to_owned(), str_json("message")));
            message.push(("role".to_owned(), str_json("assistant")));
            message.push(("model".to_owned(), Json::Str(model.clone())));
            message.push(("usage".to_owned(), Json::Obj(usage)));
            let mut top: Vec<(String, Json)> = Vec::new();
            top.push(("message".to_owned(), Json::Obj(message)));
            let r = Json::Obj(top);
            proof {
                lemma_json_members_view_index(usage@);
                lemma_json_members_view_index(message@);
                lemma_json_members_view_index(top@);
                assert(crate::json::json_members_view(usage@) =~= seq![
                    ("input_tokens"@, JsonV::Num(spec_dec(0))),
                    ("output_tokens"@, JsonV::Num(spec_dec(0))),
                ]);
                assert(crate::json::json_members_view(message@) =~= seq![
                    ("id"@, JsonV::Str(id@)),
                    ("type"@, JsonV::Str("message"@)),
                    ("role"@, JsonV::Str("assistant"@)),
                    ("model"@, JsonV::Str(model@)),
                    (
                        "usage"@,
                        JsonV::Obj(
                            seq![
                                ("input_tokens"@, JsonV::Num(spec_dec(0))),
                                ("output_tokens"@, JsonV::Num(spec_dec(0))),
                            ],
                        ),
                    ),
                ]);
                assert(crate::json::json_members_view(top@) =~= seq![
                    (
                        "message"@,
                        JsonV::Obj(
                            seq![
                                ("id"@, JsonV::Str(id@)),
                                ("type"@, JsonV::Str("message"@)),
                                ("role"@, JsonV::Str("assistant"@)),
                                ("model"@, JsonV::Str(model@)),
                                (
                                    "usage"@,
                                    JsonV::Obj(
                                        seq![
                                            ("input_tokens"@, JsonV::Num(spec_dec(0))),
                                            ("output_tokens"@, JsonV::Num(spec_dec(0))),
                                        ],
                                    ),
                                ),
                            ],
                        ),
                    ),
                ]);
                assert(r@ == spec_event_json(e@));
            }
            r
        },
        StreamEvent::ContentBlockStart { index, block } => {
            let block_json: Json = match block {
                BlockOpen::Thinking => {
                    let mut b: Vec<(String, Json)> = Vec::new();
                    b.push(("type".to_owned(), str_json("thinking")));
                    b.push(("thinking".to_owned(), str_json("")));
                    proof {
                        lemma_json_members_view_index(b@);
                        assert(crate::json::json_members_view(b@) =~= seq![
                            ("type"@, JsonV::Str("thinking"@)),
                            ("thinking"@, JsonV::Str(""@)),
                        ]);
                    }
                    Json::Obj(b)
                },
                BlockOpen::Text => {
                    let mut b: Vec<(String, Json)> = Vec::new();
                    b.push(("type".to_owned(), str_json("text")));
                    b.push(("text".to_owned(), str_json("")));
                    proof {
                        lemma_json_members_view_index(b@);
                        assert(crate::json::json_members_view(b@) =~= seq![
                            ("type"@, JsonV::Str("text"@)),
                            ("text"@, JsonV::Str(""@)),
                        ]);
                    }
                    Json::Obj(b)
                },
                BlockOpen::ToolUse { id, name } => {
                    let mut b: Vec<(String, Json)> = Vec::new();
                    b.push(("type".to_owned(), str_json("tool_use")));
                    b.push(("id".to_owned(), Json::Str(id.clone())));
                    b.push(("name".to_owned(), Json::Str(name.clone())));
                    proof {
                        lemma_json_members_view_index(b@);
                        assert(crate::json::json_members_view(b@) =~= seq![
                            ("type"@, JsonV::Str("tool_use"@)),
                            ("id"@, JsonV::Str(id@)),
                            ("name"@, JsonV::Str(name@)),
                        ]);
                    }
                    Json::Obj(b)
                },
            };
            proof {
                assert(block_json@ == spec_block_open_json(block@));
            }
            let mut top: Vec<(String, Json)> = Vec::new();
            top.push(("type".to_owned(), str_json("content_block_start")));
            top.push(("index".to_owned(), index_json(*index)));
            top.push(("content_block".to_owned(), block_json));
            let r = Json::Obj(top);
            proof {
                lemma_json_members_view_index(top@);
                assert(crate::json::json_members_view(top@) =~= seq![
                    ("type"@, JsonV::Str("content_block_start"@)),
                    ("index"@, spec_index_json(*index)),
                    ("content_block"@, spec_block_open_json(block@)),
                ]);
                assert(r@ == spec_event_json(e@));
            }
            r
        },
        StreamEvent::ContentBlockDelta { index, delta } => {
            let delta_json: Json = match delta {
                DeltaBody::Thinking(s) => {
                    let mut d: Vec<(String, Json)> = Vec::new();
                    d.push(("type".to_owned(), str_json("thinking_delta")));
                    d.push(("thinking".to_owned(), Json::Str(s.clone())));
                    proof {
                        lemma_json_members_view_index(d@);
                        assert(crate::json::json_members_view(d@) =~= seq![
                            ("type"@, JsonV::Str("thinking_delta"@)),
                            ("thinking"@, JsonV::Str(s@)),
                        ]);
                    }
                    Json::Obj(d)
                },
                DeltaBody::Text(s) => {
                    let mut d: Vec<(String, Json)> = Vec::new();
                    d.push(("type".to_owned(), str_json("text_delta")));
                    d.push(("text".to_owned(), Json::Str(s.clone())));
                    proof {
                        lemma_json_members_view_index(d@);
                        assert(crate::json::json_members_view(d@) =~= seq![
                            ("type"@, JsonV::Str("text_delta"@)),
                            ("text"@, JsonV::Str(s@)),
                        ]);
                    }
                    Json::Obj(d)
                },
                DeltaBody::InputJson(s) => {
                    let mut d: Vec<(String, Json)> = Vec::new();
                    d.push(("type".to_owned(), str_json("input_json_delta")));
                    d.push(("partial_json".to_owned(), Json::Str(s.clone())));
                    proof {
                        lemma_json_members_view_index(d@);
                        assert(crate::json::json_members_view(d@) =~= seq![
                            ("type"@, JsonV::Str("input_json_delta"@)),
                            ("partial_json"@, JsonV::Str(s@)),
                        ]);
                    }
                    Json::Obj(d)
                },
            };
            proof {
                assert(delta_json@ == spec_delta_json(delta@));
            }
            let mut top: Vec<(String, Json)> = Vec::new();
            top.push(("type".to_owned(), str_json("content_block_delta")));
            top.push(("index".to_owned(), index_json(*index)));
            top.push(("delta".to_owned(), delta_json));
            let r = Json::Obj(top);
            proof {
                lemma_json_members_view_index(top@);
                assert(crate::json::json_members_view(top@) =~= seq![
                    ("type"@, JsonV::Str("content_block_delta"@)),
                    ("index"@, spec_index_json(*index)),
                    ("delta"@, spec_delta_json(delta@)),
                ]);
                assert(r@ == spec_event_json(e@));
            }
            r
        },
        StreamEvent::ContentBlockStop { index } => {
            let mut top: Vec<(String, Json)> = Vec::new();
            top.push(("type".to_owned(), str_json("content_block_stop")));
            top.push(("index".to_owned(), index_json(*index)));
            let r = Json::Obj(top);
            proof {
                lemma_json_members_view_index(top@);
                assert(crate::json::json_members_view(top@) =~= seq![
                    ("type"@, JsonV::Str("content_block_stop"@)),
                    ("index"@, spec_index_json(*index)),
                ]);
                assert(r@ == spec_event_json(e@));
            }
            r
        },
        StreamEvent::MessageDelta { stop_reason, output_tokens } => {
            let mut delta: Vec<(String, Json)> = Vec::new();
            let sr: Json = match stop_reason {
                Some(s) => Json::Str(s.clone()),
                None => Json::Null,
            };
            delta.push(("stop_reason".to_owned(), sr));
            delta.push(("stop_sequence".to_owned(), Json::Null));
            let mut top: Vec<(String, Json)> = Vec::new();
            top.push(("type".to_owned(), str_json("message_delta")));
            top.push(("delta".to_owned(), Json::Obj(delta)));
            match output_tokens {
                Some(n) => {
                    let mut usage: Vec<(String, Json)> = Vec::new();
                    usage.push(("output_tokens".to_owned(), index_json(*n)));
                    proof {
                        lemma_json_members_view_index(usage@);
                        assert(crate::json::json_members_view(usage@) =~= seq![
                            ("output_tokens"@, JsonV::Num(spec_dec(*n as nat))),
                        ]);
                    }
                    top.push(("usage".to_owned(), Json::Obj(usage)));
                },
                None => {
                },
            }
            let r = Json::Obj(top);
            proof {
                lemma_json_members_view_index(delta@);
                lemma_json_members_view_index(top@);
                let srv = (match stop_reason {
                    Some(x) => JsonV::Str(x@),
                    None => JsonV::Null,
                });
                assert(crate::json::json_members_view(delta@) =~= seq![
                    ("stop_reason"@, srv),
                    ("stop_sequence"@, JsonV::Null),
                ]);
                match *output_tokens {
                    Some(n) => {
                        assert(crate::json::json_members_view(top@) =~= seq![
                            ("type"@, JsonV::Str("message_delta"@)),
                            (
                                "delta"@,
                                JsonV::Obj(
                                    seq![("stop_reason"@, srv), ("stop_sequence"@, JsonV::Null)],
                                ),
                            ),
                            (
                                "usage"@,
                                JsonV::Obj(
                                    seq![("output_tokens"@, JsonV::Num(spec_dec(n as nat)))],
                                ),
                            ),
                        ]);
                    },
                    None => {
                        assert(crate::json::json_members_view(top@) =~= seq![
                            ("type"@, JsonV::Str("message_delta"@)),
                            (
                                "delta"@,
                                JsonV::Obj(
                                    seq![("stop_reason"@, srv), ("stop_sequence"@, JsonV::Null)],
                                ),
                            ),
                        ]);
                    },
                }
                match stop_reason {
                    Some(_) => {
                        match *output_tokens {
                            Some(_) => {
                                assert(spec_event_json(e@) is Obj);
                                assert(r@->Obj_0[0] == spec_event_json(e@)->Obj_0[0]);
                                assert(r@->Obj_0[1].1->Obj_0 =~= spec_event_json(
                                    e@,
                                )->Obj_0[1].1->Obj_0);
                                assert(r@->Obj_0[1].1 == spec_event_json(e@)->Obj_0[1].1);
                                assert(r@->Obj_0[2] == spec_event_json(e@)->Obj_0[2]);
                                assert(r@->Obj_0 =~= spec_event_json(e@)->Obj_0);
                                assert(r@ == spec_event_json(e@));
                            },
                            None => {
                                assert(spec_event_json(e@) is Obj);
                                assert(r@->Obj_0[0] == spec_event_json(e@)->Obj_0[0]);
                                assert(r@->Obj_0[1].1->Obj_0 =~= spec_event_json(
                                    e@,
                                )->Obj_0[1].1->Obj_0);
                                assert(r@->Obj_0[1].1 == spec_event_json(e@)->Obj_0[1].1);
                                assert(r@->Obj_0 =~= spec_event_json(e@)->Obj_0);
                                assert(r@ == spec_event_json(e@));
                            },
                        }
                    },
                    None => {
                        match *output_tokens {
                            Some(_) => {
                                assert(spec_event_json(e@) is Obj);
                                assert(r@->Obj_0[0] == spec_event_json(e@)->Obj_0[0]);
                                assert(r@->Obj_0[1].1->Obj_0 =~= spec_event_json(
                                    e@,
                                )->Obj_0[1].1->Obj_0);
                                assert(r@->Obj_0[1].1 == spec_event_json(e@)->Obj_0[1].1);
                                assert(r@->Obj_0[2] == spec_event_json(e@)->Obj_0[2]);
                                assert(r@->Obj_0 =~= spec_event_json(e@)->Obj_0);
                                assert(r@ == spec_event_json(e@));
                            },
                            None => {
                                assert(spec_event_json(e@) is Obj);
                                assert(r@->Obj_0[0] == spec_event_json(e@)->Obj_0[0]);
                                assert(r@->Obj_0[1].1->Obj_0 =~= spec_event_json(
                                    e@,
                                )->Obj_0[1].1->Obj_0);
                                assert(r@->Obj_0[1].1 == spec_event_json(e@)->Obj_0[1].1);
                                assert(r@->Obj_0 =~= spec_event_json(e@)->Obj_0);
                                assert(r@ == spec_event_json(e@));
                            },
                        }
                    },
                }
                assert(r@ == spec_event_json(e@));
            }
            r
        },
        StreamEvent::MessageStop => {
            let mut top: Vec<(String, Json)> = Vec::new();
            top.push(("type".to_owned(), str_json("message_stop")));
            let r = Json::Obj(top);
            proof {
                lemma_json_members_view_index(top@);
                assert(crate::json::json_members_view(top@) =~= seq![
                    ("type"@, JsonV::Str("message_stop"@)),
                ]);
                assert(r@ == spec_event_json(e@));
            }
            r
        },
        StreamEvent::Error { message } => {
            let mut err: Vec<(String, Json)> = Vec::new();
            err.push(("type".to_owned(), str_json("stream_error")));
            err.push(("message".to_owned(), Json::Str(message.clone())));
            let mut top: Vec<(String, Json)> = Vec::new();
            top.push(("type".to_owned(), str_json("error")));
            top.push(("error".to_owned(), Json::Obj(err)));
            let r = Json::Obj(top);
            proof {
                lemma_json_members_view_index(err@);
                lemma_json_members_view_index(top@);
                assert(crate::json::json_members_view(err@) =~= seq![
                    ("type"@, JsonV::Str("stream_error"@)),
                    ("message"@, JsonV::Str(message@)),
                ]);
                assert(crate::json::json_members_view(top@) =~= seq![
                    ("type"@, JsonV::Str("error"@)),
                    (
                        "error"@,
                        JsonV::Obj(
                            seq![
                                ("type"@, JsonV::Str("stream_error"@)),
                                ("message"@, JsonV::Str(message@)),
                            ],
                        ),
                    ),
                ]);
                assert(r@ == spec_event_json(e@));
            }
            r
        },
    }
}

fn event_name(e: &StreamEvent) -> (r: &'static str)
    ensures
        r@ == spec_event_name(e@),
{
    match e {
        StreamEvent::MessageStart { .. } => "message_start",
        StreamEvent::ContentBlockStart { .. } => "content_block_start",
        StreamEvent::ContentBlockDelta { .. } => "content_block_delta",
        StreamEvent::ContentBlockStop { .. } => "content_block_stop",
        StreamEvent::MessageDelta { .. } => "message_delta",
        StreamEvent::MessageStop => "message_stop",
        StreamEvent::Error { .. } => "error",
    }
}

/// Renders one event as a complete server-sent-event frame, as
/// [`spec_event_frame`] says.
pub fn event_frame(e: &StreamEvent) -> (r: String)
    ensures
        r@ == spec_event_frame(e@),
{
    let body = event_json(e);
    let body_text = json_string(&body);
    let mut out = chars_of("event: ");
    let mut name = chars_of(event_name(e));
    out.append(&mut name);
    let mut mid = chars_of("\ndata: ");
    out.append(&mut mid);
    let mut data = chars_of(body_text.as_str());
    out.append(&mut data);
    let mut tail = chars_of("\n\n");
    out.append(&mut tail);
    proof {
        assert(out@ =~= spec_event_frame(e@));
    }
    string_from_chars(&out)
}

} // verus!
