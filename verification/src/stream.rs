//! The stream reassembler.
//!
//! A streamed target response arrives as incremental chunks. The
//! reassembler is a state machine: fed one parsed chunk at a time it
//! emits the source format's events in order, tracking the open content
//! block, the running block index, and the tool-call accumulation, with
//! no lookahead and no revision of already-emitted output.

use vstd::prelude::*;
use crate::models::{
    BlockOpen,
    BlockOpenV,
    DeltaBody,
    DeltaBodyV,
    StreamChunk,
    StreamChunkV,
    StreamEvent,
    StreamEventV,
    ToolCallDelta,
    ToolCallDeltaV,
    events_view,
    view_opt,
};
use crate::transform::spec_map_stop_reason;
use crate::transform::map_stop_reason;

verus! {

/// Which kind of content block is currently open, if any.
#[derive(PartialEq, Eq, Structural)]
pub enum OpenBlock {
    Closed,
    Thinking,
    Text,
    ToolUse,
}

/// The reassembler's per-request state.
pub struct Reassembler {
    pub message_id: Option<String>,
    pub model: Option<String>,
    pub content_index: u64,
    pub open_block: OpenBlock,
    pub tool_call_id: Option<String>,
    pub tool_call_args: String,
    pub message_start_sent: bool,
}

/// The mathematical shape of the reassembler state.
#[verifier::ext_equal]
pub struct ReassemblerV {
    pub message_id: Option<Seq<char>>,
    pub model: Option<Seq<char>>,
    pub content_index: u64,
    pub open_block: OpenBlock,
    pub tool_call_id: Option<Seq<char>>,
    pub tool_call_args: Seq<char>,
    pub message_start_sent: bool,
}

impl View for Reassembler {
    type V = ReassemblerV;

    open spec fn view(&self) -> ReassemblerV {
        ReassemblerV {
            message_id: view_opt(self.message_id),
            model: view_opt(self.model),
            content_index: self.content_index,
            open_block: self.open_block,
            tool_call_id: view_opt(self.tool_call_id),
            tool_call_args: self.tool_call_args@,
            message_start_sent: self.message_start_sent,
        }
    }
}

/// The next block index: one more, wrapping at the type's limit (which
/// no real stream reaches).
pub open spec fn spec_next_index(x: u64) -> u64 {
    if x == u64::MAX {
        0
    } else {
        (x + 1) as u64
    }
}

/// An absent string treated as empty.
pub open spec fn spec_or_empty(o: Option<Seq<char>>) -> Seq<char> {
    match o {
        Some(s) => s,
        None => Seq::empty(),
    }
}

/// The message id and model are remembered from the first chunk that
/// carries them.
pub open spec fn spec_set_ids(st: ReassemblerV, chunk: StreamChunkV) -> ReassemblerV {
    ReassemblerV {
        message_id: if st.message_id is None {
            Some(chunk.id)
        } else {
            st.message_id
        },
        model: if st.model is None {
            Some(chunk.model)
        } else {
            st.model
        },
        ..st
    }
}

/// `message_start` is emitted exactly once, before any content event.
pub open spec fn spec_start_step(st: ReassemblerV) -> (ReassemblerV, Seq<StreamEventV>) {
    if !st.message_start_sent {
        (
            ReassemblerV { message_start_sent: true, ..st },
            seq![
                StreamEventV::MessageStart {
                    id: spec_or_empty(st.message_id),
                    model: spec_or_empty(st.model),
                },
            ],
        )
    } else {
        (st, Seq::empty())
    }
}

/// A reasoning fragment: any open non-thinking block is stopped and the
/// index bumped, a thinking block is opened at the current index if none
/// is already open (the very first block keeps index zero), then the
/// fragment is emitted as a thinking delta.
pub open spec fn spec_reasoning_step(st: ReassemblerV, reasoning: Option<Seq<char>>) -> (
    ReassemblerV,
    Seq<StreamEventV>,
) {
    match reasoning {
        None => (st, Seq::empty()),
        Some(r) => {
            let (st1, evs) = if st.open_block != OpenBlock::Thinking {
                let (st0, closed) = if st.open_block != OpenBlock::Closed {
                    (
                        ReassemblerV { content_index: spec_next_index(st.content_index), ..st },
                        seq![StreamEventV::ContentBlockStop { index: st.content_index }],
                    )
                } else {
                    (st, Seq::empty())
                };
                (
                    ReassemblerV { open_block: OpenBlock::Thinking, ..st0 },
                    closed.push(
                        StreamEventV::ContentBlockStart {
                            index: st0.content_index,
                            block: BlockOpenV::Thinking,
                        },
                    ),
                )
            } else {
                (st, Seq::empty())
            };
            (
                st1,
                evs.push(
                    StreamEventV::ContentBlockDelta {
                        index: st1.content_index,
                        delta: DeltaBodyV::Thinking(r),
                    },
                ),
            )
        },
    }
}

/// A non-empty text fragment: any open non-text block is stopped and the
/// index bumped, a text block is opened if none is open, and the fragment
/// is emitted as a text delta. An empty or absent fragment does nothing.
pub open spec fn spec_text_step(st: ReassemblerV, content: Option<Seq<char>>) -> (
    ReassemblerV,
    Seq<StreamEventV>,
) {
    match content {
        None => (st, Seq::empty()),
        Some(c) => {
            if c.len() == 0 {
                (st, Seq::empty())
            } else {
                let (st1, evs) = if st.open_block != OpenBlock::Text {
                    let (st0, closed) = if st.open_block != OpenBlock::Closed {
                        (
                            ReassemblerV { content_index: spec_next_index(st.content_index), ..st },
                            seq![StreamEventV::ContentBlockStop { index: st.content_index }],
                        )
                    } else {
                        (st, Seq::empty())
                    };
                    (
                        ReassemblerV { open_block: OpenBlock::Text, ..st0 },
                        closed.push(
                            StreamEventV::ContentBlockStart {
                                index: st0.content_index,
                                block: BlockOpenV::Text,
                            },
                        ),
                    )
                } else {
                    (st, Seq::empty())
                };
                (
                    st1,
                    evs.push(
                        StreamEventV::ContentBlockDelta {
                            index: st1.content_index,
                            delta: DeltaBodyV::Text(c),
                        },
                    ),
                )
            }
        },
    }
}

/// One tool-call fragment. An id announces a new tool call: any open
/// block is stopped, the index bumped, and the id remembered with an
/// empty argument buffer. A name opens the `tool_use` block at the
/// current index under the remembered id. An argument increment is
/// appended to the buffer and emitted raw as an input-JSON delta.
pub open spec fn spec_tool_frag(st: ReassemblerV, frag: ToolCallDeltaV) -> (
    ReassemblerV,
    Seq<StreamEventV>,
) {
    let (st1, ev1) = match frag.id {
        Some(id) => {
            let (st0, closed) = if st.open_block != OpenBlock::Closed {
                (
                    ReassemblerV {
                        content_index: spec_next_index(st.content_index),
                        open_block: OpenBlock::Closed,
                        ..st
                    },
                    seq![StreamEventV::ContentBlockStop { index: st.content_index }],
                )
            } else {
                (st, Seq::empty())
            };
            (
                ReassemblerV { tool_call_id: Some(id), tool_call_args: Seq::empty(), ..st0 },
                closed,
            )
        },
        None => (st, Seq::empty()),
    };
    let (st2, ev2) = match frag.name {
        Some(name) => (
            ReassemblerV { open_block: OpenBlock::ToolUse, ..st1 },
            seq![
                StreamEventV::ContentBlockStart {
                    index: st1.content_index,
                    block: BlockOpenV::ToolUse {
                        id: spec_or_empty(st1.tool_call_id),
                        name: name,
                    },
                },
            ],
        ),
        None => (st1, Seq::empty()),
    };
    let (st3, ev3) = match frag.arguments {
        Some(args) => (
            ReassemblerV { tool_call_args: st2.tool_call_args + args, ..st2 },
            seq![
                StreamEventV::ContentBlockDelta {
                    index: st2.content_index,
                    delta: DeltaBodyV::InputJson(args),
                },
            ],
        ),
        None => (st2, Seq::empty()),
    };
    (st3, ev1 + ev2 + ev3)
}

/// The tool-call fragments of one delta, processed independently in
/// array order.
pub open spec fn spec_tool_frags(st: ReassemblerV, frags: Seq<ToolCallDeltaV>) -> (
    ReassemblerV,
    Seq<StreamEventV>,
)
    decreases frags.len(),
{
    if frags.len() == 0 {
        (st, Seq::empty())
    } else {
        let (st1, ev1) = spec_tool_frag(st, frags[0]);
        let (st2, ev2) = spec_tool_frags(st1, frags.drop_first());
        (st2, ev1 + ev2)
    }
}

/// The tool-call step of a chunk: nothing without fragments.
pub open spec fn spec_tools_step(st: ReassemblerV, tool_calls: Option<Seq<ToolCallDeltaV>>) -> (
    ReassemblerV,
    Seq<StreamEventV>,
) {
    match tool_calls {
        Some(frags) => spec_tool_frags(st, frags),
        None => (st, Seq::empty()),
    }
}

/// A finish reason: any open block is stopped (the index is not bumped —
/// the stream is ending), then a `message_delta` carries the mapped stop
/// reason and, when the chunk carried usage, the completion-token count.
pub open spec fn spec_finish_step(
    st: ReassemblerV,
    finish_reason: Option<Seq<char>>,
    output_tokens: Option<u64>,
) -> (ReassemblerV, Seq<StreamEventV>) {
    match finish_reason {
        None => (st, Seq::empty()),
        Some(fr) => {
            let closed: Seq<StreamEventV> = if st.open_block != OpenBlock::Closed {
                seq![StreamEventV::ContentBlockStop { index: st.content_index }]
            } else {
                Seq::empty()
            };
            (
                st,
                closed.push(
                    StreamEventV::MessageDelta {
                        stop_reason: spec_map_stop_reason(Some(fr)),
                        output_tokens: output_tokens,
                    },
                ),
            )
        },
    }
}

/// The full transition one chunk causes: the id and model are remembered,
/// and if the chunk has a choice the five steps run in their fixed order
/// on its first choice.
pub open spec fn spec_on_chunk(st: ReassemblerV, chunk: StreamChunkV) -> (
    ReassemblerV,
    Seq<StreamEventV>,
) {
    let st1 = spec_set_ids(st, chunk);
    if chunk.choices.len() == 0 {
        (st1, Seq::empty())
    } else {
        let choice = chunk.choices[0];
        let (st2, ev1) = spec_start_step(st1);
        let (st3, ev2) = spec_reasoning_step(st2, choice.delta.reasoning);
        let (st4, ev3) = spec_text_step(st3, choice.delta.content);
        let (st5, ev4) = spec_tools_step(st4, choice.delta.tool_calls);
        let (st6, ev5) = spec_finish_step(
            st5,
            choice.finish_reason,
            match chunk.usage {
                Some(u) => Some(u.completion_tokens),
                None => None,
            },
        );
        (st6, ev1 + ev2 + ev3 + ev4 + ev5)
    }
}

impl Reassembler {
    /// A fresh reassembler: nothing remembered, index zero, no block
    /// open, `message_start` not yet sent.
    pub fn new() -> (r: Reassembler)
        ensures
            r@ == (ReassemblerV {
                message_id: None,
                model: None,
                content_index: 0,
                open_block: OpenBlock::Closed,
                tool_call_id: None,
                tool_call_args: Seq::empty(),
                message_start_sent: false,
            }),
    {
        Reassembler {
            message_id: None,
            model: None,
            content_index: 0,
            open_block: OpenBlock::Closed,
            tool_call_id: None,
            tool_call_args: String::new(),
            message_start_sent: false,
        }
    }

    /// The id/model step and the `message_start` step.
    fn step_start(&mut self, chunk: &StreamChunk, events: &mut Vec<StreamEvent>)
        ensures
            final(self)@ == spec_start_step(spec_set_ids(old(self)@, chunk@)).0,
            events_view(final(events)@) == events_view(old(events)@) + spec_start_step(
                spec_set_ids(old(self)@, chunk@),
            ).1,
    {
        let ghost st0 = self@;
        if self.message_id.is_none() {
            self.message_id = Some(chunk.id.clone());
        }
        if self.model.is_none() {
            self.model = Some(chunk.model.clone());
        }
        proof {
            assert(self@ =~= spec_set_ids(st0, chunk@));
        }
        let ghost st1 = spec_set_ids(st0, chunk@);
        let ghost ev0 = events_view(events@);
        if !self.message_start_sent {
            let id: String = match &self.message_id {
                Some(s) => s.clone(),
                None => String::new(),
            };
            let model: String = match &self.model {
                Some(s) => s.clone(),
                None => String::new(),
            };
            events.push(StreamEvent::MessageStart { id, model });
            self.message_start_sent = true;
            proof {
                assert(self@ =~= spec_start_step(st1).0);
                assert(events_view(events@) =~= ev0 + spec_start_step(st1).1);
            }
        } else {
            proof {
                assert(self@ =~= spec_start_step(st1).0);
                assert(events_view(events@) =~= ev0 + spec_start_step(st1).1);
            }
        }
    }

    /// The reasoning-fragment step.
    fn step_reasoning(&mut self, reasoning: &Option<String>, events: &mut Vec<StreamEvent>)
        ensures
            final(self)@ == spec_reasoning_step(old(self)@, view_opt(*reasoning)).0,
            events_view(final(events)@) == events_view(old(events)@) + spec_reasoning_step(
                old(self)@,
                view_opt(*reasoning),
            ).1,
    {
        let ghost st0 = self@;
        let ghost ev0 = events_view(events@);
        match reasoning {
            Some(r) => {
                if !matches!(self.open_block, OpenBlock::Thinking) {
                    if !matches!(self.open_block, OpenBlock::Closed) {
                        events.push(
                            StreamEvent::ContentBlockStop { index: self.content_index },
                        );
                        self.content_index = self.content_index.wrapping_add(1);
                    }
                    events.push(
                        StreamEvent::ContentBlockStart {
                            index: self.content_index,
                            block: BlockOpen::Thinking,
                        },
                    );
                    self.open_block = OpenBlock::Thinking;
                }
                events.push(
                    StreamEvent::ContentBlockDelta {
                        index: self.content_index,
                        delta: DeltaBody::Thinking(r.clone()),
                    },
                );
                proof {
                    assert(self@ =~= spec_reasoning_step(st0, view_opt(*reasoning)).0);
                    assert(events_view(events@) =~= ev0 + spec_reasoning_step(
                        st0,
                        view_opt(*reasoning),
                    ).1);
                }
            },
            None => {
            },
        }
    }

    /// The text-fragment step.
    fn step_text(&mut self, content: &Option<String>, events: &mut Vec<StreamEvent>)
        ensures
            final(self)@ == spec_text_step(old(self)@, view_opt(*content)).0,
            events_view(final(events)@) == events_view(old(events)@) + spec_text_step(
                old(self)@,
                view_opt(*content),
            ).1,
    {
        let ghost st0 = self@;
        let ghost ev0 = events_view(events@);
        match content {
            Some(c) => {
                if !c.as_str().is_empty() {
                    if !matches!(self.open_block, OpenBlock::Text) {
                        if !matches!(self.open_block, OpenBlock::Closed) {
                            events.push(
                                StreamEvent::ContentBlockStop { index: self.content_index },
                            );
                            self.content_index = self.content_index.wrapping_add(1);
                        }
                        events.push(
                            StreamEvent::ContentBlockStart {
                                index: self.content_index,
                                block: BlockOpen::Text,
                            },
                        );
                        self.open_block = OpenBlock::Text;
                    }
                    events.push(
                        StreamEvent::ContentBlockDelta {
                            index: self.content_index,
                            delta: DeltaBody::Text(c.clone()),
                        },
                    );
                    proof {
                        assert(self@ =~= spec_text_step(st0, view_opt(*content)).0);
                        assert(events_view(events@) =~= ev0 + spec_text_step(
                            st0,
                            view_opt(*content),
                        ).1);
                    }
                }
            },
            None => {
            },
        }
    }

    /// One tool-call fragment.
    fn step_tool_frag(&mut self, frag: &ToolCallDelta, events: &mut Vec<StreamEvent>)
        ensures
            final(self)@ == spec_tool_frag(old(self)@, frag@).0,
            events_view(final(events)@) == events_view(old(events)@) + spec_tool_frag(
                old(self)@,
                frag@,
            ).1,
    {
        let ghost st0 = self@;
        let ghost ev0 = events_view(events@);
        match &frag.id {
            Some(id) => {
                if !matches!(self.open_block, OpenBlock::Closed) {
                    events.push(StreamEvent::ContentBlockStop { index: self.content_index });
                    self.content_index = self.content_index.wrapping_add(1);
                    self.open_block = OpenBlock::Closed;
                }
                self.tool_call_id = Some(id.clone());
                self.tool_call_args = String::new();
            },
            None => {
            },
        }
        let ghost st1 = spec_tool_frag(st0, frag@).0;
        let ghost stm1 = self@;
        proof {
            let pair = spec_tool_frag(st0, frag@);
            assert(events_view(events@) =~= ev0 + (match frag@.id {
                Some(_) => if st0.open_block != OpenBlock::Closed {
                    seq![StreamEventV::ContentBlockStop { index: st0.content_index }]
                } else {
                    Seq::<StreamEventV>::empty()
                },
                None => Seq::<StreamEventV>::empty(),
            }));
        }
        match &frag.name {
            Some(name) => {
                let tid: String = match &self.tool_call_id {
                    Some(s) => s.clone(),
                    None => String::new(),
                };
                events.push(
                    StreamEvent::ContentBlockStart {
                        index: self.content_index,
                        block: BlockOpen::ToolUse { id: tid, name: name.clone() },
                    },
                );
                self.open_block = OpenBlock::ToolUse;
            },
            None => {
            },
        }
        match &frag.arguments {
            Some(args) => {
                self.tool_call_args.append(args.as_str());
                events.push(
                    StreamEvent::ContentBlockDelta {
                        index: self.content_index,
                        delta: DeltaBody::InputJson(args.clone()),
                    },
                );
            },
            None => {
            },
        }
        proof {
            assert(self@ =~= spec_tool_frag(st0, frag@).0);
            assert(events_view(events@) =~= ev0 + spec_tool_frag(st0, frag@).1);
        }
    }

    /// The finish-reason step.
    fn step_finish(
        &mut self,
        finish_reason: &Option<String>,
        usage_tokens: Option<u64>,
        events: &mut Vec<StreamEvent>,
    )
        ensures
            final(self)@ == spec_finish_step(old(self)@, view_opt(*finish_reason), usage_tokens).0,
            events_view(final(events)@) == events_view(old(events)@) + spec_finish_step(
                old(self)@,
                view_opt(*finish_reason),
                usage_tokens,
            ).1,
    {
        let ghost st0 = self@;
        let ghost ev0 = events_view(events@);
        match finish_reason {
            Some(fr) => {
                if !matches!(self.open_block, OpenBlock::Closed) {
                    events.push(StreamEvent::ContentBlockStop { index: self.content_index });
                }
                let stop_reason = map_stop_reason(Some(fr.as_str()));
                events.push(StreamEvent::MessageDelta { stop_reason, output_tokens: usage_tokens });
                proof {
                    assert(self@ =~= spec_finish_step(st0, view_opt(*finish_reason), usage_tokens).0);
                    assert(events_view(events@) =~= ev0 + spec_finish_step(
                        st0,
                        view_opt(*finish_reason),
                        usage_tokens,
                    ).1);
                }
            },
            None => {
            },
        }
    }

    /// Feeds one parsed chunk and returns the events it causes, exactly
    /// as [`spec_on_chunk`] says.
    pub fn on_chunk(&mut self, chunk: StreamChunk) -> (events: Vec<StreamEvent>)
        ensures
            final(self)@ == spec_on_chunk(old(self)@, chunk@).0,
            events_view(events@) == spec_on_chunk(old(self)@, chunk@).1,
    {
        let ghost st0 = self@;
        let ghost cv = chunk@;
        let mut events: Vec<StreamEvent> = Vec::new();
        if chunk.choices.len() == 0 {
            if self.message_id.is_none() {
                self.message_id = Some(chunk.id.clone());
            }
            if self.model.is_none() {
                self.model = Some(chunk.model.clone());
            }
            proof {
                assert(self@ =~= spec_set_ids(st0, cv));
                assert(events_view(events@) =~= spec_on_chunk(st0, cv).1);
            }
            return events;
        }
        self.step_start(&chunk, &mut events);
        let ghost st1 = spec_set_ids(st0, cv);
        let ghost st2 = spec_start_step(st1).0;
        let ghost ev1 = spec_start_step(st1).1;
        let choice = &chunk.choices[0];
        proof {
            assert(choice@ == cv.choices[0]);
            assert(events_view(events@) =~= Seq::<StreamEventV>::empty() + ev1);
        }
        self.step_reasoning(&choice.delta.reasoning, &mut events);
        let ghost st3 = spec_reasoning_step(st2, cv.choices[0].delta.reasoning).0;
        let ghost ev2 = spec_reasoning_step(st2, cv.choices[0].delta.reasoning).1;
        self.step_text(&choice.delta.content, &mut events);
        let ghost st4 = spec_text_step(st3, cv.choices[0].delta.content).0;
        let ghost ev3 = spec_text_step(st3, cv.choices[0].delta.content).1;
        match &choice.delta.tool_calls {
            Some(frags) => {
                let ghost fv = frags@.map_values(|d: ToolCallDelta| d@);
                proof {
                    assert(cv.choices[0].delta.tool_calls == Some(fv));
                    assert(fv.skip(0) =~= fv);
                    assert(spec_tools_step(st4, cv.choices[0].delta.tool_calls)
                        == spec_tool_frags(st4, fv));
                }
                for i in 0..frags.len()
                    invariant
                        fv == frags@.map_values(|d: ToolCallDelta| d@),
                        spec_tool_frags(st4, fv).0 == spec_tool_frags(self@, fv.skip(i as int)).0,
                        events_view(events@) + spec_tool_frags(self@, fv.skip(i as int)).1
                            =~= ev1 + ev2 + ev3 + spec_tool_frags(st4, fv).1,
                {
                    let ghost stc = self@;
                    let ghost evc = events_view(events@);
                    proof {
                        assert(frags@[i as int]@ == fv[i as int]);
                        assert(fv.skip(i as int)[0] == fv[i as int]);
                        assert(fv.skip(i as int).drop_first() =~= fv.skip(i + 1));
                    }
                    self.step_tool_frag(&frags[i], &mut events);
                    proof {
                        assert(spec_tool_frags(stc, fv.skip(i as int)).0 == spec_tool_frags(
                            self@,
                            fv.skip(i + 1),
                        ).0);
                        assert(spec_tool_frags(stc, fv.skip(i as int)).1 =~= spec_tool_frag(
                            stc,
                            fv[i as int],
                        ).1 + spec_tool_frags(self@, fv.skip(i + 1)).1);
                        assert(events_view(events@) + spec_tool_frags(self@, fv.skip(i + 1)).1
                            =~= ev1 + ev2 + ev3 + spec_tool_frags(st4, fv).1);
                    }
                }
                proof {
                    assert(fv.skip(fv.len() as int).len() == 0);
                    assert(spec_tool_frags(self@, fv.skip(fv.len() as int)).1 =~= Seq::<
                        StreamEventV,
                    >::empty());
                    assert(events_view(events@) =~= ev1 + ev2 + ev3 + spec_tool_frags(
                        st4,
                        fv,
                    ).1);
                }
            },
            None => {
            },
        }
        let ghost st5 = spec_tools_step(st4, cv.choices[0].delta.tool_calls).0;
        let ghost ev4 = spec_tools_step(st4, cv.choices[0].delta.tool_calls).1;
        proof {
            assert(self@ =~= st5);
            assert(events_view(events@) =~= ev1 + ev2 + ev3 + ev4);
        }
        let usage_tokens: Option<u64> = match &chunk.usage {
            Some(u) => Some(u.completion_tokens),
            None => None,
        };
        self.step_finish(&choice.finish_reason, usage_tokens, &mut events);
        proof {
            assert(usage_tokens == (match cv.usage {
                Some(u) => Some(u.completion_tokens),
                None => None,
            }));
            assert(self@ =~= spec_on_chunk(st0, cv).0);
            assert(events_view(events@) =~= spec_on_chunk(st0, cv).1);
        }
        events
    }

    /// The terminal sentinel: `message_stop` is emitted, whatever the
    /// state, and the state is left untouched.
    pub fn on_done(&mut self) -> (ev: StreamEvent)
        ensures
            final(self)@ == old(self)@,
            ev@ == StreamEventV::MessageStop,
    {
        StreamEvent::MessageStop
    }

    /// A transport read failure: exactly one `error` event carrying the
    /// failure description is emitted, whatever the state; the caller
    /// terminates the stream and feeds nothing further.
    pub fn on_transport_error(&mut self, message: String) -> (ev: StreamEvent)
        ensures
            final(self)@ == old(self)@,
            ev@ == (StreamEventV::Error { message: message@ }),
    {
        StreamEvent::Error { message }
    }
}

} // verus!
