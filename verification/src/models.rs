//! The data model of the two wire formats.
//!
//! "Source" types describe the structured, block-based chat format this
//! proxy exposes; "target" types describe the flat-message chat-completion
//! format of the upstream service. Each type has a mathematical view used
//! by the translation contracts. Sampling parameters (temperature, top-p)
//! are carried as the number literals they arrived with, so they pass
//! through the translation verbatim.

use vstd::prelude::*;
use crate::json::{Json, JsonV, json_members_view, json_view};

verus! {

/// The view of an optional viewable value.
pub open spec fn view_opt<T: View>(o: Option<T>) -> Option<T::V> {
    match o {
        Some(t) => Some(t@),
        None => None,
    }
}

/// The views of a sequence of strings.
pub open spec fn strs_view(s: Seq<String>) -> Seq<Seq<char>> {
    s.map_values(|x: String| x@)
}

// ----- source request -----

/// A system prompt: one plain string, or an ordered sequence of
/// system-text blocks.
pub enum SystemPrompt {
    Single(String),
    Blocks(Vec<String>),
}

#[verifier::ext_equal]
pub enum SystemPromptV {
    Single(Seq<char>),
    Blocks(Seq<Seq<char>>),
}

impl View for SystemPrompt {
    type V = SystemPromptV;

    open spec fn view(&self) -> SystemPromptV {
        match self {
            SystemPrompt::Single(s) => SystemPromptV::Single(s@),
            SystemPrompt::Blocks(b) => SystemPromptV::Blocks(strs_view(b@)),
        }
    }
}

/// One typed unit of message content in the source format.
pub enum ContentBlock {
    Text { text: String },
    Image { media_type: String, data: String },
    ToolUse { id: String, name: String, input: Json },
    ToolResult { tool_use_id: String, content: String },
    Thinking { thinking: String },
}

#[verifier::ext_equal]
pub enum ContentBlockV {
    Text { text: Seq<char> },
    Image { media_type: Seq<char>, data: Seq<char> },
    ToolUse { id: Seq<char>, name: Seq<char>, input: JsonV },
    ToolResult { tool_use_id: Seq<char>, content: Seq<char> },
    Thinking { thinking: Seq<char> },
}

impl View for ContentBlock {
    type V = ContentBlockV;

    open spec fn view(&self) -> ContentBlockV {
        match self {
            ContentBlock::Text { text } => ContentBlockV::Text { text: text@ },
            ContentBlock::Image { media_type, data } => ContentBlockV::Image {
                media_type: media_type@,
                data: data@,
            },
            ContentBlock::ToolUse { id, name, input } => ContentBlockV::ToolUse {
                id: id@,
                name: name@,
                input: json_view(*input),
            },
            ContentBlock::ToolResult { tool_use_id, content } => ContentBlockV::ToolResult {
                tool_use_id: tool_use_id@,
                content: content@,
            },
            ContentBlock::Thinking { thinking } => ContentBlockV::Thinking { thinking: thinking@ },
        }
    }
}

/// Message content: a plain string, or an ordered block sequence.
pub enum MessageContent {
    Text(String),
    Blocks(Vec<ContentBlock>),
}

#[verifier::ext_equal]
pub enum MessageContentV {
    Text(Seq<char>),
    Blocks(Seq<ContentBlockV>),
}

impl View for MessageContent {
    type V = MessageContentV;

    open spec fn view(&self) -> MessageContentV {
        match self {
            MessageContent::Text(s) => MessageContentV::Text(s@),
            MessageContent::Blocks(b) => MessageContentV::Blocks(
                b@.map_values(|x: ContentBlock| x@),
            ),
        }
    }
}

/// One chat message in the source format.
pub struct Message {
    pub role: String,
    pub content: MessageContent,
}

#[verifier::ext_equal]
pub struct MessageV {
    pub role: Seq<char>,
    pub content: MessageContentV,
}

impl View for Message {
    type V = MessageV;

    open spec fn view(&self) -> MessageV {
        MessageV { role: self.role@, content: self.content@ }
    }
}

/// A tool definition in the source format.
pub struct ToolDef {
    pub name: String,
    pub description: Option<String>,
    pub input_schema: Json,
    pub tool_type: Option<String>,
}

#[verifier::ext_equal]
pub struct ToolDefV {
    pub name: Seq<char>,
    pub description: Option<Seq<char>>,
    pub input_schema: JsonV,
    pub tool_type: Option<Seq<char>>,
}

impl View for ToolDef {
    type V = ToolDefV;

    open spec fn view(&self) -> ToolDefV {
        ToolDefV {
            name: self.name@,
            description: view_opt(self.description),
            input_schema: json_view(self.input_schema),
            tool_type: view_opt(self.tool_type),
        }
    }
}

/// A request in the source format. The extension map is an open-ended
/// key-value document owned by the caller; this library only inspects its
/// `thinking` entry.
pub struct SourceRequest {
    pub model: String,
    pub messages: Vec<Message>,
    pub system: Option<SystemPrompt>,
    pub max_tokens: u64,
    pub temperature: Option<String>,
    pub top_p: Option<String>,
    pub stop_sequences: Option<Vec<String>>,
    pub stream: Option<bool>,
    pub tools: Option<Vec<ToolDef>>,
    pub extra: Vec<(String, Json)>,
}

#[verifier::ext_equal]
pub struct SourceRequestV {
    pub model: Seq<char>,
    pub messages: Seq<MessageV>,
    pub system: Option<SystemPromptV>,
    pub max_tokens: u64,
    pub temperature: Option<Seq<char>>,
    pub top_p: Option<Seq<char>>,
    pub stop_sequences: Option<Seq<Seq<char>>>,
    pub stream: Option<bool>,
    pub tools: Option<Seq<ToolDefV>>,
    pub extra: Seq<(Seq<char>, JsonV)>,
}

impl View for SourceRequest {
    type V = SourceRequestV;

    open spec fn view(&self) -> SourceRequestV {
        SourceRequestV {
            model: self.model@,
            messages: self.messages@.map_values(|m: Message| m@),
            system: view_opt(self.system),
            max_tokens: self.max_tokens,
            temperature: view_opt(self.temperature),
            top_p: view_opt(self.top_p),
            stop_sequences: match self.stop_sequences {
                Some(v) => Some(strs_view(v@)),
                None => None,
            },
            stream: self.stream,
            tools: match self.tools {
                Some(v) => Some(v@.map_values(|t: ToolDef| t@)),
                None => None,
            },
            extra: json_members_view(self.extra@),
        }
    }
}

// ----- target request -----

/// One part of structured target-message content.
pub enum ContentPart {
    Text { text: String },
    ImageUrl { url: String },
}

#[verifier::ext_equal]
pub enum ContentPartV {
    Text { text: Seq<char> },
    ImageUrl { url: Seq<char> },
}

impl View for ContentPart {
    type V = ContentPartV;

    open spec fn view(&self) -> ContentPartV {
        match self {
            ContentPart::Text { text } => ContentPartV::Text { text: text@ },
            ContentPart::ImageUrl { url } => ContentPartV::ImageUrl { url: url@ },
        }
    }
}

/// A tool call in the target format; the arguments are a JSON document
/// serialized to text.
pub struct ToolCall {
    pub id: String,
    pub name: String,
    pub arguments: String,
}

#[verifier::ext_equal]
pub struct ToolCallV {
    pub id: Seq<char>,
    pub name: Seq<char>,
    pub arguments: Seq<char>,
}

impl View for ToolCall {
    type V = ToolCallV;

    open spec fn view(&self) -> ToolCallV {
        ToolCallV { id: self.id@, name: self.name@, arguments: self.arguments@ }
    }
}

/// Target-message content: plain text, or an ordered list of parts.
pub enum TargetContent {
    Text(String),
    Parts(Vec<ContentPart>),
}

#[verifier::ext_equal]
pub enum TargetContentV {
    Text(Seq<char>),
    Parts(Seq<ContentPartV>),
}

impl View for TargetContent {
    type V = TargetContentV;

    open spec fn view(&self) -> TargetContentV {
        match self {
            TargetContent::Text(s) => TargetContentV::Text(s@),
            TargetContent::Parts(p) => TargetContentV::Parts(
                p@.map_values(|x: ContentPart| x@),
            ),
        }
    }
}

/// One flat chat message in the target format.
pub struct TargetMessage {
    pub role: String,
    pub content: Option<TargetContent>,
    pub tool_calls: Option<Vec<ToolCall>>,
    pub tool_call_id: Option<String>,
}

#[verifier::ext_equal]
pub struct TargetMessageV {
    pub role: Seq<char>,
    pub content: Option<TargetContentV>,
    pub tool_calls: Option<Seq<ToolCallV>>,
    pub tool_call_id: Option<Seq<char>>,
}

impl View for TargetMessage {
    type V = TargetMessageV;

    open spec fn view(&self) -> TargetMessageV {
        TargetMessageV {
            role: self.role@,
            content: view_opt(self.content),
            tool_calls: match self.tool_calls {
                Some(v) => Some(v@.map_values(|c: ToolCall| c@)),
                None => None,
            },
            tool_call_id: view_opt(self.tool_call_id),
        }
    }
}

/// A tool offered to the target service, under its function wrapper.
pub struct TargetTool {
    pub name: String,
    pub description: Option<String>,
    pub parameters: Json,
}

#[verifier::ext_equal]
pub struct TargetToolV {
    pub name: Seq<char>,
    pub description: Option<Seq<char>>,
    pub parameters: JsonV,
}

impl View for TargetTool {
    type V = TargetToolV;

    open spec fn view(&self) -> TargetToolV {
        TargetToolV {
            name: self.name@,
            description: view_opt(self.description),
            parameters: json_view(self.parameters),
        }
    }
}

/// A request in the target format. This proxy never originates a forced
/// tool choice, so no such field exists here.
pub struct TargetRequest {
    pub model: String,
    pub messages: Vec<TargetMessage>,
    pub max_tokens: u64,
    pub temperature: Option<String>,
    pub top_p: Option<String>,
    pub stop: Option<Vec<String>>,
    pub stream: Option<bool>,
    pub tools: Option<Vec<TargetTool>>,
}

#[verifier::ext_equal]
pub struct TargetRequestV {
    pub model: Seq<char>,
    pub messages: Seq<TargetMessageV>,
    pub max_tokens: u64,
    pub temperature: Option<Seq<char>>,
    pub top_p: Option<Seq<char>>,
    pub stop: Option<Seq<Seq<char>>>,
    pub stream: Option<bool>,
    pub tools: Option<Seq<TargetToolV>>,
}

impl View for TargetRequest {
    type V = TargetRequestV;

    open spec fn view(&self) -> TargetRequestV {
        TargetRequestV {
            model: self.model@,
            messages: self.messages@.map_values(|m: TargetMessage| m@),
            max_tokens: self.max_tokens,
            temperature: view_opt(self.temperature),
            top_p: view_opt(self.top_p),
            stop: match self.stop {
                Some(v) => Some(strs_view(v@)),
                None => None,
            },
            stream: self.stream,
            tools: match self.tools {
                Some(v) => Some(v@.map_values(|t: TargetTool| t@)),
                None => None,
            },
        }
    }
}

// ----- target response -----

/// Token usage as the target format reports it.
pub struct TargetUsage {
    pub prompt_tokens: u64,
    pub completion_tokens: u64,
}

#[verifier::ext_equal]
pub struct TargetUsageV {
    pub prompt_tokens: u64,
    pub completion_tokens: u64,
}

impl View for TargetUsage {
    type V = TargetUsageV;

    open spec fn view(&self) -> TargetUsageV {
        TargetUsageV {
            prompt_tokens: self.prompt_tokens,
            completion_tokens: self.completion_tokens,
        }
    }
}

/// One choice of a complete target response.
pub struct TargetChoice {
    pub content: Option<String>,
    pub tool_calls: Option<Vec<ToolCall>>,
    pub finish_reason: Option<String>,
}

#[verifier::ext_equal]
pub struct TargetChoiceV {
    pub content: Option<Seq<char>>,
    pub tool_calls: Option<Seq<ToolCallV>>,
    pub finish_reason: Option<Seq<char>>,
}

impl View for TargetChoice {
    type V = TargetChoiceV;

    open spec fn view(&self) -> TargetChoiceV {
        TargetChoiceV {
            content: view_opt(self.content),
            tool_calls: match self.tool_calls {
                Some(v) => Some(v@.map_values(|c: ToolCall| c@)),
                None => None,
            },
            finish_reason: view_opt(self.finish_reason),
        }
    }
}

/// A complete, non-streamed response in the target format.
pub struct TargetResponse {
    pub id: String,
    pub model: String,
    pub choices: Vec<TargetChoice>,
    pub usage: TargetUsage,
}

#[verifier::ext_equal]
pub struct TargetResponseV {
    pub id: Seq<char>,
    pub model: Seq<char>,
    pub choices: Seq<TargetChoiceV>,
    pub usage: TargetUsageV,
}

impl View for TargetResponse {
    type V = TargetResponseV;

    open spec fn view(&self) -> TargetResponseV {
        TargetResponseV {
            id: self.id@,
            model: self.model@,
            choices: self.choices@.map_values(|c: TargetChoice| c@),
            usage: self.usage@,
        }
    }
}

// ----- source response -----

/// Token usage as the source format reports it.
pub struct Usage {
    pub input_tokens: u64,
    pub output_tokens: u64,
}

#[verifier::ext_equal]
pub struct UsageV {
    pub input_tokens: u64,
    pub output_tokens: u64,
}

impl View for Usage {
    type V = UsageV;

    open spec fn view(&self) -> UsageV {
        UsageV { input_tokens: self.input_tokens, output_tokens: self.output_tokens }
    }
}

/// One content block of a source response. A tool-use block carries its
/// input as the JSON text it will be emitted with.
pub enum ResponseBlock {
    Text { text: String },
    ToolUse { id: String, name: String, input_json: String },
}

#[verifier::ext_equal]
pub enum ResponseBlockV {
    Text { text: Seq<char> },
    ToolUse { id: Seq<char>, name: Seq<char>, input_json: Seq<char> },
}

impl View for ResponseBlock {
    type V = ResponseBlockV;

    open spec fn view(&self) -> ResponseBlockV {
        match self {
            ResponseBlock::Text { text } => ResponseBlockV::Text { text: text@ },
            ResponseBlock::ToolUse { id, name, input_json } => ResponseBlockV::ToolUse {
                id: id@,
                name: name@,
                input_json: input_json@,
            },
        }
    }
}

/// A complete, non-streamed response in the source format.
pub struct SourceResponse {
    pub id: String,
    pub response_type: String,
    pub role: String,
    pub content: Vec<ResponseBlock>,
    pub model: String,
    pub stop_reason: Option<String>,
    pub stop_sequence: Option<String>,
    pub usage: Usage,
}

#[verifier::ext_equal]
pub struct SourceResponseV {
    pub id: Seq<char>,
    pub response_type: Seq<char>,
    pub role: Seq<char>,
    pub content: Seq<ResponseBlockV>,
    pub model: Seq<char>,
    pub stop_reason: Option<Seq<char>>,
    pub stop_sequence: Option<Seq<char>>,
    pub usage: UsageV,
}

impl View for SourceResponse {
    type V = SourceResponseV;

    open spec fn view(&self) -> SourceResponseV {
        SourceResponseV {
            id: self.id@,
            response_type: self.response_type@,
            role: self.role@,
            content: self.content@.map_values(|b: ResponseBlock| b@),
            model: self.model@,
            stop_reason: view_opt(self.stop_reason),
            stop_sequence: view_opt(self.stop_sequence),
            usage: self.usage@,
        }
    }
}

// ----- target stream chunks -----

/// One incremental tool-call fragment inside a stream chunk.
pub struct ToolCallDelta {
    pub id: Option<String>,
    pub name: Option<String>,
    pub arguments: Option<String>,
}

#[verifier::ext_equal]
pub struct ToolCallDeltaV {
    pub id: Option<Seq<char>>,
    pub name: Option<Seq<char>>,
    pub arguments: Option<Seq<char>>,
}

impl View for ToolCallDelta {
    type V = ToolCallDeltaV;

    open spec fn view(&self) -> ToolCallDeltaV {
        ToolCallDeltaV {
            id: view_opt(self.id),
            name: view_opt(self.name),
            arguments: view_opt(self.arguments),
        }
    }
}

/// The incremental delta of one stream-chunk choice.
pub struct ChunkDelta {
    pub reasoning: Option<String>,
    pub content: Option<String>,
    pub tool_calls: Option<Vec<ToolCallDelta>>,
}

#[verifier::ext_equal]
pub struct ChunkDeltaV {
    pub reasoning: Option<Seq<char>>,
    pub content: Option<Seq<char>>,
    pub tool_calls: Option<Seq<ToolCallDeltaV>>,
}

impl View for ChunkDelta {
    type V = ChunkDeltaV;

    open spec fn view(&self) -> ChunkDeltaV {
        ChunkDeltaV {
            reasoning: view_opt(self.reasoning),
            content: view_opt(self.content),
            tool_calls: match self.tool_calls {
                Some(v) => Some(v@.map_values(|d: ToolCallDelta| d@)),
                None => None,
            },
        }
    }
}

/// One choice of a stream chunk.
pub struct ChunkChoice {
    pub delta: ChunkDelta,
    pub finish_reason: Option<String>,
}

#[verifier::ext_equal]
pub struct ChunkChoiceV {
    pub delta: ChunkDeltaV,
    pub finish_reason: Option<Seq<char>>,
}

impl View for ChunkChoice {
    type V = ChunkChoiceV;

    open spec fn view(&self) -> ChunkChoiceV {
        ChunkChoiceV { delta: self.delta@, finish_reason: view_opt(self.finish_reason) }
    }
}

/// One incremental chunk of a target-format streamed response.
pub struct StreamChunk {
    pub id: String,
    pub model: String,
    pub choices: Vec<ChunkChoice>,
    pub usage: Option<TargetUsage>,
}

#[verifier::ext_equal]
pub struct StreamChunkV {
    pub id: Seq<char>,
    pub model: Seq<char>,
    pub choices: Seq<ChunkChoiceV>,
    pub usage: Option<TargetUsageV>,
}

impl View for StreamChunk {
    type V = StreamChunkV;

    open spec fn view(&self) -> StreamChunkV {
        StreamChunkV {
            id: self.id@,
            model: self.model@,
            choices: self.choices@.map_values(|c: ChunkChoice| c@),
            usage: view_opt(self.usage),
        }
    }
}

// ----- source stream events -----

/// What a `content_block_start` event opens.
pub enum BlockOpen {
    Thinking,
    Text,
    ToolUse { id: String, name: String },
}

#[verifier::ext_equal]
pub enum BlockOpenV {
    Thinking,
    Text,
    ToolUse { id: Seq<char>, name: Seq<char> },
}

impl View for BlockOpen {
    type V = BlockOpenV;

    open spec fn view(&self) -> BlockOpenV {
        match self {
            BlockOpen::Thinking => BlockOpenV::Thinking,
            BlockOpen::Text => BlockOpenV::Text,
            BlockOpen::ToolUse { id, name } => BlockOpenV::ToolUse { id: id@, name: name@ },
        }
    }
}

/// What a `content_block_delta` event carries.
pub enum DeltaBody {
    Thinking(String),
    Text(String),
    InputJson(String),
}

#[verifier::ext_equal]
pub enum DeltaBodyV {
    Thinking(Seq<char>),
    Text(Seq<char>),
    InputJson(Seq<char>),
}

impl View for DeltaBody {
    type V = DeltaBodyV;

    open spec fn view(&self) -> DeltaBodyV {
        match self {
            DeltaBody::Thinking(s) => DeltaBodyV::Thinking(s@),
            DeltaBody::Text(s) => DeltaBodyV::Text(s@),
            DeltaBody::InputJson(s) => DeltaBodyV::InputJson(s@),
        }
    }
}

/// One event of the source format's stream.
pub enum StreamEvent {
    MessageStart { id: String, model: String },
    ContentBlockStart { index: u64, block: BlockOpen },
    ContentBlockDelta { index: u64, delta: DeltaBody },
    ContentBlockStop { index: u64 },
    MessageDelta { stop_reason: Option<String>, output_tokens: Option<u64> },
    MessageStop,
    Error { message: String },
}

#[verifier::ext_equal]
pub enum StreamEventV {
    MessageStart { id: Seq<char>, model: Seq<char> },
    ContentBlockStart { index: u64, block: BlockOpenV },
    ContentBlockDelta { index: u64, delta: DeltaBodyV },
    ContentBlockStop { index: u64 },
    MessageDelta { stop_reason: Option<Seq<char>>, output_tokens: Option<u64> },
    MessageStop,
    Error { message: Seq<char> },
}

impl View for StreamEvent {
    type V = StreamEventV;

    open spec fn view(&self) -> StreamEventV {
        match self {
            StreamEvent::MessageStart { id, model } => StreamEventV::MessageStart {
                id: id@,
                model: model@,
            },
            StreamEvent::ContentBlockStart { index, block } => StreamEventV::ContentBlockStart {
                index: *index,
                block: block@,
            },
            StreamEvent::ContentBlockDelta { index, delta } => StreamEventV::ContentBlockDelta {
                index: *index,
                delta: delta@,
            },
            StreamEvent::ContentBlockStop { index } => StreamEventV::ContentBlockStop {
                index: *index,
            },
            StreamEvent::MessageDelta { stop_reason, output_tokens } => StreamEventV::MessageDelta {
                stop_reason: view_opt(*stop_reason),
                output_tokens: *output_tokens,
            },
            StreamEvent::MessageStop => StreamEventV::MessageStop,
            StreamEvent::Error { message } => StreamEventV::Error { message: message@ },
        }
    }
}

/// The views of a sequence of stream events.
pub open spec fn events_view(s: Seq<StreamEvent>) -> Seq<StreamEventV> {
    s.map_values(|e: StreamEvent| e@)
}

} // verus!
