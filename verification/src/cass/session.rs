//! What a session is made of.

use crate::json;
use crate::json::JsonView;
use crate::text;
use vstd::prelude::*;

verus! {

/// Tool call within a message
#[derive(Debug, Clone)]
pub struct ToolCall {
    pub id: String,
    pub name: String,
    pub arguments: serde_json::Value,
}

/// Tool result within a message
#[derive(Debug, Clone)]
pub struct ToolResult {
    pub tool_call_id: String,
    pub content: String,
    pub is_error: bool,
}

/// A message within a session
#[derive(Debug, Clone)]
pub struct SessionMessage {
    pub index: usize,
    pub role: String,
    pub content: String,
    pub tool_calls: Vec<ToolCall>,
    pub tool_results: Vec<ToolResult>,
}

/// Session metadata
#[derive(Debug, Clone)]
pub struct SessionMetadata {
    pub project: Option<String>,
    pub agent: Option<String>,
    pub model: Option<String>,
    pub started_at: Option<String>,
    pub ended_at: Option<String>,
    pub message_count: usize,
    pub token_count: Option<usize>,
    pub tags: Vec<String>,
}

/// Full session content
#[derive(Debug, Clone)]
pub struct Session {
    pub id: String,
    pub path: String,
    pub messages: Vec<SessionMessage>,
    pub metadata: SessionMetadata,
    pub content_hash: String,
}

/// Expanded session with context
#[derive(Debug, Clone)]
pub struct SessionExpanded {
    pub session: Session,
    pub context_before: Vec<SessionMessage>,
    pub context_after: Vec<SessionMessage>,
}

/// What a tool call is.
#[verifier::ext_equal]
pub ghost struct ToolCallView {
    pub id: Seq<char>,
    pub name: Seq<char>,
    pub arguments: JsonView,
}

/// What a tool result is.
#[verifier::ext_equal]
pub ghost struct ToolResultView {
    pub tool_call_id: Seq<char>,
    pub content: Seq<char>,
    pub is_error: bool,
}

/// What a message is.
#[verifier::ext_equal]
pub ghost struct MessageView {
    pub index: nat,
    pub role: Seq<char>,
    pub content: Seq<char>,
    pub tool_calls: Seq<ToolCallView>,
    pub tool_results: Seq<ToolResultView>,
}

impl View for ToolCall {
    type V = ToolCallView;

    open spec fn view(&self) -> ToolCallView {
        ToolCallView {
            id: self.id@,
            name: self.name@,
            arguments: json::json_contents(self.arguments),
        }
    }
}

impl View for ToolResult {
    type V = ToolResultView;

    open spec fn view(&self) -> ToolResultView {
        ToolResultView {
            tool_call_id: self.tool_call_id@,
            content: self.content@,
            is_error: self.is_error,
        }
    }
}

/// The calls of a list, as views.
pub open spec fn call_views(calls: Seq<ToolCall>) -> Seq<ToolCallView> {
    Seq::new(calls.len(), |i: int| calls[i]@)
}

/// The results of a list, as views.
pub open spec fn result_views(results: Seq<ToolResult>) -> Seq<ToolResultView> {
    Seq::new(results.len(), |i: int| results[i]@)
}

impl View for SessionMessage {
    type V = MessageView;

    open spec fn view(&self) -> MessageView {
        MessageView {
            index: self.index as nat,
            role: self.role@,
            content: self.content@,
            tool_calls: call_views(self.tool_calls@),
            tool_results: result_views(self.tool_results@),
        }
    }
}

/// The messages of a list, as views.
pub open spec fn message_views(messages: Seq<SessionMessage>) -> Seq<MessageView> {
    Seq::new(messages.len(), |i: int| messages[i]@)
}

/// A message says something: it has words, a tool call or a tool result.
pub open spec fn is_material(message: MessageView) -> bool {
    ||| text::trim(message.content).len() > 0
    ||| message.tool_calls.len() > 0
    ||| message.tool_results.len() > 0
}

/// Whether a message says something.
pub fn is_material_message(message: &SessionMessage) -> (r: bool)
    ensures
        r == is_material(message@),
{
    !text::is_blank(message.content.as_str()) || message.tool_calls.len() > 0
        || message.tool_results.len() > 0
}

/// Metadata with nothing known.
pub open spec fn is_unknown(metadata: SessionMetadata) -> bool {
    &&& metadata.project is None
    &&& metadata.agent is None
    &&& metadata.model is None
    &&& metadata.started_at is None
    &&& metadata.ended_at is None
    &&& metadata.message_count == 0
    &&& metadata.token_count is None
    &&& metadata.tags@.len() == 0
}

impl Default for SessionMetadata {
    /// Metadata with nothing known.
    fn default() -> (r: Self)
        ensures
            is_unknown(r),
    {
        SessionMetadata {
            project: None,
            agent: None,
            model: None,
            started_at: None,
            ended_at: None,
            message_count: 0,
            token_count: None,
            tags: Vec::new(),
        }
    }
}

} // verus!
