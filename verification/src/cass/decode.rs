//! Session export decoder.
//!
//! An export is a JSON array of records. Records are read independently of each other, so one
//! export may mix normalized flat messages, raw records with the message inside, raw Codex
//! `response_item` records, and records that are no conversation at all.

use crate::cass::markers;
use crate::cass::markers::parse_inline_tool_markers;
use crate::cass::session;
use crate::cass::session::{
    is_material_message, MessageView, SessionMessage, ToolCall, ToolCallView, ToolResult,
    ToolResultView,
};
use crate::json;
use crate::json::{flag, nonempty_string, text_field, JsonView};
use crate::text;
use crate::text::{ascii_lowered, concat, decimal_text, ends_with, join_texts, same_text};
use vstd::prelude::*;
use vstd::string::*;

verus! {

/// Errors produced while decoding a session export.
#[derive(Debug, Clone)]
pub enum CassExportDecodeError {
    /// The export is no JSON array, or a normalized record has a field of the wrong type.
    Json(String),
    /// No record of the export says anything.
    NoSupportedMessages { record_count: usize },
}

/// What an export error is.
pub ghost enum ExportErrorView {
    Json(Seq<char>),
    NoSupportedMessages { record_count: nat },
}

impl View for CassExportDecodeError {
    type V = ExportErrorView;

    open spec fn view(&self) -> ExportErrorView {
        match self {
            CassExportDecodeError::Json(problem) => ExportErrorView::Json(problem@),
            CassExportDecodeError::NoSupportedMessages { record_count } =>
                ExportErrorView::NoSupportedMessages { record_count: *record_count as nat },
        }
    }
}

// ---------------------------------------------------------------------------------------------
// Texts in content
// ---------------------------------------------------------------------------------------------

/// The kind that a block or payload says it is; empty where it says none.
pub open spec fn kind_of(value: JsonView) -> Seq<char> {
    match value.text_field("type"@) {
        Some(kind) => kind,
        None => ""@,
    }
}

/// The kinds of block that hold an agent's private reasoning.
pub open spec fn is_reasoning_kind(kind: Seq<char>) -> bool {
    kind == "thinking"@ || kind == "reasoning"@
}

/// The kinds of block that hold words of the conversation.
pub open spec fn is_text_kind(kind: Seq<char>) -> bool {
    kind == "text"@ || kind == "input_text"@ || kind == "output_text"@ || kind == ""@
}

/// The words in a block of content, where it has any.
pub open spec fn block_text(block: JsonView) -> Option<Seq<char>> {
    match block {
        JsonView::Text(t) => if t.len() > 0 {
            Some(t)
        } else {
            None
        },
        JsonView::Object(_) => if is_reasoning_kind(kind_of(block)) {
            None
        } else if is_text_kind(kind_of(block)) {
            block.nonempty_field("text"@)
        } else {
            None
        },
        _ => None,
    }
}

/// The words in the blocks of a list, in order.
pub open spec fn block_texts(blocks: Seq<JsonView>) -> Seq<Seq<char>>
    decreases blocks.len(),
{
    if blocks.len() == 0 {
        Seq::empty()
    } else {
        let before = block_texts(blocks.drop_last());
        match block_text(blocks.last()) {
            Some(t) => before.push(t),
            None => before,
        }
    }
}

/// The words in the blocks of a list, a line break between each two.
pub open spec fn joined_texts(blocks: Seq<JsonView>) -> Seq<char> {
    text::join(block_texts(blocks), "\n"@)
}

/// The words of a message's content.
pub open spec fn content_text(value: JsonView) -> Seq<char> {
    match value {
        JsonView::Text(t) => t,
        JsonView::Array(blocks) => joined_texts(blocks),
        JsonView::Object(_) => match value.text_field("text"@) {
            Some(t) => t,
            None => ""@,
        },
        _ => ""@,
    }
}

/// A tool's output as text: an object without content of its own, a number and a boolean as JSON.
pub open spec fn output_text(value: JsonView) -> Seq<char>
    decreases value,
{
    match value {
        JsonView::Null => ""@,
        JsonView::Text(t) => t,
        JsonView::Array(blocks) => joined_texts(blocks),
        JsonView::Object(fields) => if fields.dom().contains("content"@) {
            output_text(fields["content"@])
        } else {
            json::json_text(value)
        },
        _ => json::json_text(value),
    }
}

/// A text of one's own, unless it is empty.
pub fn nonempty_owned(text: &str) -> (r: Option<String>)
    ensures
        text::opt_text(r) == (if text@.len() > 0 {
            Some(text@)
        } else {
            None
        }),
{
    if text.is_empty() {
        None
    } else {
        Some(text.to_owned())
    }
}

/// The kind that a block or payload says it is; empty where it says none.
fn kind(value: &serde_json::Value) -> (r: &str)
    ensures
        r@ == kind_of(json::json_contents(*value)),
{
    match text_field(value, "type") {
        Some(k) => k,
        None => "",
    }
}

/// The words in a block of content, where it has any.
pub fn text_from_block(block: &serde_json::Value) -> (r: Option<String>)
    ensures
        text::opt_text(r) == block_text(json::json_contents(*block)),
{
    if let Some(text) = json::value_str(block) {
        return nonempty_owned(text);
    }
    if !json::value_is_object(block) {
        return None;
    }
    let kind = kind(block);
    if same_text(kind, "thinking") || same_text(kind, "reasoning") {
        return None;
    }
    if same_text(kind, "text") || same_text(kind, "input_text") || same_text(kind, "output_text")
        || same_text(kind, "") {
        return match text_field(block, "text") {
            Some(text) => nonempty_owned(text),
            None => None,
        };
    }
    None
}

/// The words in the blocks of a list, in order.
fn texts_of_blocks(blocks: &Vec<serde_json::Value>) -> (r: Vec<String>)
    ensures
        text::texts(r@) == block_texts(json::contents_of(blocks@)),
{
    let mut out: Vec<String> = Vec::new();
    let ghost all = json::contents_of(blocks@);
    assert(text::texts(out@) == block_texts(all.take(0)));
    for i in 0..blocks.len()
        invariant
            all == json::contents_of(blocks@),
            text::texts(out@) == block_texts(all.take(i as int)),
    {
        proof {
            assert(all.take(i + 1).drop_last() == all.take(i as int));
            assert(all.take(i + 1).last() == json::json_contents(blocks@[i as int]));
        }
        let ghost before = out@;
        if let Some(text) = text_from_block(&blocks[i]) {
            out.push(text);
            assert(text::texts(out@) == text::texts(before).push(text@));
        }
    }
    assert(all.take(blocks@.len() as int) == all);
    out
}

/// The words of a message's content.
pub fn flatten_text_content(value: &serde_json::Value) -> (r: String)
    ensures
        r@ == content_text(json::json_contents(*value)),
{
    if let Some(text) = json::value_str(value) {
        return text.to_owned();
    }
    if let Some(blocks) = json::value_items(value) {
        let parts = texts_of_blocks(blocks);
        return join_texts(&parts, "\n");
    }
    match text_field(value, "text") {
        Some(text) => text.to_owned(),
        None => "".to_owned(),
    }
}

/// A tool's output as text.
pub fn flatten_tool_output(value: &serde_json::Value) -> (r: String)
    ensures
        r@ == output_text(json::json_contents(*value)),
    decreases json::json_contents(*value),
{
    if json::value_is_null(value) {
        return "".to_owned();
    }
    if let Some(text) = json::value_str(value) {
        return text.to_owned();
    }
    if let Some(blocks) = json::value_items(value) {
        let parts = texts_of_blocks(blocks);
        return join_texts(&parts, "\n");
    }
    match json::value_get(value, "content") {
        Some(content) => flatten_tool_output(content),
        None => json::value_to_text(value),
    }
}

// ---------------------------------------------------------------------------------------------
// Records with the message inside
// ---------------------------------------------------------------------------------------------

/// The two sides of a conversation.
pub open spec fn is_speaker(role: Seq<char>) -> bool {
    role == "user"@ || role == "assistant"@
}

/// A record with the message inside: one side speaks, under `message`, with content.
pub open spec fn is_claude(record: JsonView) -> bool {
    &&& record.text_field("type"@) matches Some(kind) && is_speaker(kind)
    &&& record.field("message"@) matches Some(message) && {
        &&& message.text_field("role"@) matches Some(role) && is_speaker(role)
        &&& message.field("content"@) is Some
    }
}

/// An id made of a prefix, the record's number and the block's number in it.
pub open spec fn block_id(prefix: Seq<char>, record: nat, block: nat) -> Seq<char> {
    prefix + text::decimal(record) + "_"@ + text::decimal(block)
}

/// The name of a tool that is called; `unknown` where none is given.
pub open spec fn called_name(call: JsonView) -> Seq<char> {
    match call.nonempty_field("name"@) {
        Some(name) => name,
        None => "unknown"@,
    }
}

/// Arguments as an object: one stays what it is, nothing is the empty object, and anything else
/// stands under `key`.
pub open spec fn as_arguments(value: Option<JsonView>, key: Seq<char>) -> JsonView {
    match value {
        None => json::empty_object(),
        Some(JsonView::Null) => json::empty_object(),
        Some(JsonView::Object(fields)) => JsonView::Object(fields),
        Some(other) => json::object_of(key, other),
    }
}

/// The call in a `tool_use` block.
pub open spec fn claude_call(block: JsonView, record: nat, i: nat) -> ToolCallView {
    ToolCallView {
        id: match block.nonempty_field("id"@) {
            Some(id) => id,
            None => block_id("claude_call_"@, record, i),
        },
        name: called_name(block),
        arguments: as_arguments(block.field("input"@), "input"@),
    }
}

/// The result in a `tool_result` block.
pub open spec fn claude_result(block: JsonView, record: nat, i: nat) -> ToolResultView {
    ToolResultView {
        tool_call_id: match block.nonempty_field("tool_use_id"@) {
            Some(id) => id,
            None => match block.nonempty_field("tool_call_id"@) {
                Some(id) => id,
                None => block_id("claude_result_"@, record, i),
            },
        },
        content: match block.field("content"@) {
            Some(content) => output_text(content),
            None => ""@,
        },
        is_error: block.flag("is_error"@),
    }
}

/// The calls in the first `n` blocks of a record.
pub open spec fn claude_calls(blocks: Seq<JsonView>, record: nat, n: nat) -> Seq<ToolCallView>
    decreases n,
{
    if n == 0 {
        Seq::empty()
    } else {
        let i = (n - 1) as nat;
        let before = claude_calls(blocks, record, i);
        let block = blocks[i as int];
        if block is Object && kind_of(block) == "tool_use"@ {
            before.push(claude_call(block, record, i))
        } else {
            before
        }
    }
}

/// The results in the first `n` blocks of a record.
pub open spec fn claude_results(blocks: Seq<JsonView>, record: nat, n: nat) -> Seq<ToolResultView>
    decreases n,
{
    if n == 0 {
        Seq::empty()
    } else {
        let i = (n - 1) as nat;
        let before = claude_results(blocks, record, i);
        let block = blocks[i as int];
        if block is Object && kind_of(block) == "tool_result"@ {
            before.push(claude_result(block, record, i))
        } else {
            before
        }
    }
}

/// The message that one side's content makes.
pub open spec fn claude_spoken(role: Seq<char>, content: JsonView, record: nat) -> MessageView {
    match content {
        JsonView::Array(blocks) => MessageView {
            index: 0,
            role,
            content: joined_texts(blocks),
            tool_calls: claude_calls(blocks, record, blocks.len()),
            tool_results: claude_results(blocks, record, blocks.len()),
        },
        _ => MessageView {
            index: 0,
            role,
            content: content_text(content),
            tool_calls: Seq::empty(),
            tool_results: Seq::empty(),
        },
    }
}

/// The message inside a record; none where it says nothing.
pub open spec fn claude_message(record: JsonView, number: nat) -> Option<MessageView> {
    match record.field("message"@) {
        Some(message) => match (message.text_field("role"@), message.field("content"@)) {
            (Some(role), Some(content)) => {
                let spoken = claude_spoken(role, content, number);
                if is_speaker(role) && session::is_material(spoken) {
                    Some(spoken)
                } else {
                    None
                }
            },
            _ => None,
        },
        None => None,
    }
}

/// Whether a text names one of the two sides of a conversation.
fn speaks(role: &str) -> (r: bool)
    ensures
        r == is_speaker(role@),
{
    same_text(role, "user") || same_text(role, "assistant")
}

/// Whether a record has the message inside.
pub fn is_claude_record(record: &serde_json::Value) -> (r: bool)
    ensures
        r == is_claude(json::json_contents(*record)),
{
    match text_field(record, "type") {
        Some(kind) => if !speaks(kind) {
            return false;
        },
        None => return false,
    }
    match json::value_get(record, "message") {
        Some(message) => match text_field(message, "role") {
            Some(role) => speaks(role) && json::value_get(message, "content").is_some(),
            None => false,
        },
        None => false,
    }
}

/// An id made of a prefix, the record's number and the block's number in it.
fn synthetic_id(prefix: &str, record: usize, block: usize) -> (r: String)
    ensures
        r@ == block_id(prefix@, record as nat, block as nat),
{
    let mut out = prefix.to_owned();
    let a = decimal_text(record as u64);
    let b = decimal_text(block as u64);
    out.append(a.as_str());
    out.append("_");
    out.append(b.as_str());
    out
}

/// The name of a tool that is called; `unknown` where none is given.
pub fn tool_name(call: &serde_json::Value) -> (r: String)
    ensures
        r@ == called_name(json::json_contents(*call)),
{
    match nonempty_string(call, "name") {
        Some(name) => name.to_owned(),
        None => "unknown".to_owned(),
    }
}

/// Arguments as an object, anything that is none under `key`.
fn arguments_of(value: Option<&serde_json::Value>, key: &str) -> (r: serde_json::Value)
    ensures
        json::json_contents(r) == as_arguments(json::opt_contents(value), key@),
{
    match value {
        None => json::value_of_nothing(),
        Some(v) => if json::value_is_null(v) {
            json::value_of_nothing()
        } else if json::value_is_object(v) {
            v.clone()
        } else {
            json::value_of_entry(key, v.clone())
        },
    }
}

/// The call in a `tool_use` block.
pub fn claude_tool_use(block: &serde_json::Value, raw_index: usize, block_index: usize) -> (r:
    ToolCall)
    ensures
        r@ == claude_call(json::json_contents(*block), raw_index as nat, block_index as nat),
{
    let id = match nonempty_string(block, "id") {
        Some(id) => id.to_owned(),
        None => synthetic_id("claude_call_", raw_index, block_index),
    };
    ToolCall {
        id,
        name: tool_name(block),
        arguments: arguments_of(json::value_get(block, "input"), "input"),
    }
}

/// The result in a `tool_result` block.
pub fn claude_tool_result(block: &serde_json::Value, raw_index: usize, block_index: usize) -> (r:
    ToolResult)
    ensures
        r@ == claude_result(json::json_contents(*block), raw_index as nat, block_index as nat),
{
    let tool_call_id = match nonempty_string(block, "tool_use_id") {
        Some(id) => id.to_owned(),
        None => match nonempty_string(block, "tool_call_id") {
            Some(id) => id.to_owned(),
            None => synthetic_id("claude_result_", raw_index, block_index),
        },
    };
    let content = match json::value_get(block, "content") {
        Some(content) => flatten_tool_output(content),
        None => "".to_owned(),
    };
    ToolResult { tool_call_id, content, is_error: flag(block, "is_error") }
}

/// The words, the calls and the results in the blocks of a record.
pub fn decode_claude_blocks(blocks: &Vec<serde_json::Value>, raw_index: usize) -> (r: (
    String,
    Vec<ToolCall>,
    Vec<ToolResult>,
))
    ensures
        r.0@ == joined_texts(json::contents_of(blocks@)),
        session::call_views(r.1@) == claude_calls(
            json::contents_of(blocks@),
            raw_index as nat,
            blocks@.len(),
        ),
        session::result_views(r.2@) == claude_results(
            json::contents_of(blocks@),
            raw_index as nat,
            blocks@.len(),
        ),
{
    let ghost all = json::contents_of(blocks@);
    let mut texts: Vec<String> = Vec::new();
    let mut tool_calls: Vec<ToolCall> = Vec::new();
    let mut tool_results: Vec<ToolResult> = Vec::new();
    assert(text::texts(texts@) == block_texts(all.take(0)));
    assert(session::call_views(tool_calls@) == claude_calls(all, raw_index as nat, 0));
    assert(session::result_views(tool_results@) == claude_results(all, raw_index as nat, 0));
    for i in 0..blocks.len()
        invariant
            all == json::contents_of(blocks@),
            text::texts(texts@) == block_texts(all.take(i as int)),
            session::call_views(tool_calls@) == claude_calls(all, raw_index as nat, i as nat),
            session::result_views(tool_results@) == claude_results(all, raw_index as nat, i as nat),
    {
        let block = &blocks[i];
        let ghost texts_before = texts@;
        let ghost calls_before = tool_calls@;
        let ghost results_before = tool_results@;
        proof {
            assert(all.take(i + 1).drop_last() == all.take(i as int));
            assert(all.take(i + 1).last() == json::json_contents(*block));
            assert(all[i as int] == json::json_contents(*block));
        }
        if let Some(text) = text_from_block(block) {
            texts.push(text);
            assert(text::texts(texts@) == text::texts(texts_before).push(text@));
        }
        if json::value_is_object(block) {
            let kind = kind(block);
            if same_text(kind, "tool_use") {
                let call = claude_tool_use(block, raw_index, i);
                tool_calls.push(call);
                assert(session::call_views(tool_calls@) == session::call_views(calls_before).push(
                    call@,
                ));
            }
            if same_text(kind, "tool_result") {
                let result = claude_tool_result(block, raw_index, i);
                tool_results.push(result);
                assert(session::result_views(tool_results@) == session::result_views(
                    results_before,
                ).push(result@));
            }
        }
    }
    assert(all.take(blocks@.len() as int) == all);
    (join_texts(&texts, "\n"), tool_calls, tool_results)
}

/// The message that one side's content makes.
pub fn decode_claude_content(role: &str, content: &serde_json::Value, raw_index: usize) -> (r:
    SessionMessage)
    ensures
        r@ == claude_spoken(role@, json::json_contents(*content), raw_index as nat),
{
    match json::value_items(content) {
        Some(blocks) => {
            let (content, tool_calls, tool_results) = decode_claude_blocks(blocks, raw_index);
            SessionMessage { index: 0, role: role.to_owned(), content, tool_calls, tool_results }
        },
        None => SessionMessage {
            index: 0,
            role: role.to_owned(),
            content: flatten_text_content(content),
            tool_calls: Vec::new(),
            tool_results: Vec::new(),
        },
    }
}

/// The message inside a record; none where it says nothing.
pub fn decode_claude_record(record: &serde_json::Value, raw_index: usize) -> (r: Option<
    SessionMessage,
>)
    ensures
        opt_message(r) == claude_message(json::json_contents(*record), raw_index as nat),
{
    let message = match json::value_get(record, "message") {
        Some(message) => message,
        None => return None,
    };
    let role = match text_field(message, "role") {
        Some(role) => role,
        None => return None,
    };
    if !speaks(role) {
        return None;
    }
    let content = match json::value_get(message, "content") {
        Some(content) => content,
        None => return None,
    };
    let decoded = decode_claude_content(role, content, raw_index);
    if is_material_message(&decoded) {
        Some(decoded)
    } else {
        None
    }
}

/// The view of an optional message.
pub open spec fn opt_message(message: Option<SessionMessage>) -> Option<MessageView> {
    match message {
        Some(m) => Some(m@),
        None => None,
    }
}

// ---------------------------------------------------------------------------------------------
// Codex records
// ---------------------------------------------------------------------------------------------

/// A record of a Codex rollout that holds an item of the conversation.
pub open spec fn is_codex(record: JsonView) -> bool {
    &&& record.text_field("type"@) == Some("response_item"@)
    &&& record.field("payload"@) matches Some(payload) && payload is Object
}

/// The id of a call; `fallback` where none is given.
pub open spec fn call_id(payload: JsonView, fallback: Seq<char>) -> Seq<char> {
    match payload.nonempty_field("call_id"@) {
        Some(id) => id,
        None => match payload.nonempty_field("id"@) {
            Some(id) => id,
            None => fallback,
        },
    }
}

/// Arguments that were given as a text, by what that text spells: an object stays what it is, any
/// other value stands under `key`, and a text that is no JSON stands under `raw`.
pub open spec fn spelled_arguments(
    raw: Seq<char>,
    parsed: Result<JsonView, Seq<char>>,
    key: Seq<char>,
) -> JsonView {
    match parsed {
        Ok(value) => if value is Object {
            value
        } else {
            json::object_of(key, value)
        },
        Err(_) => json::object_of("raw"@, JsonView::Text(raw)),
    }
}

/// The input of a custom tool that was given as a text, by what that text spells: an object stays
/// what it is, and any other text stands under `input` as it is.
pub open spec fn spelled_input(raw: Seq<char>, parsed: Result<JsonView, Seq<char>>) -> JsonView {
    match parsed {
        Ok(JsonView::Object(fields)) => JsonView::Object(fields),
        _ => json::object_of("input"@, JsonView::Text(raw)),
    }
}

/// The arguments of a function call.
pub open spec fn call_arguments(value: Option<JsonView>) -> JsonView {
    match value {
        Some(JsonView::Text(raw)) => spelled_arguments(raw, json::parsed_text(raw), "value"@),
        other => as_arguments(other, "value"@),
    }
}

/// The arguments of a custom tool call.
pub open spec fn custom_arguments(value: Option<JsonView>) -> JsonView {
    match value {
        Some(JsonView::Text(raw)) => spelled_input(raw, json::parsed_text(raw)),
        other => as_arguments(other, "input"@),
    }
}

/// A payload says that its tool failed.
pub open spec fn says_error(payload: JsonView) -> bool {
    ||| payload.flag("is_error"@)
    ||| payload.text_field("status"@) matches Some(status) && {
        let lower = text::ascii_lowercase(status);
        lower == "error"@ || lower == "failed"@
    }
}

/// The message of an agent that makes one call.
pub open spec fn calling(call: ToolCallView) -> MessageView {
    MessageView {
        index: 0,
        role: "assistant"@,
        content: ""@,
        tool_calls: seq![call],
        tool_results: Seq::empty(),
    }
}

/// The message of a tool that gives one result.
pub open spec fn resulting(result: ToolResultView) -> MessageView {
    MessageView {
        index: 0,
        role: "tool"@,
        content: ""@,
        tool_calls: Seq::empty(),
        tool_results: seq![result],
    }
}

/// The side that a Codex role stands for.
pub open spec fn codex_role(role: Seq<char>) -> Option<Seq<char>> {
    if role == "user"@ {
        Some("user"@)
    } else if role == "assistant"@ || role == "agent"@ {
        Some("assistant"@)
    } else {
        None
    }
}

/// The message of a `message` payload; none where it says nothing.
pub open spec fn codex_spoken(payload: JsonView) -> Option<MessageView> {
    match payload.text_field("role"@) {
        Some(given) => match codex_role(given) {
            Some(role) => {
                let message = MessageView {
                    index: 0,
                    role,
                    content: match payload.field("content"@) {
                        Some(content) => content_text(content),
                        None => ""@,
                    },
                    tool_calls: Seq::empty(),
                    tool_results: Seq::empty(),
                };
                if session::is_material(message) {
                    Some(message)
                } else {
                    None
                }
            },
            None => None,
        },
        None => None,
    }
}

/// The message of a `function_call` payload.
pub open spec fn codex_call(payload: JsonView, record: nat) -> MessageView {
    calling(
        ToolCallView {
            id: call_id(payload, "codex_call_"@ + text::decimal(record)),
            name: called_name(payload),
            arguments: call_arguments(payload.field("arguments"@)),
        },
    )
}

/// The message of a `custom_tool_call` payload.
pub open spec fn codex_custom_call(payload: JsonView, record: nat) -> MessageView {
    calling(
        ToolCallView {
            id: call_id(payload, "codex_custom_call_"@ + text::decimal(record)),
            name: called_name(payload),
            arguments: custom_arguments(payload.field("input"@)),
        },
    )
}

/// The message of a payload that holds a tool's output.
pub open spec fn codex_result(payload: JsonView, record: nat) -> MessageView {
    resulting(
        ToolResultView {
            tool_call_id: call_id(payload, "codex_result_"@ + text::decimal(record)),
            content: match payload.field("output"@) {
                Some(output) => output_text(output),
                None => match payload.field("result"@) {
                    Some(output) => output_text(output),
                    None => ""@,
                },
            },
            is_error: says_error(payload),
        },
    )
}

/// A payload holds a tool's output.
pub open spec fn holds_output(payload: JsonView) -> bool {
    &&& text::has_suffix(kind_of(payload), "_output"@)
    &&& payload.field("output"@) is Some || payload.field("result"@) is Some
}

/// The message of a Codex record; none where it is no part of the conversation or says nothing.
pub open spec fn codex_message(record: JsonView, number: nat) -> Option<MessageView> {
    match record.field("payload"@) {
        Some(payload) => {
            let kind = kind_of(payload);
            if !(payload is Object) || kind == "reasoning"@ {
                None
            } else if kind == "message"@ {
                codex_spoken(payload)
            } else if kind == "function_call"@ {
                Some(codex_call(payload, number))
            } else if kind == "custom_tool_call"@ {
                Some(codex_custom_call(payload, number))
            } else if holds_output(payload) {
                Some(codex_result(payload, number))
            } else {
                None
            }
        },
        None => None,
    }
}

/// Whether a record is one of a Codex rollout that holds an item of the conversation.
pub fn is_codex_record(record: &serde_json::Value) -> (r: bool)
    ensures
        r == is_codex(json::json_contents(*record)),
{
    match text_field(record, "type") {
        Some(kind) => same_text(kind, "response_item") && match json::value_get(record, "payload") {
            Some(payload) => json::value_is_object(payload),
            None => false,
        },
        None => false,
    }
}

/// The id of a call; `fallback` where none is given.
pub fn first_call_id(payload: &serde_json::Value, fallback: String) -> (r: String)
    ensures
        r@ == call_id(json::json_contents(*payload), fallback@),
{
    match nonempty_string(payload, "call_id") {
        Some(id) => id.to_owned(),
        None => match nonempty_string(payload, "id") {
            Some(id) => id.to_owned(),
            None => fallback,
        },
    }
}

/// What a parse gave, as a result of views.
pub open spec fn parse_view(parsed: Result<serde_json::Value, String>) -> Result<
    JsonView,
    Seq<char>,
> {
    match parsed {
        Ok(value) => Ok(json::json_contents(value)),
        Err(problem) => Err(problem@),
    }
}

/// Arguments that were given as a text, by what that text spells.
pub fn arguments_spelled(
    raw: &str,
    parsed: Result<serde_json::Value, String>,
    fallback_key: &str,
) -> (r: serde_json::Value)
    ensures
        json::json_contents(r) == spelled_arguments(raw@, parse_view(parsed), fallback_key@),
{
    match parsed {
        Ok(value) => if json::value_is_object(&value) {
            value
        } else {
            json::value_of_entry(fallback_key, value)
        },
        Err(_) => json::value_of_entry("raw", json::value_of_text(raw)),
    }
}

/// The input of a custom tool that was given as a text, by what that text spells.
pub fn input_spelled(raw: &str, parsed: Result<serde_json::Value, String>) -> (r: serde_json::Value)
    ensures
        json::json_contents(r) == spelled_input(raw@, parse_view(parsed)),
{
    match parsed {
        Ok(value) => if json::value_is_object(&value) {
            value
        } else {
            json::value_of_entry("input", json::value_of_text(raw))
        },
        Err(_) => json::value_of_entry("input", json::value_of_text(raw)),
    }
}

/// Arguments that were given as a text.
pub fn parse_json_arguments(raw: &str, fallback_key: &str) -> (r: serde_json::Value)
    ensures
        json::json_contents(r) == spelled_arguments(raw@, json::parsed_text(raw@), fallback_key@),
{
    arguments_spelled(raw, json::parse_text(raw), fallback_key)
}

/// The arguments of a function call.
pub fn function_call_arguments(value: Option<&serde_json::Value>) -> (r: serde_json::Value)
    ensures
        json::json_contents(r) == call_arguments(json::opt_contents(value)),
{
    if let Some(v) = value {
        if let Some(raw) = json::value_str(v) {
            return parse_json_arguments(raw, "value");
        }
    }
    arguments_of(value, "value")
}

/// The arguments of a custom tool call.
pub fn custom_tool_arguments(value: Option<&serde_json::Value>) -> (r: serde_json::Value)
    ensures
        json::json_contents(r) == custom_arguments(json::opt_contents(value)),
{
    if let Some(v) = value {
        if let Some(raw) = json::value_str(v) {
            return input_spelled(raw, json::parse_text(raw));
        }
    }
    arguments_of(value, "input")
}

/// Whether a payload says that its tool failed.
pub fn payload_is_error(payload: &serde_json::Value) -> (r: bool)
    ensures
        r == says_error(json::json_contents(*payload)),
{
    if flag(payload, "is_error") {
        return true;
    }
    match text_field(payload, "status") {
        Some(status) => {
            let lower = ascii_lowered(status);
            same_text(lower.as_str(), "error") || same_text(lower.as_str(), "failed")
        },
        None => false,
    }
}

/// The message of an agent that makes one call.
fn call_message(call: ToolCall) -> (r: SessionMessage)
    ensures
        r@ == calling(call@),
{
    let mut tool_calls: Vec<ToolCall> = Vec::new();
    tool_calls.push(call);
    SessionMessage {
        index: 0,
        role: "assistant".to_owned(),
        content: "".to_owned(),
        tool_calls,
        tool_results: Vec::new(),
    }
}

/// An id made of a prefix and the record's number.
fn record_id(prefix: &str, record: usize) -> (r: String)
    ensures
        r@ == prefix@ + text::decimal(record as nat),
{
    let digits = decimal_text(record as u64);
    concat(prefix, digits.as_str())
}

/// The message of a `message` payload; none where it says nothing.
pub fn decode_codex_message(payload: &serde_json::Value) -> (r: Option<SessionMessage>)
    ensures
        opt_message(r) == codex_spoken(json::json_contents(*payload)),
{
    let role = match text_field(payload, "role") {
        Some(role) => if same_text(role, "user") {
            "user"
        } else if same_text(role, "assistant") || same_text(role, "agent") {
            "assistant"
        } else {
            return None;
        },
        None => return None,
    };
    let content = match json::value_get(payload, "content") {
        Some(content) => flatten_text_content(content),
        None => "".to_owned(),
    };
    let decoded = SessionMessage {
        index: 0,
        role: role.to_owned(),
        content,
        tool_calls: Vec::new(),
        tool_results: Vec::new(),
    };
    assert(decoded@.tool_calls == Seq::<ToolCallView>::empty());
    assert(decoded@.tool_results == Seq::<ToolResultView>::empty());
    if is_material_message(&decoded) {
        Some(decoded)
    } else {
        None
    }
}

/// The message of a `function_call` payload.
pub fn codex_function_call(payload: &serde_json::Value, raw_index: usize) -> (r: SessionMessage)
    ensures
        r@ == codex_call(json::json_contents(*payload), raw_index as nat),
{
    call_message(
        ToolCall {
            id: first_call_id(payload, record_id("codex_call_", raw_index)),
            name: tool_name(payload),
            arguments: function_call_arguments(json::value_get(payload, "arguments")),
        },
    )
}

/// The message of a `custom_tool_call` payload.
pub fn codex_custom_tool_call(payload: &serde_json::Value, raw_index: usize) -> (r: SessionMessage)
    ensures
        r@ == codex_custom_call(json::json_contents(*payload), raw_index as nat),
{
    call_message(
        ToolCall {
            id: first_call_id(payload, record_id("codex_custom_call_", raw_index)),
            name: tool_name(payload),
            arguments: custom_tool_arguments(json::value_get(payload, "input")),
        },
    )
}

/// The message of a payload that holds a tool's output.
pub fn codex_output(payload: &serde_json::Value, raw_index: usize) -> (r: SessionMessage)
    ensures
        r@ == codex_result(json::json_contents(*payload), raw_index as nat),
{
    let content = match json::value_get(payload, "output") {
        Some(output) => flatten_tool_output(output),
        None => match json::value_get(payload, "result") {
            Some(output) => flatten_tool_output(output),
            None => "".to_owned(),
        },
    };
    let result = ToolResult {
        tool_call_id: first_call_id(payload, record_id("codex_result_", raw_index)),
        content,
        is_error: payload_is_error(payload),
    };
    let mut tool_results: Vec<ToolResult> = Vec::new();
    tool_results.push(result);
    SessionMessage {
        index: 0,
        role: "tool".to_owned(),
        content: "".to_owned(),
        tool_calls: Vec::new(),
        tool_results,
    }
}

/// The message of a Codex record; none where it is no part of the conversation or says nothing.
pub fn decode_codex_record(record: &serde_json::Value, raw_index: usize) -> (r: Option<
    SessionMessage,
>)
    ensures
        opt_message(r) == codex_message(json::json_contents(*record), raw_index as nat),
{
    let payload = match json::value_get(record, "payload") {
        Some(payload) => payload,
        None => return None,
    };
    if !json::value_is_object(payload) {
        return None;
    }
    let kind = kind(payload);
    if same_text(kind, "reasoning") {
        None
    } else if same_text(kind, "message") {
        decode_codex_message(payload)
    } else if same_text(kind, "function_call") {
        Some(codex_function_call(payload, raw_index))
    } else if same_text(kind, "custom_tool_call") {
        Some(codex_custom_tool_call(payload, raw_index))
    } else if ends_with(kind, "_output") && (json::value_get(payload, "output").is_some()
        || json::value_get(payload, "result").is_some()) {
        Some(codex_output(payload, raw_index))
    } else {
        None
    }
}

// ---------------------------------------------------------------------------------------------
// Normalized records
// ---------------------------------------------------------------------------------------------

/// A normalized flat message: an object with a role and content, whatever these hold.
pub open spec fn is_normalized(record: JsonView) -> bool {
    record.field("role"@) is Some && record.field("content"@) is Some
}

/// How a value of another type than expected is reported.
pub open spec fn wrong_type(value: JsonView, expected: Seq<char>) -> Seq<char> {
    json::type_complaint(value) + expected
}

/// How a list of another length than expected is reported.
pub open spec fn wrong_length(length: nat, expected: Seq<char>) -> Seq<char> {
    "invalid length "@ + text::decimal(length) + ", expected "@ + expected
}

/// How a field that is not there is reported.
pub open spec fn missing(field: Seq<char>) -> Seq<char> {
    "missing field `"@ + field + "`"@
}

/// The string that a value is.
pub open spec fn string_said(value: JsonView) -> Result<Seq<char>, Seq<char>> {
    match value {
        JsonView::Text(t) => Ok(t),
        _ => Err(wrong_type(value, "a string"@)),
    }
}

/// A string field that may be missing or `null`, which both stand for the empty string.
pub open spec fn string_or_null(value: Option<JsonView>) -> Result<Seq<char>, Seq<char>> {
    match value {
        None => Ok(""@),
        Some(JsonView::Null) => Ok(""@),
        Some(v) => string_said(v),
    }
}

/// An index field that may be missing, which stands for 0.
pub open spec fn index_or_zero(value: Option<JsonView>) -> Result<nat, Seq<char>> {
    match value {
        None => Ok(0),
        Some(v) => match json::size_in(v) {
            Some(n) => Ok(n),
            None => Err(json::size_complaint(v)),
        },
    }
}

/// What a call in structured form is: an object with its three fields, of which a wrong type comes
/// before a missing field, or a list of them in order.
pub open spec fn structured_call(value: JsonView) -> Result<ToolCallView, Seq<char>> {
    let shape = "struct ToolCall with 3 elements"@;
    match value {
        JsonView::Array(items) => if items.len() < 1 {
            Err(wrong_length(0, shape))
        } else if string_said(items[0]) is Err {
            Err(string_said(items[0])->Err_0)
        } else if items.len() < 2 {
            Err(wrong_length(1, shape))
        } else if string_said(items[1]) is Err {
            Err(string_said(items[1])->Err_0)
        } else if items.len() < 3 {
            Err(wrong_length(2, shape))
        } else if items.len() > 3 {
            Err(wrong_length(items.len(), "fewer elements in array"@))
        } else {
            Ok(
                ToolCallView {
                    id: string_said(items[0])->Ok_0,
                    name: string_said(items[1])->Ok_0,
                    arguments: items[2],
                },
            )
        },
        JsonView::Object(_) => {
            let id = value.field("id"@);
            let name = value.field("name"@);
            let arguments = value.field("arguments"@);
            if id is Some && string_said(id->0) is Err {
                Err(string_said(id->0)->Err_0)
            } else if name is Some && string_said(name->0) is Err {
                Err(string_said(name->0)->Err_0)
            } else if id is None {
                Err(missing("id"@))
            } else if name is None {
                Err(missing("name"@))
            } else if arguments is None {
                Err(missing("arguments"@))
            } else {
                Ok(
                    ToolCallView {
                        id: string_said(id->0)->Ok_0,
                        name: string_said(name->0)->Ok_0,
                        arguments: arguments->0,
                    },
                )
            }
        },
        _ => Err(wrong_type(value, "struct ToolCall"@)),
    }
}

/// What a result in structured form is: an object with its three fields, of which a wrong type
/// comes before a missing field, or a list of them in order.
pub open spec fn structured_result(value: JsonView) -> Result<ToolResultView, Seq<char>> {
    let shape = "struct ToolResult with 3 elements"@;
    match value {
        JsonView::Array(items) => if items.len() < 1 {
            Err(wrong_length(0, shape))
        } else if string_said(items[0]) is Err {
            Err(string_said(items[0])->Err_0)
        } else if items.len() < 2 {
            Err(wrong_length(1, shape))
        } else if string_said(items[1]) is Err {
            Err(string_said(items[1])->Err_0)
        } else if items.len() < 3 {
            Err(wrong_length(2, shape))
        } else if !(items[2] is Bool) {
            Err(wrong_type(items[2], "a boolean"@))
        } else if items.len() > 3 {
            Err(wrong_length(items.len(), "fewer elements in array"@))
        } else {
            Ok(
                ToolResultView {
                    tool_call_id: string_said(items[0])->Ok_0,
                    content: string_said(items[1])->Ok_0,
                    is_error: items[2]->Bool_0,
                },
            )
        },
        JsonView::Object(_) => {
            let content = value.field("content"@);
            let is_error = value.field("is_error"@);
            let id = value.field("tool_call_id"@);
            if content is Some && string_said(content->0) is Err {
                Err(string_said(content->0)->Err_0)
            } else if is_error is Some && !(is_error->0 is Bool) {
                Err(wrong_type(is_error->0, "a boolean"@))
            } else if id is Some && string_said(id->0) is Err {
                Err(string_said(id->0)->Err_0)
            } else if id is None {
                Err(missing("tool_call_id"@))
            } else if content is None {
                Err(missing("content"@))
            } else if is_error is None {
                Err(missing("is_error"@))
            } else {
                Ok(
                    ToolResultView {
                        tool_call_id: string_said(id->0)->Ok_0,
                        content: string_said(content->0)->Ok_0,
                        is_error: is_error->0->Bool_0,
                    },
                )
            }
        },
        _ => Err(wrong_type(value, "struct ToolResult"@)),
    }
}

/// What the first `n` calls of a list are, or the first problem in them.
pub open spec fn calls_said(items: Seq<JsonView>, n: nat) -> Result<Seq<ToolCallView>, Seq<char>>
    decreases n,
{
    if n == 0 {
        Ok(Seq::empty())
    } else {
        match calls_said(items, (n - 1) as nat) {
            Err(problem) => Err(problem),
            Ok(before) => match structured_call(items[n - 1]) {
                Err(problem) => Err(problem),
                Ok(call) => Ok(before.push(call)),
            },
        }
    }
}

/// What the first `n` results of a list are, or the first problem in them.
pub open spec fn results_said(items: Seq<JsonView>, n: nat) -> Result<
    Seq<ToolResultView>,
    Seq<char>,
>
    decreases n,
{
    if n == 0 {
        Ok(Seq::empty())
    } else {
        match results_said(items, (n - 1) as nat) {
            Err(problem) => Err(problem),
            Ok(before) => match structured_result(items[n - 1]) {
                Err(problem) => Err(problem),
                Ok(result) => Ok(before.push(result)),
            },
        }
    }
}

/// A list of calls that may be missing, which stands for the empty list.
pub open spec fn structured_calls(value: Option<JsonView>) -> Result<
    Seq<ToolCallView>,
    Seq<char>,
> {
    match value {
        None => Ok(Seq::empty()),
        Some(JsonView::Array(items)) => calls_said(items, items.len()),
        Some(v) => Err(wrong_type(v, "a sequence"@)),
    }
}

/// A list of results that may be missing, which stands for the empty list.
pub open spec fn structured_results(value: Option<JsonView>) -> Result<
    Seq<ToolResultView>,
    Seq<char>,
> {
    match value {
        None => Ok(Seq::empty()),
        Some(JsonView::Array(items)) => results_said(items, items.len()),
        Some(v) => Err(wrong_type(v, "a sequence"@)),
    }
}

/// The message that a normalized record is, or how the first field of the wrong type, by name, is
/// reported.
pub open spec fn normalized_message(record: JsonView) -> Result<MessageView, Seq<char>> {
    match string_or_null(record.field("content"@)) {
        Err(problem) => Err(problem),
        Ok(content) => match index_or_zero(record.field("index"@)) {
            Err(problem) => Err(problem),
            Ok(index) => match string_or_null(record.field("role"@)) {
                Err(problem) => Err(problem),
                Ok(role) => match structured_calls(record.field("tool_calls"@)) {
                    Err(problem) => Err(problem),
                    Ok(tool_calls) => match structured_results(record.field("tool_results"@)) {
                        Err(problem) => Err(problem),
                        Ok(tool_results) => Ok(
                            MessageView { index, role, content, tool_calls, tool_results },
                        ),
                    },
                },
            },
        },
    }
}

/// Whether a record is a normalized flat message.
pub fn is_normalized_record(record: &serde_json::Value) -> (r: bool)
    ensures
        r == is_normalized(json::json_contents(*record)),
{
    json::value_get(record, "role").is_some() && json::value_get(record, "content").is_some()
}

/// How a list of another length than expected is reported.
fn length_problem(length: usize, expected: &str) -> (r: String)
    ensures
        r@ == wrong_length(length as nat, expected@),
{
    let mut out = "invalid length ".to_owned();
    let digits = decimal_text(length as u64);
    out.append(digits.as_str());
    out.append(", expected ");
    out.append(expected);
    out
}

/// How a field that is not there is reported.
fn missing_problem(field: &str) -> (r: String)
    ensures
        r@ == missing(field@),
{
    let mut out = "missing field `".to_owned();
    out.append(field);
    out.append("`");
    out
}

/// The string that a value is.
fn read_string(value: &serde_json::Value) -> (r: Result<String, String>)
    ensures
        match r {
            Ok(t) => string_said(json::json_contents(*value)) == Ok::<Seq<char>, Seq<char>>(t@),
            Err(problem) => string_said(json::json_contents(*value)) == Err::<
                Seq<char>,
                Seq<char>,
            >(problem@),
        },
{
    match json::value_str(value) {
        Some(t) => Ok(t.to_owned()),
        None => Err(json::complaint(value, "a string")),
    }
}

/// The truth value that a value is.
fn read_flag(value: &serde_json::Value) -> (r: Result<bool, String>)
    ensures
        match r {
            Ok(b) => json::json_contents(*value) == JsonView::Bool(b),
            Err(problem) => !(json::json_contents(*value) is Bool) && problem@ == wrong_type(
                json::json_contents(*value),
                "a boolean"@,
            ),
        },
{
    match json::value_bool(value) {
        Some(b) => Ok(b),
        None => Err(json::complaint(value, "a boolean")),
    }
}

/// A string field that may be missing or `null`, which both stand for the empty string. Some
/// messages, tool-only turns among them, carry no words, and some carry no role.
pub fn de_string_or_null(value: Option<&serde_json::Value>) -> (r: Result<String, String>)
    ensures
        match r {
            Ok(t) => string_or_null(json::opt_contents(value)) == Ok::<Seq<char>, Seq<char>>(t@),
            Err(problem) => string_or_null(json::opt_contents(value)) == Err::<
                Seq<char>,
                Seq<char>,
            >(problem@),
        },
{
    match value {
        None => Ok("".to_owned()),
        Some(v) => if json::value_is_null(v) {
            Ok("".to_owned())
        } else {
            read_string(v)
        },
    }
}

/// An index field that may be missing, which stands for 0.
fn read_index(value: Option<&serde_json::Value>) -> (r: Result<usize, String>)
    ensures
        match r {
            Ok(n) => index_or_zero(json::opt_contents(value)) == Ok::<nat, Seq<char>>(n as nat),
            Err(problem) => index_or_zero(json::opt_contents(value)) == Err::<nat, Seq<char>>(
                problem@,
            ),
        },
{
    match value {
        None => Ok(0),
        Some(v) => json::read_size(v),
    }
}

/// The view of a call that was read.
pub open spec fn call_read(r: Result<ToolCall, String>) -> Result<ToolCallView, Seq<char>> {
    match r {
        Ok(call) => Ok(call@),
        Err(problem) => Err(problem@),
    }
}

/// The view of a result that was read.
pub open spec fn result_read(r: Result<ToolResult, String>) -> Result<ToolResultView, Seq<char>> {
    match r {
        Ok(result) => Ok(result@),
        Err(problem) => Err(problem@),
    }
}

/// A call in the form of a list.
fn read_call_list(items: &Vec<serde_json::Value>) -> (r: Result<ToolCall, String>)
    ensures
        call_read(r) == structured_call(JsonView::Array(json::contents_of(items@))),
{
    let shape = "struct ToolCall with 3 elements";
    if items.len() < 1 {
        return Err(length_problem(0, shape));
    }
    let id = match read_string(&items[0]) {
        Ok(id) => id,
        Err(problem) => return Err(problem),
    };
    if items.len() < 2 {
        return Err(length_problem(1, shape));
    }
    let name = match read_string(&items[1]) {
        Ok(name) => name,
        Err(problem) => return Err(problem),
    };
    if items.len() < 3 {
        return Err(length_problem(2, shape));
    }
    if items.len() > 3 {
        return Err(length_problem(items.len(), "fewer elements in array"));
    }
    Ok(ToolCall { id, name, arguments: items[2].clone() })
}

/// A call in structured form.
fn read_call(value: &serde_json::Value) -> (r: Result<ToolCall, String>)
    ensures
        call_read(r) == structured_call(json::json_contents(*value)),
{
    if let Some(items) = json::value_items(value) {
        return read_call_list(items);
    }
    if !json::value_is_object(value) {
        return Err(json::complaint(value, "struct ToolCall"));
    }
    let id = match json::value_get(value, "id") {
        Some(v) => match read_string(v) {
            Ok(id) => Some(id),
            Err(problem) => return Err(problem),
        },
        None => None,
    };
    let name = match json::value_get(value, "name") {
        Some(v) => match read_string(v) {
            Ok(name) => Some(name),
            Err(problem) => return Err(problem),
        },
        None => None,
    };
    match (id, name, json::value_get(value, "arguments")) {
        (Some(id), Some(name), Some(arguments)) => Ok(
            ToolCall { id, name, arguments: arguments.clone() },
        ),
        (None, _, _) => Err(missing_problem("id")),
        (_, None, _) => Err(missing_problem("name")),
        (_, _, None) => Err(missing_problem("arguments")),
    }
}

/// A result in the form of a list.
fn read_result_list(items: &Vec<serde_json::Value>) -> (r: Result<ToolResult, String>)
    ensures
        result_read(r) == structured_result(JsonView::Array(json::contents_of(items@))),
{
    let shape = "struct ToolResult with 3 elements";
    if items.len() < 1 {
        return Err(length_problem(0, shape));
    }
    let tool_call_id = match read_string(&items[0]) {
        Ok(id) => id,
        Err(problem) => return Err(problem),
    };
    if items.len() < 2 {
        return Err(length_problem(1, shape));
    }
    let content = match read_string(&items[1]) {
        Ok(content) => content,
        Err(problem) => return Err(problem),
    };
    if items.len() < 3 {
        return Err(length_problem(2, shape));
    }
    let is_error = match read_flag(&items[2]) {
        Ok(is_error) => is_error,
        Err(problem) => return Err(problem),
    };
    if items.len() > 3 {
        return Err(length_problem(items.len(), "fewer elements in array"));
    }
    Ok(ToolResult { tool_call_id, content, is_error })
}

/// A result in structured form.
fn read_result(value: &serde_json::Value) -> (r: Result<ToolResult, String>)
    ensures
        result_read(r) == structured_result(json::json_contents(*value)),
{
    if let Some(items) = json::value_items(value) {
        return read_result_list(items);
    }
    if !json::value_is_object(value) {
        return Err(json::complaint(value, "struct ToolResult"));
    }
    let content = match json::value_get(value, "content") {
        Some(v) => match read_string(v) {
            Ok(content) => Some(content),
            Err(problem) => return Err(problem),
        },
        None => None,
    };
    let is_error = match json::value_get(value, "is_error") {
        Some(v) => match read_flag(v) {
            Ok(is_error) => Some(is_error),
            Err(problem) => return Err(problem),
        },
        None => None,
    };
    let tool_call_id = match json::value_get(value, "tool_call_id") {
        Some(v) => match read_string(v) {
            Ok(id) => Some(id),
            Err(problem) => return Err(problem),
        },
        None => None,
    };
    match (tool_call_id, content, is_error) {
        (Some(tool_call_id), Some(content), Some(is_error)) => Ok(
            ToolResult { tool_call_id, content, is_error },
        ),
        (None, _, _) => Err(missing_problem("tool_call_id")),
        (_, None, _) => Err(missing_problem("content")),
        (_, _, None) => Err(missing_problem("is_error")),
    }
}

/// A problem in an early call is the problem of every longer list.
proof fn call_problem_stays(items: Seq<JsonView>, n: nat, m: nat)
    requires
        n <= m,
        calls_said(items, n) is Err,
    ensures
        calls_said(items, m) == calls_said(items, n),
    decreases m,
{
    if n < m {
        call_problem_stays(items, n, (m - 1) as nat);
    }
}

/// A problem in an early result is the problem of every longer list.
proof fn result_problem_stays(items: Seq<JsonView>, n: nat, m: nat)
    requires
        n <= m,
        results_said(items, n) is Err,
    ensures
        results_said(items, m) == results_said(items, n),
    decreases m,
{
    if n < m {
        result_problem_stays(items, n, (m - 1) as nat);
    }
}

/// A list of calls that may be missing, which stands for the empty list.
fn read_calls(value: Option<&serde_json::Value>) -> (r: Result<Vec<ToolCall>, String>)
    ensures
        match r {
            Ok(calls) => structured_calls(json::opt_contents(value)) == Ok::<
                Seq<ToolCallView>,
                Seq<char>,
            >(session::call_views(calls@)),
            Err(problem) => structured_calls(json::opt_contents(value)) == Err::<
                Seq<ToolCallView>,
                Seq<char>,
            >(problem@),
        },
{
    let mut out: Vec<ToolCall> = Vec::new();
    assert(session::call_views(out@) == Seq::<ToolCallView>::empty());
    let v = match value {
        Some(v) => v,
        None => return Ok(out),
    };
    let items = match json::value_items(v) {
        Some(items) => items,
        None => return Err(json::complaint(v, "a sequence")),
    };
    let ghost all = json::contents_of(items@);
    for i in 0..items.len()
        invariant
            all == json::contents_of(items@),
            json::json_contents(*v) == JsonView::Array(all),
            value == Some(v),
            calls_said(all, i as nat) == Ok::<Seq<ToolCallView>, Seq<char>>(
                session::call_views(out@),
            ),
    {
        match read_call(&items[i]) {
            Ok(call) => {
                let ghost before = out@;
                out.push(call);
                assert(session::call_views(out@) == session::call_views(before).push(call@));
            },
            Err(problem) => {
                proof {
                    call_problem_stays(all, (i + 1) as nat, all.len());
                }
                return Err(problem);
            },
        }
    }
    Ok(out)
}

/// A list of results that may be missing, which stands for the empty list.
fn read_results(value: Option<&serde_json::Value>) -> (r: Result<Vec<ToolResult>, String>)
    ensures
        match r {
            Ok(results) => structured_results(json::opt_contents(value)) == Ok::<
                Seq<ToolResultView>,
                Seq<char>,
            >(session::result_views(results@)),
            Err(problem) => structured_results(json::opt_contents(value)) == Err::<
                Seq<ToolResultView>,
                Seq<char>,
            >(problem@),
        },
{
    let mut out: Vec<ToolResult> = Vec::new();
    assert(session::result_views(out@) == Seq::<ToolResultView>::empty());
    let v = match value {
        Some(v) => v,
        None => return Ok(out),
    };
    let items = match json::value_items(v) {
        Some(items) => items,
        None => return Err(json::complaint(v, "a sequence")),
    };
    let ghost all = json::contents_of(items@);
    for i in 0..items.len()
        invariant
            all == json::contents_of(items@),
            json::json_contents(*v) == JsonView::Array(all),
            value == Some(v),
            results_said(all, i as nat) == Ok::<Seq<ToolResultView>, Seq<char>>(
                session::result_views(out@),
            ),
    {
        match read_result(&items[i]) {
            Ok(result) => {
                let ghost before = out@;
                out.push(result);
                assert(session::result_views(out@) == session::result_views(before).push(result@));
            },
            Err(problem) => {
                proof {
                    result_problem_stays(all, (i + 1) as nat, all.len());
                }
                return Err(problem);
            },
        }
    }
    Ok(out)
}

/// The message that a normalized record is, or a report on the first field, by name, whose value
/// has the wrong type.
pub fn decode_normalized_record(record: &serde_json::Value) -> (r: Result<SessionMessage, String>)
    ensures
        match r {
            Ok(message) => normalized_message(json::json_contents(*record)) == Ok::<
                MessageView,
                Seq<char>,
            >(message@),
            Err(problem) => normalized_message(json::json_contents(*record)) == Err::<
                MessageView,
                Seq<char>,
            >(problem@),
        },
{
    let content = match de_string_or_null(json::value_get(record, "content")) {
        Ok(content) => content,
        Err(problem) => return Err(problem),
    };
    let index = match read_index(json::value_get(record, "index")) {
        Ok(index) => index,
        Err(problem) => return Err(problem),
    };
    let role = match de_string_or_null(json::value_get(record, "role")) {
        Ok(role) => role,
        Err(problem) => return Err(problem),
    };
    let tool_calls = match read_calls(json::value_get(record, "tool_calls")) {
        Ok(calls) => calls,
        Err(problem) => return Err(problem),
    };
    let tool_results = match read_results(json::value_get(record, "tool_results")) {
        Ok(results) => results,
        Err(problem) => return Err(problem),
    };
    Ok(SessionMessage { index, role, content, tool_calls, tool_results })
}

// ---------------------------------------------------------------------------------------------
// Exports
// ---------------------------------------------------------------------------------------------

/// The message of a record, by the shape of the record; none where it is no message. A normalized
/// record is a message or an error.
pub open spec fn record_message(record: JsonView, number: nat) -> Result<
    Option<MessageView>,
    Seq<char>,
> {
    if is_normalized(record) {
        match normalized_message(record) {
            Ok(message) => Ok(Some(message)),
            Err(problem) => Err(problem),
        }
    } else if is_claude(record) {
        Ok(claude_message(record, number))
    } else if is_codex(record) {
        Ok(codex_message(record, number))
    } else {
        Ok(None)
    }
}

/// A message as its record gives it, and whether that record is a normalized one.
#[verifier::ext_equal]
pub ghost struct RawView {
    pub message: MessageView,
    pub normalized: bool,
}

/// The messages of the first `n` records of an export, or the first problem in them.
pub open spec fn raw_messages(records: Seq<JsonView>, n: nat) -> Result<Seq<RawView>, Seq<char>>
    decreases n,
{
    if n == 0 {
        Ok(Seq::empty())
    } else {
        let i = (n - 1) as nat;
        match raw_messages(records, i) {
            Err(problem) => Err(problem),
            Ok(before) => match record_message(records[i as int], i) {
                Err(problem) => Err(problem),
                Ok(Some(message)) => Ok(
                    before.push(RawView { message, normalized: is_normalized(records[i as int]) }),
                ),
                Ok(None) => Ok(before),
            },
        }
    }
}

/// The messages alone.
pub open spec fn messages_of(raw: Seq<RawView>) -> Seq<MessageView> {
    Seq::new(raw.len(), |i: int| raw[i].message)
}

/// A message as the `index`-th of its session: it knows its place, and where it comes from a
/// normalized record and has no structured call it has those that its inline markers stand for.
pub open spec fn placed(raw: RawView, index: nat) -> MessageView {
    MessageView {
        index,
        role: raw.message.role,
        content: raw.message.content,
        tool_calls: if raw.normalized && raw.message.tool_calls.len() == 0 {
            markers::inline_calls(raw.message.content, index, 0)
        } else {
            raw.message.tool_calls
        },
        tool_results: raw.message.tool_results,
    }
}

/// The messages of a session, each in its place.
pub open spec fn all_placed(raw: Seq<RawView>) -> Seq<MessageView> {
    Seq::new(raw.len(), |i: int| placed(raw[i], i as nat))
}

/// A message of a list says something.
pub open spec fn any_material(messages: Seq<MessageView>) -> bool {
    exists|i: int| 0 <= i < messages.len() && session::is_material(#[trigger] messages[i])
}

/// The session that the records of an export are.
pub open spec fn session_of_records(records: Seq<JsonView>) -> Result<
    Seq<MessageView>,
    ExportErrorView,
> {
    match raw_messages(records, records.len()) {
        Err(problem) => Err(ExportErrorView::Json(problem)),
        Ok(raw) => if any_material(messages_of(raw)) {
            Ok(all_placed(raw))
        } else {
            Err(ExportErrorView::NoSupportedMessages { record_count: records.len() })
        },
    }
}

/// The session that an export is, by what its bytes spell.
pub open spec fn session_of_parsed(parsed: Result<Seq<JsonView>, Seq<char>>) -> Result<
    Seq<MessageView>,
    ExportErrorView,
> {
    match parsed {
        Ok(records) => session_of_records(records),
        Err(problem) => Err(ExportErrorView::Json(problem)),
    }
}

/// What decoding gave, as a result of views.
pub open spec fn export_view(r: Result<Vec<SessionMessage>, CassExportDecodeError>) -> Result<
    Seq<MessageView>,
    ExportErrorView,
> {
    match r {
        Ok(messages) => Ok(session::message_views(messages@)),
        Err(error) => Err(error@),
    }
}

/// The message of a record, by the shape of the record; none where it is no message.
pub fn decode_record(record: &serde_json::Value, raw_index: usize) -> (r: Result<
    Option<SessionMessage>,
    CassExportDecodeError,
>)
    ensures
        match r {
            Ok(message) => record_message(json::json_contents(*record), raw_index as nat) == Ok::<
                Option<MessageView>,
                Seq<char>,
            >(opt_message(message)),
            Err(error) => {
                &&& error@ is Json
                &&& record_message(json::json_contents(*record), raw_index as nat) == Err::<
                    Option<MessageView>,
                    Seq<char>,
                >(error@->Json_0)
            },
        },
{
    if is_normalized_record(record) {
        return match decode_normalized_record(record) {
            Ok(message) => Ok(Some(message)),
            Err(problem) => Err(CassExportDecodeError::Json(problem)),
        };
    }
    if is_claude_record(record) {
        return Ok(decode_claude_record(record, raw_index));
    }
    if is_codex_record(record) {
        return Ok(decode_codex_record(record, raw_index));
    }
    Ok(None)
}

/// A message as the `index`-th of its session.
fn place(message: SessionMessage, index: usize, normalized: bool) -> (r: SessionMessage)
    ensures
        r@ == placed(RawView { message: message@, normalized }, index as nat),
{
    let SessionMessage { index: _, role, content, tool_calls, tool_results } = message;
    let tool_calls = if normalized && tool_calls.len() == 0 {
        parse_inline_tool_markers(content.as_str(), index)
    } else {
        tool_calls
    };
    SessionMessage { index, role, content, tool_calls, tool_results }
}

/// A list with one more message says something where the list or that message does.
proof fn one_more_message(before: Seq<MessageView>, message: MessageView)
    ensures
        any_material(before.push(message)) == (any_material(before) || session::is_material(
            message,
        )),
{
    let all = before.push(message);
    if any_material(before) {
        let k = choose|k: int|
            0 <= k < before.len() && session::is_material(#[trigger] before[k]);
        assert(session::is_material(all[k]));
    }
    if session::is_material(message) {
        assert(session::is_material(all[before.len() as int]));
    }
    if any_material(all) {
        let k = choose|k: int| 0 <= k < all.len() && session::is_material(#[trigger] all[k]);
        if k < before.len() {
            assert(session::is_material(before[k]));
        }
    }
}

/// A problem in an early record is the problem of every longer prefix.
proof fn problem_stays(records: Seq<JsonView>, n: nat, m: nat)
    requires
        n <= m,
        raw_messages(records, n) is Err,
    ensures
        raw_messages(records, m) == raw_messages(records, n),
    decreases m,
{
    if n < m {
        problem_stays(records, n, (m - 1) as nat);
    }
}

/// The session that the records of an export are.
pub fn decode_records(records: &Vec<serde_json::Value>) -> (r: Result<
    Vec<SessionMessage>,
    CassExportDecodeError,
>)
    ensures
        export_view(r) == session_of_records(json::contents_of(records@)),
{
    let ghost all = json::contents_of(records@);
    let ghost mut raw: Seq<RawView> = Seq::empty();
    let mut messages: Vec<SessionMessage> = Vec::new();
    let mut material = false;
    assert(session::message_views(messages@) == all_placed(raw));
    for i in 0..records.len()
        invariant
            all == json::contents_of(records@),
            raw_messages(all, i as nat) == Ok::<Seq<RawView>, Seq<char>>(raw),
            raw.len() <= i,
            session::message_views(messages@) == all_placed(raw),
            material == any_material(messages_of(raw)),
    {
        match decode_record(&records[i], i) {
            Ok(Some(message)) => {
                let says = is_material_message(&message);
                let normalized = is_normalized_record(&records[i]);
                let place_at: usize = messages.len();
                let ghost before = raw;
                let ghost held = messages@;
                proof {
                    assert(session::message_views(held).len() == all_placed(before).len());
                    raw = raw.push(RawView { message: message@, normalized });
                    assert(messages_of(raw) == messages_of(before).push(message@));
                    one_more_message(messages_of(before), message@);
                }
                messages.push(place(message, place_at, normalized));
                proof {
                    assert(session::message_views(messages@) == session::message_views(held).push(
                        messages@.last()@,
                    ));
                    assert(all_placed(raw) == all_placed(before).push(
                        placed(raw.last(), before.len()),
                    ));
                }
                if says {
                    material = true;
                }
            },
            Ok(None) => {},
            Err(error) => {
                proof {
                    problem_stays(all, (i + 1) as nat, all.len());
                }
                return Err(error);
            },
        }
    }
    if material {
        Ok(messages)
    } else {
        Err(CassExportDecodeError::NoSupportedMessages { record_count: records.len() })
    }
}

/// Decodes a JSON session export into the messages of the session.
pub fn decode_cass_export(bytes: &[u8]) -> (r: Result<Vec<SessionMessage>, CassExportDecodeError>)
    ensures
        export_view(r) == session_of_parsed(json::parsed_array(bytes@)),
{
    match json::parse_array(bytes) {
        Ok(records) => decode_records(&records),
        Err(problem) => Err(CassExportDecodeError::Json(problem)),
    }
}

/// How an export error is worded.
pub open spec fn error_words(error: ExportErrorView) -> Seq<char> {
    match error {
        ExportErrorView::Json(problem) => "invalid cass export JSON: "@ + problem,
        ExportErrorView::NoSupportedMessages { record_count } => "cass export contained "@
            + text::decimal(record_count)
            + " records but no supported conversation messages"@,
    }
}

impl CassExportDecodeError {
    /// How the error is worded.
    pub fn message(&self) -> (r: String)
        ensures
            r@ == error_words(self@),
    {
        match self {
            CassExportDecodeError::Json(problem) => concat(
                "invalid cass export JSON: ",
                problem.as_str(),
            ),
            CassExportDecodeError::NoSupportedMessages { record_count } => {
                let mut out = "cass export contained ".to_owned();
                let count = decimal_text(*record_count as u64);
                out.append(count.as_str());
                out.append(" records but no supported conversation messages");
                out
            },
        }
    }
}

} // verus!
