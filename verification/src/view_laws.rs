//! What the values of the library are said to be, field by field.

use crate::cass::command::{CommandRun, EventView, RunEvent};
use crate::cass::decode::{CassExportDecodeError, ExportErrorView};
use crate::cass::session;
use crate::cass::session::{SessionMessage, SessionMetadata, ToolCall, ToolResult};
use crate::error::{ErrorView, MsError};
use crate::json;
use crate::json::JsonView;
use crate::storage::embedding::EmbeddingRecord;
use crate::storage::quality::SessionQualityRecord;
use crate::storage::row::{RowError, RowErrorView};
use crate::storage::security::{CommandSafetyEvent, QuarantineRecord};
use crate::storage::statement::{SqlValue, Statement, ValueView};
use crate::storage::tx::TxRecord;
use vstd::prelude::*;

verus! {

/// A call, a result and a message are their fields.
pub proof fn message_is_its_fields(
    message: SessionMessage,
    call: ToolCall,
    result: ToolResult,
    i: int,
)
    ensures
        call@.id == call.id@ && call@.name == call.name@ && call@.arguments
            == json::json_contents(call.arguments),
        result@.tool_call_id == result.tool_call_id@ && result@.content == result.content@
            && result@.is_error == result.is_error,
        message@.index == message.index && message@.role == message.role@ && message@.content
            == message.content@,
        message@.tool_calls.len() == message.tool_calls@.len(),
        0 <= i < message.tool_calls@.len() ==> message@.tool_calls[i] == message.tool_calls@[i]@,
        message@.tool_results.len() == message.tool_results@.len(),
        0 <= i < message.tool_results@.len() ==> message@.tool_results[i]
            == message.tool_results@[i]@,
{
}

/// The messages of a list are said one by one.
pub proof fn messages_are_said_one_by_one(messages: Seq<SessionMessage>, i: int)
    ensures
        session::message_views(messages).len() == messages.len(),
        0 <= i < messages.len() ==> session::message_views(messages)[i] == messages[i]@,
{
}

/// Metadata of which nothing is known have nothing in any field.
pub proof fn unknown_metadata_are_empty(metadata: SessionMetadata)
    ensures
        session::is_unknown(metadata) <==> {
            &&& metadata.project is None && metadata.agent is None && metadata.model is None
            &&& metadata.started_at is None && metadata.ended_at is None
            &&& metadata.message_count == 0
            &&& metadata.token_count is None
            &&& metadata.tags@ == Seq::<String>::empty()
        },
{
    if metadata.tags@.len() == 0 {
        assert(metadata.tags@ =~= Seq::<String>::empty());
    }
}

/// An error is of its kind, with its text.
pub proof fn error_is_its_kind_and_text(error: MsError)
    ensures
        match error {
            MsError::CassUnavailable(t) => error@ == ErrorView::CassUnavailable(t@),
            MsError::SkillNotFound(t) => error@ == ErrorView::SkillNotFound(t@),
            MsError::TransactionFailed(t) => error@ == ErrorView::TransactionFailed(t@),
            MsError::MiningFailed(t) => error@ == ErrorView::MiningFailed(t@),
            MsError::Database(t) => error@ == ErrorView::Database(t@),
            MsError::Serialization(t) => error@ == ErrorView::Serialization(t@),
            MsError::Config(t) => error@ == ErrorView::Config(t@),
            MsError::NotFound(t) => error@ == ErrorView::NotFound(t@),
            MsError::Io(t) => error@ == ErrorView::Io(t@),
        },
{
}

/// The error of an export and that of a row are of their kinds, with what they say.
pub proof fn small_errors_are_what_they_say(export: CassExportDecodeError, row: RowError)
    ensures
        match export {
            CassExportDecodeError::Json(t) => export@ == ExportErrorView::Json(t@),
            CassExportDecodeError::NoSupportedMessages { record_count } => export@
                == (ExportErrorView::NoSupportedMessages { record_count: record_count as nat }),
        },
        match row {
            RowError::NoSuchColumn(i) => row@ == RowErrorView::NoSuchColumn(i as nat),
            RowError::TypeMismatch { expected, actual } => row@ == (RowErrorView::TypeMismatch {
                expected: expected@,
                actual: actual@,
            }),
        },
{
}

/// A value is of its type, and a statement is its text and its values.
pub proof fn value_is_of_its_type(value: SqlValue, statement: Statement, i: int)
    ensures
        match value {
            SqlValue::Null => value@ == ValueView::Null,
            SqlValue::Integer(n) => value@ == ValueView::Integer(n),
            SqlValue::Real(bits) => value@ == ValueView::Real(bits),
            SqlValue::Text(t) => value@ == ValueView::Text(t@),
            SqlValue::Blob(b) => value@ == ValueView::Blob(b@),
        },
        statement@.sql == statement.sql@,
        statement@.params.len() == statement.params@.len(),
        0 <= i < statement.params@.len() ==> statement@.params[i] == statement.params@[i]@,
{
}

/// A transaction, an embedding and the quality of a session are their fields.
pub proof fn record_is_its_fields(
    tx: TxRecord,
    embedding: EmbeddingRecord,
    quality: SessionQualityRecord,
    i: int,
)
    ensures
        tx@.id == tx.id@ && tx@.entity_type == tx.entity_type@ && tx@.entity_id == tx.entity_id@,
        tx@.phase == tx.phase && tx@.payload_json == tx.payload_json@,
        tx@.created_at.0 == tx.created_at.seconds && tx@.created_at.1 == tx.created_at.nanos,
        embedding@.skill_id == embedding.skill_id@ && embedding@.embedding
            == embedding.embedding@,
        embedding@.dims == embedding.dims && embedding@.embedder_type == embedding.embedder_type@,
        match embedding.content_hash {
            Some(t) => embedding@.content_hash == Some(t@),
            None => embedding@.content_hash is None,
        },
        embedding@.computed_at == embedding.computed_at@,
        quality@.session_id == quality.session_id@ && quality@.content_hash
            == quality.content_hash@,
        quality@.score == quality.score && quality@.computed_at == quality.computed_at@,
        quality@.signals.len() == quality.signals@.len(),
        0 <= i < quality.signals@.len() ==> quality@.signals[i] == quality.signals@[i]@,
        quality@.missing.len() == quality.missing@.len(),
        0 <= i < quality.missing@.len() ==> quality@.missing[i] == quality.missing@[i]@,
{
}

/// Something in quarantine and a judgement are their fields.
pub proof fn safety_record_is_its_fields(record: QuarantineRecord, event: CommandSafetyEvent)
    ensures
        record@.quarantine_id == record.quarantine_id@ && record@.session_id
            == record.session_id@,
        record@.message_index == record.message_index && record@.content_hash
            == record.content_hash@,
        record@.safe_excerpt == record.safe_excerpt@ && record@.acip_classification
            == record.acip_classification@,
        match record.audit_tag {
            Some(t) => record@.audit_tag == Some(t@),
            None => record@.audit_tag is None,
        },
        record@.created_at == record.created_at@ && record@.replay_command
            == record.replay_command@,
        match event.session_id {
            Some(t) => event@.session_id == Some(t@),
            None => event@.session_id is None,
        },
        event@.command == event.command@ && event@.decision == event.decision@
            && event@.created_at == event.created_at@,
        match event.dcg_version {
            Some(t) => event@.dcg_version == Some(t@),
            None => event@.dcg_version is None,
        },
        match event.dcg_pack {
            Some(t) => event@.dcg_pack == Some(t@),
            None => event@.dcg_pack is None,
        },
{
}

/// A run is its fields, and an event is what came of an action.
pub proof fn run_is_its_fields(run: CommandRun, event: RunEvent)
    ensures
        run@.stage == run.stage@ && run@.program == run.program@ && run@.guarded == run.guarded,
        run.args is None <==> run@.args is None,
        match event {
            RunEvent::Allowed => event@ == EventView::Allowed,
            RunEvent::Denied(error) => event@ == EventView::Denied(error@),
            RunEvent::Ended { success, exit_code, stdout, stderr } => event@ == (EventView::Ended {
                success,
                exit_code,
                stdout: stdout@,
                stderr: stderr@,
            }),
            RunEvent::NotStarted(error) => event@ == EventView::NotStarted(error@),
        },
{
}

/// What stands under a name of an object, by what it is.
pub proof fn field_is_what_stands_under_its_name(
    fields: Map<Seq<char>, JsonView>,
    name: Seq<char>,
    other: JsonView,
)
    ensures
        ({
            let object = JsonView::Object(fields);
            &&& object.field(name) is Some <==> fields.dom().contains(name)
            &&& fields.dom().contains(name) ==> object.field(name) == Some(fields[name])
            &&& object.text_field(name) matches Some(t) ==> fields.dom().contains(name)
                && fields[name] == JsonView::Text(t)
            &&& fields.dom().contains(name) && fields[name] is Text ==> object.text_field(name)
                is Some
            &&& object.nonempty_field(name) == (if object.text_field(name) == Some(
                Seq::<char>::empty(),
            ) {
                None
            } else {
                object.text_field(name)
            })
            &&& object.flag(name) <==> fields.dom().contains(name) && fields[name]
                == JsonView::Bool(true)
        }),
        !(other is Object) ==> other.field(name) is None && other.text_field(name) is None
            && !other.flag(name),
{
    let object = JsonView::Object(fields);
    if let Some(t) = object.text_field(name) {
        if t.len() == 0 {
            assert(t =~= Seq::<char>::empty());
        }
    }
}

/// A size is an integer from 0 on that is not too large, and an object of one name has that name
/// alone.
pub proof fn size_is_a_small_integer(
    n: u64,
    written: Seq<char>,
    other: JsonView,
    key: Seq<char>,
    name: Seq<char>,
    value: JsonView,
)
    ensures
        json::size_in(JsonView::Number { unsigned: Some(n), text: written }) == (if n
            <= usize::MAX {
            Some(n as nat)
        } else {
            None
        }),
        json::size_in(JsonView::Number { unsigned: None, text: written }) is None,
        !(other is Number) ==> json::size_in(other) is None,
        json::object_of(key, value).field(name) == (if name == key {
            Some(value)
        } else {
            None
        }),
        json::empty_object().field(name) is None,
        json::empty_object() is Object && json::object_of(key, value) is Object,
{
}

} // verus!
