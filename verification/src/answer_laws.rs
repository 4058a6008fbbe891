//! What the functions of the library answer, told of their arguments and results alone.

use crate::cass::client;
use crate::cass::client::{
    de_opt_timestamp, excerpt, fingerprint_count, fingerprint_says_news, metadata_from_export,
    new_or_changed, normalized_hits, session_from_export, session_id_by, CassClient,
    CassSearchResults, SessionMatch,
};
use crate::cass::client_laws;
use crate::cass::command::{classify_cass_error, CommandRun};
use crate::cass::decode;
use crate::cass::decode::{
    codex_output, decode_cass_export, flatten_tool_output, payload_is_error,
    CassExportDecodeError, ExportErrorView,
};
use crate::cass::laws;
use crate::cass::markers;
use crate::cass::markers::{inline_arguments, parse_inline_tool_markers};
use crate::cass::record_laws;
use crate::cass::session;
use crate::cass::session::{Session, SessionMessage, SessionMetadata, ToolCall};
use crate::error::{ErrorView, MsError};
use crate::json;
use crate::json::JsonView;
use crate::places;
use crate::storage::evidence::{rule_evidence, EvidenceRef};
use crate::storage::row;
use crate::storage::row::{FromRow, Kind, Row};
use crate::storage::search;
use crate::storage::sqlite::{
    any_changed, experiment_updated, read_any, read_count, read_exists, read_integrity, Database,
};
use crate::storage::statement;
use crate::storage::statement::{Statement, ValueView};
use crate::storage::tx;
use crate::storage::tx::TxPhase;
use crate::text;
use vstd::prelude::*;

verus! {

// ---------------------------------------------------------------------------------------------
// Single values
// ---------------------------------------------------------------------------------------------

/// A row with an integer in its first column is read where an integer is asked for, and no other.
proof fn integer_fits(found: Row)
    ensures
        row::fits(statement::values(found@), i64::columns()) <==> found@.len() > 0 && found@[0]@
            is Integer,
{
    let held = statement::values(found@);
    let kinds = i64::columns();
    assert(row::column_problem(held, 0, kinds[0]) is None <==> held.len() > 0 && held[0]
        is Integer);
}

/// A count is what the first column of its row holds, and zero where that is negative. Where it is
/// asked whether there is anything, there is where the count is not zero. A row without an integer is
/// an error of the database.
pub proof fn count_is_in_the_first_column(
    found: Row,
    count: Result<u64, MsError>,
    any: Result<bool, MsError>,
)
    requires
        call_ensures(read_count, (&found,), count),
        call_ensures(read_any, (&found,), any),
    ensures
        found@.len() > 0 && found@[0]@ is Integer ==> (count matches Ok(n) && n == (if
            found@[0]@->Integer_0 > 0 {
            found@[0]@->Integer_0 as int
        } else {
            0
        })) && (any matches Ok(b) && b == (found@[0]@->Integer_0 > 0)),
        found@.len() == 0 || !(found@[0]@ is Integer) ==> (count matches Err(e) && e@ is Database)
            && (any matches Err(e) && e@ is Database),
{
    integer_fits(found);
}

/// The database is in order just where it says `ok`.
pub proof fn order_is_said_by_ok(found: Row, answer: Result<bool, MsError>)
    requires
        call_ensures(read_integrity, (&found,), answer),
    ensures
        found@.len() > 0 && found@[0]@ is Text ==> (answer matches Ok(b) && b == (
        found@[0]@->Text_0 == "ok"@)),
        found@.len() == 0 || !(found@[0]@ is Text) ==> (answer matches Err(e) && e@ is Database),
{
    let held = statement::values(found@);
    let kinds = String::columns();
    assert(row::column_problem(held, 0, kinds[0]) is None <==> held.len() > 0 && held[0] is Text);
    assert(row::fits(held, kinds) <==> held.len() > 0 && held[0] is Text);
}

/// Something exists just where the row holds one.
pub proof fn existence_is_said_by_one(found: Row, answer: Result<bool, MsError>)
    requires
        call_ensures(read_exists, (&found,), answer),
    ensures
        found@.len() > 0 && found@[0]@ is Integer && -2147483648 <= found@[0]@->Integer_0
            <= 2147483647 ==> (answer matches Ok(b) && b == (found@[0]@->Integer_0 == 1)),
        found@.len() == 0 || !(found@[0]@ is Integer) ==> (answer matches Err(e) && e@ is Database),
{
    let held = statement::values(found@);
    assert(found@.len() > 0 ==> held[0] == found@[0]@);
    assert(held.len() == 0 ==> row::column_problem(held, 0, Kind::SmallInteger) is Some);
}

/// Something changed just where the number of rows is not zero, and an experiment of which none
/// changed was not found.
pub proof fn change_is_told_by_the_number_of_rows(
    id: &str,
    rows: usize,
    any: bool,
    outcome: Result<(), MsError>,
)
    requires
        call_ensures(any_changed, (rows,), any),
        call_ensures(experiment_updated, (id, rows), outcome),
    ensures
        any == (rows != 0),
        rows != 0 ==> outcome is Ok,
        rows == 0 ==> (outcome matches Err(e) && e@ == ErrorView::NotFound(
            "experiment not found: "@ + id@,
        )),
{
}

/// The evidence for a rule is what was read, none where there is no row, and an error where it cannot
/// be read.
pub proof fn rule_has_the_evidence_that_was_read(
    places: Vec<EvidenceRef>,
    problem: String,
    none: Result<Vec<EvidenceRef>, MsError>,
    some: Result<Vec<EvidenceRef>, MsError>,
    bad: Result<Vec<EvidenceRef>, MsError>,
)
    requires
        call_ensures(rule_evidence, (None,), none),
        call_ensures(rule_evidence, (Some(Ok(places)),), some),
        call_ensures(rule_evidence, (Some(Err(problem)),), bad),
    ensures
        none matches Ok(list) && list@ == Seq::<EvidenceRef>::empty(),
        some matches Ok(list) && list@ == places@,
        bad matches Err(e) && e@ == ErrorView::Config("decode evidence: "@ + problem@),
{
    assert(none->Ok_0@ =~= Seq::<EvidenceRef>::empty());
}

/// A phase is said by its name in small letters, and by no other text.
pub proof fn phase_is_said_by_its_name(phase: TxPhase, name: &'static str, said: &str, back: Option<
    TxPhase,
>)
    requires
        call_ensures(TxPhase::as_str, (phase,), name),
        call_ensures(TxPhase::said, (said,), back),
    ensures
        name@ == (match phase {
            TxPhase::Prepare => "prepare"@,
            TxPhase::Pending => "pending"@,
            TxPhase::Committed => "committed"@,
            TxPhase::Complete => "complete"@,
        }),
        said@ == name@ ==> back == Some(phase),
        back matches Some(p) ==> said@ == (match p {
            TxPhase::Prepare => "prepare"@,
            TxPhase::Pending => "pending"@,
            TxPhase::Committed => "committed"@,
            TxPhase::Complete => "complete"@,
        }),
{
    tx::phase_reads_back(phase);
}

/// A search asks for nothing where nothing is wanted or the query is white space alone, and binds
/// nothing.
pub proof fn empty_search_asks_for_nothing(query: &str, limit: usize, answer: Option<Statement>)
    requires
        call_ensures(Database::search_fts, (query, limit), answer),
    ensures
        answer is None <==> limit == 0 || text::is_blank_text(query@),
        answer matches Some(s) ==> s@.params.len() == 0,
{
    search::blank_query_has_no_words(query@);
}

// ---------------------------------------------------------------------------------------------
// Sessions
// ---------------------------------------------------------------------------------------------

/// A session that was fetched has the path that was asked for, the messages of its export, the hash
/// of its bytes, and nothing else that is known.
pub proof fn fetched_session_is_that_of_its_export(
    path: &str,
    output: &[u8],
    answer: Result<Session, MsError>,
)
    requires
        call_ensures(session_from_export, (path, output), answer),
    ensures
        match decode::session_of_parsed(json::parsed_array(output@)) {
            Ok(messages) => {
                &&& answer matches Ok(found)
                &&& found.path@ == path@
                &&& client::is_session_id(path@, found.id@)
                &&& found.messages@.len() == messages.len()
                &&& forall|i: int|
                    0 <= i < messages.len() ==> (#[trigger] found.messages@[i])@ == messages[i]
                &&& found.content_hash@ == client::hex(client::sha256(output@))
                &&& session::is_unknown(found.metadata)
            },
            Err(problem) => answer matches Err(e) && e@ == ErrorView::CassUnavailable(
                "Failed to decode session export: "@ + decode::error_words(problem),
            ),
        },
{
    if let Ok(found) = answer {
        let said = session::message_views(found.messages@);
        assert forall|i: int| 0 <= i < said.len() implies (#[trigger] found.messages@[i])@
            == said[i] by {}
    }
}

/// The metadata of a session count its messages, and nothing else of it is known.
pub proof fn metadata_count_the_messages(
    path: &str,
    output: &[u8],
    answer: Result<SessionMetadata, MsError>,
)
    requires
        call_ensures(metadata_from_export, (path, output), answer),
    ensures
        match decode::session_of_parsed(json::parsed_array(output@)) {
            Ok(messages) => {
                &&& answer matches Ok(found)
                &&& found.message_count == messages.len()
                &&& found.project is None && found.agent is None && found.model is None
                &&& found.started_at is None && found.ended_at is None
                &&& found.token_count is None && found.tags@.len() == 0
            },
            Err(problem) => answer matches Err(e) && e@ == ErrorView::CassUnavailable(
                "Failed to decode session export: "@ + decode::error_words(problem),
            ),
        },
{
}

/// Lines that were fetched are their text, where they are UTF-8, and otherwise an error.
pub proof fn lines_are_their_text(output: Vec<u8>, answer: Result<String, MsError>)
    requires
        call_ensures(excerpt, (output,), answer),
    ensures
        vstd::utf8::valid_utf8(output@) ==> (answer matches Ok(t) && t@
            == vstd::utf8::decode_utf8(output@)),
        !vstd::utf8::valid_utf8(output@) ==> (answer matches Err(e) && e@
            == ErrorView::CassUnavailable(
            "Invalid UTF-8 in excerpt: "@ + text::utf8_complaint(output@),
        )),
{
}

/// A session is new or changed unless the fingerprint that is known of it is the one that it has, and
/// its id is the stem of its path, where there is one.
pub proof fn session_is_known_by_its_fingerprint(
    known: Option<String>,
    hash: &str,
    news: bool,
    path: &str,
    stem: Option<String>,
    id: String,
)
    requires
        call_ensures(new_or_changed, (&known, hash), news),
        call_ensures(session_id_by, (path, stem), id),
    ensures
        news == !(known matches Some(k) && k@ == hash@),
        match stem {
            Some(s) => id@ == s@,
            None => id@ == path@,
        },
{
}

/// A processed session is written down just where fingerprints are kept, with its hash.
pub proof fn processed_session_is_written_down(
    client: CassClient,
    session: &str,
    hash: &str,
    answer: Option<Statement>,
)
    requires
        call_ensures(CassClient::mark_session_processed, (&client, session, hash), answer),
    ensures
        answer is Some <==> client.has_fingerprints,
        answer matches Some(s) ==> s@.params == seq![
            ValueView::Text(session@),
            ValueView::Text(hash@),
        ],
{
}

/// A client runs `cass` or the program that it was made with, keeps no fingerprints and asks no guard
/// unless it is told to, and nothing but what is told changes.
pub proof fn client_is_as_it_was_told(
    binary: &str,
    dir: &str,
    fresh: CassClient,
    named: CassClient,
    placed: CassClient,
    keeping: CassClient,
    guarded: CassClient,
)
    requires
        call_ensures(CassClient::new, (), fresh),
        call_ensures(CassClient::with_binary, (binary,), named),
        call_ensures(CassClient::with_data_dir, (named, dir), placed),
        call_ensures(CassClient::with_fingerprint_cache, (placed,), keeping),
        call_ensures(CassClient::with_safety, (keeping,), guarded),
    ensures
        fresh.cass_bin@ == "cass"@ && fresh.data_dir is None && !fresh.has_fingerprints
            && !fresh.guarded,
        named.cass_bin@ == binary@ && named.data_dir is None && !named.has_fingerprints
            && !named.guarded,
        placed.cass_bin@ == binary@ && (placed.data_dir matches Some(d) && d@ == dir@)
            && !placed.has_fingerprints && !placed.guarded,
        keeping.cass_bin@ == binary@ && (keeping.data_dir matches Some(d) && d@ == dir@)
            && keeping.has_fingerprints && !keeping.guarded,
        guarded.cass_bin@ == binary@ && (guarded.data_dir matches Some(d) && d@ == dir@)
            && guarded.has_fingerprints && guarded.guarded,
{
}

/// Each command of a client is a run of its program with the words of that command, and behind them
/// where the data are. A scan is a search for everything, and finding out whether the tool is there
/// runs nothing but the probe.
pub proof fn command_of_a_client_has_its_words(
    client: CassClient,
    a: &str,
    m: usize,
    n: usize,
    run: CommandRun,
)
    ensures
        ({
            let tail = match client.data_dir {
                Some(dir) => seq!["--data-dir"@, dir@],
                None => Seq::empty(),
            };
            &&& call_ensures(CassClient::health, (&client,), run) ==> run@.args == Some(
                seq!["health"@, "--robot"@] + tail,
            )
            &&& call_ensures(CassClient::capabilities, (&client,), run) ==> run@.args == Some(
                seq!["capabilities"@, "--robot"@] + tail,
            )
            &&& call_ensures(CassClient::search, (&client, a, n), run) ==> run@.args == Some(
                seq!["search"@, a@, "--robot"@, "--limit"@, text::decimal(n as nat)] + tail,
            )
            &&& call_ensures(CassClient::incremental_sessions, (&client, n), run) ==> run@.args
                == Some(
                seq!["search"@, "*"@, "--robot"@, "--limit"@, text::decimal(n as nat)] + tail,
            )
            &&& call_ensures(CassClient::get_session, (&client, a), run) || call_ensures(
                CassClient::session_metadata,
                (&client, a),
                run,
            ) ==> run@.args == Some(
                seq!["export"@, a@, "--format"@, "json"@, "--include-tools"@] + tail,
            )
            &&& call_ensures(CassClient::expand_session, (&client, a, n), run) ==> run@.args
                == Some(
                seq!["expand"@, a@, "--robot"@, "--context"@, text::decimal(n as nat)] + tail,
            )
            &&& call_ensures(CassClient::view_excerpt, (&client, a, m, n), run) ==> run@.args
                == Some(
                seq![
                    "view"@,
                    a@,
                    "--robot"@,
                    "--start"@,
                    text::decimal(m as nat),
                    "--end"@,
                    text::decimal(n as nat),
                ] + tail,
            )
            &&& call_ensures(CassClient::is_available, (&client,), run) ==> run@.args is None
                && run@.program == client.cass_bin@ && run@.guarded == client.guarded
        }),
{
    client_laws::commands_have_their_words(client, a@, m as nat, n as nat);
    client_laws::commands_have_their_words(client, "*"@, m as nat, n as nat);
}

/// What failed is told by the exit code and by the words of the error output, capital or small.
pub proof fn failure_is_told_by_code_and_words(code: i32, said: &str, answer: MsError)
    requires
        call_ensures(classify_cass_error, (code, said), answer),
    ensures
        ({
            let lower = text::small_letters(said@);
            let missing = code == 2 || text::occurs_in(lower, "not found"@) || text::occurs_in(
                lower,
                "no such"@,
            );
            let busy = text::occurs_in(lower, "database"@) || text::occurs_in(lower, "locked"@);
            let empty = text::occurs_in(lower, "mining"@) || text::occurs_in(lower, "extract"@);
            &&& missing ==> answer@ == ErrorView::SkillNotFound(said@)
            &&& !missing && busy ==> answer@ == ErrorView::TransactionFailed(said@)
            &&& !missing && !busy && empty ==> answer@ == ErrorView::MiningFailed(said@)
            &&& !missing && !busy && !empty ==> answer@ is CassUnavailable
        }),
{
}

// ---------------------------------------------------------------------------------------------
// Records
// ---------------------------------------------------------------------------------------------

/// The message of a tool's output has one result and no words or calls of its own. The result is the
/// text of what stands under `output`, and of what stands under `result` only where nothing does.
pub proof fn output_is_answered_with_its_text(
    payload: serde_json::Value,
    number: usize,
    answer: SessionMessage,
)
    requires
        call_ensures(codex_output, (&payload, number), answer),
    ensures
        ({
            let held = json::json_contents(payload);
            &&& answer.role@ == "tool"@
            &&& answer.content@.len() == 0
            &&& answer.tool_calls@.len() == 0
            &&& answer.tool_results@.len() == 1
            &&& held.field("output"@) matches Some(JsonView::Text(t))
                ==> answer.tool_results@[0].content@ == t
            &&& held.field("output"@) matches Some(output) ==> answer.tool_results@[0].content@
                == decode::output_text(output)
            &&& held.field("output"@) is None && held.field("result"@) is Some
                ==> answer.tool_results@[0].content@ == decode::output_text(
                held.field("result"@)->Some_0,
            )
            &&& held.field("output"@) is None && held.field("result"@) is None
                ==> answer.tool_results@[0].content@.len() == 0
            &&& answer.tool_results@[0].is_error == decode::says_error(held)
        }),
{
    reveal_strlit("");
    let held = json::json_contents(payload);
    assert(answer@ == decode::codex_result(held, number as nat));
    assert(answer@.tool_results.len() == 1 && answer@.tool_calls.len() == 0);
    assert(answer@.tool_results.len() == answer.tool_results@.len());
    assert(answer@.tool_calls.len() == answer.tool_calls@.len());
    assert(answer@.tool_results[0] == answer.tool_results@[0]@);
    if let Some(JsonView::Text(t)) = held.field("output"@) {
        record_laws::output_is_its_words(JsonView::Text(t));
    }
}

/// A text is answered as it is, and nothing as nothing.
pub proof fn plain_output_is_answered_as_it_is(value: serde_json::Value, answer: String)
    requires
        call_ensures(flatten_tool_output, (&value,), answer),
    ensures
        json::json_contents(value) matches JsonView::Text(t) ==> answer@ == t,
        json::json_contents(value) is Null ==> answer@.len() == 0,
{
    reveal_strlit("");
}

/// A payload failed where it says so by its mark, or by a status of `error` or `failed` in whatever
/// letters.
pub proof fn failure_is_said_by_mark_or_status(payload: serde_json::Value, answer: bool)
    requires
        call_ensures(payload_is_error, (&payload,), answer),
    ensures
        ({
            let held = json::json_contents(payload);
            let status = held.field("status"@);
            answer == (held.field("is_error"@) == Some(JsonView::Bool(true)) || (status matches Some(
                JsonView::Text(t),
            ) && (text::ascii_lowercase(t) == "error"@ || text::ascii_lowercase(t)
                == "failed"@)))
        }),
{
}

/// The arguments of a marker are its detail under one name, which goes by the tool, and none where it
/// has no detail.
pub proof fn detail_stands_under_the_name_of_its_tool(
    name: &str,
    detail: &str,
    some: serde_json::Value,
    none: serde_json::Value,
)
    requires
        call_ensures(inline_arguments, (name, Some(detail)), some),
        call_ensures(inline_arguments, (name, None), none),
    ensures
        ({
            let key = if name@ == "bash"@ || name@ == "shell"@ || name@ == "command"@ || name@
                == "terminal"@ || name@ == "exec"@ {
                "command"@
            } else if name@ == "read"@ || name@ == "edit"@ || name@ == "write"@ || name@
                == "notebookedit"@ || name@ == "multiedit"@ {
                "file_path"@
            } else {
                "detail"@
            };
            &&& json::json_contents(some).field(key) == Some(JsonView::Text(detail@))
            &&& forall|other: Seq<char>|
                other != key ==> (#[trigger] json::json_contents(some).field(other)) is None
            &&& forall|other: Seq<char>|
                (#[trigger] json::json_contents(none).field(other)) is None
        }),
{
}

/// The calls that a text's markers stand for are numbered from 0 on, under the number of the message.
pub proof fn markers_are_numbered_from_zero(
    content: &str,
    message: usize,
    answer: Vec<ToolCall>,
    k: int,
)
    requires
        call_ensures(parse_inline_tool_markers, (content, message), answer),
        0 <= k < answer@.len(),
    ensures
        answer@[k].id@ == "inline_"@ + text::decimal(message as nat) + "_"@ + text::decimal(k as nat),
        answer@[k].name@.len() > 0,
{
    markers::inline_calls_are_numbered(content@, message as nat, 0);
    let calls = markers::inline_calls(content@, message as nat, 0);
    assert(session::call_views(answer@)[k] == answer@[k]@);
    assert(calls[k] == answer@[k]@);
}

/// An export that is read is the messages that its records give, each in its place, and one that is
/// not is refused with the reason.
pub proof fn export_is_answered_with_its_messages(
    bytes: &[u8],
    answer: Result<Vec<SessionMessage>, CassExportDecodeError>,
    i: int,
)
    requires
        call_ensures(decode_cass_export, (bytes,), answer),
    ensures
        match json::parsed_array(bytes@) {
            Err(problem) => answer matches Err(e) && e@ == ExportErrorView::Json(problem),
            Ok(records) => match decode::session_of_records(records) {
                Ok(messages) => answer matches Ok(list) && list@.len() == messages.len() && (0 <= i
                    < list@.len() ==> list@[i]@ == messages[i] && list@[i].index == i),
                Err(problem) => answer matches Err(e) && e@ == problem,
            },
        },
{
    if let Ok(records) = json::parsed_array(bytes@) {
        if let Ok(messages) = decode::session_of_records(records) {
            let list = answer->Ok_0;
            assert(session::message_views(list@) == messages);
            if 0 <= i < list@.len() {
                assert(session::message_views(list@)[i] == list@[i]@);
                laws::messages_know_their_place(records, i);
            }
        }
    }
}

/// A run that was made asks the guard first, where there is one, and otherwise starts with its probe;
/// it has the program and the arguments that it was made with.
pub proof fn new_run_is_as_it_was_told(
    program: &str,
    args: Vec<String>,
    guarded: bool,
    run: CommandRun,
    probe: CommandRun,
)
    requires
        call_ensures(CommandRun::new, (program, Some(args), guarded), run),
        call_ensures(CommandRun::new, (program, None, guarded), probe),
    ensures
        run@.program == program@ && run@.guarded == guarded,
        run@.args matches Some(list) && list.len() == args@.len() && forall|i: int|
            0 <= i < args@.len() ==> #[trigger] list[i] == args@[i]@,
        guarded ==> run@.stage is ProbeGuard && probe@.stage is ProbeGuard,
        !guarded ==> run@.stage is Probe && probe@.stage is Probe,
        probe@.args is None && probe@.program == program@,
{
}

/// A client gives all sessions of a scan where it keeps no fingerprints, as they came.
pub proof fn scan_without_a_cache_gives_all(
    client: CassClient,
    looked_up: Vec<(SessionMatch, Option<String>)>,
    answer: Vec<SessionMatch>,
    i: int,
)
    requires
        call_ensures(CassClient::scanned_sessions, (&client, looked_up), answer),
        !client.has_fingerprints,
    ensures
        answer@.len() == looked_up@.len(),
        0 <= i < answer@.len() ==> answer@[i] == looked_up@[i].0,
{
}

/// A client that keeps fingerprints gives those sessions of a scan of which another fingerprint is
/// known than they carry, or none, in order and each once.
pub proof fn scan_with_a_cache_gives_the_changed(
    client: CassClient,
    looked_up: Vec<(SessionMatch, Option<String>)>,
    answer: Vec<SessionMatch>,
) -> (at: Seq<int>)
    requires
        call_ensures(CassClient::scanned_sessions, (&client, looked_up), answer),
        client.has_fingerprints,
    ensures
        places::are_places(at, looked_up@.len() as int, client_laws::changed(looked_up@)),
        answer@.len() == at.len(),
        forall|k: int| 0 <= k < at.len() ==> answer@[k] == looked_up@[#[trigger] at[k]].0,
{
    client_laws::scan_gives_the_changed_in_order(looked_up@);
    choose|at: Seq<int>|
        {
            let kept = client::scanned(true, looked_up@);
            &&& #[trigger] places::are_places(
                at,
                looked_up@.len() as int,
                client_laws::changed(looked_up@),
            )
            &&& kept.len() == at.len()
            &&& forall|k: int| 0 <= k < at.len() ==> kept[k] == looked_up@[#[trigger] at[k]].0
        }
}

/// The matches of a search stay as they are and in order, but for an empty session id, which is told
/// by the path.
pub proof fn matches_are_kept(results: CassSearchResults, answer: Vec<SessionMatch>, i: int)
    requires
        call_ensures(normalized_hits, (results,), answer),
        0 <= i < results.hits@.len(),
    ensures
        answer@.len() == results.hits@.len(),
        results.hits@[i].session_id@.len() > 0 ==> answer@[i].session_id@
            == results.hits@[i].session_id@,
        results.hits@[i].session_id@.len() == 0 ==> client::is_session_id(
            results.hits@[i].path@,
            answer@[i].session_id@,
        ),
        answer@[i].path == results.hits@[i].path && answer@[i].score == results.hits@[i].score
            && answer@[i].snippet == results.hits@[i].snippet && answer@[i].content_hash
            == results.hits@[i].content_hash && answer@[i].project == results.hits@[i].project
            && answer@[i].timestamp == results.hits@[i].timestamp,
{
    assert(client::is_normalized_of(answer@[i], results.hits@[i]));
}

/// A timestamp is answered as it is written, where it is a text or a number.
pub proof fn timestamp_is_answered_as_written(value: serde_json::Value, answer: Option<String>)
    requires
        call_ensures(de_opt_timestamp, (&value,), answer),
    ensures
        match json::json_contents(value) {
            JsonView::Text(t) => answer matches Some(s) && s@ == t,
            JsonView::Number { unsigned, text } => answer matches Some(s) && s@ == text,
            _ => answer is None,
        },
{
}

/// A session is news where no row was found for it, or one with another text than its own hash, and
/// the count of fingerprints is the number in its row.
pub proof fn fingerprints_are_told_by_their_rows(
    found: Row,
    hash: &str,
    none: Result<bool, MsError>,
    some: Result<bool, MsError>,
    count: Result<usize, MsError>,
)
    requires
        call_ensures(fingerprint_says_news, (&None, hash), none),
        call_ensures(fingerprint_says_news, (&Some(found), hash), some),
        call_ensures(fingerprint_count, (&found,), count),
    ensures
        none matches Ok(news) && news,
        found@.len() > 0 && found@[0]@ is Text ==> (some matches Ok(news) && news == (
        found@[0]@->Text_0 != hash@)),
        found@.len() == 0 || !(found@[0]@ is Text) ==> some is Err,
        found@.len() > 0 && found@[0]@ is Integer && 0 <= found@[0]@->Integer_0 <= usize::MAX ==> (
        count matches Ok(n) && n == found@[0]@->Integer_0),
        found@.len() == 0 || !(found@[0]@ is Integer) ==> count is Err,
{
    let held = statement::values(found@);
    client_laws::fingerprint_is_judged_by_its_text(held, hash@);
    client_laws::count_is_the_number_in_the_row(held);
}

/// A database knows the version that it was brought to.
pub proof fn version_is_the_one_it_was_brought_to(version: u32, db: Database, answer: u32)
    requires
        call_ensures(Database::migrated, (version,), db),
        call_ensures(Database::schema_version, (&db,), answer),
    ensures
        answer == version,
{
}

} // verus!
