//! The client of the session search tool.
//!
//! The tool is always run in its machine-readable mode, never bare. [`CassClient`] says how; see
//! [`CommandRun`] for how a run goes.

use crate::cass::command;
use crate::cass::command::{CommandRun, RunView};
use crate::cass::decode;
use crate::cass::decode::decode_cass_export;
use crate::cass::session;
use crate::cass::session::{MessageView, Session, SessionMetadata};
use crate::error::{ErrorView, MsError};
use crate::json;
use crate::json::JsonView;
use crate::storage::row;
use crate::storage::row::{read_found, read_one, FromRow, Row};
use crate::storage::statement;
use crate::storage::statement::{from_text, select, Statement, StatementView, ValueView};
use crate::text;
use crate::text::{concat, decimal_text, same_text, utf8_text};
use sha2::Digest;
use vstd::prelude::*;
use vstd::string::*;
use vstd::utf8::*;

verus! {

// ---------------------------------------------------------------------------------------------
// What the tool answers
// ---------------------------------------------------------------------------------------------

/// CASS health status
#[derive(Debug, Clone)]
pub struct CassHealth {
    pub healthy: bool,
    pub version: String,
    pub database_ok: bool,
    pub index_ok: bool,
    pub session_count: usize,
    pub last_indexed: Option<String>,
}

/// CASS capabilities and schema
#[derive(Debug, Clone)]
pub struct CassCapabilities {
    pub version: String,
    pub search_modes: Vec<String>,
    pub output_formats: Vec<String>,
    pub max_results: usize,
    pub supports_incremental: bool,
    pub supports_robot_mode: bool,
}

/// CASS search results wrapper
#[derive(Debug, Clone)]
pub struct CassSearchResults {
    pub hits: Vec<SessionMatch>,
    pub total_count: usize,
    pub truncated: bool,
}

/// A match from CASS search.
#[derive(Debug, Clone)]
pub struct SessionMatch {
    /// Session ID. Where the tool gives none it is derived from the path.
    pub session_id: String,
    /// Path to session file
    pub path: String,
    /// Relevance score: a single-precision number, by its bits.
    pub score: u32,
    /// Preview snippet
    pub snippet: Option<String>,
    /// Content hash for change detection
    pub content_hash: Option<String>,
    /// Project associated with the session
    pub project: Option<String>,
    /// Session timestamp
    pub timestamp: Option<String>,
}

// ---------------------------------------------------------------------------------------------
// Session ids
// ---------------------------------------------------------------------------------------------

/// Where a character last stands in a text; -1 where it does not.
pub open spec fn last_index(text: Seq<char>, c: char) -> int
    decreases text.len(),
{
    if text.len() == 0 {
        -1
    } else if text.last() == c {
        text.len() - 1
    } else {
        last_index(text.drop_last(), c)
    }
}

/// The last piece of a path between slashes that names something. An empty piece and `.` name
/// nothing.
pub open spec fn last_piece(path: Seq<char>) -> Seq<char>
    decreases path.len(),
    via last_piece_decreases
{
    let slash = last_index(path, '/');
    let piece = path.skip(slash + 1);
    if piece.len() > 0 && piece != "."@ {
        piece
    } else if slash < 0 {
        Seq::empty()
    } else {
        last_piece(path.take(slash))
    }
}

#[via_fn]
proof fn last_piece_decreases(path: Seq<char>) {
    last_index_is_last(path, '/');
}

/// `last_index` is the last place of the character.
proof fn last_index_is_last(text: Seq<char>, c: char)
    ensures
        -1 <= last_index(text, c) < text.len(),
        last_index(text, c) >= 0 ==> text[last_index(text, c)] == c,
        forall|i: int| last_index(text, c) < i < text.len() ==> text[i] != c,
    decreases text.len(),
{
    if text.len() > 0 && text.last() != c {
        last_index_is_last(text.drop_last(), c);
        assert forall|i: int| last_index(text, c) < i < text.len() implies text[i] != c by {
            if i < text.len() - 1 {
                assert(text.drop_last()[i] != c);
            }
        }
    }
}

/// A file name without its extension: what stands before the last dot, unless that is nothing.
pub open spec fn stem(name: Seq<char>) -> Seq<char> {
    let dot = last_index(name, '.');
    if dot <= 0 {
        name
    } else {
        name.take(dot)
    }
}

/// A path that every host takes apart at its slashes alone: it has no backslash, no colon before
/// its first slash, and does not begin with two slashes.
pub open spec fn is_plain_path(path: Seq<char>) -> bool {
    &&& lacks(path, '\\')
    &&& forall|i: int|
        0 <= i < path.len() && #[trigger] path[i] == ':' ==> !lacks(path.take(i), '/')
    &&& !(path.len() >= 2 && path[0] == '/' && path[1] == '/')
}

/// The name without its extension of the file that a plain path names; none where it names none.
pub open spec fn plain_stem(path: Seq<char>) -> Option<Seq<char>> {
    let name = last_piece(path);
    if name.len() == 0 || name == ".."@ {
        None
    } else {
        Some(stem(name))
    }
}

/// What the host may say that the stem of a path is. How a path is taken apart is the host's
/// matter where it is no plain one; a stem is a part of the path in any case.
pub open spec fn is_stem(path: Seq<char>, said: Option<Seq<char>>) -> bool {
    &&& is_plain_path(path) ==> said == plain_stem(path)
    &&& said matches Some(s) ==> s.len() > 0 && text::occurs_in(path, s)
}

/// `std::path::Path::file_stem`, as text: the name without its extension of the file that a path
/// names, by the rules of the host. Of a plain path it is what stands between the last slash and
/// the last dot, as the documentation of paths has it; of another path nothing is claimed but that
/// it is some part of the path.
#[verifier::external_body]
fn file_stem(path: &str) -> (r: Option<String>)
    ensures
        is_stem(path@, text::opt_text(r)),
{
    std::path::Path::new(path).file_stem().and_then(|s| s.to_str()).map(|s| s.to_string())
}

/// The id of the session in a file, by the stem of its path: that stem. A path that names no file
/// is its own id.
pub open spec fn id_by(path: Seq<char>, said: Option<Seq<char>>) -> Seq<char> {
    match said {
        Some(s) => s,
        None => path,
    }
}

/// The id of the session in a file, by the stem of its path.
pub fn session_id_by(path: &str, stem: Option<String>) -> (r: String)
    ensures
        r@ == id_by(path@, text::opt_text(stem)),
{
    match stem {
        Some(stem) => stem,
        None => path.to_owned(),
    }
}

/// A text is the id of the session in a file, as the host takes paths apart.
pub open spec fn is_session_id(path: Seq<char>, id: Seq<char>) -> bool {
    exists|said: Option<Seq<char>>| #[trigger] is_stem(path, said) && id == id_by(path, said)
}

/// Derives a stable session id from a session file path: the file stem.
pub fn session_id_from_path(path: &str) -> (r: String)
    ensures
        is_session_id(path@, r@),
        is_plain_path(path@) ==> r@ == id_by(path@, plain_stem(path@)),
{
    let stem = file_stem(path);
    let ghost said = text::opt_text(stem);
    assert(is_stem(path@, said));
    session_id_by(path, stem)
}

/// Text has no character of a kind.
pub open spec fn lacks(text: Seq<char>, c: char) -> bool {
    forall|i: int| 0 <= i < text.len() ==> #[trigger] text[i] != c
}

/// The id of the session in a file of a directory is the file's name without its extension,
/// wherever the path is a plain one.
pub proof fn id_is_the_file_stem(
    directory: Seq<char>,
    name: Seq<char>,
    extension: Seq<char>,
    id: Seq<char>,
)
    requires
        name.len() > 0,
        extension.len() > 0,
        lacks(name, '/'),
        lacks(extension, '/'),
        lacks(extension, '.'),
        is_plain_path(directory + seq!['/'] + name + seq!['.'] + extension),
        is_session_id(directory + seq!['/'] + name + seq!['.'] + extension, id),
    ensures
        id == name,
{
    let path = directory + seq!['/'] + name + seq!['.'] + extension;
    let file = name + seq!['.'] + extension;
    let slash = last_index(path, '/');
    last_index_is_last(path, '/');
    assert(path[directory.len() as int] == '/');
    assert forall|i: int| directory.len() < i < path.len() implies path[i] != '/' by {
        let k = i - directory.len() - 1;
        assert(path[i] == file[k]);
        if k < name.len() {
            assert(name[k] != '/');
        } else if k > name.len() {
            assert(extension[k - name.len() - 1] != '/');
        }
    }
    assert(slash == directory.len());
    assert(path.skip(slash + 1) == file);
    reveal_strlit(".");
    reveal_strlit("..");
    assert(file.len() >= 3);
    assert(last_piece(path) == file);
    let dot = last_index(file, '.');
    last_index_is_last(file, '.');
    assert(file[name.len() as int] == '.');
    assert forall|i: int| name.len() < i < file.len() implies file[i] != '.' by {
        assert(extension[i - name.len() - 1] != '.');
    }
    assert(dot == name.len());
    assert(file.take(dot) == name);
}

// ---------------------------------------------------------------------------------------------
// Content hashes
// ---------------------------------------------------------------------------------------------

/// The SHA-256 digest of bytes.
pub uninterp spec fn sha256(bytes: Seq<u8>) -> Seq<u8>;

/// `sha2::Sha256`, fed with the bytes at once: their digest, which is 32 bytes long.
#[verifier::external_body]
fn digest(bytes: &[u8]) -> (r: Vec<u8>)
    ensures
        r@ == sha256(bytes@),
        r@.len() == 32,
{
    let mut hasher = sha2::Sha256::new();
    hasher.update(bytes);
    hasher.finalize().to_vec()
}

/// A hexadecimal digit in small letters.
pub open spec fn hex_digit(n: int) -> char {
    if n < 10 {
        ('0' as int + n) as char
    } else {
        ('a' as int + (n - 10)) as char
    }
}

/// Bytes in hexadecimal digits, two for each.
pub open spec fn hex(bytes: Seq<u8>) -> Seq<char> {
    Seq::new(
        2 * bytes.len(),
        |i: int|
            hex_digit(
                if i % 2 == 0 {
                    bytes[i / 2] as int / 16
                } else {
                    bytes[i / 2] as int % 16
                },
            ),
    )
}

/// A hexadecimal digit in small letters.
fn hex_char(n: u8) -> (r: char)
    requires
        n < 16,
    ensures
        r == hex_digit(n as int),
{
    if n < 10 {
        ('0' as u8 + n) as char
    } else {
        ('a' as u8 + (n - 10)) as char
    }
}

/// Bytes in hexadecimal digits, two for each.
pub fn hex_text(bytes: &Vec<u8>) -> (r: String)
    ensures
        r@ == hex(bytes@),
{
    let mut out = String::new();
    for i in 0..bytes.len()
        invariant
            out@.len() == 2 * i,
            forall|k: int| 0 <= k < 2 * i ==> #[trigger] out@[k] == hex(bytes@)[k],
    {
        let b = bytes[i];
        out.push(hex_char(b / 16));
        out.push(hex_char(b % 16));
        assert forall|k: int| 0 <= k < 2 * (i + 1) implies #[trigger] out@[k] == hex(bytes@)[k] by {
            if k == 2 * i {
                assert(k / 2 == i && k % 2 == 0);
            } else if k == 2 * i + 1 {
                assert(k / 2 == i && k % 2 == 1);
            }
        }
    }
    assert(out@ == hex(bytes@));
    out
}

/// The fingerprint of an export by which a change shows: the SHA-256 of its bytes.
pub fn content_hash_of(bytes: &[u8]) -> (r: String)
    ensures
        r@ == hex(sha256(bytes@)),
        r@.len() == 64,
{
    let sum = digest(bytes);
    hex_text(&sum)
}

/// Different bytes have different hexadecimal digits.
pub proof fn hex_is_injective(a: Seq<u8>, b: Seq<u8>)
    requires
        hex(a) == hex(b),
    ensures
        a == b,
{
    assert(2 * a.len() == hex(a).len());
    assert(2 * b.len() == hex(b).len());
    assert forall|i: int| 0 <= i < a.len() implies a[i] == b[i] by {
        assert((2 * i) / 2 == i && (2 * i) % 2 == 0);
        assert((2 * i + 1) / 2 == i && (2 * i + 1) % 2 == 1);
        assert(hex(a)[2 * i] == hex_digit(a[i] as int / 16));
        assert(hex(b)[2 * i] == hex_digit(b[i] as int / 16));
        assert(hex(a)[2 * i + 1] == hex_digit(a[i] as int % 16));
        assert(hex(b)[2 * i + 1] == hex_digit(b[i] as int % 16));
    }
}

// ---------------------------------------------------------------------------------------------
// Commands
// ---------------------------------------------------------------------------------------------

/// Client for interacting with CASS (Coding Agent Session Search)
#[derive(Debug, Clone)]
pub struct CassClient {
    /// Path to cass binary (default: "cass")
    pub cass_bin: String,
    /// CASS data directory (optional, uses default if not set)
    pub data_dir: Option<String>,
    /// Whether fingerprints of sessions are kept for incremental processing
    pub has_fingerprints: bool,
    /// Whether a safety guard judges what is run
    pub guarded: bool,
}

/// The arguments of a command, with those that say where the data are.
pub open spec fn with_data_dir_args(
    args: Seq<Seq<char>>,
    data_dir: Option<Seq<char>>,
) -> Seq<Seq<char>> {
    match data_dir {
        Some(dir) => args.push("--data-dir"@).push(dir),
        None => args,
    }
}

/// The arguments of a command have the tool answer in machine-readable form.
pub open spec fn is_automated(args: Seq<Seq<char>>) -> bool {
    ||| args.contains("--robot"@)
    ||| exists|i: int|
        0 <= i < args.len() - 1 && #[trigger] args[i] == "--format"@ && args[i + 1] == "json"@
}

/// A fresh run of a client's tool with arguments.
pub open spec fn fresh_run(client: CassClient, args: Seq<Seq<char>>) -> RunView {
    RunView {
        stage: command::first_stage(client.guarded),
        program: client.cass_bin@,
        args: Some(with_data_dir_args(args, text::opt_text(client.data_dir))),
        guarded: client.guarded,
    }
}

/// The arguments that ask for the tool's health.
pub open spec fn health_args() -> Seq<Seq<char>> {
    seq!["health"@, "--robot"@]
}

/// The arguments that search sessions.
pub open spec fn search_args(query: Seq<char>, limit: nat) -> Seq<Seq<char>> {
    seq!["search"@, query, "--robot"@, "--limit"@, text::decimal(limit)]
}

/// The arguments that fetch a session.
pub open spec fn export_args(path: Seq<char>) -> Seq<Seq<char>> {
    seq!["export"@, path, "--format"@, "json"@, "--include-tools"@]
}

/// The arguments that fetch a session with what is around it.
pub open spec fn expand_args(id: Seq<char>, context: nat) -> Seq<Seq<char>> {
    seq!["expand"@, id, "--robot"@, "--context"@, text::decimal(context)]
}

/// The arguments that fetch lines of a session.
pub open spec fn view_args(id: Seq<char>, start: nat, end: nat) -> Seq<Seq<char>> {
    seq![
        "view"@,
        id,
        "--robot"@,
        "--start"@,
        text::decimal(start),
        "--end"@,
        text::decimal(end),
    ]
}

/// The arguments that ask for the tool's capabilities.
pub open spec fn capabilities_args() -> Seq<Seq<char>> {
    seq!["capabilities"@, "--robot"@]
}

/// A list of texts with one more.
fn and(list: Vec<String>, word: &str) -> (r: Vec<String>)
    ensures
        text::texts(r@) == text::texts(list@).push(word@),
{
    let mut out = list;
    let ghost before = out@;
    out.push(word.to_owned());
    assert(text::texts(out@) == text::texts(before).push(word@));
    out
}

/// A list of one text.
fn only(word: &str) -> (r: Vec<String>)
    ensures
        text::texts(r@) == seq![word@],
{
    let mut out: Vec<String> = Vec::new();
    out.push(word.to_owned());
    assert(text::texts(out@) == seq![word@]);
    out
}

impl CassClient {
    /// Create a new CASS client with default settings
    pub fn new() -> (r: CassClient)
        ensures
            r.cass_bin@ == "cass"@,
            r.data_dir is None,
            !r.has_fingerprints,
            !r.guarded,
    {
        CassClient {
            cass_bin: "cass".to_owned(),
            data_dir: None,
            has_fingerprints: false,
            guarded: false,
        }
    }

    /// Create a CASS client with custom binary path
    pub fn with_binary(binary: &str) -> (r: CassClient)
        ensures
            r.cass_bin@ == binary@,
            r.data_dir is None,
            !r.has_fingerprints,
            !r.guarded,
    {
        CassClient {
            cass_bin: binary.to_owned(),
            data_dir: None,
            has_fingerprints: false,
            guarded: false,
        }
    }

    /// Set the CASS data directory
    pub fn with_data_dir(self, data_dir: &str) -> (r: CassClient)
        ensures
            r.cass_bin == self.cass_bin,
            text::opt_text(r.data_dir) == Some(data_dir@),
            r.has_fingerprints == self.has_fingerprints,
            r.guarded == self.guarded,
    {
        CassClient { data_dir: Some(data_dir.to_owned()), ..self }
    }

    /// Have fingerprints of sessions kept for incremental processing
    pub fn with_fingerprint_cache(self) -> (r: CassClient)
        ensures
            r == (CassClient { has_fingerprints: true, ..self }),
    {
        CassClient { has_fingerprints: true, ..self }
    }

    /// Have a safety guard judge what is run
    pub fn with_safety(self) -> (r: CassClient)
        ensures
            r == (CassClient { guarded: true, ..self }),
    {
        CassClient { guarded: true, ..self }
    }

    /// A run that finds out whether the tool is there and answers, and does nothing else.
    pub fn is_available(&self) -> (r: CommandRun)
        ensures
            r@ == (RunView {
                stage: command::first_stage(self.guarded),
                program: self.cass_bin@,
                args: None,
                guarded: self.guarded,
            }),
    {
        CommandRun::new(self.cass_bin.as_str(), None, self.guarded)
    }

    /// A run of the tool with arguments, and with where the data are, if that is set.
    pub fn run_command(&self, args: Vec<String>) -> (r: CommandRun)
        ensures
            r@ == fresh_run(*self, text::texts(args@)),
    {
        let args = match &self.data_dir {
            Some(dir) => and(and(args, "--data-dir"), dir.as_str()),
            None => args,
        };
        CommandRun::new(self.cass_bin.as_str(), Some(args), self.guarded)
    }

    /// Asks for the tool's health.
    pub fn health(&self) -> (r: CommandRun)
        ensures
            r@ == fresh_run(*self, health_args()),
    {
        self.run_command(and(only("health"), "--robot"))
    }

    /// Searches sessions with a query.
    pub fn search(&self, query: &str, limit: usize) -> (r: CommandRun)
        ensures
            r@ == fresh_run(*self, search_args(query@, limit as nat)),
    {
        let digits = decimal_text(limit as u64);
        self.run_command(
            and(and(and(and(only("search"), query), "--robot"), "--limit"), digits.as_str()),
        )
    }

    /// Fetches a full session by its file path. For the output see [`session_from_export`].
    pub fn get_session(&self, session_path: &str) -> (r: CommandRun)
        ensures
            r@ == fresh_run(*self, export_args(session_path@)),
    {
        self.run_command(
            and(
                and(and(and(only("export"), session_path), "--format"), "json"),
                "--include-tools",
            ),
        )
    }

    /// Fetches a session with what is around it.
    pub fn expand_session(&self, session_id: &str, context_lines: usize) -> (r: CommandRun)
        ensures
            r@ == fresh_run(*self, expand_args(session_id@, context_lines as nat)),
    {
        let digits = decimal_text(context_lines as u64);
        self.run_command(
            and(and(and(and(only("expand"), session_id), "--robot"), "--context"), digits.as_str()),
        )
    }

    /// Fetches lines of a session. For the output see [`excerpt`].
    pub fn view_excerpt(&self, session_id: &str, start_line: usize, end_line: usize) -> (r:
        CommandRun)
        ensures
            r@ == fresh_run(*self, view_args(session_id@, start_line as nat, end_line as nat)),
    {
        let start = decimal_text(start_line as u64);
        let end = decimal_text(end_line as u64);
        self.run_command(
            and(
                and(
                    and(
                        and(and(and(only("view"), session_id), "--robot"), "--start"),
                        start.as_str(),
                    ),
                    "--end",
                ),
                end.as_str(),
            ),
        )
    }

    /// Scans for sessions, of which [`delta_sessions`] keeps those that are new or changed.
    pub fn incremental_sessions(&self, limit: usize) -> (r: CommandRun)
        ensures
            r@ == fresh_run(*self, search_args("*"@, limit as nat)),
    {
        self.search("*", limit)
    }

    /// Asks for the tool's capabilities.
    pub fn capabilities(&self) -> (r: CommandRun)
        ensures
            r@ == fresh_run(*self, capabilities_args()),
    {
        self.run_command(and(only("capabilities"), "--robot"))
    }

    /// Fetches a session for its metadata. For the output see [`metadata_from_export`].
    pub fn session_metadata(&self, session_path: &str) -> (r: CommandRun)
        ensures
            r@ == fresh_run(*self, export_args(session_path@)),
    {
        self.get_session(session_path)
    }

    /// Writes down that a session was processed, where fingerprints are kept.
    pub fn mark_session_processed(&self, session_id: &str, content_hash: &str) -> (r: Option<
        Statement,
    >)
        ensures
            r is Some <==> self.has_fingerprints,
            r matches Some(s) ==> s@ == cache_statement(
                CacheCall::Update { session: session_id@, hash: content_hash@ },
            ),
    {
        if self.has_fingerprints {
            Some(FingerprintCache::update(session_id, content_hash))
        } else {
            None
        }
    }
}

impl Default for CassClient {
    /// A client with default settings.
    fn default() -> (r: Self)
        ensures
            r.cass_bin@ == "cass"@,
            r.data_dir is None,
            !r.has_fingerprints,
            !r.guarded,
    {
        CassClient::new()
    }
}

/// The tool is never run bare: every command has it answer in machine-readable form, wherever the
/// data are.
pub proof fn every_command_is_automated(
    a: Seq<char>,
    m: nat,
    n: nat,
    data_dir: Option<Seq<char>>,
)
    ensures
        is_automated(with_data_dir_args(health_args(), data_dir)),
        is_automated(with_data_dir_args(search_args(a, n), data_dir)),
        is_automated(with_data_dir_args(export_args(a), data_dir)),
        is_automated(with_data_dir_args(expand_args(a, n), data_dir)),
        is_automated(with_data_dir_args(view_args(a, m, n), data_dir)),
        is_automated(with_data_dir_args(capabilities_args(), data_dir)),
{
    assert(with_data_dir_args(health_args(), data_dir)[1] == "--robot"@);
    assert(with_data_dir_args(search_args(a, n), data_dir)[2] == "--robot"@);
    assert(with_data_dir_args(expand_args(a, n), data_dir)[2] == "--robot"@);
    assert(with_data_dir_args(view_args(a, m, n), data_dir)[2] == "--robot"@);
    assert(with_data_dir_args(capabilities_args(), data_dir)[1] == "--robot"@);
    let export = with_data_dir_args(export_args(a), data_dir);
    assert(export[2] == "--format"@ && export[3] == "json"@);
}

// ---------------------------------------------------------------------------------------------
// Reading what the tool answers
// ---------------------------------------------------------------------------------------------

/// A timestamp that may be given as a number or as a string, as text; nothing for anything else.
pub open spec fn timestamp_text(value: JsonView) -> Option<Seq<char>> {
    match value {
        JsonView::Number { text, .. } => Some(text),
        JsonView::Text(t) => Some(t),
        _ => None,
    }
}

/// Reads an optional timestamp, which the tool may give as a number of milliseconds or as a
/// string.
pub fn de_opt_timestamp(value: &serde_json::Value) -> (r: Option<String>)
    ensures
        text::opt_text(r) == timestamp_text(json::json_contents(*value)),
{
    if let Some(text) = json::value_str(value) {
        return Some(text.to_owned());
    }
    if json::value_is_number(value) {
        return Some(json::value_to_text(value));
    }
    None
}

/// A match is another with its session id filled in.
pub open spec fn is_normalized_of(r: SessionMatch, m: SessionMatch) -> bool {
    &&& if m.session_id@.len() == 0 {
        is_session_id(m.path@, r.session_id@)
    } else {
        r.session_id@ == m.session_id@
    }
    &&& r.path == m.path
    &&& r.score == m.score
    &&& r.snippet == m.snippet
    &&& r.content_hash == m.content_hash
    &&& r.project == m.project
    &&& r.timestamp == m.timestamp
}

/// Fills in what the tool may leave out: a session id.
pub fn normalize_match(m: SessionMatch) -> (r: SessionMatch)
    ensures
        is_normalized_of(r, m),
{
    if m.session_id.as_str().is_empty() {
        let session_id = session_id_from_path(m.path.as_str());
        SessionMatch { session_id, ..m }
    } else {
        m
    }
}

/// The matches of a search, each with its session id filled in.
pub fn normalized_hits(results: CassSearchResults) -> (r: Vec<SessionMatch>)
    ensures
        r@.len() == results.hits@.len(),
        forall|i: int|
            0 <= i < r@.len() ==> is_normalized_of(#[trigger] r@[i], results.hits@[i]),
{
    let ghost all = results.hits@;
    let hits = results.hits;
    let mut out: Vec<SessionMatch> = Vec::new();
    for m in it: hits
        invariant
            hits@ == all,
            it.seq() == all,
            out@.len() == it.index(),
            forall|i: int| 0 <= i < out@.len() ==> is_normalized_of(#[trigger] out@[i], all[i]),
    {
        assert(m == all[it.index()]);
        out.push(normalize_match(m));
    }
    out
}

/// The session that an export is.
pub fn session_from_export(session_path: &str, output: &[u8]) -> (r: Result<Session, MsError>)
    ensures
        match r {
            Ok(found) => {
                &&& is_session_id(session_path@, found.id@)
                &&& found.path@ == session_path@
                &&& decode::session_of_parsed(json::parsed_array(output@)) == Ok::<
                    Seq<MessageView>,
                    decode::ExportErrorView,
                >(session::message_views(found.messages@))
                &&& session::is_unknown(found.metadata)
                &&& found.content_hash@ == hex(sha256(output@))
            },
            Err(error) => {
                let decoded = decode::session_of_parsed(json::parsed_array(output@));
                decoded is Err && error@ == ErrorView::CassUnavailable(
                    "Failed to decode session export: "@ + decode::error_words(decoded->Err_0),
                )
            },
        },
{
    match decode_cass_export(output) {
        Ok(messages) => Ok(
            Session {
                id: session_id_from_path(session_path),
                path: session_path.to_owned(),
                messages,
                metadata: SessionMetadata::default(),
                content_hash: content_hash_of(output),
            },
        ),
        Err(error) => {
            let words = error.message();
            Err(
                MsError::CassUnavailable(
                    concat("Failed to decode session export: ", words.as_str()),
                ),
            )
        },
    }
}

/// The metadata of the session that an export is: as yet, how many messages it has.
pub fn metadata_from_export(session_path: &str, output: &[u8]) -> (r: Result<
    SessionMetadata,
    MsError,
>)
    ensures
        match r {
            Ok(metadata) => {
                let decoded = decode::session_of_parsed(json::parsed_array(output@));
                &&& decoded is Ok
                &&& metadata.message_count == decoded->Ok_0.len()
                &&& session::is_unknown(SessionMetadata { message_count: 0, ..metadata })
            },
            Err(error) => {
                let decoded = decode::session_of_parsed(json::parsed_array(output@));
                decoded is Err && error@ == ErrorView::CassUnavailable(
                    "Failed to decode session export: "@ + decode::error_words(decoded->Err_0),
                )
            },
        },
{
    match session_from_export(session_path, output) {
        Ok(found) => {
            let message_count = found.messages.len();
            assert(session::message_views(found.messages@).len() == message_count);
            let unknown = SessionMetadata::default();
            Ok(SessionMetadata { message_count, ..unknown })
        },
        Err(error) => Err(error),
    }
}

/// The text of lines that were fetched.
pub fn excerpt(output: Vec<u8>) -> (r: Result<String, MsError>)
    ensures
        match r {
            Ok(text) => valid_utf8(output@) && text@ == decode_utf8(output@),
            Err(error) => !valid_utf8(output@) && error@ == ErrorView::CassUnavailable(
                "Invalid UTF-8 in excerpt: "@ + text::utf8_complaint(output@),
            ),
        },
{
    match utf8_text(output) {
        Ok(text) => Ok(text),
        Err(problem) => Err(
            MsError::CassUnavailable(concat("Invalid UTF-8 in excerpt: ", problem.as_str())),
        ),
    }
}

// ---------------------------------------------------------------------------------------------
// Fingerprints
// ---------------------------------------------------------------------------------------------

/// Writes a fingerprint over the one of the same session.
pub const UPDATE_FINGERPRINT: &'static str =
    "INSERT INTO cass_fingerprints (session_id, content_hash, updated_at) \
     VALUES (?, ?, datetime('now')) ON CONFLICT(session_id) DO UPDATE SET \
     content_hash = excluded.content_hash, updated_at = excluded.updated_at";

/// Makes the table of fingerprints, unless it is there.
pub const CREATE_FINGERPRINTS: &'static str =
    "CREATE TABLE IF NOT EXISTS cass_fingerprints (session_id TEXT PRIMARY KEY, \
     content_hash TEXT NOT NULL, updated_at TEXT NOT NULL DEFAULT (datetime('now')))";

/// A call that changes the cache.
#[verifier::ext_equal]
pub ghost enum CacheCall {
    Update { session: Seq<char>, hash: Seq<char> },
    Remove { session: Seq<char> },
    Clear,
}

/// The statement that a call gives.
pub open spec fn cache_statement(call: CacheCall) -> StatementView {
    match call {
        CacheCall::Update { session, hash } => StatementView {
            sql: UPDATE_FINGERPRINT@,
            params: seq![ValueView::Text(session), ValueView::Text(hash)],
        },
        CacheCall::Remove { session } => StatementView {
            sql: "DELETE FROM cass_fingerprints WHERE session_id = ?"@,
            params: seq![ValueView::Text(session)],
        },
        CacheCall::Clear => StatementView {
            sql: "DELETE FROM cass_fingerprints"@,
            params: seq![],
        },
    }
}

/// The fingerprint of a session that calls leave behind: that of the last update, unless the
/// session was removed or everything was cleared since.
pub open spec fn remembered(calls: Seq<CacheCall>, session: Seq<char>) -> Option<Seq<char>>
    decreases calls.len(),
{
    if calls.len() == 0 {
        None
    } else {
        let before = remembered(calls.drop_last(), session);
        match calls.last() {
            CacheCall::Update { session: other, hash } => if other == session {
                Some(hash)
            } else {
                before
            },
            CacheCall::Remove { session: other } => if other == session {
                None
            } else {
                before
            },
            CacheCall::Clear => None,
        }
    }
}

/// The row that is found for the fingerprint of a session after calls.
pub open spec fn fingerprint_row(calls: Seq<CacheCall>, session: Seq<char>) -> Option<
    Seq<ValueView>,
> {
    match remembered(calls, session) {
        Some(hash) => Some(seq![ValueView::Text(hash)]),
        None => None,
    }
}

/// Cache of session fingerprints to avoid reprocessing unchanged sessions
#[derive(Debug, Clone)]
pub struct FingerprintCache {}

impl FingerprintCache {
    /// Makes the table of fingerprints, unless it is there.
    pub fn open() -> (r: Statement)
        ensures
            r@ == (StatementView { sql: CREATE_FINGERPRINTS@, params: seq![] }),
    {
        Statement::new(CREATE_FINGERPRINTS)
    }

    /// The fingerprint of a session that is known. The row holds a text; see [`new_or_changed`].
    pub fn is_new_or_changed(session_id: &str) -> (r: Statement)
        ensures
            r@ == (StatementView {
                sql: statement::select_sql(
                    seq!["content_hash"@],
                    statement::from_sql("cass_fingerprints"@, seq!["session_id"@]),
                ),
                params: seq![ValueView::Text(session_id@)],
            }),
    {
        let columns = vec!["content_hash"];
        let keys = vec!["session_id"];
        assert(statement::words(columns@) == seq!["content_hash"@]);
        assert(statement::words(keys@) == seq!["session_id"@]);
        let rest = from_text("cass_fingerprints", &keys);
        select(&columns, rest.as_str()).text(session_id)
    }

    /// Writes the fingerprint of a session over the one that is known.
    pub fn update(session_id: &str, content_hash: &str) -> (r: Statement)
        ensures
            r@ == cache_statement(
                CacheCall::Update { session: session_id@, hash: content_hash@ },
            ),
    {
        Statement::new(UPDATE_FINGERPRINT).text(session_id).text(content_hash)
    }

    /// Removes the fingerprint of a session.
    pub fn remove(session_id: &str) -> (r: Statement)
        ensures
            r@ == cache_statement(CacheCall::Remove { session: session_id@ }),
    {
        Statement::new("DELETE FROM cass_fingerprints WHERE session_id = ?").text(session_id)
    }

    /// Removes all fingerprints, so that the next scan is a full one.
    pub fn clear() -> (r: Statement)
        ensures
            r@ == cache_statement(CacheCall::Clear),
    {
        Statement::new("DELETE FROM cass_fingerprints")
    }

    /// How many fingerprints are known. The row holds a count; see [`fingerprint_count`].
    pub fn count() -> (r: Statement)
        ensures
            r@ == (StatementView {
                sql: "SELECT COUNT(*) FROM cass_fingerprints"@,
                params: seq![],
            }),
    {
        Statement::new("SELECT COUNT(*) FROM cass_fingerprints")
    }
}

/// A session is new or has changed, by the fingerprint that is known of it and the one that it
/// has.
pub open spec fn is_news(known: Option<Seq<char>>, content_hash: Seq<char>) -> bool {
    known != Some(content_hash)
}

/// Whether a session is new or has changed, by the fingerprint that is known of it.
pub fn new_or_changed(known: &Option<String>, content_hash: &str) -> (r: bool)
    ensures
        r == is_news(text::opt_text(*known), content_hash@),
{
    match known {
        None => true,
        Some(hash) => !same_text(hash.as_str(), content_hash),
    }
}

/// Whether a session is new or has changed, by the row that a query for its fingerprint found.
pub open spec fn row_says_news(found: Option<Seq<ValueView>>, content_hash: Seq<char>) -> Result<
    bool,
    ErrorView,
> {
    match found {
        None => Ok(true),
        Some(held) => if row::fits(held, String::columns()) {
            Ok(is_news(Some(row::text_in(held[0])), content_hash))
        } else {
            Err(row::row_error(row::row_problem(held, String::columns(), String::columns().len())))
        },
    }
}

/// What a row that a query may have found holds.
pub open spec fn opt_held(found: Option<Row>) -> Option<Seq<ValueView>> {
    match found {
        Some(found) => Some(statement::values(found@)),
        None => None,
    }
}

/// Whether a session is new or has changed, by the row that a query for its fingerprint found.
pub fn fingerprint_says_news(row: &Option<Row>, content_hash: &str) -> (r: Result<bool, MsError>)
    ensures
        match r {
            Ok(news) => row_says_news(opt_held(*row), content_hash@) == Ok::<bool, ErrorView>(news),
            Err(error) => row_says_news(opt_held(*row), content_hash@) == Err::<bool, ErrorView>(
                error@,
            ),
        },
{
    match read_found::<String>(row) {
        Ok(known) => Ok(new_or_changed(&known, content_hash)),
        Err(error) => Err(error),
    }
}

/// How many fingerprints a row of the query says are known.
pub open spec fn row_says_count(held: Seq<ValueView>) -> Result<usize, ErrorView> {
    if row::fits(held, i64::columns()) {
        Ok(row::integer_in(held[0]) as usize)
    } else {
        Err(row::row_error(row::row_problem(held, i64::columns(), i64::columns().len())))
    }
}

/// How many fingerprints are known, by the row of the query.
pub fn fingerprint_count(row: &Row) -> (r: Result<usize, MsError>)
    ensures
        match r {
            Ok(count) => row_says_count(statement::values(row@)) == Ok::<usize, ErrorView>(count),
            Err(error) => row_says_count(statement::values(row@)) == Err::<usize, ErrorView>(
                error@,
            ),
        },
{
    match read_one::<i64>(row) {
        Ok(count) => Ok(count as usize),
        Err(error) => Err(error),
    }
}

/// The sessions that calls leave a fingerprint of.
pub open spec fn sessions_remembered(calls: Seq<CacheCall>) -> Set<Seq<char>>
    decreases calls.len(),
{
    if calls.len() == 0 {
        Set::empty()
    } else {
        let before = sessions_remembered(calls.drop_last());
        match calls.last() {
            CacheCall::Update { session, hash: _ } => before.insert(session),
            CacheCall::Remove { session } => before.remove(session),
            CacheCall::Clear => Set::empty(),
        }
    }
}

/// The row that is found for the count of fingerprints after calls.
pub open spec fn count_row(calls: Seq<CacheCall>) -> Seq<ValueView> {
    seq![ValueView::Integer(sessions_remembered(calls).len() as i64)]
}

/// The sessions that calls leave a fingerprint of are those for which one is found.
proof fn sessions_remembered_have_a_fingerprint(calls: Seq<CacheCall>, session: Seq<char>)
    ensures
        sessions_remembered(calls).finite(),
        sessions_remembered(calls).contains(session) <==> remembered(calls, session) is Some,
    decreases calls.len(),
{
    if calls.len() > 0 {
        sessions_remembered_have_a_fingerprint(calls.drop_last(), session);
    }
}

/// The count after any calls is the number of sessions that a fingerprint is remembered of, as far
/// as a row can hold it.
pub proof fn count_is_that_of_the_sessions(calls: Seq<CacheCall>, session: Seq<char>)
    requires
        sessions_remembered(calls).len() <= i64::MAX,
        sessions_remembered(calls).len() <= usize::MAX,
    ensures
        row_says_count(count_row(calls)) == Ok::<usize, ErrorView>(
            sessions_remembered(calls).len() as usize,
        ),
        sessions_remembered(calls).finite(),
        sessions_remembered(calls).contains(session) <==> remembered(calls, session) is Some,
{
    sessions_remembered_have_a_fingerprint(calls, session);
    assert(row::fits(count_row(calls), i64::columns()));
}

/// An update counts a session that was not remembered, a removal takes one that was off the count,
/// and after a clearing there is none.
pub proof fn calls_are_counted(calls: Seq<CacheCall>, session: Seq<char>, hash: Seq<char>)
    ensures
        sessions_remembered(calls.push(CacheCall::Update { session, hash })).len()
            == sessions_remembered(calls).len() + (if remembered(calls, session) is Some {
            0nat
        } else {
            1nat
        }),
        sessions_remembered(calls).len() == sessions_remembered(
            calls.push(CacheCall::Remove { session }),
        ).len() + (if remembered(calls, session) is Some {
            1nat
        } else {
            0nat
        }),
        sessions_remembered(calls.push(CacheCall::Clear)).len() == 0,
{
    sessions_remembered_have_a_fingerprint(calls, session);
    assert(calls.push(CacheCall::Update { session, hash }).drop_last() == calls);
    assert(calls.push(CacheCall::Remove { session }).drop_last() == calls);
}

/// After any calls a session is news just where its content is not that of its last update since it
/// was removed or everything was cleared.
pub proof fn news_follow_the_calls(calls: Seq<CacheCall>, session: Seq<char>, now: Seq<char>)
    ensures
        row_says_news(fingerprint_row(calls, session), now) == Ok::<bool, ErrorView>(
            remembered(calls, session) != Some(now),
        ),
{
    if let Some(hash) = remembered(calls, session) {
        let held = seq![ValueView::Text(hash)];
        assert(row::fits(held, String::columns()));
    }
}

/// A session that was just updated is no news until its content changes; one that was just removed
/// or cleared is news.
pub proof fn processed_session_is_no_news(
    calls: Seq<CacheCall>,
    session: Seq<char>,
    hash: Seq<char>,
    now: Seq<char>,
)
    ensures
        row_says_news(
            fingerprint_row(calls.push(CacheCall::Update { session, hash }), session),
            now,
        ) == Ok::<bool, ErrorView>(now != hash),
        row_says_news(
            fingerprint_row(calls.push(CacheCall::Remove { session }), session),
            now,
        ) == Ok::<bool, ErrorView>(true),
        row_says_news(fingerprint_row(calls.push(CacheCall::Clear), session), now) == Ok::<
            bool,
            ErrorView,
        >(true),
{
    let update = CacheCall::Update { session, hash };
    let remove = CacheCall::Remove { session };
    assert(calls.push(update).drop_last() == calls);
    news_follow_the_calls(calls.push(update), session, now);
    news_follow_the_calls(calls.push(remove), session, now);
    news_follow_the_calls(calls.push(CacheCall::Clear), session, now);
}

/// Updates and removals of other sessions do not matter.
pub proof fn other_sessions_do_not_matter(
    calls: Seq<CacheCall>,
    session: Seq<char>,
    other: Seq<char>,
    hash: Seq<char>,
)
    requires
        other != session,
    ensures
        remembered(calls.push(CacheCall::Update { session: other, hash }), session) == remembered(
            calls,
            session,
        ),
        remembered(calls.push(CacheCall::Remove { session: other }), session) == remembered(
            calls,
            session,
        ),
{
    assert(calls.push(CacheCall::Update { session: other, hash }).drop_last() == calls);
    assert(calls.push(CacheCall::Remove { session: other }).drop_last() == calls);
}

/// The fingerprint that a match carries; an empty one, where it carries none.
pub open spec fn carried_hash(m: SessionMatch) -> Seq<char> {
    match m.content_hash {
        Some(hash) => hash@,
        None => ""@,
    }
}

/// Which of the first `n` sessions are news, in order.
pub open spec fn news(looked_up: Seq<(SessionMatch, Option<String>)>, n: nat) -> Seq<SessionMatch>
    decreases n,
{
    if n == 0 {
        Seq::empty()
    } else {
        let before = news(looked_up, (n - 1) as nat);
        let (m, known) = looked_up[n - 1];
        if is_news(text::opt_text(known), carried_hash(m)) {
            before.push(m)
        } else {
            before
        }
    }
}

/// The sessions that are new or have changed, of sessions with the fingerprint that is known of
/// each.
pub fn delta_sessions(looked_up: Vec<(SessionMatch, Option<String>)>) -> (r: Vec<SessionMatch>)
    ensures
        r@ == news(looked_up@, looked_up@.len()),
{
    let ghost all = looked_up@;
    let mut out: Vec<SessionMatch> = Vec::new();
    for item in it: looked_up
        invariant
            looked_up@ == all,
            it.seq() == all,
            out@ == news(all, it.index() as nat),
    {
        let ghost n = it.index();
        assert(item == all[n]);
        let (m, known) = item;
        let changed = match &m.content_hash {
            Some(hash) => new_or_changed(&known, hash.as_str()),
            None => new_or_changed(&known, ""),
        };
        if changed {
            out.push(m);
        }
    }
    out
}

/// Sessions without the fingerprints that were looked up for them.
pub open spec fn hits_of(looked_up: Seq<(SessionMatch, Option<String>)>) -> Seq<SessionMatch> {
    Seq::new(looked_up.len(), |i: int| looked_up[i].0)
}

/// The sessions that an incremental scan gives: all hits where no fingerprints are kept, and
/// otherwise those that are news.
pub open spec fn scanned(
    has_fingerprints: bool,
    looked_up: Seq<(SessionMatch, Option<String>)>,
) -> Seq<SessionMatch> {
    if has_fingerprints {
        news(looked_up, looked_up.len())
    } else {
        hits_of(looked_up)
    }
}

impl CassClient {
    /// The sessions of an incremental scan, of the hits with the fingerprint that is known of each.
    /// A client that keeps no fingerprints gives all of them.
    pub fn scanned_sessions(
        &self,
        looked_up: Vec<(SessionMatch, Option<String>)>,
    ) -> (r: Vec<SessionMatch>)
        ensures
            r@ == scanned(self.has_fingerprints, looked_up@),
    {
        if self.has_fingerprints {
            return delta_sessions(looked_up);
        }
        let ghost all = looked_up@;
        let mut out: Vec<SessionMatch> = Vec::new();
        for item in it: looked_up
            invariant
                it.seq() == all,
                out@ == hits_of(all).take(it.index() as int),
        {
            let ghost n = it.index();
            assert(item == all[n]);
            let (m, _) = item;
            out.push(m);
        }
        out
    }
}

/// A session of which no fingerprint is known is given by any scan: where none is known of any, the
/// scan gives all hits, in order.
pub proof fn scan_without_fingerprints_gives_all(
    has_fingerprints: bool,
    looked_up: Seq<(SessionMatch, Option<String>)>,
)
    requires
        forall|i: int| 0 <= i < looked_up.len() ==> (#[trigger] looked_up[i]).1 is None,
    ensures
        scanned(has_fingerprints, looked_up) == hits_of(looked_up),
{
    all_are_news(looked_up, looked_up.len());
}

/// Sessions of which no fingerprint is known are news.
proof fn all_are_news(looked_up: Seq<(SessionMatch, Option<String>)>, n: nat)
    requires
        n <= looked_up.len(),
        forall|i: int| 0 <= i < looked_up.len() ==> (#[trigger] looked_up[i]).1 is None,
    ensures
        news(looked_up, n) == hits_of(looked_up).take(n as int),
    decreases n,
{
    if n > 0 {
        all_are_news(looked_up, (n - 1) as nat);
        assert(looked_up[n - 1].1 is None);
    }
    assert(hits_of(looked_up).take(looked_up.len() as int) == hits_of(looked_up));
}

/// The news are just the sessions whose fingerprint is not the one that is known of them.
pub proof fn news_are_those_that_changed(
    looked_up: Seq<(SessionMatch, Option<String>)>,
    n: nat,
    m: SessionMatch,
)
    requires
        n <= looked_up.len(),
    ensures
        news(looked_up, n).contains(m) <==> exists|i: int|
            0 <= i < n && (#[trigger] looked_up[i]).0 == m && is_news(
                text::opt_text(looked_up[i].1),
                carried_hash(m),
            ),
    decreases n,
{
    if n > 0 {
        let last = (n - 1) as nat;
        news_are_those_that_changed(looked_up, last, m);
        let before = news(looked_up, last);
        let all = news(looked_up, n);
        if all.contains(m) {
            let k = choose|k: int| 0 <= k < all.len() && all[k] == m;
            if k < before.len() {
                assert(before[k] == m);
                let i = choose|i: int|
                    0 <= i < last && (#[trigger] looked_up[i]).0 == m && is_news(
                        text::opt_text(looked_up[i].1),
                        carried_hash(m),
                    );
                assert(looked_up[i].0 == m);
            } else {
                assert(looked_up[last as int].0 == m);
            }
        }
        if exists|i: int|
            0 <= i < n && (#[trigger] looked_up[i]).0 == m && is_news(
                text::opt_text(looked_up[i].1),
                carried_hash(m),
            ) {
            let i = choose|i: int|
                0 <= i < n && (#[trigger] looked_up[i]).0 == m && is_news(
                    text::opt_text(looked_up[i].1),
                    carried_hash(m),
                );
            if i < last {
                assert(before.contains(m));
                let k = choose|k: int| 0 <= k < before.len() && before[k] == m;
                assert(all[k] == m);
            } else {
                assert(all[all.len() - 1] == m);
            }
        }
    }
}

/// Which of the first `n` matches are news after calls on the cache, in order.
pub open spec fn news_after(calls: Seq<CacheCall>, hits: Seq<SessionMatch>, n: nat) -> Seq<
    SessionMatch,
>
    decreases n,
{
    if n == 0 {
        Seq::empty()
    } else {
        let before = news_after(calls, hits, (n - 1) as nat);
        let m = hits[n - 1];
        if remembered(calls, m.session_id@) != Some(carried_hash(m)) {
            before.push(m)
        } else {
            before
        }
    }
}

/// The sessions of an incremental scan are those matches, in order, that are news after the calls
/// on the cache, and all of them without a cache. Looking fingerprints up is no call, so a session
/// comes back until it is updated with the hash that it has.
pub proof fn incremental_scan_gives_the_news(
    has_fingerprints: bool,
    calls: Seq<CacheCall>,
    hits: Seq<SessionMatch>,
    looked_up: Seq<(SessionMatch, Option<String>)>,
)
    requires
        hits.len() == looked_up.len(),
        forall|i: int|
            0 <= i < hits.len() ==> (#[trigger] looked_up[i]).0 == hits[i] && (has_fingerprints
                ==> text::opt_text(looked_up[i].1) == remembered(calls, hits[i].session_id@)),
    ensures
        scanned(has_fingerprints, looked_up) == (if has_fingerprints {
            news_after(calls, hits, hits.len())
        } else {
            hits
        }),
{
    if has_fingerprints {
        first_news_agree(calls, hits, looked_up, hits.len());
    } else {
        assert forall|i: int| 0 <= i < hits.len() implies hits_of(looked_up)[i] == hits[i] by {
            assert(looked_up[i].0 == hits[i]);
        }
        assert(hits_of(looked_up) == hits);
    }
}

/// The news are those after the calls on the cache, where the fingerprints were looked up there.
proof fn first_news_agree(
    calls: Seq<CacheCall>,
    hits: Seq<SessionMatch>,
    looked_up: Seq<(SessionMatch, Option<String>)>,
    n: nat,
)
    requires
        n <= hits.len() == looked_up.len(),
        forall|i: int|
            0 <= i < hits.len() ==> (#[trigger] looked_up[i]).0 == hits[i] && text::opt_text(
                looked_up[i].1,
            ) == remembered(calls, hits[i].session_id@),
    ensures
        news(looked_up, n) == news_after(calls, hits, n),
    decreases n,
{
    if n > 0 {
        first_news_agree(calls, hits, looked_up, (n - 1) as nat);
        assert(looked_up[n - 1].0 == hits[n - 1]);
    }
}

} // verus!
