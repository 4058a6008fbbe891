//! What was put in quarantine, and how commands were judged.

use crate::error::{ErrorView, MsError};
use crate::json;
use crate::json::JsonView;
use crate::storage::row;
use crate::storage::row::{
    check_column, find_by, insert_record, integer_of, opt_text_of, read_row, select_records,
    text_of, Columns, FromRow, Kind, Row, RowError, RowErrorView, ToRow,
};
use crate::storage::sqlite::Database;
use crate::storage::statement;
use crate::storage::statement::{
    bound_opt_text, bound_text, SqlValue, Statement, StatementView, ValueView,
};
use crate::storage::table;
use crate::storage::table::{Keyed, TableView};
use crate::text;
use crate::text::{concat, owned_text};
use vstd::prelude::*;

verus! {

/// A message that was put in quarantine.
#[derive(Debug, Clone)]
pub struct QuarantineRecord {
    pub quarantine_id: String,
    pub session_id: String,
    pub message_index: usize,
    pub content_hash: String,
    pub safe_excerpt: String,
    /// The classification as JSON.
    pub acip_classification: String,
    pub audit_tag: Option<String>,
    pub created_at: String,
    pub replay_command: String,
}

/// A judgement on a command.
#[derive(Debug, Clone)]
pub struct CommandSafetyEvent {
    pub session_id: Option<String>,
    pub command: String,
    pub dcg_version: Option<String>,
    pub dcg_pack: Option<String>,
    /// The decision as JSON.
    pub decision: String,
    pub created_at: String,
}

/// What something in quarantine is.
#[verifier::ext_equal]
pub ghost struct QuarantineView {
    pub quarantine_id: Seq<char>,
    pub session_id: Seq<char>,
    pub message_index: usize,
    pub content_hash: Seq<char>,
    pub safe_excerpt: Seq<char>,
    pub acip_classification: Seq<char>,
    pub audit_tag: Option<Seq<char>>,
    pub created_at: Seq<char>,
    pub replay_command: Seq<char>,
}

/// What a judgement on a command is.
#[verifier::ext_equal]
pub ghost struct SafetyView {
    pub session_id: Option<Seq<char>>,
    pub command: Seq<char>,
    pub dcg_version: Option<Seq<char>>,
    pub dcg_pack: Option<Seq<char>>,
    pub decision: Seq<char>,
    pub created_at: Seq<char>,
}

impl View for QuarantineRecord {
    type V = QuarantineView;

    open spec fn view(&self) -> QuarantineView {
        QuarantineView {
            quarantine_id: self.quarantine_id@,
            session_id: self.session_id@,
            message_index: self.message_index,
            content_hash: self.content_hash@,
            safe_excerpt: self.safe_excerpt@,
            acip_classification: self.acip_classification@,
            audit_tag: text::opt_text(self.audit_tag),
            created_at: self.created_at@,
            replay_command: self.replay_command@,
        }
    }
}

impl View for CommandSafetyEvent {
    type V = SafetyView;

    open spec fn view(&self) -> SafetyView {
        SafetyView {
            session_id: text::opt_text(self.session_id),
            command: self.command@,
            dcg_version: text::opt_text(self.dcg_version),
            dcg_pack: text::opt_text(self.dcg_pack),
            decision: self.decision@,
            created_at: self.created_at@,
        }
    }
}

/// What each of a list of judgements is.
pub open spec fn safety_views(list: Seq<CommandSafetyEvent>) -> Seq<SafetyView> {
    Seq::new(list.len(), |i: int| list[i]@)
}

// ---------------------------------------------------------------------------------------------
// Quarantine
// ---------------------------------------------------------------------------------------------

/// Something in quarantine as its row holds it.
#[derive(Debug, Clone)]
pub struct QuarantineRow {
    pub quarantine_id: String,
    pub session_id: String,
    pub message_index: i64,
    pub content_hash: String,
    pub safe_excerpt: String,
    pub classification_json: String,
    pub audit_tag: Option<String>,
    pub created_at: String,
    pub replay_command: String,
}

impl FromRow for QuarantineRow {
    open spec fn columns() -> Seq<Kind> {
        seq![
            Kind::Text,
            Kind::Text,
            Kind::Integer,
            Kind::Text,
            Kind::Text,
            Kind::Text,
            Kind::OptText,
            Kind::Text,
            Kind::Text,
        ]
    }

    open spec fn holds(self, row: Seq<ValueView>) -> bool {
        &&& self.quarantine_id@ == row::text_in(row[0])
        &&& self.session_id@ == row::text_in(row[1])
        &&& self.message_index == row::integer_in(row[2])
        &&& self.content_hash@ == row::text_in(row[3])
        &&& self.safe_excerpt@ == row::text_in(row[4])
        &&& self.classification_json@ == row::text_in(row[5])
        &&& text::opt_text(self.audit_tag) == row::opt_text_in(row[6])
        &&& self.created_at@ == row::text_in(row[7])
        &&& self.replay_command@ == row::text_in(row[8])
    }

    fn kinds() -> (r: Vec<Kind>) {
        vec![
            Kind::Text,
            Kind::Text,
            Kind::Integer,
            Kind::Text,
            Kind::Text,
            Kind::Text,
            Kind::OptText,
            Kind::Text,
            Kind::Text,
        ]
    }

    fn take(row: &Row) -> (r: Self) {
        proof {
            let held = statement::values(row@);
            assert(row::column_problem(held, 8, Self::columns()[8]) is None);
        }
        QuarantineRow {
            quarantine_id: text_of(&row[0]),
            session_id: text_of(&row[1]),
            message_index: integer_of(&row[2]),
            content_hash: text_of(&row[3]),
            safe_excerpt: text_of(&row[4]),
            classification_json: text_of(&row[5]),
            audit_tag: opt_text_of(&row[6]),
            created_at: text_of(&row[7]),
            replay_command: text_of(&row[8]),
        }
    }
}

impl Columns for QuarantineRow {
    open spec fn names() -> Seq<Seq<char>> {
        seq![
            "quarantine_id"@,
            "session_id"@,
            "message_index"@,
            "content_hash"@,
            "safe_excerpt"@,
            "classification_json"@,
            "audit_tag"@,
            "created_at"@,
            "replay_command"@,
        ]
    }

    proof fn names_match() {
    }

    fn name_list() -> (r: Vec<&'static str>) {
        let list = vec![
            "quarantine_id",
            "session_id",
            "message_index",
            "content_hash",
            "safe_excerpt",
            "classification_json",
            "audit_tag",
            "created_at",
            "replay_command",
        ];
        assert(statement::words(list@) == Self::names());
        list
    }
}

impl ToRow for QuarantineRow {
    open spec fn values(self) -> Seq<ValueView> {
        seq![
            ValueView::Text(self.quarantine_id@),
            ValueView::Text(self.session_id@),
            ValueView::Integer(self.message_index),
            ValueView::Text(self.content_hash@),
            ValueView::Text(self.safe_excerpt@),
            ValueView::Text(self.classification_json@),
            statement::opt_text_value(text::opt_text(self.audit_tag)),
            ValueView::Text(self.created_at@),
            ValueView::Text(self.replay_command@),
        ]
    }

    proof fn reads_back(self) {
        assert forall|read: Self| #[trigger] read.holds(self.values()) implies read.values()
            == self.values() by {
            assert(read.values() =~= self.values());
        }
    }

    fn bound(&self) -> (r: Vec<SqlValue>) {
        let list = vec![
            bound_text(self.quarantine_id.as_str()),
            bound_text(self.session_id.as_str()),
            SqlValue::Integer(self.message_index),
            bound_text(self.content_hash.as_str()),
            bound_text(self.safe_excerpt.as_str()),
            bound_text(self.classification_json.as_str()),
            bound_opt_text(&self.audit_tag),
            bound_text(self.created_at.as_str()),
            bound_text(self.replay_command.as_str()),
        ];
        assert(statement::values(list@) == self.values());
        list
    }
}

impl Keyed for QuarantineRow {
    open spec fn key_length() -> nat {
        1
    }

    proof fn names_differ() {
        reveal_strlit("quarantine_id");
        reveal_strlit("session_id");
        reveal_strlit("message_index");
        reveal_strlit("content_hash");
        reveal_strlit("safe_excerpt");
        reveal_strlit("classification_json");
        reveal_strlit("audit_tag");
        reveal_strlit("created_at");
        reveal_strlit("replay_command");
        let names = Self::names();
        let marks = seq![
            10011711313int,
            10010111510int,
            12010110913int,
            10411109912int,
            11609711512int,
            11010809919int,
            10311709709int,
            11611409910int,
            10010111414int,
        ];
        assert(text::mark("quarantine_id"@) == marks[0]);
        assert(text::mark("session_id"@) == marks[1]);
        assert(text::mark("message_index"@) == marks[2]);
        assert(text::mark("content_hash"@) == marks[3]);
        assert(text::mark("safe_excerpt"@) == marks[4]);
        assert(text::mark("classification_json"@) == marks[5]);
        assert(text::mark("audit_tag"@) == marks[6]);
        assert(text::mark("created_at"@) == marks[7]);
        assert(text::mark("replay_command"@) == marks[8]);
        assert forall|i: int, j: int| 0 <= i < j < names.len() implies names[i] != names[j] by {
            assert(text::mark(names[i]) == marks[i]);
            assert(text::mark(names[j]) == marks[j]);
        }
    }
}

/// The values that something in quarantine is written as.
pub open spec fn quarantine_values(record: QuarantineView) -> Seq<ValueView> {
    seq![
        ValueView::Text(record.quarantine_id),
        ValueView::Text(record.session_id),
        statement::size_value(record.message_index),
        ValueView::Text(record.content_hash),
        ValueView::Text(record.safe_excerpt),
        ValueView::Text(record.acip_classification),
        statement::opt_text_value(record.audit_tag),
        ValueView::Text(record.created_at),
        ValueView::Text(record.replay_command),
    ]
}

/// The classification in a row, by what its text is read as.
pub open spec fn classification_said(
    held: Seq<ValueView>,
    parsed: Result<JsonView, Seq<char>>,
) -> Result<JsonView, RowErrorView> {
    match row::column_problem(held, 5, Kind::Text) {
        Some(problem) => Err(problem),
        None => match parsed {
            Ok(value) => Ok(value),
            Err(problem) => Err(
                RowErrorView::TypeMismatch {
                    expected: "AcipClassification JSON (string)"@,
                    actual: "invalid JSON: "@ + problem,
                },
            ),
        },
    }
}

/// What a row is read as, by whether its classification was understood. One that was not is an
/// error, before any other column is read.
pub open spec fn quarantine_said(held: Seq<ValueView>, understood: Result<(), Seq<char>>) -> Result<
    QuarantineView,
    RowErrorView,
> {
    match understood {
        Err(problem) => Err(
            RowErrorView::TypeMismatch {
                expected: "AcipClassification (typed)"@,
                actual: "decode error: "@ + problem,
            },
        ),
        Ok(_) => match row::row_problem(
            held,
            QuarantineRow::columns(),
            QuarantineRow::columns().len(),
        ) {
            Some(problem) => Err(problem),
            None => Ok(
                QuarantineView {
                    quarantine_id: row::text_in(held[0]),
                    session_id: row::text_in(held[1]),
                    message_index: row::integer_in(held[2]) as usize,
                    content_hash: row::text_in(held[3]),
                    safe_excerpt: row::text_in(held[4]),
                    acip_classification: row::text_in(held[5]),
                    audit_tag: row::opt_text_in(held[6]),
                    created_at: row::text_in(held[7]),
                    replay_command: row::text_in(held[8]),
                },
            ),
        },
    }
}

/// Whether something was understood, as a result of views.
pub open spec fn understood_view(understood: Result<(), String>) -> Result<(), Seq<char>> {
    match understood {
        Ok(_) => Ok(()),
        Err(problem) => Err(problem@),
    }
}

/// The classification in a row.
pub fn classification_in(row: &Row) -> (r: Result<serde_json::Value, RowError>)
    ensures
        ({
            let held = statement::values(row@);
            let said = classification_said(held, json::parsed_text(row::text_in(held[5])));
            match r {
                Ok(value) => said == Ok::<JsonView, RowErrorView>(json::json_contents(value)),
                Err(problem) => said == Err::<JsonView, RowErrorView>(problem@),
            }
        }),
{
    if let Some(problem) = check_column(row, 5, Kind::Text) {
        return Err(problem);
    }
    let written = text_of(&row[5]);
    classification_read(json::parse_text(written.as_str()))
}

/// The classification that a text is, by what it was read as.
pub fn classification_read(parsed: Result<serde_json::Value, String>) -> (r: Result<
    serde_json::Value,
    RowError,
>)
    ensures
        match parsed {
            Ok(value) => r == Ok::<serde_json::Value, RowError>(value),
            Err(problem) => r is Err && r->Err_0@ == (RowErrorView::TypeMismatch {
                expected: "AcipClassification JSON (string)"@,
                actual: "invalid JSON: "@ + problem@,
            }),
        },
{
    match parsed {
        Ok(value) => Ok(value),
        Err(problem) => Err(
            RowError::TypeMismatch {
                expected: "AcipClassification JSON (string)".to_owned(),
                actual: concat("invalid JSON: ", problem.as_str()),
            },
        ),
    }
}

/// What a row in quarantine is, by whether its classification was understood.
pub fn quarantine_from_row(row: &Row, understood: Result<(), String>) -> (r: Result<
    QuarantineRecord,
    RowError,
>)
    ensures
        match r {
            Ok(record) => quarantine_said(statement::values(row@), understood_view(understood))
                == Ok::<QuarantineView, RowErrorView>(record@),
            Err(problem) => quarantine_said(statement::values(row@), understood_view(understood))
                == Err::<QuarantineView, RowErrorView>(problem@),
        },
{
    if let Err(problem) = understood {
        return Err(
            RowError::TypeMismatch {
                expected: "AcipClassification (typed)".to_owned(),
                actual: concat("decode error: ", problem.as_str()),
            },
        );
    }
    let raw = match read_row::<QuarantineRow>(row) {
        Ok(raw) => raw,
        Err(problem) => return Err(problem),
    };
    proof {
        row::fitting_has_no_problem(
            statement::values(row@),
            QuarantineRow::columns(),
            QuarantineRow::columns().len(),
        );
    }
    let QuarantineRow {
        quarantine_id,
        session_id,
        message_index,
        content_hash,
        safe_excerpt,
        classification_json,
        audit_tag,
        created_at,
        replay_command,
    } = raw;
    Ok(
        QuarantineRecord {
            quarantine_id,
            session_id,
            message_index: message_index as usize,
            content_hash,
            safe_excerpt,
            acip_classification: classification_json,
            audit_tag,
            created_at,
            replay_command,
        },
    )
}

/// A row that holds what something in quarantine is written as is read as the same.
pub proof fn quarantine_reads_back(record: QuarantineView)
    ensures
        quarantine_said(quarantine_values(record), Ok(())) == Ok::<QuarantineView, RowErrorView>(
            record,
        ),
{
    let held = quarantine_values(record);
    assert(row::fits(held, QuarantineRow::columns()));
    row::fitting_has_no_problem(held, QuarantineRow::columns(), QuarantineRow::columns().len());
    let n = record.message_index;
    assert((n as i64) as usize == n) by (bit_vector);
}

// ---------------------------------------------------------------------------------------------
// Judgements on commands
// ---------------------------------------------------------------------------------------------

/// A judgement on a command as its row holds it.
#[derive(Debug, Clone)]
pub struct CommandSafetyRawRow {
    pub session_id: Option<String>,
    pub command: String,
    pub dcg_version: Option<String>,
    pub dcg_pack: Option<String>,
    pub decision_json: String,
    pub created_at: String,
}

impl FromRow for CommandSafetyRawRow {
    open spec fn columns() -> Seq<Kind> {
        seq![
            Kind::OptText,
            Kind::Text,
            Kind::OptText,
            Kind::OptText,
            Kind::Text,
            Kind::Text,
        ]
    }

    open spec fn holds(self, row: Seq<ValueView>) -> bool {
        &&& text::opt_text(self.session_id) == row::opt_text_in(row[0])
        &&& self.command@ == row::text_in(row[1])
        &&& text::opt_text(self.dcg_version) == row::opt_text_in(row[2])
        &&& text::opt_text(self.dcg_pack) == row::opt_text_in(row[3])
        &&& self.decision_json@ == row::text_in(row[4])
        &&& self.created_at@ == row::text_in(row[5])
    }

    fn kinds() -> (r: Vec<Kind>) {
        vec![
            Kind::OptText,
            Kind::Text,
            Kind::OptText,
            Kind::OptText,
            Kind::Text,
            Kind::Text,
        ]
    }

    fn take(row: &Row) -> (r: Self) {
        proof {
            let held = statement::values(row@);
            assert(row::column_problem(held, 5, Self::columns()[5]) is None);
        }
        CommandSafetyRawRow {
            session_id: opt_text_of(&row[0]),
            command: text_of(&row[1]),
            dcg_version: opt_text_of(&row[2]),
            dcg_pack: opt_text_of(&row[3]),
            decision_json: text_of(&row[4]),
            created_at: text_of(&row[5]),
        }
    }
}

impl Columns for CommandSafetyRawRow {
    open spec fn names() -> Seq<Seq<char>> {
        seq![
            "session_id"@,
            "command"@,
            "dcg_version"@,
            "dcg_pack"@,
            "decision_json"@,
            "created_at"@,
        ]
    }

    proof fn names_match() {
    }

    fn name_list() -> (r: Vec<&'static str>) {
        let list = vec![
            "session_id",
            "command",
            "dcg_version",
            "dcg_pack",
            "decision_json",
            "created_at",
        ];
        assert(statement::words(list@) == Self::names());
        list
    }
}

impl ToRow for CommandSafetyRawRow {
    open spec fn values(self) -> Seq<ValueView> {
        seq![
            statement::opt_text_value(text::opt_text(self.session_id)),
            ValueView::Text(self.command@),
            statement::opt_text_value(text::opt_text(self.dcg_version)),
            statement::opt_text_value(text::opt_text(self.dcg_pack)),
            ValueView::Text(self.decision_json@),
            ValueView::Text(self.created_at@),
        ]
    }

    proof fn reads_back(self) {
        assert forall|read: Self| #[trigger] read.holds(self.values()) implies read.values()
            == self.values() by {
            assert(read.values() =~= self.values());
        }
    }

    fn bound(&self) -> (r: Vec<SqlValue>) {
        let list = vec![
            bound_opt_text(&self.session_id),
            bound_text(self.command.as_str()),
            bound_opt_text(&self.dcg_version),
            bound_opt_text(&self.dcg_pack),
            bound_text(self.decision_json.as_str()),
            bound_text(self.created_at.as_str()),
        ];
        assert(statement::values(list@) == self.values());
        list
    }
}

/// The values that a judgement is written as.
pub open spec fn safety_values(event: SafetyView) -> Seq<ValueView> {
    seq![
        statement::opt_text_value(event.session_id),
        ValueView::Text(event.command),
        statement::opt_text_value(event.dcg_version),
        statement::opt_text_value(event.dcg_pack),
        ValueView::Text(event.decision),
        ValueView::Text(event.created_at),
    ]
}

/// What a row is read as, by whether its decision was understood.
pub open spec fn safety_said(held: Seq<ValueView>, understood: Result<(), Seq<char>>) -> Result<
    SafetyView,
    ErrorView,
> {
    match understood {
        Err(problem) => Err(ErrorView::Serialization("decode decision: "@ + problem)),
        Ok(_) => Ok(
            SafetyView {
                session_id: row::opt_text_in(held[0]),
                command: row::text_in(held[1]),
                dcg_version: row::opt_text_in(held[2]),
                dcg_pack: row::opt_text_in(held[3]),
                decision: row::text_in(held[4]),
                created_at: row::text_in(held[5]),
            },
        ),
    }
}

/// What the first `n` rows are read as, by whether the decision of each was understood, or the
/// first problem in them.
pub open spec fn safeties_said(
    rows: Seq<Seq<ValueView>>,
    understood: Seq<Result<(), Seq<char>>>,
    n: nat,
) -> Result<Seq<SafetyView>, ErrorView>
    decreases n,
{
    if n == 0 {
        Ok(Seq::empty())
    } else {
        match safeties_said(rows, understood, (n - 1) as nat) {
            Err(error) => Err(error),
            Ok(before) => match safety_said(rows[n - 1], understood[n - 1]) {
                Err(error) => Err(error),
                Ok(event) => Ok(before.push(event)),
            },
        }
    }
}

/// The values of each of a list of rows.
pub open spec fn raw_values(list: Seq<CommandSafetyRawRow>) -> Seq<Seq<ValueView>> {
    Seq::new(list.len(), |i: int| list[i].values())
}

/// Whether each of a list was understood, as results of views.
pub open spec fn understood_views(list: Seq<Result<(), String>>) -> Seq<Result<(), Seq<char>>> {
    Seq::new(list.len(), |i: int| understood_view(list[i]))
}

/// The judgement that a row is, by whether its decision was understood.
pub fn safety_from_row(raw: &CommandSafetyRawRow, understood: &Result<(), String>) -> (r: Result<
    CommandSafetyEvent,
    MsError,
>)
    ensures
        match r {
            Ok(event) => safety_said(raw.values(), understood_view(*understood)) == Ok::<
                SafetyView,
                ErrorView,
            >(event@),
            Err(error) => safety_said(raw.values(), understood_view(*understood)) == Err::<
                SafetyView,
                ErrorView,
            >(error@),
        },
{
    match understood {
        Err(problem) => Err(
            MsError::Serialization(concat("decode decision: ", problem.as_str())),
        ),
        Ok(_) => Ok(
            CommandSafetyEvent {
                session_id: owned_text(&raw.session_id),
                command: raw.command.as_str().to_owned(),
                dcg_version: owned_text(&raw.dcg_version),
                dcg_pack: owned_text(&raw.dcg_pack),
                decision: raw.decision_json.as_str().to_owned(),
                created_at: raw.created_at.as_str().to_owned(),
            },
        ),
    }
}

/// A problem in an early row is the problem of every longer list.
proof fn problem_stays(
    rows: Seq<Seq<ValueView>>,
    understood: Seq<Result<(), Seq<char>>>,
    n: nat,
    m: nat,
)
    requires
        n <= m,
        safeties_said(rows, understood, n) is Err,
    ensures
        safeties_said(rows, understood, m) == safeties_said(rows, understood, n),
    decreases m,
{
    if n < m {
        problem_stays(rows, understood, n, (m - 1) as nat);
    }
}

/// The judgements that rows are, by whether the decision of each was understood. The first that
/// was not fails the whole.
pub fn command_safety_events(
    raw: &Vec<CommandSafetyRawRow>,
    understood: &Vec<Result<(), String>>,
) -> (r: Result<Vec<CommandSafetyEvent>, MsError>)
    requires
        raw@.len() == understood@.len(),
    ensures
        ({
            let said = safeties_said(
                raw_values(raw@),
                understood_views(understood@),
                raw@.len(),
            );
            match r {
                Ok(list) => said == Ok::<Seq<SafetyView>, ErrorView>(safety_views(list@)),
                Err(error) => said == Err::<Seq<SafetyView>, ErrorView>(error@),
            }
        }),
{
    let ghost rows = raw_values(raw@);
    let ghost views = understood_views(understood@);
    let mut out: Vec<CommandSafetyEvent> = Vec::new();
    assert(safety_views(out@) == Seq::<SafetyView>::empty());
    for i in 0..raw.len()
        invariant
            raw@.len() == understood@.len(),
            rows == raw_values(raw@),
            views == understood_views(understood@),
            safeties_said(rows, views, i as nat) == Ok::<Seq<SafetyView>, ErrorView>(
                safety_views(out@),
            ),
    {
        match safety_from_row(&raw[i], &understood[i]) {
            Ok(event) => {
                let ghost before = out@;
                out.push(event);
                assert(safety_views(out@) == safety_views(before).push(event@));
            },
            Err(error) => {
                proof {
                    problem_stays(rows, views, (i + 1) as nat, raw@.len());
                }
                return Err(error);
            },
        }
    }
    Ok(out)
}

/// Where every decision is understood, each row gives its judgement, in order.
pub proof fn understood_judgements_are_all_read(
    rows: Seq<Seq<ValueView>>,
    understood: Seq<Result<(), Seq<char>>>,
    n: nat,
)
    requires
        n <= rows.len() == understood.len(),
        forall|i: int| 0 <= i < n ==> (#[trigger] understood[i]) is Ok,
    ensures
        safeties_said(rows, understood, n) is Ok,
        safeties_said(rows, understood, n)->Ok_0.len() == n,
        forall|i: int|
            0 <= i < n ==> Ok::<SafetyView, ErrorView>(
                #[trigger] safeties_said(rows, understood, n)->Ok_0[i],
            ) == safety_said(rows[i], Ok(())),
    decreases n,
{
    if n > 0 {
        understood_judgements_are_all_read(rows, understood, (n - 1) as nat);
        assert(understood[n - 1] is Ok);
    }
}

/// A row that holds what a judgement is written as is read as the same judgement.
pub proof fn judgement_reads_back(event: SafetyView)
    ensures
        row::fits(safety_values(event), CommandSafetyRawRow::columns()),
        safety_said(safety_values(event), Ok(())) == Ok::<SafetyView, ErrorView>(event),
{
}

impl Database {
    /// Writes that something was put in quarantine.
    pub fn insert_quarantine_record(record: &QuarantineRecord) -> (r: Statement)
        ensures
            r@ == (StatementView {
                sql: statement::insert_sql(
                    "INSERT INTO injection_quarantine"@,
                    QuarantineRow::names(),
                ),
                params: quarantine_values(record@),
            }),
    {
        let row = QuarantineRow {
            quarantine_id: record.quarantine_id.as_str().to_owned(),
            session_id: record.session_id.as_str().to_owned(),
            message_index: record.message_index as i64,
            content_hash: record.content_hash.as_str().to_owned(),
            safe_excerpt: record.safe_excerpt.as_str().to_owned(),
            classification_json: record.acip_classification.as_str().to_owned(),
            audit_tag: owned_text(&record.audit_tag),
            created_at: record.created_at.as_str().to_owned(),
            replay_command: record.replay_command.as_str().to_owned(),
        };
        assert(row.values() == quarantine_values(record@));
        insert_record("INSERT INTO injection_quarantine", &row)
    }

    /// What is in quarantine, the latest first. For a row see [`quarantine_from_row`].
    pub fn list_quarantine_records(limit: usize) -> (r: Statement)
        ensures
            r@ == (StatementView {
                sql: statement::select_sql(
                    QuarantineRow::names(),
                    "injection_quarantine ORDER BY created_at DESC LIMIT ?"@,
                ),
                params: seq![statement::size_value(limit)],
            }),
    {
        select_records::<QuarantineRow>(
            "injection_quarantine ORDER BY created_at DESC LIMIT ?",
        ).size(
            limit,
        )
    }

    /// What of a session is in quarantine, the latest first. For a row see
    /// [`quarantine_from_row`].
    pub fn list_quarantine_records_by_session(session_id: &str, limit: usize) -> (r: Statement)
        ensures
            r@ == (StatementView {
                sql: statement::select_sql(
                    QuarantineRow::names(),
                    "injection_quarantine WHERE session_id = ? ORDER BY created_at DESC LIMIT ?"@,
                ),
                params: seq![ValueView::Text(session_id@), statement::size_value(limit)],
            }),
    {
        select_records::<QuarantineRow>(
            "injection_quarantine WHERE session_id = ? ORDER BY created_at DESC LIMIT ?",
        ).text(session_id).size(limit)
    }

    /// Something in quarantine by its id. For the row see [`quarantine_from_row`].
    pub fn get_quarantine_record(quarantine_id: &str) -> (r: Statement)
        ensures
            r@ == (StatementView {
                sql: statement::select_sql(
                    QuarantineRow::names(),
                    statement::from_sql("injection_quarantine"@, seq!["quarantine_id"@]),
                ),
                params: seq![ValueView::Text(quarantine_id@)],
            }),
    {
        find_by::<QuarantineRow>("injection_quarantine", "quarantine_id", quarantine_id)
    }

    /// Writes a judgement on a command.
    pub fn insert_command_safety_event(event: &CommandSafetyEvent) -> (r: Statement)
        ensures
            r@ == (StatementView {
                sql: statement::insert_sql(
                    "INSERT INTO command_safety_events"@,
                    CommandSafetyRawRow::names(),
                ),
                params: safety_values(event@),
            }),
    {
        let row = CommandSafetyRawRow {
            session_id: owned_text(&event.session_id),
            command: event.command.as_str().to_owned(),
            dcg_version: owned_text(&event.dcg_version),
            dcg_pack: owned_text(&event.dcg_pack),
            decision_json: event.decision.as_str().to_owned(),
            created_at: event.created_at.as_str().to_owned(),
        };
        assert(row.values() == safety_values(event@));
        insert_record("INSERT INTO command_safety_events", &row)
    }

    /// The judgements on commands, the latest first. Each row is a
    /// [`CommandSafetyRawRow`]; see [`command_safety_events`].
    pub fn list_command_safety_events(limit: usize) -> (r: Statement)
        ensures
            r@ == (StatementView {
                sql: statement::select_sql(
                    CommandSafetyRawRow::names(),
                    "command_safety_events ORDER BY created_at DESC LIMIT ?"@,
                ),
                params: seq![statement::size_value(limit)],
            }),
    {
        select_records::<CommandSafetyRawRow>(
            "command_safety_events ORDER BY created_at DESC LIMIT ?",
        ).size(limit)
    }
}

/// What is put in quarantine under a new id is found under it, and listed with what else of its
/// session is in quarantine, the latest first, and with that of no other session. It is written and
/// read the same.
pub proof fn quarantined_is_found_and_listed(
    quarantine: TableView,
    raw: QuarantineRow,
    record: QuarantineView,
    session: Seq<char>,
    rows: Seq<Seq<ValueView>>,
)
    requires
        table::is_keyed(quarantine, table::keys_of::<QuarantineRow>()),
        raw.values() == quarantine_values(record),
        !quarantine.dom().contains(table::key_of(raw)),
        table::lists(
            rows,
            table::with_record(quarantine, raw),
            QuarantineRow::names(),
            table::holds_text("session_id"@, session),
            table::latest_first("created_at"@),
        ),
    ensures
        table::found(
            table::with_record(quarantine, raw),
            seq![ValueView::Text(record.quarantine_id)],
            QuarantineRow::names(),
        ) == Some(quarantine_values(record)),
        quarantine_said(quarantine_values(record), Ok(())) == Ok::<QuarantineView, RowErrorView>(
            record,
        ),
        rows.contains(quarantine_values(record)) <==> record.session_id == session,
{
    let after = table::with_record(quarantine, raw);
    let key = table::key_of(raw);
    let matching = table::holds_text("session_id"@, session);
    let names = QuarantineRow::names();
    let values = quarantine_values(record);
    assert(key =~= seq![ValueView::Text(record.quarantine_id)]);
    quarantine_reads_back(record);
    table::written_record_is_found(quarantine, raw, key);
    table::listed_rows_are_those_found::<QuarantineRow>(
        rows,
        after,
        matching,
        table::latest_first("created_at"@),
        key,
    );
    assert(names[1] == "session_id"@);
    assert(table::picked(after[key], names)[1] == ValueView::Text(record.session_id));
    if record.session_id == session {
        let i = choose|i: int| 0 <= i < rows.len() && (#[trigger] rows[i]).take(1) == key;
        assert(rows[i] == values);
    }
    if rows.contains(values) {
        let i = choose|i: int| 0 <= i < rows.len() && rows[i] == values;
        assert(rows[i].take(1) =~= key);
    }
}

} // verus!
