//! The cached quality of sessions.

use crate::error::{ErrorView, MsError};
use crate::json;
use crate::json::{read_texts, write_texts};
use crate::storage::row;
use crate::storage::row::{
    find_by, read_found, real_of, replace_record, text_of, Columns, FromRow, Kind, Row,
    ToRow,
};
use crate::storage::sqlite::Database;
use crate::storage::statement;
use crate::storage::statement::{
    bound_number, bound_text, Real, SqlValue, Statement, StatementView, ValueView,
};
use crate::storage::table;
use crate::storage::table::{Keyed, TableView};
use crate::text;
use crate::text::concat;
use vstd::prelude::*;

verus! {

/// Cached session quality score
#[derive(Debug, Clone, PartialEq, Eq)]
pub struct SessionQualityRecord {
    pub session_id: String,
    pub content_hash: String,
    pub score: Real,
    pub signals: Vec<String>,
    pub missing: Vec<String>,
    pub computed_at: String,
}

/// What the quality of a session is.
#[verifier::ext_equal]
pub ghost struct QualityView {
    pub session_id: Seq<char>,
    pub content_hash: Seq<char>,
    pub score: Real,
    pub signals: Seq<Seq<char>>,
    pub missing: Seq<Seq<char>>,
    pub computed_at: Seq<char>,
}

impl View for SessionQualityRecord {
    type V = QualityView;

    open spec fn view(&self) -> QualityView {
        QualityView {
            session_id: self.session_id@,
            content_hash: self.content_hash@,
            score: self.score,
            signals: text::texts(self.signals@),
            missing: text::texts(self.missing@),
            computed_at: self.computed_at@,
        }
    }
}

/// What a row is read as, by what the texts of its two lists are read as. A list that cannot be
/// read is an error, the signals first.
pub open spec fn quality_said(
    held: Seq<ValueView>,
    signals: Result<Seq<Seq<char>>, Seq<char>>,
    missing: Result<Seq<Seq<char>>, Seq<char>>,
) -> Result<QualityView, ErrorView> {
    match signals {
        Err(problem) => Err(ErrorView::Config("decode signals: "@ + problem)),
        Ok(signals) => match missing {
            Err(problem) => Err(ErrorView::Config("decode missing: "@ + problem)),
            Ok(missing) => Ok(
                QualityView {
                    session_id: row::text_in(held[0]),
                    content_hash: row::text_in(held[1]),
                    score: row::real_in(held[2]),
                    signals,
                    missing,
                    computed_at: row::text_in(held[5]),
                },
            ),
        },
    }
}

/// What a row is read as.
pub open spec fn quality_of_row(held: Seq<ValueView>) -> Result<QualityView, ErrorView> {
    quality_said(
        held,
        json::texts_read(row::text_in(held[3])),
        json::texts_read(row::text_in(held[4])),
    )
}

/// The table of qualities after one was written over that of the same session.
pub open spec fn quality_after(kept: TableView, values: Seq<ValueView>) -> TableView {
    table::upserted(
        kept,
        QualityRow::names(),
        seq!["session_id"@],
        QualityRow::names().skip(1),
        values,
    )
}

/// What reading a list gave, as a result of views.
pub open spec fn list_view(list: Result<Vec<String>, String>) -> Result<Seq<Seq<char>>, Seq<char>> {
    match list {
        Ok(texts) => Ok(text::texts(texts@)),
        Err(problem) => Err(problem@),
    }
}

/// The quality of a session as its row holds it.
#[derive(Debug, Clone)]
pub struct QualityRow {
    pub session_id: String,
    pub content_hash: String,
    pub score: Real,
    pub signals_json: String,
    pub missing_json: String,
    pub computed_at: String,
}

impl FromRow for QualityRow {
    open spec fn columns() -> Seq<Kind> {
        seq![
            Kind::Text,
            Kind::Text,
            Kind::Real,
            Kind::Text,
            Kind::Text,
            Kind::Text,
        ]
    }

    open spec fn holds(self, row: Seq<ValueView>) -> bool {
        &&& self.session_id@ == row::text_in(row[0])
        &&& self.content_hash@ == row::text_in(row[1])
        &&& self.score == row::real_in(row[2])
        &&& self.signals_json@ == row::text_in(row[3])
        &&& self.missing_json@ == row::text_in(row[4])
        &&& self.computed_at@ == row::text_in(row[5])
    }

    fn kinds() -> (r: Vec<Kind>) {
        vec![
            Kind::Text,
            Kind::Text,
            Kind::Real,
            Kind::Text,
            Kind::Text,
            Kind::Text,
        ]
    }

    fn take(row: &Row) -> (r: Self) {
        proof {
            let held = statement::values(row@);
            assert(row::column_problem(held, 5, Self::columns()[5]) is None);
        }
        QualityRow {
            session_id: text_of(&row[0]),
            content_hash: text_of(&row[1]),
            score: real_of(&row[2]),
            signals_json: text_of(&row[3]),
            missing_json: text_of(&row[4]),
            computed_at: text_of(&row[5]),
        }
    }
}

impl Columns for QualityRow {
    open spec fn names() -> Seq<Seq<char>> {
        seq![
            "session_id"@,
            "content_hash"@,
            "score"@,
            "signals_json"@,
            "missing_json"@,
            "computed_at"@,
        ]
    }

    proof fn names_match() {
    }

    fn name_list() -> (r: Vec<&'static str>) {
        let list = vec![
            "session_id",
            "content_hash",
            "score",
            "signals_json",
            "missing_json",
            "computed_at",
        ];
        assert(statement::words(list@) == Self::names());
        list
    }
}

impl ToRow for QualityRow {
    open spec fn values(self) -> Seq<ValueView> {
        seq![
            ValueView::Text(self.session_id@),
            ValueView::Text(self.content_hash@),
            statement::real_value(self.score),
            ValueView::Text(self.signals_json@),
            ValueView::Text(self.missing_json@),
            ValueView::Text(self.computed_at@),
        ]
    }

    proof fn reads_back(self) {
        assert forall|read: Self| #[trigger] read.holds(self.values()) implies read.values()
            == self.values() by {
            assert(read.values() =~= self.values());
        }
    }

    fn bound(&self) -> (r: Vec<SqlValue>) {
        let list = vec![
            bound_text(self.session_id.as_str()),
            bound_text(self.content_hash.as_str()),
            bound_number(self.score),
            bound_text(self.signals_json.as_str()),
            bound_text(self.missing_json.as_str()),
            bound_text(self.computed_at.as_str()),
        ];
        assert(statement::values(list@) == self.values());
        list
    }
}

impl Keyed for QualityRow {
    open spec fn key_length() -> nat {
        1
    }

    proof fn names_differ() {
        reveal_strlit("session_id");
        reveal_strlit("content_hash");
        reveal_strlit("score");
        reveal_strlit("signals_json");
        reveal_strlit("missing_json");
        reveal_strlit("computed_at");
        let names = Self::names();
        let marks = seq![
            10010111510int,
            10411109912int,
            10109911505int,
            11010511512int,
            11010510912int,
            11611109911int,
        ];
        assert(text::mark("session_id"@) == marks[0]);
        assert(text::mark("content_hash"@) == marks[1]);
        assert(text::mark("score"@) == marks[2]);
        assert(text::mark("signals_json"@) == marks[3]);
        assert(text::mark("missing_json"@) == marks[4]);
        assert(text::mark("computed_at"@) == marks[5]);
        assert forall|i: int, j: int| 0 <= i < j < names.len() implies names[i] != names[j] by {
            assert(text::mark(names[i]) == marks[i]);
            assert(text::mark(names[j]) == marks[j]);
        }
    }
}

/// The quality of a session that a row is, by what its two lists were read as.
pub fn quality_from_row(
    raw: QualityRow,
    signals: Result<Vec<String>, String>,
    missing: Result<Vec<String>, String>,
) -> (r: Result<SessionQualityRecord, MsError>)
    ensures
        match r {
            Ok(record) => quality_said(raw.values(), list_view(signals), list_view(missing))
                == Ok::<QualityView, ErrorView>(record@),
            Err(error) => quality_said(raw.values(), list_view(signals), list_view(missing))
                == Err::<QualityView, ErrorView>(error@),
        },
{
    let signals = match signals {
        Ok(signals) => signals,
        Err(problem) => return Err(MsError::Config(concat("decode signals: ", problem.as_str()))),
    };
    let missing = match missing {
        Ok(missing) => missing,
        Err(problem) => return Err(MsError::Config(concat("decode missing: ", problem.as_str()))),
    };
    let QualityRow {
        session_id,
        content_hash,
        score,
        signals_json: _,
        missing_json: _,
        computed_at,
    } = raw;
    Ok(SessionQualityRecord { session_id, content_hash, score, signals, missing, computed_at })
}

/// The quality of a session that a query found.
pub fn session_quality_found(row: &Option<Row>) -> (r: Result<
    Option<SessionQualityRecord>,
    MsError,
>)
    ensures
        match row {
            None => r matches Ok(None),
            Some(row) => {
                let held = statement::values(row@);
                if row::fits(held, QualityRow::columns()) {
                    match r {
                        Ok(Some(record)) => quality_of_row(held) == Ok::<QualityView, ErrorView>(
                            record@,
                        ),
                        Ok(None) => false,
                        Err(error) => quality_of_row(held) == Err::<QualityView, ErrorView>(error@),
                    }
                } else {
                    r matches Err(error) && error@ == row::row_error(
                        row::row_problem(held, QualityRow::columns(), QualityRow::columns().len()),
                    )
                }
            },
        },
{
    let raw = match read_found::<QualityRow>(row) {
        Ok(Some(raw)) => raw,
        Ok(None) => return Ok(None),
        Err(error) => return Err(error),
    };
    let signals = read_texts(raw.signals_json.as_str());
    let missing = read_texts(raw.missing_json.as_str());
    match quality_from_row(raw, signals, missing) {
        Ok(record) => Ok(Some(record)),
        Err(error) => Err(error),
    }
}

impl Database {
    /// The cached quality of a session. For the row see [`session_quality_found`].
    pub fn get_session_quality(session_id: &str) -> (r: Statement)
        ensures
            r@ == (StatementView {
                sql: statement::select_sql(
                    QualityRow::names(),
                    statement::from_sql("session_quality"@, seq!["session_id"@]),
                ),
                params: seq![ValueView::Text(session_id@)],
            }),
    {
        find_by::<QualityRow>("session_quality", "session_id", session_id)
    }

    /// Writes the quality of a session over the one that is known. A row that holds what is
    /// written is read as the same record, and it is the row that is found for the session
    /// afterwards, whatever was known before.
    pub fn upsert_session_quality(record: &SessionQualityRecord) -> (r: Statement)
        ensures
            r@ == (StatementView {
                sql: statement::upsert_sql(
                    "INSERT INTO session_quality"@,
                    QualityRow::names(),
                    seq!["session_id"@],
                    QualityRow::names().skip(1),
                ),
                params: seq![
                    ValueView::Text(record.session_id@),
                    ValueView::Text(record.content_hash@),
                    statement::real_value(record.score),
                    ValueView::Text(json::texts_written(text::texts(record.signals@))),
                    ValueView::Text(json::texts_written(text::texts(record.missing@))),
                    ValueView::Text(record.computed_at@),
                ],
            }),
            row::fits(r@.params, QualityRow::columns()),
            quality_of_row(r@.params) == Ok::<QualityView, ErrorView>(record@),
            forall|kept: TableView|
                table::is_keyed(kept, seq!["session_id"@]) ==> table::found(
                    #[trigger] quality_after(kept, r@.params),
                    seq![ValueView::Text(record.session_id@)],
                    QualityRow::names(),
                ) == Some(r@.params),
    {
        let signals_json = write_texts(&record.signals);
        let missing_json = write_texts(&record.missing);
        let row = QualityRow {
            session_id: record.session_id.as_str().to_owned(),
            content_hash: record.content_hash.as_str().to_owned(),
            score: record.score,
            signals_json,
            missing_json,
            computed_at: record.computed_at.as_str().to_owned(),
        };
        proof {
            row.reads_back();
            assert(table::keys_of::<QualityRow>() == seq!["session_id"@]);
            assert(table::key_of(row) == seq![ValueView::Text(record.session_id@)]);
            assert forall|kept: TableView|
                table::is_keyed(kept, seq!["session_id"@]) implies table::found(
                #[trigger] quality_after(kept, row.values()),
                seq![ValueView::Text(record.session_id@)],
                QualityRow::names(),
            ) == Some(row.values()) by {
                table::written_record_is_found(kept, row, table::key_of(row));
            }
        }
        replace_record("INSERT INTO session_quality", &row, "session_id")
    }
}

} // verus!
