//! The log of transactions that are committed in two phases.

use crate::error::{ErrorView, MsError};
use crate::storage::clock;
use crate::storage::clock::{read_rfc3339, write_rfc3339, UtcTime};
use crate::storage::row;
use crate::storage::row::{
    insert_record, read_rows, select_records, text_of, Columns, FromRow, Kind, Row, ToRow,
};
use crate::storage::sqlite::Database;
use crate::storage::statement;
use crate::storage::statement::{bound_text, SqlValue, Statement, StatementView, ValueView};
use crate::storage::table;
use crate::storage::table::{Keyed, RowView, TableView};
use crate::text;
use crate::text::{concat, same_text};
use vstd::prelude::*;

verus! {

/// How far a transaction is.
#[derive(Debug, Clone, Copy, PartialEq, Eq, Structural)]
pub enum TxPhase {
    Prepare,
    Pending,
    Committed,
    Complete,
}

/// The record of a transaction.
#[derive(Debug, Clone)]
pub struct TxRecord {
    pub id: String,
    pub entity_type: String,
    pub entity_id: String,
    pub phase: TxPhase,
    pub payload_json: String,
    pub created_at: UtcTime,
}

/// What the record of a transaction is.
#[verifier::ext_equal]
pub ghost struct TxView {
    pub id: Seq<char>,
    pub entity_type: Seq<char>,
    pub entity_id: Seq<char>,
    pub phase: TxPhase,
    pub payload_json: Seq<char>,
    pub created_at: (i64, u32),
}

impl View for TxRecord {
    type V = TxView;

    open spec fn view(&self) -> TxView {
        TxView {
            id: self.id@,
            entity_type: self.entity_type@,
            entity_id: self.entity_id@,
            phase: self.phase,
            payload_json: self.payload_json@,
            created_at: (self.created_at.seconds, self.created_at.nanos),
        }
    }
}

/// What each of a list of records is.
pub open spec fn tx_views(list: Seq<TxRecord>) -> Seq<TxView> {
    Seq::new(list.len(), |i: int| list[i]@)
}

/// How a phase is written.
pub open spec fn phase_text(phase: TxPhase) -> Seq<char> {
    match phase {
        TxPhase::Prepare => "prepare"@,
        TxPhase::Pending => "pending"@,
        TxPhase::Committed => "committed"@,
        TxPhase::Complete => "complete"@,
    }
}

/// The phase that a text says.
pub open spec fn phase_said(written: Seq<char>) -> Option<TxPhase> {
    if written == "prepare"@ {
        Some(TxPhase::Prepare)
    } else if written == "pending"@ {
        Some(TxPhase::Pending)
    } else if written == "committed"@ {
        Some(TxPhase::Committed)
    } else if written == "complete"@ {
        Some(TxPhase::Complete)
    } else {
        None
    }
}

/// Each phase is read back from how it is written.
pub proof fn phase_reads_back(phase: TxPhase)
    ensures
        phase_said(phase_text(phase)) == Some(phase),
{
    reveal_strlit("prepare");
    reveal_strlit("pending");
    reveal_strlit("committed");
    reveal_strlit("complete");
    assert("prepare"@[1] == 'r' && "pending"@[1] == 'e' && "committed"@[3] == 'm'
        && "complete"@[3] == 'p' && "pending"@[0] == 'p' && "committed"@[0] == 'c'
        && "complete"@[0] == 'c' && "prepare"@[0] == 'p');
}

/// What a row of the log is read as, by what the text of its time is read as: a phase that is not
/// known and a time that cannot be read are errors, the phase first.
pub open spec fn tx_said(held: Seq<ValueView>, created: Result<(i64, u32), Seq<char>>) -> Result<
    TxView,
    ErrorView,
> {
    match phase_said(row::text_in(held[3])) {
        None => Err(
            ErrorView::Serialization("unknown transaction phase: "@ + row::text_in(held[3])),
        ),
        Some(phase) => match created {
            Err(problem) => Err(ErrorView::Serialization("parse created_at: "@ + problem)),
            Ok(created_at) => Ok(
                TxView {
                    id: row::text_in(held[0]),
                    entity_type: row::text_in(held[1]),
                    entity_id: row::text_in(held[2]),
                    phase,
                    payload_json: row::text_in(held[4]),
                    created_at,
                },
            ),
        },
    }
}

/// What a row of the log is read as.
pub open spec fn tx_of_row(held: Seq<ValueView>) -> Result<TxView, ErrorView> {
    tx_said(held, clock::rfc3339_time(row::text_in(held[5])))
}

/// What the first `n` rows of the log are read as, or the first problem in them.
pub open spec fn txs_of_rows(rows: Seq<Seq<ValueView>>, n: nat) -> Result<Seq<TxView>, ErrorView>
    decreases n,
{
    if n == 0 {
        Ok(Seq::empty())
    } else {
        match txs_of_rows(rows, (n - 1) as nat) {
            Err(error) => Err(error),
            Ok(before) => match tx_of_row(rows[n - 1]) {
                Err(error) => Err(error),
                Ok(tx) => Ok(before.push(tx)),
            },
        }
    }
}

/// The record of a transaction as its row holds it.
#[derive(Debug, Clone)]
pub struct TxRow {
    pub id: String,
    pub entity_type: String,
    pub entity_id: String,
    pub phase: String,
    pub payload_json: String,
    pub created_at: String,
}

impl FromRow for TxRow {
    open spec fn columns() -> Seq<Kind> {
        seq![
            Kind::Text,
            Kind::Text,
            Kind::Text,
            Kind::Text,
            Kind::Text,
            Kind::Text,
        ]
    }

    open spec fn holds(self, row: Seq<ValueView>) -> bool {
        &&& self.id@ == row::text_in(row[0])
        &&& self.entity_type@ == row::text_in(row[1])
        &&& self.entity_id@ == row::text_in(row[2])
        &&& self.phase@ == row::text_in(row[3])
        &&& self.payload_json@ == row::text_in(row[4])
        &&& self.created_at@ == row::text_in(row[5])
    }

    fn kinds() -> (r: Vec<Kind>) {
        vec![
            Kind::Text,
            Kind::Text,
            Kind::Text,
            Kind::Text,
            Kind::Text,
            Kind::Text,
        ]
    }

    fn take(row: &Row) -> (r: Self) {
        proof {
            let held = statement::values(row@);
            assert(row::column_problem(held, 5, Self::columns()[5]) is None);
        }
        TxRow {
            id: text_of(&row[0]),
            entity_type: text_of(&row[1]),
            entity_id: text_of(&row[2]),
            phase: text_of(&row[3]),
            payload_json: text_of(&row[4]),
            created_at: text_of(&row[5]),
        }
    }
}

impl Columns for TxRow {
    open spec fn names() -> Seq<Seq<char>> {
        seq![
            "id"@,
            "entity_type"@,
            "entity_id"@,
            "phase"@,
            "payload_json"@,
            "created_at"@,
        ]
    }

    proof fn names_match() {
    }

    fn name_list() -> (r: Vec<&'static str>) {
        let list = vec![
            "id",
            "entity_type",
            "entity_id",
            "phase",
            "payload_json",
            "created_at",
        ];
        assert(statement::words(list@) == Self::names());
        list
    }
}

impl ToRow for TxRow {
    open spec fn values(self) -> Seq<ValueView> {
        seq![
            ValueView::Text(self.id@),
            ValueView::Text(self.entity_type@),
            ValueView::Text(self.entity_id@),
            ValueView::Text(self.phase@),
            ValueView::Text(self.payload_json@),
            ValueView::Text(self.created_at@),
        ]
    }

    proof fn reads_back(self) {
        assert forall|read: Self| #[trigger] read.holds(self.values()) implies read.values()
            == self.values() by {
            assert(read.values() =~= self.values());
        }
    }

    fn bound(&self) -> (r: Vec<SqlValue>) {
        let list = vec![
            bound_text(self.id.as_str()),
            bound_text(self.entity_type.as_str()),
            bound_text(self.entity_id.as_str()),
            bound_text(self.phase.as_str()),
            bound_text(self.payload_json.as_str()),
            bound_text(self.created_at.as_str()),
        ];
        assert(statement::values(list@) == self.values());
        list
    }
}

impl Keyed for TxRow {
    open spec fn key_length() -> nat {
        1
    }

    proof fn names_differ() {
        reveal_strlit("id");
        reveal_strlit("entity_type");
        reveal_strlit("entity_id");
        reveal_strlit("phase");
        reveal_strlit("payload_json");
        reveal_strlit("created_at");
        let names = Self::names();
        let marks = seq![
            10010010502int,
            10111010111int,
            10011010109int,
            10110411205int,
            11009711212int,
            11611409910int,
        ];
        assert(text::mark("id"@) == marks[0]);
        assert(text::mark("entity_type"@) == marks[1]);
        assert(text::mark("entity_id"@) == marks[2]);
        assert(text::mark("phase"@) == marks[3]);
        assert(text::mark("payload_json"@) == marks[4]);
        assert(text::mark("created_at"@) == marks[5]);
        assert forall|i: int, j: int| 0 <= i < j < names.len() implies names[i] != names[j] by {
            assert(text::mark(names[i]) == marks[i]);
            assert(text::mark(names[j]) == marks[j]);
        }
    }
}

impl TxPhase {
    /// How the phase is written.
    pub fn as_str(self) -> (r: &'static str)
        ensures
            r@ == phase_text(self),
    {
        match self {
            TxPhase::Prepare => "prepare",
            TxPhase::Pending => "pending",
            TxPhase::Committed => "committed",
            TxPhase::Complete => "complete",
        }
    }

    /// The phase that a text says.
    pub fn said(written: &str) -> (r: Option<TxPhase>)
        ensures
            r == phase_said(written@),
    {
        if same_text(written, "prepare") {
            Some(TxPhase::Prepare)
        } else if same_text(written, "pending") {
            Some(TxPhase::Pending)
        } else if same_text(written, "committed") {
            Some(TxPhase::Committed)
        } else if same_text(written, "complete") {
            Some(TxPhase::Complete)
        } else {
            None
        }
    }
}

impl Database {
    /// Writes the record of a transaction. A row that holds what is written is read as the same
    /// record, where its time is one that RFC 3339 can write.
    pub fn insert_tx_record(tx: &TxRecord) -> (r: Statement)
        requires
            tx.created_at.valid(),
        ensures
            r@ == (StatementView {
                sql: statement::insert_sql("INSERT INTO tx_log"@, TxRow::names()),
                params: seq![
                    ValueView::Text(tx.id@),
                    ValueView::Text(tx.entity_type@),
                    ValueView::Text(tx.entity_id@),
                    ValueView::Text(phase_text(tx.phase)),
                    ValueView::Text(tx.payload_json@),
                    ValueView::Text(
                        clock::rfc3339_text(tx.created_at.seconds, tx.created_at.nanos),
                    ),
                ],
            }),
            row::fits(r@.params, TxRow::columns()),
            tx.created_at.is_plain() ==> tx_of_row(r@.params) == Ok::<TxView, ErrorView>(tx@),
    {
        let created_at = write_rfc3339(tx.created_at);
        proof {
            phase_reads_back(tx.phase);
        }
        let row = TxRow {
            id: tx.id.as_str().to_owned(),
            entity_type: tx.entity_type.as_str().to_owned(),
            entity_id: tx.entity_id.as_str().to_owned(),
            phase: tx.phase.as_str().to_owned(),
            payload_json: tx.payload_json.as_str().to_owned(),
            created_at,
        };
        proof {
            row.reads_back();
        }
        insert_record("INSERT INTO tx_log", &row)
    }

    /// Sets how far a transaction is.
    pub fn update_tx_phase(tx_id: &str, phase: TxPhase) -> (r: Statement)
        ensures
            r@ == (StatementView {
                sql: "UPDATE tx_log SET phase = ? WHERE id = ?"@,
                params: seq![ValueView::Text(phase_text(phase)), ValueView::Text(tx_id@)],
            }),
    {
        Statement::new("UPDATE tx_log SET phase = ? WHERE id = ?").text(phase.as_str()).text(tx_id)
    }

    /// The transactions that are not complete. For the rows see [`incomplete_transactions`].
    pub fn list_incomplete_transactions() -> (r: Statement)
        ensures
            r@ == (StatementView {
                sql: statement::select_sql(TxRow::names(), "tx_log WHERE phase != 'complete'"@),
                params: seq![],
            }),
    {
        select_records::<TxRow>("tx_log WHERE phase != 'complete'")
    }
}

/// The record that a row of the log is, by what the text of its time was read as.
pub fn tx_from_row(raw: &TxRow, created: Result<UtcTime, String>) -> (r: Result<TxRecord, MsError>)
    ensures
        match r {
            Ok(tx) => tx_said(raw.values(), clock::time_view(created)) == Ok::<TxView, ErrorView>(
                tx@,
            ),
            Err(error) => tx_said(raw.values(), clock::time_view(created)) == Err::<
                TxView,
                ErrorView,
            >(error@),
        },
{
    let phase = match TxPhase::said(raw.phase.as_str()) {
        Some(phase) => phase,
        None => return Err(
            MsError::Serialization(concat("unknown transaction phase: ", raw.phase.as_str())),
        ),
    };
    let created_at = match created {
        Ok(time) => time,
        Err(problem) => return Err(
            MsError::Serialization(concat("parse created_at: ", problem.as_str())),
        ),
    };
    Ok(
        TxRecord {
            id: raw.id.as_str().to_owned(),
            entity_type: raw.entity_type.as_str().to_owned(),
            entity_id: raw.entity_id.as_str().to_owned(),
            phase,
            payload_json: raw.payload_json.as_str().to_owned(),
            created_at,
        },
    )
}

/// A problem in an early row is the problem of every longer list.
proof fn problem_stays(rows: Seq<Seq<ValueView>>, n: nat, m: nat)
    requires
        n <= m,
        txs_of_rows(rows, n) is Err,
    ensures
        txs_of_rows(rows, m) == txs_of_rows(rows, n),
    decreases m,
{
    if n < m {
        problem_stays(rows, n, (m - 1) as nat);
    }
}

/// The transactions that rows of the log are. The first row that is none fails the whole.
pub fn incomplete_transactions(rows: &Vec<Row>) -> (r: Result<Vec<TxRecord>, MsError>)
    ensures
        if row::all_fit(row::row_values(rows@), TxRow::columns()) {
            match r {
                Ok(list) => txs_of_rows(row::row_values(rows@), rows@.len()) == Ok::<
                    Seq<TxView>,
                    ErrorView,
                >(tx_views(list@)),
                Err(error) => txs_of_rows(row::row_values(rows@), rows@.len()) == Err::<
                    Seq<TxView>,
                    ErrorView,
                >(error@),
            }
        } else {
            r matches Err(error) && error@ == row::row_error(
                row::rows_problem(row::row_values(rows@), TxRow::columns(), rows@.len()),
            )
        },
        r matches Ok(list) ==> forall|i: int|
            0 <= i < list@.len() ==> (#[trigger] list@[i]).created_at.valid(),
        r matches Ok(list) ==> list@.len() == rows@.len() && forall|i: int|
            0 <= i < list@.len() ==> {
                let held = statement::values(rows@[i]@);
                &&& held[0] == ValueView::Text((#[trigger] list@[i]).id@)
                &&& held[1] == ValueView::Text(list@[i].entity_type@)
                &&& held[2] == ValueView::Text(list@[i].entity_id@)
                &&& held[4] == ValueView::Text(list@[i].payload_json@)
            },
{
    let raw = match read_rows::<TxRow>(rows) {
        Ok(raw) => raw,
        Err(error) => return Err(error),
    };
    let ghost held = row::row_values(rows@);
    let mut out: Vec<TxRecord> = Vec::new();
    assert(tx_views(out@) == Seq::<TxView>::empty());
    for i in 0..raw.len()
        invariant
            raw@.len() == held.len(),
            forall|k: int| 0 <= k < raw@.len() ==> (#[trigger] raw@[k]).holds(held[k]),
            held == row::row_values(rows@),
            row::all_fit(held, TxRow::columns()),
            txs_of_rows(held, i as nat) == Ok::<Seq<TxView>, ErrorView>(tx_views(out@)),
            forall|k: int| 0 <= k < out@.len() ==> (#[trigger] out@[k]).created_at.valid(),
    {
        assert(raw@[i as int].holds(held[i as int]));
        let created = read_rfc3339(raw[i].created_at.as_str());
        match tx_from_row(&raw[i], created) {
            Ok(tx) => {
                let ghost before = out@;
                out.push(tx);
                assert(tx_views(out@) == tx_views(before).push(tx@));
            },
            Err(error) => {
                proof {
                    problem_stays(held, (i + 1) as nat, held.len());
                }
                return Err(error);
            },
        }
    }
    proof {
        assert forall|i: int| 0 <= i < out@.len() implies {
            let in_row = statement::values(rows@[i]@);
            &&& in_row[0] == ValueView::Text((#[trigger] out@[i]).id@)
            &&& in_row[1] == ValueView::Text(out@[i].entity_type@)
            &&& in_row[2] == ValueView::Text(out@[i].entity_id@)
            &&& in_row[4] == ValueView::Text(out@[i].payload_json@)
        } by {
            list_goes_by_rows(held, held.len(), 0);
            each_row_is_one_transaction(held, i);
            assert(tx_views(out@)[i] == out@[i]@);
        }
        if held.len() > 0 {
            list_goes_by_rows(held, held.len(), 0);
            assert(tx_views(out@).len() == held.len());
        }
    }
    Ok(out)
}

/// A row is that of a transaction that is not complete.
pub open spec fn is_incomplete() -> spec_fn(RowView) -> bool {
    |held: RowView|
        {
            let phase = table::in_column(held, "phase"@);
            phase != ValueView::Null && phase != ValueView::Text("complete"@)
        }
}

/// What the list of incomplete transactions asks for.
pub open spec fn lists_incomplete(rows: Seq<Seq<ValueView>>, log: TableView) -> bool {
    table::lists(rows, log, TxRow::names(), is_incomplete(), table::any_order())
}

/// The transaction of an id is among rows of the log.
pub open spec fn has_transaction(rows: Seq<Seq<ValueView>>, id: Seq<char>) -> bool {
    exists|i: int| 0 <= i < rows.len() && (#[trigger] rows[i])[0] == ValueView::Text(id)
}

/// A transaction that was written is listed as incomplete, as it was written, unless it was written
/// as complete.
pub proof fn written_transaction_is_listed(
    log: TableView,
    tx: TxRow,
    rows: Seq<Seq<ValueView>>,
)
    requires
        table::is_keyed(log, table::keys_of::<TxRow>()),
        !log.dom().contains(table::key_of(tx)),
        lists_incomplete(rows, table::with_record(log, tx)),
    ensures
        has_transaction(rows, tx.id@) <==> tx.phase@ != "complete"@,
        tx.phase@ != "complete"@ ==> rows.contains(tx.values()),
{
    let after = table::with_record(log, tx);
    let key = table::key_of(tx);
    assert(key =~= seq![ValueView::Text(tx.id@)]);
    table::written_record_is_found(log, tx, key);
    table::listed_rows_are_those_found::<TxRow>(
        rows,
        after,
        is_incomplete(),
        table::any_order(),
        key,
    );
    assert(TxRow::names()[3] == "phase"@);
    assert(table::picked(after[key], TxRow::names())[3] == ValueView::Text(tx.phase@));
    transaction_is_by_its_key(rows, after, tx.id@);
    if tx.phase@ != "complete"@ {
        let i = choose|i: int| 0 <= i < rows.len() && (#[trigger] rows[i]).take(1) == key;
        assert(rows[i] == tx.values());
    }
}

/// A transaction is among the rows just where its key is.
proof fn transaction_is_by_its_key(
    rows: Seq<Seq<ValueView>>,
    log: TableView,
    id: Seq<char>,
)
    requires
        lists_incomplete(rows, log),
    ensures
        has_transaction(rows, id) <==> exists|i: int|
            0 <= i < rows.len() && (#[trigger] rows[i]).take(1) == seq![ValueView::Text(id)],
{
    let key = seq![ValueView::Text(id)];
    let keys = choose|keys: Seq<Seq<ValueView>>| #[trigger]
        table::is_listing(keys, log, is_incomplete(), table::any_order()) && rows
            == table::rows_at(log, keys, TxRow::names());
    assert forall|i: int| 0 <= i < rows.len() implies (#[trigger] rows[i]).len() == 6 by {
        assert(rows[i] == table::picked(log[keys[i]], TxRow::names()));
    }
    if has_transaction(rows, id) {
        let i = choose|i: int| 0 <= i < rows.len() && (#[trigger] rows[i])[0] == ValueView::Text(id);
        assert(rows[i].take(1) =~= key);
    }
    if exists|i: int| 0 <= i < rows.len() && (#[trigger] rows[i]).take(1) == key {
        let i = choose|i: int| 0 <= i < rows.len() && (#[trigger] rows[i]).take(1) == key;
        assert(rows[i].take(1)[0] == ValueView::Text(id));
    }
}

/// A transaction that is there is listed as incomplete, in the phase that was set last and otherwise
/// as it was, until that phase is the last one.
pub proof fn transaction_is_listed_until_complete(
    log: TableView,
    id: Seq<char>,
    phase: TxPhase,
    rows: Seq<Seq<ValueView>>,
)
    requires
        table::is_keyed(log, table::keys_of::<TxRow>()),
        log.dom().contains(seq![ValueView::Text(id)]),
        lists_incomplete(
            rows,
            table::updated(
                log,
                seq![ValueView::Text(id)],
                "phase"@,
                ValueView::Text(phase_text(phase)),
            ),
        ),
    ensures
        has_transaction(rows, id) <==> phase != TxPhase::Complete,
        phase != TxPhase::Complete ==> rows.contains(
            table::picked(log[seq![ValueView::Text(id)]], TxRow::names()).update(
                3,
                ValueView::Text(phase_text(phase)),
            ),
        ),
{
    let key = seq![ValueView::Text(id)];
    let value = ValueView::Text(phase_text(phase));
    let after = table::updated(log, key, "phase"@, value);
    assert(TxRow::names()[3] == "phase"@);
    table::column_alone_is_set::<TxRow>(log, key, 3, value, key);
    table::listed_rows_are_those_found::<TxRow>(
        rows,
        after,
        is_incomplete(),
        table::any_order(),
        key,
    );
    transaction_is_by_its_key(rows, after, id);
    phase_reads_back(phase);
    phase_reads_back(TxPhase::Complete);
    assert(table::picked(after[key], TxRow::names())[3] == value);
    if phase != TxPhase::Complete {
        let i = choose|i: int| 0 <= i < rows.len() && (#[trigger] rows[i]).take(1) == key;
        assert(rows[i] == table::picked(log[key], TxRow::names()).update(3, value));
    }
}

/// The log after the record of a transaction was deleted.
pub open spec fn transaction_deleted(log: TableView, id: Seq<char>) -> TableView {
    table::deleted(log, table::holds_text("id"@, id))
}

/// A transaction whose record was deleted is there no more, and is not listed; all others are as
/// before.
pub proof fn deleted_transaction_is_gone(
    log: TableView,
    id: Seq<char>,
    other: Seq<ValueView>,
    rows: Seq<Seq<ValueView>>,
)
    requires
        table::is_keyed(log, table::keys_of::<TxRow>()),
        lists_incomplete(rows, transaction_deleted(log, id)),
    ensures
        !transaction_deleted(log, id).dom().contains(seq![ValueView::Text(id)]),
        !has_transaction(rows, id),
        other != seq![ValueView::Text(id)] ==> table::found(
            transaction_deleted(log, id),
            other,
            TxRow::names(),
        ) == table::found(log, other, TxRow::names()),
{
    let key = seq![ValueView::Text(id)];
    let after = transaction_deleted(log, id);
    let keys = table::keys_of::<TxRow>();
    assert(keys =~= seq!["id"@]);
    if log.dom().contains(key) {
        assert(table::picked(log[key], keys)[0] == key[0]);
    }
    if log.dom().contains(other) && table::in_column(log[other], "id"@) == ValueView::Text(id) {
        assert(table::picked(log[other], keys) == other);
        assert(other =~= key);
    }
    assert forall|k: Seq<ValueView>| #[trigger] after.dom().contains(k) implies table::picked(
        after[k],
        keys,
    ) == k by {
        assert(log.dom().contains(k));
    }
    table::listed_rows_are_those_found::<TxRow>(
        rows,
        after,
        is_incomplete(),
        table::any_order(),
        key,
    );
    transaction_is_by_its_key(rows, after, id);
}

// ---------------------------------------------------------------------------------------------
// What the list for recovery holds
// ---------------------------------------------------------------------------------------------

/// Where the rows of the log are read, each row is one transaction of the list, in its place: the
/// text of each column is what the record has of it, and the phase is the one of four that its text
/// names.
pub proof fn each_row_is_one_transaction(rows: Seq<Seq<ValueView>>, i: int)
    requires
        txs_of_rows(rows, rows.len()) is Ok,
        0 <= i < rows.len(),
        row::fits(rows[i], TxRow::columns()),
    ensures
        ({
            let list = txs_of_rows(rows, rows.len())->Ok_0;
            let tx = list[i];
            &&& list.len() == rows.len()
            &&& rows[i][0] == ValueView::Text(tx.id)
            &&& rows[i][1] == ValueView::Text(tx.entity_type)
            &&& rows[i][2] == ValueView::Text(tx.entity_id)
            &&& rows[i][4] == ValueView::Text(tx.payload_json)
            &&& rows[i][5] matches ValueView::Text(time) && clock::rfc3339_time(time) == Ok::<
                (i64, u32),
                Seq<char>,
            >(tx.created_at)
            &&& tx.phase == TxPhase::Prepare <==> rows[i][3] == ValueView::Text("prepare"@)
            &&& tx.phase == TxPhase::Pending <==> rows[i][3] == ValueView::Text("pending"@)
            &&& tx.phase == TxPhase::Committed <==> rows[i][3] == ValueView::Text("committed"@)
            &&& tx.phase == TxPhase::Complete <==> rows[i][3] == ValueView::Text("complete"@)
        }),
{
    list_goes_by_rows(rows, rows.len(), i);
    columns_are_texts(rows[i]);
    let tx = txs_of_rows(rows, rows.len())->Ok_0[i];
    phase_reads_back(TxPhase::Prepare);
    phase_reads_back(TxPhase::Pending);
    phase_reads_back(TxPhase::Committed);
    phase_reads_back(TxPhase::Complete);
}

/// The columns of a row of the log that can be read are texts.
proof fn columns_are_texts(held: Seq<ValueView>)
    requires
        row::fits(held, TxRow::columns()),
    ensures
        held.len() >= 6,
        forall|k: int| 0 <= k < 6 ==> #[trigger] held[k] is Text,
{
    assert(row::column_problem(held, 5, TxRow::columns()[5]) is None);
    assert forall|k: int| 0 <= k < 6 implies #[trigger] held[k] is Text by {
        assert(row::column_problem(held, k, TxRow::columns()[k]) is None);
    }
}

proof fn list_goes_by_rows(rows: Seq<Seq<ValueView>>, n: nat, i: int)
    requires
        txs_of_rows(rows, n) is Ok,
        0 <= i < n <= rows.len(),
    ensures
        txs_of_rows(rows, n)->Ok_0.len() == n,
        tx_of_row(rows[i]) == Ok::<TxView, ErrorView>(txs_of_rows(rows, n)->Ok_0[i]),
    decreases n,
{
    let before = (n - 1) as nat;
    if i < before {
        list_goes_by_rows(rows, before, i);
    } else if before > 0 {
        list_goes_by_rows(rows, before, 0);
    }
}

/// A row of the log names a phase and a time.
pub open spec fn is_sound(held: Seq<ValueView>) -> bool {
    &&& {
        ||| held[3] == ValueView::Text("prepare"@)
        ||| held[3] == ValueView::Text("pending"@)
        ||| held[3] == ValueView::Text("committed"@)
        ||| held[3] == ValueView::Text("complete"@)
    }
    &&& held[5] matches ValueView::Text(time) && clock::rfc3339_time(time) is Ok
}

/// The rows of the log are read just where each names a phase and a time. Otherwise the first that
/// does not is the error: its phase by its text, or what is wrong with its time.
pub proof fn unsound_row_fails_the_list(rows: Seq<Seq<ValueView>>, i: int)
    requires
        forall|k: int| 0 <= k < rows.len() ==> row::fits(#[trigger] rows[k], TxRow::columns()),
    ensures
        txs_of_rows(rows, rows.len()) is Ok <==> forall|k: int|
            0 <= k < rows.len() ==> is_sound(#[trigger] rows[k]),
        0 <= i < rows.len() && !is_sound(rows[i]) && (forall|k: int|
            0 <= k < i ==> is_sound(#[trigger] rows[k])) ==> {
            let said = rows[i][3]->Text_0;
            let error = txs_of_rows(rows, rows.len())->Err_0;
            if said != "prepare"@ && said != "pending"@ && said != "committed"@ && said
                != "complete"@ {
                error == ErrorView::Serialization("unknown transaction phase: "@ + said)
            } else {
                error == ErrorView::Serialization(
                    "parse created_at: "@ + clock::rfc3339_time(rows[i][5]->Text_0)->Err_0,
                )
            }
        },
{
    sound_rows_are_read(rows, rows.len());
    if 0 <= i < rows.len() && !is_sound(rows[i]) && (forall|k: int|
        0 <= k < i ==> is_sound(#[trigger] rows[k])) {
        sound_rows_are_read(rows, i as nat);
        columns_are_texts(rows[i]);
        problem_stays(rows, (i + 1) as nat, rows.len());
    }
}

proof fn sound_rows_are_read(rows: Seq<Seq<ValueView>>, n: nat)
    requires
        n <= rows.len(),
        forall|k: int| 0 <= k < rows.len() ==> row::fits(#[trigger] rows[k], TxRow::columns()),
    ensures
        txs_of_rows(rows, n) is Ok <==> forall|k: int|
            0 <= k < n ==> is_sound(#[trigger] rows[k]),
    decreases n,
{
    if n > 0 {
        sound_rows_are_read(rows, (n - 1) as nat);
        columns_are_texts(rows[n - 1]);
    }
}

/// Every transaction of the log that is not complete is in the list that is made of the rows for
/// recovery, as the log has it, and no complete one is.
pub proof fn incomplete_transactions_are_recovered(
    rows: Seq<Seq<ValueView>>,
    log: TableView,
    id: Seq<char>,
)
    requires
        table::is_keyed(log, table::keys_of::<TxRow>()),
        lists_incomplete(rows, log),
        forall|k: int| 0 <= k < rows.len() ==> row::fits(#[trigger] rows[k], TxRow::columns()),
        txs_of_rows(rows, rows.len()) is Ok,
    ensures
        ({
            let list = txs_of_rows(rows, rows.len())->Ok_0;
            let key = seq![ValueView::Text(id)];
            (exists|i: int| 0 <= i < list.len() && (#[trigger] list[i]).id == id) <==> {
                &&& log.dom().contains(key)
                &&& table::in_column(log[key], "phase"@) != ValueView::Text("complete"@)
                &&& table::in_column(log[key], "phase"@) != ValueView::Null
            }
        }),
{
    let list = txs_of_rows(rows, rows.len())->Ok_0;
    let key = seq![ValueView::Text(id)];
    table::listed_rows_are_those_found::<TxRow>(
        rows,
        log,
        is_incomplete(),
        table::any_order(),
        key,
    );
    transaction_is_by_its_key(rows, log, id);
    assert(log.dom().contains(key) && is_incomplete()(log[key]) <==> has_transaction(rows, id));
    if has_transaction(rows, id) {
        let i = choose|i: int| 0 <= i < rows.len() && (#[trigger] rows[i])[0] == ValueView::Text(id);
        each_row_is_one_transaction(rows, i);
        assert(list[i].id == id);
    }
    if exists|i: int| 0 <= i < list.len() && (#[trigger] list[i]).id == id {
        let i = choose|i: int| 0 <= i < list.len() && (#[trigger] list[i]).id == id;
        if rows.len() > 0 {
            each_row_is_one_transaction(rows, 0);
        }
        each_row_is_one_transaction(rows, i);
        assert(rows[i][0] == ValueView::Text(id));
    }
}

/// A phase is written by its name in small letters.
pub proof fn phase_is_written_by_its_name(phase: TxPhase)
    ensures
        phase_text(phase) == (match phase {
            TxPhase::Prepare => "prepare"@,
            TxPhase::Pending => "pending"@,
            TxPhase::Committed => "committed"@,
            TxPhase::Complete => "complete"@,
        }),
{
}

} // verus!
