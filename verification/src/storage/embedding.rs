//! Embeddings of skills.
//!
//! An embedding is stored as a blob of half-precision numbers, two bytes each, the lower first.
//! Here a number is the 16 bits that it is stored as.

use crate::error::{ErrorView, MsError};
use crate::storage::clock::now_text;
use crate::storage::row;
use crate::storage::row::{
    blob_of, find_by, integer_of, opt_text_of, read_row, read_rows, select_records, text_of,
    upsert_record, Columns, FromRow, Kind, Row, RowError, ToRow,
};
use crate::storage::sqlite;
use crate::storage::sqlite::Database;
use crate::storage::statement;
use crate::storage::statement::{
    bound_blob, bound_opt_text, bound_text, SqlValue, Statement, StatementView, ValueView,
};
use crate::storage::table;
use crate::storage::table::TableView;
use crate::text;
use crate::text::{decimal_text, owned_text};
use vstd::prelude::*;
use vstd::string::*;

verus! {

/// The embedding of a skill.
#[derive(Debug, Clone, PartialEq, Eq)]
pub struct EmbeddingRecord {
    pub skill_id: String,
    /// The numbers, each by its 16 bits.
    pub embedding: Vec<u16>,
    pub dims: usize,
    pub embedder_type: String,
    pub content_hash: Option<String>,
    pub computed_at: String,
}

/// What an embedding is.
#[verifier::ext_equal]
pub ghost struct EmbeddingView {
    pub skill_id: Seq<char>,
    pub embedding: Seq<u16>,
    pub dims: nat,
    pub embedder_type: Seq<char>,
    pub content_hash: Option<Seq<char>>,
    pub computed_at: Seq<char>,
}

impl View for EmbeddingRecord {
    type V = EmbeddingView;

    open spec fn view(&self) -> EmbeddingView {
        EmbeddingView {
            skill_id: self.skill_id@,
            embedding: self.embedding@,
            dims: self.dims as nat,
            embedder_type: self.embedder_type@,
            content_hash: text::opt_text(self.content_hash),
            computed_at: self.computed_at@,
        }
    }
}

/// The bytes of numbers: of each the lower byte, then the higher.
pub open spec fn blob_bytes(numbers: Seq<u16>) -> Seq<u8> {
    Seq::new(
        2 * numbers.len(),
        |i: int|
            if i % 2 == 0 {
                (numbers[i / 2] % 256) as u8
            } else {
                (numbers[i / 2] / 256) as u8
            },
    )
}

/// The numbers that bytes are, two bytes each.
pub open spec fn blob_numbers(bytes: Seq<u8>) -> Seq<u16> {
    Seq::new(
        (bytes.len() / 2) as nat,
        |i: int| (bytes[2 * i] as int + 256 * bytes[2 * i + 1] as int) as u16,
    )
}

/// How many bytes a number of dimensions takes, as far as that can be counted.
pub open spec fn blob_length(dims: nat) -> nat {
    if 2 * dims <= usize::MAX {
        2 * dims
    } else {
        usize::MAX as nat
    }
}

/// How two lengths that should agree and do not are reported.
pub open spec fn mismatch_words(what: Seq<char>, expected: nat, got: nat) -> Seq<char> {
    what + " mismatch: expected "@ + text::decimal(expected) + ", got "@ + text::decimal(got)
}

/// The numbers of a blob that should have a number of dimensions.
pub open spec fn decoded_blob(bytes: Seq<u8>, dims: nat) -> Result<Seq<u16>, ErrorView> {
    if bytes.len() == blob_length(dims) {
        Ok(blob_numbers(bytes))
    } else {
        Err(
            ErrorView::Serialization(
                mismatch_words("embedding blob length"@, blob_length(dims), bytes.len()),
            ),
        )
    }
}

/// The dimensions that a column says: none, where it says a negative number.
pub open spec fn dims_said(dims: i64) -> usize {
    if dims <= 0 {
        0
    } else {
        dims as usize
    }
}

/// What a row of an embedding is read as. Where it does not say when the embedding was computed,
/// that is when the row was made.
pub open spec fn embedding_of_row(held: Seq<ValueView>) -> Result<EmbeddingView, ErrorView> {
    let dims = dims_said(row::integer_in(held[2])) as nat;
    match decoded_blob(row::blob_in(held[1]), dims) {
        Err(error) => Err(error),
        Ok(embedding) => Ok(
            EmbeddingView {
                skill_id: row::text_in(held[0]),
                embedding,
                dims,
                embedder_type: row::text_in(held[3]),
                content_hash: row::opt_text_in(held[4]),
                computed_at: if row::text_in(held[5]).len() == 0 {
                    row::text_in(held[6])
                } else {
                    row::text_in(held[5])
                },
            },
        ),
    }
}

/// The values that an embedding is written as, at a time.
pub open spec fn embedding_values(record: EmbeddingView, computed_at: Seq<char>) -> Seq<ValueView> {
    seq![
        ValueView::Text(record.skill_id),
        ValueView::Blob(blob_bytes(record.embedding)),
        ValueView::Integer(record.dims as i64),
        ValueView::Text(record.embedder_type),
        statement::opt_text_value(record.content_hash),
        ValueView::Text(computed_at),
        ValueView::Text(computed_at),
    ]
}

/// What is replaced in the row of a skill that has an embedding already.
pub open spec fn embedding_replaced() -> Seq<Seq<char>> {
    seq!["embedding"@, "dims"@, "embedder_type"@, "content_hash"@, "computed_at"@]
}

/// The statement that writes an embedding, at a time. It replaces the embedding of the same skill,
/// but for when that was made.
pub open spec fn embedding_written(record: EmbeddingView, computed_at: Seq<char>) -> StatementView {
    StatementView {
        sql: statement::upsert_sql(
            "INSERT INTO skill_embeddings"@,
            EmbeddingRawRow::names(),
            seq!["skill_id"@],
            embedding_replaced(),
        ),
        params: embedding_values(record, computed_at),
    }
}

/// The error of an embedding that has not as many numbers as it says.
pub open spec fn dims_error(record: EmbeddingView) -> ErrorView {
    ErrorView::Serialization(
        mismatch_words("embedding dims"@, record.dims, record.embedding.len()),
    )
}

/// An embedding as its row holds it.
#[derive(Debug, Clone)]
pub struct EmbeddingRawRow {
    pub skill_id: String,
    pub blob: Vec<u8>,
    pub dims: i64,
    pub embedder_type: String,
    pub content_hash: Option<String>,
    pub computed_at: String,
    pub created_at: String,
}

impl FromRow for EmbeddingRawRow {
    open spec fn columns() -> Seq<Kind> {
        seq![
            Kind::Text,
            Kind::Blob,
            Kind::Integer,
            Kind::Text,
            Kind::OptText,
            Kind::Text,
            Kind::Text,
        ]
    }

    open spec fn holds(self, row: Seq<ValueView>) -> bool {
        &&& self.skill_id@ == row::text_in(row[0])
        &&& self.blob@ == row::blob_in(row[1])
        &&& self.dims == row::integer_in(row[2])
        &&& self.embedder_type@ == row::text_in(row[3])
        &&& text::opt_text(self.content_hash) == row::opt_text_in(row[4])
        &&& self.computed_at@ == row::text_in(row[5])
        &&& self.created_at@ == row::text_in(row[6])
    }

    fn kinds() -> (r: Vec<Kind>) {
        vec![
            Kind::Text,
            Kind::Blob,
            Kind::Integer,
            Kind::Text,
            Kind::OptText,
            Kind::Text,
            Kind::Text,
        ]
    }

    fn take(row: &Row) -> (r: Self) {
        proof {
            let held = statement::values(row@);
            assert(row::column_problem(held, 6, Self::columns()[6]) is None);
        }
        EmbeddingRawRow {
            skill_id: text_of(&row[0]),
            blob: blob_of(&row[1]),
            dims: integer_of(&row[2]),
            embedder_type: text_of(&row[3]),
            content_hash: opt_text_of(&row[4]),
            computed_at: text_of(&row[5]),
            created_at: text_of(&row[6]),
        }
    }
}

impl Columns for EmbeddingRawRow {
    open spec fn names() -> Seq<Seq<char>> {
        seq![
            "skill_id"@,
            "embedding"@,
            "dims"@,
            "embedder_type"@,
            "content_hash"@,
            "computed_at"@,
            "created_at"@,
        ]
    }

    proof fn names_match() {
    }

    fn name_list() -> (r: Vec<&'static str>) {
        let list = vec![
            "skill_id",
            "embedding",
            "dims",
            "embedder_type",
            "content_hash",
            "computed_at",
            "created_at",
        ];
        assert(statement::words(list@) == Self::names());
        list
    }
}

impl ToRow for EmbeddingRawRow {
    open spec fn values(self) -> Seq<ValueView> {
        seq![
            ValueView::Text(self.skill_id@),
            ValueView::Blob(self.blob@),
            ValueView::Integer(self.dims),
            ValueView::Text(self.embedder_type@),
            statement::opt_text_value(text::opt_text(self.content_hash)),
            ValueView::Text(self.computed_at@),
            ValueView::Text(self.created_at@),
        ]
    }

    proof fn reads_back(self) {
        assert forall|read: Self| #[trigger] read.holds(self.values()) implies read.values()
            == self.values() by {
            assert(read.values() =~= self.values());
        }
    }

    fn bound(&self) -> (r: Vec<SqlValue>) {
        let list = vec![
            bound_text(self.skill_id.as_str()),
            bound_blob(&self.blob),
            SqlValue::Integer(self.dims),
            bound_text(self.embedder_type.as_str()),
            bound_opt_text(&self.content_hash),
            bound_text(self.computed_at.as_str()),
            bound_text(self.created_at.as_str()),
        ];
        assert(statement::values(list@) == self.values());
        list
    }
}

/// The columns of an embedding that a row holds.
pub fn embedding_raw_row(row: &Row) -> (r: Result<EmbeddingRawRow, RowError>)
    ensures
        r is Ok <==> row::fits(statement::values(row@), EmbeddingRawRow::columns()),
        match r {
            Ok(raw) => raw.holds(statement::values(row@)),
            Err(problem) => row::row_problem(
                statement::values(row@),
                EmbeddingRawRow::columns(),
                EmbeddingRawRow::columns().len(),
            ) == Some(problem@),
        },
{
    read_row::<EmbeddingRawRow>(row)
}

/// The part of an embedding that an index loads, as its row holds it.
#[derive(Debug, Clone)]
pub struct EmbeddingBlobRow {
    pub skill_id: String,
    pub blob: Vec<u8>,
    pub dims: i64,
}

impl FromRow for EmbeddingBlobRow {
    open spec fn columns() -> Seq<Kind> {
        seq![
            Kind::Text,
            Kind::Blob,
            Kind::Integer,
        ]
    }

    open spec fn holds(self, row: Seq<ValueView>) -> bool {
        &&& self.skill_id@ == row::text_in(row[0])
        &&& self.blob@ == row::blob_in(row[1])
        &&& self.dims == row::integer_in(row[2])
    }

    fn kinds() -> (r: Vec<Kind>) {
        vec![
            Kind::Text,
            Kind::Blob,
            Kind::Integer,
        ]
    }

    fn take(row: &Row) -> (r: Self) {
        proof {
            let held = statement::values(row@);
            assert(row::column_problem(held, 2, Self::columns()[2]) is None);
        }
        EmbeddingBlobRow {
            skill_id: text_of(&row[0]),
            blob: blob_of(&row[1]),
            dims: integer_of(&row[2]),
        }
    }
}

impl Columns for EmbeddingBlobRow {
    open spec fn names() -> Seq<Seq<char>> {
        seq![
            "skill_id"@,
            "embedding"@,
            "dims"@,
        ]
    }

    proof fn names_match() {
    }

    fn name_list() -> (r: Vec<&'static str>) {
        let list = vec![
            "skill_id",
            "embedding",
            "dims",
        ];
        assert(statement::words(list@) == Self::names());
        list
    }
}

/// The bytes of numbers: of each the lower byte, then the higher.
pub fn encode_embedding_f16(numbers: &Vec<u16>) -> (r: Vec<u8>)
    ensures
        r@ == blob_bytes(numbers@),
{
    let mut out: Vec<u8> = Vec::new();
    for i in 0..numbers.len()
        invariant
            out@.len() == 2 * i,
            forall|k: int| 0 <= k < 2 * i ==> #[trigger] out@[k] == blob_bytes(numbers@)[k],
    {
        let n = numbers[i];
        out.push((n % 256) as u8);
        out.push((n / 256) as u8);
        assert forall|k: int| 0 <= k < 2 * (i + 1) implies #[trigger] out@[k] == blob_bytes(
            numbers@,
        )[k] by {
            if k == 2 * i {
                assert(k / 2 == i && k % 2 == 0);
            } else if k == 2 * i + 1 {
                assert(k / 2 == i && k % 2 == 1);
            }
        }
    }
    assert(out@ == blob_bytes(numbers@));
    out
}

/// How two lengths that should agree and do not are reported.
fn mismatch_text(what: &str, expected: usize, got: usize) -> (r: String)
    ensures
        r@ == mismatch_words(what@, expected as nat, got as nat),
{
    let mut out = what.to_owned();
    let expected_digits = decimal_text(expected as u64);
    let got_digits = decimal_text(got as u64);
    out.append(" mismatch: expected ");
    out.append(expected_digits.as_str());
    out.append(", got ");
    out.append(got_digits.as_str());
    out
}

/// The numbers of a blob that should have a number of dimensions.
pub fn decode_embedding_f16(bytes: &Vec<u8>, dims: usize) -> (r: Result<Vec<u16>, MsError>)
    ensures
        match r {
            Ok(numbers) => decoded_blob(bytes@, dims as nat) == Ok::<Seq<u16>, ErrorView>(
                numbers@,
            ),
            Err(error) => decoded_blob(bytes@, dims as nat) == Err::<Seq<u16>, ErrorView>(error@),
        },
{
    let expected: usize = if dims <= usize::MAX / 2 {
        2 * dims
    } else {
        usize::MAX
    };
    if bytes.len() != expected {
        return Err(
            MsError::Serialization(mismatch_text("embedding blob length", expected, bytes.len())),
        );
    }
    let mut out: Vec<u16> = Vec::new();
    let count: usize = bytes.len() / 2;
    for i in 0..count
        invariant
            count == bytes@.len() / 2,
            count <= usize::MAX / 2,
            out@.len() == i,
            forall|k: int| 0 <= k < i ==> #[trigger] out@[k] == blob_numbers(bytes@)[k],
    {
        out.push(bytes[2 * i] as u16 + 256 * (bytes[2 * i + 1] as u16));
    }
    assert(out@ == blob_numbers(bytes@));
    Ok(out)
}

/// The embedding that a row is.
pub fn decode_raw_embedding(raw: EmbeddingRawRow) -> (r: Result<EmbeddingRecord, MsError>)
    ensures
        match r {
            Ok(record) => embedding_of_row(raw.values()) == Ok::<EmbeddingView, ErrorView>(record@),
            Err(error) => embedding_of_row(raw.values()) == Err::<EmbeddingView, ErrorView>(error@),
        },
{
    let EmbeddingRawRow {
        skill_id,
        blob,
        dims,
        embedder_type,
        content_hash,
        computed_at,
        created_at,
    } = raw;
    let dims: usize = dims_of(dims);
    let computed_at = if computed_at.as_str().is_empty() {
        created_at
    } else {
        computed_at
    };
    match decode_embedding_f16(&blob, dims) {
        Ok(embedding) => Ok(
            EmbeddingRecord { skill_id, embedding, dims, embedder_type, content_hash, computed_at },
        ),
        Err(error) => Err(error),
    }
}

/// The dimensions that a column says.
fn dims_of(dims: i64) -> (r: usize)
    ensures
        r == dims_said(dims),
{
    if dims <= 0 {
        0
    } else {
        dims as usize
    }
}

/// The embedding that a query found.
pub fn embedding_found(row: &Option<Row>) -> (r: Result<Option<EmbeddingRecord>, MsError>)
    ensures
        match row {
            None => r matches Ok(None),
            Some(row) => {
                let held = statement::values(row@);
                if row::fits(held, EmbeddingRawRow::columns()) {
                    match r {
                        Ok(Some(record)) => embedding_of_row(held) == Ok::<
                            EmbeddingView,
                            ErrorView,
                        >(record@),
                        Ok(None) => false,
                        Err(error) => embedding_of_row(held) == Err::<EmbeddingView, ErrorView>(
                            error@,
                        ),
                    }
                } else {
                    r matches Err(error) && error@ == row::row_error(
                        row::row_problem(
                            held,
                            EmbeddingRawRow::columns(),
                            EmbeddingRawRow::columns().len(),
                        ),
                    )
                }
            },
        },
{
    let row = match row {
        Some(row) => row,
        None => return Ok(None),
    };
    let raw = match embedding_raw_row(row) {
        Ok(raw) => raw,
        Err(problem) => return Err(MsError::Database(problem.message())),
    };
    match decode_raw_embedding(raw) {
        Ok(record) => Ok(Some(record)),
        Err(error) => Err(error),
    }
}

/// What the embeddings of the first `n` rows are, or the first problem in them.
pub open spec fn blobs_of_rows(rows: Seq<Seq<ValueView>>, n: nat) -> Result<
    Seq<(Seq<char>, Seq<u16>)>,
    ErrorView,
>
    decreases n,
{
    if n == 0 {
        Ok(Seq::empty())
    } else {
        match blobs_of_rows(rows, (n - 1) as nat) {
            Err(error) => Err(error),
            Ok(before) => match decoded_blob(
                row::blob_in(rows[n - 1][1]),
                dims_said(row::integer_in(rows[n - 1][2])) as nat,
            ) {
                Err(error) => Err(error),
                Ok(numbers) => Ok(before.push((row::text_in(rows[n - 1][0]), numbers))),
            },
        }
    }
}

/// What each of a list of embeddings is.
pub open spec fn pair_views(list: Seq<(String, Vec<u16>)>) -> Seq<(Seq<char>, Seq<u16>)> {
    Seq::new(list.len(), |i: int| (list[i].0@, list[i].1@))
}

/// A problem in an early row is the problem of every longer list.
proof fn problem_stays(rows: Seq<Seq<ValueView>>, n: nat, m: nat)
    requires
        n <= m,
        blobs_of_rows(rows, n) is Err,
    ensures
        blobs_of_rows(rows, m) == blobs_of_rows(rows, n),
    decreases m,
{
    if n < m {
        problem_stays(rows, n, (m - 1) as nat);
    }
}

/// All embeddings that a query found, each with its skill.
pub fn all_embeddings(rows: &Vec<Row>) -> (r: Result<Vec<(String, Vec<u16>)>, MsError>)
    ensures
        if row::all_fit(row::row_values(rows@), EmbeddingBlobRow::columns()) {
            match r {
                Ok(list) => blobs_of_rows(row::row_values(rows@), rows@.len()) == Ok::<
                    Seq<(Seq<char>, Seq<u16>)>,
                    ErrorView,
                >(pair_views(list@)),
                Err(error) => blobs_of_rows(row::row_values(rows@), rows@.len()) == Err::<
                    Seq<(Seq<char>, Seq<u16>)>,
                    ErrorView,
                >(error@),
            }
        } else {
            r matches Err(error) && error@ == row::row_error(
                row::rows_problem(row::row_values(rows@), EmbeddingBlobRow::columns(), rows@.len()),
            )
        },
        r matches Ok(list) ==> list@.len() == rows@.len() && forall|i: int|
            0 <= i < list@.len() ==> statement::values(rows@[i]@)[0] == ValueView::Text(
                (#[trigger] list@[i]).0@,
            ),
{
    let raw = match read_rows::<EmbeddingBlobRow>(rows) {
        Ok(raw) => raw,
        Err(error) => return Err(error),
    };
    let ghost held = row::row_values(rows@);
    let mut out: Vec<(String, Vec<u16>)> = Vec::new();
    assert(pair_views(out@) == Seq::<(Seq<char>, Seq<u16>)>::empty());
    for i in 0..raw.len()
        invariant
            raw@.len() == held.len(),
            forall|k: int| 0 <= k < raw@.len() ==> (#[trigger] raw@[k]).holds(held[k]),
            held == row::row_values(rows@),
            row::all_fit(held, EmbeddingBlobRow::columns()),
            blobs_of_rows(held, i as nat) == Ok::<Seq<(Seq<char>, Seq<u16>)>, ErrorView>(
                pair_views(out@),
            ),
    {
        assert(raw@[i as int].holds(held[i as int]));
        match decode_embedding_f16(&raw[i].blob, dims_of(raw[i].dims)) {
            Ok(numbers) => {
                let ghost before = out@;
                out.push((raw[i].skill_id.as_str().to_owned(), numbers));
                assert(pair_views(out@) == pair_views(before).push(
                    (raw@[i as int].skill_id@, numbers@),
                ));
            },
            Err(error) => {
                proof {
                    problem_stays(held, (i + 1) as nat, held.len());
                }
                return Err(error);
            },
        }
    }
    proof {
        if held.len() > 0 {
            each_row_is_one_embedding(held, 0);
            assert(pair_views(out@).len() == held.len());
        }
        assert forall|i: int| 0 <= i < out@.len() implies statement::values(rows@[i]@)[0]
            == ValueView::Text((#[trigger] out@[i]).0@) by {
            each_row_is_one_embedding(held, i);
            assert(pair_views(out@)[i].0 == out@[i].0@);
        }
    }
    Ok(out)
}

impl Database {
    /// Writes an embedding over the one of the same skill. Where the record does not say when it
    /// was computed, that is `now`.
    pub fn upsert_embedding_at(record: &EmbeddingRecord, now: &str) -> (r: Result<
        Statement,
        MsError,
    >)
        ensures
            match r {
                Ok(s) => {
                    &&& record.embedding@.len() == record.dims
                    &&& s@ == embedding_written(
                        record@,
                        if record.computed_at@.len() == 0 {
                            now@
                        } else {
                            record.computed_at@
                        },
                    )
                },
                Err(error) => record.embedding@.len() != record.dims && error@ == dims_error(
                    record@,
                ),
            },
    {
        if record.embedding.len() != record.dims {
            return Err(
                MsError::Serialization(
                    mismatch_text("embedding dims", record.dims, record.embedding.len()),
                ),
            );
        }
        let computed_at = if record.computed_at.as_str().is_empty() {
            now
        } else {
            record.computed_at.as_str()
        };
        let row = EmbeddingRawRow {
            skill_id: record.skill_id.as_str().to_owned(),
            blob: encode_embedding_f16(&record.embedding),
            dims: record.dims as i64,
            embedder_type: record.embedder_type.as_str().to_owned(),
            content_hash: owned_text(&record.content_hash),
            computed_at: computed_at.to_owned(),
            created_at: computed_at.to_owned(),
        };
        let keys = vec!["skill_id"];
        let replaced = vec!["embedding", "dims", "embedder_type", "content_hash", "computed_at"];
        assert(statement::words(keys@) == seq!["skill_id"@]);
        assert(statement::words(replaced@) == embedding_replaced());
        assert(row.values() == embedding_values(record@, computed_at@));
        Ok(upsert_record("INSERT INTO skill_embeddings", &row, &keys, &replaced))
    }

    /// Writes an embedding over the one of the same skill. Where the record does not say when it
    /// was computed, that is now.
    pub fn upsert_embedding(record: &EmbeddingRecord) -> (r: Result<Statement, MsError>)
        ensures
            match r {
                Ok(s) => {
                    &&& record.embedding@.len() == record.dims
                    &&& record.computed_at@.len() > 0 ==> s@ == embedding_written(
                        record@,
                        record.computed_at@,
                    )
                    &&& record.computed_at@.len() == 0 ==> exists|now: Seq<char>| #[trigger]
                        sqlite::is_clock_text(now) && now.len() > 0 && s@ == embedding_written(
                            record@,
                            now,
                        )
                },
                Err(error) => record.embedding@.len() != record.dims && error@ == dims_error(
                    record@,
                ),
            },
    {
        if !record.computed_at.as_str().is_empty() {
            return Database::upsert_embedding_at(record, "");
        }
        let now = now_text();
        assert(sqlite::is_clock_text(now@));
        Database::upsert_embedding_at(record, now.as_str())
    }

    /// The embedding of a skill. For the row see [`embedding_found`].
    pub fn get_embedding(skill_id: &str) -> (r: Statement)
        ensures
            r@ == (StatementView {
                sql: statement::select_sql(
                    EmbeddingRawRow::names(),
                    statement::from_sql("skill_embeddings"@, seq!["skill_id"@]),
                ),
                params: seq![ValueView::Text(skill_id@)],
            }),
    {
        find_by::<EmbeddingRawRow>("skill_embeddings", "skill_id", skill_id)
    }

    /// An embedding of the same content by the same embedder. For the row see
    /// [`embedding_found`].
    pub fn get_embedding_by_hash(content_hash: &str, embedder_type: &str, dims: usize) -> (r:
        Statement)
        ensures
            r@ == (StatementView {
                sql: statement::select_sql(
                    EmbeddingRawRow::names(),
                    "skill_embeddings WHERE content_hash = ? AND embedder_type = ? AND dims = ? LIMIT 1"@,
                ),
                params: seq![
                    ValueView::Text(content_hash@),
                    ValueView::Text(embedder_type@),
                    statement::size_value(dims),
                ],
            }),
    {
        select_records::<EmbeddingRawRow>(
            "skill_embeddings WHERE content_hash = ? AND embedder_type = ? AND dims = ? LIMIT 1",
        ).text(content_hash).text(embedder_type).size(dims)
    }

    /// The embeddings of all skills. For the rows see [`all_embeddings`].
    pub fn get_all_embeddings() -> (r: Statement)
        ensures
            r@ == (StatementView {
                sql: statement::select_sql(EmbeddingBlobRow::names(), "skill_embeddings"@),
                params: seq![],
            }),
    {
        select_records::<EmbeddingBlobRow>("skill_embeddings")
    }
}

/// Numbers are read back from their bytes.
pub proof fn numbers_read_back(numbers: Seq<u16>)
    requires
        2 * numbers.len() <= usize::MAX,
    ensures
        decoded_blob(blob_bytes(numbers), numbers.len()) == Ok::<Seq<u16>, ErrorView>(numbers),
{
    let bytes = blob_bytes(numbers);
    assert(bytes.len() / 2 == numbers.len());
    assert forall|i: int| 0 <= i < numbers.len() implies blob_numbers(bytes)[i] == numbers[i] by {
        let n = numbers[i];
        assert((2 * i) / 2 == i && (2 * i) % 2 == 0);
        assert((2 * i + 1) / 2 == i && (2 * i + 1) % 2 == 1);
        assert(bytes[2 * i] == (n % 256) as u8);
        assert(bytes[2 * i + 1] == (n / 256) as u8);
        assert(n % 256 + 256 * (n / 256) == n);
    }
    assert(blob_numbers(bytes) == numbers);
}

/// Bytes are read back from their numbers, where they are an even number of bytes.
pub proof fn bytes_read_back(bytes: Seq<u8>)
    requires
        bytes.len() % 2 == 0,
    ensures
        blob_bytes(blob_numbers(bytes)) == bytes,
{
    let numbers = blob_numbers(bytes);
    assert(2 * numbers.len() == bytes.len());
    assert forall|i: int| 0 <= i < bytes.len() implies blob_bytes(numbers)[i] == bytes[i] by {
        let k = i / 2;
        let low = bytes[2 * k] as int;
        let high = bytes[2 * k + 1] as int;
        assert(numbers[k] == (low + 256 * high) as u16);
        assert(0 <= low + 256 * high <= u16::MAX);
        assert(numbers[k] % 256 == low);
        assert(numbers[k] / 256 == high);
        if i % 2 == 0 {
            assert(i == 2 * k);
        } else {
            assert(i == 2 * k + 1);
        }
    }
    assert(blob_bytes(numbers) == bytes);
}

/// A row that holds what an embedding is written as is read as that embedding.
pub proof fn embedding_reads_back(record: EmbeddingView)
    requires
        record.embedding.len() == record.dims,
        2 * record.dims <= usize::MAX,
        record.dims <= i64::MAX,
        record.computed_at.len() > 0,
    ensures
        row::fits(
            embedding_values(record, record.computed_at),
            EmbeddingRawRow::columns(),
        ),
        embedding_of_row(embedding_values(record, record.computed_at)) == Ok::<
            EmbeddingView,
            ErrorView,
        >(record),
{
    numbers_read_back(record.embedding);
    assert(dims_said(record.dims as i64) == record.dims);
}

/// The embeddings after one was written, at a time.
pub open spec fn embedding_stored(
    embeddings: TableView,
    record: EmbeddingView,
    computed_at: Seq<char>,
) -> TableView {
    table::upserted(
        embeddings,
        EmbeddingRawRow::names(),
        seq!["skill_id"@],
        embedding_replaced(),
        embedding_values(record, computed_at),
    )
}

/// The columns of an embedding are told apart.
proof fn embedding_columns_differ()
    ensures
        EmbeddingRawRow::names().no_duplicates(),
{
    reveal_strlit("skill_id");
    reveal_strlit("embedding");
    reveal_strlit("dims");
    reveal_strlit("embedder_type");
    reveal_strlit("content_hash");
    reveal_strlit("computed_at");
    reveal_strlit("created_at");
    let names = EmbeddingRawRow::names();
    let lengths = seq![8int, 9, 4, 13, 12, 11, 10];
    assert forall|i: int, j: int| 0 <= i < j < names.len() implies names[i] != names[j] by {
        assert(names[i].len() == lengths[i]);
        assert(names[j].len() == lengths[j]);
    }
}

/// An embedding that was written is found and read back, whatever embedding of the skill was there,
/// with the time at which it was computed; those of other skills stay. A row that was there holds
/// when it was made as a text, as every row does.
pub proof fn written_embedding_is_found(
    embeddings: TableView,
    record: EmbeddingView,
    computed_at: Seq<char>,
    other: Seq<ValueView>,
)
    requires
        table::is_keyed(embeddings, seq!["skill_id"@]),
        forall|key: Seq<ValueView>| #[trigger]
            embeddings.dom().contains(key) ==> table::in_column(embeddings[key], "created_at"@)
                is Text,
        record.embedding.len() == record.dims,
        2 * record.dims <= usize::MAX,
        record.dims <= i64::MAX,
        computed_at.len() > 0,
    ensures
        ({
            let after = embedding_stored(embeddings, record, computed_at);
            let key = seq![ValueView::Text(record.skill_id)];
            &&& table::found(after, key, EmbeddingRawRow::names()) matches Some(held)
            &&& row::fits(held, EmbeddingRawRow::columns())
            &&& embedding_of_row(held) == Ok::<EmbeddingView, ErrorView>(
                EmbeddingView { computed_at, ..record },
            )
        }),
        ({
            let after = embedding_stored(embeddings, record, computed_at);
            other != seq![ValueView::Text(record.skill_id)] ==> table::found(
                after,
                other,
                EmbeddingRawRow::names(),
            ) == table::found(embeddings, other, EmbeddingRawRow::names())
        }),
{
    let names = EmbeddingRawRow::names();
    let keys = seq!["skill_id"@];
    let replaced = embedding_replaced();
    let values = embedding_values(record, computed_at);
    let new = table::row_of(names, values);
    let key = seq![ValueView::Text(record.skill_id)];
    let after = embedding_stored(embeddings, record, computed_at);
    let held = table::picked(after[key], names);
    embedding_columns_differ();
    table::new_row_holds_its_values(names, values);
    assert(table::picked(new, keys) =~= key) by {
        assert(table::picked(new, names)[0] == values[0]);
    }
    assert forall|i: int| 0 <= i < 6 implies #[trigger] held[i] == values[i] by {
        assert(table::picked(new, names)[i] == values[i]);
        table::upserted_row_holds(embeddings, names, keys, replaced, values, names[i], other);
        if i > 0 {
            assert(replaced[i - 1] == names[i]);
        } else if replaced.contains(names[0]) {
            let j = choose|j: int| 0 <= j < replaced.len() && replaced[j] == names[0];
            assert(names[j + 1] == names[0]);
        } else if embeddings.dom().contains(key) {
            assert(table::picked(embeddings[key], keys)[0] == key[0]);
        }
    }
    assert(held[6] is Text) by {
        assert(table::picked(new, names)[6] == values[6]);
        table::upserted_row_holds(embeddings, names, keys, replaced, values, names[6], other);
        if replaced.contains(names[6]) {
            let j = choose|j: int| 0 <= j < replaced.len() && replaced[j] == names[6];
            assert(names[j + 1] == names[6]);
        }
    }
    table::upserted_row_holds(embeddings, names, keys, replaced, values, names[0], other);
    numbers_read_back(record.embedding);
    assert(dims_said(record.dims as i64) == record.dims);
    assert(row::fits(held, EmbeddingRawRow::columns()));
}

// ---------------------------------------------------------------------------------------------
// What is loaded
// ---------------------------------------------------------------------------------------------

/// A blob holds numbers: it has two bytes for each, first what is left of it below 256 and then how
/// often 256 is in it.
pub open spec fn holds_numbers(bytes: Seq<u8>, numbers: Seq<u16>) -> bool {
    &&& bytes.len() == 2 * numbers.len()
    &&& forall|k: int|
        #![trigger numbers[k]]
        0 <= k < numbers.len() ==> numbers[k] == bytes[2 * k] + 256 * bytes[2 * k + 1]
}

/// What numbers are written as holds them.
pub proof fn written_blob_holds_its_numbers(numbers: Seq<u16>)
    ensures
        holds_numbers(blob_bytes(numbers), numbers),
{
    let bytes = blob_bytes(numbers);
    assert forall|k: int| #![trigger numbers[k]] 0 <= k < numbers.len() implies numbers[k]
        == bytes[2 * k] + 256 * bytes[2 * k + 1] by {
        let n = numbers[k];
        assert((2 * k) / 2 == k && (2 * k) % 2 == 0);
        assert((2 * k + 1) / 2 == k && (2 * k + 1) % 2 == 1);
        assert(bytes[2 * k] == n % 256);
        assert(bytes[2 * k + 1] == n / 256);
    }
}

/// A blob is read just where it has two bytes for each of its dimensions, and then as the numbers
/// that it holds, as many as it has dimensions. Otherwise the error says how many bytes were
/// expected and how many there are.
pub proof fn blob_is_read_as_what_it_holds(bytes: Seq<u8>, dims: nat)
    requires
        2 * dims <= usize::MAX,
    ensures
        decoded_blob(bytes, dims) is Ok <==> bytes.len() == 2 * dims,
        decoded_blob(bytes, dims) matches Ok(numbers) ==> numbers.len() == dims && holds_numbers(
            bytes,
            numbers,
        ),
        decoded_blob(bytes, dims) matches Err(error) ==> error == ErrorView::Serialization(
            "embedding blob length mismatch: expected "@ + text::decimal(2 * dims) + ", got "@
                + text::decimal(bytes.len()),
        ),
{
    reveal_strlit("embedding blob length mismatch: expected ");
    reveal_strlit("embedding blob length");
    reveal_strlit(" mismatch: expected ");
    assert("embedding blob length"@ + " mismatch: expected "@
        =~= "embedding blob length mismatch: expected "@);
    if bytes.len() == 2 * dims {
        let numbers = blob_numbers(bytes);
        assert forall|k: int| #![trigger numbers[k]] 0 <= k < numbers.len() implies numbers[k]
            == bytes[2 * k] + 256 * bytes[2 * k + 1] by {
            assert(0 <= bytes[2 * k] + 256 * bytes[2 * k + 1] <= u16::MAX);
        }
    }
}

/// Where all rows are loaded, each row is one pair of the list, in its place: the skill that its
/// first column names, and the numbers that its blob holds.
pub proof fn each_row_is_one_embedding(rows: Seq<Seq<ValueView>>, i: int)
    requires
        blobs_of_rows(rows, rows.len()) is Ok,
        0 <= i < rows.len(),
        row::fits(rows[i], EmbeddingBlobRow::columns()),
    ensures
        ({
            let list = blobs_of_rows(rows, rows.len())->Ok_0;
            &&& list.len() == rows.len()
            &&& rows[i][0] == ValueView::Text(list[i].0)
            &&& rows[i][1] matches ValueView::Blob(bytes)
            &&& bytes.len() < usize::MAX ==> holds_numbers(bytes, list[i].1)
        }),
{
    loaded_by_rows(rows, rows.len(), i);
    let held = rows[i];
    assert(row::column_problem(held, 0, EmbeddingBlobRow::columns()[0]) is None);
    assert(row::column_problem(held, 1, EmbeddingBlobRow::columns()[1]) is None);
    assert(row::column_problem(held, 2, EmbeddingBlobRow::columns()[2]) is None);
    let bytes = held[1]->Blob_0;
    let dims = dims_said(held[2]->Integer_0) as nat;
    if bytes.len() < usize::MAX {
        blob_is_read_as_what_it_holds(bytes, dims);
    }
}

proof fn loaded_by_rows(rows: Seq<Seq<ValueView>>, n: nat, i: int)
    requires
        blobs_of_rows(rows, n) is Ok,
        0 <= i < n <= rows.len(),
    ensures
        ({
            let list = blobs_of_rows(rows, n)->Ok_0;
            &&& list.len() == n
            &&& list[i].0 == row::text_in(rows[i][0])
            &&& decoded_blob(
                row::blob_in(rows[i][1]),
                dims_said(row::integer_in(rows[i][2])) as nat,
            ) == Ok::<Seq<u16>, ErrorView>(list[i].1)
        }),
    decreases n,
{
    let before = (n - 1) as nat;
    if i < before {
        loaded_by_rows(rows, before, i);
    } else if before > 0 {
        loaded_by_rows(rows, before, 0);
    }
}

/// A row has a blob of two bytes for each dimension that it says.
pub open spec fn has_its_bytes(held: Seq<ValueView>) -> bool {
    &&& held[1] matches ValueView::Blob(bytes)
    &&& held[2] matches ValueView::Integer(dims)
    &&& bytes.len() == 2 * (if dims > 0 {
        dims as int
    } else {
        0
    })
}

/// All rows are loaded just where each has two bytes for each dimension that it says.
pub proof fn rows_with_their_bytes_are_loaded(rows: Seq<Seq<ValueView>>)
    requires
        forall|k: int|
            0 <= k < rows.len() ==> row::fits(#[trigger] rows[k], EmbeddingBlobRow::columns()),
        forall|k: int|
            0 <= k < rows.len() ==> (#[trigger] rows[k])[2]->Integer_0 <= usize::MAX / 2,
    ensures
        blobs_of_rows(rows, rows.len()) is Ok <==> forall|k: int|
            0 <= k < rows.len() ==> has_its_bytes(#[trigger] rows[k]),
{
    prefix_is_loaded(rows, rows.len());
}

proof fn prefix_is_loaded(rows: Seq<Seq<ValueView>>, n: nat)
    requires
        n <= rows.len(),
        forall|k: int|
            0 <= k < rows.len() ==> row::fits(#[trigger] rows[k], EmbeddingBlobRow::columns()),
        forall|k: int|
            0 <= k < rows.len() ==> (#[trigger] rows[k])[2]->Integer_0 <= usize::MAX / 2,
    ensures
        blobs_of_rows(rows, n) is Ok <==> forall|k: int|
            0 <= k < n ==> has_its_bytes(#[trigger] rows[k]),
    decreases n,
{
    if n > 0 {
        prefix_is_loaded(rows, (n - 1) as nat);
        let held = rows[n - 1];
        assert(row::column_problem(held, 1, EmbeddingBlobRow::columns()[1]) is None);
        assert(row::column_problem(held, 2, EmbeddingBlobRow::columns()[2]) is None);
        let dims = held[2]->Integer_0;
        assert(dims_said(dims) == (if dims > 0 {
            dims as int
        } else {
            0
        }));
        blob_is_read_as_what_it_holds(held[1]->Blob_0, dims_said(dims) as nat);
    }
}

/// A table of embeddings is loaded as the pairs that it holds: each skill that has a row is in the
/// list once, with the numbers that the blob of its row holds, and no other skill is.
pub proof fn stored_embeddings_are_loaded(
    embeddings: TableView,
    rows: Seq<Seq<ValueView>>,
    skill: Seq<char>,
)
    requires
        table::is_keyed(embeddings, seq!["skill_id"@]),
        table::lists(
            rows,
            embeddings,
            EmbeddingBlobRow::names(),
            any_embedding(),
            table::any_order(),
        ),
        forall|k: int|
            0 <= k < rows.len() ==> row::fits(#[trigger] rows[k], EmbeddingBlobRow::columns()),
        blobs_of_rows(rows, rows.len()) is Ok,
    ensures
        ({
            let list = blobs_of_rows(rows, rows.len())->Ok_0;
            let key = seq![ValueView::Text(skill)];
            &&& (exists|i: int| 0 <= i < list.len() && (#[trigger] list[i]).0 == skill)
                <==> embeddings.dom().contains(key)
            &&& forall|i: int, j: int|
                0 <= i < j < list.len() ==> (#[trigger] list[i]).0 != (#[trigger] list[j]).0
            &&& forall|i: int|
                0 <= i < list.len() && (#[trigger] list[i]).0 == skill ==> {
                    &&& table::in_column(embeddings[key], "embedding"@) matches ValueView::Blob(
                        bytes,
                    )
                    &&& bytes.len() < usize::MAX ==> holds_numbers(bytes, list[i].1)
                }
        }),
{
    let names = EmbeddingBlobRow::names();
    let list = blobs_of_rows(rows, rows.len())->Ok_0;
    let key = seq![ValueView::Text(skill)];
    let keys = choose|keys: Seq<Seq<ValueView>>| #[trigger]
        table::is_listing(keys, embeddings, any_embedding(), table::any_order()) && rows
            == table::rows_at(embeddings, keys, names);
    if rows.len() > 0 {
        each_row_is_one_embedding(rows, 0);
    }
    assert forall|i: int| 0 <= i < rows.len() implies ({
        &&& embeddings.dom().contains(#[trigger] keys[i])
        &&& keys[i] == seq![ValueView::Text(list[i].0)]
        &&& table::in_column(embeddings[keys[i]], "embedding"@) matches ValueView::Blob(bytes)
        &&& bytes.len() < usize::MAX ==> holds_numbers(bytes, list[i].1)
    }) by {
        assert(keys.contains(keys[i]));
        each_row_is_one_embedding(rows, i);
        assert(names[0] == "skill_id"@ && names[1] == "embedding"@);
        assert(rows[i] == table::picked(embeddings[keys[i]], names));
        assert(table::picked(embeddings[keys[i]], seq!["skill_id"@]) == keys[i]);
        assert(table::picked(embeddings[keys[i]], seq!["skill_id"@]) =~= seq![rows[i][0]]);
    }
    assert forall|i: int, j: int| 0 <= i < j < list.len() implies (#[trigger] list[i]).0
        != (#[trigger] list[j]).0 by {
        assert(keys[i] != keys[j]);
    }
    if embeddings.dom().contains(key) {
        assert(any_embedding()(embeddings[key]));
        assert(keys.contains(key));
        let i = choose|i: int| 0 <= i < keys.len() && keys[i] == key;
        assert(keys[i][0] == ValueView::Text(list[i].0));
        assert(list[i].0 == skill);
    }
    if exists|i: int| 0 <= i < list.len() && (#[trigger] list[i]).0 == skill {
        let i = choose|i: int| 0 <= i < list.len() && (#[trigger] list[i]).0 == skill;
        assert(keys[i] == key);
    }
    assert forall|i: int| 0 <= i < list.len() && (#[trigger] list[i]).0 == skill implies {
        &&& table::in_column(embeddings[key], "embedding"@) matches ValueView::Blob(bytes)
        &&& bytes.len() < usize::MAX ==> holds_numbers(bytes, list[i].1)
    } by {
        assert(keys[i] == key);
    }
}

/// Every row of the embeddings.
pub open spec fn any_embedding() -> spec_fn(table::RowView) -> bool {
    |held: table::RowView| true
}

/// An embedding that was written is loaded with its skill, with the numbers that were written.
pub proof fn written_embedding_is_loaded(
    embeddings: TableView,
    record: EmbeddingView,
    computed_at: Seq<char>,
    rows: Seq<Seq<ValueView>>,
)
    requires
        table::is_keyed(embeddings, seq!["skill_id"@]),
        table::is_keyed(embedding_stored(embeddings, record, computed_at), seq!["skill_id"@]),
        table::lists(
            rows,
            embedding_stored(embeddings, record, computed_at),
            EmbeddingBlobRow::names(),
            any_embedding(),
            table::any_order(),
        ),
        forall|k: int|
            0 <= k < rows.len() ==> row::fits(#[trigger] rows[k], EmbeddingBlobRow::columns()),
        blobs_of_rows(rows, rows.len()) is Ok,
        2 * record.embedding.len() < usize::MAX,
    ensures
        blobs_of_rows(rows, rows.len())->Ok_0.contains((record.skill_id, record.embedding)),
{
    let after = embedding_stored(embeddings, record, computed_at);
    let names = EmbeddingRawRow::names();
    let keys = seq!["skill_id"@];
    let replaced = embedding_replaced();
    let values = embedding_values(record, computed_at);
    let new = table::row_of(names, values);
    let key = seq![ValueView::Text(record.skill_id)];
    let list = blobs_of_rows(rows, rows.len())->Ok_0;
    embedding_columns_differ();
    table::new_row_holds_its_values(names, values);
    assert(table::picked(new, keys) =~= key) by {
        assert(table::picked(new, names)[0] == values[0]);
    }
    assert(table::picked(new, names)[1] == values[1]);
    assert(names[1] == "embedding"@);
    assert(replaced[0] == "embedding"@);
    table::upserted_row_holds(embeddings, names, keys, replaced, values, "embedding"@, key);
    stored_embeddings_are_loaded(after, rows, record.skill_id);
    let i = choose|i: int| 0 <= i < list.len() && (#[trigger] list[i]).0 == record.skill_id;
    let bytes = blob_bytes(record.embedding);
    written_blob_holds_its_numbers(record.embedding);
    assert(table::in_column(after[key], "embedding"@) == ValueView::Blob(bytes));
    assert(list[i].1 =~= record.embedding) by {
        assert(holds_numbers(bytes, list[i].1));
        assert forall|k: int| 0 <= k < list[i].1.len() implies list[i].1[k]
            == record.embedding[k] by {
            assert(record.embedding[k] == bytes[2 * k] + 256 * bytes[2 * k + 1]);
        }
    }
    assert(list[i] == (record.skill_id, record.embedding));
}

/// What a row of an embedding is read as, column by column: its skill, the numbers that its blob
/// holds, as many as its dimensions, who embedded what, and when it was computed, which is when the
/// row was made where it does not say.
pub proof fn embedding_has_what_its_row_holds(held: Seq<ValueView>)
    requires
        row::fits(held, EmbeddingRawRow::columns()),
        held[2]->Integer_0 <= usize::MAX / 2,
    ensures
        embedding_of_row(held) is Ok <==> has_its_bytes(held),
        embedding_of_row(held) matches Ok(record) ==> {
            &&& held[0] == ValueView::Text(record.skill_id)
            &&& holds_numbers(held[1]->Blob_0, record.embedding)
            &&& record.embedding.len() == record.dims
            &&& held[3] == ValueView::Text(record.embedder_type)
            &&& match record.content_hash {
                Some(hash) => held[4] == ValueView::Text(hash),
                None => held[4] == ValueView::Null,
            }
            &&& held[5] == ValueView::Text(Seq::empty()) ==> held[6] == ValueView::Text(
                record.computed_at,
            )
            &&& held[5] != ValueView::Text(Seq::empty()) ==> held[5] == ValueView::Text(
                record.computed_at,
            )
        },
{
    let kinds = EmbeddingRawRow::columns();
    assert forall|k: int| 0 <= k < 7 implies row::column_problem(held, k, #[trigger] kinds[k])
        is None by {}
    assert(kinds[0] == row::Kind::Text && kinds[1] == row::Kind::Blob && kinds[2]
        == row::Kind::Integer && kinds[3] == row::Kind::Text && kinds[4] == row::Kind::OptText
        && kinds[5] == row::Kind::Text && kinds[6] == row::Kind::Text);
    let dims = held[2]->Integer_0;
    assert(dims_said(dims) == (if dims > 0 {
        dims as int
    } else {
        0
    }));
    blob_is_read_as_what_it_holds(held[1]->Blob_0, dims_said(dims) as nat);
    if row::text_in(held[5]).len() == 0 {
        assert(row::text_in(held[5]) =~= Seq::<char>::empty());
    }
}

/// The error of an embedding that has not as many numbers as it says tells both numbers.
pub proof fn wrong_dimensions_are_worded(record: EmbeddingView)
    ensures
        dims_error(record) == ErrorView::Serialization(
            "embedding dims mismatch: expected "@ + text::decimal(record.dims) + ", got "@
                + text::decimal(record.embedding.len()),
        ),
{
    reveal_strlit("embedding dims");
    reveal_strlit(" mismatch: expected ");
    reveal_strlit("embedding dims mismatch: expected ");
    assert("embedding dims"@ + " mismatch: expected "@ == "embedding dims mismatch: expected "@);
}

} // verus!
