//! Reading rows.

use crate::error::{ErrorView, MsError};
use crate::storage::statement;
use crate::storage::statement::{
    from_text, insert, select, upsert, Real, SqlValue, Statement, StatementView, ValueView,
};
use crate::text;
use crate::text::{concat, decimal_text, signed_decimal_text};
use vstd::prelude::*;
use vstd::string::*;

verus! {

/// A row that a query gave: the values of its columns, in order.
pub type Row = Vec<SqlValue>;

/// What a column is read as.
#[derive(Debug, Clone, Copy, PartialEq, Eq, Structural)]
pub enum Kind {
    Text,
    OptText,
    Integer,
    OptInteger,
    /// An integer of 32 bits.
    SmallInteger,
    Real,
    Blob,
}

/// Why a row cannot be read.
#[derive(Debug, Clone)]
pub enum RowError {
    /// The row has no column of that number.
    NoSuchColumn(usize),
    /// A column holds a value of another type.
    TypeMismatch { expected: String, actual: String },
}

/// Why a row cannot be read.
#[verifier::ext_equal]
pub ghost enum RowErrorView {
    NoSuchColumn(nat),
    TypeMismatch { expected: Seq<char>, actual: Seq<char> },
}

impl View for RowError {
    type V = RowErrorView;

    open spec fn view(&self) -> RowErrorView {
        match self {
            RowError::NoSuchColumn(i) => RowErrorView::NoSuchColumn(*i as nat),
            RowError::TypeMismatch { expected, actual } => RowErrorView::TypeMismatch {
                expected: expected@,
                actual: actual@,
            },
        }
    }
}

impl RowErrorView {
    /// How the error is worded.
    pub open spec fn words(self) -> Seq<char> {
        match self {
            RowErrorView::NoSuchColumn(i) => "no such column: column index "@ + text::decimal(i),
            RowErrorView::TypeMismatch { expected, actual } => "type mismatch: expected "@
                + expected + ", got "@ + actual,
        }
    }
}

impl RowError {
    /// How the error is worded.
    pub fn message(&self) -> (r: String)
        ensures
            r@ == self@.words(),
    {
        match self {
            RowError::NoSuchColumn(i) => {
                let number = decimal_text(*i as u64);
                concat("no such column: column index ", number.as_str())
            },
            RowError::TypeMismatch { expected, actual } => {
                let mut out = "type mismatch: expected ".to_owned();
                out.append(expected.as_str());
                out.append(", got ");
                out.append(actual.as_str());
                out
            },
        }
    }
}

/// The name of a value's type.
pub open spec fn value_kind_name(value: ValueView) -> Seq<char> {
    match value {
        ValueView::Null => "null"@,
        ValueView::Integer(_) => "integer"@,
        ValueView::Real(_) => "real"@,
        ValueView::Text(_) => "text"@,
        ValueView::Blob(_) => "blob"@,
    }
}

/// Why a value cannot be read as a kind, if it cannot.
pub open spec fn value_problem(value: ValueView, kind: Kind) -> Option<RowErrorView> {
    let other = |expected: Seq<char>|
        Some(RowErrorView::TypeMismatch { expected, actual: value_kind_name(value) });
    match (kind, value) {
        (Kind::Text, ValueView::Text(_)) => None,
        (Kind::Text, _) => other("text"@),
        (Kind::OptText, ValueView::Null) => None,
        (Kind::OptText, ValueView::Text(_)) => None,
        (Kind::OptText, _) => other("text"@),
        (Kind::Integer, ValueView::Integer(_)) => None,
        (Kind::Integer, _) => other("integer"@),
        (Kind::OptInteger, ValueView::Null) => None,
        (Kind::OptInteger, ValueView::Integer(_)) => None,
        (Kind::OptInteger, _) => other("integer"@),
        (Kind::SmallInteger, ValueView::Integer(n)) => if i32::MIN <= n <= i32::MAX {
            None
        } else {
            Some(
                RowErrorView::TypeMismatch {
                    expected: "i32"@,
                    actual: "integer("@ + text::signed_decimal(n as int) + ")"@,
                },
            )
        },
        (Kind::SmallInteger, _) => other("integer"@),
        (Kind::Real, ValueView::Real(_)) => None,
        (Kind::Real, ValueView::Integer(_)) => None,
        (Kind::Real, _) => other("real"@),
        (Kind::Blob, ValueView::Blob(_)) => None,
        (Kind::Blob, _) => other("blob"@),
    }
}

/// Why column `i` of a row cannot be read as a kind, if it cannot.
pub open spec fn column_problem(row: Seq<ValueView>, i: int, kind: Kind) -> Option<RowErrorView> {
    if i >= row.len() {
        Some(RowErrorView::NoSuchColumn(i as nat))
    } else {
        value_problem(row[i], kind)
    }
}

/// Each column of a row can be read as its kind.
pub open spec fn fits(row: Seq<ValueView>, kinds: Seq<Kind>) -> bool {
    forall|i: int|
        0 <= i < kinds.len() ==> (#[trigger] column_problem(row, i, kinds[i])) is None
}

/// Why one of the first `n` columns of a row cannot be read as its kind, if one cannot: the first.
pub open spec fn row_problem(row: Seq<ValueView>, kinds: Seq<Kind>, n: nat) -> Option<RowErrorView>
    decreases n,
{
    if n == 0 {
        None
    } else {
        match row_problem(row, kinds, (n - 1) as nat) {
            Some(problem) => Some(problem),
            None => column_problem(row, n - 1, kinds[n - 1]),
        }
    }
}

/// The text that a column holds.
pub open spec fn text_in(value: ValueView) -> Seq<char> {
    match value {
        ValueView::Text(t) => t,
        _ => Seq::empty(),
    }
}

/// The text that a column holds; none where it holds `NULL`.
pub open spec fn opt_text_in(value: ValueView) -> Option<Seq<char>> {
    match value {
        ValueView::Text(t) => Some(t),
        _ => None,
    }
}

/// The integer that a column holds.
pub open spec fn integer_in(value: ValueView) -> i64 {
    match value {
        ValueView::Integer(n) => n,
        _ => 0,
    }
}

/// The integer that a column holds; none where it holds `NULL`.
pub open spec fn opt_integer_in(value: ValueView) -> Option<i64> {
    match value {
        ValueView::Integer(n) => Some(n),
        _ => None,
    }
}

/// The number that a column holds.
pub open spec fn real_in(value: ValueView) -> Real {
    match value {
        ValueView::Real(bits) => Real::Float(bits),
        ValueView::Integer(n) => Real::Integer(n),
        _ => Real::Integer(0),
    }
}

/// The bytes that a column holds.
pub open spec fn blob_in(value: ValueView) -> Seq<u8> {
    match value {
        ValueView::Blob(b) => b,
        _ => Seq::empty(),
    }
}

/// The name of a value's type.
fn value_type(value: &SqlValue) -> (r: &'static str)
    ensures
        r@ == value_kind_name(value@),
{
    match value {
        SqlValue::Null => "null",
        SqlValue::Integer(_) => "integer",
        SqlValue::Real(_) => "real",
        SqlValue::Text(_) => "text",
        SqlValue::Blob(_) => "blob",
    }
}

/// A mismatch between what was expected and the type that was found.
fn mismatch(expected: &str, actual: &str) -> (r: RowError)
    ensures
        r@ == (RowErrorView::TypeMismatch { expected: expected@, actual: actual@ }),
{
    RowError::TypeMismatch { expected: expected.to_owned(), actual: actual.to_owned() }
}

/// The view of an optional error.
pub open spec fn opt_problem(problem: Option<RowError>) -> Option<RowErrorView> {
    match problem {
        Some(p) => Some(p@),
        None => None,
    }
}

/// Why a value cannot be read as a kind, if it cannot.
fn check_value(value: &SqlValue, kind: Kind) -> (r: Option<RowError>)
    ensures
        opt_problem(r) == value_problem(value@, kind),
{
    let actual = value_type(value);
    match (kind, value) {
        (Kind::Text, SqlValue::Text(_)) => None,
        (Kind::Text, _) => Some(mismatch("text", actual)),
        (Kind::OptText, SqlValue::Null) => None,
        (Kind::OptText, SqlValue::Text(_)) => None,
        (Kind::OptText, _) => Some(mismatch("text", actual)),
        (Kind::Integer, SqlValue::Integer(_)) => None,
        (Kind::Integer, _) => Some(mismatch("integer", actual)),
        (Kind::OptInteger, SqlValue::Null) => None,
        (Kind::OptInteger, SqlValue::Integer(_)) => None,
        (Kind::OptInteger, _) => Some(mismatch("integer", actual)),
        (Kind::SmallInteger, SqlValue::Integer(n)) => if i32::MIN as i64 <= *n && *n
            <= i32::MAX as i64 {
            None
        } else {
            let mut found = "integer(".to_owned();
            let digits = signed_decimal_text(*n);
            found.append(digits.as_str());
            found.append(")");
            Some(mismatch("i32", found.as_str()))
        },
        (Kind::SmallInteger, _) => Some(mismatch("integer", actual)),
        (Kind::Real, SqlValue::Real(_)) => None,
        (Kind::Real, SqlValue::Integer(_)) => None,
        (Kind::Real, _) => Some(mismatch("real", actual)),
        (Kind::Blob, SqlValue::Blob(_)) => None,
        (Kind::Blob, _) => Some(mismatch("blob", actual)),
    }
}

/// Why column `i` of a row cannot be read as a kind, if it cannot.
pub fn check_column(row: &Row, i: usize, kind: Kind) -> (r: Option<RowError>)
    ensures
        opt_problem(r) == column_problem(statement::values(row@), i as int, kind),
{
    if i >= row.len() {
        Some(RowError::NoSuchColumn(i))
    } else {
        check_value(&row[i], kind)
    }
}

/// Why a column of a row cannot be read as its kind, if one cannot: the first.
pub fn check_row(row: &Row, kinds: &Vec<Kind>) -> (r: Option<RowError>)
    ensures
        opt_problem(r) == row_problem(statement::values(row@), kinds@, kinds@.len()),
        r is None <==> fits(statement::values(row@), kinds@),
{
    let ghost held = statement::values(row@);
    for i in 0..kinds.len()
        invariant
            held == statement::values(row@),
            row_problem(held, kinds@, i as nat) is None,
            forall|k: int| 0 <= k < i ==> (#[trigger] column_problem(held, k, kinds@[k])) is None,
    {
        if let Some(problem) = check_column(row, i, kinds[i]) {
            proof {
                problem_is_first(held, kinds@, (i + 1) as nat, kinds@.len());
                assert(column_problem(held, i as int, kinds@[i as int]) is Some);
            }
            return Some(problem);
        }
    }
    None
}

/// A problem in an early column is the problem of the row.
proof fn problem_is_first(row: Seq<ValueView>, kinds: Seq<Kind>, n: nat, m: nat)
    requires
        n <= m,
        row_problem(row, kinds, n) is Some,
    ensures
        row_problem(row, kinds, m) == row_problem(row, kinds, n),
    decreases m,
{
    if n < m {
        problem_is_first(row, kinds, n, (m - 1) as nat);
    }
}

/// The text that a value holds.
pub fn text_of(value: &SqlValue) -> (r: String)
    ensures
        r@ == text_in(value@),
{
    match value {
        SqlValue::Text(t) => t.as_str().to_owned(),
        _ => String::new(),
    }
}

/// The text that a value holds; none where it holds none.
pub fn opt_text_of(value: &SqlValue) -> (r: Option<String>)
    ensures
        text::opt_text(r) == opt_text_in(value@),
{
    match value {
        SqlValue::Text(t) => Some(t.as_str().to_owned()),
        _ => None,
    }
}

/// The integer that a value holds.
pub fn integer_of(value: &SqlValue) -> (r: i64)
    ensures
        r == integer_in(value@),
{
    match value {
        SqlValue::Integer(n) => *n,
        _ => 0,
    }
}

/// The integer that a value holds; none where it holds none.
pub fn opt_integer_of(value: &SqlValue) -> (r: Option<i64>)
    ensures
        r == opt_integer_in(value@),
{
    match value {
        SqlValue::Integer(n) => Some(*n),
        _ => None,
    }
}

/// The number that a value holds.
pub fn real_of(value: &SqlValue) -> (r: Real)
    ensures
        r == real_in(value@),
{
    match value {
        SqlValue::Real(bits) => Real::Float(*bits),
        SqlValue::Integer(n) => Real::Integer(*n),
        _ => Real::Integer(0),
    }
}

/// The bytes that a value holds.
pub fn blob_of(value: &SqlValue) -> (r: Vec<u8>)
    ensures
        r@ == blob_in(value@),
{
    match value {
        SqlValue::Blob(b) => {
            let mut out: Vec<u8> = Vec::new();
            for i in 0..b.len()
                invariant
                    out@ == b@.take(i as int),
            {
                out.push(b[i]);
            }
            out
        },
        _ => Vec::new(),
    }
}

/// What a row of a query is read as.
pub trait FromRow: Sized {
    /// What each column is read as.
    spec fn columns() -> Seq<Kind>;

    /// The value holds what the columns of a row hold.
    spec fn holds(self, row: Seq<ValueView>) -> bool;

    /// What each column is read as.
    fn kinds() -> (r: Vec<Kind>)
        ensures
            r@ == Self::columns(),
    ;

    /// The value that a row holds, whose columns can be read.
    fn take(row: &Row) -> (r: Self)
        requires
            fits(statement::values(row@), Self::columns()),
        ensures
            r.holds(statement::values(row@)),
    ;
}

/// A row was read as it should be: as a value that holds what the row holds, or, where a column
/// cannot be read, with the first problem.
pub open spec fn is_read<T: FromRow>(row: Seq<ValueView>, r: Result<T, RowErrorView>) -> bool {
    match r {
        Ok(value) => fits(row, T::columns()) && value.holds(row),
        Err(problem) => row_problem(row, T::columns(), T::columns().len()) == Some(problem),
    }
}

/// Reads a row.
pub fn read_row<T: FromRow>(row: &Row) -> (r: Result<T, RowError>)
    ensures
        r is Ok <==> fits(statement::values(row@), T::columns()),
        match r {
            Ok(value) => is_read::<T>(statement::values(row@), Ok(value)),
            Err(problem) => is_read::<T>(statement::values(row@), Err(problem@)),
        },
{
    let kinds = T::kinds();
    match check_row(row, &kinds) {
        Some(problem) => Err(problem),
        None => Ok(T::take(row)),
    }
}

// ---------------------------------------------------------------------------------------------
// Columns with names, and records that are written
// ---------------------------------------------------------------------------------------------

/// What a row of a query is read as whose columns have names.
pub trait Columns: FromRow {
    /// The names of the columns.
    spec fn names() -> Seq<Seq<char>>;

    /// Each column that is read has a name. A query may ask for more columns, behind those.
    proof fn names_match()
        ensures
            Self::columns().len() <= Self::names().len(),
    ;

    /// The names of the columns.
    fn name_list() -> (r: Vec<&'static str>)
        ensures
            statement::words(r@) == Self::names(),
    ;
}

/// A record that is written as a row.
pub trait ToRow: Columns {
    /// The values that the record is written as, in the order of its columns.
    spec fn values(self) -> Seq<ValueView>;

    /// A row that the record is written as can be read, and whatever is read of it is written the
    /// same.
    proof fn reads_back(self)
        ensures
            self.values().len() == Self::names().len(),
            fits(self.values(), Self::columns()),
            self.holds(self.values()),
            forall|read: Self| #[trigger]
                read.holds(self.values()) ==> read.values() == self.values(),
    ;

    /// The values that the record is written as, in the order of its columns.
    fn bound(&self) -> (r: Vec<SqlValue>)
        ensures
            statement::values(r@) == self.values(),
    ;
}

/// A record that is written as a row is read back: there is a value for each column that a query
/// for such records names, and reading the row succeeds, with a record that is written the same.
pub proof fn written_record_is_read_back<T: ToRow>(record: T, read: Result<T, RowErrorView>)
    requires
        is_read::<T>(record.values(), read),
    ensures
        read is Ok,
        read->Ok_0.values() == record.values(),
        record.values().len() == T::names().len(),
{
    record.reads_back();
    T::names_match();
    fitting_has_no_problem(record.values(), T::columns(), T::columns().len());
}

/// A query for records, with what stands behind `FROM`.
pub fn select_records<T: Columns>(rest: &str) -> (r: Statement)
    ensures
        r@ == (StatementView { sql: statement::select_sql(T::names(), rest@), params: seq![] }),
{
    let names = T::name_list();
    select(&names, rest)
}

/// A query for the records in a table with given values in some columns.
pub fn find_records<T: Columns>(table: &str, keys: &Vec<&'static str>) -> (r: Statement)
    ensures
        r@ == (StatementView {
            sql: statement::select_sql(
                T::names(),
                statement::from_sql(table@, statement::words(keys@)),
            ),
            params: seq![],
        }),
{
    let rest = from_text(table, keys);
    select_records::<T>(rest.as_str())
}

/// A query for the records in a table with a text in a column.
pub fn find_by<T: Columns>(table: &str, key: &'static str, value: &str) -> (r: Statement)
    ensures
        r@ == (StatementView {
            sql: statement::select_sql(T::names(), statement::from_sql(table@, seq![key@])),
            params: seq![ValueView::Text(value@)],
        }),
{
    let keys = vec![key];
    assert(statement::words(keys@) == seq![key@]);
    find_records::<T>(table, &keys).text(value)
}

/// An insertion of a record, by how it begins.
pub fn insert_record<T: ToRow>(into: &str, record: &T) -> (r: Statement)
    ensures
        r@ == (StatementView {
            sql: statement::insert_sql(into@, T::names()),
            params: record.values(),
        }),
{
    let names = T::name_list();
    insert(into, &names, record.bound())
}

/// An insertion of a record that replaces columns where there is a row with the same keys.
pub fn upsert_record<T: ToRow>(
    into: &str,
    record: &T,
    keys: &Vec<&'static str>,
    replaced: &Vec<&'static str>,
) -> (r: Statement)
    ensures
        r@ == (StatementView {
            sql: statement::upsert_sql(
                into@,
                T::names(),
                statement::words(keys@),
                statement::words(replaced@),
            ),
            params: record.values(),
        }),
{
    let names = T::name_list();
    upsert(into, &names, record.bound(), keys, replaced)
}

/// An insertion of a record whose first column is its key, and which replaces all the others where
/// there is a row with the same key.
pub fn replace_record<T: ToRow>(into: &str, record: &T, key: &'static str) -> (r: Statement)
    requires
        T::names().len() > 0,
    ensures
        r@ == (StatementView {
            sql: statement::upsert_sql(into@, T::names(), seq![key@], T::names().skip(1)),
            params: record.values(),
        }),
{
    let names = T::name_list();
    let mut replaced: Vec<&'static str> = Vec::new();
    for i in 1..names.len()
        invariant
            replaced@ == names@.subrange(1, i as int),
    {
        replaced.push(names[i]);
    }
    let keys = vec![key];
    assert(statement::words(keys@) == seq![key@]);
    assert(statement::words(replaced@) == T::names().skip(1));
    upsert(into, &names, record.bound(), &keys, &replaced)
}

// ---------------------------------------------------------------------------------------------
// Rows of a query
// ---------------------------------------------------------------------------------------------

/// What each of a list of rows holds.
pub open spec fn row_values(rows: Seq<Row>) -> Seq<Seq<ValueView>> {
    Seq::new(rows.len(), |i: int| statement::values(rows[i]@))
}

/// The first problem in the first `n` of a list of rows, if there is one.
pub open spec fn rows_problem(
    rows: Seq<Seq<ValueView>>,
    kinds: Seq<Kind>,
    n: nat,
) -> Option<RowErrorView>
    decreases n,
{
    if n == 0 {
        None
    } else {
        match rows_problem(rows, kinds, (n - 1) as nat) {
            Some(problem) => Some(problem),
            None => row_problem(rows[n - 1], kinds, kinds.len()),
        }
    }
}

/// Each row of a list can be read.
pub open spec fn all_fit(rows: Seq<Seq<ValueView>>, kinds: Seq<Kind>) -> bool {
    forall|i: int| 0 <= i < rows.len() ==> fits(#[trigger] rows[i], kinds)
}

/// The error of a row that cannot be read.
pub open spec fn row_error(problem: Option<RowErrorView>) -> ErrorView {
    match problem {
        Some(p) => ErrorView::Database(p.words()),
        None => ErrorView::Database(Seq::empty()),
    }
}

/// Reads the row that a query for at most one row found.
pub fn read_found<T: FromRow>(row: &Option<Row>) -> (r: Result<Option<T>, MsError>)
    ensures
        match row {
            None => r matches Ok(None),
            Some(row) => {
                let held = statement::values(row@);
                if fits(held, T::columns()) {
                    r matches Ok(Some(value)) && value.holds(held)
                } else {
                    r matches Err(error) && error@ == row_error(
                        row_problem(held, T::columns(), T::columns().len()),
                    )
                }
            },
        },
{
    match row {
        None => Ok(None),
        Some(row) => match read_row::<T>(row) {
            Ok(value) => Ok(Some(value)),
            Err(problem) => Err(MsError::Database(problem.message())),
        },
    }
}

/// Reads the one row that a query always gives.
pub fn read_one<T: FromRow>(row: &Row) -> (r: Result<T, MsError>)
    ensures
        if fits(statement::values(row@), T::columns()) {
            r matches Ok(value) && value.holds(statement::values(row@))
        } else {
            r matches Err(error) && error@ == row_error(
                row_problem(statement::values(row@), T::columns(), T::columns().len()),
            )
        },
{
    match read_row::<T>(row) {
        Ok(value) => Ok(value),
        Err(problem) => Err(MsError::Database(problem.message())),
    }
}

/// Reads the rows that a query found, in order. One that cannot be read fails the whole.
pub fn read_rows<T: FromRow>(rows: &Vec<Row>) -> (r: Result<Vec<T>, MsError>)
    ensures
        ({
            let held = row_values(rows@);
            if all_fit(held, T::columns()) {
                &&& r is Ok
                &&& r->Ok_0@.len() == rows@.len()
                &&& forall|i: int| 0 <= i < rows@.len() ==> (#[trigger] r->Ok_0@[i]).holds(held[i])
            } else {
                r matches Err(error) && error@ == row_error(
                    rows_problem(held, T::columns(), rows@.len()),
                )
            }
        }),
{
    let ghost held = row_values(rows@);
    let mut out: Vec<T> = Vec::new();
    for i in 0..rows.len()
        invariant
            held == row_values(rows@),
            out@.len() == i,
            rows_problem(held, T::columns(), i as nat) is None,
            forall|k: int|
                0 <= k < i ==> fits(#[trigger] held[k], T::columns()) && out@[k].holds(held[k]),
    {
        match read_row::<T>(&rows[i]) {
            Ok(value) => {
                proof {
                    fitting_has_no_problem(held[i as int], T::columns(), T::columns().len());
                }
                out.push(value);
            },
            Err(problem) => {
                proof {
                    assert(held[i as int] == statement::values(rows@[i as int]@));
                    assert(!fits(held[i as int], T::columns()));
                    early_problem_stays(held, T::columns(), (i + 1) as nat, held.len());
                }
                return Err(MsError::Database(problem.message()));
            },
        }
    }
    proof {
        assert forall|i: int| 0 <= i < rows@.len() implies (#[trigger] out@[i]).holds(held[i]) by {
            assert(fits(held[i], T::columns()));
        }
    }
    Ok(out)
}

/// A row that can be read has no problem.
pub proof fn fitting_has_no_problem(row: Seq<ValueView>, kinds: Seq<Kind>, n: nat)
    requires
        fits(row, kinds),
        n <= kinds.len(),
    ensures
        row_problem(row, kinds, n) is None,
    decreases n,
{
    if n > 0 {
        fitting_has_no_problem(row, kinds, (n - 1) as nat);
        assert(column_problem(row, n - 1, kinds[n - 1]) is None);
    }
}

proof fn early_problem_stays(rows: Seq<Seq<ValueView>>, kinds: Seq<Kind>, n: nat, m: nat)
    requires
        n <= m,
        rows_problem(rows, kinds, n) is Some,
    ensures
        rows_problem(rows, kinds, m) == rows_problem(rows, kinds, n),
    decreases m,
{
    if n < m {
        early_problem_stays(rows, kinds, n, (m - 1) as nat);
    }
}

impl FromRow for String {
    open spec fn columns() -> Seq<Kind> {
        seq![Kind::Text]
    }

    open spec fn holds(self, row: Seq<ValueView>) -> bool {
        self@ == text_in(row[0])
    }

    fn kinds() -> (r: Vec<Kind>) {
        vec![Kind::Text]
    }

    fn take(row: &Row) -> (r: Self) {
        assert(column_problem(statement::values(row@), 0, Self::columns()[0]) is None);
        text_of(&row[0])
    }
}

impl FromRow for i64 {
    open spec fn columns() -> Seq<Kind> {
        seq![Kind::Integer]
    }

    open spec fn holds(self, row: Seq<ValueView>) -> bool {
        self == integer_in(row[0])
    }

    fn kinds() -> (r: Vec<Kind>) {
        vec![Kind::Integer]
    }

    fn take(row: &Row) -> (r: Self) {
        assert(column_problem(statement::values(row@), 0, Self::columns()[0]) is None);
        integer_of(&row[0])
    }
}

} // verus!
