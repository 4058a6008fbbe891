//! Values, and statements with the values bound to their placeholders.

use crate::text;
use crate::text::join_texts;
use vstd::prelude::*;
use vstd::string::*;

verus! {

/// A value of a column or a placeholder.
#[derive(Debug, Clone)]
pub enum SqlValue {
    Null,
    Integer(i64),
    /// A double-precision number, by its bits.
    Real(u64),
    Text(String),
    Blob(Vec<u8>),
}

/// What a value is.
#[verifier::ext_equal]
pub ghost enum ValueView {
    Null,
    Integer(i64),
    Real(u64),
    Text(Seq<char>),
    Blob(Seq<u8>),
}

impl View for SqlValue {
    type V = ValueView;

    open spec fn view(&self) -> ValueView {
        match self {
            SqlValue::Null => ValueView::Null,
            SqlValue::Integer(n) => ValueView::Integer(*n),
            SqlValue::Real(bits) => ValueView::Real(*bits),
            SqlValue::Text(t) => ValueView::Text(t@),
            SqlValue::Blob(b) => ValueView::Blob(b@),
        }
    }
}

/// What each of a list of values is.
pub open spec fn values(list: Seq<SqlValue>) -> Seq<ValueView> {
    Seq::new(list.len(), |i: int| list[i]@)
}

/// A number that a column of numbers holds: double-precision, by its bits, or an integer that
/// stands for the double-precision number nearest to it.
#[derive(Debug, Clone, Copy, PartialEq, Eq, Structural)]
pub enum Real {
    Float(u64),
    Integer(i64),
}

/// The value that a number is bound as.
pub open spec fn real_value(number: Real) -> ValueView {
    match number {
        Real::Float(bits) => ValueView::Real(bits),
        Real::Integer(n) => ValueView::Integer(n),
    }
}

/// The value that an optional text is bound as.
pub open spec fn opt_text_value(text: Option<Seq<char>>) -> ValueView {
    match text {
        Some(t) => ValueView::Text(t),
        None => ValueView::Null,
    }
}

/// The value that an optional integer is bound as.
pub open spec fn opt_integer_value(number: Option<i64>) -> ValueView {
    match number {
        Some(n) => ValueView::Integer(n),
        None => ValueView::Null,
    }
}

/// The value that a truth value is bound as.
pub open spec fn flag_value(flag: bool) -> ValueView {
    ValueView::Integer(
        if flag {
            1
        } else {
            0
        },
    )
}

/// The value that a count or size is bound as.
pub open spec fn size_value(size: usize) -> ValueView {
    ValueView::Integer(size as i64)
}

/// A statement, with a value for each placeholder, in order.
#[derive(Debug, Clone)]
pub struct Statement {
    pub sql: String,
    pub params: Vec<SqlValue>,
}

/// What a statement is.
#[verifier::ext_equal]
pub ghost struct StatementView {
    pub sql: Seq<char>,
    pub params: Seq<ValueView>,
}

impl View for Statement {
    type V = StatementView;

    open spec fn view(&self) -> StatementView {
        StatementView { sql: self.sql@, params: values(self.params@) }
    }
}

/// What each of a list of statements is.
pub open spec fn statements(list: Seq<Statement>) -> Seq<StatementView> {
    Seq::new(list.len(), |i: int| list[i]@)
}

impl Statement {
    /// A statement with nothing bound.
    pub fn new(sql: &str) -> (r: Statement)
        ensures
            r@ == (StatementView { sql: sql@, params: seq![] }),
    {
        let params: Vec<SqlValue> = Vec::new();
        assert(values(params@) == Seq::<ValueView>::empty());
        Statement { sql: sql.to_owned(), params }
    }

    /// The statement with one value more.
    pub fn bind(self, value: SqlValue) -> (r: Statement)
        ensures
            r@ == (StatementView { sql: self@.sql, params: self@.params.push(value@) }),
    {
        let Statement { sql, params } = self;
        let mut params = params;
        let ghost before = params@;
        params.push(value);
        assert(values(params@) == values(before).push(value@));
        Statement { sql, params }
    }

    /// The statement with a text bound.
    pub fn text(self, text: &str) -> (r: Statement)
        ensures
            r@ == (StatementView {
                sql: self@.sql,
                params: self@.params.push(ValueView::Text(text@)),
            }),
    {
        self.bind(bound_text(text))
    }

    /// The statement with a text bound, or `NULL`.
    pub fn opt_text(self, text: Option<&str>) -> (r: Statement)
        ensures
            r@ == (StatementView {
                sql: self@.sql,
                params: self@.params.push(opt_text_value(text::opt_str(text))),
            }),
    {
        match text {
            Some(t) => self.bind(SqlValue::Text(t.to_owned())),
            None => self.bind(SqlValue::Null),
        }
    }

    /// The statement with an integer bound.
    pub fn integer(self, number: i64) -> (r: Statement)
        ensures
            r@ == (StatementView {
                sql: self@.sql,
                params: self@.params.push(ValueView::Integer(number)),
            }),
    {
        self.bind(SqlValue::Integer(number))
    }

    /// The statement with a count or size bound.
    pub fn size(self, size: usize) -> (r: Statement)
        ensures
            r@ == (StatementView { sql: self@.sql, params: self@.params.push(size_value(size)) }),
    {
        self.bind(SqlValue::Integer(size as i64))
    }

    /// The statement with a truth value bound.
    pub fn flag(self, flag: bool) -> (r: Statement)
        ensures
            r@ == (StatementView { sql: self@.sql, params: self@.params.push(flag_value(flag)) }),
    {
        self.bind(bound_flag(flag))
    }

    /// The statement with a number bound.
    pub fn number(self, number: Real) -> (r: Statement)
        ensures
            r@ == (StatementView { sql: self@.sql, params: self@.params.push(real_value(number)) }),
    {
        self.bind(bound_number(number))
    }
}

/// The text of an optional string.
pub fn borrowed(text: &Option<String>) -> (r: Option<&str>)
    ensures
        text::opt_str(r) == text::opt_text(*text),
{
    match text {
        Some(t) => Some(t.as_str()),
        None => None,
    }
}

/// The value that a text is bound as.
pub fn bound_text(text: &str) -> (r: SqlValue)
    ensures
        r@ == ValueView::Text(text@),
{
    SqlValue::Text(text.to_owned())
}

/// The value that an optional text is bound as.
pub fn bound_opt_text(text: &Option<String>) -> (r: SqlValue)
    ensures
        r@ == opt_text_value(text::opt_text(*text)),
{
    match text {
        Some(t) => SqlValue::Text(t.as_str().to_owned()),
        None => SqlValue::Null,
    }
}

/// The value that an optional integer is bound as.
pub fn bound_opt_integer(number: Option<i64>) -> (r: SqlValue)
    ensures
        r@ == opt_integer_value(number),
{
    match number {
        Some(n) => SqlValue::Integer(n),
        None => SqlValue::Null,
    }
}

/// The value that a truth value is bound as.
pub fn bound_flag(flag: bool) -> (r: SqlValue)
    ensures
        r@ == flag_value(flag),
{
    SqlValue::Integer(
        if flag {
            1
        } else {
            0
        },
    )
}

/// The value that a number is bound as.
pub fn bound_number(number: Real) -> (r: SqlValue)
    ensures
        r@ == real_value(number),
{
    match number {
        Real::Float(bits) => SqlValue::Real(bits),
        Real::Integer(n) => SqlValue::Integer(n),
    }
}

/// The value that bytes are bound as.
pub fn bound_blob(bytes: &Vec<u8>) -> (r: SqlValue)
    ensures
        r@ == ValueView::Blob(bytes@),
{
    let mut out: Vec<u8> = Vec::new();
    for i in 0..bytes.len()
        invariant
            out@ == bytes@.take(i as int),
    {
        out.push(bytes[i]);
    }
    SqlValue::Blob(out)
}

/// What each of a list of names is.
pub open spec fn words(list: Seq<&'static str>) -> Seq<Seq<char>> {
    Seq::new(list.len(), |i: int| list[i]@)
}

/// Names or placeholders, one behind the other.
pub open spec fn listed(names: Seq<Seq<char>>) -> Seq<char> {
    text::join(names, ", "@)
}

/// The text of a query for columns, with what stands behind `FROM`.
pub open spec fn select_sql(columns: Seq<Seq<char>>, rest: Seq<char>) -> Seq<char> {
    "SELECT "@ + listed(columns) + " FROM "@ + rest
}

/// Each column is compared with a value.
pub open spec fn comparisons(columns: Seq<Seq<char>>) -> Seq<Seq<char>> {
    Seq::new(columns.len(), |i: int| columns[i] + " = ?"@)
}

/// What stands behind `FROM` for the rows of a table with given values in some columns.
pub open spec fn from_sql(table: Seq<char>, keys: Seq<Seq<char>>) -> Seq<char> {
    if keys.len() == 0 {
        table
    } else {
        table + " WHERE "@ + text::join(comparisons(keys), " AND "@)
    }
}

/// The text that sets a column in the rows of a table with a given value in another.
pub open spec fn update_sql(table: Seq<char>, column: Seq<char>, key: Seq<char>) -> Seq<char> {
    "UPDATE "@ + table + " SET "@ + column + " = ? WHERE "@ + key + " = ?"@
}

/// As many placeholders as there are columns.
pub open spec fn placeholders(columns: Seq<Seq<char>>) -> Seq<Seq<char>> {
    Seq::new(columns.len(), |i: int| "?"@)
}

/// The text of an insertion of words into columns, by how it begins.
pub open spec fn insert_words_sql(
    into: Seq<char>,
    columns: Seq<Seq<char>>,
    list: Seq<Seq<char>>,
) -> Seq<char> {
    into + " ("@ + listed(columns) + ") VALUES ("@ + listed(list) + ")"@
}

/// The text of an insertion into columns, by how it begins.
pub open spec fn insert_sql(into: Seq<char>, columns: Seq<Seq<char>>) -> Seq<char> {
    insert_words_sql(into, columns, placeholders(columns))
}

/// What an insertion puts into a column: the bound value of a place, counted from the left, a fixed
/// value, or the time.
pub ghost enum Filling {
    Bound(nat),
    Fixed { word: Seq<char>, value: ValueView },
    Now,
}

/// The word of an insertion that stands for what is put into a column.
pub open spec fn filling_word(filling: Filling) -> Seq<char> {
    match filling {
        Filling::Bound(_) => "?"@,
        Filling::Fixed { word, .. } => word,
        Filling::Now => "datetime('now')"@,
    }
}

/// The words of an insertion.
pub open spec fn filling_words(fillings: Seq<Filling>) -> Seq<Seq<char>> {
    Seq::new(fillings.len(), |i: int| filling_word(fillings[i]))
}

/// What is put into a column, with values bound and at a time.
pub open spec fn filling_value(
    filling: Filling,
    params: Seq<ValueView>,
    now: Seq<char>,
) -> ValueView {
    match filling {
        Filling::Bound(n) => params[n as int],
        Filling::Fixed { value, .. } => value,
        Filling::Now => ValueView::Text(now),
    }
}

/// What is put into the columns, with values bound and at a time.
pub open spec fn filled(
    fillings: Seq<Filling>,
    params: Seq<ValueView>,
    now: Seq<char>,
) -> Seq<ValueView> {
    Seq::new(fillings.len(), |i: int| filling_value(fillings[i], params, now))
}

/// Each column gets the value that was to be inserted.
pub open spec fn replacements(columns: Seq<Seq<char>>) -> Seq<Seq<char>> {
    Seq::new(columns.len(), |i: int| columns[i] + "=excluded."@ + columns[i])
}

/// What an insertion ends with that replaces columns where there is a row with the same keys.
pub open spec fn conflict_sql(keys: Seq<Seq<char>>, replaced: Seq<Seq<char>>) -> Seq<char> {
    " ON CONFLICT("@ + listed(keys) + ") DO UPDATE SET "@ + listed(replacements(replaced))
}

/// The text of an insertion into columns that replaces some of them where there is a row with the
/// same keys.
pub open spec fn upsert_sql(
    into: Seq<char>,
    columns: Seq<Seq<char>>,
    keys: Seq<Seq<char>>,
    replaced: Seq<Seq<char>>,
) -> Seq<char> {
    insert_sql(into, columns) + conflict_sql(keys, replaced)
}

/// The text of an insertion of words into columns that replaces some of them where there is a row
/// with the same keys.
pub open spec fn upsert_words_sql(
    into: Seq<char>,
    columns: Seq<Seq<char>>,
    list: Seq<Seq<char>>,
    keys: Seq<Seq<char>>,
    replaced: Seq<Seq<char>>,
) -> Seq<char> {
    insert_words_sql(into, columns, list) + conflict_sql(keys, replaced)
}

/// Names, one behind the other.
fn listed_text(names: &Vec<&'static str>) -> (r: String)
    ensures
        r@ == listed(words(names@)),
{
    let mut owned: Vec<String> = Vec::new();
    for i in 0..names.len()
        invariant
            text::texts(owned@) == words(names@).take(i as int),
    {
        let ghost before = owned@;
        owned.push(names[i].to_owned());
        assert(text::texts(owned@) == text::texts(before).push(names@[i as int]@));
        assert(words(names@).take(i + 1) == words(names@).take(i as int).push(
            words(names@)[i as int],
        ));
    }
    assert(words(names@).take(names@.len() as int) == words(names@));
    join_texts(&owned, ", ")
}

/// What stands behind `FROM` for the rows of a table with given values in some columns.
pub fn from_text(table: &str, keys: &Vec<&'static str>) -> (r: String)
    ensures
        r@ == from_sql(table@, words(keys@)),
{
    let mut out = table.to_owned();
    if keys.len() == 0 {
        return out;
    }
    let mut tests: Vec<String> = Vec::new();
    let ghost all = comparisons(words(keys@));
    for i in 0..keys.len()
        invariant
            all == comparisons(words(keys@)),
            text::texts(tests@) == all.take(i as int),
    {
        let mut one = keys[i].to_owned();
        one.append(" = ?");
        let ghost before = tests@;
        tests.push(one);
        assert(text::texts(tests@) == text::texts(before).push(all[i as int]));
        assert(all.take(i + 1) == all.take(i as int).push(all[i as int]));
    }
    assert(all.take(keys@.len() as int) == all);
    let condition = join_texts(&tests, " AND ");
    out.append(" WHERE ");
    out.append(condition.as_str());
    out
}

/// Sets a column in the rows of a table with a given value in another.
pub fn update(table: &str, column: &str, key: &str) -> (r: Statement)
    ensures
        r@ == (StatementView { sql: update_sql(table@, column@, key@), params: seq![] }),
{
    let mut sql = "UPDATE ".to_owned();
    sql.append(table);
    sql.append(" SET ");
    sql.append(column);
    sql.append(" = ? WHERE ");
    sql.append(key);
    sql.append(" = ?");
    Statement::new(sql.as_str())
}

/// A query for columns, with what stands behind `FROM`.
pub fn select(columns: &Vec<&'static str>, rest: &str) -> (r: Statement)
    ensures
        r@ == (StatementView { sql: select_sql(words(columns@), rest@), params: seq![] }),
{
    let mut sql = "SELECT ".to_owned();
    let names = listed_text(columns);
    sql.append(names.as_str());
    sql.append(" FROM ");
    sql.append(rest);
    Statement::new(sql.as_str())
}

/// The text of an insertion of words into columns, by how it begins.
fn insert_words_text(into: &str, columns: &Vec<&'static str>, list: &Vec<&'static str>) -> (r:
    String)
    ensures
        r@ == insert_words_sql(into@, words(columns@), words(list@)),
{
    let names = listed_text(columns);
    let values = listed_text(list);
    let mut sql = into.to_owned();
    sql.append(" (");
    sql.append(names.as_str());
    sql.append(") VALUES (");
    sql.append(values.as_str());
    sql.append(")");
    sql
}

/// The text of an insertion into columns, by how it begins.
fn insert_text(into: &str, columns: &Vec<&'static str>) -> (r: String)
    ensures
        r@ == insert_sql(into@, words(columns@)),
{
    let mut marks: Vec<&'static str> = Vec::new();
    for i in 0..columns.len()
        invariant
            marks@.len() == i,
            forall|k: int| 0 <= k < i ==> (#[trigger] marks@[k])@ == "?"@,
    {
        marks.push("?");
    }
    assert(words(marks@) == placeholders(words(columns@)));
    insert_words_text(into, columns, &marks)
}

/// Each column gets the value that was to be inserted.
fn replacements_text(columns: &Vec<&'static str>) -> (r: String)
    ensures
        r@ == listed(replacements(words(columns@))),
{
    let mut set: Vec<String> = Vec::new();
    let ghost all = replacements(words(columns@));
    for i in 0..columns.len()
        invariant
            all == replacements(words(columns@)),
            text::texts(set@) == all.take(i as int),
    {
        let mut one = columns[i].to_owned();
        one.append("=excluded.");
        one.append(columns[i]);
        let ghost before = set@;
        set.push(one);
        assert(text::texts(set@) == text::texts(before).push(all[i as int]));
        assert(all.take(i + 1) == all.take(i as int).push(all[i as int]));
    }
    assert(all.take(columns@.len() as int) == all);
    join_texts(&set, ", ")
}

/// What an insertion ends with that replaces columns where there is a row with the same keys.
fn conflict_text(keys: &Vec<&'static str>, replaced: &Vec<&'static str>) -> (r: String)
    ensures
        r@ == conflict_sql(words(keys@), words(replaced@)),
{
    let key_names = listed_text(keys);
    let set = replacements_text(replaced);
    let mut sql = " ON CONFLICT(".to_owned();
    sql.append(key_names.as_str());
    sql.append(") DO UPDATE SET ");
    sql.append(set.as_str());
    sql
}

/// An insertion of values into columns.
pub fn insert(into: &str, columns: &Vec<&'static str>, values: Vec<SqlValue>) -> (r: Statement)
    ensures
        r@ == (StatementView {
            sql: insert_sql(into@, words(columns@)),
            params: self::values(values@),
        }),
{
    Statement { sql: insert_text(into, columns), params: values }
}

/// An insertion of values into columns that replaces some of them where there is a row with the
/// same keys.
pub fn upsert(
    into: &str,
    columns: &Vec<&'static str>,
    values: Vec<SqlValue>,
    keys: &Vec<&'static str>,
    replaced: &Vec<&'static str>,
) -> (r: Statement)
    ensures
        r@ == (StatementView {
            sql: upsert_sql(into@, words(columns@), words(keys@), words(replaced@)),
            params: self::values(values@),
        }),
{
    let mut sql = insert_text(into, columns);
    let conflict = conflict_text(keys, replaced);
    sql.append(conflict.as_str());
    Statement { sql, params: values }
}

/// An insertion of words into columns, with no values bound yet, that replaces some of them where
/// there is a row with the same keys.
pub fn upsert_words(
    into: &str,
    columns: &Vec<&'static str>,
    list: &Vec<&'static str>,
    keys: &Vec<&'static str>,
    replaced: &Vec<&'static str>,
) -> (r: Statement)
    ensures
        r@ == (StatementView {
            sql: upsert_words_sql(
                into@,
                words(columns@),
                words(list@),
                words(keys@),
                words(replaced@),
            ),
            params: seq![],
        }),
{
    let mut sql = insert_words_text(into, columns, list);
    let conflict = conflict_text(keys, replaced);
    sql.append(conflict.as_str());
    Statement::new(sql.as_str())
}

} // verus!
