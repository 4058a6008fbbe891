//! What statements ask of a table.
//!
//! A statement is a text for whoever holds the table. Here stands what the texts of
//! [`statement`](crate::storage::statement) mean: a table is its rows by their keys, an insertion
//! that replaces columns changes one row, an update one column of one row, and a query picks
//! columns. The laws that speak of several statements are stated over these meanings. That an
//! engine keeps to them is not proved here.

use crate::storage::row;
use crate::storage::row::{Columns, FromRow, RowErrorView, ToRow};
use crate::storage::statement::ValueView;
use crate::storage::text_map;
use vstd::prelude::*;

verus! {

/// A row of a table: its values by the names of their columns.
pub type RowView = Map<Seq<char>, ValueView>;

/// A table: its rows by the values of their key columns.
pub type TableView = Map<Seq<ValueView>, RowView>;

/// The value in a column of a row.
pub open spec fn in_column(held: RowView, column: Seq<char>) -> ValueView {
    if held.dom().contains(column) {
        held[column]
    } else {
        ValueView::Null
    }
}

/// The values in some columns of a row.
pub open spec fn picked(held: RowView, columns: Seq<Seq<char>>) -> Seq<ValueView> {
    Seq::new(columns.len(), |i: int| in_column(held, columns[i]))
}

/// The row with values in columns.
pub open spec fn row_of(columns: Seq<Seq<char>>, values: Seq<ValueView>) -> RowView {
    Map::new(
        |column: Seq<char>| columns.contains(column),
        |column: Seq<char>| values[columns.index_of(column)],
    )
}

/// A row with some of its columns replaced by those of another.
pub open spec fn merged(held: RowView, new: RowView, replaced: Seq<Seq<char>>) -> RowView {
    Map::new(
        |column: Seq<char>| held.dom().contains(column) || replaced.contains(column),
        |column: Seq<char>|
            if replaced.contains(column) {
                in_column(new, column)
            } else {
                held[column]
            },
    )
}

/// Each row stands under the values of its key columns.
pub open spec fn is_keyed(table: TableView, keys: Seq<Seq<char>>) -> bool {
    forall|key: Seq<ValueView>| #[trigger]
        table.dom().contains(key) ==> picked(table[key], keys) == key
}

/// What `upsert_sql` asks for: the row is inserted, or, where there is one with the same key, some
/// of its columns are replaced.
pub open spec fn upserted(
    table: TableView,
    columns: Seq<Seq<char>>,
    keys: Seq<Seq<char>>,
    replaced: Seq<Seq<char>>,
    values: Seq<ValueView>,
) -> TableView {
    let new = row_of(columns, values);
    let key = picked(new, keys);
    if table.dom().contains(key) {
        table.insert(key, merged(table[key], new, replaced))
    } else {
        table.insert(key, new)
    }
}

/// What `update_sql` asks for: one column of the row with a key is set.
pub open spec fn updated(
    table: TableView,
    key: Seq<ValueView>,
    column: Seq<char>,
    value: ValueView,
) -> TableView {
    if table.dom().contains(key) {
        table.insert(key, table[key].insert(column, value))
    } else {
        table
    }
}

/// What a deletion asks for: the rows that meet a condition are gone.
pub open spec fn deleted(table: TableView, gone: spec_fn(RowView) -> bool) -> TableView {
    Map::new(
        |key: Seq<ValueView>| table.dom().contains(key) && !gone(table[key]),
        |key: Seq<ValueView>| table[key],
    )
}

/// The keys of the rows that meet a condition; a query for a count asks how many they are.
pub open spec fn matching_keys(
    table: TableView,
    matching: spec_fn(RowView) -> bool,
) -> Set<Seq<ValueView>> {
    Set::new(|key: Seq<ValueView>| table.dom().contains(key) && matching(table[key]))
}

/// How many rows `update_sql` changes.
pub open spec fn updated_rows(table: TableView, key: Seq<ValueView>) -> nat {
    if table.dom().contains(key) {
        1
    } else {
        0
    }
}

/// What `select_sql` asks for, with `from_sql` over the key columns: columns of the row with a key.
pub open spec fn found(
    table: TableView,
    key: Seq<ValueView>,
    columns: Seq<Seq<char>>,
) -> Option<Seq<ValueView>> {
    if table.dom().contains(key) {
        Some(picked(table[key], columns))
    } else {
        None
    }
}

/// Two values are the same to a comparison, to which `NULL` is the same as nothing.
pub open spec fn same_value(a: ValueView, b: ValueView) -> bool {
    a == b && a != ValueView::Null
}

/// One value comes before another, where both are texts.
pub open spec fn value_before(a: ValueView, b: ValueView) -> bool {
    match (a, b) {
        (ValueView::Text(a), ValueView::Text(b)) => text_map::before(a, b),
        _ => false,
    }
}

/// The keys of the rows that a query asks for, one behind the other: those of the rows that match,
/// each once, and none behind one that it is to come before.
pub open spec fn is_listing(
    keys: Seq<Seq<ValueView>>,
    table: TableView,
    matching: spec_fn(RowView) -> bool,
    first: spec_fn(RowView, RowView) -> bool,
) -> bool {
    &&& keys.no_duplicates()
    &&& forall|key: Seq<ValueView>| #[trigger]
        keys.contains(key) <==> table.dom().contains(key) && matching(table[key])
    &&& forall|i: int, j: int|
        0 <= i < j < keys.len() ==> !first(table[#[trigger] keys[j]], table[#[trigger] keys[i]])
}

/// The columns of rows with keys, one behind the other.
pub open spec fn rows_at(
    table: TableView,
    keys: Seq<Seq<ValueView>>,
    columns: Seq<Seq<char>>,
) -> Seq<Seq<ValueView>> {
    Seq::new(keys.len(), |i: int| picked(table[keys[i]], columns))
}

/// What `select_sql` asks for, with a condition and an order: columns of all rows that match, in
/// order.
pub open spec fn lists(
    rows: Seq<Seq<ValueView>>,
    table: TableView,
    columns: Seq<Seq<char>>,
    matching: spec_fn(RowView) -> bool,
    first: spec_fn(RowView, RowView) -> bool,
) -> bool {
    exists|keys: Seq<Seq<ValueView>>| #[trigger]
        is_listing(keys, table, matching, first) && rows == rows_at(table, keys, columns)
}

/// In any order.
pub open spec fn any_order() -> spec_fn(RowView, RowView) -> bool {
    |a: RowView, b: RowView| false
}

/// A column of a row holds a text.
pub open spec fn holds_text(column: Seq<char>, text: Seq<char>) -> spec_fn(RowView) -> bool {
    |held: RowView| in_column(held, column) == ValueView::Text(text)
}

/// The one of two rows that is later, by a column, comes first.
pub open spec fn latest_first(column: Seq<char>) -> spec_fn(RowView, RowView) -> bool {
    |a: RowView, b: RowView| value_before(in_column(b, column), in_column(a, column))
}

/// What `LIMIT` and `OFFSET` ask for of rows in order.
pub open spec fn page(rows: Seq<Seq<ValueView>>, limit: nat, offset: nat) -> Seq<Seq<ValueView>> {
    let rest = if offset <= rows.len() {
        rows.skip(offset as int)
    } else {
        Seq::empty()
    };
    if rest.len() <= limit {
        rest
    } else {
        rest.take(limit as int)
    }
}

/// A record whose first columns are the key of its table.
pub trait Keyed: ToRow {
    /// How many of the columns are the key.
    spec fn key_length() -> nat;

    /// No two columns share a name, and some are the key.
    proof fn names_differ()
        ensures
            Self::names().no_duplicates(),
            0 < Self::key_length() <= Self::names().len(),
    ;
}

/// The key columns of a record.
pub open spec fn keys_of<T: Keyed>() -> Seq<Seq<char>> {
    T::names().take(T::key_length() as int)
}

/// The key of a record.
pub open spec fn key_of<T: Keyed>(record: T) -> Seq<ValueView> {
    record.values().take(T::key_length() as int)
}

/// A table after a record was written over the one with the same key, all but the key replaced.
pub open spec fn with_record<T: Keyed>(table: TableView, record: T) -> TableView {
    upserted(
        table,
        T::names(),
        keys_of::<T>(),
        T::names().skip(T::key_length() as int),
        record.values(),
    )
}

/// A record that was written is found under its key, whole, whatever the table held, and no other
/// row changes.
pub proof fn written_record_is_found<T: Keyed>(
    table: TableView,
    record: T,
    other: Seq<ValueView>,
)
    requires
        is_keyed(table, keys_of::<T>()),
    ensures
        found(with_record(table, record), key_of(record), T::names()) == Some(record.values()),
        other != key_of(record) ==> with_record(table, record).dom().contains(other)
            == table.dom().contains(other),
        other != key_of(record) && table.dom().contains(other) ==> with_record(
            table,
            record,
        )[other] == table[other],
        is_keyed(with_record(table, record), keys_of::<T>()),
{
    T::names_differ();
    record.reads_back();
    let columns = T::names();
    let values = record.values();
    let k = T::key_length() as int;
    let new = row_of(columns, values);
    let keys = keys_of::<T>();
    let replaced = columns.skip(k);
    let after = with_record(table, record);
    new_row_holds_its_values(columns, values);
    assert(picked(new, keys) == key_of(record)) by {
        assert forall|i: int| 0 <= i < k implies in_column(new, #[trigger] keys[i])
            == values[i] by {
            assert(picked(new, columns)[i] == values[i]);
        }
    }
    let key = key_of(record);
    if table.dom().contains(key) {
        let held = table[key];
        let both = merged(held, new, replaced);
        assert forall|i: int| 0 <= i < columns.len() implies in_column(both, #[trigger] columns[i])
            == values[i] by {
            if i < k {
                assert(!replaced.contains(columns[i])) by {
                    if replaced.contains(columns[i]) {
                        let j = choose|j: int|
                            0 <= j < replaced.len() && replaced[j] == columns[i];
                        assert(columns[j + k] == columns[i]);
                    }
                }
                assert(picked(held, keys)[i] == key[i]);
                assert(keys[i] == columns[i]);
            } else {
                assert(replaced[i - k] == columns[i]);
                assert(picked(new, columns)[i] == values[i]);
            }
        }
        assert(picked(both, columns) == values);
        assert(picked(both, keys) == key) by {
            assert forall|i: int| 0 <= i < k implies in_column(both, #[trigger] keys[i])
                == values[i] by {
                assert(keys[i] == columns[i]);
            }
        }
    }
    assert(found(after, key, columns) == Some(values));
}

/// Reading the row that is found under the key of a record that was written succeeds, with a
/// record that is written the same.
pub proof fn found_record_is_read_back<T: Keyed>(
    table: TableView,
    record: T,
    read: Result<T, RowErrorView>,
)
    requires
        is_keyed(table, keys_of::<T>()),
        found(with_record(table, record), key_of(record), T::names()) matches Some(held)
            && row::is_read::<T>(held, read),
    ensures
        read is Ok,
        read->Ok_0.values() == record.values(),
{
    written_record_is_found(table, record, key_of(record));
    row::written_record_is_read_back::<T>(record, read);
}

/// What an insertion that replaces columns leaves in a column of its row: what was to be inserted,
/// where there was no row or the column is replaced, and otherwise what the row held. No other row
/// changes.
pub proof fn upserted_row_holds(
    table: TableView,
    columns: Seq<Seq<char>>,
    keys: Seq<Seq<char>>,
    replaced: Seq<Seq<char>>,
    values: Seq<ValueView>,
    column: Seq<char>,
    other: Seq<ValueView>,
)
    ensures
        ({
            let new = row_of(columns, values);
            let key = picked(new, keys);
            let after = upserted(table, columns, keys, replaced, values);
            &&& after.dom().contains(key)
            &&& in_column(after[key], column) == (if table.dom().contains(key)
                && !replaced.contains(column) {
                in_column(table[key], column)
            } else {
                in_column(new, column)
            })
            &&& other != key ==> after.dom().contains(other) == table.dom().contains(other)
            &&& other != key && table.dom().contains(other) ==> after[other] == table[other]
        }),
{
}

/// A new row holds the values that it was made of.
pub proof fn new_row_holds_its_values(columns: Seq<Seq<char>>, values: Seq<ValueView>)
    requires
        columns.no_duplicates(),
        columns.len() == values.len(),
    ensures
        picked(row_of(columns, values), columns) == values,
{
    assert forall|i: int| 0 <= i < columns.len() implies in_column(
        row_of(columns, values),
        #[trigger] columns[i],
    ) == values[i] by {
        assert(columns.contains(columns[i]));
        let j = columns.index_of(columns[i]);
        assert(columns[j] == columns[i]);
    }
}

/// The rows of a query are just those that match, each once and as it is found under its key, and
/// none behind one that it is to come before.
pub proof fn listed_rows_are_those_found<T: Keyed>(
    rows: Seq<Seq<ValueView>>,
    table: TableView,
    matching: spec_fn(RowView) -> bool,
    first: spec_fn(RowView, RowView) -> bool,
    key: Seq<ValueView>,
)
    requires
        is_keyed(table, keys_of::<T>()),
        lists(rows, table, T::names(), matching, first),
    ensures
        forall|i: int|
            #![trigger rows[i]]
            0 <= i < rows.len() ==> found(
                table,
                rows[i].take(T::key_length() as int),
                T::names(),
            ) == Some(rows[i]) && matching(table[rows[i].take(T::key_length() as int)]),
        forall|i: int, j: int|
            #![trigger rows[i], rows[j]]
            0 <= i < j < rows.len() ==> {
                let a = rows[i].take(T::key_length() as int);
                let b = rows[j].take(T::key_length() as int);
                a != b && !first(table[b], table[a])
            },
        (exists|i: int|
            0 <= i < rows.len() && (#[trigger] rows[i]).take(T::key_length() as int) == key)
            <==> table.dom().contains(key) && matching(table[key]),
{
    T::names_differ();
    let names = T::names();
    let k = T::key_length() as int;
    let keys = choose|keys: Seq<Seq<ValueView>>| #[trigger]
        is_listing(keys, table, matching, first) && rows == rows_at(table, keys, names);
    assert forall|i: int| 0 <= i < rows.len() implies table.dom().contains(#[trigger] keys[i])
        && matching(table[keys[i]]) && rows[i].take(k) == keys[i] by {
        assert(keys.contains(keys[i]));
        assert(picked(table[keys[i]], keys_of::<T>()) == keys[i]);
        assert(rows[i].take(k) =~= picked(table[keys[i]], keys_of::<T>()));
    }
    assert forall|i: int|
        #![trigger rows[i]]
        0 <= i < rows.len() implies found(table, rows[i].take(k), names) == Some(rows[i])
        && matching(table[rows[i].take(k)]) by {
        assert(table.dom().contains(keys[i]));
    }
    assert forall|i: int, j: int|
        #![trigger rows[i], rows[j]]
        0 <= i < j < rows.len() implies {
        let a = rows[i].take(k);
        let b = rows[j].take(k);
        a != b && !first(table[b], table[a])
    } by {
        assert(keys[i] != keys[j]);
    }
    if table.dom().contains(key) && matching(table[key]) {
        assert(keys.contains(key));
        let i = choose|i: int| 0 <= i < keys.len() && keys[i] == key;
        assert(rows[i].take(k) == key);
    }
    if exists|i: int| 0 <= i < rows.len() && (#[trigger] rows[i]).take(k) == key {
        let i = choose|i: int| 0 <= i < rows.len() && (#[trigger] rows[i]).take(k) == key;
        assert(table.dom().contains(keys[i]));
    }
}

/// Setting a column of a row changes that column alone, and no other row.
pub proof fn column_alone_is_set<T: Keyed>(
    table: TableView,
    key: Seq<ValueView>,
    i: int,
    value: ValueView,
    other: Seq<ValueView>,
)
    requires
        is_keyed(table, keys_of::<T>()),
        T::key_length() <= i < T::names().len(),
    ensures
        ({
            let after = updated(table, key, T::names()[i], value);
            &&& found(after, key, T::names()) == (match found(table, key, T::names()) {
                Some(held) => Some(held.update(i, value)),
                None => None,
            })
            &&& other != key ==> found(after, other, T::names()) == found(table, other, T::names())
            &&& after.dom() == table.dom()
            &&& is_keyed(after, keys_of::<T>())
        }),
{
    T::names_differ();
    let names = T::names();
    let keys = keys_of::<T>();
    let after = updated(table, key, names[i], value);
    if table.dom().contains(key) {
        let held = picked(table[key], names);
        assert forall|j: int| 0 <= j < names.len() implies in_column(
            after[key],
            #[trigger] names[j],
        ) == held.update(i, value)[j] by {
            if j != i {
                assert(names[j] != names[i]);
                assert(picked(table[key], names)[j] == held[j]);
            }
        }
        assert(picked(after[key], names) =~= held.update(i, value));
        assert(picked(after[key], keys) =~= picked(table[key], keys)) by {
            assert forall|j: int| 0 <= j < keys.len() implies in_column(
                after[key],
                #[trigger] keys[j],
            ) == in_column(table[key], keys[j]) by {
                assert(names[j] != names[i]);
            }
        }
    }
    assert(after.dom() =~= table.dom());
}

/// Two pages of the same size, one behind the other, are the page of twice the size.
pub proof fn pages_follow_each_other(rows: Seq<Seq<ValueView>>, limit: nat, offset: nat)
    ensures
        page(rows, limit, offset) + page(rows, limit, offset + limit) == page(
            rows,
            limit + limit,
            offset,
        ),
{
}

/// Each row is on one page, in its place there, and on no other.
pub proof fn each_row_is_on_one_page(rows: Seq<Seq<ValueView>>, limit: nat, i: int, n: nat)
    requires
        0 < limit,
        0 <= i < rows.len(),
    ensures
        ({
            let at = i - (n * limit) as int;
            0 <= at < page(rows, limit, (n * limit) as nat).len() <==> n == i / limit as int
        }),
        n == i / limit as int ==> page(rows, limit, (n * limit) as nat)[i - n * limit] == rows[i],
{
    let size = limit as int;
    let first = n * size;
    assert(i == (i / size) * size + i % size && 0 <= i % size < size) by (nonlinear_arith)
        requires
            size > 0,
    ;
    if n == i / size {
        assert(first <= i < first + size);
    } else if n < i / size {
        assert(first + size <= (i / size) * size) by (nonlinear_arith)
            requires
                n + 1 <= i / size,
                size > 0,
                first == n * size,
        ;
    } else {
        assert(first >= (i / size) * size + size) by (nonlinear_arith)
            requires
                n >= i / size + 1,
                size > 0,
                first == n * size,
        ;
    }
}

} // verus!
