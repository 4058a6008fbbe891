//! What values are bound and read as, and which problem of a row is told.

use crate::error::ErrorView;
use crate::storage::record::SkillRecord;
use crate::storage::row;
use crate::storage::row::{Kind, RowErrorView, ToRow};
use crate::storage::statement;
use crate::storage::statement::{Real, ValueView};
use crate::text;
use vstd::prelude::*;

verus! {

/// A column is read by the type of its value: a text as a text, and `NULL` too where the text is
/// optional; the like for integers, of which a small one has 32 bits; a number of either type as a
/// number; and bytes as bytes.
pub proof fn value_is_read_by_its_type(value: ValueView)
    ensures
        row::value_problem(value, Kind::Text) is None <==> value is Text,
        row::value_problem(value, Kind::OptText) is None <==> value is Text || value is Null,
        row::value_problem(value, Kind::Integer) is None <==> value is Integer,
        row::value_problem(value, Kind::OptInteger) is None <==> value is Integer || value is Null,
        row::value_problem(value, Kind::SmallInteger) is None <==> value is Integer && -2147483648
            <= value->Integer_0 <= 2147483647,
        row::value_problem(value, Kind::Real) is None <==> value is Real || value is Integer,
        row::value_problem(value, Kind::Blob) is None <==> value is Blob,
{
}

/// What is read of a value is what the value is.
pub proof fn value_is_read_as_it_is(words: Seq<char>, number: i64, bits: u64, bytes: Seq<u8>)
    ensures
        row::text_in(ValueView::Text(words)) == words,
        row::opt_text_in(ValueView::Text(words)) == Some(words),
        row::opt_text_in(ValueView::Null) is None,
        row::integer_in(ValueView::Integer(number)) == number,
        row::opt_integer_in(ValueView::Integer(number)) == Some(number),
        row::opt_integer_in(ValueView::Null) is None,
        row::real_in(ValueView::Real(bits)) == Real::Float(bits),
        row::real_in(ValueView::Integer(number)) == Real::Integer(number),
        row::blob_in(ValueView::Blob(bytes)) == bytes,
{
}

/// What is bound is read as what it was. A truth value is bound as one or zero, and a size as its
/// number, where it is one of 63 bits.
pub proof fn bound_value_is_read_back(
    words: Option<Seq<char>>,
    number: Option<i64>,
    measure: Real,
    flag: bool,
    size: usize,
)
    ensures
        row::value_problem(statement::opt_text_value(words), Kind::OptText) is None,
        row::opt_text_in(statement::opt_text_value(words)) == words,
        row::value_problem(statement::opt_integer_value(number), Kind::OptInteger) is None,
        row::opt_integer_in(statement::opt_integer_value(number)) == number,
        row::value_problem(statement::real_value(measure), Kind::Real) is None,
        row::real_in(statement::real_value(measure)) == measure,
        statement::flag_value(flag) == ValueView::Integer(
            if flag {
                1
            } else {
                0
            },
        ),
        size <= 0x7fff_ffff_ffff_ffff ==> statement::size_value(size) == ValueView::Integer(
            size as i64,
        ) && (size as i64) == size,
{
}

/// A skill is written with one where it is deprecated, and with zero where it is not.
pub proof fn deprecated_skill_is_written_as_one(record: SkillRecord)
    ensures
        record.values()[17] == ValueView::Integer(
            if record.is_deprecated {
                1
            } else {
                0
            },
        ),
{
}

/// Where a value is of another type than was asked for, both types are told, and where an integer
/// has too many bits, its digits are.
pub proof fn mismatch_is_worded(value: ValueView, kind: Kind)
    requires
        row::value_problem(value, kind) is Some,
    ensures
        ({
            let asked = match kind {
                Kind::Text => "text"@,
                Kind::OptText => "text"@,
                Kind::Integer => "integer"@,
                Kind::OptInteger => "integer"@,
                Kind::SmallInteger => "integer"@,
                Kind::Real => "real"@,
                Kind::Blob => "blob"@,
            };
            let had = match value {
                ValueView::Null => "null"@,
                ValueView::Integer(_) => "integer"@,
                ValueView::Real(_) => "real"@,
                ValueView::Text(_) => "text"@,
                ValueView::Blob(_) => "blob"@,
            };
            let words = row::value_problem(value, kind)->Some_0.words();
            if kind == Kind::SmallInteger && value is Integer {
                words == "type mismatch: expected i32, got integer("@ + text::signed_decimal(
                    value->Integer_0 as int,
                ) + ")"@
            } else {
                words == "type mismatch: expected "@ + asked + ", got "@ + had
            }
        }),
{
    if kind == Kind::SmallInteger && value is Integer {
        reveal_strlit("type mismatch: expected ");
        reveal_strlit("i32");
        reveal_strlit(", got ");
        reveal_strlit("integer(");
        reveal_strlit("type mismatch: expected i32, got integer(");
        let digits = text::signed_decimal(value->Integer_0 as int);
        assert("type mismatch: expected "@ + "i32"@ + ", got "@ + ("integer("@ + digits + ")"@)
            == "type mismatch: expected i32, got integer("@ + digits + ")"@);
    }
}

/// Of the columns of a row, the first that cannot be read is told: by its number, where the row is
/// too short, and otherwise by what is wrong with its value. So a row is read just where none is
/// told.
pub proof fn first_bad_column_is_told(held: Seq<ValueView>, kinds: Seq<Kind>, i: int)
    requires
        0 <= i < kinds.len(),
        i <= held.len(),
        forall|k: int|
            0 <= k < i ==> (#[trigger] row::value_problem(held[k], kinds[k])) is None,
        i < held.len() ==> row::value_problem(held[i], kinds[i]) is Some,
    ensures
        !row::fits(held, kinds),
        i == held.len() ==> row::row_error(row::row_problem(held, kinds, kinds.len()))
            == ErrorView::Database("no such column: column index "@ + text::decimal(i as nat)),
        i < held.len() ==> row::row_error(row::row_problem(held, kinds, kinds.len()))
            == ErrorView::Database(row::value_problem(held[i], kinds[i])->Some_0.words()),
{
    assert(row::column_problem(held, i, kinds[i]) is Some);
    no_problem_before(held, kinds, i as nat);
    problem_stays(held, kinds, (i + 1) as nat, kinds.len());
}

proof fn no_problem_before(held: Seq<ValueView>, kinds: Seq<Kind>, n: nat)
    requires
        n <= held.len(),
        n <= kinds.len(),
        forall|k: int|
            0 <= k < n ==> (#[trigger] row::value_problem(held[k], kinds[k])) is None,
    ensures
        row::row_problem(held, kinds, n) is None,
    decreases n,
{
    if n > 0 {
        no_problem_before(held, kinds, (n - 1) as nat);
        assert(row::value_problem(held[n - 1], kinds[n - 1]) is None);
    }
}

proof fn problem_stays(held: Seq<ValueView>, kinds: Seq<Kind>, n: nat, m: nat)
    requires
        n <= m,
        row::row_problem(held, kinds, n) is Some,
    ensures
        row::row_problem(held, kinds, m) == row::row_problem(held, kinds, n),
    decreases m,
{
    if n < m {
        problem_stays(held, kinds, n, (m - 1) as nat);
    }
}

/// A row with a value for each column, each of which can be read, is read; one value too many does
/// not matter.
pub proof fn good_row_is_read(held: Seq<ValueView>, kinds: Seq<Kind>)
    ensures
        row::fits(held, kinds) <==> kinds.len() <= held.len() && forall|k: int|
            0 <= k < kinds.len() ==> (#[trigger] row::value_problem(held[k], kinds[k])) is None,
{
    if row::fits(held, kinds) {
        if held.len() < kinds.len() {
            assert(row::column_problem(held, held.len() as int, kinds[held.len() as int])
                is None);
        }
        assert forall|k: int| 0 <= k < kinds.len() implies (#[trigger] row::value_problem(
            held[k],
            kinds[k],
        )) is None by {
            assert(row::column_problem(held, k, kinds[k]) is None);
        }
    }
}

/// Of the rows of a query, the first that cannot be read is the one whose problem is told.
pub proof fn first_bad_row_is_told(rows: Seq<Seq<ValueView>>, kinds: Seq<Kind>, i: int)
    requires
        0 <= i < rows.len(),
        forall|k: int| 0 <= k < i ==> row::fits(#[trigger] rows[k], kinds),
        !row::fits(rows[i], kinds),
    ensures
        !row::all_fit(rows, kinds),
        row::rows_problem(rows, kinds, rows.len()) is Some,
        row::rows_problem(rows, kinds, rows.len()) == row::row_problem(
            rows[i],
            kinds,
            kinds.len(),
        ),
{
    good_rows_have_no_problem(rows, kinds, i as nat);
    let bad = choose|k: int|
        0 <= k < kinds.len() && !((#[trigger] row::column_problem(rows[i], k, kinds[k])) is None);
    some_problem(rows[i], kinds, bad, kinds.len());
    first_stays(rows, kinds, (i + 1) as nat, rows.len());
}

proof fn some_problem(held: Seq<ValueView>, kinds: Seq<Kind>, bad: int, n: nat)
    requires
        0 <= bad < n <= kinds.len(),
        row::column_problem(held, bad, kinds[bad]) is Some,
    ensures
        row::row_problem(held, kinds, n) is Some,
    decreases n,
{
    if bad < n - 1 {
        some_problem(held, kinds, bad, (n - 1) as nat);
    }
}

proof fn good_rows_have_no_problem(rows: Seq<Seq<ValueView>>, kinds: Seq<Kind>, n: nat)
    requires
        n <= rows.len(),
        forall|k: int| 0 <= k < n ==> row::fits(#[trigger] rows[k], kinds),
    ensures
        row::rows_problem(rows, kinds, n) is None,
    decreases n,
{
    if n > 0 {
        good_rows_have_no_problem(rows, kinds, (n - 1) as nat);
        assert(row::fits(rows[n - 1], kinds));
        row::fitting_has_no_problem(rows[n - 1], kinds, kinds.len());
    }
}

proof fn first_stays(rows: Seq<Seq<ValueView>>, kinds: Seq<Kind>, n: nat, m: nat)
    requires
        n <= m,
        row::rows_problem(rows, kinds, n) is Some,
    ensures
        row::rows_problem(rows, kinds, m) == row::rows_problem(rows, kinds, n),
    decreases m,
{
    if n < m {
        first_stays(rows, kinds, n, (m - 1) as nat);
    }
}

} // verus!
