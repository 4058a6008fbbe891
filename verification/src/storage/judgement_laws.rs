//! What the rows on quality, quarantine and judgements are read as.

use crate::error::ErrorView;
use crate::json;
use crate::json::JsonView;
use crate::storage::quality;
use crate::storage::quality::QualityRow;
use crate::storage::row;
use crate::storage::row::{FromRow, Kind, RowErrorView};
use crate::storage::security;
use crate::storage::security::{CommandSafetyRawRow, QuarantineRow};
use crate::storage::statement::{Real, ValueView};
use vstd::prelude::*;

verus! {

/// The quality of a session has what its row holds, column by column, and the two lists that their
/// columns spell. Where one spells no list, the failure is told, that of the signals first.
pub proof fn quality_has_what_its_row_holds(held: Seq<ValueView>)
    requires
        row::fits(held, QualityRow::columns()),
    ensures
        match (json::texts_read(held[3]->Text_0), json::texts_read(held[4]->Text_0)) {
            (Err(problem), _) => quality::quality_of_row(held) matches Err(error) && error
                == ErrorView::Config("decode signals: "@ + problem),
            (Ok(_), Err(problem)) => quality::quality_of_row(held) matches Err(error) && error
                == ErrorView::Config("decode missing: "@ + problem),
            (Ok(signals), Ok(missing)) => {
                &&& quality::quality_of_row(held) matches Ok(record)
                &&& held[0] == ValueView::Text(record.session_id)
                &&& held[1] == ValueView::Text(record.content_hash)
                &&& match record.score {
                    Real::Float(bits) => held[2] == ValueView::Real(bits),
                    Real::Integer(n) => held[2] == ValueView::Integer(n),
                }
                &&& record.signals == signals
                &&& record.missing == missing
                &&& held[5] == ValueView::Text(record.computed_at)
            },
        },
{
    let kinds = QualityRow::columns();
    assert(row::column_problem(held, 0, kinds[0]) is None);
    assert(row::column_problem(held, 1, kinds[1]) is None);
    assert(row::column_problem(held, 2, kinds[2]) is None);
    assert(row::column_problem(held, 3, kinds[3]) is None);
    assert(row::column_problem(held, 4, kinds[4]) is None);
    assert(row::column_problem(held, 5, kinds[5]) is None);
}

/// The classification of something in quarantine is what the sixth column spells. A column that is
/// missing or holds no text is told as such, and a text that spells nothing by what is wrong with it.
pub proof fn classification_is_what_its_column_spells(held: Seq<ValueView>)
    ensures
        ({
            let said = security::classification_said(
                held,
                json::parsed_text(row::text_in(held[5])),
            );
            if held.len() <= 5 {
                said == Err::<JsonView, RowErrorView>(RowErrorView::NoSuchColumn(5))
            } else if held[5] is Text {
                match json::parsed_text(held[5]->Text_0) {
                    Ok(value) => said == Ok::<JsonView, RowErrorView>(value),
                    Err(problem) => said == Err::<JsonView, RowErrorView>(
                        RowErrorView::TypeMismatch {
                            expected: "AcipClassification JSON (string)"@,
                            actual: "invalid JSON: "@ + problem,
                        },
                    ),
                }
            } else {
                said is Err && Some(said->Err_0) == row::value_problem(held[5], Kind::Text)
            }
        }),
{
}

/// Something in quarantine has what its row holds, column by column, where its classification is
/// understood and the columns can be read.
pub proof fn quarantine_has_what_its_row_holds(held: Seq<ValueView>)
    requires
        row::fits(held, QuarantineRow::columns()),
    ensures
        security::quarantine_said(held, Ok(())) matches Ok(record) && {
            &&& held[0] == ValueView::Text(record.quarantine_id)
            &&& held[1] == ValueView::Text(record.session_id)
            &&& held[2] is Integer
            &&& 0 <= held[2]->Integer_0 <= usize::MAX ==> record.message_index
                == held[2]->Integer_0
            &&& held[3] == ValueView::Text(record.content_hash)
            &&& held[4] == ValueView::Text(record.safe_excerpt)
            &&& held[5] == ValueView::Text(record.acip_classification)
            &&& match record.audit_tag {
                Some(tag) => held[6] == ValueView::Text(tag),
                None => held[6] == ValueView::Null,
            }
            &&& held[7] == ValueView::Text(record.created_at)
            &&& held[8] == ValueView::Text(record.replay_command)
        },
{
    let kinds = QuarantineRow::columns();
    row::fitting_has_no_problem(held, kinds, kinds.len());
    assert(row::column_problem(held, 0, kinds[0]) is None);
    assert(row::column_problem(held, 1, kinds[1]) is None);
    assert(row::column_problem(held, 2, kinds[2]) is None);
    assert(row::column_problem(held, 3, kinds[3]) is None);
    assert(row::column_problem(held, 4, kinds[4]) is None);
    assert(row::column_problem(held, 5, kinds[5]) is None);
    assert(row::column_problem(held, 6, kinds[6]) is None);
    assert(row::column_problem(held, 7, kinds[7]) is None);
    assert(row::column_problem(held, 8, kinds[8]) is None);
}

/// A classification that is not understood is told before anything else of the row, and otherwise the
/// first column that cannot be read.
pub proof fn quarantine_that_is_not_understood_is_told(held: Seq<ValueView>, problem: Seq<char>)
    ensures
        security::quarantine_said(held, Err(problem)) matches Err(error) && error
            == (RowErrorView::TypeMismatch {
            expected: "AcipClassification (typed)"@,
            actual: "decode error: "@ + problem,
        }),
        !row::fits(held, QuarantineRow::columns()) ==> (security::quarantine_said(held, Ok(()))
            matches Err(error) && row::row_problem(
            held,
            QuarantineRow::columns(),
            QuarantineRow::columns().len(),
        ) == Some(error)),
{
    let kinds = QuarantineRow::columns();
    if !row::fits(held, kinds) {
        let bad = choose|k: int|
            0 <= k < kinds.len() && !((#[trigger] row::column_problem(held, k, kinds[k])) is None);
        a_bad_column_is_a_problem(held, kinds, bad, kinds.len());
    }
}

proof fn a_bad_column_is_a_problem(held: Seq<ValueView>, kinds: Seq<Kind>, bad: int, n: nat)
    requires
        0 <= bad < n <= kinds.len(),
        row::column_problem(held, bad, kinds[bad]) is Some,
    ensures
        row::row_problem(held, kinds, n) is Some,
    decreases n,
{
    if bad < n - 1 {
        a_bad_column_is_a_problem(held, kinds, bad, (n - 1) as nat);
    }
}

/// What something in quarantine is written as has each of its fields in its column.
pub proof fn quarantine_is_written_column_by_column(record: security::QuarantineView)
    ensures
        ({
            let written = security::quarantine_values(record);
            &&& written.len() == 9
            &&& written[0] == ValueView::Text(record.quarantine_id)
            &&& written[1] == ValueView::Text(record.session_id)
            &&& written[2] == ValueView::Integer(record.message_index as i64)
            &&& written[3] == ValueView::Text(record.content_hash)
            &&& written[4] == ValueView::Text(record.safe_excerpt)
            &&& written[5] == ValueView::Text(record.acip_classification)
            &&& match record.audit_tag {
                Some(tag) => written[6] == ValueView::Text(tag),
                None => written[6] == ValueView::Null,
            }
            &&& written[7] == ValueView::Text(record.created_at)
            &&& written[8] == ValueView::Text(record.replay_command)
        }),
{
}

/// A judgement has what its row holds, column by column, where its decision is understood. One that
/// is not is told.
pub proof fn judgement_has_what_its_row_holds(held: Seq<ValueView>, problem: Seq<char>)
    requires
        row::fits(held, CommandSafetyRawRow::columns()),
    ensures
        security::safety_said(held, Ok(())) matches Ok(event) && {
            &&& match event.session_id {
                Some(t) => held[0] == ValueView::Text(t),
                None => held[0] == ValueView::Null,
            }
            &&& held[1] == ValueView::Text(event.command)
            &&& match event.dcg_version {
                Some(t) => held[2] == ValueView::Text(t),
                None => held[2] == ValueView::Null,
            }
            &&& match event.dcg_pack {
                Some(t) => held[3] == ValueView::Text(t),
                None => held[3] == ValueView::Null,
            }
            &&& held[4] == ValueView::Text(event.decision)
            &&& held[5] == ValueView::Text(event.created_at)
        },
        security::safety_said(held, Err(problem)) matches Err(error) && error
            == ErrorView::Serialization("decode decision: "@ + problem),
{
    let kinds = CommandSafetyRawRow::columns();
    assert(row::column_problem(held, 0, kinds[0]) is None);
    assert(row::column_problem(held, 1, kinds[1]) is None);
    assert(row::column_problem(held, 2, kinds[2]) is None);
    assert(row::column_problem(held, 3, kinds[3]) is None);
    assert(row::column_problem(held, 4, kinds[4]) is None);
    assert(row::column_problem(held, 5, kinds[5]) is None);
}

/// The first judgement whose decision is not understood fails the list, whatever stands behind it.
pub proof fn first_decision_not_understood_is_told(
    rows: Seq<Seq<ValueView>>,
    understood: Seq<Result<(), Seq<char>>>,
    i: int,
)
    requires
        rows.len() == understood.len(),
        0 <= i < rows.len(),
        forall|k: int| 0 <= k < i ==> (#[trigger] understood[k]) is Ok,
        understood[i] is Err,
    ensures
        security::safeties_said(rows, understood, rows.len()) matches Err(error) && error
            == ErrorView::Serialization("decode decision: "@ + understood[i]->Err_0),
{
    security::understood_judgements_are_all_read(rows, understood, i as nat);
    failure_stays(rows, understood, (i + 1) as nat, rows.len());
}

proof fn failure_stays(
    rows: Seq<Seq<ValueView>>,
    understood: Seq<Result<(), Seq<char>>>,
    n: nat,
    m: nat,
)
    requires
        n <= m,
        security::safeties_said(rows, understood, n) is Err,
    ensures
        security::safeties_said(rows, understood, m) == security::safeties_said(
            rows,
            understood,
            n,
        ),
    decreases m,
{
    if n < m {
        failure_stays(rows, understood, n, (m - 1) as nat);
    }
}

/// What a judgement is written as has each of its fields in its column.
pub proof fn judgement_is_written_column_by_column(event: security::SafetyView)
    ensures
        ({
            let written = security::safety_values(event);
            &&& written.len() == 6
            &&& match event.session_id {
                Some(t) => written[0] == ValueView::Text(t),
                None => written[0] == ValueView::Null,
            }
            &&& written[1] == ValueView::Text(event.command)
            &&& match event.dcg_version {
                Some(t) => written[2] == ValueView::Text(t),
                None => written[2] == ValueView::Null,
            }
            &&& match event.dcg_pack {
                Some(t) => written[3] == ValueView::Text(t),
                None => written[3] == ValueView::Null,
            }
            &&& written[4] == ValueView::Text(event.decision)
            &&& written[5] == ValueView::Text(event.created_at)
        }),
{
}

} // verus!
