//! What is read of the rows of a query, told of the rows and of what is answered.

use crate::error::{ErrorView, MsError};
use crate::places;
use crate::storage::embedding::{all_embeddings, embedding_found, EmbeddingBlobRow, EmbeddingRecord};
use crate::storage::evidence;
use crate::storage::evidence::{
    evidence_index, evidence_records, EvidenceRecord, EvidenceRef, EvidenceRow, SkillEvidenceIndex,
};
use crate::storage::evidence_laws;
use crate::storage::judgement_laws;
use crate::storage::quality::{session_quality_found, QualityRow, SessionQualityRecord};
use crate::storage::record::{SearchRow, SkillSearchCandidate};
use crate::storage::row;
use crate::storage::row::{read_found, read_one, read_rows, FromRow, Row, ToRow};
use crate::storage::search;
use crate::storage::search::search_results;
use crate::storage::security;
use crate::storage::security::{command_safety_events, CommandSafetyEvent, CommandSafetyRawRow};
use crate::storage::statement;
use crate::storage::statement::{Real, ValueView};
use crate::storage::tx::{incomplete_transactions, TxRecord, TxRow};
use crate::storage::usage::{usage_stats, UsageCountRow, UsageStats};
use crate::storage::usage_laws;
use vstd::prelude::*;

verus! {

/// The rows of a query are read one by one, as many as there are, or not at all: each is then read,
/// and the error is one of the database.
pub proof fn rows_are_read_one_by_one<T: FromRow>(
    rows: Vec<Row>,
    answer: Result<Vec<T>, MsError>,
    i: int,
)
    requires
        call_ensures(read_rows::<T>, (&rows,), answer),
        0 <= i < rows@.len(),
    ensures
        answer matches Ok(list) ==> list@.len() == rows@.len() && list@[i].holds(
            statement::values(rows@[i]@),
        ) && row::fits(statement::values(rows@[i]@), T::columns()),
        !row::fits(statement::values(rows@[i]@), T::columns()) ==> answer is Err,
        answer matches Err(e) ==> e@ is Database,
{
    let held = row::row_values(rows@);
    assert(held[i] == statement::values(rows@[i]@));
    if row::all_fit(held, T::columns()) {
        assert(answer->Ok_0@[i].holds(held[i]));
        assert(row::fits(held[i], T::columns()));
    }
}

/// A query that found no row gives none, and one that found one gives what it holds.
pub proof fn found_row_is_read<T: FromRow>(
    found: Row,
    none: Result<Option<T>, MsError>,
    some: Result<Option<T>, MsError>,
    one: Result<T, MsError>,
)
    requires
        call_ensures(read_found::<T>, (&None,), none),
        call_ensures(read_found::<T>, (&Some(found),), some),
        call_ensures(read_one::<T>, (&found,), one),
    ensures
        none matches Ok(None),
        row::fits(statement::values(found@), T::columns()) ==> (some matches Ok(Some(value))
            && value.holds(statement::values(found@))) && (one matches Ok(value) && value.holds(
            statement::values(found@),
        )),
        !row::fits(statement::values(found@), T::columns()) ==> (some matches Err(e) && e@
            is Database) && (one matches Err(e) && e@ is Database),
{
}

/// Each row of the log that is read is one transaction, in its place, with what its columns hold; and
/// a row that names no phase fails the whole.
pub proof fn transactions_are_those_of_the_rows(
    rows: Vec<Row>,
    answer: Result<Vec<TxRecord>, MsError>,
    i: int,
)
    requires
        call_ensures(incomplete_transactions, (&rows,), answer),
        0 <= i < rows@.len(),
    ensures
        answer matches Ok(list) ==> {
            &&& list@.len() == rows@.len()
            &&& statement::values(rows@[i]@)[0] == ValueView::Text(list@[i].id@)
            &&& statement::values(rows@[i]@)[1] == ValueView::Text(list@[i].entity_type@)
            &&& statement::values(rows@[i]@)[2] == ValueView::Text(list@[i].entity_id@)
            &&& statement::values(rows@[i]@)[4] == ValueView::Text(list@[i].payload_json@)
        },
        !row::fits(statement::values(rows@[i]@), TxRow::columns()) ==> answer is Err,
{
    let held = row::row_values(rows@);
    assert(held[i] == statement::values(rows@[i]@));
    if row::all_fit(held, TxRow::columns()) {
        assert(row::fits(held[i], TxRow::columns()));
    }
    if let Ok(list) = answer {
        assert(list@[i].created_at.valid());
        assert(held.len() == rows@.len());
        assert(statement::values(rows@[i]@)[0] == ValueView::Text(list@[i].id@));
    }
}

/// Each row of embeddings that is read is one pair, in its place, with the skill of that row.
pub proof fn embeddings_are_those_of_the_rows(
    rows: Vec<Row>,
    answer: Result<Vec<(String, Vec<u16>)>, MsError>,
    i: int,
)
    requires
        call_ensures(all_embeddings, (&rows,), answer),
        0 <= i < rows@.len(),
    ensures
        answer matches Ok(list) ==> list@.len() == rows@.len() && statement::values(rows@[i]@)[0]
            == ValueView::Text(list@[i].0@),
        !row::fits(statement::values(rows@[i]@), EmbeddingBlobRow::columns()) ==> answer is Err,
{
    let held = row::row_values(rows@);
    assert(held[i] == statement::values(rows@[i]@));
    if row::all_fit(held, EmbeddingBlobRow::columns()) {
        assert(row::fits(held[i], EmbeddingBlobRow::columns()));
    }
    if let Ok(list) = answer {
        let pair = list@[i];
        assert(statement::values(rows@[i]@)[0] == ValueView::Text(pair.0@));
    }
}

/// The quality and the embedding of what was not found are none, and no error.
pub proof fn nothing_found_is_none(
    quality: Result<Option<SessionQualityRecord>, MsError>,
    embedding: Result<Option<EmbeddingRecord>, MsError>,
)
    requires
        call_ensures(session_quality_found, (&None,), quality),
        call_ensures(embedding_found, (&None,), embedding),
    ensures
        quality matches Ok(None),
        embedding matches Ok(None),
{
}

/// The quality of a session that is found has what its row holds.
pub proof fn found_quality_has_what_its_row_holds(
    found: Row,
    answer: Result<Option<SessionQualityRecord>, MsError>,
)
    requires
        call_ensures(session_quality_found, (&Some(found),), answer),
    ensures
        !(answer matches Ok(None)),
        answer matches Ok(Some(record)) ==> {
            let held = statement::values(found@);
            &&& held[0] == ValueView::Text(record.session_id@)
            &&& held[1] == ValueView::Text(record.content_hash@)
            &&& match record.score {
                Real::Float(bits) => held[2] == ValueView::Real(bits),
                Real::Integer(n) => held[2] == ValueView::Integer(n),
            }
            &&& held[5] == ValueView::Text(record.computed_at@)
        },
        !row::fits(statement::values(found@), QualityRow::columns()) ==> answer is Err,
{
    let held = statement::values(found@);
    if row::fits(held, QualityRow::columns()) {
        judgement_laws::quality_has_what_its_row_holds(held);
    }
}

/// The evidence for a skill is owed just where that of each row could be read. Each of its rules has
/// what its last row was read as, as many rules are counted as have places, and the count of all rules
/// is the same.
pub proof fn index_is_that_of_the_rows(
    found: Vec<(String, Result<Vec<EvidenceRef>, String>)>,
    answer: Result<SkillEvidenceIndex, MsError>,
    i: int,
) -> (with: Seq<int>)
    requires
        call_ensures(evidence_index, (found,), answer),
    ensures
        answer is Ok <==> forall|k: int| 0 <= k < found@.len() ==> (#[trigger] found@[k]).1 is Ok,
        answer matches Ok(index) && 0 <= i < found@.len() && (forall|j: int|
            i < j < found@.len() ==> (#[trigger] found@[j]).0@ != found@[i].0@) ==> {
            &&& answer->Ok_0.rules@.dom().contains(found@[i].0@)
            &&& answer->Ok_0.rules@[found@[i].0@] == found@[i].1->Ok_0
        },
        answer matches Ok(index) ==> {
            &&& places::are_places(
                with,
                index.rules.pairs().len() as int,
                |k: int| index.rules.pairs()[k].1@.len() > 0,
            )
            &&& index.coverage.rules_with_evidence == with.len()
            &&& index.coverage.total_rules == with.len()
        },
        answer matches Err(e) ==> e@ is Config,
{
    first_failure(found@, found@.len());
    match answer {
        Ok(index) => {
            if 0 <= i < found@.len() && (forall|j: int|
                i < j < found@.len() ==> (#[trigger] found@[j]).0@ != found@[i].0@) {
                assert(found@[i].1 is Ok);
                evidence::evidence_is_kept(found@, i);
            }
            evidence_laws::coverage_counts_the_rules_with_places(index.rules.pairs())
        },
        Err(_) => Seq::empty(),
    }
}

proof fn first_failure(found: Seq<(String, Result<Vec<EvidenceRef>, String>)>, n: nat)
    requires
        n <= found.len(),
    ensures
        evidence::evidence_problem(found, n) is None <==> forall|k: int|
            0 <= k < n ==> (#[trigger] found[k]).1 is Ok,
        evidence::evidence_problem(found, n) matches Some(e) ==> e is Config,
    decreases n,
{
    if n > 0 {
        first_failure(found, (n - 1) as nat);
        if evidence::evidence_problem(found, n) is None {
            assert(found[n - 1].1 is Ok);
        }
        if forall|k: int| 0 <= k < n ==> (#[trigger] found[k]).1 is Ok {
            assert(found[n - 1].1 is Ok);
        }
    }
}

/// The records of all evidence are those of the rows, one for each and in order.
pub proof fn records_are_those_of_the_rows(
    found: Vec<(EvidenceRow, Result<Vec<EvidenceRef>, String>)>,
    answer: Result<Vec<EvidenceRecord>, MsError>,
    i: int,
)
    requires
        call_ensures(evidence_records, (found,), answer),
        0 <= i < found@.len(),
    ensures
        answer matches Ok(list) ==> {
            &&& list@.len() == found@.len()
            &&& list@[i].skill_id@ == found@[i].0.skill_id@
            &&& list@[i].rule_id@ == found@[i].0.rule_id@
            &&& list@[i].updated_at@ == found@[i].0.updated_at@
            &&& found@[i].1 matches Ok(places) && list@[i].evidence == places
        },
        found@[i].1 is Err ==> answer is Err,
{
    if let Ok(list) = answer {
        assert(evidence::is_record_of(list@[i], found@[i]));
    }
}

/// How often skills were loaded is what the rows say: the first for all of them, the others each for
/// its skill. A row that is not read fails the whole.
pub proof fn loads_are_what_the_rows_say(
    total: Row,
    counts: Vec<Row>,
    last: Vec<Row>,
    answer: Result<UsageStats, MsError>,
    i: int,
    skill: Seq<char>,
)
    requires
        call_ensures(usage_stats, (&total, &counts, &last), answer),
    ensures
        answer matches Ok(stats) ==> {
            &&& total@.len() > 0 && total@[0]@ is Integer
            &&& stats.total_loads == (if total@[0]@->Integer_0 > 0 {
                total@[0]@->Integer_0 as int
            } else {
                0
            })
        },
        answer is Ok && 0 <= i < counts@.len() && statement::values(counts@[i]@)[0]
            == ValueView::Text(skill) && (forall|j: int|
            i < j < counts@.len() ==> statement::values((#[trigger] counts@[j])@)[0]
                != ValueView::Text(skill)) ==> {
            let said = statement::values(counts@[i]@)[1];
            &&& said is Integer
            &&& answer->Ok_0.skill_load_counts@.dom().contains(skill)
            &&& answer->Ok_0.skill_load_counts@[skill] == (if said->Integer_0 >= 0 {
                said->Integer_0 as int
            } else {
                0
            })
        },
        total@.len() == 0 || !(total@[0]@ is Integer) ==> answer is Err,
{
    let held = statement::values(total@);
    let kinds = i64::columns();
    assert(row::column_problem(held, 0, kinds[0]) is None <==> held.len() > 0 && held[0]
        is Integer);
    assert(row::fits(held, kinds) <==> held.len() > 0 && held[0] is Integer);
    let rows = row::row_values(counts@);
    if answer is Ok && 0 <= i < counts@.len() && statement::values(counts@[i]@)[0]
        == ValueView::Text(skill) && (forall|j: int|
        i < j < counts@.len() ==> statement::values((#[trigger] counts@[j])@)[0]
            != ValueView::Text(skill)) {
        assert forall|j: int| 0 <= j < rows.len() implies (#[trigger] rows[j])[0] is Text
            && rows[j][1] is Integer by {
            assert(row::fits(rows[j], UsageCountRow::columns()));
            assert(row::column_problem(rows[j], 0, UsageCountRow::columns()[0]) is None);
            assert(row::column_problem(rows[j], 1, UsageCountRow::columns()[1]) is None);
        }
        assert forall|j: int| i < j < rows.len() implies (#[trigger] rows[j])[0]
            != ValueView::Text(skill) by {
            assert(statement::values(counts@[j]@)[0] != ValueView::Text(skill));
        }
        assert(rows[i] == statement::values(counts@[i]@));
        usage_laws::skill_has_the_count_of_its_last_row(rows, i, skill);
    }
}

/// What a search finds are the skills of the rows that it chooses, as many, in order, and each with
/// what its row holds. A row that is not read fails the search.
pub proof fn search_finds_the_chosen_rows(
    rows: Vec<Row>,
    query: &str,
    limit: usize,
    answer: Result<Vec<SkillSearchCandidate>, MsError>,
    k: int,
)
    requires
        call_ensures(search_results, (&rows, query, limit), answer),
    ensures
        answer is Ok <==> row::all_fit(row::row_values(rows@), SearchRow::columns()),
        answer matches Ok(list) ==> {
            let picked = search::chosen(
                search::haystacks_of(row::row_values(rows@)),
                search::tokens_of(query@),
                limit as nat,
            );
            &&& list@.len() == picked.len()
            &&& list@.len() <= limit
            &&& 0 <= k < list@.len() ==> list@[k].holds(row::row_values(rows@)[picked[k]])
        },
{
}

/// A list of judgements is one for each row, in order, where all were understood, and otherwise
/// fails.
pub proof fn judgements_are_those_of_the_rows(
    raw: Vec<CommandSafetyRawRow>,
    understood: Vec<Result<(), String>>,
    answer: Result<Vec<CommandSafetyEvent>, MsError>,
    i: int,
)
    requires
        raw@.len() == understood@.len(),
        call_ensures(command_safety_events, (&raw, &understood), answer),
        0 <= i < raw@.len(),
    ensures
        (forall|k: int| 0 <= k < understood@.len() ==> (#[trigger] understood@[k]) is Ok) ==> {
            &&& answer matches Ok(list)
            &&& list@.len() == raw@.len()
            &&& list@[i].command@ == raw@[i].command@
            &&& list@[i].decision@ == raw@[i].decision_json@
            &&& list@[i].created_at@ == raw@[i].created_at@
        },
        answer is Ok ==> understood@[i] is Ok,
{
    let rows = security::raw_values(raw@);
    let views = security::understood_views(understood@);
    if forall|k: int| 0 <= k < understood@.len() ==> (#[trigger] understood@[k]) is Ok {
        assert forall|k: int| 0 <= k < views.len() implies (#[trigger] views[k]) is Ok by {
            assert(understood@[k] is Ok);
        }
        security::understood_judgements_are_all_read(rows, views, rows.len());
        let said = security::safeties_said(rows, views, rows.len())->Ok_0;
        let list = answer->Ok_0;
        assert(said == security::safety_views(list@));
        assert(said[i] == list@[i]@);
        assert(security::safety_said(rows[i], Ok(())) == Ok::<
            security::SafetyView,
            ErrorView,
        >(said[i]));
        assert(rows[i] == raw@[i].values());
    }
    if answer is Ok && understood@[i] is Err {
        assert(views[i] is Err);
        unread_decision_fails(rows, views, i, rows.len());
    }
}

proof fn unread_decision_fails(
    rows: Seq<Seq<ValueView>>,
    understood: Seq<Result<(), Seq<char>>>,
    i: int,
    n: nat,
)
    requires
        rows.len() == understood.len(),
        0 <= i < n <= rows.len(),
        understood[i] is Err,
    ensures
        security::safeties_said(rows, understood, n) is Err,
    decreases n,
{
    if i < n - 1 {
        unread_decision_fails(rows, understood, i, (n - 1) as nat);
    }
}

} // verus!
