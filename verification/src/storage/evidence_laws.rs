//! What the evidence of many rows comes to.

use crate::error::ErrorView;
use crate::places;
use crate::storage::evidence;
use crate::storage::evidence::{EvidenceRecord, EvidenceRef, EvidenceRow};
use vstd::prelude::*;

verus! {

/// What the evidence of the rows of a skill was read as: for each row its rule, and the places, or
/// how the failure is worded.
pub type Found = Seq<(String, Result<Vec<EvidenceRef>, String>)>;

/// The evidence for a skill is owed just where that of every row can be read. Otherwise the first row
/// that cannot is told, by its rule and what is wrong with it.
pub proof fn first_unreadable_rule_is_told(found: Found, i: int)
    requires
        forall|k: int| 0 <= k < i ==> (#[trigger] found[k]).1 is Ok,
        0 <= i <= found.len(),
        i < found.len() ==> found[i].1 is Err,
    ensures
        i == found.len() ==> evidence::evidence_problem(found, found.len()) is None,
        i < found.len() ==> evidence::evidence_problem(found, found.len()) == Some(
            ErrorView::Config(
                "decode evidence for rule "@ + found[i].0@ + ": "@ + found[i].1->Err_0@,
            ),
        ),
{
    readable_rules_have_no_problem(found, i as nat);
    if i < found.len() {
        rule_problem_stays(found, (i + 1) as nat, found.len());
    }
}

proof fn readable_rules_have_no_problem(found: Found, n: nat)
    requires
        n <= found.len(),
        forall|k: int| 0 <= k < n ==> (#[trigger] found[k]).1 is Ok,
    ensures
        evidence::evidence_problem(found, n) is None,
    decreases n,
{
    if n > 0 {
        readable_rules_have_no_problem(found, (n - 1) as nat);
        assert(found[n - 1].1 is Ok);
    }
}

proof fn rule_problem_stays(found: Found, n: nat, m: nat)
    requires
        n <= m,
        evidence::evidence_problem(found, n) is Some,
    ensures
        evidence::evidence_problem(found, m) == evidence::evidence_problem(found, n),
    decreases m,
{
    if n < m {
        rule_problem_stays(found, n, (m - 1) as nat);
    }
}

/// A rule has evidence just where a row of it was read, and the evidence is what the last such row
/// was read as.
pub proof fn rule_has_what_its_last_row_says(found: Found, rule: Seq<char>)
    ensures
        evidence::rules_found(found, found.len()).dom().contains(rule) <==> exists|i: int|
            0 <= i < found.len() && (#[trigger] found[i]).0@ == rule && found[i].1 is Ok,
        forall|i: int|
            0 <= i < found.len() && (#[trigger] found[i]).0@ == rule && found[i].1 is Ok && (forall|
                j: int,
            |
                i < j < found.len() ==> (#[trigger] found[j]).0@ != rule || found[j].1 is Err) ==>
                evidence::rules_found(found, found.len())[rule] == found[i].1->Ok_0,
{
    last_row_of_rule(found, rule, found.len());
}

proof fn last_row_of_rule(found: Found, rule: Seq<char>, n: nat)
    requires
        n <= found.len(),
    ensures
        evidence::rules_found(found, n).dom().contains(rule) <==> exists|i: int|
            0 <= i < n && (#[trigger] found[i]).0@ == rule && found[i].1 is Ok,
        forall|i: int|
            0 <= i < n && (#[trigger] found[i]).0@ == rule && found[i].1 is Ok && (forall|j: int|
                i < j < n ==> (#[trigger] found[j]).0@ != rule || found[j].1 is Err) ==>
                evidence::rules_found(found, n)[rule] == found[i].1->Ok_0,
    decreases n,
{
    if n > 0 {
        last_row_of_rule(found, rule, (n - 1) as nat);
        let last = found[n - 1];
        assert forall|i: int|
            0 <= i < n && (#[trigger] found[i]).0@ == rule && found[i].1 is Ok && (forall|j: int|
                i < j < n ==> (#[trigger] found[j]).0@ != rule || found[j].1 is Err) implies
            evidence::rules_found(found, n)[rule] == found[i].1->Ok_0 by {
            if i < n - 1 {
                assert(last.0@ != rule || last.1 is Err);
                assert forall|j: int| i < j < n - 1 implies (#[trigger] found[j]).0@ != rule
                    || found[j].1 is Err by {}
            }
        }
    }
}

/// Where each row begins among the confidences of all: behind those of the rows before it.
pub open spec fn are_starts(starts: Seq<int>, found: Found) -> bool {
    &&& starts.len() == found.len() + 1
    &&& starts[0] == 0
    &&& forall|i: int|
        0 <= i < found.len() ==> #[trigger] starts[i + 1] == starts[i] + found[i].1->Ok_0@.len()
}

/// The confidences are those of all places of all rows, row behind row, each as the place has it.
pub proof fn confidences_are_those_of_all_places(found: Found) -> (starts: Seq<int>)
    requires
        forall|k: int| 0 <= k < found.len() ==> (#[trigger] found[k]).1 is Ok,
    ensures
        are_starts(starts, found),
        evidence::confidences_found(found, found.len()).len() == starts[found.len() as int],
        forall|i: int, j: int|
            0 <= i < found.len() && 0 <= j < found[i].1->Ok_0@.len() ==> 0 <= starts[i] + j
                < evidence::confidences_found(found, found.len()).len()
                && evidence::confidences_found(found, found.len())[starts[i] + j]
                == (#[trigger] found[i].1->Ok_0@[j]).confidence,
    decreases found.len(),
{
    if found.len() == 0 {
        seq![0int]
    } else {
        let before = found.drop_last();
        assert forall|k: int| 0 <= k < before.len() implies (#[trigger] before[k]).1 is Ok by {
            assert(found[k].1 is Ok);
        }
        let starts = confidences_are_those_of_all_places(before);
        let last = found.last().1->Ok_0@;
        assert(found[found.len() - 1].1 is Ok);
        let more = starts.push(starts.last() + last.len());
        same_confidences(found, before, before.len());
        let old_all = evidence::confidences_found(before, before.len());
        let all = evidence::confidences_found(found, found.len());
        assert(all == old_all + evidence::confidences_of(last));
        assert forall|i: int| 0 <= i < found.len() implies #[trigger] more[i + 1] == more[i]
            + found[i].1->Ok_0@.len() by {
            if i < before.len() {
                assert(starts[i + 1] == starts[i] + before[i].1->Ok_0@.len());
            }
        }
        assert forall|i: int, j: int| 0 <= i < found.len() && 0 <= j < found[i].1->Ok_0@.len()
            implies 0 <= more[i] + j < all.len() && all[more[i] + j] == (
        #[trigger] found[i].1->Ok_0@[j]).confidence by {
            if i < before.len() {
                assert(before[i].1->Ok_0@[j] == found[i].1->Ok_0@[j]);
                assert(all[starts[i] + j] == old_all[starts[i] + j]);
            } else {
                assert(all[old_all.len() + j] == evidence::confidences_of(last)[j]);
            }
        }
        more
    }
}

proof fn same_confidences(found: Found, before: Found, n: nat)
    requires
        before == found.drop_last(),
        found.len() > 0,
        n <= before.len(),
    ensures
        evidence::confidences_found(found, n) == evidence::confidences_found(before, n),
    decreases n,
{
    if n > 0 {
        same_confidences(found, before, (n - 1) as nat);
        assert(found[n - 1] == before[n - 1]);
    }
}

/// The coverage counts the rules that have a place: it is how many they are.
pub proof fn coverage_counts_the_rules_with_places(
    rules: Seq<(String, Vec<EvidenceRef>)>,
) -> (with: Seq<int>)
    ensures
        places::are_places(with, rules.len() as int, |i: int| rules[i].1@.len() > 0),
        evidence::filled(rules, rules.len()) == with.len(),
{
    counted_places(rules, rules.len())
}

proof fn counted_places(rules: Seq<(String, Vec<EvidenceRef>)>, n: nat) -> (with: Seq<int>)
    requires
        n <= rules.len(),
    ensures
        places::are_places(with, n as int, |i: int| rules[i].1@.len() > 0),
        evidence::filled(rules, n) == with.len(),
    decreases n,
{
    let has_place = |i: int| rules[i].1@.len() > 0;
    if n == 0 {
        Seq::empty()
    } else {
        let before = counted_places(rules, (n - 1) as nat);
        places::one_more_place(before, n - 1, has_place);
        if has_place(n - 1) {
            before.push(n - 1)
        } else {
            before
        }
    }
}

/// All evidence is owed just where that of every row can be read. Otherwise the first row that cannot
/// is told, by what is wrong with it.
pub proof fn first_unreadable_record_is_told(
    found: Seq<(EvidenceRow, Result<Vec<EvidenceRef>, String>)>,
    i: int,
)
    requires
        forall|k: int| 0 <= k < i ==> (#[trigger] found[k]).1 is Ok,
        0 <= i <= found.len(),
        i < found.len() ==> found[i].1 is Err,
    ensures
        i == found.len() ==> evidence::record_problem(found, found.len()) is None,
        i < found.len() ==> evidence::record_problem(found, found.len()) == Some(
            ErrorView::Config("decode evidence: "@ + found[i].1->Err_0@),
        ),
{
    readable_records_have_no_problem(found, i as nat);
    if i < found.len() {
        record_problem_stays(found, (i + 1) as nat, found.len());
    }
}

proof fn readable_records_have_no_problem(
    found: Seq<(EvidenceRow, Result<Vec<EvidenceRef>, String>)>,
    n: nat,
)
    requires
        n <= found.len(),
        forall|k: int| 0 <= k < n ==> (#[trigger] found[k]).1 is Ok,
    ensures
        evidence::record_problem(found, n) is None,
    decreases n,
{
    if n > 0 {
        readable_records_have_no_problem(found, (n - 1) as nat);
        assert(found[n - 1].1 is Ok);
    }
}

proof fn record_problem_stays(
    found: Seq<(EvidenceRow, Result<Vec<EvidenceRef>, String>)>,
    n: nat,
    m: nat,
)
    requires
        n <= m,
        evidence::record_problem(found, n) is Some,
    ensures
        evidence::record_problem(found, m) == evidence::record_problem(found, n),
    decreases m,
{
    if n < m {
        record_problem_stays(found, n, (m - 1) as nat);
    }
}

/// The record of a row has the skill, the rule and the time of the row, and the places that were
/// read, as they are.
pub proof fn record_has_what_its_row_says(
    record: EvidenceRecord,
    row: EvidenceRow,
    read: Result<Vec<EvidenceRef>, String>,
)
    ensures
        evidence::is_record_of(record, (row, read)) <==> {
            &&& record.skill_id@ == row.skill_id@
            &&& record.rule_id@ == row.rule_id@
            &&& record.updated_at@ == row.updated_at@
            &&& read is Ok
            &&& record.evidence == read->Ok_0
        },
{
}

} // verus!
