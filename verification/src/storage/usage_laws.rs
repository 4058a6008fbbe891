//! What the rows on loads come to.

use crate::storage::clock;
use crate::storage::clock::UtcTime;
use crate::storage::statement::ValueView;
use crate::storage::usage;
use vstd::prelude::*;

verus! {

/// A count is the number that is said, and zero where that is negative.
pub proof fn count_is_the_number_said(count: i64)
    ensures
        count >= 0 ==> usage::count_said(count) == count,
        count < 0 ==> usage::count_said(count) == 0,
{
}

/// The count of a skill is what the last row of it says, and a skill has one just where a row says
/// one.
pub proof fn skill_has_the_count_of_its_last_row(rows: Seq<Seq<ValueView>>, i: int, skill: Seq<char>)
    requires
        0 <= i < rows.len(),
        rows[i][0] == ValueView::Text(skill),
        rows[i][1] is Integer,
        forall|j: int| i < j < rows.len() ==> (#[trigger] rows[j])[0] is Text,
        forall|j: int|
            i < j < rows.len() ==> (#[trigger] rows[j])[0] != ValueView::Text(skill),
    ensures
        usage::counts_said(usage::counts_held(rows)).dom().contains(skill),
        usage::counts_said(usage::counts_held(rows))[skill] == (if rows[i][1]->Integer_0 >= 0 {
            rows[i][1]->Integer_0 as int
        } else {
            0
        }),
{
    let said = usage::counts_held(rows);
    assert(said[i] == (skill, rows[i][1]->Integer_0));
    assert forall|j: int| i < j < said.len() implies (#[trigger] said[j]).0 != skill by {
        assert(rows[j][0] != ValueView::Text(skill));
    }
    last_count(said, i);
}

proof fn last_count(said: Seq<(Seq<char>, i64)>, i: int)
    requires
        0 <= i < said.len(),
        forall|j: int| i < j < said.len() ==> (#[trigger] said[j]).0 != said[i].0,
    ensures
        usage::counts_said(said).dom().contains(said[i].0),
        usage::counts_said(said)[said[i].0] == usage::count_said(said[i].1),
    decreases said.len(),
{
    if i < said.len() - 1 {
        let before = said.drop_last();
        assert(said[said.len() - 1].0 != said[i].0);
        assert forall|j: int| i < j < before.len() implies (#[trigger] before[j]).0
            != before[i].0 by {
            assert(said[j].0 != said[i].0);
        }
        last_count(before, i);
    }
}

/// A skill of which no row says a count has none.
pub proof fn skill_without_a_row_has_no_count(rows: Seq<Seq<ValueView>>, skill: Seq<char>)
    requires
        forall|j: int| 0 <= j < rows.len() ==> (#[trigger] rows[j])[0] is Text,
        forall|j: int|
            0 <= j < rows.len() ==> (#[trigger] rows[j])[0] != ValueView::Text(skill),
    ensures
        !usage::counts_said(usage::counts_held(rows)).dom().contains(skill),
        !usage::times_said(usage::times_held(rows)).dom().contains(skill),
{
    let said = usage::counts_held(rows);
    usage::counted_skills_are_those_said(said, skill);
    if exists|i: int| 0 <= i < said.len() && (#[trigger] said[i]).0 == skill {
        let i = choose|i: int| 0 <= i < said.len() && (#[trigger] said[i]).0 == skill;
        assert(rows[i][0] != ValueView::Text(skill));
    }
    let times = usage::times_held(rows);
    assert forall|j: int| 0 <= j < times.len() implies (#[trigger] times[j]).0 != skill by {
        assert(rows[j][0] != ValueView::Text(skill));
    }
    no_time(times, skill);
}

proof fn no_time(said: Seq<(Seq<char>, Result<(i64, u32), Seq<char>>)>, skill: Seq<char>)
    requires
        forall|j: int| 0 <= j < said.len() ==> (#[trigger] said[j]).0 != skill,
    ensures
        !usage::times_said(said).dom().contains(skill),
    decreases said.len(),
{
    if said.len() > 0 {
        let before = said.drop_last();
        assert(said[said.len() - 1].0 != skill);
        assert forall|j: int| 0 <= j < before.len() implies (#[trigger] before[j]).0 != skill by {
            assert(said[j].0 != skill);
        }
        no_time(before, skill);
    }
}

/// The last load of a skill is the time that its row says. One whose text is no time says nothing,
/// and the last loads of the other skills stay.
pub proof fn skill_has_the_time_of_its_row(rows: Seq<Seq<ValueView>>, i: int, skill: Seq<char>)
    requires
        0 <= i < rows.len(),
        rows[i][0] == ValueView::Text(skill),
        rows[i][1] is Text,
        forall|j: int| 0 <= j < rows.len() ==> (#[trigger] rows[j])[0] is Text,
        forall|j: int|
            0 <= j < rows.len() && j != i ==> (#[trigger] rows[j])[0] != ValueView::Text(skill),
    ensures
        match clock::rfc3339_time(rows[i][1]->Text_0) {
            Ok((seconds, nanos)) => {
                &&& usage::times_said(usage::times_held(rows)).dom().contains(skill)
                &&& usage::times_said(usage::times_held(rows))[skill].seconds == seconds
                &&& usage::times_said(usage::times_held(rows))[skill].nanos == nanos
            },
            Err(_) => !usage::times_said(usage::times_held(rows)).dom().contains(skill),
        },
{
    let said = usage::times_held(rows);
    assert(said[i] == (skill, clock::rfc3339_time(rows[i][1]->Text_0)));
    assert forall|j: int| 0 <= j < said.len() && j != i implies (#[trigger] said[j]).0
        != skill by {
        assert(rows[j][0] != ValueView::Text(skill));
    }
    only_time(said, i);
}

proof fn only_time(said: Seq<(Seq<char>, Result<(i64, u32), Seq<char>>)>, i: int)
    requires
        0 <= i < said.len(),
        forall|j: int| 0 <= j < said.len() && j != i ==> (#[trigger] said[j]).0 != said[i].0,
    ensures
        match said[i].1 {
            Ok((seconds, nanos)) => {
                &&& usage::times_said(said).dom().contains(said[i].0)
                &&& usage::times_said(said)[said[i].0] == (UtcTime { seconds, nanos })
            },
            Err(_) => !usage::times_said(said).dom().contains(said[i].0),
        },
    decreases said.len(),
{
    let before = said.drop_last();
    if i < said.len() - 1 {
        assert(said[said.len() - 1].0 != said[i].0);
        assert forall|j: int| 0 <= j < before.len() && j != i implies (#[trigger] before[j]).0
            != before[i].0 by {
            assert(said[j].0 != said[i].0);
        }
        only_time(before, i);
    } else {
        assert forall|j: int| 0 <= j < before.len() implies (#[trigger] before[j]).0
            != said[i].0 by {
            assert(said[j].0 != said[i].0);
        }
        no_time(before, said[i].0);
    }
}

/// What is no time says nothing, also of a skill of which a time is said before. A time is what its
/// skill has from then on, and the other skills keep theirs.
pub proof fn what_is_no_time_says_nothing(
    said: Seq<(Seq<char>, Result<(i64, u32), Seq<char>>)>,
    skill: Seq<char>,
    other: Seq<char>,
    problem: Seq<char>,
    seconds: i64,
    nanos: u32,
)
    ensures
        usage::times_said(said.push((skill, Err(problem)))) == usage::times_said(said),
        usage::times_said(said.push((skill, Ok((seconds, nanos))))).dom().contains(skill),
        usage::times_said(said.push((skill, Ok((seconds, nanos)))))[skill].seconds == seconds,
        usage::times_said(said.push((skill, Ok((seconds, nanos)))))[skill].nanos == nanos,
        other != skill ==> usage::times_said(said.push((skill, Ok((seconds, nanos))))).dom().contains(
            other,
        ) == usage::times_said(said).dom().contains(other),
        other != skill && usage::times_said(said).dom().contains(other) ==> usage::times_said(
            said.push((skill, Ok((seconds, nanos)))),
        )[other] == usage::times_said(said)[other],
{
    assert(said.push((skill, Err(problem))).drop_last() =~= said);
    assert(said.push((skill, Ok((seconds, nanos)))).drop_last() =~= said);
}

} // verus!
