//! How often skills are loaded, and when they last were.

use crate::error::MsError;
use crate::storage::clock;
use crate::storage::clock::{read_rfc3339, UtcTime};
use crate::storage::row;
use crate::storage::row::{integer_of, read_rows, text_of, FromRow, Kind, Row};
use crate::storage::sqlite::{read_count, Database};
use crate::storage::statement;
use crate::storage::statement::{Statement, StatementView, ValueView};
use crate::storage::text_map;
use crate::storage::text_map::TextMap;
use vstd::prelude::*;

verus! {

/// How often all skills and each were loaded, and when each last was.
#[derive(Debug)]
pub struct UsageStats {
    pub total_loads: u64,
    pub skill_load_counts: TextMap<u64>,
    pub skill_last_load: TextMap<UtcTime>,
}

/// A count that a column says. A negative one counts as zero.
pub open spec fn count_said(count: i64) -> u64 {
    if count > 0 {
        count as u64
    } else {
        0
    }
}

/// The counts that are said, by skill.
pub open spec fn counts_said(said: Seq<(Seq<char>, i64)>) -> Map<Seq<char>, u64>
    decreases said.len(),
{
    if said.len() == 0 {
        Map::empty()
    } else {
        counts_said(said.drop_last()).insert(said.last().0, count_said(said.last().1))
    }
}

/// The times that are said, by skill. What is no time says nothing.
pub open spec fn times_said(said: Seq<(Seq<char>, Result<(i64, u32), Seq<char>>)>) -> Map<
    Seq<char>,
    UtcTime,
>
    decreases said.len(),
{
    if said.len() == 0 {
        Map::empty()
    } else {
        match said.last().1 {
            Ok((seconds, nanos)) => times_said(said.drop_last()).insert(
                said.last().0,
                UtcTime { seconds, nanos },
            ),
            Err(_) => times_said(said.drop_last()),
        }
    }
}

/// The counts that rows hold.
pub open spec fn counts_held(rows: Seq<Seq<ValueView>>) -> Seq<(Seq<char>, i64)> {
    Seq::new(rows.len(), |i: int| (row::text_in(rows[i][0]), row::integer_in(rows[i][1])))
}

/// The texts of times that rows hold.
pub open spec fn texts_held(rows: Seq<Seq<ValueView>>) -> Seq<(Seq<char>, Seq<char>)> {
    Seq::new(rows.len(), |i: int| (row::text_in(rows[i][0]), row::text_in(rows[i][1])))
}

/// The texts that are said, each with the time that it is read as.
pub open spec fn times_read(said: Seq<(Seq<char>, Seq<char>)>) -> Seq<
    (Seq<char>, Result<(i64, u32), Seq<char>>),
> {
    Seq::new(said.len(), |i: int| (said[i].0, clock::rfc3339_time(said[i].1)))
}

/// The times that rows hold, each with what its text is read as.
pub open spec fn times_held(rows: Seq<Seq<ValueView>>) -> Seq<
    (Seq<char>, Result<(i64, u32), Seq<char>>),
> {
    times_read(texts_held(rows))
}

/// The counts of a list, as views.
pub open spec fn count_views(list: Seq<UsageCountRow>) -> Seq<(Seq<char>, i64)> {
    Seq::new(list.len(), |i: int| (list[i].skill_id@, list[i].count))
}

/// The times of a list, as views.
pub open spec fn time_views(list: Seq<(String, Result<UtcTime, String>)>) -> Seq<
    (Seq<char>, Result<(i64, u32), Seq<char>>),
> {
    Seq::new(list.len(), |i: int| (list[i].0@, clock::time_view(list[i].1)))
}

/// How often a skill was loaded, as a row holds it.
#[derive(Debug, Clone)]
pub struct UsageCountRow {
    pub skill_id: String,
    pub count: i64,
}

impl FromRow for UsageCountRow {
    open spec fn columns() -> Seq<Kind> {
        seq![
            Kind::Text,
            Kind::Integer,
        ]
    }

    open spec fn holds(self, row: Seq<ValueView>) -> bool {
        &&& self.skill_id@ == row::text_in(row[0])
        &&& self.count == row::integer_in(row[1])
    }

    fn kinds() -> (r: Vec<Kind>) {
        vec![
            Kind::Text,
            Kind::Integer,
        ]
    }

    fn take(row: &Row) -> (r: Self) {
        proof {
            let held = statement::values(row@);
            assert(row::column_problem(held, 1, Self::columns()[1]) is None);
        }
        UsageCountRow {
            skill_id: text_of(&row[0]),
            count: integer_of(&row[1]),
        }
    }
}

/// When a skill was last loaded, as a row holds it.
#[derive(Debug, Clone)]
pub struct LastUsedRow {
    pub skill_id: String,
    pub used_at: String,
}

impl FromRow for LastUsedRow {
    open spec fn columns() -> Seq<Kind> {
        seq![
            Kind::Text,
            Kind::Text,
        ]
    }

    open spec fn holds(self, row: Seq<ValueView>) -> bool {
        &&& self.skill_id@ == row::text_in(row[0])
        &&& self.used_at@ == row::text_in(row[1])
    }

    fn kinds() -> (r: Vec<Kind>) {
        vec![
            Kind::Text,
            Kind::Text,
        ]
    }

    fn take(row: &Row) -> (r: Self) {
        proof {
            let held = statement::values(row@);
            assert(row::column_problem(held, 1, Self::columns()[1]) is None);
        }
        LastUsedRow {
            skill_id: text_of(&row[0]),
            used_at: text_of(&row[1]),
        }
    }
}

impl Database {
    /// How often skills were loaded, and when they last were: the loads of all skills, those of
    /// each, and the last of each. For the rows see [`usage_stats`].
    pub fn get_skill_usage_stats() -> (r: (Statement, Statement, Statement))
        ensures
            r.0@ == (StatementView { sql: "SELECT COUNT(*) FROM skill_usage"@, params: seq![] }),
            r.1@ == (StatementView {
                sql: "SELECT skill_id, COUNT(*) as count FROM skill_usage GROUP BY skill_id"@,
                params: seq![],
            }),
            r.2@ == (StatementView {
                sql: "SELECT skill_id, MAX(used_at) as last_used FROM skill_usage GROUP BY skill_id"@,
                params: seq![],
            }),
    {
        (
            Statement::new("SELECT COUNT(*) FROM skill_usage"),
            Statement::new("SELECT skill_id, COUNT(*) as count FROM skill_usage GROUP BY skill_id"),
            Statement::new(
                "SELECT skill_id, MAX(used_at) as last_used FROM skill_usage GROUP BY skill_id",
            ),
        )
    }
}

/// The counts of a list, by skill.
pub fn load_counts(list: &Vec<UsageCountRow>) -> (r: TextMap<u64>)
    ensures
        r.ordered(),
        r@ == counts_said(count_views(list@)),
{
    let mut out: TextMap<u64> = TextMap::new();
    let ghost said = count_views(list@);
    assert(said.take(0).len() == 0);
    for i in 0..list.len()
        invariant
            said == count_views(list@),
            out.ordered(),
            out@ == counts_said(said.take(i as int)),
    {
        let count: u64 = if list[i].count > 0 {
            list[i].count as u64
        } else {
            0
        };
        out.put(list[i].skill_id.as_str().to_owned(), count);
        proof {
            assert(said.take(i + 1).drop_last() == said.take(i as int));
            assert(said.take(i + 1).last() == said[i as int]);
        }
    }
    assert(said.take(said.len() as int) == said);
    out
}

/// The times of a list, by skill. What is no time is left out.
pub fn last_loads(list: &Vec<(String, Result<UtcTime, String>)>) -> (r: TextMap<UtcTime>)
    ensures
        r.ordered(),
        r@ == times_said(time_views(list@)),
{
    let mut out: TextMap<UtcTime> = TextMap::new();
    let ghost said = time_views(list@);
    assert(said.take(0).len() == 0);
    for i in 0..list.len()
        invariant
            said == time_views(list@),
            out.ordered(),
            out@ == times_said(said.take(i as int)),
    {
        proof {
            assert(said.take(i + 1).drop_last() == said.take(i as int));
            assert(said.take(i + 1).last() == said[i as int]);
        }
        if let Ok(time) = &list[i].1 {
            assert(clock::time_view(list@[i as int].1) == Ok::<(i64, u32), Seq<char>>(
                (time.seconds, time.nanos),
            ));
            out.put(list[i].0.as_str().to_owned(), *time);
        }
    }
    assert(said.take(said.len() as int) == said);
    out
}

/// How often skills were loaded, and when they last were, by the rows of the three queries. A row
/// that cannot be read fails the whole, the first by query and row; a time that cannot be read
/// only stays out.
pub fn usage_stats(total: &Row, counts: &Vec<Row>, last: &Vec<Row>) -> (r: Result<
    UsageStats,
    MsError,
>)
    ensures
        ({
            let held_total = statement::values(total@);
            let held_counts = row::row_values(counts@);
            let held_last = row::row_values(last@);
            if !row::fits(held_total, i64::columns()) {
                r matches Err(error) && error@ == row::row_error(
                    row::row_problem(held_total, i64::columns(), i64::columns().len()),
                )
            } else if !row::all_fit(held_counts, UsageCountRow::columns()) {
                r matches Err(error) && error@ == row::row_error(
                    row::rows_problem(held_counts, UsageCountRow::columns(), held_counts.len()),
                )
            } else if !row::all_fit(held_last, LastUsedRow::columns()) {
                r matches Err(error) && error@ == row::row_error(
                    row::rows_problem(held_last, LastUsedRow::columns(), held_last.len()),
                )
            } else {
                &&& r is Ok
                &&& r->Ok_0.total_loads == count_said(row::integer_in(held_total[0]))
                &&& r->Ok_0.skill_load_counts.ordered()
                &&& r->Ok_0.skill_load_counts@ == counts_said(counts_held(held_counts))
                &&& r->Ok_0.skill_last_load.ordered()
                &&& r->Ok_0.skill_last_load@ == times_said(times_held(held_last))
            }
        }),
{
    let total_loads = match read_count(total) {
        Ok(count) => count,
        Err(error) => return Err(error),
    };
    let counted = match read_rows::<UsageCountRow>(counts) {
        Ok(list) => list,
        Err(error) => return Err(error),
    };
    let ghost held_counts = row::row_values(counts@);
    proof {
        assert forall|i: int| 0 <= i < counted@.len() implies count_views(counted@)[i]
            == counts_held(held_counts)[i] by {
            assert(counted@[i].holds(held_counts[i]));
        }
        assert(count_views(counted@) == counts_held(held_counts));
    }
    let dated = match read_rows::<LastUsedRow>(last) {
        Ok(list) => list,
        Err(error) => return Err(error),
    };
    let ghost held_last = row::row_values(last@);
    let mut times: Vec<(String, Result<UtcTime, String>)> = Vec::new();
    for i in 0..dated.len()
        invariant
            dated@.len() == held_last.len(),
            forall|k: int| 0 <= k < dated@.len() ==> (#[trigger] dated@[k]).holds(held_last[k]),
            times@.len() == i,
            forall|k: int|
                0 <= k < i ==> (#[trigger] times@[k]).0@ == row::text_in(held_last[k][0])
                    && clock::time_view(times@[k].1) == clock::rfc3339_time(
                    row::text_in(held_last[k][1]),
                ),
    {
        assert(dated@[i as int].holds(held_last[i as int]));
        let read = read_rfc3339(dated[i].used_at.as_str());
        times.push((dated[i].skill_id.as_str().to_owned(), read));
    }
    assert(time_views(times@) == times_held(held_last));
    Ok(
        UsageStats {
            total_loads,
            skill_load_counts: load_counts(&counted),
            skill_last_load: last_loads(&times),
        },
    )
}

/// A skill of which a count is said last has that count, whatever was said before.
pub proof fn last_count_stands(said: Seq<(Seq<char>, i64)>, skill: Seq<char>, count: i64)
    ensures
        counts_said(said.push((skill, count))).dom().contains(skill),
        counts_said(said.push((skill, count)))[skill] == count_said(count),
{
    assert(said.push((skill, count)).drop_last() == said);
}

/// The skills with a count are just those of which a row says one.
pub proof fn counted_skills_are_those_said(said: Seq<(Seq<char>, i64)>, skill: Seq<char>)
    ensures
        counts_said(said).dom().contains(skill) <==> exists|i: int|
            0 <= i < said.len() && (#[trigger] said[i]).0 == skill,
    decreases said.len(),
{
    if said.len() > 0 {
        let before = said.drop_last();
        counted_skills_are_those_said(before, skill);
        if exists|i: int| 0 <= i < before.len() && (#[trigger] before[i]).0 == skill {
            let i = choose|i: int| 0 <= i < before.len() && (#[trigger] before[i]).0 == skill;
            assert(said[i].0 == skill);
        }
        if said.last().0 == skill {
            assert(said[said.len() - 1].0 == skill);
        }
        if exists|i: int| 0 <= i < said.len() && (#[trigger] said[i]).0 == skill {
            let i = choose|i: int| 0 <= i < said.len() && (#[trigger] said[i]).0 == skill;
            if i < before.len() {
                assert(before[i].0 == skill);
            }
        }
    }
}

// ---------------------------------------------------------------------------------------------
// The three queries together
// ---------------------------------------------------------------------------------------------

/// A load: the skill, and when it was used, as text.
#[verifier::ext_equal]
pub ghost struct LoadView {
    pub skill: Seq<char>,
    pub used_at: Seq<char>,
}

/// How many of the loads are those of a skill. That is what a count of its usage asks for.
pub open spec fn loads_of(loads: Seq<LoadView>, skill: Seq<char>) -> nat
    decreases loads.len(),
{
    if loads.len() == 0 {
        0
    } else {
        loads_of(loads.drop_last(), skill) + (if loads.last().skill == skill {
            1nat
        } else {
            0nat
        })
    }
}

/// What is said are the loads counted by skill: each skill with a load once, with its count.
pub open spec fn are_grouped_counts(said: Seq<(Seq<char>, i64)>, loads: Seq<LoadView>) -> bool {
    &&& forall|i: int, j: int|
        0 <= i < j < said.len() ==> (#[trigger] said[i]).0 != (#[trigger] said[j]).0
    &&& forall|i: int|
        0 <= i < said.len() ==> (#[trigger] said[i]).1 == loads_of(loads, said[i].0)
            && said[i].1 > 0
    &&& forall|skill: Seq<char>| #[trigger]
        loads_of(loads, skill) > 0 ==> exists|i: int|
            0 <= i < said.len() && (#[trigger] said[i]).0 == skill
}

/// All counts that are said, together.
pub open spec fn sum_said(said: Seq<(Seq<char>, i64)>) -> int
    decreases said.len(),
{
    if said.len() == 0 {
        0
    } else {
        sum_said(said.drop_last()) + count_said(said.last().1)
    }
}

/// The count of a skill is how many loads it has; a skill without a load has no count; no count is
/// zero; and all counts together are all loads.
pub proof fn counts_are_those_of_the_loads(
    loads: Seq<LoadView>,
    said: Seq<(Seq<char>, i64)>,
    skill: Seq<char>,
)
    requires
        are_grouped_counts(said, loads),
    ensures
        counts_said(said).dom().contains(skill) <==> loads_of(loads, skill) > 0,
        counts_said(said).dom().contains(skill) ==> counts_said(said)[skill] == loads_of(
            loads,
            skill,
        ) && counts_said(said)[skill] > 0,
        sum_said(said) == loads.len(),
{
    counted_skills_are_those_said(said, skill);
    if exists|i: int| 0 <= i < said.len() && (#[trigger] said[i]).0 == skill {
        let i = choose|i: int| 0 <= i < said.len() && (#[trigger] said[i]).0 == skill;
        count_of_a_row_stands(said, i);
    }
    counts_sum_up(loads, said);
}

proof fn count_of_a_row_stands(said: Seq<(Seq<char>, i64)>, i: int)
    requires
        0 <= i < said.len(),
        forall|j: int, k: int|
            0 <= j < k < said.len() ==> (#[trigger] said[j]).0 != (#[trigger] said[k]).0,
    ensures
        counts_said(said).dom().contains(said[i].0),
        counts_said(said)[said[i].0] == count_said(said[i].1),
    decreases said.len(),
{
    if i < said.len() - 1 {
        let before = said.drop_last();
        assert(said[i].0 != said[said.len() - 1].0);
        assert forall|j: int, k: int| 0 <= j < k < before.len() implies (#[trigger] before[j]).0
            != (#[trigger] before[k]).0 by {
            assert(said[j].0 != said[k].0);
        }
        count_of_a_row_stands(before, i);
        assert(before[i] == said[i]);
    }
}

/// The loads of other skills.
pub open spec fn loads_but(loads: Seq<LoadView>, skill: Seq<char>) -> Seq<LoadView>
    decreases loads.len(),
{
    if loads.len() == 0 {
        loads
    } else if loads.last().skill == skill {
        loads_but(loads.drop_last(), skill)
    } else {
        loads_but(loads.drop_last(), skill).push(loads.last())
    }
}

proof fn loads_but_are_fewer(loads: Seq<LoadView>, skill: Seq<char>, other: Seq<char>)
    ensures
        loads_but(loads, skill).len() + loads_of(loads, skill) == loads.len(),
        loads_of(loads_but(loads, skill), other) == (if other == skill {
            0
        } else {
            loads_of(loads, other)
        }),
    decreases loads.len(),
{
    if loads.len() > 0 {
        loads_but_are_fewer(loads.drop_last(), skill, other);
        if loads.last().skill != skill {
            let rest = loads_but(loads.drop_last(), skill);
            assert(rest.push(loads.last()).drop_last() == rest);
        }
    }
}

proof fn counts_sum_up(loads: Seq<LoadView>, said: Seq<(Seq<char>, i64)>)
    requires
        are_grouped_counts(said, loads),
    ensures
        sum_said(said) == loads.len(),
    decreases said.len(),
{
    if said.len() == 0 {
        if loads.len() > 0 {
            assert(loads_of(loads, loads.last().skill) > 0);
        }
    } else {
        let before = said.drop_last();
        let skill = said.last().0;
        let rest = loads_but(loads, skill);
        loads_but_are_fewer(loads, skill, skill);
        assert(said[said.len() - 1].1 == loads_of(loads, skill));
        assert forall|i: int, j: int| 0 <= i < j < before.len() implies (#[trigger] before[i]).0
            != (#[trigger] before[j]).0 by {
            assert(said[i].0 != said[j].0);
        }
        assert forall|i: int| 0 <= i < before.len() implies (#[trigger] before[i]).1 == loads_of(
            rest,
            before[i].0,
        ) && before[i].1 > 0 by {
            assert(said[i].0 != said[said.len() - 1].0);
            loads_but_are_fewer(loads, skill, before[i].0);
            assert(said[i].1 == loads_of(loads, said[i].0));
        }
        assert forall|other: Seq<char>| #[trigger] loads_of(rest, other) > 0 implies exists|i: int|
            0 <= i < before.len() && (#[trigger] before[i]).0 == other by {
            loads_but_are_fewer(loads, skill, other);
            assert(loads_of(loads, other) > 0);
            let i = choose|i: int| 0 <= i < said.len() && (#[trigger] said[i]).0 == other;
            assert(before[i].0 == other);
        }
        counts_sum_up(rest, before);
    }
}

/// What is said are the last loads by skill: each skill with a load once, with the greatest text
/// of when it was used.
pub open spec fn are_last_loads(said: Seq<(Seq<char>, Seq<char>)>, loads: Seq<LoadView>) -> bool {
    &&& forall|i: int, j: int|
        0 <= i < j < said.len() ==> (#[trigger] said[i]).0 != (#[trigger] said[j]).0
    &&& forall|i: int| 0 <= i < said.len() ==> is_last_load(#[trigger] said[i], loads)
    &&& forall|k: int|
        0 <= k < loads.len() ==> exists|i: int|
            0 <= i < said.len() && (#[trigger] said[i]).0 == (#[trigger] loads[k]).skill
}

/// A text is the greatest of those of a skill's loads.
pub open spec fn is_last_load(said: (Seq<char>, Seq<char>), loads: Seq<LoadView>) -> bool {
    &&& loads.contains(LoadView { skill: said.0, used_at: said.1 })
    &&& forall|k: int|
        0 <= k < loads.len() && (#[trigger] loads[k]).skill == said.0 ==> !text_map::before(
            said.1,
            loads[k].used_at,
        )
}

/// A skill has a last load just where it has a load and the greatest text of its loads is a time,
/// and that is the time. So each skill with a last load also has a count.
pub proof fn last_loads_are_those_of_the_loads(
    loads: Seq<LoadView>,
    said: Seq<(Seq<char>, Seq<char>)>,
    i: int,
    skill: Seq<char>,
)
    requires
        are_last_loads(said, loads),
        0 <= i < said.len(),
    ensures
        match clock::rfc3339_time(said[i].1) {
            Ok((seconds, nanos)) => {
                &&& times_said(times_read(said)).dom().contains(said[i].0)
                &&& times_said(times_read(said))[said[i].0] == (UtcTime { seconds, nanos })
            },
            Err(_) => !times_said(times_read(said)).dom().contains(said[i].0),
        },
        times_said(times_read(said)).dom().contains(skill) ==> loads_of(loads, skill) > 0,
{
    let read = times_read(said);
    assert forall|j: int, k: int| 0 <= j < k < read.len() implies (#[trigger] read[j]).0 != (
    #[trigger] read[k]).0 by {
        assert(said[j].0 != said[k].0);
    }
    time_of_a_row_stands(read, i);
    if times_said(read).dom().contains(skill) {
        let j = timed_skill_has_a_row(read, skill);
        assert(is_last_load(said[j], loads));
        let load = LoadView { skill, used_at: said[j].1 };
        let k = choose|k: int| 0 <= k < loads.len() && loads[k] == load;
        a_load_counts(loads, k);
    }
}

proof fn a_load_counts(loads: Seq<LoadView>, k: int)
    requires
        0 <= k < loads.len(),
    ensures
        loads_of(loads, loads[k].skill) > 0,
    decreases loads.len(),
{
    if k < loads.len() - 1 {
        a_load_counts(loads.drop_last(), k);
    }
}

proof fn time_of_a_row_stands(said: Seq<(Seq<char>, Result<(i64, u32), Seq<char>>)>, i: int)
    requires
        0 <= i < said.len(),
        forall|j: int, k: int|
            0 <= j < k < said.len() ==> (#[trigger] said[j]).0 != (#[trigger] said[k]).0,
    ensures
        match said[i].1 {
            Ok((seconds, nanos)) => {
                &&& times_said(said).dom().contains(said[i].0)
                &&& times_said(said)[said[i].0] == (UtcTime { seconds, nanos })
            },
            Err(_) => !times_said(said).dom().contains(said[i].0),
        },
    decreases said.len(),
{
    let before = said.drop_last();
    if i < said.len() - 1 {
        assert(said[i].0 != said[said.len() - 1].0);
        assert forall|j: int, k: int| 0 <= j < k < before.len() implies (#[trigger] before[j]).0
            != (#[trigger] before[k]).0 by {
            assert(said[j].0 != said[k].0);
        }
        time_of_a_row_stands(before, i);
        assert(before[i] == said[i]);
    } else if said[i].1 is Err && times_said(before).dom().contains(said[i].0) {
        let j = timed_skill_has_a_row(before, said[i].0);
        assert(said[j].0 != said[i].0);
    }
}

proof fn timed_skill_has_a_row(
    said: Seq<(Seq<char>, Result<(i64, u32), Seq<char>>)>,
    skill: Seq<char>,
) -> (i: int)
    requires
        times_said(said).dom().contains(skill),
    ensures
        0 <= i < said.len(),
        said[i].0 == skill,
    decreases said.len(),
{
    if said.last().1 is Ok && said.last().0 == skill {
        said.len() - 1
    } else {
        timed_skill_has_a_row(said.drop_last(), skill)
    }
}

} // verus!
