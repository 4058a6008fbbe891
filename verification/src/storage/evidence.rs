//! The evidence for the rules of skills: where in which sessions a rule was seen.

use crate::error::{ErrorView, MsError};
use crate::storage::clock::now_text;
use crate::storage::row;
use crate::storage::row::{
    select_records, text_of, upsert_record, Columns, FromRow, Kind, Row, ToRow,
};
use crate::storage::sqlite;
use crate::storage::sqlite::Database;
use crate::storage::statement;
use crate::storage::statement::{
    bound_text, from_text, select, SqlValue, Statement, StatementView, ValueView,
};
use crate::storage::table;
use crate::storage::table::{Keyed, TableView};
use crate::storage::text_map::TextMap;
use crate::text;
use crate::text::concat;
use vstd::prelude::*;
use vstd::string::*;

verus! {

/// A place in a session where a rule was seen.
#[derive(Debug)]
pub struct EvidenceRef {
    pub session_id: String,
    /// The first and the last message.
    pub message_range: (u32, u32),
    pub snippet_hash: String,
    pub excerpt: Option<String>,
    /// How much of the place is kept, by name.
    pub level: String,
    /// How sure the evidence is: a single-precision number, by its bits.
    pub confidence: u32,
}

impl Clone for EvidenceRef {
    /// A place of one's own.
    fn clone(&self) -> (r: Self)
        ensures
            r.session_id@ == self.session_id@,
            r.message_range == self.message_range,
            r.snippet_hash@ == self.snippet_hash@,
            text::opt_text(r.excerpt) == text::opt_text(self.excerpt),
            r.level@ == self.level@,
            r.confidence == self.confidence,
    {
        EvidenceRef {
            session_id: self.session_id.as_str().to_owned(),
            message_range: (self.message_range.0, self.message_range.1),
            snippet_hash: self.snippet_hash.as_str().to_owned(),
            excerpt: match &self.excerpt {
                Some(t) => Some(t.as_str().to_owned()),
                None => None,
            },
            level: self.level.as_str().to_owned(),
            confidence: self.confidence,
        }
    }
}

/// Evidence record for provenance graph export
#[derive(Debug, Clone)]
pub struct EvidenceRecord {
    pub skill_id: String,
    pub rule_id: String,
    pub evidence: Vec<EvidenceRef>,
    pub updated_at: String,
}

/// How many rules of a skill have evidence. Only rules with evidence are known, so all of them do.
#[derive(Debug, Clone, Copy, PartialEq, Eq, Structural)]
pub struct EvidenceCoverage {
    pub total_rules: usize,
    pub rules_with_evidence: usize,
}

/// The evidence for a skill, by rule.
#[derive(Debug)]
pub struct SkillEvidenceIndex {
    pub rules: TextMap<Vec<EvidenceRef>>,
    pub coverage: EvidenceCoverage,
    /// How sure each piece of evidence is, in the order of the rows; their mean is how sure the
    /// evidence is altogether.
    pub confidences: Vec<u32>,
}

/// How sure each of a list of places is.
pub open spec fn confidences_of(refs: Seq<EvidenceRef>) -> Seq<u32> {
    Seq::new(refs.len(), |i: int| refs[i].confidence)
}

/// The evidence that the first `n` rows give, by rule.
pub open spec fn rules_found(
    found: Seq<(String, Result<Vec<EvidenceRef>, String>)>,
    n: nat,
) -> Map<Seq<char>, Vec<EvidenceRef>>
    decreases n,
{
    if n == 0 {
        Map::empty()
    } else {
        let before = rules_found(found, (n - 1) as nat);
        match found[n - 1].1 {
            Ok(refs) => before.insert(found[n - 1].0@, refs),
            Err(_) => before,
        }
    }
}

/// How sure each piece of evidence in the first `n` rows is.
pub open spec fn confidences_found(
    found: Seq<(String, Result<Vec<EvidenceRef>, String>)>,
    n: nat,
) -> Seq<u32>
    decreases n,
{
    if n == 0 {
        Seq::empty()
    } else {
        let before = confidences_found(found, (n - 1) as nat);
        match found[n - 1].1 {
            Ok(refs) => before + confidences_of(refs@),
            Err(_) => before,
        }
    }
}

/// The error of the first of `n` rows whose evidence cannot be read, if there is one.
pub open spec fn evidence_problem(
    found: Seq<(String, Result<Vec<EvidenceRef>, String>)>,
    n: nat,
) -> Option<ErrorView>
    decreases n,
{
    if n == 0 {
        None
    } else {
        match evidence_problem(found, (n - 1) as nat) {
            Some(error) => Some(error),
            None => match found[n - 1].1 {
                Ok(_) => None,
                Err(problem) => Some(
                    ErrorView::Config(
                        "decode evidence for rule "@ + found[n - 1].0@ + ": "@ + problem@,
                    ),
                ),
            },
        }
    }
}

/// How many of the first `n` rules have a place.
pub open spec fn filled(rules: Seq<(String, Vec<EvidenceRef>)>, n: nat) -> nat
    decreases n,
{
    if n == 0 {
        0
    } else {
        filled(rules, (n - 1) as nat) + (if rules[n - 1].1@.len() > 0 {
            1nat
        } else {
            0nat
        })
    }
}

/// The evidence for a rule of a skill, as its whole row holds it.
#[derive(Debug, Clone)]
pub struct StoredEvidence {
    pub skill_id: String,
    pub rule_id: String,
    pub evidence_json: String,
    pub coverage_json: String,
    pub updated_at: String,
}

impl FromRow for StoredEvidence {
    open spec fn columns() -> Seq<Kind> {
        seq![Kind::Text, Kind::Text, Kind::Text, Kind::Text, Kind::Text]
    }

    open spec fn holds(self, row: Seq<ValueView>) -> bool {
        &&& self.skill_id@ == row::text_in(row[0])
        &&& self.rule_id@ == row::text_in(row[1])
        &&& self.evidence_json@ == row::text_in(row[2])
        &&& self.coverage_json@ == row::text_in(row[3])
        &&& self.updated_at@ == row::text_in(row[4])
    }

    fn kinds() -> (r: Vec<Kind>) {
        vec![Kind::Text, Kind::Text, Kind::Text, Kind::Text, Kind::Text]
    }

    fn take(row: &Row) -> (r: Self) {
        proof {
            let held = statement::values(row@);
            assert(row::column_problem(held, 4, Self::columns()[4]) is None);
        }
        StoredEvidence {
            skill_id: text_of(&row[0]),
            rule_id: text_of(&row[1]),
            evidence_json: text_of(&row[2]),
            coverage_json: text_of(&row[3]),
            updated_at: text_of(&row[4]),
        }
    }
}

impl Columns for StoredEvidence {
    open spec fn names() -> Seq<Seq<char>> {
        seq![
            "skill_id"@,
            "rule_id"@,
            "evidence_json"@,
            "coverage_json"@,
            "updated_at"@,
        ]
    }

    proof fn names_match() {
    }

    fn name_list() -> (r: Vec<&'static str>) {
        let list = vec![
            "skill_id",
            "rule_id",
            "evidence_json",
            "coverage_json",
            "updated_at",
        ];
        assert(statement::words(list@) == Self::names());
        list
    }
}

impl ToRow for StoredEvidence {
    open spec fn values(self) -> Seq<ValueView> {
        seq![
            ValueView::Text(self.skill_id@),
            ValueView::Text(self.rule_id@),
            ValueView::Text(self.evidence_json@),
            ValueView::Text(self.coverage_json@),
            ValueView::Text(self.updated_at@),
        ]
    }

    proof fn reads_back(self) {
        assert forall|read: Self| #[trigger] read.holds(self.values()) implies read.values()
            == self.values() by {
            assert(read.values() =~= self.values());
        }
    }

    fn bound(&self) -> (r: Vec<SqlValue>) {
        let list = vec![
            bound_text(self.skill_id.as_str()),
            bound_text(self.rule_id.as_str()),
            bound_text(self.evidence_json.as_str()),
            bound_text(self.coverage_json.as_str()),
            bound_text(self.updated_at.as_str()),
        ];
        assert(statement::values(list@) == self.values());
        list
    }
}

impl Keyed for StoredEvidence {
    open spec fn key_length() -> nat {
        2
    }

    proof fn names_differ() {
        reveal_strlit("skill_id");
        reveal_strlit("rule_id");
        reveal_strlit("evidence_json");
        reveal_strlit("coverage_json");
        reveal_strlit("updated_at");
        let names = Self::names();
        let marks = seq![
            10010711508int,
            10011711407int,
            11011810113int,
            11011109913int,
            11611211710int,
        ];
        assert(text::mark("skill_id"@) == marks[0]);
        assert(text::mark("rule_id"@) == marks[1]);
        assert(text::mark("evidence_json"@) == marks[2]);
        assert(text::mark("coverage_json"@) == marks[3]);
        assert(text::mark("updated_at"@) == marks[4]);
        assert forall|i: int, j: int| 0 <= i < j < names.len() implies names[i] != names[j] by {
            assert(text::mark(names[i]) == marks[i]);
            assert(text::mark(names[j]) == marks[j]);
        }
    }
}

/// The evidence for a rule as its row holds it. The query asks for its coverage too, which is not
/// read.
#[derive(Debug, Clone)]
pub struct RuleEvidenceRow {
    pub rule_id: String,
    pub evidence_json: String,
}

impl FromRow for RuleEvidenceRow {
    open spec fn columns() -> Seq<Kind> {
        seq![
            Kind::Text,
            Kind::Text,
        ]
    }

    open spec fn holds(self, row: Seq<ValueView>) -> bool {
        &&& self.rule_id@ == row::text_in(row[0])
        &&& self.evidence_json@ == row::text_in(row[1])
    }

    fn kinds() -> (r: Vec<Kind>) {
        vec![
            Kind::Text,
            Kind::Text,
        ]
    }

    fn take(row: &Row) -> (r: Self) {
        proof {
            let held = statement::values(row@);
            assert(row::column_problem(held, 1, Self::columns()[1]) is None);
        }
        RuleEvidenceRow {
            rule_id: text_of(&row[0]),
            evidence_json: text_of(&row[1]),
        }
    }
}

impl Columns for RuleEvidenceRow {
    open spec fn names() -> Seq<Seq<char>> {
        seq![
            "rule_id"@,
            "evidence_json"@,
            "coverage_json"@,
        ]
    }

    proof fn names_match() {
    }

    fn name_list() -> (r: Vec<&'static str>) {
        let list = vec![
            "rule_id",
            "evidence_json",
            "coverage_json",
        ];
        assert(statement::words(list@) == Self::names());
        list
    }
}

/// The evidence for a rule of any skill as its row holds it.
#[derive(Debug, Clone)]
pub struct EvidenceRow {
    pub skill_id: String,
    pub rule_id: String,
    pub evidence_json: String,
    pub updated_at: String,
}

impl FromRow for EvidenceRow {
    open spec fn columns() -> Seq<Kind> {
        seq![
            Kind::Text,
            Kind::Text,
            Kind::Text,
            Kind::Text,
        ]
    }

    open spec fn holds(self, row: Seq<ValueView>) -> bool {
        &&& self.skill_id@ == row::text_in(row[0])
        &&& self.rule_id@ == row::text_in(row[1])
        &&& self.evidence_json@ == row::text_in(row[2])
        &&& self.updated_at@ == row::text_in(row[3])
    }

    fn kinds() -> (r: Vec<Kind>) {
        vec![
            Kind::Text,
            Kind::Text,
            Kind::Text,
            Kind::Text,
        ]
    }

    fn take(row: &Row) -> (r: Self) {
        proof {
            let held = statement::values(row@);
            assert(row::column_problem(held, 3, Self::columns()[3]) is None);
        }
        EvidenceRow {
            skill_id: text_of(&row[0]),
            rule_id: text_of(&row[1]),
            evidence_json: text_of(&row[2]),
            updated_at: text_of(&row[3]),
        }
    }
}

impl Columns for EvidenceRow {
    open spec fn names() -> Seq<Seq<char>> {
        seq![
            "skill_id"@,
            "rule_id"@,
            "evidence_json"@,
            "updated_at"@,
        ]
    }

    proof fn names_match() {
    }

    fn name_list() -> (r: Vec<&'static str>) {
        let list = vec![
            "skill_id",
            "rule_id",
            "evidence_json",
            "updated_at",
        ];
        assert(statement::words(list@) == Self::names());
        list
    }
}

/// A problem in an early row is the problem of every longer list.
proof fn problem_stays(
    found: Seq<(String, Result<Vec<EvidenceRef>, String>)>,
    n: nat,
    m: nat,
)
    requires
        n <= m,
        evidence_problem(found, n) is Some,
    ensures
        evidence_problem(found, m) == evidence_problem(found, n),
    decreases m,
{
    if n < m {
        problem_stays(found, n, (m - 1) as nat);
    }
}

/// At most all rules have a place.
proof fn filled_is_bounded(rules: Seq<(String, Vec<EvidenceRef>)>, n: nat)
    ensures
        filled(rules, n) <= n,
    decreases n,
{
    if n > 0 {
        filled_is_bounded(rules, (n - 1) as nat);
    }
}

/// How many rules have a place.
fn count_filled(rules: &Vec<(String, Vec<EvidenceRef>)>) -> (r: usize)
    ensures
        r == filled(rules@, rules@.len()),
{
    let mut count: usize = 0;
    for i in 0..rules.len()
        invariant
            count == filled(rules@, i as nat),
            count <= i,
    {
        proof {
            filled_is_bounded(rules@, i as nat);
        }
        if rules[i].1.len() > 0 {
            count = count + 1;
        }
    }
    count
}

/// The evidence for a skill, by what the evidence of each row was read as. The first row whose
/// evidence cannot be read fails the whole.
pub fn evidence_index(found: Vec<(String, Result<Vec<EvidenceRef>, String>)>) -> (r: Result<
    SkillEvidenceIndex,
    MsError,
>)
    ensures
        match r {
            Ok(index) => {
                &&& evidence_problem(found@, found@.len()) is None
                &&& index.rules.ordered()
                &&& index.rules@ == rules_found(found@, found@.len())
                &&& index.coverage.rules_with_evidence == filled(
                    index.rules.pairs(),
                    index.rules.pairs().len(),
                )
                &&& index.coverage.total_rules == index.coverage.rules_with_evidence
                &&& index.confidences@ == confidences_found(found@, found@.len())
            },
            Err(error) => evidence_problem(found@, found@.len()) == Some(error@),
        },
{
    let ghost all = found@;
    let mut rules: TextMap<Vec<EvidenceRef>> = TextMap::new();
    let mut confidences: Vec<u32> = Vec::new();
    for item in it: found
        invariant
            all == found@,
            it.seq() == all,
            rules.ordered(),
            evidence_problem(all, it.index() as nat) is None,
            rules@ == rules_found(all, it.index() as nat),
            confidences@ == confidences_found(all, it.index() as nat),
    {
        let ghost n = it.index();
        assert(item == all[n]);
        let (rule_id, read) = item;
        match read {
            Ok(refs) => {
                let ghost before = confidences@;
                for i in 0..refs.len()
                    invariant
                        confidences@ == before + confidences_of(refs@).take(i as int),
                {
                    confidences.push(refs[i].confidence);
                    assert(confidences_of(refs@).take(i + 1) == confidences_of(refs@).take(
                        i as int,
                    ).push(refs@[i as int].confidence));
                }
                assert(confidences_of(refs@).take(refs@.len() as int) == confidences_of(refs@));
                rules.put(rule_id, refs);
            },
            Err(problem) => {
                let mut message = "decode evidence for rule ".to_owned();
                message.append(rule_id.as_str());
                message.append(": ");
                message.append(problem.as_str());
                proof {
                    problem_stays(all, (n + 1) as nat, all.len());
                }
                return Err(MsError::Config(message));
            },
        }
    }
    let count = count_filled(rules.entries());
    Ok(
        SkillEvidenceIndex {
            rules,
            coverage: EvidenceCoverage { total_rules: count, rules_with_evidence: count },
            confidences,
        },
    )
}

/// The evidence for a rule, by what it was read as: none, where there is no row.
pub fn rule_evidence(read: Option<Result<Vec<EvidenceRef>, String>>) -> (r: Result<
    Vec<EvidenceRef>,
    MsError,
>)
    ensures
        match read {
            None => r is Ok && r->Ok_0@.len() == 0,
            Some(Ok(refs)) => r == Ok::<Vec<EvidenceRef>, MsError>(refs),
            Some(Err(problem)) => r is Err && r->Err_0@ == ErrorView::Config(
                "decode evidence: "@ + problem@,
            ),
        },
{
    match read {
        None => Ok(Vec::new()),
        Some(Ok(refs)) => Ok(refs),
        Some(Err(problem)) => Err(MsError::Config(concat("decode evidence: ", problem.as_str()))),
    }
}

/// The error of the first of `n` rows whose evidence cannot be read, if there is one.
pub open spec fn record_problem(
    found: Seq<(EvidenceRow, Result<Vec<EvidenceRef>, String>)>,
    n: nat,
) -> Option<ErrorView>
    decreases n,
{
    if n == 0 {
        None
    } else {
        match record_problem(found, (n - 1) as nat) {
            Some(error) => Some(error),
            None => match found[n - 1].1 {
                Ok(_) => None,
                Err(problem) => Some(ErrorView::Config("decode evidence: "@ + problem@)),
            },
        }
    }
}

/// A record is that of a row, with the evidence that was read.
pub open spec fn is_record_of(
    record: EvidenceRecord,
    found: (EvidenceRow, Result<Vec<EvidenceRef>, String>),
) -> bool {
    &&& record.skill_id@ == found.0.skill_id@
    &&& record.rule_id@ == found.0.rule_id@
    &&& found.1 == Ok::<Vec<EvidenceRef>, String>(record.evidence)
    &&& record.updated_at@ == found.0.updated_at@
}

/// A problem in an early row is the problem of every longer list.
proof fn record_problem_stays(
    found: Seq<(EvidenceRow, Result<Vec<EvidenceRef>, String>)>,
    n: nat,
    m: nat,
)
    requires
        n <= m,
        record_problem(found, n) is Some,
    ensures
        record_problem(found, m) == record_problem(found, n),
    decreases m,
{
    if n < m {
        record_problem_stays(found, n, (m - 1) as nat);
    }
}

/// All evidence, by what the evidence of each row was read as. The first row whose evidence cannot
/// be read fails the whole.
pub fn evidence_records(found: Vec<(EvidenceRow, Result<Vec<EvidenceRef>, String>)>) -> (r: Result<
    Vec<EvidenceRecord>,
    MsError,
>)
    ensures
        match r {
            Ok(records) => {
                &&& record_problem(found@, found@.len()) is None
                &&& records@.len() == found@.len()
                &&& forall|i: int|
                    0 <= i < found@.len() ==> is_record_of(#[trigger] records@[i], found@[i])
            },
            Err(error) => record_problem(found@, found@.len()) == Some(error@),
        },
{
    let ghost all = found@;
    let mut out: Vec<EvidenceRecord> = Vec::new();
    for item in it: found
        invariant
            all == found@,
            it.seq() == all,
            out@.len() == it.index(),
            record_problem(all, it.index() as nat) is None,
            forall|i: int| 0 <= i < out@.len() ==> is_record_of(#[trigger] out@[i], all[i]),
    {
        let ghost n = it.index();
        assert(item == all[n]);
        let (raw, read) = item;
        match read {
            Ok(evidence) => {
                let EvidenceRow { skill_id, rule_id, evidence_json: _, updated_at } = raw;
                out.push(EvidenceRecord { skill_id, rule_id, evidence, updated_at });
            },
            Err(problem) => {
                proof {
                    record_problem_stays(all, (n + 1) as nat, all.len());
                }
                return Err(MsError::Config(concat("decode evidence: ", problem.as_str())));
            },
        }
    }
    Ok(out)
}

/// The statement that writes evidence. It replaces what is known of the same rule of the same
/// skill.
pub open spec fn evidence_written(values: Seq<ValueView>) -> StatementView {
    StatementView {
        sql: statement::upsert_sql(
            "INSERT INTO skill_evidence"@,
            StoredEvidence::names(),
            evidence_keys(),
            evidence_replaced(),
        ),
        params: values,
    }
}

/// The columns by which evidence is known.
pub open spec fn evidence_keys() -> Seq<Seq<char>> {
    seq!["skill_id"@, "rule_id"@]
}

/// The columns of evidence that are replaced where there is some for the same rule.
pub open spec fn evidence_replaced() -> Seq<Seq<char>> {
    seq!["evidence_json"@, "coverage_json"@, "updated_at"@]
}

impl Database {
    /// Writes the evidence for a rule, over what is known of it, at a time. The evidence and its
    /// coverage are given as JSON.
    pub fn upsert_evidence_at(
        skill_id: &str,
        rule_id: &str,
        evidence_json: &str,
        coverage_json: &str,
        updated_at: &str,
    ) -> (r: Statement)
        ensures
            r@ == evidence_written(seq![
                    ValueView::Text(skill_id@),
                    ValueView::Text(rule_id@),
                    ValueView::Text(evidence_json@),
                    ValueView::Text(coverage_json@),
                    ValueView::Text(updated_at@),
                ]),
    {
        let row = StoredEvidence {
            skill_id: skill_id.to_owned(),
            rule_id: rule_id.to_owned(),
            evidence_json: evidence_json.to_owned(),
            coverage_json: coverage_json.to_owned(),
            updated_at: updated_at.to_owned(),
        };
        let keys = vec!["skill_id", "rule_id"];
        let replaced = vec!["evidence_json", "coverage_json", "updated_at"];
        assert(statement::words(keys@) == evidence_keys());
        assert(statement::words(replaced@) == evidence_replaced());
        upsert_record("INSERT INTO skill_evidence", &row, &keys, &replaced)
    }

    /// Writes the evidence for a rule, over what is known of it, now. The evidence and its coverage
    /// are given as JSON.
    pub fn upsert_evidence(
        skill_id: &str,
        rule_id: &str,
        evidence_json: &str,
        coverage_json: &str,
    ) -> (r: Statement)
        ensures
            exists|updated_at: Seq<char>| #[trigger]
                sqlite::is_clock_text(updated_at) && r@ == evidence_written(seq![
                        ValueView::Text(skill_id@),
                        ValueView::Text(rule_id@),
                        ValueView::Text(evidence_json@),
                        ValueView::Text(coverage_json@),
                        ValueView::Text(updated_at),
                    ]),
    {
        let updated_at = now_text();
        assert(sqlite::is_clock_text(updated_at@));
        Database::upsert_evidence_at(
            skill_id,
            rule_id,
            evidence_json,
            coverage_json,
            updated_at.as_str(),
        )
    }

    /// All evidence for a skill. Each row is a [`RuleEvidenceRow`]; see [`evidence_index`].
    pub fn get_evidence(skill_id: &str) -> (r: Statement)
        ensures
            r@ == (StatementView {
                sql: statement::select_sql(
                    RuleEvidenceRow::names(),
                    statement::from_sql("skill_evidence"@, seq!["skill_id"@])
                        + " ORDER BY rule_id"@,
                ),
                params: seq![ValueView::Text(skill_id@)],
            }),
    {
        let keys = vec!["skill_id"];
        assert(statement::words(keys@) == seq!["skill_id"@]);
        let mut rest = from_text("skill_evidence", &keys);
        rest.append(" ORDER BY rule_id");
        select_records::<RuleEvidenceRow>(rest.as_str()).text(skill_id)
    }

    /// The evidence for a rule. The row holds a text; see [`rule_evidence`].
    pub fn get_rule_evidence(skill_id: &str, rule_id: &str) -> (r: Statement)
        ensures
            r@ == (StatementView {
                sql: statement::select_sql(
                    seq!["evidence_json"@],
                    statement::from_sql("skill_evidence"@, evidence_keys()),
                ),
                params: seq![ValueView::Text(skill_id@), ValueView::Text(rule_id@)],
            }),
    {
        let columns = vec!["evidence_json"];
        let keys = vec!["skill_id", "rule_id"];
        assert(statement::words(columns@) == seq!["evidence_json"@]);
        assert(statement::words(keys@) == evidence_keys());
        let rest = from_text("skill_evidence", &keys);
        select(&columns, rest.as_str()).text(skill_id).text(rule_id)
    }

    /// The evidence for all skills. Each row is an [`EvidenceRow`]; see [`evidence_records`].
    pub fn list_all_evidence() -> (r: Statement)
        ensures
            r@ == (StatementView {
                sql: statement::select_sql(
                    EvidenceRow::names(),
                    "skill_evidence ORDER BY skill_id, rule_id"@,
                ),
                params: seq![],
            }),
    {
        select_records::<EvidenceRow>("skill_evidence ORDER BY skill_id, rule_id")
    }
}

/// Where no rule has two rows, each row's evidence is found under its rule.
pub proof fn evidence_is_kept(found: Seq<(String, Result<Vec<EvidenceRef>, String>)>, i: int)
    requires
        0 <= i < found.len(),
        found[i].1 is Ok,
        forall|j: int| i < j < found.len() ==> (#[trigger] found[j]).0@ != found[i].0@,
    ensures
        rules_found(found, found.len()).dom().contains(found[i].0@),
        rules_found(found, found.len())[found[i].0@] == found[i].1->Ok_0,
{
    kept_until(found, i, found.len());
}

proof fn kept_until(found: Seq<(String, Result<Vec<EvidenceRef>, String>)>, i: int, n: nat)
    requires
        0 <= i < n <= found.len(),
        found[i].1 is Ok,
        forall|j: int| i < j < found.len() ==> (#[trigger] found[j]).0@ != found[i].0@,
    ensures
        rules_found(found, n).dom().contains(found[i].0@),
        rules_found(found, n)[found[i].0@] == found[i].1->Ok_0,
    decreases n,
{
    if i < n - 1 {
        kept_until(found, i, (n - 1) as nat);
    }
}

/// Evidence that was written is found: under its rule as the same text, and among the evidence for
/// its skill with the same rule, whatever was known before.
pub proof fn written_evidence_is_found(kept: TableView, record: StoredEvidence)
    requires
        table::is_keyed(kept, evidence_keys()),
    ensures
        ({
            let after = table::upserted(
                kept,
                StoredEvidence::names(),
                evidence_keys(),
                evidence_replaced(),
                record.values(),
            );
            let key = seq![ValueView::Text(record.skill_id@), ValueView::Text(record.rule_id@)];
            let whole = seq![
                ValueView::Text(record.rule_id@),
                ValueView::Text(record.evidence_json@),
                ValueView::Text(record.coverage_json@),
            ];
            &&& table::found(after, key, seq!["evidence_json"@]) == Some(
                seq![ValueView::Text(record.evidence_json@)],
            )
            &&& table::found(after, key, RuleEvidenceRow::names()) == Some(whole)
            &&& row::fits(whole, RuleEvidenceRow::columns())
            &&& table::is_keyed(after, evidence_keys())
        }),
{
    let names = StoredEvidence::names();
    assert(table::keys_of::<StoredEvidence>() == evidence_keys());
    assert(names.skip(2) == evidence_replaced());
    let key = seq![ValueView::Text(record.skill_id@), ValueView::Text(record.rule_id@)];
    assert(table::key_of(record) == key);
    table::written_record_is_found(kept, record, key);
    let held = table::with_record(kept, record)[key];
    let all = table::picked(held, names);
    assert(all == record.values());
    assert(all[1] == table::in_column(held, names[1]));
    assert(all[2] == table::in_column(held, names[2]));
    assert(all[3] == table::in_column(held, names[3]));
    assert(table::picked(held, seq!["evidence_json"@]) == seq![
        ValueView::Text(record.evidence_json@),
    ]);
    assert(table::picked(held, RuleEvidenceRow::names()) == seq![
        ValueView::Text(record.rule_id@),
        ValueView::Text(record.evidence_json@),
        ValueView::Text(record.coverage_json@),
    ]);
}

/// The key of the evidence for a rule of a skill.
pub open spec fn evidence_key(skill: Seq<char>, rule: ValueView) -> Seq<ValueView> {
    seq![ValueView::Text(skill), rule]
}

/// Rows are the evidence for a skill that a table holds, each rule once.
pub open spec fn lists_evidence(
    rows: Seq<Seq<ValueView>>,
    kept: TableView,
    skill: Seq<char>,
) -> bool {
    &&& forall|i: int|
        0 <= i < rows.len() ==> table::found(
            kept,
            evidence_key(skill, (#[trigger] rows[i])[0]),
            RuleEvidenceRow::names(),
        ) == Some(rows[i])
    &&& forall|i: int, j: int|
        0 <= i < j < rows.len() ==> (#[trigger] rows[i])[0] != (#[trigger] rows[j])[0]
    &&& forall|rule: Seq<char>| #[trigger]
        kept.dom().contains(evidence_key(skill, ValueView::Text(rule))) ==> exists|i: int|
            0 <= i < rows.len() && (#[trigger] rows[i])[0] == ValueView::Text(rule)
}

/// The index of the evidence for a skill agrees with what is found for each rule alone: it has the
/// rules that the table has, each with what its text is read as.
pub proof fn index_agrees_with_rules(
    kept: TableView,
    skill: Seq<char>,
    rule: Seq<char>,
    rows: Seq<Seq<ValueView>>,
    found: Seq<(String, Result<Vec<EvidenceRef>, String>)>,
    reading: spec_fn(Seq<char>) -> Result<Vec<EvidenceRef>, String>,
)
    requires
        lists_evidence(rows, kept, skill),
        row::all_fit(rows, RuleEvidenceRow::columns()),
        found.len() == rows.len(),
        forall|i: int|
            0 <= i < rows.len() ==> (#[trigger] found[i]).0@ == row::text_in(rows[i][0])
                && found[i].1 == reading(row::text_in(rows[i][1])),
        evidence_problem(found, found.len()) is None,
    ensures
        ({
            let rules = rules_found(found, found.len());
            match table::found(
                kept,
                evidence_key(skill, ValueView::Text(rule)),
                seq!["evidence_json"@],
            ) {
                None => !rules.dom().contains(rule),
                Some(held) => rules.dom().contains(rule) && reading(row::text_in(held[0])) == Ok::<
                    Vec<EvidenceRef>,
                    String,
                >(rules[rule]),
            }
        }),
{
    let rules = rules_found(found, found.len());
    let key = evidence_key(skill, ValueView::Text(rule));
    assert forall|i: int| 0 <= i < rows.len() implies (#[trigger] rows[i])[0] == ValueView::Text(
        row::text_in(rows[i][0]),
    ) by {
        assert(row::fits(rows[i], RuleEvidenceRow::columns()));
        assert(row::column_problem(rows[i], 0, RuleEvidenceRow::columns()[0]) is None);
    }
    if kept.dom().contains(key) {
        let i = choose|i: int|
            0 <= i < rows.len() && (#[trigger] rows[i])[0] == ValueView::Text(rule);
        no_problem_is_read(found, found.len(), i);
        assert forall|j: int| i < j < found.len() implies (#[trigger] found[j]).0@
            != found[i].0@ by {
            assert(rows[i][0] != rows[j][0]);
        }
        evidence_is_kept(found, i);
        let held = kept[key];
        assert(table::picked(held, RuleEvidenceRow::names()) == rows[i]);
        assert(rows[i][1] == table::in_column(held, RuleEvidenceRow::names()[1]));
    } else if rules.dom().contains(rule) {
        let i = found_rule_has_a_row(found, found.len(), rule);
        assert(rows[i][0] == ValueView::Text(rule));
        assert(table::found(kept, evidence_key(skill, rows[i][0]), RuleEvidenceRow::names())
            is Some);
    }
}

proof fn no_problem_is_read(
    found: Seq<(String, Result<Vec<EvidenceRef>, String>)>,
    n: nat,
    i: int,
)
    requires
        0 <= i < n <= found.len(),
        evidence_problem(found, n) is None,
    ensures
        found[i].1 is Ok,
    decreases n,
{
    if i < n - 1 {
        no_problem_is_read(found, (n - 1) as nat, i);
    }
}

proof fn found_rule_has_a_row(
    found: Seq<(String, Result<Vec<EvidenceRef>, String>)>,
    n: nat,
    rule: Seq<char>,
) -> (i: int)
    requires
        n <= found.len(),
        rules_found(found, n).dom().contains(rule),
    ensures
        0 <= i < n,
        found[i].0@ == rule,
    decreases n,
{
    if found[n - 1].1 is Ok && found[n - 1].0@ == rule {
        n - 1
    } else {
        found_rule_has_a_row(found, (n - 1) as nat, rule)
    }
}

} // verus!
