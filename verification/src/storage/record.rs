//! The records of the registry.

use crate::storage::row;
use crate::storage::row::{
    integer_of, opt_integer_of, opt_text_of, read_row, real_of, text_of, Columns, FromRow, Kind,
    Row, RowError, ToRow,
};
use crate::storage::statement;
use crate::storage::statement::{
    bound_flag, bound_number, bound_opt_integer, bound_opt_text, bound_text, Real, SqlValue,
    ValueView,
};
use crate::storage::table::Keyed;
use crate::text;
use vstd::prelude::*;

verus! {

/// A skill of the registry.
#[derive(Debug, Clone, PartialEq, Eq)]
pub struct SkillRecord {
    pub id: String,
    pub name: String,
    pub description: String,
    pub version: Option<String>,
    pub author: Option<String>,
    pub source_path: String,
    pub source_layer: String,
    pub git_remote: Option<String>,
    pub git_commit: Option<String>,
    pub content_hash: String,
    pub body: String,
    pub metadata_json: String,
    pub assets_json: String,
    pub token_count: i64,
    pub quality_score: Real,
    pub indexed_at: String,
    pub modified_at: String,
    pub is_deprecated: bool,
    pub deprecation_reason: Option<String>,
}

impl FromRow for SkillRecord {
    open spec fn columns() -> Seq<Kind> {
        seq![
            Kind::Text,
            Kind::Text,
            Kind::Text,
            Kind::OptText,
            Kind::OptText,
            Kind::Text,
            Kind::Text,
            Kind::OptText,
            Kind::OptText,
            Kind::Text,
            Kind::Text,
            Kind::Text,
            Kind::Text,
            Kind::Integer,
            Kind::Real,
            Kind::Text,
            Kind::Text,
            Kind::Integer,
            Kind::OptText,
        ]
    }

    open spec fn holds(self, row: Seq<ValueView>) -> bool {
        &&& self.id@ == row::text_in(row[0])
        &&& self.name@ == row::text_in(row[1])
        &&& self.description@ == row::text_in(row[2])
        &&& text::opt_text(self.version) == row::opt_text_in(row[3])
        &&& text::opt_text(self.author) == row::opt_text_in(row[4])
        &&& self.source_path@ == row::text_in(row[5])
        &&& self.source_layer@ == row::text_in(row[6])
        &&& text::opt_text(self.git_remote) == row::opt_text_in(row[7])
        &&& text::opt_text(self.git_commit) == row::opt_text_in(row[8])
        &&& self.content_hash@ == row::text_in(row[9])
        &&& self.body@ == row::text_in(row[10])
        &&& self.metadata_json@ == row::text_in(row[11])
        &&& self.assets_json@ == row::text_in(row[12])
        &&& self.token_count == row::integer_in(row[13])
        &&& self.quality_score == row::real_in(row[14])
        &&& self.indexed_at@ == row::text_in(row[15])
        &&& self.modified_at@ == row::text_in(row[16])
        &&& self.is_deprecated == (row::integer_in(row[17]) != 0)
        &&& text::opt_text(self.deprecation_reason) == row::opt_text_in(row[18])
    }

    fn kinds() -> (r: Vec<Kind>) {
        vec![
            Kind::Text,
            Kind::Text,
            Kind::Text,
            Kind::OptText,
            Kind::OptText,
            Kind::Text,
            Kind::Text,
            Kind::OptText,
            Kind::OptText,
            Kind::Text,
            Kind::Text,
            Kind::Text,
            Kind::Text,
            Kind::Integer,
            Kind::Real,
            Kind::Text,
            Kind::Text,
            Kind::Integer,
            Kind::OptText,
        ]
    }

    fn take(row: &Row) -> (r: Self) {
        proof {
            let held = statement::values(row@);
            assert(row::column_problem(held, 18, Self::columns()[18]) is None);
        }
        SkillRecord {
            id: text_of(&row[0]),
            name: text_of(&row[1]),
            description: text_of(&row[2]),
            version: opt_text_of(&row[3]),
            author: opt_text_of(&row[4]),
            source_path: text_of(&row[5]),
            source_layer: text_of(&row[6]),
            git_remote: opt_text_of(&row[7]),
            git_commit: opt_text_of(&row[8]),
            content_hash: text_of(&row[9]),
            body: text_of(&row[10]),
            metadata_json: text_of(&row[11]),
            assets_json: text_of(&row[12]),
            token_count: integer_of(&row[13]),
            quality_score: real_of(&row[14]),
            indexed_at: text_of(&row[15]),
            modified_at: text_of(&row[16]),
            is_deprecated: integer_of(&row[17]) != 0,
            deprecation_reason: opt_text_of(&row[18]),
        }
    }
}

impl Columns for SkillRecord {
    open spec fn names() -> Seq<Seq<char>> {
        seq![
            "id"@,
            "name"@,
            "description"@,
            "version"@,
            "author"@,
            "source_path"@,
            "source_layer"@,
            "git_remote"@,
            "git_commit"@,
            "content_hash"@,
            "body"@,
            "metadata_json"@,
            "assets_json"@,
            "token_count"@,
            "quality_score"@,
            "indexed_at"@,
            "modified_at"@,
            "is_deprecated"@,
            "deprecation_reason"@,
        ]
    }

    proof fn names_match() {
    }

    fn name_list() -> (r: Vec<&'static str>) {
        let list = vec![
            "id",
            "name",
            "description",
            "version",
            "author",
            "source_path",
            "source_layer",
            "git_remote",
            "git_commit",
            "content_hash",
            "body",
            "metadata_json",
            "assets_json",
            "token_count",
            "quality_score",
            "indexed_at",
            "modified_at",
            "is_deprecated",
            "deprecation_reason",
        ];
        assert(statement::words(list@) == Self::names());
        list
    }
}

impl ToRow for SkillRecord {
    open spec fn values(self) -> Seq<ValueView> {
        seq![
            ValueView::Text(self.id@),
            ValueView::Text(self.name@),
            ValueView::Text(self.description@),
            statement::opt_text_value(text::opt_text(self.version)),
            statement::opt_text_value(text::opt_text(self.author)),
            ValueView::Text(self.source_path@),
            ValueView::Text(self.source_layer@),
            statement::opt_text_value(text::opt_text(self.git_remote)),
            statement::opt_text_value(text::opt_text(self.git_commit)),
            ValueView::Text(self.content_hash@),
            ValueView::Text(self.body@),
            ValueView::Text(self.metadata_json@),
            ValueView::Text(self.assets_json@),
            ValueView::Integer(self.token_count),
            statement::real_value(self.quality_score),
            ValueView::Text(self.indexed_at@),
            ValueView::Text(self.modified_at@),
            statement::flag_value(self.is_deprecated),
            statement::opt_text_value(text::opt_text(self.deprecation_reason)),
        ]
    }

    proof fn reads_back(self) {
        assert forall|read: Self| #[trigger] read.holds(self.values()) implies read.values()
            == self.values() by {
            assert(read.values() =~= self.values());
        }
    }

    fn bound(&self) -> (r: Vec<SqlValue>) {
        let list = vec![
            bound_text(self.id.as_str()),
            bound_text(self.name.as_str()),
            bound_text(self.description.as_str()),
            bound_opt_text(&self.version),
            bound_opt_text(&self.author),
            bound_text(self.source_path.as_str()),
            bound_text(self.source_layer.as_str()),
            bound_opt_text(&self.git_remote),
            bound_opt_text(&self.git_commit),
            bound_text(self.content_hash.as_str()),
            bound_text(self.body.as_str()),
            bound_text(self.metadata_json.as_str()),
            bound_text(self.assets_json.as_str()),
            SqlValue::Integer(self.token_count),
            bound_number(self.quality_score),
            bound_text(self.indexed_at.as_str()),
            bound_text(self.modified_at.as_str()),
            bound_flag(self.is_deprecated),
            bound_opt_text(&self.deprecation_reason),
        ];
        assert(statement::values(list@) == self.values());
        list
    }
}

impl Keyed for SkillRecord {
    open spec fn key_length() -> nat {
        1
    }

    proof fn names_differ() {
        reveal_strlit("id");
        reveal_strlit("name");
        reveal_strlit("description");
        reveal_strlit("version");
        reveal_strlit("author");
        reveal_strlit("source_path");
        reveal_strlit("source_layer");
        reveal_strlit("git_remote");
        reveal_strlit("git_commit");
        reveal_strlit("content_hash");
        reveal_strlit("body");
        reveal_strlit("metadata_json");
        reveal_strlit("assets_json");
        reveal_strlit("token_count");
        reveal_strlit("quality_score");
        reveal_strlit("indexed_at");
        reveal_strlit("modified_at");
        reveal_strlit("is_deprecated");
        reveal_strlit("deprecation_reason");
        let names = Self::names();
        let marks = seq![
            10010010502int,
            10109711004int,
            11010110011int,
            11010111807int,
            11411709706int,
            10411111511int,
            11411111512int,
            10110510310int,
            11610510310int,
            10411109912int,
            12111109804int,
            11010110913int,
            11011509711int,
            11611111611int,
            10111711313int,
            11611010510int,
            11611110911int,
            10011510513int,
            11010110018int,
        ];
        assert(text::mark("id"@) == marks[0]);
        assert(text::mark("name"@) == marks[1]);
        assert(text::mark("description"@) == marks[2]);
        assert(text::mark("version"@) == marks[3]);
        assert(text::mark("author"@) == marks[4]);
        assert(text::mark("source_path"@) == marks[5]);
        assert(text::mark("source_layer"@) == marks[6]);
        assert(text::mark("git_remote"@) == marks[7]);
        assert(text::mark("git_commit"@) == marks[8]);
        assert(text::mark("content_hash"@) == marks[9]);
        assert(text::mark("body"@) == marks[10]);
        assert(text::mark("metadata_json"@) == marks[11]);
        assert(text::mark("assets_json"@) == marks[12]);
        assert(text::mark("token_count"@) == marks[13]);
        assert(text::mark("quality_score"@) == marks[14]);
        assert(text::mark("indexed_at"@) == marks[15]);
        assert(text::mark("modified_at"@) == marks[16]);
        assert(text::mark("is_deprecated"@) == marks[17]);
        assert(text::mark("deprecation_reason"@) == marks[18]);
        assert forall|i: int, j: int| 0 <= i < j < names.len() implies names[i] != names[j] by {
            assert(text::mark(names[i]) == marks[i]);
            assert(text::mark(names[j]) == marks[j]);
        }
    }
}

/// The skill that a row is.
pub fn skill_from_row(row: &Row) -> (r: Result<SkillRecord, RowError>)
    ensures
        r is Ok <==> row::fits(statement::values(row@), SkillRecord::columns()),
        match r {
            Ok(skill) => skill.holds(statement::values(row@)),
            Err(problem) => row::row_problem(
                statement::values(row@),
                SkillRecord::columns(),
                SkillRecord::columns().len(),
            ) == Some(problem@),
        },
{
    read_row::<SkillRecord>(row)
}

/// Where the source of an indexed skill was found on disk, and under which configured root.
///
/// This is not the `source_path` of the skill, which ends up as a place in the archive and so can
/// never answer whether the true source is still there.
#[derive(Debug, Clone, PartialEq, Eq)]
pub struct SkillOriginRecord {
    pub skill_id: String,
    pub skill_name: String,
    pub origin_path: String,
    pub origin_root: String,
    pub recorded_at: String,
}

impl FromRow for SkillOriginRecord {
    open spec fn columns() -> Seq<Kind> {
        seq![
            Kind::Text,
            Kind::Text,
            Kind::Text,
            Kind::Text,
            Kind::Text,
        ]
    }

    open spec fn holds(self, row: Seq<ValueView>) -> bool {
        &&& self.skill_id@ == row::text_in(row[0])
        &&& self.skill_name@ == row::text_in(row[1])
        &&& self.origin_path@ == row::text_in(row[2])
        &&& self.origin_root@ == row::text_in(row[3])
        &&& self.recorded_at@ == row::text_in(row[4])
    }

    fn kinds() -> (r: Vec<Kind>) {
        vec![
            Kind::Text,
            Kind::Text,
            Kind::Text,
            Kind::Text,
            Kind::Text,
        ]
    }

    fn take(row: &Row) -> (r: Self) {
        proof {
            let held = statement::values(row@);
            assert(row::column_problem(held, 4, Self::columns()[4]) is None);
        }
        SkillOriginRecord {
            skill_id: text_of(&row[0]),
            skill_name: text_of(&row[1]),
            origin_path: text_of(&row[2]),
            origin_root: text_of(&row[3]),
            recorded_at: text_of(&row[4]),
        }
    }
}

impl Columns for SkillOriginRecord {
    open spec fn names() -> Seq<Seq<char>> {
        seq![
            "o.skill_id"@,
            "s.name"@,
            "o.origin_path"@,
            "o.origin_root"@,
            "o.recorded_at"@,
        ]
    }

    proof fn names_match() {
    }

    fn name_list() -> (r: Vec<&'static str>) {
        let list = vec![
            "o.skill_id",
            "s.name",
            "o.origin_path",
            "o.origin_root",
            "o.recorded_at",
        ];
        assert(statement::words(list@) == Self::names());
        list
    }
}

/// The path and the root of a recorded origin.
#[derive(Debug, Clone, PartialEq, Eq)]
pub struct OriginPlace {
    pub origin_path: String,
    pub origin_root: String,
}

impl FromRow for OriginPlace {
    open spec fn columns() -> Seq<Kind> {
        seq![
            Kind::Text,
            Kind::Text,
        ]
    }

    open spec fn holds(self, row: Seq<ValueView>) -> bool {
        &&& self.origin_path@ == row::text_in(row[0])
        &&& self.origin_root@ == row::text_in(row[1])
    }

    fn kinds() -> (r: Vec<Kind>) {
        vec![
            Kind::Text,
            Kind::Text,
        ]
    }

    fn take(row: &Row) -> (r: Self) {
        proof {
            let held = statement::values(row@);
            assert(row::column_problem(held, 1, Self::columns()[1]) is None);
        }
        OriginPlace {
            origin_path: text_of(&row[0]),
            origin_root: text_of(&row[1]),
        }
    }
}

impl Columns for OriginPlace {
    open spec fn names() -> Seq<Seq<char>> {
        seq![
            "origin_path"@,
            "origin_root"@,
        ]
    }

    proof fn names_match() {
    }

    fn name_list() -> (r: Vec<&'static str>) {
        let list = vec![
            "origin_path",
            "origin_root",
        ];
        assert(statement::words(list@) == Self::names());
        list
    }
}

/// A skill as a search sees it.
#[derive(Debug, Clone, PartialEq, Eq)]
pub struct SkillSearchCandidate {
    pub id: String,
    pub source_layer: String,
    pub metadata_json: String,
    pub quality_score: Real,
    pub is_deprecated: bool,
}

impl FromRow for SkillSearchCandidate {
    open spec fn columns() -> Seq<Kind> {
        seq![
            Kind::Text,
            Kind::Text,
            Kind::Text,
            Kind::Real,
            Kind::Integer,
        ]
    }

    open spec fn holds(self, row: Seq<ValueView>) -> bool {
        &&& self.id@ == row::text_in(row[0])
        &&& self.source_layer@ == row::text_in(row[1])
        &&& self.metadata_json@ == row::text_in(row[2])
        &&& self.quality_score == row::real_in(row[3])
        &&& self.is_deprecated == (row::integer_in(row[4]) != 0)
    }

    fn kinds() -> (r: Vec<Kind>) {
        vec![
            Kind::Text,
            Kind::Text,
            Kind::Text,
            Kind::Real,
            Kind::Integer,
        ]
    }

    fn take(row: &Row) -> (r: Self) {
        proof {
            let held = statement::values(row@);
            assert(row::column_problem(held, 4, Self::columns()[4]) is None);
        }
        SkillSearchCandidate {
            id: text_of(&row[0]),
            source_layer: text_of(&row[1]),
            metadata_json: text_of(&row[2]),
            quality_score: real_of(&row[3]),
            is_deprecated: integer_of(&row[4]) != 0,
        }
    }
}

impl Columns for SkillSearchCandidate {
    open spec fn names() -> Seq<Seq<char>> {
        seq![
            "id"@,
            "source_layer"@,
            "metadata_json"@,
            "quality_score"@,
            "is_deprecated"@,
        ]
    }

    proof fn names_match() {
    }

    fn name_list() -> (r: Vec<&'static str>) {
        let list = vec![
            "id",
            "source_layer",
            "metadata_json",
            "quality_score",
            "is_deprecated",
        ];
        assert(statement::words(list@) == Self::names());
        list
    }
}

/// A skill as a search reads it: the candidate, and the three texts that are searched.
#[derive(Debug, Clone, PartialEq, Eq)]
pub struct SearchRow {
    pub id: String,
    pub source_layer: String,
    pub metadata_json: String,
    pub quality_score: Real,
    pub is_deprecated: bool,
    pub name: String,
    pub description: String,
    pub body: String,
}

impl FromRow for SearchRow {
    open spec fn columns() -> Seq<Kind> {
        seq![
            Kind::Text,
            Kind::Text,
            Kind::Text,
            Kind::Real,
            Kind::Integer,
            Kind::Text,
            Kind::Text,
            Kind::Text,
        ]
    }

    open spec fn holds(self, row: Seq<ValueView>) -> bool {
        &&& self.id@ == row::text_in(row[0])
        &&& self.source_layer@ == row::text_in(row[1])
        &&& self.metadata_json@ == row::text_in(row[2])
        &&& self.quality_score == row::real_in(row[3])
        &&& self.is_deprecated == (row::integer_in(row[4]) != 0)
        &&& self.name@ == row::text_in(row[5])
        &&& self.description@ == row::text_in(row[6])
        &&& self.body@ == row::text_in(row[7])
    }

    fn kinds() -> (r: Vec<Kind>) {
        vec![
            Kind::Text,
            Kind::Text,
            Kind::Text,
            Kind::Real,
            Kind::Integer,
            Kind::Text,
            Kind::Text,
            Kind::Text,
        ]
    }

    fn take(row: &Row) -> (r: Self) {
        proof {
            let held = statement::values(row@);
            assert(row::column_problem(held, 7, Self::columns()[7]) is None);
        }
        SearchRow {
            id: text_of(&row[0]),
            source_layer: text_of(&row[1]),
            metadata_json: text_of(&row[2]),
            quality_score: real_of(&row[3]),
            is_deprecated: integer_of(&row[4]) != 0,
            name: text_of(&row[5]),
            description: text_of(&row[6]),
            body: text_of(&row[7]),
        }
    }
}

impl Columns for SearchRow {
    open spec fn names() -> Seq<Seq<char>> {
        seq![
            "id"@,
            "source_layer"@,
            "metadata_json"@,
            "quality_score"@,
            "is_deprecated"@,
            "name"@,
            "description"@,
            "body"@,
        ]
    }

    proof fn names_match() {
    }

    fn name_list() -> (r: Vec<&'static str>) {
        let list = vec![
            "id",
            "source_layer",
            "metadata_json",
            "quality_score",
            "is_deprecated",
            "name",
            "description",
            "body",
        ];
        assert(statement::words(list@) == Self::names());
        list
    }
}

/// What an alias stands for.
#[derive(Debug, Clone, PartialEq, Eq)]
pub struct AliasResolution {
    pub canonical_id: String,
    pub alias_type: String,
}

impl FromRow for AliasResolution {
    open spec fn columns() -> Seq<Kind> {
        seq![
            Kind::Text,
            Kind::Text,
        ]
    }

    open spec fn holds(self, row: Seq<ValueView>) -> bool {
        &&& self.canonical_id@ == row::text_in(row[0])
        &&& self.alias_type@ == row::text_in(row[1])
    }

    fn kinds() -> (r: Vec<Kind>) {
        vec![
            Kind::Text,
            Kind::Text,
        ]
    }

    fn take(row: &Row) -> (r: Self) {
        proof {
            let held = statement::values(row@);
            assert(row::column_problem(held, 1, Self::columns()[1]) is None);
        }
        AliasResolution {
            canonical_id: text_of(&row[0]),
            alias_type: text_of(&row[1]),
        }
    }
}

impl Columns for AliasResolution {
    open spec fn names() -> Seq<Seq<char>> {
        seq![
            "skill_id"@,
            "alias_type"@,
        ]
    }

    proof fn names_match() {
    }

    fn name_list() -> (r: Vec<&'static str>) {
        let list = vec![
            "skill_id",
            "alias_type",
        ];
        assert(statement::words(list@) == Self::names());
        list
    }
}

/// An alias of a skill.
#[derive(Debug, Clone, PartialEq, Eq)]
pub struct AliasRecord {
    pub alias: String,
    pub skill_id: String,
    pub alias_type: String,
    pub created_at: String,
}

impl FromRow for AliasRecord {
    open spec fn columns() -> Seq<Kind> {
        seq![
            Kind::Text,
            Kind::Text,
            Kind::Text,
            Kind::Text,
        ]
    }

    open spec fn holds(self, row: Seq<ValueView>) -> bool {
        &&& self.alias@ == row::text_in(row[0])
        &&& self.skill_id@ == row::text_in(row[1])
        &&& self.alias_type@ == row::text_in(row[2])
        &&& self.created_at@ == row::text_in(row[3])
    }

    fn kinds() -> (r: Vec<Kind>) {
        vec![
            Kind::Text,
            Kind::Text,
            Kind::Text,
            Kind::Text,
        ]
    }

    fn take(row: &Row) -> (r: Self) {
        proof {
            let held = statement::values(row@);
            assert(row::column_problem(held, 3, Self::columns()[3]) is None);
        }
        AliasRecord {
            alias: text_of(&row[0]),
            skill_id: text_of(&row[1]),
            alias_type: text_of(&row[2]),
            created_at: text_of(&row[3]),
        }
    }
}

impl Columns for AliasRecord {
    open spec fn names() -> Seq<Seq<char>> {
        seq![
            "alias"@,
            "skill_id"@,
            "alias_type"@,
            "created_at"@,
        ]
    }

    proof fn names_match() {
    }

    fn name_list() -> (r: Vec<&'static str>) {
        let list = vec![
            "alias",
            "skill_id",
            "alias_type",
            "created_at",
        ];
        assert(statement::words(list@) == Self::names());
        list
    }
}

impl ToRow for AliasRecord {
    open spec fn values(self) -> Seq<ValueView> {
        seq![
            ValueView::Text(self.alias@),
            ValueView::Text(self.skill_id@),
            ValueView::Text(self.alias_type@),
            ValueView::Text(self.created_at@),
        ]
    }

    proof fn reads_back(self) {
        assert forall|read: Self| #[trigger] read.holds(self.values()) implies read.values()
            == self.values() by {
            assert(read.values() =~= self.values());
        }
    }

    fn bound(&self) -> (r: Vec<SqlValue>) {
        let list = vec![
            bound_text(self.alias.as_str()),
            bound_text(self.skill_id.as_str()),
            bound_text(self.alias_type.as_str()),
            bound_text(self.created_at.as_str()),
        ];
        assert(statement::values(list@) == self.values());
        list
    }
}

impl Keyed for AliasRecord {
    open spec fn key_length() -> nat {
        1
    }

    proof fn names_differ() {
        reveal_strlit("alias");
        reveal_strlit("skill_id");
        reveal_strlit("alias_type");
        reveal_strlit("created_at");
        let names = Self::names();
        let marks = seq![
            11510809705int,
            10010711508int,
            10110809710int,
            11611409910int,
        ];
        assert(text::mark("alias"@) == marks[0]);
        assert(text::mark("skill_id"@) == marks[1]);
        assert(text::mark("alias_type"@) == marks[2]);
        assert(text::mark("created_at"@) == marks[3]);
        assert forall|i: int, j: int| 0 <= i < j < names.len() implies names[i] != names[j] by {
            assert(text::mark(names[i]) == marks[i]);
            assert(text::mark(names[j]) == marks[j]);
        }
    }
}

/// A review of something in quarantine.
#[derive(Debug, Clone)]
pub struct QuarantineReview {
    pub id: String,
    pub quarantine_id: String,
    pub action: String,
    pub reason: Option<String>,
    pub created_at: String,
}

impl FromRow for QuarantineReview {
    open spec fn columns() -> Seq<Kind> {
        seq![
            Kind::Text,
            Kind::Text,
            Kind::Text,
            Kind::OptText,
            Kind::Text,
        ]
    }

    open spec fn holds(self, row: Seq<ValueView>) -> bool {
        &&& self.id@ == row::text_in(row[0])
        &&& self.quarantine_id@ == row::text_in(row[1])
        &&& self.action@ == row::text_in(row[2])
        &&& text::opt_text(self.reason) == row::opt_text_in(row[3])
        &&& self.created_at@ == row::text_in(row[4])
    }

    fn kinds() -> (r: Vec<Kind>) {
        vec![
            Kind::Text,
            Kind::Text,
            Kind::Text,
            Kind::OptText,
            Kind::Text,
        ]
    }

    fn take(row: &Row) -> (r: Self) {
        proof {
            let held = statement::values(row@);
            assert(row::column_problem(held, 4, Self::columns()[4]) is None);
        }
        QuarantineReview {
            id: text_of(&row[0]),
            quarantine_id: text_of(&row[1]),
            action: text_of(&row[2]),
            reason: opt_text_of(&row[3]),
            created_at: text_of(&row[4]),
        }
    }
}

impl Columns for QuarantineReview {
    open spec fn names() -> Seq<Seq<char>> {
        seq![
            "id"@,
            "quarantine_id"@,
            "action"@,
            "reason"@,
            "created_at"@,
        ]
    }

    proof fn names_match() {
    }

    fn name_list() -> (r: Vec<&'static str>) {
        let list = vec![
            "id",
            "quarantine_id",
            "action",
            "reason",
            "created_at",
        ];
        assert(statement::words(list@) == Self::names());
        list
    }
}

impl ToRow for QuarantineReview {
    open spec fn values(self) -> Seq<ValueView> {
        seq![
            ValueView::Text(self.id@),
            ValueView::Text(self.quarantine_id@),
            ValueView::Text(self.action@),
            statement::opt_text_value(text::opt_text(self.reason)),
            ValueView::Text(self.created_at@),
        ]
    }

    proof fn reads_back(self) {
        assert forall|read: Self| #[trigger] read.holds(self.values()) implies read.values()
            == self.values() by {
            assert(read.values() =~= self.values());
        }
    }

    fn bound(&self) -> (r: Vec<SqlValue>) {
        let list = vec![
            bound_text(self.id.as_str()),
            bound_text(self.quarantine_id.as_str()),
            bound_text(self.action.as_str()),
            bound_opt_text(&self.reason),
            bound_text(self.created_at.as_str()),
        ];
        assert(statement::values(list@) == self.values());
        list
    }
}

/// Feedback on a skill.
#[derive(Debug, Clone)]
pub struct SkillFeedbackRecord {
    pub id: String,
    pub skill_id: String,
    pub feedback_type: String,
    pub rating: Option<i64>,
    pub comment: Option<String>,
    pub created_at: String,
}

impl FromRow for SkillFeedbackRecord {
    open spec fn columns() -> Seq<Kind> {
        seq![
            Kind::Text,
            Kind::Text,
            Kind::Text,
            Kind::OptInteger,
            Kind::OptText,
            Kind::Text,
        ]
    }

    open spec fn holds(self, row: Seq<ValueView>) -> bool {
        &&& self.id@ == row::text_in(row[0])
        &&& self.skill_id@ == row::text_in(row[1])
        &&& self.feedback_type@ == row::text_in(row[2])
        &&& self.rating == row::opt_integer_in(row[3])
        &&& text::opt_text(self.comment) == row::opt_text_in(row[4])
        &&& self.created_at@ == row::text_in(row[5])
    }

    fn kinds() -> (r: Vec<Kind>) {
        vec![
            Kind::Text,
            Kind::Text,
            Kind::Text,
            Kind::OptInteger,
            Kind::OptText,
            Kind::Text,
        ]
    }

    fn take(row: &Row) -> (r: Self) {
        proof {
            let held = statement::values(row@);
            assert(row::column_problem(held, 5, Self::columns()[5]) is None);
        }
        SkillFeedbackRecord {
            id: text_of(&row[0]),
            skill_id: text_of(&row[1]),
            feedback_type: text_of(&row[2]),
            rating: opt_integer_of(&row[3]),
            comment: opt_text_of(&row[4]),
            created_at: text_of(&row[5]),
        }
    }
}

impl Columns for SkillFeedbackRecord {
    open spec fn names() -> Seq<Seq<char>> {
        seq![
            "id"@,
            "skill_id"@,
            "feedback_type"@,
            "rating"@,
            "comment"@,
            "created_at"@,
        ]
    }

    proof fn names_match() {
    }

    fn name_list() -> (r: Vec<&'static str>) {
        let list = vec![
            "id",
            "skill_id",
            "feedback_type",
            "rating",
            "comment",
            "created_at",
        ];
        assert(statement::words(list@) == Self::names());
        list
    }
}

impl ToRow for SkillFeedbackRecord {
    open spec fn values(self) -> Seq<ValueView> {
        seq![
            ValueView::Text(self.id@),
            ValueView::Text(self.skill_id@),
            ValueView::Text(self.feedback_type@),
            statement::opt_integer_value(self.rating),
            statement::opt_text_value(text::opt_text(self.comment)),
            ValueView::Text(self.created_at@),
        ]
    }

    proof fn reads_back(self) {
        assert forall|read: Self| #[trigger] read.holds(self.values()) implies read.values()
            == self.values() by {
            assert(read.values() =~= self.values());
        }
    }

    fn bound(&self) -> (r: Vec<SqlValue>) {
        let list = vec![
            bound_text(self.id.as_str()),
            bound_text(self.skill_id.as_str()),
            bound_text(self.feedback_type.as_str()),
            bound_opt_integer(self.rating),
            bound_opt_text(&self.comment),
            bound_text(self.created_at.as_str()),
        ];
        assert(statement::values(list@) == self.values());
        list
    }
}

impl Keyed for SkillFeedbackRecord {
    open spec fn key_length() -> nat {
        1
    }

    proof fn names_differ() {
        reveal_strlit("id");
        reveal_strlit("skill_id");
        reveal_strlit("feedback_type");
        reveal_strlit("rating");
        reveal_strlit("comment");
        reveal_strlit("created_at");
        let names = Self::names();
        let marks = seq![
            10010010502int,
            10010711508int,
            10110110213int,
            10309711406int,
            11611109907int,
            11611409910int,
        ];
        assert(text::mark("id"@) == marks[0]);
        assert(text::mark("skill_id"@) == marks[1]);
        assert(text::mark("feedback_type"@) == marks[2]);
        assert(text::mark("rating"@) == marks[3]);
        assert(text::mark("comment"@) == marks[4]);
        assert(text::mark("created_at"@) == marks[5]);
        assert forall|i: int, j: int| 0 <= i < j < names.len() implies names[i] != names[j] by {
            assert(text::mark(names[i]) == marks[i]);
            assert(text::mark(names[j]) == marks[j]);
        }
    }
}

/// A user's preference for a skill.
#[derive(Debug, Clone)]
pub struct UserPreferenceRecord {
    pub id: String,
    pub skill_id: String,
    pub preference_type: String,
    pub created_at: String,
}

impl FromRow for UserPreferenceRecord {
    open spec fn columns() -> Seq<Kind> {
        seq![
            Kind::Text,
            Kind::Text,
            Kind::Text,
            Kind::Text,
        ]
    }

    open spec fn holds(self, row: Seq<ValueView>) -> bool {
        &&& self.id@ == row::text_in(row[0])
        &&& self.skill_id@ == row::text_in(row[1])
        &&& self.preference_type@ == row::text_in(row[2])
        &&& self.created_at@ == row::text_in(row[3])
    }

    fn kinds() -> (r: Vec<Kind>) {
        vec![
            Kind::Text,
            Kind::Text,
            Kind::Text,
            Kind::Text,
        ]
    }

    fn take(row: &Row) -> (r: Self) {
        proof {
            let held = statement::values(row@);
            assert(row::column_problem(held, 3, Self::columns()[3]) is None);
        }
        UserPreferenceRecord {
            id: text_of(&row[0]),
            skill_id: text_of(&row[1]),
            preference_type: text_of(&row[2]),
            created_at: text_of(&row[3]),
        }
    }
}

impl Columns for UserPreferenceRecord {
    open spec fn names() -> Seq<Seq<char>> {
        seq![
            "id"@,
            "skill_id"@,
            "preference_type"@,
            "created_at"@,
        ]
    }

    proof fn names_match() {
    }

    fn name_list() -> (r: Vec<&'static str>) {
        let list = vec![
            "id",
            "skill_id",
            "preference_type",
            "created_at",
        ];
        assert(statement::words(list@) == Self::names());
        list
    }
}

impl ToRow for UserPreferenceRecord {
    open spec fn values(self) -> Seq<ValueView> {
        seq![
            ValueView::Text(self.id@),
            ValueView::Text(self.skill_id@),
            ValueView::Text(self.preference_type@),
            ValueView::Text(self.created_at@),
        ]
    }

    proof fn reads_back(self) {
        assert forall|read: Self| #[trigger] read.holds(self.values()) implies read.values()
            == self.values() by {
            assert(read.values() =~= self.values());
        }
    }

    fn bound(&self) -> (r: Vec<SqlValue>) {
        let list = vec![
            bound_text(self.id.as_str()),
            bound_text(self.skill_id.as_str()),
            bound_text(self.preference_type.as_str()),
            bound_text(self.created_at.as_str()),
        ];
        assert(statement::values(list@) == self.values());
        list
    }
}

impl Keyed for UserPreferenceRecord {
    open spec fn key_length() -> nat {
        1
    }

    proof fn names_differ() {
        reveal_strlit("id");
        reveal_strlit("skill_id");
        reveal_strlit("preference_type");
        reveal_strlit("created_at");
        let names = Self::names();
        let marks = seq![
            10010010502int,
            10010711508int,
            10111411215int,
            11611409910int,
        ];
        assert(text::mark("id"@) == marks[0]);
        assert(text::mark("skill_id"@) == marks[1]);
        assert(text::mark("preference_type"@) == marks[2]);
        assert(text::mark("created_at"@) == marks[3]);
        assert forall|i: int, j: int| 0 <= i < j < names.len() implies names[i] != names[j] by {
            assert(text::mark(names[i]) == marks[i]);
            assert(text::mark(names[j]) == marks[j]);
        }
    }
}

/// An experiment with variants of a skill.
#[derive(Debug, Clone)]
pub struct ExperimentRecord {
    pub id: String,
    pub skill_id: String,
    pub scope: String,
    pub scope_id: Option<String>,
    pub variants_json: String,
    pub allocation_json: String,
    pub status: String,
    pub started_at: String,
}

impl FromRow for ExperimentRecord {
    open spec fn columns() -> Seq<Kind> {
        seq![
            Kind::Text,
            Kind::Text,
            Kind::Text,
            Kind::OptText,
            Kind::Text,
            Kind::Text,
            Kind::Text,
            Kind::Text,
        ]
    }

    open spec fn holds(self, row: Seq<ValueView>) -> bool {
        &&& self.id@ == row::text_in(row[0])
        &&& self.skill_id@ == row::text_in(row[1])
        &&& self.scope@ == row::text_in(row[2])
        &&& text::opt_text(self.scope_id) == row::opt_text_in(row[3])
        &&& self.variants_json@ == row::text_in(row[4])
        &&& self.allocation_json@ == row::text_in(row[5])
        &&& self.status@ == row::text_in(row[6])
        &&& self.started_at@ == row::text_in(row[7])
    }

    fn kinds() -> (r: Vec<Kind>) {
        vec![
            Kind::Text,
            Kind::Text,
            Kind::Text,
            Kind::OptText,
            Kind::Text,
            Kind::Text,
            Kind::Text,
            Kind::Text,
        ]
    }

    fn take(row: &Row) -> (r: Self) {
        proof {
            let held = statement::values(row@);
            assert(row::column_problem(held, 7, Self::columns()[7]) is None);
        }
        ExperimentRecord {
            id: text_of(&row[0]),
            skill_id: text_of(&row[1]),
            scope: text_of(&row[2]),
            scope_id: opt_text_of(&row[3]),
            variants_json: text_of(&row[4]),
            allocation_json: text_of(&row[5]),
            status: text_of(&row[6]),
            started_at: text_of(&row[7]),
        }
    }
}

impl Columns for ExperimentRecord {
    open spec fn names() -> Seq<Seq<char>> {
        seq![
            "id"@,
            "skill_id"@,
            "scope"@,
            "scope_id"@,
            "variants_json"@,
            "allocation_json"@,
            "status"@,
            "started_at"@,
        ]
    }

    proof fn names_match() {
    }

    fn name_list() -> (r: Vec<&'static str>) {
        let list = vec![
            "id",
            "skill_id",
            "scope",
            "scope_id",
            "variants_json",
            "allocation_json",
            "status",
            "started_at",
        ];
        assert(statement::words(list@) == Self::names());
        list
    }
}

impl ToRow for ExperimentRecord {
    open spec fn values(self) -> Seq<ValueView> {
        seq![
            ValueView::Text(self.id@),
            ValueView::Text(self.skill_id@),
            ValueView::Text(self.scope@),
            statement::opt_text_value(text::opt_text(self.scope_id)),
            ValueView::Text(self.variants_json@),
            ValueView::Text(self.allocation_json@),
            ValueView::Text(self.status@),
            ValueView::Text(self.started_at@),
        ]
    }

    proof fn reads_back(self) {
        assert forall|read: Self| #[trigger] read.holds(self.values()) implies read.values()
            == self.values() by {
            assert(read.values() =~= self.values());
        }
    }

    fn bound(&self) -> (r: Vec<SqlValue>) {
        let list = vec![
            bound_text(self.id.as_str()),
            bound_text(self.skill_id.as_str()),
            bound_text(self.scope.as_str()),
            bound_opt_text(&self.scope_id),
            bound_text(self.variants_json.as_str()),
            bound_text(self.allocation_json.as_str()),
            bound_text(self.status.as_str()),
            bound_text(self.started_at.as_str()),
        ];
        assert(statement::values(list@) == self.values());
        list
    }
}

impl Keyed for ExperimentRecord {
    open spec fn key_length() -> nat {
        1
    }

    proof fn names_differ() {
        reveal_strlit("id");
        reveal_strlit("skill_id");
        reveal_strlit("scope");
        reveal_strlit("scope_id");
        reveal_strlit("variants_json");
        reveal_strlit("allocation_json");
        reveal_strlit("status");
        reveal_strlit("started_at");
        let names = Self::names();
        let marks = seq![
            10010010502int,
            10010711508int,
            10109911505int,
            10009911508int,
            11009711813int,
            11010809715int,
            11511611506int,
            11611611510int,
        ];
        assert(text::mark("id"@) == marks[0]);
        assert(text::mark("skill_id"@) == marks[1]);
        assert(text::mark("scope"@) == marks[2]);
        assert(text::mark("scope_id"@) == marks[3]);
        assert(text::mark("variants_json"@) == marks[4]);
        assert(text::mark("allocation_json"@) == marks[5]);
        assert(text::mark("status"@) == marks[6]);
        assert(text::mark("started_at"@) == marks[7]);
        assert forall|i: int, j: int| 0 <= i < j < names.len() implies names[i] != names[j] by {
            assert(text::mark(names[i]) == marks[i]);
            assert(text::mark(names[j]) == marks[j]);
        }
    }
}

/// An event of an experiment.
#[derive(Debug, Clone)]
pub struct ExperimentEventRecord {
    pub id: String,
    pub experiment_id: String,
    pub variant_id: String,
    pub event_type: String,
    pub metrics_json: Option<String>,
    pub context_json: Option<String>,
    pub session_id: Option<String>,
    pub created_at: String,
}

impl FromRow for ExperimentEventRecord {
    open spec fn columns() -> Seq<Kind> {
        seq![
            Kind::Text,
            Kind::Text,
            Kind::Text,
            Kind::Text,
            Kind::OptText,
            Kind::OptText,
            Kind::OptText,
            Kind::Text,
        ]
    }

    open spec fn holds(self, row: Seq<ValueView>) -> bool {
        &&& self.id@ == row::text_in(row[0])
        &&& self.experiment_id@ == row::text_in(row[1])
        &&& self.variant_id@ == row::text_in(row[2])
        &&& self.event_type@ == row::text_in(row[3])
        &&& text::opt_text(self.metrics_json) == row::opt_text_in(row[4])
        &&& text::opt_text(self.context_json) == row::opt_text_in(row[5])
        &&& text::opt_text(self.session_id) == row::opt_text_in(row[6])
        &&& self.created_at@ == row::text_in(row[7])
    }

    fn kinds() -> (r: Vec<Kind>) {
        vec![
            Kind::Text,
            Kind::Text,
            Kind::Text,
            Kind::Text,
            Kind::OptText,
            Kind::OptText,
            Kind::OptText,
            Kind::Text,
        ]
    }

    fn take(row: &Row) -> (r: Self) {
        proof {
            let held = statement::values(row@);
            assert(row::column_problem(held, 7, Self::columns()[7]) is None);
        }
        ExperimentEventRecord {
            id: text_of(&row[0]),
            experiment_id: text_of(&row[1]),
            variant_id: text_of(&row[2]),
            event_type: text_of(&row[3]),
            metrics_json: opt_text_of(&row[4]),
            context_json: opt_text_of(&row[5]),
            session_id: opt_text_of(&row[6]),
            created_at: text_of(&row[7]),
        }
    }
}

impl Columns for ExperimentEventRecord {
    open spec fn names() -> Seq<Seq<char>> {
        seq![
            "id"@,
            "experiment_id"@,
            "variant_id"@,
            "event_type"@,
            "metrics_json"@,
            "context_json"@,
            "session_id"@,
            "created_at"@,
        ]
    }

    proof fn names_match() {
    }

    fn name_list() -> (r: Vec<&'static str>) {
        let list = vec![
            "id",
            "experiment_id",
            "variant_id",
            "event_type",
            "metrics_json",
            "context_json",
            "session_id",
            "created_at",
        ];
        assert(statement::words(list@) == Self::names());
        list
    }
}

impl ToRow for ExperimentEventRecord {
    open spec fn values(self) -> Seq<ValueView> {
        seq![
            ValueView::Text(self.id@),
            ValueView::Text(self.experiment_id@),
            ValueView::Text(self.variant_id@),
            ValueView::Text(self.event_type@),
            statement::opt_text_value(text::opt_text(self.metrics_json)),
            statement::opt_text_value(text::opt_text(self.context_json)),
            statement::opt_text_value(text::opt_text(self.session_id)),
            ValueView::Text(self.created_at@),
        ]
    }

    proof fn reads_back(self) {
        assert forall|read: Self| #[trigger] read.holds(self.values()) implies read.values()
            == self.values() by {
            assert(read.values() =~= self.values());
        }
    }

    fn bound(&self) -> (r: Vec<SqlValue>) {
        let list = vec![
            bound_text(self.id.as_str()),
            bound_text(self.experiment_id.as_str()),
            bound_text(self.variant_id.as_str()),
            bound_text(self.event_type.as_str()),
            bound_opt_text(&self.metrics_json),
            bound_opt_text(&self.context_json),
            bound_opt_text(&self.session_id),
            bound_text(self.created_at.as_str()),
        ];
        assert(statement::values(list@) == self.values());
        list
    }
}

} // verus!
