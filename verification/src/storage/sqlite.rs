//! The database of the registry.
//!
//! [`Database`] gives the statements; whoever holds a connection runs them and hands the rows, or
//! the number of rows that were changed, to the functions that read them.

use crate::error::{ErrorView, MsError};
use crate::json;
use crate::storage::clock;
use crate::storage::clock::{now_text, random_id};
use crate::storage::record::{
    AliasRecord, AliasResolution, ExperimentEventRecord, ExperimentRecord, OriginPlace,
    QuarantineReview, SkillFeedbackRecord, SkillOriginRecord, SkillRecord, SkillSearchCandidate,
    UserPreferenceRecord,
};
use crate::storage::row;
use crate::storage::row::{
    find_by, insert_record, read_one, replace_record, select_records, Columns, FromRow, Row, ToRow,
};
use crate::storage::statement;
use crate::storage::statement::{
    borrowed, from_text, select, update, upsert_words, Filling, Real, Statement, StatementView,
    ValueView,
};
use crate::storage::table;
use crate::storage::table::TableView;
use crate::text;
use crate::text::{concat, same_text};
use vstd::prelude::*;
use vstd::string::*;

verus! {

/// The settings that every connection starts with.
pub const PRAGMAS: &'static str =
    "PRAGMA journal_mode = WAL; PRAGMA synchronous = NORMAL; PRAGMA cache_size = -64000; \
     PRAGMA mmap_size = 268435456; PRAGMA temp_store = MEMORY; PRAGMA foreign_keys = ON;";

/// The columns of a skill that is written before its commit.
pub open spec fn pending_columns() -> Seq<Seq<char>> {
    seq![
        "id"@,
        "name"@,
        "description"@,
        "version"@,
        "author"@,
        "source_path"@,
        "source_layer"@,
        "content_hash"@,
        "body"@,
        "metadata_json"@,
        "assets_json"@,
        "token_count"@,
        "quality_score"@,
        "indexed_at"@,
        "modified_at"@,
    ]
}

/// What is put into the columns of a new skill that is written before its commit: what it is known
/// by, and marks that it is pending.
pub open spec fn pending_fillings() -> Seq<Filling> {
    seq![
        Filling::Bound(0),
        Filling::Bound(1),
        Filling::Bound(2),
        Filling::Bound(3),
        Filling::Bound(4),
        Filling::Fixed { word: "'pending'"@, value: ValueView::Text("pending"@) },
        Filling::Bound(5),
        Filling::Fixed { word: "'pending'"@, value: ValueView::Text("pending"@) },
        Filling::Fixed { word: "''"@, value: ValueView::Text(""@) },
        Filling::Bound(6),
        Filling::Fixed { word: "'{}'"@, value: ValueView::Text("{}"@) },
        Filling::Bound(7),
        Filling::Fixed { word: "0.0"@, value: ValueView::Real(0) },
        Filling::Now,
        Filling::Now,
    ]
}

/// What is replaced in a skill that is there already when it is written before its commit.
pub open spec fn pending_replaced() -> Seq<Seq<char>> {
    seq![
        "name"@,
        "description"@,
        "version"@,
        "author"@,
        "source_layer"@,
        "metadata_json"@,
        "token_count"@,
        "modified_at"@,
    ]
}

/// What is bound to write a skill before its commit.
pub open spec fn pending_values(
    skill: SkillMetadata,
    layer: Seq<char>,
    metadata_json: Seq<char>,
    token_count: i64,
) -> Seq<ValueView> {
    seq![
        ValueView::Text(skill.id@),
        ValueView::Text(skill.name@),
        ValueView::Text(skill.description@),
        statement::opt_text_value(text::opt_text(skill.version)),
        statement::opt_text_value(text::opt_text(skill.author)),
        ValueView::Text(layer),
        ValueView::Text(metadata_json),
        ValueView::Integer(token_count),
    ]
}

/// Completes a skill after its commit.
pub const FINALIZE_SKILL: &'static str =
    "UPDATE skills SET source_path = ?, content_hash = ?, body = ?, modified_at = \
     datetime('now') WHERE id = ?";

/// The columns of an origin.
pub open spec fn origin_columns() -> Seq<Seq<char>> {
    seq!["skill_id"@, "origin_path"@, "origin_root"@, "recorded_at"@]
}

/// What is put into the columns of an origin.
pub open spec fn origin_fillings() -> Seq<Filling> {
    seq![Filling::Bound(0), Filling::Bound(1), Filling::Bound(2), Filling::Now]
}

/// Writes a use of a skill whose outcome is not known.
pub const RECORD_USAGE: &'static str =
    "INSERT INTO skill_usage (skill_id, project_path, used_at, disclosure_level, \
     context_keywords, success_signal, experiment_id, variant_id) VALUES (?, ?, ?, ?, ?, NULL, \
     ?, ?)";

/// The last use of a skill is marked with its outcome.
pub const MARK_OUTCOME: &'static str =
    "UPDATE skill_usage SET success_signal = ? WHERE id = (SELECT id FROM skill_usage WHERE \
     skill_id = ? ORDER BY used_at DESC LIMIT 1)";

/// An outcome is also an event of its own.
pub const OUTCOME_EVENT: &'static str =
    "INSERT INTO skill_usage_events (id, skill_id, session_id, loaded_at, disclosure_level, \
     discovery_method, outcome, feedback) VALUES (?, ?, 'manual', ?, 'full', 'manual', ?, \
     'null')";

/// Counts the preferences of a type for a skill.
pub const COUNT_PREFERENCES: &'static str =
    "SELECT COUNT(*) FROM user_preferences WHERE skill_id = ? AND preference_type = ?";

/// The database of the registry, as far as it can be known without a connection.
#[derive(Debug)]
pub struct Database {
    schema_version: u32,
}

impl Database {
    /// The schema version that the migrations led to.
    pub closed spec fn version(self) -> u32 {
        self.schema_version
    }

    /// A database whose migrations led to a schema version.
    pub fn migrated(schema_version: u32) -> (r: Database)
        ensures
            r.version() == schema_version,
    {
        Database { schema_version }
    }

    /// Current schema version after migrations.
    pub fn schema_version(&self) -> (r: u32)
        ensures
            r == self.version(),
    {
        self.schema_version
    }

    /// The settings that every connection starts with.
    pub fn configure_pragmas() -> (r: &'static str)
        ensures
            r@ == PRAGMAS@,
    {
        PRAGMAS
    }

    // -----------------------------------------------------------------------------------------
    // Skills
    // -----------------------------------------------------------------------------------------

    /// A skill by its id. The row is a [`SkillRecord`].
    pub fn get_skill(id: &str) -> (r: Statement)
        ensures
            r@ == (StatementView {
                sql: statement::select_sql(
                    SkillRecord::names(),
                    statement::from_sql("skills"@, seq!["id"@]),
                ),
                params: seq![ValueView::Text(id@)],
            }),
    {
        find_by::<SkillRecord>("skills", "id", id)
    }

    /// The skills of a name, which can differ from their ids and be ambiguous. Each row is a
    /// [`SkillRecord`].
    pub fn get_skills_by_name(name: &str) -> (r: Statement)
        ensures
            r@ == (StatementView {
                sql: statement::select_sql(
                    SkillRecord::names(),
                    "skills WHERE name = ? ORDER BY modified_at DESC"@,
                ),
                params: seq![ValueView::Text(name@)],
            }),
    {
        select_records::<SkillRecord>("skills WHERE name = ? ORDER BY modified_at DESC").text(name)
    }

    /// A page of the skills, the last modified first. Each row is a [`SkillRecord`].
    pub fn list_skills(limit: usize, offset: usize) -> (r: Statement)
        ensures
            r@ == (StatementView {
                sql: statement::select_sql(
                    SkillRecord::names(),
                    "skills ORDER BY modified_at DESC LIMIT ? OFFSET ?"@,
                ),
                params: seq![statement::size_value(limit), statement::size_value(offset)],
            }),
    {
        select_records::<SkillRecord>(
            "skills ORDER BY modified_at DESC LIMIT ? OFFSET ?",
        ).size(limit).size(
            offset,
        )
    }

    /// Sets the quality score of a skill.
    pub fn update_skill_quality(skill_id: &str, quality_score: Real) -> (r: Statement)
        ensures
            r@ == (StatementView {
                sql: "UPDATE skills SET quality_score = ? WHERE id = ?"@,
                params: seq![statement::real_value(quality_score), ValueView::Text(skill_id@)],
            }),
    {
        Statement::new("UPDATE skills SET quality_score = ? WHERE id = ?").number(
            quality_score,
        ).text(skill_id)
    }

    /// Sets whether a skill is deprecated, and why.
    pub fn update_skill_deprecation(
        skill_id: &str,
        is_deprecated: bool,
        reason: Option<&str>,
    ) -> (r: Statement)
        ensures
            r@ == (StatementView {
                sql: "UPDATE skills SET is_deprecated = ?, deprecation_reason = ? WHERE id = ?"@,
                params: seq![
                    statement::flag_value(is_deprecated),
                    statement::opt_text_value(text::opt_str(reason)),
                    ValueView::Text(skill_id@),
                ],
            }),
    {
        Statement::new(
            "UPDATE skills SET is_deprecated = ?, deprecation_reason = ? WHERE id = ?",
        ).flag(is_deprecated).opt_text(reason).text(skill_id)
    }

    /// Writes a skill, over one of the same id: everything but the id is replaced.
    pub fn upsert_skill(skill: &SkillRecord) -> (r: Statement)
        ensures
            r@ == (StatementView {
                sql: statement::upsert_sql(
                    "INSERT INTO skills"@,
                    SkillRecord::names(),
                    seq!["id"@],
                    SkillRecord::names().skip(1),
                ),
                params: skill.values(),
            }),
    {
        replace_record("INSERT INTO skills", skill, "id")
    }

    /// Writes a skill before its commit. A new one is marked as pending; of one that is there
    /// already, only what describes it changes. `metadata_json` is the metadata as JSON.
    pub fn upsert_skill_pending(
        skill: &SkillMetadata,
        layer: &str,
        metadata_json: &str,
        token_count: i64,
    ) -> (r: Statement)
        ensures
            r@ == (StatementView {
                sql: statement::upsert_words_sql(
                    "INSERT INTO skills"@,
                    pending_columns(),
                    statement::filling_words(pending_fillings()),
                    seq!["id"@],
                    pending_replaced(),
                ),
                params: pending_values(*skill, layer@, metadata_json@, token_count),
            }),
    {
        let columns = vec![
            "id",
            "name",
            "description",
            "version",
            "author",
            "source_path",
            "source_layer",
            "content_hash",
            "body",
            "metadata_json",
            "assets_json",
            "token_count",
            "quality_score",
            "indexed_at",
            "modified_at",
        ];
        let list = vec![
            "?",
            "?",
            "?",
            "?",
            "?",
            "'pending'",
            "?",
            "'pending'",
            "''",
            "?",
            "'{}'",
            "?",
            "0.0",
            "datetime('now')",
            "datetime('now')",
        ];
        let keys = vec!["id"];
        let replaced = vec![
            "name",
            "description",
            "version",
            "author",
            "source_layer",
            "metadata_json",
            "token_count",
            "modified_at",
        ];
        assert(statement::words(columns@) == pending_columns());
        assert(statement::words(list@) == statement::filling_words(pending_fillings()));
        assert(statement::words(keys@) == seq!["id"@]);
        assert(statement::words(replaced@) == pending_replaced());
        upsert_words("INSERT INTO skills", &columns, &list, &keys, &replaced).text(
            skill.id.as_str(),
        ).text(skill.name.as_str()).text(skill.description.as_str()).opt_text(borrowed(&skill.version)).opt_text(
            borrowed(&skill.author),
        ).text(layer).text(metadata_json).integer(token_count)
    }

    /// Completes a skill after its commit: where it lies, its content hash, and its body.
    pub fn finalize_skill_commit(
        skill_id: &str,
        source_path: &str,
        content_hash: &str,
        body: &str,
    ) -> (r: Statement)
        ensures
            r@ == (StatementView {
                sql: FINALIZE_SKILL@,
                params: seq![
                    ValueView::Text(source_path@),
                    ValueView::Text(content_hash@),
                    ValueView::Text(body@),
                    ValueView::Text(skill_id@),
                ],
            }),
    {
        Statement::new(FINALIZE_SKILL).text(source_path).text(content_hash).text(body).text(
            skill_id,
        )
    }

    /// Deletes a skill that is still pending.
    pub fn delete_pending_skill(id: &str) -> (r: Statement)
        ensures
            r@ == (StatementView {
                sql: "DELETE FROM skills WHERE id = ? AND source_path = 'pending'"@,
                params: seq![ValueView::Text(id@)],
            }),
    {
        Statement::new("DELETE FROM skills WHERE id = ? AND source_path = 'pending'").text(id)
    }

    /// A skill as a search sees it, by its id. The row is a
    /// [`SkillSearchCandidate`].
    pub fn get_skill_candidate(id: &str) -> (r: Statement)
        ensures
            r@ == (StatementView {
                sql: statement::select_sql(
                    SkillSearchCandidate::names(),
                    statement::from_sql("skills"@, seq!["id"@]),
                ),
                params: seq![ValueView::Text(id@)],
            }),
    {
        find_by::<SkillSearchCandidate>("skills", "id", id)
    }

    /// Asks the database to check itself. The row holds a text.
    pub fn integrity_check() -> (r: Statement)
        ensures
            r@ == (StatementView { sql: "PRAGMA integrity_check"@, params: seq![] }),
    {
        Statement::new("PRAGMA integrity_check")
    }

    // -----------------------------------------------------------------------------------------
    // Usage
    // -----------------------------------------------------------------------------------------

    /// How often a skill was used. The row holds a count.
    pub fn count_skill_usage(skill_id: &str) -> (r: Statement)
        ensures
            r@ == (StatementView {
                sql: statement::select_sql(
                    seq!["COUNT(*)"@],
                    statement::from_sql("skill_usage"@, seq!["skill_id"@]),
                ),
                params: seq![ValueView::Text(skill_id@)],
            }),
    {
        let columns = vec!["COUNT(*)"];
        let keys = vec!["skill_id"];
        assert(statement::words(columns@) == seq!["COUNT(*)"@]);
        assert(statement::words(keys@) == seq!["skill_id"@]);
        let rest = from_text("skill_usage", &keys);
        select(&columns, rest.as_str()).text(skill_id)
    }

    /// How many rules of a skill have evidence. The row holds a count.
    pub fn count_skill_evidence(skill_id: &str) -> (r: Statement)
        ensures
            r@ == (StatementView {
                sql: "SELECT COUNT(*) FROM skill_evidence WHERE skill_id = ?"@,
                params: seq![ValueView::Text(skill_id@)],
            }),
    {
        Statement::new("SELECT COUNT(*) FROM skill_evidence WHERE skill_id = ?").text(skill_id)
    }

    /// How much feedback on a skill there is. The row holds a count.
    pub fn count_skill_feedback(skill_id: &str) -> (r: Statement)
        ensures
            r@ == (StatementView {
                sql: "SELECT COUNT(*) FROM skill_feedback WHERE skill_id = ?"@,
                params: seq![ValueView::Text(skill_id@)],
            }),
    {
        Statement::new("SELECT COUNT(*) FROM skill_feedback WHERE skill_id = ?").text(skill_id)
    }

    // -----------------------------------------------------------------------------------------
    // Origins
    // -----------------------------------------------------------------------------------------

    /// Writes, or refreshes, where the source of an indexed skill was found on disk. A skill
    /// without such a place never gets a row: its origin is unknown, which is no fault.
    pub fn record_skill_origin(skill_id: &str, origin_path: &str, origin_root: &str) -> (r:
        Statement)
        ensures
            r@ == (StatementView {
                sql: statement::upsert_words_sql(
                    "INSERT INTO skill_origins"@,
                    origin_columns(),
                    statement::filling_words(origin_fillings()),
                    seq!["skill_id"@],
                    origin_columns().skip(1),
                ),
                params: seq![
                    ValueView::Text(skill_id@),
                    ValueView::Text(origin_path@),
                    ValueView::Text(origin_root@),
                ],
            }),
    {
        let columns = vec!["skill_id", "origin_path", "origin_root", "recorded_at"];
        let list = vec!["?", "?", "?", "datetime('now')"];
        let keys = vec!["skill_id"];
        let replaced = vec!["origin_path", "origin_root", "recorded_at"];
        assert(statement::words(columns@) == origin_columns());
        assert(statement::words(list@) == statement::filling_words(origin_fillings()));
        assert(statement::words(keys@) == seq!["skill_id"@]);
        assert(statement::words(replaced@) == origin_columns().skip(1));
        upsert_words("INSERT INTO skill_origins", &columns, &list, &keys, &replaced).text(
            skill_id,
        ).text(origin_path).text(origin_root)
    }

    /// Where the source of a skill was found, if that is known. The row is an
    /// [`OriginPlace`].
    pub fn get_skill_origin(skill_id: &str) -> (r: Statement)
        ensures
            r@ == (StatementView {
                sql: statement::select_sql(
                    OriginPlace::names(),
                    statement::from_sql("skill_origins"@, seq!["skill_id"@]),
                ),
                params: seq![ValueView::Text(skill_id@)],
            }),
    {
        find_by::<OriginPlace>("skill_origins", "skill_id", skill_id)
    }

    /// All known origins of skills that are there. Each row is a
    /// [`SkillOriginRecord`].
    pub fn list_skill_origins() -> (r: Statement)
        ensures
            r@ == (StatementView {
                sql: statement::select_sql(
                    SkillOriginRecord::names(),
                    "skill_origins o JOIN skills s ON s.id = o.skill_id ORDER BY o.skill_id"@,
                ),
                params: seq![],
            }),
    {
        select_records::<SkillOriginRecord>(
            "skill_origins o JOIN skills s ON s.id = o.skill_id ORDER BY o.skill_id",
        )
    }

    // -----------------------------------------------------------------------------------------
    // Aliases
    // -----------------------------------------------------------------------------------------

    /// What an alias stands for. The row is an
    /// [`AliasResolution`].
    pub fn resolve_alias(alias: &str) -> (r: Statement)
        ensures
            r@ == (StatementView {
                sql: statement::select_sql(
                    AliasResolution::names(),
                    statement::from_sql("skill_aliases"@, seq!["alias"@]),
                ),
                params: seq![ValueView::Text(alias@)],
            }),
    {
        find_by::<AliasResolution>("skill_aliases", "alias", alias)
    }

    /// Deletes an alias. It was there if [`any_changed`].
    pub fn delete_alias(alias: &str) -> (r: Statement)
        ensures
            r@ == (StatementView {
                sql: "DELETE FROM skill_aliases WHERE alias = ?"@,
                params: seq![ValueView::Text(alias@)],
            }),
    {
        Statement::new("DELETE FROM skill_aliases WHERE alias = ?").text(alias)
    }

    /// The aliases of a skill. Each row holds a text.
    pub fn get_aliases_for_skill(skill_id: &str) -> (r: Statement)
        ensures
            r@ == (StatementView {
                sql: statement::select_sql(
                    seq!["alias"@],
                    "skill_aliases WHERE skill_id = ? ORDER BY alias"@,
                ),
                params: seq![ValueView::Text(skill_id@)],
            }),
    {
        let columns = vec!["alias"];
        assert(statement::words(columns@) == seq!["alias"@]);
        select(&columns, "skill_aliases WHERE skill_id = ? ORDER BY alias").text(skill_id)
    }

    // -----------------------------------------------------------------------------------------
    // Quarantine
    // -----------------------------------------------------------------------------------------

    /// The reviews of something in quarantine, the latest first. Each row is a
    /// [`QuarantineReview`].
    pub fn list_quarantine_reviews(quarantine_id: &str) -> (r: Statement)
        ensures
            r@ == (StatementView {
                sql: statement::select_sql(
                    QuarantineReview::names(),
                    "injection_quarantine_reviews WHERE quarantine_id = ? ORDER BY created_at DESC"@,
                ),
                params: seq![ValueView::Text(quarantine_id@)],
            }),
    {
        select_records::<QuarantineReview>(
            "injection_quarantine_reviews WHERE quarantine_id = ? ORDER BY created_at DESC",
        ).text(quarantine_id)
    }

    // -----------------------------------------------------------------------------------------
    // Transactions
    // -----------------------------------------------------------------------------------------

    /// Deletes the record of a transaction.
    pub fn delete_tx_record(id: &str) -> (r: Statement)
        ensures
            r@ == (StatementView {
                sql: "DELETE FROM tx_log WHERE id = ?"@,
                params: seq![ValueView::Text(id@)],
            }),
    {
        Statement::new("DELETE FROM tx_log WHERE id = ?").text(id)
    }

    /// Whether there is a record of a transaction. The row holds 0 or 1.
    pub fn tx_exists(tx_id: &str) -> (r: Statement)
        ensures
            r@ == (StatementView {
                sql: "SELECT EXISTS(SELECT 1 FROM tx_log WHERE id = ?)"@,
                params: seq![ValueView::Text(tx_id@)],
            }),
    {
        Statement::new("SELECT EXISTS(SELECT 1 FROM tx_log WHERE id = ?)").text(tx_id)
    }

    // -----------------------------------------------------------------------------------------
    // Evidence
    // -----------------------------------------------------------------------------------------

    /// Deletes all evidence for a skill.
    pub fn delete_skill_evidence(skill_id: &str) -> (r: Statement)
        ensures
            r@ == (StatementView {
                sql: "DELETE FROM skill_evidence WHERE skill_id = ?"@,
                params: seq![ValueView::Text(skill_id@)],
            }),
    {
        Statement::new("DELETE FROM skill_evidence WHERE skill_id = ?").text(skill_id)
    }

    // -----------------------------------------------------------------------------------------
    // Preferences
    // -----------------------------------------------------------------------------------------

    /// Removes a preference. It was there if [`any_changed`].
    pub fn remove_user_preference(skill_id: &str, preference_type: &str) -> (r: Statement)
        ensures
            r@ == (StatementView {
                sql: "DELETE FROM user_preferences WHERE skill_id = ? AND preference_type = ?"@,
                params: seq![ValueView::Text(skill_id@), ValueView::Text(preference_type@)],
            }),
    {
        Statement::new(
            "DELETE FROM user_preferences WHERE skill_id = ? AND preference_type = ?",
        ).text(skill_id).text(preference_type)
    }

    /// Whether a skill has a preference. The row holds a count.
    pub fn has_user_preference(skill_id: &str, preference_type: &str) -> (r: Statement)
        ensures
            r@ == (StatementView {
                sql: COUNT_PREFERENCES@,
                params: seq![ValueView::Text(skill_id@), ValueView::Text(preference_type@)],
            }),
    {
        Statement::new(COUNT_PREFERENCES).text(skill_id).text(preference_type)
    }

    /// A page of the preferences of a type, the latest first. Each row is a
    /// [`UserPreferenceRecord`].
    pub fn list_user_preferences(preference_type: &str, limit: usize, offset: usize) -> (r:
        Statement)
        ensures
            r@ == (StatementView {
                sql: statement::select_sql(
                    UserPreferenceRecord::names(),
                    "user_preferences WHERE preference_type = ? ORDER BY created_at DESC LIMIT ? OFFSET ?"@,
                ),
                params: seq![
                    ValueView::Text(preference_type@),
                    statement::size_value(limit),
                    statement::size_value(offset),
                ],
            }),
    {
        select_records::<UserPreferenceRecord>(
            "user_preferences WHERE preference_type = ? ORDER BY created_at DESC LIMIT ? OFFSET ?",
        ).text(preference_type).size(limit).size(offset)
    }

    /// The preferences for a skill, the latest first. Each row is a [`UserPreferenceRecord`].
    pub fn get_skill_preferences(skill_id: &str) -> (r: Statement)
        ensures
            r@ == (StatementView {
                sql: statement::select_sql(
                    UserPreferenceRecord::names(),
                    "user_preferences WHERE skill_id = ? ORDER BY created_at DESC"@,
                ),
                params: seq![ValueView::Text(skill_id@)],
            }),
    {
        select_records::<UserPreferenceRecord>(
            "user_preferences WHERE skill_id = ? ORDER BY created_at DESC",
        ).text(skill_id)
    }

    // -----------------------------------------------------------------------------------------
    // Experiments
    // -----------------------------------------------------------------------------------------

    /// An experiment by its id. The row is an [`ExperimentRecord`].
    pub fn get_skill_experiment(id: &str) -> (r: Statement)
        ensures
            r@ == (StatementView {
                sql: statement::select_sql(
                    ExperimentRecord::names(),
                    statement::from_sql("skill_experiments"@, seq!["id"@]),
                ),
                params: seq![ValueView::Text(id@)],
            }),
    {
        find_by::<ExperimentRecord>("skill_experiments", "id", id)
    }

    /// Sets the status of an experiment. See [`experiment_updated`].
    pub fn update_skill_experiment_status(id: &str, status: &str) -> (r: Statement)
        ensures
            r@ == (StatementView {
                sql: statement::update_sql("skill_experiments"@, "status"@, "id"@),
                params: seq![ValueView::Text(status@), ValueView::Text(id@)],
            }),
    {
        update("skill_experiments", "status", "id").text(status).text(id)
    }

    /// The events of an experiment, the first first. Each row is an [`ExperimentEventRecord`].
    pub fn list_skill_experiment_events(experiment_id: &str) -> (r: Statement)
        ensures
            r@ == (StatementView {
                sql: statement::select_sql(
                    ExperimentEventRecord::names(),
                    "skill_experiment_events WHERE experiment_id = ? ORDER BY created_at ASC"@,
                ),
                params: seq![ValueView::Text(experiment_id@)],
            }),
    {
        select_records::<ExperimentEventRecord>(
            "skill_experiment_events WHERE experiment_id = ? ORDER BY created_at ASC",
        ).text(experiment_id)
    }
}

/// What a skill is described by.
#[derive(Debug, Clone)]
pub struct SkillMetadata {
    pub id: String,
    pub name: String,
    pub description: String,
    pub version: Option<String>,
    pub author: Option<String>,
}

// ---------------------------------------------------------------------------------------------
// Reading single values
// ---------------------------------------------------------------------------------------------

/// A row that holds one value of a kind, or whose first column cannot be read as it.
pub open spec fn is_read_as<T: FromRow>(row: Seq<ValueView>, error: ErrorView) -> bool {
    !row::fits(row, T::columns()) && error == row::row_error(
        row::row_problem(row, T::columns(), T::columns().len()),
    )
}

/// Reads a count. A negative one counts as zero.
pub fn read_count(row: &Row) -> (r: Result<u64, MsError>)
    ensures
        match r {
            Ok(count) => {
                let held = row::integer_in(statement::values(row@)[0]);
                &&& row::fits(statement::values(row@), i64::columns())
                &&& count == (if held > 0 {
                    held as int
                } else {
                    0
                })
            },
            Err(error) => is_read_as::<i64>(statement::values(row@), error@),
        },
{
    match read_one::<i64>(row) {
        Ok(count) => Ok(
            if count > 0 {
                count as u64
            } else {
                0
            },
        ),
        Err(error) => Err(error),
    }
}

/// Reads whether a count says that there is something.
pub fn read_any(row: &Row) -> (r: Result<bool, MsError>)
    ensures
        match r {
            Ok(any) => {
                &&& row::fits(statement::values(row@), i64::columns())
                &&& any == (row::integer_in(statement::values(row@)[0]) > 0)
            },
            Err(error) => is_read_as::<i64>(statement::values(row@), error@),
        },
{
    match read_one::<i64>(row) {
        Ok(count) => Ok(count > 0),
        Err(error) => Err(error),
    }
}

/// Reads whether the database found itself in order.
pub fn read_integrity(row: &Row) -> (r: Result<bool, MsError>)
    ensures
        match r {
            Ok(sound) => {
                &&& row::fits(statement::values(row@), String::columns())
                &&& sound == (row::text_in(statement::values(row@)[0]) == "ok"@)
            },
            Err(error) => is_read_as::<String>(statement::values(row@), error@),
        },
{
    match read_one::<String>(row) {
        Ok(found) => Ok(same_text(found.as_str(), "ok")),
        Err(error) => Err(error),
    }
}

/// Whether a statement changed anything.
pub fn any_changed(changed: usize) -> (r: bool)
    ensures
        r == (changed > 0),
{
    changed > 0
}

// ---------------------------------------------------------------------------------------------
// Records that are made here
// ---------------------------------------------------------------------------------------------

/// A text of one's own, where there is one.
fn owned(text: Option<&str>) -> (r: Option<String>)
    ensures
        text::opt_text(r) == text::opt_str(text),
{
    match text {
        Some(t) => Some(t.to_owned()),
        None => None,
    }
}

/// A text says what time the clock showed.
pub open spec fn is_clock_text(written: Seq<char>) -> bool {
    exists|time: clock::UtcTime|
        {
            &&& time.valid()
            &&& time.seconds >= 0
            &&& written == #[trigger] clock::rfc3339_text(time.seconds, time.nanos)
        }
}

/// The text of the use of a skill, with its keywords written as a list.
pub open spec fn keywords_value(keywords: Option<Seq<Seq<char>>>) -> ValueView {
    match keywords {
        Some(words) => ValueView::Text(json::texts_written(words)),
        None => ValueView::Null,
    }
}

/// The texts of an optional list.
pub open spec fn opt_texts(list: Option<&Vec<String>>) -> Option<Seq<Seq<char>>> {
    match list {
        Some(words) => Some(text::texts(words@)),
        None => None,
    }
}

impl Database {
    /// Writes an alias, over one of the same name.
    pub fn upsert_alias(alias: &str, skill_id: &str, alias_type: &str, created_at: &str) -> (r:
        Statement)
        ensures
            r@ == (StatementView {
                sql: statement::upsert_sql(
                    "INSERT INTO skill_aliases"@,
                    AliasRecord::names(),
                    seq!["alias"@],
                    AliasRecord::names().skip(1),
                ),
                params: seq![
                    ValueView::Text(alias@),
                    ValueView::Text(skill_id@),
                    ValueView::Text(alias_type@),
                    ValueView::Text(created_at@),
                ],
            }),
    {
        let record = AliasRecord {
            alias: alias.to_owned(),
            skill_id: skill_id.to_owned(),
            alias_type: alias_type.to_owned(),
            created_at: created_at.to_owned(),
        };
        replace_record("INSERT INTO skill_aliases", &record, "alias")
    }

    /// All aliases, or those of a skill. Each row is an [`AliasRecord`].
    pub fn list_aliases(skill_id: Option<&str>) -> (r: Statement)
        ensures
            r@ == (match skill_id {
                Some(id) => StatementView {
                    sql: statement::select_sql(
                        AliasRecord::names(),
                        "skill_aliases WHERE skill_id = ? ORDER BY alias"@,
                    ),
                    params: seq![ValueView::Text(id@)],
                },
                None => StatementView {
                    sql: statement::select_sql(
                        AliasRecord::names(),
                        "skill_aliases ORDER BY skill_id, alias"@,
                    ),
                    params: seq![],
                },
            }),
    {
        match skill_id {
            Some(id) => select_records::<AliasRecord>(
                "skill_aliases WHERE skill_id = ? ORDER BY alias",
            ).text(id),
            None => select_records::<AliasRecord>("skill_aliases ORDER BY skill_id, alias"),
        }
    }

    /// Writes that a skill was used at a time.
    pub fn skill_usage_at(
        used_at: &str,
        skill_id: &str,
        project_path: Option<&str>,
        disclosure_level: u8,
        context_keywords: Option<&Vec<String>>,
        experiment_id: Option<&str>,
        variant_id: Option<&str>,
    ) -> (r: Statement)
        ensures
            r@ == (StatementView {
                sql: RECORD_USAGE@,
                params: seq![
                    ValueView::Text(skill_id@),
                    statement::opt_text_value(text::opt_str(project_path)),
                    ValueView::Text(used_at@),
                    ValueView::Integer(disclosure_level as i64),
                    keywords_value(opt_texts(context_keywords)),
                    statement::opt_text_value(text::opt_str(experiment_id)),
                    statement::opt_text_value(text::opt_str(variant_id)),
                ],
            }),
    {
        let keywords_json = match context_keywords {
            Some(words) => Some(json::write_texts(words)),
            None => None,
        };
        Statement::new(RECORD_USAGE).text(
            skill_id,
        ).opt_text(project_path).text(used_at).integer(disclosure_level as i64).opt_text(
            borrowed(&keywords_json),
        ).opt_text(experiment_id).opt_text(variant_id)
    }

    /// Writes that a skill is used now.
    pub fn record_skill_usage(
        skill_id: &str,
        project_path: Option<&str>,
        disclosure_level: u8,
        context_keywords: Option<&Vec<String>>,
        experiment_id: Option<&str>,
        variant_id: Option<&str>,
    ) -> (r: Statement)
        ensures
            exists|used_at: Seq<char>| #[trigger]
                is_clock_text(used_at) && r@ == (StatementView {
                    sql: RECORD_USAGE@,
                    params: seq![
                        ValueView::Text(skill_id@),
                        statement::opt_text_value(text::opt_str(project_path)),
                        ValueView::Text(used_at),
                        ValueView::Integer(disclosure_level as i64),
                        keywords_value(opt_texts(context_keywords)),
                        statement::opt_text_value(text::opt_str(experiment_id)),
                        statement::opt_text_value(text::opt_str(variant_id)),
                    ],
                }),
    {
        let used_at = now_text();
        assert(is_clock_text(used_at@));
        Database::skill_usage_at(
            used_at.as_str(),
            skill_id,
            project_path,
            disclosure_level,
            context_keywords,
            experiment_id,
            variant_id,
        )
    }

    /// Writes how the last use of a skill went: on that use, and as an event of its own, which is
    /// written even where no use is known.
    pub fn skill_outcome_as(id: &str, created_at: &str, skill_id: &str, success: bool) -> (r: (
        Statement,
        Statement,
    ))
        ensures
            r.0@ == (StatementView {
                sql: MARK_OUTCOME@,
                params: seq![statement::flag_value(success), ValueView::Text(skill_id@)],
            }),
            r.1@ == (StatementView {
                sql: OUTCOME_EVENT@,
                params: seq![
                    ValueView::Text(id@),
                    ValueView::Text(skill_id@),
                    ValueView::Text(created_at@),
                    ValueView::Text(
                        if success {
                            "success"@
                        } else {
                            "failure"@
                        },
                    ),
                ],
            }),
    {
        let outcome = if success {
            "success"
        } else {
            "failure"
        };
        (
            Statement::new(MARK_OUTCOME).flag(success).text(skill_id),
            Statement::new(OUTCOME_EVENT).text(id).text(skill_id).text(created_at).text(outcome),
        )
    }

    /// Writes how the last use of a skill went, now and under an id of its own.
    pub fn record_skill_outcome(skill_id: &str, success: bool) -> (r: (Statement, Statement))
        ensures
            r.0@ == (StatementView {
                sql: MARK_OUTCOME@,
                params: seq![statement::flag_value(success), ValueView::Text(skill_id@)],
            }),
            exists|id: Seq<char>, created_at: Seq<char>| #[trigger]
                clock::is_random_id(id) && #[trigger] is_clock_text(created_at) && r.1@ == (
                StatementView {
                    sql: OUTCOME_EVENT@,
                    params: seq![
                        ValueView::Text(id),
                        ValueView::Text(skill_id@),
                        ValueView::Text(created_at),
                        ValueView::Text(
                            if success {
                                "success"@
                            } else {
                                "failure"@
                            },
                        ),
                    ],
                }),
    {
        let id = random_id();
        let created_at = now_text();
        assert(is_clock_text(created_at@));
        Database::skill_outcome_as(id.as_str(), created_at.as_str(), skill_id, success)
    }

    /// Writes a review.
    pub fn write_review(review: &QuarantineReview) -> (r: Statement)
        ensures
            r@ == (StatementView {
                sql: statement::insert_sql(
                    "INSERT INTO injection_quarantine_reviews"@,
                    QuarantineReview::names(),
                ),
                params: review.values(),
            }),
    {
        insert_record("INSERT INTO injection_quarantine_reviews", review)
    }

    /// Writes a new review of something in quarantine. The id of the review is `qr_` and a random
    /// one.
    pub fn insert_quarantine_review(quarantine_id: &str, action: &str, reason: Option<&str>) -> (r:
        (Statement, QuarantineReview))
        ensures
            r.0@ == (StatementView {
                sql: statement::insert_sql(
                    "INSERT INTO injection_quarantine_reviews"@,
                    QuarantineReview::names(),
                ),
                params: r.1.values(),
            }),
            exists|id: Seq<char>| #[trigger] clock::is_random_id(id) && r.1.id@ == "qr_"@ + id,
            r.1.quarantine_id@ == quarantine_id@,
            r.1.action@ == action@,
            text::opt_text(r.1.reason) == text::opt_str(reason),
            is_clock_text(r.1.created_at@),
    {
        let id = random_id();
        let review = QuarantineReview {
            id: concat("qr_", id.as_str()),
            quarantine_id: quarantine_id.to_owned(),
            action: action.to_owned(),
            reason: owned(reason),
            created_at: now_text(),
        };
        (Database::write_review(&review), review)
    }

    /// Writes feedback.
    pub fn write_feedback(record: &SkillFeedbackRecord) -> (r: Statement)
        ensures
            r@ == (StatementView {
                sql: statement::insert_sql(
                    "INSERT INTO skill_feedback"@,
                    SkillFeedbackRecord::names(),
                ),
                params: record.values(),
            }),
    {
        insert_record("INSERT INTO skill_feedback", record)
    }

    /// Writes new feedback on a skill.
    pub fn record_skill_feedback(
        skill_id: &str,
        feedback_type: &str,
        rating: Option<i64>,
        comment: Option<&str>,
    ) -> (r: (Statement, SkillFeedbackRecord))
        ensures
            r.0@ == (StatementView {
                sql: statement::insert_sql(
                    "INSERT INTO skill_feedback"@,
                    SkillFeedbackRecord::names(),
                ),
                params: r.1.values(),
            }),
            clock::is_random_id(r.1.id@),
            r.1.skill_id@ == skill_id@,
            r.1.feedback_type@ == feedback_type@,
            r.1.rating == rating,
            text::opt_text(r.1.comment) == text::opt_str(comment),
            is_clock_text(r.1.created_at@),
    {
        let record = SkillFeedbackRecord {
            id: random_id(),
            skill_id: skill_id.to_owned(),
            feedback_type: feedback_type.to_owned(),
            rating,
            comment: owned(comment),
            created_at: now_text(),
        };
        (Database::write_feedback(&record), record)
    }

    /// A page of the feedback, on a skill or on all, the latest first. Each row is a
    /// [`SkillFeedbackRecord`].
    pub fn list_skill_feedback(skill_id: Option<&str>, limit: usize, offset: usize) -> (r:
        Statement)
        ensures
            r@ == (match skill_id {
                Some(id) => StatementView {
                    sql: statement::select_sql(
                        SkillFeedbackRecord::names(),
                        "skill_feedback WHERE skill_id = ? ORDER BY created_at DESC LIMIT ? OFFSET ?"@,
                    ),
                    params: seq![
                        ValueView::Text(id@),
                        statement::size_value(limit),
                        statement::size_value(offset),
                    ],
                },
                None => StatementView {
                    sql: statement::select_sql(
                        SkillFeedbackRecord::names(),
                        "skill_feedback ORDER BY created_at DESC LIMIT ? OFFSET ?"@,
                    ),
                    params: seq![statement::size_value(limit), statement::size_value(offset)],
                },
            }),
    {
        match skill_id {
            Some(id) => select_records::<SkillFeedbackRecord>(
                "skill_feedback WHERE skill_id = ? ORDER BY created_at DESC LIMIT ? OFFSET ?",
            ).text(id).size(limit).size(offset),
            None => select_records::<SkillFeedbackRecord>(
                "skill_feedback ORDER BY created_at DESC LIMIT ? OFFSET ?",
            ).size(limit).size(offset),
        }
    }

    /// Writes a preference, over one with the same key.
    pub fn write_preference(record: &UserPreferenceRecord) -> (r: Statement)
        ensures
            r@ == (StatementView {
                sql: statement::insert_sql(
                    "INSERT OR REPLACE INTO user_preferences"@,
                    UserPreferenceRecord::names(),
                ),
                params: record.values(),
            }),
    {
        insert_record("INSERT OR REPLACE INTO user_preferences", record)
    }

    /// Adds a preference for a skill.
    pub fn set_user_preference(skill_id: &str, preference_type: &str) -> (r: (
        Statement,
        UserPreferenceRecord,
    ))
        ensures
            r.0@ == (StatementView {
                sql: statement::insert_sql(
                    "INSERT OR REPLACE INTO user_preferences"@,
                    UserPreferenceRecord::names(),
                ),
                params: r.1.values(),
            }),
            clock::is_random_id(r.1.id@),
            r.1.skill_id@ == skill_id@,
            r.1.preference_type@ == preference_type@,
            is_clock_text(r.1.created_at@),
    {
        let record = UserPreferenceRecord {
            id: random_id(),
            skill_id: skill_id.to_owned(),
            preference_type: preference_type.to_owned(),
            created_at: now_text(),
        };
        (Database::write_preference(&record), record)
    }

    /// Writes an experiment.
    pub fn write_experiment(record: &ExperimentRecord) -> (r: Statement)
        ensures
            r@ == (StatementView {
                sql: statement::insert_sql(
                    "INSERT INTO skill_experiments"@,
                    ExperimentRecord::names(),
                ),
                params: record.values(),
            }),
    {
        insert_record("INSERT INTO skill_experiments", record)
    }

    /// Writes a new experiment with variants of a skill.
    pub fn create_skill_experiment(
        skill_id: &str,
        scope: &str,
        scope_id: Option<&str>,
        variants_json: &str,
        allocation_json: &str,
        status: &str,
    ) -> (r: (Statement, ExperimentRecord))
        ensures
            r.0@ == (StatementView {
                sql: statement::insert_sql(
                    "INSERT INTO skill_experiments"@,
                    ExperimentRecord::names(),
                ),
                params: r.1.values(),
            }),
            clock::is_random_id(r.1.id@),
            r.1.skill_id@ == skill_id@,
            r.1.scope@ == scope@,
            text::opt_text(r.1.scope_id) == text::opt_str(scope_id),
            r.1.variants_json@ == variants_json@,
            r.1.allocation_json@ == allocation_json@,
            r.1.status@ == status@,
            is_clock_text(r.1.started_at@),
    {
        let record = ExperimentRecord {
            id: random_id(),
            skill_id: skill_id.to_owned(),
            scope: scope.to_owned(),
            scope_id: owned(scope_id),
            variants_json: variants_json.to_owned(),
            allocation_json: allocation_json.to_owned(),
            status: status.to_owned(),
            started_at: now_text(),
        };
        (Database::write_experiment(&record), record)
    }

    /// A page of the experiments, with a skill or with all, the latest first. Each row is an
    /// [`ExperimentRecord`].
    pub fn list_skill_experiments(skill_id: Option<&str>, limit: usize, offset: usize) -> (r:
        Statement)
        ensures
            r@ == (match skill_id {
                Some(id) => StatementView {
                    sql: statement::select_sql(
                        ExperimentRecord::names(),
                        statement::from_sql("skill_experiments"@, seq!["skill_id"@])
                            + " ORDER BY started_at DESC LIMIT ? OFFSET ?"@,
                    ),
                    params: seq![
                        ValueView::Text(id@),
                        statement::size_value(limit),
                        statement::size_value(offset),
                    ],
                },
                None => StatementView {
                    sql: statement::select_sql(
                        ExperimentRecord::names(),
                        statement::from_sql("skill_experiments"@, seq![])
                            + " ORDER BY started_at DESC LIMIT ? OFFSET ?"@,
                    ),
                    params: seq![statement::size_value(limit), statement::size_value(offset)],
                },
            }),
    {
        let mut keys: Vec<&'static str> = Vec::new();
        if skill_id.is_some() {
            keys.push("skill_id");
        }
        proof {
            if skill_id is Some {
                assert(statement::words(keys@) == seq!["skill_id"@]);
            } else {
                assert(statement::words(keys@) == Seq::<Seq<char>>::empty());
            }
        }
        let mut rest = from_text("skill_experiments", &keys);
        rest.append(" ORDER BY started_at DESC LIMIT ? OFFSET ?");
        let page = select_records::<ExperimentRecord>(rest.as_str());
        match skill_id {
            Some(id) => page.text(id).size(limit).size(offset),
            None => page.size(limit).size(offset),
        }
    }

    /// Writes an event of an experiment.
    pub fn write_experiment_event(record: &ExperimentEventRecord) -> (r: Statement)
        ensures
            r@ == (StatementView {
                sql: statement::insert_sql(
                    "INSERT INTO skill_experiment_events"@,
                    ExperimentEventRecord::names(),
                ),
                params: record.values(),
            }),
    {
        insert_record("INSERT INTO skill_experiment_events", record)
    }

    /// Writes a new event of an experiment.
    pub fn record_skill_experiment_event(
        experiment_id: &str,
        variant_id: &str,
        event_type: &str,
        metrics_json: Option<&str>,
        context_json: Option<&str>,
        session_id: Option<&str>,
    ) -> (r: (Statement, ExperimentEventRecord))
        ensures
            r.0@ == (StatementView {
                sql: statement::insert_sql(
                    "INSERT INTO skill_experiment_events"@,
                    ExperimentEventRecord::names(),
                ),
                params: r.1.values(),
            }),
            clock::is_random_id(r.1.id@),
            r.1.experiment_id@ == experiment_id@,
            r.1.variant_id@ == variant_id@,
            r.1.event_type@ == event_type@,
            text::opt_text(r.1.metrics_json) == text::opt_str(metrics_json),
            text::opt_text(r.1.context_json) == text::opt_str(context_json),
            text::opt_text(r.1.session_id) == text::opt_str(session_id),
            is_clock_text(r.1.created_at@),
    {
        let record = ExperimentEventRecord {
            id: random_id(),
            experiment_id: experiment_id.to_owned(),
            variant_id: variant_id.to_owned(),
            event_type: event_type.to_owned(),
            metrics_json: owned(metrics_json),
            context_json: owned(context_json),
            session_id: owned(session_id),
            created_at: now_text(),
        };
        (Database::write_experiment_event(&record), record)
    }
}

/// What comes of setting the status of an experiment, by how many rows that changed.
pub open spec fn update_outcome(id: Seq<char>, updated: nat) -> Result<(), ErrorView> {
    if updated == 0 {
        Err(ErrorView::NotFound("experiment not found: "@ + id))
    } else {
        Ok(())
    }
}

/// What came of setting the status of an experiment: it must have been there.
pub fn experiment_updated(id: &str, updated: usize) -> (r: Result<(), MsError>)
    ensures
        match r {
            Ok(_) => update_outcome(id@, updated as nat) == Ok::<(), ErrorView>(()),
            Err(error) => update_outcome(id@, updated as nat) == Err::<(), ErrorView>(error@),
        },
{
    if updated == 0 {
        Err(MsError::NotFound(concat("experiment not found: ", id)))
    } else {
        Ok(())
    }
}

/// Setting the status of an experiment changes that status alone. Where there is no such
/// experiment nothing changes, and that is an error.
pub proof fn status_alone_is_set(
    kept: TableView,
    id: Seq<char>,
    status: Seq<char>,
    other: Seq<ValueView>,
)
    requires
        table::is_keyed(kept, table::keys_of::<ExperimentRecord>()),
    ensures
        ({
            let key = seq![ValueView::Text(id)];
            let names = ExperimentRecord::names();
            let after = table::updated(kept, key, "status"@, ValueView::Text(status));
            let outcome = update_outcome(id, table::updated_rows(kept, key));
            &&& match table::found(kept, key, names) {
                None => after == kept && outcome == Err::<(), ErrorView>(
                    ErrorView::NotFound("experiment not found: "@ + id),
                ),
                Some(held) => outcome == Ok::<(), ErrorView>(()) && table::found(
                    after,
                    key,
                    names,
                ) == Some(held.update(6, ValueView::Text(status))),
            }
            &&& other != key ==> table::found(after, other, names) == table::found(
                kept,
                other,
                names,
            )
            &&& table::is_keyed(after, table::keys_of::<ExperimentRecord>())
        }),
{
    let value = ValueView::Text(status);
    assert(ExperimentRecord::names()[6] == "status"@);
    table::column_alone_is_set::<ExperimentRecord>(
        kept,
        seq![ValueView::Text(id)],
        6,
        value,
        other,
    );
}

/// Whether a row that holds 0 or 1 holds 1.
pub fn read_exists(row: &Row) -> (r: Result<bool, MsError>)
    ensures
        match r {
            Ok(exists) => {
                &&& row::column_problem(
                    statement::values(row@),
                    0,
                    row::Kind::SmallInteger,
                ) is None
                &&& exists == (row::integer_in(statement::values(row@)[0]) == 1)
            },
            Err(error) => {
                let problem = row::column_problem(
                    statement::values(row@),
                    0,
                    row::Kind::SmallInteger,
                );
                problem is Some && error@ == row::row_error(problem)
            },
        },
{
    match row::check_column(row, 0, row::Kind::SmallInteger) {
        Some(problem) => Err(MsError::Database(problem.message())),
        None => Ok(row::integer_of(&row[0]) == 1),
    }
}

/// Keywords are written as a list of texts, and none as `NULL`.
pub proof fn keywords_are_written_as_a_list(words: Seq<Seq<char>>)
    ensures
        keywords_value(Some(words)) == ValueView::Text(json::texts_written(words)),
        keywords_value(None) == ValueView::Null,
{
}

} // verus!
