use meta_skill::storage::clock::UtcTime;
use meta_skill::storage::embedding::EmbeddingRecord;
use meta_skill::storage::quality::SessionQualityRecord;
use meta_skill::storage::record::SkillRecord;
use meta_skill::storage::security::{CommandSafetyEvent, QuarantineRecord};
use meta_skill::storage::sqlite::{Database, SkillMetadata};
use meta_skill::storage::statement::{Real, Statement};
use meta_skill::storage::tx::{TxPhase, TxRecord};

fn word(t: &str) -> String {
    t.to_string()
}

#[test]
fn every_statement_has_its_text() {
    let score = Real::Integer(1);
    let record = SkillRecord {
        id: word("a"),
        name: word("A"),
        description: word("d"),
        version: None,
        author: None,
        source_path: word("p"),
        source_layer: word("base"),
        git_remote: None,
        git_commit: None,
        content_hash: word("h"),
        body: word("b"),
        metadata_json: word("{}"),
        assets_json: word("{}"),
        token_count: 1,
        quality_score: score,
        indexed_at: word("t"),
        modified_at: word("t"),
        is_deprecated: false,
        deprecation_reason: None,
    };
    let metadata = SkillMetadata {
        id: word("a"),
        name: word("A"),
        description: word("d"),
        version: None,
        author: None,
    };
    let embedding = EmbeddingRecord {
        skill_id: word("a"),
        embedding: vec![1],
        dims: 1,
        embedder_type: word("hash"),
        content_hash: None,
        computed_at: word("t"),
    };
    let quarantined = QuarantineRecord {
        quarantine_id: word("q"),
        session_id: word("s"),
        message_index: 0,
        content_hash: word("h"),
        safe_excerpt: word("x"),
        acip_classification: word("{}"),
        audit_tag: None,
        created_at: word("t"),
        replay_command: word("r"),
    };
    let judgement = CommandSafetyEvent {
        session_id: None,
        command: word("ls"),
        dcg_version: None,
        dcg_pack: None,
        decision: word("{}"),
        created_at: word("t"),
    };
    let transaction = TxRecord {
        id: word("t"),
        entity_type: word("skill"),
        entity_id: word("a"),
        phase: TxPhase::Prepare,
        payload_json: word("{}"),
        created_at: UtcTime { seconds: 0, nanos: 0 },
    };
    let quality = SessionQualityRecord {
        session_id: word("s"),
        content_hash: word("h"),
        score,
        signals: Vec::new(),
        missing: Vec::new(),
        computed_at: word("t"),
    };
    let (mark, event) = Database::record_skill_outcome("a", true);
    let (total, counts, last) = Database::get_skill_usage_stats();
    let table: Vec<(Statement, &str)> = vec![
        (
            Database::get_skill("a"),
            "SELECT id, name, description, version, author, source_path, source_layer, \
             git_remote, git_commit, content_hash, body, metadata_json, assets_json, token_count, \
             quality_score, indexed_at, modified_at, is_deprecated, deprecation_reason FROM \
             skills WHERE id = ?",
        ),
        (
            Database::get_skills_by_name("a"),
            "SELECT id, name, description, version, author, source_path, source_layer, \
             git_remote, git_commit, content_hash, body, metadata_json, assets_json, token_count, \
             quality_score, indexed_at, modified_at, is_deprecated, deprecation_reason FROM \
             skills WHERE name = ? ORDER BY modified_at DESC",
        ),
        (
            Database::list_skills(1, 2),
            "SELECT id, name, description, version, author, source_path, source_layer, \
             git_remote, git_commit, content_hash, body, metadata_json, assets_json, token_count, \
             quality_score, indexed_at, modified_at, is_deprecated, deprecation_reason FROM \
             skills ORDER BY modified_at DESC LIMIT ? OFFSET ?",
        ),
        (
            Database::update_skill_quality("a", score),
            "UPDATE skills SET quality_score = ? WHERE id = ?",
        ),
        (
            Database::update_skill_deprecation("a", true, None),
            "UPDATE skills SET is_deprecated = ?, deprecation_reason = ? WHERE id = ?",
        ),
        (
            Database::count_skill_usage("a"),
            "SELECT COUNT(*) FROM skill_usage WHERE skill_id = ?",
        ),
        (
            Database::record_skill_usage("a", None, 1, None, None, None),
            "INSERT INTO skill_usage (skill_id, project_path, used_at, disclosure_level, \
             context_keywords, success_signal, experiment_id, variant_id) VALUES (?, ?, ?, ?, ?, \
             NULL, ?, ?)",
        ),
        (
            Database::count_skill_evidence("a"),
            "SELECT COUNT(*) FROM skill_evidence WHERE skill_id = ?",
        ),
        (
            Database::upsert_skill(&record),
            "INSERT INTO skills (id, name, description, version, author, source_path, \
             source_layer, git_remote, git_commit, content_hash, body, metadata_json, \
             assets_json, token_count, quality_score, indexed_at, modified_at, is_deprecated, \
             deprecation_reason) VALUES (?, ?, ?, ?, ?, ?, ?, ?, ?, ?, ?, ?, ?, ?, ?, ?, ?, ?, ?) \
             ON CONFLICT(id) DO UPDATE SET name=excluded.name, description=excluded.description, \
             version=excluded.version, author=excluded.author, source_path=excluded.source_path, \
             source_layer=excluded.source_layer, git_remote=excluded.git_remote, \
             git_commit=excluded.git_commit, content_hash=excluded.content_hash, \
             body=excluded.body, metadata_json=excluded.metadata_json, \
             assets_json=excluded.assets_json, token_count=excluded.token_count, \
             quality_score=excluded.quality_score, indexed_at=excluded.indexed_at, \
             modified_at=excluded.modified_at, is_deprecated=excluded.is_deprecated, \
             deprecation_reason=excluded.deprecation_reason",
        ),
        (
            Database::record_skill_origin("a", "p", "r"),
            "INSERT INTO skill_origins (skill_id, origin_path, origin_root, recorded_at) VALUES \
             (?, ?, ?, datetime('now')) ON CONFLICT(skill_id) DO UPDATE SET \
             origin_path=excluded.origin_path, origin_root=excluded.origin_root, \
             recorded_at=excluded.recorded_at",
        ),
        (
            Database::get_skill_origin("a"),
            "SELECT origin_path, origin_root FROM skill_origins WHERE skill_id = ?",
        ),
        (
            Database::list_skill_origins(),
            "SELECT o.skill_id, s.name, o.origin_path, o.origin_root, o.recorded_at FROM \
             skill_origins o JOIN skills s ON s.id = o.skill_id ORDER BY o.skill_id",
        ),
        (
            Database::count_skill_feedback("a"),
            "SELECT COUNT(*) FROM skill_feedback WHERE skill_id = ?",
        ),
        (
            Database::delete_pending_skill("a"),
            "DELETE FROM skills WHERE id = ? AND source_path = 'pending'",
        ),
        (
            Database::delete_tx_record("t"),
            "DELETE FROM tx_log WHERE id = ?",
        ),
        (
            Database::resolve_alias("x"),
            "SELECT skill_id, alias_type FROM skill_aliases WHERE alias = ?",
        ),
        (
            Database::upsert_alias("x", "a", "t", "c"),
            "INSERT INTO skill_aliases (alias, skill_id, alias_type, created_at) VALUES (?, ?, ?, \
             ?) ON CONFLICT(alias) DO UPDATE SET skill_id=excluded.skill_id, \
             alias_type=excluded.alias_type, created_at=excluded.created_at",
        ),
        (
            Database::delete_alias("x"),
            "DELETE FROM skill_aliases WHERE alias = ?",
        ),
        (
            Database::list_aliases(Some("a")),
            "SELECT alias, skill_id, alias_type, created_at FROM skill_aliases WHERE skill_id = ? \
             ORDER BY alias",
        ),
        (
            Database::list_aliases(None),
            "SELECT alias, skill_id, alias_type, created_at FROM skill_aliases ORDER BY skill_id, \
             alias",
        ),
        (
            Database::get_aliases_for_skill("a"),
            "SELECT alias FROM skill_aliases WHERE skill_id = ? ORDER BY alias",
        ),
        (
            Database::search_fts("word", 1).unwrap(),
            "SELECT id, source_layer, metadata_json, quality_score, is_deprecated, name, \
             description, body FROM skills ORDER BY quality_score DESC, id ASC",
        ),
        (
            Database::get_skill_candidate("a"),
            "SELECT id, source_layer, metadata_json, quality_score, is_deprecated FROM skills \
             WHERE id = ?",
        ),
        (
            Database::upsert_embedding(&embedding).unwrap(),
            "INSERT INTO skill_embeddings (skill_id, embedding, dims, embedder_type, \
             content_hash, computed_at, created_at) VALUES (?, ?, ?, ?, ?, ?, ?) ON \
             CONFLICT(skill_id) DO UPDATE SET embedding=excluded.embedding, dims=excluded.dims, \
             embedder_type=excluded.embedder_type, content_hash=excluded.content_hash, \
             computed_at=excluded.computed_at",
        ),
        (
            Database::get_embedding("a"),
            "SELECT skill_id, embedding, dims, embedder_type, content_hash, computed_at, \
             created_at FROM skill_embeddings WHERE skill_id = ?",
        ),
        (
            Database::get_embedding_by_hash("h", "t", 3),
            "SELECT skill_id, embedding, dims, embedder_type, content_hash, computed_at, \
             created_at FROM skill_embeddings WHERE content_hash = ? AND embedder_type = ? AND \
             dims = ? LIMIT 1",
        ),
        (
            Database::get_all_embeddings(),
            "SELECT skill_id, embedding, dims FROM skill_embeddings",
        ),
        (
            Database::insert_quarantine_record(&quarantined),
            "INSERT INTO injection_quarantine (quarantine_id, session_id, message_index, \
             content_hash, safe_excerpt, classification_json, audit_tag, created_at, \
             replay_command) VALUES (?, ?, ?, ?, ?, ?, ?, ?, ?)",
        ),
        (
            Database::insert_command_safety_event(&judgement),
            "INSERT INTO command_safety_events (session_id, command, dcg_version, dcg_pack, \
             decision_json, created_at) VALUES (?, ?, ?, ?, ?, ?)",
        ),
        (
            Database::list_command_safety_events(4),
            "SELECT session_id, command, dcg_version, dcg_pack, decision_json, created_at FROM \
             command_safety_events ORDER BY created_at DESC LIMIT ?",
        ),
        (
            Database::list_quarantine_records(1),
            "SELECT quarantine_id, session_id, message_index, content_hash, safe_excerpt, \
             classification_json, audit_tag, created_at, replay_command FROM injection_quarantine \
             ORDER BY created_at DESC LIMIT ?",
        ),
        (
            Database::list_quarantine_records_by_session("s", 1),
            "SELECT quarantine_id, session_id, message_index, content_hash, safe_excerpt, \
             classification_json, audit_tag, created_at, replay_command FROM injection_quarantine \
             WHERE session_id = ? ORDER BY created_at DESC LIMIT ?",
        ),
        (
            Database::get_quarantine_record("q"),
            "SELECT quarantine_id, session_id, message_index, content_hash, safe_excerpt, \
             classification_json, audit_tag, created_at, replay_command FROM injection_quarantine \
             WHERE quarantine_id = ?",
        ),
        (
            Database::insert_quarantine_review("q", "a", None).0,
            "INSERT INTO injection_quarantine_reviews (id, quarantine_id, action, reason, \
             created_at) VALUES (?, ?, ?, ?, ?)",
        ),
        (
            Database::list_quarantine_reviews("q"),
            "SELECT id, quarantine_id, action, reason, created_at FROM \
             injection_quarantine_reviews WHERE quarantine_id = ? ORDER BY created_at DESC",
        ),
        (
            Database::insert_tx_record(&transaction),
            "INSERT INTO tx_log (id, entity_type, entity_id, phase, payload_json, created_at) \
             VALUES (?, ?, ?, ?, ?, ?)",
        ),
        (
            Database::update_tx_phase("t", TxPhase::Complete),
            "UPDATE tx_log SET phase = ? WHERE id = ?",
        ),
        (
            Database::tx_exists("t"),
            "SELECT EXISTS(SELECT 1 FROM tx_log WHERE id = ?)",
        ),
        (
            Database::list_incomplete_transactions(),
            "SELECT id, entity_type, entity_id, phase, payload_json, created_at FROM tx_log WHERE \
             phase != 'complete'",
        ),
        (
            Database::upsert_skill_pending(&metadata, "base", "{}", 3),
            "INSERT INTO skills (id, name, description, version, author, source_path, \
             source_layer, content_hash, body, metadata_json, assets_json, token_count, \
             quality_score, indexed_at, modified_at) VALUES (?, ?, ?, ?, ?, 'pending', ?, \
             'pending', '', ?, '{}', ?, 0.0, datetime('now'), datetime('now')) ON CONFLICT(id) DO \
             UPDATE SET name=excluded.name, description=excluded.description, \
             version=excluded.version, author=excluded.author, \
             source_layer=excluded.source_layer, metadata_json=excluded.metadata_json, \
             token_count=excluded.token_count, modified_at=excluded.modified_at",
        ),
        (
            Database::finalize_skill_commit("a", "p", "h", "b"),
            "UPDATE skills SET source_path = ?, content_hash = ?, body = ?, modified_at = \
             datetime('now') WHERE id = ?",
        ),
        (
            Database::integrity_check(),
            "PRAGMA integrity_check",
        ),
        (
            Database::get_session_quality("s"),
            "SELECT session_id, content_hash, score, signals_json, missing_json, computed_at FROM \
             session_quality WHERE session_id = ?",
        ),
        (
            Database::upsert_session_quality(&quality),
            "INSERT INTO session_quality (session_id, content_hash, score, signals_json, \
             missing_json, computed_at) VALUES (?, ?, ?, ?, ?, ?) ON CONFLICT(session_id) DO \
             UPDATE SET content_hash=excluded.content_hash, score=excluded.score, \
             signals_json=excluded.signals_json, missing_json=excluded.missing_json, \
             computed_at=excluded.computed_at",
        ),
        (
            Database::upsert_evidence("a", "r", "[]", "{}"),
            "INSERT INTO skill_evidence (skill_id, rule_id, evidence_json, coverage_json, \
             updated_at) VALUES (?, ?, ?, ?, ?) ON CONFLICT(skill_id, rule_id) DO UPDATE SET \
             evidence_json=excluded.evidence_json, coverage_json=excluded.coverage_json, \
             updated_at=excluded.updated_at",
        ),
        (
            Database::get_evidence("a"),
            "SELECT rule_id, evidence_json, coverage_json FROM skill_evidence WHERE skill_id = ? \
             ORDER BY rule_id",
        ),
        (
            Database::get_rule_evidence("a", "r"),
            "SELECT evidence_json FROM skill_evidence WHERE skill_id = ? AND rule_id = ?",
        ),
        (
            Database::list_all_evidence(),
            "SELECT skill_id, rule_id, evidence_json, updated_at FROM skill_evidence ORDER BY \
             skill_id, rule_id",
        ),
        (
            Database::delete_skill_evidence("a"),
            "DELETE FROM skill_evidence WHERE skill_id = ?",
        ),
        (
            Database::record_skill_feedback("a", "t", None, None).0,
            "INSERT INTO skill_feedback (id, skill_id, feedback_type, rating, comment, \
             created_at) VALUES (?, ?, ?, ?, ?, ?)",
        ),
        (
            Database::set_user_preference("a", "t").0,
            "INSERT OR REPLACE INTO user_preferences (id, skill_id, preference_type, created_at) \
             VALUES (?, ?, ?, ?)",
        ),
        (
            Database::remove_user_preference("a", "t"),
            "DELETE FROM user_preferences WHERE skill_id = ? AND preference_type = ?",
        ),
        (
            Database::has_user_preference("a", "t"),
            "SELECT COUNT(*) FROM user_preferences WHERE skill_id = ? AND preference_type = ?",
        ),
        (
            Database::list_user_preferences("t", 1, 2),
            "SELECT id, skill_id, preference_type, created_at FROM user_preferences WHERE \
             preference_type = ? ORDER BY created_at DESC LIMIT ? OFFSET ?",
        ),
        (
            Database::get_skill_preferences("a"),
            "SELECT id, skill_id, preference_type, created_at FROM user_preferences WHERE \
             skill_id = ? ORDER BY created_at DESC",
        ),
        (
            Database::create_skill_experiment("a", "s", None, "[]", "{}", "on").0,
            "INSERT INTO skill_experiments (id, skill_id, scope, scope_id, variants_json, \
             allocation_json, status, started_at) VALUES (?, ?, ?, ?, ?, ?, ?, ?)",
        ),
        (
            Database::get_skill_experiment("e"),
            "SELECT id, skill_id, scope, scope_id, variants_json, allocation_json, status, \
             started_at FROM skill_experiments WHERE id = ?",
        ),
        (
            Database::update_skill_experiment_status("e", "off"),
            "UPDATE skill_experiments SET status = ? WHERE id = ?",
        ),
        (
            Database::record_skill_experiment_event("e", "v", "t", None, None, None).0,
            "INSERT INTO skill_experiment_events (id, experiment_id, variant_id, event_type, \
             metrics_json, context_json, session_id, created_at) VALUES (?, ?, ?, ?, ?, ?, ?, ?)",
        ),
        (
            Database::list_skill_experiment_events("e"),
            "SELECT id, experiment_id, variant_id, event_type, metrics_json, context_json, \
             session_id, created_at FROM skill_experiment_events WHERE experiment_id = ? ORDER BY \
             created_at ASC",
        ),
        (
            Database::list_skill_feedback(Some("a"), 1, 2),
            "SELECT id, skill_id, feedback_type, rating, comment, created_at FROM skill_feedback \
             WHERE skill_id = ? ORDER BY created_at DESC LIMIT ? OFFSET ?",
        ),
        (
            Database::list_skill_feedback(None, 1, 2),
            "SELECT id, skill_id, feedback_type, rating, comment, created_at FROM skill_feedback \
             ORDER BY created_at DESC LIMIT ? OFFSET ?",
        ),
        (
            Database::list_skill_experiments(Some("a"), 1, 2),
            "SELECT id, skill_id, scope, scope_id, variants_json, allocation_json, status, \
             started_at FROM skill_experiments WHERE skill_id = ? ORDER BY started_at DESC LIMIT \
             ? OFFSET ?",
        ),
        (
            Database::list_skill_experiments(None, 1, 2),
            "SELECT id, skill_id, scope, scope_id, variants_json, allocation_json, status, \
             started_at FROM skill_experiments ORDER BY started_at DESC LIMIT ? OFFSET ?",
        ),
        (
            mark,
            "UPDATE skill_usage SET success_signal = ? WHERE id = (SELECT id FROM skill_usage \
             WHERE skill_id = ? ORDER BY used_at DESC LIMIT 1)",
        ),
        (
            event,
            "INSERT INTO skill_usage_events (id, skill_id, session_id, loaded_at, \
             disclosure_level, discovery_method, outcome, feedback) VALUES (?, ?, 'manual', ?, \
             'full', 'manual', ?, 'null')",
        ),
        (
            total,
            "SELECT COUNT(*) FROM skill_usage",
        ),
        (
            counts,
            "SELECT skill_id, COUNT(*) as count FROM skill_usage GROUP BY skill_id",
        ),
        (
            last,
            "SELECT skill_id, MAX(used_at) as last_used FROM skill_usage GROUP BY skill_id",
        ),
    ];
    for (statement, sql) in &table {
        assert_eq!(statement.sql, *sql);
        assert_eq!(statement.sql.matches('?').count(), statement.params.len(), "{sql}");
    }
    assert_eq!(
        Database::configure_pragmas(),
        "PRAGMA journal_mode = WAL; PRAGMA synchronous = NORMAL; PRAGMA cache_size = -64000; \
         PRAGMA mmap_size = 268435456; PRAGMA temp_store = MEMORY; PRAGMA foreign_keys = ON;"
    );
}

#[test]
fn pending_skill_keeps_what_was_committed() {
    let metadata = SkillMetadata {
        id: word("a"),
        name: word("A"),
        description: word("d"),
        version: Some(word("1")),
        author: None,
    };
    let pending = Database::upsert_skill_pending(&metadata, "base", "{}", 3);
    let (_, replaced) = pending.sql.split_once(" DO UPDATE SET ").expect("a row that is there");
    for kept in ["source_path=", "content_hash=", "body=", "quality_score="] {
        assert!(!replaced.contains(kept), "{kept}");
    }
    for changed in ["name=", "description=", "source_layer=", "token_count="] {
        assert!(replaced.contains(changed), "{changed}");
    }
}

#[test]
fn embedding_keeps_when_its_row_was_made() {
    let embedding = EmbeddingRecord {
        skill_id: word("a"),
        embedding: vec![1, 2],
        dims: 2,
        embedder_type: word("hash"),
        content_hash: Some(word("h")),
        computed_at: word("t"),
    };
    let written = Database::upsert_embedding(&embedding).unwrap();
    let (_, replaced) = written.sql.split_once(" DO UPDATE SET ").expect("a row that is there");
    assert!(!replaced.contains("created_at"));
    assert!(replaced.contains("computed_at=excluded.computed_at"));
}
