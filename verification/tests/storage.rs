use meta_skill::error::MsError;
use meta_skill::storage::clock::{now_text, UtcTime};
use meta_skill::storage::embedding::{
    all_embeddings, decode_embedding_f16, embedding_found, encode_embedding_f16, EmbeddingRecord,
};
use meta_skill::storage::evidence::{
    evidence_index, evidence_records, rule_evidence, EvidenceRef, EvidenceRow, RuleEvidenceRow,
};
use meta_skill::storage::quality::{session_quality_found, SessionQualityRecord};
use meta_skill::storage::record::{
    skill_from_row, AliasRecord, AliasResolution, ExperimentEventRecord, ExperimentRecord,
    OriginPlace, SkillFeedbackRecord, SkillOriginRecord, SkillRecord, SkillSearchCandidate,
    UserPreferenceRecord,
};
use meta_skill::storage::row::{read_found, read_one, read_row, read_rows, Row, RowError};
use meta_skill::storage::search::{search_results, select_matches};
use meta_skill::storage::security::{
    classification_in, classification_read, command_safety_events, quarantine_from_row,
    CommandSafetyEvent, CommandSafetyRawRow,
};
use meta_skill::storage::sqlite::{
    any_changed, experiment_updated, read_any, read_count, read_exists, read_integrity, Database,
};
use meta_skill::storage::statement::{Real, SqlValue};
use meta_skill::storage::text_map::{place_of, Place, TextMap};
use meta_skill::storage::tx::{incomplete_transactions, TxPhase, TxRecord};
use meta_skill::storage::usage::usage_stats;

fn text(t: &str) -> SqlValue {
    SqlValue::Text(t.to_string())
}

fn as_text(value: &SqlValue) -> &str {
    match value {
        SqlValue::Text(t) => t,
        _ => panic!("a text"),
    }
}

fn float(x: f64) -> Real {
    Real::Float(x.to_bits())
}

fn skill(id: &str, name: &str, description: &str, body: &str, quality: f64) -> SkillRecord {
    SkillRecord {
        id: id.to_string(),
        name: name.to_string(),
        description: description.to_string(),
        version: Some("1.0.0".to_string()),
        author: None,
        source_path: "/skills/x".to_string(),
        source_layer: "base".to_string(),
        git_remote: None,
        git_commit: None,
        content_hash: "abc123".to_string(),
        body: body.to_string(),
        metadata_json: "{}".to_string(),
        assets_json: "{}".to_string(),
        token_count: 100,
        quality_score: float(quality),
        indexed_at: "2026-01-01T00:00:00Z".to_string(),
        modified_at: "2026-01-01T00:00:00Z".to_string(),
        is_deprecated: false,
        deprecation_reason: None,
    }
}

/// The row that a search reads of a skill, taken from what the skill is written as.
fn search_row(skill: &SkillRecord) -> Row {
    let p = Database::upsert_skill(skill).params;
    [0, 6, 11, 14, 17, 1, 2, 10].iter().map(|i| p[*i].clone()).collect()
}

fn search(skills: &[SkillRecord], query: &str, limit: usize) -> Vec<SkillSearchCandidate> {
    match Database::search_fts(query, limit) {
        None => Vec::new(),
        Some(_) => {
            let rows: Vec<Row> = skills.iter().map(search_row).collect();
            search_results(&rows, query, limit).expect("rows can be read")
        }
    }
}

#[test]
fn search_keeps_order_and_limit() {
    let skills = [
        skill("a", "Alpha ONE", "", "shared", 0.9),
        skill("b", "Beta", "one", "other", 0.8),
        skill("c", "Gamma one", "", "SHARED", 0.7),
    ];
    let ids = |list: Vec<SkillSearchCandidate>| -> Vec<String> {
        list.into_iter().map(|c| c.id).collect()
    };
    assert_eq!(ids(search(&skills, "One", 10)), ["a", "b", "c"]);
    assert_eq!(ids(search(&skills, "one shared", 10)), ["a", "c"]);
    assert_eq!(ids(search(&skills, "one", 2)), ["a", "b"]);
    assert!(search(&skills, "one", 0).is_empty());
    assert!(Database::search_fts("one", 0).is_none());
    assert!(Database::search_fts(" \t", 5).is_none());
    assert_eq!(Database::search_tokens("  Foo BAR\u{3000}ÄÖ "), ["foo", "bar", "äö"]);
    assert_eq!(
        Database::search_fts("one", 5).unwrap().sql,
        "SELECT id, source_layer, metadata_json, quality_score, is_deprecated, name, description, \
         body FROM skills ORDER BY quality_score DESC, id ASC"
    );
    let none = select_matches(&Vec::new(), &Vec::new(), &vec!["x".to_string()], 3);
    assert!(none.is_empty());
    let bad = vec![vec![SqlValue::Null]];
    match search_results(&bad, "one", 5) {
        Err(MsError::Database(words)) => {
            assert_eq!(words, "type mismatch: expected text, got null");
        }
        _ => panic!("a row that cannot be read"),
    }
}

#[test]
fn rows_are_read_by_type() {
    let number = |value: SqlValue| read_one::<i64>(&vec![value]);
    assert_eq!(number(SqlValue::Integer(7)).unwrap(), 7);
    match number(text("7")) {
        Err(MsError::Database(words)) => {
            assert_eq!(words, "type mismatch: expected integer, got text");
        }
        _ => panic!("a text is no integer"),
    }
    match read_row::<String>(&Vec::new()) {
        Err(RowError::NoSuchColumn(0)) => {}
        _ => panic!("there is no column"),
    }
    match read_one::<String>(&Vec::new()) {
        Err(MsError::Database(words)) => {
            assert_eq!(words, "no such column: column index 0");
        }
        _ => panic!("there is no column"),
    }
    match read_row::<AliasResolution>(&vec![text("s"), SqlValue::Blob(vec![1])]) {
        Err(RowError::TypeMismatch { expected, actual }) => {
            assert_eq!((expected.as_str(), actual.as_str()), ("text", "blob"));
        }
        _ => panic!("a blob is no text"),
    }
    let rows = vec![vec![text("a")], vec![SqlValue::Real(0)], vec![SqlValue::Null]];
    match read_rows::<String>(&rows) {
        Err(MsError::Database(words)) => {
            assert_eq!(words, "type mismatch: expected text, got real");
        }
        _ => panic!("the second row is no text"),
    }
    assert_eq!(read_rows::<String>(&rows[..1].to_vec()).unwrap(), ["a"]);
    assert!(read_found::<String>(&None).unwrap().is_none());
}

#[test]
fn numbers_may_be_whole() {
    let mut row = Database::upsert_skill(&skill("a", "A", "", "", 1.0)).params;
    row[14] = SqlValue::Integer(1);
    row[17] = SqlValue::Integer(-3);
    let fetched = skill_from_row(&row).unwrap();
    assert_eq!(fetched.quality_score, Real::Integer(1));
    assert!(fetched.is_deprecated);
    row[14] = SqlValue::Null;
    assert!(skill_from_row(&row).is_err());
    row.truncate(14);
    assert!(matches!(skill_from_row(&row), Err(RowError::NoSuchColumn(14))));
}

#[test]
fn single_values_are_read() {
    let row = |n: i64| vec![SqlValue::Integer(n)];
    assert_eq!(read_count(&row(5)).unwrap(), 5);
    assert_eq!(read_count(&row(-5)).unwrap(), 0);
    assert!(read_count(&vec![text("5")]).is_err());
    assert!(read_any(&row(2)).unwrap());
    assert!(!read_any(&row(0)).unwrap());
    assert!(!read_any(&row(-1)).unwrap());
    assert!(read_exists(&row(1)).unwrap());
    assert!(!read_exists(&row(2)).unwrap());
    match read_exists(&row(3_000_000_000)) {
        Err(MsError::Database(words)) => {
            assert_eq!(words, "type mismatch: expected i32, got integer(3000000000)");
        }
        _ => panic!("too large"),
    }
    assert!(read_integrity(&vec![text("ok")]).unwrap());
    assert!(!read_integrity(&vec![text("broken")]).unwrap());
    assert!(any_changed(1));
    assert!(!any_changed(0));
    assert!(experiment_updated("e", 1).is_ok());
    match experiment_updated("e-9", 0) {
        Err(MsError::NotFound(words)) => assert_eq!(words, "experiment not found: e-9"),
        _ => panic!("nothing was updated"),
    }
}

#[test]
fn deletions_bind_their_placeholders() {
    for statement in &Database::delete_skill("a") {
        let marks = statement.sql.matches('?').count();
        assert_eq!(marks, statement.params.len(), "{}", statement.sql);
    }
}

#[test]
fn statements_say_what_they_do() {
    let s = Database::list_skills(10, 20);
    assert!(s.sql.ends_with("FROM skills ORDER BY modified_at DESC LIMIT ? OFFSET ?"));
    assert!(matches!(s.params[..], [SqlValue::Integer(10), SqlValue::Integer(20)]));
    let s = Database::update_skill_deprecation("a", true, Some("old"));
    assert!(matches!(s.params[0], SqlValue::Integer(1)));
    assert_eq!(as_text(&s.params[1]), "old");
    let s = Database::list_skill_feedback(Some("a"), 5, 6);
    assert_eq!(
        s.sql,
        "SELECT id, skill_id, feedback_type, rating, comment, created_at FROM skill_feedback \
         WHERE skill_id = ? ORDER BY created_at DESC LIMIT ? OFFSET ?"
    );
    let s = Database::list_skill_experiments(None, 5, 6);
    assert!(s.sql.ends_with("FROM skill_experiments ORDER BY started_at DESC LIMIT ? OFFSET ?"));
    assert!(Database::configure_pragmas().contains("PRAGMA foreign_keys = ON;"));
    assert_eq!(Database::migrated(13).schema_version(), 13);
    let s = Database::skill_usage_at(
        "now",
        "a",
        Some("/p"),
        2,
        Some(&vec!["k \"1\"".to_string()]),
        None,
        Some("v"),
    );
    assert_eq!(as_text(&s.params[2]), "now");
    assert!(matches!(s.params[3], SqlValue::Integer(2)));
    assert_eq!(as_text(&s.params[4]), r#"["k \"1\""]"#);
    assert!(matches!(s.params[5], SqlValue::Null));
    assert_eq!(as_text(&s.params[6]), "v");
    let (mark, event) = Database::skill_outcome_as("id", "now", "a", false);
    assert!(matches!(mark.params[0], SqlValue::Integer(0)));
    assert_eq!(as_text(&event.params[3]), "failure");
}

#[test]
fn skill_is_deleted_after_what_refers_to_it() {
    let steps = Database::delete_skill("doomed");
    let at = |table: &str| {
        let start = format!("DELETE FROM {table} ");
        steps.iter().position(|s| s.sql.starts_with(&start)).expect("the table is gone through")
    };
    assert_eq!(steps.len(), 18);
    assert!(at("skill_experiment_events") < at("skill_experiments"));
    assert_eq!(at("skills"), 17);
    for table in [
        "skill_usage",
        "skill_feedback",
        "skill_origins",
        "skill_embeddings",
        "resolved_skill_cache",
        "skill_dependency_graph",
    ] {
        assert!(at(table) < 17);
    }
    assert_eq!(steps[9].sql, "DELETE FROM skill_dependencies WHERE skill_id = ? OR depends_on = ?");
    assert_eq!(steps[9].params.len(), 2);
    for step in &steps {
        for value in &step.params {
            assert_eq!(as_text(value), "doomed");
        }
    }
}

#[test]
fn written_records_are_read_back() {
    let alias = Database::upsert_alias("legacy-id", "alias-target", "deprecated", "2026-01-01");
    let read = read_row::<AliasRecord>(&alias.params).unwrap();
    assert_eq!(read.alias, "legacy-id");
    assert_eq!(read.created_at, "2026-01-01");
    let resolved =
        read_row::<AliasResolution>(&vec![alias.params[1].clone(), alias.params[2].clone()])
            .unwrap();
    assert_eq!(resolved.canonical_id, "alias-target");
    assert_eq!(resolved.alias_type, "deprecated");

    let (statement, feedback) = Database::record_skill_feedback("s", "helpful", Some(-2), Some("c"));
    let read = read_row::<SkillFeedbackRecord>(&statement.params).unwrap();
    assert_eq!(read.id, feedback.id);
    assert_eq!(read.rating, Some(-2));
    assert_eq!(read.comment.as_deref(), Some("c"));
    assert_eq!(read.created_at, feedback.created_at);

    let (statement, preference) = Database::set_user_preference("s", "favorite");
    let read = read_row::<UserPreferenceRecord>(&statement.params).unwrap();
    assert_eq!(read.id, preference.id);
    assert_eq!(read.preference_type, "favorite");

    let (statement, experiment) =
        Database::create_skill_experiment("s", "global", None, "[1]", "{}", "running");
    let read = read_row::<ExperimentRecord>(&statement.params).unwrap();
    assert_eq!(read.id, experiment.id);
    assert_eq!(read.scope_id, None);
    assert_eq!(read.status, "running");

    let (statement, event) =
        Database::record_skill_experiment_event("e", "v", "load", None, Some("{}"), Some("sess"));
    let read = read_row::<ExperimentEventRecord>(&statement.params).unwrap();
    assert_eq!(read.id, event.id);
    assert_eq!(read.metrics_json, None);
    assert_eq!(read.context_json.as_deref(), Some("{}"));

    let origin = Database::record_skill_origin("o", "/roots/one/o/SKILL.md", "/roots/one");
    let read = read_row::<OriginPlace>(&origin.params[1..].to_vec()).unwrap();
    assert_eq!(read.origin_path, "/roots/one/o/SKILL.md");
    assert_eq!(read.origin_root, "/roots/one");
    let listed = vec![text("o"), text("o name"), text("p"), text("r"), text("t")];
    assert_eq!(read_row::<SkillOriginRecord>(&listed).unwrap().skill_name, "o name");
}

#[test]
fn ids_are_random_and_times_current() {
    let (_, a) = Database::record_skill_feedback("s", "t", None, None);
    let (_, b) = Database::record_skill_feedback("s", "t", None, None);
    assert_ne!(a.id, b.id);
    for id in [&a.id, &b.id] {
        let parsed: uuid::Uuid = id.parse().expect("an id");
        assert_eq!(parsed.get_version_num(), 4);
        assert_eq!(&parsed.to_string(), id);
    }
    assert!(chrono::DateTime::parse_from_rfc3339(&a.created_at).is_ok());
    assert!(chrono::DateTime::parse_from_rfc3339(&now_text()).is_ok());
    let (_, review) = Database::insert_quarantine_review("q", "confirm", Some("why"));
    assert!(review.id.starts_with("qr_"));
    assert!(review.id[3..].parse::<uuid::Uuid>().is_ok());
}

#[test]
fn quarantine_problems_are_reported() {
    let mut row: Row = vec![text("q"); 9];
    row[2] = SqlValue::Integer(-1);
    let own = serde_json::from_str::<serde_json::Value>("q").unwrap_err();
    match classification_in(&row) {
        Err(problem) => assert_eq!(
            problem.message(),
            format!(
                "type mismatch: expected AcipClassification JSON (string), got invalid JSON: {own}"
            )
        ),
        Ok(_) => panic!("no JSON"),
    }
    assert!(classification_read(Ok(serde_json::Value::Null)).is_ok());
    match quarantine_from_row(&row, Err("odd".to_string())) {
        Err(problem) => assert_eq!(
            problem.message(),
            "type mismatch: expected AcipClassification (typed), got decode error: odd"
        ),
        Ok(_) => panic!("no classification"),
    }
    let read = quarantine_from_row(&row, Ok(())).unwrap();
    assert_eq!(read.message_index, usize::MAX);
    row[5] = SqlValue::Null;
    assert!(matches!(classification_in(&row), Err(RowError::TypeMismatch { .. })));
    row[0] = SqlValue::Integer(1);
    assert!(quarantine_from_row(&row, Ok(())).is_err());
}

#[test]
fn judgements_are_read_back() {
    let event = CommandSafetyEvent {
        session_id: None,
        command: "rm -rf /".to_string(),
        dcg_version: Some("1".to_string()),
        dcg_pack: None,
        decision: r#"{"allowed":false}"#.to_string(),
        created_at: "2026-01-01".to_string(),
    };
    let row = Database::insert_command_safety_event(&event).params;
    assert_eq!(as_text(&row[4]), r#"{"allowed":false}"#);
    let raw = read_rows::<CommandSafetyRawRow>(&vec![row.clone(), row.clone()]).unwrap();
    let read = command_safety_events(&raw, &vec![Ok(()), Ok(())]).unwrap();
    assert_eq!(read.len(), 2);
    assert_eq!(read[1].command, "rm -rf /");
    assert_eq!(read[1].session_id, None);
    assert_eq!(read[1].decision, event.decision);
    let refused = vec![Err("first".to_string()), Err("second".to_string())];
    match command_safety_events(&raw, &refused) {
        Err(MsError::Serialization(words)) => assert_eq!(words, "decode decision: first"),
        _ => panic!("a decision that was not understood"),
    }
    assert!(command_safety_events(&raw, &vec![Ok(()), Err(String::new())]).is_err());
    assert!(command_safety_events(&Vec::new(), &Vec::new()).unwrap().is_empty());
    let mut bad = row;
    bad[4] = SqlValue::Null;
    match read_rows::<CommandSafetyRawRow>(&vec![bad]) {
        Err(MsError::Database(words)) => {
            assert_eq!(words, "type mismatch: expected text, got null");
        }
        _ => panic!("a decision that is no text"),
    }
}

#[test]
fn embeddings_are_read_back() {
    let numbers: Vec<f32> = vec![0.1, 0.2, 0.3, -1.5];
    let bits: Vec<u16> = numbers.iter().map(|x| half::f16::from_f32(*x).to_bits()).collect();
    let record = EmbeddingRecord {
        skill_id: "origin-doomed".to_string(),
        embedding: bits.clone(),
        dims: 4,
        embedder_type: "hash".to_string(),
        content_hash: Some("hash".to_string()),
        computed_at: "2026-01-01T00:00:00Z".to_string(),
    };
    let row = Database::upsert_embedding(&record).unwrap().params;
    let fetched = embedding_found(&Some(row.clone())).unwrap().unwrap();
    assert_eq!(fetched, record);
    for (x, bits) in numbers.iter().zip(&fetched.embedding) {
        assert!((half::f16::from_bits(*bits).to_f32() - x).abs() < 0.001);
    }
    let all = all_embeddings(&vec![row[..3].to_vec()]).unwrap();
    assert_eq!(all, vec![("origin-doomed".to_string(), bits)]);
    assert!(embedding_found(&None).unwrap().is_none());
    assert_eq!(encode_embedding_f16(&vec![0x0102, 0xfffe]), [0x02, 0x01, 0xfe, 0xff]);
    assert_eq!(decode_embedding_f16(&vec![0x02, 0x01], 1).unwrap(), [0x0102]);
}

#[test]
fn embeddings_of_the_wrong_length_are_refused() {
    let mut record = EmbeddingRecord {
        skill_id: "s".to_string(),
        embedding: vec![1, 2],
        dims: 3,
        embedder_type: "hash".to_string(),
        content_hash: None,
        computed_at: String::new(),
    };
    match Database::upsert_embedding(&record) {
        Err(MsError::Serialization(words)) => {
            assert_eq!(words, "embedding dims mismatch: expected 3, got 2");
        }
        _ => panic!("two numbers are not three"),
    }
    match decode_embedding_f16(&vec![0; 5], 3) {
        Err(MsError::Serialization(words)) => {
            assert_eq!(words, "embedding blob length mismatch: expected 6, got 5");
        }
        _ => panic!("five bytes are not six"),
    }
    record.dims = 2;
    let row = Database::upsert_embedding(&record).unwrap().params;
    assert!(chrono::DateTime::parse_from_rfc3339(as_text(&row[5])).is_ok());
    assert_eq!(as_text(&row[5]), as_text(&row[6]));
    let mut old = row;
    old[5] = text("");
    old[6] = text("made");
    assert_eq!(embedding_found(&Some(old.clone())).unwrap().unwrap().computed_at, "made");
    old[2] = SqlValue::Integer(-4);
    assert!(matches!(embedding_found(&Some(old)), Err(MsError::Serialization(_))));
}

#[test]
fn transactions_are_read_back() {
    let tx = TxRecord {
        id: "t1".to_string(),
        entity_type: "skill".to_string(),
        entity_id: "a".to_string(),
        phase: TxPhase::Committed,
        payload_json: "{}".to_string(),
        created_at: UtcTime { seconds: 1_767_225_600, nanos: 5_000_000 },
    };
    let row = Database::insert_tx_record(&tx).params;
    assert_eq!(as_text(&row[3]), "committed");
    assert_eq!(as_text(&row[5]), "2026-01-01T00:00:00.005+00:00");
    let read = incomplete_transactions(&vec![row.clone()]).unwrap();
    assert_eq!(read[0].id, "t1");
    assert_eq!(read[0].phase, TxPhase::Committed);
    assert_eq!(read[0].created_at, tx.created_at);
    let mut zoned = row.clone();
    zoned[5] = text("2026-01-01T02:00:00+02:00");
    let read = incomplete_transactions(&vec![zoned]).unwrap();
    assert_eq!(read[0].created_at, UtcTime { seconds: 1_767_225_600, nanos: 0 });
    for created_at in [
        UtcTime { seconds: 59, nanos: 1_500_000_000 },
        UtcTime { seconds: -62_167_219_200, nanos: 1 },
        UtcTime { seconds: 253_402_300_799, nanos: 999_999_999 },
    ] {
        let row = Database::insert_tx_record(&TxRecord { created_at, ..tx.clone() }).params;
        assert_eq!(incomplete_transactions(&vec![row]).unwrap()[0].created_at, created_at);
    }
    let late = UtcTime { seconds: 253_402_300_800, nanos: 0 };
    let row = Database::insert_tx_record(&TxRecord { created_at: late, ..tx.clone() }).params;
    assert!(incomplete_transactions(&vec![row]).is_err());
    for phase in [TxPhase::Prepare, TxPhase::Pending, TxPhase::Committed, TxPhase::Complete] {
        assert_eq!(TxPhase::said(phase.as_str()), Some(phase));
    }
}

#[test]
fn times_that_can_be_written_are_known() {
    let time = |seconds: i64, nanos: u32| UtcTime { seconds, nanos };
    for (t, valid) in [
        (time(0, 0), true),
        (time(59, 1_500_000_000), true),
        (time(-1, 1_500_000_000), true),
        (time(58, 1_500_000_000), true),
        (time(59, 2_000_000_000), false),
        (time(8_210_266_876_799, 999_999_999), true),
        (time(8_210_266_876_800, 0), false),
        (time(-8_334_601_228_800, 0), true),
        (time(-8_334_601_228_801, 0), false),
        (time(i64::MAX, 0), false),
        (time(i64::MIN, 0), false),
    ] {
        assert_eq!(t.is_valid(), valid);
        let second = chrono::DateTime::from_timestamp(t.seconds, 0);
        assert_eq!(second.is_some() && t.nanos < 2_000_000_000, valid);
    }
    let strange = TxRecord {
        id: "t".to_string(),
        entity_type: "skill".to_string(),
        entity_id: "s".to_string(),
        phase: TxPhase::Prepare,
        payload_json: "{}".to_string(),
        created_at: time(58, 1_500_000_000),
    };
    let written = Database::insert_tx_record(&strange).params;
    assert_eq!(as_text(&written[5]), "1970-01-01T00:00:59.500+00:00");
    let read = incomplete_transactions(&vec![written]).unwrap();
    assert_eq!(read[0].created_at, time(59, 500_000_000));
    let last = TxRecord { created_at: time(8_210_266_876_799, 1_500_000_000), ..strange };
    let written = Database::insert_tx_record(&last).params;
    assert_eq!(as_text(&written[5]), "+262142-12-31T23:59:60.500+00:00");
}

#[test]
fn transactions_that_cannot_be_read_are_reported() {
    let good: Row = ["t", "skill", "a", "prepare", "{}", "2026-01-01T00:00:00Z"]
        .iter()
        .map(|t| text(t))
        .collect();
    let mut phase = good.clone();
    phase[3] = text("half");
    phase[5] = text("never");
    match incomplete_transactions(&vec![good.clone(), phase]) {
        Err(MsError::Serialization(words)) => {
            assert_eq!(words, "unknown transaction phase: half");
        }
        _ => panic!("no phase"),
    }
    let mut time = good;
    time[5] = text("never");
    let own = chrono::DateTime::parse_from_rfc3339("never").unwrap_err();
    match incomplete_transactions(&vec![time]) {
        Err(MsError::Serialization(words)) => {
            assert_eq!(words, format!("parse created_at: {own}"));
        }
        _ => panic!("no time"),
    }
}

#[test]
fn usage_is_summed_up() {
    let counts = vec![
        vec![text("b"), SqlValue::Integer(2)],
        vec![text("a"), SqlValue::Integer(-1)],
        vec![text("b"), SqlValue::Integer(3)],
    ];
    let last = vec![
        vec![text("b"), text("1970-01-01T00:00:01Z")],
        vec![text("a"), text("yesterday")],
    ];
    let stats = usage_stats(&vec![SqlValue::Integer(9)], &counts, &last).unwrap();
    assert_eq!(stats.total_loads, 9);
    let counted: Vec<(&str, u64)> =
        stats.skill_load_counts.entries().iter().map(|(k, n)| (k.as_str(), *n)).collect();
    assert_eq!(counted, [("a", 0), ("b", 3)]);
    let dated = stats.skill_last_load.entries();
    assert_eq!(dated.len(), 1);
    assert_eq!(dated[0].0, "b");
    assert_eq!(dated[0].1, UtcTime { seconds: 1, nanos: 0 });
    assert!(usage_stats(&vec![SqlValue::Null], &counts, &last).is_err());
    assert!(usage_stats(&vec![SqlValue::Integer(9)], &last, &last).is_err());
    assert!(usage_stats(&vec![SqlValue::Integer(9)], &counts, &counts).is_err());
}

#[test]
fn session_quality_is_read_back() {
    let record = SessionQualityRecord {
        session_id: "s".to_string(),
        content_hash: "h".to_string(),
        score: float(0.5),
        signals: vec!["a \"b\"".to_string(), String::new()],
        missing: Vec::new(),
        computed_at: "t".to_string(),
    };
    let row = Database::upsert_session_quality(&record).params;
    assert_eq!(as_text(&row[4]), "[]");
    let read = session_quality_found(&Some(row.clone())).unwrap().unwrap();
    assert_eq!(read, record);
    assert!(session_quality_found(&None).unwrap().is_none());
    let own = serde_json::from_str::<Vec<String>>("[1]").unwrap_err();
    let mut bad = row.clone();
    bad[3] = text("[1]");
    bad[4] = text("x");
    match session_quality_found(&Some(bad)) {
        Err(MsError::Config(words)) => assert_eq!(words, format!("decode signals: {own}")),
        _ => panic!("no list of strings"),
    }
    let mut bad = row;
    bad[4] = text("[1]");
    match session_quality_found(&Some(bad)) {
        Err(MsError::Config(words)) => assert_eq!(words, format!("decode missing: {own}")),
        _ => panic!("no list of strings"),
    }
}

fn evidence(session: &str, confidence: f32) -> EvidenceRef {
    EvidenceRef {
        session_id: session.to_string(),
        message_range: (5, 12),
        snippet_hash: "hash-abc".to_string(),
        excerpt: None,
        level: "pointer".to_string(),
        confidence: confidence.to_bits(),
    }
}

#[test]
fn evidence_is_indexed_by_rule() {
    let index = evidence_index(vec![
        ("rule-2".to_string(), Ok(vec![evidence("sess-003", 0.5)])),
        ("rule-1".to_string(), Ok(vec![evidence("sess-001", 0.85), evidence("sess-002", 0.72)])),
        ("rule-3".to_string(), Ok(Vec::new())),
    ])
    .unwrap();
    let rules: Vec<&str> = index.rules.entries().iter().map(|(k, _)| k.as_str()).collect();
    assert_eq!(rules, ["rule-1", "rule-2", "rule-3"]);
    assert_eq!(index.rules.entries()[0].1[1].session_id, "sess-002");
    assert_eq!(index.coverage.rules_with_evidence, 2);
    assert_eq!(index.coverage.total_rules, 2);
    let sure: Vec<f32> = index.confidences.iter().map(|bits| f32::from_bits(*bits)).collect();
    assert_eq!(sure, [0.5, 0.85, 0.72]);
    match evidence_index(vec![
        ("a".to_string(), Ok(Vec::new())),
        ("b".to_string(), Err("odd".to_string())),
    ]) {
        Err(MsError::Config(words)) => assert_eq!(words, "decode evidence for rule b: odd"),
        _ => panic!("evidence that cannot be read"),
    }
}

#[test]
fn evidence_is_listed() {
    let row = |rule: &str| EvidenceRow {
        skill_id: "s".to_string(),
        rule_id: rule.to_string(),
        evidence_json: "[]".to_string(),
        updated_at: "t".to_string(),
    };
    let records =
        evidence_records(vec![(row("r1"), Ok(vec![evidence("x", 1.0)])), (row("r2"), Ok(vec![]))])
            .unwrap();
    assert_eq!(records.len(), 2);
    assert_eq!(records[0].rule_id, "r1");
    assert_eq!(records[0].evidence.len(), 1);
    assert_eq!(records[0].evidence[0].clone().message_range, (5, 12));
    match evidence_records(vec![(row("r1"), Err("odd".to_string()))]) {
        Err(MsError::Config(words)) => assert_eq!(words, "decode evidence: odd"),
        _ => panic!("evidence that cannot be read"),
    }
    assert!(rule_evidence(None).unwrap().is_empty());
    assert_eq!(rule_evidence(Some(Ok(vec![evidence("x", 1.0)]))).unwrap().len(), 1);
    assert!(matches!(rule_evidence(Some(Err("odd".to_string()))), Err(MsError::Config(_))));
    let written = Database::upsert_evidence_at("s", "r", "[]", "{}", "now");
    assert_eq!(as_text(&written.params[4]), "now");
    let read = read_row::<RuleEvidenceRow>(&vec![text("r"), text("[]"), text("{}")]).unwrap();
    assert_eq!(read.evidence_json, "[]");
}

#[test]
fn text_maps_keep_the_order_of_texts() {
    let mut map: TextMap<u64> = TextMap::new();
    let mut own = std::collections::BTreeMap::new();
    for (i, key) in ["b", "", "ab", "b", "ü", "a", "Z", "abc", "\u{10000}", "\u{ffff}"]
        .iter()
        .enumerate()
    {
        map.put(key.to_string(), i as u64);
        own.insert(key.to_string(), i as u64);
    }
    let kept: Vec<(String, u64)> = map.entries().iter().map(|(k, v)| (k.clone(), *v)).collect();
    let expected: Vec<(String, u64)> = own.into_iter().collect();
    assert_eq!(kept, expected);
    assert_eq!(place_of("a", "ab"), Place::Before);
    assert_eq!(place_of("b", "ab"), Place::After);
    assert_eq!(place_of("ab", "ab"), Place::Same);
}
