//! Statements and the functions that read their rows, run together on tables that are kept in
//! memory.

use std::collections::{BTreeMap, HashMap};

use meta_skill::cass::client::{
    fingerprint_count, fingerprint_says_news, CassClient, FingerprintCache, SessionMatch,
};
use meta_skill::error::MsError;
use meta_skill::storage::clock::UtcTime;
use meta_skill::storage::embedding::{all_embeddings, embedding_found, EmbeddingRecord};
use meta_skill::storage::evidence::{
    evidence_index, evidence_records, rule_evidence, EvidenceRecord, EvidenceRef, EvidenceRow,
    RuleEvidenceRow, SkillEvidenceIndex,
};
use meta_skill::storage::quality::{session_quality_found, SessionQualityRecord};
use meta_skill::storage::record::{
    AliasRecord, AliasResolution, ExperimentEventRecord, ExperimentRecord, OriginPlace,
    QuarantineReview, SkillFeedbackRecord, SkillOriginRecord, SkillRecord, SkillSearchCandidate,
    UserPreferenceRecord,
};
use meta_skill::storage::row::{read_found, read_rows, Row};
use meta_skill::storage::search::search_results;
use meta_skill::storage::security::{
    classification_in, quarantine_from_row, QuarantineRecord,
};
use meta_skill::storage::sqlite::{
    experiment_updated, read_any, read_count, Database, SkillMetadata,
};
use meta_skill::storage::statement::{Real, SqlValue, Statement};
use meta_skill::storage::tx::{incomplete_transactions, TxPhase, TxRecord};

// The tables, and as much of the language of statements as is needed here.

type Record = BTreeMap<String, SqlValue>;

#[derive(Default)]
struct Tables {
    rows: HashMap<String, Vec<Record>>,
}

fn same(a: &SqlValue, b: &SqlValue) -> bool {
    match (a, b) {
        (SqlValue::Integer(x), SqlValue::Integer(y)) => x == y,
        (SqlValue::Text(x), SqlValue::Text(y)) => x == y,
        _ => false,
    }
}

fn order(a: &SqlValue, b: &SqlValue) -> std::cmp::Ordering {
    match (a, b) {
        (SqlValue::Text(x), SqlValue::Text(y)) => x.cmp(y),
        (SqlValue::Integer(x), SqlValue::Integer(y)) => x.cmp(y),
        (SqlValue::Real(x), SqlValue::Real(y)) => {
            f64::from_bits(*x).partial_cmp(&f64::from_bits(*y)).expect("numbers")
        }
        _ => panic!("values that are not ordered here"),
    }
}

/// The text in front of a mark, and the text behind it.
fn cut<'a>(text: &'a str, mark: &str) -> (&'a str, Option<&'a str>) {
    match text.split_once(mark) {
        Some((before, behind)) => (before, Some(behind)),
        None => (text, None),
    }
}

fn column(row: &Record, name: &str) -> SqlValue {
    row.get(name).cloned().unwrap_or(SqlValue::Null)
}

/// The value that a word of a statement stands for.
fn value_of(word: &str, params: &mut std::vec::IntoIter<SqlValue>) -> SqlValue {
    match word.trim() {
        "?" => params.next().expect("a value for each placeholder"),
        "NULL" => SqlValue::Null,
        "datetime('now')" => SqlValue::Text("now".to_string()),
        "0.0" => SqlValue::Real(0.0f64.to_bits()),
        "1" => SqlValue::Integer(1),
        quoted => SqlValue::Text(quoted.trim_matches('\'').to_string()),
    }
}

impl Tables {
    fn run(&mut self, statement: &Statement) -> usize {
        let mut params = statement.params.clone().into_iter();
        let sql = statement.sql.as_str();
        let changed = if let Some(rest) = sql.strip_prefix("INSERT INTO ") {
            self.insert(rest, &mut params)
        } else if let Some(rest) = sql.strip_prefix("INSERT OR REPLACE INTO ") {
            let (table, names) = cut(rest, " (");
            let (key, _) = cut(names.expect("columns"), ", ");
            let id = statement.params[0].clone();
            let rows = self.rows.entry(table.to_string()).or_default();
            rows.retain(|row| !same(&column(row, key), &id));
            self.insert(rest, &mut params)
        } else if let Some(rest) = sql.strip_prefix("DELETE FROM ") {
            let (table, condition) = cut(rest, " WHERE ");
            let gone = self.matching(table, condition, &mut params);
            let rows = self.rows.entry(table.to_string()).or_default();
            let mut i = 0;
            rows.retain(|_| {
                i += 1;
                !gone[i - 1]
            });
            let gone = gone.iter().filter(|g| **g).count();
            if table == "skills" {
                self.cascade();
            }
            gone
        } else if let Some(rest) = sql.strip_prefix("UPDATE ") {
            let (table, rest) = cut(rest, " SET ");
            let (set, condition) = cut(rest.expect("a column"), " WHERE ");
            let new: Vec<(String, SqlValue)> = set
                .split(", ")
                .map(|one| {
                    let (name, word) = cut(one, " = ");
                    (name.to_string(), value_of(word.expect("a value"), &mut params))
                })
                .collect();
            let met = self.matching(table, condition, &mut params);
            let rows = self.rows.entry(table.to_string()).or_default();
            for (row, _) in rows.iter_mut().zip(&met).filter(|(_, met)| **met) {
                row.extend(new.iter().cloned());
            }
            met.iter().filter(|met| **met).count()
        } else {
            panic!("a statement that is not known here: {sql}")
        };
        assert!(params.next().is_none(), "a placeholder for each value: {sql}");
        changed
    }

    /// Aliases go with their skills: theirs is the one foreign key that cascades.
    fn cascade(&mut self) {
        let skills = self.rows.get("skills").cloned().unwrap_or_default();
        let aliases = self.rows.entry("skill_aliases".to_string()).or_default();
        aliases.retain(|alias| {
            skills.iter().any(|skill| same(&column(skill, "id"), &column(alias, "skill_id")))
        });
    }

    fn insert(&mut self, rest: &str, params: &mut std::vec::IntoIter<SqlValue>) -> usize {
        let (head, conflict) = cut(rest, " ON CONFLICT(");
        let (table, head) = cut(head, " (");
        let (names, words) = cut(head.expect("columns"), ") VALUES (");
        let words = words.expect("values").strip_suffix(')').expect("an end");
        let mut row = Record::new();
        for (name, word) in names.split(", ").zip(words.split(", ")) {
            row.insert(name.to_string(), value_of(word, params));
        }
        let rows = self.rows.entry(table.to_string()).or_default();
        let number = i64::try_from(rows.len()).expect("a number") + 1;
        row.entry("id".to_string()).or_insert(SqlValue::Integer(number));
        if let Some(conflict) = conflict {
            let (keys, set) = cut(conflict, ") DO UPDATE SET ");
            let keys: Vec<&str> = keys.split(", ").collect();
            let known = rows.iter_mut().find(|known| {
                keys.iter().all(|key| same(&column(known, key), &column(&row, key)))
            });
            if let Some(known) = known {
                for one in set.expect("what is replaced").split(", ") {
                    let (name, from) = cut(one, "=");
                    let from = from.expect("a value").trim();
                    assert_eq!(from, format!("excluded.{}", name.trim()));
                    known.insert(name.trim().to_string(), column(&row, name.trim()));
                }
                return 1;
            }
        }
        rows.push(row);
        1
    }

    /// Which rows of a table meet a condition.
    fn matching(
        &self,
        table: &str,
        condition: Option<&str>,
        params: &mut std::vec::IntoIter<SqlValue>,
    ) -> Vec<bool> {
        let none = Vec::new();
        let rows = self.rows.get(table).unwrap_or(&none);
        let Some(condition) = condition else {
            return vec![true; rows.len()];
        };
        if let Some((name, inner)) = condition.split_once(" IN (SELECT ") {
            let (wanted, inner) = cut(inner.strip_suffix(')').expect("an end"), " FROM ");
            let (other, inner) = cut(inner.expect("a table"), " WHERE ");
            let found = self.matching(other, inner, params);
            let ids: Vec<SqlValue> = self
                .rows
                .get(other)
                .unwrap_or(&none)
                .iter()
                .zip(found)
                .filter(|(_, met)| *met)
                .map(|(row, _)| column(row, wanted))
                .collect();
            return rows.iter().map(|r| ids.iter().any(|id| same(&column(r, name), id))).collect();
        }
        if let Some((name, inner)) = condition.split_once(" = (SELECT ") {
            let inner = inner.strip_suffix(')').expect("an end");
            let query = Statement {
                sql: format!("SELECT {inner}"),
                params: params.take(inner.matches('?').count()).collect(),
            };
            let wanted = self.found(&query).map_or(SqlValue::Null, |row| row[0].clone());
            return rows.iter().map(|row| same(&column(row, name), &wanted)).collect();
        }
        if let Some((name, word)) = condition.split_once(" != ") {
            let value = value_of(word, params);
            return rows.iter().map(|row| !same(&column(row, name), &value)).collect();
        }
        let any = condition.contains(" OR ");
        let tests: Vec<(String, SqlValue)> = condition
            .split(if any { " OR " } else { " AND " })
            .map(|test| {
                let (name, word) = cut(test, " = ");
                (name.to_string(), value_of(word.expect("a value"), params))
            })
            .collect();
        rows.iter()
            .map(|row| {
                let met = |(name, value): &(String, SqlValue)| same(&column(row, name), value);
                if any {
                    tests.iter().any(met)
                } else {
                    tests.iter().all(met)
                }
            })
            .collect()
    }

    fn all(&self, statement: &Statement) -> Vec<Row> {
        let mut params = statement.params.clone().into_iter();
        let rest = statement.sql.strip_prefix("SELECT ").expect("a query");
        let (names, rest) = cut(rest, " FROM ");
        let (rest, limit) = cut(rest.expect("a table"), " LIMIT ");
        let (rest, by) = cut(rest, " ORDER BY ");
        let (table, condition) = cut(rest, " WHERE ");
        let mut found: Vec<Record> = if table.contains(" JOIN ") {
            self.joined(table)
        } else {
            let met = self.matching(table, condition, &mut params);
            let none = Vec::new();
            let rows = self.rows.get(table).unwrap_or(&none).iter().zip(met);
            rows.filter(|(_, met)| *met).map(|(row, _)| row.clone()).collect()
        };
        if let Some(by) = by {
            for part in by.rsplit(", ") {
                let (name, direction) = cut(part, " ");
                found.sort_by(|a, b| {
                    let way = order(&column(a, name), &column(b, name));
                    if direction == Some("DESC") {
                        way.reverse()
                    } else {
                        way
                    }
                });
            }
        }
        if let Some(limit) = limit {
            let (count, offset) = cut(limit, " OFFSET ");
            let mut size = |word: &str| match word {
                "1" => 1,
                _ => match value_of(word, &mut params) {
                    SqlValue::Integer(n) => usize::try_from(n).expect("a size"),
                    _ => panic!("a size"),
                },
            };
            let count: usize = size(count);
            let offset: usize = offset.map_or(0, size);
            found = found.into_iter().skip(offset).take(count).collect();
        }
        assert!(params.next().is_none(), "a placeholder for each value: {}", statement.sql);
        if names == "COUNT(*)" {
            return vec![vec![SqlValue::Integer(i64::try_from(found.len()).expect("a count"))]];
        }
        found.iter().map(|row| names.split(", ").map(|n| column(row, n)).collect()).collect()
    }

    /// The rows of two tables that belong together, their columns named by their tables.
    fn joined(&self, tables: &str) -> Vec<Record> {
        let (first, rest) = cut(tables, " JOIN ");
        let (second, test) = cut(rest.expect("a second table"), " ON ");
        let (right, left) = cut(test.expect("a test"), " = ");
        let left = left.expect("the other side");
        let named = |table: &str| -> Vec<Record> {
            let (table, short) = cut(table, " ");
            let short = short.expect("a short name");
            let rename = |row: &Record| -> Record {
                row.iter().map(|(k, v)| (format!("{short}.{k}"), v.clone())).collect()
            };
            self.rows.get(table).map_or_else(Vec::new, |rows| rows.iter().map(rename).collect())
        };
        let mut out = Vec::new();
        for a in named(first) {
            for b in named(second) {
                if same(&column(&a, left), &column(&b, right)) {
                    out.push(a.clone().into_iter().chain(b).collect());
                }
            }
        }
        out
    }

    fn found(&self, statement: &Statement) -> Option<Row> {
        self.all(statement).into_iter().next()
    }

    fn count(&self, statement: &Statement) -> u64 {
        read_count(&self.found(statement).expect("a count")).unwrap()
    }

    fn delete_skill(&mut self, id: &str) {
        for statement in &Database::delete_skill(id) {
            self.run(statement);
        }
    }

    fn skill(&self, id: &str) -> Option<SkillRecord> {
        read_found(&self.found(&Database::get_skill(id))).unwrap()
    }

    fn origin(&self, id: &str) -> Option<OriginPlace> {
        read_found(&self.found(&Database::get_skill_origin(id))).unwrap()
    }

    fn rule_evidence(&self, skill: &str, rule: &str) -> Result<Vec<EvidenceRef>, MsError> {
        let row = self.found(&Database::get_rule_evidence(skill, rule));
        let written: Option<String> = read_found(&row).unwrap();
        rule_evidence(written.map(|text| read_evidence(&text)))
    }

    fn evidence(&self, skill: &str) -> Result<SkillEvidenceIndex, MsError> {
        let rows = read_rows::<RuleEvidenceRow>(&self.all(&Database::get_evidence(skill)))?;
        evidence_index(
            rows.into_iter().map(|r| (r.rule_id, read_evidence(&r.evidence_json))).collect(),
        )
    }

    fn all_evidence(&self) -> Result<Vec<EvidenceRecord>, MsError> {
        let rows = read_rows::<EvidenceRow>(&self.all(&Database::list_all_evidence()))?;
        evidence_records(
            rows.into_iter()
                .map(|row| {
                    let read = read_evidence(&row.evidence_json);
                    (row, read)
                })
                .collect(),
        )
    }
}

// Evidence as JSON.

fn write_evidence(list: &[EvidenceRef]) -> String {
    let items: Vec<serde_json::Value> = list
        .iter()
        .map(|e| {
            let mut fields = serde_json::Map::new();
            let (first, last) = e.message_range;
            fields.insert("session_id".into(), e.session_id.clone().into());
            fields.insert("message_range".into(), vec![first, last].into());
            fields.insert("snippet_hash".into(), e.snippet_hash.clone().into());
            fields.insert("excerpt".into(), e.excerpt.clone().into());
            fields.insert("level".into(), e.level.clone().into());
            fields.insert("confidence".into(), f64::from(f32::from_bits(e.confidence)).into());
            serde_json::Value::Object(fields)
        })
        .collect();
    serde_json::Value::Array(items).to_string()
}

fn read_evidence(text: &str) -> Result<Vec<EvidenceRef>, String> {
    let items: Vec<serde_json::Value> = serde_json::from_str(text).map_err(|e| e.to_string())?;
    let word = |item: &serde_json::Value, key: &str| {
        item.get(key).and_then(|v| v.as_str()).map(str::to_string)
    };
    items
        .iter()
        .map(|item| {
            let number = |i: usize| item["message_range"][i].as_u64().map(|n| n as u32);
            Some(EvidenceRef {
                session_id: word(item, "session_id")?,
                message_range: (number(0)?, number(1)?),
                snippet_hash: word(item, "snippet_hash")?,
                excerpt: word(item, "excerpt"),
                level: word(item, "level")?,
                confidence: (item["confidence"].as_f64()? as f32).to_bits(),
            })
        })
        .collect::<Option<Vec<EvidenceRef>>>()
        .ok_or_else(|| "no evidence".to_string())
}

fn evidence(
    session: &str,
    range: (u32, u32),
    hash: &str,
    excerpt: Option<&str>,
    level: &str,
    confidence: f32,
) -> EvidenceRef {
    EvidenceRef {
        session_id: session.to_string(),
        message_range: range,
        snippet_hash: hash.to_string(),
        excerpt: excerpt.map(str::to_string),
        level: level.to_string(),
        confidence: confidence.to_bits(),
    }
}

fn quality(score: f64) -> Real {
    Real::Float(score.to_bits())
}

fn skill(id: &str, name: &str, source_path: &str, layer: &str) -> SkillRecord {
    SkillRecord {
        id: id.to_string(),
        name: name.to_string(),
        description: format!("{name} skill"),
        version: Some("1.0.0".to_string()),
        author: None,
        source_path: source_path.to_string(),
        source_layer: layer.to_string(),
        git_remote: None,
        git_commit: None,
        content_hash: "hash".to_string(),
        body: format!("{name} body"),
        metadata_json: "{}".to_string(),
        assets_json: "{}".to_string(),
        token_count: 10,
        quality_score: quality(0.5),
        indexed_at: "2026-01-01T00:00:00Z".to_string(),
        modified_at: "2026-01-01T00:00:00Z".to_string(),
        is_deprecated: false,
        deprecation_reason: None,
    }
}

fn origin_test_skill(id: &str) -> SkillRecord {
    let path = format!("/archive/skills/by-id/{id}");
    SkillRecord {
        description: "origin test".to_string(),
        body: "body".to_string(),
        ..skill(id, &format!("{id} name"), &path, "project")
    }
}

fn halves(numbers: &[f32]) -> Vec<u16> {
    numbers.iter().map(|x| half::f16::from_f32(*x).to_bits()).collect()
}

fn numbers(halves: &[u16]) -> Vec<f32> {
    halves.iter().map(|bits| half::f16::from_bits(*bits).to_f32()).collect()
}

fn similarity(a: &[f32], b: &[f32]) -> f32 {
    let dot = |x: &[f32], y: &[f32]| -> f32 { x.iter().zip(y).map(|(p, q)| p * q).sum() };
    dot(a, b) / (dot(a, a).sqrt() * dot(b, b).sqrt())
}

#[test]
fn skill_is_written_over_and_read() {
    let mut db = Tables::default();
    let first = skill("a", "First", "/a", "base");
    db.run(&Database::upsert_skill(&first));
    assert_eq!(db.skill("a"), Some(first));
    let mut second = skill("a", "Second", "/b", "user");
    second.is_deprecated = true;
    second.deprecation_reason = Some("old".to_string());
    db.run(&Database::upsert_skill(&second));
    assert_eq!(db.skill("a"), Some(second));
    assert_eq!(db.skill("b"), None);
}

#[test]
fn pending_skill_is_no_loss() {
    let mut db = Tables::default();
    let metadata = SkillMetadata {
        id: "a".to_string(),
        name: "New".to_string(),
        description: "new".to_string(),
        version: None,
        author: Some("x".to_string()),
    };
    let kept = skill("a", "Old", "/a", "base");
    db.run(&Database::upsert_skill(&kept));
    db.run(&Database::upsert_skill_pending(&metadata, "user", "{\"k\":1}", 7));
    let found = db.skill("a").unwrap();
    assert_eq!(found.name, "New");
    assert_eq!(found.source_layer, "user");
    assert_eq!(found.token_count, 7);
    assert_eq!(found.source_path, kept.source_path);
    assert_eq!(found.content_hash, kept.content_hash);
    assert_eq!(found.body, kept.body);
    assert_eq!(db.run(&Database::delete_pending_skill("a")), 0);
    let other = SkillMetadata { id: "b".to_string(), ..metadata };
    db.run(&Database::upsert_skill_pending(&other, "user", "{}", 7));
    assert_eq!(db.run(&Database::delete_pending_skill("b")), 1);
    assert_eq!(db.skill("b"), None);
}

#[test]
fn search_reads_the_best_first() {
    let mut db = Tables::default();
    for (id, score) in [("low", 0.1), ("high", 0.9), ("even-b", 0.5), ("even-a", 0.5)] {
        let mut s = skill(id, "Rollback Helper", "/s", "base");
        s.quality_score = quality(score);
        db.run(&Database::upsert_skill(&s));
    }
    let rows = db.all(&Database::search_fts("ROLLBACK body", 3).unwrap());
    let found = search_results(&rows, "ROLLBACK body", 3).unwrap();
    let ids: Vec<&str> = found.iter().map(|c| c.id.as_str()).collect();
    assert_eq!(ids, ["high", "even-a", "even-b"]);
}

#[test]
fn test_embedding_roundtrip_and_cache() {
    let mut db = Tables::default();
    let git = SkillRecord {
        description: "Git commit workflow".to_string(),
        content_hash: "abc123".to_string(),
        body: "Git body".to_string(),
        token_count: 100,
        quality_score: quality(1.0),
        ..skill("git", "Git Workflow", "/skills/git", "base")
    };
    db.run(&Database::upsert_skill(&git));
    let embedding: Vec<f32> = (0..32).map(|i| ((i * 7 % 13) as f32 - 6.0) / 23.0).collect();
    let record = EmbeddingRecord {
        skill_id: "git".to_string(),
        embedding: halves(&embedding),
        dims: 32,
        embedder_type: "hash".to_string(),
        content_hash: Some("hash123".to_string()),
        computed_at: "2026-01-01T00:00:00Z".to_string(),
    };
    db.run(&Database::upsert_embedding(&record).unwrap());

    let fetched = embedding_found(&db.found(&Database::get_embedding("git"))).unwrap().unwrap();
    assert_eq!(fetched.skill_id, record.skill_id);
    assert_eq!(fetched.dims, record.dims);
    assert_eq!(fetched.embedder_type, record.embedder_type);
    assert_eq!(fetched.content_hash, record.content_hash);
    assert!(similarity(&embedding, &numbers(&fetched.embedding)) > 0.97);

    let by_hash = Database::get_embedding_by_hash("hash123", "hash", 32);
    let cached = embedding_found(&db.found(&by_hash)).unwrap().unwrap();
    assert_eq!(cached.skill_id, "git");
    let other = Database::get_embedding_by_hash("hash123", "hash", 64);
    assert!(embedding_found(&db.found(&other)).unwrap().is_none());
}

#[test]
fn test_alias_resolution_and_delete_cascade() {
    let mut db = Tables::default();
    let record = SkillRecord {
        description: "Alias target skill".to_string(),
        content_hash: "ghi789".to_string(),
        body: "Alias body".to_string(),
        ..skill("alias-target", "Alias Target", "/skills/alias", "base")
    };
    db.run(&Database::upsert_skill(&record));
    db.run(&Database::upsert_alias(
        "legacy-id",
        "alias-target",
        "deprecated",
        "2026-01-01T00:00:00Z",
    ));
    let resolve = |db: &Tables| -> Option<AliasResolution> {
        read_found(&db.found(&Database::resolve_alias("legacy-id"))).unwrap()
    };
    let alias = resolve(&db).unwrap();
    assert_eq!(alias.canonical_id, "alias-target");
    assert_eq!(alias.alias_type, "deprecated");

    db.delete_skill("alias-target");
    assert!(resolve(&db).is_none());
}

#[test]
fn alias_is_deleted_alone() {
    let mut db = Tables::default();
    db.run(&Database::upsert_alias("old", "target", "deprecated", "2026-01-01T00:00:00Z"));
    assert_eq!(db.run(&Database::delete_alias("old")), 1);
    assert!(db.found(&Database::resolve_alias("old")).is_none());
    assert_eq!(db.run(&Database::delete_alias("old")), 0);
}

#[test]
fn test_fts_lifecycle_insert_update_delete() {
    let mut db = Tables::default();
    let found = |db: &Tables, query: &str| {
        let rows = db.all(&Database::search_fts(query, 10).unwrap());
        search_results(&rows, query, 10).unwrap().len()
    };
    let mut record = SkillRecord {
        description: "Ship releases safely".to_string(),
        content_hash: "h1".to_string(),
        body: "rollout the artifact to production".to_string(),
        metadata_json: r#"{"tags":["kubernetes","canary"]}"#.to_string(),
        token_count: 120,
        quality_score: quality(0.7),
        ..skill("deploy-helper", "Deploy Helper", "/skills/deploy", "base")
    };

    db.run(&Database::upsert_skill(&record));
    assert_eq!(found(&db, "artifact"), 1, "body term");
    assert_eq!(found(&db, "deploy"), 1, "name term");
    assert_eq!(found(&db, "releases"), 1, "desc term");
    assert_eq!(found(&db, "deploy artifact"), 1);
    assert_eq!(found(&db, "deploy nonexistent"), 0);

    record.body = "rollback the deployment instead".to_string();
    db.run(&Database::upsert_skill(&record));
    assert_eq!(found(&db, "artifact"), 0, "stale body term gone after re-index");
    assert_eq!(found(&db, "rollback"), 1);

    db.delete_skill("deploy-helper");
    assert_eq!(found(&db, "rollback"), 0);
    assert_eq!(found(&db, "deploy"), 0);
}

#[test]
fn searches_narrow_down() {
    let mut db = Tables::default();
    let texts = ["red fox", "red hen", "grey fox", "red fox den"];
    for (i, body) in texts.iter().enumerate() {
        let mut s = skill(&format!("s{i}"), "Animal", "/s", "base");
        s.body = body.to_string();
        db.run(&Database::upsert_skill(&s));
    }
    let search = |query: &str, limit: usize| -> Vec<String> {
        let rows = db.all(&Database::search_fts(query, limit).unwrap());
        search_results(&rows, query, limit).unwrap().into_iter().map(|c| c.id).collect()
    };
    let both = search("red fox", 9);
    let common: Vec<String> =
        search("red", 9).into_iter().filter(|id| search("fox", 9).contains(id)).collect();
    assert_eq!(both, common);
    assert_eq!(both, ["s0", "s3"]);
    for limit in 1..4 {
        assert_eq!(search("red", limit), search("red", 9)[..limit]);
    }
}

#[test]
fn pages_of_experiments_follow_each_other() {
    let mut db = Tables::default();
    for i in 0..5 {
        let record = ExperimentRecord {
            id: format!("e{i}"),
            skill_id: if i % 2 == 0 { "even" } else { "odd" }.to_string(),
            scope: "global".to_string(),
            scope_id: None,
            variants_json: "[]".to_string(),
            allocation_json: "{}".to_string(),
            status: "running".to_string(),
            started_at: format!("2026-01-0{}T00:00:00Z", i + 1),
        };
        db.run(&Database::write_experiment(&record));
    }
    let list = |skill: Option<&str>, limit: usize, offset: usize| -> Vec<String> {
        let rows = db.all(&Database::list_skill_experiments(skill, limit, offset));
        read_rows::<ExperimentRecord>(&rows).unwrap().into_iter().map(|e| e.id).collect()
    };
    assert_eq!(list(None, 9, 0), ["e4", "e3", "e2", "e1", "e0"]);
    assert_eq!(list(Some("even"), 9, 0), ["e4", "e2", "e0"]);
    assert_eq!([list(None, 2, 0), list(None, 2, 2)].concat(), list(None, 4, 0));
    assert_eq!(list(None, 2, 4), ["e0"]);
    assert!(list(None, 2, 6).is_empty());

    let read = |db: &Tables, id: &str| -> Option<ExperimentRecord> {
        read_found(&db.found(&Database::get_skill_experiment(id))).unwrap()
    };
    let changed = db.run(&Database::update_skill_experiment_status("e1", "done"));
    assert!(experiment_updated("e1", changed).is_ok());
    assert_eq!(read(&db, "e1").unwrap().status, "done");
    assert_eq!(read(&db, "e1").unwrap().started_at, "2026-01-02T00:00:00Z");
    assert_eq!(read(&db, "e2").unwrap().status, "running");
    let changed = db.run(&Database::update_skill_experiment_status("none", "done"));
    match experiment_updated("none", changed) {
        Err(MsError::NotFound(words)) => assert_eq!(words, "experiment not found: none"),
        _ => panic!("an experiment that is not there"),
    }
}

#[test]
fn session_quality_is_written_over() {
    let mut db = Tables::default();
    let mut record = SessionQualityRecord {
        session_id: "s".to_string(),
        content_hash: "h".to_string(),
        score: quality(0.25),
        signals: vec!["a \"b\"".to_string(), String::new()],
        missing: vec!["c".to_string()],
        computed_at: "t".to_string(),
    };
    let read = |db: &Tables, id: &str| {
        session_quality_found(&db.found(&Database::get_session_quality(id))).unwrap()
    };
    db.run(&Database::upsert_session_quality(&record));
    assert_eq!(read(&db, "s"), Some(record.clone()));
    record.score = quality(0.75);
    record.missing.clear();
    db.run(&Database::upsert_session_quality(&record));
    assert_eq!(read(&db, "s"), Some(record));
    assert_eq!(read(&db, "other"), None);
}

#[test]
fn evidence_of_each_rule_is_that_of_the_index() {
    let mut db = Tables::default();
    for (skill, rule, session) in [("s", "r2", "x"), ("s", "r1", "y"), ("other", "r3", "z")] {
        let list = [evidence(session, (1, 2), "h", None, "pointer", 0.5)];
        db.run(&Database::upsert_evidence(skill, rule, &write_evidence(&list), "{}"));
    }
    let index = db.evidence("s").unwrap();
    let rules: Vec<&str> = index.rules.entries().iter().map(|(r, _)| r.as_str()).collect();
    assert_eq!(rules, ["r1", "r2"]);
    for (rule, places) in index.rules.entries() {
        let alone = db.rule_evidence("s", rule).unwrap();
        assert_eq!(alone.len(), places.len());
        assert_eq!(alone[0].session_id, places[0].session_id);
    }
    assert!(db.rule_evidence("s", "r3").unwrap().is_empty());
}

#[test]
fn test_list_skills_order_and_pagination() {
    let mut db = Tables::default();
    let older = SkillRecord {
        description: "Older".to_string(),
        content_hash: "old".to_string(),
        body: "Older body".to_string(),
        token_count: 1,
        quality_score: quality(0.1),
        ..skill("skill-older", "Older Skill", "/skills/older", "base")
    };
    let newer = SkillRecord {
        description: "Newer".to_string(),
        content_hash: "new".to_string(),
        body: "Newer body".to_string(),
        token_count: 2,
        quality_score: quality(0.2),
        indexed_at: "2026-01-02T00:00:00Z".to_string(),
        modified_at: "2026-01-02T00:00:00Z".to_string(),
        ..skill("skill-newer", "Newer Skill", "/skills/newer", "base")
    };
    db.run(&Database::upsert_skill(&older));
    db.run(&Database::upsert_skill(&newer));

    let first = read_rows::<SkillRecord>(&db.all(&Database::list_skills(1, 0))).unwrap();
    assert_eq!(first.len(), 1);
    assert_eq!(first[0].id, "skill-newer");

    let second = read_rows::<SkillRecord>(&db.all(&Database::list_skills(1, 1))).unwrap();
    assert_eq!(second.len(), 1);
    assert_eq!(second[0].id, "skill-older");
}

#[test]
fn test_evidence_upsert_and_get() {
    let mut db = Tables::default();
    let record = SkillRecord {
        description: "A test skill".to_string(),
        content_hash: "test123".to_string(),
        body: "Test body".to_string(),
        token_count: 100,
        quality_score: quality(0.8),
        ..skill("test-skill", "Test Skill", "/skills/test", "project")
    };
    db.run(&Database::upsert_skill(&record));
    let list = [
        evidence("sess-001", (5, 12), "hash-abc", Some("Example code pattern"), "excerpt", 0.85),
        evidence("sess-002", (20, 25), "hash-def", None, "pointer", 0.72),
    ];
    db.run(&Database::upsert_evidence("test-skill", "rule-1", &write_evidence(&list), "{}"));

    let fetched = db.rule_evidence("test-skill", "rule-1").unwrap();
    assert_eq!(fetched.len(), 2);
    assert_eq!(fetched[0].session_id, "sess-001");
    assert_eq!(fetched[0].message_range, (5, 12));
    assert_eq!(f32::from_bits(fetched[0].confidence), 0.85);
    assert_eq!(fetched[1].session_id, "sess-002");

    let index = db.evidence("test-skill").unwrap();
    assert_eq!(index.rules.entries().len(), 1);
    assert_eq!(index.rules.entries()[0].0, "rule-1");
    assert_eq!(index.coverage.rules_with_evidence, 1);

    assert_eq!(db.count(&Database::count_skill_evidence("test-skill")), 1);
    assert!(db.rule_evidence("test-skill", "rule-2").unwrap().is_empty());
}

#[test]
fn test_evidence_multiple_rules_and_list_all() {
    let mut db = Tables::default();
    let record = SkillRecord {
        description: "Skill with multiple rules".to_string(),
        content_hash: "multi123".to_string(),
        body: "Multi rule body".to_string(),
        token_count: 200,
        quality_score: quality(0.9),
        ..skill("multi-rule-skill", "Multi Rule Skill", "/skills/multi", "project")
    };
    db.run(&Database::upsert_skill(&record));
    for i in 1..=3u32 {
        let list = [evidence(
            &format!("sess-{i:03}"),
            (i * 10, i * 10 + 5),
            &format!("hash-{i}"),
            None,
            "pointer",
            0.7 + (i as f32 * 0.05),
        )];
        let rule = format!("rule-{i}");
        db.run(&Database::upsert_evidence(
            "multi-rule-skill",
            &rule,
            &write_evidence(&list),
            "{}",
        ));
    }

    let all_evidence = db.all_evidence().unwrap();
    assert_eq!(all_evidence.len(), 3);
    assert_eq!(all_evidence[0].skill_id, "multi-rule-skill");
    assert_eq!(all_evidence[0].rule_id, "rule-1");
    assert_eq!(all_evidence[2].rule_id, "rule-3");

    let index = db.evidence("multi-rule-skill").unwrap();
    assert_eq!(index.rules.entries().len(), 3);
    assert_eq!(index.coverage.rules_with_evidence, 3);

    assert_eq!(db.run(&Database::delete_skill_evidence("multi-rule-skill")), 3);
    assert!(db.all_evidence().unwrap().is_empty());
}

#[test]
fn test_evidence_update_existing_rule() {
    let mut db = Tables::default();
    let record = SkillRecord {
        description: "Skill for update test".to_string(),
        content_hash: "upd123".to_string(),
        body: "Update body".to_string(),
        token_count: 50,
        quality_score: quality(0.7),
        ..skill("update-skill", "Update Skill", "/skills/update", "project")
    };
    db.run(&Database::upsert_skill(&record));
    let v1 = [evidence("sess-v1", (1, 5), "v1-hash", None, "pointer", 0.6)];
    db.run(&Database::upsert_evidence("update-skill", "rule-1", &write_evidence(&v1), "{}"));
    let v2 = [
        evidence("sess-v2", (10, 20), "v2-hash", Some("Updated excerpt"), "excerpt", 0.9),
        evidence("sess-v2b", (30, 35), "v2b-hash", None, "pointer", 0.8),
    ];
    db.run(&Database::upsert_evidence("update-skill", "rule-1", &write_evidence(&v2), "{}"));

    let fetched = db.rule_evidence("update-skill", "rule-1").unwrap();
    assert_eq!(fetched.len(), 2);
    assert_eq!(fetched[0].session_id, "sess-v2");
    assert_eq!(f32::from_bits(fetched[0].confidence), 0.9);
    assert_eq!(fetched[1].session_id, "sess-v2b");

    assert_eq!(db.count(&Database::count_skill_evidence("update-skill")), 1);
}

#[test]
fn test_skill_origin_roundtrip_and_refresh() {
    let mut db = Tables::default();
    db.run(&Database::upsert_skill(&origin_test_skill("origin-a")));
    assert_eq!(db.origin("origin-a"), None);

    db.run(&Database::record_skill_origin(
        "origin-a",
        "/roots/one/origin-a/SKILL.md",
        "/roots/one",
    ));
    assert_eq!(
        db.origin("origin-a"),
        Some(OriginPlace {
            origin_path: "/roots/one/origin-a/SKILL.md".to_string(),
            origin_root: "/roots/one".to_string(),
        })
    );

    db.run(&Database::record_skill_origin(
        "origin-a",
        "/roots/two/origin-a/SKILL.md",
        "/roots/two",
    ));
    assert_eq!(
        db.origin("origin-a"),
        Some(OriginPlace {
            origin_path: "/roots/two/origin-a/SKILL.md".to_string(),
            origin_root: "/roots/two".to_string(),
        })
    );
}

#[test]
fn test_list_skill_origins_joins_live_skills_only() {
    let mut db = Tables::default();
    db.run(&Database::upsert_skill(&origin_test_skill("origin-live")));
    db.run(&Database::record_skill_origin(
        "origin-live",
        "/roots/a/origin-live/SKILL.md",
        "/roots/a",
    ));
    db.run(&Statement {
        sql: "INSERT INTO skill_origins (skill_id, origin_path, origin_root, recorded_at) VALUES \
              ('origin-ghost', '/roots/a/ghost/SKILL.md', '/roots/a', datetime('now'))"
            .to_string(),
        params: Vec::new(),
    });

    let rows = db.all(&Database::list_skill_origins());
    let origins = read_rows::<SkillOriginRecord>(&rows).unwrap();
    assert_eq!(origins.len(), 1);
    assert_eq!(origins[0].skill_id, "origin-live");
    assert_eq!(origins[0].skill_name, "origin-live name");
    assert_eq!(origins[0].origin_path, "/roots/a/origin-live/SKILL.md");
    assert_eq!(origins[0].origin_root, "/roots/a");
}

#[test]
fn test_delete_skill_cleans_up_origin_and_embedding() {
    let mut db = Tables::default();
    db.run(&Database::upsert_skill(&origin_test_skill("origin-doomed")));
    db.run(&Database::record_skill_origin(
        "origin-doomed",
        "/roots/b/doomed/SKILL.md",
        "/roots/b",
    ));
    let record = EmbeddingRecord {
        skill_id: "origin-doomed".to_string(),
        embedding: halves(&[0.1, 0.2, 0.3]),
        dims: 3,
        embedder_type: "hash".to_string(),
        content_hash: Some("hash".to_string()),
        computed_at: "2026-01-01T00:00:00Z".to_string(),
    };
    db.run(&Database::upsert_embedding(&record).unwrap());
    assert_eq!(all_embeddings(&db.all(&Database::get_all_embeddings())).unwrap().len(), 1);

    db.delete_skill("origin-doomed");

    assert!(db.skill("origin-doomed").is_none());
    assert_eq!(db.origin("origin-doomed"), None);
    assert!(db.all(&Database::list_skill_origins()).is_empty());
    let embeddings = all_embeddings(&db.all(&Database::get_all_embeddings())).unwrap();
    assert!(
        embeddings.iter().all(|(id, _)| id != "origin-doomed"),
        "embedding row must not outlive the skill"
    );
}

#[test]
fn test_delete_skill_with_usage_history() {
    let mut db = Tables::default();
    db.run(&Database::upsert_skill(&origin_test_skill("origin-used")));
    for sql in [
        "INSERT INTO skill_usage (skill_id, used_at, disclosure_level) VALUES ('origin-used', \
         datetime('now'), 1)",
        "INSERT INTO skill_feedback (id, skill_id, feedback_type, created_at) VALUES ('fb-1', \
         'origin-used', 'helpful', datetime('now'))",
    ] {
        db.run(&Statement { sql: sql.to_string(), params: Vec::new() });
    }
    assert_eq!(db.count(&Database::count_skill_usage("origin-used")), 1);
    assert_eq!(db.count(&Database::count_skill_feedback("origin-used")), 1);

    db.delete_skill("origin-used");

    assert!(db.skill("origin-used").is_none());
    assert_eq!(db.count(&Database::count_skill_usage("origin-used")), 0);
    assert_eq!(db.count(&Database::count_skill_feedback("origin-used")), 0);
}

#[test]
fn deletion_takes_the_events_of_the_experiments() {
    let mut db = Tables::default();
    for id in ["doomed", "kept"] {
        let (written, experiment) =
            Database::create_skill_experiment(id, "global", None, "[]", "{}", "running");
        db.run(&written);
        let event =
            Database::record_skill_experiment_event(&experiment.id, "v", "t", None, None, None);
        db.run(&event.0);
    }
    db.delete_skill("doomed");
    assert_eq!(db.rows["skill_experiment_events"].len(), 1);
    let left = db.all(&Database::list_skill_experiments(None, 10, 0));
    assert_eq!(left.len(), 1);
    assert!(matches!(&left[0][1], SqlValue::Text(id) if id == "kept"));
}

#[test]
fn test_count_skill_feedback_empty() {
    let db = Tables::default();
    assert_eq!(db.count(&Database::count_skill_feedback("nope")), 0);
}

#[test]
fn test_fingerprint_cache_clear() {
    let mut db = Tables::default();
    let count = |db: &Tables| {
        fingerprint_count(&db.found(&FingerprintCache::count()).expect("a count")).unwrap()
    };
    db.run(&FingerprintCache::update("session-1", "hash-abc"));
    db.run(&FingerprintCache::update("session-2", "hash-def"));
    assert_eq!(count(&db), 2);
    db.run(&FingerprintCache::clear());
    assert_eq!(count(&db), 0);
}

#[test]
fn fingerprints_follow_the_last_update() {
    let mut db = Tables::default();
    let news = |db: &Tables, hash: &str| {
        let known = db.found(&FingerprintCache::is_new_or_changed("s"));
        fingerprint_says_news(&known, hash).unwrap()
    };
    assert!(news(&db, "one"));
    db.run(&FingerprintCache::update("s", "one"));
    assert!(!news(&db, "one"));
    db.run(&FingerprintCache::update("s", "two"));
    assert!(news(&db, "one"));
    assert!(!news(&db, "two"));
    db.run(&FingerprintCache::remove("s"));
    assert!(news(&db, "two"));
}

#[test]
fn test_fingerprint_cache_new_session() {
    let db = Tables::default();
    let known = db.found(&FingerprintCache::is_new_or_changed("session-1"));
    assert!(fingerprint_says_news(&known, "hash-abc").unwrap());
}

#[test]
fn test_fingerprint_cache_unchanged_session() {
    let mut db = Tables::default();
    db.run(&FingerprintCache::update("session-1", "hash-abc"));
    let known = db.found(&FingerprintCache::is_new_or_changed("session-1"));
    assert!(!fingerprint_says_news(&known, "hash-abc").unwrap());
}

#[test]
fn test_fingerprint_cache_changed_session() {
    let mut db = Tables::default();
    db.run(&FingerprintCache::update("session-1", "hash-abc"));
    let known = db.found(&FingerprintCache::is_new_or_changed("session-1"));
    assert!(fingerprint_says_news(&known, "hash-xyz").unwrap());
}

#[test]
fn fingerprints_are_counted_by_session() {
    let mut db = Tables::default();
    let count = |db: &Tables| {
        fingerprint_count(&db.found(&FingerprintCache::count()).expect("a count")).unwrap()
    };
    db.run(&FingerprintCache::update("a", "1"));
    db.run(&FingerprintCache::update("a", "2"));
    assert_eq!(count(&db), 1);
    db.run(&FingerprintCache::update("b", "1"));
    assert_eq!(count(&db), 2);
    db.run(&FingerprintCache::remove("none"));
    assert_eq!(count(&db), 2);
    db.run(&FingerprintCache::remove("a"));
    assert_eq!(count(&db), 1);
}

#[test]
fn scan_gives_what_changed() {
    let hit = |id: &str, hash: Option<&str>| SessionMatch {
        session_id: id.to_string(),
        path: format!("/s/{id}.jsonl"),
        score: 0,
        snippet: None,
        content_hash: hash.map(str::to_string),
        project: None,
        timestamp: None,
    };
    let mut db = Tables::default();
    db.run(&FingerprintCache::update("same", "1"));
    db.run(&FingerprintCache::update("changed", "1"));
    let looked_up = |db: &Tables| -> Vec<(SessionMatch, Option<String>)> {
        [hit("new", Some("1")), hit("same", Some("1")), hit("changed", Some("2")), hit("bare", None)]
            .into_iter()
            .map(|hit| {
                let row = db.found(&FingerprintCache::is_new_or_changed(&hit.session_id));
                let known = read_found::<String>(&row).unwrap();
                (hit, known)
            })
            .collect()
    };
    let ids = |found: Vec<SessionMatch>| -> Vec<String> {
        found.into_iter().map(|hit| hit.session_id).collect()
    };
    let keeping = CassClient::new().with_fingerprint_cache();
    assert_eq!(ids(keeping.scanned_sessions(looked_up(&db))), ["new", "changed", "bare"]);
    assert_eq!(
        ids(CassClient::new().scanned_sessions(looked_up(&db))),
        ["new", "same", "changed", "bare"]
    );
    db.run(&FingerprintCache::clear());
    assert_eq!(
        ids(keeping.scanned_sessions(looked_up(&db))),
        ["new", "same", "changed", "bare"]
    );
}

#[test]
fn test_upsert_and_get_skill() {
    let mut db = Tables::default();
    let record = SkillRecord {
        id: "git-commit".to_string(),
        name: "Git Commit Patterns".to_string(),
        description: "Best practices for commits".to_string(),
        version: Some("1.0.0".to_string()),
        author: Some("Example".to_string()),
        source_path: "/skills/git".to_string(),
        source_layer: "base".to_string(),
        git_remote: None,
        git_commit: None,
        content_hash: "abc123".to_string(),
        body: "Write good commit messages".to_string(),
        metadata_json: r#"{"tags":"git,workflow"}"#.to_string(),
        assets_json: "{}".to_string(),
        token_count: 500,
        quality_score: quality(0.85),
        indexed_at: "2026-01-01T00:00:00Z".to_string(),
        modified_at: "2026-01-01T00:00:00Z".to_string(),
        is_deprecated: false,
        deprecation_reason: None,
    };
    db.run(&Database::upsert_skill(&record));
    let fetched = db.skill("git-commit").unwrap();
    assert_eq!(record, fetched);
}

fn search(db: &Tables, query: &str, limit: usize) -> Vec<SkillSearchCandidate> {
    match Database::search_fts(query, limit) {
        None => Vec::new(),
        Some(statement) => {
            search_results(&db.all(&statement), query, limit).expect("rows can be read")
        }
    }
}

#[test]
fn test_fts_search() {
    let mut db = Tables::default();
    let record = SkillRecord {
        id: "rust-errors".to_string(),
        name: "Rust Error Handling".to_string(),
        description: "Patterns for Result and error handling".to_string(),
        version: Some("1.0.0".to_string()),
        author: None,
        source_path: "/skills/rust".to_string(),
        source_layer: "base".to_string(),
        git_remote: None,
        git_commit: None,
        content_hash: "def456".to_string(),
        body: "Use Result<T, E> and anyhow".to_string(),
        metadata_json: r#"{"tags":"rust,error"}"#.to_string(),
        assets_json: "{}".to_string(),
        token_count: 250,
        quality_score: quality(0.9),
        indexed_at: "2026-01-01T00:00:00Z".to_string(),
        modified_at: "2026-01-01T00:00:00Z".to_string(),
        is_deprecated: false,
        deprecation_reason: None,
    };
    db.run(&Database::upsert_skill(&record));
    let results = search(&db, "error", 10);
    assert_eq!(results.len(), 1);
    assert_eq!(results[0].id, "rust-errors");
    assert_eq!(results[0].quality_score, quality(0.9));
    assert!(!results[0].is_deprecated);
}

#[test]
fn test_fts_search_special_characters() {
    let mut db = Tables::default();
    let record = SkillRecord {
        id: "agent-swarm".to_string(),
        name: "Agent Swarm Launcher".to_string(),
        description: "Coordinate a multi-agent swarm".to_string(),
        version: Some("1.0.0".to_string()),
        author: None,
        source_path: "/skills/swarm".to_string(),
        source_layer: "base".to_string(),
        git_remote: None,
        git_commit: None,
        content_hash: "abc123".to_string(),
        body: "Launch a multi-agent swarm and coordinate work".to_string(),
        metadata_json: r#"{"tags":"multi-agent,swarm"}"#.to_string(),
        assets_json: "{}".to_string(),
        token_count: 100,
        quality_score: quality(0.8),
        indexed_at: "2026-01-01T00:00:00Z".to_string(),
        modified_at: "2026-01-01T00:00:00Z".to_string(),
        is_deprecated: false,
        deprecation_reason: None,
    };
    db.run(&Database::upsert_skill(&record));
    for query in ["multi-agent", "a-b", "x-y-z", "a'b", "agent: swarm", "(swarm)"] {
        search(&db, query, 10);
    }
    let results = search(&db, "multi-agent", 10);
    assert_eq!(results.len(), 1, "multi-agent query should find agent-swarm");
    assert_eq!(results[0].id, "agent-swarm");
    assert!(search(&db, "   ", 10).is_empty());
}

#[test]
fn test_quarantine_roundtrip_and_reviews() {
    let mut db = Tables::default();
    let record = QuarantineRecord {
        quarantine_id: "q_test".to_string(),
        session_id: "sess_1".to_string(),
        message_index: 3,
        content_hash: "hash123".to_string(),
        safe_excerpt: "safe excerpt".to_string(),
        acip_classification:
            r#"{"Disallowed":{"category":"prompt_injection","action":"quarantine"}}"#.to_string(),
        audit_tag: Some("ACIP_AUDIT_MODE=ENABLED".to_string()),
        created_at: "2026-01-01T00:00:00Z".to_string(),
        replay_command: "ms security quarantine replay q_test --i-understand-the-risks".to_string(),
    };
    db.run(&Database::insert_quarantine_record(&record));

    let row = db.found(&Database::get_quarantine_record("q_test")).unwrap();
    let classification = classification_in(&row).unwrap();
    assert!(classification.get("Disallowed").is_some());
    let fetched = quarantine_from_row(&row, Ok(())).unwrap();
    assert_eq!(fetched.session_id, "sess_1");
    assert_eq!(fetched.message_index, 3);
    assert_eq!(fetched.acip_classification, record.acip_classification);

    let rows = db.all(&Database::list_quarantine_records_by_session("sess_1", 10));
    let records: Vec<QuarantineRecord> =
        rows.iter().map(|row| quarantine_from_row(row, Ok(())).unwrap()).collect();
    assert_eq!(records.len(), 1);
    assert_eq!(records[0].quarantine_id, "q_test");
    assert!(db.all(&Database::list_quarantine_records_by_session("sess_2", 10)).is_empty());

    let (statement, review) =
        Database::insert_quarantine_review("q_test", "confirm_injection", None);
    db.run(&statement);
    let reviews =
        read_rows::<QuarantineReview>(&db.all(&Database::list_quarantine_reviews("q_test")))
            .unwrap();
    assert_eq!(reviews.len(), 1);
    assert_eq!(reviews[0].id, review.id);
    assert_eq!(reviews[0].action, "confirm_injection");
}

#[test]
fn nothing_of_a_deleted_skill_is_left() {
    let mut db = Tables::default();
    let mut put = |table: &str, fields: &[(&str, &str)]| {
        let row: Record = fields
            .iter()
            .map(|(name, value)| (name.to_string(), SqlValue::Text(value.to_string())))
            .collect();
        db.rows.entry(table.to_string()).or_default().push(row);
    };
    for id in ["gone", "kept"] {
        put("skills", &[("id", id)]);
        put("skill_experiments", &[("id", &format!("e-{id}")), ("skill_id", id)]);
        put("skill_experiment_events", &[("experiment_id", &format!("e-{id}"))]);
        for table in [
            "skill_packs",
            "skill_slices",
            "skill_evidence",
            "skill_rules",
            "skill_usage",
            "skill_usage_events",
            "rule_outcomes",
            "skill_capabilities",
            "skill_feedback",
            "user_preferences",
            "skill_embeddings",
            "skill_origins",
            "resolved_skill_cache",
            "skill_aliases",
        ] {
            put(table, &[("skill_id", id)]);
        }
        for table in ["skill_dependencies", "skill_dependency_graph"] {
            put(table, &[("skill_id", id), ("depends_on", "third")]);
        }
    }
    for table in ["skill_dependencies", "skill_dependency_graph"] {
        put(table, &[("skill_id", "kept"), ("depends_on", "gone")]);
    }
    put("other", &[("skill_id", "gone")]);
    db.delete_skill("gone");
    for (table, rows) in &db.rows {
        if table == "other" {
            assert_eq!(rows.len(), 1);
            continue;
        }
        assert_eq!(rows.len(), 1, "{table}");
        let held: Vec<String> = rows[0]
            .values()
            .map(|value| match value {
                SqlValue::Text(text) => text.clone(),
                _ => panic!("a text"),
            })
            .collect();
        assert!(held.iter().all(|text| !text.contains("gone")), "{table}");
        assert!(held.iter().any(|text| text.contains("kept")), "{table}");
    }
    let before: Vec<usize> = db.rows.values().map(Vec::len).collect();
    db.delete_skill("gone");
    let after: Vec<usize> = db.rows.values().map(Vec::len).collect();
    assert_eq!(before, after);
}

#[test]
fn skills_of_a_name_are_the_last_modified_first() {
    let mut db = Tables::default();
    for (id, name, day) in [("a", "Twin", 1), ("b", "Other", 2), ("c", "Twin", 3), ("d", "Twin", 2)]
    {
        let mut s = skill(id, name, "/s", "base");
        s.modified_at = format!("2026-01-0{day}T00:00:00Z");
        db.run(&Database::upsert_skill(&s));
    }
    let named = read_rows::<SkillRecord>(&db.all(&Database::get_skills_by_name("Twin"))).unwrap();
    let ids: Vec<&str> = named.iter().map(|s| s.id.as_str()).collect();
    assert_eq!(ids, ["c", "d", "a"]);
    for s in &named {
        assert_eq!(db.skill(&s.id).as_ref(), Some(s));
    }
    assert!(db.all(&Database::get_skills_by_name("None")).is_empty());
}

#[test]
fn alias_queries_agree_with_each_other() {
    let mut db = Tables::default();
    for (alias, skill) in [("z", "one"), ("b", "two"), ("a", "one"), ("m", "one"), ("c", "two")] {
        db.run(&Database::upsert_alias(alias, skill, "deprecated", "t"));
    }
    let list = |skill: Option<&str>| -> Vec<AliasRecord> {
        read_rows(&db.all(&Database::list_aliases(skill))).unwrap()
    };
    let all: Vec<(String, String)> =
        list(None).into_iter().map(|a| (a.skill_id, a.alias)).collect();
    let mut sorted = all.clone();
    sorted.sort();
    assert_eq!(all, sorted);
    assert_eq!(all.len(), 5);
    for skill in ["one", "two", "none"] {
        let own: Vec<String> = list(Some(skill)).into_iter().map(|a| a.alias).collect();
        let part: Vec<String> =
            all.iter().filter(|(s, _)| s == skill).map(|(_, alias)| alias.clone()).collect();
        assert_eq!(own, part);
        let names: Vec<String> =
            read_rows(&db.all(&Database::get_aliases_for_skill(skill))).unwrap();
        assert_eq!(own, names);
        for alias in &own {
            let resolved: Option<AliasResolution> =
                read_found(&db.found(&Database::resolve_alias(alias))).unwrap();
            assert_eq!(resolved.unwrap().canonical_id, skill);
        }
    }
}

#[test]
fn pending_skill_is_described_and_completed() {
    let mut db = Tables::default();
    let metadata = SkillMetadata {
        id: "a".to_string(),
        name: "New".to_string(),
        description: "new".to_string(),
        version: Some("2".to_string()),
        author: None,
    };
    db.run(&Database::upsert_skill_pending(&metadata, "user", "{\"k\":1}", 7));
    let row = &db.rows["skills"][0];
    let text = |name: &str| match column(row, name) {
        SqlValue::Text(text) => text,
        _ => panic!("a text in {name}"),
    };
    assert_eq!(text("source_path"), "pending");
    assert_eq!(text("content_hash"), "pending");
    assert_eq!(text("body"), "");
    assert_eq!(text("assets_json"), "{}");
    assert_eq!(text("metadata_json"), "{\"k\":1}");
    assert_eq!(text("version"), "2");
    assert!(matches!(column(row, "quality_score"), SqlValue::Real(0)));
    assert!(matches!(column(row, "author"), SqlValue::Null));

    assert_eq!(db.run(&Database::finalize_skill_commit("a", "/a", "h", "text")), 1);
    assert_eq!(db.run(&Database::delete_pending_skill("a")), 0);
    let row = &db.rows["skills"][0];
    assert!(matches!(column(row, "source_path"), SqlValue::Text(t) if t == "/a"));
    assert!(matches!(column(row, "content_hash"), SqlValue::Text(t) if t == "h"));
    assert!(matches!(column(row, "body"), SqlValue::Text(t) if t == "text"));
    assert!(matches!(column(row, "name"), SqlValue::Text(t) if t == "New"));
}

#[test]
fn embedding_is_written_over_an_older_one() {
    let mut db = Tables::default();
    let mut record = EmbeddingRecord {
        skill_id: "s".to_string(),
        embedding: halves(&[1.0, -2.0]),
        dims: 2,
        embedder_type: "hash".to_string(),
        content_hash: None,
        computed_at: "t1".to_string(),
    };
    let read = |db: &Tables| {
        embedding_found(&db.found(&Database::get_embedding("s"))).unwrap().unwrap()
    };
    db.run(&Database::upsert_embedding(&record).unwrap());
    assert_eq!(read(&db), record);
    record.embedding = halves(&[0.5, 0.25, 4.0]);
    record.dims = 3;
    record.content_hash = Some("h".to_string());
    record.computed_at = "t2".to_string();
    db.run(&Database::upsert_embedding(&record).unwrap());
    assert_eq!(read(&db), record);
    assert_eq!(db.rows["skill_embeddings"].len(), 1);
}

#[test]
fn transaction_is_incomplete_until_its_last_phase() {
    let mut db = Tables::default();
    let incomplete = |db: &Tables| -> Vec<(String, TxPhase)> {
        incomplete_transactions(&db.all(&Database::list_incomplete_transactions()))
            .unwrap()
            .into_iter()
            .map(|tx| (tx.id, tx.phase))
            .collect()
    };
    for (id, phase) in [("a", TxPhase::Prepare), ("b", TxPhase::Complete)] {
        db.run(&Database::insert_tx_record(&TxRecord {
            id: id.to_string(),
            entity_type: "skill".to_string(),
            entity_id: "s".to_string(),
            phase,
            payload_json: "{}".to_string(),
            created_at: UtcTime { seconds: 0, nanos: 0 },
        }));
    }
    assert_eq!(incomplete(&db), [("a".to_string(), TxPhase::Prepare)]);
    for phase in [TxPhase::Pending, TxPhase::Committed] {
        db.run(&Database::update_tx_phase("a", phase));
        assert_eq!(incomplete(&db), [("a".to_string(), phase)]);
    }
    db.run(&Database::update_tx_phase("a", TxPhase::Complete));
    assert!(incomplete(&db).is_empty());
    db.run(&Database::update_tx_phase("b", TxPhase::Pending));
    assert_eq!(db.run(&Database::delete_tx_record("b")), 1);
    assert!(incomplete(&db).is_empty());
}

#[test]
fn preference_is_had_until_it_is_removed() {
    let mut db = Tables::default();
    let has = |db: &Tables, skill: &str, kind: &str| {
        let row = db.found(&Database::has_user_preference(skill, kind)).expect("a count");
        read_any(&row).unwrap()
    };
    assert!(!has(&db, "s", "favorite"));
    db.run(&Database::set_user_preference("s", "favorite").0);
    db.run(&Database::set_user_preference("s", "hidden").0);
    assert!(has(&db, "s", "favorite"));
    assert!(!has(&db, "t", "favorite"));
    let listed: Vec<UserPreferenceRecord> =
        read_rows(&db.all(&Database::list_user_preferences("favorite", 10, 0))).unwrap();
    assert_eq!(listed.len(), 1);
    assert_eq!(listed[0].skill_id, "s");
    assert_eq!(db.run(&Database::remove_user_preference("s", "favorite")), 1);
    assert!(!has(&db, "s", "favorite"));
    assert!(has(&db, "s", "hidden"));
}

#[test]
fn marks_on_a_skill_are_set_alone() {
    let mut db = Tables::default();
    let mut s = skill("a", "A", "/a", "base");
    let other = skill("b", "B", "/b", "base");
    db.run(&Database::upsert_skill(&s));
    db.run(&Database::upsert_skill(&other));
    db.run(&Database::update_skill_quality("a", quality(0.75)));
    s.quality_score = quality(0.75);
    assert_eq!(db.skill("a").as_ref(), Some(&s));
    db.run(&Database::update_skill_deprecation("a", true, Some("old")));
    s.is_deprecated = true;
    s.deprecation_reason = Some("old".to_string());
    assert_eq!(db.skill("a"), Some(s));
    assert_eq!(db.skill("b"), Some(other));
}

#[test]
fn records_of_a_skill_are_listed_with_it() {
    let mut db = Tables::default();
    for (skill, rating) in [("s", 1), ("t", 2), ("s", 3)] {
        let (statement, _) = Database::record_skill_feedback(skill, "rating", Some(rating), None);
        db.run(&statement);
    }
    let list = |skill: Option<&str>| -> Vec<Option<i64>> {
        read_rows::<SkillFeedbackRecord>(&db.all(&Database::list_skill_feedback(skill, 9, 0)))
            .unwrap()
            .into_iter()
            .map(|f| f.rating)
            .collect()
    };
    assert_eq!(list(None).len(), 3);
    assert_eq!(list(Some("t")), [Some(2)]);
    assert_eq!(list(Some("s")).len(), 2);
    assert_eq!(db.count(&Database::count_skill_feedback("s")), 2);

    let (statement, event) =
        Database::record_skill_experiment_event("e", "v", "shown", None, None, None);
    db.run(&statement);
    let events: Vec<ExperimentEventRecord> =
        read_rows(&db.all(&Database::list_skill_experiment_events("e"))).unwrap();
    assert_eq!(events.len(), 1);
    assert_eq!(events[0].id, event.id);
}

#[test]
fn outcome_is_marked_on_the_last_use() {
    let mut db = Tables::default();
    for (time, skill) in [("t1", "s"), ("t3", "s"), ("t2", "s"), ("t9", "t")] {
        db.run(&Database::skill_usage_at(time, skill, None, 1, None, None, None));
    }
    assert_eq!(db.count(&Database::count_skill_usage("s")), 3);
    assert_eq!(db.count(&Database::count_skill_usage("t")), 1);
    let (mark, event) = Database::skill_outcome_as("id", "now", "s", true);
    assert_eq!(db.run(&mark), 1);
    db.run(&event);
    let marked: Vec<bool> = db.rows["skill_usage"]
        .iter()
        .map(|row| matches!(column(row, "success_signal"), SqlValue::Integer(1)))
        .collect();
    assert_eq!(marked, [false, true, false, false]);
    assert_eq!(db.count(&Database::count_skill_usage("s")), 3);
    assert_eq!(db.run(&Database::skill_outcome_as("id", "now", "none", true).0), 0);
}

#[test]
fn each_skill_is_on_one_page() {
    let mut db = Tables::default();
    for i in 0..7 {
        let mut s = skill(&format!("s{i}"), "Name", "/s", "base");
        s.modified_at = format!("2026-01-0{}T00:00:00Z", (i * 3) % 7 + 1);
        db.run(&Database::upsert_skill(&s));
    }
    let page = |n: usize| -> Vec<SkillRecord> {
        read_rows(&db.all(&Database::list_skills(3, n * 3))).unwrap()
    };
    let pages: Vec<SkillRecord> = (0..4).flat_map(page).collect();
    assert_eq!(pages.len(), 7);
    for pair in pages.windows(2) {
        assert!(pair[0].modified_at > pair[1].modified_at);
    }
    for s in &pages {
        assert_eq!(db.skill(&s.id).as_ref(), Some(s));
    }
}
