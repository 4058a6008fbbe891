use meta_skill::cass::client::{
    content_hash_of, de_opt_timestamp, delta_sessions, excerpt, fingerprint_count,
    hex_text, metadata_from_export, new_or_changed, normalize_match,
    normalized_hits, session_from_export, session_id_by,
    session_id_from_path, CassCapabilities, CassClient,
    CassHealth, CassSearchResults, FingerprintCache, SessionMatch,
};
use meta_skill::cass::command::{
    classify_cass_error, classify_lowered, command_string, quote_argument, CommandRun, RunAction,
    RunEvent, RunStage,
};
use meta_skill::error::MsError;
use meta_skill::storage::statement::SqlValue;

fn words(list: &[&str]) -> Vec<String> {
    list.iter().map(|word| word.to_string()).collect()
}

fn args_of(run: &CommandRun) -> Vec<String> {
    run.args.clone().expect("arguments")
}

fn session_match(path: &str, id: &str, hash: Option<&str>) -> SessionMatch {
    SessionMatch {
        session_id: id.to_string(),
        path: path.to_string(),
        score: 0,
        snippet: None,
        content_hash: hash.map(str::to_string),
        project: None,
        timestamp: None,
    }
}

#[test]
fn test_cass_client_creation() {
    let client = CassClient::new();
    assert_eq!(client.cass_bin, "cass");
}

#[test]
fn test_cass_client_builder() {
    let client = CassClient::with_binary("/usr/local/bin/cass").with_data_dir("/data/cass");
    assert_eq!(client.cass_bin, "/usr/local/bin/cass");
    assert_eq!(client.data_dir, Some("/data/cass".to_string()));
}

#[test]
fn test_error_classification_not_found() {
    let err = classify_cass_error(2, "Session not found: xyz");
    assert!(matches!(err, MsError::SkillNotFound(_)));
}

#[test]
fn test_error_classification_transient() {
    let err = classify_cass_error(1, "Database is locked");
    assert!(matches!(err, MsError::TransactionFailed(_)));
}

#[test]
fn test_error_classification_mining() {
    let err = classify_cass_error(1, "Mining failed: insufficient data");
    assert!(matches!(err, MsError::MiningFailed(_)));
}

#[test]
fn test_error_classification_generic() {
    let err = classify_cass_error(42, "Unknown error");
    assert!(matches!(err, MsError::CassUnavailable(_)));
}

#[test]
fn classification_keeps_the_error_output() {
    match classify_cass_error(-7, "Strange FAILURE") {
        MsError::CassUnavailable(text) => {
            assert_eq!(text, "CASS command failed (exit -7): Strange FAILURE");
        }
        _ => panic!("a generic error"),
    }
    match classify_cass_error(1, "NO SUCH thing, database locked") {
        MsError::SkillNotFound(text) => assert_eq!(text, "NO SUCH thing, database locked"),
        _ => panic!("what is not found comes first"),
    }
    match classify_cass_error(2, "anything") {
        MsError::SkillNotFound(text) => assert_eq!(text, "anything"),
        _ => panic!("exit code 2 means not found"),
    }
    assert!(matches!(classify_cass_error(1, "cannot EXTRACT"), MsError::MiningFailed(_)));
    assert!(matches!(classify_lowered(1, "EXTRACT", "EXTRACT"), MsError::CassUnavailable(_)));
}

#[test]
fn default_client_is_a_new_one() {
    let client = CassClient::default();
    assert_eq!(client.cass_bin, "cass");
    assert_eq!(client.data_dir, None);
    assert!(!client.guarded);
    assert!(!client.has_fingerprints);
    assert!(CassClient::new().with_safety().guarded);
    assert!(CassClient::new().with_fingerprint_cache().has_fingerprints);
}

#[test]
fn commands_have_their_arguments() {
    let client = CassClient::new();
    assert_eq!(args_of(&client.health()), words(&["health", "--robot"]));
    assert_eq!(
        args_of(&client.search("rust errors", 12)),
        words(&["search", "rust errors", "--robot", "--limit", "12"])
    );
    assert_eq!(
        args_of(&client.get_session("/s/a.jsonl")),
        words(&["export", "/s/a.jsonl", "--format", "json", "--include-tools"])
    );
    assert_eq!(
        args_of(&client.session_metadata("/s/a.jsonl")),
        args_of(&client.get_session("/s/a.jsonl"))
    );
    assert_eq!(
        args_of(&client.expand_session("id", 3)),
        words(&["expand", "id", "--robot", "--context", "3"])
    );
    assert_eq!(
        args_of(&client.view_excerpt("id", 10, 20)),
        words(&["view", "id", "--robot", "--start", "10", "--end", "20"])
    );
    assert_eq!(
        args_of(&client.incremental_sessions(0)),
        words(&["search", "*", "--robot", "--limit", "0"])
    );
    assert_eq!(args_of(&client.capabilities()), words(&["capabilities", "--robot"]));
    let placed = CassClient::new().with_data_dir("/d");
    assert_eq!(
        args_of(&placed.capabilities()),
        words(&["capabilities", "--robot", "--data-dir", "/d"])
    );
    assert!(client.is_available().args.is_none());
}

#[test]
fn command_lines_are_quoted() {
    assert_eq!(quote_argument("plain-word"), "plain-word");
    assert_eq!(quote_argument("two words"), "'two words'");
    assert_eq!(quote_argument("it's"), "'it'\\''s'");
    assert_eq!(quote_argument("$x"), "'$x'");
    assert_eq!(quote_argument("a\u{a0}b"), "'a\u{a0}b'");
    assert_eq!(quote_argument(""), "");
    assert_eq!(command_string("cass", &words(&[])), "cass");
    assert_eq!(
        command_string("cass", &words(&["search", "*", "--robot"])),
        "cass search '*' --robot"
    );
}

fn ended(success: bool, exit_code: Option<i32>, stdout: &str, stderr: &str) -> RunEvent {
    RunEvent::Ended {
        success,
        exit_code,
        stdout: stdout.as_bytes().to_vec(),
        stderr: stderr.as_bytes().to_vec(),
    }
}

#[test]
fn unguarded_run_probes_and_runs() {
    let run = CassClient::with_binary("bin").health();
    match run.action() {
        RunAction::Start { program, args } => {
            assert_eq!(program, "bin");
            assert_eq!(args, words(&["--version"]));
        }
        _ => panic!("the probe comes first"),
    }
    let run = run.step(ended(true, Some(0), "1.0", ""));
    match run.action() {
        RunAction::Start { args, .. } => assert_eq!(args, words(&["health", "--robot"])),
        _ => panic!("the command comes next"),
    }
    let run = run.step(ended(true, Some(0), "{}", ""));
    assert!(matches!(run.action(), RunAction::Finish));
    match run.stage {
        RunStage::Done(Ok(output)) => assert_eq!(output, b"{}"),
        _ => panic!("the run succeeded"),
    }
}

#[test]
fn guarded_run_asks_before_each_start() {
    let run = CassClient::with_binary("bin").with_safety().search("a b", 1);
    match run.action() {
        RunAction::AskGuard(command) => assert_eq!(command, "bin --version"),
        _ => panic!("the guard judges the probe"),
    }
    let run = run.step(RunEvent::Allowed);
    assert!(matches!(run.action(), RunAction::Start { .. }));
    let run = run.step(ended(true, Some(0), "", ""));
    match run.action() {
        RunAction::AskGuard(command) => {
            assert_eq!(command, "bin search 'a b' --robot --limit 1");
        }
        _ => panic!("the guard judges the command"),
    }
    let run = run.step(RunEvent::Denied(MsError::Config("no".to_string())));
    assert!(matches!(run.action(), RunAction::Finish));
    assert!(matches!(run.stage, RunStage::Done(Err(MsError::Config(_)))));
}

#[test]
fn run_fails_where_the_tool_does() {
    let start = || CassClient::new().health();
    let run = start().step(RunEvent::NotStarted(MsError::Io("gone".to_string())));
    match run.stage {
        RunStage::Done(Err(MsError::CassUnavailable(text))) => {
            assert_eq!(text, "CASS binary not found or not executable");
        }
        _ => panic!("the probe failed"),
    }
    let run = start().step(ended(false, Some(1), "", ""));
    assert!(matches!(run.stage, RunStage::Done(Err(MsError::CassUnavailable(_)))));
    let denied = CassClient::new().with_safety().health();
    let run = denied.step(RunEvent::Denied(MsError::Config("no".to_string())));
    assert!(matches!(run.stage, RunStage::Done(Err(MsError::CassUnavailable(_)))));
    let run = start().step(ended(true, Some(0), "", "")).step(ended(false, Some(2), "", "gone"));
    assert!(matches!(run.stage, RunStage::Done(Err(MsError::SkillNotFound(_)))));
    let run = start().step(ended(true, Some(0), "", "")).step(ended(false, None, "", "odd"));
    match run.stage {
        RunStage::Done(Err(MsError::CassUnavailable(text))) => {
            assert_eq!(text, "CASS command failed (exit -1): odd");
        }
        _ => panic!("a generic error"),
    }
    let run = start()
        .step(ended(true, Some(0), "", ""))
        .step(RunEvent::NotStarted(MsError::Io("gone".to_string())));
    assert!(matches!(run.stage, RunStage::Done(Err(MsError::Io(_)))));
    let broken = RunEvent::Ended {
        success: false,
        exit_code: Some(1),
        stdout: Vec::new(),
        stderr: b"b\xffd LOCKED".to_vec(),
    };
    match start().step(ended(true, Some(0), "", "")).step(broken).stage {
        RunStage::Done(Err(MsError::TransactionFailed(text))) => {
            assert_eq!(text, "b\u{fffd}d LOCKED");
        }
        _ => panic!("what is no text is marked as such"),
    }
    let run = CassClient::new().is_available().step(ended(true, Some(0), "x", ""));
    assert!(matches!(run.stage, RunStage::Done(Ok(_))));
    let run = start().step(RunEvent::Allowed);
    assert!(matches!(run.stage, RunStage::Probe));
}

#[test]
fn session_ids_are_file_stems() {
    for (path, id) in [
        ("/home/u/.agents/0b5e-11.jsonl", "0b5e-11"),
        ("0b5e-11.jsonl", "0b5e-11"),
        ("/a/b/", "b"),
        ("/a/b/.", "b"),
        ("a//./b.tar.gz//", "b.tar"),
        (".hidden", ".hidden"),
        (".hidden.txt", ".hidden"),
        ("name.", "name"),
        ("...", ".."),
        ("..", ".."),
        ("/", "/"),
        ("", ""),
        (".", "."),
        ("./", "./"),
        ("a/..", "a/.."),
        ("no_extension", "no_extension"),
        ("/x/\u{fc}.y/z", "z"),
        ("/log/10:30.jsonl", "10:30"),
    ] {
        assert_eq!(session_id_from_path(path), id, "{path}");
    }
    let by_backslashes = std::path::MAIN_SEPARATOR == '\\';
    let own = if by_backslashes { "a" } else { "C:\\s\\a" };
    assert_eq!(session_id_from_path("C:\\s\\a.jsonl"), own);
    assert_eq!(session_id_by("/home/u/0b5e.jsonl", Some("stem".to_string())), "stem");
    assert_eq!(session_id_by("..", None), "..");
}

#[test]
fn content_hashes_are_sha256() {
    assert_eq!(
        content_hash_of(b"abc"),
        "ba7816bf8f01cfea414140de5dae2223b00361a396177a9cb410ff61f20015ad"
    );
    assert_eq!(
        content_hash_of(b""),
        "e3b0c44298fc1c149afbf4c8996fb92427ae41e4649b934ca495991b7852b855"
    );
    assert_eq!(hex_text(&vec![0, 9, 10, 255]), "00090aff");
}

#[test]
fn timestamps_may_be_numbers_or_strings() {
    let read = |text: &str| de_opt_timestamp(&serde_json::from_str(text).expect("JSON"));
    assert_eq!(read("1755000000000"), Some("1755000000000".to_string()));
    assert_eq!(read("\"2026-01-01\""), Some("2026-01-01".to_string()));
    assert_eq!(read("null"), None);
    assert_eq!(read("[1]"), None);
}

#[test]
fn matches_get_session_ids() {
    assert_eq!(normalize_match(session_match("/p/abc.jsonl", "", None)).session_id, "abc");
    assert_eq!(normalize_match(session_match("/p/abc.jsonl", "own", None)).session_id, "own");
    let hits = normalized_hits(CassSearchResults {
        hits: vec![session_match("/p/a.x", "", None), session_match("/p/b.x", "", None)],
        total_count: 2,
        truncated: false,
    });
    assert_eq!(hits[0].session_id, "a");
    assert_eq!(hits[1].session_id, "b");
}

#[test]
fn exports_become_sessions() {
    let output = br#"[{"role": "user", "content": "hello"}]"#;
    let session = session_from_export("/s/abc.jsonl", output).expect("a session");
    assert_eq!(session.id, "abc");
    assert_eq!(session.path, "/s/abc.jsonl");
    assert_eq!(session.messages.len(), 1);
    assert_eq!(session.metadata.message_count, 0);
    assert_eq!(session.content_hash, content_hash_of(output));
    let metadata = metadata_from_export("/s/abc.jsonl", output).expect("metadata");
    assert_eq!(metadata.message_count, 1);
    assert!(metadata.project.is_none());
    match session_from_export("/s/abc.jsonl", b"[]") {
        Err(MsError::CassUnavailable(text)) => assert_eq!(
            text,
            "Failed to decode session export: cass export contained 0 records but no supported \
             conversation messages"
        ),
        _ => panic!("nothing is said"),
    }
    assert!(metadata_from_export("/s/abc.jsonl", b"[").is_err());
}

#[test]
fn excerpts_are_text() {
    assert_eq!(excerpt("grüß".as_bytes().to_vec()).expect("text"), "grüß");
    let own = String::from_utf8(vec![0x61, 0xff]).expect_err("no UTF-8");
    match excerpt(vec![0x61, 0xff]) {
        Err(MsError::CassUnavailable(text)) => {
            assert_eq!(text, format!("Invalid UTF-8 in excerpt: {own}"));
        }
        _ => panic!("no UTF-8"),
    }
}

#[test]
fn fingerprints_are_counted_and_removed() {
    assert_eq!(fingerprint_count(&vec![SqlValue::Integer(2)]).unwrap(), 2);
    assert!(matches!(
        fingerprint_count(&vec![SqlValue::Null]),
        Err(MsError::Database(_))
    ));
    assert_eq!(FingerprintCache::clear().sql, "DELETE FROM cass_fingerprints");
    assert_eq!(FingerprintCache::remove("s").params.len(), 1);
    assert_eq!(FingerprintCache::count().sql, "SELECT COUNT(*) FROM cass_fingerprints");
    assert!(FingerprintCache::open().sql.starts_with("CREATE TABLE IF NOT EXISTS"));
    assert!(CassClient::new().mark_session_processed("s", "h").is_none());
    let marked = CassClient::new().with_fingerprint_cache().mark_session_processed("s", "h");
    assert_eq!(marked.expect("fingerprints are kept").params.len(), 2);
}

#[test]
fn only_news_are_kept() {
    let known = |hash: &str| Some(hash.to_string());
    assert!(new_or_changed(&None, "h"));
    assert!(new_or_changed(&known("g"), "h"));
    assert!(!new_or_changed(&known("h"), "h"));
    let delta = delta_sessions(vec![
        (session_match("/a.x", "a", Some("1")), known("1")),
        (session_match("/b.x", "b", Some("2")), known("1")),
        (session_match("/c.x", "c", Some("3")), None),
        (session_match("/d.x", "d", None), known("")),
    ]);
    let ids: Vec<&str> = delta.iter().map(|m| m.session_id.as_str()).collect();
    assert_eq!(ids, ["b", "c"]);
}

#[test]
fn answers_of_the_tool_have_their_fields() {
    let health = CassHealth {
        healthy: true,
        version: "0.6".to_string(),
        database_ok: true,
        index_ok: false,
        session_count: 3,
        last_indexed: None,
    };
    assert!(health.healthy && !health.index_ok && health.session_count == 3);
    let can = CassCapabilities {
        version: "0.6".to_string(),
        search_modes: words(&["lexical"]),
        output_formats: words(&["json"]),
        max_results: 100,
        supports_incremental: true,
        supports_robot_mode: true,
    };
    assert_eq!(can.search_modes.len() + can.output_formats.len(), 2);
}
