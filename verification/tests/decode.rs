use meta_skill::cass::decode::{
    codex_output, custom_tool_arguments, decode_cass_export, decode_record, de_string_or_null,
    flatten_text_content, flatten_tool_output, function_call_arguments, is_claude_record,
    is_codex_record, is_normalized_record, nonempty_owned, parse_json_arguments, payload_is_error,
    text_from_block, CassExportDecodeError,
};
use meta_skill::cass::markers::parse_inline_tool_markers;
use meta_skill::cass::session::SessionMessage;
use serde_json::Value;

fn value(text: &str) -> Value {
    serde_json::from_str(text).expect("fixture is JSON")
}

fn decode(text: &str) -> Vec<SessionMessage> {
    let bytes = serde_json::to_vec(&value(text)).expect("serialize fixture");
    match decode_cass_export(&bytes) {
        Ok(messages) => messages,
        Err(error) => panic!("should decode, got {}", error.message()),
    }
}

struct ShapeCase {
    name: &'static str,
    json: &'static str,
    expected_count: usize,
    expected_roles: &'static [&'static str],
    expected_tool_calls: usize,
    expected_tool_results: usize,
    must_contain: &'static [&'static str],
    must_not_contain: &'static [&'static str],
}

#[test]
fn decode_supported_export_shapes_table() {
    let cases = [
        ShapeCase {
            name: "normalized_flat",
            json: r#"[
                {
                    "role": "user",
                    "content": "Fix the review-surface validation."
                },
                {
                    "role": "assistant",
                    "content": "I will inspect and test it.\n[Tool: Read - src/review_surface.rs]\n[Tool: Bash - cargo test review_surface]"
                },
                {
                    "role": null,
                    "content": null
                }
            ]"#,
            expected_count: 3,
            expected_roles: &["user", "assistant", ""],
            expected_tool_calls: 2,
            expected_tool_results: 0,
            must_contain: &["I will inspect and test it."],
            must_not_contain: &[],
        },
        ShapeCase {
            name: "raw_claude_code",
            json: r#"[
                {
                    "type": "attachment",
                    "attachment": {
                        "name": "not-a-user-message"
                    }
                },
                {
                    "type": "user",
                    "message": {
                        "role": "user",
                        "content": "Fix the review surface."
                    }
                },
                {
                    "type": "assistant",
                    "message": {
                        "role": "assistant",
                        "content": [
                            {
                                "type": "thinking",
                                "thinking": "private reasoning"
                            },
                            {
                                "type": "text",
                                "text": "I will inspect the file."
                            },
                            {
                                "type": "tool_use",
                                "id": "toolu_read_1",
                                "name": "Read",
                                "input": {
                                    "file_path": "src/review_surface.rs"
                                }
                            }
                        ]
                    }
                },
                {
                    "type": "user",
                    "message": {
                        "role": "user",
                        "content": [
                            {
                                "type": "tool_result",
                                "tool_use_id": "toolu_read_1",
                                "content": "pub fn render_review_surface() {}",
                                "is_error": false
                            }
                        ]
                    }
                },
                {
                    "type": "file-history-snapshot",
                    "message": "noise"
                }
            ]"#,
            expected_count: 3,
            expected_roles: &["user", "assistant", "user"],
            expected_tool_calls: 1,
            expected_tool_results: 1,
            must_contain: &["Fix the review surface.", "I will inspect the file."],
            must_not_contain: &["private reasoning"],
        },
        ShapeCase {
            name: "raw_codex_rollout",
            json: r#"[
                {
                    "timestamp": "2026-08-13T12:00:00Z",
                    "type": "session_meta",
                    "payload": {
                        "id": "noise"
                    }
                },
                {
                    "timestamp": "2026-08-13T12:00:01Z",
                    "type": "response_item",
                    "payload": {
                        "type": "message",
                        "role": "user",
                        "content": [
                            {
                                "type": "input_text",
                                "text": "Fix the review surface."
                            }
                        ]
                    }
                },
                {
                    "timestamp": "2026-08-13T12:00:02Z",
                    "type": "response_item",
                    "payload": {
                        "type": "message",
                        "role": "assistant",
                        "content": [
                            {
                                "type": "output_text",
                                "text": "I will run the focused tests."
                            }
                        ]
                    }
                },
                {
                    "timestamp": "2026-08-13T12:00:03Z",
                    "type": "response_item",
                    "payload": {
                        "type": "function_call",
                        "name": "shell",
                        "arguments": "{\"command\":\"cargo test review_surface\"}",
                        "call_id": "call_shell_1"
                    }
                },
                {
                    "timestamp": "2026-08-13T12:00:04Z",
                    "type": "response_item",
                    "payload": {
                        "type": "function_call_output",
                        "call_id": "call_shell_1",
                        "output": "running 1 test\ntest result: ok. 1 passed"
                    }
                },
                {
                    "timestamp": "2026-08-13T12:00:05Z",
                    "type": "response_item",
                    "payload": {
                        "type": "custom_tool_call",
                        "name": "apply_patch",
                        "input": "*** Begin Patch\n*** End Patch",
                        "call_id": "call_patch_1"
                    }
                },
                {
                    "timestamp": "2026-08-13T12:00:06Z",
                    "type": "response_item",
                    "payload": {
                        "type": "custom_tool_call_output",
                        "call_id": "call_patch_1",
                        "output": "Done!"
                    }
                },
                {
                    "timestamp": "2026-08-13T12:00:07Z",
                    "type": "response_item",
                    "payload": {
                        "type": "reasoning",
                        "summary": [
                            {
                                "type": "summary_text",
                                "text": "private reasoning"
                            }
                        ]
                    }
                }
            ]"#,
            expected_count: 6,
            expected_roles: &["user", "assistant", "assistant", "tool", "assistant", "tool"],
            expected_tool_calls: 2,
            expected_tool_results: 2,
            must_contain: &["Fix the review surface.", "I will run the focused tests."],
            must_not_contain: &["private reasoning"],
        },
    ];

    for case in &cases {
        let messages = decode(case.json);
        assert_eq!(
            messages.len(),
            case.expected_count,
            "{} message count",
            case.name
        );
        let roles: Vec<&str> = messages
            .iter()
            .map(|message| message.role.as_str())
            .collect();
        assert_eq!(roles, case.expected_roles, "{} roles", case.name);
        for (index, message) in messages.iter().enumerate() {
            assert_eq!(message.index, index, "{} index {index}", case.name);
        }
        let tool_calls: usize = messages
            .iter()
            .map(|message| message.tool_calls.len())
            .sum();
        let tool_results: usize = messages
            .iter()
            .map(|message| message.tool_results.len())
            .sum();
        assert_eq!(
            tool_calls, case.expected_tool_calls,
            "{} tool calls",
            case.name
        );
        assert_eq!(
            tool_results, case.expected_tool_results,
            "{} tool results",
            case.name
        );
        let joined = messages
            .iter()
            .map(|message| message.content.as_str())
            .collect::<Vec<_>>()
            .join("\n");
        for fragment in case.must_contain {
            assert!(
                joined.contains(fragment),
                "{} missing fragment {fragment}",
                case.name
            );
        }
        for fragment in case.must_not_contain {
            assert!(
                !joined.contains(fragment),
                "{} unexpectedly contains {fragment}",
                case.name
            );
        }

        match case.name {
            "normalized_flat" => {
                assert_eq!(
                    messages[1].content,
                    "I will inspect and test it.\n[Tool: Read - src/review_surface.rs]\n[Tool: Bash - cargo test review_surface]"
                );
                assert_eq!(messages[2].role, "");
                assert_eq!(messages[2].content, "");
                let read = messages[1]
                    .tool_calls
                    .iter()
                    .find(|call| call.name == "Read")
                    .expect("Read call");
                assert_eq!(
                    read.arguments.get("file_path").and_then(Value::as_str),
                    Some("src/review_surface.rs")
                );
                let bash = messages[1]
                    .tool_calls
                    .iter()
                    .find(|call| call.name == "Bash")
                    .expect("Bash call");
                assert_eq!(
                    bash.arguments.get("command").and_then(Value::as_str),
                    Some("cargo test review_surface")
                );
                let ids: std::collections::HashSet<_> = messages[1]
                    .tool_calls
                    .iter()
                    .map(|call| call.id.as_str())
                    .collect();
                assert_eq!(ids.len(), 2, "inline call IDs are distinct");
            }
            "raw_claude_code" => {
                let read = messages[1]
                    .tool_calls
                    .iter()
                    .find(|call| call.name == "Read")
                    .expect("Read call");
                assert_eq!(read.id, "toolu_read_1");
                assert_eq!(
                    read.arguments.get("file_path").and_then(Value::as_str),
                    Some("src/review_surface.rs")
                );
                assert_eq!(messages[2].tool_results.len(), 1);
                assert_eq!(messages[2].tool_results[0].tool_call_id, "toolu_read_1");
                assert!(!messages[2].tool_results[0].content.is_empty());
                assert!(!messages[2].tool_results[0].is_error);
                assert!(!messages[0].content.trim().is_empty());
            }
            "raw_codex_rollout" => {
                let shell = messages
                    .iter()
                    .flat_map(|message| &message.tool_calls)
                    .find(|call| call.name == "shell")
                    .expect("shell call");
                assert_eq!(
                    shell.arguments.get("command").and_then(Value::as_str),
                    Some("cargo test review_surface")
                );
                let patch = messages
                    .iter()
                    .flat_map(|message| &message.tool_calls)
                    .find(|call| call.name == "apply_patch")
                    .expect("apply_patch call");
                assert_eq!(
                    patch.arguments.get("input").and_then(Value::as_str),
                    Some("*** Begin Patch\n*** End Patch")
                );
                let result_ids: Vec<&str> = messages
                    .iter()
                    .flat_map(|message| &message.tool_results)
                    .map(|result| result.tool_call_id.as_str())
                    .collect();
                assert!(result_ids.contains(&"call_shell_1"));
                assert!(result_ids.contains(&"call_patch_1"));
            }
            other => panic!("unexpected case {other}"),
        }
    }
}

#[test]
fn decode_rejects_nonempty_all_noise_export() {
    let bytes = serde_json::to_vec(&value(r#"[
        {"type": "attachment"},
        {"type": "mode"},
        {"type": "response_item", "payload": {"type": "reasoning"}}
    ]"#))
    .expect("serialize noise");
    let error = decode_cass_export(&bytes).expect_err("noise export must fail");
    assert!(matches!(
        error,
        CassExportDecodeError::NoSupportedMessages { record_count: 3 }
    ));
}

#[test]
fn decode_rejects_malformed_json() {
    let error = decode_cass_export(b"{not-json").expect_err("malformed JSON must fail");
    assert!(matches!(error, CassExportDecodeError::Json(_)));
}

#[test]
fn decode_does_not_duplicate_inline_tools_when_structured_calls_exist() {
    let bytes = serde_json::to_vec(&value(r#"[{
        "role": "assistant",
        "content": "Reading the file\n[Tool: Read - src/lib.rs]",
        "tool_calls": [{
            "id": "structured_1",
            "name": "Read",
            "arguments": {"file_path": "src/lib.rs"}
        }]
    }]"#))
    .expect("serialize structured+marker");
    let messages = decode_cass_export(&bytes).expect("decode structured+marker");
    assert_eq!(messages.len(), 1);
    assert_eq!(messages[0].tool_calls.len(), 1);
    assert_eq!(messages[0].tool_calls[0].id, "structured_1");
}

#[test]
fn decode_codex_invalid_function_arguments_preserves_raw_text() {
    let bytes = serde_json::to_vec(&value(r#"[{
        "type": "response_item",
        "payload": {
            "type": "function_call",
            "name": "shell",
            "arguments": "not-json",
            "call_id": "call_bad_1"
        }
    }]"#))
    .expect("serialize invalid args");
    let messages = decode_cass_export(&bytes).expect("invalid args must decode");
    assert_eq!(messages.len(), 1);
    assert_eq!(messages[0].tool_calls.len(), 1);
    assert_eq!(
        messages[0].tool_calls[0].arguments,
        value(r#"{"raw": "not-json"}"#)
    );
}

#[test]
fn decode_claude_type_user_without_message_is_noise() {
    let bytes = serde_json::to_vec(&value(r#"[
        {"type": "user"},
        {
            "type": "user",
            "message": {
                "role": "user",
                "content": "Keep this turn."
            }
        }
    ]"#))
    .expect("serialize noise");
    let messages = decode_cass_export(&bytes).expect("mixed export");
    assert_eq!(messages.len(), 1);
    assert_eq!(messages[0].role, "user");
    assert_eq!(messages[0].content, "Keep this turn.");
}

#[test]
fn parse_inline_tool_markers_handles_edge_cases() {
    assert!(parse_inline_tool_markers("just some prose", 0).is_empty());
    assert!(parse_inline_tool_markers("[Tool: Bash - never closed", 0).is_empty());
    assert!(parse_inline_tool_markers("[Tool: ]", 0).is_empty());
    let calls = parse_inline_tool_markers("[Tool: Edit - /a/b.rs][Tool: Write - /c/d.rs]", 7);
    assert_eq!(calls.len(), 2);
    assert_eq!(calls[0].name, "Edit");
    assert_eq!(
        calls[0].arguments.get("file_path").and_then(Value::as_str),
        Some("/a/b.rs")
    );
    assert!(calls[0].id.starts_with("inline_7_"));
    assert_ne!(calls[0].id, calls[1].id);
}

#[test]
fn messages_are_numbered_and_inline_calls_carry_the_number() {
    let messages = decode(
        r#"[
            {"type": "mode"},
            {"role": "user", "content": "go"},
            {"role": "assistant", "content": "[Tool: BASH - ls][Tool: Grep - x - y][Tool: Plan]"}
        ]"#,
    );
    assert_eq!(messages.len(), 2);
    assert_eq!(messages[0].index, 0);
    assert_eq!(messages[1].index, 1);
    let calls = &messages[1].tool_calls;
    assert_eq!(calls.len(), 3);
    assert_eq!(calls[0].id, "inline_1_0");
    assert_eq!(calls[0].name, "BASH");
    assert_eq!(calls[0].arguments, value(r#"{"command": "ls"}"#));
    assert_eq!(calls[1].id, "inline_1_1");
    assert_eq!(calls[1].arguments, value(r#"{"detail": "x - y"}"#));
    assert_eq!(calls[2].id, "inline_1_2");
    assert_eq!(calls[2].arguments, value("{}"));
}

#[test]
fn empty_export_is_refused_with_its_count() {
    let error = decode_cass_export(b"[]").expect_err("nothing is said");
    assert!(matches!(
        error,
        CassExportDecodeError::NoSupportedMessages { record_count: 0 }
    ));
    assert_eq!(
        error.message(),
        "cass export contained 0 records but no supported conversation messages"
    );
}

#[test]
fn blank_messages_alone_are_refused() {
    let error = decode_cass_export(br#"[{"role": "user", "content": " \n "}]"#)
        .expect_err("nothing is said");
    assert!(matches!(
        error,
        CassExportDecodeError::NoSupportedMessages { record_count: 1 }
    ));
}

#[test]
fn json_problems_are_worded_as_the_parser_words_them() {
    let error = decode_cass_export(b"{not-json").expect_err("no JSON");
    let own = serde_json::from_slice::<Vec<Value>>(b"{not-json").expect_err("no JSON");
    assert_eq!(error.message(), format!("invalid cass export JSON: {own}"));
    let error = decode_cass_export(br#"{"role": "user"}"#).expect_err("no array");
    assert!(matches!(error, CassExportDecodeError::Json(_)));
}

#[test]
fn normalized_fields_of_the_wrong_type_fail_the_export() {
    let text = |v: &str| serde_json::from_str::<Option<String>>(v).unwrap_err().to_string();
    let plain = |problem: String| problem.split(" at line").next().unwrap().to_string();
    for (record, problem) in [
        (r#"[{"role": "user", "content": 5}]"#, plain(text("5"))),
        (r#"[{"role": "user", "content": 1.5}]"#, plain(text("1.5"))),
        (r#"[{"role": [], "content": "x"}]"#, plain(text("[]"))),
        (
            r#"[{"role": "user", "content": "x", "index": -1}]"#,
            "invalid value: integer `-1`, expected usize".to_string(),
        ),
        (
            r#"[{"role": "user", "content": "x", "tool_calls": null}]"#,
            "invalid type: null, expected a sequence".to_string(),
        ),
        (
            r#"[{"role": "user", "content": "x", "tool_calls": [7]}]"#,
            "invalid type: integer `7`, expected struct ToolCall".to_string(),
        ),
        (
            r#"[{"role": "user", "content": "x", "tool_calls": [{"id": "a", "name": true}]}]"#,
            "invalid type: boolean `true`, expected a string".to_string(),
        ),
        (
            r#"[{"role": "user", "content": "x", "tool_calls": [{"id": "a", "name": "b"}]}]"#,
            "missing field `arguments`".to_string(),
        ),
        (
            r#"[{"role": "user", "content": "x", "tool_calls": [["a", "b"]]}]"#,
            "invalid length 2, expected struct ToolCall with 3 elements".to_string(),
        ),
        (
            r#"[{"role": "user", "content": "x", "tool_calls": [["a", "b", 1, 2]]}]"#,
            "invalid length 4, expected fewer elements in array".to_string(),
        ),
        (
            r#"[{"role": "user", "content": "x", "tool_results": [["a", "b", "c"]]}]"#,
            "invalid type: string \"c\", expected a boolean".to_string(),
        ),
        (
            r#"[{"role": "user", "content": "x", "tool_results": [{"is_error": null}]}]"#,
            "invalid type: null, expected a boolean".to_string(),
        ),
        (
            r#"[{"role": "user", "content": "x", "tool_results": [{"content": "c"}]}]"#,
            "missing field `tool_call_id`".to_string(),
        ),
    ] {
        match decode_cass_export(record.as_bytes()) {
            Err(CassExportDecodeError::Json(words)) => assert_eq!(words, problem, "{record}"),
            _ => panic!("{record} should fail"),
        }
    }
}

#[test]
fn normalized_calls_and_results_may_be_lists() {
    let messages = decode(
        r#"[{
            "role": "assistant",
            "content": null,
            "index": 9,
            "tool_calls": [["c1", "Read", {"file_path": "a"}]],
            "tool_results": [
                {"tool_call_id": "c1", "content": "text", "is_error": true},
                ["c2", "more", false]
            ]
        }]"#,
    );
    assert_eq!(messages[0].index, 0);
    assert_eq!(messages[0].tool_calls[0].id, "c1");
    assert_eq!(messages[0].tool_calls[0].arguments, value(r#"{"file_path": "a"}"#));
    assert!(messages[0].tool_results[0].is_error);
    assert_eq!(messages[0].tool_results[1].tool_call_id, "c2");
    assert!(!messages[0].tool_results[1].is_error);
}

#[test]
fn private_reasoning_leaves_no_trace() {
    let with = |thought: &str| {
        let text = format!(
            r#"[{{"type": "assistant", "message": {{"role": "assistant", "content": [
                {{"type": "thinking", "thinking": "{thought}", "text": "{thought}"}},
                "plain",
                {{"text": "worded"}},
                {{"type": "tool_use", "input": 4}}
            ]}}}}]"#
        );
        let messages = decode(&text);
        assert_eq!(messages.len(), 1);
        format!("{messages:?}")
    };
    assert_eq!(with("one"), with("two"));
    assert!(!with("secret").contains("secret"));
}

#[test]
fn claude_blocks_get_ids_and_arguments() {
    let messages = decode(
        r#"[
            {"type": "noise"},
            {"type": "assistant", "message": {"role": "assistant", "content": [
                "plain",
                {"text": "worded"},
                {"type": "tool_use", "input": 4},
                {"type": "tool_use", "id": "", "name": "Bash", "input": null},
                {"type": "tool_result", "tool_call_id": "x", "content": {"content": [{"text": "deep"}]}},
                {"type": "tool_result", "content": 7, "is_error": true}
            ]}}
        ]"#,
    );
    let m = &messages[0];
    assert_eq!(m.content, "plain\nworded");
    assert_eq!(m.tool_calls[0].id, "claude_call_1_2");
    assert_eq!(m.tool_calls[0].name, "unknown");
    assert_eq!(m.tool_calls[0].arguments, value(r#"{"input": 4}"#));
    assert_eq!(m.tool_calls[1].id, "claude_call_1_3");
    assert_eq!(m.tool_calls[1].name, "Bash");
    assert_eq!(m.tool_calls[1].arguments, value("{}"));
    assert_eq!(m.tool_results[0].tool_call_id, "x");
    assert_eq!(m.tool_results[0].content, "deep");
    assert!(!m.tool_results[0].is_error);
    assert_eq!(m.tool_results[1].tool_call_id, "claude_result_1_5");
    assert_eq!(m.tool_results[1].content, "7");
    assert!(m.tool_results[1].is_error);
}

#[test]
fn codex_items_get_ids_arguments_and_errors() {
    let messages = decode(
        r#"[
            {"type": "response_item", "payload": {"type": "message", "role": "agent", "content": "hi"}},
            {"type": "response_item", "payload": {"type": "message", "role": "system", "content": "no"}},
            {"type": "response_item", "payload": {"type": "function_call", "arguments": "[1]"}},
            {"type": "response_item", "payload": {"type": "custom_tool_call", "input": "{\"a\":1}", "id": "c"}},
            {"type": "response_item", "payload": {"type": "shell_output", "result": {"k": true}, "status": "FAILED"}},
            {"type": "response_item", "payload": {"type": "shell_output"}}
        ]"#,
    );
    assert_eq!(messages.len(), 4);
    assert_eq!(messages[0].role, "assistant");
    assert_eq!(messages[0].content, "hi");
    assert_eq!(messages[1].tool_calls[0].id, "codex_call_2");
    assert_eq!(messages[1].tool_calls[0].name, "unknown");
    assert_eq!(messages[1].tool_calls[0].arguments, value(r#"{"value": [1]}"#));
    assert_eq!(messages[2].tool_calls[0].id, "c");
    assert_eq!(messages[2].tool_calls[0].arguments, value(r#"{"a": 1}"#));
    assert_eq!(messages[3].role, "tool");
    assert_eq!(messages[3].tool_results[0].tool_call_id, "codex_result_4");
    assert_eq!(messages[3].tool_results[0].content, r#"{"k":true}"#);
    assert!(messages[3].tool_results[0].is_error);
}

#[test]
fn shapes_are_told_apart() {
    let normalized = value(r#"{"role": 1, "content": 2}"#);
    let claude = value(r#"{"type": "user", "message": {"role": "assistant", "content": 1}}"#);
    let codex = value(r#"{"type": "response_item", "payload": {}}"#);
    assert!(is_normalized_record(&normalized));
    assert!(!is_normalized_record(&claude));
    assert!(is_claude_record(&claude));
    assert!(!is_claude_record(&codex));
    assert!(is_codex_record(&codex));
    assert!(!is_codex_record(&value(r#"{"type": "response_item", "payload": []}"#)));
    assert!(!is_codex_record(&value("[]")));
    assert!(matches!(decode_record(&value("3"), 0), Ok(None)));
}

#[test]
fn arguments_are_made_objects() {
    assert_eq!(function_call_arguments(None), value("{}"));
    assert_eq!(function_call_arguments(Some(&value("null"))), value("{}"));
    assert_eq!(function_call_arguments(Some(&value("7"))), value(r#"{"value": 7}"#));
    assert_eq!(
        function_call_arguments(Some(&value(r#""{\"a\":1}""#))),
        value(r#"{"a": 1}"#)
    );
    assert_eq!(parse_json_arguments("true", "key"), value(r#"{"key": true}"#));
    assert_eq!(parse_json_arguments("tru", "key"), value(r#"{"raw": "tru"}"#));
    assert_eq!(custom_tool_arguments(Some(&value(r#""[1]""#))), value(r#"{"input": "[1]"}"#));
    assert_eq!(custom_tool_arguments(Some(&value("[1]"))), value(r#"{"input": [1]}"#));
}

#[test]
fn texts_are_flattened() {
    assert_eq!(flatten_text_content(&value(r#"[{"type": "image"}, "a", "", {"text": "b"}]"#)), "a\nb");
    assert_eq!(flatten_text_content(&value(r#"{"text": "c"}"#)), "c");
    assert_eq!(flatten_text_content(&value("5")), "");
    assert_eq!(flatten_tool_output(&value("null")), "");
    assert_eq!(flatten_tool_output(&value("1.5")), "1.5");
    assert_eq!(flatten_tool_output(&value("false")), "false");
    assert_eq!(flatten_tool_output(&value(r#"{"content": {"content": "x"}}"#)), "x");
    assert_eq!(flatten_tool_output(&value(r#"{"b": 1, "a": [2]}"#)), r#"{"a":[2],"b":1}"#);
    assert_eq!(text_from_block(&value(r#"{"type": "reasoning", "text": "x"}"#)), None);
    assert_eq!(text_from_block(&value(r#"{"type": "output_text", "text": "x"}"#)), Some("x".to_string()));
    assert_eq!(nonempty_owned(""), None);
    assert_eq!(nonempty_owned("a"), Some("a".to_string()));
    assert_eq!(de_string_or_null(None), Ok(String::new()));
    assert_eq!(de_string_or_null(Some(&value("null"))), Ok(String::new()));
    assert_eq!(
        de_string_or_null(Some(&value("4"))),
        Err("invalid type: integer `4`, expected a string".to_string())
    );
}

#[test]
fn errors_of_payloads_are_seen() {
    assert!(payload_is_error(&value(r#"{"is_error": true}"#)));
    assert!(payload_is_error(&value(r#"{"status": "Error"}"#)));
    assert!(!payload_is_error(&value(r#"{"status": "ok", "is_error": "true"}"#)));
    let message = codex_output(&value(r#"{"output": null, "result": "r", "status": "failed"}"#), 3);
    assert_eq!(message.tool_results[0].content, "");
    assert_eq!(message.tool_results[0].tool_call_id, "codex_result_3");
    assert!(message.tool_results[0].is_error);
}

#[test]
fn marker_names_count_the_same_in_any_letter_case() {
    let calls = parse_inline_tool_markers("a [Tool:  MultiEdit -  /p q.rs  ] b [Tool: Ünï - d]", 0);
    assert_eq!(calls[0].name, "MultiEdit");
    assert_eq!(calls[0].arguments, value(r#"{"file_path": "/p q.rs"}"#));
    assert_eq!(calls[1].name, "Ünï");
    assert_eq!(calls[1].arguments, value(r#"{"detail": "d"}"#));
}

#[test]
fn markers_in_raw_records_are_words() {
    let messages = decode(
        r#"[
            {"type": "user", "message": {"role": "user", "content": "[Tool: Read - a.rs]"}},
            {"type": "assistant", "message": {"role": "assistant", "content": [
                {"type": "text", "text": "[Tool: Read - b.rs]"}
            ]}},
            {"type": "response_item", "payload": {"type": "message", "role": "user", "content": [
                {"type": "input_text", "text": "[Tool: Bash - ls]"}
            ]}},
            {"role": "assistant", "content": "[Tool: Read - c.rs]"}
        ]"#,
    );
    assert_eq!(messages.len(), 4);
    assert_eq!(messages[0].content, "[Tool: Read - a.rs]");
    assert!(messages[0].tool_calls.is_empty());
    assert_eq!(messages[1].content, "[Tool: Read - b.rs]");
    assert!(messages[1].tool_calls.is_empty());
    assert_eq!(messages[2].content, "[Tool: Bash - ls]");
    assert!(messages[2].tool_calls.is_empty());
    assert_eq!(messages[3].tool_calls.len(), 1);
    assert_eq!(messages[3].tool_calls[0].id, "inline_3_0");
    let alone = r#"[{"type":"user","message":{"role":"user","content":"[Tool: Read - a.rs]"}}]"#;
    let messages = decode(alone);
    assert_eq!(messages.len(), 1);
    assert_eq!(messages[0].content, "[Tool: Read - a.rs]");
    assert!(messages[0].tool_calls.is_empty());
}

#[test]
fn exports_are_read_one_behind_the_other() {
    let first = r#"{"role": "user", "content": "a"}, {"type": "noise"},
        {"role": "assistant", "content": "[Tool: Read - a.rs]"}"#;
    let second = r#"{"role": "assistant", "content": "[Tool: Bash - ls]"},
        {"type": "assistant", "message": {"role": "assistant", "content": [
            {"type": "tool_use", "name": "Edit", "input": {"k": 1}},
            {"type": "tool_use", "id": "given", "name": "Edit", "input": {}}
        ]}},
        {"type": "response_item", "payload": {"type": "shell_output", "output": "done"}}"#;
    let x = decode(&format!("[{first}]"));
    let y = decode(&format!("[{second}]"));
    let both = decode(&format!("[{first}, {second}]"));
    assert_eq!(both.len(), x.len() + y.len());
    for (i, m) in x.iter().enumerate() {
        assert_eq!(format!("{m:?}"), format!("{:?}", both[i]));
    }
    for (i, m) in y.iter().enumerate() {
        let other = &both[x.len() + i];
        assert_eq!(other.index, x.len() + i);
        assert_eq!(m.role, other.role);
        assert_eq!(m.content, other.content);
        assert_eq!(m.tool_calls.len(), other.tool_calls.len());
        for (a, b) in m.tool_calls.iter().zip(&other.tool_calls) {
            assert_eq!((&a.name, &a.arguments), (&b.name, &b.arguments));
        }
        for (a, b) in m.tool_results.iter().zip(&other.tool_results) {
            assert_eq!((&a.content, a.is_error), (&b.content, b.is_error));
        }
    }
    assert_eq!(both[3].tool_calls[0].id, "claude_call_4_0");
    assert_eq!(y[1].tool_calls[0].id, "claude_call_1_0");
    assert_eq!(both[3].tool_calls[1].id, "given");
}
