use quality_gate::adapter::claude::ClaudeAdapter;
use quality_gate::adapter::codex::{self, CodexAdapter};
use quality_gate::adapter::pi::PiAdapter;
use quality_gate::adapter::{emit, EncodedResponse, HookEvent, HookResponse, OutputStream};

fn body_json(encoded: &EncodedResponse) -> serde_json::Value {
    serde_json::from_str(&encoded.body).expect("encoded body is JSON")
}

fn parsed(text: &str) -> serde_json::Value {
    serde_json::from_str(text).expect("expected JSON")
}

fn codex_exact(event: HookEvent, response: HookResponse, expected: &str) {
    let encoded = CodexAdapter
        .encode_response(event, response)
        .expect("response is event-valid");
    assert_eq!(encoded.body, expected);
    assert_eq!(encoded.stream, OutputStream::Stdout);
    assert_eq!(encoded.exit_code, 0);
}

fn pi_exact(event: HookEvent, response: HookResponse, expected: &str) {
    let encoded = PiAdapter
        .encode_response(event, response)
        .expect("response is event-valid");
    assert_eq!(encoded.body, expected);
    assert_eq!(encoded.stream, OutputStream::Stdout);
    assert_eq!(encoded.exit_code, 0);
}

#[test]
fn deny_uses_codex_pre_tool_use_json() {
    codex_exact(
        HookEvent::PreToolUse,
        HookResponse::Deny {
            reason: "target escapes repository".to_string(),
        },
        r#"{"hookSpecificOutput":{"hookEventName":"PreToolUse","permissionDecision":"deny","permissionDecisionReason":"target escapes repository"}}"#,
    );
}

#[test]
fn block_stop_uses_stdout_exit_zero_for_stop_and_post_tool_use() {
    for event in [HookEvent::Stop, HookEvent::PostToolUse] {
        codex_exact(
            event,
            HookResponse::BlockStop {
                reason: "unresolved MUST violation".to_string(),
            },
            r#"{"decision":"block","reason":"unresolved MUST violation"}"#,
        );
    }
}

#[test]
fn inject_context_uses_event_specific_additional_context() {
    for (event, name) in [
        (HookEvent::SessionStart, "SessionStart"),
        (HookEvent::UserPromptSubmit, "UserPromptSubmit"),
        (HookEvent::PostToolUse, "PostToolUse"),
    ] {
        let expected = format!(
            "{{\"hookSpecificOutput\":{{\"additionalContext\":\"packet\",\"hookEventName\":\"{name}\"}}}}"
        );
        let encoded = CodexAdapter
            .encode_response(event, HookResponse::InjectContext("packet".to_string()))
            .expect("context is event-valid");
        assert_eq!(encoded.body, expected);
        assert_eq!(encoded.stream, OutputStream::Stdout);
        assert_eq!(encoded.exit_code, 0);
    }
    codex_exact(
        HookEvent::PreToolUse,
        HookResponse::InjectContext("packet".to_string()),
        r#"{"systemMessage":"packet"}"#,
    );
}

#[test]
fn allow_is_silent_for_every_event() {
    for event in [
        HookEvent::SessionStart,
        HookEvent::UserPromptSubmit,
        HookEvent::PreToolUse,
        HookEvent::PostToolUse,
        HookEvent::Stop,
    ] {
        let encoded = CodexAdapter
            .encode_response(event, HookResponse::Allow)
            .expect("allow is event-valid");
        assert_eq!(encoded.body, "");
        assert_eq!(encoded.stream, OutputStream::Stdout);
        assert_eq!(encoded.exit_code, 0);
    }
}

#[test]
fn unsupported_response_pairs_are_rejected() {
    let invalid = [
        (HookEvent::Stop, HookResponse::Deny { reason: "reason".to_string() }),
        (HookEvent::SessionStart, HookResponse::BlockStop { reason: "reason".to_string() }),
        (HookEvent::PreToolUse, HookResponse::BlockStop { reason: "reason".to_string() }),
        (HookEvent::Stop, HookResponse::InjectContext("context".to_string())),
    ];
    for (event, response) in invalid {
        let error = CodexAdapter
            .encode_response(event, response)
            .expect_err("unsupported response pair must be rejected");
        assert!(error.contains("encode response"));
    }
}

#[test]
fn codex_tool_names_are_normalized() {
    for (codex_name, expected) in [
        ("apply_patch", "Edit"),
        ("Edit", "Edit"),
        ("Write", "Write"),
        ("exec_command", "Bash"),
        ("unified_exec", "Bash"),
        ("Bash", "Bash"),
        ("custom", "custom"),
    ] {
        assert_eq!(codex::canonical_tool_name(codex_name.to_string()), expected);
    }
}

#[test]
fn encodes_pi_allow_and_tool_denial() {
    pi_exact(HookEvent::PreToolUse, HookResponse::Allow, "");
    pi_exact(
        HookEvent::PreToolUse,
        HookResponse::Deny {
            reason: "blocked by policy".to_string(),
        },
        r#"{"block":true,"reason":"blocked by policy"}"#,
    );
}

#[test]
fn encodes_before_agent_start_message_and_system_prompt() {
    pi_exact(
        HookEvent::BeforeAgentStart,
        HookResponse::InjectMessage("context".to_string()),
        r#"{"message":{"content":"context","customType":"quality_gate","display":false}}"#,
    );
    pi_exact(
        HookEvent::BeforeAgentStart,
        HookResponse::InjectSystemPrompt("system".to_string()),
        r#"{"systemPrompt":"system"}"#,
    );
}

#[test]
fn encodes_only_tool_result_content_feedback() {
    pi_exact(
        HookEvent::PostToolUse,
        HookResponse::PostToolFeedback {
            reason: "review this result".to_string(),
        },
        r#"{"content":[{"text":"review this result","type":"text"}]}"#,
    );
}

#[test]
fn rejects_unsupported_response_pairs_and_preserves_tool_result_fields() {
    assert!(PiAdapter
        .encode_response(HookEvent::Stop, HookResponse::Deny { reason: "no".to_string() })
        .is_err());
    let encoded = PiAdapter
        .encode_response(
            HookEvent::PostToolUse,
            HookResponse::PostToolFeedback {
                reason: "addition".to_string(),
            },
        )
        .expect("tool result feedback is supported");
    assert!(!encoded.body.contains("details"));
    assert!(!encoded.body.contains("isError"));
    assert!(!encoded.body.contains("usage"));
}

#[test]
fn allow_encodes_to_a_silent_stdout_success() {
    let encoded = ClaudeAdapter
        .encode_response(HookEvent::PreToolUse, HookResponse::Allow)
        .expect("allow is valid for any event");
    assert_eq!(
        encoded,
        EncodedResponse {
            body: String::new(),
            stream: OutputStream::Stdout,
            exit_code: 0,
        }
    );
}

#[test]
fn inject_context_uses_the_event_specific_envelope() {
    for (event, name) in [
        (HookEvent::SessionStart, "SessionStart"),
        (HookEvent::UserPromptSubmit, "UserPromptSubmit"),
    ] {
        let encoded = ClaudeAdapter
            .encode_response(event, HookResponse::InjectContext("packet".to_string()))
            .expect("inject context is valid for this event");
        assert_eq!(encoded.stream, OutputStream::Stdout);
        assert_eq!(encoded.exit_code, 0);
        assert_eq!(
            body_json(&encoded),
            parsed(&format!(
                "{{\"hookSpecificOutput\":{{\"hookEventName\":\"{name}\",\"additionalContext\":\"packet\"}}}}"
            ))
        );
    }
}

#[test]
fn deny_encodes_the_pre_tool_use_permission_envelope() {
    let encoded = ClaudeAdapter
        .encode_response(
            HookEvent::PreToolUse,
            HookResponse::Deny {
                reason: "target escapes repository".to_string(),
            },
        )
        .expect("deny is valid for PreToolUse");
    assert_eq!(encoded.stream, OutputStream::Stdout);
    assert_eq!(encoded.exit_code, 0);
    assert_eq!(
        body_json(&encoded),
        parsed(r#"{"hookSpecificOutput":{"hookEventName":"PreToolUse","permissionDecision":"deny","permissionDecisionReason":"target escapes repository"},"systemMessage":"target escapes repository"}"#)
    );
}

#[test]
fn post_tool_use_block_writes_decision_to_stdout_exit_zero() {
    let encoded = ClaudeAdapter
        .encode_response(HookEvent::PostToolUse, HookResponse::BlockStop { reason: "boom".to_string() })
        .expect("block is valid for PostToolUse");
    assert_eq!(encoded.stream, OutputStream::Stdout);
    assert_eq!(encoded.exit_code, 0);
    assert_eq!(body_json(&encoded), parsed(r#"{"decision":"block","reason":"boom"}"#));
}

#[test]
fn stop_block_writes_decision_to_stderr_exit_two() {
    let encoded = ClaudeAdapter
        .encode_response(HookEvent::Stop, HookResponse::BlockStop { reason: "unresolved".to_string() })
        .expect("block is valid for Stop");
    assert_eq!(encoded.stream, OutputStream::Stderr);
    assert_eq!(encoded.exit_code, 2);
    assert_eq!(body_json(&encoded), parsed(r#"{"decision":"block","reason":"unresolved"}"#));
}

#[test]
fn encode_response_rejects_event_invalid_pairs() {
    let invalid = [
        (HookEvent::Stop, HookResponse::Deny { reason: "r".to_string() }),
        (HookEvent::SessionStart, HookResponse::BlockStop { reason: "r".to_string() }),
        (HookEvent::PreToolUse, HookResponse::InjectContext("c".to_string())),
        (HookEvent::UserPromptSubmit, HookResponse::Deny { reason: "r".to_string() }),
    ];
    for (event, response) in invalid {
        let error = ClaudeAdapter
            .encode_response(event, response)
            .expect_err("an event-invalid pair must not encode");
        assert!(error.contains("encode response"), "invalid pair must report an encode error: {error}");
    }
}

#[test]
fn encode_response_allows_any_event() {
    for event in [
        HookEvent::SessionStart,
        HookEvent::UserPromptSubmit,
        HookEvent::PreToolUse,
        HookEvent::PostToolUse,
        HookEvent::Stop,
    ] {
        let encoded = ClaudeAdapter
            .encode_response(event, HookResponse::Allow)
            .expect("allow is valid for every event");
        assert_eq!(encoded.body, String::new());
    }
}

#[test]
fn emit_writes_a_stdout_response_to_the_stdout_writer_only() {
    let encoded = EncodedResponse {
        body: "{\"decision\":\"block\"}".to_string(),
        stream: OutputStream::Stdout,
        exit_code: 0,
    };
    let mut stdout = Vec::new();
    let mut stderr = Vec::new();
    emit(&mut stdout, &mut stderr, &encoded).expect("emit succeeds");
    assert_eq!(stdout, b"{\"decision\":\"block\"}\n");
    assert!(stderr.is_empty(), "stdout response must not touch stderr");
}

#[test]
fn emit_writes_a_stderr_response_to_the_injected_stderr_writer() {
    let encoded = ClaudeAdapter
        .encode_response(HookEvent::Stop, HookResponse::BlockStop { reason: "unresolved".to_string() })
        .expect("block is valid for Stop");
    assert_eq!(encoded.stream, OutputStream::Stderr);
    let mut stdout = Vec::new();
    let mut stderr = Vec::new();
    emit(&mut stdout, &mut stderr, &encoded).expect("emit succeeds");
    assert!(stdout.is_empty(), "stderr response must not touch stdout");
    assert_eq!(stderr, format!("{}\n", encoded.body).into_bytes());
}

#[test]
fn emit_writes_nothing_for_an_empty_body() {
    let encoded = EncodedResponse {
        body: String::new(),
        stream: OutputStream::Stdout,
        exit_code: 0,
    };
    let mut stdout = Vec::new();
    let mut stderr = Vec::new();
    emit(&mut stdout, &mut stderr, &encoded).expect("emit succeeds");
    assert!(stdout.is_empty() && stderr.is_empty());
}

#[test]
fn quoted_reasons_escape_json_specials() {
    let encoded = CodexAdapter
        .encode_response(HookEvent::Stop, HookResponse::BlockStop { reason: "a \"b\"\nc".to_string() })
        .expect("block is valid for Stop");
    assert_eq!(encoded.body, r#"{"decision":"block","reason":"a \"b\"\nc"}"#);
}

#[test]
fn preserves_claude_decision_contract() {
    assert_eq!(
        quality_gate::adapter::pre_tool_deny("reason"),
        r#"{"hookSpecificOutput":{"hookEventName":"PreToolUse","permissionDecision":"deny","permissionDecisionReason":"reason"},"systemMessage":"reason"}"#
    );
    assert_eq!(quality_gate::adapter::block("reason"), r#"{"decision":"block","reason":"reason"}"#);
}

#[test]
fn prompt_context_names_the_intent_before_the_packet() {
    let body = quality_gate::adapter::user_prompt_context("bugfix", "MUST\n- test");
    let value: serde_json::Value = serde_json::from_str(&body).expect("context body is JSON");
    assert_eq!(value["hookSpecificOutput"]["hookEventName"], "UserPromptSubmit");
    assert_eq!(
        value["hookSpecificOutput"]["additionalContext"],
        "Detected task intent: bugfix.\n\nMUST\n- test"
    );
}

#[test]
fn json_strings_escape_quotes_backslashes_and_control_characters() {
    let quoted = quality_gate::adapter::quote_json("a\"b\\c\n\t\u{1}\u{1f}é/");
    assert_eq!(quoted, "\"a\\\"b\\\\c\\n\\t\\u0001\\u001fé/\"");
    assert_eq!(serde_json::from_str::<String>(&quoted).expect("valid JSON"), "a\"b\\c\n\t\u{1}\u{1f}é/");
}
