use quality_gate::adapter::claude::ClaudeAdapter;
use quality_gate::adapter::codex::CodexAdapter;
use quality_gate::adapter::pi::{PiAdapter, MAX_INPUT_BYTES};
use quality_gate::adapter::HookEvent;
use quality_gate::json::JsonValue;
use serde_json::Value;

fn to_serde(value: &JsonValue) -> Value {
    match value {
        JsonValue::Null => Value::Null,
        JsonValue::Bool(b) => Value::Bool(*b),
        JsonValue::Number(_, text) => serde_json::from_str(text).expect("number text"),
        JsonValue::String(s) => Value::String(s.clone()),
        JsonValue::Array(items) => Value::Array(items.iter().map(to_serde).collect()),
        JsonValue::Object(members) => {
            Value::Object(members.iter().map(|(k, v)| (k.clone(), to_serde(v))).collect())
        }
    }
}

fn value(text: &str) -> Value {
    serde_json::from_str(text).expect("test JSON parses")
}

fn input(value: &Option<JsonValue>) -> Option<Value> {
    value.as_ref().map(to_serde)
}

const CODEX_PRE_TOOL_USE: &str = r#"{"session_id":"session-123","transcript_path":"/tmp/codex.jsonl","cwd":"/workspace/repo","hook_event_name":"PreToolUse","tool_name":"apply_patch","tool_input":{"patch":"*** Begin Patch"}}"#;

#[test]
fn parses_codex_pre_tool_use_fixture_and_normalizes_edit_tool() {
    let request = CodexAdapter
        .parse_request(HookEvent::PreToolUse, CODEX_PRE_TOOL_USE)
        .expect("Codex fixture parses");
    assert_eq!(request.event, HookEvent::PreToolUse);
    assert_eq!(request.tool_name.as_deref(), Some("Edit"));
    assert_eq!(request.session_id.as_deref(), Some("session-123"));
    assert_eq!(request.cwd.as_deref(), Some("/workspace/repo"));
    assert_eq!(request.transcript_path.as_deref(), Some("/tmp/codex.jsonl"));
    assert_eq!(input(&request.tool_input), Some(value(r#"{"patch": "*** Begin Patch"}"#)));
}

#[test]
fn normalizes_codex_command_tool_names() {
    for (codex_name, expected) in [
        ("apply_patch", "Edit"),
        ("Edit", "Edit"),
        ("Write", "Write"),
        ("exec_command", "Bash"),
        ("unified_exec", "Bash"),
        ("Bash", "Bash"),
    ] {
        let payload = format!("{{\"hookEventName\":\"PostToolUse\",\"tool_name\":\"{codex_name}\"}}");
        let request = CodexAdapter
            .parse_request(HookEvent::PostToolUse, &payload)
            .expect("tool payload parses");
        assert_eq!(request.tool_name.as_deref(), Some(expected));
    }
}

#[test]
fn rejects_malformed_non_object_and_mismatched_event_payloads() {
    for payload in ["{ not json", "null", "[]", "\"text\""] {
        let error = CodexAdapter
            .parse_request(HookEvent::Stop, payload)
            .expect_err("malformed payload must fail");
        assert!(error.contains("parse stdin"));
    }
    let error = CodexAdapter
        .parse_request(HookEvent::Stop, r#"{"hookEventName":"PreToolUse"}"#)
        .expect_err("mismatched event must fail");
    assert!(error.contains("does not match Stop"));
}

#[test]
fn parses_verified_tool_fields_and_preserves_input() {
    let request = PiAdapter
        .parse_request(
            HookEvent::PreToolUse,
            r#"{"type":"tool_call","toolName":"read","input":{"path":"src/lib.rs"},"cwd":"/repo","sessionId":"session-1"}"#,
        )
        .expect("Pi tool call parses");
    assert_eq!(request.tool_name.as_deref(), Some("Read"));
    assert_eq!(input(&request.tool_input), Some(value(r#"{"path": "src/lib.rs"}"#)));
    assert_eq!(request.cwd.as_deref(), Some("/repo"));
    assert_eq!(request.session_id.as_deref(), Some("session-1"));
}

#[test]
fn preserves_unknown_tool_names_for_provenance_rejection() {
    let request = PiAdapter
        .parse_request(
            HookEvent::PreToolUse,
            r#"{"type":"tool_call","toolName":"custom","input":{},"cwd":"/repo","sessionId":"session-1"}"#,
        )
        .expect("unknown names remain parseable");
    assert_eq!(request.tool_name.as_deref(), Some("custom"));
}

#[test]
fn rejects_malformed_non_object_oversized_and_mismatched_payloads() {
    for payload in ["{ not json", "null", "[]", "\"text\""] {
        assert!(PiAdapter.parse_request(HookEvent::PreToolUse, payload).is_err());
    }
    assert!(PiAdapter.parse_request(HookEvent::PreToolUse, r#"{"type":"tool_result"}"#).is_err());
    assert!(PiAdapter
        .parse_request(HookEvent::PreToolUse, &"x".repeat(MAX_INPUT_BYTES + 1))
        .is_err());
}

#[test]
fn parse_request_reads_neutral_fields_from_claude_json() {
    let stdin = r#"{"session_id":"abc","cwd":"/repo","tool_name":"Edit","tool_input":{"file_path":"src/x.py"},"transcript_path":"/t.jsonl","source":"startup"}"#;
    let request = ClaudeAdapter.parse_request(HookEvent::PreToolUse, stdin).expect("parses");
    assert_eq!(request.event, HookEvent::PreToolUse);
    assert_eq!(request.tool_name.as_deref(), Some("Edit"));
    assert_eq!(request.session_id.as_deref(), Some("abc"));
    assert_eq!(request.cwd.as_deref(), Some("/repo"));
    assert_eq!(request.transcript_path.as_deref(), Some("/t.jsonl"));
    assert_eq!(request.source.as_deref(), Some("startup"));
    assert_eq!(input(&request.tool_input), Some(value(r#"{ "file_path": "src/x.py" }"#)));
}

#[test]
fn parse_request_prefers_user_prompt_then_prompt() {
    let with_user_prompt = r#"{ "user_prompt": "a", "prompt": "b" }"#;
    let request = ClaudeAdapter
        .parse_request(HookEvent::UserPromptSubmit, with_user_prompt)
        .expect("parses");
    assert_eq!(request.prompt.as_deref(), Some("a"));

    let with_prompt_only = r#"{ "prompt": "b" }"#;
    let request = ClaudeAdapter
        .parse_request(HookEvent::UserPromptSubmit, with_prompt_only)
        .expect("parses");
    assert_eq!(request.prompt.as_deref(), Some("b"));
}

#[test]
fn parse_request_accepts_blank_stdin_as_empty() {
    let request = ClaudeAdapter.parse_request(HookEvent::SessionStart, "   ").expect("blank parses");
    assert_eq!(request.event, HookEvent::SessionStart);
    assert_eq!(request.tool_name, None);
    assert_eq!(request.prompt, None);
}

#[test]
fn parse_request_rejects_malformed_stdin() {
    let error = ClaudeAdapter
        .parse_request(HookEvent::Stop, "{ not json")
        .expect_err("malformed stdin is an error");
    assert!(error.contains("parse stdin"));
}

#[test]
fn parse_request_rejects_non_object_payloads() {
    for payload in ["null", "[1, 2]", "\"text\"", "42", "true"] {
        let error = ClaudeAdapter
            .parse_request(HookEvent::PreToolUse, payload)
            .expect_err("a non-object payload is an error");
        assert!(
            error.contains("parse stdin"),
            "non-object payload {payload:?} must be rejected: {error}"
        );
    }
}
