use quality_gate::adapter::request::HookRequest;
use quality_gate::adapter::{ClaudeAdapter, CodexAdapter, HookEvent, PiAdapter};
use quality_gate::json::JsonValue;

fn expect_request(result: Result<HookRequest, String>) -> HookRequest {
    match result {
        Ok(request) => request,
        Err(error) => panic!("request refused: {error}"),
    }
}

#[test]
fn claude_payload_becomes_a_request() {
    let payload = r#"{"tool_name":"Bash","tool_input":{"command":"ls","depth":-2.5},"prompt":"second","user_prompt":"first","session_id":"s-1","cwd":"/repo"}"#;
    let request = expect_request(ClaudeAdapter.parse_request(HookEvent::PreToolUse, payload));
    assert_eq!(request.tool_name.as_deref(), Some("Bash"));
    assert_eq!(request.prompt.as_deref(), Some("first"));
    assert_eq!(request.session_id.as_deref(), Some("s-1"));
    assert_eq!(request.cwd.as_deref(), Some("/repo"));
    assert_eq!(request.transcript_path, None);
    let Some(JsonValue::Object(input)) = request.tool_input else {
        panic!("tool input is an object");
    };
    assert!(matches!(&input[0], (name, JsonValue::String(value)) if name == "command" && value == "ls"));
    assert!(matches!(&input[1], (name, JsonValue::Number(None, text)) if name == "depth" && text == "-2.5"));
}

#[test]
fn blank_payload_is_the_empty_object_and_bad_payloads_are_refused() {
    let blank = expect_request(ClaudeAdapter.parse_request(HookEvent::Stop, "  \n"));
    assert_eq!(blank.tool_name, None);
    let broken = ClaudeAdapter.parse_request(HookEvent::Stop, "{");
    assert_eq!(
        broken.err().as_deref(),
        Some("parse stdin (EOF while parsing an object at line 1 column 1)")
    );
    let array = ClaudeAdapter.parse_request(HookEvent::Stop, "[]");
    assert_eq!(array.err().as_deref(), Some("parse stdin (payload is not a JSON object)"));
}

#[test]
fn codex_maps_tool_names_and_checks_the_event() {
    let payload = r#"{"hook_event_name":"PreToolUse","tool_name":"apply_patch","user_prompt":"fallback"}"#;
    let request = expect_request(CodexAdapter.parse_request(HookEvent::PreToolUse, payload));
    assert_eq!(request.tool_name.as_deref(), Some("Edit"));
    assert_eq!(request.prompt.as_deref(), Some("fallback"));
    let refused = CodexAdapter.parse_request(HookEvent::PreToolUse, r#"{"hookEventName":"Stop"}"#);
    assert_eq!(
        refused.err().as_deref(),
        Some("parse stdin (hook event Stop does not match PreToolUse)")
    );
}

#[test]
fn pi_requires_tool_fields_and_matching_type() {
    let payload = r#"{"type":"tool_call","toolName":"bash","input":{"command":"ls"},"sessionId":"s-1","cwd":"/repo","transcriptPath":"/t.jsonl"}"#;
    let request = expect_request(PiAdapter.parse_request(HookEvent::PreToolUse, payload));
    assert_eq!(request.tool_name.as_deref(), Some("Bash"));
    assert_eq!(request.transcript_path.as_deref(), Some("/t.jsonl"));
    assert_eq!(
        PiAdapter
            .parse_request(HookEvent::PreToolUse, r#"{"type":"tool_call","toolName":"bash"}"#)
            .err()
            .as_deref(),
        Some("parse stdin (Pi toolName, object input, cwd, and session id are required)")
    );
    assert_eq!(
        PiAdapter.parse_request(HookEvent::PreToolUse, r#"{"toolName":"bash"}"#).err().as_deref(),
        Some("parse stdin (type is missing or not a string)")
    );
    let huge = "x".repeat(1_048_577);
    assert_eq!(
        PiAdapter.parse_request(HookEvent::Stop, &huge).err().as_deref(),
        Some("parse stdin (payload exceeds 1048576 bytes)")
    );
}

#[test]
fn pi_blank_tool_event_is_the_empty_request() {
    for event in [HookEvent::PreToolUse, HookEvent::PostToolUse] {
        let request = expect_request(PiAdapter.parse_request(event, ""));
        assert_eq!(request.event, event);
        assert_eq!(request.tool_name, None);
        assert!(request.tool_input.is_none());
        assert_eq!(request.prompt, None);
        assert_eq!(request.session_id, None);
        assert_eq!(request.cwd, None);
        assert_eq!(request.transcript_path, None);
        assert_eq!(request.source, None);
    }
}

#[test]
fn payload_given_with_its_parse_reads_the_same() {
    let parsed = Ok(JsonValue::Object(vec![(
        "tool_name".to_string(),
        JsonValue::String("Read".to_string()),
    )]));
    let request = expect_request(ClaudeAdapter.request_from_payload(HookEvent::PreToolUse, "{...}", parsed));
    assert_eq!(request.tool_name.as_deref(), Some("Read"));
    let refused = ClaudeAdapter.request_from_payload(HookEvent::Stop, "{", Err("EOF".to_string()));
    assert_eq!(refused.err().as_deref(), Some("parse stdin (EOF)"));
}

#[test]
fn codex_blank_payload_is_the_empty_request() {
    let request = expect_request(CodexAdapter.parse_request(HookEvent::Stop, "\t\n"));
    assert_eq!(request.event, HookEvent::Stop);
    assert_eq!(request.tool_name, None);
    assert!(request.tool_input.is_none());
}
