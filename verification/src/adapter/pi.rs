//! The Pi extension-event encoding.

use vstd::prelude::*;

use super::codex::same;
use super::{
    frame, invalid_combination, invalid_message, is_silent, is_stdout_line, json_quoted,
    response_name, response_name_exec, silent, stdout_line, EncodedResponse, HookEvent,
    HookResponse,
};
use super::request::{
    either, either_field, is_blank, opt_text, payload_object, payload_object_exec, string_field,
    string_member, take_member, HookRequest,
};
use crate::json::{json_parsed, member, parse_json, parsed_view, JsonValue};
use crate::text::{byte_len, trim};

verus! {

/// Payloads larger than this are refused before parsing.
pub const MAX_INPUT_BYTES: usize = 1048576;

/// Adapter for the Pi extension event contracts.
#[derive(Debug, Clone, Copy, Default)]
pub struct PiAdapter;

/// The Pi event name of a lifecycle event.
pub open spec fn pi_event_name(event: HookEvent) -> Seq<char> {
    match event {
        HookEvent::SessionStart => "session_start"@,
        HookEvent::UserPromptSubmit => "user_prompt_submit"@,
        HookEvent::BeforeAgentStart => "before_agent_start"@,
        HookEvent::PreToolUse => "tool_call"@,
        HookEvent::PostToolUse => "tool_result"@,
        HookEvent::Stop => "agent_end or agent_settled"@,
        HookEvent::PermissionRequest => "permission_request"@,
        HookEvent::SubagentStart => "subagent_start"@,
        HookEvent::SubagentStop => "subagent_stop"@,
    }
}

pub fn event_name(event: HookEvent) -> (r: &'static str)
    ensures
        r@ == pi_event_name(event),
{
    match event {
        HookEvent::SessionStart => "session_start",
        HookEvent::UserPromptSubmit => "user_prompt_submit",
        HookEvent::BeforeAgentStart => "before_agent_start",
        HookEvent::PreToolUse => "tool_call",
        HookEvent::PostToolUse => "tool_result",
        HookEvent::Stop => "agent_end or agent_settled",
        HookEvent::PermissionRequest => "permission_request",
        HookEvent::SubagentStart => "subagent_start",
        HookEvent::SubagentStop => "subagent_stop",
    }
}

/// The payload `type` values accepted for an event.
pub open spec fn pi_event_types(event: HookEvent) -> Seq<Seq<char>> {
    match event {
        HookEvent::SessionStart => seq!["session_start"@],
        HookEvent::BeforeAgentStart => seq!["before_agent_start"@],
        HookEvent::PreToolUse => seq!["tool_call"@],
        HookEvent::PostToolUse => seq!["tool_result"@],
        HookEvent::Stop => seq!["agent_end"@, "agent_settled"@],
        _ => seq![],
    }
}

/// Whether a payload `type` belongs to an event.
pub fn event_type_matches(event: HookEvent, payload_type: &str) -> (r: bool)
    ensures
        r == pi_event_types(event).contains(payload_type@),
{
    let r = match event {
        HookEvent::SessionStart => same(payload_type, "session_start"),
        HookEvent::BeforeAgentStart => same(payload_type, "before_agent_start"),
        HookEvent::PreToolUse => same(payload_type, "tool_call"),
        HookEvent::PostToolUse => same(payload_type, "tool_result"),
        HookEvent::Stop => same(payload_type, "agent_end") || same(payload_type, "agent_settled"),
        _ => false,
    };
    proof {
        let types = pi_event_types(event);
        if r {
            assert(types[types.len() - 1] == payload_type@ || types[0] == payload_type@);
        }
    }
    r
}

/// Pi's lowercase built-in tool names mapped onto the neutral vocabulary.
pub open spec fn pi_tool_name(name: Seq<char>) -> Seq<char> {
    if name == "bash"@ {
        "Bash"@
    } else if name == "read"@ {
        "Read"@
    } else if name == "edit"@ {
        "Edit"@
    } else if name == "write"@ {
        "Write"@
    } else {
        name
    }
}

pub fn canonical_tool_name(name: String) -> (r: String)
    ensures
        r@ == pi_tool_name(name@),
{
    let n = name.as_str();
    if same(n, "bash") {
        String::from_str("Bash")
    } else if same(n, "read") {
        String::from_str("Read")
    } else if same(n, "edit") {
        String::from_str("Edit")
    } else if same(n, "write") {
        String::from_str("Write")
    } else {
        name
    }
}

/// `{"block":true,"reason":…}`.
pub open spec fn pi_deny_body(reason: Seq<char>) -> Seq<char> {
    "{\"block\":true,\"reason\":"@ + json_quoted(reason) + "}"@
}

/// A hidden custom message.
pub open spec fn pi_message_body(content: Seq<char>) -> Seq<char> {
    "{\"message\":{\"content\":"@ + json_quoted(content) + ",\"customType\":\"quality_gate\",\"display\":false}}"@
}

/// `{"systemPrompt":…}`.
pub open spec fn pi_system_prompt_body(prompt: Seq<char>) -> Seq<char> {
    "{\"systemPrompt\":"@ + json_quoted(prompt) + "}"@
}

/// Text content attached to a tool result.
pub open spec fn pi_feedback_body(reason: Seq<char>) -> Seq<char> {
    "{\"content\":[{\"text\":"@ + json_quoted(reason) + ",\"type\":\"text\"}]}"@
}

/// The complete Pi contract: allow is silent; a deny belongs to tool calls;
/// a message or system prompt to agent start; feedback to tool results.
/// Context injection, stop blocks and summaries are never encoded.
pub open spec fn pi_encodes(event: HookEvent, response: HookResponse, r: Result<
    EncodedResponse,
    String,
>) -> bool {
    let refused = r matches Err(m) && m@ == invalid_message(
        response_name(response),
        pi_event_name(event),
    );
    match response {
        HookResponse::Allow => r matches Ok(e) && is_silent(e),
        HookResponse::Deny { reason } => if event == HookEvent::PreToolUse {
            r matches Ok(e) && is_stdout_line(e, pi_deny_body(reason@))
        } else {
            refused
        },
        HookResponse::InjectMessage(content) => if event == HookEvent::BeforeAgentStart {
            r matches Ok(e) && is_stdout_line(e, pi_message_body(content@))
        } else {
            refused
        },
        HookResponse::InjectSystemPrompt(prompt) => if event == HookEvent::BeforeAgentStart {
            r matches Ok(e) && is_stdout_line(e, pi_system_prompt_body(prompt@))
        } else {
            refused
        },
        HookResponse::PostToolFeedback { reason } => if event == HookEvent::PostToolUse {
            r matches Ok(e) && is_stdout_line(e, pi_feedback_body(reason@))
        } else {
            refused
        },
        _ => refused,
    }
}

/// Why a Pi payload is refused before it becomes a request, if it is: the
/// payload is too large; or it is not blank and lacks a string `type`,
/// names another event, or, for a tool event, lacks a tool name, an object
/// input, a session id or a working directory. Blank input is the empty
/// request.
pub open spec fn pi_payload_refusal(
    event: HookEvent,
    payload_bytes: nat,
    blank: bool,
    payload_type: Option<Seq<char>>,
    has_tool_name: bool,
    input_is_object: bool,
    session_id: Option<Seq<char>>,
    cwd: Option<Seq<char>>,
) -> Option<Seq<char>> {
    if payload_bytes > MAX_INPUT_BYTES {
        Some("parse stdin (payload exceeds 1048576 bytes)"@)
    } else if !blank && payload_type is None {
        Some("parse stdin (type is missing or not a string)"@)
    } else if !blank && !pi_event_types(event).contains(payload_type.unwrap()) {
        Some("parse stdin (event type does not match "@ + pi_event_name(event) + ")"@)
    } else if !blank && (event == HookEvent::PreToolUse || event == HookEvent::PostToolUse) && (
    !has_tool_name || !input_is_object || session_id is None || session_id.unwrap().len() == 0
        || cwd is None || cwd.unwrap().len() == 0) {
        Some("parse stdin (Pi toolName, object input, cwd, and session id are required)"@)
    } else {
        None
    }
}

/// The object a Pi payload holds once it is admitted: the size limit comes
/// first, then the object itself, then the event and tool-field checks.
pub open spec fn pi_admitted(event: HookEvent, stdin: Seq<char>, parsed: Result<JsonValue, Seq<char>>) -> Result<
    Seq<(String, JsonValue)>,
    Seq<char>,
> {
    if byte_len(stdin) > MAX_INPUT_BYTES {
        Err("parse stdin (payload exceeds 1048576 bytes)"@)
    } else {
        match payload_object(stdin, parsed) {
            Err(e) => Err(e),
            Ok(o) => match pi_payload_refusal(
                event,
                byte_len(stdin),
                trim(stdin).len() == 0,
                string_member(o, "type"@),
                string_member(o, "toolName"@) is Some,
                member(o, "input"@) matches Some(JsonValue::Object(_)),
                either(string_member(o, "sessionId"@), string_member(o, "session_id"@)),
                string_member(o, "cwd"@),
            ) {
                Some(m) => Err(m),
                None => Ok(o),
            },
        }
    }
}

/// The request an admitted payload object makes: Pi's tool names mapped
/// onto the neutral vocabulary, the camel-case spelling of a field read
/// before the snake-case one, and the tool input moved as it was.
pub open spec fn pi_request(event: HookEvent, o: Seq<(String, JsonValue)>, q: HookRequest) -> bool {
    &&& q.event == event
    &&& opt_text(q.tool_name) == match string_member(o, "toolName"@) {
        Some(n) => Some(pi_tool_name(n)),
        None => None,
    }
    &&& q.tool_input == member(o, "input"@)
    &&& opt_text(q.prompt) == string_member(o, "prompt"@)
    &&& opt_text(q.session_id) == either(string_member(o, "sessionId"@), string_member(o, "session_id"@))
    &&& opt_text(q.cwd) == string_member(o, "cwd"@)
    &&& opt_text(q.transcript_path) == either(
        string_member(o, "transcriptPath"@),
        string_member(o, "transcript_path"@),
    )
    &&& opt_text(q.source) == string_member(o, "source"@)
}

/// What reading a payload gives, where `parsed` is the parse of its text.
pub open spec fn pi_reads(
    event: HookEvent,
    stdin: Seq<char>,
    parsed: Result<JsonValue, Seq<char>>,
    r: Result<HookRequest, String>,
) -> bool {
    match pi_admitted(event, stdin, parsed) {
        Err(e) => r matches Err(m) && m@ == e,
        Ok(o) => r matches Ok(q) && pi_request(event, o, q),
    }
}

impl PiAdapter {
    /// Parses a payload text with `serde_json` (text over the limit or blank
    /// is not parsed) and reads it into a request.
    pub fn parse_request(&self, event: HookEvent, stdin_json: &str) -> (r: Result<HookRequest, String>)
        ensures
            pi_reads(event, stdin_json@, json_parsed(stdin_json@), r),
    {
        let parsed = if stdin_json.len() > MAX_INPUT_BYTES || is_blank(stdin_json) {
            Ok(JsonValue::Null)
        } else {
            parse_json(stdin_json)
        };
        self.request_from_payload(event, stdin_json, parsed)
    }

    /// Reads a payload into a request, given what the JSON parser made of its
    /// text (consulted only when the text is neither blank nor over the limit).
    pub fn request_from_payload(&self, event: HookEvent, stdin_json: &str, parsed: Result<JsonValue, String>) -> (r:
        Result<HookRequest, String>)
        ensures
            pi_reads(event, stdin_json@, parsed_view(parsed), r),
    {
        if stdin_json.len() > MAX_INPUT_BYTES {
            return Err(String::from_str("parse stdin (payload exceeds 1048576 bytes)"));
        }
        let blank = is_blank(stdin_json);
        let mut o = match payload_object_exec(stdin_json, parsed) {
            Ok(o) => o,
            Err(e) => return Err(e),
        };
        let payload_type = string_field(&o, "type");
        let tool_name = match string_field(&o, "toolName") {
            Some(n) => Some(canonical_tool_name(n)),
            None => None,
        };
        let input_is_object = match crate::json::get(&o, "input") {
            Some(JsonValue::Object(_)) => true,
            _ => false,
        };
        let session_id = either_field(&o, "sessionId", "session_id");
        let cwd = string_field(&o, "cwd");
        let refusal = self.payload_refusal(
            event,
            stdin_json.len(),
            blank,
            match &payload_type {
                Some(t) => Some(t.as_str()),
                None => None,
            },
            tool_name.is_some(),
            input_is_object,
            match &session_id {
                Some(t) => Some(t.as_str()),
                None => None,
            },
            match &cwd {
                Some(t) => Some(t.as_str()),
                None => None,
            },
        );
        if let Some(m) = refusal {
            return Err(m);
        }
        let prompt = string_field(&o, "prompt");
        let transcript_path = either_field(&o, "transcriptPath", "transcript_path");
        let source = string_field(&o, "source");
        let tool_input = take_member(&mut o, "input");
        Ok(HookRequest { event, tool_name, tool_input, prompt, session_id, cwd, transcript_path, source })
    }

    /// Checks the fields of a parsed Pi payload; `None` means the payload may
    /// become a request.
    pub fn payload_refusal(
        &self,
        event: HookEvent,
        payload_bytes: usize,
        blank: bool,
        payload_type: Option<&str>,
        has_tool_name: bool,
        input_is_object: bool,
        session_id: Option<&str>,
        cwd: Option<&str>,
    ) -> (r: Option<String>)
        ensures
            r matches Some(m) ==> pi_payload_refusal(
                event,
                payload_bytes as nat,
                blank,
                match payload_type {
                    Some(t) => Some(t@),
                    None => None,
                },
                has_tool_name,
                input_is_object,
                match session_id {
                    Some(t) => Some(t@),
                    None => None,
                },
                match cwd {
                    Some(t) => Some(t@),
                    None => None,
                },
            ) == Some(m@),
            r is None ==> pi_payload_refusal(
                event,
                payload_bytes as nat,
                blank,
                match payload_type {
                    Some(t) => Some(t@),
                    None => None,
                },
                has_tool_name,
                input_is_object,
                match session_id {
                    Some(t) => Some(t@),
                    None => None,
                },
                match cwd {
                    Some(t) => Some(t@),
                    None => None,
                },
            ) is None,
    {
        if payload_bytes > MAX_INPUT_BYTES {
            return Some(String::from_str("parse stdin (payload exceeds 1048576 bytes)"));
        }
        if !blank {
            match payload_type {
                None => {
                    return Some(String::from_str("parse stdin (type is missing or not a string)"));
                },
                Some(t) => {
                    if !event_type_matches(event, t) {
                        let mut m = String::from_str("parse stdin (event type does not match ");
                        m.append(event_name(event));
                        m.append(")");
                        return Some(m);
                    }
                },
            }
        }
        let tool_event = match event {
            HookEvent::PreToolUse | HookEvent::PostToolUse => true,
            _ => false,
        };
        let missing_session = match session_id {
            None => true,
            Some(s) => s.is_empty(),
        };
        let missing_cwd = match cwd {
            None => true,
            Some(s) => s.is_empty(),
        };
        if !blank && tool_event && (!has_tool_name || !input_is_object || missing_session || missing_cwd) {
            return Some(
                String::from_str(
                    "parse stdin (Pi toolName, object input, cwd, and session id are required)",
                ),
            );
        }
        None
    }

    /// Encodes a normalized response into Pi's exact bytes and exit code.
    pub fn encode_response(&self, event: HookEvent, response: HookResponse) -> (r: Result<
        EncodedResponse,
        String,
    >)
        ensures
            pi_encodes(event, response, r),
    {
        let refused = invalid_combination(response_name_exec(&response), event_name(event));
        match response {
            HookResponse::Allow => Ok(silent()),
            HookResponse::Deny { reason } => {
                if event != HookEvent::PreToolUse {
                    return Err(refused);
                }
                Ok(stdout_line(frame("{\"block\":true,\"reason\":", reason.as_str(), "}")))
            },
            HookResponse::InjectMessage(content) => {
                if event != HookEvent::BeforeAgentStart {
                    return Err(refused);
                }
                Ok(
                    stdout_line(
                        frame(
                            "{\"message\":{\"content\":",
                            content.as_str(),
                            ",\"customType\":\"quality_gate\",\"display\":false}}",
                        ),
                    ),
                )
            },
            HookResponse::InjectSystemPrompt(prompt) => {
                if event != HookEvent::BeforeAgentStart {
                    return Err(refused);
                }
                Ok(stdout_line(frame("{\"systemPrompt\":", prompt.as_str(), "}")))
            },
            HookResponse::PostToolFeedback { reason } => {
                if event != HookEvent::PostToolUse {
                    return Err(refused);
                }
                Ok(
                    stdout_line(
                        frame("{\"content\":[{\"text\":", reason.as_str(), ",\"type\":\"text\"}]}"),
                    ),
                )
            },
            _ => Err(refused),
        }
    }
}

} // verus!
