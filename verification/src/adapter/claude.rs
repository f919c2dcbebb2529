//! The hook-response encoding of the `ClaudeAdapter` harness: JSON bodies on
//! stdout, and exit code 2 with the reason on stderr to block a Stop.

use vstd::prelude::*;

use super::{
    frame, invalid_combination, invalid_message, is_silent, is_stdout_line, json_quoted,
    response_name, response_name_exec, silent, stdout_line, EncodedResponse, HookEvent,
    HookResponse, OutputStream,
};
use super::request::{
    either, either_field, is_blank, opt_text, payload_object, payload_object_exec, string_field,
    string_member, take_member, HookRequest,
};
use crate::json::{json_parsed, member, parse_json, parsed_view, JsonValue};

verus! {

/// Adapter for the harness whose hook protocol this module encodes.
#[derive(Debug, Clone, Copy, Default)]
pub struct ClaudeAdapter;

/// The harness's name for a lifecycle event.
pub open spec fn claude_event_name(event: HookEvent) -> Seq<char> {
    match event {
        HookEvent::SessionStart => "SessionStart"@,
        HookEvent::UserPromptSubmit => "UserPromptSubmit"@,
        HookEvent::BeforeAgentStart => "BeforeAgentStart"@,
        HookEvent::PreToolUse => "PreToolUse"@,
        HookEvent::PostToolUse => "PostToolUse"@,
        HookEvent::Stop => "Stop"@,
        HookEvent::PermissionRequest => "PermissionRequest"@,
        HookEvent::SubagentStart => "SubagentStart"@,
        HookEvent::SubagentStop => "SubagentStop"@,
    }
}

pub fn event_name(event: HookEvent) -> (r: &'static str)
    ensures
        r@ == claude_event_name(event),
{
    match event {
        HookEvent::SessionStart => "SessionStart",
        HookEvent::UserPromptSubmit => "UserPromptSubmit",
        HookEvent::BeforeAgentStart => "BeforeAgentStart",
        HookEvent::PreToolUse => "PreToolUse",
        HookEvent::PostToolUse => "PostToolUse",
        HookEvent::Stop => "Stop",
        HookEvent::PermissionRequest => "PermissionRequest",
        HookEvent::SubagentStart => "SubagentStart",
        HookEvent::SubagentStop => "SubagentStop",
    }
}

/// `{"hookSpecificOutput":{"additionalContext":…,"hookEventName":…}}`.
pub open spec fn claude_context_body(event: HookEvent, text: Seq<char>) -> Seq<char> {
    "{\"hookSpecificOutput\":{\"additionalContext\":"@ + json_quoted(text)
        + ",\"hookEventName\":"@ + json_quoted(claude_event_name(event)) + "}}"@
}

/// The PreToolUse deny envelope, with the reason also as the system message.
pub open spec fn claude_deny_body(reason: Seq<char>) -> Seq<char> {
    "{\"hookSpecificOutput\":{\"hookEventName\":\"PreToolUse\",\"permissionDecision\":\"deny\",\"permissionDecisionReason\":"@
        + json_quoted(reason) + "},\"systemMessage\":"@ + json_quoted(reason) + "}"@
}

/// `{"decision":"block","reason":…}`.
pub open spec fn block_body(reason: Seq<char>) -> Seq<char> {
    "{\"decision\":\"block\",\"reason\":"@ + json_quoted(reason) + "}"@
}

/// The harness's complete contract: an allow is silent for every event; context
/// belongs to session start and prompt submission, a deny to PreToolUse, and
/// a block to PostToolUse (stdout, exit 0) or Stop (stderr, exit 2). Every
/// other pair is refused with a message naming the response and the event.
pub open spec fn claude_encodes(event: HookEvent, response: HookResponse, r: Result<
    EncodedResponse,
    String,
>) -> bool {
    let refused = r matches Err(m) && m@ == invalid_message(
        response_name(response),
        claude_event_name(event),
    );
    match response {
        HookResponse::Allow => r matches Ok(e) && is_silent(e),
        HookResponse::InjectContext(text) => if event == HookEvent::SessionStart || event
            == HookEvent::UserPromptSubmit {
            r matches Ok(e) && is_stdout_line(e, claude_context_body(event, text@))
        } else {
            refused
        },
        HookResponse::Deny { reason } => if event == HookEvent::PreToolUse {
            r matches Ok(e) && is_stdout_line(e, claude_deny_body(reason@))
        } else {
            refused
        },
        HookResponse::BlockStop { reason } => if event == HookEvent::PostToolUse {
            r matches Ok(e) && is_stdout_line(e, block_body(reason@))
        } else if event == HookEvent::Stop {
            r matches Ok(e) && e.body@ == block_body(reason@) && e.stream == OutputStream::Stderr
                && e.exit_code == 2
        } else {
            refused
        },
        _ => refused,
    }
}

pub(crate) fn context_envelope(event: HookEvent, text: &str) -> (r: String)
    ensures
        r@ == claude_context_body(event, text@),
{
    let mut r = frame("{\"hookSpecificOutput\":{\"additionalContext\":", text, ",\"hookEventName\":");
    let name = super::json_quote(event_name(event));
    r.append(name.as_str());
    r.append("}}");
    r
}

pub(crate) fn deny_envelope(reason: &str) -> (r: String)
    ensures
        r@ == claude_deny_body(reason@),
{
    let mut r = frame(
        "{\"hookSpecificOutput\":{\"hookEventName\":\"PreToolUse\",\"permissionDecision\":\"deny\",\"permissionDecisionReason\":",
        reason,
        "},\"systemMessage\":",
    );
    let again = super::json_quote(reason);
    r.append(again.as_str());
    r.append("}");
    r
}

pub(crate) fn block_envelope(reason: &str) -> (r: String)
    ensures
        r@ == block_body(reason@),
{
    frame("{\"decision\":\"block\",\"reason\":", reason, "}")
}

/// The request a payload object makes: the fields it names, the prompt read
/// from `user_prompt` before `prompt`, and the tool input moved as it was.
pub open spec fn claude_request(event: HookEvent, o: Seq<(String, JsonValue)>, q: HookRequest) -> bool {
    &&& q.event == event
    &&& opt_text(q.tool_name) == string_member(o, "tool_name"@)
    &&& q.tool_input == member(o, "tool_input"@)
    &&& opt_text(q.prompt) == either(string_member(o, "user_prompt"@), string_member(o, "prompt"@))
    &&& opt_text(q.session_id) == string_member(o, "session_id"@)
    &&& opt_text(q.cwd) == string_member(o, "cwd"@)
    &&& opt_text(q.transcript_path) == string_member(o, "transcript_path"@)
    &&& opt_text(q.source) == string_member(o, "source"@)
}

/// What reading a payload gives, where `parsed` is the parse of its text.
pub open spec fn claude_reads(
    event: HookEvent,
    stdin: Seq<char>,
    parsed: Result<JsonValue, Seq<char>>,
    r: Result<HookRequest, String>,
) -> bool {
    match payload_object(stdin, parsed) {
        Err(e) => r matches Err(m) && m@ == e,
        Ok(o) => r matches Ok(q) && claude_request(event, o, q),
    }
}

impl ClaudeAdapter {
    /// Parses a payload text with `serde_json` (blank text is not parsed)
    /// and reads it into a request.
    pub fn parse_request(&self, event: HookEvent, stdin_json: &str) -> (r: Result<HookRequest, String>)
        ensures
            claude_reads(event, stdin_json@, json_parsed(stdin_json@), r),
    {
        let parsed = if is_blank(stdin_json) {
            Ok(JsonValue::Null)
        } else {
            parse_json(stdin_json)
        };
        self.request_from_payload(event, stdin_json, parsed)
    }

    /// Reads a payload into a request, given what the JSON parser made of its
    /// text (consulted only when the text is not blank).
    pub fn request_from_payload(&self, event: HookEvent, stdin_json: &str, parsed: Result<JsonValue, String>) -> (r:
        Result<HookRequest, String>)
        ensures
            claude_reads(event, stdin_json@, parsed_view(parsed), r),
    {
        let mut o = match payload_object_exec(stdin_json, parsed) {
            Ok(o) => o,
            Err(e) => return Err(e),
        };
        let tool_name = string_field(&o, "tool_name");
        let prompt = either_field(&o, "user_prompt", "prompt");
        let session_id = string_field(&o, "session_id");
        let cwd = string_field(&o, "cwd");
        let transcript_path = string_field(&o, "transcript_path");
        let source = string_field(&o, "source");
        let tool_input = take_member(&mut o, "tool_input");
        Ok(HookRequest { event, tool_name, tool_input, prompt, session_id, cwd, transcript_path, source })
    }

    /// Encodes a normalized response into the harness's exact bytes and exit code.
    pub fn encode_response(&self, event: HookEvent, response: HookResponse) -> (r: Result<
        EncodedResponse,
        String,
    >)
        ensures
            claude_encodes(event, response, r),
    {
        let refused = invalid_combination(response_name_exec(&response), event_name(event));
        match response {
            HookResponse::Allow => Ok(silent()),
            HookResponse::InjectContext(text) => match event {
                HookEvent::SessionStart | HookEvent::UserPromptSubmit => Ok(
                    stdout_line(context_envelope(event, text.as_str())),
                ),
                _ => Err(refused),
            },
            HookResponse::Deny { reason } => match event {
                HookEvent::PreToolUse => Ok(stdout_line(deny_envelope(reason.as_str()))),
                _ => Err(refused),
            },
            HookResponse::BlockStop { reason } => match event {
                HookEvent::PostToolUse => Ok(stdout_line(block_envelope(reason.as_str()))),
                HookEvent::Stop => Ok(
                    EncodedResponse {
                        body: block_envelope(reason.as_str()),
                        stream: OutputStream::Stderr,
                        exit_code: 2,
                    },
                ),
                _ => Err(refused),
            },
            _ => Err(refused),
        }
    }
}

} // verus!
