//! The Codex CLI encoding: every non-empty response stays on stdout and exits
//! 0, using only fields the lifecycle event supports.

use vstd::prelude::*;

use super::claude::{block_body, block_envelope, claude_event_name, event_name};
use super::{
    frame, invalid_combination, invalid_message, is_silent, is_stdout_line, json_quoted,
    response_name, response_name_exec, silent, stdout_line, EncodedResponse, HookEvent,
    HookResponse,
};
use super::request::{
    either, either_field, is_blank, opt_text, payload_object, payload_object_exec, string_field,
    string_member, take_member, HookRequest,
};
use crate::json::{json_parsed, member, parse_json, parsed_view, JsonValue};

verus! {

/// Adapter for the Codex CLI hook protocol.
#[derive(Debug, Clone, Copy, Default)]
pub struct CodexAdapter;

/// `{"hookSpecificOutput":{"additionalContext":…,"hookEventName":…}}`.
pub open spec fn codex_context_body(event: HookEvent, text: Seq<char>) -> Seq<char> {
    "{\"hookSpecificOutput\":{\"additionalContext\":"@ + json_quoted(text)
        + ",\"hookEventName\":"@ + json_quoted(claude_event_name(event)) + "}}"@
}

/// The PreToolUse deny envelope without a system message.
pub open spec fn codex_deny_body(reason: Seq<char>) -> Seq<char> {
    "{\"hookSpecificOutput\":{\"hookEventName\":\"PreToolUse\",\"permissionDecision\":\"deny\",\"permissionDecisionReason\":"@
        + json_quoted(reason) + "}}"@
}

/// `{"systemMessage":…}`: the context fallback on PreToolUse.
pub open spec fn system_message_body(text: Seq<char>) -> Seq<char> {
    "{\"systemMessage\":"@ + json_quoted(text) + "}"@
}

/// The complete Codex contract. Context is `additionalContext` on session
/// start, prompt submission and PostToolUse, a system message on PreToolUse;
/// a deny belongs to PreToolUse; a block to PostToolUse or Stop, both on
/// stdout with exit 0. Every other pair is refused.
pub open spec fn codex_encodes(event: HookEvent, response: HookResponse, r: Result<
    EncodedResponse,
    String,
>) -> bool {
    let refused = r matches Err(m) && m@ == invalid_message(
        response_name(response),
        claude_event_name(event),
    );
    match response {
        HookResponse::Allow => r matches Ok(e) && is_silent(e),
        HookResponse::InjectContext(text) => if event == HookEvent::SessionStart || event
            == HookEvent::UserPromptSubmit || event == HookEvent::PostToolUse {
            r matches Ok(e) && is_stdout_line(e, codex_context_body(event, text@))
        } else if event == HookEvent::PreToolUse {
            r matches Ok(e) && is_stdout_line(e, system_message_body(text@))
        } else {
            refused
        },
        HookResponse::Deny { reason } => if event == HookEvent::PreToolUse {
            r matches Ok(e) && is_stdout_line(e, codex_deny_body(reason@))
        } else {
            refused
        },
        HookResponse::BlockStop { reason } => if event == HookEvent::PostToolUse || event
            == HookEvent::Stop {
            r matches Ok(e) && is_stdout_line(e, block_body(reason@))
        } else {
            refused
        },
        _ => refused,
    }
}

/// Codex tool names mapped onto the neutral vocabulary.
pub open spec fn codex_tool_name(name: Seq<char>) -> Seq<char> {
    if name == "apply_patch"@ || name == "Edit"@ {
        "Edit"@
    } else if name == "Write"@ {
        "Write"@
    } else if name == "exec_command"@ || name == "unified_exec"@ || name == "Bash"@ {
        "Bash"@
    } else {
        name
    }
}

/// Whether two character sequences are equal.
pub fn same(a: &str, b: &str) -> (r: bool)
    ensures
        r == (a@ == b@),
{
    let x = crate::text::chars_of(a);
    let y = crate::text::chars_of(b);
    if x.len() != y.len() {
        return false;
    }
    let r = crate::text::starts_with_exec(x.as_slice(), y.as_slice());
    proof {
        if r {
            assert(x@ =~= x@.subrange(0, y@.len() as int));
        } else {
            assert(!(x@ =~= y@) || x@.subrange(0, y@.len() as int) != y@);
            if x@ == y@ {
                assert(x@.subrange(0, y@.len() as int) =~= y@);
            }
        }
    }
    r
}

pub fn canonical_tool_name(name: String) -> (r: String)
    ensures
        r@ == codex_tool_name(name@),
{
    let n = name.as_str();
    if same(n, "apply_patch") || same(n, "Edit") {
        String::from_str("Edit")
    } else if same(n, "Write") {
        String::from_str("Write")
    } else if same(n, "exec_command") || same(n, "unified_exec") || same(n, "Bash") {
        String::from_str("Bash")
    } else {
        name
    }
}

/// The event a Codex payload names, under either spelling.
pub open spec fn codex_payload_event(o: Seq<(String, JsonValue)>) -> Option<Seq<char>> {
    either(string_member(o, "hookEventName"@), string_member(o, "hook_event_name"@))
}

/// The request a payload object makes: tool names mapped onto the neutral
/// vocabulary, the prompt read from `prompt` before `user_prompt`, and the
/// tool input moved as it was.
pub open spec fn codex_request(event: HookEvent, o: Seq<(String, JsonValue)>, q: HookRequest) -> bool {
    &&& q.event == event
    &&& opt_text(q.tool_name) == match string_member(o, "tool_name"@) {
        Some(n) => Some(codex_tool_name(n)),
        None => None,
    }
    &&& q.tool_input == member(o, "tool_input"@)
    &&& opt_text(q.prompt) == either(string_member(o, "prompt"@), string_member(o, "user_prompt"@))
    &&& opt_text(q.session_id) == string_member(o, "session_id"@)
    &&& opt_text(q.cwd) == string_member(o, "cwd"@)
    &&& opt_text(q.transcript_path) == string_member(o, "transcript_path"@)
    &&& opt_text(q.source) == string_member(o, "source"@)
}

fn context_envelope(event: HookEvent, text: &str) -> (r: String)
    ensures
        r@ == codex_context_body(event, text@),
{
    let mut r = frame("{\"hookSpecificOutput\":{\"additionalContext\":", text, ",\"hookEventName\":");
    let name = super::json_quote(event_name(event));
    r.append(name.as_str());
    r.append("}}");
    r
}

/// What reading a payload gives, where `parsed` is the parse of its text: a
/// payload that names another event is refused.
pub open spec fn codex_reads(
    event: HookEvent,
    stdin: Seq<char>,
    parsed: Result<JsonValue, Seq<char>>,
    r: Result<HookRequest, String>,
) -> bool {
    match payload_object(stdin, parsed) {
        Err(e) => r matches Err(m) && m@ == e,
        Ok(o) => match codex_payload_event(o) {
            Some(named) if named != claude_event_name(event) => r matches Err(m) && m@
                == "parse stdin (hook event "@ + named + " does not match "@ + claude_event_name(event) + ")"@,
            _ => r matches Ok(q) && codex_request(event, o, q),
        },
    }
}

impl CodexAdapter {
    /// Parses a payload text with `serde_json` (blank text is not parsed)
    /// and reads it into a request.
    pub fn parse_request(&self, event: HookEvent, stdin_json: &str) -> (r: Result<HookRequest, String>)
        ensures
            codex_reads(event, stdin_json@, json_parsed(stdin_json@), r),
    {
        let parsed = if is_blank(stdin_json) {
            Ok(JsonValue::Null)
        } else {
            parse_json(stdin_json)
        };
        self.request_from_payload(event, stdin_json, parsed)
    }

    /// Reads a payload into a request, given what the JSON parser made of its
    /// text (consulted only when the text is not blank).
    pub fn request_from_payload(&self, event: HookEvent, stdin_json: &str, parsed: Result<JsonValue, String>) -> (r:
        Result<HookRequest, String>)
        ensures
            codex_reads(event, stdin_json@, parsed_view(parsed), r),
    {
        let mut o = match payload_object_exec(stdin_json, parsed) {
            Ok(o) => o,
            Err(e) => return Err(e),
        };
        if let Some(named) = either_field(&o, "hookEventName", "hook_event_name") {
            let expected = event_name(event);
            if !same(named.as_str(), expected) {
                let mut m = crate::text::concat3("parse stdin (hook event ", named.as_str(), " does not match ");
                m.append(expected);
                m.append(")");
                return Err(m);
            }
        }
        let tool_name = match string_field(&o, "tool_name") {
            Some(n) => Some(canonical_tool_name(n)),
            None => None,
        };
        let prompt = either_field(&o, "prompt", "user_prompt");
        let session_id = string_field(&o, "session_id");
        let cwd = string_field(&o, "cwd");
        let transcript_path = string_field(&o, "transcript_path");
        let source = string_field(&o, "source");
        let tool_input = take_member(&mut o, "tool_input");
        Ok(HookRequest { event, tool_name, tool_input, prompt, session_id, cwd, transcript_path, source })
    }

    /// Encodes a normalized response into Codex's exact bytes and exit code.
    pub fn encode_response(&self, event: HookEvent, response: HookResponse) -> (r: Result<
        EncodedResponse,
        String,
    >)
        ensures
            codex_encodes(event, response, r),
    {
        let refused = invalid_combination(response_name_exec(&response), event_name(event));
        match response {
            HookResponse::Allow => Ok(silent()),
            HookResponse::InjectContext(text) => match event {
                HookEvent::SessionStart | HookEvent::UserPromptSubmit | HookEvent::PostToolUse => Ok(
                    stdout_line(context_envelope(event, text.as_str())),
                ),
                HookEvent::PreToolUse => Ok(
                    stdout_line(frame("{\"systemMessage\":", text.as_str(), "}")),
                ),
                _ => Err(refused),
            },
            HookResponse::Deny { reason } => match event {
                HookEvent::PreToolUse => Ok(
                    stdout_line(
                        frame(
                            "{\"hookSpecificOutput\":{\"hookEventName\":\"PreToolUse\",\"permissionDecision\":\"deny\",\"permissionDecisionReason\":",
                            reason.as_str(),
                            "}}",
                        ),
                    ),
                ),
                _ => Err(refused),
            },
            HookResponse::BlockStop { reason } => match event {
                HookEvent::PostToolUse | HookEvent::Stop => Ok(
                    stdout_line(block_envelope(reason.as_str())),
                ),
                _ => Err(refused),
            },
            _ => Err(refused),
        }
    }
}

} // verus!
