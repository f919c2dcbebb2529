//! Harness-neutral hook protocol.
//!
//! A harness payload becomes a neutral request; a normalized response is
//! encoded back into that harness's exact bytes, stream and exit code. Only
//! event-valid pairs encode; any other pair is refused so the caller fails open.

pub mod claude;
pub mod codex;
pub mod pi;
pub mod request;

pub use claude::ClaudeAdapter;
pub use codex::CodexAdapter;
pub use pi::PiAdapter;

use vstd::prelude::*;

verus! {

/// The lifecycle events a harness reports.
#[derive(Debug, Clone, Copy, PartialEq, Eq, Structural)]
pub enum HookEvent {
    SessionStart,
    UserPromptSubmit,
    BeforeAgentStart,
    PreToolUse,
    PostToolUse,
    Stop,
    PermissionRequest,
    SubagentStart,
    SubagentStop,
}

/// The closed set of hook outcomes policy code can produce.
#[derive(Debug, Clone, PartialEq, Eq)]
pub enum HookResponse {
    /// Proceed with no agent-facing output.
    Allow,
    /// Inject compact context text.
    InjectContext(String),
    /// Inject a hidden message before the agent starts.
    InjectMessage(String),
    /// Replace the system prompt before the agent starts.
    InjectSystemPrompt(String),
    /// Deny a tool call before it runs.
    Deny { reason: String },
    /// Block completion until a violation is resolved.
    BlockStop { reason: String },
    /// Feedback attached to a tool result.
    PostToolFeedback { reason: String },
    /// A session summary.
    Summary(String),
}

/// Which stream an encoded response is written to.
#[derive(Debug, Clone, Copy, PartialEq, Eq, Structural)]
pub enum OutputStream {
    Stdout,
    Stderr,
}

/// The exact line, stream and exit code an encoded response produces; an
/// empty body means nothing is written.
#[derive(Debug, Clone, PartialEq, Eq)]
pub struct EncodedResponse {
    pub body: String,
    pub stream: OutputStream,
    pub exit_code: u8,
}

/// A lowercase hex digit of a value below 16.
pub open spec fn lower_hex_digit(n: u32) -> char {
    if n < 10 {
        (48 + n) as char
    } else {
        (87 + n) as char
    }
}

/// How `serde_json` writes one character inside a JSON string: the quote
/// and the backslash escaped by a backslash; backspace, form feed, newline,
/// carriage return and tab by their short escapes; any other character
/// below space as `\u00` and two lowercase hex digits; anything else as
/// itself.
pub open spec fn json_escaped(c: char) -> Seq<char> {
    if c == '"' {
        seq!['\\', '"']
    } else if c == '\\' {
        seq!['\\', '\\']
    } else if c == '\u{8}' {
        seq!['\\', 'b']
    } else if c == '\u{c}' {
        seq!['\\', 'f']
    } else if c == '\n' {
        seq!['\\', 'n']
    } else if c == '\r' {
        seq!['\\', 'r']
    } else if c == '\t' {
        seq!['\\', 't']
    } else if ' ' > c {
        let code: u32 = c as u32;
        seq!['\\', 'u', '0', '0', lower_hex_digit(code / 16), lower_hex_digit(code % 16)]
    } else {
        seq![c]
    }
}

/// The characters of a text, each as `serde_json` writes it in a string.
pub open spec fn json_escaped_text(s: Seq<char>) -> Seq<char>
    decreases s.len(),
{
    if s.len() == 0 {
        seq![]
    } else {
        json_escaped_text(s.drop_last()) + json_escaped(s.last())
    }
}

/// What `serde_json` writes for a JSON string holding `s`: the escaped text
/// between quotes.
pub open spec fn json_quoted(s: Seq<char>) -> Seq<char> {
    seq!['"'] + json_escaped_text(s) + seq!['"']
}

/// A character `serde_json` writes as itself inside a string: anything from
/// space upward except the quote and the backslash.
pub open spec fn plain_json_char(c: char) -> bool {
    ' ' <= c && c != '"' && c != '\\'
}

/// Plain characters are written as they are.
pub proof fn lemma_plain_text_is_unescaped(s: Seq<char>)
    requires
        forall|i: int| 0 <= i < s.len() ==> plain_json_char(#[trigger] s[i]),
    ensures
        json_escaped_text(s) == s,
    decreases s.len(),
{
    if s.len() > 0 {
        assert forall|i: int| 0 <= i < s.drop_last().len() implies plain_json_char(#[trigger] s.drop_last()[i]) by {
            assert(s.drop_last()[i] == s[i]);
        }
        lemma_plain_text_is_unescaped(s.drop_last());
        assert(plain_json_char(s[s.len() - 1]));
        assert(s =~= s.drop_last() + seq![s.last()]);
    }
}

/// `serde_json::to_string` of a string slice: serializing a `str` into
/// memory cannot fail, and the crate's escape table (`ESCAPE` in `ser.rs`)
/// writes the text as `json_quoted` states.
#[verifier::external_body]
fn serde_quote(s: &str) -> (r: String)
    ensures
        r@ == json_quoted(s@),
{
    serde_json::to_string(s).unwrap_or_default()
}

/// The JSON string literal of a text; a text made only of plain characters
/// is simply put between quotes.
pub(crate) fn json_quote(s: &str) -> (r: String)
    ensures
        r@ == json_quoted(s@),
        (forall|i: int| 0 <= i < s@.len() ==> plain_json_char(#[trigger] s@[i])) ==> r@ == seq![
            '"',
        ] + s@ + seq!['"'],
{
    proof {
        if forall|i: int| 0 <= i < s@.len() ==> plain_json_char(#[trigger] s@[i]) {
            lemma_plain_text_is_unescaped(s@);
        }
    }
    serde_quote(s)
}

/// The JSON string text of `s`: plain text between quotes, anything else as
/// the serializer escapes it.
pub open spec fn json_text(s: Seq<char>) -> Seq<char> {
    if forall|i: int| 0 <= i < s.len() ==> plain_json_char(#[trigger] s[i]) {
        seq!['"'] + s + seq!['"']
    } else {
        json_quoted(s)
    }
}

/// The JSON string literal of a text.
pub fn quote_json(s: &str) -> (r: String)
    ensures
        r@ == json_text(s@),
        r@ == json_quoted(s@),
{
    json_quote(s)
}

/// The name of a response variant as error messages spell it.
pub open spec fn response_name(response: HookResponse) -> Seq<char> {
    match response {
        HookResponse::Allow => "Allow"@,
        HookResponse::InjectContext(_) => "InjectContext"@,
        HookResponse::InjectMessage(_) => "InjectMessage"@,
        HookResponse::InjectSystemPrompt(_) => "InjectSystemPrompt"@,
        HookResponse::Deny { .. } => "Deny"@,
        HookResponse::BlockStop { .. } => "BlockStop"@,
        HookResponse::PostToolFeedback { .. } => "PostToolFeedback"@,
        HookResponse::Summary(_) => "Summary"@,
    }
}

pub fn response_name_exec(response: &HookResponse) -> (r: &'static str)
    ensures
        r@ == response_name(*response),
{
    match response {
        HookResponse::Allow => "Allow",
        HookResponse::InjectContext(_) => "InjectContext",
        HookResponse::InjectMessage(_) => "InjectMessage",
        HookResponse::InjectSystemPrompt(_) => "InjectSystemPrompt",
        HookResponse::Deny { .. } => "Deny",
        HookResponse::BlockStop { .. } => "BlockStop",
        HookResponse::PostToolFeedback { .. } => "PostToolFeedback",
        HookResponse::Summary(_) => "Summary",
    }
}

/// The refusal text for a response that is not a valid contract for an event.
pub open spec fn invalid_message(response: Seq<char>, event_name: Seq<char>) -> Seq<char> {
    "encode response ("@ + response + " is not valid for "@ + event_name + ")"@
}

pub(crate) fn invalid_combination(response: &str, event_name: &str) -> (r: String)
    ensures
        r@ == invalid_message(response@, event_name@),
{
    let mut r = String::from_str("encode response (");
    r.append(response);
    r.append(" is not valid for ");
    r.append(event_name);
    r.append(")");
    r
}

/// The silent, successful encoding.
pub open spec fn is_silent(e: EncodedResponse) -> bool {
    e.body@.len() == 0 && e.stream == OutputStream::Stdout && e.exit_code == 0
}

/// An encoding that writes `body` to stdout and exits 0.
pub open spec fn is_stdout_line(e: EncodedResponse, body: Seq<char>) -> bool {
    e.body@ == body && e.stream == OutputStream::Stdout && e.exit_code == 0
}

pub(crate) fn silent() -> (r: EncodedResponse)
    ensures
        is_silent(r),
{
    EncodedResponse { body: String::new(), stream: OutputStream::Stdout, exit_code: 0 }
}

pub(crate) fn stdout_line(body: String) -> (r: EncodedResponse)
    ensures
        is_stdout_line(r, body@),
{
    EncodedResponse { body, stream: OutputStream::Stdout, exit_code: 0 }
}

/// Builds `prefix + json(value) + suffix`.
pub(crate) fn frame(prefix: &str, value: &str, suffix: &str) -> (r: String)
    ensures
        r@ == prefix@ + json_quoted(value@) + suffix@,
{
    let mut r = String::from_str(prefix);
    let quoted = json_quote(value);
    r.append(quoted.as_str());
    r.append(suffix);
    r
}

/// The bytes `emit` appends for an encoded response: the body's UTF-8 bytes
/// and one newline, or nothing for an empty body.
pub open spec fn emitted_bytes(e: EncodedResponse) -> Seq<u8> {
    if e.body@.len() == 0 {
        Seq::empty()
    } else {
        vstd::utf8::encode_utf8(e.body@).push(10u8)
    }
}

/// Writes an encoded response as one newline-terminated line to the stream it
/// names; an empty body writes nothing. Writing into memory cannot fail.
pub fn emit(stdout: &mut Vec<u8>, stderr: &mut Vec<u8>, encoded: &EncodedResponse) -> (r: Result<
    (),
    String,
>)
    ensures
        r is Ok,
        encoded.stream == OutputStream::Stdout ==> final(stdout)@ == old(stdout)@ + emitted_bytes(
            *encoded,
        ) && final(stderr)@ == old(stderr)@,
        encoded.stream == OutputStream::Stderr ==> final(stderr)@ == old(stderr)@ + emitted_bytes(
            *encoded,
        ) && final(stdout)@ == old(stdout)@,
{
    if encoded.body.as_str().is_empty() {
        assert(stdout@ =~= stdout@ + Seq::<u8>::empty());
        assert(stderr@ =~= stderr@ + Seq::<u8>::empty());
        return Ok(());
    }
    let bytes = encoded.body.as_str().as_bytes();
    match encoded.stream {
        OutputStream::Stdout => write_line(stdout, bytes),
        OutputStream::Stderr => write_line(stderr, bytes),
    }
    Ok(())
}

fn write_line(output: &mut Vec<u8>, bytes: &[u8])
    ensures
        final(output)@ == old(output)@ + bytes@.push(10u8),
{
    let ghost start = output@;
    let mut i: usize = 0;
    while i < bytes.len()
        invariant
            i <= bytes.len(),
            output@ == start + bytes@.subrange(0, i as int),
        decreases bytes.len() - i,
    {
        output.push(bytes[i]);
        i += 1;
        assert(output@ =~= start + bytes@.subrange(0, i as int));
    }
    output.push(10u8);
    assert(output@ =~= start + bytes@.push(10u8));
}

/// The body that denies a tool call before it runs, with the reason also
/// as the system message.
pub fn pre_tool_deny(reason: &str) -> (r: String)
    ensures
        r@ == claude::claude_deny_body(reason@),
{
    claude::deny_envelope(reason)
}

/// The body that blocks the agent with a reason.
pub fn block(reason: &str) -> (r: String)
    ensures
        r@ == claude::block_body(reason@),
{
    claude::block_envelope(reason)
}

/// The prompt-submission body that adds the detected intent and the
/// instruction packet to the agent's context.
pub fn user_prompt_context(intent: &str, packet: &str) -> (r: String)
    ensures
        r@ == claude::claude_context_body(
            HookEvent::UserPromptSubmit,
            "Detected task intent: "@ + intent@ + ".\n\n"@ + packet@,
        ),
{
    let mut text = crate::text::concat3("Detected task intent: ", intent, ".\n\n");
    text.append(packet);
    claude::context_envelope(HookEvent::UserPromptSubmit, text.as_str())
}

/// The request with the event alone: no tool, input, prompt or session
/// field.
pub open spec fn is_empty_request(event: HookEvent, r: Result<request::HookRequest, String>) -> bool {
    r matches Ok(q) && q.event == event && q.tool_name is None && q.tool_input is None && q.prompt is None
        && q.session_id is None && q.cwd is None && q.transcript_path is None && q.source is None
}

/// Blank input is the empty request for every harness, whatever the parser
/// made of it (Pi first refuses input over its size limit).
pub proof fn law_blank_payload_is_the_empty_request(
    event: HookEvent,
    stdin: Seq<char>,
    parsed: Result<crate::json::JsonValue, Seq<char>>,
    r: Result<request::HookRequest, String>,
)
    requires
        crate::text::trim(stdin).len() == 0,
    ensures
        claude::claude_reads(event, stdin, parsed, r) ==> is_empty_request(event, r),
        codex::codex_reads(event, stdin, parsed, r) ==> is_empty_request(event, r),
        crate::text::byte_len(stdin) <= pi::MAX_INPUT_BYTES && pi::pi_reads(event, stdin, parsed, r)
            ==> is_empty_request(event, r),
{
    let none = Seq::<(String, crate::json::JsonValue)>::empty();
    assert(request::payload_object(stdin, parsed) == Ok::<Seq<(String, crate::json::JsonValue)>, Seq<char>>(none));
}

} // verus!
