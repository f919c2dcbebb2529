//! Verification claims in the agent's last message, held against the
//! commands the Stop gate actually ran.

use vstd::prelude::*;

use crate::checks::commands::result::CommandEvidence;
use crate::checks::commands::runner::{shlex_split, shlex_words};
use crate::checks::{EnforcementResult, ResultEvidence, Severity, Status};
use crate::json::{get, json_parsed, member, parse_json, JsonValue};
use crate::paths::{path_components, path_components_exec};
use crate::text::{
    chars_of, contains, contains_str, deep, join_spaced, join_with_spaces, lines, lines_exec,
    lower, split_char, split_char_exec, starts_with, starts_with_str, string_of, to_lower, trim,
    trim_exec, views, words, words_exec,
};

verus! {

pub const MAX_CLAIMS: usize = 32;
pub const TESTS_PASSED_WINDOW: usize = 8;

/// Something the agent claimed to have verified.
#[derive(Clone, Debug, PartialEq, Eq)]
pub enum Claim {
    /// A configured quality-gate command ran and passed.
    Command(String),
    /// Tests passed, without naming a command.
    TestsPassed,
}

/// A claim as text: `(true, "")` for a tests-passed claim, `(false, c)` for
/// a command claim.
pub open spec fn claim_view(c: Claim) -> (bool, Seq<char>) {
    match c {
        Claim::Command(s) => (false, s@),
        Claim::TestsPassed => (true, seq![]),
    }
}

pub open spec fn claim_views(cs: Seq<Claim>) -> Seq<(bool, Seq<char>)> {
    cs.map_values(|c: Claim| claim_view(c))
}

// ---------------------------------------------------------------------------
// Which lines assert anything.

/// A line reporting success: it starts with "ran " or mentions passing,
/// success or a run.
pub open spec fn success_line(line: Seq<char>) -> bool {
    let l = lower(line);
    starts_with(l, "ran "@) || contains(l, "pass"@) || contains(l, "success"@) || contains(
        l,
        "succeed"@,
    ) || contains(l, " ran"@) || contains(l, "run:"@)
}

pub fn success_line_exec(line: &[char]) -> (r: bool)
    ensures
        r == success_line(line@),
{
    let l = to_lower(line);
    let l = l.as_slice();
    starts_with_str(l, "ran ") || contains_str(l, "pass") || contains_str(l, "success")
        || contains_str(l, "succeed") || contains_str(l, " ran") || contains_str(l, "run:")
}

/// A line that describes, denies or speculates about a gate rather than
/// asserting that it ran.
pub open spec fn is_non_assertive(line: Seq<char>) -> bool {
    let l = lower(line);
    contains(l, "cannot"@) || contains(l, "can't"@) || contains(l, "could not"@) || contains(
        l,
        "couldn't"@,
    ) || contains(l, "did not"@) || contains(l, "didn't"@) || contains(l, "does not"@)
        || contains(l, "doesn't"@) || contains(l, "do not"@) || contains(l, "don't"@) || contains(
        l,
        "was not"@,
    ) || contains(l, "were not"@) || contains(l, "wasn't"@) || contains(l, "weren't"@)
        || contains(l, "never"@) || contains(l, "without"@) || contains(l, "unprovable"@)
        || contains(l, "unverified"@) || contains(l, "would "@) || contains(l, "should "@)
        || contains(l, "if "@) || contains(l, "whether"@)
}

pub fn is_non_assertive_exec(line: &[char]) -> (r: bool)
    ensures
        r == is_non_assertive(line@),
{
    let l = to_lower(line);
    let l = l.as_slice();
    contains_str(l, "cannot") || contains_str(l, "can't") || contains_str(l, "could not")
        || contains_str(l, "couldn't") || contains_str(l, "did not") || contains_str(l, "didn't")
        || contains_str(l, "does not") || contains_str(l, "doesn't") || contains_str(l, "do not")
        || contains_str(l, "don't") || contains_str(l, "was not") || contains_str(l, "were not")
        || contains_str(l, "wasn't") || contains_str(l, "weren't") || contains_str(l, "never")
        || contains_str(l, "without") || contains_str(l, "unprovable") || contains_str(
        l,
        "unverified",
    ) || contains_str(l, "would ") || contains_str(l, "should ") || contains_str(l, "if ")
        || contains_str(l, "whether")
}

pub open spec fn is_ascii_alnum(c: char) -> bool {
    ('0' <= c && c <= '9') || ('a' <= c && c <= 'z') || ('A' <= c && c <= 'Z')
}

/// A word reduced to its ASCII letters and digits, lower-cased.
pub open spec fn token(word: Seq<char>) -> Seq<char> {
    lower(word.filter(|c: char| is_ascii_alnum(c)))
}

pub open spec fn is_test_word(t: Seq<char>) -> bool {
    t == "test"@ || t == "tests"@
}

pub open spec fn is_pass_word(t: Seq<char>) -> bool {
    t == "pass"@ || t == "passed"@ || t == "passes"@ || t == "passing"@
}

/// A line asserts that tests passed when a test word is followed, within a
/// few words, by a pass word.
pub open spec fn asserts_tests_passed(line: Seq<char>) -> bool {
    let toks = words(line).map_values(|w: Seq<char>| token(w));
    exists|i: int, j: int|
        0 <= i < j < toks.len() && j <= i + TESTS_PASSED_WINDOW && is_test_word(
            #[trigger] toks[i],
        ) && is_pass_word(#[trigger] toks[j])
}

fn token_exec(word: &[char]) -> (r: Vec<char>)
    ensures
        r@ == token(word@),
{
    let ghost keep = |c: char| is_ascii_alnum(c);
    let mut kept: Vec<char> = Vec::new();
    let mut i: usize = 0;
    proof {
        reveal(Seq::filter);
        assert(word@.take(0).filter(keep) =~= Seq::<char>::empty());
    }
    while i < word.len()
        invariant
            i <= word.len(),
            keep == (|c: char| is_ascii_alnum(c)),
            kept@ == word@.take(i as int).filter(keep),
        decreases word.len() - i,
    {
        proof {
            reveal(Seq::filter);
            assert(word@.take(i + 1).drop_last() =~= word@.take(i as int));
        }
        let c = word[i];
        if ('0' <= c && c <= '9') || ('a' <= c && c <= 'z') || ('A' <= c && c <= 'Z') {
            kept.push(c);
        }
        i += 1;
    }
    assert(word@.take(word.len() as int) =~= word@);
    to_lower(kept.as_slice())
}

fn same_chars(a: &[char], b: &str) -> (r: bool)
    ensures
        r == (a@ == b@),
{
    let s = string_of(a);
    crate::text::same_text(s.as_str(), b)
}

pub fn asserts_tests_passed_exec(line: &[char]) -> (r: bool)
    ensures
        r == asserts_tests_passed(line@),
{
    let ws = words_exec(line);
    let ghost toks = words(line@).map_values(|w: Seq<char>| token(w));
    let mut toks_exec: Vec<Vec<char>> = Vec::new();
    let mut k: usize = 0;
    while k < ws.len()
        invariant
            k <= ws.len(),
            deep(ws@) == words(line@),
            toks == words(line@).map_values(|w: Seq<char>| token(w)),
            toks_exec@.len() == k,
            forall|m: int| 0 <= m < k ==> (#[trigger] toks_exec@[m])@ == toks[m],
        decreases ws.len() - k,
    {
        assert(deep(ws@)[k as int] == ws@[k as int]@);
        toks_exec.push(token_exec(ws[k].as_slice()));
        k += 1;
    }
    let n = toks_exec.len();
    let mut i: usize = 0;
    while i < n
        invariant
            n == toks_exec.len(),
            n == toks.len(),
            toks == words(line@).map_values(|w: Seq<char>| token(w)),
            i <= n,
            forall|m: int| 0 <= m < n ==> (#[trigger] toks_exec@[m])@ == toks[m],
            forall|a: int, b: int|
                0 <= a < i && a < b < toks.len() && b <= a + TESTS_PASSED_WINDOW ==> !(
                is_test_word(#[trigger] toks[a]) && is_pass_word(#[trigger] toks[b])),
        decreases n - i,
    {
        let t = toks_exec[i].as_slice();
        if same_chars(t, "test") || same_chars(t, "tests") {
            let mut j: usize = i + 1;
            while j < n && j - i <= TESTS_PASSED_WINDOW
                invariant
                    n == toks_exec.len(),
                    n == toks.len(),
                    toks == words(line@).map_values(|w: Seq<char>| token(w)),
                    i < n,
                    i + 1 <= j,
                    is_test_word(toks[i as int]),
                    forall|m: int| 0 <= m < n ==> (#[trigger] toks_exec@[m])@ == toks[m],
                    forall|b: int| i < b < j ==> !is_pass_word(#[trigger] toks[b]),
                decreases n - j,
            {
                let u = toks_exec[j].as_slice();
                if same_chars(u, "pass") || same_chars(u, "passed") || same_chars(u, "passes")
                    || same_chars(u, "passing") {
                    assert(is_test_word(toks[i as int]) && is_pass_word(toks[j as int]));
                    return true;
                }
                j += 1;
            }
        }
        i += 1;
    }
    false
}

// ---------------------------------------------------------------------------
// Which commands count.

/// A command line in normal form: split as a shell would, words joined by
/// single spaces; `None` when it does not split or is empty.
pub open spec fn normalized(command: Seq<char>) -> Option<Seq<char>> {
    match shlex_words(trim(command)) {
        Some(w) => if w.len() > 0 {
            Some(join_spaced(w))
        } else {
            None
        },
        None => None,
    }
}

pub fn normalize(command: &str) -> (r: Option<String>)
    ensures
        match r {
            Some(s) => normalized(command@) == Some(s@),
            None => normalized(command@) is None,
        },
{
    let c = chars_of(command);
    let t = string_of(trim_exec(c.as_slice()).as_slice());
    match shlex_split(t.as_str()) {
        Some(argv) => {
            if argv.len() > 0 {
                Some(join_with_spaces(argv.as_slice()))
            } else {
                None
            }
        },
        None => None,
    }
}

/// The final name of a path, as `Path::file_name` gives it: none for a path
/// with no named component or ending in `..`.
pub open spec fn basename(p: Seq<char>) -> Option<Seq<char>> {
    let parts = split_char(p, '/').filter(|c: Seq<char>| c.len() > 0 && c != seq!['.']);
    if parts.len() == 0 || parts.last() == seq!['.', '.'] {
        None
    } else {
        Some(parts.last())
    }
}

pub fn basename_exec(p: &[char]) -> (r: Option<Vec<char>>)
    ensures
        match r {
            Some(b) => basename(p@) == Some(b@),
            None => basename(p@) is None,
        },
{
    let comps = path_components_exec(p);
    if comps.len() == 0 {
        return None;
    }
    let last = &comps[comps.len() - 1];
    assert(deep(comps@).last() == last@);
    if last.len() == 2 && last[0] == '.' && last[1] == '.' {
        assert(last@ =~= seq!['.', '.']);
        return None;
    }
    proof {
        if last@ == seq!['.', '.'] {
            assert(last@[0] == '.' && last@[1] == '.');
        }
    }
    Some(crate::text::copy_chars(last.as_slice()))
}

/// A command the repository gates on: `quality_gate check`, or a command whose
/// program has the name of a configured command's program.
pub open spec fn is_quality_gate_command(command: Seq<char>, configured: Seq<String>) -> bool {
    match shlex_words(command) {
        None => false,
        Some(argv) => argv.len() > 0 && basename(argv[0]) is Some && ({
            let exe = basename(argv[0])->0;
            if exe == "quality_gate"@ {
                argv.len() > 1 && argv[1] == "check"@
            } else {
                exists|k: int|
                    0 <= k < configured.len() && basename((#[trigger] configured[k])@) == Some(
                        exe,
                    )
            }
        }),
    }
}

#[verifier::loop_isolation(false)]
pub fn is_quality_gate_command_exec(command: &str, configured: &[String]) -> (r: bool)
    ensures
        r == is_quality_gate_command(command@, configured@),
{
    let argv = match shlex_split(command) {
        Some(a) => a,
        None => return false,
    };
    if argv.len() == 0 {
        return false;
    }
    assert(views(argv@)[0] == argv@[0]@);
    let first = chars_of(argv[0].as_str());
    let exe = match basename_exec(first.as_slice()) {
        Some(e) => e,
        None => return false,
    };
    if same_chars(exe.as_slice(), "quality_gate") {
        if argv.len() > 1 {
            assert(views(argv@)[1] == argv@[1]@);
            return crate::text::same_text(argv[1].as_str(), "check");
        }
        return false;
    }
    let mut k: usize = 0;
    while k < configured.len()
        invariant
            k <= configured.len(),
            forall|j: int| 0 <= j < k ==> basename((#[trigger] configured@[j])@) != Some(exe@),
        decreases configured.len() - k,
    {
        let c = chars_of(configured[k].as_str());
        match basename_exec(c.as_slice()) {
            Some(name) => {
                if crate::text::occurs_at_exec(name.as_slice(), exe.as_slice(), 0) && name.len()
                    == exe.len() {
                    assert(name@.subrange(0, exe@.len() as int) =~= name@);
                    return true;
                }
                proof {
                    if name@ == exe@ {
                        assert(name@.subrange(0, exe@.len() as int) =~= name@);
                    }
                }
            },
            None => {},
        }
        k += 1;
    }
    false
}


// ---------------------------------------------------------------------------
// Extracting claims.

pub open spec fn command_claim_of(
    acc: Seq<(bool, Seq<char>)>,
    span: Seq<char>,
    configured: Seq<String>,
) -> Seq<(bool, Seq<char>)> {
    match normalized(span) {
        Some(c) => if is_quality_gate_command(c, configured) {
            acc.push((false, c))
        } else {
            acc
        },
        None => acc,
    }
}

/// The backticked spans of a line, in order, each configured command
/// claimed; stops (`true`) once the claim limit is reached.
pub open spec fn command_pass(
    acc: Seq<(bool, Seq<char>)>,
    parts: Seq<Seq<char>>,
    p: nat,
    configured: Seq<String>,
) -> (Seq<(bool, Seq<char>)>, bool)
    decreases parts.len() - 2 * p,
{
    if 2 * p + 1 >= parts.len() {
        (acc, false)
    } else {
        let next = command_claim_of(acc, parts[(2 * p + 1) as int], configured);
        if next.len() >= MAX_CLAIMS {
            (next, true)
        } else {
            command_pass(next, parts, p + 1, configured)
        }
    }
}

/// The claims one line adds: only a success line that is not merely
/// descriptive asserts anything.
pub open spec fn line_claims(
    acc: Seq<(bool, Seq<char>)>,
    line: Seq<char>,
    configured: Seq<String>,
) -> (Seq<(bool, Seq<char>)>, bool) {
    if !success_line(line) || is_non_assertive(line) {
        (acc, false)
    } else {
        let (a, stop) = command_pass(acc, split_char(line, '`'), 0, configured);
        if stop {
            (a, true)
        } else if asserts_tests_passed(line) && !a.contains((true, Seq::<char>::empty())) {
            (a.push((true, Seq::<char>::empty())), false)
        } else {
            (a, false)
        }
    }
}

pub open spec fn text_pass(
    acc: Seq<(bool, Seq<char>)>,
    ls: Seq<Seq<char>>,
    i: nat,
    configured: Seq<String>,
) -> Seq<(bool, Seq<char>)>
    decreases ls.len() - i,
{
    if i >= ls.len() {
        acc
    } else {
        let (a, stop) = line_claims(acc, ls[i as int], configured);
        if stop {
            a
        } else {
            text_pass(a, ls, i + 1, configured)
        }
    }
}

/// The claims a text block adds, line by line.
pub open spec fn text_claims(
    acc: Seq<(bool, Seq<char>)>,
    text: Seq<char>,
    configured: Seq<String>,
) -> Seq<(bool, Seq<char>)> {
    text_pass(acc, lines(text), 0, configured)
}

fn has_tests_claim(claims: &Vec<Claim>) -> (r: bool)
    ensures
        r == claim_views(claims@).contains((true, Seq::<char>::empty())),
{
    let mut k: usize = 0;
    while k < claims.len()
        invariant
            k <= claims.len(),
            forall|j: int| 0 <= j < k ==> claim_views(claims@)[j] != (true, Seq::<char>::empty()),
        decreases claims.len() - k,
    {
        match &claims[k] {
            Claim::TestsPassed => {
                assert(claim_views(claims@)[k as int] == (true, Seq::<char>::empty()));
                return true;
            },
            Claim::Command(_) => {},
        }
        k += 1;
    }
    false
}

#[verifier::loop_isolation(false)]
fn line_pass(claims: &mut Vec<Claim>, line: &[char], configured: &[String]) -> (stop: bool)
    ensures
        (claim_views(final(claims)@), stop) == line_claims(
            claim_views(old(claims)@),
            line@,
            configured@,
        ),
{
    if !success_line_exec(line) || is_non_assertive_exec(line) {
        return false;
    }
    let parts = split_char_exec(line, '`');
    let ghost start = claim_views(claims@);
    let mut p: usize = 0;
    while p < parts.len() / 2
        invariant
            deep(parts@) == split_char(line@, '`'),
            p <= parts.len() / 2,
            command_pass(start, deep(parts@), 0, configured@) == command_pass(
                claim_views(claims@),
                deep(parts@),
                p as nat,
                configured@,
            ),
            claims@.len() < MAX_CLAIMS || p == 0,
        decreases parts.len() - 2 * p,
    {
        let span = string_of(parts[2 * p + 1].as_slice());
        assert(deep(parts@)[2 * p + 1] == parts@[2 * p + 1]@);
        let ghost before = claim_views(claims@);
        match normalize(span.as_str()) {
            Some(c) => {
                if is_quality_gate_command_exec(c.as_str(), configured) {
                    claims.push(Claim::Command(c));
                    assert(claim_views(claims@) =~= before.push(claim_view(claims@.last())));
                }
            },
            None => {},
        }
        if claims.len() >= MAX_CLAIMS {
            return true;
        }
        p += 1;
    }
    if asserts_tests_passed_exec(line) && !has_tests_claim(claims) {
        let ghost before = claim_views(claims@);
        claims.push(Claim::TestsPassed);
        assert(claim_views(claims@) =~= before.push((true, Seq::<char>::empty())));
    }
    false
}

/// Adds the claims of one text block.
#[verifier::loop_isolation(false)]
pub fn extract_text_claims(text: &str, claims: &mut Vec<Claim>, configured: &[String])
    ensures
        claim_views(final(claims)@) == text_claims(claim_views(old(claims)@), text@, configured@),
{
    let c = chars_of(text);
    let ls = lines_exec(c.as_slice());
    let ghost start = claim_views(claims@);
    let mut i: usize = 0;
    while i < ls.len()
        invariant
            deep(ls@) == lines(text@),
            i <= ls.len(),
            text_pass(start, deep(ls@), 0, configured@) == text_pass(
                claim_views(claims@),
                deep(ls@),
                i as nat,
                configured@,
            ),
        decreases ls.len() - i,
    {
        assert(deep(ls@)[i as int] == ls@[i as int]@);
        if line_pass(claims, ls[i].as_slice(), configured) {
            return;
        }
        i += 1;
    }
}

// ---------------------------------------------------------------------------
// The transcript.

pub open spec fn field(v: JsonValue, key: Seq<char>) -> Option<JsonValue> {
    match v {
        JsonValue::Object(o) => member(o@, key),
        _ => None,
    }
}

pub open spec fn text_field(v: JsonValue, key: Seq<char>) -> Option<Seq<char>> {
    match field(v, key) {
        Some(JsonValue::String(s)) => Some(s@),
        _ => None,
    }
}

fn get_field<'a>(v: &'a JsonValue, key: &str) -> (r: Option<&'a JsonValue>)
    ensures
        match r {
            Some(x) => field(*v, key@) == Some(*x),
            None => field(*v, key@) is None,
        },
{
    match v {
        JsonValue::Object(o) => get(o, key),
        _ => None,
    }
}

fn text_field_is(v: &JsonValue, key: &str, expected: &str) -> (r: bool)
    ensures
        r == (text_field(*v, key@) == Some(expected@)),
{
    match get_field(v, key) {
        Some(JsonValue::String(s)) => crate::text::same_text(s.as_str(), expected),
        _ => false,
    }
}

/// The last entry of type `assistant`.
pub open spec fn last_assistant(entries: Seq<JsonValue>) -> Option<JsonValue>
    decreases entries.len(),
{
    if entries.len() == 0 {
        None
    } else if text_field(entries.last(), "type"@) == Some("assistant"@) {
        Some(entries.last())
    } else {
        last_assistant(entries.drop_last())
    }
}

/// The texts of the text blocks among `blocks`.
pub open spec fn block_texts(blocks: Seq<JsonValue>) -> Seq<Seq<char>>
    decreases blocks.len(),
{
    if blocks.len() == 0 {
        seq![]
    } else {
        let b = blocks.last();
        if text_field(b, "type"@) == Some("text"@) && text_field(b, "text"@) is Some {
            block_texts(blocks.drop_last()).push(text_field(b, "text"@)->0)
        } else {
            block_texts(blocks.drop_last())
        }
    }
}

pub open spec fn texts_pass(
    acc: Seq<(bool, Seq<char>)>,
    texts: Seq<Seq<char>>,
    i: nat,
    configured: Seq<String>,
) -> Seq<(bool, Seq<char>)>
    decreases texts.len() - i,
{
    if i >= texts.len() {
        acc
    } else {
        let a = text_claims(acc, texts[i as int], configured);
        if a.len() >= MAX_CLAIMS {
            a
        } else {
            texts_pass(a, texts, i + 1, configured)
        }
    }
}

/// The claims of a transcript, one entry per non-blank line (`None` for a
/// line that is not JSON): the last assistant entry's text blocks, in order,
/// at most the claim limit.
pub open spec fn transcript_claims(entries: Seq<Option<JsonValue>>, configured: Seq<String>) -> Result<
    Seq<(bool, Seq<char>)>,
    Seq<char>,
> {
    if exists|k: int| 0 <= k < entries.len() && (#[trigger] entries[k]) is None {
        Err("Transcript JSONL is malformed."@)
    } else {
        match last_assistant(entries.map_values(|e: Option<JsonValue>| e->0)) {
            None => Err("Transcript has no assistant entry."@),
            Some(last) => match field(last, "message"@) {
                Some(m) => match field(m, "content"@) {
                    Some(JsonValue::Array(blocks)) => {
                        let all = texts_pass(seq![], block_texts(blocks@), 0, configured);
                        Ok(
                            if all.len() > MAX_CLAIMS {
                                all.take(MAX_CLAIMS as int)
                            } else {
                                all
                            },
                        )
                    },
                    _ => Err("Last assistant entry has malformed content."@),
                },
                None => Err("Last assistant entry has malformed content."@),
            },
        }
    }
}

/// The non-blank lines of a transcript.
pub fn transcript_lines(raw: &str) -> (r: Vec<String>)
    ensures
        views(r@) == lines(raw@).filter(|l: Seq<char>| trim(l).len() > 0),
{
    let c = chars_of(raw);
    let ls = lines_exec(c.as_slice());
    let ghost keep = |l: Seq<char>| trim(l).len() > 0;
    let mut out: Vec<String> = Vec::new();
    let mut i: usize = 0;
    proof {
        reveal(Seq::filter);
        assert(deep(ls@).take(0).filter(keep) =~= Seq::<Seq<char>>::empty());
    }
    while i < ls.len()
        invariant
            deep(ls@) == lines(raw@),
            i <= ls.len(),
            keep == (|l: Seq<char>| trim(l).len() > 0),
            views(out@) == deep(ls@).take(i as int).filter(keep),
        decreases ls.len() - i,
    {
        proof {
            reveal(Seq::filter);
            assert(deep(ls@).take(i + 1).drop_last() =~= deep(ls@).take(i as int));
            assert(deep(ls@)[i as int] == ls@[i as int]@);
        }
        if trim_exec(ls[i].as_slice()).len() > 0 {
            let ghost before = views(out@);
            out.push(string_of(ls[i].as_slice()));
            assert(views(out@) =~= before.push(out@.last()@));
        }
        i += 1;
    }
    assert(deep(ls@).take(ls.len() as int) =~= deep(ls@));
    out
}


fn find_last_assistant<'a>(entries: &'a Vec<JsonValue>) -> (r: Option<&'a JsonValue>)
    ensures
        match r {
            Some(v) => last_assistant(entries@) == Some(*v),
            None => last_assistant(entries@) is None,
        },
{
    let mut i: usize = entries.len();
    assert(entries@.take(i as int) =~= entries@);
    while i > 0
        invariant
            i <= entries.len(),
            last_assistant(entries@) == last_assistant(entries@.take(i as int)),
        decreases i,
    {
        assert(entries@.take(i as int).drop_last() =~= entries@.take(i - 1));
        assert(entries@.take(i as int).last() == entries@[i - 1]);
        if text_field_is(&entries[i - 1], "type", "assistant") {
            return Some(&entries[i - 1]);
        }
        i -= 1;
    }
    None
}

fn collect_block_texts(blocks: &Vec<JsonValue>) -> (r: Vec<String>)
    ensures
        views(r@) == block_texts(blocks@),
{
    let mut out: Vec<String> = Vec::new();
    let mut i: usize = 0;
    assert(blocks@.take(0) =~= Seq::<JsonValue>::empty());
    while i < blocks.len()
        invariant
            i <= blocks.len(),
            views(out@) == block_texts(blocks@.take(i as int)),
        decreases blocks.len() - i,
    {
        assert(blocks@.take(i + 1).drop_last() =~= blocks@.take(i as int));
        assert(blocks@.take(i + 1).last() == blocks@[i as int]);
        if text_field_is(&blocks[i], "type", "text") {
            match get_field(&blocks[i], "text") {
                Some(JsonValue::String(t)) => {
                    let ghost before = views(out@);
                    out.push(t.clone());
                    assert(views(out@) =~= before.push(t@));
                },
                _ => {},
            }
        }
        i += 1;
    }
    assert(blocks@.take(blocks.len() as int) =~= blocks@);
    out
}

/// The claims of a parsed transcript; see `transcript_claims`.
#[verifier::loop_isolation(false)]
pub fn parse_claims(entries: Vec<Option<JsonValue>>, configured: &[String]) -> (r: Result<
    Vec<Claim>,
    String,
>)
    ensures
        match (r, transcript_claims(entries@, configured@)) {
            (Ok(c), Ok(v)) => claim_views(c@) == v,
            (Err(e), Err(m)) => e@ == m,
            _ => false,
        },
{
    let ghost original = entries@;
    let mut parsed: Vec<JsonValue> = Vec::new();
    let mut entries = entries;
    let mut k: usize = 0;
    let n = entries.len();
    while k < n
        invariant
            n == original.len(),
            k <= n,
            entries@.len() + k == n,
            forall|j: int| 0 <= j < entries@.len() ==> entries@[j] == original[k + j],
            parsed@.len() == k,
            forall|j: int| 0 <= j < k ==> (#[trigger] original[j]) == Some(parsed@[j]),
        decreases n - k,
    {
        let first = entries.remove(0);
        match first {
            Some(v) => parsed.push(v),
            None => {
                assert(original[k as int] is None);
                return Err(String::from_str("Transcript JSONL is malformed."));
            },
        }
        k += 1;
    }
    assert(parsed@ =~= original.map_values(|e: Option<JsonValue>| e->0));
    assert(!(exists|j: int| 0 <= j < original.len() && (#[trigger] original[j]) is None));
    let last = match find_last_assistant(&parsed) {
        Some(v) => v,
        None => return Err(String::from_str("Transcript has no assistant entry.")),
    };
    let blocks = match get_field(last, "message") {
        Some(m) => match get_field(m, "content") {
            Some(JsonValue::Array(b)) => b,
            _ => return Err(String::from_str("Last assistant entry has malformed content.")),
        },
        None => return Err(String::from_str("Last assistant entry has malformed content.")),
    };
    let texts = collect_block_texts(blocks);
    let mut claims: Vec<Claim> = Vec::new();
    let ghost all = texts_pass(seq![], block_texts(blocks@), 0, configured@);
    let mut i: usize = 0;
    assert(claim_views(claims@) =~= Seq::<(bool, Seq<char>)>::empty());
    while i < texts.len()
        invariant
            views(texts@) == block_texts(blocks@),
            i <= texts.len(),
            all == texts_pass(claim_views(claims@), views(texts@), i as nat, configured@),
            claims@.len() < MAX_CLAIMS,
        decreases texts.len() - i,
    {
        assert(views(texts@)[i as int] == texts@[i as int]@);
        extract_text_claims(texts[i].as_str(), &mut claims, configured);
        if claims.len() >= MAX_CLAIMS {
            break;
        }
        i += 1;
    }
    if claims.len() > MAX_CLAIMS {
        claims.truncate(MAX_CLAIMS);
    }
    assert(claim_views(claims@) =~= (if all.len() > MAX_CLAIMS {
        all.take(MAX_CLAIMS as int)
    } else {
        all
    }));
    Ok(claims)
}


// ---------------------------------------------------------------------------
// Proof by evidence.

/// A word naming a test runner: `test`, `pytest`, or a name ending in
/// `-test` or `_test`, judged by its final path component.
pub open spec fn is_test_argument(a: Seq<char>) -> bool {
    let exe = match basename(a) {
        Some(b) => b,
        None => a,
    };
    exe == "test"@ || exe == "pytest"@ || exe == "pytest.exe"@ || crate::text::ends_with(
        exe,
        "-test"@,
    ) || crate::text::ends_with(exe, "_test"@)
}

pub fn is_test_argument_exec(a: &[char]) -> (r: bool)
    ensures
        r == is_test_argument(a@),
{
    let exe = match basename_exec(a) {
        Some(b) => b,
        None => crate::text::copy_chars(a),
    };
    let e = exe.as_slice();
    same_chars(e, "test") || same_chars(e, "pytest") || same_chars(e, "pytest.exe")
        || crate::text::ends_with_str(e, "-test") || crate::text::ends_with_str(e, "_test")
}

/// A claim is proven by evidence of a command that exited 0: the claimed
/// command itself (compared in normal form), or for a tests claim any
/// command with a test-runner word.
pub open spec fn proven(c: (bool, Seq<char>), evidence: Seq<CommandEvidence>) -> bool {
    if !c.0 {
        exists|k: int|
            0 <= k < evidence.len() && (#[trigger] evidence[k]).exit_code == Some(0i32)
                && normalized(evidence[k].command@) == Some(c.1)
    } else {
        exists|k: int|
            0 <= k < evidence.len() && (#[trigger] evidence[k]).exit_code == Some(0i32)
                && normalized(evidence[k].command@) is Some && (exists|w: int|
                0 <= w < words(normalized(evidence[k].command@)->0).len() && is_test_argument(
                    #[trigger] words(normalized(evidence[k].command@)->0)[w],
                ))
    }
}

fn has_test_word(n: &str) -> (r: bool)
    ensures
        r == exists|w: int| 0 <= w < words(n@).len() && is_test_argument(#[trigger] words(n@)[w]),
{
    let c = chars_of(n);
    let ws = words_exec(c.as_slice());
    let mut i: usize = 0;
    while i < ws.len()
        invariant
            deep(ws@) == words(n@),
            i <= ws.len(),
            forall|w: int| 0 <= w < i ==> !is_test_argument(#[trigger] words(n@)[w]),
        decreases ws.len() - i,
    {
        assert(deep(ws@)[i as int] == ws@[i as int]@);
        if is_test_argument_exec(ws[i].as_slice()) {
            assert(is_test_argument(words(n@)[i as int]));
            return true;
        }
        i += 1;
    }
    false
}

pub fn is_proven(claim: &Claim, evidence: &[CommandEvidence]) -> (r: bool)
    ensures
        r == proven(claim_view(*claim), evidence@),
{
    let mut k: usize = 0;
    while k < evidence.len()
        invariant
            k <= evidence.len(),
            forall|j: int|
                0 <= j < k ==> !((#[trigger] evidence@[j]).exit_code == Some(0i32) && match *claim {
                    Claim::Command(c) => normalized(evidence@[j].command@) == Some(c@),
                    Claim::TestsPassed => normalized(evidence@[j].command@) is Some && (exists|
                        w: int,
                    |
                        0 <= w < words(normalized(evidence@[j].command@)->0).len()
                            && is_test_argument(
                            #[trigger] words(normalized(evidence@[j].command@)->0)[w],
                        )),
                }),
        decreases evidence.len() - k,
    {
        let item = &evidence[k];
        if item.exit_code == Some(0i32) {
            match normalize(item.command.as_str()) {
                Some(n) => {
                    match claim {
                        Claim::Command(c) => {
                            if crate::text::same_text(n.as_str(), c.as_str()) {
                                assert(evidence@[k as int].exit_code == Some(0i32)
                                    && normalized(evidence@[k as int].command@) == Some(c@));
                                assert(claim_view(*claim) == (false, c@));
                                assert(proven((false, c@), evidence@));
                                return true;
                            }
                        },
                        Claim::TestsPassed => {
                            if has_test_word(n.as_str()) {
                                let ghost m = normalized(evidence@[k as int].command@)->0;
                                assert(m == n@);
                                let ghost w = choose|w: int|
                                    0 <= w < words(m).len() && is_test_argument(
                                        #[trigger] words(m)[w],
                                    );
                                assert(0 <= w < words(normalized(evidence@[k as int].command@)->0).len()
                                    && is_test_argument(
                                    words(normalized(evidence@[k as int].command@)->0)[w],
                                ));
                                assert(claim_view(*claim) == (true, Seq::<char>::empty()));
                                return true;
                            }
                        },
                    }
                },
                None => {},
            }
        }
        k += 1;
    }
    false
}

/// How a claim is described in the result's evidence.
pub open spec fn descriptor_text(c: (bool, Seq<char>)) -> Seq<char> {
    if c.0 {
        "generic tests-passed claim"@
    } else {
        "command `"@ + (if c.1.len() > 200 {
            c.1.take(200)
        } else {
            c.1
        }) + "`"@
    }
}

pub fn descriptor(claim: &Claim) -> (r: String)
    ensures
        r@ == descriptor_text(claim_view(*claim)),
{
    match claim {
        Claim::Command(c) => {
            let mut chars = chars_of(c.as_str());
            if chars.len() > 200 {
                chars.truncate(200);
            }
            let shown = string_of(chars.as_slice());
            crate::text::concat3("command `", shown.as_str(), "`")
        },
        Claim::TestsPassed => String::from_str("generic tests-passed claim"),
    }
}

pub open spec fn is_claims_outcome(
    r: EnforcementResult,
    status: Status,
    message: Seq<char>,
    descriptors: Seq<Seq<char>>,
) -> bool {
    &&& r.rule_id@ == "evidence-claims-honest"@
    &&& r.status == status
    &&& r.severity == Severity::Error
    &&& r.message@ == message
    &&& r.locations@.len() == 0
    &&& (if status == Status::Failed {
        r.remediation matches Some(m) && m@
            == "Run the claimed command successfully during Stop, or correct the claim."@
    } else {
        r.remediation is None
    })
    &&& r.evidence.check@ == "transcript.claims"@
    &&& r.evidence.tool_version is None
    &&& views(r.evidence.finding_descriptions@) == descriptors
}

pub fn outcome(status: Status, message: &str, descriptors: Vec<String>) -> (r: EnforcementResult)
    ensures
        is_claims_outcome(r, status, message@, views(descriptors@)),
{
    EnforcementResult {
        rule_id: String::from_str("evidence-claims-honest"),
        status,
        severity: Severity::Error,
        message: String::from_str(message),
        locations: Vec::new(),
        remediation: if status == Status::Failed {
            Some(
                String::from_str(
                    "Run the claimed command successfully during Stop, or correct the claim.",
                ),
            )
        } else {
            None
        },
        evidence: ResultEvidence {
            check: String::from_str("transcript.claims"),
            tool_version: None,
            finding_descriptions: descriptors,
        },
    }
}

/// The verdict on a transcript's claims. `claims` is `None` when no
/// transcript was given, else what reading it produced.
pub open spec fn claims_verdict(
    claims: Option<Result<Seq<(bool, Seq<char>)>, Seq<char>>>,
    evidence: Seq<CommandEvidence>,
) -> (Status, Seq<char>, Seq<Seq<char>>) {
    match claims {
        None => (Status::Unverified, "Transcript path is missing."@, seq![]),
        Some(Err(reason)) => (Status::Unverified, reason, seq![]),
        Some(Ok(cs)) => if cs.len() == 0 {
            (
                Status::NotApplicable,
                "No verification claims were found in the last assistant message."@,
                seq![],
            )
        } else if forall|k: int| 0 <= k < cs.len() ==> proven(#[trigger] cs[k], evidence) {
            (
                Status::Passed,
                "Every repository quality-gate claim has matching current Stop command evidence."@,
                cs.map_values(|c: (bool, Seq<char>)| descriptor_text(c)),
            )
        } else {
            (
                Status::Failed,
                "A verification claim lacks matching current Stop command evidence with exit status 0."@,
                cs.map_values(|c: (bool, Seq<char>)| descriptor_text(c)),
            )
        },
    }
}

/// Judges the claims of the agent's last message against the evidence of
/// the commands that ran.
pub fn evaluate(claims: Option<Result<Vec<Claim>, String>>, evidence: &[CommandEvidence]) -> (r:
    EnforcementResult)
    ensures
        ({
            let v = claims_verdict(
                match claims {
                    None => None,
                    Some(Err(e)) => Some(Err(e@)),
                    Some(Ok(c)) => Some(Ok(claim_views(c@))),
                },
                evidence@,
            );
            is_claims_outcome(r, v.0, v.1, v.2)
        }),
{
    let none: Vec<String> = Vec::new();
    assert(views(none@) =~= Seq::<Seq<char>>::empty());
    let cs = match claims {
        None => return outcome(Status::Unverified, "Transcript path is missing.", none),
        Some(Err(reason)) => return outcome(Status::Unverified, reason.as_str(), none),
        Some(Ok(cs)) => cs,
    };
    if cs.len() == 0 {
        return outcome(
            Status::NotApplicable,
            "No verification claims were found in the last assistant message.",
            none,
        );
    }
    let mut descriptors: Vec<String> = Vec::new();
    let mut all = true;
    let mut k: usize = 0;
    while k < cs.len()
        invariant
            k <= cs.len(),
            descriptors@.len() == k,
            forall|j: int| 0 <= j < k ==> (#[trigger] descriptors@[j])@ == descriptor_text(claim_views(cs@)[j]),
            all == (forall|j: int| 0 <= j < k ==> proven(#[trigger] claim_views(cs@)[j], evidence@)),
        decreases cs.len() - k,
    {
        descriptors.push(descriptor(&cs[k]));
        let p = is_proven(&cs[k], evidence);
        assert(claim_views(cs@)[k as int] == claim_view(cs@[k as int]));
        all = all && p;
        k += 1;
    }
    assert(views(descriptors@) =~= claim_views(cs@).map_values(
        |c: (bool, Seq<char>)| descriptor_text(c),
    ));
    if all {
        outcome(
            Status::Passed,
            "Every repository quality-gate claim has matching current Stop command evidence.",
            descriptors,
        )
    } else {
        outcome(
            Status::Failed,
            "A verification claim lacks matching current Stop command evidence with exit status 0.",
            descriptors,
        )
    }
}

/// What a transcript line parses into, if it is JSON.
pub open spec fn line_entry(line: Seq<char>) -> Option<JsonValue> {
    match json_parsed(line) {
        Ok(v) => Some(v),
        Err(_) => None,
    }
}

/// The entries of a transcript: each non-blank line parsed with `serde_json`.
pub open spec fn transcript_entries(raw: Seq<char>) -> Seq<Option<JsonValue>> {
    lines(raw).filter(|l: Seq<char>| trim(l).len() > 0).map_values(|l: Seq<char>| line_entry(l))
}

/// The claims a transcript's text makes: its non-blank lines are parsed
/// with `serde_json` and read as `parse_claims` reads them.
pub fn claims_of_transcript(raw: &str, configured: &[String]) -> (r: Result<Vec<Claim>, String>)
    ensures
        match (r, transcript_claims(transcript_entries(raw@), configured@)) {
            (Ok(c), Ok(v)) => claim_views(c@) == v,
            (Err(e), Err(m)) => e@ == m,
            _ => false,
        },
{
    let ls = transcript_lines(raw);
    let mut entries: Vec<Option<JsonValue>> = Vec::new();
    let mut i: usize = 0;
    while i < ls.len()
        invariant
            i <= ls.len(),
            entries@.len() == i,
            forall|k: int| 0 <= k < i ==> #[trigger] entries@[k] == line_entry(ls@[k]@),
        decreases ls.len() - i,
    {
        let e = match parse_json(ls[i].as_str()) {
            Ok(v) => Some(v),
            Err(_) => None,
        };
        entries.push(e);
        i += 1;
    }
    assert(entries@ =~= transcript_entries(raw@)) by {
        assert(views(ls@) =~= lines(raw@).filter(|l: Seq<char>| trim(l).len() > 0));
        assert forall|k: int| 0 <= k < entries@.len() implies entries@[k] == transcript_entries(raw@)[k] by {
            assert(views(ls@)[k] == ls@[k]@);
        }
    }
    parse_claims(entries, configured)
}

/// The words that name a test runner: by their final path component (or the
/// whole word when it has none), exactly `test`, `pytest` and `pytest.exe`
/// and any name ending in `-test` or `_test`.
pub proof fn law_test_runner_words(a: Seq<char>)
    ensures
        ({
            let exe = match basename(a) {
                Some(b) => b,
                None => a,
            };
            is_test_argument(a) == (exe == "test"@ || exe == "pytest"@ || exe == "pytest.exe"@
                || crate::text::ends_with(exe, "-test"@) || crate::text::ends_with(exe, "_test"@))
        }),
{
}

/// A tests-passed claim is proven by any recorded command that exited 0 and
/// names a test runner among its words: `pytest`, `test`, `pytest.exe`, or a
/// name ending in `-test` or `_test`, by its final path component.
pub proof fn law_test_runner_proves_tests_passed(evidence: Seq<CommandEvidence>, k: int, w: int, anything: Seq<char>)
    requires
        0 <= k < evidence.len(),
        evidence[k].exit_code == Some(0i32),
        normalized(evidence[k].command@) is Some,
        0 <= w < words(normalized(evidence[k].command@)->0).len(),
        ({
            let word = words(normalized(evidence[k].command@)->0)[w];
            let exe = match basename(word) {
                Some(b) => b,
                None => word,
            };
            exe == "pytest"@ || exe == "test"@ || exe == "pytest.exe"@ || crate::text::ends_with(exe, "-test"@)
                || crate::text::ends_with(exe, "_test"@)
        }),
    ensures
        proven((true, anything), evidence),
{
    assert(is_test_argument(words(normalized(evidence[k].command@)->0)[w]));
}

} // verus!
