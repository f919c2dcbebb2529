//! Reading a V2 configuration document out of parsed JSON.
//!
//! The document is an object with exactly the fields `version`, `profile`,
//! `workspaces`, `disabled_rules` and `severity_overrides`. A workspace,
//! command or coverage command is an object whose listed fields must be
//! present with the right type (a workspace's `coverage` may be left out,
//! and a coverage threshold may be left out or `null`); other fields of
//! those objects are ignored. Fields are checked in the order they are
//! listed, and the first that fails names the error.

use vstd::prelude::*;

use crate::config_v2::{is_text, text_of, ConfigV2, ConfigV2Error};
use crate::discovery::{CommandSpec, CoverageSpec, Workspace};
use crate::json::{get, member, JsonValue};
use crate::text::{concat3, first_some, lemma_first_some_all, lemma_first_some_prefix, lemma_first_some_step, same_text};

verus! {

pub open spec fn missing(f: Seq<char>) -> Seq<char> {
    "missing field `"@ + f + "`"@
}

pub open spec fn invalid(f: Seq<char>) -> Seq<char> {
    "invalid type for field `"@ + f + "`"@
}

pub open spec fn unknown(f: Seq<char>) -> Seq<char> {
    "unknown field `"@ + f + "`"@
}

/// The first of two problems.
pub open spec fn or(a: Option<Seq<char>>, b: Option<Seq<char>>) -> Option<Seq<char>> {
    if a is Some {
        a
    } else {
        b
    }
}

/// A required string field.
pub open spec fn text_problem(o: Seq<(String, JsonValue)>, f: Seq<char>) -> Option<Seq<char>> {
    match member(o, f) {
        None => Some(missing(f)),
        Some(JsonValue::String(_)) => None,
        Some(_) => Some(invalid(f)),
    }
}

/// A required non-negative integer field that fits in `u64`.
pub open spec fn count_problem(o: Seq<(String, JsonValue)>, f: Seq<char>) -> Option<Seq<char>> {
    match member(o, f) {
        None => Some(missing(f)),
        Some(JsonValue::Number(Some(_), _)) => None,
        Some(_) => Some(invalid(f)),
    }
}

/// A required array of strings.
pub open spec fn texts_problem(o: Seq<(String, JsonValue)>, f: Seq<char>) -> Option<Seq<char>> {
    match member(o, f) {
        None => Some(missing(f)),
        Some(JsonValue::Array(items)) => if forall|k: int| 0 <= k < items@.len() ==> is_text(#[trigger] items@[k]) {
            None
        } else {
            Some(invalid(f))
        },
        Some(_) => Some(invalid(f)),
    }
}

/// An optional percentage: absent, `null`, or an integer up to 255.
pub open spec fn percent_problem(o: Seq<(String, JsonValue)>, f: Seq<char>) -> Option<Seq<char>> {
    match member(o, f) {
        None => None,
        Some(JsonValue::Null) => None,
        Some(JsonValue::Number(Some(n), _)) => if n <= 255 {
            None
        } else {
            Some(invalid(f))
        },
        Some(_) => Some(invalid(f)),
    }
}

pub open spec fn text_at(o: Seq<(String, JsonValue)>, f: Seq<char>) -> Seq<char> {
    text_of(member(o, f)->0)
}

pub open spec fn count_at(o: Seq<(String, JsonValue)>, f: Seq<char>) -> u64 {
    match member(o, f) {
        Some(JsonValue::Number(Some(n), _)) => n,
        _ => 0,
    }
}

pub open spec fn texts_at(o: Seq<(String, JsonValue)>, f: Seq<char>) -> Seq<Seq<char>> {
    match member(o, f) {
        Some(JsonValue::Array(items)) => items@.map_values(|v: JsonValue| text_of(v)),
        _ => seq![],
    }
}

pub open spec fn percent_at(o: Seq<(String, JsonValue)>, f: Seq<char>) -> Option<u8> {
    match member(o, f) {
        Some(JsonValue::Number(Some(n), _)) => Some(n as u8),
        _ => None,
    }
}

pub open spec fn texts_view(v: Seq<String>) -> Seq<Seq<char>> {
    v.map_values(|s: String| s@)
}

/// Why a value is not a command, if it is not.
pub open spec fn command_problem(v: JsonValue) -> Option<Seq<char>> {
    match v {
        JsonValue::Object(o) => or(
            texts_problem(o@, "argv"@),
            or(
                text_problem(o@, "cwd"@),
                or(
                    count_problem(o@, "timeout_seconds"@),
                    or(
                        text_problem(o@, "tier"@),
                        or(
                            text_problem(o@, "purpose"@),
                            or(text_problem(o@, "source"@), text_problem(o@, "confidence"@)),
                        ),
                    ),
                ),
            ),
        ),
        _ => Some("invalid type: expected a command object"@),
    }
}

/// The command a value holds.
pub open spec fn command_read(v: JsonValue, c: CommandSpec) -> bool {
    &&& v is Object
    &&& texts_view(c.argv@) == texts_at(v->Object_0@, "argv"@)
    &&& c.cwd@ == text_at(v->Object_0@, "cwd"@)
    &&& c.timeout_seconds == count_at(v->Object_0@, "timeout_seconds"@)
    &&& c.tier@ == text_at(v->Object_0@, "tier"@)
    &&& c.purpose@ == text_at(v->Object_0@, "purpose"@)
    &&& c.source@ == text_at(v->Object_0@, "source"@)
    &&& c.confidence@ == text_at(v->Object_0@, "confidence"@)
}

/// Why a value is not a coverage command, if it is not.
pub open spec fn coverage_problem(v: JsonValue) -> Option<Seq<char>> {
    match v {
        JsonValue::Object(o) => or(
            texts_problem(o@, "argv"@),
            or(
                text_problem(o@, "cwd"@),
                or(
                    count_problem(o@, "timeout_seconds"@),
                    or(
                        text_problem(o@, "scope"@),
                        or(
                            percent_problem(o@, "line_threshold_percent"@),
                            percent_problem(o@, "branch_threshold_percent"@),
                        ),
                    ),
                ),
            ),
        ),
        _ => Some("invalid type: expected a coverage object"@),
    }
}

/// The coverage command a value holds.
pub open spec fn coverage_read(v: JsonValue, c: CoverageSpec) -> bool {
    &&& v is Object
    &&& texts_view(c.argv@) == texts_at(v->Object_0@, "argv"@)
    &&& c.cwd@ == text_at(v->Object_0@, "cwd"@)
    &&& c.timeout_seconds == count_at(v->Object_0@, "timeout_seconds"@)
    &&& c.scope@ == text_at(v->Object_0@, "scope"@)
    &&& c.line_threshold_percent == percent_at(v->Object_0@, "line_threshold_percent"@)
    &&& c.branch_threshold_percent == percent_at(v->Object_0@, "branch_threshold_percent"@)
}

/// The first problem among the items of an array field (absent counts as
/// empty when `optional`).
pub open spec fn items_problem(
    o: Seq<(String, JsonValue)>,
    f: Seq<char>,
    optional: bool,
    p: spec_fn(JsonValue) -> Option<Seq<char>>,
) -> Option<Seq<char>> {
    match member(o, f) {
        None => if optional {
            None
        } else {
            Some(missing(f))
        },
        Some(JsonValue::Array(items)) => first_some(items@, p),
        Some(_) => Some(invalid(f)),
    }
}

pub open spec fn items_at(o: Seq<(String, JsonValue)>, f: Seq<char>) -> Seq<JsonValue> {
    match member(o, f) {
        Some(JsonValue::Array(items)) => items@,
        _ => seq![],
    }
}

/// Why a value is not a workspace, if it is not.
pub open spec fn workspace_problem(v: JsonValue) -> Option<Seq<char>> {
    match v {
        JsonValue::Object(o) => or(
            text_problem(o@, "id"@),
            or(
                text_problem(o@, "language"@),
                or(
                    text_problem(o@, "root"@),
                    or(
                        items_problem(o@, "commands"@, false, |c: JsonValue| command_problem(c)),
                        items_problem(o@, "coverage"@, true, |c: JsonValue| coverage_problem(c)),
                    ),
                ),
            ),
        ),
        _ => Some("invalid type: expected a workspace object"@),
    }
}

/// The workspace a value holds.
pub open spec fn workspace_read(v: JsonValue, w: Workspace) -> bool {
    let o = v->Object_0@;
    &&& v is Object
    &&& w.id@ == text_at(o, "id"@)
    &&& w.language@ == text_at(o, "language"@)
    &&& w.root@ == text_at(o, "root"@)
    &&& w.commands@.len() == items_at(o, "commands"@).len()
    &&& forall|k: int| 0 <= k < w.commands@.len() ==> command_read(items_at(o, "commands"@)[k], #[trigger] w.commands@[k])
    &&& w.coverage@.len() == items_at(o, "coverage"@).len()
    &&& forall|k: int| 0 <= k < w.coverage@.len() ==> coverage_read(items_at(o, "coverage"@)[k], #[trigger] w.coverage@[k])
}

/// A member name a V2 document may have.
pub open spec fn known_field(name: Seq<char>) -> bool {
    name == "version"@ || name == "profile"@ || name == "workspaces"@ || name == "disabled_rules"@ || name
        == "severity_overrides"@
}

/// Why an object of strings is not a severity map, if it is not.
pub open spec fn severities_problem(o: Seq<(String, JsonValue)>) -> Option<Seq<char>> {
    match member(o, "severity_overrides"@) {
        None => Some(missing("severity_overrides"@)),
        Some(JsonValue::Object(m)) => if forall|k: int| 0 <= k < m@.len() ==> is_text((#[trigger] m@[k]).1) {
            None
        } else {
            Some(invalid("severity_overrides"@))
        },
        Some(_) => Some(invalid("severity_overrides"@)),
    }
}

/// Why a value is not a V2 document, if it is not.
pub open spec fn config_problem(v: JsonValue) -> Option<Seq<char>> {
    match v {
        JsonValue::Object(o) => or(
            first_some(o@, |e: (String, JsonValue)| if known_field(e.0@) { None } else { Some(unknown(e.0@)) }),
            or(
                text_problem(o@, "version"@),
                or(
                    text_problem(o@, "profile"@),
                    or(
                        items_problem(o@, "workspaces"@, false, |w: JsonValue| workspace_problem(w)),
                        or(texts_problem(o@, "disabled_rules"@), severities_problem(o@)),
                    ),
                ),
            ),
        ),
        _ => Some("invalid type: expected a configuration object"@),
    }
}

/// The V2 document a value holds.
pub open spec fn config_read(v: JsonValue, c: ConfigV2) -> bool {
    let o = v->Object_0@;
    &&& v is Object
    &&& c.version@ == text_at(o, "version"@)
    &&& c.profile@ == text_at(o, "profile"@)
    &&& c.workspaces@.len() == items_at(o, "workspaces"@).len()
    &&& forall|k: int| 0 <= k < c.workspaces@.len() ==> workspace_read(items_at(o, "workspaces"@)[k], #[trigger] c.workspaces@[k])
    &&& texts_view(c.disabled_rules@) == texts_at(o, "disabled_rules"@)
    &&& c.severity_overrides@.map_values(|p: (String, String)| (p.0@, p.1@)) == match member(o, "severity_overrides"@) {
        Some(JsonValue::Object(m)) => m@.map_values(|e: (String, JsonValue)| (e.0@, text_of(e.1))),
        _ => seq![],
    }
}

fn text_field(o: &Vec<(String, JsonValue)>, f: &str) -> (r: Result<String, String>)
    ensures
        match r {
            Ok(s) => text_problem(o@, f@) is None && s@ == text_at(o@, f@),
            Err(e) => text_problem(o@, f@) == Some(e@),
        },
{
    match get(o, f) {
        None => Err(concat3("missing field `", f, "`")),
        Some(JsonValue::String(s)) => Ok(s.clone()),
        Some(_) => Err(concat3("invalid type for field `", f, "`")),
    }
}

fn count_field(o: &Vec<(String, JsonValue)>, f: &str) -> (r: Result<u64, String>)
    ensures
        match r {
            Ok(n) => count_problem(o@, f@) is None && n == count_at(o@, f@),
            Err(e) => count_problem(o@, f@) == Some(e@),
        },
{
    match get(o, f) {
        None => Err(concat3("missing field `", f, "`")),
        Some(JsonValue::Number(Some(n), _)) => Ok(*n),
        Some(_) => Err(concat3("invalid type for field `", f, "`")),
    }
}

fn percent_field(o: &Vec<(String, JsonValue)>, f: &str) -> (r: Result<Option<u8>, String>)
    ensures
        match r {
            Ok(n) => percent_problem(o@, f@) is None && n == percent_at(o@, f@),
            Err(e) => percent_problem(o@, f@) == Some(e@),
        },
{
    match get(o, f) {
        None => Ok(None),
        Some(JsonValue::Null) => Ok(None),
        Some(JsonValue::Number(Some(n), _)) => if *n <= 255 {
            Ok(Some(*n as u8))
        } else {
            Err(concat3("invalid type for field `", f, "`"))
        },
        Some(_) => Err(concat3("invalid type for field `", f, "`")),
    }
}

#[verifier::loop_isolation(false)]
fn texts_field(o: &Vec<(String, JsonValue)>, f: &str) -> (r: Result<Vec<String>, String>)
    ensures
        match r {
            Ok(v) => texts_problem(o@, f@) is None && texts_view(v@) == texts_at(o@, f@),
            Err(e) => texts_problem(o@, f@) == Some(e@),
        },
{
    match get(o, f) {
        None => Err(concat3("missing field `", f, "`")),
        Some(JsonValue::Array(items)) => {
            let mut out: Vec<String> = Vec::new();
            let mut k: usize = 0;
            while k < items.len()
                invariant
                    k <= items.len(),
                    forall|j: int| 0 <= j < k ==> is_text(#[trigger] items@[j]),
                    out@.len() == k,
                    forall|j: int| 0 <= j < k ==> (#[trigger] out@[j])@ == text_of(items@[j]),
                decreases items.len() - k,
            {
                match &items[k] {
                    JsonValue::String(s) => {
                        out.push(s.clone());
                    },
                    _ => {
                        assert(!is_text(items@[k as int]));
                        return Err(concat3("invalid type for field `", f, "`"));
                    },
                }
                k += 1;
            }
            assert(texts_view(out@) =~= items@.map_values(|v: JsonValue| text_of(v)));
            Ok(out)
        },
        Some(_) => Err(concat3("invalid type for field `", f, "`")),
    }
}

/// Reads a command out of a value.
pub fn read_command(v: &JsonValue) -> (r: Result<CommandSpec, String>)
    ensures
        match r {
            Ok(c) => command_problem(*v) is None && command_read(*v, c),
            Err(e) => command_problem(*v) == Some(e@),
        },
{
    match v {
        JsonValue::Object(o) => {
            let argv = texts_field(o, "argv")?;
            let cwd = text_field(o, "cwd")?;
            let timeout_seconds = count_field(o, "timeout_seconds")?;
            let tier = text_field(o, "tier")?;
            let purpose = text_field(o, "purpose")?;
            let source = text_field(o, "source")?;
            let confidence = text_field(o, "confidence")?;
            Ok(CommandSpec { argv, cwd, timeout_seconds, tier, purpose, source, confidence })
        },
        _ => Err(String::from_str("invalid type: expected a command object")),
    }
}

/// Reads a coverage command out of a value.
pub fn read_coverage(v: &JsonValue) -> (r: Result<CoverageSpec, String>)
    ensures
        match r {
            Ok(c) => coverage_problem(*v) is None && coverage_read(*v, c),
            Err(e) => coverage_problem(*v) == Some(e@),
        },
{
    match v {
        JsonValue::Object(o) => {
            let argv = texts_field(o, "argv")?;
            let cwd = text_field(o, "cwd")?;
            let timeout_seconds = count_field(o, "timeout_seconds")?;
            let scope = text_field(o, "scope")?;
            let line_threshold_percent = percent_field(o, "line_threshold_percent")?;
            let branch_threshold_percent = percent_field(o, "branch_threshold_percent")?;
            Ok(CoverageSpec { argv, cwd, timeout_seconds, scope, line_threshold_percent, branch_threshold_percent })
        },
        _ => Err(String::from_str("invalid type: expected a coverage object")),
    }
}

/// Reads each item of an array as a command, stopping at the first that is not.
fn read_commands(items: &Vec<JsonValue>) -> (r: Result<Vec<CommandSpec>, String>)
    ensures
        match r {
            Ok(out) => first_some(items@, |c: JsonValue| command_problem(c)) is None && out@.len() == items@.len()
                && forall|k: int| 0 <= k < out@.len() ==> command_read(items@[k], #[trigger] out@[k]),
            Err(e) => first_some(items@, |c: JsonValue| command_problem(c)) == Some(e@),
        },
{
    let ghost p = |c: JsonValue| command_problem(c);
    let mut out: Vec<CommandSpec> = Vec::new();
    let mut k: usize = 0;
    assert(first_some(items@.take(0), p) is None);
    while k < items.len()
        invariant
            k <= items.len(),
            p == |c: JsonValue| command_problem(c),
            first_some(items@.take(k as int), p) is None,
            out@.len() == k,
            forall|j: int| 0 <= j < k ==> command_read(items@[j], #[trigger] out@[j]),
        decreases items.len() - k,
    {
        proof {
            lemma_first_some_step(items@, p, k as int);
        }
        match read_command(&items[k]) {
            Ok(c) => {
                out.push(c);
            },
            Err(e) => {
                proof {
                    lemma_first_some_prefix(items@, p, k + 1);
                }
                return Err(e);
            },
        }
        k += 1;
    }
    proof {
        lemma_first_some_all(items@, p);
    }
    Ok(out)
}

/// Reads each item of an array as a coverage command, stopping at the first that is not.
fn read_coverages(items: &Vec<JsonValue>) -> (r: Result<Vec<CoverageSpec>, String>)
    ensures
        match r {
            Ok(out) => first_some(items@, |c: JsonValue| coverage_problem(c)) is None && out@.len() == items@.len()
                && forall|k: int| 0 <= k < out@.len() ==> coverage_read(items@[k], #[trigger] out@[k]),
            Err(e) => first_some(items@, |c: JsonValue| coverage_problem(c)) == Some(e@),
        },
{
    let ghost p = |c: JsonValue| coverage_problem(c);
    let mut out: Vec<CoverageSpec> = Vec::new();
    let mut k: usize = 0;
    assert(first_some(items@.take(0), p) is None);
    while k < items.len()
        invariant
            k <= items.len(),
            p == |c: JsonValue| coverage_problem(c),
            first_some(items@.take(k as int), p) is None,
            out@.len() == k,
            forall|j: int| 0 <= j < k ==> coverage_read(items@[j], #[trigger] out@[j]),
        decreases items.len() - k,
    {
        proof {
            lemma_first_some_step(items@, p, k as int);
        }
        match read_coverage(&items[k]) {
            Ok(c) => {
                out.push(c);
            },
            Err(e) => {
                proof {
                    lemma_first_some_prefix(items@, p, k + 1);
                }
                return Err(e);
            },
        }
        k += 1;
    }
    proof {
        lemma_first_some_all(items@, p);
    }
    Ok(out)
}

/// Reads a workspace out of a value.
pub fn read_workspace(v: &JsonValue) -> (r: Result<Workspace, String>)
    ensures
        match r {
            Ok(w) => workspace_problem(*v) is None && workspace_read(*v, w),
            Err(e) => workspace_problem(*v) == Some(e@),
        },
{
    match v {
        JsonValue::Object(o) => {
            let id = text_field(o, "id")?;
            let language = text_field(o, "language")?;
            let root = text_field(o, "root")?;
            let commands = match get(o, "commands") {
                None => return Err(concat3("missing field `", "commands", "`")),
                Some(JsonValue::Array(items)) => read_commands(items)?,
                Some(_) => return Err(concat3("invalid type for field `", "commands", "`")),
            };
            let coverage = match get(o, "coverage") {
                None => Vec::new(),
                Some(JsonValue::Array(items)) => read_coverages(items)?,
                Some(_) => return Err(concat3("invalid type for field `", "coverage", "`")),
            };
            Ok(Workspace { id, language, root, commands, coverage })
        },
        _ => Err(String::from_str("invalid type: expected a workspace object")),
    }
}

/// Reads each item of an array as a workspace, stopping at the first that is not.
fn read_workspaces(items: &Vec<JsonValue>) -> (r: Result<Vec<Workspace>, String>)
    ensures
        match r {
            Ok(out) => first_some(items@, |c: JsonValue| workspace_problem(c)) is None && out@.len() == items@.len()
                && forall|k: int| 0 <= k < out@.len() ==> workspace_read(items@[k], #[trigger] out@[k]),
            Err(e) => first_some(items@, |c: JsonValue| workspace_problem(c)) == Some(e@),
        },
{
    let ghost p = |c: JsonValue| workspace_problem(c);
    let mut out: Vec<Workspace> = Vec::new();
    let mut k: usize = 0;
    assert(first_some(items@.take(0), p) is None);
    while k < items.len()
        invariant
            k <= items.len(),
            p == |c: JsonValue| workspace_problem(c),
            first_some(items@.take(k as int), p) is None,
            out@.len() == k,
            forall|j: int| 0 <= j < k ==> workspace_read(items@[j], #[trigger] out@[j]),
        decreases items.len() - k,
    {
        proof {
            lemma_first_some_step(items@, p, k as int);
        }
        match read_workspace(&items[k]) {
            Ok(c) => {
                out.push(c);
            },
            Err(e) => {
                proof {
                    lemma_first_some_prefix(items@, p, k + 1);
                }
                return Err(e);
            },
        }
        k += 1;
    }
    proof {
        lemma_first_some_all(items@, p);
    }
    Ok(out)
}

/// The first member of a document whose name is not a V2 field.
fn unknown_field(o: &Vec<(String, JsonValue)>) -> (r: Option<String>)
    ensures
        match r {
            Some(e) => first_some(o@, |e: (String, JsonValue)| if known_field(e.0@) { None } else { Some(unknown(e.0@)) }) == Some(e@),
            None => first_some(o@, |e: (String, JsonValue)| if known_field(e.0@) { None } else { Some(unknown(e.0@)) }) is None,
        },
{
    let ghost p = |e: (String, JsonValue)| if known_field(e.0@) { None } else { Some(unknown(e.0@)) };
    let mut k: usize = 0;
    assert(first_some(o@.take(0), p) is None);
    while k < o.len()
        invariant
            k <= o.len(),
            p == (|e: (String, JsonValue)| if known_field(e.0@) { None } else { Some(unknown(e.0@)) }),
            first_some(o@.take(k as int), p) is None,
        decreases o.len() - k,
    {
        proof {
            lemma_first_some_step(o@, p, k as int);
        }
        let name = o[k].0.as_str();
        if !(same_text(name, "version") || same_text(name, "profile") || same_text(name, "workspaces")
            || same_text(name, "disabled_rules") || same_text(name, "severity_overrides")) {
            proof {
                lemma_first_some_prefix(o@, p, k + 1);
            }
            return Some(concat3("unknown field `", name, "`"));
        }
        k += 1;
    }
    proof {
        lemma_first_some_all(o@, p);
    }
    None
}

/// Reads a V2 document out of parsed JSON; a document that is not one is
/// refused with a JSON error naming the first field that fails.
pub fn read_config(v: &JsonValue) -> (r: Result<ConfigV2, ConfigV2Error>)
    ensures
        match r {
            Ok(c) => config_problem(*v) is None && config_read(*v, c),
            Err(e) => e matches ConfigV2Error::Json(m) && config_problem(*v) == Some(m@),
        },
{
    match v {
        JsonValue::Object(o) => {
            if let Some(e) = unknown_field(o) {
                return Err(ConfigV2Error::Json(e));
            }
            let version = match text_field(o, "version") {
                Ok(x) => x,
                Err(e) => return Err(ConfigV2Error::Json(e)),
            };
            let profile = match text_field(o, "profile") {
                Ok(x) => x,
                Err(e) => return Err(ConfigV2Error::Json(e)),
            };
            let workspaces = match get(o, "workspaces") {
                None => return Err(ConfigV2Error::Json(concat3("missing field `", "workspaces", "`"))),
                Some(JsonValue::Array(items)) => match read_workspaces(items) {
                    Ok(x) => x,
                    Err(e) => return Err(ConfigV2Error::Json(e)),
                },
                Some(_) => return Err(ConfigV2Error::Json(concat3("invalid type for field `", "workspaces", "`"))),
            };
            let disabled_rules = match texts_field(o, "disabled_rules") {
                Ok(x) => x,
                Err(e) => return Err(ConfigV2Error::Json(e)),
            };
            let severity_overrides = match get(o, "severity_overrides") {
                None => return Err(ConfigV2Error::Json(concat3("missing field `", "severity_overrides", "`"))),
                Some(m) => match crate::config_v2::string_map(m) {
                    Ok(x) => x,
                    Err(_) => return Err(ConfigV2Error::Json(concat3("invalid type for field `", "severity_overrides", "`"))),
                },
            };
            Ok(ConfigV2 { version, profile, workspaces, disabled_rules, severity_overrides })
        },
        _ => Err(ConfigV2Error::Json(String::from_str("invalid type: expected a configuration object"))),
    }
}

} // verus!
