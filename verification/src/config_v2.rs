//! Structured, shell-free repository configuration (V2).
//!
//! A V2 configuration lists workspaces, each with argv-form commands whose
//! working directories stay inside the workspace; limits bound every list.

use vstd::prelude::*;

use crate::discovery::{CommandSpec, CoverageSpec, Workspace};
use crate::paths::{
    components_start_with, components_start_with_exec, has_parent_component,
    has_parent_component_exec, is_absolute, path_components, path_components_exec,
    MAX_DIRECTORY_COMPONENTS,
};
use crate::json::{get, member, JsonValue};
use crate::text::{
    byte_len, chars_of, has_control, has_control_exec, is_control, is_control_exec, string_of,
    trim, trim_exec, words, words_exec, concat2, concat3, deep, first_some, has_char_exec, lemma_first_some_all,
    lemma_first_some_prefix, lemma_first_some_step, same_text,
};

verus! {

pub const MAX_WORKSPACES: usize = 64;
pub const MAX_STRUCTURED_COMMANDS: usize = 64;
pub const MAX_COVERAGE_COMMANDS: usize = 64;
pub const MAX_TIMEOUT_SECONDS: u64 = 3600;

/// A V2 configuration document.
#[derive(Debug, Clone, PartialEq, Eq)]
pub struct ConfigV2 {
    pub version: String,
    pub profile: String,
    pub workspaces: Vec<Workspace>,
    pub disabled_rules: Vec<String>,
    /// Rule identifiers and their replacement severities, ordered by rule.
    pub severity_overrides: Vec<(String, String)>,
}

/// Why a configuration was refused.
#[derive(Debug, Clone, PartialEq, Eq)]
pub enum ConfigV2Error {
    Schema(String),
    Json(String),
    Invalid(String),
}

impl ConfigV2Error {
    /// The message the error displays.
    pub fn message(&self) -> (r: String)
        ensures
            r@ == match self {
                ConfigV2Error::Schema(s) => "config V2 schema is invalid: "@ + s@,
                ConfigV2Error::Json(s) => "config V2 JSON is invalid: "@ + s@,
                ConfigV2Error::Invalid(s) => "config V2 is invalid: "@ + s@,
            },
    {
        let mut r = match self {
            ConfigV2Error::Schema(_) => String::from_str("config V2 schema is invalid: "),
            ConfigV2Error::Json(_) => String::from_str("config V2 JSON is invalid: "),
            ConfigV2Error::Invalid(_) => String::from_str("config V2 is invalid: "),
        };
        match self {
            ConfigV2Error::Schema(s) => r.append(s.as_str()),
            ConfigV2Error::Json(s) => r.append(s.as_str()),
            ConfigV2Error::Invalid(s) => r.append(s.as_str()),
        }
        r
    }
}

/// The version a V2 document declares.
pub open spec fn version_text() -> Seq<char> {
    "2"@
}

pub open spec fn severity_name_ok(s: Seq<char>) -> bool {
    s == "error"@ || s == "warning"@ || s == "info"@
}

pub fn severity_name_is_valid(s: &str) -> (r: bool)
    ensures
        r == severity_name_ok(s@),
{
    same_text(s, "error") || same_text(s, "warning") || same_text(s, "info")
}

/// A character a shell would interpret.
pub open spec fn is_shell_operator(c: char) -> bool {
    c == '|' || c == '&' || c == ';' || c == '<' || c == '>' || c == '$' || c == '`' || c == '('
        || c == ')' || c == '\n' || c == '\r'
}

pub open spec fn has_shell_operator(s: Seq<char>) -> bool {
    exists|i: int| 0 <= i < s.len() && is_shell_operator(#[trigger] s[i])
}

pub fn contains_shell_operator(s: &str) -> (r: bool)
    ensures
        r == has_shell_operator(s@),
{
    let c = chars_of(s);
    let mut i: usize = 0;
    while i < c.len()
        invariant
            c@ == s@,
            i <= c.len(),
            forall|j: int| 0 <= j < i ==> !is_shell_operator(#[trigger] c@[j]),
        decreases c.len() - i,
    {
        let x = c[i];
        if x == '|' || x == '&' || x == ';' || x == '<' || x == '>' || x == '$' || x == '`' || x
            == '(' || x == ')' || x == '\n' || x == '\r' {
            assert(is_shell_operator(c@[i as int]));
            return true;
        }
        i += 1;
    }
    false
}

/// Why a configured path is not a bounded repository-relative path.
pub open spec fn relative_path_error(p: Seq<char>, label: Seq<char>) -> Option<Seq<char>> {
    if p.contains('\0') {
        Some(label + " must not contain NUL bytes"@)
    } else if is_absolute(p) || has_parent_component(p) {
        Some(label + " must be repository-relative"@)
    } else if path_components(p).len() > MAX_DIRECTORY_COMPONENTS {
        Some(label + " exceeds the maximum of 128 path components"@)
    } else {
        None
    }
}

pub fn validate_relative_path(path: &str, label: &str) -> (r: Result<(), ConfigV2Error>)
    ensures
        match r {
            Ok(_) => relative_path_error(path@, label@) is None,
            Err(e) => e matches ConfigV2Error::Invalid(m) && relative_path_error(path@, label@)
                == Some(m@),
        },
{
    let p = chars_of(path);
    if has_char_exec(p.as_slice(), '\0') {
        return Err(
            ConfigV2Error::Invalid(concat2(label, " must not contain NUL bytes")),
        );
    }
    if (p.len() > 0 && p[0] == '/') || has_parent_component_exec(p.as_slice()) {
        return Err(ConfigV2Error::Invalid(concat2(label, " must be repository-relative")));
    }
    let components = path_components_exec(p.as_slice());
    if components.len() > MAX_DIRECTORY_COMPONENTS {
        return Err(
            ConfigV2Error::Invalid(
                concat2(label, " exceeds the maximum of 128 path components"),
            ),
        );
    }
    Ok(())
}

/// Why a working directory leaves its workspace.
pub open spec fn within_workspace_error(root: Seq<char>, cwd: Seq<char>, kind: Seq<char>) -> Option<
    Seq<char>,
> {
    if components_start_with(path_components(cwd), path_components(root)) {
        None
    } else {
        Some("workspace "@ + kind + " cwd must equal or descend from workspace root"@)
    }
}

pub fn validate_cwd_within_workspace(workspace_root: &str, cwd: &str, kind: &str) -> (r: Result<
    (),
    ConfigV2Error,
>)
    ensures
        match r {
            Ok(_) => within_workspace_error(workspace_root@, cwd@, kind@) is None,
            Err(e) => e matches ConfigV2Error::Invalid(m) && within_workspace_error(
                workspace_root@,
                cwd@,
                kind@,
            ) == Some(m@),
        },
{
    let w = chars_of(workspace_root);
    let c = chars_of(cwd);
    let wc = path_components_exec(w.as_slice());
    let cc = path_components_exec(c.as_slice());
    if components_start_with_exec(&cc, &wc) {
        Ok(())
    } else {
        Err(
            ConfigV2Error::Invalid(
                concat3("workspace ", kind, " cwd must equal or descend from workspace root"),
            ),
        )
    }
}

pub open spec fn any_nul(argv: Seq<String>) -> bool {
    exists|k: int| 0 <= k < argv.len() && (#[trigger] argv[k])@.contains('\0')
}

pub open spec fn any_shell_operator(argv: Seq<String>) -> bool {
    exists|k: int| 0 <= k < argv.len() && has_shell_operator((#[trigger] argv[k])@)
}

fn argv_has_nul(argv: &[String]) -> (r: bool)
    ensures
        r == any_nul(argv@),
{
    let mut k: usize = 0;
    while k < argv.len()
        invariant
            k <= argv.len(),
            forall|j: int| 0 <= j < k ==> !(#[trigger] argv@[j])@.contains('\0'),
        decreases argv.len() - k,
    {
        let c = chars_of(argv[k].as_str());
        if has_char_exec(c.as_slice(), '\0') {
            assert(argv@[k as int]@.contains('\0'));
            return true;
        }
        k += 1;
    }
    false
}

fn argv_has_shell_operator(argv: &[String]) -> (r: bool)
    ensures
        r == any_shell_operator(argv@),
{
    let mut k: usize = 0;
    while k < argv.len()
        invariant
            k <= argv.len(),
            forall|j: int| 0 <= j < k ==> !has_shell_operator((#[trigger] argv@[j])@),
        decreases argv.len() - k,
    {
        if contains_shell_operator(argv[k].as_str()) {
            assert(has_shell_operator(argv@[k as int]@));
            return true;
        }
        k += 1;
    }
    false
}

pub open spec fn timeout_ok(seconds: u64) -> bool {
    1 <= seconds && seconds <= MAX_TIMEOUT_SECONDS
}

/// The first problem of a workspace command, checks in order.
pub open spec fn command_error(id: Seq<char>, root: Seq<char>, c: CommandSpec) -> Option<
    Seq<char>,
> {
    if c.argv@.len() == 0 {
        Some("workspace `"@ + id + "` contains an empty argv"@)
    } else if relative_path_error(c.cwd@, "command cwd"@) is Some {
        relative_path_error(c.cwd@, "command cwd"@)
    } else if within_workspace_error(root, c.cwd@, "command"@) is Some {
        within_workspace_error(root, c.cwd@, "command"@)
    } else if !timeout_ok(c.timeout_seconds) {
        Some("workspace `"@ + id + "` has an invalid timeout"@)
    } else if any_nul(c.argv@) {
        Some("workspace `"@ + id + "` command contains a NUL byte"@)
    } else if any_shell_operator(c.argv@) {
        Some("workspace `"@ + id + "` command contains a shell operator"@)
    } else {
        None
    }
}

pub open spec fn threshold_ok(t: Option<u8>) -> bool {
    match t {
        Some(v) => v <= 100,
        None => true,
    }
}

/// The first problem of a coverage command, checks in order.
pub open spec fn coverage_error(id: Seq<char>, root: Seq<char>, c: CoverageSpec) -> Option<
    Seq<char>,
> {
    if c.argv@.len() == 0 {
        Some("workspace `"@ + id + "` contains an empty coverage argv"@)
    } else if relative_path_error(c.cwd@, "coverage cwd"@) is Some {
        relative_path_error(c.cwd@, "coverage cwd"@)
    } else if within_workspace_error(root, c.cwd@, "coverage"@) is Some {
        within_workspace_error(root, c.cwd@, "coverage"@)
    } else if !timeout_ok(c.timeout_seconds) {
        Some("workspace `"@ + id + "` has an invalid coverage timeout"@)
    } else if any_nul(c.argv@) {
        Some("workspace `"@ + id + "` coverage command contains a NUL byte"@)
    } else if any_shell_operator(c.argv@) {
        Some("workspace `"@ + id + "` coverage command contains a shell operator"@)
    } else if !threshold_ok(c.line_threshold_percent) || !threshold_ok(
        c.branch_threshold_percent,
    ) {
        Some("workspace `"@ + id + "` has an invalid coverage threshold"@)
    } else {
        None
    }
}

/// The first problem of a workspace: its root, then its commands, then its
/// coverage commands.
pub open spec fn workspace_error(w: Workspace) -> Option<Seq<char>> {
    if relative_path_error(w.root@, "workspace root"@) is Some {
        relative_path_error(w.root@, "workspace root"@)
    } else if first_some(w.commands@, |c: CommandSpec| command_error(w.id@, w.root@, c)) is Some {
        first_some(w.commands@, |c: CommandSpec| command_error(w.id@, w.root@, c))
    } else {
        first_some(w.coverage@, |c: CoverageSpec| coverage_error(w.id@, w.root@, c))
    }
}

pub open spec fn total_commands(ws: Seq<Workspace>) -> nat
    decreases ws.len(),
{
    if ws.len() == 0 {
        0
    } else {
        total_commands(ws.drop_last()) + ws.last().commands@.len()
    }
}

pub open spec fn total_coverage(ws: Seq<Workspace>) -> nat
    decreases ws.len(),
{
    if ws.len() == 0 {
        0
    } else {
        total_coverage(ws.drop_last()) + ws.last().coverage@.len()
    }
}

pub open spec fn bad_severity_override(overrides: Seq<(String, String)>) -> bool {
    exists|k: int| 0 <= k < overrides.len() && !severity_name_ok((#[trigger] overrides[k]).1@)
}

/// The first rule a configuration breaks, in the order they are checked.
pub open spec fn config_error(c: ConfigV2) -> Option<Seq<char>> {
    if c.version@ != version_text() {
        Some("expected version 2, found "@ + c.version@)
    } else if bad_severity_override(c.severity_overrides@) {
        Some("severity_overrides values must be one of: error, warning, info"@)
    } else if c.workspaces@.len() > MAX_WORKSPACES {
        Some("config V2 contains more than 64 workspaces"@)
    } else if total_commands(c.workspaces@) > MAX_STRUCTURED_COMMANDS {
        Some("config V2 contains more than 64 structured commands"@)
    } else if total_coverage(c.workspaces@) > MAX_COVERAGE_COMMANDS {
        Some("config V2 contains more than 64 coverage commands"@)
    } else {
        first_some(c.workspaces@, |w: Workspace| workspace_error(w))
    }
}

fn command_problem(id: &str, root: &str, c: &CommandSpec) -> (r: Result<(), ConfigV2Error>)
    ensures
        match r {
            Ok(_) => command_error(id@, root@, *c) is None,
            Err(e) => e matches ConfigV2Error::Invalid(m) && command_error(id@, root@, *c) == Some(
                m@,
            ),
        },
{
    if c.argv.len() == 0 {
        return Err(ConfigV2Error::Invalid(concat3("workspace `", id, "` contains an empty argv")));
    }
    if let Err(e) = validate_relative_path(c.cwd.as_str(), "command cwd") {
        return Err(e);
    }
    if let Err(e) = validate_cwd_within_workspace(root, c.cwd.as_str(), "command") {
        return Err(e);
    }
    if !(1 <= c.timeout_seconds && c.timeout_seconds <= MAX_TIMEOUT_SECONDS) {
        return Err(ConfigV2Error::Invalid(concat3("workspace `", id, "` has an invalid timeout")));
    }
    if argv_has_nul(c.argv.as_slice()) {
        return Err(
            ConfigV2Error::Invalid(concat3("workspace `", id, "` command contains a NUL byte")),
        );
    }
    if argv_has_shell_operator(c.argv.as_slice()) {
        return Err(
            ConfigV2Error::Invalid(
                concat3("workspace `", id, "` command contains a shell operator"),
            ),
        );
    }
    Ok(())
}

fn coverage_problem(id: &str, root: &str, c: &CoverageSpec) -> (r: Result<(), ConfigV2Error>)
    ensures
        match r {
            Ok(_) => coverage_error(id@, root@, *c) is None,
            Err(e) => e matches ConfigV2Error::Invalid(m) && coverage_error(id@, root@, *c)
                == Some(m@),
        },
{
    if c.argv.len() == 0 {
        return Err(
            ConfigV2Error::Invalid(concat3("workspace `", id, "` contains an empty coverage argv")),
        );
    }
    if let Err(e) = validate_relative_path(c.cwd.as_str(), "coverage cwd") {
        return Err(e);
    }
    if let Err(e) = validate_cwd_within_workspace(root, c.cwd.as_str(), "coverage") {
        return Err(e);
    }
    if !(1 <= c.timeout_seconds && c.timeout_seconds <= MAX_TIMEOUT_SECONDS) {
        return Err(
            ConfigV2Error::Invalid(concat3("workspace `", id, "` has an invalid coverage timeout")),
        );
    }
    if argv_has_nul(c.argv.as_slice()) {
        return Err(
            ConfigV2Error::Invalid(
                concat3("workspace `", id, "` coverage command contains a NUL byte"),
            ),
        );
    }
    if argv_has_shell_operator(c.argv.as_slice()) {
        return Err(
            ConfigV2Error::Invalid(
                concat3("workspace `", id, "` coverage command contains a shell operator"),
            ),
        );
    }
    let line_bad = match c.line_threshold_percent {
        Some(v) => v > 100,
        None => false,
    };
    let branch_bad = match c.branch_threshold_percent {
        Some(v) => v > 100,
        None => false,
    };
    if line_bad || branch_bad {
        return Err(
            ConfigV2Error::Invalid(
                concat3("workspace `", id, "` has an invalid coverage threshold"),
            ),
        );
    }
    Ok(())
}

fn workspace_problem(w: &Workspace) -> (r: Result<(), ConfigV2Error>)
    ensures
        match r {
            Ok(_) => workspace_error(*w) is None,
            Err(e) => e matches ConfigV2Error::Invalid(m) && workspace_error(*w) == Some(m@),
        },
{
    if let Err(e) = validate_relative_path(w.root.as_str(), "workspace root") {
        return Err(e);
    }
    let ghost f = |c: CommandSpec| command_error(w.id@, w.root@, c);
    let mut i: usize = 0;
    while i < w.commands.len()
        invariant
            i <= w.commands.len(),
            relative_path_error(w.root@, "workspace root"@) is None,
            f == (|c: CommandSpec| command_error(w.id@, w.root@, c)),
            first_some(w.commands@.take(i as int), f) is None,
        decreases w.commands.len() - i,
    {
        proof {
            lemma_first_some_step(w.commands@, f, i as int);
        }
        if let Err(e) = command_problem(w.id.as_str(), w.root.as_str(), &w.commands[i]) {
            proof {
                lemma_first_some_prefix(w.commands@, f, i + 1);
            }
            return Err(e);
        }
        i += 1;
    }
    proof {
        lemma_first_some_all(w.commands@, f);
    }
    let ghost g = |c: CoverageSpec| coverage_error(w.id@, w.root@, c);
    let mut j: usize = 0;
    while j < w.coverage.len()
        invariant
            j <= w.coverage.len(),
            relative_path_error(w.root@, "workspace root"@) is None,
            first_some(w.commands@, |c: CommandSpec| command_error(w.id@, w.root@, c)) is None,
            g == (|c: CoverageSpec| coverage_error(w.id@, w.root@, c)),
            first_some(w.coverage@.take(j as int), g) is None,
        decreases w.coverage.len() - j,
    {
        proof {
            lemma_first_some_step(w.coverage@, g, j as int);
        }
        if let Err(e) = coverage_problem(w.id.as_str(), w.root.as_str(), &w.coverage[j]) {
            proof {
                lemma_first_some_prefix(w.coverage@, g, j + 1);
            }
            return Err(e);
        }
        j += 1;
    }
    proof {
        lemma_first_some_all(w.coverage@, g);
    }
    Ok(())
}

proof fn lemma_total_commands_step(ws: Seq<Workspace>, i: int)
    requires
        0 <= i < ws.len(),
    ensures
        total_commands(ws.take(i + 1)) == total_commands(ws.take(i)) + ws[i].commands@.len(),
        total_coverage(ws.take(i + 1)) == total_coverage(ws.take(i)) + ws[i].coverage@.len(),
{
    assert(ws.take(i + 1).drop_last() =~= ws.take(i));
}

proof fn lemma_totals_monotone(ws: Seq<Workspace>, i: int)
    requires
        0 <= i <= ws.len(),
    ensures
        total_commands(ws.take(i)) <= total_commands(ws),
        total_coverage(ws.take(i)) <= total_coverage(ws),
    decreases ws.len(),
{
    if i < ws.len() {
        lemma_totals_monotone(ws.drop_last(), i);
        assert(ws.drop_last().take(i) =~= ws.take(i));
    } else {
        assert(ws.take(i) =~= ws);
    }
}

/// The total command and coverage counts, each capped just above its limit.
fn capped_totals(ws: &Vec<Workspace>) -> (r: (usize, usize))
    requires
        ws.len() <= MAX_WORKSPACES,
    ensures
        (r.0 > MAX_STRUCTURED_COMMANDS) == (total_commands(ws@) > MAX_STRUCTURED_COMMANDS),
        (r.1 > MAX_COVERAGE_COMMANDS) == (total_coverage(ws@) > MAX_COVERAGE_COMMANDS),
{
    let mut commands: usize = 0;
    let mut coverage: usize = 0;
    let mut i: usize = 0;
    assert(ws@.take(0) =~= Seq::<Workspace>::empty());
    while i < ws.len()
        invariant
            i <= ws.len(),
            commands <= MAX_STRUCTURED_COMMANDS + 1,
            coverage <= MAX_COVERAGE_COMMANDS + 1,
            commands == (if total_commands(ws@.take(i as int)) > MAX_STRUCTURED_COMMANDS {
                (MAX_STRUCTURED_COMMANDS + 1) as nat
            } else {
                total_commands(ws@.take(i as int))
            }),
            coverage == (if total_coverage(ws@.take(i as int)) > MAX_COVERAGE_COMMANDS {
                (MAX_COVERAGE_COMMANDS + 1) as nat
            } else {
                total_coverage(ws@.take(i as int))
            }),
        decreases ws.len() - i,
    {
        proof {
            lemma_total_commands_step(ws@, i as int);
        }
        let n = ws[i].commands.len();
        let m = ws[i].coverage.len();
        commands = if commands > MAX_STRUCTURED_COMMANDS || n > MAX_STRUCTURED_COMMANDS - commands {
            MAX_STRUCTURED_COMMANDS + 1
        } else {
            commands + n
        };
        coverage = if coverage > MAX_COVERAGE_COMMANDS || m > MAX_COVERAGE_COMMANDS - coverage {
            MAX_COVERAGE_COMMANDS + 1
        } else {
            coverage + m
        };
        i += 1;
    }
    assert(ws@.take(ws.len() as int) =~= ws@);
    (commands, coverage)
}

/// Reads a V2 document out of parsed JSON and validates it: a document
/// that is not one is a JSON error, one that breaks a rule is invalid.
pub fn parse(value: &JsonValue) -> (r: Result<ConfigV2, ConfigV2Error>)
    ensures
        match r {
            Ok(c) => crate::config_decode::config_problem(*value) is None && crate::config_decode::config_read(
                *value,
                c,
            ) && config_error(c) is None,
            Err(ConfigV2Error::Json(m)) => crate::config_decode::config_problem(*value) == Some(m@),
            Err(ConfigV2Error::Invalid(m)) => crate::config_decode::config_problem(*value) is None && exists|c: ConfigV2|
                #[trigger] crate::config_decode::config_read(*value, c) && config_error(c) == Some(m@),
            Err(ConfigV2Error::Schema(_)) => false,
        },
{
    let config = crate::config_decode::read_config(value)?;
    validate(&config)?;
    Ok(config)
}

/// Checks every rule of a V2 configuration; the error names the first rule
/// broken, in the order the rules are listed.
pub fn validate(config: &ConfigV2) -> (r: Result<(), ConfigV2Error>)
    ensures
        match r {
            Ok(_) => config_error(*config) is None,
            Err(e) => e matches ConfigV2Error::Invalid(m) && config_error(*config) == Some(m@),
        },
{
    if !same_text(config.version.as_str(), "2") {
        return Err(
            ConfigV2Error::Invalid(concat2("expected version 2, found ", config.version.as_str())),
        );
    }
    let mut k: usize = 0;
    while k < config.severity_overrides.len()
        invariant
            config.version@ == version_text(),
            k <= config.severity_overrides.len(),
            forall|j: int|
                0 <= j < k ==> severity_name_ok((#[trigger] config.severity_overrides@[j]).1@),
        decreases config.severity_overrides.len() - k,
    {
        if !severity_name_is_valid(config.severity_overrides[k].1.as_str()) {
            assert(!severity_name_ok(config.severity_overrides@[k as int].1@));
            return Err(
                ConfigV2Error::Invalid(
                    String::from_str(
                        "severity_overrides values must be one of: error, warning, info",
                    ),
                ),
            );
        }
        k += 1;
    }
    if config.workspaces.len() > MAX_WORKSPACES {
        return Err(
            ConfigV2Error::Invalid(String::from_str("config V2 contains more than 64 workspaces")),
        );
    }
    let (commands, coverage) = capped_totals(&config.workspaces);
    if commands > MAX_STRUCTURED_COMMANDS {
        return Err(
            ConfigV2Error::Invalid(
                String::from_str("config V2 contains more than 64 structured commands"),
            ),
        );
    }
    if coverage > MAX_COVERAGE_COMMANDS {
        return Err(
            ConfigV2Error::Invalid(
                String::from_str("config V2 contains more than 64 coverage commands"),
            ),
        );
    }
    let ghost f = |w: Workspace| workspace_error(w);
    let mut i: usize = 0;
    while i < config.workspaces.len()
        invariant
            i <= config.workspaces.len(),
            config.version@ == version_text(),
            !bad_severity_override(config.severity_overrides@),
            config.workspaces@.len() <= MAX_WORKSPACES,
            total_commands(config.workspaces@) <= MAX_STRUCTURED_COMMANDS,
            total_coverage(config.workspaces@) <= MAX_COVERAGE_COMMANDS,
            f == (|w: Workspace| workspace_error(w)),
            first_some(config.workspaces@.take(i as int), f) is None,
        decreases config.workspaces.len() - i,
    {
        proof {
            lemma_first_some_step(config.workspaces@, f, i as int);
        }
        if let Err(e) = workspace_problem(&config.workspaces[i]) {
            proof {
                lemma_first_some_prefix(config.workspaces@, f, i + 1);
            }
            return Err(e);
        }
        i += 1;
    }
    proof {
        lemma_first_some_all(config.workspaces@, f);
    }
    Ok(())
}


// ---------------------------------------------------------------------------
// Legacy (V1) documents.

/// The fields a V1 document may hold.
pub open spec fn legacy_field(k: Seq<char>) -> bool {
    k == "version"@ || k == "profile"@ || k == "languages"@ || k == "disabled_rules"@ || k
        == "severity_overrides"@ || k == "command_timeout_seconds"@ || k == "required_commands"@
        || k == "prohibited_paths"@
}

fn is_legacy_field(k: &str) -> (r: bool)
    ensures
        r == legacy_field(k@),
{
    same_text(k, "version") || same_text(k, "profile") || same_text(k, "languages") || same_text(
        k,
        "disabled_rules",
    ) || same_text(k, "severity_overrides") || same_text(k, "command_timeout_seconds")
        || same_text(k, "required_commands") || same_text(k, "prohibited_paths")
}

pub open spec fn unsupported_field_error(entry: (String, JsonValue)) -> Option<Seq<char>> {
    if legacy_field(entry.0@) {
        None
    } else {
        Some("V1 field `"@ + entry.0@ + "` is not supported"@)
    }
}

/// A non-empty string of at most `max_len` bytes with no control character.
pub open spec fn legacy_text_ok(v: JsonValue, max_len: nat) -> bool {
    match v {
        JsonValue::String(s) => s@.len() > 0 && byte_len(s@) <= max_len && !has_control(s@),
        _ => false,
    }
}

fn legacy_text_is_ok(v: &JsonValue, max_len: usize) -> (r: bool)
    ensures
        r == legacy_text_ok(*v, max_len as nat),
{
    match v {
        JsonValue::String(s) => {
            let c = chars_of(s.as_str());
            c.len() > 0 && s.as_str().len() <= max_len && !has_control_exec(c.as_slice())
        },
        _ => false,
    }
}

/// A bounded array of bounded strings, or why not.
pub open spec fn legacy_strings_error(
    v: JsonValue,
    max_items: nat,
    max_len: nat,
    field: Seq<char>,
) -> Option<Seq<char>> {
    match v {
        JsonValue::Array(items) => if items@.len() > max_items || exists|k: int|
            0 <= k < items@.len() && !legacy_text_ok(#[trigger] items@[k], max_len) {
            Some("V1 "@ + field + " is out of bounds"@)
        } else {
            None
        },
        _ => Some("V1 "@ + field + " must be an array"@),
    }
}

fn validate_legacy_strings(v: &JsonValue, max_items: usize, max_len: usize, field: &str) -> (r:
    Result<(), ConfigV2Error>)
    ensures
        match r {
            Ok(_) => legacy_strings_error(*v, max_items as nat, max_len as nat, field@) is None,
            Err(e) => e matches ConfigV2Error::Invalid(m) && legacy_strings_error(
                *v,
                max_items as nat,
                max_len as nat,
                field@,
            ) == Some(m@),
        },
{
    match v {
        JsonValue::Array(items) => {
            if items.len() > max_items {
                return Err(ConfigV2Error::Invalid(concat3("V1 ", field, " is out of bounds")));
            }
            let mut k: usize = 0;
            while k < items.len()
                invariant
                    *v == JsonValue::Array(*items),
                    k <= items.len(),
                    forall|j: int| 0 <= j < k ==> legacy_text_ok(#[trigger] items@[j], max_len as nat),
                decreases items.len() - k,
            {
                if !legacy_text_is_ok(&items[k], max_len) {
                    return Err(ConfigV2Error::Invalid(concat3("V1 ", field, " is out of bounds")));
                }
                k += 1;
            }
            Ok(())
        },
        _ => Err(ConfigV2Error::Invalid(concat3("V1 ", field, " must be an array"))),
    }
}

pub open spec fn severity_value_ok(v: JsonValue) -> bool {
    match v {
        JsonValue::String(s) => severity_name_ok(s@),
        _ => false,
    }
}

pub open spec fn severity_entry_ok(e: (String, JsonValue)) -> bool {
    e.0@.len() > 0 && byte_len(e.0@) <= 256 && severity_value_ok(e.1)
}

pub open spec fn command_group_error(e: (String, JsonValue)) -> Option<Seq<char>> {
    if e.0@.len() == 0 || byte_len(e.0@) > 64 {
        Some("V1 command language is invalid"@)
    } else {
        legacy_strings_error(e.1, 256, 4096, "required_commands"@)
    }
}

/// A repository-relative, bounded, control-free path text.
pub open spec fn prohibited_path_ok(v: JsonValue) -> bool {
    match v {
        JsonValue::String(p) => p@.len() > 0 && byte_len(p@) <= 4096 && !(p@.len() > 0 && p@[0]
            == '/') && !has_parent_component(p@) && !has_control(p@),
        _ => false,
    }
}

/// The first rule a V1 document's shape breaks, in the order they are
/// checked.
pub open spec fn legacy_shape_error(o: Seq<(String, JsonValue)>) -> Option<Seq<char>> {
    let sev = member(o, "severity_overrides"@);
    let timeout = member(o, "command_timeout_seconds"@);
    let req = member(o, "required_commands"@);
    let paths = member(o, "prohibited_paths"@);
    if first_some(o, |e: (String, JsonValue)| unsupported_field_error(e)) is Some {
        first_some(o, |e: (String, JsonValue)| unsupported_field_error(e))
    } else if member(o, "profile"@) is Some && !legacy_text_ok(member(o, "profile"@)->0, 64) {
        Some("V1 profile is invalid"@)
    } else if member(o, "languages"@) is Some && legacy_strings_error(
        member(o, "languages"@)->0,
        256,
        256,
        "languages"@,
    ) is Some {
        legacy_strings_error(member(o, "languages"@)->0, 256, 256, "languages"@)
    } else if member(o, "disabled_rules"@) is Some && legacy_strings_error(
        member(o, "disabled_rules"@)->0,
        256,
        256,
        "disabled_rules"@,
    ) is Some {
        legacy_strings_error(member(o, "disabled_rules"@)->0, 256, 256, "disabled_rules"@)
    } else if sev is Some && !(sev->0 is Object) {
        Some("V1 severity_overrides must be an object"@)
    } else if sev matches Some(JsonValue::Object(m)) && (m@.len() > 256 || exists|k: int|
        0 <= k < m@.len() && !severity_entry_ok(#[trigger] m@[k])) {
        Some("V1 severity_overrides is out of bounds"@)
    } else if timeout is Some && !(timeout matches Some(JsonValue::Number(Some(n), _)) && 1 <= n
        && n <= 3600) {
        Some("V1 command_timeout_seconds is out of bounds"@)
    } else if req is Some && !(req->0 is Object) {
        Some("V1 required_commands must be an object"@)
    } else if req matches Some(JsonValue::Object(m)) && m@.len() > 256 {
        Some("V1 required_commands exceeds bounds"@)
    } else if req matches Some(JsonValue::Object(m)) && first_some(
        m@,
        |e: (String, JsonValue)| command_group_error(e),
    ) is Some {
        first_some(req->0->Object_0@, |e: (String, JsonValue)| command_group_error(e))
    } else if paths is Some && !(paths->0 is Array) {
        Some("V1 prohibited_paths must be an array"@)
    } else if paths matches Some(JsonValue::Array(ps)) && (ps@.len() > 256 || exists|k: int|
        0 <= k < ps@.len() && !prohibited_path_ok(#[trigger] ps@[k])) {
        Some("V1 prohibited_paths is invalid"@)
    } else {
        None
    }
}


fn severity_entry_is_ok(e: &(String, JsonValue)) -> (r: bool)
    ensures
        r == severity_entry_ok(*e),
{
    let k = chars_of(e.0.as_str());
    if k.len() == 0 || e.0.as_str().len() > 256 {
        return false;
    }
    match &e.1 {
        JsonValue::String(v) => severity_name_is_valid(v.as_str()),
        _ => false,
    }
}

fn prohibited_path_is_ok(v: &JsonValue) -> (r: bool)
    ensures
        r == prohibited_path_ok(*v),
{
    match v {
        JsonValue::String(p) => {
            let c = chars_of(p.as_str());
            c.len() > 0 && p.as_str().len() <= 4096 && c[0] != '/'
                && !has_parent_component_exec(c.as_slice()) && !has_control_exec(c.as_slice())
        },
        _ => false,
    }
}

fn command_group_problem(e: &(String, JsonValue)) -> (r: Result<(), ConfigV2Error>)
    ensures
        match r {
            Ok(_) => command_group_error(*e) is None,
            Err(x) => x matches ConfigV2Error::Invalid(m) && command_group_error(*e) == Some(m@),
        },
{
    let k = chars_of(e.0.as_str());
    if k.len() == 0 || e.0.as_str().len() > 64 {
        return Err(ConfigV2Error::Invalid(String::from_str("V1 command language is invalid")));
    }
    validate_legacy_strings(&e.1, 256, 4096, "required_commands")
}

/// Checks a V1 document's fields against their bounds, reporting the first
/// problem in the order listed by `legacy_shape_error`.
#[verifier::loop_isolation(false)]
pub fn validate_legacy_shape(object: &Vec<(String, JsonValue)>) -> (r: Result<(), ConfigV2Error>)
    ensures
        match r {
            Ok(_) => legacy_shape_error(object@) is None,
            Err(e) => e matches ConfigV2Error::Invalid(m) && legacy_shape_error(object@) == Some(
                m@,
            ),
        },
{
    let ghost f = |e: (String, JsonValue)| unsupported_field_error(e);
    let mut i: usize = 0;
    while i < object.len()
        invariant
            i <= object.len(),
            f == (|e: (String, JsonValue)| unsupported_field_error(e)),
            first_some(object@.take(i as int), f) is None,
        decreases object.len() - i,
    {
        proof {
            lemma_first_some_step(object@, f, i as int);
        }
        if !is_legacy_field(object[i].0.as_str()) {
            proof {
                lemma_first_some_prefix(object@, f, i + 1);
            }
            return Err(
                ConfigV2Error::Invalid(
                    concat3("V1 field `", object[i].0.as_str(), "` is not supported"),
                ),
            );
        }
        i += 1;
    }
    proof {
        lemma_first_some_all(object@, f);
    }
    if let Some(profile) = get(object, "profile") {
        if !legacy_text_is_ok(profile, 64) {
            return Err(ConfigV2Error::Invalid(String::from_str("V1 profile is invalid")));
        }
    }
    if let Some(v) = get(object, "languages") {
        if let Err(e) = validate_legacy_strings(v, 256, 256, "languages") {
            return Err(e);
        }
    }
    if let Some(v) = get(object, "disabled_rules") {
        if let Err(e) = validate_legacy_strings(v, 256, 256, "disabled_rules") {
            return Err(e);
        }
    }
    if let Some(v) = get(object, "severity_overrides") {
        match v {
            JsonValue::Object(m) => {
                if m.len() > 256 {
                    return Err(
                        ConfigV2Error::Invalid(
                            String::from_str("V1 severity_overrides is out of bounds"),
                        ),
                    );
                }
                let mut k: usize = 0;
                while k < m.len()
                    invariant
                        k <= m.len(),
                        forall|j: int| 0 <= j < k ==> severity_entry_ok(#[trigger] m@[j]),
                    decreases m.len() - k,
                {
                    if !severity_entry_is_ok(&m[k]) {
                        return Err(
                            ConfigV2Error::Invalid(
                                String::from_str("V1 severity_overrides is out of bounds"),
                            ),
                        );
                    }
                    k += 1;
                }
            },
            _ => {
                return Err(
                    ConfigV2Error::Invalid(
                        String::from_str("V1 severity_overrides must be an object"),
                    ),
                );
            },
        }
    }
    if let Some(v) = get(object, "command_timeout_seconds") {
        let ok = match v {
            JsonValue::Number(Some(n), _) => 1 <= *n && *n <= 3600,
            _ => false,
        };
        if !ok {
            return Err(
                ConfigV2Error::Invalid(
                    String::from_str("V1 command_timeout_seconds is out of bounds"),
                ),
            );
        }
    }
    if let Some(v) = get(object, "required_commands") {
        match v {
            JsonValue::Object(m) => {
                if m.len() > 256 {
                    return Err(
                        ConfigV2Error::Invalid(
                            String::from_str("V1 required_commands exceeds bounds"),
                        ),
                    );
                }
                let ghost g = |e: (String, JsonValue)| command_group_error(e);
                let mut k: usize = 0;
                while k < m.len()
                    invariant
                        k <= m.len(),
                        g == (|e: (String, JsonValue)| command_group_error(e)),
                        first_some(m@.take(k as int), g) is None,
                    decreases m.len() - k,
                {
                    proof {
                        lemma_first_some_step(m@, g, k as int);
                    }
                    if let Err(e) = command_group_problem(&m[k]) {
                        proof {
                            lemma_first_some_prefix(m@, g, k + 1);
                        }
                        return Err(e);
                    }
                    k += 1;
                }
                proof {
                    lemma_first_some_all(m@, g);
                }
            },
            _ => {
                return Err(
                    ConfigV2Error::Invalid(
                        String::from_str("V1 required_commands must be an object"),
                    ),
                );
            },
        }
    }
    if let Some(v) = get(object, "prohibited_paths") {
        match v {
            JsonValue::Array(ps) => {
                if ps.len() > 256 {
                    return Err(
                        ConfigV2Error::Invalid(String::from_str("V1 prohibited_paths is invalid")),
                    );
                }
                let mut k: usize = 0;
                while k < ps.len()
                    invariant
                        k <= ps.len(),
                        forall|j: int| 0 <= j < k ==> prohibited_path_ok(#[trigger] ps@[j]),
                    decreases ps.len() - k,
                {
                    if !prohibited_path_is_ok(&ps[k]) {
                        return Err(
                            ConfigV2Error::Invalid(
                                String::from_str("V1 prohibited_paths is invalid"),
                            ),
                        );
                    }
                    k += 1;
                }
            },
            _ => {
                return Err(
                    ConfigV2Error::Invalid(String::from_str("V1 prohibited_paths must be an array")),
                );
            },
        }
    }
    Ok(())
}

/// A V1 document is an object whose shape is within bounds.
pub fn validate_legacy(value: &JsonValue) -> (r: Result<(), ConfigV2Error>)
    ensures
        match r {
            Ok(_) => value matches JsonValue::Object(o) && legacy_shape_error(o@) is None,
            Err(e) => e matches ConfigV2Error::Invalid(m) && match value {
                JsonValue::Object(o) => legacy_shape_error(o@) == Some(m@),
                _ => m@ == "V1 config must be an object"@,
            },
        },
{
    match value {
        JsonValue::Object(o) => validate_legacy_shape(o),
        _ => Err(ConfigV2Error::Invalid(String::from_str("V1 config must be an object"))),
    }
}


// ---------------------------------------------------------------------------
// Migration from V1.

/// The characters of a refused command shown in the error: its first eighty
/// non-control characters.
pub open spec fn shown_command(c: Seq<char>) -> Seq<char> {
    let visible = c.filter(|x: char| !is_control(x));
    if visible.len() <= 80 {
        visible
    } else {
        visible.take(80)
    }
}

/// A V1 command string splits into argv only when it is not blank and holds
/// no shell operator.
pub open spec fn split_error(c: Seq<char>) -> Option<Seq<char>> {
    if trim(c).len() == 0 || has_shell_operator(c) {
        Some(
            "cannot migrate shell command `"@ + shown_command(c)
                + "` without interpreting shell syntax"@,
        )
    } else {
        None
    }
}

fn shown_command_exec(c: &[char]) -> (r: String)
    ensures
        r@ == shown_command(c@),
{
    let ghost keep = |x: char| !is_control(x);
    let mut out: Vec<char> = Vec::new();
    let mut i: usize = 0;
    while i < c.len()
        invariant
            i <= c.len(),
            keep == (|x: char| !is_control(x)),
            out@ == c@.take(i as int).filter(keep),
        decreases c.len() - i,
    {
        proof {
            reveal(Seq::filter);
            assert(c@.take(i + 1).drop_last() =~= c@.take(i as int));
        }
        if !is_control_exec(c[i]) {
            out.push(c[i]);
        }
        i += 1;
    }
    assert(c@.take(c.len() as int) =~= c@);
    if out.len() > 80 {
        out.truncate(80);
    }
    string_of(out.as_slice())
}

/// Splits a V1 command at whitespace without interpreting it.
pub fn split_shell_free(command: &str) -> (r: Result<Vec<String>, ConfigV2Error>)
    ensures
        match r {
            Ok(argv) => split_error(command@) is None && argv@.map_values(|s: String| s@) == words(
                command@,
            ),
            Err(e) => e matches ConfigV2Error::Invalid(m) && split_error(command@) == Some(m@),
        },
{
    let c = chars_of(command);
    let t = trim_exec(c.as_slice());
    if t.len() == 0 || contains_shell_operator(command) {
        let shown = shown_command_exec(c.as_slice());
        return Err(
            ConfigV2Error::Invalid(
                concat3(
                    "cannot migrate shell command `",
                    shown.as_str(),
                    "` without interpreting shell syntax",
                ),
            ),
        );
    }
    let pieces = words_exec(c.as_slice());
    let mut argv: Vec<String> = Vec::new();
    let mut k: usize = 0;
    while k < pieces.len()
        invariant
            k <= pieces.len(),
            argv@.len() == k,
            forall|j: int| 0 <= j < k ==> (#[trigger] argv@[j])@ == pieces@[j]@,
        decreases pieces.len() - k,
    {
        let s = string_of(pieces[k].as_slice());
        argv.push(s);
        k += 1;
    }
    assert(argv@.map_values(|s: String| s@) =~= deep(pieces@));
    Ok(argv)
}

pub open spec fn is_text(v: JsonValue) -> bool {
    v is String
}

pub open spec fn text_of(v: JsonValue) -> Seq<char> {
    match v {
        JsonValue::String(s) => s@,
        _ => seq![],
    }
}

/// The strings of an optional array field, or why it is refused.
pub open spec fn string_array_result(o: Seq<(String, JsonValue)>, field: Seq<char>) -> Result<
    Seq<Seq<char>>,
    Seq<char>,
> {
    match member(o, field) {
        None => Ok(seq![]),
        Some(JsonValue::Array(items)) => if forall|k: int|
            0 <= k < items@.len() ==> is_text(#[trigger] items@[k]) {
            Ok(items@.map_values(|v: JsonValue| text_of(v)))
        } else {
            Err("V1 "@ + field + " must contain strings"@)
        },
        Some(_) => Err("V1 "@ + field + " must be an array"@),
    }
}

#[verifier::loop_isolation(false)]
pub fn string_array(object: &Vec<(String, JsonValue)>, field: &str) -> (r: Result<
    Vec<String>,
    ConfigV2Error,
>)
    ensures
        match (r, string_array_result(object@, field@)) {
            (Ok(v), Ok(w)) => v@.map_values(|s: String| s@) == w,
            (Err(e), Err(m)) => e matches ConfigV2Error::Invalid(x) && x@ == m,
            _ => false,
        },
{
    match get(object, field) {
        None => Ok(Vec::new()),
        Some(JsonValue::Array(items)) => {
            let mut out: Vec<String> = Vec::new();
            let mut k: usize = 0;
            while k < items.len()
                invariant
                    k <= items.len(),
                    forall|j: int| 0 <= j < k ==> is_text(#[trigger] items@[j]),
                    out@.len() == k,
                    forall|j: int| 0 <= j < k ==> (#[trigger] out@[j])@ == text_of(items@[j]),
                decreases items.len() - k,
            {
                match &items[k] {
                    JsonValue::String(s) => {
                        out.push(s.clone());
                    },
                    _ => {
                        return Err(
                            ConfigV2Error::Invalid(concat3("V1 ", field, " must contain strings")),
                        );
                    },
                }
                k += 1;
            }
            assert(out@.map_values(|s: String| s@) =~= items@.map_values(|v: JsonValue| text_of(v)));
            Ok(out)
        },
        Some(_) => Err(ConfigV2Error::Invalid(concat3("V1 ", field, " must be an array"))),
    }
}

/// The string pairs of a severity-override object, or why it is refused.
pub open spec fn string_map_result(v: JsonValue) -> Result<Seq<(Seq<char>, Seq<char>)>, Seq<char>> {
    match v {
        JsonValue::Object(m) => if forall|k: int|
            0 <= k < m@.len() ==> is_text((#[trigger] m@[k]).1) {
            Ok(m@.map_values(|e: (String, JsonValue)| (e.0@, text_of(e.1))))
        } else {
            Err("V1 severity_overrides values must be strings"@)
        },
        _ => Err("V1 severity_overrides must be an object"@),
    }
}

pub fn string_map(v: &JsonValue) -> (r: Result<Vec<(String, String)>, ConfigV2Error>)
    ensures
        match (r, string_map_result(*v)) {
            (Ok(x), Ok(w)) => x@.map_values(|p: (String, String)| (p.0@, p.1@)) == w,
            (Err(e), Err(m)) => e matches ConfigV2Error::Invalid(s) && s@ == m,
            _ => false,
        },
{
    match v {
        JsonValue::Object(m) => {
            let mut out: Vec<(String, String)> = Vec::new();
            let mut k: usize = 0;
            while k < m.len()
                invariant
                    *v == JsonValue::Object(*m),
                    k <= m.len(),
                    forall|j: int| 0 <= j < k ==> is_text((#[trigger] m@[j]).1),
                    out@.len() == k,
                    forall|j: int|
                        0 <= j < k ==> (#[trigger] out@[j]).0@ == m@[j].0@ && out@[j].1@ == text_of(
                            m@[j].1,
                        ),
                decreases m.len() - k,
            {
                match &m[k].1 {
                    JsonValue::String(s) => {
                        out.push((m[k].0.clone(), s.clone()));
                    },
                    _ => {
                        return Err(
                            ConfigV2Error::Invalid(
                                String::from_str("V1 severity_overrides values must be strings"),
                            ),
                        );
                    },
                }
                k += 1;
            }
            assert(out@.map_values(|p: (String, String)| (p.0@, p.1@)) =~= m@.map_values(
                |e: (String, JsonValue)| (e.0@, text_of(e.1)),
            ));
            Ok(out)
        },
        _ => Err(
            ConfigV2Error::Invalid(String::from_str("V1 severity_overrides must be an object")),
        ),
    }
}


pub open spec fn command_item_error(lang: Seq<char>, v: JsonValue) -> Option<Seq<char>> {
    match v {
        JsonValue::String(s) => split_error(s@),
        _ => Some("V1 command for `"@ + lang + "` must be a string"@),
    }
}

/// The first problem of one language's V1 commands.
pub open spec fn group_error(e: (String, JsonValue)) -> Option<Seq<char>> {
    match e.1 {
        JsonValue::Array(cmds) => first_some(cmds@, |v: JsonValue| command_item_error(e.0@, v)),
        _ => Some("V1 commands for `"@ + e.0@ + "` must be an array"@),
    }
}

pub open spec fn profile_of(o: Seq<(String, JsonValue)>) -> Seq<char> {
    match member(o, "profile"@) {
        Some(JsonValue::String(s)) => s@,
        _ => "default"@,
    }
}

/// The first problem met while reading a V1 document, before the migrated
/// configuration is validated.
pub open spec fn migration_error(o: Seq<(String, JsonValue)>) -> Option<Seq<char>> {
    let sev = member(o, "severity_overrides"@);
    if string_array_result(o, "disabled_rules"@) is Err {
        Some(string_array_result(o, "disabled_rules"@)->Err_0)
    } else if sev is Some && string_map_result(sev->0) is Err {
        Some(string_map_result(sev->0)->Err_0)
    } else if !(member(o, "required_commands"@) matches Some(JsonValue::Object(_))) {
        Some("V1 required_commands must be an object"@)
    } else {
        first_some(
            member(o, "required_commands"@)->0->Object_0@,
            |e: (String, JsonValue)| group_error(e),
        )
    }
}

/// A V1 command string became this structured command.
pub open spec fn command_migrated(v: JsonValue, c: CommandSpec) -> bool {
    &&& c.argv@.map_values(|s: String| s@) == words(text_of(v))
    &&& c.cwd@ == "."@
    &&& c.timeout_seconds == 300
    &&& c.tier@ == "full"@
    &&& c.purpose@ == "migrated quality gate"@
    &&& c.source@ == "v1-migration"@
    &&& c.confidence@ == "medium"@
}

/// One language's V1 commands became this root workspace.
pub open spec fn workspace_migrated(e: (String, JsonValue), w: Workspace) -> bool {
    &&& w.id@ == e.0@
    &&& w.language@ == e.0@
    &&& w.root@ == "."@
    &&& w.coverage@.len() == 0
    &&& e.1 matches JsonValue::Array(cmds) && w.commands@.len() == cmds@.len() && forall|j: int|
        0 <= j < cmds@.len() ==> command_migrated(cmds@[j], #[trigger] w.commands@[j])
}

/// A configuration is what a V1 document migrates to.
pub open spec fn migrated_from(o: Seq<(String, JsonValue)>, c: ConfigV2) -> bool {
    &&& c.version@ == version_text()
    &&& c.profile@ == profile_of(o)
    &&& string_array_result(o, "disabled_rules"@) == Ok::<Seq<Seq<char>>, Seq<char>>(
        c.disabled_rules@.map_values(|s: String| s@),
    )
    &&& match member(o, "severity_overrides"@) {
        Some(v) => string_map_result(v) == Ok::<Seq<(Seq<char>, Seq<char>)>, Seq<char>>(
            c.severity_overrides@.map_values(|p: (String, String)| (p.0@, p.1@)),
        ),
        None => c.severity_overrides@.len() == 0,
    }
    &&& member(o, "required_commands"@) matches Some(JsonValue::Object(m)) && c.workspaces@.len()
        == m@.len() && forall|k: int|
        0 <= k < m@.len() ==> workspace_migrated(m@[k], #[trigger] c.workspaces@[k])
}

fn migrate_group(e: &(String, JsonValue)) -> (r: Result<Workspace, ConfigV2Error>)
    ensures
        match r {
            Ok(w) => group_error(*e) is None && workspace_migrated(*e, w),
            Err(x) => x matches ConfigV2Error::Invalid(m) && group_error(*e) == Some(m@),
        },
{
    let cmds = match &e.1 {
        JsonValue::Array(c) => c,
        _ => {
            return Err(
                ConfigV2Error::Invalid(
                    concat3("V1 commands for `", e.0.as_str(), "` must be an array"),
                ),
            );
        },
    };
    let ghost f = |v: JsonValue| command_item_error(e.0@, v);
    let mut specs: Vec<CommandSpec> = Vec::new();
    let mut j: usize = 0;
    while j < cmds.len()
        invariant
            e.1 == JsonValue::Array(*cmds),
            j <= cmds.len(),
            f == (|v: JsonValue| command_item_error(e.0@, v)),
            first_some(cmds@.take(j as int), f) is None,
            specs@.len() == j,
            forall|i: int| 0 <= i < j ==> command_migrated(cmds@[i], #[trigger] specs@[i]),
        decreases cmds.len() - j,
    {
        proof {
            lemma_first_some_step(cmds@, f, j as int);
        }
        let shell = match &cmds[j] {
            JsonValue::String(s) => s,
            _ => {
                proof {
                    lemma_first_some_prefix(cmds@, f, j + 1);
                }
                return Err(
                    ConfigV2Error::Invalid(
                        concat3("V1 command for `", e.0.as_str(), "` must be a string"),
                    ),
                );
            },
        };
        let argv = match split_shell_free(shell.as_str()) {
            Ok(a) => a,
            Err(x) => {
                proof {
                    lemma_first_some_prefix(cmds@, f, j + 1);
                }
                return Err(x);
            },
        };
        specs.push(
            CommandSpec {
                argv,
                cwd: String::from_str("."),
                timeout_seconds: 300,
                tier: String::from_str("full"),
                purpose: String::from_str("migrated quality gate"),
                source: String::from_str("v1-migration"),
                confidence: String::from_str("medium"),
            },
        );
        j += 1;
    }
    proof {
        lemma_first_some_all(cmds@, f);
    }
    Ok(
        Workspace {
            id: e.0.clone(),
            language: e.0.clone(),
            root: String::from_str("."),
            commands: specs,
            coverage: Vec::new(),
        },
    )
}

/// Converts a V1 document into V2 without interpreting shell syntax: each
/// language's commands become a root workspace of argv commands. The result
/// must itself be a valid V2 configuration.
#[verifier::loop_isolation(false)]
pub fn migrate_v1(value: &JsonValue) -> (r: Result<ConfigV2, ConfigV2Error>)
    ensures
        match r {
            Ok(c) => value matches JsonValue::Object(o) && migration_error(o@) is None
                && migrated_from(o@, c) && config_error(c) is None,
            Err(e) => e matches ConfigV2Error::Invalid(m) && match value {
                JsonValue::Object(o) => migration_error(o@) == Some(m@) || (migration_error(o@) is None
                    && exists|c: ConfigV2| migrated_from(o@, c) && config_error(c) == Some(m@)),
                _ => m@ == "V1 config must be an object"@,
            },
        },
{
    let o = match value {
        JsonValue::Object(o) => o,
        _ => return Err(ConfigV2Error::Invalid(String::from_str("V1 config must be an object"))),
    };
    let profile = match get(o, "profile") {
        Some(JsonValue::String(s)) => s.clone(),
        _ => String::from_str("default"),
    };
    let disabled_rules = match string_array(o, "disabled_rules") {
        Ok(v) => v,
        Err(e) => return Err(e),
    };
    let severity_overrides = match get(o, "severity_overrides") {
        Some(v) => match string_map(v) {
            Ok(m) => m,
            Err(e) => return Err(e),
        },
        None => Vec::new(),
    };
    let required = match get(o, "required_commands") {
        Some(JsonValue::Object(m)) => m,
        _ => {
            return Err(
                ConfigV2Error::Invalid(String::from_str("V1 required_commands must be an object")),
            );
        },
    };
    let ghost g = |e: (String, JsonValue)| group_error(e);
    let mut workspaces: Vec<Workspace> = Vec::new();
    let mut k: usize = 0;
    while k < required.len()
        invariant
            member(o@, "required_commands"@) == Some(JsonValue::Object(*required)),
            k <= required.len(),
            g == (|e: (String, JsonValue)| group_error(e)),
            first_some(required@.take(k as int), g) is None,
            workspaces@.len() == k,
            forall|i: int| 0 <= i < k ==> workspace_migrated(required@[i], #[trigger] workspaces@[i]),
        decreases required.len() - k,
    {
        proof {
            lemma_first_some_step(required@, g, k as int);
        }
        match migrate_group(&required[k]) {
            Ok(w) => workspaces.push(w),
            Err(e) => {
                proof {
                    lemma_first_some_prefix(required@, g, k + 1);
                }
                return Err(e);
            },
        }
        k += 1;
    }
    proof {
        lemma_first_some_all(required@, g);
    }
    let config = ConfigV2 {
        version: String::from_str("2"),
        profile,
        workspaces,
        disabled_rules,
        severity_overrides,
    };
    assert(migrated_from(o@, config));
    match validate(&config) {
        Ok(_) => Ok(config),
        Err(e) => Err(e),
    }
}


// ---------------------------------------------------------------------------
// Bounded, sanitized diagnostics.

pub const CONFIG_DIAGNOSTIC_MAX_BYTES: usize = 2048;
pub const SCHEMA_ERROR_PATH_MAX_BYTES: usize = 128;
pub const SCHEMA_ERROR_MESSAGE_MAX_BYTES: usize = 256;

/// The number of bytes UTF-8 uses for a character.
pub open spec fn utf8_width(c: char) -> nat {
    if (c as u32) < 0x80 {
        1
    } else if (c as u32) < 0x800 {
        2
    } else if (c as u32) < 0x10000 {
        3
    } else {
        4
    }
}

pub fn utf8_width_exec(c: char) -> (r: usize)
    ensures
        r == utf8_width(c),
{
    if (c as u32) < 0x80 {
        1
    } else if (c as u32) < 0x800 {
        2
    } else if (c as u32) < 0x10000 {
        3
    } else {
        4
    }
}

/// The UTF-8 length of a text.
pub open spec fn utf8_len(s: Seq<char>) -> nat
    decreases s.len(),
{
    if s.len() == 0 {
        0
    } else {
        utf8_len(s.drop_last()) + utf8_width(s.last())
    }
}

/// Writing `s` into a buffer with `budget` bytes free, one character at a
/// time: control characters are skipped, and writing stops for good at the
/// first character that would pass the budget. The result is what was
/// written and whether writing stopped short.
pub open spec fn bounded_write(s: Seq<char>, budget: nat) -> (Seq<char>, bool)
    decreases s.len(),
{
    if s.len() == 0 {
        (seq![], false)
    } else {
        let (out, stopped) = bounded_write(s.drop_last(), budget);
        if stopped || is_control(s.last()) {
            (out, stopped)
        } else if utf8_len(out) + utf8_width(s.last()) > budget {
            (out, true)
        } else {
            (out.push(s.last()), false)
        }
    }
}

proof fn lemma_bounded_write_stops(s: Seq<char>, budget: nat, i: int)
    requires
        0 <= i <= s.len(),
        bounded_write(s.take(i), budget).1,
    ensures
        bounded_write(s, budget) == bounded_write(s.take(i), budget),
    decreases s.len(),
{
    if i < s.len() {
        assert(s.drop_last().take(i) =~= s.take(i));
        lemma_bounded_write_stops(s.drop_last(), budget, i);
    } else {
        assert(s.take(i) =~= s);
    }
}

proof fn lemma_bounded_write_fits(s: Seq<char>, budget: nat)
    ensures
        utf8_len(bounded_write(s, budget).0) <= budget,
    decreases s.len(),
{
    if s.len() > 0 {
        lemma_bounded_write_fits(s.drop_last(), budget);
        let (out, stopped) = bounded_write(s.drop_last(), budget);
        assert(out.push(s.last()).drop_last() =~= out);
    }
}

/// A text written into a bounded buffer.
pub struct SanitizedBoundedString {
    pub value: String,
    pub max_bytes: usize,
    pub truncated: bool,
    pub used: usize,
}

impl SanitizedBoundedString {
    /// The buffer's byte count matches its contents and stays within budget.
    pub open spec fn wf(&self) -> bool {
        self.used == utf8_len(self.value@) && self.used <= self.max_bytes
    }

    pub fn new(max_bytes: usize) -> (r: Self)
        ensures
            r.wf(),
            r.value@.len() == 0,
            r.max_bytes == max_bytes,
            !r.truncated,
    {
        SanitizedBoundedString { value: String::new(), max_bytes, truncated: false, used: 0 }
    }

    /// Appends what `bounded_write` writes of `text` in the space left; an
    /// error (and a truncated buffer) when writing stopped short.
    pub fn write_str(&mut self, text: &str) -> (r: Result<(), ()>)
        requires
            old(self).wf(),
        ensures
            final(self).wf(),
            final(self).max_bytes == old(self).max_bytes,
            final(self).value@ == old(self).value@ + bounded_write(
                text@,
                (old(self).max_bytes - old(self).used) as nat,
            ).0,
            r is Err <==> bounded_write(text@, (old(self).max_bytes - old(self).used) as nat).1,
            final(self).truncated == (old(self).truncated || r is Err),
    {
        let chars = chars_of(text);
        let ghost start = self.value@;
        let ghost start_used = self.used;
        let ghost budget = (self.max_bytes - self.used) as nat;
        let mut i: usize = 0;
        assert(chars@.take(0) =~= Seq::<char>::empty());
        while i < chars.len()
            invariant
                chars@ == text@,
                i <= chars.len(),
                self.wf(),
                self.max_bytes == old(self).max_bytes,
                self.truncated == old(self).truncated,
                start_used == old(self).used,
                start == old(self).value@,
                budget == (old(self).max_bytes - old(self).used) as nat,
                start_used == utf8_len(start),
                self.value@ == start + bounded_write(chars@.take(i as int), budget).0,
                !bounded_write(chars@.take(i as int), budget).1,
                self.used == start_used + utf8_len(bounded_write(chars@.take(i as int), budget).0),
            decreases chars.len() - i,
        {
            let c = chars[i];
            let ghost before = bounded_write(chars@.take(i as int), budget).0;
            proof {
                assert(chars@.take(i + 1).drop_last() =~= chars@.take(i as int));
                lemma_utf8_len_concat(start, before);
            }
            if !is_control_exec(c) {
                let w = utf8_width_exec(c);
                if w > self.max_bytes - self.used {
                    self.truncated = true;
                    proof {
                        lemma_bounded_write_stops(chars@, budget, i + 1);
                    }
                    return Err(());
                }
                crate::text::push_char(&mut self.value, c);
                self.used = self.used + w;
                proof {
                    assert(self.value@ =~= start + before.push(c));
                    assert(before.push(c).drop_last() =~= before);
                    lemma_utf8_len_concat(start, before.push(c));
                }
            }
            i += 1;
        }
        proof {
            assert(chars@.take(chars.len() as int) =~= chars@);
        }
        Ok(())
    }

    /// The buffer's text; when writing stopped short, cut to leave room for
    /// an ellipsis and ended with one (or empty if even that does not fit).
    pub fn finish(self) -> (r: String)
        requires
            self.wf(),
        ensures
            r@ == finished_text(self.value@, self.max_bytes as nat, self.truncated),
    {
        if !self.truncated {
            return self.value;
        }
        if self.max_bytes < 3 {
            return String::new();
        }
        let limit = self.max_bytes - 3;
        let chars = chars_of(self.value.as_str());
        let mut out = String::new();
        let mut used: usize = 0;
        let mut i: usize = 0;
        let mut stop = false;
        while i < chars.len() && !stop
            invariant
                chars@ == self.value@,
                i <= chars.len(),
                out@ == chars@.take(i as int),
                used == utf8_len(out@),
                used <= limit,
                chars@.take(i as int) == prefix_within(chars@, limit as nat).take(i as int),
                i <= prefix_within(chars@, limit as nat).len(),
                stop ==> prefix_within(chars@, limit as nat) == chars@.take(i as int),
            decreases chars.len() - i, (if stop { 0int } else { 1int }),
        {
            let w = utf8_width_exec(chars[i]);
            assert(chars@.take(i + 1).drop_last() =~= chars@.take(i as int));
            if w > limit - used {
                proof {
                    lemma_prefix_within_stop(chars@, limit as nat, i as int);
                }
                stop = true;
            } else {
                crate::text::push_char(&mut out, chars[i]);
                used = used + w;
                proof {
                    assert(out@.drop_last() =~= chars@.take(i as int));
                    lemma_prefix_within_step(chars@, limit as nat, i as int);
                }
                i += 1;
                assert(out@ =~= chars@.take(i as int));
            }
        }
        proof {
            if !stop {
                assert(chars@.take(i as int) =~= chars@);
                lemma_prefix_within_all(chars@, limit as nat);
            }
        }
        out.append("\u{2026}");
        out
    }
}

proof fn lemma_utf8_len_concat(a: Seq<char>, b: Seq<char>)
    ensures
        utf8_len(a + b) == utf8_len(a) + utf8_len(b),
    decreases b.len(),
{
    if b.len() > 0 {
        lemma_utf8_len_concat(a, b.drop_last());
        assert((a + b).drop_last() =~= a + b.drop_last());
    } else {
        assert(a + b =~= a);
    }
}

/// The longest prefix of `s` within `budget` UTF-8 bytes.
pub open spec fn prefix_within(s: Seq<char>, budget: nat) -> Seq<char>
    decreases s.len(),
{
    if s.len() == 0 {
        seq![]
    } else if utf8_len(s) <= budget {
        s
    } else {
        prefix_within(s.drop_last(), budget)
    }
}

proof fn lemma_utf8_len_prefix(s: Seq<char>, i: int)
    requires
        0 <= i <= s.len(),
    ensures
        utf8_len(s.take(i)) <= utf8_len(s),
    decreases s.len(),
{
    if i < s.len() {
        lemma_utf8_len_prefix(s.drop_last(), i);
        assert(s.drop_last().take(i) =~= s.take(i));
    } else {
        assert(s.take(i) =~= s);
    }
}

proof fn lemma_prefix_within_shape(s: Seq<char>, budget: nat)
    ensures
        prefix_within(s, budget).len() <= s.len(),
        prefix_within(s, budget) == s.take(prefix_within(s, budget).len() as int),
        utf8_len(prefix_within(s, budget)) <= budget,
        prefix_within(s, budget).len() < s.len() ==> utf8_len(
            s.take(prefix_within(s, budget).len() + 1int),
        ) > budget,
    decreases s.len(),
{
    if s.len() == 0 {
        assert(s.take(0) =~= s);
    } else if utf8_len(s) <= budget {
        assert(s.take(s.len() as int) =~= s);
    } else {
        let t = s.drop_last();
        lemma_prefix_within_shape(t, budget);
        let p = prefix_within(t, budget);
        assert(t.take(p.len() as int) =~= s.take(p.len() as int));
        if p.len() < t.len() {
            assert(t.take(p.len() + 1int) =~= s.take(p.len() + 1int));
        } else {
            assert(s.take(p.len() + 1int) =~= s);
        }
    }
}

proof fn lemma_prefix_within_step(s: Seq<char>, budget: nat, i: int)
    requires
        0 <= i < s.len(),
        i <= prefix_within(s, budget).len(),
        utf8_len(s.take(i + 1)) <= budget,
    ensures
        i + 1 <= prefix_within(s, budget).len(),
        s.take(i + 1) == prefix_within(s, budget).take(i + 1),
{
    lemma_prefix_within_shape(s, budget);
    let p = prefix_within(s, budget);
    if p.len() == i {
        assert(false);
    }
    assert(p.take(i + 1) =~= s.take(i + 1));
}

proof fn lemma_prefix_within_stop(s: Seq<char>, budget: nat, i: int)
    requires
        0 <= i < s.len(),
        i <= prefix_within(s, budget).len(),
        s.take(i) == prefix_within(s, budget).take(i),
        utf8_len(s.take(i + 1)) > budget,
    ensures
        prefix_within(s, budget) == s.take(i),
{
    lemma_prefix_within_shape(s, budget);
    let p = prefix_within(s, budget);
    if p.len() > i {
        lemma_utf8_len_prefix(p, i + 1);
        assert(p.take(i + 1) =~= s.take(i + 1));
    }
    assert(p =~= s.take(i));
}

proof fn lemma_prefix_within_all(s: Seq<char>, budget: nat)
    requires
        utf8_len(s) <= budget,
    ensures
        prefix_within(s, budget) == s,
{
}

/// What a finished buffer holds.
pub open spec fn finished_text(value: Seq<char>, max_bytes: nat, truncated: bool) -> Seq<char> {
    if !truncated {
        value
    } else if max_bytes < 3 {
        seq![]
    } else {
        prefix_within(value, (max_bytes - 3) as nat) + "\u{2026}"@
    }
}


proof fn lemma_bounded_write_visible(s: Seq<char>, budget: nat)
    ensures
        !has_control(bounded_write(s, budget).0),
    decreases s.len(),
{
    if s.len() > 0 {
        lemma_bounded_write_visible(s.drop_last(), budget);
        let (out, stopped) = bounded_write(s.drop_last(), budget);
        if !stopped && !is_control(s.last()) && utf8_len(out) + utf8_width(s.last()) <= budget {
            assert forall|i: int| 0 <= i < out.push(s.last()).len() implies !is_control(
                #[trigger] out.push(s.last())[i],
            ) by {
                if i < out.len() {
                    assert(out.push(s.last())[i] == out[i]);
                }
            }
        }
    }
}

proof fn lemma_finished_text_bounded(value: Seq<char>, max_bytes: nat, truncated: bool)
    requires
        utf8_len(value) <= max_bytes,
        !has_control(value),
    ensures
        utf8_len(finished_text(value, max_bytes, truncated)) <= max_bytes,
        !has_control(finished_text(value, max_bytes, truncated)),
{
    if truncated && max_bytes >= 3 {
        let budget = (max_bytes - 3) as nat;
        lemma_prefix_within_shape(value, budget);
        let p = prefix_within(value, budget);
        reveal_strlit("\u{2026}");
        let e = "\u{2026}"@;
        assert(e.len() == 1);
        assert(e.drop_last() =~= Seq::<char>::empty());
        assert((e.last() as u32) == 0x2026);
        assert(utf8_width(e.last()) == 3);
        assert(utf8_len(e.drop_last()) == 0);
        assert(utf8_len(e) == utf8_len(e.drop_last()) + utf8_width(e.last()));
        lemma_utf8_len_concat(p, e);
        assert forall|i: int| 0 <= i < (p + e).len() implies !is_control(#[trigger] (p + e)[i]) by {
            if i < p.len() {
                assert((p + e)[i] == value[i]);
            }
        }
    } else if truncated {
        assert(!has_control(Seq::<char>::empty()));
    }
}

/// A text rendered into at most `max_bytes` UTF-8 bytes without control
/// characters, ended with an ellipsis when it did not fit.
pub fn format_bounded(value: &str, max_bytes: usize) -> (r: String)
    ensures
        r@ == finished_text(
            bounded_write(value@, max_bytes as nat).0,
            max_bytes as nat,
            bounded_write(value@, max_bytes as nat).1,
        ),
        utf8_len(r@) <= max_bytes,
        !has_control(r@),
{
    let mut rendered = SanitizedBoundedString::new(max_bytes);
    let _ = rendered.write_str(value);
    proof {
        assert(Seq::<char>::empty() + bounded_write(value@, max_bytes as nat).0 =~= bounded_write(
            value@,
            max_bytes as nat,
        ).0);
        lemma_bounded_write_fits(value@, max_bytes as nat);
        lemma_bounded_write_visible(value@, max_bytes as nat);
        lemma_finished_text_bounded(
            bounded_write(value@, max_bytes as nat).0,
            max_bytes as nat,
            bounded_write(value@, max_bytes as nat).1,
        );
    }
    rendered.finish()
}

/// A configuration diagnostic made safe to show: control characters removed
/// and the text bounded to the diagnostic budget.
pub fn sanitize_config_diagnostic(value: &str) -> (r: String)
    ensures
        r@ == finished_text(
            bounded_write(value@, CONFIG_DIAGNOSTIC_MAX_BYTES as nat).0,
            CONFIG_DIAGNOSTIC_MAX_BYTES as nat,
            bounded_write(value@, CONFIG_DIAGNOSTIC_MAX_BYTES as nat).1,
        ),
        utf8_len(r@) <= CONFIG_DIAGNOSTIC_MAX_BYTES,
        !has_control(r@),
{
    format_bounded(value, CONFIG_DIAGNOSTIC_MAX_BYTES)
}

pub fn sanitize_and_truncate(value: &str, max_bytes: usize) -> (r: String)
    ensures
        r@ == finished_text(
            bounded_write(value@, max_bytes as nat).0,
            max_bytes as nat,
            bounded_write(value@, max_bytes as nat).1,
        ),
        utf8_len(r@) <= max_bytes,
        !has_control(r@),
{
    format_bounded(value, max_bytes)
}

/// The characters a shell would interpret are exactly `|`, `&`, `;`, `<`,
/// `>`, `$`, backquote, `(`, `)`, newline and carriage return: a text holds a
/// shell operator just when it holds one of them, and such a text is never
/// migrated to an argv.
pub proof fn law_shell_operators(s: Seq<char>)
    ensures
        has_shell_operator(s) == (s.contains('|') || s.contains('&') || s.contains(';') || s.contains('<')
            || s.contains('>') || s.contains('$') || s.contains('`') || s.contains('(') || s.contains(')')
            || s.contains('\n') || s.contains('\r')),
        (s.contains('|') || s.contains('&') || s.contains(';') || s.contains('<') || s.contains('>')
            || s.contains('$') || s.contains('`') || s.contains('(') || s.contains(')') || s.contains('\n')
            || s.contains('\r')) ==> split_error(s) is Some,
{
    if has_shell_operator(s) {
        let i = choose|i: int| 0 <= i < s.len() && is_shell_operator(#[trigger] s[i]);
        assert(s.contains(s[i]));
    }
    if s.contains('|') || s.contains('&') || s.contains(';') || s.contains('<') || s.contains('>') || s.contains('$')
        || s.contains('`') || s.contains('(') || s.contains(')') || s.contains('\n') || s.contains('\r') {
        let c: char = if s.contains('|') { '|' } else if s.contains('&') { '&' } else if s.contains(';') { ';' }
            else if s.contains('<') { '<' } else if s.contains('>') { '>' } else if s.contains('$') { '$' }
            else if s.contains('`') { '`' } else if s.contains('(') { '(' } else if s.contains(')') { ')' }
            else if s.contains('\n') { '\n' } else { '\r' };
        let i = choose|i: int| 0 <= i < s.len() && s[i] == c;
        assert(is_shell_operator(s[i]));
    }
}

/// A structured command whose argv holds a word with a shell operator (any
/// of the characters of `law_shell_operators`) is refused by validation.
pub proof fn law_shell_operator_in_argv_is_refused(id: Seq<char>, root: Seq<char>, c: CommandSpec, k: int, x: char)
    requires
        0 <= k < c.argv@.len(),
        c.argv@[k]@.contains(x),
        x == '|' || x == '&' || x == ';' || x == '<' || x == '>' || x == '$' || x == '`' || x == '(' || x == ')'
            || x == '\n' || x == '\r',
    ensures
        command_error(id, root, c) is Some,
{
    let i = choose|i: int| 0 <= i < c.argv@[k]@.len() && c.argv@[k]@[i] == x;
    assert(is_shell_operator(c.argv@[k]@[i]));
    assert(has_shell_operator(c.argv@[k]@));
    assert(any_shell_operator(c.argv@));
}

} // verus!
