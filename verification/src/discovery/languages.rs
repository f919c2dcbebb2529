//! Which language a workspace directory holds, judged by its marker files,
//! and which quality commands its configuration and the available tools
//! call for.

use vstd::prelude::*;

use crate::json::{json_parsed, member, JsonValue};
use crate::strset::{increasing, members};
use crate::text::{lines, lower, split_char, starts_with, ends_with, trim, views};

verus! {

/// What discovery learned of a workspace directory beside its markers: the
/// texts of `pyproject.toml`, `requirements.txt` and `package.json` (each
/// empty when absent), which lock and configuration
/// files exist, whether the directory is one, and which tools are on `PATH`.
#[derive(Debug)]
pub struct WorkspaceProbe {
    pub pyproject: String,
    pub requirements: String,
    pub package_json: String,
    pub uv_lock: bool,
    pub poetry_lock: bool,
    pub pdm_lock: bool,
    pub pytest_ini: bool,
    pub tox_ini: bool,
    pub pnpm_lock: bool,
    pub yarn_lock: bool,
    pub bun_lockb: bool,
    pub bun_lock: bool,
    pub gradlew: bool,
    pub makefile: bool,
    pub root_is_dir: bool,
    pub staticcheck: bool,
    pub mvn: bool,
    pub gradle: bool,
    pub dotnet: bool,
    pub cmake: bool,
    pub meson: bool,
    pub make: bool,
    pub shellcheck: bool,
    pub sqlfluff: bool,
    pub terraform: bool,
}

/// A discovered command: its words, purpose and confidence.
pub type CommandView = (Seq<Seq<char>>, Seq<char>, Seq<char>);

/// A command with its words as exec values.
pub type Command = (Vec<String>, &'static str, &'static str);

pub open spec fn command_view(c: Command) -> CommandView {
    (views(c.0@), c.1@, c.2@)
}

pub open spec fn command_views(cs: Seq<Command>) -> Seq<CommandView> {
    cs.map_values(|c: Command| command_view(c))
}

fn words(ws: &[&str]) -> (r: Vec<String>)
    ensures
        views(r@) == ws@.map_values(|w: &str| w@),
{
    let mut out: Vec<String> = Vec::new();
    let mut i: usize = 0;
    while i < ws.len()
        invariant
            i <= ws.len(),
            views(out@) == ws@.take(i as int).map_values(|w: &str| w@),
        decreases ws.len() - i,
    {
        let ghost before = out@;
        out.push(String::from_str(ws[i]));
        assert(views(out@) =~= views(before).push(ws@[i as int]@));
        assert(ws@.take(i + 1).map_values(|w: &str| w@) =~= ws@.take(i as int).map_values(|w: &str| w@).push(ws@[i as int]@));
        i += 1;
    }
    assert(ws@.take(ws.len() as int) =~= ws@);
    out
}

// ---------------------------------------------------------------------------
// Configuration texts.

/// A line that, trimmed, is exactly `[name]`.
pub open spec fn has_table_text(text: Seq<char>, name: Seq<char>) -> bool {
    exists|k: int| 0 <= k < lines(text).len() && trim(#[trigger] lines(text)[k]) == "["@ + name + "]"@
}

pub fn has_table(text: &str, name: &str) -> (r: bool)
    ensures
        r == has_table_text(text@, name@),
{
    let header = crate::text::concat3("[", name, "]");
    let c = crate::text::chars_of(text);
    let ls = crate::text::lines_exec(c.as_slice());
    let ghost lv = crate::text::deep(ls@);
    let mut i: usize = 0;
    while i < ls.len()
        invariant
            lv == crate::text::deep(ls@),
            lv == lines(text@),
            header@ == "["@ + name@ + "]"@,
            i <= ls.len(),
            forall|k: int| 0 <= k < i ==> trim(#[trigger] lv[k]) != "["@ + name@ + "]"@,
        decreases ls.len() - i,
    {
        assert(lv[i as int] == ls@[i as int]@);
        let t = crate::text::trim_exec(ls[i].as_slice());
        let ts = crate::text::string_of(t.as_slice());
        if crate::text::same_text(ts.as_str(), header.as_str()) {
            return true;
        }
        i += 1;
    }
    false
}

/// The text before the first of the given characters.
pub open spec fn before_any(s: Seq<char>, stops: Seq<char>) -> Seq<char>
    decreases s.len(),
{
    if s.len() == 0 || stops.contains(s[0]) {
        seq![]
    } else {
        seq![s[0]] + before_any(s.drop_first(), stops)
    }
}

fn before_any_exec(s: &[char], stops: &[char]) -> (r: Vec<char>)
    ensures
        r@ == before_any(s@, stops@),
{
    let mut out: Vec<char> = Vec::new();
    let mut i: usize = 0;
    assert(s@.skip(0) =~= s@);
    while i < s.len()
        invariant
            i <= s.len(),
            out@ + before_any(s@.skip(i as int), stops@) == before_any(s@, stops@),
        decreases s.len() - i,
    {
        let mut stop = false;
        let mut k: usize = 0;
        while k < stops.len()
            invariant
                k <= stops.len(),
                i < s.len(),
                stop == exists|q: int| 0 <= q < k && stops@[q] == s@[i as int],
            decreases stops.len() - k,
        {
            if stops[k] == s[i] {
                stop = true;
            }
            k += 1;
        }
        let ghost rest = s@.skip(i as int);
        assert(rest[0] == s@[i as int]);
        if stop {
            assert(stops@.contains(rest[0]));
            assert(before_any(rest, stops@) =~= Seq::<char>::empty());
            assert(out@ =~= out@ + before_any(rest, stops@));
            return out;
        }
        assert(rest.drop_first() =~= s@.skip(i + 1));
        out.push(s[i]);
        i += 1;
        assert(out@ + before_any(s@.skip(i as int), stops@) =~= before_any(s@, stops@));
    }
    assert(before_any(s@.skip(i as int), stops@) =~= Seq::<char>::empty());
    assert(out@ + before_any(s@.skip(i as int), stops@) =~= out@);
    out
}

/// The package a requirement line names: the line before any comment,
/// trimmed, up to the first version or marker character, trimmed.
pub open spec fn requirement_name(line: Seq<char>) -> Seq<char> {
    trim(before_any(trim(before_any(line, seq!['#'])), seq!['<', '>', '=', '!', '~', '[', ';']))
}

/// Some requirement line names the package, ignoring ASCII case.
pub open spec fn has_dependency_text(requirements: Seq<char>, package: Seq<char>) -> bool {
    exists|k: int|
        0 <= k < lines(requirements).len() && lower(requirement_name(#[trigger] lines(requirements)[k]))
            == lower(package)
}

pub fn has_dependency(requirements: &str, package: &str) -> (r: bool)
    ensures
        r == has_dependency_text(requirements@, package@),
{
    let pk = crate::text::chars_of(package);
    let want = crate::text::to_lower(pk.as_slice());
    let c = crate::text::chars_of(requirements);
    let ls = crate::text::lines_exec(c.as_slice());
    let ghost lv = crate::text::deep(ls@);
    let hash: Vec<char> = vec!['#'];
    let marks: Vec<char> = vec!['<', '>', '=', '!', '~', '[', ';'];
    assert(hash@ =~= seq!['#']);
    assert(marks@ =~= seq!['<', '>', '=', '!', '~', '[', ';']);
    let mut i: usize = 0;
    while i < ls.len()
        invariant
            lv == crate::text::deep(ls@),
            lv == lines(requirements@),
            want@ == lower(package@),
            hash@ == seq!['#'],
            marks@ == seq!['<', '>', '=', '!', '~', '[', ';'],
            i <= ls.len(),
            forall|k: int| 0 <= k < i ==> lower(requirement_name(#[trigger] lv[k])) != lower(package@),
        decreases ls.len() - i,
    {
        assert(lv[i as int] == ls@[i as int]@);
        let a = before_any_exec(ls[i].as_slice(), hash.as_slice());
        let b = crate::text::trim_exec(a.as_slice());
        let d = before_any_exec(b.as_slice(), marks.as_slice());
        let e = crate::text::trim_exec(d.as_slice());
        let name = crate::text::to_lower(e.as_slice());
        let ns = crate::text::string_of(name.as_slice());
        let ws = crate::text::string_of(want.as_slice());
        if crate::text::same_text(ns.as_str(), ws.as_str()) {
            return true;
        }
        i += 1;
    }
    false
}

// ---------------------------------------------------------------------------
// Commands per language.

pub open spec fn python_prefix(probe: WorkspaceProbe) -> Seq<Seq<char>> {
    if probe.uv_lock || exists|k: int| 0 <= k < lines(probe.pyproject@).len() && trim(#[trigger] lines(probe.pyproject@)[k]) == "[tool.uv]"@ {
        seq!["uv"@, "run"@]
    } else if probe.poetry_lock {
        seq!["poetry"@, "run"@]
    } else if probe.pdm_lock {
        seq!["pdm"@, "run"@]
    } else {
        seq![]
    }
}

pub open spec fn pytest_configured(probe: WorkspaceProbe) -> bool {
    (exists|k: int| 0 <= k < lines(probe.pyproject@).len() && starts_with(trim(#[trigger] lines(probe.pyproject@)[k]), "[tool.pytest"@))
        || probe.pytest_ini || probe.tox_ini || has_dependency_text(probe.requirements@, "pytest"@)
}

/// Ruff, mypy and pytest, each only where the project configures or
/// requires it, run through the project's environment manager.
pub open spec fn python_commands_spec(probe: WorkspaceProbe) -> Seq<CommandView> {
    let prefix = python_prefix(probe);
    let ruff = has_table_text(probe.pyproject@, "tool.ruff"@) || has_dependency_text(probe.requirements@, "ruff"@);
    let mypy = has_table_text(probe.pyproject@, "tool.mypy"@) || has_dependency_text(probe.requirements@, "mypy"@);
    let a: Seq<CommandView> = if ruff {
        seq![(prefix + seq!["ruff"@, "check"@], "lint"@, "high"@), (prefix + seq!["ruff"@, "format"@, "--check"@], "format"@, "high"@)]
    } else {
        seq![]
    };
    let b: Seq<CommandView> = if mypy { seq![(prefix + seq!["mypy"@], "types"@, "high"@)] } else { seq![] };
    let c: Seq<CommandView> = if pytest_configured(probe) { seq![(prefix + seq!["pytest"@], "test"@, "high"@)] } else { seq![] };
    a + b + c
}

fn any_trimmed_line(text: &str, want: &str, prefix_only: bool) -> (r: bool)
    ensures
        r == exists|k: int| 0 <= k < lines(text@).len() && (if prefix_only {
            starts_with(trim(#[trigger] lines(text@)[k]), want@)
        } else {
            trim(lines(text@)[k]) == want@
        }),
{
    let c = crate::text::chars_of(text);
    let ls = crate::text::lines_exec(c.as_slice());
    let ghost lv = crate::text::deep(ls@);
    let mut i: usize = 0;
    while i < ls.len()
        invariant
            lv == crate::text::deep(ls@),
            lv == lines(text@),
            i <= ls.len(),
            forall|k: int| 0 <= k < i ==> !(if prefix_only {
                starts_with(trim(#[trigger] lv[k]), want@)
            } else {
                trim(lv[k]) == want@
            }),
        decreases ls.len() - i,
    {
        assert(lv[i as int] == ls@[i as int]@);
        let t = crate::text::trim_exec(ls[i].as_slice());
        let hit = if prefix_only {
            crate::text::starts_with_str(t.as_slice(), want)
        } else {
            let ts = crate::text::string_of(t.as_slice());
            crate::text::same_text(ts.as_str(), want)
        };
        if hit {
            return true;
        }
        i += 1;
    }
    false
}

fn prefixed(prefix: &Vec<String>, rest: &[&str]) -> (r: Vec<String>)
    ensures
        views(r@) == views(prefix@) + rest@.map_values(|w: &str| w@),
{
    let mut out: Vec<String> = Vec::new();
    let mut i: usize = 0;
    while i < prefix.len()
        invariant
            i <= prefix.len(),
            views(out@) == views(prefix@).take(i as int),
        decreases prefix.len() - i,
    {
        let ghost b0 = out@;
        out.push(prefix[i].clone());
        assert(views(out@) =~= views(b0).push(prefix@[i as int]@));
        assert(views(prefix@).take(i + 1) =~= views(prefix@).take(i as int).push(prefix@[i as int]@));
        i += 1;
    }
    assert(views(prefix@).take(prefix.len() as int) =~= views(prefix@));
    let tail = words(rest);
    let ghost before = out@;
    let mut k: usize = 0;
    while k < tail.len()
        invariant
            k <= tail.len(),
            views(out@) == views(before) + views(tail@).take(k as int),
        decreases tail.len() - k,
    {
        let ghost b1 = out@;
        out.push(tail[k].clone());
        assert(views(out@) =~= views(b1).push(tail@[k as int]@));
        assert(views(tail@).take(k + 1) =~= views(tail@).take(k as int).push(tail@[k as int]@));
        assert(views(out@) =~= views(before) + views(tail@).take(k + 1));
        k += 1;
    }
    assert(views(tail@).take(tail.len() as int) =~= views(tail@));
    out
}

pub fn python_commands(probe: &WorkspaceProbe) -> (r: Vec<Command>)
    ensures
        command_views(r@) == python_commands_spec(*probe),
{
    let uv = probe.uv_lock || any_trimmed_line(probe.pyproject.as_str(), "[tool.uv]", false);
    let prefix: Vec<String> = if uv {
        words(&["uv", "run"])
    } else if probe.poetry_lock {
        words(&["poetry", "run"])
    } else if probe.pdm_lock {
        words(&["pdm", "run"])
    } else {
        Vec::new()
    };
    assert(views(prefix@) =~= python_prefix(*probe));
    let ruff = has_table(probe.pyproject.as_str(), "tool.ruff") || has_dependency(probe.requirements.as_str(), "ruff");
    let mypy = has_table(probe.pyproject.as_str(), "tool.mypy") || has_dependency(probe.requirements.as_str(), "mypy");
    let pytest = any_trimmed_line(probe.pyproject.as_str(), "[tool.pytest", true) || probe.pytest_ini || probe.tox_ini
        || has_dependency(probe.requirements.as_str(), "pytest");
    let ghost pv = python_prefix(*probe);
    let mut out: Vec<Command> = Vec::new();
    if ruff {
        let c1 = prefixed(&prefix, &["ruff", "check"]);
        assert(views(c1@) =~= pv + seq!["ruff"@, "check"@]);
        let c2 = prefixed(&prefix, &["ruff", "format", "--check"]);
        assert(views(c2@) =~= pv + seq!["ruff"@, "format"@, "--check"@]);
        out.push((c1, "lint", "high"));
        out.push((c2, "format", "high"));
    }
    let ghost after_ruff = command_views(out@);
    if mypy {
        let c3 = prefixed(&prefix, &["mypy"]);
        assert(views(c3@) =~= pv + seq!["mypy"@]);
        out.push((c3, "types", "high"));
        assert(command_views(out@) =~= after_ruff.push((pv + seq!["mypy"@], "types"@, "high"@)));
    }
    let ghost after_mypy = command_views(out@);
    if pytest {
        let c4 = prefixed(&prefix, &["pytest"]);
        assert(views(c4@) =~= pv + seq!["pytest"@]);
        out.push((c4, "test", "high"));
        assert(command_views(out@) =~= after_mypy.push((pv + seq!["pytest"@], "test"@, "high"@)));
    }
    assert(command_views(out@) =~= python_commands_spec(*probe));
    out
}

pub open spec fn script_manager(probe: WorkspaceProbe) -> Seq<char> {
    if probe.pnpm_lock {
        "pnpm"@
    } else if probe.yarn_lock {
        "yarn"@
    } else if probe.bun_lockb || probe.bun_lock {
        "bun"@
    } else {
        "npm"@
    }
}

/// The `scripts` object of `package.json`, when the text parses with
/// `serde_json` into an object that has one.
pub open spec fn package_scripts(probe: WorkspaceProbe) -> Option<Seq<(String, JsonValue)>> {
    match json_parsed(probe.package_json@) {
        Ok(JsonValue::Object(e)) => match member(e@, "scripts"@) {
            Some(JsonValue::Object(sc)) => Some(sc@),
            _ => None,
        },
        _ => None,
    }
}

pub open spec fn script_command(scripts: Seq<(String, JsonValue)>, manager: Seq<char>, name: Seq<char>) -> Seq<CommandView> {
    if member(scripts, name) is Some {
        seq![(seq![manager, "run"@, name], name, "high"@)]
    } else {
        seq![]
    }
}

/// The package scripts named lint, format, typecheck, test and build, in
/// that order, run through the package manager the lock file shows.
pub open spec fn typescript_commands_spec(probe: WorkspaceProbe) -> Seq<CommandView> {
    match package_scripts(probe) {
        None => seq![],
        Some(sc) => {
            let m = script_manager(probe);
            script_command(sc, m, "lint"@) + script_command(sc, m, "format"@) + script_command(sc, m, "typecheck"@)
                + script_command(sc, m, "test"@) + script_command(sc, m, "build"@)
        },
    }
}

fn push_script(out: &mut Vec<Command>, scripts: &Vec<(String, JsonValue)>, manager: &'static str, name: &'static str)
    ensures
        command_views(final(out)@) == command_views(old(out)@) + script_command(scripts@, manager@, name@),
{
    let ghost before = command_views(out@);
    if crate::json::get(scripts, name).is_some() {
        let mut argv: Vec<String> = Vec::new();
        argv.push(String::from_str(manager));
        argv.push(String::from_str("run"));
        argv.push(String::from_str(name));
        assert(views(argv@) =~= seq![manager@, "run"@, name@]);
        out.push((argv, name, "high"));
        assert(command_views(out@) =~= before + script_command(scripts@, manager@, name@));
    } else {
        assert(command_views(out@) =~= before + script_command(scripts@, manager@, name@));
    }
}

pub fn typescript_commands(probe: &WorkspaceProbe) -> (r: Vec<Command>)
    ensures
        command_views(r@) == typescript_commands_spec(*probe),
{
    let mut out: Vec<Command> = Vec::new();
    let parsed = crate::json::parse_json(probe.package_json.as_str());
    let scripts = match &parsed {
        Ok(JsonValue::Object(e)) => match crate::json::get(e, "scripts") {
            Some(JsonValue::Object(sc)) => sc,
            _ => return out,
        },
        _ => return out,
    };
    let manager: &'static str = if probe.pnpm_lock {
        "pnpm"
    } else if probe.yarn_lock {
        "yarn"
    } else if probe.bun_lockb || probe.bun_lock {
        "bun"
    } else {
        "npm"
    };
    assert(command_views(out@) =~= Seq::<CommandView>::empty());
    push_script(&mut out, scripts, manager, "lint");
    push_script(&mut out, scripts, manager, "format");
    push_script(&mut out, scripts, manager, "typecheck");
    push_script(&mut out, scripts, manager, "test");
    push_script(&mut out, scripts, manager, "build");
    assert(command_views(out@) =~= typescript_commands_spec(*probe));
    out
}

pub open spec fn rust_commands_spec() -> Seq<CommandView> {
    seq![
        (seq!["cargo"@, "fmt"@, "--check"@], "format"@, "high"@),
        (seq!["cargo"@, "clippy"@, "--all-targets"@, "--"@, "-D"@, "warnings"@], "lint"@, "high"@),
        (seq!["cargo"@, "test"@], "test"@, "high"@),
        (seq!["cargo"@, "build"@], "build"@, "high"@),
    ]
}

/// Appends a command of the given words.
fn push_command(out: &mut Vec<Command>, ws: &[&str], purpose: &'static str, confidence: &'static str)
    ensures
        command_views(final(out)@) == command_views(old(out)@).push((ws@.map_values(|w: &str| w@), purpose@, confidence@)),
{
    let ghost before = command_views(out@);
    let argv = words(ws);
    out.push((argv, purpose, confidence));
    assert(command_views(out@) =~= before.push((ws@.map_values(|w: &str| w@), purpose@, confidence@)));
}

pub fn rust_commands() -> (r: Vec<Command>)
    ensures
        command_views(r@) == rust_commands_spec(),
{
    let mut out: Vec<Command> = Vec::new();
    let ghost e = command_views(out@);
    push_command(&mut out, &["cargo", "fmt", "--check"], "format", "high");
    push_command(&mut out, &["cargo", "clippy", "--all-targets", "--", "-D", "warnings"], "lint", "high");
    push_command(&mut out, &["cargo", "test"], "test", "high");
    push_command(&mut out, &["cargo", "build"], "build", "high");
    assert(command_views(out@) =~~= rust_commands_spec());
    out
}

pub open spec fn go_commands_spec(probe: WorkspaceProbe) -> Seq<CommandView> {
    let base = seq![
        (seq!["gofmt"@, "-l"@, "."@], "format"@, "high"@),
        (seq!["go"@, "vet"@, "./..."@], "lint"@, "high"@),
        (seq!["go"@, "test"@, "./..."@], "test"@, "high"@),
    ];
    if probe.staticcheck {
        base.push((seq!["staticcheck"@, "./..."@], "static analysis"@, "high"@))
    } else {
        base
    }
}

pub fn go_commands(probe: &WorkspaceProbe) -> (r: Vec<Command>)
    ensures
        command_views(r@) == go_commands_spec(*probe),
{
    let mut out: Vec<Command> = Vec::new();
    push_command(&mut out, &["gofmt", "-l", "."], "format", "high");
    push_command(&mut out, &["go", "vet", "./..."], "lint", "high");
    push_command(&mut out, &["go", "test", "./..."], "test", "high");
    if probe.staticcheck {
        push_command(&mut out, &["staticcheck", "./..."], "static analysis", "high");
    }
    assert(command_views(out@) =~~= go_commands_spec(*probe));
    out
}

pub open spec fn jvm_commands_spec(markers: Set<Seq<char>>, probe: WorkspaceProbe) -> Seq<CommandView> {
    if markers.contains("pom.xml"@) && probe.mvn {
        seq![(seq!["mvn"@, "test"@], "test"@, "high"@), (seq!["mvn"@, "verify"@], "build"@, "high"@)]
    } else if probe.gradlew {
        seq![(seq!["./gradlew"@, "test"@], "test"@, "high"@), (seq!["./gradlew"@, "build"@], "build"@, "high"@)]
    } else if probe.gradle {
        seq![(seq!["gradle"@, "test"@], "test"@, "high"@), (seq!["gradle"@, "build"@], "build"@, "high"@)]
    } else {
        seq![]
    }
}

pub fn jvm_commands(markers: &Vec<String>, probe: &WorkspaceProbe) -> (r: Vec<Command>)
    ensures
        command_views(r@) == jvm_commands_spec(members(markers@), *probe),
{
    let mut out: Vec<Command> = Vec::new();
    if crate::strset::holds_text(markers, "pom.xml") && probe.mvn {
        push_command(&mut out, &["mvn", "test"], "test", "high");
        push_command(&mut out, &["mvn", "verify"], "build", "high");
    } else if probe.gradlew {
        push_command(&mut out, &["./gradlew", "test"], "test", "high");
        push_command(&mut out, &["./gradlew", "build"], "build", "high");
    } else if probe.gradle {
        push_command(&mut out, &["gradle", "test"], "test", "high");
        push_command(&mut out, &["gradle", "build"], "build", "high");
    }
    assert(command_views(out@) =~~= jvm_commands_spec(members(markers@), *probe));
    out
}

pub open spec fn csharp_commands_spec(probe: WorkspaceProbe) -> Seq<CommandView> {
    if probe.dotnet {
        seq![
            (seq!["dotnet"@, "format"@], "format"@, "high"@),
            (seq!["dotnet"@, "build"@], "build"@, "high"@),
            (seq!["dotnet"@, "test"@], "test"@, "high"@),
        ]
    } else {
        seq![]
    }
}

pub fn csharp_commands(probe: &WorkspaceProbe) -> (r: Vec<Command>)
    ensures
        command_views(r@) == csharp_commands_spec(*probe),
{
    let mut out: Vec<Command> = Vec::new();
    if probe.dotnet {
        push_command(&mut out, &["dotnet", "format"], "format", "high");
        push_command(&mut out, &["dotnet", "build"], "build", "high");
        push_command(&mut out, &["dotnet", "test"], "test", "high");
    }
    assert(command_views(out@) =~~= csharp_commands_spec(*probe));
    out
}

pub open spec fn cpp_commands_spec(markers: Set<Seq<char>>, probe: WorkspaceProbe) -> Seq<CommandView> {
    if markers.contains("CMakeLists.txt"@) && probe.cmake {
        seq![
            (seq!["cmake"@, "-S"@, "."@, "-B"@, "build"@], "configure"@, "high"@),
            (seq!["cmake"@, "--build"@, "build"@], "build"@, "high"@),
            (seq!["ctest"@, "--test-dir"@, "build"@], "test"@, "high"@),
        ]
    } else if markers.contains("meson.build"@) && probe.meson {
        seq![
            (seq!["meson"@, "setup"@, "build"@], "configure"@, "high"@),
            (seq!["meson"@, "compile"@, "-C"@, "build"@], "build"@, "high"@),
            (seq!["meson"@, "test"@, "-C"@, "build"@], "test"@, "high"@),
        ]
    } else if markers.contains("Makefile"@) && probe.make && probe.makefile {
        seq![(seq!["make"@, "test"@], "test"@, "medium"@)]
    } else {
        seq![]
    }
}

pub fn cpp_commands(markers: &Vec<String>, probe: &WorkspaceProbe) -> (r: Vec<Command>)
    ensures
        command_views(r@) == cpp_commands_spec(members(markers@), *probe),
{
    let mut out: Vec<Command> = Vec::new();
    if crate::strset::holds_text(markers, "CMakeLists.txt") && probe.cmake {
        push_command(&mut out, &["cmake", "-S", ".", "-B", "build"], "configure", "high");
        push_command(&mut out, &["cmake", "--build", "build"], "build", "high");
        push_command(&mut out, &["ctest", "--test-dir", "build"], "test", "high");
    } else if crate::strset::holds_text(markers, "meson.build") && probe.meson {
        push_command(&mut out, &["meson", "setup", "build"], "configure", "high");
        push_command(&mut out, &["meson", "compile", "-C", "build"], "build", "high");
        push_command(&mut out, &["meson", "test", "-C", "build"], "test", "high");
    } else if crate::strset::holds_text(markers, "Makefile") && probe.make && probe.makefile {
        push_command(&mut out, &["make", "test"], "test", "medium");
    }
    assert(command_views(out@) =~~= cpp_commands_spec(members(markers@), *probe));
    out
}

/// The markers, in order, that end with `suffix`.
pub open spec fn markers_ending(ms: Seq<Seq<char>>, suffix: Seq<char>) -> Seq<Seq<char>>
    decreases ms.len(),
{
    if ms.len() == 0 {
        seq![]
    } else if ends_with(ms.last(), suffix) {
        markers_ending(ms.drop_last(), suffix).push(ms.last())
    } else {
        markers_ending(ms.drop_last(), suffix)
    }
}

pub open spec fn shell_commands_spec(markers: Seq<Seq<char>>, probe: WorkspaceProbe) -> Seq<CommandView> {
    let scripts = markers_ending(markers, ".sh"@);
    if !probe.shellcheck || scripts.len() == 0 || !probe.root_is_dir {
        seq![]
    } else {
        seq![(seq!["shellcheck"@] + scripts, "lint"@, "high"@)]
    }
}

pub fn shell_commands(markers: &Vec<String>, probe: &WorkspaceProbe) -> (r: Vec<Command>)
    ensures
        command_views(r@) == shell_commands_spec(views(markers@), *probe),
{
    let mut out: Vec<Command> = Vec::new();
    if !probe.shellcheck {
        return out;
    }
    let ghost mv = views(markers@);
    let mut argv: Vec<String> = Vec::new();
    argv.push(String::from_str("shellcheck"));
    let mut i: usize = 0;
    assert(mv.take(0) =~= Seq::<Seq<char>>::empty());
    assert(views(argv@) =~= seq!["shellcheck"@] + markers_ending(mv.take(0), ".sh"@));
    while i < markers.len()
        invariant
            mv == views(markers@),
            i <= markers.len(),
            views(argv@) == seq!["shellcheck"@] + markers_ending(mv.take(i as int), ".sh"@),
        decreases markers.len() - i,
    {
        assert(mv.take(i + 1).drop_last() =~= mv.take(i as int));
        assert(mv.take(i + 1).last() == markers@[i as int]@);
        let c = crate::text::chars_of(markers[i].as_str());
        if crate::text::ends_with_str(c.as_slice(), ".sh") {
            let ghost before = argv@;
            argv.push(markers[i].clone());
            assert(views(argv@) =~= views(before).push(markers@[i as int]@));
        }
        i += 1;
    }
    assert(mv.take(markers.len() as int) =~= mv);
    if argv.len() == 1 || !probe.root_is_dir {
        return out;
    }
    out.push((argv, "lint", "high"));
    assert(command_views(out@) =~= shell_commands_spec(views(markers@), *probe));
    out
}

pub open spec fn sql_commands_spec(probe: WorkspaceProbe) -> Seq<CommandView> {
    if probe.sqlfluff {
        seq![(seq!["sqlfluff"@, "lint"@], "lint"@, "high"@)]
    } else {
        seq![]
    }
}

pub fn sql_commands(probe: &WorkspaceProbe) -> (r: Vec<Command>)
    ensures
        command_views(r@) == sql_commands_spec(*probe),
{
    let mut out: Vec<Command> = Vec::new();
    if probe.sqlfluff {
        push_command(&mut out, &["sqlfluff", "lint"], "lint", "high");
    }
    assert(command_views(out@) =~~= sql_commands_spec(*probe));
    out
}

pub open spec fn terraform_commands_spec(probe: WorkspaceProbe) -> Seq<CommandView> {
    if probe.terraform {
        seq![(seq!["terraform"@, "fmt"@, "-check"@], "format"@, "high"@), (seq!["terraform"@, "validate"@], "validate"@, "high"@)]
    } else {
        seq![]
    }
}

pub fn terraform_commands(probe: &WorkspaceProbe) -> (r: Vec<Command>)
    ensures
        command_views(r@) == terraform_commands_spec(*probe),
{
    let mut out: Vec<Command> = Vec::new();
    if probe.terraform {
        push_command(&mut out, &["terraform", "fmt", "-check"], "format", "high");
        push_command(&mut out, &["terraform", "validate"], "validate", "high");
    }
    assert(command_views(out@) =~~= terraform_commands_spec(*probe));
    out
}

} // verus!
