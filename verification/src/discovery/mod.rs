//! Workspace discovery: the workspaces and commands a repository declares, and
//! the bounded gitignore matching that decides which files discovery sees.

pub mod assemble;
pub mod gitignore;
pub mod languages;

use vstd::prelude::*;

use crate::discovery::languages::{command_view, command_views, Command, CommandView, WorkspaceProbe};
use crate::strset::{holds_text, increasing, members};
use crate::text::{ends_with, views};

verus! {

/// A command that checks a workspace.
#[derive(Debug, Clone, PartialEq, Eq)]
pub struct CommandSpec {
    pub argv: Vec<String>,
    pub cwd: String,
    pub timeout_seconds: u64,
    pub tier: String,
    pub purpose: String,
    pub source: String,
    pub confidence: String,
}

/// A command that measures a workspace's test coverage.
#[derive(Debug, Clone, PartialEq, Eq)]
pub struct CoverageSpec {
    pub argv: Vec<String>,
    pub cwd: String,
    pub timeout_seconds: u64,
    pub scope: String,
    pub line_threshold_percent: Option<u8>,
    pub branch_threshold_percent: Option<u8>,
}

/// One language workspace of a repository and the commands that gate it.
#[derive(Debug, Clone, PartialEq, Eq)]
pub struct Workspace {
    pub id: String,
    pub language: String,
    pub root: String,
    pub commands: Vec<CommandSpec>,
    pub coverage: Vec<CoverageSpec>,
}

/// The most directory levels discovery descends.
pub const MAX_DEPTH: usize = 8;

/// The most workspaces one repository may declare.
pub const MAX_WORKSPACES: usize = 64;

/// The most entries discovery admits (those not skipped).
pub const MAX_ENTRIES: usize = 4096;

/// The most filesystem entries discovery scans.
pub const MAX_FILESYSTEM_ENTRIES: usize = 65536;

/// The most bytes of a metadata file discovery reads.
pub const MAX_METADATA_BYTES: u64 = 262144;

/// Why discovery stopped.
#[derive(Debug, Clone, PartialEq, Eq)]
pub enum DiscoveryError {
    RootNotDirectory { path: String },
    SymlinkRefused { path: String },
    EntryLimit { limit: usize },
    FilesystemEntryLimit { limit: usize },
    WorkspaceLimit { limit: usize },
}

impl DiscoveryError {
    /// The error's message.
    pub fn message(&self) -> (r: String)
        ensures
            r@ == match *self {
                DiscoveryError::RootNotDirectory { path } => "discovery root is not a directory: "@ + path@,
                DiscoveryError::SymlinkRefused { path } => "discovery refused symlink: "@ + path@,
                DiscoveryError::EntryLimit { limit } => "discovery exceeded "@ + crate::checks::commands::supervisor::decimal(limit as nat) + " admitted entries"@,
                DiscoveryError::FilesystemEntryLimit { limit } => "discovery exceeded "@ + crate::checks::commands::supervisor::decimal(limit as nat) + " filesystem scan entries"@,
                DiscoveryError::WorkspaceLimit { limit } => "discovery found more than "@ + crate::checks::commands::supervisor::decimal(limit as nat) + " workspaces"@,
            },
    {
        match self {
            DiscoveryError::RootNotDirectory { path } => crate::text::concat2("discovery root is not a directory: ", path.as_str()),
            DiscoveryError::SymlinkRefused { path } => crate::text::concat2("discovery refused symlink: ", path.as_str()),
            DiscoveryError::EntryLimit { limit } => {
                let n = crate::checks::commands::supervisor::decimal_string(*limit as u64);
                crate::text::concat3("discovery exceeded ", n.as_str(), " admitted entries")
            },
            DiscoveryError::FilesystemEntryLimit { limit } => {
                let n = crate::checks::commands::supervisor::decimal_string(*limit as u64);
                crate::text::concat3("discovery exceeded ", n.as_str(), " filesystem scan entries")
            },
            DiscoveryError::WorkspaceLimit { limit } => {
                let n = crate::checks::commands::supervisor::decimal_string(*limit as u64);
                crate::text::concat3("discovery found more than ", n.as_str(), " workspaces")
            },
        }
    }
}

/// Counts one scanned filesystem entry, failing past the limit.
pub fn consume_filesystem_entry(entries_seen: &mut usize, limit: usize) -> (r: Result<(), DiscoveryError>)
    ensures
        match r {
            Ok(_) => old(entries_seen) + 1 <= limit && *final(entries_seen) == old(entries_seen) + 1,
            Err(e) => e == DiscoveryError::FilesystemEntryLimit { limit } && (old(entries_seen) + 1 > limit),
        },
{
    *entries_seen = match entries_seen.checked_add(1) {
        Some(n) => n,
        None => return Err(DiscoveryError::FilesystemEntryLimit { limit }),
    };
    if *entries_seen > limit {
        return Err(DiscoveryError::FilesystemEntryLimit { limit });
    }
    Ok(())
}

/// Counts one admitted entry, failing past the entry limit.
pub fn consume_admitted_entry(entries_seen: &mut usize) -> (r: Result<(), DiscoveryError>)
    ensures
        match r {
            Ok(_) => old(entries_seen) + 1 <= MAX_ENTRIES && *final(entries_seen) == old(entries_seen) + 1,
            Err(e) => e == DiscoveryError::EntryLimit { limit: MAX_ENTRIES } && (old(entries_seen) + 1 > MAX_ENTRIES),
        },
{
    *entries_seen = match entries_seen.checked_add(1) {
        Some(n) => n,
        None => return Err(DiscoveryError::EntryLimit { limit: MAX_ENTRIES }),
    };
    if *entries_seen > MAX_ENTRIES {
        return Err(DiscoveryError::EntryLimit { limit: MAX_ENTRIES });
    }
    Ok(())
}

/// Directories discovery never enters: version control, tool state,
/// dependencies, build output, caches and fixture trees.
pub open spec fn ignored_dir_name(n: Seq<char>) -> bool {
    n == ".git"@ || n == ".hg"@ || n == ".svn"@ || n == ".quality_gate"@ || n == "node_modules"@
        || n == "target"@ || n == "dist"@ || n == "build"@ || n == "vendor"@ || n == ".venv"@ || n == "venv"@
        || n == "__pycache__"@ || n == ".mypy_cache"@ || n == ".pytest_cache"@ || n == ".next"@ || n
        == ".open-next"@ || n == ".turbo"@ || n == ".cache"@ || n == ".vite"@ || n == ".svelte-kit"@ || n
        == ".parcel-cache"@ || n == "coverage"@ || n == "out"@ || n == "storybook-static"@ || n == "fixtures"@
        || n == "testdata"@
}

pub fn ignored_dir(name: &str) -> (r: bool)
    ensures
        r == ignored_dir_name(name@),
{
    let names = [
        ".git", ".hg", ".svn", ".quality_gate", "node_modules", "target", "dist", "build", "vendor", ".venv",
        "venv", "__pycache__", ".mypy_cache", ".pytest_cache", ".next", ".open-next", ".turbo", ".cache", ".vite",
        ".svelte-kit", ".parcel-cache", "coverage", "out", "storybook-static", "fixtures", "testdata",
    ];
    let mut i: usize = 0;
    while i < 26
        invariant
            i <= 26,
            names@ == seq![
                ".git", ".hg", ".svn", ".quality_gate", "node_modules", "target", "dist", "build", "vendor", ".venv",
                "venv", "__pycache__", ".mypy_cache", ".pytest_cache", ".next", ".open-next", ".turbo", ".cache", ".vite",
                ".svelte-kit", ".parcel-cache", "coverage", "out", "storybook-static", "fixtures", "testdata",
            ],
            forall|k: int| 0 <= k < i ==> name@ != (#[trigger] names@[k])@,
        decreases 26 - i,
    {
        if crate::text::same_text(name, names[i]) {
            return true;
        }
        i += 1;
    }
    false
}

/// The files whose presence marks a workspace directory.
pub open spec fn marker_name(n: Seq<char>) -> bool {
    n == "pyproject.toml"@ || n == "setup.py"@ || n == "setup.cfg"@ || n == "requirements.txt"@ || n
        == "package.json"@ || n == "tsconfig.json"@ || n == "Cargo.toml"@ || n == "go.mod"@ || n == "pom.xml"@
        || n == "build.gradle"@ || n == "build.gradle.kts"@ || n == "settings.gradle"@ || n == "global.json"@
        || n == "CMakeLists.txt"@ || n == "meson.build"@ || n == "Makefile"@ || ends_with(n, ".sh"@) || ends_with(
        n,
        ".tf"@,
    ) || ends_with(n, ".csproj"@) || ends_with(n, ".sln"@) || ends_with(n, ".sql"@)
}

pub fn is_marker(name: Option<&str>) -> (r: bool)
    ensures
        r == match name {
            Some(n) => marker_name(n@),
            None => false,
        },
{
    let n = match name {
        Some(n) => n,
        None => return false,
    };
    let names = [
        "pyproject.toml", "setup.py", "setup.cfg", "requirements.txt", "package.json", "tsconfig.json", "Cargo.toml",
        "go.mod", "pom.xml", "build.gradle", "build.gradle.kts", "settings.gradle", "global.json", "CMakeLists.txt",
        "meson.build", "Makefile",
    ];
    let mut i: usize = 0;
    while i < 16
        invariant
            i <= 16,
            name == Some(n),
            names@ == seq![
                "pyproject.toml", "setup.py", "setup.cfg", "requirements.txt", "package.json", "tsconfig.json", "Cargo.toml",
                "go.mod", "pom.xml", "build.gradle", "build.gradle.kts", "settings.gradle", "global.json", "CMakeLists.txt",
                "meson.build", "Makefile",
            ],
            forall|k: int| 0 <= k < i ==> n@ != (#[trigger] names@[k])@,
        decreases 16 - i,
    {
        if crate::text::same_text(n, names[i]) {
            return true;
        }
        i += 1;
    }
    let c = crate::text::chars_of(n);
    let s = c.as_slice();
    crate::text::ends_with_str(s, ".sh") || crate::text::ends_with_str(s, ".tf") || crate::text::ends_with_str(
        s,
        ".csproj",
    ) || crate::text::ends_with_str(s, ".sln") || crate::text::ends_with_str(s, ".sql")
}

pub open spec fn tier_of(purpose: Seq<char>) -> Seq<char> {
    if purpose == "lint"@ || purpose == "format"@ {
        "fast"@
    } else if purpose == "types"@ || purpose == "typecheck"@ {
        "targeted"@
    } else {
        "full"@
    }
}

pub fn command_tier(purpose: &str) -> (r: &'static str)
    ensures
        r@ == tier_of(purpose@),
{
    if crate::text::same_text(purpose, "lint") || crate::text::same_text(purpose, "format") {
        "fast"
    } else if crate::text::same_text(purpose, "types") || crate::text::same_text(purpose, "typecheck") {
        "targeted"
    } else {
        "full"
    }
}

pub open spec fn some_marker_ends(ms: Seq<Seq<char>>, suffix: Seq<char>) -> bool {
    exists|k: int| 0 <= k < ms.len() && ends_with(#[trigger] ms[k], suffix)
}

/// The workspace language the markers show, first match winning: Python,
/// TypeScript, Rust, Go, JVM, C#, C/C++, shell, Terraform, SQL.
pub open spec fn workspace_language(ms: Seq<Seq<char>>) -> Option<Seq<char>> {
    if ms.contains("pyproject.toml"@) || ms.contains("setup.py"@) || ms.contains("setup.cfg"@) || ms.contains(
        "requirements.txt"@,
    ) {
        Some("python"@)
    } else if ms.contains("package.json"@) || ms.contains("tsconfig.json"@) {
        Some("typescript"@)
    } else if ms.contains("Cargo.toml"@) {
        Some("rust"@)
    } else if ms.contains("go.mod"@) {
        Some("go"@)
    } else if ms.contains("pom.xml"@) || ms.contains("build.gradle"@) || ms.contains("build.gradle.kts"@)
        || ms.contains("settings.gradle"@) {
        Some("jvm"@)
    } else if some_marker_ends(ms, ".csproj"@) || some_marker_ends(ms, ".sln"@) || ms.contains("global.json"@) {
        Some("csharp"@)
    } else if ms.contains("CMakeLists.txt"@) || ms.contains("meson.build"@) || ms.contains("Makefile"@) {
        Some("cpp"@)
    } else if some_marker_ends(ms, ".sh"@) {
        Some("shell"@)
    } else if some_marker_ends(ms, ".tf"@) {
        Some("terraform"@)
    } else if some_marker_ends(ms, ".sql"@) {
        Some("sql"@)
    } else {
        None
    }
}

/// The commands discovery proposes for a workspace of the language.
pub open spec fn language_commands(language: Seq<char>, ms: Seq<Seq<char>>, probe: WorkspaceProbe) -> Seq<CommandView> {
    if language == "python"@ {
        languages::python_commands_spec(probe)
    } else if language == "typescript"@ {
        languages::typescript_commands_spec(probe)
    } else if language == "rust"@ {
        languages::rust_commands_spec()
    } else if language == "go"@ {
        languages::go_commands_spec(probe)
    } else if language == "jvm"@ {
        languages::jvm_commands_spec(ms.to_set(), probe)
    } else if language == "csharp"@ {
        languages::csharp_commands_spec(probe)
    } else if language == "cpp"@ {
        languages::cpp_commands_spec(ms.to_set(), probe)
    } else if language == "shell"@ {
        languages::shell_commands_spec(ms, probe)
    } else if language == "terraform"@ {
        languages::terraform_commands_spec(probe)
    } else {
        languages::sql_commands_spec(probe)
    }
}

/// A workspace's id: its language at the repository root, else its path
/// with separators as `-`.
pub open spec fn workspace_id(relative: Seq<char>, language: Seq<char>) -> Seq<char> {
    if relative == "."@ {
        language
    } else {
        relative.map_values(|c: char| if c == '/' || c == '\\' { '-' } else { c })
    }
}

/// A discovered command: run in the workspace for at most 300 seconds, its
/// tier given by its purpose.
pub open spec fn discovered_command(c: CommandSpec, v: CommandView, relative: Seq<char>) -> bool {
    &&& views(c.argv@) == v.0
    &&& c.cwd@ == relative
    &&& c.timeout_seconds == 300
    &&& c.tier@ == tier_of(v.1)
    &&& c.purpose@ == v.1
    &&& c.source@ == "discovery"@
    &&& c.confidence@ == v.2
}

fn any_marker_ends(markers: &Vec<String>, suffix: &str) -> (r: bool)
    ensures
        r == some_marker_ends(views(markers@), suffix@),
{
    let mut i: usize = 0;
    while i < markers.len()
        invariant
            i <= markers.len(),
            forall|k: int| 0 <= k < i ==> !ends_with(#[trigger] views(markers@)[k], suffix@),
        decreases markers.len() - i,
    {
        assert(views(markers@)[i as int] == markers@[i as int]@);
        let c = crate::text::chars_of(markers[i].as_str());
        if crate::text::ends_with_str(c.as_slice(), suffix) {
            return true;
        }
        i += 1;
    }
    false
}

fn has_marker(markers: &Vec<String>, name: &str) -> (r: bool)
    ensures
        r == views(markers@).contains(name@),
{
    holds_text(markers, name)
}

fn dashed(relative: &str) -> (r: String)
    ensures
        r@ == relative@.map_values(|c: char| if c == '/' || c == '\\' { '-' } else { c }),
{
    let c = crate::text::chars_of(relative);
    let mut out: Vec<char> = Vec::new();
    let mut i: usize = 0;
    while i < c.len()
        invariant
            c@ == relative@,
            i <= c.len(),
            out@ == c@.take(i as int).map_values(|x: char| if x == '/' || x == '\\' { '-' } else { x }),
        decreases c.len() - i,
    {
        out.push(if c[i] == '/' || c[i] == '\\' { '-' } else { c[i] });
        i += 1;
        assert(out@ =~= c@.take(i as int).map_values(|x: char| if x == '/' || x == '\\' { '-' } else { x }));
    }
    assert(c@.take(c.len() as int) =~= c@);
    crate::text::string_of(out.as_slice())
}

fn commands_for(language: &str, markers: &Vec<String>, probe: &WorkspaceProbe) -> (r: Vec<Command>)
    ensures
        command_views(r@) == language_commands(language@, views(markers@), *probe),
{
    proof {
        assert(members(markers@) == views(markers@).to_set());
    }
    if crate::text::same_text(language, "python") {
        languages::python_commands(probe)
    } else if crate::text::same_text(language, "typescript") {
        languages::typescript_commands(probe)
    } else if crate::text::same_text(language, "rust") {
        languages::rust_commands()
    } else if crate::text::same_text(language, "go") {
        languages::go_commands(probe)
    } else if crate::text::same_text(language, "jvm") {
        languages::jvm_commands(markers, probe)
    } else if crate::text::same_text(language, "csharp") {
        languages::csharp_commands(probe)
    } else if crate::text::same_text(language, "cpp") {
        languages::cpp_commands(markers, probe)
    } else if crate::text::same_text(language, "shell") {
        languages::shell_commands(markers, probe)
    } else if crate::text::same_text(language, "terraform") {
        languages::terraform_commands(probe)
    } else {
        languages::sql_commands(probe)
    }
}

/// The workspace of a directory (`relative` to the repository root, `.` for
/// the root itself) with the given markers (a sorted set of file names):
/// none when no marker shows a language; otherwise its id, language and
/// root, the language's commands run in it, and no coverage commands.
pub fn workspace_for(relative: &str, markers: &Vec<String>, probe: &WorkspaceProbe) -> (r: Option<Workspace>)
    requires
        increasing(views(markers@)),
    ensures
        match r {
            None => workspace_language(views(markers@)) is None,
            Some(w) => {
                let lang = workspace_language(views(markers@))->0;
                let cmds = language_commands(lang, views(markers@), *probe);
                &&& workspace_language(views(markers@)) is Some
                &&& w.id@ == workspace_id(relative@, lang)
                &&& w.language@ == lang
                &&& w.root@ == relative@
                &&& w.coverage@.len() == 0
                &&& w.commands@.len() == cmds.len()
                &&& forall|k: int| 0 <= k < cmds.len() ==> discovered_command(#[trigger] w.commands@[k], cmds[k], relative@)
            },
        },
{
    proof {
        assert(members(markers@) == views(markers@).to_set());
    }
    let language: &'static str = if has_marker(markers, "pyproject.toml") || has_marker(markers, "setup.py")
        || has_marker(markers, "setup.cfg") || has_marker(markers, "requirements.txt") {
        "python"
    } else if has_marker(markers, "package.json") || has_marker(markers, "tsconfig.json") {
        "typescript"
    } else if has_marker(markers, "Cargo.toml") {
        "rust"
    } else if has_marker(markers, "go.mod") {
        "go"
    } else if has_marker(markers, "pom.xml") || has_marker(markers, "build.gradle") || has_marker(
        markers,
        "build.gradle.kts",
    ) || has_marker(markers, "settings.gradle") {
        "jvm"
    } else if any_marker_ends(markers, ".csproj") || any_marker_ends(markers, ".sln") || has_marker(
        markers,
        "global.json",
    ) {
        "csharp"
    } else if has_marker(markers, "CMakeLists.txt") || has_marker(markers, "meson.build") || has_marker(
        markers,
        "Makefile",
    ) {
        "cpp"
    } else if any_marker_ends(markers, ".sh") {
        "shell"
    } else if any_marker_ends(markers, ".tf") {
        "terraform"
    } else if any_marker_ends(markers, ".sql") {
        "sql"
    } else {
        return None;
    };
    let commands = commands_for(language, markers, probe);
    let ghost lang = workspace_language(views(markers@))->0;
    assert(language@ == lang);
    assert(command_views(commands@) == language_commands(lang, views(markers@), *probe));
    let id = if crate::text::same_text(relative, ".") {
        String::from_str(language)
    } else {
        dashed(relative)
    };
    let mut specs: Vec<CommandSpec> = Vec::new();
    let mut k: usize = 0;
    while k < commands.len()
        invariant
            k <= commands.len(),
            specs@.len() == k,
            forall|j: int| 0 <= j < k ==> discovered_command(#[trigger] specs@[j], command_view(commands@[j]), relative@),
        decreases commands.len() - k,
    {
        let (argv, purpose, confidence) = &commands[k];
        let mut copy: Vec<String> = Vec::new();
        let mut q: usize = 0;
        while q < argv.len()
            invariant
                q <= argv.len(),
                views(copy@) == views(argv@).take(q as int),
            decreases argv.len() - q,
        {
            let ghost b = copy@;
            copy.push(argv[q].clone());
            assert(views(copy@) =~= views(b).push(argv@[q as int]@));
            assert(views(argv@).take(q + 1) =~= views(argv@).take(q as int).push(argv@[q as int]@));
            q += 1;
        }
        assert(views(argv@).take(argv.len() as int) =~= views(argv@));
        specs.push(CommandSpec {
            argv: copy,
            cwd: String::from_str(relative),
            timeout_seconds: 300,
            tier: String::from_str(command_tier(purpose)),
            purpose: String::from_str(purpose),
            source: String::from_str("discovery"),
            confidence: String::from_str(confidence),
        });
        k += 1;
    }
    Some(Workspace {
        id,
        language: String::from_str(language),
        root: String::from_str(relative),
        commands: specs,
        coverage: Vec::new(),
    })
}

} // verus!
