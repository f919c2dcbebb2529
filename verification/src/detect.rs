//! Repository detection shared by setup and the session-start hook: the
//! languages a repository appears to use and the check commands each one
//! requires, judged from file presence and project metadata alone.

use vstd::prelude::*;

use crate::discovery::languages::has_table_text;
use crate::text::{ends_with, lines, starts_with, trim, views};

verus! {

/// Languages and their check commands, and whether the root is a git work tree.
#[derive(Debug, Clone, PartialEq, Eq)]
pub struct Detection {
    pub languages: Vec<String>,
    pub required_commands: Vec<(String, Vec<String>)>,
    pub is_git_repo: bool,
}

/// What detection observed of the root: a `.git` entry, the Python markers,
/// a top-level `.py` file, the text of `pyproject.toml` (empty when absent
/// or over the size cap), and whether `src` is a directory.
#[derive(Debug, Clone, PartialEq, Eq)]
pub struct RootProbe {
    pub git: bool,
    pub pyproject: bool,
    pub setup_py: bool,
    pub setup_cfg: bool,
    pub requirements: bool,
    pub top_level_py: bool,
    pub pyproject_text: String,
    pub src_dir: bool,
}

/// A line that, trimmed, is the table header `[name]`.
pub fn has_toml_table(text: &str, name: &str) -> (r: bool)
    ensures
        r == has_table_text(text@, name@),
{
    crate::discovery::languages::has_table(text, name)
}

/// A line that, trimmed, opens a `[tool.pytest...]` table.
pub open spec fn pytest_table_text(text: Seq<char>) -> bool {
    exists|k: int| 0 <= k < lines(text).len() && starts_with(trim(#[trigger] lines(text)[k]), "[tool.pytest"@) && ends_with(
        trim(lines(text)[k]),
        "]"@,
    )
}

pub fn has_pytest_table(text: &str) -> (r: bool)
    ensures
        r == pytest_table_text(text@),
{
    let c = crate::text::chars_of(text);
    let ls = crate::text::lines_exec(c.as_slice());
    let ghost lv = crate::text::deep(ls@);
    let mut i: usize = 0;
    while i < ls.len()
        invariant
            lv == crate::text::deep(ls@),
            lv == lines(text@),
            i <= ls.len(),
            forall|k: int| 0 <= k < i ==> !(starts_with(trim(#[trigger] lv[k]), "[tool.pytest"@) && ends_with(trim(lv[k]), "]"@)),
        decreases ls.len() - i,
    {
        assert(lv[i as int] == ls@[i as int]@);
        let t = crate::text::trim_exec(ls[i].as_slice());
        if crate::text::starts_with_str(t.as_slice(), "[tool.pytest") && crate::text::ends_with_str(t.as_slice(), "]") {
            return true;
        }
        i += 1;
    }
    false
}

pub open spec fn mypy_text(src_dir: bool) -> Seq<char> {
    if src_dir {
        "mypy --strict src"@
    } else {
        "mypy --strict ."@
    }
}

/// The configured Python tools (ruff, mypy, pytest, in that order), or all
/// three when none is configured; mypy checks `src` when it is a directory.
pub open spec fn python_required(config: Seq<char>, src_dir: bool) -> Seq<Seq<char>> {
    let a: Seq<Seq<char>> = if has_table_text(config, "tool.ruff"@) { seq!["ruff check ."@] } else { seq![] };
    let b: Seq<Seq<char>> = if has_table_text(config, "tool.mypy"@) { seq![mypy_text(src_dir)] } else { seq![] };
    let c: Seq<Seq<char>> = if pytest_table_text(config) { seq!["pytest"@] } else { seq![] };
    let found = a + b + c;
    if found.len() == 0 {
        seq!["ruff check ."@, mypy_text(src_dir), "pytest"@]
    } else {
        found
    }
}

pub fn python_commands(config_text: &str, src_dir: bool) -> (r: Vec<String>)
    ensures
        views(r@) == python_required(config_text@, src_dir),
{
    let mypy: &str = if src_dir { "mypy --strict src" } else { "mypy --strict ." };
    let mut out: Vec<String> = Vec::new();
    let ruff = has_toml_table(config_text, "tool.ruff");
    let typed = has_toml_table(config_text, "tool.mypy");
    let pytest = has_pytest_table(config_text);
    if ruff {
        out.push(String::from_str("ruff check ."));
    }
    if typed {
        out.push(String::from_str(mypy));
    }
    if pytest {
        out.push(String::from_str("pytest"));
    }
    if out.len() == 0 {
        out.push(String::from_str("ruff check ."));
        out.push(String::from_str(mypy));
        out.push(String::from_str("pytest"));
    }
    assert(views(out@) =~= python_required(config_text@, src_dir));
    out
}

/// Python is recognized by a project marker or a top-level `.py` file; no
/// other language is detected.
pub open spec fn detects_python(p: RootProbe) -> bool {
    p.pyproject || p.setup_py || p.setup_cfg || p.requirements || p.top_level_py
}

/// Detects the root's languages and commands from what was observed of it.
pub fn detect(probe: &RootProbe) -> (r: Detection)
    ensures
        r.is_git_repo == probe.git,
        detects_python(*probe) ==> views(r.languages@) == seq!["python"@] && r.required_commands@.len() == 1
            && r.required_commands@[0].0@ == "python"@ && views(r.required_commands@[0].1@) == python_required(
            probe.pyproject_text@,
            probe.src_dir,
        ),
        !detects_python(*probe) ==> r.languages@.len() == 0 && r.required_commands@.len() == 0,
{
    let mut languages: Vec<String> = Vec::new();
    let mut required_commands: Vec<(String, Vec<String>)> = Vec::new();
    if probe.pyproject || probe.setup_py || probe.setup_cfg || probe.requirements || probe.top_level_py {
        languages.push(String::from_str("python"));
        required_commands.push((String::from_str("python"), python_commands(probe.pyproject_text.as_str(), probe.src_dir)));
        assert(views(languages@) =~= seq!["python"@]);
    }
    Detection { languages, required_commands, is_git_repo: probe.git }
}

} // verus!
