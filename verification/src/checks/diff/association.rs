//! Which changed files are sources and which are tests, per language pack
//! and workspace, and which sources have no associated test change.

use vstd::prelude::*;

use crate::checks::diff::inline_tests::{
    inline_test_hunk_touched, inline_test_touched, patch_facts, PatchFacts, PatchIndex,
};
use crate::checks::Status;
use crate::discovery::Workspace;
use crate::paths::{is_absolute, path_components, path_components_exec};
use crate::strset::{holds_text, increasing, insert_text, members};
use crate::text::{
    chars_of, concat2, concat3, contains, deep, ends_with, ends_with_str, join_spaced, lower,
    split_char, split_char_exec, starts_with, starts_with_str, string_of, to_lower, views,
};

verus! {

/// A language pack: its name, the workspace languages it belongs to, and the
/// file extensions it covers.
pub open spec fn pack_name(p: nat) -> Seq<char> {
    if p == 0 {
        "python"@
    } else if p == 1 {
        "rust"@
    } else if p == 2 {
        "typescript-javascript"@
    } else if p == 3 {
        "go"@
    } else if p == 4 {
        "java-kotlin"@
    } else if p == 5 {
        "csharp"@
    } else {
        "c-cpp"@
    }
}

pub open spec fn pack_language(p: nat) -> Seq<char> {
    if p == 0 {
        "python"@
    } else if p == 1 {
        "rust"@
    } else if p == 2 {
        "typescript"@
    } else if p == 3 {
        "go"@
    } else if p == 4 {
        "jvm"@
    } else if p == 5 {
        "csharp"@
    } else {
        "cpp"@
    }
}

/// The pack an ASCII-lower-cased extension belongs to.
pub open spec fn pack_of_extension(e: Seq<char>) -> Option<nat> {
    if e == "py"@ {
        Some(0)
    } else if e == "rs"@ {
        Some(1)
    } else if e == "ts"@ || e == "tsx"@ || e == "js"@ || e == "jsx"@ || e == "mjs"@ || e == "cjs"@ {
        Some(2)
    } else if e == "go"@ {
        Some(3)
    } else if e == "java"@ || e == "kt"@ || e == "kts"@ {
        Some(4)
    } else if e == "cs"@ {
        Some(5)
    } else if e == "c"@ || e == "cc"@ || e == "cpp"@ || e == "cxx"@ || e == "h"@ || e == "hh"@
        || e == "hpp"@ || e == "hxx"@ {
        Some(6)
    } else {
        None
    }
}

fn pack_of_extension_exec(e: &str) -> (r: Option<usize>)
    ensures
        match r {
            Some(p) => pack_of_extension(e@) == Some(p as nat),
            None => pack_of_extension(e@) is None,
        },
{
    let same = |x: &str| -> (b: bool)
        ensures
            b == (e@ == x@),
        { crate::text::same_text(e, x) };
    if same("py") {
        Some(0)
    } else if same("rs") {
        Some(1)
    } else if same("ts") || same("tsx") || same("js") || same("jsx") || same("mjs") || same("cjs") {
        Some(2)
    } else if same("go") {
        Some(3)
    } else if same("java") || same("kt") || same("kts") {
        Some(4)
    } else if same("cs") {
        Some(5)
    } else if same("c") || same("cc") || same("cpp") || same("cxx") || same("h") || same("hh")
        || same("hpp") || same("hxx") {
        Some(6)
    } else {
        None
    }
}

/// The last `/`-separated piece of a path.
pub open spec fn last_part(s: Seq<char>) -> Seq<char> {
    split_char(s, '/').last()
}

/// The position of the last `.`, if any.
pub open spec fn last_dot(s: Seq<char>) -> Option<int> {
    if s.contains('.') {
        Some(choose|k: int| 0 <= k < s.len() && s[k] == '.' && forall|j: int| k < j < s.len() ==> s[j] != '.')
    } else {
        None
    }
}

/// `Path::extension`: what follows the last dot of the file name, unless
/// that dot starts the name.
pub open spec fn extension(file: Seq<char>) -> Option<Seq<char>> {
    let parts = path_components(file);
    if parts.len() == 0 || parts.last() == seq!['.', '.'] {
        None
    } else {
        let name = parts.last();
        match last_dot(name) {
            Some(k) => if k == 0 {
                None
            } else {
                Some(name.skip(k + 1))
            },
            None => None,
        }
    }
}

pub fn last_dot_exec(s: &[char]) -> (r: Option<usize>)
    ensures
        match r {
            Some(k) => last_dot(s@) == Some(k as int) && k < s.len(),
            None => last_dot(s@) is None,
        },
{
    let mut k = s.len();
    while k > 0
        invariant
            k <= s.len(),
            forall|j: int| k <= j < s.len() ==> s@[j] != '.',
        decreases k,
    {
        if s[k - 1] == '.' {
            proof {
                assert(s@.contains('.'));
                let c = choose|c: int| 0 <= c < s@.len() && s@[c] == '.' && forall|j: int| c < j < s@.len() ==> s@[j] != '.';
                if c < k - 1 {
                    assert(s@[k - 1] == '.');
                }
                if c > k - 1 {
                    assert(s@[c] != '.');
                }
            }
            return Some(k - 1);
        }
        k -= 1;
    }
    proof {
        if s@.contains('.') {
            let c = choose|c: int| 0 <= c < s@.len() && s@[c] == '.';
        }
    }
    None
}

pub fn extension_exec(file: &[char]) -> (r: Option<Vec<char>>)
    ensures
        match r {
            Some(e) => extension(file@) == Some(e@),
            None => extension(file@) is None,
        },
{
    let parts = path_components_exec(file);
    if parts.len() == 0 {
        return None;
    }
    let name = &parts[parts.len() - 1];
    assert(deep(parts@).last() == name@);
    if name.len() == 2 && name[0] == '.' && name[1] == '.' {
        assert(name@ =~= seq!['.', '.']);
        return None;
    }
    proof {
        if name@ == seq!['.', '.'] {
            assert(name@[0] == '.' && name@[1] == '.');
        }
    }
    match last_dot_exec(name.as_slice()) {
        Some(k) => {
            if k == 0 {
                None
            } else {
                let mut e: Vec<char> = Vec::new();
                let mut j = k + 1;
                while j < name.len()
                    invariant
                        k + 1 <= j <= name.len(),
                        e@ == name@.subrange(k + 1, j as int),
                    decreases name.len() - j,
                {
                    e.push(name[j]);
                    j += 1;
                    assert(e@ =~= name@.subrange(k + 1, j as int));
                }
                assert(name@.skip(k + 1) =~= name@.subrange(k + 1, name.len() as int));
                Some(e)
            }
        },
        None => None,
    }
}

/// The language pack of a file, by its extension compared ignoring ASCII
/// case.
pub open spec fn pack_for_file(file: Seq<char>) -> Option<nat> {
    match extension(file) {
        Some(e) => pack_of_extension(lower(e)),
        None => None,
    }
}

pub fn pack_for_file_exec(file: &str) -> (r: Option<usize>)
    ensures
        match r {
            Some(p) => pack_for_file(file@) == Some(p as nat),
            None => pack_for_file(file@) is None,
        },
{
    let c = chars_of(file);
    let e = extension_exec(c.as_slice())?;
    let l = to_lower(e.as_slice());
    let t = string_of(l.as_slice());
    pack_of_extension_exec(t.as_str())
}


pub open spec fn is_test_directory(part: Seq<char>) -> bool {
    part == "test"@ || part == "tests"@ || part == "__tests__"@ || part == "spec"@ || part == "specs"@
}

fn is_test_directory_exec(part: &str) -> (r: bool)
    ensures
        r == is_test_directory(part@),
{
    crate::text::same_text(part, "test") || crate::text::same_text(part, "tests")
        || crate::text::same_text(part, "__tests__") || crate::text::same_text(part, "spec")
        || crate::text::same_text(part, "specs")
}

/// The text before the last dot, or all of it.
pub open spec fn stem(name: Seq<char>) -> Seq<char> {
    match last_dot(name) {
        Some(k) => name.take(k),
        None => name,
    }
}

fn stem_exec(name: &[char]) -> (r: Vec<char>)
    ensures
        r@ == stem(name@),
{
    match last_dot_exec(name) {
        Some(k) => {
            let mut out: Vec<char> = Vec::new();
            let mut j: usize = 0;
            while j < k
                invariant
                    j <= k < name.len(),
                    out@ == name@.take(j as int),
                decreases k - j,
            {
                out.push(name[j]);
                j += 1;
                assert(out@ =~= name@.take(j as int));
            }
            out
        },
        None => crate::text::copy_chars(name),
    }
}

fn last_part_exec(s: &[char]) -> (r: Vec<char>)
    ensures
        r@ == last_part(s@),
{
    let parts = split_char_exec(s, '/');
    proof {
        crate::text::lemma_split_when_nonempty(s@, crate::text::is_char('/'));
    }
    assert(deep(parts@).last() == parts@[parts.len() - 1]@);
    crate::text::copy_chars(parts[parts.len() - 1].as_slice())
}

/// A test file: in a test directory (or an `integration` directory under
/// one), or named with a test prefix or suffix, or for Java, Kotlin and C#
/// with a `Test`/`Tests`/`Spec` affix on its stem.
pub open spec fn is_test_path(file: Seq<char>, language: Seq<char>) -> bool {
    let l = lower(file);
    let parts = split_char(l, '/');
    let name = last_part(l);
    let st = stem(name);
    let ost = stem(last_part(file));
    ||| exists|k: int| 0 <= k < parts.len() && is_test_directory(#[trigger] parts[k])
    ||| exists|k: int|
        1 <= k < parts.len() && (parts[k] == "integration"@ || parts[k] == "integrations"@)
            && is_test_directory(#[trigger] parts[k - 1])
    ||| starts_with(st, "test_"@) || starts_with(st, "test-"@)
    ||| ends_with(st, "_test"@) || ends_with(st, "_tests"@) || ends_with(st, ".test"@) || ends_with(
        st,
        ".spec"@,
    ) || ends_with(st, ".e2e"@) || ends_with(st, ".cy"@)
    ||| (language == "java-kotlin"@ || language == "csharp"@) && (starts_with(ost, "Test"@)
        || ends_with(ost, "Test"@) || ends_with(ost, "Tests"@) || ends_with(ost, "Spec"@))
}

pub fn is_test_path_exec(file: &str, language: &str) -> (r: bool)
    ensures
        r == is_test_path(file@, language@),
{
    let c = chars_of(file);
    let l = to_lower(c.as_slice());
    let parts = split_char_exec(l.as_slice(), '/');
    let ghost pv = deep(parts@);
    let mut k: usize = 0;
    while k < parts.len()
        invariant
            pv == deep(parts@),
            pv == split_char(lower(file@), '/'),
            l@ == lower(file@),
            k <= parts.len(),
            forall|j: int| 0 <= j < k ==> !is_test_directory(#[trigger] pv[j]),
            forall|j: int|
                1 <= j < k ==> !((pv[j] == "integration"@ || pv[j] == "integrations"@)
                    && is_test_directory(#[trigger] pv[j - 1])),
        decreases parts.len() - k,
    {
        assert(pv[k as int] == parts@[k as int]@);
        let part = string_of(parts[k].as_slice());
        if is_test_directory_exec(part.as_str()) {
            return true;
        }
        if k > 0 && (crate::text::same_text(part.as_str(), "integration") || crate::text::same_text(
            part.as_str(),
            "integrations",
        )) {
            assert(pv[k - 1] == parts@[k - 1]@);
            let previous = string_of(parts[k - 1].as_slice());
            if is_test_directory_exec(previous.as_str()) {
                return true;
            }
        }
        k += 1;
    }
    let name = last_part_exec(l.as_slice());
    let st = stem_exec(name.as_slice());
    let original = last_part_exec(c.as_slice());
    let ost = stem_exec(original.as_slice());
    let s = st.as_slice();
    let o = ost.as_slice();
    let prefixed = starts_with_str(s, "test_") || starts_with_str(s, "test-");
    let suffixed = ends_with_str(s, "_test") || ends_with_str(s, "_tests") || ends_with_str(s, ".test")
        || ends_with_str(s, ".spec") || ends_with_str(s, ".e2e") || ends_with_str(s, ".cy");
    let language_specific = (crate::text::same_text(language, "java-kotlin") || crate::text::same_text(
        language,
        "csharp",
    )) && (starts_with_str(o, "Test") || ends_with_str(o, "Test") || ends_with_str(o, "Tests")
        || ends_with_str(o, "Spec"));
    prefixed || suffixed || language_specific
}

pub open spec fn ignored_directory(part: Seq<char>) -> bool {
    part == "doc"@ || part == "docs"@ || part == "documentation"@ || part == "vendor"@ || part
        == "third_party"@ || part == "node_modules"@ || part == "fixtures"@ || part == "fixture"@
        || part == "testdata"@ || part == "generated"@ || part == "gen"@ || part == "dist"@ || part
        == "build"@ || part == "target"@ || part == "out"@ || part == "coverage"@
}

pub open spec fn documentation_or_configuration_name(name: Seq<char>) -> bool {
    ends_with(name, ".md"@) || ends_with(name, ".mdx"@) || ends_with(name, ".rst"@) || ends_with(
        name,
        ".adoc"@,
    ) || ends_with(name, ".txt"@) || ends_with(name, ".json"@) || ends_with(name, ".yaml"@)
        || ends_with(name, ".yml"@) || ends_with(name, ".toml"@) || ends_with(name, ".xml"@)
        || ends_with(name, ".ini"@) || ends_with(name, ".cfg"@) || ends_with(name, ".conf"@)
        || ends_with(name, ".properties"@) || ends_with(name, ".lock"@) || ends_with(name, ".mod"@)
        || ends_with(name, ".gradle"@) || ends_with(name, ".gradle.kts"@) || ends_with(
        name,
        ".csproj"@,
    ) || ends_with(name, ".sln"@) || ends_with(name, "makefile"@) || ends_with(name, "dockerfile"@)
        || ends_with(name, "cmakelists.txt"@)
}

pub open spec fn generated_name(name: Seq<char>) -> bool {
    ends_with(name, ".generated.rs"@) || ends_with(name, ".generated.cs"@) || ends_with(
        name,
        ".designer.cs"@,
    ) || ends_with(name, ".g.cs"@) || ends_with(name, ".pb.go"@) || ends_with(name, "_generated.go"@)
        || ends_with(name, ".min.js"@) || ends_with(name, ".bundle.js"@)
}

/// A name with at least three dot-separated pieces whose second-to-last is
/// `config` (`vite.config.ts`).
pub open spec fn code_configuration_name(name: Seq<char>) -> bool {
    let pieces = split_char(name, '.');
    pieces.len() >= 3 && pieces[pieces.len() - 2] == "config"@
}

/// A file outside the scope of test association: documentation, vendored,
/// generated or build output, or configuration.
pub open spec fn is_ignored_path(file: Seq<char>) -> bool {
    let l = lower(file);
    let name = last_part(l);
    ||| exists|k: int| 0 <= k < split_char(l, '/').len() && ignored_directory(#[trigger] split_char(l, '/')[k])
    ||| starts_with(name, "readme."@) || starts_with(name, "changelog."@)
    ||| documentation_or_configuration_name(name)
    ||| code_configuration_name(name)
    ||| generated_name(name)
}

pub fn is_ignored_path_exec(file: &str) -> (r: bool)
    ensures
        r == is_ignored_path(file@),
{
    let c = chars_of(file);
    let l = to_lower(c.as_slice());
    let parts = split_char_exec(l.as_slice(), '/');
    let ghost pv = deep(parts@);
    let mut k: usize = 0;
    while k < parts.len()
        invariant
            pv == deep(parts@),
            pv == split_char(lower(file@), '/'),
            k <= parts.len(),
            forall|j: int| 0 <= j < k ==> !ignored_directory(#[trigger] pv[j]),
        decreases parts.len() - k,
    {
        assert(pv[k as int] == parts@[k as int]@);
        let p = string_of(parts[k].as_slice());
        let q = p.as_str();
        let t = |x: &str| -> (b: bool)
            ensures
                b == (q@ == x@),
            { crate::text::same_text(q, x) };
        if t("doc") || t("docs") || t("documentation") || t("vendor") || t("third_party") || t(
            "node_modules",
        ) || t("fixtures") || t("fixture") || t("testdata") || t("generated") || t("gen") || t(
            "dist",
        ) || t("build") || t("target") || t("out") || t("coverage") {
            return true;
        }
        k += 1;
    }
    let name = last_part_exec(l.as_slice());
    let n = name.as_slice();
    if starts_with_str(n, "readme.") || starts_with_str(n, "changelog.") {
        return true;
    }
    let e = |x: &str| -> (b: bool)
        ensures
            b == ends_with(n@, x@),
        { ends_with_str(n, x) };
    if e(".md") || e(".mdx") || e(".rst") || e(".adoc") || e(".txt") || e(".json") || e(".yaml")
        || e(".yml") || e(".toml") || e(".xml") || e(".ini") || e(".cfg") || e(".conf") || e(
        ".properties",
    ) || e(".lock") || e(".mod") || e(".gradle") || e(".gradle.kts") || e(".csproj") || e(".sln")
        || e("makefile") || e("dockerfile") || e("cmakelists.txt") {
        return true;
    }
    let pieces = split_char_exec(n, '.');
    if pieces.len() >= 3 {
        assert(deep(pieces@)[pieces.len() - 2] == pieces@[pieces.len() - 2]@);
        let second = string_of(pieces[pieces.len() - 2].as_slice());
        if crate::text::same_text(second.as_str(), "config") {
            return true;
        }
    }
    e(".generated.rs") || e(".generated.cs") || e(".designer.cs") || e(".g.cs") || e(".pb.go") || e(
        "_generated.go",
    ) || e(".min.js") || e(".bundle.js")
}


// ---------------------------------------------------------------------------
// Workspaces.

/// A path with `\` written as `/`.
pub open spec fn slashed(p: Seq<char>) -> Seq<char> {
    p.map_values(|c: char| if c == '\\' { '/' } else { c })
}

fn slashed_exec(p: &str) -> (r: String)
    ensures
        r@ == slashed(p@),
{
    let c = chars_of(p);
    let mut out: Vec<char> = Vec::new();
    let mut i: usize = 0;
    while i < c.len()
        invariant
            c@ == p@,
            i <= c.len(),
            out@ == slashed(c@.take(i as int)),
        decreases c.len() - i,
    {
        out.push(if c[i] == '\\' { '/' } else { c[i] });
        i += 1;
        assert(out@ =~= slashed(c@.take(i as int)));
    }
    assert(c@.take(c.len() as int) =~= c@);
    string_of(out.as_slice())
}

/// The file lies in the workspace: the workspace is the repository root, or
/// the file is the workspace root or below it.
pub open spec fn path_in_workspace(file: Seq<char>, root: Seq<char>) -> bool {
    let r = slashed(root);
    r == "."@ || file == r || starts_with(file, r + "/"@)
}

/// The number of components `Path::components` yields for a path.
pub open spec fn component_count(root: Seq<char>) -> nat {
    (if is_absolute(root) {
        1nat
    } else if root == "."@ || starts_with(root, "./"@) {
        1nat
    } else {
        0nat
    }) + path_components(root).len()
}

fn component_count_exec(root: &str) -> (r: u128)
    ensures
        r == component_count(root@),
{
    let c = chars_of(root);
    let parts = path_components_exec(c.as_slice());
    let lead: u128 = if c.len() > 0 && c[0] == '/' {
        1
    } else if crate::text::same_text(root, ".") || starts_with_str(c.as_slice(), "./") {
        1
    } else {
        0
    };
    assert(deep(parts@).len() == parts@.len());
    lead + parts.len() as u128
}

/// The workspace a file belongs to: among those containing it, the last one
/// with the most root components (as `max_by_key` picks).
pub open spec fn workspace_index(file: Seq<char>, ws: Seq<Workspace>) -> Option<int>
    decreases ws.len(),
{
    if ws.len() == 0 {
        None
    } else {
        let prev = workspace_index(file, ws.drop_last());
        let last = ws.len() - 1;
        if !path_in_workspace(file, ws[last].root@) {
            prev
        } else {
            match prev {
                None => Some(last),
                Some(j) => if component_count(ws[last].root@) >= component_count(ws[j].root@) {
                    Some(last)
                } else {
                    prev
                },
            }
        }
    }
}

proof fn lemma_workspace_index_bound(file: Seq<char>, ws: Seq<Workspace>)
    ensures
        workspace_index(file, ws) matches Some(j) ==> 0 <= j < ws.len(),
    decreases ws.len(),
{
    if ws.len() > 0 {
        lemma_workspace_index_bound(file, ws.drop_last());
    }
}

fn path_in_workspace_exec(file: &str, root: &str) -> (r: bool)
    ensures
        r == path_in_workspace(file@, root@),
{
    let r = slashed_exec(root);
    if crate::text::same_text(r.as_str(), ".") || crate::text::same_text(file, r.as_str()) {
        return true;
    }
    let prefix = concat2(r.as_str(), "/");
    let f = chars_of(file);
    starts_with_str(f.as_slice(), prefix.as_str())
}

pub fn workspace_for(file: &str, workspaces: &Vec<Workspace>) -> (r: Option<usize>)
    ensures
        match r {
            Some(j) => workspace_index(file@, workspaces@) == Some(j as int) && j < workspaces.len(),
            None => workspace_index(file@, workspaces@) is None,
        },
{
    let mut best: Option<usize> = None;
    let mut best_count: u128 = 0;
    let mut i: usize = 0;
    assert(workspaces@.take(0) =~= Seq::<Workspace>::empty());
    while i < workspaces.len()
        invariant
            i <= workspaces.len(),
            match best {
                Some(j) => workspace_index(file@, workspaces@.take(i as int)) == Some(j as int) && j < i
                    && best_count == component_count(workspaces@[j as int].root@),
                None => workspace_index(file@, workspaces@.take(i as int)) is None,
            },
        decreases workspaces.len() - i,
    {
        let ghost t = workspaces@.take(i + 1);
        assert(t.drop_last() =~= workspaces@.take(i as int));
        assert(t[i as int] == workspaces@[i as int]);
        if path_in_workspace_exec(file, workspaces[i].root.as_str()) {
            let count = component_count_exec(workspaces[i].root.as_str());
            match best {
                None => {
                    best = Some(i);
                    best_count = count;
                },
                Some(j) => {
                    assert(t[j as int] == workspaces@[j as int]);
                    if count >= best_count {
                        best = Some(i);
                        best_count = count;
                    }
                },
            }
        } else {
            match best {
                Some(j) => {
                    assert(t[j as int] == workspaces@[j as int]);
                },
                None => {},
            }
        }
        i += 1;
    }
    assert(workspaces@.take(workspaces.len() as int) =~= workspaces@);
    best
}

pub open spec fn workspace_scope(w: Option<Workspace>) -> Seq<char> {
    match w {
        Some(w) => slashed(w.root@),
        None => "."@,
    }
}

pub open spec fn workspace_basis(pack: nat, w: Option<Workspace>) -> Seq<char> {
    match w {
        Some(ws) => if pack_language(pack) == ws.language@ {
            "workspace-metadata:"@ + workspace_scope(w) + ";language-pack:"@ + pack_name(pack)
                + ";source-extension"@
        } else {
            "language-pack:"@ + pack_name(pack) + ";source-extension"@
        },
        None => "language-pack:"@ + pack_name(pack) + ";source-extension"@,
    }
}

fn pack_name_exec(p: usize) -> (r: &'static str)
    ensures
        r@ == pack_name(p as nat),
{
    if p == 0 {
        "python"
    } else if p == 1 {
        "rust"
    } else if p == 2 {
        "typescript-javascript"
    } else if p == 3 {
        "go"
    } else if p == 4 {
        "java-kotlin"
    } else if p == 5 {
        "csharp"
    } else {
        "c-cpp"
    }
}

fn pack_language_exec(p: usize) -> (r: &'static str)
    ensures
        r@ == pack_language(p as nat),
{
    if p == 0 {
        "python"
    } else if p == 1 {
        "rust"
    } else if p == 2 {
        "typescript"
    } else if p == 3 {
        "go"
    } else if p == 4 {
        "jvm"
    } else if p == 5 {
        "csharp"
    } else {
        "cpp"
    }
}


// ---------------------------------------------------------------------------
// Classifying the change set.

/// A classified changed file.
#[derive(Debug, Clone, PartialEq, Eq)]
pub struct FileMatch {
    pub file: String,
    pub language: String,
    pub scope: String,
    pub basis: String,
}

pub open spec fn match_view(m: FileMatch) -> (Seq<char>, Seq<char>, Seq<char>, Seq<char>) {
    (m.file@, m.language@, m.scope@, m.basis@)
}

pub open spec fn match_views(ms: Seq<FileMatch>) -> Seq<(Seq<char>, Seq<char>, Seq<char>, Seq<char>)> {
    ms.map_values(|m: FileMatch| match_view(m))
}

/// The sources and tests of a change set, the sources with no test change
/// of the same language and scope, and the files that could not be
/// classified.
#[derive(Debug, Clone, PartialEq, Eq)]
pub struct Association {
    pub sources: Vec<FileMatch>,
    pub tests: Vec<FileMatch>,
    pub missing_sources: Vec<String>,
    pub unverified: Vec<String>,
}

/// What the repository's workspace metadata gave: the workspaces, or why
/// they could not be read.
pub open spec fn metadata(ws: Result<Vec<Workspace>, String>) -> Result<Seq<Workspace>, Seq<char>> {
    match ws {
        Ok(w) => Ok(w@),
        Err(e) => Err(e@),
    }
}

/// The contents given for a file, when it could be read.
pub open spec fn source_of(sources: Seq<(String, Option<String>)>, file: Seq<char>) -> Option<Seq<char>>
    decreases sources.len(),
{
    if sources.len() == 0 {
        None
    } else if sources[0].0@ == file {
        match sources[0].1 {
            Some(s) => Some(s@),
            None => None,
        }
    } else {
        source_of(sources.drop_first(), file)
    }
}

/// A file's classification: out of scope (`None`), unclassifiable (an
/// error), or its match, whether it is a test, and whether it is a Rust
/// source whose inline test module the change touched.
pub open spec fn classify(
    file: Seq<char>,
    ws: Result<Seq<Workspace>, Seq<char>>,
    sources: Seq<(String, Option<String>)>,
    patch: PatchFacts,
) -> Option<Result<((Seq<char>, Seq<char>, Seq<char>, Seq<char>), bool, bool), Seq<char>>> {
    if is_ignored_path(file) || pack_for_file(file) is None {
        None
    } else {
        let p = pack_for_file(file)->0;
        match ws {
            Err(reason) => Some(Err(file + ": workspace metadata unavailable ("@ + reason + ")"@)),
            Ok(w) => {
                let wi = workspace_index(file, w);
                let ow = match wi {
                    Some(j) => Some(w[j]),
                    None => None,
                };
                Some(Ok((
                    (file, pack_name(p), workspace_scope(ow), workspace_basis(p, ow)),
                    is_test_path(file, pack_name(p)),
                    p == 1 && inline_test_touched(
                        source_of(sources, file),
                        file,
                        patch.0,
                        patch.1,
                        patch.2,
                    ),
                )))
            },
        }
    }
}

/// Classifies files in order: tests count as evidence unless their test
/// evidence is excluded (a deleted path); a Rust source whose inline test
/// module changed counts as its own test.
pub open spec fn associate(
    files: Seq<Seq<char>>,
    excluded: Set<Seq<char>>,
    ws: Result<Seq<Workspace>, Seq<char>>,
    sources: Seq<(String, Option<String>)>,
    patch: PatchFacts,
) -> (Seq<(Seq<char>, Seq<char>, Seq<char>, Seq<char>)>, Seq<(Seq<char>, Seq<char>, Seq<char>, Seq<char>)>, Set<Seq<char>>)
    decreases files.len(),
{
    if files.len() == 0 {
        (seq![], seq![], Set::empty())
    } else {
        let (src, tst, unv) = associate(files.drop_last(), excluded, ws, sources, patch);
        let f = files.last();
        let allowed = !excluded.contains(f);
        match classify(f, ws, sources, patch) {
            None => (src, tst, unv),
            Some(Err(m)) => (src, tst, unv.insert(m)),
            Some(Ok((fm, is_test, inline))) => if is_test {
                (src, if allowed { tst.push(fm) } else { tst }, unv)
            } else {
                (src.push(fm), if inline && allowed { tst.push(fm) } else { tst }, unv)
            },
        }
    }
}

/// Some test of the change set has the source's language and scope.
pub open spec fn has_test_for(
    tst: Seq<(Seq<char>, Seq<char>, Seq<char>, Seq<char>)>,
    s: (Seq<char>, Seq<char>, Seq<char>, Seq<char>),
) -> bool {
    exists|k: int| 0 <= k < tst.len() && (#[trigger] tst[k]).1 == s.1 && tst[k].2 == s.2
}

/// The sources, in order, with no test of the same language and scope.
pub open spec fn missing_sources(
    src: Seq<(Seq<char>, Seq<char>, Seq<char>, Seq<char>)>,
    tst: Seq<(Seq<char>, Seq<char>, Seq<char>, Seq<char>)>,
) -> Seq<Seq<char>>
    decreases src.len(),
{
    if src.len() == 0 {
        seq![]
    } else {
        let m = missing_sources(src.drop_last(), tst);
        if has_test_for(tst, src.last()) {
            m
        } else {
            m.push(src.last().0)
        }
    }
}

fn workspace_scope_exec(w: Option<&Workspace>) -> (r: String)
    ensures
        r@ == workspace_scope(match w { Some(x) => Some(*x), None => None }),
{
    match w {
        Some(x) => slashed_exec(x.root.as_str()),
        None => {
            let r = String::from_str(".");
            proof { reveal_strlit("."); }
            r
        },
    }
}

fn workspace_basis_exec(pack: usize, w: Option<&Workspace>) -> (r: String)
    ensures
        r@ == workspace_basis(pack as nat, match w { Some(x) => Some(*x), None => None }),
{
    let name = pack_name_exec(pack);
    let plain = concat3("language-pack:", name, ";source-extension");
    match w {
        Some(x) => {
            if crate::text::same_text(pack_language_exec(pack), x.language.as_str()) {
                let scope = workspace_scope_exec(w);
                let head = concat3("workspace-metadata:", scope.as_str(), ";language-pack:");
                concat3(head.as_str(), name, ";source-extension")
            } else {
                plain
            }
        },
        None => plain,
    }
}

/// The contents given for a file, looked up by path.
fn source_lookup<'a>(sources: &'a Vec<(String, Option<String>)>, file: &str) -> (r: Option<&'a str>)
    ensures
        match r {
            Some(s) => source_of(sources@, file@) == Some(s@),
            None => source_of(sources@, file@) is None,
        },
{
    let mut i: usize = 0;
    assert(sources@.skip(0) =~= sources@);
    while i < sources.len()
        invariant
            i <= sources.len(),
            source_of(sources@, file@) == source_of(sources@.skip(i as int), file@),
        decreases sources.len() - i,
    {
        let ghost rest = sources@.skip(i as int);
        assert(rest[0] == sources@[i as int]);
        assert(rest.drop_first() =~= sources@.skip(i + 1));
        if crate::text::same_text(sources[i].0.as_str(), file) {
            return match &sources[i].1 {
                Some(s) => Some(s.as_str()),
                None => None,
            };
        }
        i += 1;
    }
    assert(sources@.skip(i as int).len() == 0);
    None
}

pub open spec fn classification_view(r: Option<Result<(FileMatch, bool, bool), String>>) -> Option<
    Result<((Seq<char>, Seq<char>, Seq<char>, Seq<char>), bool, bool), Seq<char>>,
> {
    match r {
        None => None,
        Some(Err(e)) => Some(Err(e@)),
        Some(Ok((m, t, i))) => Some(Ok((match_view(m), t, i))),
    }
}

/// Classifies one changed file: out of scope, unclassifiable because the
/// workspace metadata could not be read, or its match with whether it is a
/// test and whether its inline test module changed.
pub fn classify_file(
    file: &str,
    workspaces: &Result<Vec<Workspace>, String>,
    sources: &Vec<(String, Option<String>)>,
    patch: &PatchIndex,
) -> (r: Option<Result<(FileMatch, bool, bool), String>>)
    ensures
        classification_view(r) == classify(file@, metadata(*workspaces), sources@, patch_facts(*patch)),
{
    if is_ignored_path_exec(file) {
        return None;
    }
    let pack = match pack_for_file_exec(file) {
        Some(p) => p,
        None => return None,
    };
    let ws = match workspaces {
        Err(reason) => {
            let head = concat2(file, ": workspace metadata unavailable (");
            let msg = concat3(head.as_str(), reason.as_str(), ")");
            return Some(Err(msg));
        },
        Ok(w) => w,
    };
    let found = workspace_for(file, ws);
    let w: Option<&Workspace> = match found {
        Some(j) => Some(&ws[j]),
        None => None,
    };
    let name = pack_name_exec(pack);
    let m = FileMatch {
        file: String::from_str(file),
        language: String::from_str(name),
        scope: workspace_scope_exec(w),
        basis: workspace_basis_exec(pack, w),
    };
    let is_test = is_test_path_exec(file, name);
    let inline = pack == 1 && inline_test_hunk_touched(source_lookup(sources, file), file, patch);
    Some(Ok((m, is_test, inline)))
}

/// Sorts a change set's files into sources and tests: `files` in order,
/// `excluded` the paths whose test evidence does not count (deleted ones),
/// `workspaces` the repository's workspace metadata, `sources` the contents
/// of the changed files that could be read, `patch` the change's patch.
pub fn classify_changes_with_patch(
    files: &Vec<String>,
    excluded: &Vec<String>,
    workspaces: &Result<Vec<Workspace>, String>,
    sources: &Vec<(String, Option<String>)>,
    patch: &PatchIndex,
) -> (r: Association)
    ensures
        ({
            let (src, tst, unv) = associate(views(files@), members(excluded@), metadata(*workspaces), sources@, patch_facts(*patch));
            &&& match_views(r.sources@) == src
            &&& match_views(r.tests@) == tst
            &&& members(r.unverified@) == unv
            &&& increasing(views(r.unverified@))
            &&& views(r.missing_sources@) == missing_sources(src, tst)
        }),
{
    let mut sources_out: Vec<FileMatch> = Vec::new();
    let mut tests_out: Vec<FileMatch> = Vec::new();
    let mut unverified: Vec<String> = Vec::new();
    let ghost fv = views(files@);
    let ghost ex = members(excluded@);
    let ghost md = metadata(*workspaces);
    let mut i: usize = 0;
    assert(fv.take(0) =~= Seq::<Seq<char>>::empty());
    assert(match_views(sources_out@) =~= Seq::empty());
    assert(views(unverified@) =~= Seq::empty());
    assert(members(unverified@) =~= Set::empty());
    while i < files.len()
        invariant
            i <= files.len(),
            fv == views(files@),
            ex == members(excluded@),
            md == metadata(*workspaces),
            increasing(views(unverified@)),
            ({
                let (src, tst, unv) = associate(fv.take(i as int), ex, md, sources@, patch_facts(*patch));
                &&& match_views(sources_out@) == src
                &&& match_views(tests_out@) == tst
                &&& members(unverified@) == unv
            }),
        decreases files.len() - i,
    {
        let ghost prev = associate(fv.take(i as int), ex, md, sources@, patch_facts(*patch));
        assert(fv.take(i + 1).drop_last() =~= fv.take(i as int));
        assert(fv.take(i + 1).last() == files@[i as int]@);
        let allowed = !holds_text(excluded, files[i].as_str());
        match classify_file(files[i].as_str(), workspaces, sources, patch) {
            None => {},
            Some(Err(m)) => {
                insert_text(&mut unverified, m);
            },
            Some(Ok((fm, is_test, inline))) => {
                if is_test {
                    if allowed {
                        let ghost before = tests_out@;
                        tests_out.push(fm);
                        assert(match_views(tests_out@) =~= match_views(before).push(match_view(fm)));
                    }
                } else {
                    let ghost before = sources_out@;
                    let ghost tbefore = tests_out@;
                    let copy = fm.clone_match();
                    sources_out.push(fm);
                    assert(match_views(sources_out@) =~= match_views(before).push(match_view(copy)));
                    if inline && allowed {
                        tests_out.push(copy);
                        assert(match_views(tests_out@) =~= match_views(tbefore).push(match_view(copy)));
                    }
                }
            },
        }
        i += 1;
    }
    assert(fv.take(files.len() as int) =~= fv);
    let missing = missing_of(&sources_out, &tests_out);
    Association { sources: sources_out, tests: tests_out, missing_sources: missing, unverified }
}

impl FileMatch {
    /// A copy of the match.
    pub fn clone_match(&self) -> (r: FileMatch)
        ensures
            match_view(r) == match_view(*self),
    {
        FileMatch {
            file: self.file.clone(),
            language: self.language.clone(),
            scope: self.scope.clone(),
            basis: self.basis.clone(),
        }
    }
}

fn missing_of(src: &Vec<FileMatch>, tst: &Vec<FileMatch>) -> (r: Vec<String>)
    ensures
        views(r@) == missing_sources(match_views(src@), match_views(tst@)),
{
    let ghost ts = match_views(tst@);
    let mut out: Vec<String> = Vec::new();
    let mut i: usize = 0;
    assert(views(out@) =~= Seq::empty());
    assert(match_views(src@).take(0) =~= Seq::empty());
    while i < src.len()
        invariant
            i <= src.len(),
            ts == match_views(tst@),
            views(out@) == missing_sources(match_views(src@).take(i as int), ts),
        decreases src.len() - i,
    {
        let ghost sv = match_views(src@);
        assert(sv.take(i + 1).drop_last() =~= sv.take(i as int));
        assert(sv.take(i + 1).last() == match_view(src@[i as int]));
        let mut found = false;
        let mut k: usize = 0;
        while k < tst.len()
            invariant
                k <= tst.len(),
                i < src.len(),
                ts == match_views(tst@),
                found <==> exists|q: int| 0 <= q < k && (#[trigger] ts[q]).1 == src@[i as int].language@
                    && ts[q].2 == src@[i as int].scope@,
            decreases tst.len() - k,
        {
            assert(ts[k as int] == match_view(tst@[k as int]));
            if crate::text::same_text(tst[k].language.as_str(), src[i].language.as_str())
                && crate::text::same_text(tst[k].scope.as_str(), src[i].scope.as_str()) {
                found = true;
            }
            k += 1;
        }
        if !found {
            let ghost before = out@;
            out.push(src[i].file.clone());
            assert(views(out@) =~= views(before).push(src@[i as int].file@));
        }
        i += 1;
    }
    assert(match_views(src@).take(src.len() as int) =~= match_views(src@));
    out
}

// ---------------------------------------------------------------------------
// Evidence and messages.

pub open spec fn match_files(ms: Seq<(Seq<char>, Seq<char>, Seq<char>, Seq<char>)>) -> Seq<Seq<char>> {
    ms.map_values(|m: (Seq<char>, Seq<char>, Seq<char>, Seq<char>)| m.0)
}

pub open spec fn basis_set(ms: Seq<(Seq<char>, Seq<char>, Seq<char>, Seq<char>)>) -> Set<Seq<char>> {
    ms.map_values(|m: (Seq<char>, Seq<char>, Seq<char>, Seq<char>)| m.3).to_set()
}

pub open spec fn join_or_none(values: Seq<Seq<char>>) -> Seq<char> {
    if values.len() == 0 {
        "none"@
    } else {
        crate::text::join_sep(values, "|"@)
    }
}

pub open spec fn bool_text(b: bool) -> Seq<char> {
    if b {
        "true"@
    } else {
        "false"@
    }
}

/// The evidence lines of an association: the source, test and untested
/// paths, whether a test changed, that coverage is not proven, the sorted
/// detection bases, and the unclassifiable paths when there are any.
pub open spec fn evidence_lines(
    src: Seq<(Seq<char>, Seq<char>, Seq<char>, Seq<char>)>,
    tst: Seq<(Seq<char>, Seq<char>, Seq<char>, Seq<char>)>,
    missing: Seq<Seq<char>>,
    unverified: Seq<Seq<char>>,
) -> Seq<Seq<char>> {
    let base = seq![
        "source_paths="@ + crate::text::join_sep(match_files(src), ","@),
        "test_paths="@ + crate::text::join_sep(match_files(tst), ","@),
        "missing_test_source_paths="@ + crate::text::join_sep(missing, ","@),
        "test_file_changed="@ + bool_text(tst.len() > 0),
        "coverage_proven=false"@,
        "detection_basis="@ + join_or_none(crate::strset::sorted_texts(basis_set(src + tst))),
    ];
    if unverified.len() == 0 {
        base
    } else {
        base.push("unverified_paths="@ + crate::text::join_sep(unverified, "|"@))
    }
}

fn files_of(ms: &Vec<FileMatch>) -> (r: Vec<String>)
    ensures
        views(r@) == match_files(match_views(ms@)),
{
    let mut out: Vec<String> = Vec::new();
    let mut i: usize = 0;
    while i < ms.len()
        invariant
            i <= ms.len(),
            views(out@) == match_files(match_views(ms@)).take(i as int),
        decreases ms.len() - i,
    {
        let ghost before = out@;
        out.push(ms[i].file.clone());
        assert(views(out@) =~= views(before).push(ms@[i as int].file@));
        i += 1;
        assert(views(out@) =~= match_files(match_views(ms@)).take(i as int));
    }
    assert(match_files(match_views(ms@)).take(i as int) =~= match_files(match_views(ms@)));
    out
}

fn add_bases(set: &mut Vec<String>, ms: &Vec<FileMatch>)
    requires
        increasing(views(old(set)@)),
    ensures
        increasing(views(final(set)@)),
        members(final(set)@) == members(old(set)@).union(basis_set(match_views(ms@))),
{
    let ghost start = members(set@);
    let ghost bs = match_views(ms@).map_values(|m: (Seq<char>, Seq<char>, Seq<char>, Seq<char>)| m.3);
    let mut i: usize = 0;
    assert(bs.take(0).to_set() =~= Set::empty());
    assert(start.union(Set::empty()) =~= start);
    while i < ms.len()
        invariant
            i <= ms.len(),
            bs == match_views(ms@).map_values(|m: (Seq<char>, Seq<char>, Seq<char>, Seq<char>)| m.3),
            increasing(views(set@)),
            members(set@) == start.union(bs.take(i as int).to_set()),
        decreases ms.len() - i,
    {
        insert_text(set, ms[i].basis.clone());
        proof {
            assert(bs.take(i + 1) =~= bs.take(i as int).push(ms@[i as int].basis@));
            bs.take(i as int).lemma_push_to_set_commute(ms@[i as int].basis@);
            assert(start.union(bs.take(i as int).to_set()).insert(ms@[i as int].basis@)
                =~= start.union(bs.take(i + 1).to_set()));
        }
        i += 1;
    }
    assert(bs.take(ms.len() as int) =~= bs);
}

fn join_or_none_exec(values: &Vec<String>) -> (r: String)
    ensures
        r@ == join_or_none(views(values@)),
{
    if values.len() == 0 {
        let r = String::from_str("none");
        proof { reveal_strlit("none"); }
        r
    } else {
        crate::text::join_strings(values.as_slice(), "|")
    }
}

/// The evidence lines recorded with the test-association results.
pub fn association_evidence(a: &Association) -> (r: Vec<String>)
    ensures
        views(r@) == evidence_lines(
            match_views(a.sources@),
            match_views(a.tests@),
            views(a.missing_sources@),
            views(a.unverified@),
        ),
{
    let src = files_of(&a.sources);
    let tst = files_of(&a.tests);
    let mut bases: Vec<String> = Vec::new();
    assert(views(bases@) =~= Seq::empty());
    assert(members(bases@) =~= Set::empty());
    add_bases(&mut bases, &a.sources);
    add_bases(&mut bases, &a.tests);
    proof {
        let s = match_views(a.sources@);
        let t = match_views(a.tests@);
        let f = |m: (Seq<char>, Seq<char>, Seq<char>, Seq<char>)| m.3;
        assert((s + t).map_values(f) =~= s.map_values(f) + t.map_values(f));
        assert forall|x: Seq<char>| (s.map_values(f) + t.map_values(f)).to_set().contains(x)
            <==> (s.map_values(f).to_set().union(t.map_values(f).to_set())).contains(x) by {
            let u = s.map_values(f) + t.map_values(f);
            if u.contains(x) {
                let k = choose|k: int| 0 <= k < u.len() && u[k] == x;
                if k < s.len() {
                    assert(s.map_values(f)[k] == x);
                } else {
                    assert(t.map_values(f)[k - s.len()] == x);
                }
            }
            if s.map_values(f).contains(x) {
                let k = choose|k: int| 0 <= k < s.len() && s.map_values(f)[k] == x;
                assert(u[k] == x);
            }
            if t.map_values(f).contains(x) {
                let k = choose|k: int| 0 <= k < t.len() && t.map_values(f)[k] == x;
                assert(u[k + s.len()] == x);
            }
        }
        assert(basis_set(s + t) =~= Set::<Seq<char>>::empty().union(basis_set(s)).union(basis_set(t)));
        crate::strset::lemma_sorted_texts(views(bases@));
    }
    let mut out: Vec<String> = Vec::new();
    out.push(concat2("source_paths=", crate::text::join_strings(src.as_slice(), ",").as_str()));
    out.push(concat2("test_paths=", crate::text::join_strings(tst.as_slice(), ",").as_str()));
    out.push(concat2(
        "missing_test_source_paths=",
        crate::text::join_strings(a.missing_sources.as_slice(), ",").as_str(),
    ));
    let changed = concat2("test_file_changed=", if a.tests.len() > 0 { "true" } else { "false" });
    out.push(changed);
    out.push(String::from_str("coverage_proven=false"));
    out.push(concat2("detection_basis=", join_or_none_exec(&bases).as_str()));
    if a.unverified.len() > 0 {
        out.push(concat2("unverified_paths=", crate::text::join_strings(a.unverified.as_slice(), "|").as_str()));
    }
    assert(views(out@) =~= evidence_lines(
        match_views(a.sources@),
        match_views(a.tests@),
        views(a.missing_sources@),
        views(a.unverified@),
    ));
    out
}

/// The clause naming the unclassifiable changes, when there are any.
pub open spec fn unverified_suffix(unverified: Seq<Seq<char>>) -> Seq<char> {
    if unverified.len() == 0 {
        seq![]
    } else {
        " Unclassifiable changes: "@ + crate::text::join_sep(unverified, "; "@) + "."@
    }
}

fn unverified_reason_suffix(a: &Association) -> (r: String)
    ensures
        r@ == unverified_suffix(views(a.unverified@)),
{
    if a.unverified.len() == 0 {
        let r = String::new();
        assert(r@ =~= Seq::<char>::empty());
        r
    } else {
        let joined = crate::text::join_strings(a.unverified.as_slice(), "; ");
        concat3(" Unclassifiable changes: ", joined.as_str(), ".")
    }
}

pub open spec fn behavior_message(status: Status, missing: Seq<Seq<char>>, unverified: Seq<Seq<char>>) -> Seq<char> {
    match status {
        Status::NotApplicable => "Source behavior test association is not applicable to this diff."@,
        Status::Unverified => if missing.len() > 0 {
            "Review signal: no associated test file change was found for source behavior changes; this is not proof that a test is absent, and coverage is not proven. Review: "@
                + crate::text::join_sep(missing, ", "@) + "."@ + unverified_suffix(unverified)
        } else {
            "Test association is unverified; coverage is not proven. Review: "@
                + crate::text::join_sep(unverified, "; "@) + "."@
        },
        Status::Passed => "Changed source files have plausible associated test file changes; this does not prove behavioral coverage."@,
        _ => "Source behavior test association does not require a blocking result for this diff."@,
    }
}

pub open spec fn bug_message(status: Status, missing: Seq<Seq<char>>, unverified: Seq<Seq<char>>) -> Seq<char> {
    match status {
        Status::NotApplicable => "Regression-test association is not applicable to this diff."@,
        Status::Unverified => if missing.len() > 0 {
            "Review signal: no associated regression-test file change was found for the bug-fix source; this is not proof that a test is absent, and coverage is not proven. Review: "@
                + crate::text::join_sep(missing, ", "@) + "."@ + unverified_suffix(unverified)
        } else {
            "Bug-fix test association is unverified; coverage is not proven. Review: "@
                + crate::text::join_sep(unverified, "; "@) + "."@
        },
        Status::Passed => "Bug-fix intent has a plausible regression test file change; coverage is not proven."@,
        _ => "Regression-test association does not require a blocking result for this diff."@,
    }
}

/// The message of the new-behavior test association result.
pub fn behavior_association_message(status: Status, a: &Association) -> (r: String)
    ensures
        r@ == behavior_message(status, views(a.missing_sources@), views(a.unverified@)),
{
    match status {
        Status::NotApplicable => String::from_str("Source behavior test association is not applicable to this diff."),
        Status::Unverified => if a.missing_sources.len() > 0 {
            let joined = crate::text::join_strings(a.missing_sources.as_slice(), ", ");
            let head = concat3(
                "Review signal: no associated test file change was found for source behavior changes; this is not proof that a test is absent, and coverage is not proven. Review: ",
                joined.as_str(),
                ".",
            );
            concat2(head.as_str(), unverified_reason_suffix(a).as_str())
        } else {
            let joined = crate::text::join_strings(a.unverified.as_slice(), "; ");
            concat3("Test association is unverified; coverage is not proven. Review: ", joined.as_str(), ".")
        },
        Status::Passed => String::from_str(
            "Changed source files have plausible associated test file changes; this does not prove behavioral coverage.",
        ),
        _ => String::from_str("Source behavior test association does not require a blocking result for this diff."),
    }
}

/// The message of the regression-test association result.
pub fn bug_association_message(status: Status, a: &Association) -> (r: String)
    ensures
        r@ == bug_message(status, views(a.missing_sources@), views(a.unverified@)),
{
    match status {
        Status::NotApplicable => String::from_str("Regression-test association is not applicable to this diff."),
        Status::Unverified => if a.missing_sources.len() > 0 {
            let joined = crate::text::join_strings(a.missing_sources.as_slice(), ", ");
            let head = concat3(
                "Review signal: no associated regression-test file change was found for the bug-fix source; this is not proof that a test is absent, and coverage is not proven. Review: ",
                joined.as_str(),
                ".",
            );
            concat2(head.as_str(), unverified_reason_suffix(a).as_str())
        } else {
            let joined = crate::text::join_strings(a.unverified.as_slice(), "; ");
            concat3("Bug-fix test association is unverified; coverage is not proven. Review: ", joined.as_str(), ".")
        },
        Status::Passed => String::from_str(
            "Bug-fix intent has a plausible regression test file change; coverage is not proven.",
        ),
        _ => String::from_str("Regression-test association does not require a blocking result for this diff."),
    }
}

/// Which changed files count as tests, for every language pack: a file in a
/// `test`, `tests`, `__tests__`, `spec` or `specs` directory, or in an
/// `integration`/`integrations` directory right under one; a file whose
/// lower-cased stem starts with `test_` or `test-`, or ends with `_test`,
/// `_tests`, `.test`, `.spec`, `.e2e` or `.cy`; and for Java, Kotlin and C#
/// a stem that starts with `Test` or ends with `Test`, `Tests` or `Spec`.
/// Nothing else is a test.
pub proof fn law_test_path_markers(file: Seq<char>, language: Seq<char>)
    ensures
        ({
            let parts = split_char(lower(file), '/');
            let st = stem(last_part(lower(file)));
            let ost = stem(last_part(file));
            let in_test_dir = parts.contains("test"@) || parts.contains("tests"@) || parts.contains(
                "__tests__"@,
            ) || parts.contains("spec"@) || parts.contains("specs"@);
            let in_integration = exists|k: int|
                1 <= k < parts.len() && (parts[k] == "integration"@ || parts[k] == "integrations"@) && (
                #[trigger] parts[k - 1] == "test"@ || parts[k - 1] == "tests"@ || parts[k - 1] == "__tests__"@
                    || parts[k - 1] == "spec"@ || parts[k - 1] == "specs"@);
            let marked = starts_with(st, "test_"@) || starts_with(st, "test-"@) || ends_with(st, "_test"@)
                || ends_with(st, "_tests"@) || ends_with(st, ".test"@) || ends_with(st, ".spec"@)
                || ends_with(st, ".e2e"@) || ends_with(st, ".cy"@);
            let affixed = (language == "java-kotlin"@ || language == "csharp"@) && (starts_with(ost, "Test"@)
                || ends_with(ost, "Test"@) || ends_with(ost, "Tests"@) || ends_with(ost, "Spec"@));
            is_test_path(file, language) == (in_test_dir || in_integration || marked || affixed)
        }),
{
    let parts = split_char(lower(file), '/');
    if exists|k: int| 0 <= k < parts.len() && is_test_directory(#[trigger] parts[k]) {
        let k = choose|k: int| 0 <= k < parts.len() && is_test_directory(#[trigger] parts[k]);
        assert(parts.contains(parts[k]));
    }
    if parts.contains("test"@) || parts.contains("tests"@) || parts.contains("__tests__"@) || parts.contains("spec"@)
        || parts.contains("specs"@) {
        let k = choose|k: int| 0 <= k < parts.len() && is_test_directory(#[trigger] parts[k]);
        if parts.contains("test"@) {
            let j = choose|j: int| 0 <= j < parts.len() && parts[j] == "test"@;
            assert(is_test_directory(parts[j]));
        } else if parts.contains("tests"@) {
            let j = choose|j: int| 0 <= j < parts.len() && parts[j] == "tests"@;
            assert(is_test_directory(parts[j]));
        } else if parts.contains("__tests__"@) {
            let j = choose|j: int| 0 <= j < parts.len() && parts[j] == "__tests__"@;
            assert(is_test_directory(parts[j]));
        } else if parts.contains("spec"@) {
            let j = choose|j: int| 0 <= j < parts.len() && parts[j] == "spec"@;
            assert(is_test_directory(parts[j]));
        } else {
            let j = choose|j: int| 0 <= j < parts.len() && parts[j] == "specs"@;
            assert(is_test_directory(parts[j]));
        }
    }
}

} // verus!
