//! What a touched path and a text reveal about a task: its languages, the
//! domains it works in, and the risks it carries.

use vstd::prelude::*;

use crate::checks::diff::association::{last_dot, last_dot_exec};
use crate::paths::{path_components, path_components_exec};
use crate::strset::{increasing, insert_text, members};
use crate::text::{contains, contains_str, deep, ends_with, lower, views};

verus! {

/// The text after the path's last `.`, if it has one.
pub open spec fn path_extension(p: Seq<char>) -> Option<Seq<char>> {
    match last_dot(p) {
        Some(k) => Some(p.skip(k + 1)),
        None => None,
    }
}

/// The language a lower-cased path's extension names.
pub open spec fn path_language(p: Seq<char>) -> Option<Seq<char>> {
    match path_extension(p) {
        Some(e) => if e == "py"@ {
            Some("python"@)
        } else if e == "rs"@ {
            Some("rust"@)
        } else if e == "go"@ {
            Some("go"@)
        } else if e == "ts"@ || e == "tsx"@ {
            Some("typescript"@)
        } else if e == "js"@ || e == "jsx"@ {
            Some("javascript"@)
        } else if e == "sh"@ || e == "bash"@ {
            Some("shell"@)
        } else if e == "tf"@ {
            Some("terraform"@)
        } else if e == "css"@ || e == "scss"@ {
            Some("css"@)
        } else {
            None
        },
        None => None,
    }
}

/// A component named `name` with something below it.
pub open spec fn has_directory_component(p: Seq<char>, name: Seq<char>) -> bool {
    let cs = path_components(p);
    exists|i: int| 0 <= i < cs.len() - 1 && #[trigger] cs[i] == name
}

/// `first` then `second` as directories, with something below them.
pub open spec fn has_directory_sequence(p: Seq<char>, first: Seq<char>, second: Seq<char>) -> bool {
    let cs = path_components(p);
    exists|i: int| 0 <= i < cs.len() - 2 && #[trigger] cs[i] == first && cs[i + 1] == second
}

/// The stem of a name with a dot: what precedes its last dot.
pub open spec fn dotted_stem(c: Seq<char>) -> Option<Seq<char>> {
    match last_dot(c) {
        Some(k) => Some(c.take(k)),
        None => None,
    }
}

/// A component named `name`, or a last component whose stem is `name`.
pub open spec fn has_component_or_stem(p: Seq<char>, name: Seq<char>) -> bool {
    let cs = path_components(p);
    (exists|i: int| 0 <= i < cs.len() && #[trigger] cs[i] == name) || (cs.len() > 0 && dotted_stem(cs.last())
        == Some(name))
}

pub open spec fn add_if(s: Set<Seq<char>>, cond: bool, x: Seq<char>) -> Set<Seq<char>> {
    if cond {
        s.insert(x)
    } else {
        s
    }
}

/// The domains a lower-cased path shows.
pub open spec fn path_domains(p: Seq<char>) -> Set<Seq<char>> {
    let s0 = Set::<Seq<char>>::empty();
    let s1 = add_if(s0, has_directory_component(p, "routes"@) || has_directory_component(p, "api"@), "api"@);
    let s2 = add_if(s1, has_directory_component(p, "models"@) || has_directory_component(p, "migrations"@), "database"@);
    let s3 = add_if(s2, has_directory_component(p, "workers"@), "worker"@);
    let s4 = add_if(s3, has_directory_component(p, "components"@), "frontend"@);
    let s5 = add_if(s4, has_component_or_stem(p, "terraform"@), "infrastructure"@);
    add_if(s5, has_directory_sequence(p, ".github"@, "workflows"@), "infrastructure"@)
}

/// The risks a lower-cased path shows.
pub open spec fn path_risks(p: Seq<char>) -> Set<Seq<char>> {
    let auth = has_component_or_stem(p, "auth"@) || has_component_or_stem(p, "security"@) || has_component_or_stem(
        p,
        "permissions"@,
    ) || has_component_or_stem(p, "oauth"@);
    let dep = ends_with(p, "pyproject.toml"@) || ends_with(p, "requirements.txt"@) || ends_with(p, "cargo.toml"@)
        || ends_with(p, "package.json"@);
    add_if(add_if(Set::empty(), auth, "authentication"@), dep, "dependency-change"@)
}

pub open spec fn language_set(p: Seq<char>) -> Set<Seq<char>> {
    match path_language(p) {
        Some(l) => set![l],
        None => Set::empty(),
    }
}

fn insert_if(set: &mut Vec<String>, cond: bool, x: &str)
    requires
        increasing(views(old(set)@)),
    ensures
        increasing(views(final(set)@)),
        members(final(set)@) == add_if(members(old(set)@), cond, x@),
{
    if cond {
        insert_text(set, String::from_str(x));
    }
}

fn component_is(cs: &Vec<Vec<char>>, i: usize, name: &str) -> (r: bool)
    requires
        i < cs@.len(),
    ensures
        r == (deep(cs@)[i as int] == name@),
{
    crate::text::chars_are(cs[i].as_slice(), name)
}

fn has_directory_component_exec(cs: &Vec<Vec<char>>, name: &str) -> (r: bool)
    ensures
        r == exists|i: int| 0 <= i < deep(cs@).len() - 1 && #[trigger] deep(cs@)[i] == name@,
{
    let mut i: usize = 0;
    while i < cs.len() && cs.len() - i > 1
        invariant
            i <= cs.len(),
            forall|j: int| 0 <= j < i && j < deep(cs@).len() - 1 ==> #[trigger] deep(cs@)[j] != name@,
        decreases cs.len() - i,
    {
        if component_is(cs, i, name) {
            return true;
        }
        i += 1;
    }
    false
}

fn has_component_or_stem_exec(cs: &Vec<Vec<char>>, name: &str) -> (r: bool)
    ensures
        r == ((exists|i: int| 0 <= i < deep(cs@).len() && #[trigger] deep(cs@)[i] == name@) || (deep(cs@).len() > 0
            && dotted_stem(deep(cs@).last()) == Some(name@))),
{
    let mut i: usize = 0;
    while i < cs.len()
        invariant
            i <= cs.len(),
            forall|j: int| 0 <= j < i ==> #[trigger] deep(cs@)[j] != name@,
        decreases cs.len() - i,
    {
        if component_is(cs, i, name) {
            return true;
        }
        i += 1;
    }
    if cs.len() == 0 {
        return false;
    }
    let last = &cs[cs.len() - 1];
    assert(deep(cs@).last() == last@);
    match last_dot_exec(last.as_slice()) {
        Some(k) => {
            let mut stem: Vec<char> = Vec::new();
            let mut j: usize = 0;
            while j < k
                invariant
                    j <= k,
                    k < last@.len(),
                    stem@ == last@.take(j as int),
                decreases k - j,
            {
                stem.push(last[j]);
                j += 1;
                assert(stem@ =~= last@.take(j as int));
            }
            crate::text::chars_are(stem.as_slice(), name)
        },
        None => false,
    }
}

fn has_directory_sequence_exec(cs: &Vec<Vec<char>>, first: &str, second: &str) -> (r: bool)
    ensures
        r == exists|i: int| 0 <= i < deep(cs@).len() - 2 && #[trigger] deep(cs@)[i] == first@ && deep(cs@)[i + 1] == second@,
{
    let mut i: usize = 0;
    while i < cs.len() && cs.len() - i > 2
        invariant
            i <= cs.len(),
            forall|j: int| 0 <= j < i && j < deep(cs@).len() - 2 ==> !(#[trigger] deep(cs@)[j] == first@ && deep(cs@)[j + 1] == second@),
        decreases cs.len() - i,
    {
        if component_is(cs, i, first) && component_is(cs, i + 1, second) {
            return true;
        }
        i += 1;
    }
    false
}

/// Records what a touched path shows: its language, domains and risks.
pub fn add_path_observations(path: &str, languages: &mut Vec<String>, domains: &mut Vec<String>, risks: &mut Vec<String>)
    requires
        increasing(views(old(languages)@)),
        increasing(views(old(domains)@)),
        increasing(views(old(risks)@)),
    ensures
        increasing(views(final(languages)@)),
        increasing(views(final(domains)@)),
        increasing(views(final(risks)@)),
        members(final(languages)@) == members(old(languages)@).union(language_set(lower(path@))),
        members(final(domains)@) == members(old(domains)@).union(path_domains(lower(path@))),
        members(final(risks)@) == members(old(risks)@).union(path_risks(lower(path@))),
{
    let c = crate::text::chars_of(path);
    let l = crate::text::to_lower(c.as_slice());
    let ghost p = lower(path@);
    match last_dot_exec(l.as_slice()) {
        Some(k) => {
            let mut ext: Vec<char> = Vec::new();
            let mut j: usize = k + 1;
            while j < l.len()
                invariant
                    k < l.len(),
                    k + 1 <= j <= l.len(),
                    ext@ == l@.subrange(k + 1, j as int),
                decreases l.len() - j,
            {
                ext.push(l[j]);
                j += 1;
                assert(ext@ =~= l@.subrange(k + 1, j as int));
            }
            assert(ext@ =~= l@.skip(k + 1));
            let e = ext.as_slice();
            let lang: Option<&str> = if crate::text::chars_are(e, "py") {
                Some("python")
            } else if crate::text::chars_are(e, "rs") {
                Some("rust")
            } else if crate::text::chars_are(e, "go") {
                Some("go")
            } else if crate::text::chars_are(e, "ts") || crate::text::chars_are(e, "tsx") {
                Some("typescript")
            } else if crate::text::chars_are(e, "js") || crate::text::chars_are(e, "jsx") {
                Some("javascript")
            } else if crate::text::chars_are(e, "sh") || crate::text::chars_are(e, "bash") {
                Some("shell")
            } else if crate::text::chars_are(e, "tf") {
                Some("terraform")
            } else if crate::text::chars_are(e, "css") || crate::text::chars_are(e, "scss") {
                Some("css")
            } else {
                None
            };
            match lang {
                Some(name) => {
                    insert_text(languages, String::from_str(name));
                    assert(members(languages@) =~= members(old(languages)@).union(language_set(p)));
                },
                None => {
                    assert(members(languages@) =~= members(old(languages)@).union(language_set(p)));
                },
            }
        },
        None => {
            assert(members(languages@) =~= members(old(languages)@).union(language_set(p)));
        },
    }
    let cs = path_components_exec(l.as_slice());
    let ghost d0 = members(domains@);
    insert_if(domains, has_directory_component_exec(&cs, "routes") || has_directory_component_exec(&cs, "api"), "api");
    insert_if(domains, has_directory_component_exec(&cs, "models") || has_directory_component_exec(&cs, "migrations"), "database");
    insert_if(domains, has_directory_component_exec(&cs, "workers"), "worker");
    insert_if(domains, has_directory_component_exec(&cs, "components"), "frontend");
    insert_if(domains, has_component_or_stem_exec(&cs, "terraform"), "infrastructure");
    insert_if(domains, has_directory_sequence_exec(&cs, ".github", "workflows"), "infrastructure");
    assert(members(domains@) =~= d0.union(path_domains(p)));
    let ghost r0 = members(risks@);
    let auth = has_component_or_stem_exec(&cs, "auth") || has_component_or_stem_exec(&cs, "security")
        || has_component_or_stem_exec(&cs, "permissions") || has_component_or_stem_exec(&cs, "oauth");
    let ls = l.as_slice();
    let dep = crate::text::ends_with_str(ls, "pyproject.toml") || crate::text::ends_with_str(ls, "requirements.txt")
        || crate::text::ends_with_str(ls, "cargo.toml") || crate::text::ends_with_str(ls, "package.json");
    insert_if(risks, auth, "authentication");
    insert_if(risks, dep, "dependency-change");
    assert(members(risks@) =~= r0.union(path_risks(p)));
}

/// The domains a lower-cased text's imports show.
pub open spec fn content_domains(t: Seq<char>) -> Set<Seq<char>> {
    let s1 = add_if(Set::empty(), contains(t, "fastapi"@) || contains(t, "flask"@), "api"@);
    let s2 = add_if(s1, contains(t, "sqlalchemy"@) || contains(t, "psycopg"@) || contains(t, "postgres"@), "database"@);
    let s3 = add_if(s2, contains(t, "celery"@), "worker"@);
    add_if(s3, contains(t, "import react"@), "frontend"@)
}

/// The first risks a lower-cased text shows, added to `s0`.
pub open spec fn content_risks_first(t: Seq<char>, s0: Set<Seq<char>>) -> Set<Seq<char>> {
    let s1 = add_if(s0, contains(t, "@app."@) || contains(t, "@router."@), "public-api"@);
    let s2 = add_if(s1, contains(t, "insert into"@) || contains(t, "delete from"@) || contains(t, ".commit("@) || (
    contains(t, "update "@) && contains(t, " set "@)), "database-write"@);
    let s3 = add_if(s2, contains(t, "requests."@) || contains(t, "httpx."@), "http-client"@);
    let s4 = add_if(s3, contains(t, "sqlalchemy"@) || contains(t, "psycopg"@) || contains(t, "postgres"@) || contains(
        t,
        "cursor.execute"@,
    ), "database-client"@);
    let s5 = add_if(s4, contains(t, "subprocess."@), "subprocess"@);
    add_if(s5, contains(t, "request.get_json"@), "public-input"@)
}

/// The remaining risks a lower-cased text shows, added to `s0`.
pub open spec fn content_risks_rest(t: Seq<char>, s0: Set<Seq<char>>) -> Set<Seq<char>> {
    let s7 = add_if(s0, contains(t, "while true"@), "loop"@);
    let s8 = add_if(s7, contains(t, "retry"@), "retry"@);
    let s9 = add_if(s8, contains(t, "shutil.rmtree"@), "destructive-operation"@);
    let s10 = add_if(s9, contains(t, "try:"@), "try-except"@);
    let s11 = add_if(s10, contains(t, "except "@), "exception-handler"@);
    let s12 = add_if(s11, contains(t, "except:"@), "bare-except"@);
    add_if(s12, contains(t, "jwt"@) || contains(t, "oauth"@) || contains(t, ".auth import"@), "authentication"@)
}

/// The risks a lower-cased text shows: public APIs, database reads and
/// writes, HTTP and subprocess calls, request input, loops, retries,
/// destructive operations, exception handling and authentication.
pub open spec fn content_risks(t: Seq<char>) -> Set<Seq<char>> {
    content_risks_rest(t, content_risks_first(t, Set::empty()))
}

fn risks_first(t: &[char], risks: &mut Vec<String>)
    requires
        increasing(views(old(risks)@)),
    ensures
        increasing(views(final(risks)@)),
        members(final(risks)@) == content_risks_first(t@, members(old(risks)@)),
{
    insert_if(risks, contains_str(t, "@app.") || contains_str(t, "@router."), "public-api");
    insert_if(risks, contains_str(t, "insert into") || contains_str(t, "delete from") || contains_str(t, ".commit(")
        || (contains_str(t, "update ") && contains_str(t, " set ")), "database-write");
    insert_if(risks, contains_str(t, "requests.") || contains_str(t, "httpx."), "http-client");
    insert_if(risks, contains_str(t, "sqlalchemy") || contains_str(t, "psycopg") || contains_str(t, "postgres")
        || contains_str(t, "cursor.execute"), "database-client");
    insert_if(risks, contains_str(t, "subprocess."), "subprocess");
    insert_if(risks, contains_str(t, "request.get_json"), "public-input");
}

fn risks_rest(t: &[char], risks: &mut Vec<String>)
    requires
        increasing(views(old(risks)@)),
    ensures
        increasing(views(final(risks)@)),
        members(final(risks)@) == content_risks_rest(t@, members(old(risks)@)),
{
    insert_if(risks, contains_str(t, "while true"), "loop");
    insert_if(risks, contains_str(t, "retry"), "retry");
    insert_if(risks, contains_str(t, "shutil.rmtree"), "destructive-operation");
    insert_if(risks, contains_str(t, "try:"), "try-except");
    insert_if(risks, contains_str(t, "except "), "exception-handler");
    insert_if(risks, contains_str(t, "except:"), "bare-except");
    insert_if(risks, contains_str(t, "jwt") || contains_str(t, "oauth") || contains_str(t, ".auth import"), "authentication");
}

/// Adding the conditional members to a set is adding them to the empty set
/// and taking the union.
proof fn lemma_risks_union(t: Seq<char>, s: Set<Seq<char>>)
    ensures
        content_risks_rest(t, content_risks_first(t, s)) == s.union(content_risks(t)),
{
    assert(content_risks_rest(t, content_risks_first(t, s)) =~= s.union(content_risks(t)));
}

/// Records what a text (file contents, metadata or a diff) shows.
pub fn add_content_observations(content: &str, domains: &mut Vec<String>, risks: &mut Vec<String>)
    requires
        increasing(views(old(domains)@)),
        increasing(views(old(risks)@)),
    ensures
        increasing(views(final(domains)@)),
        increasing(views(final(risks)@)),
        members(final(domains)@) == members(old(domains)@).union(content_domains(lower(content@))),
        members(final(risks)@) == members(old(risks)@).union(content_risks(lower(content@))),
{
    let c = crate::text::chars_of(content);
    let l = crate::text::to_lower(c.as_slice());
    let t = l.as_slice();
    let ghost tv = lower(content@);
    let ghost d0 = members(domains@);
    insert_if(domains, contains_str(t, "fastapi") || contains_str(t, "flask"), "api");
    insert_if(domains, contains_str(t, "sqlalchemy") || contains_str(t, "psycopg") || contains_str(t, "postgres"), "database");
    insert_if(domains, contains_str(t, "celery"), "worker");
    insert_if(domains, contains_str(t, "import react"), "frontend");
    assert(members(domains@) =~= d0.union(content_domains(tv)));
    let ghost r0 = members(risks@);
    risks_first(t, risks);
    risks_rest(t, risks);
    proof {
        lemma_risks_union(tv, r0);
    }
    assert(members(risks@) =~= r0.union(content_risks(tv)));
}

} // verus!
