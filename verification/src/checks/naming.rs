//! Conservative naming review: function names that are clearly placeholders,
//! and tests named after nothing they verify.

use vstd::prelude::*;

use crate::checks::diff::association::{extension, extension_exec};
use crate::checks::languages::loc_views;
use crate::checks::{EnforcementResult, Location, ResultEvidence, Severity, Status};
use crate::text::{contains, ends_with, lower};

verus! {

/// A file the review reads: its language's extension is known.
pub open spec fn reviewed(file: Seq<char>) -> bool {
    match extension(file) {
        Some(e) => e == "py"@ || e == "rs"@ || e == "ts"@ || e == "tsx"@ || e == "js"@ || e == "jsx"@ || e == "go"@,
        None => false,
    }
}

pub open spec fn vague_name(n: Seq<char>) -> bool {
    n == "foo"@ || n == "bar"@ || n == "baz"@ || n == "tmp"@ || n == "thing"@ || n == "stuff"@ || n == "foobar"@
        || n == "xxx"@
}

pub open spec fn generic_test_name(n: Seq<char>) -> bool {
    n == "test"@ || n == "it"@ || n == "smoke"@ || n == "works"@
}

/// A test file by its lower-cased path.
pub open spec fn test_path(p: Seq<char>) -> bool {
    contains(p, "/tests/"@) || contains(p, "\\tests\\"@) || ends_with(p, "_test.py"@) || ends_with(p, ".spec.ts"@)
        || ends_with(p, ".test.ts"@)
}

/// A file with its functions (name, first line) as the analyzer found them,
/// or `None` when it could not be analyzed.
pub type Analyzed = (String, Option<Vec<(String, u64)>>);

/// The placeholder (`tests` false) or generic-test (`tests` true) findings of
/// the first `n` functions of a file.
pub open spec fn function_findings(file: Seq<char>, fs: Seq<(String, u64)>, tests: bool, n: nat) -> Seq<(Seq<char>, Option<u64>)>
    decreases n,
{
    if n == 0 || n > fs.len() {
        seq![]
    } else {
        let prev = function_findings(file, fs, tests, (n - 1) as nat);
        let name = lower(fs[n - 1].0@);
        let hit = if tests { test_path(lower(file)) && generic_test_name(name) } else { vague_name(name) };
        if hit {
            prev.push((file, Some(fs[n - 1].1)))
        } else {
            prev
        }
    }
}

/// The findings of the first `n` files.
pub open spec fn naming_findings(files: Seq<Analyzed>, tests: bool, n: nat) -> Seq<(Seq<char>, Option<u64>)>
    decreases n,
{
    if n == 0 || n > files.len() {
        seq![]
    } else {
        let prev = naming_findings(files, tests, (n - 1) as nat);
        let (file, analysis) = files[n - 1];
        if !reviewed(file@) {
            prev
        } else {
            match analysis {
                None => prev,
                Some(fs) => prev + function_findings(file@, fs@, tests, fs@.len()),
            }
        }
    }
}

pub open spec fn naming_status(files_empty: bool, found: nat) -> Status {
    if files_empty {
        Status::NotApplicable
    } else if found == 0 {
        Status::Passed
    } else {
        Status::Warning
    }
}

fn reviewed_exec(file: &str) -> (r: bool)
    ensures
        r == reviewed(file@),
{
    let c = crate::text::chars_of(file);
    match extension_exec(c.as_slice()) {
        None => false,
        Some(e) => {
            let s = e.as_slice();
            crate::text::chars_are(s, "py") || crate::text::chars_are(s, "rs") || crate::text::chars_are(s, "ts")
                || crate::text::chars_are(s, "tsx") || crate::text::chars_are(s, "js") || crate::text::chars_are(s, "jsx")
                || crate::text::chars_are(s, "go")
        },
    }
}

fn file_naming(file: &String, functions: &Vec<(String, u64)>, tests: bool, out: &mut Vec<Location>)
    ensures
        loc_views(final(out)@) == loc_views(old(out)@) + function_findings(file@, functions@, tests, functions@.len()),
{
    let fc = crate::text::chars_of(file.as_str());
    let fl = crate::text::to_lower(fc.as_slice());
    let fs = fl.as_slice();
    let is_test = crate::text::contains_str(fs, "/tests/") || crate::text::contains_str(fs, "\\tests\\")
        || crate::text::ends_with_str(fs, "_test.py") || crate::text::ends_with_str(fs, ".spec.ts")
        || crate::text::ends_with_str(fs, ".test.ts");
    let ghost base = loc_views(out@);
    let mut k: usize = 0;
    assert(base + function_findings(file@, functions@, tests, 0) =~= base);
    while k < functions.len()
        invariant
            k <= functions.len(),
            is_test == test_path(lower(file@)),
            loc_views(out@) == base + function_findings(file@, functions@, tests, k as nat),
        decreases functions.len() - k,
    {
        let nc = crate::text::chars_of(functions[k].0.as_str());
        let nl = crate::text::to_lower(nc.as_slice());
        let n = nl.as_slice();
        let hit = if tests {
            is_test && (crate::text::chars_are(n, "test") || crate::text::chars_are(n, "it") || crate::text::chars_are(
                n,
                "smoke",
            ) || crate::text::chars_are(n, "works"))
        } else {
            crate::text::chars_are(n, "foo") || crate::text::chars_are(n, "bar") || crate::text::chars_are(n, "baz")
                || crate::text::chars_are(n, "tmp") || crate::text::chars_are(n, "thing") || crate::text::chars_are(
                n,
                "stuff",
            ) || crate::text::chars_are(n, "foobar") || crate::text::chars_are(n, "xxx")
        };
        let ghost before = out@;
        if hit {
            out.push(Location { file: file.clone(), line: Some(functions[k].1) });
            assert(loc_views(out@) =~= loc_views(before).push((file@, Some(functions@[k as int].1))));
        }
        assert(loc_views(out@) =~= base + function_findings(file@, functions@, tests, (k + 1) as nat));
        k += 1;
    }
}

fn findings(files: &Vec<Analyzed>, tests: bool) -> (r: Vec<Location>)
    ensures
        loc_views(r@) == naming_findings(files@, tests, files@.len()),
{
    let mut out: Vec<Location> = Vec::new();
    let mut i: usize = 0;
    assert(loc_views(out@) =~= Seq::empty());
    while i < files.len()
        invariant
            i <= files.len(),
            loc_views(out@) == naming_findings(files@, tests, i as nat),
        decreases files.len() - i,
    {
        if reviewed_exec(files[i].0.as_str()) {
            match &files[i].1 {
                None => {},
                Some(fs) => {
                    file_naming(&files[i].0, fs, tests, &mut out);
                },
            }
        }
        i += 1;
    }
    out
}

/// A naming result: warning severity, the count in the message when there
/// are findings, and the remediation when it warns.
pub open spec fn is_naming_result(
    r: EnforcementResult,
    rule: Seq<char>,
    status: Status,
    found: Seq<(Seq<char>, Option<u64>)>,
    clean: Seq<char>,
    noun: Seq<char>,
    remediation: Seq<char>,
    check: Seq<char>,
) -> bool {
    &&& r.rule_id@ == rule
    &&& r.status == status
    &&& r.severity == Severity::Warning
    &&& r.message@ == (if found.len() == 0 {
        clean
    } else {
        "Review "@ + crate::checks::commands::supervisor::decimal(found.len()) + noun
    })
    &&& loc_views(r.locations@) == found
    &&& (if status == Status::Warning {
        r.remediation matches Some(m) && m@ == remediation
    } else {
        r.remediation is None
    })
    &&& r.evidence.check@ == check
    &&& r.evidence.tool_version is None
    &&& r.evidence.finding_descriptions@.len() == 0
}

fn naming_result(
    rule: &str,
    files_empty: bool,
    locations: Vec<Location>,
    clean: &str,
    noun: &str,
    remediation: &str,
    check: &str,
) -> (r: EnforcementResult)
    ensures
        is_naming_result(r, rule@, naming_status(files_empty, locations@.len()), loc_views(locations@), clean@, noun@, remediation@, check@),
{
    let status = if files_empty {
        Status::NotApplicable
    } else if locations.len() == 0 {
        Status::Passed
    } else {
        Status::Warning
    };
    let message = if locations.len() == 0 {
        String::from_str(clean)
    } else {
        let n = crate::checks::commands::supervisor::decimal_string(locations.len() as u64);
        crate::text::concat3("Review ", n.as_str(), noun)
    };
    EnforcementResult {
        rule_id: String::from_str(rule),
        status,
        severity: Severity::Warning,
        message,
        locations,
        remediation: if status == Status::Warning { Some(String::from_str(remediation)) } else { None },
        evidence: ResultEvidence { check: String::from_str(check), tool_version: None, finding_descriptions: Vec::new() },
    }
}

/// The placeholder-name review and the generic-test-name review of the
/// touched files (each with the functions its analysis found).
pub fn scan(files: &Vec<Analyzed>) -> (r: Vec<EnforcementResult>)
    ensures
        r@.len() == 2,
        ({
            let found = naming_findings(files@, false, files@.len());
            is_naming_result(r@[0], "naming-review"@, naming_status(files@.len() == 0, found.len()), found,
                "No clearly placeholder function names were found."@, " placeholder identifier(s)."@,
                "Use a domain-specific verb-first name or document the protocol constraint."@, "native.naming"@)
        }),
        ({
            let found = naming_findings(files@, true, files@.len());
            is_naming_result(r@[1], "test-naming-review"@, naming_status(files@.len() == 0, found.len()), found,
                "No generic test names were found."@, " generic test name(s)."@,
                "Name tests after the observable behavior they verify."@, "native.test-naming"@)
        }),
{
    let placeholders = findings(files, false);
    let generic = findings(files, true);
    let mut out: Vec<EnforcementResult> = Vec::new();
    out.push(naming_result("naming-review", files.len() == 0, placeholders,
        "No clearly placeholder function names were found.", " placeholder identifier(s).",
        "Use a domain-specific verb-first name or document the protocol constraint.", "native.naming"));
    out.push(naming_result("test-naming-review", files.len() == 0, generic, "No generic test names were found.",
        " generic test name(s).", "Name tests after the observable behavior they verify.", "native.test-naming"));
    out
}

} // verus!
