//! Diff review: what the working tree changed, and which change-level rules
//! (tests for behavior, unrelated edits, dependencies, security, error
//! contracts, trivial tests) those changes call for.

pub mod association;
pub mod changes;
pub mod inline_tests;

use vstd::prelude::*;

use crate::checks::{EnforcementResult, Location, ResultEvidence, Severity, Status};
use crate::strset::{holds_text, increasing, members};
use crate::text::{
    chars_of, concat2, concat3, contains, contains_str, deep, ends_with, ends_with_str, lines,
    lower, split_char, starts_with, starts_with_str, to_lower, trim_end, views,
};

verus! {

/// When the review runs: after a single tool use, or at the end of a slice.
#[derive(Debug, Clone, Copy, PartialEq, Eq, Structural)]
pub enum Stage {
    PostToolUse,
    Stop,
}

// ---------------------------------------------------------------------------
// Signals in the patch and the paths.

/// A line the patch adds (not a file header).
pub open spec fn added_line(line: Seq<char>) -> bool {
    starts_with(line, "+"@) && !starts_with(line, "+++"@)
}

/// The added lines among `ls`, in order, ASCII-lower-cased.
pub open spec fn added_lower_of(ls: Seq<Seq<char>>) -> Seq<Seq<char>>
    decreases ls.len(),
{
    if ls.len() == 0 {
        seq![]
    } else {
        let m = added_lower_of(ls.drop_last());
        if added_line(ls.last()) {
            m.push(lower(ls.last()))
        } else {
            m
        }
    }
}

/// The patch's added lines, ASCII-lower-cased.
pub open spec fn added_lower(patch: Seq<char>) -> Seq<Seq<char>> {
    added_lower_of(lines(patch))
}

pub open spec fn anti_slop_line(l: Seq<char>) -> bool {
    contains(l, "println!("@) || contains(l, "print("@) || contains(l, "console.log("@) || contains(
        l,
        "pdb.set_trace("@,
    ) || contains(l, "debugger;"@) || contains(l, "eslint-disable"@) || contains(l, "# noqa"@)
        || contains(l, "type: ignore"@) || contains(l, "todo: remove"@)
}

pub open spec fn error_contract_line(l: Seq<char>) -> bool {
    (contains(l, "failed"@) || contains(l, "error:"@)) && !contains(l, "entity="@) && !contains(
        l,
        "reason="@,
    ) && !contains(l, "retryable="@)
}

pub open spec fn trivial_test_line(l: Seq<char>) -> bool {
    (contains(l, "assert!(true"@) || contains(l, "expect(true"@) || ends_with(trim_end(l), "pass"@))
        && (contains(l, "test"@) || contains(l, "spec"@) || contains(l, "assert"@) || contains(
        l,
        "pass"@,
    ))
}

pub open spec fn some_line(ls: Seq<Seq<char>>, which: nat) -> bool {
    exists|k: int|
        0 <= k < ls.len() && (if which == 0 {
            anti_slop_line(#[trigger] ls[k])
        } else if which == 1 {
            error_contract_line(ls[k])
        } else {
            trivial_test_line(ls[k])
        })
}

/// An added line carries debug output, a debugger hook or a lint
/// suppression.
pub open spec fn anti_slop_signal(patch: Seq<char>) -> bool {
    some_line(added_lower(patch), 0)
}

/// An added line reports a failure without naming entity, reason and
/// retryability.
pub open spec fn error_contract_signal(patch: Seq<char>) -> bool {
    some_line(added_lower(patch), 1)
}

/// An added test line only asserts truth or passes.
pub open spec fn trivial_test_signal(patch: Seq<char>) -> bool {
    some_line(added_lower(patch), 2)
}

fn added_lower_lines(patch: &str) -> (r: Vec<Vec<char>>)
    ensures
        deep(r@) == added_lower(patch@),
{
    let c = chars_of(patch);
    let ls = crate::text::lines_exec(c.as_slice());
    let ghost lv = deep(ls@);
    let mut out: Vec<Vec<char>> = Vec::new();
    let mut i: usize = 0;
    assert(lv.take(0) =~= Seq::<Seq<char>>::empty());
    assert(deep(out@) =~= Seq::<Seq<char>>::empty());
    while i < ls.len()
        invariant
            lv == deep(ls@),
            lv == lines(patch@),
            i <= ls.len(),
            deep(out@) == added_lower_of(lv.take(i as int)),
        decreases ls.len() - i,
    {
        let ghost before = out@;
        assert(lv.take(i + 1).drop_last() =~= lv.take(i as int));
        assert(lv[i as int] == ls@[i as int]@);
        if starts_with_str(ls[i].as_slice(), "+") && !starts_with_str(ls[i].as_slice(), "+++") {
            out.push(to_lower(ls[i].as_slice()));
            assert(deep(out@) =~= deep(before).push(lower(lv[i as int])));
        } else {
            assert(deep(out@) =~= deep(before));
        }
        i += 1;
    }
    assert(lv.take(ls.len() as int) =~= lv);
    out
}

fn anti_slop_line_exec(l: &[char]) -> (r: bool)
    ensures
        r == anti_slop_line(l@),
{
    contains_str(l, "println!(") || contains_str(l, "print(") || contains_str(l, "console.log(")
        || contains_str(l, "pdb.set_trace(") || contains_str(l, "debugger;") || contains_str(
        l,
        "eslint-disable",
    ) || contains_str(l, "# noqa") || contains_str(l, "type: ignore") || contains_str(
        l,
        "todo: remove",
    )
}

fn error_contract_line_exec(l: &[char]) -> (r: bool)
    ensures
        r == error_contract_line(l@),
{
    (contains_str(l, "failed") || contains_str(l, "error:")) && !contains_str(l, "entity=")
        && !contains_str(l, "reason=") && !contains_str(l, "retryable=")
}

fn trivial_test_line_exec(l: &[char]) -> (r: bool)
    ensures
        r == trivial_test_line(l@),
{
    let t = crate::text::trim_end_exec(l);
    (contains_str(l, "assert!(true") || contains_str(l, "expect(true") || ends_with_str(
        t.as_slice(),
        "pass",
    )) && (contains_str(l, "test") || contains_str(l, "spec") || contains_str(l, "assert")
        || contains_str(l, "pass"))
}

fn some_line_exec(ls: &Vec<Vec<char>>, which: u8) -> (r: bool)
    ensures
        r == some_line(deep(ls@), which as nat),
{
    let ghost lv = deep(ls@);
    let mut i: usize = 0;
    while i < ls.len()
        invariant
            i <= ls.len(),
            lv == deep(ls@),
            forall|k: int| 0 <= k < i ==> !(if which == 0 {
                anti_slop_line(#[trigger] lv[k])
            } else if which == 1 {
                error_contract_line(lv[k])
            } else {
                trivial_test_line(lv[k])
            }),
        decreases ls.len() - i,
    {
        assert(lv[i as int] == ls@[i as int]@);
        let hit = if which == 0 {
            anti_slop_line_exec(ls[i].as_slice())
        } else if which == 1 {
            error_contract_line_exec(ls[i].as_slice())
        } else {
            trivial_test_line_exec(ls[i].as_slice())
        };
        if hit {
            return true;
        }
        i += 1;
    }
    false
}

pub fn contains_anti_slop_signal(patch: &str) -> (r: bool)
    ensures
        r == anti_slop_signal(patch@),
{
    some_line_exec(&added_lower_lines(patch), 0)
}

pub fn contains_error_contract_signal(patch: &str) -> (r: bool)
    ensures
        r == error_contract_signal(patch@),
{
    some_line_exec(&added_lower_lines(patch), 1)
}

pub fn contains_trivial_test_signal(patch: &str) -> (r: bool)
    ensures
        r == trivial_test_signal(patch@),
{
    some_line_exec(&added_lower_lines(patch), 2)
}

/// A dependency manifest or lock file.
pub open spec fn dependency_file(file: Seq<char>) -> bool {
    ends_with(file, "Cargo.toml"@) || ends_with(file, "Cargo.lock"@) || ends_with(
        file,
        "pyproject.toml"@,
    ) || ends_with(file, "requirements.txt"@) || ends_with(file, "package.json"@) || ends_with(
        file,
        "pnpm-lock.yaml"@,
    ) || ends_with(file, "package-lock.json"@)
}

pub fn is_dependency(file: &str) -> (r: bool)
    ensures
        r == dependency_file(file@),
{
    let c = chars_of(file);
    let s = c.as_slice();
    ends_with_str(s, "Cargo.toml") || ends_with_str(s, "Cargo.lock") || ends_with_str(
        s,
        "pyproject.toml",
    ) || ends_with_str(s, "requirements.txt") || ends_with_str(s, "package.json")
        || ends_with_str(s, "pnpm-lock.yaml") || ends_with_str(s, "package-lock.json")
}

/// Some directory or file name of the path mentions authentication or
/// security.
pub open spec fn auth_path(file: Seq<char>) -> bool {
    exists|k: int|
        0 <= k < split_char(lower(file), '/').len() && (contains(
            #[trigger] split_char(lower(file), '/')[k],
            "auth"@,
        ) || contains(split_char(lower(file), '/')[k], "security"@))
}

pub fn is_auth_path(file: &str) -> (r: bool)
    ensures
        r == auth_path(file@),
{
    let c = chars_of(file);
    let l = to_lower(c.as_slice());
    let parts = crate::text::split_char_exec(l.as_slice(), '/');
    let ghost pv = deep(parts@);
    let mut i: usize = 0;
    while i < parts.len()
        invariant
            i <= parts.len(),
            pv == deep(parts@),
            pv == split_char(lower(file@), '/'),
            forall|k: int| 0 <= k < i ==> !(contains(#[trigger] pv[k], "auth"@) || contains(pv[k], "security"@)),
        decreases parts.len() - i,
    {
        assert(pv[i as int] == parts@[i as int]@);
        if contains_str(parts[i].as_slice(), "auth") || contains_str(parts[i].as_slice(), "security") {
            return true;
        }
        i += 1;
    }
    false
}

/// The lower-cased patch mentions a credential, permission or session.
pub open spec fn auth_signal(patch: Seq<char>) -> bool {
    let p = lower(patch);
    contains(p, "password"@) || contains(p, "token"@) || contains(p, "permission"@) || contains(
        p,
        "authorize"@,
    ) || contains(p, "authenticate"@) || contains(p, "session"@)
}

pub fn contains_auth_signal(patch: &str) -> (r: bool)
    ensures
        r == auth_signal(patch@),
{
    let c = chars_of(patch);
    let l = to_lower(c.as_slice());
    let p = l.as_slice();
    contains_str(p, "password") || contains_str(p, "token") || contains_str(p, "permission")
        || contains_str(p, "authorize") || contains_str(p, "authenticate") || contains_str(
        p,
        "session",
    )
}

// ---------------------------------------------------------------------------
// Statuses and messages.

/// No change passes; a change with no recorded touches cannot be checked;
/// otherwise unrelated changes fail.
pub open spec fn preserve_outcome(files_empty: bool, touched_empty: bool, unrelated_empty: bool) -> Status {
    if files_empty {
        Status::Passed
    } else if touched_empty {
        Status::Unverified
    } else if unrelated_empty {
        Status::Passed
    } else {
        Status::Failed
    }
}

pub fn preserve_status(files: &Vec<String>, touched: &Vec<String>, unrelated: &Vec<String>) -> (r: Status)
    ensures
        r == preserve_outcome(files.len() == 0, touched.len() == 0, unrelated.len() == 0),
{
    if files.len() == 0 {
        Status::Passed
    } else if touched.len() == 0 {
        Status::Unverified
    } else if unrelated.len() == 0 {
        Status::Passed
    } else {
        Status::Failed
    }
}

pub open spec fn preserve_text(unrelated: Option<Seq<Seq<char>>>) -> Seq<char> {
    match unrelated {
        None => "Pre-edit diff baseline is missing or malformed; unrelated changes cannot be verified."@,
        Some(u) => if u.len() == 0 {
            "All diff files were recorded as touched in this session."@
        } else {
            "Diff includes files not recorded in this session: "@ + crate::text::join_sep(u, ", "@) + "."@
        },
    }
}

pub fn preserve_message(unrelated: Option<&Vec<String>>) -> (r: String)
    ensures
        r@ == preserve_text(match unrelated { Some(u) => Some(views(u@)), None => None }),
{
    match unrelated {
        None => String::from_str(
            "Pre-edit diff baseline is missing or malformed; unrelated changes cannot be verified.",
        ),
        Some(u) => if u.len() == 0 {
            String::from_str("All diff files were recorded as touched in this session.")
        } else {
            let joined = crate::text::join_strings(u.as_slice(), ", ");
            concat3("Diff includes files not recorded in this session: ", joined.as_str(), ".")
        },
    }
}

pub open spec fn warning_outcome(found: bool) -> Status {
    if found {
        Status::Warning
    } else {
        Status::NotApplicable
    }
}

pub fn warning_status(found: bool) -> (r: Status)
    ensures
        r == warning_outcome(found),
{
    if found {
        Status::Warning
    } else {
        Status::NotApplicable
    }
}

// ---------------------------------------------------------------------------
// Results.

/// A diff-review result: the rule, status, severity and message given, the
/// changed files as locations, the review remediation for a failure or a
/// warning, and the evidence lines as descriptions.
pub open spec fn is_diff_result(
    r: EnforcementResult,
    rule: Seq<char>,
    status: Status,
    severity: Severity,
    message: Seq<char>,
    descriptions: Seq<Seq<char>>,
    files: Seq<Seq<char>>,
) -> bool {
    &&& r.rule_id@ == rule
    &&& r.status == status
    &&& r.severity == severity
    &&& r.message@ == message
    &&& r.locations@.len() == files.len()
    &&& (forall|k: int| 0 <= k < files.len() ==> (#[trigger] r.locations@[k]).file@ == files[k] && r.locations@[k].line is None)
    &&& (if status == Status::Failed || status == Status::Warning {
        r.remediation matches Some(m) && m@ == "Review the diff and add required tests or review evidence before completion."@
    } else {
        r.remediation is None
    })
    &&& r.evidence.check@ == "git.diff"@
    &&& r.evidence.tool_version is None
    &&& views(r.evidence.finding_descriptions@) == descriptions
}

fn copy_texts(v: &Vec<String>) -> (r: Vec<String>)
    ensures
        views(r@) == views(v@),
{
    let mut out: Vec<String> = Vec::new();
    let mut i: usize = 0;
    while i < v.len()
        invariant
            i <= v.len(),
            views(out@) == views(v@).take(i as int),
        decreases v.len() - i,
    {
        let ghost before = out@;
        out.push(v[i].clone());
        assert(views(out@) =~= views(before).push(v@[i as int]@));
        i += 1;
        assert(views(out@) =~= views(v@).take(i as int));
    }
    assert(views(v@).take(v.len() as int) =~= views(v@));
    out
}

pub fn result(
    rule: &str,
    status: Status,
    severity: Severity,
    message: &str,
    finding_descriptions: &Vec<String>,
    locations: Vec<Location>,
) -> (r: EnforcementResult)
    requires
        forall|k: int| 0 <= k < locations@.len() ==> (#[trigger] locations@[k]).line is None,
    ensures
        is_diff_result(
            r,
            rule@,
            status,
            severity,
            message@,
            views(finding_descriptions@),
            locations@.map_values(|l: Location| l.file@),
        ),
{
    let remediation = if status == Status::Failed || status == Status::Warning {
        Some(String::from_str("Review the diff and add required tests or review evidence before completion."))
    } else {
        None
    };
    EnforcementResult {
        rule_id: String::from_str(rule),
        status,
        severity,
        message: String::from_str(message),
        locations,
        remediation,
        evidence: ResultEvidence {
            check: String::from_str("git.diff"),
            tool_version: None,
            finding_descriptions: copy_texts(finding_descriptions),
        },
    }
}

/// Every changed file as a location without a line.
pub fn locations(files: &Vec<String>) -> (r: Vec<Location>)
    ensures
        r@.map_values(|l: Location| l.file@) == views(files@),
        forall|k: int| 0 <= k < r@.len() ==> (#[trigger] r@[k]).line is None,
{
    let mut out: Vec<Location> = Vec::new();
    let mut i: usize = 0;
    while i < files.len()
        invariant
            i <= files.len(),
            out@.map_values(|l: Location| l.file@) == views(files@).take(i as int),
            forall|k: int| 0 <= k < out@.len() ==> (#[trigger] out@[k]).line is None,
        decreases files.len() - i,
    {
        let ghost before = out@;
        out.push(Location { file: files[i].clone(), line: None });
        assert(out@.map_values(|l: Location| l.file@) =~= before.map_values(|l: Location| l.file@).push(files@[i as int]@));
        i += 1;
        assert(out@.map_values(|l: Location| l.file@) =~= views(files@).take(i as int));
    }
    assert(views(files@).take(files.len() as int) =~= views(files@));
    out
}

// ---------------------------------------------------------------------------
// The review.

/// What the working tree changed: the changed files and the files whose test
/// evidence does not count (both sorted sets), and the patch against HEAD.
#[derive(Debug, Clone, PartialEq, Eq)]
pub struct ChangeSet {
    pub files: Vec<String>,
    pub test_evidence_excluded: Vec<String>,
    pub patch: String,
}

impl ChangeSet {
    /// Both path lists are sorted sets.
    pub open spec fn wf(&self) -> bool {
        increasing(views(self.files@)) && increasing(views(self.test_evidence_excluded@))
    }
}

/// The decided statuses, messages and signals of one review.
#[derive(Debug, Clone, PartialEq, Eq)]
pub struct Evaluation {
    pub bug: Status,
    pub behavior: Status,
    pub bug_message: String,
    pub behavior_message: String,
    pub association_evidence: Vec<String>,
    pub preserve: Status,
    pub unrelated: Option<Vec<String>>,
    pub dependency: bool,
    pub auth: bool,
    pub anti_slop: bool,
    pub error_contract: bool,
    pub behavior_test_quality: bool,
}

/// The mathematical content of an evaluation.
pub struct ReviewView {
    pub bug: Status,
    pub behavior: Status,
    pub bug_message: Seq<char>,
    pub behavior_message: Seq<char>,
    pub evidence: Seq<Seq<char>>,
    pub preserve: Status,
    pub unrelated: Option<Seq<Seq<char>>>,
    pub dependency: bool,
    pub auth: bool,
    pub anti_slop: bool,
    pub error_contract: bool,
    pub test_quality: bool,
}

pub open spec fn evaluation_view(e: Evaluation) -> ReviewView {
    ReviewView {
        bug: e.bug,
        behavior: e.behavior,
        bug_message: e.bug_message@,
        behavior_message: e.behavior_message@,
        evidence: views(e.association_evidence@),
        preserve: e.preserve,
        unrelated: match e.unrelated {
            Some(u) => Some(views(u@)),
            None => None,
        },
        dependency: e.dependency,
        auth: e.auth,
        anti_slop: e.anti_slop,
        error_contract: e.error_contract,
        test_quality: e.behavior_test_quality,
    }
}

/// The eight diff-review results, in order, for a review.
pub open spec fn results_hold(r: Seq<EnforcementResult>, files: Seq<Seq<char>>, v: ReviewView) -> bool {
    &&& r.len() == 8
    &&& is_diff_result(r[0], "regression-test-required"@, v.bug, Severity::Error, v.bug_message, v.evidence, files)
    &&& is_diff_result(r[1], "new-behavior-tests-required"@, v.behavior, Severity::Error, v.behavior_message, v.evidence, files)
    &&& is_diff_result(r[2], "preserve-unrelated-user-changes"@, v.preserve, Severity::Error, preserve_text(v.unrelated), seq![], files)
    &&& is_diff_result(r[3], "new-dependency-review"@, warning_outcome(v.dependency), Severity::Warning,
        "Dependency files changed; review necessity, license, maintenance, and supply-chain risk."@, seq![], files)
    &&& is_diff_result(r[4], "auth-change-security-review"@, warning_outcome(v.auth), Severity::Warning,
        "Authentication or security-sensitive code changed; perform a focused security review."@, seq![], files)
    &&& is_diff_result(r[5], "anti-slop-checklist"@, warning_outcome(v.anti_slop), Severity::Warning,
        "Diff contains a high-confidence anti-slop review signal; remove debug/scaffolding or document the suppression."@,
        seq![], seq![])
    &&& is_diff_result(r[6], "error-contract-review"@, warning_outcome(v.error_contract), Severity::Warning,
        "New boundary failure text should include action, entity, reason, and retryability."@, seq![], files)
    &&& is_diff_result(r[7], "behavior-test-quality"@, warning_outcome(v.test_quality), Severity::Warning,
        "Test diff contains a high-confidence smoke-only or trivial assertion signal."@, seq![], seq![])
}

/// The review's eight results: the two test-association rules carry the
/// association evidence; the anti-slop and test-quality rules point at no
/// file, the others at every changed file.
pub fn build_results(changes: &ChangeSet, e: &Evaluation) -> (r: Vec<EnforcementResult>)
    ensures
        results_hold(r@, views(changes.files@), evaluation_view(*e)),
{
    let none: Vec<String> = Vec::new();
    assert(views(none@) =~= Seq::<Seq<char>>::empty());
    let no_locations: Vec<Location> = Vec::new();
    assert(no_locations@.map_values(|l: Location| l.file@) =~= Seq::<Seq<char>>::empty());
    let no_locations2: Vec<Location> = Vec::new();
    assert(no_locations2@.map_values(|l: Location| l.file@) =~= Seq::<Seq<char>>::empty());
    let mut out: Vec<EnforcementResult> = Vec::new();
    out.push(result("regression-test-required", e.bug, Severity::Error, e.bug_message.as_str(),
        &e.association_evidence, locations(&changes.files)));
    out.push(result("new-behavior-tests-required", e.behavior, Severity::Error,
        e.behavior_message.as_str(), &e.association_evidence, locations(&changes.files)));
    let preserve = match &e.unrelated {
        Some(u) => preserve_message(Some(u)),
        None => preserve_message(None),
    };
    out.push(result("preserve-unrelated-user-changes", e.preserve, Severity::Error, preserve.as_str(),
        &none, locations(&changes.files)));
    out.push(result("new-dependency-review", warning_status(e.dependency), Severity::Warning,
        "Dependency files changed; review necessity, license, maintenance, and supply-chain risk.",
        &none, locations(&changes.files)));
    out.push(result("auth-change-security-review", warning_status(e.auth), Severity::Warning,
        "Authentication or security-sensitive code changed; perform a focused security review.",
        &none, locations(&changes.files)));
    out.push(result("anti-slop-checklist", warning_status(e.anti_slop), Severity::Warning,
        "Diff contains a high-confidence anti-slop review signal; remove debug/scaffolding or document the suppression.",
        &none, no_locations));
    out.push(result("error-contract-review", warning_status(e.error_contract), Severity::Warning,
        "New boundary failure text should include action, entity, reason, and retryability.",
        &none, locations(&changes.files)));
    out.push(result("behavior-test-quality", warning_status(e.behavior_test_quality), Severity::Warning,
        "Test diff contains a high-confidence smoke-only or trivial assertion signal.", &none,
        no_locations2));
    out
}

/// The rules a failed change collection reports as unverified.
pub open spec fn rule_id(k: int) -> Seq<char> {
    if k == 0 {
        "regression-test-required"@
    } else if k == 1 {
        "new-behavior-tests-required"@
    } else if k == 2 {
        "preserve-unrelated-user-changes"@
    } else if k == 3 {
        "new-dependency-review"@
    } else if k == 4 {
        "auth-change-security-review"@
    } else if k == 5 {
        "error-contract-review"@
    } else {
        "behavior-test-quality"@
    }
}

pub fn rule_ids() -> (r: Vec<&'static str>)
    ensures
        r@.len() == 7,
        forall|k: int| 0 <= k < 7 ==> (#[trigger] r@[k])@ == rule_id(k),
{
    let r = vec![
        "regression-test-required",
        "new-behavior-tests-required",
        "preserve-unrelated-user-changes",
        "new-dependency-review",
        "auth-change-security-review",
        "error-contract-review",
        "behavior-test-quality",
    ];
    r
}

/// The changed files that were neither touched in this session nor present
/// before it, in order.
pub open spec fn unrelated_of(files: Seq<Seq<char>>, touched: Seq<Seq<char>>, baseline: Seq<Seq<char>>) -> Seq<Seq<char>>
    decreases files.len(),
{
    if files.len() == 0 {
        seq![]
    } else {
        let m = unrelated_of(files.drop_last(), touched, baseline);
        if !touched.contains(files.last()) && !baseline.contains(files.last()) {
            m.push(files.last())
        } else {
            m
        }
    }
}

/// The review of a change set: the test association over the workspaces and
/// the readable sources, the session's touched files against the pre-edit
/// baseline, the declared intent, and the patch's signals.
pub open spec fn review_of(
    files: Seq<Seq<char>>,
    excluded: Set<Seq<char>>,
    patch: Seq<char>,
    ws: Result<Seq<crate::discovery::Workspace>, Seq<char>>,
    sources: Seq<(String, Option<String>)>,
    touched: Seq<Seq<char>>,
    baseline: Option<Seq<Seq<char>>>,
    intent: Option<Seq<char>>,
) -> ReviewView {
    let (src, tst, unv) = association::associate(files, excluded, ws, sources, inline_tests::scan_facts(patch));
    let missing = association::missing_sources(src, tst);
    let unverified = crate::strset::sorted_texts(unv);
    let open_items = missing.len() > 0 || unverified.len() > 0;
    let bug_fix = intent == Some("bug-fix"@);
    let behavior = if open_items { Status::Unverified } else { Status::Passed };
    let bug = if bug_fix && (src.len() > 0 || tst.len() > 0) {
        if open_items { Status::Unverified } else { Status::Passed }
    } else if bug_fix && unverified.len() > 0 {
        Status::Unverified
    } else {
        Status::NotApplicable
    };
    let unrelated = match baseline {
        Some(b) => Some(unrelated_of(files, touched, b)),
        None => None,
    };
    ReviewView {
        bug,
        behavior,
        bug_message: association::bug_message(bug, missing, unverified),
        behavior_message: association::behavior_message(behavior, missing, unverified),
        evidence: association::evidence_lines(src, tst, missing, unverified),
        preserve: match unrelated {
            Some(u) => preserve_outcome(files.len() == 0, touched.len() == 0, u.len() == 0),
            None => Status::Unverified,
        },
        unrelated,
        dependency: exists|k: int| 0 <= k < files.len() && dependency_file(#[trigger] files[k]),
        auth: (exists|k: int| 0 <= k < files.len() && auth_path(#[trigger] files[k])) || auth_signal(patch),
        anti_slop: anti_slop_signal(patch),
        error_contract: error_contract_signal(patch),
        test_quality: trivial_test_signal(patch),
    }
}

fn unrelated_files(files: &Vec<String>, touched: &Vec<String>, baseline: &Vec<String>) -> (r: Vec<String>)
    ensures
        views(r@) == unrelated_of(views(files@), views(touched@), views(baseline@)),
{
    let ghost fv = views(files@);
    let mut out: Vec<String> = Vec::new();
    let mut i: usize = 0;
    assert(fv.take(0) =~= Seq::<Seq<char>>::empty());
    assert(views(out@) =~= Seq::<Seq<char>>::empty());
    while i < files.len()
        invariant
            i <= files.len(),
            fv == views(files@),
            views(out@) == unrelated_of(fv.take(i as int), views(touched@), views(baseline@)),
        decreases files.len() - i,
    {
        assert(fv.take(i + 1).drop_last() =~= fv.take(i as int));
        assert(fv.take(i + 1).last() == files@[i as int]@);
        let ghost before = out@;
        if !holds_text(touched, files[i].as_str()) && !holds_text(baseline, files[i].as_str()) {
            out.push(files[i].clone());
            assert(views(out@) =~= views(before).push(files@[i as int]@));
        }
        i += 1;
    }
    assert(fv.take(files.len() as int) =~= fv);
    out
}

fn any_dependency(files: &Vec<String>) -> (r: bool)
    ensures
        r == exists|k: int| 0 <= k < files@.len() && dependency_file(#[trigger] views(files@)[k]),
{
    let mut i: usize = 0;
    while i < files.len()
        invariant
            i <= files.len(),
            forall|k: int| 0 <= k < i ==> !dependency_file(#[trigger] views(files@)[k]),
        decreases files.len() - i,
    {
        assert(views(files@)[i as int] == files@[i as int]@);
        if is_dependency(files[i].as_str()) {
            return true;
        }
        i += 1;
    }
    false
}

fn any_auth_path(files: &Vec<String>) -> (r: bool)
    ensures
        r == exists|k: int| 0 <= k < files@.len() && auth_path(#[trigger] views(files@)[k]),
{
    let mut i: usize = 0;
    while i < files.len()
        invariant
            i <= files.len(),
            forall|k: int| 0 <= k < i ==> !auth_path(#[trigger] views(files@)[k]),
        decreases files.len() - i,
    {
        assert(views(files@)[i as int] == files@[i as int]@);
        if is_auth_path(files[i].as_str()) {
            return true;
        }
        i += 1;
    }
    false
}

/// `r` is the review of the collected changes, or every rule unverified with
/// the collection's failure as message.
pub open spec fn evaluated(
    r: Seq<EnforcementResult>,
    changes: &Result<ChangeSet, String>,
    workspaces: &Result<Vec<crate::discovery::Workspace>, String>,
    sources: &Vec<(String, Option<String>)>,
    touched: &Vec<String>,
    baseline: Option<&Vec<String>>,
    intent: Option<&str>,
) -> bool {
        match changes {
            Err(reason) => r.len() == 7 && forall|k: int| 0 <= k < 7 ==> is_diff_result(
                #[trigger] r[k],
                rule_id(k),
                Status::Unverified,
                Severity::Error,
                reason@,
                seq![],
                seq![],
            ),
            Ok(c) => results_hold(
                r,
                views(c.files@),
                review_of(
                    views(c.files@),
                    members(c.test_evidence_excluded@),
                    c.patch@,
                    association::metadata(*workspaces),
                    sources@,
                    views(touched@),
                    match baseline { Some(b) => Some(views(b@)), None => None },
                    match intent { Some(i) => Some(i@), None => None },
                ),
            ),
        }
}

/// Reviews a collected change set (or reports every rule unverified when
/// the changes could not be collected): `workspaces` is the repository's
/// workspace metadata, `sources` the readable contents of changed files,
/// `touched` the files this session edited, `baseline` the files changed
/// before it when that record exists, `intent` the declared task intent.
pub fn evaluate(
    changes: &Result<ChangeSet, String>,
    workspaces: &Result<Vec<crate::discovery::Workspace>, String>,
    sources: &Vec<(String, Option<String>)>,
    touched: &Vec<String>,
    baseline: Option<&Vec<String>>,
    intent: Option<&str>,
) -> (r: Vec<EnforcementResult>)
    requires
        changes matches Ok(c) ==> c.wf(),
    ensures
        evaluated(r@, changes, workspaces, sources, touched, baseline, intent),
{
    let c = match changes {
        Err(reason) => {
            let ids = rule_ids();
            let none: Vec<String> = Vec::new();
            assert(views(none@) =~= Seq::<Seq<char>>::empty());
            let mut out: Vec<EnforcementResult> = Vec::new();
            let mut k: usize = 0;
            while k < 7
                invariant
                    k <= 7,
                    ids@.len() == 7,
                    forall|j: int| 0 <= j < 7 ==> (#[trigger] ids@[j])@ == rule_id(j),
                    views(none@) == Seq::<Seq<char>>::empty(),
                    out@.len() == k,
                    forall|j: int| 0 <= j < k ==> is_diff_result(
                        #[trigger] out@[j],
                        rule_id(j),
                        Status::Unverified,
                        Severity::Error,
                        reason@,
                        seq![],
                        seq![],
                    ),
                decreases 7 - k,
            {
                let no_locations: Vec<Location> = Vec::new();
                assert(no_locations@.map_values(|l: Location| l.file@) =~= Seq::<Seq<char>>::empty());
                out.push(result(ids[k], Status::Unverified, Severity::Error, reason.as_str(), &none, no_locations));
                k += 1;
            }
            return out;
        },
        Ok(c) => c,
    };
    let index = inline_tests::PatchIndex::from_patch(c.patch.as_str());
    let a = association::classify_changes_with_patch(
        &c.files,
        &c.test_evidence_excluded,
        workspaces,
        sources,
        &index,
    );
    proof {
        crate::strset::lemma_sorted_texts(views(a.unverified@));
    }
    let open_items = a.missing_sources.len() > 0 || a.unverified.len() > 0;
    let bug_fix = match intent {
        Some(i) => crate::text::same_text(i, "bug-fix"),
        None => false,
    };
    let behavior = if open_items { Status::Unverified } else { Status::Passed };
    let bug = if bug_fix && (a.sources.len() > 0 || a.tests.len() > 0) {
        if open_items { Status::Unverified } else { Status::Passed }
    } else if bug_fix && a.unverified.len() > 0 {
        Status::Unverified
    } else {
        Status::NotApplicable
    };
    let unrelated = match baseline {
        Some(b) => Some(unrelated_files(&c.files, touched, b)),
        None => None,
    };
    let preserve = match &unrelated {
        Some(u) => preserve_status(&c.files, touched, u),
        None => Status::Unverified,
    };
    let e = Evaluation {
        bug,
        behavior,
        bug_message: association::bug_association_message(bug, &a),
        behavior_message: association::behavior_association_message(behavior, &a),
        association_evidence: association::association_evidence(&a),
        preserve,
        unrelated,
        dependency: any_dependency(&c.files),
        auth: any_auth_path(&c.files) || contains_auth_signal(c.patch.as_str()),
        anti_slop: contains_anti_slop_signal(c.patch.as_str()),
        error_contract: contains_error_contract_signal(c.patch.as_str()),
        behavior_test_quality: contains_trivial_test_signal(c.patch.as_str()),
    };
    build_results(c, &e)
}

/// A failed test-association result, which a single tool use only warns of.
pub open spec fn deferrable(r: EnforcementResult) -> bool {
    r.status == Status::Failed && (r.rule_id@ == "regression-test-required"@ || r.rule_id@
        == "new-behavior-tests-required"@)
}

/// `after` is `before` deferred to the Stop gate when it is deferrable, and
/// `before` unchanged otherwise.
pub open spec fn deferred(before: EnforcementResult, after: EnforcementResult) -> bool {
    if deferrable(before) {
        &&& after.status == Status::Warning
        &&& after.message@ == before.message@ + " Deferred until the Stop slice-completion gate."@
        &&& after.rule_id == before.rule_id
        &&& after.severity == before.severity
        &&& after.locations == before.locations
        &&& after.remediation == before.remediation
        &&& after.evidence == before.evidence
    } else {
        after == before
    }
}

/// Turns failed test-association results into warnings that the Stop gate
/// will decide.
pub fn defer_slice_completion(results: &mut Vec<EnforcementResult>)
    ensures
        final(results)@.len() == old(results)@.len(),
        forall|k: int| 0 <= k < old(results)@.len() ==> deferred(old(results)@[k], #[trigger] final(results)@[k]),
{
    let mut pending: Vec<EnforcementResult> = Vec::new();
    std::mem::swap(&mut pending, results);
    let ghost orig = pending@;
    while pending.len() > 0
        invariant
            results@.len() + pending@.len() == orig.len(),
            pending@ == orig.skip(results@.len() as int),
            forall|k: int| 0 <= k < results@.len() ==> deferred(orig[k], #[trigger] results@[k]),
        decreases pending@.len(),
    {
        let ghost at = results@.len() as int;
        assert(orig.skip(at)[0] == orig[at]);
        let mut r = pending.remove(0);
        assert(pending@ =~= orig.skip(at + 1));
        if r.status == Status::Failed && (crate::text::same_text(r.rule_id.as_str(), "regression-test-required")
            || crate::text::same_text(r.rule_id.as_str(), "new-behavior-tests-required")) {
            r.status = Status::Warning;
            r.message.append(" Deferred until the Stop slice-completion gate.");
        }
        results.push(r);
    }
}

/// The review at a stage: after a single tool use, failed test-association
/// results are deferred to the Stop gate.
pub fn evaluate_at(
    changes: &Result<ChangeSet, String>,
    workspaces: &Result<Vec<crate::discovery::Workspace>, String>,
    sources: &Vec<(String, Option<String>)>,
    touched: &Vec<String>,
    baseline: Option<&Vec<String>>,
    intent: Option<&str>,
    stage: Stage,
) -> (r: Vec<EnforcementResult>)
    requires
        changes matches Ok(c) ==> c.wf(),
    ensures
        exists|plain: Seq<EnforcementResult>| {
            &&& evaluated(plain, changes, workspaces, sources, touched, baseline, intent)
            &&& plain.len() == r@.len()
            &&& forall|k: int| 0 <= k < plain.len() ==> (if stage == Stage::PostToolUse {
                deferred(plain[k], #[trigger] r@[k])
            } else {
                r@[k] == plain[k]
            })
        },
{
    let mut results = evaluate(changes, workspaces, sources, touched, baseline, intent);
    let ghost plain = results@;
    if stage == Stage::PostToolUse {
        defer_slice_completion(&mut results);
    }
    assert(forall|k: int| 0 <= k < plain.len() ==> (if stage == Stage::PostToolUse {
        deferred(plain[k], #[trigger] results@[k])
    } else {
        results@[k] == plain[k]
    }));
    results
}

// ---------------------------------------------------------------------------
// Collecting the changes from git's output.

/// What a git run gave: nothing (it could not run or timed out), or its exit
/// code and standard output.
pub type GitOutput = Option<(Option<i32>, Vec<u8>)>;

pub open spec fn exited_zero(code: Option<i32>) -> bool {
    code == Some(0i32)
}

/// Applies one `git diff --name-status -z` run to the changed and excluded sets.
pub open spec fn name_status_step(
    out: GitOutput,
    acc: Result<(Set<Seq<char>>, Set<Seq<char>>), Seq<char>>,
) -> Result<(Set<Seq<char>>, Set<Seq<char>>), Seq<char>> {
    match acc {
        Err(e) => Err(e),
        Ok((f, e)) => match out {
            None => Err("git diff unavailable or timed out"@),
            Some((code, bytes)) => if !exited_zero(code) {
                Err("git diff failed or repository is unavailable"@)
            } else {
                changes::name_status_from(crate::text::nul_fields_of(bytes@), 0, f, e)
            },
        },
    }
}

/// Applies the `git ls-files --others` run: untracked paths are changed
/// files whose test evidence counts.
pub open spec fn untracked_step(
    out: GitOutput,
    acc: Result<(Set<Seq<char>>, Set<Seq<char>>), Seq<char>>,
) -> Result<(Set<Seq<char>>, Set<Seq<char>>), Seq<char>> {
    match acc {
        Err(e) => Err(e),
        Ok((f, e)) => match out {
            None => Err("git untracked-file collection unavailable or timed out"@),
            Some((code, bytes)) => if !exited_zero(code) {
                Err("git untracked-file collection failed"@)
            } else {
                let fs = crate::text::nul_fields_of(bytes@);
                match changes::paths_error(fs) {
                    Some(m) => Err(m),
                    None => Ok((f.union(changes::field_texts(fs)), e.difference(changes::field_texts(fs)))),
                }
            },
        },
    }
}

/// The change set that the unstaged and staged name-status runs, the
/// untracked-file listing and the patch against HEAD give, or the first
/// failure among them.
pub open spec fn collected(unstaged: GitOutput, staged: GitOutput, untracked: GitOutput, patch: GitOutput) -> Result<
    (Set<Seq<char>>, Set<Seq<char>>, Seq<char>),
    Seq<char>,
> {
    match untracked_step(
        untracked,
        name_status_step(staged, name_status_step(unstaged, Ok((Set::empty(), Set::empty())))),
    ) {
        Err(e) => Err(e),
        Ok((f, e)) => match patch {
            None => Err("git patch unavailable or timed out"@),
            Some((code, bytes)) => if !exited_zero(code) {
                Err("git patch failed or repository is unavailable"@)
            } else {
                Ok((f, e, crate::text::lossy_decoded(bytes@)))
            },
        },
    }
}

fn is_zero_exit(code: Option<i32>) -> (r: bool)
    ensures
        r == exited_zero(code),
{
    match code {
        Some(c) => c == 0,
        None => false,
    }
}

fn apply_name_status(out: &GitOutput, files: &mut Vec<String>, excluded: &mut Vec<String>) -> (r: Result<(), String>)
    requires
        increasing(views(old(files)@)),
        increasing(views(old(excluded)@)),
    ensures
        increasing(views(final(files)@)),
        increasing(views(final(excluded)@)),
        match (r, name_status_step(*out, Ok((members(old(files)@), members(old(excluded)@))))) {
            (Ok(_), Ok((f, e))) => members(final(files)@) == f && members(final(excluded)@) == e,
            (Err(x), Err(m)) => x@ == m,
            _ => false,
        },
{
    match out {
        None => Err(String::from_str("git diff unavailable or timed out")),
        Some((code, bytes)) => {
            if !is_zero_exit(*code) {
                return Err(String::from_str("git diff failed or repository is unavailable"));
            }
            changes::parse_name_status(bytes.as_slice(), files, excluded)
        },
    }
}

/// Builds the change set from git's output (see `collected`).
pub fn collect_from(unstaged: &GitOutput, staged: &GitOutput, untracked: &GitOutput, patch: &GitOutput) -> (r: Result<
    ChangeSet,
    String,
>)
    ensures
        match (r, collected(*unstaged, *staged, *untracked, *patch)) {
            (Ok(c), Ok((f, e, p))) => c.wf() && members(c.files@) == f && members(c.test_evidence_excluded@) == e
                && c.patch@ == p,
            (Err(x), Err(m)) => x@ == m,
            _ => false,
        },
{
    let mut files: Vec<String> = Vec::new();
    let mut excluded: Vec<String> = Vec::new();
    assert(views(files@) =~= Seq::<Seq<char>>::empty());
    assert(members(files@) =~= Set::<Seq<char>>::empty());
    assert(members(excluded@) =~= Set::<Seq<char>>::empty());
    if let Err(e) = apply_name_status(unstaged, &mut files, &mut excluded) {
        return Err(e);
    }
    if let Err(e) = apply_name_status(staged, &mut files, &mut excluded) {
        return Err(e);
    }
    match untracked {
        None => return Err(String::from_str("git untracked-file collection unavailable or timed out")),
        Some((code, bytes)) => {
            if !is_zero_exit(*code) {
                return Err(String::from_str("git untracked-file collection failed"));
            }
            if let Err(e) = changes::parse_paths(bytes.as_slice(), &mut files, &mut excluded) {
                return Err(e);
            }
        },
    }
    match patch {
        None => Err(String::from_str("git patch unavailable or timed out")),
        Some((code, bytes)) => {
            if !is_zero_exit(*code) {
                return Err(String::from_str("git patch failed or repository is unavailable"));
            }
            let text = crate::text::lossy_text(bytes.as_slice());
            Ok(ChangeSet { files, test_evidence_excluded: excluded, patch: text })
        },
    }
}

/// The changed files git's output shows (see `collected`).
pub fn changed_files(unstaged: &GitOutput, staged: &GitOutput, untracked: &GitOutput, patch: &GitOutput) -> (r: Result<
    Vec<String>,
    String,
>)
    ensures
        match (r, collected(*unstaged, *staged, *untracked, *patch)) {
            (Ok(fs), Ok((f, _, _))) => increasing(views(fs@)) && members(fs@) == f,
            (Err(x), Err(m)) => x@ == m,
            _ => false,
        },
{
    match collect_from(unstaged, staged, untracked, patch) {
        Ok(c) => Ok(c.files),
        Err(e) => Err(e),
    }
}

} // verus!
