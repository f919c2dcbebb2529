//! The Semgrep-backed policy rules for Python.
//!
//! Semgrep runs the embedded policy rules over the touched Python files;
//! each rule fails at the findings whose rule id names it and passes
//! otherwise. A run that could not finish, exited with an unexpected status,
//! wrote unreadable output, reported scan errors or named an unknown rule
//! leaves every rule unverified.

use vstd::prelude::*;

use crate::checks::commands::result::code_text;
use crate::checks::commands::supervisor::decimal;
use crate::checks::gitleaks::result::version_view;
use crate::checks::languages::loc_views;
use crate::checks::{EnforcementResult, Location, ResultEvidence, Severity, Status};
use crate::text::{ends_with, starts_with, trim, visible};

verus! {

/// One finding of Semgrep's JSON output.
#[derive(Debug, Clone, PartialEq, Eq)]
pub struct SemgrepFinding {
    pub check_id: String,
    pub path: String,
    pub line: u64,
}

/// Semgrep's JSON output: its findings and how many scan errors it listed.
#[derive(Debug, Clone, PartialEq, Eq)]
pub struct SemgrepOutput {
    pub results: Vec<SemgrepFinding>,
    pub errors: usize,
}

/// What running Semgrep gave.
#[derive(Debug, PartialEq, Eq)]
pub enum SemgrepRun {
    /// The run could not be prepared or finished, for the reason given.
    Failed(String),
    /// Semgrep exited with this status (`None` for a signal); its output
    /// read, or the parser's message.
    Exited(Option<i32>, Result<SemgrepOutput, String>),
}

/// The policy rules, in order.
pub open spec fn rules() -> Seq<Seq<char>> {
    seq![
        "external-call-timeout"@,
        "public-input-validation"@,
        "sql-parameterization"@,
        "bounded-retries-loops"@,
        "destructive-operation-safeguards"@,
    ]
}

/// The last position where `needle` occurs among those before `n`.
pub open spec fn rfind(hay: Seq<char>, needle: Seq<char>, n: nat) -> Option<nat>
    decreases n,
{
    if n == 0 {
        None
    } else if (n - 1) + needle.len() <= hay.len() && hay.subrange(n - 1, ((n - 1) + needle.len()) as int) == needle {
        Some((n - 1) as nat)
    } else {
        rfind(hay, needle, (n - 1) as nat)
    }
}

/// The policy check a rule id names: what follows a leading
/// `quality_gate.`, else what follows the last `.quality_gate.`.
pub open spec fn policy_check(id: Seq<char>) -> Option<Seq<char>> {
    if starts_with(id, "quality_gate."@) {
        Some(id.skip(13))
    } else {
        match rfind(id, ".quality_gate."@, id.len() + 1) {
            Some(i) => Some(id.skip((i + 14) as int)),
            None => None,
        }
    }
}

/// A rule id names the rule itself or one of its `rule-…` variants.
pub open spec fn names_rule(id: Seq<char>, rule: Seq<char>) -> bool {
    match policy_check(id) {
        Some(c) => c == rule || starts_with(c, rule + "-"@),
        None => false,
    }
}

pub open spec fn known(id: Seq<char>) -> bool {
    exists|k: int| 0 <= k < 5 && names_rule(id, #[trigger] rules()[k])
}

/// The findings of a rule, in order.
pub open spec fn rule_findings(fs: Seq<SemgrepFinding>, rule: Seq<char>) -> Seq<SemgrepFinding>
    decreases fs.len(),
{
    if fs.len() == 0 {
        seq![]
    } else if names_rule(fs.last().check_id@, rule) {
        rule_findings(fs.drop_last(), rule).push(fs.last())
    } else {
        rule_findings(fs.drop_last(), rule)
    }
}

/// The findings of a run, or why it cannot be trusted.
pub open spec fn run_outcome(run: SemgrepRun) -> Result<Seq<SemgrepFinding>, Seq<char>> {
    match run {
        SemgrepRun::Failed(reason) => Err(reason@),
        SemgrepRun::Exited(code, output) => if !(code == Some(0i32) || code == Some(1i32)) {
            Err(
                "semgrep exited with status "@ + match code {
                    Some(c) => code_text(c),
                    None => "signal"@,
                },
            )
        } else {
            match output {
                Err(e) => Err("could not parse semgrep JSON ("@ + e@ + ")"@),
                Ok(o) => if o.errors > 0 {
                    Err("semgrep reported "@ + decimal(o.errors as nat) + " scan error(s)"@)
                } else if exists|k: int| 0 <= k < o.results@.len() && !known(#[trigger] o.results@[k].check_id@) {
                    Err("semgrep returned an unknown policy rule id"@)
                } else {
                    Ok(o.results@)
                },
            }
        },
    }
}

/// A result with no locations: passed, not applicable (both worded by the
/// base message) or unverified with its reason.
pub open spec fn is_plain_result(res: EnforcementResult, rule: Seq<char>, status: Status, message: Seq<char>, remediation: Option<Seq<char>>, version: Option<Seq<char>>) -> bool {
    &&& res.rule_id@ == rule
    &&& res.status == status
    &&& res.severity == Severity::Error
    &&& res.message@ == message
    &&& res.locations@.len() == 0
    &&& match (res.remediation, remediation) {
        (Some(a), Some(b)) => a@ == b,
        (None, None) => true,
        _ => false,
    }
    &&& res.evidence.check@ == "semgrep."@ + rule
    &&& version_view(res.evidence.tool_version) == version
    &&& res.evidence.finding_descriptions@.len() == 0
}

/// The normalized result of one rule over the run's findings.
pub open spec fn is_rule_result(res: EnforcementResult, rule: Seq<char>, found: Seq<SemgrepFinding>, version: Option<Seq<char>>) -> bool {
    if found.len() == 0 {
        is_plain_result(res, rule, Status::Passed, rule + ": Semgrep policy check passed."@, None, version)
    } else {
        &&& res.rule_id@ == rule
        &&& res.status == Status::Failed
        &&& res.severity == Severity::Error
        &&& res.message@ == rule + ": Semgrep found "@ + decimal(found.len()) + " policy violation(s)."@
        &&& loc_views(res.locations@) == found.map_values(|f: SemgrepFinding| (visible(f.path@), Some(f.line)))
        &&& res.remediation matches Some(m) && m@ == "Fix the reported policy violation at each location, then rerun the check."@
        &&& res.evidence.check@ == "semgrep."@ + rule
        &&& version_view(res.evidence.tool_version) == version
        &&& res.evidence.finding_descriptions@.len() == 0
    }
}

/// The touched files Semgrep scans: the Python ones.
pub open spec fn python_targets(files: Seq<String>) -> bool {
    exists|k: int| 0 <= k < files.len() && ends_with((#[trigger] files[k])@, ".py"@)
}

fn rule_name(k: usize) -> (r: &'static str)
    requires
        k < 5,
    ensures
        r@ == rules()[k as int],
{
    if k == 0 {
        "external-call-timeout"
    } else if k == 1 {
        "public-input-validation"
    } else if k == 2 {
        "sql-parameterization"
    } else if k == 3 {
        "bounded-retries-loops"
    } else {
        "destructive-operation-safeguards"
    }
}

fn rfind_exec(hay: &[char], needle: &str) -> (r: Option<usize>)
    ensures
        match r {
            Some(i) => rfind(hay@, needle@, (hay@.len() + 1) as nat) == Some(i as nat) && i + needle@.len() <= hay@.len(),
            None => rfind(hay@, needle@, (hay@.len() + 1) as nat) is None,
        },
{
    let n = crate::text::chars_of(needle);
    assert(hay@.len() == hay.len());
    if n.len() == 0 {
        assert(hay@.subrange(hay@.len() as int, hay@.len() as int) =~= needle@);
        return Some(hay.len());
    }
    let mut m: usize = hay.len();
    while m > 0
        invariant
            m <= hay.len(),
            hay@.len() == hay.len(),
            n@ == needle@,
            n@.len() > 0,
            rfind(hay@, needle@, (hay@.len() + 1) as nat) == rfind(hay@, needle@, m as nat),
        decreases m,
    {
        let k = m - 1;
        if n.len() <= hay.len() - k && crate::text::occurs_at_exec(hay, n.as_slice(), k) {
            return Some(k);
        }
        m = k;
    }
    None
}

fn policy_check_exec(id: &[char]) -> (r: Option<Vec<char>>)
    ensures
        match r {
            Some(c) => policy_check(id@) == Some(c@),
            None => policy_check(id@) is None,
        },
{
    proof {
        reveal_strlit("quality_gate.");
        reveal_strlit(".quality_gate.");
    }
    let start: usize = if crate::text::starts_with_str(id, "quality_gate.") {
        13
    } else {
        match rfind_exec(id, ".quality_gate.") {
            Some(i) => {
                assert(id@.len() == id.len());
                i + 14
            },
            None => return None,
        }
    };
    let mut out: Vec<char> = Vec::new();
    let mut k: usize = start;
    while k < id.len()
        invariant
            start <= k <= id.len(),
            out@ == id@.subrange(start as int, k as int),
        decreases id.len() - k,
    {
        out.push(id[k]);
        k += 1;
        assert(out@ =~= id@.subrange(start as int, k as int));
    }
    assert(out@ =~= id@.skip(start as int));
    Some(out)
}

fn names_rule_exec(id: &str, rule: &str) -> (r: bool)
    ensures
        r == names_rule(id@, rule@),
{
    let c = crate::text::chars_of(id);
    match policy_check_exec(c.as_slice()) {
        Some(check) => {
            let prefix = crate::text::concat2(rule, "-");
            crate::text::chars_are(check.as_slice(), rule) || crate::text::starts_with_str(check.as_slice(), prefix.as_str())
        },
        None => false,
    }
}

fn known_exec(id: &str) -> (r: bool)
    ensures
        r == known(id@),
{
    let mut k: usize = 0;
    while k < 5
        invariant
            k <= 5,
            forall|j: int| 0 <= j < k ==> !names_rule(id@, #[trigger] rules()[j]),
        decreases 5 - k,
    {
        if names_rule_exec(id, rule_name(k)) {
            return true;
        }
        k += 1;
    }
    false
}

#[verifier::loop_isolation(false)]
fn outcome(run: &SemgrepRun) -> (r: Result<&Vec<SemgrepFinding>, String>)
    ensures
        match (r, run_outcome(*run)) {
            (Ok(fs), Ok(s)) => fs@ == s,
            (Err(e), Err(s)) => e@ == s,
            _ => false,
        },
{
    match run {
        SemgrepRun::Failed(reason) => Err(reason.clone()),
        SemgrepRun::Exited(code, output) => {
            let expected = match code {
                Some(c) => *c == 0 || *c == 1,
                None => false,
            };
            if !expected {
                return Err(match code {
                    Some(c) => {
                        let t = crate::checks::commands::result::code_string(*c);
                        crate::text::concat2("semgrep exited with status ", t.as_str())
                    },
                    None => crate::text::concat2("semgrep exited with status ", "signal"),
                });
            }
            match output {
                Err(e) => Err(crate::text::concat3("could not parse semgrep JSON (", e.as_str(), ")")),
                Ok(o) => {
                    if o.errors > 0 {
                        let d = crate::checks::commands::supervisor::decimal_string(o.errors as u64);
                        return Err(crate::text::concat3("semgrep reported ", d.as_str(), " scan error(s)"));
                    }
                    let mut i: usize = 0;
                    while i < o.results.len()
                        invariant
                            i <= o.results@.len(),
                            forall|k: int| 0 <= k < i ==> known(#[trigger] o.results@[k].check_id@),
                        decreases o.results.len() - i,
                    {
                        if !known_exec(o.results[i].check_id.as_str()) {
                            assert(!known(o.results@[i as int].check_id@));

                            return Err(String::from_str("semgrep returned an unknown policy rule id"));
                        }
                        i += 1;
                    }
                    Ok(&o.results)
                },
            }
        },
    }
}

fn base(rule: &str, status: Status, message: String, remediation: Option<&str>, version: &Option<String>) -> (r: EnforcementResult)
    ensures
        is_plain_result(r, rule@, status, message@, match remediation {
            Some(m) => Some(m@),
            None => None,
        }, version_view(*version)),
{
    EnforcementResult {
        rule_id: String::from_str(rule),
        status,
        severity: Severity::Error,
        message,
        locations: Vec::new(),
        remediation: match remediation {
            Some(m) => Some(String::from_str(m)),
            None => None,
        },
        evidence: ResultEvidence {
            check: crate::text::concat2("semgrep.", rule),
            tool_version: match version {
                Some(v) => Some(v.clone()),
                None => None,
            },
            finding_descriptions: Vec::new(),
        },
    }
}

fn rule_result(k: usize, findings: &Vec<SemgrepFinding>, version: &Option<String>) -> (r: EnforcementResult)
    requires
        k < 5,
    ensures
        is_rule_result(r, rules()[k as int], rule_findings(findings@, rules()[k as int]), version_view(*version)),
{
    let rule = rule_name(k);
    let ghost rv = rules()[k as int];
    let mut locations: Vec<Location> = Vec::new();
    let mut i: usize = 0;
    assert(findings@.take(0) =~= Seq::<SemgrepFinding>::empty());
    while i < findings.len()
        invariant
            rule@ == rv,
            i <= findings.len(),
            loc_views(locations@) == rule_findings(findings@.take(i as int), rv).map_values(
                |f: SemgrepFinding| (visible(f.path@), Some(f.line)),
            ),
        decreases findings.len() - i,
    {
        assert(findings@.take(i + 1).drop_last() =~= findings@.take(i as int));
        assert(findings@.take(i + 1).last() == findings@[i as int]);
        let f = &findings[i];
        if names_rule_exec(f.check_id.as_str(), rule) {
            let ghost lb = locations@;
            let ghost sb = rule_findings(findings@.take(i as int), rv);
            locations.push(Location { file: crate::text::strip_controls(f.path.as_str()), line: Some(f.line) });
            assert(loc_views(locations@) =~= loc_views(lb).push((visible(f.path@), Some(f.line))));
            assert(sb.push(*f).map_values(|g: SemgrepFinding| (visible(g.path@), Some(g.line))) =~= sb.map_values(
                |g: SemgrepFinding| (visible(g.path@), Some(g.line)),
            ).push((visible(f.path@), Some(f.line))));
        }
        i += 1;
    }
    assert(findings@.take(findings.len() as int) =~= findings@);
    let ghost found = rule_findings(findings@, rv);
    assert(loc_views(locations@).len() == found.len());
    if locations.len() == 0 {
        let m = crate::text::concat2(rule, ": Semgrep policy check passed.");
        base(rule, Status::Passed, m, None, version)
    } else {
        let n = locations.len();
        let a = crate::text::concat2(rule, ": Semgrep found ");
        let d = crate::checks::commands::supervisor::decimal_string(n as u64);
        let message = crate::text::concat3(a.as_str(), d.as_str(), " policy violation(s).");
        assert(message@ =~= rule@ + ": Semgrep found "@ + decimal(found.len()) + " policy violation(s)."@);
        EnforcementResult {
            rule_id: String::from_str(rule),
            status: Status::Failed,
            severity: Severity::Error,
            message,
            locations,
            remediation: Some(String::from_str("Fix the reported policy violation at each location, then rerun the check.")),
            evidence: ResultEvidence {
                check: crate::text::concat2("semgrep.", rule),
                tool_version: match version {
                    Some(v) => Some(v.clone()),
                    None => None,
                },
                finding_descriptions: Vec::new(),
            },
        }
    }
}

/// The five policy rules over the touched files (those that exist), given
/// what running Semgrep on the Python ones gave and its version. Without a
/// Python file every rule is not applicable.
pub fn scan(files: &Vec<String>, run: SemgrepRun, version: Option<String>) -> (r: Vec<EnforcementResult>)
    ensures
        r@.len() == 5,
        !python_targets(files@) ==> forall|k: int| 0 <= k < 5 ==> is_plain_result(
            #[trigger] r@[k],
            rules()[k],
            Status::NotApplicable,
            rules()[k] + ": Semgrep policy check could not run."@,
            None,
            None,
        ),
        python_targets(files@) ==> match run_outcome(run) {
            Err(reason) => forall|k: int| 0 <= k < 5 ==> is_plain_result(
                #[trigger] r@[k],
                rules()[k],
                Status::Unverified,
                rules()[k] + ": Semgrep check could not run ("@ + visible(reason) + ")."@,
                Some("Install Semgrep and rerun the edit or Stop check."@),
                version_view(version),
            ),
            Ok(fs) => forall|k: int| 0 <= k < 5 ==> is_rule_result(
                #[trigger] r@[k],
                rules()[k],
                rule_findings(fs, rules()[k]),
                version_view(version),
            ),
        },
{
    let mut any = false;
    let mut q: usize = 0;
    while q < files.len()
        invariant
            q <= files.len(),
            any == exists|k: int| 0 <= k < q && ends_with((#[trigger] files@[k])@, ".py"@),
        decreases files.len() - q,
    {
        let c = crate::text::chars_of(files[q].as_str());
        if crate::text::ends_with_str(c.as_slice(), ".py") {
            any = true;
        }
        q += 1;
    }
    let mut out: Vec<EnforcementResult> = Vec::new();
    let mut k: usize = 0;
    if !any {
        let none: Option<String> = None;
        while k < 5
            invariant
                k <= 5,
                out@.len() == k,
                none is None,
                forall|j: int| 0 <= j < k ==> is_plain_result(
                    #[trigger] out@[j],
                    rules()[j],
                    Status::NotApplicable,
                    rules()[j] + ": Semgrep policy check could not run."@,
                    None,
                    None,
                ),
            decreases 5 - k,
        {
            let rule = rule_name(k);
            out.push(base(rule, Status::NotApplicable, crate::text::concat2(rule, ": Semgrep policy check could not run."), None, &none));
            k += 1;
        }
        return out;
    }
    match outcome(&run) {
        Err(reason) => {
            let cleaned = crate::text::strip_controls(reason.as_str());
            while k < 5
                invariant
                    k <= 5,
                    out@.len() == k,
                    forall|j: int| 0 <= j < k ==> is_plain_result(
                        #[trigger] out@[j],
                        rules()[j],
                        Status::Unverified,
                        rules()[j] + ": Semgrep check could not run ("@ + cleaned@ + ")."@,
                        Some("Install Semgrep and rerun the edit or Stop check."@),
                        version_view(version),
                    ),
                decreases 5 - k,
            {
                let rule = rule_name(k);
                let a = crate::text::concat2(rule, ": Semgrep check could not run (");
                let m = crate::text::concat3(a.as_str(), cleaned.as_str(), ").");
                out.push(base(rule, Status::Unverified, m, Some("Install Semgrep and rerun the edit or Stop check."), &version));
                k += 1;
            }
        },
        Ok(fs) => {
            while k < 5
                invariant
                    k <= 5,
                    out@.len() == k,
                    forall|j: int| 0 <= j < k ==> is_rule_result(
                        #[trigger] out@[j],
                        rules()[j],
                        rule_findings(fs@, rules()[j]),
                        version_view(version),
                    ),
                decreases 5 - k,
            {
                out.push(rule_result(k, fs, &version));
                k += 1;
            }
        },
    }
    out
}

/// The version `semgrep --version` printed when it exited 0 with something
/// to say.
pub fn installed_version(code: Option<i32>, stdout: &[u8]) -> (r: Option<String>)
    ensures
        version_view(r) == if code == Some(0i32) && trim(crate::text::lossy_decoded(stdout@)).len() > 0 {
            Some("semgrep "@ + trim(crate::text::lossy_decoded(stdout@)))
        } else {
            None
        },
{
    if code != Some(0i32) {
        return None;
    }
    let raw = crate::text::lossy_text(stdout);
    let c = crate::text::chars_of(raw.as_str());
    let t = crate::text::trim_exec(c.as_slice());
    if t.len() == 0 {
        return None;
    }
    let v = crate::text::string_of(t.as_slice());
    Some(crate::text::concat2("semgrep ", v.as_str()))
}

} // verus!
