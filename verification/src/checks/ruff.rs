//! The Ruff-backed rules: swallowed errors and broad exception handling.
//!
//! Ruff runs once over the touched Python files with the rules' codes
//! selected; each rule passes without findings of its codes and fails
//! otherwise. A run that could not finish, exited with an unexpected status,
//! or wrote output that is not a findings list leaves both rules unverified.

use vstd::prelude::*;

use crate::checks::commands::result::code_text;
use crate::checks::commands::supervisor::decimal;
use crate::checks::gitleaks::result::version_view;
use crate::checks::languages::loc_views;
use crate::checks::{EnforcementResult, Location, ResultEvidence, Severity, Status};
use crate::text::{trim, views, visible};

verus! {

/// The most characters of a tool-supplied text kept in a result.
pub const MAX_TEXT_CHARS: usize = 300;

/// One finding of Ruff's JSON output.
#[derive(Debug, Clone, PartialEq, Eq)]
pub struct RuffFinding {
    pub code: String,
    pub filename: String,
    pub message: String,
    pub row: u64,
}

/// What running Ruff gave.
#[derive(Debug, PartialEq, Eq)]
pub enum RuffRun {
    /// The bounded run could not finish, for the reason given.
    Failed(String),
    /// Ruff exited with this status (`None` for a signal); its output read
    /// as findings, or the parser's message.
    Exited(Option<i32>, Result<Vec<RuffFinding>, String>),
}

/// The rules, each with the Ruff codes that violate it.
pub open spec fn rules() -> Seq<(Seq<char>, Seq<Seq<char>>)> {
    seq![
        ("no-swallowed-errors"@, seq!["S110"@, "S112"@]),
        ("no-broad-exception-handling"@, seq!["BLE001"@, "E722"@]),
    ]
}

/// A tool-supplied text without control characters, cut to the limit.
pub open spec fn clean(s: Seq<char>) -> Seq<char> {
    if visible(s).len() > MAX_TEXT_CHARS {
        visible(s).take(MAX_TEXT_CHARS as int)
    } else {
        visible(s)
    }
}

/// The findings whose code belongs to a rule, in order.
pub open spec fn selected(fs: Seq<RuffFinding>, codes: Seq<Seq<char>>) -> Seq<RuffFinding>
    decreases fs.len(),
{
    if fs.len() == 0 {
        seq![]
    } else if codes.contains(fs.last().code@) {
        selected(fs.drop_last(), codes).push(fs.last())
    } else {
        selected(fs.drop_last(), codes)
    }
}

pub open spec fn remediation(rule: Seq<char>) -> Seq<char> {
    if rule == "no-swallowed-errors"@ {
        "Handle the error explicitly or document and log why it is intentionally ignored."@
    } else {
        "Catch the narrow exception types this operation can raise; do not use a bare or broad exception handler."@
    }
}

/// The normalized result of one rule over Ruff's findings.
pub open spec fn is_rule_result(res: EnforcementResult, rule: Seq<char>, sel: Seq<RuffFinding>, version: Option<Seq<char>>) -> bool {
    &&& res.rule_id@ == rule
    &&& res.status == if sel.len() == 0 {
        Status::Passed
    } else {
        Status::Failed
    }
    &&& res.severity == Severity::Error
    &&& res.message@ == if sel.len() == 0 {
        rule + ": Ruff found no violations."@
    } else {
        rule + ": Ruff found "@ + decimal(sel.len()) + " violation(s)."@
    }
    &&& loc_views(res.locations@) == sel.map_values(|f: RuffFinding| (clean(f.filename@), Some(f.row)))
    &&& match res.remediation {
        Some(m) => sel.len() > 0 && m@ == remediation(rule),
        None => sel.len() == 0,
    }
    &&& res.evidence.check@ == "ruff.check"@
    &&& version_view(res.evidence.tool_version) == version
    &&& views(res.evidence.finding_descriptions@) == sel.map_values(|f: RuffFinding| clean(f.message@))
}

/// An unverified rule: the reason, cleaned, in the message.
pub open spec fn is_unverified(res: EnforcementResult, rule: Seq<char>, reason: Seq<char>) -> bool {
    &&& res.rule_id@ == rule
    &&& res.status == Status::Unverified
    &&& res.severity == Severity::Error
    &&& res.message@ == rule + ": Ruff verification unavailable ("@ + clean(reason) + ")."@
    &&& res.locations@.len() == 0
    &&& res.remediation matches Some(m) && m@ == "Install Ruff and rerun the edit or Stop check."@
    &&& res.evidence.check@ == "ruff.check"@
    &&& res.evidence.tool_version is None
    &&& res.evidence.finding_descriptions@.len() == 0
}

/// Why a run leaves the rules unverified, if it does.
pub open spec fn run_failure(files_empty: bool, run: RuffRun) -> Option<Seq<char>> {
    if files_empty {
        Some("no Python files were provided"@)
    } else {
        match run {
            RuffRun::Failed(reason) => Some(reason@),
            RuffRun::Exited(code, output) => if !(code == Some(0i32) || code == Some(1i32)) {
                Some(
                    "ruff exited with status "@ + match code {
                        Some(c) => "Some("@ + code_text(c) + ")"@,
                        None => "None"@,
                    },
                )
            } else {
                match output {
                    Err(e) => Some("could not parse ruff output ("@ + e@ + ")"@),
                    Ok(_) => None,
                }
            },
        }
    }
}

/// A tool-supplied text without control characters, cut to the limit.
pub fn sanitize(value: &str) -> (r: String)
    ensures
        r@ == clean(value@),
{
    let v = crate::text::strip_controls(value);
    let c = crate::text::chars_of(v.as_str());
    if c.len() > MAX_TEXT_CHARS {
        let mut out: Vec<char> = Vec::new();
        let mut k: usize = 0;
        while k < MAX_TEXT_CHARS
            invariant
                k <= MAX_TEXT_CHARS < c.len(),
                out@ == c@.take(k as int),
            decreases MAX_TEXT_CHARS - k,
        {
            out.push(c[k]);
            k += 1;
            assert(out@ =~= c@.take(k as int));
        }
        crate::text::string_of(out.as_slice())
    } else {
        v
    }
}

fn code_in(code: &str, rule: usize) -> (r: bool)
    requires
        rule < 2,
    ensures
        r == rules()[rule as int].1.contains(code@),
{
    let ghost codes = rules()[rule as int].1;
    let r = if rule == 0 {
        crate::text::same_text(code, "S110") || crate::text::same_text(code, "S112")
    } else {
        crate::text::same_text(code, "BLE001") || crate::text::same_text(code, "E722")
    };
    proof {
        if r {
            if rule == 0 {
                if code@ == "S110"@ { assert(codes[0] == code@); } else { assert(codes[1] == code@); }
            } else {
                if code@ == "BLE001"@ { assert(codes[0] == code@); } else { assert(codes[1] == code@); }
            }
        }
    }
    r
}

fn rule_result(rule: usize, findings: &Vec<RuffFinding>, version: &Option<String>) -> (r: EnforcementResult)
    requires
        rule < 2,
    ensures
        is_rule_result(r, rules()[rule as int].0, selected(findings@, rules()[rule as int].1), version_view(*version)),
{
    let ghost codes = rules()[rule as int].1;
    let name: &str = if rule == 0 { "no-swallowed-errors" } else { "no-broad-exception-handling" };
    assert(name@ == rules()[rule as int].0);
    let mut locations: Vec<Location> = Vec::new();
    let mut descriptions: Vec<String> = Vec::new();
    let mut count: usize = 0;
    let mut i: usize = 0;
    assert(findings@.take(0) =~= Seq::<RuffFinding>::empty());
    while i < findings.len()
        invariant
            rule < 2,
            codes == rules()[rule as int].1,
            i <= findings.len(),
            count == selected(findings@.take(i as int), codes).len(),
            count <= i,
            loc_views(locations@) == selected(findings@.take(i as int), codes).map_values(
                |f: RuffFinding| (clean(f.filename@), Some(f.row)),
            ),
            views(descriptions@) == selected(findings@.take(i as int), codes).map_values(|f: RuffFinding| clean(f.message@)),
        decreases findings.len() - i,
    {
        assert(findings@.take(i + 1).drop_last() =~= findings@.take(i as int));
        assert(findings@.take(i + 1).last() == findings@[i as int]);
        let f = &findings[i];
        if code_in(f.code.as_str(), rule) {
            let ghost lb = locations@;
            let ghost db = descriptions@;
            let ghost sb = selected(findings@.take(i as int), codes);
            locations.push(Location { file: sanitize(f.filename.as_str()), line: Some(f.row) });
            descriptions.push(sanitize(f.message.as_str()));
            count += 1;
            assert(selected(findings@.take(i + 1), codes) == sb.push(*f));
            assert(loc_views(locations@) =~= loc_views(lb).push((clean(f.filename@), Some(f.row))));
            assert(sb.push(*f).map_values(|g: RuffFinding| (clean(g.filename@), Some(g.row))) =~= sb.map_values(
                |g: RuffFinding| (clean(g.filename@), Some(g.row)),
            ).push((clean(f.filename@), Some(f.row))));
            assert(views(descriptions@) =~= views(db).push(clean(f.message@)));
            assert(sb.push(*f).map_values(|g: RuffFinding| clean(g.message@)) =~= sb.map_values(|g: RuffFinding| clean(g.message@)).push(
                clean(f.message@),
            ));
        }
        i += 1;
    }
    assert(findings@.take(findings.len() as int) =~= findings@);
    let failed = count > 0;
    let message = if failed {
        let a = crate::text::concat2(name, ": Ruff found ");
        let d = crate::checks::commands::supervisor::decimal_string(count as u64);
        crate::text::concat3(a.as_str(), d.as_str(), " violation(s).")
    } else {
        crate::text::concat2(name, ": Ruff found no violations.")
    };
    let remediation = if failed {
        Some(String::from_str(if rule == 0 {
            "Handle the error explicitly or document and log why it is intentionally ignored."
        } else {
            "Catch the narrow exception types this operation can raise; do not use a bare or broad exception handler."
        }))
    } else {
        None
    };
    proof {
        let sel = selected(findings@, codes);
        assert(loc_views(locations@).len() == sel.len());
        if rule == 1 {
            reveal_strlit("no-swallowed-errors");
            reveal_strlit("no-broad-exception-handling");
            assert(name@ != "no-swallowed-errors"@);
        }
        if failed {
            assert(message@ =~= name@ + ": Ruff found "@ + decimal(sel.len()) + " violation(s)."@);
        }
    }
    EnforcementResult {
        rule_id: String::from_str(name),
        status: if failed { Status::Failed } else { Status::Passed },
        severity: Severity::Error,
        message,
        locations,
        remediation,
        evidence: ResultEvidence {
            check: String::from_str("ruff.check"),
            tool_version: match version {
                Some(v) => Some(v.clone()),
                None => None,
            },
            finding_descriptions: descriptions,
        },
    }
}

fn unverified(rule: usize, reason: &str) -> (r: EnforcementResult)
    requires
        rule < 2,
    ensures
        is_unverified(r, rules()[rule as int].0, reason@),
{
    let name: &str = if rule == 0 { "no-swallowed-errors" } else { "no-broad-exception-handling" };
    let cleaned = sanitize(reason);
    let a = crate::text::concat2(name, ": Ruff verification unavailable (");
    EnforcementResult {
        rule_id: String::from_str(name),
        status: Status::Unverified,
        severity: Severity::Error,
        message: crate::text::concat3(a.as_str(), cleaned.as_str(), ")."),
        locations: Vec::new(),
        remediation: Some(String::from_str("Install Ruff and rerun the edit or Stop check.")),
        evidence: ResultEvidence {
            check: String::from_str("ruff.check"),
            tool_version: None,
            finding_descriptions: Vec::new(),
        },
    }
}

fn failure_reason(files_empty: bool, run: &RuffRun) -> (r: Option<String>)
    ensures
        match r {
            Some(m) => run_failure(files_empty, *run) == Some(m@),
            None => run_failure(files_empty, *run) is None,
        },
{
    if files_empty {
        return Some(String::from_str("no Python files were provided"));
    }
    match run {
        RuffRun::Failed(reason) => Some(reason.clone()),
        RuffRun::Exited(code, output) => {
            let expected = match code {
                Some(c) => *c == 0 || *c == 1,
                None => false,
            };
            if !expected {
                let mut m = String::from_str("ruff exited with status ");
                match code {
                    Some(c) => {
                        let t = crate::checks::commands::result::code_string(*c);
                        let s = crate::text::concat3("Some(", t.as_str(), ")");
                        m.append(s.as_str());
                    },
                    None => m.append("None"),
                }
                return Some(m);
            }
            match output {
                Err(e) => Some(crate::text::concat3("could not parse ruff output (", e.as_str(), ")")),
                Ok(_) => None,
            }
        },
    }
}

/// The two Ruff rules over the touched Python files, given what running
/// Ruff on them gave and its version (read only when the output is used).
pub fn scan(files: &Vec<String>, run: RuffRun, version: Option<String>) -> (r: Vec<EnforcementResult>)
    ensures
        r@.len() == 2,
        match run_failure(files@.len() == 0, run) {
            Some(reason) => forall|k: int| 0 <= k < 2 ==> is_unverified(#[trigger] r@[k], rules()[k].0, reason),
            None => run matches RuffRun::Exited(_, Ok(fs)) && forall|k: int| 0 <= k < 2 ==> is_rule_result(
                #[trigger] r@[k],
                rules()[k].0,
                selected(fs@, rules()[k].1),
                version_view(version),
            ),
        },
{
    let mut out: Vec<EnforcementResult> = Vec::new();
    match failure_reason(files.len() == 0, &run) {
        Some(reason) => {
            out.push(unverified(0, reason.as_str()));
            out.push(unverified(1, reason.as_str()));
        },
        None => {
            match &run {
                RuffRun::Exited(_, Ok(fs)) => {
                    out.push(rule_result(0, fs, &version));
                    out.push(rule_result(1, fs, &version));
                },
                _ => {},
            }
        },
    }
    out
}

/// The version line `ruff --version` printed when it exited 0.
pub fn installed_version(code: Option<i32>, stdout: &[u8]) -> (r: Option<String>)
    ensures
        version_view(r) == if code == Some(0i32) {
            Some(trim(crate::text::lossy_decoded(stdout@)))
        } else {
            None
        },
{
    if code != Some(0i32) {
        return None;
    }
    let raw = crate::text::lossy_text(stdout);
    let c = crate::text::chars_of(raw.as_str());
    let t = crate::text::trim_exec(c.as_slice());
    Some(crate::text::string_of(t.as_slice()))
}

proof fn lemma_selected_keeps(fs: Seq<RuffFinding>, codes: Seq<Seq<char>>, k: int)
    requires
        0 <= k < fs.len(),
        codes.contains(fs[k].code@),
    ensures
        selected(fs, codes).contains(fs[k]),
    decreases fs.len(),
{
    if k == fs.len() - 1 {
        let s = selected(fs, codes);
        assert(s[s.len() - 1] == fs[k]);
    } else {
        lemma_selected_keeps(fs.drop_last(), codes, k);
        let prev = selected(fs.drop_last(), codes);
        let j = choose|j: int| 0 <= j < prev.len() && prev[j] == fs[k];
        if codes.contains(fs.last().code@) {
            assert(selected(fs, codes)[j] == fs[k]);
        }
    }
}

proof fn lemma_selected_only(fs: Seq<RuffFinding>, codes: Seq<Seq<char>>)
    ensures
        forall|j: int| 0 <= j < selected(fs, codes).len() ==> codes.contains(#[trigger] selected(fs, codes)[j].code@),
    decreases fs.len(),
{
    if fs.len() > 0 {
        lemma_selected_only(fs.drop_last(), codes);
        let prev = selected(fs.drop_last(), codes);
        assert forall|j: int| 0 <= j < selected(fs, codes).len() implies codes.contains(
            #[trigger] selected(fs, codes)[j].code@,
        ) by {
            if j < prev.len() {
                assert(selected(fs, codes)[j] == prev[j]);
            }
        }
    }
}

/// The Ruff codes of each rule: `S110` and `S112` break
/// `no-swallowed-errors`, `BLE001` and `E722` break
/// `no-broad-exception-handling`; a finding with one of them fails its rule
/// and is among that rule's locations, and no other code is counted.
pub proof fn law_ruff_rule_codes(
    fs: Seq<RuffFinding>,
    k: int,
    res: EnforcementResult,
    rule: int,
    version: Option<Seq<char>>,
)
    requires
        0 <= k < fs.len(),
        rule == 0 || rule == 1,
        is_rule_result(res, rules()[rule].0, selected(fs, rules()[rule].1), version),
    ensures
        rules()[0].0 == "no-swallowed-errors"@,
        rules()[1].0 == "no-broad-exception-handling"@,
        rule == 0 && (fs[k].code@ == "S110"@ || fs[k].code@ == "S112"@) ==> res.status == Status::Failed,
        rule == 1 && (fs[k].code@ == "BLE001"@ || fs[k].code@ == "E722"@) ==> res.status == Status::Failed,
        rule == 0 ==> forall|j: int| 0 <= j < selected(fs, rules()[0].1).len() ==> (#[trigger] selected(fs, rules()[0].1)[j]).code@ == "S110"@
            || selected(fs, rules()[0].1)[j].code@ == "S112"@,
        rule == 1 ==> forall|j: int| 0 <= j < selected(fs, rules()[1].1).len() ==> (#[trigger] selected(fs, rules()[1].1)[j]).code@ == "BLE001"@
            || selected(fs, rules()[1].1)[j].code@ == "E722"@,
{
    let codes = rules()[rule].1;
    if (rule == 0 && (fs[k].code@ == "S110"@ || fs[k].code@ == "S112"@)) || (rule == 1 && (fs[k].code@ == "BLE001"@
        || fs[k].code@ == "E722"@)) {
        if fs[k].code@ == codes[0] {
            assert(codes.contains(codes[0]));
        } else {
            assert(codes.contains(codes[1]));
        }
        lemma_selected_keeps(fs, codes, k);
    }
    lemma_selected_only(fs, rules()[0].1);
    lemma_selected_only(fs, rules()[1].1);
    assert forall|j: int| 0 <= j < selected(fs, rules()[0].1).len() implies (#[trigger] selected(fs, rules()[0].1)[j]).code@ == "S110"@
        || selected(fs, rules()[0].1)[j].code@ == "S112"@ by {
        let c = selected(fs, rules()[0].1)[j].code@;
        let q = choose|q: int| 0 <= q < rules()[0].1.len() && rules()[0].1[q] == c;
    }
    assert forall|j: int| 0 <= j < selected(fs, rules()[1].1).len() implies (#[trigger] selected(fs, rules()[1].1)[j]).code@ == "BLE001"@
        || selected(fs, rules()[1].1)[j].code@ == "E722"@ by {
        let c = selected(fs, rules()[1].1)[j].code@;
        let q = choose|q: int| 0 <= q < rules()[1].1.len() && rules()[1].1[q] == c;
    }
}

} // verus!
