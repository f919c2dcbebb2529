//! Small native language checks for repositories without an external
//! linter: each rule flags the lines of its languages' files that contain one
//! of its patterns.

use vstd::prelude::*;

use crate::checks::diff::association::{extension, extension_exec};
use crate::checks::{EnforcementResult, Location, ResultEvidence, Severity, Status};
use crate::text::{contains, lines, views};

verus! {

/// A native rule: its id, the file extensions it reads, the patterns it
/// flags, and its message.
#[derive(Debug, Clone)]
pub struct RuleSpec {
    pub id: &'static str,
    pub extensions: Vec<&'static str>,
    pub needles: Vec<&'static str>,
    pub message: &'static str,
}

pub type RuleView = (Seq<char>, Seq<Seq<char>>, Seq<Seq<char>>, Seq<char>);

pub open spec fn rule_view(r: RuleSpec) -> RuleView {
    (r.id@, r.extensions@.map_values(|e: &str| e@), r.needles@.map_values(|n: &str| n@), r.message@)
}

/// The rules, in order.
pub open spec fn rules_spec() -> Seq<RuleView> {
    let ts = seq!["ts"@, "tsx"@, "js"@, "jsx"@];
    seq![
        ("rust-no-unsafe"@, seq!["rs"@], seq!["unsafe "@, "unsafe{"@],
            "Rust unsafe requires an architecture-approved invariant review."@),
        ("rust-no-unwrap-expect"@, seq!["rs"@], seq![".unwrap("@, ".expect("@],
            "Rust production paths should use typed error handling instead of unwrap/expect."@),
        ("rust-spawn-cancellation"@, seq!["rs"@], seq!["tokio::spawn("@, "thread::spawn("@],
            "Spawned Rust tasks require cancellation and error reporting."@),
        ("rust-no-mutable-global"@, seq!["rs"@], seq!["static mut "@],
            "Mutable Rust globals require an explicit architecture review."@),
        ("typescript-no-any"@, ts, seq![": any"@, "as any"@, "<any>"@],
            "TypeScript boundaries should use unknown or a precise type instead of any."@),
        ("typescript-unsafe-unknown"@, ts, seq!["JSON.parse("@, "response.json()"@],
            "External JSON must be parsed as unknown and narrowed before use."@),
        ("typescript-api-response-validation"@, ts, seq!["fetch("@],
            "API responses require explicit runtime validation before use."@),
        ("react-no-state-mutation"@, seq!["tsx"@, "jsx"@], seq![".state ="@, "this.state["@],
            "React state must be updated through the state setter, never mutated in place."@),
        ("react-unstable-key"@, seq!["tsx"@, "jsx"@], seq!["key={index}"@, "key={i}"@],
            "React list keys must use stable domain IDs instead of array indexes."@),
    ]
}

fn rule(id: &'static str, extensions: Vec<&'static str>, needles: Vec<&'static str>, message: &'static str) -> (r: RuleSpec)
    ensures
        r.id == id,
        r.extensions@ == extensions@,
        r.needles@ == needles@,
        r.message == message,
{
    RuleSpec { id, extensions, needles, message }
}

/// The native rules.
pub fn rules() -> (r: Vec<RuleSpec>)
    ensures
        r@.map_values(|x: RuleSpec| rule_view(x)) =~~= rules_spec(),
{
    let mut v: Vec<RuleSpec> = Vec::new();
    v.push(rule("rust-no-unsafe", vec!["rs"], vec!["unsafe ", "unsafe{"],
        "Rust unsafe requires an architecture-approved invariant review."));
    v.push(rule("rust-no-unwrap-expect", vec!["rs"], vec![".unwrap(", ".expect("],
        "Rust production paths should use typed error handling instead of unwrap/expect."));
    v.push(rule("rust-spawn-cancellation", vec!["rs"], vec!["tokio::spawn(", "thread::spawn("],
        "Spawned Rust tasks require cancellation and error reporting."));
    v.push(rule("rust-no-mutable-global", vec!["rs"], vec!["static mut "],
        "Mutable Rust globals require an explicit architecture review."));
    v.push(rule("typescript-no-any", vec!["ts", "tsx", "js", "jsx"], vec![": any", "as any", "<any>"],
        "TypeScript boundaries should use unknown or a precise type instead of any."));
    v.push(rule("typescript-unsafe-unknown", vec!["ts", "tsx", "js", "jsx"], vec!["JSON.parse(", "response.json()"],
        "External JSON must be parsed as unknown and narrowed before use."));
    v.push(rule("typescript-api-response-validation", vec!["ts", "tsx", "js", "jsx"], vec!["fetch("],
        "API responses require explicit runtime validation before use."));
    v.push(rule("react-no-state-mutation", vec!["tsx", "jsx"], vec![".state =", "this.state["],
        "React state must be updated through the state setter, never mutated in place."));
    v.push(rule("react-unstable-key", vec!["tsx", "jsx"], vec!["key={index}", "key={i}"],
        "React list keys must use stable domain IDs instead of array indexes."));
    v
}

/// The file's extension is one the rule reads.
pub open spec fn applies(r: RuleView, file: Seq<char>) -> bool {
    match extension(file) {
        Some(e) => r.1.contains(e),
        None => false,
    }
}

pub open spec fn line_flagged(r: RuleView, line: Seq<char>) -> bool {
    exists|k: int| 0 <= k < r.2.len() && contains(line, #[trigger] r.2[k])
}

/// The one-based numbers of the flagged lines among the first `n` lines.
pub open spec fn flagged_lines(r: RuleView, ls: Seq<Seq<char>>, n: nat) -> Seq<nat>
    decreases n,
{
    if n == 0 || n > ls.len() {
        seq![]
    } else if line_flagged(r, ls[n - 1]) {
        flagged_lines(r, ls, (n - 1) as nat).push(n)
    } else {
        flagged_lines(r, ls, (n - 1) as nat)
    }
}

/// Scanning the first `n` files for a rule: `None` once a file it applies
/// to could not be read, else the flagged (file, line) pairs in order.
pub open spec fn rule_scan(r: RuleView, files: Seq<(String, Option<String>)>, n: nat) -> Option<Seq<(Seq<char>, nat)>>
    decreases n,
{
    if n == 0 || n > files.len() {
        Some(seq![])
    } else {
        match rule_scan(r, files, (n - 1) as nat) {
            None => None,
            Some(acc) => {
                let (file, source) = files[n - 1];
                if !applies(r, file@) {
                    Some(acc)
                } else {
                    match source {
                        None => None,
                        Some(s) => {
                            let ls = lines(s@);
                            Some(acc + flagged_lines(r, ls, ls.len()).map_values(|k: nat| (file@, k)))
                        },
                    }
                }
            },
        }
    }
}

pub open spec fn some_applies(r: RuleView, files: Seq<(String, Option<String>)>) -> bool {
    exists|k: int| 0 <= k < files.len() && applies(r, (#[trigger] files[k]).0@)
}

/// The rule's outcome: not applicable without a file it reads, unverified
/// when one could not be read, failed with the flagged lines, else passed.
pub open spec fn rule_outcome(r: RuleView, files: Seq<(String, Option<String>)>) -> (Status, Seq<(Seq<char>, nat)>) {
    if !some_applies(r, files) {
        (Status::NotApplicable, seq![])
    } else {
        match rule_scan(r, files, files.len()) {
            None => (Status::Unverified, seq![]),
            Some(found) => if found.len() == 0 {
                (Status::Passed, seq![])
            } else {
                (Status::Failed, found)
            },
        }
    }
}

/// The native-rule result: warning severity; a failure counts its findings
/// and carries the fix remediation.
pub open spec fn is_rule_result(res: EnforcementResult, r: RuleView, status: Status, found: Seq<(Seq<char>, nat)>) -> bool {
    &&& res.rule_id@ == r.0
    &&& res.status == status
    &&& res.severity == Severity::Warning
    &&& res.message@ == (if status == Status::Failed {
        r.3 + " ("@ + crate::checks::commands::supervisor::decimal(found.len()) + " finding(s))."@
    } else {
        r.3
    })
    &&& res.locations@.len() == found.len()
    &&& (forall|k: int| 0 <= k < found.len() ==> (#[trigger] res.locations@[k]).file@ == found[k].0
        && res.locations@[k].line == Some(found[k].1 as u64))
    &&& (if status == Status::Failed {
        res.remediation matches Some(m) && m@ == "Fix the finding, then rerun the native language check."@
    } else {
        res.remediation is None
    })
    &&& res.evidence.check@ == "native."@ + r.0
    &&& res.evidence.tool_version is None
    &&& res.evidence.finding_descriptions@.len() == 0
}

fn applies_exec(r: &RuleSpec, file: &str) -> (res: bool)
    ensures
        res == applies(rule_view(*r), file@),
{
    let c = crate::text::chars_of(file);
    match extension_exec(c.as_slice()) {
        None => false,
        Some(e) => {
            let ghost ev = rule_view(*r).1;
            let mut i: usize = 0;
            while i < r.extensions.len()
                invariant
                    ev == r.extensions@.map_values(|x: &str| x@),
                    ev == rule_view(*r).1,
                    extension(file@) == Some(e@),
                    i <= r.extensions.len(),
                    forall|k: int| 0 <= k < i ==> ev[k] != e@,
                decreases r.extensions.len() - i,
            {
                if crate::text::chars_are(e.as_slice(), r.extensions[i]) {
                    assert(ev[i as int] == e@);
                    assert(ev.contains(e@));
                    return true;
                }
                i += 1;
            }
            false
        },
    }
}

fn line_flagged_exec(r: &RuleSpec, line: &[char]) -> (res: bool)
    ensures
        res == line_flagged(rule_view(*r), line@),
{
    let ghost nv = rule_view(*r).2;
    let mut i: usize = 0;
    while i < r.needles.len()
        invariant
            nv == r.needles@.map_values(|x: &str| x@),
            nv == rule_view(*r).2,
            i <= r.needles.len(),
            forall|k: int| 0 <= k < i ==> !contains(line@, #[trigger] nv[k]),
        decreases r.needles.len() - i,
    {
        assert(nv[i as int] == r.needles@[i as int]@);
        if crate::text::contains_str(line, r.needles[i]) {
            assert(contains(line@, nv[i as int]));
            return true;
        }
        i += 1;
    }
    false
}

pub open spec fn found_views(found: Seq<(Seq<char>, nat)>) -> Seq<(Seq<char>, Option<u64>)> {
    found.map_values(|p: (Seq<char>, nat)| (p.0, Some(p.1 as u64)))
}

pub open spec fn loc_views(ls: Seq<Location>) -> Seq<(Seq<char>, Option<u64>)> {
    ls.map_values(|l: Location| (l.file@, l.line))
}

/// The flagged lines of one file as locations.
fn file_findings(r: &RuleSpec, file: &String, source: &String) -> (res: Vec<Location>)
    ensures
        loc_views(res@) == found_views(flagged_lines(rule_view(*r), lines(source@), lines(source@).len()).map_values(
            |k: nat| (file@, k),
        )),
{
    let ghost rv = rule_view(*r);
    let c = crate::text::chars_of(source.as_str());
    let ls = crate::text::lines_exec(c.as_slice());
    let ghost lv = crate::text::deep(ls@);
    let mut out: Vec<Location> = Vec::new();
    let mut k: usize = 0;
    assert(loc_views(out@) =~= Seq::empty());
    assert(found_views(flagged_lines(rv, lv, 0).map_values(|j: nat| (file@, j))) =~= Seq::empty());
    while k < ls.len()
        invariant
            rv == rule_view(*r),
            lv == crate::text::deep(ls@),
            lv == lines(source@),
            k <= ls.len(),
            loc_views(out@) == found_views(flagged_lines(rv, lv, k as nat).map_values(|j: nat| (file@, j))),
        decreases ls.len() - k,
    {
        assert(lv[k as int] == ls@[k as int]@);
        let ghost before = out@;
        if line_flagged_exec(r, ls[k].as_slice()) {
            let n: u64 = (k as u64) + 1;
            out.push(Location { file: file.clone(), line: Some(n) });
            assert(loc_views(out@) =~= loc_views(before).push((file@, Some(n))));
        }
        assert(loc_views(out@) =~= found_views(flagged_lines(rv, lv, (k + 1) as nat).map_values(|j: nat| (file@, j))));
        k += 1;
    }
    out
}

fn any_applies(r: &RuleSpec, files: &Vec<(String, Option<String>)>) -> (res: bool)
    ensures
        res == some_applies(rule_view(*r), files@),
{
    let mut q: usize = 0;
    while q < files.len()
        invariant
            q <= files.len(),
            forall|k: int| 0 <= k < q ==> !applies(rule_view(*r), (#[trigger] files@[k]).0@),
        decreases files.len() - q,
    {
        if applies_exec(r, files[q].0.as_str()) {
            return true;
        }
        q += 1;
    }
    false
}

fn append_locations(locations: &mut Vec<Location>, more: &Vec<Location>)
    ensures
        loc_views(final(locations)@) == loc_views(old(locations)@) + loc_views(more@),
{
    let ghost before = locations@;
    let mut m: usize = 0;
    while m < more.len()
        invariant
            m <= more.len(),
            loc_views(locations@) == loc_views(before) + loc_views(more@).take(m as int),
        decreases more.len() - m,
    {
        let ghost b = locations@;
        locations.push(more[m].clone_location());
        assert(loc_views(locations@) =~= loc_views(b).push((more@[m as int].file@, more@[m as int].line)));
        assert(loc_views(more@).take(m + 1) =~= loc_views(more@).take(m as int).push((more@[m as int].file@, more@[m as int].line)));
        m += 1;
    }
    assert(loc_views(more@).take(more.len() as int) =~= loc_views(more@));
}

/// Scans the files (each with its source, or `None` when it could not be
/// analyzed or read) for one rule.
pub fn scan_rule(r: &RuleSpec, files: &Vec<(String, Option<String>)>) -> (res: EnforcementResult)
    ensures
        ({
            let (status, found) = rule_outcome(rule_view(*r), files@);
            is_rule_result(res, rule_view(*r), status, found)
        }),
{
    let ghost rv = rule_view(*r);
    if !any_applies(r, files) {
        let none: Vec<Location> = Vec::new();
        return result(r, Status::NotApplicable, none);
    }
    let mut locations: Vec<Location> = Vec::new();
    let mut i: usize = 0;
    assert(loc_views(locations@) =~= found_views(seq![]));
    while i < files.len()
        invariant
            i <= files.len(),
            rv == rule_view(*r),
            rule_scan(rv, files@, i as nat) matches Some(acc) && loc_views(locations@) == found_views(acc),
        decreases files.len() - i,
    {
        let ghost acc = rule_scan(rv, files@, i as nat)->0;
        if applies_exec(r, files[i].0.as_str()) {
            match &files[i].1 {
                None => {
                    proof {
                        lemma_rule_scan_stops(rv, files@, (i + 1) as nat, files@.len());
                    }
                    let none: Vec<Location> = Vec::new();
                    return result(r, Status::Unverified, none);
                },
                Some(source) => {
                    let more = file_findings(r, &files[i].0, source);
                    append_locations(&mut locations, &more);
                    proof {
                        let fl = flagged_lines(rv, lines(source@), lines(source@).len()).map_values(|k: nat| (files@[i as int].0@, k));
                        assert(found_views(acc + fl) =~= found_views(acc) + found_views(fl));
                    }
                },
            }
        }
        i += 1;
    }
    let ghost found = rule_scan(rv, files@, files@.len())->0;
    proof {
        assert(locations@.len() == loc_views(locations@).len());
        assert(found.len() == found_views(found).len());
        assert forall|k: int| 0 <= k < found.len() implies (#[trigger] locations@[k]).file@ == found[k].0 && locations@[k].line == Some(found[k].1 as u64) by {
            assert(loc_views(locations@)[k] == found_views(found)[k]);
        }
    }
    let status = if locations.len() == 0 { Status::Passed } else { Status::Failed };
    result(r, status, locations)
}

proof fn lemma_rule_scan_stops(r: RuleView, files: Seq<(String, Option<String>)>, j: nat, k: nat)
    requires
        j <= k,
        rule_scan(r, files, j) is None,
        0 < j <= files.len(),
        k <= files.len(),
    ensures
        rule_scan(r, files, k) is None,
    decreases k - j,
{
    if j < k {
        lemma_rule_scan_stops(r, files, j, (k - 1) as nat);
    }
}

fn result(r: &RuleSpec, status: Status, locations: Vec<Location>) -> (res: EnforcementResult)
    ensures
        res.rule_id@ == r.id@,
        res.status == status,
        res.severity == Severity::Warning,
        res.message@ == (if status == Status::Failed {
            r.message@ + " ("@ + crate::checks::commands::supervisor::decimal(locations@.len()) + " finding(s))."@
        } else {
            r.message@
        }),
        res.locations@ == locations@,
        if status == Status::Failed {
            res.remediation matches Some(m) && m@ == "Fix the finding, then rerun the native language check."@
        } else {
            res.remediation is None
        },
        res.evidence.check@ == "native."@ + r.id@,
        res.evidence.tool_version is None,
        res.evidence.finding_descriptions@.len() == 0,
{
    let failed = status == Status::Failed;
    let message = if failed {
        let n = crate::checks::commands::supervisor::decimal_string(locations.len() as u64);
        let head = crate::text::concat3(r.message, " (", n.as_str());
        crate::text::concat2(head.as_str(), " finding(s)).")
    } else {
        String::from_str(r.message)
    };
    EnforcementResult {
        rule_id: String::from_str(r.id),
        status,
        severity: Severity::Warning,
        message,
        locations,
        remediation: if failed { Some(String::from_str("Fix the finding, then rerun the native language check.")) } else { None },
        evidence: ResultEvidence {
            check: crate::text::concat2("native.", r.id),
            tool_version: None,
            finding_descriptions: Vec::new(),
        },
    }
}

/// Every native rule's result over the files, in rule order.
pub fn scan(files: &Vec<(String, Option<String>)>) -> (res: Vec<EnforcementResult>)
    ensures
        res@.len() == rules_spec().len(),
        forall|k: int| 0 <= k < res@.len() ==> ({
            let (status, found) = rule_outcome(rules_spec()[k], files@);
            is_rule_result(#[trigger] res@[k], rules_spec()[k], status, found)
        }),
{
    let rs = rules();
    let mut out: Vec<EnforcementResult> = Vec::new();
    let mut i: usize = 0;
    while i < rs.len()
        invariant
            rs@.map_values(|x: RuleSpec| rule_view(x)) =~~= rules_spec(),
            i <= rs.len(),
            out@.len() == i,
            forall|k: int| 0 <= k < i ==> ({
                let (status, found) = rule_outcome(rules_spec()[k], files@);
                is_rule_result(#[trigger] out@[k], rules_spec()[k], status, found)
            }),
        decreases rs.len() - i,
    {
        assert(rule_view(rs@[i as int]) == rules_spec()[i as int]);
        out.push(scan_rule(&rs[i], files));
        i += 1;
    }
    out
}

} // verus!
