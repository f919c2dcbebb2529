//! The secret-scan result: a pass, an unverified scan, or a failure that names
//! only the count, the allowlisted rule ids and the sanitized files of the
//! findings.

use vstd::prelude::*;

use crate::checks::{EnforcementResult, Location, ResultEvidence, Severity, Status};
use crate::strset::{sorted_distinct, sorted_texts};
use crate::text::{is_control, lower, views, visible};

verus! {

/// One finding of a gitleaks report.
#[derive(Debug, Clone, PartialEq, Eq)]
pub struct Finding {
    pub rule_id: String,
    pub description: String,
    pub file: String,
    pub start_line: u64,
}

impl Finding {
    /// A copy of the finding.
    pub fn clone_finding(&self) -> (r: Finding)
        ensures
            r == *self,
    {
        Finding {
            rule_id: self.rule_id.clone(),
            description: self.description.clone(),
            file: self.file.clone(),
            start_line: self.start_line,
        }
    }
}

/// The longest rule id admitted into a message.
pub const MAX_RULE_ID_LEN: usize = 64;

/// A secret-scan result: the rule, the status given, error severity, the
/// message, no locations, the remediation, and the scan evidence.
pub open spec fn is_scan_result(
    r: EnforcementResult,
    status: Status,
    message: Seq<char>,
    remediation: Option<Seq<char>>,
    version: Option<Seq<char>>,
) -> bool {
    &&& r.rule_id@ == "no-committed-secrets"@
    &&& r.status == status
    &&& r.severity == Severity::Error
    &&& r.message@ == message
    &&& r.locations@.len() == 0
    &&& match (r.remediation, remediation) {
        (Some(a), Some(b)) => a@ == b,
        (None, None) => true,
        _ => false,
    }
    &&& r.evidence.check@ == "gitleaks.detect"@
    &&& match (r.evidence.tool_version, version) {
        (Some(a), Some(b)) => a@ == b,
        (None, None) => true,
        _ => false,
    }
    &&& r.evidence.finding_descriptions@.len() == 0
}

pub open spec fn version_view(v: Option<String>) -> Option<Seq<char>> {
    match v {
        Some(s) => Some(s@),
        None => None,
    }
}

fn evidence(version: Option<String>, descriptions: Vec<String>) -> (r: ResultEvidence)
    ensures
        r.check@ == "gitleaks.detect"@,
        version_view(r.tool_version) == version_view(version),
        r.finding_descriptions@ == descriptions@,
{
    ResultEvidence { check: String::from_str("gitleaks.detect"), tool_version: version, finding_descriptions: descriptions }
}

/// The pass recorded when there was nothing to scan.
pub fn passed() -> (r: EnforcementResult)
    ensures
        is_scan_result(r, Status::Passed, "No committed secrets detected in the touched files."@, None, None),
{
    passed_with_version(None)
}

/// The pass recorded after a clean scan by the given gitleaks version.
pub fn passed_with_version(version: Option<String>) -> (r: EnforcementResult)
    ensures
        is_scan_result(r, Status::Passed, "No committed secrets detected in the touched files."@, None, version_view(version)),
{
    EnforcementResult {
        rule_id: String::from_str("no-committed-secrets"),
        status: Status::Passed,
        severity: Severity::Error,
        message: String::from_str("No committed secrets detected in the touched files."),
        locations: Vec::new(),
        remediation: None,
        evidence: evidence(version, Vec::new()),
    }
}

/// The result when the scan could not run: compliance is unknown.
pub fn unverified(reason: String, version: Option<String>) -> (r: EnforcementResult)
    ensures
        is_scan_result(
            r,
            Status::Unverified,
            "Secret scan could not run ("@ + reason@ + ")."@,
            Some("install gitleaks (see https://github.com/gitleaks/gitleaks) or run `quality_gate doctor`"@),
            version_view(version),
        ),
{
    EnforcementResult {
        rule_id: String::from_str("no-committed-secrets"),
        status: Status::Unverified,
        severity: Severity::Error,
        message: crate::text::concat3("Secret scan could not run (", reason.as_str(), ")."),
        locations: Vec::new(),
        remediation: Some(String::from_str("install gitleaks (see https://github.com/gitleaks/gitleaks) or run `quality_gate doctor`")),
        evidence: evidence(version, Vec::new()),
    }
}

/// A text without its control characters.
pub fn sanitize(value: &str) -> (r: String)
    ensures
        r@ == visible(value@),
{
    crate::text::strip_controls(value)
}

pub open spec fn allowed_char(c: char) -> bool {
    ('a' <= c && c <= 'z') || ('0' <= c && c <= '9') || c == '-'
}

/// The characters of `s` that are lower-case ASCII letters, digits or `-`.
pub open spec fn allowed_chars(s: Seq<char>) -> Seq<char>
    decreases s.len(),
{
    if s.len() == 0 {
        seq![]
    } else if allowed_char(s.last()) {
        allowed_chars(s.drop_last()).push(s.last())
    } else {
        allowed_chars(s.drop_last())
    }
}

/// A rule id reduced to `[a-z0-9-]` (upper case lowered), at most
/// `MAX_RULE_ID_LEN` characters, `unknown` when nothing is left.
pub open spec fn allowlisted(rule_id: Seq<char>) -> Seq<char> {
    let kept = allowed_chars(lower(rule_id));
    let capped = if kept.len() > MAX_RULE_ID_LEN { kept.take(MAX_RULE_ID_LEN as int) } else { kept };
    if capped.len() == 0 {
        "unknown"@
    } else {
        capped
    }
}

pub fn allowlist_rule_id(rule_id: &str) -> (r: String)
    ensures
        r@ == allowlisted(rule_id@),
{
    let c = crate::text::chars_of(rule_id);
    let l = crate::text::to_lower(c.as_slice());
    let mut kept: Vec<char> = Vec::new();
    let mut i: usize = 0;
    assert(l@.take(0) =~= Seq::<char>::empty());
    while i < l.len()
        invariant
            i <= l.len(),
            kept@ == allowed_chars(l@.take(i as int)),
        decreases l.len() - i,
    {
        assert(l@.take(i + 1).drop_last() =~= l@.take(i as int));
        let ch = l[i];
        if ('a' <= ch && ch <= 'z') || ('0' <= ch && ch <= '9') || ch == '-' {
            kept.push(ch);
        }
        i += 1;
    }
    assert(l@.take(l.len() as int) =~= l@);
    let mut capped: Vec<char> = Vec::new();
    let mut k: usize = 0;
    while k < kept.len() && k < MAX_RULE_ID_LEN
        invariant
            k <= kept.len(),
            k <= MAX_RULE_ID_LEN,
            capped@ == kept@.take(k as int),
        decreases kept.len() - k,
    {
        capped.push(kept[k]);
        k += 1;
        assert(capped@ =~= kept@.take(k as int));
    }
    if kept.len() <= MAX_RULE_ID_LEN {
        assert(kept@.take(kept.len() as int) =~= kept@);
    }
    if capped.len() == 0 {
        String::from_str("unknown")
    } else {
        crate::text::string_of(capped.as_slice())
    }
}

pub open spec fn finding_files(fs: Seq<Finding>) -> Seq<Seq<char>> {
    fs.map_values(|f: Finding| visible(f.file@))
}

pub open spec fn finding_rule_ids(fs: Seq<Finding>) -> Seq<Seq<char>> {
    fs.map_values(|f: Finding| allowlisted(f.rule_id@))
}

/// The sorted sanitized files of the findings, or `the touched files` when
/// there are none.
pub open spec fn touched_text(fs: Seq<Finding>) -> Seq<char> {
    let files = sorted_texts(finding_files(fs).to_set());
    if files.len() == 0 {
        "the touched files"@
    } else {
        crate::text::join_sep(files, ", "@)
    }
}

/// The failure message: the count, the noun, the touched files and the
/// sorted distinct allowlisted rule ids; never a description or a secret.
pub open spec fn failure_message(fs: Seq<Finding>) -> Seq<char> {
    "no-committed-secrets: gitleaks found "@ + crate::checks::commands::supervisor::decimal(fs.len())
        + " potential "@ + (if fs.len() == 1 { "secret"@ } else { "secrets"@ }) + " in the touched files ("@
        + touched_text(fs) + "). Detected rule ids: "@ + crate::text::join_sep(
        sorted_texts(finding_rule_ids(fs).to_set()),
        ", "@,
    ) + ". The secret values are redacted; remove them and rotate any exposed credential."@
}

pub fn touched_files(findings: &Vec<Finding>) -> (r: String)
    ensures
        r@ == touched_text(findings@),
{
    let mut files: Vec<String> = Vec::new();
    let mut i: usize = 0;
    while i < findings.len()
        invariant
            i <= findings.len(),
            views(files@) == finding_files(findings@).take(i as int),
        decreases findings.len() - i,
    {
        let ghost before = files@;
        files.push(sanitize(findings[i].file.as_str()));
        assert(views(files@) =~= views(before).push(visible(findings@[i as int].file@)));
        i += 1;
        assert(views(files@) =~= finding_files(findings@).take(i as int));
    }
    assert(finding_files(findings@).take(findings.len() as int) =~= finding_files(findings@));
    let sorted = sorted_distinct(files);
    if sorted.len() == 0 {
        String::from_str("the touched files")
    } else {
        crate::text::join_strings(sorted.as_slice(), ", ")
    }
}

/// The failure for findings: the message (see `failure_message`), each
/// finding's sanitized file and line as a location, the sanitized
/// descriptions kept only as evidence, and the removal remediation.
pub fn failed(findings: &Vec<Finding>, version: Option<String>) -> (r: EnforcementResult)
    ensures
        r.rule_id@ == "no-committed-secrets"@,
        r.status == Status::Failed,
        r.severity == Severity::Error,
        r.message@ == failure_message(findings@),
        r.locations@.len() == findings@.len(),
        forall|k: int| 0 <= k < findings@.len() ==> (#[trigger] r.locations@[k]).file@ == visible(findings@[k].file@)
            && r.locations@[k].line == Some(findings@[k].start_line),
        r.remediation matches Some(m) && m@ == "Remove the secret from the file, load it from an environment variable or secret manager, and rotate the exposed credential."@,
        r.evidence.check@ == "gitleaks.detect"@,
        version_view(r.evidence.tool_version) == version_view(version),
        views(r.evidence.finding_descriptions@) == findings@.map_values(|f: Finding| visible(f.description@)),
{
    let mut ids: Vec<String> = Vec::new();
    let mut locations: Vec<Location> = Vec::new();
    let mut descriptions: Vec<String> = Vec::new();
    let mut i: usize = 0;
    while i < findings.len()
        invariant
            i <= findings.len(),
            views(ids@) == finding_rule_ids(findings@).take(i as int),
            locations@.len() == i,
            forall|k: int| 0 <= k < i ==> (#[trigger] locations@[k]).file@ == visible(findings@[k].file@)
                && locations@[k].line == Some(findings@[k].start_line),
            views(descriptions@) == findings@.map_values(|f: Finding| visible(f.description@)).take(i as int),
        decreases findings.len() - i,
    {
        let ghost b1 = ids@;
        let ghost b3 = descriptions@;
        ids.push(allowlist_rule_id(findings[i].rule_id.as_str()));
        assert(views(ids@) =~= views(b1).push(allowlisted(findings@[i as int].rule_id@)));
        locations.push(Location { file: sanitize(findings[i].file.as_str()), line: Some(findings[i].start_line) });
        descriptions.push(sanitize(findings[i].description.as_str()));
        assert(views(descriptions@) =~= views(b3).push(visible(findings@[i as int].description@)));
        i += 1;
        assert(views(ids@) =~= finding_rule_ids(findings@).take(i as int));
        assert(views(descriptions@) =~= findings@.map_values(|f: Finding| visible(f.description@)).take(i as int));
    }
    assert(finding_rule_ids(findings@).take(findings.len() as int) =~= finding_rule_ids(findings@));
    assert(findings@.map_values(|f: Finding| visible(f.description@)).take(findings.len() as int)
        =~= findings@.map_values(|f: Finding| visible(f.description@)));
    let sorted_ids = sorted_distinct(ids);
    let count = crate::checks::commands::supervisor::decimal_string(findings.len() as u64);
    let noun = if findings.len() == 1 { "secret" } else { "secrets" };
    let files = touched_files(findings);
    let mut message = crate::text::concat3("no-committed-secrets: gitleaks found ", count.as_str(), " potential ");
    message.append(noun);
    message.append(" in the touched files (");
    message.append(files.as_str());
    message.append("). Detected rule ids: ");
    message.append(crate::text::join_strings(sorted_ids.as_slice(), ", ").as_str());
    message.append(". The secret values are redacted; remove them and rotate any exposed credential.");
    EnforcementResult {
        rule_id: String::from_str("no-committed-secrets"),
        status: Status::Failed,
        severity: Severity::Error,
        message,
        locations,
        remediation: Some(String::from_str(
            "Remove the secret from the file, load it from an environment variable or secret manager, and rotate the exposed credential.",
        )),
        evidence: evidence(version, descriptions),
    }
}

/// A text with no newline.
pub open spec fn single_line(s: Seq<char>) -> bool {
    forall|i: int| 0 <= i < s.len() ==> s[i] != '\n'
}

proof fn lemma_concat_single_line(a: Seq<char>, b: Seq<char>)
    requires
        single_line(a),
        single_line(b),
    ensures
        single_line(a + b),
{
    assert forall|i: int| 0 <= i < (a + b).len() implies (a + b)[i] != '\n' by {
        if i < a.len() {
            assert((a + b)[i] == a[i]);
        } else {
            assert((a + b)[i] == b[i - a.len()]);
        }
    }
}

proof fn lemma_join_single_line(parts: Seq<Seq<char>>, sep: Seq<char>)
    requires
        forall|k: int| 0 <= k < parts.len() ==> single_line(#[trigger] parts[k]),
        single_line(sep),
    ensures
        single_line(crate::text::join_sep(parts, sep)),
    decreases parts.len(),
{
    if parts.len() == 1 {
        assert(single_line(parts[0]));
    } else if parts.len() > 1 {
        assert forall|k: int| 0 <= k < parts.drop_last().len() implies single_line(#[trigger] parts.drop_last()[k]) by {
            assert(parts.drop_last()[k] == parts[k]);
        }
        lemma_join_single_line(parts.drop_last(), sep);
        assert(single_line(parts[parts.len() - 1]));
        lemma_concat_single_line(crate::text::join_sep(parts.drop_last(), sep), sep);
        lemma_concat_single_line(crate::text::join_sep(parts.drop_last(), sep) + sep, parts.last());
    }
}

proof fn lemma_allowed_chars(s: Seq<char>)
    ensures
        forall|i: int| 0 <= i < allowed_chars(s).len() ==> allowed_char(#[trigger] allowed_chars(s)[i]),
    decreases s.len(),
{
    if s.len() > 0 {
        lemma_allowed_chars(s.drop_last());
        let prev = allowed_chars(s.drop_last());
        if allowed_char(s.last()) {
            assert forall|i: int| 0 <= i < allowed_chars(s).len() implies allowed_char(
                #[trigger] allowed_chars(s)[i],
            ) by {
                if i < prev.len() {
                    assert(allowed_chars(s)[i] == prev[i]);
                }
            }
        }
    }
}

proof fn lemma_allowlisted_single_line(r: Seq<char>)
    ensures
        single_line(allowlisted(r)),
{
    reveal_strlit("unknown");
    let kept = allowed_chars(lower(r));
    lemma_allowed_chars(lower(r));
    assert forall|i: int| 0 <= i < allowlisted(r).len() implies allowlisted(r)[i] != '\n' by {
        if kept.len() > 0 {
            assert(allowed_char(kept[i]));
        }
    }
}

proof fn lemma_visible_single_line(s: Seq<char>)
    ensures
        single_line(visible(s)),
{
    assert forall|i: int| 0 <= i < visible(s).len() implies visible(s)[i] != '\n' by {
        s.lemma_filter_pred(|c: char| !is_control(c), i);
    }
}

proof fn lemma_decimal_single_line(n: nat)
    ensures
        single_line(crate::checks::commands::supervisor::decimal(n)),
    decreases n,
{
    let d = crate::checks::commands::supervisor::decimal(n);
    if n >= 10 {
        lemma_decimal_single_line(n / 10);
        let prev = crate::checks::commands::supervisor::decimal(n / 10);
        assert forall|i: int| 0 <= i < d.len() implies d[i] != '\n' by {
            if i < prev.len() {
                assert(d[i] == prev[i]);
            }
        }
    }
}

proof fn lemma_sorted_single_line(xs: Seq<Seq<char>>)
    requires
        forall|k: int| 0 <= k < xs.len() ==> single_line(#[trigger] xs[k]),
    ensures
        forall|k: int| 0 <= k < sorted_texts(xs.to_set()).len() ==> single_line(#[trigger] sorted_texts(xs.to_set())[k]),
{
    crate::strset::lemma_sorted_texts_exist(xs.to_set());
    let st = sorted_texts(xs.to_set());
    assert forall|k: int| 0 <= k < st.len() implies single_line(#[trigger] st[k]) by {
        assert(st.to_set().contains(st[k]));
        assert(xs.to_set().contains(st[k]));
        let q = choose|q: int| 0 <= q < xs.len() && xs[q] == st[k];
    }
}

/// The failure message is one line and names no finding's description:
/// findings that agree on their rule ids and files, position by position,
/// give the same message whatever their descriptions.
pub proof fn law_failure_message_ignores_descriptions(a: Seq<Finding>, b: Seq<Finding>)
    requires
        a.len() == b.len(),
        forall|i: int| 0 <= i < a.len() ==> (#[trigger] a[i]).rule_id@ == b[i].rule_id@ && a[i].file@ == b[i].file@,
    ensures
        failure_message(a) == failure_message(b),
        single_line(failure_message(a)),
{
    assert(finding_files(a) =~= finding_files(b));
    assert(finding_rule_ids(a) =~= finding_rule_ids(b));
    reveal_strlit("no-committed-secrets: gitleaks found ");
    reveal_strlit(" potential ");
    reveal_strlit("secret");
    reveal_strlit("secrets");
    reveal_strlit(" in the touched files (");
    reveal_strlit("). Detected rule ids: ");
    reveal_strlit(", ");
    reveal_strlit(". The secret values are redacted; remove them and rotate any exposed credential.");
    reveal_strlit("the touched files");
    lemma_decimal_single_line(a.len());
    let files = finding_files(a);
    assert forall|k: int| 0 <= k < files.len() implies single_line(#[trigger] files[k]) by {
        lemma_visible_single_line(a[k].file@);
    }
    lemma_sorted_single_line(files);
    lemma_join_single_line(sorted_texts(files.to_set()), ", "@);
    let ids = finding_rule_ids(a);
    assert forall|k: int| 0 <= k < ids.len() implies single_line(#[trigger] ids[k]) by {
        lemma_allowlisted_single_line(a[k].rule_id@);
    }
    lemma_sorted_single_line(ids);
    lemma_join_single_line(sorted_texts(ids.to_set()), ", "@);
    let p1 = "no-committed-secrets: gitleaks found "@;
    let p2 = crate::checks::commands::supervisor::decimal(a.len());
    let p3 = " potential "@;
    let p4 = if a.len() == 1 { "secret"@ } else { "secrets"@ };
    let p5 = " in the touched files ("@;
    let p6 = touched_text(a);
    let p7 = "). Detected rule ids: "@;
    let p8 = crate::text::join_sep(sorted_texts(ids.to_set()), ", "@);
    let p9 = ". The secret values are redacted; remove them and rotate any exposed credential."@;
    assert(single_line(p1));
    assert(single_line(p3));
    assert(single_line(p4));
    assert(single_line(p5));
    assert(single_line(p6));
    assert(single_line(p7));
    assert(single_line(p9));
    lemma_concat_single_line(p1, p2);
    lemma_concat_single_line(p1 + p2, p3);
    lemma_concat_single_line(p1 + p2 + p3, p4);
    lemma_concat_single_line(p1 + p2 + p3 + p4, p5);
    lemma_concat_single_line(p1 + p2 + p3 + p4 + p5, p6);
    lemma_concat_single_line(p1 + p2 + p3 + p4 + p5 + p6, p7);
    lemma_concat_single_line(p1 + p2 + p3 + p4 + p5 + p6 + p7, p8);
    lemma_concat_single_line(p1 + p2 + p3 + p4 + p5 + p6 + p7 + p8, p9);
    assert(failure_message(a) == p1 + p2 + p3 + p4 + p5 + p6 + p7 + p8 + p9);
}

} // verus!
