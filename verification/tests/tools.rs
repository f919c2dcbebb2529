use quality_gate::checks::modules::{import_spec_exec, source_imports};
use quality_gate::checks::ruff::{self, RuffFinding, RuffRun};
use quality_gate::checks::semgrep::{self, SemgrepFinding, SemgrepOutput, SemgrepRun};
use quality_gate::checks::Status;

fn ruff_finding(code: &str, filename: &str, row: u64) -> RuffFinding {
    RuffFinding {
        code: code.to_string(),
        filename: filename.to_string(),
        message: "finding\nwith control".to_string(),
        row,
    }
}

#[test]
fn fake_ruff_normalizes_each_stable_rule() {
    let findings = vec![ruff_finding("S110", "a.py", 7), ruff_finding("BLE001", "b.py", 9)];
    let results = ruff::scan(
        &vec!["a.py".to_string(), "b.py".to_string()],
        RuffRun::Exited(Some(1), Ok(findings)),
        Some("ruff 0.test".to_string()),
    );
    assert_eq!(results.len(), 2);
    assert!(results.iter().all(|result| result.status == Status::Failed));
    assert_eq!(results[0].locations[0].line, Some(7));
    assert_eq!(results[1].locations[0].line, Some(9));
    assert_eq!(results[0].message, "no-swallowed-errors: Ruff found 1 violation(s).");
    assert_eq!(results[0].evidence.finding_descriptions, ["findingwith control"]);
    assert_eq!(results[0].evidence.tool_version.as_deref(), Some("ruff 0.test"));
}

#[test]
fn missing_ruff_is_unverified_for_both_rules() {
    let results = ruff::scan(
        &vec!["a.py".to_string()],
        RuffRun::Failed("ruff missing, timed out, or could not be waited on".to_string()),
        None,
    );
    assert_eq!(results.len(), 2);
    assert!(results.iter().all(|result| result.status == Status::Unverified));
}

#[test]
fn ruff_refuses_unexpected_status_and_unparsed_output() {
    let status = ruff::scan(&vec!["a.py".to_string()], RuffRun::Exited(Some(2), Ok(Vec::new())), None);
    assert_eq!(
        status[0].message,
        "no-swallowed-errors: Ruff verification unavailable (ruff exited with status Some(2))."
    );
    let parse = ruff::scan(
        &vec!["a.py".to_string()],
        RuffRun::Exited(Some(0), Err("expected value".to_string())),
        None,
    );
    assert_eq!(
        parse[1].message,
        "no-broad-exception-handling: Ruff verification unavailable (could not parse ruff output (expected value))."
    );
    let empty = ruff::scan(&Vec::new(), RuffRun::Exited(Some(0), Ok(Vec::new())), None);
    assert!(empty[0].message.contains("no Python files were provided"));
}

#[test]
fn clean_ruff_run_passes_both_rules() {
    let results = ruff::scan(&vec!["a.py".to_string()], RuffRun::Exited(Some(0), Ok(Vec::new())), None);
    assert!(results.iter().all(|result| result.status == Status::Passed));
    assert_eq!(ruff::installed_version(Some(0), b"ruff 0.6.1\n"), Some("ruff 0.6.1".to_string()));
    assert_eq!(ruff::installed_version(Some(2), b"ruff 0.6.1\n"), None);
}

fn semgrep_finding(check_id: &str, line: u64) -> SemgrepFinding {
    SemgrepFinding { check_id: check_id.to_string(), path: "sample.py".to_string(), line }
}

#[test]
fn exit_one_normalizes_findings_and_clean_rules() {
    let output = SemgrepOutput {
        results: vec![
            semgrep_finding("policy.quality_gate.external-call-timeout-requests", 7),
            semgrep_finding("policy.quality_gate.sql-parameterization", 9),
        ],
        errors: 0,
    };
    let results = semgrep::scan(&vec!["sample.py".to_string()], SemgrepRun::Exited(Some(1), Ok(output)), None);
    assert_eq!(results.len(), 5);
    let status_of = |rule: &str| results.iter().find(|item| item.rule_id == rule).unwrap().status;
    assert_eq!(status_of("sql-parameterization"), Status::Failed);
    assert_eq!(status_of("external-call-timeout"), Status::Failed);
    assert_eq!(results.iter().filter(|item| item.status == Status::Passed).count(), 3);
}

#[test]
fn exit_zero_with_empty_json_passes_every_rule() {
    let output = SemgrepOutput { results: Vec::new(), errors: 0 };
    let results = semgrep::scan(&vec!["sample.py".to_string()], SemgrepRun::Exited(Some(0), Ok(output)), None);
    assert!(results.iter().all(|item| item.status == Status::Passed));
}

#[test]
fn tool_error_is_unverified_for_every_rule() {
    let output = SemgrepOutput { results: Vec::new(), errors: 0 };
    let results = semgrep::scan(&vec!["sample.py".to_string()], SemgrepRun::Exited(Some(2), Ok(output)), None);
    assert!(results.iter().all(|item| item.status == Status::Unverified));
    assert_eq!(
        results[0].message,
        "external-call-timeout: Semgrep check could not run (semgrep exited with status 2)."
    );
}

#[test]
fn reported_scan_errors_are_unverified_for_every_rule() {
    let output = SemgrepOutput { results: Vec::new(), errors: 1 };
    let results = semgrep::scan(&vec!["sample.py".to_string()], SemgrepRun::Exited(Some(0), Ok(output)), None);
    assert!(results.iter().all(|item| item.status == Status::Unverified));
}

#[test]
fn unknown_rule_ids_and_missing_targets() {
    let output = SemgrepOutput { results: vec![semgrep_finding("other.rule", 1)], errors: 0 };
    let unknown = semgrep::scan(&vec!["sample.py".to_string()], SemgrepRun::Exited(Some(1), Ok(output)), None);
    assert!(unknown[0].message.contains("semgrep returned an unknown policy rule id"));
    let none = semgrep::scan(&vec!["notes.md".to_string()], SemgrepRun::Failed("unused".to_string()), None);
    assert!(none.iter().all(|item| item.status == Status::NotApplicable));
    assert_eq!(semgrep::installed_version(Some(0), b"1.2.3\n"), Some("semgrep 1.2.3".to_string()));
}

#[test]
fn import_lines_name_relative_modules() {
    assert_eq!(
        import_spec_exec("import { x } from \"./util\";", Some("ts")),
        Some("./util".to_string())
    );
    assert_eq!(import_spec_exec("import React from \"react\";", Some("tsx")), None);
    assert_eq!(import_spec_exec("const a = require(\"../a\");", Some("js")), None);
    assert_eq!(import_spec_exec("require(\"../a\")", Some("js")), Some("../a".to_string()));
    assert_eq!(import_spec_exec("mod parser;", Some("rs")), Some("./parser".to_string()));
    assert_eq!(
        import_spec_exec("from .pkg.second import value", Some("py")),
        Some("./pkg/second".to_string())
    );
    assert_eq!(import_spec_exec("import os", Some("py")), None);
    assert_eq!(
        source_imports("from .second import value\nimport os\nfrom .third import x\n", Some("py")),
        vec!["./second".to_string(), "./third".to_string()]
    );
}
