use quality_gate::checks::review::MAX_REVIEWED_BYTES;
use quality_gate::checks::structure::{Analysis, FunctionMetrics};
use quality_gate::checks::{
    auth, boundary, construction, determinism, endpoints, justification, logging, structure, ui,
    Severity, Status,
};

fn file(path: &str, source: &str) -> Vec<(String, Option<String>)> {
    vec![(path.to_string(), Some(source.to_string()))]
}

#[test]
fn separates_missing_controls_from_unverified_complete_signals() {
    let weak = auth::scan(&file("weak.py", "@app.post('/x')\ndef x(): pass\n"));
    assert_eq!(weak[0].status, Status::Warning);
    assert_eq!(
        weak[0].message,
        "1 public endpoint signal(s) lack one or more required control categories; runtime semantics remain review."
    );
    let strong = auth::scan(&file(
        "strong.py",
        "@app.post('/x')\nvalidate schema auth session rate_limit csrf secure debug=False\n",
    ));
    assert_eq!(strong[0].status, Status::Unverified);
    assert_eq!(strong[0].locations[0].line, Some(1));
}

#[test]
fn auth_without_files_or_endpoints_is_not_applicable() {
    assert_eq!(auth::scan(&Vec::new())[0].message, "No files were changed.");
    let plain = auth::scan(&file("plain.py", "value = 1\n"));
    assert_eq!(plain[0].status, Status::NotApplicable);
    assert_eq!(plain[0].message, "No supported public endpoint signal was found.");
}

#[test]
fn flags_empty_python_except_and_clean_catch() {
    let swallowed = boundary::scan(&file("a.py", "try:\n    run()\nexcept Exception:\n    pass\n"));
    assert_eq!(swallowed[0].status, Status::Warning);
    assert_eq!(swallowed[0].locations[0].line, Some(3));
    let raised = boundary::scan(&file(
        "a.py",
        "try:\n    run()\nexcept Exception:\n    raise RuntimeError('context')\n",
    ));
    assert_eq!(raised[0].status, Status::Passed);
}

#[test]
fn flags_retry_without_bounds_and_accepts_backoff_cancellation() {
    let unbounded = boundary::scan(&file("a.py", "for retry in range(3):\n    run()\n"));
    assert_eq!(unbounded[0].status, Status::Warning);
    let bounded = boundary::scan(&file("a.py", "for retry in range(3):\n    backoff_and_cancel()\n"));
    assert_eq!(bounded[0].status, Status::Passed);
    let other_language = boundary::scan(&file("a.go", "for retry in range(3):\n    run()\n"));
    assert_eq!(other_language[0].status, Status::Passed);
}

#[test]
fn flags_string_built_shell_and_sql_boundaries() {
    let results = construction::scan(&file(
        "a.py",
        "subprocess.run('git ' + user)\nquery = 'SELECT * ' + value\n",
    ));
    assert_eq!(results[0].status, Status::Warning);
    assert_eq!(results[0].locations.len(), 2);
    assert_eq!(
        results[0].message,
        "Review 2 string-built boundary signal(s); use contextual builders and escaping."
    );
}

#[test]
fn oversized_sources_are_not_reviewed() {
    let big = format!("subprocess.run('git ' + user)\n{}", "x".repeat(MAX_REVIEWED_BYTES));
    let results = construction::scan(&file("a.py", &big));
    assert_eq!(results[0].status, Status::Passed);
}

#[test]
fn flags_unit_sleep_and_allows_e2e_marker() {
    let unit = determinism::scan(&file("repo/tests/unit.py", "time.sleep(1)\n"));
    assert_eq!(unit[0].status, Status::Warning);
    let e2e = determinism::scan(&file("repo/tests/e2e.spec.ts", "fetch('https://example.test')\n"));
    assert_eq!(e2e[0].status, Status::Passed);
    assert_eq!(determinism::scan(&Vec::new())[0].status, Status::NotApplicable);
}

#[test]
fn detects_fastapi_and_next_route_signals() {
    let results = endpoints::scan(&vec![
        ("root/routes.py".to_string(), Some("@app.get('/items')\ndef items(): pass\n".to_string())),
        (
            "root/api/route.ts".to_string(),
            Some("export async function GET() { return Response.json({}); }\n".to_string()),
        ),
    ]);
    assert_eq!(results[0].status, Status::Warning);
    assert_eq!(results[0].locations.len(), 2);
}

#[test]
fn requires_complete_metadata_and_flags_expiry() {
    let today = "2026-01-15";
    let incomplete = justification::scan(&file("a.py", "# TODO fix later\n"), today);
    assert_eq!(incomplete[0].status, Status::Warning);
    assert_eq!(incomplete[0].severity, Severity::Warning);
    let expired = justification::scan(
        &file("a.py", "# TODO reason=legacy owner=team expires=2000-01-01 delete=replace\n"),
        today,
    );
    assert_eq!(expired[0].status, Status::Failed);
    assert_eq!(expired[0].severity, Severity::Error);
    let current = justification::scan(
        &file("a.py", "# TODO reason=legacy owner=team expires=2099-01-01 delete=replace\n"),
        today,
    );
    assert_eq!(current[0].status, Status::Passed);
}

#[test]
fn flags_sensitive_logging_without_echoing_value() {
    let results = logging::scan(&file("a.py", "logger.info('token=%s', token)\n"));
    assert_eq!(results[0].status, Status::Warning);
    assert!(!results[0].message.contains("token=%s"));
}

#[test]
fn flags_missing_alt_and_fixed_inline_style() {
    let results = ui::scan(&file(
        "page.html",
        "<img src='x'><div style='width: 400px !important'>x</div>",
    ));
    assert_eq!(results[0].status, Status::Warning);
    assert_eq!(results[1].status, Status::Warning);
    assert_eq!(
        results[0].message,
        "Review missing labels, roles, and image alternatives. (1 finding(s))."
    );
    let clean = ui::scan(&file("page.html", "<p>x</p>"));
    assert_eq!(clean[0].status, Status::NotApplicable);
}

fn function(start_line: u64, lines: u64) -> FunctionMetrics {
    FunctionMetrics { start_line, lines, complexity: 1, max_nesting: 1, parameters: 0, exempt: false }
}

#[test]
fn long_function_is_localized_and_clean_function_passes() {
    let analysis = Analysis { file_lines: 52, functions: vec![function(1, 52)] };
    let findings = structure::scan(&vec![("long.py".to_string(), Some(analysis))]);
    assert_eq!(findings[0].status, Status::Failed);
    assert_eq!(findings[0].severity, Severity::Error);
    assert_eq!(findings[0].locations[0].line, Some(1));
    let clean = Analysis { file_lines: 3, functions: vec![function(1, 2)] };
    assert_eq!(structure::scan(&vec![("ok.py".to_string(), Some(clean))])[0].status, Status::Passed);
}

#[test]
fn target_threshold_warns_before_hard_limit() {
    let analysis = Analysis { file_lines: 32, functions: vec![function(1, 32)] };
    let findings = structure::scan(&vec![("medium.py".to_string(), Some(analysis))]);
    assert_eq!(findings[0].status, Status::Warning);
    assert_eq!(findings[0].severity, Severity::Warning);
}

#[test]
fn complete_exemption_metadata_avoids_function_size_finding() {
    let mut exempt = function(2, 52);
    exempt.exempt = true;
    let analysis = Analysis { file_lines: 53, functions: vec![exempt] };
    let findings = structure::scan(&vec![("parser.py".to_string(), Some(analysis))]);
    assert_eq!(findings[0].status, Status::Passed);
}

#[test]
fn structure_is_not_applicable_or_unverified_without_analysis() {
    let none = structure::scan(&vec![("README.md".to_string(), None)]);
    assert!(none.iter().all(|result| result.status == Status::NotApplicable));
    let failed = structure::scan(&vec![("a.py".to_string(), None)]);
    assert!(failed.iter().all(|result| result.status == Status::Unverified));
    assert_eq!(failed[0].message, "Structural analysis could not run.");
}
