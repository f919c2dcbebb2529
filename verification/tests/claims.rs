use quality_gate::checks::claims::{claims_of_transcript, is_proven, Claim};
use quality_gate::checks::commands::result::CommandEvidence;

fn parse(raw: &str, configured: &[String]) -> Result<Vec<Claim>, String> {
    claims_of_transcript(raw, configured)
}

fn transcript(text: &str) -> String {
    format!(
        "{{\"type\":\"user\",\"message\":{{\"content\":[]}}}}\n{{\"type\":\"assistant\",\"message\":{{\"content\":[{{\"type\":\"text\",\"text\":{}}}]}}}}\n",
        serde_json::to_string(text).expect("text serializes")
    )
}

fn gates() -> Vec<String> {
    vec!["cargo".to_string(), "pytest".to_string(), "ruff".to_string()]
}

fn parse_claims_t(text: &str) -> Result<Vec<Claim>, String> {
    parse(&transcript(text), &gates())
}

fn evidence(command: &str, exit_code: Option<i32>) -> CommandEvidence {
    CommandEvidence {
        command: command.to_string(),
        exit_code,
        duration_ms: 1,
        argv: Vec::new(),
        cwd: None,
        workspace_id: None,
        config_digest: None,
        touched_files_digest: None,
        policy_version: None,
        binary_version: None,
        started_at_ms: None,
        finished_at_ms: None,
    }
}

#[test]
fn a_backticked_identifier_is_not_a_claimed_command() {
    let raw = transcript(
        "| 3 | prose describing a gate scored as asserting it ran | `is_non_assertive` skips them |",
    );
    assert_eq!(parse(&raw, &gates()).expect("valid JSONL"), Vec::new());
}

#[test]
fn an_unconfigured_executable_is_not_a_claimed_command() {
    let raw = transcript("Ran `bundle exec rubocop` and it succeeded.");
    assert_eq!(parse(&raw, &gates()).expect("valid JSONL"), Vec::new());
}

#[test]
fn describing_a_gate_is_not_a_claim_that_it_ran() {
    let raw = transcript("The product rule is that you cannot claim tests passed without evidence.");
    assert_eq!(parse(&raw, &gates()).expect("valid JSONL"), Vec::new());
}

#[test]
fn denying_a_run_is_not_a_claim() {
    let raw = transcript("I did not run `cargo test`, so nothing here passed.");
    assert_eq!(parse(&raw, &gates()).expect("valid JSONL"), Vec::new());
}

#[test]
fn speculating_about_a_gate_is_not_a_claim() {
    let raw = transcript("`cargo test` should pass once the fixture is removed.");
    assert_eq!(parse(&raw, &gates()).expect("valid JSONL"), Vec::new());
}

#[test]
fn a_plain_assertion_is_still_captured() {
    let raw = transcript("Ran `cargo test` and it passed.");
    let claims = parse(&raw, &gates()).expect("valid JSONL");
    assert!(claims.contains(&Claim::Command("cargo test".to_string())));
    assert!(claims.contains(&Claim::TestsPassed));
}

#[test]
fn parses_only_last_assistant_text_claims() {
    let raw = format!("{}{}", transcript("`cargo test` passed"), transcript("`cargo build` succeeded"));
    assert_eq!(
        parse(&raw, &gates()).expect("valid JSONL"),
        vec![Claim::Command("cargo build".to_string())]
    );
}

#[test]
fn matching_exit_zero_proves_claim() {
    let claims = parse_claims_t("`cargo test` passed").expect("claims");
    let evidence = vec![evidence("cargo   test", Some(0))];
    assert!(claims.iter().all(|claim| is_proven(claim, &evidence)));
}

#[test]
fn fabricated_command_claim_without_matching_evidence_is_rejected() {
    let claim = Claim::Command("cargo test".to_string());
    let evidence = vec![evidence("cargo test", Some(1))];
    assert!(!is_proven(&claim, &evidence));
    assert!(!is_proven(&claim, &[]));
}

#[test]
fn generic_test_summary_requires_successful_test_command() {
    let claims = parse_claims_t("Tests: 42 passed").expect("claims");
    assert_eq!(claims, vec![Claim::TestsPassed]);
    let evidence = vec![evidence("cargo test", Some(0))];
    assert!(claims.iter().all(|claim| is_proven(claim, &evidence)));
}

#[test]
fn ignores_operational_tool_claims() {
    let claims = parse_claims_t("`quality_gate doctor` passed; `quality_gate hook pre-tool-use` succeeded.").expect("claims");
    assert!(claims.is_empty());
}

#[test]
fn keeps_full_tier_check_as_a_quality_claim() {
    let claims = parse_claims_t("`quality_gate check --tier full` passed").expect("claims");
    assert_eq!(claims, vec![Claim::Command("quality_gate check --tier full".to_string())]);
}

#[test]
fn unrelated_command_with_test_substring_does_not_prove_tests() {
    let evidence = vec![evidence("echo contest", Some(0))];
    assert!(!is_proven(&Claim::TestsPassed, &evidence));
}

#[test]
fn reporting_a_prior_run_is_not_a_claim_that_it_ran_now() {
    let raw = transcript(
        "**Gates at handoff (all PASS @ `6aea7a1`):** fmt, clippy, test (269 lib + 24 suites), `compile --validate` (71 rules).",
    );
    assert_eq!(parse(&raw, &gates()).expect("valid JSONL"), Vec::new());
}

#[test]
fn a_pass_word_before_the_test_word_is_not_a_claim() {
    let raw = transcript("All gates PASS: fmt, clippy, test, build.");
    assert_eq!(parse(&raw, &gates()).expect("valid JSONL"), Vec::new());
}

#[test]
fn substrings_of_test_and_pass_are_not_a_claim() {
    let raw = transcript("The latest bypass is documented and passes review.");
    assert_eq!(parse(&raw, &gates()).expect("valid JSONL"), Vec::new());
}

#[test]
fn a_pass_word_at_the_window_edge_is_still_a_claim() {
    let raw = transcript("The 413 tests one two three four five six seven passed.");
    assert_eq!(parse(&raw, &gates()).expect("valid JSONL"), vec![Claim::TestsPassed]);
}

#[test]
fn a_pass_word_past_the_window_edge_is_not_a_claim() {
    let raw = transcript("The 413 tests one two three four five six seven eight passed.");
    assert_eq!(parse(&raw, &gates()).expect("valid JSONL"), Vec::new());
}

#[test]
fn malformed_jsonl_is_unverified_input() {
    assert!(parse("{not json\n", &gates()).is_err());
}
