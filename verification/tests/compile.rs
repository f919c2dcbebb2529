use quality_gate::compile::packet::{bounded_line, compile_selected, MAX_RULES};
use quality_gate::compile::plan::context_identity;
use quality_gate::compile::{Level, Rule};

fn rule(id: &str, level: Level, instruction: &str, checks: &[&str], evidence: &[&str]) -> Rule {
    Rule {
        id: id.to_string(),
        level,
        instruction: instruction.to_string(),
        checks: checks.iter().map(|c| c.to_string()).collect(),
        evidence: evidence.iter().map(|e| e.to_string()).collect(),
    }
}

fn registry() -> Vec<Rule> {
    vec![
        rule(
            "regression-test-required",
            Level::Must,
            "Add a regression test for every bug fix.",
            &["tests"],
            &["test-output"],
        ),
        rule(
            "no-swallowed-errors",
            Level::Must,
            "Never swallow an error silently.",
            &["ruff"],
            &["ruff-output"],
        ),
        rule(
            "no-broad-exception-handling",
            Level::Must,
            "Catch the narrow exception types an operation can raise.",
            &["ruff"],
            &["ruff-output"],
        ),
    ]
}

#[test]
fn compiles_compact_deduplicated_packet_in_stable_order() {
    let registry = registry();
    let mut review = registry[0].clone();
    review.id = "review-fixture".to_string();
    review.level = Level::Review;
    review.instruction = "Review the boundary design.".to_string();
    let selected = vec![&review, &registry[2], &registry[2], &registry[1]];

    let compiled = compile_selected(
        &selected,
        &vec!["src/api.py".to_string(), "tests/test_api.py".to_string()],
    );

    assert!(compiled.packet.starts_with("Applicable engineering constraints:"));
    assert!(compiled.packet.contains("\nMUST\n"));
    assert!(compiled.packet.contains("\nREVIEW\n- Review the boundary design."));
    assert!(compiled.packet.contains("Verification required:"));
    assert!(compiled.packet.contains("Do not claim a check passed"));
    assert!(!compiled.packet.contains("codingStandards.md"));
    assert!(compiled.packet.len() < 4_096, "packet must remain compact");
    assert_eq!(
        compiled.plan.rule_ids,
        ["no-broad-exception-handling", "no-swallowed-errors", "review-fixture"]
    );
    assert_eq!(compiled.plan.checks, ["ruff", "tests"]);
    assert!(compiled.packet.contains("- check: ruff\n- check: tests\n- evidence: ruff-output\n"));
}

#[test]
fn plan_identity_tracks_touched_file_set_not_input_order() {
    let registry = registry();
    let selected = vec![&registry[2]];
    let first = compile_selected(&selected, &vec!["b.py".to_string(), "a.py".to_string()]);
    let reordered = compile_selected(&selected, &vec!["a.py".to_string(), "b.py".to_string()]);
    let changed = compile_selected(&selected, &vec!["a.py".to_string()]);

    assert_eq!(first.plan.context_identity, reordered.plan.context_identity);
    assert_ne!(first.plan.context_identity, changed.plan.context_identity);
}

#[test]
fn rule_cap_is_independent_of_input_order() {
    let source = registry()[0].clone();
    let mut rules: Vec<_> = (0..300)
        .map(|index| {
            let mut rule = source.clone();
            rule.id = format!("rule-{index:03}");
            rule
        })
        .collect();
    let forward_refs: Vec<_> = rules.iter().collect();
    let forward = compile_selected(&forward_refs, &Vec::new());
    rules.reverse();
    let reverse_refs: Vec<_> = rules.iter().collect();
    let reverse = compile_selected(&reverse_refs, &Vec::new());

    assert_eq!(forward, reverse);
    assert_eq!(forward.plan.rule_ids.len(), MAX_RULES);
    assert_eq!(forward.plan.rule_ids.first().map(String::as_str), Some("rule-000"));
    assert_eq!(forward.plan.rule_ids.last().map(String::as_str), Some("rule-255"));
}

#[test]
fn empty_selection_has_no_requirements_and_a_fixed_identity() {
    let compiled = compile_selected(&Vec::new(), &Vec::new());
    assert_eq!(
        compiled.packet,
        "Applicable engineering constraints:\n\nMUST\n- None\n\nREVIEW\n- None\n\nVerification required:\n\
         \nDo not claim a check passed unless it was executed successfully.\n"
    );
    assert_eq!(context_identity(&Vec::new()), "files-fnv1a64-cbf29ce484222325");
    assert_eq!(context_identity(&vec!["a".to_string()]), context_identity(&vec!["a".to_string(), "a".to_string()]));
}

#[test]
fn packet_lines_are_single_lines_within_the_byte_limit() {
    assert_eq!(bounded_line("a\nb\tc\rd"), "a b c d");
    let long = "é".repeat(300);
    let bounded = bounded_line(&long);
    assert_eq!(bounded.len(), 512);
    assert!(bounded.chars().all(|c| c == 'é'));
}
