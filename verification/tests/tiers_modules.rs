use quality_gate::checks::modules::scan;
use quality_gate::checks::tiers::{checks, for_hook, targeted_availability, Availability, Check, Hook, Tier};
use quality_gate::checks::Status;

#[test]
fn tiers_have_stable_cost_order() {
    assert_eq!(checks(Tier::Fast), [Check::Secrets, Check::Diff, Check::Ruff]);
    assert_eq!(
        checks(Tier::Targeted),
        [Check::RelatedTests, Check::Mypy, Check::Semgrep]
    );
    assert_eq!(
        checks(Tier::Full),
        [
            Check::Secrets,
            Check::Diff,
            Check::Ruff,
            Check::Semgrep,
            Check::RepositoryCommands
        ]
    );
}

#[test]
fn full_tier_runs_every_fast_check() {
    let full = checks(Tier::Full);
    for check in checks(Tier::Fast) {
        assert!(full.contains(&check));
    }
}

#[test]
fn hooks_select_fast_and_full_tiers() {
    assert_eq!(for_hook(Hook::PostToolUse), Tier::Fast);
    assert_eq!(for_hook(Hook::Stop), Tier::Full);
}

#[test]
fn unsupported_targeted_checks_are_explicit() {
    assert_eq!(targeted_availability(Check::RelatedTests), Availability::NotConfigured);
    assert_eq!(targeted_availability(Check::Mypy), Availability::NotConfigured);
    assert_eq!(targeted_availability(Check::Semgrep), Availability::Supported);
}

#[test]
fn no_supported_files_are_not_applicable() {
    let results = scan(&vec![("README.md".to_string(), None), ("notes.txt".to_string(), None)]);
    assert_eq!(results[0].status, Status::NotApplicable);
    assert!(results[0].locations.is_empty());
}

#[test]
fn import_cycle_fails_with_both_files() {
    let results = scan(&vec![
        ("pkg/first.py".to_string(), Some(vec!["pkg/second.py".to_string()])),
        ("pkg/second.py".to_string(), Some(vec!["pkg/first.py".to_string()])),
    ]);
    assert_eq!(results[0].status, Status::Failed);
    assert_eq!(results[0].locations.len(), 2);
    assert_eq!(results[0].locations[0].file, "pkg/first.py");
    assert_eq!(results[0].message, "Module dependency cycle detected (2 file(s)).");
    assert_eq!(
        results[0].remediation.as_deref(),
        Some("Break the cycle or add an adapter boundary between modules.")
    );
}

#[test]
fn complete_acyclic_input_passes() {
    let results = scan(&vec![("source.py".to_string(), Some(Vec::new()))]);
    assert_eq!(results[0].status, Status::Passed);
    assert!(results[0].locations.is_empty());
}

#[test]
fn unreadable_supported_file_is_unverified() {
    let results = scan(&vec![("source.py".to_string(), None)]);
    assert_eq!(results[0].status, Status::Unverified);
}
