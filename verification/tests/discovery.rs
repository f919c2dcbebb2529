use quality_gate::discovery::assemble::{assemble_workspaces, candidate_dirs};
use quality_gate::discovery::{DiscoveryError, MAX_WORKSPACES};
use quality_gate::discovery::gitignore::{
    gitignore_pattern_matches, gitignored, glob_match_path, glob_match_segment,
    read_gitignore_patterns, GitignoreContents, GitignorePattern, GlobMatch,
    MAX_GITIGNORE_MATCHING_WORK,
};

fn pattern(segments: &[&str], negated: bool, directory_only: bool) -> GitignorePattern {
    GitignorePattern {
        segments: segments.iter().map(|s| s.to_string()).collect(),
        negated,
        anchored: false,
        directory_only,
        unsupported: false,
    }
}

#[test]
fn valid_character_class_classification_is_budgeted() {
    let mut matching_work = MAX_GITIGNORE_MATCHING_WORK - "[a-z]".len() - 1;
    assert_eq!(
        glob_match_segment("[a-z]", "a", &mut matching_work),
        GlobMatch::BudgetExceeded
    );
    assert_eq!(matching_work, MAX_GITIGNORE_MATCHING_WORK);
}

#[test]
fn glob_segments_match_wildcards_and_classes() {
    let mut work = 0;
    assert_eq!(glob_match_segment("*.rs", "main.rs", &mut work), GlobMatch::Matched);
    assert_eq!(glob_match_segment("ma?n.rs", "main.rs", &mut work), GlobMatch::Matched);
    assert_eq!(glob_match_segment("[!a-z]x", "1x", &mut work), GlobMatch::Matched);
    assert_eq!(glob_match_segment("[a-z]x", "1x", &mut work), GlobMatch::NoMatch);
    assert_eq!(glob_match_segment("*.rs", "main.py", &mut work), GlobMatch::NoMatch);
    assert_eq!(glob_match_segment("[z-a]", "a", &mut work), GlobMatch::Unsupported);
    assert!(work > 0);
}

#[test]
fn matching_budget_advances_for_available_negation_and_fails_closed_when_exhausted() {
    let negation = pattern(&["*"], true, false);
    let mut matching_work = 0;
    assert!(!gitignored(
        "/root",
        "/root/workspace",
        std::slice::from_ref(&negation),
        true,
        &mut matching_work,
    ));
    assert!(matching_work > 0);
    matching_work = MAX_GITIGNORE_MATCHING_WORK;
    assert!(gitignored("/root", "/root/workspace", &[negation], true, &mut matching_work));
}

#[test]
fn directory_only_rules_consume_matching_budget_for_files() {
    let generated = pattern(&["generated"], false, true);
    let mut matching_work = MAX_GITIGNORE_MATCHING_WORK - 3;
    assert!(!gitignored(
        "/root",
        "/root",
        std::slice::from_ref(&generated),
        false,
        &mut matching_work,
    ));
    assert_eq!(matching_work, MAX_GITIGNORE_MATCHING_WORK);
}

#[test]
fn later_negation_reopens_an_ignored_directory() {
    let rules = vec![pattern(&["generated-*"], false, true), pattern(&["generated-keep"], true, true)];
    let mut work = 0;
    assert!(gitignored("/repo", "/repo/generated-cache", &rules, true, &mut work));
    assert!(!gitignored("/repo", "/repo/generated-keep", &rules, true, &mut work));
    assert!(!gitignored("/repo", "/repo/src", &rules, true, &mut work));
}

#[test]
fn matcher_cell_budget_exhaustion_fails_inside_the_matcher() {
    let mut matching_work = MAX_GITIGNORE_MATCHING_WORK - 5;
    assert_eq!(
        glob_match_path(
            &["**".to_string()],
            &["nested".to_string(), "child".to_string()],
            &mut matching_work,
        ),
        GlobMatch::BudgetExceeded
    );

    let deep = pattern(&["**", "a*"], false, false);
    let relative = vec!["nested".to_string(), "aaaa".to_string()];
    let mut matching_work = MAX_GITIGNORE_MATCHING_WORK - 9;
    assert_eq!(
        gitignore_pattern_matches(&deep, &relative, &mut matching_work),
        GlobMatch::BudgetExceeded
    );
}

#[test]
fn unsupported_rule_is_charged_before_fail_closed_sentinel() {
    let mut matching_work = 0;
    let patterns = read_gitignore_patterns(
        &GitignoreContents::Valid("generated-{cache,docs}/\n".to_string()),
        &mut matching_work,
    );
    assert_eq!(patterns, vec![GitignorePattern::fail_closed()]);
    assert!(matching_work > "generated-{cache,docs}/".len());
}

#[test]
fn unreadable_rules_fail_closed_and_missing_rules_ignore_nothing() {
    let mut work = 0;
    assert_eq!(
        read_gitignore_patterns(&GitignoreContents::Invalid, &mut work),
        vec![GitignorePattern::fail_closed()]
    );
    assert!(read_gitignore_patterns(&GitignoreContents::Missing, &mut work).is_empty());
}

#[test]
fn rules_are_read_with_their_flags() {
    let mut work = 0;
    let patterns = read_gitignore_patterns(
        &GitignoreContents::Valid("# comment\n\n/build/\n!keep.txt\ndocs/*.md\n".to_string()),
        &mut work,
    );
    assert_eq!(
        patterns,
        vec![
            GitignorePattern {
                segments: vec!["build".to_string()],
                negated: false,
                anchored: true,
                directory_only: true,
                unsupported: false,
            },
            GitignorePattern {
                segments: vec!["keep.txt".to_string()],
                negated: true,
                anchored: false,
                directory_only: false,
                unsupported: false,
            },
            GitignorePattern {
                segments: vec!["docs".to_string(), "*.md".to_string()],
                negated: false,
                anchored: false,
                directory_only: false,
                unsupported: false,
            },
        ]
    );
}

fn bare_workspace(root: &str) -> quality_gate::discovery::Workspace {
    quality_gate::discovery::Workspace {
        id: root.to_string(),
        language: "rust".to_string(),
        root: root.to_string(),
        commands: Vec::new(),
        coverage: Vec::new(),
    }
}

#[test]
fn workspaces_are_reported_by_root_component_by_component() {
    let found = ["b", ".", "a-b", "a/b", "a"].iter().map(|root| bare_workspace(root)).collect();
    let ordered = assemble_workspaces(found).expect("within the cap");
    let roots: Vec<&str> = ordered.iter().map(|w| w.root.as_str()).collect();
    assert_eq!(roots, vec![".", "a", "a/b", "a-b", "b"]);
}

#[test]
fn more_than_the_workspace_cap_is_refused() {
    let at_cap: Vec<_> = (0..MAX_WORKSPACES).map(|i| bare_workspace(&format!("w{i}"))).collect();
    assert_eq!(assemble_workspaces(at_cap).map(|ws| ws.len()), Ok(MAX_WORKSPACES));
    let over: Vec<_> = (0..=MAX_WORKSPACES).map(|i| bare_workspace(&format!("w{i}"))).collect();
    let error = assemble_workspaces(over).expect_err("over the cap");
    assert_eq!(error, DiscoveryError::WorkspaceLimit { limit: 64 });
    assert_eq!(error.message(), "discovery found more than 64 workspaces");
}

#[test]
fn candidate_directories_are_taken_once_each() {
    let dirs = candidate_dirs(vec!["b".to_string(), ".".to_string(), "b".to_string(), "a".to_string()]);
    assert_eq!(dirs, vec![".".to_string(), "a".to_string(), "b".to_string()]);
}
