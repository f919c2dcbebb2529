use quality_gate::checks::diff::{
    contains_anti_slop_signal, contains_auth_signal, contains_error_contract_signal,
    contains_trivial_test_signal, is_auth_path, is_dependency,
};

#[test]
fn boundary_error_contract_review_distinguishes_structured_failures() {
    assert!(contains_error_contract_signal("+ eprintln!(\"request failed\");"));
    assert!(!contains_error_contract_signal(
        "+ eprintln!(\"request failed: entity=request reason=timeout retryable=true\");"
    ));
}

#[test]
fn behavior_test_review_flags_only_trivial_assertions() {
    assert!(contains_trivial_test_signal("+ fn test_smoke() { assert!(true); }"));
    assert!(!contains_trivial_test_signal("+ fn test_value() { assert_eq!(value(), 2); }"));
}

#[test]
fn anti_slop_review_flags_new_debug_output() {
    assert!(contains_anti_slop_signal("+print(value)\n"));
    assert!(!contains_anti_slop_signal("+value = 2\n"));
}

#[test]
fn dependency_and_auth_paths_are_recognized() {
    assert!(is_dependency("Cargo.toml"));
    assert!(is_dependency("web/package.json"));
    assert!(!is_dependency("src/main.rs"));
    assert!(is_auth_path("src/auth/session.py"));
    assert!(!is_auth_path("src/models/user.py"));
    assert!(contains_auth_signal("+    token = jwt.encode(payload)\n"));
}

fn quoted(text: &str) -> Option<(String, usize)> {
    quality_gate::checks::diff::inline_tests::parse_quoted_path(&text.chars().collect())
}

#[test]
fn quoted_path_decodes_octal_escapes_as_utf8() {
    assert_eq!(quoted(r#""a\303\251""#), Some(("aé".to_string(), 11)));
    assert_eq!(quoted(r#""a\tb" rest"#), Some(("a\tb".to_string(), 6)));
}

#[test]
fn quoted_path_refuses_bytes_that_are_not_utf8_and_unterminated_quotes() {
    assert_eq!(quoted(r#""\377""#), None);
    assert_eq!(quoted(r#""abc"#), None);
}
