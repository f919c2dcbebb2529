use quality_gate::checks::commands::runner::{start_structured, ExecutionBudget, StructuredCommand, StructuredStart};
use quality_gate::checks::commands::supervisor::{
    cleanup_decision, decode_hex, encode_environment_entries, encode_environment_value,
    encode_hex, encode_path, encoded_environment_entries_are_valid, request_deadline,
    request_is_transportable, request_is_valid, request_payload_is_bounded,
    supervisor_capture_is_bounded, valid_capture_limit, Cleanup, DeadlineBudget,
    EncodedEnvironment, SupervisorRequest, MAX_CAPTURE_BYTES, MAX_CAPTURE_LIMIT_BYTES,
    MAX_REQUEST_ENVELOPE_BYTES, MAX_REQUEST_ENVIRONMENT_BYTES, MAX_REQUEST_ENVIRONMENT_ENTRIES,
    MAX_REQUEST_ENV_BYTES,
};
use quality_gate::checks::gitleaks::runner::Captured;

/// A monotonic clock reading well past the start of the clock.
const NOW_NS: u64 = 5_000_000_000;

fn valid_request_fixture() -> SupervisorRequest {
    SupervisorRequest {
        argv: vec!["true".to_string()],
        repository_root: encode_path(b".").expect("path encoding"),
        workspace_root: encode_path(b".").expect("path encoding"),
        cwd: encode_path(b".").expect("path encoding"),
        timeout_ms: Some("1000".to_string()),
        deadline_ns: None,
        environment: None,
        capture_limit: MAX_CAPTURE_BYTES,
        path: None,
        home: None,
        ci: None,
    }
}

#[test]
fn supervisor_capture_rejects_survivors_and_oversized_stderr() {
    let captured = Captured {
        code: Some(0),
        stdout: Vec::new(),
        stderr: Vec::new(),
        process_group_survived: false,
    };
    assert!(supervisor_capture_is_bounded(&captured, 0));

    let mut survived = captured;
    survived.process_group_survived = true;
    assert!(!supervisor_capture_is_bounded(&survived, usize::MAX));

    let oversized = Captured {
        code: Some(0),
        stdout: Vec::new(),
        stderr: vec![0],
        process_group_survived: false,
    };
    assert!(!supervisor_capture_is_bounded(&oversized, 0));
}

#[test]
fn environment_transport_rejects_too_many_entries_and_bytes() {
    let too_many = (0..=MAX_REQUEST_ENVIRONMENT_ENTRIES)
        .map(|index| (format!("N{index}").into_bytes(), b"v".to_vec()))
        .collect::<Vec<_>>();
    let too_large = vec![(b"NAME".to_vec(), vec![b'x'; MAX_REQUEST_ENVIRONMENT_BYTES])];

    assert!(encode_environment_entries(&too_many).is_err());
    assert!(encode_environment_entries(&too_large).is_err());
}

#[test]
fn capture_limit_accepts_ruff_bound_and_rejects_unbounded_values() {
    assert_eq!(
        valid_capture_limit(MAX_CAPTURE_BYTES),
        Some(MAX_CAPTURE_BYTES as usize)
    );
    assert_eq!(
        valid_capture_limit(MAX_CAPTURE_LIMIT_BYTES),
        Some(MAX_CAPTURE_LIMIT_BYTES as usize)
    );
    assert!(valid_capture_limit(0).is_none());
    assert!(valid_capture_limit(MAX_CAPTURE_LIMIT_BYTES + 1).is_none());
}

#[test]
fn receiver_rejects_oversized_raw_envelopes_before_parsing() {
    assert!(request_payload_is_bounded(&"x".repeat(MAX_REQUEST_ENVELOPE_BYTES)));
    assert!(!request_payload_is_bounded(&"x".repeat(MAX_REQUEST_ENVELOPE_BYTES + 1)));
}

#[test]
fn receiver_request_validation_rejects_oversized_envelopes() {
    let mut request = valid_request_fixture();
    request.argv = vec!["x".repeat(MAX_REQUEST_ENVELOPE_BYTES)];
    assert!(!request_is_valid(&request));
}

#[test]
fn receiver_request_validation_rejects_oversized_environment() {
    let mut too_many = valid_request_fixture();
    too_many.environment = Some(
        (0..=MAX_REQUEST_ENVIRONMENT_ENTRIES)
            .map(|index| EncodedEnvironment {
                name: encode_hex(format!("N{index}").as_bytes()),
                value: encode_hex(b"v"),
            })
            .collect(),
    );
    assert!(!request_is_valid(&too_many));

    let mut too_large = valid_request_fixture();
    too_large.environment = Some(vec![EncodedEnvironment {
        name: encode_hex(b"NAME"),
        value: "aa".repeat(MAX_REQUEST_ENVIRONMENT_BYTES),
    }]);
    assert!(!request_is_valid(&too_large));
}

#[test]
fn receiver_request_validation_preserves_legacy_relative_environment() {
    let mut request = valid_request_fixture();
    request.environment = None;
    request.path = Some(encode_hex(b"/usr/bin"));
    request.home = Some(encode_hex(b"/tmp"));
    request.ci = Some(encode_hex(b"1"));
    assert!(request_is_valid(&request));
}

#[test]
fn receiver_request_validation_accepts_modern_environment() {
    let mut request = valid_request_fixture();
    request.environment = Some(vec![EncodedEnvironment {
        name: encode_hex(b"PATH"),
        value: encode_hex(b"/usr/bin"),
    }]);
    assert!(request_is_valid(&request));
}

#[test]
fn receiver_request_validation_rejects_each_invalid_argument_shape() {
    let mut empty_argv = valid_request_fixture();
    empty_argv.argv.clear();
    assert!(!request_is_valid(&empty_argv));

    let mut empty_program = valid_request_fixture();
    empty_program.argv[0].clear();
    assert!(!request_is_valid(&empty_program));

    let mut nul_argument = valid_request_fixture();
    nul_argument.argv.push("contains\0nul".to_string());
    assert!(!request_is_valid(&nul_argument));
}

#[test]
fn receiver_request_validation_rejects_each_invalid_path_or_capture_field() {
    let mut invalid_repository_root = valid_request_fixture();
    invalid_repository_root.repository_root = "not-hex".to_string();
    assert!(!request_is_valid(&invalid_repository_root));

    let mut invalid_workspace_root = valid_request_fixture();
    invalid_workspace_root.workspace_root = "not-hex".to_string();
    assert!(!request_is_valid(&invalid_workspace_root));

    let mut invalid_cwd = valid_request_fixture();
    invalid_cwd.cwd = "not-hex".to_string();
    assert!(!request_is_valid(&invalid_cwd));

    let mut invalid_capture_limit = valid_request_fixture();
    invalid_capture_limit.capture_limit = 0;
    assert!(!request_is_valid(&invalid_capture_limit));
}

#[test]
fn receiver_request_validation_accepts_exact_environment_entry_limit() {
    let mut request = valid_request_fixture();
    request.environment = Some(
        (0..MAX_REQUEST_ENVIRONMENT_ENTRIES)
            .map(|index| EncodedEnvironment {
                name: encode_hex(format!("N{index}").as_bytes()),
                value: encode_hex(b"v"),
            })
            .collect(),
    );
    assert!(request_is_valid(&request));
}

#[test]
fn receiver_request_validation_rejects_invalid_environment_name_or_value() {
    let mut invalid_name = valid_request_fixture();
    invalid_name.environment = Some(vec![EncodedEnvironment {
        name: encode_hex(b"NAME=INVALID"),
        value: encode_hex(b"value"),
    }]);
    assert!(!request_is_valid(&invalid_name));

    let mut invalid_value = valid_request_fixture();
    invalid_value.environment = Some(vec![EncodedEnvironment {
        name: encode_hex(b"NAME"),
        value: "not-hex".to_string(),
    }]);
    assert!(!request_is_valid(&invalid_value));
}

#[test]
fn environment_validation_accepts_exact_encoded_byte_limit() {
    let value_length = MAX_REQUEST_ENVIRONMENT_BYTES / 8 - 1;
    let exact = (0..4)
        .map(|_| EncodedEnvironment {
            name: encode_hex(b"N"),
            value: "aa".repeat(value_length),
        })
        .collect::<Vec<_>>();

    assert_eq!(
        exact
            .iter()
            .map(|entry| entry.name.len() + entry.value.len())
            .sum::<usize>(),
        MAX_REQUEST_ENVIRONMENT_BYTES
    );
    assert!(encoded_environment_entries_are_valid(&exact));
}

#[test]
fn hex_round_trips_binary_capture() {
    let bytes = [0, 1, 15, 16, 127, 255];
    assert_eq!(decode_hex(&encode_hex(&bytes)), Some(bytes.to_vec()));
    assert!(decode_hex("0").is_none());
    assert!(decode_hex("xx").is_none());
}

#[test]
fn hex_encoding_is_lowercase_two_digits_per_byte() {
    assert_eq!(encode_hex(&[0x00, 0xab, 0x7f]), "00ab7f");
    assert_eq!(decode_hex("00ab7f"), Some(vec![0x00, 0xab, 0x7f]));
    assert!(decode_hex("00AB7f").is_none());
}

#[test]
fn path_transport_round_trips_non_utf8_bytes() {
    let path = b"repo-\xff/checks".to_vec();
    let encoded = encode_path(&path).expect("bounded path encoding");
    assert_eq!(decode_hex(&encoded), Some(path));
}

#[test]
fn environment_transport_accepts_exact_limit_and_rejects_one_byte_over() {
    let exact = vec![b'x'; MAX_REQUEST_ENV_BYTES];
    let over = vec![b'x'; MAX_REQUEST_ENV_BYTES + 1];
    assert!(encode_environment_value(&exact).is_ok());
    assert!(encode_environment_value(&over).is_err());
}

#[test]
fn transport_preflight_rejects_nul_arguments() {
    assert!(!request_is_transportable(
        &["check".to_string(), "\0".to_string()],
        &[],
        b".",
        b".",
        b".",
        1_000,
    ));
}

#[test]
fn transport_preflight_accepts_an_ordinary_command() {
    assert!(request_is_transportable(
        &["check".to_string(), "--all".to_string()],
        &[(b"PATH".to_vec(), b"/usr/bin".to_vec())],
        b".",
        b".",
        b".",
        1_000,
    ));
}

#[test]
fn transport_preflight_uses_fixed_timeout_wire_width() {
    let argv = vec!["check".to_string(), "x".repeat(90_000)];
    assert_eq!(
        request_is_transportable(&argv, &[], b".", b".", b".", 1),
        request_is_transportable(&argv, &[], b".", b".", b".", u64::MAX)
    );
}

#[test]
fn malformed_absolute_deadline_does_not_fall_back_to_relative_timeout() {
    let mut request = valid_request_fixture();
    request.deadline_ns = Some("not-a-monotonic-deadline".to_string());
    assert!(request_deadline(&request, Some(NOW_NS)).is_none());
}

#[test]
fn expired_absolute_deadline_does_not_fall_back_to_relative_timeout() {
    let mut request = valid_request_fixture();
    request.deadline_ns = Some("0".to_string());
    assert!(request_deadline(&request, Some(NOW_NS)).is_none());
}

#[test]
fn future_absolute_deadline_grants_the_remaining_nanoseconds() {
    let mut request = valid_request_fixture();
    request.deadline_ns = Some((NOW_NS + 250).to_string());
    assert_eq!(
        request_deadline(&request, Some(NOW_NS)),
        Some(DeadlineBudget::RemainingNanos(250))
    );
}

#[test]
fn legacy_relative_deadline_remains_accepted_without_absolute_value() {
    let request = valid_request_fixture();
    assert!(request_deadline(&request, Some(NOW_NS)).is_some());
    assert_eq!(
        request_deadline(&request, None),
        Some(DeadlineBudget::RelativeMillis(1000))
    );
}

#[test]
fn expired_empty_cleanup_deadline_is_unproven_before_quiescence() {
    assert_eq!(cleanup_decision(false, 0, 0), Some(Cleanup::Unproven));
}

#[test]
fn quiet_interval_decides_cleanup_by_what_was_found() {
    assert_eq!(cleanup_decision(false, 20_000_000, 0), Some(Cleanup::Clean));
    assert_eq!(cleanup_decision(true, 20_000_000, 5), Some(Cleanup::Violation));
    assert_eq!(cleanup_decision(true, 19_999_999, 5), None);
}

fn structured_command(timeout_seconds: u64) -> StructuredCommand {
    StructuredCommand {
        argv: vec!["cargo".to_string(), "test".to_string()],
        cwd: "crates/a".to_string(),
        workspace_id: "rust-a".to_string(),
        tier: "full".to_string(),
        timeout_seconds,
    }
}

#[test]
fn structured_command_is_not_started_after_containment_failed() {
    let mut budget = ExecutionBudget::unlimited();
    budget.containment_failed = true;
    let StructuredStart::Skip(evidence, result) = start_structured(&mut budget, 5, &structured_command(30)) else {
        panic!("the command must not start");
    };
    assert_eq!(result.status, quality_gate::checks::Status::Unverified);
    assert!(result.message.contains("was not started after descendant containment failed"));
    assert_eq!(evidence.command, "cargo test");
    assert_eq!(evidence.argv, vec!["cargo".to_string(), "test".to_string()]);
    assert_eq!(evidence.exit_code, None);
    assert_eq!(evidence.duration_ms, 0);
    assert_eq!(evidence.started_at_ms, None);
    assert_eq!(evidence.finished_at_ms, None);
    assert_eq!(evidence.cwd.as_deref(), Some("crates/a"));
    assert_eq!(evidence.workspace_id.as_deref(), Some("rust-a"));
    assert!(budget.containment_failed());
    assert!(!budget.is_exhausted());
}

#[test]
fn structured_deadline_is_the_earlier_and_saturates_for_huge_timeouts() {
    let mut budget = ExecutionBudget::unlimited();
    assert!(matches!(start_structured(&mut budget, 5, &structured_command(2)), StructuredStart::Run(2_000_000_005)));
    assert!(matches!(start_structured(&mut budget, 5, &structured_command(u64::MAX)), StructuredStart::Run(u64::MAX)));
    let mut gated = ExecutionBudget::new(5, 1_000);
    assert!(matches!(start_structured(&mut gated, 5, &structured_command(2)), StructuredStart::Run(1_005)));
}
