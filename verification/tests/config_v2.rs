use quality_gate::checks::commands::config::settings_from_text;
use quality_gate::config_v2::{
    migrate_v1, sanitize_config_diagnostic, validate, ConfigV2, ConfigV2Error,
    CONFIG_DIAGNOSTIC_MAX_BYTES, MAX_COVERAGE_COMMANDS, MAX_STRUCTURED_COMMANDS, MAX_WORKSPACES,
};
use quality_gate::discovery::{CommandSpec, CoverageSpec, Workspace};
use quality_gate::json::JsonValue;
use quality_gate::paths::MAX_DIRECTORY_COMPONENTS;

fn workspace(index: usize, commands: Vec<CommandSpec>, coverage: Vec<CoverageSpec>) -> Workspace {
    Workspace {
        id: format!("workspace-{index}"),
        language: "shell".to_string(),
        root: ".".to_string(),
        commands,
        coverage,
    }
}

fn command_spec() -> CommandSpec {
    CommandSpec {
        argv: vec!["true".to_string()],
        cwd: ".".to_string(),
        timeout_seconds: 30,
        tier: "full".to_string(),
        purpose: "test".to_string(),
        source: "fixture".to_string(),
        confidence: "high".to_string(),
    }
}

fn coverage_spec() -> CoverageSpec {
    CoverageSpec {
        argv: vec!["true".to_string()],
        cwd: ".".to_string(),
        timeout_seconds: 30,
        scope: "unit".to_string(),
        line_threshold_percent: None,
        branch_threshold_percent: None,
    }
}

fn config(workspaces: Vec<Workspace>) -> ConfigV2 {
    ConfigV2 {
        version: "2".to_string(),
        profile: "default".to_string(),
        workspaces,
        disabled_rules: Vec::new(),
        severity_overrides: Vec::new(),
    }
}

fn error_text(result: Result<(), ConfigV2Error>) -> String {
    result.expect_err("configuration must be refused").message()
}

fn string(text: &str) -> JsonValue {
    JsonValue::String(text.to_string())
}

#[test]
fn accepts_workspace_root_and_nested_command_and_coverage_cwds() {
    let mut configured = workspace(0, vec![command_spec(), command_spec()], vec![coverage_spec()]);
    configured.root = "services/api".to_string();
    configured.commands[0].cwd = "services/api".to_string();
    configured.commands[1].cwd = "services/api/src".to_string();
    configured.coverage[0].cwd = "services/api/tests".to_string();
    assert!(validate(&config(vec![configured])).is_ok());
}

#[test]
fn accepts_128_path_components_and_rejects_129_for_each_workspace_path() {
    let deep_path = |count: usize| {
        (0..count)
            .map(|index| format!("component-{index}"))
            .collect::<Vec<_>>()
            .join("/")
    };
    let accepted_path = deep_path(MAX_DIRECTORY_COMPONENTS);
    let mut accepted = workspace(0, vec![command_spec()], vec![coverage_spec()]);
    accepted.root = accepted_path.clone();
    accepted.commands[0].cwd = accepted_path.clone();
    accepted.coverage[0].cwd = accepted_path;
    assert!(validate(&config(vec![accepted])).is_ok());

    for path_kind in ["workspace root", "command cwd", "coverage cwd"] {
        let too_deep = deep_path(MAX_DIRECTORY_COMPONENTS + 1);
        let mut configured = workspace(0, vec![command_spec()], vec![coverage_spec()]);
        match path_kind {
            "workspace root" => configured.root = too_deep,
            "command cwd" => configured.commands[0].cwd = too_deep,
            "coverage cwd" => configured.coverage[0].cwd = too_deep,
            _ => unreachable!("table case is fixed"),
        }
        let error = error_text(validate(&config(vec![configured])));
        assert!(
            error.contains(&format!(
                "{path_kind} exceeds the maximum of {MAX_DIRECTORY_COMPONENTS}"
            )),
            "{path_kind}: {error}"
        );
    }
}

#[test]
fn rejects_command_or_coverage_cwds_outside_workspace_root() {
    for (command_cwd, coverage_cwd) in [
        (".", "services/api"),
        ("services/api", "services/other"),
        ("services/api2", "services/api"),
    ] {
        let mut configured = workspace(0, vec![command_spec()], vec![coverage_spec()]);
        configured.root = "services/api".to_string();
        configured.commands[0].cwd = command_cwd.to_string();
        configured.coverage[0].cwd = coverage_cwd.to_string();
        let error = error_text(validate(&config(vec![configured])));
        assert!(error.contains("cwd must equal or descend"));
    }
}

#[test]
fn rejects_nul_bytes_in_command_and_coverage_argv() {
    let mut command_config = config(vec![workspace(0, vec![command_spec()], Vec::new())]);
    command_config.workspaces[0].commands[0].argv = vec!["true\0".to_string()];
    assert!(error_text(validate(&command_config)).contains("NUL byte"));

    let mut coverage_config = config(vec![workspace(0, Vec::new(), vec![coverage_spec()])]);
    coverage_config.workspaces[0].coverage[0].argv = vec!["true\0".to_string()];
    assert!(error_text(validate(&coverage_config)).contains("NUL byte"));

    for path_kind in 0..3 {
        let mut path_config = config(vec![workspace(0, vec![command_spec()], vec![coverage_spec()])]);
        match path_kind {
            0 => path_config.workspaces[0].root = "workspace\0".to_string(),
            1 => path_config.workspaces[0].commands[0].cwd = "workspace\0".to_string(),
            _ => path_config.workspaces[0].coverage[0].cwd = "workspace\0".to_string(),
        }
        assert!(error_text(validate(&path_config)).contains("NUL bytes"));
    }
}

#[test]
fn diagnostic_sanitizer_streams_into_a_fixed_budget() {
    let hostile = "payload\u{0007}—".repeat(CONFIG_DIAGNOSTIC_MAX_BYTES);
    let diagnostic = sanitize_config_diagnostic(&hostile);
    assert!(diagnostic.len() <= CONFIG_DIAGNOSTIC_MAX_BYTES);
    assert!(!diagnostic.chars().any(char::is_control));
    assert!(diagnostic.ends_with('…'));
}

#[test]
fn short_diagnostic_keeps_its_visible_text() {
    assert_eq!(sanitize_config_diagnostic("bad\tvalue"), "badvalue");
}

#[test]
fn accepts_exact_v2_workspace_and_aggregate_command_limits() {
    let workspaces = (0..MAX_WORKSPACES)
        .map(|index| workspace(index, Vec::new(), Vec::new()))
        .collect();
    assert!(validate(&config(workspaces)).is_ok());

    let structured_at_limit = config(vec![
        workspace(0, vec![command_spec(); MAX_STRUCTURED_COMMANDS / 2], Vec::new()),
        workspace(1, vec![command_spec(); MAX_STRUCTURED_COMMANDS / 2], Vec::new()),
    ]);
    assert!(validate(&structured_at_limit).is_ok());

    let coverage_at_limit = config(vec![
        workspace(0, Vec::new(), vec![coverage_spec(); MAX_COVERAGE_COMMANDS / 2]),
        workspace(1, Vec::new(), vec![coverage_spec(); MAX_COVERAGE_COMMANDS / 2]),
    ]);
    assert!(validate(&coverage_at_limit).is_ok());
}

#[test]
fn rejects_the_first_v2_workspace_or_aggregate_command_over_limit() {
    let mut too_many_workspaces = (0..MAX_WORKSPACES)
        .map(|index| workspace(index, Vec::new(), Vec::new()))
        .collect::<Vec<_>>();
    too_many_workspaces.push(workspace(MAX_WORKSPACES, Vec::new(), Vec::new()));
    assert!(error_text(validate(&config(too_many_workspaces))).contains("64 workspaces"));

    let mut too_many_structured = vec![
        workspace(0, vec![command_spec(); MAX_STRUCTURED_COMMANDS / 2], Vec::new()),
        workspace(1, vec![command_spec(); MAX_STRUCTURED_COMMANDS / 2], Vec::new()),
    ];
    too_many_structured[1].commands.push(command_spec());
    assert!(error_text(validate(&config(too_many_structured))).contains("64 structured commands"));

    let mut too_many_coverage = vec![
        workspace(0, Vec::new(), vec![coverage_spec(); MAX_COVERAGE_COMMANDS / 2]),
        workspace(1, Vec::new(), vec![coverage_spec(); MAX_COVERAGE_COMMANDS / 2]),
    ];
    too_many_coverage[1].coverage.push(coverage_spec());
    assert!(error_text(validate(&config(too_many_coverage))).contains("64 coverage commands"));
}

#[test]
fn migrates_v1_commands_to_structured_argv() {
    let value = JsonValue::Object(vec![
        ("profile".to_string(), string("strict")),
        ("disabled_rules".to_string(), JsonValue::Array(vec![string("example")])),
        (
            "severity_overrides".to_string(),
            JsonValue::Object(vec![("example".to_string(), string("warning"))]),
        ),
        (
            "required_commands".to_string(),
            JsonValue::Object(vec![(
                "python".to_string(),
                JsonValue::Array(vec![string("uv run pytest"), string("ruff check .")]),
            )]),
        ),
    ]);
    let config = migrate_v1(&value).expect("migration succeeds");
    assert_eq!(config.version, "2");
    assert_eq!(config.workspaces[0].commands[0].argv, ["uv", "run", "pytest"]);
    assert_eq!(config.workspaces[0].commands[0].source, "v1-migration");
}

#[test]
fn refuses_shell_operators_in_v1_commands() {
    let value = JsonValue::Object(vec![(
        "required_commands".to_string(),
        JsonValue::Object(vec![(
            "python".to_string(),
            JsonValue::Array(vec![string("pytest | tee log")]),
        )]),
    )]);
    let error = migrate_v1(&value).expect_err("shell syntax must be refused");
    assert!(error.message().contains("without interpreting shell syntax"));
}

#[test]
fn refuses_unsupported_v1_severity_during_migration() {
    let value = JsonValue::Object(vec![
        (
            "severity_overrides".to_string(),
            JsonValue::Object(vec![("regression-test-required".to_string(), string("critical"))]),
        ),
        (
            "required_commands".to_string(),
            JsonValue::Object(vec![("rust".to_string(), JsonValue::Array(vec![string("cargo test")]))]),
        ),
    ]);
    let error = migrate_v1(&value).expect_err("unsupported severity must be refused");
    assert!(error
        .message()
        .contains("severity_overrides values must be one of: error, warning, info"));
}

const V2_DOCUMENT: &str = r#"{"version":"2","profile":"default","workspaces":[{"id":"workspace-0","language":"shell","root":".","commands":[{"argv":["true","--quiet"],"cwd":".","timeout_seconds":30,"tier":"full","purpose":"test","source":"fixture","confidence":"high","note":"ignored"}],"coverage":[{"argv":["true"],"cwd":".","timeout_seconds":30,"scope":"unit","line_threshold_percent":80,"branch_threshold_percent":null}]}],"disabled_rules":["rule-a"],"severity_overrides":{"rule-b":"warning"}}"#;

fn model(value: &serde_json::Value) -> JsonValue {
    match value {
        serde_json::Value::Null => JsonValue::Null,
        serde_json::Value::Bool(b) => JsonValue::Bool(*b),
        serde_json::Value::Number(n) => JsonValue::Number(n.as_u64(), n.to_string()),
        serde_json::Value::String(s) => JsonValue::String(s.clone()),
        serde_json::Value::Array(items) => JsonValue::Array(items.iter().map(model).collect()),
        serde_json::Value::Object(members) => {
            JsonValue::Object(members.iter().map(|(k, v)| (k.clone(), model(v))).collect())
        }
    }
}

fn json(text: &str) -> JsonValue {
    model(&serde_json::from_str(text).expect("document parses"))
}

#[test]
fn v2_document_is_read_and_validated() {
    let parsed = quality_gate::config_v2::parse(&json(V2_DOCUMENT)).expect("valid V2 document");
    let mut expected_command = command_spec();
    expected_command.argv.push("--quiet".to_string());
    let mut expected_coverage = coverage_spec();
    expected_coverage.line_threshold_percent = Some(80);
    let mut expected = config(vec![workspace(0, vec![expected_command], vec![expected_coverage])]);
    expected.disabled_rules = vec!["rule-a".to_string()];
    expected.severity_overrides = vec![("rule-b".to_string(), "warning".to_string())];
    assert_eq!(parsed, expected);
}

#[test]
fn v2_document_errors_name_the_first_failing_field() {
    let parse = |text: &str| quality_gate::config_v2::parse(&json(text)).expect_err("refused").message();
    assert_eq!(
        parse(r#"{"version":"2","extra":1}"#),
        "config V2 JSON is invalid: unknown field `extra`"
    );
    assert_eq!(parse(r#"{"version":"2"}"#), "config V2 JSON is invalid: missing field `profile`");
    assert_eq!(
        parse(r#"{"version":"2","profile":"p","workspaces":[{"id":"w","language":"l","root":".","commands":[{"argv":"true"}]}],"disabled_rules":[],"severity_overrides":{}}"#),
        "config V2 JSON is invalid: invalid type for field `argv`"
    );
    assert_eq!(
        parse(r#"{"version":"3","profile":"p","workspaces":[],"disabled_rules":[],"severity_overrides":{}}"#),
        "config V2 is invalid: expected version 2, found 3"
    );
}

#[test]
fn configuration_text_becomes_settings() {
    let blank = settings_from_text(" \n").expect("blank text is the defaults");
    assert!(blank.commands.is_empty() && blank.structured.is_empty() && blank.coverage.is_empty());
    assert_eq!(blank.timeout_seconds, 30);
    assert_eq!(
        settings_from_text("{").expect_err("malformed"),
        "parse required commands (EOF while parsing an object at line 1 column 1)"
    );
    let v1 = settings_from_text(r#"{"command_timeout_seconds":45,"required_commands":{"python":["pytest -q"]}}"#)
        .expect("V1 document");
    assert_eq!(v1.commands, vec!["pytest -q".to_string()]);
    assert_eq!(v1.timeout_seconds, 45);
    let v2 = settings_from_text(V2_DOCUMENT).expect("V2 document");
    assert_eq!(v2.commands, vec!["true --quiet".to_string()]);
    assert_eq!(v2.structured.len(), 1);
    assert_eq!(v2.coverage.len(), 1);
    assert_eq!(
        settings_from_text(r#"{"version":"2"}"#).expect_err("incomplete V2"),
        "config V2 JSON is invalid: missing field `profile`"
    );
}

#[test]
fn settings_text_groups_commands_and_enforces_cap() {
    let grouped = settings_from_text(r#"{"required_commands":{"python":["ruff check ."],"tests":["cargo test"]}}"#)
        .expect("grouped commands");
    assert_eq!(grouped.commands.len(), 2);
    let too_many = format!("{{\"required_commands\":{{\"all\":[{}]}}}}", vec!["\"true\""; 65].join(","));
    assert!(settings_from_text(&too_many).expect_err("over the cap").contains("exceeds 64"));
}

#[test]
fn settings_text_uses_default_and_validates_custom_timeout() {
    assert_eq!(settings_from_text("{}").expect("empty object").timeout_seconds, 30);
    assert_eq!(settings_from_text(r#"{"command_timeout_seconds":2}"#).expect("custom").timeout_seconds, 2);
    for invalid in ["0", "3601", "\"30\""] {
        assert!(settings_from_text(&format!(r#"{{"command_timeout_seconds":{invalid}}}"#)).is_err());
    }
}
