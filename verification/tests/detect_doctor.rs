use quality_gate::detect::{detect, has_pytest_table, has_toml_table, python_commands, RootProbe};
use quality_gate::discovery::Workspace;
use quality_gate::doctor::{path_candidates, probe_status, recommendations, ProbeStatus};

fn workspace(language: &str) -> Workspace {
    Workspace {
        id: language.to_string(),
        language: language.to_string(),
        root: ".".to_string(),
        commands: Vec::new(),
        coverage: Vec::new(),
    }
}

#[test]
fn has_toml_table_is_line_anchored() {
    let text = "[tool.ruff]\nline-length = 88\n";
    assert!(has_toml_table(text, "tool.ruff"));
    assert!(!has_toml_table("# ruff is great\n", "tool.ruff"));
    assert!(!has_toml_table("[tool.ruff.lint]\n", "tool.ruff"));
}

#[test]
fn has_pytest_table_matches_ini_options() {
    assert!(has_pytest_table("[tool.pytest.ini_options]\n"));
    assert!(!has_pytest_table("dependencies = [\"pytest\"]\n"));
}

#[test]
fn configured_python_tools_are_required_in_order() {
    let text = "[tool.pytest.ini_options]\n[tool.ruff]\n";
    assert_eq!(python_commands(text, false), vec!["ruff check .", "pytest"]);
    assert_eq!(
        python_commands("", true),
        vec!["ruff check .", "mypy --strict src", "pytest"]
    );
}

#[test]
fn oversized_pyproject_falls_back_to_standard_trio() {
    let probe = RootProbe {
        git: true,
        pyproject: true,
        setup_py: false,
        setup_cfg: false,
        requirements: false,
        top_level_py: false,
        pyproject_text: String::new(),
        src_dir: false,
    };
    let detection = detect(&probe);
    assert!(detection.is_git_repo);
    assert_eq!(detection.languages, vec!["python"]);
    assert_eq!(
        detection.required_commands,
        vec![(
            "python".to_string(),
            vec![
                "ruff check .".to_string(),
                "mypy --strict .".to_string(),
                "pytest".to_string()
            ]
        )]
    );
}

#[test]
fn no_python_markers_detect_nothing() {
    let probe = RootProbe {
        git: false,
        pyproject: false,
        setup_py: false,
        setup_cfg: false,
        requirements: false,
        top_level_py: false,
        pyproject_text: String::new(),
        src_dir: true,
    };
    let detection = detect(&probe);
    assert!(!detection.is_git_repo);
    assert!(detection.languages.is_empty());
    assert!(detection.required_commands.is_empty());
}

#[test]
fn recommendations_are_relevant_deduplicated_and_stable() {
    let recommendations = recommendations(&vec![
        workspace("rust"),
        workspace("python"),
        workspace("rust"),
        workspace("unknown"),
    ]);
    assert_eq!(
        recommendations.iter().map(|server| server.command).collect::<Vec<_>>(),
        ["pyright", "rust-analyzer"]
    );
}

#[test]
fn unknown_languages_have_no_recommendation() {
    assert!(recommendations(&vec![workspace("haskell")]).is_empty());
}

#[test]
fn rustup_proxy_is_reported_as_unverified() {
    assert_eq!(probe_status("rust-analyzer", None), ProbeStatus::Missing);
    assert_eq!(probe_status("rust-analyzer", Some(true)), ProbeStatus::UnverifiedRustupProxy);
    assert_eq!(probe_status("rust-analyzer", Some(false)), ProbeStatus::Ready);
    assert_eq!(probe_status("pyright", Some(true)), ProbeStatus::Ready);
}

#[test]
fn windows_candidates_take_each_pathext_extension() {
    assert_eq!(path_candidates("gopls", false, ".EXE;.CMD"), vec!["gopls"]);
    assert_eq!(
        path_candidates("gopls", true, ".EXE;;.CMD"),
        vec!["gopls.EXE", "gopls.CMD"]
    );
    assert_eq!(path_candidates("gopls.exe", true, ".EXE;.CMD"), vec!["gopls.exe"]);
}
