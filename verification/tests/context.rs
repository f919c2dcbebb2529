use quality_gate::context::commands::command_category;
use quality_gate::context::signals::add_path_observations;
use quality_gate::context::{build, TaskContext, MAX_DIFF_BYTES};
use quality_gate::detect::{detect, Detection, RootProbe};

/// The Python service repository the context tests run against: a
/// `pyproject.toml` that names FastAPI and configures ruff, mypy and pytest,
/// a `src` directory, an API route and a storage service.
const PYPROJECT: &str = "[project]\nname = \"events\"\ndependencies = [\"fastapi\"]\n\n\
[tool.ruff]\nline-length = 88\n\n[tool.mypy]\nstrict = true\n\n[tool.pytest.ini_options]\ntestpaths = [\"tests\"]\n";
const ROUTE: &str = "from fastapi import APIRouter\nfrom .auth import current_user\n\nrouter = APIRouter()\n\n\
@router.post(\"/events\")\ndef create_event(payload: dict) -> dict:\n    return payload\n";
const STORE: &str = "from sqlalchemy.orm import Session\n\n\ndef save(session: Session, event: object) -> None:\n    session.add(event)\n";

fn fixture_detection() -> Detection {
    detect(&RootProbe {
        git: true,
        pyproject: true,
        setup_py: false,
        setup_cfg: false,
        requirements: false,
        top_level_py: false,
        pyproject_text: PYPROJECT.to_string(),
        src_dir: true,
    })
}

fn fixture_contents() -> Vec<(String, String)> {
    vec![
        ("src/routes/events.py".to_string(), ROUTE.to_string()),
        ("src/services/store.py".to_string(), STORE.to_string()),
    ]
}

fn build_in_fixture(paths: &[String], diff: &str) -> TaskContext {
    build(&fixture_detection(), &paths.to_vec(), &fixture_contents(), PYPROJECT, diff)
}

fn commands_for<'a>(context: &'a TaskContext, category: &str) -> &'a [String] {
    &context
        .repository_commands
        .iter()
        .find(|(name, _)| name == category)
        .expect("category present")
        .1
}

#[test]
fn groups_known_commands_by_purpose() {
    assert_eq!(command_category("ruff check ."), "lint");
    assert_eq!(command_category("mypy --strict src"), "types");
    assert_eq!(command_category("pytest"), "tests");
    assert_eq!(command_category("cargo fmt --check"), "format");
    assert_eq!(command_category("cargo clippy"), "lint");
    assert_eq!(command_category("cargo test"), "tests");
}

#[test]
fn derives_context_from_fixture_repo_and_diff() {
    let paths = vec![
        "src/routes/events.py".to_string(),
        "src/services/store.py".to_string(),
        "src/routes/events.py".to_string(),
    ];
    let diff = "+    session.commit()\n+    requests.post(url)\n";
    let context = build_in_fixture(&paths, diff);

    assert_eq!(context.languages, ["python"]);
    assert_eq!(context.domains, ["api", "database"]);
    assert_eq!(context.files_touched, ["src/routes/events.py", "src/services/store.py"]);
    assert_eq!(
        context.risk_signals,
        [
            "authentication",
            "database-client",
            "database-write",
            "http-client",
            "public-api"
        ]
    );
    assert_eq!(commands_for(&context, "lint"), ["ruff check ."]);
    assert_eq!(commands_for(&context, "types"), ["mypy --strict src"]);
    assert_eq!(commands_for(&context, "tests"), ["pytest"]);
}

#[test]
fn rejects_hostile_paths_and_bounds_diff_without_panicking() {
    let huge_diff = format!("{}é", "x".repeat(MAX_DIFF_BYTES));
    let paths = vec![
        "../secret.py".to_string(),
        "..\\secret.py".to_string(),
        "/etc/passwd".to_string(),
        "C:\\Windows\\system.ini".to_string(),
        "src/routes/events.py".to_string(),
    ];
    let context = build_in_fixture(&paths, &huge_diff);
    assert_eq!(context.files_touched, ["src/routes/events.py"]);
}

#[test]
fn output_order_is_stable_across_input_order() {
    let first = vec!["z.rs".to_string(), "a.py".to_string()];
    let second = vec!["a.py".to_string(), "z.rs".to_string()];
    assert_eq!(build_in_fixture(&first, ""), build_in_fixture(&second, ""));
}

#[test]
fn derives_framework_domain_from_repository_metadata() {
    let context = build_in_fixture(&[], "");
    assert_eq!(context.domains, ["api"]);
}

#[test]
fn derives_exception_handler_signals_from_diff() {
    let context = build_in_fixture(
        &["src/services/store.py".to_string()],
        "+try:\n+    work()\n+except:\n+    pass\n",
    );
    assert!(context.risk_signals.contains(&"try-except".to_string()));
    assert!(context.risk_signals.contains(&"bare-except".to_string()));
}

fn path_observations(path: &str) -> (Vec<String>, Vec<String>) {
    let mut languages = Vec::new();
    let mut domains = Vec::new();
    let mut risks = Vec::new();
    add_path_observations(path, &mut languages, &mut domains, &mut risks);
    (domains, risks)
}

fn assert_empty_path_observations(path: &str) {
    let (domains, risks) = path_observations(path);
    assert!(domains.is_empty(), "unexpected domain for path: {path}");
    assert!(risks.is_empty(), "unexpected risk for path: {path}");
}

#[test]
fn directory_domain_signals_require_a_descendant_file() {
    for (paths, domain) in [
        (["routes/handler.rs", "src/routes/handler.rs"], "api"),
        (["api/handler.rs", "src/api/handler.rs"], "api"),
        (["models/entity.rs", "src/models/entity.rs"], "database"),
        (["migrations/001.rs", "src/migrations/001.rs"], "database"),
        (["workers/job.rs", "src/workers/job.rs"], "worker"),
        (["components/view.tsx", "src/components/view.tsx"], "frontend"),
    ] {
        for path in paths {
            let (domains, risks) = path_observations(path);
            assert_eq!(domains, [domain], "path: {path}");
            assert!(risks.is_empty(), "unexpected risk for path: {path}");
        }
    }

    let (domains, risks) = path_observations(".github/workflows/ci.yml");
    assert_eq!(domains, ["infrastructure"]);
    assert!(risks.is_empty());

    for path in ["terraform/main.tf", "src/terraform/main.tf", "terraform.tf", "src/terraform.tf"] {
        let (domains, risks) = path_observations(path);
        assert_eq!(domains, ["infrastructure"], "path: {path}");
        assert!(risks.is_empty(), "unexpected risk for path: {path}");
    }

    for path in [
        "routes",
        "src/routes",
        "api",
        "src/api",
        "models",
        "src/models",
        "migrations",
        "src/migrations",
        "workers",
        "src/workers",
        "components",
        "src/components",
        "src/routes2/handler.rs",
        "src/api2/handler.rs",
        "src/models2/entity.rs",
        "src/migrations2/001.rs",
        "src/workers2/job.rs",
        "src/components2/view.rs",
        "routes.py",
        "api.py",
        "models.py",
        "migrations.py",
        "workers.py",
        "components.py",
        "routes.v1/handler.rs",
        "src/routes.v1/handler.rs",
        "api.v1/handler.rs",
        "src/api.v1/handler.rs",
        "models.v1/entity.rs",
        "src/models.v1/entity.rs",
        "migrations.v1/001.rs",
        "src/migrations.v1/001.rs",
        "workers.v1/job.rs",
        "src/workers.v1/job.rs",
        "components.v1/view.rs",
        "src/components.v1/view.rs",
        "src/terraformer/main.tf",
        "src/terraformer.tf",
        "github/workflows/ci.yml",
        ".github2/workflows/ci.yml",
        ".github/workflows2/ci.yml",
        ".github/actions/workflows/ci.yml",
        ".github/workflows",
        "src/.github/workflows",
        "terraform.tf/main.rs",
        "src/terraform.tf/main.rs",
        "terraform.v1/main.rs",
        "src/terraform.v1/main.rs",
    ] {
        assert_empty_path_observations(path);
    }
}

#[test]
fn github_workflows_requires_workflows_to_be_a_directory() {
    for path in [
        ".github/workflows/ci.yml",
        "src/.github/workflows/ci.yml",
        ".github/.github/workflows/ci.yml",
    ] {
        let (domains, risks) = path_observations(path);
        assert_eq!(domains, ["infrastructure"], "path: {path}");
        assert!(risks.is_empty(), "unexpected risk for path: {path}");
    }

    for path in [
        ".github/workflows",
        "src/.github/workflows",
        "github/workflows",
        ".github2/workflows",
        ".github/workflows2",
        ".github/actions/workflows",
        "github/workflows/ci.yml",
        ".github2/workflows/ci.yml",
        ".github/workflows2/ci.yml",
        ".github/actions/workflows/ci.yml",
    ] {
        assert_empty_path_observations(path);
    }
}

#[test]
fn path_security_observations_cover_complete_boundary_matrix() {
    for name in ["auth", "security", "permissions", "oauth"] {
        for path in [
            format!("{name}/handler.rs"),
            format!("src/{name}/handler.rs"),
            format!("{name}.rs"),
            format!("src/{name}.rs"),
        ] {
            let (domains, risks) = path_observations(&path);
            assert!(domains.is_empty(), "unexpected domain for path: {path}");
            assert_eq!(risks, ["authentication"], "path: {path}");
        }
    }

    for name in ["author", "security-tools", "permissions2", "oauth2"] {
        for path in [
            format!("{name}/handler.rs"),
            format!("src/{name}/handler.rs"),
            format!("{name}.rs"),
            format!("src/{name}.rs"),
        ] {
            assert_empty_path_observations(&path);
        }
    }
}

#[test]
fn exact_component_signals_cover_terminal_and_both_lookalike_sides() {
    for name in ["auth", "security", "permissions", "oauth"] {
        for path in [name.to_string(), format!("src/{name}")] {
            let (domains, risks) = path_observations(&path);
            assert!(domains.is_empty(), "unexpected domain for path: {path}");
            assert_eq!(risks, ["authentication"], "path: {path}");
        }

        for path in [
            format!("my{name}/handler.rs"),
            format!("src/my{name}/handler.rs"),
            format!("my{name}.rs"),
            format!("src/my{name}.rs"),
        ] {
            assert_empty_path_observations(&path);
        }
    }

    for path in ["terraform", "src/terraform"] {
        let (domains, risks) = path_observations(path);
        assert_eq!(domains, ["infrastructure"], "path: {path}");
        assert!(risks.is_empty(), "unexpected risk for path: {path}");
    }

    for path in [
        "myterraform/main.tf",
        "src/myterraform/main.tf",
        "myterraform.tf",
        "src/myterraform.tf",
        "myroutes/handler.rs",
        "src/myroutes/handler.rs",
        "myapi/handler.rs",
        "src/myapi/handler.rs",
        "mymodels/entity.rs",
        "src/mymodels/entity.rs",
        "mymigrations/001.rs",
        "src/mymigrations/001.rs",
        "myworkers/job.rs",
        "src/myworkers/job.rs",
        "mycomponents/view.tsx",
        "src/mycomponents/view.tsx",
        ".github/myworkflows/ci.yml",
        "src/.github/myworkflows/ci.yml",
        "x.github/workflows/ci.yml",
        "src/x.github/workflows/ci.yml",
    ] {
        assert_empty_path_observations(path);
    }
}

#[test]
fn filename_stems_split_at_the_last_dot() {
    for name in ["auth", "security", "permissions", "oauth"] {
        for path in [format!("{name}.py"), format!("src/{name}.py")] {
            let (domains, risks) = path_observations(&path);
            assert!(domains.is_empty(), "unexpected domain for path: {path}");
            assert_eq!(risks, ["authentication"], "path: {path}");
        }

        for suffix in ["py", "v1"] {
            for path in [
                format!("{name}.{suffix}/helpers.rs"),
                format!("src/{name}.{suffix}/helpers.rs"),
            ] {
                assert_empty_path_observations(&path);
            }
        }

        for path in [format!("{name}.feature.py"), format!("src/{name}.feature.py")] {
            assert_empty_path_observations(&path);
        }
    }

    for path in ["terraform.tf", "src/terraform.tf"] {
        let (domains, risks) = path_observations(path);
        assert_eq!(domains, ["infrastructure"], "path: {path}");
        assert!(risks.is_empty(), "unexpected risk for path: {path}");
    }
    for path in [
        "terraform.tf/main.rs",
        "src/terraform.tf/main.rs",
        "terraform.v1/main.rs",
        "src/terraform.v1/main.rs",
        "terraform.feature.tf",
        "src/terraform.feature.tf",
    ] {
        assert_empty_path_observations(path);
    }
}
