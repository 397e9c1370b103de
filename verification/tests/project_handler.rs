use mental_os::project_handler::{ProjectHandler, ProjectRequest};
use mental_os::workspace::ProjectCommands;
use std::path::PathBuf;

fn test_handler() -> ProjectHandler {
    ProjectHandler::new(PathBuf::from("/tmp"), "opencode".to_string())
}

#[test]
fn detects_create_intent() {
    let handler = test_handler();
    let request = handler.detect_project_intent("Create a Rust web server");
    assert!(request.is_some());
    let req = request.unwrap();
    assert_eq!(req.name, "Rust");
}

#[test]
fn does_not_detect_pronoun_as_project_name() {
    let handler = test_handler();
    let request = handler.detect_project_intent("build this");
    assert!(request.is_none());
}

#[test]
fn detects_build_intent() {
    let handler = test_handler();
    let request = handler.detect_project_intent("Build a Python web scraper");
    assert!(request.is_some());
    let req = request.unwrap();
    assert_eq!(req.name, "Python");
}

#[test]
fn detects_with_language() {
    let handler = test_handler();
    let request = handler.detect_project_intent("Create a new React app with typescript");
    assert!(request.is_some());
    let req = request.unwrap();
    assert_eq!(req.language, Some("typescript".to_string()));
}

#[test]
fn normalizes_language() {
    assert_eq!(ProjectHandler::normalize_language("rs"), "rust");
    assert_eq!(ProjectHandler::normalize_language("python"), "python");
    assert_eq!(ProjectHandler::normalize_language("js"), "javascript");
    assert_eq!(ProjectHandler::normalize_language("go"), "go");
}

#[test]
fn language_aliases_and_unknown_names() {
    assert_eq!(ProjectHandler::normalize_language("C#"), "csharp");
    assert_eq!(ProjectHandler::normalize_language("Golang"), "go");
    assert_eq!(ProjectHandler::normalize_language("Elixir"), "elixir");
    assert!(ProjectHandler::looks_like_non_project_pronoun("THAT"));
    assert!(!ProjectHandler::looks_like_non_project_pronoun("notes"));
}

#[test]
fn scaffold_prompt_names_language_framework_and_description() {
    let req = ProjectRequest {
        name: "blog".to_string(),
        language: Some("rust".to_string()),
        framework: Some("axum".to_string()),
        description: Some("A tiny blog".to_string()),
        auto_setup: true,
    };
    let prompt = ProjectHandler::build_scaffold_prompt(&req);
    assert_eq!(
        prompt,
        "Create a new rust project called 'blog' using axum. A tiny blog. Set up the basic project structure with:\n- Proper package.json/Cargo.toml/etc. configuration\n- Basic main entry point\n- A setup command that installs dependencies\n- A run command to start the project\n- A test command if applicable"
    );
    let bare = ProjectRequest { language: None, framework: None, description: None, ..req };
    assert!(ProjectHandler::build_scaffold_prompt(&bare).starts_with("Create a new application project called 'blog'. Set up"));
}

#[test]
fn commands_are_read_from_agent_output() {
    let out = "Done.\nSetup: cargo build  \nRun: cargo run --release\nTest: cargo test\n";
    let c = ProjectHandler::extract_commands_from_output(out);
    assert_eq!(c.setup, Some("cargo build".to_string()));
    assert_eq!(c.run, Some("cargo run --release".to_string()));
    assert_eq!(c.test, Some("cargo test".to_string()));
    let none = ProjectHandler::extract_commands_from_output("all files were written");
    assert!(none.setup.is_none());
    assert!(none.run.is_none());
    assert!(none.test.is_none());
    let install = ProjectHandler::extract_commands_from_output("npm install finished");
    assert_eq!(install.setup, Some("finished".to_string()));
}

#[test]
fn scaffold_response_reports_setup_command() {
    let req = ProjectRequest {
        name: "demo".to_string(),
        language: None,
        framework: None,
        description: None,
        auto_setup: true,
    };
    let r = ProjectHandler::scaffold_response(&req, "/tmp/demo", "nothing useful");
    assert!(r.success);
    assert_eq!(r.path, Some("/tmp/demo".to_string()));
    assert_eq!(
        r.message,
        "Created project 'demo' at /tmp/demo. You can run setup with: cargo build"
    );
    let f = ProjectHandler::workspace_failure_response("Workspace name is empty");
    assert!(!f.success);
    assert_eq!(f.message, "Failed to create workspace: Workspace name is empty");
}

#[test]
fn project_commands_are_picked_by_kind() {
    let handler = test_handler();
    let cmds = ProjectCommands {
        setup: Some("make".to_string()),
        run: None,
        test: Some("make check".to_string()),
    };
    assert_eq!(handler.resolve_project_command(Some(cmds.clone()), "test").unwrap(), "make check");
    let err = handler.resolve_project_command(Some(cmds), "run").unwrap_err();
    assert_eq!(format!("{:?}", err), "Other(\"No run command found\")");
    assert!(handler.resolve_project_command(None, "setup").is_err());
    let h = test_handler().with_args(vec!["agent".to_string()]);
    assert_eq!(h.opencode_path(), "opencode");
    assert_eq!(h.opencode_args(), &vec!["agent".to_string()]);
    assert_eq!(h.workspace_manager().workspace_root(), &PathBuf::from("/tmp"));
}
