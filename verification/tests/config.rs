use mental_os::config::{
    expand_tilde, expand_tilde_to_string, expand_tilde_with, wizard_config, Config, WizardForm,
};
use std::path::{Path, PathBuf};

#[test]
fn default_values_are_set() {
    let config = Config::default();
    assert_eq!(config.ai.provider, "openclaw");
    assert_eq!(config.ai.model, "phi3:mini");
    assert!(config.ai.fallback_to_ollama);
    assert_eq!(config.ai.context_messages, 20);
    assert_eq!(config.openclaw.endpoint, "http://127.0.0.1:18789");
    assert_eq!(config.openclaw.request_path, "/agent");
    assert_eq!(config.openclaw.transport, "cli");
    assert_eq!(config.openclaw.cli_path, "openclaw");
    assert!(!config.openclaw.auto_start);
    assert_eq!(config.ollama.endpoint, "http://127.0.0.1:11434");
    assert_eq!(config.ollama.model, "phi3:mini");
    assert_eq!(config.paths.workspace_dir, "~/workspaces");
    assert!(config.agents.is_empty());
}

#[test]
fn expand_tilde_preserves_absolute_path() {
    let result = expand_tilde("/absolute/path").unwrap();
    assert_eq!(PathBuf::from(result), PathBuf::from("/absolute/path"));
}

#[test]
fn normalize_paths_expands_tilde_in_workspace_dir() {
    let mut config = Config::default();
    config.paths.workspace_dir = "~/my-workspaces".to_string();
    config.normalize_paths().unwrap();
    assert!(!config.paths.workspace_dir.starts_with('~'));
}

#[test]
fn normalize_paths_leaves_absolute_workspace_unchanged() {
    let mut config = Config::default();
    config.paths.workspace_dir = "/workspaces".to_string();
    config.normalize_paths().unwrap();
    assert_eq!(config.paths.workspace_dir, "/workspaces");
}

#[test]
fn workspace_dir_resolves_tilde() {
    let config = Config::default();
    let result = config.workspace_dir().unwrap();
    assert!(Path::new(&result).is_absolute());
    assert!(result.contains("workspaces"));
}

#[test]
fn expand_tilde_with_given_home() {
    assert_eq!(
        expand_tilde_with("~/docs", Some("/home/ada".to_string())).unwrap(),
        "/home/ada/docs"
    );
    assert_eq!(expand_tilde_with("~", Some("/home/ada".to_string())).unwrap(), "/home/ada");
    assert_eq!(
        expand_tilde_with("~/~/x", Some("/home/ada".to_string())).unwrap(),
        "/home/ada/x"
    );
    assert_eq!(expand_tilde_with("~ada", None).unwrap(), "~ada");
    assert_eq!(
        format!("{:?}", expand_tilde_with("~/docs", None).unwrap_err()),
        "ConfigInvalid(\"No home dir\")"
    );
}

#[test]
fn expand_tilde_to_string_keeps_relative_paths() {
    assert_eq!(expand_tilde_to_string("notes/todo").unwrap(), "notes/todo");
}

fn sample_form(provider_index: usize) -> WizardForm {
    WizardForm {
        provider_index,
        openclaw_endpoint: "http://10.0.0.5:9000".to_string(),
        openclaw_http: true,
        openclaw_token: "tok".to_string(),
        openclaw_auto_start: true,
        openclaw_cli_path: "/opt/openclaw".to_string(),
        ollama_endpoint: "http://10.0.0.6:11434".to_string(),
        ollama_model: "llama3".to_string(),
        workspace_dir: "~/projects".to_string(),
    }
}

#[test]
fn wizard_saves_openclaw_settings() {
    let config = wizard_config(sample_form(0));
    assert_eq!(config.ai.provider, "openclaw");
    assert_eq!(config.openclaw.endpoint, "http://10.0.0.5:9000");
    assert_eq!(config.openclaw.transport, "http");
    assert_eq!(config.openclaw.token, "tok");
    assert!(config.openclaw.auto_start);
    assert_eq!(config.openclaw.cli_path, "/opt/openclaw");
    assert_eq!(config.ollama.endpoint, "http://127.0.0.1:11434");
    assert_eq!(config.ollama.model, "phi3:mini");
    assert_eq!(config.paths.workspace_dir, "~/projects");
}

#[test]
fn wizard_saves_ollama_settings_and_keeps_openclaw_defaults() {
    let config = wizard_config(sample_form(1));
    assert_eq!(config.ai.provider, "ollama");
    assert_eq!(config.ollama.endpoint, "http://10.0.0.6:11434");
    assert_eq!(config.ollama.model, "llama3");
    assert_eq!(config.openclaw.endpoint, "http://127.0.0.1:18789");
    assert_eq!(config.openclaw.transport, "cli");
    assert!(!config.openclaw.auto_start);
}

#[test]
fn wizard_out_of_range_entry_falls_back_to_openclaw() {
    let config = wizard_config(sample_form(9));
    assert_eq!(config.ai.provider, "openclaw");
    let config = wizard_config(sample_form(2));
    assert_eq!(config.ai.provider, "deepseek");
    assert_eq!(config.ollama.model, "phi3:mini");
    assert_eq!(config.openclaw.cli_path, "openclaw");
}

#[test]
fn expand_tilde_replaces_tilde_with_home() {
    if let Some(home) = directories::BaseDirs::new().map(|d| d.home_dir().to_path_buf()) {
        let result = expand_tilde("~/test").unwrap();
        assert_eq!(PathBuf::from(result), home.join("test"));

        let result = expand_tilde("~").unwrap();
        assert_eq!(PathBuf::from(result), home);
    }
}

#[test]
fn expand_tilde_to_string_works() {
    if let Some(home) = directories::BaseDirs::new().map(|d| d.home_dir().to_path_buf()) {
        let result = expand_tilde_to_string("~/docs").unwrap();
        assert_eq!(result, home.join("docs").to_string_lossy().to_string());
    }
}
