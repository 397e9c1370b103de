use mental_os::agent_manager::{AgentManager, AgentStatus};
use mental_os::config::AgentConfig;
use std::collections::HashMap;
use std::path::PathBuf;

fn test_agent(name: &str) -> AgentConfig {
    AgentConfig {
        name: name.to_string(),
        description: None,
        provider: "openclaw".to_string(),
        model: None,
        endpoint: None,
        executable: None,
        arguments: None,
    }
}

fn pairs(agents: HashMap<String, AgentConfig>) -> Vec<(String, AgentConfig)> {
    agents.into_iter().collect()
}

#[test]
fn switches_between_agents() {
    let mut manager = AgentManager::new(PathBuf::from("/tmp"));

    let mut agents = HashMap::new();
    agents.insert("openclaw".to_string(), test_agent("OpenClaw"));
    agents.insert("ollama".to_string(), test_agent("Ollama"));

    manager.load_agents(pairs(agents));

    assert_eq!(manager.get_active_agent_name(), "openclaw");

    let result = manager.switch_agent("ollama").unwrap();
    assert!(result.contains("Ollama"));
    assert_eq!(manager.get_active_agent_name(), "ollama");
}

#[test]
fn case_insensitive_switch() {
    let mut manager = AgentManager::new(PathBuf::from("/tmp"));

    let mut agents = HashMap::new();
    agents.insert("OpenClaw".to_string(), test_agent("OpenClaw"));

    manager.load_agents(pairs(agents));

    let result = manager.switch_agent("openclaw").unwrap();
    assert!(result.contains("OpenClaw"));
}

#[test]
fn lists_all_agents() {
    let mut manager = AgentManager::new(PathBuf::from("/tmp"));

    let mut agents = HashMap::new();
    agents.insert("ollama".to_string(), test_agent("Ollama"));
    agents.insert("openclaw".to_string(), test_agent("OpenClaw"));
    agents.insert("copilot".to_string(), test_agent("Copilot"));

    manager.load_agents(pairs(agents));

    let list = manager.list_agents();

    assert_eq!(list, vec!["copilot", "ollama", "openclaw"]);
}

#[test]
fn add_and_get_agent() {
    let mut manager = AgentManager::new(PathBuf::from("/tmp"));
    manager.add_agent("custom".to_string(), test_agent("Custom"));

    let agent = manager.get_agent("custom");
    assert!(agent.is_some());
    assert_eq!(agent.unwrap().name, "Custom");

    assert!(manager.get_agent("nonexistent").is_none());
}

#[test]
fn remove_agent_fails_for_active() {
    let mut manager = AgentManager::new(PathBuf::from("/tmp"));
    let mut agents = HashMap::new();
    agents.insert("active".to_string(), {
        let mut cfg = test_agent("ActiveAgent");
        cfg.executable = Some("default".to_string());
        cfg
    });
    manager.load_agents(pairs(agents));

    assert!(!manager.remove_agent("active"));
    assert!(manager.get_agent("active").is_some());
}

#[test]
fn remove_agent_succeeds_for_inactive() {
    let mut manager = AgentManager::new(PathBuf::from("/tmp"));
    let mut agents = HashMap::new();
    agents.insert("primary".to_string(), test_agent("Primary"));
    agents.insert("secondary".to_string(), test_agent("Secondary"));
    manager.load_agents(pairs(agents));
    manager.switch_agent("secondary").unwrap();

    assert!(manager.remove_agent("primary"));
    assert!(manager.get_agent("primary").is_none());
}

#[test]
fn get_all_statuses_returns_correct_states() {
    let mut manager = AgentManager::new(PathBuf::from("/tmp"));
    let mut agents = HashMap::new();
    agents.insert("openclaw".to_string(), test_agent("OpenClaw"));
    agents.insert("ollama".to_string(), test_agent("Ollama"));
    manager.load_agents(pairs(agents));

    let statuses: HashMap<String, AgentStatus> =
        manager.get_all_statuses(&Vec::new()).into_iter().collect();
    assert_eq!(statuses.get("openclaw"), Some(&AgentStatus::Active));
    assert_eq!(statuses.get("ollama"), Some(&AgentStatus::Available));
}

#[test]
fn is_local_agent_and_executable_path() {
    let mut manager = AgentManager::new(PathBuf::from("/tmp"));
    let mut cfg = test_agent("LocalAgent");
    cfg.executable = Some("/usr/bin/some-tool".to_string());
    manager.add_agent("local".to_string(), cfg);

    assert!(manager.is_local_agent("local"));
    assert_eq!(
        manager.get_executable_path("local"),
        Some("/usr/bin/some-tool".to_string())
    );
    assert!(manager.get_cli_args("local").is_none());

    assert!(!manager.is_local_agent("openclaw"));
    assert!(manager.get_executable_path("openclaw").is_none());
}

#[test]
fn get_agent_status_not_found() {
    let manager = AgentManager::new(PathBuf::from("/tmp"));
    assert_eq!(manager.get_agent_status("ghost", &Vec::new()), AgentStatus::NotFound);
}

#[test]
fn get_agent_status_active_and_available() {
    let mut manager = AgentManager::new(PathBuf::from("/tmp"));
    let mut agents = HashMap::new();
    agents.insert("a1".to_string(), test_agent("A1"));
    agents.insert("a2".to_string(), test_agent("A2"));
    manager.load_agents(pairs(agents));
    manager.switch_agent("a1").unwrap();

    assert_eq!(manager.get_agent_status("a1", &Vec::new()), AgentStatus::Active);
    assert_eq!(manager.get_agent_status("a2", &Vec::new()), AgentStatus::Available);
}

#[test]
fn local_agent_status_follows_the_search_path() {
    let mut manager = AgentManager::new(PathBuf::from("/tmp"));
    let mut cfg = test_agent("Local");
    cfg.executable = Some("opencode-default".to_string());
    manager.load_agents(vec![("local".to_string(), cfg)]);
    // an executable containing "default" makes the agent active
    assert_eq!(manager.get_active_agent_name(), "local");
    assert_eq!(manager.get_agent_status("local", &Vec::new()), AgentStatus::Unavailable);
    assert_eq!(
        manager.get_agent_status("local", &vec!["opencode-default".to_string()]),
        AgentStatus::Active
    );
}

#[test]
fn switch_to_unknown_agent_is_an_error() {
    let mut manager = AgentManager::new(PathBuf::from("/tmp"));
    manager.load_agents(vec![("a".to_string(), test_agent("A"))]);
    let err = manager.switch_agent("zzz").unwrap_err();
    assert_eq!(format!("{:?}", err), "Other(\"Agent 'zzz' not found\")");
    assert_eq!(manager.get_active_agent_name(), "openclaw");
}

#[test]
fn loading_without_local_agents_keeps_openclaw_active() {
    let mut manager = AgentManager::new(PathBuf::from("/tmp"));
    manager.load_agents(vec![("b".to_string(), test_agent("B")), ("a".to_string(), test_agent("A"))]);
    assert_eq!(manager.get_active_agent_name(), "openclaw");
    assert!(manager.get_active_agent().is_none());
    assert_eq!(manager.list_agents(), vec!["a", "b"]);
}
