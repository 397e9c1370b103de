use mental_os::config::{AgentConfig, Config};
use mental_os::error::MentalOSError;
use mental_os::openclaw::{
    endpoint_host_port, endpoint_port, port_of_parsed, reply_from, reply_text, HealthProbe,
    OpenClawLauncher, OpenClawProvider, OpenClawReply, SendRoute, UrlParts,
};
use mental_os::providers::Transport;

fn base_config() -> Config {
    let mut config = Config::default();
    config.openclaw.transport = "http".to_string();
    config.openclaw.request_path = "/agent".to_string();
    config
}

fn agent(name: &str, provider: &str, model: Option<&str>, endpoint: Option<&str>) -> AgentConfig {
    AgentConfig {
        name: name.to_string(),
        description: None,
        provider: provider.to_string(),
        model: model.map(|m| m.to_string()),
        endpoint: endpoint.map(|e| e.to_string()),
        executable: None,
        arguments: None,
    }
}

#[test]
fn openclaw_supports_context_returns_true() {
    let provider = OpenClawProvider::from_config(&base_config()).unwrap();
    assert!(provider.supports_context());
}

#[test]
fn name_returns_openclaw() {
    let provider = OpenClawProvider::from_config(&base_config()).unwrap();
    assert_eq!(provider.name(), "openclaw");
}

#[test]
fn get_current_provider_returns_configured_provider() {
    let provider = OpenClawProvider::from_config(&base_config()).unwrap();
    assert_eq!(provider.get_current_provider(), "openclaw");
}

#[test]
fn list_agents_returns_sorted_names() {
    let mut config = base_config();
    config.agents.push(("beta".to_string(), agent("Beta", "openclaw", None, None)));
    config.agents.push(("alpha".to_string(), agent("Alpha", "openclaw", None, None)));
    let provider = OpenClawProvider::from_config(&config).unwrap();
    assert_eq!(provider.list_agents(), vec!["alpha", "beta"]);
}

#[test]
fn switching_to_an_ollama_agent_moves_model_and_endpoint() {
    let mut config = base_config();
    config.agents.push((
        "local".to_string(),
        agent("Local", "ollama", Some("llama3"), Some("http://10.0.0.2:11434")),
    ));
    config.agents.push(("gate".to_string(), agent("Gate", "openclaw", None, Some("http://10.0.0.3:1"))));
    let mut provider = OpenClawProvider::from_config(&config).unwrap();
    assert_eq!(provider.switch_agent("LOCAL").unwrap(), "Switched to agent: Local");
    assert_eq!(provider.get_current_provider(), "ollama");
    assert_eq!(provider.ollama_model(), "llama3");
    assert_eq!(provider.ollama_generate_url(), "http://10.0.0.2:11434/api/generate");
    assert_eq!(provider.route(), SendRoute::Ollama);
    assert_eq!(provider.http_url(), "http://127.0.0.1:18789/agent");

    assert_eq!(provider.switch_agent("gate").unwrap(), "Switched to agent: Gate");
    assert_eq!(provider.http_url(), "http://10.0.0.3:1/agent");
    assert_eq!(provider.route(), SendRoute::Http);

    match provider.switch_agent("nobody") {
        Err(MentalOSError::Other(m)) => assert_eq!(m, "Agent 'nobody' not found"),
        other => panic!("unexpected {:?}", other),
    }
}

#[test]
fn transport_token_and_command_line_follow_the_config() {
    let mut config = Config::default();
    config.openclaw.token = "  secret  ".to_string();
    let provider = OpenClawProvider::from_config(&config).unwrap();
    assert_eq!(provider.route(), SendRoute::Cli);
    assert_eq!(provider.authorization(), Some("Bearer secret".to_string()));
    assert_eq!(provider.health_probe(), HealthProbe::Which("openclaw".to_string()));
    assert_eq!(provider.cli_arguments("hi", false), vec!["agent", "--message", "hi"]);
    assert_eq!(
        provider.cli_arguments("hi", true),
        vec!["agent", "--message", "hi", "--context-stdin"]
    );
    config.openclaw.token = "   ".to_string();
    config.openclaw.cli_args = vec!["chat".to_string(), "-q".to_string()];
    let provider = OpenClawProvider::from_config(&config).unwrap();
    assert_eq!(provider.authorization(), None);
    assert_eq!(provider.cli_arguments("x", false), vec!["chat", "-q", "--message", "x"]);
    let http = OpenClawProvider::from_config(&base_config()).unwrap();
    assert!(matches!(http.health_probe(), HealthProbe::Connect(e) if e == "http://127.0.0.1:18789"));
    assert_eq!(Transport::Http, Transport::Http);
}

#[test]
fn replies_prefer_commands_then_text_fields() {
    let with_commands = r#"{"commands":["ls"],"message":"m"}"#.to_string();
    assert_eq!(reply_text(with_commands.clone(), None), with_commands);
    let decoded = OpenClawReply {
        message: None,
        response: Some("from response".to_string()),
        output: Some("from output".to_string()),
        content: None,
    };
    assert_eq!(reply_text(r#"{"response":"from response"}"#.to_string(), Some(decoded.clone())), "from response");
    assert_eq!(reply_text("plain text".to_string(), None), "plain text");
    assert_eq!(reply_from("raw".to_string(), true, Some(decoded)), "raw");
    let empty = OpenClawReply { message: None, response: None, output: None, content: None };
    assert_eq!(reply_from("raw".to_string(), false, Some(empty)), "raw");
}

#[test]
fn endpoint_port_parses_valid_url() {
    assert_eq!(endpoint_port("http://127.0.0.1:18789").unwrap(), 18789);
    assert_eq!(endpoint_port("http://127.0.0.1:9999").unwrap(), 9999);
}

#[test]
fn endpoint_port_defaults_to_known_scheme_port() {
    let port = endpoint_port("http://localhost").unwrap();
    assert_eq!(port, 80);
}

#[test]
fn endpoint_port_rejects_invalid_url() {
    assert!(endpoint_port("not a url").is_err());
}

#[test]
fn endpoint_errors_and_hosts() {
    match endpoint_port("not a url") {
        Err(MentalOSError::ConfigInvalid(m)) => assert!(m.starts_with("Invalid OpenClaw endpoint: ")),
        other => panic!("unexpected {:?}", other),
    }
    let unknown = UrlParts { host: None, port: None, known_port: None };
    assert_eq!(port_of_parsed(Ok(unknown)).unwrap(), 18789);
}

#[test]
fn gateway_port_uses_only_an_explicit_port() {
    let mut config = base_config();
    config.openclaw.endpoint = "http://localhost".to_string();
    let provider = OpenClawProvider::from_config(&config).unwrap();
    assert_eq!(provider.gateway_port().unwrap(), 18789);
    config.openclaw.endpoint = "http://localhost:4000".to_string();
    let provider = OpenClawProvider::from_config(&config).unwrap();
    assert_eq!(provider.gateway_port().unwrap(), 4000);
}

#[test]
fn launcher_disabled_when_not_http_transport() {
    let mut config = Config::default();
    config.openclaw.transport = "cli".to_string();
    config.openclaw.auto_start = true;
    let launcher = OpenClawLauncher::from_config(&config);
    assert!(!launcher.is_enabled());
}

#[test]
fn launcher_disabled_when_auto_start_false() {
    let mut config = Config::default();
    config.openclaw.transport = "http".to_string();
    config.openclaw.auto_start = false;
    let launcher = OpenClawLauncher::from_config(&config);
    assert!(!launcher.is_enabled());
}

#[test]
fn from_config_disabled_when_auto_start_off() {
    let launcher = OpenClawLauncher::from_config(&Config::default());
    assert!(!launcher.is_enabled());
}

#[test]
fn from_config_enabled_when_auto_start_on_and_http_transport() {
    let mut config = Config::default();
    config.openclaw.auto_start = true;
    config.openclaw.transport = "http".to_string();
    let launcher = OpenClawLauncher::from_config(&config);
    assert!(launcher.is_enabled());
}

#[test]
fn from_config_disabled_when_auto_start_on_but_cli_transport() {
    let mut config = Config::default();
    config.openclaw.auto_start = true;
    config.openclaw.transport = "cli".to_string();
    let launcher = OpenClawLauncher::from_config(&config);
    assert!(!launcher.is_enabled());
}

#[test]
fn gateway_command_line_and_failure_message() {
    let launcher = OpenClawLauncher::from_config(&Config::default()).with_health_check_attempts(3);
    assert_eq!(launcher.health_check_attempts(), 3);
    let (program, args) = launcher.gateway_command(18789, false, false);
    assert_eq!(program, "openclaw");
    assert_eq!(args, vec!["gateway", "--port", "18789", "--verbose"]);
    let (program, args) = launcher.gateway_command(9, false, true);
    assert_eq!(program, "firejail");
    assert_eq!(
        args,
        vec!["--quiet", "--profile=openclaw", "--x11=none", "--", "openclaw", "gateway", "--port", "9", "--verbose"]
    );
    let (_, args) = launcher.gateway_command(9, true, true);
    assert_eq!(args[1], "--profile=firejail/openclaw.profile");
    match launcher.unhealthy_error() {
        MentalOSError::OpenClawUnavailable(m) => assert_eq!(
            m,
            "OpenClaw gateway did not become healthy after 3 attempts (total wait ~1s)"
        ),
        other => panic!("unexpected {:?}", other),
    }
}

/// The host and port that the gateway's address is resolved from; the
/// resolution itself is the application's.
#[test]
fn endpoint_socket_addr_resolves_localhost() {
    let (host, port) = endpoint_host_port("http://127.0.0.1:18789").unwrap();
    assert_eq!(host, "127.0.0.1");
    assert_eq!(port, 18789);
}

#[test]
fn endpoint_socket_addr_rejects_invalid() {
    assert!(endpoint_host_port("://bad").is_err());
}
