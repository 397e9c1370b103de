use mental_os::config::Config;
use mental_os::providers::{
    estimate_total_wait_secs, join_url, launcher_enabled, next_backoff_delay,
    supported_providers, BACKOFF_MULTIPLIER, DEFAULT_HEALTH_CHECK_ATTEMPTS, INITIAL_BACKOFF_MS,
    MAX_BACKOFF_MS, OllamaProvider,
};

#[test]
fn exponential_backoff_stays_within_cap() {
    let mut delay = INITIAL_BACKOFF_MS;
    for _ in 0..20 {
        delay = (delay * BACKOFF_MULTIPLIER).min(MAX_BACKOFF_MS);
        assert!(delay <= MAX_BACKOFF_MS);
    }
}

#[test]
fn library_backoff_matches_schedule() {
    let mut delay = INITIAL_BACKOFF_MS;
    let mut seen = Vec::new();
    for _ in 0..6 {
        seen.push(delay);
        delay = next_backoff_delay(delay);
    }
    assert_eq!(seen, vec![200, 400, 800, 1600, 3000, 3000]);
}

#[test]
fn estimate_total_wait_is_reasonable() {
    let secs = estimate_total_wait_secs(DEFAULT_HEALTH_CHECK_ATTEMPTS);
    assert!(secs > 0 && secs < 60, "Total wait should be reasonable, got {}s", secs);
    assert_eq!(secs, 21);
    assert_eq!(estimate_total_wait_secs(0), 0);
}

#[test]
fn join_url_uses_one_slash() {
    assert_eq!(join_url("http://127.0.0.1:11434/", "/api/chat"), "http://127.0.0.1:11434/api/chat");
    assert_eq!(join_url("http://h//", "agent"), "http://h/agent");
    assert_eq!(join_url("http://h", ""), "http://h/");
}

#[test]
fn supported_provider_names() {
    assert_eq!(supported_providers(), vec!["openclaw", "ollama", "deepseek", "zen"]);
}

#[test]
fn launcher_needs_auto_start_and_http() {
    let mut config = Config::default();
    assert!(!launcher_enabled(&config));
    config.openclaw.auto_start = true;
    assert!(!launcher_enabled(&config));
    config.openclaw.transport = "HTTP".to_string();
    assert!(launcher_enabled(&config));
}

fn ollama_base_config() -> mental_os::config::Config {
    mental_os::config::Config::default()
}

#[test]
fn ollama_supports_context_returns_true() {
    let config = ollama_base_config();
    let provider = OllamaProvider::from_config(&config).unwrap();
    assert!(provider.supports_context());
}

#[test]
fn name_returns_ollama() {
    let config = ollama_base_config();
    let provider = OllamaProvider::from_config(&config).unwrap();
    assert_eq!(provider.name(), "ollama");
}

#[test]
fn get_current_provider_returns_ollama() {
    let config = ollama_base_config();
    let provider = OllamaProvider::from_config(&config).unwrap();
    assert_eq!(provider.get_current_provider(), "ollama");
}

#[test]
fn ollama_switch_agent_changes_model() {
    let config = ollama_base_config();
    let mut provider = OllamaProvider::from_config(&config).unwrap();
    assert_eq!(provider.model(), "phi3:mini");
    let result = provider.switch_agent("llama3").unwrap();
    assert!(result.contains("llama3"));
    assert_eq!(provider.model(), "llama3");
}

#[test]
fn list_agents_returns_current_model() {
    let config = ollama_base_config();
    let provider = OllamaProvider::from_config(&config).unwrap();
    assert_eq!(provider.list_agents(), vec!["phi3:mini"]);
}

#[test]
fn ollama_urls_follow_the_endpoint() {
    let mut config = ollama_base_config();
    config.ollama.endpoint = "http://10.0.0.2:11434/".to_string();
    let mut provider = OllamaProvider::from_config(&config).unwrap();
    assert_eq!(provider.chat_url(), "http://10.0.0.2:11434/api/chat");
    assert_eq!(provider.tags_url(), "http://10.0.0.2:11434/api/tags");
    assert_eq!(
        provider.switch_agent("llama3").unwrap(),
        "Switched Ollama model from phi3:mini to llama3"
    );
    assert_eq!(provider.endpoint(), "http://10.0.0.2:11434/");
}
