use mental_os::error::MentalOSError;
use mental_os::whitelist::{pattern_match, Whitelist, WhitelistDecision, WhitelistManager};
use std::path::PathBuf;

fn manager() -> WhitelistManager {
    WhitelistManager::new(PathBuf::from("/tmp/mentalos-test/whitelist.json"))
}

#[test]
fn allows_exact_command() {
    let mut manager = manager();
    manager.add_exact("ls");
    assert!(manager.is_allowed("ls").unwrap());
    assert!(!manager.is_allowed("pwd").unwrap());
}

#[test]
fn allows_pattern_command() {
    let mut manager = manager();
    manager.add_pattern("git *");
    assert!(manager.is_allowed("git status").unwrap());
    assert!(!manager.is_allowed("cargo build").unwrap());
}

#[test]
fn temporary_approval_lapses_at_its_expiry() {
    let mut manager = manager();
    manager.add_temporary_at("echo hi", 1_000, 5_000);
    assert_eq!(manager.is_allowed_at("echo hi", 5_999), Ok(true));
    assert_eq!(manager.is_allowed_at("echo hi", 6_000), Ok(false));
    assert_eq!(manager.data().temporary.len(), 1);
    assert_eq!(manager.decision_at("echo hi", 6_000), Ok(WhitelistDecision::NeedsApproval));
    assert!(manager.data().temporary.is_empty());
}

#[test]
fn temporary_approval_from_the_clock_is_live() {
    let mut manager = manager();
    manager.add_temporary("echo hi", 60_000);
    assert!(manager.is_allowed("echo hi").unwrap());
    assert_eq!(manager.decision("echo hi"), Ok(WhitelistDecision::Allowed));
}

#[test]
fn empty_command_is_rejected() {
    let manager = manager();
    assert_eq!(
        manager.is_allowed("   "),
        Err(MentalOSError::InvalidCommand("Empty command".to_string()))
    );
}

#[test]
fn commands_are_trimmed_before_lookup() {
    let mut manager = manager();
    manager.add_exact("ls");
    assert_eq!(manager.is_allowed_at("  ls \n", 0), Ok(true));
}

#[test]
fn entries_are_listed_once() {
    let mut manager = manager();
    manager.add_exact("ls");
    manager.add_exact("ls");
    manager.add_pattern("git *");
    manager.add_pattern("git *");
    assert_eq!(manager.data().exact, vec!["ls".to_string()]);
    assert_eq!(manager.data().patterns, vec!["git *".to_string()]);
}

#[test]
fn patterns_are_literal_except_for_star() {
    assert_eq!(pattern_match("cargo *", "cargo test --all"), Ok(true));
    assert_eq!(pattern_match("ls -la", "ls -la"), Ok(true));
    assert_eq!(pattern_match("ls -la", "ls -lah"), Ok(false));
    assert_eq!(pattern_match("a.b", "axb"), Ok(false));
    assert_eq!(pattern_match("echo (x)", "echo (x)"), Ok(true));
    assert_eq!(pattern_match("*", "anything at all"), Ok(true));
    assert_eq!(pattern_match("git *", "run git status"), Ok(false));
}

#[test]
fn decision_allows_listed_commands() {
    let mut manager = manager();
    manager.add_exact("cargo test");
    assert_eq!(manager.decision_at("cargo test", 0), Ok(WhitelistDecision::Allowed));
    assert_eq!(manager.decision_at("cargo run", 0), Ok(WhitelistDecision::NeedsApproval));
}

#[test]
fn loading_drops_lapsed_approvals() {
    let mut data = Whitelist { version: 1, exact: vec![], patterns: vec![], temporary: vec![] };
    data.temporary.push(mental_os::whitelist::TemporaryApproval { command: "a".into(), expires_at: 10 });
    data.temporary.push(mental_os::whitelist::TemporaryApproval { command: "b".into(), expires_at: 30 });
    let manager = WhitelistManager::from_loaded(PathBuf::from("/tmp/w.json"), data, 20);
    assert_eq!(manager.data().temporary.len(), 1);
    assert_eq!(manager.data().temporary[0].command, "b");
    assert_eq!(manager.is_allowed_at("b", 20), Ok(true));
    assert_eq!(manager.is_allowed_at("a", 5), Ok(false));
}

#[test]
fn default_path_is_under_the_config_dir() {
    assert_eq!(WhitelistManager::default_path("/home/u/.config"), "/home/u/.config/mentalOS/whitelist.json");
}
