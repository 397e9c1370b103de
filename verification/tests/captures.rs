use mental_os::circuit_breaker::{retry_action, RetryAction};
use mental_os::memory::redact_sensitive_text;
use mental_os::project_handler::ProjectHandler;
use mental_os::router::switch_target_from_captures;
use mental_os::task_tracker::{task_from_captures, TaskPriority, TaskStatus};

fn groups(v: &[Option<&str>]) -> Vec<Option<String>> {
    v.iter().map(|g| g.map(|s| s.to_string())).collect()
}

#[test]
fn project_request_from_a_match() {
    let c = groups(&[Some("create a Rust CLI called demo"), Some(" demo "), Some("Rust"), None, Some("Axum")]);
    let r = ProjectHandler::request_from_captures(&c).unwrap().unwrap();
    assert_eq!(r.name, "demo");
    assert_eq!(r.language.as_deref(), Some("rust"));
    assert_eq!(r.framework.as_deref(), Some("axum"));
    assert!(r.description.is_none() && r.auto_setup);
    let pronoun = groups(&[Some("build it"), Some("it")]);
    assert!(matches!(ProjectHandler::request_from_captures(&pronoun), Some(None)));
    assert!(ProjectHandler::request_from_captures(&groups(&[Some("x")])).is_none());
}

#[test]
fn switch_target_from_a_match() {
    let c = groups(&[Some("switch to  Ollama "), Some(" Ollama ")]);
    assert_eq!(switch_target_from_captures(&c).as_deref(), Some("Ollama"));
    assert!(switch_target_from_captures(&groups(&[Some("switch")])).is_none());
}

#[test]
fn task_from_a_match() {
    let c = groups(&[Some("TODO: fix login"), Some(" fix login "), None, Some("high")]);
    let t = task_from_captures(&c, Some("conv"), None, 0).unwrap();
    assert_eq!(t.description, "fix login");
    assert_eq!(t.status, TaskStatus::Pending);
    assert_eq!(t.priority, TaskPriority::High);
    assert_eq!(t.related_conversation.as_deref(), Some("conv"));
    assert!(t.due_date.is_none());
    assert!(task_from_captures(&groups(&[Some("x"), None]), None, None, 0).is_none());
}

#[test]
fn retries_stop_after_the_last_one() {
    assert_eq!(retry_action(0, 2, false), RetryAction::Retry);
    assert_eq!(retry_action(1, 2, false), RetryAction::Retry);
    assert_eq!(retry_action(2, 2, false), RetryAction::Finish);
    assert_eq!(retry_action(0, 2, true), RetryAction::Finish);
    assert_eq!(retry_action(0, 0, false), RetryAction::Finish);
}

#[test]
fn nothing_to_redact_keeps_the_lines() {
    assert_eq!(redact_sensitive_text("hello\r\nworld\n"), ("hello\nworld".to_string(), 0));
    let (text, n) = redact_sensitive_text("db_password = hunter2\nplain");
    assert_eq!(text, "db_password=[REDACTED]\nplain");
    assert_eq!(n, 1);
}
