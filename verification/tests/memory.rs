use mental_os::memory::{
    auto_title, recent_messages, redact_sensitive_text, sync_payload_of, Conversation, Message,
    is_false, is_legacy_session_id, normalize_category, session_id_from_stem,
    ConversationMetadata, MemoryManager, Role,
};
use mental_os::workspace_events::WorkspaceEvent;
use std::path::PathBuf;

#[test]
fn categories_are_normalized() {
    assert_eq!(normalize_category("  "), "general");
    assert_eq!(normalize_category(" Big Ideas "), "big-ideas");
    assert_eq!(normalize_category("Notes"), "notes");
}

#[test]
fn legacy_session_ids_are_recognised() {
    assert!(is_legacy_session_id("2026-02-13-001"));
    assert!(!is_legacy_session_id("2026-02-13"));
    assert!(!is_legacy_session_id("2026-02-13-0011-7"));
    assert!(!is_legacy_session_id("2026-2-13-001"));
    assert!(!is_legacy_session_id("2026-02-13-abc"));
    assert_eq!(session_id_from_stem("2026-02-13-001"), "2026-02-13-001");
    assert_eq!(session_id_from_stem("2026-02-13-1412-17a9f3"), "17a9f3");
    assert_eq!(session_id_from_stem("plain"), "plain");
}

#[test]
fn metadata_defaults_and_flags() {
    let m = ConversationMetadata::default();
    assert!(m.workspace.is_empty() && !m.local_only && m.total_tokens == 0);
    assert!(is_false(&false));
    assert!(!is_false(&true));
    assert_ne!(Role::User, Role::Assistant);
    let mm = MemoryManager::new(PathBuf::from("/tmp/w"));
    assert_eq!(mm.workspace_dir(), &PathBuf::from("/tmp/w"));
}

#[test]
fn workspace_event_implements_eq_and_partial_eq() {
    let a = WorkspaceEvent {
        timestamp: "2026-09-18T12:00:00Z".to_string(),
        kind: "create".to_string(),
        paths: vec!["a.rs".to_string()],
    };
    let b = a.clone();
    assert_eq!(a, b);

    let c = WorkspaceEvent {
        timestamp: "2026-09-18T12:00:01Z".to_string(),
        ..a.clone()
    };
    assert_ne!(a, c);
}

fn message(role: Role, content: &str) -> Message {
    Message { role, content: content.to_string(), timestamp: 0, actions: Vec::new() }
}

fn conversation(id: &str, local_only: bool, contents: &[&str]) -> Conversation {
    let mut metadata = ConversationMetadata::default();
    metadata.local_only = local_only;
    Conversation {
        session_id: id.to_string(),
        created_at: 0,
        last_active: 0,
        title: None,
        messages: contents.iter().map(|c| message(Role::User, c)).collect(),
        metadata,
    }
}

#[test]
fn secrets_are_redacted_before_export() {
    let (text, count) =
        redact_sensitive_text("api_key=abc123\nAuthorization: Bearer secret-token-value");
    assert_eq!(text, "api_key=[REDACTED]\nAuthorization: [REDACTED]");
    assert_eq!(count, 3);
    assert!(!text.contains("abc123"));
    assert!(!text.contains("secret-token-value"));
}

#[test]
fn secret_prefixed_tokens_are_replaced_up_to_whitespace() {
    let (text, count) = redact_sensitive_text("use sk-live-123 and ghp_abc now");
    assert_eq!(text, "use [REDACTED] and [REDACTED] now");
    assert_eq!(count, 2);
    let (text, count) = redact_sensitive_text("key AIzaXYZ");
    assert_eq!(text, "key [REDACTED]");
    assert_eq!(count, 1);
}

#[test]
fn plain_text_is_kept_line_by_line() {
    let (text, count) = redact_sensitive_text("hello\r\nworld\n");
    assert_eq!(text, "hello\nworld");
    assert_eq!(count, 0);
    let (text, count) = redact_sensitive_text("");
    assert_eq!(text, "");
    assert_eq!(count, 0);
}

#[test]
fn credential_lines_keep_their_key() {
    let (text, count) = redact_sensitive_text("  My Password : hunter2");
    assert_eq!(text, "My Password: [REDACTED]");
    assert_eq!(count, 1);
    let (text, count) = redact_sensitive_text("token without separator");
    assert_eq!(text, "token without separator");
    assert_eq!(count, 0);
}

#[test]
fn title_takes_eight_words_of_the_first_user_message() {
    let msgs = vec![
        message(Role::Assistant, "Welcome"),
        message(Role::User, "  Create a rust web server with auth and a database please "),
        message(Role::User, "Add postgres"),
    ];
    assert_eq!(
        auto_title(&msgs),
        Some("Create a rust web server with auth and".to_string())
    );
    assert_eq!(auto_title(&vec![message(Role::Assistant, "hi")]), None);
    assert_eq!(auto_title(&vec![message(Role::User, "   ")]), None);
}

#[test]
fn recent_messages_are_the_newest_across_files() {
    let files = vec![
        vec![message(Role::User, "a"), message(Role::Assistant, "b")],
        vec![message(Role::User, "c")],
    ];
    let got = recent_messages(files.clone(), 2);
    let texts: Vec<&str> = got.iter().map(|m| m.content.as_str()).collect();
    assert_eq!(texts, vec!["b", "c"]);
    assert_eq!(recent_messages(files.clone(), 10).len(), 3);
    assert!(recent_messages(files, 0).is_empty());
}

#[test]
fn sync_payload_skips_local_only_and_redacts_tokens() {
    let selected = vec![
        (
            "general".to_string(),
            Some(conversation(
                "s1",
                false,
                &["api_key=abc123\nAuthorization: Bearer secret-token-value", "plain\n"],
            )),
        ),
        ("general".to_string(), Some(conversation("s2", true, &["token=x"]))),
        ("general".to_string(), None),
    ];
    let payload = sync_payload_of("demo", selected, 42);
    assert_eq!(payload.workspace, "demo");
    assert_eq!(payload.exported_at, 42);
    assert_eq!(payload.conversations.len(), 1);
    assert_eq!(payload.skipped_local_only, 1);
    assert_eq!(payload.redactions, 3);
    let exported = &payload.conversations[0].conversation;
    assert_eq!(exported.session_id, "s1");
    assert!(!exported.messages[0].content.contains("abc123"));
    assert!(!exported.messages[0].content.contains("secret-token-value"));
    assert_eq!(exported.messages[1].content, "plain\n");
}

#[test]
fn no_secret_prefix_is_left_after_redaction() {
    let text = "use sk-live-1 and ghp_abc\nxoxb-1 xoxp-2 xoxs-3 AIzaKEY\nAuthorization: Bearer tok\nplain Bearer";
    let (out, count) = redact_sensitive_text(text);
    for prefix in ["sk-", "ghp_", "xoxb-", "xoxp-", "xoxs-", "AIza", "Bearer "] {
        assert!(!out.contains(prefix), "{prefix} left in {out}");
    }
    assert!(count >= 8);
    assert!(!out.contains("live-1"));
    assert!(!out.contains("tok"));
}

fn one_message_conversation(id: &str, content: &str, local_only: bool) -> Conversation {
    Conversation {
        session_id: id.to_string(),
        created_at: 0,
        last_active: 0,
        title: None,
        messages: vec![Message { role: Role::User, content: content.to_string(), timestamp: 0, actions: Vec::new() }],
        metadata: ConversationMetadata {
            model: None,
            agent: None,
            workspace: "demo".to_string(),
            total_tokens: 0,
            commands_executed: 0,
            local_only,
        },
    }
}

#[test]
fn build_sync_payload_skips_local_only_and_redacts_tokens() {
    let content = "api_key=abc123\nAuthorization: Bearer secret-token-value";
    let conversation = one_message_conversation("s1", content, false);
    let payload = sync_payload_of("demo", vec![("general".to_string(), Some(conversation))], 0);
    assert_eq!(payload.conversations.len(), 1);
    assert!(payload.redactions >= 1);
    let shown = &payload.conversations[0].conversation.messages[0].content;
    assert!(!shown.contains("abc123"));
    assert!(!shown.contains("secret-token-value"));

    let local = one_message_conversation("s1", content, true);
    let payload = sync_payload_of("demo", vec![("general".to_string(), Some(local))], 0);
    assert_eq!(payload.conversations.len(), 0);
    assert_eq!(payload.skipped_local_only, 1);
}

#[test]
fn sync_payload_updates_when_local_only_is_toggled() {
    let first = one_message_conversation("first", "hello", true);
    let second = one_message_conversation("second", "world", false);
    let payload = sync_payload_of(
        "demo",
        vec![("general".to_string(), Some(first.clone())), ("general".to_string(), Some(second.clone()))],
        0,
    );
    assert_eq!(payload.conversations.len(), 1);
    assert_eq!(payload.skipped_local_only, 1);
    assert_eq!(payload.conversations[0].conversation.session_id, "second");

    let mut first = first;
    first.metadata.local_only = false;
    let payload = sync_payload_of(
        "demo",
        vec![("general".to_string(), Some(first)), ("general".to_string(), Some(second))],
        0,
    );
    assert_eq!(payload.conversations.len(), 2);
    assert_eq!(payload.skipped_local_only, 0);
}
