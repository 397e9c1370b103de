use mental_os::memory::{Conversation, ConversationMetadata, Message, MessageAction, Role, SessionSummary};
use mental_os::sessions::{
    append_to_conversation, choose_session_file, conversation_from_file, find_session_file,
    last_by_name, migrate_legacy, related_paths, sessions_by_recency, LegacyConversation,
    LegacyMessage, SessionFile,
};

fn file(name: &str, stored: Option<&str>) -> SessionFile {
    let stem = name.trim_end_matches(".json").to_string();
    SessionFile { name: name.to_string(), stem, stored_id: stored.map(|s| s.to_string()) }
}

fn summary(id: &str, last_active: i64) -> SessionSummary {
    SessionSummary {
        workspace: "demo".into(),
        category: "general".into(),
        session_id: id.into(),
        title: None,
        created_at: 0,
        last_active,
        local_only: false,
    }
}

#[test]
fn appending_starts_and_extends_a_conversation() {
    let c = append_to_conversation(None, "abc", "demo", Role::User, "hello there".into(), vec![], 10);
    assert_eq!(c.session_id, "abc");
    assert_eq!(c.created_at, 10);
    assert_eq!(c.last_active, 10);
    assert_eq!(c.metadata.workspace, "demo");
    assert_eq!(c.messages.len(), 1);
    assert_eq!(c.title, None);
    let mut c = c;
    for (i, text) in ["a", "b", "c"].iter().enumerate() {
        c = append_to_conversation(Some(c), "ignored", "other", Role::Assistant, text.to_string(), vec![], 20 + i as i64);
    }
    assert_eq!(c.session_id, "abc");
    assert_eq!(c.created_at, 10);
    assert_eq!(c.last_active, 22);
    assert_eq!(c.messages.len(), 4);
    assert_eq!(c.title.as_deref(), Some("hello there"));
    assert_eq!(c.metadata.workspace, "demo");
    let action = MessageAction { action_type: "create_project".into(), path: Some("/tmp/w/demo".into()), command: None };
    let c = append_to_conversation(Some(c), "abc", "demo", Role::Assistant, "Created project".into(), vec![action], 30);
    assert_eq!(c.messages[4].actions[0].path.as_deref(), Some("/tmp/w/demo"));
    assert_eq!(c.title.as_deref(), Some("hello there"));
}

#[test]
fn an_empty_workspace_is_filled_in() {
    let existing = Conversation {
        session_id: "s".into(),
        created_at: 1,
        last_active: 1,
        title: None,
        messages: vec![],
        metadata: ConversationMetadata::default(),
    };
    let c = append_to_conversation(Some(existing), "s", "demo", Role::User, "x".into(), vec![], 2);
    assert_eq!(c.metadata.workspace, "demo");
}

fn legacy_message(content: &str, t: i64) -> LegacyMessage {
    LegacyMessage { role: Role::User, content: content.into(), timestamp: t, actions: None }
}

#[test]
fn legacy_records_are_brought_up_to_date() {
    let l = LegacyConversation {
        id: None,
        workspace: Some("demo".into()),
        created_at: 5,
        messages: vec![
            legacy_message("one two three four five six seven eight nine", 6),
            legacy_message("b", 7),
            legacy_message("c", 8),
            legacy_message("d", 9),
        ],
    };
    let c = migrate_legacy(l, "2026-02-13-001");
    assert_eq!(c.session_id, "2026-02-13-001");
    assert_eq!(c.created_at, 5);
    assert_eq!(c.last_active, 9);
    assert_eq!(c.title.as_deref(), Some("one two three four five six seven eight"));
    assert_eq!(c.metadata.workspace, "demo");
    assert_eq!(c.messages.len(), 4);
    assert!(c.messages[0].actions.is_empty());

    let empty = LegacyConversation { id: Some("old".into()), workspace: None, created_at: 3, messages: vec![] };
    let c = migrate_legacy(empty, "fallback");
    assert_eq!(c.session_id, "old");
    assert_eq!(c.last_active, 3);
    assert_eq!(c.title, None);
    assert_eq!(c.metadata.workspace, "");
}

#[test]
fn session_files_are_read_by_schema() {
    assert!(conversation_from_file("  \n", None, None, "x").is_none());
    let current = Conversation {
        session_id: String::new(),
        created_at: 1,
        last_active: 2,
        title: Some("t".into()),
        messages: vec![Message { role: Role::User, content: "hi".into(), timestamp: 1, actions: vec![] }],
        metadata: ConversationMetadata::default(),
    };
    let (c, migrated) = conversation_from_file("{...}", Some(current), None, "from-name").unwrap();
    assert_eq!(c.session_id, "from-name");
    assert!(!migrated);
    let legacy = LegacyConversation { id: None, workspace: None, created_at: 4, messages: vec![] };
    let (c, migrated) = conversation_from_file("{...}", None, Some(legacy), "n").unwrap();
    assert!(migrated);
    assert_eq!(c.session_id, "n");
    assert!(conversation_from_file("garbage", None, None, "n").is_none());
}

#[test]
fn load_session_matches_full_session_id() {
    let files = vec![file("2026-02-13-1200-abc.json", Some("abc")), file("2026-02-13-001.json", None)];
    assert_eq!(find_session_file(&files, "2026-02-13-001"), Some(1));
    assert_eq!(find_session_file(&files, "abc"), Some(0));
    assert_eq!(find_session_file(&files, "zzz"), None);
    let renamed = vec![file("2026-01-01-0900-x1.json", Some("kept-id"))];
    assert_eq!(find_session_file(&renamed, "kept-id"), Some(0));
}

#[test]
fn the_marker_or_the_latest_file_takes_the_next_message() {
    let files = vec![
        file("2026-02-13-1200-b.json", None),
        file("2026-02-14-0900-a.json", None),
        file("2026-02-12-0800-c.json", None),
    ];
    assert_eq!(choose_session_file(None, &files), Some(1));
    assert_eq!(last_by_name(&files), Some(1));
    assert_eq!(choose_session_file(Some("NEW".into()), &files), None);
    assert_eq!(choose_session_file(Some("c".into()), &files), Some(2));
    assert_eq!(choose_session_file(Some("gone".into()), &files), None);
    assert_eq!(choose_session_file(None, &vec![]), None);
}

#[test]
fn sessions_are_listed_most_recent_first() {
    let list = vec![summary("a", 5), summary("b", 9), summary("c", 5), summary("d", 1)];
    let ordered: Vec<String> = sessions_by_recency(&list).into_iter().map(|s| s.session_id).collect();
    assert_eq!(ordered, vec!["b", "c", "a", "d"]);
    assert!(sessions_by_recency(&vec![]).is_empty());
}

#[test]
fn finds_related_session_by_project_path() {
    let action = MessageAction { action_type: "create_project".into(), path: Some("/w/demo-app".into()), command: None };
    let c = append_to_conversation(None, "s", "demo", Role::Assistant, "Created project".into(), vec![action], 1);
    let no_path = MessageAction { action_type: "run_command".into(), path: None, command: Some("ls".into()) };
    let c = append_to_conversation(Some(c), "s", "demo", Role::Assistant, "ran".into(), vec![no_path], 2);
    assert_eq!(related_paths(&c), vec!["demo".to_string(), "/w/demo-app".to_string()]);
}

#[test]
fn an_appended_message_is_read_back_last() {
    let older = vec![Message { role: Role::User, content: "old".into(), timestamp: 1, actions: vec![] }];
    let c = append_to_conversation(None, "s", "demo", Role::User, "newest".into(), vec![], 5);
    let recent = mental_os::memory::recent_messages(vec![older, c.messages], 1);
    assert_eq!(recent.len(), 1);
    assert_eq!(recent[0].content, "newest");
}

/// The four messages of the original scenario, added one by one to the
/// session's conversation as the memory manager adds them.
#[test]
fn auto_title_is_generated() {
    let mut conversation: Option<Conversation> = None;
    let turns = [
        (Role::User, "Create a rust web server with auth"),
        (Role::Assistant, "Sure"),
        (Role::User, "Add postgres"),
        (Role::Assistant, "Done"),
    ];
    for (i, (role, text)) in turns.iter().enumerate() {
        conversation = Some(append_to_conversation(
            conversation,
            "20260101-120000",
            "demo",
            *role,
            text.to_string(),
            Vec::new(),
            1_000 + i as i64,
        ));
    }
    let conversation = conversation.unwrap();
    assert_eq!(conversation.messages.len(), 4);
    assert!(conversation.title.is_some());
}
