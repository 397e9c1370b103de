use mental_os::chat::{format_role_header, split_code_blocks, ContentPart};
use mental_os::circuit_breaker::CircuitState;
use mental_os::launcher::{
    clean_exec_command, launcher_hint_text, matches_entry_query, no_applications_message,
    parse_desktop_entry, visible_entries, DesktopEntry, app_invocation, terminal_candidates,
    terminal_command,
};
use mental_os::onboarding::{
    completed_state, normalized_state, should_show_tutorial, tutorial_input, tutorial_page, tutorial_steps,
    OnboardingState, TutorialEffect, TutorialInput,
};
use mental_os::memory::{Message, Role, SessionSummary};
use mental_os::panels::{
    circuit_state_icon, format_filtered_summary, format_session_summary, matches_session_query,
    matches_session_query_with_content, memory_button_label, new_chat_button_label,
    ordered_sessions, parse_date_filter, priority_label, session_matches_date_range,
    status_class_for_result, status_label, summarize_tasks, validation_entry_css_class, AiState,
    detect_active_session_id, find_session, listed_sessions, session_row_title, empty_sessions_message,
    current_session_labels, no_tasks_message, toggle_button_label, toggle_task, toggled_status,
    selected_pairs, sync_export_status, sync_rows, sync_rows_status, sync_selection_status, SyncRow,
};
use mental_os::task_tracker::{Task, TaskPriority, TaskStatus, TaskTracker};

#[test]
fn clean_exec_command_strips_desktop_field_tokens() {
    let cleaned = clean_exec_command("code %F --reuse-window %u");
    assert_eq!(cleaned, "code --reuse-window");
}

#[test]
fn query_matches_name_comment_and_exec() {
    let entry = DesktopEntry {
        name: "Firefox".to_string(),
        command: "firefox %u".to_string(),
        comment: "Web Browser".to_string(),
    };
    assert!(matches_entry_query(&entry, "fire"));
    assert!(matches_entry_query(&entry, "browser"));
    assert!(matches_entry_query(&entry, "firefox"));
    assert!(!matches_entry_query(&entry, "terminal"));
}

#[test]
fn launcher_hint_is_stable() {
    assert_eq!(launcher_hint_text(), "Enter to launch \u{2022} Esc to close");
}

#[test]
fn desktop_files_are_read_from_their_entry_section() {
    let text = "[Desktop Entry]\nName=Editor\nName[de]=Bearbeiter\nName=Second\nExec=edit %F\nComment=Edits text\n[Desktop Action new]\nExec=other\n";
    let e = parse_desktop_entry(text).unwrap();
    assert_eq!(e.name, "Editor");
    assert_eq!(e.command, "edit %F");
    assert_eq!(e.comment, "Edits text");
    assert!(parse_desktop_entry("[Desktop Entry]\nName=Hidden\nExec=h\nNoDisplay=true\n").is_none());
    assert!(parse_desktop_entry("Name=Outside\nExec=x\n").is_none());
    assert!(parse_desktop_entry("[Desktop Entry]\nName=NoExec\n").is_none());
}

#[test]
fn launcher_lists_matching_entries() {
    let entries = vec![
        DesktopEntry { name: "Firefox".into(), command: "firefox".into(), comment: "Web".into() },
        DesktopEntry { name: "Terminal".into(), command: "foot".into(), comment: "Shell".into() },
    ];
    assert_eq!(visible_entries(&entries, ""), vec![0, 1]);
    assert_eq!(visible_entries(&entries, "SHELL"), vec![1]);
    assert!(visible_entries(&entries, "zzz").is_empty());
    assert_eq!(no_applications_message("  "), "No applications found.");
    assert_eq!(no_applications_message("zzz"), "No applications found for 'zzz'.");
}

#[test]
fn format_role_header_contains_role_and_time() {
    let header = format_role_header("AI", "14:23");
    assert_eq!(header, "AI \u{b7} 14:23");
}

#[test]
fn split_code_blocks_handles_plain_text() {
    let parts = split_code_blocks("hello world");
    assert_eq!(parts.len(), 1);
    match &parts[0] {
        ContentPart::Text(v) => assert_eq!(v, "hello world"),
        ContentPart::Code(_) => panic!("expected text part"),
    }
}

#[test]
fn code_blocks_are_split_out() {
    let parts = split_code_blocks("Try this:\n```rust\nfn main() {}\n  \n```\nthen run it\n```\nunclosed");
    assert_eq!(
        parts,
        vec![
            ContentPart::Text("Try this:".to_string()),
            ContentPart::Code("fn main() {}".to_string()),
            ContentPart::Text("then run it".to_string()),
            ContentPart::Code("unclosed".to_string()),
        ]
    );
    assert_eq!(split_code_blocks("   "), vec![ContentPart::Text("   ".to_string())]);
}

#[test]
fn pill_labels_follow_state() {
    assert_eq!(AiState::Sleep.css_class(), "state-sleep");
    assert_eq!(AiState::Learn.css_class(), "state-learn");
    assert_eq!(AiState::Active.icon_label(), "\u{1f535}");
    assert_eq!(circuit_state_icon(CircuitState::Closed), None);
    assert_eq!(circuit_state_icon(CircuitState::Open), Some("\u{1f534}"));
    assert_eq!(circuit_state_icon(CircuitState::HalfOpen), Some("\u{1f7e1}"));
}

#[test]
fn summary_pluralization_is_correct() {
    assert_eq!(format_session_summary(1), "Showing 1 session");
    assert_eq!(format_session_summary(3), "Showing 3 sessions");
}

#[test]
fn filtered_summary_handles_partial_results() {
    assert_eq!(format_filtered_summary(2, 5), "Showing 2 of 5 sessions");
    assert_eq!(format_filtered_summary(5, 5), "Showing 5 sessions");
    assert_eq!(format_filtered_summary(0, 0), "No sessions found");
}

fn session(id: &str, title: Option<&str>, category: &str, created_at: i64) -> SessionSummary {
    SessionSummary {
        workspace: "demo".to_string(),
        category: category.to_string(),
        session_id: id.to_string(),
        title: title.map(|t| t.to_string()),
        created_at,
        last_active: created_at,
        local_only: false,
    }
}

#[test]
fn session_query_matches_title_category_or_id() {
    let s = session("abc123", Some("Rust Server"), "ideas", 0);
    assert!(matches_session_query(&s, "rust"));
    assert!(matches_session_query(&s, "idea"));
    assert!(matches_session_query(&s, "abc"));
    assert!(matches_session_query(&s, ""));
    assert!(!matches_session_query(&s, "python"));
}

#[test]
fn session_query_matches_message_content() {
    let s = session("abc123", None, "general", 0);
    let msgs = vec![Message { role: Role::User, content: "Deploy the BACKEND".into(), timestamp: 0, actions: vec![] }];
    assert!(matches_session_query_with_content(&s, Some(&msgs), "backend"));
    assert!(!matches_session_query_with_content(&s, Some(&msgs), "frontend"));
    assert!(!matches_session_query_with_content(&s, None, "backend"));
}

#[test]
fn active_session_is_pinned_first() {
    let sessions = vec![session("a", None, "g", 0), session("b", None, "g", 0), session("c", None, "g", 0)];
    assert_eq!(ordered_sessions(&sessions, Some("c")), vec![2, 0, 1]);
    assert_eq!(ordered_sessions(&sessions, None), vec![0, 1, 2]);
    assert_eq!(ordered_sessions(&sessions, Some("zzz")), vec![0, 1, 2]);
}

#[test]
fn parse_date_filter_accepts_iso_date() {
    assert!(parse_date_filter("2026-04-08").is_some());
    assert!(parse_date_filter("invalid").is_none());
    assert!(parse_date_filter("  ").is_none());
}

#[test]
fn session_matches_range_bounds() {
    // 2026-04-08 10:00:00 UTC
    let s = session("abc", Some("Test"), "general", 1_775_642_400_000);
    let from = parse_date_filter("2026-04-01");
    let to = parse_date_filter("2026-04-30");
    assert!(session_matches_date_range(&s, from, to));
    let from = parse_date_filter("2026-05-01");
    assert!(!session_matches_date_range(&s, from, None));
    let on_day = parse_date_filter("2026-04-08");
    assert!(session_matches_date_range(&s, on_day, on_day));
}

fn task(status: TaskStatus, priority: TaskPriority) -> Task {
    Task {
        id: "t".into(),
        description: "d".into(),
        created_at: 0,
        status,
        priority,
        due_date: None,
        related_conversation: None,
        related_project: None,
    }
}

#[test]
fn summarize_tasks_counts_statuses() {
    let tasks = vec![task(TaskStatus::Pending, TaskPriority::Medium), task(TaskStatus::Completed, TaskPriority::Medium)];
    let summary = summarize_tasks(&tasks);
    assert!(summary.contains("Total: 2"));
    assert!(summary.contains("Pending: 1"));
    assert!(summary.contains("Completed: 1"));
    assert_eq!(summary, "Total: 2 | Pending: 1 | Completed: 1");
}

#[test]
fn task_labels_are_stable() {
    assert_eq!(status_label(&TaskStatus::Cancelled), "cancelled");
    assert_eq!(priority_label(&task(TaskStatus::Pending, TaskPriority::Critical)), "critical");
}

#[test]
fn status_class_mapping_is_stable() {
    assert_eq!(status_class_for_result(true), "shortcut-status-ok");
    assert_eq!(status_class_for_result(false), "shortcut-status-error");
}

#[test]
fn validation_class_mapping_is_stable() {
    assert_eq!(validation_entry_css_class(true), None);
    assert_eq!(validation_entry_css_class(false), Some("shortcut-entry-error"));
}

#[test]
fn memory_button_label_is_stable() {
    assert_eq!(memory_button_label(), "Memory");
}

#[test]
fn new_chat_button_label_is_stable() {
    assert_eq!(new_chat_button_label(), "New chat");
}

fn listed(id: &str, category: &str) -> SessionSummary {
    SessionSummary {
        workspace: "demo".into(),
        category: category.into(),
        session_id: id.into(),
        title: None,
        created_at: 0,
        last_active: 0,
        local_only: false,
    }
}

#[test]
fn the_active_session_is_the_one_its_marker_names() {
    let sessions = vec![listed("a", "general"), listed("b", "work"), listed("c", "general")];
    let markers = vec![Some("c".to_string()), Some("b".to_string()), Some("c".to_string())];
    assert_eq!(detect_active_session_id(&sessions, &markers), Some("b".to_string()));
    let markers = vec![Some("NEW".to_string()), None, Some("NEW".to_string())];
    assert_eq!(detect_active_session_id(&sessions, &markers), None);
    assert_eq!(find_session(&sessions, "c").map(|s| s.category), Some("general".to_string()));
    assert!(find_session(&sessions, "z").is_none());
}

#[test]
fn applications_and_terminals_are_started_by_their_words() {
    let (program, args) = app_invocation("code %F --reuse-window %u").unwrap();
    assert_eq!(program, "code");
    assert_eq!(args, vec!["--reuse-window"]);
    assert!(app_invocation("  %U ").is_none());
    let names: Vec<String> = terminal_candidates().into_iter().map(|(p, _)| p).collect();
    assert_eq!(
        names,
        vec!["foot", "alacritty", "kitty", "wezterm", "gnome-terminal", "konsole", "xfce4-terminal", "xterm"]
    );
    assert_eq!(terminal_candidates()[3].1, vec!["start"]);
    let (program, args) = terminal_command("kitty -e 'htop -d 5'").unwrap().unwrap();
    assert_eq!(program, "kitty");
    assert_eq!(args, vec!["-e", "htop -d 5"]);
    assert_eq!(terminal_command("   ").unwrap(), None);
    assert_eq!(
        terminal_command("xterm 'oops").unwrap_err(),
        "Invalid $TERMINAL value 'xterm 'oops': missing closing quote"
    );
}

#[test]
fn the_tutorial_shows_until_completed() {
    assert!(should_show_tutorial(None));
    assert!(should_show_tutorial(Some(OnboardingState::default())));
    assert!(!should_show_tutorial(Some(completed_state())));
    let old = normalized_state(OnboardingState { completed: true, version: 0 });
    assert_eq!(old.version, 1);
    assert!(!should_show_tutorial(Some(old)));
    assert_eq!(tutorial_steps().len(), 5);
    assert_eq!(tutorial_steps()[0].0, "Welcome to mentalOS");
}

#[test]
fn memory_browser_lists_matching_sessions_up_to_thirty() {
    let order: Vec<usize> = vec![3, 0, 1, 2];
    let matched = vec![true, false, true, true];
    assert_eq!(listed_sessions(&order, &matched), vec![3, 0, 2]);
    let many: Vec<usize> = (0..40).collect();
    let all = vec![true; 40];
    let listed = listed_sessions(&many, &all);
    assert_eq!(listed.len(), 30);
    assert_eq!(listed, (0..30).collect::<Vec<usize>>());
}

#[test]
fn memory_browser_row_texts() {
    let titled = session("20260101-120000", Some("Demo"), "general", 0);
    let untitled = session("20260101-120000", None, "general", 0);
    assert_eq!(session_row_title(&titled), "Demo");
    assert_eq!(session_row_title(&untitled), "Session 20260101-120000");
    assert_eq!(
        current_session_labels(&titled),
        ("Resume current: Demo".to_string(), "Delete current: 20260101-120000".to_string())
    );
    assert_eq!(current_session_labels(&untitled).0, "Resume current: 20260101-120000");
    assert_eq!(empty_sessions_message("  "), "No conversations saved yet.");
    assert_eq!(empty_sessions_message("rust"), "No sessions found for 'rust'.");
}

#[test]
fn task_button_toggles_between_pending_and_done() {
    assert_eq!(toggled_status(&TaskStatus::Pending), TaskStatus::Completed);
    assert_eq!(toggled_status(&TaskStatus::Completed), TaskStatus::Pending);
    assert_eq!(toggled_status(&TaskStatus::Cancelled), TaskStatus::Pending);
    assert_eq!(toggle_button_label(&TaskStatus::Pending), "Done");
    assert_eq!(toggle_button_label(&TaskStatus::Completed), "Reopen");
    assert_eq!(no_tasks_message(), "No tasks captured yet.");

    let mut tracker = TaskTracker::new("/tmp/mentalos-tasks-toggle");
    let tasks = tracker.extract_and_add_tasks("TODO: Fix the login bug", None, None);
    let id = tasks[0].id.clone();
    let done = toggle_task(&mut tracker, &id).unwrap().unwrap();
    assert_eq!(done.status, TaskStatus::Completed);
    assert_eq!(tracker.get_task(&id).unwrap().status, TaskStatus::Completed);
    let reopened = toggle_task(&mut tracker, &id).unwrap().unwrap();
    assert_eq!(reopened.status, TaskStatus::Pending);
    assert!(toggle_task(&mut tracker, "missing").unwrap().is_none());
}

fn local(id: &str, local_only: bool) -> SessionSummary {
    let mut s = session(id, None, "general", 0);
    s.local_only = local_only;
    s
}

#[test]
fn sync_rows_start_from_the_local_only_flag() {
    let sessions = vec![local("a", false), local("b", true)];
    let rows = sync_rows(&sessions, None, None);
    assert_eq!(rows.len(), 2);
    assert!(rows[0].synced && !rows[0].local_only);
    assert!(!rows[1].synced && rows[1].local_only);
    assert_eq!(sync_rows_status(&rows), "Showing 2 sessions. Local-only: 1.");
    assert_eq!(selected_pairs(&rows), vec![("general".to_string(), "a".to_string())]);
    assert_eq!(sync_rows_status(&Vec::new()), "No sessions match date filters.");
}

#[test]
fn sync_row_toggles_exclude_each_other() {
    let mut row = SyncRow { category: "general".into(), session_id: "a".into(), synced: true, local_only: false };
    row.set_local_only(true);
    assert!(row.local_only && !row.synced);
    row.set_synced(true);
    assert!(row.synced && !row.local_only);
    row.set_local_only(false);
    assert!(row.synced && !row.local_only);
}

#[test]
fn sync_reports_read_as_the_dialog_shows_them() {
    let payload = mental_os::memory::sync_payload_of("demo", Vec::new(), 0);
    assert_eq!(
        sync_selection_status(3, &payload),
        "Selected 3. Sync-eligible: 0. Local-only excluded: 0. Redactions applied: 0."
    );
    assert_eq!(
        sync_export_status(2, "/tmp/x.json", 1, 4),
        "Exported 2 conversations to /tmp/x.json (local-only excluded: 1, redactions: 4)."
    );
}

#[test]
fn tutorial_pages_show_back_next_and_done() {
    let first = tutorial_page(0, 5);
    assert_eq!(first.index, 0);
    assert!(!first.back_enabled && first.next_visible && !first.done_visible);
    let last = tutorial_page(4, 5);
    assert!(last.back_enabled && !last.next_visible && last.done_visible);
    assert_eq!(tutorial_page(9, 5).index, 4);
}

#[test]
fn tutorial_inputs_move_within_the_steps() {
    assert_eq!(tutorial_input(0, 5, TutorialInput::Next), TutorialEffect::Show(1));
    assert_eq!(tutorial_input(4, 5, TutorialInput::Next), TutorialEffect::Show(4));
    assert_eq!(tutorial_input(0, 5, TutorialInput::Back), TutorialEffect::Show(0));
    assert_eq!(tutorial_input(2, 5, TutorialInput::Back), TutorialEffect::Show(1));
    assert_eq!(tutorial_input(4, 5, TutorialInput::RightKey), TutorialEffect::Ignore);
    assert_eq!(tutorial_input(0, 5, TutorialInput::LeftKey), TutorialEffect::Ignore);
    assert_eq!(tutorial_input(3, 5, TutorialInput::RightKey), TutorialEffect::Show(4));
    assert_eq!(tutorial_input(1, 5, TutorialInput::Skip), TutorialEffect::Finish);
    assert_eq!(tutorial_input(4, 5, TutorialInput::Done), TutorialEffect::Finish);
    assert_eq!(tutorial_input(2, 5, TutorialInput::EscapeKey), TutorialEffect::Close);
    assert_eq!(tutorial_input(2, 5, TutorialInput::OtherKey), TutorialEffect::Ignore);
}
