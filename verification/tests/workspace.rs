use mental_os::workspace::{
    check_workspace_name, metadata_path, updated_metadata, ProjectCommands, ProjectMetadata,
};
use mental_os::workspace_events::{
    after_read, after_wait, event_line, format_event, human_readable, reopen_position, ChangeKind,
    ReadResult, TailAction, TailMode, WatchResult, WorkspaceEvent,
};

#[test]
fn metadata_lives_in_the_workspace() {
    assert_eq!(metadata_path("/w/demo"), "/w/demo/.mentalOS-project.json");
}

#[test]
fn workspace_names_must_not_be_blank() {
    assert!(check_workspace_name("demo").is_ok());
    assert!(check_workspace_name("  ").is_err());
}

#[test]
fn metadata_updates_keep_what_is_not_given() {
    let mut existing = ProjectMetadata::fresh("demo", "openclaw", 5);
    existing.language = Some("rust".into());
    let cmds = ProjectCommands { setup: Some("cargo build".into()), run: None, test: None };
    let m = updated_metadata(Some(Some(existing)), "demo", None, Some("axum".into()), None, cmds, 9);
    assert_eq!(m.name, "demo");
    assert_eq!(m.created_by, "openclaw");
    assert_eq!(m.created_at, 5);
    assert_eq!(m.language.as_deref(), Some("rust"));
    assert_eq!(m.framework.as_deref(), Some("axum"));
    assert_eq!(m.commands.setup.as_deref(), Some("cargo build"));

    let new = updated_metadata(None, "fresh-dir", None, None, None, ProjectCommands::default(), 9);
    assert_eq!(new.name, "fresh-dir");
    assert_eq!(new.created_at, 9);
    let broken = updated_metadata(Some(None), "dir", None, None, None, ProjectCommands::default(), 9);
    assert_eq!(broken.name, "");
}

#[test]
fn format_event_modify_kind_maps_to_modify() {
    let formatted = format_event(ChangeKind::Modify, &vec![], "/home/user/workspaces", "t".into());
    assert_eq!(formatted.kind, "modify");
}

#[test]
fn format_event_paths_are_relative_inside_the_root() {
    let paths = vec!["/home/user/workspaces/demo/main.rs".to_string(), "/etc/hosts".to_string()];
    let e = format_event(ChangeKind::Remove, &paths, "/home/user/workspaces", "2026-01-01T00:00:00Z".into());
    assert_eq!(e.kind, "delete");
    assert_eq!(e.paths, vec!["demo/main.rs".to_string(), "/etc/hosts".to_string()]);
    assert_eq!(e.timestamp, "2026-01-01T00:00:00Z");
}

#[test]
fn human_readable_includes_all_paths() {
    let e = WorkspaceEvent {
        timestamp: "T".into(),
        kind: "create".into(),
        paths: vec!["a".into(), "b".into()],
    };
    assert_eq!(human_readable(&e), "T create a, b");
}

#[test]
fn format_event_create_kind_maps_to_create() {
    let formatted = format_event(ChangeKind::Create, &vec![], "/home/user/workspaces", "t".into());
    assert_eq!(formatted.kind, "create");
    assert!(formatted.paths.is_empty());
}

#[test]
fn format_event_remove_kind_maps_to_delete() {
    let formatted = format_event(ChangeKind::Remove, &vec![], "/home/user/workspaces", "t".into());
    assert_eq!(formatted.kind, "delete");
}

#[test]
fn format_event_paths_are_relative_to_watch_root() {
    let paths = vec!["/home/user/workspaces/demo/main.rs".to_string()];
    let formatted = format_event(ChangeKind::Create, &paths, "/home/user/workspaces", "t".into());
    assert_eq!(formatted.paths, vec!["demo/main.rs".to_string()]);
}

#[test]
fn format_event_paths_outside_watch_root_stay_absolute() {
    let paths = vec!["/etc/passwd".to_string()];
    let formatted = format_event(ChangeKind::Create, &paths, "/home/user/workspaces", "t".into());
    assert_eq!(formatted.paths, vec!["/etc/passwd".to_string()]);
}

#[test]
fn event_lines_are_trimmed_and_blank_ones_skipped() {
    assert_eq!(event_line(""), None);
    assert_eq!(event_line("   "), None);
    assert_eq!(event_line("  {\"kind\":\"create\"}\n").as_deref(), Some("{\"kind\":\"create\"}"));
}

#[test]
fn the_follower_reacts_to_reads_and_the_watcher() {
    assert_eq!(after_read(TailMode::Watching, ReadResult::Line(" x \n".into())), TailAction::Forward("x".into()));
    assert_eq!(after_read(TailMode::Watching, ReadResult::Line("\n".into())), TailAction::ReadAgain);
    assert_eq!(after_read(TailMode::Watching, ReadResult::NoData), TailAction::WaitForChange);
    assert_eq!(after_read(TailMode::Polling, ReadResult::NoData), TailAction::Sleep(500));
    assert_eq!(after_read(TailMode::Polling, ReadResult::Failed), TailAction::Reopen);
    assert_eq!(after_wait(TailMode::Watching, WatchResult::TimedOut), TailMode::Watching);
    assert_eq!(after_wait(TailMode::Watching, WatchResult::Disconnected), TailMode::Polling);
    assert_eq!(reopen_position(100, 40), 0);
    assert_eq!(reopen_position(100, 400), 100);
}
