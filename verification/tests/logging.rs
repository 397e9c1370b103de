use mental_os::logging::{
    default_log_filter, default_log_path, env_flag, env_flag_default_true, expand_home_path, json_log_format,
    log_file_path, log_line, log_max_bytes, needs_rotation, parse_u64, resolve_workspace_dir,
    rotated_log_path, DEFAULT_LOG_MAX_BYTES,
};

#[test]
fn expand_home_path_preserves_absolute_path() {
    assert_eq!(expand_home_path("/tmp/workspace", Some("/home/u")), "/tmp/workspace");
}

#[test]
fn expand_home_path_handles_tilde_prefix() {
    assert_eq!(expand_home_path("~/workspace", Some("/home/u")), "/home/u/workspace");
    assert_eq!(expand_home_path("~/workspace", None), "~/workspace");
    assert_eq!(expand_home_path("~", Some("/home/u")), "~");
}

#[test]
fn resolve_workspace_dir_honours_env_var() {
    assert_eq!(resolve_workspace_dir(Some("/tmp/test-workspaces"), Some("/home/u")), "/tmp/test-workspaces");
}

#[test]
fn resolve_workspace_dir_falls_back_to_home() {
    assert_eq!(resolve_workspace_dir(None, Some("/home/u")), "/home/u/workspaces");
    assert_eq!(resolve_workspace_dir(None, None), "/home/user/workspaces");
}

#[test]
fn flags_read_common_spellings() {
    assert!(env_flag(Some("1")));
    assert!(env_flag(Some("TRUE")));
    assert!(env_flag(Some("Yes")));
    assert!(!env_flag(Some("on")));
    assert!(!env_flag(None));
    assert!(env_flag_default_true(None));
    assert!(env_flag_default_true(Some("whatever")));
    assert!(!env_flag_default_true(Some("0")));
    assert!(!env_flag_default_true(Some("False")));
    assert!(!env_flag_default_true(Some("NO")));
}

#[test]
fn log_level_and_format() {
    assert_eq!(default_log_filter(true), "debug");
    assert_eq!(default_log_filter(false), "info");
    assert!(json_log_format(Some("JSON")));
    assert!(!json_log_format(Some("text")));
    assert!(!json_log_format(None));
    assert_eq!(log_line("t", "INFO", "app", "hello"), "[t INFO app] hello");
}

#[test]
fn log_size_limit_and_rotation() {
    assert_eq!(DEFAULT_LOG_MAX_BYTES, 5 * 1024 * 1024);
    assert_eq!(log_max_bytes(Some("1024")), 1024);
    assert_eq!(log_max_bytes(Some("+7")), 7);
    assert_eq!(log_max_bytes(Some("-1")), DEFAULT_LOG_MAX_BYTES);
    assert_eq!(log_max_bytes(Some("18446744073709551616")), DEFAULT_LOG_MAX_BYTES);
    assert_eq!(log_max_bytes(None), DEFAULT_LOG_MAX_BYTES);
    assert_eq!(parse_u64("18446744073709551615"), Some(u64::MAX));
    assert_eq!(parse_u64(""), None);
    assert_eq!(parse_u64("+"), None);
    assert!(needs_rotation(Some(10), 10));
    assert!(!needs_rotation(Some(9), 10));
    assert!(!needs_rotation(None, 0));
    assert_eq!(rotated_log_path("/var/log/m.log"), "/var/log/m.log.1");
}

#[test]
fn log_file_location() {
    assert_eq!(log_file_path(Some("  /x/y.log "), Some("/state")), "/x/y.log");
    assert_eq!(log_file_path(Some("   "), Some("/state")), "/state/mentalOS/logs/mentalOS.log");
    assert_eq!(log_file_path(None, None), "/tmp/mentalOS.log");
}

#[test]
fn default_log_path_returns_path_based_on_home() {
    let path = default_log_path(Some("/home/user"));
    assert!(path.contains(".local/share/mentalOS/logs"));
    assert_eq!(path, "/home/user/.local/share/mentalOS/logs");
    assert_eq!(default_log_path(None), "/tmp/.local/share/mentalOS/logs");
}
