use mental_os::circuit_breaker::CircuitState;
use mental_os::memory::{Role, SessionSummary};
use mental_os::messages::{BackendRequest, BackendResponse};
use mental_os::panels::AiState;
use mental_os::router::CommandOutput;
use mental_os::shortcuts::{KeyPress, ShortcutBindings};
use mental_os::views::{
    agent_selection_request, apply_font_scale, approval_request, command_result_message,
    high_contrast_notice, input_update, key_action, linked_session_notice, next_font_step,
    project_request, response_update, selected_agent_index, signed_decimal_string, stop_update,
    submitted_input, unreachable_update, AppBar, ApprovalDecision, MessageRole, OmniPill,
    ProjectDecision, Prompt, WindowAction, NotificationCenter, NOTICE_SECONDS,
};

fn press(name: &str, unicode: Option<char>, ctrl: bool, shift: bool) -> KeyPress {
    KeyPress { name: name.to_string(), unicode, ctrl, shift, alt: false }
}

fn summary(title: Option<&str>) -> SessionSummary {
    SessionSummary {
        workspace: "default".to_string(),
        category: "general".to_string(),
        session_id: "20260101-120000".to_string(),
        title: title.map(|t| t.to_string()),
        created_at: 0,
        last_active: 0,
        local_only: false,
    }
}

#[test]
fn message_roles_map_and_style() {
    assert_eq!(MessageRole::from_role(&Role::Assistant), MessageRole::Ai);
    assert_eq!(MessageRole::from_role(&Role::User), MessageRole::User);
    assert_eq!(MessageRole::from_role(&Role::System), MessageRole::System);
    assert_eq!(MessageRole::User.styles(), ("You", "message-role-user", "user-message"));
    assert_eq!(MessageRole::Ai.styles(), ("AI", "message-role-ai", "ai-message"));
    assert_eq!(MessageRole::System.styles(), ("System", "message-role-ai", "system-message"));
}

#[test]
fn only_a_single_approval_runs_the_command() {
    match approval_request(ApprovalDecision::ApproveOnce, "ls -la".to_string()) {
        Some(BackendRequest::ExecuteCommand(c)) => assert_eq!(c, "ls -la"),
        other => panic!("unexpected {:?}", other),
    }
    assert!(approval_request(ApprovalDecision::ApproveSimilar, "ls".to_string()).is_none());
    assert!(approval_request(ApprovalDecision::Deny, "ls".to_string()).is_none());
}

#[test]
fn project_answer_creates_only_when_confirmed() {
    match project_request(ProjectDecision::Create, "demo".to_string(), Some("rust".to_string()), None) {
        Some(BackendRequest::CreateProject { name, language, framework }) => {
            assert_eq!(name, "demo");
            assert_eq!(language.as_deref(), Some("rust"));
            assert!(framework.is_none());
        }
        other => panic!("unexpected {:?}", other),
    }
    assert!(project_request(ProjectDecision::Cancel, "demo".to_string(), None, None).is_none());
}

#[test]
fn blank_prompt_sends_nothing() {
    assert!(submitted_input("   ".to_string()).is_none());
    match submitted_input(" hi ".to_string()) {
        Some(BackendRequest::Input { text, workspace, category }) => {
            assert_eq!(text, " hi ");
            assert_eq!(workspace, "default");
            assert_eq!(category, "general");
        }
        other => panic!("unexpected {:?}", other),
    }
}

#[test]
fn loading_placeholder_is_not_an_agent() {
    assert!(agent_selection_request("Loading...".to_string()).is_none());
    match agent_selection_request("ollama".to_string()) {
        Some(BackendRequest::SwitchAgent(n)) => assert_eq!(n, "ollama"),
        other => panic!("unexpected {:?}", other),
    }
}

#[test]
fn current_agent_is_found_in_any_case() {
    let agents = vec!["openclaw".to_string(), "Ollama".to_string(), "ollama".to_string()];
    assert_eq!(selected_agent_index(&agents, "OLLAMA"), Some(1));
    assert_eq!(selected_agent_index(&agents, "zen"), None);
}

#[test]
fn linked_notice_prefers_the_title() {
    assert_eq!(linked_session_notice(&summary(Some("Demo"))), "Linked project to conversation: Demo");
    assert_eq!(
        linked_session_notice(&summary(None)),
        "Linked project to conversation: 20260101-120000"
    );
}

#[test]
fn app_bar_shows_status_and_busy() {
    let mut bar = AppBar::new();
    assert_eq!(bar.status_text, "[AI: Idle]");
    assert_eq!(bar.status_label, "AI status idle");
    assert!(!bar.busy && !bar.progress_visible);
    bar.set_status("Active");
    bar.set_busy(true);
    assert_eq!(bar.status_text, "[AI: Active]");
    assert_eq!(bar.status_label, "AI status Active");
    assert!(bar.busy && bar.progress_visible);
    bar.set_busy(false);
    assert!(!bar.progress_visible);
    assert_eq!(bar.status_text, "[AI: Active]");
}

#[test]
fn pill_spins_while_the_agent_works() {
    let mut pill = OmniPill::new();
    assert_eq!(pill.status_icon, "\u{26aa}");
    assert!(pill.icon_visible && !pill.spinner_running);
    pill.set_state(AiState::Active);
    assert_eq!(pill.status_icon, "\u{1f535}");
    assert!(pill.spinner_running && pill.spinner_visible && !pill.icon_visible);
    pill.set_state(AiState::Sleep);
    assert!(!pill.spinner_running && pill.icon_visible);
}

#[test]
fn pill_names_the_provider() {
    let mut pill = OmniPill::new();
    pill.set_provider("ollama");
    assert_eq!(pill.provider_text, "ollama");
    assert_eq!(pill.provider_description, "Active AI provider: ollama");
}

#[test]
fn open_breaker_overrides_the_pill_icon() {
    let mut pill = OmniPill::new();
    pill.set_state(AiState::Agentic);
    pill.set_circuit_state(CircuitState::Closed);
    assert_eq!(pill.status_icon, "\u{1f52e}");
    assert!(pill.spinner_running);
    pill.set_circuit_state(CircuitState::Open);
    assert_eq!(pill.status_icon, "\u{1f534}");
    assert!(pill.icon_visible && !pill.spinner_running && !pill.spinner_visible);
    pill.set_circuit_state(CircuitState::HalfOpen);
    assert_eq!(pill.status_icon, "\u{1f7e1}");
}

#[test]
fn signed_numbers_are_written_in_decimal() {
    assert_eq!(signed_decimal_string(0), "0");
    assert_eq!(signed_decimal_string(127), "127");
    assert_eq!(signed_decimal_string(-1), "-1");
    assert_eq!(signed_decimal_string(i32::MIN), "-2147483648");
}

#[test]
fn command_result_is_reported_in_the_chat() {
    let output = CommandOutput {
        command: "ls".to_string(),
        exit_code: 2,
        stdout: "a\nb".to_string(),
        stderr: String::new(),
    };
    assert_eq!(command_result_message(&output), "Executed: `ls`\nExit Code: 2\nOutput:\n```\na\nb\n```");
}

#[test]
fn status_response_marks_the_agent_busy() {
    let u = response_update(BackendResponse::Status("AI is thinking...".to_string()));
    assert_eq!(u.notice.as_deref(), Some("AI is thinking..."));
    assert_eq!(u.status.as_deref(), Some("Active"));
    assert_eq!(u.busy, Some(true));
    assert!(u.chat.is_none() && u.visual.is_none());
}

#[test]
fn chat_response_puts_the_agent_to_sleep() {
    let u = response_update(BackendResponse::Chat("hello".to_string()));
    assert_eq!(u.chat, Some((MessageRole::Ai, "hello".to_string())));
    assert_eq!(u.visual, Some(AiState::Sleep));
    assert_eq!(u.status.as_deref(), Some("Idle"));
    assert_eq!(u.busy, Some(false));
}

#[test]
fn approval_response_asks_the_user() {
    let u = response_update(BackendResponse::ApprovalRequired("rm -rf build".to_string()));
    assert_eq!(u.visual, Some(AiState::Learn));
    assert_eq!(u.status.as_deref(), Some("Approval"));
    assert_eq!(u.busy, Some(false));
    assert!(matches!(u.prompt, Prompt::Approval(ref c) if c == "rm -rf build"));
}

#[test]
fn error_response_is_shown_twice() {
    let u = response_update(BackendResponse::Error("boom".to_string()));
    assert_eq!(u.error_notice.as_deref(), Some("boom"));
    assert_eq!(u.chat, Some((MessageRole::System, "Error: boom".to_string())));
    assert_eq!(u.status.as_deref(), Some("Error"));
}

#[test]
fn project_results_link_only_on_success() {
    let ok = response_update(BackendResponse::ProjectCreated {
        success: true,
        path: Some("/w/demo".to_string()),
        message: "done".to_string(),
    });
    assert_eq!(ok.chat, Some((MessageRole::System, "Project created: done".to_string())));
    assert_eq!(ok.linked_project.as_deref(), Some("/w/demo"));
    let failed = response_update(BackendResponse::ProjectCreated {
        success: false,
        path: Some("/w/demo".to_string()),
        message: "no".to_string(),
    });
    assert_eq!(failed.chat, Some((MessageRole::System, "Project creation failed: no".to_string())));
    assert!(failed.linked_project.is_none());
}

#[test]
fn agent_list_and_breaker_responses() {
    let u = response_update(BackendResponse::AgentList {
        agents: vec!["a".to_string()],
        current: "a".to_string(),
    });
    assert_eq!(u.agents, Some((vec!["a".to_string()], "a".to_string())));
    let c = response_update(BackendResponse::CircuitStateChanged(CircuitState::Open));
    assert_eq!(c.circuit, Some(CircuitState::Open));
    let s = response_update(BackendResponse::AgentSwitched("a".to_string()));
    assert!(s.chat.is_none() && s.status.is_none() && s.notice.is_none());
}

#[test]
fn prompt_submission_and_stop_updates() {
    let u = input_update("hello");
    assert_eq!(u.chat, Some((MessageRole::User, "hello".to_string())));
    assert_eq!(u.visual, Some(AiState::Active));
    assert_eq!(u.busy, Some(true));
    assert!(input_update("  ").chat.is_none());
    let s = stop_update();
    assert_eq!(s.status.as_deref(), Some("Stopped"));
    assert_eq!(s.visual, Some(AiState::Sleep));
    let e = unreachable_update();
    assert_eq!(e.chat, Some((MessageRole::System, "Error: Backend unreachable".to_string())));
}

#[test]
fn key_presses_follow_the_window_order() {
    let bindings = ShortcutBindings::from_pairs(Vec::new());
    assert_eq!(key_action(&bindings, &press("comma", Some(','), true, false)), Some(WindowAction::ManageShortcuts));
    assert_eq!(key_action(&bindings, &press("l", Some('l'), true, false)), Some(WindowAction::FocusInput));
    assert_eq!(key_action(&bindings, &press("F1", None, false, false)), Some(WindowAction::ShowHelp));
    assert_eq!(key_action(&bindings, &press("Escape", None, false, false)), Some(WindowAction::Close));
    assert_eq!(key_action(&bindings, &press("x", Some('x'), false, false)), None);
    let rebound = ShortcutBindings::from_pairs(vec![("new_chat".to_string(), "Ctrl+L".to_string())]);
    assert_eq!(key_action(&rebound, &press("l", Some('l'), true, false)), Some(WindowAction::NewChat));
}

#[test]
fn font_steps_stay_between_small_and_large() {
    assert_eq!(next_font_step(2, WindowAction::FontIncrease), 2);
    assert_eq!(next_font_step(1, WindowAction::FontIncrease), 2);
    assert_eq!(next_font_step(0, WindowAction::FontDecrease), 0);
    assert_eq!(next_font_step(2, WindowAction::FontReset), 1);
    assert_eq!(apply_font_scale(0), ("font-small", "Font size: small"));
    assert_eq!(apply_font_scale(1), ("font-medium", "Font size: normal"));
    assert_eq!(apply_font_scale(2), ("font-large", "Font size: large"));
    assert_eq!(high_contrast_notice(true), "High contrast mode: ON");
    assert_eq!(high_contrast_notice(false), "High contrast mode: OFF");
}

#[test]
fn a_later_notice_outlives_the_earlier_timer() {
    let mut n = NotificationCenter::new();
    assert!(!n.revealed && n.text.is_empty());
    let first = n.show("Saved");
    assert!(n.revealed);
    let second = n.show("Shortcuts updated");
    assert_eq!(n.text, "Shortcuts updated");
    n.expire(first);
    assert!(n.revealed);
    n.expire(second);
    assert!(!n.revealed);
    let third = n.show("again");
    n.dismiss();
    assert!(!n.revealed);
    n.expire(third);
    assert!(!n.revealed);
    assert_eq!(NOTICE_SECONDS, 4);
}

#[test]
fn notice_counter_wraps_around() {
    let mut n = NotificationCenter { text: String::new(), revealed: false, generation: u64::MAX };
    assert_eq!(n.show("x"), 0);
}
