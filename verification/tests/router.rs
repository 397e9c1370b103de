use mental_os::memory::{Message, MessageAction, Role};
use mental_os::error::MentalOSError;
use mental_os::whitelist::WhitelistDecision;
use mental_os::router::{
    creation_record, no_project_workspace, project_command_outcome, project_command_unresolved,
    project_commands_disabled, related_session_note, route_input, switch_reply, BatchStep,
    CommandBatch, CommandOutput, InputRoute,
    build_smart_context_message, extract_recent_commands, extract_user_goals, infer_goal_phrase,
    summarize_recent_conversation,
    build_workspace_command, detect_project_command_intent, extract_code_blocks,
    parse_ai_response, parse_switch_target, push_unique, shell_quote, FirejailExecutor,
    StructuredResponse, resolve_workspace_choice,
};

#[test]
fn detect_project_command_intent_handles_phrase_variants() {
    assert_eq!(
        detect_project_command_intent("run this project now"),
        Some("run")
    );
    assert_eq!(
        detect_project_command_intent("test the project please"),
        Some("test")
    );
    assert_eq!(
        detect_project_command_intent("build this quickly"),
        Some("setup")
    );
    assert_eq!(detect_project_command_intent("open docs"), None);
}

#[test]
fn parse_switch_target_handles_spacing_and_optional_agent_keyword() {
    assert_eq!(parse_switch_target("switch to ollama").as_deref(), Some("ollama"));
    assert_eq!(
        parse_switch_target("switch agent to   openclaw  ").as_deref(),
        Some("openclaw")
    );
    assert_eq!(
        parse_switch_target("switch Agent to phi3:mini").as_deref(),
        Some("phi3:mini")
    );
    assert_eq!(parse_switch_target("switch openclaw"), None);
    assert_eq!(parse_switch_target("switch to"), None);
}

#[test]
fn shell_quote_escapes_single_quotes() {
    assert_eq!(shell_quote("plain"), "'plain'");
    assert_eq!(shell_quote("it's"), "'it'\\''s'");
    assert_eq!(
        build_workspace_command("/tmp/my app", "cargo run"),
        "sh -lc 'cd '\\''/tmp/my app'\\'' && cargo run'"
    );
}

#[test]
fn push_unique_trims_and_skips_repeats() {
    let mut v = Vec::new();
    push_unique(&mut v, "  cargo test ");
    push_unique(&mut v, "cargo test");
    push_unique(&mut v, "   ");
    push_unique(&mut v, "cargo run");
    assert_eq!(v, vec!["cargo test".to_string(), "cargo run".to_string()]);
}

#[test]
fn executor_tracks_running_processes() {
    let mut e = FirejailExecutor::new().with_timeout_secs(5).with_network(true);
    assert_eq!(e.timeout_secs(), 5);
    assert!(e.allows_network());
    e.remember_pid(42);
    e.remember_pid(7);
    e.forget_pid(42);
    assert_eq!(e.active_pids().len(), 1);
    assert!(e.active_pids().contains(&7));
}

#[test]
fn parse_ai_response_extracts_unique_commands_from_mixed_blocks() {
    let text = r#"
message text
```json
{"commands":["cargo test","cargo test","cargo run"]}
```
```bash
cargo run
# comment
echo hi
```
$ echo hi
> git status
"#;
    // the reply is not JSON as a whole; its json block decodes to a command list
    let blocks = extract_code_blocks(text);
    assert_eq!(blocks.len(), 2);
    let decoded = vec![
        Some(StructuredResponse {
            message: None,
            commands: Some(vec![
                "cargo test".to_string(),
                "cargo test".to_string(),
                "cargo run".to_string(),
            ]),
        }),
        None,
    ];
    let parsed = parse_ai_response(text, None, &decoded);
    assert_eq!(
        parsed.commands,
        vec![
            "cargo test".to_string(),
            "cargo run".to_string(),
            "echo hi".to_string(),
            "git status".to_string(),
        ]
    );
    assert_eq!(parsed.message, text);
}

#[test]
fn parse_ai_response_handles_invalid_json_block_without_panicking() {
    let text = r#"
```json
{not valid json}
```
```sh
pwd
```
"#;
    // the json block does not decode
    let decoded = vec![None, None];
    let parsed = parse_ai_response(text, None, &decoded);
    assert_eq!(parsed.commands, vec!["pwd".to_string()]);
}

#[test]
fn code_blocks_carry_lower_cased_language_and_body() {
    let blocks = extract_code_blocks("intro\n```Bash\nls -la\n```\n```\nplain\n```");
    assert_eq!(
        blocks,
        vec![
            ("bash".to_string(), "ls -la\n".to_string()),
            ("".to_string(), "plain\n".to_string()),
        ]
    );
}

#[test]
fn structured_reply_is_taken_as_it_is() {
    let whole = StructuredResponse {
        message: Some("ok".to_string()),
        commands: Some(vec![" echo hello ".to_string(), " echo hello ".to_string()]),
    };
    let parsed = parse_ai_response("{...}", Some(whole), &vec![]);
    assert_eq!(parsed.message, "ok");
    assert_eq!(parsed.commands, vec![" echo hello ".to_string(), " echo hello ".to_string()]);
    let bare = StructuredResponse { message: None, commands: None };
    let parsed = parse_ai_response("{}", Some(bare), &vec![]);
    assert_eq!(parsed.message, "{}");
    assert!(parsed.commands.is_empty());
}

fn msg(role: Role, content: &str) -> Message {
    Message { role, content: content.to_string(), timestamp: 0, actions: Vec::new() }
}

fn ran(command: &str) -> MessageAction {
    MessageAction { action_type: "run_command".to_string(), path: None, command: Some(command.to_string()) }
}

#[test]
fn smart_context_message_includes_workspace_and_commands() {
    let mut done = msg(Role::Assistant, "done");
    done.actions.push(ran("cargo test"));
    let msg = build_smart_context_message(
        &vec![done],
        Some("/tmp/workspaces/demo"),
        &vec![],
        "I need to deploy this",
        0,
    )
    .unwrap();
    assert!(msg.content.contains("current_working_directory"));
    assert!(msg.content.contains("recent_commands"));
    assert!(msg.content.contains("cargo test"));
    assert!(msg.content.contains("inferred_goals"));
}

#[test]
fn smart_context_message_reads_in_full() {
    let mut done = msg(Role::Assistant, "done\nmore");
    done.actions.push(ran("cargo test"));
    let m = build_smart_context_message(
        &vec![msg(Role::User, "TODO ship it"), done],
        None,
        &vec!["a.rs".to_string(), "b.rs".to_string()],
        "hello",
        7,
    )
    .unwrap();
    assert_eq!(m.role, Role::System);
    assert_eq!(m.timestamp, 7);
    assert_eq!(
        m.content,
        "Runtime context snapshot:\n- current_working_directory: <unknown>\n- open_files: a.rs, b.rs\n- recent_commands: cargo test\n- previous_summary: user: TODO ship it | assistant: done\n- inferred_goals: TODO ship it"
    );
}

#[test]
fn extract_user_goals_deduplicates_and_respects_limit() {
    let context = vec![
        msg(Role::User, "I need to ship v0.7"),
        msg(Role::User, "TODO stabilize sync export"),
        msg(Role::Assistant, "Acknowledged"),
        msg(Role::User, "remember to verify onboarding"),
    ];

    let goals = extract_user_goals(&context, "goal polish accessibility", 2);
    assert_eq!(goals.len(), 3);
    assert!(goals.iter().any(|g| g.to_lowercase().contains("goal polish")));
    assert!(goals.iter().any(|g| g.to_lowercase().contains("todo stabilize")));
    assert!(goals.iter().any(|g| g.to_lowercase().contains("remember to verify")));

    let deduped = extract_user_goals(&context, "TODO stabilize sync export", 4);
    let dup_count = deduped
        .iter()
        .filter(|g| g.to_lowercase().contains("todo stabilize sync export"))
        .count();
    assert_eq!(dup_count, 1);
}

#[test]
fn goal_phrases_start_at_their_marker() {
    assert_eq!(infer_goal_phrase("Well, I need to  rest "), Some("I need to  rest".to_string()));
    assert_eq!(infer_goal_phrase("my GOAL: win"), Some("GOAL: win".to_string()));
    assert_eq!(infer_goal_phrase("nothing here"), None);
    // "i need to" is looked for before "todo", wherever it stands
    assert_eq!(infer_goal_phrase("todo later; i need to eat"), Some("i need to eat".to_string()));
}

#[test]
fn recent_commands_are_distinct_and_newest() {
    let mut a = msg(Role::Assistant, "x");
    a.actions.push(ran("ls"));
    a.actions.push(ran("pwd"));
    let mut b = msg(Role::Assistant, "y");
    b.actions.push(ran("ls"));
    b.actions.push(ran("git status"));
    let context = vec![a, b];
    assert_eq!(
        extract_recent_commands(&context, 5),
        vec!["pwd".to_string(), "git status".to_string(), "ls".to_string()]
    );
    assert_eq!(extract_recent_commands(&context, 2), vec!["git status".to_string(), "ls".to_string()]);
}

#[test]
fn summaries_clip_long_first_lines() {
    let long = "x".repeat(130);
    let context = vec![msg(Role::User, &long), msg(Role::System, "  \nignored"), msg(Role::Assistant, "ok\nmore")];
    let s = summarize_recent_conversation(&context, 3);
    assert_eq!(s, format!("user: {}... | assistant: ok", "x".repeat(120)));
    assert_eq!(summarize_recent_conversation(&context, 1), "assistant: ok");
}

#[test]
fn inputs_are_routed() {
    assert!(matches!(route_input("switch to ollama"), InputRoute::SwitchAgent(ref t) if t == "ollama"));
    assert!(matches!(route_input("run tests now"), InputRoute::ProjectCommand("test")));
    assert!(matches!(route_input("what is rust?"), InputRoute::AskAgent));
}

#[test]
fn switch_replies_name_the_agents() {
    let ok = switch_reply("phi", Ok("Switched to agent: Phi".to_string()), &vec![]);
    assert_eq!(ok.message, "Switched to agent: Phi");
    assert!(ok.outputs.is_empty() && ok.approvals_required.is_empty());
    let err = switch_reply(
        "zzz",
        Err(MentalOSError::Other("Agent 'zzz' not found".into())),
        &vec!["ollama".to_string(), "openclaw".to_string()],
    );
    assert_eq!(err.message, "Agent 'zzz' not found. Available agents: ollama, openclaw");
}

#[test]
fn command_batches_run_allowed_and_queue_the_rest() {
    let mut wl = mental_os::whitelist::WhitelistManager::new(std::path::PathBuf::from("/tmp/w.json"));
    wl.add_exact("echo hello");
    let mut batch = CommandBatch::new(vec!["echo hello".to_string(), "rm -rf x".to_string(), " ".to_string()]);
    match batch.next_step_at(&mut wl, 0) {
        Ok(BatchStep::Execute(c)) => {
            assert_eq!(c, "echo hello");
            batch.record_output(CommandOutput { command: c, exit_code: 0, stdout: "hello".into(), stderr: String::new() });
        }
        other => panic!("unexpected {:?}", other),
    }
    assert!(matches!(batch.next_step_at(&mut wl, 0), Ok(BatchStep::Queued)));
    assert!(matches!(batch.next_step_at(&mut wl, 0), Err(MentalOSError::InvalidCommand(_))));
    assert!(matches!(batch.next_step_at(&mut wl, 0), Ok(BatchStep::Done)));
    let actions = batch.actions();
    assert_eq!(actions.len(), 2);
    assert_eq!(actions[0].action_type, "run_command");
    assert_eq!(actions[0].command.as_deref(), Some("echo hello"));
    assert_eq!(actions[1].action_type, "approval_required");
    assert_eq!(actions[1].command.as_deref(), Some("rm -rf x"));
    let response = batch.finish("done".to_string());
    assert_eq!(response.message, "done");
    assert_eq!(response.outputs.len(), 1);
    assert_eq!(response.approvals_required, vec!["rm -rf x".to_string()]);
}

#[test]
fn project_command_outcomes_say_what_happens() {
    let note = related_session_note(None, "abc");
    assert_eq!(note, "(related conversation: abc)");
    let ran = project_command_outcome("run", "/w/demo", "cargo run", "sh -lc 'x'", Some(note.clone()), WhitelistDecision::Allowed);
    assert_eq!(ran.message, "Executed project run command in /w/demo. (related conversation: abc)");
    assert_eq!(ran.execute.as_deref(), Some("sh -lc 'x'"));
    assert!(ran.approvals.is_empty());
    assert_eq!(ran.action.action_type, "project_command_executed");
    let asked = project_command_outcome("run", "/w/demo", "cargo run", "sh -lc 'x'", None, WhitelistDecision::NeedsApproval);
    assert_eq!(asked.message, "Project command requires approval:\ncargo run\n(workspace: /w/demo)");
    assert!(asked.execute.is_none());
    assert_eq!(asked.approvals, vec!["sh -lc 'x'".to_string()]);
    assert_eq!(asked.action.action_type, "project_command_requested");
    assert_eq!(asked.action.path.as_deref(), Some("/w/demo"));
    assert_eq!(asked.action.command.as_deref(), Some("cargo run"));
    assert_eq!(related_session_note(Some("Chat".into()), "abc"), "(related conversation: Chat)");
}

#[test]
fn fixed_project_replies() {
    assert_eq!(project_commands_disabled().message, "Project commands are not enabled yet.");
    assert_eq!(no_project_workspace().message, "No project workspace found. Create a project first.");
    let e = MentalOSError::Other("No run command found".into());
    assert_eq!(project_command_unresolved(&e).message, "other error: No run command found");
}

#[test]
fn created_projects_are_recorded() {
    assert!(creation_record(false, "failed", None).is_none());
    let (m, actions) = creation_record(true, "Created", Some("/w/p".into())).unwrap();
    assert_eq!(m, "Created");
    assert_eq!(actions.len(), 1);
    assert_eq!(actions[0].action_type, "create_project");
    assert_eq!(actions[0].path.as_deref(), Some("/w/p"));
}

#[test]
fn sandboxed_commands_run_inside_firejail() {
    let e = FirejailExecutor::new();
    let args = e.sandbox_arguments("echo 'hello world'", false, false).unwrap();
    assert_eq!(args, vec!["--quiet", "--x11=none", "--net=none", "--", "echo", "hello world"]);
    let open = FirejailExecutor::new().with_network(true);
    let args = open.sandbox_arguments("ls -la", true, true).unwrap();
    assert_eq!(
        args,
        vec!["--quiet", "--profile=firejail/openclaw.profile", "--x11=none", "--", "ls", "-la"]
    );
    let args = e.sandbox_arguments("ls", false, true).unwrap();
    assert_eq!(args[1], "--profile=openclaw");
    assert!(matches!(e.sandbox_arguments("  ", false, false), Err(MentalOSError::InvalidCommand(m)) if m == "Empty command"));
    assert!(matches!(
        e.sandbox_arguments("echo 'open", false, false),
        Err(MentalOSError::InvalidCommand(m)) if m == "Parse error: missing closing quote"
    ));
    let slow = FirejailExecutor::new().with_timeout_secs(7);
    assert!(matches!(slow.timeout_error(), MentalOSError::CommandFailed(m) if m == "Command timed out after 7 seconds"));
}

#[test]
fn a_workspace_name_resolves_to_a_path_or_the_latest_workspace() {
    let listed = vec![
        ("/w/a".to_string(), Some(5)),
        ("/w/b".to_string(), None),
        ("/w/c".to_string(), Some(9)),
        ("/w/d".to_string(), Some(9)),
    ];
    assert_eq!(resolve_workspace_choice(Some("/direct".into()), Some("/w/x".into()), &listed), Some("/direct".to_string()));
    assert_eq!(resolve_workspace_choice(None, Some("/w/x".into()), &listed), Some("/w/x".to_string()));
    assert_eq!(resolve_workspace_choice(None, None, &listed), Some("/w/d".to_string()));
    assert_eq!(resolve_workspace_choice(None, None, &vec![("/w/only".to_string(), None)]), Some("/w/only".to_string()));
    assert_eq!(resolve_workspace_choice(None, None, &vec![]), None);
}

#[test]
fn recent_commands_are_distinct_and_capped() {
    let action = |c: &str| MessageAction { action_type: "run_command".into(), path: None, command: Some(c.into()) };
    let context = vec![
        Message { role: Role::Assistant, content: "a".into(), timestamp: 0, actions: vec![action("ls"), action("pwd")] },
        Message { role: Role::Assistant, content: "b".into(), timestamp: 0, actions: vec![action("ls"), action("whoami")] },
    ];
    assert_eq!(extract_recent_commands(&context, 5), vec!["pwd", "whoami", "ls"]);
    assert_eq!(extract_recent_commands(&context, 2), vec!["whoami", "ls"]);
    assert_eq!(extract_recent_commands(&context, 0), vec!["ls"]);
}
