use mental_os::chat_format::{
    anthropic_answer, anthropic_request, chat_messages, first_choice_answer, provider_kind,
    role_name, zen_switch_message, ProviderKind,
};
use mental_os::error::MentalOSError;
use mental_os::memory::{Message, Role};

fn msg(role: Role, content: &str) -> Message {
    Message { role, content: content.to_string(), timestamp: 0, actions: Vec::new() }
}

#[test]
fn providers_are_chosen_by_name() {
    assert_eq!(provider_kind("openclaw").unwrap(), ProviderKind::OpenClaw);
    assert_eq!(provider_kind("ollama").unwrap(), ProviderKind::Ollama);
    assert_eq!(provider_kind("deepseek").unwrap(), ProviderKind::DeepSeek);
    assert_eq!(provider_kind("zen").unwrap(), ProviderKind::Zen);
    match provider_kind("mystery") {
        Err(MentalOSError::ConfigInvalid(m)) => assert_eq!(
            m,
            "Unknown AI provider: 'mystery'. Supported providers: openclaw, ollama, deepseek, zen"
        ),
        other => panic!("unexpected {:?}", other),
    }
}

#[test]
fn chat_requests_end_with_the_new_message() {
    let context = vec![msg(Role::System, "be brief"), msg(Role::User, "hi"), msg(Role::Assistant, "hello")];
    let m = chat_messages(&context, "next");
    let expected: Vec<(String, String)> = vec![
        ("system".into(), "be brief".into()),
        ("user".into(), "hi".into()),
        ("assistant".into(), "hello".into()),
        ("user".into(), "next".into()),
    ];
    assert_eq!(m, expected);
    assert_eq!(role_name(Role::Assistant), "assistant");
}

#[test]
fn anthropic_requests_move_system_messages_to_the_prompt() {
    let context = vec![
        msg(Role::System, "rule one"),
        msg(Role::User, "hi"),
        msg(Role::System, "rule two"),
        msg(Role::Assistant, "hello"),
    ];
    let (system, messages) = anthropic_request(&context, "next");
    assert_eq!(system.as_deref(), Some("rule one\nrule two"));
    let expected: Vec<(String, String)> = vec![
        ("user".into(), "hi".into()),
        ("assistant".into(), "hello".into()),
        ("user".into(), "next".into()),
    ];
    assert_eq!(messages, expected);
    let (system, messages) = anthropic_request(&vec![msg(Role::System, "")], "x");
    assert_eq!(system, None);
    assert_eq!(messages.len(), 1);
}

#[test]
fn reply_texts_are_read_from_blocks_and_choices() {
    let blocks = vec![
        ("text".to_string(), Some("a".to_string())),
        ("tool_use".to_string(), Some("ignored".to_string())),
        ("text".to_string(), None),
        ("text".to_string(), Some("b".to_string())),
    ];
    assert_eq!(anthropic_answer(&blocks).unwrap(), "a\nb");
    assert!(matches!(anthropic_answer(&vec![]), Err(MentalOSError::Other(m)) if m == "Zen returned empty content"));
    assert_eq!(first_choice_answer(vec![Some("x".into()), None]).unwrap(), "x");
    assert!(matches!(first_choice_answer(vec![]), Err(MentalOSError::Other(m)) if m == "Zen returned no choices"));
    assert!(matches!(first_choice_answer(vec![None]), Err(MentalOSError::Other(m)) if m == "Zen returned empty content"));
}


#[test]
fn zen_model_switches_are_reported() {
    let message = zen_switch_message("deepseek-v4-pro", "big-pickle");
    assert_eq!(message, "Switched Zen model from deepseek-v4-pro to big-pickle");
}
