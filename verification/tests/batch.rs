use mental_os::error::MentalOSError;
use mental_os::router::{input_steps, route_input, run_batch, CommandExecutor, CommandOutput, InputRoute, InputStep};
use mental_os::whitelist::WhitelistManager;
use std::path::PathBuf;

struct Echo;

impl CommandExecutor for Echo {
    fn execute(&self, command: &str) -> Result<CommandOutput, MentalOSError> {
        if command == "boom" {
            return Err(MentalOSError::CommandFailed("boom".to_string()));
        }
        Ok(CommandOutput { command: command.to_string(), exit_code: 0, stdout: String::new(), stderr: String::new() })
    }
}

#[test]
fn batch_runs_exactly_the_allowed_commands_in_order() {
    let mut whitelist = WhitelistManager::new(PathBuf::from("/tmp/mentalos-batch-whitelist.json"));
    whitelist.add_exact("ls");
    whitelist.add_pattern("git *");
    let commands = vec!["git status".to_string(), "rm -rf /".to_string(), "ls".to_string(), "curl x".to_string()];
    let batch = run_batch(commands, &mut whitelist, &Echo, 1_000).unwrap();
    let response = batch.finish("done".to_string());
    let ran: Vec<String> = response.outputs.iter().map(|o| o.command.clone()).collect();
    assert_eq!(ran, vec!["git status".to_string(), "ls".to_string()]);
    assert_eq!(response.approvals_required, vec!["rm -rf /".to_string(), "curl x".to_string()]);
    assert_eq!(response.message, "done");
}

#[test]
fn batch_stops_on_a_blank_command_or_a_failed_run() {
    let mut whitelist = WhitelistManager::new(PathBuf::from("/tmp/mentalos-batch-whitelist-2.json"));
    whitelist.add_exact("boom");
    assert!(run_batch(vec!["   ".to_string()], &mut whitelist, &Echo, 0).is_err());
    assert!(run_batch(vec!["boom".to_string()], &mut whitelist, &Echo, 0).is_err());
    let empty = run_batch(Vec::new(), &mut whitelist, &Echo, 0).unwrap().finish(String::new());
    assert!(empty.outputs.is_empty() && empty.approvals_required.is_empty());
}

#[test]
fn batch_of_queued_commands_succeeds_without_running_any() {
    let mut whitelist = WhitelistManager::new(PathBuf::from("/tmp/mentalos-batch-whitelist-3.json"));
    let batch = run_batch(vec!["rm x".to_string(), "curl y".to_string()], &mut whitelist, &Echo, 0).unwrap();
    let response = batch.finish(String::new());
    assert!(response.outputs.is_empty());
    assert_eq!(response.approvals_required.len(), 2);
}

#[test]
fn input_steps_follow_the_route() {
    let steps = input_steps(&InputRoute::AskAgent);
    assert_eq!(steps.first(), Some(&InputStep::RecordInput));
    assert_eq!(steps.last(), Some(&InputStep::Answer));
    let run = steps.iter().position(|s| *s == InputStep::RunCommands).unwrap();
    let record = steps.iter().position(|s| *s == InputStep::RecordReply).unwrap();
    assert!(run < record);
    assert_eq!(input_steps(&route_input("switch to ollama")), vec![InputStep::SwitchAgent]);
}
