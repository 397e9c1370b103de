//! Messages between the user interface and the backend.
use crate::circuit_breaker::CircuitState;
use crate::router::CommandOutput;
use crate::workspace_events::WorkspaceEvent;
use vstd::prelude::*;

verus! {

/// Requests sent from the user interface to the backend.
#[derive(Debug, Clone)]
pub enum BackendRequest {
    /// Text typed by the user.
    Input { text: String, workspace: String, category: String },
    /// Run a command that the user approved.
    ExecuteCommand(String),
    /// Stop all running work at once.
    EmergencyStop,
    /// Ask for the list of agents.
    GetAgents,
    /// Make another agent the active one.
    SwitchAgent(String),
    /// Create a project that the user confirmed.
    CreateProject { name: String, language: Option<String>, framework: Option<String> },
    /// Run a project command (run, test, setup).
    RunProjectCommand { workspace: String, command_type: String },
    /// Check whether the current provider is reachable.
    CheckProviderHealth,
}

/// Responses sent from the backend to the user interface.
#[derive(Debug, Clone)]
pub enum BackendResponse {
    Status(String),
    Chat(String),
    CommandResult(CommandOutput),
    ApprovalRequired(String),
    Error(String),
    AgentList { agents: Vec<String>, current: String },
    AgentSwitched(String),
    ProjectConfirmationRequired { name: String, language: Option<String>, framework: Option<String> },
    ProjectCreated { success: bool, path: Option<String>, message: String },
    ProviderHealth { provider: String, healthy: bool },
    CircuitStateChanged(CircuitState),
    WorkspaceEvent(WorkspaceEvent),
}

} // verus!
