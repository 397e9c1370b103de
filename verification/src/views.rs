//! What the desktop window shows and how it reacts: the app bar and the
//! status pill held as plain values, the style of each chat row, what each
//! backend response changes on screen, what the user's input and choices
//! send to the backend, and which action a key press starts.
use crate::circuit_breaker::CircuitState;
use crate::memory::{Role, SessionSummary};
use crate::messages::{BackendRequest, BackendResponse};
use crate::panels::{circuit_state_icon, AiState};
use crate::router::CommandOutput;
use crate::shortcuts::{
    help_fallback, is_help_fallback_shortcut, press_matches, shortcut_of, KeyPress, ShortcutBindings,
};
use crate::text::{
    concat2, decimal, decimal_string, eq_ignore_case, opt_text, str_eq, str_eq_ignore_case, trim_str, trimmed,
};
use vstd::prelude::*;
use vstd::string::*;

verus! {

// ---------------------------------------------------------------------------
// Chat rows
// ---------------------------------------------------------------------------

/// Who a chat row is from.
#[derive(Debug, Clone, Copy, PartialEq, Eq, Structural)]
pub enum MessageRole {
    User,
    Ai,
    System,
}

/// The header text, header style class and row style class of a role.
pub open spec fn row_styles(r: MessageRole) -> (Seq<char>, Seq<char>, Seq<char>) {
    match r {
        MessageRole::User => ("You"@, "message-role-user"@, "user-message"@),
        MessageRole::Ai => ("AI"@, "message-role-ai"@, "ai-message"@),
        MessageRole::System => ("System"@, "message-role-ai"@, "system-message"@),
    }
}

impl MessageRole {
    /// The row role of a stored message: the assistant's messages are the
    /// AI's.
    pub fn from_role(role: &Role) -> (r: MessageRole)
        ensures
            r == match *role {
                Role::User => MessageRole::User,
                Role::Assistant => MessageRole::Ai,
                Role::System => MessageRole::System,
            },
    {
        match role {
            Role::User => MessageRole::User,
            Role::Assistant => MessageRole::Ai,
            Role::System => MessageRole::System,
        }
    }

    /// The header text, header style class and row style class of the role.
    pub fn styles(&self) -> (r: (&'static str, &'static str, &'static str))
        ensures
            (r.0@, r.1@, r.2@) == row_styles(*self),
    {
        proof {
            reveal_strlit("You");
            reveal_strlit("AI");
            reveal_strlit("System");
            reveal_strlit("message-role-user");
            reveal_strlit("message-role-ai");
            reveal_strlit("user-message");
            reveal_strlit("ai-message");
            reveal_strlit("system-message");
        }
        match self {
            MessageRole::User => ("You", "message-role-user", "user-message"),
            MessageRole::Ai => ("AI", "message-role-ai", "ai-message"),
            MessageRole::System => ("System", "message-role-ai", "system-message"),
        }
    }
}

// ---------------------------------------------------------------------------
// Dialog outcomes
// ---------------------------------------------------------------------------

/// What the user answered when asked to approve a command.
#[derive(Debug, Clone, Copy, PartialEq, Eq, Structural)]
pub enum ApprovalDecision {
    ApproveOnce,
    ApproveSimilar,
    Deny,
}

/// What the user answered when asked to create a project.
#[derive(Debug, Clone, Copy, PartialEq, Eq, Structural)]
pub enum ProjectDecision {
    Create,
    Cancel,
}

/// The request an approval answer sends: the command is run only when it
/// was approved once; any other answer sends nothing.
pub fn approval_request(decision: ApprovalDecision, command: String) -> (r: Option<BackendRequest>)
    ensures
        decision == ApprovalDecision::ApproveOnce ==> (r matches Some(BackendRequest::ExecuteCommand(c))
            && c@ == command@),
        decision != ApprovalDecision::ApproveOnce ==> r is None,
{
    match decision {
        ApprovalDecision::ApproveOnce => Some(BackendRequest::ExecuteCommand(command)),
        _ => None,
    }
}

/// The request a project answer sends: the project is created only when
/// the user chose to create it.
pub fn project_request(
    decision: ProjectDecision,
    name: String,
    language: Option<String>,
    framework: Option<String>,
) -> (r: Option<BackendRequest>)
    ensures
        decision == ProjectDecision::Create ==> (r matches Some(
            BackendRequest::CreateProject { name: n, language: l, framework: f },
        ) && n@ == name@ && l == language && f == framework),
        decision == ProjectDecision::Cancel ==> r is None,
{
    match decision {
        ProjectDecision::Create => Some(BackendRequest::CreateProject { name, language, framework }),
        ProjectDecision::Cancel => None,
    }
}

/// The request sent when the user submits the prompt: nothing for a blank
/// prompt, else the text, for the default workspace's general category.
pub fn submitted_input(text: String) -> (r: Option<BackendRequest>)
    ensures
        trimmed(text@).len() == 0 ==> r is None,
        trimmed(text@).len() != 0 ==> (r matches Some(BackendRequest::Input { text: t, workspace: w, category: c })
            && t@ == text@ && w@ == "default"@ && c@ == "general"@),
{
    let t = trim_str(text.as_str());
    if t.as_str().unicode_len() == 0 {
        None
    } else {
        Some(
            BackendRequest::Input {
                text,
                workspace: String::from_str("default"),
                category: String::from_str("general"),
            },
        )
    }
}

/// The request sent when an agent is picked from the list: none for the
/// placeholder entry shown while the list loads.
pub fn agent_selection_request(name: String) -> (r: Option<BackendRequest>)
    ensures
        name@ == "Loading..."@ ==> r is None,
        name@ != "Loading..."@ ==> (r matches Some(BackendRequest::SwitchAgent(n)) && n@ == name@),
{
    if str_eq(name.as_str(), "Loading...") {
        None
    } else {
        Some(BackendRequest::SwitchAgent(name))
    }
}

/// The position of the current agent in the agent list, compared in any
/// ASCII case: the first such entry.
pub open spec fn current_agent_index(agents: Seq<Seq<char>>, current: Seq<char>, i: int) -> bool {
    &&& 0 <= i < agents.len()
    &&& eq_ignore_case(agents[i], current)
    &&& forall|j: int| 0 <= j < i ==> !eq_ignore_case(#[trigger] agents[j], current)
}

/// The entry of the agent list to select for the current agent.
pub fn selected_agent_index(agents: &Vec<String>, current: &str) -> (r: Option<usize>)
    ensures
        match r {
            Some(i) => current_agent_index(agents@.map_values(|s: String| s@), current@, i as int),
            None => forall|j: int|
                0 <= j < agents@.len() ==> !eq_ignore_case(#[trigger] agents@[j]@, current@),
        },
{
    let mut i: usize = 0;
    while i < agents.len()
        invariant
            i <= agents@.len(),
            forall|j: int| 0 <= j < i ==> !eq_ignore_case(#[trigger] agents@[j]@, current@),
        decreases agents@.len() - i,
    {
        if str_eq_ignore_case(agents[i].as_str(), current) {
            proof {
                let names = agents@.map_values(|s: String| s@);
                assert forall|j: int| 0 <= j < i implies !eq_ignore_case(#[trigger] names[j], current@) by {
                    assert(names[j] == agents@[j]@);
                }
            }
            return Some(i);
        }
        i = i + 1;
    }
    None
}

/// The notice shown when a created project is linked to a conversation: the
/// conversation's title, or its id when it has none.
pub fn linked_session_notice(session: &SessionSummary) -> (r: String)
    ensures
        r@ == "Linked project to conversation: "@ + match session.title {
            Some(t) => t@,
            None => session.session_id@,
        },
{
    match &session.title {
        Some(t) => concat2("Linked project to conversation: ", t.as_str()),
        None => concat2("Linked project to conversation: ", session.session_id.as_str()),
    }
}

// ---------------------------------------------------------------------------
// The app bar
// ---------------------------------------------------------------------------

/// What the app bar shows: the status line, its accessible label, and
/// whether a request is under way (the progress bar is shown, and pulses,
/// exactly then).
#[derive(Debug, Clone)]
pub struct AppBar {
    pub status_text: String,
    pub status_label: String,
    pub busy: bool,
    pub progress_visible: bool,
}

impl AppBar {
    /// An idle bar.
    pub fn new() -> (b: Self)
        ensures
            b.status_text@ == "[AI: Idle]"@,
            b.status_label@ == "AI status idle"@,
            !b.busy,
            !b.progress_visible,
    {
        AppBar {
            status_text: String::from_str("[AI: Idle]"),
            status_label: String::from_str("AI status idle"),
            busy: false,
            progress_visible: false,
        }
    }

    /// Shows a status: "[AI: status]", read out as "AI status status".
    pub fn set_status(&mut self, status: &str)
        ensures
            final(self).status_text@ == "[AI: "@ + status@ + "]"@,
            final(self).status_label@ == "AI status "@ + status@,
            final(self).busy == old(self).busy,
            final(self).progress_visible == old(self).progress_visible,
    {
        let mut text = concat2("[AI: ", status);
        text.append("]");
        self.status_text = text;
        self.status_label = concat2("AI status ", status);
    }

    /// Marks a request as under way or finished; the progress bar shows
    /// exactly while one is under way.
    pub fn set_busy(&mut self, busy: bool)
        ensures
            final(self).busy == busy,
            final(self).progress_visible == busy,
            final(self).status_text == old(self).status_text,
            final(self).status_label == old(self).status_label,
    {
        self.busy = busy;
        self.progress_visible = busy;
    }
}

// ---------------------------------------------------------------------------
// The status pill
// ---------------------------------------------------------------------------

/// The icon of a state, as `AiState::icon_label` gives it.
pub open spec fn state_icon(s: AiState) -> Seq<char> {
    match s {
        AiState::Sleep => "\u{26aa}"@,
        AiState::Active => "\u{1f535}"@,
        AiState::Agentic => "\u{1f52e}"@,
        AiState::Learn => "\u{1f7e0}"@,
    }
}

/// What the status pill shows: the status icon and whether it is shown,
/// whether the activity spinner runs and is shown, and the active
/// provider's name with its accessible description.
#[derive(Debug, Clone)]
pub struct OmniPill {
    pub status_icon: String,
    pub icon_visible: bool,
    pub spinner_running: bool,
    pub spinner_visible: bool,
    pub provider_text: String,
    pub provider_description: String,
}

impl OmniPill {
    /// A sleeping pill with no provider named yet.
    pub fn new() -> (p: Self)
        ensures
            p.status_icon@ == state_icon(AiState::Sleep),
            p.icon_visible,
            !p.spinner_running,
            !p.spinner_visible,
            p.provider_text@.len() == 0,
            p.provider_description@
                == "Shows which AI provider is currently active (openclaw, ollama, deepseek, or zen)."@,
    {
        proof {
            reveal_strlit("");
        }
        OmniPill {
            status_icon: String::from_str("\u{26aa}"),
            icon_visible: true,
            spinner_running: false,
            spinner_visible: false,
            provider_text: String::from_str(""),
            provider_description: String::from_str(
                "Shows which AI provider is currently active (openclaw, ollama, deepseek, or zen).",
            ),
        }
    }

    /// Shows a state: its icon; while the agent works (any state but Sleep)
    /// the spinner runs in the icon's place, and at Sleep the icon shows and
    /// the spinner stops.
    pub fn set_state(&mut self, state: AiState)
        ensures
            final(self).status_icon@ == state_icon(state),
            final(self).spinner_running == (state != AiState::Sleep),
            final(self).spinner_visible == (state != AiState::Sleep),
            final(self).icon_visible == (state == AiState::Sleep),
            final(self).provider_text == old(self).provider_text,
            final(self).provider_description == old(self).provider_description,
    {
        self.status_icon = String::from_str(state.icon_label());
        match state {
            AiState::Sleep => {
                self.spinner_running = false;
                self.spinner_visible = false;
                self.icon_visible = true;
            },
            _ => {
                self.spinner_running = true;
                self.spinner_visible = true;
                self.icon_visible = false;
            },
        }
    }

    /// Names the active provider.
    pub fn set_provider(&mut self, name: &str)
        ensures
            final(self).provider_text@ == name@,
            final(self).provider_description@ == "Active AI provider: "@ + name@,
            final(self).status_icon == old(self).status_icon,
            final(self).icon_visible == old(self).icon_visible,
            final(self).spinner_running == old(self).spinner_running,
            final(self).spinner_visible == old(self).spinner_visible,
    {
        self.provider_text = String::from_str(name);
        self.provider_description = concat2("Active AI provider: ", name);
    }

    /// Shows the provider's breaker: while it is open or half-open its icon
    /// replaces the state's and the spinner stops; a closed breaker changes
    /// nothing (the next state shown restores the usual icon).
    pub fn set_circuit_state(&mut self, state: CircuitState)
        ensures
            state == CircuitState::Closed ==> *final(self) == *old(self),
            state != CircuitState::Closed ==> {
                &&& final(self).status_icon@ == (if state == CircuitState::Open {
                    "\u{1f534}"@
                } else {
                    "\u{1f7e1}"@
                })
                &&& final(self).icon_visible
                &&& !final(self).spinner_running
                &&& !final(self).spinner_visible
                &&& final(self).provider_text == old(self).provider_text
                &&& final(self).provider_description == old(self).provider_description
            },
    {
        if let Some(icon) = circuit_state_icon(state) {
            self.status_icon = String::from_str(icon);
            self.icon_visible = true;
            self.spinner_running = false;
            self.spinner_visible = false;
        }
    }
}

// ---------------------------------------------------------------------------
// What a backend response changes on screen
// ---------------------------------------------------------------------------

/// A number as `i32::to_string` writes it.
pub open spec fn signed_decimal(n: int) -> Seq<char> {
    if n < 0 {
        "-"@ + decimal((-n) as nat)
    } else {
        decimal(n as nat)
    }
}

/// The decimal text of a signed number.
pub fn signed_decimal_string(n: i32) -> (s: String)
    ensures
        s@ == signed_decimal(n as int),
{
    if n < 0 {
        let m: i64 = 0i64 - (n as i64);
        let d = decimal_string(m as u64);
        concat2("-", d.as_str())
    } else {
        decimal_string(n as u64)
    }
}

/// The chat text that reports a command's result.
pub open spec fn command_result_text(command: Seq<char>, code: int, stdout: Seq<char>) -> Seq<char> {
    "Executed: `"@ + command + "`\nExit Code: "@ + signed_decimal(code) + "\nOutput:\n```\n"@ + stdout
        + "\n```"@
}

/// The chat text that reports a command's result.
pub fn command_result_message(output: &CommandOutput) -> (r: String)
    ensures
        r@ == command_result_text(output.command@, output.exit_code as int, output.stdout@),
{
    let mut r = concat2("Executed: `", output.command.as_str());
    r.append("`\nExit Code: ");
    let code = signed_decimal_string(output.exit_code);
    r.append(code.as_str());
    r.append("\nOutput:\n```\n");
    r.append(output.stdout.as_str());
    r.append("\n```");
    r
}

/// A question the window asks the user.
#[derive(Debug, Clone)]
pub enum Prompt {
    Nothing,
    /// Whether to run a command.
    Approval(String),
    /// Whether to create a project.
    Project { name: String, language: Option<String>, framework: Option<String> },
}

pub enum PromptView {
    Nothing,
    Approval(Seq<char>),
    Project { name: Seq<char>, language: Option<Seq<char>>, framework: Option<Seq<char>> },
}

impl View for Prompt {
    type V = PromptView;

    open spec fn view(&self) -> PromptView {
        match *self {
            Prompt::Nothing => PromptView::Nothing,
            Prompt::Approval(c) => PromptView::Approval(c@),
            Prompt::Project { name, language, framework } => PromptView::Project {
                name: name@,
                language: opt_text(language),
                framework: opt_text(framework),
            },
        }
    }
}

/// What the window changes in answer to a backend response: a notice, an
/// error notice, a chat row, the agent's visual state, the app bar's status
/// and busy mark, a question for the user, the agent list (with the current
/// agent), the provider's breaker state on the pill, and the project path to
/// link to a conversation. What is absent stays as it was.
#[derive(Debug, Clone)]
pub struct WindowUpdate {
    pub notice: Option<String>,
    pub error_notice: Option<String>,
    pub chat: Option<(MessageRole, String)>,
    pub visual: Option<AiState>,
    pub status: Option<String>,
    pub busy: Option<bool>,
    pub prompt: Prompt,
    pub agents: Option<(Vec<String>, String)>,
    pub circuit: Option<CircuitState>,
    pub linked_project: Option<String>,
}

pub struct UpdateView {
    pub notice: Option<Seq<char>>,
    pub error_notice: Option<Seq<char>>,
    pub chat: Option<(MessageRole, Seq<char>)>,
    pub visual: Option<AiState>,
    pub status: Option<Seq<char>>,
    pub busy: Option<bool>,
    pub prompt: PromptView,
    pub agents: Option<(Seq<Seq<char>>, Seq<char>)>,
    pub circuit: Option<CircuitState>,
    pub linked_project: Option<Seq<char>>,
}

pub open spec fn strings_view(v: Seq<String>) -> Seq<Seq<char>> {
    v.map_values(|s: String| s@)
}

impl View for WindowUpdate {
    type V = UpdateView;

    open spec fn view(&self) -> UpdateView {
        UpdateView {
            notice: opt_text(self.notice),
            error_notice: opt_text(self.error_notice),
            chat: match self.chat {
                Some((r, t)) => Some((r, t@)),
                None => None,
            },
            visual: self.visual,
            status: opt_text(self.status),
            busy: self.busy,
            prompt: self.prompt@,
            agents: match self.agents {
                Some((a, c)) => Some((strings_view(a@), c@)),
                None => None,
            },
            circuit: self.circuit,
            linked_project: opt_text(self.linked_project),
        }
    }
}

/// An update that changes nothing.
pub open spec fn unchanged_view() -> UpdateView {
    UpdateView {
        notice: None,
        error_notice: None,
        chat: None,
        visual: None,
        status: None,
        busy: None,
        prompt: PromptView::Nothing,
        agents: None,
        circuit: None,
        linked_project: None,
    }
}

/// An update that shows a chat row, puts the agent to sleep and shows a
/// status with the busy mark off.
pub open spec fn settled_view(role: MessageRole, text: Seq<char>, status: Seq<char>) -> UpdateView {
    UpdateView {
        chat: Some((role, text)),
        visual: Some(AiState::Sleep),
        status: Some(status),
        busy: Some(false),
        ..unchanged_view()
    }
}

/// What the window changes in answer to each backend response: a status
/// notice marks the agent busy; a chat answer, a command's result or an
/// error is shown in the chat and the agent goes to sleep; a command that
/// needs approval sets the agent to Learn and asks the user; the agent list
/// refills the selector; a project question is asked; a created project is
/// reported and, on success, its path is linked; a breaker change shows on
/// the pill. A switched agent, a health report and a workspace event
/// change nothing here.
pub open spec fn update_for(resp: BackendResponse) -> UpdateView {
    match resp {
        BackendResponse::Status(t) => UpdateView {
            notice: Some(t@),
            status: Some("Active"@),
            busy: Some(true),
            ..unchanged_view()
        },
        BackendResponse::Chat(t) => settled_view(MessageRole::Ai, t@, "Idle"@),
        BackendResponse::CommandResult(o) => settled_view(
            MessageRole::System,
            command_result_text(o.command@, o.exit_code as int, o.stdout@),
            "Idle"@,
        ),
        BackendResponse::ApprovalRequired(c) => UpdateView {
            visual: Some(AiState::Learn),
            status: Some("Approval"@),
            busy: Some(false),
            prompt: PromptView::Approval(c@),
            ..unchanged_view()
        },
        BackendResponse::Error(e) => UpdateView {
            error_notice: Some(e@),
            ..settled_view(MessageRole::System, "Error: "@ + e@, "Error"@)
        },
        BackendResponse::AgentList { agents, current } => UpdateView {
            agents: Some((strings_view(agents@), current@)),
            ..unchanged_view()
        },
        BackendResponse::AgentSwitched(_) => unchanged_view(),
        BackendResponse::ProjectConfirmationRequired { name, language, framework } => UpdateView {
            prompt: PromptView::Project {
                name: name@,
                language: opt_text(language),
                framework: opt_text(framework),
            },
            ..unchanged_view()
        },
        BackendResponse::ProjectCreated { success, path, message } => UpdateView {
            linked_project: if success {
                opt_text(path)
            } else {
                None
            },
            ..settled_view(
                MessageRole::System,
                if success {
                    "Project created: "@ + message@
                } else {
                    "Project creation failed: "@ + message@
                },
                "Idle"@,
            )
        },
        BackendResponse::ProviderHealth { .. } => unchanged_view(),
        BackendResponse::CircuitStateChanged(s) => UpdateView { circuit: Some(s), ..unchanged_view() },
        BackendResponse::WorkspaceEvent(_) => unchanged_view(),
    }
}

fn unchanged() -> (u: WindowUpdate)
    ensures
        u@ == unchanged_view(),
{
    WindowUpdate {
        notice: None,
        error_notice: None,
        chat: None,
        visual: None,
        status: None,
        busy: None,
        prompt: Prompt::Nothing,
        agents: None,
        circuit: None,
        linked_project: None,
    }
}

fn settled(role: MessageRole, text: String, status: &str) -> (u: WindowUpdate)
    ensures
        u@ == settled_view(role, text@, status@),
{
    let mut u = unchanged();
    u.chat = Some((role, text));
    u.visual = Some(AiState::Sleep);
    u.status = Some(String::from_str(status));
    u.busy = Some(false);
    u
}

/// What the window changes in answer to a backend response; see
/// `update_for`.
pub fn response_update(resp: BackendResponse) -> (u: WindowUpdate)
    ensures
        u@ == update_for(resp),
{
    proof {
        reveal_strlit("Active");
        reveal_strlit("Idle");
        reveal_strlit("Approval");
        reveal_strlit("Error");
    }
    match resp {
        BackendResponse::Status(t) => {
            let mut u = unchanged();
            u.notice = Some(t);
            u.status = Some(String::from_str("Active"));
            u.busy = Some(true);
            u
        },
        BackendResponse::Chat(t) => settled(MessageRole::Ai, t, "Idle"),
        BackendResponse::CommandResult(o) => {
            let text = command_result_message(&o);
            settled(MessageRole::System, text, "Idle")
        },
        BackendResponse::ApprovalRequired(c) => {
            let mut u = unchanged();
            u.visual = Some(AiState::Learn);
            u.status = Some(String::from_str("Approval"));
            u.busy = Some(false);
            u.prompt = Prompt::Approval(c);
            u
        },
        BackendResponse::Error(e) => {
            let text = concat2("Error: ", e.as_str());
            let mut u = settled(MessageRole::System, text, "Error");
            u.error_notice = Some(e);
            u
        },
        BackendResponse::AgentList { agents, current } => {
            let mut u = unchanged();
            u.agents = Some((agents, current));
            u
        },
        BackendResponse::AgentSwitched(_) => unchanged(),
        BackendResponse::ProjectConfirmationRequired { name, language, framework } => {
            let mut u = unchanged();
            u.prompt = Prompt::Project { name, language, framework };
            u
        },
        BackendResponse::ProjectCreated { success, path, message } => {
            let text = if success {
                concat2("Project created: ", message.as_str())
            } else {
                concat2("Project creation failed: ", message.as_str())
            };
            let mut u = settled(MessageRole::System, text, "Idle");
            if success {
                u.linked_project = path;
            }
            u
        },
        BackendResponse::ProviderHealth { .. } => unchanged(),
        BackendResponse::CircuitStateChanged(s) => {
            let mut u = unchanged();
            u.circuit = Some(s);
            u
        },
        BackendResponse::WorkspaceEvent(_) => unchanged(),
    }
}

/// What the window changes when the user submits a prompt: the prompt
/// shows as the user's row and the agent becomes active and busy. A blank
/// prompt changes nothing.
pub fn input_update(text: &str) -> (u: WindowUpdate)
    ensures
        trimmed(text@).len() == 0 ==> u@ == unchanged_view(),
        trimmed(text@).len() != 0 ==> u@ == (UpdateView {
            chat: Some((MessageRole::User, text@)),
            visual: Some(AiState::Active),
            status: Some("Active"@),
            busy: Some(true),
            ..unchanged_view()
        }),
{
    proof {
        reveal_strlit("Active");
    }
    let mut u = unchanged();
    let t = trim_str(text);
    if t.as_str().unicode_len() != 0 {
        u.chat = Some((MessageRole::User, String::from_str(text)));
        u.visual = Some(AiState::Active);
        u.status = Some(String::from_str("Active"));
        u.busy = Some(true);
    }
    u
}

/// What the window changes when the backend cannot be reached.
pub fn unreachable_update() -> (u: WindowUpdate)
    ensures
        u@ == settled_view(MessageRole::System, "Error: Backend unreachable"@, "Error"@),
{
    proof {
        reveal_strlit("Error");
    }
    settled(MessageRole::System, String::from_str("Error: Backend unreachable"), "Error")
}

/// What the window changes on an emergency stop: the agent sleeps and the
/// status reads Stopped.
pub fn stop_update() -> (u: WindowUpdate)
    ensures
        u@ == (UpdateView {
            visual: Some(AiState::Sleep),
            status: Some("Stopped"@),
            busy: Some(false),
            ..unchanged_view()
        }),
{
    proof {
        reveal_strlit("Stopped");
    }
    let mut u = unchanged();
    u.visual = Some(AiState::Sleep);
    u.status = Some(String::from_str("Stopped"));
    u.busy = Some(false);
    u
}

// ---------------------------------------------------------------------------
// Key presses in the window
// ---------------------------------------------------------------------------

/// What a key press in the window does.
#[derive(Debug, Clone, Copy, PartialEq, Eq, Structural)]
pub enum WindowAction {
    ManageShortcuts,
    ShowOnboarding,
    ToggleHighContrast,
    FontIncrease,
    FontDecrease,
    FontReset,
    OpenLauncher,
    OpenMemoryBrowser,
    NewChat,
    ShowHelp,
    FocusInput,
    EmergencyStop,
    Close,
}

/// The shortcut actions, in the order in which a key press is tried
/// against them.
pub open spec fn window_action_ids() -> Seq<Seq<char>> {
    seq![
        "manage_shortcuts"@,
        "show_onboarding"@,
        "toggle_high_contrast"@,
        "font_increase"@,
        "font_decrease"@,
        "font_reset"@,
        "open_launcher"@,
        "open_memory_browser"@,
        "new_chat"@,
        "show_help"@,
        "focus_input"@,
        "emergency_stop"@,
    ]
}

pub open spec fn window_action_at(i: int) -> WindowAction {
    if i == 0 {
        WindowAction::ManageShortcuts
    } else if i == 1 {
        WindowAction::ShowOnboarding
    } else if i == 2 {
        WindowAction::ToggleHighContrast
    } else if i == 3 {
        WindowAction::FontIncrease
    } else if i == 4 {
        WindowAction::FontDecrease
    } else if i == 5 {
        WindowAction::FontReset
    } else if i == 6 {
        WindowAction::OpenLauncher
    } else if i == 7 {
        WindowAction::OpenMemoryBrowser
    } else if i == 8 {
        WindowAction::NewChat
    } else if i == 9 {
        WindowAction::ShowHelp
    } else if i == 10 {
        WindowAction::FocusInput
    } else {
        WindowAction::EmergencyStop
    }
}

/// Whether a key press triggers the action at a place of that order: its
/// shortcut matches, or, for the help, the key is one of the help keys that
/// work whatever the help's shortcut is.
pub open spec fn action_fires(b: Map<Seq<char>, String>, k: KeyPress, i: int) -> bool {
    press_matches(shortcut_of(b, window_action_ids()[i]), k) || (i == 9 && help_fallback(k))
}

/// The first action from place `i` on that a key press triggers; past the
/// last, Escape closes the window and any other key does nothing.
pub open spec fn first_action_from(b: Map<Seq<char>, String>, k: KeyPress, i: nat) -> Option<WindowAction>
    decreases 12 - i,
{
    if i >= 12 {
        if k.name@ == "Escape"@ {
            Some(WindowAction::Close)
        } else {
            None
        }
    } else if action_fires(b, k, i as int) {
        Some(window_action_at(i as int))
    } else {
        first_action_from(b, k, i + 1)
    }
}

/// What a key press in the window does: the first action, in the window's
/// order, whose shortcut it matches; then Escape closes the window.
pub fn key_action(bindings: &ShortcutBindings, press: &KeyPress) -> (r: Option<WindowAction>)
    requires
        bindings.wf(),
    ensures
        r == first_action_from(bindings.bindings(), *press, 0),
{
    let ids: [&str; 12] = [
        "manage_shortcuts",
        "show_onboarding",
        "toggle_high_contrast",
        "font_increase",
        "font_decrease",
        "font_reset",
        "open_launcher",
        "open_memory_browser",
        "new_chat",
        "show_help",
        "focus_input",
        "emergency_stop",
    ];
    let actions: [WindowAction; 12] = [
        WindowAction::ManageShortcuts,
        WindowAction::ShowOnboarding,
        WindowAction::ToggleHighContrast,
        WindowAction::FontIncrease,
        WindowAction::FontDecrease,
        WindowAction::FontReset,
        WindowAction::OpenLauncher,
        WindowAction::OpenMemoryBrowser,
        WindowAction::NewChat,
        WindowAction::ShowHelp,
        WindowAction::FocusInput,
        WindowAction::EmergencyStop,
    ];
    proof {
        reveal_strlit("manage_shortcuts");
        reveal_strlit("show_onboarding");
        reveal_strlit("toggle_high_contrast");
        reveal_strlit("font_increase");
        reveal_strlit("font_decrease");
        reveal_strlit("font_reset");
        reveal_strlit("open_launcher");
        reveal_strlit("open_memory_browser");
        reveal_strlit("new_chat");
        reveal_strlit("show_help");
        reveal_strlit("focus_input");
        reveal_strlit("emergency_stop");
        reveal_strlit("Escape");
        assert(forall|j: int| 0 <= j < 12 ==> (#[trigger] ids@[j])@ == window_action_ids()[j]);
        assert(forall|j: int| 0 <= j < 12 ==> #[trigger] actions@[j] == window_action_at(j));
    }
    let mut i: usize = 0;
    while i < 12
        invariant
            i <= 12,
            bindings.wf(),
            forall|j: int| 0 <= j < 12 ==> (#[trigger] ids@[j])@ == window_action_ids()[j],
            forall|j: int| 0 <= j < 12 ==> #[trigger] actions@[j] == window_action_at(j),
            first_action_from(bindings.bindings(), *press, 0) == first_action_from(
                bindings.bindings(),
                *press,
                i as nat,
            ),
        decreases 12 - i,
    {
        let fired = bindings.matches(ids[i], press) || (i == 9 && is_help_fallback_shortcut(press));
        if fired {
            return Some(actions[i]);
        }
        i = i + 1;
    }
    if str_eq(press.name.as_str(), "Escape") {
        Some(WindowAction::Close)
    } else {
        None
    }
}

/// The font size step after a font action: one larger or one smaller,
/// kept within small (0) to large (2); a reset gives normal (1); any other
/// action keeps the step.
pub open spec fn font_step_after(step: int, action: WindowAction) -> int {
    match action {
        WindowAction::FontIncrease => if step + 1 < 0 {
            0
        } else if step + 1 > 2 {
            2
        } else {
            step + 1
        },
        WindowAction::FontDecrease => if step - 1 < 0 {
            0
        } else if step - 1 > 2 {
            2
        } else {
            step - 1
        },
        WindowAction::FontReset => 1,
        _ => step,
    }
}

/// The font size step after a font action; see `font_step_after`.
pub fn next_font_step(step: i32, action: WindowAction) -> (r: i32)
    ensures
        r == font_step_after(step as int, action),
{
    match action {
        WindowAction::FontIncrease => {
            if step >= 2 {
                2
            } else if step < -1 {
                0
            } else {
                step + 1
            }
        },
        WindowAction::FontDecrease => {
            if step <= 0 {
                0
            } else if step > 3 {
                2
            } else {
                step - 1
            }
        },
        WindowAction::FontReset => 1,
        _ => step,
    }
}

/// The style class and the notice of a font size step: small at 0, large at
/// 2, normal otherwise.
pub fn apply_font_scale(step: i32) -> (r: (&'static str, &'static str))
    ensures
        step == 0 ==> r.0@ == "font-small"@ && r.1@ == "Font size: small"@,
        step == 2 ==> r.0@ == "font-large"@ && r.1@ == "Font size: large"@,
        step != 0 && step != 2 ==> r.0@ == "font-medium"@ && r.1@ == "Font size: normal"@,
{
    proof {
        reveal_strlit("font-small");
        reveal_strlit("font-large");
        reveal_strlit("font-medium");
        reveal_strlit("Font size: small");
        reveal_strlit("Font size: large");
        reveal_strlit("Font size: normal");
    }
    if step == 0 {
        ("font-small", "Font size: small")
    } else if step == 2 {
        ("font-large", "Font size: large")
    } else {
        ("font-medium", "Font size: normal")
    }
}

/// The notice shown when high contrast is switched.
pub fn high_contrast_notice(enabled: bool) -> (r: &'static str)
    ensures
        enabled ==> r@ == "High contrast mode: ON"@,
        !enabled ==> r@ == "High contrast mode: OFF"@,
{
    proof {
        reveal_strlit("High contrast mode: ON");
        reveal_strlit("High contrast mode: OFF");
    }
    if enabled {
        "High contrast mode: ON"
    } else {
        "High contrast mode: OFF"
    }
}

// ---------------------------------------------------------------------------
// Notifications
// ---------------------------------------------------------------------------

/// How long a notice stays up, in seconds.
pub const NOTICE_SECONDS: u64 = 4;

/// The notice strip: the text shown, whether it is revealed, and a counter
/// that every notice and every dismissal moves on, so that a notice's timer
/// hides the strip only while no later notice or dismissal has come.
#[derive(Debug, Clone)]
pub struct NotificationCenter {
    pub text: String,
    pub revealed: bool,
    pub generation: u64,
}

pub struct NoticeView {
    pub text: Seq<char>,
    pub revealed: bool,
    pub generation: u64,
}

impl View for NotificationCenter {
    type V = NoticeView;

    open spec fn view(&self) -> NoticeView {
        NoticeView { text: self.text@, revealed: self.revealed, generation: self.generation }
    }
}

/// The counter after one more notice or dismissal (it wraps around).
pub open spec fn next_generation(g: u64) -> u64 {
    if g == u64::MAX {
        0
    } else {
        (g + 1) as u64
    }
}

/// The strip after a notice: the text shows and the counter moves on; the
/// counter's new value is the notice's ticket.
pub open spec fn noticed(n: NoticeView, message: Seq<char>) -> NoticeView {
    NoticeView { text: message, revealed: true, generation: next_generation(n.generation) }
}

/// The strip after it is dismissed: hidden, and the counter moves on.
pub open spec fn dismissed(n: NoticeView) -> NoticeView {
    NoticeView { revealed: false, generation: next_generation(n.generation), ..n }
}

/// The strip after the timer with a ticket ran out: hidden if no notice or
/// dismissal came since that ticket was given.
pub open spec fn expired(n: NoticeView, ticket: u64) -> NoticeView {
    NoticeView { revealed: n.revealed && ticket != n.generation, ..n }
}

impl NotificationCenter {
    /// A hidden, empty strip.
    pub fn new() -> (n: Self)
        ensures
            n@ == (NoticeView { text: Seq::empty(), revealed: false, generation: 0 }),
    {
        let n = NotificationCenter { text: String::new(), revealed: false, generation: 0 };
        proof {
            assert(n.text@ =~= Seq::<char>::empty());
        }
        n
    }

    /// Shows a notice; the ticket returned identifies the timer that hides
    /// it after `NOTICE_SECONDS`.
    pub fn show(&mut self, message: &str) -> (ticket: u64)
        ensures
            final(self)@ == noticed(old(self)@, message@),
            ticket == final(self).generation,
    {
        self.text = String::from_str(message);
        self.revealed = true;
        self.generation = self.generation.wrapping_add(1);
        self.generation
    }

    /// Hides the strip at once; pending timers no longer act.
    pub fn dismiss(&mut self)
        ensures
            final(self)@ == dismissed(old(self)@),
    {
        self.generation = self.generation.wrapping_add(1);
        self.revealed = false;
    }

    /// A notice's timer ran out; see `expired`.
    pub fn expire(&mut self, ticket: u64)
        ensures
            final(self)@ == expired(old(self)@, ticket),
    {
        if ticket == self.generation {
            self.revealed = false;
        }
    }
}

/// A later notice outlives the timer of an earlier one: after two notices,
/// the first one's timer leaves the strip shown, and the second one's timer
/// hides it; after a dismissal, an earlier timer running out leaves the strip
/// hidden.
pub proof fn law_later_notice_outlives_earlier_timer(n: NoticeView, first: Seq<char>, second: Seq<char>)
    ensures
        expired(noticed(noticed(n, first), second), noticed(n, first).generation).revealed,
        !expired(noticed(noticed(n, first), second), noticed(noticed(n, first), second).generation).revealed,
        !expired(dismissed(noticed(n, first)), noticed(n, first).generation).revealed,
        noticed(noticed(n, first), second).text == second,
{
}

} // verus!
