//! The first-run tutorial: its steps, and whether it is shown.
use vstd::prelude::*;
use vstd::string::*;

verus! {

/// The version of the tutorial; a user who completed an older one sees it
/// again.
pub const ONBOARDING_VERSION: u32 = 1;

/// What is stored of the tutorial.
#[derive(Debug, Clone, Copy, PartialEq, Eq, Structural)]
pub struct OnboardingState {
    pub completed: bool,
    pub version: u32,
}

impl Default for OnboardingState {
    fn default() -> (s: Self)
        ensures
            !s.completed,
            s.version == ONBOARDING_VERSION,
    {
        OnboardingState { completed: false, version: ONBOARDING_VERSION }
    }
}

/// A stored state as it is read: a missing version counts as the current
/// one.
pub fn normalized_state(s: OnboardingState) -> (r: OnboardingState)
    ensures
        r.completed == s.completed,
        r.version == (if s.version == 0 {
            ONBOARDING_VERSION
        } else {
            s.version
        }),
{
    if s.version == 0 {
        OnboardingState { completed: s.completed, version: ONBOARDING_VERSION }
    } else {
        s
    }
}

/// Whether the tutorial is shown, given the stored state (`None` when it
/// could not be read): when it was not completed, or completed in an older
/// version, or the state is unreadable.
pub open spec fn shows_tutorial(state: Option<OnboardingState>) -> bool {
    match state {
        Some(s) => !s.completed || s.version < ONBOARDING_VERSION,
        None => true,
    }
}

/// Whether the tutorial is shown; see `shows_tutorial`.
pub fn should_show_tutorial(state: Option<OnboardingState>) -> (b: bool)
    ensures
        b == shows_tutorial(state),
{
    match state {
        Some(s) => !s.completed || s.version < ONBOARDING_VERSION,
        None => true,
    }
}

/// The state stored once the tutorial is finished.
pub fn completed_state() -> (s: OnboardingState)
    ensures
        s.completed,
        s.version == ONBOARDING_VERSION,
{
    OnboardingState { completed: true, version: ONBOARDING_VERSION }
}

/// Once the tutorial is finished and that state is read back, it is not
/// shown again; a state never written shows it.
pub proof fn law_completed_tutorial_stays_hidden(s: OnboardingState)
    requires
        s.completed,
        s.version == ONBOARDING_VERSION,
    ensures
        !shows_tutorial(Some(s)),
        shows_tutorial(Some(OnboardingState { completed: false, version: ONBOARDING_VERSION })),
{
}

/// The steps of the tutorial: a title and a text each.
pub open spec fn tutorial_text() -> Seq<(Seq<char>, Seq<char>)> {
    seq![
        ("Welcome to mentalOS"@, "mentalOS is a natural-language control surface for your workspace. Type in the main prompt and press Enter to run requests through the backend router."@),
        ("Safety First"@, "Commands pass through whitelist checks. New or risky commands ask for approval first. Use STOP or Ctrl+Shift+Q to immediately halt active operations."@),
        ("Agent Control"@, "Use the agent selector near the input to switch between available providers (for example OpenClaw and Ollama). Status and notifications appear in the top bar."@),
        ("Accessibility"@, "High contrast: Ctrl+Shift+H. Font size: Ctrl+Plus / Ctrl+Minus / Ctrl+0. Open shortcut help with Ctrl+/ (or Ctrl+?, numpad divide, F1)."@),
        ("Customize Your Workflow"@, "Start a new chat with Ctrl+N or open shortcut settings with Ctrl+Comma to customize bindings. Memory and tasks are persisted under ~/workspaces/.memory for continuity across sessions."@),
    ]
}

/// The steps of the tutorial.
pub fn tutorial_steps() -> (r: Vec<(&'static str, &'static str)>)
    ensures
        r@.map_values(|p: (&'static str, &'static str)| (p.0@, p.1@)) == tutorial_text(),
{
    let r = vec![
        ("Welcome to mentalOS", "mentalOS is a natural-language control surface for your workspace. Type in the main prompt and press Enter to run requests through the backend router."),
        ("Safety First", "Commands pass through whitelist checks. New or risky commands ask for approval first. Use STOP or Ctrl+Shift+Q to immediately halt active operations."),
        ("Agent Control", "Use the agent selector near the input to switch between available providers (for example OpenClaw and Ollama). Status and notifications appear in the top bar."),
        ("Accessibility", "High contrast: Ctrl+Shift+H. Font size: Ctrl+Plus / Ctrl+Minus / Ctrl+0. Open shortcut help with Ctrl+/ (or Ctrl+?, numpad divide, F1)."),
        ("Customize Your Workflow", "Start a new chat with Ctrl+N or open shortcut settings with Ctrl+Comma to customize bindings. Memory and tasks are persisted under ~/workspaces/.memory for continuity across sessions."),
    ];
    proof {
        assert(r@.map_values(|p: (&'static str, &'static str)| (p.0@, p.1@)) =~= tutorial_text());
    }
    r
}

/// What the tutorial shows at a step: the step (kept within the steps),
/// whether Back works (past the first step), whether Next shows (before the
/// last step) and whether Done shows (at the last step).
#[derive(Debug, Clone, Copy, PartialEq, Eq, Structural)]
pub struct TutorialPage {
    pub index: usize,
    pub back_enabled: bool,
    pub next_visible: bool,
    pub done_visible: bool,
}

/// What the tutorial shows at a step of `total` steps.
pub fn tutorial_page(index: usize, total: usize) -> (p: TutorialPage)
    requires
        total > 0,
    ensures
        p.index == (if index < total {
            index
        } else {
            (total - 1) as usize
        }),
        p.back_enabled == (p.index > 0),
        p.next_visible == (p.index + 1 < total),
        p.done_visible == (p.index + 1 == total),
{
    let i = if index < total {
        index
    } else {
        total - 1
    };
    TutorialPage { index: i, back_enabled: i > 0, next_visible: i + 1 < total, done_visible: i + 1 == total }
}

/// What the user does in the tutorial: a button, or a key.
#[derive(Debug, Clone, Copy, PartialEq, Eq, Structural)]
pub enum TutorialInput {
    Back,
    Next,
    Skip,
    Done,
    EscapeKey,
    LeftKey,
    RightKey,
    OtherKey,
}

/// What the tutorial does in answer: show a step, finish (the tutorial is
/// recorded as completed and closes), close without recording, or nothing.
#[derive(Debug, Clone, Copy, PartialEq, Eq, Structural)]
pub enum TutorialEffect {
    Show(usize),
    Finish,
    Close,
    Ignore,
}

/// How the tutorial answers: Back and Next move one step within the steps
/// and show the page again even at either end; the arrow keys move the same
/// way but do nothing at either end; Skip and Done finish; Escape closes
/// without recording; any other key does nothing.
pub open spec fn tutorial_answer(index: usize, total: usize, input: TutorialInput) -> TutorialEffect {
    match input {
        TutorialInput::Back => TutorialEffect::Show(if index > 0 {
            (index - 1) as usize
        } else {
            index
        }),
        TutorialInput::Next => TutorialEffect::Show(if index + 1 < total {
            (index + 1) as usize
        } else {
            index
        }),
        TutorialInput::LeftKey => if index > 0 {
            TutorialEffect::Show((index - 1) as usize)
        } else {
            TutorialEffect::Ignore
        },
        TutorialInput::RightKey => if index + 1 < total {
            TutorialEffect::Show((index + 1) as usize)
        } else {
            TutorialEffect::Ignore
        },
        TutorialInput::Skip | TutorialInput::Done => TutorialEffect::Finish,
        TutorialInput::EscapeKey => TutorialEffect::Close,
        TutorialInput::OtherKey => TutorialEffect::Ignore,
    }
}

/// How the tutorial answers; see `tutorial_answer`.
pub fn tutorial_input(index: usize, total: usize, input: TutorialInput) -> (e: TutorialEffect)
    ensures
        e == tutorial_answer(index, total, input),
{
    let can_advance = total > 0 && index < total - 1;
    match input {
        TutorialInput::Back => TutorialEffect::Show(if index > 0 {
            index - 1
        } else {
            index
        }),
        TutorialInput::Next => TutorialEffect::Show(if can_advance {
            index + 1
        } else {
            index
        }),
        TutorialInput::LeftKey => if index > 0 {
            TutorialEffect::Show(index - 1)
        } else {
            TutorialEffect::Ignore
        },
        TutorialInput::RightKey => if can_advance {
            TutorialEffect::Show(index + 1)
        } else {
            TutorialEffect::Ignore
        },
        TutorialInput::Skip | TutorialInput::Done => TutorialEffect::Finish,
        TutorialInput::EscapeKey => TutorialEffect::Close,
        TutorialInput::OtherKey => TutorialEffect::Ignore,
    }
}

/// Moving through the tutorial never leaves its steps: from a step, any
/// input that shows a step shows one of the steps.
pub proof fn law_tutorial_stays_within_steps(index: usize, total: usize, input: TutorialInput)
    requires
        index < total,
    ensures
        tutorial_answer(index, total, input) matches TutorialEffect::Show(j) ==> j < total,
{
}

} // verus!
