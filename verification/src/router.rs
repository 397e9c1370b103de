//! Decisions of the command router: which project command a request asks
//! for, how a command is quoted for the sandbox, which agent a "switch to"
//! request names, and which sandboxed processes are running.
use crate::error::MentalOSError;
use crate::error::error_text;
use crate::memory::{
    find_from, occurrence_from, actions_view, lines_from, messages_view, split_lines, ActionView, Message, MessageAction,
    MessageView, Role,
};
use crate::project_handler::ProjectRequest;
use crate::whitelist::{allow_answer, allowed_result, cleaned, live, WhitelistDecision, WhitelistManager, WhitelistView};
use crate::pattern::{
    all_groups_view, captures_of, group, group_at, group_texts, regex_captures, regex_captures_all,
    regex_compiles, Pattern,
};
use crate::text::{
    append_str, chars_of, concat3, has_prefix, sub_chars, lower, lower_chars, opt_text, push_char, starts_with, str_eq, string_of,
    to_lowercase, trim_chars, trim_str, trimmed, unicode_lower, lemma_trimmed_idempotent,
};
use std::collections::HashSet;
use vstd::prelude::*;
use vstd::string::*;

verus! {

broadcast use vstd::std_specs::hash::group_hash_axioms;

/// What one executed command produced.
#[derive(Debug, Clone)]
pub struct CommandOutput {
    pub command: String,
    pub exit_code: i32,
    pub stdout: String,
    pub stderr: String,
}

/// The router's answer to one input.
#[derive(Debug, Clone)]
pub struct RouterResponse {
    pub message: String,
    pub outputs: Vec<CommandOutput>,
    pub approvals_required: Vec<String>,
}

/// Runs shell commands.
pub trait CommandExecutor {
    /// Runs a command; what it produced is reported under that command.
    fn execute(&self, command: &str) -> (r: Result<CommandOutput, MentalOSError>)
        ensures
            r matches Ok(o) ==> o.command@ == command@,
    ;

    /// Stops whatever the executor is running. An executor that keeps no
    /// processes has nothing to stop and succeeds.
    fn emergency_stop(&self) -> (r: Result<(), MentalOSError>)
        default_ensures
            r is Ok,
    {
        Ok(())
    }
}

/// A project that the user is asked to confirm.
#[derive(Debug, Clone)]
pub struct ProjectConfirmation {
    pub name: String,
    pub language: Option<String>,
    pub framework: Option<String>,
}

/// What the router asks the user to confirm, if anything.
#[derive(Debug, Clone)]
pub enum RouterConfirmation {
    Project(ProjectConfirmation),
    /// Nothing to confirm.
    Nothing,
}

/// Settings and running processes of the sandbox (firejail) executor.
#[derive(Debug)]
pub struct FirejailExecutor {
    timeout_secs: u64,
    allow_network: bool,
    active_pids: HashSet<u32>,
}

impl FirejailExecutor {
    pub closed spec fn timeout(&self) -> u64 {
        self.timeout_secs
    }

    pub closed spec fn network(&self) -> bool {
        self.allow_network
    }

    /// The processes that were started and have not ended.
    pub closed spec fn pids(&self) -> Set<u32> {
        self.active_pids@
    }

    /// Five minutes per command, no network, nothing running.
    pub fn new() -> (e: Self)
        ensures
            e.timeout() == 300,
            !e.network(),
            e.pids() == Set::<u32>::empty(),
    {
        FirejailExecutor { timeout_secs: 300, allow_network: false, active_pids: HashSet::new() }
    }

    pub fn with_timeout_secs(self, timeout_secs: u64) -> (e: Self)
        ensures
            e.timeout() == timeout_secs,
            e.network() == self.network(),
            e.pids() == self.pids(),
    {
        let mut e = self;
        e.timeout_secs = timeout_secs;
        e
    }

    pub fn with_network(self, allow_network: bool) -> (e: Self)
        ensures
            e.timeout() == self.timeout(),
            e.network() == allow_network,
            e.pids() == self.pids(),
    {
        let mut e = self;
        e.allow_network = allow_network;
        e
    }

    /// The time limit of one command, in seconds.
    pub fn timeout_secs(&self) -> (t: u64)
        ensures
            t == self.timeout(),
    {
        self.timeout_secs
    }

    /// Whether commands may use the network.
    pub fn allows_network(&self) -> (b: bool)
        ensures
            b == self.network(),
    {
        self.allow_network
    }

    /// Notes a started process.
    pub fn remember_pid(&mut self, pid: u32)
        ensures
            final(self).pids() == old(self).pids().insert(pid),
            final(self).timeout() == old(self).timeout(),
            final(self).network() == old(self).network(),
    {
        self.active_pids.insert(pid);
    }

    /// Notes an ended process.
    pub fn forget_pid(&mut self, pid: u32)
        ensures
            final(self).pids() == old(self).pids().remove(pid),
            final(self).timeout() == old(self).timeout(),
            final(self).network() == old(self).network(),
    {
        self.active_pids.remove(&pid);
    }

    /// The processes that an emergency stop must end.
    pub fn active_pids(&self) -> (s: &HashSet<u32>)
        ensures
            s@ == self.pids(),
    {
        &self.active_pids
    }
}

/// The words of a shell command line as `shell_words::split` reads them
/// (quotes, backslashes and comments); `None` when a quote is left open.
pub uninterp spec fn shell_words_of(text: Seq<char>) -> Option<Seq<Seq<char>>>;

/// Calls `shell_words::split`; its result is named `shell_words_of`. Its
/// only error is an unclosed quote, which it describes as "missing closing
/// quote".
#[verifier::external_body]
pub(crate) fn shell_split(text: &str) -> (r: Option<Vec<String>>)
    ensures
        match r {
            Some(w) => shell_words_of(text@) == Some(texts(w@)),
            None => shell_words_of(text@) is None,
        },
{
    shell_words::split(text).ok()
}

/// The arguments given to `firejail` to run a command's words: quietly,
/// with the project's profile (or the system's), without X11, without the
/// network unless allowed, then the command.
pub open spec fn sandbox_args(words: Seq<Seq<char>>, local_profile: bool, system_profile: bool, network: bool) -> Seq<Seq<char>> {
    seq!["--quiet"@] + (if local_profile {
        seq!["--profile=firejail/openclaw.profile"@]
    } else if system_profile {
        seq!["--profile=openclaw"@]
    } else {
        Seq::empty()
    }) + seq!["--x11=none"@] + (if network {
        Seq::empty()
    } else {
        seq!["--net=none"@]
    }) + seq!["--"@] + words
}

impl FirejailExecutor {
    /// The `firejail` arguments for a command split into words (`None`: the
    /// command did not split); an error for a command that did not split or
    /// has no words.
    pub fn sandbox_arguments_for(&self, words: Option<Vec<String>>, local_profile: bool, system_profile: bool) -> (r: Result<Vec<String>, MentalOSError>)
        ensures
            match words {
                None => r matches Err(MentalOSError::InvalidCommand(m)) && m@ == "Parse error: missing closing quote"@,
                Some(w) => if w.len() == 0 {
                    r matches Err(MentalOSError::InvalidCommand(m)) && m@ == "Empty command"@
                } else {
                    r matches Ok(a) && texts(a@) == sandbox_args(texts(w@), local_profile, system_profile, self.network())
                },
            },
    {
        let w = match words {
            None => {
                return Err(MentalOSError::InvalidCommand(String::from_str("Parse error: missing closing quote")));
            },
            Some(w) => w,
        };
        if w.len() == 0 {
            return Err(MentalOSError::InvalidCommand(String::from_str("Empty command")));
        }
        let mut a: Vec<String> = Vec::new();
        a.push(String::from_str("--quiet"));
        if local_profile {
            a.push(String::from_str("--profile=firejail/openclaw.profile"));
        } else if system_profile {
            a.push(String::from_str("--profile=openclaw"));
        }
        a.push(String::from_str("--x11=none"));
        if !self.allow_network {
            a.push(String::from_str("--net=none"));
        }
        a.push(String::from_str("--"));
        let ghost head = texts(a@);
        let mut i: usize = 0;
        while i < w.len()
            invariant
                i <= w.len(),
                texts(a@) == head + texts(w@).subrange(0, i as int),
            decreases w.len() - i,
        {
            let ghost before = a@;
            let c = w[i].clone();
            a.push(c);
            proof {
                assert(a@ == before.push(w@[i as int]));
                assert(texts(a@) =~= texts(before).push(texts(w@)[i as int]));
                assert(texts(w@).subrange(0, i + 1) =~= texts(w@).subrange(0, i as int).push(texts(w@)[i as int]));
            }
            i += 1;
        }
        proof {
            reveal_strlit("--quiet");
            reveal_strlit("--profile=firejail/openclaw.profile");
            reveal_strlit("--profile=openclaw");
            reveal_strlit("--x11=none");
            reveal_strlit("--net=none");
            reveal_strlit("--");
            assert(texts(w@).subrange(0, w.len() as int) =~= texts(w@));
            assert(head =~= seq!["--quiet"@] + (if local_profile {
                seq!["--profile=firejail/openclaw.profile"@]
            } else if system_profile {
                seq!["--profile=openclaw"@]
            } else {
                Seq::empty()
            }) + seq!["--x11=none"@] + (if self.network() {
                Seq::empty()
            } else {
                seq!["--net=none"@]
            }) + seq!["--"@]);
        }
        Ok(a)
    }

    /// The `firejail` arguments that run a command line; `local_profile` and
    /// `system_profile` say whether `firejail/openclaw.profile` and
    /// `/etc/firejail/openclaw.profile` exist.
    pub fn sandbox_arguments(&self, command: &str, local_profile: bool, system_profile: bool) -> (r: Result<Vec<String>, MentalOSError>)
        ensures
            match shell_words_of(command@) {
                None => r matches Err(MentalOSError::InvalidCommand(m)) && m@ == "Parse error: missing closing quote"@,
                Some(w) => if w.len() == 0 {
                    r matches Err(MentalOSError::InvalidCommand(m)) && m@ == "Empty command"@
                } else {
                    r matches Ok(a) && texts(a@) == sandbox_args(w, local_profile, system_profile, self.network())
                },
            },
    {
        self.sandbox_arguments_for(shell_split(command), local_profile, system_profile)
    }

    /// What a command that ran past the time limit is reported as.
    pub fn timeout_error(&self) -> (e: MentalOSError)
        ensures
            e matches MentalOSError::CommandFailed(m) && m@ == "Command timed out after "@ + crate::text::decimal(
                self.timeout() as nat,
            ) + " seconds"@,
    {
        let mut m = String::from_str("Command timed out after ");
        m.append(crate::text::decimal_string(self.timeout_secs).as_str());
        m.append(" seconds");
        MentalOSError::CommandFailed(m)
    }
}

impl Default for FirejailExecutor {
    fn default() -> (e: Self)
        ensures
            e.timeout() == 300,
            !e.network(),
            e.pids() == Set::<u32>::empty(),
    {
        Self::new()
    }
}

// ---------------------------------------------------------------------------
// Project commands asked for in words
// ---------------------------------------------------------------------------

pub open spec fn run_phrases() -> Seq<Seq<char>> {
    seq![
        "run project"@,
        "run the project"@,
        "run this project"@,
        "run this"@,
        "start project"@,
        "start the project"@,
        "start this"@,
    ]
}

pub open spec fn test_phrases() -> Seq<Seq<char>> {
    seq!["test project"@, "test the project"@, "test this"@, "run tests"@]
}

pub open spec fn setup_phrases() -> Seq<Seq<char>> {
    seq![
        "setup project"@,
        "setup the project"@,
        "install dependencies"@,
        "build project"@,
        "build the project"@,
        "build this"@,
    ]
}

/// The text is the phrase, or the phrase followed by a space and more.
pub open spec fn says(text: Seq<char>, phrase: Seq<char>) -> bool {
    text == phrase || has_prefix(text, phrase.push(' '))
}

pub open spec fn says_any(text: Seq<char>, phrases: Seq<Seq<char>>) -> bool {
    exists|i: int| 0 <= i < phrases.len() && says(text, #[trigger] phrases[i])
}

/// The kind of project command ("run", "test" or "setup") that the input
/// asks for, read from its trimmed, ASCII-lower-cased text.
pub open spec fn project_command_intent(input: Seq<char>) -> Option<Seq<char>> {
    let n = lower(trimmed(input));
    if says_any(n, run_phrases()) {
        Some("run"@)
    } else if says_any(n, test_phrases()) {
        Some("test"@)
    } else if says_any(n, setup_phrases()) {
        Some("setup"@)
    } else {
        None
    }
}

/// Characters at the start of a text that says a phrase are the phrase's.
proof fn lemma_says_chars(n: Seq<char>, q: Seq<char>)
    requires
        says(n, q),
    ensures
        q.len() <= n.len(),
        forall|k: int| 0 <= k < q.len() ==> #[trigger] n[k] == q[k],
{
    if n != q {
        let m: int = q.len() as int + 1;
        let p: Seq<char> = q.push(' ');
        assert(n.subrange(0, m) == p);
        assert forall|k: int| 0 <= k < q.len() implies #[trigger] n[k] == q[k] by {
            assert(n.subrange(0, m)[k] == p[k]);
        }
    }
}

/// Which project command an input asks for, by the phrase it starts with
/// (after trimming and lower-casing ASCII letters): a run phrase runs the
/// project, a test phrase tests it, a setup phrase sets it up (installs,
/// builds). No input says phrases of two kinds, so the kinds never mix.
pub proof fn law_project_command_phrases(input: Seq<char>)
    ensures
        says_any(lower(trimmed(input)), seq!["run project"@, "run the project"@, "run this project"@, "run this"@, "start project"@, "start the project"@, "start this"@]) ==> project_command_intent(input) == Some("run"@),
        says_any(lower(trimmed(input)), seq!["test project"@, "test the project"@, "test this"@, "run tests"@]) ==> project_command_intent(input) == Some("test"@),
        says_any(lower(trimmed(input)), seq!["setup project"@, "setup the project"@, "install dependencies"@, "build project"@, "build the project"@, "build this"@]) ==> project_command_intent(input) == Some("setup"@),
{
    reveal_strlit("run project");
    reveal_strlit("run the project");
    reveal_strlit("run this project");
    reveal_strlit("run this");
    reveal_strlit("start project");
    reveal_strlit("start the project");
    reveal_strlit("start this");
    reveal_strlit("test project");
    reveal_strlit("test the project");
    reveal_strlit("test this");
    reveal_strlit("run tests");
    reveal_strlit("setup project");
    reveal_strlit("setup the project");
    reveal_strlit("install dependencies");
    reveal_strlit("build project");
    reveal_strlit("build the project");
    reveal_strlit("build this");
    let n = lower(trimmed(input));
    let lr = seq!["run project"@, "run the project"@, "run this project"@, "run this"@, "start project"@, "start the project"@, "start this"@];
    let lt = seq!["test project"@, "test the project"@, "test this"@, "run tests"@];
    let ls = seq!["setup project"@, "setup the project"@, "install dependencies"@, "build project"@, "build the project"@, "build this"@];
    assert(lr =~= run_phrases());
    assert(lt =~= test_phrases());
    assert(ls =~= setup_phrases());
    if says_any(n, lt) {
        let i = choose|i: int| 0 <= i < lt.len() && says(n, #[trigger] lt[i]);
        lemma_says_chars(n, lt[i]);
        assert forall|j: int| 0 <= j < lr.len() implies !says(n, #[trigger] lr[j]) by {
            if says(n, lr[j]) {
                lemma_says_chars(n, lr[j]);
                assert(n[0] == lt[i][0] && n[0] == lr[j][0]);
                assert(n[4] == lt[i][4] && n[4] == lr[j][4]);
                assert(n[5] == lt[i][5] && n[5] == lr[j][5]);
            }
        }
    }
    if says_any(n, ls) {
        let i = choose|i: int| 0 <= i < ls.len() && says(n, #[trigger] ls[i]);
        lemma_says_chars(n, ls[i]);
        assert forall|j: int| 0 <= j < lr.len() implies !says(n, #[trigger] lr[j]) by {
            if says(n, lr[j]) {
                lemma_says_chars(n, lr[j]);
                assert(n[0] == ls[i][0] && n[0] == lr[j][0]);
                assert(n[1] == ls[i][1] && n[1] == lr[j][1]);
            }
        }
        assert forall|j: int| 0 <= j < lt.len() implies !says(n, #[trigger] lt[j]) by {
            if says(n, lt[j]) {
                lemma_says_chars(n, lt[j]);
                assert(n[0] == ls[i][0] && n[0] == lt[j][0]);
            }
        }
    }
}

fn says_exec(text: &Vec<char>, phrase: &str) -> (b: bool)
    ensures
        b == says(text@, phrase@),
{
    let p = chars_of(phrase);
    if crate::text::chars_eq(text, &p) {
        return true;
    }
    let mut q = chars_of(phrase);
    q.push(' ');
    starts_with(text, &q)
}

fn says_any_exec(text: &Vec<char>, phrases: &Vec<&'static str>, Ghost(ps): Ghost<Seq<Seq<char>>>) -> (b: bool)
    requires
        phrases@.len() == ps.len(),
        forall|i: int| 0 <= i < ps.len() ==> (#[trigger] phrases@[i])@ == ps[i],
    ensures
        b == says_any(text@, ps),
{
    let mut i: usize = 0;
    while i < phrases.len()
        invariant
            i <= phrases.len(),
            phrases@.len() == ps.len(),
            forall|j: int| 0 <= j < ps.len() ==> (#[trigger] phrases@[j])@ == ps[j],
            forall|j: int| 0 <= j < i ==> !says(text@, #[trigger] ps[j]),
        decreases phrases.len() - i,
    {
        if says_exec(text, phrases[i]) {
            proof {
                assert(says(text@, ps[i as int]));
            }
            return true;
        }
        i += 1;
    }
    false
}

/// The kind of project command that the input asks for.
pub fn detect_project_command_intent(input: &str) -> (r: Option<&'static str>)
    ensures
        match project_command_intent(input@) {
            Some(k) => (r matches Some(s) && s@ == k),
            None => r is None,
        },
{
    let n = lower_chars(&trim_chars(&chars_of(input)));
    let run = vec![
        "run project",
        "run the project",
        "run this project",
        "run this",
        "start project",
        "start the project",
        "start this",
    ];
    if says_any_exec(&n, &run, Ghost(run_phrases())) {
        return Some("run");
    }
    let test = vec!["test project", "test the project", "test this", "run tests"];
    if says_any_exec(&n, &test, Ghost(test_phrases())) {
        return Some("test");
    }
    let setup = vec![
        "setup project",
        "setup the project",
        "install dependencies",
        "build project",
        "build the project",
        "build this",
    ];
    if says_any_exec(&n, &setup, Ghost(setup_phrases())) {
        return Some("setup");
    }
    None
}

// ---------------------------------------------------------------------------
// Shell quoting
// ---------------------------------------------------------------------------

/// The quoted body: every `'` becomes `'\''`.
pub open spec fn quote_body(s: Seq<char>) -> Seq<char>
    decreases s.len(),
{
    if s.len() == 0 {
        Seq::empty()
    } else if s.last() == '\'' {
        quote_body(s.drop_last()) + seq!['\'', '\\', '\'', '\'']
    } else {
        quote_body(s.drop_last()).push(s.last())
    }
}

/// A text as one single-quoted shell word.
pub open spec fn quoted(s: Seq<char>) -> Seq<char> {
    seq!['\''] + quote_body(s) + seq!['\'']
}

/// The command that runs `command` in the workspace under `sh -lc`.
pub open spec fn workspace_command(workspace: Seq<char>, command: Seq<char>) -> Seq<char> {
    "sh -lc "@ + quoted("cd "@ + quoted(workspace) + " && "@ + command)
}

/// Quotes a text as one shell word.
pub fn shell_quote(value: &str) -> (r: String)
    ensures
        r@ == quoted(value@),
{
    let v = chars_of(value);
    let mut out = String::new();
    push_char(&mut out, '\'');
    let mut i: usize = 0;
    while i < v.len()
        invariant
            i <= v.len(),
            out@ == seq!['\''] + quote_body(v@.subrange(0, i as int)),
        decreases v.len() - i,
    {
        proof {
            let s = v@.subrange(0, i + 1);
            assert(s.drop_last() =~= v@.subrange(0, i as int));
            assert(s.last() == v@[i as int]);
        }
        if v[i] == '\'' {
            push_char(&mut out, '\'');
            push_char(&mut out, '\\');
            push_char(&mut out, '\'');
            push_char(&mut out, '\'');
            proof {
                assert(out@ =~= seq!['\''] + quote_body(v@.subrange(0, i + 1)));
            }
        } else {
            push_char(&mut out, v[i]);
            proof {
                assert(out@ =~= seq!['\''] + quote_body(v@.subrange(0, i + 1)));
            }
        }
        i += 1;
    }
    push_char(&mut out, '\'');
    proof {
        assert(v@.subrange(0, v.len() as int) =~= v@);
    }
    out
}

/// The command that runs `command` inside the workspace directory.
pub fn build_workspace_command(workspace: &str, command: &str) -> (r: String)
    ensures
        r@ == workspace_command(workspace@, command@),
{
    let mut script = String::from_str("cd ");
    let q = shell_quote(workspace);
    script.append(q.as_str());
    script.append(" && ");
    script.append(command);
    let mut out = String::from_str("sh -lc ");
    let qs = shell_quote(script.as_str());
    out.append(qs.as_str());
    out
}

// ---------------------------------------------------------------------------
// Switching agents by name
// ---------------------------------------------------------------------------

pub open spec fn switch_pattern() -> Seq<char> {
    "(?i)^switch\\s+(?:agent\\s+)?to\\s+(.+)$"@
}

/// The agent that a match of the switch pattern names: its group 1,
/// trimmed.
pub open spec fn target_from_groups(c: Seq<Option<Seq<char>>>) -> Option<Seq<char>> {
    match group(c, 1) {
        Some(g) => Some(trimmed(g)),
        None => None,
    }
}

/// The agent that a "switch [agent] to NAME" request names, trimmed.
pub open spec fn switch_target(input: Seq<char>) -> Option<Seq<char>> {
    if !regex_compiles(switch_pattern()) {
        None
    } else {
        match regex_captures(switch_pattern(), input) {
            None => None,
            Some(c) => target_from_groups(c),
        }
    }
}

/// The agent that a match of the switch pattern names; see
/// `target_from_groups`.
pub fn switch_target_from_captures(c: &Vec<Option<String>>) -> (r: Option<String>)
    ensures
        opt_text(r) == target_from_groups(group_texts(*c)),
{
    match group_at(c, 1) {
        Some(g) => Some(trim_str(g.as_str())),
        None => None,
    }
}

/// The agent that a "switch [agent] to NAME" request names.
pub fn parse_switch_target(input: &str) -> (r: Option<String>)
    ensures
        opt_text(r) == switch_target(input@),
{
    match captures_of("(?i)^switch\\s+(?:agent\\s+)?to\\s+(.+)$", input) {
        None => None,
        Some(c) => switch_target_from_captures(&c),
    }
}

// ---------------------------------------------------------------------------
// Collecting commands without repeats
// ---------------------------------------------------------------------------

pub open spec fn texts(v: Seq<String>) -> Seq<Seq<char>> {
    v.map_values(|s: String| s@)
}

pub(crate) fn listed(commands: &Vec<String>, t: &str) -> (b: bool)
    ensures
        b == texts(commands@).contains(t@),
{
    let mut i: usize = 0;
    while i < commands.len()
        invariant
            i <= commands.len(),
            forall|j: int| 0 <= j < i ==> commands@[j]@ != t@,
        decreases commands.len() - i,
    {
        if str_eq(commands[i].as_str(), t) {
            proof {
                assert(texts(commands@)[i as int] == t@);
            }
            return true;
        }
        i += 1;
    }
    proof {
        if texts(commands@).contains(t@) {
            let j = choose|j: int| 0 <= j < texts(commands@).len() && texts(commands@)[j] == t@;
            assert(commands@[j]@ == t@);
        }
    }
    false
}

/// Adds the trimmed command unless it is empty or already listed.
pub fn push_unique(commands: &mut Vec<String>, command: &str)
    ensures
        ({
            let t = trimmed(command@);
            if t.len() == 0 || texts(old(commands)@).contains(t) {
                texts(final(commands)@) == texts(old(commands)@)
            } else {
                texts(final(commands)@) == texts(old(commands)@).push(t)
            }
        }),
{
    let t = trim_str(command);
    if t.as_str().is_empty() {
        return;
    }
    if listed(commands, t.as_str()) {
        return;
    }
    commands.push(t);
    proof {
        assert(texts(commands@) =~= texts(old(commands)@).push(t@));
    }
}

/// The command of a line written as `$ command` or `> command`.
pub open spec fn prompt_line_command(line: Seq<char>) -> Option<Seq<char>> {
    let t = trimmed(line);
    if has_prefix(t, "$ "@) {
        Some(t.subrange(2, t.len() as int))
    } else if has_prefix(t, "> "@) {
        Some(t.subrange(2, t.len() as int))
    } else {
        None
    }
}


// ---------------------------------------------------------------------------
// Reading the agent's reply
// ---------------------------------------------------------------------------

/// A reply written as JSON: `{"message": ..., "commands": [...]}`.
#[derive(Debug, Clone)]
pub struct StructuredResponse {
    pub message: Option<String>,
    pub commands: Option<Vec<String>>,
}

/// What the router takes from a reply: the text to show and the commands to
/// run.
#[derive(Debug, Clone)]
pub struct ParsedResponse {
    pub message: String,
    pub commands: Vec<String>,
}

pub open spec fn structured_view(r: StructuredResponse) -> (Option<Seq<char>>, Option<Seq<Seq<char>>>) {
    (
        opt_text(r.message),
        match r.commands {
            Some(v) => Some(texts(v@)),
            None => None,
        },
    )
}

pub open spec fn code_block_pattern() -> Seq<char> {
    "(?s)```(?P<lang>\\w+)?\\n(?P<body>.*?)```"@
}

/// A fenced block of one match: its language, lower-cased (empty when not
/// given), and its body.
pub open spec fn block_of(c: Seq<Option<Seq<char>>>) -> (Seq<char>, Seq<char>) {
    (
        match group(c, 1) {
            Some(l) => unicode_lower(l),
            None => Seq::empty(),
        },
        match group(c, 2) {
            Some(b) => b,
            None => Seq::empty(),
        },
    )
}

/// The fenced code blocks of a text, in order.
pub open spec fn code_blocks(text: Seq<char>) -> Seq<(Seq<char>, Seq<char>)> {
    if regex_compiles(code_block_pattern()) {
        regex_captures_all(code_block_pattern(), text).map_values(|c: Seq<Option<Seq<char>>>| block_of(c))
    } else {
        Seq::empty()
    }
}

pub open spec fn blocks_view(v: Seq<(String, String)>) -> Seq<(Seq<char>, Seq<char>)> {
    v.map_values(|b: (String, String)| (b.0@, b.1@))
}

/// The fenced code blocks of a text: language and body of each.
pub fn extract_code_blocks(text: &str) -> (r: Vec<(String, String)>)
    ensures
        blocks_view(r@) == code_blocks(text@),
{
    let p = match Pattern::compile("(?s)```(?P<lang>\\w+)?\\n(?P<body>.*?)```") {
        Some(p) => p,
        None => {
            return Vec::new();
        },
    };
    let caps = p.captures_all(text);
    let ghost cg = all_groups_view(caps@);
    let mut out: Vec<(String, String)> = Vec::new();
    let mut i: usize = 0;
    while i < caps.len()
        invariant
            i <= caps.len(),
            cg == all_groups_view(caps@),
            blocks_view(out@) == cg.subrange(0, i as int).map_values(|c: Seq<Option<Seq<char>>>| block_of(c)),
        decreases caps.len() - i,
    {
        proof {
            assert(cg[i as int] == group_texts(caps@[i as int]));
        }
        let lang = match group_at(&caps[i], 1) {
            Some(l) => to_lowercase(l.as_str()),
            None => String::new(),
        };
        let body = match group_at(&caps[i], 2) {
            Some(b) => b,
            None => String::new(),
        };
        let ghost before = out@;
        out.push((lang, body));
        proof {
            assert(blocks_view(out@) == blocks_view(before).push(block_of(cg[i as int])));
            assert(cg.subrange(0, i as int + 1).map_values(|c: Seq<Option<Seq<char>>>| block_of(c))
                == cg.subrange(0, i as int).map_values(|c: Seq<Option<Seq<char>>>| block_of(c)).push(block_of(cg[i as int])));
        }
        i += 1;
    }
    proof {
        assert(cg.subrange(0, cg.len() as int) == cg);
    }
    out
}

/// A trimmed text with `t` added unless it is empty or already there.
pub open spec fn add_unique(acc: Seq<Seq<char>>, x: Seq<char>) -> Seq<Seq<char>> {
    let t = trimmed(x);
    if t.len() == 0 || acc.contains(t) {
        acc
    } else {
        acc.push(t)
    }
}

pub open spec fn add_all_unique(acc: Seq<Seq<char>>, xs: Seq<Seq<char>>) -> Seq<Seq<char>>
    decreases xs.len(),
{
    if xs.len() == 0 {
        acc
    } else {
        add_unique(add_all_unique(acc, xs.drop_last()), xs.last())
    }
}

/// The commands of the lines of a shell block: each trimmed line that is
/// neither empty nor a `#` comment.
pub open spec fn shell_commands(ls: Seq<Seq<char>>) -> Seq<Seq<char>>
    decreases ls.len(),
{
    if ls.len() == 0 {
        Seq::empty()
    } else {
        let t = trimmed(ls.last());
        let rest = shell_commands(ls.drop_last());
        if t.len() == 0 || t[0] == '#' {
            rest
        } else {
            rest.push(t)
        }
    }
}

pub open spec fn is_shell_lang(l: Seq<char>) -> bool {
    l == "bash"@ || l == "sh"@ || l == "shell"@
}

/// The commands a block gives: those of its JSON, when it is a `json` block
/// that decoded with a `commands` list, then its lines when it is a shell
/// block.
pub open spec fn block_commands(b: (Seq<char>, Seq<char>), decoded: Option<(Option<Seq<char>>, Option<Seq<Seq<char>>>)>) -> Seq<Seq<char>> {
    (if b.0 == "json"@ {
        match decoded {
            Some(d) => match d.1 {
                Some(cs) => cs,
                None => Seq::empty(),
            },
            None => Seq::empty(),
        }
    } else {
        Seq::empty()
    }) + (if is_shell_lang(b.0) {
        shell_commands(lines_from(b.1, 0))
    } else {
        Seq::empty()
    })
}

/// The decoding of block `i`, `None` past the end of the list.
pub open spec fn decoded_at(d: Seq<Option<StructuredResponse>>, i: int) -> Option<(Option<Seq<char>>, Option<Seq<Seq<char>>>)> {
    if 0 <= i < d.len() {
        match d[i] {
            Some(r) => Some(structured_view(r)),
            None => None,
        }
    } else {
        None
    }
}

pub open spec fn all_block_commands(blocks: Seq<(Seq<char>, Seq<char>)>, d: Seq<Option<StructuredResponse>>) -> Seq<Seq<char>>
    decreases blocks.len(),
{
    if blocks.len() == 0 {
        Seq::empty()
    } else {
        all_block_commands(blocks.drop_last(), d) + block_commands(blocks.last(), decoded_at(d, blocks.len() - 1))
    }
}

/// The commands written at a prompt: lines `$ cmd` or `> cmd`.
pub open spec fn prompt_commands(ls: Seq<Seq<char>>) -> Seq<Seq<char>>
    decreases ls.len(),
{
    if ls.len() == 0 {
        Seq::empty()
    } else {
        let rest = prompt_commands(ls.drop_last());
        match prompt_line_command(ls.last()) {
            Some(c) => rest.push(c),
            None => rest,
        }
    }
}

/// What a reply means. A reply that decoded as JSON as a whole gives its
/// message (the reply itself when it has none) and its commands as they
/// are. Otherwise the message is the reply, and the commands are gathered,
/// trimmed and without repeats, from the `json` and shell code blocks in
/// order, then from the prompt lines.
pub open spec fn reply_meaning(
    text: Seq<char>,
    whole: Option<StructuredResponse>,
    decoded: Seq<Option<StructuredResponse>>,
) -> (Seq<char>, Seq<Seq<char>>) {
    match whole {
        Some(w) => (
            match structured_view(w).0 {
                Some(m) => m,
                None => text,
            },
            match structured_view(w).1 {
                Some(cs) => cs,
                None => Seq::empty(),
            },
        ),
        None => (
            text,
            add_all_unique(
                Seq::empty(),
                all_block_commands(code_blocks(text), decoded) + prompt_commands(lines_from(text, 0)),
            ),
        ),
    }
}

proof fn lemma_add_all_unique_distinct(acc: Seq<Seq<char>>, xs: Seq<Seq<char>>)
    requires
        acc.no_duplicates(),
        forall|i: int| 0 <= i < acc.len() ==> (#[trigger] acc[i]).len() > 0,
    ensures
        add_all_unique(acc, xs).no_duplicates(),
        forall|i: int| 0 <= i < add_all_unique(acc, xs).len() ==> (#[trigger] add_all_unique(acc, xs)[i]).len() > 0,
    decreases xs.len(),
{
    if xs.len() > 0 {
        lemma_add_all_unique_distinct(acc, xs.drop_last());
        let a = add_all_unique(acc, xs.drop_last());
        let t = trimmed(xs.last());
        if !(t.len() == 0 || a.contains(t)) {
            let b = a.push(t);
            assert forall|i: int, j: int| 0 <= i < b.len() && 0 <= j < b.len() && i != j implies b[i] != b[j] by {
                if i == a.len() as int {
                    assert(b[j] == a[j]);
                } else if j == a.len() as int {
                    assert(b[i] == a[i]);
                }
            }
        }
    }
}

/// When a reply is not one JSON object, the commands gathered from it are
/// distinct and none is blank.
pub proof fn law_gathered_commands_distinct(text: Seq<char>, decoded: Seq<Option<StructuredResponse>>)
    ensures
        reply_meaning(text, None, decoded).1.no_duplicates(),
        forall|i: int|
            0 <= i < reply_meaning(text, None, decoded).1.len() ==> (#[trigger] reply_meaning(text, None, decoded).1[i]).len() > 0,
{
    lemma_add_all_unique_distinct(
        Seq::empty(),
        all_block_commands(code_blocks(text), decoded) + prompt_commands(lines_from(text, 0)),
    );
}

proof fn lemma_shell_line_kept(ls: Seq<Seq<char>>, j: int)
    requires
        0 <= j < ls.len(),
        trimmed(ls[j]).len() > 0,
        trimmed(ls[j])[0] != '#',
    ensures
        shell_commands(ls).contains(trimmed(ls[j])),
    decreases ls.len(),
{
    let t = trimmed(ls[j]);
    let rest = shell_commands(ls.drop_last());
    if j == ls.len() - 1 {
        assert(ls.last() == ls[j]);
        assert(rest.push(t)[rest.len() as int] == t);
    } else {
        assert(ls.drop_last()[j] == ls[j]);
        lemma_shell_line_kept(ls.drop_last(), j);
        let k = choose|k: int| 0 <= k < rest.len() && rest[k] == t;
        assert(rest.push(trimmed(ls.last()))[k] == t);
    }
}

proof fn lemma_block_command_kept(
    blocks: Seq<(Seq<char>, Seq<char>)>,
    d: Seq<Option<StructuredResponse>>,
    k: int,
    x: Seq<char>,
)
    requires
        0 <= k < blocks.len(),
        block_commands(blocks[k], decoded_at(d, k)).contains(x),
    ensures
        all_block_commands(blocks, d).contains(x),
    decreases blocks.len(),
{
    let front = all_block_commands(blocks.drop_last(), d);
    let back = block_commands(blocks.last(), decoded_at(d, blocks.len() - 1));
    if k == blocks.len() - 1 {
        assert(blocks.last() == blocks[k]);
        let i = choose|i: int| 0 <= i < back.len() && back[i] == x;
        assert((front + back)[front.len() + i] == x);
    } else {
        assert(blocks.drop_last()[k] == blocks[k]);
        lemma_block_command_kept(blocks.drop_last(), d, k, x);
        let i = choose|i: int| 0 <= i < front.len() && front[i] == x;
        assert((front + back)[i] == x);
    }
}

proof fn lemma_add_all_unique_keeps(acc: Seq<Seq<char>>, xs: Seq<Seq<char>>, i: int)
    requires
        0 <= i < xs.len(),
        trimmed(xs[i]).len() > 0,
    ensures
        add_all_unique(acc, xs).contains(trimmed(xs[i])),
    decreases xs.len(),
{
    let a = add_all_unique(acc, xs.drop_last());
    let t = trimmed(xs[i]);
    if i == xs.len() - 1 {
        assert(xs.last() == xs[i]);
        if !a.contains(t) {
            assert(a.push(t)[a.len() as int] == t);
        }
    } else {
        assert(xs.drop_last()[i] == xs[i]);
        lemma_add_all_unique_keeps(acc, xs.drop_last(), i);
        let k = choose|k: int| 0 <= k < a.len() && a[k] == t;
        let u = trimmed(xs.last());
        if !(u.len() == 0 || a.contains(u)) {
            assert(a.push(u)[k] == t);
        }
    }
}

/// Every command line of a shell code block is taken: in a reply that is
/// not one JSON object, each line of a fenced block whose language is
/// `bash`, `sh` or `shell` (in any case) that is neither blank nor a `#`
/// comment is among the commands, trimmed.
pub proof fn law_shell_block_lines_are_commands(
    text: Seq<char>,
    decoded: Seq<Option<StructuredResponse>>,
    k: int,
    j: int,
)
    requires
        0 <= k < code_blocks(text).len(),
        seq!["bash"@, "sh"@, "shell"@].contains(code_blocks(text)[k].0),
        0 <= j < lines_from(code_blocks(text)[k].1, 0).len(),
        trimmed(lines_from(code_blocks(text)[k].1, 0)[j]).len() > 0,
        trimmed(lines_from(code_blocks(text)[k].1, 0)[j])[0] != '#',
    ensures
        reply_meaning(text, None, decoded).1.contains(trimmed(lines_from(code_blocks(text)[k].1, 0)[j])),
{
    let blocks = code_blocks(text);
    let b = blocks[k];
    let ls = lines_from(b.1, 0);
    let t = trimmed(ls[j]);
    let langs = seq!["bash"@, "sh"@, "shell"@];
    let w = choose|w: int| 0 <= w < langs.len() && langs[w] == b.0;
    assert(b.0 == "bash"@ || b.0 == "sh"@ || b.0 == "shell"@);
    lemma_shell_line_kept(ls, j);
    let sc = shell_commands(ls);
    let bc = block_commands(b, decoded_at(decoded, k));
    let pre = bc.subrange(0, bc.len() - sc.len());
    assert(bc == pre + sc);
    let i = choose|i: int| 0 <= i < sc.len() && sc[i] == t;
    assert(bc[pre.len() + i] == t);
    lemma_block_command_kept(blocks, decoded, k, t);
    let abc = all_block_commands(blocks, decoded);
    let all = abc + prompt_commands(lines_from(text, 0));
    let q = choose|q: int| 0 <= q < abc.len() && abc[q] == t;
    assert(all[q] == t);
    lemma_trimmed_idempotent(ls[j]);
    lemma_add_all_unique_keeps(Seq::empty(), all, q);
}

proof fn lemma_add_all_unique_append(acc: Seq<Seq<char>>, xs: Seq<Seq<char>>, ys: Seq<Seq<char>>)
    ensures
        add_all_unique(acc, xs + ys) == add_all_unique(add_all_unique(acc, xs), ys),
    decreases ys.len(),
{
    if ys.len() == 0 {
        assert(xs + ys == xs);
    } else {
        lemma_add_all_unique_append(acc, xs, ys.drop_last());
        assert((xs + ys).drop_last() == xs + ys.drop_last());
        assert((xs + ys).last() == ys.last());
    }
}

proof fn lemma_two_char_prefix(t: Seq<char>, a: char, b: char)
    ensures
        has_prefix(t, seq![a, b]) == (t.len() >= 2 && t[0] == a && t[1] == b),
{
    if t.len() >= 2 {
        if t[0] == a && t[1] == b {
            assert(t.subrange(0, 2) =~= seq![a, b]);
        } else {
            if t.subrange(0, 2) == seq![a, b] {
                assert(t.subrange(0, 2)[0] == a);
                assert(t.subrange(0, 2)[1] == b);
            }
        }
    }
}

/// Adds each command of a list, as `push_unique` does.
fn push_all_unique(commands: &mut Vec<String>, items: &Vec<String>)
    ensures
        texts(final(commands)@) == add_all_unique(texts(old(commands)@), texts(items@)),
{
    let mut i: usize = 0;
    while i < items.len()
        invariant
            i <= items.len(),
            texts(commands@) == add_all_unique(texts(old(commands)@), texts(items@).subrange(0, i as int)),
        decreases items.len() - i,
    {
        proof {
            let pre = texts(items@).subrange(0, i as int + 1);
            assert(pre.drop_last() == texts(items@).subrange(0, i as int));
            assert(pre.last() == items@[i as int]@);
        }
        push_unique(commands, items[i].as_str());
        i += 1;
    }
    proof {
        assert(texts(items@).subrange(0, items@.len() as int) == texts(items@));
    }
}

/// Adds the commands of a shell block's lines.
fn push_shell_commands(commands: &mut Vec<String>, body: &str)
    ensures
        texts(final(commands)@) == add_all_unique(texts(old(commands)@), shell_commands(lines_from(body@, 0))),
{
    let lines = split_lines(&chars_of(body));
    let ghost lv = lines@.map_values(|l: Vec<char>| l@);
    let mut i: usize = 0;
    proof {
        assert(lv.subrange(0, 0).len() == 0);
        assert(shell_commands(lv.subrange(0, 0)).len() == 0);
    }
    while i < lines.len()
        invariant
            i <= lines.len(),
            lv == lines@.map_values(|l: Vec<char>| l@),
            texts(commands@) == add_all_unique(texts(old(commands)@), shell_commands(lv.subrange(0, i as int))),
        decreases lines.len() - i,
    {
        let ghost pre = lv.subrange(0, i as int + 1);
        proof {
            assert(pre.drop_last() == lv.subrange(0, i as int));
            assert(pre.last() == lines@[i as int]@);
        }
        let t = trim_chars(&lines[i]);
        if t.len() == 0 || t[0] == '#' {
        } else {
            let ts = string_of(&t);
            proof {
                crate::text::lemma_trimmed_idempotent(lines@[i as int]@);
                assert(trimmed(ts@) == t@);
                assert(shell_commands(pre) == shell_commands(lv.subrange(0, i as int)).push(t@));
                let sc = shell_commands(pre);
                assert(sc.drop_last() == shell_commands(lv.subrange(0, i as int)));
                assert(sc.last() == t@);
                assert(add_unique(texts(commands@), ts@) == add_all_unique(texts(old(commands)@), shell_commands(pre)));
            }
            push_unique(commands, ts.as_str());
        }
        i += 1;
    }
    proof {
        assert(lv.subrange(0, lv.len() as int) == lv);
    }
}

/// Reads a reply. `whole` is the reply decoded as JSON, if it decoded;
/// `decoded[i]` is the JSON decoding of the body of the reply's code block
/// `i` (see `extract_code_blocks`), if it decoded.
pub fn parse_ai_response(
    text: &str,
    whole: Option<StructuredResponse>,
    decoded: &Vec<Option<StructuredResponse>>,
) -> (r: ParsedResponse)
    ensures
        r.message@ == reply_meaning(text@, whole, decoded@).0,
        texts(r.commands@) == reply_meaning(text@, whole, decoded@).1,
{
    if let Some(w) = whole {
        let message = match w.message {
            Some(m) => m,
            None => String::from_str(text),
        };
        let commands = match w.commands {
            Some(c) => c,
            None => Vec::new(),
        };
        return ParsedResponse { message, commands };
    }
    let blocks = extract_code_blocks(text);
    let ghost bv = blocks_view(blocks@);
    let mut commands: Vec<String> = Vec::new();
    let mut i: usize = 0;
    proof {
        assert(bv.subrange(0, 0).len() == 0);
        assert(all_block_commands(bv.subrange(0, 0), decoded@).len() == 0);
    }
    while i < blocks.len()
        invariant
            i <= blocks.len(),
            bv == blocks_view(blocks@),
            bv == code_blocks(text@),
            texts(commands@) == add_all_unique(Seq::empty(), all_block_commands(bv.subrange(0, i as int), decoded@)),
        decreases blocks.len() - i,
    {
        let ghost pre = bv.subrange(0, i as int + 1);
        let ghost acc = texts(commands@);
        proof {
            assert(pre.drop_last() == bv.subrange(0, i as int));
            assert(pre.last() == bv[i as int]);
            reveal_strlit("json");
            reveal_strlit("bash");
            reveal_strlit("sh");
            reveal_strlit("shell");
        }
        let lang = blocks[i].0.as_str();
        let body = blocks[i].1.as_str();
        let is_json = str_eq(lang, "json");
        let ghost json_part = block_commands(bv[i as int], decoded_at(decoded@, i as int));
        if is_json && i < decoded.len() {
            match &decoded[i] {
                Some(d) => match &d.commands {
                    Some(cs) => {
                        push_all_unique(&mut commands, cs);
                    },
                    None => {},
                },
                None => {},
            }
        }
        let ghost mid = texts(commands@);
        let shell = str_eq(lang, "bash") || str_eq(lang, "sh") || str_eq(lang, "shell");
        if shell {
            push_shell_commands(&mut commands, body);
        }
        proof {
            let j = if bv[i as int].0 == "json"@ {
                match decoded_at(decoded@, i as int) {
                    Some(d) => match d.1 {
                        Some(cs) => cs,
                        None => Seq::<Seq<char>>::empty(),
                    },
                    None => Seq::<Seq<char>>::empty(),
                }
            } else {
                Seq::<Seq<char>>::empty()
            };
            let sh = if is_shell_lang(bv[i as int].0) {
                shell_commands(lines_from(bv[i as int].1, 0))
            } else {
                Seq::<Seq<char>>::empty()
            };
            assert(mid == add_all_unique(acc, j));
            assert(texts(commands@) == add_all_unique(mid, sh));
            lemma_add_all_unique_append(acc, j, sh);
            lemma_add_all_unique_append(Seq::empty(), all_block_commands(bv.subrange(0, i as int), decoded@), j + sh);
            assert(all_block_commands(pre, decoded@) == all_block_commands(bv.subrange(0, i as int), decoded@) + (j + sh));
        }
        i += 1;
    }
    proof {
        assert(bv.subrange(0, bv.len() as int) == bv);
    }
    // prompt lines
    let lines = split_lines(&chars_of(text));
    let ghost lv = lines@.map_values(|l: Vec<char>| l@);
    let ghost blocks_part = all_block_commands(bv, decoded@);
    let mut k: usize = 0;
    proof {
        assert(lv.subrange(0, 0).len() == 0);
        assert(prompt_commands(lv.subrange(0, 0)).len() == 0);
        assert(blocks_part + Seq::<Seq<char>>::empty() == blocks_part);
    }
    while k < lines.len()
        invariant
            k <= lines.len(),
            lv == lines@.map_values(|l: Vec<char>| l@),
            texts(commands@) == add_all_unique(Seq::empty(), blocks_part + prompt_commands(lv.subrange(0, k as int))),
        decreases lines.len() - k,
    {
        let ghost pre = lv.subrange(0, k as int + 1);
        proof {
            assert(pre.drop_last() == lv.subrange(0, k as int));
            assert(pre.last() == lines@[k as int]@);
            reveal_strlit("$ ");
            reveal_strlit("> ");
        }
        let t = trim_chars(&lines[k]);
        let dollar = t.len() >= 2 && t[0] == '$' && t[1] == ' ';
        let angle = t.len() >= 2 && t[0] == '>' && t[1] == ' ';
        if dollar || angle {
            let rest = crate::text::sub_chars(&t, 2, t.len());
            let rs = string_of(&rest);
            proof {
                lemma_two_char_prefix(t@, '$', ' ');
                lemma_two_char_prefix(t@, '>', ' ');
                assert("$ "@ =~= seq!['$', ' ']);
                assert("> "@ =~= seq!['>', ' ']);
                assert(prompt_line_command(pre.last()) == Some(rest@));
                assert(prompt_commands(pre) == prompt_commands(lv.subrange(0, k as int)).push(rest@));
                let x = blocks_part + prompt_commands(lv.subrange(0, k as int));
                assert(blocks_part + prompt_commands(pre) == x.push(rest@));
                assert(x.push(rest@).drop_last() == x);
                assert(x.push(rest@).last() == rs@);
            }
            push_unique(&mut commands, rs.as_str());
        } else {
            proof {
                lemma_two_char_prefix(t@, '$', ' ');
                lemma_two_char_prefix(t@, '>', ' ');
                assert("$ "@ =~= seq!['$', ' ']);
                assert("> "@ =~= seq!['>', ' ']);
                assert(prompt_commands(pre) == prompt_commands(lv.subrange(0, k as int)));
            }
        }
        k += 1;
    }
    proof {
        assert(lv.subrange(0, lv.len() as int) == lv);
    }
    ParsedResponse { message: String::from_str(text), commands }
}


// ---------------------------------------------------------------------------
// The steps of handling an input
// ---------------------------------------------------------------------------

/// What the router does with an input before anything else: switch agents
/// when asked to, run a project command when one is asked for, otherwise
/// hand the input to the agent.
#[derive(Debug, Clone)]
pub enum InputRoute {
    SwitchAgent(String),
    ProjectCommand(&'static str),
    AskAgent,
}

/// One step of answering an input.
#[derive(Debug, Clone, Copy, PartialEq, Eq, Structural)]
pub enum InputStep {
    /// Switch to the named agent and answer with the outcome.
    SwitchAgent,
    /// Append the input to the conversation.
    RecordInput,
    /// Run the project command and answer with its outcome.
    RunProjectCommand,
    /// Load the recent conversation and add the context snapshot.
    GatherContext,
    /// Send the input with its context to the agent and parse the reply.
    AskAgent,
    /// Work through the reply's commands (`run_batch`).
    RunCommands,
    /// Append the reply, with what ran and what waits, to the conversation.
    RecordReply,
    /// Add the tasks that the input and the reply announce.
    ExtractTasks,
    /// Answer with the reply, the outputs and the commands that wait.
    Answer,
}

/// The steps that answer an input, in order: a switch request only
/// switches; a project command is recorded, then run; anything else is
/// recorded, its context gathered, sent to the agent, the reply's commands
/// worked through, the reply recorded, tasks extracted, and the answer
/// given. A step that fails ends the answer with its error.
pub open spec fn steps_for(route: InputRoute) -> Seq<InputStep> {
    match route {
        InputRoute::SwitchAgent(_) => seq![InputStep::SwitchAgent],
        InputRoute::ProjectCommand(_) => seq![InputStep::RecordInput, InputStep::RunProjectCommand],
        InputRoute::AskAgent => seq![
            InputStep::RecordInput,
            InputStep::GatherContext,
            InputStep::AskAgent,
            InputStep::RunCommands,
            InputStep::RecordReply,
            InputStep::ExtractTasks,
            InputStep::Answer,
        ],
    }
}

/// The steps that answer an input; see `steps_for`.
pub fn input_steps(route: &InputRoute) -> (r: Vec<InputStep>)
    ensures
        r@ == steps_for(*route),
{
    match route {
        InputRoute::SwitchAgent(_) => {
            let r = vec![InputStep::SwitchAgent];
            proof {
                assert(r@ =~= steps_for(*route));
            }
            r
        },
        InputRoute::ProjectCommand(_) => {
            let r = vec![InputStep::RecordInput, InputStep::RunProjectCommand];
            proof {
                assert(r@ =~= steps_for(*route));
            }
            r
        },
        InputRoute::AskAgent => {
            let r = vec![
                InputStep::RecordInput,
                InputStep::GatherContext,
                InputStep::AskAgent,
                InputStep::RunCommands,
                InputStep::RecordReply,
                InputStep::ExtractTasks,
                InputStep::Answer,
            ];
            proof {
                assert(r@ =~= steps_for(*route));
            }
            r
        },
    }
}

/// The input is recorded before the agent is asked, and the agent's reply
/// is recorded only after its commands were worked through; a switch
/// request records nothing.
pub proof fn law_input_recorded_first_reply_after_commands(route: InputRoute)
    ensures
        route is AskAgent ==> steps_for(route)[0] == InputStep::RecordInput && steps_for(route).index_of(
            InputStep::RunCommands,
        ) < steps_for(route).index_of(InputStep::RecordReply),
        route is SwitchAgent ==> !steps_for(route).contains(InputStep::RecordInput),
{
    if route is AskAgent {
        let s = steps_for(route);
        assert(s[3] == InputStep::RunCommands);
        assert(s[4] == InputStep::RecordReply);
        assert(s.contains(InputStep::RunCommands));
        assert(s.contains(InputStep::RecordReply));
        assert(s.index_of(InputStep::RunCommands) == 3);
        assert(s.index_of(InputStep::RecordReply) == 4);
    }
    if route is SwitchAgent {
        assert(steps_for(route)[0] == InputStep::SwitchAgent);
    }
}

/// How an input is routed.
pub fn route_input(input: &str) -> (r: InputRoute)
    ensures
        match switch_target(input@) {
            Some(t) => r matches InputRoute::SwitchAgent(n) && n@ == t,
            None => match project_command_intent(input@) {
                Some(k) => r matches InputRoute::ProjectCommand(c) && c@ == k,
                None => r is AskAgent,
            },
        },
{
    match parse_switch_target(input) {
        Some(t) => InputRoute::SwitchAgent(t),
        None => match detect_project_command_intent(input) {
            Some(k) => InputRoute::ProjectCommand(k),
            None => InputRoute::AskAgent,
        },
    }
}

/// Texts joined with a separator.
pub open spec fn joined_with(v: Seq<Seq<char>>, sep: Seq<char>) -> Seq<char>
    decreases v.len(),
{
    if v.len() == 0 {
        Seq::empty()
    } else if v.len() == 1 {
        v[0]
    } else {
        joined_with(v.drop_last(), sep) + sep + v.last()
    }
}

/// Texts joined with a separator.
pub fn join_texts(v: &Vec<String>, sep: &str) -> (r: String)
    ensures
        r@ == joined_with(texts(v@), sep@),
{
    let mut out = String::new();
    let mut i: usize = 0;
    proof {
        assert(texts(v@).subrange(0, 0).len() == 0);
    }
    while i < v.len()
        invariant
            i <= v.len(),
            out@ == joined_with(texts(v@).subrange(0, i as int), sep@),
        decreases v.len() - i,
    {
        proof {
            let pre = texts(v@).subrange(0, i as int + 1);
            assert(pre.drop_last() == texts(v@).subrange(0, i as int));
            assert(pre.last() == v@[i as int]@);
        }
        if i > 0 {
            out.append(sep);
        }
        out.append(v[i].as_str());
        i += 1;
    }
    proof {
        assert(texts(v@).subrange(0, v@.len() as int) == texts(v@));
    }
    out
}

/// A reply that carries only a message.
pub open spec fn message_only(r: RouterResponse, m: Seq<char>) -> bool {
    r.message@ == m && r.outputs@.len() == 0 && r.approvals_required@.len() == 0
}

fn reply(message: String) -> (r: RouterResponse)
    ensures
        message_only(r, message@),
{
    RouterResponse { message, outputs: Vec::new(), approvals_required: Vec::new() }
}

/// The reply to a "switch to" request, given how switching went: the
/// provider's message, or the list of agents there are.
pub fn switch_reply(target: &str, switched: Result<String, MentalOSError>, agents: &Vec<String>) -> (r: RouterResponse)
    ensures
        match switched {
            Ok(m) => message_only(r, m@),
            Err(_) => message_only(
                r,
                "Agent '"@ + target@ + "' not found. Available agents: "@ + joined_with(texts(agents@), ", "@),
            ),
        },
{
    match switched {
        Ok(m) => reply(m),
        Err(_) => {
            let list = join_texts(agents, ", ");
            let mut m = String::from_str("Agent '");
            m.append(target);
            m.append("' not found. Available agents: ");
            m.append(list.as_str());
            reply(m)
        },
    }
}

/// One step through the commands of a reply.
#[derive(Debug, Clone)]
pub enum BatchStep {
    /// Run this command and hand its output to `record_output`.
    Execute(String),
    /// The command waits for the user's approval; go on.
    Queued,
    /// Every command has been seen.
    Done,
}

/// The commands of a reply, seen one at a time: those the whitelist allows
/// are run, the others wait for approval.
pub struct CommandBatch {
    commands: Vec<String>,
    next: usize,
    outputs: Vec<CommandOutput>,
    approvals: Vec<String>,
    handed: Ghost<Seq<Seq<char>>>,
}

impl CommandBatch {
    pub closed spec fn commands(&self) -> Seq<Seq<char>> {
        texts(self.commands@)
    }

    /// How many commands have been seen.
    pub closed spec fn seen(&self) -> nat {
        self.next as nat
    }

    pub closed spec fn output_list(&self) -> Seq<CommandOutput> {
        self.outputs@
    }

    pub closed spec fn approval_list(&self) -> Seq<Seq<char>> {
        texts(self.approvals@)
    }

    /// The commands handed out to be run so far, in order.
    pub closed spec fn handed_out(&self) -> Seq<Seq<char>> {
        self.handed@
    }

    pub closed spec fn wf(&self) -> bool {
        self.next <= self.commands@.len()
    }

    pub fn new(commands: Vec<String>) -> (b: Self)
        ensures
            b.wf(),
            b.commands() == texts(commands@),
            b.seen() == 0,
            b.output_list().len() == 0,
            b.approval_list().len() == 0,
            b.handed_out().len() == 0,
    {
        CommandBatch { commands, next: 0, outputs: Vec::new(), approvals: Vec::new(), handed: Ghost(Seq::empty()) }
    }

    /// Looks at the next command: asks the whitelist (at `now`) whether it
    /// may run. An allowed command is handed out to be run; another one is
    /// queued for approval. Errors of the whitelist are passed on, and the
    /// command counts as seen.
    pub fn next_step_at(&mut self, whitelist: &mut WhitelistManager, now: i64) -> (r: Result<BatchStep, MentalOSError>)
        requires
            old(self).wf(),
        ensures
            final(self).wf(),
            final(self).commands() == old(self).commands(),
            final(self).output_list() == old(self).output_list(),
            final(whitelist).file() == old(whitelist).file(),
            final(whitelist).version() == old(whitelist).version(),
            old(self).seen() == old(self).commands().len() ==> (r matches Ok(BatchStep::Done)
                && final(self).seen() == old(self).seen() && final(self).approval_list() == old(
                self,
            ).approval_list() && final(self).handed_out() == old(self).handed_out() && final(whitelist).model()
                == old(whitelist).model()),
            old(self).seen() < old(self).commands().len() ==> {
                let c = old(self).commands()[old(self).seen() as int];
                &&& final(self).seen() == old(self).seen() + 1
                &&& final(whitelist).model() == cleaned(old(whitelist).model(), now)
                &&& exists|a: Result<bool, MentalOSError>|
                    allowed_result(cleaned(old(whitelist).model(), now), c, now, a) && match a {
                        Ok(true) => r matches Ok(BatchStep::Execute(x)) && x@ == c
                            && final(self).approval_list() == old(self).approval_list()
                            && final(self).handed_out() == old(self).handed_out().push(c),
                        Ok(false) => r matches Ok(BatchStep::Queued) && final(self).approval_list()
                            == old(self).approval_list().push(c) && final(self).handed_out() == old(self).handed_out(),
                        Err(e) => r == Err::<BatchStep, MentalOSError>(e)
                            && final(self).approval_list() == old(self).approval_list()
                            && final(self).handed_out() == old(self).handed_out(),
                    }
            },
    {
        if self.next >= self.commands.len() {
            return Ok(BatchStep::Done);
        }
        let c = self.commands[self.next].clone();
        proof {
            assert(c@ == self.commands()[self.next as int]);
        }
        self.next = self.next + 1;
        let d = whitelist.decision_at(c.as_str(), now);
        let ghost a = choose|a: Result<bool, MentalOSError>|
            allowed_result(cleaned(old(whitelist).model(), now), c@, now, a) && d == match a {
                Ok(true) => Ok(WhitelistDecision::Allowed),
                Ok(false) => Ok(WhitelistDecision::NeedsApproval),
                Err(e) => Err::<WhitelistDecision, MentalOSError>(e),
            };
        match d {
            Ok(WhitelistDecision::Allowed) => {
                proof {
                    self.handed = Ghost(self.handed@.push(c@));
                }
                Ok(BatchStep::Execute(c))
            },
            Ok(WhitelistDecision::NeedsApproval) => {
                let ghost before = self.approvals@;
                self.approvals.push(c);
                proof {
                    assert(texts(self.approvals@) == texts(before).push(c@));
                }
                Ok(BatchStep::Queued)
            },
            Err(e) => Err(e),
        }
    }

    /// Records what a command that was run produced.
    pub fn record_output(&mut self, output: CommandOutput)
        requires
            old(self).wf(),
        ensures
            final(self).wf(),
            final(self).commands() == old(self).commands(),
            final(self).seen() == old(self).seen(),
            final(self).output_list() == old(self).output_list().push(output),
            final(self).approval_list() == old(self).approval_list(),
            final(self).handed_out() == old(self).handed_out(),
    {
        self.outputs.push(output);
    }

    /// What the conversation records of the batch: each command run, then
    /// each command that waits for approval.
    pub fn actions(&self) -> (r: Vec<MessageAction>)
        ensures
            actions_view(r@) == run_actions(self.output_list()) + approval_actions(self.approval_list()),
    {
        let mut r: Vec<MessageAction> = Vec::new();
        let mut i: usize = 0;
        while i < self.outputs.len()
            invariant
                i <= self.outputs.len(),
                actions_view(r@) == run_actions(self.outputs@.subrange(0, i as int)),
            decreases self.outputs.len() - i,
        {
            let a = MessageAction {
                action_type: String::from_str("run_command"),
                path: None,
                command: Some(self.outputs[i].command.clone()),
            };
            let ghost before = r@;
            r.push(a);
            proof {
                let pre = self.outputs@.subrange(0, i as int + 1);
                assert(pre.drop_last() == self.outputs@.subrange(0, i as int));
                assert(pre.last() == self.outputs@[i as int]);
                assert(actions_view(r@) == actions_view(before).push(a@));
            }
            i += 1;
        }
        proof {
            assert(self.outputs@.subrange(0, self.outputs@.len() as int) == self.outputs@);
        }
        let ghost runs = actions_view(r@);
        let mut k: usize = 0;
        proof {
            assert(texts(self.approvals@).subrange(0, 0).len() == 0);
            assert(runs + approval_actions(texts(self.approvals@).subrange(0, 0)) == runs);
        }
        while k < self.approvals.len()
            invariant
                k <= self.approvals.len(),
                actions_view(r@) == runs + approval_actions(texts(self.approvals@).subrange(0, k as int)),
            decreases self.approvals.len() - k,
        {
            let a = MessageAction {
                action_type: String::from_str("approval_required"),
                path: None,
                command: Some(self.approvals[k].clone()),
            };
            let ghost before = r@;
            r.push(a);
            proof {
                let pre = texts(self.approvals@).subrange(0, k as int + 1);
                assert(pre.drop_last() == texts(self.approvals@).subrange(0, k as int));
                assert(pre.last() == self.approvals@[k as int]@);
                assert(actions_view(r@) == actions_view(before).push(a@));
            }
            k += 1;
        }
        proof {
            assert(texts(self.approvals@).subrange(0, self.approvals@.len() as int) == texts(self.approvals@));
        }
        r
    }

    /// The router's answer: the message, with what ran and what waits.
    pub fn finish(self, message: String) -> (r: RouterResponse)
        ensures
            r.message@ == message@,
            r.outputs@ == self.output_list(),
            texts(r.approvals_required@) == self.approval_list(),
    {
        RouterResponse { message, outputs: self.outputs, approvals_required: self.approvals }
    }
}

/// What the whitelist answers for a command at `now`: run it (`true`), wait
/// for approval (`false`), or an error (`None`: a blank command, or a pattern
/// that does not compile).
pub open spec fn verdict(w: WhitelistView, c: Seq<char>, now: i64) -> Option<bool> {
    if trimmed(c).len() == 0 {
        None
    } else {
        allow_answer(w, trimmed(c), now)
    }
}

/// The commands run and those queued for approval when the commands are
/// worked through in order against the whitelist `w` at `now`; `None` when
/// the whitelist answers one of them with an error, which ends the batch.
pub open spec fn batch_plan(w: WhitelistView, cmds: Seq<Seq<char>>, now: i64) -> Option<(Seq<Seq<char>>, Seq<Seq<char>>)>
    decreases cmds.len(),
{
    if cmds.len() == 0 {
        Some((Seq::empty(), Seq::empty()))
    } else {
        match batch_plan(w, cmds.drop_last(), now) {
            None => None,
            Some((run, queued)) => match verdict(w, cmds.last(), now) {
                Some(true) => Some((run.push(cmds.last()), queued)),
                Some(false) => Some((run, queued.push(cmds.last()))),
                None => None,
            },
        }
    }
}

/// A reply's commands are worked through as the whitelist answers them: when
/// it answers every one, exactly the allowed commands are run, in the order
/// of the reply, and exactly the others are queued for approval, in order;
/// when it answers one with an error, the batch ends in that error.
pub proof fn law_batch_runs_exactly_the_allowed(w: WhitelistView, cmds: Seq<Seq<char>>, now: i64)
    ensures
        (forall|i: int| 0 <= i < cmds.len() ==> #[trigger] verdict(w, cmds[i], now) is Some) ==> batch_plan(
            w,
            cmds,
            now,
        ) == Some(
            (
                cmds.filter(|c: Seq<char>| verdict(w, c, now) == Some(true)),
                cmds.filter(|c: Seq<char>| verdict(w, c, now) == Some(false)),
            ),
        ),
        (exists|i: int| 0 <= i < cmds.len() && #[trigger] verdict(w, cmds[i], now) is None) ==> batch_plan(
            w,
            cmds,
            now,
        ) is None,
    decreases cmds.len(),
{
    reveal(Seq::filter);
    if cmds.len() > 0 {
        let init = cmds.drop_last();
        law_batch_runs_exactly_the_allowed(w, init, now);
        if forall|i: int| 0 <= i < cmds.len() ==> #[trigger] verdict(w, cmds[i], now) is Some {
            assert forall|i: int| 0 <= i < init.len() implies #[trigger] verdict(w, init[i], now) is Some by {
                assert(init[i] == cmds[i]);
            }
            assert(verdict(w, cmds[cmds.len() - 1], now) is Some);
        }
        if exists|i: int| 0 <= i < cmds.len() && #[trigger] verdict(w, cmds[i], now) is None {
            let k = choose|i: int| 0 <= i < cmds.len() && #[trigger] verdict(w, cmds[i], now) is None;
            if k < cmds.len() - 1 {
                assert(init[k] == cmds[k]);
                assert(exists|i: int| 0 <= i < init.len() && #[trigger] verdict(w, init[i], now) is None);
            }
        }
    }
}

/// How many commands a plan runs.
pub open spec fn planned_runs(plan: Option<(Seq<Seq<char>>, Seq<Seq<char>>)>) -> nat {
    match plan {
        Some((run, _)) => run.len(),
        None => 0,
    }
}

/// A batch that can be worked through can be worked through up to any
/// point, having run no more commands by then.
proof fn lemma_plan_prefix(w: WhitelistView, cmds: Seq<Seq<char>>, now: i64, k: int)
    requires
        0 <= k <= cmds.len(),
        batch_plan(w, cmds, now) is Some,
    ensures
        batch_plan(w, cmds.take(k), now) is Some,
        planned_runs(batch_plan(w, cmds.take(k), now)) <= planned_runs(batch_plan(w, cmds, now)),
    decreases cmds.len(),
{
    if k == cmds.len() {
        assert(cmds.take(k) =~= cmds);
    } else {
        let init = cmds.drop_last();
        lemma_plan_prefix(w, init, now, k);
        assert(init.take(k) =~= cmds.take(k));
    }
}

proof fn lemma_filter_all<A>(s: Seq<A>, f: spec_fn(A) -> bool)
    requires
        forall|i: int| 0 <= i < s.len() ==> f(#[trigger] s[i]),
    ensures
        s.filter(f) == s,
    decreases s.len(),
{
    reveal(Seq::filter);
    if s.len() > 0 {
        lemma_filter_all(s.drop_last(), f);
        assert(s.drop_last().push(s.last()) =~= s);
    }
}

/// Dropping the lapsed approvals twice at one time drops nothing more.
proof fn lemma_cleaned_twice(w: WhitelistView, now: i64)
    ensures
        cleaned(cleaned(w, now), now) == cleaned(w, now),
{
    let f = |e: (Seq<char>, i64)| live(e, now);
    let t = w.temporary.filter(f);
    assert forall|i: int| 0 <= i < t.len() implies f(#[trigger] t[i]) by {
        w.temporary.lemma_filter_pred(f, i);
    }
    lemma_filter_all(t, f);
}

/// The whitelist's answer, read as a verdict.
proof fn lemma_verdict(w: WhitelistView, c: Seq<char>, now: i64, a: Result<bool, MentalOSError>)
    requires
        allowed_result(w, c, now, a),
    ensures
        verdict(w, c, now) == match a {
            Ok(b) => Some(b),
            Err(_) => None::<bool>,
        },
{
}

/// Works through a reply's commands with the whitelist at time `now`:
/// each command the whitelist allows is run by the executor, in order, and
/// its output kept; each other one is queued for approval. An error of the
/// whitelist or of the executor ends the batch and is returned.
pub fn run_batch<E: CommandExecutor>(
    commands: Vec<String>,
    whitelist: &mut WhitelistManager,
    executor: &E,
    now: i64,
) -> (r: Result<CommandBatch, MentalOSError>)
    ensures
        final(whitelist).model() == (if commands@.len() == 0 {
            old(whitelist).model()
        } else {
            cleaned(old(whitelist).model(), now)
        }),
        final(whitelist).file() == old(whitelist).file(),
        final(whitelist).version() == old(whitelist).version(),
        batch_plan(cleaned(old(whitelist).model(), now), texts(commands@), now) is None ==> r is Err,
        batch_plan(cleaned(old(whitelist).model(), now), texts(commands@), now) matches Some((run, _)) && run.len()
            == 0 ==> r is Ok,
        r matches Ok(b) ==> {
            &&& b.wf()
            &&& b.commands() == texts(commands@)
            &&& b.seen() == commands@.len()
            &&& batch_plan(cleaned(old(whitelist).model(), now), texts(commands@), now) matches Some((run, queued))
            &&& b.handed_out() == run
            &&& b.approval_list() == queued
            &&& b.output_list().len() == run.len()
            &&& forall|i: int| 0 <= i < run.len() ==> (#[trigger] b.output_list()[i]).command@ == run[i]
        },
{
    let ghost w0 = whitelist.model();
    let ghost wc = cleaned(w0, now);
    let ghost cmds = texts(commands@);
    proof {
        lemma_cleaned_twice(w0, now);
    }
    let n = commands.len();
    let mut batch = CommandBatch::new(commands);
    let mut i: usize = 0;
    while i < n
        invariant
            n == cmds.len(),
            cmds == texts(commands@),
            w0 == old(whitelist).model(),
            i <= n,
            batch.wf(),
            batch.commands() == cmds,
            batch.seen() == i,
            batch_plan(wc, cmds.take(i as int), now) matches Some((run, queued)) && batch.handed_out() == run
                && batch.approval_list() == queued,
            batch.output_list().len() == batch.handed_out().len(),
            forall|j: int|
                0 <= j < batch.handed_out().len() ==> (#[trigger] batch.output_list()[j]).command@
                    == batch.handed_out()[j],
            whitelist.model() == (if i == 0 {
                w0
            } else {
                wc
            }),
            whitelist.file() == old(whitelist).file(),
            whitelist.version() == old(whitelist).version(),
            wc == cleaned(w0, now),
            cleaned(wc, now) == wc,
        decreases n - i,
    {
        let ghost before = batch.handed_out();
        let ghost queued_before = batch.approval_list();
        let ghost wm = whitelist.model();
        proof {
            assert(cmds.take(i as int + 1).drop_last() =~= cmds.take(i as int));
            assert(cmds.take(i as int + 1).last() == cmds[i as int]);
            assert(cleaned(wm, now) == wc);
        }
        let step = batch.next_step_at(whitelist, now);
        proof {
            let a = choose|a: Result<bool, MentalOSError>|
                allowed_result(cleaned(wm, now), cmds[i as int], now, a) && match a {
                    Ok(true) => step matches Ok(BatchStep::Execute(x)) && x@ == cmds[i as int]
                        && batch.approval_list() == queued_before && batch.handed_out() == before.push(cmds[i as int]),
                    Ok(false) => step matches Ok(BatchStep::Queued) && batch.approval_list() == queued_before.push(
                        cmds[i as int],
                    ) && batch.handed_out() == before,
                    Err(e) => step == Err::<BatchStep, MentalOSError>(e) && batch.approval_list() == queued_before
                        && batch.handed_out() == before,
                };
            lemma_verdict(wc, cmds[i as int], now, a);
        }
        proof {
            if batch_plan(wc, cmds, now) is Some {
                lemma_plan_prefix(wc, cmds, now, i as int + 1);
            }
        }
        match step {
            Ok(BatchStep::Execute(c)) => {
                let output = executor.execute(c.as_str())?;
                batch.record_output(output);
            },
            Ok(BatchStep::Queued) => {},
            Ok(BatchStep::Done) => {},
            Err(e) => {
                return Err(e);
            },
        }
        i = i + 1;
    }
    proof {
        assert(cmds.take(n as int) =~= cmds);
    }
    Ok(batch)
}

pub open spec fn run_action(o: CommandOutput) -> ActionView {
    ActionView { action_type: "run_command"@, path: None, command: Some(o.command@) }
}

pub open spec fn run_actions(o: Seq<CommandOutput>) -> Seq<ActionView>
    decreases o.len(),
{
    if o.len() == 0 {
        Seq::empty()
    } else {
        run_actions(o.drop_last()).push(run_action(o.last()))
    }
}

pub open spec fn approval_actions(a: Seq<Seq<char>>) -> Seq<ActionView>
    decreases a.len(),
{
    if a.len() == 0 {
        Seq::empty()
    } else {
        approval_actions(a.drop_last()).push(
            ActionView { action_type: "approval_required"@, path: None, command: Some(a.last()) },
        )
    }
}

// ---------------------------------------------------------------------------
// Project commands
// ---------------------------------------------------------------------------

/// The reply when no project handler is set up.
pub fn project_commands_disabled() -> (r: RouterResponse)
    ensures
        message_only(r, "Project commands are not enabled yet."@),
{
    reply(String::from_str("Project commands are not enabled yet."))
}

/// The reply when there is no project workspace.
pub fn no_project_workspace() -> (r: RouterResponse)
    ensures
        message_only(r, "No project workspace found. Create a project first."@),
{
    reply(String::from_str("No project workspace found. Create a project first."))
}

/// The reply when the project has no command of the kind asked for.
pub fn project_command_unresolved(e: &MentalOSError) -> (r: RouterResponse)
    ensures
        message_only(r, error_text(*e)),
{
    reply(e.text())
}

/// The note that points to an earlier conversation about the project, by
/// its title or else its id.
pub fn related_session_note(title: Option<String>, session_id: &str) -> (r: String)
    ensures
        r@ == "(related conversation: "@ + match title {
            Some(t) => t@,
            None => session_id@,
        } + ")"@,
{
    let label = match title {
        Some(t) => t,
        None => String::from_str(session_id),
    };
    concat3("(related conversation: ", label.as_str(), ")")
}

/// What to do with a project command once the whitelist has spoken.
#[derive(Debug, Clone)]
pub struct ProjectCommandOutcome {
    /// The message for the user.
    pub message: String,
    /// The sandboxed command to run now, if it may run.
    pub execute: Option<String>,
    /// The commands that wait for approval.
    pub approvals: Vec<String>,
    /// What the conversation records.
    pub action: MessageAction,
}

pub open spec fn with_note(m: Seq<char>, sep: Seq<char>, note: Option<String>) -> Seq<char> {
    match note {
        Some(n) => m + sep + n@,
        None => m,
    }
}

/// The outcome of a project command: an allowed command runs in its
/// workspace (`execution`, see `build_workspace_command`); another waits for
/// approval. The message says which, and names the related conversation
/// when there is one.
pub fn project_command_outcome(
    command_type: &str,
    workspace: &str,
    project_command: &str,
    execution: &str,
    note: Option<String>,
    decision: WhitelistDecision,
) -> (r: ProjectCommandOutcome)
    ensures
        decision == WhitelistDecision::Allowed ==> {
            &&& r.message@ == with_note(
                "Executed project "@ + command_type@ + " command in "@ + workspace@ + "."@,
                " "@,
                note,
            )
            &&& r.execute matches Some(e) && e@ == execution@
            &&& r.approvals@.len() == 0
            &&& r.action@ == ActionView {
                action_type: "project_command_executed"@,
                path: Some(workspace@),
                command: Some(project_command@),
            }
        },
        decision == WhitelistDecision::NeedsApproval ==> {
            &&& r.message@ == with_note(
                "Project command requires approval:\n"@ + project_command@ + "\n(workspace: "@ + workspace@
                    + ")"@,
                "\n"@,
                note,
            )
            &&& r.execute is None
            &&& texts(r.approvals@) == seq![execution@]
            &&& r.action@ == ActionView {
                action_type: "project_command_requested"@,
                path: Some(workspace@),
                command: Some(project_command@),
            }
        },
{
    match decision {
        WhitelistDecision::Allowed => {
            let mut m = String::from_str("Executed project ");
            m.append(command_type);
            m.append(" command in ");
            m.append(workspace);
            m.append(".");
            let message = match note {
                Some(n) => {
                    m.append(" ");
                    m.append(n.as_str());
                    m
                },
                None => m,
            };
            ProjectCommandOutcome {
                message,
                execute: Some(String::from_str(execution)),
                approvals: Vec::new(),
                action: MessageAction {
                    action_type: String::from_str("project_command_executed"),
                    path: Some(String::from_str(workspace)),
                    command: Some(String::from_str(project_command)),
                },
            }
        },
        WhitelistDecision::NeedsApproval => {
            let mut m = String::from_str("Project command requires approval:\n");
            m.append(project_command);
            m.append("\n(workspace: ");
            m.append(workspace);
            m.append(")");
            let message = match note {
                Some(n) => {
                    m.append("\n");
                    m.append(n.as_str());
                    m
                },
                None => m,
            };
            let mut approvals: Vec<String> = Vec::new();
            approvals.push(String::from_str(execution));
            proof {
                assert(texts(approvals@) == seq![execution@]);
            }
            ProjectCommandOutcome {
                message,
                execute: None,
                approvals,
                action: MessageAction {
                    action_type: String::from_str("project_command_requested"),
                    path: Some(String::from_str(workspace)),
                    command: Some(String::from_str(project_command)),
                },
            }
        },
    }
}

/// What the conversation records of a project that was created: the
/// agent's message, with the project's path when there is one. Nothing is
/// recorded for a project that failed.
pub fn creation_record(success: bool, message: &str, path: Option<String>) -> (r: Option<(String, Vec<MessageAction>)>)
    ensures
        !success ==> r is None,
        success ==> (r matches Some(rec) && rec.0@ == message@ && actions_view(rec.1@) == match path {
            Some(p) => seq![ActionView { action_type: "create_project"@, path: Some(p@), command: None }],
            None => Seq::<ActionView>::empty(),
        }),
{
    if !success {
        return None;
    }
    let mut actions: Vec<MessageAction> = Vec::new();
    match path {
        Some(p) => {
            let a = MessageAction { action_type: String::from_str("create_project"), path: Some(p), command: None };
            actions.push(a);
            proof {
                assert(actions_view(actions@) == seq![a@]);
            }
        },
        None => {
            proof {
                assert(actions_view(actions@) == Seq::<ActionView>::empty());
            }
        },
    }
    Some((String::from_str(message), actions))
}

/// The project a request to create one names, for the user to confirm.
pub fn confirmation_of(req: ProjectRequest) -> (c: ProjectConfirmation)
    ensures
        c.name == req.name,
        c.language == req.language,
        c.framework == req.framework,
{
    ProjectConfirmation { name: req.name, language: req.language, framework: req.framework }
}


// ---------------------------------------------------------------------------
// What the agent is told about the session
// ---------------------------------------------------------------------------

/// The commands gathered from the actions of one message, in order, without
/// repeats; gathering stops as soon as `limit` commands are held.
pub open spec fn action_scan(acts: Seq<ActionView>, acc: Seq<Seq<char>>, limit: nat) -> Seq<Seq<char>>
    decreases acts.len(),
{
    if acts.len() == 0 {
        acc
    } else {
        let acc2 = match acts[0].command {
            Some(c) => if acc.contains(c) {
                acc
            } else {
                acc.push(c)
            },
            None => acc,
        };
        if acc2.len() >= limit {
            acc2
        } else {
            action_scan(acts.drop_first(), acc2, limit)
        }
    }
}

/// The commands gathered from the messages, newest message first.
pub open spec fn message_scan(ms: Seq<MessageView>, acc: Seq<Seq<char>>, limit: nat) -> Seq<Seq<char>>
    decreases ms.len(),
{
    if ms.len() == 0 {
        acc
    } else {
        let a = action_scan(ms.last().actions, acc, limit);
        if a.len() >= limit {
            a
        } else {
            message_scan(ms.drop_last(), a, limit)
        }
    }
}

/// The most recent distinct commands of the conversation, oldest first.
pub open spec fn recent_commands(ms: Seq<MessageView>, limit: nat) -> Seq<Seq<char>> {
    message_scan(ms, Seq::empty(), limit).reverse()
}

/// At most `limit` entries, and one when `limit` is 0 (a scan stops only
/// after it adds one).
pub open spec fn scan_cap(limit: nat) -> nat {
    if limit == 0 {
        1
    } else {
        limit
    }
}

proof fn lemma_push_new_distinct(acc: Seq<Seq<char>>, c: Seq<char>)
    requires
        acc.no_duplicates(),
        !acc.contains(c),
    ensures
        acc.push(c).no_duplicates(),
{
    let b = acc.push(c);
    assert forall|i: int, j: int| 0 <= i < b.len() && 0 <= j < b.len() && i != j implies b[i] != b[j] by {
        if i == acc.len() as int {
            assert(b[j] == acc[j]);
        } else if j == acc.len() as int {
            assert(b[i] == acc[i]);
        }
    }
}

proof fn lemma_reverse_distinct(s: Seq<Seq<char>>)
    requires
        s.no_duplicates(),
    ensures
        s.reverse().no_duplicates(),
        s.reverse().len() == s.len(),
{
    let r = s.reverse();
    assert forall|i: int, j: int| 0 <= i < r.len() && 0 <= j < r.len() && i != j implies r[i] != r[j] by {
        assert(r[i] == s[s.len() - 1 - i]);
        assert(r[j] == s[s.len() - 1 - j]);
    }
}

proof fn lemma_action_scan(acts: Seq<ActionView>, acc: Seq<Seq<char>>, limit: nat)
    requires
        acc.no_duplicates(),
        acc.len() < scan_cap(limit),
    ensures
        action_scan(acts, acc, limit).no_duplicates(),
        action_scan(acts, acc, limit).len() <= scan_cap(limit),
    decreases acts.len(),
{
    if acts.len() > 0 {
        match acts[0].command {
            Some(c) => if !acc.contains(c) {
                lemma_push_new_distinct(acc, c);
            },
            None => {},
        }
        let acc2 = match acts[0].command {
            Some(c) => if acc.contains(c) {
                acc
            } else {
                acc.push(c)
            },
            None => acc,
        };
        if acc2.len() < limit {
            lemma_action_scan(acts.drop_first(), acc2, limit);
        }
    }
}

proof fn lemma_message_scan(ms: Seq<MessageView>, acc: Seq<Seq<char>>, limit: nat)
    requires
        acc.no_duplicates(),
        acc.len() < scan_cap(limit),
    ensures
        message_scan(ms, acc, limit).no_duplicates(),
        message_scan(ms, acc, limit).len() <= scan_cap(limit),
    decreases ms.len(),
{
    if ms.len() > 0 {
        lemma_action_scan(ms.last().actions, acc, limit);
        let a = action_scan(ms.last().actions, acc, limit);
        if a.len() < limit {
            lemma_message_scan(ms.drop_last(), a, limit);
        }
    }
}

/// The recent commands of a conversation are distinct, and there are at
/// most `limit` of them (one when `limit` is 0).
pub proof fn law_recent_commands_distinct_and_capped(ms: Seq<MessageView>, limit: nat)
    ensures
        recent_commands(ms, limit).no_duplicates(),
        recent_commands(ms, limit).len() <= scan_cap(limit),
{
    lemma_message_scan(ms, Seq::empty(), limit);
    lemma_reverse_distinct(message_scan(ms, Seq::empty(), limit));
}

fn listed_text(v: &Vec<String>, t: &String) -> (b: bool)
    ensures
        b == texts(v@).contains(t@),
{
    listed(v, t.as_str())
}

/// The most recent distinct commands that the messages' actions ran or
/// asked for, at most `limit` of them once one is found, oldest first.
pub fn extract_recent_commands(context: &Vec<Message>, limit: usize) -> (r: Vec<String>)
    ensures
        texts(r@) == recent_commands(messages_view(context@), limit as nat),
{
    let ghost ms = messages_view(context@);
    let mut commands: Vec<String> = Vec::new();
    let mut j: usize = context.len();
    let mut done = false;
    proof {
        assert(ms.subrange(0, ms.len() as int) == ms);
        assert(texts(commands@) == Seq::<Seq<char>>::empty());
    }
    while j > 0 && !done
        invariant
            j <= context.len(),
            ms == messages_view(context@),
            !done ==> message_scan(ms, Seq::empty(), limit as nat) == message_scan(ms.subrange(0, j as int), texts(commands@), limit as nat),
            done ==> message_scan(ms, Seq::empty(), limit as nat) == texts(commands@),
        decreases j,
    {
        let ghost part = ms.subrange(0, j as int);
        let ghost acts = part.last().actions;
        proof {
            assert(part.last() == context@[j - 1]@);
            assert(part.drop_last() == ms.subrange(0, j - 1));
        }
        let m = &context[j - 1];
        let mut k: usize = 0;
        let ghost acc0 = texts(commands@);
        proof {
            assert(acts.subrange(0, acts.len() as int) == acts);
        }
        let mut stop = false;
        while k < m.actions.len() && !stop
            invariant
                k <= m.actions.len(),
                acts == actions_view(m.actions@),
                !stop ==> action_scan(acts, acc0, limit as nat) == action_scan(acts.subrange(k as int, acts.len() as int), texts(commands@), limit as nat),
                stop ==> action_scan(acts, acc0, limit as nat) == texts(commands@) && texts(commands@).len() >= limit,
            decreases m.actions.len() - k,
        {
            let ghost rest = acts.subrange(k as int, acts.len() as int);
            proof {
                assert(rest[0] == m.actions@[k as int]@);
                assert(rest.drop_first() == acts.subrange(k as int + 1, acts.len() as int));
            }
            match &m.actions[k].command {
                Some(c) => {
                    if !listed_text(&commands, c) {
                        let ghost before = commands@;
                        commands.push(c.clone());
                        proof {
                            assert(texts(commands@) == texts(before).push(c@));
                        }
                    }
                },
                None => {},
            }
            k += 1;
            if commands.len() >= limit {
                stop = true;
            }
        }
        proof {
            if !stop {
                assert(acts.subrange(acts.len() as int, acts.len() as int).len() == 0);
            }
        }
        j -= 1;
        if commands.len() >= limit {
            done = true;
        }
    }
    proof {
        if !done {
            assert(ms.subrange(0, 0).len() == 0);
        }
    }
    let r = reversed(commands);
    r
}

/// The elements in the opposite order.
pub fn reversed<T>(v: Vec<T>) -> (r: Vec<T>)
    ensures
        r@ == v@.reverse(),
{
    let mut v = v;
    let ghost orig = v@;
    let mut r: Vec<T> = Vec::new();
    while v.len() > 0
        invariant
            v@.len() <= orig.len(),
            v@ == orig.subrange(0, v@.len() as int),
            r@ == orig.subrange(v@.len() as int, orig.len() as int).reverse(),
        decreases v.len(),
    {
        let ghost n = v@.len();
        let ghost before = r@;
        let ghost vb = v@;
        let x = v.pop().unwrap();
        proof {
            assert(vb.last() == orig[n - 1]);
            assert(vb.drop_last() == orig.subrange(0, n - 1));
        }
        r.push(x);
        proof {
            let big = orig.len();
            assert(x == orig[n - 1]);
            assert(v@ == orig.subrange(0, n - 1));
            let a = orig.subrange(n - 1, big as int);
            let b = orig.subrange(n as int, big as int);
            assert forall|i: int| 0 <= i < a.len() implies #[trigger] a.reverse()[i] == b.reverse().push(orig[n - 1])[i] by {
                if i < b.len() {
                    assert(a.reverse()[i] == orig[big - 1 - i]);
                    assert(b.reverse()[i] == orig[big - 1 - i]);
                }
            }
            assert(a.reverse() =~= b.reverse().push(orig[n - 1]));
        }
    }
    proof {
        assert(orig.subrange(0, orig.len() as int) == orig);
    }
    r
}

/// The number of bytes of a character in UTF-8.
pub open spec fn utf8_len(c: char) -> nat {
    if (c as u32) < 0x80 {
        1
    } else if (c as u32) < 0x800 {
        2
    } else if (c as u32) < 0x10000 {
        3
    } else {
        4
    }
}

/// The number of bytes of a text in UTF-8.
pub open spec fn byte_len(s: Seq<char>) -> nat
    decreases s.len(),
{
    if s.len() == 0 {
        0
    } else {
        byte_len(s.drop_last()) + utf8_len(s.last())
    }
}

/// A text can be cut after its first 120 bytes: it is no longer, or a
/// character ends exactly there.
pub open spec fn clip_ok(s: Seq<char>) -> bool {
    byte_len(s) <= 120 || exists|k: int| 0 <= k <= s.len() && #[trigger] byte_len(s.take(k)) == 120
}

/// A text of more than 120 bytes cut to its first 120, with `...`.
pub open spec fn clipped(s: Seq<char>) -> Seq<char> {
    if byte_len(s) <= 120 {
        s
    } else {
        s.take(choose|k: int| 0 <= k <= s.len() && #[trigger] byte_len(s.take(k)) == 120) + "..."@
    }
}

pub open spec fn role_label(r: Role) -> Seq<char> {
    match r {
        Role::User => "user"@,
        Role::Assistant => "assistant"@,
        Role::System => "system"@,
    }
}

/// The first line of a text, trimmed (empty when there is none).
pub open spec fn headline(s: Seq<char>) -> Seq<char> {
    let ls = lines_from(s, 0);
    trimmed(if ls.len() > 0 { ls[0] } else { Seq::empty() })
}

/// The parts of a summary: for each message with a non-empty first line,
/// its author and that line, clipped.
pub open spec fn summary_parts(ms: Seq<MessageView>) -> Seq<Seq<char>>
    decreases ms.len(),
{
    if ms.len() == 0 {
        Seq::empty()
    } else {
        let rest = summary_parts(ms.drop_last());
        let h = headline(ms.last().content);
        if h.len() == 0 {
            rest
        } else {
            rest.push(role_label(ms.last().role) + ": "@ + clipped(h))
        }
    }
}

/// The last `count` messages.
pub open spec fn last_n(ms: Seq<MessageView>, count: nat) -> Seq<MessageView> {
    ms.subrange(if ms.len() > count { ms.len() - count } else { 0 }, ms.len() as int)
}

/// Whether the summary of the last `count` messages can be written: each
/// first line can be cut at 120 bytes.
pub open spec fn summary_ok(ms: Seq<MessageView>, count: nat) -> bool {
    forall|i: int| 0 <= i < last_n(ms, count).len() ==> clip_ok(headline(#[trigger] last_n(ms, count)[i].content))
}

fn utf8_len_of(c: char) -> (n: usize)
    ensures
        n == utf8_len(c),
{
    let u = c as u32;
    if u < 0x80 {
        1
    } else if u < 0x800 {
        2
    } else if u < 0x10000 {
        3
    } else {
        4
    }
}

proof fn lemma_byte_len_take_step(s: Seq<char>, k: int)
    requires
        0 <= k < s.len(),
    ensures
        byte_len(s.take(k + 1)) == byte_len(s.take(k)) + utf8_len(s[k]),
{
    assert(s.take(k + 1).drop_last() == s.take(k));
    assert(s.take(k + 1).last() == s[k]);
}

proof fn lemma_byte_len_take_mono(s: Seq<char>, a: int, b: int)
    requires
        0 <= a <= b <= s.len(),
    ensures
        byte_len(s.take(a)) + (b - a) <= byte_len(s.take(b)),
    decreases b - a,
{
    if a < b {
        lemma_byte_len_take_mono(s, a, b - 1);
        lemma_byte_len_take_step(s, b - 1);
    }
}

/// The first line, clipped: `None` when it cannot be cut at 120 bytes.
fn clip_headline(h: &Vec<char>) -> (r: Option<Vec<char>>)
    ensures
        clip_ok(h@) ==> (r matches Some(c) && c@ == clipped(h@)),
        !clip_ok(h@) ==> r is None,
{
    let mut k: usize = 0;
    let mut bytes: usize = 0;
    proof {
        assert(h@.take(0).len() == 0);
    }
    while k < h.len() && bytes < 120
        invariant
            k <= h.len(),
            bytes == byte_len(h@.take(k as int)),
            bytes <= 123,
            k == 0 || byte_len(h@.take(k - 1)) < 120,
        decreases h.len() - k,
    {
        proof {
            lemma_byte_len_take_step(h@, k as int);
        }
        let ghost prev = bytes;
        bytes = bytes + utf8_len_of(h[k]);
        k += 1;
    }
    proof {
        assert(h@.take(h@.len() as int) == h@);
    }
    if k == h.len() && bytes <= 120 {
        // the whole line fits
        proof {
            assert(byte_len(h@) <= 120);
        }
        return Some(sub_chars(h, 0, h.len()));
    }
    // the first 120 bytes are reached at k
    proof {
        if k == h.len() {
            assert(bytes > 120);
        }
    }
    if bytes != 120 {
        proof {
            // no prefix is exactly 120 bytes long
            assert forall|j: int| 0 <= j <= h@.len() implies #[trigger] byte_len(h@.take(j)) != 120 by {
                if j < k {
                    lemma_byte_len_take_mono(h@, j, k as int - 1);
                    lemma_byte_len_take_step(h@, k as int - 1);
                    assert(byte_len(h@.take(k - 1)) < 120);
                } else if j > k {
                    lemma_byte_len_take_mono(h@, k as int, j);
                }
            }
            lemma_byte_len_take_mono(h@, k as int, h@.len() as int);
        }
        return None;
    }
    proof {
        lemma_byte_len_take_mono(h@, k as int, h@.len() as int);
        if k < h.len() {
            lemma_byte_len_take_mono(h@, k as int, k as int + 1);
        }
        let w = choose|j: int| 0 <= j <= h@.len() && #[trigger] byte_len(h@.take(j)) == 120;
        if w < k {
            lemma_byte_len_take_mono(h@, w, k as int);
        } else if w > k {
            lemma_byte_len_take_mono(h@, k as int, w);
        }
        assert(w == k);
    }
    if k == h.len() {
        // exactly 120 bytes: kept whole
        return Some(sub_chars(h, 0, h.len()));
    }
    let mut out = sub_chars(h, 0, k);
    append_str(&mut out, "...");
    Some(out)
}

fn role_label_of(r: Role) -> (s: &'static str)
    ensures
        s@ == role_label(r),
{
    proof {
        reveal_strlit("user");
        reveal_strlit("assistant");
        reveal_strlit("system");
    }
    match r {
        Role::User => "user",
        Role::Assistant => "assistant",
        Role::System => "system",
    }
}

fn headline_of(content: &str) -> (h: Vec<char>)
    ensures
        h@ == headline(content@),
{
    let lines = split_lines(&chars_of(content));
    proof {
        let lv = lines@.map_values(|l: Vec<char>| l@);
        if lines@.len() > 0 {
            assert(lv[0] == lines@[0]@);
        }
    }
    if lines.len() > 0 {
        trim_chars(&lines[0])
    } else {
        let e: Vec<char> = Vec::new();
        trim_chars(&e)
    }
}

/// Whether the summary of the last `count` messages can be written (each
/// first line can be cut at 120 bytes without splitting a character).
pub fn can_summarize(context: &Vec<Message>, count: usize) -> (b: bool)
    ensures
        b == summary_ok(messages_view(context@), count as nat),
{
    let ghost ms = messages_view(context@);
    let ghost tail = last_n(ms, count as nat);
    let start: usize = if context.len() > count {
        context.len() - count
    } else {
        0
    };
    let mut i: usize = start;
    while i < context.len()
        invariant
            start <= i <= context.len(),
            ms == messages_view(context@),
            tail == ms.subrange(start as int, ms.len() as int),
            tail == last_n(ms, count as nat),
            forall|j: int| 0 <= j < i - start ==> clip_ok(headline(#[trigger] tail[j].content)),
        decreases context.len() - i,
    {
        proof {
            assert(tail[i - start] == context@[i as int]@);
        }
        let h = headline_of(context[i].content.as_str());
        if clip_headline(&h).is_none() {
            proof {
                let k = i - start;
                assert(!clip_ok(headline(last_n(ms, count as nat)[k].content)));
            }
            return false;
        }
        i += 1;
    }
    true
}

/// A summary of the last `count` messages: for each with a non-empty first
/// line, `author: line` (a line past 120 bytes cut there, with `...`),
/// joined with ` | `.
pub fn summarize_recent_conversation(context: &Vec<Message>, count: usize) -> (r: String)
    requires
        summary_ok(messages_view(context@), count as nat),
    ensures
        r@ == joined_with(summary_parts(last_n(messages_view(context@), count as nat)), " | "@),
{
    let ghost ms = messages_view(context@);
    let ghost tail = last_n(ms, count as nat);
    let start: usize = if context.len() > count {
        context.len() - count
    } else {
        0
    };
    let mut parts: Vec<String> = Vec::new();
    let mut i: usize = start;
    proof {
        assert(tail.subrange(0, 0).len() == 0);
    }
    while i < context.len()
        invariant
            start <= i <= context.len(),
            ms == messages_view(context@),
            tail == ms.subrange(start as int, ms.len() as int),
            summary_ok(ms, count as nat),
            tail == last_n(ms, count as nat),
            texts(parts@) == summary_parts(tail.subrange(0, i - start)),
        decreases context.len() - i,
    {
        let ghost pre = tail.subrange(0, i - start + 1);
        proof {
            assert(pre.drop_last() == tail.subrange(0, i - start));
            assert(pre.last() == tail[i - start]);
            assert(tail[i - start] == context@[i as int]@);
            assert(clip_ok(headline(tail[i - start].content)));
        }
        let h = headline_of(context[i].content.as_str());
        if h.len() > 0 {
            match clip_headline(&h) {
                Some(c) => {
                    let mut part = String::from_str(role_label_of(context[i].role));
                    part.append(": ");
                    let cs = string_of(&c);
                    part.append(cs.as_str());
                    let ghost before = parts@;
                    parts.push(part);
                    proof {
                        assert(texts(parts@) == texts(before).push(part@));
                    }
                },
                None => {},
            }
        }
        i += 1;
    }
    proof {
        assert(tail.subrange(0, tail.len() as int) == tail);
    }
    join_texts(&parts, " | ")
}


/// The phrases that announce a goal.
pub open spec fn goal_markers() -> Seq<Seq<char>> {
    seq!["i need to"@, "todo"@, "goal"@, "remember to"@]
}

/// Where the first marker (in the order of the list) that occurs in the text
/// first occurs.
pub open spec fn first_marker(l: Seq<char>, ms: Seq<Seq<char>>) -> Option<int>
    decreases ms.len(),
{
    if ms.len() == 0 {
        None
    } else {
        match occurrence_from(l, ms[0], 0) {
            Some(i) => Some(i),
            None => first_marker(l, ms.drop_first()),
        }
    }
}

/// The goal a text states: from the first goal phrase on (found in the
/// lower-cased text, at the same byte offset in the text), trimmed. None
/// when there is no goal phrase, when nothing follows it, or when that
/// offset falls inside a character of the text.
pub open spec fn goal_of(text: Seq<char>) -> Option<Seq<char>> {
    let l = unicode_lower(text);
    match first_marker(l, goal_markers()) {
        None => None,
        Some(i) => {
            let b = byte_len(l.take(i));
            if exists|k: int| 0 <= k <= text.len() && #[trigger] byte_len(text.take(k)) == b {
                let k = choose|k: int| 0 <= k <= text.len() && #[trigger] byte_len(text.take(k)) == b;
                let raw = trimmed(text.skip(k));
                if raw.len() == 0 {
                    None
                } else {
                    Some(raw)
                }
            } else {
                None
            }
        },
    }
}

/// The byte length of the first `n` characters.
fn bytes_before(s: &Vec<char>, n: usize) -> (b: u128)
    requires
        n <= s.len(),
    ensures
        b == byte_len(s@.take(n as int)),
{
    let mut b: u128 = 0;
    let mut k: usize = 0;
    proof {
        assert(s@.take(0).len() == 0);
    }
    while k < n
        invariant
            k <= n <= s.len(),
            b == byte_len(s@.take(k as int)),
            b <= 4 * k,
        decreases n - k,
    {
        proof {
            lemma_byte_len_take_step(s@, k as int);
        }
        b = b + utf8_len_of(s[k]) as u128;
        k += 1;
    }
    b
}

/// The number of characters whose bytes come to `b`, if a character ends
/// there.
fn chars_at_bytes(s: &Vec<char>, b: u128) -> (r: Option<usize>)
    ensures
        match r {
            Some(k) => k <= s.len() && byte_len(s@.take(k as int)) == b,
            None => forall|k: int| 0 <= k <= s.len() ==> #[trigger] byte_len(s@.take(k)) != b,
        },
{
    let mut acc: u128 = 0;
    let mut k: usize = 0;
    proof {
        assert(s@.take(0).len() == 0);
    }
    while k < s.len() && acc < b
        invariant
            k <= s.len(),
            acc == byte_len(s@.take(k as int)),
            acc <= 4 * k,
            forall|j: int| 0 <= j < k ==> #[trigger] byte_len(s@.take(j)) < b,
        decreases s.len() - k,
    {
        proof {
            lemma_byte_len_take_step(s@, k as int);
        }
        acc = acc + utf8_len_of(s[k]) as u128;
        k += 1;
    }
    if acc == b {
        return Some(k);
    }
    proof {
        assert forall|j: int| 0 <= j <= s.len() implies #[trigger] byte_len(s@.take(j)) != b by {
            if j > k {
                lemma_byte_len_take_mono(s@, k as int, j);
            }
        }
    }
    None
}

fn goal_marker_list() -> (v: Vec<&'static str>)
    ensures
        v@.len() == goal_markers().len(),
        forall|i: int| 0 <= i < v@.len() ==> (#[trigger] v@[i])@ == goal_markers()[i],
{
    let v = vec!["i need to", "todo", "goal", "remember to"];
    proof {
        assert forall|i: int| 0 <= i < v@.len() implies (#[trigger] v@[i])@ == goal_markers()[i] by {
            if i == 0 {
            } else if i == 1 {
            } else if i == 2 {
            } else {
            }
        }
    }
    v
}

/// The goal a text states (see `goal_of`).
pub fn infer_goal_phrase(text: &str) -> (r: Option<String>)
    ensures
        opt_text(r) == goal_of(text@),
{
    let lowered = to_lowercase(text);
    let l = chars_of(lowered.as_str());
    let markers = goal_marker_list();
    let ghost ms = goal_markers();
    let mut m: usize = 0;
    proof {
        assert(ms.subrange(0, ms.len() as int) == ms);
    }
    while m < markers.len()
        invariant
            m <= markers.len(),
            markers@.len() == ms.len(),
            ms == goal_markers(),
            forall|i: int| 0 <= i < markers@.len() ==> (#[trigger] markers@[i])@ == ms[i],
            l@ == unicode_lower(text@),
            first_marker(l@, ms) == first_marker(l@, ms.subrange(m as int, ms.len() as int)),
        decreases markers.len() - m,
    {
        let ghost rest = ms.subrange(m as int, ms.len() as int);
        proof {
            assert(rest[0] == ms[m as int]);
            assert(rest.drop_first() == ms.subrange(m as int + 1, ms.len() as int));
        }
        let mk = chars_of(markers[m]);
        match find_from(&l, &mk, 0) {
            Some(idx) => {
                proof {
                    crate::memory::lemma_occurrence_bounds(l@, mk@, 0);
                }
                let b = bytes_before(&l, idx);
                let t = chars_of(text);
                match chars_at_bytes(&t, b) {
                    Some(k) => {
                        let tail = sub_chars(&t, k, t.len());
                        let raw = trim_chars(&tail);
                        proof {
                            assert(tail@ == t@.skip(k as int));
                            let w = choose|w: int| 0 <= w <= t@.len() && #[trigger] byte_len(t@.take(w)) == b;
                            if w < k {
                                lemma_byte_len_take_mono(t@, w, k as int);
                                if w + 1 <= k {
                                    lemma_byte_len_take_mono(t@, w, w + 1);
                                    lemma_byte_len_take_mono(t@, w + 1, k as int);
                                }
                            } else if w > k {
                                lemma_byte_len_take_mono(t@, k as int, k as int + 1);
                                lemma_byte_len_take_mono(t@, k as int + 1, w);
                            }
                            assert(w == k);
                        }
                        if raw.len() == 0 {
                            return None;
                        }
                        return Some(string_of(&raw));
                    },
                    None => {
                        return None;
                    },
                }
            },
            None => {},
        }
        m += 1;
    }
    None
}

/// The goals gathered from the user's messages, newest first, without
/// repeats; after each user message the gathering stops once `limit` goals
/// are held.
pub open spec fn goal_scan(ms: Seq<MessageView>, acc: Seq<Seq<char>>, limit: nat) -> Seq<Seq<char>>
    decreases ms.len(),
{
    if ms.len() == 0 {
        acc
    } else if ms.last().role != Role::User {
        goal_scan(ms.drop_last(), acc, limit)
    } else {
        let acc2 = match goal_of(ms.last().content) {
            Some(g) => if acc.contains(g) {
                acc
            } else {
                acc.push(g)
            },
            None => acc,
        };
        if acc2.len() >= limit {
            acc2
        } else {
            goal_scan(ms.drop_last(), acc2, limit)
        }
    }
}

/// The goals of the conversation and of the new input, oldest first.
pub open spec fn user_goals(ms: Seq<MessageView>, input: Seq<char>, limit: nat) -> Seq<Seq<char>> {
    let a = goal_scan(ms, Seq::empty(), limit);
    (match goal_of(input) {
        Some(g) => if a.contains(g) {
            a
        } else {
            a.push(g)
        },
        None => a,
    }).reverse()
}

proof fn lemma_goal_scan(ms: Seq<MessageView>, acc: Seq<Seq<char>>, limit: nat)
    requires
        acc.no_duplicates(),
        acc.len() < scan_cap(limit),
    ensures
        goal_scan(ms, acc, limit).no_duplicates(),
        goal_scan(ms, acc, limit).len() <= scan_cap(limit),
    decreases ms.len(),
{
    if ms.len() > 0 {
        if ms.last().role != Role::User {
            lemma_goal_scan(ms.drop_last(), acc, limit);
        } else {
            match goal_of(ms.last().content) {
                Some(g) => if !acc.contains(g) {
                    lemma_push_new_distinct(acc, g);
                },
                None => {},
            }
            let acc2 = match goal_of(ms.last().content) {
                Some(g) => if acc.contains(g) {
                    acc
                } else {
                    acc.push(g)
                },
                None => acc,
            };
            if acc2.len() < limit {
                lemma_goal_scan(ms.drop_last(), acc2, limit);
            }
        }
    }
}

/// The goals gathered for the context snapshot are distinct: at most
/// `limit` (one when `limit` is 0) from the conversation, and the new
/// input's goal when it is new.
pub proof fn law_user_goals_distinct_and_capped(ms: Seq<MessageView>, input: Seq<char>, limit: nat)
    ensures
        user_goals(ms, input, limit).no_duplicates(),
        user_goals(ms, input, limit).len() <= scan_cap(limit) + 1,
{
    lemma_goal_scan(ms, Seq::empty(), limit);
    let a = goal_scan(ms, Seq::empty(), limit);
    let b = match goal_of(input) {
        Some(g) => if a.contains(g) {
            a
        } else {
            a.push(g)
        },
        None => a,
    };
    match goal_of(input) {
        Some(g) => if !a.contains(g) {
            lemma_push_new_distinct(a, g);
        },
        None => {},
    }
    lemma_reverse_distinct(b);
}

/// The goals the user stated: from the user's messages, newest first, until
/// `limit` are held; then the goal of the new input when it is new; given
/// oldest first.
pub fn extract_user_goals(context: &Vec<Message>, input: &str, limit: usize) -> (r: Vec<String>)
    ensures
        texts(r@) == user_goals(messages_view(context@), input@, limit as nat),
{
    let ghost ms = messages_view(context@);
    let mut goals: Vec<String> = Vec::new();
    let mut j: usize = context.len();
    let mut done = false;
    proof {
        assert(ms.subrange(0, ms.len() as int) == ms);
        assert(texts(goals@) == Seq::<Seq<char>>::empty());
    }
    while j > 0 && !done
        invariant
            j <= context.len(),
            ms == messages_view(context@),
            !done ==> goal_scan(ms, Seq::empty(), limit as nat) == goal_scan(ms.subrange(0, j as int), texts(goals@), limit as nat),
            done ==> goal_scan(ms, Seq::empty(), limit as nat) == texts(goals@),
        decreases j,
    {
        let ghost part = ms.subrange(0, j as int);
        proof {
            assert(part.last() == context@[j - 1]@);
            assert(part.drop_last() == ms.subrange(0, j - 1));
        }
        let m = &context[j - 1];
        j -= 1;
        if m.role == Role::User {
            match infer_goal_phrase(m.content.as_str()) {
                Some(g) => {
                    if !listed_text(&goals, &g) {
                        let ghost before = goals@;
                        goals.push(g);
                        proof {
                            assert(texts(goals@) == texts(before).push(goals@.last()@));
                        }
                    }
                },
                None => {},
            }
            if goals.len() >= limit {
                done = true;
            }
        }
    }
    proof {
        if !done {
            assert(ms.subrange(0, 0).len() == 0);
        }
    }
    match infer_goal_phrase(input) {
        Some(g) => {
            if !listed_text(&goals, &g) {
                let ghost before = goals@;
                goals.push(g);
                proof {
                    assert(texts(goals@) == texts(before).push(goals@.last()@));
                }
            }
        },
        None => {},
    }
    reversed(goals)
}

/// `<none>` for an empty text.
pub open spec fn or_none(s: Seq<char>) -> Seq<char> {
    if s.len() == 0 {
        "<none>"@
    } else {
        s
    }
}

/// A list joined with a separator, `<none>` when the list is empty.
pub open spec fn list_or_none(v: Seq<Seq<char>>, sep: Seq<char>) -> Seq<char> {
    if v.len() == 0 {
        "<none>"@
    } else {
        joined_with(v, sep)
    }
}

/// The snapshot of the session given to the agent with each request.
pub open spec fn context_snapshot(
    ms: Seq<MessageView>,
    workspace: Option<Seq<char>>,
    open_files: Seq<Seq<char>>,
    input: Seq<char>,
) -> Seq<char> {
    "Runtime context snapshot:"@ + "\n- current_working_directory: "@ + match workspace {
        Some(w) => w,
        None => "<unknown>"@,
    } + "\n- open_files: "@ + list_or_none(open_files, ", "@) + "\n- recent_commands: "@ + list_or_none(
        recent_commands(ms, 5),
        " | "@,
    ) + "\n- previous_summary: "@ + or_none(joined_with(summary_parts(last_n(ms, 3)), " | "@))
        + "\n- inferred_goals: "@ + list_or_none(user_goals(ms, input, 4), " | "@)
}

fn list_or_none_text(v: &Vec<String>, sep: &str) -> (r: String)
    ensures
        r@ == list_or_none(texts(v@), sep@),
{
    proof {
        reveal_strlit("<none>");
    }
    if v.len() == 0 {
        String::from_str("<none>")
    } else {
        join_texts(v, sep)
    }
}

/// A system message that tells the agent where the user works and what
/// happened lately: the working directory (`<unknown>` without a
/// workspace), the open files, the recent commands, a summary of the last
/// three messages and the user's goals. `now` is its time stamp.
pub fn build_smart_context_message(
    context: &Vec<Message>,
    workspace_path: Option<&str>,
    open_files: &Vec<String>,
    input: &str,
    now: i64,
) -> (r: Option<Message>)
    requires
        summary_ok(messages_view(context@), 3),
    ensures
        r matches Some(m) && m.role == Role::System && m.timestamp == now && m.actions@.len() == 0
            && m.content@ == context_snapshot(
            messages_view(context@),
            match workspace_path {
                Some(w) => Some(w@),
                None => None,
            },
            texts(open_files@),
            input@,
        ),
{
    let recent = extract_recent_commands(context, 5);
    let summary = summarize_recent_conversation(context, 3);
    let goals = extract_user_goals(context, input, 4);
    let mut c = String::from_str("Runtime context snapshot:");
    c.append("\n- current_working_directory: ");
    match workspace_path {
        Some(w) => c.append(w),
        None => c.append("<unknown>"),
    }
    c.append("\n- open_files: ");
    let files = list_or_none_text(open_files, ", ");
    c.append(files.as_str());
    c.append("\n- recent_commands: ");
    let rc = list_or_none_text(&recent, " | ");
    c.append(rc.as_str());
    c.append("\n- previous_summary: ");
    if summary.as_str().is_empty() {
        c.append("<none>");
    } else {
        c.append(summary.as_str());
    }
    c.append("\n- inferred_goals: ");
    let g = list_or_none_text(&goals, " | ");
    c.append(g.as_str());
    proof {
        reveal_strlit("<none>");
    }
    Some(Message { role: Role::System, content: c, timestamp: now, actions: Vec::new() })
}


// ---------------------------------------------------------------------------
// Which directory a workspace name stands for
// ---------------------------------------------------------------------------

/// Orders modification times as `Option` does: an unknown time first.
pub open spec fn time_le(a: Option<i64>, b: Option<i64>) -> bool {
    match (a, b) {
        (None, _) => true,
        (Some(_), None) => false,
        (Some(x), Some(y)) => x <= y,
    }
}

/// The workspace modified last (the last listed among those modified
/// last; times as the file system gave them, `None` where it gave none).
pub open spec fn is_latest(ws: Seq<(String, Option<i64>)>, k: int) -> bool {
    &&& 0 <= k < ws.len()
    &&& forall|j: int| 0 <= j < ws.len() ==> time_le(#[trigger] ws[j].1, ws[k].1)
    &&& forall|j: int| k < j < ws.len() ==> !time_le(ws[k].1, #[trigger] ws[j].1)
}

fn time_le_exec(a: Option<i64>, b: Option<i64>) -> (r: bool)
    ensures
        r == time_le(a, b),
{
    match (a, b) {
        (None, _) => true,
        (Some(_), None) => false,
        (Some(x), Some(y)) => x <= y,
    }
}

/// The directory a workspace name stands for: the name itself when it is an
/// existing path, else that name under the workspace root when it exists,
/// else (when there is a workspace manager) the workspace modified last.
/// `direct` and `named` are given only when they exist; `listed` holds the
/// workspaces with their modification times.
pub fn resolve_workspace_choice(
    direct: Option<String>,
    named: Option<String>,
    listed: &Vec<(String, Option<i64>)>,
) -> (r: Option<String>)
    ensures
        match direct {
            Some(d) => r == Some(d),
            None => match named {
                Some(n) => r == Some(n),
                None => match r {
                    Some(p) => exists|k: int| is_latest(listed@, k) && p == listed@[k].0,
                    None => listed.len() == 0,
                },
            },
        },
{
    if direct.is_some() {
        return direct;
    }
    if named.is_some() {
        return named;
    }
    if listed.len() == 0 {
        return None;
    }
    let mut best: usize = 0;
    let mut i: usize = 1;
    while i < listed.len()
        invariant
            1 <= i <= listed.len(),
            best < i,
            forall|j: int| 0 <= j < i ==> time_le(#[trigger] listed@[j].1, listed@[best as int].1),
            forall|j: int| best < j < i ==> !time_le(listed@[best as int].1, #[trigger] listed@[j].1),
        decreases listed.len() - i,
    {
        if time_le_exec(listed[best].1, listed[i].1) {
            best = i;
        }
        i += 1;
    }
    let p = listed[best].0.clone();
    proof {
        assert(is_latest(listed@, best as int));
    }
    Some(p)
}

} // verus!
