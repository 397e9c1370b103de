//! Runtime configuration and its defaults.
use crate::error::MentalOSError;
use crate::text::{has_prefix, opt_text};
use vstd::prelude::*;
use vstd::string::*;

verus! {

/// One configured agent.
#[derive(Debug, Clone)]
pub struct AgentConfig {
    pub name: String,
    pub description: Option<String>,
    /// "openclaw", "ollama", "deepseek", ...
    pub provider: String,
    pub model: Option<String>,
    pub endpoint: Option<String>,
    /// The program of a local agent, such as OpenCode.
    pub executable: Option<String>,
    /// Its command-line arguments.
    pub arguments: Option<Vec<String>>,
}

#[derive(Debug, Clone)]
pub struct AiConfig {
    pub provider: String,
    pub model: String,
    pub fallback_to_ollama: bool,
    pub context_messages: usize,
}

#[derive(Debug, Clone)]
pub struct OpenClawConfig {
    pub endpoint: String,
    pub request_path: String,
    pub transport: String,
    pub token: String,
    pub cli_path: String,
    pub cli_args: Vec<String>,
    pub auto_start: bool,
}

#[derive(Debug, Clone)]
pub struct OllamaConfig {
    pub endpoint: String,
    pub model: String,
}

#[derive(Debug, Clone)]
pub struct PathsConfig {
    pub workspace_dir: String,
}

/// The whole configuration. Agents are kept as (name, agent) pairs.
#[derive(Debug, Clone)]
pub struct Config {
    pub ai: AiConfig,
    pub openclaw: OpenClawConfig,
    pub ollama: OllamaConfig,
    pub paths: PathsConfig,
    pub agents: Vec<(String, AgentConfig)>,
}

pub fn default_provider() -> (s: String)
    ensures
        s@ == "openclaw"@,
{
    String::from_str("openclaw")
}

pub fn default_model() -> (s: String)
    ensures
        s@ == "phi3:mini"@,
{
    String::from_str("phi3:mini")
}

pub fn default_fallback_to_ollama() -> (b: bool)
    ensures
        b,
{
    true
}

pub fn default_context_messages() -> (n: usize)
    ensures
        n == 20,
{
    20
}

pub fn default_openclaw_endpoint() -> (s: String)
    ensures
        s@ == "http://127.0.0.1:18789"@,
{
    String::from_str("http://127.0.0.1:18789")
}

pub fn default_openclaw_request_path() -> (s: String)
    ensures
        s@ == "/agent"@,
{
    String::from_str("/agent")
}

pub fn default_openclaw_transport() -> (s: String)
    ensures
        s@ == "cli"@,
{
    String::from_str("cli")
}

pub fn default_openclaw_cli_path() -> (s: String)
    ensures
        s@ == "openclaw"@,
{
    String::from_str("openclaw")
}

pub fn default_ollama_endpoint() -> (s: String)
    ensures
        s@ == "http://127.0.0.1:11434"@,
{
    String::from_str("http://127.0.0.1:11434")
}

pub fn default_workspace_dir() -> (s: String)
    ensures
        s@ == "~/workspaces"@,
{
    String::from_str("~/workspaces")
}

impl Default for AiConfig {
    fn default() -> (c: Self)
        ensures
            c.provider@ == "openclaw"@,
            c.model@ == "phi3:mini"@,
            c.fallback_to_ollama,
            c.context_messages == 20,
    {
        AiConfig {
            provider: default_provider(),
            model: default_model(),
            fallback_to_ollama: default_fallback_to_ollama(),
            context_messages: default_context_messages(),
        }
    }
}

impl Default for OpenClawConfig {
    fn default() -> (c: Self)
        ensures
            c.endpoint@ == "http://127.0.0.1:18789"@,
            c.request_path@ == "/agent"@,
            c.transport@ == "cli"@,
            c.token@ == Seq::<char>::empty(),
            c.cli_path@ == "openclaw"@,
            c.cli_args@ == Seq::<String>::empty(),
            !c.auto_start,
    {
        OpenClawConfig {
            endpoint: default_openclaw_endpoint(),
            request_path: default_openclaw_request_path(),
            transport: default_openclaw_transport(),
            token: String::new(),
            cli_path: default_openclaw_cli_path(),
            cli_args: Vec::new(),
            auto_start: false,
        }
    }
}

impl Default for OllamaConfig {
    fn default() -> (c: Self)
        ensures
            c.endpoint@ == "http://127.0.0.1:11434"@,
            c.model@ == "phi3:mini"@,
    {
        OllamaConfig { endpoint: default_ollama_endpoint(), model: default_model() }
    }
}

impl Default for PathsConfig {
    fn default() -> (c: Self)
        ensures
            c.workspace_dir@ == "~/workspaces"@,
    {
        PathsConfig { workspace_dir: default_workspace_dir() }
    }
}

impl Default for Config {
    fn default() -> (c: Self)
        ensures
            c.ai.provider@ == "openclaw"@,
            c.ai.model@ == "phi3:mini"@,
            c.ai.fallback_to_ollama,
            c.ai.context_messages == 20,
            c.openclaw.endpoint@ == "http://127.0.0.1:18789"@,
            c.openclaw.request_path@ == "/agent"@,
            c.openclaw.transport@ == "cli"@,
            c.openclaw.token@ == Seq::<char>::empty(),
            c.openclaw.cli_path@ == "openclaw"@,
            c.openclaw.cli_args@ == Seq::<String>::empty(),
            !c.openclaw.auto_start,
            c.ollama.endpoint@ == "http://127.0.0.1:11434"@,
            c.ollama.model@ == "phi3:mini"@,
            c.paths.workspace_dir@ == "~/workspaces"@,
            c.agents@ == Seq::<(String, AgentConfig)>::empty(),
    {
        Config {
            ai: AiConfig::default(),
            openclaw: OpenClawConfig::default(),
            ollama: OllamaConfig::default(),
            paths: PathsConfig::default(),
            agents: Vec::new(),
        }
    }
}

// ---------------------------------------------------------------------------
// Home-directory expansion
// ---------------------------------------------------------------------------

/// The home directory (`directories::BaseDirs::new()` and `home_dir`), as
/// text. It depends on the environment: nothing is stated of it.
#[verifier::external_body]
fn home_dir() -> Option<String> {
    directories::BaseDirs::new().map(|b| b.home_dir().to_string_lossy().to_string())
}

/// `Path::join` of two paths given as text, read back as text.
pub uninterp spec fn joined_path(base: Seq<char>, rest: Seq<char>) -> Seq<char>;

/// Calls `Path::join`; its result is named `joined_path`.
#[verifier::external_body]
pub(crate) fn path_join(base: &str, rest: &str) -> (r: String)
    ensures
        r@ == joined_path(base@, rest@),
{
    std::path::Path::new(base).join(rest).to_string_lossy().to_string()
}

/// A path that names the home directory: `~` alone or starting with `~/`.
pub open spec fn is_home_relative(v: Seq<char>) -> bool {
    v == "~"@ || has_prefix(v, "~/"@)
}

/// The text without every leading `~/` (`trim_start_matches("~/")`).
pub open spec fn strip_home_prefixes(v: Seq<char>) -> Seq<char>
    decreases v.len(),
{
    if has_prefix(v, "~/"@) && v.len() >= 2 {
        strip_home_prefixes(v.subrange(2, v.len() as int))
    } else {
        v
    }
}

/// The expansion of a path with the given home directory: `None` when the
/// path needs a home directory and there is none.
pub open spec fn expansion(v: Seq<char>, home: Option<Seq<char>>) -> Option<Seq<char>> {
    if is_home_relative(v) {
        match home {
            None => None,
            Some(h) => if v == "~"@ {
                Some(h)
            } else {
                Some(joined_path(h, strip_home_prefixes(v)))
            },
        }
    } else {
        Some(v)
    }
}

/// The error of a path that needs a home directory when there is none.
pub open spec fn is_no_home_error(e: MentalOSError) -> bool {
    e matches MentalOSError::ConfigInvalid(m) && m@ == "No home dir"@
}

fn strip_home(v: &str) -> (r: String)
    ensures
        r@ == strip_home_prefixes(v@),
{
    let mut cur: Vec<char> = crate::text::chars_of(v);
    let prefix: Vec<char> = crate::text::chars_of("~/");
    proof {
        reveal_strlit("~/");
    }
    let ghost v0 = v@;
    while cur.len() >= 2 && crate::text::starts_with(&cur, &prefix)
        invariant
            prefix@ == "~/"@,
            strip_home_prefixes(cur@) == strip_home_prefixes(v0),
        decreases cur.len(),
    {
        let mut next: Vec<char> = Vec::new();
        let mut i: usize = 2;
        while i < cur.len()
            invariant
                2 <= i <= cur.len(),
                next@ == cur@.subrange(2, i as int),
            decreases cur.len() - i,
        {
            next.push(cur[i]);
            i += 1;
            proof {
                assert(next@ =~= cur@.subrange(2, i as int));
            }
        }
        cur = next;
    }
    crate::text::string_of(&cur)
}

/// Expands a leading `~` with the given home directory.
pub fn expand_tilde_with(value: &str, home: Option<String>) -> (r: Result<String, MentalOSError>)
    ensures
        match expansion(value@, opt_text(home)) {
            Some(p) => r matches Ok(s) && s@ == p,
            None => r matches Err(e) && is_no_home_error(e),
        },
{
    let v = crate::text::chars_of(value);
    let tilde = crate::text::chars_of("~");
    let prefix = crate::text::chars_of("~/");
    proof {
        reveal_strlit("~");
        reveal_strlit("~/");
    }
    let alone = crate::text::chars_eq(&v, &tilde);
    if alone || crate::text::starts_with(&v, &prefix) {
        match home {
            None => Err(MentalOSError::ConfigInvalid(String::from_str("No home dir"))),
            Some(h) => {
                if alone {
                    Ok(h)
                } else {
                    let rest = strip_home(value);
                    Ok(path_join(h.as_str(), rest.as_str()))
                }
            },
        }
    } else {
        Ok(String::from_str(value))
    }
}

/// Expands a leading `~` with the home directory of the environment.
pub fn expand_tilde(value: &str) -> (r: Result<String, MentalOSError>)
    ensures
        exists|home: Option<Seq<char>>| #[trigger] expands_to(value@, home, r),
        !is_home_relative(value@) ==> (r matches Ok(s) && s@ == value@),
{
    let needs_home = {
        let v = crate::text::chars_of(value);
        let tilde = crate::text::chars_of("~");
        let prefix = crate::text::chars_of("~/");
        proof {
            reveal_strlit("~");
            reveal_strlit("~/");
        }
        crate::text::chars_eq(&v, &tilde) || crate::text::starts_with(&v, &prefix)
    };
    let home = if needs_home {
        home_dir()
    } else {
        None
    };
    let r = expand_tilde_with(value, home);
    proof {
        let h = opt_text(home);
        assert(expands_to(value@, h, r));
    }
    r
}

/// Same as `expand_tilde`: paths are carried as text.
pub fn expand_tilde_to_string(value: &str) -> (r: Result<String, MentalOSError>)
    ensures
        exists|home: Option<Seq<char>>| #[trigger] expands_to(value@, home, r),
        !is_home_relative(value@) ==> (r matches Ok(s) && s@ == value@),
{
    expand_tilde(value)
}

impl Config {
    /// The workspace directory, with a leading `~` expanded.
    pub fn workspace_dir(&self) -> (r: Result<String, MentalOSError>)
        ensures
            exists|home: Option<Seq<char>>| #[trigger] expands_to(self.paths.workspace_dir@, home, r),
            !is_home_relative(self.paths.workspace_dir@) ==> (r matches Ok(s) && s@
                == self.paths.workspace_dir@),
    {
        expand_tilde(self.paths.workspace_dir.as_str())
    }

    /// Expands `~` in the workspace directory and, when it is set, in the
    /// OpenClaw command path. The first failure stops it.
    pub fn normalize_paths(&mut self) -> (r: Result<(), MentalOSError>)
        ensures
            exists|h1: Option<Seq<char>>, h2: Option<Seq<char>>|
                #[trigger] normalized(*old(self), *final(self), r, h1, h2),
    {
        let ghost pre = *self;
        let w = expand_tilde_to_string(self.paths.workspace_dir.as_str());
        let ghost h1 = choose|h: Option<Seq<char>>| expands_to(pre.paths.workspace_dir@, h, w);
        match w {
            Err(e) => {
                proof {
                    assert(normalized(pre, *self, Err(e), h1, None));
                }
                return Err(e);
            },
            Ok(w) => {
                self.paths.workspace_dir = w;
            },
        }
        if !self.openclaw.cli_path.as_str().is_empty() {
            let c = expand_tilde_to_string(self.openclaw.cli_path.as_str());
            let ghost h2 = choose|h: Option<Seq<char>>| expands_to(pre.openclaw.cli_path@, h, c);
            match c {
                Err(e) => {
                    proof {
                        assert(normalized(pre, *self, Err(e), h1, h2));
                    }
                    return Err(e);
                },
                Ok(c) => {
                    self.openclaw.cli_path = c;
                    proof {
                        assert(normalized(pre, *self, Ok(()), h1, h2));
                    }
                },
            }
        } else {
            proof {
                assert(normalized(pre, *self, Ok(()), h1, None));
            }
        }
        Ok(())
    }
}

/// `r` is what expanding `v` with the home directory `home` gives.
pub open spec fn expands_to(v: Seq<char>, home: Option<Seq<char>>, r: Result<String, MentalOSError>) -> bool {
    match expansion(v, home) {
        Some(p) => r matches Ok(s) && s@ == p,
        None => r matches Err(e) && is_no_home_error(e),
    }
}

/// `new` is `old` with its paths normalized, the workspace directory with home
/// directory `h1` and the command path with `h2`; `r` is the outcome.
pub open spec fn normalized(
    old: Config,
    new: Config,
    r: Result<(), MentalOSError>,
    h1: Option<Seq<char>>,
    h2: Option<Seq<char>>,
) -> bool {
    &&& new.ai == old.ai
    &&& new.ollama == old.ollama
    &&& new.agents == old.agents
    &&& new.openclaw.endpoint == old.openclaw.endpoint
    &&& new.openclaw.request_path == old.openclaw.request_path
    &&& new.openclaw.transport == old.openclaw.transport
    &&& new.openclaw.token == old.openclaw.token
    &&& new.openclaw.cli_args == old.openclaw.cli_args
    &&& new.openclaw.auto_start == old.openclaw.auto_start
    &&& match expansion(old.paths.workspace_dir@, h1) {
        None => r matches Err(e) && is_no_home_error(e) && new.paths == old.paths
            && new.openclaw.cli_path == old.openclaw.cli_path,
        Some(w) => new.paths.workspace_dir@ == w && if old.openclaw.cli_path@.len() == 0 {
            r is Ok && new.openclaw.cli_path == old.openclaw.cli_path
        } else {
            match expansion(old.openclaw.cli_path@, h2) {
                None => r matches Err(e) && is_no_home_error(e) && new.openclaw.cli_path
                    == old.openclaw.cli_path,
                Some(c) => r is Ok && new.openclaw.cli_path@ == c,
            }
        },
    }
}


// ---------------------------------------------------------------------------
// The setup wizard
// ---------------------------------------------------------------------------

/// What the setup wizard's form holds.
#[derive(Debug, Clone)]
pub struct WizardForm {
    /// The chosen entry of the provider list: OpenClaw, Ollama, DeepSeek, Zen.
    pub provider_index: usize,
    pub openclaw_endpoint: String,
    /// Whether the HTTP transport switch is on.
    pub openclaw_http: bool,
    pub openclaw_token: String,
    pub openclaw_auto_start: bool,
    pub openclaw_cli_path: String,
    pub ollama_endpoint: String,
    pub ollama_model: String,
    pub workspace_dir: String,
}

/// The provider the wizard's list entry names (OpenClaw for any other entry).
pub open spec fn wizard_provider(i: usize) -> Seq<char> {
    if i < 4 {
        crate::providers::provider_names()[i as int]
    } else {
        "openclaw"@
    }
}

/// The configuration the wizard saves: the defaults, with the chosen
/// provider, that provider's settings from the form (OpenClaw's or
/// Ollama's; the cloud providers keep none here) and the workspace
/// directory.
pub fn wizard_config(form: WizardForm) -> (c: Config)
    ensures
        c.ai.provider@ == wizard_provider(form.provider_index),
        c.ai.model@ == "phi3:mini"@,
        c.ai.fallback_to_ollama,
        c.ai.context_messages == 20,
        c.paths.workspace_dir@ == form.workspace_dir@,
        c.agents@.len() == 0,
        c.openclaw.request_path@ == "/agent"@,
        c.openclaw.cli_args@.len() == 0,
        wizard_provider(form.provider_index) == "openclaw"@ ==> {
            &&& c.openclaw.endpoint@ == form.openclaw_endpoint@
            &&& c.openclaw.transport@ == (if form.openclaw_http {
                "http"@
            } else {
                "cli"@
            })
            &&& c.openclaw.token@ == form.openclaw_token@
            &&& c.openclaw.auto_start == form.openclaw_auto_start
            &&& c.openclaw.cli_path@ == form.openclaw_cli_path@
            &&& c.ollama.endpoint@ == "http://127.0.0.1:11434"@
            &&& c.ollama.model@ == "phi3:mini"@
        },
        wizard_provider(form.provider_index) != "openclaw"@ ==> {
            &&& c.openclaw.endpoint@ == "http://127.0.0.1:18789"@
            &&& c.openclaw.transport@ == "cli"@
            &&& c.openclaw.token@.len() == 0
            &&& !c.openclaw.auto_start
            &&& c.openclaw.cli_path@ == "openclaw"@
        },
        wizard_provider(form.provider_index) == "ollama"@ ==> {
            &&& c.ollama.endpoint@ == form.ollama_endpoint@
            &&& c.ollama.model@ == form.ollama_model@
        },
        wizard_provider(form.provider_index) != "ollama"@ && wizard_provider(form.provider_index) != "openclaw"@ ==> {
            &&& c.ollama.endpoint@ == "http://127.0.0.1:11434"@
            &&& c.ollama.model@ == "phi3:mini"@
        },
{
    let mut config = Config::default();
    let ids = crate::providers::supported_providers();
    let provider: &str = if form.provider_index < ids.len() {
        ids[form.provider_index]
    } else {
        "openclaw"
    };
    proof {
        reveal_strlit("openclaw");
        reveal_strlit("ollama");
        reveal_strlit("deepseek");
        reveal_strlit("zen");
        reveal_strlit("http");
        reveal_strlit("cli");
        assert(provider@ == wizard_provider(form.provider_index));
    }
    config.ai.provider = String::from_str(provider);
    if crate::text::str_eq(provider, "openclaw") {
        config.openclaw.endpoint = form.openclaw_endpoint;
        config.openclaw.transport = if form.openclaw_http {
            String::from_str("http")
        } else {
            String::from_str("cli")
        };
        config.openclaw.token = form.openclaw_token;
        config.openclaw.auto_start = form.openclaw_auto_start;
        config.openclaw.cli_path = form.openclaw_cli_path;
    } else if crate::text::str_eq(provider, "ollama") {
        config.ollama.endpoint = form.ollama_endpoint;
        config.ollama.model = form.ollama_model;
    }
    config.paths.workspace_dir = form.workspace_dir;
    config
}

} // verus!
