//! The OpenClaw provider and its gateway launcher: which transport and agent
//! are in use, the command line and URLs of a request, what a reply says,
//! and the gateway's port and command line.
use crate::assoc::{assoc_keys, assoc_map, assoc_insert, distinct_keys, sorted_keys, strictly_sorted};
use crate::agent_manager::first_match;
use crate::config::{AgentConfig, Config};
use crate::error::MentalOSError;
use crate::providers::{join_url, joined_url, Transport};
use crate::text::{concat2, eq_ignore_case, opt_text, str_eq, str_eq_ignore_case, trim_str, trimmed};
use vstd::prelude::*;
use vstd::string::*;

verus! {

// ---------------------------------------------------------------------------
// Endpoints
// ---------------------------------------------------------------------------

/// What the provider needs of a parsed URL: its host, the port it names and
/// that port or the scheme's known default.
#[derive(Debug, Clone)]
pub struct UrlParts {
    pub host: Option<String>,
    pub port: Option<u16>,
    pub known_port: Option<u16>,
}

/// What `url::Url::parse` (through `reqwest::Url`) makes of a text: its host,
/// explicit port and port-or-known-default, or the text of its error.
pub uninterp spec fn url_parts(text: Seq<char>) -> Result<(Option<Seq<char>>, Option<u16>, Option<u16>), Seq<char>>;

/// Calls `reqwest::Url::parse` and reads `host_str`, `port` and
/// `port_or_known_default`; the result is named `url_parts`. The source
/// shows that an explicit port is also the port-or-known-default.
#[verifier::external_body]
fn parse_url(text: &str) -> (r: Result<UrlParts, String>)
    ensures
        match r {
            Ok(p) => url_parts(text@) == Ok::<(Option<Seq<char>>, Option<u16>, Option<u16>), Seq<char>>(
                (opt_text(p.host), p.port, p.known_port),
            ) && (p.port is Some ==> p.known_port == p.port),
            Err(e) => url_parts(text@) == Err::<(Option<Seq<char>>, Option<u16>, Option<u16>), Seq<char>>(e@),
        },
{
    match reqwest::Url::parse(text) {
        Ok(u) => Ok(UrlParts { host: u.host_str().map(String::from), port: u.port(), known_port: u.port_or_known_default() }),
        Err(e) => Err(e.to_string()),
    }
}

/// The port of the gateway when the endpoint names none the URL knows.
pub const DEFAULT_GATEWAY_PORT: u16 = 18789;

/// The error of an endpoint that is no URL.
pub open spec fn invalid_endpoint(e: MentalOSError, reason: Seq<char>) -> bool {
    e matches MentalOSError::ConfigInvalid(m) && m@ == "Invalid OpenClaw endpoint: "@ + reason
}

/// The port to reach, given what the endpoint parsed to: the URL's port or
/// its scheme's, else the gateway's default port.
pub fn port_of_parsed(parsed: Result<UrlParts, String>) -> (r: Result<u16, MentalOSError>)
    ensures
        match parsed {
            Ok(p) => r == Ok::<u16, MentalOSError>(
                match p.known_port {
                    Some(x) => x,
                    None => 18789u16,
                },
            ),
            Err(e) => r matches Err(x) && invalid_endpoint(x, e@),
        },
{
    match parsed {
        Ok(p) => Ok(
            match p.known_port {
                Some(x) => x,
                None => DEFAULT_GATEWAY_PORT,
            },
        ),
        Err(e) => Err(MentalOSError::ConfigInvalid(concat2("Invalid OpenClaw endpoint: ", e.as_str()))),
    }
}

/// The port of an endpoint URL.
pub fn endpoint_port(endpoint: &str) -> (r: Result<u16, MentalOSError>)
    ensures
        match url_parts(endpoint@) {
            Ok((_, _, known)) => r == Ok::<u16, MentalOSError>(
                match known {
                    Some(x) => x,
                    None => 18789u16,
                },
            ),
            Err(e) => r matches Err(x) && invalid_endpoint(x, e),
        },
{
    port_of_parsed(parse_url(endpoint))
}

/// The host and port to connect to, given what the endpoint parsed to.
pub fn host_port_of_parsed(parsed: Result<UrlParts, String>) -> (r: Result<(String, u16), MentalOSError>)
    ensures
        match parsed {
            Ok(p) => match p.host {
                Some(h) => r matches Ok((rh, rp)) && rh@ == h@ && rp == match p.known_port {
                    Some(x) => x,
                    None => 18789u16,
                },
                None => r matches Err(MentalOSError::ConfigInvalid(m)) && m@ == "OpenClaw endpoint has no host"@,
            },
            Err(e) => r matches Err(x) && invalid_endpoint(x, e@),
        },
{
    match parsed {
        Ok(p) => match p.host {
            Some(h) => Ok(
                (
                    h,
                    match p.known_port {
                        Some(x) => x,
                        None => DEFAULT_GATEWAY_PORT,
                    },
                ),
            ),
            None => Err(MentalOSError::ConfigInvalid(String::from_str("OpenClaw endpoint has no host"))),
        },
        Err(e) => Err(MentalOSError::ConfigInvalid(concat2("Invalid OpenClaw endpoint: ", e.as_str()))),
    }
}

/// The host and port of an endpoint URL, to be resolved and connected to.
pub fn endpoint_host_port(endpoint: &str) -> (r: Result<(String, u16), MentalOSError>)
    ensures
        match url_parts(endpoint@) {
            Ok((host, _, known)) => match host {
                Some(h) => r matches Ok((rh, rp)) && rh@ == h && rp == match known {
                    Some(x) => x,
                    None => 18789u16,
                },
                None => r matches Err(MentalOSError::ConfigInvalid(m)) && m@ == "OpenClaw endpoint has no host"@,
            },
            Err(e) => r matches Err(x) && invalid_endpoint(x, e),
        },
{
    host_port_of_parsed(parse_url(endpoint))
}

// ---------------------------------------------------------------------------
// The provider
// ---------------------------------------------------------------------------

/// What the provider reads of a configured agent.
#[derive(Debug, Clone)]
pub struct AgentTarget {
    pub name: String,
    pub provider: String,
    pub model: Option<String>,
    pub endpoint: Option<String>,
}

pub open spec fn target_of(a: AgentConfig) -> AgentTarget {
    AgentTarget { name: a.name, provider: a.provider, model: a.model, endpoint: a.endpoint }
}

pub open spec fn targets(v: Seq<(String, AgentConfig)>) -> Seq<(String, AgentTarget)> {
    v.map_values(|e: (String, AgentConfig)| (e.0, target_of(e.1)))
}

fn copy_opt(o: &Option<String>) -> (r: Option<String>)
    ensures
        r == *o,
{
    match o {
        Some(s) => Some(s.clone()),
        None => None,
    }
}

fn copy_strings(v: &Vec<String>) -> (r: Vec<String>)
    ensures
        r@ == v@,
{
    let mut r: Vec<String> = Vec::new();
    let mut i: usize = 0;
    while i < v.len()
        invariant
            i <= v.len(),
            r@ == v@.subrange(0, i as int),
        decreases v.len() - i,
    {
        r.push(v[i].clone());
        i += 1;
        proof {
            assert(r@ =~= v@.subrange(0, i as int));
        }
    }
    proof {
        assert(v@.subrange(0, v.len() as int) =~= v@);
    }
    r
}

/// The OpenClaw provider's settings (the HTTP client lives with the caller).
pub struct OpenClawProvider {
    transport: Transport,
    endpoint: String,
    request_path: String,
    token: Option<String>,
    cli_path: String,
    cli_args: Vec<String>,
    auto_start: bool,
    ollama_endpoint: String,
    ollama_model: String,
    fallback_to_ollama: bool,
    provider: String,
    agents: Vec<(String, AgentTarget)>,
}

pub struct OpenClawView {
    pub transport: Transport,
    pub endpoint: Seq<char>,
    pub request_path: Seq<char>,
    pub token: Option<Seq<char>>,
    pub cli_path: Seq<char>,
    pub cli_args: Seq<String>,
    pub auto_start: bool,
    pub ollama_endpoint: Seq<char>,
    pub ollama_model: Seq<char>,
    pub fallback_to_ollama: bool,
    pub provider: Seq<char>,
    /// The agents in the order their names were first configured.
    pub agents: Seq<(String, AgentTarget)>,
}

impl View for OpenClawProvider {
    type V = OpenClawView;

    closed spec fn view(&self) -> OpenClawView {
        OpenClawView {
            transport: self.transport,
            endpoint: self.endpoint@,
            request_path: self.request_path@,
            token: opt_text(self.token),
            cli_path: self.cli_path@,
            cli_args: self.cli_args@,
            auto_start: self.auto_start,
            ollama_endpoint: self.ollama_endpoint@,
            ollama_model: self.ollama_model@,
            fallback_to_ollama: self.fallback_to_ollama,
            provider: self.provider@,
            agents: self.agents@,
        }
    }
}

/// How a request is sent.
#[derive(Debug, Clone, Copy, PartialEq, Eq, Structural)]
pub enum SendRoute {
    /// Straight to Ollama (an Ollama agent is selected).
    Ollama,
    /// Through the `openclaw` program.
    Cli,
    /// Through the gateway's HTTP API.
    Http,
}

/// How the provider's health is checked.
#[derive(Debug, Clone, PartialEq, Eq)]
pub enum HealthProbe {
    /// Connect to this endpoint.
    Connect(String),
    /// Look this program up on the search path.
    Which(String),
}

impl OpenClawProvider {
    /// The agents by name.
    pub open spec fn agent_map(&self) -> Map<Seq<char>, AgentTarget> {
        assoc_map(self@.agents)
    }

    /// Settings taken from the configuration: HTTP transport when it says
    /// "http", CLI otherwise; the token trimmed, or none when blank; the
    /// configured agents (a later entry for a name wins).
    pub fn from_config(config: &Config) -> (r: Result<OpenClawProvider, MentalOSError>)
        ensures
            r matches Ok(p) && {
                &&& p@.transport == (if config.openclaw.transport@ == "http"@ {
                    Transport::Http
                } else {
                    Transport::Cli
                })
                &&& p@.token == (if trimmed(config.openclaw.token@).len() == 0 {
                    None
                } else {
                    Some(trimmed(config.openclaw.token@))
                })
                &&& p@.endpoint == config.openclaw.endpoint@
                &&& p@.request_path == config.openclaw.request_path@
                &&& p@.cli_path == config.openclaw.cli_path@
                &&& p@.cli_args == config.openclaw.cli_args@
                &&& p@.auto_start == config.openclaw.auto_start
                &&& p@.ollama_endpoint == config.ollama.endpoint@
                &&& p@.ollama_model == config.ollama.model@
                &&& p@.fallback_to_ollama == config.ai.fallback_to_ollama
                &&& p@.provider == config.ai.provider@
                &&& distinct_keys(p@.agents)
                &&& p.agent_map() == assoc_map(targets(config.agents@))
            },
    {
        let transport = if str_eq(config.openclaw.transport.as_str(), "http") {
            Transport::Http
        } else {
            Transport::Cli
        };
        proof {
            reveal_strlit("http");
        }
        let t = trim_str(config.openclaw.token.as_str());
        let token = if t.as_str().is_empty() {
            None
        } else {
            Some(t)
        };
        let mut agents: Vec<(String, AgentTarget)> = Vec::new();
        let mut i: usize = 0;
        let ghost all = targets(config.agents@);
        proof {
            assert(all.subrange(0, 0) =~= Seq::<(String, AgentTarget)>::empty());
        }
        while i < config.agents.len()
            invariant
                i <= config.agents.len(),
                all == targets(config.agents@),
                distinct_keys(agents@),
                assoc_map(agents@) == assoc_map(all.subrange(0, i as int)),
            decreases config.agents.len() - i,
        {
            let a = &config.agents[i].1;
            let target = AgentTarget {
                name: a.name.clone(),
                provider: a.provider.clone(),
                model: copy_opt(&a.model),
                endpoint: copy_opt(&a.endpoint),
            };
            let key = config.agents[i].0.clone();
            proof {
                assert(target == target_of(*a));
                let s = all.subrange(0, i + 1);
                assert(s.drop_last() =~= all.subrange(0, i as int));
                assert(s.last() == all[i as int]);
            }
            assoc_insert(&mut agents, key, target);
            i += 1;
        }
        proof {
            assert(all.subrange(0, config.agents.len() as int) =~= all);
        }
        Ok(
            OpenClawProvider {
                transport,
                endpoint: config.openclaw.endpoint.clone(),
                request_path: config.openclaw.request_path.clone(),
                token,
                cli_path: config.openclaw.cli_path.clone(),
                cli_args: copy_strings(&config.openclaw.cli_args),
                auto_start: config.openclaw.auto_start,
                ollama_endpoint: config.ollama.endpoint.clone(),
                ollama_model: config.ollama.model.clone(),
                fallback_to_ollama: config.ai.fallback_to_ollama,
                provider: config.ai.provider.clone(),
                agents,
            },
        )
    }

    /// The names of the agents, sorted.
    pub fn list_agents(&self) -> (names: Vec<String>)
        requires
            distinct_keys(self@.agents),
        ensures
            names.len() == self@.agents.len(),
            strictly_sorted(names@.map_values(|s: String| s@)),
            forall|x: Seq<char>|
                #[trigger] self.agent_map().dom().contains(x) <==> exists|i: int| 0 <= i < names.len() && names@[i]@ == x,
    {
        sorted_keys(&self.agents)
    }

    /// The provider in use.
    pub fn get_current_provider(&self) -> (s: String)
        ensures
            s@ == self@.provider,
    {
        self.provider.clone()
    }

    /// Whether the provider passes conversation context on (it always does:
    /// over HTTP in the request, to the program on its standard input).
    pub fn supports_context(&self) -> (b: bool)
        ensures
            b,
    {
        true
    }

    /// The provider's name.
    pub fn name(&self) -> (s: &'static str)
        ensures
            s@ == "openclaw"@,
    {
        proof {
            reveal_strlit("openclaw");
        }
        "openclaw"
    }

    /// Selects the first agent whose name equals `name` up to ASCII case: its
    /// provider becomes the one in use, its model the Ollama model, and its
    /// endpoint the Ollama endpoint (for an Ollama agent) or the gateway's.
    pub fn switch_agent(&mut self, name: &str) -> (r: Result<String, MentalOSError>)
        ensures
            match first_match(assoc_keys(old(self)@.agents), name@) {
                None => final(self)@ == old(self)@ && (r matches Err(MentalOSError::Other(m))
                    && m@ == "Agent '"@ + name@ + "' not found"@),
                Some(i) => {
                    let a = old(self)@.agents[i].1;
                    &&& r matches Ok(m) && m@ == "Switched to agent: "@ + a.name@
                    &&& final(self)@.provider == a.provider@
                    &&& final(self)@.ollama_model == match a.model {
                        Some(m) => m@,
                        None => old(self)@.ollama_model,
                    }
                    &&& final(self)@.ollama_endpoint == match a.endpoint {
                        Some(e) => if a.provider@ == "ollama"@ {
                            e@
                        } else {
                            old(self)@.ollama_endpoint
                        },
                        None => old(self)@.ollama_endpoint,
                    }
                    &&& final(self)@.endpoint == match a.endpoint {
                        Some(e) => if a.provider@ == "ollama"@ {
                            old(self)@.endpoint
                        } else {
                            e@
                        },
                        None => old(self)@.endpoint,
                    }
                    &&& final(self)@.agents == old(self)@.agents
                    &&& final(self)@.transport == old(self)@.transport
                    &&& final(self)@.token == old(self)@.token
                    &&& final(self)@.request_path == old(self)@.request_path
                    &&& final(self)@.cli_path == old(self)@.cli_path
                    &&& final(self)@.cli_args == old(self)@.cli_args
                    &&& final(self)@.auto_start == old(self)@.auto_start
                    &&& final(self)@.fallback_to_ollama == old(self)@.fallback_to_ollama
                },
            },
    {
        let mut i: usize = 0;
        while i < self.agents.len()
            invariant
                i <= self.agents.len(),
                *self == *old(self),
                first_match(assoc_keys(self.agents@).subrange(0, i as int), name@) is None,
            decreases self.agents.len() - i,
        {
            let hit = str_eq_ignore_case(self.agents[i].0.as_str(), name);
            proof {
                let ks = assoc_keys(self.agents@).subrange(0, i + 1);
                assert(ks.drop_last() =~= assoc_keys(self.agents@).subrange(0, i as int));
            }
            if hit {
                proof {
                    lemma_first_match_at(assoc_keys(self.agents@), name@, i + 1);
                }
                let a = AgentTarget {
                    name: self.agents[i].1.name.clone(),
                    provider: self.agents[i].1.provider.clone(),
                    model: copy_opt(&self.agents[i].1.model),
                    endpoint: copy_opt(&self.agents[i].1.endpoint),
                };
                self.provider = a.provider.clone();
                match a.model {
                    Some(m) => {
                        self.ollama_model = m;
                    },
                    None => {},
                }
                let is_ollama = str_eq(self.provider.as_str(), "ollama");
                proof {
                    reveal_strlit("ollama");
                }
                match a.endpoint {
                    Some(e) => {
                        if is_ollama {
                            self.ollama_endpoint = e;
                        } else {
                            self.endpoint = e;
                        }
                    },
                    None => {},
                }
                return Ok(concat2("Switched to agent: ", a.name.as_str()));
            }
            i += 1;
        }
        proof {
            assert(assoc_keys(self.agents@).subrange(0, i as int) =~= assoc_keys(self.agents@));
        }
        let mut msg = String::from_str("Agent '");
        msg.append(name);
        msg.append("' not found");
        Err(MentalOSError::Other(msg))
    }

    /// How a request goes out: straight to Ollama when an Ollama agent is
    /// selected, otherwise by the configured transport.
    pub fn route(&self) -> (r: SendRoute)
        ensures
            r == (if self@.provider == "ollama"@ {
                SendRoute::Ollama
            } else {
                match self@.transport {
                    Transport::Cli => SendRoute::Cli,
                    Transport::Http => SendRoute::Http,
                }
            }),
    {
        proof {
            reveal_strlit("ollama");
        }
        if str_eq(self.provider.as_str(), "ollama") {
            SendRoute::Ollama
        } else {
            match self.transport {
                Transport::Cli => SendRoute::Cli,
                Transport::Http => SendRoute::Http,
            }
        }
    }

    /// Whether a failed OpenClaw request is retried with Ollama.
    pub fn falls_back_to_ollama(&self) -> (b: bool)
        ensures
            b == self@.fallback_to_ollama,
    {
        self.fallback_to_ollama
    }

    /// Whether the gateway is started when an HTTP request fails.
    pub fn auto_starts(&self) -> (b: bool)
        ensures
            b == self@.auto_start,
    {
        self.auto_start
    }

    /// The program that the CLI transport runs.
    pub fn cli_program(&self) -> (s: String)
        ensures
            s@ == self@.cli_path,
    {
        self.cli_path.clone()
    }

    /// The arguments of the CLI transport: the configured ones (or `agent`),
    /// then `--message` and the message, then `--context-stdin` when context
    /// is passed on standard input.
    pub fn cli_arguments(&self, message: &str, with_context: bool) -> (r: Vec<String>)
        ensures
            r@.map_values(|s: String| s@) == (if self@.cli_args.len() > 0 {
                self@.cli_args.map_values(|s: String| s@)
            } else {
                seq!["agent"@]
            }) + seq!["--message"@, message@] + (if with_context {
                seq!["--context-stdin"@]
            } else {
                Seq::empty()
            }),
    {
        let mut r: Vec<String> = if self.cli_args.len() > 0 {
            copy_strings(&self.cli_args)
        } else {
            let mut v: Vec<String> = Vec::new();
            v.push(String::from_str("agent"));
            v
        };
        r.push(String::from_str("--message"));
        r.push(String::from_str(message));
        if with_context {
            r.push(String::from_str("--context-stdin"));
        }
        proof {
            reveal_strlit("agent");
            reveal_strlit("--message");
            reveal_strlit("--context-stdin");
            let head = if self@.cli_args.len() > 0 {
                self@.cli_args.map_values(|s: String| s@)
            } else {
                seq!["agent"@]
            };
            let want = head + seq!["--message"@, message@] + (if with_context {
                seq!["--context-stdin"@]
            } else {
                Seq::empty()
            });
            assert(r@.map_values(|s: String| s@) =~= want);
        }
        r
    }

    /// The URL of the gateway's request path.
    pub fn http_url(&self) -> (s: String)
        ensures
            s@ == joined_url(self@.endpoint, self@.request_path),
    {
        join_url(self.endpoint.as_str(), self.request_path.as_str())
    }

    /// The URL of Ollama's generate call.
    pub fn ollama_generate_url(&self) -> (s: String)
        ensures
            s@ == joined_url(self@.ollama_endpoint, "/api/generate"@),
    {
        join_url(self.ollama_endpoint.as_str(), "/api/generate")
    }

    /// The model that an Ollama request names.
    pub fn ollama_model(&self) -> (s: String)
        ensures
            s@ == self@.ollama_model,
    {
        self.ollama_model.clone()
    }

    /// The value of the `Authorization` header, when there is a token.
    pub fn authorization(&self) -> (r: Option<String>)
        ensures
            match self@.token {
                Some(t) => r matches Some(h) && h@ == "Bearer "@ + t,
                None => r is None,
            },
    {
        match &self.token {
            Some(t) => Some(concat2("Bearer ", t.as_str())),
            None => None,
        }
    }

    /// How the provider's health is checked: a connection to the gateway over
    /// HTTP, a search-path lookup of the program over the CLI.
    pub fn health_probe(&self) -> (r: HealthProbe)
        ensures
            match self@.transport {
                Transport::Http => r matches HealthProbe::Connect(e) && e@ == self@.endpoint,
                Transport::Cli => r matches HealthProbe::Which(p) && p@ == self@.cli_path,
            },
    {
        match self.transport {
            Transport::Http => HealthProbe::Connect(self.endpoint.clone()),
            Transport::Cli => HealthProbe::Which(self.cli_path.clone()),
        }
    }

    /// The port the gateway is started on: the one the endpoint names, else
    /// the gateway's default; an error when the endpoint is no URL.
    pub fn gateway_port(&self) -> (r: Result<u16, MentalOSError>)
        ensures
            match url_parts(self@.endpoint) {
                Ok((_, port, _)) => r == Ok::<u16, MentalOSError>(
                    match port {
                        Some(x) => x,
                        None => 18789u16,
                    },
                ),
                Err(e) => r matches Err(MentalOSError::OpenClawUnavailable(m)) && m@ == "Invalid endpoint: "@ + e,
            },
    {
        match parse_url(self.endpoint.as_str()) {
            Ok(p) => Ok(
                match p.port {
                    Some(x) => x,
                    None => DEFAULT_GATEWAY_PORT,
                },
            ),
            Err(e) => Err(MentalOSError::OpenClawUnavailable(concat2("Invalid endpoint: ", e.as_str()))),
        }
    }
}

proof fn lemma_first_match_at(keys: Seq<Seq<char>>, name: Seq<char>, n: int)
    requires
        0 < n <= keys.len(),
        first_match(keys.subrange(0, n - 1), name) is None,
        eq_ignore_case(keys[n - 1], name),
    ensures
        first_match(keys, name) == Some(n - 1),
    decreases keys.len(),
{
    if n < keys.len() {
        assert(keys.drop_last().subrange(0, n - 1) =~= keys.subrange(0, n - 1));
        lemma_first_match_at(keys.drop_last(), name, n);
    } else {
        assert(keys.subrange(0, n - 1) =~= keys.drop_last());
    }
}

// ---------------------------------------------------------------------------
// Replies
// ---------------------------------------------------------------------------

/// The text fields a gateway reply may carry.
#[derive(Debug, Clone)]
pub struct OpenClawReply {
    pub message: Option<String>,
    pub response: Option<String>,
    pub output: Option<String>,
    pub content: Option<String>,
}

/// What a reply says: the whole text when it is a JSON object with
/// `commands` (the router reads those), else its first text field among
/// `message`, `response`, `output`, `content`, else the whole text.
pub open spec fn reply_of(text: Seq<char>, has_commands: bool, decoded: Option<OpenClawReply>) -> Seq<char> {
    if has_commands {
        text
    } else {
        match decoded {
            Some(d) => match d.message {
                Some(m) => m@,
                None => match d.response {
                    Some(m) => m@,
                    None => match d.output {
                        Some(m) => m@,
                        None => match d.content {
                            Some(m) => m@,
                            None => text,
                        },
                    },
                },
            },
            None => text,
        }
    }
}

/// Reads a gateway reply, given whether its text is a JSON value with a
/// `commands` key and what it decoded to.
pub fn reply_from(text: String, has_commands: bool, decoded: Option<OpenClawReply>) -> (r: String)
    ensures
        r@ == reply_of(text@, has_commands, decoded),
{
    if has_commands {
        return text;
    }
    match decoded {
        Some(d) => match d.message {
            Some(m) => m,
            None => match d.response {
                Some(m) => m,
                None => match d.output {
                    Some(m) => m,
                    None => match d.content {
                        Some(m) => m,
                        None => text,
                    },
                },
            },
        },
        None => text,
    }
}

/// Whether a text parses as a JSON value that has the given key
/// (`serde_json::from_str::<serde_json::Value>` and `Value::get`).
pub uninterp spec fn json_has_key(text: Seq<char>, key: Seq<char>) -> bool;

/// Calls `serde_json::from_str::<Value>` and `Value::get`; the result is named
/// `json_has_key`.
#[verifier::external_body]
fn json_value_has_key(text: &str, key: &str) -> (b: bool)
    ensures
        b == json_has_key(text@, key@),
{
    match serde_json::from_str::<serde_json::Value>(text) {
        Ok(v) => v.get(key).is_some(),
        Err(_) => false,
    }
}

/// Reads a gateway reply; see `reply_of`.
pub fn reply_text(text: String, decoded: Option<OpenClawReply>) -> (r: String)
    ensures
        r@ == reply_of(text@, json_has_key(text@, "commands"@), decoded),
{
    let has = json_value_has_key(text.as_str(), "commands");
    proof {
        reveal_strlit("commands");
    }
    reply_from(text, has, decoded)
}

// ---------------------------------------------------------------------------
// The gateway launcher
// ---------------------------------------------------------------------------

/// Health checks made before giving up on the gateway.
pub const DEFAULT_HEALTH_CHECK_ATTEMPTS: u32 = 10;

/// Starts and watches the gateway when the configuration asks for it.
pub struct OpenClawLauncher {
    enabled: bool,
    endpoint: String,
    cli_path: String,
    health_check_attempts: u32,
}

impl OpenClawLauncher {
    pub closed spec fn spec_enabled(&self) -> bool {
        self.enabled
    }

    pub closed spec fn spec_endpoint(&self) -> Seq<char> {
        self.endpoint@
    }

    pub closed spec fn spec_cli_path(&self) -> Seq<char> {
        self.cli_path@
    }

    pub closed spec fn spec_attempts(&self) -> u32 {
        self.health_check_attempts
    }

    /// Enabled when auto-start is on and the transport is HTTP (in any ASCII
    /// case); ten health checks.
    pub fn from_config(config: &Config) -> (l: Self)
        ensures
            l.spec_enabled() == (config.openclaw.auto_start && eq_ignore_case(config.openclaw.transport@, "http"@)),
            l.spec_endpoint() == config.openclaw.endpoint@,
            l.spec_cli_path() == config.openclaw.cli_path@,
            l.spec_attempts() == 10,
    {
        OpenClawLauncher {
            enabled: crate::providers::launcher_enabled(config),
            endpoint: config.openclaw.endpoint.clone(),
            cli_path: config.openclaw.cli_path.clone(),
            health_check_attempts: DEFAULT_HEALTH_CHECK_ATTEMPTS,
        }
    }

    /// The same launcher with another number of health checks.
    pub fn with_health_check_attempts(self, attempts: u32) -> (l: Self)
        ensures
            l.spec_attempts() == attempts,
            l.spec_enabled() == self.spec_enabled(),
            l.spec_endpoint() == self.spec_endpoint(),
            l.spec_cli_path() == self.spec_cli_path(),
    {
        OpenClawLauncher { health_check_attempts: attempts, ..self }
    }

    pub fn is_enabled(&self) -> (b: bool)
        ensures
            b == self.spec_enabled(),
    {
        self.enabled
    }

    pub fn endpoint(&self) -> (s: &str)
        ensures
            s@ == self.spec_endpoint(),
    {
        self.endpoint.as_str()
    }

    pub fn health_check_attempts(&self) -> (n: u32)
        ensures
            n == self.spec_attempts(),
    {
        self.health_check_attempts
    }

    /// The program and arguments that start the gateway on a port: inside
    /// Firejail with the project's profile when `firejail/openclaw.profile`
    /// exists, else with the system's `openclaw` profile when
    /// `/etc/firejail/openclaw.profile` exists, else the program alone.
    pub fn gateway_command(&self, port: u16, local_profile: bool, system_profile: bool) -> (r: (String, Vec<String>))
        ensures
            ({
                let tail = seq!["gateway"@, "--port"@, crate::text::decimal(port as nat), "--verbose"@];
                let args = r.1@.map_values(|s: String| s@);
                if local_profile || system_profile {
                    &&& r.0@ == "firejail"@
                    &&& args == seq![
                        "--quiet"@,
                        if local_profile {
                            "--profile=firejail/openclaw.profile"@
                        } else {
                            "--profile=openclaw"@
                        },
                        "--x11=none"@,
                        "--"@,
                        self.spec_cli_path(),
                    ] + tail
                } else {
                    &&& r.0@ == self.spec_cli_path()
                    &&& args == tail
                }
            }),
    {
        let mut args: Vec<String> = Vec::new();
        let program = if local_profile || system_profile {
            args.push(String::from_str("--quiet"));
            if local_profile {
                args.push(String::from_str("--profile=firejail/openclaw.profile"));
            } else {
                args.push(String::from_str("--profile=openclaw"));
            }
            args.push(String::from_str("--x11=none"));
            args.push(String::from_str("--"));
            args.push(self.cli_path.clone());
            String::from_str("firejail")
        } else {
            self.cli_path.clone()
        };
        args.push(String::from_str("gateway"));
        args.push(String::from_str("--port"));
        args.push(crate::text::decimal_string(port as u64));
        args.push(String::from_str("--verbose"));
        proof {
            reveal_strlit("--quiet");
            reveal_strlit("--profile=firejail/openclaw.profile");
            reveal_strlit("--profile=openclaw");
            reveal_strlit("--x11=none");
            reveal_strlit("--");
            reveal_strlit("firejail");
            reveal_strlit("gateway");
            reveal_strlit("--port");
            reveal_strlit("--verbose");
            let tail = seq!["gateway"@, "--port"@, crate::text::decimal(port as nat), "--verbose"@];
            if local_profile || system_profile {
                assert(args@.map_values(|s: String| s@) =~= seq![
                    "--quiet"@,
                    if local_profile {
                        "--profile=firejail/openclaw.profile"@
                    } else {
                        "--profile=openclaw"@
                    },
                    "--x11=none"@,
                    "--"@,
                    self.spec_cli_path(),
                ] + tail);
            } else {
                assert(args@.map_values(|s: String| s@) =~= tail);
            }
        }
        (program, args)
    }

    /// What is reported when the gateway stayed down through every check.
    pub fn unhealthy_error(&self) -> (e: MentalOSError)
        ensures
            e matches MentalOSError::OpenClawUnavailable(m) && m@ == "OpenClaw gateway did not become healthy after "@
                + crate::text::decimal(self.spec_attempts() as nat) + " attempts (total wait ~"@
                + crate::text::decimal((crate::providers::total_delay(self.spec_attempts() as nat) / 1000) as nat) + "s)"@,
    {
        let secs = crate::providers::estimate_total_wait_secs(self.health_check_attempts);
        let mut m = String::from_str("OpenClaw gateway did not become healthy after ");
        m.append(crate::text::decimal_string(self.health_check_attempts as u64).as_str());
        m.append(" attempts (total wait ~");
        m.append(crate::text::decimal_string(secs).as_str());
        m.append("s)");
        MentalOSError::OpenClawUnavailable(m)
    }
}

} // verus!
