//! Provider names, endpoint URLs and the gateway's health-check schedule.
use crate::chat_format::ollama_switch_message;
use crate::config::Config;
use crate::error::MentalOSError;
use crate::text::{chars_of, eq_ignore_case, has_prefix, str_eq_ignore_case, string_of};
use vstd::prelude::*;
use vstd::string::*;

verus! {

/// How the OpenClaw provider reaches its agent.
#[derive(Debug, Clone, Copy, PartialEq, Eq, Structural)]
pub enum Transport {
    Cli,
    Http,
}

/// The names of the supported providers.
pub open spec fn provider_names() -> Seq<Seq<char>> {
    seq!["openclaw"@, "ollama"@, "deepseek"@, "zen"@]
}

/// The names of the supported providers.
pub fn supported_providers() -> (v: Vec<&'static str>)
    ensures
        v@.len() == provider_names().len(),
        forall|i: int| 0 <= i < v@.len() ==> (#[trigger] v@[i])@ == provider_names()[i],
{
    vec!["openclaw", "ollama", "deepseek", "zen"]
}

/// The text without trailing `/` characters.
pub open spec fn without_trailing_slashes(s: Seq<char>) -> Seq<char>
    decreases s.len(),
{
    if s.len() > 0 && s.last() == '/' {
        without_trailing_slashes(s.drop_last())
    } else {
        s
    }
}

/// A base URL joined with a path by exactly the slashes that the path brings.
pub open spec fn joined_url(base: Seq<char>, path: Seq<char>) -> Seq<char> {
    without_trailing_slashes(base) + if has_prefix(path, "/"@) {
        path
    } else {
        seq!['/'] + path
    }
}

/// Joins a base URL and a path.
pub fn join_url(base: &str, path: &str) -> (r: String)
    ensures
        r@ == joined_url(base@, path@),
{
    let mut b = chars_of(base);
    while b.len() > 0 && b[b.len() - 1] == '/'
        invariant
            without_trailing_slashes(b@) == without_trailing_slashes(base@),
        decreases b.len(),
    {
        let ghost before = b@;
        b.pop();
        proof {
            assert(b@ =~= before.drop_last());
        }
    }
    let p = chars_of(path);
    let slash = chars_of("/");
    proof {
        reveal_strlit("/");
    }
    if !crate::text::starts_with(&p, &slash) {
        b.push('/');
    }
    let mut i: usize = 0;
    let ghost head = b@;
    while i < p.len()
        invariant
            i <= p.len(),
            b@ == head + p@.subrange(0, i as int),
        decreases p.len() - i,
    {
        b.push(p[i]);
        i += 1;
        proof {
            assert(b@ =~= head + p@.subrange(0, i as int));
        }
    }
    proof {
        assert(p@.subrange(0, p.len() as int) =~= p@);
        assert(b@ =~= joined_url(base@, path@));
    }
    string_of(&b)
}

// ---------------------------------------------------------------------------
// Gateway health checks
// ---------------------------------------------------------------------------

/// Health checks made before giving up on the gateway.
pub const DEFAULT_HEALTH_CHECK_ATTEMPTS: u32 = 10;

/// Delay before the first health check, in milliseconds.
pub const INITIAL_BACKOFF_MS: u64 = 200;

/// Largest delay between health checks, in milliseconds.
pub const MAX_BACKOFF_MS: u64 = 3000;

/// Factor by which the delay grows.
pub const BACKOFF_MULTIPLIER: u64 = 2;

pub open spec fn next_delay(d: int) -> int {
    if d * 2 < 3000 {
        d * 2
    } else {
        3000
    }
}

/// The delay before health check `k` (counting from 0).
pub open spec fn delay_at(k: nat) -> int
    decreases k,
{
    if k == 0 {
        200
    } else {
        next_delay(delay_at((k - 1) as nat))
    }
}

/// The total of the first `k` delays.
pub open spec fn total_delay(k: nat) -> int
    decreases k,
{
    if k == 0 {
        0
    } else {
        total_delay((k - 1) as nat) + delay_at((k - 1) as nat)
    }
}

/// The delay that follows `delay`: doubled, at most the cap.
pub fn next_backoff_delay(delay: u64) -> (d: u64)
    requires
        delay <= u64::MAX / 2,
    ensures
        d == next_delay(delay as int),
{
    let doubled = delay * BACKOFF_MULTIPLIER;
    if doubled < MAX_BACKOFF_MS {
        doubled
    } else {
        MAX_BACKOFF_MS
    }
}

/// Every delay of the schedule lies between the first delay and the cap.
pub proof fn law_delays_within_cap(k: nat)
    ensures
        200 <= delay_at(k) <= 3000,
    decreases k,
{
    if k > 0 {
        law_delays_within_cap((k - 1) as nat);
    }
}

proof fn lemma_total_bound(k: nat)
    ensures
        0 <= total_delay(k) <= 3000 * k,
    decreases k,
{
    if k > 0 {
        lemma_total_bound((k - 1) as nat);
        law_delays_within_cap((k - 1) as nat);
    }
}

/// Whole seconds that `attempts` health checks wait in all.
pub fn estimate_total_wait_secs(attempts: u32) -> (s: u64)
    ensures
        s == total_delay(attempts as nat) / 1000,
{
    let mut total_ms: u64 = 0;
    let mut delay: u64 = INITIAL_BACKOFF_MS;
    let mut i: u32 = 0;
    while i < attempts
        invariant
            i <= attempts,
            total_ms == total_delay(i as nat),
            delay == delay_at(i as nat),
        decreases attempts - i,
    {
        proof {
            lemma_total_bound(i as nat);
            law_delays_within_cap(i as nat);
        }
        total_ms = total_ms + delay;
        delay = next_backoff_delay(delay);
        i += 1;
    }
    total_ms / 1000
}

/// Ten health checks wait 21 seconds in all, reported as 21 whole seconds.
pub proof fn law_default_total_wait()
    ensures
        total_delay(10) / 1000 == 21,
{
    assert(delay_at(0) == 200);
    assert(delay_at(1) == 400);
    assert(delay_at(2) == 800);
    assert(delay_at(3) == 1600);
    assert(delay_at(4) == 3000);
    assert(delay_at(5) == 3000);
    assert(delay_at(6) == 3000);
    assert(delay_at(7) == 3000);
    assert(delay_at(8) == 3000);
    assert(delay_at(9) == 3000);
    assert(total_delay(0) == 0);
    assert(total_delay(1) == 200);
    assert(total_delay(2) == 600);
    assert(total_delay(3) == 1400);
    assert(total_delay(4) == 3000);
    assert(total_delay(5) == 6000);
    assert(total_delay(6) == 9000);
    assert(total_delay(7) == 12000);
    assert(total_delay(8) == 15000);
    assert(total_delay(9) == 18000);
    assert(total_delay(10) == 21000);
}

/// Whether the gateway is started automatically: auto-start is on and the
/// transport is HTTP (in any ASCII case).
pub fn launcher_enabled(config: &Config) -> (b: bool)
    ensures
        b == (config.openclaw.auto_start && eq_ignore_case(config.openclaw.transport@, "http"@)),
{
    config.openclaw.auto_start && str_eq_ignore_case(config.openclaw.transport.as_str(), "http")
}

// ---------------------------------------------------------------------------
// The Ollama provider
// ---------------------------------------------------------------------------

/// The Ollama provider: the server it talks to and the model that answers.
/// Its chat API takes the whole conversation.
#[derive(Debug, Clone)]
pub struct OllamaProvider {
    endpoint: String,
    model: String,
}

impl OllamaProvider {
    pub closed spec fn endpoint_text(&self) -> Seq<char> {
        self.endpoint@
    }

    pub closed spec fn model_text(&self) -> Seq<char> {
        self.model@
    }

    /// The provider for the configuration's Ollama settings; it is always
    /// made.
    pub fn from_config(config: &Config) -> (r: Result<Self, MentalOSError>)
        ensures
            r matches Ok(p) && p.endpoint_text() == config.ollama.endpoint@ && p.model_text()
                == config.ollama.model@,
    {
        Ok(OllamaProvider { endpoint: config.ollama.endpoint.clone(), model: config.ollama.model.clone() })
    }

    /// The model that answers.
    pub fn model(&self) -> (m: &str)
        ensures
            m@ == self.model_text(),
    {
        self.model.as_str()
    }

    /// The server's address.
    pub fn endpoint(&self) -> (e: &str)
        ensures
            e@ == self.endpoint_text(),
    {
        self.endpoint.as_str()
    }

    /// The agents on offer: the current model alone.
    pub fn list_agents(&self) -> (v: Vec<String>)
        ensures
            v@.len() == 1,
            v@[0]@ == self.model_text(),
    {
        let mut v: Vec<String> = Vec::new();
        v.push(self.model.clone());
        v
    }

    pub fn get_current_provider(&self) -> (s: String)
        ensures
            s@ == "ollama"@,
    {
        String::from_str("ollama")
    }

    /// Switches the model; it always succeeds and says from which model to
    /// which.
    pub fn switch_agent(&mut self, name: &str) -> (r: Result<String, MentalOSError>)
        ensures
            r matches Ok(m) && m@ == "Switched Ollama model from "@ + old(self).model_text() + " to "@ + name@,
            final(self).model_text() == name@,
            final(self).endpoint_text() == old(self).endpoint_text(),
    {
        let message = ollama_switch_message(self.model.as_str(), name);
        self.model = String::from_str(name);
        Ok(message)
    }

    /// The chat API takes the conversation so far.
    pub fn supports_context(&self) -> (b: bool)
        ensures
            b,
    {
        true
    }

    pub fn name(&self) -> (s: &'static str)
        ensures
            s@ == "ollama"@,
    {
        proof {
            reveal_strlit("ollama");
        }
        "ollama"
    }

    /// Where chat requests go.
    pub fn chat_url(&self) -> (u: String)
        ensures
            u@ == joined_url(self.endpoint_text(), "/api/chat"@),
    {
        join_url(self.endpoint.as_str(), "/api/chat")
    }

    /// Where the health check asks for the installed models.
    pub fn tags_url(&self) -> (u: String)
        ensures
            u@ == joined_url(self.endpoint_text(), "/api/tags"@),
    {
        join_url(self.endpoint.as_str(), "/api/tags")
    }
}

} // verus!
