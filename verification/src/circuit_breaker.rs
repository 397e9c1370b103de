//! Circuit breaker for AI provider resilience.
//!
//! The breaker has three states. Closed: requests pass, consecutive failures
//! are counted, and once they reach `failure_threshold` the breaker opens.
//! Open: requests are refused until the cooldown has elapsed; the first
//! request after it moves the breaker to Half-Open and passes as the trial.
//! Half-Open: a single trial request passes at a time, and further requests
//! are refused until its outcome is recorded; a success (enough of them)
//! closes the breaker, a failure re-opens it.
//!
//! Every transition is a spec function of the breaker's model and, where the
//! clock matters, of the current time in milliseconds since the epoch.
use crate::text::{contains_text, decimal, decimal_string};
use vstd::prelude::*;
use vstd::string::*;

verus! {

/// State of the circuit breaker.
#[derive(Debug, Clone, Copy, PartialEq, Eq, Structural)]
pub enum CircuitState {
    /// Normal operation: requests pass through.
    Closed,
    /// The provider is failing: requests are refused.
    Open,
    /// Testing whether the provider has recovered.
    HalfOpen,
}

/// Configuration of a circuit breaker.
#[derive(Debug)]
pub struct CircuitBreakerConfig {
    /// Number of consecutive failures before the breaker opens.
    pub failure_threshold: u32,
    /// How long the breaker stays open before it lets a trial request
    /// through, in milliseconds.
    pub cooldown_ms: u64,
    /// Number of consecutive Half-Open successes that close the breaker.
    pub half_open_success_threshold: u32,
}

/// `SystemTime::now()` as whole milliseconds since the Unix epoch (0 when the
/// clock reads earlier than the epoch). It depends on the clock: nothing is
/// stated of it.
#[verifier::external_body]
fn now_millis() -> u64 {
    std::time::SystemTime::now().duration_since(std::time::UNIX_EPOCH).unwrap_or_default().as_millis() as u64
}

impl Default for CircuitBreakerConfig {
    /// Three failures open the breaker, one Half-Open success closes it; the
    /// cooldown is thirty seconds.
    fn default() -> (c: Self)
        ensures
            c.failure_threshold == 3,
            c.cooldown_ms == 30_000,
            c.half_open_success_threshold == 1,
    {
        CircuitBreakerConfig { failure_threshold: 3, cooldown_ms: 30_000, half_open_success_threshold: 1 }
    }
}

/// The mutable part of a breaker.
pub struct BreakerView {
    pub state: CircuitState,
    pub failures: u32,
    pub successes: u32,
    /// Milliseconds since the epoch at which the breaker opened; 0 when not open.
    pub opened_at_ms: u64,
    /// Whether the Half-Open trial request has been let through and its
    /// outcome not yet recorded.
    pub trial_taken: bool,
}

/// The fixed part of a breaker.
pub struct BreakerParams {
    pub failure_threshold: u32,
    pub success_threshold: u32,
    pub cooldown_ms: u64,
    pub cooldown_secs: u64,
}

/// Counter increment that wraps around, as an atomic `fetch_add` does.
pub open spec fn inc(x: u32) -> u32 {
    if x == u32::MAX {
        0
    } else {
        (x + 1) as u32
    }
}

/// A breaker as `new` and `reset` leave it.
pub open spec fn fresh_view() -> BreakerView {
    BreakerView { state: CircuitState::Closed, failures: 0, successes: 0, opened_at_ms: 0, trial_taken: false }
}

/// The breaker after a failed request observed at time `now`.
pub open spec fn after_failure(p: BreakerParams, m: BreakerView, now: u64) -> BreakerView {
    match m.state {
        CircuitState::Closed => {
            let f = inc(m.failures);
            if f >= p.failure_threshold {
                BreakerView { state: CircuitState::Open, failures: f, opened_at_ms: now, ..m }
            } else {
                BreakerView { failures: f, ..m }
            }
        },
        CircuitState::HalfOpen => BreakerView {
            state: CircuitState::Open,
            opened_at_ms: now,
            trial_taken: false,
            ..m
        },
        CircuitState::Open => BreakerView { failures: inc(m.failures), ..m },
    }
}

/// The breaker after a successful request.
pub open spec fn after_success(p: BreakerParams, m: BreakerView) -> BreakerView {
    match m.state {
        CircuitState::Closed => BreakerView { failures: 0, ..m },
        CircuitState::HalfOpen => {
            let s = inc(m.successes);
            if s >= p.success_threshold {
                BreakerView {
                    state: CircuitState::Closed,
                    failures: 0,
                    successes: s,
                    opened_at_ms: 0,
                    trial_taken: false,
                }
            } else {
                BreakerView { successes: s, trial_taken: false, ..m }
            }
        },
        CircuitState::Open => BreakerView {
            state: CircuitState::Closed,
            failures: 0,
            opened_at_ms: 0,
            ..m
        },
    }
}

/// Milliseconds elapsed since `since`, never negative.
pub open spec fn elapsed_ms(now: u64, since: u64) -> u64 {
    if now >= since {
        (now - since) as u64
    } else {
        0
    }
}

/// Whether a request asked at time `now` is let through: always while
/// closed; while open, once the cooldown has elapsed; while half-open, only
/// when no trial request is under way.
pub open spec fn allows(p: BreakerParams, m: BreakerView, now: u64) -> bool {
    match m.state {
        CircuitState::Closed => true,
        CircuitState::Open => m.opened_at_ms == 0 || elapsed_ms(now, m.opened_at_ms) >= p.cooldown_ms,
        CircuitState::HalfOpen => !m.trial_taken,
    }
}

/// The breaker after a request was asked for at time `now`: an open breaker
/// whose cooldown has elapsed moves to Half-Open with this request as its
/// trial; a half-open breaker with no trial under way takes this request as
/// the trial; otherwise nothing changes.
pub open spec fn after_allow(p: BreakerParams, m: BreakerView, now: u64) -> BreakerView {
    if m.state == CircuitState::Open && m.opened_at_ms != 0 && elapsed_ms(now, m.opened_at_ms)
        >= p.cooldown_ms {
        BreakerView { state: CircuitState::HalfOpen, successes: 0, trial_taken: true, ..m }
    } else if m.state == CircuitState::HalfOpen && !m.trial_taken {
        BreakerView { trial_taken: true, ..m }
    } else {
        m
    }
}

/// Whole seconds of cooldown left at time `now`.
pub open spec fn remaining_secs(p: BreakerParams, m: BreakerView, now: u64) -> u64 {
    let e = elapsed_ms(now, m.opened_at_ms) / 1000;
    if e < p.cooldown_secs {
        (p.cooldown_secs - e) as u64
    } else {
        0
    }
}

/// The message of a request refused while the breaker is open.
pub open spec fn unavailable_message(name: Seq<char>, remaining: u64) -> Seq<char> {
    "Provider '"@ + name + "' is temporarily unavailable (circuit breaker open, "@ + decimal(
        remaining as nat,
    ) + "s remaining in cooldown)"@
}

/// The message of a request refused while the half-open trial is under way.
pub open spec fn trial_pending_message(name: Seq<char>) -> Seq<char> {
    "Provider '"@ + name + "' is temporarily unavailable (circuit breaker half-open, trial request in progress)"@
}

/// The message of a request refused in a given state.
pub open spec fn refusal_message(p: BreakerParams, m: BreakerView, name: Seq<char>, now: u64) -> Seq<char> {
    if m.state == CircuitState::HalfOpen {
        trial_pending_message(name)
    } else {
        unavailable_message(name, remaining_secs(p, m, now))
    }
}

/// Consecutive failures never reach the threshold while the breaker is closed
/// (a threshold of zero leaves the count at zero).
pub open spec fn breaker_inv(p: BreakerParams, m: BreakerView) -> bool {
    m.state == CircuitState::Closed ==> (m.failures == 0 || m.failures < p.failure_threshold)
}

/// Breaker for one provider.
pub struct CircuitBreaker {
    config: CircuitBreakerConfig,
    provider_name: String,
    state: CircuitState,
    consecutive_failures: u32,
    consecutive_successes: u32,
    opened_at_ms: u64,
    trial_taken: bool,
}

impl CircuitBreaker {
    pub closed spec fn model(&self) -> BreakerView {
        BreakerView {
            state: self.state,
            failures: self.consecutive_failures,
            successes: self.consecutive_successes,
            opened_at_ms: self.opened_at_ms,
            trial_taken: self.trial_taken,
        }
    }

    pub closed spec fn params(&self) -> BreakerParams {
        BreakerParams {
            failure_threshold: self.config.failure_threshold,
            success_threshold: self.config.half_open_success_threshold,
            cooldown_ms: self.config.cooldown_ms,
            cooldown_secs: self.config.cooldown_ms / 1000,
        }
    }

    pub closed spec fn name(&self) -> Seq<char> {
        self.provider_name@
    }

    /// A closed breaker for the given provider.
    pub fn new(provider_name: String, config: CircuitBreakerConfig) -> (cb: Self)
        ensures
            cb.model() == fresh_view(),
            cb.name() == provider_name@,
            cb.params().failure_threshold == config.failure_threshold,
            cb.params().success_threshold == config.half_open_success_threshold,
            cb.params().cooldown_ms == config.cooldown_ms,
            cb.params().cooldown_secs == config.cooldown_ms / 1000,
    {
        CircuitBreaker {
            config,
            provider_name,
            state: CircuitState::Closed,
            consecutive_failures: 0,
            consecutive_successes: 0,
            opened_at_ms: 0,
            trial_taken: false,
        }
    }

    /// A closed breaker with the default configuration.
    pub fn with_defaults(provider_name: String) -> (cb: Self)
        ensures
            cb.model() == fresh_view(),
            cb.name() == provider_name@,
            cb.params().failure_threshold == 3,
            cb.params().success_threshold == 1,
            cb.params().cooldown_ms == 30_000,
            cb.params().cooldown_secs == 30,
    {
        Self::new(provider_name, CircuitBreakerConfig::default())
    }

    /// Decides on a request asked for at time `now_ms`: `Ok` when it may
    /// proceed, otherwise the message that the cooldown is still running.
    pub fn allow_request_at(&mut self, now_ms: u64) -> (r: Result<(), String>)
        ensures
            final(self).params() == old(self).params(),
            final(self).name() == old(self).name(),
            final(self).model() == after_allow(old(self).params(), old(self).model(), now_ms),
            r is Ok <==> allows(old(self).params(), old(self).model(), now_ms),
            r matches Err(msg) ==> msg@ == refusal_message(
                old(self).params(),
                old(self).model(),
                old(self).name(),
                now_ms,
            ),
    {
        match self.state {
            CircuitState::Closed => Ok(()),
            CircuitState::HalfOpen => {
                if self.trial_taken {
                    let mut msg = String::from_str("Provider '");
                    msg.append(self.provider_name.as_str());
                    msg.append("' is temporarily unavailable (circuit breaker half-open, trial request in progress)");
                    Err(msg)
                } else {
                    self.trial_taken = true;
                    Ok(())
                }
            },
            CircuitState::Open => {
                let opened_at = self.opened_at_ms;
                if opened_at == 0 {
                    return Ok(());
                }
                let elapsed = now_ms.saturating_sub(opened_at);
                let cooldown_secs = self.config.cooldown_ms / 1000;
                if elapsed >= self.config.cooldown_ms {
                    self.state = CircuitState::HalfOpen;
                    self.consecutive_successes = 0;
                    self.trial_taken = true;
                    Ok(())
                } else {
                    let secs = elapsed / 1000;
                    let used = if secs < cooldown_secs {
                        secs
                    } else {
                        cooldown_secs
                    };
                    let remaining = cooldown_secs - used;
                    let mut msg = String::from_str("Provider '");
                    msg.append(self.provider_name.as_str());
                    msg.append("' is temporarily unavailable (circuit breaker open, ");
                    let digits = decimal_string(remaining);
                    msg.append(digits.as_str());
                    msg.append("s remaining in cooldown)");
                    Err(msg)
                }
            },
        }
    }

    /// Decides on a request asked for now; see `allow_request_at`. The clock
    /// is read once, so the outcome is that of `allow_request_at` at some time.
    pub fn allow_request(&mut self) -> (r: Result<(), String>)
        ensures
            final(self).params() == old(self).params(),
            final(self).name() == old(self).name(),
            exists|now: u64|
                {
                    &&& final(self).model() == after_allow(
                        old(self).params(),
                        old(self).model(),
                        now,
                    )
                    &&& (r is Ok <==> allows(old(self).params(), old(self).model(), now))
                },
            old(self).model().state == CircuitState::Closed ==> r is Ok && final(self).model()
                == old(self).model(),
            old(self).model().state == CircuitState::HalfOpen ==> (r is Ok <==> !old(self).model().trial_taken)
                && final(self).model() == (BreakerView { trial_taken: true, ..old(self).model() }),
            r matches Err(msg) ==> exists|now: u64| msg@ == #[trigger] refusal_message(
                old(self).params(),
                old(self).model(),
                old(self).name(),
                now,
            ),
    {
        let now = now_millis();
        self.allow_request_at(now)
    }

    /// Records a successful request.
    pub fn record_success(&mut self)
        ensures
            final(self).params() == old(self).params(),
            final(self).name() == old(self).name(),
            final(self).model() == after_success(old(self).params(), old(self).model()),
    {
        match self.state {
            CircuitState::Closed => {
                self.consecutive_failures = 0;
            },
            CircuitState::HalfOpen => {
                let successes = self.consecutive_successes.wrapping_add(1);
                self.consecutive_successes = successes;
                self.trial_taken = false;
                if successes >= self.config.half_open_success_threshold {
                    self.state = CircuitState::Closed;
                    self.consecutive_failures = 0;
                    self.opened_at_ms = 0;
                }
            },
            CircuitState::Open => {
                self.state = CircuitState::Closed;
                self.consecutive_failures = 0;
                self.opened_at_ms = 0;
            },
        }
    }

    /// Records a failed request observed at time `now_ms`.
    pub fn record_failure_at(&mut self, now_ms: u64)
        ensures
            final(self).params() == old(self).params(),
            final(self).name() == old(self).name(),
            final(self).model() == after_failure(old(self).params(), old(self).model(), now_ms),
    {
        match self.state {
            CircuitState::Closed => {
                let failures = self.consecutive_failures.wrapping_add(1);
                self.consecutive_failures = failures;
                if failures >= self.config.failure_threshold {
                    self.open_breaker(now_ms);
                }
            },
            CircuitState::HalfOpen => {
                self.open_breaker(now_ms);
                self.trial_taken = false;
            },
            CircuitState::Open => {
                self.consecutive_failures = self.consecutive_failures.wrapping_add(1);
            },
        }
    }

    /// Records a failed request observed now; see `record_failure_at`.
    pub fn record_failure(&mut self)
        ensures
            final(self).params() == old(self).params(),
            final(self).name() == old(self).name(),
            exists|now: u64|
                final(self).model() == after_failure(old(self).params(), old(self).model(), now),
    {
        let now = now_millis();
        self.record_failure_at(now)
    }

    /// The current state.
    pub fn state(&self) -> (s: CircuitState)
        ensures
            s == self.model().state,
    {
        self.current_state()
    }

    /// The provider that this breaker protects.
    pub fn provider_name(&self) -> (n: &str)
        ensures
            n@ == self.name(),
    {
        self.provider_name.as_str()
    }

    /// Returns the breaker to its initial Closed state.
    pub fn reset(&mut self)
        ensures
            final(self).params() == old(self).params(),
            final(self).name() == old(self).name(),
            final(self).model() == fresh_view(),
    {
        self.state = CircuitState::Closed;
        self.consecutive_failures = 0;
        self.consecutive_successes = 0;
        self.opened_at_ms = 0;
        self.trial_taken = false;
    }

    /// The current number of consecutive failures.
    pub fn failure_count(&self) -> (n: u32)
        ensures
            n == self.model().failures,
    {
        self.consecutive_failures
    }

    fn current_state(&self) -> (s: CircuitState)
        ensures
            s == self.model().state,
    {
        self.state
    }

    fn open_breaker(&mut self, now_ms: u64)
        ensures
            final(self).model() == (BreakerView {
                state: CircuitState::Open,
                opened_at_ms: now_ms,
                ..old(self).model()
            }),
            final(self).params() == old(self).params(),
            final(self).name() == old(self).name(),
    {
        self.state = CircuitState::Open;
        self.opened_at_ms = now_ms;
    }

    /// Milliseconds from `since_ms` to `now_ms`, never negative.
    pub fn millis_since(now_ms: u64, since_ms: u64) -> (e: u64)
        ensures
            e == elapsed_ms(now_ms, since_ms),
    {
        now_ms.saturating_sub(since_ms)
    }
}

// ---------------------------------------------------------------------------
// Laws
// ---------------------------------------------------------------------------

/// The breaker after a run of failed requests at the given times.
pub open spec fn after_failures(p: BreakerParams, m: BreakerView, times: Seq<u64>) -> BreakerView
    decreases times.len(),
{
    if times.len() == 0 {
        m
    } else {
        after_failure(p, after_failures(p, m, times.drop_last()), times.last())
    }
}

/// From a fresh breaker, fewer consecutive failures than the threshold keep it
/// closed and count them; exactly `failure_threshold` of them open it.
pub proof fn law_threshold_failures_open(p: BreakerParams, times: Seq<u64>)
    requires
        times.len() <= p.failure_threshold,
    ensures
        times.len() < p.failure_threshold ==> after_failures(p, fresh_view(), times).state
            == CircuitState::Closed && after_failures(p, fresh_view(), times).failures
            == times.len(),
        times.len() == p.failure_threshold && p.failure_threshold > 0 ==> after_failures(
            p,
            fresh_view(),
            times,
        ).state == CircuitState::Open && after_failures(p, fresh_view(), times).opened_at_ms == times.last(),
    decreases times.len(),
{
    if times.len() > 0 {
        law_threshold_failures_open(p, times.drop_last());
    }
}

/// A success while closed clears the failure count and keeps the breaker closed.
pub proof fn law_success_clears_failures(p: BreakerParams, m: BreakerView)
    requires
        m.state == CircuitState::Closed,
    ensures
        after_success(p, m).state == CircuitState::Closed,
        after_success(p, m).failures == 0,
{
}

/// A reset breaker is closed and lets the next request through unchanged.
pub proof fn law_reset_allows(p: BreakerParams, now: u64)
    ensures
        fresh_view().state == CircuitState::Closed,
        allows(p, fresh_view(), now),
        after_allow(p, fresh_view(), now) == fresh_view(),
{
}

/// A failed test request in Half-Open re-opens the breaker at that time.
pub proof fn law_half_open_failure_reopens(p: BreakerParams, m: BreakerView, now: u64)
    requires
        m.state == CircuitState::HalfOpen,
    ensures
        after_failure(p, m, now).state == CircuitState::Open,
        after_failure(p, m, now).opened_at_ms == now,
{
}

/// An open breaker refuses requests, and stays as it is, until the cooldown has
/// elapsed; from then on it lets one through and moves to Half-Open.
pub proof fn law_open_until_cooldown(p: BreakerParams, m: BreakerView, now: u64)
    requires
        m.state == CircuitState::Open,
        m.opened_at_ms != 0,
    ensures
        elapsed_ms(now, m.opened_at_ms) < p.cooldown_ms ==> !allows(p, m, now) && after_allow(
            p,
            m,
            now,
        ) == m,
        elapsed_ms(now, m.opened_at_ms) >= p.cooldown_ms ==> allows(p, m, now) && after_allow(
            p,
            m,
            now,
        ).state == CircuitState::HalfOpen,
{
}

/// Enough successes in Half-Open close the breaker and clear its failures.
pub proof fn law_half_open_success_closes(p: BreakerParams, m: BreakerView)
    requires
        m.state == CircuitState::HalfOpen,
        inc(m.successes) >= p.success_threshold,
    ensures
        after_success(p, m).state == CircuitState::Closed,
        after_success(p, m).failures == 0,
        after_success(p, m).opened_at_ms == 0,
{
}

/// A request refused while the breaker is open is told which provider is
/// unavailable and that its breaker is open.
pub proof fn law_open_refusal_names_provider(name: Seq<char>, remaining: u64)
    ensures
        contains_text(unavailable_message(name, remaining), name),
        contains_text(unavailable_message(name, remaining), "circuit breaker open"@),
{
    reveal_strlit("Provider '");
    reveal_strlit("' is temporarily unavailable (circuit breaker open, ");
    reveal_strlit("circuit breaker open");
    let head = "Provider '"@;
    let mid = "' is temporarily unavailable (circuit breaker open, "@;
    let msg = unavailable_message(name, remaining);
    let rest = decimal(remaining as nat) + "s remaining in cooldown)"@;
    assert(msg =~= head + name + mid + rest);
    let h: int = head.len() as int;
    let nl: int = name.len() as int;
    assert(msg.subrange(h, h + nl) =~= name);
    let at: int = h + nl + 30;
    assert(mid.subrange(30, 50) =~= "circuit breaker open"@);
    assert(msg.subrange(at, at + 20) =~= "circuit breaker open"@);
}

/// The breaker after `j` recorded successes in a row.
pub open spec fn after_successes(p: BreakerParams, m: BreakerView, j: nat) -> BreakerView
    decreases j,
{
    if j == 0 {
        m
    } else {
        after_success(p, after_successes(p, m, (j - 1) as nat))
    }
}

/// From the moment it enters Half-Open, the breaker closes at the success
/// that makes `half_open_success_threshold` in a row (with its failures
/// cleared) and stays half-open before that.
pub proof fn law_half_open_closes_after_threshold_successes(p: BreakerParams, m: BreakerView, j: nat)
    requires
        m.state == CircuitState::HalfOpen,
        m.successes == 0,
        1 <= j <= p.success_threshold,
    ensures
        after_successes(p, m, j).state == (if j >= p.success_threshold {
            CircuitState::Closed
        } else {
            CircuitState::HalfOpen
        }),
        j < p.success_threshold ==> after_successes(p, m, j).successes == j,
        j >= p.success_threshold ==> after_successes(p, m, j).failures == 0,
    decreases j,
{
    let prev = after_successes(p, m, (j - 1) as nat);
    if j > 1 {
        law_half_open_closes_after_threshold_successes(p, m, (j - 1) as nat);
    } else {
        assert(prev == m);
    }
    assert(prev.state == CircuitState::HalfOpen && prev.successes == j - 1);
    assert(inc(prev.successes) == j);
    assert(after_successes(p, m, j) == after_success(p, prev));
}

/// A closed breaker never holds a failure count at or above the threshold:
/// every operation keeps that true.
pub proof fn law_invariant_preserved(p: BreakerParams, m: BreakerView, now: u64)
    requires
        breaker_inv(p, m),
    ensures
        breaker_inv(p, fresh_view()),
        breaker_inv(p, after_failure(p, m, now)),
        breaker_inv(p, after_success(p, m)),
        breaker_inv(p, after_allow(p, m, now)),
{
}

/// Half-Open lets a single trial request through: once it has been let
/// through, further requests are refused (and change nothing) until its
/// outcome is recorded; a recorded success or failure ends the trial.
pub proof fn law_half_open_admits_one_trial(p: BreakerParams, m: BreakerView, now: u64, later: u64)
    requires
        m.state == CircuitState::HalfOpen,
        !m.trial_taken,
    ensures
        allows(p, m, now),
        after_allow(p, m, now).state == CircuitState::HalfOpen,
        !allows(p, after_allow(p, m, now), later),
        after_allow(p, after_allow(p, m, now), later) == after_allow(p, m, now),
        !after_success(p, after_allow(p, m, now)).trial_taken,
        after_failure(p, after_allow(p, m, now), later).state == CircuitState::Open,
        !after_failure(p, after_allow(p, m, now), later).trial_taken,
{
}

/// The request that ends an open breaker's cooldown is its only trial: the
/// next request is refused until that trial's outcome is recorded.
pub proof fn law_cooldown_admits_one_trial(p: BreakerParams, m: BreakerView, now: u64, later: u64)
    requires
        m.state == CircuitState::Open,
        m.opened_at_ms != 0,
        elapsed_ms(now, m.opened_at_ms) >= p.cooldown_ms,
    ensures
        allows(p, m, now),
        after_allow(p, m, now).state == CircuitState::HalfOpen,
        after_allow(p, m, now).failures == m.failures,
        !allows(p, after_allow(p, m, now), later),
{
}

/// From a fresh breaker, the failure that reaches the threshold opens it at
/// that failure's time, and a request inside the cooldown from then is
/// refused (with the time left in the message) and changes nothing.
pub proof fn law_refused_within_cooldown_after_threshold(p: BreakerParams, times: Seq<u64>, now: u64)
    requires
        times.len() == p.failure_threshold,
        p.failure_threshold > 0,
        times.last() != 0,
        elapsed_ms(now, times.last()) < p.cooldown_ms,
    ensures
        after_failures(p, fresh_view(), times).state == CircuitState::Open,
        !allows(p, after_failures(p, fresh_view(), times), now),
        after_allow(p, after_failures(p, fresh_view(), times), now) == after_failures(p, fresh_view(), times),
{
    law_threshold_failures_open(p, times);
}

// ---------------------------------------------------------------------------
// Retrying
// ---------------------------------------------------------------------------

/// What to do after an attempt (numbered from 0) of a retried call.
#[derive(Debug, Clone, Copy, PartialEq, Eq, Structural)]
pub enum RetryAction {
    /// Hand back this attempt's result.
    Finish,
    /// Wait, then make the next attempt.
    Retry,
}

/// After an attempt: a success is handed back; a failure is retried while
/// fewer than `max_retries` retries have been made, and handed back after
/// the last one.
pub open spec fn retry_answer(attempt: u32, max_retries: u32, succeeded: bool) -> RetryAction {
    if !succeeded && attempt < max_retries {
        RetryAction::Retry
    } else {
        RetryAction::Finish
    }
}

/// What to do after an attempt; see `retry_answer`.
pub fn retry_action(attempt: u32, max_retries: u32, succeeded: bool) -> (r: RetryAction)
    ensures
        r == retry_answer(attempt, max_retries, succeeded),
{
    if !succeeded && attempt < max_retries {
        RetryAction::Retry
    } else {
        RetryAction::Finish
    }
}

/// A retried call is made at most `max_retries + 1` times: attempts are
/// numbered from 0 and only an attempt below `max_retries` is followed by
/// another, so the last attempt is numbered `max_retries` at most, and a
/// success always ends the call.
pub proof fn law_retries_are_bounded(attempt: u32, max_retries: u32, succeeded: bool)
    ensures
        retry_answer(attempt, max_retries, succeeded) == RetryAction::Retry ==> attempt + 1 <= max_retries,
        succeeded ==> retry_answer(attempt, max_retries, succeeded) == RetryAction::Finish,
        attempt >= max_retries ==> retry_answer(attempt, max_retries, succeeded) == RetryAction::Finish,
{
}

} // verus!
