//! Circuit breaker for calls to outside services.
//!
//! Closed (normal) -> Open (failing, reject calls) -> HalfOpen (probe).

use std::time::{Duration, Instant};
use vstd::prelude::*;

use crate::time::{duration_nanos, elapsed_since, instant_now, nanos_of};

verus! {

pub struct CircuitBreakerConfig {
    pub failure_threshold: u32,
    pub reset_timeout: Duration,
}

/// Result of checking whether a call is allowed.
#[derive(Debug, Clone, Copy, PartialEq, Eq, Structural)]
pub enum CircuitState {
    Closed,
    Open,
    HalfOpen,
}

pub struct CircuitBreaker {
    state: CircuitState,
    consecutive_failures: u32,
    failure_threshold: u32,
    reset_timeout_nanos: u128,
    last_failure_at: Option<Instant>,
}

/// The state an open breaker moves to, given how long ago the last failure
/// was recorded (`None` when none was) and the reset timeout.
pub open spec fn open_breaker_next(elapsed_nanos: Option<u128>, timeout_nanos: u128) -> CircuitState {
    match elapsed_nanos {
        Some(e) => if e >= timeout_nanos { CircuitState::HalfOpen } else { CircuitState::Open },
        None => CircuitState::Open,
    }
}

/// The name the breaker reports for a state.
pub open spec fn state_label(s: CircuitState) -> Seq<char> {
    match s {
        CircuitState::Closed => "closed"@,
        CircuitState::Open => "open"@,
        CircuitState::HalfOpen => "half_open"@,
    }
}

/// The failure count after one more failure.
pub open spec fn failures_after_failure(failures: u32) -> u32 {
    (failures + 1) as u32
}

/// The state after one more failure: the breaker trips once the count
/// reaches the threshold, and keeps its state otherwise.
pub open spec fn state_after_failure(state: CircuitState, failures: u32, threshold: u32) -> CircuitState {
    if failures + 1 >= threshold { CircuitState::Open } else { state }
}

impl CircuitBreaker {
    pub closed spec fn state(&self) -> CircuitState {
        self.state
    }

    pub closed spec fn failures(&self) -> u32 {
        self.consecutive_failures
    }

    pub closed spec fn threshold(&self) -> u32 {
        self.failure_threshold
    }

    pub closed spec fn timeout_nanos(&self) -> u128 {
        self.reset_timeout_nanos
    }

    /// Whether a failure has been recorded since the breaker was made.
    pub closed spec fn has_failed(&self) -> bool {
        self.last_failure_at is Some
    }

    pub fn new(config: CircuitBreakerConfig) -> (cb: Self)
        ensures
            cb.state() == CircuitState::Closed,
            cb.failures() == 0,
            cb.threshold() == config.failure_threshold,
            cb.timeout_nanos() as nat == duration_nanos(config.reset_timeout),
            !cb.has_failed(),
    {
        Self {
            state: CircuitState::Closed,
            consecutive_failures: 0,
            failure_threshold: config.failure_threshold,
            reset_timeout_nanos: nanos_of(&config.reset_timeout),
            last_failure_at: None,
        }
    }

    /// The state an open breaker moves to, given the time since its last
    /// failure: half-open once the reset timeout has passed.
    pub fn open_next_state(&self, elapsed_nanos: Option<u128>) -> (s: CircuitState)
        ensures
            s == open_breaker_next(elapsed_nanos, self.timeout_nanos()),
    {
        match elapsed_nanos {
            Some(e) => if e >= self.reset_timeout_nanos {
                CircuitState::HalfOpen
            } else {
                CircuitState::Open
            },
            None => CircuitState::Open,
        }
    }

    /// Check if a call should proceed. Returns the current state. An open
    /// breaker whose reset timeout has passed since the last failure moves to
    /// half-open.
    pub fn check(&mut self) -> (s: CircuitState)
        ensures
            final(self).failures() == old(self).failures(),
            final(self).threshold() == old(self).threshold(),
            final(self).timeout_nanos() == old(self).timeout_nanos(),
            final(self).has_failed() == old(self).has_failed(),
            final(self).state() == s,
            old(self).state() == CircuitState::Closed ==> s == CircuitState::Closed,
            old(self).state() == CircuitState::HalfOpen ==> s == CircuitState::HalfOpen,
            old(self).state() == CircuitState::Open ==> (s == CircuitState::Open || (
                s == CircuitState::HalfOpen && old(self).has_failed())),
            old(self).state() == CircuitState::Open ==> exists|elapsed: Option<u128>|
                (elapsed is Some <==> old(self).has_failed()) && s == open_breaker_next(elapsed, old(self).timeout_nanos()),
    {
        match self.state {
            CircuitState::Closed => CircuitState::Closed,
            CircuitState::HalfOpen => CircuitState::HalfOpen,
            CircuitState::Open => self.check_open_timeout(),
        }
    }

    /// Record a successful call. Resets the breaker to Closed.
    pub fn record_success(&mut self)
        ensures
            final(self).state() == CircuitState::Closed,
            final(self).failures() == 0,
            final(self).threshold() == old(self).threshold(),
            final(self).timeout_nanos() == old(self).timeout_nanos(),
            final(self).has_failed() == old(self).has_failed(),
    {
        self.consecutive_failures = 0;
        self.state = CircuitState::Closed;
    }

    /// Record a failed call. Trips the breaker to Open once the count of
    /// consecutive failures reaches the threshold.
    pub fn record_failure(&mut self)
        requires
            old(self).failures() < u32::MAX,
        ensures
            final(self).failures() == failures_after_failure(old(self).failures()),
            final(self).state() == state_after_failure(
                old(self).state(),
                old(self).failures(),
                old(self).threshold(),
            ),
            final(self).threshold() == old(self).threshold(),
            final(self).timeout_nanos() == old(self).timeout_nanos(),
            final(self).has_failed(),
    {
        let failures = self.consecutive_failures + 1;
        self.consecutive_failures = failures;
        self.last_failure_at = Some(instant_now());
        if failures >= self.failure_threshold {
            self.state = CircuitState::Open;
        }
    }

    /// Returns true if calls should be rejected.
    pub fn is_open(&mut self) -> (b: bool)
        ensures
            b == (final(self).state() == CircuitState::Open),
            final(self).failures() == old(self).failures(),
            final(self).threshold() == old(self).threshold(),
            final(self).timeout_nanos() == old(self).timeout_nanos(),
            final(self).has_failed() == old(self).has_failed(),
            old(self).state() != CircuitState::Open ==> final(self).state() == old(self).state(),
            old(self).state() == CircuitState::Open ==> (final(self).state() == CircuitState::Open
                || (final(self).state() == CircuitState::HalfOpen && old(self).has_failed())),
    {
        let s = self.check();
        match s {
            CircuitState::Open => true,
            _ => false,
        }
    }

    pub fn state_name(&self) -> (name: &'static str)
        ensures
            name@ == state_label(self.state()),
    {
        match self.state {
            CircuitState::Closed => "closed",
            CircuitState::Open => "open",
            CircuitState::HalfOpen => "half_open",
        }
    }

    fn check_open_timeout(&mut self) -> (s: CircuitState)
        requires
            old(self).state() == CircuitState::Open,
        ensures
            final(self).failures() == old(self).failures(),
            final(self).threshold() == old(self).threshold(),
            final(self).timeout_nanos() == old(self).timeout_nanos(),
            final(self).has_failed() == old(self).has_failed(),
            final(self).state() == s,
            s == CircuitState::Open || (s == CircuitState::HalfOpen && old(self).has_failed()),
            exists|elapsed: Option<u128>| (elapsed is Some <==> old(self).has_failed())
                && s == open_breaker_next(elapsed, old(self).timeout_nanos()),
    {
        let elapsed = match &self.last_failure_at {
            Some(at) => Some(nanos_of(&elapsed_since(at))),
            None => None,
        };
        let next = self.open_next_state(elapsed);
        self.state = next;
        assert((elapsed is Some <==> old(self).has_failed()) && next == open_breaker_next(elapsed, old(self).timeout_nanos()));
        next
    }
}

/// A breaker trips exactly when a failure brings the count of consecutive
/// failures to the threshold, and a success always closes it again with a
/// zero count.
pub proof fn lemma_failure_trips_at_threshold(state: CircuitState, failures: u32, threshold: u32)
    requires
        failures < u32::MAX,
    ensures
        failures_after_failure(failures) >= threshold ==> state_after_failure(state, failures, threshold) == CircuitState::Open,
        failures_after_failure(failures) < threshold ==> state_after_failure(state, failures, threshold) == state,
{
}

/// Starting closed with no failures, the breaker is open after `n`
/// consecutive failures exactly when `n` has reached the threshold, and
/// closed before (`threshold > 0`): it stays closed through
/// `threshold - 1` failures and open through any number beyond.
pub proof fn lemma_opens_after_threshold_failures(threshold: u32, n: u32)
    requires
        0 < threshold,
    ensures
        state_after_n_failures(threshold, n) == (if n >= threshold { CircuitState::Open } else { CircuitState::Closed }),
    decreases n,
{
    if n > 0 {
        lemma_opens_after_threshold_failures(threshold, (n - 1) as u32);
    }
}

/// A breaker that is not closed has seen at least `threshold` consecutive
/// failures: it only trips when the count reaches the threshold, and only
/// a success, which closes it, resets the count.
pub open spec fn trip_consistent(state: CircuitState, failures: u32, threshold: u32) -> bool {
    state != CircuitState::Closed ==> failures >= threshold
}

/// Every operation keeps a breaker trip-consistent, and a failure recorded
/// while it is open or half-open leaves it open; an open breaker stays
/// open while less than the reset timeout has passed since the last
/// failure.
pub proof fn lemma_failure_while_tripped(state: CircuitState, failures: u32, threshold: u32, elapsed_nanos: u128, timeout_nanos: u128)
    requires
        failures < u32::MAX,
        trip_consistent(state, failures, threshold),
    ensures
        trip_consistent(CircuitState::Closed, 0, threshold),
        trip_consistent(state_after_failure(state, failures, threshold), failures_after_failure(failures), threshold),
        state != CircuitState::Closed ==> state_after_failure(state, failures, threshold) == CircuitState::Open,
        state == CircuitState::Open ==> trip_consistent(open_breaker_next(Some(elapsed_nanos), timeout_nanos), failures, threshold),
        elapsed_nanos < timeout_nanos ==> open_breaker_next(Some(elapsed_nanos), timeout_nanos) == CircuitState::Open,
{
}

/// The state of a fresh breaker after `n` consecutive failures.
pub open spec fn state_after_n_failures(threshold: u32, n: u32) -> CircuitState
    decreases n,
{
    if n == 0 {
        CircuitState::Closed
    } else {
        state_after_failure(state_after_n_failures(threshold, (n - 1) as u32), (n - 1) as u32, threshold)
    }
}

} // verus!
