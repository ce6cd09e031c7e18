//! Circuit breaker pattern for pipeline reliability.
//!
//! After `threshold` consecutive failures the breaker opens and rejects work
//! until the recovery timeout has passed since it tripped; it then lets work
//! through half-open. A success closes it again.

use vstd::prelude::*;
use std::time::{Duration, Instant};

verus! {

/// std's monotonic clock reading, carried through unchanged.
#[verifier::external_type_specification]
#[verifier::external_body]
pub struct ExInstant(std::time::Instant);

/// Reads the monotonic clock (std's `Instant::now`). Nothing is stated of
/// the reading.
#[verifier::external_body]
fn instant_now() -> (r: Instant) {
    Instant::now()
}

/// Time since `epoch` (std's `Instant::elapsed`). It depends on the clock,
/// so nothing is stated of it.
#[verifier::external_body]
fn instant_elapsed(epoch: &Instant) -> (r: Duration) {
    epoch.elapsed()
}

/// Whole milliseconds of a duration (std's `Duration::as_millis`). The
/// duration is opaque here, so nothing is stated of the result.
#[verifier::external_body]
fn duration_millis(d: &Duration) -> (r: u128) {
    d.as_millis()
}

/// The error returned while the breaker is open.
#[derive(Debug)]
pub struct CircuitBreakerTripped {
    pub consecutive_failures: u32,
    pub last_error: String,
}

#[derive(Debug, Clone, Copy, PartialEq, Eq, Structural)]
pub enum State {
    Closed,
    Open,
    HalfOpen,
}

/// The message carried by a rejection.
pub open spec fn unavailable_message() -> Seq<char> {
    seq!['W', 'a', 'r', 'e', 'h', 'o', 'u', 's', 'e', ' ', 'u', 'n', 'a', 'v', 'a', 'i', 'l', 'a', 'b', 'l', 'e']
}

/// `a - b`, or 0 when `b` exceeds `a`.
pub open spec fn saturating_sub(a: u64, b: u64) -> int {
    if a >= b { a - b } else { 0 }
}

/// A circuit breaker. Times are milliseconds since the breaker's epoch.
pub struct CircuitBreaker {
    consecutive_failures: u32,
    threshold: u32,
    state: State,
    tripped_at_ms: u64,
    recovery_timeout_ms: u64,
    epoch: Instant,
}

impl CircuitBreaker {
    pub closed spec fn failures(&self) -> u32 {
        self.consecutive_failures
    }

    pub closed spec fn threshold(&self) -> u32 {
        self.threshold
    }

    pub closed spec fn state(&self) -> State {
        self.state
    }

    pub closed spec fn tripped_at(&self) -> u64 {
        self.tripped_at_ms
    }

    pub closed spec fn recovery_timeout(&self) -> u64 {
        self.recovery_timeout_ms
    }

    /// A closed breaker with no failures, which opens after `threshold`
    /// consecutive failures and stays open for `recovery_timeout` (counted in
    /// whole milliseconds, truncated to 64 bits).
    pub fn new(threshold: u32, recovery_timeout: Duration) -> (r: Self)
        ensures
            r.failures() == 0,
            r.threshold() == threshold,
            r.state() == State::Closed,
            r.tripped_at() == 0,
    {
        let ms = duration_millis(&recovery_timeout);
        Self::with_timeout_ms(threshold, ms as u64)
    }

    /// A closed breaker with no failures, which opens after `threshold`
    /// consecutive failures and stays open for `recovery_timeout_ms`.
    pub fn with_timeout_ms(threshold: u32, recovery_timeout_ms: u64) -> (r: Self)
        ensures
            r.failures() == 0,
            r.threshold() == threshold,
            r.state() == State::Closed,
            r.tripped_at() == 0,
            r.recovery_timeout() == recovery_timeout_ms,
    {
        CircuitBreaker {
            consecutive_failures: 0,
            threshold,
            state: State::Closed,
            tripped_at_ms: 0,
            recovery_timeout_ms,
            epoch: instant_now(),
        }
    }

    /// The breaker's own clock: milliseconds since it was made, truncated
    /// to 64 bits.
    fn now_ms(&self) -> (r: u64) {
        let d = instant_elapsed(&self.epoch);
        let ms = duration_millis(&d);
        ms as u64
    }

    /// Decides whether work may proceed at time `now_ms`. A closed or
    /// half-open breaker lets it through. An open breaker moves to
    /// half-open and lets it through once the recovery timeout has passed
    /// since it tripped; before that it rejects, reporting the failure count.
    pub fn check_at(&mut self, now_ms: u64) -> (r: Result<(), CircuitBreakerTripped>)
        ensures
            final(self).failures() == old(self).failures(),
            final(self).threshold() == old(self).threshold(),
            final(self).tripped_at() == old(self).tripped_at(),
            final(self).recovery_timeout() == old(self).recovery_timeout(),
            old(self).state() != State::Open ==> r is Ok && final(self).state() == old(self).state(),
            old(self).state() == State::Open
                && saturating_sub(now_ms, old(self).tripped_at()) >= old(self).recovery_timeout()
                ==> r is Ok && final(self).state() == State::HalfOpen,
            old(self).state() == State::Open
                && saturating_sub(now_ms, old(self).tripped_at()) < old(self).recovery_timeout()
                ==> final(self).state() == State::Open && match r {
                    Err(e) => e.consecutive_failures == old(self).failures()
                        && e.last_error@ == unavailable_message(),
                    Ok(_) => false,
                },
    {
        if self.state != State::Open {
            return Ok(());
        }
        let elapsed = now_ms.saturating_sub(self.tripped_at_ms);
        if elapsed >= self.recovery_timeout_ms {
            self.state = State::HalfOpen;
            return Ok(());
        }
        let msg = "Warehouse unavailable";
        proof {
            reveal_strlit("Warehouse unavailable");
        }
        Err(CircuitBreakerTripped {
            consecutive_failures: self.consecutive_failures,
            last_error: crate::text::to_owned_string(msg),
        })
    }

    /// `check_at` on the breaker's clock.
    pub fn check(&mut self) -> (r: Result<(), CircuitBreakerTripped>)
        ensures
            final(self).failures() == old(self).failures(),
            final(self).threshold() == old(self).threshold(),
            final(self).tripped_at() == old(self).tripped_at(),
            final(self).recovery_timeout() == old(self).recovery_timeout(),
            old(self).state() != State::Open ==> r is Ok && final(self).state() == old(self).state(),
            old(self).state() == State::Open ==> match r {
                Ok(_) => final(self).state() == State::HalfOpen,
                Err(e) => final(self).state() == State::Open && e.consecutive_failures == old(self).failures(),
            },
    {
        let now = self.now_ms();
        self.check_at(now)
    }

    /// A success clears the failure count and closes the breaker.
    pub fn record_success(&mut self)
        ensures
            final(self).failures() == 0,
            final(self).state() == State::Closed,
            final(self).threshold() == old(self).threshold(),
            final(self).tripped_at() == old(self).tripped_at(),
            final(self).recovery_timeout() == old(self).recovery_timeout(),
    {
        self.consecutive_failures = 0;
        self.state = State::Closed;
    }

    /// A failure at time `now_ms` adds one to the failure count (wrapping
    /// at `u32::MAX`); once the count reaches the threshold the breaker opens
    /// and remembers when.
    pub fn record_failure_at(&mut self, now_ms: u64)
        ensures
            final(self).failures() == old(self).failures().wrapping_add(1),
            final(self).threshold() == old(self).threshold(),
            final(self).recovery_timeout() == old(self).recovery_timeout(),
            final(self).failures() >= old(self).threshold() ==>
                final(self).state() == State::Open && final(self).tripped_at() == now_ms,
            final(self).failures() < old(self).threshold() ==>
                final(self).state() == old(self).state() && final(self).tripped_at() == old(self).tripped_at(),
            (final(self).failures(), final(self).state())
                == failure_step(old(self).failures(), old(self).threshold(), old(self).state()),
    {
        let count = self.consecutive_failures.wrapping_add(1);
        self.consecutive_failures = count;
        if count >= self.threshold {
            self.state = State::Open;
            self.tripped_at_ms = now_ms;
        }
    }

    /// `record_failure_at` on the breaker's clock.
    pub fn record_failure(&mut self)
        ensures
            final(self).failures() == old(self).failures().wrapping_add(1),
            final(self).threshold() == old(self).threshold(),
            final(self).recovery_timeout() == old(self).recovery_timeout(),
            final(self).failures() >= old(self).threshold() ==> final(self).state() == State::Open,
            final(self).failures() < old(self).threshold() ==>
                final(self).state() == old(self).state() && final(self).tripped_at() == old(self).tripped_at(),
    {
        let now = self.now_ms();
        self.record_failure_at(now)
    }
}


/// One failure: the count grows by one (wrapping) and the breaker opens
/// once the count reaches the threshold.
pub open spec fn failure_step(failures: u32, threshold: u32, state: State) -> (u32, State) {
    let count = vstd::wrapping::u32_specs::wrapping_add(failures, 1);
    (count, if count >= threshold { State::Open } else { state })
}

/// Failure count and state after `n` consecutive failures following a
/// success.
pub open spec fn after_failures(threshold: u32, n: nat) -> (u32, State)
    decreases n,
{
    if n == 0 {
        (0, State::Closed)
    } else {
        let prev = after_failures(threshold, (n - 1) as nat);
        failure_step(prev.0, threshold, prev.1)
    }
}

/// After a success, the breaker stays closed through the first
/// `threshold - 1` consecutive failures and is open from the
/// `threshold`-th on (while the count does not wrap).
pub proof fn lemma_opens_at_threshold(threshold: u32, n: nat)
    requires
        n <= u32::MAX,
    ensures
        after_failures(threshold, n).0 == n,
        after_failures(threshold, n).1 == (if n > 0 && n >= threshold { State::Open } else { State::Closed }),
    decreases n,
{
    if n > 0 {
        lemma_opens_at_threshold(threshold, (n - 1) as nat);
    }
}

/// Consecutive breakers, each after one more failure recorded on the one
/// before (as `record_failure_at` records it), with the same threshold.
pub open spec fn failure_run(bs: Seq<CircuitBreaker>) -> bool {
    forall|i: int| 0 <= i < bs.len() - 1 ==> {
        &&& #[trigger] bs[i + 1].threshold() == bs[i].threshold()
        &&& (bs[i + 1].failures(), bs[i + 1].state()) == failure_step(bs[i].failures(), bs[i].threshold(), bs[i].state())
    }
}

proof fn lemma_failure_run_prefix(bs: Seq<CircuitBreaker>, n: int)
    requires
        1 <= bs.len(),
        0 <= n < bs.len(),
        bs[0].failures() == 0,
        bs[0].state() == State::Closed,
        failure_run(bs),
    ensures
        (bs[n].failures(), bs[n].state()) == after_failures(bs[0].threshold(), n as nat),
        bs[n].threshold() == bs[0].threshold(),
    decreases n,
{
    if n > 0 {
        lemma_failure_run_prefix(bs, n - 1);
        assert(bs[(n - 1) + 1].threshold() == bs[n - 1].threshold());
    }
}

/// The failure count and state of a breaker after `n` failures following a
/// success: `n` failures, open once `n` reaches `max(threshold, 1)`.
pub open spec fn reopened_as_expected(b: CircuitBreaker, threshold: u32, n: int) -> bool {
    &&& b.failures() == n
    &&& b.state() == (if n > 0 && n >= threshold { State::Open } else { State::Closed })
}

/// After a success (no failures, closed), a breaker that then records
/// failures one after another stays closed through the first
/// `threshold - 1` of them and is open from the `max(threshold, 1)`-th on,
/// while the count does not wrap.
pub proof fn lemma_reopens_after_failures(bs: Seq<CircuitBreaker>)
    requires
        1 <= bs.len() <= u32::MAX + 1,
        bs[0].failures() == 0,
        bs[0].state() == State::Closed,
        failure_run(bs),
    ensures
        forall|n: int| 0 <= n < bs.len() ==> reopened_as_expected(#[trigger] bs[n], bs[0].threshold(), n),
{
    assert forall|n: int| 0 <= n < bs.len() implies reopened_as_expected(#[trigger] bs[n], bs[0].threshold(), n) by {
        lemma_failure_run_prefix(bs, n);
        lemma_opens_at_threshold(bs[0].threshold(), n as nat);
    }
}

} // verus!
