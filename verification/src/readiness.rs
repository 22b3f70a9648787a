//! Readiness probe decision core. The probe polls the backend until it
//! answers with success or an overall timeout elapses, sleeping between
//! attempts with exponential backoff that starts at 150ms, doubles, and is
//! capped at 2000ms. The HTTP request, the clock and the sleep live outside
//! the library; the caller reports each attempt's outcome and elapsed time
//! and this state machine decides what happens next. It hands out at most
//! one terminal decision.

use vstd::prelude::*;
use vstd::string::*;

verus! {

/// Overall readiness timeout applied at startup, in seconds.
pub const STARTUP_READY_TIMEOUT_SEC: u64 = 60;

/// The sleep before attempt `n + 1`: 150ms doubled `n` times, capped at
/// 2000ms.
pub open spec fn backoff_ms(n: nat) -> int
    decreases n,
{
    if n == 0 {
        150
    } else if 2 * backoff_ms((n - 1) as nat) < 2000 {
        2 * backoff_ms((n - 1) as nat)
    } else {
        2000
    }
}

proof fn lemma_backoff_range(n: nat)
    ensures
        150 <= backoff_ms(n) <= 2000,
    decreases n,
{
    if n > 0 {
        lemma_backoff_range((n - 1) as nat);
    }
}

proof fn lemma_backoff_cap(n: nat)
    requires
        n >= 4,
    ensures
        backoff_ms(n) == 2000,
    decreases n,
{
    if n == 4 {
        assert(backoff_ms(0) == 150);
        assert(backoff_ms(1) == 300);
        assert(backoff_ms(2) == 600);
        assert(backoff_ms(3) == 1200);
        assert(backoff_ms(4) == 2000);
    } else {
        lemma_backoff_cap((n - 1) as nat);
    }
}

/// The backoff sequence is exactly 150ms, 300ms, 600ms, 1200ms, then 2000ms
/// repeating, and never exceeds 2000ms.
pub proof fn lemma_backoff_sequence()
    ensures
        backoff_ms(0) == 150,
        backoff_ms(1) == 300,
        backoff_ms(2) == 600,
        backoff_ms(3) == 1200,
        backoff_ms(4) == 2000,
        forall|n: nat| n >= 4 ==> #[trigger] backoff_ms(n) == 2000,
        forall|n: nat| 150 <= #[trigger] backoff_ms(n) <= 2000,
{
    assert(backoff_ms(0) == 150);
    assert(backoff_ms(1) == 300);
    assert(backoff_ms(2) == 600);
    assert(backoff_ms(3) == 1200);
    assert(backoff_ms(4) == 2000);
    assert forall|n: nat| n >= 4 implies #[trigger] backoff_ms(n) == 2000 by {
        lemma_backoff_cap(n);
    }
    assert forall|n: nat| 150 <= #[trigger] backoff_ms(n) <= 2000 by {
        lemma_backoff_range(n);
    }
}

/// What one polling attempt observed: a successful (2xx) response, or
/// anything else (another status or a transport error).
#[derive(Clone, Copy, PartialEq, Eq, Structural, Debug)]
pub enum PollResponse {
    Success,
    NotReady,
}

/// What the probe does after an attempt: stop ready, stop timed out, or
/// sleep for the given backoff and try again.
#[derive(Clone, Copy, PartialEq, Eq, Structural, Debug)]
pub enum PollDecision {
    Ready,
    TimedOut,
    RetryAfter { sleep_ms: u64 },
}

/// Probe progress: the next sleep to use and whether a terminal decision
/// has been handed out.
pub struct ProbeState {
    delay_ms: u64,
    done: bool,
    attempts: Ghost<nat>,
}

impl ProbeState {
    /// The sleep the next retry would use.
    pub closed spec fn delay(&self) -> u64 {
        self.delay_ms
    }

    /// Whether a terminal decision was already handed out.
    pub closed spec fn is_done(&self) -> bool {
        self.done
    }

    /// How many retries have been decided so far.
    pub closed spec fn attempts(&self) -> nat {
        self.attempts@
    }

    /// The pending sleep always sits on the backoff curve.
    pub open spec fn wf(&self) -> bool {
        self.delay() as int == backoff_ms(self.attempts())
    }

    /// A fresh probe: no attempt decided, the first sleep at 150ms.
    pub fn new() -> (r: ProbeState)
        ensures
            r.wf(),
            !r.is_done(),
            r.attempts() == 0,
            r.delay() == 150,
    {
        ProbeState { delay_ms: 150, done: false, attempts: Ghost(0nat) }
    }

    /// Decides what follows one polling attempt. A successful response ends
    /// the probe ready; otherwise, once the elapsed time exceeds the
    /// timeout, it ends timed out; otherwise the probe sleeps the current
    /// backoff and retries with the next one. A terminal decision comes
    /// exactly on success or timeout, and the probe never runs on after one.
    pub fn poll_step(&mut self, response: PollResponse, elapsed_ms: u64, timeout_ms: u64) -> (d:
        PollDecision)
        requires
            old(self).wf(),
            !old(self).is_done(),
        ensures
            final(self).wf(),
            final(self).is_done() <==> (response == PollResponse::Success || elapsed_ms
                > timeout_ms),
            response == PollResponse::Success ==> d == PollDecision::Ready,
            response == PollResponse::NotReady && elapsed_ms > timeout_ms ==> d
                == PollDecision::TimedOut,
            response == PollResponse::NotReady && elapsed_ms <= timeout_ms ==> {
                &&& d == (PollDecision::RetryAfter { sleep_ms: old(self).delay() })
                &&& old(self).delay() as int == backoff_ms(old(self).attempts())
                &&& final(self).attempts() == old(self).attempts() + 1
            },
    {
        match response {
            PollResponse::Success => {
                self.done = true;
                PollDecision::Ready
            },
            PollResponse::NotReady => {
                if elapsed_ms > timeout_ms {
                    self.done = true;
                    PollDecision::TimedOut
                } else {
                    let cur = self.delay_ms;
                    proof {
                        lemma_backoff_range(old(self).attempts());
                    }
                    let nxt: u64 = if cur < 1000 {
                        cur * 2
                    } else {
                        2000
                    };
                    self.delay_ms = nxt;
                    self.attempts = Ghost(self.attempts@ + 1);
                    PollDecision::RetryAfter { sleep_ms: cur }
                }
            },
        }
    }
}

/// The URL one readiness attempt polls: the ready path under the backend's
/// base URL.
pub fn ready_url(base_url: &str) -> (r: String)
    ensures
        r@ == base_url@ + "/ready"@,
{
    let mut s = String::from_str(base_url);
    s.append("/ready");
    s
}

/// The header that carries the bearer token on every readiness request.
pub fn auth_header_name() -> (r: &'static str)
    ensures
        r@ == "X-FilesMind-Token"@,
{
    "X-FilesMind-Token"
}

/// Terminal event handed to the UI boundary: the backend became ready, or
/// startup failed with a message.
pub enum BackendEvent {
    Ready,
    Failed { error: String },
}

impl BackendEvent {
    /// The event's channel name at the UI boundary.
    pub fn name(&self) -> (r: &'static str)
        ensures
            *self is Ready ==> r@ == "backend-ready"@,
            *self is Failed ==> r@ == "backend-failed"@,
    {
        match self {
            BackendEvent::Ready => "backend-ready",
            BackendEvent::Failed { .. } => "backend-failed",
        }
    }

    /// The ready flag the event carries.
    pub fn ready_flag(&self) -> (r: bool)
        ensures
            r == (*self is Ready),
    {
        match self {
            BackendEvent::Ready => true,
            BackendEvent::Failed { .. } => false,
        }
    }
}

/// The single terminal event a probe decision maps to: ready on success, a
/// failure event with a readiness-timeout message on timeout, and none while
/// the probe retries.
pub fn probe_terminal_event(d: &PollDecision) -> (r: Option<BackendEvent>)
    ensures
        *d is Ready ==> (r matches Some(e) && e is Ready),
        *d is TimedOut ==> (r matches Some(e) && e matches BackendEvent::Failed { error }
            && error@ == "backend readiness timeout"@),
        *d is RetryAfter ==> r is None,
{
    match d {
        PollDecision::Ready => Some(BackendEvent::Ready),
        PollDecision::TimedOut => Some(
            BackendEvent::Failed { error: String::from_str("backend readiness timeout") },
        ),
        PollDecision::RetryAfter { .. } => None,
    }
}

} // verus!
