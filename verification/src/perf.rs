//! Reference-counted "keep system awake" session manager. Callers begin and
//! end sessions identified by monotonically increasing tokens; the underlying
//! OS wake-lock process is modelled by a liveness flag that is on exactly
//! while at least one session is active. Spawning and killing the real
//! process, and the mutual-exclusion lock around this state, live outside the
//! library; the manager is the decision core those callers drive.

use vstd::prelude::*;

verus! {

/// Abstract state of the session manager: the next token to hand out, the
/// multiset-free sequence of active tokens, and whether the wake-lock
/// process is running.
#[verifier::ext_equal]
pub struct PerfModel {
    pub next: u64,
    pub tokens: Seq<u64>,
    pub wake: bool,
}

/// Well-formedness: no token is active twice, and the wake-lock process
/// runs exactly while some session is active.
pub open spec fn perf_inv(m: PerfModel) -> bool {
    &&& m.tokens.no_duplicates()
    &&& (m.wake <==> m.tokens.len() != 0)
}

/// Adding a token behaves like set insertion: present tokens stay single.
pub open spec fn insert_token(s: Seq<u64>, v: u64) -> Seq<u64> {
    if s.contains(v) {
        s
    } else {
        s.push(v)
    }
}

/// The token a begin operation hands out, and the saturating counter bump.
pub open spec fn bumped_next(n: u64) -> u64 {
    if n < u64::MAX {
        (n + 1) as u64
    } else {
        u64::MAX
    }
}

/// Outcome of a begin operation: next state, returned token, success flag.
/// A begin allocates the next token and activates it; if the wake-lock
/// process is not running and cannot be spawned, the token is retracted and
/// the operation reports failure with a zero token.
pub open spec fn begin_result(pre: PerfModel, spawn_ok: bool) -> (PerfModel, u64, bool) {
    let token = pre.next;
    let nxt = bumped_next(pre.next);
    if pre.wake || spawn_ok {
        (PerfModel { next: nxt, tokens: insert_token(pre.tokens, token), wake: true }, token, true)
    } else {
        (
            PerfModel {
                next: nxt,
                tokens: insert_token(pre.tokens, token).remove_value(token),
                wake: false,
            },
            0,
            false,
        )
    }
}

/// Outcome of an end operation: next state and whether the token was found.
/// The first occurrence of the token is removed; when no session remains the
/// wake-lock process is stopped.
pub open spec fn end_result(pre: PerfModel, token: u64) -> (PerfModel, bool) {
    let remaining = pre.tokens.remove_value(token);
    let wake2 = if remaining.len() == 0 {
        false
    } else {
        pre.wake
    };
    (PerfModel { next: pre.next, tokens: remaining, wake: wake2 }, pre.tokens.contains(token))
}

/// What a session operation reports back to its caller.
#[derive(Clone, Copy, PartialEq, Eq, Structural, Debug)]
pub enum PerfMessage {
    SessionStarted,
    BeginFailed,
    SessionEnded,
    TokenNotFound,
    LockPoisoned,
}

/// Payload returned by the begin and end operations.
#[derive(Clone, Copy, PartialEq, Eq, Structural, Debug)]
pub struct PerfSessionPayload {
    pub token: u64,
    pub active: bool,
    pub active_tokens: usize,
    pub caffeinate_active: bool,
    pub message: PerfMessage,
}

/// The degraded payload returned when the lock around the manager cannot be
/// acquired (it was poisoned by an earlier panic): zero counts, inactive,
/// with an explanatory message, so the failure never propagates.
pub fn poisoned_perf_payload(token: u64) -> (r: PerfSessionPayload)
    ensures
        r.token == token,
        !r.active,
        r.active_tokens == 0,
        !r.caffeinate_active,
        r.message == PerfMessage::LockPoisoned,
{
    PerfSessionPayload {
        token,
        active: false,
        active_tokens: 0,
        caffeinate_active: false,
        message: PerfMessage::LockPoisoned,
    }
}

/// The session manager's concrete state.
pub struct PerfManager {
    next_token: u64,
    active: Vec<u64>,
    wake_on: bool,
}

impl View for PerfManager {
    type V = PerfModel;

    closed spec fn view(&self) -> PerfModel {
        PerfModel { next: self.next_token, tokens: self.active@, wake: self.wake_on }
    }
}

proof fn lemma_remove_keeps_no_dup(s: Seq<u64>, i: int)
    requires
        0 <= i < s.len(),
        s.no_duplicates(),
    ensures
        s.remove(i).no_duplicates(),
{
    let t = s.remove(i);
    s.remove_ensures(i);
    assert forall|p: int, q: int|
        0 <= p < t.len() && 0 <= q < t.len() && p != q implies t[p] != t[q] by {
        let p0 = if p < i {
            p
        } else {
            p + 1
        };
        let q0 = if q < i {
            q
        } else {
            q + 1
        };
        assert(t[p] == s[p0]);
        assert(t[q] == s[q0]);
    }
}

/// Searches for the first occurrence of `token` and removes it, reporting
/// whether one was found.
#[verifier::loop_isolation(false)]
fn remove_token(v: &mut Vec<u64>, token: u64) -> (removed: bool)
    ensures
        final(v)@ == old(v)@.remove_value(token),
        removed == old(v)@.contains(token),
{
    let n = v.len();
    let mut i: usize = 0;
    while i < n && v[i] != token
        invariant
            i <= n,
            n == v@.len(),
            v@ == old(v)@,
            forall|k: int| 0 <= k < i ==> v@[k] != token,
        decreases n - i,
    {
        i += 1;
    }
    proof {
        old(v)@.index_of_first_ensures(token);
    }
    if i < n {
        v.remove(i);
        proof {
            assert(old(v)@.index_of_first(token) == Some(i as int));
        }
        true
    } else {
        proof {
            assert(!old(v)@.contains(token));
        }
        false
    }
}

impl PerfManager {
    /// A fresh manager: no active sessions, the counter at one, the
    /// wake-lock process not running.
    pub fn new() -> (r: PerfManager)
        ensures
            r@ == (PerfModel { next: 1u64, tokens: Seq::<u64>::empty(), wake: false }),
            perf_inv(r@),
    {
        let r = PerfManager { next_token: 1, active: Vec::new(), wake_on: false };
        proof {
            assert(r@ =~= PerfModel { next: 1u64, tokens: Seq::<u64>::empty(), wake: false });
        }
        r
    }

    /// Whether the wake-lock process is currently running; a begin operation
    /// needs a spawn exactly when it is not.
    pub fn wake_lock_running(&self) -> (r: bool)
        ensures
            r == self@.wake,
    {
        self.wake_on
    }

    /// How many sessions are active.
    pub fn active_count(&self) -> (r: usize)
        ensures
            r == self@.tokens.len(),
    {
        self.active.len()
    }

    /// Begins a session: allocates the next token, activates it, and records
    /// the wake-lock process as running. `spawn_ok` reports whether the
    /// caller could ensure that process (it is ignored when the process
    /// already runs); on failure the token is retracted and the payload
    /// carries a zero token and `active == false`.
    pub fn begin(&mut self, spawn_ok: bool) -> (r: PerfSessionPayload)
        requires
            perf_inv(old(self)@),
        ensures
            perf_inv(final(self)@),
            final(self)@ == begin_result(old(self)@, spawn_ok).0,
            r.token == begin_result(old(self)@, spawn_ok).1,
            r.active == begin_result(old(self)@, spawn_ok).2,
            r.active_tokens == final(self)@.tokens.len(),
            r.caffeinate_active == final(self)@.wake,
            r.message == (if begin_result(old(self)@, spawn_ok).2 {
                PerfMessage::SessionStarted
            } else {
                PerfMessage::BeginFailed
            }),
    {
        let token = self.next_token;
        if self.next_token < u64::MAX {
            self.next_token = self.next_token + 1;
        }
        let mut already = false;
        let n = self.active.len();
        let mut i: usize = 0;
        while i < n
            invariant
                i <= n,
                n == self.active@.len(),
                already == exists|k: int| 0 <= k < i && self.active@[k] == token,
            decreases n - i,
        {
            if self.active[i] == token {
                already = true;
            }
            i += 1;
        }
        proof {
            assert(already == self.active@.contains(token));
        }
        if !already {
            self.active.push(token);
        }
        proof {
            assert(self.active@ == insert_token(old(self)@.tokens, token));
            if !old(self)@.tokens.contains(token) {
                assert forall|p: int, q: int|
                    0 <= p < self.active@.len() && 0 <= q < self.active@.len() && p != q implies
                    self.active@[p] != self.active@[q] by {}
            }
            assert(self.active@.no_duplicates());
        }
        if !self.wake_on {
            if spawn_ok {
                self.wake_on = true;
            } else {
                proof {
                    assert(old(self)@.tokens.len() == 0);
                    assert(self.active@ =~= seq![token]);
                    assert(self.active@[0] == token);
                    assert(self.active@.index_of_first(token) == Some(0int)) by {
                        self.active@.index_of_first_ensures(token);
                        assert(self.active@.contains(token));
                    }
                    assert(self.active@.remove_value(token) =~= Seq::<u64>::empty());
                }
                remove_token(&mut self.active, token);
                return PerfSessionPayload {
                    token: 0,
                    active: false,
                    active_tokens: self.active.len(),
                    caffeinate_active: false,
                    message: PerfMessage::BeginFailed,
                };
            }
        }
        PerfSessionPayload {
            token,
            active: true,
            active_tokens: self.active.len(),
            caffeinate_active: true,
            message: PerfMessage::SessionStarted,
        }
    }

    /// Ends a session: removes the token if it is active, reporting "token
    /// not found" otherwise without treating it as fatal; when the last
    /// session ends the wake-lock process is stopped. The payload's `active`
    /// flag reflects whether any session remains.
    pub fn end(&mut self, token: u64) -> (r: PerfSessionPayload)
        requires
            perf_inv(old(self)@),
        ensures
            perf_inv(final(self)@),
            final(self)@ == end_result(old(self)@, token).0,
            r.token == token,
            r.active == (final(self)@.tokens.len() != 0),
            r.active_tokens == final(self)@.tokens.len(),
            r.caffeinate_active == final(self)@.wake,
            r.message == (if end_result(old(self)@, token).1 {
                PerfMessage::SessionEnded
            } else {
                PerfMessage::TokenNotFound
            }),
    {
        let removed = remove_token(&mut self.active, token);
        proof {
            old(self)@.tokens.index_of_first_ensures(token);
            if old(self)@.tokens.contains(token) {
                let idx = old(self)@.tokens.index_of_first(token).unwrap();
                lemma_remove_keeps_no_dup(old(self)@.tokens, idx);
            }
        }
        if self.active.len() == 0 {
            self.wake_on = false;
        }
        PerfSessionPayload {
            token,
            active: self.active.len() != 0,
            active_tokens: self.active.len(),
            caffeinate_active: self.wake_on,
            message: if removed {
                PerfMessage::SessionEnded
            } else {
                PerfMessage::TokenNotFound
            },
        }
    }

    /// Application-exit teardown: clears every active session and stops the
    /// wake-lock process, whatever state the manager was in.
    pub fn clear_all(&mut self)
        ensures
            final(self)@.tokens =~= Seq::<u64>::empty(),
            !final(self)@.wake,
            final(self)@.next == old(self)@.next,
            perf_inv(final(self)@),
    {
        self.active = Vec::new();
        self.wake_on = false;
    }
}

/// A session begun and at once ended leaves the manager idle: beginning from
/// a state with no active sessions and ending with the returned token leaves
/// the active-token count at zero and the wake lock inactive.
pub proof fn lemma_begin_then_end(m0: PerfModel)
    requires
        perf_inv(m0),
        m0.tokens.len() == 0,
    ensures
        ({
            let m1 = begin_result(m0, true).0;
            let token = begin_result(m0, true).1;
            let m2 = end_result(m1, token).0;
            m2.tokens.len() == 0 && !m2.wake
        }),
{
    let token = m0.next;
    let m1 = begin_result(m0, true).0;
    assert(!m0.tokens.contains(token));
    assert(m1.tokens =~= m0.tokens.push(token));
    assert(m1.tokens.len() == 1);
    assert(m1.tokens[0] == token);
    m1.tokens.index_of_first_ensures(token);
    assert(m1.tokens.index_of_first(token) == Some(0int));
    assert(m1.tokens.remove_value(token) =~= Seq::<u64>::empty());
}

/// More generally, a begin followed by an end with the returned token
/// restores the active sessions and the wake-lock state exactly as they
/// were, whatever else was active; only the token counter has advanced.
/// It holds whenever the next token is not already active, which the
/// monotonically increasing counter keeps true until it saturates.
pub proof fn lemma_begin_then_end_restores(m0: PerfModel)
    requires
        perf_inv(m0),
        !m0.tokens.contains(m0.next),
    ensures
        ({
            let m1 = begin_result(m0, true).0;
            let token = begin_result(m0, true).1;
            let m2 = end_result(m1, token).0;
            m2.tokens =~= m0.tokens && m2.wake == m0.wake && m2.next == m1.next
        }),
{
    let token = m0.next;
    let m1 = begin_result(m0, true).0;
    assert(m1.tokens =~= m0.tokens.push(token));
    let n = m0.tokens.len() as int;
    assert(m1.tokens[n] == token);
    assert(m1.tokens.contains(token));
    m1.tokens.index_of_first_ensures(token);
    let idx = m1.tokens.index_of_first(token).unwrap();
    assert(idx == n) by {
        if idx < n {
            assert(m1.tokens[idx] == m0.tokens[idx]);
            assert(m0.tokens.contains(token));
        }
    }
    assert(m1.tokens.remove(n) =~= m0.tokens);
}

/// Ending with a token that is not active changes nothing: the state is
/// unchanged, other sessions are untouched, and the operation reports the
/// token as not found.
pub proof fn lemma_end_unknown_token(m: PerfModel, token: u64)
    requires
        perf_inv(m),
        !m.tokens.contains(token),
    ensures
        end_result(m, token).0 == m,
        !end_result(m, token).1,
{
    m.tokens.index_of_first_ensures(token);
    assert(m.tokens.remove_value(token) == m.tokens);
    if m.tokens.len() == 0 {
        assert(!m.wake);
    }
    assert(end_result(m, token).0 =~= m);
}

/// Two overlapping sessions keep the wake lock held until both have ended:
/// after two begins and the end of the first session the wake lock is still
/// active; after the end of the second it is inactive and no session
/// remains.
pub proof fn lemma_two_sessions_overlap(m0: PerfModel)
    requires
        perf_inv(m0),
        m0.tokens.len() == 0,
        m0.next < u64::MAX,
    ensures
        ({
            let m1 = begin_result(m0, true).0;
            let t1 = begin_result(m0, true).1;
            let m2 = begin_result(m1, true).0;
            let t2 = begin_result(m1, true).1;
            let m3 = end_result(m2, t1).0;
            let m4 = end_result(m3, t2).0;
            m3.wake && m3.tokens.len() == 1 && !m4.wake && m4.tokens.len() == 0
        }),
{
    let t1 = m0.next;
    let m1 = begin_result(m0, true).0;
    assert(!m0.tokens.contains(t1));
    assert(m1.tokens =~= seq![t1]);
    let t2 = m1.next;
    assert(t2 == t1 + 1);
    let m2 = begin_result(m1, true).0;
    assert(!m1.tokens.contains(t2));
    assert(m2.tokens =~= seq![t1, t2]);
    m2.tokens.index_of_first_ensures(t1);
    assert(m2.tokens.index_of_first(t1) == Some(0int));
    let m3 = end_result(m2, t1).0;
    assert(m3.tokens =~= seq![t2]);
    assert(m3.wake);
    assert(m3.tokens[0] == t2);
    assert(m3.tokens.contains(t2));
    m3.tokens.index_of_first_ensures(t2);
    assert(m3.tokens.index_of_first(t2) == Some(0int));
    let m4 = end_result(m3, t2).0;
    assert(m4.tokens =~= Seq::<u64>::empty());
    assert(!m4.wake);
}

} // verus!
