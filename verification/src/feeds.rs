//! Reconnection policy of the streaming price feeds: endpoints are tried in
//! rotation, and after a full round of failed connections the feed waits longer.
use vstd::prelude::*;

verus! {

/// Seconds to wait before reconnecting after a disconnect or a failed attempt.
pub const RECONNECT_DELAY_SECS: u64 = 3;

/// Seconds to wait once every endpoint has failed in a row.
pub const ALL_FAILED_DELAY_SECS: u64 = 10;

/// What the feed does after a connection attempt ends.
#[derive(Debug, Clone, Copy, PartialEq, Eq, Structural)]
pub enum Backoff {
    /// Wait `RECONNECT_DELAY_SECS`, then try the current endpoint.
    Reconnect,
    /// Every endpoint failed in a row: wait `ALL_FAILED_DELAY_SECS`, then start a new round.
    AllFailed,
}

/// Rotation state over a non-empty list of feed endpoints.
#[derive(Debug, Clone, Copy, PartialEq, Eq)]
pub struct ReconnectPolicy {
    endpoint_count: u32,
    attempt: usize,
    consecutive_fails: u32,
}

/// The rotation state as plain values.
pub struct PolicyView {
    pub endpoint_count: u32,
    pub attempt: usize,
    pub consecutive_fails: u32,
}

/// `x + 1`, wrapping at `usize::MAX`.
pub open spec fn wrap_inc_usize(x: usize) -> usize {
    if x == usize::MAX {
        0
    } else {
        (x + 1) as usize
    }
}

/// State and backoff after a failed connection attempt: rotate to the next
/// endpoint; after as many failures in a row as there are endpoints, wait
/// longer and start counting again.
pub open spec fn after_failure(p: PolicyView) -> (PolicyView, Backoff) {
    let fails = p.consecutive_fails + 1;
    if fails >= p.endpoint_count {
        (
            PolicyView {
                endpoint_count: p.endpoint_count,
                attempt: wrap_inc_usize(p.attempt),
                consecutive_fails: 0,
            },
            Backoff::AllFailed,
        )
    } else {
        (
            PolicyView {
                endpoint_count: p.endpoint_count,
                attempt: wrap_inc_usize(p.attempt),
                consecutive_fails: fails as u32,
            },
            Backoff::Reconnect,
        )
    }
}

impl View for ReconnectPolicy {
    type V = PolicyView;

    closed spec fn view(&self) -> PolicyView {
        PolicyView {
            endpoint_count: self.endpoint_count,
            attempt: self.attempt,
            consecutive_fails: self.consecutive_fails,
        }
    }
}

impl ReconnectPolicy {
    /// There is at least one endpoint, and fewer failures in a row than endpoints.
    #[verifier::type_invariant]
    closed spec fn counts_in_range(self) -> bool {
        0 < self.endpoint_count && self.consecutive_fails < self.endpoint_count
    }

    /// A fresh policy over `endpoint_count` endpoints, starting with the first.
    pub fn new(endpoint_count: u32) -> (r: Self)
        requires
            endpoint_count > 0,
        ensures
            r@ == (PolicyView { endpoint_count, attempt: 0, consecutive_fails: 0 }),
    {
        ReconnectPolicy { endpoint_count, attempt: 0, consecutive_fails: 0 }
    }

    /// Failed attempts in a row so far.
    pub fn consecutive_fails(&self) -> (r: u32)
        ensures
            r == self@.consecutive_fails,
            r < self@.endpoint_count,
    {
        proof {
            use_type_invariant(self);
        }
        self.consecutive_fails
    }

    /// Index of the endpoint to try next.
    pub fn current_endpoint(&self) -> (r: usize)
        ensures
            r == self@.attempt % (self@.endpoint_count as usize),
            r < self@.endpoint_count,
    {
        proof {
            use_type_invariant(self);
        }
        self.attempt % (self.endpoint_count as usize)
    }

    /// A connection succeeded: the failure count starts again from zero.
    pub fn on_connected(&mut self)
        ensures
            final(self)@ == (PolicyView { consecutive_fails: 0, ..old(self)@ }),
    {
        proof {
            use_type_invariant(&*self);
        }
        self.consecutive_fails = 0;
    }

    /// A connection attempt failed: rotate to the next endpoint and say how
    /// long to wait.
    pub fn on_connect_failed(&mut self) -> (r: Backoff)
        ensures
            (final(self)@, r) == after_failure(old(self)@),
    {
        proof {
            use_type_invariant(&*self);
        }
        let fails = self.consecutive_fails + 1;
        let attempt = self.attempt.wrapping_add(1);
        if fails >= self.endpoint_count {
            *self = ReconnectPolicy { endpoint_count: self.endpoint_count, attempt, consecutive_fails: 0 };
            Backoff::AllFailed
        } else {
            *self = ReconnectPolicy { endpoint_count: self.endpoint_count, attempt, consecutive_fails: fails };
            Backoff::Reconnect
        }
    }
}

/// Starting from a fresh or just-connected state, `endpoint_count` failures
/// in a row end in the long wait, and every endpoint has been tried once.
pub proof fn lemma_round_of_failures(p: PolicyView)
    requires
        p.endpoint_count > 0,
        p.consecutive_fails == 0,
    ensures
        forall|k: nat|
            k + 1 < p.endpoint_count ==> #[trigger] fails_after(p, k + 1).1 == Backoff::Reconnect,
        fails_after(p, p.endpoint_count as nat).1 == Backoff::AllFailed,
        fails_after(p, p.endpoint_count as nat).0.consecutive_fails == 0,
{
    lemma_fails_count(p, p.endpoint_count as nat);
    assert forall|k: nat| k + 1 < p.endpoint_count implies #[trigger] fails_after(p, k + 1).1
        == Backoff::Reconnect by {
        lemma_fails_count(p, k + 1);
    }
}

/// State and last backoff after `k` failed attempts in a row (`k` ≥ 1).
pub open spec fn fails_after(p: PolicyView, k: nat) -> (PolicyView, Backoff)
    decreases k,
{
    if k <= 1 {
        after_failure(p)
    } else {
        after_failure(fails_after(p, (k - 1) as nat).0)
    }
}

proof fn lemma_fails_count(p: PolicyView, k: nat)
    requires
        p.endpoint_count > 0,
        p.consecutive_fails == 0,
        1 <= k <= p.endpoint_count,
    ensures
        fails_after(p, k).0.endpoint_count == p.endpoint_count,
        k < p.endpoint_count ==> fails_after(p, k).0.consecutive_fails == k,
        k < p.endpoint_count ==> fails_after(p, k).1 == Backoff::Reconnect,
        k == p.endpoint_count ==> fails_after(p, k).0.consecutive_fails == 0,
        k == p.endpoint_count ==> fails_after(p, k).1 == Backoff::AllFailed,
    decreases k,
{
    if k > 1 {
        lemma_fails_count(p, (k - 1) as nat);
    }
}

} // verus!
