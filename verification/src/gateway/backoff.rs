//! How long to wait before connecting again.

use vstd::arithmetic::power2::{lemma_pow2_unfold, lemma2_to64, pow2};
use vstd::prelude::*;

verus! {

/// The time to wait after a session has failed: between 1 and 30 seconds.
#[derive(Debug)]
pub struct Backoff {
    secs: u64,
}

/// The wait after a wait of `secs`: twice as long, up to 30 seconds.
pub open spec fn next_wait(secs: int) -> int {
    if 2 * secs < 30 {
        2 * secs
    } else {
        30
    }
}

/// The wait after `n` failures in a row.
pub open spec fn wait_after(n: nat) -> int
    decreases n,
{
    if n == 0 {
        1
    } else {
        next_wait(wait_after((n - 1) as nat))
    }
}

impl Backoff {
    #[verifier::type_invariant]
    spec fn bounded(self) -> bool {
        1 <= self.secs <= 30
    }

    /// The wait in seconds.
    pub closed spec fn wait(self) -> int {
        self.secs as int
    }

    /// Before the first session.
    pub fn new() -> (r: Backoff)
        ensures
            r.wait() == wait_after(0),
    {
        Backoff { secs: 1 }
    }

    /// A session has ended: how long to wait in seconds, if at all. A session that
    /// ended in order starts the count anew.
    pub fn after_session(&mut self, succeeded: bool) -> (sleep: Option<u64>)
        ensures
            succeeded ==> sleep is None && final(self).wait() == wait_after(0),
            !succeeded ==> {
                &&& sleep is Some
                &&& sleep->0 == old(self).wait()
                &&& 1 <= sleep->0 <= 30
                &&& final(self).wait() == next_wait(old(self).wait())
            },
    {
        proof {
            use_type_invariant(&*self);
        }
        if succeeded {
            self.secs = 1;
            None
        } else {
            let secs: u64 = self.secs;
            self.secs = if secs * 2 < 30 {
                secs * 2
            } else {
                30
            };
            Some(secs)
        }
    }
}

/// The wait doubles with every failure in a row, up to 30 seconds.
pub proof fn waits_double_up_to_thirty(n: nat)
    ensures
        wait_after(n) == if pow2(n) < 30 {
            pow2(n) as int
        } else {
            30
        },
        1 <= wait_after(n) <= 30,
    decreases n,
{
    lemma2_to64();
    if n > 0 {
        waits_double_up_to_thirty((n - 1) as nat);
        lemma_pow2_unfold(n);
    }
}

/// The next wait is twice as long, but never longer than 30 seconds.
pub proof fn next_waits_are_twice_as_long(secs: int)
    ensures
        next_wait(secs) <= 2 * secs,
        next_wait(secs) <= 30,
        next_wait(secs) == 2 * secs || next_wait(secs) == 30,
        wait_after(0) == 1,
{
}

} // verus!
