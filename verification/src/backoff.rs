//! The delay between attempts to reach KAI.

use vstd::prelude::*;

verus! {

/// The first delay, and the one after every successful connection, in seconds.
pub const INITIAL_BACKOFF_SECS: u64 = 1;

/// The longest delay, in seconds.
pub const MAX_BACKOFF_SECS: u64 = 30;

/// The delay that follows `secs`: twice as long, at most [`MAX_BACKOFF_SECS`].
pub open spec fn spec_next_backoff(secs: nat) -> nat {
    if 2 * secs <= MAX_BACKOFF_SECS {
        2 * secs
    } else {
        MAX_BACKOFF_SECS as nat
    }
}

/// The delay after `n` waits since the last reset.
pub open spec fn spec_backoff_after(n: nat) -> nat
    decreases n,
{
    if n == 0 {
        INITIAL_BACKOFF_SECS as nat
    } else {
        spec_next_backoff(spec_backoff_after((n - 1) as nat))
    }
}

/// The delay slept after an attempt to reach KAI, given the delay in force
/// before it: the initial delay when the attempt connected, that delay
/// otherwise.
pub open spec fn spec_delay_for(before: nat, connected: bool) -> nat {
    if connected {
        INITIAL_BACKOFF_SECS as nat
    } else {
        before
    }
}

/// The delays slept after a run of attempts, given for each whether it
/// reached KAI, starting from a fresh [`Backoff`]: each delay is the one in
/// force, which is the initial one at first and twice the last delay (capped)
/// afterwards, unless the attempt connected.
pub open spec fn spec_delays(connected: Seq<bool>) -> Seq<nat>
    decreases connected.len(),
{
    if connected.len() == 0 {
        Seq::empty()
    } else {
        let prev = spec_delays(connected.drop_last());
        let before = if prev.len() == 0 {
            INITIAL_BACKOFF_SECS as nat
        } else {
            spec_next_backoff(prev.last())
        };
        prev.push(spec_delay_for(before, connected.last()))
    }
}

/// The reconnect delay: starts at one second, doubles after each wait up to
/// thirty seconds, and goes back to one second once KAI is reached.
pub struct Backoff {
    secs: u64,
}

impl View for Backoff {
    type V = nat;

    closed spec fn view(&self) -> nat {
        self.secs as nat
    }
}

impl Backoff {
    #[verifier::type_invariant]
    closed spec fn within_bounds(self) -> bool {
        INITIAL_BACKOFF_SECS <= self.secs <= MAX_BACKOFF_SECS
    }

    /// The delay before the first retry.
    pub fn new() -> (b: Backoff)
        ensures
            b@ == INITIAL_BACKOFF_SECS,
    {
        Backoff { secs: INITIAL_BACKOFF_SECS }
    }

    /// The current delay, in seconds.
    pub fn secs(&self) -> (s: u64)
        ensures
            s == self@,
            INITIAL_BACKOFF_SECS <= s <= MAX_BACKOFF_SECS,
    {
        proof {
            use_type_invariant(self);
        }
        self.secs
    }

    /// An attempt to reach KAI is over, connected or not: gives the delay to
    /// sleep before the next attempt (the initial one if it connected, the
    /// one in force otherwise) and makes the following delay twice as long,
    /// up to the cap.
    pub fn next_delay(&mut self, connected: bool) -> (secs: u64)
        ensures
            secs == spec_delay_for(old(self)@, connected),
            final(self)@ == spec_next_backoff(secs as nat),
            INITIAL_BACKOFF_SECS <= secs <= MAX_BACKOFF_SECS,
    {
        if connected {
            self.reset();
        }
        let secs = self.secs();
        self.grow();
        secs
    }

    /// KAI was reached: the next delay is the initial one again.
    pub fn reset(&mut self)
        ensures
            final(self)@ == INITIAL_BACKOFF_SECS,
    {
        self.secs = INITIAL_BACKOFF_SECS;
    }

    /// A wait is over: the next delay doubles, up to the cap.
    pub fn grow(&mut self)
        ensures
            final(self)@ == spec_next_backoff(old(self)@),
    {
        proof {
            use_type_invariant(&*self);
        }
        if self.secs <= MAX_BACKOFF_SECS / 2 {
            self.secs = self.secs * 2;
        } else {
            self.secs = MAX_BACKOFF_SECS;
        }
    }
}

/// Over any run of attempts, the delay after attempt `i` is one second when
/// that attempt reached KAI or when it is the first one, and otherwise twice
/// the delay after attempt `i - 1`, capped at thirty seconds; every delay lies
/// between one and thirty seconds.
pub proof fn lemma_delays_over_attempts(connected: Seq<bool>)
    ensures
        spec_delays(connected).len() == connected.len(),
        forall|i: int|
            0 <= i < connected.len() ==> {
                &&& INITIAL_BACKOFF_SECS <= #[trigger] spec_delays(connected)[i] <= MAX_BACKOFF_SECS
                &&& spec_delays(connected)[i] == if connected[i] || i == 0 {
                    1
                } else if 2 * spec_delays(connected)[i - 1] <= 30 {
                    2 * spec_delays(connected)[i - 1]
                } else {
                    30
                }
            },
    decreases connected.len(),
{
    if connected.len() > 0 {
        let prefix = connected.drop_last();
        lemma_delays_over_attempts(prefix);
        let d = spec_delays(connected);
        let prev = spec_delays(prefix);
        assert forall|i: int| 0 <= i < connected.len() implies {
            &&& INITIAL_BACKOFF_SECS <= #[trigger] d[i] <= MAX_BACKOFF_SECS
            &&& d[i] == if connected[i] || i == 0 {
                1
            } else if 2 * d[i - 1] <= 30 {
                2 * d[i - 1]
            } else {
                30
            }
        } by {
            if i < connected.len() - 1 {
                assert(d[i] == prev[i]);
                assert(connected[i] == prefix[i]);
                if i > 0 {
                    assert(d[i - 1] == prev[i - 1]);
                }
            } else if i > 0 {
                assert(d[i - 1] == prev[i - 1]);
            }
        }
    }
}

/// Every delay lies between one and thirty seconds, and after `n` waits since
/// the last reset it is `2^n` seconds, capped at thirty.
pub proof fn lemma_backoff_schedule(n: nat)
    ensures
        INITIAL_BACKOFF_SECS <= spec_backoff_after(n) <= MAX_BACKOFF_SECS,
        spec_backoff_after(n) == if n < 5 {
            vstd::arithmetic::power2::pow2(n)
        } else {
            MAX_BACKOFF_SECS as nat
        },
    decreases n,
{
    vstd::arithmetic::power2::lemma2_to64();
    if n > 0 {
        lemma_backoff_schedule((n - 1) as nat);
        if n < 5 {
            vstd::arithmetic::power2::lemma_pow2_unfold(n);
        }
    }
}

} // verus!
