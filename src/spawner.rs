//! The countdown that decides when a new fruit drops.

use vstd::prelude::*;
use vstd::arithmetic::div_mod::{lemma_basic_div, lemma_div_plus_one, lemma_mod_sub_multiples_vanish};

verus! {

/// Wait before the first fruit of a game drops: 6 seconds, in microseconds.
pub const FIRST_DROP_WAIT: u64 = 6_000_000;

/// Wait between later drops: 3 seconds, in microseconds.
pub const DROP_INTERVAL: u64 = 3_000_000;

/// A countdown of `remaining` microseconds; when it runs out a fruit drops and
/// the countdown starts again from `interval`.
#[derive(Clone, Copy, Debug, PartialEq, Eq, Structural)]
pub struct Spawner {
    pub remaining: u64,
    pub interval: u64,
}

/// The countdown after `elapsed` more microseconds, and whether a fruit drops.
pub open spec fn spawner_step(s: Spawner, elapsed: int) -> (Spawner, bool) {
    if s.remaining > elapsed {
        (Spawner { remaining: (s.remaining - elapsed) as u64, ..s }, false)
    } else {
        (Spawner { remaining: s.interval, ..s }, true)
    }
}

/// How many fruit drop over `n` successive steps of `elapsed` microseconds.
pub open spec fn spawns_over(s: Spawner, elapsed: int, n: nat) -> nat
    decreases n,
{
    if n == 0 {
        0
    } else {
        let (next, dropped) = spawner_step(s, elapsed);
        (if dropped {
            1nat
        } else {
            0nat
        }) + spawns_over(next, elapsed, (n - 1) as nat)
    }
}

impl Spawner {
    /// A countdown that first runs for `first_wait`, then for `interval` after
    /// each drop.
    pub fn new(first_wait: u64, interval: u64) -> (r: Spawner)
        ensures
            r == (Spawner { remaining: first_wait, interval }),
    {
        Spawner { remaining: first_wait, interval }
    }

    /// Counts down `elapsed` microseconds. When the countdown reaches zero it
    /// starts again from the interval and the result is `true`: a fruit drops.
    pub fn tick(&mut self, elapsed: u64) -> (dropped: bool)
        ensures
            (*final(self), dropped) == spawner_step(*old(self), elapsed as int),
    {
        if self.remaining > elapsed {
            self.remaining = self.remaining - elapsed;
            false
        } else {
            self.remaining = self.interval;
            true
        }
    }
}

proof fn lemma_spawns_from(s: Spawner, elapsed: int, n: nat)
    requires
        0 < elapsed,
        0 < s.interval,
        s.interval as int % elapsed == 0,
        0 < s.remaining <= s.interval,
        s.remaining as int % elapsed == 0,
    ensures
        spawns_over(s, elapsed, n) == (n * elapsed + s.interval - s.remaining) / (s.interval as int),
    decreases n,
{
    let i = s.interval as int;
    let r = s.remaining as int;
    if n == 0 {
        lemma_basic_div(i - r, i);
    } else {
        let m = (n - 1) as nat;
        assert(n * elapsed == m * elapsed + elapsed) by (nonlinear_arith)
            requires
                m == n - 1,
        ;
        if r > elapsed {
            lemma_mod_sub_multiples_vanish(r, elapsed);
            let next = Spawner { remaining: (r - elapsed) as u64, ..s };
            assert(spawner_step(s, elapsed) == (next, false));
            lemma_spawns_from(next, elapsed, m);
        } else {
            assert(r == elapsed) by {
                if r < elapsed {
                    lemma_basic_div(r, elapsed);
                    assert(r % elapsed == r) by (nonlinear_arith)
                        requires
                            0 < r < elapsed,
                    ;
                }
            }
            let next = Spawner { remaining: s.interval, ..s };
            assert(spawner_step(s, elapsed) == (next, true));
            lemma_spawns_from(next, elapsed, m);
            lemma_div_plus_one(m * elapsed, i);
        }
    }
}

/// In steady state, with the countdown just restarted and each step's length
/// dividing the interval, the number of drops over `n` steps of `elapsed`
/// microseconds is exactly the elapsed time divided by the interval, rounded
/// down.
pub proof fn lemma_steady_spawn_count(interval: u64, elapsed: u64, n: nat)
    requires
        0 < elapsed,
        0 < interval,
        interval % elapsed == 0,
    ensures
        spawns_over(Spawner { remaining: interval, interval }, elapsed as int, n) == (n * elapsed)
            / (interval as int),
{
    lemma_spawns_from(Spawner { remaining: interval, interval }, elapsed as int, n);
}

} // verus!
