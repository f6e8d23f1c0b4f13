//! The heaviness timer: a leaky integrator bounded to `[0, D]`.
use vstd::prelude::*;

verus! {

/// Time it takes a held heaviness to saturate, in nanoseconds (five seconds).
pub const HEAVINESS_DURATION_NANOS: u64 = 5_000_000_000;

/// One tick of the timer: rises by `delta` while heavy, saturating at the
/// maximum; falls by `delta` otherwise, saturating at zero.
pub open spec fn timer_step(elapsed: nat, heaviness: bool, delta: nat) -> nat {
    if heaviness {
        if elapsed + delta >= HEAVINESS_DURATION_NANOS {
            HEAVINESS_DURATION_NANOS as nat
        } else {
            elapsed + delta
        }
    } else if elapsed >= delta {
        (elapsed - delta) as nat
    } else {
        0
    }
}

/// The timer after a sequence of ticks, each with the flag it was taken
/// under and its duration.
pub open spec fn timer_after(elapsed: nat, steps: Seq<(bool, nat)>) -> nat
    decreases steps.len(),
{
    if steps.len() == 0 {
        elapsed
    } else {
        timer_after(timer_step(elapsed, steps[0].0, steps[0].1), steps.drop_first())
    }
}

/// The total duration of a sequence of ticks.
pub open spec fn total_time(steps: Seq<(bool, nat)>) -> nat
    decreases steps.len(),
{
    if steps.len() == 0 {
        0
    } else {
        steps[0].1 + total_time(steps.drop_first())
    }
}

/// Every tick of `steps` is taken under the flag `heaviness`.
pub open spec fn all_under(steps: Seq<(bool, nat)>, heaviness: bool) -> bool {
    forall|k: int| 0 <= k < steps.len() ==> (#[trigger] steps[k]).0 == heaviness
}

/// Whatever the ticks, a timer that starts in `[0, D]` stays there.
pub proof fn lemma_timer_bounded(elapsed: nat, steps: Seq<(bool, nat)>)
    requires
        elapsed <= HEAVINESS_DURATION_NANOS,
    ensures
        0 <= timer_after(elapsed, steps) <= HEAVINESS_DURATION_NANOS,
    decreases steps.len(),
{
    if steps.len() > 0 {
        lemma_timer_bounded(timer_step(elapsed, steps[0].0, steps[0].1), steps.drop_first());
    }
}

proof fn lemma_held(elapsed: nat, steps: Seq<(bool, nat)>)
    requires
        elapsed <= HEAVINESS_DURATION_NANOS,
        all_under(steps, true),
    ensures
        timer_after(elapsed, steps) == if elapsed + total_time(steps) >= HEAVINESS_DURATION_NANOS {
            HEAVINESS_DURATION_NANOS as nat
        } else {
            elapsed + total_time(steps)
        },
    decreases steps.len(),
{
    if steps.len() > 0 {
        assert(steps[0].0);
        assert(all_under(steps.drop_first(), true)) by {
            assert forall|k: int| 0 <= k < steps.drop_first().len() implies (#[trigger] steps.drop_first()[k]).0 == true by {
                assert(steps.drop_first()[k] == steps[k + 1]);
            }
        }
        lemma_held(timer_step(elapsed, true, steps[0].1), steps.drop_first());
    }
}

proof fn lemma_released(elapsed: nat, steps: Seq<(bool, nat)>)
    requires
        all_under(steps, false),
    ensures
        timer_after(elapsed, steps) == if elapsed >= total_time(steps) {
            (elapsed - total_time(steps)) as nat
        } else {
            0
        },
    decreases steps.len(),
{
    if steps.len() > 0 {
        assert(!steps[0].0);
        assert(all_under(steps.drop_first(), false)) by {
            assert forall|k: int| 0 <= k < steps.drop_first().len() implies (#[trigger] steps.drop_first()[k]).0 == false by {
                assert(steps.drop_first()[k] == steps[k + 1]);
            }
        }
        lemma_released(timer_step(elapsed, false, steps[0].1), steps.drop_first());
    }
}

/// Holding heavy for at least `D` in all saturates a timer that started in
/// `[0, D]` at `D`.
pub proof fn lemma_hold_saturates(elapsed: nat, steps: Seq<(bool, nat)>)
    requires
        elapsed <= HEAVINESS_DURATION_NANOS,
        all_under(steps, true),
        total_time(steps) >= HEAVINESS_DURATION_NANOS,
    ensures
        timer_after(elapsed, steps) == HEAVINESS_DURATION_NANOS,
{
    lemma_held(elapsed, steps);
}

/// Staying light for at least `D` in all brings a timer that started in
/// `[0, D]` back to zero.
pub proof fn lemma_release_empties(elapsed: nat, steps: Seq<(bool, nat)>)
    requires
        elapsed <= HEAVINESS_DURATION_NANOS,
        all_under(steps, false),
        total_time(steps) >= HEAVINESS_DURATION_NANOS,
    ensures
        timer_after(elapsed, steps) == 0,
{
    lemma_released(elapsed, steps);
}

/// What a `Heavy` holds: the flag and the timer's elapsed time.
pub struct HeavyView {
    pub heaviness: bool,
    pub elapsed: nat,
}

/// The heaviness status of one ball: the flag the player controls and the
/// elapsed time of its timer.
#[derive(Clone, Copy, Debug)]
pub struct Heavy {
    heaviness: bool,
    elapsed_nanos: u64,
}

impl Heavy {
    #[verifier::type_invariant]
    spec fn bounded(&self) -> bool {
        self.elapsed_nanos <= HEAVINESS_DURATION_NANOS
    }

    pub closed spec fn view(&self) -> HeavyView {
        HeavyView { heaviness: self.heaviness, elapsed: self.elapsed_nanos as nat }
    }

    /// A light ball whose timer is at rest.
    pub fn new() -> (r: Heavy)
        ensures
            !r@.heaviness,
            r@.elapsed == 0,
    {
        Heavy { heaviness: false, elapsed_nanos: 0 }
    }

    /// Elapsed time of the timer, in nanoseconds.
    pub fn elapsed_nanos(&self) -> (r: u64)
        ensures
            r == self@.elapsed,
            r <= HEAVINESS_DURATION_NANOS,
    {
        proof { use_type_invariant(self); }
        self.elapsed_nanos
    }

    /// Advances the timer by one tick of `delta_nanos`.
    pub fn tick(&mut self, delta_nanos: u64)
        ensures
            final(self)@.heaviness == old(self)@.heaviness,
            final(self)@.elapsed <= HEAVINESS_DURATION_NANOS,
            final(self)@.elapsed == timer_step(old(self)@.elapsed, old(self)@.heaviness, delta_nanos as nat),
    {
        proof { use_type_invariant(&*self); }
        if self.heaviness {
            if delta_nanos >= HEAVINESS_DURATION_NANOS - self.elapsed_nanos {
                self.elapsed_nanos = HEAVINESS_DURATION_NANOS;
            } else {
                self.elapsed_nanos = self.elapsed_nanos + delta_nanos;
            }
        } else if self.elapsed_nanos >= delta_nanos {
            self.elapsed_nanos = self.elapsed_nanos - delta_nanos;
        } else {
            self.elapsed_nanos = 0;
        }
    }

    /// Sets the flag; the timer is left as it is.
    pub fn set_heaviness(&mut self, heaviness: bool)
        ensures
            final(self)@.heaviness == heaviness,
            final(self)@.elapsed == old(self)@.elapsed,
    {
        proof { use_type_invariant(&*self); }
        self.heaviness = heaviness;
    }

    /// The flag.
    pub fn heaviness(&self) -> (r: bool)
        ensures
            r == self@.heaviness,
    {
        self.heaviness
    }

    /// The time left before the timer saturates while heavy, zero while
    /// light, in nanoseconds. The added mass of a ball is this value times a
    /// fixed factor; it is derived anew each tick, never stored.
    pub fn mass_basis_nanos(&self) -> (r: u64)
        ensures
            r == if self@.heaviness {
                HEAVINESS_DURATION_NANOS - self@.elapsed
            } else {
                0int
            },
    {
        proof { use_type_invariant(self); }
        if self.heaviness {
            HEAVINESS_DURATION_NANOS - self.elapsed_nanos
        } else {
            0
        }
    }
}

} // verus!
