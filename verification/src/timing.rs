//! Fixed-step time accounting: the step accumulator that decides how many
//! simulation steps a frame runs, and the repeating / one-shot timers used
//! by guns, bullets, camera shake and explosion animation.
//!
//! All durations are whole ticks; the caller picks the tick length.

use vstd::prelude::*;

verus! {

/// Largest tick count fed to any timer or clock in one call; keeps every
/// internal sum inside `u64`.
pub const MAX_DELTA: u64 = 0x4000_0000_0000_0000;

/// A countdown over whole ticks, repeating or one-shot.
#[derive(Clone, Copy, PartialEq, Eq, Structural, Debug)]
pub struct Timer {
    /// Ticks accumulated since the last expiry (repeating) or since the
    /// start (one-shot); never exceeds `duration`.
    pub elapsed: u64,
    /// Ticks per period; positive.
    pub duration: u64,
    /// A repeating timer wraps on expiry; a one-shot timer stays expired.
    pub repeating: bool,
}

impl Timer {
    /// Internal bounds every operation preserves.
    pub open spec fn wf(self) -> bool {
        &&& 1 <= self.duration <= MAX_DELTA
        &&& self.elapsed <= self.duration
        &&& (self.repeating ==> self.elapsed < self.duration)
    }

    pub fn new(duration: u64, repeating: bool) -> (t: Timer)
        requires
            1 <= duration <= MAX_DELTA,
        ensures
            t.wf(),
            t == (Timer { elapsed: 0, duration, repeating }),
    {
        Timer { elapsed: 0, duration, repeating }
    }

    /// Start the current period over.
    pub fn reset(&mut self)
        ensures
            *final(self) == (Timer { elapsed: 0, ..*old(self) }),
    {
        self.elapsed = 0;
    }

    /// Advance by `delta` ticks.  A repeating timer reports expiry whenever a
    /// period boundary was crossed and keeps the leftover; a one-shot timer
    /// reports only the tick on which it first reaches its duration.
    pub fn tick(&mut self, delta: u64) -> (fired: bool)
        requires
            old(self).wf(),
            delta <= MAX_DELTA,
        ensures
            final(self).wf(),
            final(self).duration == old(self).duration,
            final(self).repeating == old(self).repeating,
            old(self).repeating ==> {
                &&& fired == (old(self).elapsed + delta >= old(self).duration)
                &&& final(self).elapsed
                    == (old(self).elapsed + delta) % (old(self).duration as int)
            },
            !old(self).repeating ==> {
                &&& fired == (old(self).elapsed < old(self).duration
                    && old(self).elapsed + delta >= old(self).duration)
                &&& final(self).elapsed == if old(self).elapsed + delta
                    >= old(self).duration { old(self).duration as int } else {
                    old(self).elapsed + delta
                }
            },
    {
        let total: u64 = self.elapsed + delta;
        if self.repeating {
            if total >= self.duration {
                self.elapsed = total % self.duration;
                proof {
                    vstd::arithmetic::div_mod::lemma_mod_bound(
                        total as int,
                        self.duration as int,
                    );
                }
                true
            } else {
                self.elapsed = total;
                proof {
                    vstd::arithmetic::div_mod::lemma_small_mod(
                        total as nat,
                        self.duration as nat,
                    );
                }
                false
            }
        } else {
            if total >= self.duration {
                let fired = self.elapsed < self.duration;
                self.elapsed = self.duration;
                fired
            } else {
                self.elapsed = total;
                false
            }
        }
    }
}

/// The fixed-step accumulator: frames deposit elapsed ticks, and every whole
/// `step_ticks` in the deposit is one simulation step to run.
#[derive(Clone, Copy, PartialEq, Eq, Structural, Debug)]
pub struct FixedClock {
    /// Ticks deposited but not yet consumed by a whole step; below
    /// `step_ticks`.
    pub acc: u64,
    /// Ticks per simulation step; positive.
    pub step_ticks: u64,
}

impl FixedClock {
    pub open spec fn wf(self) -> bool {
        &&& 1 <= self.step_ticks <= MAX_DELTA
        &&& self.acc < self.step_ticks
    }

    pub fn new(step_ticks: u64) -> (c: FixedClock)
        requires
            1 <= step_ticks <= MAX_DELTA,
        ensures
            c.wf(),
            c == (FixedClock { acc: 0, step_ticks }),
    {
        FixedClock { acc: 0, step_ticks }
    }

    /// Deposit a frame's ticks; the result is how many whole simulation
    /// steps are now due, the remainder staying in the accumulator.
    pub fn advance(&mut self, delta: u64) -> (steps: u64)
        requires
            old(self).wf(),
            delta <= MAX_DELTA,
        ensures
            final(self).wf(),
            final(self).step_ticks == old(self).step_ticks,
            steps == (old(self).acc + delta) / (old(self).step_ticks as int),
            final(self).acc == (old(self).acc + delta) % (old(self).step_ticks as int),
            steps * old(self).step_ticks + final(self).acc == old(self).acc + delta,
    {
        let total: u64 = self.acc + delta;
        let steps: u64 = total / self.step_ticks;
        self.acc = total % self.step_ticks;
        proof {
            vstd::arithmetic::div_mod::lemma_fundamental_div_mod(
                total as int,
                self.step_ticks as int,
            );
        }
        steps
    }

    /// Progress into the next pending step, as the pair
    /// (ticks accumulated, ticks per step); the overstep fraction is their
    /// quotient, always in [0, 1).
    pub fn overstep(&self) -> (o: (u64, u64))
        ensures
            o.0 == self.acc,
            o.1 == self.step_ticks,
    {
        (self.acc, self.step_ticks)
    }
}

/// Sum of a sequence of frame deltas.
pub open spec fn sum_deltas(ds: Seq<int>) -> int
    decreases ds.len(),
{
    if ds.len() == 0 {
        0
    } else {
        ds[0] + sum_deltas(ds.drop_first())
    }
}

/// Accumulator left after draining the deltas `ds` through a clock that
/// started at `acc0`.
pub open spec fn drain_acc(acc0: int, ds: Seq<int>, step: int) -> int
    decreases ds.len(),
{
    if ds.len() == 0 {
        acc0
    } else {
        drain_acc((acc0 + ds[0]) % step, ds.drop_first(), step)
    }
}

/// Total simulation steps produced by draining the deltas `ds` through a
/// clock that started at `acc0`.
pub open spec fn drain_steps(acc0: int, ds: Seq<int>, step: int) -> int
    decreases ds.len(),
{
    if ds.len() == 0 {
        0
    } else {
        (acc0 + ds[0]) / step + drain_steps((acc0 + ds[0]) % step, ds.drop_first(), step)
    }
}

/// Step independence: however a span of elapsed time is cut into frame
/// deltas, the clock runs the same number of simulation steps and is left
/// with the same remainder — both depend only on the sum of the deltas.
pub proof fn lemma_step_independence(acc0: int, ds: Seq<int>, step: int)
    requires
        1 <= step,
        0 <= acc0 < step,
        forall|i: int| 0 <= i < ds.len() ==> #[trigger] ds[i] >= 0,
    ensures
        drain_steps(acc0, ds, step) == (acc0 + sum_deltas(ds)) / step,
        drain_acc(acc0, ds, step) == (acc0 + sum_deltas(ds)) % step,
    decreases ds.len(),
{
    if ds.len() == 0 {
        vstd::arithmetic::div_mod::lemma_basic_div(acc0, step);
        vstd::arithmetic::div_mod::lemma_small_mod(acc0 as nat, step as nat);
    } else {
        let d0 = ds[0];
        let rest = ds.drop_first();
        let q = (acc0 + d0) / step;
        let r = (acc0 + d0) % step;
        vstd::arithmetic::div_mod::lemma_fundamental_div_mod(acc0 + d0, step);
        vstd::arithmetic::div_mod::lemma_mod_bound(acc0 + d0, step);
        assert(forall|i: int| 0 <= i < rest.len() ==> #[trigger] rest[i] >= 0);
        lemma_step_independence(r, rest, step);
        // acc0 + d0 == step * q + r, so adding the rest of the deltas shifts
        // the whole-step count by exactly q and leaves the remainder alone.
        let tail = r + sum_deltas(rest);
        vstd::arithmetic::div_mod::lemma_hoist_over_denominator(tail, q, step as nat);
        vstd::arithmetic::div_mod::lemma_mod_multiples_vanish(q, tail, step);
        assert(acc0 + sum_deltas(ds) == tail + q * step);
        assert(step * q + tail == tail + q * step) by {
            vstd::arithmetic::mul::lemma_mul_is_commutative(step, q);
        }
    }
}

} // verus!
