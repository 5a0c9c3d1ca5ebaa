//! Fixed-step clock: turns variable frame times into a whole number of
//! physics steps of constant length, carrying the remainder over.
use vstd::prelude::*;

verus! {

/// Length of one physics step in nanoseconds (one 120th of a second).
pub const DEFAULT_STEP_NANOS: u64 = 8_333_333;

/// Accumulates elapsed time and hands it out in steps of `step_nanos`.
pub struct FixedStep {
    step_nanos: u64,
    pending: u64,
}

/// Number of whole steps due once `elapsed` more nanoseconds have passed.
pub open spec fn steps_due(pending: int, elapsed: int, step: int) -> int {
    (pending + elapsed) / step
}

impl FixedStep {
    /// The step is positive and less than one step is held back.
    pub open spec fn wf(&self) -> bool {
        self.step_spec() > 0 && 0 <= self.pending_spec() < self.step_spec()
    }

    pub closed spec fn step_spec(&self) -> int {
        self.step_nanos as int
    }

    pub closed spec fn pending_spec(&self) -> int {
        self.pending as int
    }

    /// A clock with nothing accumulated.
    pub fn new(step_nanos: u64) -> (clock: FixedStep)
        requires
            step_nanos > 0,
        ensures
            clock.wf(),
            clock.step_spec() == step_nanos,
            clock.pending_spec() == 0,
    {
        FixedStep { step_nanos, pending: 0 }
    }

    /// The step length in nanoseconds.
    pub fn step_nanos(&self) -> (r: u64)
        ensures
            r == self.step_spec(),
    {
        self.step_nanos
    }

    /// Time accumulated towards the next step, in nanoseconds.
    pub fn pending(&self) -> (r: u64)
        ensures
            r == self.pending_spec(),
    {
        self.pending
    }

    /// Adds `elapsed` nanoseconds and takes out every whole step now due;
    /// returns how many were taken.
    pub fn advance(&mut self, elapsed: u64) -> (steps: u128)
        requires
            old(self).wf(),
        ensures
            final(self).wf(),
            final(self).step_spec() == old(self).step_spec(),
            steps == steps_due(old(self).pending_spec(), elapsed as int, old(self).step_spec()),
            final(self).pending_spec() == (old(self).pending_spec() + elapsed) % old(self).step_spec(),
    {
        let total: u128 = self.pending as u128 + elapsed as u128;
        let step: u128 = self.step_nanos as u128;
        let steps = total / step;
        let rest = total % step;
        self.pending = rest as u64;
        steps
    }
}

/// A frame shorter than what is left of the current step runs no step.
pub proof fn lemma_short_frame_runs_no_step(clock: FixedStep, elapsed: u64)
    requires
        clock.wf(),
        clock.pending_spec() + elapsed < clock.step_spec(),
    ensures
        steps_due(clock.pending_spec(), elapsed as int, clock.step_spec()) == 0,
{
    let p = clock.pending_spec();
    let s = clock.step_spec();
    assert((p + elapsed) / s == 0) by (nonlinear_arith)
        requires
            0 <= p + elapsed < s,
    ;
}

/// A frame of exactly `k` steps runs exactly `k` steps, whatever was held
/// back before.
pub proof fn lemma_whole_steps_run_exactly(clock: FixedStep, k: nat)
    requires
        clock.wf(),
    ensures
        steps_due(clock.pending_spec(), k * clock.step_spec(), clock.step_spec()) == k,
{
    let p = clock.pending_spec();
    let s = clock.step_spec();
    vstd::arithmetic::div_mod::lemma_fundamental_div_mod_converse(p + k * s, s, k as int, p);
}

} // verus!
