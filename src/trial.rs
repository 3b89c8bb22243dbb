//! The decisions of one Lyapunov trial: after each measured step of the
//! orbit, whether the trial goes on, or fails because the orbit escaped or
//! has settled on a fixed point.
use vstd::prelude::*;

verus! {

/// Steps without movement, net of steps with movement, that end a trial.
pub const STUCK_LIMIT: u32 = 15;

/// What one measured step of a trial decides.
#[derive(PartialEq, Eq, Structural, Clone, Copy, Debug)]
pub enum StepVerdict {
    /// The orbit is bounded and still moving: the step counts.
    Continue,
    /// The orbit left the threshold or stopped being finite.
    Diverged,
    /// The orbit has barely moved too often: it sits on a fixed point.
    Stuck,
}

/// A counter of steps on which the orbit barely moved, lowered again by
/// each step on which it did move, never below zero.
pub struct FixedPointGuard {
    stuck: u32,
}

impl FixedPointGuard {
    pub closed spec fn spec_stuck(&self) -> nat {
        self.stuck as nat
    }

    /// A guard that has seen no step.
    pub fn new() -> (g: Self)
        ensures
            g.spec_stuck() == 0,
    {
        FixedPointGuard { stuck: 0 }
    }

    pub fn stuck(&self) -> (r: u32)
        ensures
            r == self.spec_stuck(),
    {
        self.stuck
    }

    /// Notes one step; tells whether the orbit has now barely moved on
    /// `STUCK_LIMIT` more steps than it moved.
    pub fn observe(&mut self, barely_moved: bool) -> (settled: bool)
        requires
            old(self).spec_stuck() < STUCK_LIMIT,
        ensures
            barely_moved ==> final(self).spec_stuck() == old(self).spec_stuck() + 1,
            !barely_moved ==> final(self).spec_stuck() == if old(self).spec_stuck() > 0 {
                (old(self).spec_stuck() - 1) as nat
            } else {
                0
            },
            settled == (final(self).spec_stuck() >= STUCK_LIMIT),
    {
        if barely_moved {
            self.stuck = self.stuck + 1;
        } else if self.stuck > 0 {
            self.stuck = self.stuck - 1;
        }
        self.stuck >= STUCK_LIMIT
    }
}

/// Judges one measured step of a trial from what the orbit did: `escaped`
/// when the new point lies past the divergence threshold or is not finite,
/// `barely_moved` when a coordinate changed by less than the movement
/// tolerance. Escape is judged first and leaves the guard as it was.
pub fn judge_step(guard: &mut FixedPointGuard, escaped: bool, barely_moved: bool) -> (v: StepVerdict)
    requires
        old(guard).spec_stuck() < STUCK_LIMIT,
    ensures
        escaped ==> v == StepVerdict::Diverged && final(guard).spec_stuck() == old(guard).spec_stuck(),
        !escaped && barely_moved ==> final(guard).spec_stuck() == old(guard).spec_stuck() + 1,
        !escaped && !barely_moved ==> final(guard).spec_stuck() == if old(guard).spec_stuck() > 0 {
            (old(guard).spec_stuck() - 1) as nat
        } else {
            0
        },
        !escaped ==> (v == StepVerdict::Stuck <==> final(guard).spec_stuck() >= STUCK_LIMIT),
        !escaped ==> (v == StepVerdict::Continue <==> final(guard).spec_stuck() < STUCK_LIMIT),
{
    if escaped {
        return StepVerdict::Diverged;
    }
    if guard.observe(barely_moved) {
        StepVerdict::Stuck
    } else {
        StepVerdict::Continue
    }
}

} // verus!
