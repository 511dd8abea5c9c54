//! Configuration of the physics sub-steps.
use vstd::prelude::*;
use crate::body::BodyState;
use crate::integrator::{integrate_time, integrated};
use crate::nbody::{accumulated, nbody_accelerate};

verus! {

/// How many times the force and integration pair runs per rendered frame.
#[derive(Clone, Copy, Debug, PartialEq, Eq, Structural)]
pub struct PhysicsTimeScale(pub u16);

/// Integer multiple applied to the duration of each sub-step.
#[derive(Clone, Copy, Debug, PartialEq, Eq, Structural)]
pub struct PhysicsStepScale(pub u16);

/// The ordered phases of one physics frame: `Forces` runs before
/// `Integration`, and both belong to `All`.
#[derive(Clone, Copy, Debug, PartialEq, Eq, Hash, Structural)]
pub enum PhysicsSet {
    All,
    Forces,
    Integration,
}

impl PhysicsTimeScale {
    /// Number of sub-steps that a scale stands for: never fewer than one.
    pub open spec fn spec_substeps(self) -> nat {
        if self.0 == 0 {
            1
        } else {
            self.0 as nat
        }
    }

    /// Number of sub-steps to run this frame; a scale of zero runs one.
    pub fn substeps(&self) -> (r: u16)
        ensures
            r as nat == self.spec_substeps(),
            r >= 1,
    {
        if self.0 == 0 {
            1
        } else {
            self.0
        }
    }
}

impl Default for PhysicsTimeScale {
    fn default() -> (r: Self)
        ensures
            r.0 == 1,
    {
        PhysicsTimeScale(1)
    }
}

impl Default for PhysicsStepScale {
    fn default() -> (r: Self)
        ensures
            r.0 == 1,
    {
        PhysicsStepScale(1)
    }
}

impl PhysicsSet {
    /// Position of a phase in a frame; `All` encloses the others.
    pub open spec fn rank(self) -> int {
        match self {
            PhysicsSet::All => 0,
            PhysicsSet::Forces => 1,
            PhysicsSet::Integration => 2,
        }
    }

    /// Whether phase `self` must be complete before phase `later` starts.
    pub fn runs_before(&self, later: &PhysicsSet) -> (r: bool)
        ensures
            r == (self.rank() > 0 && self.rank() < later.rank()),
    {
        match (self, later) {
            (PhysicsSet::Forces, PhysicsSet::Integration) => true,
            _ => false,
        }
    }
}

/// Physics settings threaded through each frame: sub-steps per frame and
/// the multiplier on each sub-step's duration. Both start at one.
#[derive(Clone, Copy, Debug, PartialEq, Eq, Structural)]
pub struct PhysicPlugin {
    pub time_scale: PhysicsTimeScale,
    pub step_scale: PhysicsStepScale,
}

impl PhysicPlugin {
    pub fn new() -> (r: Self)
        ensures
            r.time_scale.0 == 1,
            r.step_scale.0 == 1,
    {
        PhysicPlugin { time_scale: PhysicsTimeScale(1), step_scale: PhysicsStepScale(1) }
    }

    /// Number of force and integration pairs to run this frame.
    pub fn substeps(&self) -> (r: u16)
        ensures
            r as nat == self.time_scale.spec_substeps(),
            r >= 1,
    {
        self.time_scale.substeps()
    }
}

/// `after` is `before` after one sub-step: the force pass, then the
/// integration step on the accelerations it summed.
pub open spec fn substep<V, M, P: Fn(V, V, V, M) -> V, K: Fn(V, V) -> V, D: Fn(V, V) -> V>(
    before: Seq<BodyState<V, M>>,
    after: Seq<BodyState<V, M>>,
    pull: P,
    kick: K,
    drift: D,
    zero: V,
) -> bool {
    exists|mid: Seq<BodyState<V, M>>|
        accumulated(before, mid, pull) && #[trigger] integrated(mid, after, kick, drift, zero)
}

/// `after` is `before` after `count` sub-steps, one after the other.
pub open spec fn substeps_from<V, M, P: Fn(V, V, V, M) -> V, K: Fn(V, V) -> V, D: Fn(V, V) -> V>(
    before: Seq<BodyState<V, M>>,
    after: Seq<BodyState<V, M>>,
    count: nat,
    pull: P,
    kick: K,
    drift: D,
    zero: V,
) -> bool {
    exists|trace: Seq<Seq<BodyState<V, M>>>|
        {
            &&& trace.len() == count + 1
            &&& trace[0] == before
            &&& trace[count as int] == after
            &&& forall|j: int|
                0 <= j < count ==> #[trigger] substep(trace[j], trace[j + 1], pull, kick, drift, zero)
        }
}

impl PhysicPlugin {
    /// The physics of one rendered frame: the force pass and then the
    /// integration step, repeated as many times as `substeps` says. `kick`
    /// and `drift` carry the sub-step's duration, which is the frame's
    /// duration divided by that count and multiplied by the step scale.
    pub fn advance<V: Copy, M: Copy, P: Fn(V, V, V, M) -> V, K: Fn(V, V) -> V, D: Fn(V, V) -> V>(
        &self,
        bodies: &mut Vec<BodyState<V, M>>,
        pull: &P,
        kick: &K,
        drift: &D,
        zero: V,
    )
        requires
            forall|a: V, t: V, s: V, m: M| pull.requires((a, t, s, m)),
            forall|v: V, a: V| kick.requires((v, a)),
            forall|p: V, v: V| drift.requires((p, v)),
        ensures
            substeps_from(
                old(bodies)@,
                final(bodies)@,
                self.time_scale.spec_substeps(),
                *pull,
                *kick,
                *drift,
                zero,
            ),
    {
        let count = self.substeps();
        let ghost mut trace: Seq<Seq<BodyState<V, M>>> = seq![bodies@];
        let mut done: u16 = 0;
        while done < count
            invariant
                done <= count,
                count as nat == self.time_scale.spec_substeps(),
                trace.len() == done + 1,
                trace[0] == old(bodies)@,
                trace[done as int] == bodies@,
                forall|a: V, t: V, s: V, m: M| pull.requires((a, t, s, m)),
                forall|v: V, a: V| kick.requires((v, a)),
                forall|p: V, v: V| drift.requires((p, v)),
                forall|j: int|
                    0 <= j < done ==> #[trigger] substep(
                        trace[j],
                        trace[j + 1],
                        *pull,
                        *kick,
                        *drift,
                        zero,
                    ),
            decreases count - done,
        {
            let ghost before = bodies@;
            nbody_accelerate(bodies, pull);
            let ghost mid = bodies@;
            integrate_time(bodies, kick, drift, zero);
            proof {
                assert(accumulated(before, mid, *pull));
                assert(integrated(mid, bodies@, *kick, *drift, zero));
                assert(substep(before, bodies@, *pull, *kick, *drift, zero));
                trace = trace.push(bodies@);
            }
            done += 1;
        }
    }
}

} // verus!
