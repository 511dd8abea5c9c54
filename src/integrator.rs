//! The semi-implicit (symplectic) Euler step.
use vstd::prelude::*;
use crate::body::BodyState;

verus! {

/// `after` is `before` advanced by one semi-implicit Euler step: the velocity
/// is kicked by the acceleration first, the position then drifts by the *new*
/// velocity, and the acceleration is reset to `zero`.
pub open spec fn semi_implicit_step<V, M, K: Fn(V, V) -> V, D: Fn(V, V) -> V>(
    before: BodyState<V, M>,
    after: BodyState<V, M>,
    kick: K,
    drift: D,
    zero: V,
) -> bool {
    &&& kick.ensures((before.velocity, before.acceleration), after.velocity)
    &&& drift.ensures((before.position, after.velocity), after.position)
    &&& after.acceleration == zero
    &&& after.gravitational_parameter == before.gravitational_parameter
}

/// `after` is `before` with every body advanced by one semi-implicit step.
pub open spec fn integrated<V, M, K: Fn(V, V) -> V, D: Fn(V, V) -> V>(
    before: Seq<BodyState<V, M>>,
    after: Seq<BodyState<V, M>>,
    kick: K,
    drift: D,
    zero: V,
) -> bool {
    &&& after.len() == before.len()
    &&& forall|i: int|
        0 <= i < before.len() ==> semi_implicit_step(before[i], #[trigger] after[i], kick, drift, zero)
}

/// Advances every body by one sub-step and resets its acceleration.
///
/// `kick(v, a)` is `v + a * dt` and `drift(p, v)` is `p + v * dt` for the
/// sub-step's `dt`; `zero` is the zero vector. Each body's new velocity is
/// computed from its old velocity and acceleration, and its new position from
/// its old position and that new velocity.
pub fn integrate_time<V: Copy, M: Copy, K: Fn(V, V) -> V, D: Fn(V, V) -> V>(
    bodies: &mut Vec<BodyState<V, M>>,
    kick: K,
    drift: D,
    zero: V,
)
    requires
        forall|v: V, a: V| kick.requires((v, a)),
        forall|p: V, v: V| drift.requires((p, v)),
    ensures
        integrated(old(bodies)@, final(bodies)@, kick, drift, zero),
        forall|i: int| 0 <= i < final(bodies)@.len() ==> (#[trigger] final(bodies)@[i]).acceleration == zero,
{
    let n = bodies.len();
    let mut i: usize = 0;
    while i < n
        invariant
            i <= n,
            n == old(bodies)@.len(),
            bodies@.len() == n,
            forall|v: V, a: V| kick.requires((v, a)),
            forall|p: V, v: V| drift.requires((p, v)),
            forall|j: int|
                0 <= j < i ==> semi_implicit_step(
                    old(bodies)@[j],
                    #[trigger] bodies@[j],
                    kick,
                    drift,
                    zero,
                ),
            forall|j: int| i <= j < n ==> #[trigger] bodies@[j] == old(bodies)@[j],
        decreases n - i,
    {
        let body = bodies[i];
        let velocity = kick(body.velocity, body.acceleration);
        let position = drift(body.position, velocity);
        bodies.set(
            i,
            BodyState {
                position,
                velocity,
                acceleration: zero,
                gravitational_parameter: body.gravitational_parameter,
            },
        );
        i += 1;
    }
}

} // verus!
