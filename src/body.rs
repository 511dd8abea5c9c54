//! The kinematic record of a body and the tags that classify bodies.
use vstd::prelude::*;

verus! {

/// Double-precision state of one body, generic over the vector type `V`
/// and the gravitational parameter type `M` (mass times G).
///
/// A body with a gravitational parameter is massive: it pulls on every other
/// body. Every body is an effector: it is pulled by every massive body but
/// itself. `acceleration` is the sum of the pulls of the current sub-step.
#[derive(Clone, Copy, Debug)]
pub struct BodyState<V, M> {
    pub position: V,
    pub velocity: V,
    pub acceleration: V,
    pub gravitational_parameter: Option<M>,
}

/// Tag of a body that the n-body pass acts upon.
#[derive(Clone, Copy, Debug, PartialEq, Eq, Structural)]
pub struct NBodyEffector;

/// Tag of a small craft: an effector without a gravitational parameter.
#[derive(Clone, Copy, Debug, PartialEq, Eq, Structural)]
pub struct Craft;

/// Tag of the label drawn next to a craft.
#[derive(Clone, Copy, Debug, PartialEq, Eq, Structural)]
pub struct CraftLabel;

/// How the camera frames a body it focuses on: at a fixed distance, or at a
/// distance scaled with the body.
#[derive(Clone, Copy, Debug, PartialEq, Eq, Hash, Structural)]
pub enum FocusType {
    Fixed,
    Scale,
}

/// The velocity and the zeroed acceleration that every new effector starts with.
#[derive(Clone, Copy, Debug)]
pub struct NBodyPassiveBundle<V> {
    pub effector: NBodyEffector,
    pub velocity: V,
    pub acceleration: V,
}

impl<V: Copy> NBodyPassiveBundle<V> {
    /// A bundle moving at `start_velocity` with no accumulated acceleration;
    /// `zero` is the zero vector of `V`.
    pub fn new(start_velocity: V, zero: V) -> (r: Self)
        ensures
            r.velocity == start_velocity,
            r.acceleration == zero,
    {
        NBodyPassiveBundle { effector: NBodyEffector, velocity: start_velocity, acceleration: zero }
    }
}

impl<V: Copy, M: Copy> BodyState<V, M> {
    /// An effector body at `position`, which pulls on nothing.
    pub fn effector(position: V, passive: NBodyPassiveBundle<V>) -> (r: Self)
        ensures
            r.position == position,
            r.velocity == passive.velocity,
            r.acceleration == passive.acceleration,
            r.gravitational_parameter is None,
    {
        BodyState {
            position,
            velocity: passive.velocity,
            acceleration: passive.acceleration,
            gravitational_parameter: None,
        }
    }

    /// A massive body at `position` with gravitational parameter `mu`.
    pub fn massive(position: V, passive: NBodyPassiveBundle<V>, mu: M) -> (r: Self)
        ensures
            r.position == position,
            r.velocity == passive.velocity,
            r.acceleration == passive.acceleration,
            r.gravitational_parameter == Some(mu),
    {
        BodyState {
            position,
            velocity: passive.velocity,
            acceleration: passive.acceleration,
            gravitational_parameter: Some(mu),
        }
    }
}

/// Which bodies of `bodies` are massive, by index.
pub open spec fn massive_flags<V, M>(bodies: Seq<BodyState<V, M>>) -> Seq<bool> {
    bodies.map_values(|b: BodyState<V, M>| b.gravitational_parameter is Some)
}

} // verus!
