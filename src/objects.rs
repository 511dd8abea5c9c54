//! Populating the world: each body is created together with its history.
use vstd::prelude::*;
use crate::body::{BodyState, NBodyPassiveBundle};
use crate::history::OrbitHistoryPlugin;

verus! {

/// The phases of world population, in the order they run.
#[derive(Clone, Copy, Debug, PartialEq, Eq, Hash, Structural)]
pub enum ObjectSets {
    SpawnPlanet,
    SpawnCraft,
    SpawnCamera,
}

/// The phases of camera control within a frame.
#[derive(Clone, Copy, Debug, PartialEq, Eq, Hash, Structural)]
pub enum CameraSets {
    CameraAll,
    MoveCamera,
    TrackFocus,
}

/// Creation of massive bodies (planets).
pub struct SpawnPlanetsPlugin;

/// Creation of effector bodies that pull on nothing (crafts).
pub struct SpawnCraftPlugin;

/// Appends `body` to `bodies` and an empty history for it to `tracker`, so
/// that body `i` keeps history `i`.
fn spawn_body<V: Copy, M: Copy>(
    bodies: &mut Vec<BodyState<V, M>>,
    tracker: &mut OrbitHistoryPlugin<V>,
    body: BodyState<V, M>,
) -> (index: usize)
    requires
        old(bodies)@.len() == old(tracker).histories().len(),
        old(tracker).wf(),
    ensures
        index == old(bodies)@.len(),
        final(bodies)@ == old(bodies)@.push(body),
        final(tracker).wf(),
        final(tracker).histories() == old(tracker).histories().push(Seq::<V>::empty()),
        final(tracker).capacity() == old(tracker).capacity(),
        final(tracker).selected() == old(tracker).selected(),
{
    let index = bodies.len();
    bodies.push(body);
    let _ = tracker.track();
    index
}

impl SpawnPlanetsPlugin {
    /// Adds a planet at `position`, moving at `velocity`, with gravitational
    /// parameter `mu` and a new empty orbit history; returns its index.
    pub fn spawn<V: Copy, M: Copy>(
        bodies: &mut Vec<BodyState<V, M>>,
        tracker: &mut OrbitHistoryPlugin<V>,
        position: V,
        velocity: V,
        zero: V,
        mu: M,
    ) -> (index: usize)
        requires
            old(bodies)@.len() == old(tracker).histories().len(),
            old(tracker).wf(),
        ensures
            index == old(bodies)@.len(),
            final(bodies)@ == old(bodies)@.push(
                (BodyState {
                    position,
                    velocity,
                    acceleration: zero,
                    gravitational_parameter: Some(mu),
                }),
            ),
            final(tracker).wf(),
            final(tracker).histories() == old(tracker).histories().push(Seq::<V>::empty()),
            final(tracker).capacity() == old(tracker).capacity(),
            final(tracker).selected() == old(tracker).selected(),
    {
        let passive = NBodyPassiveBundle::new(velocity, zero);
        spawn_body(bodies, tracker, BodyState::massive(position, passive, mu))
    }
}

impl SpawnCraftPlugin {
    /// Adds a craft at `position`, moving at `velocity`, with a new empty
    /// orbit history; returns its index.
    pub fn spawn<V: Copy, M: Copy>(
        bodies: &mut Vec<BodyState<V, M>>,
        tracker: &mut OrbitHistoryPlugin<V>,
        position: V,
        velocity: V,
        zero: V,
    ) -> (index: usize)
        requires
            old(bodies)@.len() == old(tracker).histories().len(),
            old(tracker).wf(),
        ensures
            index == old(bodies)@.len(),
            final(bodies)@ == old(bodies)@.push(
                (BodyState { position, velocity, acceleration: zero, gravitational_parameter: None }),
            ),
            final(tracker).wf(),
            final(tracker).histories() == old(tracker).histories().push(Seq::<V>::empty()),
            final(tracker).capacity() == old(tracker).capacity(),
            final(tracker).selected() == old(tracker).selected(),
    {
        let passive = NBodyPassiveBundle::new(velocity, zero);
        spawn_body(bodies, tracker, BodyState::effector(position, passive))
    }
}

} // verus!
