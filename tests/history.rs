use orbitsim::body::BodyState;
use orbitsim::history::{OrbitHistory, OrbitHistoryMaxSize, OrbitHistoryPlugin};
use orbitsim::objects::{SpawnCraftPlugin, SpawnPlanetsPlugin};

type V3 = [f64; 3];

fn relative(own: V3, r: V3, last: V3) -> [f32; 3] {
    [
        (own[0] - r[0] + last[0]) as f32,
        (own[1] - r[1] + last[1]) as f32,
        (own[2] - r[2] + last[2]) as f32,
    ]
}

fn absolute(own: V3) -> [f32; 3] {
    [own[0] as f32, own[1] as f32, own[2] as f32]
}

fn history_of(samples: &[V3], max: usize) -> OrbitHistory<V3> {
    let mut h = OrbitHistory::new(OrbitHistoryMaxSize(max));
    for s in samples {
        h.push_sample(*s);
    }
    h
}

#[test]
fn full_history_evicts_oldest() {
    let p1 = [1.0, 0.0, 0.0];
    let p2 = [2.0, 0.0, 0.0];
    let p3 = [3.0, 0.0, 0.0];
    let p4 = [4.0, 0.0, 0.0];
    let h = history_of(&[p1, p2, p3, p4], 3);
    assert_eq!(h.to_vec(), vec![p2, p3, p4]);
    assert_eq!(h.len(), 3);
    assert_eq!(h.max_size(), OrbitHistoryMaxSize(3));
}

#[test]
fn history_below_bound_keeps_everything() {
    let h = history_of(&[[1.0, 1.0, 1.0], [2.0, 2.0, 2.0]], 3);
    assert_eq!(h.to_vec(), vec![[1.0, 1.0, 1.0], [2.0, 2.0, 2.0]]);
}

#[test]
fn history_of_bound_zero_stays_empty() {
    let h = history_of(&[[1.0, 1.0, 1.0], [2.0, 2.0, 2.0]], 0);
    assert_eq!(h.len(), 0);
}

#[test]
fn default_bound_is_a_million() {
    assert_eq!(OrbitHistoryMaxSize::default(), OrbitHistoryMaxSize(1_000_000));
}

#[test]
fn trail_is_realigned_to_reference() {
    let reference = history_of(&[[0.0, 0.0, 0.0], [1.0, 0.0, 0.0]], 10);
    let target = history_of(&[[5.0, 5.0, 0.0], [6.0, 5.0, 0.0]], 10);
    let points = target.trail(Some(&reference), &relative, &absolute);
    assert_eq!(points, vec![[6.0, 5.0, 0.0], [6.0, 5.0, 0.0]]);
}

#[test]
fn trail_aligns_unequal_lengths_by_age() {
    let reference = history_of(&[[0.0, 0.0, 0.0], [1.0, 0.0, 0.0], [2.0, 0.0, 0.0]], 10);
    let target = history_of(&[[10.0, 0.0, 0.0], [20.0, 0.0, 0.0]], 10);
    // newest samples pair up: 10 with 1, 20 with 2; anchored at 2
    let points = target.trail(Some(&reference), &relative, &absolute);
    assert_eq!(points, vec![[11.0, 0.0, 0.0], [20.0, 0.0, 0.0]]);
    let back = reference.trail(Some(&target), &relative, &absolute);
    assert_eq!(back, vec![[11.0, 0.0, 0.0], [2.0, 0.0, 0.0]]);
}

#[test]
fn trail_without_reference_is_absolute() {
    let target = history_of(&[[5.0, 5.0, 0.0], [6.0, 5.0, 0.0]], 10);
    assert_eq!(target.trail(None, &relative, &absolute), vec![[5.0, 5.0, 0.0], [6.0, 5.0, 0.0]]);
    let empty = history_of(&[], 10);
    assert!(target.trail(Some(&empty), &relative, &absolute).is_empty());
}

#[test]
fn tracker_samples_and_realigns() {
    let zero = [0.0, 0.0, 0.0];
    let mut bodies: Vec<BodyState<V3, f64>> = Vec::new();
    let mut tracker: OrbitHistoryPlugin<V3> = OrbitHistoryPlugin::new(OrbitHistoryMaxSize(2));
    let sun = SpawnPlanetsPlugin::spawn(&mut bodies, &mut tracker, zero, zero, zero, 1.0);
    let probe = SpawnCraftPlugin::spawn(&mut bodies, &mut tracker, [1.0, 0.0, 0.0], [0.0, 1.0, 0.0], zero);
    assert_eq!((sun, probe), (0, 1));
    assert_eq!(bodies[0].gravitational_parameter, Some(1.0));
    assert_eq!(bodies[1].gravitational_parameter, None);
    assert_eq!(bodies[1].velocity, [0.0, 1.0, 0.0]);
    assert_eq!(tracker.len(), 2);

    tracker.sample(&vec![[0.0, 0.0, 0.0], [1.0, 0.0, 0.0]]);
    tracker.sample(&vec![[1.0, 0.0, 0.0], [1.0, 1.0, 0.0]]);
    tracker.sample(&vec![[2.0, 0.0, 0.0], [2.0, 2.0, 0.0]]);
    assert_eq!(tracker.history(0).to_vec(), vec![[1.0, 0.0, 0.0], [2.0, 0.0, 0.0]]);
    assert_eq!(tracker.history(1).to_vec(), vec![[1.0, 1.0, 0.0], [2.0, 2.0, 0.0]]);

    let trails = tracker.trails(relative, absolute);
    assert_eq!(trails[1], vec![[1.0, 1.0, 0.0], [2.0, 2.0, 0.0]]);

    tracker.select_reference(Some(0));
    let trails = tracker.trails(relative, absolute);
    assert_eq!(trails[0], vec![[2.0, 0.0, 0.0], [2.0, 0.0, 0.0]]);
    assert_eq!(trails[1], vec![[2.0, 1.0, 0.0], [2.0, 2.0, 0.0]]);
}

#[test]
fn unresolved_reference_falls_back_to_absolute() {
    let mut tracker: OrbitHistoryPlugin<V3> = OrbitHistoryPlugin::new(OrbitHistoryMaxSize(4));
    tracker.track();
    tracker.sample(&vec![[3.0, 4.0, 5.0]]);
    tracker.select_reference(Some(7));
    assert!(tracker.reference().is_none());
    let trails = tracker.trails(relative, absolute);
    assert_eq!(trails, vec![vec![[3.0, 4.0, 5.0]]]);
}

#[test]
fn update_samples_before_drawing() {
    let mut tracker: OrbitHistoryPlugin<V3> = OrbitHistoryPlugin::new(OrbitHistoryMaxSize(3));
    tracker.track();
    tracker.track();
    tracker.select_reference(Some(1));
    tracker.sample(&vec![[0.0, 0.0, 0.0], [10.0, 0.0, 0.0]]);
    let trails = tracker.update_orbit_history(&vec![[1.0, 0.0, 0.0], [20.0, 0.0, 0.0]], relative, absolute);
    // the newest samples are already in: the reference stays at its current place
    assert_eq!(trails[1], vec![[20.0, 0.0, 0.0], [20.0, 0.0, 0.0]]);
    assert_eq!(trails[0], vec![[10.0, 0.0, 0.0], [1.0, 0.0, 0.0]]);
    assert_eq!(tracker.history(0).len(), 2);
}
