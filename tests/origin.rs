use orbitsim::floating_origin::{find_observer, floating_origin_transform, RelocationError};

type V3 = [f64; 3];

fn narrow(p: V3, o: V3) -> [f32; 3] {
    [(p[0] - o[0]) as f32, (p[1] - o[1]) as f32, (p[2] - o[2]) as f32]
}

#[test]
fn relocation_subtracts_then_narrows() {
    let positions: Vec<V3> = vec![[100.0, 200.0, 300.0], [105.0, 203.0, 301.0]];
    let observers = vec![true, false];
    let mut transforms: Vec<[f32; 3]> = Vec::new();
    let r = floating_origin_transform(&positions, &observers, &mut transforms, narrow);
    assert_eq!(r, Ok(0));
    assert_eq!(transforms, vec![[0.0, 0.0, 0.0], [5.0, 3.0, 1.0]]);
}

#[test]
fn relocation_keeps_precision_far_from_origin() {
    let positions: Vec<V3> = vec![[1.0e12, 0.0, 0.0], [1.0e12 + 0.25, 0.0, -0.5]];
    let observers = vec![false, true];
    let mut transforms: Vec<[f32; 3]> = Vec::new();
    assert_eq!(floating_origin_transform(&positions, &observers, &mut transforms, narrow), Ok(1));
    assert_eq!(transforms, vec![[-0.25, 0.0, 0.5], [0.0, 0.0, 0.0]]);
}

#[test]
fn relocation_without_observer_changes_nothing() {
    let positions: Vec<V3> = vec![[1.0, 2.0, 3.0], [4.0, 5.0, 6.0]];
    let observers = vec![false, false];
    let mut transforms: Vec<[f32; 3]> = vec![[9.0, 9.0, 9.0], [8.0, 8.0, 8.0]];
    let r = floating_origin_transform(&positions, &observers, &mut transforms, narrow);
    assert_eq!(r, Err(RelocationError::MissingObserver));
    assert_eq!(transforms, vec![[9.0, 9.0, 9.0], [8.0, 8.0, 8.0]]);
}

#[test]
fn relocation_with_two_observers_changes_nothing() {
    let positions: Vec<V3> = vec![[1.0, 2.0, 3.0], [4.0, 5.0, 6.0], [7.0, 8.0, 9.0]];
    let observers = vec![true, false, true];
    let mut transforms: Vec<[f32; 3]> = vec![[1.0, 1.0, 1.0]];
    let r = floating_origin_transform(&positions, &observers, &mut transforms, narrow);
    assert_eq!(r, Err(RelocationError::MultipleObservers));
    assert_eq!(transforms, vec![[1.0, 1.0, 1.0]]);
}

#[test]
fn observer_is_found_by_flag() {
    assert_eq!(find_observer(&vec![]), Err(RelocationError::MissingObserver));
    assert_eq!(find_observer(&vec![false, false, true]), Ok(2));
    assert_eq!(find_observer(&vec![true, true]), Err(RelocationError::MultipleObservers));
    assert_eq!(find_observer(&vec![false, true, false, true]), Err(RelocationError::MultipleObservers));
}
