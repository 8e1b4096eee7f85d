use solar_system_sim::bodies::{BodyError, BodyStore, Coord, Mass, Velocity};
use solar_system_sim::trajectory::Trajectory;

type V = [f64; 3];

fn store_with(bodies: &[(u64, u128, V, V)]) -> BodyStore<V> {
    let mut s = BodyStore::new();
    for &(id, m, p, v) in bodies {
        assert_eq!(s.create(id, Mass(m), Coord(p), Velocity(v)), Ok(()));
    }
    s
}

#[test]
fn trajectory_starts_empty() {
    let t: Trajectory<V> = Trajectory::new();
    assert_eq!(t.len(), 0);
    assert!(t.segments().is_empty());
}

#[test]
fn trajectory_records_in_order() {
    let mut t: Trajectory<V> = Trajectory::new();
    t.record([1.0, 0.0, 0.0]);
    t.record([2.0, 0.5, 0.0]);
    t.record([3.0, 1.0, -1.0]);
    assert_eq!(t.len(), 3);
    assert_eq!(t.get(0), [1.0, 0.0, 0.0]);
    assert_eq!(t.get(1), [2.0, 0.5, 0.0]);
    assert_eq!(t.get(2), [3.0, 1.0, -1.0]);
}

#[test]
fn trajectory_segments_join_neighbours() {
    let mut t: Trajectory<V> = Trajectory::new();
    t.record([0.0, 0.0, 0.0]);
    assert!(t.segments().is_empty());
    t.record([1.0, 0.0, 0.0]);
    t.record([1.0, 1.0, 0.0]);
    let s = t.segments();
    assert_eq!(s.len(), 2);
    assert_eq!(s[0], ([0.0, 0.0, 0.0], [1.0, 0.0, 0.0]));
    assert_eq!(s[1], ([1.0, 0.0, 0.0], [1.0, 1.0, 0.0]));
}

#[test]
fn create_keeps_creation_order() {
    let s = store_with(&[
        (7, 10, [0.0, 0.0, 0.0], [0.0, 0.0, 0.0]),
        (3, 20, [1.0, 0.0, 0.0], [0.0, 1.0, 0.0]),
    ]);
    assert_eq!(s.len(), 2);
    assert_eq!(s.body(0).id, 7);
    assert_eq!(s.body(0).mass, Mass(10));
    assert_eq!(s.body(1).id, 3);
    assert_eq!(s.body(1).mass, Mass(20));
    assert_eq!(s.body(1).coord.0, [1.0, 0.0, 0.0]);
    assert_eq!(s.body(1).velocity.0, [0.0, 1.0, 0.0]);
    assert_eq!(s.body(1).trajectory.len(), 0);
    assert!(s.contains_id(3));
    assert!(!s.contains_id(4));
}

#[test]
fn create_rejects_zero_mass() {
    let mut s = store_with(&[(1, 5, [0.0; 3], [0.0; 3])]);
    assert_eq!(s.create(2, Mass(0), Coord([1.0, 0.0, 0.0]), Velocity([0.0; 3])), Err(BodyError::NonPositiveMass));
    assert_eq!(s.len(), 1);
}

#[test]
fn create_rejects_taken_id() {
    let mut s = store_with(&[(1, 5, [0.0; 3], [0.0; 3])]);
    assert_eq!(s.create(1, Mass(9), Coord([1.0, 0.0, 0.0]), Velocity([0.0; 3])), Err(BodyError::DuplicateId));
    assert_eq!(s.len(), 1);
    assert_eq!(s.body(0).mass, Mass(5));
}

#[test]
fn zero_mass_is_reported_before_taken_id() {
    let mut s = store_with(&[(1, 5, [0.0; 3], [0.0; 3])]);
    assert_eq!(s.create(1, Mass(0), Coord([1.0, 0.0, 0.0]), Velocity([0.0; 3])), Err(BodyError::NonPositiveMass));
}

#[test]
fn sun_mass_fits_whole_kilograms() {
    let sun: u128 = 1_988_920_000_000_000_000_000_000_000_000;
    let s = store_with(&[(0, sun, [0.0; 3], [0.0; 3])]);
    assert_eq!(s.body(0).mass.0 as f64, 1.98892e30);
}

#[test]
fn advance_rejects_mismatched_tick() {
    let mut s = store_with(&[
        (1, 10, [0.0, 0.0, 0.0], [0.0, 0.0, 0.0]),
        (2, 20, [1.0, 0.0, 0.0], [0.0, 0.0, 0.0]),
    ]);
    let vels = vec![[1.0, 1.0, 1.0]];
    let coords = vec![[2.0, 2.0, 2.0], [3.0, 3.0, 3.0]];
    assert_eq!(s.advance(&vels, &coords), Err(BodyError::StateMismatch));
    let vels = vec![[1.0, 1.0, 1.0], [1.0, 1.0, 1.0]];
    let coords = vec![[2.0, 2.0, 2.0]];
    assert_eq!(s.advance(&vels, &coords), Err(BodyError::StateMismatch));
    assert_eq!(s.body(0).coord.0, [0.0, 0.0, 0.0]);
    assert_eq!(s.body(1).velocity.0, [0.0, 0.0, 0.0]);
    assert_eq!(s.body(0).trajectory.len(), 0);
}

#[test]
fn advance_moves_every_body_and_records_it() {
    let mut s = store_with(&[
        (1, 10, [0.0, 0.0, 0.0], [0.0, 0.0, 0.0]),
        (2, 20, [1.0, 0.0, 0.0], [0.0, 0.0, 0.0]),
    ]);
    let vels = vec![[0.5, 0.0, 0.0], [-0.25, 0.0, 0.0]];
    let coords = vec![[0.5, 0.0, 0.0], [0.75, 0.0, 0.0]];
    assert_eq!(s.advance(&vels, &coords), Ok(()));
    assert_eq!(s.body(0).velocity.0, [0.5, 0.0, 0.0]);
    assert_eq!(s.body(0).coord.0, [0.5, 0.0, 0.0]);
    assert_eq!(s.body(1).velocity.0, [-0.25, 0.0, 0.0]);
    assert_eq!(s.body(1).coord.0, [0.75, 0.0, 0.0]);
    assert_eq!(s.body(1).trajectory.len(), 1);
    assert_eq!(s.body(1).trajectory.get(0), [0.75, 0.0, 0.0]);
}

#[test]
fn empty_store_takes_empty_ticks() {
    let mut s: BodyStore<V> = BodyStore::new();
    assert_eq!(s.advance(&vec![], &vec![]), Ok(()));
    assert_eq!(s.len(), 0);
}

#[test]
fn masses_survive_many_ticks() {
    let mut s = store_with(&[
        (1, 10, [0.0, 0.0, 0.0], [0.0, 0.0, 0.0]),
        (2, 20, [1.0, 0.0, 0.0], [0.0, 0.0, 0.0]),
        (3, 30, [0.0, 4.0, 0.0], [0.0, 0.0, 0.0]),
    ]);
    for k in 0..50 {
        let x = k as f64;
        let vels = vec![[x, 0.0, 0.0], [0.0, x, 0.0], [0.0, 0.0, x]];
        let coords = vec![[x, 1.0, 0.0], [1.0, x, 0.0], [0.0, 1.0, x]];
        assert_eq!(s.advance(&vels, &coords), Ok(()));
    }
    assert_eq!(s.body(0).mass, Mass(10));
    assert_eq!(s.body(1).mass, Mass(20));
    assert_eq!(s.body(2).mass, Mass(30));
    assert_eq!(s.body(2).id, 3);
}

#[test]
fn history_has_one_entry_per_tick() {
    let mut s = store_with(&[
        (1, 10, [0.0, 0.0, 0.0], [0.0, 0.0, 0.0]),
        (2, 20, [1.0, 0.0, 0.0], [0.0, 0.0, 0.0]),
    ]);
    let mut after: Vec<Vec<V>> = Vec::new();
    for k in 0..5 {
        let x = k as f64;
        let vels = vec![[x, x, x], [-x, -x, -x]];
        let coords = vec![[x, 2.0 * x, 0.0], [1.0 - x, 0.0, x]];
        assert_eq!(s.advance(&vels, &coords), Ok(()));
        after.push(vec![s.body(0).coord.0, s.body(1).coord.0]);
    }
    for b in 0..2 {
        let t = &s.body(b).trajectory;
        assert_eq!(t.len(), 5);
        for k in 0..5 {
            assert_eq!(t.get(k), after[k][b]);
        }
    }
}
