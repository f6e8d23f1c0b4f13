use bong::{Heavy, HEAVINESS_DURATION_NANOS};

const SECOND: u64 = 1_000_000_000;

#[test]
fn hold_six_seconds_then_release_six() {
    let mut h = Heavy::new();
    h.set_heaviness(true);
    let mut path = Vec::new();
    for _ in 0..6 {
        h.tick(SECOND);
        path.push(h.elapsed_nanos());
    }
    assert_eq!(h.elapsed_nanos(), 5 * SECOND);
    h.set_heaviness(false);
    for _ in 0..6 {
        h.tick(SECOND);
        path.push(h.elapsed_nanos());
    }
    assert_eq!(h.elapsed_nanos(), 0);
    assert!(path.iter().all(|&t| t <= HEAVINESS_DURATION_NANOS));
    assert_eq!(
        path,
        vec![1, 2, 3, 4, 5, 5, 4, 3, 2, 1, 0, 0].into_iter().map(|s| s * SECOND).collect::<Vec<_>>()
    );
}

#[test]
fn partial_release_leaks() {
    let mut h = Heavy::new();
    h.set_heaviness(true);
    h.tick(3 * SECOND);
    h.set_heaviness(false);
    h.tick(SECOND);
    assert_eq!(h.elapsed_nanos(), 2 * SECOND);
    h.tick(u64::MAX);
    assert_eq!(h.elapsed_nanos(), 0);
}

#[test]
fn huge_tick_saturates() {
    let mut h = Heavy::new();
    h.set_heaviness(true);
    h.tick(u64::MAX);
    assert_eq!(h.elapsed_nanos(), HEAVINESS_DURATION_NANOS);
    assert_eq!(h.mass_basis_nanos(), 0);
}

#[test]
fn mass_basis_is_zero_when_light() {
    let mut h = Heavy::new();
    assert_eq!(h.mass_basis_nanos(), 0);
    h.set_heaviness(true);
    assert_eq!(h.mass_basis_nanos(), HEAVINESS_DURATION_NANOS);
    h.tick(SECOND);
    assert_eq!(h.mass_basis_nanos(), 4 * SECOND);
    h.set_heaviness(false);
    assert_eq!(h.mass_basis_nanos(), 0);
}
