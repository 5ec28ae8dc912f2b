use particle_sim::spatial::{braking_acceleration_from_velocity, ConsoleCell, Coordinate};

fn cell(x: i32, y: i32) -> (u16, u16) {
    let c = Coordinate::new(x, y).to_cell();
    (c.x, c.y)
}

fn brake(x: i32, y: i32) -> (i32, i32) {
    let a = braking_acceleration_from_velocity(Coordinate::new(x, y));
    (a.x, a.y)
}

#[test]
fn to_cell_rounds_to_nearest() {
    assert_eq!(cell(0, 0), (0, 0));
    assert_eq!(cell(64, 128), (1, 2));
    assert_eq!(cell(95, 97), (1, 2));
    assert_eq!(cell(320, 351), (5, 5));
}

#[test]
fn to_cell_halfway_rounds_away_from_zero() {
    assert_eq!(cell(32, 31), (1, 0));
    assert_eq!(cell(96, 95), (2, 1));
}

#[test]
fn to_cell_clamps_negative_to_zero() {
    assert_eq!(cell(-32, -31), (0, 0));
    assert_eq!(cell(-1000, i32::MIN), (0, 0));
}

#[test]
fn to_cell_saturates_at_grid_limit() {
    assert_eq!(cell(i32::MAX, 65535 * 64), (65535, 65535));
}

#[test]
fn to_cell_is_monotonic_on_a_range() {
    let mut prev = cell(-200, -200);
    for v in -199..5000 {
        let next = cell(v, v);
        assert!(next.0 >= prev.0 && next.1 >= prev.1);
        prev = next;
    }
}

#[test]
fn console_cells_compare_by_value() {
    assert_eq!(ConsoleCell::new(3, 4), ConsoleCell::new(3, 4));
    assert_ne!(ConsoleCell::new(3, 4), ConsoleCell::new(4, 3));
}

#[test]
fn coordinate_add_sums_componentwise() {
    let mut a = Coordinate::new(3, -4);
    let r = *a.add(&Coordinate::new(10, 20));
    assert_eq!((a.x, a.y), (13, 16));
    assert_eq!((r.x, r.y), (13, 16));
}

#[test]
fn coordinate_default_is_origin() {
    let c = Coordinate::default();
    assert_eq!((c.x, c.y), (0, 0));
}

#[test]
fn braking_stationary_is_zero() {
    assert_eq!(brake(0, 0), (0, 0));
}

#[test]
fn braking_low_speed_dominant_axis() {
    assert_eq!(brake(5, 3), (-1, 0));
    assert_eq!(brake(3, -5), (0, 1));
    assert_eq!(brake(-10, 0), (1, 0));
}

#[test]
fn braking_low_speed_tie_brakes_both() {
    assert_eq!(brake(4, -4), (-1, 1));
    assert_eq!(brake(-7, -7), (1, 1));
}

#[test]
fn braking_high_speed_formula() {
    assert_eq!(brake(-100, 0), (5, 0));
    assert_eq!(brake(100, 0), (-5, 0));
    assert_eq!(brake(100, -40), (-5, 2));
    assert_eq!(brake(11, 0), (-1, 0));
    assert_eq!(brake(-15, -3), (1, 1));
    assert_eq!(brake(-400, 30), (20, -1));
}

#[test]
fn braking_extreme_velocity() {
    assert_eq!(brake(i32::MIN, 0), (107374182, 0));
    assert_eq!(brake(0, i32::MAX), (0, -107374182));
}

#[test]
fn braking_never_overshoots_on_a_grid() {
    for vx in -60..60 {
        for vy in -60..60 {
            let (ax, ay) = brake(vx, vy);
            for (v, a) in [(vx, ax), (vy, ay)] {
                if v > 0 {
                    assert!(v + a >= 0 && v + a <= v);
                } else if v < 0 {
                    assert!(v + a <= 0 && v + a >= v);
                } else {
                    assert_eq!(a, 0);
                }
            }
        }
    }
}
