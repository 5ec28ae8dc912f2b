use crossterm::style::Color;
use particle_sim::particle::{Boost, Particle, ParticleId, ParticleType};
use particle_sim::spatial::Coordinate;

const BOUNDS_10: (i32, i32, u16, u16) = (640, 640, 10, 10);

fn rocket(px: i32, py: i32, vx: i32, vy: i32) -> Particle {
    Particle::new(
        Some(Coordinate::new(px, py)),
        Some(Coordinate::new(vx, vy)),
        None,
        ParticleType::Rocket,
        Coordinate::new(200, 200),
    )
}

fn glyph(vx: i32, vy: i32) -> char {
    let s = rocket(320, 320, vx, vy).get_particle_char();
    assert_eq!(s.cells.len(), 1);
    s.cells[0].1
}

#[test]
fn new_particle_defaults() {
    let p = Particle::new(None, None, None, ParticleType::FuelCell, Coordinate::new(7, 8));
    assert_eq!(p.uid, ParticleId(0));
    assert_eq!((p.position.x, p.position.y), (0, 0));
    assert_eq!((p.velocity.x, p.velocity.y), (0, 0));
    assert_eq!((p.acceleration.x, p.acceleration.y), (0, 0));
    assert_eq!(p.color, Color::White);
    assert_eq!(p.kind, ParticleType::FuelCell);
    assert_eq!(p.fuel, 510);
    assert_eq!((p.velocity_cap.x, p.velocity_cap.y), (7, 8));
    let q = rocket(1, 2, 3, 4);
    assert_eq!((q.get_position().x, q.get_position().y), (1, 2));
}

#[test]
fn colors_by_kind() {
    let mut r = rocket(0, 0, 0, 0);
    r.set_color(Color::Red);
    let c = r.get_colors();
    assert_eq!((c.foreground, c.background), (Color::Red, Color::Black));
    let f = Particle::new(None, None, None, ParticleType::FuelCell, Coordinate::new(1, 1));
    let c = f.get_colors();
    assert_eq!((c.foreground, c.background), (Color::DarkBlue, Color::Yellow));
}

#[test]
fn rocket_glyphs_follow_direction() {
    assert_eq!(glyph(0, 0), '•');
    assert_eq!(glyph(5, 0), '→');
    assert_eq!(glyph(5, 5), '↘');
    assert_eq!(glyph(0, 5), '↓');
    assert_eq!(glyph(-5, 5), '↙');
    assert_eq!(glyph(-5, 0), '←');
    assert_eq!(glyph(-5, -5), '↖');
    assert_eq!(glyph(0, -5), '↑');
    assert_eq!(glyph(5, -5), '↗');
}

#[test]
fn rocket_glyph_sector_edges() {
    assert_eq!(glyph(10, 4), '→');
    assert_eq!(glyph(10, 5), '↘');
    assert_eq!(glyph(4, 10), '↓');
    assert_eq!(glyph(5, 10), '↘');
    assert_eq!(glyph(-10, -4), '←');
    assert_eq!(glyph(10, -5), '↗');
    assert_eq!(glyph(i32::MIN, i32::MIN), '↖');
}

#[test]
fn fuel_cell_sprite() {
    let mut f = Particle::new(None, Some(Coordinate::new(3, 9)), None, ParticleType::FuelCell, Coordinate::new(1, 1));
    f.set_color(Color::Green);
    let s = f.get_particle_char();
    assert_eq!((s.anchor.x, s.anchor.y), (0, 0));
    assert_eq!(s.cells.len(), 1);
    assert_eq!((s.cells[0].0.x, s.cells[0].0.y), (0, 0));
    assert_eq!(s.cells[0].1, 'F');
    assert_eq!(s.cells[0].2, Color::DarkBlue);
}

#[test]
fn update_without_fuel_ignores_boost() {
    let mut p = rocket(320, 320, 0, 0);
    p.fuel = 0;
    p.acceleration = Coordinate::new(4, 4);
    p.update(BOUNDS_10, Some(Boost::Coordinate(Coordinate::new(3, 3))));
    assert_eq!((p.acceleration.x, p.acceleration.y), (0, 0));
    assert_eq!(p.fuel, 0);
    assert_eq!((p.velocity.x, p.velocity.y), (0, 0));
    p.update(BOUNDS_10, Some(Boost::Brake));
    assert_eq!((p.acceleration.x, p.acceleration.y), (0, 0));
    assert_eq!(p.fuel, 0);
}

#[test]
fn update_delta_accumulates_and_spends_fuel() {
    let mut p = rocket(320, 320, 0, 0);
    p.acceleration = Coordinate::new(1, 0);
    p.update(BOUNDS_10, Some(Boost::Coordinate(Coordinate::new(2, 3))));
    assert_eq!((p.acceleration.x, p.acceleration.y), (3, 3));
    assert_eq!(p.fuel, 509);
    assert_eq!((p.velocity.x, p.velocity.y), (3, 3));
    assert_eq!((p.position.x, p.position.y), (321, 321));
}

#[test]
fn update_without_boost_resets_acceleration() {
    let mut p = rocket(320, 320, 10, 0);
    p.acceleration = Coordinate::new(5, 5);
    p.update(BOUNDS_10, None);
    assert_eq!((p.acceleration.x, p.acceleration.y), (0, 0));
    assert_eq!(p.fuel, 510);
    assert_eq!((p.velocity.x, p.velocity.y), (10, 0));
    assert_eq!((p.position.x, p.position.y), (325, 320));
}

#[test]
fn update_fuel_saturates_at_zero() {
    let mut p = rocket(320, 320, 0, 0);
    p.fuel = 1;
    p.update(BOUNDS_10, Some(Boost::Coordinate(Coordinate::new(1, 0))));
    assert_eq!(p.fuel, 0);
    p.update(BOUNDS_10, Some(Boost::Coordinate(Coordinate::new(1, 0))));
    assert_eq!(p.fuel, 0);
    assert_eq!((p.acceleration.x, p.acceleration.y), (0, 0));
}

#[test]
fn update_brake_uses_braking_policy() {
    let mut p = rocket(320, 320, -100, 0);
    p.update(BOUNDS_10, Some(Boost::Brake));
    assert_eq!((p.acceleration.x, p.acceleration.y), (5, 0));
    assert_eq!((p.velocity.x, p.velocity.y), (-95, 0));
    assert_eq!(p.fuel, 509);
    assert_eq!((p.position.x, p.position.y), (273, 320));
}

#[test]
fn update_clamps_velocity_to_cap() {
    let mut p = rocket(320, 320, 195, -195);
    p.velocity_cap = Coordinate::new(200, 198);
    p.update(BOUNDS_10, Some(Boost::Coordinate(Coordinate::new(10, -10))));
    assert_eq!((p.velocity.x, p.velocity.y), (200, -198));
}

#[test]
fn fuel_cell_moves_a_quarter_step() {
    let mut f = Particle::new(
        Some(Coordinate::new(320, 320)),
        Some(Coordinate::new(-9, 9)),
        None,
        ParticleType::FuelCell,
        Coordinate::new(200, 200),
    );
    f.update(BOUNDS_10, None);
    assert_eq!((f.position.x, f.position.y), (318, 322));
}

#[test]
fn rocket_moves_a_half_step_truncating() {
    let mut p = rocket(320, 320, -9, 9);
    p.update(BOUNDS_10, None);
    assert_eq!((p.position.x, p.position.y), (316, 324));
}

#[test]
fn bounce_at_left_border_scenario() {
    let mut p = rocket(64, 64, -200, 0);
    p.update(BOUNDS_10, None);
    assert_eq!((p.velocity.x, p.velocity.y), (200, 0));
    assert_eq!((p.position.x, p.position.y), (36, 64));
}

#[test]
fn bounce_at_far_border() {
    let mut p = rocket(600, 320, 100, 0);
    p.update(BOUNDS_10, None);
    assert_eq!((p.position.x, p.position.y), (630, 320));
    assert_eq!((p.velocity.x, p.velocity.y), (-100, 0));
    let mut q = rocket(320, 600, 0, 100);
    q.update(BOUNDS_10, None);
    assert_eq!((q.position.x, q.position.y), (320, 630));
    assert_eq!((q.velocity.x, q.velocity.y), (0, -100));
}

#[test]
fn bounce_at_top_border_uses_pixels() {
    let mut p = rocket(320, 40, 0, -100);
    p.update(BOUNDS_10, None);
    assert_eq!((p.position.x, p.position.y), (320, 10));
    assert_eq!((p.velocity.x, p.velocity.y), (0, 100));
    let mut q = rocket(320, 100, 0, -2);
    q.update(BOUNDS_10, None);
    assert_eq!((q.position.y, q.velocity.y), (99, -2));
}

#[test]
fn bounce_near_x_uses_cells() {
    let mut p = rocket(90, 320, -2, 0);
    p.update(BOUNDS_10, None);
    assert_eq!((p.position.x, p.velocity.x), (89, 2));
}

#[test]
fn both_bounces_fire_on_a_one_cell_grid() {
    let mut p = rocket(32, 32, 0, 0);
    p.update((64, 64, 1, 1), None);
    assert_eq!((p.position.x, p.velocity.x), (32, 0));
    assert_eq!((p.position.y, p.velocity.y), (32, 0));
    let mut q = rocket(10, 200, 20, 0);
    q.update((64, 64, 1, 1), None);
    assert_eq!((q.position.x, q.velocity.x), (20, 20));
    assert_eq!((q.position.y, q.velocity.y), (72, 0));
}

#[test]
fn can_update_rejects_negative_cap_and_overflow() {
    let mut p = rocket(320, 320, 0, 0);
    assert!(p.can_update(BOUNDS_10, None));
    p.velocity_cap = Coordinate::new(-1, 5);
    assert!(!p.can_update(BOUNDS_10, None));
    let mut q = rocket(320, 320, 0, 0);
    q.acceleration = Coordinate::new(i32::MAX, 0);
    assert!(!q.can_update(BOUNDS_10, Some(Boost::Coordinate(Coordinate::new(1, 0)))));
    assert!(q.can_update(BOUNDS_10, Some(Boost::Coordinate(Coordinate::new(-1, 0)))));
}
