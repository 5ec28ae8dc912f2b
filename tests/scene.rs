use crossterm::style::Color;
use particle_sim::collision::Collision;
use particle_sim::particle::{Particle, ParticleId, ParticleType};
use particle_sim::scene::Scene;
use particle_sim::spatial::Coordinate;

fn at(kind: ParticleType, px: i32, py: i32) -> Particle {
    Particle::new(Some(Coordinate::new(px, py)), None, None, kind, Coordinate::new(200, 200))
}

fn ids(c: &Collision) -> Vec<u64> {
    match c {
        Collision::Refuel { participants } => participants.iter().map(|p| p.0).collect(),
    }
}

#[test]
fn scene_assigns_ids_from_one() {
    let mut s = Scene::new(vec![]);
    assert_eq!(s.next_id, 1);
    s.add_particle(at(ParticleType::Rocket, 0, 0));
    s.add_particle(at(ParticleType::Rocket, 0, 0));
    assert_eq!(s.particles[0].uid, ParticleId(1));
    assert_eq!(s.particles[1].uid, ParticleId(2));
    assert_eq!(s.next_id, 3);
}

#[test]
fn scene_keeps_preassigned_ids() {
    let mut s = Scene::new(vec![]);
    let mut p = at(ParticleType::FuelCell, 0, 0);
    p.uid = ParticleId(5);
    s.add_particle(p);
    assert_eq!(s.next_id, 6);
    s.add_particle(at(ParticleType::Rocket, 0, 0));
    assert_eq!(s.particles[1].uid, ParticleId(6));
    let mut q = at(ParticleType::Rocket, 0, 0);
    q.uid = ParticleId(3);
    s.add_particle(q);
    assert_eq!(s.particles[2].uid, ParticleId(3));
    assert_eq!(s.next_id, 7);
}

#[test]
fn renderable_places_cells_inside_border() {
    let mut s = Scene::new(vec![]);
    let mut r = at(ParticleType::Rocket, 320, 320);
    r.set_color(Color::Red);
    s.add_particle(r);
    s.add_particle(at(ParticleType::FuelCell, 0, 320));
    s.add_particle(at(ParticleType::FuelCell, 9 * 64, 320));
    s.add_particle(at(ParticleType::FuelCell, 8 * 64, 64));
    let out = s.get_renderable(10, 10);
    assert_eq!(out.cells.len(), 2);
    let (c0, ch0, col0) = out.cells[0];
    assert_eq!((c0.x, c0.y, ch0), (5, 5, '•'));
    assert_eq!((col0.foreground, col0.background), (Color::Red, Color::Black));
    let (c1, ch1, col1) = out.cells[1];
    assert_eq!((c1.x, c1.y, ch1), (8, 1, 'F'));
    assert_eq!((col1.foreground, col1.background), (Color::DarkBlue, Color::Yellow));
    assert!(out.collisions.is_empty());
}

#[test]
fn renderable_empty_scene() {
    let s = Scene::new(vec![]);
    let out = s.get_renderable(10, 10);
    assert!(out.cells.is_empty());
    assert!(out.collisions.is_empty());
}

#[test]
fn collision_groups_shared_cell_only() {
    let mut s = Scene::new(vec![]);
    s.add_particle(at(ParticleType::Rocket, 320, 320));
    s.add_particle(at(ParticleType::FuelCell, 330, 310));
    s.add_particle(at(ParticleType::Rocket, 128, 128));
    let out = s.get_renderable(10, 10);
    assert_eq!(out.collisions.len(), 1);
    assert_eq!(ids(&out.collisions[0]), vec![1, 2]);
}

#[test]
fn collisions_in_first_seen_order() {
    let mut s = Scene::new(vec![]);
    s.add_particle(at(ParticleType::Rocket, 128, 128));
    s.add_particle(at(ParticleType::Rocket, 320, 320));
    s.add_particle(at(ParticleType::FuelCell, 320, 320));
    s.add_particle(at(ParticleType::FuelCell, 128, 128));
    s.add_particle(at(ParticleType::FuelCell, 320, 320));
    s.add_particle(at(ParticleType::FuelCell, 64, 64));
    let out = s.get_renderable(10, 10);
    assert_eq!(out.collisions.len(), 2);
    assert_eq!(ids(&out.collisions[0]), vec![1, 4]);
    assert_eq!(ids(&out.collisions[1]), vec![2, 3, 5]);
}

#[test]
fn collisions_use_position_not_drawn_cell() {
    let mut s = Scene::new(vec![]);
    s.add_particle(at(ParticleType::Rocket, 0, 0));
    s.add_particle(at(ParticleType::FuelCell, 10, 20));
    let out = s.get_renderable(10, 10);
    assert!(out.cells.is_empty());
    assert_eq!(out.collisions.len(), 1);
    assert_eq!(ids(&out.collisions[0]), vec![1, 2]);
}
