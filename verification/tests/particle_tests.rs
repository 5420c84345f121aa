use pic_fluid::particle::Particle;
use pic_fluid::units::SCALE;
use pic_fluid::vec2::Vec2;

#[test]
fn vec2_new_holds_components() {
    let v = Vec2::new(3usize, 7usize);
    assert_eq!(v.x, 3);
    assert_eq!(v.y, 7);
}

#[test]
fn new_particle_is_at_rest() {
    let p = Particle::new(5 * SCALE, 2 * SCALE);
    assert_eq!(p.x, 5 * SCALE);
    assert_eq!(p.y, 2 * SCALE);
    assert_eq!(p.vx, 0);
    assert_eq!(p.vy, 0);
}

#[test]
fn set_velocity_replaces_velocity() {
    let mut p = Particle::new(0, 0);
    p.set_velocity(10, -20);
    assert_eq!(p.vx, 10);
    assert_eq!(p.vy, -20);
    p.set_velocity(1, 2);
    assert_eq!(p.vx, 1);
    assert_eq!(p.vy, 2);
}

#[test]
fn add_velocity_accumulates() {
    let mut p = Particle::new(0, 0);
    p.add_velocity(5, 7);
    p.add_velocity(-2, 3);
    assert_eq!(p.vx, 3);
    assert_eq!(p.vy, 10);
}

#[test]
fn apply_velocity_advances_by_scaled_product() {
    let mut p = Particle::new(SCALE, SCALE);
    p.set_velocity(2 * SCALE, -SCALE);
    // dt of one second: x gains two cells, y loses one.
    p.apply_velocity(SCALE);
    assert_eq!(p.x, 3 * SCALE);
    assert_eq!(p.y, 0);
}

#[test]
fn apply_bounds_keeps_interior_particle() {
    let mut p = Particle::new(SCALE + 5, 2 * SCALE + 9);
    p.set_velocity(11, -13);
    p.apply_bounds(10, 10);
    assert_eq!(p.x, SCALE + 5);
    assert_eq!(p.y, 2 * SCALE + 9);
    assert_eq!(p.vx, 11);
    assert_eq!(p.vy, -13);
}

#[test]
fn wall_absorption() {
    // A particle on the left wall moving left: one motion step holds it at
    // x = 0 with its horizontal velocity absorbed.
    let mut p = Particle::new(0, 5 * SCALE);
    p.set_velocity(-5 * SCALE, 0);
    p.apply_velocity(SCALE / 30);
    assert!(p.x < 0);
    p.apply_bounds(10, 10);
    assert_eq!(p.x, 0);
    assert_eq!(p.vx, 0);
    assert_eq!(p.y, 5 * SCALE);
}

#[test]
fn upper_edge_clamp_stays_inside() {
    let mut p = Particle::new(11 * SCALE, 3 * SCALE);
    p.set_velocity(99, 0);
    p.apply_bounds(10, 10);
    // EPSILON is 0.01 cells: the clamp lands strictly inside.
    assert_eq!(p.x, 10 * SCALE - 36);
    assert_eq!(p.vx, 0);
}

#[test]
fn negative_y_clamp_absorbs_vertical_velocity() {
    let mut p = Particle::new(SCALE, -7);
    p.set_velocity(4, -9);
    p.apply_bounds(10, 10);
    assert_eq!(p.y, 0);
    assert_eq!(p.vy, 0);
    assert_eq!(p.x, SCALE);
    assert_eq!(p.vx, 4);
}
