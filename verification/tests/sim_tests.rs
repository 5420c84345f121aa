use pic_fluid::particle::Particle;
use pic_fluid::sim::Simulation;
use pic_fluid::units::{SCALE, DT_30FPS};

fn grid_sum(grid: &Vec<Vec<u8>>) -> u64 {
    grid.iter().map(|row| row.iter().map(|&v| v as u64).sum::<u64>()).sum()
}

#[test]
fn empty_simulation_has_no_particles() {
    let s = Simulation::empty(4, 6);
    assert_eq!(s.rows, 4);
    assert_eq!(s.cols, 6);
    assert_eq!(s.particles.len(), 0);
}

#[test]
fn rand_seeds_resting_particles_in_bounds() {
    let s = Simulation::rand(8, 9, 50);
    assert_eq!(s.rows, 8);
    assert_eq!(s.cols, 9);
    assert_eq!(s.particles.len(), 50);
    for p in s.particles.iter() {
        assert_eq!(p.vx, 0);
        assert_eq!(p.vy, 0);
        assert!(0 <= p.x && p.x < 9 * SCALE);
        assert!(0 <= p.y && p.y < 8 * SCALE);
        // Seeded on cell corners.
        assert_eq!(p.x % SCALE, 0);
        assert_eq!(p.y % SCALE, 0);
    }
}

#[test]
fn add_particle_grows_population() {
    let mut s = Simulation::empty(5, 5);
    s.add_particle(Particle::new(2 * SCALE + 100, 3 * SCALE + 200));
    assert_eq!(s.particles.len(), 1);
    assert_eq!(s.particles[0].x, 2 * SCALE + 100);
    assert_eq!(s.particles[0].y, 3 * SCALE + 200);
}

#[test]
fn containment_across_steps() {
    // Particles stay inside [0, cols) x [0, rows) cells after every step.
    let mut s = Simulation::rand(6, 7, 40);
    for _ in 0..30 {
        let _ = s.simulate_step(DT_30FPS);
        for p in s.particles.iter() {
            assert!(0 <= p.x && p.x < 7 * SCALE);
            assert!(0 <= p.y && p.y < 6 * SCALE);
        }
    }
}

#[test]
fn occupancy_conservation() {
    // The occupancy grid always totals the particle count.
    let mut s = Simulation::rand(10, 10, 50);
    for _ in 0..20 {
        let grid = s.simulate_step(DT_30FPS);
        assert_eq!(grid.len(), 10);
        for row in grid.iter() {
            assert_eq!(row.len(), 10);
        }
        assert_eq!(grid_sum(&grid), 50);
    }
}

#[test]
fn zero_dt_leaves_resting_particle_unchanged() {
    // A single particle at a cell center, at rest, with dt = 0.
    let mut s = Simulation::empty(10, 10);
    s.add_particle(Particle::new(5 * SCALE + SCALE / 2, 5 * SCALE + SCALE / 2));
    let grid = s.simulate_step(0);
    let p = &s.particles[0];
    assert_eq!(p.x, 5 * SCALE + SCALE / 2);
    assert_eq!(p.y, 5 * SCALE + SCALE / 2);
    assert_eq!(p.vx, 0);
    assert_eq!(p.vy, 0);
    assert_eq!(grid[5][5], 1);
    assert_eq!(grid_sum(&grid), 1);
}

#[test]
fn fixed_grid_dimensions_for_the_run() {
    let mut s = Simulation::rand(9, 11, 30);
    for _ in 0..10 {
        let grid = s.simulate_step(DT_30FPS);
        assert_eq!(s.rows, 9);
        assert_eq!(s.cols, 11);
        assert_eq!(grid.len(), 9);
        for row in grid.iter() {
            assert_eq!(row.len(), 11);
        }
    }
}

#[test]
fn staggered_field_dimensions() {
    // The splatted staggered fields are rows x (cols + 1) and
    // (rows + 1) x cols.
    let mut s = Simulation::rand(6, 9, 20);
    let (vx, vy, occ) = s.splat_particles(DT_30FPS);
    assert_eq!(vx.height, 6);
    assert_eq!(vx.width, 10);
    assert_eq!(vy.height, 7);
    assert_eq!(vy.width, 9);
    assert_eq!(occ.rows, 6);
    assert_eq!(occ.cols, 9);
}

#[test]
fn left_wall_particle_stays_on_wall_through_a_step() {
    let mut s = Simulation::empty(10, 10);
    let mut p = Particle::new(0, 5 * SCALE + SCALE / 2);
    p.set_velocity(-5 * SCALE, 0);
    s.add_particle(p);
    let _ = s.simulate_step(DT_30FPS);
    assert_eq!(s.particles[0].x, 0);
}

#[test]
fn wall_absorption_through_full_step() {
    // In the bottom-left region both axes clamp during the step, every
    // splatted sample is zero, and the resample hands back zero: the
    // wall-absorbed state survives the whole step.
    let mut s = Simulation::empty(10, 10);
    let mut p = Particle::new(0, 10 * SCALE - 36);
    p.set_velocity(-5 * SCALE, 0);
    s.add_particle(p);
    let _ = s.simulate_step(DT_30FPS);
    assert_eq!(s.particles[0].x, 0);
    assert_eq!(s.particles[0].vx, 0);
    assert_eq!(s.particles[0].y, 10 * SCALE - 36);
    assert_eq!(s.particles[0].vy, 0);
}

#[test]
fn end_to_end_single_particle() {
    // rows = cols = 10, one particle at (5.0, 5.0) cells, at rest,
    // dt = 1/30 s.  Fixed-point gravity gives vy = 1177 (~0.327 cells/s)
    // before the transfer; the corrected-field sample then yields the
    // exact values below.
    let mut s = Simulation::empty(10, 10);
    s.add_particle(Particle::new(5 * SCALE, 5 * SCALE));
    let grid = s.simulate_step(DT_30FPS);
    let p = &s.particles[0];
    assert_eq!(p.x, 5 * SCALE);
    assert_eq!(p.y, 5 * SCALE + 39);
    assert_eq!(p.vx, -288);
    assert_eq!(p.vy, 869);
    assert_eq!(grid[5][5], 1);
    assert_eq!(grid_sum(&grid), 1);
}

#[test]
fn transfer_round_trip_close_to_pre_projection_velocity() {
    // Splat then resample, with no projection in between: for a lone
    // particle away from the domain edges the round trip reproduces the
    // pre-projection velocity within one percent of a cell per second.
    let mut s = Simulation::empty(10, 10);
    s.add_particle(Particle::new(5 * SCALE, 5 * SCALE));
    let (vx, vy, _occ) = s.splat_particles(DT_30FPS);
    let vy_pre = s.particles[0].vy;
    assert_eq!(vy_pre, 1177);
    s.resample(&vx, &vy);
    let p = &s.particles[0];
    assert_eq!(p.vx, 0);
    assert!((p.vy - vy_pre).abs() < 36);
}
