use pic_fluid::grid::{Field, CellSet, Occupancy};
use pic_fluid::sim::Simulation;

#[test]
fn fresh_field_is_zeroed() {
    let f = Field::new(3, 4);
    for r in 0..3 {
        for c in 0..4 {
            assert_eq!(f.get(r, c), 0);
        }
    }
}

#[test]
fn field_add_and_set_touch_one_sample() {
    let mut f = Field::new(3, 4);
    f.add_at(1, 2, 50);
    f.add_at(1, 2, -20);
    f.set_at(2, 0, 7);
    assert_eq!(f.get(1, 2), 30);
    assert_eq!(f.get(2, 0), 7);
    assert_eq!(f.get(0, 0), 0);
    assert_eq!(f.get(1, 1), 0);
}

#[test]
fn cell_set_insert_and_clear() {
    let mut s = CellSet::new(4, 5);
    assert!(!s.contains(2, 3));
    s.insert(2, 3);
    assert!(s.contains(2, 3));
    assert!(!s.contains(3, 2));
    s.clear();
    assert!(!s.contains(2, 3));
}

#[test]
fn occupancy_counts_and_rasterizes() {
    let mut g = Occupancy::new(2, 3);
    g.increment(1, 2);
    g.increment(1, 2);
    g.increment(0, 0);
    let rows = g.to_rows();
    assert_eq!(rows.len(), 2);
    assert_eq!(rows[0].len(), 3);
    assert_eq!(rows[0][0], 1);
    assert_eq!(rows[1][2], 2);
    assert_eq!(rows[0][1], 0);
}

#[test]
fn projection_zeroes_divergence_of_interior_cell() {
    // An occupied interior cell with all four faces open and a divergence
    // divisible by four: one pass restores exact zero divergence.
    let mut s = Simulation::empty(10, 10);
    s.fluid_cells.insert(5, 5);
    let mut vx = Field::new(10, 11);
    let mut vy = Field::new(11, 10);
    vx.set_at(5, 5, 100);
    vx.set_at(5, 6, 500);
    vy.set_at(5, 5, -300);
    vy.set_at(6, 5, 452);
    // divergence = (500 - 100) + (452 - (-300)) = 1152; correction 288.
    let (cvx, cvy) = s.project(&vx, &vy);
    assert_eq!(cvx.get(5, 5), 388);
    assert_eq!(cvx.get(5, 6), 212);
    assert_eq!(cvy.get(5, 5), -12);
    assert_eq!(cvy.get(6, 5), 164);
    let d_after = (cvx.get(5, 6) - cvx.get(5, 5)) + (cvy.get(6, 5) - cvy.get(5, 5));
    assert_eq!(d_after, 0);
}

#[test]
fn projection_flooring_leaves_small_remainder() {
    // A divergence of -7 over four open faces floors to a correction of
    // -2, leaving the Euclidean remainder 1.
    let mut s = Simulation::empty(10, 10);
    s.fluid_cells.insert(5, 5);
    let mut vx = Field::new(10, 11);
    let mut vy = Field::new(11, 10);
    vx.set_at(5, 6, -7);
    let (cvx, cvy) = s.project(&vx, &vy);
    assert_eq!(cvx.get(5, 5), -2);
    assert_eq!(cvx.get(5, 6), -5);
    assert_eq!(cvy.get(5, 5), -2);
    assert_eq!(cvy.get(6, 5), 2);
    let d_after = (cvx.get(5, 6) - cvx.get(5, 5)) + (cvy.get(6, 5) - cvy.get(5, 5));
    assert_eq!(d_after, 1);
}

#[test]
fn projection_leaves_closed_faces_untouched() {
    // A corner cell has two open faces; its closed faces keep their
    // (zero) corrected value and the correction is divergence / 2.
    let mut s = Simulation::empty(10, 10);
    s.fluid_cells.insert(0, 0);
    let mut vx = Field::new(10, 11);
    let mut vy = Field::new(11, 10);
    vx.set_at(0, 1, 100);
    vy.set_at(1, 0, 60);
    // divergence = 100 + 60 = 160; correction 80 on the two open faces.
    let (cvx, cvy) = s.project(&vx, &vy);
    assert_eq!(cvx.get(0, 0), 0);
    assert_eq!(cvy.get(0, 0), 0);
    assert_eq!(cvx.get(0, 1), 20);
    assert_eq!(cvy.get(1, 0), -20);
}

#[test]
fn projection_skips_unoccupied_cells() {
    let s = Simulation::empty(10, 10);
    let mut vx = Field::new(10, 11);
    let vy = Field::new(11, 10);
    vx.set_at(5, 5, 123);
    let (cvx, cvy) = s.project(&vx, &vy);
    // No occupied cell writes anything: the corrected fields stay zero.
    for r in 0..10 {
        for c in 0..11 {
            assert_eq!(cvx.get(r, c), 0);
        }
    }
    for r in 0..11 {
        for c in 0..10 {
            assert_eq!(cvy.get(r, c), 0);
        }
    }
}
