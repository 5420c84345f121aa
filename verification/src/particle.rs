//! A point mass carrying position and velocity.

use vstd::prelude::*;
use crate::units::{SCALE, GRAVITY, EPSILON, MAX_DIM, DT_MAX, DIV_NUM_MAX, div_floor};

verus! {

/// The mathematical value of a particle: position and velocity per axis,
/// in fixed-point units (`SCALE` units to a cell).
pub ghost struct PState {
    pub x: int,
    pub y: int,
    pub vx: int,
    pub vy: int,
}

/// A particle. Positions and velocities are fixed-point `i64` values,
/// `SCALE` units to one grid cell.
#[derive(Clone, Copy, PartialEq, Eq, Structural, Debug)]
pub struct Particle {
    pub x: i64,
    pub y: i64,
    pub vx: i64,
    pub vy: i64,
}

impl View for Particle {
    type V = PState;

    open spec fn view(&self) -> PState {
        PState { x: self.x as int, y: self.y as int, vx: self.vx as int, vy: self.vy as int }
    }
}

/// One axis of the boundary clamp: positions below `0` go to `0`, positions
/// at or past `extent` cells go to `extent` cells less `EPSILON`.
pub open spec fn clamp_pos(pos: int, extent: int) -> int {
    if pos < 0 {
        0
    } else if pos >= extent * SCALE {
        extent * SCALE - EPSILON
    } else {
        pos
    }
}

/// One axis of the boundary clamp on velocity: a clamped axis absorbs its
/// velocity entirely.
pub open spec fn clamp_vel(pos: int, extent: int, vel: int) -> int {
    if pos < 0 || pos >= extent * SCALE {
        0
    } else {
        vel
    }
}

/// The state of `p` after one whole motion phase with time step `dt`:
/// gravity, then symplectic-Euler advection, then the boundary clamp.
pub open spec fn moved(p: PState, dt: int, rows: int, cols: int) -> PState {
    let vy1 = p.vy + (GRAVITY * dt) / (SCALE as int);
    let x1 = p.x + (p.vx * dt) / (SCALE as int);
    let y1 = p.y + (vy1 * dt) / (SCALE as int);
    PState {
        x: clamp_pos(x1, cols),
        y: clamp_pos(y1, rows),
        vx: clamp_vel(x1, cols, p.vx),
        vy: clamp_vel(y1, rows, vy1),
    }
}

impl Particle {
    /// A particle at the given position, at rest.
    pub fn new(x: i64, y: i64) -> (p: Self)
        ensures
            p@ == (PState { x: x as int, y: y as int, vx: 0, vy: 0 }),
    {
        Self { x, y, vx: 0, vy: 0 }
    }

    /// Replaces the velocity; the position is untouched.
    pub fn set_velocity(&mut self, vx: i64, vy: i64)
        ensures
            final(self).x == old(self).x,
            final(self).y == old(self).y,
            final(self).vx == vx,
            final(self).vy == vy,
    {
        self.vx = vx;
        self.vy = vy;
    }

    /// Adds to the velocity; the position is untouched.
    pub fn add_velocity(&mut self, vx: i64, vy: i64)
        requires
            i64::MIN <= old(self).vx + vx <= i64::MAX,
            i64::MIN <= old(self).vy + vy <= i64::MAX,
        ensures
            final(self).x == old(self).x,
            final(self).y == old(self).y,
            final(self).vx == old(self).vx + vx,
            final(self).vy == old(self).vy + vy,
    {
        self.vx = self.vx + vx;
        self.vy = self.vy + vy;
    }

    /// Advances the position by `velocity * dt` (flooring fixed-point
    /// product); the velocity is untouched.
    pub fn apply_velocity(&mut self, dt: i64)
        requires
            -DIV_NUM_MAX <= old(self).vx * dt <= DIV_NUM_MAX,
            -DIV_NUM_MAX <= old(self).vy * dt <= DIV_NUM_MAX,
            i64::MIN <= old(self).x + (old(self).vx * dt) / (SCALE as int) <= i64::MAX,
            i64::MIN <= old(self).y + (old(self).vy * dt) / (SCALE as int) <= i64::MAX,
        ensures
            final(self).x == old(self).x + (old(self).vx * dt) / (SCALE as int),
            final(self).y == old(self).y + (old(self).vy * dt) / (SCALE as int),
            final(self).vx == old(self).vx,
            final(self).vy == old(self).vy,
    {
        let dx = div_floor(self.vx * dt, SCALE);
        let dy = div_floor(self.vy * dt, SCALE);
        self.x = self.x + dx;
        self.y = self.y + dy;
    }

    /// Clamps the position into `[0, cols) x [0, rows)` cells, absorbing
    /// the velocity on every clamped axis (walls absorb, never reflect).
    pub fn apply_bounds(&mut self, rows: usize, cols: usize)
        requires
            1 <= rows <= MAX_DIM,
            1 <= cols <= MAX_DIM,
        ensures
            final(self).x == clamp_pos(old(self).x as int, cols as int),
            final(self).y == clamp_pos(old(self).y as int, rows as int),
            final(self).vx == clamp_vel(old(self).x as int, cols as int, old(self).vx as int),
            final(self).vy == clamp_vel(old(self).y as int, rows as int, old(self).vy as int),
            0 <= final(self).x < cols * SCALE,
            0 <= final(self).y < rows * SCALE,
    {
        let x_extent = (cols as i64) * SCALE;
        let y_extent = (rows as i64) * SCALE;
        if self.x < 0 {
            self.x = 0;
            self.vx = 0;
        } else if self.x >= x_extent {
            self.x = x_extent - EPSILON;
            self.vx = 0;
        }
        if self.y < 0 {
            self.y = 0;
            self.vy = 0;
        } else if self.y >= y_extent {
            self.y = y_extent - EPSILON;
            self.vy = 0;
        }
    }
}

} // verus!
