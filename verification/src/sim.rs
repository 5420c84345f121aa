//! The simulation: the particle collection, the occupied-cell set, and the
//! orchestration of one discrete step.

use vstd::prelude::*;
use vstd::pervasive::VecAdditionalExecFns;
use crate::grid::{Field, CellSet, Occupancy};
use crate::particle::{Particle, PState, moved};
use crate::model::{
    views, moved_seq, cell_of, offset_of, in_bounds, w_low, w_high, contrib_x, contrib_y,
    splat_x, splat_y, count_at, occupied, ind_left, ind_right, ind_top, ind_bottom,
    open_faces, div_at, corr_at, cell_done, partial_corrected_x, partial_corrected_y,
    corrected_x_at, corrected_y_at, sample_x, sample_y, corrected_x_of, corrected_y_of,
    new_vx_of, new_vy_of, lemma_cell_in_range, lemma_splat_x_push, lemma_splat_y_push,
    lemma_count_push, lemma_count_le_len,
};
use crate::units::{
    SCALE, GRAVITY, MAX_DIM, MAX_PARTICLES, VEL_MAX, VEL_STEP, DT_MAX, FIELD_MAX, CORR_MAX,
    DIV_NUM_MAX, div_floor, lemma_div_mag, lemma_half_bound,
};
use crate::rng::rand_below;

verus! {

/// The grid's cell, and the fixed-point offset inside it, of an in-domain
/// coordinate.
fn cell_and_offset(pos: i64, extent: usize) -> (r: (usize, i64))
    requires
        1 <= extent <= MAX_DIM,
        0 <= pos < extent * SCALE,
    ensures
        r.0 == cell_of(pos as int),
        r.1 == offset_of(pos as int),
        r.0 < extent,
        0 <= r.1 < SCALE,
{
    proof {
        lemma_cell_in_range(pos as int, extent as int);
    }
    let cell = div_floor(pos, SCALE);
    let off = pos - cell * SCALE;
    ((cell as usize), off)
}

/// The simulation: grid dimensions fixed for the run, the particle
/// population, and the set of cells particles touched.
pub struct Simulation {
    pub rows: usize,
    pub cols: usize,
    pub particles: Vec<Particle>,
    pub fluid_cells: CellSet,
}

impl Simulation {
    /// The domain is at least two cells wide per axis (so every cell has
    /// at least two open faces) and bounded.
    pub open spec fn dims_ok(self) -> bool {
        &&& 2 <= self.rows <= MAX_DIM
        &&& 2 <= self.cols <= MAX_DIM
    }

    /// Structural well-formedness: shape bounds, a byte-countable particle
    /// population, a matching occupied-cell set, and in-domain positions.
    pub open spec fn wf(self) -> bool {
        &&& self.dims_ok()
        &&& self.particles@.len() <= MAX_PARTICLES
        &&& self.fluid_cells.wf()
        &&& self.fluid_cells.rows == self.rows
        &&& self.fluid_cells.cols == self.cols
        &&& forall|i: int|
            0 <= i < self.particles@.len()
                ==> in_bounds(#[trigger] self.particles@[i]@, self.rows as int, self.cols as int)
    }

    /// Every particle's speed, per axis, is within the accepted window.
    pub open spec fn vels_ok(self) -> bool {
        forall|i: int|
            0 <= i < self.particles@.len()
                ==> -VEL_MAX <= #[trigger] self.particles@[i].vx <= VEL_MAX
                    && -VEL_MAX <= self.particles@[i].vy <= VEL_MAX
    }

    /// A simulation with no particles.
    pub fn empty(rows: usize, cols: usize) -> (s: Simulation)
        requires
            2 <= rows <= MAX_DIM,
            2 <= cols <= MAX_DIM,
        ensures
            s.wf(),
            s.vels_ok(),
            s.rows == rows,
            s.cols == cols,
            s.particles@.len() == 0,
            forall|c: int, r: int|
                0 <= r < rows && 0 <= c < cols ==> !(#[trigger] s.fluid_cells.has(c, r)),
    {
        Simulation {
            rows,
            cols,
            particles: Vec::new(),
            fluid_cells: CellSet::new(rows, cols),
        }
    }

    /// A simulation seeded with `count` particles at rest, each at the
    /// corner of a uniformly drawn cell; the drawn cells are recorded in
    /// the occupied-cell set.
    pub fn rand(rows: usize, cols: usize, count: usize) -> (s: Simulation)
        requires
            2 <= rows <= MAX_DIM,
            2 <= cols <= MAX_DIM,
            count <= MAX_PARTICLES,
        ensures
            s.wf(),
            s.vels_ok(),
            s.rows == rows,
            s.cols == cols,
            s.particles@.len() == count,
            forall|i: int|
                0 <= i < count
                    ==> (#[trigger] s.particles@[i]).vx == 0 && s.particles@[i].vy == 0
                        && offset_of(s.particles@[i].x as int) == 0
                        && offset_of(s.particles@[i].y as int) == 0,
            forall|c: int, r: int|
                0 <= r < rows && 0 <= c < cols
                    ==> ((#[trigger] s.fluid_cells.has(c, r))
                        <==> exists|i: int|
                            0 <= i < count
                                && cell_of(#[trigger] s.particles@[i]@.x) == c
                                && cell_of(s.particles@[i]@.y) == r),
    {
        let mut s = Simulation::empty(rows, cols);
        let mut k: usize = 0;
        while k < count
            invariant
                2 <= rows <= MAX_DIM,
                2 <= cols <= MAX_DIM,
                count <= MAX_PARTICLES,
                k <= count,
                s.rows == rows,
                s.cols == cols,
                s.wf(),
                s.particles@.len() == k,
                forall|i: int|
                    0 <= i < k
                        ==> (#[trigger] s.particles@[i]).vx == 0 && s.particles@[i].vy == 0
                            && offset_of(s.particles@[i].x as int) == 0
                            && offset_of(s.particles@[i].y as int) == 0,
                forall|c: int, r: int|
                    0 <= r < rows && 0 <= c < cols
                        ==> ((#[trigger] s.fluid_cells.has(c, r))
                            <==> exists|i: int|
                                0 <= i < k
                                    && cell_of(#[trigger] s.particles@[i]@.x) == c
                                    && cell_of(s.particles@[i]@.y) == r),
            decreases count - k,
        {
            let ghost ps0 = s.particles@;
            let ghost mask0 = s.fluid_cells;
            let x = rand_below(cols);
            let y = rand_below(rows);
            let px = (x as i64) * SCALE;
            let py = (y as i64) * SCALE;
            let p = Particle::new(px, py);
            proof {
                assert(cell_of(px as int) == x && offset_of(px as int) == 0) by {
                    assert(px as int == (x as int) * (SCALE as int) + 0);
                    vstd::arithmetic::div_mod::lemma_fundamental_div_mod_converse_div(
                        px as int, SCALE as int, x as int, 0);
                    vstd::arithmetic::div_mod::lemma_fundamental_div_mod_converse_mod(
                        px as int, SCALE as int, x as int, 0);
                }
                assert(cell_of(py as int) == y && offset_of(py as int) == 0) by {
                    assert(py as int == (y as int) * (SCALE as int) + 0);
                    vstd::arithmetic::div_mod::lemma_fundamental_div_mod_converse_div(
                        py as int, SCALE as int, y as int, 0);
                    vstd::arithmetic::div_mod::lemma_fundamental_div_mod_converse_mod(
                        py as int, SCALE as int, y as int, 0);
                }
                assert((px as int) < cols * SCALE) by {
                    assert((x as int) * (SCALE as int) <= (cols - 1) * (SCALE as int))
                        by (nonlinear_arith)
                        requires x as int <= cols - 1, SCALE as int >= 0;
                }
                assert((py as int) < rows * SCALE) by {
                    assert((y as int) * (SCALE as int) <= (rows - 1) * (SCALE as int))
                        by (nonlinear_arith)
                        requires y as int <= rows - 1, SCALE as int >= 0;
                }
            }
            s.fluid_cells.insert(x, y);
            s.particles.push(p);
            k = k + 1;
            proof {
                let ps = s.particles@;
                assert forall|c: int, r: int|
                    0 <= r < rows && 0 <= c < cols implies
                    ((#[trigger] s.fluid_cells.has(c, r))
                        <==> exists|i: int|
                            0 <= i < k
                                && cell_of(#[trigger] ps[i]@.x) == c
                                && cell_of(ps[i]@.y) == r) by {
                    if s.fluid_cells.has(c, r) {
                        if c == x as int && r == y as int {
                            assert(cell_of(ps[k - 1]@.x) == c && cell_of(ps[k - 1]@.y) == r);
                        } else {
                            assert(mask0.has(c, r));
                            let i = choose|i: int|
                                0 <= i < k - 1
                                    && cell_of(#[trigger] ps0[i]@.x) == c
                                    && cell_of(ps0[i]@.y) == r;
                            assert(ps[i] == ps0[i]);
                            assert(cell_of(ps[i]@.x) == c && cell_of(ps[i]@.y) == r);
                        }
                    } else {
                        assert forall|i: int| 0 <= i < k implies
                            !(cell_of(#[trigger] ps[i]@.x) == c && cell_of(ps[i]@.y) == r) by {
                            if i < k - 1 {
                                assert(ps[i] == ps0[i]);
                                assert(!mask0.has(c, r));
                            }
                        }
                    }
                }
            }
        }
        s
    }

    /// Appends a particle and records its cell in the occupied-cell set.
    pub fn add_particle(&mut self, particle: Particle)
        requires
            old(self).wf(),
            old(self).particles@.len() < MAX_PARTICLES,
            in_bounds(particle@, old(self).rows as int, old(self).cols as int),
        ensures
            final(self).wf(),
            final(self).rows == old(self).rows,
            final(self).cols == old(self).cols,
            final(self).particles@ == old(self).particles@.push(particle),
            forall|c: int, r: int|
                0 <= r < old(self).rows && 0 <= c < old(self).cols
                    ==> ((#[trigger] final(self).fluid_cells.has(c, r))
                        <==> (old(self).fluid_cells.has(c, r)
                            || (c == cell_of(particle@.x) && r == cell_of(particle@.y)))),
    {
        let (x_cell, _) = cell_and_offset(particle.x, self.cols);
        let (y_cell, _) = cell_and_offset(particle.y, self.rows);
        self.fluid_cells.insert(x_cell, y_cell);
        self.particles.push(particle);
    }

    /// The motion and transfer phase of one step: applies gravity and
    /// advection to every particle, clamps it to the domain, splats its
    /// velocity onto fresh staggered fields, rebuilds the occupied-cell
    /// set, and counts each particle in a fresh occupancy grid.
    pub fn splat_particles(&mut self, dt: i64) -> (out: (Field, Field, Occupancy))
        requires
            old(self).wf(),
            old(self).vels_ok(),
            0 <= dt <= DT_MAX,
        ensures
            ({
                let rows = old(self).rows as int;
                let cols = old(self).cols as int;
                let mp = moved_seq(views(old(self).particles@), dt as int, rows, cols);
                &&& final(self).rows == old(self).rows
                &&& final(self).cols == old(self).cols
                &&& final(self).wf()
                &&& final(self).particles@.len() == mp.len()
                &&& forall|i: int|
                    0 <= i < mp.len() ==> #[trigger] final(self).particles@[i]@ == mp[i]
                &&& forall|i: int|
                    0 <= i < mp.len()
                        ==> in_bounds(#[trigger] mp[i], rows, cols)
                            && -VEL_STEP <= mp[i].vx <= VEL_STEP
                            && -VEL_STEP <= mp[i].vy <= VEL_STEP
                &&& out.0.wf() && out.0.height == old(self).rows
                    && out.0.width == old(self).cols + 1
                &&& out.1.wf() && out.1.height == old(self).rows + 1
                    && out.1.width == old(self).cols
                &&& out.2.wf() && out.2.rows == old(self).rows && out.2.cols == old(self).cols
                &&& forall|r: int, c: int|
                    0 <= r < rows && 0 <= c < cols + 1
                        ==> #[trigger] out.0.at(r, c) == splat_x(mp, r, c, cols)
                            && -FIELD_MAX <= out.0.at(r, c) <= FIELD_MAX
                &&& forall|r: int, c: int|
                    0 <= r < rows + 1 && 0 <= c < cols
                        ==> #[trigger] out.1.at(r, c) == splat_y(mp, r, c, rows)
                            && -FIELD_MAX <= out.1.at(r, c) <= FIELD_MAX
                &&& forall|r: int, c: int|
                    0 <= r < rows && 0 <= c < cols
                        ==> #[trigger] out.2.at(r, c) == count_at(mp, c, r)
                &&& forall|c: int, r: int|
                    0 <= r < rows && 0 <= c < cols
                        ==> ((#[trigger] final(self).fluid_cells.has(c, r))
                            <==> occupied(mp, c, r))
            }),
    {
        let rows = self.rows;
        let cols = self.cols;
        let ghost rowsi = rows as int;
        let ghost colsi = cols as int;
        let ghost mp = moved_seq(views(old(self).particles@), dt as int, rowsi, colsi);
        self.fluid_cells.clear();
        let mut vx_f = Field::new(rows, cols + 1);
        let mut vy_f = Field::new(rows + 1, cols);
        let mut occ = Occupancy::new(rows, cols);
        let n = self.particles.len();
        let gd = div_floor(GRAVITY * dt, SCALE);
        proof {
            assert(0 <= gd <= 35_316_000) by {
                lemma_div_mag(GRAVITY * dt, 35_316_000);
                vstd::arithmetic::div_mod::lemma_div_pos_is_pos(GRAVITY * dt, SCALE as int);
            }
            assert(mp.take(0) =~= Seq::<PState>::empty());
        }
        let mut i: usize = 0;
        while i < n
            invariant
                self.rows == rows,
                self.cols == cols,
                2 <= rows <= MAX_DIM,
                2 <= cols <= MAX_DIM,
                rowsi == rows as int,
                colsi == cols as int,
                n == self.particles@.len(),
                n == mp.len(),
                n <= MAX_PARTICLES,
                i <= n,
                0 <= dt <= DT_MAX,
                mp == moved_seq(views(old(self).particles@), dt as int, rowsi, colsi),
                gd == (GRAVITY * dt) / (SCALE as int),
                0 <= gd <= 35_316_000,
                old(self).wf(),
                old(self).vels_ok(),
                old(self).rows == rows,
                old(self).cols == cols,
                self.particles@.len() == old(self).particles@.len(),
                forall|j: int|
                    i <= j < n ==> #[trigger] self.particles@[j] == old(self).particles@[j],
                forall|j: int| 0 <= j < i ==> #[trigger] self.particles@[j]@ == mp[j],
                forall|j: int|
                    0 <= j < i
                        ==> in_bounds(#[trigger] mp[j], rowsi, colsi)
                            && -VEL_STEP <= mp[j].vx <= VEL_STEP
                            && -VEL_STEP <= mp[j].vy <= VEL_STEP,
                self.fluid_cells.wf(),
                self.fluid_cells.rows == rows,
                self.fluid_cells.cols == cols,
                vx_f.wf(),
                vx_f.height == rows,
                vx_f.width == cols + 1,
                vy_f.wf(),
                vy_f.height == rows + 1,
                vy_f.width == cols,
                occ.wf(),
                occ.rows == rows,
                occ.cols == cols,
                forall|r: int, c: int|
                    0 <= r < rowsi && 0 <= c < colsi + 1
                        ==> #[trigger] vx_f.at(r, c) == splat_x(mp.take(i as int), r, c, colsi)
                            && -(i * VEL_STEP) <= vx_f.at(r, c) <= i * VEL_STEP,
                forall|r: int, c: int|
                    0 <= r < rowsi + 1 && 0 <= c < colsi
                        ==> #[trigger] vy_f.at(r, c) == splat_y(mp.take(i as int), r, c, rowsi)
                            && -(i * VEL_STEP) <= vy_f.at(r, c) <= i * VEL_STEP,
                forall|r: int, c: int|
                    0 <= r < rowsi && 0 <= c < colsi
                        ==> #[trigger] occ.at(r, c) == count_at(mp.take(i as int), c, r)
                            && occ.at(r, c) <= i,
                forall|c: int, r: int|
                    0 <= r < rowsi && 0 <= c < colsi
                        ==> ((#[trigger] self.fluid_cells.has(c, r))
                            <==> occupied(mp.take(i as int), c, r)),
            decreases n - i,
        {
            let ghost pre = mp.take(i as int);
            let mut p = self.particles[i];
            proof {
                assert(p == old(self).particles@[i as int]);
                assert(views(old(self).particles@)[i as int] == p@);
                assert(mp[i as int] == moved(p@, dt as int, rowsi, colsi));
                assert(in_bounds(p@, rowsi, colsi));
                assert(-VEL_MAX <= p.vx <= VEL_MAX && -VEL_MAX <= p.vy <= VEL_MAX);
            }
            p.add_velocity(0, gd);
            proof {
                assert(-VEL_STEP <= p.vy <= VEL_STEP);
                assert(-(VEL_MAX * DT_MAX) <= p.vx * dt <= VEL_MAX * DT_MAX) by (nonlinear_arith)
                    requires
                        -VEL_MAX <= p.vx <= VEL_MAX,
                        0 <= dt <= DT_MAX,
                ;
                assert(-(VEL_STEP * DT_MAX) <= p.vy * dt <= VEL_STEP * DT_MAX) by (nonlinear_arith)
                    requires
                        -VEL_STEP <= p.vy <= VEL_STEP,
                        0 <= dt <= DT_MAX,
                ;
                lemma_div_mag(p.vx * dt, 1_000_000_000_000_000);
                lemma_div_mag(p.vy * dt, 1_000_035_316_000_000);
            }
            p.apply_velocity(dt);
            p.apply_bounds(rows, cols);
            proof {
                assert(p@ == mp[i as int]);
                assert(in_bounds(p@, rowsi, colsi));
                assert(-VEL_STEP <= p.vx <= VEL_STEP && -VEL_STEP <= p.vy <= VEL_STEP);
            }
            let (x_cell, x_off) = cell_and_offset(p.x, cols);
            let (y_cell, y_off) = cell_and_offset(p.y, rows);
            proof {
                lemma_count_le_len(pre, x_cell as int, y_cell as int);
            }
            self.fluid_cells.insert(x_cell, y_cell);
            occ.increment(y_cell, x_cell);
            let wx0 = if x_cell == 0 { 0 } else { x_off };
            let wx1 = if x_cell >= cols { 0 } else { SCALE - x_off };
            let wy0 = if y_cell == 0 { 0 } else { y_off };
            let wy1 = if y_cell >= rows { 0 } else { SCALE - y_off };
            proof {
                assert(wx0 == w_low(p@.x) && wx1 == w_high(p@.x, colsi));
                assert(wy0 == w_low(p@.y) && wy1 == w_high(p@.y, rowsi));
                assert(-(VEL_STEP * SCALE) <= p.vx * wx0 <= VEL_STEP * SCALE
                    && -(VEL_STEP * SCALE) <= p.vx * wx1 <= VEL_STEP * SCALE) by (nonlinear_arith)
                    requires
                        -VEL_STEP <= p.vx <= VEL_STEP,
                        0 <= wx0 <= SCALE,
                        0 <= wx1 <= SCALE,
                ;
                assert(-(VEL_STEP * SCALE) <= p.vy * wy0 <= VEL_STEP * SCALE
                    && -(VEL_STEP * SCALE) <= p.vy * wy1 <= VEL_STEP * SCALE) by (nonlinear_arith)
                    requires
                        -VEL_STEP <= p.vy <= VEL_STEP,
                        0 <= wy0 <= SCALE,
                        0 <= wy1 <= SCALE,
                ;
            }
            let cx0 = div_floor(p.vx * wx0, SCALE);
            let cx1 = div_floor(p.vx * wx1, SCALE);
            let cy0 = div_floor(p.vy * wy0, SCALE);
            let cy1 = div_floor(p.vy * wy1, SCALE);
            proof {
                crate::units::lemma_scaled_bound(p@.vx, wx0 as int, VEL_STEP as int);
                crate::units::lemma_scaled_bound(p@.vx, wx1 as int, VEL_STEP as int);
                crate::units::lemma_scaled_bound(p@.vy, wy0 as int, VEL_STEP as int);
                crate::units::lemma_scaled_bound(p@.vy, wy1 as int, VEL_STEP as int);
                assert((i + 1) * VEL_STEP <= 255 * VEL_STEP
                    && i * VEL_STEP + VEL_STEP == (i + 1) * VEL_STEP) by (nonlinear_arith)
                    requires 0 <= i, i + 1 <= 255;
            }
            let ghost vx_a = vx_f;
            vx_f.add_at(y_cell, x_cell, cx0);
            let ghost vx_b = vx_f;
            vx_f.add_at(y_cell, x_cell + 1, cx1);
            let ghost vy_a = vy_f;
            vy_f.add_at(y_cell, x_cell, cy0);
            let ghost vy_b = vy_f;
            vy_f.add_at(y_cell + 1, x_cell, cy1);
            self.particles.set(i, p);
            i = i + 1;
            proof {
                let ii = i as int;
                let q = mp[ii - 1];
                assert(q == p@);
                assert(mp.take(ii) =~= pre.push(q));
                assert(cell_of(q.x) == x_cell as int && cell_of(q.y) == y_cell as int);
                assert forall|r: int, c: int|
                    0 <= r < rowsi && 0 <= c < colsi + 1 implies
                    #[trigger] vx_f.at(r, c) == splat_x(mp.take(ii), r, c, colsi)
                        && -(ii * VEL_STEP) <= vx_f.at(r, c) <= ii * VEL_STEP by {
                    lemma_splat_x_push(pre, q, r, c, colsi);
                    assert((ii - 1) * VEL_STEP + VEL_STEP == ii * VEL_STEP) by (nonlinear_arith);
                    if r == y_cell as int && c == x_cell as int {
                        assert(vx_f.at(r, c) == vx_a.at(r, c) + cx0);
                        assert(contrib_x(q, r, c, colsi) == (q.vx * w_low(q.x)) / (SCALE as int));
                    } else if r == y_cell as int && c == x_cell as int + 1 {
                        assert(vx_f.at(r, c) == vx_a.at(r, c) + cx1);
                        assert(contrib_x(q, r, c, colsi)
                            == (q.vx * w_high(q.x, colsi)) / (SCALE as int));
                    } else {
                        assert(vx_f.at(r, c) == vx_a.at(r, c));
                        assert(contrib_x(q, r, c, colsi) == 0);
                    }
                }
                assert forall|r: int, c: int|
                    0 <= r < rowsi + 1 && 0 <= c < colsi implies
                    #[trigger] vy_f.at(r, c) == splat_y(mp.take(ii), r, c, rowsi)
                        && -(ii * VEL_STEP) <= vy_f.at(r, c) <= ii * VEL_STEP by {
                    lemma_splat_y_push(pre, q, r, c, rowsi);
                    assert((ii - 1) * VEL_STEP + VEL_STEP == ii * VEL_STEP) by (nonlinear_arith);
                    if c == x_cell as int && r == y_cell as int {
                        assert(vy_f.at(r, c) == vy_a.at(r, c) + cy0);
                        assert(contrib_y(q, r, c, rowsi) == (q.vy * w_low(q.y)) / (SCALE as int));
                    } else if c == x_cell as int && r == y_cell as int + 1 {
                        assert(vy_f.at(r, c) == vy_a.at(r, c) + cy1);
                        assert(contrib_y(q, r, c, rowsi)
                            == (q.vy * w_high(q.y, rowsi)) / (SCALE as int));
                    } else {
                        assert(vy_f.at(r, c) == vy_a.at(r, c));
                        assert(contrib_y(q, r, c, rowsi) == 0);
                    }
                }
                assert forall|r: int, c: int|
                    0 <= r < rowsi && 0 <= c < colsi implies
                    #[trigger] occ.at(r, c) == count_at(mp.take(ii), c, r)
                        && occ.at(r, c) <= ii by {
                    lemma_count_push(pre, q, c, r);
                }
                assert forall|c: int, r: int|
                    0 <= r < rowsi && 0 <= c < colsi implies
                    ((#[trigger] self.fluid_cells.has(c, r))
                        <==> occupied(mp.take(ii), c, r)) by {
                    lemma_count_push(pre, q, c, r);
                    lemma_count_le_len(pre, c, r);
                }
            }
        }
        proof {
            assert(mp.take(n as int) =~= mp);
            assert(n * VEL_STEP <= 255 * VEL_STEP) by (nonlinear_arith)
                requires 0 <= n <= 255;
        }
        (vx_f, vy_f, occ)
    }

    /// The pressure-projection phase: a single row-major sweep that, for
    /// every occupied cell, writes its four face samples into fresh
    /// corrected fields, each correction computed from the splatted
    /// (pre-correction) values alone.
    #[verifier::loop_isolation(false)]
    #[verifier::rlimit(80)]
    pub fn project(&self, vx: &Field, vy: &Field) -> (out: (Field, Field))
        requires
            self.dims_ok(),
            self.fluid_cells.wf(),
            self.fluid_cells.rows == self.rows,
            self.fluid_cells.cols == self.cols,
            vx.wf(),
            vx.height == self.rows,
            vx.width == self.cols + 1,
            vy.wf(),
            vy.height == self.rows + 1,
            vy.width == self.cols,
            forall|r: int, c: int|
                0 <= r < self.rows && 0 <= c < self.cols + 1
                    ==> -FIELD_MAX <= #[trigger] vx.at(r, c) <= FIELD_MAX,
            forall|r: int, c: int|
                0 <= r < self.rows + 1 && 0 <= c < self.cols
                    ==> -FIELD_MAX <= #[trigger] vy.at(r, c) <= FIELD_MAX,
        ensures
            out.0.wf() && out.0.height == self.rows && out.0.width == self.cols + 1,
            out.1.wf() && out.1.height == self.rows + 1 && out.1.width == self.cols,
            forall|r: int, c: int|
                0 <= r < self.rows && 0 <= c < self.cols + 1
                    ==> #[trigger] out.0.at(r, c)
                            == corrected_x_at(self.fluid_cells, *vx, *vy, r, c)
                        && -CORR_MAX <= out.0.at(r, c) <= CORR_MAX,
            forall|r: int, c: int|
                0 <= r < self.rows + 1 && 0 <= c < self.cols
                    ==> #[trigger] out.1.at(r, c)
                            == corrected_y_at(self.fluid_cells, *vx, *vy, r, c)
                        && -CORR_MAX <= out.1.at(r, c) <= CORR_MAX,
    {
        let rows = self.rows;
        let cols = self.cols;
        let ghost rowsi = rows as int;
        let ghost colsi = cols as int;
        let ghost cs = self.fluid_cells;
        let mut cvx = Field::new(rows, cols + 1);
        let mut cvy = Field::new(rows + 1, cols);
        let mut row: usize = 0;
        while row < rows
            invariant
                row <= rows,
                cvx.wf(),
                cvx.height == rows,
                cvx.width == cols + 1,
                cvy.wf(),
                cvy.height == rows + 1,
                cvy.width == cols,
                forall|r: int, c: int|
                    0 <= r < rowsi && 0 <= c < colsi + 1
                        ==> #[trigger] cvx.at(r, c)
                                == partial_corrected_x(cs, *vx, *vy, r, c, row as int, 0)
                            && -CORR_MAX <= cvx.at(r, c) <= CORR_MAX,
                forall|r: int, c: int|
                    0 <= r < rowsi + 1 && 0 <= c < colsi
                        ==> #[trigger] cvy.at(r, c)
                                == partial_corrected_y(cs, *vx, *vy, r, c, row as int, 0)
                            && -CORR_MAX <= cvy.at(r, c) <= CORR_MAX,
            decreases rows - row,
        {
            let mut col: usize = 0;
            while col < cols
                invariant
                    col <= cols,
                    row < rows,
                    cvx.wf(),
                    cvx.height == rows,
                    cvx.width == cols + 1,
                    cvy.wf(),
                    cvy.height == rows + 1,
                    cvy.width == cols,
                    forall|r: int, c: int|
                        0 <= r < rowsi && 0 <= c < colsi + 1
                            ==> #[trigger] cvx.at(r, c)
                                    == partial_corrected_x(cs, *vx, *vy, r, c, row as int,
                                        col as int)
                                && -CORR_MAX <= cvx.at(r, c) <= CORR_MAX,
                    forall|r: int, c: int|
                        0 <= r < rowsi + 1 && 0 <= c < colsi
                            ==> #[trigger] cvy.at(r, c)
                                    == partial_corrected_y(cs, *vx, *vy, r, c, row as int,
                                        col as int)
                                && -CORR_MAX <= cvy.at(r, c) <= CORR_MAX,
                decreases cols - col,
            {
                let ghost coli = col as int;
                let ghost rowi = row as int;
                if self.fluid_cells.contains(col, row) {
                    let x0 = col;
                    let x1 = col + 1;
                    let y0 = row;
                    let y1 = row + 1;
                    let left: i64 = if x0 == 0 { 0 } else { 1 };
                    let right: i64 = if x1 == cols { 0 } else { 1 };
                    let top: i64 = if y0 == 0 { 0 } else { 1 };
                    let bottom: i64 = if y1 == rows { 0 } else { 1 };
                    let fnb = left + right + top + bottom;
                    proof {
                        assert(left == ind_left(coli));
                        assert(right == ind_right(coli, colsi));
                        assert(top == ind_top(rowi));
                        assert(bottom == ind_bottom(rowi, rowsi));
                        assert(fnb == open_faces(coli, rowi, rowsi, colsi));
                        assert(2 <= fnb <= 4);
                    }
                    let vx0 = vx.get(y0, x0);
                    let vx1 = vx.get(y0, x1);
                    let vy0 = vy.get(y0, x0);
                    let vy1 = vy.get(y1, x0);
                    let dvg = (vx1 - vx0) + (vy1 - vy0);
                    let corr = div_floor(dvg, fnb);
                    proof {
                        assert(dvg == div_at(*vx, *vy, coli, rowi));
                        assert(corr == corr_at(*vx, *vy, coli, rowi, rowsi, colsi));
                        lemma_half_bound(dvg as int, fnb as int, 4 * (FIELD_MAX as int));
                        assert(-(2 * FIELD_MAX) - 2 <= corr <= 2 * FIELD_MAX);
                    }
                    let new_l = vx0 + (if x0 == 0 { 0 } else { corr });
                    let new_r = vx1 - (if x1 == cols { 0 } else { corr });
                    let new_t = vy0 + (if y0 == 0 { 0 } else { corr });
                    let new_b = vy1 - (if y1 == rows { 0 } else { corr });
                    let ghost cvx_a = cvx;
                    cvx.set_at(y0, x0, new_l);
                    cvx.set_at(y0, x1, new_r);
                    let ghost cvy_a = cvy;
                    cvy.set_at(y0, x0, new_t);
                    cvy.set_at(y1, x0, new_b);
                    proof {
                        let corrg = corr_at(*vx, *vy, coli, rowi, rowsi, colsi);
                        assert(1int * corrg == corrg) by (nonlinear_arith);
                        assert(0int * corrg == 0) by (nonlinear_arith);
                        assert(ind_left(coli) * corrg == if coli == 0 { 0int } else { corrg });
                        assert(ind_right(coli, colsi) * corrg
                            == if coli + 1 == colsi { 0int } else { corrg });
                        assert(ind_top(rowi) * corrg == if rowi == 0 { 0int } else { corrg });
                        assert(ind_bottom(rowi, rowsi) * corrg
                            == if rowi + 1 == rowsi { 0int } else { corrg });
                        assert(new_l == vx.at(rowi, coli) + ind_left(coli) * corrg);
                        assert(new_r == vx.at(rowi, coli + 1) - ind_right(coli, colsi) * corrg);
                        assert(new_t == vy.at(rowi, coli) + ind_top(rowi) * corrg);
                        assert(new_b == vy.at(rowi + 1, coli)
                            - ind_bottom(rowi, rowsi) * corrg);
                        assert forall|r: int, c: int|
                            0 <= r < rowsi && 0 <= c < colsi + 1 implies
                            #[trigger] cvx.at(r, c)
                                    == partial_corrected_x(cs, *vx, *vy, r, c, rowi, coli + 1)
                                && -CORR_MAX <= cvx.at(r, c) <= CORR_MAX by {
                            if r == rowi && c == coli {
                                assert(cvx.at(r, c) == new_l);
                                assert(cs.has(coli, rowi) && cell_done(coli, rowi, rowi,
                                    coli + 1));
                            } else if r == rowi && c == coli + 1 {
                                assert(cvx.at(r, c) == new_r);
                                assert(!cell_done(coli + 1, rowi, rowi, coli + 1));
                            } else {
                                assert(cvx.at(r, c) == cvx_a.at(r, c));
                                assert(partial_corrected_x(cs, *vx, *vy, r, c, rowi, coli + 1)
                                    == partial_corrected_x(cs, *vx, *vy, r, c, rowi, coli));
                            }
                        }
                        assert forall|r: int, c: int|
                            0 <= r < rowsi + 1 && 0 <= c < colsi implies
                            #[trigger] cvy.at(r, c)
                                    == partial_corrected_y(cs, *vx, *vy, r, c, rowi, coli + 1)
                                && -CORR_MAX <= cvy.at(r, c) <= CORR_MAX by {
                            if r == rowi && c == coli {
                                assert(cvy.at(r, c) == new_t);
                            } else if r == rowi + 1 && c == coli {
                                assert(cvy.at(r, c) == new_b);
                                assert(!cell_done(coli, rowi + 1, rowi, coli + 1));
                            } else {
                                assert(cvy.at(r, c) == cvy_a.at(r, c));
                                assert(partial_corrected_y(cs, *vx, *vy, r, c, rowi, coli + 1)
                                    == partial_corrected_y(cs, *vx, *vy, r, c, rowi, coli));
                            }
                        }
                    }
                } else {
                    proof {
                        assert(!cs.has(coli, rowi));
                        assert forall|r: int, c: int|
                            0 <= r < rowsi && 0 <= c < colsi + 1 implies
                            #[trigger] cvx.at(r, c)
                                == partial_corrected_x(cs, *vx, *vy, r, c, rowi, coli + 1) by {
                            assert(partial_corrected_x(cs, *vx, *vy, r, c, rowi, coli + 1)
                                == partial_corrected_x(cs, *vx, *vy, r, c, rowi, coli));
                        }
                        assert forall|r: int, c: int|
                            0 <= r < rowsi + 1 && 0 <= c < colsi implies
                            #[trigger] cvy.at(r, c)
                                == partial_corrected_y(cs, *vx, *vy, r, c, rowi, coli + 1) by {
                            assert(partial_corrected_y(cs, *vx, *vy, r, c, rowi, coli + 1)
                                == partial_corrected_y(cs, *vx, *vy, r, c, rowi, coli));
                        }
                    }
                }
                col = col + 1;
            }
            proof {
                assert forall|r: int, c: int|
                    0 <= r < rowsi && 0 <= c < colsi + 1 implies
                    #[trigger] cvx.at(r, c)
                        == partial_corrected_x(cs, *vx, *vy, r, c, row as int + 1, 0) by {
                    assert(partial_corrected_x(cs, *vx, *vy, r, c, row as int + 1, 0)
                        == partial_corrected_x(cs, *vx, *vy, r, c, row as int, colsi));
                }
                assert forall|r: int, c: int|
                    0 <= r < rowsi + 1 && 0 <= c < colsi implies
                    #[trigger] cvy.at(r, c)
                        == partial_corrected_y(cs, *vx, *vy, r, c, row as int + 1, 0) by {
                    assert(partial_corrected_y(cs, *vx, *vy, r, c, row as int + 1, 0)
                        == partial_corrected_y(cs, *vx, *vy, r, c, row as int, colsi));
                }
            }
            row = row + 1;
        }
        proof {
            assert forall|r: int, c: int|
                0 <= r < rowsi + 1 && 0 <= c < colsi implies
                #[trigger] cvy.at(r, c) == corrected_y_at(cs, *vx, *vy, r, c) by {
                assert(partial_corrected_y(cs, *vx, *vy, r, c, rowsi + 1, 0)
                    == partial_corrected_y(cs, *vx, *vy, r, c, rowsi, 0));
            }
        }
        (cvx, cvy)
    }

    /// The grid-to-particle phase: every particle's velocity is fully
    /// replaced (PIC semantics) by the corrected fields sampled at its
    /// position; positions are untouched.
    #[verifier::loop_isolation(false)]
    #[verifier::rlimit(80)]
    pub fn resample(&mut self, cvx: &Field, cvy: &Field)
        requires
            old(self).wf(),
            cvx.wf(),
            cvx.height == old(self).rows,
            cvx.width == old(self).cols + 1,
            cvy.wf(),
            cvy.height == old(self).rows + 1,
            cvy.width == old(self).cols,
            forall|r: int, c: int|
                0 <= r < old(self).rows && 0 <= c < old(self).cols + 1
                    ==> -CORR_MAX <= #[trigger] cvx.at(r, c) <= CORR_MAX,
            forall|r: int, c: int|
                0 <= r < old(self).rows + 1 && 0 <= c < old(self).cols
                    ==> -CORR_MAX <= #[trigger] cvy.at(r, c) <= CORR_MAX,
        ensures
            final(self).wf(),
            final(self).rows == old(self).rows,
            final(self).cols == old(self).cols,
            final(self).fluid_cells == old(self).fluid_cells,
            final(self).particles@.len() == old(self).particles@.len(),
            forall|i: int|
                0 <= i < old(self).particles@.len()
                    ==> (#[trigger] final(self).particles@[i]).x == old(self).particles@[i].x
                        && final(self).particles@[i].y == old(self).particles@[i].y,
            forall|i: int|
                0 <= i < old(self).particles@.len()
                    ==> (#[trigger] final(self).particles@[i])@.vx
                            == sample_x(*cvx, old(self).particles@[i]@.x,
                                old(self).particles@[i]@.y, old(self).cols as int)
                        && final(self).particles@[i]@.vy
                            == sample_y(*cvy, old(self).particles@[i]@.x,
                                old(self).particles@[i]@.y, old(self).rows as int),
            forall|i: int|
                0 <= i < old(self).particles@.len()
                    ==> -CORR_MAX <= (#[trigger] final(self).particles@[i]).vx <= CORR_MAX
                        && -CORR_MAX <= final(self).particles@[i].vy <= CORR_MAX,
    {
        let rows = self.rows;
        let cols = self.cols;
        let ghost rowsi = rows as int;
        let ghost colsi = cols as int;
        let n = self.particles.len();
        let mut i: usize = 0;
        while i < n
            invariant
                i <= n,
                self.particles@.len() == n,
                self.rows == rows,
                self.cols == cols,
                self.fluid_cells == old(self).fluid_cells,
                forall|j: int|
                    i <= j < n ==> #[trigger] self.particles@[j] == old(self).particles@[j],
                forall|j: int|
                    0 <= j < i
                        ==> (#[trigger] self.particles@[j]).x == old(self).particles@[j].x
                            && self.particles@[j].y == old(self).particles@[j].y,
                forall|j: int|
                    0 <= j < i
                        ==> (#[trigger] self.particles@[j])@.vx
                                == sample_x(*cvx, old(self).particles@[j]@.x,
                                    old(self).particles@[j]@.y, colsi)
                            && self.particles@[j]@.vy
                                == sample_y(*cvy, old(self).particles@[j]@.x,
                                    old(self).particles@[j]@.y, rowsi),
                forall|j: int|
                    0 <= j < i
                        ==> -CORR_MAX <= (#[trigger] self.particles@[j]).vx <= CORR_MAX
                            && -CORR_MAX <= self.particles@[j].vy <= CORR_MAX,
            decreases n - i,
        {
            let mut p = self.particles[i];
            proof {
                assert(p == old(self).particles@[i as int]);
                assert(in_bounds(p@, rowsi, colsi));
            }
            let (x_cell, x_off) = cell_and_offset(p.x, cols);
            let (y_cell, y_off) = cell_and_offset(p.y, rows);
            let wx0 = if x_cell == 0 { 0 } else { x_off };
            let wx1 = if x_cell >= cols { 0 } else { SCALE - x_off };
            let wy0 = if y_cell == 0 { 0 } else { y_off };
            let wy1 = if y_cell >= rows { 0 } else { SCALE - y_off };
            proof {
                assert(wx0 == w_low(p@.x) && wx1 == w_high(p@.x, colsi));
                assert(wy0 == w_low(p@.y) && wy1 == w_high(p@.y, rowsi));
                assert(wx0 + wx1 <= SCALE && wy0 + wy1 <= SCALE);
            }
            let ax0 = cvx.get(y_cell, x_cell);
            let ax1 = cvx.get(y_cell, x_cell + 1);
            let ay0 = cvy.get(y_cell, x_cell);
            let ay1 = cvy.get(y_cell + 1, x_cell);
            proof {
                assert(-(CORR_MAX * SCALE) <= ax0 * wx0 + ax1 * wx1 <= CORR_MAX * SCALE
                    && -(CORR_MAX * SCALE) <= ax0 * wx0 <= CORR_MAX * SCALE
                    && -(CORR_MAX * SCALE) <= ax1 * wx1 <= CORR_MAX * SCALE)
                    by (nonlinear_arith)
                    requires
                        -CORR_MAX <= ax0 <= CORR_MAX,
                        -CORR_MAX <= ax1 <= CORR_MAX,
                        0 <= wx0,
                        0 <= wx1,
                        wx0 + wx1 <= SCALE,
                ;
                assert(-(CORR_MAX * SCALE) <= ay0 * wy0 + ay1 * wy1 <= CORR_MAX * SCALE
                    && -(CORR_MAX * SCALE) <= ay0 * wy0 <= CORR_MAX * SCALE
                    && -(CORR_MAX * SCALE) <= ay1 * wy1 <= CORR_MAX * SCALE)
                    by (nonlinear_arith)
                    requires
                        -CORR_MAX <= ay0 <= CORR_MAX,
                        -CORR_MAX <= ay1 <= CORR_MAX,
                        0 <= wy0,
                        0 <= wy1,
                        wy0 + wy1 <= SCALE,
                ;
                lemma_div_mag(ax0 * wx0 + ax1 * wx1, CORR_MAX as int);
                lemma_div_mag(ay0 * wy0 + ay1 * wy1, CORR_MAX as int);
            }
            let new_vx = div_floor(ax0 * wx0 + ax1 * wx1, SCALE);
            let new_vy = div_floor(ay0 * wy0 + ay1 * wy1, SCALE);
            p.set_velocity(new_vx, new_vy);
            self.particles.set(i, p);
            proof {
                let ii = i as int;
                let px = old(self).particles@[ii]@.x;
                let py = old(self).particles@[ii]@.y;
                assert(self.particles@[ii] == p);
                assert(p@.vx == sample_x(*cvx, px, py, colsi)) by {
                    assert(ax0 == cvx.at(cell_of(py), cell_of(px)));
                    assert(ax1 == cvx.at(cell_of(py), cell_of(px) + 1));
                    assert(wx0 == w_low(px) && wx1 == w_high(px, colsi));
                }
                assert(p@.vy == sample_y(*cvy, px, py, rowsi)) by {
                    assert(ay0 == cvy.at(cell_of(py), cell_of(px)));
                    assert(ay1 == cvy.at(cell_of(py) + 1, cell_of(px)));
                    assert(wy0 == w_low(py) && wy1 == w_high(py, rowsi));
                }
            }
            i = i + 1;
        }
        proof {
            assert forall|j: int|
                0 <= j < n implies
                in_bounds(#[trigger] self.particles@[j]@, self.rows as int,
                    self.cols as int) by {
                assert(self.particles@[j].x == old(self).particles@[j].x
                    && self.particles@[j].y == old(self).particles@[j].y);
                assert(in_bounds(old(self).particles@[j]@, rowsi, colsi));
            }
        }
    }

    /// One discrete time step: motion and splat, single-pass projection,
    /// resample, and the rasterized occupancy grid as output.
    pub fn simulate_step(&mut self, dt: i64) -> (grid: Vec<Vec<u8>>)
        requires
            old(self).wf(),
            old(self).vels_ok(),
            0 <= dt <= DT_MAX,
        ensures
            ({
                let rows = old(self).rows as int;
                let cols = old(self).cols as int;
                let mp = moved_seq(views(old(self).particles@), dt as int, rows, cols);
                &&& final(self).rows == old(self).rows
                &&& final(self).cols == old(self).cols
                &&& final(self).wf()
                &&& final(self).particles@.len() == old(self).particles@.len()
                &&& forall|i: int|
                    0 <= i < mp.len()
                        ==> (#[trigger] final(self).particles@[i]@).x == mp[i].x
                            && final(self).particles@[i]@.y == mp[i].y
                &&& forall|i: int|
                    0 <= i < mp.len()
                        ==> 0 <= (#[trigger] final(self).particles@[i]@).x < cols * SCALE
                            && 0 <= final(self).particles@[i]@.y < rows * SCALE
                &&& forall|i: int|
                    0 <= i < mp.len()
                        ==> (#[trigger] final(self).particles@[i]@).vx
                                == new_vx_of(mp, mp[i], rows, cols)
                            && final(self).particles@[i]@.vy == new_vy_of(mp, mp[i], rows, cols)
                &&& forall|i: int|
                    0 <= i < mp.len()
                        ==> -CORR_MAX <= (#[trigger] final(self).particles@[i]@).vx <= CORR_MAX
                            && -CORR_MAX <= final(self).particles@[i]@.vy <= CORR_MAX
                &&& grid@.len() == old(self).rows
                &&& forall|r: int| 0 <= r < rows ==> (#[trigger] grid@[r]@).len() == old(self).cols
                &&& forall|r: int, c: int|
                    0 <= r < rows && 0 <= c < cols
                        ==> (#[trigger] grid@[r]@[c]) == count_at(mp, c, r)
                &&& forall|c: int, r: int|
                    0 <= r < rows && 0 <= c < cols
                        ==> ((#[trigger] final(self).fluid_cells.has(c, r))
                            <==> occupied(mp, c, r))
            }),
    {
        let ghost rowsi = self.rows as int;
        let ghost colsi = self.cols as int;
        let ghost mp = moved_seq(views(self.particles@), dt as int, rowsi, colsi);
        let (vx_f, vy_f, occ) = self.splat_particles(dt);
        let (cvx, cvy) = self.project(&vx_f, &vy_f);
        proof {
            let cs = self.fluid_cells;
            assert forall|r: int, c: int|
                0 <= r < rowsi && 0 <= c < colsi + 1 implies
                #[trigger] cvx.at(r, c) == corrected_x_of(mp, r, c, rowsi, colsi) by {
                if c < colsi {
                    assert(cs.has(c, r) == occupied(mp, c, r));
                    assert(vx_f.at(r, c + 1) == splat_x(mp, r, c + 1, colsi));
                    assert(vy_f.at(r + 1, c) == splat_y(mp, r + 1, c, rowsi));
                    assert(vy_f.at(r, c) == splat_y(mp, r, c, rowsi));
                }
                if 1 <= c {
                    assert(cs.has(c - 1, r) == occupied(mp, c - 1, r));
                    assert(vx_f.at(r, c - 1) == splat_x(mp, r, c - 1, colsi));
                    assert(vy_f.at(r + 1, c - 1) == splat_y(mp, r + 1, c - 1, rowsi));
                    assert(vy_f.at(r, c - 1) == splat_y(mp, r, c - 1, rowsi));
                }
                assert(vx_f.at(r, c) == splat_x(mp, r, c, colsi));
            }
            assert forall|r: int, c: int|
                0 <= r < rowsi + 1 && 0 <= c < colsi implies
                #[trigger] cvy.at(r, c) == corrected_y_of(mp, r, c, rowsi, colsi) by {
                if r < rowsi {
                    assert(cs.has(c, r) == occupied(mp, c, r));
                    assert(vx_f.at(r, c + 1) == splat_x(mp, r, c + 1, colsi));
                    assert(vx_f.at(r, c) == splat_x(mp, r, c, colsi));
                    assert(vy_f.at(r + 1, c) == splat_y(mp, r + 1, c, rowsi));
                }
                if 1 <= r {
                    assert(cs.has(c, r - 1) == occupied(mp, c, r - 1));
                    assert(vx_f.at(r - 1, c + 1) == splat_x(mp, r - 1, c + 1, colsi));
                    assert(vx_f.at(r - 1, c) == splat_x(mp, r - 1, c, colsi));
                    assert(vy_f.at(r - 1, c) == splat_y(mp, r - 1, c, rowsi));
                }
                assert(vy_f.at(r, c) == splat_y(mp, r, c, rowsi));
            }
        }
        let ghost before_resample = *self;
        self.resample(&cvx, &cvy);
        proof {
            assert forall|i: int|
                0 <= i < mp.len() implies
                (#[trigger] self.particles@[i]@).vx == new_vx_of(mp, mp[i], rowsi, colsi)
                    && self.particles@[i]@.vy == new_vy_of(mp, mp[i], rowsi, colsi) by {
                assert(before_resample.particles@[i]@ == mp[i]);
                lemma_cell_in_range(mp[i].x, colsi);
                lemma_cell_in_range(mp[i].y, rowsi);
                assert(cvx.at(cell_of(mp[i].y), cell_of(mp[i].x))
                    == corrected_x_of(mp, cell_of(mp[i].y), cell_of(mp[i].x), rowsi, colsi));
                assert(cvx.at(cell_of(mp[i].y), cell_of(mp[i].x) + 1)
                    == corrected_x_of(mp, cell_of(mp[i].y), cell_of(mp[i].x) + 1, rowsi,
                        colsi));
                assert(cvy.at(cell_of(mp[i].y), cell_of(mp[i].x))
                    == corrected_y_of(mp, cell_of(mp[i].y), cell_of(mp[i].x), rowsi, colsi));
                assert(cvy.at(cell_of(mp[i].y) + 1, cell_of(mp[i].x))
                    == corrected_y_of(mp, cell_of(mp[i].y) + 1, cell_of(mp[i].x), rowsi,
                        colsi));
            }
        }
        occ.to_rows()
    }
}

} // verus!
