//! The mathematical model of one simulation step: cell and weight
//! geometry, the particle-to-grid splat, per-cell divergence and its
//! single-pass Jacobi correction, and the grid-to-particle resample.
//!
//! The field-level functions (`..._at`) speak about concrete staggered
//! fields and an occupied-cell set; the particle-level functions (`..._of`)
//! speak only about a sequence of particle states, and are what
//! `Simulation::simulate_step` promises about its outcome.

use vstd::prelude::*;
use crate::particle::{Particle, PState, moved};
use crate::units::SCALE;
use crate::grid::{Field, CellSet};

verus! {

/// The states carried by a sequence of particles.
pub open spec fn views(ps: Seq<Particle>) -> Seq<PState> {
    ps.map_values(|p: Particle| p@)
}

/// Every state of `ps` after the motion phase of one step.
pub open spec fn moved_seq(ps: Seq<PState>, dt: int, rows: int, cols: int) -> Seq<PState> {
    ps.map_values(|p: PState| moved(p, dt, rows, cols))
}

/// The cell that a fixed-point coordinate falls in.
pub open spec fn cell_of(pos: int) -> int {
    pos / (SCALE as int)
}

/// The fractional offset within the cell, in fixed-point units.
pub open spec fn offset_of(pos: int) -> int {
    pos % (SCALE as int)
}

/// A particle's position is inside the domain.
pub open spec fn in_bounds(p: PState, rows: int, cols: int) -> bool {
    &&& 0 <= p.x < cols * SCALE
    &&& 0 <= p.y < rows * SCALE
}

/// Weight toward the lower face of the particle's cell; zeroed when that
/// face lies on the domain boundary.
pub open spec fn w_low(pos: int) -> int {
    if cell_of(pos) <= 0 {
        0
    } else {
        offset_of(pos)
    }
}

/// Weight toward the upper face of the particle's cell; zeroed when that
/// face lies on the domain boundary.
pub open spec fn w_high(pos: int, extent: int) -> int {
    if cell_of(pos) >= extent {
        0
    } else {
        SCALE - offset_of(pos)
    }
}

/// What one particle adds to the horizontal field sample at `(r, c)`.
pub open spec fn contrib_x(p: PState, r: int, c: int, cols: int) -> int {
    if r == cell_of(p.y) {
        (if c == cell_of(p.x) { (p.vx * w_low(p.x)) / (SCALE as int) } else { 0 })
            + (if c == cell_of(p.x) + 1 { (p.vx * w_high(p.x, cols)) / (SCALE as int) } else { 0 })
    } else {
        0
    }
}

/// What one particle adds to the vertical field sample at `(r, c)`.
pub open spec fn contrib_y(p: PState, r: int, c: int, rows: int) -> int {
    if c == cell_of(p.x) {
        (if r == cell_of(p.y) { (p.vy * w_low(p.y)) / (SCALE as int) } else { 0 })
            + (if r == cell_of(p.y) + 1 { (p.vy * w_high(p.y, rows)) / (SCALE as int) } else { 0 })
    } else {
        0
    }
}

/// The horizontal staggered field splatted by `ps`: plain accumulation,
/// with no weight normalization.
pub open spec fn splat_x(ps: Seq<PState>, r: int, c: int, cols: int) -> int
    decreases ps.len(),
{
    if ps.len() == 0 {
        0
    } else {
        splat_x(ps.drop_last(), r, c, cols) + contrib_x(ps.last(), r, c, cols)
    }
}

/// The vertical staggered field splatted by `ps`.
pub open spec fn splat_y(ps: Seq<PState>, r: int, c: int, rows: int) -> int
    decreases ps.len(),
{
    if ps.len() == 0 {
        0
    } else {
        splat_y(ps.drop_last(), r, c, rows) + contrib_y(ps.last(), r, c, rows)
    }
}

/// How many particles of `ps` fall in cell `(c, r)`.
pub open spec fn count_at(ps: Seq<PState>, c: int, r: int) -> int
    decreases ps.len(),
{
    if ps.len() == 0 {
        0
    } else {
        count_at(ps.drop_last(), c, r)
            + (if cell_of(ps.last().x) == c && cell_of(ps.last().y) == r { 1int } else { 0int })
    }
}

/// Whether cell `(c, r)` holds at least one particle of `ps`.
pub open spec fn occupied(ps: Seq<PState>, c: int, r: int) -> bool {
    count_at(ps, c, r) > 0
}

/// Openness of a cell's left face: a domain edge counts as a solid wall.
pub open spec fn ind_left(c: int) -> int {
    if c == 0 { 0 } else { 1 }
}

pub open spec fn ind_right(c: int, cols: int) -> int {
    if c + 1 == cols { 0 } else { 1 }
}

pub open spec fn ind_top(r: int) -> int {
    if r == 0 { 0 } else { 1 }
}

pub open spec fn ind_bottom(r: int, rows: int) -> int {
    if r + 1 == rows { 0 } else { 1 }
}

/// How many of the four faces of cell `(c, r)` are open; between 2 and 4
/// on a domain of at least two cells per axis.
pub open spec fn open_faces(c: int, r: int, rows: int, cols: int) -> int {
    ind_left(c) + ind_right(c, cols) + ind_top(r) + ind_bottom(r, rows)
}

/// Net volume outflow of cell `(c, r)` read from concrete staggered fields.
pub open spec fn div_at(vx: Field, vy: Field, c: int, r: int) -> int {
    (vx.at(r, c + 1) - vx.at(r, c)) + (vy.at(r + 1, c) - vy.at(r, c))
}

/// The per-open-face correction for cell `(c, r)` (flooring division).
pub open spec fn corr_at(vx: Field, vy: Field, c: int, r: int, rows: int, cols: int) -> int {
    div_at(vx, vy, c, r) / open_faces(c, r, rows, cols)
}

/// Whether the projection pass has already handled cell `(c, r)` when it
/// stands at cell `(pcol, prow)` of its row-major sweep.
pub open spec fn cell_done(c: int, r: int, prow: int, pcol: int) -> bool {
    r < prow || (r == prow && c < pcol)
}

/// The corrected horizontal sample at face `(r, c)` while the sweep stands
/// at `(pcol, prow)`.  A face keeps the write of the latest occupied cell
/// beside it that the sweep has passed, and is zero before any such write.
pub open spec fn partial_corrected_x(
    cs: CellSet, vx: Field, vy: Field, r: int, c: int, prow: int, pcol: int,
) -> int {
    let rows = cs.rows as int;
    let cols = cs.cols as int;
    if c < cols && cs.has(c, r) && cell_done(c, r, prow, pcol) {
        vx.at(r, c) + ind_left(c) * corr_at(vx, vy, c, r, rows, cols)
    } else if 1 <= c && cs.has(c - 1, r) && cell_done(c - 1, r, prow, pcol) {
        vx.at(r, c) - ind_right(c - 1, cols) * corr_at(vx, vy, c - 1, r, rows, cols)
    } else {
        0
    }
}

/// The corrected vertical sample at face `(r, c)` while the sweep stands
/// at `(pcol, prow)`.
pub open spec fn partial_corrected_y(
    cs: CellSet, vx: Field, vy: Field, r: int, c: int, prow: int, pcol: int,
) -> int {
    let rows = cs.rows as int;
    let cols = cs.cols as int;
    if r < rows && cs.has(c, r) && cell_done(c, r, prow, pcol) {
        vy.at(r, c) + ind_top(r) * corr_at(vx, vy, c, r, rows, cols)
    } else if 1 <= r && cs.has(c, r - 1) && cell_done(c, r - 1, prow, pcol) {
        vy.at(r, c) - ind_bottom(r - 1, rows) * corr_at(vx, vy, c, r - 1, rows, cols)
    } else {
        0
    }
}

/// The corrected horizontal sample once the sweep is complete.
pub open spec fn corrected_x_at(cs: CellSet, vx: Field, vy: Field, r: int, c: int) -> int {
    partial_corrected_x(cs, vx, vy, r, c, cs.rows as int, 0)
}

/// The corrected vertical sample once the sweep is complete.
pub open spec fn corrected_y_at(cs: CellSet, vx: Field, vy: Field, r: int, c: int) -> int {
    partial_corrected_y(cs, vx, vy, r, c, cs.rows as int + 1, 0)
}

/// The horizontal velocity resampled from a corrected field at a
/// fixed-point position.
pub open spec fn sample_x(cvx: Field, x: int, y: int, cols: int) -> int {
    (cvx.at(cell_of(y), cell_of(x)) * w_low(x)
        + cvx.at(cell_of(y), cell_of(x) + 1) * w_high(x, cols)) / (SCALE as int)
}

/// The vertical velocity resampled from a corrected field.
pub open spec fn sample_y(cvy: Field, x: int, y: int, rows: int) -> int {
    (cvy.at(cell_of(y), cell_of(x)) * w_low(y)
        + cvy.at(cell_of(y) + 1, cell_of(x)) * w_high(y, rows)) / (SCALE as int)
}

/// Particle-level divergence of the splatted fields at cell `(c, r)`.
pub open spec fn div_of(ps: Seq<PState>, c: int, r: int, rows: int, cols: int) -> int {
    (splat_x(ps, r, c + 1, cols) - splat_x(ps, r, c, cols))
        + (splat_y(ps, r + 1, c, rows) - splat_y(ps, r, c, rows))
}

/// Particle-level per-open-face correction for cell `(c, r)`.
pub open spec fn corr_of(ps: Seq<PState>, c: int, r: int, rows: int, cols: int) -> int {
    div_of(ps, c, r, rows, cols) / open_faces(c, r, rows, cols)
}

/// Particle-level corrected horizontal sample at face `(r, c)`.
pub open spec fn corrected_x_of(ps: Seq<PState>, r: int, c: int, rows: int, cols: int) -> int {
    if c < cols && occupied(ps, c, r) {
        splat_x(ps, r, c, cols) + ind_left(c) * corr_of(ps, c, r, rows, cols)
    } else if 1 <= c && occupied(ps, c - 1, r) {
        splat_x(ps, r, c, cols) - ind_right(c - 1, cols) * corr_of(ps, c - 1, r, rows, cols)
    } else {
        0
    }
}

/// Particle-level corrected vertical sample at face `(r, c)`.
pub open spec fn corrected_y_of(ps: Seq<PState>, r: int, c: int, rows: int, cols: int) -> int {
    if r < rows && occupied(ps, c, r) {
        splat_y(ps, r, c, rows) + ind_top(r) * corr_of(ps, c, r, rows, cols)
    } else if 1 <= r && occupied(ps, c, r - 1) {
        splat_y(ps, r, c, rows) - ind_bottom(r - 1, rows) * corr_of(ps, c, r - 1, rows, cols)
    } else {
        0
    }
}

/// The horizontal velocity a particle in state `p` receives back from the
/// corrected fields of `ps`.
pub open spec fn new_vx_of(ps: Seq<PState>, p: PState, rows: int, cols: int) -> int {
    (corrected_x_of(ps, cell_of(p.y), cell_of(p.x), rows, cols) * w_low(p.x)
        + corrected_x_of(ps, cell_of(p.y), cell_of(p.x) + 1, rows, cols) * w_high(p.x, cols))
        / (SCALE as int)
}

/// The vertical velocity a particle in state `p` receives back.
pub open spec fn new_vy_of(ps: Seq<PState>, p: PState, rows: int, cols: int) -> int {
    (corrected_y_of(ps, cell_of(p.y), cell_of(p.x), rows, cols) * w_low(p.y)
        + corrected_y_of(ps, cell_of(p.y) + 1, cell_of(p.x), rows, cols) * w_high(p.y, rows))
        / (SCALE as int)
}

/// Appending a particle adds exactly its contribution to every horizontal
/// field sample.
pub proof fn lemma_splat_x_push(ps: Seq<PState>, q: PState, r: int, c: int, cols: int)
    ensures
        splat_x(ps.push(q), r, c, cols) == splat_x(ps, r, c, cols) + contrib_x(q, r, c, cols),
{
    assert(ps.push(q).drop_last() =~= ps);
    assert(ps.push(q).last() == q);
}

/// Appending a particle adds exactly its contribution to every vertical
/// field sample.
pub proof fn lemma_splat_y_push(ps: Seq<PState>, q: PState, r: int, c: int, rows: int)
    ensures
        splat_y(ps.push(q), r, c, rows) == splat_y(ps, r, c, rows) + contrib_y(q, r, c, rows),
{
    assert(ps.push(q).drop_last() =~= ps);
    assert(ps.push(q).last() == q);
}

/// Appending a particle raises exactly its own cell's count by one.
pub proof fn lemma_count_push(ps: Seq<PState>, q: PState, c: int, r: int)
    ensures
        count_at(ps.push(q), c, r) == count_at(ps, c, r)
            + (if cell_of(q.x) == c && cell_of(q.y) == r { 1int } else { 0int }),
{
    assert(ps.push(q).drop_last() =~= ps);
    assert(ps.push(q).last() == q);
}

/// A cell's count never passes the number of particles.
pub proof fn lemma_count_le_len(ps: Seq<PState>, c: int, r: int)
    ensures
        0 <= count_at(ps, c, r) <= ps.len(),
    decreases ps.len(),
{
    if ps.len() > 0 {
        lemma_count_le_len(ps.drop_last(), c, r);
    }
}

/// A particle in bounds falls in a cell of the grid, and its offset is a
/// proper fraction.
pub proof fn lemma_cell_in_range(pos: int, extent: int)
    requires
        0 <= pos < extent * SCALE,
        1 <= extent,
    ensures
        0 <= cell_of(pos) < extent,
        0 <= offset_of(pos) < SCALE,
        pos == cell_of(pos) * SCALE + offset_of(pos),
{
    let s = SCALE as int;
    vstd::arithmetic::div_mod::lemma_fundamental_div_mod(pos, s);
    vstd::arithmetic::div_mod::lemma_div_pos_is_pos(pos, s);
    vstd::arithmetic::div_mod::lemma_mod_bound(pos, s);
    assert(cell_of(pos) < extent) by (nonlinear_arith)
        requires
            pos == s * cell_of(pos) + offset_of(pos),
            0 <= offset_of(pos) < s,
            pos < extent * s,
            0 <= cell_of(pos),
            s == 3600;
}

} // verus!
