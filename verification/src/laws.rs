//! Global properties of the step model, each proved once and for all:
//! occupancy conservation, single-pass divergence removal, rest under a
//! zero time step, and wall absorption.

use vstd::prelude::*;
use vstd::arithmetic::div_mod::{
    lemma_fundamental_div_mod, lemma_fundamental_div_mod_converse_div,
};
use crate::particle::{PState, moved};
use crate::units::SCALE;
use crate::model::{
    moved_seq, cell_of, in_bounds, count_at, occupied, splat_x, splat_y, div_of, corr_of,
    open_faces, ind_left, ind_right, corrected_x_of, corrected_y_of,
    new_vx_of, new_vy_of, contrib_x, contrib_y, lemma_count_push, lemma_cell_in_range,
};

verus! {

/// The total of the cell counts of one grid row, over columns `0..ncols`.
pub open spec fn row_count(ps: Seq<PState>, r: int, ncols: int) -> int
    decreases ncols,
{
    if ncols <= 0 {
        0
    } else {
        row_count(ps, r, ncols - 1) + count_at(ps, ncols - 1, r)
    }
}

/// The total of the cell counts of the whole grid, over rows `0..nrows`.
pub open spec fn grid_count(ps: Seq<PState>, nrows: int, ncols: int) -> int
    decreases nrows,
{
    if nrows <= 0 {
        0
    } else {
        grid_count(ps, nrows - 1, ncols) + row_count(ps, nrows - 1, ncols)
    }
}

proof fn lemma_row_count_empty(r: int, ncols: int)
    ensures
        row_count(Seq::<PState>::empty(), r, ncols) == 0,
    decreases ncols,
{
    if ncols > 0 {
        lemma_row_count_empty(r, ncols - 1);
    }
}

proof fn lemma_grid_count_empty(nrows: int, ncols: int)
    ensures
        grid_count(Seq::<PState>::empty(), nrows, ncols) == 0,
    decreases nrows,
{
    if nrows > 0 {
        lemma_grid_count_empty(nrows - 1, ncols);
        lemma_row_count_empty(nrows - 1, ncols);
    }
}

proof fn lemma_row_count_push(ps: Seq<PState>, q: PState, r: int, ncols: int)
    ensures
        row_count(ps.push(q), r, ncols) == row_count(ps, r, ncols)
            + (if cell_of(q.y) == r && 0 <= cell_of(q.x) < ncols { 1int } else { 0int }),
    decreases ncols,
{
    if ncols > 0 {
        lemma_row_count_push(ps, q, r, ncols - 1);
        lemma_count_push(ps, q, ncols - 1, r);
    }
}

proof fn lemma_grid_count_push(ps: Seq<PState>, q: PState, nrows: int, ncols: int)
    ensures
        grid_count(ps.push(q), nrows, ncols) == grid_count(ps, nrows, ncols)
            + (if 0 <= cell_of(q.y) < nrows && 0 <= cell_of(q.x) < ncols { 1int } else { 0int }),
    decreases nrows,
{
    if nrows > 0 {
        lemma_grid_count_push(ps, q, nrows - 1, ncols);
        lemma_row_count_push(ps, q, nrows - 1, ncols);
    }
}

/// Occupancy conservation: when every particle lies inside the domain,
/// the cell counts over the whole grid total exactly the number of
/// particles — each particle is counted in exactly one cell.
pub proof fn lemma_occupancy_conservation(ps: Seq<PState>, rows: int, cols: int)
    requires
        1 <= rows,
        1 <= cols,
        forall|i: int| 0 <= i < ps.len() ==> in_bounds(#[trigger] ps[i], rows, cols),
    ensures
        grid_count(ps, rows, cols) == ps.len(),
    decreases ps.len(),
{
    if ps.len() == 0 {
        assert(ps =~= Seq::<PState>::empty());
        lemma_grid_count_empty(rows, cols);
    } else {
        let ps0 = ps.drop_last();
        let q = ps.last();
        assert(ps0.push(q) =~= ps);
        assert(forall|i: int| 0 <= i < ps0.len() ==> ps0[i] == #[trigger] ps[i]);
        lemma_occupancy_conservation(ps0, rows, cols);
        lemma_grid_count_push(ps0, q, rows, cols);
        assert(in_bounds(q, rows, cols));
        lemma_cell_in_range(q.x, cols);
        lemma_cell_in_range(q.y, rows);
    }
}

/// Divergence reduction: for an occupied cell with all four faces open
/// whose later-swept neighbours are empty, one projection pass leaves a
/// corrected divergence of exactly the flooring remainder `d % 4`; in
/// particular it is zero whenever the divergence was a multiple of four.
pub proof fn lemma_projection_divergence(ps: Seq<PState>, rows: int, cols: int, c: int, r: int)
    requires
        1 <= c <= cols - 2,
        1 <= r <= rows - 2,
        occupied(ps, c, r),
        !occupied(ps, c + 1, r),
        !occupied(ps, c, r + 1),
    ensures
        ({
            let d = div_of(ps, c, r, rows, cols);
            let cd = (corrected_x_of(ps, r, c + 1, rows, cols)
                - corrected_x_of(ps, r, c, rows, cols))
                + (corrected_y_of(ps, r + 1, c, rows, cols)
                    - corrected_y_of(ps, r, c, rows, cols));
            &&& cd == d % 4
            &&& (d % 4 == 0 ==> cd == 0)
        }),
{
    let d = div_of(ps, c, r, rows, cols);
    assert(open_faces(c, r, rows, cols) == 4);
    let k = corr_of(ps, c, r, rows, cols);
    assert(k == d / 4);
    assert(corrected_x_of(ps, r, c, rows, cols) == splat_x(ps, r, c, cols) + 1 * k);
    assert(corrected_x_of(ps, r, c + 1, rows, cols) == splat_x(ps, r, c + 1, cols) - 1 * k);
    assert(corrected_y_of(ps, r, c, rows, cols) == splat_y(ps, r, c, rows) + 1 * k);
    assert(corrected_y_of(ps, r + 1, c, rows, cols) == splat_y(ps, r + 1, c, rows) - 1 * k);
    lemma_fundamental_div_mod(d, 4);
}

/// Rest under a zero time step: a lone resting particle is left exactly
/// where it was, still at rest, by the whole step model — no gravity is
/// accumulated, nothing is splatted, nothing is corrected.
pub proof fn lemma_rest_at_zero_dt(p: PState, rows: int, cols: int)
    requires
        p.vx == 0,
        p.vy == 0,
        in_bounds(p, rows, cols),
        2 <= rows,
        2 <= cols,
    ensures
        ({
            let mp = moved_seq(seq![p], 0, rows, cols);
            &&& mp.len() == 1
            &&& mp[0] == p
            &&& new_vx_of(mp, p, rows, cols) == 0
            &&& new_vy_of(mp, p, rows, cols) == 0
        }),
{
    let s = SCALE as int;
    assert(0int / s == 0) by {
        lemma_fundamental_div_mod_converse_div(0, s, 0, 0);
    }
    let mp = moved_seq(seq![p], 0, rows, cols);
    assert(mp[0] == moved(p, 0, rows, cols));
    assert(moved(p, 0, rows, cols) == p);
    assert forall|rr: int, cc: int| splat_x(mp, rr, cc, cols) == 0
        && splat_y(mp, rr, cc, rows) == 0 by {
        assert(mp.len() == 1);
        assert(mp.drop_last() =~= Seq::<PState>::empty());
        assert(mp.last() == p);
        assert(splat_x(Seq::<PState>::empty(), rr, cc, cols) == 0);
        assert(splat_y(Seq::<PState>::empty(), rr, cc, rows) == 0);
        assert(splat_x(mp, rr, cc, cols)
            == splat_x(mp.drop_last(), rr, cc, cols) + contrib_x(mp.last(), rr, cc, cols));
        assert(splat_y(mp, rr, cc, rows)
            == splat_y(mp.drop_last(), rr, cc, rows) + contrib_y(mp.last(), rr, cc, rows));
        assert(contrib_x(p, rr, cc, cols) == 0);
        assert(contrib_y(p, rr, cc, rows) == 0);
    }
    assert forall|rr: int, cc: int|
        #[trigger] corrected_x_of(mp, rr, cc, rows, cols) == 0
            && #[trigger] corrected_y_of(mp, rr, cc, rows, cols) == 0 by {
        assert forall|cc2: int, rr2: int|
            #[trigger] corr_of(mp, cc2, rr2, rows, cols) == 0 by {
            assert(div_of(mp, cc2, rr2, rows, cols) == 0);
            let f = open_faces(cc2, rr2, rows, cols);
            assert(ind_left(cc2) + ind_right(cc2, cols) >= 1);
            assert(1 <= f <= 4);
            lemma_fundamental_div_mod_converse_div(0, f, 0, 0);
            assert(0int / f == 0);
        }
    }
}

/// Wall absorption: a particle on the left wall moving further left is
/// held at the wall by the motion phase, its horizontal velocity absorbed.
pub proof fn lemma_wall_absorption(p: PState, dt: int, rows: int, cols: int)
    requires
        p.x == 0,
        p.vx < 0,
        dt >= 1,
        1 <= rows,
        1 <= cols,
    ensures
        moved(p, dt, rows, cols).x == 0,
        moved(p, dt, rows, cols).vx == 0,
{
    let s = SCALE as int;
    assert(p.vx * dt <= -1) by (nonlinear_arith)
        requires p.vx < 0, dt >= 1;
    assert((-1int) / s == -1) by {
        lemma_fundamental_div_mod_converse_div(-1, s, -1, s - 1);
        assert(-1 == (-1) * s + (s - 1)) by (nonlinear_arith);
    }
    vstd::arithmetic::div_mod::lemma_div_is_ordered(p.vx * dt, -1, s);
    assert((p.vx * dt) / s <= -1);
}

} // verus!
