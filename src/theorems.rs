//! Facts about the automata that hold across calls.
use vstd::prelude::*;

use crate::conway::{cell_at, life_step, life_steps, live_neighbors, put_row};
use crate::simulation::coupled_grid_step;

verus! {

/// The bottom row of a `w` by `h` grid stored row by row.
pub open spec fn bottom_row(g: Seq<u8>, w: nat, h: nat) -> Seq<u8> {
    g.subrange(((h - 1) * w) as int, (h * w) as int)
}

/// Whether `(x, y)` lies in the 2 by 2 square whose top left cell is
/// `(x0, y0)`.
pub open spec fn in_block(x: int, y: int, x0: int, y0: int) -> bool {
    x0 <= x <= x0 + 1 && y0 <= y <= y0 + 1
}

/// A `w` by `h` grid whose only live cells form the 2 by 2 square with top
/// left cell `(x0, y0)`.
pub open spec fn block_grid(w: nat, h: nat, x0: nat, y0: nat) -> Seq<u8> {
    Seq::new(
        w * h,
        |i: int|
            if in_block(i % (w as int), i / (w as int), x0 as int, y0 as int) {
                1u8
            } else {
                0u8
            },
    )
}

/// Two grids that start equal are equal after the same number of
/// generations: the Life rule involves nothing but the grid.
pub proof fn lemma_life_deterministic(g1: Seq<u8>, g2: Seq<u8>, w: nat, h: nat, k: nat)
    requires
        g1 == g2,
    ensures
        life_steps(g1, w, h, k) == life_steps(g2, w, h, k),
{
}

/// In a tick, the row that the automaton gives up is the bottom row of the
/// grid that the Life rule is then applied to: the row is written before the
/// generation is computed, and takes part in exactly that generation.
pub proof fn lemma_row_injected_before_life(rows: Seq<Seq<u8>>, grid: Seq<u8>, w: nat, h: nat)
    requires
        w >= 1,
        h >= 1,
        rows.len() >= 1,
        rows[0].len() == w,
        grid.len() == w * h,
    ensures
        bottom_row(put_row(grid, w, (h - 1) as nat, rows[0]), w, h) == rows[0],
        coupled_grid_step(rows, grid, w, h) == life_step(
            put_row(grid, w, (h - 1) as nat, rows[0]),
            w,
            h,
        ),
{
    assert((h - 1) * w + w == h * w) by (nonlinear_arith)
        requires
            h >= 1,
    ;
    assert(bottom_row(put_row(grid, w, (h - 1) as nat, rows[0]), w, h) =~= rows[0]);
}

proof fn lemma_div_mod_in_grid(i: int, w: int, h: int)
    requires
        w >= 1,
        0 <= i < w * h,
    ensures
        0 <= i % w < w,
        0 <= i / w < h,
        i == (i / w) * w + i % w,
{
    vstd::arithmetic::div_mod::lemma_fundamental_div_mod(i, w);
    vstd::arithmetic::div_mod::lemma_mod_pos_bound(i, w);
    vstd::arithmetic::div_mod::lemma_div_pos_is_pos(i, w);
    let (x, y) = (i % w, i / w);
    assert(y < h) by (nonlinear_arith)
        requires
            i == w * y + x,
            0 <= x,
            i < w * h,
            w >= 1,
    ;
    assert(w * y == y * w) by (nonlinear_arith);
}

proof fn lemma_cell_at_block(w: nat, h: nat, x0: nat, y0: nat, x: int, y: int)
    requires
        w >= 1,
    ensures
        cell_at(block_grid(w, h, x0, y0), w as int, h as int, x, y) == if 0 <= x < w && 0 <= y < h
            && in_block(x, y, x0 as int, y0 as int) {
            1int
        } else {
            0int
        },
{
    if 0 <= x < w && 0 <= y < h {
        assert(0 <= y * w + x < w * h) by (nonlinear_arith)
            requires
                0 <= x < w,
                0 <= y < h,
        ;
        vstd::arithmetic::div_mod::lemma_fundamental_div_mod_converse(y * w + x, w as int, y, x);
    }
}

/// A 2 by 2 square of live cells in an otherwise dead grid is left as it is
/// by a generation, wherever it lies in the grid, also against an edge.
pub proof fn lemma_block_step(w: nat, h: nat, x0: nat, y0: nat)
    requires
        x0 + 1 < w,
        y0 + 1 < h,
    ensures
        life_step(block_grid(w, h, x0, y0), w, h) == block_grid(w, h, x0, y0),
{
    let g = block_grid(w, h, x0, y0);
    let (wi, hi) = (w as int, h as int);
    assert forall|i: int| 0 <= i < w * h implies #[trigger] life_step(g, w, h)[i] == g[i] by {
        lemma_div_mod_in_grid(i, wi, hi);
        let (x, y) = (i % wi, i / wi);
        lemma_cell_at_block(w, h, x0, y0, x - 1, y - 1);
        lemma_cell_at_block(w, h, x0, y0, x, y - 1);
        lemma_cell_at_block(w, h, x0, y0, x + 1, y - 1);
        lemma_cell_at_block(w, h, x0, y0, x - 1, y);
        lemma_cell_at_block(w, h, x0, y0, x + 1, y);
        lemma_cell_at_block(w, h, x0, y0, x - 1, y + 1);
        lemma_cell_at_block(w, h, x0, y0, x, y + 1);
        lemma_cell_at_block(w, h, x0, y0, x + 1, y + 1);
        let n = live_neighbors(g, wi, hi, x, y);
        if in_block(x, y, x0 as int, y0 as int) {
            assert(n == 3);
        } else {
            assert(n <= 2);
        }
    }
    assert(life_step(g, w, h) =~= g);
}

/// A 2 by 2 square of live cells in an otherwise dead grid stays as it is
/// for any number of generations.
pub proof fn lemma_block_still_life(w: nat, h: nat, x0: nat, y0: nat, k: nat)
    requires
        x0 + 1 < w,
        y0 + 1 < h,
    ensures
        life_steps(block_grid(w, h, x0, y0), w, h, k) == block_grid(w, h, x0, y0),
    decreases k,
{
    if k > 0 {
        lemma_block_still_life(w, h, x0, y0, (k - 1) as nat);
        lemma_block_step(w, h, x0, y0);
    }
}

} // verus!
