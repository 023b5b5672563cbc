use vstd::prelude::*;

use crate::cell::CellState;

verus! {

/// Position of cell (x, y) in a row-major buffer of rows `w` cells wide.
pub open spec fn cell_index(w: int, x: int, y: int) -> int {
    x + y * w
}

/// A coordinate wrapped onto `[0, d)`; for a positive `d` this is the
/// non-negative remainder.
pub open spec fn wrap(v: int, d: int) -> int {
    v % d
}

/// The eight neighbor offsets, in the order the automaton visits them.
pub open spec fn neighbor_offsets() -> Seq<(int, int)> {
    seq![(-1, 1), (0, 1), (1, 1), (-1, 0), (1, 0), (-1, -1), (0, -1), (1, -1)]
}

/// Whether the cell at (x, y), both wrapped onto the torus, is alive.
pub open spec fn is_alive_at(cells: Seq<CellState>, w: int, h: int, x: int, y: int) -> bool {
    cells[cell_index(w, wrap(x, w), wrap(y, h))] == CellState::Alive
}

/// Whether the neighbor of (x, y) at offset number `k` is alive.
pub open spec fn neighbor_alive(cells: Seq<CellState>, w: int, h: int, x: int, y: int, k: int) -> bool {
    is_alive_at(cells, w, h, x + neighbor_offsets()[k].0, y + neighbor_offsets()[k].1)
}

/// How many of the first `k` neighbors of (x, y) are alive.
pub open spec fn alive_among(cells: Seq<CellState>, w: int, h: int, x: int, y: int, k: int) -> nat
    decreases k,
{
    if k <= 0 {
        0
    } else {
        alive_among(cells, w, h, x, y, k - 1) + if neighbor_alive(cells, w, h, x, y, k - 1) {
            1nat
        } else {
            0nat
        }
    }
}

/// How many of the eight toroidal neighbors of (x, y) are alive.
pub open spec fn neighbor_count(cells: Seq<CellState>, w: int, h: int, x: int, y: int) -> nat {
    alive_among(cells, w, h, x, y, 8)
}

/// The B3/S23 rule: a live cell survives with two or three live neighbors,
/// a dead cell is born with exactly three, every other cell is dead.
pub open spec fn next_state(s: CellState, n: nat) -> CellState {
    if n == 3 || (s == CellState::Alive && n == 2) {
        CellState::Alive
    } else {
        CellState::Dead
    }
}

/// The generation that follows `cells` on a `w` by `h` torus.
pub open spec fn next_generation(cells: Seq<CellState>, w: int, h: int) -> Seq<CellState> {
    Seq::new(cells.len(), |i: int| next_state(cells[i], neighbor_count(cells, w, h, i % w, i / w)))
}

/// Whether every cell is dead.
pub open spec fn all_dead(cells: Seq<CellState>) -> bool {
    forall|i: int| 0 <= i < cells.len() ==> cells[i] == CellState::Dead
}

/// Whether every cell is alive.
pub open spec fn all_alive(cells: Seq<CellState>) -> bool {
    forall|i: int| 0 <= i < cells.len() ==> cells[i] == CellState::Alive
}

/// Whether `cells` is a valid grid of `w` by `h` cells.
pub open spec fn valid_grid(cells: Seq<CellState>, w: int, h: int) -> bool {
    w >= 1 && h >= 1 && cells.len() == w * h
}

/// Every wrapped coordinate pair lands inside the grid.
pub proof fn lemma_wrapped_in_grid(w: int, h: int, x: int, y: int)
    requires
        w >= 1,
        h >= 1,
    ensures
        0 <= wrap(x, w) < w,
        0 <= wrap(y, h) < h,
        0 <= cell_index(w, wrap(x, w), wrap(y, h)) < w * h,
{
    lemma_index_in_grid(w, h, wrap(x, w), wrap(y, h));
}

/// A coordinate pair inside the grid has its index inside the buffer.
pub proof fn lemma_index_in_grid(w: int, h: int, x: int, y: int)
    requires
        0 <= x < w,
        0 <= y < h,
    ensures
        0 <= cell_index(w, x, y) < w * h,
        0 <= y * w,
{
    assert(0 <= y * w && 0 <= x + y * w < w * h) by (nonlinear_arith)
        requires
            0 <= x < w,
            0 <= y < h,
    ;
}

/// With no live cell anywhere, no neighbor is alive.
proof fn lemma_alive_among_dead(cells: Seq<CellState>, w: int, h: int, x: int, y: int, k: int)
    requires
        valid_grid(cells, w, h),
        all_dead(cells),
    ensures
        alive_among(cells, w, h, x, y, k) == 0,
    decreases k,
{
    if k > 0 {
        lemma_alive_among_dead(cells, w, h, x, y, k - 1);
        let o = neighbor_offsets()[k - 1];
        lemma_wrapped_in_grid(w, h, x + o.0, y + o.1);
    }
}

/// A grid with no live cell stays without one: nothing is born from nothing.
pub proof fn lemma_dead_grid_stays_dead(cells: Seq<CellState>, w: int, h: int)
    requires
        valid_grid(cells, w, h),
        all_dead(cells),
    ensures
        all_dead(next_generation(cells, w, h)),
        next_generation(cells, w, h).len() == cells.len(),
{
    assert forall|i: int| 0 <= i < cells.len() implies next_generation(cells, w, h)[i]
        == CellState::Dead by {
        lemma_alive_among_dead(cells, w, h, i % w, i / w, 8);
    }
}

/// A live cell with no live neighbor is dead in the next generation.
pub proof fn lemma_lonely_cell_dies(cells: Seq<CellState>, w: int, h: int, i: int)
    requires
        valid_grid(cells, w, h),
        0 <= i < cells.len(),
        cells[i] == CellState::Alive,
        neighbor_count(cells, w, h, i % w, i / w) == 0,
    ensures
        next_generation(cells, w, h)[i] == CellState::Dead,
{
}

/// A dead cell with exactly three live neighbors is born; one with four or
/// more stays dead.
pub proof fn lemma_birth_and_overcrowding(cells: Seq<CellState>, w: int, h: int, i: int)
    requires
        valid_grid(cells, w, h),
        0 <= i < cells.len(),
        cells[i] == CellState::Dead,
    ensures
        neighbor_count(cells, w, h, i % w, i / w) == 3 ==> next_generation(cells, w, h)[i]
            == CellState::Alive,
        neighbor_count(cells, w, h, i % w, i / w) >= 4 ==> next_generation(cells, w, h)[i]
            == CellState::Dead,
{
}

/// Counting more neighbors never gives fewer live ones.
proof fn lemma_alive_among_monotone(cells: Seq<CellState>, w: int, h: int, x: int, y: int, j: int, k: int)
    requires
        0 <= j <= k,
    ensures
        alive_among(cells, w, h, x, y, j) <= alive_among(cells, w, h, x, y, k),
    decreases k - j,
{
    if j < k {
        lemma_alive_among_monotone(cells, w, h, x, y, j, k - 1);
    }
}

/// A live neighbor at offset number `k` counts toward the neighbor count.
pub proof fn lemma_live_neighbor_counts(cells: Seq<CellState>, w: int, h: int, x: int, y: int, k: int)
    requires
        0 <= k < 8,
        neighbor_alive(cells, w, h, x, y, k),
    ensures
        neighbor_count(cells, w, h, x, y) >= 1,
{
    lemma_alive_among_monotone(cells, w, h, x, y, k + 1, 8);
}

/// The grid wraps at its corners: the cell at (w - 1, h - 1) is the
/// neighbor of (0, 0) at offset (-1, -1), and a live one is counted.
pub proof fn lemma_corner_neighbor(cells: Seq<CellState>, w: int, h: int)
    requires
        valid_grid(cells, w, h),
        cells[cell_index(w, w - 1, h - 1)] == CellState::Alive,
    ensures
        neighbor_offsets()[5] == (-1int, -1int),
        wrap(0 + neighbor_offsets()[5].0, w) == w - 1,
        wrap(0 + neighbor_offsets()[5].1, h) == h - 1,
        neighbor_alive(cells, w, h, 0, 0, 5),
        neighbor_count(cells, w, h, 0, 0) >= 1,
{
    assert((-1int) % w == w - 1) by {
        vstd::arithmetic::div_mod::lemma_fundamental_div_mod_converse_mod(-1, w, -1, w - 1);
    }
    assert((-1int) % h == h - 1) by {
        vstd::arithmetic::div_mod::lemma_fundamental_div_mod_converse_mod(-1, h, -1, h - 1);
    }
    lemma_live_neighbor_counts(cells, w, h, 0, 0, 5);
}

/// A cell set alive is counted by its neighbors in the very next
/// generation: the cell to its right, for one, sees it at offset (-1, 0).
pub proof fn lemma_set_cell_is_counted(cells: Seq<CellState>, w: int, h: int, x: int, y: int)
    requires
        valid_grid(cells, w, h),
        0 <= x < w,
        0 <= y < h,
    ensures
        neighbor_alive(cells.update(cell_index(w, x, y), CellState::Alive), w, h, wrap(x + 1, w), y, 3),
        neighbor_count(cells.update(cell_index(w, x, y), CellState::Alive), w, h, wrap(x + 1, w), y)
            >= 1,
{
    let c = cells.update(cell_index(w, x, y), CellState::Alive);
    lemma_index_in_grid(w, h, x, y);
    assert(wrap(wrap(x + 1, w) - 1, w) == x) by {
        if x + 1 < w {
            vstd::arithmetic::div_mod::lemma_small_mod((x + 1) as nat, w as nat);
            vstd::arithmetic::div_mod::lemma_small_mod(x as nat, w as nat);
        } else {
            vstd::arithmetic::div_mod::lemma_mod_self_0(w);
            vstd::arithmetic::div_mod::lemma_small_mod(x as nat, w as nat);
            assert(x == w - 1);
            if w > 1 {
                assert((-1int) % w == w - 1) by {
                    vstd::arithmetic::div_mod::lemma_fundamental_div_mod_converse_mod(-1, w, -1, w - 1);
                }
            }
        }
    }
    assert(wrap(y + 0, h) == y) by {
        vstd::arithmetic::div_mod::lemma_small_mod(y as nat, h as nat);
    }
    lemma_live_neighbor_counts(c, w, h, wrap(x + 1, w), y, 3);
}

} // verus!
