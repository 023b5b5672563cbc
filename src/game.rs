use vstd::prelude::*;

use crate::cell::{CellState, GameCell};
use crate::life::{
    alive_among, all_alive, all_dead, cell_index, lemma_index_in_grid, neighbor_count, neighbor_offsets,
    next_generation, wrap,
};

verus! {

/// Side of a cell on screen, in pixels.
pub const CELL_SIZE: u32 = 2;

/// Width of the game's grid, in cells: the 160-pixel screen over the cell size.
pub const GRID_WIDTH: u32 = 80;

/// Height of the game's grid, in cells.
pub const GRID_HEIGHT: u32 = 80;

/// Largest side a grid may have, so that every index fits in 32 bits.
pub const MAX_GRID_SIDE: u32 = 4096;

/// The states of a buffer of cells.
pub open spec fn states(cells: Seq<GameCell>) -> Seq<CellState> {
    cells.map_values(|c: GameCell| c.state)
}

/// A grid whose sides are in range has fewer than 2^24 cells.
proof fn lemma_grid_fits(w: int, h: int)
    requires
        0 <= w <= MAX_GRID_SIDE,
        0 <= h <= MAX_GRID_SIDE,
    ensures
        0 <= w * h <= 0x100_0000,
{
    assert(0 <= w * h <= 4096 * 4096) by (nonlinear_arith)
        requires
            0 <= w <= 4096,
            0 <= h <= 4096,
    ;
}

/// The automaton: a toroidal grid held in a front buffer, which is read and
/// shown, and a back buffer, which a generation is written into before it is
/// copied to the front; plus the flag that pauses the simulation.
pub struct Game {
    front: Vec<GameCell>,
    back: Vec<GameCell>,
    width: u32,
    height: u32,
    running: bool,
}

impl Game {
    /// The front buffer.
    pub closed spec fn front_view(&self) -> Seq<GameCell> {
        self.front@
    }

    /// The back buffer.
    pub closed spec fn back_view(&self) -> Seq<GameCell> {
        self.back@
    }

    /// Width of the grid, in cells.
    pub closed spec fn grid_width(&self) -> int {
        self.width as int
    }

    /// Height of the grid, in cells.
    pub closed spec fn grid_height(&self) -> int {
        self.height as int
    }

    /// Whether the simulation advances on `step_grid`.
    pub closed spec fn running(&self) -> bool {
        self.running
    }

    /// The state of every cell of the visible grid, row by row.
    pub open spec fn cells(&self) -> Seq<CellState> {
        states(self.front_view())
    }

    /// The grid's sides are in range and the front buffer holds one cell per
    /// position.
    pub open spec fn well_sized(&self) -> bool {
        &&& 1 <= self.grid_width() <= MAX_GRID_SIDE
        &&& 1 <= self.grid_height() <= MAX_GRID_SIDE
        &&& self.front_view().len() == self.grid_width() * self.grid_height()
    }

    /// The grid is well sized and both buffers hold the same cells, as they
    /// do between any two operations.
    pub open spec fn wf(&self) -> bool {
        &&& self.well_sized()
        &&& self.back_view() == self.front_view()
    }

    /// The state of cell (x, y).
    pub open spec fn cell_at(&self, x: int, y: int) -> CellState {
        self.cells()[cell_index(self.grid_width(), x, y)]
    }

    /// A grid of the game's size with every cell dead, running.
    pub fn new() -> (r: Self)
        ensures
            r.wf(),
            r.grid_width() == GRID_WIDTH,
            r.grid_height() == GRID_HEIGHT,
            all_dead(r.cells()),
            r.running(),
    {
        Self::with_size(GRID_WIDTH, GRID_HEIGHT)
    }

    /// A grid of `width` by `height` cells, every cell dead, running.
    pub fn with_size(width: u32, height: u32) -> (r: Self)
        requires
            1 <= width <= MAX_GRID_SIDE,
            1 <= height <= MAX_GRID_SIDE,
        ensures
            r.wf(),
            r.grid_width() == width,
            r.grid_height() == height,
            all_dead(r.cells()),
            r.running(),
    {
        proof {
            lemma_grid_fits(width as int, height as int);
        }
        let count = (width * height) as usize;
        let mut front: Vec<GameCell> = Vec::new();
        let mut i: usize = 0;
        while i < count
            invariant
                i <= count,
                front@.len() == i,
                forall|j: int| 0 <= j < i ==> front@[j] == (GameCell { state: CellState::Dead, age: 0 }),
            decreases count - i,
        {
            front.push(GameCell::new());
            i = i + 1;
        }
        let back = front.clone();
        proof {
            assert(back@ =~= front@);
        }
        Game { front, back, width, height, running: true }
    }

    /// Width of the grid, in cells.
    pub fn width(&self) -> (r: u32)
        ensures
            r == self.grid_width(),
    {
        self.width
    }

    /// Height of the grid, in cells.
    pub fn height(&self) -> (r: u32)
        ensures
            r == self.grid_height(),
    {
        self.height
    }

    /// Buffer index of cell (x, y).
    pub fn xy_to_index(&self, x: u32, y: u32) -> (r: usize)
        requires
            self.well_sized(),
            x < self.grid_width(),
            y < self.grid_height(),
        ensures
            r == cell_index(self.grid_width(), x as int, y as int),
            r < self.cells().len(),
    {
        proof {
            lemma_index_in_grid(self.width as int, self.height as int, x as int, y as int);
            lemma_grid_fits(self.width as int, self.height as int);
        }
        (x + y * self.width) as usize
    }

    /// Coordinates of the cell at buffer index `index`; the inverse of `xy_to_index`.
    pub fn index_to_xy(&self, index: usize) -> (r: (u32, u32))
        requires
            self.well_sized(),
            index < self.cells().len(),
        ensures
            r.0 == index as int % self.grid_width(),
            r.1 == index as int / self.grid_width(),
            r.0 < self.grid_width(),
            r.1 < self.grid_height(),
            cell_index(self.grid_width(), r.0 as int, r.1 as int) == index,
    {
        let w = self.width;
        let h = self.height;
        proof {
            lemma_grid_fits(w as int, h as int);
            let i = index as int;
            vstd::arithmetic::div_mod::lemma_fundamental_div_mod(i, w as int);
            vstd::arithmetic::div_mod::lemma_div_pos_is_pos(i, w as int);
            assert(i / (w as int) < h as int) by (nonlinear_arith)
                requires
                    0 <= i < w * h,
                    w >= 1,
                    i == (w as int) * (i / (w as int)) + i % (w as int),
                    0 <= i % (w as int),
            ;
            assert((i / (w as int)) * (w as int) == (w as int) * (i / (w as int))) by (nonlinear_arith);
        }
        let i = index as u32;
        (i % w, i / w)
    }

    /// The cell reached from `pos` by `offset`, both coordinates wrapped
    /// around the torus.
    pub fn wrap_position(&self, pos: (u32, u32), offset: (i32, i32)) -> (r: (u32, u32))
        requires
            self.well_sized(),
            pos.0 < self.grid_width(),
            pos.1 < self.grid_height(),
        ensures
            r.0 == wrap(pos.0 + offset.0, self.grid_width()),
            r.1 == wrap(pos.1 + offset.1, self.grid_height()),
            r.0 < self.grid_width(),
            r.1 < self.grid_height(),
    {
        let x = pos.0 as i64 + offset.0 as i64;
        let y = pos.1 as i64 + offset.1 as i64;
        let wx = match x.checked_rem_euclid(self.width as i64) {
            Some(v) => v,
            None => 0,
        };
        let wy = match y.checked_rem_euclid(self.height as i64) {
            Some(v) => v,
            None => 0,
        };
        (wx as u32, wy as u32)
    }

    /// Whether cell (x, y) of `buffer` is alive.
    pub fn cell_is_alive(&self, buffer: &[GameCell], x: u32, y: u32) -> (r: bool)
        requires
            self.well_sized(),
            buffer@.len() >= self.cells().len(),
            x < self.grid_width(),
            y < self.grid_height(),
        ensures
            r == (buffer@[cell_index(self.grid_width(), x as int, y as int)].state
                == CellState::Alive),
    {
        let idx = self.xy_to_index(x, y);
        buffer[idx].state == CellState::Alive
    }

    /// How many of the eight toroidal neighbors of (x, y) are alive in `buffer`.
    pub fn alive_neighbors_count(&self, buffer: &[GameCell], x: u32, y: u32) -> (r: u32)
        requires
            self.well_sized(),
            buffer@.len() >= self.cells().len(),
            x < self.grid_width(),
            y < self.grid_height(),
        ensures
            r == neighbor_count(states(buffer@), self.grid_width(), self.grid_height(), x as int, y as int),
            r <= 8,
    {
        let offsets: [(i32, i32); 8] = [
            (-1, 1),
            (0, 1),
            (1, 1),
            (-1, 0),
            (1, 0),
            (-1, -1),
            (0, -1),
            (1, -1),
        ];
        let ghost cells = states(buffer@);
        let ghost w = self.grid_width();
        let ghost h = self.grid_height();
        let mut count: u32 = 0;
        let mut k: usize = 0;
        while k < 8
            invariant
                self.well_sized(),
                buffer@.len() >= self.cells().len(),
                x < w,
                y < h,
                w == self.grid_width(),
                h == self.grid_height(),
                cells == states(buffer@),
                k <= 8,
                count <= k,
                count == alive_among(cells, w, h, x as int, y as int, k as int),
                forall|j: int|
                    0 <= j < 8 ==> offsets@[j].0 as int == #[trigger] neighbor_offsets()[j].0
                        && offsets@[j].1 as int == neighbor_offsets()[j].1,
            decreases 8 - k,
        {
            let (nx, ny) = self.wrap_position((x, y), offsets[k]);
            proof {
                lemma_index_in_grid(w, h, nx as int, ny as int);
                assert(neighbor_offsets()[k as int].0 == offsets@[k as int].0 as int);
            }
            if self.cell_is_alive(buffer, nx, ny) {
                count = count + 1;
            }
            k = k + 1;
        }
        count
    }

    /// Copies the back buffer into the front buffer.
    fn swap_buffers(&mut self)
        requires
            old(self).back_view().len() == old(self).front_view().len(),
        ensures
            final(self).front_view() == old(self).back_view(),
            final(self).back_view() == old(self).back_view(),
            final(self).grid_width() == old(self).grid_width(),
            final(self).grid_height() == old(self).grid_height(),
            final(self).running() == old(self).running(),
    {
        let n = self.back.len();
        let mut i: usize = 0;
        while i < n
            invariant
                n == self.back@.len(),
                self.front@.len() == n,
                self.back@ == old(self).back@,
                self.width == old(self).width,
                self.height == old(self).height,
                self.running == old(self).running,
                i <= n,
                forall|j: int| 0 <= j < i ==> self.front@[j] == self.back@[j],
            decreases n - i,
        {
            let c = self.back[i];
            self.front.set(i, c);
            i = i + 1;
        }
        proof {
            assert(self.front@ =~= self.back@);
        }
    }

    /// Advances the grid by one generation of the B3/S23 rule when the
    /// simulation is running; leaves it untouched when paused.
    ///
    /// Every neighbor count reads the front buffer as it was before the call:
    /// the new generation is written to the back buffer and copied to the
    /// front only once it is complete.
    pub fn step_grid(&mut self)
        requires
            old(self).wf(),
        ensures
            final(self).wf(),
            final(self).grid_width() == old(self).grid_width(),
            final(self).grid_height() == old(self).grid_height(),
            final(self).running() == old(self).running(),
            final(self).cells() == if old(self).running() {
                next_generation(old(self).cells(), old(self).grid_width(), old(self).grid_height())
            } else {
                old(self).cells()
            },
            !old(self).running() ==> *final(self) == *old(self),
    {
        if !self.running {
            return;
        }
        let ghost cells = self.cells();
        let ghost w = self.grid_width();
        let ghost h = self.grid_height();
        let ghost next = next_generation(cells, w, h);
        let n = self.front.len();
        let mut idx: usize = 0;
        while idx < n
            invariant
                self.well_sized(),
                self.front@ == old(self).front@,
                self.width == old(self).width,
                self.height == old(self).height,
                self.running == old(self).running,
                cells == self.cells(),
                w == self.grid_width(),
                h == self.grid_height(),
                next == next_generation(cells, w, h),
                n == self.front@.len(),
                self.back@.len() == n,
                idx <= n,
                forall|j: int| 0 <= j < idx ==> #[trigger] self.back@[j].state == next[j],
            decreases n - idx,
        {
            let (x, y) = self.index_to_xy(idx);
            let neighbors = self.alive_neighbors_count(self.front.as_slice(), x, y);
            let state = self.front[idx].state;
            let new_state = match state {
                CellState::Alive if neighbors == 2 || neighbors == 3 => CellState::Alive,
                CellState::Dead if neighbors == 3 => CellState::Alive,
                _ => CellState::Dead,
            };
            let mut c = self.back[idx];
            c.state = new_state;
            self.back.set(idx, c);
            idx = idx + 1;
        }
        self.swap_buffers();
        proof {
            assert(self.cells() =~= next);
        }
    }

    /// Sets cell (x, y) to `state` in both buffers, so the change is visible
    /// at once and is read by the next step's neighbor counts.
    pub fn set_cell_state(&mut self, x: u32, y: u32, state: CellState)
        requires
            old(self).wf(),
            x < old(self).grid_width(),
            y < old(self).grid_height(),
        ensures
            final(self).wf(),
            final(self).grid_width() == old(self).grid_width(),
            final(self).grid_height() == old(self).grid_height(),
            final(self).running() == old(self).running(),
            final(self).cells() == old(self).cells().update(
                cell_index(old(self).grid_width(), x as int, y as int),
                state,
            ),
            final(self).front_view() == old(self).front_view().update(
                cell_index(old(self).grid_width(), x as int, y as int),
                GameCell {
                    state,
                    age: old(self).front_view()[cell_index(old(self).grid_width(), x as int, y as int)].age,
                },
            ),
    {
        let idx = self.xy_to_index(x, y);
        let mut c = self.back[idx];
        c.state = state;
        self.back.set(idx, c);
        self.front.set(idx, c);
        proof {
            assert(self.back@ =~= self.front@);
            assert(self.front@ =~= old(self).front@.update(
                idx as int,
                GameCell { state, age: old(self).front@[idx as int].age },
            ));
            assert(self.cells() =~= old(self).cells().update(idx as int, state));
        }
    }

    /// Sets every cell dead, with its age reset, in both buffers.
    pub fn clear_grid(&mut self)
        requires
            old(self).wf(),
        ensures
            final(self).wf(),
            final(self).grid_width() == old(self).grid_width(),
            final(self).grid_height() == old(self).grid_height(),
            final(self).running() == old(self).running(),
            final(self).cells().len() == old(self).cells().len(),
            all_dead(final(self).cells()),
            forall|i: int| 0 <= i < final(self).front_view().len() ==> #[trigger] final(self).front_view()[i].age == 0,
    {
        let n = self.back.len();
        let mut i: usize = 0;
        while i < n
            invariant
                n == self.back@.len(),
                self.front@ == old(self).front@,
                self.back@.len() == n,
                self.width == old(self).width,
                self.height == old(self).height,
                self.running == old(self).running,
                i <= n,
                forall|j: int|
                    0 <= j < i ==> (#[trigger] self.back@[j]).state == CellState::Dead
                        && self.back@[j].age == 0,
            decreases n - i,
        {
            let mut c = self.back[i];
            c.state = CellState::Dead;
            c.age = 0;
            self.back.set(i, c);
            i = i + 1;
        }
        self.swap_buffers();
    }

    /// Pauses (`false`) or resumes (`true`) the simulation.
    pub fn set_simulation_running_state(&mut self, value: bool)
        ensures
            final(self).running() == value,
            final(self).front_view() == old(self).front_view(),
            final(self).back_view() == old(self).back_view(),
            final(self).grid_width() == old(self).grid_width(),
            final(self).grid_height() == old(self).grid_height(),
    {
        self.running = value;
    }

    /// Whether the simulation is running.
    pub fn get_simulation_running_state(&self) -> (r: bool)
        ensures
            r == self.running(),
    {
        self.running
    }

    /// State of cell (x, y).
    pub fn cell_state(&self, x: u32, y: u32) -> (r: CellState)
        requires
            self.wf(),
            x < self.grid_width(),
            y < self.grid_height(),
        ensures
            r == self.cell_at(x as int, y as int),
    {
        let idx = self.xy_to_index(x, y);
        self.front[idx].state
    }

    /// Sets every cell alive with probability `alive_chance / out_of`, dead
    /// otherwise, with its age reset, in both buffers.
    ///
    /// A chance of zero gives a grid with no live cell, a chance of `out_of`
    /// a grid with no dead one.
    pub fn randomize_grid(&mut self, alive_chance: u32, out_of: u32)
        requires
            old(self).wf(),
            0 < out_of,
            alive_chance <= out_of,
        ensures
            final(self).wf(),
            final(self).grid_width() == old(self).grid_width(),
            final(self).grid_height() == old(self).grid_height(),
            final(self).running() == old(self).running(),
            final(self).cells().len() == old(self).cells().len(),
            forall|i: int|
                0 <= i < final(self).cells().len() ==> (#[trigger] final(self).cells()[i]
                    == CellState::Alive ==> alive_chance > 0) && (final(self).cells()[i]
                    == CellState::Dead ==> alive_chance < out_of),
            alive_chance == 0 ==> all_dead(final(self).cells()),
            alive_chance == out_of ==> all_alive(final(self).cells()),
            forall|i: int| 0 <= i < final(self).front_view().len() ==> #[trigger] final(self).front_view()[i].age == 0,
    {
        let n = self.back.len();
        let mut i: usize = 0;
        while i < n
            invariant
                n == self.back@.len(),
                self.front@ == old(self).front@,
                self.back@.len() == n,
                self.width == old(self).width,
                self.height == old(self).height,
                self.running == old(self).running,
                0 < out_of,
                alive_chance <= out_of,
                i <= n,
                forall|j: int|
                    0 <= j < i ==> ((#[trigger] self.back@[j]).state == CellState::Alive
                        ==> alive_chance > 0) && (self.back@[j].state == CellState::Dead
                        ==> alive_chance < out_of) && self.back@[j].age == 0,
            decreases n - i,
        {
            let mut c = self.back[i];
            c.randomize(alive_chance, out_of);
            self.back.set(i, c);
            i = i + 1;
        }
        self.swap_buffers();
        proof {
            assert forall|i: int| 0 <= i < self.cells().len() implies (#[trigger] self.cells()[i]
                == CellState::Alive ==> alive_chance > 0) && (self.cells()[i]
                == CellState::Dead ==> alive_chance < out_of) by {
                assert(self.cells()[i] == self.back@[i].state);
            }
        }
    }

    /// Number of cells in the front buffer.
    pub(crate) fn front_len(&self) -> (r: usize)
        ensures
            r == self.front_view().len(),
    {
        self.front.len()
    }
}

} // verus!
