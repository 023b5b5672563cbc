use vstd::prelude::*;

use crate::random::random_below;

verus! {

/// Whether a cell is alive.
#[derive(Clone, Copy, Debug, PartialEq, Eq, Structural)]
pub enum CellState {
    Alive,
    Dead,
}

impl Default for CellState {
    fn default() -> (r: Self)
        ensures
            r == CellState::Dead,
    {
        CellState::Dead
    }
}

/// One cell of the grid: its state, and an age that is reset whenever the
/// cell is randomized or cleared.
#[derive(Clone, Copy, Debug, PartialEq, Eq, Structural)]
pub struct GameCell {
    pub state: CellState,
    pub age: u8,
}

impl GameCell {
    /// A dead cell of age zero.
    pub fn new() -> (r: Self)
        ensures
            r.state == CellState::Dead,
            r.age == 0,
    {
        GameCell { state: CellState::Dead, age: 0 }
    }

    /// Sets the cell from a roll: alive when `roll` is below `alive_chance`,
    /// dead otherwise; the age is reset.
    pub fn set_from_roll(&mut self, roll: u32, alive_chance: u32)
        ensures
            final(self).age == 0,
            final(self).state == if roll < alive_chance {
                CellState::Alive
            } else {
                CellState::Dead
            },
    {
        self.age = 0;
        self.state = if roll < alive_chance {
            CellState::Alive
        } else {
            CellState::Dead
        };
    }

    /// Sets the cell alive with probability `alive_chance / out_of`, dead
    /// otherwise, from a uniform draw in `0..out_of`; the age is reset.
    ///
    /// Whatever is drawn, a chance of zero leaves the cell dead and a chance
    /// of `out_of` leaves it alive.
    pub fn randomize(&mut self, alive_chance: u32, out_of: u32)
        requires
            0 < out_of,
            alive_chance <= out_of,
        ensures
            final(self).age == 0,
            final(self).state == CellState::Alive ==> alive_chance > 0,
            final(self).state == CellState::Dead ==> alive_chance < out_of,
    {
        let roll = random_below(out_of);
        self.set_from_roll(roll, alive_chance);
    }
}

} // verus!
