use vstd::prelude::*;

verus! {

/// Bit of the first action button (X) in a gamepad's raw state.
pub const BUTTON_1: u8 = 1;

/// Bit of the second action button (Z).
pub const BUTTON_2: u8 = 2;

/// Bit of the left direction.
pub const BUTTON_LEFT: u8 = 16;

/// Bit of the right direction.
pub const BUTTON_RIGHT: u8 = 32;

/// Bit of the up direction.
pub const BUTTON_UP: u8 = 64;

/// Bit of the down direction.
pub const BUTTON_DOWN: u8 = 128;

/// Whether `b` has exactly one bit set.
pub open spec fn single_bit(b: u8) -> bool {
    b == 1 || b == 2 || b == 4 || b == 8 || b == 16 || b == 32 || b == 64 || b == 128
}

/// The buttons pressed in `current` that were not pressed in `previous`,
/// computed as `current & (current ^ previous)`.
pub open spec fn edge_bits(current: u8, previous: u8) -> u8 {
    current & (current ^ previous)
}

/// The edge computation is "pressed now and not pressed before", bit by bit.
pub proof fn lemma_edge_bit(current: u8, previous: u8, b: u8)
    requires
        single_bit(b),
    ensures
        (edge_bits(current, previous) & b != 0) == (current & b != 0 && previous & b == 0),
        edge_bits(current, previous) == current & !previous,
{
    assert((current & (current ^ previous)) & b != 0 <==> (current & b != 0 && previous & b == 0))
        by (bit_vector)
        requires
            b == 1 || b == 2 || b == 4 || b == 8 || b == 16 || b == 32 || b == 64 || b == 128,
    ;
    assert(current & (current ^ previous) == current & !previous) by (bit_vector);
}

/// The previous snapshot that a tracker holds at tick `t` of a run in which
/// the raw state read at tick `i` is `raws[i]` and the snapshot before the
/// first tick is `first_previous`.
pub open spec fn previous_at(raws: Seq<u8>, first_previous: u8, t: int) -> u8 {
    if t == 0 {
        first_previous
    } else {
        raws[t - 1]
    }
}

/// A button held over `n` consecutive ticks, after a tick where it was up,
/// is reported held on each of the `n` ticks and just pressed on the first
/// of them only.
pub proof fn lemma_press_fires_once(
    raws: Seq<u8>,
    first_previous: u8,
    button: GamepadButton,
    start: int,
    n: int,
)
    requires
        0 <= start,
        1 <= n,
        start + n <= raws.len(),
        forall|t: int| start <= t < start + n ==> #[trigger] raws[t] & button.spec_mask() != 0,
        previous_at(raws, first_previous, start) & button.spec_mask() == 0,
    ensures
        forall|t: int|
            start <= t < start + n ==> (#[trigger] raws[t] & button.spec_mask() != 0) && ((
            edge_bits(raws[t], previous_at(raws, first_previous, t)) & button.spec_mask() != 0)
                == (t == start)),
{
    let m = button.spec_mask();
    assert forall|t: int| start <= t < start + n implies (#[trigger] raws[t] & m != 0) && ((
    edge_bits(raws[t], previous_at(raws, first_previous, t)) & m != 0) == (t == start)) by {
        lemma_edge_bit(raws[t], previous_at(raws, first_previous, t), m);
        if t > start {
            assert(raws[t - 1] & m != 0);
        }
    }
}

/// One of the four controller slots.
#[derive(Clone, Copy, Debug, PartialEq, Eq, Structural)]
pub enum GamepadIndex {
    I1,
    I2,
    I3,
    I4,
}

impl GamepadIndex {
    /// Position of the slot, from 0 to 3.
    pub open spec fn slot(self) -> int {
        match self {
            GamepadIndex::I1 => 0,
            GamepadIndex::I2 => 1,
            GamepadIndex::I3 => 2,
            GamepadIndex::I4 => 3,
        }
    }

    /// Position of the slot, from 0 to 3.
    pub fn as_usize(self) -> (r: usize)
        ensures
            r == self.slot(),
    {
        match self {
            GamepadIndex::I1 => 0,
            GamepadIndex::I2 => 1,
            GamepadIndex::I3 => 2,
            GamepadIndex::I4 => 3,
        }
    }

    /// The four slots, in order.
    pub fn all() -> (r: [GamepadIndex; 4])
        ensures
            forall|i: int| 0 <= i < 4 ==> (#[trigger] r@[i]).slot() == i,
    {
        [GamepadIndex::I1, GamepadIndex::I2, GamepadIndex::I3, GamepadIndex::I4]
    }
}

/// A button of a gamepad.
#[derive(Clone, Copy, Debug, PartialEq, Eq, Structural)]
pub enum GamepadButton {
    X,
    Z,
    Left,
    Right,
    Up,
    Down,
}

impl GamepadButton {
    /// The button's bit in a raw gamepad state.
    pub open spec fn spec_mask(self) -> u8 {
        match self {
            GamepadButton::X => BUTTON_1,
            GamepadButton::Z => BUTTON_2,
            GamepadButton::Left => BUTTON_LEFT,
            GamepadButton::Right => BUTTON_RIGHT,
            GamepadButton::Up => BUTTON_UP,
            GamepadButton::Down => BUTTON_DOWN,
        }
    }

    /// The button's bit in a raw gamepad state.
    pub fn mask(self) -> (r: u8)
        ensures
            r == self.spec_mask(),
            single_bit(r),
    {
        match self {
            GamepadButton::X => BUTTON_1,
            GamepadButton::Z => BUTTON_2,
            GamepadButton::Left => BUTTON_LEFT,
            GamepadButton::Right => BUTTON_RIGHT,
            GamepadButton::Up => BUTTON_UP,
            GamepadButton::Down => BUTTON_DOWN,
        }
    }

    /// Whether `value` is the bit of one of the six buttons.
    pub open spec fn is_button_mask(value: u8) -> bool {
        value == BUTTON_1 || value == BUTTON_2 || value == BUTTON_LEFT || value == BUTTON_RIGHT
            || value == BUTTON_UP || value == BUTTON_DOWN
    }

    /// The button whose bit is `value`; any other value is a caller's error.
    pub fn from_mask(value: u8) -> (r: GamepadButton)
        requires
            Self::is_button_mask(value),
        ensures
            r.spec_mask() == value,
    {
        if value == BUTTON_1 {
            GamepadButton::X
        } else if value == BUTTON_2 {
            GamepadButton::Z
        } else if value == BUTTON_LEFT {
            GamepadButton::Left
        } else if value == BUTTON_RIGHT {
            GamepadButton::Right
        } else if value == BUTTON_UP {
            GamepadButton::Up
        } else {
            GamepadButton::Down
        }
    }
}

/// What one gamepad reports for the current tick: the buttons held, and the
/// buttons that went down since the previous processed tick.
#[derive(Clone, Copy, Debug, Default, PartialEq, Eq, Structural)]
pub struct GamepadState {
    pub just_pressed: u8,
    pub pressed: u8,
}

impl GamepadState {
    /// Whether `button` is held this tick.
    pub fn is_button_pressed(&self, button: GamepadButton) -> (r: bool)
        ensures
            r == (self.pressed & button.spec_mask() != 0),
    {
        self.pressed & button.mask() != 0
    }

    /// Whether `button` went down this tick.
    pub fn is_button_just_pressed(&self, button: GamepadButton) -> (r: bool)
        ensures
            r == (self.just_pressed & button.spec_mask() != 0),
    {
        self.just_pressed & button.mask() != 0
    }
}

/// The input tracker of the four gamepads: the raw state of each, as it was
/// read at the end of the previous processed tick.
#[derive(Clone, Copy, Debug)]
pub struct GlobalGamepads {
    pub previous: [u8; 4],
}

impl GlobalGamepads {
    /// A tracker for which no button was down before.
    pub fn new() -> (r: Self)
        ensures
            forall|i: int| 0 <= i < 4 ==> r.previous@[i] == 0,
    {
        GlobalGamepads { previous: [0u8; 4] }
    }

    /// The state of a gamepad whose raw state is `gamepad_handle` now and
    /// was `previous_state` at the previous tick.
    pub fn get_gamepad_inner(gamepad_handle: u8, previous_state: u8) -> (r: GamepadState)
        ensures
            r.pressed == gamepad_handle,
            r.just_pressed == edge_bits(gamepad_handle, previous_state),
    {
        let pressed_this_frame = gamepad_handle & (gamepad_handle ^ previous_state);
        GamepadState { just_pressed: pressed_this_frame, pressed: gamepad_handle }
    }

    /// The state of gamepad `index`, whose raw state this tick is `raw`.
    pub fn get_gamepad(&self, index: GamepadIndex, raw: u8) -> (r: GamepadState)
        ensures
            r.pressed == raw,
            r.just_pressed == edge_bits(raw, self.previous@[index.slot()]),
    {
        Self::get_gamepad_inner(raw, self.previous[index.as_usize()])
    }

    /// The state of the four gamepads, whose raw states this tick are `raw`.
    pub fn get_all_gamepads(&self, raw: [u8; 4]) -> (r: [GamepadState; 4])
        ensures
            forall|i: int|
                0 <= i < 4 ==> (#[trigger] r@[i]).pressed == raw@[i] && r@[i].just_pressed
                    == edge_bits(raw@[i], self.previous@[i]),
    {
        [
            self.get_gamepad(GamepadIndex::I1, raw[0]),
            self.get_gamepad(GamepadIndex::I2, raw[1]),
            self.get_gamepad(GamepadIndex::I3, raw[2]),
            self.get_gamepad(GamepadIndex::I4, raw[3]),
        ]
    }

    /// Records `raw` as the previous state of gamepad `index`.
    pub fn update_previous_state(&mut self, index: GamepadIndex, raw: u8)
        ensures
            final(self).previous@ == old(self).previous@.update(index.slot(), raw),
    {
        self.previous[index.as_usize()] = raw;
    }

    /// Records the raw states of this tick as the previous ones; called once
    /// per tick, after every query of the tick.
    pub fn tick_frame_end(&mut self, raw: [u8; 4])
        ensures
            final(self).previous@ == raw@,
    {
        let all = GamepadIndex::all();
        let mut i: usize = 0;
        while i < 4
            invariant
                i <= 4,
                forall|j: int| 0 <= j < 4 ==> (#[trigger] all@[j]).slot() == j,
                forall|j: int| 0 <= j < i ==> self.previous@[j] == raw@[j],
                self.previous@.len() == 4,
            decreases 4 - i,
        {
            self.update_previous_state(all[i], raw[i]);
            i = i + 1;
        }
        proof {
            assert(self.previous@ =~= raw@);
        }
    }
}

} // verus!
