use vstd::prelude::*;

use crate::gamepad::{edge_bits, single_bit};

verus! {

/// Bit of the left mouse button in the raw button state.
pub const MOUSE_LEFT: u8 = 1;

/// Bit of the right mouse button.
pub const MOUSE_RIGHT: u8 = 2;

/// Bit of the middle mouse button.
pub const MOUSE_MIDDLE: u8 = 4;

/// A mouse button.
#[derive(Clone, Copy, Debug, PartialEq, Eq, Structural)]
pub enum MouseButton {
    Left,
    Right,
    Middle,
}

impl MouseButton {
    /// The button's bit in the raw button state.
    pub open spec fn spec_mask(self) -> u8 {
        match self {
            MouseButton::Left => MOUSE_LEFT,
            MouseButton::Right => MOUSE_RIGHT,
            MouseButton::Middle => MOUSE_MIDDLE,
        }
    }

    /// The button's bit in the raw button state.
    pub fn mask(self) -> (r: u8)
        ensures
            r == self.spec_mask(),
            single_bit(r),
    {
        match self {
            MouseButton::Left => MOUSE_LEFT,
            MouseButton::Right => MOUSE_RIGHT,
            MouseButton::Middle => MOUSE_MIDDLE,
        }
    }
}

/// What the mouse reports for the current tick: the pointer position in
/// pixels, the buttons held, and the buttons that went down since the
/// previous processed tick.
#[derive(Clone, Copy, Debug, Default, PartialEq, Eq, Structural)]
pub struct MouseState {
    pub x: i16,
    pub y: i16,
    pub pressed: u8,
    pub just_pressed: u8,
}

impl MouseState {
    /// The pointer position, in pixels.
    pub fn position(&self) -> (r: (i16, i16))
        ensures
            r == (self.x, self.y),
    {
        (self.x, self.y)
    }

    /// Whether `button` is held this tick.
    pub fn is_button_pressed(&self, button: MouseButton) -> (r: bool)
        ensures
            r == (self.pressed & button.spec_mask() != 0),
    {
        self.pressed & button.mask() != 0
    }

    /// Whether `button` went down this tick.
    pub fn is_button_just_pressed(&self, button: MouseButton) -> (r: bool)
        ensures
            r == (self.just_pressed & button.spec_mask() != 0),
    {
        self.just_pressed & button.mask() != 0
    }
}

/// The input tracker of the mouse: its raw button state as it was read at
/// the end of the previous processed tick.
#[derive(Clone, Copy, Debug, PartialEq, Eq, Structural)]
pub struct GlobalMouse {
    pub previous: u8,
}

impl GlobalMouse {
    /// A tracker for which no button was down before.
    pub fn new() -> (r: Self)
        ensures
            r.previous == 0,
    {
        GlobalMouse { previous: 0 }
    }

    /// The state of the mouse, whose pointer is at (`x`, `y`) and whose raw
    /// button state is `buttons` this tick.
    pub open spec fn get_spec(&self, x: i16, y: i16, buttons: u8) -> MouseState {
        MouseState { x, y, pressed: buttons, just_pressed: edge_bits(buttons, self.previous) }
    }

    /// The state of the mouse, whose pointer is at (`x`, `y`) and whose raw
    /// button state is `buttons` this tick.
    pub fn get(&self, x: i16, y: i16, buttons: u8) -> (r: MouseState)
        ensures
            r == self.get_spec(x, y, buttons),
    {
        MouseState { x, y, pressed: buttons, just_pressed: buttons & (buttons ^ self.previous) }
    }

    /// Records `buttons` as the previous raw button state; called once per
    /// tick, after every query of the tick.
    pub fn tick_frame_end(&mut self, buttons: u8)
        ensures
            final(self).previous == buttons,
    {
        self.previous = buttons;
    }
}

} // verus!
