//! Game of Life on a toroidal grid, driven frame by frame by a fantasy-console host.
//!
//! The library holds the whole per-tick logic as explicit state: the
//! double-buffered automaton, the edge-triggered input trackers, the frame
//! scheduler, the draw-colors register and the list of draw calls a frame emits.
//! The host program reads the raw hardware registers, hands them in, and
//! performs the draw calls.

pub mod cell;
pub mod display;
pub mod draw_colors;
pub mod engine;
pub mod game;
pub mod gamepad;
pub mod life;
pub mod mouse;
pub mod palette;
pub mod play;
mod random;
pub mod screen;
pub mod text;

pub use cell::{CellState, GameCell};
pub use display::{DrawCommand, Surface};
pub use draw_colors::{
    shift_u16, DrawColors, DrawColorsBuilder, DrawColorsIndex, GlobalDrawColors, PaletteColor,
};
pub use engine::{Engine, FrameContext, RawInput, FPS};
pub use game::{Game, CELL_SIZE, GRID_HEIGHT, GRID_WIDTH, MAX_GRID_SIDE};
pub use gamepad::{
    GamepadButton, GamepadIndex, GamepadState, GlobalGamepads, BUTTON_1, BUTTON_2, BUTTON_DOWN,
    BUTTON_LEFT, BUTTON_RIGHT, BUTTON_UP,
};
pub use mouse::{GlobalMouse, MouseButton, MouseState, MOUSE_LEFT, MOUSE_MIDDLE, MOUSE_RIGHT};
pub use palette::{GlobalPalette, Palette};
pub use play::{draw_instructions, start, update, DRAW_INSTRUCTIONS_FOR_SECONDS};
pub use screen::{Screen, SCREEN_SIZE};
pub use text::{Text, TextHorizontalAlignment, TextVerticalAligment};
