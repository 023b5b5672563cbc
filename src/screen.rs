use vstd::prelude::*;

verus! {

/// Side of the square screen, in pixels.
pub const SCREEN_SIZE: u32 = 160;

/// The size of the screen, in pixels.
#[derive(Clone, Copy, Debug, PartialEq, Eq, Structural)]
pub struct Screen {
    pub width: u16,
    pub height: u16,
}

impl Screen {
    /// The screen: 160 by 160 pixels.
    pub open spec fn spec_get() -> Screen {
        Screen { width: 160, height: 160 }
    }

    /// The screen: 160 by 160 pixels.
    pub fn get() -> (r: Screen)
        ensures
            r == Screen::spec_get(),
    {
        Screen { width: 160, height: 160 }
    }
}

} // verus!
