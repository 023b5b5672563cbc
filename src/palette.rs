use vstd::prelude::*;

verus! {

/// Four colors, each as 0xRRGGBB.
#[derive(Clone, Copy, Debug, PartialEq, Eq)]
pub struct Palette(pub [u32; 4]);

impl Palette {
    /// The palette of the four colors given, in order.
    pub fn new(colors: [u32; 4]) -> (r: Self)
        ensures
            r.0@ == colors@,
    {
        Palette(colors)
    }
}

/// The palette register of the display.
#[derive(Clone, Copy, Debug)]
pub struct GlobalPalette {
    pub colors: [u32; 4],
}

impl GlobalPalette {
    /// A register that holds `palette`.
    pub fn new(palette: Palette) -> (r: Self)
        ensures
            r.colors@ == palette.0@,
    {
        GlobalPalette { colors: palette.0 }
    }

    /// The palette the register holds.
    pub fn get(&self) -> (r: Palette)
        ensures
            r.0@ == self.colors@,
    {
        Palette(self.colors)
    }

    /// Sets the register to `palette`.
    pub fn set(&mut self, palette: Palette)
        ensures
            final(self).colors@ == palette.0@,
    {
        self.colors = palette.0;
    }
}

} // verus!
