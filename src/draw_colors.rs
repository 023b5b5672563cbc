use vstd::prelude::*;

verus! {

/// A color of the four-entry palette, or none (transparent).
#[derive(Clone, Copy, Debug, PartialEq, Eq, Structural)]
pub enum PaletteColor {
    Transparent,
    P1,
    P2,
    P3,
    P4,
}

impl PaletteColor {
    /// The color's number in a draw-colors slot: 0 for transparent, then 1 to 4.
    pub open spec fn spec_value(self) -> u8 {
        match self {
            PaletteColor::Transparent => 0,
            PaletteColor::P1 => 1,
            PaletteColor::P2 => 2,
            PaletteColor::P3 => 3,
            PaletteColor::P4 => 4,
        }
    }

    /// The color's number in a draw-colors slot.
    pub fn value(self) -> (r: u8)
        ensures
            r == self.spec_value(),
    {
        match self {
            PaletteColor::Transparent => 0,
            PaletteColor::P1 => 1,
            PaletteColor::P2 => 2,
            PaletteColor::P3 => 3,
            PaletteColor::P4 => 4,
        }
    }
}

/// One of the four draw-colors slots.
#[derive(Clone, Copy, Debug, PartialEq, Eq, Structural)]
pub enum DrawColorsIndex {
    I1,
    I2,
    I3,
    I4,
}

impl DrawColorsIndex {
    /// Position of the slot, from 0 to 3.
    pub open spec fn slot(self) -> int {
        match self {
            DrawColorsIndex::I1 => 0,
            DrawColorsIndex::I2 => 1,
            DrawColorsIndex::I3 => 2,
            DrawColorsIndex::I4 => 3,
        }
    }

    /// Position of the slot, from 0 to 3.
    pub fn as_usize(self) -> (r: usize)
        ensures
            r == self.slot(),
    {
        match self {
            DrawColorsIndex::I1 => 0,
            DrawColorsIndex::I2 => 1,
            DrawColorsIndex::I3 => 2,
            DrawColorsIndex::I4 => 3,
        }
    }
}

/// The register value whose four nibbles, lowest first, are `s[0]` to `s[3]`.
pub open spec fn pack_nibbles(s: Seq<u8>) -> int {
    s[0] + s[1] * 16 + s[2] * 256 + s[3] * 4096
}

/// The four nibbles of a register value, lowest first.
pub open spec fn unpack_nibbles(v: u16) -> Seq<u8> {
    seq![(v % 16) as u8, ((v / 16) % 16) as u8, ((v / 256) % 16) as u8, (v / 4096) as u8]
}

/// Whether `s` holds four values that each fit in a nibble.
pub open spec fn nibbles(s: Seq<u8>) -> bool {
    s.len() == 4 && forall|i: int| 0 <= i < 4 ==> #[trigger] s[i] < 16
}

/// `v` shifted left by `amount` bits, as a 16-bit value; for a nibble and a
/// shift by whole nibbles, that is a product with the power of 16.
pub fn shift_u16(v: u8, amount: u16) -> (r: u16)
    requires
        amount < 16,
    ensures
        r == ((v as u16) << amount),
        v < 16 && amount == 4 ==> r == v * 16,
        v < 16 && amount == 8 ==> r == v * 256,
        v < 16 && amount == 12 ==> r == v * 4096,
{
    let w = v as u16;
    proof {
        assert(w < 16 ==> w << 4u16 == w * 16) by (bit_vector);
        assert(w < 16 ==> w << 8u16 == w * 256) by (bit_vector);
        assert(w < 16 ==> w << 12u16 == w * 4096) by (bit_vector);
    }
    w << amount
}

/// The colors of the four draw-colors slots.
#[derive(Clone, Copy, Debug, PartialEq, Eq)]
pub struct DrawColors([u8; 4]);

impl Default for DrawColors {
    fn default() -> (r: Self)
        ensures
            r.slots() == seq![0u8, 0u8, 0u8, 0u8],
    {
        let r = DrawColors([0u8; 4]);
        proof {
            assert(r.slots() =~= seq![0u8, 0u8, 0u8, 0u8]);
        }
        r
    }
}

impl DrawColors {
    /// The colors of the slots, in slot order.
    pub closed spec fn slots(&self) -> Seq<u8> {
        self.0@
    }

    /// A set of draw colors has four slots.
    pub proof fn lemma_four_slots(&self)
        ensures
            self.slots().len() == 4,
    {
    }

    /// The colors, each a nibble.
    pub open spec fn wf(&self) -> bool {
        nibbles(self.slots())
    }

    /// A builder whose slots all start transparent.
    pub fn builder() -> (r: DrawColorsBuilder)
        ensures
            r.slots() == seq![0u8, 0u8, 0u8, 0u8],
    {
        DrawColorsBuilder::new()
    }

    /// The color number of slot `index`.
    pub fn get_index(&self, index: DrawColorsIndex) -> (r: u8)
        ensures
            r == self.slots()[index.slot()],
    {
        self.0[index.as_usize()]
    }

    /// The draw-colors register value that holds these colors.
    pub fn to_u16(&self) -> (r: u16)
        requires
            self.wf(),
        ensures
            r == pack_nibbles(self.slots()),
    {
        let s = self.0;
        proof {
            assert(s@[0] < 16 && s@[1] < 16 && s@[2] < 16 && s@[3] < 16);
        }
        let a = shift_u16(s[1], 4);
        let b = shift_u16(s[2], 8);
        let c = shift_u16(s[3], 12);
        s[0] as u16 + a + b + c
    }

    /// The colors that the draw-colors register value `value` holds.
    pub fn from_u16(value: u16) -> (r: DrawColors)
        ensures
            r.wf(),
            r.slots() == unpack_nibbles(value),
    {
        let i3 = ((value & 0xf000) >> 12) as u8;
        let i2 = ((value & 0x0f00) >> 8) as u8;
        let i1 = ((value & 0x00f0) >> 4) as u8;
        let i0 = (value & 0x000f) as u8;
        proof {
            assert((value & 0xf000) >> 12 == value / 4096) by (bit_vector);
            assert((value & 0x0f00) >> 8 == (value / 256) % 16) by (bit_vector);
            assert((value & 0x00f0) >> 4 == (value / 16) % 16) by (bit_vector);
            assert(value & 0x000f == value % 16) by (bit_vector);
        }
        let r = DrawColors([i0, i1, i2, i3]);
        proof {
            assert(r.slots() =~= unpack_nibbles(value));
        }
        r
    }
}

/// Unpacking a packed set of colors gives them back.
pub proof fn lemma_unpack_pack(s: Seq<u8>)
    requires
        nibbles(s),
    ensures
        0 <= pack_nibbles(s) < 0x10000,
        unpack_nibbles(pack_nibbles(s) as u16) == s,
{
    assert(s[0] < 16 && s[1] < 16 && s[2] < 16 && s[3] < 16);
    let v = pack_nibbles(s);
    assert(v % 16 == s[0]) by (nonlinear_arith)
        requires v == s[0] + s[1] * 16 + s[2] * 256 + s[3] * 4096, s[0] < 16, s[1] < 16, s[2] < 16, s[3] < 16;
    assert((v / 16) % 16 == s[1]) by (nonlinear_arith)
        requires v == s[0] + s[1] * 16 + s[2] * 256 + s[3] * 4096, s[0] < 16, s[1] < 16, s[2] < 16, s[3] < 16;
    assert((v / 256) % 16 == s[2]) by (nonlinear_arith)
        requires v == s[0] + s[1] * 16 + s[2] * 256 + s[3] * 4096, s[0] < 16, s[1] < 16, s[2] < 16, s[3] < 16;
    assert(v / 4096 == s[3]) by (nonlinear_arith)
        requires v == s[0] + s[1] * 16 + s[2] * 256 + s[3] * 4096, s[0] < 16, s[1] < 16, s[2] < 16, s[3] < 16;
    assert(unpack_nibbles(v as u16) =~= s);
}

/// Packing the colors of a register value gives the value back.
pub proof fn lemma_pack_unpack(v: u16)
    ensures
        nibbles(unpack_nibbles(v)),
        pack_nibbles(unpack_nibbles(v)) == v,
{
    let s = unpack_nibbles(v);
    assert(v == v % 16 + ((v / 16) % 16) * 16 + ((v / 256) % 16) * 256 + (v / 4096) * 4096)
        by (nonlinear_arith)
        requires 0 <= v < 0x10000;
    assert(s[0] < 16 && s[1] < 16 && s[2] < 16 && s[3] < 16);
}

/// Builds a set of draw colors one slot at a time.
#[derive(Clone, Copy, Debug)]
pub struct DrawColorsBuilder([u8; 4]);

impl DrawColorsBuilder {
    /// The colors of the slots set so far, in slot order.
    pub closed spec fn slots(&self) -> Seq<u8> {
        self.0@
    }

    /// A builder has four slots.
    pub proof fn lemma_four_slots(&self)
        ensures
            self.slots().len() == 4,
    {
    }

    /// A builder whose slots all start transparent.
    pub fn new() -> (r: Self)
        ensures
            r.slots() == seq![0u8, 0u8, 0u8, 0u8],
    {
        let r = DrawColorsBuilder([0u8; 4]);
        proof {
            assert(r.slots() =~= seq![0u8, 0u8, 0u8, 0u8]);
        }
        r
    }

    /// The builder with slot `index` set to `value`.
    pub fn with_index(self, index: DrawColorsIndex, value: PaletteColor) -> (r: Self)
        ensures
            r.slots() == self.slots().update(index.slot(), value.spec_value()),
            r.slots().len() == 4,
            r.slots()[index.slot()] == value.spec_value(),
            forall|j: int| 0 <= j < 4 && j != index.slot() ==> r.slots()[j] == self.slots()[j],
    {
        let mut s = self.0;
        s[index.as_usize()] = value.value();
        DrawColorsBuilder(s)
    }

    /// The draw colors built.
    pub fn build(self) -> (r: DrawColors)
        ensures
            r.slots() == self.slots(),
            r.slots().len() == 4,
    {
        DrawColors(self.0)
    }
}

/// The draw-colors register of the display: which palette color each of the
/// four slots draws with.
#[derive(Clone, Copy, Debug, PartialEq, Eq, Structural)]
pub struct GlobalDrawColors {
    pub register: u16,
}

impl GlobalDrawColors {
    /// A register with every slot transparent.
    pub fn new() -> (r: Self)
        ensures
            r.register == 0,
    {
        GlobalDrawColors { register: 0 }
    }

    /// Sets the register to `colors`.
    pub fn set(&mut self, colors: DrawColors)
        requires
            colors.wf(),
        ensures
            final(self).register == pack_nibbles(colors.slots()),
    {
        self.register = colors.to_u16();
    }

    /// Sets every slot transparent.
    pub fn reset(&mut self)
        ensures
            final(self).register == 0,
    {
        let d = DrawColors::default();
        proof {
            assert(d.wf());
        }
        self.set(d);
    }

    /// Sets slot `index` to `value`, leaving the other slots as they are.
    pub fn set_index(&mut self, index: DrawColorsIndex, value: PaletteColor)
        ensures
            final(self).register == pack_nibbles(
                unpack_nibbles(old(self).register).update(index.slot(), value.spec_value()),
            ),
            unpack_nibbles(final(self).register) == unpack_nibbles(old(self).register).update(
                index.slot(),
                value.spec_value(),
            ),
    {
        let existing = self.get();
        let mut s = existing.0;
        s[index.as_usize()] = value.value();
        let updated = DrawColors(s);
        proof {
            assert(updated.slots() =~= existing.slots().update(index.slot(), value.spec_value()));
            assert(nibbles(updated.slots()));
        }
        self.set(updated);
        proof {
            lemma_unpack_pack(updated.slots());
        }
    }

    /// The colors the register holds.
    pub fn get(&self) -> (r: DrawColors)
        ensures
            r.wf(),
            r.slots() == unpack_nibbles(self.register),
    {
        DrawColors::from_u16(self.register)
    }
}

} // verus!
