use vstd::prelude::*;

use crate::display::{is_text, DrawCommand, Surface};

verus! {

/// Characters that fit on one line of the screen.
pub const CHARS_PER_LINE: u32 = 20;

/// Width of a character, in pixels: the screen's width over the characters
/// per line.
pub const CHAR_WIDTH: u32 = 8;

/// Height of a character, in pixels.
pub const CHAR_HEIGHT: u32 = 8;

/// Largest text length, offset, padding or line separation that `Text::draw`
/// lays out, so that every position fits in 32 bits.
pub const MAX_TEXT_MEASURE: i32 = 4096;

/// The byte that ends a line.
pub const NEWLINE: u8 = 10;

/// `a / b` rounded toward zero, as Rust's integer division rounds.
pub open spec fn div_toward_zero(a: int, b: int) -> int {
    if a >= 0 {
        a / b
    } else {
        -((-a) / b)
    }
}

/// The lines of `s`: the runs of bytes between newlines. A text with `k`
/// newlines has `k + 1` lines, some of which may be empty.
pub open spec fn split_lines(s: Seq<u8>) -> Seq<Seq<u8>>
    decreases s.len(),
{
    if s.len() == 0 {
        seq![Seq::empty()]
    } else {
        let prev = split_lines(s.drop_last());
        if s.last() == NEWLINE {
            prev.push(Seq::empty())
        } else {
            prev.update(prev.len() - 1, prev.last().push(s.last()))
        }
    }
}

/// Every text has at least one line, and no more lines than bytes plus one.
pub proof fn lemma_split_lines_len(s: Seq<u8>)
    ensures
        1 <= split_lines(s).len() <= s.len() + 1,
    decreases s.len(),
{
    if s.len() > 0 {
        lemma_split_lines_len(s.drop_last());
    }
}

/// Joining two texts joins the last line of the first to the first line of
/// the second.
pub proof fn lemma_split_lines_concat(p: Seq<u8>, q: Seq<u8>)
    ensures
        split_lines(p + q).len() == split_lines(p).len() + split_lines(q).len() - 1,
    decreases q.len(),
{
    lemma_split_lines_len(p);
    if q.len() == 0 {
        assert(p + q =~= p);
    } else {
        lemma_split_lines_concat(p, q.drop_last());
        assert((p + q).drop_last() =~= p + q.drop_last());
        lemma_split_lines_len(q.drop_last());
        lemma_split_lines_len(p + q.drop_last());
    }
}

/// The bytes of `s` on their lines, with the newlines removed.
pub fn split_lines_of(s: &[u8]) -> (r: Vec<Vec<u8>>)
    ensures
        r@.len() == split_lines(s@).len(),
        forall|i: int| 0 <= i < r@.len() ==> (#[trigger] r@[i])@ == split_lines(s@)[i],
{
    let mut lines: Vec<Vec<u8>> = Vec::new();
    let mut current: Vec<u8> = Vec::new();
    let mut i: usize = 0;
    proof {
        assert(s@.take(0) =~= Seq::<u8>::empty());
    }
    while i < s.len()
        invariant
            i <= s@.len(),
            lines@.len() + 1 == split_lines(s@.take(i as int)).len(),
            forall|j: int|
                0 <= j < lines@.len() ==> (#[trigger] lines@[j])@ == split_lines(s@.take(i as int))[j],
            current@ == split_lines(s@.take(i as int)).last(),
        decreases s@.len() - i,
    {
        let b = s[i];
        proof {
            lemma_split_lines_len(s@.take(i as int));
            assert(s@.take(i + 1).drop_last() =~= s@.take(i as int));
        }
        if b == NEWLINE {
            let done = current;
            lines.push(done);
            current = Vec::new();
        } else {
            current.push(b);
        }
        i = i + 1;
    }
    proof {
        assert(s@.take(i as int) =~= s@);
    }
    lines.push(current);
    lines
}

/// Where a text stands across the screen.
#[derive(Clone, Copy, Debug, PartialEq, Eq, Structural)]
pub enum TextHorizontalAlignment {
    Left,
    Center,
    Right,
}

/// Where a text stands down the screen.
#[derive(Clone, Copy, Debug, PartialEq, Eq, Structural)]
pub enum TextVerticalAligment {
    Top,
    Middle,
    Bottom,
}

/// Horizontal offset, in pixels, of a line of `len` characters.
pub open spec fn padding_x(a: TextHorizontalAlignment, len: int) -> int {
    match a {
        TextHorizontalAlignment::Left => 0,
        TextHorizontalAlignment::Center => div_toward_zero(CHARS_PER_LINE - len, 2) * CHAR_WIDTH,
        TextHorizontalAlignment::Right => (CHARS_PER_LINE - len) * CHAR_WIDTH,
    }
}

/// Vertical offset, in pixels, of a text of `line_count` lines separated by
/// `line_separation` pixels.
pub open spec fn padding_y(a: TextVerticalAligment, line_count: int, line_separation: int) -> int {
    match a {
        TextVerticalAligment::Top => 0,
        TextVerticalAligment::Middle => 80 - (CHAR_HEIGHT * line_count) / 2,
        TextVerticalAligment::Bottom => 160 - CHAR_HEIGHT * line_count - line_separation * (
        line_count - 1),
    }
}

impl TextHorizontalAlignment {
    /// Horizontal offset, in pixels, of the line `text`.
    pub fn get_padding_x(&self, text: &[u8]) -> (r: i32)
        requires
            text@.len() <= MAX_TEXT_MEASURE,
        ensures
            r == padding_x(*self, text@.len() as int),
    {
        let len = text.len() as i32;
        match *self {
            TextHorizontalAlignment::Left => 0,
            TextHorizontalAlignment::Center => {
                if len <= 20 {
                    ((20 - len) / 2) * 8
                } else {
                    -(((len - 20) / 2) * 8)
                }
            },
            TextHorizontalAlignment::Right => (20 - len) * 8,
        }
    }
}

impl TextVerticalAligment {
    /// Vertical offset, in pixels, of a text of `line_count` lines separated
    /// by `line_separation` pixels.
    pub fn get_padding_y(&self, line_count: usize, line_separation: i32) -> (r: i32)
        requires
            1 <= line_count <= MAX_TEXT_MEASURE + 1,
            -MAX_TEXT_MEASURE <= line_separation <= MAX_TEXT_MEASURE,
        ensures
            r == padding_y(*self, line_count as int, line_separation as int),
            -0x200_0000 <= r <= 0x200_0000,
    {
        let lc = line_count as i32;
        match *self {
            TextVerticalAligment::Top => 0,
            TextVerticalAligment::Middle => 80 - (8 * lc) / 2,
            TextVerticalAligment::Bottom => {
                proof {
                    assert(-MAX_TEXT_MEASURE * MAX_TEXT_MEASURE <= line_separation * (lc - 1)
                        <= MAX_TEXT_MEASURE * MAX_TEXT_MEASURE) by (nonlinear_arith)
                        requires
                            0 <= lc - 1 <= MAX_TEXT_MEASURE,
                            -MAX_TEXT_MEASURE <= line_separation <= MAX_TEXT_MEASURE,
                    ;
                }
                160 - 8 * lc - line_separation * (lc - 1)
            },
        }
    }
}

/// Horizontal position of a line of `len` characters, aligned by `h`, with
/// padding `pad`, at offset `x`.
pub open spec fn layout_x(h: Option<TextHorizontalAlignment>, pad: int, x: int, len: int) -> int {
    (match h {
        Some(a) => padding_x(a, len),
        None => 0,
    }) + pad + x
}

/// Vertical position of line number `index` of a text of `line_count` lines,
/// aligned by `v`, with `line_separation` pixels between lines, padding
/// `pad`, at offset `y`.
pub open spec fn layout_y(
    v: Option<TextVerticalAligment>,
    line_separation: int,
    pad: int,
    y: int,
    line_count: int,
    index: int,
) -> int {
    (match v {
        Some(a) => padding_y(a, line_count, line_separation),
        None => 0,
    }) + pad + y + (CHAR_WIDTH + line_separation) * index
}

/// Whether `cmds`, from position `start` on, hold one text call per line of
/// `value`, in order, each placed as `layout_x` and `layout_y` say and drawn
/// under `colors`.
pub open spec fn text_drawn(
    cmds: Seq<DrawCommand>,
    start: int,
    value: Seq<u8>,
    h: Option<TextHorizontalAlignment>,
    v: Option<TextVerticalAligment>,
    padding_x: int,
    padding_y: int,
    line_separation: int,
    x: int,
    y: int,
    colors: u16,
) -> bool {
    let lines = split_lines(value);
    &&& 0 <= start
    &&& cmds.len() >= start + lines.len()
    &&& forall|i: int|
        0 <= i < lines.len() ==> is_text(
            #[trigger] cmds[start + i],
            lines[i],
            layout_x(h, padding_x, x, lines[i].len() as int),
            layout_y(v, line_separation, padding_y, y, lines.len() as int, i),
            colors,
        )
}

/// Drawn text stays drawn when more calls are appended.
pub proof fn lemma_text_drawn_extends(
    cmds: Seq<DrawCommand>,
    more: Seq<DrawCommand>,
    start: int,
    value: Seq<u8>,
    h: Option<TextHorizontalAlignment>,
    v: Option<TextVerticalAligment>,
    padding_x: int,
    padding_y: int,
    line_separation: int,
    x: int,
    y: int,
    colors: u16,
)
    requires
        text_drawn(cmds, start, value, h, v, padding_x, padding_y, line_separation, x, y, colors),
        more.len() >= cmds.len(),
        more.take(cmds.len() as int) == cmds,
    ensures
        text_drawn(more, start, value, h, v, padding_x, padding_y, line_separation, x, y, colors),
{
    let lines = split_lines(value);
    assert forall|i: int| 0 <= i < lines.len() implies is_text(
        #[trigger] more[start + i],
        lines[i],
        layout_x(h, padding_x, x, lines[i].len() as int),
        layout_y(v, line_separation, padding_y, y, lines.len() as int, i),
        colors,
    ) by {
        assert(more.take(cmds.len() as int)[start + i] == more[start + i]);
    }
}

/// A text to draw: its bytes, split into lines at each newline, its offset,
/// its alignment on each axis, extra padding, and the pixels between lines.
#[derive(Clone, Debug)]
pub struct Text {
    pub value: Vec<u8>,
    pub x: i32,
    pub y: i32,
    pub horizontal_alignment: Option<TextHorizontalAlignment>,
    pub vertical_alignment: Option<TextVerticalAligment>,
    pub padding_x: i32,
    pub padding_y: i32,
    pub line_separation: i32,
}

/// Whether `v` lies within the measures `Text::draw` lays out.
pub open spec fn measure(v: i32) -> bool {
    -MAX_TEXT_MEASURE <= v <= MAX_TEXT_MEASURE
}

impl Text {
    /// The text's length, offsets, paddings and line separation are all
    /// within the measures it can be laid out with.
    pub open spec fn fits(&self) -> bool {
        &&& self.value@.len() <= MAX_TEXT_MEASURE
        &&& measure(self.x)
        &&& measure(self.y)
        &&& measure(self.padding_x)
        &&& measure(self.padding_y)
        &&& measure(self.line_separation)
    }

    /// Horizontal position of a line of `len` characters.
    pub open spec fn line_x(&self, len: int) -> int {
        layout_x(self.horizontal_alignment, self.padding_x as int, self.x as int, len)
    }

    /// Vertical position of line number `index` of a text of `line_count` lines.
    pub open spec fn line_y(&self, line_count: int, index: int) -> int {
        layout_y(
            self.vertical_alignment,
            self.line_separation as int,
            self.padding_y as int,
            self.y as int,
            line_count,
            index,
        )
    }

    /// Whether `cmds`, from position `start` on, hold this text's lines as
    /// `draw` lays them out, under draw colors `colors`.
    pub open spec fn drawn_at(&self, cmds: Seq<DrawCommand>, start: int, colors: u16) -> bool {
        text_drawn(
            cmds,
            start,
            self.value@,
            self.horizontal_alignment,
            self.vertical_alignment,
            self.padding_x as int,
            self.padding_y as int,
            self.line_separation as int,
            self.x as int,
            self.y as int,
            colors,
        )
    }

    /// A text of `value` at (0, 0), with no alignment, padding or line separation.
    pub fn new(value: Vec<u8>) -> (r: Self)
        ensures
            r.value@ == value@,
            r.x == 0,
            r.y == 0,
            r.horizontal_alignment is None,
            r.vertical_alignment is None,
            r.padding_x == 0,
            r.padding_y == 0,
            r.line_separation == 0,
    {
        Text {
            value,
            x: 0,
            y: 0,
            horizontal_alignment: None,
            vertical_alignment: None,
            padding_x: 0,
            padding_y: 0,
            line_separation: 0,
        }
    }

    /// The text moved to horizontal offset `x`.
    pub fn with_x(self, x: i32) -> (r: Self)
        ensures
            r == (Text { x, ..self }),
    {
        let mut t = self;
        t.x = x;
        t
    }

    /// The text moved to vertical offset `y`.
    pub fn with_y(self, y: i32) -> (r: Self)
        ensures
            r == (Text { y, ..self }),
    {
        let mut t = self;
        t.y = y;
        t
    }

    /// The text with horizontal padding `padding_x`.
    pub fn with_padding_x(self, padding_x: i32) -> (r: Self)
        ensures
            r == (Text { padding_x, ..self }),
    {
        let mut t = self;
        t.padding_x = padding_x;
        t
    }

    /// The text with vertical padding `padding_y`.
    pub fn with_padding_y(self, padding_y: i32) -> (r: Self)
        ensures
            r == (Text { padding_y, ..self }),
    {
        let mut t = self;
        t.padding_y = padding_y;
        t
    }

    /// The text aligned across the screen by `alignment`.
    pub fn with_horizontal_alignment(self, alignment: TextHorizontalAlignment) -> (r: Self)
        ensures
            r == (Text { horizontal_alignment: Some(alignment), ..self }),
    {
        let mut t = self;
        t.horizontal_alignment = Some(alignment);
        t
    }

    /// The text aligned down the screen by `alignment`.
    pub fn with_vertical_alignment(self, alignment: TextVerticalAligment) -> (r: Self)
        ensures
            r == (Text { vertical_alignment: Some(alignment), ..self }),
    {
        let mut t = self;
        t.vertical_alignment = Some(alignment);
        t
    }

    /// The text with `line_separation` pixels between lines.
    pub fn with_line_separation(self, line_separation: i32) -> (r: Self)
        ensures
            r == (Text { line_separation, ..self }),
    {
        let mut t = self;
        t.line_separation = line_separation;
        t
    }

    /// Whether the text can be laid out.
    pub fn can_draw(&self) -> (r: bool)
        ensures
            r == self.fits(),
    {
        self.value.len() <= 4096 && -4096 <= self.x && self.x <= 4096 && -4096 <= self.y && self.y
            <= 4096 && -4096 <= self.padding_x && self.padding_x <= 4096 && -4096 <= self.padding_y
            && self.padding_y <= 4096 && -4096 <= self.line_separation && self.line_separation
            <= 4096
    }

    /// Horizontal offset of the line `line`, alignment and padding included.
    fn horizontal_padding(&self, line: &[u8]) -> (r: i32)
        requires
            self.fits(),
            line@.len() <= MAX_TEXT_MEASURE,
        ensures
            r == self.line_x(line@.len() as int) - self.x,
    {
        match self.horizontal_alignment {
            Some(a) => a.get_padding_x(line) + self.padding_x,
            None => self.padding_x,
        }
    }

    /// Vertical offset of a text of `line_count` lines, alignment and
    /// padding included.
    pub fn vertical_padding(&self, line_count: usize) -> (r: i32)
        requires
            self.fits(),
            1 <= line_count <= MAX_TEXT_MEASURE + 1,
        ensures
            r == self.line_y(line_count as int, 0) - self.y,
            -0x200_2000 <= r <= 0x200_2000,
    {
        match self.vertical_alignment {
            Some(a) => a.get_padding_y(line_count, self.line_separation) + self.padding_y,
            None => self.padding_y,
        }
    }

    /// Draws line number `line_index` of a text of `line_count` lines.
    fn draw_line(&self, surface: &mut Surface, line_index: usize, line_count: usize, line: &[u8])
        requires
            self.fits(),
            1 <= line_count <= MAX_TEXT_MEASURE + 1,
            line_index < line_count,
            line@.len() <= MAX_TEXT_MEASURE,
        ensures
            final(surface).draw_colors == old(surface).draw_colors,
            final(surface).commands@.len() == old(surface).commands@.len() + 1,
            final(surface).commands@.take(old(surface).commands@.len() as int) == old(surface).commands@,
            is_text(
                final(surface).commands@.last(),
                line@,
                self.line_x(line@.len() as int),
                self.line_y(line_count as int, line_index as int),
                old(surface).draw_colors.register,
            ),
    {
        let x = self.horizontal_padding(line) + self.x;
        proof {
            assert(-MAX_TEXT_MEASURE * (MAX_TEXT_MEASURE + 8) <= (CHAR_WIDTH + self.line_separation)
                * line_index <= (MAX_TEXT_MEASURE + 8) * (MAX_TEXT_MEASURE + 1)) by (nonlinear_arith)
                requires
                    0 <= line_index <= MAX_TEXT_MEASURE + 1,
                    -MAX_TEXT_MEASURE <= self.line_separation <= MAX_TEXT_MEASURE,
            ;
        }
        let y = self.vertical_padding(line_count) + self.y + (8 + self.line_separation)
            * line_index as i32;
        surface.text(line, x, y);
    }

    /// Draws the text, one text call per line, in order: each line placed
    /// by its alignment and paddings, and line `i` lowered by `i` times the
    /// character size plus the line separation.
    pub fn draw(self, surface: &mut Surface)
        requires
            self.fits(),
        ensures
            final(surface).draw_colors == old(surface).draw_colors,
            final(surface).commands@.len() == old(surface).commands@.len() + split_lines(
                self.value@,
            ).len(),
            final(surface).commands@.take(old(surface).commands@.len() as int) == old(surface).commands@,
            forall|i: int|
                0 <= i < split_lines(self.value@).len() ==> is_text(
                    #[trigger] final(surface).commands@[old(surface).commands@.len() + i],
                    split_lines(self.value@)[i],
                    self.line_x(split_lines(self.value@)[i].len() as int),
                    self.line_y(split_lines(self.value@).len() as int, i),
                    old(surface).draw_colors.register,
                ),
            self.drawn_at(
                final(surface).commands@,
                old(surface).commands@.len() as int,
                old(surface).draw_colors.register,
            ),
    {
        let lines = split_lines_of(self.value.as_slice());
        let ghost spec_lines = split_lines(self.value@);
        let line_count = lines.len();
        proof {
            lemma_split_lines_len(self.value@);
        }
        let ghost base = surface.commands@.len();
        let mut i: usize = 0;
        while i < line_count
            invariant
                self.fits(),
                line_count == lines@.len(),
                spec_lines == split_lines(self.value@),
                lines@.len() == spec_lines.len(),
                1 <= line_count <= MAX_TEXT_MEASURE + 1,
                forall|j: int| 0 <= j < lines@.len() ==> (#[trigger] lines@[j])@ == spec_lines[j],
                i <= line_count,
                base == old(surface).commands@.len(),
                surface.draw_colors == old(surface).draw_colors,
                surface.commands@.len() == base + i,
                surface.commands@.take(base as int) == old(surface).commands@,
                forall|j: int|
                    0 <= j < i ==> is_text(
                        #[trigger] surface.commands@[base + j],
                        spec_lines[j],
                        self.line_x(spec_lines[j].len() as int),
                        self.line_y(spec_lines.len() as int, j),
                        old(surface).draw_colors.register,
                    ),
            decreases line_count - i,
        {
            proof {
                lemma_line_len(self.value@, i as int);
            }
            let ghost before = surface.commands@;
            self.draw_line(surface, i, line_count, lines[i].as_slice());
            proof {
                assert forall|j: int| 0 <= j < i + 1 implies is_text(
                    #[trigger] surface.commands@[base + j],
                    spec_lines[j],
                    self.line_x(spec_lines[j].len() as int),
                    self.line_y(spec_lines.len() as int, j),
                    old(surface).draw_colors.register,
                ) by {
                    if j < i {
                        assert(surface.commands@.take(before.len() as int)[base + j]
                            == surface.commands@[base + j]);
                    }
                }
                assert(surface.commands@.take(base as int) =~= surface.commands@.take(
                    before.len() as int,
                ).take(base as int));
            }
            i = i + 1;
        }
    }
}

/// No line is longer than the text it comes from.
pub proof fn lemma_line_len(s: Seq<u8>, i: int)
    requires
        0 <= i < split_lines(s).len(),
    ensures
        split_lines(s)[i].len() <= s.len(),
    decreases s.len(),
{
    if s.len() > 0 {
        let prev = split_lines(s.drop_last());
        lemma_split_lines_len(s.drop_last());
        if i < prev.len() {
            lemma_line_len(s.drop_last(), i);
        }
    }
}

} // verus!
