use vstd::prelude::*;

use crate::draw_colors::GlobalDrawColors;

verus! {

/// One draw call of a frame, with the draw-colors register value it was
/// issued under.
#[derive(Clone, Debug)]
pub enum DrawCommand {
    /// A filled rectangle.
    Rect { x: i32, y: i32, width: u32, height: u32, colors: u16 },
    /// A line of text in the built-in font.
    Text { text: Vec<u8>, x: i32, y: i32, colors: u16 },
}

/// Whether `c` is the rectangle at (x, y) of the given size drawn under `colors`.
pub open spec fn is_rect(c: DrawCommand, x: int, y: int, width: int, height: int, colors: u16) -> bool {
    match c {
        DrawCommand::Rect { x: cx, y: cy, width: cw, height: ch, colors: cc } => cx == x && cy == y
            && cw == width && ch == height && cc == colors,
        _ => false,
    }
}

/// Whether `c` is the text `text` at (x, y) drawn under `colors`.
pub open spec fn is_text(c: DrawCommand, text: Seq<u8>, x: int, y: int, colors: u16) -> bool {
    match c {
        DrawCommand::Text { text: ct, x: cx, y: cy, colors: cc } => ct@ == text && cx == x && cy
            == y && cc == colors,
        _ => false,
    }
}

/// The display as a frame sees it: the draw-colors register, and the draw
/// calls issued so far, in order, for the host to perform.
#[derive(Debug)]
pub struct Surface {
    pub draw_colors: GlobalDrawColors,
    pub commands: Vec<DrawCommand>,
}

impl Surface {
    /// A surface with every draw-colors slot transparent and no draw call.
    pub fn new() -> (r: Self)
        ensures
            r.draw_colors.register == 0,
            r.commands@.len() == 0,
    {
        Surface { draw_colors: GlobalDrawColors::new(), commands: Vec::new() }
    }

    /// Draws a filled rectangle with the current draw colors.
    pub fn rect(&mut self, x: i32, y: i32, width: u32, height: u32)
        ensures
            final(self).draw_colors == old(self).draw_colors,
            final(self).commands@.len() == old(self).commands@.len() + 1,
            final(self).commands@.take(old(self).commands@.len() as int) == old(self).commands@,
            is_rect(
                final(self).commands@.last(),
                x as int,
                y as int,
                width as int,
                height as int,
                old(self).draw_colors.register,
            ),
    {
        let colors = self.draw_colors.register;
        self.commands.push(DrawCommand::Rect { x, y, width, height, colors });
        proof {
            assert(self.commands@.take(old(self).commands@.len() as int) =~= old(self).commands@);
        }
    }

    /// Draws a line of text with the current draw colors.
    pub fn text(&mut self, text: &[u8], x: i32, y: i32)
        ensures
            final(self).draw_colors == old(self).draw_colors,
            final(self).commands@.len() == old(self).commands@.len() + 1,
            final(self).commands@.take(old(self).commands@.len() as int) == old(self).commands@,
            is_text(final(self).commands@.last(), text@, x as int, y as int, old(self).draw_colors.register),
    {
        let colors = self.draw_colors.register;
        let mut t: Vec<u8> = Vec::new();
        let mut i: usize = 0;
        while i < text.len()
            invariant
                i <= text@.len(),
                t@ == text@.take(i as int),
            decreases text@.len() - i,
        {
            t.push(text[i]);
            i = i + 1;
            proof {
                assert(t@ =~= text@.take(i as int));
            }
        }
        proof {
            assert(t@ =~= text@);
        }
        self.commands.push(DrawCommand::Text { text: t, x, y, colors });
        proof {
            assert(self.commands@.take(old(self).commands@.len() as int) =~= old(self).commands@);
        }
    }
}

} // verus!
