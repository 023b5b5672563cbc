use vstd::prelude::*;

use crate::cell::CellState;
use crate::display::{is_rect, DrawCommand, Surface};
use crate::draw_colors::{pack_nibbles, unpack_nibbles, DrawColorsIndex, PaletteColor};
use crate::engine::{frame_runs, Engine, FrameContext, RawInput, FPS};
use crate::game::{Game, CELL_SIZE};
use crate::gamepad::{edge_bits, GamepadButton, GamepadIndex, BUTTON_1, BUTTON_2};
use crate::life::{cell_index, next_generation};
use crate::mouse::{MouseButton, MouseState, MOUSE_LEFT, MOUSE_RIGHT};
use crate::text::{
    lemma_split_lines_concat, lemma_split_lines_len, lemma_text_drawn_extends, split_lines, text_drawn, Text,
    TextHorizontalAlignment, TextVerticalAligment,
};

verus! {

/// Whether pointer coordinate `p` lies over an axis of `n` cells.
pub open spec fn pointer_in_axis(p: i16, n: int) -> bool {
    0 <= p < n * CELL_SIZE
}

/// The cell coordinate under pointer coordinate `p`: the pixel over the cell size.
pub open spec fn pointer_cell(p: i16) -> int {
    (p as int) / (CELL_SIZE as int)
}

/// The grid after painting with the mouse: the cell under the pointer set
/// alive while the left button is held, else dead while the right one is; a
/// pointer outside the grid changes nothing.
pub open spec fn painted(cells: Seq<CellState>, mouse: MouseState, w: int, h: int) -> Seq<
    CellState,
> {
    let i = cell_index(w, pointer_cell(mouse.x), pointer_cell(mouse.y));
    if !(pointer_in_axis(mouse.x, w) && pointer_in_axis(mouse.y, h)) {
        cells
    } else if mouse.pressed & MOUSE_LEFT != 0 {
        cells.update(i, CellState::Alive)
    } else if mouse.pressed & MOUSE_RIGHT != 0 {
        cells.update(i, CellState::Dead)
    } else {
        cells
    }
}

/// Whether the pause button of the first gamepad went down this tick.
pub open spec fn pause_pressed(ctx: FrameContext) -> bool {
    ctx.gamepads@[0].just_pressed & BUTTON_1 != 0
}

/// Whether the clear button of the first gamepad went down this tick.
pub open spec fn clear_pressed(ctx: FrameContext) -> bool {
    ctx.gamepads@[0].just_pressed & BUTTON_2 != 0
}

/// The grid after one tick's interaction.
pub open spec fn interacted(cells: Seq<CellState>, ctx: FrameContext, w: int, h: int) -> Seq<
    CellState,
> {
    if clear_pressed(ctx) {
        Seq::new(cells.len(), |i: int| CellState::Dead)
    } else {
        painted(cells, ctx.mouse, w, h)
    }
}

/// The running flag after one tick's interaction.
pub open spec fn toggled(running: bool, ctx: FrameContext) -> bool {
    if pause_pressed(ctx) {
        !running
    } else {
        running
    }
}

/// The grid at the end of a tick's body: the interaction applied, then one
/// generation if the simulation runs after it.
pub open spec fn frame_cells(
    cells: Seq<CellState>,
    running: bool,
    ctx: FrameContext,
    w: int,
    h: int,
) -> Seq<CellState> {
    let after = interacted(cells, ctx, w, h);
    if toggled(running, ctx) {
        next_generation(after, w, h)
    } else {
        after
    }
}

/// How long, in seconds from start, the instructions stay on screen.
pub const DRAW_INSTRUCTIONS_FOR_SECONDS: u64 = 10;

/// The palette color number a cell is drawn with: 1 when alive, 4 when dead.
pub open spec fn cell_color(s: CellState) -> u8 {
    if s == CellState::Dead {
        4
    } else {
        1
    }
}

/// The draw-colors register under which cell `s` is drawn, starting from
/// register value `reg`: the first slot set to the cell's color.
pub open spec fn cell_register(reg: u16, s: CellState) -> u16 {
    pack_nibbles(unpack_nibbles(reg).update(0, cell_color(s))) as u16
}

/// The cell coordinate under pointer coordinate `p` on an axis of `n`
/// cells, if the pointer lies over that axis.
fn pointer_to_cell(p: i16, n: u32) -> (r: Option<u32>)
    ensures
        r is Some <==> pointer_in_axis(p, n as int),
        r matches Some(c) ==> c == pointer_cell(p) && c < n,
{
    if p < 0 {
        return None;
    }
    let c = (p as u32) / CELL_SIZE;
    if c < n {
        Some(c)
    } else {
        None
    }
}

impl Game {
    /// Applies one tick's input: paints the cell under the pointer alive
    /// while the left button is held, or dead while the right one is; on the
    /// tick the first gamepad's X button goes down, pauses or resumes; on the
    /// tick its Z button goes down, clears the grid.
    pub fn interact_grid(&mut self, ctx: &FrameContext)
        requires
            old(self).wf(),
        ensures
            final(self).wf(),
            final(self).grid_width() == old(self).grid_width(),
            final(self).grid_height() == old(self).grid_height(),
            final(self).running() == toggled(old(self).running(), *ctx),
            final(self).cells() == interacted(
                old(self).cells(),
                *ctx,
                old(self).grid_width(),
                old(self).grid_height(),
            ),
    {
        let (mouse_x, mouse_y) = ctx.mouse().position();
        let cell_x = pointer_to_cell(mouse_x, self.width());
        let cell_y = pointer_to_cell(mouse_y, self.height());

        if let (Some(cx), Some(cy)) = (cell_x, cell_y) {
            if ctx.mouse().is_button_pressed(MouseButton::Left) {
                self.set_cell_state(cx, cy, CellState::Alive);
            } else if ctx.mouse().is_button_pressed(MouseButton::Right) {
                self.set_cell_state(cx, cy, CellState::Dead);
            }
        }

        if ctx.gamepad(GamepadIndex::I1).is_button_just_pressed(GamepadButton::X) {
            let running = self.get_simulation_running_state();
            self.set_simulation_running_state(!running);
        }

        if ctx.gamepad(GamepadIndex::I1).is_button_just_pressed(GamepadButton::Z) {
            self.clear_grid();
            proof {
                assert(self.cells() =~= Seq::new(old(self).cells().len(), |i: int| CellState::Dead));
            }
        }
    }

    /// Draws every cell of the grid as a filled square of the cell size at
    /// its pixel position, in buffer order: in palette color 1 when alive, 4
    /// when dead, set in the first draw-colors slot before each square.
    pub fn render_grid(&self, surface: &mut Surface)
        requires
            self.wf(),
        ensures
            final(surface).commands@.len() == old(surface).commands@.len() + self.cells().len(),
            final(surface).commands@.take(old(surface).commands@.len() as int) == old(surface).commands@,
            forall|i: int|
                0 <= i < self.cells().len() ==> is_rect(
                    #[trigger] final(surface).commands@[old(surface).commands@.len() + i],
                    (i % self.grid_width()) * CELL_SIZE,
                    (i / self.grid_width()) * CELL_SIZE,
                    CELL_SIZE as int,
                    CELL_SIZE as int,
                    cell_register(old(surface).draw_colors.register, self.cells()[i]),
                ),
            final(surface).draw_colors.register == cell_register(
                old(surface).draw_colors.register,
                self.cells().last(),
            ),
    {
        let ghost reg0 = surface.draw_colors.register;
        let ghost base = surface.commands@.len();
        let ghost cells = self.cells();
        let ghost w = self.grid_width();
        let n = self.cells_len();
        proof {
            let h = self.grid_height();
            assert(n > 0) by (nonlinear_arith)
                requires
                    n == w * h,
                    w >= 1,
                    h >= 1,
            ;
        }
        let mut idx: usize = 0;
        while idx < n
            invariant
                self.wf(),
                n == cells.len(),
                cells == self.cells(),
                w == self.grid_width(),
                idx <= n,
                surface.commands@.len() == base + idx,
                surface.commands@.take(base as int) == old(surface).commands@,
                base == old(surface).commands@.len(),
                reg0 == old(surface).draw_colors.register,
                idx == 0 ==> surface.draw_colors.register == reg0,
                idx > 0 ==> surface.draw_colors.register == cell_register(reg0, cells[idx - 1]),
                forall|i: int|
                    0 <= i < idx ==> is_rect(
                        #[trigger] surface.commands@[base + i],
                        (i % w) * CELL_SIZE,
                        (i / w) * CELL_SIZE,
                        CELL_SIZE as int,
                        CELL_SIZE as int,
                        cell_register(reg0, cells[i]),
                    ),
            decreases n - idx,
        {
            let (x, y) = self.index_to_xy(idx);
            let state = self.cell_state(x, y);
            let ghost prev = surface.draw_colors.register;
            if state == CellState::Dead {
                surface.draw_colors.set_index(DrawColorsIndex::I1, PaletteColor::P4);
            } else {
                surface.draw_colors.set_index(DrawColorsIndex::I1, PaletteColor::P1);
            }
            proof {
                assert(self.cell_at(x as int, y as int) == cells[idx as int]);
                crate::draw_colors::lemma_pack_unpack(reg0);
                if idx > 0 {
                    crate::draw_colors::lemma_unpack_pack(
                        unpack_nibbles(reg0).update(0, cell_color(cells[idx - 1])),
                    );
                    assert(unpack_nibbles(prev) == unpack_nibbles(reg0).update(
                        0,
                        cell_color(cells[idx - 1]),
                    ));
                }
                assert(unpack_nibbles(prev).update(0, cell_color(cells[idx as int]))
                    =~= unpack_nibbles(reg0).update(0, cell_color(cells[idx as int])));
            }
            let ghost before = surface.commands@;
            surface.rect((x * CELL_SIZE) as i32, (y * CELL_SIZE) as i32, CELL_SIZE, CELL_SIZE);
            proof {
                assert forall|i: int| 0 <= i < idx + 1 implies is_rect(
                    #[trigger] surface.commands@[base + i],
                    (i % w) * CELL_SIZE,
                    (i / w) * CELL_SIZE,
                    CELL_SIZE as int,
                    CELL_SIZE as int,
                    cell_register(reg0, cells[i]),
                ) by {
                    if i < idx {
                        assert(surface.commands@.take(before.len() as int)[base + i]
                            == surface.commands@[base + i]);
                    }
                }
                assert(surface.commands@.take(base as int) =~= surface.commands@.take(
                    before.len() as int,
                ).take(base as int));
            }
            idx = idx + 1;
        }
    }

    /// Number of cells in the grid.
    pub fn cells_len(&self) -> (r: usize)
        requires
            self.wf(),
        ensures
            r == self.cells().len(),
    {
        self.front_len()
    }
}

/// The title banner: the game's name and its author, on two lines.
pub open spec fn title_text() -> Seq<u8> {
    // "Game of Life\nby @Srynetix"
    seq![
        71, 97, 109, 101, 32, 111, 102, 32, 76, 105, 102, 101, 10, 98, 121,
        32, 64, 83, 114, 121, 110, 101, 116, 105, 120,
    ]
}

/// The title banner: the game's name and its author, on two lines.
fn title_bytes() -> (r: Vec<u8>)
    ensures
        r@ == title_text(),
{
    let r: Vec<u8> = vec![
        71, 97, 109, 101, 32, 111, 102, 32, 76, 105, 102, 101, 10, 98, 121,
        32, 64, 83, 114, 121, 110, 101, 116, 105, 120,
    ];
    proof {
        assert(r@ =~= title_text());
    }
    r
}

/// The greeting shown mid-screen.
pub open spec fn greeting_text() -> Seq<u8> {
    // "Have fun!"
    seq![
        72, 97, 118, 101, 32, 102, 117, 110, 33,
    ]
}

/// The greeting shown mid-screen.
fn greeting_bytes() -> (r: Vec<u8>)
    ensures
        r@ == greeting_text(),
{
    let r: Vec<u8> = vec![
        72, 97, 118, 101, 32, 102, 117, 110, 33,
    ];
    proof {
        assert(r@ =~= greeting_text());
    }
    r
}

/// The controls, one per line; bytes 0x80 and 0x81 are the font's X and Z button glyphs.
pub open spec fn controls_text() -> Seq<u8> {
    // "\x80 to pause/resume\n\x81 to clear grid\nLeft-click to draw\nRight-click to erase"
    seq![128, 32, 116, 111, 32, 112, 97, 117, 115, 101, 47, 114, 101, 115, 117, 109, 101, 10]
    + seq![129, 32, 116, 111, 32, 99, 108, 101, 97, 114, 32, 103, 114, 105, 100, 10]
    + seq![76, 101, 102, 116, 45, 99, 108, 105, 99, 107, 32, 116, 111, 32, 100, 114, 97, 119, 10]
    + seq![82, 105, 103, 104, 116, 45, 99, 108, 105, 99, 107, 32, 116, 111, 32, 101, 114, 97, 115, 101]
}

/// The controls, one per line; bytes 0x80 and 0x81 are the font's X and Z button glyphs.
fn controls_bytes() -> (r: Vec<u8>)
    ensures
        r@ == controls_text(),
{
    let r: Vec<u8> = vec![
        128, 32, 116, 111, 32, 112, 97, 117, 115, 101, 47, 114, 101, 115, 117,
        109, 101, 10, 129, 32, 116, 111, 32, 99, 108, 101, 97, 114, 32, 103,
        114, 105, 100, 10, 76, 101, 102, 116, 45, 99, 108, 105, 99, 107, 32,
        116, 111, 32, 100, 114, 97, 119, 10, 82, 105, 103, 104, 116, 45, 99,
        108, 105, 99, 107, 32, 116, 111, 32, 101, 114, 97, 115, 101,
    ];
    proof {
        assert(r@ =~= controls_text());
    }
    r
}

/// The draw colors the instructions are drawn under, from register value
/// `reg`: palette color 2 in the first slot, 4 in the second.
pub open spec fn instructions_colors(reg: u16) -> u16 {
    pack_nibbles(unpack_nibbles(reg).update(0, 2).update(1, 4)) as u16
}

/// The register value after the instructions are drawn from register value
/// `reg`: palette color 2 in the first slot, the second slot transparent.
pub open spec fn instructions_register(reg: u16) -> u16 {
    pack_nibbles(unpack_nibbles(reg).update(0, 2).update(1, 0)) as u16
}

/// How many text calls the instructions take: one per line of each text.
pub open spec fn instruction_lines() -> int {
    split_lines(title_text()).len() + split_lines(greeting_text()).len() + split_lines(
        controls_text(),
    ).len() as int
}

/// Whether `cmds`, from position `start` on, hold the instructions drawn from
/// register value `reg`: the title centered at the top, two pixels down with
/// two pixels between lines; the greeting centered in the middle; the controls
/// centered at the bottom, two pixels up with two pixels between lines.
pub open spec fn instructions_drawn(cmds: Seq<DrawCommand>, start: int, reg: u16) -> bool {
    let c = instructions_colors(reg);
    let n1 = split_lines(title_text()).len() as int;
    let n2 = split_lines(greeting_text()).len() as int;
    &&& text_drawn(
        cmds,
        start,
        title_text(),
        Some(TextHorizontalAlignment::Center),
        Some(TextVerticalAligment::Top),
        0,
        2,
        2,
        0,
        0,
        c,
    )
    &&& text_drawn(
        cmds,
        start + n1,
        greeting_text(),
        Some(TextHorizontalAlignment::Center),
        Some(TextVerticalAligment::Middle),
        0,
        0,
        0,
        0,
        0,
        c,
    )
    &&& text_drawn(
        cmds,
        start + n1 + n2,
        controls_text(),
        Some(TextHorizontalAlignment::Center),
        Some(TextVerticalAligment::Bottom),
        0,
        -2,
        2,
        0,
        0,
        c,
    )
}

/// Draws the title, a greeting and the controls over the grid: in palette
/// color 2 on color 4, leaving the second draw-colors slot transparent after.
pub fn draw_instructions(surface: &mut Surface)
    ensures
        final(surface).draw_colors.register == instructions_register(old(surface).draw_colors.register),
        final(surface).commands@.len() == old(surface).commands@.len() + instruction_lines(),
        instruction_lines() == 7,
        final(surface).commands@.take(old(surface).commands@.len() as int) == old(surface).commands@,
        instructions_drawn(
            final(surface).commands@,
            old(surface).commands@.len() as int,
            old(surface).draw_colors.register,
        ),
{
    let ghost start = surface.commands@;
    let ghost reg = surface.draw_colors.register;
    proof {
        lemma_instruction_lines();
    }
    surface.draw_colors.set_index(DrawColorsIndex::I1, PaletteColor::P2);
    surface.draw_colors.set_index(DrawColorsIndex::I2, PaletteColor::P4);
    let ghost c = surface.draw_colors.register;
    proof {
        assert(c == instructions_colors(reg));
        lemma_split_lines_len(title_text());
        lemma_split_lines_len(greeting_text());
        lemma_split_lines_len(controls_text());
    }

    let title = Text::new(title_bytes())
        .with_horizontal_alignment(TextHorizontalAlignment::Center)
        .with_vertical_alignment(TextVerticalAligment::Top)
        .with_line_separation(2)
        .with_padding_y(2);
    title.draw(surface);
    let ghost after_title = surface.commands@;

    let greeting = Text::new(greeting_bytes())
        .with_horizontal_alignment(TextHorizontalAlignment::Center)
        .with_vertical_alignment(TextVerticalAligment::Middle);
    greeting.draw(surface);
    let ghost after_greeting = surface.commands@;

    let help = Text::new(controls_bytes())
        .with_horizontal_alignment(TextHorizontalAlignment::Center)
        .with_vertical_alignment(TextVerticalAligment::Bottom)
        .with_line_separation(2)
        .with_padding_y(-2);
    help.draw(surface);
    surface.draw_colors.set_index(DrawColorsIndex::I2, PaletteColor::Transparent);
    proof {
        let n1 = split_lines(title_text()).len() as int;
        let n2 = split_lines(greeting_text()).len() as int;
        let s0 = start.len() as int;
        assert(after_title.take(s0) =~= start);
        assert(after_greeting.take(s0) =~= after_greeting.take(after_title.len() as int).take(s0));
        assert(surface.commands@.take(s0) =~= surface.commands@.take(
            after_greeting.len() as int,
        ).take(s0));
        lemma_text_drawn_extends(
            after_title,
            after_greeting,
            s0,
            title_text(),
            Some(TextHorizontalAlignment::Center),
            Some(TextVerticalAligment::Top),
            0,
            2,
            2,
            0,
            0,
            c,
        );
        lemma_text_drawn_extends(
            after_greeting,
            surface.commands@,
            s0,
            title_text(),
            Some(TextHorizontalAlignment::Center),
            Some(TextVerticalAligment::Top),
            0,
            2,
            2,
            0,
            0,
            c,
        );
        lemma_text_drawn_extends(
            after_greeting,
            surface.commands@,
            s0 + n1,
            greeting_text(),
            Some(TextHorizontalAlignment::Center),
            Some(TextVerticalAligment::Middle),
            0,
            0,
            0,
            0,
            0,
            c,
        );
        assert(unpack_nibbles(c).update(1, 0) =~= unpack_nibbles(reg).update(0, 2).update(1, 0));
    }
}

impl Game {
    /// The body of one tick: applies the tick's input, advances the grid,
    /// draws it, and for the first ten seconds draws the instructions over it.
    pub fn run_game_frame(&mut self, ctx: &FrameContext, surface: &mut Surface)
        requires
            old(self).wf(),
        ensures
            final(self).wf(),
            final(self).grid_width() == old(self).grid_width(),
            final(self).grid_height() == old(self).grid_height(),
            final(self).running() == toggled(old(self).running(), *ctx),
            final(self).cells() == frame_cells(
                old(self).cells(),
                old(self).running(),
                *ctx,
                old(self).grid_width(),
                old(self).grid_height(),
            ),
            frame_drawn(
                old(surface).commands@,
                final(surface).commands@,
                old(surface).draw_colors.register,
                final(surface).draw_colors.register,
                final(self).cells(),
                final(self).grid_width(),
                ctx.frame,
            ),
    {
        self.interact_grid(ctx);
        self.step_grid();
        let ghost base = surface.commands@;
        self.render_grid(surface);
        let ghost rendered = surface.commands@;
        if ctx.frame() < FPS * DRAW_INSTRUCTIONS_FOR_SECONDS {
            draw_instructions(surface);
            proof {
                assert forall|i: int| 0 <= i < self.cells().len() implies is_rect(
                    #[trigger] surface.commands@[base.len() + i],
                    (i % self.grid_width()) * CELL_SIZE,
                    (i / self.grid_width()) * CELL_SIZE,
                    CELL_SIZE as int,
                    CELL_SIZE as int,
                    cell_register(old(surface).draw_colors.register, self.cells()[i]),
                ) by {
                    assert(surface.commands@.take(rendered.len() as int)[base.len() + i]
                        == surface.commands@[base.len() + i]);
                    assert(rendered[base.len() + i] == surface.commands@[base.len() + i]);
                }
                assert(surface.commands@.take(base.len() as int) =~= surface.commands@.take(
                    rendered.len() as int,
                ).take(base.len() as int));
            }
        }
    }
}

/// Whether the calls of `cmds` from position `start` on draw the grid
/// `cells`, rows `w` cells wide, one square per cell in buffer order, from
/// register value `reg`.
pub open spec fn grid_drawn(
    cmds: Seq<DrawCommand>,
    start: int,
    reg: u16,
    cells: Seq<CellState>,
    w: int,
) -> bool {
    &&& cmds.len() >= start + cells.len()
    &&& forall|i: int|
        0 <= i < cells.len() ==> is_rect(
            #[trigger] cmds[start + i],
            (i % w) * CELL_SIZE,
            (i / w) * CELL_SIZE,
            CELL_SIZE as int,
            CELL_SIZE as int,
            cell_register(reg, cells[i]),
        )
}

/// Whether a tick body with index `frame` took the surface from calls
/// `before` and register `reg_before` to calls `after` and register
/// `reg_after`, having drawn the grid `cells`: the earlier calls are kept,
/// the grid follows them, and on the first ten seconds' ticks the
/// instructions follow the grid.
pub open spec fn frame_drawn(
    before: Seq<DrawCommand>,
    after: Seq<DrawCommand>,
    reg_before: u16,
    reg_after: u16,
    cells: Seq<CellState>,
    w: int,
    frame: u64,
) -> bool {
    let start = before.len() as int;
    let reg_grid = cell_register(reg_before, cells.last());
    &&& after.take(start) == before
    &&& grid_drawn(after, start, reg_before, cells, w)
    &&& if frame < FPS * DRAW_INSTRUCTIONS_FOR_SECONDS {
        &&& after.len() == start + cells.len() + instruction_lines()
        &&& instructions_drawn(after, start + cells.len(), reg_grid)
        &&& reg_after == instructions_register(reg_grid)
    } else {
        &&& after.len() == start + cells.len()
        &&& reg_after == reg_grid
    }
}

/// Seeds the grid at start-up: every cell alive with probability one half.
pub fn start(game: &mut Game)
    requires
        old(game).wf(),
    ensures
        final(game).wf(),
        final(game).grid_width() == old(game).grid_width(),
        final(game).grid_height() == old(game).grid_height(),
        final(game).running() == old(game).running(),
        final(game).cells().len() == old(game).cells().len(),
        forall|i: int| 0 <= i < final(game).front_view().len() ==> #[trigger] final(game).front_view()[i].age == 0,
{
    game.randomize_grid(1, 2);
}

/// One host tick: the scheduler counts the tick and commits `raw` as the
/// input trackers' snapshot, and when the tick is not skipped the game runs
/// its body with the tick's input, drawing onto `surface`.
pub fn update(engine: &mut Engine, game: &mut Game, surface: &mut Surface, raw: RawInput) -> (r: bool)
    requires
        old(game).wf(),
        old(engine).frame_count < u64::MAX,
    ensures
        final(engine).frame_count == old(engine).frame_count + 1,
        final(engine).frame_skip == old(engine).frame_skip,
        final(engine).gamepads.previous@ == raw.gamepads@,
        final(engine).mouse.previous == raw.mouse_buttons,
        final(game).wf(),
        r == frame_runs(old(engine).frame_count, old(engine).frame_skip),
        !r ==> *final(game) == *old(game) && final(surface).commands@ == old(surface).commands@
            && final(surface).draw_colors == old(surface).draw_colors,
        r ==> frame_drawn(
            old(surface).commands@,
            final(surface).commands@,
            old(surface).draw_colors.register,
            final(surface).draw_colors.register,
            final(game).cells(),
            final(game).grid_width(),
            old(engine).frame_count,
        ),
        r ==> exists|ctx: FrameContext|
            {
                &&& ctx.frame == old(engine).frame_count
                &&& ctx.mouse == old(engine).mouse.get_spec(raw.mouse_x, raw.mouse_y, raw.mouse_buttons)
                &&& forall|i: int|
                    0 <= i < 4 ==> (#[trigger] ctx.gamepads@[i]).pressed == raw.gamepads@[i]
                        && ctx.gamepads@[i].just_pressed == edge_bits(
                        raw.gamepads@[i],
                        old(engine).gamepads.previous@[i],
                    )
                &&& final(game).running() == toggled(old(game).running(), ctx)
                &&& #[trigger] frame_cells(
                    old(game).cells(),
                    old(game).running(),
                    ctx,
                    old(game).grid_width(),
                    old(game).grid_height(),
                ) == final(game).cells()
            },
{
    match engine.run_frame(raw) {
        Some(ctx) => {
            game.run_game_frame(&ctx, surface);
            assert(frame_cells(
                old(game).cells(),
                old(game).running(),
                ctx,
                old(game).grid_width(),
                old(game).grid_height(),
            ) == game.cells());
            true
        },
        None => false,
    }
}

} // verus!
verus! {

/// The title has two lines.
#[verifier::rlimit(100)]
proof fn lemma_title_lines()
    ensures
        split_lines(title_text()).len() == 2,
{
    reveal_with_fuel(split_lines, 26);
}

/// The greeting has one line.
proof fn lemma_greeting_lines()
    ensures
        split_lines(greeting_text()).len() == 1,
{
    reveal_with_fuel(split_lines, 10);
}

/// The controls have four lines.
#[verifier::rlimit(100)]
proof fn lemma_controls_lines()
    ensures
        split_lines(controls_text()).len() == 4,
{
    let l0: Seq<u8> = seq![128, 32, 116, 111, 32, 112, 97, 117, 115, 101, 47, 114, 101, 115, 117, 109, 101, 10];
    let l1: Seq<u8> = seq![129, 32, 116, 111, 32, 99, 108, 101, 97, 114, 32, 103, 114, 105, 100, 10];
    let l2: Seq<u8> = seq![76, 101, 102, 116, 45, 99, 108, 105, 99, 107, 32, 116, 111, 32, 100, 114, 97, 119, 10];
    let l3: Seq<u8> = seq![82, 105, 103, 104, 116, 45, 99, 108, 105, 99, 107, 32, 116, 111, 32, 101, 114, 97, 115, 101];
    reveal_with_fuel(split_lines, 21);
    assert(split_lines(l0).len() == 2);
    assert(split_lines(l1).len() == 2);
    assert(split_lines(l2).len() == 2);
    assert(split_lines(l3).len() == 1);
    lemma_split_lines_concat(l0, l1);
    lemma_split_lines_concat(l0 + l1, l2);
    lemma_split_lines_concat(l0 + l1 + l2, l3);
    assert(controls_text() =~= l0 + l1 + l2 + l3);
}

/// The instructions take seven text calls: two title lines, the greeting,
/// and four lines of controls.
pub proof fn lemma_instruction_lines()
    ensures
        instruction_lines() == 7,
{
    lemma_title_lines();
    lemma_greeting_lines();
    lemma_controls_lines();
}

} // verus!
