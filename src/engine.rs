use vstd::prelude::*;

use crate::gamepad::{
    edge_bits, lemma_press_fires_once, previous_at, GamepadButton, GamepadIndex, GamepadState,
    GlobalGamepads,
};
use crate::mouse::{GlobalMouse, MouseState};
use crate::screen::Screen;

verus! {

/// Host ticks per second.
pub const FPS: u64 = 60;

/// The raw input registers as the host reads them at one tick.
#[derive(Clone, Copy, Debug)]
pub struct RawInput {
    /// Held-button bits of each controller slot.
    pub gamepads: [u8; 4],
    /// Pointer position, in pixels.
    pub mouse_x: i16,
    pub mouse_y: i16,
    /// Held-button bits of the mouse.
    pub mouse_buttons: u8,
}

/// Whether the tick with index `frame` runs its body under skip factor `skip`.
pub open spec fn frame_runs(frame: u64, skip: u32) -> bool {
    skip == 0 || frame % (skip as u64) == 0
}

/// What the body of a tick sees: the input state of the tick and the tick's
/// index.
#[derive(Clone, Copy, Debug)]
pub struct FrameContext {
    pub gamepads: [GamepadState; 4],
    pub mouse: MouseState,
    pub frame: u64,
}

impl FrameContext {
    /// The context of tick `frame`, from the raw input of the tick and the
    /// trackers' previous snapshots.
    fn new(gamepads: &GlobalGamepads, mouse: &GlobalMouse, raw: &RawInput, frame: u64) -> (r: Self)
        ensures
            r.frame == frame,
            r.mouse == mouse.get_spec(raw.mouse_x, raw.mouse_y, raw.mouse_buttons),
            forall|i: int|
                0 <= i < 4 ==> (#[trigger] r.gamepads@[i]).pressed == raw.gamepads@[i]
                    && r.gamepads@[i].just_pressed == edge_bits(raw.gamepads@[i], gamepads.previous@[i]),
    {
        FrameContext {
            gamepads: gamepads.get_all_gamepads(raw.gamepads),
            mouse: mouse.get(raw.mouse_x, raw.mouse_y, raw.mouse_buttons),
            frame,
        }
    }

    /// The state of the four gamepads.
    pub fn gamepads(&self) -> (r: &[GamepadState; 4])
        ensures
            r@ == self.gamepads@,
    {
        &self.gamepads
    }

    /// The state of gamepad `index`.
    pub fn gamepad(&self, index: GamepadIndex) -> (r: &GamepadState)
        ensures
            *r == self.gamepads@[index.slot()],
    {
        &self.gamepads[index.as_usize()]
    }

    /// The state of the mouse.
    pub fn mouse(&self) -> (r: &MouseState)
        ensures
            *r == self.mouse,
    {
        &self.mouse
    }

    /// The screen.
    pub fn screen(&self) -> (r: Screen)
        ensures
            r == Screen::spec_get(),
    {
        Screen::get()
    }

    /// Index of the tick, counted from 0.
    pub fn frame(&self) -> (r: u64)
        ensures
            r == self.frame,
    {
        self.frame
    }
}

/// The frame scheduler, and the input trackers it commits at each tick's end.
#[derive(Clone, Copy, Debug)]
pub struct Engine {
    /// Ticks elapsed since start.
    pub frame_count: u64,
    /// The body runs on every tick whose index this divides; 0 runs it on all.
    pub frame_skip: u32,
    pub gamepads: GlobalGamepads,
    pub mouse: GlobalMouse,
}

impl Engine {
    /// An engine at tick 0 that skips no tick, with no button down before.
    pub fn new() -> (r: Self)
        ensures
            r.frame_count == 0,
            r.frame_skip == 0,
            forall|i: int| 0 <= i < 4 ==> r.gamepads.previous@[i] == 0,
            r.mouse.previous == 0,
    {
        Engine {
            frame_count: 0,
            frame_skip: 0,
            gamepads: GlobalGamepads::new(),
            mouse: GlobalMouse::new(),
        }
    }

    /// Sets the skip factor.
    pub fn set_frame_skip(&mut self, value: u32)
        ensures
            final(self).frame_skip == value,
            final(self).frame_count == old(self).frame_count,
            final(self).gamepads == old(self).gamepads,
            final(self).mouse == old(self).mouse,
    {
        self.frame_skip = value;
    }

    /// Ticks elapsed since start.
    pub fn frame_count(&self) -> (r: u64)
        ensures
            r == self.frame_count,
    {
        self.frame_count
    }

    /// The skip factor.
    pub fn frame_skipped(&self) -> (r: u32)
        ensures
            r == self.frame_skip,
    {
        self.frame_skip
    }

    /// Commits the raw input of the tick as the trackers' previous snapshots.
    fn tick_frame_end(&mut self, raw: &RawInput)
        ensures
            final(self).gamepads.previous@ == raw.gamepads@,
            final(self).mouse.previous == raw.mouse_buttons,
            final(self).frame_count == old(self).frame_count,
            final(self).frame_skip == old(self).frame_skip,
    {
        self.mouse.tick_frame_end(raw.mouse_buttons);
        self.gamepads.tick_frame_end(raw.gamepads);
    }

    /// The engine after one host tick with raw input `raw`: one tick more,
    /// the same skip factor, and `raw` committed as the previous input.
    pub open spec fn after_frame(self, raw: RawInput) -> Engine {
        Engine {
            frame_count: (self.frame_count + 1) as u64,
            frame_skip: self.frame_skip,
            gamepads: GlobalGamepads { previous: raw.gamepads },
            mouse: GlobalMouse { previous: raw.mouse_buttons },
        }
    }

    /// Runs the scheduler for one host tick with the raw input `raw`.
    ///
    /// Returns the context for the tick's body when the body runs this tick,
    /// that is when the skip factor is 0 or divides the tick's index (the
    /// counter before this call). Either way the counter goes up by one and
    /// the trackers commit `raw`, so the edges in the returned context are
    /// against the snapshot of the previous tick.
    pub fn run_frame(&mut self, raw: RawInput) -> (r: Option<FrameContext>)
        requires
            old(self).frame_count < u64::MAX,
        ensures
            *final(self) == old(self).after_frame(raw),
            final(self).frame_count == old(self).frame_count + 1,
            final(self).frame_skip == old(self).frame_skip,
            final(self).gamepads.previous@ == raw.gamepads@,
            final(self).mouse.previous == raw.mouse_buttons,
            r is Some <==> frame_runs(old(self).frame_count, old(self).frame_skip),
            r matches Some(ctx) ==> {
                &&& ctx.frame == old(self).frame_count
                &&& ctx.mouse == old(self).mouse.get_spec(raw.mouse_x, raw.mouse_y, raw.mouse_buttons)
                &&& forall|i: int|
                    0 <= i < 4 ==> (#[trigger] ctx.gamepads@[i]).pressed == raw.gamepads@[i]
                        && ctx.gamepads@[i].just_pressed == edge_bits(
                        raw.gamepads@[i],
                        old(self).gamepads.previous@[i],
                    )
            },
    {
        let current_frame = self.frame_count;
        let frame_skip = self.frame_skip;
        let ctx = if frame_skip == 0 || current_frame % (frame_skip as u64) == 0 {
            Some(FrameContext::new(&self.gamepads, &self.mouse, &raw, current_frame))
        } else {
            None
        };
        self.frame_count = current_frame + 1;
        self.tick_frame_end(&raw);
        proof {
            assert(self.gamepads.previous =~= raw.gamepads);
        }
        ctx
    }
}

/// The engine after one tick for each of the first `t` raw inputs of `raws`,
/// from `e`.
pub open spec fn engine_after(e: Engine, raws: Seq<RawInput>, t: nat) -> Engine
    decreases t,
{
    if t == 0 {
        e
    } else {
        engine_after(e, raws, (t - 1) as nat).after_frame(raws[t - 1])
    }
}

/// Over successive ticks, a button of gamepad slot `slot` held from tick
/// `start` through `n` ticks, after a tick where it was up, is reported held
/// in each of those ticks' contexts and just pressed in the first one only.
///
/// At tick `t` the engine is `engine_after(e, raws, t)`; `run_frame` gives its
/// body a context whose gamepad `slot` has `pressed` equal to the tick's raw
/// state and `just_pressed` equal to `edge_bits` of that state and the
/// engine's previous snapshot, which this states over the ticks.
pub proof fn lemma_engine_press_fires_once(
    e: Engine,
    raws: Seq<RawInput>,
    slot: int,
    button: GamepadButton,
    start: int,
    n: int,
)
    requires
        0 <= slot < 4,
        0 <= start,
        1 <= n,
        start + n <= raws.len(),
        forall|t: int|
            start <= t < start + n ==> #[trigger] raws[t].gamepads@[slot] & button.spec_mask() != 0,
        (if start == 0 {
            e.gamepads.previous@[slot]
        } else {
            raws[start - 1].gamepads@[slot]
        }) & button.spec_mask() == 0,
    ensures
        forall|t: int|
            start <= t < start + n ==> (#[trigger] raws[t].gamepads@[slot] & button.spec_mask() != 0)
                && ((edge_bits(
                raws[t].gamepads@[slot],
                engine_after(e, raws, t as nat).gamepads.previous@[slot],
            ) & button.spec_mask() != 0) == (t == start)),
        e.frame_skip == 0 ==> forall|t: int|
            start <= t < start + n ==> #[trigger] frame_runs(
                engine_after(e, raws, t as nat).frame_count,
                engine_after(e, raws, t as nat).frame_skip,
            ),
{
    let slot_raws = Seq::new(raws.len(), |t: int| raws[t].gamepads@[slot]);
    let first = e.gamepads.previous@[slot];
    assert forall|t: int| 0 <= t <= raws.len() implies #[trigger] engine_after(e, raws, t as nat).gamepads.previous@[slot]
        == previous_at(slot_raws, first, t) && engine_after(e, raws, t as nat).frame_skip == e.frame_skip by {
        lemma_engine_after_skip(e, raws, t as nat);
    }
    lemma_press_fires_once(slot_raws, first, button, start, n);
    assert forall|t: int| start <= t < start + n implies (#[trigger] raws[t].gamepads@[slot]
        & button.spec_mask() != 0) && ((edge_bits(
        raws[t].gamepads@[slot],
        engine_after(e, raws, t as nat).gamepads.previous@[slot],
    ) & button.spec_mask() != 0) == (t == start)) by {
        assert(slot_raws[t] == raws[t].gamepads@[slot]);
    }
    if e.frame_skip == 0 {
        assert forall|t: int| start <= t < start + n implies #[trigger] frame_runs(
            engine_after(e, raws, t as nat).frame_count,
            engine_after(e, raws, t as nat).frame_skip,
        ) by {
            lemma_engine_after_skip(e, raws, t as nat);
        }
    }
}

/// Ticks keep the skip factor, and leave as previous snapshot the last raw
/// input.
proof fn lemma_engine_after_skip(e: Engine, raws: Seq<RawInput>, t: nat)
    requires
        t <= raws.len(),
    ensures
        engine_after(e, raws, t).frame_skip == e.frame_skip,
        t > 0 ==> engine_after(e, raws, t).gamepads.previous@ == raws[t - 1].gamepads@,
        t == 0 ==> engine_after(e, raws, t) == e,
    decreases t,
{
    if t > 0 {
        lemma_engine_after_skip(e, raws, (t - 1) as nat);
    }
}

} // verus!
