//! Per-host-frame state: the systems that run at HOST refresh rate with
//! real dt semantics (cursor, edge latches, volume, cooldown displays).
//! None of it is hashed; the host quantizes its dt to whole sub-ticks of
//! the 240Hz grid.

use vstd::prelude::*;

use crate::input::InputFrame;

verus! {

/// Sub-ticks per 60Hz sim tick: the 240Hz quantization grid.
/// 240Hz host = exactly 1 sub-tick per frame, 60Hz = 4, 15Hz = 16.
pub const SUBTICKS_PER_TICK: u32 = 4;

/// Largest cursor X in 640x480 game space (clamp, not modulo).
pub const CURSOR_MAX_X: i32 = 639;

/// Largest cursor Y in 640x480 game space (clamp, not modulo).
pub const CURSOR_MAX_Y: i32 = 479;

/// Volume ceiling.
pub const VOLUME_MAX: i32 = 100;

/// `v` clamped into `[lo, hi]`.
pub open spec fn clamp_int(v: int, lo: int, hi: int) -> int {
    if v < lo {
        lo
    } else if v > hi {
        hi
    } else {
        v
    }
}

/// Per-host-frame state — the NON-hashed bucket.
#[derive(Debug, Clone, Copy, PartialEq, Eq)]
pub struct FrameState {
    /// Pointer X, integrated from `mouse_dx` each frame, clamped 0..=639.
    pub cursor_x: i32,
    /// Pointer Y, integrated from `mouse_dy` each frame, clamped 0..=479.
    pub cursor_y: i32,
    /// Edge latch on `buttons` bit 0: 1 exactly on the host frame where the
    /// button goes released->pressed, 0 otherwise.
    pub latch_primary: u32,
    /// Audio volume 0..=100.
    pub volume: i32,
    /// Cooldown display counter, decremented in whole sim ticks and
    /// saturating at 0.
    pub cooldown_display: i32,
    /// Previous frame's `buttons` bit 0, for edge detection.
    prev_primary: bool,
}

/// The whole of a [`FrameState`], the private edge bit included.
pub struct FrameModel {
    pub cursor_x: int,
    pub cursor_y: int,
    pub latch_primary: nat,
    pub volume: int,
    pub cooldown_display: int,
    pub prev_primary: bool,
}

impl View for FrameState {
    type V = FrameModel;

    closed spec fn view(&self) -> FrameModel {
        FrameModel {
            cursor_x: self.cursor_x as int,
            cursor_y: self.cursor_y as int,
            latch_primary: self.latch_primary as nat,
            volume: self.volume as int,
            cooldown_display: self.cooldown_display as int,
            prev_primary: self.prev_primary,
        }
    }
}

/// The model of a zeroed frame state.
pub open spec fn zeroed_model() -> FrameModel {
    FrameModel {
        cursor_x: 0,
        cursor_y: 0,
        latch_primary: 0,
        volume: 0,
        cooldown_display: 0,
        prev_primary: false,
    }
}

/// The model after one host frame of `dt_subticks` sub-ticks with mouse
/// deltas `dx`/`dy` and button bit `primary`.
pub open spec fn frame_step(m: FrameModel, dt_subticks: nat, dx: int, dy: int, primary: bool) -> FrameModel {
    FrameModel {
        cursor_x: clamp_int(m.cursor_x + dx, 0, 639),
        cursor_y: clamp_int(m.cursor_y + dy, 0, 479),
        latch_primary: if primary && !m.prev_primary { 1 } else { 0 },
        volume: clamp_int(m.volume, 0, 100),
        cooldown_display: if m.cooldown_display - dt_subticks / 4 < 0 {
            0
        } else {
            m.cooldown_display - dt_subticks / 4
        },
        prev_primary: primary,
    }
}

/// Whatever the state before and whatever the frame's input, after one
/// host frame the cursor lies inside 640x480 game space, the volume
/// inside 0..=100, the cooldown display is not negative and the latch is
/// 0 or 1.
pub proof fn lemma_frame_step_in_bounds(m: FrameModel, dt_subticks: nat, dx: int, dy: int, primary: bool)
    ensures
        0 <= frame_step(m, dt_subticks, dx, dy, primary).cursor_x <= CURSOR_MAX_X,
        0 <= frame_step(m, dt_subticks, dx, dy, primary).cursor_y <= CURSOR_MAX_Y,
        0 <= frame_step(m, dt_subticks, dx, dy, primary).volume <= VOLUME_MAX,
        0 <= frame_step(m, dt_subticks, dx, dy, primary).cooldown_display,
        frame_step(m, dt_subticks, dx, dy, primary).latch_primary <= 1,
{
}

/// The latch pulses on the press edge only: with the button held on two
/// frames in a row, the second frame's latch is 0; a press after a
/// release pulses 1.
pub proof fn lemma_latch_press_edge_only(
    m: FrameModel,
    d1: nat,
    x1: int,
    y1: int,
    p1: bool,
    d2: nat,
    x2: int,
    y2: int,
)
    ensures
        p1 ==> frame_step(frame_step(m, d1, x1, y1, p1), d2, x2, y2, true).latch_primary == 0,
        !p1 ==> frame_step(frame_step(m, d1, x1, y1, p1), d2, x2, y2, true).latch_primary == 1,
{
}

/// The cooldown display drops in whole sim ticks only: a frame shorter
/// than one tick leaves it where it was, and a display at 0 stays at 0.
pub proof fn lemma_cooldown_whole_ticks(m: FrameModel, dt_subticks: nat, dx: int, dy: int, primary: bool)
    ensures
        dt_subticks < SUBTICKS_PER_TICK && m.cooldown_display >= 0 ==> frame_step(
            m,
            dt_subticks,
            dx,
            dy,
            primary,
        ).cooldown_display == m.cooldown_display,
        m.cooldown_display == 0 ==> frame_step(m, dt_subticks, dx, dy, primary).cooldown_display
            == 0,
{
}

impl Default for FrameState {
    fn default() -> (f: Self)
        ensures
            f@ == zeroed_model(),
    {
        FrameState::new()
    }
}

impl FrameState {
    /// Zeroed state (`volume` starts 0 — hosts restore it from settings).
    pub fn new() -> (f: FrameState)
        ensures
            f@ == zeroed_model(),
    {
        FrameState {
            cursor_x: 0,
            cursor_y: 0,
            latch_primary: 0,
            volume: 0,
            cooldown_display: 0,
            prev_primary: false,
        }
    }

    /// Run one host frame of the frame-rate systems, `dt_subticks` being
    /// this frame's elapsed time in whole sub-ticks:
    /// - the cursor integrates the mouse deltas, then clamps into game space;
    /// - `latch_primary` pulses 1 on the press edge of `buttons` bit 0;
    /// - `volume` is clamped back into 0..=100;
    /// - `cooldown_display` drops by `dt_subticks / 4` whole ticks, never
    ///   below 0.
    pub fn advance_frame(&mut self, dt_subticks: u32, input: &InputFrame)
        requires
            i32::MIN <= old(self)@.cursor_x + input.mouse_dx <= i32::MAX,
            i32::MIN <= old(self)@.cursor_y + input.mouse_dy <= i32::MAX,
        ensures
            final(self)@ == frame_step(
                old(self)@,
                dt_subticks as nat,
                input.mouse_dx as int,
                input.mouse_dy as int,
                input.buttons & 1 != 0,
            ),
    {
        let x = self.cursor_x + input.mouse_dx as i32;
        self.cursor_x = if x < 0 {
            0
        } else if x > CURSOR_MAX_X {
            CURSOR_MAX_X
        } else {
            x
        };
        let y = self.cursor_y + input.mouse_dy as i32;
        self.cursor_y = if y < 0 {
            0
        } else if y > CURSOR_MAX_Y {
            CURSOR_MAX_Y
        } else {
            y
        };
        let primary = input.buttons & 1 != 0;
        self.latch_primary = if primary && !self.prev_primary {
            1
        } else {
            0
        };
        self.prev_primary = primary;
        self.volume = if self.volume < 0 {
            0
        } else if self.volume > VOLUME_MAX {
            VOLUME_MAX
        } else {
            self.volume
        };
        let whole_ticks = (dt_subticks / SUBTICKS_PER_TICK) as i32;
        let c = self.cooldown_display as i64 - whole_ticks as i64;
        self.cooldown_display = if c < 0 {
            0
        } else {
            c as i32
        };
    }
}

} // verus!
