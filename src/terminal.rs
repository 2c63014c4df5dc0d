//! The render loop's decisions: which key does what, and when a frame is due.
//! Reading keys, reading the clock, sleeping and drawing are left to the caller,
//! which hands the results in as plain values.
use vstd::prelude::*;
use crate::fractal::{moved_frame, FractalTrait};
use crate::viewport::Motion;

verus! {

/// Frames drawn per second, at most.
pub const FPS: u64 = 60;

pub const NANOS_PER_SEC: u64 = 1000000000;

/// The key of a key press, as far as the controls tell keys apart.
#[derive(Clone, Copy, Debug, PartialEq, Eq, Structural)]
pub enum KeyCode {
    Char(char),
    Left,
    Right,
    Up,
    Down,
    Other,
}

/// A key press: the key and whether Control was held.
#[derive(Clone, Copy, Debug, PartialEq, Eq, Structural)]
pub struct KeyPress {
    pub code: KeyCode,
    pub control: bool,
}

/// What a key press asks for.
#[derive(Clone, Copy, Debug, PartialEq, Eq, Structural)]
pub enum Action {
    Quit,
    Move(Motion),
    Nothing,
}

/// What the loop does next: draw a frame now, or sleep for the given
/// number of nanoseconds first.
#[derive(Clone, Copy, Debug, PartialEq, Eq, Structural)]
pub enum FrameStep {
    Render,
    Sleep(u64),
}

/// Control-d quits; `e` zooms in, `r` zooms out; the arrow keys pan.
pub open spec fn action_of(key: KeyPress) -> Action {
    match key.code {
        KeyCode::Char(c) => {
            if c == 'd' && key.control {
                Action::Quit
            } else if c == 'e' {
                Action::Move(Motion::ZoomIn)
            } else if c == 'r' {
                Action::Move(Motion::ZoomOut)
            } else {
                Action::Nothing
            }
        },
        KeyCode::Left => Action::Move(Motion::Left),
        KeyCode::Right => Action::Move(Motion::Right),
        KeyCode::Up => Action::Move(Motion::Up),
        KeyCode::Down => Action::Move(Motion::Down),
        KeyCode::Other => Action::Nothing,
    }
}

/// The action that `key` asks for.
pub fn decode(key: KeyPress) -> (a: Action)
    ensures
        a == action_of(key),
{
    match key.code {
        KeyCode::Char(c) => {
            if c == 'd' && key.control {
                Action::Quit
            } else if c == 'e' {
                Action::Move(Motion::ZoomIn)
            } else if c == 'r' {
                Action::Move(Motion::ZoomOut)
            } else {
                Action::Nothing
            }
        },
        KeyCode::Left => Action::Move(Motion::Left),
        KeyCode::Right => Action::Move(Motion::Right),
        KeyCode::Up => Action::Move(Motion::Up),
        KeyCode::Down => Action::Move(Motion::Down),
        KeyCode::Other => Action::Nothing,
    }
}

/// The grid's extent and the frame clock. Times are nanoseconds on a
/// monotonic clock that the caller reads.
pub struct Terminal {
    cols: u16,
    rows: u16,
    frame_duration: u64,
    last_frame: u64,
    now: u64,
    elapsed: u64,
}

impl Terminal {
    pub closed spec fn col_count(self) -> int {
        self.cols as int
    }

    pub closed spec fn row_count(self) -> int {
        self.rows as int
    }

    /// The shortest time between two frames.
    pub closed spec fn frame_nanos(self) -> int {
        self.frame_duration as int
    }

    /// When the last frame was drawn.
    pub closed spec fn last_frame_at(self) -> int {
        self.last_frame as int
    }

    /// The time of the last clock reading.
    pub closed spec fn now_at(self) -> int {
        self.now as int
    }

    /// Time from the last frame to the last clock reading.
    pub closed spec fn elapsed_nanos(self) -> int {
        self.elapsed as int
    }

    /// A surface of `cols` by `rows` cells, whose clock reads `start`.
    pub fn new(cols: u16, rows: u16, start: u64) -> (t: Terminal)
        ensures
            t.col_count() == cols,
            t.row_count() == rows,
            t.frame_nanos() == NANOS_PER_SEC / FPS,
            t.last_frame_at() == start,
            t.now_at() == start,
            t.elapsed_nanos() == 0,
    {
        Terminal { cols, rows, frame_duration: NANOS_PER_SEC / FPS, last_frame: start, now: start, elapsed: 0 }
    }

    pub fn get_rows(&self) -> (r: u16)
        ensures
            r == self.row_count(),
    {
        self.rows
    }

    pub fn get_cols(&self) -> (r: u16)
        ensures
            r == self.col_count(),
    {
        self.cols
    }

    /// Takes a clock reading: the time since the last frame is measured up
    /// to `instant` (zero if `instant` lies before the last frame).
    pub fn now(&mut self, instant: u64)
        ensures
            final(self).now_at() == instant,
            final(self).elapsed_nanos() == if instant >= old(self).last_frame_at() {
                instant - old(self).last_frame_at()
            } else {
                0
            },
            final(self).last_frame_at() == old(self).last_frame_at(),
            final(self).frame_nanos() == old(self).frame_nanos(),
            final(self).col_count() == old(self).col_count(),
            final(self).row_count() == old(self).row_count(),
    {
        self.now = instant;
        self.elapsed = if instant >= self.last_frame {
            instant - self.last_frame
        } else {
            0
        };
    }

    /// A frame is due once a whole frame interval has passed since the last
    /// one: it is stamped at the last clock reading. Otherwise the loop
    /// sleeps for what is left of the interval.
    pub fn check_time(&mut self) -> (step: FrameStep)
        ensures
            old(self).elapsed_nanos() >= old(self).frame_nanos() ==> step == FrameStep::Render
                && final(self).last_frame_at() == old(self).now_at(),
            old(self).elapsed_nanos() < old(self).frame_nanos() ==> step == FrameStep::Sleep(
                (old(self).frame_nanos() - old(self).elapsed_nanos()) as u64,
            ) && final(self).last_frame_at() == old(self).last_frame_at(),
            final(self).now_at() == old(self).now_at(),
            final(self).elapsed_nanos() == old(self).elapsed_nanos(),
            final(self).frame_nanos() == old(self).frame_nanos(),
            final(self).col_count() == old(self).col_count(),
            final(self).row_count() == old(self).row_count(),
    {
        if self.elapsed >= self.frame_duration {
            self.last_frame = self.now;
            FrameStep::Render
        } else {
            FrameStep::Sleep(self.frame_duration - self.elapsed)
        }
    }

    /// Acts on the key pressed since the last poll, if any: a pan or zoom
    /// moves `fractal`'s viewport. Returns whether the key asks to quit.
    pub fn handle_input<F: FractalTrait>(&self, key: Option<KeyPress>, fractal: &mut F) -> (quit: bool)
        requires
            old(fractal).wf(),
        ensures
            final(fractal).wf(),
            quit == (key is Some && action_of(key->Some_0) == Action::Quit),
            match key {
                Some(k) => match action_of(k) {
                    Action::Move(m) => {
                        &&& moved_frame(m, old(fractal).frame(), final(fractal).frame())
                        &&& forall|x: int, y: int| #[trigger]
                            final(fractal).escape_at(x, y) == old(fractal).escape_at(x, y)
                        &&& final(fractal).same_variant(old(fractal))
                    },
                    _ => *final(fractal) == *old(fractal),
                },
                None => *final(fractal) == *old(fractal),
            },
    {
        match key {
            Some(k) => match decode(k) {
                Action::Quit => true,
                Action::Move(m) => {
                    fractal.apply(m);
                    false
                },
                Action::Nothing => false,
            },
            None => false,
        }
    }
}

} // verus!
