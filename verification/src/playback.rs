//! How a picture or an animation is played.
//!
//! Playing is a sequence of steps. The caller does what a step asks for
//! (decode the file, show a frame and wait for its delay, end the run) and
//! reports back what happened; the player decides what comes next. An
//! interrupt is one of the things that can be reported, at any time; it ends
//! the run like every other ending, through one `Finish`.
//!
//! The canvas is opened by the caller when the file has been decoded, before
//! that is reported. So the player knows at every ending whether there is a
//! canvas to shut down, and says so in `Finish`.

use vstd::prelude::*;

verus! {

/// The exit code of a run that showed what it was asked to show, or was
/// interrupted.
pub const EXIT_OK: u8 = 0;

/// The exit code of a run whose file could not be read or decoded, or whose
/// picture could not be drawn.
pub const EXIT_FAILURE: u8 = 1;

/// Where a run stands.
#[derive(Clone, Copy, Debug, PartialEq, Eq, Structural)]
pub enum Phase {
    /// Nothing has been asked for yet.
    Idle,
    /// The file is being decoded.
    Decoding,
    /// The frame with this index is being shown.
    Showing { frame: usize },
    /// The run has ended.
    Finished,
}

/// A run: where it stands, how many frames it plays, and whether it starts
/// again after the last one.
#[derive(Clone, Copy, Debug, PartialEq, Eq, Structural)]
pub struct Player {
    pub phase: Phase,
    pub frames: usize,
    pub looping: bool,
}

/// What the caller reports.
#[derive(Clone, Copy, Debug, PartialEq, Eq, Structural)]
pub enum Event {
    /// The run is to begin.
    Start,
    /// The file was decoded and holds this many frames, and the canvas has
    /// been opened.
    Decoded { frames: usize },
    /// The file could not be read or decoded.
    DecodeFailed,
    /// The frame that was asked for has been shown for its delay.
    FrameShown,
    /// The frame that was asked for could not be drawn.
    DrawFailed,
    /// The user interrupted the run.
    Interrupt,
}

/// What the caller is asked to do.
#[derive(Clone, Copy, Debug, PartialEq, Eq, Structural)]
pub enum Action {
    /// Read and decode the file.
    Decode,
    /// Fit the frame with this index to the canvas, draw it, and wait for its
    /// delay.
    Show { frame: usize },
    /// End the run with this exit code, after cleaning up if the canvas has
    /// been opened.
    Finish { code: u8, canvas_open: bool },
    /// Nothing.
    Nothing,
}

/// A run before it begins.
pub open spec fn initial_player(looping: bool) -> Player {
    Player { phase: Phase::Idle, frames: 0, looping }
}

/// The state after an event, and what the event asks for.
///
/// An interrupt ends a run that has not ended. A run that has ended stays
/// ended and asks for nothing. The canvas is open at an ending if the file
/// had been decoded by then. A decoded file starts with its first frame; a
/// shown frame is followed by the next one, after the last one by the first
/// if the run loops, and by the end otherwise. A failed decoding ends the run
/// with the failure code, and so does a frame that cannot be drawn. An event
/// that does not belong to the phase asks for nothing and changes nothing.
pub open spec fn next(p: Player, e: Event) -> (Player, Action) {
    match (p.phase, e) {
        (Phase::Finished, _) => (p, Action::Nothing),
        (_, Event::Interrupt) => (
            Player { phase: Phase::Finished, ..p },
            Action::Finish { code: EXIT_OK, canvas_open: p.phase is Showing },
        ),
        (Phase::Idle, Event::Start) => (Player { phase: Phase::Decoding, ..p }, Action::Decode),
        (Phase::Decoding, Event::DecodeFailed) => (
            Player { phase: Phase::Finished, ..p },
            Action::Finish { code: EXIT_FAILURE, canvas_open: false },
        ),
        (Phase::Decoding, Event::Decoded { frames }) => if frames == 0 {
            (
                Player { phase: Phase::Finished, frames, ..p },
                Action::Finish { code: EXIT_OK, canvas_open: true },
            )
        } else {
            (Player { phase: Phase::Showing { frame: 0 }, frames, ..p }, Action::Show { frame: 0 })
        },
        (Phase::Showing { frame }, Event::DrawFailed) => (
            Player { phase: Phase::Finished, ..p },
            Action::Finish { code: EXIT_FAILURE, canvas_open: true },
        ),
        (Phase::Showing { frame }, Event::FrameShown) => if frame + 1 < p.frames {
            (
                Player { phase: Phase::Showing { frame: (frame + 1) as usize }, ..p },
                Action::Show { frame: (frame + 1) as usize },
            )
        } else if p.looping {
            (Player { phase: Phase::Showing { frame: 0 }, ..p }, Action::Show { frame: 0 })
        } else {
            (
                Player { phase: Phase::Finished, ..p },
                Action::Finish { code: EXIT_OK, canvas_open: true },
            )
        },
        _ => (p, Action::Nothing),
    }
}

/// The time to wait after a frame, in whole milliseconds: the numerator of the
/// frame's delay, which is given as a fraction of milliseconds.
pub open spec fn pause_of(numerator: u32, denominator: u32) -> nat {
    numerator as nat
}

impl Player {
    /// A run before it begins.
    pub fn new(looping: bool) -> (p: Player)
        ensures
            p == initial_player(looping),
    {
        Player { phase: Phase::Idle, frames: 0, looping }
    }

    /// Whether the run has ended.
    pub fn is_finished(&self) -> (done: bool)
        ensures
            done == (self.phase == Phase::Finished),
    {
        match self.phase {
            Phase::Finished => true,
            _ => false,
        }
    }

    /// Takes an event and says what to do next.
    pub fn step(&mut self, event: Event) -> (action: Action)
        ensures
            (*final(self), action) == next(*old(self), event),
    {
        match self.phase {
            Phase::Finished => Action::Nothing,
            Phase::Idle => match event {
                Event::Interrupt => {
                    self.phase = Phase::Finished;
                    Action::Finish { code: EXIT_OK, canvas_open: false }
                },
                Event::Start => {
                    self.phase = Phase::Decoding;
                    Action::Decode
                },
                _ => Action::Nothing,
            },
            Phase::Decoding => match event {
                Event::Interrupt => {
                    self.phase = Phase::Finished;
                    Action::Finish { code: EXIT_OK, canvas_open: false }
                },
                Event::DecodeFailed => {
                    self.phase = Phase::Finished;
                    Action::Finish { code: EXIT_FAILURE, canvas_open: false }
                },
                Event::Decoded { frames } => {
                    self.frames = frames;
                    if frames == 0 {
                        self.phase = Phase::Finished;
                        Action::Finish { code: EXIT_OK, canvas_open: true }
                    } else {
                        self.phase = Phase::Showing { frame: 0 };
                        Action::Show { frame: 0 }
                    }
                },
                _ => Action::Nothing,
            },
            Phase::Showing { frame } => match event {
                Event::Interrupt => {
                    self.phase = Phase::Finished;
                    Action::Finish { code: EXIT_OK, canvas_open: true }
                },
                Event::DrawFailed => {
                    self.phase = Phase::Finished;
                    Action::Finish { code: EXIT_FAILURE, canvas_open: true }
                },
                Event::FrameShown => {
                    if frame < self.frames && frame + 1 < self.frames {
                        self.phase = Phase::Showing { frame: frame + 1 };
                        Action::Show { frame: frame + 1 }
                    } else if self.looping {
                        self.phase = Phase::Showing { frame: 0 };
                        Action::Show { frame: 0 }
                    } else {
                        self.phase = Phase::Finished;
                        Action::Finish { code: EXIT_OK, canvas_open: true }
                    }
                },
                _ => Action::Nothing,
            },
        }
    }
}

/// The time to wait after a frame whose delay is `numerator / denominator`
/// milliseconds.
pub fn pause_millis(numerator: u32, denominator: u32) -> (ms: u64)
    ensures
        ms == pause_of(numerator, denominator),
{
    numerator as u64
}

} // verus!
