//! The main loop of a session: counting frames and spacing them out.
use vstd::prelude::*;

use crate::orchestrator::config::RealtimeSessionConfig;

verus! {

/// The memory of the main loop. Times are nanoseconds since the session started.
#[derive(Debug, Clone, Copy, PartialEq, Eq, Structural)]
pub struct SessionLoop {
    /// The number of frames taken so far.
    pub frame_index: u64,
    /// When the next frame may start.
    pub next_schedule_ns: u64,
    pub frames_closed: bool,
    pub commands_closed: bool,
}

impl SessionLoop {
    /// A loop that starts at `now_ns`.
    pub fn new(now_ns: u64) -> (r: Self)
        ensures
            r == (SessionLoop {
                frame_index: 0,
                next_schedule_ns: now_ns,
                frames_closed: false,
                commands_closed: false,
            }),
    {
        SessionLoop {
            frame_index: 0,
            next_schedule_ns: now_ns,
            frames_closed: false,
            commands_closed: false,
        }
    }

    /// Whether no frame and no command can come any more.
    pub fn finished(&self) -> (r: bool)
        ensures
            r == (self.frames_closed && self.commands_closed),
    {
        self.frames_closed && self.commands_closed
    }

    /// No further frame will come.
    pub fn close_frames(&mut self)
        ensures
            *final(self) == (SessionLoop { frames_closed: true, ..*old(self) }),
    {
        self.frames_closed = true;
    }

    /// No further command will come.
    pub fn close_commands(&mut self)
        ensures
            *final(self) == (SessionLoop { commands_closed: true, ..*old(self) }),
    {
        self.commands_closed = true;
    }

    /// Takes the next frame, which came at `now_ns`, and returns how long it has
    /// to wait for its turn.
    pub fn frame_arrived(&mut self, now_ns: u64) -> (wait_ns: u64)
        requires
            old(self).frame_index < u64::MAX,
        ensures
            *final(self) == (SessionLoop {
                frame_index: (old(self).frame_index + 1) as u64,
                ..*old(self)
            }),
            wait_ns == if now_ns < old(self).next_schedule_ns {
                old(self).next_schedule_ns - now_ns
            } else {
                0
            },
    {
        self.frame_index += 1;
        if now_ns < self.next_schedule_ns {
            self.next_schedule_ns - now_ns
        } else {
            0
        }
    }

    /// Starts the frame at `now_ns`. The next one follows after its duration,
    /// or after the shortest frame duration if that is longer.
    pub fn frame_started(&mut self, now_ns: u64, frame_ns: u64, min_frame_ns: u64)
        requires
            now_ns + frame_ns <= u64::MAX,
            now_ns + min_frame_ns <= u64::MAX,
        ensures
            *final(self) == (SessionLoop {
                next_schedule_ns: (now_ns + if frame_ns >= min_frame_ns {
                    frame_ns
                } else {
                    min_frame_ns
                }) as u64,
                ..*old(self)
            }),
    {
        let step = if frame_ns >= min_frame_ns {
            frame_ns
        } else {
            min_frame_ns
        };
        self.next_schedule_ns = now_ns + step;
    }
}

/// Whether a frame has an expected duration. Frames outside the bounds are
/// taken all the same.
pub fn frame_in_bounds(config: &RealtimeSessionConfig, frame_ns: u64) -> (r: bool)
    ensures
        r == (config.min_frame_ns <= frame_ns <= config.max_frame_ns),
{
    config.min_frame_ns <= frame_ns && frame_ns <= config.max_frame_ns
}

} // verus!
