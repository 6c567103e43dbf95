//! How far the local engine has come, as the cloud fallback and the cadence
//! monitor see it.
use vstd::prelude::*;

use crate::orchestrator::config;

verus! {

/// The loudness class of a frame.
#[derive(Debug, Clone, Copy, PartialEq, Eq, Structural)]
pub enum FrameEnergy {
    /// At or above the speech threshold.
    Speech,
    /// Between the two thresholds.
    Between,
    /// At or below the silence threshold.
    Silence,
}

/// The progress of the local engine. Times are milliseconds since the session
/// started; a speech start of zero means that no speech was heard yet.
#[derive(Debug, Clone, Copy, PartialEq, Eq, Structural)]
pub struct LocalProgress {
    pub last_frame: u64,
    pub degraded: bool,
    pub last_update_ms: u64,
    pub speech_started_ms: u64,
    pub speech_active: bool,
}

/// `p` once speech is known to have been heard at `elapsed_ns`.
pub open spec fn with_speech(p: LocalProgress, elapsed_ns: u64) -> LocalProgress {
    let ms = elapsed_ns / 1_000_000;
    LocalProgress {
        speech_started_ms: if p.speech_started_ms != 0 {
            p.speech_started_ms
        } else if ms == 0 {
            1
        } else {
            ms
        },
        ..p
    }
}

/// `p` once a transcript of frame `frame_index` was delivered at `elapsed_ns`.
pub open spec fn with_success(p: LocalProgress, frame_index: u64, elapsed_ns: u64) -> LocalProgress {
    if p.last_frame >= frame_index {
        with_speech(p, elapsed_ns)
    } else {
        with_speech(
            LocalProgress {
                last_frame: frame_index,
                degraded: false,
                last_update_ms: elapsed_ns / 1_000_000,
                ..p
            },
            elapsed_ns,
        )
    }
}

/// `p` once the local engine is seen to lag or fail.
pub open spec fn with_degraded(p: LocalProgress, elapsed_ns: u64) -> LocalProgress {
    LocalProgress { degraded: true, last_update_ms: elapsed_ns / 1_000_000, ..p }
}

/// `p` once a frame of the given loudness came in.
pub open spec fn with_energy(p: LocalProgress, elapsed_ns: u64, energy: FrameEnergy) -> LocalProgress {
    match energy {
        FrameEnergy::Speech => LocalProgress { speech_active: true, ..with_speech(p, elapsed_ns) },
        FrameEnergy::Between => p,
        FrameEnergy::Silence => LocalProgress { speech_active: false, ..p },
    }
}

impl Default for LocalProgress {
    fn default() -> (r: Self)
        ensures
            r == (LocalProgress {
                last_frame: 0,
                degraded: false,
                last_update_ms: 0,
                speech_started_ms: 0,
                speech_active: false,
            }),
    {
        LocalProgress {
            last_frame: 0,
            degraded: false,
            last_update_ms: 0,
            speech_started_ms: 0,
            speech_active: false,
        }
    }
}

impl LocalProgress {
    pub fn new() -> (r: Self)
        ensures
            r == (LocalProgress {
                last_frame: 0,
                degraded: false,
                last_update_ms: 0,
                speech_started_ms: 0,
                speech_active: false,
            }),
    {
        LocalProgress::default()
    }

    /// Notes that a transcript of frame `frame_index` was delivered. An older
    /// frame than the latest one only proves that there was speech.
    pub fn record_success(&mut self, frame_index: u64, elapsed_ns: u64)
        ensures
            *final(self) == with_success(*old(self), frame_index, elapsed_ns),
    {
        if self.last_frame < frame_index {
            self.last_frame = frame_index;
            self.degraded = false;
            self.last_update_ms = config::duration_to_ms(elapsed_ns);
        }
        self.mark_speech_detected(elapsed_ns);
    }

    /// Notes that the local engine lags or failed.
    pub fn mark_degraded(&mut self, elapsed_ns: u64)
        ensures
            *final(self) == with_degraded(*old(self), elapsed_ns),
    {
        self.degraded = true;
        self.last_update_ms = config::duration_to_ms(elapsed_ns);
    }

    /// Notes the loudness of a frame.
    pub fn record_frame_energy(&mut self, elapsed_ns: u64, energy: FrameEnergy)
        ensures
            *final(self) == with_energy(*old(self), elapsed_ns, energy),
    {
        match energy {
            FrameEnergy::Speech => {
                self.mark_speech_detected(elapsed_ns);
                self.speech_active = true;
            },
            FrameEnergy::Between => {},
            FrameEnergy::Silence => {
                self.speech_active = false;
            },
        }
    }

    pub fn last_frame(&self) -> (r: u64)
        ensures
            r == self.last_frame,
    {
        self.last_frame
    }

    pub fn is_degraded(&self) -> (r: bool)
        ensures
            r == self.degraded,
    {
        self.degraded
    }

    pub fn last_update_ms(&self) -> (r: u64)
        ensures
            r == self.last_update_ms,
    {
        self.last_update_ms
    }

    /// Notes the start of speech, once; a start within the first millisecond
    /// counts as one millisecond.
    pub fn mark_speech_detected(&mut self, elapsed_ns: u64)
        ensures
            *final(self) == with_speech(*old(self), elapsed_ns),
    {
        if self.speech_started_ms == 0 {
            let ms = config::duration_to_ms(elapsed_ns);
            self.speech_started_ms = if ms == 0 {
                1
            } else {
                ms
            };
        }
    }

    pub fn speech_started_ms(&self) -> (r: u64)
        ensures
            r == self.speech_started_ms,
    {
        self.speech_started_ms
    }

    pub fn has_speech_started(&self) -> (r: bool)
        ensures
            r == (self.speech_started_ms != 0),
    {
        self.speech_started_ms != 0
    }

    pub fn is_speech_active(&self) -> (r: bool)
        ensures
            r == self.speech_active,
    {
        self.speech_active
    }
}

/// Something that changes the progress of the local engine.
pub enum ProgressEvent {
    Success { frame_index: u64, elapsed_ns: u64 },
    Degraded { elapsed_ns: u64 },
    Energy { elapsed_ns: u64, energy: FrameEnergy },
}

pub open spec fn progressed(p: LocalProgress, event: ProgressEvent) -> LocalProgress {
    match event {
        ProgressEvent::Success { frame_index, elapsed_ns } => with_success(
            p,
            frame_index,
            elapsed_ns,
        ),
        ProgressEvent::Degraded { elapsed_ns } => with_degraded(p, elapsed_ns),
        ProgressEvent::Energy { elapsed_ns, energy } => with_energy(p, elapsed_ns, energy),
    }
}

/// `p` after all of `events`, in order.
pub open spec fn progressed_all(p: LocalProgress, events: Seq<ProgressEvent>) -> LocalProgress
    decreases events.len(),
{
    if events.len() == 0 {
        p
    } else {
        progressed(progressed_all(p, events.drop_last()), events.last())
    }
}

/// Whatever happens, the latest delivered frame never goes back, and a start of
/// speech, once noted, stays as it is.
pub proof fn law_progress_is_monotone(p: LocalProgress, events: Seq<ProgressEvent>)
    ensures
        progressed_all(p, events).last_frame >= p.last_frame,
        p.speech_started_ms != 0 ==> progressed_all(p, events).speech_started_ms
            == p.speech_started_ms,
        forall|i: int|
            0 <= i < events.len() ==> ((#[trigger] events[i]) matches ProgressEvent::Success {
                frame_index,
                ..
            } ==> progressed_all(p, events).last_frame >= frame_index
                && progressed_all(p, events).speech_started_ms != 0),
    decreases events.len(),
{
    if events.len() > 0 {
        law_progress_is_monotone(p, events.drop_last());
        assert forall|i: int| 0 <= i < events.len() implies ((
        #[trigger] events[i]) matches ProgressEvent::Success { frame_index, .. } ==> progressed_all(
            p,
            events,
        ).last_frame >= frame_index && progressed_all(p, events).speech_started_ms != 0) by {
            if i < events.len() - 1 {
                assert(events.drop_last()[i] == events[i]);
            }
        }
    }
}

/// Only the delivery of a newer frame ends a degradation.
pub proof fn law_degradation_ends_with_a_newer_frame(p: LocalProgress, event: ProgressEvent)
    requires
        p.degraded,
        !progressed(p, event).degraded,
    ensures
        event matches ProgressEvent::Success { frame_index, .. } && frame_index > p.last_frame,
{
}

/// What is known of the local engine after something happened to it: a newer
/// frame is the latest and ends a degradation, an older one changes neither, a
/// degradation touches no frame, and only loud and quiet frames tell whether
/// someone speaks. The start of speech is the time of the first sign of it, at
/// least one millisecond.
pub proof fn law_each_event_leaves_its_mark(p: LocalProgress, frame_index: u64, elapsed_ns: u64)
    ensures
        ({
            let ms = elapsed_ns / 1_000_000;
            let after = progressed(p, ProgressEvent::Success { frame_index, elapsed_ns });
            let worse = progressed(p, ProgressEvent::Degraded { elapsed_ns });
            let loud = progressed(
                p,
                ProgressEvent::Energy { elapsed_ns, energy: FrameEnergy::Speech },
            );
            let quiet = progressed(
                p,
                ProgressEvent::Energy { elapsed_ns, energy: FrameEnergy::Silence },
            );
            let between = progressed(
                p,
                ProgressEvent::Energy { elapsed_ns, energy: FrameEnergy::Between },
            );
            &&& frame_index > p.last_frame ==> after.last_frame == frame_index && !after.degraded
                && after.last_update_ms == ms
            &&& frame_index <= p.last_frame ==> after.last_frame == p.last_frame && after.degraded
                == p.degraded && after.last_update_ms == p.last_update_ms
            &&& after.speech_active == p.speech_active
            &&& worse.degraded && worse.last_update_ms == ms && worse.last_frame == p.last_frame
            &&& worse.speech_active == p.speech_active && worse.speech_started_ms
                == p.speech_started_ms
            &&& loud.speech_active && !quiet.speech_active && between == p
            &&& quiet.speech_started_ms == p.speech_started_ms
            &&& loud.last_frame == p.last_frame && quiet.last_frame == p.last_frame
            &&& loud.degraded == p.degraded && quiet.degraded == p.degraded
            &&& loud.last_update_ms == p.last_update_ms && quiet.last_update_ms == p.last_update_ms
            &&& p.speech_started_ms == 0 && ms > 0 ==> loud.speech_started_ms == ms
                && after.speech_started_ms == ms
            &&& p.speech_started_ms == 0 && ms == 0 ==> loud.speech_started_ms == 1
                && after.speech_started_ms == 1
            &&& p.speech_started_ms > 0 ==> loud.speech_started_ms == p.speech_started_ms
                && after.speech_started_ms == p.speech_started_ms
        }),
{
}

} // verus!
