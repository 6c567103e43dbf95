//! Watching that the local engine keeps up: a first transcript in time after
//! speech starts, and steady progress after that.
use vstd::prelude::*;

use crate::orchestrator::progress::LocalProgress;
use crate::orchestrator::types::{NoticeLevel, TranscriptionUpdate};
use crate::orchestrator::{config, progress, types};

verus! {

/// How often the monitor looks before the first transcript.
pub const FIRST_WINDOW_POLL_NS: u64 = 25_000_000;

/// The memory of the cadence monitor.
#[derive(Debug, Clone, Copy, PartialEq, Eq, Structural)]
pub struct CadenceMonitor {
    /// Whether no transcript has been seen yet.
    pub first_window: bool,
    pub last_seen_frame: u64,
    /// Whether the present delay has been reported.
    pub violation_active: bool,
}

/// The time since speech started; speech starts at a whole millisecond.
pub open spec fn since_speech(p: LocalProgress, elapsed_ns: u64) -> int {
    if elapsed_ns >= p.speech_started_ms * 1_000_000 {
        elapsed_ns - p.speech_started_ms * 1_000_000
    } else {
        0
    }
}

/// The milliseconds since the progress was last updated.
pub open spec fn since_update_ms(p: LocalProgress, elapsed_ns: u64) -> int {
    if elapsed_ns / 1_000_000 >= p.last_update_ms {
        elapsed_ns / 1_000_000 - p.last_update_ms
    } else {
        0
    }
}

/// Whether the first transcript is late.
pub open spec fn first_is_late(p: LocalProgress, elapsed_ns: u64, deadline_ns: u64) -> bool {
    p.last_frame == 0 && p.speech_started_ms != 0 && since_speech(p, elapsed_ns) >= deadline_ns
}

/// Whether a later transcript is late: someone speaks, and the engine has made
/// no progress for a whole cadence.
pub open spec fn next_is_late(
    m: CadenceMonitor,
    p: LocalProgress,
    elapsed_ns: u64,
    cadence_ns: u64,
) -> bool {
    &&& p.last_frame <= m.last_seen_frame
    &&& !p.degraded
    &&& p.speech_active
    &&& since_update_ms(p, elapsed_ns) >= cadence_ns / 1_000_000
}

/// Whether the monitor sees a delay.
pub open spec fn is_late(
    m: CadenceMonitor,
    p: LocalProgress,
    elapsed_ns: u64,
    deadline_ns: u64,
    cadence_ns: u64,
) -> bool {
    if m.first_window {
        first_is_late(p, elapsed_ns, deadline_ns)
    } else {
        next_is_late(m, p, elapsed_ns, cadence_ns)
    }
}

/// Whether the monitor reports a delay: it sees one that it has not reported.
pub open spec fn reports(
    m: CadenceMonitor,
    p: LocalProgress,
    elapsed_ns: u64,
    deadline_ns: u64,
    cadence_ns: u64,
) -> bool {
    is_late(m, p, elapsed_ns, deadline_ns, cadence_ns) && !m.violation_active
}

/// The monitor after it has looked.
pub open spec fn watched(
    m: CadenceMonitor,
    p: LocalProgress,
    elapsed_ns: u64,
    deadline_ns: u64,
    cadence_ns: u64,
) -> CadenceMonitor {
    CadenceMonitor {
        first_window: m.first_window && p.last_frame == 0,
        last_seen_frame: if m.first_window {
            if p.last_frame > 0 {
                p.last_frame
            } else {
                m.last_seen_frame
            }
        } else if p.last_frame > m.last_seen_frame {
            p.last_frame
        } else {
            m.last_seen_frame
        },
        violation_active: if m.first_window && p.last_frame == 0 && p.speech_started_ms == 0 {
            m.violation_active
        } else {
            is_late(m, p, elapsed_ns, deadline_ns, cadence_ns)
        },
    }
}

impl CadenceMonitor {
    pub fn new() -> (r: Self)
        ensures
            r == (CadenceMonitor {
                first_window: true,
                last_seen_frame: 0,
                violation_active: false,
            }),
    {
        CadenceMonitor { first_window: true, last_seen_frame: 0, violation_active: false }
    }

    /// How long to wait before looking again.
    pub fn wait_ns(&self, cadence_ns: u64) -> (r: u64)
        ensures
            r == if self.first_window {
                FIRST_WINDOW_POLL_NS
            } else {
                cadence_ns
            },
    {
        if self.first_window {
            FIRST_WINDOW_POLL_NS
        } else {
            cadence_ns
        }
    }

    /// Looks at the progress. A new delay degrades the local engine and is told
    /// in a notice.
    pub fn observe(
        &mut self,
        progress: &mut LocalProgress,
        elapsed_ns: u64,
        deadline_ns: u64,
        cadence_ns: u64,
    ) -> (r: Option<TranscriptionUpdate>)
        ensures
            *final(self) == watched(
                *old(self),
                *old(progress),
                elapsed_ns,
                deadline_ns,
                cadence_ns,
            ),
            r is Some <==> reports(
                *old(self),
                *old(progress),
                elapsed_ns,
                deadline_ns,
                cadence_ns,
            ),
            *final(progress) == if r is Some {
                progress::with_degraded(*old(progress), elapsed_ns)
            } else {
                *old(progress)
            },
            r matches Some(u) ==> if old(self).first_window {
                types::is_notice(
                    u,
                    NoticeLevel::Warn,
                    "本地解码延迟异常，已保留回退提示"@,
                    since_speech(*old(progress), elapsed_ns) as u64,
                    0,
                )
            } else {
                types::is_notice(
                    u,
                    NoticeLevel::Warn,
                    "本地解码增量延迟，已保留回退提示"@,
                    (since_update_ms(*old(progress), elapsed_ns) * 1_000_000) as u64,
                    old(self).last_seen_frame,
                )
            },
    {
        let current_frame = progress.last_frame();
        if self.first_window {
            if current_frame > 0 {
                self.last_seen_frame = current_frame;
                self.violation_active = false;
                self.first_window = false;
                return None;
            }
            let started_ms = progress.speech_started_ms();
            if started_ms == 0 {
                return None;
            }
            let since = if started_ms <= elapsed_ns / 1_000_000 {
                assert(started_ms * 1_000_000 <= elapsed_ns);
                elapsed_ns - started_ms * 1_000_000
            } else {
                0
            };
            if since >= deadline_ns && !self.violation_active {
                progress.mark_degraded(elapsed_ns);
                self.violation_active = true;
                return Some(
                    types::notice(
                        NoticeLevel::Warn,
                        "本地解码延迟异常，已保留回退提示",
                        since,
                        0,
                    ),
                );
            }
            if since < deadline_ns {
                self.violation_active = false;
            }
            return None;
        }
        if current_frame > self.last_seen_frame {
            self.last_seen_frame = current_frame;
            self.violation_active = false;
            return None;
        }
        if progress.is_degraded() || !progress.is_speech_active() {
            self.violation_active = false;
            return None;
        }
        let elapsed_ms = config::duration_to_ms(elapsed_ns);
        let since_ms = elapsed_ms.saturating_sub(progress.last_update_ms());
        let cadence_ms = config::duration_to_ms(cadence_ns);
        if since_ms >= cadence_ms && !self.violation_active {
            progress.mark_degraded(elapsed_ns);
            self.violation_active = true;
            assert(since_ms * 1_000_000 <= elapsed_ns);
            return Some(
                types::notice(
                    NoticeLevel::Warn,
                    "本地解码增量延迟，已保留回退提示",
                    since_ms * 1_000_000,
                    self.last_seen_frame,
                ),
            );
        }
        if since_ms < cadence_ms {
            self.violation_active = false;
        }
        None
    }
}

/// A delay is reported once: the look that follows one that saw a delay
/// reports nothing, whatever it sees.
pub proof fn law_a_delay_is_reported_once(
    m: CadenceMonitor,
    first: LocalProgress,
    first_ns: u64,
    second: LocalProgress,
    second_ns: u64,
    deadline_ns: u64,
    cadence_ns: u64,
)
    requires
        is_late(m, first, first_ns, deadline_ns, cadence_ns),
    ensures
        !reports(
            watched(m, first, first_ns, deadline_ns, cadence_ns),
            second,
            second_ns,
            deadline_ns,
            cadence_ns,
        ),
{
}

/// A look in the later phase that sees no delay arms the monitor again.
pub proof fn law_a_new_delay_is_reported_again(
    m: CadenceMonitor,
    first: LocalProgress,
    first_ns: u64,
    second: LocalProgress,
    second_ns: u64,
    deadline_ns: u64,
    cadence_ns: u64,
)
    requires
        !m.first_window,
        !is_late(m, first, first_ns, deadline_ns, cadence_ns),
        is_late(
            watched(m, first, first_ns, deadline_ns, cadence_ns),
            second,
            second_ns,
            deadline_ns,
            cadence_ns,
        ),
    ensures
        reports(
            watched(m, first, first_ns, deadline_ns, cadence_ns),
            second,
            second_ns,
            deadline_ns,
            cadence_ns,
        ),
{
}

/// A delay is seen only while something is owed: before the first transcript,
/// once speech has been heard for the whole deadline; after that, while someone
/// speaks to an engine that is not known to lag and has brought nothing new for
/// a whole cadence.
pub proof fn law_delay_is_seen_when_something_is_owed(
    m: CadenceMonitor,
    p: LocalProgress,
    elapsed_ns: u64,
    deadline_ns: u64,
    cadence_ns: u64,
)
    requires
        deadline_ns > 0,
        cadence_ns >= 1_000_000,
    ensures
        m.violation_active ==> !reports(m, p, elapsed_ns, deadline_ns, cadence_ns),
        m.first_window && !m.violation_active ==> (reports(m, p, elapsed_ns, deadline_ns, cadence_ns)
            <==> p.last_frame == 0 && p.speech_started_ms > 0 && elapsed_ns >= p.speech_started_ms
            * 1_000_000 + deadline_ns),
        !m.first_window && !m.violation_active ==> (reports(
            m,
            p,
            elapsed_ns,
            deadline_ns,
            cadence_ns,
        ) <==> p.last_frame <= m.last_seen_frame && !p.degraded && p.speech_active && elapsed_ns
            / 1_000_000 >= p.last_update_ms + cadence_ns / 1_000_000),
{
}

/// The first transcript ends the wait for it for good, and from then on the
/// newest frame that was seen is remembered.
pub proof fn law_monitor_follows_the_frames(
    m: CadenceMonitor,
    p: LocalProgress,
    elapsed_ns: u64,
    deadline_ns: u64,
    cadence_ns: u64,
)
    ensures
        ({
            let after = watched(m, p, elapsed_ns, deadline_ns, cadence_ns);
            &&& p.last_frame > 0 ==> !after.first_window && after.last_seen_frame >= p.last_frame
            &&& !m.first_window ==> !after.first_window && after.last_seen_frame
                >= m.last_seen_frame
            &&& m.first_window && p.last_frame == 0 ==> after.first_window
            &&& !m.first_window && p.last_frame > m.last_seen_frame ==> !after.violation_active
                && after.last_seen_frame == p.last_frame
            &&& m.first_window && p.last_frame > 0 ==> !after.violation_active
                && after.last_seen_frame == p.last_frame
        }),
{
}

} // verus!
