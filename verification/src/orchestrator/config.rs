//! Session settings. Durations are given in nanoseconds.
use vstd::prelude::*;

verus! {

#[derive(Debug, Clone, Copy, PartialEq, Eq, Structural)]
pub struct EngineConfig {
    pub prefer_cloud: bool,
}

#[derive(Debug, Clone, Copy, PartialEq, Eq, Structural)]
pub struct RealtimeSessionConfig {
    pub sample_rate_hz: u32,
    pub min_frame_ns: u64,
    pub max_frame_ns: u64,
    pub first_update_deadline_ns: u64,
    pub buffer_capacity: usize,
    pub raw_emit_window_ns: u64,
    pub polish_emit_deadline_ns: u64,
    pub enable_polisher: bool,
}

impl Default for RealtimeSessionConfig {
    /// 16 kHz audio in frames of 100 to 200 ms, a first update within 400 ms.
    fn default() -> (r: Self)
        ensures
            r == (RealtimeSessionConfig {
                sample_rate_hz: 16_000,
                min_frame_ns: 100_000_000,
                max_frame_ns: 200_000_000,
                first_update_deadline_ns: 400_000_000,
                buffer_capacity: 32,
                raw_emit_window_ns: 200_000_000,
                polish_emit_deadline_ns: 2_500_000_000,
                enable_polisher: true,
            }),
    {
        RealtimeSessionConfig {
            sample_rate_hz: 16_000,
            min_frame_ns: 100_000_000,
            max_frame_ns: 200_000_000,
            first_update_deadline_ns: 400_000_000,
            buffer_capacity: 32,
            raw_emit_window_ns: 200_000_000,
            polish_emit_deadline_ns: 2_500_000_000,
            enable_polisher: true,
        }
    }
}

/// How often the local engine has to make progress: once per longest frame, and
/// never more often than once per shortest frame.
pub open spec fn cadence_of(config: RealtimeSessionConfig) -> u64 {
    if config.max_frame_ns > config.min_frame_ns {
        config.max_frame_ns
    } else {
        config.min_frame_ns
    }
}

impl RealtimeSessionConfig {
    /// The interval in which the local engine has to make progress.
    pub fn cadence_ns(&self) -> (r: u64)
        ensures
            r == cadence_of(*self),
    {
        if self.max_frame_ns == 0 {
            self.min_frame_ns
        } else if self.max_frame_ns >= self.min_frame_ns {
            self.max_frame_ns
        } else {
            self.min_frame_ns
        }
    }
}

/// Whole milliseconds of a duration.
pub fn duration_to_ms(ns: u64) -> (r: u64)
    ensures
        r == ns / 1_000_000,
{
    ns / 1_000_000
}

/// Progress is expected once per frame: a frame lasts as long as the longest one
/// may, and never less than the shortest one, which counts alone where no
/// longest one is set.
pub proof fn law_cadence_is_that_of_the_longest_frame(config: RealtimeSessionConfig)
    ensures
        cadence_of(config) >= config.min_frame_ns,
        config.max_frame_ns >= config.min_frame_ns && config.max_frame_ns > 0 ==> cadence_of(config)
            == config.max_frame_ns,
        config.max_frame_ns < config.min_frame_ns || config.max_frame_ns == 0 ==> cadence_of(config)
            == config.min_frame_ns,
{
}

} // verus!
