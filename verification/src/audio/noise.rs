//! Rolling noise and silence detection.
//!
//! The caller measures: it works out the level of the baseline samples and of
//! each analysis window, and says whether a window is loud (at least 15 dB above
//! the baseline) or quiet (at least 10 dB below it). What follows from that is
//! decided here.
use vstd::prelude::*;

use crate::audio::frames;
use crate::audio::frames::AudioCaptureStage;

verus! {

/// How far above the baseline a window is loud, in dB.
pub const NOISE_THRESHOLD_OFFSET_DB: u32 = 15;

/// How far below the baseline a window is quiet, in dB.
pub const SILENCE_THRESHOLD_OFFSET_DB: u32 = 10;

/// The length of a silence countdown.
pub const SILENCE_COUNTDOWN_MS: u32 = 5_000;

/// The length of an analysis window.
pub const WINDOW_MS: u32 = 100;

/// Loud windows in a row that make a noise spike.
pub const SPIKE_WINDOWS: u64 = 3;

/// Windows after a warning during which there is no other.
pub const COOLDOWN_WINDOWS: u64 = 20;

/// Event emitted by the [`NoiseDetector`] to describe changes in the
/// environment noise conditions.
#[derive(Debug, Clone)]
pub enum NoiseEvent<L> {
    /// Baseline ambient noise level has been established. Levels are expressed
    /// in dBFS (decibels relative to full scale).
    BaselineEstablished { level_db: L },
    /// A persistent noise spike has been detected that exceeds the baseline by
    /// at least the configured threshold.
    NoiseWarning(NoiseWarningPayload<L>),
    /// Silence has persisted and a countdown toward auto-stop is underway.
    SilenceCountdown(SilenceCountdownPayload),
}

/// Structured payload describing a detected noise warning.
#[derive(Debug, Clone)]
pub struct NoiseWarningPayload<L> {
    pub baseline_db: L,
    pub threshold_db: L,
    pub window_db: L,
    pub persistence_ms: u32,
}

/// Enumerates the state transitions of a silence countdown timer.
#[derive(Debug, Clone, Copy, PartialEq, Eq, Structural)]
pub enum SilenceCountdownStatus {
    Started,
    Tick,
    Canceled,
    Completed,
}

/// Structured payload describing the progress of a silence countdown timer.
#[derive(Debug, Clone, Copy, PartialEq, Eq, Structural)]
pub struct SilenceCountdownPayload {
    pub total_ms: u32,
    pub remaining_ms: u32,
    pub status: SilenceCountdownStatus,
}

#[derive(Debug, Clone, Copy, PartialEq, Eq, Structural)]
pub enum BaselineState {
    Idle,
    Sampling,
    Locked,
}

/// The memory of the spike detection.
#[derive(Debug, Clone, Copy, PartialEq, Eq, Structural)]
pub struct SpikeState {
    /// Loud windows in a row, up to the present one.
    pub over_threshold_windows: u64,
    /// Whether the present spike has been reported.
    pub spike_active: bool,
    /// Windows until another warning is allowed.
    pub cooldown_windows: u64,
}

/// The memory of the silence countdown.
#[derive(Debug, Clone, Copy, PartialEq, Eq, Structural)]
pub struct SilenceState {
    /// Quiet windows in a row, up to the present one.
    pub windows: u64,
    /// Whether a countdown runs.
    pub active: bool,
    /// Whether the countdown ran out.
    pub completed: bool,
}

/// No spike, no cooldown.
pub open spec fn calm() -> SpikeState {
    SpikeState { over_threshold_windows: 0, spike_active: false, cooldown_windows: 0 }
}

/// No countdown.
pub open spec fn no_silence() -> SilenceState {
    SilenceState { windows: 0, active: false, completed: false }
}

/// A countdown runs once a quiet window was seen, until it is completed.
pub open spec fn silence_ok(s: SilenceState) -> bool {
    &&& s.active <==> s.windows > 0 && !s.completed
    &&& s.completed ==> s.windows > 0
}

/// One more than `n`, as far as that can be counted.
pub open spec fn counted(n: u64) -> u64 {
    if n < u64::MAX {
        (n + 1) as u64
    } else {
        n
    }
}

/// The loud windows in a row, with one more window seen.
pub open spec fn loud_run(s: SpikeState, loud: bool) -> u64 {
    if loud {
        counted(s.over_threshold_windows)
    } else {
        0
    }
}

/// The cooldown that is left, with one more window seen.
pub open spec fn cooled(s: SpikeState) -> u64 {
    if s.cooldown_windows > 0 {
        (s.cooldown_windows - 1) as u64
    } else {
        0
    }
}

/// Whether a window makes a warning due: it is the third loud one in a row or a
/// later one, the spike is not reported yet, and the last warning is long ago.
pub open spec fn spike_warns(s: SpikeState, loud: bool) -> bool {
    loud && loud_run(s, loud) >= SPIKE_WINDOWS && !s.spike_active && cooled(s) == 0
}

/// The spike detection after a window.
pub open spec fn spike_after(s: SpikeState, loud: bool) -> SpikeState {
    SpikeState {
        over_threshold_windows: loud_run(s, loud),
        spike_active: spike_warns(s, loud) || (loud && s.spike_active),
        cooldown_windows: if spike_warns(s, loud) {
            COOLDOWN_WINDOWS
        } else {
            cooled(s)
        },
    }
}

/// The spike detection after several windows.
pub open spec fn spike_after_all(s: SpikeState, louds: Seq<bool>) -> SpikeState
    decreases louds.len(),
{
    if louds.len() == 0 {
        s
    } else {
        spike_after(spike_after_all(s, louds.drop_last()), louds.last())
    }
}

/// Whether window `i` of `louds` brings a warning.
pub open spec fn warns_at(s: SpikeState, louds: Seq<bool>, i: int) -> bool {
    0 <= i < louds.len() && spike_warns(spike_after_all(s, louds.take(i)), louds[i])
}

/// The time left on a countdown after `windows` quiet windows. It stops counting
/// at `limit` windows.
pub open spec fn remaining_after(windows: u64, limit: u64) -> u32 {
    let seen = if windows <= limit {
        windows
    } else {
        limit
    };
    if seen >= 50 {
        0
    } else {
        (5_000 - 100 * seen) as u32
    }
}

/// The countdown after a window.
pub open spec fn silence_after(s: SilenceState, limit: u64, quiet: bool) -> SilenceState {
    if quiet {
        if s.completed {
            s
        } else if counted(s.windows) != 1 && remaining_after(counted(s.windows), limit) == 0 {
            SilenceState { windows: limit, active: false, completed: true }
        } else {
            SilenceState { windows: counted(s.windows), active: true, completed: false }
        }
    } else if s.windows > 0 || s.active {
        no_silence()
    } else {
        s
    }
}

/// The countdown news that a window brings.
pub open spec fn silence_event(s: SilenceState, limit: u64, quiet: bool) -> Option<
    SilenceCountdownPayload,
> {
    if quiet {
        if s.completed {
            None
        } else {
            let remaining = remaining_after(counted(s.windows), limit);
            Some(
                SilenceCountdownPayload {
                    total_ms: SILENCE_COUNTDOWN_MS,
                    remaining_ms: remaining,
                    status: if counted(s.windows) == 1 {
                        SilenceCountdownStatus::Started
                    } else if remaining == 0 {
                        SilenceCountdownStatus::Completed
                    } else {
                        SilenceCountdownStatus::Tick
                    },
                },
            )
        }
    } else if (s.windows > 0 || s.active) && !s.completed {
        Some(
            SilenceCountdownPayload {
                total_ms: SILENCE_COUNTDOWN_MS,
                remaining_ms: SILENCE_COUNTDOWN_MS,
                status: SilenceCountdownStatus::Canceled,
            },
        )
    } else {
        None
    }
}

/// The countdown after `n` quiet windows in a row.
pub open spec fn silence_after_quiet(s: SilenceState, limit: u64, n: nat) -> SilenceState
    decreases n,
{
    if n == 0 {
        s
    } else {
        silence_after(silence_after_quiet(s, limit, (n - 1) as nat), limit, true)
    }
}

/// The windows in a full countdown.
pub open spec fn countdown_windows(sample_rate: u32) -> int {
    let n = frames::samples_in(5_000, sample_rate) / frames::samples_in(100, sample_rate);
    if n >= 1 {
        n
    } else {
        1
    }
}

proof fn lemma_take_last(louds: Seq<bool>, i: int)
    requires
        0 <= i < louds.len(),
    ensures
        louds.take(i + 1).drop_last() == louds.take(i),
        louds.take(i + 1).last() == louds[i],
{
    assert(louds.take(i + 1).drop_last() =~= louds.take(i));
}

/// The run counter counts the loud windows at the end.
proof fn lemma_run_is_loud(s: SpikeState, louds: Seq<bool>, k: int)
    requires
        s.over_threshold_windows == 0,
        0 <= k < spike_after_all(s, louds).over_threshold_windows,
    ensures
        k < louds.len(),
        louds[louds.len() - 1 - k],
    decreases louds.len(),
{
    if louds.len() > 0 && k > 0 {
        let before = louds.drop_last();
        lemma_run_is_loud(s, before, k - 1);
        assert(before[before.len() - 1 - (k - 1)] == louds[louds.len() - 1 - k]);
    }
}

/// A warning needs three loud windows in a row.
pub proof fn law_warning_needs_three_loud_windows(s: SpikeState, louds: Seq<bool>, i: int)
    requires
        s.over_threshold_windows == 0,
        warns_at(s, louds, i),
    ensures
        i >= 2,
        louds[i] && louds[i - 1] && louds[i - 2],
{
    let before = louds.take(i);
    let run = spike_after_all(s, before).over_threshold_windows;
    assert(run >= 2);
    lemma_run_is_loud(s, before, 0);
    lemma_run_is_loud(s, before, 1);
}

proof fn lemma_cooldown_left(s: SpikeState, louds: Seq<bool>, i: int, j: int)
    requires
        warns_at(s, louds, i),
        i < j <= louds.len(),
        j - i <= 20,
    ensures
        spike_after_all(s, louds.take(j)).cooldown_windows >= 21 - (j - i),
    decreases j,
{
    lemma_take_last(louds, j - 1);
    if j > i + 1 {
        lemma_cooldown_left(s, louds, i, j - 1);
    }
}

/// Two warnings are at least twenty windows apart.
pub proof fn law_warnings_keep_their_distance(s: SpikeState, louds: Seq<bool>, i: int, j: int)
    requires
        warns_at(s, louds, i),
        warns_at(s, louds, j),
        i < j,
    ensures
        j - i >= 20,
{
    if j - i < 20 {
        lemma_cooldown_left(s, louds, i, j);
    }
}

/// A steady silence counts down from the start: the n-th quiet window leaves
/// 100 ms less than the one before, the first starts the countdown, the fiftieth
/// completes it, and after that nothing more is said.
pub proof fn law_silence_counts_down(limit: u64, n: nat)
    requires
        limit >= 50,
        1 <= n,
    ensures
        ({
            let before = silence_after_quiet(no_silence(), limit, (n - 1) as nat);
            let event = silence_event(before, limit, true);
            if n <= 50 {
                event == Some(
                    SilenceCountdownPayload {
                        total_ms: 5_000,
                        remaining_ms: (5_000 - 100 * n) as u32,
                        status: if n == 1 {
                            SilenceCountdownStatus::Started
                        } else if n == 50 {
                            SilenceCountdownStatus::Completed
                        } else {
                            SilenceCountdownStatus::Tick
                        },
                    },
                )
            } else {
                event is None
            }
        }),
        n < 50 ==> silence_after_quiet(no_silence(), limit, n) == (SilenceState {
            windows: n as u64,
            active: true,
            completed: false,
        }),
        n >= 50 ==> silence_after_quiet(no_silence(), limit, n) == (SilenceState {
            windows: limit,
            active: false,
            completed: true,
        }),
    decreases n,
{
    reveal_with_fuel(silence_after_quiet, 2);
    if n > 1 {
        law_silence_counts_down(limit, (n - 1) as nat);
    }
}

/// A sound ends every countdown: a running one is cancelled, and where none runs
/// or it is completed, nothing is said. Either way the next silence starts from
/// the beginning.
pub proof fn law_sound_ends_a_countdown(s: SilenceState, limit: u64)
    requires
        silence_ok(s),
        limit > 0,
    ensures
        silence_after(s, limit, false) == no_silence(),
        silence_event(s, limit, false) == if s.active {
            Some(
                SilenceCountdownPayload {
                    total_ms: 5_000,
                    remaining_ms: 5_000,
                    status: SilenceCountdownStatus::Canceled,
                },
            )
        } else {
            None
        },
        silence_event(silence_after(s, limit, false), limit, true) == Some(
            SilenceCountdownPayload {
                total_ms: 5_000,
                remaining_ms: 4_900,
                status: SilenceCountdownStatus::Started,
            },
        ),
{
}

/// Whether a countdown runs is told by its news alone: it runs from the window
/// that starts it to the one that cancels or completes it.
pub proof fn law_news_tell_whether_a_countdown_runs(s: SilenceState, limit: u64, quiet: bool)
    requires
        silence_ok(s),
        limit > 0,
    ensures
        silence_ok(silence_after(s, limit, quiet)),
        silence_after(s, limit, quiet).active == match silence_event(s, limit, quiet) {
            Some(news) => news.status == SilenceCountdownStatus::Started || news.status
                == SilenceCountdownStatus::Tick,
            None => s.active,
        },
{
}

/// At every sample rate that gives whole windows, a countdown has fifty of them.
pub proof fn law_countdown_takes_five_seconds(sample_rate: u32)
    requires
        sample_rate > 0,
        sample_rate % 10 == 0,
    ensures
        countdown_windows(sample_rate) == 50,
{
    let k = sample_rate as int / 10;
    assert(5_000 * sample_rate == 50_000 * k);
    assert(100 * sample_rate == 1_000 * k);
    frames::lemma_samples_are_exact(5_000, sample_rate);
    frames::lemma_samples_are_exact(100, sample_rate);
    assert(frames::samples_in(5_000, sample_rate) == 50 * k);
    assert(frames::samples_in(100, sample_rate) == k);
    vstd::arithmetic::div_mod::lemma_div_multiples_vanish(50, k);
}

/// Which of the samples handed in belong to the baseline.
#[derive(Debug, Clone, Copy, PartialEq, Eq, Structural)]
pub struct BaselineShare {
    /// How many samples from the start of the block.
    pub take: usize,
    /// Whether the baseline is complete with them: its level is to be worked
    /// out and locked.
    pub complete: bool,
}

/// Rolling noise and silence detector.
pub struct NoiseDetector<S, L> {
    stage: AudioCaptureStage,
    baseline_state: BaselineState,
    baseline_db: Option<L>,
    fallback_samples: u64,
    sampling_remaining: u64,
    analysis_window_samples: u64,
    analysis_pending: Vec<S>,
    spikes: SpikeState,
    silence_countdown_windows: u64,
    silence: SilenceState,
}

/// What a detector holds.
pub struct DetectorState<S, L> {
    pub stage: AudioCaptureStage,
    pub baseline_state: BaselineState,
    pub baseline_db: Option<L>,
    /// Samples in a baseline.
    pub fallback: nat,
    /// Samples that the baseline still lacks.
    pub remaining: nat,
    /// Samples in an analysis window.
    pub window: nat,
    /// Samples that wait for analysis.
    pub pending: Seq<S>,
    pub spikes: SpikeState,
    /// Windows in a full countdown.
    pub limit: u64,
    pub silence: SilenceState,
}

impl<S, L> View for NoiseDetector<S, L> {
    type V = DetectorState<S, L>;

    closed spec fn view(&self) -> DetectorState<S, L> {
        DetectorState {
            stage: self.stage,
            baseline_state: self.baseline_state,
            baseline_db: self.baseline_db,
            fallback: self.fallback_samples as nat,
            remaining: self.sampling_remaining as nat,
            window: self.analysis_window_samples as nat,
            pending: self.analysis_pending@,
            spikes: self.spikes,
            limit: self.silence_countdown_windows,
            silence: self.silence,
        }
    }
}

/// The invariant of a detector.
pub open spec fn detector_ok<S, L>(d: DetectorState<S, L>) -> bool {
    &&& d.window > 0
    &&& d.limit > 0
    &&& d.spikes.cooldown_windows <= COOLDOWN_WINDOWS
    &&& d.spikes.spike_active || (d.spikes.cooldown_windows == 0 && d.spikes.over_threshold_windows
        <= 2) || (d.spikes.cooldown_windows > 0 && d.spikes.over_threshold_windows
        + d.spikes.cooldown_windows <= COOLDOWN_WINDOWS)
    &&& d.baseline_state == BaselineState::Locked <==> d.baseline_db is Some
    &&& silence_ok(d.silence)
}

/// `d` with the windows forgotten.
pub open spec fn windows_cleared<S, L>(d: DetectorState<S, L>) -> DetectorState<S, L> {
    DetectorState { pending: Seq::empty(), spikes: calm(), silence: no_silence(), ..d }
}

/// The part of a block of `n` samples that goes to the baseline.
pub open spec fn baseline_share<S, L>(
    d: DetectorState<S, L>,
    n: nat,
    stage: AudioCaptureStage,
) -> nat {
    if d.baseline_state != BaselineState::Sampling || stage == AudioCaptureStage::Idle {
        0
    } else if n <= d.remaining {
        n
    } else {
        d.remaining
    }
}

/// Whether a block of `n` samples completes the baseline.
pub open spec fn baseline_completes<S, L>(
    d: DetectorState<S, L>,
    n: nat,
    stage: AudioCaptureStage,
) -> bool {
    &&& stage != AudioCaptureStage::Idle
    &&& d.baseline_state == BaselineState::Sampling
    &&& 0 < d.remaining <= n
}

/// `d` after a block of samples was handed in. While recording, the block is
/// analysed once there is a baseline, even one that the block itself completes.
pub open spec fn fed<S, L>(
    d: DetectorState<S, L>,
    samples: Seq<S>,
    stage: AudioCaptureStage,
) -> DetectorState<S, L> {
    if samples.len() == 0 {
        d
    } else {
        DetectorState {
            stage,
            remaining: (d.remaining - baseline_share(d, samples.len(), stage)) as nat,
            pending: if stage == AudioCaptureStage::Recording && (d.baseline_state
                == BaselineState::Locked || baseline_completes(d, samples.len(), stage)) {
                d.pending + samples
            } else {
                d.pending
            },
            ..d
        }
    }
}

impl<S: Copy, L: Copy> NoiseDetector<S, L> {
    /// A detector for samples of the given rate.
    pub fn new(sample_rate: u32) -> (r: Self)
        ensures
            detector_ok(r@),
            r@ == (DetectorState::<S, L> {
                stage: AudioCaptureStage::Idle,
                baseline_state: BaselineState::Idle,
                baseline_db: None,
                fallback: frames::samples_in(500, sample_rate) as nat,
                remaining: frames::samples_in(500, sample_rate) as nat,
                window: frames::samples_in(100, sample_rate) as nat,
                pending: Seq::empty(),
                spikes: calm(),
                limit: countdown_windows(sample_rate) as u64,
                silence: no_silence(),
            }),
            countdown_windows(sample_rate) <= u64::MAX,
    {
        let fallback_samples = frames::duration_to_samples(500, sample_rate);
        let analysis_window_samples = frames::duration_to_samples(100, sample_rate);
        let total = frames::duration_to_samples(5_000, sample_rate);
        let windows: u64 = total / analysis_window_samples;
        proof {
            vstd::arithmetic::div_mod::lemma_div_is_ordered_by_denominator(
                total as int,
                1,
                analysis_window_samples as int,
            );
        }
        let silence_countdown_windows: u64 = if windows >= 1 {
            windows
        } else {
            1
        };
        NoiseDetector {
            stage: AudioCaptureStage::Idle,
            baseline_state: BaselineState::Idle,
            baseline_db: None,
            fallback_samples,
            sampling_remaining: fallback_samples,
            analysis_window_samples,
            analysis_pending: Vec::new(),
            spikes: SpikeState {
                over_threshold_windows: 0,
                spike_active: false,
                cooldown_windows: 0,
            },
            silence_countdown_windows,
            silence: SilenceState { windows: 0, active: false, completed: false },
        }
    }

    fn clear_windows(&mut self)
        ensures
            final(self)@ == windows_cleared(old(self)@),
    {
        self.analysis_pending = Vec::new();
        assert(self.analysis_pending@ =~= Seq::<S>::empty());
        self.spikes = SpikeState {
            over_threshold_windows: 0,
            spike_active: false,
            cooldown_windows: 0,
        };
        self.silence = SilenceState { windows: 0, active: false, completed: false };
    }

    /// Forgets everything but the sample rate.
    pub fn reset(&mut self)
        requires
            detector_ok(old(self)@),
        ensures
            detector_ok(final(self)@),
            final(self)@ == (DetectorState {
                stage: AudioCaptureStage::Idle,
                baseline_state: BaselineState::Idle,
                baseline_db: None,
                remaining: old(self)@.fallback,
                ..windows_cleared(old(self)@)
            }),
    {
        self.clear_windows();
        self.stage = AudioCaptureStage::Idle;
        self.baseline_state = BaselineState::Idle;
        self.baseline_db = None;
        self.sampling_remaining = self.fallback_samples;
    }

    /// Starts listening before a recording. A known baseline is taken over;
    /// without one, it is sampled.
    pub fn enter_preroll(&mut self, baseline_db: Option<L>) -> (events: Vec<NoiseEvent<L>>)
        requires
            detector_ok(old(self)@),
        ensures
            detector_ok(final(self)@),
            final(self)@ == (DetectorState {
                stage: AudioCaptureStage::PreRoll,
                baseline_state: if baseline_db is Some {
                    BaselineState::Locked
                } else {
                    BaselineState::Sampling
                },
                baseline_db,
                remaining: old(self)@.fallback,
                ..windows_cleared(old(self)@)
            }),
            events@ == match baseline_db {
                Some(level_db) => seq![NoiseEvent::BaselineEstablished { level_db }],
                None => Seq::<NoiseEvent<L>>::empty(),
            },
    {
        self.clear_windows();
        self.stage = AudioCaptureStage::PreRoll;
        self.sampling_remaining = self.fallback_samples;
        self.baseline_db = baseline_db;
        let mut events: Vec<NoiseEvent<L>> = Vec::new();
        match baseline_db {
            Some(level) => {
                self.baseline_state = BaselineState::Locked;
                events.push(NoiseEvent::BaselineEstablished { level_db: level });
            },
            None => {
                self.baseline_state = BaselineState::Sampling;
            },
        }
        events
    }

    /// Starts a recording. The baseline stays.
    pub fn enter_recording(&mut self)
        requires
            detector_ok(old(self)@),
        ensures
            detector_ok(final(self)@),
            final(self)@ == (DetectorState {
                stage: AudioCaptureStage::Recording,
                ..windows_cleared(old(self)@)
            }),
    {
        self.clear_windows();
        self.stage = AudioCaptureStage::Recording;
    }

    /// Takes a block of samples in, and says which of them belong to the
    /// baseline.
    pub fn ingest(&mut self, samples: &[S], stage: AudioCaptureStage) -> (share: BaselineShare)
        requires
            detector_ok(old(self)@),
        ensures
            detector_ok(final(self)@),
            final(self)@ == fed(old(self)@, samples@, stage),
            share.take == baseline_share(old(self)@, samples@.len(), stage),
            share.complete == baseline_completes(old(self)@, samples@.len(), stage),
    {
        if samples.len() == 0 {
            return BaselineShare { take: 0, complete: false };
        }
        self.stage = stage;
        let mut take: usize = 0;
        let mut complete = false;
        if stage != AudioCaptureStage::Idle && self.baseline_state == BaselineState::Sampling {
            if samples.len() as u64 <= self.sampling_remaining {
                take = samples.len();
            } else {
                take = self.sampling_remaining as usize;
            }
            complete = self.sampling_remaining > 0 && take as u64 == self.sampling_remaining;
            self.sampling_remaining = self.sampling_remaining - take as u64;
        }
        if stage == AudioCaptureStage::Recording && (self.baseline_state == BaselineState::Locked
            || complete) {
            let ghost before = self.analysis_pending@;
            let ghost rest = self@;
            let mut i: usize = 0;
            while i < samples.len()
                invariant
                    i <= samples@.len(),
                    self.analysis_pending@ == before + samples@.take(i as int),
                    self@ == (DetectorState {
                        pending: before + samples@.take(i as int),
                        ..rest
                    }),
                decreases samples.len() - i,
            {
                self.analysis_pending.push(samples[i]);
                i += 1;
                assert(self.analysis_pending@ =~= before + samples@.take(i as int));
            }
            assert(before + samples@.take(i as int) =~= before + samples@);
        }
        BaselineShare { take, complete }
    }

    /// Locks the baseline at the level of its samples.
    pub fn lock_baseline(&mut self, level_db: L) -> (events: Vec<NoiseEvent<L>>)
        requires
            detector_ok(old(self)@),
        ensures
            detector_ok(final(self)@),
            final(self)@ == (DetectorState {
                baseline_state: BaselineState::Locked,
                baseline_db: Some(level_db),
                ..old(self)@
            }),
            events@ == seq![NoiseEvent::BaselineEstablished { level_db }],
    {
        self.baseline_state = BaselineState::Locked;
        self.baseline_db = Some(level_db);
        let mut events: Vec<NoiseEvent<L>> = Vec::new();
        events.push(NoiseEvent::BaselineEstablished { level_db });
        events
    }

    /// Takes the next full analysis window off the waiting samples.
    pub fn next_window(&mut self) -> (r: Option<Vec<S>>)
        requires
            detector_ok(old(self)@),
        ensures
            detector_ok(final(self)@),
            r is Some <==> old(self)@.baseline_db is Some && old(self)@.pending.len() >= old(
                self,
            )@.window,
            match r {
                Some(w) => {
                    &&& w@ == old(self)@.pending.take(old(self)@.window as int)
                    &&& final(self)@ == (DetectorState {
                        pending: old(self)@.pending.skip(old(self)@.window as int),
                        ..old(self)@
                    })
                },
                None => final(self)@ == old(self)@,
            },
    {
        if self.baseline_db.is_none() || (self.analysis_pending.len() as u64)
            < self.analysis_window_samples {
            return None;
        }
        let ghost before = self.analysis_pending@;
        let n = self.analysis_window_samples as usize;
        let rest = self.analysis_pending.split_off(n);
        let mut window: Vec<S> = Vec::new();
        std::mem::swap(&mut window, &mut self.analysis_pending);
        self.analysis_pending = rest;
        assert(window@ =~= before.take(n as int));
        assert(self.analysis_pending@ =~= before.skip(n as int));
        Some(window)
    }

    /// A window was measured: what news does it bring?
    pub fn observe_window(&mut self, window_db: L, threshold_db: L, loud: bool, quiet: bool) -> (events:
        Vec<NoiseEvent<L>>)
        requires
            detector_ok(old(self)@),
            old(self)@.baseline_db is Some,
        ensures
            detector_ok(final(self)@),
            final(self)@ == (DetectorState {
                spikes: spike_after(old(self)@.spikes, loud),
                silence: silence_after(old(self)@.silence, old(self)@.limit, quiet),
                ..old(self)@
            }),
            events@ == (if spike_warns(old(self)@.spikes, loud) {
                seq![
                    NoiseEvent::NoiseWarning(
                        NoiseWarningPayload {
                            baseline_db: old(self)@.baseline_db->0,
                            threshold_db,
                            window_db,
                            persistence_ms: (loud_run(old(self)@.spikes, loud) * 100) as u32,
                        },
                    ),
                ]
            } else {
                Seq::<NoiseEvent<L>>::empty()
            }) + match silence_event(old(self)@.silence, old(self)@.limit, quiet) {
                Some(payload) => seq![NoiseEvent::SilenceCountdown(payload)],
                None => Seq::<NoiseEvent<L>>::empty(),
            },
            spike_warns(old(self)@.spikes, loud) ==> loud_run(old(self)@.spikes, loud) <= 20,
    {
        let mut events: Vec<NoiseEvent<L>> = Vec::new();
        let ghost before = self.spikes;
        if self.spikes.cooldown_windows > 0 {
            self.spikes.cooldown_windows = self.spikes.cooldown_windows - 1;
        }
        if loud {
            self.spikes.over_threshold_windows =
            self.spikes.over_threshold_windows.saturating_add(1);
        } else {
            self.spikes.over_threshold_windows = 0;
            self.spikes.spike_active = false;
        }
        if self.spikes.over_threshold_windows >= SPIKE_WINDOWS && !self.spikes.spike_active
            && self.spikes.cooldown_windows == 0 {
            self.spikes.spike_active = true;
            self.spikes.cooldown_windows = COOLDOWN_WINDOWS;
            if let Some(baseline_db) = self.baseline_db {
                events.push(
                    NoiseEvent::NoiseWarning(
                        NoiseWarningPayload {
                            baseline_db,
                            threshold_db,
                            window_db,
                            persistence_ms: (self.spikes.over_threshold_windows as u32) * 100,
                        },
                    ),
                );
            }
        }
        let ghost warnings = events@;
        match self.evaluate_silence(quiet) {
            Some(payload) => {
                events.push(NoiseEvent::SilenceCountdown(payload));
                assert(events@ =~= warnings + seq![NoiseEvent::SilenceCountdown(payload)]);
            },
            None => {
                assert(events@ =~= warnings + Seq::<NoiseEvent<L>>::empty());
            },
        }
        events
    }

    /// Moves the silence countdown on by one window.
    pub fn evaluate_silence(&mut self, quiet: bool) -> (r: Option<SilenceCountdownPayload>)
        requires
            old(self)@.limit > 0,
        ensures
            detector_ok(old(self)@) ==> detector_ok(final(self)@),
            r == silence_event(old(self)@.silence, old(self)@.limit, quiet),
            final(self)@ == (DetectorState {
                silence: silence_after(old(self)@.silence, old(self)@.limit, quiet),
                ..old(self)@
            }),
    {
        if quiet {
            if self.silence.completed {
                return None;
            }
            self.silence.windows = self.silence.windows.saturating_add(1);
            let limit = self.silence_countdown_windows;
            let seen: u64 = if self.silence.windows <= limit {
                self.silence.windows
            } else {
                limit
            };
            let remaining_ms: u32 = if seen >= 50 {
                0
            } else {
                SILENCE_COUNTDOWN_MS - (seen as u32) * WINDOW_MS
            };
            let status = if self.silence.windows == 1 {
                SilenceCountdownStatus::Started
            } else if remaining_ms == 0 {
                SilenceCountdownStatus::Completed
            } else {
                SilenceCountdownStatus::Tick
            };
            self.silence.active = true;
            if status == SilenceCountdownStatus::Completed {
                self.silence.completed = true;
                self.silence.active = false;
                self.silence.windows = limit;
            }
            return Some(
                SilenceCountdownPayload { total_ms: SILENCE_COUNTDOWN_MS, remaining_ms, status },
            );
        }
        if self.silence.windows > 0 || self.silence.active {
            let news = if self.silence.completed {
                None
            } else {
                Some(
                    SilenceCountdownPayload {
                        total_ms: SILENCE_COUNTDOWN_MS,
                        remaining_ms: SILENCE_COUNTDOWN_MS,
                        status: SilenceCountdownStatus::Canceled,
                    },
                )
            };
            self.silence = SilenceState { windows: 0, active: false, completed: false };
            return news;
        }
        None
    }

    /// The baseline level, once there is one.
    pub fn baseline_db(&self) -> (r: Option<L>)
        ensures
            r == self@.baseline_db,
    {
        self.baseline_db
    }
}

/// Noise that persists is warned of: a loud window warns exactly when two loud
/// ones came before it, the noise was not warned of yet and the last warning is
/// far enough back. One noise is warned of once, and a window that is not loud
/// ends it.
pub proof fn law_persistent_noise_is_warned_of(s: SpikeState)
    requires
        s.over_threshold_windows < u64::MAX,
    ensures
        spike_warns(s, true) <==> s.over_threshold_windows >= 2 && !s.spike_active
            && s.cooldown_windows <= 1,
        !spike_warns(s, false),
        spike_warns(s, true) ==> spike_after(s, true).cooldown_windows == 20 && spike_after(
            s,
            true,
        ).spike_active,
        spike_after(s, true).over_threshold_windows == s.over_threshold_windows + 1,
        spike_after(s, false).over_threshold_windows == 0,
        !spike_after(s, false).spike_active,
        s.spike_active ==> spike_after(s, true).spike_active && !spike_warns(s, true),
        !spike_warns(s, true) ==> spike_after(s, true).cooldown_windows == if s.cooldown_windows > 0 {
            (s.cooldown_windows - 1) as u64
        } else {
            0
        },
        spike_after(s, false).cooldown_windows == if s.cooldown_windows > 0 {
            (s.cooldown_windows - 1) as u64
        } else {
            0
        },
{
}

/// Three loud windows after calm ones bring exactly one warning, at the third,
/// however long the noise lasts.
pub proof fn law_three_loud_windows_warn_once(n: nat)
    requires
        3 <= n < u64::MAX,
    ensures
        ({
            let louds = Seq::new(n, |i: int| true);
            forall|i: int| 0 <= i < n ==> (#[trigger] warns_at(calm(), louds, i) <==> i == 2)
        }),
{
    let louds = Seq::new(n, |i: int| true);
    assert forall|i: int| 0 <= i < n implies (#[trigger] warns_at(calm(), louds, i) <==> i == 2) by {
        lemma_loud_from_calm(louds, i);
    }
}

proof fn lemma_loud_from_calm(louds: Seq<bool>, i: int)
    requires
        0 <= i <= louds.len() < u64::MAX,
        forall|j: int| 0 <= j < louds.len() ==> #[trigger] louds[j],
    ensures
        spike_after_all(calm(), louds.take(i)).over_threshold_windows == i,
        spike_after_all(calm(), louds.take(i)).spike_active <==> i >= 3,
        i < 3 ==> spike_after_all(calm(), louds.take(i)).cooldown_windows == 0,
    decreases i,
{
    if i > 0 {
        lemma_take_last(louds, i - 1);
        lemma_loud_from_calm(louds, i - 1);
        assert(louds[i - 1]);
    }
}

/// A baseline is made of the first samples after the detector started to look
/// for one, as many as it takes and no more, and of none once it is known.
pub proof fn law_baseline_takes_the_first_samples<S, L>(
    d: DetectorState<S, L>,
    block: Seq<S>,
    stage: AudioCaptureStage,
)
    ensures
        ({
            let listens = d.baseline_state == BaselineState::Sampling && stage
                != AudioCaptureStage::Idle;
            let share = baseline_share(d, block.len(), stage);
            &&& share <= block.len() && share <= d.remaining
            &&& !listens ==> share == 0
            &&& listens ==> share == block.len() || share == d.remaining
            &&& baseline_completes(d, block.len(), stage) ==> listens && share == d.remaining
                && d.remaining > 0
            &&& listens && d.remaining > 0 && block.len() >= d.remaining ==> baseline_completes(
                d,
                block.len(),
                stage,
            )
            &&& block.len() > 0 ==> fed(d, block, stage).remaining == d.remaining - share
            &&& fed(d, block, stage).baseline_db == d.baseline_db
            &&& fed(d, block, stage).spikes == d.spikes && fed(d, block, stage).silence == d.silence
        }),
        stage == AudioCaptureStage::Recording && d.baseline_state == BaselineState::Locked
            && block.len() > 0 ==> fed(d, block, stage).pending == d.pending + block,
        stage != AudioCaptureStage::Recording ==> fed(d, block, stage).pending == d.pending,
{
}

} // verus!
