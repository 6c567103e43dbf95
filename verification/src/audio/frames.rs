//! Cutting a stream of samples into frames.
use vstd::arithmetic::div_mod::{lemma_fundamental_div_mod, lemma_mod_bound};
use vstd::prelude::*;

use crate::rounding::{held, hold, lemma_held, DOUBLE};

verus! {

pub const SAMPLE_RATE_HZ: u32 = 16_000;

pub const MIN_FRAME_MS: u64 = 100;

pub const MAX_FRAME_MS: u64 = 200;

pub const WAVEFORM_FRAME_MS: u64 = 32;

/// Which part of a recording the pipeline is in.
#[derive(Clone, Copy, Debug, PartialEq, Eq, Structural)]
pub enum AudioCaptureStage {
    Idle,
    PreRoll,
    Recording,
}

/// Parts of a second in which durations are counted here. Double precision holds
/// every millisecond of the first second as a whole number of them.
pub const TICKS: u128 = 0x4000_0000_0000_0000;

/// A duration in ticks, as it is held in double precision: the seconds and the
/// part of a second are held each for itself, and then their sum is.
pub open spec fn ticks_in(duration_ms: u64) -> int {
    let whole = held((duration_ms / 1000) as int, 1, DOUBLE as int);
    let part = held((duration_ms % 1000) * TICKS, 1000, DOUBLE as int);
    held(whole * TICKS + part, 1, DOUBLE as int)
}

/// The samples of a duration: seconds times rate, in double precision, rounded
/// to the nearest number, halves up; at least one, and no more than can be
/// counted.
pub open spec fn samples_in(duration_ms: u64, sample_rate_hz: u32) -> int {
    let product = held(ticks_in(duration_ms) * sample_rate_hz, 1, DOUBLE as int);
    let n = (product + (TICKS / 2)) / (TICKS as int);
    if n < 1 {
        1
    } else if n > u64::MAX {
        u64::MAX as int
    } else {
        n
    }
}

/// The number of samples in `duration_ms` milliseconds.
pub fn duration_to_samples(duration_ms: u64, sample_rate_hz: u32) -> (r: u64)
    ensures
        r == samples_in(duration_ms, sample_rate_hz),
{
    let seconds: u128 = (duration_ms / 1000) as u128;
    let rest: u128 = (duration_ms % 1000) as u128;
    let whole = hold(seconds, 1, DOUBLE);
    let part = hold(rest * TICKS, 1000, DOUBLE);
    proof {
        lemma_held(seconds as int, 1, DOUBLE as int);
        lemma_held(rest * TICKS, 1000, DOUBLE as int);
    }
    let ticks = hold(whole * TICKS + part, 1, DOUBLE);
    proof {
        lemma_held(whole * TICKS + part, 1, DOUBLE as int);
    }
    let rate: u128 = sample_rate_hz as u128;
    let most: u128 = 0x8000_0000_0000_0000_0000_0000_0000_0000;
    if rate > 0 && ticks > most / rate {
        proof {
            lemma_fundamental_div_mod(most as int, rate as int);
            lemma_mod_bound(most as int, rate as int);
            assert(ticks * rate >= most) by (nonlinear_arith)
                requires
                    most == rate * (most as int / rate as int) + (most as int % rate as int),
                    (most as int % rate as int) < rate,
                    ticks >= (most as int / rate as int) + 1,
                    rate > 0,
            ;
            lemma_held(ticks * rate, 1, DOUBLE as int);
        }
        return u64::MAX;
    }
    proof {
        if rate > 0 {
            lemma_fundamental_div_mod(most as int, rate as int);
            lemma_mod_bound(most as int, rate as int);
            assert(ticks * rate <= most) by (nonlinear_arith)
                requires
                    most == rate * (most as int / rate as int) + (most as int % rate as int),
                    (most as int % rate as int) >= 0,
                    ticks <= (most as int / rate as int),
                    rate > 0,
            ;
        } else {
            assert(ticks * rate == 0) by (nonlinear_arith)
                requires
                    rate == 0,
            ;
        }
        assert(ticks * rate >= 0) by (nonlinear_arith)
            requires
                ticks >= 0,
                rate >= 0,
        ;
        lemma_held(ticks * rate, 1, DOUBLE as int);
    }
    let product = hold(ticks * rate, 1, DOUBLE);
    let n: u128 = (product + TICKS / 2) / TICKS;
    if n < 1 {
        1
    } else if n > u64::MAX as u128 {
        u64::MAX
    } else {
        n as u64
    }
}

/// For durations of some length the precision does not show: the number of
/// samples is the exact one, rounded, unless that lies halfway between two.
pub proof fn lemma_samples_are_exact(duration_ms: u64, sample_rate_hz: u32)
    requires
        duration_ms * sample_rate_hz < 0x4_0000_0000_0000,
        duration_ms < 0x4_0000_0000_0000,
        (duration_ms * sample_rate_hz) % 1000 != 500,
    ensures
        samples_in(duration_ms, sample_rate_hz) == if duration_ms * sample_rate_hz < 500 {
            1
        } else {
            (duration_ms * sample_rate_hz + 500) / 1000
        },
{
    let seconds = (duration_ms / 1000) as int;
    let rest = (duration_ms % 1000) as int;
    let rate = sample_rate_hz as int;
    let exact = duration_ms * sample_rate_hz;
    let t = TICKS as int;
    let d = DOUBLE as int;
    lemma_held(seconds, 1, d);
    assert(held(seconds, 1, d) == seconds);
    lemma_held(rest * t, 1000, d);
    let part = held(rest * t, 1000, d);
    let sum = seconds * t + part;
    lemma_held(sum, 1, d);
    let ticks = held(sum, 1, d);
    assert(ticks == ticks_in(duration_ms));
    assert(ticks * rate >= 0) by (nonlinear_arith)
        requires
            ticks >= 0,
            rate >= 0,
    ;
    lemma_held(ticks * rate, 1, d);
    let product = held(ticks * rate, 1, d);
    let ms = duration_ms as int;
    // How far the sum and the held sum are from the duration.
    assert(-ms * t <= (1000 * sum - ms * t) * d <= ms * t);
    assert(1000 * sum <= 2 * ms * t);
    assert(-sum <= (ticks - sum) * d <= sum);
    assert(-3 * ms * t <= (1000 * ticks - ms * t) * d <= 3 * ms * t);
    assert(1000 * ticks <= 2 * ms * t);
    // How far the product is from the exact number.
    assert(-3 * exact * t <= (1000 * (ticks * rate) - exact * t) * d <= 3 * exact * t)
        by (nonlinear_arith)
        requires
            -3 * ms * t <= (1000 * ticks - ms * t) * d <= 3 * ms * t,
            exact == ms * rate,
            rate >= 0,
    ;
    assert(1000 * (ticks * rate) <= 2 * exact * t) by (nonlinear_arith)
        requires
            1000 * ticks <= 2 * ms * t,
            exact == ms * rate,
            rate >= 0,
    ;
    assert(-(ticks * rate) <= (product - ticks * rate) * d <= ticks * rate);
    assert(-5 * exact * t <= (1000 * product - exact * t) * d <= 5 * exact * t);
    assert(-t < 1000 * product - exact * t < t);
    let m = (exact + 500) / 1000;
    assert(m * t <= product + t / 2 < (m + 1) * t);
    assert((product + t / 2) / t == m);
}

/// The lengths that the pipeline works with, in samples.
pub proof fn lemma_standard_lengths()
    ensures
        samples_in(WAVEFORM_FRAME_MS, SAMPLE_RATE_HZ) == 512,
        samples_in(MIN_FRAME_MS, SAMPLE_RATE_HZ) == 1_600,
        samples_in(MAX_FRAME_MS, SAMPLE_RATE_HZ) == 3_200,
        samples_in(500, SAMPLE_RATE_HZ) == 8_000,
        samples_in(5_000, SAMPLE_RATE_HZ) == 80_000,
{
    lemma_samples_are_exact(WAVEFORM_FRAME_MS, SAMPLE_RATE_HZ);
    lemma_samples_are_exact(MIN_FRAME_MS, SAMPLE_RATE_HZ);
    lemma_samples_are_exact(MAX_FRAME_MS, SAMPLE_RATE_HZ);
    lemma_samples_are_exact(500, SAMPLE_RATE_HZ);
    lemma_samples_are_exact(5_000, SAMPLE_RATE_HZ);
}

/// The frames that can be cut off the start of `s`: as long as possible, up to
/// `max`, while at least `min` samples are left.
pub open spec fn cut<T>(s: Seq<T>, min: nat, max: nat) -> Seq<Seq<T>>
    decreases s.len(),
{
    if min == 0 || max < min || s.len() < min {
        Seq::empty()
    } else {
        let n = if s.len() <= max {
            s.len()
        } else {
            max
        };
        seq![s.take(n as int)] + cut(s.skip(n as int), min, max)
    }
}

/// What is left of `s` when the frames are cut off.
pub open spec fn left_over<T>(s: Seq<T>, min: nat, max: nat) -> Seq<T>
    decreases s.len(),
{
    if min == 0 || max < min || s.len() < min {
        s
    } else {
        let n = if s.len() <= max {
            s.len()
        } else {
            max
        };
        left_over(s.skip(n as int), min, max)
    }
}

/// `s` with `filler` added up to a length of `n`.
pub open spec fn padded<T>(s: Seq<T>, n: nat, filler: T) -> Seq<T> {
    if s.len() >= n {
        s
    } else {
        s + Seq::new((n - s.len()) as nat, |i: int| filler)
    }
}

/// The samples of several frames, one frame behind the other.
pub open spec fn joined<T>(frames: Seq<Seq<T>>) -> Seq<T>
    decreases frames.len(),
{
    if frames.len() == 0 {
        Seq::empty()
    } else {
        frames.first() + joined(frames.drop_first())
    }
}

/// The contents of several vectors.
pub open spec fn vec_views<T>(list: Seq<Vec<T>>) -> Seq<Seq<T>> {
    list.map_values(|v: Vec<T>| v@)
}

/// Cutting loses no sample, invents none and keeps their order; every frame has
/// between `min` and `max` samples, and fewer than `min` are left.
pub proof fn law_cutting_keeps_samples<T>(s: Seq<T>, min: nat, max: nat)
    requires
        0 < min <= max,
    ensures
        joined(cut(s, min, max)) + left_over(s, min, max) == s,
        left_over(s, min, max).len() < min,
        forall|i: int|
            0 <= i < cut(s, min, max).len() ==> min <= (#[trigger] cut(s, min, max)[i]).len()
                <= max,
    decreases s.len(),
{
    if s.len() >= min {
        let n = if s.len() <= max {
            s.len()
        } else {
            max
        } as int;
        let rest = s.skip(n);
        law_cutting_keeps_samples(rest, min, max);
        let frames = cut(s, min, max);
        assert(frames.first() == s.take(n));
        assert(frames.drop_first() =~= cut(rest, min, max));
        assert(joined(frames) + left_over(s, min, max) =~= s.take(n) + (joined(cut(rest, min, max))
            + left_over(rest, min, max)));
        assert(s.take(n) + rest =~= s);
        assert forall|i: int| 0 <= i < frames.len() implies min <= (#[trigger] frames[i]).len()
            <= max by {
            if i > 0 {
                assert(frames[i] == cut(rest, min, max)[i - 1]);
            }
        }
    } else {
        assert(joined(cut(s, min, max)) + s =~= s);
    }
}

/// Collects captured samples until a frame is full.
pub struct FrameAccumulator<T> {
    pending: Vec<T>,
    min_frame_samples: usize,
    max_frame_samples: usize,
}

impl<T: Copy> FrameAccumulator<T> {
    /// The samples that wait for a full frame.
    pub closed spec fn pending(&self) -> Seq<T> {
        self.pending@
    }

    pub closed spec fn min_len(&self) -> nat {
        self.min_frame_samples as nat
    }

    pub closed spec fn max_len(&self) -> nat {
        self.max_frame_samples as nat
    }

    pub open spec fn wf(&self) -> bool {
        &&& 0 < self.min_len() <= self.max_len()
        &&& self.pending().len() < self.min_len()
    }

    /// An accumulator for frames of the given bounds.
    pub fn with_bounds(min_frame_samples: usize, max_frame_samples: usize) -> (r: Self)
        requires
            0 < min_frame_samples <= max_frame_samples,
        ensures
            r.wf(),
            r.pending() == Seq::<T>::empty(),
            r.min_len() == min_frame_samples,
            r.max_len() == max_frame_samples,
    {
        FrameAccumulator { pending: Vec::new(), min_frame_samples, max_frame_samples }
    }

    /// An accumulator for the pipeline's frames of 100 to 200 ms.
    pub fn new() -> (r: Self)
        ensures
            r.wf(),
            r.pending() == Seq::<T>::empty(),
            r.min_len() == samples_in(MIN_FRAME_MS, SAMPLE_RATE_HZ),
            r.max_len() == samples_in(MAX_FRAME_MS, SAMPLE_RATE_HZ),
    {
        proof {
            lemma_standard_lengths();
        }
        let min = duration_to_samples(MIN_FRAME_MS, SAMPLE_RATE_HZ) as usize;
        let max = duration_to_samples(MAX_FRAME_MS, SAMPLE_RATE_HZ) as usize;
        Self::with_bounds(min, max)
    }

    fn cut_frames(&mut self) -> (frames: Vec<Vec<T>>)
        requires
            0 < old(self).min_len() <= old(self).max_len(),
        ensures
            final(self).min_len() == old(self).min_len(),
            final(self).max_len() == old(self).max_len(),
            final(self).wf(),
            vec_views(frames@) == cut(old(self).pending(), old(self).min_len(), old(self).max_len()),
            final(self).pending() == left_over(
                old(self).pending(),
                old(self).min_len(),
                old(self).max_len(),
            ),
    {
        let ghost before = self.pending@;
        let ghost min = self.min_frame_samples as nat;
        let ghost max = self.max_frame_samples as nat;
        let mut frames: Vec<Vec<T>> = Vec::new();
        assert(vec_views(frames@) + cut(self.pending@, min, max) =~= cut(before, min, max));
        while self.pending.len() >= self.min_frame_samples
            invariant
                0 < min <= max,
                min == self.min_frame_samples,
                max == self.max_frame_samples,
                self.min_frame_samples == old(self).min_frame_samples,
                self.max_frame_samples == old(self).max_frame_samples,
                vec_views(frames@) + cut(self.pending@, min, max) == cut(before, min, max),
                left_over(self.pending@, min, max) == left_over(before, min, max),
            decreases self.pending@.len(),
        {
            let n = if self.pending.len() <= self.max_frame_samples {
                self.pending.len()
            } else {
                self.max_frame_samples
            };
            let ghost text = self.pending@;
            let ghost so_far = vec_views(frames@);
            let rest = self.pending.split_off(n);
            let mut frame: Vec<T> = Vec::new();
            std::mem::swap(&mut frame, &mut self.pending);
            self.pending = rest;
            assert(frame@ =~= text.take(n as int));
            assert(self.pending@ =~= text.skip(n as int));
            frames.push(frame);
            assert(vec_views(frames@) =~= so_far.push(frame@));
            assert(so_far + cut(text, min, max) =~= vec_views(frames@) + cut(
                self.pending@,
                min,
                max,
            ));
        }
        assert(vec_views(frames@) =~= cut(before, min, max));
        frames
    }

    /// Adds captured samples and returns the frames that are full.
    pub fn push(&mut self, samples: &[T]) -> (frames: Vec<Vec<T>>)
        requires
            old(self).wf(),
        ensures
            final(self).wf(),
            final(self).min_len() == old(self).min_len(),
            final(self).max_len() == old(self).max_len(),
            vec_views(frames@) == cut(
                old(self).pending() + samples@,
                old(self).min_len(),
                old(self).max_len(),
            ),
            final(self).pending() == left_over(
                old(self).pending() + samples@,
                old(self).min_len(),
                old(self).max_len(),
            ),
    {
        let ghost before = self.pending@;
        let mut i: usize = 0;
        while i < samples.len()
            invariant
                i <= samples@.len(),
                self.min_frame_samples == old(self).min_frame_samples,
                self.max_frame_samples == old(self).max_frame_samples,
                self.pending@ == before + samples@.take(i as int),
            decreases samples.len() - i,
        {
            self.pending.push(samples[i]);
            i += 1;
            assert(self.pending@ =~= before + samples@.take(i as int));
        }
        assert(self.pending@ =~= before + samples@);
        self.cut_frames()
    }

    /// Hands out what is pending as one last frame, filled up with `silence`.
    pub fn flush(&mut self, silence: T) -> (frame: Option<Vec<T>>)
        requires
            old(self).wf(),
        ensures
            final(self).wf(),
            final(self).min_len() == old(self).min_len(),
            final(self).max_len() == old(self).max_len(),
            final(self).pending() == Seq::<T>::empty(),
            old(self).pending().len() == 0 ==> frame is None,
            old(self).pending().len() > 0 ==> (frame matches Some(f) && f@ == padded(
                old(self).pending(),
                old(self).min_len(),
                silence,
            )),
    {
        if self.pending.len() == 0 {
            return None;
        }
        let ghost before = self.pending@;
        let mut frame: Vec<T> = Vec::new();
        std::mem::swap(&mut frame, &mut self.pending);
        self.pending = Vec::new();
        while frame.len() < self.min_frame_samples
            invariant
                self.pending@ == Seq::<T>::empty(),
                self.min_frame_samples == old(self).min_frame_samples,
                self.max_frame_samples == old(self).max_frame_samples,
                0 < self.min_frame_samples <= self.max_frame_samples,
                before.len() <= frame@.len() <= self.min_frame_samples,
                frame@ == padded(before, frame@.len(), silence),
            decreases self.min_frame_samples - frame.len(),
        {
            frame.push(silence);
            assert(frame@ =~= padded(before, frame@.len(), silence));
        }
        Some(frame)
    }
}

/// What the waveform display gets at a tick.
pub enum WaveformTick<T> {
    /// A frame to measure.
    Frame(Vec<T>),
    /// Nothing was captured yet: show silence.
    Silent,
    /// Nothing new.
    Nothing,
}

/// Collects samples for the waveform display, which takes one frame per tick.
pub struct WaveformAccumulator<T> {
    pending: Vec<T>,
    frame_samples: usize,
    started: bool,
}

impl<T: Copy> WaveformAccumulator<T> {
    pub closed spec fn pending(&self) -> Seq<T> {
        self.pending@
    }

    pub closed spec fn frame_len(&self) -> nat {
        self.frame_samples as nat
    }

    pub closed spec fn started(&self) -> bool {
        self.started
    }

    pub open spec fn wf(&self) -> bool {
        0 < self.frame_len()
    }

    /// An empty accumulator for frames of 32 ms.
    pub fn new() -> (r: Self)
        ensures
            r.wf(),
            r.pending() == Seq::<T>::empty(),
            r.frame_len() == samples_in(WAVEFORM_FRAME_MS, SAMPLE_RATE_HZ),
            !r.started(),
    {
        proof {
            lemma_standard_lengths();
        }
        let n = duration_to_samples(WAVEFORM_FRAME_MS, SAMPLE_RATE_HZ) as usize;
        WaveformAccumulator { pending: Vec::new(), frame_samples: n, started: false }
    }

    /// Adds captured samples.
    pub fn push(&mut self, samples: &[T])
        ensures
            final(self).frame_len() == old(self).frame_len(),
            final(self).pending() == old(self).pending() + samples@,
            final(self).started() == (old(self).started() || samples@.len() > 0),
    {
        let ghost before = self.pending@;
        let mut i: usize = 0;
        while i < samples.len()
            invariant
                i <= samples@.len(),
                self.frame_samples == old(self).frame_samples,
                self.started == old(self).started,
                self.pending@ == before + samples@.take(i as int),
            decreases samples.len() - i,
        {
            self.pending.push(samples[i]);
            i += 1;
            assert(self.pending@ =~= before + samples@.take(i as int));
        }
        assert(self.pending@ =~= before + samples@);
        if samples.len() > 0 {
            self.started = true;
        }
    }

    /// Takes the frame of one tick: a full one, or what is pending filled up
    /// with `silence` once capture has started.
    pub fn tick(&mut self, silence: T) -> (r: WaveformTick<T>)
        requires
            old(self).wf(),
        ensures
            final(self).wf(),
            final(self).frame_len() == old(self).frame_len(),
            final(self).started() == old(self).started(),
            final(self).pending() == unshown(
                old(self).pending(),
                old(self).frame_len(),
                old(self).started(),
            ),
            match shown(old(self).pending(), old(self).frame_len(), old(self).started(), silence) {
                Some(frame) => r matches WaveformTick::Frame(f) && f@ == frame,
                None => r !is Frame,
            },
            if old(self).pending().len() >= old(self).frame_len() {
                &&& r matches WaveformTick::Frame(f) && f@ == old(self).pending().take(
                    old(self).frame_len() as int,
                )
                &&& final(self).pending() == old(self).pending().skip(
                    old(self).frame_len() as int,
                )
            } else if old(self).started() && old(self).pending().len() > 0 {
                &&& r matches WaveformTick::Frame(f) && f@ == padded(
                    old(self).pending(),
                    old(self).frame_len(),
                    silence,
                )
                &&& final(self).pending() == Seq::<T>::empty()
            } else {
                &&& final(self).pending() == old(self).pending()
                &&& if old(self).started() {
                    r is Nothing
                } else {
                    r is Silent
                }
            },
    {
        if self.pending.len() >= self.frame_samples {
            let ghost before = self.pending@;
            let rest = self.pending.split_off(self.frame_samples);
            let mut frame: Vec<T> = Vec::new();
            std::mem::swap(&mut frame, &mut self.pending);
            self.pending = rest;
            assert(frame@ =~= before.take(self.frame_samples as int));
            assert(self.pending@ =~= before.skip(self.frame_samples as int));
            return WaveformTick::Frame(frame);
        }
        if self.started && self.pending.len() > 0 {
            let ghost before = self.pending@;
            let mut frame: Vec<T> = Vec::new();
            std::mem::swap(&mut frame, &mut self.pending);
            self.pending = Vec::new();
            while frame.len() < self.frame_samples
                invariant
                    self.pending@ == Seq::<T>::empty(),
                    self.frame_samples == old(self).frame_samples,
                    self.started == old(self).started,
                    before.len() <= frame@.len() <= self.frame_samples,
                    frame@ == padded(before, frame@.len(), silence),
                decreases self.frame_samples - frame.len(),
            {
                frame.push(silence);
                assert(frame@ =~= padded(before, frame@.len(), silence));
            }
            return WaveformTick::Frame(frame);
        }
        if self.started {
            WaveformTick::Nothing
        } else {
            WaveformTick::Silent
        }
    }

    /// Fills the pending samples up with `silence` to whole frames.
    pub fn flush_tail(&mut self, silence: T)
        requires
            old(self).wf(),
        ensures
            final(self).wf(),
            final(self).frame_len() == old(self).frame_len(),
            final(self).started() == old(self).started(),
            final(self).pending() == padded(
                old(self).pending(),
                ((old(self).pending().len() + old(self).frame_len() - 1) / (old(
                    self,
                ).frame_len() as int) * old(self).frame_len()) as nat,
                silence,
            ),
    {
        let ghost before = self.pending@;
        let n = self.frame_samples;
        let remainder: usize = self.pending.len() % n;
        let mut missing: usize = if remainder == 0 {
            0
        } else {
            n - remainder
        };
        let ghost target = before.len() + missing;
        proof {
            let len = before.len() as int;
            let f = n as int;
            let q = len / f;
            vstd::arithmetic::div_mod::lemma_fundamental_div_mod(len, f);
            vstd::arithmetic::mul::lemma_mul_is_commutative(f, q);
            if remainder == 0 {
                vstd::arithmetic::div_mod::lemma_fundamental_div_mod_converse(
                    len + f - 1,
                    f,
                    q,
                    f - 1,
                );
            } else {
                vstd::arithmetic::mul::lemma_mul_is_distributive_add_other_way(f, q, 1);
                vstd::arithmetic::div_mod::lemma_fundamental_div_mod_converse(
                    len + f - 1,
                    f,
                    q + 1,
                    remainder - 1,
                );
            }
        }
        while missing > 0
            invariant
                self.frame_samples == old(self).frame_samples,
                self.started == old(self).started,
                before.len() <= self.pending@.len(),
                self.pending@.len() + missing == target,
                self.pending@ == padded(before, self.pending@.len(), silence),
            decreases missing,
        {
            self.pending.push(silence);
            missing -= 1;
            assert(self.pending@ =~= padded(before, self.pending@.len(), silence));
        }
    }
}

/// The 32-bit word whose bytes, least significant first, stand at `4 * i`.
pub open spec fn word_at(bytes: Seq<u8>, i: int) -> int {
    bytes[4 * i] + bytes[4 * i + 1] * 0x100 + bytes[4 * i + 2] * 0x1_0000 + bytes[4 * i + 3]
        * 0x100_0000
}

/// The samples of a message of raw bytes, as 32-bit words. A message that ends
/// within a sample is dropped whole.
pub fn sample_words(bytes: &[u8]) -> (r: Vec<u32>)
    ensures
        bytes@.len() % 4 != 0 ==> r@.len() == 0,
        bytes@.len() % 4 == 0 ==> r@.len() == bytes@.len() / 4 && forall|i: int|
            0 <= i < r@.len() ==> #[trigger] r@[i] == word_at(bytes@, i),
{
    let mut words: Vec<u32> = Vec::new();
    if bytes.len() % 4 != 0 {
        return words;
    }
    let n: usize = bytes.len() / 4;
    let mut i: usize = 0;
    while i < n
        invariant
            4 * n == bytes@.len(),
            4 * n <= usize::MAX,
            i <= n,
            words@.len() == i,
            forall|j: int| 0 <= j < i ==> #[trigger] words@[j] == word_at(bytes@, j),
        decreases n - i,
    {
        let word: u32 = (bytes[4 * i] as u32) + (bytes[4 * i + 1] as u32) * 0x100 + (bytes[4 * i
            + 2] as u32) * 0x1_0000 + (bytes[4 * i + 3] as u32) * 0x100_0000;
        words.push(word);
        i += 1;
    }
    words
}

/// Frames are as long as they may be: every frame but the last has `max` samples,
/// and one that is shorter takes all that is left.
pub proof fn law_frames_are_as_long_as_they_may_be<T>(s: Seq<T>, min: nat, max: nat)
    requires
        0 < min <= max,
    ensures
        forall|i: int| 0 <= i < cut(s, min, max).len() - 1 ==> (#[trigger] cut(s, min, max)[i]).len()
            == max,
        cut(s, min, max).len() > 0 && cut(s, min, max).last().len() < max ==> left_over(
            s,
            min,
            max,
        ).len() == 0,
        s.len() >= min ==> cut(s, min, max).len() > 0,
        s.len() < min ==> cut(s, min, max).len() == 0,
    decreases s.len(),
{
    if s.len() >= min {
        let n = if s.len() <= max {
            s.len()
        } else {
            max
        };
        let rest = s.skip(n as int);
        law_frames_are_as_long_as_they_may_be(rest, min, max);
        let list = cut(s, min, max);
        let tail = cut(rest, min, max);
        assert(list == seq![s.take(n as int)] + tail);
        assert forall|i: int| 0 <= i < list.len() - 1 implies (#[trigger] list[i]).len() == max by {
            if i > 0 {
                assert(list[i] == tail[i - 1]);
            }
        }
        if tail.len() > 0 {
            assert(list.last() == tail.last());
        } else {
            assert(list =~= seq![s.take(n as int)]);
            if n < max {
                assert(rest.len() == 0);
                assert(left_over(rest, min, max) == rest);
                assert(left_over(s, min, max) == left_over(s.skip(n as int), min, max));
            }
        }
    }
}

/// Filling up adds only the filler, only behind, and only up to the length.
pub proof fn law_filling_up_keeps_what_is_there<T>(s: Seq<T>, n: nat, filler: T)
    ensures
        padded(s, n, filler).len() == if s.len() >= n {
            s.len()
        } else {
            n
        },
        padded(s, n, filler).take(s.len() as int) == s,
        forall|i: int|
            s.len() <= i < padded(s, n, filler).len() ==> #[trigger] padded(s, n, filler)[i]
                == filler,
{
    assert(padded(s, n, filler).take(s.len() as int) =~= s);
}

/// A word is four bytes, the lowest first: put together from bytes, it gives
/// them back.
pub proof fn law_words_are_little_endian(bytes: Seq<u8>, i: int)
    requires
        0 <= i,
        4 * i + 4 <= bytes.len(),
    ensures
        word_at(bytes, i) % 256 == bytes[4 * i],
        word_at(bytes, i) / 256 % 256 == bytes[4 * i + 1],
        word_at(bytes, i) / 65_536 % 256 == bytes[4 * i + 2],
        word_at(bytes, i) / 16_777_216 == bytes[4 * i + 3],
{
}

/// The frame of the waveform that is shown next, if one is.
pub open spec fn shown<T>(pending: Seq<T>, n: nat, started: bool, silence: T) -> Option<Seq<T>> {
    if pending.len() >= n {
        Some(pending.take(n as int))
    } else if started && pending.len() > 0 {
        Some(padded(pending, n, silence))
    } else {
        None
    }
}

/// The samples that still wait to be shown.
pub open spec fn unshown<T>(pending: Seq<T>, n: nat, started: bool) -> Seq<T> {
    if pending.len() >= n {
        pending.skip(n as int)
    } else if started {
        Seq::empty()
    } else {
        pending
    }
}

/// The waveform shows every sample once and in order, in frames of one length:
/// what is shown begins with the samples that no longer wait, and behind them is
/// only silence, which is added to the last of them alone.
pub proof fn law_waveform_shows_every_sample<T>(
    pending: Seq<T>,
    n: nat,
    started: bool,
    silence: T,
    i: int,
)
    requires
        n > 0,
    ensures
        shown(pending, n, started, silence) matches Some(frame) ==> {
            let gone = pending.len() - unshown(pending, n, started).len();
            &&& frame.len() == n
            &&& 0 < gone <= n
            &&& frame.take(gone) + unshown(pending, n, started) == pending
            &&& gone <= i < n ==> frame[i] == silence
            &&& gone < n ==> unshown(pending, n, started).len() == 0
        },
        shown(pending, n, started, silence) is None ==> unshown(pending, n, started) == pending,
        pending.len() >= n ==> shown(pending, n, started, silence) is Some,
{
    if let Some(frame) = shown(pending, n, started, silence) {
        let gone = pending.len() - unshown(pending, n, started).len();
        law_filling_up_keeps_what_is_there(pending, n, silence);
        assert(frame.take(gone) + unshown(pending, n, started) =~= pending);
    } else {
        assert(unshown(pending, n, started) =~= pending);
    }
}

} // verus!
