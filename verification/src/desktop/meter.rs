//! The level meter, the drawn waveform and what is said about noise.
use vstd::arithmetic::div_mod::lemma_fundamental_div_mod;
use vstd::prelude::*;

use crate::rounding::{held, hold, lemma_held, SINGLE};
use crate::text;

verus! {

/// One reading of the level meter.
#[derive(Debug, Clone)]
pub struct AudioMeterFrame<L> {
    pub context: String,
    pub device_id: String,
    pub peak: L,
    pub rms: L,
    pub vad_active: bool,
    pub timestamp_ms: u128,
}

/// Parts in which a number of samples is counted here. Single precision holds
/// every quotient by 45 as a whole number of them.
pub const PARTS: u128 = 0x2000_0000;

/// How many samples go into a reading: so many that about 45 readings come a
/// second. The rate is divided in single precision, and the quotient rounded to
/// the nearest number, halves up; at least one sample goes in.
pub open spec fn meter_window(sample_rate: int) -> int {
    let rate = held(sample_rate, 1, SINGLE as int);
    let quotient = held(rate * PARTS, 45, SINGLE as int);
    let nearest = (quotient + (PARTS / 2)) / (PARTS as int);
    if nearest < 1 {
        1
    } else {
        nearest
    }
}

/// How many samples go into a reading.
pub fn compute_meter_window(sample_rate: u32) -> (r: usize)
    ensures
        r == meter_window(sample_rate as int),
{
    proof {
        lemma_quotient(sample_rate as int);
    }
    let rate = hold(sample_rate as u128, 1, SINGLE);
    let quotient = hold(rate * PARTS, 45, SINGLE);
    let nearest: u128 = (quotient + PARTS / 2) / PARTS;
    if nearest < 1 {
        1
    } else {
        nearest as usize
    }
}

/// A window is at most half a sample longer or shorter than a reading takes,
/// but for what the precision costs at high rates.
proof fn lemma_quotient(sample_rate: int)
    requires
        sample_rate >= 0,
    ensures
        ({
            let rate = held(sample_rate, 1, SINGLE as int);
            let quotient = held(rate * PARTS, 45, SINGLE as int);
            let window = (quotient + (PARTS / 2)) / (PARTS as int);
            &&& 0 <= rate <= 2 * sample_rate
            &&& 0 <= quotient <= sample_rate * PARTS
            &&& 0x200_0000 * (45 * window - sample_rate) >= -(45 * 0x100_0000 + 6 * sample_rate)
            &&& 0x200_0000 * (45 * window - sample_rate) <= 45 * 0x100_0000 + 6 * sample_rate
        }),
{
    lemma_held(sample_rate, 1, SINGLE as int);
    let rate = held(sample_rate, 1, SINGLE as int);
    assert(-sample_rate <= (rate - sample_rate) * 0x100_0000 <= sample_rate);
    let p = rate * PARTS;
    assert(p == rate * 0x2000_0000);
    lemma_held(p, 45, SINGLE as int);
    let quotient = held(p, 45, SINGLE as int);
    assert(-p <= (quotient * 45 - p) * 0x100_0000 <= p);
    let window = (quotient + 0x1000_0000) / 0x2000_0000;
    assert(window * 0x2000_0000 <= quotient + 0x1000_0000 < (window + 1) * 0x2000_0000);
}

/// Readings come at between thirty and sixty a second.
pub proof fn law_meter_keeps_its_pace(sample_rate: int)
    requires
        sample_rate >= 68,
    ensures
        30 <= sample_rate / meter_window(sample_rate) <= 60,
{
    lemma_quotient(sample_rate);
    let w = meter_window(sample_rate);
    let q = sample_rate / w;
    assert(w >= 2);
    assert(30 * w <= sample_rate < 61 * w);
    lemma_fundamental_div_mod(sample_rate, w);
    assert(0 <= sample_rate % w < w) by (nonlinear_arith)
        requires
            w > 0,
    ;
    assert(30 <= q <= 60) by (nonlinear_arith)
        requires
            w >= 2,
            30 * w <= sample_rate < 61 * w,
            sample_rate == w * q + sample_rate % w,
            0 <= sample_rate % w < w,
    ;
}

/// Collects amplitudes into readings, and remembers whether speech was heard.
pub struct MeterCollector<T> {
    window: usize,
    buffer: Vec<T>,
    vad_active: bool,
}

/// What a collector holds.
pub struct MeterState<T> {
    pub window: nat,
    pub buffer: Seq<T>,
    pub vad_active: bool,
}

impl<T> View for MeterCollector<T> {
    type V = MeterState<T>;

    closed spec fn view(&self) -> MeterState<T> {
        MeterState {
            window: self.window as nat,
            buffer: self.buffer@,
            vad_active: self.vad_active,
        }
    }
}

/// A collector never holds a whole window back.
pub open spec fn meter_ok<T>(m: MeterState<T>) -> bool {
    m.buffer.len() < m.window
}

/// Whether speech is heard after a window: where it was heard, it takes the
/// level to stay at the lower threshold; where it was not, to reach the upper.
pub open spec fn hears(was_active: bool, at_release: bool, at_activation: bool) -> bool {
    if was_active {
        at_release
    } else {
        at_activation
    }
}

impl<T> MeterCollector<T> {
    /// A collector for a sample rate.
    pub fn new(sample_rate: u32) -> (r: Self)
        ensures
            meter_ok(r@),
            r@ == (MeterState::<T> {
                window: meter_window(sample_rate as int) as nat,
                buffer: Seq::empty(),
                vad_active: false,
            }),
    {
        Self::with_window(compute_meter_window(sample_rate))
    }

    /// A collector with windows of a length, one sample at least.
    pub fn with_window(window: usize) -> (r: Self)
        ensures
            meter_ok(r@),
            r@ == (MeterState::<T> {
                window: if window == 0 {
                    1
                } else {
                    window as nat
                },
                buffer: Seq::empty(),
                vad_active: false,
            }),
    {
        let r = MeterCollector {
            window: if window == 0 {
                1
            } else {
                window
            },
            buffer: Vec::new(),
            vad_active: false,
        };
        assert(r.buffer@ =~= Seq::empty());
        r
    }

    /// Takes in an amplitude. Where it completes a window, that is handed out,
    /// and `settle` is owed an account of its level.
    pub fn push(&mut self, amplitude: T) -> (r: Option<Vec<T>>)
        requires
            meter_ok(old(self)@),
        ensures
            meter_ok(final(self)@),
            r is Some <==> old(self)@.buffer.len() + 1 == old(self)@.window,
            match r {
                Some(samples) => samples@ == old(self)@.buffer.push(amplitude) && final(self)@ == (
                MeterState { buffer: Seq::empty(), ..old(self)@ }),
                None => final(self)@ == (MeterState {
                    buffer: old(self)@.buffer.push(amplitude),
                    ..old(self)@
                }),
            },
    {
        self.buffer.push(amplitude);
        if self.buffer.len() >= self.window {
            Some(self.consume())
        } else {
            None
        }
    }

    /// Hands out an unfinished window, if there is one; `settle` is owed an
    /// account of it too.
    pub fn flush(&mut self) -> (r: Option<Vec<T>>)
        ensures
            r is Some <==> old(self)@.buffer.len() > 0,
            r matches Some(samples) ==> samples@ == old(self)@.buffer,
            final(self)@ == (MeterState { buffer: Seq::empty(), ..old(self)@ }),
    {
        if self.buffer.len() == 0 {
            assert(self.buffer@ =~= Seq::empty());
            None
        } else {
            Some(self.consume())
        }
    }

    fn consume(&mut self) -> (r: Vec<T>)
        ensures
            r@ == old(self)@.buffer,
            final(self)@ == (MeterState { buffer: Seq::empty(), ..old(self)@ }),
    {
        let mut out: Vec<T> = Vec::new();
        std::mem::swap(&mut out, &mut self.buffer);
        assert(self@.buffer =~= Seq::empty());
        out
    }

    /// Notes the level of the window that was handed out, as whether it reaches
    /// the lower and the upper threshold, and tells whether speech is heard.
    pub fn settle(&mut self, at_release: bool, at_activation: bool) -> (r: bool)
        ensures
            r == hears(old(self)@.vad_active, at_release, at_activation),
            final(self)@ == (MeterState { vad_active: r, ..old(self)@ }),
    {
        let active = if self.vad_active {
            at_release
        } else {
            at_activation
        };
        self.vad_active = active;
        active
    }
}

/// A level between the two thresholds changes nothing; one beyond them decides
/// whatever was heard before.
pub proof fn law_meter_has_hysteresis(was_active: bool, at_release: bool, at_activation: bool)
    requires
        at_activation ==> at_release,
    ensures
        at_release && !at_activation ==> hears(was_active, at_release, at_activation) == was_active,
        at_activation ==> hears(was_active, at_release, at_activation),
        !at_release ==> !hears(was_active, at_release, at_activation),
{
}

/// The number of samples under one bar of a waveform.
pub open spec fn bar_samples(len: nat, buckets: nat) -> nat {
    if len < buckets {
        1
    } else {
        len / buckets
    }
}

/// The number of bars of a waveform.
pub open spec fn bar_count(len: nat, buckets: nat) -> nat {
    if len < buckets {
        len
    } else {
        buckets
    }
}

/// The ranges of samples under the bars of a waveform: equal ones, one behind
/// the other, from the start of the recording.
pub fn waveform_bars(len: usize, buckets: usize) -> (r: Vec<(usize, usize)>)
    ensures
        r@.len() == bar_count(len as nat, buckets as nat),
        forall|i: int|
            0 <= i < r@.len() ==> {
                &&& (#[trigger] r@[i]).0 == i * bar_samples(len as nat, buckets as nat)
                &&& r@[i].1 == (i + 1) * bar_samples(len as nat, buckets as nat)
                &&& r@[i].1 <= len
            },
{
    let mut bars: Vec<(usize, usize)> = Vec::new();
    if len == 0 || buckets == 0 {
        return bars;
    }
    let (chunk, count): (usize, usize) = if len < buckets {
        (1, len)
    } else {
        (len / buckets, buckets)
    };
    proof {
        if len >= buckets {
            lemma_fundamental_div_mod(len as int, buckets as int);
            assert(chunk * count <= len) by (nonlinear_arith)
                requires
                    len == buckets * (len / buckets) + len % buckets,
                    chunk == len / buckets,
                    count == buckets,
                    buckets > 0,
            ;
        }
    }
    let mut i: usize = 0;
    let mut start: usize = 0;
    assert(0 * chunk == 0) by (nonlinear_arith);
    while i < count
        invariant
            chunk == bar_samples(len as nat, buckets as nat),
            count == bar_count(len as nat, buckets as nat),
            chunk * count <= len,
            i <= count,
            start == i * chunk,
            bars@.len() == i,
            forall|k: int|
                0 <= k < i ==> {
                    &&& (#[trigger] bars@[k]).0 == k * chunk
                    &&& bars@[k].1 == (k + 1) * chunk
                    &&& bars@[k].1 <= len
                },
        decreases count - i,
    {
        assert((i + 1) * chunk == start + chunk && (i + 1) * chunk <= chunk * count)
            by (nonlinear_arith)
            requires
                start == i * chunk,
                i < count,
        ;
        let end: usize = start + chunk;
        bars.push((start, end));
        start = end;
        i += 1;
    }
    bars
}

/// The ranges of the samples that are mixed into one: one from each channel,
/// except that the last range may lack some.
pub fn channel_frames(len: usize, channels: usize) -> (r: Vec<(usize, usize)>)
    ensures
        channels == 0 || len == 0 ==> r@.len() == 0,
        channels > 0 && len > 0 ==> {
            &&& r@.len() > 0
            &&& (r@.len() - 1) * channels < len <= r@.len() * channels
        },
        forall|i: int|
            0 <= i < r@.len() ==> {
                &&& (#[trigger] r@[i]).0 == i * channels
                &&& r@[i].1 == if i + 1 == r@.len() {
                    len as int
                } else {
                    (i + 1) * channels
                }
            },
{
    let mut frames: Vec<(usize, usize)> = Vec::new();
    if channels == 0 {
        return frames;
    }
    let mut start: usize = 0;
    assert(0 * channels == 0) by (nonlinear_arith);
    while len - start > channels
        invariant
            channels > 0,
            start <= len,
            len > 0 ==> start < len,
            len == 0 ==> frames@.len() == 0,
            start == frames@.len() * channels,
            forall|i: int|
                0 <= i < frames@.len() ==> (#[trigger] frames@[i]).0 == i * channels && frames@[i].1
                    == (i + 1) * channels,
        decreases len - start,
    {
        assert((frames@.len() + 1) * channels == frames@.len() * channels + channels)
            by (nonlinear_arith);
        frames.push((start, start + channels));
        start += channels;
    }
    if start < len {
        assert((frames@.len() + 1) * channels == frames@.len() * channels + channels)
            by (nonlinear_arith);
        frames.push((start, len));
    }
    frames
}

/// What a recording says of the noise around it: the noise floor and the
/// signal-to-noise ratio, each with one decimal, and how they compare with what
/// is recommended.
#[derive(Debug)]
pub struct NoiseReading {
    pub noise_floor_db: String,
    pub floor_too_high: bool,
    pub snr_db: String,
    pub snr_too_low: bool,
}

/// The complaint about a noise floor.
pub open spec fn floor_complaint(noise_floor_db: Seq<char>) -> Seq<char> {
    "环境噪声 "@ + noise_floor_db + " dBFS 高于推荐上限 -40.0 dBFS"@
}

/// The complaint about a signal-to-noise ratio.
pub open spec fn snr_complaint(snr_db: Seq<char>) -> Seq<char> {
    "信噪比 "@ + snr_db + " dB 低于推荐值 10.0 dB"@
}

/// What there is to complain about, if anything.
pub open spec fn complaints(reading: NoiseReading) -> Option<Seq<char>> {
    if reading.floor_too_high && reading.snr_too_low {
        Some(
            floor_complaint(reading.noise_floor_db@) + "；"@ + snr_complaint(reading.snr_db@),
        )
    } else if reading.floor_too_high {
        Some(floor_complaint(reading.noise_floor_db@))
    } else if reading.snr_too_low {
        Some(snr_complaint(reading.snr_db@))
    } else {
        None
    }
}

/// Whether the noise calls for an alert, and what to say then.
pub fn assess_noise(reading: &NoiseReading) -> (r: (bool, Option<String>))
    ensures
        r.0 == (reading.floor_too_high || reading.snr_too_low),
        match complaints(*reading) {
            Some(what) => r.1 matches Some(hint) && hint@ == "检测到噪音问题："@ + what
                + "。请尝试切换到更安静的环境或启用强降噪模式。"@,
            None => r.1 is None,
        },
{
    let floor = text::concat3(
        "环境噪声 ",
        reading.noise_floor_db.as_str(),
        " dBFS 高于推荐上限 -40.0 dBFS",
    );
    let snr = text::concat3("信噪比 ", reading.snr_db.as_str(), " dB 低于推荐值 10.0 dB");
    let what = if reading.floor_too_high && reading.snr_too_low {
        text::concat3(floor.as_str(), "；", snr.as_str())
    } else if reading.floor_too_high {
        floor
    } else if reading.snr_too_low {
        snr
    } else {
        return (false, None);
    };
    (
        true,
        Some(
            text::concat3(
                "检测到噪音问题：",
                what.as_str(),
                "。请尝试切换到更安静的环境或启用强降噪模式。",
            ),
        ),
    )
}

/// The bars of a waveform are as many as asked for, or one for each sample of a
/// shorter recording, and they cover it but for fewer samples than there are
/// bars.
pub proof fn law_bars_cover_the_recording(len: nat, buckets: nat)
    requires
        buckets > 0,
    ensures
        bar_count(len, buckets) <= buckets && bar_count(len, buckets) <= len,
        bar_count(len, buckets) == buckets || bar_count(len, buckets) == len,
        bar_count(len, buckets) * bar_samples(len, buckets) <= len,
        len < bar_count(len, buckets) * bar_samples(len, buckets) + buckets,
        len > 0 ==> bar_samples(len, buckets) > 0,
{
    if len >= buckets {
        lemma_fundamental_div_mod(len as int, buckets as int);
        let q = len / buckets;
        assert(len as int % buckets as int >= 0 && (len as int % buckets as int) < buckets);
        assert(q > 0) by (nonlinear_arith)
            requires
                len == buckets * q + (len as int % buckets as int),
                (len as int % buckets as int) < buckets,
                len >= buckets,
                buckets > 0,
        ;
    } else {
        assert(len * 1 == len);
    }
}

/// There is a complaint exactly where a level is out of bounds, and it names each
/// level that is, the noise floor first, with its limit.
pub proof fn law_complaints_name_the_levels(reading: NoiseReading)
    ensures
        ({
            let floor = "环境噪声 "@ + reading.noise_floor_db@
                + " dBFS 高于推荐上限 -40.0 dBFS"@;
            let snr = "信噪比 "@ + reading.snr_db@ + " dB 低于推荐值 10.0 dB"@;
            &&& complaints(reading) is None <==> !reading.floor_too_high && !reading.snr_too_low
            &&& reading.floor_too_high && !reading.snr_too_low ==> complaints(reading) == Some(
                floor,
            )
            &&& !reading.floor_too_high && reading.snr_too_low ==> complaints(reading) == Some(snr)
            &&& reading.floor_too_high && reading.snr_too_low ==> complaints(reading) == Some(
                floor + "；"@ + snr,
            )
        }),
{
}

} // verus!
