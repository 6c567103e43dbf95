//! Cutting recorded sound into the pieces that are filtered, metered, drawn and
//! stored.
use vstd::arithmetic::div_mod::{lemma_fundamental_div_mod, lemma_mod_add_multiples_vanish};
use vstd::prelude::*;

use crate::desktop::devices::TARGET_SAMPLE_RATE;
use crate::text;

verus! {

/// How long the windows are in which filtered sound is handed on.
#[derive(Debug, Clone, Copy, PartialEq, Eq, Structural)]
pub enum FrameWindowSetting {
    Default,
    Fallback,
}

impl Default for FrameWindowSetting {
    fn default() -> (r: Self)
        ensures
            r == FrameWindowSetting::Default,
    {
        FrameWindowSetting::Default
    }
}

/// The length of a window in milliseconds.
pub open spec fn window_ms(setting: FrameWindowSetting) -> u32 {
    match setting {
        FrameWindowSetting::Default => 200,
        FrameWindowSetting::Fallback => 100,
    }
}

/// The length of a window in samples.
pub open spec fn window_samples(setting: FrameWindowSetting) -> int {
    TARGET_SAMPLE_RATE * window_ms(setting) / 1000
}

impl FrameWindowSetting {
    /// The length of the window in milliseconds.
    pub fn duration_ms(self) -> (r: u32)
        ensures
            r == window_ms(self),
    {
        match self {
            FrameWindowSetting::Default => 200,
            FrameWindowSetting::Fallback => 100,
        }
    }

    /// The length of the window in samples.
    pub fn samples(self) -> (r: usize)
        ensures
            r == window_samples(self),
            r > 0,
    {
        (TARGET_SAMPLE_RATE * self.duration_ms() / 1000) as usize
    }
}

/// The number of samples that are filtered at a time: ten milliseconds.
pub const SUBFRAME_SIZE: usize = 160;

/// The pieces of `n` samples that `s` is cut into, from its start.
pub open spec fn pieces<T>(s: Seq<T>, n: nat) -> Seq<Seq<T>>
    decreases s.len(),
{
    if n == 0 || s.len() < n {
        Seq::empty()
    } else {
        seq![s.take(n as int)] + pieces(s.skip(n as int), n)
    }
}

/// What is left of `s` behind the last whole piece of `n` samples.
pub open spec fn remainder<T>(s: Seq<T>, n: nat) -> Seq<T>
    decreases s.len(),
{
    if n == 0 || s.len() < n {
        s
    } else {
        remainder(s.skip(n as int), n)
    }
}

/// The contents of a list of pieces.
pub open spec fn piece_views<T>(list: Seq<Vec<T>>) -> Seq<Seq<T>> {
    list.map_values(|v: Vec<T>| v@)
}

fn copy_samples<T: Copy>(samples: &[T], from: usize, to: usize) -> (r: Vec<T>)
    requires
        from <= to <= samples@.len(),
    ensures
        r@ == samples@.subrange(from as int, to as int),
{
    let mut out: Vec<T> = Vec::new();
    let mut i: usize = from;
    while i < to
        invariant
            from <= i <= to <= samples@.len(),
            out@ == samples@.subrange(from as int, i as int),
        decreases to - i,
    {
        out.push(samples[i]);
        i += 1;
        assert(out@ =~= samples@.subrange(from as int, i as int));
    }
    out
}

fn append_samples<T: Copy>(out: &mut Vec<T>, samples: &[T])
    ensures
        final(out)@ == old(out)@ + samples@,
{
    let mut i: usize = 0;
    while i < samples.len()
        invariant
            i <= samples@.len(),
            out@ == old(out)@ + samples@.take(i as int),
        decreases samples.len() - i,
    {
        out.push(samples[i]);
        i += 1;
        assert(out@ =~= old(out)@ + samples@.take(i as int));
    }
    assert(samples@.take(samples@.len() as int) =~= samples@);
}

/// Cuts sound into sub-frames for the filters, and what the filters return into
/// windows.
pub struct DspProcessor<T> {
    frame_window: FrameWindowSetting,
    pending_subframe: Vec<T>,
    pending_window: Vec<T>,
}

/// What a processor holds back.
pub struct DspState<T> {
    pub frame_window: FrameWindowSetting,
    /// Samples that do not fill a sub-frame yet.
    pub pending_subframe: Seq<T>,
    /// Filtered samples that do not fill a window yet.
    pub pending_window: Seq<T>,
}

impl<T> View for DspProcessor<T> {
    type V = DspState<T>;

    closed spec fn view(&self) -> DspState<T> {
        DspState {
            frame_window: self.frame_window,
            pending_subframe: self.pending_subframe@,
            pending_window: self.pending_window@,
        }
    }
}

/// A processor never holds a whole sub-frame or a whole window back.
pub open spec fn holds_fragments<T>(p: DspState<T>) -> bool {
    &&& p.pending_subframe.len() < SUBFRAME_SIZE
    &&& p.pending_window.len() < window_samples(p.frame_window)
}

/// A sub-frame filled up with copies of its last sample.
pub open spec fn padded<T>(s: Seq<T>) -> Seq<T> {
    Seq::new(
        SUBFRAME_SIZE as nat,
        |i: int|
            if i < s.len() {
                s[i]
            } else {
                s.last()
            },
    )
}

/// Whether `emitted` is the whole windows of `n` samples at the start of `s`,
/// and `rest` what is left.
pub open spec fn splits<T>(s: Seq<T>, n: int, emitted: Seq<T>, rest: Seq<T>) -> bool {
    &&& emitted + rest == s
    &&& rest.len() < n
    &&& emitted.len() as int % n == 0
}

impl<T: Copy> DspProcessor<T> {
    /// A processor that holds nothing back.
    pub fn new(frame_window: FrameWindowSetting) -> (r: Self)
        ensures
            holds_fragments(r@),
            r@.frame_window == frame_window,
            r@.pending_subframe == Seq::<T>::empty(),
            r@.pending_window == Seq::<T>::empty(),
    {
        DspProcessor { frame_window, pending_subframe: Vec::new(), pending_window: Vec::new() }
    }

    /// Takes in samples, and hands out the sub-frames that are full now, each
    /// of which goes through the filters and then to `accept`.
    pub fn subframes(&mut self, resampled: &[T]) -> (r: Vec<Vec<T>>)
        requires
            holds_fragments(old(self)@),
        ensures
            holds_fragments(final(self)@),
            piece_views(r@) == pieces(
                old(self)@.pending_subframe + resampled@,
                SUBFRAME_SIZE as nat,
            ),
            final(self)@ == (DspState {
                pending_subframe: remainder(
                    old(self)@.pending_subframe + resampled@,
                    SUBFRAME_SIZE as nat,
                ),
                ..old(self)@
            }),
    {
        let ghost n = SUBFRAME_SIZE as nat;
        let mut all: Vec<T> = Vec::new();
        std::mem::swap(&mut all, &mut self.pending_subframe);
        append_samples(&mut all, resampled);
        let ghost input = old(self)@.pending_subframe + resampled@;
        assert(all@ == input);
        let mut out: Vec<Vec<T>> = Vec::new();
        let mut start: usize = 0;
        assert(input.skip(0) =~= input);
        assert(piece_views(out@) + pieces(input, n) =~= pieces(input, n));
        while all.len() - start >= SUBFRAME_SIZE
            invariant
                all@ == input,
                n == SUBFRAME_SIZE,
                start <= all@.len(),
                piece_views(out@) + pieces(input.skip(start as int), n) == pieces(input, n),
                remainder(input.skip(start as int), n) == remainder(input, n),
            decreases all.len() - start,
        {
            let piece = copy_samples(&all, start, start + SUBFRAME_SIZE);
            let ghost rest = input.skip(start as int);
            let ghost so_far = piece_views(out@);
            out.push(piece);
            proof {
                assert(piece@ =~= rest.take(n as int));
                assert(rest.skip(n as int) =~= input.skip(start + SUBFRAME_SIZE));
                assert(piece_views(out@) =~= so_far.push(rest.take(n as int)));
                let tail = pieces(rest.skip(n as int), n);
                assert(so_far.push(rest.take(n as int)) + tail =~= so_far + (seq![
                    rest.take(n as int),
                ] + tail));
            }
            start += SUBFRAME_SIZE;
        }
        let kept = copy_samples(&all, start, all.len());
        assert(kept@ =~= input.skip(start as int));
        assert(pieces(input.skip(start as int), n) =~= Seq::<Seq<T>>::empty());
        assert(piece_views(out@) =~= pieces(input, n));
        self.pending_subframe = kept;
        out
    }

    /// Takes in what the filters made of a sub-frame, and hands out the windows
    /// that are full now.
    pub fn accept(&mut self, processed: &[T]) -> (r: Vec<T>)
        requires
            holds_fragments(old(self)@),
        ensures
            holds_fragments(final(self)@),
            splits(
                old(self)@.pending_window + processed@,
                window_samples(old(self)@.frame_window),
                r@,
                final(self)@.pending_window,
            ),
            final(self)@ == (DspState {
                pending_window: final(self)@.pending_window,
                ..old(self)@
            }),
    {
        let window: usize = self.frame_window.samples();
        let mut all: Vec<T> = Vec::new();
        std::mem::swap(&mut all, &mut self.pending_window);
        append_samples(&mut all, processed);
        let mut cut: usize = 0;
        while all.len() - cut >= window
            invariant
                window > 0,
                cut <= all@.len(),
                cut as int % window as int == 0,
            decreases all.len() - cut,
        {
            proof {
                lemma_mod_add_multiples_vanish(cut as int, window as int);
            }
            cut += window;
        }
        let emitted = copy_samples(&all, 0, cut);
        let kept = copy_samples(&all, cut, all.len());
        assert(emitted@ + kept@ =~= all@);
        self.pending_window = kept;
        emitted
    }

    /// Hands out the last sub-frame, filled up with its last sample, if there
    /// is one. It goes through the filters and then to `accept_last`.
    pub fn flush_subframe(&mut self) -> (r: Option<Vec<T>>)
        requires
            holds_fragments(old(self)@),
        ensures
            holds_fragments(final(self)@),
            r is None <==> old(self)@.pending_subframe.len() == 0,
            r matches Some(frame) ==> frame@ == padded(old(self)@.pending_subframe),
            final(self)@ == (DspState { pending_subframe: Seq::empty(), ..old(self)@ }),
    {
        let mut frame: Vec<T> = Vec::new();
        std::mem::swap(&mut frame, &mut self.pending_subframe);
        let ghost pending = frame@;
        assert(self@.pending_subframe =~= Seq::empty());
        if frame.len() == 0 {
            return None;
        }
        let last = frame[frame.len() - 1];
        while frame.len() < SUBFRAME_SIZE
            invariant
                0 < pending.len() <= frame@.len() <= SUBFRAME_SIZE,
                last == pending.last(),
                forall|i: int| 0 <= i < pending.len() ==> frame@[i] == pending[i],
                forall|i: int| pending.len() <= i < frame@.len() ==> frame@[i] == last,
            decreases SUBFRAME_SIZE - frame.len(),
        {
            frame.push(last);
        }
        assert(frame@ =~= padded(pending));
        Some(frame)
    }

    /// Takes in what the filters made of the last sub-frame.
    pub fn accept_last(&mut self, processed: &[T])
        requires
            processed@.len() >= SUBFRAME_SIZE,
        ensures
            final(self)@ == (DspState {
                pending_window: old(self)@.pending_window + processed@.take(SUBFRAME_SIZE as int),
                ..old(self)@
            }),
    {
        let first = copy_samples(processed, 0, SUBFRAME_SIZE);
        assert(first@ =~= processed@.take(SUBFRAME_SIZE as int));
        append_samples(&mut self.pending_window, &first);
    }

    /// Hands out whatever has been filtered.
    pub fn flush_window(&mut self) -> (r: Vec<T>)
        ensures
            r@ == old(self)@.pending_window,
            final(self)@ == (DspState { pending_window: Seq::empty(), ..old(self)@ }),
    {
        let mut out: Vec<T> = Vec::new();
        std::mem::swap(&mut out, &mut self.pending_window);
        assert(self@.pending_window =~= Seq::empty());
        out
    }
}

/// How a recording reaches the processor makes no difference: two blocks give
/// the sub-frames that one block with the samples of both would give.
pub proof fn law_blocks_make_no_difference<T>(pending: Seq<T>, first: Seq<T>, second: Seq<T>, n: nat)
    requires
        n > 0,
    ensures
        pieces(pending + first, n) + pieces(remainder(pending + first, n) + second, n) == pieces(
            pending + (first + second),
            n,
        ),
        remainder(remainder(pending + first, n) + second, n) == remainder(
            pending + (first + second),
            n,
        ),
{
    assert(pending + (first + second) =~= (pending + first) + second);
    lemma_pieces_of_concat(pending + first, second, n);
}

proof fn lemma_pieces_of_concat<T>(a: Seq<T>, b: Seq<T>, n: nat)
    requires
        n > 0,
    ensures
        pieces(a, n) + pieces(remainder(a, n) + b, n) == pieces(a + b, n),
        remainder(remainder(a, n) + b, n) == remainder(a + b, n),
    decreases a.len(),
{
    if a.len() < n {
        assert(pieces(a, n) + pieces(a + b, n) =~= pieces(a + b, n));
    } else {
        let rest = a.skip(n as int);
        lemma_pieces_of_concat(rest, b, n);
        assert((a + b).take(n as int) =~= a.take(n as int));
        assert((a + b).skip(n as int) =~= rest + b);
        assert((seq![a.take(n as int)] + pieces(rest, n)) + pieces(remainder(rest, n) + b, n)
            =~= seq![a.take(n as int)] + (pieces(rest, n) + pieces(remainder(rest, n) + b, n)));
    }
}

/// No sample is lost or moved by cutting: the pieces and what is left behind
/// them are the samples in order.
pub proof fn law_subframes_keep_samples<T>(s: Seq<T>, n: nat)
    requires
        n > 0,
    ensures
        pieces(s, n).flatten() + remainder(s, n) == s,
        remainder(s, n).len() < n,
        forall|i: int| 0 <= i < pieces(s, n).len() ==> (#[trigger] pieces(s, n)[i]).len() == n,
    decreases s.len(),
{
    if s.len() < n {
        assert(pieces(s, n).flatten() =~= Seq::<T>::empty());
        assert(Seq::<T>::empty() + s =~= s);
    } else {
        let head = s.take(n as int);
        let rest = s.skip(n as int);
        law_subframes_keep_samples(rest, n);
        let list = pieces(s, n);
        assert(list.first() == head);
        assert(list.drop_first() =~= pieces(rest, n));
        assert(list.flatten() == head + pieces(rest, n).flatten());
        assert(head + pieces(rest, n).flatten() + remainder(rest, n) =~= head + (pieces(
            rest,
            n,
        ).flatten() + remainder(rest, n)));
        assert(head + rest =~= s);
        assert forall|i: int| 0 <= i < list.len() implies (#[trigger] list[i]).len() == n by {
            if i > 0 {
                assert(list[i] == pieces(rest, n)[i - 1]);
            }
        }
    }
}

/// The windows that are handed out and what stays behind are fixed by what
/// came in.
pub proof fn law_windows_are_determined<T>(
    s: Seq<T>,
    n: int,
    emitted: Seq<T>,
    rest: Seq<T>,
    emitted_too: Seq<T>,
    rest_too: Seq<T>,
)
    requires
        n > 0,
        splits(s, n, emitted, rest),
        splits(s, n, emitted_too, rest_too),
    ensures
        emitted == emitted_too,
        rest == rest_too,
{
    let a = emitted.len() as int;
    let b = emitted_too.len() as int;
    assert(a + rest.len() == b + rest_too.len()) by {
        assert((emitted + rest).len() == (emitted_too + rest_too).len());
    }
    assert(a == b) by {
        lemma_fundamental_div_mod(a, n);
        lemma_fundamental_div_mod(b, n);
        let x = a / n;
        let y = b / n;
        assert(a == n * x && b == n * y);
        assert(x == y) by (nonlinear_arith)
            requires
                n > 0,
                -n < n * x - n * y < n,
        ;
    }
    assert(emitted =~= s.take(a));
    assert(emitted_too =~= s.take(b));
    assert(rest =~= s.skip(a));
    assert(rest_too =~= s.skip(b));
}

/// A window holds the samples of a fifth of a second, or of a tenth where speed
/// counts, and each is a whole number of sub-frames of ten milliseconds.
pub proof fn law_windows_have_their_length(setting: FrameWindowSetting)
    ensures
        window_samples(setting) * 1000 == 16_000 * window_ms(setting),
        window_ms(FrameWindowSetting::Default) == 200,
        window_ms(FrameWindowSetting::Fallback) == 100,
        SUBFRAME_SIZE * 100 == 16_000,
        window_samples(setting) % (SUBFRAME_SIZE as int) == 0,
{
}

/// A sub-frame that is filled up keeps its samples and repeats the last of them.
pub proof fn law_filling_up_repeats_the_last_sample<T>(s: Seq<T>, i: int)
    requires
        0 < s.len() <= 160,
        0 <= i < 160,
    ensures
        padded(s).len() == 160,
        padded(s)[i] == if i < s.len() {
            s[i]
        } else {
            s[s.len() - 1]
        },
{
}

} // verus!
