//! Cutting the running transcript of the local engine into sentences.
use vstd::prelude::*;

use crate::text;

verus! {

/// The characters that end a sentence.
pub open spec fn ends_sentence(c: char) -> bool {
    c == '.' || c == '!' || c == '?' || c == '\n' || c == '\r' || c == '。' || c == '！' || c == '？' || c
        == '…' || c == ';' || c == '；'
}

/// The characters that follow a word without a space although they end no sentence.
pub open spec fn clings(c: char) -> bool {
    c == ',' || c == '，' || c == ':' || c == '：'
}

/// How often `c` is repeated at the start of `s`.
pub open spec fn run_len(s: Seq<char>, c: char) -> nat
    decreases s.len(),
{
    if s.len() > 0 && s.first() == c {
        1 + run_len(s.drop_first(), c)
    } else {
        0
    }
}

/// Where the first sentence of `s` ends: behind the first ending character and
/// its immediate repetitions.
pub open spec fn sentence_end(s: Seq<char>) -> Option<nat>
    decreases s.len(),
{
    if s.len() == 0 {
        None
    } else if ends_sentence(s.first()) {
        Some(run_len(s, s.first()))
    } else {
        match sentence_end(s.drop_first()) {
            Some(n) => Some(n + 1),
            None => None,
        }
    }
}

/// What follows the first sentence of `s`.
pub open spec fn after_sentence(s: Seq<char>, end: nat) -> Seq<char> {
    text::trim_start(s.skip(end as int))
}

/// The complete sentences at the start of `s`, trimmed, blank ones left out.
pub open spec fn completed(s: Seq<char>) -> Seq<Seq<char>>
    decreases s.len(),
    via completed_decreases
{
    match sentence_end(s) {
        None => Seq::empty(),
        Some(n) => {
            let chunk = text::trim(s.take(n as int));
            let rest = completed(after_sentence(s, n));
            if chunk.len() > 0 {
                seq![chunk] + rest
            } else {
                rest
            }
        },
    }
}

/// What is left of `s` when its complete sentences are taken away.
pub open spec fn unfinished(s: Seq<char>) -> Seq<char>
    decreases s.len(),
    via unfinished_decreases
{
    match sentence_end(s) {
        None => s,
        Some(n) => unfinished(after_sentence(s, n)),
    }
}

#[via_fn]
proof fn completed_decreases(s: Seq<char>) {
    if let Some(n) = sentence_end(s) {
        lemma_sentence_end(s);
        text::lemma_trim_start_facts(s.skip(n as int));
    }
}

#[via_fn]
proof fn unfinished_decreases(s: Seq<char>) {
    if let Some(n) = sentence_end(s) {
        lemma_sentence_end(s);
        text::lemma_trim_start_facts(s.skip(n as int));
    }
}

/// The last visible character of `s`.
pub open spec fn last_visible(s: Seq<char>) -> Option<char> {
    if text::trim_end(s).len() > 0 {
        Some(text::trim_end(s).last())
    } else {
        None
    }
}

/// The first visible character of `s`.
pub open spec fn first_visible(s: Seq<char>) -> Option<char> {
    if text::trim_start(s).len() > 0 {
        Some(text::trim_start(s).first())
    } else {
        None
    }
}

/// Whether a space belongs between the pending text and an addition: both have
/// a visible character, and neither of the two that meet is punctuation.
pub open spec fn wants_space(existing: Seq<char>, addition: Seq<char>) -> bool {
    match (last_visible(existing), first_visible(addition)) {
        (Some(l), Some(f)) => !ends_sentence(l) && !ends_sentence(f) && !clings(f),
        _ => false,
    }
}

/// The pending text with `delta` added.
pub open spec fn joined(pending: Seq<char>, delta: Seq<char>) -> Seq<char> {
    if text::trim(delta).len() == 0 {
        pending
    } else if pending.len() == 0 {
        text::trim_start(delta)
    } else if wants_space(pending, delta) {
        pending.push(' ') + delta
    } else {
        pending + delta
    }
}

/// What a sentence buffer holds.
pub struct BufferState {
    /// The text that has not been handed out.
    pub pending: Seq<char>,
    /// Since when text has been pending.
    pub since: Option<u64>,
    /// How long text may stay pending.
    pub window_ns: u64,
}

/// The buffer once `delta` is added and the complete sentences are gone.
pub open spec fn settled(b: BufferState, delta: Seq<char>, now_ns: u64) -> BufferState {
    let text = joined(b.pending, delta);
    let left = unfinished(text);
    if text::trim(delta).len() == 0 {
        b
    } else {
        BufferState {
            pending: left,
            since: if left.len() == 0 {
                None
            } else if sentence_end(text) is Some || b.since is None {
                Some(now_ns)
            } else {
                b.since
            },
            window_ns: b.window_ns,
        }
    }
}

/// The sentences that adding `delta` completes.
pub open spec fn finished(b: BufferState, delta: Seq<char>) -> Seq<Seq<char>> {
    if text::trim(delta).len() == 0 {
        Seq::empty()
    } else {
        completed(joined(b.pending, delta))
    }
}

/// Whether pending text has waited for the whole window.
pub open spec fn overdue(b: BufferState, now_ns: u64) -> bool {
    match b.since {
        Some(since) => (if now_ns >= since {
            now_ns - since
        } else {
            0
        }) >= b.window_ns && b.pending.len() > 0,
        None => false,
    }
}

/// The sentences handed out when `delta` arrives at `now_ns`: those that it
/// completes or, if it completes none, the whole pending text once overdue.
pub open spec fn handed_out(b: BufferState, delta: Seq<char>, now_ns: u64) -> Seq<Seq<char>> {
    let ready = finished(b, delta);
    let next = settled(b, delta, now_ns);
    if ready.len() == 0 && overdue(next, now_ns) {
        seq![text::trim(next.pending)]
    } else {
        ready
    }
}

/// The buffer after `delta` arrived at `now_ns`.
pub open spec fn ingested(b: BufferState, delta: Seq<char>, now_ns: u64) -> BufferState {
    let next = settled(b, delta, now_ns);
    if finished(b, delta).len() == 0 && overdue(next, now_ns) {
        BufferState { pending: Seq::empty(), since: None, window_ns: b.window_ns }
    } else {
        next
    }
}

/// The characters of several texts, one text behind the other.
pub open spec fn run_together(list: Seq<Seq<char>>) -> Seq<char>
    decreases list.len(),
{
    if list.len() == 0 {
        Seq::empty()
    } else {
        list.first() + run_together(list.drop_first())
    }
}

proof fn lemma_run_len(s: Seq<char>, c: char)
    ensures
        run_len(s, c) <= s.len(),
        forall|i: int| 0 <= i < run_len(s, c) ==> #[trigger] s[i] == c,
        run_len(s, c) < s.len() ==> s[run_len(s, c) as int] != c,
    decreases s.len(),
{
    if s.len() > 0 && s.first() == c {
        lemma_run_len(s.drop_first(), c);
        let t = s.drop_first();
        let n = run_len(t, c);
        assert forall|i: int| 0 <= i < n + 1 implies #[trigger] s[i] == c by {
            if i > 0 {
                assert(t[i - 1] == s[i]);
            }
        }
        if n + 1 < s.len() {
            assert(t[n as int] == s[n as int + 1]);
        }
    }
}

pub proof fn lemma_sentence_end(s: Seq<char>)
    ensures
        sentence_end(s) matches Some(n) ==> 0 < n <= s.len(),
        sentence_end(s) is None <==> (forall|i: int|
            0 <= i < s.len() ==> !ends_sentence(#[trigger] s[i])),
    decreases s.len(),
{
    if s.len() > 0 {
        lemma_run_len(s, s.first());
        let t = s.drop_first();
        lemma_sentence_end(t);
        if !ends_sentence(s.first()) {
            if sentence_end(t) is None {
                assert forall|i: int| 0 <= i < s.len() implies !ends_sentence(#[trigger] s[i]) by {
                    if i > 0 {
                        assert(t[i - 1] == s[i]);
                    }
                }
            } else {
                let j = choose|j: int| 0 <= j < t.len() && ends_sentence(#[trigger] t[j]);
                assert(ends_sentence(s[j + 1]));
            }
        } else {
            assert(ends_sentence(s[0]));
        }
    }
}

/// The position of the first ending character and the length of its run give
/// the end of the first sentence.
proof fn lemma_sentence_end_at(s: Seq<char>, i: int)
    requires
        0 <= i < s.len(),
        ends_sentence(s[i]),
        forall|j: int| 0 <= j < i ==> !ends_sentence(#[trigger] s[j]),
    ensures
        sentence_end(s) == Some((i + run_len(s.skip(i), s[i])) as nat),
    decreases i,
{
    if i == 0 {
        assert(s.skip(0) =~= s);
    } else {
        assert(!ends_sentence(s[0]));
        let t = s.drop_first();
        assert forall|j: int| 0 <= j < i - 1 implies !ends_sentence(#[trigger] t[j]) by {
            assert(!ends_sentence(s[j + 1]));
        }
        lemma_sentence_end_at(t, i - 1);
        assert(t.skip(i - 1) =~= s.skip(i));
    }
}

proof fn lemma_run_len_at(s: Seq<char>, c: char, n: nat)
    requires
        n <= s.len(),
        forall|i: int| 0 <= i < n ==> #[trigger] s[i] == c,
        n < s.len() ==> s[n as int] != c,
    ensures
        run_len(s, c) == n,
{
    lemma_run_len(s, c);
    let k = run_len(s, c);
    if k < n {
        assert(s[k as int] == c);
    } else if k > n {
        assert(s[n as int] == c);
    }
}

/// Text that starts with a visible character keeps doing so when its complete
/// sentences are taken away, and none of them is blank.
proof fn lemma_completed_shape(s: Seq<char>)
    ensures
        s.len() > 0 && !text::is_white(s.first()) ==> (unfinished(s).len() > 0 ==> !text::is_white(
            unfinished(s).first(),
        )),
        forall|i: int|
            0 <= i < completed(s).len() ==> (#[trigger] completed(s)[i]).len() > 0 && !text::is_white(
                completed(s)[i].first(),
            ) && !text::is_white(completed(s)[i].last()),
        sentence_end(unfinished(s)) is None,
        unfinished(s).len() <= s.len(),
    decreases s.len(),
{
    if let Some(n) = sentence_end(s) {
        lemma_sentence_end(s);
        let rest = after_sentence(s, n);
        text::lemma_trim_start_facts(s.skip(n as int));
        lemma_completed_shape(rest);
        let chunk = text::trim(s.take(n as int));
        text::lemma_trim_ends(s.take(n as int));
        if rest.len() == 0 {
            assert(sentence_end(rest) is None);
        }
        assert forall|i: int| 0 <= i < completed(s).len() implies (#[trigger] completed(s)[i]).len()
            > 0 && !text::is_white(completed(s)[i].first()) && !text::is_white(completed(s)[i].last()) by {
            if chunk.len() > 0 {
                if i > 0 {
                    assert(completed(s)[i] == completed(rest)[i - 1]);
                }
            } else {
                assert(completed(s)[i] == completed(rest)[i]);
            }
        }
    }
}

/// Cutting sentences off a text keeps its visible characters and their order.
pub proof fn lemma_cut_keeps_text(s: Seq<char>)
    ensures
        text::visible(run_together(completed(s))) + text::visible(unfinished(s)) == text::visible(s),
    decreases s.len(),
{
    match sentence_end(s) {
        None => {
            assert(text::visible(run_together(completed(s))) =~= Seq::<char>::empty());
            assert(text::visible(Seq::<char>::empty()) + text::visible(s) =~= text::visible(s));
        },
        Some(n) => {
            lemma_sentence_end(s);
            let head = s.take(n as int);
            let tail = s.skip(n as int);
            let rest = after_sentence(s, n);
            text::lemma_trim_start_facts(tail);
            lemma_cut_keeps_text(rest);
            text::lemma_visible_trim(head);
            text::lemma_visible_trim_start(tail);
            assert(s =~= head + tail);
            text::lemma_visible_concat(head, tail);
            let chunk = text::trim(head);
            if chunk.len() > 0 {
                assert(completed(s).first() == chunk);
                assert(completed(s).drop_first() =~= completed(rest));
                text::lemma_visible_concat(chunk, run_together(completed(rest)));
                assert(run_together(completed(s)) == chunk + run_together(completed(rest)));
            } else {
                assert(chunk =~= Seq::<char>::empty());
                assert(completed(s) == completed(rest));
            }
            assert(text::visible(run_together(completed(s))) + text::visible(unfinished(s)) =~= text::visible(head)
                + (text::visible(run_together(completed(rest))) + text::visible(unfinished(rest))));
        },
    }
}

/// Nothing that is spoken gets lost: what the buffer hands out and what it
/// keeps pending hold exactly the visible characters that were pending before
/// and those of the addition, in that order.
pub proof fn law_no_text_is_lost(b: BufferState, delta: Seq<char>, now_ns: u64)
    ensures
        text::visible(run_together(handed_out(b, delta, now_ns))) + text::visible(
            ingested(b, delta, now_ns).pending,
        ) == text::visible(b.pending) + text::visible(delta),
{
    let text = joined(b.pending, delta);
    text::lemma_visible_trim(delta);
    text::lemma_visible_trim_start(delta);
    if text::trim(delta).len() == 0 {
        assert(text::trim(delta) =~= Seq::<char>::empty());
    } else if b.pending.len() == 0 {
        assert(b.pending =~= Seq::<char>::empty());
    } else {
        text::lemma_visible_concat(b.pending, delta);
        text::lemma_visible_concat(b.pending.push(' '), delta);
        assert(b.pending.push(' ').drop_last() =~= b.pending);
    }
    assert(text::visible(text) =~= text::visible(b.pending) + text::visible(delta));
    lemma_cut_keeps_text(text);
    let ready = finished(b, delta);
    let next = settled(b, delta, now_ns);
    if ready.len() == 0 {
        assert(run_together(ready) =~= Seq::<char>::empty());
    }
    assert(text::visible(run_together(ready)) + text::visible(next.pending) =~= text::visible(text));
    if ready.len() == 0 && overdue(next, now_ns) {
        let whole = text::trim(next.pending);
        text::lemma_visible_trim(next.pending);
        let out = seq![whole];
        assert(out.drop_first() =~= Seq::<Seq<char>>::empty());
        assert(run_together(out.drop_first()) =~= Seq::<char>::empty());
        assert(run_together(out) =~= whole);
    }
}

/// Collects final transcript text until a sentence is complete, or until it
/// has waited for the emission window.
pub struct SentenceBuffer {
    pending: Vec<char>,
    pending_since: Option<u64>,
    window_ns: u64,
}

impl View for SentenceBuffer {
    type V = BufferState;

    closed spec fn view(&self) -> BufferState {
        BufferState {
            pending: self.pending@,
            since: self.pending_since,
            window_ns: self.window_ns,
        }
    }
}

/// The invariant of a sentence buffer: pending text starts with a visible
/// character and holds no complete sentence, and a time is noted exactly while
/// text is pending.
pub open spec fn buffer_ok(b: BufferState) -> bool {
    &&& b.pending.len() > 0 ==> !text::is_white(b.pending.first())
    &&& sentence_end(b.pending) is None
    &&& b.since is Some <==> b.pending.len() > 0
}

/// Adding text keeps the buffer's invariant, and nothing that it hands out is
/// blank or padded with whitespace.
pub proof fn law_buffer_stays_ok(b: BufferState, delta: Seq<char>, now_ns: u64)
    requires
        buffer_ok(b),
    ensures
        buffer_ok(ingested(b, delta, now_ns)),
        forall|i: int|
            0 <= i < handed_out(b, delta, now_ns).len() ==> {
                let sentence = #[trigger] handed_out(b, delta, now_ns)[i];
                sentence.len() > 0 && !text::is_white(sentence.first()) && !text::is_white(sentence.last())
            },
{
    let text = joined(b.pending, delta);
    text::lemma_trim_empty(delta);
    text::lemma_trim_start_facts(delta);
    lemma_completed_shape(text);
    if text::trim(delta).len() > 0 {
        assert(text.len() > 0);
        if b.pending.len() > 0 {
            assert(text.first() == b.pending.first());
        }
        assert(!text::is_white(text.first()));
    } else {
        assert(text == b.pending);
    }
    let next = settled(b, delta, now_ns);
    if next.pending.len() > 0 {
        text::lemma_trim_empty(next.pending);
        assert(!text::is_white(next.pending[0]));
        text::lemma_trim_ends(next.pending);
    }
}

/// A text that comes in at a time.
pub struct Arrival {
    pub text: Seq<char>,
    pub at_ns: u64,
}

/// The buffer after several arrivals.
pub open spec fn after_all(b: BufferState, arrivals: Seq<Arrival>) -> BufferState
    decreases arrivals.len(),
{
    if arrivals.len() == 0 {
        b
    } else {
        ingested(after_all(b, arrivals.drop_last()), arrivals.last().text, arrivals.last().at_ns)
    }
}

/// The sentences handed out on several arrivals.
pub open spec fn out_of_all(b: BufferState, arrivals: Seq<Arrival>) -> Seq<Seq<char>>
    decreases arrivals.len(),
{
    if arrivals.len() == 0 {
        Seq::empty()
    } else {
        out_of_all(b, arrivals.drop_last()) + handed_out(
            after_all(b, arrivals.drop_last()),
            arrivals.last().text,
            arrivals.last().at_ns,
        )
    }
}

/// The texts of several arrivals, one behind the other.
pub open spec fn spoken(arrivals: Seq<Arrival>) -> Seq<char>
    decreases arrivals.len(),
{
    if arrivals.len() == 0 {
        Seq::empty()
    } else {
        spoken(arrivals.drop_last()) + arrivals.last().text
    }
}

proof fn lemma_run_together_concat(a: Seq<Seq<char>>, b: Seq<Seq<char>>)
    ensures
        run_together(a + b) == run_together(a) + run_together(b),
    decreases a.len(),
{
    if a.len() == 0 {
        assert(a + b =~= b);
        assert(run_together(a) + run_together(b) =~= run_together(b));
    } else {
        lemma_run_together_concat(a.drop_first(), b);
        assert((a + b).drop_first() =~= a.drop_first() + b);
        assert(run_together(a + b) =~= run_together(a) + run_together(b));
    }
}

/// Nothing that is spoken gets lost over a whole session: however the texts
/// come in, what the buffer has handed out and what it keeps pending hold
/// exactly the visible characters that were pending at the start and those of
/// all texts, in that order.
pub proof fn law_no_text_is_lost_over_time(b: BufferState, arrivals: Seq<Arrival>)
    ensures
        text::visible(run_together(out_of_all(b, arrivals))) + text::visible(
            after_all(b, arrivals).pending,
        ) == text::visible(b.pending) + text::visible(spoken(arrivals)),
    decreases arrivals.len(),
{
    if arrivals.len() == 0 {
        assert(text::visible(run_together(out_of_all(b, arrivals))) =~= Seq::<char>::empty());
        assert(text::visible(spoken(arrivals)) =~= Seq::<char>::empty());
        assert(Seq::<char>::empty() + text::visible(b.pending) =~= text::visible(b.pending)
            + Seq::<char>::empty());
    } else {
        let before = arrivals.drop_last();
        let last = arrivals.last();
        let middle = after_all(b, before);
        law_no_text_is_lost_over_time(b, before);
        law_no_text_is_lost(middle, last.text, last.at_ns);
        let early = out_of_all(b, before);
        let late = handed_out(middle, last.text, last.at_ns);
        lemma_run_together_concat(early, late);
        text::lemma_visible_concat(run_together(early), run_together(late));
        text::lemma_visible_concat(spoken(before), last.text);
        let left = text::visible(after_all(b, arrivals).pending);
        assert(text::visible(run_together(early)) + text::visible(run_together(late)) + left
            =~= text::visible(run_together(early)) + (text::visible(run_together(late)) + left));
        assert(text::visible(run_together(early)) + (text::visible(middle.pending) + text::visible(
            last.text,
        )) =~= (text::visible(run_together(early)) + text::visible(middle.pending))
            + text::visible(last.text));
        assert((text::visible(b.pending) + text::visible(spoken(before))) + text::visible(last.text)
            =~= text::visible(b.pending) + (text::visible(spoken(before)) + text::visible(
            last.text,
        )));
    }
}

/// Whether no text has been pending for less than the window by `now_ns`.
spec fn waited(b: BufferState, now_ns: u64) -> bool {
    b.since matches Some(since) ==> since + b.window_ns <= now_ns
}

proof fn lemma_after_all(b: BufferState, arrivals: Seq<Arrival>, now_ns: u64)
    requires
        buffer_ok(b),
        waited(b, now_ns),
        forall|i: int|
            0 <= i < arrivals.len() ==> (#[trigger] arrivals[i]).at_ns + b.window_ns <= now_ns,
    ensures
        buffer_ok(after_all(b, arrivals)),
        waited(after_all(b, arrivals), now_ns),
        after_all(b, arrivals).window_ns == b.window_ns,
    decreases arrivals.len(),
{
    if arrivals.len() > 0 {
        let before = arrivals.drop_last();
        assert forall|i: int| 0 <= i < before.len() implies (#[trigger] before[i]).at_ns
            + b.window_ns <= now_ns by {
            assert(arrivals[i].at_ns + b.window_ns <= now_ns);
        }
        lemma_after_all(b, before, now_ns);
        let last = arrivals[arrivals.len() - 1];
        assert(last.at_ns + b.window_ns <= now_ns);
        law_buffer_stays_ok(after_all(b, before), last.text, last.at_ns);
    }
}

/// Once the window has passed since the last arrival, a blank text brings out
/// all that is left: the sentences of the whole session then hold exactly the
/// visible characters that were spoken, in order, and nothing is pending.
pub proof fn law_everything_comes_out_in_the_end(
    b: BufferState,
    arrivals: Seq<Arrival>,
    blank: Seq<char>,
    now_ns: u64,
)
    requires
        buffer_ok(b),
        b.since matches Some(since) ==> since + b.window_ns <= now_ns,
        forall|i: int|
            0 <= i < arrivals.len() ==> (#[trigger] arrivals[i]).at_ns + b.window_ns <= now_ns,
        text::trim(blank).len() == 0,
    ensures
        ({
            let all = arrivals.push(Arrival { text: blank, at_ns: now_ns });
            &&& after_all(b, all).pending.len() == 0
            &&& text::visible(run_together(out_of_all(b, all))) == text::visible(b.pending)
                + text::visible(spoken(arrivals))
        }),
{
    let all = arrivals.push(Arrival { text: blank, at_ns: now_ns });
    assert(all.drop_last() =~= arrivals);
    lemma_after_all(b, arrivals, now_ns);
    law_no_text_is_lost_over_time(b, all);
    text::lemma_visible_concat(spoken(arrivals), blank);
    text::lemma_visible_trim(blank);
    assert(text::trim(blank) =~= Seq::<char>::empty());
    let end = after_all(b, all);
    assert(end.pending =~= Seq::<char>::empty());
    assert(text::visible(spoken(arrivals)) + Seq::<char>::empty() =~= text::visible(
        spoken(arrivals),
    ));
    let out = text::visible(run_together(out_of_all(b, all)));
    assert(out + Seq::<char>::empty() =~= out);
}

proof fn lemma_first_sentence(s: Seq<char>, mark: char, n: nat, rest: Seq<char>)
    requires
        forall|i: int| 0 <= i < s.len() ==> !ends_sentence(#[trigger] s[i]),
        ends_sentence(mark),
        n > 0,
        rest.len() == 0 || rest.first() != mark,
    ensures
        ({
            let run = Seq::new(n, |i: int| mark);
            let text = s + run + rest;
            &&& sentence_end(text) == Some(s.len() + n)
            &&& text.take((s.len() + n) as int) == s + run
            &&& after_sentence(text, s.len() + n) == text::trim_start(rest)
        }),
{
    let run = Seq::new(n, |i: int| mark);
    let text = s + run + rest;
    let k = s.len() as int;
    assert(text[k] == mark);
    assert forall|j: int| 0 <= j < k implies !ends_sentence(#[trigger] text[j]) by {
        assert(text[j] == s[j]);
    }
    lemma_sentence_end_at(text, k);
    let tail = text.skip(k);
    assert(tail =~= run + rest);
    assert forall|i: int| 0 <= i < n implies #[trigger] tail[i] == mark by {
        assert(tail[i] == run[i]);
    }
    if n < tail.len() {
        assert(tail[n as int] == rest[0]);
    }
    lemma_run_len_at(tail, mark, n);
    assert(text.take(k + n) =~= s + run);
    assert(text.skip(k + n) =~= rest);
}

/// A sentence is everything up to a mark and the repetitions of that mark, and
/// what follows is cut in the same way: a text without a mark, a run of one
/// mark, and a rest give that sentence and the sentences of the rest.
pub proof fn law_sentences_are_cut_in_turn(s: Seq<char>, mark: char, n: nat, rest: Seq<char>)
    requires
        s.len() == 0 || !text::is_white(s.first()),
        forall|i: int|
            0 <= i < s.len() ==> #[trigger] s[i] != '.' && s[i] != '!' && s[i] != '?' && s[i] != '\n'
                && s[i] != '\r' && s[i] != '。' && s[i] != '！' && s[i] != '？' && s[i] != '…' && s[i] != ';'
                && s[i] != '；',
        mark == '.' || mark == '!' || mark == '?' || mark == '。' || mark == '！' || mark == '？' || mark
            == '…' || mark == ';' || mark == '；',
        n > 0,
        rest.len() == 0 || rest.first() != mark,
    ensures
        ({
            let sentence = s + Seq::new(n, |i: int| mark);
            &&& completed(sentence + rest) == seq![sentence] + completed(text::trim_start(rest))
            &&& unfinished(sentence + rest) == unfinished(text::trim_start(rest))
        }),
{
    lemma_first_sentence(s, mark, n, rest);
    let sentence = s + Seq::new(n, |i: int| mark);
    assert(s.len() > 0 ==> sentence.first() == s.first());
    assert(s.len() == 0 ==> sentence.first() == mark);
    assert(sentence.last() == mark);
    assert(text::trim_start(sentence) == sentence);
    assert(text::trim(sentence) == sentence);
}

/// Each of the marks ends a sentence: in an empty buffer, a text of other
/// characters is handed out at once, whole and alone, when one of them follows.
/// A line break is a mark that is not itself handed out.
pub proof fn law_each_mark_ends_a_sentence(b: BufferState, s: Seq<char>, mark: char, now_ns: u64)
    requires
        b.pending.len() == 0,
        s.len() > 0,
        !text::is_white(s.first()),
        !text::is_white(s.last()),
        forall|i: int|
            0 <= i < s.len() ==> #[trigger] s[i] != '.' && s[i] != '!' && s[i] != '?' && s[i] != '\n'
                && s[i] != '\r' && s[i] != '。' && s[i] != '！' && s[i] != '？' && s[i] != '…' && s[i] != ';'
                && s[i] != '；',
        mark == '.' || mark == '!' || mark == '?' || mark == '\n' || mark == '\r' || mark == '。' || mark
            == '！' || mark == '？' || mark == '…' || mark == ';' || mark == '；',
    ensures
        handed_out(b, s.push(mark), now_ns) == seq![
            if mark == '\n' || mark == '\r' {
                s
            } else {
                s.push(mark)
            },
        ],
        ingested(b, s.push(mark), now_ns).pending.len() == 0,
        ingested(b, s.push(mark), now_ns).since is None,
{
    let delta = s.push(mark);
    let none = Seq::<char>::empty();
    lemma_first_sentence(s, mark, 1, none);
    let run = Seq::new(1, |i: int| mark);
    assert(s + run + none =~= delta);
    assert(s + run =~= delta);
    assert(text::trim_start(none) =~= none);
    assert(delta.first() == s.first());
    assert(text::trim_start(delta) == delta);
    text::lemma_trim_empty(delta);
    assert(joined(b.pending, delta) == delta);
    assert(completed(none) =~= Seq::<Seq<char>>::empty());
    assert(unfinished(none) == none);
    if mark == '\n' || mark == '\r' {
        assert(delta.drop_last() =~= s);
        assert(text::trim_end(delta) == text::trim_end(s));
        assert(text::trim(delta) == s);
    } else {
        assert(text::trim(delta) == delta);
    }
    assert(completed(delta) =~= seq![text::trim(delta)]);
}

/// What follows a sentence that is complete waits from now on, however long the
/// sentence itself had waited.
pub proof fn law_rest_waits_anew(b: BufferState, delta: Seq<char>, now_ns: u64)
    requires
        finished(b, delta).len() > 0,
    ensures
        handed_out(b, delta, now_ns) == finished(b, delta),
        ingested(b, delta, now_ns).pending.len() > 0 ==> ingested(b, delta, now_ns).since == Some(
            now_ns,
        ),
        ingested(b, delta, now_ns).pending.len() == 0 ==> ingested(b, delta, now_ns).since is None,
        ingested(b, delta, now_ns).window_ns == b.window_ns,
{
    let text = joined(b.pending, delta);
    if sentence_end(text) is None {
        assert(completed(text).len() == 0);
    }
}

/// Text that waits holds no mark at all.
pub proof fn law_pending_text_holds_no_mark(b: BufferState)
    requires
        buffer_ok(b),
    ensures
        forall|i: int|
            0 <= i < b.pending.len() ==> #[trigger] b.pending[i] != '.' && b.pending[i] != '!' && b.pending[i] != '?' && b.pending[i] != '\n'
                && b.pending[i] != '\r' && b.pending[i] != '。' && b.pending[i] != '！' && b.pending[i] != '？' && b.pending[i] != '…' && b.pending[i] != ';'
                && b.pending[i] != '；',
{
    lemma_sentence_end(b.pending);
}

/// No other character ends a sentence: text without a mark waits, for the whole
/// window from when it came, and is then handed out as one. Blank text only
/// lets the time be looked at.
pub proof fn law_text_waits_for_its_window(
    b: BufferState,
    s: Seq<char>,
    blank: Seq<char>,
    came_ns: u64,
    now_ns: u64,
)
    requires
        b.pending.len() == 0,
        b.since is None,
        b.window_ns > 0,
        s.len() > 0,
        !text::is_white(s.first()),
        !text::is_white(s.last()),
        forall|i: int|
            0 <= i < s.len() ==> #[trigger] s[i] != '.' && s[i] != '!' && s[i] != '?' && s[i] != '\n'
                && s[i] != '\r' && s[i] != '。' && s[i] != '！' && s[i] != '？' && s[i] != '…' && s[i] != ';'
                && s[i] != '；',
        forall|i: int| 0 <= i < blank.len() ==> text::is_white(#[trigger] blank[i]),
        came_ns <= now_ns,
    ensures
        handed_out(b, s, came_ns).len() == 0,
        ({
            let waiting = ingested(b, s, came_ns);
            &&& waiting.pending == s
            &&& waiting.since == Some(came_ns)
            &&& waiting.window_ns == b.window_ns
            &&& now_ns - came_ns < b.window_ns ==> handed_out(waiting, blank, now_ns).len() == 0
                && ingested(waiting, blank, now_ns) == waiting
            &&& now_ns - came_ns >= b.window_ns ==> handed_out(waiting, blank, now_ns) == seq![s]
                && ingested(waiting, blank, now_ns).pending.len() == 0
        }),
{
    assert(text::trim_start(s) == s);
    assert(text::trim(s) == s);
    lemma_sentence_end(s);
    assert(completed(s) =~= Seq::<Seq<char>>::empty());
    assert(unfinished(s) == s);
    text::lemma_trim_empty(blank);
}

/// Text that is added to waiting text does not make it wait longer: the window
/// runs from when the first of it came.
pub proof fn law_additions_do_not_restart_the_window(
    b: BufferState,
    came_ns: u64,
    more: Seq<char>,
    now_ns: u64,
)
    requires
        buffer_ok(b),
        b.since == Some(came_ns),
        came_ns <= now_ns,
        more.len() > 0,
        !text::is_white(more.first()),
        forall|i: int|
            0 <= i < more.len() ==> #[trigger] more[i] != '.' && more[i] != '!' && more[i] != '?' && more[i] != '\n'
                && more[i] != '\r' && more[i] != '。' && more[i] != '！' && more[i] != '？' && more[i] != '…' && more[i] != ';'
                && more[i] != '；',
    ensures
        now_ns - came_ns < b.window_ns ==> handed_out(b, more, now_ns).len() == 0 && ingested(
            b,
            more,
            now_ns,
        ).since == Some(came_ns),
        now_ns - came_ns >= b.window_ns ==> handed_out(b, more, now_ns).len() == 1 && ingested(
            b,
            more,
            now_ns,
        ).pending.len() == 0,
{
    text::lemma_trim_empty(more);
    assert(!text::is_white(more[0]));
    let text = joined(b.pending, more);
    lemma_sentence_end(b.pending);
    lemma_sentence_end(text);
    assert forall|i: int| 0 <= i < text.len() implies !ends_sentence(#[trigger] text[i]) by {
        let from = text.len() - more.len();
        if i >= from {
            assert(text[i] == more[i - from]);
        } else if i < b.pending.len() {
            assert(text[i] == b.pending[i]);
        } else {
            assert(text[i] == ' ');
        }
    }
    assert(completed(text) =~= Seq::<Seq<char>>::empty());
    assert(unfinished(text) == text);
}

/// Texts that follow one another are kept apart by one space, unless the second
/// begins with a mark, a comma or a colon, which cling to the word before.
pub proof fn law_words_are_kept_apart(pending: Seq<char>, delta: Seq<char>)
    requires
        pending.len() > 0,
        !text::is_white(pending.last()),
        forall|i: int|
            0 <= i < pending.len() ==> #[trigger] pending[i] != '.' && pending[i] != '!' && pending[i] != '?' && pending[i] != '\n'
                && pending[i] != '\r' && pending[i] != '。' && pending[i] != '！' && pending[i] != '？' && pending[i] != '…' && pending[i] != ';'
                && pending[i] != '；',
        delta.len() > 0,
        !text::is_white(delta.first()),
    ensures
        ({
            let mark = delta.first();
            joined(pending, delta) == if mark == '.' || mark == '!' || mark == '?' || mark == '\n' || mark == '\r' || mark == '。' || mark
                == '！' || mark == '？' || mark == '…' || mark == ';' || mark == '；' || mark == ','
                || mark == '，' || mark == ':' || mark == '：' {
                pending + delta
            } else {
                pending + seq![' '] + delta
            }
        }),
{
    text::lemma_trim_empty(delta);
    assert(!text::is_white(delta[0]));
    assert(text::trim_start(delta) == delta);
    assert(text::trim_end(pending) == pending);
    assert(pending[pending.len() - 1] == pending.last());
    assert(pending + seq![' '] + delta =~= pending.push(' ') + delta);
}

/// Whether `ch` ends a sentence.
pub fn is_sentence_boundary(ch: char) -> (r: bool)
    ensures
        r == ends_sentence(ch),
{
    ch == '.' || ch == '!' || ch == '?' || ch == '\n' || ch == '\r' || ch == '。' || ch == '！' || ch
        == '？' || ch == '…' || ch == ';' || ch == '；'
}

/// Whether a space belongs between the pending text and an addition.
pub fn needs_injected_space(existing: &[char], addition: &[char]) -> (r: bool)
    ensures
        r == wants_space(existing@, addition@),
{
    let mut last: usize = existing.len();
    while last > 0 && text::is_whitespace(existing[last - 1])
        invariant
            last <= existing@.len(),
            forall|j: int| last <= j < existing@.len() ==> text::is_white(#[trigger] existing@[j]),
        decreases last,
    {
        last -= 1;
    }
    let first = text::leading_white(addition);
    proof {
        text::lemma_trim_end_is_take(existing@, last as int);
        if last > 0 {
            assert(text::trim_end(existing@).last() == existing@[last - 1]);
        }
        if first < addition@.len() {
            assert(text::trim_start(addition@).first() == addition@[first as int]);
        }
    }
    if last == 0 || first == addition.len() {
        return false;
    }
    let l = existing[last - 1];
    let f = addition[first];
    !is_sentence_boundary(l) && !is_sentence_boundary(f) && !(f == ',' || f == '，' || f == ':' || f
        == '：')
}

/// Where the first sentence of `pending` ends, counted in characters.
pub fn find_sentence_boundary(pending: &[char]) -> (r: Option<usize>)
    ensures
        match r {
            Some(n) => sentence_end(pending@) == Some(n as nat) && 0 < n <= pending@.len(),
            None => sentence_end(pending@) is None,
        },
{
    let mut i: usize = 0;
    while i < pending.len()
        invariant
            i <= pending@.len(),
            forall|j: int| 0 <= j < i ==> !ends_sentence(#[trigger] pending@[j]),
        decreases pending.len() - i,
    {
        let ch = pending[i];
        if is_sentence_boundary(ch) {
            let mut end: usize = i + 1;
            while end < pending.len() && pending[end] == ch
                invariant
                    i < end <= pending@.len(),
                    forall|j: int| i <= j < end ==> #[trigger] pending@[j] == ch,
                decreases pending.len() - end,
            {
                end += 1;
            }
            proof {
                let s = pending@.skip(i as int);
                let n = (end - i) as nat;
                assert forall|j: int| 0 <= j < n implies #[trigger] s[j] == ch by {
                    assert(pending@[j + i] == ch);
                }
                lemma_run_len_at(s, ch, n);
                lemma_sentence_end_at(pending@, i as int);
            }
            return Some(end);
        }
        i += 1;
    }
    proof {
        lemma_sentence_end(pending@);
    }
    None
}

impl SentenceBuffer {
    /// An empty buffer that lets text wait for `window_ns` at most.
    pub fn new(window_ns: u64) -> (r: Self)
        ensures
            r@.pending == Seq::<char>::empty(),
            r@.since is None,
            r@.window_ns == window_ns,
            buffer_ok(r@),
    {
        SentenceBuffer { pending: Vec::new(), pending_since: None, window_ns }
    }

    /// Adds `delta`, which arrived at `now_ns`, and hands out the sentences
    /// that are ready.
    pub fn ingest(&mut self, delta: &str, now_ns: u64) -> (ready: Vec<String>)
        requires
            buffer_ok(old(self)@),
        ensures
            text::texts(ready@) == handed_out(old(self)@, delta@, now_ns),
            final(self)@ == ingested(old(self)@, delta@, now_ns),
            buffer_ok(final(self)@),
    {
        let ghost before = self@;
        proof {
            law_buffer_stays_ok(before, delta@, now_ns);
            text::lemma_trim_empty(delta@);
        }
        let chars = text::chars_of(delta);
        let first = text::leading_white(&chars);
        let mut ready: Vec<String> = Vec::new();
        if first < chars.len() {
            let ghost text = joined(before.pending, delta@);
            if self.pending.is_empty() {
                self.pending = text::copy_range(&chars, first, chars.len());
                assert(self.pending@ =~= text::trim_start(delta@));
            } else {
                if needs_injected_space(&self.pending, &chars) {
                    self.pending.push(' ');
                }
                text::append_chars(&mut self.pending, &chars);
            }
            assert(self.pending@ == text);
            if self.pending_since.is_none() {
                self.pending_since = Some(now_ns);
            }
            ready = self.take_completed_sentences(now_ns);
            assert(self@ == settled(before, delta@, now_ns));
        } else {
            assert(text::texts(ready@) =~= Seq::<Seq<char>>::empty());
            assert(self@ == settled(before, delta@, now_ns));
        }
        assert(text::texts(ready@) == finished(before, delta@));
        if ready.is_empty() {
            if let Some(since) = self.pending_since {
                let waited = if now_ns >= since {
                    now_ns - since
                } else {
                    0
                };
                if waited >= self.window_ns && !self.pending.is_empty() {
                    let chunk = text::trimmed(&self.pending);
                    ready.push(text::string_of(&chunk));
                    assert(text::texts(ready@) =~= seq![text::trim(self.pending@)]);
                    self.pending = Vec::new();
                    self.pending_since = None;
                    assert(self.pending@ =~= Seq::<char>::empty());
                }
            }
        }
        ready
    }

    /// Takes the complete sentences off the pending text.
    pub fn take_completed_sentences(&mut self, now_ns: u64) -> (ready: Vec<String>)
        ensures
            text::texts(ready@) == completed(old(self)@.pending),
            final(self)@.pending == unfinished(old(self)@.pending),
            final(self)@.window_ns == old(self)@.window_ns,
            final(self)@.since == if sentence_end(old(self)@.pending) is None {
                old(self)@.since
            } else if final(self)@.pending.len() == 0 {
                None
            } else {
                Some(now_ns)
            },
    {
        let ghost before = self@;
        let mut ready: Vec<String> = Vec::new();
        let mut done = false;
        assert(text::texts(ready@) + completed(self.pending@) =~= completed(before.pending));
        while !done
            invariant
                text::texts(ready@) + completed(self.pending@) == completed(before.pending),
                unfinished(self.pending@) == unfinished(before.pending),
                self.window_ns == before.window_ns,
                done ==> sentence_end(self.pending@) is None,
                self.pending@ == before.pending && self.pending_since == before.since || (
                sentence_end(before.pending) is Some && self.pending_since == if self.pending@.len()
                    == 0 {
                    None
                } else {
                    Some(now_ns)
                }),
            decreases self.pending@.len() + if done {
                0int
            } else {
                1
            },
        {
            match find_sentence_boundary(&self.pending) {
                None => {
                    done = true;
                },
                Some(end) => {
                    let ghost text = self.pending@;
                    let ghost so_far = text::texts(ready@);
                    let head = text::copy_range(&self.pending, 0, end);
                    assert(head@ =~= text.take(end as int));
                    let tail = text::copy_range(&self.pending, end, self.pending.len());
                    assert(tail@ =~= text.skip(end as int));
                    let chunk = text::trimmed(&head);
                    let start = text::leading_white(&tail);
                    let rest = text::copy_range(&tail, start, tail.len());
                    assert(rest@ =~= after_sentence(text, end as nat));
                    if !chunk.is_empty() {
                        ready.push(text::string_of(&chunk));
                        assert(text::texts(ready@) =~= so_far.push(chunk@));
                        assert(so_far + completed(text) =~= text::texts(ready@) + completed(rest@));
                    } else {
                        assert(text::texts(ready@) =~= so_far);
                    }
                    self.pending = rest;
                    if self.pending.is_empty() {
                        self.pending_since = None;
                    } else {
                        self.pending_since = Some(now_ns);
                    }
                },
            }
        }
        assert(completed(self.pending@) =~= Seq::<Seq<char>>::empty());
        assert(text::texts(ready@) =~= completed(before.pending));
        ready
    }
}

/// What the local decoder keeps between frames.
pub struct LocalDecoderState {
    pub sentence_buffer: SentenceBuffer,
}

impl LocalDecoderState {
    pub fn new(window_ns: u64) -> (r: Self)
        ensures
            r.sentence_buffer@.pending == Seq::<char>::empty(),
            r.sentence_buffer@.since is None,
            r.sentence_buffer@.window_ns == window_ns,
            buffer_ok(r.sentence_buffer@),
    {
        LocalDecoderState { sentence_buffer: SentenceBuffer::new(window_ns) }
    }
}

} // verus!
