//! Streaming with the local Whisper model: which samples are decoded, what of
//! the decoded text is new, and where the model comes from.
use vstd::prelude::*;

use crate::orchestrator::ascii_polish;
use crate::orchestrator::polisher::{word_len, words};
use crate::text;

verus! {

/// The model that is fetched when none is configured.
pub const DEFAULT_MODEL_URL: &'static str =
    "https://huggingface.co/ggerganov/whisper.cpp/resolve/main/ggml-base.en.bin";

/// The file name of the model in the cache.
pub const DEFAULT_MODEL_FILENAME: &'static str = "ggml-base.en.bin";

/// Samples per second that the model takes.
pub const SAMPLE_RATE: u64 = 16_000;

/// Samples of a decoded window that are decoded again with the next one.
pub const LOOKBACK_SAMPLES: usize = 3_840;

/// New samples that are decoded at once while someone speaks.
pub const MIN_STRIDE_SAMPLES: usize = 1_280;

/// New samples that are decoded at once otherwise.
pub const MAX_STRIDE_SAMPLES: usize = 3_200;

/// Whether the last `k` characters of `existing` are the first `k` of `addition`.
pub open spec fn overlaps(existing: Seq<char>, addition: Seq<char>, k: int) -> bool {
    &&& 0 <= k <= existing.len()
    &&& k <= addition.len()
    &&& existing.skip(existing.len() - k) == addition.take(k)
}

/// The longest overlap of at most `limit` characters.
pub open spec fn longest_overlap(existing: Seq<char>, addition: Seq<char>, limit: nat) -> nat
    decreases limit,
{
    if limit == 0 || overlaps(existing, addition, limit as int) {
        limit
    } else {
        longest_overlap(existing, addition, (limit - 1) as nat)
    }
}

/// The longest overlap of two texts.
pub open spec fn overlap(existing: Seq<char>, addition: Seq<char>) -> nat {
    longest_overlap(
        existing,
        addition,
        if existing.len() <= addition.len() {
            existing.len()
        } else {
            addition.len()
        },
    )
}

/// No overlap is longer than the longest one.
pub proof fn lemma_overlap_is_longest(existing: Seq<char>, addition: Seq<char>)
    ensures
        overlaps(existing, addition, overlap(existing, addition) as int),
        forall|k: int| #[trigger]
            overlaps(existing, addition, k) ==> k <= overlap(existing, addition),
{
    let limit = if existing.len() <= addition.len() {
        existing.len()
    } else {
        addition.len()
    };
    lemma_longest_overlap(existing, addition, limit);
}

proof fn lemma_longest_overlap(existing: Seq<char>, addition: Seq<char>, limit: nat)
    requires
        limit <= existing.len(),
        limit <= addition.len(),
    ensures
        overlaps(existing, addition, longest_overlap(existing, addition, limit) as int),
        longest_overlap(existing, addition, limit) <= limit,
        forall|k: int|
            k <= limit && #[trigger] overlaps(existing, addition, k) ==> k <= longest_overlap(
                existing,
                addition,
                limit,
            ),
    decreases limit,
{
    if limit == 0 {
        assert(existing.skip(existing.len() as int) =~= addition.take(0));
    } else if !overlaps(existing, addition, limit as int) {
        lemma_longest_overlap(existing, addition, (limit - 1) as nat);
        assert forall|k: int| k <= limit && #[trigger] overlaps(existing, addition, k) implies k
            <= longest_overlap(existing, addition, limit) by {
            assert(k != limit);
        }
    }
}

/// The part of `transcript` that was not emitted before.
pub open spec fn novel(emitted: Seq<char>, transcript: Seq<char>) -> Seq<char> {
    text::trim_start(transcript.skip(overlap(emitted, transcript) as int))
}

/// What has been emitted once `delta` is.
pub open spec fn extended(emitted: Seq<char>, delta: Seq<char>) -> Seq<char> {
    if delta.len() == 0 {
        emitted
    } else if emitted.len() > 0 && emitted.last() != ' ' {
        emitted.push(' ') + delta
    } else {
        emitted + delta
    }
}

/// The decoded segments, trimmed, blank ones left out, with one space between.
pub open spec fn transcript_of(segments: Seq<Seq<char>>) -> Seq<char>
    decreases segments.len(),
{
    if segments.len() == 0 {
        Seq::empty()
    } else {
        let before = transcript_of(segments.drop_last());
        let last = text::trim(segments.last());
        if last.len() == 0 {
            before
        } else if before.len() == 0 {
            last
        } else {
            before.push(' ') + last
        }
    }
}

/// A transcript has no whitespace at its ends.
proof fn lemma_transcript_is_trimmed(segments: Seq<Seq<char>>)
    ensures
        transcript_of(segments).len() > 0 ==> !text::is_white(transcript_of(segments).first())
            && !text::is_white(transcript_of(segments).last()),
    decreases segments.len(),
{
    if segments.len() > 0 {
        lemma_transcript_is_trimmed(segments.drop_last());
        text::lemma_trim_ends(segments.last());
    }
}

/// Emitted text only grows, and what it grows by is the text returned, spaces
/// aside. Text that ends what was emitted is not emitted again.
pub proof fn law_emitted_text_grows(emitted: Seq<char>, transcript: Seq<char>)
    ensures
        ({
            let delta = novel(emitted, transcript);
            let after = extended(emitted, delta);
            &&& after.len() >= emitted.len()
            &&& after.take(emitted.len() as int) == emitted
            &&& text::visible(after) == text::visible(emitted) + text::visible(delta)
            &&& overlaps(emitted, transcript, transcript.len() as int) ==> delta.len() == 0
                && after == emitted
        }),
{
    let delta = novel(emitted, transcript);
    let after = extended(emitted, delta);
    assert(after.take(emitted.len() as int) =~= emitted);
    if delta.len() == 0 {
        assert(delta =~= Seq::<char>::empty());
        assert(text::visible(emitted) + text::visible(delta) =~= text::visible(emitted));
    } else {
        text::lemma_visible_concat(emitted, delta);
        text::lemma_visible_concat(emitted.push(' '), delta);
        assert(emitted.push(' ').drop_last() =~= emitted);
    }
    lemma_overlap_is_longest(emitted, transcript);
    if overlaps(emitted, transcript, transcript.len() as int) {
        assert(overlap(emitted, transcript) == transcript.len());
        assert(transcript.skip(transcript.len() as int) =~= Seq::<char>::empty());
    }
}

/// Nothing of a decoded text is returned exactly when what was emitted already
/// ends with it.
pub proof fn law_only_repeated_text_is_dropped(emitted: Seq<char>, segments: Seq<Seq<char>>)
    ensures
        ({
            let transcript = transcript_of(segments);
            novel(emitted, transcript).len() == 0 <==> overlaps(
                emitted,
                transcript,
                transcript.len() as int,
            )
        }),
{
    let transcript = transcript_of(segments);
    law_emitted_text_grows(emitted, transcript);
    lemma_transcript_is_trimmed(segments);
    lemma_overlap_is_longest(emitted, transcript);
    let k = overlap(emitted, transcript) as int;
    let rest = transcript.skip(k);
    text::lemma_trim_empty(rest);
    if novel(emitted, transcript).len() == 0 && k < transcript.len() {
        assert(rest[rest.len() - 1] == transcript.last());
        assert(text::is_white(rest[rest.len() - 1]));
    }
}

/// Words with one space between them.
pub open spec fn spaced(list: Seq<Seq<char>>) -> Seq<char>
    decreases list.len(),
{
    if list.len() == 0 {
        Seq::empty()
    } else if list.len() == 1 {
        list.last()
    } else {
        spaced(list.drop_last()).push(' ') + list.last()
    }
}

/// Whether every text of a list is a word: it holds something, and no whitespace.
pub open spec fn all_words(list: Seq<Seq<char>>) -> bool {
    forall|k: int|
        0 <= k < list.len() ==> (#[trigger] list[k]).len() > 0 && forall|i: int|
            0 <= i < list[k].len() ==> !text::is_white(#[trigger] list[k][i])
}

/// The words of several texts, one text behind the other.
pub open spec fn words_of_all(list: Seq<Seq<char>>) -> Seq<Seq<char>>
    decreases list.len(),
{
    if list.len() == 0 {
        Seq::empty()
    } else {
        words_of_all(list.drop_last()) + words(list.last())
    }
}

pub proof fn lemma_words_of_nothing()
    ensures
        words(Seq::<char>::empty()) == Seq::<Seq<char>>::empty(),
{
    assert(text::trim_start(Seq::<char>::empty()).len() == 0);
}

proof fn lemma_word_len_up_to(a: Seq<char>, c: char, d: Seq<char>)
    requires
        text::is_white(c),
    ensures
        word_len(a.push(c) + d) == word_len(a),
    decreases a.len(),
{
    let s = a.push(c) + d;
    if a.len() > 0 && !text::is_white(a.first()) {
        assert(s.first() == a.first());
        assert(s.drop_first() =~= a.drop_first().push(c) + d);
        lemma_word_len_up_to(a.drop_first(), c, d);
    } else if a.len() == 0 {
        assert(s.first() == c);
    } else {
        assert(s.first() == a.first());
    }
}

/// Whitespace parts the words on its two sides.
pub proof fn lemma_white_parts_words(a: Seq<char>, c: char, d: Seq<char>)
    requires
        text::is_white(c),
    ensures
        words(a.push(c) + d) == words(a) + words(d),
    decreases a.len(),
{
    let s = a.push(c) + d;
    if a.len() == 0 {
        assert(s.first() == c);
        assert(s.drop_first() =~= d);
        assert(text::trim_start(s) == text::trim_start(d));
        assert(words(s) == words(d));
        assert(a =~= Seq::<char>::empty());
        lemma_words_of_nothing();
        assert(words(a) + words(d) =~= words(d));
    } else if text::is_white(a.first()) {
        let rest = a.drop_first();
        assert(s.first() == a.first());
        assert(s.drop_first() =~= rest.push(c) + d);
        assert(text::trim_start(s) == text::trim_start(rest.push(c) + d));
        assert(text::trim_start(a) == text::trim_start(rest));
        lemma_white_parts_words(rest, c, d);
        assert(words(s) == words(rest.push(c) + d));
        assert(words(a) == words(rest));
    } else {
        assert(s.first() == a.first());
        assert(text::trim_start(s) == s);
        assert(text::trim_start(a) == a);
        ascii_polish::lemma_word_len(a);
        lemma_word_len_up_to(a, c, d);
        let n = word_len(a) as int;
        let rest = a.skip(n);
        assert(s.take(n) =~= a.take(n));
        assert(s.skip(n) =~= rest.push(c) + d);
        lemma_white_parts_words(rest, c, d);
        assert(words(s) == seq![a.take(n)] + (words(rest) + words(d)));
        assert(words(a) == seq![a.take(n)] + words(rest));
        assert(words(s) =~= words(a) + words(d));
    }
}

pub proof fn lemma_words_of_trimmed(s: Seq<char>)
    ensures
        words(text::trim(s)) == words(s),
{
    text::lemma_trim_start_facts(s);
    let t = text::trim_start(s);
    assert(text::trim_start(t) == t);
    assert(words(t) == words(s));
    lemma_words_without_end(t);
}

proof fn lemma_words_without_end(t: Seq<char>)
    ensures
        words(text::trim_end(t)) == words(t),
    decreases t.len(),
{
    if t.len() > 0 && text::is_white(t.last()) {
        lemma_words_without_end(t.drop_last());
        lemma_white_end(t.drop_last(), t.last());
        assert(t.drop_last().push(t.last()) =~= t);
    }
}

proof fn lemma_white_end(a: Seq<char>, c: char)
    requires
        text::is_white(c),
    ensures
        words(a.push(c)) == words(a),
{
    let none = Seq::<char>::empty();
    lemma_white_parts_words(a, c, none);
    lemma_words_of_nothing();
    assert(a.push(c) + none =~= a.push(c));
    assert(words(a) + words(none) =~= words(a));
}

/// What is remembered as emitted holds the words of every delta, each as a word
/// of its own: no delta runs into what came before, and none is forgotten.
pub proof fn law_emitted_words_stay_apart(emitted: Seq<char>, delta: Seq<char>)
    ensures
        words(extended(emitted, delta)) == words(emitted) + words(delta),
        delta.len() > 0 && emitted.len() > 0 && emitted.last() != ' ' ==> extended(emitted, delta)
            == emitted + seq![' '] + delta,
{
    if delta.len() == 0 {
        assert(delta =~= Seq::<char>::empty());
        lemma_words_of_nothing();
        assert(words(emitted) + words(delta) =~= words(emitted));
    } else if emitted.len() == 0 {
        assert(emitted =~= Seq::<char>::empty());
        lemma_words_of_nothing();
        assert(emitted + delta =~= delta);
        assert(words(emitted) + words(delta) =~= words(delta));
    } else if emitted.last() == ' ' {
        let e = emitted.drop_last();
        assert(e.push(' ') =~= emitted);
        lemma_white_parts_words(e, ' ', delta);
        lemma_white_end(e, ' ');
    } else {
        lemma_white_parts_words(emitted, ' ', delta);
        assert(emitted + seq![' '] + delta =~= emitted.push(' ') + delta);
    }
}

/// A transcript holds the words of its segments, in order and each as a word of
/// its own, and where the segments are words, one space stands between two.
pub proof fn law_transcript_keeps_the_words(segments: Seq<Seq<char>>)
    ensures
        words(transcript_of(segments)) == words_of_all(segments),
        all_words(segments) ==> transcript_of(segments) == spaced(segments),
    decreases segments.len(),
{
    if segments.len() == 0 {
        lemma_words_of_nothing();
    } else {
        let head = segments.drop_last();
        law_transcript_keeps_the_words(head);
        let before = transcript_of(head);
        let last = text::trim(segments.last());
        lemma_words_of_trimmed(segments.last());
        if last.len() == 0 {
            assert(last =~= Seq::<char>::empty());
            lemma_words_of_nothing();
            assert(words_of_all(head) + words(last) =~= words_of_all(head));
        } else if before.len() == 0 {
            assert(before =~= Seq::<char>::empty());
            lemma_words_of_nothing();
            assert(words_of_all(head) + words(last) =~= words(last));
        } else {
            lemma_white_parts_words(before, ' ', last);
        }
        if all_words(segments) {
            assert forall|k: int| 0 <= k < head.len() implies (#[trigger] head[k]).len() > 0
                && forall|i: int| 0 <= i < head[k].len() ==> !text::is_white(#[trigger] head[k][i]) by {
                assert(segments[k].len() > 0);
                assert(head[k] == segments[k]);
            }
            let w = segments[segments.len() - 1];
            assert(w.len() > 0);
            assert(!text::is_white(w[0]) && !text::is_white(w[w.len() - 1]));
            assert(text::trim(w) == w);
            lemma_spaced_len(head);
        }
    }
}

proof fn lemma_spaced_len(list: Seq<Seq<char>>)
    requires
        all_words(list),
    ensures
        list.len() > 0 ==> spaced(list).len() > 0,
        list.len() > 0 ==> spaced(list).first() == list[0].first(),
{
    if list.len() > 0 {
        lemma_spaced_first(list);
        assert(list[0].len() > 0);
    }
}

/// A sentence begins with its first word.
proof fn lemma_spaced_first(list: Seq<Seq<char>>)
    requires
        list.len() > 0,
    ensures
        spaced(list).len() >= list[0].len(),
        spaced(list).take(list[0].len() as int) == list[0],
    decreases list.len(),
{
    if list.len() == 1 {
        assert(spaced(list).take(list[0].len() as int) =~= list[0]);
    } else {
        let head = list.drop_last();
        lemma_spaced_first(head);
        assert(head[0] == list[0]);
        assert(spaced(list).take(list[0].len() as int) =~= spaced(head).take(
            list[0].len() as int,
        ));
    }
}

proof fn lemma_spaced_concat(a: Seq<Seq<char>>, b: Seq<Seq<char>>)
    requires
        a.len() > 0,
        b.len() > 0,
    ensures
        spaced(a + b) == spaced(a).push(' ') + spaced(b),
    decreases b.len(),
{
    let all = a + b;
    assert(all.last() == b.last());
    assert(all.drop_last() =~= a + b.drop_last());
    if b.len() == 1 {
        assert(a + b.drop_last() =~= a);
    } else {
        lemma_spaced_concat(a, b.drop_last());
        assert(spaced(a).push(' ') + (spaced(b.drop_last()).push(' ') + b.last()) =~= (spaced(
            a,
        ).push(' ') + spaced(b.drop_last())).push(' ') + b.last());
    }
}

/// Words that were emitted last are not emitted again when they are decoded
/// again with new words behind them: what comes out is an end of the new words.
/// Unless what was emitted happens to end with an even longer start of the
/// transcript, all new words come out, and what is remembered are all words, one
/// space apart.
pub proof fn law_only_new_words_are_emitted(
    emitted: Seq<Seq<char>>,
    repeated: int,
    fresh: Seq<Seq<char>>,
)
    requires
        all_words(emitted),
        all_words(fresh),
        0 <= repeated < emitted.len(),
        fresh.len() > 0,
    ensures
        ({
            let before = spaced(emitted);
            let again = spaced(emitted.skip(repeated));
            let transcript = spaced(emitted.skip(repeated) + fresh);
            let delta = novel(before, transcript);
            &&& delta.len() <= spaced(fresh).len()
            &&& delta == spaced(fresh).skip(spaced(fresh).len() - delta.len())
            &&& (forall|k: int|
                again.len() < k <= before.len() && k <= transcript.len() ==> #[trigger] before.skip(
                    before.len() - k,
                ) != transcript.take(k)) ==> delta == spaced(fresh) && extended(before, delta)
                == spaced(emitted + fresh)
        }),
{
    let before = spaced(emitted);
    let kept = emitted.skip(repeated);
    let again = spaced(kept);
    let new = spaced(fresh);
    let transcript = spaced(kept + fresh);
    let delta = novel(before, transcript);
    lemma_spaced_concat(kept, fresh);
    assert forall|k: int| 0 <= k < kept.len() implies (#[trigger] kept[k]).len() > 0 && forall|
        i: int,
    |
        0 <= i < kept[k].len() ==> !text::is_white(#[trigger] kept[k][i]) by {
        assert(emitted[k + repeated].len() > 0);
        assert(kept[k] == emitted[k + repeated]);
    }
    lemma_spaced_len(kept);
    lemma_spaced_len(fresh);
    assert(fresh[0].len() > 0 && !text::is_white(fresh[0][0]));
    assert(!text::is_white(new.first()));
    // The words that were emitted last are an overlap.
    let n = again.len() as int;
    if repeated > 0 {
        lemma_spaced_concat(emitted.take(repeated), kept);
        assert(emitted.take(repeated) + kept =~= emitted);
    } else {
        assert(kept =~= emitted);
    }
    assert(before.skip(before.len() - n) =~= again);
    assert(transcript.take(n) =~= again);
    assert(overlaps(before, transcript, n));
    lemma_overlap_is_longest(before, transcript);
    let k = overlap(before, transcript) as int;
    assert(k >= n);
    let rest = transcript.skip(k);
    text::lemma_trim_start_facts(rest);
    if k == n {
        assert(rest.first() == ' ');
        assert(rest.drop_first() =~= new);
        assert(text::trim_start(new) == new);
        assert(delta == new);
        assert(new.skip(0) =~= new);
    } else {
        assert(rest =~= new.skip(k - n - 1));
        assert(delta =~= new.skip(new.len() - delta.len()));
    }
    if forall|j: int|
        again.len() < j <= before.len() && j <= transcript.len() ==> #[trigger] before.skip(
            before.len() - j,
        ) != transcript.take(j) {
        if k > n {
            assert(overlaps(before, transcript, k));
            assert(before.skip(before.len() - k) != transcript.take(k));
        }
        lemma_spaced_concat(emitted, fresh);
        lemma_spaced_last(emitted);
        let w = emitted[emitted.len() - 1];
        assert(w.len() > 0 && !text::is_white(w[w.len() - 1]));
    }
}

/// A sentence ends with its last word.
proof fn lemma_spaced_last(list: Seq<Seq<char>>)
    requires
        list.len() > 0,
        list.last().len() > 0,
    ensures
        spaced(list).len() > 0,
        spaced(list).last() == list.last().last(),
{
}

/// What is dropped of a transcript is its longest start with which the emitted
/// text ends, wherever in a word that falls, and the whitespace behind it.
pub proof fn law_longest_repetition_is_dropped(emitted: Seq<char>, transcript: Seq<char>, k: int)
    requires
        0 <= k <= emitted.len(),
        k <= transcript.len(),
        emitted.skip(emitted.len() - k) == transcript.take(k),
        forall|j: int|
            k < j <= emitted.len() && j <= transcript.len() ==> #[trigger] emitted.skip(
                emitted.len() - j,
            ) != transcript.take(j),
    ensures
        novel(emitted, transcript) == text::trim_start(transcript.skip(k)),
{
    lemma_overlap_is_longest(emitted, transcript);
    let n = overlap(emitted, transcript) as int;
    assert(overlaps(emitted, transcript, k));
    if n > k {
        assert(overlaps(emitted, transcript, n));
        assert(emitted.skip(emitted.len() - n) != transcript.take(n));
    }
}

/// A segment that says something adds itself, trimmed, and one space before it
/// where something came before; a blank one adds nothing.
pub proof fn law_segments_are_put_together(segments: Seq<Seq<char>>, last: Seq<char>)
    ensures
        ({
            let before = transcript_of(segments);
            let after = transcript_of(segments.push(last));
            let blank = forall|i: int| 0 <= i < last.len() ==> text::is_white(#[trigger] last[i]);
            &&& blank ==> after == before
            &&& !blank && before.len() == 0 ==> after == text::trim(last)
            &&& !blank && before.len() > 0 ==> after == before + seq![' '] + text::trim(last)
        }),
{
    let all = segments.push(last);
    assert(all.drop_last() =~= segments);
    text::lemma_trim_empty(last);
    let before = transcript_of(segments);
    assert(before.push(' ') + text::trim(last) =~= before + seq![' '] + text::trim(last));
}

/// A transcript that does not begin with what was emitted last is emitted whole.
pub proof fn law_unrelated_text_is_emitted_whole(emitted: Seq<char>, segments: Seq<Seq<char>>)
    requires
        forall|k: int|
            1 <= k <= emitted.len() && k <= transcript_of(segments).len()
                ==> #[trigger] emitted.skip(emitted.len() - k) != transcript_of(segments).take(k),
    ensures
        novel(emitted, transcript_of(segments)) == transcript_of(segments),
{
    let transcript = transcript_of(segments);
    lemma_overlap_is_longest(emitted, transcript);
    lemma_transcript_is_trimmed(segments);
    let k = overlap(emitted, transcript) as int;
    if k >= 1 {
        assert(emitted.skip(emitted.len() - k) != transcript.take(k));
    }
    assert(transcript.skip(0) =~= transcript);
    assert(text::trim_start(transcript) == transcript);
}

/// The number of characters by which the end of `existing` and the start of
/// `new_text` overlap at most.
pub fn suffix_prefix_overlap(existing: &[char], new_text: &[char]) -> (r: usize)
    ensures
        r == overlap(existing@, new_text@),
        overlaps(existing@, new_text@, r as int),
{
    let mut k: usize = if existing.len() <= new_text.len() {
        existing.len()
    } else {
        new_text.len()
    };
    proof {
        lemma_overlap_is_longest(existing@, new_text@);
    }
    while k > 0
        invariant
            k <= existing@.len(),
            k <= new_text@.len(),
            longest_overlap(existing@, new_text@, k as nat) == overlap(existing@, new_text@),
            overlaps(existing@, new_text@, overlap(existing@, new_text@) as int),
        decreases k,
    {
        let tail = text::copy_range(existing, existing.len() - k, existing.len());
        let head = text::copy_range(new_text, 0, k);
        assert(tail@ =~= existing@.skip(existing@.len() - k));
        assert(head@ =~= new_text@.take(k as int));
        if text::same_text(&tail, &head) {
            return k;
        }
        k -= 1;
    }
    0
}

/// Whether enough samples wait to be decoded.
pub open spec fn is_due(waiting: nat, speechy: bool) -> bool {
    waiting >= if speechy {
        MIN_STRIDE_SAMPLES
    } else {
        MAX_STRIDE_SAMPLES
    }
}

/// The window to decode: the end of the last one and the waiting samples.
pub open spec fn window_of<T>(tail: Seq<T>, pending: Seq<T>) -> Seq<T> {
    tail + pending
}

/// The part of a window that is decoded again with the next one.
pub open spec fn kept_of<T>(window: Seq<T>) -> Seq<T> {
    if window.len() <= LOOKBACK_SAMPLES {
        window
    } else {
        window.skip(window.len() - LOOKBACK_SAMPLES)
    }
}

/// Decoding waits for 80 milliseconds of speech or 200 of anything else. Each
/// window goes back 240 milliseconds into the one before, or to its start, and
/// then holds all that came since: no sample is left out.
pub proof fn law_windows_overlap<T>(before: Seq<T>, fresh: Seq<T>, speechy: bool)
    ensures
        is_due(fresh.len(), true) <==> fresh.len() * 1000 >= 80 * 16_000,
        is_due(fresh.len(), false) <==> fresh.len() * 1000 >= 200 * 16_000,
        ({
            let window = window_of(kept_of(before), fresh);
            let back = window.len() - fresh.len();
            &&& back == if before.len() * 1000 <= 240 * 16_000 {
                before.len() as int
            } else {
                3_840
            }
            &&& window.skip(back) == fresh
            &&& window.take(back) == before.skip(before.len() - back)
        }),
{
    let window = window_of(kept_of(before), fresh);
    let back = window.len() - fresh.len();
    assert(window.skip(back) =~= fresh);
    assert(window.take(back) =~= before.skip(before.len() - back));
}

/// The buffers of a streaming decoder.
pub struct StreamingState<T> {
    /// The end of the window decoded last.
    pub tail: Vec<T>,
    /// Samples that wait for decoding.
    pub pending: Vec<T>,
    /// The text emitted so far.
    pub emitted: Vec<char>,
}

impl<T: Copy> StreamingState<T> {
    pub open spec fn wf(&self) -> bool {
        self.tail@.len() <= LOOKBACK_SAMPLES
    }

    pub fn new() -> (r: Self)
        ensures
            r.wf(),
            r.tail@ == Seq::<T>::empty(),
            r.pending@ == Seq::<T>::empty(),
            r.emitted@ == Seq::<char>::empty(),
    {
        StreamingState { tail: Vec::new(), pending: Vec::new(), emitted: Vec::new() }
    }

    /// Takes a frame in. Once enough samples wait, returns the window to decode:
    /// the end of the last one and the waiting samples.
    pub fn push_frame(&mut self, frame: &[T], speechy: bool) -> (window: Option<Vec<T>>)
        ensures
            final(self).tail == old(self).tail,
            final(self).emitted == old(self).emitted,
            final(self).pending@ == old(self).pending@ + frame@,
            window is Some <==> frame@.len() > 0 && is_due(
                old(self).pending@.len() + frame@.len(),
                speechy,
            ),
            window matches Some(w) ==> w@ == window_of(
                old(self).tail@,
                old(self).pending@ + frame@,
            ),
            match window {
                Some(w) => {
                    &&& frame@.len() > 0
                    &&& final(self).pending@.len() >= if speechy {
                        MIN_STRIDE_SAMPLES
                    } else {
                        MAX_STRIDE_SAMPLES
                    }
                    &&& w@ == final(self).tail@ + final(self).pending@
                },
                None => frame@.len() == 0 || final(self).pending@.len() < if speechy {
                    MIN_STRIDE_SAMPLES
                } else {
                    MAX_STRIDE_SAMPLES
                },
            },
    {
        let ghost before = self.pending@;
        let mut i: usize = 0;
        while i < frame.len()
            invariant
                i <= frame@.len(),
                self.tail == old(self).tail,
                self.emitted == old(self).emitted,
                self.pending@ == before + frame@.take(i as int),
            decreases frame.len() - i,
        {
            self.pending.push(frame[i]);
            i += 1;
            assert(self.pending@ =~= before + frame@.take(i as int));
        }
        assert(frame@.take(frame@.len() as int) =~= frame@);
        if frame.len() == 0 {
            return None;
        }
        let stride = if speechy {
            MIN_STRIDE_SAMPLES
        } else {
            MAX_STRIDE_SAMPLES
        };
        if self.pending.len() < stride {
            return None;
        }
        let mut window: Vec<T> = Vec::new();
        let mut j: usize = 0;
        while j < self.tail.len()
            invariant
                j <= self.tail@.len(),
                window@ == self.tail@.take(j as int),
            decreases self.tail.len() - j,
        {
            window.push(self.tail[j]);
            j += 1;
            assert(window@ =~= self.tail@.take(j as int));
        }
        assert(window@ =~= self.tail@);
        let mut k: usize = 0;
        while k < self.pending.len()
            invariant
                k <= self.pending@.len(),
                window@ == self.tail@ + self.pending@.take(k as int),
            decreases self.pending.len() - k,
        {
            window.push(self.pending[k]);
            k += 1;
            assert(window@ =~= self.tail@ + self.pending@.take(k as int));
        }
        assert(window@ =~= self.tail@ + self.pending@);
        Some(window)
    }

    /// `window` was decoded: nothing waits any more, and the end of the window
    /// is kept.
    pub fn decoded(&mut self, window: &[T])
        ensures
            final(self).wf(),
            final(self).pending@ == Seq::<T>::empty(),
            final(self).emitted == old(self).emitted,
            final(self).tail@ == kept_of(window@),
            window@.len() <= LOOKBACK_SAMPLES ==> final(self).tail@ == window@,
            window@.len() > LOOKBACK_SAMPLES ==> final(self).tail@ == window@.skip(
                window@.len() - LOOKBACK_SAMPLES,
            ),
    {
        self.pending = Vec::new();
        let from = if window.len() > LOOKBACK_SAMPLES {
            window.len() - LOOKBACK_SAMPLES
        } else {
            0
        };
        let mut tail: Vec<T> = Vec::new();
        let mut i: usize = from;
        while i < window.len()
            invariant
                from <= i <= window@.len(),
                tail@ == window@.subrange(from as int, i as int),
            decreases window.len() - i,
        {
            tail.push(window[i]);
            i += 1;
            assert(tail@ =~= window@.subrange(from as int, i as int));
        }
        assert(tail@ =~= window@.skip(from as int));
        assert(window@.skip(0) =~= window@);
        self.tail = tail;
    }

    /// Takes the decoded segments in and returns what is new in them.
    pub fn accept_segments(&mut self, segments: &Vec<String>) -> (delta: String)
        ensures
            final(self).tail == old(self).tail,
            final(self).pending == old(self).pending,
            delta@ == novel(old(self).emitted@, transcript_of(text::texts(segments@))),
            final(self).emitted@ == extended(old(self).emitted@, delta@),
    {
        let mut transcript: Vec<char> = Vec::new();
        let ghost all = text::texts(segments@);
        let mut i: usize = 0;
        while i < segments.len()
            invariant
                i <= segments@.len(),
                all == text::texts(segments@),
                self.tail == old(self).tail,
                self.pending == old(self).pending,
                self.emitted == old(self).emitted,
                transcript@ == transcript_of(all.take(i as int)),
            decreases segments.len() - i,
        {
            let segment = text::trimmed(&text::chars_of(segments[i].as_str()));
            assert(all.take(i + 1).drop_last() =~= all.take(i as int));
            assert(all.take(i + 1).last() == segments@[i as int]@);
            if !segment.is_empty() {
                if !transcript.is_empty() {
                    transcript.push(' ');
                }
                let ghost before = transcript@;
                text::append_chars(&mut transcript, &segment);
                assert(before.len() == 0 ==> before + segment@ =~= segment@);
            }
            i += 1;
        }
        assert(all.take(all.len() as int) =~= all);
        let k = suffix_prefix_overlap(&self.emitted, &transcript);
        let rest = text::copy_range(&transcript, k, transcript.len());
        assert(rest@ =~= transcript@.skip(k as int));
        let start = text::leading_white(&rest);
        let delta = text::copy_range(&rest, start, rest.len());
        assert(delta@ =~= rest@.skip(start as int));
        if !delta.is_empty() {
            if self.emitted.len() > 0 && self.emitted[self.emitted.len() - 1] != ' ' {
                self.emitted.push(' ');
            }
            text::append_chars(&mut self.emitted, &delta);
        }
        text::string_of(&delta)
    }
}

/// The duration of a window, in milliseconds, that the model is told: at least
/// one.
pub fn window_duration_ms(samples: u64) -> (r: i32)
    requires
        samples * 1_000 / 16_000 <= i32::MAX,
    ensures
        r == if samples / 16 == 0 {
            1
        } else {
            samples / 16
        },
{
    let ms = samples / 16;
    if ms == 0 {
        1
    } else {
        ms as i32
    }
}

/// Whether a setting is switched on.
pub open spec fn switched_on(value: Seq<char>) -> bool {
    let v = text::ascii_lower_text(text::trim(value));
    v == "1"@ || v == "true"@ || v == "yes"@ || v == "on"@
}

fn is_switched_on(value: &str) -> (r: bool)
    ensures
        r == switched_on(value@),
{
    let lower = text::to_ascii_lower(&text::trimmed(&text::chars_of(value)));
    text::same_text(&lower, &text::chars_of("1")) || text::same_text(
        &lower,
        &text::chars_of("true"),
    ) || text::same_text(&lower, &text::chars_of("yes")) || text::same_text(
        &lower,
        &text::chars_of("on"),
    )
}

/// Whether a missing model may be fetched. The setting that disables it goes
/// before the one that enables it; with neither, it may.
pub open spec fn may_download(disable: Option<Seq<char>>, enable: Option<Seq<char>>) -> bool {
    match disable {
        Some(v) => !switched_on(v),
        None => match enable {
            Some(v) => switched_on(v),
            None => true,
        },
    }
}

/// Whether a missing model may be fetched, by the two settings.
pub fn auto_download_enabled(disable: &Option<String>, enable: &Option<String>) -> (r: bool)
    ensures
        r == may_download(text::opt_text(*disable), text::opt_text(*enable)),
{
    match disable {
        Some(v) => !is_switched_on(v.as_str()),
        None => match enable {
            Some(v) => is_switched_on(v.as_str()),
            None => true,
        },
    }
}

/// Where the model comes from.
#[derive(Debug, Clone, Copy, PartialEq, Eq, Structural)]
pub enum ModelSource {
    /// The configured file.
    Configured,
    /// The configured file does not exist.
    ConfiguredMissing,
    /// No file is configured, and none may be fetched.
    DownloadDisabled,
    /// The file in the cache.
    Cached,
    /// The file is fetched into the cache.
    Download,
}

/// Where the model comes from, by whether a configured file exists, whether one
/// may be fetched, and whether one is in the cache.
pub open spec fn source_of(configured: Option<bool>, allowed: bool, cached: bool) -> ModelSource {
    if configured == Some(true) {
        ModelSource::Configured
    } else if configured == Some(false) {
        ModelSource::ConfiguredMissing
    } else if !allowed {
        ModelSource::DownloadDisabled
    } else if cached {
        ModelSource::Cached
    } else {
        ModelSource::Download
    }
}

/// A configured file is used or missed, never replaced. A model is fetched only
/// where none is configured, it is allowed, and none is in the cache.
pub proof fn law_model_is_fetched_only_if_needed(
    configured: Option<bool>,
    allowed: bool,
    cached: bool,
)
    ensures
        source_of(configured, allowed, cached) == ModelSource::Configured <==> configured
            == Some(true),
        source_of(configured, allowed, cached) == ModelSource::ConfiguredMissing <==> configured
            == Some(false),
        source_of(configured, allowed, cached) == ModelSource::Download <==> configured is None
            && allowed && !cached,
        source_of(configured, allowed, cached) == ModelSource::Cached <==> configured is None
            && allowed && cached,
        source_of(configured, allowed, cached) == ModelSource::DownloadDisabled
            <==> configured is None && !allowed,
{
    match configured {
        Some(found) => {
            assert(found ==> configured == Some(true));
            assert(!found ==> configured == Some(false));
        },
        None => {},
    }
}

/// Decides where the model comes from. `configured` says of a configured file
/// whether it exists.
pub fn resolve_model(
    configured: Option<bool>,
    disable: &Option<String>,
    enable: &Option<String>,
    cached: bool,
) -> (r: ModelSource)
    ensures
        r == source_of(
            configured,
            may_download(text::opt_text(*disable), text::opt_text(*enable)),
            cached,
        ),
        r == match configured {
            Some(true) => ModelSource::Configured,
            Some(false) => ModelSource::ConfiguredMissing,
            None => if !may_download(text::opt_text(*disable), text::opt_text(*enable)) {
                ModelSource::DownloadDisabled
            } else if cached {
                ModelSource::Cached
            } else {
                ModelSource::Download
            },
        },
{
    match configured {
        Some(exists) => if exists {
            ModelSource::Configured
        } else {
            ModelSource::ConfiguredMissing
        },
        None => if !auto_download_enabled(disable, enable) {
            ModelSource::DownloadDisabled
        } else if cached {
            ModelSource::Cached
        } else {
            ModelSource::Download
        },
    }
}

/// The address that the model is fetched from.
pub fn model_url(configured: Option<String>) -> (r: String)
    ensures
        r@ == match configured {
            Some(url) => url@,
            None => "https://huggingface.co/ggerganov/whisper.cpp/resolve/main/ggml-base.en.bin"@,
        },
{
    match configured {
        Some(url) => url,
        None => DEFAULT_MODEL_URL.to_owned(),
    }
}

/// Whether an HTTP status means that the model is on its way.
pub fn download_accepted(status: u16) -> (r: bool)
    ensures
        r == (200 <= status < 300),
{
    200 <= status && status < 300
}

/// A setting is on when it says so in one of four words, in whatever case and
/// with whitespace around it. What disables a download goes before what enables
/// it, and with neither a model may be fetched.
pub proof fn law_settings_are_understood(
    value: Seq<char>,
    disable: Option<Seq<char>>,
    enable: Option<Seq<char>>,
)
    ensures
        ({
            let word = text::ascii_lower_text(text::trim(value));
            switched_on(value) <==> word == "1"@ || word == "true"@ || word == "yes"@ || word
                == "on"@
        }),
        may_download(None, None),
        disable matches Some(v) ==> (may_download(disable, enable) <==> !switched_on(v)),
        disable is None ==> (enable matches Some(v) ==> (may_download(disable, enable)
            <==> switched_on(v))),
{
}

} // verus!
