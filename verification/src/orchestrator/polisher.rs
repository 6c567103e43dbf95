//! The built-in polisher: small repairs of a raw sentence that need no model.
use vstd::prelude::*;

use crate::orchestrator::ascii_polish;
use crate::text;

verus! {

/// What `char::is_alphabetic` returns.
pub uninterp spec fn alphabetic(c: char) -> bool;

/// What `char::is_lowercase` returns.
pub uninterp spec fn lowercase(c: char) -> bool;

/// The characters that `char::to_uppercase` yields.
pub uninterp spec fn upper_of(c: char) -> Seq<char>;

/// `char::is_alphabetic`: whether `c` has Unicode's `Alphabetic` property. Of
/// the ASCII characters exactly the letters have it.
#[verifier::external_body]
fn is_alphabetic(c: char) -> (r: bool)
    ensures
        r == alphabetic(c),
        c <= '\u{7f}' ==> r == ('a' <= c <= 'z' || 'A' <= c <= 'Z'),
{
    c.is_alphabetic()
}

/// `char::is_lowercase`: whether `c` has Unicode's `Lowercase` property. Of the
/// ASCII characters exactly the small letters have it.
#[verifier::external_body]
fn is_lowercase(c: char) -> (r: bool)
    ensures
        r == lowercase(c),
        c <= '\u{7f}' ==> r == ('a' <= c <= 'z'),
{
    c.is_lowercase()
}

/// `char::to_uppercase`: the characters of the upper-case form of `c`. An ASCII
/// small letter becomes its capital.
#[verifier::external_body]
fn to_uppercase(c: char) -> (r: Vec<char>)
    ensures
        r@ == upper_of(c),
        'a' <= c <= 'z' ==> r@ == seq![((c as int) - 32) as char],
{
    c.to_uppercase().collect()
}

/// Turns a raw sentence into one that is fit for reading.
pub trait SentencePolisher {
    /// The polished form of `sentence`, or why there is none.
    fn polish(&self, sentence: &str) -> Result<String, String>;
}

/// The polisher that works by rules alone.
#[derive(Debug, Clone, Copy, PartialEq, Eq, Structural)]
pub struct LightweightSentencePolisher {}

/// The length of the word at the start of `s`.
pub open spec fn word_len(s: Seq<char>) -> nat
    decreases s.len(),
{
    if s.len() > 0 && !text::is_white(s.first()) {
        1 + word_len(s.drop_first())
    } else {
        0
    }
}

/// The words of `s`: its longest parts without whitespace.
pub open spec fn words(s: Seq<char>) -> Seq<Seq<char>>
    decreases s.len(),
    via words_decreases
{
    let t = text::trim_start(s);
    if t.len() == 0 {
        Seq::empty()
    } else {
        seq![t.take(word_len(t) as int)] + words(t.skip(word_len(t) as int))
    }
}

#[via_fn]
proof fn words_decreases(s: Seq<char>) {
    text::lemma_trim_start_facts(s);
    lemma_word_len(text::trim_start(s));
}

proof fn lemma_word_len(s: Seq<char>)
    ensures
        word_len(s) <= s.len(),
        s.len() > 0 && !text::is_white(s.first()) ==> word_len(s) > 0,
    decreases s.len(),
{
    if s.len() > 0 && !text::is_white(s.first()) {
        lemma_word_len(s.drop_first());
    }
}

/// `s` without leading control characters.
pub open spec fn strip_start(s: Seq<char>) -> Seq<char>
    decreases s.len(),
{
    if s.len() > 0 && text::is_control_char(s.first()) {
        strip_start(s.drop_first())
    } else {
        s
    }
}

/// `s` without trailing control characters.
pub open spec fn strip_end(s: Seq<char>) -> Seq<char>
    decreases s.len(),
{
    if s.len() > 0 && text::is_control_char(s.last()) {
        strip_end(s.drop_last())
    } else {
        s
    }
}

/// The words without control characters at their ends, empty ones left out.
pub open spec fn printable(list: Seq<Seq<char>>) -> Seq<Seq<char>>
    decreases list.len(),
{
    if list.len() == 0 {
        Seq::empty()
    } else {
        let word = strip_end(strip_start(list.last()));
        if word.len() > 0 {
            printable(list.drop_last()).push(word)
        } else {
            printable(list.drop_last())
        }
    }
}

/// Whether a word only fills a pause.
pub open spec fn is_filler(word: Seq<char>) -> bool {
    let w = text::ascii_lower_text(word);
    w == "uh"@ || w == "um"@ || w == "erm"@ || w == "ah"@ || w == "eh"@ || w == "hmm"@
}

/// The words without the fillers at the start.
pub open spec fn without_fillers(list: Seq<Seq<char>>) -> Seq<Seq<char>>
    decreases list.len(),
{
    if list.len() > 0 && is_filler(list.first()) {
        without_fillers(list.drop_first())
    } else {
        list
    }
}

/// A word with the English first person in its usual spelling.
pub open spec fn spelled(word: Seq<char>) -> Seq<char> {
    let w = text::ascii_lower_text(word);
    if w == "i"@ {
        "I"@
    } else if w == "i'm"@ {
        "I'm"@
    } else if w == "i'd"@ {
        "I'd"@
    } else if w == "i've"@ {
        "I've"@
    } else if w == "i'll"@ {
        "I'll"@
    } else {
        word
    }
}

/// The words, spelled as usual, with one space between them.
pub open spec fn sentence_of(list: Seq<Seq<char>>) -> Seq<char>
    decreases list.len(),
{
    if list.len() == 0 {
        Seq::empty()
    } else if list.len() == 1 {
        spelled(list.last())
    } else {
        sentence_of(list.drop_last()).push(' ') + spelled(list.last())
    }
}

/// `s` without the spaces that stand directly before `mark`.
pub open spec fn closed_up(s: Seq<char>, mark: char) -> Seq<char>
    decreases s.len(),
{
    if s.len() == 0 {
        s
    } else if s.len() >= 2 && s[s.len() - 2] == ' ' && s.last() == mark {
        closed_up(s.drop_last().drop_last(), mark).push(mark)
    } else {
        closed_up(s.drop_last(), mark).push(s.last())
    }
}

/// `s` without the spaces before the ASCII punctuation marks.
pub open spec fn tidy(s: Seq<char>) -> Seq<char> {
    closed_up(
        closed_up(
            closed_up(closed_up(closed_up(closed_up(s, ','), '.'), '!'), '?'),
            ';',
        ),
        ':',
    )
}

/// `s` with its first letter made a capital, if it is a small one.
pub open spec fn capitalized(s: Seq<char>) -> Seq<char>
    decreases s.len(),
{
    if s.len() == 0 {
        s
    } else if alphabetic(s.first()) {
        if lowercase(s.first()) && upper_of(s.first()).len() > 0 {
            s.update(0, upper_of(s.first()).first())
        } else {
            s
        }
    } else {
        seq![s.first()] + capitalized(s.drop_first())
    }
}

/// Whether a text ends like a sentence.
pub open spec fn is_closed(s: Seq<char>) -> bool {
    s.len() > 0 && (s.last() == '.' || s.last() == '!' || s.last() == '?' || s.last() == '。'
        || s.last() == '！' || s.last() == '？' || s.last() == '…')
}

/// `s` with a full stop unless it ends like a sentence.
pub open spec fn closed_sentence(s: Seq<char>) -> Seq<char> {
    if is_closed(s) {
        s
    } else {
        s.push('.')
    }
}

/// The polished form of a sentence. Blank text stays empty.
pub open spec fn normalized(s: Seq<char>) -> Seq<char> {
    if text::trim(s).len() == 0 {
        Seq::empty()
    } else {
        closed_sentence(
            capitalized(tidy(sentence_of(without_fillers(printable(words(text::trim(s))))))),
        )
    }
}

/// The texts of several character vectors.
pub open spec fn char_lists(list: Seq<Vec<char>>) -> Seq<Seq<char>> {
    list.map_values(|w: Vec<char>| w@)
}

/// A polished sentence is never left open: blank input stays empty, and
/// everything else ends with a sentence mark.
pub proof fn law_polished_text_is_closed(s: Seq<char>)
    ensures
        normalized(s).len() == 0 <==> text::trim(s).len() == 0,
        normalized(s).len() > 0 ==> is_closed(normalized(s)),
{
}

fn split_words(chars: &[char]) -> (r: Vec<Vec<char>>)
    ensures
        char_lists(r@) == words(chars@),
{
    let mut out: Vec<Vec<char>> = Vec::new();
    let mut i: usize = 0;
    assert(chars@.skip(0) =~= chars@);
    assert(char_lists(out@) + words(chars@.skip(0)) =~= words(chars@));
    while i < chars.len()
        invariant
            i <= chars@.len(),
            char_lists(out@) + words(chars@.skip(i as int)) == words(chars@),
        decreases chars.len() - i,
    {
        let ghost tail = chars@.skip(i as int);
        if text::is_whitespace(chars[i]) {
            proof {
                assert(tail.first() == chars@[i as int]);
                assert(tail.drop_first() =~= chars@.skip(i + 1));
                assert(text::trim_start(tail) == text::trim_start(chars@.skip(i + 1)));
                assert(words(tail) == words(chars@.skip(i + 1)));
            }
            i += 1;
        } else {
            let mut end: usize = i + 1;
            assert(tail.drop_first() =~= chars@.skip(i + 1));
            while end < chars.len() && !text::is_whitespace(chars[end])
                invariant
                    i < end <= chars@.len(),
                    tail == chars@.skip(i as int),
                    word_len(tail) == end - i + word_len(chars@.skip(end as int)),
                decreases chars.len() - end,
            {
                assert(chars@.skip(end as int).drop_first() =~= chars@.skip(end + 1));
                end += 1;
            }
            let word = text::copy_range(chars, i, end);
            proof {
                assert(word_len(chars@.skip(end as int)) == 0);
                let n = end - i;
                assert(word@ =~= tail.take(n));
                assert(tail.skip(n) =~= chars@.skip(end as int));
                assert(text::trim_start(tail) == tail);
                assert(words(tail) == seq![word@] + words(chars@.skip(end as int)));
            }
            let ghost so_far = char_lists(out@);
            out.push(word);
            proof {
                assert(char_lists(out@) =~= so_far.push(word@));
                assert(so_far + words(tail) =~= char_lists(out@) + words(chars@.skip(end as int)));
            }
            i = end;
        }
    }
    assert(chars@.skip(i as int) =~= Seq::<char>::empty());
    assert(words(chars@.skip(i as int)) =~= Seq::<Seq<char>>::empty());
    assert(char_lists(out@) =~= words(chars@));
    out
}

fn strip_controls(word: &[char]) -> (r: Vec<char>)
    ensures
        r@ == strip_end(strip_start(word@)),
{
    let mut start: usize = 0;
    assert(word@.skip(0) =~= word@);
    while start < word.len() && text::is_control(word[start])
        invariant
            start <= word@.len(),
            strip_start(word@.skip(start as int)) == strip_start(word@),
        decreases word.len() - start,
    {
        assert(word@.skip(start as int).drop_first() =~= word@.skip(start + 1));
        start += 1;
    }
    let ghost kept = word@.skip(start as int);
    let mut end: usize = word.len();
    assert(word@.subrange(start as int, end as int) =~= kept);
    while end > start && text::is_control(word[end - 1])
        invariant
            start <= end <= word@.len(),
            strip_end(word@.subrange(start as int, end as int)) == strip_end(kept),
        decreases end,
    {
        assert(word@.subrange(start as int, end as int).drop_last() =~= word@.subrange(
            start as int,
            end - 1,
        ));
        end -= 1;
    }
    text::copy_range(word, start, end)
}

fn printable_words(list: &Vec<Vec<char>>) -> (r: Vec<Vec<char>>)
    ensures
        char_lists(r@) == printable(char_lists(list@)),
{
    let mut out: Vec<Vec<char>> = Vec::new();
    let mut i: usize = 0;
    let ghost all = char_lists(list@);
    assert(char_lists(out@) =~= printable(all.take(0)));
    while i < list.len()
        invariant
            i <= list@.len(),
            all == char_lists(list@),
            char_lists(out@) == printable(all.take(i as int)),
        decreases list.len() - i,
    {
        let word = strip_controls(&list[i]);
        let ghost so_far = char_lists(out@);
        assert(all.take(i + 1).drop_last() =~= all.take(i as int));
        assert(all.take(i + 1).last() == list@[i as int]@);
        if !word.is_empty() {
            out.push(word);
            assert(char_lists(out@) =~= so_far.push(word@));
        }
        i += 1;
    }
    assert(all.take(i as int) =~= all);
    out
}

/// Whether a word equals one of the small-letter words of `known`, ASCII case
/// aside, is decided on its small-letter form.
fn lower_is(lower: &[char], known: &str) -> (r: bool)
    ensures
        r == (lower@ == known@),
{
    let other = text::chars_of(known);
    text::same_text(lower, &other)
}

fn spelled_word(word: &Vec<char>) -> (r: Vec<char>)
    ensures
        r@ == spelled(word@),
{
    let lower = text::to_ascii_lower(word);
    if lower_is(&lower, "i") {
        text::chars_of("I")
    } else if lower_is(&lower, "i'm") {
        text::chars_of("I'm")
    } else if lower_is(&lower, "i'd") {
        text::chars_of("I'd")
    } else if lower_is(&lower, "i've") {
        text::chars_of("I've")
    } else if lower_is(&lower, "i'll") {
        text::chars_of("I'll")
    } else {
        text::copy_range(word, 0, word.len())
    }
}

fn join_words(list: &Vec<Vec<char>>, from: usize) -> (r: Vec<char>)
    requires
        from <= list@.len(),
    ensures
        r@ == sentence_of(char_lists(list@).skip(from as int)),
{
    let mut out: Vec<char> = Vec::new();
    let mut i: usize = from;
    let ghost all = char_lists(list@).skip(from as int);
    while i < list.len()
        invariant
            from <= i <= list@.len(),
            all == char_lists(list@).skip(from as int),
            out@ == sentence_of(all.take(i - from)),
        decreases list.len() - i,
    {
        let word = spelled_word(&list[i]);
        proof {
            let n = i - from;
            assert(all.take(n + 1).drop_last() =~= all.take(n));
            assert(all.take(n + 1).last() == list@[i as int]@);
        }
        if i > from {
            out.push(' ');
        }
        let ghost before = out@;
        text::append_chars(&mut out, &word);
        assert(i == from ==> before + word@ =~= word@);
        i += 1;
    }
    assert(all.take(list@.len() - from) =~= all);
    out
}

fn close_up(s: &[char], mark: char) -> (r: Vec<char>)
    requires
        mark != ' ',
    ensures
        r@ == closed_up(s@, mark),
{
    let mut out: Vec<char> = Vec::new();
    let mut i: usize = 0;
    while i < s.len()
        invariant
            i <= s@.len(),
            mark != ' ',
            out@ == closed_up(s@.take(i as int), mark),
            i > 0 ==> out@.len() > 0 && out@.last() == s@[i - 1],
            i > 0 && s@[i - 1] != mark ==> out@.drop_last() == closed_up(s@.take(i - 1), mark),
        decreases s.len() - i,
    {
        let c = s[i];
        let ghost head = s@.take(i + 1);
        assert(head.drop_last() =~= s@.take(i as int));
        assert(head.last() == c);
        if i > 0 && c == mark && s[i - 1] == ' ' {
            assert(head[head.len() - 2] == ' ');
            assert(head.drop_last().drop_last() =~= s@.take(i - 1));
            let _ = out.pop();
        }
        out.push(c);
        assert(out@.drop_last() =~= if i > 0 && c == mark && s@[i - 1] == ' ' {
            closed_up(s@.take(i - 1), mark)
        } else {
            closed_up(s@.take(i as int), mark)
        });
        assert(out@ =~= closed_up(head, mark));
        i += 1;
    }
    assert(s@.take(s@.len() as int) =~= s@);
    out
}

/// Puts the capital in place of the letter at `at`, if that letter is a small
/// one and has a capital.
pub fn capitalize_with(chars: &mut Vec<char>, at: usize, is_lower: bool, upper: &[char])
    requires
        at < old(chars)@.len(),
    ensures
        final(chars)@ == if is_lower && upper@.len() > 0 {
            old(chars)@.update(at as int, upper@.first())
        } else {
            old(chars)@
        },
{
    if is_lower && upper.len() > 0 {
        chars.set(at, upper[0]);
    }
}

pub proof fn lemma_capitalized_at(s: Seq<char>, i: int)
    requires
        0 <= i < s.len(),
        alphabetic(s[i]),
        forall|j: int| 0 <= j < i ==> !alphabetic(#[trigger] s[j]),
    ensures
        capitalized(s) == if lowercase(s[i]) && upper_of(s[i]).len() > 0 {
            s.update(i, upper_of(s[i]).first())
        } else {
            s
        },
    decreases i,
{
    if i > 0 {
        assert(!alphabetic(s[0]));
        let t = s.drop_first();
        assert forall|j: int| 0 <= j < i - 1 implies !alphabetic(#[trigger] t[j]) by {
            assert(!alphabetic(s[j + 1]));
        }
        lemma_capitalized_at(t, i - 1);
        assert(seq![s.first()] + t =~= s);
        if lowercase(s[i]) && upper_of(s[i]).len() > 0 {
            assert(seq![s.first()] + t.update(i - 1, upper_of(s[i]).first()) =~= s.update(
                i,
                upper_of(s[i]).first(),
            ));
        }
    }
}

pub proof fn lemma_capitalized_none(s: Seq<char>)
    requires
        forall|j: int| 0 <= j < s.len() ==> !alphabetic(#[trigger] s[j]),
    ensures
        capitalized(s) == s,
    decreases s.len(),
{
    if s.len() > 0 {
        assert(!alphabetic(s[0]));
        let t = s.drop_first();
        assert forall|j: int| 0 <= j < t.len() implies !alphabetic(#[trigger] t[j]) by {
            assert(!alphabetic(s[j + 1]));
        }
        lemma_capitalized_none(t);
        assert(seq![s.first()] + t =~= s);
    }
}

impl LightweightSentencePolisher {
    /// The polished form of a sentence: fillers at the start are dropped, the
    /// first person and the spaces before punctuation are put right, and the
    /// sentence starts with a capital and ends with a mark.
    pub fn normalize(sentence: &str) -> (r: String)
        ensures
            r@ == normalized(sentence@),
            text::is_ascii_text(sentence@) ==> r@ == ascii_polish::ascii_normalized(sentence@),
    {
        let chars = text::trimmed(&text::chars_of(sentence));
        if chars.is_empty() {
            return String::new();
        }
        let list = printable_words(&split_words(&chars));
        let ghost all = char_lists(list@);
        let mut first: usize = 0;
        assert(all.skip(0) =~= all);
        while first < list.len() && Self::is_disfluency(&list[first])
            invariant
                first <= list@.len(),
                all == char_lists(list@),
                without_fillers(all.skip(first as int)) == without_fillers(all),
            decreases list.len() - first,
        {
            assert(all.skip(first as int).first() == list@[first as int]@);
            assert(all.skip(first as int).drop_first() =~= all.skip(first + 1));
            first += 1;
        }
        proof {
            if first < list@.len() {
                assert(all.skip(first as int).first() == list@[first as int]@);
            }
            assert(without_fillers(all) == all.skip(first as int));
        }
        let mut joined = join_words(&list, first);
        joined = close_up(&joined, ',');
        joined = close_up(&joined, '.');
        joined = close_up(&joined, '!');
        joined = close_up(&joined, '?');
        joined = close_up(&joined, ';');
        joined = close_up(&joined, ':');
        proof {
            if text::is_ascii_text(sentence@) {
                ascii_polish::lemma_tidied_is_ascii(sentence@);
            }
        }
        Self::capitalize_start(&mut joined);
        let closed = joined.len() > 0 && {
            let last = joined[joined.len() - 1];
            last == '.' || last == '!' || last == '?' || last == '。' || last == '！' || last == '？'
                || last == '…'
        };
        if !closed {
            joined.push('.');
        }
        text::string_of(&joined)
    }

    /// Whether a word only fills a pause.
    pub fn is_disfluency(token: &[char]) -> (r: bool)
        ensures
            r == is_filler(token@),
    {
        let lower = text::to_ascii_lower(token);
        lower_is(&lower, "uh") || lower_is(&lower, "um") || lower_is(&lower, "erm") || lower_is(
            &lower,
            "ah",
        ) || lower_is(&lower, "eh") || lower_is(&lower, "hmm")
    }

    /// Makes the first letter a capital, if it is a small one.
    pub fn capitalize_start(chars: &mut Vec<char>)
        ensures
            final(chars)@ == capitalized(old(chars)@),
            text::is_ascii_text(old(chars)@) ==> final(chars)@ == ascii_polish::ascii_capitalized(
                old(chars)@,
            ),
    {
        let mut i: usize = 0;
        while i < chars.len()
            invariant
                i <= chars@.len(),
                chars@ == old(chars)@,
                forall|j: int| 0 <= j < i ==> !alphabetic(#[trigger] chars@[j]),
                forall|j: int|
                    0 <= j < i && chars@[j] <= '\u{7f}' ==> !ascii_polish::is_letter(
                        #[trigger] chars@[j],
                    ),
            decreases chars.len() - i,
        {
            let c = chars[i];
            if is_alphabetic(c) {
                let is_lower = is_lowercase(c);
                let upper = to_uppercase(c);
                capitalize_with(chars, i, is_lower, &upper);
                proof {
                    lemma_capitalized_at(old(chars)@, i as int);
                    if text::is_ascii_text(old(chars)@) {
                        ascii_polish::lemma_capitalized_at(old(chars)@, i as int);
                        assert(old(chars)@.update(i as int, c) =~= old(chars)@);
                    }
                }
                return ;
            }
            i += 1;
        }
        proof {
            lemma_capitalized_none(chars@);
            if text::is_ascii_text(chars@) {
                ascii_polish::lemma_capitalized_none(chars@);
            }
        }
    }
}

impl SentencePolisher for LightweightSentencePolisher {
    /// Never fails.
    fn polish(&self, sentence: &str) -> (r: Result<String, String>)
        ensures
            r matches Ok(t) && t@ == normalized(sentence@) && (text::is_ascii_text(sentence@)
                ==> t@ == ascii_polish::ascii_normalized(sentence@)),
    {
        Ok(Self::normalize(sentence))
    }
}

} // verus!
