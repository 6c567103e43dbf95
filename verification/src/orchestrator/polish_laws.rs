//! What polishing does to a sentence, said of the words that it is made of.
use vstd::prelude::*;

use crate::orchestrator::ascii_polish::{
    self, are_settled, ascii_capitalized, ascii_normalized, is_printable, is_word,
    none_begins_with_a_mark, tidied,
};
use crate::orchestrator::polisher::{
    self, alphabetic, capitalized, closed_sentence, closed_up, is_filler, lowercase, normalized,
    printable, sentence_of, spelled, strip_end, strip_start, tidy, upper_of, without_fillers,
    words,
};
use crate::orchestrator::whisper::{self, all_words, spaced};
use crate::text;

verus! {

/// The form that a word has in small ASCII letters.
pub open spec fn small(word: Seq<char>) -> Seq<char> {
    word.map_values(
        |c: char|
            if 'A' <= c && c <= 'Z' {
                ((c as int) + 32) as char
            } else {
                c
            },
    )
}

/// Whether no word of a list holds a control character.
pub open spec fn no_controls(list: Seq<Seq<char>>) -> bool {
    forall|k: int, i: int|
        0 <= k < list.len() && 0 <= i < list[k].len() ==> '\u{1f}' < #[trigger] list[k][i] && !(
        '\u{7f}' <= list[k][i] && list[k][i] <= '\u{9f}')
}

/// Whether there is nothing in a list of words to be put right: the first is
/// not a filler, the first person has its usual spelling, and no word but the
/// first begins with a mark.
pub open spec fn is_plain(list: Seq<Seq<char>>) -> bool {
    &&& list.len() > 0
    &&& all_words(list)
    &&& no_controls(list)
    &&& small(list[0]) != "uh"@ && small(list[0]) != "um"@ && small(list[0]) != "erm"@
    &&& small(list[0]) != "ah"@ && small(list[0]) != "eh"@ && small(list[0]) != "hmm"@
    &&& forall|k: int|
        0 <= k < list.len() ==> {
            let w = #[trigger] list[k];
            &&& small(w) == "i"@ ==> w == "I"@
            &&& small(w) == "i'm"@ ==> w == "I'm"@
            &&& small(w) == "i'd"@ ==> w == "I'd"@
            &&& small(w) == "i've"@ ==> w == "I've"@
            &&& small(w) == "i'll"@ ==> w == "I'll"@
        }
    &&& forall|k: int|
        1 <= k < list.len() ==> {
            let c = (#[trigger] list[k]).first();
            c != ',' && c != '.' && c != '!' && c != '?' && c != ';' && c != ':'
        }
}

/// Whether `i` is the place of the first letter of a text.
pub open spec fn is_first_letter(s: Seq<char>, i: int) -> bool {
    0 <= i < s.len() && alphabetic(s[i]) && forall|j: int|
        0 <= j < i ==> !alphabetic(#[trigger] s[j])
}

proof fn lemma_small(w: Seq<char>)
    ensures
        small(w) == text::ascii_lower_text(w),
{
    assert(small(w) =~= text::ascii_lower_text(w));
}

proof fn lemma_sublist(list: Seq<Seq<char>>, from: int, to: int)
    requires
        all_words(list),
        0 <= from <= to <= list.len(),
    ensures
        all_words(list.subrange(from, to)),
{
    let part = list.subrange(from, to);
    assert forall|k: int| 0 <= k < part.len() implies (#[trigger] part[k]).len() > 0 && forall|
        i: int,
    |
        0 <= i < part[k].len() ==> !text::is_white(#[trigger] part[k][i]) by {
        assert(list[from + k].len() > 0);
        assert(part[k] == list[from + k]);
    }
}

/// The words of words with spaces between them are those words.
proof fn lemma_words_of_spaced(list: Seq<Seq<char>>)
    requires
        all_words(list),
    ensures
        words(spaced(list)) == list,
        list.len() > 0 ==> spaced(list).len() > 0 && !text::is_white(spaced(list).first())
            && !text::is_white(spaced(list).last()),
    decreases list.len(),
{
    if list.len() == 0 {
        whisper::lemma_words_of_nothing();
        assert(words(spaced(list)) =~= list);
    } else {
        let w = list[list.len() - 1];
        assert(w.len() > 0);
        assert(!text::is_white(w[0]) && !text::is_white(w[w.len() - 1]));
        assert(is_word(w));
        ascii_polish::lemma_words_of_one(w);
        if list.len() == 1 {
            assert(list =~= seq![w]);
        } else {
            let head = list.drop_last();
            assert(head =~= list.subrange(0, list.len() - 1));
            lemma_sublist(list, 0, list.len() - 1);
            lemma_words_of_spaced(head);
            whisper::lemma_white_parts_words(spaced(head), ' ', w);
            assert(head + seq![w] =~= list);
            assert(spaced(list).first() == spaced(head).first());
        }
    }
}

/// What polishing makes of words.
spec fn polished_words(list: Seq<Seq<char>>) -> Seq<char> {
    closed_sentence(capitalized(tidy(sentence_of(without_fillers(printable(list))))))
}

proof fn lemma_normalized_spaced(list: Seq<Seq<char>>)
    requires
        all_words(list),
        list.len() > 0,
    ensures
        normalized(spaced(list)) == polished_words(list),
{
    let s = spaced(list);
    lemma_words_of_spaced(list);
    assert(text::trim_start(s) == s);
    assert(text::trim(s) == s);
}

proof fn lemma_all_printable(list: Seq<Seq<char>>)
    requires
        all_words(list),
        no_controls(list),
    ensures
        printable(list) == list,
        forall|k: int| 0 <= k < list.len() ==> is_printable(#[trigger] list[k]),
{
    assert forall|k: int| 0 <= k < list.len() implies is_printable(#[trigger] list[k]) by {
        let w = list[k];
        assert(w.len() > 0);
        assert('\u{1f}' < list[k][0]);
        assert('\u{1f}' < list[k][w.len() - 1]);
    }
    assert forall|k: int| 0 <= k < list.len() implies is_word(#[trigger] list[k]) by {
        assert(is_printable(list[k]));
    }
    ascii_polish::lemma_printable(list);
}

proof fn lemma_plain(list: Seq<Seq<char>>)
    requires
        is_plain(list),
    ensures
        are_settled(list),
        none_begins_with_a_mark(list),
        tidy(sentence_of(without_fillers(printable(list)))) == spaced(list),
{
    lemma_all_printable(list);
    assert forall|k: int| 0 <= k < list.len() implies is_printable(#[trigger] list[k]) && spelled(
        list[k],
    ) == list[k] by {
        lemma_small(list[k]);
    }
    lemma_small(list[0]);
    ascii_polish::lemma_all_merged(list);
    assert(without_fillers(list) == list);
    lemma_sentence_is_spaced(list);
}

proof fn lemma_sentence_is_spaced(list: Seq<Seq<char>>)
    requires
        forall|k: int| 0 <= k < list.len() ==> spelled(#[trigger] list[k]) == list[k],
    ensures
        sentence_of(list) == spaced(list),
    decreases list.len(),
{
    if list.len() > 0 {
        let head = list.drop_last();
        assert forall|k: int| 0 <= k < head.len() implies spelled(#[trigger] head[k]) == head[k] by {
            assert(spelled(list[k]) == list[k]);
        }
        lemma_sentence_is_spaced(head);
        assert(spelled(list[list.len() - 1]) == list[list.len() - 1]);
    }
}

proof fn lemma_no_small_first_letter(s: Seq<char>)
    requires
        forall|i: int| #[trigger] is_first_letter(s, i) ==> !lowercase(s[i]),
    ensures
        capitalized(s) == s,
{
    if exists|i: int| is_first_letter(s, i) {
        let i = choose|i: int| is_first_letter(s, i);
        polisher::lemma_capitalized_at(s, i);
    } else {
        assert forall|j: int| 0 <= j < s.len() implies !alphabetic(#[trigger] s[j]) by {
            lemma_no_letter(s, j);
        }
        polisher::lemma_capitalized_none(s);
    }
}

proof fn lemma_no_letter(s: Seq<char>, j: int)
    requires
        0 <= j < s.len(),
        forall|i: int| !#[trigger] is_first_letter(s, i),
    ensures
        forall|i: int| 0 <= i <= j ==> !alphabetic(#[trigger] s[i]),
    decreases j,
{
    if j > 0 {
        lemma_no_letter(s, j - 1);
    }
    assert(!is_first_letter(s, j));
}

/// A sentence that is in order and ends with a mark stays as it is, in whatever
/// script it is written; one that ends otherwise gets a full stop and nothing
/// else.
pub proof fn law_good_sentence_stays(list: Seq<Seq<char>>)
    requires
        is_plain(list),
        forall|i: int| #[trigger] is_first_letter(spaced(list), i) ==> !lowercase(spaced(list)[i]),
    ensures
        ({
            let s = spaced(list);
            let c = s.last();
            normalized(s) == if c == '.' || c == '!' || c == '?' || c == '。' || c == '！' || c == '？'
                || c == '…' {
                s
            } else {
                s.push('.')
            }
        }),
{
    lemma_normalized_spaced(list);
    lemma_plain(list);
    lemma_no_small_first_letter(spaced(list));
    lemma_words_of_spaced(list);
}

/// Where the first letter of a sentence that is otherwise in order is a small
/// one, it becomes its capital, and nothing else changes but for the full stop.
pub proof fn law_first_letter_becomes_a_capital(list: Seq<Seq<char>>, i: int)
    requires
        is_plain(list),
        is_first_letter(spaced(list), i),
        lowercase(spaced(list)[i]),
        upper_of(spaced(list)[i]).len() > 0,
    ensures
        ({
            let s = spaced(list).update(i, upper_of(spaced(list)[i]).first());
            let c = s.last();
            normalized(spaced(list)) == if c == '.' || c == '!' || c == '?' || c == '。' || c == '！'
                || c == '？' || c == '…' {
                s
            } else {
                s.push('.')
            }
        }),
{
    lemma_normalized_spaced(list);
    lemma_plain(list);
    lemma_words_of_spaced(list);
    polisher::lemma_capitalized_at(spaced(list), i);
}

proof fn lemma_printable_concat(a: Seq<Seq<char>>, b: Seq<Seq<char>>)
    ensures
        printable(a + b) == printable(a) + printable(b),
    decreases b.len(),
{
    if b.len() == 0 {
        assert(a + b =~= a);
        assert(printable(a) + printable(b) =~= printable(a));
    } else {
        assert((a + b).drop_last() =~= a + b.drop_last());
        assert((a + b).last() == b.last());
        lemma_printable_concat(a, b.drop_last());
        let word = strip_end(strip_start(b.last()));
        assert(printable(a) + printable(b.drop_last()).push(word) =~= (printable(a) + printable(
            b.drop_last(),
        )).push(word));
    }
}

/// A word that only fills a pause, in whatever case, is dropped at the start of
/// a sentence, again and again.
pub proof fn law_fillers_are_dropped(filler: Seq<char>, list: Seq<Seq<char>>)
    requires
        small(filler) == "uh"@ || small(filler) == "um"@ || small(filler) == "erm"@ || small(filler)
            == "ah"@ || small(filler) == "eh"@ || small(filler) == "hmm"@,
        all_words(list),
        list.len() > 0,
    ensures
        normalized(spaced(seq![filler] + list)) == normalized(spaced(list)),
{
    reveal_strlit("uh");
    reveal_strlit("um");
    reveal_strlit("erm");
    reveal_strlit("ah");
    reveal_strlit("eh");
    reveal_strlit("hmm");
    lemma_small(filler);
    let lower = small(filler);
    assert(filler.len() == lower.len());
    assert forall|i: int| 0 <= i < filler.len() implies !text::is_white(#[trigger] filler[i])
        && '\u{1f}' < filler[i] && filler[i] < '\u{7f}' by {
        assert(lower[i] == if 'A' <= filler[i] && filler[i] <= 'Z' {
            ((filler[i] as int) + 32) as char
        } else {
            filler[i]
        });
        assert(lower[0] == 'u' || lower[0] == 'e' || lower[0] == 'a' || lower[0] == 'h');
        assert('a' <= lower[i] && lower[i] <= 'z');
    }
    let first = seq![filler];
    let all = first + list;
    assert(all_words(first));
    assert(no_controls(first));
    lemma_all_printable(first);
    assert forall|k: int| 0 <= k < all.len() implies (#[trigger] all[k]).len() > 0 && forall|i: int|
        0 <= i < all[k].len() ==> !text::is_white(#[trigger] all[k][i]) by {
        if k > 0 {
            assert(list[k - 1].len() > 0);
            assert(all[k] == list[k - 1]);
        }
    }
    lemma_printable_concat(first, list);
    lemma_normalized_spaced(all);
    lemma_normalized_spaced(list);
    let shown = printable(all);
    assert(shown.first() == filler);
    assert(shown.drop_first() =~= printable(list));
    assert(is_filler(filler));
}

proof fn lemma_same_fillers(a: Seq<Seq<char>>, b: Seq<Seq<char>>)
    requires
        a.len() == b.len(),
        forall|k: int| 0 <= k < a.len() ==> is_filler(#[trigger] a[k]) == is_filler(b[k]),
        forall|k: int| 0 <= k < a.len() ==> spelled(#[trigger] a[k]) == spelled(b[k]),
    ensures
        sentence_of(without_fillers(a)) == sentence_of(without_fillers(b)),
    decreases a.len(),
{
    if a.len() > 0 && is_filler(a.first()) {
        assert(is_filler(a[0]) == is_filler(b[0]));
        let c = a.drop_first();
        let d = b.drop_first();
        assert forall|k: int| 0 <= k < c.len() implies is_filler(#[trigger] c[k]) == is_filler(d[k])
            && spelled(c[k]) == spelled(d[k]) by {
            assert(is_filler(a[k + 1]) == is_filler(b[k + 1]));
        }
        lemma_same_fillers(c, d);
    } else {
        if a.len() > 0 {
            assert(is_filler(a[0]) == is_filler(b[0]));
        }
        lemma_same_spelling(a, b);
    }
}

proof fn lemma_same_spelling(a: Seq<Seq<char>>, b: Seq<Seq<char>>)
    requires
        a.len() == b.len(),
        forall|k: int| 0 <= k < a.len() ==> spelled(#[trigger] a[k]) == spelled(b[k]),
    ensures
        sentence_of(a) == sentence_of(b),
    decreases a.len(),
{
    if a.len() > 0 {
        let c = a.drop_last();
        let d = b.drop_last();
        assert forall|k: int| 0 <= k < c.len() implies spelled(#[trigger] c[k]) == spelled(d[k]) by {
            assert(spelled(a[k]) == spelled(b[k]));
        }
        lemma_same_spelling(c, d);
        assert(spelled(a[a.len() - 1]) == spelled(b[a.len() - 1]));
    }
}

/// The English first person is the same word in whatever case it was heard, and
/// its usual spelling is what a sentence with it is polished to.
pub proof fn law_first_person_is_spelled(list: Seq<Seq<char>>, k: int, usual: Seq<char>)
    requires
        all_words(list),
        no_controls(list),
        0 <= k < list.len(),
        usual == "I"@ || usual == "I'm"@ || usual == "I'd"@ || usual == "I've"@ || usual == "I'll"@,
        small(list[k]) == small(usual),
    ensures
        normalized(spaced(list)) == normalized(spaced(list.update(k, usual))),
{
    reveal_strlit("I");
    reveal_strlit("I'm");
    reveal_strlit("I'd");
    reveal_strlit("I've");
    reveal_strlit("I'll");
    let other = list.update(k, usual);
    assert forall|j: int| 0 <= j < other.len() implies (#[trigger] other[j]).len() > 0 && forall|
        i: int,
    |
        0 <= i < other[j].len() ==> !text::is_white(#[trigger] other[j][i]) by {
        if j != k {
            assert(list[j].len() > 0);
        }
    }
    assert forall|j: int, i: int| 0 <= j < other.len() && 0 <= i < other[j].len() implies '\u{1f}'
        < #[trigger] other[j][i] && !('\u{7f}' <= other[j][i] && other[j][i] <= '\u{9f}') by {
        if j != k {
            assert('\u{1f}' < list[j][i]);
        }
    }
    lemma_all_printable(list);
    lemma_all_printable(other);
    lemma_normalized_spaced(list);
    lemma_normalized_spaced(other);
    lemma_small(list[k]);
    lemma_small(usual);
    lemma_usual(usual);
    assert forall|j: int| 0 <= j < list.len() implies is_filler(#[trigger] list[j]) == is_filler(
        other[j],
    ) && spelled(list[j]) == spelled(other[j]) by {
        if j == k {
            assert(other[k] == usual);
        }
    }
    lemma_same_fillers(list, other);
}

proof fn lemma_usual(usual: Seq<char>)
    requires
        usual == "I"@ || usual == "I'm"@ || usual == "I'd"@ || usual == "I've"@ || usual == "I'll"@,
    ensures
        forall|w: Seq<char>|
            text::ascii_lower_text(w) == text::ascii_lower_text(usual) ==> #[trigger] spelled(w)
                == usual,
{
    reveal_strlit("I");
    reveal_strlit("I'm");
    reveal_strlit("I'd");
    reveal_strlit("I've");
    reveal_strlit("I'll");
    reveal_strlit("i");
    reveal_strlit("i'm");
    reveal_strlit("i'd");
    reveal_strlit("i've");
    reveal_strlit("i'll");
    assert(text::ascii_lower_text("I"@) =~= "i"@);
    assert(text::ascii_lower_text("I'm"@) =~= "i'm"@);
    assert(text::ascii_lower_text("I'd"@) =~= "i'd"@);
    assert(text::ascii_lower_text("I've"@) =~= "i've"@);
    assert(text::ascii_lower_text("I'll"@) =~= "i'll"@);
    assert("i'm"@[2] != "i'd"@[2]);
    assert("i've"@[2] != "i'll"@[2]);
}

proof fn lemma_words_decide(s: Seq<char>)
    ensures
        normalized(s) == if words(s).len() == 0 {
            Seq::<char>::empty()
        } else {
            polished_words(words(s))
        },
{
    whisper::lemma_words_of_trimmed(s);
    let t = text::trim(s);
    text::lemma_trim_ends(s);
    if t.len() == 0 {
        assert(t =~= Seq::<char>::empty());
        whisper::lemma_words_of_nothing();
    } else {
        assert(text::trim_start(t) == t);
        assert(words(t).len() > 0);
    }
}

/// All whitespace is alike: it parts words and does nothing else, however much
/// there is of it. At the ends of a text it does nothing at all.
pub proof fn law_whitespace_only_parts_words(a: Seq<char>, c: char, b: Seq<char>)
    requires
        ('\u{9}' <= c && c <= '\u{d}') || c == ' ' || c == '\u{85}' || c == '\u{a0}' || c == '\u{1680}'
            || ('\u{2000}' <= c && c <= '\u{200a}') || c == '\u{2028}' || c == '\u{2029}' || c
            == '\u{202f}' || c == '\u{205f}' || c == '\u{3000}',
    ensures
        normalized(a + seq![c] + b) == normalized(a + seq![' '] + b),
        normalized(a + seq![c, c] + b) == normalized(a + seq![c] + b),
        normalized(seq![c] + b) == normalized(b),
        normalized(a + seq![c]) == normalized(a),
{
    let none = Seq::<char>::empty();
    whisper::lemma_words_of_nothing();
    whisper::lemma_white_parts_words(a, c, b);
    whisper::lemma_white_parts_words(a, ' ', b);
    whisper::lemma_white_parts_words(none, c, b);
    whisper::lemma_white_parts_words(a, c, none);
    whisper::lemma_white_parts_words(a.push(c), c, b);
    assert(a + seq![c] + b =~= a.push(c) + b);
    assert(a + seq![' '] + b =~= a.push(' ') + b);
    assert(a + seq![c, c] + b =~= a.push(c).push(c) + b);
    assert(seq![c] + b =~= none.push(c) + b);
    assert(a + seq![c] =~= a.push(c) + none);
    assert(a.push(c) =~= a.push(c) + none);
    assert(words(none) + words(b) =~= words(b));
    assert(words(a) + words(none) =~= words(a));
    lemma_words_decide(a + seq![c] + b);
    lemma_words_decide(a + seq![' '] + b);
    lemma_words_decide(a + seq![c, c] + b);
    lemma_words_decide(seq![c] + b);
    lemma_words_decide(b);
    lemma_words_decide(a + seq![c]);
    lemma_words_decide(a);
}

proof fn lemma_strip_push(w: Seq<char>, c: char)
    requires
        text::is_control_char(c),
    ensures
        strip_end(strip_start(w.push(c))) == strip_end(strip_start(w)),
    decreases w.len(),
{
    if w.len() == 0 {
        assert(w.push(c).drop_first() =~= w);
    } else if text::is_control_char(w.first()) {
        assert(w.push(c).drop_first() =~= w.drop_first().push(c));
        lemma_strip_push(w.drop_first(), c);
    } else {
        assert(strip_start(w.push(c)) == w.push(c));
        assert(w.push(c).drop_last() =~= w);
    }
}

proof fn lemma_same_printable(a: Seq<Seq<char>>, b: Seq<Seq<char>>)
    requires
        a.len() == b.len(),
        forall|k: int|
            0 <= k < a.len() ==> strip_end(strip_start(#[trigger] a[k])) == strip_end(
                strip_start(b[k]),
            ),
    ensures
        printable(a) == printable(b),
    decreases a.len(),
{
    if a.len() > 0 {
        let c = a.drop_last();
        let d = b.drop_last();
        assert forall|k: int| 0 <= k < c.len() implies strip_end(strip_start(#[trigger] c[k]))
            == strip_end(strip_start(d[k])) by {
            assert(strip_end(strip_start(a[k])) == strip_end(strip_start(b[k])));
        }
        lemma_same_printable(c, d);
        assert(strip_end(strip_start(a[a.len() - 1])) == strip_end(strip_start(b[a.len() - 1])));
    } else {
        assert(a =~= b);
    }
}

/// Control characters at the ends of a word are dropped.
pub proof fn law_control_characters_are_dropped(list: Seq<Seq<char>>, k: int, c: char)
    requires
        all_words(list),
        0 <= k < list.len(),
        c <= '\u{8}' || ('\u{e}' <= c && c <= '\u{1f}') || ('\u{7f}' <= c && c <= '\u{84}') || (
        '\u{86}' <= c && c <= '\u{9f}'),
    ensures
        normalized(spaced(list.update(k, seq![c] + list[k]))) == normalized(spaced(list)),
        normalized(spaced(list.update(k, list[k].push(c)))) == normalized(spaced(list)),
{
    let before = list.update(k, seq![c] + list[k]);
    let behind = list.update(k, list[k].push(c));
    let w = list[k];
    assert((seq![c] + w).drop_first() =~= w);
    assert(strip_start(seq![c] + w) == strip_start(w));
    lemma_strip_push(w, c);
    assert forall|j: int| 0 <= j < list.len() implies (#[trigger] before[j]).len() > 0 && forall|
        i: int,
    |
        0 <= i < before[j].len() ==> !text::is_white(#[trigger] before[j][i]) by {
        assert(list[j].len() > 0);
        if j == k {
            assert forall|i: int| 0 <= i < before[j].len() implies !text::is_white(
                #[trigger] before[j][i],
            ) by {
                if i > 0 {
                    assert(before[j][i] == list[j][i - 1]);
                }
            }
        }
    }
    assert forall|j: int| 0 <= j < list.len() implies (#[trigger] behind[j]).len() > 0 && forall|
        i: int,
    |
        0 <= i < behind[j].len() ==> !text::is_white(#[trigger] behind[j][i]) by {
        assert(list[j].len() > 0);
        if j == k {
            assert forall|i: int| 0 <= i < behind[j].len() implies !text::is_white(
                #[trigger] behind[j][i],
            ) by {
                if i < list[j].len() {
                    assert(behind[j][i] == list[j][i]);
                }
            }
        }
    }
    assert forall|j: int| 0 <= j < list.len() implies strip_end(strip_start(#[trigger] before[j]))
        == strip_end(strip_start(list[j])) by {
        if j != k {
            assert(before[j] == list[j]);
        }
    }
    assert forall|j: int| 0 <= j < list.len() implies strip_end(strip_start(#[trigger] behind[j]))
        == strip_end(strip_start(list[j])) by {
        if j != k {
            assert(behind[j] == list[j]);
        }
    }
    lemma_same_printable(before, list);
    lemma_same_printable(behind, list);
    lemma_normalized_spaced(before);
    lemma_normalized_spaced(behind);
    lemma_normalized_spaced(list);
}

proof fn lemma_after_space(list: Seq<Seq<char>>, i: int)
    requires
        are_settled(list),
        0 <= i < sentence_of(list).len(),
        sentence_of(list)[i] == ' ',
    ensures
        i + 1 < sentence_of(list).len(),
        exists|k: int| 1 <= k < list.len() && #[trigger] list[k].first() == sentence_of(list)[i + 1],
    decreases list.len(),
{
    let s = sentence_of(list);
    if list.len() > 0 {
        let w = list[list.len() - 1];
        assert(is_printable(w) && spelled(w) == w);
        if list.len() == 1 {
            assert(!text::is_white(w[i]));
        } else {
            let head = list.drop_last();
            let t = sentence_of(head);
            ascii_polish::lemma_settled_head(list);
            if i < t.len() {
                assert(t[i] == s[i]);
                lemma_after_space(head, i);
                let k = choose|k: int|
                    1 <= k < head.len() && #[trigger] head[k].first() == t[i + 1];
                assert(list[k].first() == s[i + 1]);
            } else if i == t.len() {
                assert(s[i + 1] == w[0]);
                assert(list[list.len() - 1].first() == s[i + 1]);
            } else {
                assert(s[i] == w[i - t.len() - 1]);
                assert(!text::is_white(w[i - t.len() - 1]));
            }
        }
    }
}

/// In a polished ASCII sentence no space stands before a mark, at the ends or
/// beside another space, and no letter stands before its first capital.
pub proof fn law_polished_text_is_tidy(s: Seq<char>)
    requires
        text::is_ascii_text(s),
    ensures
        ({
            let r = ascii_normalized(s);
            &&& forall|i: int|
                0 <= i < r.len() && #[trigger] r[i] == ' ' ==> {
                    &&& i + 1 < r.len()
                    &&& r[i + 1] != ' '
                    &&& r[i + 1] != ',' && r[i + 1] != '.' && r[i + 1] != '!'
                    &&& r[i + 1] != '?' && r[i + 1] != ';' && r[i + 1] != ':'
                }
            &&& forall|i: int|
                0 <= i < r.len() && 'a' <= #[trigger] r[i] && r[i] <= 'z' ==> exists|j: int|
                    0 <= j < i && 'A' <= #[trigger] r[j] && r[j] <= 'Z'
        }),
{
    if text::trim(s).len() > 0 {
        let r = ascii_normalized(s);
        let tidied_words = ascii_polish::lemma_tidied(s);
        let capital_words = ascii_polish::lemma_capitalized_sentence(tidied_words);
        let c = ascii_capitalized(tidied(s));
        let list = if polisher::is_closed(c) {
            capital_words
        } else {
            ascii_polish::lemma_closed_sentence(capital_words)
        };
        assert(sentence_of(list) == r);
        assert forall|i: int| 0 <= i < r.len() && #[trigger] r[i] == ' ' implies i + 1 < r.len()
            && r[i + 1] != ' ' && r[i + 1] != ',' && r[i + 1] != '.' && r[i + 1] != '!' && r[i + 1]
            != '?' && r[i + 1] != ';' && r[i + 1] != ':' by {
            lemma_after_space(list, i);
            let k = choose|k: int| 1 <= k < list.len() && #[trigger] list[k].first() == r[i + 1];
            assert(is_printable(list[k]));
            assert(!text::is_white(list[k][0]));
            assert(list[k].first() != ',');
        }
        ascii_polish::lemma_capitalized_facts(tidied(s));
        ascii_polish::lemma_capitalized_facts(c);
        assert(ascii_capitalized(r) == r);
        assert forall|i: int| 0 <= i < r.len() && 'a' <= #[trigger] r[i] && r[i] <= 'z' implies exists|
            j: int,
        |
            0 <= j < i && 'A' <= #[trigger] r[j] && r[j] <= 'Z' by {
            ascii_polish::lemma_first_letter(r);
            let j = ascii_polish::first_letter(r);
            if j > i {
                assert(!ascii_polish::is_letter(r[i]));
            }
            ascii_polish::lemma_capitalized_at(r, j);
            assert(r[j] == r.update(j, ascii_polish::ascii_upper(r[j]))[j]);
            assert('A' <= r[j] && r[j] <= 'Z');
        }
    }
}

proof fn lemma_small_concat(a: Seq<char>, b: Seq<char>)
    ensures
        small(a + b) == small(a) + small(b),
{
    assert(small(a + b) =~= small(a) + small(b));
}

proof fn lemma_small_visible(s: Seq<char>)
    ensures
        small(text::visible(s)) == text::visible(small(s)),
    decreases s.len(),
{
    if s.len() == 0 {
        assert(small(text::visible(s)) =~= text::visible(small(s)));
    } else {
        let t = s.drop_last();
        lemma_small_visible(t);
        assert(small(s).drop_last() =~= small(t));
        assert(small(text::visible(t).push(s.last())) =~= small(text::visible(t)).push(
            small(s).last(),
        ));
    }
}

proof fn lemma_visible_closed_up(s: Seq<char>, mark: char)
    requires
        !text::is_white(mark),
    ensures
        text::visible(closed_up(s, mark)) == text::visible(s),
    decreases s.len(),
{
    if s.len() > 0 {
        let t = s.drop_last();
        if s.len() >= 2 && s[s.len() - 2] == ' ' && s.last() == mark {
            let u = t.drop_last();
            lemma_visible_closed_up(u, mark);
            assert(t.last() == ' ');
            assert(text::visible(t) == text::visible(u));
            let r = closed_up(u, mark).push(mark);
            assert(closed_up(s, mark) == r);
            assert(r.drop_last() =~= closed_up(u, mark));
            assert(r.last() == mark);
            assert(text::visible(r) == text::visible(u).push(mark));
        } else {
            lemma_visible_closed_up(t, mark);
            let r = closed_up(t, mark).push(s.last());
            assert(closed_up(s, mark) == r);
            assert(r.drop_last() =~= closed_up(t, mark));
            assert(r.last() == s.last());
        }
    }
}

proof fn lemma_small_sentence(list: Seq<Seq<char>>)
    ensures
        small(sentence_of(list)) == small(spaced(list)),
    decreases list.len(),
{
    if list.len() > 0 {
        let head = list.drop_last();
        lemma_small_sentence(head);
        ascii_polish::lemma_lower_spelled(list.last());
        lemma_small(list.last());
        lemma_small(spelled(list.last()));
        lemma_small_concat(sentence_of(head).push(' '), spelled(list.last()));
        lemma_small_concat(spaced(head).push(' '), list.last());
        assert(small(sentence_of(head).push(' ')) =~= small(sentence_of(head)).push(' '));
        assert(small(spaced(head).push(' ')) =~= small(spaced(head)).push(' '));
    }
}

proof fn lemma_small_capitalized(s: Seq<char>)
    ensures
        small(ascii_capitalized(s)) == small(s),
    decreases s.len(),
{
    ascii_polish::lemma_first_letter(s);
    let i = ascii_polish::first_letter(s);
    if i < s.len() {
        ascii_polish::lemma_capitalized_at(s, i);
        assert(small(ascii_capitalized(s)) =~= small(s));
    } else {
        ascii_polish::lemma_capitalized_none(s);
    }
}

/// Polishing keeps what was said: but for fillers at the start, spaces, the case
/// of letters and a full stop at the end, an ASCII sentence holds the same
/// characters in the same order.
pub proof fn law_polishing_keeps_the_text(list: Seq<Seq<char>>)
    requires
        all_words(list),
        no_controls(list),
        list.len() > 0,
        text::is_ascii_text(spaced(list)),
        small(list[0]) != "uh"@ && small(list[0]) != "um"@ && small(list[0]) != "erm"@,
        small(list[0]) != "ah"@ && small(list[0]) != "eh"@ && small(list[0]) != "hmm"@,
    ensures
        ({
            let said = small(text::visible(spaced(list)));
            let shown = small(text::visible(ascii_normalized(spaced(list))));
            shown == said || shown == said.push('.')
        }),
{
    let s = spaced(list);
    lemma_words_of_spaced(list);
    assert(text::trim_start(s) == s);
    assert(text::trim(s) == s);
    lemma_all_printable(list);
    lemma_small(list[0]);
    assert(without_fillers(list) == list);
    let a = sentence_of(list);
    let b = closed_up(a, ',');
    let c = closed_up(b, '.');
    let d = closed_up(c, '!');
    let e = closed_up(d, '?');
    let f = closed_up(e, ';');
    lemma_visible_closed_up(a, ',');
    lemma_visible_closed_up(b, '.');
    lemma_visible_closed_up(c, '!');
    lemma_visible_closed_up(d, '?');
    lemma_visible_closed_up(e, ';');
    lemma_visible_closed_up(f, ':');
    let t = tidied(s);
    assert(text::visible(t) == text::visible(a));
    lemma_small_sentence(list);
    lemma_small_visible(a);
    lemma_small_visible(s);
    lemma_small_visible(t);
    let g = ascii_capitalized(t);
    lemma_small_capitalized(t);
    lemma_small_visible(g);
    assert(small(text::visible(g)) == small(text::visible(s)));
    assert(g.push('.').drop_last() =~= g);
    assert(small(text::visible(g).push('.')) =~= small(text::visible(g)).push('.'));
}

} // verus!
