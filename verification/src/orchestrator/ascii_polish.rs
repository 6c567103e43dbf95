//! Polishing of ASCII text, where it is known what a letter and its capital are:
//! what comes out, and that polishing it again changes nothing.
use vstd::prelude::*;

use crate::orchestrator::polisher::{
    closed_sentence, closed_up, is_closed, is_filler, printable, sentence_of, spelled, strip_end,
    strip_start, tidy, without_fillers, word_len, words,
};
use crate::text;

verus! {

/// Whether `c` is an ASCII letter.
pub open spec fn is_letter(c: char) -> bool {
    'a' <= c <= 'z' || 'A' <= c <= 'Z'
}

/// The capital of an ASCII small letter; anything else stays.
pub open spec fn ascii_upper(c: char) -> char {
    if 'a' <= c <= 'z' {
        ((c as int) - 32) as char
    } else {
        c
    }
}

/// `s` with its first ASCII letter made a capital.
pub open spec fn ascii_capitalized(s: Seq<char>) -> Seq<char>
    decreases s.len(),
{
    if s.len() == 0 {
        s
    } else if is_letter(s.first()) {
        s.update(0, ascii_upper(s.first()))
    } else {
        seq![s.first()] + ascii_capitalized(s.drop_first())
    }
}

/// The words of a sentence that are kept, spelled as usual, with the spaces put
/// right.
pub open spec fn tidied(s: Seq<char>) -> Seq<char> {
    tidy(sentence_of(without_fillers(printable(words(text::trim(s))))))
}

/// The polished form of an ASCII sentence. Blank text stays empty.
pub open spec fn ascii_normalized(s: Seq<char>) -> Seq<char> {
    if text::trim(s).len() == 0 {
        Seq::empty()
    } else {
        closed_sentence(ascii_capitalized(tidied(s)))
    }
}

/// Whether every text of a list is ASCII.
pub open spec fn all_ascii(list: Seq<Seq<char>>) -> bool {
    forall|k: int| 0 <= k < list.len() ==> text::is_ascii_text(#[trigger] list[k])
}

pub proof fn lemma_capitalized_facts(s: Seq<char>)
    ensures
        ascii_capitalized(s).len() == s.len(),
        text::is_ascii_text(s) ==> text::is_ascii_text(ascii_capitalized(s)),
        ascii_capitalized(ascii_capitalized(s)) == ascii_capitalized(s),
        ascii_capitalized(s.push('.')) == ascii_capitalized(s).push('.'),
    decreases s.len(),
{
    if s.len() == 0 {
        lemma_capitalized_none(s.push('.'));
    } else if is_letter(s.first()) {
        let t = s.update(0, ascii_upper(s.first()));
        assert(t.update(0, ascii_upper(t.first())) =~= t);
        assert(s.push('.').update(0, ascii_upper(s.first())) =~= t.push('.'));
    } else {
        let rest = s.drop_first();
        lemma_capitalized_facts(rest);
        let t = seq![s.first()] + ascii_capitalized(rest);
        assert(t.drop_first() =~= ascii_capitalized(rest));
        assert(s.push('.').drop_first() =~= rest.push('.'));
        assert(seq![s.first()] + ascii_capitalized(rest).push('.') =~= t.push('.'));
        if text::is_ascii_text(s) {
            assert forall|i: int| 0 <= i < rest.len() implies rest[i] <= '\u{7f}' by {
                assert(s[i + 1] <= '\u{7f}');
            }
            assert forall|i: int| 0 <= i < t.len() implies t[i] <= '\u{7f}' by {
                if i > 0 {
                    assert(t[i] == ascii_capitalized(rest)[i - 1]);
                } else {
                    assert(t[0] == s[0]);
                }
            }
        }
    }
}

/// The first letter of `s` is the one that becomes a capital.
pub proof fn lemma_capitalized_at(s: Seq<char>, i: int)
    requires
        0 <= i < s.len(),
        is_letter(s[i]),
        forall|j: int| 0 <= j < i ==> !is_letter(#[trigger] s[j]),
    ensures
        ascii_capitalized(s) == s.update(i, ascii_upper(s[i])),
    decreases i,
{
    if i > 0 {
        assert(!is_letter(s[0]));
        let t = s.drop_first();
        assert forall|j: int| 0 <= j < i - 1 implies !is_letter(#[trigger] t[j]) by {
            assert(!is_letter(s[j + 1]));
        }
        lemma_capitalized_at(t, i - 1);
        assert(seq![s.first()] + t.update(i - 1, ascii_upper(s[i])) =~= s.update(
            i,
            ascii_upper(s[i]),
        ));
    }
}

pub proof fn lemma_capitalized_none(s: Seq<char>)
    requires
        forall|j: int| 0 <= j < s.len() ==> !is_letter(#[trigger] s[j]),
    ensures
        ascii_capitalized(s) == s,
    decreases s.len(),
{
    if s.len() > 0 {
        assert(!is_letter(s[0]));
        let t = s.drop_first();
        assert forall|j: int| 0 <= j < t.len() implies !is_letter(#[trigger] t[j]) by {
            assert(!is_letter(s[j + 1]));
        }
        lemma_capitalized_none(t);
        assert(seq![s.first()] + t =~= s);
    }
}

proof fn lemma_part_is_ascii(s: Seq<char>, from: int, to: int)
    requires
        text::is_ascii_text(s),
        0 <= from <= to <= s.len(),
    ensures
        text::is_ascii_text(s.subrange(from, to)),
{
    let part = s.subrange(from, to);
    assert forall|i: int| 0 <= i < part.len() implies part[i] <= '\u{7f}' by {
        assert(part[i] == s[from + i]);
    }
}

proof fn lemma_trim_is_ascii(s: Seq<char>)
    requires
        text::is_ascii_text(s),
    ensures
        text::is_ascii_text(text::trim_start(s)),
        text::is_ascii_text(text::trim(s)),
{
    text::lemma_trim_start_facts(s);
    let t = text::trim_start(s);
    assert(t =~= s.subrange(s.len() - t.len(), s.len() as int));
    lemma_part_is_ascii(s, s.len() - t.len(), s.len() as int);
    text::lemma_trim_end_facts(t);
    let u = text::trim(s);
    assert(u =~= t.subrange(0, u.len() as int));
    lemma_part_is_ascii(t, 0, u.len() as int);
}

/// What is true of a word that whitespace was cut from: it holds something, and
/// no whitespace.
pub open spec fn is_word(w: Seq<char>) -> bool {
    w.len() > 0 && forall|i: int| 0 <= i < w.len() ==> !text::is_white(#[trigger] w[i])
}

pub proof fn lemma_word_len(s: Seq<char>)
    ensures
        word_len(s) <= s.len(),
        s.len() > 0 && !text::is_white(s.first()) ==> word_len(s) > 0,
        forall|i: int| 0 <= i < word_len(s) ==> !text::is_white(#[trigger] s[i]),
        word_len(s) < s.len() ==> text::is_white(s[word_len(s) as int]),
    decreases s.len(),
{
    if s.len() > 0 && !text::is_white(s.first()) {
        let t = s.drop_first();
        lemma_word_len(t);
        assert forall|i: int| 0 <= i < word_len(s) implies !text::is_white(#[trigger] s[i]) by {
            if i > 0 {
                assert(!text::is_white(t[i - 1]));
            }
        }
    }
}

pub proof fn lemma_words(s: Seq<char>)
    ensures
        forall|k: int| 0 <= k < words(s).len() ==> is_word(#[trigger] words(s)[k]),
        text::is_ascii_text(s) ==> all_ascii(words(s)),
    decreases s.len(),
{
    text::lemma_trim_start_facts(s);
    let t = text::trim_start(s);
    if t.len() > 0 {
        lemma_word_len(t);
        let n = word_len(t) as int;
        let word = t.take(n);
        let rest = t.skip(n);
        lemma_words(rest);
        assert forall|i: int| 0 <= i < word.len() implies !text::is_white(#[trigger] word[i]) by {
            assert(!text::is_white(t[i]));
        }
        assert(words(s) == seq![word] + words(rest));
        assert forall|k: int| 0 <= k < words(s).len() implies is_word(#[trigger] words(s)[k]) by {
            if k > 0 {
                assert(words(s)[k] == words(rest)[k - 1]);
            }
        }
        if text::is_ascii_text(s) {
            lemma_trim_is_ascii(s);
            assert(word =~= t.subrange(0, n));
            lemma_part_is_ascii(t, 0, n);
            assert(rest =~= t.subrange(n, t.len() as int));
            lemma_part_is_ascii(t, n, t.len() as int);
            assert forall|k: int| 0 <= k < words(s).len() implies text::is_ascii_text(
                #[trigger] words(s)[k],
            ) by {
                if k > 0 {
                    assert(words(s)[k] == words(rest)[k - 1]);
                }
            }
        }
    }
}

/// What is true of a word that is ready to be printed: it is a word, and does
/// not begin or end with a control character.
pub open spec fn is_printable(w: Seq<char>) -> bool {
    is_word(w) && !text::is_control_char(w.first()) && !text::is_control_char(w.last())
}

proof fn lemma_strip_start(w: Seq<char>)
    ensures
        strip_start(w).len() <= w.len(),
        strip_start(w) == w.subrange(w.len() - strip_start(w).len(), w.len() as int),
        strip_start(w).len() > 0 ==> !text::is_control_char(strip_start(w).first()),
    decreases w.len(),
{
    if w.len() > 0 && text::is_control_char(w.first()) {
        let t = w.drop_first();
        lemma_strip_start(t);
        assert(strip_start(w) =~= w.subrange(w.len() - strip_start(w).len(), w.len() as int));
    } else {
        assert(w =~= w.subrange(0, w.len() as int));
    }
}

proof fn lemma_strip_end(w: Seq<char>)
    ensures
        strip_end(w).len() <= w.len(),
        strip_end(w) == w.subrange(0, strip_end(w).len() as int),
        strip_end(w).len() > 0 ==> !text::is_control_char(strip_end(w).last()),
    decreases w.len(),
{
    if w.len() > 0 && text::is_control_char(w.last()) {
        let t = w.drop_last();
        lemma_strip_end(t);
        assert(strip_end(w) =~= w.subrange(0, strip_end(w).len() as int));
    } else {
        assert(w =~= w.subrange(0, w.len() as int));
    }
}

proof fn lemma_stripped(w: Seq<char>)
    requires
        is_word(w),
    ensures
        strip_end(strip_start(w)).len() > 0 ==> is_printable(strip_end(strip_start(w))),
        text::is_ascii_text(w) ==> text::is_ascii_text(strip_end(strip_start(w))),
        is_printable(w) ==> strip_end(strip_start(w)) == w,
{
    let a = strip_start(w);
    let b = strip_end(a);
    lemma_strip_start(w);
    lemma_strip_end(a);
    let from = w.len() - a.len();
    assert(b =~= w.subrange(from, from + b.len()));
    assert forall|i: int| 0 <= i < b.len() implies !text::is_white(#[trigger] b[i]) by {
        assert(b[i] == w[from + i]);
    }
    if b.len() > 0 {
        assert(b.first() == a.first());
    }
    if text::is_ascii_text(w) {
        lemma_part_is_ascii(w, from, from + b.len());
    }
}

pub proof fn lemma_printable(list: Seq<Seq<char>>)
    requires
        forall|k: int| 0 <= k < list.len() ==> is_word(#[trigger] list[k]),
    ensures
        forall|k: int| 0 <= k < printable(list).len() ==> is_printable(#[trigger] printable(list)[k]),
        all_ascii(list) ==> all_ascii(printable(list)),
        (forall|k: int| 0 <= k < list.len() ==> is_printable(#[trigger] list[k])) ==> printable(list)
            == list,
    decreases list.len(),
{
    if list.len() > 0 {
        let before = list.drop_last();
        assert forall|k: int| 0 <= k < before.len() implies is_word(#[trigger] before[k]) by {
            assert(is_word(list[k]));
        }
        lemma_printable(before);
        assert(is_word(list[list.len() - 1]));
        lemma_stripped(list.last());
        if all_ascii(list) {
            assert(text::is_ascii_text(list[list.len() - 1]));
            assert forall|k: int| 0 <= k < before.len() implies text::is_ascii_text(
                #[trigger] before[k],
            ) by {
                assert(text::is_ascii_text(list[k]));
            }
        }
        if forall|k: int| 0 <= k < list.len() ==> is_printable(#[trigger] list[k]) {
            assert(is_printable(list[list.len() - 1]));
            assert forall|k: int| 0 <= k < before.len() implies is_printable(
                #[trigger] before[k],
            ) by {
                assert(is_printable(list[k]));
            }
            assert(before.push(list.last()) =~= list);
        }
    } else {
        assert(printable(list) =~= list);
    }
}

proof fn lemma_without_fillers(list: Seq<Seq<char>>)
    ensures
        without_fillers(list).len() <= list.len(),
        without_fillers(list) == list.skip(list.len() - without_fillers(list).len()),
        without_fillers(list).len() > 0 ==> !is_filler(without_fillers(list).first()),
    decreases list.len(),
{
    if list.len() > 0 && is_filler(list.first()) {
        let rest = list.drop_first();
        lemma_without_fillers(rest);
        let kept = without_fillers(rest);
        assert(kept =~= list.skip(list.len() - kept.len()));
    } else {
        assert(list.skip(0) =~= list);
    }
}

/// The marks that no space stands before.
pub open spec fn is_mark(c: char) -> bool {
    c == ',' || c == '.' || c == '!' || c == '?' || c == ';' || c == ':'
}

/// Whether the lower-case form of a word is one of the first person.
spec fn is_first_person(lower: Seq<char>) -> bool {
    lower == "i"@ || lower == "i'm"@ || lower == "i'd"@ || lower == "i've"@ || lower == "i'll"@
}

proof fn lemma_spelled(w: Seq<char>)
    ensures
        text::ascii_lower_text(spelled(w)) == text::ascii_lower_text(w),
        spelled(spelled(w)) == spelled(w),
        is_filler(spelled(w)) == is_filler(w),
        is_printable(w) ==> is_printable(spelled(w)),
        text::is_ascii_text(w) ==> text::is_ascii_text(spelled(w)),
        is_first_person(text::ascii_lower_text(w)) ==> spelled(w).len() > 0 && spelled(w)[0] == 'I',
        !is_first_person(text::ascii_lower_text(w)) ==> spelled(w) == w,
{
    reveal_strlit("i");
    reveal_strlit("i'm");
    reveal_strlit("i'd");
    reveal_strlit("i've");
    reveal_strlit("i'll");
    reveal_strlit("I");
    reveal_strlit("I'm");
    reveal_strlit("I'd");
    reveal_strlit("I've");
    reveal_strlit("I'll");
    assert(text::ascii_lower_text("I"@) =~= "i"@);
    assert(text::ascii_lower_text("I'm"@) =~= "i'm"@);
    assert(text::ascii_lower_text("I'd"@) =~= "i'd"@);
    assert(text::ascii_lower_text("I've"@) =~= "i've"@);
    assert(text::ascii_lower_text("I'll"@) =~= "i'll"@);
}

/// The usual spelling of a word differs from the word in case alone.
pub proof fn lemma_lower_spelled(w: Seq<char>)
    ensures
        text::ascii_lower_text(spelled(w)) == text::ascii_lower_text(w),
{
    lemma_spelled(w);
}

/// A word with a mark in it is neither a filler nor the first person.
proof fn lemma_marked(w: Seq<char>, i: int)
    requires
        0 <= i < w.len(),
        is_mark(w[i]),
    ensures
        !is_filler(w),
        spelled(w) == w,
{
    reveal_strlit("i");
    reveal_strlit("i'm");
    reveal_strlit("i'd");
    reveal_strlit("i've");
    reveal_strlit("i'll");
    reveal_strlit("uh");
    reveal_strlit("um");
    reveal_strlit("erm");
    reveal_strlit("ah");
    reveal_strlit("eh");
    reveal_strlit("hmm");
    let lower = text::ascii_lower_text(w);
    assert(lower[i] == w[i]);
    assert(lower.len() == w.len());
    assert(i == 0 || i == 1 || i == 2 || i == 3 || i >= 4);
}

/// What is true of the words of a polished sentence: they can be printed and are
/// spelled as usual, and the first is no filler.
pub open spec fn are_settled(list: Seq<Seq<char>>) -> bool {
    &&& forall|k: int|
        0 <= k < list.len() ==> is_printable(#[trigger] list[k]) && spelled(list[k]) == list[k]
    &&& list.len() > 0 ==> !is_filler(list[0])
}

/// Whether no word but the first begins with `mark`.
pub open spec fn none_begins(list: Seq<Seq<char>>, mark: char) -> bool {
    forall|k: int| 1 <= k < list.len() ==> (#[trigger] list[k]).first() != mark
}

/// Each word in its usual spelling.
spec fn all_spelled(list: Seq<Seq<char>>) -> Seq<Seq<char>> {
    list.map_values(|w: Seq<char>| spelled(w))
}

proof fn lemma_all_spelled(list: Seq<Seq<char>>)
    ensures
        sentence_of(all_spelled(list)) == sentence_of(list),
    decreases list.len(),
{
    if list.len() > 0 {
        let before = list.drop_last();
        lemma_all_spelled(before);
        lemma_spelled(list.last());
        assert(all_spelled(list).drop_last() =~= all_spelled(before));
        assert(all_spelled(list).last() == spelled(list.last()));
    } else {
        assert(all_spelled(list) =~= list);
    }
}

/// The words of a list, with those that begin with `mark` put on to the word
/// before.
pub open spec fn merged(list: Seq<Seq<char>>, mark: char) -> Seq<Seq<char>>
    decreases list.len(),
{
    if list.len() <= 1 {
        list
    } else {
        let before = merged(list.drop_last(), mark);
        if list.last().first() == mark {
            before.drop_last().push(before.last() + list.last())
        } else {
            before.push(list.last())
        }
    }
}

proof fn lemma_closed_up_word(w: Seq<char>, mark: char)
    requires
        forall|i: int| 0 <= i < w.len() ==> #[trigger] w[i] != ' ',
    ensures
        closed_up(w, mark) == w,
    decreases w.len(),
{
    if w.len() > 0 {
        let t = w.drop_last();
        assert forall|i: int| 0 <= i < t.len() implies #[trigger] t[i] != ' ' by {
            assert(w[i] != ' ');
        }
        lemma_closed_up_word(t, mark);
        if w.len() >= 2 {
            assert(w[w.len() - 2] != ' ');
        }
        assert(t.push(w.last()) =~= w);
    }
}

proof fn lemma_closed_up_append(a: Seq<char>, w: Seq<char>, mark: char)
    requires
        w.len() > 0,
        forall|i: int| 0 <= i < w.len() ==> #[trigger] w[i] != ' ',
        mark != ' ',
    ensures
        closed_up(a.push(' ') + w, mark) == if w.first() == mark {
            closed_up(a, mark) + w
        } else {
            closed_up(a, mark).push(' ') + w
        },
    decreases w.len(),
{
    let s = a.push(' ') + w;
    let t = w.drop_last();
    assert(s.last() == w.last());
    assert(s.drop_last() =~= a.push(' ') + t);
    assert(a.push(' ').drop_last() =~= a);
    if w.len() == 1 {
        assert(a.push(' ') + t =~= a.push(' '));
        assert(s[s.len() - 2] == ' ');
        assert(closed_up(a.push(' '), mark) == closed_up(a, mark).push(' '));
        assert(s.drop_last().drop_last() =~= a);
        if w.first() == mark {
            assert(closed_up(s, mark) == closed_up(a, mark).push(mark));
            assert(closed_up(a, mark).push(mark) =~= closed_up(a, mark) + w);
        } else {
            assert(closed_up(a, mark).push(' ').push(w.last()) =~= closed_up(a, mark).push(' ')
                + w);
        }
    } else {
        assert(s[s.len() - 2] == w[w.len() - 2]);
        assert forall|i: int| 0 <= i < t.len() implies #[trigger] t[i] != ' ' by {
            assert(w[i] != ' ');
        }
        lemma_closed_up_append(a, t, mark);
        assert(t.first() == w.first());
        assert(closed_up(s, mark) == closed_up(s.drop_last(), mark).push(w.last()));
        assert((closed_up(a, mark) + t).push(w.last()) =~= closed_up(a, mark) + w);
        assert((closed_up(a, mark).push(' ') + t).push(w.last()) =~= closed_up(a, mark).push(' ')
            + w);
    }
}

/// Putting words together and closing up the marks is putting merged words
/// together.
pub proof fn lemma_merged(list: Seq<Seq<char>>, mark: char)
    requires
        are_settled(list),
        is_mark(mark),
    ensures
        are_settled(merged(list, mark)),
        merged(list, mark).len() <= list.len(),
        list.len() > 0 ==> merged(list, mark).len() > 0,
        none_begins(merged(list, mark), mark),
        forall|other: char| none_begins(list, other) ==> none_begins(merged(list, mark), other),
        none_begins(list, mark) ==> merged(list, mark) == list,
        closed_up(sentence_of(list), mark) == sentence_of(merged(list, mark)),
    decreases list.len(),
{
    if list.len() == 0 {
        assert(sentence_of(list) =~= Seq::<char>::empty());
    } else if list.len() == 1 {
        assert(is_printable(list[0]) && spelled(list[0]) == list[0]);
        let w = list[0];
        assert forall|i: int| 0 <= i < w.len() implies #[trigger] w[i] != ' ' by {
            assert(!text::is_white(w[i]));
        }
        lemma_closed_up_word(w, mark);
    } else {
        let head = list.drop_last();
        let w = list.last();
        assert(list[list.len() - 1] == w);
        assert(is_printable(w) && spelled(w) == w);
        lemma_settled_head(list);
        lemma_merged(head, mark);
        let before = merged(head, mark);
        let after = merged(list, mark);
        assert forall|i: int| 0 <= i < w.len() implies #[trigger] w[i] != ' ' by {
            assert(!text::is_white(w[i]));
        }
        lemma_closed_up_append(sentence_of(head), w, mark);
        assert(sentence_of(list) == sentence_of(head).push(' ') + w);
        assert forall|other: char| none_begins(list, other) implies none_begins(head, other) by {
            assert forall|k: int| 1 <= k < head.len() implies (#[trigger] head[k]).first()
                != other by {
                assert(list[k].first() != other);
            }
        }
        if w.first() == mark {
            let last = before.last();
            assert(before[before.len() - 1] == last);
            assert(is_printable(last) && spelled(last) == last);
            let grown = last + w;
            assert(grown[last.len() as int] == w.first());
            lemma_marked(grown, last.len() as int);
            assert forall|i: int| 0 <= i < grown.len() implies !text::is_white(
                #[trigger] grown[i],
            ) by {
                if i < last.len() {
                    assert(!text::is_white(last[i]));
                } else {
                    assert(!text::is_white(w[i - last.len()]));
                }
            }
            assert(grown.first() == last.first());
            assert(grown.last() == w.last());
            assert(is_printable(grown));
            assert(after == before.drop_last().push(grown));
            assert forall|k: int| 0 <= k < after.len() implies is_printable(#[trigger] after[k])
                && spelled(after[k]) == after[k] by {
                if k < after.len() - 1 {
                    assert(after[k] == before[k]);
                }
            }
            assert(after.len() > 1 ==> after[0] == before[0]);
            assert(after.drop_last() =~= before.drop_last());
            if before.len() == 1 {
                assert(sentence_of(before) == last);
            } else {
                assert(sentence_of(before) == sentence_of(before.drop_last()).push(' ') + last);
                assert(sentence_of(before.drop_last()).push(' ') + grown =~= (sentence_of(
                    before.drop_last(),
                ).push(' ') + last) + w);
            }
            assert(sentence_of(after) =~= sentence_of(before) + w);
            assert forall|other: char| none_begins(before, other) implies none_begins(
                after,
                other,
            ) by {
                assert forall|k: int| 1 <= k < after.len() implies (#[trigger] after[k]).first()
                    != other by {
                    assert(before[k].first() != other);
                }
            }
            if none_begins(list, mark) {
                assert(list[list.len() - 1].first() != mark);
            }
        } else {
            assert(after == before.push(w));
            assert forall|k: int| 0 <= k < after.len() implies is_printable(#[trigger] after[k])
                && spelled(after[k]) == after[k] by {
                if k < before.len() {
                    assert(after[k] == before[k]);
                }
            }
            assert(after[0] == before[0]);
            assert(after.drop_last() =~= before);
            assert forall|other: char|
                none_begins(before, other) && w.first() != other implies none_begins(
                after,
                other,
            ) by {
                assert forall|k: int| 1 <= k < after.len() implies (#[trigger] after[k]).first()
                    != other by {
                    if k < before.len() {
                        assert(before[k].first() != other);
                    }
                }
            }
            assert forall|other: char| none_begins(list, other) implies w.first() != other by {
                assert(list[list.len() - 1].first() != other);
            }
            if none_begins(list, mark) {
                assert(after =~= list);
            }
        }
    }
}

pub proof fn lemma_settled_head(list: Seq<Seq<char>>)
    requires
        list.len() > 0,
        are_settled(list),
    ensures
        are_settled(list.drop_last()),
{
    let head = list.drop_last();
    assert forall|k: int| 0 <= k < head.len() implies is_printable(#[trigger] head[k]) && spelled(
        head[k],
    ) == head[k] by {
        assert(is_printable(list[k]) && spelled(list[k]) == list[k]);
    }
    if head.len() > 0 {
        assert(head[0] == list[0]);
    }
}

/// Whether no word but the first begins with any mark.
pub open spec fn none_begins_with_a_mark(list: Seq<Seq<char>>) -> bool {
    &&& none_begins(list, ',')
    &&& none_begins(list, '.')
    &&& none_begins(list, '!')
    &&& none_begins(list, '?')
    &&& none_begins(list, ';')
    &&& none_begins(list, ':')
}

/// The words of a list, with those that begin with a mark put on to the word
/// before.
pub open spec fn all_merged(list: Seq<Seq<char>>) -> Seq<Seq<char>> {
    merged(merged(merged(merged(merged(merged(list, ','), '.'), '!'), '?'), ';'), ':')
}

pub proof fn lemma_all_merged(list: Seq<Seq<char>>)
    requires
        are_settled(list),
    ensures
        are_settled(all_merged(list)),
        none_begins_with_a_mark(all_merged(list)),
        tidy(sentence_of(list)) == sentence_of(all_merged(list)),
        none_begins_with_a_mark(list) ==> all_merged(list) == list,
{
    let a = merged(list, ',');
    let b = merged(a, '.');
    let c = merged(b, '!');
    let d = merged(c, '?');
    let e = merged(d, ';');
    lemma_merged(list, ',');
    lemma_merged(a, '.');
    lemma_merged(b, '!');
    lemma_merged(c, '?');
    lemma_merged(d, ';');
    lemma_merged(e, ':');
}

pub proof fn lemma_word_len_append(a: Seq<char>, w: Seq<char>)
    ensures
        word_len(a.push(' ') + w) == word_len(a),
    decreases a.len(),
{
    let s = a.push(' ') + w;
    if a.len() > 0 && !text::is_white(a.first()) {
        assert(s.first() == a.first());
        assert(s.drop_first() =~= a.drop_first().push(' ') + w);
        lemma_word_len_append(a.drop_first(), w);
    } else if a.len() == 0 {
        assert(s.first() == ' ');
    } else {
        assert(s.first() == a.first());
    }
}

pub proof fn lemma_words_of_one(w: Seq<char>)
    requires
        is_word(w),
    ensures
        words(w) == seq![w],
{
    assert(!text::is_white(w[0]));
    assert(text::trim_start(w) == w);
    lemma_word_len(w);
    assert(word_len(w) == w.len());
    assert(w.take(w.len() as int) =~= w);
    let rest = w.skip(w.len() as int);
    assert(text::trim_start(rest).len() == 0);
    assert(words(rest) =~= Seq::<Seq<char>>::empty());
    assert(words(w) =~= seq![w]);
}

proof fn lemma_words_append(a: Seq<char>, w: Seq<char>)
    requires
        is_word(w),
    ensures
        words(a.push(' ') + w) == words(a).push(w),
    decreases a.len(),
{
    let s = a.push(' ') + w;
    if a.len() == 0 {
        assert(s.first() == ' ');
        assert(s.drop_first() =~= w);
        assert(text::trim_start(s) == text::trim_start(w));
        lemma_words_of_one(w);
        assert(words(s) == words(w));
        assert(words(a) =~= Seq::<Seq<char>>::empty());
        assert(words(a).push(w) =~= seq![w]);
    } else if text::is_white(a.first()) {
        let rest = a.drop_first();
        assert(s.first() == a.first());
        assert(s.drop_first() =~= rest.push(' ') + w);
        assert(text::trim_start(s) == text::trim_start(rest.push(' ') + w));
        assert(text::trim_start(a) == text::trim_start(rest));
        lemma_words_append(rest, w);
        assert(words(s) == words(rest.push(' ') + w));
        assert(words(a) == words(rest));
    } else {
        assert(s.first() == a.first());
        assert(text::trim_start(s) == s);
        assert(text::trim_start(a) == a);
        lemma_word_len(a);
        lemma_word_len_append(a, w);
        let n = word_len(a) as int;
        let rest = a.skip(n);
        assert(s.take(n) =~= a.take(n));
        assert(s.skip(n) =~= rest.push(' ') + w);
        lemma_words_append(rest, w);
        assert(words(s) == seq![a.take(n)] + words(rest).push(w));
        assert(words(a) == seq![a.take(n)] + words(rest));
        assert(words(s) =~= words(a).push(w));
    }
}

/// The words of a sentence that was put together are those that it was put
/// together from.
proof fn lemma_words_of_sentence(list: Seq<Seq<char>>)
    requires
        are_settled(list),
    ensures
        words(sentence_of(list)) == list,
        list.len() > 0 ==> sentence_of(list).len() > 0 && !text::is_white(
            sentence_of(list).first(),
        ) && !text::is_white(sentence_of(list).last()),
    decreases list.len(),
{
    let s = sentence_of(list);
    if list.len() == 0 {
        assert(text::trim_start(s).len() == 0);
        assert(words(s) =~= list);
    } else {
        let w = list.last();
        assert(list[list.len() - 1] == w);
        assert(is_printable(w) && spelled(w) == w);
        assert(!text::is_white(w[0]) && !text::is_white(w[w.len() - 1]));
        if list.len() == 1 {
            lemma_words_of_one(w);
            assert(list =~= seq![w]);
        } else {
            let head = list.drop_last();
            lemma_settled_head(list);
            lemma_words_of_sentence(head);
            lemma_words_append(sentence_of(head), w);
            assert(s == sentence_of(head).push(' ') + w);
            assert(head.push(w) =~= list);
            assert(s.first() == sentence_of(head).first());
            assert(s.last() == w.last());
        }
    }
}

/// A sentence of settled words, none of which begins with a mark, is left as it
/// is.
proof fn lemma_settled_sentence(list: Seq<Seq<char>>)
    requires
        are_settled(list),
        none_begins_with_a_mark(list),
        list.len() > 0,
    ensures
        text::trim(sentence_of(list)) == sentence_of(list),
        sentence_of(list).len() > 0,
        tidied(sentence_of(list)) == sentence_of(list),
{
    let s = sentence_of(list);
    lemma_words_of_sentence(list);
    assert(text::trim_start(s) == s);
    assert(text::trim(s) == s);
    assert forall|k: int| 0 <= k < list.len() implies is_word(#[trigger] list[k]) by {
        assert(is_printable(list[k]));
    }
    lemma_printable(list);
    assert(printable(list) == list);
    assert(!is_filler(list.first()));
    assert(without_fillers(list) == list);
    lemma_all_merged(list);
}

/// The words that a sentence is polished to, before its first letter and its end
/// are put right.
pub proof fn lemma_tidied(s: Seq<char>) -> (list: Seq<Seq<char>>)
    ensures
        are_settled(list),
        none_begins_with_a_mark(list),
        tidied(s) == sentence_of(list),
{
    let t = text::trim(s);
    lemma_words(t);
    lemma_printable(words(t));
    let shown = printable(words(t));
    lemma_without_fillers(shown);
    let kept = without_fillers(shown);
    let list = all_spelled(kept);
    assert forall|k: int| 0 <= k < list.len() implies is_printable(#[trigger] list[k]) && spelled(
        list[k],
    ) == list[k] by {
        assert(is_printable(shown[shown.len() - kept.len() + k]));
        lemma_spelled(kept[k]);
    }
    if list.len() > 0 {
        lemma_spelled(kept[0]);
        assert(!is_filler(kept.first()));
    }
    lemma_all_spelled(kept);
    lemma_all_merged(list);
    all_merged(list)
}

/// The words of a sentence, with the character at `i` of the sentence replaced.
spec fn replaced(list: Seq<Seq<char>>, i: int, c: char) -> Seq<Seq<char>>
    decreases list.len(),
{
    if list.len() == 0 {
        list
    } else {
        let start = if list.len() == 1 {
            0
        } else {
            sentence_of(list.drop_last()).len() + 1
        };
        if i >= start {
            list.drop_last().push(list.last().update(i - start, c))
        } else {
            replaced(list.drop_last(), i, c).push(list.last())
        }
    }
}

/// Making the first letter a capital keeps the words settled.
proof fn lemma_replaced(list: Seq<Seq<char>>, i: int)
    requires
        are_settled(list),
        0 <= i < sentence_of(list).len(),
        'a' <= sentence_of(list)[i] <= 'z',
        forall|j: int| 0 <= j < i ==> !is_letter(#[trigger] sentence_of(list)[j]),
    ensures
        ({
            let s = sentence_of(list);
            let c = ascii_upper(s[i]);
            let after = replaced(list, i, c);
            &&& are_settled(after)
            &&& after.len() == list.len()
            &&& sentence_of(after) == s.update(i, c)
            &&& forall|mark: char|
                is_mark(mark) && none_begins(list, mark) ==> none_begins(after, mark)
        }),
    decreases list.len(),
{
    let s = sentence_of(list);
    let c = ascii_upper(s[i]);
    let after = replaced(list, i, c);
    if list.len() == 0 {
        assert(s.len() == 0);
    } else {
        let head = list.drop_last();
        let w = list.last();
        assert(list[list.len() - 1] == w);
        assert(is_printable(w) && spelled(w) == w);
        lemma_settled_head(list);
        let start = if list.len() == 1 {
            0
        } else {
            sentence_of(head).len() + 1
        };
        if i >= start {
            let at = i - start;
            let new = w.update(at, c);
            assert(s[i] == w[at]);
            assert(s[start as int] == w[0]);
            if at > 0 {
                assert(!is_letter(s[start as int]));
            }
            assert(w[0] != 'I');
            lemma_spelled(w);
            assert(text::ascii_lower_text(new) =~= text::ascii_lower_text(w));
            lemma_spelled(new);
            assert(spelled(new) == new);
            assert forall|j: int| 0 <= j < new.len() implies !text::is_white(#[trigger] new[j]) by {
                if j != at {
                    assert(!text::is_white(w[j]));
                }
            }
            assert(is_printable(new));
            assert(after == head.push(new));
            assert forall|k: int| 0 <= k < after.len() implies is_printable(#[trigger] after[k])
                && spelled(after[k]) == after[k] by {
                if k < head.len() {
                    assert(after[k] == head[k]);
                }
            }
            assert(is_filler(new) == is_filler(w));
            assert(after.drop_last() =~= head);
            if list.len() == 1 {
                assert(sentence_of(after) =~= s.update(i, c));
            } else {
                assert(sentence_of(head).push(' ') + new =~= s.update(i, c));
            }
            assert forall|mark: char| is_mark(mark) && none_begins(list, mark) implies none_begins(
                after,
                mark,
            ) by {
                assert forall|k: int| 1 <= k < after.len() implies (#[trigger] after[k]).first()
                    != mark by {
                    assert(list[k].first() != mark);
                }
            }
        } else {
            let before = sentence_of(head);
            assert(s == before.push(' ') + w);
            if i == before.len() {
                assert(s[i] == ' ');
            }
            assert(s[i] == before[i]);
            assert forall|j: int| 0 <= j < i implies !is_letter(#[trigger] before[j]) by {
                assert(!is_letter(s[j]));
            }
            lemma_replaced(head, i);
            let moved = replaced(head, i, c);
            assert(after == moved.push(w));
            assert forall|k: int| 0 <= k < after.len() implies is_printable(#[trigger] after[k])
                && spelled(after[k]) == after[k] by {
                if k < moved.len() {
                    assert(after[k] == moved[k]);
                }
            }
            assert(after[0] == moved[0]);
            assert(after.drop_last() =~= moved);
            assert(before.update(i, c).push(' ') + w =~= s.update(i, c));
            assert forall|mark: char| is_mark(mark) && none_begins(list, mark) implies none_begins(
                after,
                mark,
            ) by {
                assert forall|k: int| 1 <= k < head.len() implies (#[trigger] head[k]).first()
                    != mark by {
                    assert(list[k].first() != mark);
                }
                assert(none_begins(moved, mark));
                assert forall|k: int| 1 <= k < after.len() implies (#[trigger] after[k]).first()
                    != mark by {
                    if k < moved.len() {
                        assert(moved[k].first() != mark);
                    } else {
                        assert(list[k].first() != mark);
                    }
                }
            }
        }
    }
}

/// The place of the first letter, or the length of the text if there is none.
pub open spec fn first_letter(s: Seq<char>) -> int
    decreases s.len(),
{
    if s.len() == 0 || is_letter(s.first()) {
        0
    } else {
        1 + first_letter(s.drop_first())
    }
}

pub proof fn lemma_first_letter(s: Seq<char>)
    ensures
        0 <= first_letter(s) <= s.len(),
        forall|j: int| 0 <= j < first_letter(s) ==> !is_letter(#[trigger] s[j]),
        first_letter(s) < s.len() ==> is_letter(s[first_letter(s)]),
    decreases s.len(),
{
    if s.len() > 0 && !is_letter(s.first()) {
        let t = s.drop_first();
        lemma_first_letter(t);
        assert forall|j: int| 0 <= j < first_letter(s) implies !is_letter(#[trigger] s[j]) by {
            if j > 0 {
                assert(!is_letter(t[j - 1]));
            }
        }
    }
}

/// The words of a sentence whose first letter is made a capital.
pub proof fn lemma_capitalized_sentence(list: Seq<Seq<char>>) -> (after: Seq<Seq<char>>)
    requires
        are_settled(list),
        none_begins_with_a_mark(list),
    ensures
        are_settled(after),
        none_begins_with_a_mark(after),
        sentence_of(after) == ascii_capitalized(sentence_of(list)),
{
    let s = sentence_of(list);
    lemma_first_letter(s);
    let i = first_letter(s);
    if i == s.len() {
        lemma_capitalized_none(s);
        list
    } else {
        lemma_capitalized_at(s, i);
        if 'a' <= s[i] <= 'z' {
            lemma_replaced(list, i);
            assert(is_mark(',') && is_mark('.') && is_mark('!'));
            assert(is_mark('?') && is_mark(';') && is_mark(':'));
            replaced(list, i, ascii_upper(s[i]))
        } else {
            assert(s.update(i, s[i]) =~= s);
            list
        }
    }
}

/// The words of a sentence that is closed with a full stop.
pub proof fn lemma_closed_sentence(list: Seq<Seq<char>>) -> (after: Seq<Seq<char>>)
    requires
        are_settled(list),
        none_begins_with_a_mark(list),
    ensures
        are_settled(after),
        none_begins_with_a_mark(after),
        after.len() > 0,
        sentence_of(after) == sentence_of(list).push('.'),
{
    if list.len() == 0 {
        let w = seq!['.'];
        lemma_marked(w, 0);
        let after = seq![w];
        assert(sentence_of(after) =~= sentence_of(list).push('.'));
        after
    } else {
        let head = list.drop_last();
        let w = list.last();
        assert(list[list.len() - 1] == w);
        assert(is_printable(w) && spelled(w) == w);
        let new = w.push('.');
        assert(new[w.len() as int] == '.');
        lemma_marked(new, w.len() as int);
        assert forall|j: int| 0 <= j < new.len() implies !text::is_white(#[trigger] new[j]) by {
            if j < w.len() {
                assert(!text::is_white(w[j]));
            }
        }
        assert(new.first() == w.first());
        let after = head.push(new);
        assert forall|k: int| 0 <= k < after.len() implies is_printable(#[trigger] after[k])
            && spelled(after[k]) == after[k] by {
            if k < head.len() {
                assert(after[k] == list[k]);
            }
        }
        assert(after.len() > 1 ==> after[0] == list[0]);
        assert(after.drop_last() =~= head);
        if list.len() > 1 {
            assert(sentence_of(head).push(' ') + new =~= (sentence_of(head).push(' ') + w).push(
                '.',
            ));
        }
        assert forall|mark: char| none_begins(list, mark) implies none_begins(after, mark) by {
            assert forall|k: int| 1 <= k < after.len() implies (#[trigger] after[k]).first()
                != mark by {
                assert(list[k].first() != mark);
            }
        }
        after
    }
}

proof fn lemma_sentence_is_ascii(list: Seq<Seq<char>>)
    requires
        all_ascii(list),
    ensures
        text::is_ascii_text(sentence_of(list)),
    decreases list.len(),
{
    if list.len() > 0 {
        let head = list.drop_last();
        assert forall|k: int| 0 <= k < head.len() implies text::is_ascii_text(
            #[trigger] head[k],
        ) by {
            assert(text::is_ascii_text(list[k]));
        }
        lemma_sentence_is_ascii(head);
        assert(text::is_ascii_text(list[list.len() - 1]));
        lemma_spelled(list.last());
    }
}

proof fn lemma_closed_up_is_ascii(s: Seq<char>, mark: char)
    requires
        text::is_ascii_text(s),
    ensures
        text::is_ascii_text(closed_up(s, mark)),
    decreases s.len(),
{
    if s.len() > 0 {
        lemma_closed_up_is_ascii(s.drop_last(), mark);
        if s.len() >= 2 {
            lemma_closed_up_is_ascii(s.drop_last().drop_last(), mark);
        }
    }
}

pub proof fn lemma_tidied_is_ascii(s: Seq<char>)
    requires
        text::is_ascii_text(s),
    ensures
        text::is_ascii_text(tidied(s)),
{
    lemma_trim_is_ascii(s);
    let t = text::trim(s);
    lemma_words(t);
    lemma_printable(words(t));
    let shown = printable(words(t));
    lemma_without_fillers(shown);
    let kept = without_fillers(shown);
    assert forall|k: int| 0 <= k < kept.len() implies text::is_ascii_text(#[trigger] kept[k]) by {
        assert(text::is_ascii_text(shown[shown.len() - kept.len() + k]));
    }
    lemma_sentence_is_ascii(kept);
    let a = sentence_of(kept);
    let b = closed_up(a, ',');
    let c = closed_up(b, '.');
    let d = closed_up(c, '!');
    let e = closed_up(d, '?');
    let f = closed_up(e, ';');
    lemma_closed_up_is_ascii(a, ',');
    lemma_closed_up_is_ascii(b, '.');
    lemma_closed_up_is_ascii(c, '!');
    lemma_closed_up_is_ascii(d, '?');
    lemma_closed_up_is_ascii(e, ';');
    lemma_closed_up_is_ascii(f, ':');
}

/// Polishing ASCII text a second time changes nothing, and what is polished is
/// ASCII text again.
pub proof fn law_polishing_again_changes_nothing(s: Seq<char>)
    requires
        text::is_ascii_text(s),
    ensures
        text::is_ascii_text(ascii_normalized(s)),
        ascii_normalized(ascii_normalized(s)) == ascii_normalized(s),
{
    if text::trim(s).len() == 0 {
        let empty = Seq::<char>::empty();
        assert(text::trim(empty).len() == 0);
    } else {
        lemma_tidied_is_ascii(s);
        let t = tidied(s);
        lemma_capitalized_facts(t);
        let c = ascii_capitalized(t);
        let tidied_words = lemma_tidied(s);
        let capital_words = lemma_capitalized_sentence(tidied_words);
        lemma_capitalized_facts(c);
        let r = ascii_normalized(s);
        if is_closed(c) {
            if capital_words.len() == 0 {
                assert(c.len() == 0);
            }
            lemma_settled_sentence(capital_words);
        } else {
            let closed_words = lemma_closed_sentence(capital_words);
            lemma_settled_sentence(closed_words);
            assert(r == c.push('.'));
            assert(r.last() == '.');
        }
        assert(tidied(r) == r);
        assert(ascii_capitalized(r) == r);
        assert(is_closed(r));
    }
}

} // verus!
