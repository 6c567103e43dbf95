//! Text as a sequence of characters: reading strings into character vectors,
//! building strings back, and the whitespace and control-character rules that
//! the transcript modules share.
use vstd::prelude::*;

verus! {

/// `String::push`: the given character is appended to the end of the string.
pub assume_specification[ String::push ](s: &mut String, ch: char)
    ensures
        final(s)@ == old(s)@.push(ch),
;

/// The characters with Unicode's `White_Space` property.
pub open spec fn is_white(c: char) -> bool {
    ||| '\u{9}' <= c <= '\u{d}'
    ||| c == ' '
    ||| c == '\u{85}'
    ||| c == '\u{a0}'
    ||| c == '\u{1680}'
    ||| '\u{2000}' <= c <= '\u{200a}'
    ||| c == '\u{2028}'
    ||| c == '\u{2029}'
    ||| c == '\u{202f}'
    ||| c == '\u{205f}'
    ||| c == '\u{3000}'
}

/// The characters of Unicode's general category `Cc`.
pub open spec fn is_control_char(c: char) -> bool {
    c <= '\u{1f}' || '\u{7f}' <= c <= '\u{9f}'
}

/// An ASCII capital letter becomes its small letter, anything else stays.
pub open spec fn ascii_lower(c: char) -> char {
    if 'A' <= c <= 'Z' {
        ((c as int) + 32) as char
    } else {
        c
    }
}

pub open spec fn ascii_lower_text(s: Seq<char>) -> Seq<char> {
    s.map_values(|c: char| ascii_lower(c))
}

/// `s` without its leading whitespace.
pub open spec fn trim_start(s: Seq<char>) -> Seq<char>
    decreases s.len(),
{
    if s.len() > 0 && is_white(s.first()) {
        trim_start(s.drop_first())
    } else {
        s
    }
}

/// `s` without its trailing whitespace.
pub open spec fn trim_end(s: Seq<char>) -> Seq<char>
    decreases s.len(),
{
    if s.len() > 0 && is_white(s.last()) {
        trim_end(s.drop_last())
    } else {
        s
    }
}

/// `s` without whitespace at either end.
pub open spec fn trim(s: Seq<char>) -> Seq<char> {
    trim_end(trim_start(s))
}

/// The visible characters of `s`, in order.
pub open spec fn visible(s: Seq<char>) -> Seq<char>
    decreases s.len(),
{
    if s.len() == 0 {
        Seq::empty()
    } else if is_white(s.last()) {
        visible(s.drop_last())
    } else {
        visible(s.drop_last()).push(s.last())
    }
}

/// The texts of a list of strings.
pub open spec fn texts(list: Seq<String>) -> Seq<Seq<char>> {
    list.map_values(|s: String| s@)
}

/// The text of an optional string.
pub open spec fn opt_text(s: Option<String>) -> Option<Seq<char>> {
    match s {
        Some(t) => Some(t@),
        None => None,
    }
}

pub proof fn lemma_trim_start_facts(s: Seq<char>)
    ensures
        trim_start(s).len() <= s.len(),
        trim_start(s) == s.skip(s.len() - trim_start(s).len()),
        trim_start(s).len() > 0 ==> !is_white(trim_start(s).first()),
        forall|i: int| 0 <= i < s.len() - trim_start(s).len() ==> is_white(#[trigger] s[i]),
    decreases s.len(),
{
    if s.len() > 0 && is_white(s.first()) {
        lemma_trim_start_facts(s.drop_first());
        let t = s.drop_first();
        let r = trim_start(t);
        assert(r =~= s.skip(s.len() - r.len()));
        assert forall|i: int| 0 <= i < s.len() - r.len() implies is_white(#[trigger] s[i]) by {
            if i > 0 {
                assert(t[i - 1] == s[i]);
            }
        }
    } else {
        assert(s.skip(0) =~= s);
    }
}

pub proof fn lemma_trim_end_facts(s: Seq<char>)
    ensures
        trim_end(s).len() <= s.len(),
        trim_end(s) == s.take(trim_end(s).len() as int),
        trim_end(s).len() > 0 ==> !is_white(trim_end(s).last()),
        forall|i: int| trim_end(s).len() <= i < s.len() ==> is_white(#[trigger] s[i]),
    decreases s.len(),
{
    if s.len() > 0 && is_white(s.last()) {
        let t = s.drop_last();
        lemma_trim_end_facts(t);
        let r = trim_end(t);
        assert(r =~= s.take(r.len() as int));
        assert forall|i: int| r.len() <= i < s.len() implies is_white(#[trigger] s[i]) by {
            if i < t.len() {
                assert(t[i] == s[i]);
            }
        }
    } else {
        assert(s.take(s.len() as int) =~= s);
    }
}

/// A prefix of whitespace followed by a visible character (or the end) is what
/// `trim_start` removes.
pub proof fn lemma_trim_start_is_skip(s: Seq<char>, n: int)
    requires
        0 <= n <= s.len(),
        forall|i: int| 0 <= i < n ==> is_white(#[trigger] s[i]),
        n < s.len() ==> !is_white(s[n]),
    ensures
        trim_start(s) == s.skip(n),
{
    lemma_trim_start_facts(s);
    let k = s.len() - trim_start(s).len();
    if k < n {
        assert(trim_start(s).first() == s[k]);
    } else if k > n {
        assert(is_white(s[n]));
    }
}

/// A suffix of whitespace preceded by a visible character (or the start) is
/// what `trim_end` removes.
pub proof fn lemma_trim_end_is_take(s: Seq<char>, n: int)
    requires
        0 <= n <= s.len(),
        forall|i: int| n <= i < s.len() ==> is_white(#[trigger] s[i]),
        n > 0 ==> !is_white(s[n - 1]),
    ensures
        trim_end(s) == s.take(n),
{
    lemma_trim_end_facts(s);
    let k = trim_end(s).len() as int;
    if k < n {
        assert(is_white(s[n - 1]));
    } else if k > n {
        assert(trim_end(s).last() == s[k - 1]);
    }
}

/// A text is blank after trimming exactly when it holds no visible character.
pub proof fn lemma_trim_empty(s: Seq<char>)
    ensures
        trim(s).len() == 0 <==> trim_start(s).len() == 0,
        trim(s).len() == 0 <==> (forall|i: int| 0 <= i < s.len() ==> is_white(#[trigger] s[i])),
{
    lemma_trim_start_facts(s);
    let t = trim_start(s);
    lemma_trim_end_facts(t);
    if t.len() > 0 {
        let k = s.len() - t.len();
        assert(t.first() == s[k as int]);
        assert(!is_white(s[k as int]));
        if trim_end(t).len() == 0 {
            assert(is_white(t[0]));
        }
    }
}

/// Trimming takes no visible character away from either end of a text that has one.
pub proof fn lemma_trim_ends(s: Seq<char>)
    ensures
        trim(s).len() > 0 ==> !is_white(trim(s).first()) && !is_white(trim(s).last()),
{
    lemma_trim_start_facts(s);
    lemma_trim_end_facts(trim_start(s));
    let t = trim_start(s);
    if trim(s).len() > 0 {
        assert(trim(s).first() == t.first());
    }
}

pub proof fn lemma_visible_concat(a: Seq<char>, b: Seq<char>)
    ensures
        visible(a + b) == visible(a) + visible(b),
    decreases b.len(),
{
    if b.len() == 0 {
        assert(a + b =~= a);
    } else {
        lemma_visible_concat(a, b.drop_last());
        assert((a + b).drop_last() =~= a + b.drop_last());
        assert((a + b).last() == b.last());
        assert(visible(a + b) =~= visible(a) + visible(b));
    }
}

pub proof fn lemma_visible_white(s: Seq<char>)
    requires
        forall|i: int| 0 <= i < s.len() ==> is_white(#[trigger] s[i]),
    ensures
        visible(s) == Seq::<char>::empty(),
    decreases s.len(),
{
    if s.len() > 0 {
        assert(is_white(s[s.len() - 1]));
        assert forall|i: int| 0 <= i < s.drop_last().len() implies is_white(
            #[trigger] s.drop_last()[i],
        ) by {
            assert(is_white(s[i]));
        }
        lemma_visible_white(s.drop_last());
    }
}

pub proof fn lemma_visible_trim_start(s: Seq<char>)
    ensures
        visible(trim_start(s)) == visible(s),
{
    lemma_trim_start_facts(s);
    let k = s.len() - trim_start(s).len();
    assert(s =~= s.take(k) + s.skip(k));
    lemma_visible_concat(s.take(k), s.skip(k));
    assert forall|i: int| 0 <= i < s.take(k).len() implies is_white(#[trigger] s.take(k)[i]) by {
        assert(is_white(s[i]));
    }
    lemma_visible_white(s.take(k));
    assert(visible(s) =~= visible(trim_start(s)));
}

pub proof fn lemma_visible_trim_end(s: Seq<char>)
    ensures
        visible(trim_end(s)) == visible(s),
{
    lemma_trim_end_facts(s);
    let k = trim_end(s).len() as int;
    assert(s =~= s.take(k) + s.skip(k));
    lemma_visible_concat(s.take(k), s.skip(k));
    assert forall|i: int| 0 <= i < s.skip(k).len() implies is_white(#[trigger] s.skip(k)[i]) by {
        assert(is_white(s[i + k]));
    }
    lemma_visible_white(s.skip(k));
    assert(visible(s) =~= visible(trim_end(s)));
}

/// Trimming keeps the visible characters of a text.
pub proof fn lemma_visible_trim(s: Seq<char>)
    ensures
        visible(trim(s)) == visible(s),
{
    lemma_visible_trim_start(s);
    lemma_visible_trim_end(trim_start(s));
}

/// Whether `c` has Unicode's `White_Space` property.
pub fn is_whitespace(c: char) -> (r: bool)
    ensures
        r == is_white(c),
{
    ('\u{9}' <= c && c <= '\u{d}') || c == ' ' || c == '\u{85}' || c == '\u{a0}' || c == '\u{1680}'
        || ('\u{2000}' <= c && c <= '\u{200a}') || c == '\u{2028}' || c == '\u{2029}' || c
        == '\u{202f}' || c == '\u{205f}' || c == '\u{3000}'
}

/// Whether `c` is a control character.
pub fn is_control(c: char) -> (r: bool)
    ensures
        r == is_control_char(c),
{
    c <= '\u{1f}' || ('\u{7f}' <= c && c <= '\u{9f}')
}

/// The characters of `s`, in order.
pub fn chars_of(s: &str) -> (r: Vec<char>)
    ensures
        r@ == s@,
{
    let mut out: Vec<char> = Vec::new();
    for c in it: s.chars()
        invariant
            it.seq() == s@,
            out@ == it.seq().take(it.index() as int),
    {
        out.push(c);
        assert(out@ =~= it.seq().take(it.index() as int + 1));
    }
    out
}

/// The string made of the given characters.
pub fn string_of(chars: &[char]) -> (r: String)
    ensures
        r@ == chars@,
{
    let mut out = String::new();
    let mut i: usize = 0;
    while i < chars.len()
        invariant
            i <= chars@.len(),
            out@ == chars@.take(i as int),
        decreases chars.len() - i,
    {
        out.push(chars[i]);
        i += 1;
        assert(out@ =~= chars@.take(i as int));
    }
    assert(chars@.take(chars@.len() as int) =~= chars@);
    out
}

/// The number of leading whitespace characters.
pub fn leading_white(chars: &[char]) -> (n: usize)
    ensures
        n <= chars@.len(),
        trim_start(chars@) == chars@.skip(n as int),
        forall|i: int| 0 <= i < n ==> is_white(#[trigger] chars@[i]),
        n < chars@.len() ==> !is_white(chars@[n as int]),
{
    let mut i: usize = 0;
    while i < chars.len() && is_whitespace(chars[i])
        invariant
            i <= chars@.len(),
            forall|j: int| 0 <= j < i ==> is_white(#[trigger] chars@[j]),
        decreases chars.len() - i,
    {
        i += 1;
    }
    proof {
        lemma_trim_start_is_skip(chars@, i as int);
    }
    i
}

/// The half-open range of `chars` that is left when whitespace is trimmed from
/// both ends.
pub fn trimmed_range(chars: &[char]) -> (r: (usize, usize))
    ensures
        r.0 <= r.1 <= chars@.len(),
        trim(chars@) == chars@.subrange(r.0 as int, r.1 as int),
{
    let start = leading_white(chars);
    let mut end: usize = chars.len();
    while end > start && is_whitespace(chars[end - 1])
        invariant
            start <= end <= chars@.len(),
            forall|j: int| end <= j < chars@.len() ==> is_white(#[trigger] chars@[j]),
        decreases end,
    {
        end -= 1;
    }
    proof {
        let t = chars@.skip(start as int);
        let n = end - start;
        assert forall|j: int| n <= j < t.len() implies is_white(#[trigger] t[j]) by {
            assert(is_white(chars@[j + start]));
        }
        if n > 0 {
            assert(t[n - 1] == chars@[end - 1]);
        }
        lemma_trim_end_is_take(t, n);
        assert(t.take(n) =~= chars@.subrange(start as int, end as int));
    }
    (start, end)
}

/// A copy of part of `chars`.
pub fn copy_range(chars: &[char], from: usize, to: usize) -> (r: Vec<char>)
    requires
        from <= to <= chars@.len(),
    ensures
        r@ == chars@.subrange(from as int, to as int),
{
    let mut out: Vec<char> = Vec::new();
    let mut i: usize = from;
    while i < to
        invariant
            from <= i <= to <= chars@.len(),
            out@ == chars@.subrange(from as int, i as int),
        decreases to - i,
    {
        out.push(chars[i]);
        i += 1;
        assert(out@ =~= chars@.subrange(from as int, i as int));
    }
    out
}

/// `chars` without whitespace at either end.
pub fn trimmed(chars: &[char]) -> (r: Vec<char>)
    ensures
        r@ == trim(chars@),
{
    let (from, to) = trimmed_range(chars);
    copy_range(chars, from, to)
}

/// Whether two texts hold the same characters.
pub fn same_text(a: &[char], b: &[char]) -> (r: bool)
    ensures
        r == (a@ == b@),
{
    if a.len() != b.len() {
        return false;
    }
    let mut i: usize = 0;
    while i < a.len()
        invariant
            i <= a@.len(),
            a@.len() == b@.len(),
            forall|j: int| 0 <= j < i ==> a@[j] == b@[j],
        decreases a.len() - i,
    {
        if a[i] != b[i] {
            return false;
        }
        i += 1;
    }
    assert(a@ =~= b@);
    true
}

/// `chars` with the ASCII capital letters made small.
pub fn to_ascii_lower(chars: &[char]) -> (r: Vec<char>)
    ensures
        r@ == ascii_lower_text(chars@),
{
    let mut out: Vec<char> = Vec::new();
    let mut i: usize = 0;
    while i < chars.len()
        invariant
            i <= chars@.len(),
            out@ == ascii_lower_text(chars@.take(i as int)),
        decreases chars.len() - i,
    {
        let c = chars[i];
        let lower = if 'A' <= c && c <= 'Z' {
            ((c as u8) + 32) as char
        } else {
            c
        };
        out.push(lower);
        i += 1;
        assert(out@ =~= ascii_lower_text(chars@.take(i as int)));
    }
    assert(chars@.take(chars@.len() as int) =~= chars@);
    out
}

/// Appends the characters of `extra`.
pub fn append_chars(out: &mut Vec<char>, extra: &[char])
    ensures
        final(out)@ == old(out)@ + extra@,
{
    let ghost before = out@;
    let mut i: usize = 0;
    while i < extra.len()
        invariant
            i <= extra@.len(),
            out@ == before + extra@.take(i as int),
        decreases extra.len() - i,
    {
        out.push(extra[i]);
        i += 1;
        assert(out@ =~= before + extra@.take(i as int));
    }
    assert(before + extra@.take(extra@.len() as int) =~= before + extra@);
}

/// Appends a text to a string.
pub fn append_text(out: &mut String, extra: &str)
    ensures
        final(out)@ == old(out)@ + extra@,
{
    let ghost before = out@;
    for c in it: extra.chars()
        invariant
            it.seq() == extra@,
            out@ == before + it.seq().take(it.index() as int),
    {
        out.push(c);
        assert(out@ =~= before + it.seq().take(it.index() as int + 1));
    }
    assert(before + extra@.take(extra@.len() as int) =~= before + extra@);
}

/// Whether a string holds nothing but whitespace.
pub fn is_blank(s: &str) -> (r: bool)
    ensures
        r == (trim(s@).len() == 0),
{
    let chars = chars_of(s);
    let n = leading_white(&chars);
    proof {
        lemma_trim_empty(s@);
    }
    n == chars.len()
}

/// A string without whitespace at either end.
pub fn trimmed_string(s: &str) -> (r: String)
    ensures
        r@ == trim(s@),
{
    string_of(&trimmed(&chars_of(s)))
}

/// A copy of a list of strings.
pub fn copy_strings(list: &Vec<String>) -> (r: Vec<String>)
    ensures
        texts(r@) == texts(list@),
{
    let mut out: Vec<String> = Vec::new();
    let mut i: usize = 0;
    while i < list.len()
        invariant
            i <= list@.len(),
            texts(out@) == texts(list@).take(i as int),
        decreases list.len() - i,
    {
        let ghost before = texts(out@);
        out.push(list[i].clone());
        assert(texts(out@) =~= before.push(list@[i as int]@));
        i += 1;
        assert(texts(out@) =~= texts(list@).take(i as int));
    }
    assert(texts(out@) =~= texts(list@));
    out
}

/// A copy of an optional string.
pub fn copy_opt(s: &Option<String>) -> (r: Option<String>)
    ensures
        opt_text(r) == opt_text(*s),
{
    match s {
        Some(t) => Some(t.clone()),
        None => None,
    }
}

/// The decimal digits of a number.
pub open spec fn decimal_text(n: nat) -> Seq<char>
    decreases n,
{
    if n < 10 {
        seq![digit_char(n)]
    } else {
        decimal_text(n / 10).push(digit_char(n % 10))
    }
}

/// The character of a decimal digit.
pub open spec fn digit_char(d: nat) -> char {
    ((d + 48) as u8) as char
}

/// The decimal digits of a number.
pub fn decimal(n: u64) -> (r: String)
    ensures
        r@ == decimal_text(n as nat),
    decreases n,
{
    let digit: u8 = (n % 10) as u8;
    let c = (digit + 48) as char;
    let mut out = if n < 10 {
        String::new()
    } else {
        decimal(n / 10)
    };
    out.push(c);
    assert(n < 10 ==> out@ =~= seq![c]);
    out
}

/// The decimal digits of a number.
pub fn decimal_wide(n: u128) -> (r: String)
    ensures
        r@ == decimal_text(n as nat),
    decreases n,
{
    let digit: u8 = (n % 10) as u8;
    let c = (digit + 48) as char;
    let mut out = if n < 10 {
        String::new()
    } else {
        decimal_wide(n / 10)
    };
    out.push(c);
    assert(n < 10 ==> out@ =~= seq![c]);
    out
}

/// The bytes of an ASCII text.
pub open spec fn ascii_bytes(s: Seq<char>) -> Seq<u8> {
    s.map_values(|c: char| c as u8)
}

/// Appends the bytes of an ASCII text.
pub fn append_ascii(out: &mut Vec<u8>, s: &str)
    ensures
        final(out)@ == old(out)@ + ascii_bytes(s@),
{
    let ghost before = out@;
    for c in it: s.chars()
        invariant
            it.seq() == s@,
            out@ == before + ascii_bytes(it.seq().take(it.index() as int)),
    {
        out.push(c as u8);
        assert(out@ =~= before + ascii_bytes(it.seq().take(it.index() as int + 1)));
    }
    assert(before + ascii_bytes(s@.take(s@.len() as int)) =~= before + ascii_bytes(s@));
}

/// Appends bytes.
pub fn append_bytes(out: &mut Vec<u8>, extra: &[u8])
    ensures
        final(out)@ == old(out)@ + extra@,
{
    let ghost before = out@;
    let mut i: usize = 0;
    while i < extra.len()
        invariant
            i <= extra@.len(),
            out@ == before + extra@.take(i as int),
        decreases extra.len() - i,
    {
        out.push(extra[i]);
        i += 1;
        assert(out@ =~= before + extra@.take(i as int));
    }
    assert(before + extra@.take(extra@.len() as int) =~= before + extra@);
}

/// Whether two texts are the same, ASCII case aside.
pub fn same_ignoring_case(a: &str, b: &str) -> (r: bool)
    ensures
        r == (ascii_lower_text(a@) == ascii_lower_text(b@)),
{
    same_text(&to_ascii_lower(&chars_of(a)), &to_ascii_lower(&chars_of(b)))
}

/// The decimal digits of a number, behind a minus sign if it is negative.
pub open spec fn signed_text(n: int) -> Seq<char> {
    if n < 0 {
        "-"@ + decimal_text((-n) as nat)
    } else {
        decimal_text(n as nat)
    }
}

/// The decimal digits of a number, behind a minus sign if it is negative.
pub fn signed_decimal(n: i32) -> (r: String)
    ensures
        r@ == signed_text(n as int),
{
    if n < 0 {
        concat("-", decimal((-(n as i64)) as u64).as_str())
    } else {
        decimal(n as u64)
    }
}

/// The capital hexadecimal digits of a number.
pub open spec fn hex_text(n: nat) -> Seq<char>
    decreases n,
{
    if n < 16 {
        seq![hex_char(n)]
    } else {
        hex_text(n / 16).push(hex_char(n % 16))
    }
}

/// The character of a hexadecimal digit.
pub open spec fn hex_char(d: nat) -> char {
    if d < 10 {
        ((d + 48) as u8) as char
    } else {
        ((d + 55) as u8) as char
    }
}

/// The capital hexadecimal digits of a number.
pub fn hex(n: u32) -> (r: String)
    ensures
        r@ == hex_text(n as nat),
    decreases n,
{
    let digit: u8 = (n % 16) as u8;
    let c = if digit < 10 {
        (digit + 48) as char
    } else {
        (digit + 55) as char
    };
    let mut out = if n < 16 {
        String::new()
    } else {
        hex(n / 16)
    };
    out.push(c);
    assert(n < 16 ==> out@ =~= seq![c]);
    out
}

/// Two texts, one behind the other.
pub fn concat(a: &str, b: &str) -> (r: String)
    ensures
        r@ == a@ + b@,
{
    let mut out = a.to_owned();
    append_text(&mut out, b);
    out
}

/// Three texts, one behind the other.
pub fn concat3(a: &str, b: &str, c: &str) -> (r: String)
    ensures
        r@ == a@ + b@ + c@,
{
    let mut out = a.to_owned();
    append_text(&mut out, b);
    append_text(&mut out, c);
    out
}

/// Four texts, one behind the other.
pub fn concat4(a: &str, b: &str, c: &str, d: &str) -> (r: String)
    ensures
        r@ == a@ + b@ + c@ + d@,
{
    let mut out = a.to_owned();
    append_text(&mut out, b);
    append_text(&mut out, c);
    append_text(&mut out, d);
    out
}

/// Five texts, one behind the other.
pub fn concat5(a: &str, b: &str, c: &str, d: &str, e: &str) -> (r: String)
    ensures
        r@ == a@ + b@ + c@ + d@ + e@,
{
    let mut out = a.to_owned();
    append_text(&mut out, b);
    append_text(&mut out, c);
    append_text(&mut out, d);
    append_text(&mut out, e);
    out
}

/// Whether `part` stands in `s` from position `at` on.
pub open spec fn stands_at(s: Seq<char>, part: Seq<char>, at: int) -> bool {
    0 <= at <= s.len() - part.len() && s.subrange(at, at + part.len()) == part
}

/// Whether `part` stands somewhere in `s`.
pub open spec fn holds_text(s: Seq<char>, part: Seq<char>) -> bool {
    exists|at: int| stands_at(s, part, at)
}

/// Whether `part` stands somewhere in `s`.
pub fn contains(s: &[char], part: &[char]) -> (r: bool)
    ensures
        r == holds_text(s@, part@),
{
    if part.len() > s.len() {
        return false;
    }
    let n: usize = s.len();
    let last: usize = n - part.len();
    let mut at: usize = 0;
    while at <= last
        invariant
            n == s@.len(),
            last == n - part@.len(),
            at <= last + 1,
            forall|k: int| 0 <= k < at ==> !stands_at(s@, part@, k),
        decreases last + 1 - at,
    {
        let mut i: usize = 0;
        while i < part.len() && s[at + i] == part[i]
            invariant
                n == s@.len(),
                last == n - part@.len(),
                at <= last,
                i <= part@.len(),
                forall|k: int| 0 <= k < i ==> s@[at + k] == part@[k],
            decreases part.len() - i,
        {
            i += 1;
        }
        if i == part.len() {
            assert(s@.subrange(at as int, at + part@.len()) =~= part@);
            assert(stands_at(s@, part@, at as int));
            return true;
        }
        assert(!stands_at(s@, part@, at as int)) by {
            assert(s@.subrange(at as int, at + part@.len())[i as int] == s@[at + i]);
        }
        if at == last {
            return false;
        }
        at += 1;
    }
    false
}

/// Whether `part` stands somewhere in `s`.
pub fn contains_str(s: &str, part: &str) -> (r: bool)
    ensures
        r == holds_text(s@, part@),
{
    contains(&chars_of(s), &chars_of(part))
}

/// What `str::to_lowercase` returns.
pub uninterp spec fn lower_text(s: Seq<char>) -> Seq<char>;

/// Whether every character of a text is ASCII.
pub open spec fn is_ascii_text(s: Seq<char>) -> bool {
    forall|i: int| 0 <= i < s.len() ==> s[i] <= '\u{7f}'
}

/// `str::to_lowercase`: the text with each character in its lower-case form.
/// On ASCII text that makes the capital letters small and changes nothing else.
#[verifier::external_body]
pub(crate) fn to_lowercase(s: &str) -> (r: String)
    ensures
        r@ == lower_text(s@),
        is_ascii_text(s@) ==> r@ == ascii_lower_text(s@),
{
    s.to_lowercase()
}

/// The decimal digits of a number are one or more of the ten digits.
pub proof fn lemma_decimal_digits(n: nat)
    ensures
        decimal_text(n).len() >= 1,
        forall|i: int|
            0 <= i < decimal_text(n).len() ==> '0' <= #[trigger] decimal_text(n)[i] && decimal_text(n)[i] <= '9',
    decreases n,
{
    if n >= 10 {
        lemma_decimal_digits(n / 10);
    }
}

/// Numbers with the same decimal digits are the same.
pub proof fn lemma_decimal_injective(a: nat, b: nat)
    requires
        decimal_text(a) == decimal_text(b),
    ensures
        a == b,
    decreases a,
{
    lemma_decimal_digits(a / 10);
    lemma_decimal_digits(b / 10);
    assert(decimal_text(a).last() == digit_char(a % 10));
    assert(decimal_text(b).last() == digit_char(b % 10));
    if a >= 10 && b >= 10 {
        assert(decimal_text(a).drop_last() =~= decimal_text(a / 10));
        assert(decimal_text(b).drop_last() =~= decimal_text(b / 10));
        lemma_decimal_injective(a / 10, b / 10);
    }
}

/// Whether a text begins with these words.
pub open spec fn begins_with(s: Seq<char>, words: Seq<char>) -> bool {
    s.len() >= words.len() && s.take(words.len() as int) == words
}

/// A text behind some words begins with them.
pub proof fn lemma_begins_with(words: Seq<char>, rest: Seq<char>)
    ensures
        begins_with(words + rest, words),
{
    assert((words + rest).take(words.len() as int) =~= words);
}

/// The number that decimal digits stand for.
pub open spec fn decimal_value(s: Seq<char>) -> nat
    decreases s.len(),
{
    if s.len() == 0 {
        0
    } else {
        (decimal_value(s.drop_last()) * 10 + (s.last() as int - 48)) as nat
    }
}

/// A number that is written out is read back as that number, and has no zero in
/// front.
pub proof fn law_decimal_is_read_back(n: nat)
    ensures
        decimal_value(decimal_text(n)) == n,
        forall|i: int|
            0 <= i < decimal_text(n).len() ==> '0' <= #[trigger] decimal_text(n)[i]
                && decimal_text(n)[i] <= '9',
        n > 0 ==> decimal_text(n)[0] != '0',
        decimal_text(n).len() >= 1,
    decreases n,
{
    lemma_decimal_digits(n);
    if n < 10 {
        let s = decimal_text(n);
        assert(s.drop_last() =~= Seq::<char>::empty());
        assert(decimal_value(s.drop_last()) == 0);
    } else {
        law_decimal_is_read_back(n / 10);
        let s = decimal_text(n);
        assert(s.drop_last() =~= decimal_text(n / 10));
        assert(s[0] == decimal_text(n / 10)[0]);
    }
}

/// The number that hexadecimal digits stand for.
pub open spec fn hex_value(s: Seq<char>) -> nat
    decreases s.len(),
{
    if s.len() == 0 {
        0
    } else {
        (hex_value(s.drop_last()) * 16 + if s.last() <= '9' {
            s.last() as int - 48
        } else {
            s.last() as int - 55
        }) as nat
    }
}

/// A number that is written out in hexadecimal digits is read back as that
/// number; the digits beyond nine are capitals.
pub proof fn law_hex_is_read_back(n: nat)
    ensures
        hex_value(hex_text(n)) == n,
        forall|i: int|
            0 <= i < hex_text(n).len() ==> ('0' <= #[trigger] hex_text(n)[i] && hex_text(n)[i]
                <= '9') || ('A' <= hex_text(n)[i] && hex_text(n)[i] <= 'F'),
        n > 0 ==> hex_text(n)[0] != '0',
        hex_text(n).len() >= 1,
    decreases n,
{
    if n < 16 {
        let s = hex_text(n);
        assert(s.drop_last() =~= Seq::<char>::empty());
        assert(hex_value(s.drop_last()) == 0);
    } else {
        law_hex_is_read_back(n / 16);
        let s = hex_text(n);
        assert(s.drop_last() =~= hex_text(n / 16));
        assert(s[0] == hex_text(n / 16)[0]);
        assert forall|i: int| 0 <= i < s.len() implies ('0' <= #[trigger] s[i] && s[i] <= '9') || (
        'A' <= s[i] && s[i] <= 'F') by {
            if i < s.len() - 1 {
                assert(s[i] == hex_text(n / 16)[i]);
            }
        }
    }
}

/// Trimming takes whitespace away at the ends and nothing else: what is left
/// stands in the text with only whitespace around it, and has none at its own
/// ends.
pub proof fn law_trimming_takes_only_whitespace(s: Seq<char>)
    ensures
        exists|from: int| #![trigger s.subrange(from, from + trim(s).len())]
            {
                &&& 0 <= from && from + trim(s).len() <= s.len()
                &&& trim(s) == s.subrange(from, from + trim(s).len())
                &&& forall|i: int|
                    0 <= i < s.len() && !(from <= i < from + trim(s).len()) ==> is_white(
                        #[trigger] s[i],
                    )
            },
        trim(s).len() > 0 ==> !is_white(trim(s).first()) && !is_white(trim(s).last()),
{
    lemma_trim_start_facts(s);
    let t = trim_start(s);
    lemma_trim_end_facts(t);
    lemma_trim_ends(s);
    let from = s.len() - t.len();
    let u = trim(s);
    assert(u =~= s.subrange(from, from + u.len()));
    assert forall|i: int| 0 <= i < s.len() && !(from <= i < from + u.len()) implies is_white(
        #[trigger] s[i],
    ) by {
        if i >= from {
            assert(t[i - from] == s[i]);
        }
    }
}

/// Whitespace and control characters are these, and lower case concerns the
/// letters of ASCII alone.
pub proof fn law_kinds_of_characters(c: char)
    ensures
        is_white(c) <==> c == ' ' || c == '\t' || c == '\n' || c == '\u{b}' || c == '\u{c}' || c
            == '\r' || c == '\u{85}' || c == '\u{a0}' || c == '\u{1680}' || ('\u{2000}' <= c && c
            <= '\u{200a}') || c == '\u{2028}' || c == '\u{2029}' || c == '\u{202f}' || c
            == '\u{205f}' || c == '\u{3000}',
        is_control_char(c) <==> c < ' ' || ('\u{7f}' <= c && c <= '\u{9f}'),
        'A' <= c && c <= 'Z' ==> ascii_lower(c) as int == c as int + 32,
        !('A' <= c && c <= 'Z') ==> ascii_lower(c) == c,
{
}

} // verus!
