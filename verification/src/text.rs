//! Text: what the string operations used in this crate mean, and the few of
//! std's string functions that they rest on.

use vstd::prelude::*;

verus! {

// ---------------------------------------------------------------------------
// Characters
// ---------------------------------------------------------------------------

/// The characters that have Unicode's `White_Space` property.
pub open spec fn is_white(c: char) -> bool {
    ||| '\u{9}' <= c <= '\u{d}'
    ||| c == '\u{20}'
    ||| c == '\u{85}'
    ||| c == '\u{a0}'
    ||| c == '\u{1680}'
    ||| '\u{2000}' <= c <= '\u{200a}'
    ||| c == '\u{2028}'
    ||| c == '\u{2029}'
    ||| c == '\u{202f}'
    ||| c == '\u{205f}'
    ||| c == '\u{3000}'
}

/// `char::is_whitespace`: whether the character has the `White_Space` property.
pub assume_specification[ char::is_whitespace ](c: char) -> (res: bool)
    ensures
        res == is_white(c),
;

/// Whether `c` is one of the characters `0` to `9`.
pub open spec fn is_digit(c: char) -> bool {
    '0' <= c <= '9'
}

/// Whether every character of `s` is ASCII.
pub open spec fn all_ascii(s: Seq<char>) -> bool {
    vstd::utf8::is_ascii_chars(s)
}

/// The upper case of an ASCII character; any other character unchanged.
pub open spec fn ascii_upper(c: char) -> char {
    if 'a' <= c <= 'z' {
        ((c as u32) - 32) as char
    } else {
        c
    }
}

/// The lower case of an ASCII character; any other character unchanged.
pub fn lower_char(c: char) -> (res: char)
    ensures
        res == ascii_lower(c),
{
    if 'A' <= c && c <= 'Z' {
        (c as u8 + 32) as char
    } else {
        c
    }
}

/// The lower case of an ASCII character; any other character unchanged.
pub open spec fn ascii_lower(c: char) -> char {
    if 'A' <= c <= 'Z' {
        ((c as u32) + 32) as char
    } else {
        c
    }
}

// ---------------------------------------------------------------------------
// Whole texts
// ---------------------------------------------------------------------------

/// `s` without the whitespace it starts with.
pub open spec fn trimmed_start(s: Seq<char>) -> Seq<char>
    decreases s.len(),
{
    if s.len() > 0 && is_white(s[0]) {
        trimmed_start(s.drop_first())
    } else {
        s
    }
}

/// `s` without the whitespace it ends with.
pub open spec fn trimmed_end(s: Seq<char>) -> Seq<char>
    decreases s.len(),
{
    if s.len() > 0 && is_white(s.last()) {
        trimmed_end(s.drop_last())
    } else {
        s
    }
}

/// `s` without whitespace at either end.
pub open spec fn trimmed(s: Seq<char>) -> Seq<char> {
    trimmed_end(trimmed_start(s))
}

/// `str::trim`: the text without the whitespace at its two ends.
pub assume_specification[ str::trim ](s: &str) -> (res: &str)
    ensures
        res@ == trimmed(s@),
;

/// What `str::to_uppercase` makes of a text that is not ASCII.
pub uninterp spec fn unicode_uppercase(s: Seq<char>) -> Seq<char>;

/// What `str::to_lowercase` makes of a text that is not ASCII, by the text with
/// its ASCII letters in lower case.
pub uninterp spec fn unicode_lowercase(s: Seq<char>) -> Seq<char>;

/// A text in upper case.
pub open spec fn uppercase(s: Seq<char>) -> Seq<char> {
    if all_ascii(s) {
        s.map_values(|c: char| ascii_upper(c))
    } else {
        unicode_uppercase(s)
    }
}

/// A text in lower case.
pub open spec fn lowercase(s: Seq<char>) -> Seq<char> {
    if all_ascii(s) {
        s.map_values(|c: char| ascii_lower(c))
    } else {
        unicode_lowercase(s.map_values(|c: char| ascii_lower(c)))
    }
}

/// `str::to_uppercase`: a function of the text alone, which maps ASCII letter
/// by letter. How it maps text that is not ASCII follows Unicode's tables and
/// is left unsaid.
pub assume_specification[ str::to_uppercase ](s: &str) -> (res: String)
    ensures
        all_ascii(s@) ==> res@ == s@.map_values(|c: char| ascii_upper(c)),
        !all_ascii(s@) ==> res@ == unicode_uppercase(s@),
;

/// `str::to_lowercase`: a function of the text alone, which maps ASCII letter
/// by letter. How it maps text that is not ASCII follows Unicode's tables and
/// is left unsaid, but that the case of the ASCII letters in it does not matter:
/// both cases of such a letter have the same lower case, and both count as cased
/// letters to the sigma that ends a word.
pub assume_specification[ str::to_lowercase ](s: &str) -> (res: String)
    ensures
        all_ascii(s@) ==> res@ == s@.map_values(|c: char| ascii_lower(c)),
        !all_ascii(s@) ==> res@ == unicode_lowercase(s@.map_values(|c: char| ascii_lower(c))),
;

/// A text in upper case.
pub fn upper(s: &str) -> (res: String)
    ensures
        res@ == uppercase(s@),
{
    s.to_uppercase()
}

/// A text in lower case.
pub fn lower(s: &str) -> (res: String)
    ensures
        res@ == lowercase(s@),
{
    s.to_lowercase()
}

/// Whether two texts differ in the case of ASCII letters alone, if at all.
pub open spec fn same_but_case(a: Seq<char>, b: Seq<char>) -> bool {
    a.len() == b.len() && forall|i: int|
        0 <= i < a.len() ==> ascii_lower(#[trigger] a[i]) == ascii_lower(b[i])
}

/// Texts that differ in the case of ASCII letters alone are the same in lower
/// case.
pub proof fn case_is_lowered(a: Seq<char>, b: Seq<char>)
    requires
        same_but_case(a, b),
    ensures
        lowercase(a) == lowercase(b),
{
    let low = |c: char| ascii_lower(c);
    assert(a.map_values(low) =~= b.map_values(low));
    assert forall|i: int| 0 <= i < a.len() implies ('\0' <= #[trigger] a[i] <= '\u{7f}') == (
    '\0' <= #[trigger] b[i] <= '\u{7f}') by {
        assert(ascii_lower(a[i]) == ascii_lower(b[i]));
    }
    assert(all_ascii(a) ==> all_ascii(b)) by {
        if all_ascii(a) {
            assert forall|i: int| 0 <= i < b.len() implies '\0' <= #[trigger] b[i] <= '\u{7f}' by {
                assert('\0' <= a[i] <= '\u{7f}');
            }
        }
    }
    assert(all_ascii(b) ==> all_ascii(a)) by {
        if all_ascii(b) {
            assert forall|i: int| 0 <= i < a.len() implies '\0' <= #[trigger] a[i] <= '\u{7f}' by {
                assert('\0' <= b[i] <= '\u{7f}');
            }
        }
    }
}

/// `==` on two string slices: whether they hold the same characters.
pub assume_specification[ <str as PartialEq>::eq ](a: &str, b: &str) -> (res: bool)
    ensures
        res == (a@ == b@),
;

/// Whether two texts hold the same characters.
pub fn same(a: &str, b: &str) -> (res: bool)
    ensures
        res == (a@ == b@),
{
    *a == *b
}

/// Whether `part` stands in `s` at position `i`.
pub open spec fn occurs_at(s: Seq<char>, part: Seq<char>, i: int) -> bool {
    0 <= i && i + part.len() <= s.len() && s.subrange(i, i + part.len()) == part
}

/// Whether `part` stands somewhere in `s`.
pub open spec fn has(s: Seq<char>, part: Seq<char>) -> bool {
    exists|i: int| occurs_at(s, part, i)
}

/// A part of a part is a part.
pub proof fn parts_of_parts(s: Seq<char>, part: Seq<char>, inner: Seq<char>)
    requires
        has(part, inner),
    ensures
        has(s, part) ==> has(s, inner),
{
    if has(s, part) {
        let i = choose|i: int| occurs_at(s, part, i);
        let j = choose|j: int| occurs_at(part, inner, j);
        assert(s.subrange(i + j, i + j + inner.len()) =~= s.subrange(
            i,
            i + part.len(),
        ).subrange(j, j + inner.len()));
        assert(occurs_at(s, inner, i + j));
    }
}

/// `str::contains` with a string to look for: whether it stands somewhere in
/// the text.
#[verifier::external_body]
pub(crate) fn contains(s: &str, part: &str) -> (res: bool)
    ensures
        res == has(s@, part@),
{
    s.contains(part)
}

/// `str::starts_with` with a string to look for: whether the text begins with
/// it.
#[verifier::external_body]
pub(crate) fn starts_with(s: &str, prefix: &str) -> (res: bool)
    ensures
        res == prefix@.is_prefix_of(s@),
{
    s.starts_with(prefix)
}

/// `String::push`: the character is added at the end.
pub assume_specification[ String::push ](s: &mut String, c: char)
    ensures
        final(s)@ == old(s)@.push(c),
;

/// The characters of a text, one by one.
pub fn chars_of(s: &str) -> (res: Vec<char>)
    ensures
        res@ == s@,
{
    let mut out: Vec<char> = Vec::new();
    for c in it: s.chars()
        invariant
            it.seq() == s@,
            out@ == s@.take(it.index() as int),
    {
        out.push(c);
    }
    proof {
        assert(s@.take(s@.len() as int) == s@);
    }
    out
}

/// The characters `from..to` as a text.
pub fn text_of_chars(chars: &Vec<char>, from: usize, to: usize) -> (res: String)
    requires
        from <= to <= chars.len(),
    ensures
        res@ == chars@.subrange(from as int, to as int),
{
    let mut out = String::new();
    let mut i: usize = from;
    while i < to
        invariant
            from <= i <= to <= chars.len(),
            out@ == chars@.subrange(from as int, i as int),
        decreases to - i,
    {
        out.push(chars[i]);
        i += 1;
    }
    out
}

/// `s` with the first `from` replaced by `to`.
pub open spec fn replaced_first(s: Seq<char>, from: char, to: char) -> Seq<char> {
    match s.index_of_first(from) {
        Some(i) => s.update(i, to),
        None => s,
    }
}

/// Replaces the first `from` by `to`.
pub fn replace_first(s: &str, from: char, to: char) -> (res: String)
    ensures
        res@ == replaced_first(s@, from, to),
{
    let chars = chars_of(s);
    let mut i: usize = 0;
    proof {
        s@.index_of_first_ensures(from);
    }
    while i < chars.len() && chars[i] != from
        invariant
            i <= chars.len(),
            forall|j: int| 0 <= j < i ==> chars@[j] != from,
        decreases chars.len() - i,
    {
        i += 1;
    }
    if i == chars.len() {
        return s.to_owned();
    }
    let mut out = text_of_chars(&chars, 0, i);
    out.push(to);
    out.append(&text_of_chars(&chars, i + 1, chars.len()));
    proof {
        assert(s@.index_of_first(from) == Some(i as int));
        assert(out@ == s@.update(i as int, to));
    }
    out
}

/// `s` with every `from` replaced by `to`.
pub open spec fn replaced_all(s: Seq<char>, from: char, to: char) -> Seq<char> {
    s.map_values(
        |c: char|
            if c == from {
                to
            } else {
                c
            },
    )
}

/// Replaces every `from` by `to`.
pub fn replace_all(s: &str, from: char, to: char) -> (res: String)
    ensures
        res@ == replaced_all(s@, from, to),
{
    let chars = chars_of(s);
    let mut out = String::new();
    let mut i: usize = 0;
    while i < chars.len()
        invariant
            i <= chars.len(),
            chars@ == s@,
            out@ == replaced_all(s@.take(i as int), from, to),
        decreases chars.len() - i,
    {
        let c = if chars[i] == from {
            to
        } else {
            chars[i]
        };
        out.push(c);
        i += 1;
        assert(out@ =~= replaced_all(s@.take(i as int), from, to));
    }
    assert(s@.take(chars.len() as int) == s@);
    out
}

/// `s` without the characters `c` that it ends with.
pub open spec fn without_suffix(s: Seq<char>, c: char) -> Seq<char>
    decreases s.len(),
{
    if s.len() > 0 && s.last() == c {
        without_suffix(s.drop_last(), c)
    } else {
        s
    }
}

/// Drops the characters `c` that a text ends with.
pub fn drop_suffix(s: &str, c: char) -> (res: String)
    ensures
        res@ == without_suffix(s@, c),
{
    let chars = chars_of(s);
    let mut n: usize = chars.len();
    proof {
        assert(chars@.take(chars.len() as int) == chars@);
    }
    while n > 0 && chars[n - 1] == c
        invariant
            n <= chars.len(),
            without_suffix(chars@.take(n as int), c) == without_suffix(chars@, c),
        decreases n,
    {
        proof {
            assert(chars@.take(n as int).drop_last() == chars@.take(n - 1));
        }
        n -= 1;
    }
    proof {
        assert(chars@.subrange(0, n as int) == chars@.take(n as int));
    }
    text_of_chars(&chars, 0, n)
}

// ---------------------------------------------------------------------------
// Numbers
// ---------------------------------------------------------------------------

/// The digit of a number below ten.
pub open spec fn digit(n: nat) -> char {
    (n + 48) as char
}

/// A number in decimal.
pub open spec fn decimal(n: nat) -> Seq<char>
    decreases n,
{
    if n < 10 {
        seq![digit(n)]
    } else {
        decimal(n / 10).push(digit(n % 10))
    }
}

/// A signed number in decimal.
pub open spec fn signed_decimal(n: int) -> Seq<char> {
    if n < 0 {
        seq!['-'] + decimal((-n) as nat)
    } else {
        decimal(n as nat)
    }
}

/// Writes a number in decimal.
pub fn write_decimal(n: u64) -> (res: String)
    ensures
        res@ == decimal(n as nat),
    decreases n,
{
    let d = (48 + (n % 10) as u8) as char;
    if n < 10 {
        let mut out = String::new();
        out.push(d);
        out
    } else {
        let mut out = write_decimal(n / 10);
        out.push(d);
        out
    }
}

/// Writes a signed number in decimal.
pub fn write_signed(n: i64) -> (res: String)
    ensures
        res@ == signed_decimal(n as int),
{
    if n < 0 {
        let mut out = String::new();
        out.push('-');
        let size: u64 = if n == i64::MIN {
            0x8000_0000_0000_0000
        } else {
            (-n) as u64
        };
        out.append(&write_decimal(size));
        out
    } else {
        write_decimal(n as u64)
    }
}

/// Whether every character of `s` is a digit.
pub open spec fn all_digits(s: Seq<char>) -> bool {
    forall|i: int| 0 <= i < s.len() ==> is_digit(#[trigger] s[i])
}

/// The number that a row of digits writes.
pub open spec fn digits_value(s: Seq<char>) -> nat
    decreases s.len(),
{
    if s.len() == 0 {
        0
    } else {
        digits_value(s.drop_last()) * 10 + (s.last() as nat - 48) as nat
    }
}

/// The number that a text writes: digits, with an optional `+` before them.
pub open spec fn parsed_number(s: Seq<char>) -> Option<nat> {
    let body = if s.len() > 0 && s[0] == '+' {
        s.drop_first()
    } else {
        s
    };
    if body.len() > 0 && all_digits(body) {
        Some(digits_value(body))
    } else {
        None
    }
}

/// The number that a text writes, where it is at most `max`.
pub open spec fn parsed_up_to(s: Seq<char>, max: nat) -> Option<nat> {
    match parsed_number(s) {
        Some(n) => if n <= max {
            Some(n)
        } else {
            None
        },
        None => None,
    }
}

/// More digits never write a smaller number.
proof fn lemma_prefix_value(s: Seq<char>, n: int)
    requires
        0 <= n <= s.len(),
    ensures
        digits_value(s.take(n)) <= digits_value(s),
    decreases s.len() - n,
{
    if n < s.len() {
        lemma_prefix_value(s, n + 1);
        assert(s.take(n + 1).drop_last() == s.take(n));
    } else {
        assert(s.take(n) == s);
    }
}

/// Reads a number of at most `max`: digits, with an optional `+` before them.
pub fn parse_up_to(s: &str, max: u64) -> (res: Option<u64>)
    ensures
        match res {
            Some(n) => parsed_up_to(s@, max as nat) == Some(n as nat),
            None => parsed_up_to(s@, max as nat) is None,
        },
{
    let chars = chars_of(s);
    let start: usize = if chars.len() > 0 && chars[0] == '+' {
        1
    } else {
        0
    };
    let ghost body = s@.subrange(start as int, s@.len() as int);
    proof {
        if start == 1 {
            assert(body == s@.drop_first());
        } else {
            assert(body == s@);
        }
    }
    if chars.len() == start {
        return None;
    }
    let mut value: u64 = 0;
    let mut i: usize = start;
    while i < chars.len()
        invariant
            start <= i <= chars.len(),
            chars@ == s@,
            body == s@.subrange(start as int, s@.len() as int),
            start < chars.len(),
            parsed_number(s@) == (if all_digits(body) {
                Some(digits_value(body))
            } else {
                None
            }),
            forall|j: int| 0 <= j < i - start ==> is_digit(#[trigger] body[j]),
            value == digits_value(body.take(i - start)),
            value <= max,
        decreases chars.len() - i,
    {
        let c = chars[i];
        proof {
            assert(body[i - start] == c);
            assert(body.take(i - start + 1).drop_last() == body.take(i - start));
            assert(body.take(i - start + 1).last() == c);
        }
        if c < '0' || c > '9' {
            return None;
        }
        let d: u64 = c as u64 - 48;
        proof {
            lemma_prefix_value(body, i - start + 1);
        }
        if value > (u64::MAX - d) / 10 || value * 10 + d > max {
            return None;
        }
        value = value * 10 + d;
        i += 1;
    }
    proof {
        assert(body.take(chars.len() - start) == body);
    }
    Some(value)
}

/// What std says of a text that writes no number, or one that is too large.
pub uninterp spec fn number_complaint(s: Seq<char>) -> Seq<char>;

/// `str::parse` into `usize`: the number that digits write, with an optional
/// `+` before them, where it fits; otherwise the complaint, a function of the
/// text alone.
#[verifier::external_body]
pub(crate) fn parse_usize(s: &str) -> (res: Result<usize, String>)
    ensures
        match res {
            Ok(n) => parsed_up_to(s@, usize::MAX as nat) == Some(n as nat),
            Err(e) => parsed_up_to(s@, usize::MAX as nat) is None && e@ == number_complaint(s@),
        },
{
    s.parse::<usize>().map_err(|e| e.to_string())
}

/// The first `n` characters of a text, or all of it.
pub open spec fn first_chars(s: Seq<char>, n: nat) -> Seq<char> {
    if s.len() <= n {
        s
    } else {
        s.take(n as int)
    }
}

/// The first `n` characters of a text, or all of it.
pub fn prefix(s: &str, n: usize) -> (res: String)
    ensures
        res@ == first_chars(s@, n as nat),
{
    let chars = chars_of(s);
    let end: usize = if chars.len() <= n {
        chars.len()
    } else {
        n
    };
    proof {
        assert(s@.subrange(0, s@.len() as int) == s@);
        assert(s@.len() > n ==> s@.subrange(0, n as int) == s@.take(n as int));
    }
    text_of_chars(&chars, 0, end)
}

// ---------------------------------------------------------------------------
// Parts
// ---------------------------------------------------------------------------

/// The parts of a text between the characters `c`, the empty ones too.
pub open spec fn split_on(s: Seq<char>, c: char) -> Seq<Seq<char>>
    decreases s.len(),
{
    if s.len() == 0 {
        seq![Seq::<char>::empty()]
    } else {
        let before = split_on(s.drop_last(), c);
        if s.last() == c {
            before.push(Seq::empty())
        } else {
            before.update(before.len() - 1, before.last().push(s.last()))
        }
    }
}

/// A text has at least one part.
pub proof fn split_has_a_part(s: Seq<char>, c: char)
    ensures
        split_on(s, c).len() >= 1,
    decreases s.len(),
{
    if s.len() > 0 {
        split_has_a_part(s.drop_last(), c);
    }
}

/// Splits a text at the characters `c`.
pub fn split(s: &str, c: char) -> (res: Vec<String>)
    ensures
        res.deep_view() == split_on(s@, c),
        res.len() >= 1,
{
    let chars = chars_of(s);
    let mut done: Vec<String> = Vec::new();
    let mut part = String::new();
    let mut i: usize = 0;
    assert(s@.take(0) =~= Seq::empty());
    assert(done.deep_view().push(part@) =~= split_on(s@.take(0), c));
    while i < chars.len()
        invariant
            i <= chars.len(),
            chars@ == s@,
            done.deep_view().push(part@) =~= split_on(s@.take(i as int), c),
        decreases chars.len() - i,
    {
        let ghost before = done.deep_view();
        let ghost word = part@;
        proof {
            assert(s@.take(i + 1).drop_last() == s@.take(i as int));
        }
        if chars[i] == c {
            done.push(part);
            part = String::new();
            assert(done.deep_view() =~= before.push(word));
        } else {
            part.push(chars[i]);
        }
        i += 1;
    }
    proof {
        assert(s@.take(chars.len() as int) == s@);
    }
    let ghost before = done.deep_view();
    let ghost word = part@;
    done.push(part);
    assert(done.deep_view() =~= before.push(word));
    done
}

/// The parts and the unfinished part of a text that is read word by word.
pub open spec fn word_state(s: Seq<char>) -> (Seq<Seq<char>>, Seq<char>)
    decreases s.len(),
{
    if s.len() == 0 {
        (Seq::empty(), Seq::empty())
    } else {
        let (done, word) = word_state(s.drop_last());
        if !is_white(s.last()) {
            (done, word.push(s.last()))
        } else if word.len() == 0 {
            (done, word)
        } else {
            (done.push(word), Seq::empty())
        }
    }
}

/// The words of a text: its longest parts without whitespace, in order.
pub open spec fn words_of(s: Seq<char>) -> Seq<Seq<char>> {
    let (done, word) = word_state(s);
    if word.len() == 0 {
        done
    } else {
        done.push(word)
    }
}

/// Whether a text is a word: not empty, and without whitespace.
pub open spec fn is_word(s: Seq<char>) -> bool {
    s.len() > 0 && forall|i: int| 0 <= i < s.len() ==> !is_white(#[trigger] s[i])
}

proof fn lemma_word_goes_on(s: Seq<char>, w: Seq<char>)
    requires
        forall|i: int| 0 <= i < w.len() ==> !is_white(#[trigger] w[i]),
    ensures
        word_state(s + w) == (word_state(s).0, word_state(s).1 + w),
    decreases w.len(),
{
    if w.len() == 0 {
        assert(s + w =~= s);
        assert(word_state(s).1 + w =~= word_state(s).1);
    } else {
        lemma_word_goes_on(s, w.drop_last());
        assert((s + w).drop_last() =~= s + w.drop_last());
        assert(word_state(s).1 + w =~= (word_state(s).1 + w.drop_last()).push(w.last()));
    }
}

/// Behind a text that ends in no word, a word is the next word, and a space ends
/// it.
pub proof fn next_word(s: Seq<char>, w: Seq<char>)
    requires
        word_state(s).1 == Seq::<char>::empty(),
        is_word(w),
    ensures
        words_of(s + w) == word_state(s).0.push(w),
        word_state(s + w + " "@) == (word_state(s).0.push(w), Seq::<char>::empty()),
{
    reveal_strlit(" ");
    lemma_word_goes_on(s, w);
    assert(Seq::<char>::empty() + w =~= w);
    assert((s + w + " "@).drop_last() =~= s + w);
}

/// Splits a text into its words.
pub fn words(s: &str) -> (res: Vec<String>)
    ensures
        res.deep_view() == words_of(s@),
{
    let chars = chars_of(s);
    let mut done: Vec<String> = Vec::new();
    let mut word = String::new();
    let mut i: usize = 0;
    assert(s@.take(0) =~= Seq::empty());
    assert(done.deep_view() =~= Seq::empty());
    while i < chars.len()
        invariant
            i <= chars.len(),
            chars@ == s@,
            done.deep_view() =~= word_state(s@.take(i as int)).0,
            word@ == word_state(s@.take(i as int)).1,
        decreases chars.len() - i,
    {
        let ghost before = done.deep_view();
        let ghost part = word@;
        proof {
            assert(s@.take(i + 1).drop_last() == s@.take(i as int));
        }
        let c = chars[i];
        if !c.is_whitespace() {
            word.push(c);
        } else if !word.as_str().is_empty() {
            done.push(word);
            word = String::new();
            assert(done.deep_view() =~= before.push(part));
        }
        i += 1;
    }
    proof {
        assert(s@.take(chars.len() as int) == s@);
    }
    if !word.as_str().is_empty() {
        let ghost before = done.deep_view();
        let ghost part = word@;
        done.push(word);
        assert(done.deep_view() =~= before.push(part));
    }
    done
}

// ---------------------------------------------------------------------------
// Where words and parts stand
// ---------------------------------------------------------------------------

/// Whether a word of a text stands from `a` to `b`: no whitespace is in it, and
/// there is whitespace, or an end of the text, on both its sides.
pub open spec fn word_at(s: Seq<char>, a: int, b: int) -> bool {
    &&& 0 <= a < b <= s.len()
    &&& forall|i: int| a <= i < b ==> !is_white(#[trigger] s[i])
    &&& a > 0 ==> is_white(s[a - 1])
    &&& b < s.len() ==> is_white(s[b])
}

/// Trimming drops the whitespace at both ends and nothing else.
pub proof fn trimming_drops_whitespace(s: Seq<char>) -> (cut: (int, int))
    ensures
        0 <= cut.0 <= cut.1 <= s.len(),
        trimmed(s) == s.subrange(cut.0, cut.1),
        forall|i: int| 0 <= i < cut.0 ==> is_white(#[trigger] s[i]),
        forall|i: int| cut.1 <= i < s.len() ==> is_white(#[trigger] s[i]),
        cut.0 < cut.1 ==> !is_white(s[cut.0]) && !is_white(s[cut.1 - 1]),
{
    let a = lemma_trimmed_start(s);
    let t = s.skip(a);
    let n = lemma_trimmed_end(t);
    assert(t.take(n) =~= s.subrange(a, a + n));
    assert forall|i: int| a + n <= i < s.len() implies is_white(#[trigger] s[i]) by {
        assert(t[i - a] == s[i]);
    }
    if n > 0 {
        assert(t[0] == s[a]);
        assert(t[n - 1] == s[a + n - 1]);
        if a < s.len() {
            assert(!is_white(s[a]));
        }
    }
    (a, a + n)
}

proof fn lemma_trimmed_start(s: Seq<char>) -> (a: int)
    ensures
        0 <= a <= s.len(),
        trimmed_start(s) == s.skip(a),
        forall|i: int| 0 <= i < a ==> is_white(#[trigger] s[i]),
        a < s.len() ==> !is_white(s[a]),
    decreases s.len(),
{
    if s.len() > 0 && is_white(s[0]) {
        let rest = s.drop_first();
        let a = lemma_trimmed_start(rest);
        assert(rest.skip(a) =~= s.skip(a + 1));
        assert forall|i: int| 0 <= i < a + 1 implies is_white(#[trigger] s[i]) by {
            if i > 0 {
                assert(rest[i - 1] == s[i]);
            }
        }
        if a < rest.len() {
            assert(rest[a] == s[a + 1]);
        }
        a + 1
    } else {
        assert(s.skip(0) =~= s);
        0
    }
}

proof fn lemma_trimmed_end(s: Seq<char>) -> (n: int)
    ensures
        0 <= n <= s.len(),
        trimmed_end(s) == s.take(n),
        forall|i: int| n <= i < s.len() ==> is_white(#[trigger] s[i]),
        n > 0 ==> !is_white(s[n - 1]),
    decreases s.len(),
{
    if s.len() > 0 && is_white(s.last()) {
        let front = s.drop_last();
        let n = lemma_trimmed_end(front);
        assert(front.take(n) =~= s.take(n));
        assert forall|i: int| n <= i < s.len() implies is_white(#[trigger] s[i]) by {
            if i < front.len() {
                assert(front[i] == s[i]);
            }
        }
        if n > 0 {
            assert(front[n - 1] == s[n - 1]);
        }
        n
    } else {
        assert(s.take(s.len() as int) =~= s);
        s.len() as int
    }
}

/// A text without whitespace at its ends is not changed by trimming.
pub proof fn trimming_keeps_the_rest(s: Seq<char>)
    requires
        s.len() > 0 ==> !is_white(s[0]) && !is_white(s.last()),
    ensures
        trimmed(s) == s,
{
    let cut = trimming_drops_whitespace(s);
    if s.len() > 0 {
        if cut.0 > 0 {
            assert(is_white(s[0]));
        }
        if cut.1 < s.len() {
            assert(is_white(s[s.len() - 1]));
        }
    }
    assert(s.subrange(0, s.len() as int) =~= s);
}

/// Trimming twice is trimming once.
pub proof fn trimming_is_idempotent(s: Seq<char>)
    ensures
        trimmed(trimmed(s)) == trimmed(s),
{
    let cut = trimming_drops_whitespace(s);
    let t = trimmed(s);
    if cut.0 < cut.1 {
        assert(t[0] == s[cut.0]);
        assert(t[t.len() - 1] == s[cut.1 - 1]);
    }
    trimming_keeps_the_rest(t);
}

/// A text without the character `c` goes on with the last part.
pub proof fn part_goes_on(s: Seq<char>, w: Seq<char>, c: char)
    requires
        !w.contains(c),
    ensures
        ({
            let before = split_on(s, c);
            split_on(s + w, c) == before.update(before.len() - 1, before.last() + w)
        }),
    decreases w.len(),
{
    let before = split_on(s, c);
    split_has_a_part(s, c);
    if w.len() == 0 {
        assert(s + w =~= s);
        assert(before.last() + w =~= before.last());
        assert(before.update(before.len() - 1, before.last()) =~= before);
    } else {
        assert(!w.drop_last().contains(c)) by {
            if w.drop_last().contains(c) {
                let i = choose|i: int| 0 <= i < w.drop_last().len() && w.drop_last()[i] == c;
                assert(w[i] == c);
            }
        }
        assert(w[w.len() - 1] != c);
        part_goes_on(s, w.drop_last(), c);
        assert((s + w).drop_last() =~= s + w.drop_last());
        assert(before.last() + w =~= (before.last() + w.drop_last()).push(w.last()));
        assert(split_on(s + w, c) =~= before.update(before.len() - 1, before.last() + w));
    }
}

/// Behind a separator, a text without one is a part of its own.
pub proof fn next_part(s: Seq<char>, w: Seq<char>, c: char)
    requires
        !w.contains(c),
    ensures
        split_on(s.push(c) + w, c) == split_on(s, c).push(w),
{
    let t = s.push(c);
    assert(t.drop_last() =~= s);
    split_has_a_part(s, c);
    part_goes_on(t, w, c);
    assert(Seq::<char>::empty() + w =~= w);
    assert(split_on(t + w, c) =~= split_on(s, c).push(w));
}

/// A text without the separator is one part.
pub proof fn only_part(w: Seq<char>, c: char)
    requires
        !w.contains(c),
    ensures
        split_on(w, c) == seq![w],
{
    part_goes_on(Seq::empty(), w, c);
    assert(Seq::<char>::empty() + w =~= w);
    assert(split_on(Seq::empty(), c) == seq![Seq::<char>::empty()]);
    assert(split_on(w, c) =~= seq![w]);
}

/// The texts one after the other with `sep` between them.
pub open spec fn joined(parts: Seq<Seq<char>>, sep: Seq<char>) -> Seq<char>
    decreases parts.len(),
{
    if parts.len() == 0 {
        Seq::empty()
    } else if parts.len() == 1 {
        parts[0]
    } else {
        joined(parts.drop_last(), sep) + sep + parts.last()
    }
}

/// Joins the first `n` texts with `sep` between them.
pub fn join_first(parts: &Vec<String>, n: usize, sep: &str) -> (res: String)
    requires
        n <= parts.len(),
    ensures
        res@ == joined(parts.deep_view().take(n as int), sep@),
{
    let mut out = String::new();
    let ghost all = parts.deep_view();
    let mut i: usize = 0;
    assert(all.take(0) =~= Seq::empty());
    while i < n
        invariant
            i <= n <= parts.len(),
            all == parts.deep_view(),
            out@ == joined(all.take(i as int), sep@),
        decreases n - i,
    {
        proof {
            assert(all.take(i + 1).drop_last() == all.take(i as int));
            assert(all.take(i + 1).last() == parts@[i as int]@);
        }
        if i == 0 {
            out = parts[0].clone();
        } else {
            out.append(sep);
            out.append(&parts[i]);
        }
        i += 1;
    }
    out
}

/// Joins texts with `sep` between them.
pub fn join(parts: &Vec<String>, sep: &str) -> (res: String)
    ensures
        res@ == joined(parts.deep_view(), sep@),
{
    proof {
        assert(parts.deep_view().take(parts.len() as int) == parts.deep_view());
    }
    join_first(parts, parts.len(), sep)
}

/// A row of `n` characters `c`.
pub open spec fn repeated(c: char, n: nat) -> Seq<char> {
    Seq::new(n, |i: int| c)
}

/// A row of `n` characters `c`.
pub fn repeat(c: char, n: usize) -> (res: String)
    ensures
        res@ == repeated(c, n as nat),
{
    let mut out = String::new();
    let mut i: usize = 0;
    while i < n
        invariant
            i <= n,
            out@ =~= repeated(c, i as nat),
        decreases n - i,
    {
        out.push(c);
        i += 1;
    }
    out
}

/// A text filled up with spaces on the right to a width.
pub open spec fn padded(s: Seq<char>, width: nat) -> Seq<char> {
    if s.len() >= width {
        s
    } else {
        s + repeated(' ', (width - s.len()) as nat)
    }
}

/// Fills a text up with spaces on the right to a width.
pub fn pad(s: &str, width: usize) -> (res: String)
    ensures
        res@ == padded(s@, width as nat),
{
    let n = s.unicode_len();
    if n >= width {
        s.to_owned()
    } else {
        s.to_owned().concat(&repeat(' ', width - n))
    }
}

/// A text with its first character in ASCII upper case.
pub open spec fn capitalized(s: Seq<char>) -> Seq<char> {
    if s.len() == 0 {
        s
    } else {
        s.update(0, ascii_upper(s[0]))
    }
}

/// Puts the first character of a text in ASCII upper case.
pub fn capitalize(s: &str) -> (res: String)
    ensures
        res@ == capitalized(s@),
{
    let chars = chars_of(s);
    if chars.len() == 0 || chars[0] > '\u{7f}' {
        assert(chars.len() > 0 ==> capitalized(s@) =~= s@);
        return s.to_owned();
    }
    let first = text_of_chars(&chars, 0, 1);
    let rest = text_of_chars(&chars, 1, chars.len());
    assert(first@ =~= seq![s@[0]]);
    let res = upper(&first).concat(&rest);
    assert(res@ =~= capitalized(s@));
    res
}

/// A text filled up with spaces on the left to a width.
pub open spec fn padded_left(s: Seq<char>, width: nat) -> Seq<char> {
    if s.len() >= width {
        s
    } else {
        repeated(' ', (width - s.len()) as nat) + s
    }
}

/// Fills a text up with spaces on the left to a width.
pub fn pad_left(s: &str, width: usize) -> (res: String)
    ensures
        res@ == padded_left(s@, width as nat),
{
    let n = s.unicode_len();
    if n >= width {
        s.to_owned()
    } else {
        repeat(' ', width - n).concat(s)
    }
}

// ---------------------------------------------------------------------------
// Order
// ---------------------------------------------------------------------------

/// Whether `a` comes before `b` in the order of their characters.
pub open spec fn comes_before(a: Seq<char>, b: Seq<char>) -> bool
    decreases a.len(),
{
    if b.len() == 0 {
        false
    } else if a.len() == 0 {
        true
    } else if a[0] != b[0] {
        a[0] < b[0]
    } else {
        comes_before(a.drop_first(), b.drop_first())
    }
}

/// Whether `a` comes before `b` in the order of their characters.
pub fn less(a: &str, b: &str) -> (res: bool)
    ensures
        res == comes_before(a@, b@),
{
    let x = chars_of(a);
    let y = chars_of(b);
    let mut i: usize = 0;
    assert(x@.skip(0) =~= x@);
    assert(y@.skip(0) =~= y@);
    while i < x.len() && i < y.len() && x[i] == y[i]
        invariant
            i <= x.len(),
            i <= y.len(),
            x@ == a@,
            y@ == b@,
            comes_before(x@.skip(i as int), y@.skip(i as int)) == comes_before(a@, b@),
        decreases x.len() - i,
    {
        proof {
            assert(x@.skip(i as int).drop_first() =~= x@.skip(i + 1));
            assert(y@.skip(i as int).drop_first() =~= y@.skip(i + 1));
        }
        i += 1;
    }
    if i == y.len() {
        false
    } else if i == x.len() {
        true
    } else {
        x[i] < y[i]
    }
}

/// No text comes before itself, and of two texts that come before each other
/// neither exists.
pub proof fn order_is_strict(a: Seq<char>, b: Seq<char>)
    ensures
        !comes_before(a, a),
        !(comes_before(a, b) && comes_before(b, a)),
    decreases a.len(),
{
    if a.len() > 0 {
        if b.len() > 0 {
            order_is_strict(a.drop_first(), b.drop_first());
        } else {
            order_is_strict(a.drop_first(), Seq::empty());
        }
    }
}

/// The order goes on from text to text.
pub proof fn order_is_transitive(a: Seq<char>, b: Seq<char>, c: Seq<char>)
    requires
        comes_before(a, b),
        comes_before(b, c),
    ensures
        comes_before(a, c),
    decreases a.len(),
{
    if a.len() > 0 && b.len() > 0 && c.len() > 0 && a[0] == b[0] && b[0] == c[0] {
        order_is_transitive(a.drop_first(), b.drop_first(), c.drop_first());
    }
}

/// Of two different texts one comes before the other.
pub proof fn order_is_total(a: Seq<char>, b: Seq<char>)
    ensures
        a == b || comes_before(a, b) || comes_before(b, a),
    decreases a.len(),
{
    if a.len() > 0 && b.len() > 0 {
        if a[0] == b[0] {
            order_is_total(a.drop_first(), b.drop_first());
            if a.drop_first() == b.drop_first() {
                assert(a =~= seq![a[0]] + a.drop_first());
                assert(b =~= seq![b[0]] + b.drop_first());
            }
        }
    } else if a.len() == 0 && b.len() == 0 {
        assert(a =~= b);
    }
}

// ---------------------------------------------------------------------------
// Quoting
// ---------------------------------------------------------------------------

/// What `Debug` makes of a text with characters that it escapes.
pub uninterp spec fn escaped(s: Seq<char>) -> Seq<char>;

/// The string literal that holds a text.
pub open spec fn quoted(s: Seq<char>) -> Seq<char> {
    if all_plain(s) {
        seq!['"'] + s + seq!['"']
    } else {
        escaped(s)
    }
}

/// Whether `c` stands for itself in a string literal.
pub open spec fn is_plain(c: char) -> bool {
    ' ' <= c <= '~' && c != '"' && c != '\\'
}

/// Whether every character of `s` stands for itself in a string literal.
pub open spec fn all_plain(s: Seq<char>) -> bool {
    forall|i: int| 0 <= i < s.len() ==> is_plain(#[trigger] s[i])
}

/// `Debug` for `str`: a function of the text alone, which puts quotes around
/// plain text. How it escapes other characters is left unsaid.
#[verifier::external_body]
fn debug_text(s: &str) -> (res: String)
    ensures
        all_plain(s@) ==> res@ == seq!['"'] + s@ + seq!['"'],
        !all_plain(s@) ==> res@ == escaped(s@),
{
    format!("{s:?}")
}

/// The string literal that holds a text.
pub fn quote(s: &str) -> (res: String)
    ensures
        res@ == quoted(s@),
{
    debug_text(s)
}

/// Texts are ordered by the first character in which they differ; one that another
/// begins with comes before that other.
pub proof fn order_is_by_the_first_difference(a: Seq<char>, b: Seq<char>, k: int)
    requires
        0 <= k <= a.len(),
        k < b.len(),
        a.take(k) == b.take(k),
        k < a.len() ==> a[k] < b[k],
    ensures
        comes_before(a, b),
    decreases a.len(),
{
    if k > 0 {
        assert(a[0] == a.take(k)[0] && b[0] == b.take(k)[0]);
        let x = a.drop_first();
        let y = b.drop_first();
        assert(x.take(k - 1) =~= a.take(k).drop_first());
        assert(y.take(k - 1) =~= b.take(k).drop_first());
        order_is_by_the_first_difference(x, y, k - 1);
    }
}

/// Padding adds spaces behind or in front of a text, only spaces, and as many as the
/// width asks for.
pub proof fn padding_adds_spaces(s: Seq<char>, width: nat)
    ensures
        ({
            let after = padded(s, width);
            let before = padded_left(s, width);
            let len = if s.len() < width {
                width
            } else {
                s.len()
            };
            &&& after.len() == len && before.len() == len
            &&& after.take(s.len() as int) == s
            &&& before.skip(len - s.len()) == s
            &&& forall|i: int| s.len() <= i < len ==> #[trigger] after[i] == ' '
            &&& forall|i: int| 0 <= i < len - s.len() ==> #[trigger] before[i] == ' '
        }),
{
}

/// Texts are joined by putting the separator between them, and neither in front of
/// the first nor behind the last.
pub proof fn joining_puts_the_separator_between(
    parts: Seq<Seq<char>>,
    part: Seq<char>,
    sep: Seq<char>,
)
    ensures
        joined(Seq::empty(), sep).len() == 0,
        joined(seq![part], sep) == part,
        parts.len() > 0 ==> joined(parts.push(part), sep) == joined(parts, sep) + sep + part,
{
    assert(parts.push(part).drop_last() =~= parts);
}

/// A text loses a suffix character wherever that ends it, and nothing else.
pub proof fn suffixes_are_dropped(s: Seq<char>, c: char)
    ensures
        without_suffix(s.push(c), c) == without_suffix(s, c),
        without_suffix(s, c).is_prefix_of(s),
        forall|i: int| without_suffix(s, c).len() <= i < s.len() ==> #[trigger] s[i] == c,
        without_suffix(s, c).len() > 0 ==> without_suffix(s, c).last() != c,
    decreases s.len(),
{
    assert(s.push(c).drop_last() =~= s);
    if s.len() > 0 && s.last() == c {
        suffixes_are_dropped(s.drop_last(), c);
        let kept = without_suffix(s, c);
        assert(s.subrange(0, kept.len() as int) =~= s.drop_last().subrange(0, kept.len() as int));
        assert forall|i: int| kept.len() <= i < s.len() implies #[trigger] s[i] == c by {
            if i < s.len() - 1 {
                assert(s.drop_last()[i] == c);
            }
        }
    } else {
        assert(s.subrange(0, s.len() as int) =~= s);
    }
}

/// Only the first of a character is replaced, or each of them.
pub proof fn replacing_keeps_the_rest(s: Seq<char>, from: char, to: char, i: int)
    requires
        0 <= i < s.len(),
    ensures
        replaced_all(s, from, to).len() == s.len(),
        replaced_first(s, from, to).len() == s.len(),
        replaced_all(s, from, to)[i] == (if s[i] == from {
            to
        } else {
            s[i]
        }),
        replaced_first(s, from, to)[i] == (if s[i] == from && !s.take(i).contains(from) {
            to
        } else {
            s[i]
        }),
{
    s.index_of_first_ensures(from);
    let front = s.take(i);
    if front.contains(from) {
        let j = choose|j: int| 0 <= j < front.len() && front[j] == from;
        assert(s[j] == from);
    }
    if s.contains(from) {
        let k = s.index_of_first(from)->0;
        if k < i {
            assert(front[k] == from);
        }
    } else {
        assert(s[i] != from);
    }
}

/// A text that is cut keeps its first characters, as many as there are up to the
/// limit.
pub proof fn cutting_keeps_the_front(s: Seq<char>, n: nat)
    ensures
        first_chars(s, n).is_prefix_of(s),
        first_chars(s, n).len() == (if s.len() < n {
            s.len()
        } else {
            n
        }),
{
    assert(s.subrange(0, s.len() as int) =~= s);
}

/// Only the first character of a text changes when it is capitalized, and only where
/// it is a small letter of ASCII.
pub proof fn capitalizing_changes_the_first_letter(s: Seq<char>)
    requires
        s.len() > 0,
    ensures
        capitalized(s).len() == s.len(),
        capitalized(s).drop_first() == s.drop_first(),
        'a' <= s[0] <= 'z' ==> 'A' <= capitalized(s)[0] <= 'Z' && ascii_lower(capitalized(s)[0])
            == s[0],
        !('a' <= s[0] <= 'z') ==> capitalized(s) == s,
{
    assert(capitalized(s).drop_first() =~= s.drop_first());
    if !('a' <= s[0] <= 'z') {
        assert(capitalized(s) =~= s);
    }
}

/// A letter of ASCII and the same letter in the other case are told alike when both
/// are lowered, and a character that is no capital of ASCII stays as it is.
pub proof fn lowering_changes_capitals(s: Seq<char>, i: int)
    requires
        all_ascii(s),
        0 <= i < s.len(),
    ensures
        lowercase(s).len() == s.len() && uppercase(s).len() == s.len(),
        'A' <= s[i] <= 'Z' ==> 'a' <= lowercase(s)[i] <= 'z' && lowercase(s)[i] as int - s[i] as int
            == 'a' as int - 'A' as int,
        !('A' <= s[i] <= 'Z') ==> lowercase(s)[i] == s[i],
        'a' <= s[i] <= 'z' ==> 'A' <= uppercase(s)[i] <= 'Z' && s[i] as int - uppercase(s)[i] as int
            == 'a' as int - 'A' as int,
        !('a' <= s[i] <= 'z') ==> uppercase(s)[i] == s[i],
{
}

} // verus!
