//! Decimal numbers in text: which texts write a number, and what it is rounded
//! to so many decimal places.

use vstd::prelude::*;

use crate::query;
use crate::text;

verus! {

// ---------------------------------------------------------------------------
// Powers of ten
// ---------------------------------------------------------------------------

/// A power of ten.
pub open spec fn pow10(n: nat) -> nat
    decreases n,
{
    if n == 0 {
        1
    } else {
        10 * pow10((n - 1) as nat)
    }
}

/// A power of ten is at least one.
pub proof fn lemma_pow10_positive(n: nat)
    ensures
        pow10(n) >= 1,
    decreases n,
{
    if n > 0 {
        lemma_pow10_positive((n - 1) as nat);
    }
}

/// Twenty or more decimal places are more than an `i64` can fill.
pub proof fn lemma_pow10_grows(n: nat)
    requires
        n >= 20,
    ensures
        pow10(n) >= 100_000_000_000_000_000_000,
    decreases n,
{
    reveal_with_fuel(pow10, 21);
    if n > 20 {
        lemma_pow10_grows((n - 1) as nat);
    }
}

proof fn lemma_pow10_monotone(a: nat, b: nat)
    requires
        a <= b,
    ensures
        pow10(a) <= pow10(b),
    decreases b,
{
    lemma_pow10_positive(b);
    if a < b {
        lemma_pow10_positive((b - 1) as nat);
        lemma_pow10_monotone(a, (b - 1) as nat);
    }
}

// ---------------------------------------------------------------------------
// Digits
// ---------------------------------------------------------------------------

proof fn lemma_value_bound(s: Seq<char>)
    requires
        text::all_digits(s),
    ensures
        text::digits_value(s) < pow10(s.len()),
    decreases s.len(),
{
    if s.len() > 0 {
        assert(text::all_digits(s.drop_last())) by {
            assert forall|i: int| 0 <= i < s.drop_last().len() implies text::is_digit(
                #[trigger] s.drop_last()[i],
            ) by {
                assert(text::is_digit(s[i]));
            }
        }
        assert(text::is_digit(s[s.len() - 1]));
        lemma_value_bound(s.drop_last());
    }
}

proof fn lemma_value_of_parts(a: Seq<char>, b: Seq<char>)
    ensures
        text::digits_value(a + b) == text::digits_value(a) * pow10(b.len()) + text::digits_value(b),
    decreases b.len(),
{
    if b.len() == 0 {
        assert(a + b =~= a);
        assert(text::digits_value(a) * 1 == text::digits_value(a));
    } else {
        assert((a + b).drop_last() =~= a + b.drop_last());
        assert((a + b).last() == b.last());
        lemma_value_of_parts(a, b.drop_last());
        let x = text::digits_value(a) as int;
        let p = pow10((b.len() - 1) as nat) as int;
        assert(10 * (x * p) == x * (10 * p)) by (nonlinear_arith);
    }
}

// ---------------------------------------------------------------------------
// Numbers
// ---------------------------------------------------------------------------

/// What a text that writes a number says.
pub enum NumberView {
    /// The number that `digits` write, times ten to the `exponent`.
    Finite {
        /// Whether there is a minus sign.
        negative: bool,
        /// The digits before and behind the point.
        digits: Seq<char>,
        /// The power of ten.
        exponent: int,
    },
    /// Infinity, or no number.
    NotFinite,
}

/// A text without its sign.
pub open spec fn unsigned(s: Seq<char>) -> Seq<char> {
    if s.len() > 0 && (s[0] == '+' || s[0] == '-') {
        s.drop_first()
    } else {
        s
    }
}

/// Whether a text begins with a minus sign.
pub open spec fn has_minus(s: Seq<char>) -> bool {
    s.len() > 0 && s[0] == '-'
}

/// Where one of two characters first stands; the length, where neither does.
pub open spec fn place_of(s: Seq<char>, a: char, b: char) -> nat
    decreases s.len(),
{
    if s.len() == 0 || s[0] == a || s[0] == b {
        0
    } else {
        1 + place_of(s.drop_first(), a, b)
    }
}

/// What stands behind a place.
pub open spec fn behind(s: Seq<char>, place: nat) -> Seq<char> {
    if place < s.len() {
        s.skip(place as int + 1)
    } else {
        Seq::empty()
    }
}

/// Whether a text without its sign writes infinity or no number, in any case of
/// its letters.
pub open spec fn not_finite(s: Seq<char>) -> bool {
    let lower = s.map_values(|c: char| text::ascii_lower(c));
    lower == "inf"@ || lower == "infinity"@ || lower == "nan"@
}

/// The digits before the point.
pub open spec fn whole_digits(mantissa: Seq<char>) -> Seq<char> {
    mantissa.take(place_of(mantissa, '.', '.') as int)
}

/// The digits behind the point.
pub open spec fn fraction_digits(mantissa: Seq<char>) -> Seq<char> {
    behind(mantissa, place_of(mantissa, '.', '.'))
}

/// Whether a mantissa is digits, with an optional point among, before or behind
/// them.
pub open spec fn is_mantissa(mantissa: Seq<char>) -> bool {
    &&& text::all_digits(whole_digits(mantissa))
    &&& text::all_digits(fraction_digits(mantissa))
    &&& whole_digits(mantissa).len() + fraction_digits(mantissa).len() > 0
}

/// The exponent that a text writes: digits, with an optional sign before them.
pub open spec fn power_of(s: Seq<char>) -> Option<int> {
    let digits = unsigned(s);
    if digits.len() == 0 || !text::all_digits(digits) {
        None
    } else if has_minus(s) {
        Some(-text::digits_value(digits))
    } else {
        Some(text::digits_value(digits) as int)
    }
}

/// The number that a mantissa writes, times ten to a power.
pub open spec fn finite(negative: bool, mantissa: Seq<char>, power: int) -> NumberView {
    NumberView::Finite {
        negative,
        digits: whole_digits(mantissa) + fraction_digits(mantissa),
        exponent: power - fraction_digits(mantissa).len(),
    }
}

/// The number that a text writes: an optional sign; `inf`, `infinity` or `nan`,
/// or digits with an optional point and an optional exponent.
pub open spec fn number_of(s: Seq<char>) -> Option<NumberView> {
    let body = unsigned(s);
    let mark = place_of(body, 'e', 'E');
    let mantissa = body.take(mark as int);
    if not_finite(body) {
        Some(NumberView::NotFinite)
    } else if !is_mantissa(mantissa) {
        None
    } else if mark == body.len() {
        Some(finite(has_minus(s), mantissa, 0))
    } else {
        match power_of(behind(body, mark)) {
            Some(power) => Some(finite(has_minus(s), mantissa, power)),
            None => None,
        }
    }
}

/// A count times ten to a power, rounded to an integer, halves up.
pub open spec fn scaled(n: nat, power: int) -> nat {
    if power >= 0 {
        n * pow10(power as nat)
    } else {
        (2 * n + pow10((-power) as nat)) / (2 * pow10((-power) as nat))
    }
}

/// A number in units of `10^-places`, rounded to an integer, halves away from
/// zero. There is none where the text writes no finite number.
pub open spec fn rounded(s: Seq<char>, places: nat) -> Option<int> {
    match number_of(s) {
        Some(NumberView::Finite { negative, digits, exponent }) => {
            let n = scaled(text::digits_value(digits), exponent + places) as int;
            Some(
                if negative {
                    -n
                } else {
                    n
                },
            )
        },
        _ => None,
    }
}

/// A number in units of `10^-places`, rounded, where there is one and it fits.
pub open spec fn in_units(s: Seq<char>, places: nat) -> Option<i64> {
    match rounded(s, places) {
        Some(n) => if i64::MIN <= n <= i64::MAX {
            Some(n as i64)
        } else {
            None
        },
        None => None,
    }
}

/// Rounding goes astray by half a unit at most.
pub proof fn rounding_is_close(n: nat, places: nat)
    ensures
        2 * n - pow10(places) <= 2 * (scaled(n, -(places as int)) * pow10(places)) <= 2 * n + pow10(
            places,
        ),
{
    let p = pow10(places) as int;
    lemma_pow10_positive(places);
    let q = scaled(n, -(places as int)) as int;
    if places == 0 {
        assert(n * 1 == n);
    } else {
        vstd::arithmetic::div_mod::lemma_fundamental_div_mod(2 * n + p, 2 * p);
        assert(2 * n - p <= 2 * (q * p) <= 2 * n + p) by (nonlinear_arith)
            requires
                2 * n + p == (2 * p) * q + (2 * n + p) % (2 * p),
                0 <= (2 * n + p) % (2 * p) < 2 * p,
        ;
    }
}

/// The parts of a finite number in text.
struct Parts {
    negative: bool,
    digits: Vec<char>,
    places: usize,
    power_negative: bool,
    power: Vec<char>,
}

impl Parts {
    spec fn power(&self) -> int {
        let magnitude = text::digits_value(self.power@) as int;
        if self.power_negative {
            -magnitude
        } else {
            magnitude
        }
    }

    spec fn number(&self) -> NumberView {
        NumberView::Finite {
            negative: self.negative,
            digits: self.digits@,
            exponent: self.power() - self.places,
        }
    }

    spec fn wf(&self) -> bool {
        text::all_digits(self.digits@) && text::all_digits(self.power@) && self.digits.len() > 0
    }
}

proof fn lemma_place_of(s: Seq<char>, a: char, b: char, i: int)
    requires
        0 <= i <= s.len(),
        forall|j: int| 0 <= j < i ==> #[trigger] s[j] != a && s[j] != b,
        i == s.len() || s[i] == a || s[i] == b,
    ensures
        place_of(s, a, b) == i,
    decreases s.len(),
{
    if i > 0 {
        assert(s[0] != a && s[0] != b);
        assert forall|j: int| 0 <= j < i - 1 implies #[trigger] s.drop_first()[j] != a
            && s.drop_first()[j] != b by {
            assert(s[j + 1] != a && s[j + 1] != b);
        }
        lemma_place_of(s.drop_first(), a, b, i - 1);
    }
}

fn find(chars: &Vec<char>, from: usize, to: usize, a: char, b: char) -> (res: usize)
    requires
        from <= to <= chars.len(),
    ensures
        from <= res <= to,
        res - from == place_of(chars@.subrange(from as int, to as int), a, b),
{
    let ghost s = chars@.subrange(from as int, to as int);
    let mut i: usize = from;
    while i < to && chars[i] != a && chars[i] != b
        invariant
            from <= i <= to <= chars.len(),
            s == chars@.subrange(from as int, to as int),
            forall|j: int| 0 <= j < i - from ==> #[trigger] s[j] != a && s[j] != b,
        decreases to - i,
    {
        assert(s[i - from] == chars@[i as int]);
        i += 1;
    }
    proof {
        lemma_place_of(s, a, b, i - from);
    }
    i
}

fn digits_only(chars: &Vec<char>, from: usize, to: usize) -> (res: bool)
    requires
        from <= to <= chars.len(),
    ensures
        res == text::all_digits(chars@.subrange(from as int, to as int)),
{
    let ghost s = chars@.subrange(from as int, to as int);
    let mut i: usize = from;
    while i < to
        invariant
            from <= i <= to <= chars.len(),
            s == chars@.subrange(from as int, to as int),
            forall|j: int| 0 <= j < i - from ==> text::is_digit(#[trigger] s[j]),
        decreases to - i,
    {
        assert(s[i - from] == chars@[i as int]);
        let c = chars[i];
        if c < '0' || c > '9' {
            assert(!text::is_digit(s[i - from]));
            return false;
        }
        i += 1;
    }
    true
}

fn add_range(out: &mut Vec<char>, chars: &Vec<char>, from: usize, to: usize)
    requires
        from <= to <= chars.len(),
    ensures
        final(out)@ == old(out)@ + chars@.subrange(from as int, to as int),
{
    let mut i: usize = from;
    assert(out@ =~= old(out)@ + chars@.subrange(from as int, from as int));
    while i < to
        invariant
            from <= i <= to <= chars.len(),
            out@ == old(out)@ + chars@.subrange(from as int, i as int),
        decreases to - i,
    {
        out.push(chars[i]);
        i += 1;
        assert(out@ =~= old(out)@ + chars@.subrange(from as int, i as int));
    }
}

fn read_mantissa(chars: &Vec<char>, from: usize, to: usize) -> (res: Option<(Vec<char>, usize)>)
    requires
        from <= to <= chars.len(),
    ensures
        match res {
            Some((digits, places)) => {
                let mantissa = chars@.subrange(from as int, to as int);
                &&& is_mantissa(mantissa)
                &&& digits@ == whole_digits(mantissa) + fraction_digits(mantissa)
                &&& places == fraction_digits(mantissa).len()
            },
            None => !is_mantissa(chars@.subrange(from as int, to as int)),
        },
{
    let ghost mantissa = chars@.subrange(from as int, to as int);
    let point = find(chars, from, to, '.', '.');
    let rest: usize = if point < to {
        point + 1
    } else {
        to
    };
    assert(chars@.subrange(from as int, point as int) =~= whole_digits(mantissa));
    assert(chars@.subrange(rest as int, to as int) =~= fraction_digits(mantissa));
    if !digits_only(chars, from, point) || !digits_only(chars, rest, to) {
        return None;
    }
    if point == from && rest == to {
        return None;
    }
    let mut digits: Vec<char> = Vec::new();
    add_range(&mut digits, chars, from, point);
    add_range(&mut digits, chars, rest, to);
    assert(digits@ =~= whole_digits(mantissa) + fraction_digits(mantissa));
    Some((digits, to - rest))
}

fn read_power(chars: &Vec<char>, from: usize) -> (res: Option<(bool, Vec<char>)>)
    requires
        from <= chars.len(),
    ensures
        match res {
            Some((negative, digits)) => {
                &&& text::all_digits(digits@)
                &&& power_of(chars@.skip(from as int)) == Some(
                    if negative {
                        -text::digits_value(digits@)
                    } else {
                        text::digits_value(digits@) as int
                    },
                )
            },
            None => power_of(chars@.skip(from as int)) is None,
        },
{
    let n = chars.len();
    let ghost tail = chars@.skip(from as int);
    assert(from < n ==> tail[0] == chars@[from as int]);
    let negative = from < n && chars[from] == '-';
    let start: usize = if from < n && (chars[from] == '+' || chars[from] == '-') {
        from + 1
    } else {
        from
    };
    assert(chars@.subrange(start as int, n as int) =~= unsigned(tail));
    if start == n || !digits_only(chars, start, n) {
        return None;
    }
    let mut digits: Vec<char> = Vec::new();
    add_range(&mut digits, chars, start, n);
    assert(digits@ =~= unsigned(tail));
    Some((negative, digits))
}

/// Whether the characters from a place on write infinity or no number.
fn is_not_finite(chars: &Vec<char>, from: usize) -> (res: bool)
    requires
        from <= chars.len(),
    ensures
        res == not_finite(chars@.skip(from as int)),
{
    let n = chars.len();
    let mut lower: Vec<char> = Vec::new();
    let mut i: usize = from;
    while i < n
        invariant
            from <= i <= n == chars.len(),
            lower@ =~= chars@.subrange(from as int, i as int).map_values(
                |c: char| text::ascii_lower(c),
            ),
        decreases n - i,
    {
        lower.push(text::lower_char(chars[i]));
        i += 1;
    }
    let word = text::text_of_chars(&lower, 0, lower.len());
    assert(word@ =~= chars@.skip(from as int).map_values(|c: char| text::ascii_lower(c)));
    text::same(&word, "inf") || text::same(&word, "infinity") || text::same(&word, "nan")
}

/// Reads a number: its parts, or that it is not finite.
fn read_number(s: &str) -> (res: Option<Option<Parts>>)
    ensures
        match res {
            Some(Some(p)) => p.wf() && number_of(s@) == Some(p.number()),
            Some(None) => number_of(s@) == Some(NumberView::NotFinite),
            None => number_of(s@) is None,
        },
{
    let chars = text::chars_of(s);
    let n = chars.len();
    let negative = n > 0 && chars[0] == '-';
    let start: usize = if n > 0 && (chars[0] == '+' || chars[0] == '-') {
        1
    } else {
        0
    };
    let ghost body = unsigned(s@);
    assert(chars@.skip(start as int) =~= body);
    assert(chars@.subrange(start as int, n as int) =~= body);
    if is_not_finite(&chars, start) {
        return Some(None);
    }
    let mark = find(&chars, start, n, 'e', 'E');
    assert(chars@.subrange(start as int, mark as int) =~= body.take(mark - start));
    let (digits, places) = match read_mantissa(&chars, start, mark) {
        Some(m) => m,
        None => return None,
    };
    if mark == n {
        let power: Vec<char> = Vec::new();
        assert(text::digits_value(power@) == 0);
        return Some(Some(Parts { negative, digits, places, power_negative: false, power }));
    }
    assert(chars@.skip(mark + 1) =~= behind(body, (mark - start) as nat));
    match read_power(&chars, mark + 1) {
        Some((power_negative, power)) => Some(
            Some(Parts { negative, digits, places, power_negative, power }),
        ),
        None => None,
    }
}

/// Whether a text writes a number.
pub fn is_number(s: &str) -> (res: bool)
    ensures
        res == (number_of(s@) is Some),
{
    read_number(s).is_some()
}

// ---------------------------------------------------------------------------
// Rounding
// ---------------------------------------------------------------------------

/// A limit that no length and no exponent of use reaches.
const FAR: u128 = 1_000_000_000_000_000_000_000_000_000_000;

/// The number that digits write, or `max` where it is greater.
fn read_capped(digits: &Vec<char>, to: usize, max: u128) -> (res: u128)
    requires
        to <= digits.len(),
        text::all_digits(digits@),
        max <= FAR,
    ensures
        text::digits_value(digits@.take(to as int)) <= max ==> res == text::digits_value(
            digits@.take(to as int),
        ),
        text::digits_value(digits@.take(to as int)) > max ==> res == max,
{
    let mut value: u128 = 0;
    let mut over = false;
    let mut i: usize = 0;
    while i < to
        invariant
            i <= to <= digits.len(),
            text::all_digits(digits@),
            max <= FAR,
            !over ==> value == text::digits_value(digits@.take(i as int)) && value <= max,
            over ==> text::digits_value(digits@.take(i as int)) > max,
        decreases to - i,
    {
        let c = digits[i];
        proof {
            assert(text::is_digit(digits@[i as int]));
            assert(digits@.take(i + 1).drop_last() =~= digits@.take(i as int));
            assert(digits@.take(i + 1).last() == c);
        }
        if !over {
            let next: u128 = value * 10 + (c as u128 - 48);
            if next > max {
                over = true;
            } else {
                value = next;
            }
        }
        i += 1;
    }
    if over {
        max
    } else {
        value
    }
}

/// Rounding a count at a power of ten looks at the first digit that is cut.
proof fn lemma_round(digits: Seq<char>, m: nat)
    requires
        text::all_digits(digits),
        0 < m <= digits.len(),
    ensures
        scaled(text::digits_value(digits), -(m as int)) == text::digits_value(
            digits.take(digits.len() - m),
        ) + (if digits[digits.len() - m] >= '5' {
            1nat
        } else {
            0nat
        }),
{
    let keep = digits.len() - m;
    let front = digits.take(keep);
    let back = digits.skip(keep);
    let first = seq![back[0]];
    let tail = back.skip(1);
    assert(digits =~= front + back);
    assert(back =~= first + tail);
    assert(text::is_digit(digits[keep]));
    assert(text::all_digits(tail)) by {
        assert forall|i: int| 0 <= i < tail.len() implies text::is_digit(#[trigger] tail[i]) by {
            assert(text::is_digit(digits[keep + 1 + i]));
        }
    }
    lemma_value_of_parts(front, back);
    lemma_value_of_parts(first, tail);
    lemma_value_bound(tail);
    assert(first.drop_last() =~= Seq::empty());
    reveal_with_fuel(text::digits_value, 2);
    let d = back[0] as int - 48;
    assert(text::digits_value(first) == d);
    let q = text::digits_value(front) as int;
    let r = text::digits_value(back) as int;
    let t = text::digits_value(tail) as int;
    let p = pow10((m - 1) as nat) as int;
    let whole = pow10(m) as int;
    let up: int = if digits[keep] >= '5' {
        1
    } else {
        0
    };
    assert(whole == 10 * p);
    assert(d * p + t == r);
    assert(0 <= r < whole && (2 * r >= whole <==> up == 1)) by (nonlinear_arith)
        requires
            r == d * p + t,
            0 <= t < p,
            0 <= d <= 9,
            whole == 10 * p,
            up == 1 ==> d >= 5,
            up == 0 ==> d <= 4,
            up == 0 || up == 1,
    ;
    let a = 2 * (q * whole + r) + whole;
    let rem = 2 * r + whole - up * (2 * whole);
    assert(a == (q + up) * (2 * whole) + rem && 0 <= rem < 2 * whole) by (nonlinear_arith)
        requires
            a == 2 * (q * whole + r) + whole,
            rem == 2 * r + whole - up * (2 * whole),
            0 <= r < whole,
            2 * r >= whole <==> up == 1,
            up == 0 || up == 1,
    ;
    vstd::arithmetic::div_mod::lemma_fundamental_div_mod_converse(a, 2 * whole, q + up, rem);
}

/// A count that is cut by more digits than it has rounds to nothing.
proof fn lemma_round_away(digits: Seq<char>, m: nat)
    requires
        text::all_digits(digits),
        m > digits.len(),
    ensures
        scaled(text::digits_value(digits), -(m as int)) == 0,
{
    lemma_value_bound(digits);
    lemma_pow10_monotone(digits.len(), (m - 1) as nat);
    let n = text::digits_value(digits) as int;
    let p = pow10(m) as int;
    vstd::arithmetic::div_mod::lemma_fundamental_div_mod_converse(2 * n + p, 2 * p, 0, 2 * n + p);
}

proof fn lemma_scaled_zero(power: int)
    ensures
        scaled(0, power) == 0,
{
    if power < 0 {
        let p = pow10((-power) as nat) as int;
        lemma_pow10_positive((-power) as nat);
        vstd::arithmetic::div_mod::lemma_fundamental_div_mod_converse(p, 2 * p, 0, p);
    }
}

/// A count times ten to a power, where that is at most `2^63`; otherwise more
/// than that.
fn scale(digits: &Vec<char>, power: i128) -> (res: u128)
    requires
        text::all_digits(digits@),
        -2 * FAR <= power <= 2 * FAR,
    ensures
        scaled(text::digits_value(digits@), power as int) <= 0x8000_0000_0000_0000 ==> res
            == scaled(text::digits_value(digits@), power as int),
        scaled(text::digits_value(digits@), power as int) > 0x8000_0000_0000_0000 ==> res
            > 0x8000_0000_0000_0000,
{
    let n = digits.len();
    assert(digits@.take(n as int) =~= digits@);
    let ghost count = text::digits_value(digits@);
    if power >= 0 {
        let value = read_capped(digits, n, 0x8000_0000_0000_0001);
        if value == 0 {
            proof {
                lemma_scaled_zero(power as int);
            }
            return 0;
        }
        if power >= 20 {
            proof {
                lemma_pow10_grows(power as nat);
                let p = pow10(power as nat) as int;
                assert(count * p >= p) by (nonlinear_arith)
                    requires
                        count >= 1,
                        p >= 1,
                ;
            }
            return 0x8000_0000_0000_0001;
        }
        let mut res: u128 = value;
        let mut k: i128 = 0;
        assert(pow10(0) == 1);
        assert(count * 1 == count);
        while k < power
            invariant
                0 <= k <= power < 20,
                0 < value <= 0x8000_0000_0000_0001,
                count >= value,
                count == value || value == 0x8000_0000_0000_0001,
                res <= 0x8000_0000_0000_0001,
                count * pow10(k as nat) <= 0x8000_0000_0000_0000 ==> res == count * pow10(
                    k as nat,
                ),
                count * pow10(k as nat) > 0x8000_0000_0000_0000 ==> res == 0x8000_0000_0000_0001,
            decreases power - k,
        {
            proof {
                let p = pow10(k as nat) as int;
                lemma_pow10_positive(k as nat);
                assert(count * (10 * p) == 10 * (count * p)) by (nonlinear_arith);
                assert(count * p >= 0) by (nonlinear_arith)
                    requires
                        count >= 0,
                        p >= 1,
                ;
            }
            let next: u128 = res * 10;
            res = if next > 0x8000_0000_0000_0001 {
                0x8000_0000_0000_0001
            } else {
                next
            };
            k += 1;
        }
        return res;
    }
    let cut: u128 = (-power) as u128;
    if cut > n as u128 {
        proof {
            lemma_round_away(digits@, cut as nat);
        }
        return 0;
    }
    let keep: usize = n - cut as usize;
    proof {
        lemma_round(digits@, cut as nat);
    }
    let value = read_capped(digits, keep, 0x8000_0000_0000_0001);
    if digits[keep] >= '5' {
        value + 1
    } else {
        value
    }
}

/// Rounds the number that a text writes to `places` decimal places, halves away
/// from zero, and gives it in units of the last place. There is none where the
/// text writes no finite number, or one that does not fit.
pub fn round_number(s: &str, places: u8) -> (res: Option<i64>)
    ensures
        res == in_units(s@, places as nat),
{
    let p = match read_number(s) {
        Some(Some(p)) => p,
        _ => return None,
    };
    let count = p.power.len();
    assert(p.power@.take(count as int) =~= p.power@);
    let magnitude = read_capped(&p.power, count, FAR) as i128;
    let power: i128 = (if p.power_negative {
        -magnitude
    } else {
        magnitude
    }) - p.places as i128 + places as i128;
    let size = scale(&p.digits, power);
    proof {
        lemma_far_powers(p, places as nat, magnitude as int, power as int);
    }
    if p.negative {
        if size > 0x8000_0000_0000_0000 {
            None
        } else {
            Some((-(size as i128)) as i64)
        }
    } else {
        if size > 0x7fff_ffff_ffff_ffff {
            None
        } else {
            Some(size as i64)
        }
    }
}

/// A power beyond the limit makes no other number than one at the limit: either
/// nothing is left, or it does not fit.
proof fn lemma_far_powers(p: Parts, places: nat, magnitude: int, power: int)
    requires
        p.wf(),
        places <= 255,
        text::digits_value(p.power@) <= FAR ==> magnitude == text::digits_value(p.power@),
        text::digits_value(p.power@) > FAR ==> magnitude == FAR,
        power == (if p.power_negative {
            -magnitude
        } else {
            magnitude
        }) - p.places + places,
    ensures
        ({
            let exact = scaled(text::digits_value(p.digits@), p.power() - p.places + places);
            let near = scaled(text::digits_value(p.digits@), power);
            exact == near || (exact > 0x8000_0000_0000_0000 && near > 0x8000_0000_0000_0000)
        }),
{
    let n = text::digits_value(p.digits@);
    let exact = p.power() - p.places + places;
    if text::digits_value(p.power@) > FAR {
        if n == 0 {
            lemma_scaled_zero(exact);
            lemma_scaled_zero(power);
        } else if p.power_negative {
            lemma_round_away(p.digits@, (-exact) as nat);
            lemma_round_away(p.digits@, (-power) as nat);
        } else {
            lemma_pow10_grows(exact as nat);
            lemma_pow10_grows(power as nat);
            let a = pow10(exact as nat) as int;
            let b = pow10(power as nat) as int;
            assert(n * a >= a && n * b >= b) by (nonlinear_arith)
                requires
                    n >= 1,
                    a >= 1,
                    b >= 1,
            ;
        }
    }
}

// ---------------------------------------------------------------------------
// Laws
// ---------------------------------------------------------------------------

/// Ten times ten, and so on.
pub open spec fn ten_to(n: nat) -> int
    decreases n,
{
    if n == 0 {
        1
    } else {
        10 * ten_to((n - 1) as nat)
    }
}

/// The powers of ten are the products of tens.
pub proof fn powers_are_products(n: nat)
    ensures
        pow10(n) == ten_to(n),
    decreases n,
{
    if n > 0 {
        powers_are_products((n - 1) as nat);
    }
}

proof fn lemma_digits_count(s: Seq<char>)
    requires
        text::all_digits(s),
    ensures
        text::digits_value(s) == query::count_of(s),
    decreases s.len(),
{
    if s.len() > 0 {
        assert forall|i: int| 0 <= i < s.drop_last().len() implies text::is_digit(
            #[trigger] s.drop_last()[i],
        ) by {
            assert(text::is_digit(s[i]));
        }
        lemma_digits_count(s.drop_last());
        assert(text::is_digit(s[s.len() - 1]));
    }
}

proof fn lemma_first_place(s: Seq<char>, a: char, b: char, n: int)
    requires
        0 <= n <= s.len(),
        forall|i: int| 0 <= i < n ==> #[trigger] s[i] != a && s[i] != b,
        n < s.len() ==> s[n] == a || s[n] == b,
    ensures
        place_of(s, a, b) == n,
    decreases s.len(),
{
    if n > 0 {
        assert(s[0] != a && s[0] != b);
        let rest = s.drop_first();
        assert forall|i: int| 0 <= i < n - 1 implies #[trigger] rest[i] != a && rest[i] != b by {
            assert(rest[i] == s[i + 1]);
        }
        lemma_first_place(rest, a, b, n - 1);
    }
}

/// The nearest number of units: `m` units of one in `unit` parts are nearest to `v`
/// parts, where what is half way goes up.
pub open spec fn nearest(m: int, v: int, unit: int) -> bool {
    (2 * m - 1) * unit <= 2 * v < (2 * m + 1) * unit
}

/// A decimal number, written as digits with a point among them, is the nearest
/// whole number of hundredths; half a hundredth goes away from zero, and a minus
/// sign makes the number negative. A number that does not fit is none.
pub proof fn decimals_are_rounded_to_hundredths(
    negative: bool,
    whole: Seq<char>,
    fraction: Seq<char>,
)
    requires
        query::is_count(whole),
        query::is_count(fraction),
    ensures
        ({
            let body = whole.push('.') + fraction;
            let s = if negative {
                seq!['-'] + body
            } else {
                body
            };
            let v = query::count_of(whole + fraction);
            exists|m: int|
                {
                    &&& m >= 0
                    &&& #[trigger] nearest(m, 100 * v, ten_to(fraction.len()))
                    &&& in_units(s, 2) == (if m <= i64::MAX {
                        Some(
                            if negative {
                                (-m) as i64
                            } else {
                                m as i64
                            },
                        )
                    } else if negative && m == i64::MAX + 1 {
                        Some(i64::MIN)
                    } else {
                        None
                    })
                }
        }),
{
    let v = query::count_of(whole + fraction);
    let k = fraction.len();
    lemma_point_number(negative, whole, fraction);
    let m = scaled(v as nat, 2 - k) as int;
    lemma_nearest(v as nat, k);
    assert(nearest(m, 100 * v, ten_to(k)));
}

proof fn lemma_point_number(negative: bool, whole: Seq<char>, fraction: Seq<char>)
    requires
        query::is_count(whole),
        query::is_count(fraction),
    ensures
        ({
            let body = whole.push('.') + fraction;
            let s = if negative {
                seq!['-'] + body
            } else {
                body
            };
            number_of(s) == Some(
                NumberView::Finite {
                    negative,
                    digits: whole + fraction,
                    exponent: -(fraction.len() as int),
                },
            )
        }),
        text::digits_value(whole + fraction) == query::count_of(whole + fraction),
{
    let body = whole.push('.') + fraction;
    let s = if negative {
        seq!['-'] + body
    } else {
        body
    };
    let k = fraction.len();
    assert(s.drop_first() =~= body || !negative);
    assert(body[0] == whole[0]);
    assert(unsigned(s) == body);
    assert forall|i: int| 0 <= i < body.len() implies #[trigger] body[i] == '.' || '0' <= body[i]
        <= '9' by {
        if i < whole.len() {
            assert(body[i] == whole[i]);
        } else if i > whole.len() {
            assert(body[i] == fraction[i - whole.len() - 1]);
        }
    }
    lemma_first_place(body, 'e', 'E', body.len() as int);
    assert(body.take(body.len() as int) =~= body);
    assert forall|i: int| 0 <= i < whole.len() implies #[trigger] body[i] != '.' by {
        assert(body[i] == whole[i]);
    }
    lemma_first_place(body, '.', '.', whole.len() as int);
    assert(whole_digits(body) =~= whole);
    assert(fraction_digits(body) =~= fraction);
    assert(text::all_digits(whole)) by {
        assert forall|i: int| 0 <= i < whole.len() implies text::is_digit(#[trigger] whole[i]) by {
            assert('0' <= whole[i] <= '9');
        }
    }
    assert(text::all_digits(fraction)) by {
        assert forall|i: int| 0 <= i < fraction.len() implies text::is_digit(
            #[trigger] fraction[i],
        ) by {
            assert('0' <= fraction[i] <= '9');
        }
    }
    assert(!not_finite(body)) by {
        reveal_strlit("inf");
        reveal_strlit("infinity");
        reveal_strlit("nan");
        let lower = body.map_values(|c: char| text::ascii_lower(c));
        assert(lower[0] == body[0]);
        assert("inf"@[0] == 'i' && "infinity"@[0] == 'i' && "nan"@[0] == 'n');
    }
    let digits = whole + fraction;
    assert(text::all_digits(digits)) by {
        assert forall|i: int| 0 <= i < digits.len() implies text::is_digit(#[trigger] digits[i]) by {
            if i < whole.len() {
                assert(digits[i] == whole[i]);
            } else {
                assert(digits[i] == fraction[i - whole.len()]);
            }
        }
    }
    lemma_digits_count(digits);
    assert(number_of(s) == Some(
        NumberView::Finite { negative, digits, exponent: -(k as int) },
    ));
}

proof fn lemma_nearest(v: nat, k: nat)
    requires
        k > 0,
    ensures
        nearest(scaled(v, 2 - k) as int, 100 * (v as int), ten_to(k)),
{
    powers_are_products(k);
    lemma_pow10_positive(k);
    let t = ten_to(k);
    let m = scaled(v, 2 - k) as int;
    if k <= 2 {
        reveal_with_fuel(pow10, 3);
        reveal_with_fuel(ten_to, 3);
        if k == 1 {
            assert(pow10(1) == 10 && t == 10);
            assert(m == v * 10);
            assert((2 * m - 1) * 10 <= 2 * (100 * v) < (2 * m + 1) * 10);
        } else {
            assert(pow10(0) == 1 && t == 100);
            assert(m == v * 1);
            assert((2 * m - 1) * 100 <= 2 * (100 * v) < (2 * m + 1) * 100);
        }
    } else {
        let p = pow10((k - 2) as nat) as int;
        lemma_pow10_positive((k - 2) as nat);
        reveal_with_fuel(pow10, 3);
        assert(pow10(k) == 10 * (10 * pow10((k - 2) as nat)));
        vstd::arithmetic::div_mod::lemma_fundamental_div_mod(2 * v + p, 2 * p);
        assert(m == (2 * v + p) / (2 * p));
        assert((2 * m - 1) * (100 * p) <= 2 * (100 * v) < (2 * m + 1) * (100 * p)) by (nonlinear_arith)
            requires
                2 * v + p == (2 * p) * m + (2 * v + p) % (2 * p),
                0 <= (2 * v + p) % (2 * p) < 2 * p,
        ;
        assert(t == 100 * p);
    }
}

} // verus!
