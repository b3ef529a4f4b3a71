//! Numerals: what number a run of digits denotes, reading whole numbers
//! that fit a machine integer, reading numbers with a point and an exponent
//! and rounding them, and writing numbers out. All values are taken exactly
//! as the digits give them.

use vstd::prelude::*;
use vstd::string::StringExecFns;
use crate::text::chars_of;

verus! {

/// `c` is one of the ten decimal digits.
pub open spec fn is_digit(c: char) -> bool {
    '0' as u32 <= c as u32 <= '9' as u32
}

/// Every character of `s` is a decimal digit.
pub open spec fn all_digits(s: Seq<char>) -> bool {
    forall|i: int| 0 <= i < s.len() ==> is_digit(#[trigger] s[i])
}

/// The value of the digit `c`.
pub open spec fn digit_value(c: char) -> nat {
    (c as u32 - '0' as u32) as nat
}

/// The digit that stands for `d`, which is below ten.
pub open spec fn digit_char(d: nat) -> char {
    ((d + 48) as u8) as char
}

/// Ten to the power of `k`.
pub open spec fn pow10(k: nat) -> nat
    decreases k,
{
    if k == 0 {
        1
    } else {
        10 * pow10((k - 1) as nat)
    }
}

/// The number that a run of decimal digits denotes; the empty run denotes 0.
pub open spec fn decimal_value(digits: Seq<char>) -> nat
    decreases digits.len(),
{
    if digits.len() == 0 {
        0
    } else {
        decimal_value(digits.drop_last()) * 10 + digit_value(digits.last())
    }
}

/// The number that an unsigned numeral denotes: an optional `+`, then one or
/// more decimal digits and nothing else.
pub open spec fn unsigned_numeral(s: Seq<char>) -> Option<nat> {
    let digits = if s.len() > 0 && s[0] == '+' {
        s.drop_first()
    } else {
        s
    };
    if digits.len() > 0 && all_digits(digits) {
        Some(decimal_value(digits))
    } else {
        None
    }
}

/// The number that a signed numeral denotes: an optional `+` or `-`, then
/// one or more decimal digits and nothing else.
pub open spec fn signed_numeral(s: Seq<char>) -> Option<int> {
    if s.len() > 0 && s[0] == '-' {
        let digits = s.drop_first();
        if digits.len() > 0 && all_digits(digits) {
            Some(-(decimal_value(digits) as int))
        } else {
            None
        }
    } else {
        match unsigned_numeral(s) {
            Some(n) => Some(n as int),
            None => None,
        }
    }
}

/// The reading of `s` as an unsigned number of at most `max`.
pub open spec fn numeral_up_to(s: Seq<char>, max: nat) -> Option<nat> {
    match unsigned_numeral(s) {
        Some(n) => if n <= max {
            Some(n)
        } else {
            None
        },
        None => None,
    }
}

/// The reading of `s` as a number that fits sixteen bits.
pub open spec fn numeral_u16(s: Seq<char>) -> Option<u16> {
    match numeral_up_to(s, u16::MAX as nat) {
        Some(n) => Some(n as u16),
        None => None,
    }
}

/// The reading of `s` as an unsigned number of thirty-two bits.
pub open spec fn numeral_u32(s: Seq<char>) -> Option<u32> {
    match numeral_up_to(s, u32::MAX as nat) {
        Some(n) => Some(n as u32),
        None => None,
    }
}

/// The reading of `s` as a number that fits sixty-four bits.
pub open spec fn numeral_u64(s: Seq<char>) -> Option<u64> {
    match numeral_up_to(s, u64::MAX as nat) {
        Some(n) => Some(n as u64),
        None => None,
    }
}

/// The reading of `s` as a signed number of thirty-two bits.
pub open spec fn numeral_i32(s: Seq<char>) -> Option<i32> {
    match signed_numeral(s) {
        Some(n) => if i32::MIN <= n <= i32::MAX {
            Some(n as i32)
        } else {
            None
        },
        None => None,
    }
}

/// The position of the first `c` in `s`, or the length of `s` where there is none.
pub open spec fn index_of(s: Seq<char>, c: char) -> int
    decreases s.len(),
{
    if s.len() == 0 {
        0
    } else if s[0] == c {
        0
    } else {
        1 + index_of(s.drop_first(), c)
    }
}

/// `c` is the small letter `lower`, written small or as a capital.
pub open spec fn is_letter(c: char, lower: char) -> bool {
    c == lower || c as u32 + 32 == lower as u32
}

/// `s` spells `word`, a word of small letters, in letters of either case.
pub open spec fn spells(s: Seq<char>, word: Seq<char>) -> bool {
    s.len() == word.len() && forall|i: int|
        0 <= i < s.len() ==> is_letter(#[trigger] s[i], word[i])
}

/// The position of the first `e` or `E` in `s`, or the length of `s` where
/// there is none.
pub open spec fn exponent_mark(s: Seq<char>) -> int
    decreases s.len(),
{
    if s.len() == 0 {
        0
    } else if s[0] == 'e' || s[0] == 'E' {
        0
    } else {
        1 + exponent_mark(s.drop_first())
    }
}

/// The whole number nearest to the number that has the digits `digits` and
/// its decimal point before the digit at `point`, halves rounded up. The
/// point may stand before all the digits, with zeros between, or behind
/// them all, with zeros between.
pub open spec fn rounded_at(digits: Seq<char>, point: int) -> nat {
    if point < 0 {
        0
    } else if point >= digits.len() {
        decimal_value(digits) * pow10((point - digits.len()) as nat)
    } else {
        rounded_up(digits.subrange(0, point), digits.subrange(point, digits.len() as int))
    }
}

/// What a numeral without its sign denotes, rounded.
pub ghost enum Magnitude {
    /// One of the words for infinity.
    Infinite,
    /// The word for what is no number.
    NotANumber,
    /// A number; holds the whole number nearest to it.
    Finite(nat),
}

/// What a numeral without its sign denotes, rounded to the nearest whole
/// number, halves up.
///
/// The numeral is `inf`, `infinity` or `nan` in letters of either case; or
/// digits, optionally with a point among them, before them or behind them,
/// with a digit on at least one side of the point, and optionally an
/// exponent: `e` or `E`, an optional sign, and one or more digits. The
/// exponent moves the point by so many digits, to the right where it is
/// positive.
pub open spec fn magnitude_of(body: Seq<char>) -> Option<Magnitude> {
    if spells(body, seq!['i', 'n', 'f']) || spells(
        body,
        seq!['i', 'n', 'f', 'i', 'n', 'i', 't', 'y'],
    ) {
        Some(Magnitude::Infinite)
    } else if spells(body, seq!['n', 'a', 'n']) {
        Some(Magnitude::NotANumber)
    } else {
        let mark = exponent_mark(body);
        let mantissa = body.subrange(0, mark);
        let point = index_of(mantissa, '.');
        let whole = mantissa.subrange(0, point);
        let fraction = if point < mantissa.len() {
            mantissa.subrange(point + 1, mantissa.len() as int)
        } else {
            Seq::<char>::empty()
        };
        let exponent = if mark < body.len() {
            signed_numeral(body.subrange(mark + 1, body.len() as int))
        } else {
            Some(0int)
        };
        if all_digits(whole) && all_digits(fraction) && whole.len() + fraction.len() > 0
            && exponent is Some {
            Some(Magnitude::Finite(rounded_at(whole + fraction, whole.len() + exponent->Some_0)))
        } else {
            None
        }
    }
}

/// A numeral as floating-point numbers are written, rounded to the nearest
/// whole number, halves away from zero, and brought into thirty-two bits: an
/// optional sign before what `magnitude_of` reads. The value is taken
/// exactly, as the digits give it. A negative numeral rounds to nothing
/// above zero and is read as 0, as is what is no number; a number above
/// `u32::MAX`, infinity too, is read as `u32::MAX`.
pub open spec fn rounded_float(s: Seq<char>) -> Option<u32> {
    let signed = s.len() > 0 && (s[0] == '+' || s[0] == '-');
    let negative = s.len() > 0 && s[0] == '-';
    let body = if signed {
        s.drop_first()
    } else {
        s
    };
    match magnitude_of(body) {
        None => None,
        Some(Magnitude::NotANumber) => Some(0u32),
        Some(Magnitude::Infinite) => Some(
            if negative {
                0u32
            } else {
                u32::MAX
            },
        ),
        Some(Magnitude::Finite(n)) => Some(
            if negative {
                0u32
            } else if n <= u32::MAX {
                n as u32
            } else {
                u32::MAX
            },
        ),
    }
}

/// The whole number nearest to the fraction with the digits `whole` before
/// the point and `fraction` behind it: one more than `whole` denotes where
/// the first digit behind the point is five or more.
pub open spec fn rounded_up(whole: Seq<char>, fraction: Seq<char>) -> nat {
    decimal_value(whole) + if fraction.len() > 0 && fraction[0] as u32 >= '5' as u32 {
        1nat
    } else {
        0nat
    }
}

/// The digits of `n`, without a zero in front unless `n` is zero.
pub open spec fn digits_of(n: nat) -> Seq<char>
    decreases n,
{
    if n < 10 {
        seq![digit_char(n)]
    } else {
        digits_of(n / 10).push(digit_char(n % 10))
    }
}

/// The decimal numeral of `n`: its digits, behind a `-` where it is negative.
pub open spec fn decimal_of(n: int) -> Seq<char> {
    if n < 0 {
        seq!['-'] + digits_of((-n) as nat)
    } else {
        digits_of(n as nat)
    }
}

/// Appending a digit to a run multiplies its value by ten and adds the digit.
pub proof fn lemma_decimal_push(digits: Seq<char>, c: char)
    ensures
        decimal_value(digits.push(c)) == decimal_value(digits) * 10 + digit_value(c),
{
    assert(digits.push(c).drop_last() =~= digits);
}

/// A longer run of digits denotes no smaller a number than its beginning.
pub proof fn lemma_decimal_monotone(digits: Seq<char>, n: int)
    requires
        0 <= n <= digits.len(),
    ensures
        decimal_value(digits.take(n)) <= decimal_value(digits),
    decreases digits.len() - n,
{
    if n < digits.len() {
        lemma_decimal_monotone(digits, n + 1);
        assert(digits.take(n + 1) =~= digits.take(n).push(digits[n]));
        lemma_decimal_push(digits.take(n), digits[n]);
    } else {
        assert(digits.take(n) =~= digits);
    }
}

/// The value of two runs of digits, one behind the other.
pub proof fn lemma_decimal_concat(a: Seq<char>, b: Seq<char>)
    ensures
        decimal_value(a + b) == decimal_value(a) * pow10(b.len()) + decimal_value(b),
    decreases b.len(),
{
    if b.len() == 0 {
        assert(a + b =~= a);
        assert(pow10(0) == 1);
    } else {
        let shorter = b.drop_last();
        assert((a + b).drop_last() =~= a + shorter);
        lemma_decimal_concat(a, shorter);
        let p = pow10(shorter.len());
        let x = decimal_value(a);
        let y = decimal_value(shorter);
        assert(pow10(b.len()) == 10 * p);
        assert((x * p + y) * 10 == x * (10 * p) + y * 10) by (nonlinear_arith);
        assert(x * pow10(b.len()) == x * (10 * p));
    }
}

/// A run of `k` digits denotes a number below ten to the power of `k`.
pub proof fn lemma_decimal_bound(digits: Seq<char>)
    requires
        all_digits(digits),
    ensures
        decimal_value(digits) < pow10(digits.len()),
    decreases digits.len(),
{
    if digits.len() > 0 {
        let shorter = digits.drop_last();
        assert forall|i: int| 0 <= i < shorter.len() implies is_digit(#[trigger] shorter[i]) by {
            assert(shorter[i] == digits[i]);
        }
        lemma_decimal_bound(shorter);
        assert(is_digit(digits.last()));
    }
}

/// What rounding comes to. The numeral with the digits `whole` before the
/// point and `fraction` behind it denotes `n / p`, where `n` is the value of
/// all its digits and `p` is ten to the number of digits behind the point.
/// The number `r` that is read from it is the whole number nearest to that,
/// the larger of two that are equally near: `r - 1/2 <= n / p < r + 1/2`.
pub proof fn lemma_rounded_is_nearest(whole: Seq<char>, fraction: Seq<char>)
    requires
        all_digits(whole),
        all_digits(fraction),
    ensures
        ({
            let n = decimal_value(whole + fraction);
            let p = pow10(fraction.len());
            let r = rounded_up(whole, fraction);
            2 * r * p - p <= 2 * n < 2 * r * p + p
        }),
{
    let n = decimal_value(whole + fraction);
    let p = pow10(fraction.len());
    let w = decimal_value(whole);
    let f = decimal_value(fraction);
    lemma_decimal_concat(whole, fraction);
    lemma_decimal_bound(fraction);
    if fraction.len() > 0 {
        let head = seq![fraction[0]];
        let tail = fraction.drop_first();
        assert(head + tail =~= fraction);
        assert forall|i: int| 0 <= i < tail.len() implies is_digit(#[trigger] tail[i]) by {
            assert(tail[i] == fraction[i + 1]);
        }
        lemma_decimal_concat(head, tail);
        lemma_decimal_bound(tail);
        lemma_decimal_push(Seq::<char>::empty(), fraction[0]);
        assert(Seq::<char>::empty().push(fraction[0]) =~= head);
        let d = digit_value(fraction[0]);
        let t = decimal_value(tail);
        let q = pow10(tail.len());
        assert(is_digit(fraction[0]));
        assert(p == 10 * q);
        assert(n == w * p + (d * q + t));
        if fraction[0] as u32 >= '5' as u32 {
            assert(2 * (w + 1) * (10 * q) - 10 * q <= 2 * (w * (10 * q) + (d * q + t)) < 2 * (w
                + 1) * (10 * q) + 10 * q) by (nonlinear_arith)
                requires
                    5 <= d <= 9,
                    0 <= t < q,
            ;
        } else {
            assert(2 * w * (10 * q) - 10 * q <= 2 * (w * (10 * q) + (d * q + t)) < 2 * w * (10
                * q) + 10 * q) by (nonlinear_arith)
                requires
                    0 <= d <= 4,
                    0 <= t < q,
            ;
        }
    } else {
        assert(p == 1);
        assert(n == w * 1 + 0);
    }
}

/// What rounding comes to when the point is moved. The number with the
/// digits `digits` and its point before the digit at `point` is `n * 10^k`
/// where the point stands behind all digits, `k` places behind, and is then
/// read exactly; and `n / p` where the point stands before some digit, `p`
/// being ten to the number of digits behind the point, and is then read as
/// the whole number `r` nearest to it: `r - 1/2 <= n / p < r + 1/2`.
pub proof fn lemma_rounded_at_is_nearest(digits: Seq<char>, point: int)
    requires
        all_digits(digits),
    ensures
        ({
            let n = decimal_value(digits);
            let r = rounded_at(digits, point);
            if point >= digits.len() {
                r == n * pow10((point - digits.len()) as nat)
            } else {
                let p = pow10((digits.len() - point) as nat);
                2 * r * p - p <= 2 * n < 2 * r * p + p
            }
        }),
{
    let len = digits.len() as int;
    if point < 0 {
        let p = pow10((len - point) as nat);
        lemma_decimal_bound(digits);
        lemma_pow10_monotone((len + 1) as nat, (len - point) as nat);
        assert(pow10((len + 1) as nat) == 10 * pow10(len as nat));
        assert(2 * 0 * p == 0) by (nonlinear_arith);
    } else if point < len {
        let whole = digits.subrange(0, point);
        let fraction = digits.subrange(point, len);
        assert(whole + fraction =~= digits);
        assert forall|i: int| 0 <= i < whole.len() implies is_digit(#[trigger] whole[i]) by {
            assert(whole[i] == digits[i]);
        }
        assert forall|i: int| 0 <= i < fraction.len() implies is_digit(#[trigger] fraction[i]) by {
            assert(fraction[i] == digits[point + i]);
        }
        lemma_rounded_is_nearest(whole, fraction);
    }
}

/// The digits of a number are digits, and denote the number: what is
/// written out is read back as it was.
pub proof fn lemma_digits_denote(n: nat)
    ensures
        all_digits(digits_of(n)),
        digits_of(n).len() >= 1,
        decimal_value(digits_of(n)) == n,
    decreases n,
{
    if n < 10 {
        lemma_decimal_push(Seq::<char>::empty(), digit_char(n));
        assert(Seq::<char>::empty().push(digit_char(n)) =~= digits_of(n));
        assert(digit_value(digit_char(n)) == n);
    } else {
        lemma_digits_denote(n / 10);
        lemma_decimal_push(digits_of(n / 10), digit_char(n % 10));
        assert(digit_value(digit_char(n % 10)) == n % 10);
    }
}

/// Whether `c` is a decimal digit.
pub(crate) fn digit(c: char) -> (yes: bool)
    ensures
        yes == is_digit(c),
{
    '0' as u32 <= c as u32 && c as u32 <= '9' as u32
}

/// Whether the characters of `s` from `from` to `to` are all digits.
pub(crate) fn only_digits(s: &Vec<char>, from: usize, to: usize) -> (yes: bool)
    requires
        from <= to <= s.len(),
    ensures
        yes == all_digits(s@.subrange(from as int, to as int)),
{
    let ghost run = s@.subrange(from as int, to as int);
    let mut i: usize = from;
    while i < to
        invariant
            from <= i <= to <= s.len(),
            run == s@.subrange(from as int, to as int),
            forall|j: int| 0 <= j < i - from ==> is_digit(#[trigger] run[j]),
        decreases to - i,
    {
        if !digit(s[i]) {
            assert(!is_digit(run[i - from]));
            return false;
        }
        i = i + 1;
    }
    true
}

/// The value of the digits of `s` from `from` to `to`, where it is at most
/// `max`.
pub(crate) fn bounded_wide(s: &Vec<char>, from: usize, to: usize, max: u128) -> (value: Option<
    u128,
>)
    requires
        from <= to <= s.len(),
        all_digits(s@.subrange(from as int, to as int)),
        max <= u128::MAX / 16,
    ensures
        value == if decimal_value(s@.subrange(from as int, to as int)) <= max {
            Some(decimal_value(s@.subrange(from as int, to as int)) as u128)
        } else {
            None
        },
{
    let ghost run = s@.subrange(from as int, to as int);
    let mut acc: u128 = 0;
    let mut i: usize = from;
    while i < to
        invariant
            from <= i <= to <= s.len(),
            run == s@.subrange(from as int, to as int),
            all_digits(run),
            max <= u128::MAX / 16,
            acc <= max,
            acc == decimal_value(run.take(i - from)),
        decreases to - i,
    {
        let c = s[i];
        assert(run[i - from] == c);
        assert(is_digit(c));
        proof {
            assert(run.take(i - from + 1) =~= run.take(i - from).push(c));
            lemma_decimal_push(run.take(i - from), c);
            lemma_decimal_monotone(run, i - from + 1);
        }
        let next: u128 = acc * 10 + (c as u32 - '0' as u32) as u128;
        if next > max {
            return None;
        }
        acc = next;
        i = i + 1;
    }
    proof {
        assert(run.take(to - from) =~= run);
    }
    Some(acc)
}

/// The value of the digits of `s` from `from` to `to`, where it is at most
/// `max`.
pub(crate) fn bounded_value(s: &Vec<char>, from: usize, to: usize, max: u64) -> (value: Option<u64>)
    requires
        from <= to <= s.len(),
        all_digits(s@.subrange(from as int, to as int)),
    ensures
        value == if decimal_value(s@.subrange(from as int, to as int)) <= max {
            Some(decimal_value(s@.subrange(from as int, to as int)) as u64)
        } else {
            None
        },
{
    match bounded_wide(s, from, to, max as u128) {
        Some(n) => Some(n as u64),
        None => None,
    }
}

/// Reads an unsigned numeral of at most `max`.
pub(crate) fn parse_bounded(s: &str, max: u64) -> (value: Option<u64>)
    ensures
        match numeral_up_to(s@, max as nat) {
            Some(n) => value == Some(n as u64),
            None => value is None,
        },
{
    let text = chars_of(s);
    let from: usize = if text.len() > 0 && text[0] == '+' {
        1
    } else {
        0
    };
    proof {
        if from == 1 {
            assert(s@.drop_first() =~= text@.subrange(1, text.len() as int));
        } else {
            assert(s@ =~= text@.subrange(0, text.len() as int));
        }
    }
    if from == text.len() || !only_digits(&text, from, text.len()) {
        return None;
    }
    bounded_value(&text, from, text.len(), max)
}

/// Reads an unsigned numeral that fits sixteen bits.
pub fn parse_u16(s: &str) -> (value: Option<u16>)
    ensures
        value == numeral_u16(s@),
{
    match parse_bounded(s, 65535) {
        Some(n) => Some(n as u16),
        None => None,
    }
}

/// Reads an unsigned numeral that fits thirty-two bits.
pub fn parse_u32(s: &str) -> (value: Option<u32>)
    ensures
        value == numeral_u32(s@),
{
    match parse_bounded(s, 4294967295) {
        Some(n) => Some(n as u32),
        None => None,
    }
}

/// Reads an unsigned numeral that fits sixty-four bits.
pub fn parse_u64(s: &str) -> (value: Option<u64>)
    ensures
        value == numeral_u64(s@),
{
    parse_bounded(s, u64::MAX)
}

/// Reads a signed numeral that fits thirty-two bits.
pub fn parse_i32(s: &str) -> (value: Option<i32>)
    ensures
        value == numeral_i32(s@),
{
    let text = chars_of(s);
    if text.len() > 0 && text[0] == '-' {
        proof {
            assert(s@.drop_first() =~= text@.subrange(1, text.len() as int));
        }
        if text.len() == 1 || !only_digits(&text, 1, text.len()) {
            return None;
        }
        match bounded_value(&text, 1, text.len(), 2147483648) {
            Some(n) => Some((0 - n as i64) as i32),
            None => None,
        }
    } else {
        match parse_bounded(s, 2147483647) {
            Some(n) => Some(n as i32),
            None => None,
        }
    }
}

/// The position of the first `c` in `s` from `from` up to `to`, or `to`
/// where there is none.
pub(crate) fn find_char(s: &Vec<char>, from: usize, to: usize, c: char) -> (at: usize)
    requires
        from <= to <= s.len(),
    ensures
        at == from + index_of(s@.subrange(from as int, to as int), c),
        from <= at <= to,
{
    let mut i: usize = from;
    while i < to && s[i] != c
        invariant
            from <= i <= to <= s.len(),
            from + index_of(s@.subrange(from as int, to as int), c) == i + index_of(
                s@.subrange(i as int, to as int),
                c,
            ),
        decreases to - i,
    {
        assert(s@.subrange(i as int, to as int).drop_first() =~= s@.subrange(i + 1, to as int));
        i = i + 1;
    }
    i
}

/// The position of the first `e` or `E` in `s` at or behind `from`, or the
/// length of `s` where there is none.
fn find_mark(s: &Vec<char>, from: usize) -> (at: usize)
    requires
        from <= s.len(),
    ensures
        at == from + exponent_mark(s@.subrange(from as int, s.len() as int)),
        from <= at <= s.len(),
{
    let mut i: usize = from;
    while i < s.len() && s[i] != 'e' && s[i] != 'E'
        invariant
            from <= i <= s.len(),
            from + exponent_mark(s@.subrange(from as int, s.len() as int)) == i + exponent_mark(
                s@.subrange(i as int, s.len() as int),
            ),
        decreases s.len() - i,
    {
        assert(s@.subrange(i as int, s.len() as int).drop_first() =~= s@.subrange(
            i + 1,
            s.len() as int,
        ));
        i = i + 1;
    }
    i
}

/// Whether what `s` holds from `from` on spells `word`.
fn spelled(s: &Vec<char>, from: usize, word: &Vec<char>) -> (yes: bool)
    requires
        from <= s.len(),
    ensures
        yes == spells(s@.subrange(from as int, s.len() as int), word@),
{
    let ghost rest = s@.subrange(from as int, s.len() as int);
    if s.len() - from != word.len() {
        return false;
    }
    let mut i: usize = 0;
    while i < word.len()
        invariant
            i <= word.len(),
            from + word.len() == s.len(),
            rest == s@.subrange(from as int, s.len() as int),
            forall|j: int| 0 <= j < i ==> is_letter(#[trigger] rest[j], word@[j]),
        decreases word.len() - i,
    {
        let c = s[from + i];
        let lower = word[i];
        assert(rest[i as int] == c);
        if !(c == lower || (c as u32) as u64 + 32 == (lower as u32) as u64) {
            return false;
        }
        i = i + 1;
    }
    true
}

/// Ten to a higher power is no less.
pub proof fn lemma_pow10_monotone(a: nat, b: nat)
    requires
        a <= b,
    ensures
        1 <= pow10(a) <= pow10(b),
    decreases b,
{
    if a < b {
        lemma_pow10_monotone(a, (b - 1) as nat);
    } else if a > 0 {
        lemma_pow10_monotone((a - 1) as nat, (a - 1) as nat);
    }
}

/// A number that is not zero, with ten or more zeros behind it, does not fit
/// thirty-two bits.
proof fn lemma_ten_zeros_overflow(n: nat, k: nat)
    requires
        n >= 1,
        k >= 10,
    ensures
        n * pow10(k) > u32::MAX,
{
    reveal_with_fuel(pow10, 11);
    assert(pow10(10) == 10000000000);
    lemma_pow10_monotone(10, k);
    assert(n * pow10(k) >= pow10(k)) by (nonlinear_arith)
        requires
            n >= 1,
            pow10(k) >= 1,
    ;
}

/// `n` with `shift` zeros behind it, or `u32::MAX` where that is more.
fn scaled(n: u32, shift: u128) -> (value: u32)
    ensures
        value == if n * pow10(shift as nat) <= u32::MAX {
            n * pow10(shift as nat)
        } else {
            u32::MAX as int
        },
{
    if n == 0 {
        assert(0 * pow10(shift as nat) == 0) by (nonlinear_arith);
        return 0;
    }
    let mut acc: u64 = n as u64;
    let mut k: u128 = 0;
    proof {
        assert(pow10(0) == 1);
        assert(n * 1 == n) by (nonlinear_arith);
    }
    while k < shift && acc <= 4294967295
        invariant
            k <= shift,
            acc <= 42949672950,
            acc == n * pow10(k as nat),
        decreases shift - k,
    {
        proof {
            assert(pow10((k + 1) as nat) == 10 * pow10(k as nat));
            assert(n * (10 * pow10(k as nat)) == (n * pow10(k as nat)) * 10) by (nonlinear_arith);
        }
        acc = acc * 10;
        k = k + 1;
    }
    if acc > 4294967295 {
        proof {
            lemma_pow10_monotone(k as nat, shift as nat);
            assert(n * pow10(shift as nat) >= n * pow10(k as nat)) by (nonlinear_arith)
                requires
                    pow10(shift as nat) >= pow10(k as nat),
                    n >= 0,
            ;
        }
        4294967295
    } else {
        acc as u32
    }
}

/// The whole number nearest to the number with the digits `digits` and its
/// point before the digit at `point`, or `u32::MAX` where that is more.
fn round_at(digits: &Vec<char>, point: i128) -> (value: u32)
    requires
        all_digits(digits@),
        point <= 0x1_0000_0000_0000_0000_0000_0000_0000,
    ensures
        value == if rounded_at(digits@, point as int) <= u32::MAX {
            rounded_at(digits@, point as int)
        } else {
            u32::MAX as nat
        },
{
    let len = digits.len();
    if point < 0 {
        return 0;
    }
    if point >= len as i128 {
        proof {
            assert(digits@.subrange(0, len as int) =~= digits@);
        }
        let shift: u128 = (point - len as i128) as u128;
        match bounded_value(digits, 0, len, 4294967295) {
            Some(n) => scaled(n as u32, shift),
            None => {
                proof {
                    lemma_pow10_monotone(0, shift as nat);
                    assert(decimal_value(digits@) * pow10(shift as nat) >= decimal_value(digits@))
                        by (nonlinear_arith)
                        requires
                            pow10(shift as nat) >= 1,
                    ;
                }
                4294967295
            },
        }
    } else {
        let at = point as usize;
        let ghost whole = digits@.subrange(0, at as int);
        let ghost fraction = digits@.subrange(at as int, len as int);
        proof {
            assert forall|i: int| 0 <= i < whole.len() implies is_digit(#[trigger] whole[i]) by {
                assert(whole[i] == digits@[i]);
            }
            assert(fraction[0] == digits@[at as int]);
        }
        let up: u64 = if digits[at] as u32 >= '5' as u32 {
            1
        } else {
            0
        };
        match bounded_value(digits, 0, at, 4294967295) {
            Some(n) if n + up <= 4294967295 => (n + up) as u32,
            _ => 4294967295,
        }
    }
}

/// The farthest that an exponent is followed digit by digit. No text has
/// so many digits that an exponent beyond this leaves the point among them.
pub const FAR: u128 = 0x1_0000_0000_0000_0000_0000_0000;

/// An exponent as it is held: whether it moves the point to the left, and
/// by how many digits, or by none given where that is beyond `FAR`.
spec fn holds_exponent(e: int, to_left: bool, moved: Option<u128>) -> bool {
    match moved {
        Some(m) => m <= FAR && e == if to_left {
            -(m as int)
        } else {
            m as int
        },
        None => if to_left {
            e < -(FAR as int)
        } else {
            e > FAR as int
        },
    }
}

/// Reads the exponent that `s` holds from `from` on: an optional sign and
/// one or more digits.
fn read_exponent(s: &Vec<char>, from: usize) -> (r: Option<(bool, Option<u128>)>)
    requires
        from <= s.len(),
    ensures
        match signed_numeral(s@.subrange(from as int, s.len() as int)) {
            Some(e) => r is Some && holds_exponent(e, r->Some_0.0, r->Some_0.1),
            None => r is None,
        },
{
    let len = s.len();
    let ghost tail = s@.subrange(from as int, len as int);
    let signed = from < len && (s[from] == '+' || s[from] == '-');
    let to_left = from < len && s[from] == '-';
    let first: usize = if signed {
        from + 1
    } else {
        from
    };
    proof {
        if signed {
            assert(tail.drop_first() =~= s@.subrange(first as int, len as int));
        } else {
            assert(tail =~= s@.subrange(first as int, len as int));
        }
    }
    if first == len || !only_digits(s, first, len) {
        return None;
    }
    Some((to_left, bounded_wide(s, first, len, FAR)))
}

/// The characters of `s` from `a` to `b`, and behind them those from `c` to `d`.
fn gather(s: &Vec<char>, a: usize, b: usize, c: usize, d: usize) -> (out: Vec<char>)
    requires
        a <= b <= s.len(),
        c <= d <= s.len(),
    ensures
        out@ == s@.subrange(a as int, b as int) + s@.subrange(c as int, d as int),
{
    let mut out: Vec<char> = Vec::new();
    let mut i: usize = a;
    while i < b
        invariant
            a <= i <= b <= s.len(),
            out@ == s@.subrange(a as int, i as int),
        decreases b - i,
    {
        out.push(s[i]);
        assert(out@ =~= s@.subrange(a as int, i + 1));
        i = i + 1;
    }
    let mut i: usize = c;
    while i < d
        invariant
            c <= i <= d <= s.len(),
            out@ == s@.subrange(a as int, b as int) + s@.subrange(c as int, i as int),
        decreases d - i,
    {
        out.push(s[i]);
        assert(out@ =~= s@.subrange(a as int, b as int) + s@.subrange(c as int, i + 1));
        i = i + 1;
    }
    assert(out@ =~= s@.subrange(a as int, b as int) + s@.subrange(c as int, d as int));
    out
}

/// The whole number nearest to the number with the digits `digits`, whose
/// point stands before the digit at `at` and is moved by the exponent `e`;
/// or `u32::MAX` where that is more.
fn round_moved(
    digits: &Vec<char>,
    at: usize,
    to_left: bool,
    moved: Option<u128>,
    Ghost(e): Ghost<int>,
) -> (value: u32)
    requires
        all_digits(digits@),
        at <= digits.len(),
        holds_exponent(e, to_left, moved),
    ensures
        value == if rounded_at(digits@, at + e) <= u32::MAX {
            rounded_at(digits@, at + e)
        } else {
            u32::MAX as nat
        },
{
    match moved {
        Some(m) => {
            let place: i128 = if to_left {
                at as i128 - m as i128
            } else {
                at as i128 + m as i128
            };
            round_at(digits, place)
        },
        None => {
            if to_left {
                0
            } else {
                proof {
                    assert(digits@.subrange(0, digits@.len() as int) =~= digits@);
                }
                let shift = Ghost((at + e - digits@.len()) as nat);
                match bounded_value(digits, 0, digits.len(), 0) {
                    Some(_) => {
                        proof {
                            assert(0 * pow10(shift@) == 0) by (nonlinear_arith);
                        }
                        0
                    },
                    None => {
                        proof {
                            lemma_ten_zeros_overflow(decimal_value(digits@), shift@);
                        }
                        4294967295
                    },
                }
            }
        },
    }
}

/// Reads what `s` holds from `from` on as a number: digits with a point
/// and an exponent, as `magnitude_of` reads them, but for the words.
fn read_number(s: &Vec<char>, from: usize) -> (value: Option<u32>)
    requires
        from <= s.len(),
        !spells(s@.subrange(from as int, s.len() as int), seq!['i', 'n', 'f']),
        !spells(
            s@.subrange(from as int, s.len() as int),
            seq!['i', 'n', 'f', 'i', 'n', 'i', 't', 'y'],
        ),
        !spells(s@.subrange(from as int, s.len() as int), seq!['n', 'a', 'n']),
    ensures
        match magnitude_of(s@.subrange(from as int, s.len() as int)) {
            Some(Magnitude::Finite(n)) => value == Some(
                if n <= u32::MAX {
                    n as u32
                } else {
                    u32::MAX
                },
            ),
            _ => value is None,
        },
{
    let len = s.len();
    let ghost body = s@.subrange(from as int, len as int);
    let mark = find_mark(s, from);
    let point = find_char(s, from, mark, '.');
    let after: usize = if point < mark {
        point + 1
    } else {
        mark
    };
    let ghost mantissa = body.subrange(0, mark - from);
    let ghost whole = s@.subrange(from as int, point as int);
    let ghost fraction = s@.subrange(after as int, mark as int);
    proof {
        assert(mantissa =~= s@.subrange(from as int, mark as int));
        assert(mantissa.subrange(0, point - from) =~= whole);
        if point < mark {
            assert(mantissa.subrange(point - from + 1, mantissa.len() as int) =~= fraction);
        } else {
            assert(fraction =~= Seq::<char>::empty());
        }
        if mark < len {
            assert(body.subrange(mark - from + 1, body.len() as int) =~= s@.subrange(
                mark + 1,
                len as int,
            ));
        }
    }
    if !only_digits(s, from, point) || !only_digits(s, after, mark) {
        return None;
    }
    if point - from + (mark - after) == 0 {
        return None;
    }
    let exponent = if mark < len {
        read_exponent(s, mark + 1)
    } else {
        Some((false, Some(0u128)))
    };
    let (to_left, moved) = match exponent {
        Some(held) => held,
        None => {
            return None;
        },
    };
    let ghost e = if mark < len {
        signed_numeral(s@.subrange(mark + 1, len as int))->Some_0
    } else {
        0int
    };
    let digits = gather(s, from, point, after, mark);
    proof {
        assert forall|j: int| 0 <= j < digits@.len() implies is_digit(#[trigger] digits@[j]) by {
            if j < whole.len() {
                assert(digits@[j] == whole[j]);
            } else {
                assert(digits@[j] == fraction[j - whole.len()]);
            }
        }
    }
    Some(round_moved(&digits, point - from, to_left, moved, Ghost(e)))
}

/// Reads a numeral as floating-point numbers are written and rounds it to
/// the nearest whole number of thirty-two bits.
pub fn parse_rounded(s: &str) -> (value: Option<u32>)
    ensures
        value == rounded_float(s@),
{
    let text = chars_of(s);
    let len = text.len();
    let signed = len > 0 && (text[0] == '+' || text[0] == '-');
    let negative = len > 0 && text[0] == '-';
    let from: usize = if signed {
        1
    } else {
        0
    };
    proof {
        if signed {
            assert(s@.drop_first() =~= text@.subrange(from as int, len as int));
        } else {
            assert(s@ =~= text@.subrange(from as int, len as int));
        }
        reveal_strlit("inf");
        reveal_strlit("infinity");
        reveal_strlit("nan");
        assert("inf"@ =~= seq!['i', 'n', 'f']);
        assert("infinity"@ =~= seq!['i', 'n', 'f', 'i', 'n', 'i', 't', 'y']);
        assert("nan"@ =~= seq!['n', 'a', 'n']);
    }
    if spelled(&text, from, &chars_of("inf")) || spelled(&text, from, &chars_of("infinity")) {
        return Some(
            if negative {
                0
            } else {
                4294967295
            },
        );
    }
    if spelled(&text, from, &chars_of("nan")) {
        return Some(0);
    }
    match read_number(&text, from) {
        Some(n) => Some(
            if negative {
                0
            } else {
                n
            },
        ),
        None => None,
    }
}

/// The decimal numeral of `n`.
pub fn decimal_text(n: i64) -> (text: String)
    ensures
        text@ == decimal_of(n as int),
{
    if n < 0 {
        let magnitude: u64 = ((-(n + 1)) as u64) + 1;
        let mut text = String::new();
        text.push('-');
        text.append(decimal_u64(magnitude).as_str());
        assert(text@ =~= decimal_of(n as int));
        text
    } else {
        decimal_u64(n as u64)
    }
}

/// The decimal numeral of `n`.
pub fn decimal_u64(n: u64) -> (text: String)
    ensures
        text@ == digits_of(n as nat),
        text@ == decimal_of(n as int),
{
    let mut reversed: Vec<char> = Vec::new();
    let mut rest: u64 = n;
    reversed.push(((rest % 10) as u8 + 48) as char);
    rest = rest / 10;
    while rest > 0
        invariant
            reversed@.len() >= 1,
            digits_of(n as nat) == if rest == 0 {
                reversed@.reverse()
            } else {
                digits_of(rest as nat) + reversed@.reverse()
            },
        decreases rest,
    {
        let ghost before = reversed@;
        reversed.push(((rest % 10) as u8 + 48) as char);
        proof {
            let c = digit_char((rest % 10) as nat);
            assert(reversed@.reverse() =~= seq![c] + before.reverse());
            if rest >= 10 {
                assert(digits_of(rest as nat) + before.reverse() =~= digits_of((rest / 10) as nat)
                    + reversed@.reverse());
            } else {
                assert(digits_of(rest as nat) + before.reverse() =~= reversed@.reverse());
            }
        }
        rest = rest / 10;
    }
    let mut text = String::new();
    let mut i: usize = reversed.len();
    while i > 0
        invariant
            i <= reversed.len(),
            text@ == reversed@.reverse().take(reversed.len() - i),
        decreases i,
    {
        i = i - 1;
        text.push(reversed[i]);
        assert(text@ =~= reversed@.reverse().take(reversed.len() - i));
    }
    proof {
        assert(reversed@.reverse().take(reversed.len() as int) =~= reversed@.reverse());
    }
    text
}

} // verus!
