//! The display's brightness, read from a dump of the backlight's registry
//! entry.

use crate::numbers::{
    all_digits, all_digits_of, capped_value, decimal_value, integer_value, is_integer_text,
    is_zero_run, lemma_decimal_value_bound, lemma_decimal_value_concat,
    lemma_decimal_value_nonnegative, lemma_pow10_monotone, lemma_pow10_positive, min_int, pow10,
    unsigned_part,
};
use crate::text::{
    chars_of, find, find_char, is_digit, slice_views, split, split_slice, strip_trailing,
    strip_trailing_char, trim, trim_slice,
};
use vstd::arithmetic::div_mod::{lemma_div_denominator, lemma_fundamental_div_mod_converse};
use vstd::prelude::*;
use vstd::slice::slice_subrange;

verus! {

/// Where the exponent of the unsigned number `u` starts: the position of
/// its first `e` or `E`, or its length where it has none.
pub open spec fn exponent_position(u: Seq<char>) -> int {
    min_int(find(u, 'e'), find(u, 'E'))
}

/// The part of the unsigned number `u` before its exponent.
pub open spec fn mantissa(u: Seq<char>) -> Seq<char> {
    u.take(exponent_position(u))
}

/// What the unsigned number `u` has after the letter that opens its
/// exponent, if it has that letter.
pub open spec fn exponent_text(u: Seq<char>) -> Option<Seq<char>> {
    if exponent_position(u) < u.len() {
        Some(u.skip(exponent_position(u) + 1))
    } else {
        None
    }
}

/// The digits that the mantissa `m` has before its decimal point.
pub open spec fn whole_digits(m: Seq<char>) -> Seq<char> {
    m.take(find(m, '.'))
}

/// The digits that the mantissa `m` has after its decimal point; none where
/// it has no point.
pub open spec fn fraction_digits(m: Seq<char>) -> Seq<char> {
    let k = find(m, '.');
    if k < m.len() {
        m.skip(k + 1)
    } else {
        Seq::empty()
    }
}

/// Whether `s` writes a decimal number: an optional sign; then digits with
/// at most one decimal point among them, and one digit at least; then, if
/// anything, the letter `e` or `E` and an integer, the exponent.
pub open spec fn is_decimal_text(s: Seq<char>) -> bool {
    let u = unsigned_part(s);
    let m = mantissa(u);
    &&& all_digits(whole_digits(m))
    &&& all_digits(fraction_digits(m))
    &&& whole_digits(m).len() + fraction_digits(m).len() > 0
    &&& match exponent_text(u) {
        Some(e) => is_integer_text(e),
        None => true,
    }
}

/// All digits of the mantissa of `s`, those before the point and those after.
pub open spec fn mantissa_digits(s: Seq<char>) -> Seq<char> {
    let m = mantissa(unsigned_part(s));
    whole_digits(m) + fraction_digits(m)
}

/// The exponent that `s` writes; 0 where it writes none.
pub open spec fn exponent(s: Seq<char>) -> int {
    match exponent_text(unsigned_part(s)) {
        Some(e) => integer_value(e),
        None => 0,
    }
}

/// By how many places the digits of the mantissa of `s` are moved to the
/// left: the exponent, less the number of digits after the point.
pub open spec fn shift(s: Seq<char>) -> int {
    exponent(s) - fraction_digits(mantissa(unsigned_part(s))).len()
}

/// `x` where it is positive, else 0.
pub open spec fn places(x: int) -> nat {
    if x >= 0 {
        x as nat
    } else {
        0
    }
}

/// The magnitude of `s` is `numerator(s)` divided by `denominator(s)`: the
/// number that the digits of the mantissa write, times ten for each place
/// that they are moved to the left.
pub open spec fn numerator(s: Seq<char>) -> int {
    decimal_value(mantissa_digits(s)) * pow10(places(shift(s)))
}

/// Ten to the power of the number of places that the digits of the mantissa
/// of `s` are moved to the right.
pub open spec fn denominator(s: Seq<char>) -> int {
    pow10(places(-shift(s)))
}

/// The brightness in percent that the fraction `n / d` stands for, rounded
/// down. A number from 0 to 1 is a fraction of full brightness. A number
/// above 1 and up to 1024 is a level out of 1024. Anything else stands for
/// none.
pub open spec fn fraction_brightness(n: int, d: int) -> Option<i32> {
    if n <= d {
        Some((n * 100 / d) as i32)
    } else if n <= 1024 * d {
        Some((n * 100 / (1024 * d)) as i32)
    } else {
        None
    }
}

/// The brightness in percent that the text `s` stands for: that of its
/// magnitude, where `s` writes a decimal number that is not below zero.
pub open spec fn brightness_of_text(s: Seq<char>) -> Option<i32> {
    if !is_decimal_text(s) {
        None
    } else if s[0] == '-' && numerator(s) > 0 {
        None
    } else {
        fraction_brightness(numerator(s), denominator(s))
    }
}

/// The brightness in percent that the digits with the value `v` stand for
/// when they are moved `x` places to the left, or `-x` places to the right.
pub open spec fn moved_brightness(v: int, x: int) -> Option<i32> {
    fraction_brightness(v * pow10(places(x)), pow10(places(-x)))
}

/// The brightness in percent for a number given in hundredths: `h` whole
/// hundredths, and whether that is the number exactly.
pub open spec fn percent_of_hundredths(h: int, exact: bool) -> Option<i32> {
    if h < 100 || (h == 100 && exact) {
        Some(h as i32)
    } else if h < 102400 || (h == 102400 && exact) {
        Some((h / 1024) as i32)
    } else {
        None
    }
}

/// A fraction `n / d` that has `h` whole hundredths and a rest `r` is at
/// most 1, or at most 1024, as its hundredths say, and its hundredths are
/// what dividing gives.
pub proof fn lemma_hundredths(n: int, d: int, h: int, r: int)
    requires
        d >= 1,
        0 <= r < d,
        0 <= h,
        100 * n == h * d + r,
    ensures
        n >= 0,
        n <= d <==> (h < 100 || (h == 100 && r == 0)),
        n <= 1024 * d <==> (h < 102400 || (h == 102400 && r == 0)),
        n * 100 / d == h,
        n * 100 / (1024 * d) == h / 1024,
{
    assert(n * 100 == h * d + r);
    lemma_fundamental_div_mod_converse(n * 100, d, h, r);
    assert(h * d >= 0) by (nonlinear_arith)
        requires
            h >= 0,
            d >= 1,
    ;
    lemma_div_denominator(n * 100, d, 1024);
    assert(d * 1024 == 1024 * d);
    assert(n <= d <==> (h < 100 || (h == 100 && r == 0))) by (nonlinear_arith)
        requires
            d >= 1,
            0 <= r < d,
            0 <= h,
            100 * n == h * d + r,
    ;
    assert(n <= 1024 * d <==> (h < 102400 || (h == 102400 && r == 0))) by (nonlinear_arith)
        requires
            d >= 1,
            0 <= r < d,
            0 <= h,
            100 * n == h * d + r,
    ;
}

/// A fraction with `h` whole hundredths and a rest `r` stands for the
/// brightness that its hundredths give.
pub proof fn lemma_brightness_by_hundredths(n: int, d: int, h: int, r: int)
    requires
        d >= 1,
        0 <= r < d,
        0 <= h,
        100 * n == h * d + r,
    ensures
        fraction_brightness(n, d) == percent_of_hundredths(h, r == 0),
{
    lemma_hundredths(n, d, h, r);
}

/// The hundredths of a number whose digits are moved to the left, or at
/// most two places to the right: the digits, moved two places further to the
/// left, with no rest.
pub proof fn lemma_near_left(v: int, y: nat)
    requires
        v >= 0,
    ensures
        moved_brightness(v, y - 2) == percent_of_hundredths(v * pow10(y), true),
{
    reveal_with_fuel(pow10, 3);
    let a = pow10(places(y - 2));
    let b = pow10(y);
    let c = pow10(places(2 - y));
    lemma_pow10_positive(y);
    if y >= 2 {
        assert(b == 100 * a);
        assert(c == 1);
        assert(100 * (v * a) == (v * (100 * a)) * 1) by (nonlinear_arith);
    } else if y == 1 {
        assert(a == 1 && b == 10 && c == 10);
        assert(100 * (v * 1) == (v * 10) * 10) by (nonlinear_arith);
    } else {
        assert(a == 1 && b == 1 && c == 100);
        assert(100 * (v * 1) == (v * 1) * 100) by (nonlinear_arith);
    }
    assert(v * b >= 0) by (nonlinear_arith)
        requires
            v >= 0,
            b >= 1,
    ;
    assert(places(-(y - 2)) == places(2 - y));
    lemma_brightness_by_hundredths(v * a, c, v * b, 0);
}

/// Digits that are not all zero and are moved four places or more to the
/// left write a number above 1024.
pub proof fn lemma_far_left(v: int, x: int)
    requires
        v >= 1,
        x >= 4,
    ensures
        moved_brightness(v, x) is None,
{
    let y = (x + 2) as nat;
    lemma_near_left(v, y);
    lemma_pow10_monotone(6, y);
    reveal_with_fuel(pow10, 7);
    assert(pow10(6) == 1000000);
    assert(v * pow10(y) >= 1000000) by (nonlinear_arith)
        requires
            v >= 1,
            pow10(y) >= 1000000,
    ;
}

/// The hundredths of a number whose digits are moved `m + 2` places to the
/// right: what the digits write without their last `m`, with those as rest.
pub proof fn lemma_moved_right(v: int, a: int, b: int, m: nat)
    requires
        v == a * pow10(m) + b,
        0 <= a,
        0 <= b < pow10(m),
    ensures
        moved_brightness(v, -((m + 2) as int)) == percent_of_hundredths(a, b == 0),
{
    reveal_with_fuel(pow10, 3);
    let p = pow10(m);
    let d = pow10((m + 2) as nat);
    assert(d == 10 * pow10((m + 1) as nat));
    assert(pow10((m + 1) as nat) == 10 * p);
    assert(100 * ((a * p + b) * 1) == a * (100 * p) + 100 * b) by (nonlinear_arith);
    assert(places(-((m + 2) as int)) == 0);
    assert(places(-(-((m + 2) as int))) == (m + 2) as nat);
    assert(pow10(0) == 1);
    lemma_brightness_by_hundredths(v * 1, d, a, 100 * b);
}

/// Digits that are moved further to the right than they are long, and two
/// places more, write a number below one hundredth.
pub proof fn lemma_far_right(v: int, len: nat, x: int)
    requires
        0 <= v < pow10(len),
        x <= -2 - len,
    ensures
        moved_brightness(v, x) == Some(0i32),
{
    let m = (-x - 2) as nat;
    lemma_pow10_monotone(len, m);
    lemma_moved_right(v, 0, v, m);
}

/// The characters of `head` followed by those of `tail`.
pub fn joined(head: &[char], tail: &[char]) -> (r: Vec<char>)
    ensures
        r@ == head@ + tail@,
{
    let mut r: Vec<char> = Vec::new();
    let mut i: usize = 0;
    while i < head.len()
        invariant
            i <= head.len(),
            r@ == head@.take(i as int),
        decreases head.len() - i,
    {
        r.push(head[i]);
        i += 1;
        assert(head@.take(i as int) =~= head@.take(i - 1).push(head@[i - 1]));
    }
    assert(head@.take(i as int) =~= head@);
    let mut j: usize = 0;
    assert(head@ + tail@.take(0) =~= head@);
    while j < tail.len()
        invariant
            j <= tail.len(),
            r@ == head@ + tail@.take(j as int),
        decreases tail.len() - j,
    {
        r.push(tail[j]);
        j += 1;
        assert(head@ + tail@.take(j as int) =~= (head@ + tail@.take(j - 1)).push(tail@[j - 1]));
    }
    assert(tail@.take(j as int) =~= tail@);
    r
}

/// The brightness in percent for a number given in hundredths.
pub fn percent_for(h: u128, exact: bool) -> (r: Option<i32>)
    ensures
        r == percent_of_hundredths(h as int, exact),
{
    if h < 100 || (h == 100 && exact) {
        Some(h as i32)
    } else if h < 102400 || (h == 102400 && exact) {
        Some((h / 1024) as i32)
    } else {
        None
    }
}

/// The largest size of an exponent that is told from a larger one: two to
/// the power of 70, which is more than any text is long.
pub const EXPONENT_CAP: u128 = 0x40_0000_0000_0000_0000;

/// A decimal number as it was read: the digits of its mantissa, how many of
/// them stand after the point, and its exponent, the size of which is
/// `EXPONENT_CAP` where it is that or more.
#[derive(Debug)]
pub struct Decimal {
    pub digits: Vec<char>,
    pub fraction_len: usize,
    pub exponent_negative: bool,
    pub exponent_size: u128,
}

/// Whether `p` holds what the decimal text `s` writes.
pub open spec fn holds_decimal(p: Decimal, s: Seq<char>) -> bool {
    let e = exponent(s);
    &&& p.digits@ == mantissa_digits(s)
    &&& all_digits(p.digits@)
    &&& p.fraction_len == fraction_digits(mantissa(unsigned_part(s))).len()
    &&& p.exponent_negative ==> e <= 0
    &&& !p.exponent_negative ==> e >= 0
    &&& p.exponent_size == min_int(if e >= 0 {
        e
    } else {
        -e
    }, EXPONENT_CAP as int)
}

/// Reads the size of an exponent from its text: whether it is negative, and
/// its size, or none where the text writes no integer.
fn read_exponent(e: &[char]) -> (r: Option<(bool, u128)>)
    ensures
        match r {
            Some((negative, size)) => {
                let v = integer_value(e@);
                &&& is_integer_text(e@)
                &&& negative ==> v <= 0
                &&& !negative ==> v >= 0
                &&& size == min_int(if v >= 0 {
                    v
                } else {
                    -v
                }, EXPONENT_CAP as int)
            },
            None => !is_integer_text(e@),
        },
{
    let e_signed = e.len() > 0 && (e[0] == '-' || e[0] == '+');
    let e_digits = if e_signed {
        slice_subrange(e, 1, e.len())
    } else {
        e
    };
    assert(e_digits@ =~= unsigned_part(e@));
    if e_digits.len() == 0 || !all_digits_of(e_digits) {
        return None;
    }
    proof {
        lemma_decimal_value_nonnegative(e_digits@);
    }
    Some((e.len() > 0 && e[0] == '-', capped_value(e_digits, EXPONENT_CAP)))
}

/// Reads a decimal number, or none where the text writes no decimal number.
pub fn read_decimal(s: &[char]) -> (r: Option<Decimal>)
    ensures
        r is Some <==> is_decimal_text(s@),
        r is Some ==> holds_decimal(r->0, s@),
{
    let signed = s.len() > 0 && (s[0] == '-' || s[0] == '+');
    let body = if signed {
        slice_subrange(s, 1, s.len())
    } else {
        s
    };
    assert(body@ =~= unsigned_part(s@));
    let lower = find_char(body, 'e');
    let upper = find_char(body, 'E');
    let mark = if lower <= upper {
        lower
    } else {
        upper
    };
    let mant = slice_subrange(body, 0, mark);
    assert(mant@ =~= mantissa(body@));
    let point = find_char(mant, '.');
    let whole = slice_subrange(mant, 0, point);
    let fraction = if point < mant.len() {
        slice_subrange(mant, point + 1, mant.len())
    } else {
        slice_subrange(mant, 0, 0)
    };
    assert(whole@ =~= whole_digits(mant@));
    assert(fraction@ =~= fraction_digits(mant@));
    if !all_digits_of(whole) || !all_digits_of(fraction) || (whole.len() == 0 && fraction.len()
        == 0) {
        return None;
    }
    let mut exponent_negative = false;
    let mut exponent_size: u128 = 0;
    if mark < body.len() {
        let e = slice_subrange(body, mark + 1, body.len());
        assert(e@ =~= exponent_text(body@)->0);
        match read_exponent(e) {
            Some((negative, size)) => {
                exponent_negative = negative;
                exponent_size = size;
            },
            None => {
                return None;
            },
        }
    }
    let digits = joined(whole, fraction);
    proof {
        assert forall|i: int| 0 <= i < digits@.len() implies is_digit(
            #[trigger] digits@[i],
        ) by {
            if i < whole@.len() {
                assert(digits@[i] == whole@[i]);
            } else {
                assert(digits@[i] == fraction@[i - whole@.len()]);
            }
        }
    }
    Some(Decimal { digits, fraction_len: fraction.len(), exponent_negative, exponent_size })
}

/// The brightness that digits which are not all zero stand for when they
/// are moved `moved - 2` places to the left.
fn brightness_of_digits(digits: &[char], moved: i128) -> (r: Option<i32>)
    requires
        all_digits(digits@),
        decimal_value(digits@) >= 1,
    ensures
        r == moved_brightness(decimal_value(digits@), moved - 2),
{
    let count = digits.len();
    let ghost v = decimal_value(digits@);
    proof {
        lemma_decimal_value_bound(digits@);
    }
    if moved >= 6 {
        proof {
            lemma_far_left(v, moved - 2);
        }
        return None;
    }
    if moved >= 0 {
        let power: u128 = if moved == 0 {
            1
        } else if moved == 1 {
            10
        } else if moved == 2 {
            100
        } else if moved == 3 {
            1000
        } else if moved == 4 {
            10000
        } else {
            100000
        };
        let value = capped_value(digits, 102401);
        proof {
            reveal_with_fuel(pow10, 6);
            assert(power == pow10(moved as nat));
            lemma_near_left(v, moved as nat);
            assert(v * pow10(moved as nat) >= v) by (nonlinear_arith)
                requires
                    v >= 1,
                    pow10(moved as nat) >= 1,
            ;
        }
        if value > 102400 {
            return None;
        }
        assert(value * power == v * pow10(moved as nat)) by (nonlinear_arith)
            requires
                value == v,
                power == pow10(moved as nat),
        ;
        assert(value * power <= 102400 * 100000) by (nonlinear_arith)
            requires
                0 <= value <= 102400,
                0 <= power <= 100000,
        ;
        return percent_for(value * power, true);
    }
    if moved < -0x1_0000_0000_0000_0000 {
        proof {
            lemma_far_right(v, digits@.len(), moved - 2);
        }
        return Some(0);
    }
    let back: u128 = (-moved) as u128;
    if back >= count as u128 {
        proof {
            lemma_far_right(v, digits@.len(), moved - 2);
        }
        return Some(0);
    }
    let cut: usize = count - back as usize;
    let front = slice_subrange(digits, 0, cut);
    let rest = slice_subrange(digits, cut, count);
    proof {
        assert(digits@ =~= front@ + rest@);
        assert forall|i: int| 0 <= i < front@.len() implies is_digit(
            #[trigger] front@[i],
        ) by {
            assert(front@[i] == digits@[i]);
        }
        assert forall|i: int| 0 <= i < rest@.len() implies is_digit(
            #[trigger] rest@[i],
        ) by {
            assert(rest@[i] == digits@[cut + i]);
        }
        lemma_decimal_value_concat(front@, rest@);
        lemma_decimal_value_bound(front@);
        lemma_decimal_value_bound(rest@);
        lemma_moved_right(v, decimal_value(front@), decimal_value(rest@), back as nat);
    }
    let value = capped_value(front, 102401);
    let exact = is_zero_run(rest);
    if value > 102400 {
        return None;
    }
    percent_for(value, exact)
}

/// Reads a brightness in percent from one value of the dump.
pub fn brightness_of(s: &[char]) -> (r: Option<i32>)
    ensures
        r == brightness_of_text(s@),
{
    let number = match read_decimal(s) {
        Some(number) => number,
        None => {
            return None;
        },
    };
    let ghost v = decimal_value(number.digits@);
    let ghost x = shift(s@);
    proof {
        lemma_decimal_value_bound(number.digits@);
        lemma_pow10_positive(places(x));
        lemma_pow10_positive(places(-x));
    }
    if is_zero_run(number.digits.as_slice()) {
        proof {
            assert(numerator(s@) == 0) by (nonlinear_arith)
                requires
                    numerator(s@) == v * pow10(places(x)),
                    v == 0,
            ;
            lemma_brightness_by_hundredths(0, denominator(s@), 0, 0);
        }
        return Some(0);
    }
    proof {
        assert(numerator(s@) >= 1) by (nonlinear_arith)
            requires
                numerator(s@) == v * pow10(places(x)),
                v >= 1,
                pow10(places(x)) >= 1,
        ;
    }
    if s.len() > 0 && s[0] == '-' {
        return None;
    }
    let moved: i128 = if number.exponent_negative {
        -(number.exponent_size as i128) - (number.fraction_len as i128) + 2
    } else {
        number.exponent_size as i128 - (number.fraction_len as i128) + 2
    };
    let count = number.digits.len();
    proof {
        assert(count <= usize::MAX <= 0xffff_ffff_ffff_ffff);
        assert(EXPONENT_CAP == 0x40_0000_0000_0000_0000);
        assert(x == exponent(s@) - number.fraction_len);
        if number.exponent_size == EXPONENT_CAP {
            if number.exponent_negative {
                assert(exponent(s@) <= -0x40_0000_0000_0000_0000);
                assert(moved - 2 == -0x40_0000_0000_0000_0000 - number.fraction_len);
                lemma_far_right(v, number.digits@.len(), x);
                lemma_far_right(v, number.digits@.len(), moved - 2);
            } else {
                lemma_far_left(v, x);
                lemma_far_left(v, moved - 2);
            }
        } else {
            assert(moved - 2 == x);
        }
    }
    brightness_of_digits(number.digits.as_slice(), moved)
}

/// The value that a piece of the dump holds: the piece without the white
/// space around it, without closing braces at its end, and without the white
/// space before those.
pub open spec fn value_text(piece: Seq<char>) -> Seq<char> {
    trim(strip_trailing(trim(piece), '}'))
}

/// Whether piece `j` is the first that stands for a brightness.
pub open spec fn first_brightness(pieces: Seq<Seq<char>>, j: int) -> bool {
    &&& 0 <= j < pieces.len()
    &&& brightness_of_text(value_text(pieces[j])) is Some
    &&& forall|k: int| 0 <= k < j ==> brightness_of_text(value_text(#[trigger] pieces[k])) is None
}

/// The brightness in percent that a dump shows: that of the first of its
/// pieces between equals signs that stands for one, or -1 where none does.
pub open spec fn brightness_percent(dump: Seq<char>) -> i32 {
    let pieces = split(dump, '=');
    if exists|j: int| first_brightness(pieces, j) {
        let j = choose|j: int| first_brightness(pieces, j);
        brightness_of_text(value_text(pieces[j]))->0
    } else {
        -1i32
    }
}

/// Reads the display's brightness in percent from a dump of the backlight's
/// registry entry.
pub fn parse_brightness(dump: &str) -> (v: i32)
    ensures
        v == brightness_percent(dump@),
{
    let chars = chars_of(dump);
    let pieces = split_slice(chars.as_slice(), '=');
    let ghost all = split(dump@, '=');
    let mut i: usize = 0;
    while i < pieces.len()
        invariant
            i <= pieces.len(),
            slice_views(pieces@) == all,
            all == split(dump@, '='),
            forall|k: int|
                0 <= k < i ==> brightness_of_text(value_text(#[trigger] all[k])) is None,
        decreases pieces.len() - i,
    {
        let piece = pieces[i];
        assert(piece@ == all[i as int]);
        let value = trim_slice(strip_trailing_char(trim_slice(piece), '}'));
        match brightness_of(value) {
            Some(v) => {
                proof {
                    assert(first_brightness(all, i as int));
                    let j = choose|j: int| first_brightness(all, j);
                    assert(j == i) by {
                        if j < i {
                            assert(brightness_of_text(value_text(all[j])) is None);
                        }
                        if i < j {
                            assert(brightness_of_text(value_text(all[i as int])) is None);
                        }
                    }
                }
                return v;
            },
            None => {},
        }
        i += 1;
    }
    assert(forall|j: int| !first_brightness(all, j));
    -1
}

/// A dump in which no piece stands for a brightness gives -1.
pub proof fn lemma_unreadable_dump(dump: Seq<char>)
    requires
        forall|j: int|
            0 <= j < split(dump, '=').len() ==> brightness_of_text(
                value_text(#[trigger] split(dump, '=')[j]),
            ) is None,
    ensures
        brightness_percent(dump) == -1,
{
    assert forall|j: int| !first_brightness(split(dump, '='), j) by {}
}

/// A text stands for a brightness from 0 to 100 or for none.
pub proof fn lemma_brightness_of_text_range(s: Seq<char>)
    ensures
        brightness_of_text(s) is Some ==> 0 <= brightness_of_text(s)->0 <= 100,
{
    if brightness_of_text(s) is Some {
        let n = numerator(s);
        let d = denominator(s);
        let v = decimal_value(mantissa_digits(s));
        let p = pow10(places(shift(s)));
        assert(all_digits(mantissa_digits(s))) by {
            let m = mantissa(unsigned_part(s));
            assert forall|i: int| 0 <= i < mantissa_digits(s).len() implies is_digit(
                #[trigger] mantissa_digits(s)[i],
            ) by {
                if i < whole_digits(m).len() {
                    assert(mantissa_digits(s)[i] == whole_digits(m)[i]);
                } else {
                    assert(mantissa_digits(s)[i] == fraction_digits(m)[i - whole_digits(m).len()]);
                }
            }
        }
        lemma_decimal_value_nonnegative(mantissa_digits(s));
        lemma_pow10_positive(places(shift(s)));
        lemma_pow10_positive(places(-shift(s)));
        assert(n >= 0) by (nonlinear_arith)
            requires
                n == v * p,
                v >= 0,
                p >= 1,
        ;
        if n <= d {
            assert(0 <= n * 100 / d <= 100) by (nonlinear_arith)
                requires
                    0 <= n <= d,
                    d >= 1,
            ;
        } else {
            assert(0 <= n * 100 / (1024 * d) <= 100) by (nonlinear_arith)
                requires
                    0 <= n <= 1024 * d,
                    d >= 1,
            ;
        }
    }
}

/// The brightness that a dump shows is a percentage, or -1.
pub proof fn lemma_brightness_percent_range(dump: Seq<char>)
    ensures
        -1 <= brightness_percent(dump) <= 100,
{
    let pieces = split(dump, '=');
    if exists|j: int| first_brightness(pieces, j) {
        let j = choose|j: int| first_brightness(pieces, j);
        lemma_brightness_of_text_range(value_text(pieces[j]));
    }
}

} // verus!
