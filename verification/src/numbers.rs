//! Decimal numerals: the value of a run of digits, the text of a signed
//! 32-bit integer, and the numeral of an unsigned number.

use crate::text::{digit_value, is_digit, is_digit_char};
use vstd::prelude::*;
use vstd::slice::slice_subrange;

verus! {

/// Whether `s` holds ASCII digits only.
pub open spec fn all_digits(s: Seq<char>) -> bool {
    forall|i: int| 0 <= i < s.len() ==> is_digit(#[trigger] s[i])
}

/// The number that the digits of `s` write in base ten; 0 for the empty run.
pub open spec fn decimal_value(s: Seq<char>) -> int
    decreases s.len(),
{
    if s.len() == 0 {
        0
    } else {
        decimal_value(s.drop_last()) * 10 + digit_value(s.last())
    }
}

/// The length of the run of digits at the start of `s`.
pub open spec fn digit_run_len(s: Seq<char>) -> int
    decreases s.len(),
{
    if s.len() > 0 && is_digit(s[0]) {
        1 + digit_run_len(s.drop_first())
    } else {
        0
    }
}

/// The run of digits at the start of `s`.
pub open spec fn leading_digits(s: Seq<char>) -> Seq<char> {
    s.take(digit_run_len(s))
}

/// The smaller of two integers.
pub open spec fn min_int(a: int, b: int) -> int {
    if a <= b {
        a
    } else {
        b
    }
}

/// The value of a run of digits is not negative.
pub proof fn lemma_decimal_value_nonnegative(s: Seq<char>)
    requires
        all_digits(s),
    ensures
        decimal_value(s) >= 0,
    decreases s.len(),
{
    if s.len() > 0 {
        lemma_decimal_value_nonnegative(s.drop_last());
    }
}

/// The run of digits at the start of `s` ends at the first character that is
/// no digit.
pub proof fn lemma_digit_run(s: Seq<char>, k: int)
    requires
        0 <= k <= s.len(),
        forall|j: int| 0 <= j < k ==> is_digit(#[trigger] s[j]),
        k == s.len() || !is_digit(s[k]),
    ensures
        digit_run_len(s) == k,
    decreases s.len(),
{
    if k > 0 {
        lemma_digit_run(s.drop_first(), k - 1);
    }
}

/// The run of digits at the start of `s`.
pub fn leading_digits_of<'a>(s: &'a [char]) -> (r: &'a [char])
    ensures
        r@ == leading_digits(s@),
        all_digits(r@),
{
    let mut k: usize = 0;
    while k < s.len() && is_digit_char(s[k])
        invariant
            k <= s.len(),
            forall|j: int| 0 <= j < k ==> is_digit(#[trigger] s@[j]),
        decreases s.len() - k,
    {
        k += 1;
    }
    proof {
        lemma_digit_run(s@, k as int);
    }
    slice_subrange(s, 0, k)
}

/// Whether `s` holds digits only.
pub fn all_digits_of(s: &[char]) -> (r: bool)
    ensures
        r == all_digits(s@),
{
    let mut k: usize = 0;
    while k < s.len()
        invariant
            k <= s.len(),
            forall|j: int| 0 <= j < k ==> is_digit(#[trigger] s@[j]),
        decreases s.len() - k,
    {
        if !is_digit_char(s[k]) {
            return false;
        }
        k += 1;
    }
    true
}

/// The value of a run of digits, or `cap` where the value is larger.
pub fn capped_value(s: &[char], cap: u128) -> (v: u128)
    requires
        all_digits(s@),
    ensures
        v == min_int(decimal_value(s@), cap as int),
{
    let mut acc: u128 = 0;
    let mut i: usize = 0;
    assert(s@.take(0) =~= Seq::<char>::empty());
    while i < s.len()
        invariant
            i <= s.len(),
            all_digits(s@),
            decimal_value(s@.take(i as int)) >= 0,
            acc == min_int(decimal_value(s@.take(i as int)), cap as int),
        decreases s.len() - i,
    {
        let c = s[i];
        assert(is_digit(s@[i as int]));
        let d: u128 = (c as u32 - 0x30) as u128;
        proof {
            let next = s@.take(i + 1);
            assert(next.drop_last() =~= s@.take(i as int));
            assert(next.last() == c);
            assert(decimal_value(next) == decimal_value(s@.take(i as int)) * 10 + d);
        }
        acc = if acc >= cap || d > cap || acc > (cap - d) / 10 {
            cap
        } else {
            acc * 10 + d
        };
        i += 1;
    }
    assert(s@.take(i as int) =~= s@);
    acc
}

/// Whether `s` starts with a plus or a minus sign.
pub open spec fn has_sign(s: Seq<char>) -> bool {
    s.len() > 0 && (s[0] == '-' || s[0] == '+')
}

/// What follows the sign of `s`, or all of `s` where it has none.
pub open spec fn unsigned_part(s: Seq<char>) -> Seq<char> {
    if has_sign(s) {
        s.drop_first()
    } else {
        s
    }
}

/// Whether `s` writes an integer: an optional sign, then one digit or more.
pub open spec fn is_integer_text(s: Seq<char>) -> bool {
    unsigned_part(s).len() > 0 && all_digits(unsigned_part(s))
}

/// The integer that `s` writes.
pub open spec fn integer_value(s: Seq<char>) -> int {
    if s.len() > 0 && s[0] == '-' {
        -decimal_value(unsigned_part(s))
    } else {
        decimal_value(unsigned_part(s))
    }
}

/// The signed 32-bit integer that `s` writes, where it writes one that fits.
pub open spec fn i32_of_text(s: Seq<char>) -> Option<i32> {
    if is_integer_text(s) && i32::MIN <= integer_value(s) <= i32::MAX {
        Some(integer_value(s) as i32)
    } else {
        None
    }
}

/// Reads a signed 32-bit integer: an optional sign, then digits only, with a
/// value in the type's range.
pub fn parse_i32(s: &[char]) -> (r: Option<i32>)
    ensures
        r == i32_of_text(s@),
{
    let negative = s.len() > 0 && s[0] == '-';
    let signed = s.len() > 0 && (s[0] == '-' || s[0] == '+');
    let body = if signed {
        slice_subrange(s, 1, s.len())
    } else {
        s
    };
    assert(body@ =~= unsigned_part(s@));
    if body.len() == 0 || !all_digits_of(body) {
        return None;
    }
    proof {
        lemma_decimal_value_nonnegative(body@);
    }
    let v: u128 = capped_value(body, 2147483649);
    if negative {
        if v <= 2147483648 {
            let w: i64 = -(v as i64);
            Some(w as i32)
        } else {
            None
        }
    } else if v <= 2147483647 {
        Some(v as i32)
    } else {
        None
    }
}

/// Ten to the power of `n`.
pub open spec fn pow10(n: nat) -> int
    decreases n,
{
    if n == 0 {
        1
    } else {
        10 * pow10((n - 1) as nat)
    }
}

/// A power of ten is positive.
pub proof fn lemma_pow10_positive(n: nat)
    ensures
        pow10(n) >= 1,
    decreases n,
{
    if n > 0 {
        lemma_pow10_positive((n - 1) as nat);
    }
}

/// A larger power of ten is no smaller.
pub proof fn lemma_pow10_monotone(a: nat, b: nat)
    requires
        a <= b,
    ensures
        pow10(a) <= pow10(b),
    decreases b,
{
    if a < b {
        lemma_pow10_monotone(a, (b - 1) as nat);
        lemma_pow10_positive((b - 1) as nat);
    }
}

/// The value of a run of digits is below ten to the power of its length.
pub proof fn lemma_decimal_value_bound(s: Seq<char>)
    requires
        all_digits(s),
    ensures
        0 <= decimal_value(s) < pow10(s.len()),
    decreases s.len(),
{
    if s.len() > 0 {
        lemma_decimal_value_bound(s.drop_last());
    }
}

/// Writing the digits `b` after the digits `a` multiplies the value of `a` by
/// ten for each digit of `b` and adds the value of `b`.
pub proof fn lemma_decimal_value_concat(a: Seq<char>, b: Seq<char>)
    ensures
        decimal_value(a + b) == decimal_value(a) * pow10(b.len()) + decimal_value(b),
    decreases b.len(),
{
    if b.len() == 0 {
        assert(a + b =~= a);
    } else {
        let front = b.drop_last();
        lemma_decimal_value_concat(a, front);
        assert((a + b).drop_last() =~= a + front);
        assert((a + b).last() == b.last());
        let va = decimal_value(a);
        let p = pow10(front.len());
        assert(pow10(b.len()) == 10 * p);
        assert((va * p + decimal_value(front)) * 10 == va * (10 * p) + decimal_value(front) * 10)
            by (nonlinear_arith);
    }
}

/// A run of digits has the value 0 only if each of its digits is the digit 0.
pub proof fn lemma_decimal_value_zero(s: Seq<char>)
    requires
        all_digits(s),
    ensures
        decimal_value(s) == 0 <==> forall|j: int| 0 <= j < s.len() ==> s[j] == '0',
    decreases s.len(),
{
    if s.len() > 0 {
        let front = s.drop_last();
        lemma_decimal_value_zero(front);
        lemma_decimal_value_nonnegative(front);
        if decimal_value(s) == 0 {
            assert(forall|j: int| 0 <= j < s.len() ==> s[j] == '0') by {
                assert forall|j: int| 0 <= j < s.len() implies s[j] == '0' by {
                    if j < s.len() - 1 {
                        assert(front[j] == '0');
                    }
                }
            }
        } else if forall|j: int| 0 <= j < s.len() ==> s[j] == '0' {
            assert(forall|j: int| 0 <= j < front.len() ==> front[j] == s[j]);
            assert(s.last() == '0');
        }
    }
}

/// Whether a run of digits has the value 0.
pub fn is_zero_run(s: &[char]) -> (r: bool)
    requires
        all_digits(s@),
    ensures
        r == (decimal_value(s@) == 0),
{
    let mut k: usize = 0;
    while k < s.len()
        invariant
            k <= s.len(),
            all_digits(s@),
            forall|j: int| 0 <= j < k ==> s@[j] == '0',
        decreases s.len() - k,
    {
        if s[k] != '0' {
            proof {
                lemma_decimal_value_zero(s@);
            }
            return false;
        }
        k += 1;
    }
    proof {
        lemma_decimal_value_zero(s@);
    }
    true
}

/// The ASCII digit that stands for `d`.
pub open spec fn digit_char(d: int) -> char {
    ((48 + d) as u8) as char
}

/// The numeral of `n` in base ten, without leading zeros.
pub open spec fn decimal_text(n: nat) -> Seq<char>
    decreases n,
{
    if n < 10 {
        seq![digit_char(n as int)]
    } else {
        decimal_text(n / 10).push(digit_char((n % 10) as int))
    }
}

/// A numeral holds digits only, and its value is the number it was made for.
pub proof fn lemma_decimal_text_value(n: nat)
    ensures
        all_digits(decimal_text(n)),
        decimal_text(n).len() >= 1,
        decimal_value(decimal_text(n)) == n,
    decreases n,
{
    reveal_with_fuel(decimal_value, 2);
    if n < 10 {
        assert(decimal_text(n).drop_last().len() == 0);
    } else {
        lemma_decimal_text_value(n / 10);
        let t = decimal_text(n);
        assert(t.drop_last() =~= decimal_text(n / 10));
        assert(t.last() == digit_char((n % 10) as int));
    }
}

/// The numeral of `n` in base ten.
pub fn decimal_string(n: u64) -> (s: String)
    ensures
        s@ == decimal_text(n as nat),
{
    let mut low: Vec<char> = Vec::new();
    let mut m: u64 = n;
    assert(decimal_text(n as nat) + low@.reverse() =~= decimal_text(m as nat));
    while m >= 10
        invariant
            decimal_text(n as nat) == decimal_text(m as nat) + low@.reverse(),
        decreases m,
    {
        let d: u8 = (m % 10) as u8;
        let c: char = (0x30 + d) as char;
        proof {
            let rest = decimal_text((m / 10) as nat);
            assert(c == digit_char((m % 10) as int));
            assert(decimal_text(m as nat) == rest.push(c));
            assert(low@.push(c).reverse() =~= seq![c] + low@.reverse());
            assert(rest.push(c) + low@.reverse() =~= rest + (seq![c] + low@.reverse()));
        }
        low.push(c);
        m = m / 10;
    }
    let c: char = (0x30 + m as u8) as char;
    proof {
        assert(c == digit_char(m as int));
        assert(low@.push(c).reverse() =~= seq![c] + low@.reverse());
    }
    low.push(c);
    let mut s = String::new();
    let mut i: usize = low.len();
    assert(low@.reverse().take(0) =~= Seq::<char>::empty());
    while i > 0
        invariant
            i <= low.len(),
            s@ == low@.reverse().take(low.len() - i),
        decreases i,
    {
        i -= 1;
        s.push(low[i]);
        assert(low@.reverse().take(low.len() - i) =~= low@.reverse().take(low.len() - i - 1).push(
            low@[i as int],
        ));
    }
    assert(low@.reverse().take(low.len() as int) =~= low@.reverse());
    s
}

} // verus!
