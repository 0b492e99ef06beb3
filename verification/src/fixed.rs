//! Fractions such as similarity thresholds, held as whole numbers of
//! millionths, and their decimal renderings: as a plain number ("0.85") and
//! as a percentage rounded to whole units ("85") or to tenths ("85.0").

use vstd::prelude::*;
use crate::text::{decimal, digit_char, push_char, push_decimal};

verus! {

/// One whole, in millionths.
pub const MILLION: i64 = 1_000_000;

/// The six fractional digits of `f` (below one million), most significant
/// first.
pub open spec fn six_digits(f: nat) -> Seq<char> {
    seq![
        digit_char(f / 100000 % 10),
        digit_char(f / 10000 % 10),
        digit_char(f / 1000 % 10),
        digit_char(f / 100 % 10),
        digit_char(f / 10 % 10),
        digit_char(f % 10),
    ]
}

/// `s` without its trailing `'0'` characters.
pub open spec fn strip_zeros(s: Seq<char>) -> Seq<char>
    decreases s.len(),
{
    if s.len() > 0 && s.last() == '0' {
        strip_zeros(s.drop_last())
    } else {
        s
    }
}

/// Magnitude of a value.
pub open spec fn magnitude(v: int) -> nat {
    if v < 0 { (-v) as nat } else { v as nat }
}

/// Shortest decimal notation of the fraction `v / 1_000_000`: the whole
/// part, then a point and the fractional digits without trailing zeros when
/// there are any, preceded by a minus sign for negative values.
pub open spec fn fraction_text(v: int) -> Seq<char> {
    let m = magnitude(v);
    let whole = decimal(m / 1_000_000);
    let frac = m % 1_000_000;
    let sign = if v < 0 { seq!['-'] } else { Seq::empty() };
    if frac == 0 {
        sign + whole
    } else {
        sign + whole + seq!['.'] + strip_zeros(six_digits(frac))
    }
}

/// `m / unit` rounded to the nearest whole number, an exact half to the
/// even neighbour (the rounding of Rust's `{:.N}` formatting).
pub open spec fn round_half_even(m: nat, unit: nat) -> nat
    recommends
        unit > 0,
{
    let q = m / unit;
    let r = m % unit;
    if 2 * r > unit || (2 * r == unit && q % 2 == 1) {
        q + 1
    } else {
        q
    }
}

/// Whole percent of `v / 1_000_000`, rounded to the nearest unit (an exact
/// half to the even unit), with a minus sign for negative values.
pub open spec fn percent_text(v: int) -> Seq<char> {
    let m = magnitude(v);
    let sign = if v < 0 { seq!['-'] } else { Seq::empty() };
    sign + decimal(round_half_even(m, 10000))
}

/// Percent of `v / 1_000_000` with one decimal, rounded to the nearest
/// tenth (an exact half to the even tenth), with a minus sign for negative
/// values.
pub open spec fn percent_tenths_text(v: int) -> Seq<char> {
    let m = magnitude(v);
    let tenths = round_half_even(m, 1000);
    let sign = if v < 0 { seq!['-'] } else { Seq::empty() };
    sign + decimal(tenths / 10) + seq!['.', digit_char(tenths % 10)]
}

fn digit_of(d: u64) -> (c: char)
    requires
        d < 10,
    ensures
        c == digit_char(d as nat),
{
    if d == 0 { '0' }
    else if d == 1 { '1' }
    else if d == 2 { '2' }
    else if d == 3 { '3' }
    else if d == 4 { '4' }
    else if d == 5 { '5' }
    else if d == 6 { '6' }
    else if d == 7 { '7' }
    else if d == 8 { '8' }
    else { '9' }
}

fn magnitude_of(v: i64) -> (m: u64)
    ensures
        m == magnitude(v as int),
{
    if v < 0 {
        if v == i64::MIN {
            9223372036854775808u64
        } else {
            (-v) as u64
        }
    } else {
        v as u64
    }
}

/// Appends the shortest decimal notation of `v / 1_000_000`.
pub fn push_fraction(s: &mut String, v: i64)
    ensures
        final(s)@ == old(s)@ + fraction_text(v as int),
{
    let m = magnitude_of(v);
    if v < 0 {
        push_char(s, '-');
    }
    push_decimal(s, m / 1_000_000);
    let frac = m % 1_000_000;
    let ghost after_whole = s@;
    if frac != 0 {
        push_char(s, '.');
        let mut digits: Vec<char> = vec![
            digit_of(frac / 100000 % 10),
            digit_of(frac / 10000 % 10),
            digit_of(frac / 1000 % 10),
            digit_of(frac / 100 % 10),
            digit_of(frac / 10 % 10),
            digit_of(frac % 10),
        ];
        assert(digits@ =~= six_digits(frac as nat));
        let mut n: usize = 6;
        assert(digits@.take(6) =~= digits@);
        while n > 0 && digits[n - 1] == '0'
            invariant
                n <= 6,
                digits@.len() == 6,
                digits@ == six_digits(frac as nat),
                strip_zeros(digits@.take(n as int)) == strip_zeros(six_digits(frac as nat)),
            decreases n,
        {
            assert(digits@.take(n as int).drop_last() =~= digits@.take(n - 1));
            n = n - 1;
        }
        let ghost kept = digits@.take(n as int);
        assert(strip_zeros(kept) == kept);
        let ghost before_digits = s@;
        let mut k: usize = 0;
        while k < n
            invariant
                k <= n,
                n <= 6,
                digits@.len() == 6,
                kept == digits@.take(n as int),
                s@ == before_digits + kept.take(k as int),
            decreases n - k,
        {
            push_char(s, digits[k]);
            assert(kept.take(k + 1) =~= kept.take(k as int).push(digits@[k as int]));
            k = k + 1;
        }
        assert(kept.take(n as int) =~= kept);
    }
    let ghost sign = if v < 0 { seq!['-'] } else { Seq::<char>::empty() };
    assert(old(s)@ + fraction_text(v as int) =~= s@) by {
        if v < 0 {
            assert(old(s)@.push('-') =~= old(s)@ + sign);
        } else {
            assert(old(s)@ =~= old(s)@ + sign);
        }
    }
}

/// Appends the whole percent of `v / 1_000_000`.
pub fn push_percent(s: &mut String, v: i64)
    ensures
        final(s)@ == old(s)@ + percent_text(v as int),
{
    let m = magnitude_of(v);
    if v < 0 {
        push_char(s, '-');
    }
    let q = m / 10000;
    let r = m % 10000;
    let units = if r > 5000 || (r == 5000 && q % 2 == 1) { q + 1 } else { q };
    assert(units == round_half_even(m as nat, 10000));
    push_decimal(s, units);
    let ghost sign = if v < 0 { seq!['-'] } else { Seq::<char>::empty() };
    assert(old(s)@ + percent_text(v as int) =~= s@) by {
        if v < 0 {
            assert(old(s)@.push('-') =~= old(s)@ + sign);
        } else {
            assert(old(s)@ =~= old(s)@ + sign);
        }
    }
}

/// Appends the percent of `v / 1_000_000` with one decimal.
pub fn push_percent_tenths(s: &mut String, v: i64)
    ensures
        final(s)@ == old(s)@ + percent_tenths_text(v as int),
{
    let m = magnitude_of(v);
    let q = m / 1000;
    let r = m % 1000;
    let tenths = if r > 500 || (r == 500 && q % 2 == 1) { q + 1 } else { q };
    assert(tenths == round_half_even(m as nat, 1000));
    if v < 0 {
        push_char(s, '-');
    }
    push_decimal(s, tenths / 10);
    push_char(s, '.');
    push_char(s, digit_of(tenths % 10));
    let ghost sign = if v < 0 { seq!['-'] } else { Seq::<char>::empty() };
    assert(old(s)@ + percent_tenths_text(v as int) =~= s@) by {
        if v < 0 {
            assert(old(s)@.push('-') =~= old(s)@ + sign);
        } else {
            assert(old(s)@ =~= old(s)@ + sign);
        }
    }
}

} // verus!
