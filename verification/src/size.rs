//! File sizes in megabytes, rounded the way a double is printed with two
//! places: sizes beyond the double's 53 bits first to the nearest double, then
//! to hundredths, each time to the nearer value and halfway to the even one.
use vstd::arithmetic::power2::{lemma2_to64, lemma_pow2_pos, lemma_pow2_unfold, pow2};
use vstd::prelude::*;
use vstd::string::StringExecFns;

use crate::text::{
    all_digits, decimal, decimal_text, digit_char, digit_text, law_digits, law_value_by_tens,
    lemma_decimal, value_of,
};

verus! {

/// Bytes in a megabyte.
pub const MEGABYTE: u64 = 1_048_576;

/// The numbers below this one are doubles, without rounding.
pub const DOUBLE_LIMIT: u64 = 9_007_199_254_740_992;

/// `a / d`, rounded to the nearest number, halfway to the even one.
pub open spec fn div_half_even(a: nat, d: nat) -> nat
    recommends
        d > 0,
{
    let q = a / d;
    let r = a % d;
    if 2 * r > d || (2 * r == d && q % 2 == 1) {
        q + 1
    } else {
        q
    }
}

/// The step between the doubles around `n`.
pub open spec fn double_step(n: nat) -> nat
    decreases n,
{
    if n < DOUBLE_LIMIT {
        1
    } else {
        2 * double_step(n / 2)
    }
}

/// The double nearest to `n`.
pub open spec fn nearest_double(n: nat) -> nat {
    div_half_even(n, double_step(n)) * double_step(n)
}

/// `bytes` in hundredths of a megabyte.
pub open spec fn hundredths(bytes: nat) -> nat {
    div_half_even(nearest_double(bytes) * 100, MEGABYTE as nat)
}

/// `bytes` in megabytes, with two places.
pub open spec fn megabytes(bytes: nat) -> Seq<char> {
    let h = hundredths(bytes);
    decimal(h / 100) + "."@ + seq![digit_char(h / 10 % 10), digit_char(h % 10)]
}

fn round_half_even(a: u128, d: u128) -> (r: u128)
    requires
        0 < d <= 0x1_0000_0000,
        a < u128::MAX,
    ensures
        r == div_half_even(a as nat, d as nat),
{
    let q: u128 = a / d;
    let r: u128 = a % d;
    assert(q <= a) by (nonlinear_arith)
        requires
            q == a / d,
            d > 0,
    ;
    if 2 * r > d || (2 * r == d && q % 2 == 1) {
        q + 1
    } else {
        q
    }
}

fn step_of(n: u64) -> (r: u64)
    ensures
        r == double_step(n as nat),
        r > 0,
        n < DOUBLE_LIMIT ==> r == 1,
        n >= DOUBLE_LIMIT ==> r * 4_503_599_627_370_496 <= n,
    decreases n,
{
    if n < DOUBLE_LIMIT {
        1
    } else {
        2 * step_of(n / 2)
    }
}

/// `bytes` in megabytes, with two places.
pub fn megabytes_text(bytes: u64) -> (r: String)
    ensures
        r@ == megabytes(bytes as nat),
{
    let step: u64 = step_of(bytes);
    let steps: u128 = round_half_even(bytes as u128, step as u128);
    assert(steps <= bytes + 1) by (nonlinear_arith)
        requires
            steps == div_half_even(bytes as nat, step as nat),
            step > 0,
    ;
    assert(steps * step <= 0x2_0000_0000_0000_0000 * 4096) by (nonlinear_arith)
        requires
            steps <= bytes + 1,
            step <= 4096,
    ;
    let nearest: u128 = steps * step as u128;
    let h: u128 = round_half_even(nearest * 100, MEGABYTE as u128);
    assert(h / 100 <= u64::MAX);
    let whole: u64 = (h / 100) as u64;
    let mut r = decimal_text(whole);
    r.append(".");
    r.append(digit_text((h / 10 % 10) as u64));
    r.append(digit_text((h % 10) as u64));
    assert(r@ == megabytes(bytes as nat));
    r
}

/// `q` is the multiple of `d` nearest to `a`, in steps of `d`, and the even one
/// where two are as near.
pub open spec fn nearest_steps(a: int, d: int, q: int) -> bool {
    &&& -d <= 2 * (q * d - a) <= d
    &&& 2 * (q * d - a) == d || 2 * (q * d - a) == -d ==> q % 2 == 0
}

proof fn lemma_half_even(a: nat, d: nat)
    requires
        d > 0,
    ensures
        nearest_steps(a as int, d as int, div_half_even(a, d) as int),
{
    let q = a / d;
    let r = a % d;
    assert(a == q * d + r && r < d) by (nonlinear_arith)
        requires
            d > 0,
            q == a / d,
            r == a % d,
    ;
    assert((q + 1) * d == q * d + d) by (nonlinear_arith);
}

proof fn lemma_double_step(n: nat) -> (k: nat)
    ensures
        double_step(n) == pow2(k),
        n < 9_007_199_254_740_992 ==> k == 0,
        n >= 9_007_199_254_740_992 ==> 4_503_599_627_370_496 * pow2(k) <= n
            < 9_007_199_254_740_992 * pow2(k),
    decreases n,
{
    lemma2_to64();
    if n < DOUBLE_LIMIT {
        0
    } else {
        let k = lemma_double_step(n / 2);
        lemma_pow2_unfold(k + 1);
        k + 1
    }
}

/// What the text of a size says: digits, a point and two digits, which make the
/// hundredths of a megabyte nearest to the size, as a double holds it. A size of
/// less than 2 to the 53 is held as it is; of a larger one a double holds 53
/// binary digits, rounded to the nearest.
pub proof fn law_megabytes(bytes: u64) -> (r: (Seq<char>, Seq<char>, nat, nat))
    ensures
        ({
            let (whole, places, k, m) = r;
            let h = 100 * value_of(whole) + value_of(places);
            &&& megabytes(bytes as nat) == whole + "."@ + places
            &&& whole == decimal(value_of(whole))
            &&& all_digits(places) && places.len() == 2
            &&& bytes < 9_007_199_254_740_992 ==> k == 0 && m == bytes
            &&& bytes >= 9_007_199_254_740_992 ==> 4_503_599_627_370_496 * pow2(k) <= bytes
                < 9_007_199_254_740_992 * pow2(k)
            &&& nearest_steps(bytes as int, pow2(k) as int, m as int)
            &&& nearest_steps((100 * (m * pow2(k))) as int, 1_048_576, h as int)
        }),
{
    let k = lemma_double_step(bytes as nat);
    let step = double_step(bytes as nat);
    let m = div_half_even(bytes as nat, step);
    lemma_pow2_pos(k);
    lemma2_to64();
    lemma_half_even(bytes as nat, step);
    let nearest = nearest_double(bytes as nat);
    assert(nearest == m * step);
    let h = hundredths(bytes as nat);
    lemma_half_even(nearest * 100, MEGABYTE as nat);
    let whole = decimal(h / 100);
    let places = seq![digit_char(h / 10 % 10), digit_char(h % 10)];
    lemma_decimal(h / 100);
    law_digits(h / 10 % 10);
    law_digits(h % 10);
    let first = Seq::<char>::empty().push("0123456789"@[(h / 10 % 10) as int]);
    law_value_by_tens(Seq::empty(), h / 10 % 10);
    law_value_by_tens(first, h % 10);
    assert(places == first.push("0123456789"@[(h % 10) as int]));
    assert(h == 100 * (h / 100) + 10 * (h / 10 % 10) + h % 10);
    (whole, places, k, m)
}

} // verus!
