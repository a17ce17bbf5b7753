//! The integer arithmetic of the machine.
//!
//! Values are signed 64-bit integers. Sums, differences, products and literals wrap around
//! at 64 bits; quotients round toward zero and remainders take the sign of the dividend.
use vstd::prelude::*;
use vstd::arithmetic::div_mod::*;

verus! {

/// The number of distinct 64-bit values.
pub open spec fn modulus() -> int {
    0x1_0000_0000_0000_0000
}

/// The 64-bit two's complement value of `x`: the one `i64` that differs from `x` by a
/// multiple of 2^64.
pub open spec fn wrap64(x: int) -> i64 {
    let r = x % modulus();
    if r > i64::MAX {
        (r - modulus()) as i64
    } else {
        r as i64
    }
}

/// The absolute value of `x`.
pub open spec fn magnitude(x: int) -> int {
    if x < 0 {
        -x
    } else {
        x
    }
}

/// The quotient of `x` by `d`, rounded toward zero.
pub open spec fn quotient(x: int, d: int) -> int {
    if (x < 0) == (d < 0) {
        magnitude(x) / magnitude(d)
    } else {
        -(magnitude(x) / magnitude(d))
    }
}

/// The remainder of `x` by `d`, with the sign of `x`.
pub open spec fn remainder(x: int, d: int) -> int {
    if x < 0 {
        -(magnitude(x) % magnitude(d))
    } else {
        magnitude(x) % magnitude(d)
    }
}

/// Whether `x / d` and `x % d` are defined on 64-bit values: the divisor is not zero and
/// the quotient fits.
pub open spec fn divisible(x: i64, d: i64) -> bool {
    d != 0 && !(x == i64::MIN && d == -1)
}

/// The low eight bits of `v`.
pub open spec fn low_byte(v: i64) -> u8 {
    v as u8
}

/// The position that `v` denotes when it is taken as an index without any check.
pub open spec fn position_of(v: i64) -> usize {
    v as usize
}

/// A value that is already a 64-bit integer wraps to itself.
pub proof fn lemma_wrap64_fits(x: int)
    requires
        i64::MIN <= x <= i64::MAX,
    ensures
        wrap64(x) == x,
{
}

/// Wrapping is the identity on multiples of 2^64: `wrap64(x + k * 2^64) == wrap64(x)`.
pub proof fn lemma_wrap64_periodic(x: int, k: int)
    ensures
        wrap64(x + k * modulus()) == wrap64(x),
{
    lemma_mod_multiples_vanish(k, x, modulus());
}

/// Wrapping an intermediate result does not change a wrapped sum of products:
/// `wrap64(wrap64(x) * m + c) == wrap64(x * m + c)`.
pub proof fn lemma_wrap64_absorbs(x: int, m: int, c: int)
    ensures
        wrap64(wrap64(x) * m + c) == wrap64(x * m + c),
{
    let w = wrap64(x) as int;
    let k = (x - w) / modulus();
    assert(x - w == k * modulus()) by {
        lemma_fundamental_div_mod(x, modulus());
    }
    assert(x * m + c == (w * m + c) + (k * m) * modulus()) by (nonlinear_arith)
        requires
            x - w == k * modulus(),
    ;
    lemma_wrap64_periodic(w * m + c, k * m);
}

/// Quotient and remainder recompose the dividend, and the remainder is smaller in
/// magnitude than the divisor and never has the opposite sign of the dividend.
pub proof fn lemma_quotient_remainder(x: int, d: int)
    requires
        d != 0,
    ensures
        x == d * quotient(x, d) + remainder(x, d),
        magnitude(remainder(x, d)) < magnitude(d),
        x >= 0 ==> remainder(x, d) >= 0,
        x <= 0 ==> remainder(x, d) <= 0,
        magnitude(quotient(x, d)) <= magnitude(x),
{
    let ax = magnitude(x);
    let ad = magnitude(d);
    lemma_fundamental_div_mod(ax, ad);
    lemma_mod_bound(ax, ad);
    lemma_div_pos_is_pos(ax, ad);
    lemma_div_is_ordered_by_denominator(ax, 1, ad);
    lemma_div_basics(ax);
    let q = ax / ad;
    let r = ax % ad;
    assert(ax == ad * q + r);
    assert(d * quotient(x, d) + remainder(x, d) == x) by (nonlinear_arith)
        requires
            ax == ad * q + r,
            ax == magnitude(x),
            ad == magnitude(d),
            d != 0,
            quotient(x, d) == (if (x < 0) == (d < 0) { q } else { -q }),
            remainder(x, d) == (if x < 0 { -r } else { r }),
    ;
}

/// On 64-bit operands the quotient fits in 64 bits, except for the least value divided
/// by minus one.
pub proof fn lemma_quotient_fits(x: i64, d: i64)
    requires
        d != 0,
    ensures
        divisible(x, d) ==> i64::MIN <= quotient(x as int, d as int) <= i64::MAX,
        !divisible(x, d) ==> quotient(x as int, d as int) == i64::MAX + 1,
        x == 0 ==> quotient(x as int, d as int) == 0,
{
    let ax = magnitude(x as int);
    let ad = magnitude(d as int);
    lemma_div_basics(ad);
    lemma_div_basics(ax);
    lemma_div_pos_is_pos(ax, ad);
    lemma_div_nonincreasing(ax, ad);
    if ax > 0 && ad > 1 {
        lemma_div_decreases(ax, ad);
    }
}

/// The low byte of a value is its residue modulo 256.
pub proof fn lemma_low_byte(v: i64)
    ensures
        low_byte(v) == (v as int) % 256,
{
    assert((v as u8) == (v as int) % 256) by (bit_vector);
}

/// A value that is a valid index denotes itself.
pub proof fn lemma_position_of_fits(v: i64)
    requires
        0 <= v <= usize::MAX,
    ensures
        position_of(v) == v,
{
}

/// Adds two values, wrapping around at 64 bits.
pub fn add_wrapping(x: i64, y: i64) -> (r: i64)
    ensures
        r == wrap64(x + y),
{
    x.wrapping_add(y)
}

/// Subtracts `y` from `x`, wrapping around at 64 bits.
pub fn sub_wrapping(x: i64, y: i64) -> (r: i64)
    ensures
        r == wrap64(x - y),
{
    x.wrapping_sub(y)
}

/// Multiplies two values, wrapping around at 64 bits.
pub fn mul_wrapping(x: i64, y: i64) -> (r: i64)
    ensures
        r == wrap64(x * y),
{
    x.wrapping_mul(y)
}

/// Divides `x` by `d`, rounding toward zero; `None` when the quotient is not defined.
pub fn div_truncating(x: i64, d: i64) -> (r: Option<i64>)
    ensures
        match r {
            Some(q) => divisible(x, d) && q == quotient(x as int, d as int),
            None => !divisible(x, d),
        },
{
    proof {
        if d != 0 {
            lemma_quotient_fits(x, d);
        }
    }
    x.checked_div(d)
}

/// The remainder of `x` by `d`, with the sign of `x`; `None` when it is not defined.
pub fn rem_truncating(x: i64, d: i64) -> (r: Option<i64>)
    ensures
        match r {
            Some(m) => divisible(x, d) && m == remainder(x as int, d as int),
            None => !divisible(x, d),
        },
{
    proof {
        if d != 0 {
            lemma_quotient_remainder(x as int, d as int);
            lemma_div_basics(magnitude(d as int));
        }
    }
    x.checked_rem(d)
}

/// The low eight bits of `v`.
pub fn truncate_to_byte(v: i64) -> (b: u8)
    ensures
        b == low_byte(v),
{
    #[verifier::truncate]
    (v as u8)
}

/// The position that `v` denotes, without any check.
pub fn truncate_to_position(v: i64) -> (p: usize)
    ensures
        p == position_of(v),
{
    #[verifier::truncate]
    (v as usize)
}

} // verus!
