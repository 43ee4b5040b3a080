//! Fixed-point numbers: an `i64` that counts units of 1/65536.

use vstd::arithmetic::div_mod::lemma_fundamental_div_mod_converse;
use vstd::prelude::*;

verus! {

/// A number with sixteen fractional bits; the raw value `r` stands for `r / 65536`.
pub type Fixed = i64;

/// The raw value of 1.0.
pub const ONE: i64 = 65536;

/// The product of two fixed-point numbers, rounded down.
pub open spec fn product(a: int, b: int) -> int {
    (a * b) / (ONE as int)
}

/// The quotient of two fixed-point numbers, rounded down (`b` positive).
pub open spec fn quotient(a: int, b: int) -> int
    recommends
        b > 0,
{
    (a * ONE) / b
}

/// The whole part of a fixed-point number: the greatest integer not above it.
pub open spec fn whole(a: int) -> int {
    a / (ONE as int)
}

/// The fractional part of a fixed-point number, in `[0, ONE)`.
pub open spec fn fraction(a: int) -> int {
    a % (ONE as int)
}

/// The absolute value.
pub open spec fn magnitude(a: int) -> int {
    if a < 0 {
        -a
    } else {
        a
    }
}

/// Division that rounds toward zero (`d` positive).
pub open spec fn toward_zero(n: int, d: int) -> int
    recommends
        d > 0,
{
    if n >= 0 {
        n / d
    } else {
        -((-n) / d)
    }
}

/// Bound on a product: the product of two bounded factors is bounded.
pub proof fn lemma_product_bound(a: int, b: int, ba: int, bb: int)
    requires
        -ba <= a <= ba,
        -bb <= b <= bb,
    ensures
        -(ba * bb) <= a * b <= ba * bb,
        -(ba * bb) / (ONE as int) - 1 <= product(a, b) <= (ba * bb) / (ONE as int),
{
    assert(-(ba * bb) <= a * b <= ba * bb) by (nonlinear_arith)
        requires
            -ba <= a <= ba,
            -bb <= b <= bb,
    ;
}

/// A quotient stays under `m` where the dividend stays under `d * m`.
pub proof fn lemma_div_below(n: int, d: int, m: int)
    requires
        0 <= n < d * m,
        0 < d,
    ensures
        0 <= n / d < m,
{
    vstd::arithmetic::div_mod::lemma_div_pos_is_pos(n, d);
    vstd::arithmetic::div_mod::lemma_fundamental_div_mod(n, d);
    vstd::arithmetic::div_mod::lemma_mod_bound(n, d);
    let q = n / d;
    if q >= m {
        assert(d * q >= d * m) by (nonlinear_arith)
            requires
                q >= m,
                d > 0,
        ;
    }
}

/// A quotient of a non-negative number by a positive one is not above the number.
pub proof fn lemma_quotient_bound(n: int, d: int)
    requires
        0 <= n,
        0 < d,
    ensures
        0 <= n / d <= n,
{
    vstd::arithmetic::div_mod::lemma_div_pos_is_pos(n, d);
    vstd::arithmetic::div_mod::lemma_div_is_ordered_by_denominator(n, 1, d);
}

/// A quotient by a divisor of at least `m` of a number within `limit * m` of
/// zero is within `limit + 1` of zero.
pub proof fn lemma_ratio_bound(a: int, d: int, m: int, limit: int)
    requires
        0 < m <= d,
        0 <= limit,
        -(limit * m) <= a <= limit * m,
    ensures
        -limit - 1 <= a / d <= limit,
{
    vstd::arithmetic::div_mod::lemma_fundamental_div_mod(a, d);
    vstd::arithmetic::div_mod::lemma_mod_bound(a, d);
    let q = a / d;
    let r = a % d;
    if q > limit {
        assert(d * q > limit * m) by (nonlinear_arith)
            requires
                q >= limit + 1,
                0 < m <= d,
                0 <= limit,
        ;
    }
    if q < -limit - 1 {
        assert(d * q + d <= -(limit * m) - m) by (nonlinear_arith)
            requires
                q <= -limit - 2,
                0 < m <= d,
                0 <= limit,
        ;
    }
}

/// Floor division by a positive number.
pub fn floor_div(n: i128, d: i128) -> (q: i128)
    requires
        d > 0,
        n > i128::MIN,
    ensures
        q == n as int / d as int,
{
    if n >= 0 {
        n / d
    } else {
        let m: i128 = -n;
        let k: i128 = (m - 1) / d;
        proof {
            let r = (m - 1) as int % d as int;
            assert((m - 1) as int == d as int * ((m - 1) as int / d as int) + r) by {
                vstd::arithmetic::div_mod::lemma_fundamental_div_mod((m - 1) as int, d as int);
            }
            assert(n as int == (-k - 1) * d + (d - r - 1)) by (nonlinear_arith)
                requires
                    m - 1 == d * k + r,
                    n == -m,
            ;
            lemma_fundamental_div_mod_converse(n as int, d as int, -k - 1, d - r - 1);
        }
        -k - 1
    }
}

/// The absolute value of a number above `i64::MIN`.
pub fn abs_of(a: i64) -> (r: i64)
    requires
        a > i64::MIN,
    ensures
        r == magnitude(a as int),
        r >= 0,
{
    if a < 0 {
        -a
    } else {
        a
    }
}

/// The fixed-point number for an integer.
pub fn from_int(n: i32) -> (r: Fixed)
    ensures
        r == n * ONE,
        whole(r as int) == n,
        fraction(r as int) == 0,
{
    (n as i64) * ONE
}

/// Multiplies two fixed-point numbers, rounding down.
pub fn mul_fixed(a: Fixed, b: Fixed) -> (r: Fixed)
    requires
        i64::MIN <= product(a as int, b as int) <= i64::MAX,
    ensures
        r == product(a as int, b as int),
{
    proof {
        lemma_product_bound(a as int, b as int, 0x8000_0000_0000_0000, 0x8000_0000_0000_0000);
    }
    let p: i128 = (a as i128) * (b as i128);
    let q: i128 = floor_div(p, 65536);
    q as i64
}

/// Divides a non-negative fixed-point number by a positive one, rounding down.
pub fn div_fixed(a: Fixed, b: Fixed) -> (r: Fixed)
    requires
        a >= 0,
        b > 0,
        quotient(a as int, b as int) <= i64::MAX,
    ensures
        r == quotient(a as int, b as int),
        r >= 0,
{
    let n: i128 = (a as i128) * 65536;
    let q: i128 = n / (b as i128);
    proof {
        vstd::arithmetic::div_mod::lemma_div_pos_is_pos(n as int, b as int);
    }
    q as i64
}

/// The whole part of a fixed-point number that is not negative.
pub fn whole_part(a: Fixed) -> (r: i64)
    requires
        a >= 0,
    ensures
        r == whole(a as int),
        0 <= r,
        r * ONE <= a < r * ONE + ONE,
{
    a / ONE
}

/// The fractional part of a fixed-point number, also of a negative one.
pub fn fraction_part(a: Fixed) -> (r: Fixed)
    ensures
        r == fraction(a as int),
        0 <= r < ONE,
{
    let m: i64 = a % ONE;
    if m < 0 {
        m + ONE
    } else {
        m
    }
}

} // verus!
