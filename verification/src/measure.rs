//! Fixed-point measures.
//!
//! Every length, coordinate and ratio in this crate is a signed count of
//! millionths: a length of one point is `1_000_000`, the ratio one is
//! `1_000_000`. Values that enter the library are kept within
//! `-MEASURE_MAX ..= MEASURE_MAX`, so that the sums a layout needs never leave
//! the machine integer; products and quotients are computed exactly and capped
//! to that range.
use vstd::prelude::*;

verus! {

/// A length, coordinate or ratio in millionths.
pub type Micro = i64;

/// Number of units in one point (and in the ratio one).
pub const UNITS_PER_POINT: i64 = 1_000_000;

/// Largest magnitude a measure may have: two to the power 53, the range in
/// which a binary double represents every integer.
pub const MEASURE_MAX: i64 = 9_007_199_254_740_992;

/// Whether `x` is a representable measure.
pub open spec fn in_range(x: int) -> bool {
    -MEASURE_MAX <= x <= MEASURE_MAX
}

/// `x` limited to the representable measures.
pub open spec fn cap(x: int) -> int {
    if x > MEASURE_MAX {
        MEASURE_MAX as int
    } else if x < -MEASURE_MAX {
        -MEASURE_MAX
    } else {
        x
    }
}

/// The capped floor of `a * b / c`.
pub open spec fn scaled(a: int, b: int, c: int) -> int {
    cap((a * b) / c)
}

/// Floor division agrees with truncating division of the negated numerator.
proof fn lemma_floor_of_negative(n: int, c: int)
    requires
        n > 0,
        c > 0,
    ensures
        (-n) / c == -((n + c - 1) / c),
{
    let q = (n + c - 1) / c;
    let m = (n + c - 1) % c;
    vstd::arithmetic::div_mod::lemma_fundamental_div_mod(n + c - 1, c);
    assert(0 <= m < c);
    assert(c * q == q * c) by (nonlinear_arith);
    assert(-n == (-q) * c + (c - 1 - m)) by (nonlinear_arith)
        requires
            n + c - 1 == q * c + m,
    ;
    vstd::arithmetic::div_mod::lemma_fundamental_div_mod_converse(-n, c, -q, c - 1 - m);
}

/// Whether an executable measure is representable.
pub fn is_in_range(x: i64) -> (r: bool)
    ensures
        r == in_range(x as int),
{
    -MEASURE_MAX <= x && x <= MEASURE_MAX
}

/// Floor of `p / c`, capped to the representable measures.
fn floor_div_capped(p: i128, c: i128) -> (r: i64)
    requires
        c > 0,
        -0x4000_0000_0000_0000_0000_0000_0000_0000 <= p <= 0x4000_0000_0000_0000_0000_0000_0000_0000,
        c <= 0x7fff_ffff_ffff_ffff,
    ensures
        r == cap(p / c),
{
    let q: i128 = if p >= 0 {
        p / c
    } else {
        let n: i128 = -p;
        proof {
            lemma_floor_of_negative(n as int, c as int);
            vstd::arithmetic::div_mod::lemma_div_pos_is_pos(n + c - 1, c as int);
            vstd::arithmetic::div_mod::lemma_div_nonincreasing(n + c - 1, c as int);
        }
        -((n + c - 1) / c)
    };
    if q > MEASURE_MAX as i128 {
        MEASURE_MAX
    } else if q < -(MEASURE_MAX as i128) {
        -MEASURE_MAX
    } else {
        q as i64
    }
}

/// Multiplies two measures (or a measure and a count) and divides by a
/// positive third, rounding down, with the result capped.
pub fn mul_div(a: i64, b: i64, c: i64) -> (r: i64)
    requires
        c > 0,
    ensures
        r == scaled(a as int, b as int, c as int),
        in_range(r as int),
{
    assert(-0x4000_0000_0000_0000_0000_0000_0000_0000 <= a * b
        <= 0x4000_0000_0000_0000_0000_0000_0000_0000) by (nonlinear_arith)
        requires
            -0x8000_0000_0000_0000 <= a <= 0x7fff_ffff_ffff_ffff,
            -0x8000_0000_0000_0000 <= b <= 0x7fff_ffff_ffff_ffff,
    ;
    let p: i128 = (a as i128) * (b as i128);
    floor_div_capped(p, c as i128)
}

/// The same for a count too large for a machine word.
pub fn mul_div_wide(a: u128, b: i64, c: i64) -> (r: i64)
    requires
        a <= 0x40_0000_0000_0000_0000,
        in_range(b as int),
        c > 0,
    ensures
        r == scaled(a as int, b as int, c as int),
        in_range(r as int),
{
    assert(-0x4000_0000_0000_0000_0000_0000_0000_0000 <= a * b
        <= 0x4000_0000_0000_0000_0000_0000_0000_0000) by (nonlinear_arith)
        requires
            0 <= a <= 0x40_0000_0000_0000_0000,
            -0x20_0000_0000_0000 <= b <= 0x20_0000_0000_0000,
    ;
    let p: i128 = (a as i128) * (b as i128);
    floor_div_capped(p, c as i128)
}

/// Half of `a`, rounded down.
pub fn half(a: i64) -> (r: i64)
    requires
        a > -0x7fff_ffff_ffff_ffff,
    ensures
        r == a as int / 2,
{
    if a >= 0 {
        a / 2
    } else {
        let n: i64 = -a;
        proof {
            lemma_floor_of_negative(n as int, 2);
        }
        -((n + 1) / 2)
    }
}

/// A length divided into `count` equal parts, rounded down.
pub fn divide_by_count(len: i64, count: usize) -> (r: i64)
    requires
        in_range(len as int),
        count > 0,
    ensures
        r == (len as int) / (count as int),
        in_range(r as int),
{
    if count as u128 > 0x7fff_ffff_ffff_ffff {
        proof {
            if len >= 0 {
                vstd::arithmetic::div_mod::lemma_fundamental_div_mod_converse(
                    len as int,
                    count as int,
                    0,
                    len as int,
                );
            } else {
                vstd::arithmetic::div_mod::lemma_fundamental_div_mod_converse(
                    len as int,
                    count as int,
                    -1,
                    len + count,
                );
            }
        }
        if len >= 0 {
            0
        } else {
            -1
        }
    } else {
        let r = mul_div(len, 1, count as i64);
        proof {
            assert(len * 1 == len) by (nonlinear_arith);
            lemma_quotient_in_range(len as int, count as int);
        }
        r
    }
}

/// The quotient of a representable measure by a positive count is
/// representable.
pub proof fn lemma_quotient_in_range(len: int, count: int)
    requires
        in_range(len),
        count > 0,
    ensures
        in_range(len / count),
{
    vstd::arithmetic::div_mod::lemma_fundamental_div_mod(len, count);
    let q = len / count;
    let m = len % count;
    assert(-MEASURE_MAX <= q <= MEASURE_MAX) by (nonlinear_arith)
        requires
            len == count * q + m,
            0 <= m < count,
            count > 0,
            -MEASURE_MAX <= len <= MEASURE_MAX,
    ;
}

/// The measure of a whole number of points.
pub fn points(n: i32) -> (r: i64)
    ensures
        r == n * UNITS_PER_POINT,
        in_range(r as int),
{
    (n as i64) * UNITS_PER_POINT
}

} // verus!
