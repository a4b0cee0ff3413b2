use vstd::prelude::*;

verus! {

/// Floor division by a positive divisor (Verus' `/` on `int` is floor division there).
pub open spec fn floor_div(n: int, d: int) -> int {
    n / d
}

/// Ceiling division by a positive divisor.
pub open spec fn ceil_div(n: int, d: int) -> int {
    -((-n) / d)
}

/// `v` clamped to the range of `i64`.
pub open spec fn saturate64(v: int) -> int {
    if v < i64::MIN {
        i64::MIN as int
    } else if v > i64::MAX {
        i64::MAX as int
    } else {
        v
    }
}

/// `v` clamped to the range of `i32`.
pub open spec fn saturate(v: int) -> int {
    if v < i32::MIN {
        i32::MIN as int
    } else if v > i32::MAX {
        i32::MAX as int
    } else {
        v
    }
}

pub open spec fn max_int(a: int, b: int) -> int {
    if a >= b { a } else { b }
}

pub proof fn lemma_floor_div_bounds(n: int, d: int)
    requires
        d > 0,
    ensures
        floor_div(n, d) * d <= n < floor_div(n, d) * d + d,
{
    vstd::arithmetic::div_mod::lemma_fundamental_div_mod(n, d);
    assert(floor_div(n, d) * d == d * (n / d)) by (nonlinear_arith);
}

pub proof fn lemma_ceil_div_bounds(n: int, d: int)
    requires
        d > 0,
    ensures
        n <= ceil_div(n, d) * d < n + d,
{
    lemma_floor_div_bounds(-n, d);
    assert(ceil_div(n, d) * d == -(floor_div(-n, d) * d)) by (nonlinear_arith);
}

/// Floor division by a positive divisor is monotone.
pub proof fn lemma_floor_div_monotone(a: int, b: int, d: int)
    requires
        d > 0,
        a <= b,
    ensures
        floor_div(a, d) <= floor_div(b, d),
{
    vstd::arithmetic::div_mod::lemma_div_is_ordered(a, b, d);
}

/// Bound on every intermediate value handed to the division helpers.
pub const WIDE: i128 = 0x10_0000_0000_0000_0000_0000_0000;

proof fn lemma_floor_of_negative(n: int, d: int)
    requires
        d > 0,
        n < 0,
    ensures
        n / d == -((-n - 1) / d) - 1,
{
    let m = -n - 1;
    let q = m / d;
    let r = m % d;
    vstd::arithmetic::div_mod::lemma_fundamental_div_mod(m, d);
    assert(n == (-q - 1) * d + (d - r - 1)) by (nonlinear_arith)
        requires
            m == d * q + r,
            n == -m - 1,
    ;
    vstd::arithmetic::div_mod::lemma_fundamental_div_mod_converse(n, d, -q - 1, d - r - 1);
}

/// Floor division of a signed value by a positive divisor.
pub fn div_floor(n: i128, d: i128) -> (r: i128)
    requires
        d > 0,
        -WIDE <= n <= WIDE,
    ensures
        r == floor_div(n as int, d as int),
        -WIDE - 1 <= r <= WIDE,
{
    if n >= 0 {
        proof {
            vstd::arithmetic::div_mod::lemma_div_is_ordered_by_denominator(n as int, 1, d as int);
            vstd::arithmetic::div_mod::lemma_div_pos_is_pos(n as int, d as int);
        }
        n / d
    } else {
        let m: i128 = -n - 1;
        proof {
            lemma_floor_of_negative(n as int, d as int);
            vstd::arithmetic::div_mod::lemma_div_is_ordered_by_denominator(m as int, 1, d as int);
            vstd::arithmetic::div_mod::lemma_div_pos_is_pos(m as int, d as int);
        }
        -(m / d) - 1
    }
}

/// Ceiling division of a signed value by a positive divisor.
pub fn div_ceil(n: i128, d: i128) -> (r: i128)
    requires
        d > 0,
        -WIDE <= n <= WIDE,
    ensures
        r == ceil_div(n as int, d as int),
        -WIDE <= r <= WIDE + 1,
{
    -div_floor(-n, d)
}

/// Narrows a wide value to `i64`, saturating at the bounds.
pub fn saturate_i64(v: i128) -> (r: i64)
    ensures
        r == saturate64(v as int),
{
    if v < i64::MIN as i128 {
        i64::MIN
    } else if v > i64::MAX as i128 {
        i64::MAX
    } else {
        v as i64
    }
}

/// Narrows a wide value to `i32`, saturating at the bounds.
pub fn saturate_i32(v: i128) -> (r: i32)
    ensures
        r == saturate(v as int),
{
    if v < i32::MIN as i128 {
        i32::MIN
    } else if v > i32::MAX as i128 {
        i32::MAX
    } else {
        v as i32
    }
}

} // verus!
