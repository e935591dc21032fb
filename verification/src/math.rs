//! Saturating and wrapping integer helpers shared by the balance, pool and
//! fee arithmetic.

use vstd::prelude::*;

verus! {

/// `x` clamped to the range of `i128`.
pub open spec fn clamp_i128(x: int) -> int {
    if x > i128::MAX { i128::MAX as int } else if x < i128::MIN { i128::MIN as int } else { x }
}

/// `x` clamped to the range of `u128`.
pub open spec fn clamp_u128(x: int) -> int {
    if x > u128::MAX { u128::MAX as int } else if x < 0 { 0 } else { x }
}

/// The `u128` that has the same bits as the `i128` `x` (what `x as u128` gives).
pub open spec fn wrap_u128(x: i128) -> int {
    if x >= 0 { x as int } else { x + 0x1_0000_0000_0000_0000_0000_0000_0000_0000 }
}

/// The `i128` that has the same bits as the `u128` `x` (what `x as i128` gives).
pub open spec fn wrap_i128(x: u128) -> int {
    if x <= i128::MAX { x as int } else { x - 0x1_0000_0000_0000_0000_0000_0000_0000_0000 }
}

/// `a + b`, saturating at the bounds of `i128`.
pub fn sat_add_i128(a: i128, b: i128) -> (r: i128)
    ensures
        r == clamp_i128(a + b),
{
    if b > 0 && a > i128::MAX - b {
        i128::MAX
    } else if b < 0 && a < i128::MIN - b {
        i128::MIN
    } else {
        a + b
    }
}

/// `a - b`, saturating at the bounds of `i128`.
pub fn sat_sub_i128(a: i128, b: i128) -> (r: i128)
    ensures
        r == clamp_i128(a - b),
{
    if b < 0 && a > i128::MAX + b {
        i128::MAX
    } else if b > 0 && a < i128::MIN + b {
        i128::MIN
    } else {
        a - b
    }
}

/// `a * b`, saturating at the bounds of `i128`.
pub fn sat_mul_i128(a: i128, b: i128) -> (r: i128)
    ensures
        r == clamp_i128(a * b),
{
    match a.checked_mul(b) {
        Some(p) => p,
        None => {
            if (a > 0) == (b > 0) {
                proof {
                    assert(a * b > i128::MAX) by (nonlinear_arith)
                        requires
                            (a > 0) == (b > 0),
                            a * b > i128::MAX || a * b < i128::MIN;
                }
                i128::MAX
            } else {
                proof {
                    assert(a * b < i128::MIN) by (nonlinear_arith)
                        requires
                            (a > 0) != (b > 0),
                            a * b > i128::MAX || a * b < i128::MIN;
                }
                i128::MIN
            }
        },
    }
}

/// `a * b`, saturating at `u128::MAX`.
pub fn sat_mul_u128(a: u128, b: u128) -> (r: u128)
    ensures
        r == clamp_u128(a * b),
{
    if a == 0 {
        0
    } else if b > u128::MAX / a {
        proof {
            assert(a * b > u128::MAX) by (nonlinear_arith)
                requires
                    a > 0,
                    b > u128::MAX / a;
        }
        u128::MAX
    } else {
        proof {
            assert(a * b <= u128::MAX) by (nonlinear_arith)
                requires
                    a > 0,
                    b <= u128::MAX / a;
        }
        a * b
    }
}

/// `x as u128`: the same bits read as unsigned.
pub fn to_u128_bits(x: i128) -> (r: u128)
    ensures
        r == wrap_u128(x),
{
    if x >= 0 {
        x as u128
    } else {
        let y = (x + i128::MAX + 1) as u128;
        y + 0x8000_0000_0000_0000_0000_0000_0000_0000u128
    }
}

/// `x as i128`: the same bits read as signed.
pub fn to_i128_bits(x: u128) -> (r: i128)
    ensures
        r == wrap_i128(x),
{
    if x <= i128::MAX as u128 {
        x as i128
    } else {
        let y = x - 0x8000_0000_0000_0000_0000_0000_0000_0000u128;
        (y as i128) + i128::MIN
    }
}

} // verus!
