//! Integer arithmetic helpers shared by the coordinate implementations:
//! division that truncates toward zero (the rounding used when a real-valued
//! position is converted to an integer coordinate) and clamping into the
//! pixel type's range.

use vstd::prelude::*;
use vstd::arithmetic::div_mod::{
    lemma_div_nonincreasing, lemma_div_pos_is_pos, lemma_fundamental_div_mod,
    lemma_fundamental_div_mod_converse,
};

verus! {

/// Quotient of `x / d` rounded toward zero (the convention of a real-to-int
/// conversion), as opposed to the Euclidean `/` of spec arithmetic.
/// Defined as `0` when `d == 0` so that the function is total; callers guard
/// the degenerate divisor themselves.
pub open spec fn trunc_div(x: int, d: int) -> int {
    if d == 0 {
        0
    } else if x >= 0 && d > 0 {
        x / d
    } else if x < 0 && d < 0 {
        (-x) / (-d)
    } else if x < 0 {
        -((-x) / d)
    } else {
        -(x / (-d))
    }
}

/// A position clamped into the representable pixel range.
pub open spec fn clamp_to_i32(x: int) -> i32 {
    if x < i32::MIN {
        i32::MIN
    } else if x > i32::MAX {
        i32::MAX
    } else {
        x as i32
    }
}

/// The magnitude of a truncated quotient never exceeds the dividend's.
pub proof fn lemma_trunc_div_bound(x: int, d: int)
    requires
        d != 0,
    ensures
        x >= 0 ==> -x <= trunc_div(x, d) <= x,
        x < 0 ==> x <= trunc_div(x, d) <= -x,
{
    if x >= 0 && d > 0 {
        lemma_div_pos_is_pos(x, d);
        lemma_div_nonincreasing(x, d);
    } else if x < 0 && d < 0 {
        lemma_div_pos_is_pos(-x, -d);
        lemma_div_nonincreasing(-x, -d);
    } else if x < 0 {
        lemma_div_pos_is_pos(-x, d);
        lemma_div_nonincreasing(-x, d);
    } else {
        lemma_div_pos_is_pos(x, -d);
        lemma_div_nonincreasing(x, -d);
    }
}

/// When the divisor divides the dividend evenly, truncating division is
/// exact: every rounding convention agrees on the quotient.
pub proof fn lemma_trunc_div_exact(x: int, d: int)
    requires
        d != 0,
        x % d == 0,
    ensures
        d * trunc_div(x, d) == x,
{
    lemma_fundamental_div_mod(x, d);
    let q = x / d;
    if x >= 0 && d > 0 {
    } else if x < 0 && d < 0 {
        assert(-x == q * (-d) + 0) by (nonlinear_arith)
            requires
                x == d * q + 0,
        ;
        lemma_fundamental_div_mod_converse(-x, -d, q, 0);
    } else if x < 0 {
        assert(-x == (-q) * d + 0) by (nonlinear_arith)
            requires
                x == d * q + 0,
        ;
        lemma_fundamental_div_mod_converse(-x, d, -q, 0);
    } else {
        assert(x == (-q) * (-d) + 0) by (nonlinear_arith)
            requires
                x == d * q + 0,
        ;
        lemma_fundamental_div_mod_converse(x, -d, -q, 0);
    }
}

/// Products of interval-bounded factors stay inside the product interval.
pub proof fn lemma_mul_interval(x: int, y: int, xb: int, yb: int)
    requires
        0 <= xb,
        0 <= yb,
        -xb <= x <= xb,
        -yb <= y <= yb,
    ensures
        -(xb * yb) <= x * y <= xb * yb,
{
    assert(-(xb * yb) <= x * y <= xb * yb) by (nonlinear_arith)
        requires
            0 <= xb,
            0 <= yb,
            -xb <= x <= xb,
            -yb <= y <= yb,
    ;
}

/// Division of `i128` values, truncating toward zero, verified against
/// `trunc_div`. The dividend must be above `i128::MIN` so that the one
/// overflowing quotient (`i128::MIN / -1`) cannot arise.
pub fn div_trunc_i128(n: i128, d: i128) -> (q: i128)
    requires
        d != 0,
        i128::MIN < n,
    ensures
        q == trunc_div(n as int, d as int),
{
    proof {
        lemma_trunc_div_bound(n as int, d as int);
    }
    match n.checked_div(d) {
        Some(q) => q,
        None => {
            // unreachable: the quotient's magnitude is at most the dividend's
            proof {
                assert(false);
            }
            0
        },
    }
}

} // verus!
