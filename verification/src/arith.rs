//! Checked, floor-rounded `a * b / d` on `i128`, and the integer vocabulary
//! that every contract in this crate is stated in.

use vstd::prelude::*;
use vstd::arithmetic::div_mod::*;

verus! {

/// Failure of a fixed-point computation.
#[derive(Clone, Copy, Debug, PartialEq, Eq, Structural)]
pub enum MathError {
    /// An intermediate value left the `i128` range.
    Overflow,
    /// A divisor was zero (or a price that must be positive was not).
    DivByZero,
}

/// `x` is representable as an `i128`.
pub open spec fn fits_i128(x: int) -> bool {
    i128::MIN <= x <= i128::MAX
}

/// Mathematical floor of `x / d` (for `d != 0`).
pub open spec fn floor_div(x: int, d: int) -> int {
    if d > 0 { x / d } else { (-x) / (-d) }
}

/// Rust's `/` on signed integers: the quotient rounded toward zero (for `d > 0`).
pub open spec fn trunc_div(x: int, d: int) -> int {
    if x >= 0 { x / d } else { -((-x) / d) }
}

/// What `mul_div_floor(a, b, d)` returns.
pub open spec fn mul_div_floor_spec(a: int, b: int, d: int) -> Result<i128, MathError> {
    if d == 0 {
        Err(MathError::DivByZero)
    } else if !fits_i128(a * b) {
        Err(MathError::Overflow)
    } else {
        Ok(floor_div(a * b, d) as i128)
    }
}

/// The one input on which `mul_div_floor` cannot complete: `i128::MIN / -1`.
pub open spec fn mul_div_floor_traps(a: int, b: int, d: int) -> bool {
    d == -1 && a * b == i128::MIN
}

/// Floor division of a negated non-negative number by a positive one.
proof fn lemma_floor_of_negated(y: int, m: int)
    requires
        y >= 0,
        m > 0,
    ensures
        (-y) / m == if y % m == 0 { -(y / m) } else { -(y / m) - 1 },
        m == 1 ==> y % m == 0,
{
    lemma_fundamental_div_mod(y, m);
    lemma_mod_bound(y, m);
    let q = y / m;
    let r = y % m;
    if r == 0 {
        assert(-y == (-q) * m + 0) by (nonlinear_arith)
            requires
                y == m * q + r,
                r == 0,
        ;
        lemma_fundamental_div_mod_converse_div(-y, m, -q, 0);
    } else {
        assert(-y == (-q - 1) * m + (m - r)) by (nonlinear_arith)
            requires
                y == m * q + r,
        ;
        lemma_fundamental_div_mod_converse_div(-y, m, -q - 1, m - r);
    }
    if m == 1 {
        lemma_fundamental_div_mod_converse_mod(y, 1, y, 0);
    }
}

/// Bounds on a quotient of a non-negative number by a positive one.
proof fn lemma_quotient_bounds(y: int, m: int)
    requires
        y >= 0,
        m >= 1,
    ensures
        0 <= y / m <= y,
        m >= 2 ==> y / m <= y / 2,
        y / 2 <= y - y / 2,
{
    lemma_div_pos_is_pos(y, m);
    lemma_div_is_ordered_by_denominator(y, 1, m);
    lemma_fundamental_div_mod_converse_div(y, 1, y, 0);
    if m >= 2 {
        lemma_div_is_ordered_by_denominator(y, 2, m);
    }
    lemma_fundamental_div_mod(y, 2);
    lemma_mod_bound(y, 2);
}

/// A floor quotient by a divisor other than `-1` (or of a value other than
/// `i128::MIN`) stays within `i128`.
proof fn lemma_floor_div_fits(x: int, d: int)
    requires
        fits_i128(x),
        d != 0,
        !(d == -1 && x == i128::MIN),
    ensures
        fits_i128(floor_div(x, d)),
{
    if d > 0 {
        if x >= 0 {
            lemma_quotient_bounds(x, d);
        } else {
            lemma_floor_of_negated(-x, d);
            lemma_quotient_bounds(-x, d);
        }
    } else {
        if x <= 0 {
            lemma_quotient_bounds(-x, -d);
        } else {
            lemma_floor_of_negated(x, -d);
            lemma_quotient_bounds(x, -d);
        }
    }
}

/// Floor-rounded `(a * b) / denom` with a checked multiply.
///
/// Returns `Err(DivByZero)` when `denom == 0`, `Err(Overflow)` when the product
/// leaves `i128`, and otherwise the floor of the exact quotient (rounding toward
/// negative infinity, also for negative products and divisors).
pub fn mul_div_floor(a: i128, b: i128, denom: i128) -> (r: Result<i128, MathError>)
    requires
        !mul_div_floor_traps(a as int, b as int, denom as int),
    ensures
        denom == 0 ==> r == Err::<i128, MathError>(MathError::DivByZero),
        denom != 0 && !fits_i128(a * b) ==> r == Err::<i128, MathError>(MathError::Overflow),
        denom != 0 && fits_i128(a * b) ==> r == Ok::<i128, MathError>(floor_div(a * b, denom as int) as i128),
        r matches Ok(q) ==> q == floor_div(a * b, denom as int),
{
    if denom == 0 {
        return Err(MathError::DivByZero);
    }
    let prod = a.checked_mul(b).ok_or(MathError::Overflow)?;
    proof {
        let x = prod as int;
        let d = denom as int;
        lemma_quotient_bounds(if x >= 0 { x } else { -x }, if d >= 0 { d } else { -d });
    }
    let q = match prod.checked_div(denom) {
        Some(q) => q,
        None => return Err(MathError::Overflow),
    };
    let r = match prod.checked_rem(denom) {
        Some(r) => r,
        None => return Err(MathError::Overflow),
    };
    proof {
        lemma_floor_div_fits(prod as int, denom as int);
        let x = prod as int;
        let d = denom as int;
        if x > 0 && d < 0 {
            lemma_floor_of_negated(x, -d);
        } else if x < 0 && d > 0 {
            lemma_floor_of_negated(-x, d);
        }
    }
    if (r != 0) && ((r < 0) != (denom < 0)) {
        Ok(q.checked_sub(1).ok_or(MathError::Overflow)?)
    } else {
        Ok(q)
    }
}

/// Whether `mul_div_floor(a, b, denom)` would have to divide `i128::MIN` by `-1`.
pub fn mul_div_floor_would_trap(a: i128, b: i128, denom: i128) -> (r: bool)
    ensures
        r == mul_div_floor_traps(a as int, b as int, denom as int),
{
    if denom != -1 {
        return false;
    }
    match a.checked_mul(b) {
        Some(p) => p == i128::MIN,
        None => false,
    }
}

/// `mul_div_floor` rounds toward negative infinity: for a positive divisor the
/// quotient `q` brackets the exact product, `q * d <= a * b < q * d + d`.
pub proof fn lemma_mul_div_floor_brackets(a: i128, b: i128, d: i128)
    requires
        d > 0,
        fits_i128(a * b),
    ensures
        mul_div_floor_spec(a as int, b as int, d as int) matches Ok(q) && q * d <= a * b < q * d + d,
{
    lemma_floor_div_fits(a * b, d as int);
    lemma_fundamental_div_mod(a * b, d as int);
    lemma_mod_bound(a * b, d as int);
    let q = (a * b) / (d as int);
    assert(q * d == d * q) by (nonlinear_arith);
}

/// Rust's truncating division by a positive divisor is monotonic.
pub proof fn lemma_trunc_div_monotonic(x: int, y: int, d: int)
    requires
        x <= y,
        d > 0,
    ensures
        trunc_div(x, d) <= trunc_div(y, d),
{
    if x >= 0 {
        lemma_div_is_ordered(x, y, d);
    } else if y < 0 {
        lemma_div_is_ordered(-y, -x, d);
    } else {
        lemma_div_pos_is_pos(-x, d);
        lemma_div_pos_is_pos(y, d);
    }
}

/// Floor division by a positive divisor is monotonic.
pub proof fn lemma_floor_div_monotonic(x: int, y: int, d: int)
    requires
        x <= y,
        d > 0,
    ensures
        floor_div(x, d) <= floor_div(y, d),
{
    lemma_div_is_ordered(x, y, d);
}

} // verus!
