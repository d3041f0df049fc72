//! The arithmetic of the two-operand operations, on integers without bounds
//! and on stack values.

use vstd::prelude::*;
use vstd::arithmetic::div_mod::{lemma_div_pos_is_pos, lemma_fundamental_div_mod, lemma_mod_bound};
use vstd::math::abs;
use crate::opcode::Opcode;
use crate::outcome::Outcome;

verus! {

/// Whether a mathematical result can be held in a stack slot.
pub open spec fn fits(v: int) -> bool {
    i32::MIN <= v <= i32::MAX
}

/// The quotient of `l` by `r`, rounded toward zero.
pub open spec fn quotient(l: int, r: int) -> int
    recommends
        r != 0,
{
    let magnitude = abs(l) as int / abs(r) as int;
    if (l < 0) == (r < 0) {
        magnitude
    } else {
        -magnitude
    }
}

/// What a two-operand operation makes of its left and right operand, as
/// integers without bounds. CMP is the difference, as SUB is.
pub open spec fn exact(op: Opcode, l: int, r: int) -> int
    recommends
        op.is_binary(),
{
    match op {
        Opcode::Add => l + r,
        Opcode::Mul => l * r,
        Opcode::Div => quotient(l, r),
        _ => l - r,
    }
}

/// The result of a two-operand operation on stack values: the exact result
/// where it fits, otherwise the fault that says why there is none.
pub open spec fn compute(op: Opcode, l: i32, r: i32) -> Result<i32, Outcome>
    recommends
        op.is_binary(),
{
    if op is Div && r == 0 {
        Err(Outcome::DivideByZero)
    } else if fits(exact(op, l as int, r as int)) {
        Ok(exact(op, l as int, r as int) as i32)
    } else {
        Err(Outcome::Overflow)
    }
}

/// The quotient is the largest magnitude whose product with the divisor's
/// stays within the dividend's.
pub proof fn lemma_quotient_bounds(l: int, r: int)
    requires
        r != 0,
    ensures
        abs(quotient(l, r)) <= abs(l),
        abs(quotient(l, r)) * abs(r) <= abs(l),
        abs(l) < (abs(quotient(l, r)) + 1) * abs(r),
{
    let n = abs(l) as int;
    let d = abs(r) as int;
    lemma_fundamental_div_mod(n, d);
    lemma_mod_bound(n, d);
    lemma_div_pos_is_pos(n, d);
    assert((n / d) * d <= n) by (nonlinear_arith)
        requires
            n == d * (n / d) + n % d,
            0 <= n % d,
    ;
    assert(n < (n / d + 1) * d) by (nonlinear_arith)
        requires
            n == d * (n / d) + n % d,
            n % d < d,
    ;
    assert(n / d <= n) by (nonlinear_arith)
        requires
            (n / d) * d <= n,
            d >= 1,
            n / d >= 0,
    ;
}

/// Only the smallest value divided by minus one has a quotient that does
/// not fit.
pub proof fn lemma_quotient_fits(l: i32, r: i32)
    requires
        r != 0,
    ensures
        fits(quotient(l as int, r as int)) <==> !(l == i32::MIN && r == -1),
{
    lemma_quotient_bounds(l as int, r as int);
    let q = abs(quotient(l as int, r as int)) as int;
    let d = abs(r as int) as int;
    if q == 0x8000_0000 {
        assert(d <= 1) by (nonlinear_arith)
            requires
                q * d <= 0x8000_0000,
                q == 0x8000_0000,
        ;
    }
    if l == i32::MIN && r == -1 {
        assert(0x8000_0000int / 1 == 0x8000_0000int);
    }
}

} // verus!
