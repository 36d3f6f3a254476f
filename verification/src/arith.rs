//! Saturating arithmetic and rounding.

use vstd::prelude::*;

verus! {

/// `n`, or `max` where `n` is larger.
pub open spec fn capped(n: int, max: int) -> int {
    if n <= max {
        n
    } else {
        max
    }
}

proof fn lemma_product_bound(a: int, b: int, max: int)
    requires
        0 <= a <= max,
        0 <= b <= max,
    ensures
        0 <= a * b <= max * max,
{
    assert(0 <= a * b <= max * max) by (nonlinear_arith)
        requires
            0 <= a <= max,
            0 <= b <= max,
    ;
}

/// The product, or `u32::MAX` where it is larger.
pub fn saturating_mul_u32(a: u32, b: u32) -> (r: u32)
    ensures
        r == capped(a * b, u32::MAX as int),
{
    proof {
        lemma_product_bound(a as int, b as int, u32::MAX as int);
    }
    let p: u64 = a as u64 * b as u64;
    if p <= u32::MAX as u64 {
        p as u32
    } else {
        u32::MAX
    }
}

/// The product, or `usize::MAX` where it is larger.
pub fn saturating_mul_usize(a: usize, b: usize) -> (r: usize)
    ensures
        r == capped(a * b, usize::MAX as int),
{
    proof {
        lemma_product_bound(a as int, b as int, u64::MAX as int);
    }
    let p: u128 = a as u128 * b as u128;
    if p <= usize::MAX as u128 {
        p as usize
    } else {
        usize::MAX
    }
}

/// The quotient rounded up.
pub open spec fn ceil_div(a: int, b: int) -> int {
    (a + b - 1) / b
}

/// The next multiple of sixteen.
pub open spec fn align16(n: int) -> int {
    ceil_div(n, 16) * 16
}

/// A capped number is the largest that exceeds neither the number nor the cap.
pub proof fn law_capped(n: int, max: int, m: int)
    ensures
        capped(n, max) <= n,
        capped(n, max) <= max,
        m <= n && m <= max ==> m <= capped(n, max),
{
}

/// The quotient rounded up is the smallest number of parts that hold everything.
pub proof fn law_rounding_up(a: int, b: int)
    requires
        b > 0,
    ensures
        ceil_div(a, b) * b >= a,
        (ceil_div(a, b) - 1) * b < a,
        align16(a) % 16 == 0,
        a <= align16(a) < a + 16,
{
    let q = ceil_div(a, b);
    vstd::arithmetic::div_mod::lemma_fundamental_div_mod(a + b - 1, b);
    assert(q * b >= a && (q - 1) * b < a) by (nonlinear_arith)
        requires
            a + b - 1 == b * q + (a + b - 1) % b,
            0 <= (a + b - 1) % b < b,
    ;
}

} // verus!
