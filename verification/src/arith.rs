use vstd::prelude::*;

verus! {

/// Clamps a mathematical integer into the range of `i64`.
pub open spec fn clamp_i64(x: int) -> int {
    if x > i64::MAX {
        i64::MAX as int
    } else if x < i64::MIN {
        i64::MIN as int
    } else {
        x
    }
}

/// Saturating addition on `i64`: the exact sum, clamped to the type's range.
pub fn sat_add_i64(a: i64, b: i64) -> (r: i64)
    ensures
        r == clamp_i64(a + b),
{
    match a.checked_add(b) {
        Some(s) => s,
        None => {
            if b > 0 {
                i64::MAX
            } else {
                i64::MIN
            }
        },
    }
}

/// Saturating multiplication on `i64`: the exact product, clamped to the type's range.
pub fn sat_mul_i64(a: i64, b: i64) -> (r: i64)
    ensures
        r == clamp_i64(a * b),
{
    match a.checked_mul(b) {
        Some(p) => p,
        None => {
            if (a > 0) == (b > 0) {
                assert(a * b > 0) by (nonlinear_arith)
                    requires
                        (a > 0) == (b > 0),
                        a != 0,
                        b != 0,
                ;
                i64::MAX
            } else {
                assert(a * b < 0) by (nonlinear_arith)
                    requires
                        (a > 0) != (b > 0),
                        a != 0,
                        b != 0,
                ;
                i64::MIN
            }
        },
    }
}

/// A `usize` count as an `i64`, saturating at `i64::MAX`.
pub fn usize_to_i64_saturating(n: usize) -> (r: i64)
    ensures
        r == (if n <= i64::MAX { n as int } else { i64::MAX as int }),
{
    if (n as u64) <= (i64::MAX as u64) {
        n as i64
    } else {
        i64::MAX
    }
}

} // verus!

verus! {

/// Clamps a mathematical integer into the range of `usize`.
pub open spec fn clamp_usize(x: int) -> int {
    if x > usize::MAX {
        usize::MAX as int
    } else if x < 0 {
        0
    } else {
        x
    }
}

} // verus!
