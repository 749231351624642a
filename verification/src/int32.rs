//! Arithmetic on 32-bit signed integers as the machine and the lexer do it:
//! a result that does not fit wraps around.

use vstd::prelude::*;

verus! {

/// The 32-bit signed integer that is congruent to `i` modulo 2^32.
pub open spec fn wrap(i: int) -> i32 {
    let m = i % 0x1_0000_0000;
    if m > i32::MAX {
        (m - 0x1_0000_0000) as i32
    } else {
        m as i32
    }
}

/// The quotient of `l` by `r`, rounded toward zero, for a divisor other than 0.
pub open spec fn quotient(l: int, r: int) -> int {
    if l >= 0 && r > 0 {
        l / r
    } else if l >= 0 {
        -(l / (-r))
    } else if r > 0 {
        -((-l) / r)
    } else {
        (-l) / (-r)
    }
}

/// An integer that fits in 32 bits is not changed by wrapping.
pub proof fn lemma_wrap_exact(i: int)
    requires
        i32::MIN <= i <= i32::MAX,
    ensures
        wrap(i) == i,
{
}

/// Wrapping an intermediate result does not change the wrapped sum.
pub proof fn lemma_wrap_add(i: int, j: int)
    ensures
        wrap(wrap(i) + j) == wrap(i + j),
{
}

} // verus!
