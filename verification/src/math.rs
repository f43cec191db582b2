//! Exact integer arithmetic helpers shared by the signal-processing code.

use vstd::prelude::*;

verus! {

/// Absolute value of a mathematical integer.
pub open spec fn abs_int(a: int) -> int {
    if a >= 0 {
        a
    } else {
        -a
    }
}

/// Division truncating toward zero, the rounding machine division uses.
pub open spec fn div_trunc(a: int, b: int) -> int
    recommends
        b != 0,
{
    if (a >= 0) == (b >= 0) {
        abs_int(a) / abs_int(b)
    } else {
        -(abs_int(a) / abs_int(b))
    }
}

/// `a / b` truncated toward zero, computed without overflow.
pub fn div_trunc_i64(a: i64, b: i64) -> (q: i64)
    requires
        b != 0,
        !(a == i64::MIN && b == -1),
    ensures
        q as int == div_trunc(a as int, b as int),
{
    let na: u128 = if a >= 0 {
        a as u128
    } else {
        (-(a as i128)) as u128
    };
    let nb: u128 = if b >= 0 {
        b as u128
    } else {
        (-(b as i128)) as u128
    };
    let qm: u128 = na / nb;
    proof {
        assert(na == abs_int(a as int));
        assert(nb == abs_int(b as int));
        vstd::arithmetic::div_mod::lemma_div_nonincreasing(na as int, nb as int);
        assert(qm <= na);
        if (a >= 0) == (b >= 0) {
            if b >= 0 {
                assert(na <= i64::MAX);
            } else if b == -1 {
                assert(na <= i64::MAX);
            } else {
                assert(nb >= 2);
                vstd::arithmetic::div_mod::lemma_div_is_ordered_by_denominator(na as int, 2, nb as int);
                vstd::arithmetic::div_mod::lemma_div_is_ordered(na as int, 0x1_0000_0000_0000_0000, 2);
                assert(qm <= i64::MAX);
            }
        }
    }
    if (a >= 0) == (b >= 0) {
        qm as i64
    } else {
        (-(qm as i128)) as i64
    }
}

/// Dividing any nonzero value by itself truncates to exactly one.
pub proof fn lemma_div_trunc_self(a: int)
    requires
        a != 0,
    ensures
        div_trunc(a, a) == 1,
{
    vstd::arithmetic::div_mod::lemma_div_by_self(abs_int(a));
}

} // verus!
