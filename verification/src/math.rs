//! Integer helpers shared by the projection and the playback clock.
//!
//! Every quantity in this crate is an exact integer. Where a formula divides,
//! it rounds towards negative infinity, which for a positive divisor is the
//! `/` of specifications.

use vstd::prelude::*;

verus! {

/// The largest magnitude that [`div_floor`] and [`mod_floor`] accept for a
/// dividend. It leaves room for the quotient and for one more multiplication
/// by the divisor.
pub open spec fn dividend_limit() -> int {
    0x4000_0000_0000_0000_0000_0000_0000_0000
}

/// Quotient of `a` by a positive `b`, rounded towards negative infinity.
pub fn div_floor(a: i128, b: i128) -> (q: i128)
    requires
        b > 0,
        -dividend_limit() <= a <= dividend_limit(),
    ensures
        q == a as int / b as int,
        a >= 0 ==> 0 <= q <= a,
        a < 0 ==> a <= q < 0,
{
    if a >= 0 {
        let q: i128 = a / b;
        proof {
            vstd::arithmetic::div_mod::lemma_div_nonincreasing(a as int, b as int);
            vstd::arithmetic::div_mod::lemma_div_pos_is_pos(a as int, b as int);
        }
        q
    } else {
        let n: i128 = -(a + 1);
        let m: i128 = n / b;
        proof {
            let ai: int = a as int;
            let bi: int = b as int;
            let ni: int = n as int;
            vstd::arithmetic::div_mod::lemma_div_nonincreasing(ni, bi);
            vstd::arithmetic::div_mod::lemma_div_pos_is_pos(ni, bi);
            vstd::arithmetic::div_mod::lemma_fundamental_div_mod(ni, bi);
            vstd::arithmetic::div_mod::lemma_mod_bound(ni, bi);
            // a = -n - 1 = -(b * m + r) - 1 = b * (-m - 1) + (b - 1 - r)
            let r: int = ni % bi;
            assert(ai == bi * (-(m as int) - 1) + (bi - 1 - r)) by (nonlinear_arith)
                requires
                    ni == bi * (m as int) + r,
                    ai == -ni - 1,
            ;
            vstd::arithmetic::div_mod::lemma_fundamental_div_mod_converse(
                ai,
                bi,
                -(m as int) - 1,
                bi - 1 - r,
            );
        }
        -m - 1
    }
}

/// Remainder of `a` by a positive `b`, always in `0..b`.
pub fn mod_floor(a: i128, b: i128) -> (r: i128)
    requires
        0 < b <= dividend_limit(),
        -dividend_limit() <= a <= dividend_limit(),
    ensures
        r == a as int % b as int,
        0 <= r < b,
{
    let q: i128 = div_floor(a, b);
    proof {
        vstd::arithmetic::div_mod::lemma_fundamental_div_mod(a as int, b as int);
        vstd::arithmetic::div_mod::lemma_mod_bound(a as int, b as int);
        assert(q as int * b as int == a as int - a as int % b as int) by (nonlinear_arith)
            requires
                a as int == b as int * (a as int / b as int) + a as int % b as int,
                q as int == a as int / b as int,
        ;
    }
    a - q * b
}

/// The value of `v` cut to the range of `i64`.
pub open spec fn clamp_i64(v: int) -> int {
    if v < i64::MIN {
        i64::MIN as int
    } else if v > i64::MAX {
        i64::MAX as int
    } else {
        v
    }
}

/// Cuts `v` to the range of `i64`.
pub fn saturate_i64(v: i128) -> (r: i64)
    ensures
        r == clamp_i64(v as int),
{
    if v < -0x8000_0000_0000_0000i128 {
        i64::MIN
    } else if v > 0x7fff_ffff_ffff_ffffi128 {
        i64::MAX
    } else {
        v as i64
    }
}

} // verus!
