//! Fixed-point scalars: an `i64` counting multiples of `1/SCALE`.
//!
//! All products are formed in `i128` and brought back to the `i64` grid by a
//! division that rounds toward zero, the spec-level model of which is `tdiv`.

use vstd::prelude::*;

verus! {

use vstd::arithmetic::div_mod::{lemma_div_is_ordered, lemma_div_pos_is_pos, lemma_div_multiples_vanish};

/// Number of fixed-point steps per unit: a coordinate `x` stands for the
/// rational `x / SCALE`.
pub const SCALE: i64 = 16777216;

/// Largest magnitude allowed for a complex-plane coordinate or an escape
/// threshold (65536.0 in units): keeps every intermediate product of the
/// escape iteration inside `i128` and every iterate inside `i64`.
pub const COORD_BOUND: i64 = 0x100_0000_0000;

/// Division rounding toward zero (the rounding of the fixed-point grid);
/// meaningful for `b > 0`.
pub open spec fn tdiv(a: int, b: int) -> int {
    if a >= 0 {
        a / b
    } else {
        -((-a) / b)
    }
}

/// Truncating division is monotone in the dividend.
pub proof fn lemma_tdiv_mono(a1: int, a2: int, b: int)
    requires
        0 < b,
        a1 <= a2,
    ensures
        tdiv(a1, b) <= tdiv(a2, b),
{
    if a1 >= 0 {
        lemma_div_is_ordered(a1, a2, b);
    } else if a2 < 0 {
        lemma_div_is_ordered(-a2, -a1, b);
    } else {
        lemma_div_pos_is_pos(-a1, b);
        lemma_div_pos_is_pos(a2, b);
    }
}

/// Dividing an exact multiple is exact.
pub proof fn lemma_tdiv_exact(k: int, b: int)
    requires
        0 < b,
    ensures
        tdiv(b * k, b) == k,
{
    if k >= 0 {
        lemma_div_multiples_vanish(k, b);
    } else {
        lemma_div_multiples_vanish(-k, b);
        assert(-(b * k) == b * (-k)) by (nonlinear_arith);
    }
}

/// A magnitude bound on the dividend carries over to the quotient.
pub proof fn lemma_tdiv_bound(a: int, b: int, m: int)
    requires
        0 < b,
        0 <= m,
        -(b * m) <= a <= b * m,
    ensures
        -m <= tdiv(a, b) <= m,
{
    lemma_tdiv_mono(-(b * m), a, b);
    lemma_tdiv_mono(a, b * m, b);
    lemma_tdiv_exact(m, b);
    lemma_tdiv_exact(-m, b);
    assert(b * (-m) == -(b * m)) by (nonlinear_arith);
}

/// `a / b` rounded toward zero, for a positive divisor; the quotient must be
/// known to stay within `QUOT_BOUND`.
pub const QUOT_BOUND: i64 = 0x200_0000_0000;

/// Brings a fixed-point product back to the `i64` grid: `a / SCALE` rounded
/// toward zero.
pub fn div_scale(a: i128) -> (r: i64)
    requires
        -0x1_0000_0000_0000_0000_0000 <= a <= 0x1_0000_0000_0000_0000_0000,
    ensures
        r as int == tdiv(a as int, SCALE as int),
        -0x100_0000_0000_0000 <= r <= 0x100_0000_0000_0000,
{
    proof {
        lemma_tdiv_bound(a as int, SCALE as int, 0x100_0000_0000_0000);
    }
    if a >= 0 {
        ((a as u128) / (SCALE as u128)) as i64
    } else {
        let q: u128 = ((-a) as u128) / (SCALE as u128);
        -(q as i64)
    }
}

/// Quarters a non-negative quantity, rounding down (used to halve a zoomed
/// span per axis).
pub fn div4(a: i64) -> (r: i64)
    requires
        0 <= a,
    ensures
        r as int == tdiv(a as int, 4),
        0 <= r <= a,
{
    proof {
        lemma_tdiv_bound(a as int, 4, a as int);
        lemma_div_pos_is_pos(a as int, 4);
    }
    ((a as u64) / 4) as i64
}

pub fn tdiv_i128(a: i128, b: i64) -> (r: i64)
    requires
        0 < b,
        -((b as int) * (QUOT_BOUND as int)) <= a as int <= (b as int) * (QUOT_BOUND as int),
    ensures
        r as int == tdiv(a as int, b as int),
        -QUOT_BOUND <= r <= QUOT_BOUND,
{
    proof {
        lemma_tdiv_bound(a as int, b as int, QUOT_BOUND as int);
    }
    if a >= 0 {
        let q: u128 = (a as u128) / (b as u128);
        proof {
            assert(q as int == (a as int) / (b as int));
        }
        q as i64
    } else {
        let q: u128 = ((-a) as u128) / (b as u128);
        proof {
            assert(q as int == (-(a as int)) / (b as int));
        }
        -(q as i64)
    }
}

} // verus!
