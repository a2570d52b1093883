//! Escape-time evaluator: how many steps the orbit of a complex-plane point
//! under `z -> z*z + c` takes to leave the escape circle.

use vstd::prelude::*;
use crate::fixed::{COORD_BOUND, SCALE, div_scale, lemma_tdiv_bound, lemma_tdiv_exact,
    lemma_tdiv_mono, tdiv};

verus! {

/// Magnitude bound that every orbit iterate respects while it has not yet
/// escaped: at most `threshold^2` in units plus the added constant.
pub const ORBIT_BOUND: i64 = 0x400_0000_0000_0000;

/// Real part of one step of the map: `re(z*z + c)` on the fixed-point grid.
pub open spec fn step_re(x: int, y: int, cx: int) -> int {
    tdiv(x * x, SCALE as int) - tdiv(y * y, SCALE as int) + cx
}

/// Imaginary part of one step of the map: `im(z*z + c)` on the fixed-point
/// grid.
pub open spec fn step_im(x: int, y: int, cy: int) -> int {
    2 * tdiv(x * y, SCALE as int) + cy
}

/// The orbit of the origin under `z -> z*z + c`, `i` steps in.
pub open spec fn orbit(cx: int, cy: int, i: nat) -> (int, int)
    decreases i,
{
    if i == 0 {
        (0int, 0int)
    } else {
        let z = orbit(cx, cy, (i - 1) as nat);
        (step_re(z.0, z.1, cx), step_im(z.0, z.1, cy))
    }
}

/// Whether the orbit stands outside the escape circle at step `i`:
/// `|z_i|^2 > threshold^2` (both sides carry the squared fixed-point scale).
pub open spec fn escaped_at(cx: int, cy: int, t: int, i: nat) -> bool {
    let z = orbit(cx, cy, i);
    z.0 * z.0 + z.1 * z.1 > t * t
}

/// First step in `[i, max]` at which the orbit stands escaped, 0 when none
/// does.
pub open spec fn escape_from(cx: int, cy: int, t: int, i: nat, max: nat) -> nat
    decreases max + 1 - i,
{
    if i > max {
        0
    } else if escaped_at(cx, cy, t, i) {
        i
    } else {
        escape_from(cx, cy, t, (i + 1) as nat, max)
    }
}

/// The escape count of a point: the first step within the budget at which
/// its orbit leaves the escape circle, or 0 when it never does.
pub open spec fn escape_count(cx: int, cy: int, max: nat, t: int) -> nat {
    escape_from(cx, cy, t, 0, max)
}

/// At step 0 the orbit sits at the origin, inside every escape circle.
proof fn lemma_not_escaped_at_zero(cx: int, cy: int, t: int)
    ensures
        !escaped_at(cx, cy, t, 0),
{
    assert(t * t >= 0) by (nonlinear_arith);
}

/// If the orbit first escapes at step `e`, the search from any earlier step
/// lands on `e`.
proof fn lemma_escape_from_found(cx: int, cy: int, t: int, i0: nat, e: nat, max: nat)
    requires
        i0 <= e <= max,
        escaped_at(cx, cy, t, e),
        forall|j: nat| i0 <= j < e ==> !escaped_at(cx, cy, t, j),
    ensures
        escape_from(cx, cy, t, i0, max) == e,
    decreases e - i0,
{
    if i0 < e {
        assert(!escaped_at(cx, cy, t, i0));
        lemma_escape_from_found(cx, cy, t, (i0 + 1) as nat, e, max);
    }
}

/// If the orbit escapes nowhere in `[i0, max]`, the search reports 0.
proof fn lemma_escape_from_none(cx: int, cy: int, t: int, i0: nat, max: nat)
    requires
        forall|j: nat| i0 <= j <= max ==> !escaped_at(cx, cy, t, j),
    ensures
        escape_from(cx, cy, t, i0, max) == 0,
    decreases max + 1 - i0,
{
    if i0 <= max {
        lemma_escape_from_none(cx, cy, t, (i0 + 1) as nat, max);
    }
}

/// What a nonzero escape count means: the orbit stands escaped there and
/// nowhere earlier; a zero count means it never escapes within the budget.
pub proof fn lemma_escape_count_props(cx: int, cy: int, t: int, i0: nat, max: nat)
    ensures
        ({
            let e = escape_from(cx, cy, t, i0, max);
            ||| (e == 0 && forall|j: nat| i0 <= j <= max ==> !escaped_at(cx, cy, t, j))
            ||| (i0 <= e <= max && e >= 1 && escaped_at(cx, cy, t, e)
                && forall|j: nat| i0 <= j < e ==> !escaped_at(cx, cy, t, j))
        }),
    decreases max + 1 - i0,
{
    lemma_not_escaped_at_zero(cx, cy, t);
    if i0 > max {
    } else if escaped_at(cx, cy, t, i0) {
    } else {
        lemma_escape_count_props(cx, cy, t, (i0 + 1) as nat, max);
    }
}

/// The origin never escapes: its orbit stays pinned at zero, so the escape
/// count is 0 for every budget and threshold.
pub proof fn lemma_origin_never_escapes(n: nat, t: int)
    ensures
        escape_count(0, 0, n, t) == 0,
{
    assert forall|j: nat| 0 <= j <= n implies !escaped_at(0, 0, t, j) by {
        lemma_orbit_origin(j);
        assert(t * t >= 0) by (nonlinear_arith);
    }
    lemma_escape_from_none(0, 0, t, 0, n);
}

/// The orbit of the origin under `c == 0` never moves.
proof fn lemma_orbit_origin(i: nat)
    ensures
        orbit(0, 0, i) == (0int, 0int),
    decreases i,
{
    if i > 0 {
        lemma_orbit_origin((i - 1) as nat);
        lemma_tdiv_exact(0, SCALE as int);
    }
}

/// The escape count is monotone in the iteration budget, and once nonzero it
/// stays at the same value under every larger budget.
pub proof fn lemma_escape_monotone(cx: int, cy: int, t: int, n1: nat, n2: nat)
    requires
        n1 <= n2,
    ensures
        escape_count(cx, cy, n1, t) <= escape_count(cx, cy, n2, t),
        escape_count(cx, cy, n1, t) != 0 ==> escape_count(cx, cy, n2, t) == escape_count(cx, cy, n1, t),
{
    let e1 = escape_count(cx, cy, n1, t);
    lemma_escape_count_props(cx, cy, t, 0, n1);
    if e1 != 0 {
        lemma_escape_from_found(cx, cy, t, 0, e1, n2);
    }
}

/// Escape count of the point `cx + cy*i`: the step at which the orbit first
/// leaves the circle of radius `threshold`, or 0 when it stays inside for
/// the whole budget.
pub fn escape_iterations(cx: i64, cy: i64, max_iterations: usize, threshold: i64) -> (r: usize)
    requires
        -COORD_BOUND <= cx <= COORD_BOUND,
        -COORD_BOUND <= cy <= COORD_BOUND,
        0 < threshold <= COORD_BOUND,
        max_iterations < usize::MAX,
    ensures
        r == escape_count(cx as int, cy as int, max_iterations as nat, threshold as int),
        r <= max_iterations,
{
    let mut x: i64 = 0;
    let mut y: i64 = 0;
    let mut i: usize = 0;
    while i <= max_iterations
        invariant
            i <= max_iterations + 1,
            -ORBIT_BOUND <= x <= ORBIT_BOUND,
            -ORBIT_BOUND <= y <= ORBIT_BOUND,
            orbit(cx as int, cy as int, i as nat).0 == x as int,
            orbit(cx as int, cy as int, i as nat).1 == y as int,
            forall|j: nat| j < i ==> !escaped_at(cx as int, cy as int, threshold as int, j),
            -COORD_BOUND <= cx <= COORD_BOUND,
            -COORD_BOUND <= cy <= COORD_BOUND,
            0 < threshold <= COORD_BOUND,
            max_iterations < usize::MAX,
        decreases max_iterations + 1 - i,
    {
        proof {
            assert(0 <= (x as int) * (x as int) <= 0x10_0000_0000_0000_0000_0000_0000_0000
                && 0 <= (y as int) * (y as int) <= 0x10_0000_0000_0000_0000_0000_0000_0000)
                by (nonlinear_arith)
                requires
                    -0x400_0000_0000_0000 <= x as int <= 0x400_0000_0000_0000,
                    -0x400_0000_0000_0000 <= y as int <= 0x400_0000_0000_0000,
            ;
            assert(0 <= (threshold as int) * (threshold as int) <= 0x1_0000_0000_0000_0000_0000)
                by (nonlinear_arith)
                requires
                    0 < threshold as int <= 0x100_0000_0000,
            ;
        }
        let xx: i128 = (x as i128) * (x as i128);
        let yy: i128 = (y as i128) * (y as i128);
        let tt: i128 = (threshold as i128) * (threshold as i128);
        if xx + yy > tt {
            proof {
                lemma_escape_from_found(cx as int, cy as int, threshold as int, 0, i as nat,
                    max_iterations as nat);
            }
            return i;
        }
        proof {
            assert(-((threshold as int) * (threshold as int)) <= (x as int) * (y as int)
                <= (threshold as int) * (threshold as int)) by (nonlinear_arith)
                requires
                    (x as int) * (x as int) + (y as int) * (y as int)
                        <= (threshold as int) * (threshold as int),
            ;
            lemma_tdiv_bound(xx as int, SCALE as int, 0x100_0000_0000_0000);
            lemma_tdiv_bound(yy as int, SCALE as int, 0x100_0000_0000_0000);
            lemma_tdiv_bound((x as int) * (y as int), SCALE as int, 0x100_0000_0000_0000);
        }
        let xy: i128 = (x as i128) * (y as i128);
        let x2: i64 = div_scale(xx);
        let y2: i64 = div_scale(yy);
        let xys: i64 = div_scale(xy);
        let nx: i64 = x2 - y2 + cx;
        let ny: i64 = 2 * xys + cy;
        x = nx;
        y = ny;
        i = i + 1;
    }
    proof {
        assert forall|j: nat| 0 <= j <= max_iterations as nat
            implies !escaped_at(cx as int, cy as int, threshold as int, j) by {
            assert(j < i as nat);
        }
        lemma_escape_from_none(cx as int, cy as int, threshold as int, 0, max_iterations as nat);
    }
    0
}

} // verus!
