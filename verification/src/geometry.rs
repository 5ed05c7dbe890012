//! Fixed-point plane geometry: points, floor division into grid tiles, and an
//! exact integer square root used by monster movement.

use vstd::prelude::*;

verus! {

/// One pixel of game space, in fixed-point coordinate units.
pub const PIXEL: i64 = 1000;

/// Largest absolute pixel-space coordinate (in units) the simulation admits.
/// Keeping every coordinate inside this band keeps all squared distances well
/// inside `i64`.
pub const COORD_LIMIT: i64 = 600_000_000;

/// Largest absolute grid (tile) index the simulation admits.
pub const TILE_LIMIT: i64 = 10_000;

/// A plane point in fixed-point units, or a pair of grid indices.
#[derive(Clone, Copy, PartialEq, Eq, Structural, Debug)]
pub struct Point {
    pub x: i64,
    pub y: i64,
}

/// The point lies inside the admitted pixel-space band.
pub open spec fn in_coord_range(p: Point) -> bool {
    &&& -COORD_LIMIT <= p.x <= COORD_LIMIT
    &&& -COORD_LIMIT <= p.y <= COORD_LIMIT
}

/// The point is a pair of admitted grid indices.
pub open spec fn in_tile_range(p: Point) -> bool {
    &&& -TILE_LIMIT <= p.x <= TILE_LIMIT
    &&& -TILE_LIMIT <= p.y <= TILE_LIMIT
}

/// Squared Euclidean distance between two points.
pub open spec fn dist_sq(a: Point, b: Point) -> int {
    (a.x - b.x) * (a.x - b.x) + (a.y - b.y) * (a.y - b.y)
}

/// Floor of the real square root of `n`.
pub open spec fn isqrt(n: nat) -> nat
    decreases n,
{
    if n == 0 {
        0
    } else {
        let r = isqrt((n - 1) as nat);
        if (r + 1) * (r + 1) <= n {
            r + 1
        } else {
            r
        }
    }
}

/// `isqrt(n)` is the unique `r` with `r * r <= n < (r + 1) * (r + 1)`.
pub proof fn lemma_isqrt_bounds(n: nat)
    ensures
        isqrt(n) * isqrt(n) <= n,
        n < (isqrt(n) + 1) * (isqrt(n) + 1),
    decreases n,
{
    if n > 0 {
        lemma_isqrt_bounds((n - 1) as nat);
        let r = isqrt((n - 1) as nat);
        assert(r * r <= n - 1);
        assert(n - 1 < (r + 1) * (r + 1));
        if (r + 1) * (r + 1) <= n {
            assert(isqrt(n) == r + 1);
            assert(n < (isqrt(n) + 1) * (isqrt(n) + 1)) by (nonlinear_arith)
                requires
                    n <= (r + 1) * (r + 1),
                    isqrt(n) == r + 1,
                    r >= 0,
            ;
        } else {
            assert(isqrt(n) == r);
            assert(r * r <= n);
            assert(n < (isqrt(n) + 1) * (isqrt(n) + 1)) by (nonlinear_arith)
                requires
                    isqrt(n) == r,
                    n < (r + 1) * (r + 1),
            ;
        }
    } else {
        assert(isqrt(n) == 0);
        assert(n < (isqrt(n) + 1) * (isqrt(n) + 1)) by (nonlinear_arith)
            requires
                isqrt(n) == 0,
                n == 0,
        ;
    }
}

/// Any `r` inside the square-root bracket of `n` equals `isqrt(n)`.
pub proof fn lemma_isqrt_unique(n: nat, r: nat)
    requires
        r * r <= n,
        n < (r + 1) * (r + 1),
    ensures
        r == isqrt(n),
{
    lemma_isqrt_bounds(n);
    let s = isqrt(n);
    if r < s {
        assert((r + 1) * (r + 1) <= s * s) by (nonlinear_arith)
            requires
                r + 1 <= s,
                r >= 0,
        ;
    }
    if s < r {
        assert((s + 1) * (s + 1) <= r * r) by (nonlinear_arith)
            requires
                s + 1 <= r,
                s >= 0,
        ;
    }
}

/// Exact integer square root by bisection.
pub fn isqrt64(n: u64) -> (r: u64)
    requires
        n <= 0x4000_0000_0000_0000,
    ensures
        r == isqrt(n as nat),
        r * r <= n,
        n < (r + 1) * (r + 1),
{
    let mut lo: u64 = 0;
    let mut hi: u64 = 0x8000_0000;
    proof {
        assert((hi + 1) * (hi + 1) > n) by (nonlinear_arith)
            requires
                hi == 0x8000_0000u64,
                n <= 0x4000_0000_0000_0000,
        ;
    }
    while lo < hi
        invariant
            lo <= hi <= 0x8000_0000,
            lo * lo <= n,
            n < (hi + 1) * (hi + 1),
        decreases hi - lo,
    {
        let mid = lo + (hi - lo + 1) / 2;
        assert(lo < mid <= hi);
        proof {
            assert(mid * mid <= 0x4000_0000_0000_0000) by (nonlinear_arith)
                requires
                    mid <= 0x8000_0000u64,
            ;
        }
        if mid * mid <= n {
            lo = mid;
        } else {
            hi = mid - 1;
        }
    }
    proof {
        lemma_isqrt_unique(n as nat, lo as nat);
    }
    lo
}

/// Quotient of `a` by `b`, rounded toward negative infinity. This is the
/// division that sends a pixel coordinate to the grid index of the tile that
/// contains it.
pub fn floor_div(a: i64, b: i64) -> (q: i64)
    requires
        0 < b,
    ensures
        q == a as int / b as int,
{
    if a >= 0 {
        let q = (a as u64) / (b as u64);
        proof {
            assert(q == a as int / b as int);
        }
        q as i64
    } else {
        // For a < 0 the floored quotient is -((-a - 1) / b) - 1; the
        // complement -a - 1 never overflows, unlike -a at i64::MIN.
        let na = (-(a + 1)) as u64;
        let qn = na / (b as u64);
        let q = -(qn as i64) - 1;
        proof {
            let bi = b as int;
            let qi = na as int / bi;
            let ri = na as int % bi;
            vstd::arithmetic::div_mod::lemma_fundamental_div_mod(na as int, bi);
            assert(a as int == (-qi - 1) * bi + (bi - ri - 1)) by (nonlinear_arith)
                requires
                    na as int == qi * bi + ri,
                    a as int == -(na as int) - 1,
                    bi > 0,
            ;
            vstd::arithmetic::div_mod::lemma_fundamental_div_mod_converse(
                a as int,
                bi,
                -qi - 1,
                bi - ri - 1,
            );
        }
        q
    }
}

/// The step of `delta` scaled by `num / den`, rounded toward zero, as movement
/// scales a displacement by the ratio of step length to full distance.
pub open spec fn scaled_step(delta: int, num: int, den: int) -> int {
    if delta >= 0 {
        delta * num / den
    } else {
        -((-delta) * num / den)
    }
}

/// A scaled step with `num <= den` keeps the sign of `delta` and never exceeds
/// it in magnitude: movement along it cannot overshoot the goal.
pub proof fn lemma_scaled_step_bounds(delta: int, num: int, den: int)
    requires
        0 < den,
        0 <= num <= den,
    ensures
        delta >= 0 ==> 0 <= scaled_step(delta, num, den) <= delta,
        delta < 0 ==> delta <= scaled_step(delta, num, den) <= 0,
{
    let m: int = if delta >= 0 {
        delta
    } else {
        -delta
    };
    assert(0 <= m * num) by (nonlinear_arith)
        requires
            m >= 0,
            num >= 0,
    ;
    assert(m * num <= den * m) by (nonlinear_arith)
        requires
            m >= 0,
            num <= den,
    ;
    vstd::arithmetic::div_mod::lemma_div_pos_is_pos(m * num, den);
    vstd::arithmetic::div_mod::lemma_div_is_ordered(m * num, den * m, den);
    vstd::arithmetic::div_mod::lemma_div_multiples_vanish(m, den);
    assert(0 <= m * num / den <= m);
}

/// Computes `scaled_step(delta, num, den)` exactly.
pub fn scale_step(delta: i64, num: i64, den: i64) -> (s: i64)
    requires
        0 < den <= 2_000_000_000,
        0 <= num <= den,
        -2_000_000_000 <= delta <= 2_000_000_000,
    ensures
        s == scaled_step(delta as int, num as int, den as int),
        delta >= 0 ==> 0 <= s <= delta,
        delta < 0 ==> delta <= s <= 0,
{
    proof {
        lemma_scaled_step_bounds(delta as int, num as int, den as int);
    }
    if delta >= 0 {
        proof {
            assert((delta as int) * (num as int) <= 4_000_000_000_000_000_000) by (nonlinear_arith)
                requires
                    0 <= delta <= 2_000_000_000,
                    0 <= num <= 2_000_000_000,
            ;
        }
        let prod = (delta as u64) * (num as u64);
        let q = prod / (den as u64);
        q as i64
    } else {
        let nd = -delta;
        proof {
            assert((nd as int) * (num as int) <= 4_000_000_000_000_000_000) by (nonlinear_arith)
                requires
                    0 <= nd <= 2_000_000_000,
                    0 <= num <= 2_000_000_000,
            ;
        }
        let prod = (nd as u64) * (num as u64);
        let q = prod / (den as u64);
        -(q as i64)
    }
}

} // verus!
