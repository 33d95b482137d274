//! Plane geometry on a bounded integer grid.
//!
//! Coordinates are `i64` values kept within `[-POS_LIMIT, POS_LIMIT]`; every
//! position update goes through a clamping addition so that the bound is an
//! invariant of the whole simulation. Distances are compared by their
//! squares, and movement steps are scaled by an exact integer square root,
//! so no floating point is needed anywhere.

use vstd::prelude::*;

verus! {

/// Half-width of the arena: every coordinate stays in `[-POS_LIMIT, POS_LIMIT]`.
pub const POS_LIMIT: i64 = 1_000_000_000;

/// A point or displacement in the plane.
#[derive(Clone, Copy, PartialEq, Eq, Structural, Debug)]
pub struct V2 {
    pub x: i64,
    pub y: i64,
}

/// A vector lies inside the arena.
pub open spec fn in_arena(v: V2) -> bool {
    &&& -POS_LIMIT <= v.x <= POS_LIMIT
    &&& -POS_LIMIT <= v.y <= POS_LIMIT
}

/// Mathematical clamp of a coordinate to the arena bounds.
pub open spec fn clamp_coord(x: int) -> int {
    if x < -(POS_LIMIT as int) {
        -(POS_LIMIT as int)
    } else if x > POS_LIMIT as int {
        POS_LIMIT as int
    } else {
        x
    }
}

/// Adds a displacement to a coordinate, clamping the result to the arena.
pub fn clamp_add(a: i64, d: i64) -> (r: i64)
    ensures
        r as int == clamp_coord(a + d),
{
    let s: i128 = a as i128 + d as i128;
    if s < -(POS_LIMIT as i128) {
        -POS_LIMIT
    } else if s > POS_LIMIT as i128 {
        POS_LIMIT
    } else {
        s as i64
    }
}

/// Squared Euclidean distance between two points, as a mathematical integer.
pub open spec fn dist2(a: V2, b: V2) -> int {
    (a.x - b.x) * (a.x - b.x) + (a.y - b.y) * (a.y - b.y)
}

/// Computes the squared distance between two in-arena points.
pub fn dist2_u(a: V2, b: V2) -> (r: u64)
    requires
        in_arena(a),
        in_arena(b),
    ensures
        r as int == dist2(a, b),
{
    let dx: i64 = a.x - b.x;
    let dy: i64 = a.y - b.y;
    proof {
        lemma_square_bound(dx as int, 2 * POS_LIMIT as int);
        lemma_square_bound(dy as int, 2 * POS_LIMIT as int);
    }
    (dx * dx) as u64 + (dy * dy) as u64
}

/// A square bounded in magnitude is bounded, and squares are non-negative.
pub proof fn lemma_square_bound(d: int, m: int)
    requires
        -m <= d <= m,
        0 <= m,
    ensures
        0 <= d * d <= m * m,
{
    assert(0 <= d * d <= m * m) by (nonlinear_arith)
        requires
            -m <= d <= m,
            0 <= m,
    ;
}

/// `r` is the floor of the square root of `n`.
pub open spec fn is_sqrt(n: int, r: int) -> bool {
    &&& 0 <= r
    &&& r * r <= n
    &&& n < (r + 1) * (r + 1)
}

/// The floor square root of a non-negative integer.
pub closed spec fn sqrt(n: int) -> int {
    choose|r: int| is_sqrt(n, r)
}

/// The floor square root is unique, so any witness pins `sqrt` down.
pub proof fn lemma_sqrt_is(n: int, r: int)
    requires
        is_sqrt(n, r),
    ensures
        sqrt(n) == r,
{
    assert(exists|x: int| is_sqrt(n, x));
    let s = sqrt(n);
    assert(is_sqrt(n, s));
    assert(s == r) by (nonlinear_arith)
        requires
            0 <= r,
            r * r <= n,
            n < (r + 1) * (r + 1),
            0 <= s,
            s * s <= n,
            n < (s + 1) * (s + 1),
    ;
}

/// Computes the floor square root of `n` by binary search.
pub fn isqrt(n: u64) -> (r: u64)
    ensures
        is_sqrt(n as int, r as int),
        r as int == sqrt(n as int),
{
    let mut lo: u64 = 0;
    let mut hi: u64 = 4_294_967_296;
    while lo + 1 < hi
        invariant
            lo < hi <= 4_294_967_296,
            (lo as int) * (lo as int) <= n as int,
            (n as int) < (hi as int) * (hi as int),
        decreases hi - lo,
    {
        let mid: u64 = lo + (hi - lo) / 2;
        proof {
            lemma_square_bound(mid as int, 4_294_967_296);
        }
        let m2: u128 = (mid as u128) * (mid as u128);
        if m2 <= n as u128 {
            lo = mid;
        } else {
            hi = mid;
        }
    }
    proof {
        lemma_sqrt_is(n as int, lo as int);
    }
    lo
}

/// One axis of a movement step: the offset `d` scaled by `step / dist`,
/// rounded toward zero.
pub open spec fn scaled(d: int, step: int, dist: int) -> int {
    if d >= 0 {
        (d * step) / dist
    } else {
        -(((-d) * step) / dist)
    }
}

/// Computes `scaled(d, step, dist)` exactly; the result never exceeds the
/// step length.
fn scaled_step(d: i64, step: u64, dist: u64) -> (r: i64)
    requires
        0 < dist <= 3_000_000_000,
        -(dist as int) <= d as int <= dist as int,
        step <= 0x7fff_ffff_ffff_ffff,
    ensures
        r as int == scaled(d as int, step as int, dist as int),
        -(step as int) <= r as int <= step as int,
{
    let mag: u64 = if d >= 0 {
        d as u64
    } else {
        (-d) as u64
    };
    proof {
        lemma_square_bound(mag as int, 3_000_000_000);
        assert((mag as int) * (step as int) <= (dist as int) * (step as int)) by (nonlinear_arith)
            requires
                mag <= dist,
                0 <= step,
        ;
        vstd::arithmetic::div_mod::lemma_div_is_ordered(
            (mag as int) * (step as int),
            (dist as int) * (step as int),
            dist as int,
        );
        vstd::arithmetic::div_mod::lemma_div_multiples_vanish(step as int, dist as int);
        vstd::arithmetic::div_mod::lemma_div_pos_is_pos((mag as int) * (step as int), dist as int);
        assert(0 <= (mag as int) * (step as int) <= 3_000_000_000 * 0x7fff_ffff_ffff_ffffi128)
            by (nonlinear_arith)
            requires
                0 <= mag <= 3_000_000_000,
                0 <= step <= 0x7fff_ffff_ffff_ffff,
        ;
    }
    let prod: u128 = (mag as u128) * (step as u128);
    let q: u128 = prod / (dist as u128);
    let qi: i64 = q as i64;
    if d >= 0 {
        qi
    } else {
        -qi
    }
}

/// The displacement of one movement step from `p` toward `t`, with step
/// length `step`: the unit direction from `p` to `t` scaled by `step`
/// (componentwise, rounded toward zero), or zero when the points coincide.
pub open spec fn spec_step_toward(p: V2, t: V2, step: int) -> V2 {
    let d2 = dist2(p, t);
    let dist = sqrt(d2);
    if dist == 0 {
        V2 { x: 0, y: 0 }
    } else {
        V2 {
            x: scaled(t.x - p.x, step, dist) as i64,
            y: scaled(t.y - p.y, step, dist) as i64,
        }
    }
}

/// Computes the movement step from `p` toward `t` with step length `step`.
pub fn step_toward(p: V2, t: V2, step: u64) -> (r: V2)
    requires
        in_arena(p),
        in_arena(t),
        step <= 0x7fff_ffff_ffff_ffff,
    ensures
        r == spec_step_toward(p, t, step as int),
        -(step as int) <= r.x as int <= step as int,
        -(step as int) <= r.y as int <= step as int,
{
    let d2 = dist2_u(p, t);
    let dist = isqrt(d2);
    if dist == 0 {
        V2 { x: 0, y: 0 }
    } else {
        let dx: i64 = t.x - p.x;
        let dy: i64 = t.y - p.y;
        proof {
            lemma_square_bound(dx as int, 2 * POS_LIMIT as int);
            lemma_square_bound(dy as int, 2 * POS_LIMIT as int);
            assert((dx as int) * (dx as int) == (p.x - t.x) * (p.x - t.x) && (dy as int) * (
            dy as int) == (p.y - t.y) * (p.y - t.y)) by (nonlinear_arith)
                requires
                    dx as int == t.x - p.x,
                    dy as int == t.y - p.y,
            ;
            assert(d2 as int == (dx as int) * (dx as int) + (dy as int) * (dy as int));
            // each offset is no longer than the full distance
            assert(-(dist as int) <= dx as int <= dist as int) by (nonlinear_arith)
                requires
                    (dx as int) * (dx as int) <= d2 as int,
                    (d2 as int) < (dist as int + 1) * (dist as int + 1),
                    0 <= dist as int,
            ;
            assert(-(dist as int) <= dy as int <= dist as int) by (nonlinear_arith)
                requires
                    (dy as int) * (dy as int) <= d2 as int,
                    (d2 as int) < (dist as int + 1) * (dist as int + 1),
                    0 <= dist as int,
            ;
            // the distance between two in-arena points is under 3 * 10^9
            assert(dist as int <= 3_000_000_000) by (nonlinear_arith)
                requires
                    (dist as int) * (dist as int) <= d2 as int,
                    d2 as int <= 8_000_000_000_000_000_000,
                    0 <= dist as int,
            ;
        }
        V2 { x: scaled_step(dx, step, dist), y: scaled_step(dy, step, dist) }
    }
}

} // verus!
