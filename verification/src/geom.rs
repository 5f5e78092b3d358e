//! Planar integer geometry: cross products and polygon areas over
//! fixed-point microdegree coordinates.
//!
//! All quantities are exact.  `cross3(a, b, c)` is twice the signed area of
//! the triangle `a b c`; `fan_area2` is twice the signed area of a polygon,
//! written as a fan sum so that clipping one vertex changes it by exactly
//! one triangle term (`lemma_fan_area2_remove`).

use vstd::prelude::*;

verus! {

/// Largest coordinate magnitude the mesh pipeline accepts, in microdegrees.
/// Generous enough for any (longitude, latitude) pair and small enough that
/// every cross product below fits in an `i64`.
pub const COORD_BOUND: i64 = 360_000_000;

pub open spec fn coord_ok(p: (i64, i64)) -> bool {
    -COORD_BOUND <= p.0 <= COORD_BOUND && -COORD_BOUND <= p.1 <= COORD_BOUND
}

pub open spec fn ring_coords_ok(s: Seq<(i64, i64)>) -> bool {
    forall|i: int| 0 <= i < s.len() ==> coord_ok(#[trigger] s[i])
}

/// Twice the signed area of the triangle `a b c` (positive when the three
/// points turn counter-clockwise).
pub open spec fn cross3(a: (i64, i64), b: (i64, i64), c: (i64, i64)) -> int {
    (b.0 - a.0) * (c.1 - a.1) - (b.1 - a.1) * (c.0 - a.0)
}

pub proof fn lemma_mul_bound(x: int, y: int, b1: int, b2: int)
    requires
        -b1 <= x <= b1,
        -b2 <= y <= b2,
        0 <= b1,
        0 <= b2,
    ensures
        -b1 * b2 <= x * y <= b1 * b2,
{
    assert(-b1 * b2 <= x * y <= b1 * b2) by (nonlinear_arith)
        requires
            -b1 <= x <= b1,
            -b2 <= y <= b2,
            0 <= b1,
            0 <= b2,
    ;
}

/// The cross product of world coordinates is comfortably inside `i64`.
pub proof fn lemma_cross3_bound(a: (i64, i64), b: (i64, i64), c: (i64, i64))
    requires
        coord_ok(a),
        coord_ok(b),
        coord_ok(c),
    ensures
        -0x2000_0000_0000_0000 <= cross3(a, b, c) <= 0x2000_0000_0000_0000,
{
    assert(-0x2000_0000_0000_0000 <= (b.0 - a.0) * (c.1 - a.1) - (b.1 - a.1) * (c.0 - a.0)
        <= 0x2000_0000_0000_0000) by (nonlinear_arith)
        requires
            -360_000_000 <= a.0 <= 360_000_000,
            -360_000_000 <= a.1 <= 360_000_000,
            -360_000_000 <= b.0 <= 360_000_000,
            -360_000_000 <= b.1 <= 360_000_000,
            -360_000_000 <= c.0 <= 360_000_000,
            -360_000_000 <= c.1 <= 360_000_000,
    ;
}

pub fn cross3_exec(a: (i64, i64), b: (i64, i64), c: (i64, i64)) -> (r: i64)
    requires
        coord_ok(a),
        coord_ok(b),
        coord_ok(c),
    ensures
        r == cross3(a, b, c),
{
    let d1 = b.0 - a.0;
    let d2 = c.1 - a.1;
    let d3 = b.1 - a.1;
    let d4 = c.0 - a.0;
    proof {
        lemma_mul_bound(d1 as int, d2 as int, 720_000_000, 720_000_000);
        lemma_mul_bound(d3 as int, d4 as int, 720_000_000, 720_000_000);
    }
    d1 * d2 - d3 * d4
}

/// Twice the signed area of the polygon `s`, computed as a fan anchored at
/// `s[0]`.  Equals the shoelace sum for any polygon, degenerate or not.
pub open spec fn fan_area2(s: Seq<(i64, i64)>) -> int
    decreases s.len(),
{
    if s.len() < 3 {
        0
    } else {
        fan_area2(s.drop_last()) + cross3(s[0], s[s.len() - 2], s[s.len() - 1])
    }
}

/// Cocycle identity for triangle areas: the fan terms through `b` collapse
/// to the fan term that skips `b` plus the clipped triangle `a b c`.
pub proof fn lemma_cross3_cocycle(o: (i64, i64), a: (i64, i64), b: (i64, i64), c: (i64, i64))
    ensures
        cross3(o, a, b) + cross3(o, b, c) == cross3(o, a, c) + cross3(a, b, c),
{
    assert(cross3(o, a, b) + cross3(o, b, c) == cross3(o, a, c) + cross3(a, b, c))
        by (nonlinear_arith);
}

/// Removing an interior vertex `i` from a polygon lowers its doubled area by
/// exactly the doubled area of the triangle around that vertex.
pub proof fn lemma_fan_area2_remove(s: Seq<(i64, i64)>, i: int)
    requires
        3 <= s.len(),
        1 <= i <= s.len() - 2,
    ensures
        fan_area2(s.remove(i)) == fan_area2(s) - cross3(s[i - 1], s[i], s[i + 1]),
    decreases s.len(),
{
    let n = s.len() as int;
    if i == n - 2 {
        if n == 3 {
            assert(s.remove(i).len() == 2);
            assert(fan_area2(s.remove(i)) == 0);
            assert(fan_area2(s.drop_last()) == 0);
            assert(fan_area2(s.drop_last().drop_last()) == 0);
        } else {
            let t = s.remove(i);
            assert(t.drop_last() =~= s.drop_last().drop_last());
            assert(fan_area2(t) == fan_area2(s.drop_last().drop_last())
                + cross3(s[0], s[n - 3], s[n - 1]));
            assert(fan_area2(s) == fan_area2(s.drop_last()) + cross3(s[0], s[n - 2], s[n - 1]));
            assert(s.drop_last().len() == n - 1);
            assert(s.drop_last()[0] == s[0]);
            assert(s.drop_last()[n - 3] == s[n - 3]);
            assert(s.drop_last()[n - 2] == s[n - 2]);
            assert(fan_area2(s.drop_last()) == fan_area2(s.drop_last().drop_last())
                + cross3(s[0], s[n - 3], s[n - 2]));
            lemma_cross3_cocycle(s[0], s[n - 3], s[n - 2], s[n - 1]);
        }
    } else {
        // i <= n - 3, so the last fan term survives the removal; recurse on
        // the polygon without its last vertex.
        let t = s.remove(i);
        assert(t.drop_last() =~= s.drop_last().remove(i));
        assert(t[0] == s[0]);
        assert(t[t.len() - 2] == s[n - 2]);
        assert(t[t.len() - 1] == s[n - 1]);
        lemma_fan_area2_remove(s.drop_last(), i);
        assert(s.drop_last()[i - 1] == s[i - 1]);
        assert(s.drop_last()[i] == s[i]);
        assert(s.drop_last()[i + 1] == s[i + 1]);
    }
}

/// Twice the signed area of `s`, computed executably.
pub fn fan_area2_exec(s: &Vec<(i64, i64)>) -> (r: i128)
    requires
        ring_coords_ok(s@),
    ensures
        r == fan_area2(s@),
{
    if s.len() < 3 {
        return 0;
    }
    let mut acc: i128 = 0;
    let mut k: usize = 2;
    // Build the fan sum left to right: after processing prefix `k`,
    // `acc` is the doubled area of that prefix.
    while k < s.len()
        invariant
            2 <= k <= s.len(),
            ring_coords_ok(s@),
            s@.len() >= 3,
            acc == fan_area2(s@.take(k as int)),
            -(k as int) * 0x2000_0000_0000_0000 <= acc <= (k as int) * 0x2000_0000_0000_0000,
        decreases s.len() - k,
    {
        let c = cross3_exec(s[0], s[k - 1], s[k]);
        proof {
            assert(s@.take(k as int + 1).drop_last() =~= s@.take(k as int));
            lemma_cross3_bound(s@[0], s@[k - 1], s@[k as int]);
            assert((k as int) * 0x2000_0000_0000_0000 + 0x2000_0000_0000_0000
                == (k as int + 1) * 0x2000_0000_0000_0000) by (nonlinear_arith);
            assert((k as int + 1) * 0x2000_0000_0000_0000
                <= 0x1_0000_0000_0000_0001 * 0x2000_0000_0000_0000) by (nonlinear_arith)
                requires
                    k as int + 1 <= 0x1_0000_0000_0000_0001,
            ;
        }
        acc = acc + (c as i128);
        k = k + 1;
    }
    proof {
        assert(s@.take(s@.len() as int) =~= s@);
    }
    acc
}

} // verus!
