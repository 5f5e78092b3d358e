//! Ramer–Douglas–Peucker polyline simplification over integer coordinates.
//!
//! Distances are compared through squared, cross-multiplied forms so the
//! whole algorithm is exact: the squared distance of a point from a segment
//! is carried scaled by the squared segment length, which leaves every
//! comparison between candidates and against the tolerance an integer one.
//!
//! `rdp` is the specification-level model of the algorithm; `simplify_ring`
//! computes exactly that model.

use vstd::prelude::*;

use crate::geom::{coord_ok, lemma_mul_bound, ring_coords_ok};

verus! {

pub open spec fn seg_len_sq(a: (i64, i64), b: (i64, i64)) -> int {
    (b.0 - a.0) * (b.0 - a.0) + (b.1 - a.1) * (b.1 - a.1)
}

/// Squared distance of `p` from the segment `a`–`b`, scaled by the squared
/// segment length (or unscaled when the segment is a point).  Candidates
/// against one segment share a scale, so comparisons between them and
/// against the tolerance stay exact.
pub open spec fn scaled_dist_sq(a: (i64, i64), b: (i64, i64), p: (i64, i64)) -> int {
    let dx = b.0 - a.0;
    let dy = b.1 - a.1;
    let ux = p.0 - a.0;
    let uy = p.1 - a.1;
    let vx = p.0 - b.0;
    let vy = p.1 - b.1;
    let l2 = dx * dx + dy * dy;
    if l2 == 0 {
        ux * ux + uy * uy
    } else if dx * ux + dy * uy <= 0 {
        (ux * ux + uy * uy) * l2
    } else if dx * vx + dy * vy >= 0 {
        (vx * vx + vy * vy) * l2
    } else {
        let cr = dx * uy - dy * ux;
        cr * cr
    }
}

/// Whether `p` lies farther than `tol` from the segment `a`–`b`.
pub open spec fn dist_exceeds(a: (i64, i64), b: (i64, i64), p: (i64, i64), tol: i64) -> bool {
    let l2 = seg_len_sq(a, b);
    let m = if l2 == 0 {
        1
    } else {
        l2
    };
    scaled_dist_sq(a, b, p) > (tol as int) * (tol as int) * m
}

/// First index in `[lo, hi]` whose scaled distance from the segment
/// `a`–`b` is largest.
pub open spec fn farthest_from(s: Seq<(i64, i64)>, a: (i64, i64), b: (i64, i64), lo: int, hi: int) -> int
    decreases hi - lo,
{
    if lo >= hi {
        lo
    } else {
        let r = farthest_from(s, a, b, lo, hi - 1);
        if scaled_dist_sq(a, b, s[hi]) > scaled_dist_sq(a, b, s[r]) {
            hi
        } else {
            r
        }
    }
}

pub proof fn lemma_farthest_in_range(s: Seq<(i64, i64)>, a: (i64, i64), b: (i64, i64), lo: int, hi: int)
    requires
        lo <= hi,
    ensures
        lo <= farthest_from(s, a, b, lo, hi) <= hi,
    decreases hi - lo,
{
    if lo < hi {
        lemma_farthest_in_range(s, a, b, lo, hi - 1);
    }
}

/// The kept points of `s` with indices in `[lo, hi)`, for the split segment
/// `s[lo]`–`s[hi]`: the classic recursion keeps only `s[lo]` when every
/// interior point is within tolerance, and otherwise splits at the farthest
/// interior point.  The clamp on `k` never fires (`lemma_farthest_in_range`)
/// and only makes termination structural.
pub open spec fn rdp_rec(s: Seq<(i64, i64)>, lo: int, hi: int, tol: i64) -> Seq<(i64, i64)>
    decreases hi - lo,
{
    if hi - lo < 2 {
        seq![s[lo]]
    } else {
        let k0 = farthest_from(s, s[lo], s[hi], lo + 1, hi - 1);
        let k = if lo + 1 <= k0 <= hi - 1 {
            k0
        } else {
            lo + 1
        };
        if dist_exceeds(s[lo], s[hi], s[k], tol) {
            rdp_rec(s, lo, k, tol) + rdp_rec(s, k, hi, tol)
        } else {
            seq![s[lo]]
        }
    }
}

/// The simplification of the whole polyline `s`: both endpoints are always
/// kept.
pub open spec fn rdp(s: Seq<(i64, i64)>, tol: i64) -> Seq<(i64, i64)> {
    if s.len() < 2 {
        s
    } else {
        rdp_rec(s, 0, s.len() - 1, tol) + seq![s[s.len() - 1]]
    }
}

pub proof fn lemma_rdp_rec_len(s: Seq<(i64, i64)>, lo: int, hi: int, tol: i64)
    requires
        lo < hi,
    ensures
        1 <= rdp_rec(s, lo, hi, tol).len() <= hi - lo,
    decreases hi - lo,
{
    if hi - lo >= 2 {
        let k0 = farthest_from(s, s[lo], s[hi], lo + 1, hi - 1);
        let k = if lo + 1 <= k0 <= hi - 1 {
            k0
        } else {
            lo + 1
        };
        if dist_exceeds(s[lo], s[hi], s[k], tol) {
            lemma_rdp_rec_len(s, lo, k, tol);
            lemma_rdp_rec_len(s, k, hi, tol);
        }
    }
}

/// Raising the tolerance never keeps more points: with a larger tolerance
/// the split test fails at least as often, on the same split points.
pub proof fn lemma_rdp_rec_monotone(s: Seq<(i64, i64)>, lo: int, hi: int, t1: i64, t2: i64)
    requires
        lo < hi,
        0 <= t1 <= t2,
    ensures
        rdp_rec(s, lo, hi, t2).len() <= rdp_rec(s, lo, hi, t1).len(),
    decreases hi - lo,
{
    if hi - lo >= 2 {
        let k0 = farthest_from(s, s[lo], s[hi], lo + 1, hi - 1);
        let k = if lo + 1 <= k0 <= hi - 1 {
            k0
        } else {
            lo + 1
        };
        assert((t1 as int) * (t1 as int) <= (t2 as int) * (t2 as int)) by (nonlinear_arith)
            requires
                0 <= t1 <= t2,
        ;
        let l2 = seg_len_sq(s[lo], s[hi]);
        let m = if l2 == 0 {
            1int
        } else {
            l2
        };
        assert(m >= 1) by {
            assert((s[hi].0 - s[lo].0) * (s[hi].0 - s[lo].0) >= 0) by (nonlinear_arith);
            assert((s[hi].1 - s[lo].1) * (s[hi].1 - s[lo].1) >= 0) by (nonlinear_arith);
        }
        assert((t1 as int) * (t1 as int) * m <= (t2 as int) * (t2 as int) * m)
            by (nonlinear_arith)
            requires
                (t1 as int) * (t1 as int) <= (t2 as int) * (t2 as int),
                0 <= (t1 as int) * (t1 as int),
                m >= 1,
        ;
        if dist_exceeds(s[lo], s[hi], s[k], t2) {
            // Both tolerances split at the same point.
            lemma_rdp_rec_monotone(s, lo, k, t1, t2);
            lemma_rdp_rec_monotone(s, k, hi, t1, t2);
        } else if dist_exceeds(s[lo], s[hi], s[k], t1) {
            // Only the tighter tolerance splits; it keeps at least the one
            // point the looser one keeps.
            lemma_rdp_rec_len(s, lo, k, t1);
            lemma_rdp_rec_len(s, k, hi, t1);
        }
    }
}

/// Simplification never returns more points than it was given.
pub proof fn lemma_rdp_len(s: Seq<(i64, i64)>, tol: i64)
    ensures
        rdp(s, tol).len() <= s.len(),
        s.len() >= 2 ==> rdp(s, tol).len() >= 2,
{
    if s.len() >= 2 {
        lemma_rdp_rec_len(s, 0, s.len() - 1, tol);
    }
}

/// Every point the simplification keeps is world-bounded if the input is.
pub proof fn lemma_rdp_rec_coords(s: Seq<(i64, i64)>, lo: int, hi: int, tol: i64)
    requires
        ring_coords_ok(s),
        0 <= lo < hi < s.len(),
    ensures
        ring_coords_ok(rdp_rec(s, lo, hi, tol)),
    decreases hi - lo,
{
    if hi - lo < 2 {
        assert(coord_ok(s[lo]));
    } else {
        let k0 = farthest_from(s, s[lo], s[hi], lo + 1, hi - 1);
        let k = if lo + 1 <= k0 <= hi - 1 {
            k0
        } else {
            lo + 1
        };
        if dist_exceeds(s[lo], s[hi], s[k], tol) {
            lemma_rdp_rec_coords(s, lo, k, tol);
            lemma_rdp_rec_coords(s, k, hi, tol);
            let r1 = rdp_rec(s, lo, k, tol);
            let r2 = rdp_rec(s, k, hi, tol);
            assert forall|i: int| 0 <= i < (r1 + r2).len() implies coord_ok(#[trigger] (r1 + r2)[i]) by {
                if i < r1.len() {
                    assert(coord_ok(r1[i]));
                } else {
                    assert(coord_ok(r2[i - r1.len()]));
                }
            }
        } else {
            assert(coord_ok(s[lo]));
        }
    }
}

pub proof fn lemma_rdp_coords(s: Seq<(i64, i64)>, tol: i64)
    requires
        ring_coords_ok(s),
    ensures
        ring_coords_ok(rdp(s, tol)),
{
    if s.len() >= 2 {
        lemma_rdp_rec_coords(s, 0, s.len() - 1, tol);
        let r1 = rdp_rec(s, 0, s.len() - 1, tol);
        let r2 = seq![s[s.len() - 1]];
        assert forall|i: int| 0 <= i < (r1 + r2).len() implies coord_ok(#[trigger] (r1 + r2)[i]) by {
            if i < r1.len() {
                assert(coord_ok(r1[i]));
            } else {
                assert(coord_ok(s[s.len() - 1]));
            }
        }
    }
}

/// Executable form of [`scaled_dist_sq`].
fn scaled_dist_sq_exec(a: (i64, i64), b: (i64, i64), p: (i64, i64)) -> (r: i128)
    requires
        coord_ok(a),
        coord_ok(b),
        coord_ok(p),
    ensures
        r == scaled_dist_sq(a, b, p),
{
    let dx = (b.0 - a.0) as i128;
    let dy = (b.1 - a.1) as i128;
    let ux = (p.0 - a.0) as i128;
    let uy = (p.1 - a.1) as i128;
    let vx = (p.0 - b.0) as i128;
    let vy = (p.1 - b.1) as i128;
    proof {
        lemma_mul_bound(dx as int, dx as int, 720_000_000, 720_000_000);
        lemma_mul_bound(dy as int, dy as int, 720_000_000, 720_000_000);
        lemma_mul_bound(ux as int, ux as int, 720_000_000, 720_000_000);
        lemma_mul_bound(uy as int, uy as int, 720_000_000, 720_000_000);
        lemma_mul_bound(vx as int, vx as int, 720_000_000, 720_000_000);
        lemma_mul_bound(vy as int, vy as int, 720_000_000, 720_000_000);
        lemma_mul_bound(dx as int, ux as int, 720_000_000, 720_000_000);
        lemma_mul_bound(dy as int, uy as int, 720_000_000, 720_000_000);
        lemma_mul_bound(dx as int, vx as int, 720_000_000, 720_000_000);
        lemma_mul_bound(dy as int, vy as int, 720_000_000, 720_000_000);
        lemma_mul_bound(dx as int, uy as int, 720_000_000, 720_000_000);
        lemma_mul_bound(dy as int, ux as int, 720_000_000, 720_000_000);
    }
    let l2 = dx * dx + dy * dy;
    if l2 == 0 {
        ux * ux + uy * uy
    } else if dx * ux + dy * uy <= 0 {
        let q = ux * ux + uy * uy;
        proof {
            lemma_mul_bound(q as int, l2 as int, 1_100_000_000_000_000_000, 1_100_000_000_000_000_000);
        }
        q * l2
    } else if dx * vx + dy * vy >= 0 {
        let q = vx * vx + vy * vy;
        proof {
            lemma_mul_bound(q as int, l2 as int, 1_100_000_000_000_000_000, 1_100_000_000_000_000_000);
        }
        q * l2
    } else {
        let cr = dx * uy - dy * ux;
        proof {
            lemma_mul_bound(cr as int, cr as int, 1_100_000_000_000_000_000, 1_100_000_000_000_000_000);
        }
        cr * cr
    }
}

/// Executable form of [`dist_exceeds`].
fn dist_exceeds_exec(a: (i64, i64), b: (i64, i64), p: (i64, i64), tol: i64) -> (r: bool)
    requires
        coord_ok(a),
        coord_ok(b),
        coord_ok(p),
        0 <= tol <= 1_000_000_000,
    ensures
        r == dist_exceeds(a, b, p, tol),
{
    let dx = (b.0 - a.0) as i128;
    let dy = (b.1 - a.1) as i128;
    proof {
        lemma_mul_bound(dx as int, dx as int, 720_000_000, 720_000_000);
        lemma_mul_bound(dy as int, dy as int, 720_000_000, 720_000_000);
    }
    let l2 = dx * dx + dy * dy;
    let m = if l2 == 0 {
        1
    } else {
        l2
    };
    let t = tol as i128;
    proof {
        lemma_mul_bound(t as int, t as int, 1_000_000_000, 1_000_000_000);
        lemma_mul_bound((t * t) as int, m as int, 1_100_000_000_000_000_000,
            1_100_000_000_000_000_000);
    }
    let d = scaled_dist_sq_exec(a, b, p);
    d > t * t * m
}

/// Executable recursion of [`rdp_rec`]: appends the kept points with
/// indices in `[lo, hi)` to `out`.
fn rdp_exec(s: &Vec<(i64, i64)>, lo: usize, hi: usize, tol: i64, out: &mut Vec<(i64, i64)>)
    requires
        lo < hi < s@.len(),
        ring_coords_ok(s@),
        0 <= tol <= 1_000_000_000,
    ensures
        final(out)@ == old(out)@ + rdp_rec(s@, lo as int, hi as int, tol),
    decreases hi - lo,
{
    if hi - lo < 2 {
        out.push(s[lo]);
        proof {
            assert(out@ =~= old(out)@ + rdp_rec(s@, lo as int, hi as int, tol));
        }
        return ;
    }
    let a = s[lo];
    let b = s[hi];
    let mut best: usize = lo + 1;
    let mut bestd: i128 = scaled_dist_sq_exec(a, b, s[lo + 1]);
    let mut k: usize = lo + 2;
    while k <= hi - 1
        invariant
            lo + 2 <= k <= hi,
            lo < hi < s@.len(),
            ring_coords_ok(s@),
            a == s@[lo as int],
            b == s@[hi as int],
            lo + 1 <= best <= k - 1,
            best == farthest_from(s@, a, b, lo + 1, k - 1),
            bestd == scaled_dist_sq(a, b, s@[best as int]),
        decreases hi - k,
    {
        let d = scaled_dist_sq_exec(a, b, s[k]);
        if d > bestd {
            best = k;
            bestd = d;
        }
        k = k + 1;
    }
    proof {
        assert(best == farthest_from(s@, a, b, lo + 1, hi - 1));
    }
    let ghost out0 = out@;
    if dist_exceeds_exec(a, b, s[best], tol) {
        rdp_exec(s, lo, best, tol, out);
        rdp_exec(s, best, hi, tol, out);
        proof {
            assert(out@ =~= out0 + (rdp_rec(s@, lo as int, best as int, tol) + rdp_rec(
                s@,
                best as int,
                hi as int,
                tol,
            )));
        }
    } else {
        out.push(s[lo]);
        proof {
            assert(out@ =~= out0 + seq![s@[lo as int]]);
        }
    }
}

/// Simplifies an open polyline, keeping both endpoints; returns exactly the
/// model [`rdp`] computes.
pub fn simplify_ring(points: &Vec<(i64, i64)>, tol: i64) -> (out: Vec<(i64, i64)>)
    requires
        ring_coords_ok(points@),
        0 <= tol <= 1_000_000_000,
    ensures
        out@ == rdp(points@, tol),
{
    let mut out: Vec<(i64, i64)> = Vec::new();
    if points.len() < 2 {
        if points.len() == 1 {
            out.push(points[0]);
        }
        proof {
            assert(out@ =~= rdp(points@, tol));
        }
        return out;
    }
    rdp_exec(points, 0, points.len() - 1, tol, &mut out);
    out.push(points[points.len() - 1]);
    proof {
        assert(out@ =~= rdp(points@, tol));
    }
    out
}

} // verus!
