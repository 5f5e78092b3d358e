//! Ear-clipping triangulation of a simple, hole-free, possibly non-convex
//! polygon over integer coordinates.
//!
//! The contract pins down the shape of the output exactly: a polygon with
//! `n` vertices yields `3 * (n - 2)` indices, every index names an input
//! vertex, and the doubled signed areas of the emitted triangles sum to the
//! doubled signed area of the polygon — the triangles tile the polygon with
//! nothing lost and nothing counted twice.

use vstd::prelude::*;

use crate::geom::{
    coord_ok, cross3, cross3_exec, fan_area2, fan_area2_exec, lemma_fan_area2_remove,
    ring_coords_ok,
};

verus! {

/// The points a sequence of vertex indices selects from `ring`.
pub open spec fn pts_of(ring: Seq<(i64, i64)>, verts: Seq<u32>) -> Seq<(i64, i64)> {
    verts.map(|k: int, v: u32| ring[v as int])
}

/// Sum of the doubled signed areas of the triangles that `idx` lists, three
/// indices per triangle.
pub open spec fn tri_area_sum(ring: Seq<(i64, i64)>, idx: Seq<u32>) -> int
    decreases idx.len(),
{
    if idx.len() < 3 {
        0
    } else {
        let l = idx.len() as int;
        tri_area_sum(ring, idx.take(l - 3)) + cross3(
            ring[idx[l - 3] as int],
            ring[idx[l - 2] as int],
            ring[idx[l - 1] as int],
        )
    }
}

pub proof fn lemma_tri_area_sum_push3(ring: Seq<(i64, i64)>, idx: Seq<u32>, a: u32, b: u32, c: u32)
    ensures
        tri_area_sum(ring, idx + seq![a, b, c]) == tri_area_sum(ring, idx) + cross3(
            ring[a as int],
            ring[b as int],
            ring[c as int],
        ),
{
    let e = idx + seq![a, b, c];
    assert(e.take(e.len() as int - 3) =~= idx);
    assert(e[e.len() as int - 3] == a);
    assert(e[e.len() as int - 2] == b);
    assert(e[e.len() as int - 1] == c);
}

/// Whether the vertex at `j` is an ear of the polygon `pts`: the corner is
/// convex with respect to the polygon's winding (`ccw`) and no other vertex
/// lies inside or on the candidate triangle.  Used only to pick a good clip
/// order; the caller falls back to clipping regardless.
fn is_ear(pts: &Vec<(i64, i64)>, j: usize, ccw: bool) -> bool
    requires
        1 <= j,
        j + 1 < pts@.len(),
        ring_coords_ok(pts@),
{
    let l = pts.len();
    proof {
        assert(j + 1 < l);
    }
    let a = pts[j - 1];
    let b = pts[j];
    let c = pts[j + 1];
    let cr = cross3_exec(a, b, c);
    if ccw && cr <= 0 {
        return false;
    }
    if !ccw && cr >= 0 {
        return false;
    }
    let mut k: usize = 0;
    while k < pts.len()
        invariant
            k <= pts@.len(),
            1 <= j,
            j + 1 < pts@.len(),
            ring_coords_ok(pts@),
            coord_ok(a),
            coord_ok(b),
            coord_ok(c),
        decreases pts@.len() - k,
    {
        if k + 1 < j || k > j + 1 {
            let p = pts[k];
            let s1 = cross3_exec(a, b, p);
            let s2 = cross3_exec(b, c, p);
            let s3 = cross3_exec(c, a, p);
            let blocked = if cr > 0 {
                s1 >= 0 && s2 >= 0 && s3 >= 0
            } else {
                s1 <= 0 && s2 <= 0 && s3 <= 0
            };
            if blocked {
                return false;
            }
        }
        k = k + 1;
    }
    true
}

/// Picks the vertex to clip next: the first ear, or the first interior
/// vertex when the polygon is degenerate and no ear can be found.
fn find_ear(pts: &Vec<(i64, i64)>) -> (j: usize)
    requires
        pts@.len() >= 3,
        ring_coords_ok(pts@),
    ensures
        1 <= j,
        j + 1 < pts@.len(),
{
    let area = fan_area2_exec(pts);
    let ccw = area >= 0;
    let mut j: usize = 1;
    while j < pts.len() - 1
        invariant
            1 <= j <= pts@.len(),
            pts@.len() >= 3,
            ring_coords_ok(pts@),
        decreases pts@.len() - j,
    {
        if is_ear(pts, j, ccw) {
            return j;
        }
        j = j + 1;
    }
    1
}

/// Triangulates the polygon `ring` by ear clipping, returning a flat list
/// of vertex indices, three per triangle.
pub fn triangulate(ring: &Vec<(i64, i64)>) -> (idx: Vec<u32>)
    requires
        3 <= ring@.len() <= 0xFFFF_FFFF,
        ring_coords_ok(ring@),
    ensures
        idx@.len() == 3 * (ring@.len() - 2),
        forall|k: int| 0 <= k < idx@.len() ==> (idx@[k] as int) < ring@.len(),
        tri_area_sum(ring@, idx@) == fan_area2(ring@),
{
    let n = ring.len();
    let mut verts: Vec<u32> = Vec::new();
    let mut pts: Vec<(i64, i64)> = Vec::new();
    let mut i: usize = 0;
    while i < n
        invariant
            i <= n,
            n == ring@.len(),
            n <= 0xFFFF_FFFF,
            verts@.len() == i,
            pts@.len() == i,
            forall|k: int| 0 <= k < i ==> verts@[k] == k as u32,
            forall|k: int| 0 <= k < i ==> pts@[k] == ring@[k],
        decreases n - i,
    {
        verts.push(i as u32);
        pts.push(ring[i]);
        i = i + 1;
    }
    proof {
        assert(pts@ =~= ring@);
        assert(pts@ =~= pts_of(ring@, verts@));
    }

    let mut idx: Vec<u32> = Vec::new();
    while verts.len() > 3
        invariant
            3 <= verts@.len() <= ring@.len(),
            ring@.len() <= 0xFFFF_FFFF,
            ring_coords_ok(ring@),
            forall|k: int| 0 <= k < verts@.len() ==> (verts@[k] as int) < ring@.len(),
            pts@ == pts_of(ring@, verts@),
            idx@.len() == 3 * (ring@.len() - verts@.len()),
            forall|k: int| 0 <= k < idx@.len() ==> (idx@[k] as int) < ring@.len(),
            tri_area_sum(ring@, idx@) + fan_area2(pts@) == fan_area2(ring@),
        decreases verts@.len(),
    {
        proof {
            assert(ring_coords_ok(pts@));
        }
        let j = find_ear(&pts);
        let a = verts[j - 1];
        let b = verts[j];
        let c = verts[j + 1];
        let ghost idx0 = idx@;
        idx.push(a);
        idx.push(b);
        idx.push(c);
        proof {
            assert(idx@ =~= idx0 + seq![a, b, c]);
            lemma_tri_area_sum_push3(ring@, idx0, a, b, c);
            lemma_fan_area2_remove(pts@, j as int);
            assert(pts@[j - 1] == ring@[a as int]);
            assert(pts@[j as int] == ring@[b as int]);
            assert(pts@[j + 1] == ring@[c as int]);
            assert(pts_of(ring@, verts@.remove(j as int)) =~= pts_of(ring@, verts@).remove(
                j as int,
            ));
        }
        verts.remove(j);
        pts.remove(j);
    }
    let a = verts[0];
    let b = verts[1];
    let c = verts[2];
    let ghost idx0 = idx@;
    idx.push(a);
    idx.push(b);
    idx.push(c);
    proof {
        assert(idx@ =~= idx0 + seq![a, b, c]);
        lemma_tri_area_sum_push3(ring@, idx0, a, b, c);
        assert(pts@.drop_last().len() == 2);
        assert(fan_area2(pts@.drop_last()) == 0);
        assert(fan_area2(pts@) == cross3(pts@[0], pts@[1], pts@[2]));
        assert(pts@[0] == ring@[a as int]);
        assert(pts@[1] == ring@[b as int]);
        assert(pts@[2] == ring@[c as int]);
    }
    idx
}

} // verus!
