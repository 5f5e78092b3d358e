//! The mesh builder: polygon rings plus integer weights in, one triangle
//! mesh per level of detail out.
//!
//! For each tolerance in a fixed ascending sequence, every ring loses its
//! duplicated closing point, is simplified by Douglas–Peucker at that
//! tolerance, and — when at least three vertices survive — is triangulated
//! by ear clipping.  Vertices carry their polygon's weight; triangle indices
//! are shifted by the polygon's offset into the shared vertex list.
//! Polygons that degenerate below three vertices are dropped silently.
//!
//! The contracts pin the vertex list down exactly (`mesh_vertices`) and
//! give each polygon's triangle block its index range and its exact doubled
//! area (`polygon_slice_ok`).  The build is deterministic — equal inputs
//! give equal meshes — but the contract deliberately leaves the order of
//! the triangles inside a block open: callers may rely on the block
//! structure, the index bounds and the area, not on which ear the clipper
//! takes first.  The simplified ring's deviation from the input ring is
//! the metric guarantee of the tolerance parameter and is not restated
//! here.

use vstd::prelude::*;

use crate::geom::{coord_ok, cross3, fan_area2, ring_coords_ok};
use crate::simplify::{lemma_rdp_coords, lemma_rdp_len, rdp, simplify_ring};
use crate::triangulate::{tri_area_sum, triangulate};

verus! {

/// One mesh vertex: a microdegree position tagged with its polygon's
/// weight, truncated to 32 bits.
#[derive(Clone, Copy, Debug, PartialEq)]
pub struct BlendVertex {
    pub position: (i64, i64),
    pub weight: u32,
}

/// One level-of-detail mesh: a flat vertex list and a triangle index list,
/// three indices per triangle, with the index count recorded for draw
/// calls.
#[derive(Clone, Debug)]
pub struct BufferStorage {
    pub vertices: Vec<BlendVertex>,
    pub indices: Vec<u32>,
    pub num_indices: u32,
}

/// The ring without its duplicated closing point.
pub open spec fn ring_open(ring: Seq<(i64, i64)>) -> Seq<(i64, i64)> {
    if ring.len() == 0 {
        ring
    } else {
        ring.drop_last()
    }
}

/// The simplified form of one ring at the given tolerance.
pub open spec fn simplified_ring(ring: Seq<(i64, i64)>, tol: i64) -> Seq<(i64, i64)> {
    rdp(ring_open(ring), tol)
}

/// Whether the ring still has enough vertices to triangulate.
pub open spec fn ring_kept(ring: Seq<(i64, i64)>, tol: i64) -> bool {
    simplified_ring(ring, tol).len() >= 3
}

/// How many vertices the ring contributes to the mesh.
pub open spec fn ring_vert_count(ring: Seq<(i64, i64)>, tol: i64) -> int {
    if ring_kept(ring, tol) {
        simplified_ring(ring, tol).len() as int
    } else {
        0
    }
}

/// Vertices contributed by the first `k` polygons.
pub open spec fn vert_count(polys: Seq<Seq<(i64, i64)>>, tol: i64, k: int) -> int
    decreases k,
{
    if k <= 0 {
        0
    } else {
        vert_count(polys, tol, k - 1) + ring_vert_count(polys[k - 1], tol)
    }
}

/// Triangle indices contributed by the first `k` polygons.
pub open spec fn tri_index_count(polys: Seq<Seq<(i64, i64)>>, tol: i64, k: int) -> int
    decreases k,
{
    if k <= 0 {
        0
    } else {
        tri_index_count(polys, tol, k - 1) + if ring_kept(polys[k - 1], tol) {
            3 * (simplified_ring(polys[k - 1], tol).len() - 2)
        } else {
            0
        }
    }
}

/// Coordinates in the first `k` polygons, before any simplification.
pub open spec fn total_coords(polys: Seq<Seq<(i64, i64)>>, k: int) -> int
    decreases k,
{
    if k <= 0 {
        0
    } else {
        total_coords(polys, k - 1) + polys[k - 1].len()
    }
}

/// The points of one simplified ring, each tagged with the ring's weight,
/// truncated to 32 bits.
pub open spec fn tagged(pts: Seq<(i64, i64)>, w: u64) -> Seq<BlendVertex> {
    pts.map(
        |j: int, p: (i64, i64)| BlendVertex { position: p, weight: (w % 0x1_0000_0000) as u32 },
    )
}

/// The exact vertex list of a mesh built from the first `k` polygons.
pub open spec fn mesh_vertices(
    polys: Seq<Seq<(i64, i64)>>,
    weights: Seq<u64>,
    tol: i64,
    k: int,
) -> Seq<BlendVertex>
    decreases k,
{
    if k <= 0 {
        Seq::empty()
    } else {
        mesh_vertices(polys, weights, tol, k - 1) + if ring_kept(polys[k - 1], tol) {
            tagged(simplified_ring(polys[k - 1], tol), weights[k - 1])
        } else {
            Seq::empty()
        }
    }
}

/// Sum of the doubled signed areas of the triangles `idx` lists over the
/// mesh vertex list `vs`.
pub open spec fn mesh_tri_area_sum(vs: Seq<BlendVertex>, idx: Seq<u32>) -> int
    decreases idx.len(),
{
    if idx.len() < 3 {
        0
    } else {
        let l = idx.len() as int;
        mesh_tri_area_sum(vs, idx.take(l - 3)) + cross3(
            vs[idx[l - 3] as int].position,
            vs[idx[l - 2] as int].position,
            vs[idx[l - 1] as int].position,
        )
    }
}

/// The triangle block of polygon `i`: its indices stay inside the
/// polygon's own vertex segment, and its triangles' doubled areas sum to
/// the doubled area of the polygon's simplified ring.
pub open spec fn polygon_slice_ok(
    vs: Seq<BlendVertex>,
    idx: Seq<u32>,
    polys: Seq<Seq<(i64, i64)>>,
    tol: i64,
    i: int,
) -> bool {
    let vc = vert_count(polys, tol, i);
    let ring = simplified_ring(polys[i], tol);
    let sub = idx.subrange(tri_index_count(polys, tol, i), tri_index_count(polys, tol, i + 1));
    &&& forall|j: int| 0 <= j < sub.len() ==> vc <= #[trigger] sub[j] < vc + ring.len()
    &&& mesh_tri_area_sum(vs, sub) == fan_area2(ring)
}

/// Everything the builder promises of one level-of-detail mesh.
pub open spec fn mesh_for(
    m: BufferStorage,
    polys: Seq<Seq<(i64, i64)>>,
    weights: Seq<u64>,
    tol: i64,
) -> bool {
    let n = polys.len() as int;
    &&& m.vertices@ == mesh_vertices(polys, weights, tol, n)
    &&& m.vertices@.len() == vert_count(polys, tol, n)
    &&& m.indices@.len() == tri_index_count(polys, tol, n)
    &&& m.num_indices == m.indices@.len()
    &&& forall|k: int| 0 <= k < m.indices@.len() ==> (#[trigger] m.indices@[k] as int)
        < m.vertices@.len()
    &&& forall|i: int| 0 <= i < n && #[trigger] ring_kept(polys[i], tol) ==> polygon_slice_ok(
        m.vertices@,
        m.indices@,
        polys,
        tol,
        i,
    )
}

/// All rings hold world-bounded coordinates.
pub open spec fn polys_ok(polys: Seq<Seq<(i64, i64)>>) -> bool {
    forall|i: int| 0 <= i < polys.len() ==> ring_coords_ok(#[trigger] polys[i])
}

/// The view of a vector of rings.
pub open spec fn rings_of(positions: Seq<Vec<(i64, i64)>>) -> Seq<Seq<(i64, i64)>> {
    positions.map(|i: int, v: Vec<(i64, i64)>| v@)
}

/// The simplification tolerance of each level of detail, in microdegrees,
/// ascending: exact, then two coarsening steps.
pub open spec fn lod_tolerance(j: int) -> i64 {
    if j == 0 {
        0
    } else if j == 1 {
        200_000
    } else {
        400_000
    }
}

pub proof fn lemma_mesh_vertices_len(
    polys: Seq<Seq<(i64, i64)>>,
    weights: Seq<u64>,
    tol: i64,
    k: int,
)
    ensures
        mesh_vertices(polys, weights, tol, k).len() == vert_count(polys, tol, k),
        vert_count(polys, tol, k) >= 0,
    decreases k,
{
    if k > 0 {
        lemma_mesh_vertices_len(polys, weights, tol, k - 1);
    }
}

pub proof fn lemma_counts_bounded(polys: Seq<Seq<(i64, i64)>>, tol: i64, k: int)
    ensures
        0 <= vert_count(polys, tol, k) <= total_coords(polys, k),
        0 <= tri_index_count(polys, tol, k) <= 3 * total_coords(polys, k),
    decreases k,
{
    if k <= 0 {
    } else {
        lemma_counts_bounded(polys, tol, k - 1);
        let ring = polys[k - 1];
        if ring.len() == 0 {
            assert(ring_open(ring).len() == 0);
            assert(!ring_kept(ring, tol));
        } else {
            lemma_rdp_len(ring_open(ring), tol);
        }
    }
}

pub proof fn lemma_total_coords_mono(polys: Seq<Seq<(i64, i64)>>, k1: int, k2: int)
    requires
        k1 <= k2,
    ensures
        total_coords(polys, k1) <= total_coords(polys, k2),
    decreases k2 - k1,
{
    if k1 < k2 {
        lemma_total_coords_mono(polys, k1, k2 - 1);
    }
}

/// Triangle sums only look at the vertices the indices name, so appending
/// vertices to the mesh does not change an existing block's sum.
pub proof fn lemma_mesh_area_agree(vs1: Seq<BlendVertex>, vs2: Seq<BlendVertex>, idx: Seq<u32>)
    requires
        forall|j: int| 0 <= j < idx.len() ==> (#[trigger] idx[j] as int) < vs1.len()
            && (idx[j] as int) < vs2.len() && vs1[idx[j] as int] == vs2[idx[j] as int],
    ensures
        mesh_tri_area_sum(vs1, idx) == mesh_tri_area_sum(vs2, idx),
    decreases idx.len(),
{
    if idx.len() >= 3 {
        let l = idx.len() as int;
        assert(forall|j: int| 0 <= j < l - 3 ==> idx.take(l - 3)[j] == idx[j]);
        lemma_mesh_area_agree(vs1, vs2, idx.take(l - 3));
    }
}

/// The indices of one polygon's triangles, shifted to its segment of the
/// shared vertex list.
pub open spec fn shift_idx(lidx: Seq<u32>, off: u32) -> Seq<u32> {
    lidx.map(|k: int, v: u32| ((v + off) as u32))
}

/// Shifting indices into a vertex segment that holds the ring's points
/// leaves the triangle area sum unchanged.
pub proof fn lemma_mesh_area_shift(
    vs: Seq<BlendVertex>,
    ring: Seq<(i64, i64)>,
    lidx: Seq<u32>,
    off: u32,
)
    requires
        off + ring.len() <= vs.len(),
        off + ring.len() <= 0xFFFF_FFFF,
        forall|j: int| 0 <= j < lidx.len() ==> (#[trigger] lidx[j] as int) < ring.len(),
        forall|t: int| 0 <= t < ring.len() ==> (#[trigger] vs[off + t]).position == ring[t],
    ensures
        mesh_tri_area_sum(vs, shift_idx(lidx, off)) == tri_area_sum(ring, lidx),
    decreases lidx.len(),
{
    let sh = shift_idx(lidx, off);
    if lidx.len() < 3 {
    } else {
        let l = lidx.len() as int;
        assert(sh.take(l - 3) =~= shift_idx(lidx.take(l - 3), off));
        lemma_mesh_area_shift(vs, ring, lidx.take(l - 3), off);
        assert(vs[off + lidx[l - 3] as int].position == ring[lidx[l - 3] as int]);
        assert(vs[off + lidx[l - 2] as int].position == ring[lidx[l - 2] as int]);
        assert(vs[off + lidx[l - 1] as int].position == ring[lidx[l - 1] as int]);
        assert(sh[l - 3] as int == off + lidx[l - 3] as int);
        assert(sh[l - 2] as int == off + lidx[l - 2] as int);
        assert(sh[l - 1] as int == off + lidx[l - 1] as int);
    }
}

/// Builds one level-of-detail mesh at the given tolerance.
fn build_lod(positions: &Vec<Vec<(i64, i64)>>, weights: &Vec<u64>, tol: i64) -> (m: BufferStorage)
    requires
        weights@.len() == positions@.len(),
        polys_ok(rings_of(positions@)),
        total_coords(rings_of(positions@), positions@.len() as int) <= 0x1000_0000,
        0 <= tol <= 1_000_000_000,
    ensures
        mesh_for(m, rings_of(positions@), weights@, tol),
{
    let ghost polys = rings_of(positions@);
    let n = positions.len();
    let mut vertices: Vec<BlendVertex> = Vec::new();
    let mut indices: Vec<u32> = Vec::new();
    let mut i: usize = 0;
    while i < n
        invariant
            i <= n,
            n == positions@.len(),
            weights@.len() == n,
            polys == rings_of(positions@),
            polys.len() == n,
            polys_ok(polys),
            total_coords(polys, n as int) <= 0x1000_0000,
            0 <= tol <= 1_000_000_000,
            vertices@ == mesh_vertices(polys, weights@, tol, i as int),
            vertices@.len() == vert_count(polys, tol, i as int),
            indices@.len() == tri_index_count(polys, tol, i as int),
            forall|k: int| 0 <= k < indices@.len() ==> (#[trigger] indices@[k] as int)
                < vertices@.len(),
            forall|j: int| 0 <= j < i && #[trigger] ring_kept(polys[j], tol)
                ==> polygon_slice_ok(vertices@, indices@, polys, tol, j),
        decreases n - i,
    {
        let ring: &Vec<(i64, i64)> = &positions[i];
        proof {
            assert(polys[i as int] == ring@);
            assert(ring_coords_ok(ring@));
        }
        // Drop the duplicated closing point.
        let mut opened: Vec<(i64, i64)> = Vec::new();
        if ring.len() > 0 {
            let mut j: usize = 0;
            while j < ring.len() - 1
                invariant
                    ring@.len() > 0,
                    j <= ring@.len() - 1,
                    ring_coords_ok(ring@),
                    opened@.len() == j,
                    forall|t: int| 0 <= t < j ==> opened@[t] == ring@[t],
                decreases ring@.len() - j,
            {
                opened.push(ring[j]);
                j = j + 1;
            }
        }
        proof {
            assert(opened@ =~= ring_open(polys[i as int]));
            assert forall|t: int| 0 <= t < opened@.len() implies coord_ok(#[trigger] opened@[t]) by {
                assert(opened@[t] == ring@[t]);
            }
        }
        let simplified = simplify_ring(&opened, tol);
        proof {
            assert(simplified@ == simplified_ring(polys[i as int], tol));
        }
        let ghost verts_old = vertices@;
        let ghost idx_old = indices@;
        if simplified.len() >= 3 {
            let ghost ring_s = simplified_ring(polys[i as int], tol);
            proof {
                assert(ring_kept(polys[i as int], tol));
                lemma_counts_bounded(polys, tol, i as int + 1);
                lemma_total_coords_mono(polys, i as int + 1, n as int);
                lemma_rdp_coords(opened@, tol);
            }
            let w = weights[i];
            let w32: u32 = (w % 0x1_0000_0000) as u32;
            let off = vertices.len();
            proof {
                assert(off + simplified@.len() == vert_count(polys, tol, i as int + 1));
                assert(off + simplified@.len() <= 0x1000_0000);
            }
            let mut j: usize = 0;
            while j < simplified.len()
                invariant
                    j <= simplified@.len(),
                    ring_coords_ok(simplified@),
                    vertices@.len() == off + j,
                    off == verts_old.len(),
                    forall|t: int| 0 <= t < off ==> #[trigger] vertices@[t] == verts_old[t],
                    forall|t: int| 0 <= t < j ==> #[trigger] vertices@[off + t] == (BlendVertex {
                        position: simplified@[t],
                        weight: w32,
                    }),
                decreases simplified@.len() - j,
            {
                vertices.push(BlendVertex { position: simplified[j], weight: w32 });
                j = j + 1;
            }
            proof {
                assert(w32 as int == w as int % 0x1_0000_0000);
                assert forall|t: int| 0 <= t < ring_s.len() implies #[trigger] tagged(ring_s, w)[t]
                    == (BlendVertex { position: ring_s[t], weight: w32 }) by {
                    assert(tagged(ring_s, w)[t].position == ring_s[t]);
                }
                assert forall|t: int| 0 <= t < vertices@.len() implies vertices@[t] == (verts_old
                    + tagged(ring_s, w))[t] by {
                    if t >= off {
                        let t2 = t - off;
                        assert(vertices@[off + t2] == (BlendVertex {
                            position: simplified@[t2],
                            weight: w32,
                        }));
                    }
                }
                assert(vertices@ =~= verts_old + tagged(ring_s, w));
                assert(vertices@ == mesh_vertices(polys, weights@, tol, i as int + 1));
            }
            let lidx = triangulate(&simplified);
            let off32: u32 = off as u32;
            proof {
                assert(off32 as int == off as int);
            }
            let mut k: usize = 0;
            while k < lidx.len()
                invariant
                    k <= lidx@.len(),
                    off32 as int == off as int,
                    off + simplified@.len() <= 0x1000_0000,
                    forall|t: int| 0 <= t < lidx@.len() ==> (#[trigger] lidx@[t] as int)
                        < simplified@.len(),
                    simplified@.len() <= 0x1000_0000,
                    indices@.len() == idx_old.len() + k,
                    forall|t: int| 0 <= t < idx_old.len() ==> #[trigger] indices@[t] == idx_old[t],
                    forall|t: int| 0 <= t < k ==> #[trigger] indices@[idx_old.len() + t] as int
                        == lidx@[t] + off,
                decreases lidx@.len() - k,
            {
                indices.push(lidx[k] + off32);
                k = k + 1;
            }
            proof {
                assert forall|t: int| 0 <= t < lidx@.len() implies #[trigger] shift_idx(
                    lidx@,
                    off32,
                )[t] == indices@[idx_old.len() + t] by {
                    assert(lidx@[t] + off32 <= 0x2000_0000);
                    assert(shift_idx(lidx@, off32)[t] as int == lidx@[t] + off32);
                }
                assert(indices@ =~= idx_old + shift_idx(lidx@, off32));
                // The new block is polygon i's own.
                let sub = indices@.subrange(
                    tri_index_count(polys, tol, i as int),
                    tri_index_count(polys, tol, i as int + 1),
                );
                assert(sub =~= shift_idx(lidx@, off32));
                lemma_mesh_area_shift(vertices@, ring_s, lidx@, off32);
                assert(mesh_tri_area_sum(vertices@, sub) == fan_area2(ring_s));
                assert(polygon_slice_ok(vertices@, indices@, polys, tol, i as int));
                // Earlier blocks are untouched: same indices, same vertices.
                assert forall|j2: int| 0 <= j2 < i && #[trigger] ring_kept(polys[j2], tol)
                    implies polygon_slice_ok(vertices@, indices@, polys, tol, j2) by {
                    let tc0 = tri_index_count(polys, tol, j2);
                    let tc1 = tri_index_count(polys, tol, j2 + 1);
                    lemma_counts_bounded(polys, tol, j2);
                    lemma_tri_count_mono(polys, tol, j2, j2 + 1);
                    lemma_tri_count_mono(polys, tol, j2 + 1, i as int);
                    let old_sub = idx_old.subrange(tc0, tc1);
                    let new_sub = indices@.subrange(tc0, tc1);
                    assert(polygon_slice_ok(verts_old, idx_old, polys, tol, j2));
                    assert(new_sub =~= old_sub);
                    lemma_mesh_vertices_len(polys, weights@, tol, j2 + 1);
                    assert forall|t: int| 0 <= t < new_sub.len() implies (
                        #[trigger] new_sub[t] as int) < verts_old.len()
                        && (new_sub[t] as int) < vertices@.len()
                        && vertices@[new_sub[t] as int] == verts_old[new_sub[t] as int] by {
                        assert(old_sub[t] == new_sub[t]);
                        assert(vert_count(polys, tol, j2) <= old_sub[t] < vert_count(polys, tol, j2)
                            + simplified_ring(polys[j2], tol).len());
                        lemma_vert_count_mono(polys, tol, j2 + 1, i as int);
                    }
                    lemma_mesh_area_agree(vertices@, verts_old, new_sub);
                }
            }
        } else {
            proof {
                assert(!ring_kept(polys[i as int], tol));
                assert(vertices@ =~= mesh_vertices(polys, weights@, tol, i as int + 1));
                assert forall|j2: int| 0 <= j2 < i + 1 && #[trigger] ring_kept(polys[j2], tol)
                    implies polygon_slice_ok(vertices@, indices@, polys, tol, j2) by {
                    assert(j2 < i);
                }
            }
        }
        i = i + 1;
    }
    let ni = indices.len();
    proof {
        lemma_counts_bounded(polys, tol, n as int);
        assert(ni <= 3 * 0x1000_0000);
    }
    let num_indices: u32 = ni as u32;
    proof {
        assert(num_indices as int == ni as int);
    }
    BufferStorage { vertices, indices, num_indices }
}

pub proof fn lemma_tri_count_mono(polys: Seq<Seq<(i64, i64)>>, tol: i64, k1: int, k2: int)
    requires
        k1 <= k2,
    ensures
        tri_index_count(polys, tol, k1) <= tri_index_count(polys, tol, k2),
    decreases k2 - k1,
{
    if k1 < k2 {
        lemma_tri_count_mono(polys, tol, k1, k2 - 1);
    }
}

pub proof fn lemma_vert_count_mono(polys: Seq<Seq<(i64, i64)>>, tol: i64, k1: int, k2: int)
    requires
        k1 <= k2,
    ensures
        vert_count(polys, tol, k1) <= vert_count(polys, tol, k2),
    decreases k2 - k1,
{
    if k1 < k2 {
        lemma_vert_count_mono(polys, tol, k1, k2 - 1);
        if ring_kept(polys[k2 - 1], tol) {
        }
    }
}

/// Triangulation closure law: in a built mesh, every kept polygon's
/// triangle block has a length that is a multiple of three, every index in
/// the block names a vertex of that polygon's own segment, and the doubled
/// signed areas of the block's triangles sum exactly to the doubled signed
/// area of the polygon's simplified ring.
pub proof fn lemma_triangulation_closure(
    m: BufferStorage,
    polys: Seq<Seq<(i64, i64)>>,
    weights: Seq<u64>,
    tol: i64,
    i: int,
)
    requires
        mesh_for(m, polys, weights, tol),
        0 <= i < polys.len(),
        ring_kept(polys[i], tol),
    ensures
        ({
            let sub = m.indices@.subrange(
                tri_index_count(polys, tol, i),
                tri_index_count(polys, tol, i + 1),
            );
            let ring = simplified_ring(polys[i], tol);
            &&& sub.len() == 3 * (ring.len() - 2)
            &&& sub.len() % 3 == 0
            &&& forall|j: int| 0 <= j < sub.len() ==> vert_count(polys, tol, i) <= #[trigger] sub[j]
                < vert_count(polys, tol, i) + ring.len()
            &&& mesh_tri_area_sum(m.vertices@, sub) == fan_area2(ring)
        }),
{
    lemma_tri_count_mono(polys, tol, 0, i);
    lemma_tri_count_mono(polys, tol, i + 1, polys.len() as int);
    lemma_counts_bounded(polys, tol, i);
    assert(polygon_slice_ok(m.vertices@, m.indices@, polys, tol, i));
}

/// Per-ring form of the LOD monotonicity law.
proof fn lemma_ring_vert_monotone(ring: Seq<(i64, i64)>, t1: i64, t2: i64)
    requires
        0 <= t1 <= t2,
    ensures
        ring_vert_count(ring, t2) <= ring_vert_count(ring, t1),
{
    let open = ring_open(ring);
    if open.len() >= 2 {
        crate::simplify::lemma_rdp_rec_monotone(open, 0, open.len() - 1, t1, t2);
        crate::simplify::lemma_rdp_rec_len(open, 0, open.len() - 1, t1);
        crate::simplify::lemma_rdp_rec_len(open, 0, open.len() - 1, t2);
    }
}

proof fn lemma_vert_count_tol_monotone(polys: Seq<Seq<(i64, i64)>>, t1: i64, t2: i64, k: int)
    requires
        0 <= t1 <= t2,
    ensures
        vert_count(polys, t2, k) <= vert_count(polys, t1, k),
    decreases k,
{
    if k > 0 {
        lemma_vert_count_tol_monotone(polys, t1, t2, k - 1);
        lemma_ring_vert_monotone(polys[k - 1], t1, t2);
    }
}

/// LOD monotonicity law: for the same input polygons, a mesh built at a
/// higher tolerance never has more vertices than one built at a lower
/// tolerance.
pub proof fn lemma_lod_monotonicity(
    m1: BufferStorage,
    m2: BufferStorage,
    polys: Seq<Seq<(i64, i64)>>,
    weights: Seq<u64>,
    t1: i64,
    t2: i64,
)
    requires
        mesh_for(m1, polys, weights, t1),
        mesh_for(m2, polys, weights, t2),
        0 <= t1 <= t2,
    ensures
        m2.vertices@.len() <= m1.vertices@.len(),
{
    lemma_vert_count_tol_monotone(polys, t1, t2, polys.len() as int);
}

proof fn lemma_mesh_vertex_at(
    polys: Seq<Seq<(i64, i64)>>,
    weights: Seq<u64>,
    tol: i64,
    k: int,
    i: int,
    j: int,
)
    requires
        0 <= i < k,
        ring_kept(polys[i], tol),
        0 <= j < ring_vert_count(polys[i], tol),
    ensures
        mesh_vertices(polys, weights, tol, k)[vert_count(polys, tol, i) + j] == (BlendVertex {
            position: simplified_ring(polys[i], tol)[j],
            weight: (weights[i] % 0x1_0000_0000) as u32,
        }),
    decreases k,
{
    lemma_mesh_vertices_len(polys, weights, tol, k - 1);
    lemma_counts_bounded(polys, tol, i);
    if i == k - 1 {
        let prev = mesh_vertices(polys, weights, tol, k - 1);
        let t = tagged(simplified_ring(polys[i], tol), weights[i]);
        assert(mesh_vertices(polys, weights, tol, k)[vert_count(polys, tol, i) + j] == t[j]);
    } else {
        lemma_mesh_vertex_at(polys, weights, tol, k - 1, i, j);
        lemma_vert_count_mono(polys, tol, i + 1, k - 1);
        lemma_mesh_vertices_len(polys, weights, tol, k);
    }
}

/// Weight alignment law: in a built mesh, every vertex of polygon `i`'s
/// segment carries polygon `i`'s weight (truncated to 32 bits) — weights
/// never leak across polygon boundaries, however triangulation reordered
/// the geometry.
pub proof fn lemma_weight_alignment(
    m: BufferStorage,
    polys: Seq<Seq<(i64, i64)>>,
    weights: Seq<u64>,
    tol: i64,
    i: int,
    j: int,
)
    requires
        mesh_for(m, polys, weights, tol),
        0 <= i < polys.len(),
        ring_kept(polys[i], tol),
        0 <= j < ring_vert_count(polys[i], tol),
    ensures
        m.vertices@[vert_count(polys, tol, i) + j].weight == (weights[i] % 0x1_0000_0000) as u32,
        m.vertices@[vert_count(polys, tol, i) + j].position == simplified_ring(polys[i], tol)[j],
{
    lemma_mesh_vertex_at(polys, weights, tol, polys.len() as int, i, j);
}

/// Builds the polygon meshes for every level of detail.
pub struct MeshBuilder;

impl MeshBuilder {
    /// One mesh per tolerance level, ascending: the weighted heatmap
    /// geometry.
    pub fn build(positions: &Vec<Vec<(i64, i64)>>, weights: &Vec<u64>) -> (lods: Vec<
        BufferStorage,
    >)
        requires
            weights@.len() == positions@.len(),
            polys_ok(rings_of(positions@)),
            total_coords(rings_of(positions@), positions@.len() as int) <= 0x1000_0000,
        ensures
            lods@.len() == 3,
            forall|j: int| 0 <= j < 3 ==> mesh_for(
                #[trigger] lods@[j],
                rings_of(positions@),
                weights@,
                lod_tolerance(j),
            ),
    {
        let mut lods: Vec<BufferStorage> = Vec::new();
        lods.push(build_lod(positions, weights, 0));
        lods.push(build_lod(positions, weights, 200_000));
        lods.push(build_lod(positions, weights, 400_000));
        lods
    }

    /// The same meshes for the world outline: every weight is zero, since
    /// the outline contributes line geometry but no heat.
    pub fn build_outline(positions: &Vec<Vec<(i64, i64)>>) -> (lods: Vec<BufferStorage>)
        requires
            polys_ok(rings_of(positions@)),
            total_coords(rings_of(positions@), positions@.len() as int) <= 0x1000_0000,
        ensures
            lods@.len() == 3,
            forall|j: int| 0 <= j < 3 ==> mesh_for(
                #[trigger] lods@[j],
                rings_of(positions@),
                Seq::new(positions@.len(), |t: int| 0u64),
                lod_tolerance(j),
            ),
    {
        let mut weights: Vec<u64> = Vec::new();
        let n = positions.len();
        let mut i: usize = 0;
        while i < n
            invariant
                i <= n,
                weights@.len() == i,
                forall|t: int| 0 <= t < i ==> weights@[t] == 0u64,
            decreases n - i,
        {
            weights.push(0);
            i = i + 1;
        }
        proof {
            assert(weights@ =~= Seq::new(positions@.len(), |t: int| 0u64));
        }
        let mut lods: Vec<BufferStorage> = Vec::new();
        lods.push(build_lod(positions, &weights, 0));
        lods.push(build_lod(positions, &weights, 200_000));
        lods.push(build_lod(positions, &weights, 400_000));
        lods
    }
}

} // verus!
