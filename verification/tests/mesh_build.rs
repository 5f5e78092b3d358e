//! The mesh builder: triangulation closure, weight alignment, level-of-
//! detail monotonicity and the degenerate-polygon rule, on concrete
//! polygons.  Coordinates are microdegrees.

use heatmap::mesh::{BufferStorage, MeshBuilder};
use heatmap::simplify::simplify_ring;
use heatmap::triangulate::triangulate;

/// A closed square ring with its duplicated closing point, `side`
/// microdegrees long, lower-left corner at `(x, y)`.
fn square(x: i64, y: i64, side: i64) -> Vec<(i64, i64)> {
    vec![(x, y), (x + side, y), (x + side, y + side), (x, y + side), (x, y)]
}

/// Twice the signed area of the triangles of one index list, summed.
fn doubled_triangle_area(vertices: &[(i64, i64)], indices: &[u32]) -> i128 {
    let mut total: i128 = 0;
    for t in 0..indices.len() / 3 {
        let a = vertices[indices[3 * t] as usize];
        let b = vertices[indices[3 * t + 1] as usize];
        let c = vertices[indices[3 * t + 2] as usize];
        total += ((b.0 - a.0) as i128) * ((c.1 - a.1) as i128)
            - ((b.1 - a.1) as i128) * ((c.0 - a.0) as i128);
    }
    total
}

/// Twice the signed area of a polygon by the shoelace formula.
fn doubled_polygon_area(ring: &[(i64, i64)]) -> i128 {
    let mut total: i128 = 0;
    for i in 0..ring.len() {
        let a = ring[i];
        let b = ring[(i + 1) % ring.len()];
        total += (a.0 as i128) * (b.1 as i128) - (b.0 as i128) * (a.1 as i128);
    }
    total
}

#[test]
fn triangulation_covers_convex_polygon() {
    let ring: Vec<(i64, i64)> = vec![
        (0, 0),
        (10_000_000, 0),
        (10_000_000, 10_000_000),
        (0, 10_000_000),
    ];
    let idx = triangulate(&ring);
    assert_eq!(idx.len(), 6);
    assert_eq!(idx.len() % 3, 0);
    assert!(idx.iter().all(|&k| (k as usize) < ring.len()));
    assert_eq!(
        doubled_triangle_area(&ring, &idx),
        doubled_polygon_area(&ring)
    );
}

#[test]
fn triangulation_covers_concave_polygon() {
    // An L-shape: non-convex, hole-free.
    let ring: Vec<(i64, i64)> = vec![
        (0, 0),
        (20_000_000, 0),
        (20_000_000, 10_000_000),
        (10_000_000, 10_000_000),
        (10_000_000, 20_000_000),
        (0, 20_000_000),
    ];
    let idx = triangulate(&ring);
    assert_eq!(idx.len(), 3 * (ring.len() - 2));
    assert!(idx.iter().all(|&k| (k as usize) < ring.len()));
    assert_eq!(
        doubled_triangle_area(&ring, &idx),
        doubled_polygon_area(&ring)
    );
}

#[test]
fn build_produces_three_lods_with_aligned_weights() {
    let positions = vec![square(0, 0, 10_000_000), square(5_000_000, 5_000_000, 10_000_000)];
    let weights: Vec<u64> = vec![2, 5];
    let lods = MeshBuilder::build(&positions, &weights);
    assert_eq!(lods.len(), 3);
    for lod in &lods {
        assert_eq!(lod.num_indices as usize, lod.indices.len());
        assert_eq!(lod.indices.len() % 3, 0);
        assert!(lod
            .indices
            .iter()
            .all(|&k| (k as usize) < lod.vertices.len()));
        // Two squares of four vertices each; the first four carry the
        // first polygon's weight, the last four the second's.
        assert_eq!(lod.vertices.len(), 8);
        assert!(lod.vertices[..4].iter().all(|v| v.weight == 2));
        assert!(lod.vertices[4..].iter().all(|v| v.weight == 5));
    }
}

#[test]
fn weight_is_truncated_to_32_bits() {
    let positions = vec![square(0, 0, 10_000_000)];
    let weights: Vec<u64> = vec![0x1_0000_0007];
    let lods = MeshBuilder::build(&positions, &weights);
    assert!(lods[0].vertices.iter().all(|v| v.weight == 7));
}

#[test]
fn higher_tolerance_never_adds_vertices() {
    // A square with small zigzags on its lower edge: the zigzags survive
    // the exact level but vanish at the coarser tolerances.
    let mut ring: Vec<(i64, i64)> = Vec::new();
    ring.push((0, 0));
    for k in 1..10i64 {
        ring.push((k * 1_000_000, if k % 2 == 0 { 0 } else { 50_000 }));
    }
    ring.push((10_000_000, 0));
    ring.push((10_000_000, 10_000_000));
    ring.push((0, 10_000_000));
    ring.push((0, 0));
    let positions = vec![ring];
    let weights: Vec<u64> = vec![1];
    let lods = MeshBuilder::build(&positions, &weights);
    assert!(lods[1].vertices.len() <= lods[0].vertices.len());
    assert!(lods[2].vertices.len() <= lods[1].vertices.len());
    assert!(lods[2].vertices.len() < lods[0].vertices.len());
}

#[test]
fn degenerate_polygon_is_dropped_silently() {
    // After the closing point is removed only two vertices remain, so the
    // polygon contributes nothing — and the build still succeeds.
    let positions = vec![vec![(0, 0), (10_000_000, 0), (0, 0)], square(0, 0, 10_000_000)];
    let weights: Vec<u64> = vec![9, 3];
    let lods = MeshBuilder::build(&positions, &weights);
    assert_eq!(lods[0].vertices.len(), 4);
    assert!(lods[0].vertices.iter().all(|v| v.weight == 3));
}

#[test]
fn empty_input_builds_empty_lods() {
    let positions: Vec<Vec<(i64, i64)>> = Vec::new();
    let weights: Vec<u64> = Vec::new();
    let lods = MeshBuilder::build(&positions, &weights);
    assert_eq!(lods.len(), 3);
    for lod in &lods {
        assert_eq!(lod.vertices.len(), 0);
        assert_eq!(lod.indices.len(), 0);
        assert_eq!(lod.num_indices, 0);
    }
}

#[test]
fn outline_build_forces_zero_weights() {
    let positions = vec![square(0, 0, 10_000_000)];
    let lods = MeshBuilder::build_outline(&positions);
    assert_eq!(lods.len(), 3);
    assert!(lods[0].vertices.iter().all(|v| v.weight == 0));
}

#[test]
fn simplify_keeps_endpoints_and_drops_near_collinear_points() {
    let line: Vec<(i64, i64)> = vec![
        (0, 0),
        (1_000_000, 40_000),
        (2_000_000, 0),
        (3_000_000, 30_000),
        (4_000_000, 0),
    ];
    let kept = simplify_ring(&line, 200_000);
    assert_eq!(kept, vec![(0, 0), (4_000_000, 0)]);
    let exact = simplify_ring(&line, 0);
    assert_eq!(exact.len(), line.len());
}

#[test]
fn buffer_storage_records_index_count() {
    let positions = vec![square(0, 0, 10_000_000)];
    let weights: Vec<u64> = vec![1];
    let lods = MeshBuilder::build(&positions, &weights);
    let BufferStorage { vertices, indices, num_indices } = &lods[0];
    assert_eq!(vertices.len(), 4);
    assert_eq!(*num_indices as usize, indices.len());
}
