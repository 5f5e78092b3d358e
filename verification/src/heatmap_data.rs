//! The service's heatmap payload: every footprint ring of every granule,
//! with one weight per ring — the number of acquisitions the granule
//! aggregates.

use vstd::prelude::*;

use crate::granule::{copy_ring, Granule};
use crate::mesh::rings_of;

verus! {

/// The rings of the first `k` granules, concatenated.
pub open spec fn granule_rings(gs: Seq<Granule>, k: int) -> Seq<Seq<(i64, i64)>>
    decreases k,
{
    if k <= 0 {
        Seq::empty()
    } else {
        granule_rings(gs, k - 1) + rings_of(gs[k - 1].polygons@)
    }
}

/// One weight per ring of the first `k` granules: each granule's ancestor
/// count, repeated for each of its rings.
pub open spec fn granule_weights(gs: Seq<Granule>, k: int) -> Seq<u64>
    decreases k,
{
    if k <= 0 {
        Seq::empty()
    } else {
        granule_weights(gs, k - 1) + Seq::new(
            gs[k - 1].polygons@.len(),
            |t: int| gs[k - 1].ancestors@.len() as u64,
        )
    }
}

/// The heatmap payload: one closed ring per polygon and one weight per
/// polygon.
#[derive(Debug)]
pub struct HeatmapData {
    pub length: i32,
    pub positions: Vec<Vec<(i64, i64)>>,
    pub weights: Vec<u64>,
}

impl HeatmapData {
    /// Collects every granule's rings, tagging each ring with its
    /// granule's ancestor count.
    pub fn from_granules(granules: &Vec<Granule>) -> (r: HeatmapData)
        requires
            granules@.len() <= 0x7FFF_FFFF,
        ensures
            r.length == granules@.len(),
            rings_of(r.positions@) == granule_rings(granules@, granules@.len() as int),
            r.weights@ == granule_weights(granules@, granules@.len() as int),
    {
        let n = granules.len();
        let mut positions: Vec<Vec<(i64, i64)>> = Vec::new();
        let mut weights: Vec<u64> = Vec::new();
        let mut i: usize = 0;
        while i < n
            invariant
                i <= n,
                n == granules@.len(),
                rings_of(positions@) == granule_rings(granules@, i as int),
                weights@ == granule_weights(granules@, i as int),
            decreases n - i,
        {
            let g = &granules[i];
            let w: u64 = g.ancestors.len() as u64;
            push_granule_rings(&mut positions, &mut weights, g, w);
            proof {
                assert(Seq::new(g.polygons@.len(), |t: int| w) =~= Seq::new(
                    g.polygons@.len(),
                    |t: int| g.ancestors@.len() as u64,
                ));
                assert(rings_of(positions@) =~= granule_rings(granules@, i as int + 1));
                assert(weights@ =~= granule_weights(granules@, i as int + 1));
            }
            i = i + 1;
        }
        HeatmapData { length: n as i32, positions, weights }
    }
}

/// Appends one granule's rings, each tagged with the given weight.
pub fn push_granule_rings(
    positions: &mut Vec<Vec<(i64, i64)>>,
    weights: &mut Vec<u64>,
    g: &Granule,
    w: u64,
)
    ensures
        rings_of(final(positions)@) == rings_of(old(positions)@) + rings_of(g.polygons@),
        final(weights)@ == old(weights)@ + Seq::new(g.polygons@.len(), |t: int| w),
{
    let m = g.polygons.len();
    let mut j: usize = 0;
    while j < m
        invariant
            j <= m,
            m == g.polygons@.len(),
            positions@.len() == old(positions)@.len() + j,
            weights@.len() == old(weights)@.len() + j,
            forall|t: int| 0 <= t < old(positions)@.len() ==> #[trigger] positions@[t]@ == old(
                positions,
            )@[t]@,
            forall|t: int| 0 <= t < j ==> #[trigger] positions@[old(positions)@.len() + t]@
                == g.polygons@[t]@,
            forall|t: int| 0 <= t < old(weights)@.len() ==> #[trigger] weights@[t] == old(
                weights,
            )@[t],
            forall|t: int| 0 <= t < j ==> #[trigger] weights@[old(weights)@.len() + t] == w,
        decreases m - j,
    {
        let ring = copy_ring(&g.polygons[j]);
        positions.push(ring);
        weights.push(w);
        j = j + 1;
    }
    proof {
        assert forall|t: int| 0 <= t < positions@.len() implies #[trigger] rings_of(positions@)[t]
            == (rings_of(old(positions)@) + rings_of(g.polygons@))[t] by {
            if t >= old(positions)@.len() {
                let t2 = t - old(positions)@.len();
                assert(positions@[old(positions)@.len() + t2]@ == g.polygons@[t2]@);
            }
        }
        assert(rings_of(positions@) =~= rings_of(old(positions)@) + rings_of(g.polygons@));
        assert forall|t: int| 0 <= t < weights@.len() implies weights@[t] == (old(weights)@
            + Seq::new(g.polygons@.len(), |t2: int| w))[t] by {
            if t >= old(weights)@.len() {
                let t2 = t - old(weights)@.len();
                assert(weights@[old(weights)@.len() + t2] == w);
            }
        }
        assert(weights@ =~= old(weights)@ + Seq::new(g.polygons@.len(), |t: int| w));
    }
}

} // verus!
