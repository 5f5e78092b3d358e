//! The outline query endpoint's answer: every footprint ring of the world
//! outline, with no weights — the outline contributes line geometry only.

use vstd::prelude::*;

use crate::granule::Granule;
use crate::heatmap_data::{granule_rings, push_granule_rings};
use crate::mesh::rings_of;

verus! {

/// The outline payload: one closed ring per polygon.
#[derive(Debug)]
pub struct OutlineData {
    pub length: i32,
    pub positions: Vec<Vec<(i64, i64)>>,
}

impl OutlineData {
    /// Collects every granule's rings, in order.
    pub fn from_granules(granules: &Vec<Granule>) -> (r: OutlineData)
        requires
            granules@.len() <= 0x7FFF_FFFF,
        ensures
            r.length == granules@.len(),
            rings_of(r.positions@) == granule_rings(granules@, granules@.len() as int),
    {
        let n = granules.len();
        let mut positions: Vec<Vec<(i64, i64)>> = Vec::new();
        let mut weights: Vec<u64> = Vec::new();
        let mut i: usize = 0;
        while i < n
            invariant
                i <= n,
                n == granules@.len(),
                rings_of(positions@) == granule_rings(granules@, i as int),
            decreases n - i,
        {
            let g = &granules[i];
            push_granule_rings(&mut positions, &mut weights, g, 0);
            proof {
                assert(rings_of(positions@) =~= granule_rings(granules@, i as int + 1));
            }
            i = i + 1;
        }
        OutlineData { length: n as i32, positions }
    }
}

/// The outline query answer.
#[derive(Debug)]
pub struct OutlineResponse {
    pub data: OutlineData,
}

impl OutlineResponse {
    /// Wraps the collected outline rings.
    pub fn from_geojson(granules: &Vec<Granule>) -> (r: OutlineResponse)
        requires
            granules@.len() <= 0x7FFF_FFFF,
        ensures
            r.data.length == granules@.len(),
            rings_of(r.data.positions@) == granule_rings(granules@, granules@.len() as int),
    {
        OutlineResponse { data: OutlineData::from_granules(granules) }
    }
}

} // verus!
