//! Service-side granules: the polygon footprints read from the geographic
//! assets, with the ancestor acquisitions each footprint aggregates.

use vstd::prelude::*;

use crate::api::{DataSensor, PlatformType, ProductTypes};
use crate::date::DateTime;
use crate::mesh::rings_of;

verus! {

/// One ancestor acquisition of a footprint.
#[derive(Debug)]
pub struct Ancestor {
    pub granule_name: String,
    pub product_type: ProductTypes,
    pub platform_type: PlatformType,
    pub data_sensor: DataSensor,
    pub start_time: DateTime,
}

/// One footprint: its polygon rings in microdegrees, and the acquisitions
/// it stands for.
#[derive(Debug)]
pub struct Granule {
    pub polygons: Vec<Vec<(i64, i64)>>,
    pub ancestors: Vec<Ancestor>,
}

/// Copies one ring.
pub fn copy_ring(v: &Vec<(i64, i64)>) -> (r: Vec<(i64, i64)>)
    ensures
        r@ == v@,
{
    let mut r: Vec<(i64, i64)> = Vec::new();
    let mut i: usize = 0;
    while i < v.len()
        invariant
            i <= v@.len(),
            r@.len() == i,
            forall|t: int| 0 <= t < i ==> r@[t] == v@[t],
        decreases v@.len() - i,
    {
        r.push(v[i]);
        i = i + 1;
    }
    proof {
        assert(r@ =~= v@);
    }
    r
}

impl Granule {
    /// The footprint's rings, as owned coordinate lists.
    pub fn get_polygons(&self) -> (r: Vec<Vec<(i64, i64)>>)
        ensures
            rings_of(r@) == rings_of(self.polygons@),
            r@.len() == self.polygons@.len(),
    {
        let mut r: Vec<Vec<(i64, i64)>> = Vec::new();
        let mut i: usize = 0;
        while i < self.polygons.len()
            invariant
                i <= self.polygons@.len(),
                r@.len() == i,
                forall|t: int| 0 <= t < i ==> #[trigger] r@[t]@ == self.polygons@[t]@,
            decreases self.polygons@.len() - i,
        {
            let ring = copy_ring(&self.polygons[i]);
            r.push(ring);
            i = i + 1;
        }
        proof {
            assert(rings_of(r@) =~= rings_of(self.polygons@));
        }
        r
    }
}

} // verus!
