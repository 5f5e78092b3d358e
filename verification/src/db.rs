//! Database-side records: one granule row per acquisition, and the flat
//! arrays the query endpoint answers with.
//!
//! Midpoints are (longitude, latitude) in microdegrees; timestamps are
//! plain civil timestamps; times in the response count days from the first
//! of January of the range's starting year.

use vstd::prelude::*;

use crate::date::{date_range_wf, datetime_wf, transform_date_spec, DateRange, DateTime};

verus! {

/// One acquisition record from the archive table.
#[derive(Debug)]
pub struct Granule {
    pub dataset: String,
    pub data_transferred: i64,
    pub midpoint: (i64, i64),
    pub time: DateTime,
}

pub open spec fn granules_wf(gs: Seq<Granule>) -> bool {
    forall|i: int| 0 <= i < gs.len() ==> datetime_wf(#[trigger] gs[i].time)
}

/// The flattened midpoint coordinates: x then y, per granule.
pub open spec fn positions_of(gs: Seq<Granule>) -> Seq<i64> {
    Seq::new(2 * gs.len(), |i: int| if i % 2 == 0 {
        gs[i / 2].midpoint.0
    } else {
        gs[i / 2].midpoint.1
    })
}

pub open spec fn weights_of(gs: Seq<Granule>) -> Seq<i64> {
    gs.map(|i: int, g: Granule| g.data_transferred)
}

pub open spec fn times_of(gs: Seq<Granule>, range: DateRange) -> Seq<i32> {
    Seq::new(gs.len(), |i: int| transform_date_spec(range, gs[i].time) as i32)
}

/// The flat arrays the heatmap query answers with.
#[derive(Debug, PartialEq)]
pub struct HeatmapData {
    pub length: i32,
    pub positions: Vec<i64>,
    pub weights: Vec<i64>,
    pub times: Vec<i32>,
}

impl HeatmapData {
    /// Flattens the granules: coordinate pairs in order, one weight and
    /// one day number per granule.
    pub fn from_granules(granules: Vec<Granule>, date_range: DateRange) -> (r: HeatmapData)
        requires
            granules@.len() <= 0x7FFF_FFFF,
            granules_wf(granules@),
            date_range_wf(date_range),
        ensures
            r.length == granules@.len(),
            r.positions@ == positions_of(granules@),
            r.weights@ == weights_of(granules@),
            r.times@ == times_of(granules@, date_range),
    {
        let n = granules.len();
        let mut positions: Vec<i64> = Vec::new();
        let mut weights: Vec<i64> = Vec::new();
        let mut times: Vec<i32> = Vec::new();
        let mut i: usize = 0;
        while i < n
            invariant
                i <= n,
                n == granules@.len(),
                granules_wf(granules@),
                date_range_wf(date_range),
                positions@.len() == 2 * i,
                weights@.len() == i,
                times@.len() == i,
                forall|t: int| 0 <= t < 2 * i ==> positions@[t] == positions_of(granules@)[t],
                forall|t: int| 0 <= t < i ==> weights@[t] == weights_of(granules@)[t],
                forall|t: int| 0 <= t < i ==> times@[t] == times_of(granules@, date_range)[t],
            decreases n - i,
        {
            let g = &granules[i];
            positions.push(g.midpoint.0);
            positions.push(g.midpoint.1);
            weights.push(g.data_transferred);
            times.push(date_range.transform_date(g.time));
            proof {
                assert((2 * (i as int)) % 2 == 0);
                assert((2 * (i as int) + 1) % 2 == 1);
                assert((2 * (i as int)) / 2 == i as int);
                assert((2 * (i as int) + 1) / 2 == i as int);
            }
            i = i + 1;
        }
        proof {
            assert(positions@ =~= positions_of(granules@));
            assert(weights@ =~= weights_of(granules@));
            assert(times@ =~= times_of(granules@, date_range));
        }
        HeatmapData { length: n as i32, positions, weights, times }
    }
}

/// The full query answer: the flat arrays and the range they cover.
#[derive(Debug, PartialEq)]
pub struct HeatmapResponse {
    pub data: HeatmapData,
    pub date_start: DateTime,
    pub date_end: DateTime,
}

impl HeatmapResponse {
    /// Wraps the flattened granules together with the covered range.
    pub fn from_database_data(granules: Vec<Granule>, date_range: DateRange) -> (r:
        HeatmapResponse)
        requires
            granules@.len() <= 0x7FFF_FFFF,
            granules_wf(granules@),
            date_range_wf(date_range),
        ensures
            r.data.length == granules@.len(),
            r.data.positions@ == positions_of(granules@),
            r.data.weights@ == weights_of(granules@),
            r.data.times@ == times_of(granules@, date_range),
            r.date_start == date_range.start,
            r.date_end == date_range.end,
    {
        let data = HeatmapData::from_granules(granules, date_range);
        HeatmapResponse { data, date_start: date_range.start, date_end: date_range.end }
    }
}

} // verus!
