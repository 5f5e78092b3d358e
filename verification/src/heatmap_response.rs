//! The heatmap query endpoint's answer: granules filtered down to the
//! acquisitions a query asks for, then flattened into the heatmap payload.

use vstd::prelude::*;

use crate::api::{Filter, PlatformType, ProductTypes};
use crate::date::{date_text_ok, day_num, month_num, parse_date, year_num, DateTime};
use crate::granule::{Ancestor, Granule};
use crate::heatmap_data::{push_granule_rings, HeatmapData};
use crate::mesh::rings_of;

verus! {

/// Lexicographic order on (year, month, day) triples — the calendar order.
pub open spec fn date_le(a: (int, int, int), b: (int, int, int)) -> bool {
    a.0 < b.0 || (a.0 == b.0 && (a.1 < b.1 || (a.1 == b.1 && a.2 <= b.2)))
}

/// The calendar date of a timestamp.
pub open spec fn date_of(t: DateTime) -> (int, int, int) {
    (t.year as int, t.month as int, t.day as int)
}

/// Whether one acquisition passes the query filter: its product type and
/// platform are among those asked for and its date lies in the range.
pub open spec fn matches_filter(
    a: Ancestor,
    products: Seq<ProductTypes>,
    platforms: Seq<PlatformType>,
    start: (int, int, int),
    end: (int, int, int),
) -> bool {
    &&& products.contains(a.product_type)
    &&& platforms.contains(a.platform_type)
    &&& date_le(start, date_of(a.start_time))
    &&& date_le(date_of(a.start_time), end)
}

/// How many of a granule's acquisitions pass the filter.
pub open spec fn kept_count(
    anc: Seq<Ancestor>,
    products: Seq<ProductTypes>,
    platforms: Seq<PlatformType>,
    start: (int, int, int),
    end: (int, int, int),
) -> int
    decreases anc.len(),
{
    if anc.len() == 0 {
        0
    } else {
        kept_count(anc.drop_last(), products, platforms, start, end) + if matches_filter(
            anc.last(),
            products,
            platforms,
            start,
            end,
        ) {
            1int
        } else {
            0
        }
    }
}

/// The rings of the first `k` granules that keep at least one acquisition.
pub open spec fn filtered_rings(
    gs: Seq<Granule>,
    products: Seq<ProductTypes>,
    platforms: Seq<PlatformType>,
    start: (int, int, int),
    end: (int, int, int),
    k: int,
) -> Seq<Seq<(i64, i64)>>
    decreases k,
{
    if k <= 0 {
        Seq::empty()
    } else {
        filtered_rings(gs, products, platforms, start, end, k - 1) + if kept_count(
            gs[k - 1].ancestors@,
            products,
            platforms,
            start,
            end,
        ) > 0 {
            rings_of(gs[k - 1].polygons@)
        } else {
            Seq::empty()
        }
    }
}

/// One weight per kept ring: the granule's surviving acquisition count.
pub open spec fn filtered_weights(
    gs: Seq<Granule>,
    products: Seq<ProductTypes>,
    platforms: Seq<PlatformType>,
    start: (int, int, int),
    end: (int, int, int),
    k: int,
) -> Seq<u64>
    decreases k,
{
    if k <= 0 {
        Seq::empty()
    } else {
        filtered_weights(gs, products, platforms, start, end, k - 1) + ({
            let c = kept_count(gs[k - 1].ancestors@, products, platforms, start, end);
            if c > 0 {
                Seq::new(gs[k - 1].polygons@.len(), |t: int| c as u64)
            } else {
                Seq::empty()
            }
        })
    }
}

/// How many of the first `k` granules keep at least one acquisition.
pub open spec fn filtered_count(
    gs: Seq<Granule>,
    products: Seq<ProductTypes>,
    platforms: Seq<PlatformType>,
    start: (int, int, int),
    end: (int, int, int),
    k: int,
) -> int
    decreases k,
{
    if k <= 0 {
        0
    } else {
        filtered_count(gs, products, platforms, start, end, k - 1) + if kept_count(
            gs[k - 1].ancestors@,
            products,
            platforms,
            start,
            end,
        ) > 0 {
            1int
        } else {
            0
        }
    }
}

fn contains_product(v: &Vec<ProductTypes>, x: ProductTypes) -> (r: bool)
    ensures
        r == v@.contains(x),
{
    let mut i: usize = 0;
    while i < v.len()
        invariant
            i <= v@.len(),
            forall|t: int| 0 <= t < i ==> v@[t] != x,
        decreases v@.len() - i,
    {
        if v[i] == x {
            return true;
        }
        i = i + 1;
    }
    false
}

fn contains_platform(v: &Vec<PlatformType>, x: PlatformType) -> (r: bool)
    ensures
        r == v@.contains(x),
{
    let mut i: usize = 0;
    while i < v.len()
        invariant
            i <= v@.len(),
            forall|t: int| 0 <= t < i ==> v@[t] != x,
        decreases v@.len() - i,
    {
        if v[i] == x {
            return true;
        }
        i = i + 1;
    }
    false
}

fn date_le_exec(a: (i32, u8, u8), b: (i32, u8, u8)) -> (r: bool)
    ensures
        r == date_le((a.0 as int, a.1 as int, a.2 as int), (b.0 as int, b.1 as int, b.2 as int)),
{
    a.0 < b.0 || (a.0 == b.0 && (a.1 < b.1 || (a.1 == b.1 && a.2 <= b.2)))
}

/// The heatmap query answer.
#[derive(Debug)]
pub struct HeatmapResponse {
    pub data: HeatmapData,
}

impl HeatmapResponse {
    /// Filters the granules' acquisitions down to the products, platforms
    /// and date range the query asks for, drops granules that keep none,
    /// and flattens the survivors into the heatmap payload.
    pub fn from_geojson(filter: &Filter, granules: &Vec<Granule>) -> (r: HeatmapResponse)
        requires
            granules@.len() <= 0x7FFF_FFFF,
            date_text_ok(filter.start_date@),
            date_text_ok(filter.end_date@),
        ensures
            ({
                let ps = filter.product_type@;
                let ls = filter.platform_type@;
                let s = (
                    year_num(filter.start_date@),
                    month_num(filter.start_date@),
                    day_num(filter.start_date@),
                );
                let e = (
                    year_num(filter.end_date@),
                    month_num(filter.end_date@),
                    day_num(filter.end_date@),
                );
                let n = granules@.len() as int;
                &&& r.data.length == filtered_count(granules@, filter.product_type@, filter.platform_type@, s, e, n)
                &&& rings_of(r.data.positions@) == filtered_rings(granules@, filter.product_type@, filter.platform_type@, s, e, n)
                &&& r.data.weights@ == filtered_weights(granules@, filter.product_type@, filter.platform_type@, s, e, n)
            }),
    {
        let start = match parse_date(filter.start_date.as_str()) {
            Ok(d) => d,
            Err(_) => {
                proof {
                    assert(false);
                }
                (0, 1, 1)
            },
        };
        let end = match parse_date(filter.end_date.as_str()) {
            Ok(d) => d,
            Err(_) => {
                proof {
                    assert(false);
                }
                (0, 1, 1)
            },
        };
        let ghost s = (start.0 as int, start.1 as int, start.2 as int);
        let ghost e = (end.0 as int, end.1 as int, end.2 as int);

        let n = granules.len();
        let mut positions: Vec<Vec<(i64, i64)>> = Vec::new();
        let mut weights: Vec<u64> = Vec::new();
        let mut count: usize = 0;
        let mut i: usize = 0;
        while i < n
            invariant
                i <= n,
                n == granules@.len(),
                n <= 0x7FFF_FFFF,
                s == (start.0 as int, start.1 as int, start.2 as int),
                e == (end.0 as int, end.1 as int, end.2 as int),
                rings_of(positions@) == filtered_rings(granules@, filter.product_type@, filter.platform_type@, s, e, i as int),
                weights@ == filtered_weights(granules@, filter.product_type@, filter.platform_type@, s, e, i as int),
                count == filtered_count(granules@, filter.product_type@, filter.platform_type@, s, e, i as int),
                count <= i,
            decreases n - i,
        {
            let g = &granules[i];
            // Count the acquisitions of this granule that pass the filter.
            let na = g.ancestors.len();
            let mut kept: usize = 0;
            let mut j: usize = 0;
            proof {
                assert(g.ancestors@.take(0) =~= Seq::<Ancestor>::empty());
            }
            while j < na
                invariant
                    j <= na,
                    na == g.ancestors@.len(),
                    kept <= j,
                    s == (start.0 as int, start.1 as int, start.2 as int),
                    e == (end.0 as int, end.1 as int, end.2 as int),
                    kept == kept_count(g.ancestors@.take(j as int), filter.product_type@, filter.platform_type@, s, e),
                decreases na - j,
            {
                let a = &g.ancestors[j];
                let c1 = contains_product(&filter.product_type, a.product_type);
                let c2 = contains_platform(&filter.platform_type, a.platform_type);
                let c3 = date_le_exec(
                    (start.0, start.1, start.2),
                    (a.start_time.year, a.start_time.month, a.start_time.day),
                );
                let c4 = date_le_exec(
                    (a.start_time.year, a.start_time.month, a.start_time.day),
                    (end.0, end.1, end.2),
                );
                let m = c1 && c2 && c3 && c4;
                proof {
                    assert(*a == g.ancestors@[j as int]);
                    assert(c1 == filter.product_type@.contains(a.product_type));
                    assert(c3 == date_le(s, date_of(a.start_time)));
                    assert(g.ancestors@.take(j as int + 1).drop_last() =~= g.ancestors@.take(
                        j as int,
                    ));
                    assert(g.ancestors@.take(j as int + 1).last() == g.ancestors@[j as int]);
                    assert(m == matches_filter(g.ancestors@[j as int], filter.product_type@, filter.platform_type@, s, e));
                }
                if m {
                    kept = kept + 1;
                }
                j = j + 1;
            }
            proof {
                assert(g.ancestors@.take(na as int) =~= g.ancestors@);
            }
            if kept > 0 {
                push_granule_rings(&mut positions, &mut weights, g, kept as u64);
                proof {
                    assert(Seq::new(g.polygons@.len(), |t: int| kept as u64) =~= Seq::new(
                        g.polygons@.len(),
                        |t: int| kept_count(g.ancestors@, filter.product_type@, filter.platform_type@, s, e) as u64,
                    ));
                }
                count = count + 1;
            }
            proof {
                assert(rings_of(positions@) =~= filtered_rings(
                    granules@,
                    filter.product_type@,
                    filter.platform_type@,
                    s,
                    e,
                    i as int + 1,
                ));
                assert(weights@ =~= filtered_weights(granules@, filter.product_type@, filter.platform_type@, s, e, i as int + 1));
            }
            i = i + 1;
        }
        HeatmapResponse {
            data: HeatmapData { length: count as i32, positions, weights },
        }
    }
}

} // verus!
