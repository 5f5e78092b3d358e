//! Query-side data model: the filter options a client may ask for, the query
//! envelope, and the dataset payloads that answer it.
//!
//! Geographic positions in the payload types are fixed-point integers in
//! microdegrees (one millionth of a degree), keeping the whole model exact.

use vstd::prelude::*;

use crate::text::str_eq;

verus! {

/// Error returned when a short code does not name a known filter option.
#[derive(Clone, Copy, Debug, PartialEq, Eq, Structural)]
pub struct ParseError;

pub trait ToPartialString {
    fn _to_partial_string(&self) -> String;
}

/// The product types a query may select.
#[derive(Clone, Copy, Debug, PartialEq, Eq, Structural)]
pub enum ProductTypes {
    GroundRangeDetected,
    SingleLookComplex,
    Ocean,
}

/// What [`ProductTypes::from_string`] returns for each input.
pub open spec fn parse_product_type(s: Seq<char>) -> Result<ProductTypes, ParseError> {
    if s == "GRD"@ {
        Ok(ProductTypes::GroundRangeDetected)
    } else if s == "SLC"@ {
        Ok(ProductTypes::SingleLookComplex)
    } else if s == "OCN"@ {
        Ok(ProductTypes::Ocean)
    } else {
        Err(ParseError)
    }
}

impl ProductTypes {
    pub fn from_string(string: &str) -> (r: Result<Self, ParseError>)
        ensures
            r == parse_product_type(string@),
    {
        if str_eq(string, "GRD") {
            Ok(ProductTypes::GroundRangeDetected)
        } else if str_eq(string, "SLC") {
            Ok(ProductTypes::SingleLookComplex)
        } else if str_eq(string, "OCN") {
            Ok(ProductTypes::Ocean)
        } else {
            Err(ParseError)
        }
    }
}

/// The satellite platforms a query may select.
#[derive(Clone, Copy, Debug, PartialEq, Eq, Structural)]
pub enum PlatformType {
    Sentinel1A,
    Sentinel1B,
}

/// What [`PlatformType::from_string`] returns for each input.
pub open spec fn parse_platform_type(s: Seq<char>) -> Result<PlatformType, ParseError> {
    if s == "SA"@ {
        Ok(PlatformType::Sentinel1A)
    } else if s == "SB"@ {
        Ok(PlatformType::Sentinel1B)
    } else {
        Err(ParseError)
    }
}

impl PlatformType {
    pub fn from_string(string: &str) -> (r: Result<Self, ParseError>)
        ensures
            r == parse_platform_type(string@),
    {
        if str_eq(string, "SA") {
            Ok(PlatformType::Sentinel1A)
        } else if str_eq(string, "SB") {
            Ok(PlatformType::Sentinel1B)
        } else {
            Err(ParseError)
        }
    }
}

/// The data sensors a query may select.
#[derive(Clone, Copy, Debug, PartialEq, Eq, Structural)]
pub enum DataSensor {
    Sentinel,
}

/// What [`DataSensor::from_string`] returns for each input.
pub open spec fn parse_data_sensor(s: Seq<char>) -> Result<DataSensor, ParseError> {
    if s == "S"@ {
        Ok(DataSensor::Sentinel)
    } else {
        Err(ParseError)
    }
}

impl DataSensor {
    pub fn from_string(string: &str) -> (r: Result<Self, ParseError>)
        ensures
            r == parse_data_sensor(string@),
    {
        if str_eq(string, "S") {
            Ok(DataSensor::Sentinel)
        } else {
            Err(ParseError)
        }
    }
}

/// The filter a client sends with a request for data.
#[derive(Clone, Debug)]
pub struct Filter {
    pub product_type: Vec<ProductTypes>,
    pub platform_type: Vec<PlatformType>,
    pub start_date: String,
    pub end_date: String,
}

/// The query envelope a client sends to the service.
#[derive(Clone, Debug)]
pub struct HeatmapQuery {
    pub filter: Filter,
}

/// Coverage payload sent back to the client: one closed ring of microdegree
/// (longitude, latitude) pairs per polygon, and one weight per polygon.
#[derive(Clone, Debug, PartialEq)]
pub struct HeatmapData {
    pub data: InteriorData,
}

#[derive(Clone, Debug, PartialEq)]
pub struct InteriorData {
    pub length: i32,
    pub positions: Vec<Vec<(i64, i64)>>,
    pub weights: Vec<u64>,
}

/// The short code of a product type, as it appears on the export legend.
pub open spec fn product_code(p: ProductTypes) -> Seq<char> {
    match p {
        ProductTypes::GroundRangeDetected => "GRD"@,
        ProductTypes::SingleLookComplex => "SLC"@,
        ProductTypes::Ocean => "OCN"@,
    }
}

/// The display name of a platform, as it appears on the export legend.
pub open spec fn platform_code(p: PlatformType) -> Seq<char> {
    match p {
        PlatformType::Sentinel1A => "Sentinel-1A"@,
        PlatformType::Sentinel1B => "Sentinel-1B"@,
    }
}

/// The separator written before entry `i` of an `n`-entry list: a comma
/// between middle entries and an "and" before the last.
pub open spec fn list_sep(i: int, n: int) -> Seq<char> {
    if i != 0 && i < n - 1 {
        ", "@
    } else if i == n - 1 {
        " and "@
    } else {
        Seq::empty()
    }
}

/// The first `k` product codes joined with their separators.
pub open spec fn product_text(ps: Seq<ProductTypes>, k: int) -> Seq<char>
    decreases k,
{
    if k <= 0 {
        Seq::empty()
    } else {
        product_text(ps, k - 1) + list_sep(k - 1, ps.len() as int) + product_code(ps[k - 1])
    }
}

/// The first `k` platform names joined with their separators.
pub open spec fn platform_text(ps: Seq<PlatformType>, k: int) -> Seq<char>
    decreases k,
{
    if k <= 0 {
        Seq::empty()
    } else {
        platform_text(ps, k - 1) + list_sep(k - 1, ps.len() as int) + platform_code(ps[k - 1])
    }
}

/// The first index of `'-'` in `s` at or after `i`, or the length.
pub open spec fn dash_cut_from(s: Seq<char>, i: int) -> int
    decreases s.len() - i,
{
    if i < 0 || i >= s.len() {
        s.len() as int
    } else if s[i] == '-' {
        i
    } else {
        dash_cut_from(s, i + 1)
    }
}

/// The leading year of a date string: everything before the first dash.
pub open spec fn year_prefix(s: Seq<char>) -> Seq<char> {
    s.take(dash_cut_from(s, 0))
}

proof fn lemma_dash_cut(s: Seq<char>, j: int, i: int)
    requires
        0 <= j <= i <= s.len(),
        forall|t: int| j <= t < i ==> s[t] != '-',
        i == s.len() || s[i] == '-',
    ensures
        dash_cut_from(s, j) == i,
    decreases i - j,
{
    if j < i {
        lemma_dash_cut(s, j + 1, i);
    }
}

/// The year before the first dash of a date string.
fn year_of(s: &str) -> (r: String)
    ensures
        r@ == year_prefix(s@),
{
    let n = s.unicode_len();
    let mut i: usize = 0;
    while i < n
        invariant
            i <= n,
            n == s@.len(),
            forall|t: int| 0 <= t < i ==> s@[t] != '-',
        decreases n - i,
    {
        if s.get_char(i) == '-' {
            proof {
                lemma_dash_cut(s@, 0, i as int);
            }
            let y = s.substring_char(0, i);
            return y.to_owned();
        }
        i = i + 1;
    }
    proof {
        lemma_dash_cut(s@, 0, n as int);
        assert(s@.take(n as int) =~= s@);
    }
    s.to_owned()
}

/// Renders a filter as the text of the export image: the joined product
/// codes, the joined platform names, and the start and end years.
pub fn filter_to_text(filter: &Filter) -> (r: (String, String, String, String))
    ensures
        r.0@ == product_text(filter.product_type@, filter.product_type@.len() as int),
        r.1@ == platform_text(filter.platform_type@, filter.platform_type@.len() as int),
        r.2@ == year_prefix(filter.start_date@),
        r.3@ == year_prefix(filter.end_date@),
{
    let mut product_string = String::new();
    let np = filter.product_type.len();
    let mut i: usize = 0;
    while i < np
        invariant
            i <= np,
            np == filter.product_type@.len(),
            product_string@ == product_text(filter.product_type@, i as int),
        decreases np - i,
    {
        if i != 0 && i < np - 1 {
            product_string.append(", ");
        } else if i == np - 1 {
            product_string.append(" and ");
        }
        match filter.product_type[i] {
            ProductTypes::GroundRangeDetected => product_string.append("GRD"),
            ProductTypes::SingleLookComplex => product_string.append("SLC"),
            ProductTypes::Ocean => product_string.append("OCN"),
        }
        proof {
            assert(product_string@ =~= product_text(filter.product_type@, i as int + 1));
        }
        i = i + 1;
    }

    let mut platform_string = String::new();
    let nl = filter.platform_type.len();
    let mut j: usize = 0;
    while j < nl
        invariant
            j <= nl,
            nl == filter.platform_type@.len(),
            platform_string@ == platform_text(filter.platform_type@, j as int),
        decreases nl - j,
    {
        if j != 0 && j < nl - 1 {
            platform_string.append(", ");
        } else if j == nl - 1 {
            platform_string.append(" and ");
        }
        match filter.platform_type[j] {
            PlatformType::Sentinel1A => platform_string.append("Sentinel-1A"),
            PlatformType::Sentinel1B => platform_string.append("Sentinel-1B"),
        }
        proof {
            assert(platform_string@ =~= platform_text(filter.platform_type@, j as int + 1));
        }
        j = j + 1;
    }

    let start_year = year_of(filter.start_date.as_str());
    let end_year = year_of(filter.end_date.as_str());
    (product_string, platform_string, start_year, end_year)
}

/// The x offset that centres an overlay of the given width on a
/// destination of the given width; an overlay too wide to centre starts at
/// zero.
pub fn center_img(destination_width: u32, text_width: u32) -> (r: u32)
    ensures
        r == if text_width / 2 > destination_width / 2 {
            0int
        } else {
            destination_width / 2 - text_width / 2
        },
{
    let dest_center = destination_width / 2;
    let text_offset = text_width / 2;
    if text_offset > dest_center {
        return 0;
    }
    dest_center - text_offset
}

/// World-outline payload sent back to the client.
#[derive(Clone, Debug, PartialEq)]
pub struct OutlineResponse {
    pub data: OutlineData,
}

#[derive(Clone, Debug, PartialEq)]
pub struct OutlineData {
    pub length: i32,
    pub positions: Vec<Vec<(i64, i64)>>,
}

} // verus!
