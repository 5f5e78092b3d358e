//! The query-side model: filter option parsing, export-legend text, and
//! the service's granule filtering.

use heatmap::api::{center_img, filter_to_text, DataSensor, Filter, HeatmapQuery, PlatformType, ProductTypes};
use heatmap::date::DateTime;
use heatmap::granule::{Ancestor, Granule};
use heatmap::heatmap_response::HeatmapResponse;
use heatmap::outline_response::OutlineResponse;

#[test]
fn product_type_codes_round_trip() {
    assert_eq!(
        ProductTypes::from_string("GRD"),
        Ok(ProductTypes::GroundRangeDetected)
    );
    assert_eq!(
        ProductTypes::from_string("SLC"),
        Ok(ProductTypes::SingleLookComplex)
    );
    assert_eq!(ProductTypes::from_string("OCN"), Ok(ProductTypes::Ocean));
    assert!(ProductTypes::from_string("grd").is_err());
    assert!(ProductTypes::from_string("").is_err());
}

#[test]
fn platform_type_codes_round_trip() {
    assert_eq!(PlatformType::from_string("SA"), Ok(PlatformType::Sentinel1A));
    assert_eq!(PlatformType::from_string("SB"), Ok(PlatformType::Sentinel1B));
    assert!(PlatformType::from_string("SC").is_err());
}

#[test]
fn data_sensor_codes_round_trip() {
    assert_eq!(DataSensor::from_string("S"), Ok(DataSensor::Sentinel));
    assert!(DataSensor::from_string("X").is_err());
}

fn sample_filter() -> Filter {
    Filter {
        product_type: vec![
            ProductTypes::GroundRangeDetected,
            ProductTypes::SingleLookComplex,
            ProductTypes::Ocean,
        ],
        platform_type: vec![PlatformType::Sentinel1A],
        start_date: "2020-01-05".to_string(),
        end_date: "2023-12-31".to_string(),
    }
}

#[test]
fn filter_text_joins_codes_and_years() {
    let query = HeatmapQuery { filter: sample_filter() };
    let (products, platforms, start_year, end_year) = filter_to_text(&query.filter);
    assert_eq!(products, "GRD, SLC and OCN");
    // A single entry still gets the final separator, as the legend always
    // ends its list with an "and".
    assert_eq!(platforms, " and Sentinel-1A");
    assert_eq!(start_year, "2020");
    assert_eq!(end_year, "2023");
}

#[test]
fn filter_text_of_empty_lists_is_empty() {
    let filter = Filter {
        product_type: Vec::new(),
        platform_type: Vec::new(),
        start_date: "1999".to_string(),
        end_date: "".to_string(),
    };
    let (products, platforms, start_year, end_year) = filter_to_text(&filter);
    assert_eq!(products, "");
    assert_eq!(platforms, "");
    assert_eq!(start_year, "1999");
    assert_eq!(end_year, "");
}

fn date(year: i32, month: u8, day: u8) -> DateTime {
    DateTime { year, month, day, hour: 0, minute: 0, second: 0 }
}

fn ancestor(product: ProductTypes, platform: PlatformType, when: DateTime) -> Ancestor {
    Ancestor {
        granule_name: "S1A_IW_GRDH".to_string(),
        product_type: product,
        platform_type: platform,
        data_sensor: DataSensor::Sentinel,
        start_time: when,
    }
}

fn triangle(x: i64) -> Vec<(i64, i64)> {
    vec![(x, 0), (x + 1_000_000, 0), (x, 1_000_000), (x, 0)]
}

#[test]
fn from_geojson_keeps_matching_acquisitions() {
    let granules = vec![
        Granule {
            polygons: vec![triangle(0), triangle(2_000_000)],
            ancestors: vec![
                ancestor(
                    ProductTypes::GroundRangeDetected,
                    PlatformType::Sentinel1A,
                    date(2021, 6, 1),
                ),
                ancestor(
                    ProductTypes::Ocean,
                    PlatformType::Sentinel1A,
                    date(2021, 6, 2),
                ),
                ancestor(
                    ProductTypes::GroundRangeDetected,
                    PlatformType::Sentinel1B,
                    date(2021, 6, 3),
                ),
                ancestor(
                    ProductTypes::GroundRangeDetected,
                    PlatformType::Sentinel1A,
                    date(2024, 1, 1),
                ),
            ],
        },
        Granule {
            polygons: vec![triangle(4_000_000)],
            ancestors: vec![ancestor(
                ProductTypes::Ocean,
                PlatformType::Sentinel1B,
                date(2021, 6, 1),
            )],
        },
    ];
    let filter = Filter {
        product_type: vec![ProductTypes::GroundRangeDetected],
        platform_type: vec![PlatformType::Sentinel1A],
        start_date: "2021-01-01".to_string(),
        end_date: "2021-12-31".to_string(),
    };
    let response = HeatmapResponse::from_geojson(&filter, &granules);
    // Only the first granule keeps an acquisition: the GRD on Sentinel-1A
    // inside the date range.  Its two rings each carry weight 1.
    assert_eq!(response.data.length, 1);
    assert_eq!(response.data.positions.len(), 2);
    assert_eq!(response.data.weights, vec![1, 1]);
    assert_eq!(response.data.positions[0], triangle(0));
}

#[test]
fn from_geojson_boundary_dates_are_inclusive() {
    let granules = vec![Granule {
        polygons: vec![triangle(0)],
        ancestors: vec![
            ancestor(
                ProductTypes::GroundRangeDetected,
                PlatformType::Sentinel1A,
                date(2021, 1, 1),
            ),
            ancestor(
                ProductTypes::GroundRangeDetected,
                PlatformType::Sentinel1A,
                date(2021, 12, 31),
            ),
            ancestor(
                ProductTypes::GroundRangeDetected,
                PlatformType::Sentinel1A,
                date(2020, 12, 31),
            ),
        ],
    }];
    let filter = Filter {
        product_type: vec![ProductTypes::GroundRangeDetected],
        platform_type: vec![PlatformType::Sentinel1A],
        start_date: "2021-01-01".to_string(),
        end_date: "2021-12-31".to_string(),
    };
    let response = HeatmapResponse::from_geojson(&filter, &granules);
    assert_eq!(response.data.length, 1);
    assert_eq!(response.data.weights, vec![2]);
}

#[test]
fn outline_collects_every_ring() {
    let granules = vec![
        Granule { polygons: vec![triangle(0)], ancestors: Vec::new() },
        Granule { polygons: vec![triangle(2_000_000), triangle(4_000_000)], ancestors: Vec::new() },
    ];
    let response = OutlineResponse::from_geojson(&granules);
    assert_eq!(response.data.length, 2);
    assert_eq!(response.data.positions.len(), 3);
    assert_eq!(response.data.positions[2], triangle(4_000_000));
}

#[test]
fn granule_hands_out_its_polygons() {
    let granule = Granule {
        polygons: vec![triangle(0), triangle(2_000_000)],
        ancestors: Vec::new(),
    };
    let polys = granule.get_polygons();
    assert_eq!(polys.len(), 2);
    assert_eq!(polys[1], triangle(2_000_000));
}

#[test]
fn centering_clamps_overwide_overlays() {
    assert_eq!(center_img(1240, 400), 420);
    assert_eq!(center_img(1240, 2000), 0);
    assert_eq!(center_img(100, 100), 0);
}
