//! The service-side data path: dataset patterns, calendar arithmetic, and
//! the flattened database payloads.

use heatmap::dataset::{Dataset, ToPartialString};
use heatmap::date::{parse_date, DateRange, DateTime};
use heatmap::db::{Granule, HeatmapData, HeatmapResponse};

fn dt(year: i32, month: u8, day: u8, hour: u8, minute: u8, second: u8) -> DateTime {
    DateTime { year, month, day, hour, minute, second }
}

#[test]
fn test_dataset_to_partial_string() {
    assert_eq!(Some(Dataset::Alos).to_partial_string(), "ALOS PALSAR%");
    assert_eq!(Some(Dataset::Uavsar).to_partial_string(), "UAVSAR%");
    assert_eq!(Some(Dataset::Airsar).to_partial_string(), "AIRSAR%");
    assert_eq!(None::<Dataset>.to_partial_string(), "%");
}

#[test]
fn test_transform_date() {
    let date_range = DateRange {
        start: dt(2020, 5, 9, 18, 34, 12),
        end: dt(2022, 9, 12, 8, 34, 49),
    };

    let date = dt(2022, 3, 25, 12, 52, 10);

    assert_eq!(814i32, date_range.transform_date(date));
}

fn sample_granules() -> Vec<Granule> {
    vec![
        Granule {
            dataset: "ALOS PALSAR".to_string(),
            midpoint: (37_712_500, 154_184_800),
            data_transferred: 5793,
            time: dt(2021, 3, 14, 9, 33, 45),
        },
        Granule {
            dataset: "ALOS PALSAR".to_string(),
            midpoint: (-172_764_100, 76_366_000),
            data_transferred: 8459,
            time: dt(2021, 8, 14, 11, 46, 21),
        },
        Granule {
            dataset: "ALOS PALSAR".to_string(),
            midpoint: (112_545_600, 161_170_800),
            data_transferred: 59,
            time: dt(2022, 2, 16, 12, 15, 53),
        },
        Granule {
            dataset: "UAVSAR TOPSAR".to_string(),
            midpoint: (174_059_800, 153_814_400),
            data_transferred: 7802,
            time: dt(2022, 6, 6, 12, 31, 39),
        },
        Granule {
            dataset: "UAVSAR TOPSAR".to_string(),
            midpoint: (68_528_700, 155_328_400),
            data_transferred: 145,
            time: dt(2022, 10, 7, 16, 11, 20),
        },
    ]
}

fn sample_range() -> DateRange {
    DateRange {
        start: dt(2021, 3, 14, 9, 33, 45),
        end: dt(2022, 10, 7, 16, 11, 20),
    }
}

#[test]
fn test_from_granules() {
    assert_eq!(
        HeatmapData::from_granules(sample_granules(), sample_range()),
        HeatmapData {
            length: 5,
            positions: vec![
                37_712_500,
                154_184_800,
                -172_764_100,
                76_366_000,
                112_545_600,
                161_170_800,
                174_059_800,
                153_814_400,
                68_528_700,
                155_328_400,
            ],
            weights: vec![5793, 8459, 59, 7802, 145],
            times: vec![72, 225, 411, 521, 644],
        },
    );
}

#[test]
fn test_from_database_data() {
    assert_eq!(
        HeatmapResponse::from_database_data(sample_granules(), sample_range()),
        HeatmapResponse {
            data: HeatmapData {
                length: 5,
                positions: vec![
                    37_712_500,
                    154_184_800,
                    -172_764_100,
                    76_366_000,
                    112_545_600,
                    161_170_800,
                    174_059_800,
                    153_814_400,
                    68_528_700,
                    155_328_400,
                ],
                weights: vec![5793, 8459, 59, 7802, 145],
                times: vec![72, 225, 411, 521, 644],
            },
            date_start: dt(2021, 3, 14, 9, 33, 45),
            date_end: dt(2022, 10, 7, 16, 11, 20),
        },
    );
}

#[test]
fn parse_date_accepts_plain_dates() {
    assert_eq!(parse_date("2021-03-14"), Ok((2021, 3, 14)));
    assert_eq!(parse_date("0001-12-31"), Ok((1, 12, 31)));
}

#[test]
fn parse_date_rejects_malformed_text() {
    assert!(parse_date("2021-3-14").is_err());
    assert!(parse_date("2021/03/14").is_err());
    assert!(parse_date("2021-13-01").is_err());
    assert!(parse_date("2021-00-01").is_err());
    assert!(parse_date("2021-01-32").is_err());
    assert!(parse_date("").is_err());
    assert!(parse_date("2021-01-0a").is_err());
}

#[test]
fn day_numbers_count_from_january_first() {
    let range = DateRange {
        start: dt(2021, 1, 1, 0, 0, 0),
        end: dt(2021, 12, 31, 0, 0, 0),
    };
    assert_eq!(range.transform_date(dt(2021, 1, 1, 0, 0, 0)), 0);
    assert_eq!(range.transform_date(dt(2021, 1, 2, 0, 0, 0)), 1);
    assert_eq!(range.transform_date(dt(2021, 3, 1, 12, 0, 0)), 59);
    assert_eq!(range.transform_date(dt(2020, 12, 31, 0, 0, 0)), -1);
}
