use dpc_exporter::dpc::{ensure_in_coverage, latest_product_time, DpcError, DpcProduct};
use dpc_exporter::time::Timestamp;

#[test]
fn product_codes() {
    assert_eq!(DpcProduct::VerticalMaximumIntensity.as_str(), "VMI");
    assert_eq!(DpcProduct::SurfaceRainfallIntensity.as_str(), "SRI");
    assert_eq!(DpcProduct::VerticallyIntegratedLiquid.as_str(), "VIL");
    assert_eq!(DpcProduct::EchoTopMap.as_str(), "ETM");
    assert_eq!(DpcProduct::ProbabilityOfHail.as_str(), "POH");
}

#[test]
fn error_messages() {
    assert_eq!(DpcError::NoProductAvailable.message(), "No product available");
    assert_eq!(DpcError::OutsideCoverage.message(), "home is outside DPC radar coverage");
}

#[test]
fn latest_time_takes_first() {
    let r = latest_product_time(&vec![1_700_000_000_000, 1_600_000_000_000]);
    assert_eq!(r, Ok(Timestamp { millis: 1_700_000_000_000 }));
}

#[test]
fn latest_time_empty_list() {
    assert_eq!(latest_product_time(&vec![]), Err(DpcError::NoProductAvailable));
}

#[test]
fn latest_time_out_of_range() {
    assert_eq!(latest_product_time(&vec![i64::MAX, 0]), Err(DpcError::NoProductAvailable));
    assert_eq!(latest_product_time(&vec![i64::MIN]), Err(DpcError::NoProductAvailable));
}

#[test]
fn coverage_check() {
    assert_eq!(ensure_in_coverage(Some(0)), Ok(()));
    assert_eq!(ensure_in_coverage(Some(f32::NAN.to_bits())), Ok(()));
    assert_eq!(ensure_in_coverage(None), Err(DpcError::OutsideCoverage));
}

#[test]
fn timestamp_from_millis() {
    assert_eq!(Timestamp::from_millis(947_638_923_004), Some(Timestamp { millis: 947_638_923_004 }));
    assert_eq!(Timestamp::from_millis(0), Some(Timestamp { millis: 0 }));
    assert_eq!(Timestamp::from_millis(-1), Some(Timestamp { millis: -1 }));
    assert_eq!(Timestamp::from_millis(i64::MAX), None);
}

#[test]
fn unix_seconds_rounds_down() {
    assert_eq!(Timestamp { millis: 1_999 }.unix_seconds(), 1);
    assert_eq!(Timestamp { millis: 2_000 }.unix_seconds(), 2);
    assert_eq!(Timestamp { millis: -1 }.unix_seconds(), -1);
    assert_eq!(Timestamp { millis: -1_000 }.unix_seconds(), -1);
    assert_eq!(Timestamp { millis: -1_001 }.unix_seconds(), -2);
    assert_eq!(Timestamp { millis: i64::MIN }.unix_seconds(), i64::MIN.div_euclid(1000));
    assert_eq!(Timestamp { millis: i64::MAX }.unix_seconds(), i64::MAX / 1000);
}

#[test]
fn seconds_since_truncates() {
    let t = Timestamp { millis: 1_000_000 };
    assert_eq!(Timestamp { millis: 1_299_999 }.seconds_since(&t), 299);
    assert_eq!(Timestamp { millis: 1_300_000 }.seconds_since(&t), 300);
    assert_eq!(Timestamp { millis: 998_500 }.seconds_since(&t), -1);
    assert_eq!(Timestamp { millis: i64::MAX }.seconds_since(&Timestamp { millis: i64::MIN }), 18_446_744_073_709_551);
}

#[test]
fn chrono_range_bounds() {
    let lo: i64 = -8_334_601_228_800_000;
    let hi: i64 = 8_210_266_876_799_999;
    assert_eq!(Timestamp::from_millis(lo), Some(Timestamp { millis: lo }));
    assert_eq!(Timestamp::from_millis(lo - 1), None);
    assert_eq!(Timestamp::from_millis(hi), Some(Timestamp { millis: hi }));
    assert_eq!(Timestamp::from_millis(hi + 1), None);
    assert_eq!(latest_product_time(&vec![hi + 1]), Err(DpcError::NoProductAvailable));
    assert_eq!(latest_product_time(&vec![hi]), Ok(Timestamp { millis: hi }));
}
