use dpc_exporter::metrics::{gauge, metrics_body, push_decimal_i64, push_decimal_u64, render, FrameReadings, GaugeReading};
use dpc_exporter::time::Timestamp;

fn dec(n: i64) -> String {
    let mut s = String::new();
    push_decimal_i64(&mut s, n);
    s
}

#[test]
fn decimal_formatting() {
    assert_eq!(dec(0), "0");
    assert_eq!(dec(7), "7");
    assert_eq!(dec(10), "10");
    assert_eq!(dec(-5), "-5");
    assert_eq!(dec(1_700_000_000), "1700000000");
    assert_eq!(dec(i64::MAX), i64::MAX.to_string());
    assert_eq!(dec(i64::MIN), i64::MIN.to_string());
    let mut s = String::from("x=");
    push_decimal_u64(&mut s, u64::MAX);
    assert_eq!(s, format!("x={}", u64::MAX));
}

#[test]
fn gauge_lines() {
    let mut s = String::from("#\n");
    gauge(&mut s, "m", "Help text.", "0.5", "NaN");
    assert_eq!(
        s,
        "#\n# HELP m Help text.\n# TYPE m gauge\nm{scope=\"center\"} 0.5\nm{scope=\"area\"} NaN\n"
    );
}

fn reading(c: &str, a: &str) -> GaugeReading {
    GaugeReading { center: c.to_string(), area: a.to_string() }
}

#[test]
fn render_whole_frame() {
    let f = FrameReadings {
        time: Timestamp { millis: 1_700_000_123_456 },
        poh: reading("0.25", "0.75"),
        vmi: reading("20", "45.5"),
        vil: reading("1", "7"),
        sri: reading("0", "NaN"),
        etm: reading("3000", "9000"),
    };
    let expected = "# HELP dpc_hail_probability Probability of hail (0-1), DPC POH.\n\
# TYPE dpc_hail_probability gauge\n\
dpc_hail_probability{scope=\"center\"} 0.25\n\
dpc_hail_probability{scope=\"area\"} 0.75\n\
# HELP dpc_reflectivity_dbz Column-maximum reflectivity (dBZ), DPC VMI.\n\
# TYPE dpc_reflectivity_dbz gauge\n\
dpc_reflectivity_dbz{scope=\"center\"} 20\n\
dpc_reflectivity_dbz{scope=\"area\"} 45.5\n\
# HELP dpc_vil_kgm2 Vertically integrated liquid (kg/m^2), DPC VIL.\n\
# TYPE dpc_vil_kgm2 gauge\n\
dpc_vil_kgm2{scope=\"center\"} 1\n\
dpc_vil_kgm2{scope=\"area\"} 7\n\
# HELP dpc_rain_intensity_mmh Surface rainfall intensity (mm/h), DPC SRI.\n\
# TYPE dpc_rain_intensity_mmh gauge\n\
dpc_rain_intensity_mmh{scope=\"center\"} 0\n\
dpc_rain_intensity_mmh{scope=\"area\"} NaN\n\
# HELP dpc_echo_top_meters Echo top height (m), DPC ETM.\n\
# TYPE dpc_echo_top_meters gauge\n\
dpc_echo_top_meters{scope=\"center\"} 3000\n\
dpc_echo_top_meters{scope=\"area\"} 9000\n\
# HELP dpc_frame_timestamp_seconds Unix time of the DPC sample.\n\
# TYPE dpc_frame_timestamp_seconds gauge\n\
dpc_frame_timestamp_seconds 1700000123\n";
    assert_eq!(render(&f), expected);
    assert_eq!(metrics_body(Some(&f)), expected);
}

#[test]
fn body_without_frame() {
    assert_eq!(metrics_body(None), "# no DPC frame fetched yet\n");
}

#[test]
fn render_negative_time() {
    let f = FrameReadings {
        time: Timestamp { millis: -1_500 },
        poh: reading("a", "b"),
        vmi: reading("a", "b"),
        vil: reading("a", "b"),
        sri: reading("a", "b"),
        etm: reading("a", "b"),
    };
    assert!(render(&f).ends_with("dpc_frame_timestamp_seconds -2\n"));
}
