use dpc_exporter::float_bits::{bits_is_nan, bits_lt, NAN_BITS, NODATA_BITS};
use dpc_exporter::grid::{cell_offsets, sample_value, DpcGrid};

fn b(v: f32) -> u32 {
    v.to_bits()
}

#[test]
fn nodata_bits_is_minus_9000() {
    assert_eq!(NODATA_BITS, b(-9000.0));
    assert!(f32::from_bits(NAN_BITS).is_nan());
}

#[test]
fn nan_detection() {
    assert!(bits_is_nan(NAN_BITS));
    assert!(bits_is_nan(b(f32::NAN)));
    assert!(bits_is_nan(b(-f32::NAN)));
    assert!(!bits_is_nan(b(f32::INFINITY)));
    assert!(!bits_is_nan(b(f32::NEG_INFINITY)));
    assert!(!bits_is_nan(b(0.0)));
    assert!(!bits_is_nan(b(-3.5)));
}

#[test]
fn float_order_matches_f32() {
    let vals = [
        f32::NEG_INFINITY,
        -9999.0,
        -9000.0,
        -1.5,
        -0.0,
        0.0,
        1e-40,
        0.5,
        35.0,
        f32::INFINITY,
        f32::NAN,
    ];
    for a in vals {
        for c in vals {
            assert_eq!(bits_lt(b(a), b(c)), a < c, "{a} < {c}");
        }
    }
}

#[test]
fn sample_value_filters_missing_and_nodata() {
    assert_eq!(sample_value(None), NAN_BITS);
    assert_eq!(sample_value(Some(b(-9999.0))), NAN_BITS);
    assert_eq!(sample_value(Some(b(-9000.0))), NAN_BITS);
    assert_eq!(sample_value(Some(b(f32::NAN))), NAN_BITS);
    assert_eq!(sample_value(Some(b(-8999.5))), b(-8999.5));
    assert_eq!(sample_value(Some(b(0.75))), b(0.75));
}

#[test]
fn offsets_of_radius_one() {
    assert_eq!(
        cell_offsets(1),
        vec![(-1, 1), (0, 1), (1, 1), (-1, 0), (0, 0), (1, 0), (-1, -1), (0, -1), (1, -1)]
    );
    assert_eq!(cell_offsets(0), vec![(0, 0)]);
    assert_eq!(cell_offsets(200).len(), 401 * 401);
    assert_eq!(cell_offsets(200)[200 * 401 + 200], (0, 0));
}

#[test]
fn crop_center_and_max() {
    let samples: Vec<Option<u32>> = vec![
        Some(b(0.1)),
        None,
        Some(b(0.9)),
        Some(b(-9999.0)),
        Some(b(0.4)),
        Some(b(0.2)),
        Some(b(f32::NAN)),
        Some(b(0.3)),
        Some(b(0.0)),
    ];
    let g = DpcGrid::crop(1, 2, &samples);
    assert_eq!(g.center(), b(0.4));
    assert_eq!(g.max(), b(0.9));
}

#[test]
fn crop_with_no_data_has_nan_max() {
    let samples: Vec<Option<u32>> = vec![None, Some(b(-9999.0)), None, None, Some(b(f32::NAN)), None, None, None, None];
    let g = DpcGrid::crop(1, 2, &samples);
    assert_eq!(g.center(), NAN_BITS);
    assert_eq!(g.max(), NAN_BITS);
    assert!(f32::from_bits(g.max()).is_nan());
}

#[test]
fn max_of_negative_values() {
    let samples: Vec<Option<u32>> = vec![Some(b(-12.0)), Some(b(-3.0)), Some(b(-7.5)), None, Some(b(-4.0)), None, None, None, None];
    let g = DpcGrid::crop(1, 2, &samples);
    assert_eq!(g.center(), b(-4.0));
    assert_eq!(g.max(), b(-3.0));
}

#[test]
fn center_never_exceeds_max() {
    let samples: Vec<Option<u32>> = (0..25).map(|i| Some(b((i as f32) * 0.5 - 3.0))).collect();
    let g = DpcGrid::crop(2, 8, &samples);
    let c = f32::from_bits(g.center());
    let m = f32::from_bits(g.max());
    assert_eq!(c, 3.0);
    assert_eq!(m, 9.0);
    assert!(c <= m);
}

#[test]
fn single_cell_crop() {
    let g = DpcGrid::crop(0, 0, &vec![Some(b(42.0))]);
    assert_eq!(g.center(), b(42.0));
    assert_eq!(g.max(), b(42.0));
}

#[test]
fn corners_beyond_radius_are_left_out() {
    // radius of one cell: the four corners lie sqrt(2) cells away
    let samples: Vec<Option<u32>> = vec![
        Some(b(0.9)),
        Some(b(0.1)),
        Some(b(0.8)),
        Some(b(0.2)),
        Some(b(0.4)),
        Some(b(0.3)),
        Some(b(0.7)),
        Some(b(0.6)),
        Some(b(0.95)),
    ];
    let g = DpcGrid::crop(1, 1, &samples);
    assert_eq!(g.center(), b(0.4));
    assert_eq!(g.max(), b(0.6));
    let full = DpcGrid::crop(1, 2, &samples);
    assert_eq!(full.max(), b(0.95));
}

#[test]
fn zero_reach_keeps_only_center() {
    let samples: Vec<Option<u32>> = (0..9).map(|i| Some(b(i as f32))).collect();
    let g = DpcGrid::crop(1, 0, &samples);
    assert_eq!(g.center(), b(4.0));
    assert_eq!(g.max(), b(4.0));
}

#[test]
fn disk_of_radius_two() {
    // values grow with the distance from the center; radius 2 keeps cells at
    // squared distance up to 4, so (2, 1) offsets (distance^2 = 5) are dropped
    let samples: Vec<Option<u32>> = (0..25)
        .map(|i| {
            let (r, c) = (i / 5, i % 5);
            let d2 = (r - 2) * (r - 2) + (c - 2) * (c - 2);
            Some(b(d2 as f32))
        })
        .collect();
    let g = DpcGrid::crop(2, 4, &samples);
    assert_eq!(g.center(), b(0.0));
    assert_eq!(g.max(), b(4.0));
    assert_eq!(DpcGrid::crop(2, 5, &samples).max(), b(5.0));
}
