use dpc_exporter::exporter::{Exporter, ExporterFrame, RefreshAction, SAMPLE_PERIOD_SECS};
use dpc_exporter::grid::DpcGrid;
use dpc_exporter::time::Timestamp;

fn grid(v: f32) -> DpcGrid {
    DpcGrid::crop(0, 0, &vec![Some(v.to_bits())])
}

fn frame(millis: i64) -> ExporterFrame {
    ExporterFrame::from_products(
        (Timestamp { millis }, grid(0.5)),
        (Timestamp { millis: millis + 1 }, grid(40.0)),
        (Timestamp { millis: millis + 2 }, grid(12.0)),
        (Timestamp { millis: millis + 3 }, grid(3.0)),
        (Timestamp { millis: millis + 4 }, grid(9000.0)),
    )
}

#[test]
fn frame_takes_hail_time() {
    let f = frame(1_000);
    assert_eq!(f.time, Timestamp { millis: 1_000 });
    assert_eq!(f.poh.center(), 0.5f32.to_bits());
    assert_eq!(f.vmi.center(), 40.0f32.to_bits());
    assert_eq!(f.vil.center(), 12.0f32.to_bits());
    assert_eq!(f.sri.center(), 3.0f32.to_bits());
    assert_eq!(f.etm.center(), 9000.0f32.to_bits());
}

#[test]
fn empty_exporter_fetches() {
    let e = Exporter::new();
    assert!(e.frame().is_none());
    assert_eq!(e.refresh_action(&Timestamp { millis: 0 }), RefreshAction::Fetch);
}

#[test]
fn fresh_frame_is_served_until_one_period() {
    assert_eq!(SAMPLE_PERIOD_SECS, 300);
    let mut e = Exporter::new();
    e.complete_refresh(Some(frame(10_000)));
    assert_eq!(e.frame().as_ref().map(|f| f.time), Some(Timestamp { millis: 10_000 }));
    assert_eq!(e.refresh_action(&Timestamp { millis: 10_000 }), RefreshAction::ServeCached);
    assert_eq!(e.refresh_action(&Timestamp { millis: 309_999 }), RefreshAction::ServeCached);
    assert_eq!(e.refresh_action(&Timestamp { millis: 310_000 }), RefreshAction::Fetch);
    assert_eq!(e.refresh_action(&Timestamp { millis: 5_000 }), RefreshAction::ServeCached);
}

#[test]
fn failed_fetch_keeps_cache() {
    let mut e = Exporter::new();
    e.complete_refresh(None);
    assert!(e.frame().is_none());
    e.complete_refresh(Some(frame(0)));
    e.complete_refresh(None);
    assert_eq!(e.frame().as_ref().map(|f| f.time), Some(Timestamp { millis: 0 }));
    assert_eq!(e.refresh_action(&Timestamp { millis: 400_000 }), RefreshAction::Fetch);
}

#[test]
fn new_fetch_replaces_frame() {
    let mut e = Exporter::new();
    e.complete_refresh(Some(frame(0)));
    e.complete_refresh(Some(frame(600_000)));
    assert_eq!(e.frame().as_ref().map(|f| f.time), Some(Timestamp { millis: 600_000 }));
    assert_eq!(e.refresh_action(&Timestamp { millis: 700_000 }), RefreshAction::ServeCached);
}
