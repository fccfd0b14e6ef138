//! The cached frame of the five products and when to fetch a new one.
//!
//! The DPC publishes a new sample every five minutes, so while the cached
//! frame is younger than one sample period it is served as it is, and a
//! scrape fetches only once it has aged.
use vstd::prelude::*;

use crate::grid::DpcGrid;
use crate::time::{lemma_whole_seconds_below, whole_seconds, Timestamp};

verus! {

/// Seconds between two DPC samples.
pub const SAMPLE_PERIOD_SECS: i64 = 300;

/// The five products around the monitored point, as of one sample time.
pub struct ExporterFrame {
    pub time: Timestamp,
    pub poh: DpcGrid,
    pub vmi: DpcGrid,
    pub vil: DpcGrid,
    pub sri: DpcGrid,
    pub etm: DpcGrid,
}

impl ExporterFrame {
    /// The frame made of the five products as fetched, each with its own
    /// sample time: the frame carries the time of the hail product.
    pub fn from_products(
        poh: (Timestamp, DpcGrid),
        vmi: (Timestamp, DpcGrid),
        vil: (Timestamp, DpcGrid),
        sri: (Timestamp, DpcGrid),
        etm: (Timestamp, DpcGrid),
    ) -> (f: ExporterFrame)
        ensures
            f.time == poh.0,
            f.poh == poh.1,
            f.vmi == vmi.1,
            f.vil == vil.1,
            f.sri == sri.1,
            f.etm == etm.1,
    {
        ExporterFrame { time: poh.0, poh: poh.1, vmi: vmi.1, vil: vil.1, sri: sri.1, etm: etm.1 }
    }
}

/// What a scrape does before it renders.
#[derive(Clone, Copy, Debug, PartialEq, Eq, Structural)]
pub enum RefreshAction {
    /// The cached frame is recent enough: serve it without asking the DPC.
    ServeCached,
    /// Fetch a new frame.
    Fetch,
}

/// A frame taken at `time` is still current at `now`: less than one sample
/// period, in whole seconds, has gone by.
pub open spec fn is_current(time: Timestamp, now: Timestamp) -> bool {
    whole_seconds(now.millis - time.millis) < SAMPLE_PERIOD_SECS
}

/// The action for a scrape at `now` given the cached frame.
pub open spec fn refresh_action_for(cached: Option<ExporterFrame>, now: Timestamp) -> RefreshAction {
    match cached {
        Some(f) => if is_current(f.time, now) {
            RefreshAction::ServeCached
        } else {
            RefreshAction::Fetch
        },
        None => RefreshAction::Fetch,
    }
}

/// The cache after a fetch: a fetched frame replaces the cached one, a failed
/// fetch leaves the cache as it was.
pub open spec fn after_fetch(
    cached: Option<ExporterFrame>,
    fetched: Option<ExporterFrame>,
) -> Option<ExporterFrame> {
    match fetched {
        Some(f) => Some(f),
        None => cached,
    }
}

/// The exporter's state: the last frame fetched, if any.
pub struct Exporter {
    frame: Option<ExporterFrame>,
}

impl View for Exporter {
    type V = Option<ExporterFrame>;

    closed spec fn view(&self) -> Option<ExporterFrame> {
        self.frame
    }
}

impl Exporter {
    /// An exporter that has fetched nothing yet.
    pub fn new() -> (e: Exporter)
        ensures
            e@ is None,
    {
        Exporter { frame: None }
    }

    /// The cached frame.
    pub fn frame(&self) -> (r: &Option<ExporterFrame>)
        ensures
            *r == self@,
    {
        &self.frame
    }

    /// Whether a scrape at `now` serves the cache or fetches.
    pub fn refresh_action(&self, now: &Timestamp) -> (a: RefreshAction)
        ensures
            a == refresh_action_for(self@, *now),
    {
        match &self.frame {
            Some(f) => if now.seconds_since(&f.time) < SAMPLE_PERIOD_SECS {
                RefreshAction::ServeCached
            } else {
                RefreshAction::Fetch
            },
            None => RefreshAction::Fetch,
        }
    }

    /// Records the outcome of a fetch: `Some` frame on success, `None` when it
    /// failed.
    pub fn complete_refresh(&mut self, fetched: Option<ExporterFrame>)
        ensures
            final(self)@ == after_fetch(old(self)@, fetched),
    {
        match fetched {
            Some(f) => {
                self.frame = Some(f);
            },
            None => {},
        }
    }
}

/// A frame is current exactly while less than 300 000 milliseconds have gone
/// by since its time (a frame time in the future counts as current).
pub proof fn lemma_current_iff_within_period(time: Timestamp, now: Timestamp)
    ensures
        is_current(time, now) <==> now.millis - time.millis < 300_000,
{
    lemma_whole_seconds_below(now.millis - time.millis, 300);
}

/// An exporter that has fetched nothing always fetches.
pub proof fn lemma_empty_cache_fetches(now: Timestamp)
    ensures
        refresh_action_for(None, now) == RefreshAction::Fetch,
{
}

/// Once a frame is fetched, a scrape less than one sample period after the
/// frame's time serves it without fetching again.
pub proof fn lemma_fetched_frame_is_served(
    cached: Option<ExporterFrame>,
    fetched: ExporterFrame,
    now: Timestamp,
)
    requires
        now.millis - fetched.time.millis < 300_000,
    ensures
        after_fetch(cached, Some(fetched)) == Some(fetched),
        refresh_action_for(after_fetch(cached, Some(fetched)), now) == RefreshAction::ServeCached,
{
    lemma_current_iff_within_period(fetched.time, now);
}

/// A failed fetch changes nothing: the next scrape decides as it would have.
pub proof fn lemma_failed_fetch_changes_nothing(cached: Option<ExporterFrame>, now: Timestamp)
    ensures
        after_fetch(cached, None) == cached,
        refresh_action_for(after_fetch(cached, None), now) == refresh_action_for(cached, now),
{
}

/// A cached frame one sample period old or older is fetched anew.
pub proof fn lemma_stale_frame_fetched(f: ExporterFrame, now: Timestamp)
    requires
        now.millis - f.time.millis >= 300_000,
    ensures
        refresh_action_for(Some(f), now) == RefreshAction::Fetch,
{
    lemma_current_iff_within_period(f.time, now);
}

} // verus!
