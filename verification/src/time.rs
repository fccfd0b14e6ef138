//! Points in time, as milliseconds since the Unix epoch (UTC).
use vstd::prelude::*;

verus! {

/// Earliest instant that chrono represents: -262143-01-01T00:00:00 UTC.
pub open spec fn chrono_min_millis() -> int {
    -8_334_601_228_800_000
}

/// Latest instant that chrono represents: 262142-12-31T23:59:59.999 UTC.
pub open spec fn chrono_max_millis() -> int {
    8_210_266_876_799_999
}

/// Whether chrono can represent the instant `millis` milliseconds after the
/// Unix epoch as a `DateTime<Utc>`: chrono's dates run from January 1 of year
/// -262143 to December 31 of year 262142.
pub open spec fn utc_millis_representable(millis: i64) -> bool {
    chrono_min_millis() <= millis <= chrono_max_millis()
}

/// Asks chrono whether `Utc.timestamp_millis_opt(millis)` gives a single
/// `DateTime<Utc>`: it does exactly when the instant lies within chrono's
/// range of dates (its `NaiveDate::MIN` to `NaiveDate::MAX`, any time of day).
#[verifier::external_body]
fn chrono_utc_accepts_millis(millis: i64) -> (r: bool)
    ensures
        r == utc_millis_representable(millis),
{
    match chrono::TimeZone::timestamp_millis_opt(&chrono::Utc, millis) {
        chrono::MappedLocalTime::Single(_) => true,
        chrono::MappedLocalTime::Ambiguous(_, _) => false,
        chrono::MappedLocalTime::None => false,
    }
}

/// Whole seconds in a span of `ms` milliseconds, truncated toward zero.
pub open spec fn whole_seconds(ms: int) -> int {
    if ms >= 0 {
        ms / 1000
    } else {
        -((-ms) / 1000)
    }
}

/// An instant, in milliseconds since 1970-01-01 00:00:00 UTC.
#[derive(Clone, Copy, Debug, PartialEq, Eq, Structural)]
pub struct Timestamp {
    pub millis: i64,
}

impl Timestamp {
    /// The instant `millis` milliseconds after the epoch, when chrono can
    /// represent it.
    pub fn from_millis(millis: i64) -> (r: Option<Timestamp>)
        ensures
            r is Some <==> utc_millis_representable(millis),
            r matches Some(t) ==> t.millis == millis,
    {
        if chrono_utc_accepts_millis(millis) {
            Some(Timestamp { millis })
        } else {
            None
        }
    }

    /// Whole seconds since the epoch, rounded toward negative infinity.
    pub fn unix_seconds(&self) -> (r: i64)
        ensures
            r == self.millis as int / 1000,
    {
        if self.millis >= 0 {
            self.millis / 1000
        } else {
            let below: u64 = (-(self.millis as i128)) as u64;
            let up: u64 = (below + 999) / 1000;
            assert(up < 0x8000_0000_0000_0000);
            let r: i64 = -(up as i64);
            assert(r == self.millis as int / 1000) by {
                assert(below == -self.millis);
                assert(up == (below + 999) / 1000);
            }
            r
        }
    }

    /// Whole seconds from `earlier` to `self`, truncated toward zero (negative
    /// when `earlier` is later).
    pub fn seconds_since(&self, earlier: &Timestamp) -> (r: i64)
        ensures
            r == whole_seconds(self.millis - earlier.millis),
    {
        let d: i128 = self.millis as i128 - earlier.millis as i128;
        if d >= 0 {
            let q: u128 = (d as u128) / 1000;
            q as i64
        } else {
            let q: u128 = ((-d) as u128) / 1000;
            -(q as i64)
        }
    }
}

/// A span is shorter than `secs` whole seconds (for `secs` > 0) exactly when
/// it is shorter than `1000 * secs` milliseconds.
pub proof fn lemma_whole_seconds_below(ms: int, secs: int)
    requires
        secs > 0,
    ensures
        whole_seconds(ms) < secs <==> ms < 1000 * secs,
{
}

} // verus!
