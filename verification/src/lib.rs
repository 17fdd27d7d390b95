//! Core of a small environmental-monitoring service: a sensor-sampling
//! state machine with noise-reducing averaging, an append-only time-series
//! store with windowed queries, a thirty-day daily-median rollup, and a
//! catalog of observed sensor ids.
//!
//! Temperatures and humidities are carried as fixed-point integers in
//! thousandths of a unit (milli-degrees, milli-percent), so that every
//! computation on them can be stated and proved exactly.

use vstd::prelude::*;

pub mod clock;
pub mod hour;
pub mod id;
pub mod median;
pub mod month;
pub mod order;
pub mod sensor;
pub mod store;

verus! {

/// The query parameter every per-source query takes: which sensor's
/// series to read.
pub struct SensorArgs {
    pub sensor_id: String,
}

/// Milliseconds in one hour: the width of the raw-data query window.
pub const MS_PER_HOUR: i64 = 3_600_000;

/// Milliseconds in one day: the width of one rollup bucket.
pub const MS_PER_DAY: i64 = 86_400_000;

/// Largest timestamp (milliseconds since the epoch) the queries accept;
/// leaves room for one day above it without overflowing an `i64`.
pub const MAX_TIMESTAMP_MS: i64 = 9_000_000_000_000_000_000;

/// A timestamp the query paths can work with: non-negative (at or after
/// the epoch) and far enough from `i64::MAX` that adding a day is safe.
pub open spec fn valid_time(t: int) -> bool {
    0 <= t <= MAX_TIMESTAMP_MS
}

/// Start of the UTC day containing `t`: `t` rounded down to midnight.
pub open spec fn start_of_day(t: int) -> int
    recommends
        t >= 0,
{
    t - (t % (MS_PER_DAY as int))
}

/// Truncates a timestamp to the most recent UTC midnight.
pub fn start_of_today(now_ms: i64) -> (r: i64)
    requires
        valid_time(now_ms as int),
    ensures
        r == start_of_day(now_ms as int),
        0 <= r <= now_ms,
{
    now_ms - (now_ms % MS_PER_DAY)
}

} // verus!
