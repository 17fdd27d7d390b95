//! The wall clock. Reading it is the one thing this crate takes on
//! trust: everything computed from a reading is a verified function of
//! the returned value.

use vstd::prelude::*;

use crate::month::MonthRes;
use crate::sensor::TimeRes;
use crate::store::{QueryError, TimeSeriesStore};
use crate::{hour::get_hour_data, hour::hour_result, month::get_month_data, month::rollup_seq};
use crate::{start_of_day, valid_time, SensorArgs, MS_PER_DAY};

verus! {

/// Relies on chrono's `Utc::now`: the current wall-clock time, here as
/// `timestamp_millis`, milliseconds since the Unix epoch. Nothing can
/// be promised of a clock reading; callers check the value they get.
/// As in chrono itself, a host clock before the Unix epoch or beyond
/// chrono's representable range aborts the call inside `Utc::now`; the
/// platform refuses to set its clock to either, so no input of this
/// crate can reach that abort.
#[verifier::external_body]
fn now_millis() -> i64 {
    chrono::Utc::now().timestamp_millis()
}

/// Answers an hour query as of the moment of the call. A clock reading
/// outside the representable query range is surfaced as a query
/// failure.
pub fn hour_data_at_now(store: &TimeSeriesStore, args: &SensorArgs) -> (r: Result<
    Vec<TimeRes>,
    QueryError,
>)
    ensures
        r matches Ok(v) ==> exists|now: int|
            valid_time(now) && v@ == #[trigger] hour_result(store@, args.sensor_id@, now),
{
    let now_ms = now_millis();
    if now_ms < 0 || now_ms > crate::MAX_TIMESTAMP_MS {
        return Err(QueryError);
    }
    get_hour_data(store, args, now_ms)
}

/// Answers a rollup query as of the moment of the call, with the same
/// guard on the clock reading.
pub fn month_data_at_now(store: &TimeSeriesStore, args: &SensorArgs) -> (r: Result<
    Vec<MonthRes>,
    QueryError,
>)
    ensures
        r matches Ok(v) ==> exists|now: int|
            valid_time(now) && v@ == #[trigger] rollup_seq(
                store@,
                args.sensor_id@,
                start_of_day(now) + MS_PER_DAY,
                crate::month::ROLLUP_BUCKETS as nat,
            ),
{
    let now_ms = now_millis();
    if now_ms < 0 || now_ms > crate::MAX_TIMESTAMP_MS {
        return Err(QueryError);
    }
    get_month_data(store, args, now_ms)
}

} // verus!
