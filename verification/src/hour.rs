//! The "last hour, raw" query: every observation of one source whose
//! timestamp lies in the trailing hour, in the store's retrieval order.

use vstd::prelude::*;

use crate::sensor::{time_res_of, TimeDoc, TimeRes};
use crate::store::{window_of, QueryError, TimeSeriesStore};
use crate::{valid_time, SensorArgs, MS_PER_HOUR};

verus! {

/// The answer of an hour query issued at `now`: the observations of
/// `sid` with timestamps in `[now - 1h, now)`, reshaped for a response.
pub open spec fn hour_result(samples: Seq<TimeDoc>, sid: Seq<char>, now: int) -> Seq<TimeRes> {
    window_of(samples, sid, now - MS_PER_HOUR, now).map_values(|d: TimeDoc| time_res_of(d))
}

/// Answers an hour query as of `now_ms`. An empty answer is a valid
/// outcome, not an error; only a storage failure is one.
pub fn get_hour_data(store: &TimeSeriesStore, args: &SensorArgs, now_ms: i64) -> (r: Result<
    Vec<TimeRes>,
    QueryError,
>)
    requires
        valid_time(now_ms as int),
    ensures
        r matches Ok(v) && v@ == hour_result(store@, args.sensor_id@, now_ms as int),
{
    let docs = match store.find(&args.sensor_id, now_ms - MS_PER_HOUR, now_ms) {
        Ok(d) => d,
        Err(_) => {
            return Err(QueryError);
        },
    };
    let ghost w = window_of(store@, args.sensor_id@, now_ms as int - MS_PER_HOUR, now_ms as int);
    let mut out: Vec<TimeRes> = Vec::new();
    let n = docs.len();
    let mut i: usize = 0;
    while i < n
        invariant
            i <= n,
            n == docs@.len(),
            docs@ == w,
            out@ == w.take(i as int).map_values(|d: TimeDoc| time_res_of(d)),
        decreases n - i,
    {
        proof {
            assert(w.take(i + 1).map_values(|d: TimeDoc| time_res_of(d)) =~= w.take(
                i as int,
            ).map_values(|d: TimeDoc| time_res_of(d)).push(time_res_of(w[i as int])));
        }
        let doc = docs[i].clone();
        out.push(TimeRes::from(doc));
        i = i + 1;
    }
    proof {
        assert(w.take(n as int) =~= w);
    }
    Ok(out)
}

} // verus!
