//! The thirty-day rollup: thirty consecutive 24-hour buckets aligned to
//! UTC midnight, each summarised by the per-channel median of its
//! samples; buckets without samples are omitted from the answer, and a
//! storage failure on any bucket discards the whole answer.

use vstd::prelude::*;

use crate::sensor::TimeDoc;
use crate::store::{window_median, QueryError, StoreError, TimeSeriesStore};
use crate::{start_of_day, start_of_today, valid_time, MAX_TIMESTAMP_MS, MS_PER_DAY};

verus! {

/// Number of buckets a rollup query covers: the trailing thirty days.
pub const ROLLUP_BUCKETS: usize = 30;

/// The summary the store's median aggregation yields for one bucket.
#[derive(Clone, Copy, PartialEq, Eq, Structural, Debug)]
pub struct MonthDoc {
    pub temp_median: i32,
    pub hum_median: i32,
}

/// One bucket of the rollup response: the bucket's lower boundary and
/// the two channel medians.
#[derive(Clone, Copy, PartialEq, Eq, Structural, Debug)]
pub struct MonthRes {
    pub timestamp: i64,
    pub temp_median: i32,
    pub hum_median: i32,
}

impl MonthDoc {
    /// The bucket summary labeled with its window's lower boundary.
    pub open spec fn spec_to_monthres(self, time: i64) -> MonthRes {
        MonthRes { timestamp: time, temp_median: self.temp_median, hum_median: self.hum_median }
    }

    pub fn to_monthres(&self, time: i64) -> (r: MonthRes)
        ensures
            r == self.spec_to_monthres(time),
    {
        MonthRes { timestamp: time, temp_median: self.temp_median, hum_median: self.hum_median }
    }
}

/// The rollup answer as of upper boundary `day_end`: `n` consecutive
/// 24-hour buckets, most recent first, each non-empty bucket summarised
/// by its medians and labeled with its lower boundary, each empty
/// bucket silently omitted.
pub open spec fn rollup_seq(samples: Seq<TimeDoc>, sid: Seq<char>, day_end: int, n: nat) -> Seq<
    MonthRes,
>
    decreases n,
{
    if n == 0 {
        Seq::empty()
    } else {
        let lo = day_end - MS_PER_DAY;
        let head: Seq<MonthRes> = match window_median(samples, sid, lo, day_end) {
            Some(doc) => seq![doc.spec_to_monthres(lo as i64)],
            None => Seq::empty(),
        };
        head + rollup_seq(samples, sid, lo, (n - 1) as nat)
    }
}

/// Answers a "trailing thirty days, daily median" query as of `now_ms`.
/// The first bucket is the partially elapsed current day, ending at the
/// next UTC midnight.
pub fn get_month_data(store: &TimeSeriesStore, args: &crate::SensorArgs, now_ms: i64) -> (r:
    Result<Vec<MonthRes>, QueryError>)
    requires
        valid_time(now_ms as int),
    ensures
        r matches Ok(v) && v@ == rollup_seq(
            store@,
            args.sensor_id@,
            start_of_day(now_ms as int) + MS_PER_DAY,
            ROLLUP_BUCKETS as nat,
        ),
{
    let ghost sid = args.sensor_id@;
    let ghost start0: int = start_of_day(now_ms as int) + MS_PER_DAY;
    let mut day_end: i64 = start_of_today(now_ms) + MS_PER_DAY;
    let mut curr: usize = 0;
    let mut data: Vec<MonthRes> = Vec::new();
    proof {
        assert(Seq::<MonthRes>::empty() + rollup_seq(store@, sid, start0, ROLLUP_BUCKETS as nat)
            =~= rollup_seq(store@, sid, start0, ROLLUP_BUCKETS as nat));
    }
    while curr < ROLLUP_BUCKETS
        invariant
            curr <= ROLLUP_BUCKETS,
            sid == args.sensor_id@,
            valid_time(now_ms as int),
            start0 == start_of_day(now_ms as int) + MS_PER_DAY,
            MS_PER_DAY <= start0 <= MAX_TIMESTAMP_MS + MS_PER_DAY,
            day_end as int == start0 - (curr as int) * MS_PER_DAY,
            rollup_seq(store@, sid, start0, ROLLUP_BUCKETS as nat) == data@ + rollup_seq(
                store@,
                sid,
                day_end as int,
                (ROLLUP_BUCKETS - curr) as nat,
            ),
        decreases ROLLUP_BUCKETS - curr,
    {
        let lo = day_end - MS_PER_DAY;
        let ghost rem = (ROLLUP_BUCKETS - curr) as nat;
        let ghost head: Seq<MonthRes> = match window_median(store@, sid, lo as int, day_end as int) {
            Some(doc) => seq![doc.spec_to_monthres(lo)],
            None => Seq::empty(),
        };
        proof {
            assert(rollup_seq(store@, sid, day_end as int, rem) == head + rollup_seq(
                store@,
                sid,
                lo as int,
                (rem - 1) as nat,
            ));
        }
        match store.aggregate_median(&args.sensor_id, lo, day_end) {
            Ok(opt) => {
                match opt {
                    Some(doc) => {
                        let ghost before = data@;
                        data.push(doc.to_monthres(lo));
                        proof {
                            assert(data@ =~= before + head);
                            assert((before + head) + rollup_seq(store@, sid, lo as int, (rem - 1) as nat)
                                =~= before + (head + rollup_seq(store@, sid, lo as int, (rem - 1) as nat)));
                        }
                    },
                    None => {
                        proof {
                            assert(data@ + head =~= data@);
                            assert((data@ + head) + rollup_seq(store@, sid, lo as int, (rem - 1) as nat)
                                =~= data@ + (head + rollup_seq(store@, sid, lo as int, (rem - 1) as nat)));
                        }
                    },
                }
            },
            Err(_) => {
                return Err(QueryError);
            },
        }
        day_end = lo;
        curr = curr + 1;
    }
    proof {
        assert(data@ + rollup_seq(store@, sid, day_end as int, 0) =~= data@);
    }
    Ok(data)
}

/// One run of the rollup's collection decision, for a storage layer
/// whose per-bucket aggregations can fail: given the bucket boundaries
/// and what the store answered for each, either the assembled response,
/// or — if any single aggregation failed — a query failure that
/// discards every already-computed bucket. An aggregation that merely
/// found no samples never causes a failure; its bucket is omitted.
pub open spec fn collect_seq(starts: Seq<i64>, outcomes: Seq<Result<Option<MonthDoc>, StoreError>>) -> Seq<MonthRes>
    decreases outcomes.len(),
{
    if outcomes.len() == 0 || starts.len() == 0 {
        Seq::empty()
    } else {
        let head: Seq<MonthRes> = match outcomes[0] {
            Ok(Some(doc)) => seq![doc.spec_to_monthres(starts[0])],
            _ => Seq::empty(),
        };
        head + collect_seq(starts.drop_first(), outcomes.drop_first())
    }
}

/// Assembles a rollup response from per-bucket outcomes; fails exactly
/// when some bucket's aggregation failed.
pub fn collect_rollup(starts: &Vec<i64>, outcomes: &Vec<Result<Option<MonthDoc>, StoreError>>) -> (r: Result<Vec<MonthRes>, QueryError>)
    requires
        starts@.len() == outcomes@.len(),
    ensures
        r is Err <==> (exists|j: int|
            0 <= j < outcomes@.len() && (#[trigger] outcomes@[j]) is Err),
        r matches Ok(v) ==> v@ == collect_seq(starts@, outcomes@),
{
    let n = outcomes.len();
    let mut data: Vec<MonthRes> = Vec::new();
    let mut i: usize = 0;
    proof {
        assert(starts@.skip(0) =~= starts@);
        assert(outcomes@.skip(0) =~= outcomes@);
        assert(Seq::<MonthRes>::empty() + collect_seq(starts@, outcomes@) =~= collect_seq(
            starts@,
            outcomes@,
        ));
    }
    while i < n
        invariant
            i <= n,
            n == outcomes@.len(),
            starts@.len() == n,
            forall|j: int| 0 <= j < i ==> !((#[trigger] outcomes@[j]) is Err),
            collect_seq(starts@, outcomes@) == data@ + collect_seq(
                starts@.skip(i as int),
                outcomes@.skip(i as int),
            ),
        decreases n - i,
    {
        let ghost head: Seq<MonthRes> = match outcomes@[i as int] {
            Ok(Some(doc)) => seq![doc.spec_to_monthres(starts@[i as int])],
            _ => Seq::empty(),
        };
        proof {
            assert(starts@.skip(i as int).drop_first() =~= starts@.skip(i + 1));
            assert(outcomes@.skip(i as int).drop_first() =~= outcomes@.skip(i + 1));
            assert(starts@.skip(i as int)[0] == starts@[i as int]);
            assert(outcomes@.skip(i as int)[0] == outcomes@[i as int]);
            assert(collect_seq(starts@.skip(i as int), outcomes@.skip(i as int)) == head
                + collect_seq(starts@.skip(i + 1), outcomes@.skip(i + 1)));
        }
        let o = outcomes[i];
        match o {
            Ok(Some(doc)) => {
                let ghost before = data@;
                data.push(doc.to_monthres(starts[i]));
                proof {
                    assert(data@ =~= before + head);
                    assert((before + head) + collect_seq(starts@.skip(i + 1), outcomes@.skip(i + 1))
                        =~= before + (head + collect_seq(starts@.skip(i + 1), outcomes@.skip(i + 1))));
                }
            },
            Ok(None) => {
                proof {
                    assert(data@ + head =~= data@);
                    assert((data@ + head) + collect_seq(starts@.skip(i + 1), outcomes@.skip(i + 1))
                        =~= data@ + (head + collect_seq(starts@.skip(i + 1), outcomes@.skip(i + 1))));
                }
            },
            Err(_) => {
                return Err(QueryError);
            },
        }
        i = i + 1;
    }
    proof {
        assert(data@ + collect_seq(starts@.skip(n as int), outcomes@.skip(n as int)) =~= data@);
    }
    Ok(data)
}

/// Bucket-count law: a rollup over `n` buckets yields at most `n`
/// summaries, however dense or sparse the data.
pub proof fn lemma_rollup_bucket_count(samples: Seq<TimeDoc>, sid: Seq<char>, day_end: int, n: nat)
    ensures
        rollup_seq(samples, sid, day_end, n).len() <= n,
    decreases n,
{
    if n > 0 {
        lemma_rollup_bucket_count(samples, sid, day_end - MS_PER_DAY, (n - 1) as nat);
    }
}

/// No-placeholder law: every summary in a rollup belongs to a bucket in
/// which the aggregation found at least one sample, and carries exactly
/// that bucket's medians; buckets with zero matching samples are absent
/// rather than present with empty medians.
pub proof fn lemma_rollup_no_empty_buckets(
    samples: Seq<TimeDoc>,
    sid: Seq<char>,
    day_end: int,
    n: nat,
)
    requires
        0 <= day_end - (n as int) * MS_PER_DAY,
        day_end <= MAX_TIMESTAMP_MS + MS_PER_DAY,
    ensures
        forall|j: int|
            0 <= j < rollup_seq(samples, sid, day_end, n).len() ==> ({
                let e = #[trigger] rollup_seq(samples, sid, day_end, n)[j];
                window_median(samples, sid, e.timestamp as int, e.timestamp as int + MS_PER_DAY)
                    matches Some(doc) && e == doc.spec_to_monthres(e.timestamp)
            }),
    decreases n,
{
    if n > 0 {
        let lo = day_end - MS_PER_DAY;
        lemma_rollup_no_empty_buckets(samples, sid, lo, (n - 1) as nat);
        let r = rollup_seq(samples, sid, day_end, n);
        let rest = rollup_seq(samples, sid, lo, (n - 1) as nat);
        assert forall|j: int| 0 <= j < r.len() implies ({
            let e = #[trigger] r[j];
            window_median(samples, sid, e.timestamp as int, e.timestamp as int + MS_PER_DAY)
                matches Some(doc) && e == doc.spec_to_monthres(e.timestamp)
        }) by {
            match window_median(samples, sid, lo, day_end) {
                Some(doc) => {
                    if j == 0 {
                        assert(r[0] == doc.spec_to_monthres(lo as i64));
                        assert(r[0].timestamp as int == lo);
                    } else {
                        assert(r[j] == rest[j - 1]);
                    }
                },
                None => {
                    assert(r[j] == rest[j]);
                },
            }
        }
    }
}

/// Monotonic-window law: when every one of the `n` trailing buckets
/// holds at least one sample, the rollup yields one summary per bucket,
/// labeled most recent first, successive lower boundaries exactly 24
/// hours apart, each earlier than the one before it.
pub proof fn lemma_rollup_monotonic_windows(
    samples: Seq<TimeDoc>,
    sid: Seq<char>,
    day_end: int,
    n: nat,
)
    requires
        0 <= day_end - (n as int) * MS_PER_DAY,
        day_end <= MAX_TIMESTAMP_MS + MS_PER_DAY,
        forall|m: int|
            0 <= m < n ==> (#[trigger] window_median(
                samples,
                sid,
                day_end - (m + 1) * MS_PER_DAY,
                day_end - m * MS_PER_DAY,
            )) is Some,
    ensures
        rollup_seq(samples, sid, day_end, n).len() == n,
        forall|j: int|
            0 <= j < n ==> (#[trigger] rollup_seq(samples, sid, day_end, n)[j]).timestamp as int
                == day_end - (j + 1) * MS_PER_DAY,
        forall|j: int|
            1 <= j < n ==> rollup_seq(samples, sid, day_end, n)[j - 1].timestamp as int - (
            #[trigger] rollup_seq(samples, sid, day_end, n)[j]).timestamp as int == MS_PER_DAY,
    decreases n,
{
    if n > 0 {
        let lo = day_end - MS_PER_DAY;
        assert(window_median(
            samples,
            sid,
            day_end - (0 + 1) * MS_PER_DAY,
            day_end - 0 * MS_PER_DAY,
        ) is Some);
        assert(window_median(samples, sid, lo, day_end) is Some);
        assert forall|m: int| 0 <= m < n - 1 implies (#[trigger] window_median(
            samples,
            sid,
            lo - (m + 1) * MS_PER_DAY,
            lo - m * MS_PER_DAY,
        )) is Some by {
            assert(lo - (m + 1) * MS_PER_DAY == day_end - ((m + 1) + 1) * MS_PER_DAY);
            assert(lo - m * MS_PER_DAY == day_end - (m + 1) * MS_PER_DAY);
            assert(window_median(
                samples,
                sid,
                day_end - ((m + 1) + 1) * MS_PER_DAY,
                day_end - (m + 1) * MS_PER_DAY,
            ) is Some);
        }
        lemma_rollup_monotonic_windows(samples, sid, lo, (n - 1) as nat);
        let r = rollup_seq(samples, sid, day_end, n);
        let rest = rollup_seq(samples, sid, lo, (n - 1) as nat);
        let doc = window_median(samples, sid, lo, day_end)->Some_0;
        assert(r == seq![doc.spec_to_monthres(lo as i64)] + rest);
        assert(r[0].timestamp as int == lo);
        assert forall|j: int| 0 <= j < n implies (#[trigger] r[j]).timestamp as int == day_end - (j
            + 1) * MS_PER_DAY by {
            if j > 0 {
                assert(r[j] == rest[j - 1]);
                assert(rest[j - 1].timestamp as int == lo - j * MS_PER_DAY);
            }
        }
    }
}

} // verus!
