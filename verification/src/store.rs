//! The append-only time-series store and its query interface: insertion,
//! range-filtered retrieval, per-window median aggregation, and the
//! distinct-source catalog.

use vstd::prelude::*;

use crate::median::{median, median_of};
use crate::month::MonthDoc;
use crate::order::{lemma_lex_trans, lemma_lex_trichotomy, lex_lt, str_lt};
use crate::sensor::TimeDoc;

verus! {

/// A failure reported by the storage layer. The read path surfaces it
/// as a generic query failure; the write path absorbs it.
#[derive(Clone, Copy, PartialEq, Eq, Structural, Debug)]
pub struct StoreError;

/// The generic failure signal a read-path query surfaces to its caller.
#[derive(Clone, Copy, PartialEq, Eq, Structural, Debug)]
pub struct QueryError;

/// Whether observation `d` matches a query for source `sid` over the
/// half-open time range `[lo, hi)`.
pub open spec fn in_window(d: TimeDoc, sid: Seq<char>, lo: int, hi: int) -> bool {
    &&& d.sensor_id@ == sid
    &&& lo <= (d.timestamp as int) < hi
}

/// The observations of `samples` that match source `sid` in `[lo, hi)`,
/// in their stored order.
pub open spec fn window_of(samples: Seq<TimeDoc>, sid: Seq<char>, lo: int, hi: int) -> Seq<
    TimeDoc,
> {
    samples.filter(|d: TimeDoc| in_window(d, sid, lo, hi))
}

/// Appending one observation extends its window by that observation
/// exactly when the observation matches the window.
pub proof fn lemma_window_push(s: Seq<TimeDoc>, x: TimeDoc, sid: Seq<char>, lo: int, hi: int)
    ensures
        window_of(s.push(x), sid, lo, hi) == (if in_window(x, sid, lo, hi) {
            window_of(s, sid, lo, hi).push(x)
        } else {
            window_of(s, sid, lo, hi)
        }),
{
    reveal(Seq::filter);
    assert(s.push(x).drop_last() =~= s);
}

/// The append-only series of observations, in insertion order.
pub struct TimeSeriesStore {
    samples: Vec<TimeDoc>,
}

impl TimeSeriesStore {
    /// The mathematical content of the store: the sequence of every
    /// observation ever inserted, oldest first.
    pub closed spec fn view(&self) -> Seq<TimeDoc> {
        self.samples@
    }

    pub fn new() -> (r: TimeSeriesStore)
        ensures
            r@ == Seq::<TimeDoc>::empty(),
    {
        TimeSeriesStore { samples: Vec::new() }
    }

    /// Appends one observation. Nothing is ever updated or removed: the
    /// new contents are exactly the old contents followed by `sample`.
    pub fn insert(&mut self, sample: TimeDoc) -> (r: Result<(), StoreError>)
        ensures
            r is Ok,
            final(self)@ == old(self)@.push(sample),
    {
        self.samples.push(sample);
        Ok(())
    }

    /// Retrieves, in insertion order, every observation of source `sid`
    /// whose timestamp lies in `[lo, hi)`.
    pub fn find(&self, sid: &String, lo: i64, hi: i64) -> (r: Result<
        Vec<TimeDoc>,
        StoreError,
    >)
        ensures
            r matches Ok(v) && v@ == window_of(self@, sid@, lo as int, hi as int),
    {
        let mut out: Vec<TimeDoc> = Vec::new();
        let n = self.samples.len();
        let mut i: usize = 0;
        while i < n
            invariant
                i <= n,
                n == self@.len(),
                out@ == window_of(self@.take(i as int), sid@, lo as int, hi as int),
            decreases n - i,
        {
            let d = &self.samples[i];
            proof {
                assert(self@.take(i + 1) =~= self@.take(i as int).push(self@[i as int]));
                lemma_window_push(self@.take(i as int), self@[i as int], sid@, lo as int, hi as int);
            }
            if lo <= d.timestamp && d.timestamp < hi && d.sensor_id.eq(sid) {
                out.push(d.clone());
            }
            i = i + 1;
        }
        proof {
            assert(self@.take(n as int) =~= self@);
        }
        Ok(out)
    }
}

/// The temperature channel of a series of observations.
pub open spec fn temps_of(s: Seq<TimeDoc>) -> Seq<i32> {
    s.map_values(|d: TimeDoc| d.temp)
}

/// The humidity channel of a series of observations.
pub open spec fn hums_of(s: Seq<TimeDoc>) -> Seq<i32> {
    s.map_values(|d: TimeDoc| d.hum)
}

/// The median aggregation over one bucket: nothing if the bucket holds
/// no matching observation, otherwise the per-channel medians of the
/// matching observations.
pub open spec fn window_median(samples: Seq<TimeDoc>, sid: Seq<char>, lo: int, hi: int) -> Option<
    MonthDoc,
> {
    let w = window_of(samples, sid, lo, hi);
    if w.len() == 0 {
        None
    } else {
        Some(
            MonthDoc {
                temp_median: median_of(temps_of(w)),
                hum_median: median_of(hums_of(w)),
            },
        )
    }
}

/// Some entry of `cat` is the identifier `sid`.
pub open spec fn appears(cat: Seq<String>, sid: Seq<char>) -> bool {
    exists|p: int| 0 <= p < cat.len() && (#[trigger] cat[p])@ == sid
}

/// Some observation of `samples` carries the identifier `sid`.
pub open spec fn appears_in_samples(samples: Seq<TimeDoc>, sid: Seq<char>) -> bool {
    exists|k: int| 0 <= k < samples.len() && (#[trigger] samples[k]).sensor_id@ == sid
}

/// What the source catalog promises: strictly descending (hence
/// duplicate-free), and holding an identifier exactly when some
/// observation carries it.
pub open spec fn catalog_ok(cat: Seq<String>, samples: Seq<TimeDoc>) -> bool {
    &&& forall|p: int, q: int|
        0 <= p < q < cat.len() ==> lex_lt(#[trigger] cat[q]@, #[trigger] cat[p]@)
    &&& forall|p: int| 0 <= p < cat.len() ==> appears_in_samples(samples, (#[trigger] cat[p])@)
    &&& forall|k: int|
        0 <= k < samples.len() ==> appears(cat, (#[trigger] samples[k]).sensor_id@)
}

/// An identifier present in a catalog, or the one being added, is
/// present after the insertion.
proof fn lemma_appears_insert(cat: Seq<String>, x: String, pos: int, sid: Seq<char>)
    requires
        0 <= pos <= cat.len(),
        appears(cat, sid) || x@ == sid,
    ensures
        appears(cat.insert(pos, x), sid),
{
    cat.insert_ensures(pos, x);
    if x@ == sid {
        assert(cat.insert(pos, x)[pos]@ == sid);
    } else {
        let p = choose|p: int| 0 <= p < cat.len() && (#[trigger] cat[p])@ == sid;
        if p < pos {
            assert(cat.insert(pos, x)[p]@ == sid);
        } else {
            assert(cat.insert(pos, x)[p + 1]@ == sid);
        }
    }
}

impl TimeSeriesStore {
    /// Runs the store's grouped-median aggregation for one bucket.
    pub fn aggregate_median(&self, sid: &String, lo: i64, hi: i64) -> (r: Result<
        Option<MonthDoc>,
        StoreError,
    >)
        ensures
            r matches Ok(v) && v == window_median(self@, sid@, lo as int, hi as int),
    {
        let docs = match self.find(sid, lo, hi) {
            Ok(d) => d,
            Err(e) => {
                return Err(e);
            },
        };
        if docs.len() == 0 {
            return Ok(None);
        }
        let mut temps: Vec<i32> = Vec::new();
        let mut hums: Vec<i32> = Vec::new();
        let n = docs.len();
        let mut i: usize = 0;
        while i < n
            invariant
                i <= n,
                n == docs@.len(),
                temps@ == temps_of(docs@.take(i as int)),
                hums@ == hums_of(docs@.take(i as int)),
            decreases n - i,
        {
            proof {
                assert(temps_of(docs@.take(i + 1)) =~= temps_of(docs@.take(i as int)).push(
                    docs@[i as int].temp,
                ));
                assert(hums_of(docs@.take(i + 1)) =~= hums_of(docs@.take(i as int)).push(
                    docs@[i as int].hum,
                ));
            }
            temps.push(docs[i].temp);
            hums.push(docs[i].hum);
            i = i + 1;
        }
        proof {
            assert(docs@.take(n as int) =~= docs@);
        }
        let tm = median(&temps);
        let hm = median(&hums);
        Ok(Some(MonthDoc { temp_median: tm, hum_median: hm }))
    }

    /// Collects the distinct identifiers observed across every sample,
    /// in descending order. As with the store's group-and-collect
    /// aggregation, a store that has never seen a sample yields no
    /// summary at all rather than an empty one.
    pub fn distinct_sources(&self) -> (r: Result<Option<Vec<String>>, StoreError>)
        ensures
            ({
                match r {
                    Ok(None) => self@.len() == 0,
                    Ok(Some(cat)) => self@.len() > 0 && catalog_ok(cat@, self@),
                    Err(_) => false,
                }
            }),
    {
        if self.samples.len() == 0 {
            return Ok(None);
        }
        let mut cat: Vec<String> = Vec::new();
        let n = self.samples.len();
        let mut k: usize = 0;
        while k < n
            invariant
                k <= n,
                n == self@.len(),
                forall|p: int, q: int|
                    0 <= p < q < cat@.len() ==> lex_lt(#[trigger] cat@[q]@, #[trigger] cat@[p]@),
                forall|p: int|
                    0 <= p < cat@.len() ==> appears_in_samples(self@, (#[trigger] cat@[p])@),
                forall|j: int| 0 <= j < k ==> appears(cat@, (#[trigger] self@[j]).sensor_id@),
            decreases n - k,
        {
            let d = &self.samples[k];
            let mut pos: usize = 0;
            while pos < cat.len() && str_lt(&d.sensor_id, &cat[pos])
                invariant
                    pos <= cat@.len(),
                    forall|t: int| 0 <= t < pos ==> lex_lt(d.sensor_id@, (#[trigger] cat@[t])@),
                decreases cat@.len() - pos,
            {
                pos = pos + 1;
            }
            if pos < cat.len() && cat[pos].eq(&d.sensor_id) {
                proof {
                    assert((cat@[pos as int])@ == self@[k as int].sensor_id@);
                    assert(appears(cat@, self@[k as int].sensor_id@));
                }
            } else {
                proof {
                    if (pos as int) < cat@.len() {
                        if !lex_lt(cat@[pos as int]@, d.sensor_id@) {
                            lemma_lex_trichotomy(d.sensor_id@, cat@[pos as int]@);
                        }
                        assert(lex_lt(cat@[pos as int]@, d.sensor_id@));
                    }
                }
                let ghost prev = cat@;
                let ghost x = d.sensor_id;
                proof {
                    prev.insert_ensures(pos as int, x);
                    let s2 = prev.insert(pos as int, x);
                    assert forall|p: int, q: int| 0 <= p < q < s2.len() implies lex_lt(
                        (#[trigger] s2[q])@,
                        (#[trigger] s2[p])@,
                    ) by {
                        if q < pos {
                            assert(s2[p] == prev[p] && s2[q] == prev[q]);
                        } else if p < pos && q == pos {
                            assert(s2[p] == prev[p] && s2[q] == x);
                            assert(lex_lt(x@, prev[p]@));
                        } else if p < pos && q > pos {
                            assert(s2[p] == prev[p] && s2[q] == prev[q - 1]);
                        } else if p == pos && q > pos {
                            assert(s2[p] == x && s2[q] == prev[q - 1]);
                            assert(lex_lt(prev[pos as int]@, x@));
                            if pos < q - 1 {
                                assert(lex_lt(prev[q - 1]@, prev[pos as int]@));
                                lemma_lex_trans(prev[q - 1]@, prev[pos as int]@, x@);
                            }
                        } else {
                            assert(s2[p] == prev[p - 1] && s2[q] == prev[q - 1]);
                        }
                    }
                    assert forall|j: int| 0 <= j < k + 1 implies appears(
                        s2,
                        (#[trigger] self@[j]).sensor_id@,
                    ) by {
                        if j < k {
                            lemma_appears_insert(prev, x, pos as int, self@[j].sensor_id@);
                        } else {
                            lemma_appears_insert(prev, x, pos as int, self@[k as int].sensor_id@);
                        }
                    }
                    assert forall|p: int| 0 <= p < s2.len() implies appears_in_samples(
                        self@,
                        (#[trigger] s2[p])@,
                    ) by {
                        if p < pos {
                            assert(s2[p] == prev[p]);
                        } else if p == pos {
                            assert(s2[p]@ == self@[k as int].sensor_id@);
                            assert(appears_in_samples(self@, self@[k as int].sensor_id@));
                        } else {
                            assert(s2[p] == prev[p - 1]);
                        }
                    }
                }
                cat.insert(pos, d.sensor_id.clone());
                proof {
                    assert(cat@ == prev.insert(pos as int, x));
                }
            }
            k = k + 1;
        }
        Ok(Some(cat))
    }
}

/// Append-only law: once `insert(s)` has succeeded, a `find` over the
/// source of `s` and any time range containing its timestamp includes
/// `s`; the remaining contents are exactly what was there before, so no
/// operation removes or alters a previously inserted observation.
pub proof fn lemma_append_only(before: Seq<TimeDoc>, s: TimeDoc, sid: Seq<char>, lo: int, hi: int)
    requires
        s.sensor_id@ == sid,
        lo <= (s.timestamp as int) < hi,
    ensures
        window_of(before.push(s), sid, lo, hi).contains(s),
        before.push(s).take(before.len() as int) == before,
{
    lemma_window_push(before, s, sid, lo, hi);
    let w = window_of(before.push(s), sid, lo, hi);
    assert(w[w.len() - 1] == s);
    assert(before.push(s).take(before.len() as int) =~= before);
}

} // verus!
