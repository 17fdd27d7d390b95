//! Sensor sampling: a hardware read either fails or yields a raw
//! (temperature, humidity) pair; pairs whose humidity reaches the
//! sensor's invalid-read sentinel are discarded, and three accepted
//! pairs are averaged into one denoised sample.
//!
//! The blocking retry loop itself is driven by the embedding program;
//! this module holds its entire decision logic as a step function, so
//! that every transition is stated and proved.

use vstd::prelude::*;

use crate::store::StoreError;

verus! {

/// Humidity readings at or above this value (thousandths of a percent)
/// are the sensor's sentinel for an invalid read and are discarded.
pub const HUMIDITY_LIMIT_MILLI: i32 = 100_000;

/// Fixed pause between two hardware read attempts, in milliseconds.
pub const READ_DELAY_MS: u64 = 2200;

/// Number of accepted raw reads averaged into one sample.
pub const READS_PER_SAMPLE: u8 = 3;

/// One raw reading from the hardware, in thousandths of a degree and
/// thousandths of a percent.
#[derive(Clone, Copy, PartialEq, Eq, Structural, Debug)]
pub struct RawRead {
    pub temp: i32,
    pub hum: i32,
}

/// A raw reading counts only while its humidity is below the sentinel.
pub open spec fn valid_read(r: RawRead) -> bool {
    r.hum < HUMIDITY_LIMIT_MILLI
}

/// Running sums of the accepted raw reads of the current sample.
#[derive(Clone, Copy, PartialEq, Eq, Structural, Debug)]
pub struct ReadState {
    pub temp_sum: i64,
    pub hum_sum: i64,
    pub count: u8,
}

impl ReadState {
    /// Each sum is the total of `count` values that each fit in an `i32`.
    pub open spec fn wf(self) -> bool {
        &&& self.count <= READS_PER_SAMPLE
        &&& (i32::MIN as int) * (self.count as int) <= self.temp_sum as int
            <= (i32::MAX as int) * (self.count as int)
        &&& (i32::MIN as int) * (self.count as int) <= self.hum_sum as int
            <= (i32::MAX as int) * (self.count as int)
    }

    /// The accumulator at the start of a sampling cycle.
    pub open spec fn initial() -> ReadState {
        ReadState { temp_sum: 0, hum_sum: 0, count: 0 }
    }

    pub fn new() -> (r: ReadState)
        ensures
            r == ReadState::initial(),
            r.wf(),
    {
        ReadState { temp_sum: 0, hum_sum: 0, count: 0 }
    }
}

/// What the sampling loop does after one read attempt.
#[derive(Clone, Copy, PartialEq, Eq, Structural, Debug)]
pub enum ReadAction {
    /// Wait the fixed inter-read delay, then attempt another read.
    /// (The hardware is also given this delay after an accepted read.)
    Retry,
    /// Three reads were accepted: the sample is their per-channel mean.
    Done(i32, i32),
}

/// Division by three that truncates toward zero, as the machine's
/// signed division does.
pub open spec fn div3(x: int) -> int {
    if x >= 0 {
        x / 3
    } else {
        -((-x) / 3)
    }
}

/// One transition of the sampling loop: a failed read (`None`) or an
/// invalid reading leaves the accumulator untouched; a valid reading is
/// added, and the third one completes the sample with the mean of each
/// channel.
pub open spec fn spec_read_step(s: ReadState, attempt: Option<RawRead>) -> (ReadState, ReadAction)
    recommends
        s.wf(),
        s.count < READS_PER_SAMPLE,
{
    match attempt {
        None => (s, ReadAction::Retry),
        Some(r) => {
            if !valid_read(r) {
                (s, ReadAction::Retry)
            } else {
                let s2 = ReadState {
                    temp_sum: (s.temp_sum + r.temp as i64) as i64,
                    hum_sum: (s.hum_sum + r.hum as i64) as i64,
                    count: (s.count + 1) as u8,
                };
                if s2.count == READS_PER_SAMPLE {
                    (s2, ReadAction::Done(div3(s2.temp_sum as int) as i32, div3(s2.hum_sum as int) as i32))
                } else {
                    (s2, ReadAction::Retry)
                }
            }
        },
    }
}

/// Truncating division of a bounded sum by three.
fn div3_i64(x: i64) -> (r: i64)
    requires
        i64::MIN < x,
    ensures
        r as int == div3(x as int),
{
    if x >= 0 {
        ((x as u64) / 3) as i64
    } else {
        let y: u64 = (-x) as u64;
        -((y / 3) as i64)
    }
}

/// Performs one step of the sampling loop.
pub fn read_step(s: ReadState, attempt: Option<RawRead>) -> (r: (ReadState, ReadAction))
    requires
        s.wf(),
        s.count < READS_PER_SAMPLE,
    ensures
        r == spec_read_step(s, attempt),
        r.0.wf(),
        r.1 is Retry ==> r.0.count < READS_PER_SAMPLE,
{
    match attempt {
        None => (s, ReadAction::Retry),
        Some(r) => {
            if r.hum >= HUMIDITY_LIMIT_MILLI {
                (s, ReadAction::Retry)
            } else {
                let s2 = ReadState {
                    temp_sum: s.temp_sum + r.temp as i64,
                    hum_sum: s.hum_sum + r.hum as i64,
                    count: s.count + 1,
                };
                if s2.count == READS_PER_SAMPLE {
                    proof {
                        lemma_div3_bounds(s2.temp_sum as int);
                        lemma_div3_bounds(s2.hum_sum as int);
                    }
                    let temp_avg = div3_i64(s2.temp_sum);
                    let hum_avg = div3_i64(s2.hum_sum);
                    (s2, ReadAction::Done(temp_avg as i32, hum_avg as i32))
                } else {
                    (s2, ReadAction::Retry)
                }
            }
        },
    }
}

/// The mean of three values that fit in an `i32` fits in an `i32`.
proof fn lemma_div3_bounds(x: int)
    requires
        3 * (i32::MIN as int) <= x <= 3 * (i32::MAX as int),
    ensures
        i32::MIN as int <= div3(x) <= i32::MAX as int,
{
    if x >= 0 {
        assert(x / 3 <= i32::MAX as int) by (nonlinear_arith)
            requires 0 <= x <= 3 * (i32::MAX as int);
        assert(x / 3 >= 0) by (nonlinear_arith)
            requires x >= 0;
    } else {
        assert((-x) / 3 <= -(i32::MIN as int)) by (nonlinear_arith)
            requires 0 <= -x <= 3 * -(i32::MIN as int);
        assert((-x) / 3 >= 0) by (nonlinear_arith)
            requires -x >= 0;
    }
}

/// Averaging law: starting a cycle and accepting three valid raw reads
/// yields a finished sample whose channels are the truncated arithmetic
/// means of the three temperatures and of the three humidities.
pub proof fn lemma_averaging(r1: RawRead, r2: RawRead, r3: RawRead)
    requires
        valid_read(r1),
        valid_read(r2),
        valid_read(r3),
    ensures
        ({
            let (s1, a1) = spec_read_step(ReadState::initial(), Some(r1));
            let (s2, a2) = spec_read_step(s1, Some(r2));
            let (s3, a3) = spec_read_step(s2, Some(r3));
            &&& a1 is Retry
            &&& a2 is Retry
            &&& a3 == ReadAction::Done(
                div3(r1.temp + r2.temp + r3.temp) as i32,
                div3(r1.hum + r2.hum + r3.hum) as i32,
            )
            &&& s3.count == READS_PER_SAMPLE
        }),
{
}

/// Retry law: a hardware-read failure or an invalid reading is never
/// counted toward the three accepted reads; the accumulator is left as
/// it was and the loop waits the fixed delay before the next attempt.
pub proof fn lemma_retry_on_invalid(s: ReadState, attempt: Option<RawRead>)
    requires
        s.wf(),
        s.count < READS_PER_SAMPLE,
        attempt matches Some(r) ==> !valid_read(r),
    ensures
        spec_read_step(s, attempt).0 == s,
        spec_read_step(s, attempt).1 is Retry,
{
}

/// One persisted sensor observation. The timestamp is in milliseconds
/// since the Unix epoch; the channels are in thousandths of a unit.
pub struct TimeDoc {
    pub timestamp: i64,
    pub sensor_id: String,
    pub temp: i32,
    pub hum: i32,
}

impl TimeDoc {
    /// Stamps an averaged (temperature, humidity) pair with the moment
    /// of acquisition and the identifier of the device that produced it.
    pub fn new(data: (i32, i32), hw_id: &str, now_ms: i64) -> (r: TimeDoc)
        ensures
            r.timestamp == now_ms,
            r.sensor_id@ == hw_id@,
            r.temp == data.0,
            r.hum == data.1,
    {
        let (temp, hum) = data;
        TimeDoc { timestamp: now_ms, sensor_id: hw_id.to_owned(), temp, hum }
    }
}

impl Clone for TimeDoc {
    fn clone(&self) -> (r: Self)
        ensures
            r == *self,
    {
        TimeDoc {
            timestamp: self.timestamp,
            sensor_id: self.sensor_id.clone(),
            temp: self.temp,
            hum: self.hum,
        }
    }
}

/// The response shape of one raw observation, field for field the
/// stored shape.
pub struct TimeRes {
    pub timestamp: i64,
    pub sensor_id: String,
    pub temp: i32,
    pub hum: i32,
}

/// The observation `d` reshaped for a response.
pub open spec fn time_res_of(d: TimeDoc) -> TimeRes {
    TimeRes { timestamp: d.timestamp, sensor_id: d.sensor_id, temp: d.temp, hum: d.hum }
}

impl vstd::std_specs::convert::FromSpecImpl<TimeDoc> for TimeRes {
    open spec fn obeys_from_spec() -> bool {
        true
    }

    open spec fn from_spec(value: TimeDoc) -> TimeRes {
        time_res_of(value)
    }
}

impl From<TimeDoc> for TimeRes {
    fn from(value: TimeDoc) -> (r: Self) {
        TimeRes {
            timestamp: value.timestamp,
            sensor_id: value.sensor_id,
            temp: value.temp,
            hum: value.hum,
        }
    }
}

/// Write-path fault-tolerance law: whatever a sample insertion
/// reported, the acquisition loop starts its next cycle with a fresh
/// accumulator; a failed insert is absorbed, never propagated.
pub fn next_cycle(insert_result: &Result<(), StoreError>) -> (r: ReadState)
    ensures
        r == ReadState::initial(),
{
    let _ = insert_result;
    ReadState::new()
}

} // verus!
