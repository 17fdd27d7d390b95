use rusty_sensor::sensor::{
    next_cycle, read_step, RawRead, ReadAction, ReadState, TimeDoc, TimeRes,
    HUMIDITY_LIMIT_MILLI, READS_PER_SAMPLE,
};
use rusty_sensor::store::StoreError;

fn run_reads(attempts: Vec<Option<RawRead>>) -> (ReadState, ReadAction) {
    let mut state = ReadState::new();
    let mut last = ReadAction::Retry;
    for attempt in attempts {
        let (next, action) = read_step(state, attempt);
        state = next;
        last = action;
        if let ReadAction::Done(_, _) = last {
            break;
        }
    }
    (state, last)
}

#[test]
fn averaging_three_valid_reads() {
    let reads = vec![
        Some(RawRead { temp: 20_000, hum: 50_000 }),
        Some(RawRead { temp: 21_000, hum: 51_000 }),
        Some(RawRead { temp: 22_000, hum: 52_000 }),
    ];
    let (state, action) = run_reads(reads);
    assert_eq!(state.count, READS_PER_SAMPLE);
    assert_eq!(action, ReadAction::Done(21_000, 51_000));
}

#[test]
fn averaging_truncates_toward_zero() {
    let reads = vec![
        Some(RawRead { temp: -5, hum: 1 }),
        Some(RawRead { temp: -5, hum: 1 }),
        Some(RawRead { temp: -6, hum: 2 }),
    ];
    let (_, action) = run_reads(reads);
    // -16 / 3 truncates to -5, 4 / 3 truncates to 1.
    assert_eq!(action, ReadAction::Done(-5, 1));
}

#[test]
fn invalid_humidity_is_not_counted() {
    let state = ReadState::new();
    let (after, action) = read_step(
        state,
        Some(RawRead { temp: 20_000, hum: HUMIDITY_LIMIT_MILLI }),
    );
    assert_eq!(after, state);
    assert_eq!(action, ReadAction::Retry);
}

#[test]
fn failed_hardware_read_is_not_counted() {
    let state = ReadState::new();
    let (after, action) = read_step(state, None);
    assert_eq!(after, state);
    assert_eq!(action, ReadAction::Retry);
}

#[test]
fn humidity_just_below_sentinel_is_accepted() {
    let state = ReadState::new();
    let (after, action) = read_step(
        state,
        Some(RawRead { temp: 1_000, hum: HUMIDITY_LIMIT_MILLI - 1 }),
    );
    assert_eq!(after.count, 1);
    assert_eq!(after.hum_sum, (HUMIDITY_LIMIT_MILLI - 1) as i64);
    assert_eq!(action, ReadAction::Retry);
}

#[test]
fn retry_interleaved_with_valid_reads() {
    let reads = vec![
        Some(RawRead { temp: 10_000, hum: 40_000 }),
        None,
        Some(RawRead { temp: 11_000, hum: 100_000 }),
        Some(RawRead { temp: 11_000, hum: 41_000 }),
        Some(RawRead { temp: 12_000, hum: 42_000 }),
    ];
    let (state, action) = run_reads(reads);
    assert_eq!(state.count, 3);
    assert_eq!(action, ReadAction::Done(11_000, 41_000));
}

#[test]
fn failed_insert_starts_a_fresh_cycle() {
    let fresh = next_cycle(&Err(StoreError));
    assert_eq!(fresh, ReadState::new());
    let fresh_after_ok = next_cycle(&Ok(()));
    assert_eq!(fresh_after_ok, fresh);
}

#[test]
fn timedoc_stamps_data_and_source() {
    let doc = TimeDoc::new((21_000, 51_000), "dev-1", 1_234_567);
    assert_eq!(doc.timestamp, 1_234_567);
    assert_eq!(doc.sensor_id, "dev-1");
    assert_eq!(doc.temp, 21_000);
    assert_eq!(doc.hum, 51_000);
    let res = TimeRes::from(doc);
    assert_eq!(res.timestamp, 1_234_567);
    assert_eq!(res.sensor_id, "dev-1");
    assert_eq!(res.temp, 21_000);
    assert_eq!(res.hum, 51_000);
}
