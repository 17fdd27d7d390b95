use rusty_sensor::hour::get_hour_data;
use rusty_sensor::id::get_ids;
use rusty_sensor::month::{collect_rollup, get_month_data, MonthDoc, ROLLUP_BUCKETS};
use rusty_sensor::sensor::TimeDoc;
use rusty_sensor::store::{StoreError, TimeSeriesStore};
use rusty_sensor::{SensorArgs, MS_PER_DAY, MS_PER_HOUR};

const MS_PER_MIN: i64 = 60_000;

fn sample(sid: &str, ts: i64, temp: i32, hum: i32) -> TimeDoc {
    TimeDoc::new((temp, hum), sid, ts)
}

fn args(sid: &str) -> SensorArgs {
    SensorArgs { sensor_id: sid.to_string() }
}

#[test]
fn insert_then_find_includes_the_sample() {
    let mut store = TimeSeriesStore::new();
    let s = sample("dev-1", 5_000, 21_000, 50_000);
    store.insert(s).unwrap();
    let found = store.find(&"dev-1".to_string(), 0, 10_000).unwrap();
    assert_eq!(found.len(), 1);
    assert_eq!(found[0].timestamp, 5_000);
    assert_eq!(found[0].sensor_id, "dev-1");
    assert_eq!(found[0].temp, 21_000);
    assert_eq!(found[0].hum, 50_000);
}

#[test]
fn hour_window_is_exact() {
    let now: i64 = 100 * MS_PER_DAY;
    let mut store = TimeSeriesStore::new();
    store.insert(sample("dev-1", now - 61 * MS_PER_MIN, 1, 1)).unwrap();
    store.insert(sample("dev-1", now - 59 * MS_PER_MIN, 2, 2)).unwrap();
    store.insert(sample("dev-1", now - 1 * MS_PER_MIN, 3, 3)).unwrap();
    let out = get_hour_data(&store, &args("dev-1"), now).unwrap();
    assert_eq!(out.len(), 2);
    assert_eq!(out[0].timestamp, now - 59 * MS_PER_MIN);
    assert_eq!(out[1].timestamp, now - 1 * MS_PER_MIN);
}

#[test]
fn hour_window_excludes_boundaries_and_other_sources() {
    let now: i64 = 100 * MS_PER_DAY;
    let mut store = TimeSeriesStore::new();
    // exactly one hour old: inside (lower bound inclusive)
    store.insert(sample("dev-1", now - MS_PER_HOUR, 4, 4)).unwrap();
    // exactly now: outside (upper bound exclusive)
    store.insert(sample("dev-1", now, 5, 5)).unwrap();
    // right time, other source
    store.insert(sample("dev-2", now - 2 * MS_PER_MIN, 6, 6)).unwrap();
    let out = get_hour_data(&store, &args("dev-1"), now).unwrap();
    assert_eq!(out.len(), 1);
    assert_eq!(out[0].timestamp, now - MS_PER_HOUR);
}

#[test]
fn hour_query_on_empty_store_is_empty_not_an_error() {
    let store = TimeSeriesStore::new();
    let out = get_hour_data(&store, &args("dev-1"), 100 * MS_PER_DAY).unwrap();
    assert!(out.is_empty());
}

#[test]
fn rollup_omits_empty_buckets_and_orders_recent_first() {
    let now: i64 = 100 * MS_PER_DAY + 1_000;
    let mut store = TimeSeriesStore::new();
    store.insert(sample("dev-1", 97 * MS_PER_DAY + 7 * MS_PER_HOUR, 1_000, 10_000)).unwrap();
    store.insert(sample("dev-1", 99 * MS_PER_DAY + 5 * MS_PER_HOUR, 2_000, 20_000)).unwrap();
    store.insert(sample("dev-1", 100 * MS_PER_DAY + 500, 3_000, 30_000)).unwrap();
    let out = get_month_data(&store, &args("dev-1"), now).unwrap();
    assert_eq!(out.len(), 3);
    assert_eq!(out[0].timestamp, 100 * MS_PER_DAY);
    assert_eq!(out[1].timestamp, 99 * MS_PER_DAY);
    assert_eq!(out[2].timestamp, 97 * MS_PER_DAY);
    assert!(out[0].timestamp > out[1].timestamp);
    assert!(out.len() <= ROLLUP_BUCKETS);
}

#[test]
fn rollup_bucket_medians_are_exact() {
    let now: i64 = 100 * MS_PER_DAY + 1_000;
    let day = 99 * MS_PER_DAY;
    let mut store = TimeSeriesStore::new();
    store.insert(sample("dev-1", day + 1, 1_000, 10_000)).unwrap();
    store.insert(sample("dev-1", day + 2, 3_000, 30_000)).unwrap();
    store.insert(sample("dev-1", day + 3, 2_000, 20_000)).unwrap();
    let out = get_month_data(&store, &args("dev-1"), now).unwrap();
    assert_eq!(out.len(), 1);
    assert_eq!(out[0].timestamp, day);
    assert_eq!(out[0].temp_median, 2_000);
    assert_eq!(out[0].hum_median, 20_000);
}

#[test]
fn rollup_even_bucket_takes_lower_median() {
    let now: i64 = 100 * MS_PER_DAY + 1_000;
    let day = 100 * MS_PER_DAY;
    let mut store = TimeSeriesStore::new();
    for (i, t) in [4_000, 1_000, 3_000, 2_000].iter().enumerate() {
        store.insert(sample("dev-1", day + i as i64, *t, 50_000)).unwrap();
    }
    let out = get_month_data(&store, &args("dev-1"), now).unwrap();
    assert_eq!(out.len(), 1);
    assert_eq!(out[0].temp_median, 2_000);
}

#[test]
fn rollup_covers_thirty_days_only() {
    let now: i64 = 100 * MS_PER_DAY + 1_000;
    let mut store = TimeSeriesStore::new();
    // 31 days before the first bucket's end: outside every bucket
    store.insert(sample("dev-1", 70 * MS_PER_DAY + 1, 1, 1)).unwrap();
    // inside the oldest bucket
    store.insert(sample("dev-1", 71 * MS_PER_DAY + 1, 2, 2)).unwrap();
    let out = get_month_data(&store, &args("dev-1"), now).unwrap();
    assert_eq!(out.len(), 1);
    assert_eq!(out[0].timestamp, 71 * MS_PER_DAY);
}

#[test]
fn rollup_on_empty_store_is_empty() {
    let store = TimeSeriesStore::new();
    let out = get_month_data(&store, &args("dev-1"), 100 * MS_PER_DAY).unwrap();
    assert!(out.is_empty());
}

#[test]
fn one_failed_aggregation_discards_every_bucket() {
    let starts = vec![2 * MS_PER_DAY, MS_PER_DAY, 0];
    let outcomes: Vec<Result<Option<MonthDoc>, StoreError>> = vec![
        Ok(Some(MonthDoc { temp_median: 1, hum_median: 2 })),
        Err(StoreError),
        Ok(Some(MonthDoc { temp_median: 3, hum_median: 4 })),
    ];
    assert!(collect_rollup(&starts, &outcomes).is_err());
}

#[test]
fn empty_buckets_do_not_abort_collection() {
    let starts = vec![2 * MS_PER_DAY, MS_PER_DAY, 0];
    let outcomes: Vec<Result<Option<MonthDoc>, StoreError>> = vec![
        Ok(None),
        Ok(Some(MonthDoc { temp_median: 7, hum_median: 8 })),
        Ok(None),
    ];
    let out = collect_rollup(&starts, &outcomes).unwrap();
    assert_eq!(out.len(), 1);
    assert_eq!(out[0].timestamp, MS_PER_DAY);
    assert_eq!(out[0].temp_median, 7);
    assert_eq!(out[0].hum_median, 8);
}

#[test]
fn catalog_is_distinct_and_descending() {
    let mut store = TimeSeriesStore::new();
    store.insert(sample("a", 1, 1, 1)).unwrap();
    store.insert(sample("a", 2, 2, 2)).unwrap();
    store.insert(sample("b", 3, 3, 3)).unwrap();
    let ids = get_ids(&store).unwrap();
    assert_eq!(ids.sensor_id, vec!["b".to_string(), "a".to_string()]);
}

#[test]
fn catalog_orders_prefixes_before_their_extensions() {
    let mut store = TimeSeriesStore::new();
    store.insert(sample("b", 1, 1, 1)).unwrap();
    store.insert(sample("b1", 2, 2, 2)).unwrap();
    store.insert(sample("a9", 3, 3, 3)).unwrap();
    let ids = get_ids(&store).unwrap();
    assert_eq!(
        ids.sensor_id,
        vec!["b1".to_string(), "b".to_string(), "a9".to_string()]
    );
}

#[test]
fn catalog_of_empty_store_is_empty_not_an_error() {
    let store = TimeSeriesStore::new();
    let ids = get_ids(&store).unwrap();
    assert!(ids.sensor_id.is_empty());
}

#[test]
fn sorting_sources_is_descending_and_keeps_duplicates() {
    let ids = vec![
        "a".to_string(),
        "c".to_string(),
        "b".to_string(),
        "c".to_string(),
    ];
    let sorted = rusty_sensor::order::sort_sources_descending(ids);
    assert_eq!(
        sorted,
        vec![
            "c".to_string(),
            "c".to_string(),
            "b".to_string(),
            "a".to_string(),
        ]
    );
}

#[test]
fn clock_based_queries_answer_under_a_sane_clock() {
    let store = TimeSeriesStore::new();
    let out = rusty_sensor::clock::hour_data_at_now(&store, &args("dev-1")).unwrap();
    assert!(out.is_empty());
    let out = rusty_sensor::clock::month_data_at_now(&store, &args("dev-1")).unwrap();
    assert!(out.is_empty());
}

#[test]
fn start_of_today_truncates_to_midnight() {
    let day100 = 100 * MS_PER_DAY;
    assert_eq!(rusty_sensor::start_of_today(day100), day100);
    assert_eq!(rusty_sensor::start_of_today(day100 + 5 * MS_PER_HOUR + 7), day100);
}

#[test]
fn collecting_no_buckets_yields_an_empty_response() {
    let starts: Vec<i64> = vec![];
    let outcomes: Vec<Result<Option<MonthDoc>, StoreError>> = vec![];
    let out = collect_rollup(&starts, &outcomes).unwrap();
    assert!(out.is_empty());
}

#[test]
fn catalog_of_a_single_source() {
    let mut store = TimeSeriesStore::new();
    store.insert(sample("only", 1, 1, 1)).unwrap();
    let ids = get_ids(&store).unwrap();
    assert_eq!(ids.sensor_id, vec!["only".to_string()]);
}
