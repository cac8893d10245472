use serde_json::Value;

use edlr_core::rpc::profiler::{
    avg_us, fold_window, series_json, summary_json, Ring, SecondBucket, Series, Subject, TimedBucket,
};
use edlr_core::server::rpc_profiler::handle_profiler_rpc;

fn empty_bucket() -> SecondBucket {
    SecondBucket {
        calls: 0,
        errors: 0,
        sum_us: 0,
        max_us: 0,
        queue_len: None,
        memory_bytes: None,
        dropped_events: None,
        dropped_bus: None,
    }
}

fn calls_at(second: u64, calls: u64, errors: u64, sum_us: u64, max_us: u64) -> TimedBucket {
    TimedBucket { second, bucket: SecondBucket { calls, errors, sum_us, max_us, ..empty_bucket() } }
}

fn gauge_at(second: u64, queue_len: u64, events: u64, bus: u64, memory: u64) -> TimedBucket {
    TimedBucket {
        second,
        bucket: SecondBucket {
            queue_len: Some(queue_len),
            dropped_events: Some(events),
            dropped_bus: Some(bus),
            memory_bytes: Some(memory),
            ..empty_bucket()
        },
    }
}

fn series(id: &str, buckets: Vec<TimedBucket>) -> Series {
    Series { subject: Subject::Plugin, id: id.to_string(), buckets }
}

#[test]
fn summary_folds_the_last_minute_and_orders_subjects_by_id() {
    let mut ring = Ring::new();
    ring.series.push(series("b-plugin", vec![calls_at(950, 2, 1, 40, 30)]));
    ring.series.push(series("a-plugin", vec![gauge_at(990, 5, 2, 0, 1024)]));
    let v = summary_json(&ring, 1000);
    let subjects = v["subjects"].as_array().unwrap();
    assert_eq!(subjects[0]["id"], "a-plugin");
    assert_eq!(subjects[1]["calls_1m"], 2);
    assert_eq!(subjects[1]["avg_us_1m"], 20);
    assert_eq!(subjects[1]["max_us_1m"], 30);
    assert_eq!(subjects[1]["errors_1m"], 1);
    assert_eq!(subjects[0]["queue_len"], 5);
    assert_eq!(subjects[0]["dropped"]["events"], 2);
}

#[test]
fn series_returns_one_point_per_second_with_nulls_for_gaps() {
    let mut ring = Ring::new();
    ring.series.push(series("p", vec![calls_at(995, 1, 0, 10, 10)]));
    let v = series_json(&ring, Subject::Plugin, "p", 10, 1000);
    assert_eq!(v["from_ts"], 990);
    let points = v["points"].as_array().unwrap();
    assert_eq!(points.len(), 10);
    assert!(points[0].is_null());
    assert_eq!(points[5]["calls"], 1);
}

#[test]
fn series_clamps_seconds_to_3600() {
    let ring = Ring::new();
    let v = series_json(&ring, Subject::Plugin, "p", 999_999, 5000);
    assert_eq!(v["points"].as_array().unwrap().len(), 3600);
}

#[test]
fn profiler_rpc_reads_the_ring_and_errors_without_a_profiler() {
    let params = Value::Object(serde_json::Map::new());
    assert!(handle_profiler_rpc(None, 100, "profiler/summary", &params).is_err());

    let mut ring = Ring::new();
    ring.series.push(series("p1", vec![calls_at(100, 1, 0, 10, 10)]));
    let v = handle_profiler_rpc(Some(&ring), 100, "profiler/summary", &params).unwrap();
    assert_eq!(v["subjects"].as_array().unwrap().len(), 1);
    assert!(handle_profiler_rpc(Some(&ring), 100, "profiler/unknown", &params).is_err());
}

#[test]
fn a_window_begins_a_minute_ago_and_ends_before_now() {
    let mut ring = Ring::new();
    ring.series.push(series(
        "p",
        vec![calls_at(939, 1, 0, 1, 1), calls_at(940, 10, 0, 1, 1), calls_at(1000, 100, 0, 1, 1)],
    ));
    let v = summary_json(&ring, 1000);
    assert_eq!(v["subjects"][0]["calls_1m"], 10);
    let v = summary_json(&ring, 30);
    assert_eq!(v["subjects"][0]["calls_1m"], 0);
}

#[test]
fn the_last_reading_counts_and_the_lost_ones_are_told() {
    let mut ring = Ring::new();
    ring.lost = 4;
    ring.series.push(series("p", vec![gauge_at(990, 5, 2, 1, 10), gauge_at(991, 7, 3, 2, 20)]));
    let v = summary_json(&ring, 1000);
    assert_eq!(v["profilerLost"], 4);
    let p = &v["subjects"][0];
    assert_eq!(p["subject"], "plugin");
    assert_eq!(p["queue_len"], 7);
    assert_eq!(p["memory_bytes"], 20);
    assert_eq!(p["dropped"]["busDeliveries"], 2);
}

#[test]
fn subjects_with_one_id_stay_in_their_order() {
    let mut ring = Ring::new();
    ring.series.push(series("z", vec![]));
    ring.series.push(Series { subject: Subject::Driver, id: "a".into(), buckets: vec![] });
    ring.series.push(series("a", vec![]));
    let v = summary_json(&ring, 1000);
    assert_eq!(v["subjects"][0]["subject"], "driver");
    assert_eq!(v["subjects"][1]["subject"], "plugin");
    assert_eq!(v["subjects"][2]["id"], "z");
}

#[test]
fn nothing_called_takes_no_time_on_average() {
    assert_eq!(avg_us(10, 0), 0);
    assert_eq!(avg_us(10, 3), 3);
    let fold = fold_window(&vec![None, None]);
    assert_eq!(fold.calls, 0);
    assert_eq!(fold.queue_len, 0);
}

#[test]
fn series_are_asked_for_by_subject_id_and_length() {
    let mut ring = Ring::new();
    ring.series.push(series("p", vec![calls_at(99, 2, 0, 10, 6)]));
    let ask = |text: &str| {
        let params: Value = serde_json::from_str(text).unwrap();
        handle_profiler_rpc(Some(&ring), 100, "profiler/series", &params)
    };
    let v = ask(r#"{ "subject": "plugin", "id": "p", "seconds": 2 }"#).unwrap();
    assert_eq!(v["points"][1]["avg_us"], 5);
    assert_eq!(v["step"], 1);
    assert_eq!(
        ask(r#"{ "subject": "moon", "id": "p", "seconds": 2 }"#).unwrap_err(),
        "unknown subject: moon"
    );
    assert_eq!(
        ask(r#"{ "subject": "driver", "id": "p" }"#).unwrap_err(),
        "params.seconds must be an integer"
    );
}

#[test]
fn sums_that_do_not_fit_are_told_beforehand() {
    let full = |second: u64| TimedBucket {
        second,
        bucket: SecondBucket {
            calls: 1,
            errors: 0,
            sum_us: u64::MAX,
            max_us: 0,
            queue_len: None,
            memory_bytes: None,
            dropped_events: None,
            dropped_bus: None,
        },
    };
    let mut ring = Ring::new();
    assert!(ring.can_sum(1000));
    ring.series.push(Series { subject: Subject::Plugin, id: "p".into(), buckets: vec![full(990)] });
    assert!(ring.can_sum(1000));
    ring.series[0].buckets.push(full(991));
    assert!(!ring.can_sum(1000));
    assert!(ring.can_sum(1051));
}
