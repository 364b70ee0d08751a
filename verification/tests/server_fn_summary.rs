//! Calls of server functions, read from a log.
use dioxus_lints::server_fn_summary::{
    duration_from_iso, has_reached, read_calls, server_fn_summary, stats_from, summarize, Sample,
    ServerFnSummaryParams,
};

fn samples(us: &[u64]) -> Vec<Sample> {
    us.iter().map(|us| Sample { name: "f".to_string(), us: *us, ok: *us != 7 }).collect()
}

#[test]
fn percentiles_round_to_the_nearest_rank() {
    let s = stats_from(&samples(&[50, 10, 40, 20, 30, 7, 60, 70, 80, 90, 100]));
    assert_eq!(s.count, 11);
    assert_eq!((s.ok, s.err), (10, 1));
    assert_eq!((s.min_us, s.max_us), (7, 100));
    assert_eq!(s.p50_us, 50);
    assert_eq!(s.p95_us, 100);
    assert_eq!(s.total_us, 557);
    let s = stats_from(&samples(&[1, 2, 3, 4]));
    assert_eq!((s.p50_us, s.p95_us), (3, 4));
}

#[test]
fn no_samples_give_zeros() {
    let s = stats_from(&samples(&[]));
    assert_eq!((s.count, s.ok, s.err), (0, 0, 0));
    assert_eq!((s.min_us, s.p50_us, s.p95_us, s.max_us, s.total_us), (0, 0, 0, 0, 0));
}

#[test]
fn durations_are_told_in_microseconds() {
    let d = duration_from_iso("2024-01-01T00:00:00Z", "2024-01-01T00:00:01.000250Z");
    assert_eq!(d, Some(1_000_250));
    let d = duration_from_iso("2024-01-01T02:00:00+02:00", "2024-01-01T00:00:00Z");
    assert_eq!(d, Some(0));
}

#[test]
fn durations_that_make_no_sense_are_none() {
    assert_eq!(duration_from_iso("2024-01-01T00:00:01Z", "2024-01-01T00:00:00Z"), None);
    assert_eq!(duration_from_iso("yesterday", "2024-01-01T00:00:00Z"), None);
    assert_eq!(duration_from_iso("2024-01-01T00:00:00Z", "now"), None);
}

fn log() -> Vec<String> {
    [
        r#"{"kind":"server_fn","phase":"start","call_id":"1","name":"get","ts":"2024-01-01T00:00:00Z"}"#,
        r#"{"kind":"server_fn","phase":"start","call_id":"2","name":"put","ts":"2024-01-01T00:00:00Z"}"#,
        r#"{"kind":"server_fn","phase":"end","call_id":"1","name":"get","ts":"2024-01-01T00:00:02Z","duration_us":120,"ok":true}"#,
        r#"{"kind":"server_fn","phase":"start","call_id":"3","name":"get","ts":"2024-01-01T00:00:03Z"}"#,
        r#"{"kind":"server_fn","phase":"end","call_id":"3","name":"get","ts":"2024-01-01T00:00:04Z","ok":false}"#,
        r#"{"kind":"render","ts":"2024-01-01T00:00:05Z"}"#,
        "not json",
        "",
        "[1, 2]",
    ]
    .iter()
    .map(|l| l.to_string())
    .collect()
}

fn params(since: Option<&str>, server_fn: Option<&str>) -> ServerFnSummaryParams {
    ServerFnSummaryParams {
        project_root: None,
        since: since.map(|s| s.to_string()),
        server_fn: server_fn.map(|s| s.to_string()),
        log_path: None,
    }
}

#[test]
fn calls_are_paired_by_their_id() {
    let r = server_fn_summary(&params(None, None), &log(), "2024-01-01T00:00:00Z", "a.log");
    let names: Vec<&str> = r.summaries.iter().map(|s| s.name.as_str()).collect();
    assert_eq!(names, vec!["get", "put"]);
    let get = &r.summaries[0];
    assert_eq!((get.completed.count, get.completed.ok, get.pending), (2, 1, 0));
    assert_eq!(get.completed.min_us, 120);
    assert_eq!(get.completed.max_us, 1_000_000);
    let put = &r.summaries[1];
    assert_eq!((put.completed.count, put.pending), (0, 1));
    assert_eq!(r.log_files_scanned, vec!["a.log"]);
    assert!(r.notes.iter().any(|n| n.contains('1')), "{:?}", r.notes);
}

#[test]
fn older_calls_and_other_functions_are_left_out() {
    let p = params(Some("2024-01-01T00:00:03Z"), None);
    let r = server_fn_summary(&p, &log(), "2023-01-01T00:00:00Z", "a.log");
    assert_eq!(r.summaries.len(), 1);
    assert_eq!(r.summaries[0].completed.count, 1);
    let r = server_fn_summary(&params(None, Some("put")), &log(), "2024", "a.log");
    assert_eq!(r.summaries.len(), 1);
    assert_eq!(r.summaries[0].name, "put");
}

#[test]
fn an_end_closes_its_start() {
    let lines = log();
    let open = read_calls(&lines[..2].to_vec(), "2024", &None);
    assert_eq!(open.starts.len(), 2);
    let closed = read_calls(&lines[..3].to_vec(), "2024", &None);
    assert_eq!(closed.starts.len(), 1);
    assert_eq!(closed.starts[0].call_id, "2");
    let all = read_calls(&lines, "2024", &None);
    assert_eq!(all.malformed, 1);
    assert_eq!(summarize(&all).len(), 2);
}

#[test]
fn the_cutoff_is_a_time_and_no_text() {
    let line = |ts: &str| {
        format!(
            "{{\"kind\":\"server_fn\",\"name\":\"f\",\"phase\":\"end\",\"call_id\":\"c\",\"duration_us\":10,\"ok\":true,\"ts\":\"{ts}\"}}"
        )
    };
    let count = |ts: &str| {
        let p = params(Some("2026-01-01T00:00:00Z"), None);
        let r = server_fn_summary(&p, &vec![line(ts)], "", "events.jsonl");
        r.summaries.first().map(|s| (s.completed.count, s.completed.ok, s.completed.min_us, s.pending))
    };
    assert_eq!(count("2026-01-01T00:00:00.500Z"), Some((1, 1, 10, 0)));
    assert_eq!(count("2026-01-01T01:00:00+01:00"), Some((1, 1, 10, 0)));
    assert_eq!(count("2025-12-31T23:59:59.999Z"), None);
    assert_eq!(count("2026-01-01T00:30:00+01:00"), None);
    assert_eq!(count("no time"), Some((1, 1, 10, 0)));
    assert_eq!(count(""), None);
}

#[test]
fn times_are_compared_before_texts() {
    assert!(has_reached("b", Some(1), "a", Some(1)));
    assert!(!has_reached("a", Some(2), "b", Some(1)));
    assert!(has_reached("a", None, "b", Some(1)));
    assert!(!has_reached("b", Some(1), "a", None));
}
