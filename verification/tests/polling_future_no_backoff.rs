//! Loops that poll at a constant rate.
use dioxus_lints::lints::polling_future_no_backoff::{polling_future_no_backoff, PollingFutureReport};
use dioxus_lints::scan::{scan_source, ScannedFile};

fn project(text: &str) -> Vec<ScannedFile> {
    vec![scan_source("src/lib.rs", text)]
}

fn run(content: &str) -> PollingFutureReport {
    polling_future_no_backoff(&project(content))
}

#[test]
fn flags_iter03_board_poll() {
    let r = run(r#"
async fn run() {
    loop {
        let _ = fetch().await;
        gloo_timers::future::TimeoutFuture::new(2000).await;
    }
}
async fn fetch() -> Result<(), ()> { Ok(()) }
"#);
    assert_eq!(r.findings.len(), 1, "{r:?}");
    assert_eq!(r.findings[0].delay_ms, Some(2000));
    assert_eq!(r.findings[0].sleep_call, "TimeoutFuture::new");
}

#[test]
fn flags_tokio_sleep_constant() {
    let r = run(r#"
async fn run() {
    loop {
        let _ = fetch().await;
        tokio::time::sleep(std::time::Duration::from_millis(500)).await;
    }
}
async fn fetch() -> Result<(), ()> { Ok(()) }
"#);
    assert_eq!(r.findings.len(), 1, "{r:?}");
    assert_eq!(r.findings[0].delay_ms, Some(500));
}

#[test]
fn silent_when_delay_is_a_variable() {
    let r = run(r#"
async fn run() {
    let mut delay = 1000u64;
    loop {
        let _ = fetch().await;
        gloo_timers::future::TimeoutFuture::new(delay).await;
        delay = (delay * 2).min(30_000);
    }
}
async fn fetch() -> Result<(), ()> { Ok(()) }
"#);
    assert!(r.findings.is_empty(), "{r:?}");
}

#[test]
fn polling_future_no_backoff_silent_in_sync_context() {
    let r = run(r#"
fn run() {
    loop {
        std::thread::sleep(std::time::Duration::from_millis(2000));
    }
}
"#);
    assert!(r.findings.is_empty(), "{r:?}");
}

#[test]
fn a_constant_delay_behind_a_computed_one_is_flagged() {
    let r = run("async fn f() { loop { fetch().await; sleep(delay).await; sleep(Duration::from_millis(500)).await; } }");
    assert_eq!(r.findings.len(), 1, "{r:?}");
    assert_eq!(r.findings[0].delay_ms, Some(500));
    assert_eq!(r.findings[0].sleep_call, "sleep");
    assert_eq!(r.findings[0].severity, "warning");
}
