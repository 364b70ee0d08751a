//! Errors dropped in asynchronous code.
use dioxus_lints::lints::empty_async_error_arm::{empty_async_error_arm, EmptyAsyncErrorArmReport};
use dioxus_lints::scan::{scan_source, ScannedFile};

fn project(text: &str) -> Vec<ScannedFile> {
    vec![scan_source("src/lib.rs", text)]
}

fn run(content: &str) -> EmptyAsyncErrorArmReport {
    empty_async_error_arm(&project(content))
}

#[test]
fn flags_iter03_ping_presence_shape() {
    let r = run(r#"
fn use_future<F, Fut>(_: F) where F: FnOnce() -> Fut {}
fn outer() {
    use_future(|| async move {
        loop {
            match call().await {
                Ok(_) => {}
                Err(_) => {}
            }
        }
    });
}
async fn call() -> Result<(), ()> { Ok(()) }
"#);
    assert_eq!(r.findings.len(), 1, "{r:?}");
    assert_eq!(r.findings[0].shape, "match_arm");
}

#[test]
fn flags_if_let_empty_body() {
    let r = run(r#"
async fn run() {
    if let Err(_) = doit().await {}
}
async fn doit() -> Result<(), ()> { Ok(()) }
"#);
    assert_eq!(r.findings.len(), 1, "{r:?}");
    assert_eq!(r.findings[0].shape, "if_let_block");
}

#[test]
fn empty_async_error_arm_silent_in_sync_context() {
    let r = run(r#"
fn run() {
    match doit() {
        Ok(_) => {}
        Err(_) => {}
    }
}
fn doit() -> Result<(), ()> { Ok(()) }
"#);
    assert!(r.findings.is_empty(), "{r:?}");
}

#[test]
fn silent_when_err_arm_has_real_body() {
    let r = run(r#"
async fn run() {
    match doit().await {
        Ok(_) => {}
        Err(e) => { eprintln!("oops: {e:?}"); }
    }
}
async fn doit() -> Result<(), ()> { Ok(()) }
"#);
    assert!(r.findings.is_empty(), "{r:?}");
}
