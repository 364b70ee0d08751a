//! Blocking locks in server functions.
use dioxus_lints::lints::server_state_blocking_locks::{server_state_blocking_locks, BlockingLockFinding};
use dioxus_lints::scan::{scan_source, ScannedFile};

fn project(text: &str) -> Vec<ScannedFile> {
    vec![scan_source("src/server.rs", text)]
}

fn scan(src: &str) -> Vec<BlockingLockFinding> {
    server_state_blocking_locks(&project(src)).findings
}

#[test]
fn flags_std_sync_mutex_lock_in_async_server_fn() {
    let findings = scan(
        r#"use std::sync::Mutex;
static STATE: Mutex<Vec<u32>> = Mutex::new(Vec::new());

#[server]
pub async fn count() -> Result<u32, ServerFnError> {
    let g = STATE.lock().unwrap();
    Ok(g.len() as u32)
}
"#,
    );
    assert_eq!(
        findings.len(),
        1,
        "should flag the .lock() call: {findings:?}"
    );
    assert_eq!(findings[0].server_fn, "count");
    assert_eq!(findings[0].method, "lock");
}

#[test]
fn flags_rwlock_read_and_write() {
    let findings = scan(
        r#"use std::sync::RwLock;
static STATE: RwLock<Vec<u32>> = RwLock::new(Vec::new());

#[get("/api/state")]
pub async fn handler() -> Result<u32, ServerFnError> {
    let r = STATE.read().unwrap();
    let mut w = STATE.write().unwrap();
    let _ = (r, w);
    Ok(0)
}
"#,
    );
    let methods: Vec<&str> = findings.iter().map(|f| f.method.as_str()).collect();
    assert!(
        methods.contains(&"read"),
        "RwLock::read must flag: {methods:?}"
    );
    assert!(
        methods.contains(&"write"),
        "RwLock::write must flag: {methods:?}"
    );
}

#[test]
fn does_not_flag_inside_spawn_blocking() {
    let findings = scan(
        r#"use std::sync::Mutex;
static STATE: Mutex<Vec<u32>> = Mutex::new(Vec::new());

#[server]
pub async fn handler() -> Result<u32, ServerFnError> {
    let n = tokio::task::spawn_blocking(|| {
        let g = STATE.lock().unwrap();
        g.len() as u32
    }).await.unwrap();
    Ok(n)
}
"#,
    );
    assert!(
        findings.is_empty(),
        "spawn_blocking {{ ... }} body is the safe escape hatch: {findings:?}"
    );
}

#[test]
fn does_not_flag_sync_function() {
    let findings = scan(
        r#"use std::sync::Mutex;
static STATE: Mutex<Vec<u32>> = Mutex::new(Vec::new());

pub fn sync_helper() -> u32 {
    let g = STATE.lock().unwrap();
    g.len() as u32
}
"#,
    );
    assert!(
        findings.is_empty(),
        "sync helpers without #[server]/#[get/etc.] should not trigger: {findings:?}"
    );
}

#[test]
fn does_not_flag_arbitrary_async_function() {
    let findings = scan(
        r#"use std::sync::Mutex;
static STATE: Mutex<Vec<u32>> = Mutex::new(Vec::new());

pub async fn helper() -> u32 {
    let g = STATE.lock().unwrap();
    g.len() as u32
}
"#,
    );
    assert!(
        findings.is_empty(),
        "no server-fn attribute → out of scope: {findings:?}"
    );
}
