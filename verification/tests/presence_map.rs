//! Maps in server state that only grow.
use dioxus_lints::lints::presence_map_unbounded::{
    presence_map_unbounded, receiver_root_ident, PresenceMapFinding,
};
use dioxus_lints::tape::Kind;
use dioxus_lints::scan::{scan_source, ScannedFile};

fn project(text: &str) -> Vec<ScannedFile> {
    vec![scan_source("src/state.rs", text)]
}

fn scan(src: &str) -> Vec<PresenceMapFinding> {
    presence_map_unbounded(&project(src)).findings
}

#[test]
fn flags_insert_only_static_map() {
    let findings = scan(
        r#"use std::collections::HashMap;
use std::sync::Mutex;
use std::time::Instant;
use once_cell::sync::Lazy;

static PRESENCE: Lazy<Mutex<HashMap<String, (Instant, String)>>> =
    Lazy::new(|| Mutex::new(HashMap::new()));

#[post("/api/ping")]
async fn ping_presence(sid: String, label: String) -> Result<(), ServerFnError> {
    let mut presence = PRESENCE.lock().unwrap();
    presence.insert(sid, (Instant::now(), label));
    Ok(())
}
"#,
    );
    assert_eq!(findings.len(), 1, "must fire: {findings:?}");
    assert_eq!(findings[0].binding, "PRESENCE");
    assert_eq!(findings[0].insert_sites.len(), 1);
    assert_eq!(findings[0].insert_sites[0].server_fn, "ping_presence");
    assert_eq!(findings[0].severity, "info");
}

#[test]
fn narrow_remove_only_fires_as_warn() {
    let findings = scan(
        r#"use std::collections::HashMap;
use std::sync::Mutex;
use once_cell::sync::Lazy;

static SESSIONS: Lazy<Mutex<HashMap<String, String>>> =
    Lazy::new(|| Mutex::new(HashMap::new()));

#[post("/api/login")]
async fn login_user(name: String) -> Result<(), ServerFnError> {
    let mut sessions = SESSIONS.lock().unwrap();
    sessions.insert("sid".into(), name);
    Ok(())
}

#[post("/api/logout")]
async fn logout_user(sid: String) -> Result<(), ServerFnError> {
    let mut sessions = SESSIONS.lock().unwrap();
    sessions.remove(&sid);
    Ok(())
}
"#,
    );
    assert_eq!(findings.len(), 1, "must fire: {findings:?}");
    let f = &findings[0];
    assert_eq!(f.binding, "SESSIONS");
    assert_eq!(f.code, "presence_map_narrow_eviction");
    assert_eq!(f.severity, "warning");
    assert_eq!(f.remove_sites.len(), 1);
    assert_eq!(f.remove_sites[0].server_fn, "logout_user");
}

#[test]
fn silent_when_eviction_present() {
    let findings = scan(
        r#"use std::collections::HashMap;
use std::sync::Mutex;
use std::time::{Duration, Instant};
use once_cell::sync::Lazy;

static PRESENCE: Lazy<Mutex<HashMap<String, (Instant, String)>>> =
    Lazy::new(|| Mutex::new(HashMap::new()));

#[post("/api/ping")]
async fn ping_presence(sid: String, label: String) -> Result<(), ServerFnError> {
    let mut presence = PRESENCE.lock().unwrap();
    presence.insert(sid, (Instant::now(), label));
    Ok(())
}

#[get("/api/sweep")]
async fn sweep_presence() -> Result<(), ServerFnError> {
    let mut presence = PRESENCE.lock().unwrap();
    presence.retain(|_, (ts, _)| ts.elapsed() < Duration::from_secs(60));
    Ok(())
}
"#,
    );
    assert!(
        findings.is_empty(),
        "retain() is the eviction call — must skip: {findings:?}",
    );
}

#[test]
fn ignores_insert_from_non_server_fn() {
    let findings = scan(
        r#"use std::collections::HashMap;
use std::sync::Mutex;
use once_cell::sync::Lazy;

static CACHE: Lazy<Mutex<HashMap<String, String>>> =
    Lazy::new(|| Mutex::new(HashMap::new()));

fn seed() {
    let mut cache = CACHE.lock().unwrap();
    cache.insert("k".into(), "v".into());
}
"#,
    );
    assert!(
        findings.is_empty(),
        "only server-fn inserts count: {findings:?}",
    );
}

#[test]
fn receiver_root_ident_descends_through_chain() {
    let files =
        project("fn f() { PRESENCE.lock().unwrap().insert(1, 2) }");
    let t = files[0].ast.as_ref().unwrap();
    let call = t
        .iter()
        .position(|n| n.kind == Kind::MethodCall && n.name == "insert")
        .unwrap();
    let name = receiver_root_ident(t, t[call].first);
    assert_eq!(name.as_deref(), Some("PRESENCE"));
}
