//! Server functions that repeat an authentication call.
use dioxus_lints::lints::repeated_auth_extractor::{
    repeated_auth_extractor, RepeatedAuthExtractorParams, RepeatedAuthExtractorReport,
};
use dioxus_lints::scan::{scan_source, ScannedFile};

fn project(files: &[(&str, &str)]) -> Vec<ScannedFile> {
    files.iter().map(|(path, text)| scan_source(&format!("src/{path}"), text)).collect()
}

fn run(files: &[(&str, &str)]) -> RepeatedAuthExtractorReport {
    let p = RepeatedAuthExtractorParams { project_root: None, min_call_sites: None };
    repeated_auth_extractor(&p, &project(files))
}

#[test]
fn flags_user_from_cookies_repetition() {
    let f1 = r#"
#[get("/api/board")]
async fn fetch_board() -> Result<(), ()> {
    if user_from_cookies(&cookies).is_none() { return Err(()); }
    Ok(())
}
"#;
    let f2 = r#"
#[post("/api/move")]
async fn move_card() -> Result<(), ()> {
    if user_from_cookies(&cookies).is_none() { return Err(()); }
    Ok(())
}
"#;
    let f3 = r#"
#[delete("/api/delete")]
async fn delete_card() -> Result<(), ()> {
    if user_from_cookies(&cookies).is_none() { return Err(()); }
    Ok(())
}
"#;
    let r = run(&[("a.rs", f1), ("b.rs", f2), ("c.rs", f3)]);
    assert_eq!(r.findings.len(), 1, "{r:?}");
    assert_eq!(r.findings[0].callee, "user_from_cookies");
    assert_eq!(r.findings[0].sites.len(), 3);
}

#[test]
fn silent_under_threshold() {
    let f1 = r#"
#[get("/a")]
async fn a() -> Result<(), ()> {
    if user_from_cookies(&cookies).is_none() { return Err(()); }
    Ok(())
}
"#;
    let f2 = r#"
#[get("/b")]
async fn b() -> Result<(), ()> {
    if user_from_cookies(&cookies).is_none() { return Err(()); }
    Ok(())
}
"#;
    let r = run(&[("a.rs", f1), ("b.rs", f2)]);
    assert!(r.findings.is_empty(), "{r:?}");
}

#[test]
fn silent_for_auth_endpoint_names() {
    let f1 = r#"
#[get("/login")]
async fn login() -> Result<(), ()> {
    let _ = login(); Ok(())
}
"#;
    let f2 = r#"
#[get("/who")]
async fn who_am_i() -> Result<(), ()> {
    let _ = login(); Ok(())
}
"#;
    let f3 = r#"
#[get("/x")]
async fn x() -> Result<(), ()> {
    let _ = login(); Ok(())
}
"#;
    let r = run(&[("a.rs", f1), ("b.rs", f2), ("c.rs", f3)]);
    assert!(r.findings.is_empty(), "{r:?}");
}
