//! Literals that client and server both list.
use dioxus_lints::lints::shared_enum_validation::{shared_enum_validation, SharedEnumReport};
use dioxus_lints::scan::{scan_source, ScannedFile};

fn project(files: &[(&str, &str)]) -> Vec<ScannedFile> {
    files.iter().map(|(path, text)| scan_source(&format!("src/{path}"), text)).collect()
}

fn run(files: &[(&str, &str)]) -> SharedEnumReport {
    shared_enum_validation(&project(files), "src/components")
}

#[test]
fn flags_columns_const_paired_with_server_match() {
    let r = run(&[
        (
            "components/board.rs",
            r#"const COLUMNS: [(&str, &str); 3] =
    [("todo", "Todo"), ("doing", "Doing"), ("done", "Done")];
"#,
        ),
        (
            "server/move_card.rs",
            r#"#[post("/api/move")]
async fn move_card(column: String) -> Result<(), ServerFnError> {
    match column.as_str() {
        "todo" | "doing" | "done" => Ok(()),
        _ => Err(ServerFnError::ServerError("bad col".into())),
    }
}
"#,
        ),
    ]);
    assert_eq!(r.findings.len(), 1, "expected one finding: {r:?}");
    let f = &r.findings[0];
    assert_eq!(f.values, vec!["doing", "done", "todo"]);
    assert!(!f.client_sites.is_empty());
    assert!(!f.server_sites.is_empty());
}

#[test]
fn silent_when_server_match_has_no_client_const() {
    let r = run(&[(
        "server/x.rs",
        r#"#[post("/api/x")]
async fn x(s: String) -> Result<(), ServerFnError> {
    match s.as_str() {
        "a" | "b" => Ok(()),
        _ => Err(ServerFnError::ServerError("".into())),
    }
}
"#,
    )]);
    assert!(r.findings.is_empty(), "server-only set: {r:?}");
}

#[test]
fn silent_when_sets_do_not_match_exactly() {
    let r = run(&[
        (
            "components/board.rs",
            r#"const COLUMNS: [(&str, &str); 3] =
    [("todo", "Todo"), ("doing", "Doing"), ("done", "Done")];
"#,
        ),
        (
            "server/mismatch.rs",
            r#"#[post("/api/mismatch")]
async fn m(s: String) -> Result<(), ServerFnError> {
    match s.as_str() {
        "todo" | "doing" => Ok(()),
        _ => Err(ServerFnError::ServerError("".into())),
    }
}
"#,
        ),
    ]);
    assert!(r.findings.is_empty(), "subset shouldn't match: {r:?}");
}
