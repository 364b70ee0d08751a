//! Helpers that client and server both hold.
use dioxus_lints::lints::duplicate_helper_client_server::{
    duplicate_helper_client_server, DuplicateHelperReport,
};
use dioxus_lints::scan::{scan_source, ScannedFile};

fn project(files: &[(&str, &str)]) -> Vec<ScannedFile> {
    files.iter().map(|(path, text)| scan_source(&format!("src/{path}"), text)).collect()
}

fn run(files: &[(&str, &str)]) -> DuplicateHelperReport {
    duplicate_helper_client_server(&project(files), "src/components", "src/server")
}

#[test]
fn flags_identical_body_across_components_and_server() {
    let body = r#"
fn normalize_positions(board: &mut Vec<Card>) {
    let n = board.len();
    for i in 0..n {
        board[i].position = i as i32;
    }
}
"#;
    let r = run(&[("components/board.rs", body), ("server/state.rs", body)]);
    assert_eq!(r.findings.len(), 1, "expected one finding: {r:?}");
    assert_eq!(r.findings[0].fn_name, "normalize_positions");
    assert_eq!(r.findings[0].sites.len(), 2);
    let sides: Vec<&str> = r.findings[0].sites.iter().map(|s| s.side).collect();
    assert!(sides.contains(&"client"));
    assert!(sides.contains(&"server"));
}

#[test]
fn silent_when_bodies_diverge() {
    let r = run(&[
        (
            "components/board.rs",
            r#"fn shuffle(list: &mut Vec<i32>) {
    list.sort();
    list.reverse();
}"#,
        ),
        (
            "server/state.rs",
            r#"fn shuffle(list: &mut Vec<i32>) {
    list.sort();
}"#,
        ),
    ]);
    assert!(r.findings.is_empty(), "different bodies: {r:?}");
}

#[test]
fn silent_when_both_sites_on_one_side() {
    let body = r#"
fn helper(x: i32) -> i32 {
    let y = x * 2;
    y + 1
}
"#;
    let r = run(&[("components/a.rs", body), ("components/b.rs", body)]);
    assert!(r.findings.is_empty(), "both client-side: {r:?}");
}

#[test]
fn flags_when_only_param_name_differs() {
    let client = r#"
fn normalize_positions(list: &mut Vec<Card>) {
    for col in ["todo", "doing", "done"] {
        let mut idxs: Vec<usize> = list
            .iter()
            .enumerate()
            .filter(|(_, c)| c.column == col)
            .map(|(i, _)| i)
            .collect();
        idxs.sort_by_key(|i| list[*i].position);
        for (rank, i) in idxs.into_iter().enumerate() {
            list[i].position = rank as i32;
        }
    }
}
"#;
    let server = r#"
pub fn normalize_positions(board: &mut Vec<Card>) {
    for col in ["todo", "doing", "done"] {
        let mut idxs: Vec<usize> = board
            .iter()
            .enumerate()
            .filter(|(_, c)| c.column == col)
            .map(|(i, _)| i)
            .collect();
        idxs.sort_by_key(|i| board[*i].position);
        for (rank, i) in idxs.into_iter().enumerate() {
            board[i].position = rank as i32;
        }
    }
}
"#;
    let r = run(&[("components/board.rs", client), ("server/state.rs", server)]);
    assert_eq!(r.findings.len(), 1, "expected one finding: {r:?}");
    assert_eq!(r.findings[0].fn_name, "normalize_positions");
}

#[test]
fn silent_when_param_types_differ() {
    let client = r#"
fn shuffle(list: &mut Vec<Card>) {
    list.sort_by_key(|c| c.position);
    list.reverse();
    list.truncate(10);
}
"#;
    let server = r#"
fn shuffle(list: &mut Vec<Note>) {
    list.sort_by_key(|c| c.position);
    list.reverse();
    list.truncate(10);
}
"#;
    let r = run(&[("components/board.rs", client), ("server/state.rs", server)]);
    assert!(
        r.findings.is_empty(),
        "param type mismatch should stay silent: {r:?}"
    );
}

#[test]
fn ignores_async_fns() {
    let body = r#"
async fn shared(x: i32) -> Result<i32, ()> {
    let y = x * 2;
    Ok(y)
}
"#;
    let r = run(&[("components/a.rs", body), ("server/b.rs", body)]);
    assert!(r.findings.is_empty(), "async excluded: {r:?}");
}
