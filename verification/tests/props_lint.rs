//! Props that cannot be compared.
use dioxus_lints::lints::props_lint::{collect_partial_eq_types, props_lint, PropsIssue};
use dioxus_lints::scan::{scan_source, ScannedFile};

fn project(files: &[(&str, &str)]) -> Vec<ScannedFile> {
    files.iter().map(|(path, text)| scan_source(&format!("src/{path}"), text)).collect()
}

fn scan(files: &[(&str, &str)]) -> Vec<PropsIssue> {
    let issues = props_lint(&project(files)).issues;
    issues.into_iter().filter(|i| i.code == "missing_partial_eq_on_prop_type").collect()
}

#[test]
fn silent_when_user_type_derives_partial_eq() {
    let issues = scan(&[
        (
            "model.rs",
            r#"#[derive(Clone, PartialEq)]
pub struct Card { pub id: String, pub title: String }
"#,
        ),
        (
            "board.rs",
            r#"use dioxus::prelude::*;
#[component]
fn Column(
    id: String,
    cards: Vec<Card>,
    dragging: Signal<Option<String>>,
    on_move: EventHandler<(String, String, i32)>,
) -> Element {
    rsx! { div {} }
}
"#,
        ),
    ]);
    assert!(issues.is_empty(), "must stay silent: {issues:?}");
}

#[test]
fn flags_unmemoizable_user_type_in_inline_arg() {
    let issues = scan(&[
        (
            "model.rs",
            r#"#[derive(Clone)]
pub struct Card { pub id: String }
"#,
        ),
        (
            "board.rs",
            r#"use dioxus::prelude::*;
#[component]
fn Column(
    id: String,
    cards: Vec<Card>,
    dragging: Signal<Option<String>>,
    on_move: EventHandler<String>,
) -> Element {
    rsx! { div {} }
}
"#,
        ),
    ]);
    assert_eq!(issues.len(), 1, "expected one finding: {issues:?}");
    assert_eq!(issues[0].struct_name, "Column::cards");
    assert_eq!(issues[0].code, "missing_partial_eq_on_prop_type");
}

#[test]
fn impl_partial_eq_for_satisfies_check() {
    let issues = scan(&[
        (
            "model.rs",
            r#"pub struct Card { pub id: String }
impl PartialEq for Card {
    fn eq(&self, other: &Self) -> bool { self.id == other.id }
}
"#,
        ),
        (
            "board.rs",
            r#"use dioxus::prelude::*;
#[component]
fn Column(cards: Vec<Card>) -> Element { rsx! { div {} } }
"#,
        ),
    ]);
    assert!(issues.is_empty(), "manual impl counts: {issues:?}");
}

#[test]
fn struct_derive_props_without_partial_eq_still_fires() {
    let issues = scan(&[(
        "props.rs",
        r#"#[derive(Props, Clone)]
pub struct Foo { pub n: i32 }
"#,
    )]);
    let scanned = project(&[(
        "p.rs",
        r#"#[derive(Props, Clone)]
pub struct Foo { pub n: i32 }
"#,
    )]);
    let known = collect_partial_eq_types(&scanned);
    assert!(
        !known.iter().any(|k| k == "Foo"),
        "Foo must NOT be marked PartialEq-known"
    );
    assert!(issues.is_empty());
    assert_eq!(props_lint(&scanned).issues[0].code, "props_missing_partial_eq");
}
