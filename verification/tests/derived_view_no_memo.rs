//! Views derived anew at each render.
use dioxus_lints::lints::derived_view_no_memo::{derived_view_no_memo, DerivedViewReport};
use dioxus_lints::scan::{scan_source, ScannedFile};

fn project(text: &str) -> Vec<ScannedFile> {
    vec![scan_source("src/lib.rs", text)]
}

fn run(content: &str) -> DerivedViewReport {
    derived_view_no_memo(&project(content))
}

#[test]
fn flags_iter03_column_cards_shape() {
    let r = run(r#"
fn column_cards(all: &[Card], col: &str) -> Vec<Card> {
    all.iter().filter(|c| c.column == col).cloned().collect()
}
#[component]
fn BoardBody() -> Element {
    let cards = use_signal(Vec::<Card>::new);
    rsx! {
        Column { cards: column_cards(&cards.read(), "todo") }
        Column { cards: column_cards(&cards.read(), "doing") }
        Column { cards: column_cards(&cards.read(), "done") }
    }
}
"#);
    assert_eq!(r.findings.len(), 1, "{r:?}");
    assert_eq!(r.findings[0].callee, "column_cards");
    assert_eq!(r.findings[0].calls_in_rsx_block, 3);
}

#[test]
fn silent_when_wrapped_in_use_memo() {
    let r = run(r#"
fn column_cards(all: &[Card], col: &str) -> Vec<Card> {
    all.iter().filter(|c| c.column == col).cloned().collect()
}
#[component]
fn BoardBody() -> Element {
    let cards = use_signal(Vec::<Card>::new);
    rsx! {
        Column { cards: use_memo(move || column_cards(&cards.read(), "todo"))() }
    }
}
"#);
    assert!(r.findings.is_empty(), "{r:?}");
}

#[test]
fn silent_when_arg_is_not_slice_ref() {
    let r = run(r#"
fn column_cards(all: Vec<Card>, col: &str) -> Vec<Card> {
    all.into_iter().filter(|c| c.column == col).collect()
}
#[component]
fn BoardBody() -> Element {
    rsx! { Column { cards: column_cards(vec![], "todo") } }
}
"#);
    assert!(r.findings.is_empty(), "{r:?}");
}

#[test]
fn silent_when_call_is_outside_rsx() {
    let r = run(r#"
fn column_cards(all: &[Card], col: &str) -> Vec<Card> { Vec::new() }
#[component]
fn BoardBody() -> Element {
    let cards = use_signal(Vec::<Card>::new);
    let _ = column_cards(&cards.read(), "todo");
    rsx! { div {} }
}
"#);
    assert!(r.findings.is_empty(), "{r:?}");
}
