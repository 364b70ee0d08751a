//! Owned collections handed to components.
use dioxus_lints::lints::vec_or_owned_prop_passthrough::{vec_or_owned_prop_passthrough, VecOrOwnedPropReport};
use dioxus_lints::scan::{scan_source, ScannedFile};

fn project(files: &[(&str, &str)]) -> Vec<ScannedFile> {
    files.iter().map(|(path, text)| scan_source(&format!("src/{path}"), text)).collect()
}

fn run(files: &[(&str, &str)]) -> VecOrOwnedPropReport {
    vec_or_owned_prop_passthrough(&project(files))
}

#[test]
fn flags_vec_with_reactive_parent_as_medium() {
    let r = run(&[(
        "board.rs",
        r#"use dioxus::prelude::*;
#[component]
fn BoardBody() -> Element {
    let mut cards = use_signal(Vec::<Card>::new);
    let on_add = move |_| {
        cards.with_mut(|c| c.push(Card::default()));
    };
    let c = cards.read().clone();
    rsx! { Column { cards: c } }
}

#[component]
fn Column(cards: Vec<Card>) -> Element { rsx! { div {} } }
"#,
    )]);
    let f = r
        .findings
        .iter()
        .find(|f| f.component == "Column" && f.arg_name == "cards")
        .expect("Column.cards must surface");
    assert_eq!(f.confidence, "medium");
    assert_eq!(f.reactive_callers, vec!["BoardBody".to_string()]);
}

#[test]
fn no_reactive_parent_lands_at_low_confidence() {
    let r = run(&[(
        "lone.rs",
        r#"use dioxus::prelude::*;
#[component]
fn Lone(cards: Vec<i32>) -> Element { rsx! { div {} } }
"#,
    )]);
    let f = r
        .findings
        .iter()
        .find(|f| f.component == "Lone")
        .expect("Lone.cards must surface");
    assert_eq!(f.confidence, "low");
    assert!(f.reactive_callers.is_empty());
}

#[test]
fn does_not_flag_signal_family_props() {
    let r = run(&[(
        "ok.rs",
        r#"use dioxus::prelude::*;
#[component]
fn Ok(
    items: ReadOnlySignal<Vec<i32>>,
    cards: Signal<Vec<String>>,
    on_pick: EventHandler<String>,
) -> Element { rsx! { div {} } }
"#,
    )]);
    assert!(
        r.findings.is_empty(),
        "must not flag signal wrappers: {r:?}"
    );
}

#[test]
fn does_not_flag_string_prop() {
    let r = run(&[(
        "s.rs",
        r#"use dioxus::prelude::*;
#[component]
fn Tag(name: String) -> Element { rsx! { div {} } }
"#,
    )]);
    assert!(r.findings.is_empty(), "String is on the skip list: {r:?}");
}
