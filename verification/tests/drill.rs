//! Props and signals that are handed on.
use dioxus_lints::index::{ComponentInfo, PropInfo};
use dioxus_lints::lints::signal_drilled_2_levels::signal_drilled_2_levels;
use dioxus_lints::prop_drill::{prop_drill, ParentEntry, Passthrough};
use dioxus_lints::scan::scan_source;

fn component(name: &str, props: &[(&str, &str)]) -> ComponentInfo {
    ComponentInfo {
        name: name.to_string(),
        props: props
            .iter()
            .map(|(n, t)| PropInfo { name: n.to_string(), ty: t.to_string() })
            .collect(),
        via_props_struct: false,
    }
}

const SOURCE: &str = r#"use dioxus::prelude::*;
#[component]
fn Page(user: String, theme: String) -> Element {
    rsx! {
        Header { user: user.clone(), title: "x" }
        Footer { theme }
    }
}
#[component]
fn Header(user: String, title: String) -> Element { rsx! { "{user}" } }
#[component]
fn Footer(theme: String) -> Element { rsx! { "{theme}" } }
"#;

#[test]
fn props_handed_on_unchanged_are_found() {
    let cs = vec![
        component("Page", &[("user", "String"), ("theme", "String")]),
        component("Header", &[("user", "String"), ("title", "String")]),
        component("Footer", &[("theme", "String")]),
    ];
    let r = prop_drill(&vec![scan_source("src/page.rs", SOURCE)], &cs);
    assert_eq!(r.parents.len(), 1, "{r:?}");
    assert_eq!(r.parents[0].component, "Page");
    let passed: Vec<(&str, &str, &str, &str)> = r.parents[0]
        .passthroughs
        .iter()
        .map(|p| (p.parent_prop.as_str(), p.child.as_str(), p.child_prop.as_str(), p.via))
        .collect();
    assert_eq!(
        passed,
        vec![("user", "Header", "user", "clone"), ("theme", "Footer", "theme", "direct")]
    );
}

fn passes(component: &str, file: &str, prop: &str, child: &str) -> ParentEntry {
    ParentEntry {
        component: component.to_string(),
        file: file.to_string(),
        passthroughs: vec![Passthrough {
            parent_prop: prop.to_string(),
            child: child.to_string(),
            child_prop: prop.to_string(),
            via: "direct",
            line: 7,
        }],
    }
}

#[test]
fn a_signal_through_two_components_is_found() {
    let cs = vec![
        component("A", &[("s", "Signal<u32>")]),
        component("B", &[("s", "Signal<u32>")]),
        component("C", &[("s", "Signal<u32>")]),
    ];
    let parents = vec![passes("A", "a.rs", "s", "B"), passes("B", "b.rs", "s", "C")];
    let r = signal_drilled_2_levels(&cs, &parents, Vec::new());
    assert_eq!(r.findings.len(), 1, "{r:?}");
    assert_eq!(r.findings[0].chain, vec!["A", "B", "C"]);
    assert_eq!(r.findings[0].root_component, "A");
    assert_eq!(r.findings[0].root_prop, "s");
    assert_eq!((r.findings[0].file.as_str(), r.findings[0].line), ("a.rs", 7));
}

#[test]
fn a_plain_value_or_one_step_is_no_drilling() {
    let plain = vec![
        component("A", &[("s", "String")]),
        component("B", &[("s", "String")]),
        component("C", &[("s", "String")]),
    ];
    let parents = vec![passes("A", "a.rs", "s", "B"), passes("B", "b.rs", "s", "C")];
    assert!(signal_drilled_2_levels(&plain, &parents, Vec::new()).findings.is_empty());
    let cs = vec![component("A", &[("s", "Signal<u32>")]), component("B", &[("s", "Signal<u32>")])];
    let parents = vec![passes("A", "a.rs", "s", "B")];
    assert!(signal_drilled_2_levels(&cs, &parents, Vec::new()).findings.is_empty());
}
