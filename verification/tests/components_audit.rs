//! Class names that stand for catalog components.
use dioxus_lints::lints::components_audit::{components_audit, ComponentsAuditFinding, CLASS_TO_CATALOG};
use dioxus_lints::scan::{scan_source, ScannedFile};
use std::collections::BTreeSet;

struct Project(Vec<ScannedFile>);

fn project() -> Project {
    Project(Vec::new())
}

impl Project {
    fn write(&mut self, path: &str, text: &str) {
        self.0.push(scan_source(path, text));
    }
}

/// The paths of the files that lie where the widget of the catalog is kept.
fn wrappers(p: &Project) -> Vec<String> {
    let paths = p.0.iter().map(|f| f.path.clone());
    paths.filter(|path| path.starts_with("src/components/dialog/")).collect()
}

fn scan(p: &Project) -> Vec<ComponentsAuditFinding> {
    components_audit(&p.0, &wrappers(p)).findings
}

#[test]
fn flags_class_modal_as_dialog() {
    let mut dir = project();
    dir.write(
        "src/screens/login.rs",
        r#"use dioxus::prelude::*;
#[component]
fn Login() -> Element {
    rsx! {
        div { class: "modal",
            "Are you sure?"
        }
    }
}
"#,
    );
    let findings = scan(&dir);
    assert_eq!(findings.len(), 1, "{findings:?}");
    assert_eq!(findings[0].reinvented, "dialog");
    assert_eq!(findings[0].component, "Login");
    assert_eq!(findings[0].confidence, "low");
    assert_eq!(findings[0].matched_class, "modal");
    assert!(findings[0].hint.contains("dx components add dialog"));
}

#[test]
fn flags_class_tabs_as_tabs() {
    let mut dir = project();
    dir.write(
        "src/screens/dashboard.rs",
        r#"use dioxus::prelude::*;
#[component]
fn Dashboard() -> Element {
    rsx! {
        div { class: "tabs",
            button { "One" }
            button { "Two" }
        }
    }
}
"#,
    );
    let findings = scan(&dir);
    let tabs = findings
        .iter()
        .find(|f| f.reinvented == "tabs")
        .expect("expected tabs finding");
    assert_eq!(tabs.component, "Dashboard");
    assert_eq!(tabs.matched_class, "tabs");
}

#[test]
fn flags_class_accordion_as_accordion() {
    let mut dir = project();
    dir.write(
        "src/faq.rs",
        r#"use dioxus::prelude::*;
#[component]
fn Faq() -> Element {
    rsx! {
        section { class: "accordion-panel",
            "Question?"
        }
    }
}
"#,
    );
    assert!(
        scan(&dir).is_empty(),
        "single hyphenated multi-word class should not match a bare keyword token"
    );

    let mut dir2 = project();
    dir2.write(
        "src/faq.rs",
        r#"use dioxus::prelude::*;
#[component]
fn Faq() -> Element {
    rsx! {
        section { class: "accordion",
            "Question?"
        }
    }
}
"#,
    );
    let findings = scan(&dir2);
    let a = findings
        .iter()
        .find(|f| f.reinvented == "accordion")
        .expect("expected accordion finding");
    assert_eq!(a.component, "Faq");
}

#[test]
fn flags_multiclass_string() {
    let mut dir = project();
    dir.write(
        "src/widgets.rs",
        r#"use dioxus::prelude::*;
#[component]
fn Widget() -> Element {
    rsx! {
        div { class: "container modal large",
            "Hello"
        }
    }
}
"#,
    );
    let findings = scan(&dir);
    assert_eq!(findings.len(), 1);
    assert_eq!(findings[0].reinvented, "dialog");
    assert_eq!(findings[0].matched_class, "container modal large");
}

#[test]
fn dedupes_repeated_class_in_one_component() {
    let mut dir = project();
    dir.write(
        "src/widgets.rs",
        r#"use dioxus::prelude::*;
#[component]
fn Widget() -> Element {
    rsx! {
        div { class: "modal", "one" }
        div { class: "modal", "two" }
        div { class: "modal", "three" }
    }
}
"#,
    );
    let findings = scan(&dir);
    let modal_hits: Vec<&ComponentsAuditFinding> = findings
        .iter()
        .filter(|f| f.reinvented == "dialog")
        .collect();
    assert_eq!(
        modal_hits.len(),
        1,
        "three class=\"modal\" divs must dedupe to one finding: {findings:?}"
    );
}

#[test]
fn skips_catalog_wrapper_files() {
    let mut dir = project();
    dir.write(
        "src/components/dialog/component.rs",
        r#"use dioxus::prelude::*;
#[component]
pub fn Dialog() -> Element {
    rsx! {
        div { class: "modal",
            "wrapper internals"
        }
    }
}
"#,
    );
    assert!(
        scan(&dir).is_empty(),
        "catalog wrapper should be skipped"
    );
}

#[test]
fn ignores_unrelated_classnames() {
    let mut dir = project();
    dir.write(
        "src/widgets.rs",
        r#"use dioxus::prelude::*;
#[component]
fn Widget() -> Element {
    rsx! {
        nav { class: "navbar", "n" }
        div { class: "card",
            div { class: "container",
                button { class: "primary", "Click" }
            }
        }
    }
}
"#,
    );
    assert!(
        scan(&dir).is_empty(),
        "classes like navbar/card/container/primary must not fire"
    );
}

#[test]
fn ignores_pascal_case_catalog_components() {
    let mut dir = project();
    dir.write(
        "src/screens/foo.rs",
        r#"use dioxus::prelude::*;
#[component]
fn Foo() -> Element {
    rsx! {
        div { class: "wrapper",
            Dialog { open: true }
        }
    }
}
"#,
    );
    assert!(scan(&dir).is_empty());
}

#[test]
fn catalog_table_entries_exist_in_catalog() {
    let names = [
        "accordion", "avatar", "badge", "calendar", "date_picker", "dialog", "dropdown_menu", "pagination",
        "popover", "progress", "sheet", "sidebar", "tabs", "toast", "tooltip",
    ];
    let catalog: BTreeSet<&str> = names.into_iter().collect();
    for (cls, name) in CLASS_TO_CATALOG {
        assert!(
            catalog.contains(name),
            "class→catalog mapping points at {name:?} (from class token {cls:?}) but no \
             such widget exists in DX_COMPONENT_CATALOG_ENTRIES"
        );
    }
}
