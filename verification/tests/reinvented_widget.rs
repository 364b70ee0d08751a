//! Elements that stand for catalog components.
use dioxus_lints::lints::reinvented_widget::{reinvented_widget, ReinventedFinding};
use dioxus_lints::scan::{scan_source, ScannedFile};

struct Project(Vec<ScannedFile>);

fn project() -> Project {
    Project(Vec::new())
}

impl Project {
    fn write(&mut self, path: &str, text: &str) {
        self.0.push(scan_source(path, text));
    }
}

/// The paths of the files that lie where the widget of the catalog is kept.
fn wrappers(p: &Project) -> Vec<String> {
    let paths = p.0.iter().map(|f| f.path.clone());
    paths.filter(|path| path.starts_with("src/components/drag_and_drop_list/")).collect()
}

fn scan(p: &Project) -> Vec<ReinventedFinding> {
    reinvented_widget(&p.0, &wrappers(p)).findings
}

#[test]
fn flags_dnd_triplet_in_user_component() {
    let mut dir = project();
    dir.write(
        "src/components/board.rs",
        r#"use dioxus::prelude::*;
#[component]
fn Board() -> Element {
    rsx! {
        div {
            ondragstart: move |_| {},
            ondragover: move |e| { e.prevent_default(); },
            ondrop: move |_| {},
        }
    }
}
"#,
    );
    let findings = scan(&dir);
    assert_eq!(findings.len(), 1);
    assert_eq!(findings[0].reinvented, "drag_and_drop_list");
    assert_eq!(findings[0].component, "Board");
    assert_eq!(findings[0].confidence, "high");
    assert!(findings[0].hint.contains("cross-list"));
}

#[test]
fn does_not_flag_draggable_only_partial() {
    let mut dir = project();
    dir.write(
        "src/components/card.rs",
        r#"use dioxus::prelude::*;
#[component]
fn Card() -> Element {
    rsx! {
        div {
            draggable: "true",
            ondragstart: move |_| {},
            ondragend: move |_| {},
        }
    }
}
"#,
    );
    assert!(scan(&dir).is_empty());
}

#[test]
fn flags_drop_target_only_pair_with_low_confidence() {
    let mut dir = project();
    dir.write(
        "src/components/column.rs",
        r#"use dioxus::prelude::*;
#[component]
fn Column() -> Element {
    rsx! {
        div {
            ondragover: move |e| { e.prevent_default(); },
            ondrop: move |_| {},
        }
    }
}
"#,
    );
    let findings = scan(&dir);
    assert_eq!(findings.len(), 1, "expected one finding: {findings:?}");
    assert_eq!(findings[0].confidence, "low");
    assert!(
        findings[0].hint.contains("drop-target"),
        "hint should call out the drop-target shape: {}",
        findings[0].hint
    );
}

#[test]
fn does_not_flag_dragover_alone() {
    let mut dir = project();
    dir.write(
        "src/components/zone.rs",
        r#"use dioxus::prelude::*;
#[component]
fn Zone() -> Element {
    rsx! {
        div {
            ondragover: move |e| { e.prevent_default(); },
        }
    }
}
"#,
    );
    assert!(scan(&dir).is_empty());
}

#[test]
fn flags_bare_select_with_catalog_equivalent() {
    let mut dir = project();
    dir.write(
        "src/board_screen.rs",
        r#"use dioxus::prelude::*;
#[component]
fn BoardScreen() -> Element {
    rsx! {
        form {
            select {
                option { "todo" }
                option { "doing" }
            }
        }
    }
}
"#,
    );
    let findings = scan(&dir);
    let select_finding = findings
        .iter()
        .find(|f| f.reinvented == "select")
        .expect("bare <select> should be flagged");
    assert_eq!(select_finding.component, "BoardScreen");
    assert_eq!(select_finding.confidence, "low");
    assert!(
        select_finding.hint.contains("dx components add select"),
        "hint should suggest the catalog install command: {}",
        select_finding.hint,
    );
}

#[test]
fn text_inputs_get_medium_confidence() {
    for input_type in ["text", "email", "password", "search"] {
        let mut dir = project();
        dir.write(
        "src/form.rs",
            &format!(
                r#"use dioxus::prelude::*;
#[component]
fn Form() -> Element {{
    rsx! {{
        input {{
            r#type: "{input_type}",
            placeholder: "...",
            value: "",
        }}
    }}
}}
"#,
            ),
        );
        let findings = scan(&dir);
        let f = findings
            .iter()
            .find(|f| f.reinvented == "input")
            .unwrap_or_else(|| {
                panic!("expected an input finding for type={input_type}: {findings:?}")
            });
        assert_eq!(
            f.confidence, "medium",
            "type={input_type:?} should be medium-confidence: {findings:?}",
        );
    }
}

#[test]
fn specialised_inputs_stay_low_confidence() {
    for input_type in ["file", "range", "color", "date"] {
        let mut dir = project();
        dir.write(
        "src/form.rs",
            &format!(
                r#"use dioxus::prelude::*;
#[component]
fn Form() -> Element {{
    rsx! {{
        input {{
            r#type: "{input_type}",
        }}
    }}
}}
"#,
            ),
        );
        let findings = scan(&dir);
        let f = findings
            .iter()
            .find(|f| f.reinvented == "input")
            .expect("should flag");
        assert_eq!(
            f.confidence, "low",
            "type={input_type:?} should stay low: {findings:?}",
        );
    }
}

#[test]
fn does_not_flag_pascal_case_catalog_components() {
    let mut dir = project();
    dir.write(
        "src/board_screen.rs",
        r#"use dioxus::prelude::*;
#[component]
fn BoardScreen() -> Element {
    rsx! {
        Select {
            value: "todo",
        }
    }
}
"#,
    );
    assert!(
        scan(&dir).is_empty(),
        "PascalCase Select must not trigger the lowercase-DOM lint"
    );
}

#[test]
fn dedupes_multiple_bare_selects_in_one_component() {
    let mut dir = project();
    dir.write(
        "src/board_screen.rs",
        r#"use dioxus::prelude::*;
#[component]
fn BoardScreen() -> Element {
    rsx! {
        select {}
        select {}
        select {}
    }
}
"#,
    );
    let findings = scan(&dir);
    let select_findings: Vec<&ReinventedFinding> = findings
        .iter()
        .filter(|f| f.reinvented == "select")
        .collect();
    assert_eq!(
        select_findings.len(),
        1,
        "three occurrences must dedupe to one finding: {findings:?}"
    );
}

#[test]
fn skips_catalog_wrappers() {
    let mut dir = project();
    dir.write(
        "src/components/drag_and_drop_list/component.rs",
        r#"use dioxus::prelude::*;
#[component]
pub fn DragAndDropList() -> Element {
    rsx! {
        div {
            ondragstart: move |_| {},
            ondragover: move |e| { e.prevent_default(); },
            ondrop: move |_| {},
        }
    }
}
"#,
    );
    assert!(
        scan(&dir).is_empty(),
        "catalog wrapper should be skipped"
    );
}
