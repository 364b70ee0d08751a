//! Checks inside `rsx!`.
use dioxus_lints::lints::check_rsx::{check_rsx, lint_single_file, requested_files, CheckRsxParams};
use dioxus_lints::scan::scan_source;

fn lint(src: &str) -> Vec<String> {
    lint_single_file(&scan_source("t.rs", src))
        .unwrap()
        .issues
        .into_iter()
        .map(|i| i.message)
        .collect()
}

#[test]
fn detects_missing_key_on_loop_child() {
    let issues = lint(
        r#"use dioxus::prelude::*;
fn t() {
    let _ = rsx! {
        ul {
            for x in vec![1, 2, 3] {
                li { "{x}" }
            }
        }
    };
}
"#,
    );
    assert!(
        issues.iter().any(|m| m.contains("missing a `key:")),
        "expected key warning, got {issues:?}"
    );
}

#[test]
fn no_warning_when_key_on_element_with_other_attrs() {
    let issues = lint(
        r#"use dioxus::prelude::*;
fn t() {
    let _ = rsx! {
        table {
            for p in vec![1] {
                tr { key: "{p}", class: "row",
                    td { "{p}" }
                }
            }
        }
    };
}
"#,
    );
    assert!(
        issues.iter().all(|m| !m.contains("missing a `key:")),
        "did not expect a key warning, got {issues:?}"
    );
}

#[test]
fn no_warning_when_for_iterates_via_method_call() {
    let issues = lint(
        r#"use dioxus::prelude::*;
fn t() {
    let xs: Vec<i32> = vec![];
    let _ = rsx! {
        ul {
            for x in xs.iter() {
                li { key: "{x}", "{x}" }
            }
        }
    };
}
"#,
    );
    assert!(
        issues.iter().all(|m| !m.contains("missing a `key:")),
        "did not expect a key warning, got {issues:?}"
    );
}

#[test]
fn no_warning_when_key_on_component_invocation() {
    let issues = lint(
        r#"use dioxus::prelude::*;
#[derive(Clone, PartialEq, Props)]
struct RowProps { id: i32 }
fn Row(props: RowProps) -> Element { rsx! {} }
fn t() {
    let _ = rsx! {
        for p in vec![1, 2] {
            Row { key: "{p}", id: p }
        }
    };
}
"#,
    );
    assert!(
        issues.iter().all(|m| !m.contains("missing a `key:")),
        "did not expect a key warning, got {issues:?}"
    );
}

#[test]
fn flags_empty_closure_on_element_event_handler() {
    let issues = lint(
        r#"use dioxus::prelude::*;
fn t() {
    let _ = rsx! {
        button { onclick: |_| {}, "noop" }
        button { onclick: || {}, "bad" }
    };
}
"#,
    );
    assert!(
        issues.iter().any(|m| m.contains("takes no parameters")),
        "expected onclick warning, got {issues:?}"
    );
}

#[test]
fn no_warning_for_zero_arg_closure_on_component_prop() {
    let issues = lint(
        r#"use dioxus::prelude::*;
#[derive(Clone, PartialEq, Props)]
struct DialogProps { onclose: EventHandler<()> }
#[component]
fn Dialog(props: DialogProps) -> Element { rsx! {} }
fn t() {
    let _ = rsx! {
        Dialog { onclose: move || {} }
    };
}
"#,
    );
    assert!(
        issues.iter().all(|m| !m.contains("takes no parameters")),
        "did not expect onclose warning on a component prop, got {issues:?}"
    );
}

#[test]
fn no_warning_when_key_on_component_with_shorthand_prop() {
    let issues = lint(
        r#"use dioxus::prelude::*;
#[derive(Clone, PartialEq, Props)]
struct RowProps { x: i32 }
fn Row(props: RowProps) -> Element { rsx! {} }
fn t() {
    let xs: Vec<i32> = vec![];
    let _ = rsx! {
        for x in xs {
            Row { key: "{x}", x }
        }
    };
}
"#,
    );
    assert!(
        issues.iter().all(|m| !m.contains("missing a `key:")),
        "did not expect a key warning, got {issues:?}"
    );
}

#[test]
fn no_warning_when_key_uses_field_access_interpolation() {
    let issues = lint(
        r#"use dioxus::prelude::*;
#[derive(Clone, PartialEq, Props)]
struct Item { id: i32 }
fn t() {
    let items: Vec<Item> = vec![];
    let _ = rsx! {
        ul {
            for item in items.iter() {
                li { key: "{item.id}", "{item.id}" }
            }
        }
    };
}
"#,
    );
    assert!(
        issues.iter().all(|m| !m.contains("missing a `key:")),
        "did not expect a key warning, got {issues:?}"
    );
}

#[test]
fn no_warning_when_key_wrapped_in_match_or_if() {
    let issues = lint(
        r#"use dioxus::prelude::*;
fn t() {
    let items: Vec<(i32, bool)> = vec![];
    let _ = rsx! {
        ul {
            for (id, show) in items {
                if show {
                    li { key: "{id}", "{id}" }
                }
            }
        }
    };
}
"#,
    );
    assert!(
        issues.iter().all(|m| !m.contains("missing a `key:")),
        "did not expect a key warning, got {issues:?}"
    );
}

#[test]
fn no_warning_when_key_on_component_with_tuple_destructure() {
    let issues = lint(
        r#"use dioxus::prelude::*;
#[derive(Clone, PartialEq, Props)]
struct RowProps { id: i32, label: String }
fn Row(props: RowProps) -> Element { rsx! {} }
fn t() {
    let items: Vec<(i32, String)> = vec![];
    let _ = rsx! {
        div {
            for (id, label) in items {
                Row { key: "{id}", id: id, label: label }
            }
        }
    };
}
"#,
    );
    assert!(
        issues.iter().all(|m| !m.contains("missing a `key:")),
        "did not expect a key warning, got {issues:?}"
    );
}

#[test]
fn no_warning_for_rust_for_loop_inside_event_handler_closure() {
    let issues = lint(
        r#"use dioxus::prelude::*;
fn t() {
    let _ = rsx! {
        button {
            onclick: move |_evt| {
                let items = vec![1, 2, 3];
                for x in items {
                    let _ = x;
                }
            },
            "click"
        }
    };
}
"#,
    );
    assert!(
        issues.iter().all(|m| !m.contains("missing a `key:")),
        "did not expect a key warning on a Rust for-loop inside a closure, got {issues:?}"
    );
}

#[test]
fn still_flags_missing_key_in_actual_rsx_loop() {
    let issues = lint(
        r#"use dioxus::prelude::*;
fn t() {
    let items: Vec<i32> = vec![];
    let _ = rsx! {
        ul {
            onclick: move |_evt| { let _ = 1; },
            for x in items {
                li { "{x}" }
            }
        }
    };
}
"#,
    );
    assert!(
        issues.iter().any(|m| m.contains("missing a `key:")),
        "expected key warning on the rsx for-loop, got {issues:?}"
    );
}

#[test]
fn flags_ambiguous_autofocus_on_input() {
    let issues = lint(
        r#"use dioxus::prelude::*;
fn t() {
    let _ = rsx! {
        input { autofocus: true, value: "" }
    };
}
"#,
    );
    assert!(
        issues
            .iter()
            .any(|m| m.contains("autofocus") && m.contains("E0034")),
        "expected E0034 ambiguity warning on autofocus, got {issues:?}"
    );
}

#[test]
fn flags_ambiguous_autofocus_on_button_textarea_select() {
    for elem in ["button", "textarea", "select"] {
        let src = format!(
            r#"use dioxus::prelude::*;
fn t() {{
    let _ = rsx! {{
        {elem} {{ autofocus: true }}
    }};
}}
"#
        );
        let issues = lint(&src);
        assert!(
            issues
                .iter()
                .any(|m| m.contains("autofocus") && m.contains("E0034")),
            "expected E0034 warning on {elem}.autofocus, got {issues:?}"
        );
    }
}

#[test]
fn does_not_flag_autofocus_on_non_form_element() {
    let issues = lint(
        r#"use dioxus::prelude::*;
fn t() {
    let _ = rsx! {
        div { autofocus: true, "x" }
    };
}
"#,
    );
    assert!(
        issues.iter().all(|m| !m.contains("E0034")),
        "did not expect ambiguity warning on div.autofocus, got {issues:?}"
    );
}

#[test]
fn does_not_flag_autofocus_when_using_explicit_attribute_syntax() {
    let issues = lint(
        r#"use dioxus::prelude::*;
fn t() {
    let _ = rsx! {
        input { "autofocus": "true", value: "" }
    };
}
"#,
    );
    assert!(
        issues.iter().all(|m| !m.contains("E0034")),
        "did not expect ambiguity warning on string-key autofocus, got {issues:?}"
    );
}

#[test]
fn does_not_flag_autofocus_on_component_invocation() {
    let issues = lint(
        r#"use dioxus::prelude::*;
#[derive(Clone, PartialEq, Props)]
struct InputProps { autofocus: bool }
fn Input(props: InputProps) -> Element { rsx! {} }
fn t() {
    let _ = rsx! {
        Input { autofocus: true }
    };
}
"#,
    );
    assert!(
        issues.iter().all(|m| !m.contains("E0034")),
        "did not expect ambiguity warning on a component invocation, got {issues:?}"
    );
}

const NO_KEY: &str = r#"use dioxus::prelude::*;
fn t() {
    let _ = rsx! { ul { for x in vec![1, 2, 3] { li { "{x}" } } } };
    let _ = rsx! { p { "fine" } };
}
"#;

fn request(file: Option<&str>, files: Option<&[&str]>) -> CheckRsxParams {
    CheckRsxParams {
        file: file.map(|f| f.to_string()),
        files: files.map(|v| v.iter().map(|f| f.to_string()).collect()),
        project_root: None,
    }
}

#[test]
fn several_files_are_merged() {
    let files = vec![
        scan_source("a.rs", NO_KEY),
        scan_source("b.rs", "fn t() {}"),
        scan_source("c.rs", NO_KEY),
    ];
    let r = check_rsx(&request(None, Some(&["a.rs", "b.rs", "c.rs"])), &files).unwrap();
    assert_eq!(r.file, None);
    assert_eq!(r.rsx_block_count, 4);
    assert_eq!(r.per_file.len(), 3);
    let named: Vec<Option<&str>> = r.issues.iter().map(|i| i.file.as_deref()).collect();
    assert_eq!(named, vec![Some("a.rs"), Some("c.rs")]);
    assert_eq!(r.checks_run.len(), 3);
}

#[test]
fn a_single_file_is_named() {
    let files = vec![scan_source("a.rs", NO_KEY)];
    let r = check_rsx(&request(Some("a.rs"), None), &files).unwrap();
    assert_eq!(r.file.as_deref(), Some("a.rs"));
    assert_eq!(r.rsx_block_count, 2);
    assert!(r.per_file.is_empty());
    assert_eq!(r.issues.len(), 1);
    assert_eq!(r.issues[0].file, None);
}

#[test]
fn paths_are_trimmed_and_blank_ones_dropped() {
    let p = request(Some(" a.rs "), Some(&["  ", "b.rs\n"]));
    assert_eq!(requested_files(&p).unwrap(), vec!["a.rs", "b.rs"]);
    let e = requested_files(&request(Some(" "), None)).unwrap_err();
    assert_eq!(e, "check_rsx: pass `file` (single path) or `files` (list of paths)");
}

#[test]
fn the_first_file_that_does_not_parse_is_the_error() {
    let files = vec![scan_source("a.rs", NO_KEY), scan_source("b.rs", "fn t( {")];
    let e = check_rsx(&request(None, Some(&["a.rs", "b.rs"])), &files).unwrap_err();
    assert!(e.starts_with("rust parse error in b.rs at line 1 col 6: "), "{e}");
}
