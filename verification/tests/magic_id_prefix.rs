//! Identifiers with a meaning in their prefix.
use dioxus_lints::lints::magic_id_prefix::{
    magic_id_prefix_for_optimistic, MagicIdFinding, MagicIdPrefixReport,
};
use dioxus_lints::scan::{scan_source, ScannedFile};

fn project(text: &str) -> Vec<ScannedFile> {
    vec![scan_source("src/a.rs", text)]
}

fn run(src: &str) -> MagicIdPrefixReport {
    magic_id_prefix_for_optimistic(&project(src))
}

#[test]
fn flags_starts_with_on_id_field() {
    let r = run(r#"fn is_pending(card: &Card) -> bool {
    card.id.starts_with("tmp-")
}
"#);
    let read_hits: Vec<&MagicIdFinding> =
        r.findings.iter().filter(|f| f.kind == "read").collect();
    assert_eq!(read_hits.len(), 1, "expected one read hit: {r:?}");
    assert_eq!(read_hits[0].placeholder, "tmp-");
    assert_eq!(
        read_hits[0].severity, "warning",
        "read side is a correctness bug, not info-level smell",
    );
}

#[test]
fn flags_format_macro_with_placeholder_prefix() {
    let r = run(r#"fn forge(id: &str) -> String {
    format!("tmp-{}", id)
}
"#);
    let write_hits: Vec<&MagicIdFinding> =
        r.findings.iter().filter(|f| f.kind == "write").collect();
    assert_eq!(write_hits.len(), 1, "expected one write hit: {r:?}");
    assert_eq!(write_hits[0].placeholder, "tmp-");
    assert_eq!(
        write_hits[0].severity, "info",
        "write side stays info — stylistic, not correctness",
    );
}

#[test]
fn silent_when_receiver_is_not_id() {
    let r = run(r#"fn ok(s: &str) -> bool {
    s.starts_with("tmp-")
}
"#);
    assert!(r.findings.is_empty(), "non-id receiver: {r:?}");
}

#[test]
fn silent_when_prefix_is_not_a_placeholder() {
    let r = run(r#"fn ok(card: &Card) -> bool {
    card.id.starts_with("user-")
}
"#);
    assert!(r.findings.is_empty(), "non-placeholder prefix: {r:?}");
}

#[test]
fn flags_pending_and_local_prefixes_too() {
    let r = run(r#"fn a(c: &Card) -> bool { c.id.starts_with("pending-") }
fn b(c: &Card) -> bool { c.id.starts_with("local-") }
"#);
    let placeholders: Vec<&str> = r.findings.iter().map(|f| f.placeholder.as_str()).collect();
    assert!(placeholders.contains(&"pending-"));
    assert!(placeholders.contains(&"local-"));
}
