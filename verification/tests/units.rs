//! Single functions of the lints.
use dioxus_lints::lints::insecure_set_cookie::classify;
use dioxus_lints::lints::presence_map_unbounded::is_lazy_mutex_hashmap;
use dioxus_lints::lints::signal_drilled_2_levels::{build_fix_snippet, is_signal_type};
use dioxus_lints::lints::signal_lint::links::link_related_findings;
use dioxus_lints::lints::signal_lint::report::SignalIssue;
use dioxus_lints::text::tighten_type;

#[test]
fn classify_missing_secure_is_warning() {
    let result = classify("sid=abc; Path=/; HttpOnly; SameSite=Lax; Max-Age=86400");
    assert_eq!(result, Some("warning"));
}

#[test]
fn classify_samesite_none_without_secure_is_error() {
    let result = classify("sid=abc; Path=/; SameSite=None");
    assert_eq!(result, Some("error"));
}

#[test]
fn classify_with_secure_is_clean() {
    let result = classify("sid=abc; Path=/; HttpOnly; SameSite=Lax; Secure; Max-Age=86400");
    assert_eq!(result, None);
}

#[test]
fn classify_non_cookie_string_is_ignored() {
    assert_eq!(classify("login failed"), None);
    assert_eq!(classify("hello; world"), None);
}

#[test]
fn classify_secure_case_insensitive() {
    let result = classify("sid=x; Path=/; HttpOnly; secure");
    assert_eq!(result, None, "lowercase secure should still count");
}

#[test]
fn classify_samesite_none_case_insensitive() {
    let result = classify("sid=x; samesite=none");
    assert_eq!(result, Some("error"));
}

#[test]
fn is_lazy_mutex_hashmap_recognises_canonical_shapes() {
    assert!(is_lazy_mutex_hashmap("Lazy<Mutex<HashMap<String, (Instant, String)>>>"));
    assert!(is_lazy_mutex_hashmap("once_cell::sync::Lazy<Mutex<HashMap<u32, Session>>>"));
    assert!(is_lazy_mutex_hashmap("Lazy<RwLock<HashMap<String, String>>>"));
    assert!(!is_lazy_mutex_hashmap("Lazy<Mutex<Vec<String>>>"));
    assert!(!is_lazy_mutex_hashmap("Mutex<HashMap<u32, u32>>"));
}

#[test]
fn is_signal_type_recognises_common_shapes() {
    assert!(is_signal_type("Signal<Option<String>>"));
    assert!(is_signal_type("Signal < Option < String > >"));
    assert!(is_signal_type("ReadSignal<u32>"));
    assert!(is_signal_type("WriteSignal<bool>"));
    assert!(!is_signal_type("String"));
    assert!(!is_signal_type("Callback<()>"));
    assert!(!is_signal_type("Option<String>"), "plain Option must not match");
}

#[test]
fn build_fix_snippet_names_signal_type_and_consumers() {
    let snippet = build_fix_snippet(
        "BoardBody",
        "dragging",
        "Signal<Option<String>>",
        &vec!["BoardBody".into(), "Column".into(), "CardItem".into()],
    );
    assert!(snippet.contains("use_context_provider(|| dragging)"));
    assert!(snippet.contains("use_context::<Signal<Option<String>>>"));
    assert!(snippet.contains("Column, CardItem"));
}

fn issue(code: &'static str, component: &str, signal: Option<&str>) -> SignalIssue {
    SignalIssue {
        code,
        message: String::new(),
        file: String::new(),
        line: 1,
        component: Some(component.to_string()),
        signal: signal.map(|s| s.to_string()),
        related_codes: Vec::new(),
        fix: None,
    }
}

#[test]
fn pairs_signal_many_writers_with_signal_used_as_fence() {
    let mut issues = vec![
        issue("signal_many_writers", "BoardBody", Some("local_lock")),
        issue("signal_used_as_fence", "BoardBody", Some("local_lock")),
        issue("signal_many_writers", "BoardBody", Some("cards")),
    ];
    link_related_findings(&mut issues);
    assert_eq!(issues[0].related_codes, vec!["signal_used_as_fence".to_string()]);
    assert_eq!(issues[1].related_codes, vec!["signal_many_writers".to_string()]);
    assert!(issues[2].related_codes.is_empty());
}

#[test]
fn skips_findings_missing_signal_field() {
    let mut issues = vec![
        issue("hydration_unsafe_effect", "App", None),
        issue("signal_many_writers", "App", Some("flag")),
    ];
    link_related_findings(&mut issues);
    assert!(issues[0].related_codes.is_empty());
    assert!(issues[1].related_codes.is_empty());
}

#[test]
fn types_lose_the_spaces_of_tokens() {
    assert_eq!(tighten_type("Vec < String >"), "Vec<String>");
    assert_eq!(tighten_type("HashMap < String , Vec < a :: B > >"), "HashMap<String, Vec<a::B>>");
    assert_eq!(tighten_type("u64"), "u64");
}
