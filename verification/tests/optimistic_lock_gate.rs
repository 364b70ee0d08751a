//! Counters that gate stale results.
use dioxus_lints::lints::optimistic_lock_gate::{optimistic_lock_gate, OptimisticLockGateFinding};
use dioxus_lints::scan::{scan_source, ScannedFile};

fn project(text: &str) -> Vec<ScannedFile> {
    vec![scan_source("src/comp.rs", text)]
}

fn scan(src: &str) -> Vec<OptimisticLockGateFinding> {
    optimistic_lock_gate(&project(src)).findings
}

#[test]
fn flags_canonical_three_shape_match() {
    let findings = scan(
        r#"use dioxus::prelude::*;

#[component]
fn Board() -> Element {
    let mut local_lock = use_signal(|| 0u32);
    let on_save = move |_| {
        let lock = local_lock();
        local_lock += 1;
        spawn(async move {
            if local_lock() == lock {
                let _ = ();
            }
        });
    };
    rsx! {}
}
"#,
    );
    assert_eq!(
        findings.len(),
        1,
        "exactly one finding expected: {findings:?}"
    );
    assert_eq!(findings[0].signal, "local_lock");
    assert_eq!(findings[0].snapshot, "lock");
    assert_eq!(findings[0].code, "optimistic_lock_gate");
}

#[test]
fn flags_reversed_comparison() {
    let findings = scan(
        r#"use dioxus::prelude::*;

#[component]
fn Board() -> Element {
    let mut local_lock = use_signal(|| 0u32);
    let on_save = move |_| {
        let lock = local_lock();
        local_lock += 1;
        spawn(async move {
            if lock == local_lock() {
                let _ = ();
            }
        });
    };
    rsx! {}
}
"#,
    );
    assert_eq!(
        findings.len(),
        1,
        "reversed compare must match: {findings:?}"
    );
}

#[test]
fn does_not_flag_without_bump() {
    let findings = scan(
        r#"use dioxus::prelude::*;

#[component]
fn Board() -> Element {
    let local_lock = use_signal(|| 0u32);
    let on_save = move |_| {
        let lock = local_lock();
        spawn(async move {
            if local_lock() == lock {
                let _ = ();
            }
        });
    };
    rsx! {}
}
"#,
    );
    assert!(
        findings.is_empty(),
        "no bump → not the staleness pattern: {findings:?}"
    );
}

#[test]
fn does_not_flag_sync_compare() {
    let findings = scan(
        r#"use dioxus::prelude::*;

#[component]
fn Board() -> Element {
    let mut local_lock = use_signal(|| 0u32);
    let on_save = move |_| {
        let lock = local_lock();
        local_lock += 1;
        if local_lock() == lock {
            // this is the same tick — no race to gate
            let _ = ();
        }
    };
    rsx! {}
}
"#,
    );
    assert!(
        findings.is_empty(),
        "sync compare is not the optimistic-lock pattern: {findings:?}"
    );
}

#[test]
fn does_not_flag_non_integer_signal() {
    let findings = scan(
        r#"use dioxus::prelude::*;

#[component]
fn Board() -> Element {
    let mut items = use_signal(|| Vec::<u32>::new());
    let on_save = move |_| {
        let snap = items();
        spawn(async move {
            if items() == snap {
                let _ = ();
            }
        });
    };
    rsx! {}
}
"#,
    );
    assert!(
        findings.is_empty(),
        "non-integer use_signal must not fire: {findings:?}"
    );
}

#[test]
fn does_not_flag_when_snapshot_and_gate_names_differ() {
    let findings = scan(
        r#"use dioxus::prelude::*;

#[component]
fn Board() -> Element {
    let mut local_lock = use_signal(|| 0u32);
    let on_save = move |_| {
        let snap = local_lock();
        local_lock += 1;
        spawn(async move {
            // Compares against a different binding (`other`) — not our snap.
            let other = 7u32;
            if local_lock() == other {
                let _ = ();
            }
            let _ = snap;
        });
    };
    rsx! {}
}
"#,
    );
    assert!(
        findings.is_empty(),
        "gate must be against our snapshot binding: {findings:?}"
    );
}

#[test]
fn flags_two_distinct_signals_in_two_handlers() {
    let findings = scan(
        r#"use dioxus::prelude::*;

#[component]
fn Board() -> Element {
    let mut a = use_signal(|| 0u32);
    let mut b = use_signal(|| 0u32);
    let on_a = move |_| {
        let snap = a();
        a += 1;
        spawn(async move { if a() == snap { let _ = (); } });
    };
    let on_b = move |_| {
        let snap = b();
        b += 1;
        spawn(async move { if b() == snap { let _ = (); } });
    };
    rsx! {}
}
"#,
    );
    let names: Vec<&str> = findings.iter().map(|f| f.signal.as_str()).collect();
    assert!(names.contains(&"a"), "missing a: {findings:?}");
    assert!(names.contains(&"b"), "missing b: {findings:?}");
}

#[test]
fn flags_cross_body_snapshot_and_bump() {
    let findings = scan(
        r#"use dioxus::prelude::*;

#[component]
fn Board() -> Element {
    let mut local_lock = use_signal(|| 0u32);
    let polling = use_future(move || async move {
        let lock = local_lock();
        let _ = fetch_board().await;
        if local_lock() == lock {
            // reconcile
        }
    });
    let submit_card = move |_| {
        local_lock += 1;
        // … POST /api/cards/create …
    };
    let delete_card_action = move |_| {
        local_lock += 1;
        // … DELETE /api/cards …
    };
    rsx! {}
}
"#,
    );
    assert_eq!(
        findings.len(),
        1,
        "exactly one cross-body finding expected: {findings:?}",
    );
    assert_eq!(findings[0].signal, "local_lock");
    assert_eq!(
        findings[0].confidence, "medium",
        "cross-body pattern should be medium-confidence: {findings:?}",
    );
    assert!(
        findings[0].snapshot == "lock",
        "snapshot binding should be `lock`: {findings:?}",
    );
}

#[test]
fn flags_cross_body_with_underscore_bound_use_future() {
    let findings = scan(
        r#"use dioxus::prelude::*;

#[component]
fn Board() -> Element {
    let mut local_lock = use_signal(|| 0u32);
    let _polling = use_future(move || async move {
        let lock = local_lock();
        let _ = fetch_board().await;
        if local_lock() == lock {
            // reconcile
        }
    });
    let submit_card = move |_| {
        local_lock += 1;
    };
    rsx! {}
}
"#,
    );
    assert_eq!(
        findings.len(),
        1,
        "cross-body fallback must see hooks behind `_`-bindings: {findings:?}",
    );
    assert_eq!(findings[0].confidence, "medium");
    assert_eq!(findings[0].signal, "local_lock");
}

#[test]
fn single_body_match_is_high_confidence() {
    let findings = scan(
        r#"use dioxus::prelude::*;

#[component]
fn Board() -> Element {
    let mut local_lock = use_signal(|| 0u32);
    let on_save = move |_| {
        let lock = local_lock();
        local_lock += 1;
        spawn(async move {
            if local_lock() == lock { let _ = (); }
        });
    };
    rsx! {}
}
"#,
    );
    assert_eq!(findings.len(), 1, "exactly one finding: {findings:?}");
    assert_eq!(
        findings[0].confidence, "high",
        "single-body match must stay high: {findings:?}",
    );
}

#[test]
fn ignores_non_component_fn() {
    let findings = scan(
        r#"use dioxus::prelude::*;

fn helper() {
    let mut local_lock = use_signal(|| 0u32);
    let on_save = move |_| {
        let lock = local_lock();
        local_lock += 1;
        spawn(async move {
            if local_lock() == lock { let _ = (); }
        });
    };
    let _ = on_save;
}
"#,
    );
    assert!(
        findings.is_empty(),
        "no #[component] → out of scope: {findings:?}"
    );
}
