//! Signals and effects.
use dioxus_lints::lints::signal_lint::bindings::{
    collect_navigator_bindings, collect_use_signal_bindings,
};
use dioxus_lints::lints::signal_lint::clones::check_prop_clone_overuse;
use dioxus_lints::lints::signal_lint::effects::{
    collect_bool_gate_signals, collect_rsx_if_signal_calls, EffectNavigateVisitor,
    EffectSpawnVisitor,
};
use dioxus_lints::lints::signal_lint::fence::check_signal_used_as_fence;
use dioxus_lints::lints::signal_lint::hydration::check_hydration;
use dioxus_lints::lints::signal_lint::polling::PollingFutureVisitor;
use dioxus_lints::lints::signal_lint::report::SignalIssue;
use dioxus_lints::lints::signal_lint::triads::detect_context_signal_triads;
use dioxus_lints::lints::signal_lint::writers::check_signal_many_writers;
use dioxus_lints::scan::{body_of, scan_source, ScannedFile};
use dioxus_lints::tape::{Kind, Node};

fn snippet(body: &str) -> String {
    format!(
        "use dioxus::prelude::*;\n#[component]\nfn Demo() -> Element {{\n{body}\nrsx!{{}}\n}}\n"
    )
}

/// The issues that `check` finds in each function of `src`. It gets the nodes,
/// the function, the span of its body and its name.
fn each_fn(
    src: &str,
    check: impl Fn(&Vec<Node>, usize, usize, usize, &str) -> Vec<SignalIssue>,
) -> Vec<SignalIssue> {
    let file = scan_source("snippet.rs", src);
    let t = file.ast.expect("test snippet parses");
    let mut issues = Vec::new();
    for i in 0..t.len() {
        if t[i].kind == Kind::Fn && t[i].parent == 0 {
            let (b, hi) = body_of(&t, i);
            issues.extend(check(&t, i, b, hi, &t[i].name));
        }
    }
    issues
}

fn lint_snippet(body: &str) -> Vec<SignalIssue> {
    each_fn(&snippet(body), |t, _, b, hi, name| check_hydration(t, b, hi, "snippet.rs", name))
}

fn spawn_issues(src: &str) -> Vec<SignalIssue> {
    each_fn(src, |t, _, b, hi, name| {
        let v = EffectSpawnVisitor {
            t,
            lo: b,
            hi,
            bool_gates: &collect_bool_gate_signals(t, b),
            rsx_gates: &collect_rsx_if_signal_calls(t, b, hi),
            file: "snippet.rs",
            component: name,
        };
        v.issues()
    })
}

fn lint_effect_spawn(body: &str) -> Vec<SignalIssue> {
    spawn_issues(&snippet(body))
}

fn lint_effect_navigate(body: &str) -> Vec<SignalIssue> {
    each_fn(&snippet(body), |t, _, b, hi, name| {
        let v = EffectNavigateVisitor {
            t,
            lo: b,
            hi,
            nav_bindings: &collect_navigator_bindings(t, b),
            file: "snippet.rs",
            component: name,
        };
        v.issues()
    })
}

fn lint_polling_future(body: &str) -> Vec<SignalIssue> {
    each_fn(&snippet(body), |t, _, b, hi, name| {
        let v = PollingFutureVisitor {
            t,
            lo: b,
            hi,
            signal_bindings: &collect_use_signal_bindings(t, b),
            file: "snippet.rs",
            component: name,
        };
        v.issues()
    })
}

fn lint_prop_clones(component_src: &str) -> Vec<SignalIssue> {
    let src = format!("use dioxus::prelude::*;\n{component_src}\n");
    each_fn(&src, |t, i, b, _, _| check_prop_clone_overuse(t, i, b, "snippet.rs"))
}

fn lint_many_writers(component_src: &str) -> Vec<SignalIssue> {
    let src = format!("use dioxus::prelude::*;\n{component_src}\n");
    each_fn(&src, |t, _, b, _, name| {
        check_signal_many_writers(t, b, &collect_use_signal_bindings(t, b), "snippet.rs", name)
    })
}

fn lint_fence(component_src: &str) -> Vec<SignalIssue> {
    let src = format!("use dioxus::prelude::*;\n{component_src}\n");
    each_fn(&src, |t, _, b, hi, name| {
        let bindings = collect_use_signal_bindings(t, b);
        check_signal_used_as_fence(t, b, hi, &bindings, "snippet.rs", name)
    })
}

fn lint_component(body: &str) -> Vec<SignalIssue> {
    spawn_issues(&format!(
        "use dioxus::prelude::*;\n#[component]\nfn App() -> Element {{\n{body}\n}}\n"
    ))
}

fn parse_into_scanned(path: &str, src: &str) -> ScannedFile {
    scan_source(path, src)
}

#[test]
fn flags_localstorage_get_at_top_level() {
    let issues =
        lint_snippet(r#"let _x = LocalStorage::get::<String>("theme").unwrap_or_default();"#);
    assert!(
        issues
            .iter()
            .any(|i| i.code == "hydration_browser_read" && i.message.contains("LocalStorage")),
        "expected LocalStorage hit, got: {issues:?}"
    );
}

#[test]
fn flags_sessionstorage_set_at_top_level() {
    let issues = lint_snippet(r#"SessionStorage::set("key", "value").ok();"#);
    assert!(
        issues
            .iter()
            .any(|i| i.code == "hydration_browser_read" && i.message.contains("SessionStorage")),
        "expected SessionStorage hit, got: {issues:?}"
    );
}

#[test]
fn ignores_localstorage_inside_use_effect() {
    let issues = lint_snippet(
        r#"use_effect(move || {
                let _x = LocalStorage::get::<String>("theme").unwrap_or_default();
            });"#,
    );
    let hits: Vec<&SignalIssue> = issues
        .iter()
        .filter(|i| i.code == "hydration_browser_read")
        .collect();
    assert!(
        hits.is_empty(),
        "LocalStorage inside use_effect must not be flagged: {hits:?}"
    );
}

#[test]
fn ignores_localstorage_inside_event_handler_closure() {
    let issues = lint_snippet(
        r#"let _on_click = move |_e: Event<MouseData>| {
                LocalStorage::set("k", "v").ok();
            };"#,
    );
    let hits: Vec<&SignalIssue> = issues
        .iter()
        .filter(|i| i.code == "hydration_browser_read")
        .collect();
    assert!(
        hits.is_empty(),
        "LocalStorage inside an event-handler closure must not be flagged: {hits:?}"
    );
}

#[test]
fn flags_document_cookie_method_call() {
    let issues =
        lint_snippet(r#"let _c = web_sys::window().unwrap().document().unwrap().cookie();"#);
    assert!(
        issues
            .iter()
            .any(|i| i.code == "hydration_browser_read" && i.message.contains("cookie")),
        "expected Document::cookie() hit, got: {issues:?}"
    );
}

#[test]
fn no_triad_below_three_modules() {
    let files = vec![
        parse_into_scanned(
            "src/state/theme.rs",
            "pub fn provide_theme() {}\npub fn use_theme() {}\n",
        ),
        parse_into_scanned(
            "src/state/user.rs",
            "pub fn provide_user() {}\npub fn use_user() {}\n",
        ),
    ];
    let (triads, summary) = detect_context_signal_triads(&files);
    assert!(
        triads.is_empty(),
        "two paired modules is not a triad: {triads:?}"
    );
    assert_eq!(summary.detected, 2);
    assert_eq!(summary.threshold, 3);
    let mut names = summary.names.clone();
    names.sort();
    assert_eq!(names, vec!["theme".to_string(), "user".to_string()]);
}

#[test]
fn flags_two_modules_when_both_share_signal_boilerplate() {
    let files = vec![
        parse_into_scanned(
            "src/state/session.rs",
            r#"use dioxus::prelude::*;
pub fn provide_session() {
    use_context_provider(|| Signal::new(None::<String>));
}
pub fn use_session() -> Signal<Option<String>> {
    use_context::<Signal<Option<String>>>()
}
"#,
        ),
        parse_into_scanned(
            "src/state/presence.rs",
            r#"use dioxus::prelude::*;
pub fn provide_presence() {
    use_context_provider(|| Signal::new(Vec::<String>::new()));
}
pub fn use_presence() -> Signal<Vec<String>> {
    use_context::<Signal<Vec<String>>>()
}
"#,
        ),
    ];
    let (triads, summary) = detect_context_signal_triads(&files);
    assert_eq!(triads.len(), 1, "expected one N=2 hint: {triads:?}");
    let names: Vec<&str> = triads[0].modules.iter().map(|m| m.name.as_str()).collect();
    assert!(names.contains(&"session"));
    assert!(names.contains(&"presence"));
    assert!(triads[0].message.contains("Store"));
    assert!(triads[0].message.contains("2 sibling"));
    assert_eq!(summary.detected, 2);
}

#[test]
fn flags_three_or_more_provide_use_pairs() {
    let files = vec![
        parse_into_scanned(
            "src/state/theme.rs",
            "pub fn provide_theme() {}\npub fn use_theme() {}\n",
        ),
        parse_into_scanned(
            "src/state/user.rs",
            "pub fn provide_user() {}\npub fn use_user() {}\n",
        ),
        parse_into_scanned(
            "src/state/locale.rs",
            "pub fn provide_locale() {}\npub fn use_locale() {}\n",
        ),
    ];
    let (triads, summary) = detect_context_signal_triads(&files);
    assert_eq!(triads.len(), 1, "expected one triad suggestion: {triads:?}");
    let names: Vec<&str> = triads[0].modules.iter().map(|m| m.name.as_str()).collect();
    assert!(names.contains(&"theme"));
    assert!(names.contains(&"user"));
    assert!(names.contains(&"locale"));
    assert!(triads[0].message.contains("Store"));
    assert_eq!(summary.detected, 3);
    assert_eq!(summary.threshold, 3);
}

#[test]
fn module_with_only_provide_or_only_use_is_skipped() {
    let files = vec![
        parse_into_scanned(
            "src/state/a.rs",
            "pub fn provide_a() {}\npub fn use_a() {}\n",
        ),
        parse_into_scanned("src/state/b.rs", "pub fn provide_b() {}\n"),
        parse_into_scanned("src/state/c.rs", "pub fn use_c() {}\n"),
    ];
    let (triads, summary) = detect_context_signal_triads(&files);
    assert!(
        triads.is_empty(),
        "lone halves don't form pairs: {triads:?}"
    );
    assert_eq!(summary.detected, 1, "only `a` paired both halves");
    assert_eq!(summary.names, vec!["a".to_string()]);
}

#[test]
fn ignores_private_provide_use_functions() {
    let files = vec![
        parse_into_scanned("src/state/a.rs", "fn provide_a() {}\nfn use_a() {}\n"),
        parse_into_scanned("src/state/b.rs", "fn provide_b() {}\nfn use_b() {}\n"),
        parse_into_scanned("src/state/c.rs", "fn provide_c() {}\nfn use_c() {}\n"),
    ];
    let (triads, summary) = detect_context_signal_triads(&files);
    assert!(
        triads.is_empty(),
        "private helpers aren't the public context-signal idiom: {triads:?}"
    );
    assert_eq!(summary.detected, 0);
    assert!(summary.names.is_empty());
}

#[test]
fn ignores_document_cookie_inside_spawn_async_block() {
    let issues = lint_snippet(
        r#"spawn(async move {
                let _c = web_sys::window().unwrap().document().unwrap().cookie();
            });"#,
    );
    let hits: Vec<&SignalIssue> = issues
        .iter()
        .filter(|i| i.code == "hydration_browser_read")
        .collect();
    assert!(
        hits.is_empty(),
        "cookie() inside spawn(async move) must not be flagged: {hits:?}"
    );
}

#[test]
fn flags_use_effect_spawn_with_await_and_set() {
    let issues = lint_effect_spawn(
        r#"let mut bootstrapped = use_signal(|| false);
use_effect(move || {
    spawn(async move {
        let _ = some_server_fn().await;
        bootstrapped.set(true);
    });
});"#,
    );
    assert_eq!(
        issues.len(),
        1,
        "expected one hydration_unsafe_effect issue, got: {issues:?}"
    );
    assert_eq!(issues[0].code, "hydration_unsafe_effect");
    assert!(
        issues[0].message.contains("use_server_future"),
        "message should suggest use_server_future: {}",
        issues[0].message
    );
}

#[test]
fn ignores_use_effect_without_await() {
    let issues = lint_effect_spawn(
        r#"let mut sig = use_signal(|| 0);
use_effect(move || {
    spawn(async move {
        sig.set(1);
    });
});"#,
    );
    let hits: Vec<&SignalIssue> = issues
        .iter()
        .filter(|i| i.code == "hydration_unsafe_effect")
        .collect();
    assert!(
        hits.is_empty(),
        "no await ⇒ not a hydration-flash pattern: {hits:?}"
    );
}

#[test]
fn ignores_use_effect_without_signal_write() {
    let issues = lint_effect_spawn(
        r#"use_effect(move || {
    spawn(async move {
        let _ = some_server_fn().await;
    });
});"#,
    );
    let hits: Vec<&SignalIssue> = issues
        .iter()
        .filter(|i| i.code == "hydration_unsafe_effect")
        .collect();
    assert!(
        hits.is_empty(),
        "no signal write ⇒ no hydration shape, just a side effect: {hits:?}"
    );
}

#[test]
fn ignores_bare_spawn_outside_use_effect() {
    let issues = lint_effect_spawn(
        r#"let mut sig = use_signal(|| 0);
spawn(async move {
    let _ = some_server_fn().await;
    sig.set(1);
});"#,
    );
    let hits: Vec<&SignalIssue> = issues
        .iter()
        .filter(|i| i.code == "hydration_unsafe_effect")
        .collect();
    assert!(
        hits.is_empty(),
        "bare spawn outside use_effect isn't the flagged shape: {hits:?}"
    );
}

#[test]
fn flags_use_effect_with_nav_push_to_redirect() {
    let issues = lint_effect_navigate(
        r#"let session = use_context::<Signal<Option<String>>>();
let nav = use_navigator();
use_effect(move || {
    if session().is_none() {
        nav.push("/login");
    }
});"#,
    );
    let hits: Vec<&SignalIssue> = issues
        .iter()
        .filter(|i| i.code == "hydration_unsafe_effect")
        .collect();
    assert_eq!(
        hits.len(),
        1,
        "expected one redirect-in-effect hit: {issues:?}"
    );
    assert!(
        hits[0].message.contains("router navigation"),
        "message should call out the navigation shape: {}",
        hits[0].message
    );
}

#[test]
fn flags_unbound_navigator_via_name_fallback() {
    let issues = lint_effect_navigate(
        r#"use_effect(move || {
    nav.replace("/login");
});"#,
    );
    let hits: Vec<&SignalIssue> = issues
        .iter()
        .filter(|i| i.code == "hydration_unsafe_effect")
        .collect();
    assert_eq!(
        hits.len(),
        1,
        "fallback name should still catch nav.replace: {issues:?}"
    );
}

#[test]
fn ignores_nav_push_inside_event_handler_closure() {
    let issues = lint_effect_navigate(
        r#"let nav = use_navigator();
let _on_click = move |_e: Event<MouseData>| {
    nav.push("/login");
};"#,
    );
    let hits: Vec<&SignalIssue> = issues
        .iter()
        .filter(|i| i.code == "hydration_unsafe_effect")
        .collect();
    assert!(
        hits.is_empty(),
        "nav.push inside an event handler is fine: {hits:?}"
    );
}

#[test]
fn ignores_vec_push_inside_use_effect() {
    let issues = lint_effect_navigate(
        r#"let mut items = use_signal(|| Vec::<u32>::new());
use_effect(move || {
    items.write().push(1);
});"#,
    );
    let hits: Vec<&SignalIssue> = issues
        .iter()
        .filter(|i| i.code == "hydration_unsafe_effect")
        .collect();
    assert!(
        hits.is_empty(),
        "Vec::push inside use_effect is not the route-guard shape: {hits:?}"
    );
}

#[test]
fn flags_three_clones_of_same_prop() {
    let issues = lint_prop_clones(
        r#"#[component]
fn Column(id: String, title: String) -> Element {
    let id_for_dragover = id.clone();
    let id_for_drop = id.clone();
    let id_for_match = id.clone();
    let _ = (id_for_dragover, id_for_drop, id_for_match, title);
    rsx!{}
}"#,
    );
    let hits: Vec<&SignalIssue> = issues
        .iter()
        .filter(|i| i.code == "prop_clone_overuse")
        .collect();
    assert_eq!(hits.len(), 1, "one finding per overused prop: {issues:?}");
    assert!(
        hits[0].message.contains("`id`"),
        "message names the prop: {}",
        hits[0].message
    );
    assert!(
        hits[0].message.contains("ReadOnlySignal"),
        "message suggests ReadOnlySignal as one fix: {}",
        hits[0].message
    );
}

#[test]
fn ignores_two_clones_of_same_prop() {
    let issues = lint_prop_clones(
        r#"#[component]
fn Demo(id: String) -> Element {
    let id_for_a = id.clone();
    let id_for_b = id.clone();
    let _ = (id_for_a, id_for_b);
    rsx!{}
}"#,
    );
    let hits: Vec<&SignalIssue> = issues
        .iter()
        .filter(|i| i.code == "prop_clone_overuse")
        .collect();
    assert!(hits.is_empty(), "two clones is fine: {hits:?}");
}

#[test]
fn ignores_one_clone_each_of_three_distinct_props() {
    let issues = lint_prop_clones(
        r#"#[component]
fn Demo(a: String, b: String, c: String) -> Element {
    let _a = a.clone();
    let _b = b.clone();
    let _c = c.clone();
    rsx!{}
}"#,
    );
    let hits: Vec<&SignalIssue> = issues
        .iter()
        .filter(|i| i.code == "prop_clone_overuse")
        .collect();
    assert!(
        hits.is_empty(),
        "one clone per prop is the normal shape: {hits:?}"
    );
}

#[test]
fn flags_aggregate_when_multiple_props_each_below_threshold() {
    let issues = lint_prop_clones(
        r#"#[component]
fn CardItem(card_id: String, column_id: String) -> Element {
    let card_for_a = card_id.clone();
    let card_for_b = card_id.clone();
    let col_for_a = column_id.clone();
    let col_for_b = column_id.clone();
    let _ = (card_for_a, card_for_b, col_for_a, col_for_b);
    rsx!{}
}"#,
    );
    let agg: Vec<&SignalIssue> = issues
        .iter()
        .filter(|i| i.code == "prop_clone_overuse_aggregate")
        .collect();
    assert_eq!(
        agg.len(),
        1,
        "aggregate must fire when ≥4 total clones across ≥2 props: {issues:?}"
    );
    assert!(
        agg[0].message.contains("`card_id` ×2"),
        "names card_id and count: {}",
        agg[0].message
    );
    assert!(
        agg[0].message.contains("`column_id` ×2"),
        "names column_id and count: {}",
        agg[0].message
    );

    let per_prop: Vec<&SignalIssue> = issues
        .iter()
        .filter(|i| i.code == "prop_clone_overuse")
        .collect();
    assert!(
        per_prop.is_empty(),
        "per-prop rule must stay silent below its own threshold: {per_prop:?}"
    );
}

#[test]
fn aggregate_silent_when_per_prop_fired_on_any_prop() {
    let issues = lint_prop_clones(
        r#"#[component]
fn Column(id: String, label: String) -> Element {
    let a = id.clone();
    let b = id.clone();
    let c = id.clone();
    let l = label.clone();
    let _ = (a, b, c, l);
    rsx!{}
}"#,
    );
    let per_prop: Vec<&SignalIssue> = issues
        .iter()
        .filter(|i| i.code == "prop_clone_overuse")
        .collect();
    assert_eq!(
        per_prop.len(),
        1,
        "per-prop rule should fire for id ×3: {per_prop:?}",
    );
    let agg: Vec<&SignalIssue> = issues
        .iter()
        .filter(|i| i.code == "prop_clone_overuse_aggregate")
        .collect();
    assert!(
        agg.is_empty(),
        "aggregate must NOT double-flag when per-prop already fired: {agg:?}",
    );
}

#[test]
fn aggregate_silent_when_only_one_prop_clones() {
    let issues = lint_prop_clones(
        r#"#[component]
fn Demo(id: String) -> Element {
    let a = id.clone();
    let b = id.clone();
    let c = id.clone();
    let d = id.clone();
    let _ = (a, b, c, d);
    rsx!{}
}"#,
    );
    let agg: Vec<&SignalIssue> = issues
        .iter()
        .filter(|i| i.code == "prop_clone_overuse_aggregate")
        .collect();
    assert!(
        agg.is_empty(),
        "aggregate must defer to the per-prop rule when only one prop is involved: {agg:?}"
    );
    let per_prop: Vec<&SignalIssue> = issues
        .iter()
        .filter(|i| i.code == "prop_clone_overuse")
        .collect();
    assert_eq!(
        per_prop.len(),
        1,
        "per-prop rule should fire for the 4-clone case: {per_prop:?}"
    );
}

#[test]
fn aggregate_silent_with_one_clone_each_across_many_props() {
    let issues = lint_prop_clones(
        r#"#[component]
fn Demo(a: String, b: String, c: String, d: String, e: String) -> Element {
    let _a = a.clone();
    let _b = b.clone();
    let _c = c.clone();
    let _d = d.clone();
    let _e = e.clone();
    rsx!{}
}"#,
    );
    let agg: Vec<&SignalIssue> = issues
        .iter()
        .filter(|i| i.code == "prop_clone_overuse_aggregate")
        .collect();
    assert!(
        agg.is_empty(),
        "one clone per prop is the baseline; aggregate must not flag: {agg:?}"
    );
}

#[test]
fn ignores_clones_of_local_bindings() {
    let issues = lint_prop_clones(
        r#"#[component]
fn Demo(prop: String) -> Element {
    let local = String::from("x");
    let l1 = local.clone();
    let l2 = local.clone();
    let l3 = local.clone();
    let _ = (l1, l2, l3, prop);
    rsx!{}
}"#,
    );
    let hits: Vec<&SignalIssue> = issues
        .iter()
        .filter(|i| i.code == "prop_clone_overuse")
        .collect();
    assert!(
        hits.is_empty(),
        "clones of locals are out of scope (only props count): {hits:?}"
    );
}

#[test]
fn flags_polling_use_future_with_reactive_read() {
    let issues = lint_polling_future(
        r#"let mut local_lock = use_signal(|| 0u32);
let mut cards = use_signal(|| Vec::<String>::new());
use_future(move || async move {
    loop {
        let _ = local_lock();
        cards.set(Vec::new());
        tokio::time::sleep(std::time::Duration::from_secs(1)).await;
    }
});"#,
    );
    let hits: Vec<&SignalIssue> = issues
        .iter()
        .filter(|i| i.code == "polling_future_reactive_read")
        .collect();
    assert_eq!(hits.len(), 1, "expected one polling-read hit: {issues:?}");
    assert!(
        hits[0].message.contains("local_lock"),
        "message should name the offending signal: {}",
        hits[0].message
    );
    assert!(
        hits[0].message.contains(".peek()"),
        "fix suggestion should mention .peek(): {}",
        hits[0].message
    );
}

#[test]
fn flags_polling_future_with_timeoutfuture_new() {
    let issues = lint_polling_future(
        r#"let mut local_lock = use_signal(|| 0u32);
let mut cards = use_signal(|| Vec::<String>::new());
use_future(move || async move {
    loop {
        let _ = local_lock();
        cards.set(Vec::new());
        gloo_timers::future::TimeoutFuture::new(2000).await;
    }
});"#,
    );
    let hits: Vec<&SignalIssue> = issues
        .iter()
        .filter(|i| i.code == "polling_future_reactive_read")
        .collect();
    assert_eq!(
        hits.len(),
        1,
        "TimeoutFuture::new should count as a sleep: {issues:?}"
    );
}

#[test]
fn flags_polling_future_with_interval_new() {
    let issues = lint_polling_future(
        r#"let mut tick = use_signal(|| 0u32);
use_future(move || async move {
    let mut iv = tokio::time::Interval::new(std::time::Duration::from_secs(1));
    loop {
        let _ = tick();
        iv.tick().await;
    }
});"#,
    );
    let hits: Vec<&SignalIssue> = issues
        .iter()
        .filter(|i| i.code == "polling_future_reactive_read")
        .collect();
    assert_eq!(
        hits.len(),
        1,
        "Interval::new should count as a timer: {issues:?}"
    );
}

#[test]
fn ignores_peek_read_inside_polling_future() {
    let issues = lint_polling_future(
        r#"let mut local_lock = use_signal(|| 0u32);
use_future(move || async move {
    loop {
        let _ = local_lock.peek();
        gloo_timers::future::sleep(std::time::Duration::from_secs(1)).await;
    }
});"#,
    );
    let hits: Vec<&SignalIssue> = issues
        .iter()
        .filter(|i| i.code == "polling_future_reactive_read")
        .collect();
    assert!(
        hits.is_empty(),
        ".peek() is the escape hatch — must not flag: {hits:?}"
    );
}

#[test]
fn ignores_use_future_with_read_but_no_sleep() {
    let issues = lint_polling_future(
        r#"let mut id = use_signal(|| 0u32);
use_future(move || async move {
    let _ = id();
    let _ = some_server_fn().await;
});"#,
    );
    let hits: Vec<&SignalIssue> = issues
        .iter()
        .filter(|i| i.code == "polling_future_reactive_read")
        .collect();
    assert!(
        hits.is_empty(),
        "no sleep ⇒ no polling-restart shape: {hits:?}"
    );
}

#[test]
fn ignores_sleep_only_use_future() {
    let issues = lint_polling_future(
        r#"use_future(move || async move {
    loop {
        tokio::time::sleep(std::time::Duration::from_millis(50)).await;
    }
});"#,
    );
    let hits: Vec<&SignalIssue> = issues
        .iter()
        .filter(|i| i.code == "polling_future_reactive_read")
        .collect();
    assert!(
        hits.is_empty(),
        "pure timer future — no read, no flag: {hits:?}"
    );
}

#[test]
fn duplicate_nav_calls_in_one_effect_flag_once() {
    let issues = lint_effect_navigate(
        r#"let nav = use_navigator();
use_effect(move || {
    if true { nav.push("/a"); } else { nav.push("/b"); }
});"#,
    );
    let hits: Vec<&SignalIssue> = issues
        .iter()
        .filter(|i| i.code == "hydration_unsafe_effect")
        .collect();
    assert_eq!(
        hits.len(),
        1,
        "expected one flag per use_effect: {issues:?}"
    );
}

#[test]
fn flags_signal_written_from_four_sources() {
    let issues = lint_many_writers(
        r#"#[component]
fn BoardBody() -> Element {
    let mut cards = use_signal(|| Vec::<String>::new());
    use_future(move || async move {
        cards.set(Vec::new());
    });
    let logout = move |_| { cards.set(Vec::new()); };
    let submit_card = move |t: String| { cards.with_mut(|c| c.push(t)); };
    let commit_move = move |_| { cards.set(Vec::new()); };
    let _ = (logout, submit_card, commit_move);
    rsx!{}
}"#,
    );
    let hits: Vec<&SignalIssue> = issues
        .iter()
        .filter(|i| i.code == "signal_many_writers")
        .collect();
    assert_eq!(
        hits.len(),
        1,
        "expected one many-writers hit on `cards`: {issues:?}"
    );
    let msg = &hits[0].message;
    assert!(msg.contains("`cards`"), "names the signal: {msg}");
    assert!(
        msg.contains("Store"),
        "recommends the Store primitive: {msg}"
    );
    assert!(
        msg.contains("logout") && msg.contains("submit_card") && msg.contains("commit_move"),
        "lists each closure writer: {msg}"
    );
}

#[test]
fn ignores_signal_with_two_writers() {
    let issues = lint_many_writers(
        r#"#[component]
fn Demo() -> Element {
    let mut count = use_signal(|| 0u32);
    use_effect(move || { count.set(0); });
    let on_click = move |_| { count.set(count() + 1); };
    let _ = on_click;
    rsx!{}
}"#,
    );
    let hits: Vec<&SignalIssue> = issues
        .iter()
        .filter(|i| i.code == "signal_many_writers")
        .collect();
    assert!(
        hits.is_empty(),
        "two writers is below the threshold: {hits:?}"
    );
}

#[test]
fn flags_signal_written_only_via_compound_assigns() {
    let issues = lint_many_writers(
        r#"#[component]
fn BoardScreen() -> Element {
    let mut local_lock = use_signal(|| 0u32);
    let submit_card = move |_| { local_lock += 1; };
    let delete_card = move |_| { local_lock += 1; };
    let commit_move = move |_| { local_lock += 1; };
    let _ = (submit_card, delete_card, commit_move);
    rsx!{}
}"#,
    );
    let hits: Vec<&SignalIssue> = issues
        .iter()
        .filter(|i| i.code == "signal_many_writers")
        .collect();
    assert_eq!(
        hits.len(),
        1,
        "three closures bumping `local_lock` with `+=` should trip the lint: {issues:?}"
    );
    let msg = &hits[0].message;
    assert!(msg.contains("`local_lock`"), "names the signal: {msg}");
    assert!(
        msg.contains("submit_card")
            && msg.contains("delete_card")
            && msg.contains("commit_move"),
        "lists each compound-assigning closure: {msg}"
    );
}

#[test]
fn dedupes_multiple_writes_within_one_closure() {
    let issues = lint_many_writers(
        r#"#[component]
fn Demo() -> Element {
    let mut count = use_signal(|| 0u32);
    let bump = move |_| {
        count.set(1);
        count.set(2);
        count.set(3);
    };
    let _ = bump;
    rsx!{}
}"#,
    );
    let hits: Vec<&SignalIssue> = issues
        .iter()
        .filter(|i| i.code == "signal_many_writers")
        .collect();
    assert!(
        hits.is_empty(),
        "one closure with three writes is still ONE source: {hits:?}"
    );
}

#[test]
fn flags_int_signal_used_purely_as_fence() {
    let issues = lint_fence(
        r#"#[component]
fn BoardBody() -> Element {
    let mut local_lock = use_signal(|| 0u32);
    let bump_a = move |_| { local_lock += 1; };
    let bump_b = move |_| { local_lock += 1; };
    let check = move |saved: u32| {
        if local_lock == saved { /* still fresh */ }
    };
    let _ = (bump_a, bump_b, check);
    rsx!{}
}"#,
    );
    let hits: Vec<&SignalIssue> = issues
        .iter()
        .filter(|i| i.code == "signal_used_as_fence")
        .collect();
    assert_eq!(
        hits.len(),
        1,
        "fence shape should fire on local_lock: {issues:?}"
    );
    assert!(
        hits[0].message.contains("Cell") || hits[0].message.contains("generation"),
        "should recommend the lighter-weight replacement: {}",
        hits[0].message
    );
}

#[test]
fn flags_snapshot_then_compare_fence_pattern() {
    let issues = lint_fence(
        r#"#[component]
fn BoardBody() -> Element {
    let mut local_lock = use_signal(|| 0u32);
    let bump_a = move |_| { local_lock += 1; };
    let bump_b = move |_| { local_lock += 1; };
    let check = move |_| {
        let lock = local_lock();
        if local_lock() == lock { /* still fresh */ }
    };
    let _ = (bump_a, bump_b, check);
    rsx!{}
}"#,
    );
    let hits: Vec<&SignalIssue> = issues
        .iter()
        .filter(|i| i.code == "signal_used_as_fence")
        .collect();
    assert_eq!(
        hits.len(),
        1,
        "snapshot-then-compare still IS the fence shape: {issues:?}",
    );
}

#[test]
fn ignores_snapshot_read_without_pairing_compare() {
    let issues = lint_fence(
        r#"#[component]
fn Demo() -> Element {
    let mut count = use_signal(|| 0u32);
    let bump_a = move |_| { count += 1; };
    let bump_b = move |_| { count += 1; };
    let show = move |_| {
        let now = count();
        // `now` is just used elsewhere — never compared back to `count()`.
        let _ = now + 1;
    };
    let _ = (bump_a, bump_b, show);
    rsx!{}
}"#,
    );
    let hits: Vec<&SignalIssue> = issues
        .iter()
        .filter(|i| i.code == "signal_used_as_fence")
        .collect();
    assert!(
        hits.is_empty(),
        "unpaired snapshot means callers care about the value: {hits:?}",
    );
}

#[test]
fn ignores_int_signal_read_for_its_value() {
    let issues = lint_fence(
        r#"#[component]
fn Demo() -> Element {
    let mut count = use_signal(|| 0u32);
    let bump = move |_| { count += 1; };
    let _ = bump;
    rsx!{ span { "{count}" } }
}"#,
    );
    let hits: Vec<&SignalIssue> = issues
        .iter()
        .filter(|i| i.code == "signal_used_as_fence")
        .collect();
    assert!(
        hits.is_empty(),
        "value shown in rsx — not a fence: {hits:?}"
    );
}

#[test]
fn ignores_single_bump_int_signal() {
    let issues = lint_fence(
        r#"#[component]
fn Demo() -> Element {
    let mut tick = use_signal(|| 0u32);
    let bump = move |_| { tick += 1; };
    let check = move |saved: u32| { let _ = tick == saved; };
    let _ = (bump, check);
    rsx!{}
}"#,
    );
    let hits: Vec<&SignalIssue> = issues
        .iter()
        .filter(|i| i.code == "signal_used_as_fence")
        .collect();
    assert!(
        hits.is_empty(),
        "one compound write isn't enough evidence: {hits:?}"
    );
}

#[test]
fn ignores_non_integer_init() {
    let issues = lint_fence(
        r#"#[component]
fn Demo() -> Element {
    let mut items = use_signal(|| Vec::<u32>::new());
    let a = move |_| { items.set(Vec::new()); };
    let b = move |_| { items.set(Vec::new()); };
    let _ = (a, b);
    rsx!{}
}"#,
    );
    let hits: Vec<&SignalIssue> = issues
        .iter()
        .filter(|i| i.code == "signal_used_as_fence")
        .collect();
    assert!(
        hits.is_empty(),
        "non-int init signal is out of scope: {hits:?}"
    );
}

#[test]
fn fires_bootstrap_gate_signal_on_iter03_shape() {
    let issues = lint_component(
        r#"
let mut bootstrapped = use_signal(|| false);
use_effect(move || {
    spawn(async move {
        let _ = who_am_i().await;
        bootstrapped.set(true);
    });
});
rsx! {
    if bootstrapped() {
        Router::<Route> {}
    } else {
        div { "Loading..." }
    }
}
"#,
    );
    let codes: Vec<&str> = issues.iter().map(|i| &*i.code).collect();
    assert!(
        codes.contains(&"bootstrap_gate_signal"),
        "expected bootstrap_gate_signal, got: {codes:?}",
    );
    assert!(
        !codes.contains(&"hydration_unsafe_effect"),
        "specialized finding should suppress generic one: {codes:?}",
    );
}

#[test]
fn falls_back_to_generic_when_gate_is_not_bool_false() {
    let issues = lint_component(
        r#"
let mut counter = use_signal(|| 0u32);
use_effect(move || {
    spawn(async move {
        let _ = some_fn().await;
        counter.set(counter() + 1);
    });
});
rsx! {
    div { "x" }
}
"#,
    );
    let codes: Vec<&str> = issues.iter().map(|i| &*i.code).collect();
    assert!(
        codes.contains(&"hydration_unsafe_effect"),
        "non-bool init must fall back to generic: {codes:?}",
    );
    assert!(
        !codes.contains(&"bootstrap_gate_signal"),
        "non-bool init must NOT fire bootstrap: {codes:?}",
    );
}

#[test]
fn falls_back_when_set_value_is_not_true_literal() {
    let issues = lint_component(
        r#"
let mut flag = use_signal(|| false);
use_effect(move || {
    spawn(async move {
        let _ = some_fn().await;
        flag.set(false);
    });
});
rsx! {
    if flag() { div { "a" } } else { div { "b" } }
}
"#,
    );
    let codes: Vec<&str> = issues.iter().map(|i| &*i.code).collect();
    assert!(
        codes.contains(&"hydration_unsafe_effect"),
        "set(false) must fall back to generic: {codes:?}",
    );
    assert!(
        !codes.contains(&"bootstrap_gate_signal"),
        "set(false) is not the bootstrap shape: {codes:?}",
    );
}

#[test]
fn falls_back_when_rsx_has_no_if_gate() {
    let issues = lint_component(
        r#"
let mut flag = use_signal(|| false);
use_effect(move || {
    spawn(async move {
        let _ = some_fn().await;
        flag.set(true);
    });
});
rsx! {
    div { class: if flag() { "ready" } else { "loading" } }
}
"#,
    );
    let codes: Vec<&str> = issues.iter().map(|i| &*i.code).collect();
    assert!(
        codes.contains(&"hydration_unsafe_effect") || codes.contains(&"bootstrap_gate_signal"),
        "must surface at least one finding: {codes:?}",
    );
}

#[test]
fn collect_bool_gate_signals_picks_up_only_false_init() {
    let src = r#"#[component]
fn X() -> Element {
    let mut a = use_signal(|| false);
    let mut b = use_signal(|| true);
    let mut c = use_signal(|| 0);
    let mut d = use_signal(String::new);
    rsx! {}
}"#;
    each_fn(src, |t, _, b, _, _| {
        let bools = collect_bool_gate_signals(t, b);
        assert_eq!(bools, vec!["a".to_string()]);
        Vec::new()
    });
}

#[test]
fn collect_rsx_if_signal_calls_recognises_gate_shape() {
    let src = r#"#[component]
fn X() -> Element {
    rsx! {
        if bootstrapped() {
            div { "ready" }
        } else {
            div { "loading" }
        }
        if some_signal_read {
            div { "no parens — not a gate match" }
        }
    }
}"#;
    each_fn(src, |t, _, b, hi, _| {
        let gates = collect_rsx_if_signal_calls(t, b, hi);
        assert!(gates.iter().any(|g| g == "bootstrapped"));
        assert!(!gates.iter().any(|g| g == "some_signal_read"));
        Vec::new()
    });
}

#[test]
fn a_fence_that_is_reset_is_a_fence() {
    let issues = lint_fence(
        r#"#[component]
fn D() -> Element {
    let mut tick = use_signal(|| 0u32);
    let a = move |_| { tick += 1; };
    let b = move |_| { tick += 1; };
    let c = move |_| { tick.set(0); };
    let d = move |s: u32| { if tick == s {} };
    rsx! {}
}"#,
    );
    assert_eq!(issues.len(), 1, "{issues:?}");
    assert_eq!(issues[0].code, "signal_used_as_fence");
    assert!(issues[0].message.contains("tick"), "{}", issues[0].message);
}

#[test]
fn a_signal_that_is_set_to_a_value_is_no_fence() {
    let issues = lint_fence(
        r#"#[component]
fn D() -> Element {
    let mut tick = use_signal(|| 0u32);
    let a = move |_| { tick += 1; };
    let b = move |_| { tick += 1; };
    let c = move |n: u32| { tick.set(n); };
    let d = move |s: u32| { if tick == s {} };
    rsx! {}
}"#,
    );
    assert!(issues.is_empty(), "{issues:?}");
}

#[test]
fn an_async_block_handed_to_a_hook_is_followed() {
    let issues = lint_effect_spawn(
        r#"let mut ready = use_signal(|| false);
use_effect(async move {
    fetch().await;
    ready.set(true);
});"#,
    );
    assert_eq!(issues.len(), 1, "{issues:?}");
    assert_eq!(issues[0].code, "hydration_unsafe_effect");
}

#[test]
fn a_signal_that_is_set_before_the_await_is_left_alone() {
    let issues = lint_effect_spawn(
        r#"let mut ready = use_signal(|| false);
use_effect(move || {
    spawn(async move {
        ready.set(true);
        fetch().await;
    });
});"#,
    );
    assert!(issues.is_empty(), "{issues:?}");
}

#[test]
fn a_signal_that_is_set_to_what_is_awaited_is_flagged() {
    let issues = lint_effect_spawn(
        r#"let mut ready = use_signal(|| false);
use_effect(move || {
    spawn(async move {
        ready.set(fetch().await);
    });
});"#,
    );
    assert_eq!(issues.len(), 1, "{issues:?}");
}
