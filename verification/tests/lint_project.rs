//! All lints together.
use dioxus_lints::lints::components_audit::{ComponentsAuditFinding, ComponentsAuditReport};
use dioxus_lints::lints::findings::{DeadComponent, DeadComponentsReport, DrillReport};
use dioxus_lints::lints::insecure_set_cookie::{InsecureCookieFinding, InsecureSetCookieReport};
use dioxus_lints::lints::lint_project::{
    build_headline, lint_project, render_summary, LintCount, LintInputs, LintProjectParams,
    LintProjectReport, ALL_LINTS,
};
use dioxus_lints::lints::signal_drilled_2_levels::{SignalDrilledFinding, SignalDrilledReport};
use dioxus_lints::scan::{scan_source, ScannedFile};

fn count(lint: &str, issues: usize) -> LintCount {
    LintCount { lint: lint.into(), issues }
}

fn cookie(severity: &'static str) -> InsecureCookieFinding {
    InsecureCookieFinding {
        code: "insecure_set_cookie",
        severity,
        file: String::new(),
        line: 1,
        server_fn: String::new(),
        literal: String::new(),
        message: String::new(),
    }
}

fn cookies(findings: Vec<InsecureCookieFinding>) -> Option<InsecureSetCookieReport> {
    Some(InsecureSetCookieReport { findings, parse_errors: Vec::new() })
}

fn drilled(severity: &'static str) -> SignalDrilledFinding {
    SignalDrilledFinding {
        code: "signal_drilled_2_levels",
        severity,
        file: String::new(),
        line: 1,
        root_component: String::new(),
        chain: Vec::new(),
        root_prop: String::new(),
        signal_type: String::new(),
        message: String::new(),
        fix_snippet: String::new(),
    }
}

fn drills(findings: Vec<SignalDrilledFinding>) -> Option<SignalDrilledReport> {
    Some(SignalDrilledReport { findings, parse_errors: Vec::new() })
}

fn audited() -> ComponentsAuditFinding {
    ComponentsAuditFinding {
        reinvented: "dialog",
        component: String::new(),
        file: String::new(),
        line: 1,
        matched_class: String::new(),
        confidence: "low",
        hint: String::new(),
    }
}

#[test]
fn total_issues_matches_issues_by_lint_sum() {
    let report = LintProjectReport {
        lints_run: vec![
            "check_rsx".into(),
            "dead_components".into(),
            "prop_drill".into(),
            "signal_lint".into(),
            "signal_drilled_2_levels".into(),
            "props_lint".into(),
            "reinvented_widget".into(),
            "optimistic_lock_gate".into(),
            "server_state_blocking_locks".into(),
            "components_audit".into(),
        ],
        issues_by_lint: vec![
            count("check_rsx", 0),
            count("dead_components", 0),
            count("prop_drill", 4),
            count("signal_lint", 1),
            count("signal_drilled_2_levels", 2),
            count("props_lint", 0),
            count("reinvented_widget", 1),
            count("optimistic_lock_gate", 2),
            count("server_state_blocking_locks", 8),
            count("components_audit", 3),
        ],
        total_issues: 21,
        ..Default::default()
    };
    let expected: usize = report.issues_by_lint.iter().map(|c| c.issues).sum();
    assert_eq!(report.total_issues, expected);
}

#[test]
fn registry_includes_server_state_blocking_locks() {
    assert!(
        ALL_LINTS.contains(&"server_state_blocking_locks"),
        "server_state_blocking_locks must be in ALL_LINTS: {ALL_LINTS:?}",
    );
}

#[test]
fn headline_sorts_error_before_warning_before_info() {
    let report = LintProjectReport {
        insecure_set_cookie: cookies(vec![cookie("error")]),
        signal_drilled_2_levels: drills(vec![drilled("warning"), drilled("warning")]),
        components_audit: Some(ComponentsAuditReport {
            findings: vec![audited(), audited(), audited()],
            parse_errors: Vec::new(),
        }),
        ..Default::default()
    };
    let headline = build_headline(&report);
    assert!(!headline.is_empty(), "headline should be populated: {headline:?}");
    assert_eq!(headline[0].severity, "error", "error rows must sort first: {headline:?}");
    let warn_idx = headline.iter().position(|h| h.severity == "warning").unwrap();
    let info_idx = headline.iter().position(|h| h.severity == "info").unwrap();
    assert!(warn_idx < info_idx, "warning must precede info: {headline:?}");
}

#[test]
fn summary_surfaces_top_3_headline_rows() {
    let report = LintProjectReport {
        insecure_set_cookie: cookies(vec![cookie("error")]),
        signal_drilled_2_levels: drills(vec![drilled("warning")]),
        ..Default::default()
    };
    let headline = build_headline(&report);
    let with_headline = LintProjectReport { headline, ..report };
    let summary = render_summary(&with_headline);
    assert!(
        summary.contains("Top fixes"),
        "summary should include the rollup section: {summary}",
    );
    assert!(
        summary.contains("`[error]`"),
        "error row must appear in summary: {summary}",
    );
}

#[test]
fn headline_counts_findings_of_one_kind_together() {
    let report = LintProjectReport {
        insecure_set_cookie: cookies(vec![cookie("error"), cookie("warning"), cookie("error")]),
        ..Default::default()
    };
    let headline = build_headline(&report);
    let rows: Vec<(&str, usize)> = headline.iter().map(|h| (h.severity, h.count)).collect();
    assert_eq!(rows, vec![("error", 2), ("warning", 1)]);
    assert_eq!(headline[0].lint, "insecure_set_cookie");
    assert_eq!(headline[0].code.as_deref(), Some("insecure_set_cookie"));
}

const SOURCE: &str = r#"use dioxus::prelude::*;
#[component]
fn Login() -> Element {
    rsx! {
        div { class: "modal", "Are you sure?" }
        input { autofocus: true }
    }
}

#[post("/api/login")]
async fn login() -> Result<(), ServerFnError> {
    set("sid=abc; Path=/; SameSite=None");
    Ok(())
}
"#;

fn run(
    files: &Vec<ScannedFile>,
    included: Option<Vec<String>>,
    exclude: Option<Vec<String>>,
) -> Result<LintProjectReport, String> {
    let p = LintProjectParams {
        included,
        exclude,
        dead_component_roots: None,
        project_root: None,
    };
    let inputs = LintInputs {
        files,
        src_root: "src",
        wrappers: &Vec::new(),
        components: &Vec::new(),
        parents: &Vec::new(),
        parents_errors: &Vec::new(),
    };
    let dead = DeadComponentsReport { dead: Vec::new(), parse_errors: Vec::new() };
    let drill = DrillReport { parents: Vec::new(), parse_errors: Vec::new() };
    lint_project(&p, &inputs, dead, drill)
}

fn files() -> Vec<ScannedFile> {
    vec![scan_source("src/login.rs", SOURCE)]
}

#[test]
fn every_lint_runs_unless_told_otherwise() {
    let r = run(&files(), None, None).unwrap();
    assert_eq!(r.lints_run, ALL_LINTS.iter().map(|l| l.to_string()).collect::<Vec<_>>());
    assert_eq!(r.total_issues, r.issues_by_lint.iter().map(|c| c.issues).sum::<usize>());
    assert_eq!(r.total_issues, r.headline.iter().map(|h| h.count).sum::<usize>());
    let errors: Vec<&str> = r
        .headline
        .iter()
        .filter(|h| h.severity == "error")
        .map(|h| h.lint.as_str())
        .collect();
    assert_eq!(errors, vec!["check_rsx", "insecure_set_cookie"]);
    assert_eq!(r.check_rsx.unwrap().issues.len(), 1);
    assert_eq!(r.components_audit.unwrap().findings.len(), 1);
}

#[test]
fn a_file_that_does_not_parse_is_told_once() {
    let mut files = files();
    files.push(scan_source("src/broken.rs", "fn f( {"));
    let whole = run(&files, None, None).unwrap();
    assert_eq!(whole.parse_errors.len(), 1);
    assert_eq!(whole.parse_errors[0].file, "src/broken.rs");
    assert_eq!(whole.parse_errors[0].line, 1);
    assert!(whole.summary.contains("**Parse errors**: 1 files failed to parse"), "{}", whole.summary);
    assert_eq!(whole.total_issues, run(&self::files(), None, None).unwrap().total_issues);
    let check = whole.check_rsx.unwrap();
    assert_eq!(check.per_file.len(), 1);
    assert_eq!(check.issues.len(), 1);
    assert_eq!(check.parse_errors.len(), 1);
    let without = run(&files, None, Some(vec!["check_rsx".to_string()])).unwrap();
    assert_eq!(without.parse_errors.len(), 1);
}

#[test]
fn a_project_that_does_not_parse_at_all_is_no_error() {
    let files = vec![scan_source("src/broken.rs", "fn f( {")];
    let r = run(&files, None, None).unwrap();
    assert_eq!(r.parse_errors.len(), 1);
    assert_eq!(r.total_issues, 0);
    assert!(r.summary.contains("**Parse errors**"), "{}", r.summary);
}

#[test]
fn dead_components_are_one_warning_under_the_name_of_the_lint() {
    let dead = |name: &str| DeadComponent { name: name.to_string() };
    let report = LintProjectReport {
        dead_components: Some(DeadComponentsReport {
            dead: vec![dead("A"), dead("B")],
            parse_errors: Vec::new(),
        }),
        ..LintProjectReport::default()
    };
    let headline = build_headline(&report);
    assert_eq!(headline.len(), 1);
    assert_eq!(headline[0].lint, "dead_components");
    assert_eq!(headline[0].code.as_deref(), Some("dead_components"));
    assert_eq!(headline[0].severity, "warning");
    assert_eq!(headline[0].count, 2);
}

#[test]
fn only_the_lints_asked_for_run() {
    let only = Some(vec!["components_audit".to_string(), "check_rsx".to_string()]);
    let r = run(&files(), only, Some(vec!["check_rsx".to_string()])).unwrap();
    assert_eq!(r.lints_run, vec!["components_audit"]);
    assert!(r.check_rsx.is_none());
    assert_eq!(r.total_issues, 1);
}

#[test]
fn unknown_lints_are_refused() {
    let unknown = Some(vec!["no_such_lint".to_string()]);
    let e = run(&files(), unknown, None).unwrap_err();
    assert!(e.contains("no_such_lint"), "{e}");
    let unknown = Some(vec!["nor_this".to_string()]);
    let e = run(&files(), None, unknown).unwrap_err();
    assert!(e.contains("nor_this"), "{e}");
}
