//! The tour of a project.
use dioxus_lints::project_tour::{
    derive_next_actions, project_tour, AssetAuditReport, AuditFinding, AuditReport,
    ProjectIndexReport, ProjectTourParams, RouteEntry, RouteMapReport,
};

fn params(included: Option<&[&str]>, exclude: Option<&[&str]>, max: Option<usize>) -> ProjectTourParams {
    let list = |x: Option<&[&str]>| x.map(|v| v.iter().map(|s| s.to_string()).collect());
    ProjectTourParams {
        included: list(included),
        exclude: list(exclude),
        max_items_per_section: max,
        project_root: None,
    }
}

fn audit() -> Option<AuditReport> {
    Some(AuditReport {
        dioxus_version: Some("0.6".to_string()),
        dioxus_features: vec!["fullstack".to_string()],
        findings: vec![AuditFinding { message: "no default platform".to_string() }],
    })
}

fn routes() -> Option<RouteMapReport> {
    let route = |p: &str, c: &str| RouteEntry { full_path: p.to_string(), component: c.to_string() };
    Some(RouteMapReport {
        enum_name: "Route".to_string(),
        routes: vec![route("/", "Home"), route("/about", "About"), route("/users", "Users")],
    })
}

fn index(components: usize) -> Option<ProjectIndexReport> {
    Some(ProjectIndexReport {
        components: (0..components).map(|k| format!("C{k}")).collect(),
        server_fns: vec!["list".to_string()],
    })
}

fn assets() -> Option<AssetAuditReport> {
    Some(AssetAuditReport {
        total_files: 3,
        referenced_count: 2,
        unreferenced_files: vec!["a.png".to_string()],
        missing_assets: Vec::new(),
    })
}

#[test]
fn sections_are_cut_to_the_limit() {
    let r = project_tour(&params(None, None, Some(2)), audit(), routes(), index(3), assets());
    assert_eq!(r.routes.as_ref().unwrap().routes.len(), 2);
    assert_eq!(r.index.as_ref().unwrap().components, vec!["C0", "C1"]);
    assert!(r.truncated.routes && r.truncated.components);
    assert!(!r.truncated.server_fns && !r.truncated.unreferenced_assets);
}

#[test]
fn nothing_is_cut_within_the_limit() {
    let r = project_tour(&params(None, None, None), audit(), routes(), index(3), assets());
    assert_eq!(r.routes.as_ref().unwrap().routes.len(), 3);
    assert!(!r.truncated.routes && !r.truncated.components);
    assert!(r.summary.contains("**Dioxus**: "), "{}", r.summary);
    assert!(r.summary.contains("enum `Route`"), "{}", r.summary);
    assert!(r.summary.contains("3 files, 2 referenced, 1 unreferenced"), "{}", r.summary);
}

#[test]
fn only_wanted_sections_are_shown() {
    let p = params(Some(&["routes", "index"]), Some(&["index"]), None);
    let r = project_tour(&p, audit(), routes(), index(3), assets());
    assert!(r.routes.is_some());
    assert!(r.audit.is_none() && r.index.is_none() && r.assets.is_none());
}

#[test]
fn a_bare_project_gets_a_next_action() {
    let bare = ProjectIndexReport { components: Vec::new(), server_fns: Vec::new() };
    assert_eq!(derive_next_actions(&None, &Some(bare)).len(), 1);
    assert!(derive_next_actions(&None, &index(0)).is_empty());
    assert!(derive_next_actions(&None, &None).is_empty());
}

fn finding(message: &str) -> Option<AuditReport> {
    Some(AuditReport {
        dioxus_version: None,
        dioxus_features: Vec::new(),
        findings: vec![AuditFinding { message: message.to_string() }],
    })
}

#[test]
fn obvious_remedies_are_surfaced() {
    let a = finding("`fullstack` is enabled but `web` is not");
    let actions = derive_next_actions(&a, &None);
    assert_eq!(actions.len(), 1);
    assert_eq!(actions[0].title, "Enable `web` on the dioxus dep");
}

#[test]
fn picking_a_render_target_is_left_to_the_reader() {
    let a = finding("no platform feature enabled on the `dioxus` dep");
    assert!(derive_next_actions(&a, &None).is_empty());
}

#[test]
fn the_summary_ends_with_the_next_actions() {
    let row = "\n**Next actions** (1): see `next_actions` for paste-ready hints.\n";
    let a = finding("`fullstack` is enabled but `server` is not");
    let r = project_tour(&params(None, None, None), a, routes(), index(3), assets());
    assert!(r.summary.ends_with(row), "{}", r.summary);
    let r = project_tour(&params(None, None, None), audit(), routes(), index(3), assets());
    assert!(!r.summary.contains("**Next actions**"), "{}", r.summary);
}

#[test]
fn ten_routes_are_listed_at_most() {
    let entry = |k: usize| RouteEntry { full_path: format!("/r{k}"), component: format!("R{k}") };
    let many = RouteMapReport { enum_name: "Route".to_string(), routes: (0..12).map(entry).collect() };
    let r = project_tour(&params(None, None, None), None, Some(many), None, None);
    assert!(r.summary.contains("/r9"), "{}", r.summary);
    assert!(!r.summary.contains("/r10"), "{}", r.summary);
}
