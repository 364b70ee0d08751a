//! New components, routes and server functions.
use dioxus_lints::scaffold::create::{render_component, CreateComponentParams};
use dioxus_lints::scaffold::mods::{upsert_mod_entry, ModUpsert};
use dioxus_lints::scaffold::return_type::check_inner_return_type;
use dioxus_lints::scaffold::routes::{plan_route_insertion, RouteInsertion};
use dioxus_lints::scaffold::templates::component_body_for;

const BASE: &str = r#"use dioxus::prelude::*;

#[derive(Clone, Routable, PartialEq)]
pub enum Route {
    #[route("/")]
    Home {},
    #[route("/users/:id")]
    User { id: i32 },
}
"#;

fn render(template: &str) -> String {
    let p = CreateComponentParams {
        name: "ProductTable".to_string(),
        props: Vec::new(),
        path: None,
        template: Some(template.to_string()),
        project_root: None,
    };
    render_component(&p, "ProductTable", "product_table").unwrap()
}

#[test]
fn inserts_new_variant() {
    let r = plan_route_insertion(BASE, "About", "/about", &Vec::new()).unwrap();
    match r {
        RouteInsertion::Insert { new_src, line } => {
            assert!(new_src.contains("#[route(\"/about\")]"));
            assert!(new_src.contains("About {}"));
            assert!(new_src.contains("Home {}"));
            assert!(new_src.contains("User { id: i32 }"));
            let lines: Vec<&str> = new_src.lines().collect();
            assert_eq!(
                lines.get(line - 1).copied(),
                Some("    #[route(\"/about\")]"),
                "line {line} should be the inserted #[route(...)], got: {:?}",
                lines.get(line - 1)
            );
        }
        _ => panic!("expected Insert"),
    }
}

#[test]
fn inserts_new_variant_with_params() {
    let r = plan_route_insertion(
        BASE,
        "EditUser",
        "/users/:id/edit",
        &vec![("id".into(), "i64".into())],
    )
    .unwrap();
    match r {
        RouteInsertion::Insert { new_src, .. } => {
            assert!(new_src.contains("#[route(\"/users/:id/edit\")]"));
            assert!(
                new_src.contains("EditUser { id: i64 }"),
                "expected variant with id field, got:\n{new_src}"
            );
        }
        _ => panic!("expected Insert"),
    }
}

#[test]
fn skips_existing_variant_same_path() {
    let r = plan_route_insertion(BASE, "Home", "/", &Vec::new()).unwrap();
    assert!(matches!(r, RouteInsertion::AlreadyMatches));
}

#[test]
fn errors_on_existing_variant_different_path() {
    let err = plan_route_insertion(BASE, "Home", "/landing", &Vec::new()).unwrap_err();
    assert!(err.contains("route conflict"), "got: {err}");
    assert!(err.contains("Home"));
}

#[test]
fn errors_without_routable_enum() {
    let src = "pub enum NotRoutable { Foo, Bar }";
    let err = plan_route_insertion(src, "Foo", "/foo", &Vec::new()).unwrap_err();
    assert!(err.contains("Routable"));
}

#[test]
fn errors_on_path_collision_with_different_variant() {
    let err = plan_route_insertion(BASE, "Landing", "/", &Vec::new()).unwrap_err();
    assert!(err.contains("route conflict"), "got: {err}");
    assert!(
        err.contains("Home"),
        "should name the colliding variant, got: {err}"
    );
    assert!(
        err.contains("\"/\""),
        "should quote the colliding path, got: {err}"
    );
}

#[test]
fn accepts_bare_types() {
    assert!(check_inner_return_type("String").is_none());
    assert!(check_inner_return_type("Vec<Product>").is_none());
    assert!(check_inner_return_type("Option<i64>").is_none());
    assert!(check_inner_return_type("crate::model::Product").is_none());
}

#[test]
fn rejects_result_serverfnerror() {
    let e = check_inner_return_type("Result<Vec<String>, ServerFnError>").unwrap();
    assert!(e.contains("already wraps"));
    assert!(e.contains("Vec < String >") || e.contains("Vec<String>"));
}

#[test]
fn rejects_serverfnresult() {
    let e = check_inner_return_type("ServerFnResult<Vec<String>>").unwrap();
    assert!(e.contains("ServerFnResult"));
}

#[test]
fn rejects_qualified_serverfnerror() {
    let e =
        check_inner_return_type("Result<Vec<String>, dioxus::prelude::ServerFnError>").unwrap();
    assert!(e.contains("already wraps"));
}

#[test]
fn accepts_result_with_different_error() {
    assert!(check_inner_return_type("Result<Vec<String>, MyError>").is_none());
}

#[test]
fn creates_when_missing() {
    let current = None;
    let (r, body) = upsert_mod_entry(current, "foo", None, true);
    assert_eq!(r, ModUpsert::Created);
    assert_eq!(
        body,
        "#![allow(unused_imports)]\npub mod foo;\npub use foo::*;\n"
    );
}

#[test]
fn creates_without_allow_unused() {
    let current = None;
    let (r, body) = upsert_mod_entry(current, "foo", None, false);
    assert_eq!(r, ModUpsert::Created);
    assert_eq!(body, "pub mod foo;\npub use foo::*;\n");
}

#[test]
fn strips_existing_allow_unused_when_disabled() {
    let current = Some(
        "#![allow(unused_imports)]\npub mod alpha;\npub use alpha::*;\n",
    );
    let (r, body) = upsert_mod_entry(current, "beta", None, false);
    assert_eq!(r, ModUpsert::Modified);
    assert_eq!(
        body,
        "pub mod alpha;\npub use alpha::*;\npub mod beta;\npub use beta::*;\n"
    );
}

#[test]
fn inserts_sorted_into_existing() {
    let current = Some(
        "pub mod alpha;\npub use alpha::*;\npub mod zeta;\npub use zeta::*;\n",
    );
    let (r, body) = upsert_mod_entry(current, "mid", None, false);
    assert_eq!(r, ModUpsert::Modified);
    assert_eq!(
        body,
        "pub mod alpha;\npub use alpha::*;\npub mod mid;\npub use mid::*;\npub mod zeta;\npub use zeta::*;\n"
    );
}

#[test]
fn resorts_an_out_of_order_file() {
    let current = Some(
        "pub mod zeta;\npub use zeta::*;\npub mod alpha;\npub use alpha::*;\n",
    );
    let (r, body) = upsert_mod_entry(current, "alpha", None, false);
    assert_eq!(r, ModUpsert::Modified);
    assert_eq!(
        body,
        "pub mod alpha;\npub use alpha::*;\npub mod zeta;\npub use zeta::*;\n"
    );
}

#[test]
fn idempotent_when_already_present_and_sorted() {
    let initial = "pub mod alpha;\npub use alpha::*;\npub mod beta;\npub use beta::*;\n";
    let current = Some(initial);
    let (r, body) = upsert_mod_entry(current, "alpha", None, false);
    assert_eq!(r, ModUpsert::Unchanged);
    assert_eq!(body, initial);
}

#[test]
fn preserves_header_comments() {
    let current = Some(
        "// hand-written header\n//! crate doc\npub mod zeta;\npub use zeta::*;\n",
    );
    let (r, body) = upsert_mod_entry(current, "alpha", None, false);
    assert_eq!(r, ModUpsert::Modified);
    assert_eq!(
        body,
        "// hand-written header\n//! crate doc\npub mod alpha;\npub use alpha::*;\npub mod zeta;\npub use zeta::*;\n"
    );
}

#[test]
fn cfg_attr_emitted_for_fresh_file() {
    let current = None;
    let (r, body) = upsert_mod_entry(
        current,
        "product_store",
        Some("#[cfg(feature = \"server\")]"),
        true,
    );
    assert_eq!(r, ModUpsert::Created);
    assert_eq!(
        body,
        "#![allow(unused_imports)]\n\
         #[cfg(feature = \"server\")]\npub mod product_store;\n\
         #[cfg(feature = \"server\")]\npub use product_store::*;\n"
    );
}

#[test]
fn cfg_attr_added_to_existing_entries() {
    let current = Some(
        "#![allow(unused_imports)]\n\
         #[cfg(feature = \"server\")]\npub mod alpha;\n\
         #[cfg(feature = \"server\")]\npub use alpha::*;\n",
    );
    let (r, body) = upsert_mod_entry(current, "beta", Some("#[cfg(feature = \"server\")]"), true);
    assert_eq!(r, ModUpsert::Modified);
    assert_eq!(
        body,
        "#![allow(unused_imports)]\n\
         #[cfg(feature = \"server\")]\npub mod alpha;\n\
         #[cfg(feature = \"server\")]\npub use alpha::*;\n\
         #[cfg(feature = \"server\")]\npub mod beta;\n\
         #[cfg(feature = \"server\")]\npub use beta::*;\n"
    );
}

#[test]
fn empty_template_matches_legacy_body() {
    let s = render("empty");
    assert!(s.contains(r#"div { class: "product_table","#));
    assert!(s.contains(r#""ProductTable component""#));
}

#[test]
fn form_template_emits_form_with_submit_handler() {
    let s = render("form");
    assert!(s.contains("form { class: \"product_table\""));
    assert!(s.contains("onsubmit:"));
    assert!(s.contains("button { r#type: \"submit\""));
}

#[test]
fn list_template_emits_ul_with_empty_state() {
    let s = render("list");
    assert!(s.contains("ul { class: \"product_table-items\""));
    assert!(s.contains("Empty list"));
}

#[test]
fn crud_table_template_emits_table_skeleton() {
    let s = render("crud_table");
    assert!(s.contains("table { class: \"product_table-table\""));
    assert!(s.contains("thead {") && s.contains("tbody {"));
    assert!(s.contains("button { \"New\""));
}

#[test]
fn resource_view_template_emits_article_with_actions() {
    let s = render("resource_view");
    assert!(s.contains("article { class: \"product_table\""));
    assert!(s.contains("dl { class: \"product_table-fields\""));
    assert!(s.contains("button { class: \"danger\", \"Delete\""));
}

#[test]
fn unknown_template_is_rejected_with_helpful_message() {
    let err = component_body_for("dropdown").unwrap_err();
    assert!(err.contains("unknown template"));
    assert!(err.contains("crud_table"));
}
