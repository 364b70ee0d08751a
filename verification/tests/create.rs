//! Drafts of new files, and what stands around them.
use dioxus_lints::scaffold::crate_root::{find_crate_root_file, upsert_crate_mod};
use dioxus_lints::scaffold::create::{
    component_file, create_component, create_route, create_server_fn, find_routable,
    fullstack_capable, ArgSpec, CreateComponentParams, CreateRouteParams, CreateServerFnParams,
    PropSpec, SourceText, NOT_FULLSTACK,
};
use dioxus_lints::scaffold::mods::{upsert_mod_entry, ModUpsert};
use dioxus_lints::paths::{
    components_of, is_same_path, join_path, path_is_under, path_leq, strip_base,
};
use dioxus_lints::scaffold::routes::{
    existing_route_paths, place_variant, plan_route_insertion, RouteInsertion,
};

fn card() -> CreateComponentParams {
    CreateComponentParams {
        name: "user card".to_string(),
        props: vec![
            PropSpec { name: "id".to_string(), ty: "i64".to_string(), optional: false },
            PropSpec { name: "note".to_string(), ty: "String".to_string(), optional: true },
        ],
        path: None,
        template: None,
        project_root: None,
    }
}

#[test]
fn a_component_is_drafted_and_exported() {
    let d = create_component(&card(), "/app", false, None).unwrap();
    assert_eq!(d.target, "/app/src/components/user_card.rs");
    assert_eq!(
        d.text,
        "use dioxus::prelude::*;\n\n\
         #[derive(Props, PartialEq, Clone)]\n\
         pub struct UserCardProps {\n    pub id: i64,\n    #[props(default)]\n    \
         pub note: Option<String>,\n}\n\n\
         #[component]\n\
         pub fn UserCard(props: UserCardProps) -> Element {\n    rsx! {\n        \
         div { class: \"user_card\",\n            \"UserCard component\"\n        }\n    }\n}"
    );
    assert_eq!(d.mod_rs, "/app/src/components/mod.rs");
    assert_eq!(d.mod_text, "pub mod user_card;\npub use user_card::*;\n");
    assert!(d.mod_changed);
    assert_eq!(d.result.files_created, vec![d.target.clone(), d.mod_rs.clone()]);
    assert!(d.result.files_modified.is_empty());
    assert_eq!(
        d.result.next_steps[0],
        "`use crate::components::UserCard;` where you want to render it"
    );
}

#[test]
fn a_mod_file_that_is_there_is_modified_or_left_alone() {
    let d = create_component(&card(), "/app", false, Some("pub mod b;\npub use b::*;\n")).unwrap();
    assert_eq!(d.result.files_created, vec![d.target.clone()]);
    assert_eq!(d.result.files_modified, vec![d.mod_rs.clone()]);
    let again = create_component(&card(), "/app", false, Some(&d.mod_text)).unwrap();
    assert!(!again.mod_changed);
    assert!(again.result.files_modified.is_empty());
}

#[test]
fn a_taken_name_is_refused() {
    let e = create_component(&card(), "/app", true, None).unwrap_err();
    assert_eq!(e, "/app/src/components/user_card.rs already exists");
    assert!(e.starts_with(&component_file(&card(), "/app")));
}

#[test]
fn an_unknown_template_is_refused() {
    let p = CreateComponentParams { template: Some("grid".to_string()), ..card() };
    let e = create_component(&p, "/app", false, None).unwrap_err();
    assert_eq!(
        e,
        "create_component: unknown template \"grid\"; valid: empty, form, list, crud_table, \
         resource_view"
    );
}

fn list() -> CreateServerFnParams {
    CreateServerFnParams {
        name: "ListUsers".to_string(),
        args: Vec::new(),
        return_type: None,
        method: None,
        path: None,
        project_root: None,
    }
}

fn features(v: &[&str]) -> Vec<String> {
    v.iter().map(|s| s.to_string()).collect()
}

#[test]
fn a_server_fn_is_drafted_and_exported() {
    let f = features(&["fullstack"]);
    let d = create_server_fn(&list(), &f, Some("/app"), false, None).unwrap();
    assert_eq!(d.target, "/app/src/server/list_users.rs");
    assert_eq!(
        d.text,
        "use dioxus::prelude::*;\n\n#[get(\"/api/list_users\")]\npub async fn list_users(\n) -> \
         Result<String, ServerFnError> {\n    Ok(Default::default())\n}"
    );
    assert_eq!(
        d.mod_text,
        "#![allow(unused_imports)]\npub mod list_users;\npub use list_users::*;\n"
    );
    assert_eq!(
        d.result.next_steps,
        vec![
            "call `list_users(...)` from a client component to invoke it",
            "ensure `mod server;` is declared in your crate root",
        ]
    );
}

#[test]
fn arguments_make_a_server_fn_a_post() {
    let f = features(&["web", "server"]);
    let p = CreateServerFnParams {
        args: vec![ArgSpec { name: "id".to_string(), ty: "i64".to_string() }],
        return_type: Some("Vec<User>".to_string()),
        path: Some("/u".to_string()),
        ..list()
    };
    let d = create_server_fn(&p, &f, Some("/app"), false, None).unwrap();
    assert!(d.text.contains("#[post(\"/u\")]"), "{}", d.text);
    assert!(d.text.contains("    id: i64,\n"), "{}", d.text);
    assert!(d.text.contains("Result<Vec<User>, ServerFnError>"), "{}", d.text);
}

#[test]
fn server_fns_are_refused_for_each_reason() {
    let f = features(&["fullstack"]);
    assert!(fullstack_capable(&f));
    assert!(!fullstack_capable(&features(&["web"])));
    let e = create_server_fn(&list(), &features(&["web"]), Some("/app"), false, None).unwrap_err();
    assert_eq!(e, NOT_FULLSTACK);
    let e = create_server_fn(&list(), &f, None, false, None).unwrap_err();
    assert_eq!(e, "no manifest dir");
    let wrapped = Some("Result<u8, ServerFnError>".to_string());
    let p = CreateServerFnParams { return_type: wrapped, ..list() };
    let e = create_server_fn(&p, &f, Some("/app"), false, None).unwrap_err();
    assert!(e.contains("pass just `u8` instead"), "{e}");
    let p = CreateServerFnParams { method: Some("PUT".to_string()), ..list() };
    let e = create_server_fn(&p, &f, Some("/app"), false, None).unwrap_err();
    assert_eq!(e, "method must be \"get\" or \"post\", got \"put\"");
    let p = CreateServerFnParams { method: Some("POST".to_string()), ..list() };
    let d = create_server_fn(&p, &f, Some("/app"), false, None).unwrap();
    assert!(d.text.contains("#[post("), "{}", d.text);
    let e = create_server_fn(&list(), &f, Some("/app"), true, None).unwrap_err();
    assert_eq!(e, "/app/src/server/list_users.rs already exists");
}

const ROUTER: &str = "#[derive(Clone, Routable)]\nenum Route {\n    #[route(\"/\")]\n    Home {},\n    Lost,\n}\n";

fn about() -> CreateRouteParams {
    CreateRouteParams {
        path: "/about".to_string(),
        component: "about us".to_string(),
        router_file: None,
        project_root: None,
        params: Vec::new(),
    }
}

#[test]
fn a_route_is_drafted() {
    let d = create_route(&about(), "/app", "/app/src/router.rs", ROUTER).unwrap();
    assert_eq!(
        d.new_src.as_deref(),
        Some(
            "#[derive(Clone, Routable)]\nenum Route {\n    #[route(\"/\")]\n    Home {},\n    \
             Lost,\n    #[route(\"/about\")]\n    AboutUs {},\n}\n"
        )
    );
    assert_eq!(d.result.files_modified, vec!["/app/src/router.rs"]);
    assert_eq!(
        d.result.next_steps,
        vec![
            "inserted `AboutUs` route variant at `src/router.rs:6`",
            "ensure `AboutUs` exists and is in scope at the routable enum",
            "consider running `cargo fmt` on the router file",
        ]
    );
}

#[test]
fn a_route_that_is_there_changes_nothing() {
    let first = create_route(&about(), "/app", "/app/src/router.rs", ROUTER).unwrap();
    let src = first.new_src.unwrap();
    let again = create_route(&about(), "/app", "/app/src/router.rs", &src).unwrap();
    assert!(again.new_src.is_none());
    assert!(again.result.files_modified.is_empty());
    assert_eq!(again.result.next_steps.len(), 2);
}

#[test]
fn routes_are_refused_for_each_reason() {
    let none = Vec::new();
    let e = plan_route_insertion("enum {", "A", "/a", &none).unwrap_err();
    assert!(e.starts_with("parse: "), "{e}");
    let e = plan_route_insertion("enum Route {}", "A", "/a", &none).unwrap_err();
    assert_eq!(e, "no `#[derive(Routable)]` enum in source");
    let e = plan_route_insertion(ROUTER, "Lost", "/lost", &none).unwrap_err();
    assert_eq!(e, "variant Lost already exists in Route but has no #[route(\"...\")] attribute");
    let e = plan_route_insertion(ROUTER, "Home", "/home", &none).unwrap_err();
    assert_eq!(e, "route conflict: variant Home already maps to \"/\", not \"/home\"");
    let e = plan_route_insertion(ROUTER, "Start", "/", &none).unwrap_err();
    assert_eq!(
        e,
        "route conflict: path \"/\" is already mapped by variant Home in Route; rename one or \
         change the path before re-running"
    );
    let e = place_variant("struct X;", "Route", "A {},\n").unwrap_err();
    assert_eq!(e, "could not locate `enum Route` in source");
    let e = place_variant("enum Route", "Route", "A {},\n").unwrap_err();
    assert_eq!(e, "malformed enum");
}

#[test]
fn an_insertion_goes_before_the_closing_brace() {
    let r = place_variant("enum R { A { b: u8 } } fn f() {}", "R", "X,\n").unwrap();
    match r {
        RouteInsertion::Insert { new_src, line } => {
            assert_eq!(new_src, "enum R { A { b: u8 } \nX,\n} fn f() {}");
            assert_eq!(line, 2);
        }
        RouteInsertion::AlreadyMatches => panic!("expected an insertion"),
    }
}

#[test]
fn existing_routes_are_listed() {
    assert_eq!(existing_route_paths(ROUTER), vec![("Home".to_string(), "/".to_string())]);
    assert!(existing_route_paths("enum Route { A }").is_empty());
    assert!(existing_route_paths("enum {").is_empty());
}

#[test]
fn the_router_is_found_among_the_candidates_first() {
    let file = |p: &str, t: &str| SourceText { path: p.to_string(), text: t.to_string() };
    let named = vec![file("src/main.rs", "fn main() {}"), file("src/lib.rs", "use Routable;")];
    let walked = vec![file("src/a.rs", "Routable"), file("src/b.rs", "#[derive(Routable)]")];
    assert_eq!(find_routable(&named, &walked).as_deref(), Some("src/lib.rs"));
    assert_eq!(find_routable(&Vec::new(), &walked).as_deref(), Some("src/b.rs"));
    assert_eq!(find_routable(&Vec::new(), &Vec::new()), None);
}

#[test]
fn the_crate_root_is_main_before_lib() {
    assert_eq!(find_crate_root_file("/a", true, true).as_deref(), Some("/a/src/main.rs"));
    assert_eq!(find_crate_root_file("/a", false, true).as_deref(), Some("/a/src/lib.rs"));
    assert_eq!(find_crate_root_file("/a", false, false), None);
}

#[test]
fn a_module_is_declared_once() {
    let cases = [
        ("mod a;\nfn main() {}\n", "mod a;\npub mod state;\nfn main() {}\n"),
        ("use x::y;\nfn main() {}", "use x::y;\npub mod state;\nfn main() {}"),
        ("#![allow(x)]\n\n// note\nfn main() {}\n", "#![allow(x)]\n\n// note\npub mod state;\nfn main() {}\n"),
        ("#!/bin/sh\nfn main() {}\n", "#!/bin/sh\npub mod state;\nfn main() {}\n"),
        ("", "pub mod state;"),
    ];
    for (before, after) in cases {
        let new = upsert_crate_mod(before, "state").unwrap();
        assert_eq!(new, after);
        assert_eq!(upsert_crate_mod(&new, "state"), None);
    }
    assert_eq!(upsert_crate_mod("  mod state;\n", "state"), None);
}

#[test]
fn an_entry_is_put_once() {
    let (_, once) = upsert_mod_entry(Some("// a\npub mod z;\n"), "b", None, true);
    assert_eq!(once, "#![allow(unused_imports)]\n// a\npub mod b;\npub use b::*;\npub mod z;\n");
    let (change, twice) = upsert_mod_entry(Some(&once), "b", None, true);
    assert_eq!(change, ModUpsert::Unchanged);
    assert_eq!(twice, once);
    // A carriage return that is doubled is not kept, so such a file changes twice.
    let (_, once) = upsert_mod_entry(Some("// a\r\r\npub mod b;\n"), "b", None, false);
    let (change, _) = upsert_mod_entry(Some(&once), "b", None, false);
    assert_eq!(change, ModUpsert::Modified);
}

#[test]
fn what_is_no_entry_moves_to_the_top() {
    let (change, text) =
        upsert_mod_entry(Some("pub mod zeta;\npub use zeta::*;\n// note\n"), "alpha", None, false);
    assert_eq!(change, ModUpsert::Modified);
    assert_eq!(text, "// note\npub mod alpha;\npub use alpha::*;\npub mod zeta;\npub use zeta::*;\n");
    let (change, again) = upsert_mod_entry(Some(&text), "alpha", None, false);
    assert_eq!(change, ModUpsert::Unchanged);
    assert_eq!(again, text);
}

#[test]
fn a_file_with_carriage_returns_gets_its_entry_once() {
    let (change, once) =
        upsert_mod_entry(Some("// note\r\npub mod zeta;\r\npub use zeta::*;\r\n"), "alpha", None, false);
    assert_eq!(change, ModUpsert::Modified);
    assert_eq!(once, "// note\npub mod alpha;\npub use alpha::*;\npub mod zeta;\npub use zeta::*;\n");
    let (change, twice) = upsert_mod_entry(Some(&once), "alpha", None, false);
    assert_eq!(change, ModUpsert::Unchanged);
    assert_eq!(twice, once);
}

#[test]
fn a_path_is_read_by_its_components() {
    for path in ["/app/src/x.rs", "/app//src/./x.rs/", "//app/src/x.rs"] {
        assert_eq!(components_of(path), ["/", "app", "src", "x.rs"]);
        assert!(is_same_path(path, "/app/src/x.rs"));
    }
    assert_eq!(components_of("./a/.."), [".", "a", ".."]);
    assert!(components_of("").is_empty());
    assert_eq!(components_of("/"), ["/"]);
    assert!(!is_same_path("./a", "a"));
}

#[test]
fn a_path_lies_under_a_root_that_ends_in_a_separator() {
    assert!(path_is_under("/app/src/x.rs", "/app/src/"));
    assert!(path_is_under("/app/src//x.rs", "/app/src"));
    assert!(path_is_under("/app/src", "/app/src/"));
    assert!(path_is_under("/app/src/x.rs", ""));
    assert!(!path_is_under("/app/srcs/x.rs", "/app/src"));
    assert!(!path_is_under("app/src/x.rs", "/app"));
}

#[test]
fn paths_are_ordered_by_component() {
    assert!(path_leq("a/b", "a-b"));
    assert!(!path_leq("a-b", "a/b"));
    assert!(path_leq("a//b", "a/b") && path_leq("a/b", "a//b"));
    assert!(path_leq("/z", "."));
    assert!(path_leq("./z", ".."));
    assert!(path_leq("..", "!"));
    assert!(!path_leq("!", ".."));
    assert!(path_leq("a", "a/b"));
}

#[test]
fn a_base_is_taken_off_by_components() {
    assert_eq!(strip_base("/app//src/./x.rs", "/app"), "src/./x.rs");
    assert_eq!(strip_base("/app/src/x.rs/", "/app/"), "src/x.rs");
    assert_eq!(strip_base("/app/src/x.rs", ""), "/app/src/x.rs");
    assert_eq!(strip_base("/app", "/app/"), "");
    assert_eq!(strip_base("/app/x", "/"), "app/x");
    assert_eq!(strip_base("//", ""), "/");
    assert_eq!(strip_base("./x", "."), "x");
}

#[test]
fn paths_are_joined_and_taken_apart() {
    for base in ["/app", "/app/", "a"] {
        assert_eq!(strip_base(&join_path(base, "src/x.rs"), base), "src/x.rs");
    }
    assert_eq!(join_path("/app", "/etc/x"), "/etc/x");
    assert_eq!(strip_base("/other/x", "/app"), "/other/x");
    assert_eq!(strip_base("/apple/x", "/app"), "/apple/x");
}

#[test]
fn the_reported_line_is_that_of_the_new_route() {
    let none = Vec::new();
    for src in [ROUTER, "#[derive(Routable)] enum Route { #[route(\"/\")] Home {}, }"] {
        match plan_route_insertion(src, "About", "/about", &none).unwrap() {
            RouteInsertion::Insert { new_src, line } => {
                let lines: Vec<&str> = new_src.lines().collect();
                assert_eq!(lines[line - 1], "    #[route(\"/about\")]");
                let mut routes = existing_route_paths(src);
                routes.push(("About".to_string(), "/about".to_string()));
                assert_eq!(existing_route_paths(&new_src), routes);
                let again = plan_route_insertion(&new_src, "About", "/about", &none);
                assert!(matches!(again, Ok(RouteInsertion::AlreadyMatches)));
            }
            RouteInsertion::AlreadyMatches => panic!("nothing was inserted"),
        }
    }
}
