//! A tour of a project: features, routes, components, assets, and what to do next.
use vstd::prelude::*;

use crate::order::{gather, holds, lemma_gather_contains, only_if, put, put_all};
use crate::text::{contains, decimal, decimal_usize, ends, join, joined, occurs, owned};

verus! {

#[derive(Debug)]
pub struct ProjectTourParams {
    /// The sections to show; all of them if absent.
    pub included: Option<Vec<String>>,
    /// Sections to leave out.
    pub exclude: Option<Vec<String>>,
    /// How many items a section shows at most; 50 if absent.
    pub max_items_per_section: Option<usize>,
    pub project_root: Option<String>,
}

pub ghost struct ProjectTourParamsView {
    pub included: Option<Seq<Seq<char>>>,
    pub exclude: Option<Seq<Seq<char>>>,
    pub max_items_per_section: Option<usize>,
    pub project_root: Option<Seq<char>>,
}

impl DeepView for ProjectTourParams {
    type V = ProjectTourParamsView;

    open spec fn deep_view(&self) -> ProjectTourParamsView {
        ProjectTourParamsView {
            included: self.included.deep_view(),
            exclude: self.exclude.deep_view(),
            max_items_per_section: self.max_items_per_section.deep_view(),
            project_root: self.project_root.deep_view(),
        }
    }
}

/// Something about the features of a project.
#[derive(Debug)]
pub struct AuditFinding {
    pub message: String,
}

pub ghost struct AuditFindingView {
    pub message: Seq<char>,
}

impl DeepView for AuditFinding {
    type V = AuditFindingView;

    open spec fn deep_view(&self) -> AuditFindingView {
        AuditFindingView {
            message: self.message@,
        }
    }
}

/// The features of a project.
#[derive(Debug)]
pub struct AuditReport {
    pub dioxus_version: Option<String>,
    pub dioxus_features: Vec<String>,
    pub findings: Vec<AuditFinding>,
}

pub ghost struct AuditReportView {
    pub dioxus_version: Option<Seq<char>>,
    pub dioxus_features: Seq<Seq<char>>,
    pub findings: Seq<AuditFindingView>,
}

impl DeepView for AuditReport {
    type V = AuditReportView;

    open spec fn deep_view(&self) -> AuditReportView {
        AuditReportView {
            dioxus_version: self.dioxus_version.deep_view(),
            dioxus_features: self.dioxus_features.deep_view(),
            findings: self.findings.deep_view(),
        }
    }
}

/// A route and what it shows.
#[derive(Debug)]
pub struct RouteEntry {
    pub full_path: String,
    pub component: String,
}

pub ghost struct RouteEntryView {
    pub full_path: Seq<char>,
    pub component: Seq<char>,
}

impl DeepView for RouteEntry {
    type V = RouteEntryView;

    open spec fn deep_view(&self) -> RouteEntryView {
        RouteEntryView {
            full_path: self.full_path@,
            component: self.component@,
        }
    }
}

/// The routes of a project.
#[derive(Debug)]
pub struct RouteMapReport {
    /// The name of the enum that lists them.
    pub enum_name: String,
    pub routes: Vec<RouteEntry>,
}

pub ghost struct RouteMapReportView {
    pub enum_name: Seq<char>,
    pub routes: Seq<RouteEntryView>,
}

impl DeepView for RouteMapReport {
    type V = RouteMapReportView;

    open spec fn deep_view(&self) -> RouteMapReportView {
        RouteMapReportView {
            enum_name: self.enum_name@,
            routes: self.routes.deep_view(),
        }
    }
}

/// The components and server functions of a project, by name.
#[derive(Debug)]
pub struct ProjectIndexReport {
    pub components: Vec<String>,
    pub server_fns: Vec<String>,
}

pub ghost struct ProjectIndexReportView {
    pub components: Seq<Seq<char>>,
    pub server_fns: Seq<Seq<char>>,
}

impl DeepView for ProjectIndexReport {
    type V = ProjectIndexReportView;

    open spec fn deep_view(&self) -> ProjectIndexReportView {
        ProjectIndexReportView {
            components: self.components.deep_view(),
            server_fns: self.server_fns.deep_view(),
        }
    }
}

/// The assets of a project.
#[derive(Debug)]
pub struct AssetAuditReport {
    pub total_files: usize,
    pub referenced_count: usize,
    pub unreferenced_files: Vec<String>,
    pub missing_assets: Vec<String>,
}

pub ghost struct AssetAuditReportView {
    pub total_files: usize,
    pub referenced_count: usize,
    pub unreferenced_files: Seq<Seq<char>>,
    pub missing_assets: Seq<Seq<char>>,
}

impl DeepView for AssetAuditReport {
    type V = AssetAuditReportView;

    open spec fn deep_view(&self) -> AssetAuditReportView {
        AssetAuditReportView {
            total_files: self.total_files,
            referenced_count: self.referenced_count,
            unreferenced_files: self.unreferenced_files.deep_view(),
            missing_assets: self.missing_assets.deep_view(),
        }
    }
}

/// Which sections show less than there is.
#[derive(Debug)]
pub struct TruncationFlags {
    pub routes: bool,
    pub components: bool,
    pub server_fns: bool,
    pub unreferenced_assets: bool,
}

pub ghost struct TruncationFlagsView {
    pub routes: bool,
    pub components: bool,
    pub server_fns: bool,
    pub unreferenced_assets: bool,
}

impl DeepView for TruncationFlags {
    type V = TruncationFlagsView;

    open spec fn deep_view(&self) -> TruncationFlagsView {
        TruncationFlagsView {
            routes: self.routes,
            components: self.components,
            server_fns: self.server_fns,
            unreferenced_assets: self.unreferenced_assets,
        }
    }
}

/// Something to do next.
#[derive(Debug)]
pub struct NextAction {
    pub title: String,
    /// Why.
    pub reason: String,
    /// How.
    pub hint: String,
}

pub ghost struct NextActionView {
    pub title: Seq<char>,
    pub reason: Seq<char>,
    pub hint: Seq<char>,
}

impl DeepView for NextAction {
    type V = NextActionView;

    open spec fn deep_view(&self) -> NextActionView {
        NextActionView {
            title: self.title@,
            reason: self.reason@,
            hint: self.hint@,
        }
    }
}

#[derive(Debug)]
pub struct ProjectTourReport {
    pub summary: String,
    pub audit: Option<AuditReport>,
    pub routes: Option<RouteMapReport>,
    pub index: Option<ProjectIndexReport>,
    pub assets: Option<AssetAuditReport>,
    pub truncated: TruncationFlags,
    pub next_actions: Vec<NextAction>,
}

pub ghost struct ProjectTourReportView {
    pub summary: Seq<char>,
    pub audit: Option<AuditReportView>,
    pub routes: Option<RouteMapReportView>,
    pub index: Option<ProjectIndexReportView>,
    pub assets: Option<AssetAuditReportView>,
    pub truncated: TruncationFlagsView,
    pub next_actions: Seq<NextActionView>,
}

impl DeepView for ProjectTourReport {
    type V = ProjectTourReportView;

    open spec fn deep_view(&self) -> ProjectTourReportView {
        ProjectTourReportView {
            summary: self.summary@,
            audit: self.audit.deep_view(),
            routes: self.routes.deep_view(),
            index: self.index.deep_view(),
            assets: self.assets.deep_view(),
            truncated: self.truncated.deep_view(),
            next_actions: self.next_actions.deep_view(),
        }
    }
}

// ---------------------------------------------------------------------------
// Sections
// ---------------------------------------------------------------------------

pub open spec fn lists(names: Option<Seq<Seq<char>>>, name: Seq<char>) -> bool {
    match names {
        Some(v) => v.contains(name),
        None => false,
    }
}

/// The section `name` is to be shown.
pub open spec fn wants(p: ProjectTourParamsView, name: Seq<char>) -> bool {
    (p.included is None || lists(p.included, name)) && !lists(p.exclude, name)
}

fn lists_name(names: &Option<Vec<String>>, name: &str) -> (r: bool)
    ensures
        r == lists(names.deep_view(), name@),
{
    match names {
        Some(v) => holds(v, name),
        None => false,
    }
}

/// Whether the section `name` is to be shown.
pub fn wanted(p: &ProjectTourParams, name: &str) -> (r: bool)
    ensures
        r == wants(p.deep_view(), name@),
{
    (p.included.is_none() || lists_name(&p.included, name)) && !lists_name(&p.exclude, name)
}

pub open spec fn limit(p: ProjectTourParamsView) -> usize {
    match p.max_items_per_section {
        Some(n) => n,
        None => 50,
    }
}

/// The first `max` elements of `s`, or all of them.
pub open spec fn cut<A>(s: Seq<A>, max: usize) -> Seq<A> {
    if s.len() > max {
        s.take(max as int)
    } else {
        s
    }
}

/// Cuts `v` to `max` elements, and says whether there were more.
fn cut_to<T: DeepView>(v: &mut Vec<T>, max: usize) -> (r: bool)
    ensures
        final(v).deep_view() == cut(old(v).deep_view(), max),
        r == (old(v).deep_view().len() > max),
{
    if v.len() > max {
        v.truncate(max);
        assert(v.deep_view() =~= cut(old(v).deep_view(), max));
        true
    } else {
        false
    }
}

pub open spec fn cut_routes(
    r: Option<RouteMapReportView>,
    max: usize,
) -> Option<RouteMapReportView> {
    match r {
        Some(x) => Some(
            RouteMapReportView { enum_name: x.enum_name, routes: cut(x.routes, max) },
        ),
        None => None,
    }
}

pub open spec fn cut_index(r: Option<ProjectIndexReportView>, max: usize) -> Option<
    ProjectIndexReportView,
> {
    match r {
        Some(x) => Some(
            ProjectIndexReportView {
                components: cut(x.components, max),
                server_fns: cut(x.server_fns, max),
            },
        ),
        None => None,
    }
}

pub open spec fn cut_assets(r: Option<AssetAuditReportView>, max: usize) -> Option<
    AssetAuditReportView,
> {
    match r {
        Some(x) => Some(
            AssetAuditReportView { unreferenced_files: cut(x.unreferenced_files, max), ..x },
        ),
        None => None,
    }
}

/// What is cut.
pub open spec fn flags(
    routes: Option<RouteMapReportView>,
    index: Option<ProjectIndexReportView>,
    assets: Option<AssetAuditReportView>,
    max: usize,
) -> TruncationFlagsView {
    TruncationFlagsView {
        routes: routes is Some && routes->0.routes.len() > max,
        components: index is Some && index->0.components.len() > max,
        server_fns: index is Some && index->0.server_fns.len() > max,
        unreferenced_assets: assets is Some && assets->0.unreferenced_files.len() > max,
    }
}

// ---------------------------------------------------------------------------
// Actions
// ---------------------------------------------------------------------------

pub open spec fn action(title: Seq<char>, reason: Seq<char>, hint: Seq<char>) -> NextActionView {
    NextActionView { title, reason, hint }
}

/// What a finding calls for, by its message. Only what has an obvious remedy calls
/// for something: to pick a render target, for one, is left to the reader.
pub open spec fn remedy(msg: Seq<char>) -> Option<NextActionView> {
    if occurs(msg, "`fullstack` is enabled but `web` is not"@) {
        Some(
            action(
                "Enable `web` on the dioxus dep"@,
                msg,
                "Cargo.toml: add `\"web\"` to the dioxus dep's features array"@,
            ),
        )
    } else if occurs(msg, "`fullstack` is enabled but `server` is not"@) {
        Some(
            action(
                "Enable `server` on the dioxus dep"@,
                msg,
                "Cargo.toml: add `\"server\"` to the dioxus dep's features array"@,
            ),
        )
    } else if occurs(msg, "multiple render targets enabled simultaneously without `fullstack`"@) {
        Some(
            action(
                "Resolve render-target conflict"@,
                msg,
                "Cargo.toml: keep exactly one of web/desktop/mobile on the dioxus dep, or switch to `\"fullstack\"`"@,
            ),
        )
    } else if occurs(msg, "activates both render targets at once"@) {
        Some(
            action(
                "Trim the [features] default"@,
                msg,
                "Cargo.toml: set `default = [\"web\"]` (or `[\"server\"]`) and pass the other via `--features` when needed"@,
            ),
        )
    } else {
        None
    }
}

fn action_of(title: &str, reason: &str, hint: &str) -> (r: NextAction)
    ensures
        r.deep_view() == action(title@, reason@, hint@),
{
    NextAction { title: owned(title), reason: owned(reason), hint: owned(hint) }
}

fn remedy_of(msg: &str) -> (r: Option<NextAction>)
    ensures
        r.deep_view() == remedy(msg@),
{
    if contains(msg, "`fullstack` is enabled but `web` is not") {
        Some(
            action_of(
                "Enable `web` on the dioxus dep",
                msg,
                "Cargo.toml: add `\"web\"` to the dioxus dep's features array",
            ),
        )
    } else if contains(msg, "`fullstack` is enabled but `server` is not") {
        Some(
            action_of(
                "Enable `server` on the dioxus dep",
                msg,
                "Cargo.toml: add `\"server\"` to the dioxus dep's features array",
            ),
        )
    } else if contains(msg, "multiple render targets enabled simultaneously without `fullstack`") {
        Some(
            action_of(
                "Resolve render-target conflict",
                msg,
                "Cargo.toml: keep exactly one of web/desktop/mobile on the dioxus dep, or switch to `\"fullstack\"`",
            ),
        )
    } else if contains(msg, "activates both render targets at once") {
        Some(
            action_of(
                "Trim the [features] default",
                msg,
                "Cargo.toml: set `default = [\"web\"]` (or `[\"server\"]`) and pass the other via `--features` when needed",
            ),
        )
    } else {
        None
    }
}

pub open spec fn remedy_at(fs: Seq<AuditFindingView>) -> spec_fn(int) -> Seq<NextActionView> {
    |k: int|
        match remedy(fs[k].message) {
            Some(a) => seq![a],
            None => Seq::empty(),
        }
}

/// A project without components and server functions.
pub open spec fn bare(index: Option<ProjectIndexReportView>) -> bool {
    index is Some && index->0.components.len() == 0 && index->0.server_fns.len() == 0
}

/// What findings call for, and a start where there is nothing yet.
pub open spec fn actions(
    audit: Option<AuditReportView>,
    index: Option<ProjectIndexReportView>,
) -> Seq<NextActionView> {
    let remedies = match audit {
        Some(a) => gather(0, a.findings.len() as int, remedy_at(a.findings)),
        None => Seq::empty(),
    };
    remedies + only_if(
        bare(index),
        action(
            "Scaffold a starting slice"@,
            "no components or server fns yet"@,
            "call `get_dsl_spec { index_only: true }`, pick the primitives you need (model + client_store + screen, or a resource bundle), then call `execute_code` with the YAML"@,
        ),
    )
}

fn is_bare(index: &Option<ProjectIndexReport>) -> (r: bool)
    ensures
        r == bare(index.deep_view()),
{
    match index {
        Some(i) => i.components.len() == 0 && i.server_fns.len() == 0,
        None => false,
    }
}

fn remedies_of(fs: &Vec<AuditFinding>) -> (r: Vec<NextAction>)
    ensures
        r.deep_view() == gather(0, fs@.len() as int, remedy_at(fs.deep_view())),
{
    let ghost v = fs.deep_view();
    let mut out: Vec<NextAction> = Vec::new();
    let mut k: usize = 0;
    while k < fs.len()
        invariant
            k <= fs.len(),
            v == fs.deep_view(),
            out.deep_view() == gather(0, k as int, remedy_at(v)),
        decreases fs.len() - k,
    {
        assert(v[k as int] == fs@[k as int].deep_view());
        match remedy_of(fs[k].message.as_str()) {
            Some(a) => put(&mut out, a),
            None => {},
        }
        k += 1;
    }
    out
}

pub fn derive_next_actions(
    audit: &Option<AuditReport>,
    index: &Option<ProjectIndexReport>,
) -> (r: Vec<NextAction>)
    ensures
        r.deep_view() == actions(audit.deep_view(), index.deep_view()),
{
    let mut out: Vec<NextAction> = Vec::new();
    match audit {
        Some(a) => put_all(&mut out, remedies_of(&a.findings)),
        None => {},
    }
    if is_bare(index) {
        put(
            &mut out,
            action_of(
                "Scaffold a starting slice",
                "no components or server fns yet",
                "call `get_dsl_spec { index_only: true }`, pick the primitives you need (model + client_store + screen, or a resource bundle), then call `execute_code` with the YAML",
            ),
        );
    }
    assert(out.deep_view() =~= actions(audit.deep_view(), index.deep_view()));
    out
}

// ---------------------------------------------------------------------------
// The summary
// ---------------------------------------------------------------------------

pub open spec fn audit_row(version: Seq<char>, features: Seq<char>) -> Seq<char> {
    "**Dioxus**: "@
        + version
        + " | platform features: "@
        + features
        + "\n"@
}

fn audit_row_of(version: &str, features: &str) -> (r: String)
    ensures
        r@ == audit_row(version@, features@),
{
    let mut s = owned("**Dioxus**: ");
    s.append(version);
    s.append(" | platform features: ");
    s.append(features);
    s.append("\n");
    s
}

pub open spec fn findings_row(n: nat) -> Seq<char> {
    "- audit findings: "@
        + decimal(n)
        + "\n"@
}

fn findings_row_of(n: usize) -> (r: String)
    ensures
        r@ == findings_row(n as nat),
{
    let mut s = owned("- audit findings: ");
    s.append(decimal_usize(n).as_str());
    s.append("\n");
    s
}

pub open spec fn routes_row(n: nat, suffix: Seq<char>, name: Seq<char>) -> Seq<char> {
    "**Routes** ("@
        + decimal(n)
        + suffix
        + "): enum `"@
        + name
        + "`\n"@
}

fn routes_row_of(n: usize, suffix: &str, name: &str) -> (r: String)
    ensures
        r@ == routes_row(n as nat, suffix@, name@),
{
    let mut s = owned("**Routes** (");
    s.append(decimal_usize(n).as_str());
    s.append(suffix);
    s.append("): enum `");
    s.append(name);
    s.append("`\n");
    s
}

pub open spec fn route_row(path: Seq<char>, component: Seq<char>) -> Seq<char> {
    "  - `"@
        + path
        + "` → `"@
        + component
        + "`\n"@
}

fn route_row_of(path: &str, component: &str) -> (r: String)
    ensures
        r@ == route_row(path@, component@),
{
    let mut s = owned("  - `");
    s.append(path);
    s.append("` → `");
    s.append(component);
    s.append("`\n");
    s
}

pub open spec fn index_row(c: nat, cs: Seq<char>, f: nat, fs: Seq<char>) -> Seq<char> {
    "**Components**: "@
        + decimal(c)
        + cs
        + " | **Server fns**: "@
        + decimal(f)
        + fs
        + "\n"@
}

fn index_row_of(c: usize, cs: &str, f: usize, fs: &str) -> (r: String)
    ensures
        r@ == index_row(c as nat, cs@, f as nat, fs@),
{
    let mut s = owned("**Components**: ");
    s.append(decimal_usize(c).as_str());
    s.append(cs);
    s.append(" | **Server fns**: ");
    s.append(decimal_usize(f).as_str());
    s.append(fs);
    s.append("\n");
    s
}

pub open spec fn assets_row(
    total: nat,
    used: nat,
    unused: nat,
    suffix: Seq<char>,
    missing: nat,
) -> Seq<char> {
    "**Assets**: "@
        + decimal(total)
        + " files, "@
        + decimal(used)
        + " referenced, "@
        + decimal(unused)
        + " unreferenced"@
        + suffix
        + ", "@
        + decimal(missing)
        + " missing\n"@
}

fn assets_row_of(
    total: usize,
    used: usize,
    unused: usize,
    suffix: &str,
    missing: usize,
) -> (r: String)
    ensures
        r@ == assets_row(total as nat, used as nat, unused as nat, suffix@, missing as nat),
{
    let mut s = owned("**Assets**: ");
    s.append(decimal_usize(total).as_str());
    s.append(" files, ");
    s.append(decimal_usize(used).as_str());
    s.append(" referenced, ");
    s.append(decimal_usize(unused).as_str());
    s.append(" unreferenced");
    s.append(suffix);
    s.append(", ");
    s.append(decimal_usize(missing).as_str());
    s.append(" missing\n");
    s
}

pub open spec fn empty_row() -> Seq<char> {
    "\n> This project has no components or server fns yet. To scaffold anything in a Dioxus 0.7 project — a model, a screen, a server fn, or a full CRUD slice (model + store + server fns + screens) — call `get_dsl_spec` then `execute_code`.\n"@
}

fn empty_row_of() -> (r: String)
    ensures
        r@ == empty_row(),
{
    let s = owned("\n> This project has no components or server fns yet. To scaffold anything in a Dioxus 0.7 project — a model, a screen, a server fn, or a full CRUD slice (model + store + server fns + screens) — call `get_dsl_spec` then `execute_code`.\n");
    s
}

pub open spec fn actions_row(n: nat) -> Seq<char> {
    "\n**Next actions** ("@
        + decimal(n)
        + "): see `next_actions` for paste-ready hints.\n"@
}

fn actions_row_of(n: usize) -> (r: String)
    ensures
        r@ == actions_row(n as nat),
{
    let mut s = owned("\n**Next actions** (");
    s.append(decimal_usize(n).as_str());
    s.append("): see `next_actions` for paste-ready hints.\n");
    s
}

pub open spec fn suffix(cut: bool) -> Seq<char> {
    if cut {
        " (truncated)"@
    } else {
        ""@
    }
}

fn suffix_of(cut: bool) -> (r: &'static str)
    ensures
        r@ == suffix(cut),
{
    if cut {
        " (truncated)"
    } else {
        ""
    }
}

pub open spec fn audit_text(a: Option<AuditReportView>) -> Seq<char> {
    match a {
        Some(a) => {
            let version = match a.dioxus_version {
                Some(v) => v,
                None => "?"@,
            };
            let features = if a.dioxus_features.len() == 0 {
                "(none)"@
            } else {
                joined(a.dioxus_features, ", "@)
            };
            let row = audit_row(version, features);
            if a.findings.len() > 0 {
                row + findings_row(a.findings.len())
            } else {
                row
            }
        },
        None => ""@,
    }
}

fn audit_text_of(audit: &Option<AuditReport>) -> (r: String)
    ensures
        r@ == audit_text(audit.deep_view()),
{
    match audit {
        Some(a) => {
            let version = match &a.dioxus_version {
                Some(v) => owned(v.as_str()),
                None => owned("?"),
            };
            let features = if a.dioxus_features.len() == 0 {
                owned("(none)")
            } else {
                join(&a.dioxus_features, ", ")
            };
            let mut out = audit_row_of(version.as_str(), features.as_str());
            if a.findings.len() > 0 {
                out.append(findings_row_of(a.findings.len()).as_str());
            }
            out
        },
        None => owned(""),
    }
}

/// The rows on the first `n` routes.
pub open spec fn route_rows(rs: Seq<RouteEntryView>, n: int) -> Seq<char>
    decreases n,
{
    if n <= 0 {
        Seq::empty()
    } else {
        route_rows(rs, n - 1) + route_row(rs[n - 1].full_path, rs[n - 1].component)
    }
}

/// The routes, ten of them at most.
pub open spec fn routes_text(r: Option<RouteMapReportView>, cut: bool) -> Seq<char> {
    match r {
        Some(r) => routes_row(r.routes.len(), suffix(cut), r.enum_name) + route_rows(
            r.routes,
            if r.routes.len() < 10 {
                r.routes.len() as int
            } else {
                10
            },
        ),
        None => ""@,
    }
}

fn routes_text_of(routes: &Option<RouteMapReport>, cut: bool) -> (r: String)
    ensures
        r@ == routes_text(routes.deep_view(), cut),
{
    match routes {
        Some(x) => {
            let ghost v = x.routes.deep_view();
            let mut out = routes_row_of(x.routes.len(), suffix_of(cut), x.enum_name.as_str());
            let ghost head = out@;
            let n: usize = if x.routes.len() < 10 {
                x.routes.len()
            } else {
                10
            };
            let mut k: usize = 0;
            assert(out@ =~= head + route_rows(v, 0));
            while k < n
                invariant
                    k <= n <= x.routes.len(),
                    v == x.routes.deep_view(),
                    out@ == head + route_rows(v, k as int),
                decreases n - k,
            {
                assert(v[k as int] == x.routes@[k as int].deep_view());
                let row = route_row_of(
                    x.routes[k].full_path.as_str(),
                    x.routes[k].component.as_str(),
                );
                out.append(row.as_str());
                assert(out@ =~= head + route_rows(v, k + 1));
                k += 1;
            }
            out
        },
        None => owned(""),
    }
}

pub open spec fn index_text(
    i: Option<ProjectIndexReportView>,
    t: TruncationFlagsView,
) -> Seq<char> {
    match i {
        Some(i) => index_row(
            i.components.len(),
            suffix(t.components),
            i.server_fns.len(),
            suffix(t.server_fns),
        ),
        None => ""@,
    }
}

pub open spec fn assets_text(a: Option<AssetAuditReportView>, cut: bool) -> Seq<char> {
    match a {
        Some(a) => assets_row(
            a.total_files as nat,
            a.referenced_count as nat,
            a.unreferenced_files.len(),
            suffix(cut),
            a.missing_assets.len(),
        ),
        None => ""@,
    }
}

/// A tour in Markdown, up to what is to be done next.
pub open spec fn facts(
    audit: Option<AuditReportView>,
    routes: Option<RouteMapReportView>,
    index: Option<ProjectIndexReportView>,
    assets: Option<AssetAuditReportView>,
    t: TruncationFlagsView,
) -> Seq<char> {
    let start = if bare(index) {
        empty_row()
    } else {
        ""@
    };
    "# Project tour\n\n"@ + audit_text(audit) + routes_text(routes, t.routes) + index_text(index, t)
        + assets_text(assets, t.unreferenced_assets) + start
}

/// A tour in Markdown.
pub open spec fn rendered(
    audit: Option<AuditReportView>,
    routes: Option<RouteMapReportView>,
    index: Option<ProjectIndexReportView>,
    assets: Option<AssetAuditReportView>,
    t: TruncationFlagsView,
) -> Seq<char> {
    let next = if actions(audit, index).len() > 0 {
        actions_row(actions(audit, index).len())
    } else {
        ""@
    };
    facts(audit, routes, index, assets, t) + next
}

/// A tour ends with a row on the next actions exactly if there are any, and the row
/// tells how many. Left out are facts that spell such a row themselves, as the name
/// of a feature could.
pub proof fn law_next_actions_row(
    audit: Option<AuditReportView>,
    routes: Option<RouteMapReportView>,
    index: Option<ProjectIndexReportView>,
    assets: Option<AssetAuditReportView>,
    t: TruncationFlagsView,
)
    requires
        !ends(facts(audit, routes, index, assets, t), actions_row(0)),
    ensures
        actions(audit, index).len() > 0 <==> ends(
            rendered(audit, routes, index, assets, t),
            actions_row(actions(audit, index).len()),
        ),
{
    let f = facts(audit, routes, index, assets, t);
    let n = actions(audit, index).len();
    let row = actions_row(n);
    if n > 0 {
        assert((f + row).subrange(f.len() as int, (f + row).len() as int) =~= row);
    } else {
        reveal_strlit("");
        assert(f + ""@ =~= f);
    }
}

/// Of the routes the first ten are listed at most: what the others are makes no
/// difference.
pub proof fn law_ten_routes(a: RouteMapReportView, b: RouteMapReportView, cut: bool)
    requires
        a.enum_name == b.enum_name,
        a.routes.len() == b.routes.len(),
        forall|k: int| 0 <= k < a.routes.len() && k < 10 ==> #[trigger] a.routes[k] == b.routes[k],
    ensures
        routes_text(Some(a), cut) == routes_text(Some(b), cut),
{
    lemma_same_rows(
        a.routes,
        b.routes,
        if a.routes.len() < 10 {
            a.routes.len() as int
        } else {
            10
        },
    );
}

proof fn lemma_same_rows(a: Seq<RouteEntryView>, b: Seq<RouteEntryView>, n: int)
    requires
        n <= a.len(),
        n <= b.len(),
        forall|k: int| 0 <= k < n ==> #[trigger] a[k] == b[k],
    ensures
        route_rows(a, n) == route_rows(b, n),
    decreases n,
{
    if n > 0 {
        lemma_same_rows(a, b, n - 1);
        assert(a[n - 1] == b[n - 1]);
    }
}

pub fn render_summary(
    audit: &Option<AuditReport>,
    routes: &Option<RouteMapReport>,
    index: &Option<ProjectIndexReport>,
    assets: &Option<AssetAuditReport>,
    trunc: &TruncationFlags,
) -> (r: String)
    ensures
        r@ == rendered(
            audit.deep_view(),
            routes.deep_view(),
            index.deep_view(),
            assets.deep_view(),
            trunc.deep_view(),
        ),
{
    let mut out = owned("# Project tour\n\n");
    out.append(audit_text_of(audit).as_str());
    out.append(routes_text_of(routes, trunc.routes).as_str());
    let counts = match index {
        Some(i) => index_row_of(
            i.components.len(),
            suffix_of(trunc.components),
            i.server_fns.len(),
            suffix_of(trunc.server_fns),
        ),
        None => owned(""),
    };
    out.append(counts.as_str());
    let files = match assets {
        Some(a) => assets_row_of(
            a.total_files,
            a.referenced_count,
            a.unreferenced_files.len(),
            suffix_of(trunc.unreferenced_assets),
            a.missing_assets.len(),
        ),
        None => owned(""),
    };
    out.append(files.as_str());
    let start = if is_bare(index) {
        empty_row_of()
    } else {
        owned("")
    };
    out.append(start.as_str());
    let n = derive_next_actions(audit, index).len();
    let next = if n > 0 {
        actions_row_of(n)
    } else {
        owned("")
    };
    out.append(next.as_str());
    out
}

// ---------------------------------------------------------------------------
// The tour
// ---------------------------------------------------------------------------

pub open spec fn kept<A>(c: bool, a: Option<A>) -> Option<A> {
    if c {
        a
    } else {
        None
    }
}

fn keep<T: DeepView>(c: bool, x: Option<T>) -> (r: Option<T>)
    ensures
        r.deep_view() == kept(c, x.deep_view()),
{
    if c {
        x
    } else {
        None
    }
}

/// The tour of a project, given what each section has.
pub open spec fn tour(
    p: ProjectTourParamsView,
    audit: Option<AuditReportView>,
    routes: Option<RouteMapReportView>,
    index: Option<ProjectIndexReportView>,
    assets: Option<AssetAuditReportView>,
) -> ProjectTourReportView {
    let max = limit(p);
    let a = kept(wants(p, "audit"@), audit);
    let r0 = kept(wants(p, "routes"@), routes);
    let i0 = kept(wants(p, "index"@), index);
    let s0 = kept(wants(p, "assets"@), assets);
    let t = flags(r0, i0, s0, max);
    let r = cut_routes(r0, max);
    let i = cut_index(i0, max);
    let s = cut_assets(s0, max);
    ProjectTourReportView {
        summary: rendered(a, r, i, s, t),
        audit: a,
        routes: r,
        index: i,
        assets: s,
        truncated: t,
        next_actions: actions(a, i),
    }
}

fn cut_routes_of(r: Option<RouteMapReport>, max: usize) -> (x: (Option<RouteMapReport>, bool))
    ensures
        x.0.deep_view() == cut_routes(r.deep_view(), max),
        x.1 == (r is Some && r->0.routes.deep_view().len() > max),
{
    match r {
        Some(x) => {
            let mut routes = x.routes;
            let more = cut_to(&mut routes, max);
            (Some(RouteMapReport { enum_name: x.enum_name, routes }), more)
        },
        None => (None, false),
    }
}

fn cut_index_of(r: Option<ProjectIndexReport>, max: usize) -> (x: (
    Option<ProjectIndexReport>,
    bool,
    bool,
))
    ensures
        x.0.deep_view() == cut_index(r.deep_view(), max),
        x.1 == (r is Some && r->0.components.deep_view().len() > max),
        x.2 == (r is Some && r->0.server_fns.deep_view().len() > max),
{
    match r {
        Some(x) => {
            let mut components = x.components;
            let mut server_fns = x.server_fns;
            let more = cut_to(&mut components, max);
            let more_fns = cut_to(&mut server_fns, max);
            (Some(ProjectIndexReport { components, server_fns }), more, more_fns)
        },
        None => (None, false, false),
    }
}

fn cut_assets_of(r: Option<AssetAuditReport>, max: usize) -> (x: (Option<AssetAuditReport>, bool))
    ensures
        x.0.deep_view() == cut_assets(r.deep_view(), max),
        x.1 == (r is Some && r->0.unreferenced_files.deep_view().len() > max),
{
    match r {
        Some(x) => {
            let mut unreferenced_files = x.unreferenced_files;
            let more = cut_to(&mut unreferenced_files, max);
            (
                Some(
                    AssetAuditReport {
                        total_files: x.total_files,
                        referenced_count: x.referenced_count,
                        unreferenced_files,
                        missing_assets: x.missing_assets,
                    },
                ),
                more,
            )
        },
        None => (None, false),
    }
}

/// The tour of a project. The sections are what was found of each, where it was.
pub fn project_tour(
    p: &ProjectTourParams,
    audit: Option<AuditReport>,
    routes: Option<RouteMapReport>,
    index: Option<ProjectIndexReport>,
    assets: Option<AssetAuditReport>,
) -> (r: ProjectTourReport)
    ensures
        r.deep_view() == tour(
            p.deep_view(),
            audit.deep_view(),
            routes.deep_view(),
            index.deep_view(),
            assets.deep_view(),
        ),
{
    let max: usize = match p.max_items_per_section {
        Some(n) => n,
        None => 50,
    };
    let audit = keep(wanted(p, "audit"), audit);
    let routes = keep(wanted(p, "routes"), routes);
    let index = keep(wanted(p, "index"), index);
    let assets = keep(wanted(p, "assets"), assets);
    let (routes, more_routes) = cut_routes_of(routes, max);
    let (index, more_components, more_fns) = cut_index_of(index, max);
    let (assets, more_assets) = cut_assets_of(assets, max);
    let truncated = TruncationFlags {
        routes: more_routes,
        components: more_components,
        server_fns: more_fns,
        unreferenced_assets: more_assets,
    };
    let summary = render_summary(&audit, &routes, &index, &assets, &truncated);
    let next_actions = derive_next_actions(&audit, &index);
    ProjectTourReport { summary, audit, routes, index, assets, truncated, next_actions }
}

/// No section of a tour shows more than the limit, and a flag is up exactly if
/// there is more to the section.
pub proof fn law_limit(
    p: ProjectTourParamsView,
    audit: Option<AuditReportView>,
    routes: Option<RouteMapReportView>,
    index: Option<ProjectIndexReportView>,
    assets: Option<AssetAuditReportView>,
)
    ensures
        ({
            let r = tour(p, audit, routes, index, assets);
            let max = limit(p);
            &&& r.routes matches Some(x) ==> x.routes.len() <= max
            &&& r.index matches Some(x) ==> x.components.len() <= max && x.server_fns.len() <= max
            &&& r.assets matches Some(x) ==> x.unreferenced_files.len() <= max
            &&& r.truncated.routes <==> r.routes is Some && r.routes->0.routes.len()
                < routes->0.routes.len()
            &&& r.truncated.components <==> r.index is Some && r.index->0.components.len()
                < index->0.components.len()
            &&& r.truncated.server_fns <==> r.index is Some && r.index->0.server_fns.len()
                < index->0.server_fns.len()
            &&& r.truncated.unreferenced_assets <==> r.assets is Some
                && r.assets->0.unreferenced_files.len() < assets->0.unreferenced_files.len()
        }),
{
}

/// A section that is left out is not shown, and one that is wanted is shown
/// exactly if there is one.
pub proof fn law_sections(
    p: ProjectTourParamsView,
    audit: Option<AuditReportView>,
    routes: Option<RouteMapReportView>,
    index: Option<ProjectIndexReportView>,
    assets: Option<AssetAuditReportView>,
)
    ensures
        ({
            let r = tour(p, audit, routes, index, assets);
            &&& r.audit is Some <==> wants(p, "audit"@) && audit is Some
            &&& r.routes is Some <==> wants(p, "routes"@) && routes is Some
            &&& r.index is Some <==> wants(p, "index"@) && index is Some
            &&& r.assets is Some <==> wants(p, "assets"@) && assets is Some
        }),
{
}

/// A section is cut to its first entries, fifty if no number is asked for: those that
/// are left are the first of what was there, and nothing is cut that fits.
pub proof fn law_first_entries_stay(
    p: ProjectTourParamsView,
    audit: Option<AuditReportView>,
    routes: Option<RouteMapReportView>,
    index: Option<ProjectIndexReportView>,
    assets: Option<AssetAuditReportView>,
)
    ensures
        ({
            let r = tour(p, audit, routes, index, assets);
            let max = match p.max_items_per_section {
                Some(n) => n as int,
                None => 50,
            };
            &&& r.audit is Some ==> r.audit == audit
            &&& r.routes matches Some(x) ==> routes is Some && x.enum_name == routes->0.enum_name
                && first_of(x.routes, routes->0.routes, max)
            &&& r.index matches Some(x) ==> index is Some && first_of(
                x.components,
                index->0.components,
                max,
            ) && first_of(x.server_fns, index->0.server_fns, max)
            &&& r.assets matches Some(x) ==> assets is Some && first_of(
                x.unreferenced_files,
                assets->0.unreferenced_files,
                max,
            ) && x.missing_assets == assets->0.missing_assets && x.total_files
                == assets->0.total_files && x.referenced_count == assets->0.referenced_count
        }),
{
}

/// `a` holds the first entries of `b`, as many as `max` at most.
pub open spec fn first_of<A>(a: Seq<A>, b: Seq<A>, max: int) -> bool {
    &&& a.len() == if b.len() <= max {
        b.len() as int
    } else {
        max
    }
    &&& forall|k: int| 0 <= k < a.len() ==> #[trigger] a[k] == b[k]
}

/// A section is shown if it is asked for by name, or nothing is, and it is not left out
/// by name.
pub proof fn law_shown_sections(
    p: ProjectTourParamsView,
    audit: AuditReportView,
    routes: RouteMapReportView,
    index: ProjectIndexReportView,
    assets: AssetAuditReportView,
)
    ensures
        ({
            let r = tour(p, Some(audit), Some(routes), Some(index), Some(assets));
            &&& r.audit is Some <==> asked_for(p, "audit"@)
            &&& r.routes is Some <==> asked_for(p, "routes"@)
            &&& r.index is Some <==> asked_for(p, "index"@)
            &&& r.assets is Some <==> asked_for(p, "assets"@)
        }),
{
}

/// The section `name` is asked for.
pub open spec fn asked_for(p: ProjectTourParamsView, name: Seq<char>) -> bool {
    &&& p.included matches Some(v) ==> v.contains(name)
    &&& p.exclude matches Some(v) ==> !v.contains(name)
}

/// A finding of the audit that says what is wrong with the features leads to the action
/// that mends it.
pub proof fn law_finding_leads_to_action(
    p: ProjectTourParamsView,
    audit: AuditReportView,
    routes: Option<RouteMapReportView>,
    index: Option<ProjectIndexReportView>,
    assets: Option<AssetAuditReportView>,
    k: int,
    title: Seq<char>,
)
    requires
        asked_for(p, "audit"@),
        0 <= k < audit.findings.len(),
        ({
            let msg = audit.findings[k].message;
            let no_web = occurs(msg, "`fullstack` is enabled but `web` is not"@);
            let no_server = occurs(msg, "`fullstack` is enabled but `server` is not"@);
            let many = occurs(
                msg,
                "multiple render targets enabled simultaneously without `fullstack`"@,
            );
            let both = occurs(msg, "activates both render targets at once"@);
            ||| no_web && title == "Enable `web` on the dioxus dep"@
            ||| !no_web && no_server && title == "Enable `server` on the dioxus dep"@
            ||| !no_web && !no_server && many && title == "Resolve render-target conflict"@
            ||| !no_web && !no_server && !many && both && title == "Trim the [features] default"@
        }),
    ensures
        exists|a: NextActionView| #[trigger]
            tour(p, Some(audit), routes, index, assets).next_actions.contains(a) && a.title == title
                && a.reason == audit.findings[k].message,
{
    let i = tour(p, Some(audit), routes, index, assets).index;
    let rule = remedy_at(audit.findings);
    let a = rule(k)[0];
    assert(rule(k).contains(a));
    lemma_gather_contains(0, audit.findings.len() as int, rule, a);
    let remedies = gather(0, audit.findings.len() as int, rule);
    let all = actions(Some(audit), i);
    let n = choose|n: int| 0 <= n < remedies.len() && remedies[n] == a;
    assert(all[n] == a);
    assert(tour(p, Some(audit), routes, index, assets).next_actions.contains(a));
}

/// A project without components and without server functions is told to make a start,
/// and only such a project is.
pub proof fn law_start_is_suggested(
    p: ProjectTourParamsView,
    audit: Option<AuditReportView>,
    routes: Option<RouteMapReportView>,
    index: ProjectIndexReportView,
    assets: Option<AssetAuditReportView>,
)
    requires
        asked_for(p, "index"@),
        p.max_items_per_section != Some(0usize),
    ensures
        ({
            let next = tour(p, audit, routes, Some(index), assets).next_actions;
            &&& index.components.len() == 0 && index.server_fns.len() == 0 ==> next.len() > 0
                && next.last().title == "Scaffold a starting slice"@
            &&& (index.components.len() > 0 || index.server_fns.len() > 0) && audit is None
                ==> next.len() == 0
        }),
{
}

} // verus!
