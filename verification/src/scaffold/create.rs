//! Creating components, server functions and routes.
//!
//! Nothing here reads or writes files: the caller says what is there and gets
//! drafts of what to write.
use vstd::prelude::*;

use crate::scaffold::mods::{upsert_mod_entry, upserted, ModUpsert};
use crate::scaffold::names::{pascal_case, snake_case, to_pascal_case, to_snake_case};
use crate::paths::{join_path, path_join, path_within, strip_base};
use crate::scaffold::return_type::{check_inner_return_type, return_fault};
use crate::scaffold::routes::{plan_route_insertion, planned, RouteInsertion, RouteInsertionView};
use crate::scaffold::templates::{
    body_template, component_body_for, flag_var, flag_var_of, render, rendered, text_cell,
    text_cell_of, text_var, text_var_of, Cell, CellView, Plain, PlainView, Slot, SlotView, Var,
    VarView, COMPONENT_TPL, SERVER_FN_TPL,
};
use crate::lower::parsed;
use crate::order::{gather, holds, only_if, put, put_all, viewed};
use crate::text::{
    contains, debug, debug_text, decimal, decimal_usize, lower, occurs, owned, same, to_lower,
};

verus! {

pub open spec fn exists_already(path: Seq<char>) -> Seq<char> {
    path
        + " already exists"@
}

fn exists_already_of(path: &str) -> (r: String)
    ensures
        r@ == exists_already(path@),
{
    let mut s = owned(path);
    s.append(" already exists");
    s
}

pub open spec fn file_name(snake: Seq<char>) -> Seq<char> {
    snake
        + ".rs"@
}

fn file_name_of(snake: &str) -> (r: String)
    ensures
        r@ == file_name(snake@),
{
    let mut s = owned(snake);
    s.append(".rs");
    s
}

/// A prop of a new component.
#[derive(Debug, Clone)]
pub struct PropSpec {
    pub name: String,
    pub ty: String,
    pub optional: bool,
}

pub ghost struct PropSpecView {
    pub name: Seq<char>,
    pub ty: Seq<char>,
    pub optional: bool,
}

impl DeepView for PropSpec {
    type V = PropSpecView;

    open spec fn deep_view(&self) -> PropSpecView {
        PropSpecView {
            name: self.name@,
            ty: self.ty@,
            optional: self.optional,
        }
    }
}

/// A component to create.
#[derive(Debug, Clone)]
pub struct CreateComponentParams {
    /// In any case.
    pub name: String,
    pub props: Vec<PropSpec>,
    /// The directory under the crate root; `src/components` if none is given.
    pub path: Option<String>,
    /// What the component renders: `empty`, `form`, `list`, `crud_table` or
    /// `resource_view`; `empty` if none is given.
    pub template: Option<String>,
    pub project_root: Option<String>,
}

pub ghost struct CreateComponentParamsView {
    pub name: Seq<char>,
    pub props: Seq<PropSpecView>,
    pub path: Option<Seq<char>>,
    pub template: Option<Seq<char>>,
    pub project_root: Option<Seq<char>>,
}

impl DeepView for CreateComponentParams {
    type V = CreateComponentParamsView;

    open spec fn deep_view(&self) -> CreateComponentParamsView {
        CreateComponentParamsView {
            name: self.name@,
            props: self.props.deep_view(),
            path: self.path.deep_view(),
            template: self.template.deep_view(),
            project_root: self.project_root.deep_view(),
        }
    }
}

/// An argument of a new server function.
#[derive(Debug, Clone)]
pub struct ArgSpec {
    pub name: String,
    pub ty: String,
}

pub ghost struct ArgSpecView {
    pub name: Seq<char>,
    pub ty: Seq<char>,
}

impl DeepView for ArgSpec {
    type V = ArgSpecView;

    open spec fn deep_view(&self) -> ArgSpecView {
        ArgSpecView {
            name: self.name@,
            ty: self.ty@,
        }
    }
}

/// A server function to create.
#[derive(Debug, Clone)]
pub struct CreateServerFnParams {
    pub name: String,
    pub args: Vec<ArgSpec>,
    /// `String` if none is given.
    pub return_type: Option<String>,
    /// `get` or `post`; if none is given, `post` with arguments and `get` without.
    pub method: Option<String>,
    /// The route; `/api/` and the name if none is given.
    pub path: Option<String>,
    pub project_root: Option<String>,
}

pub ghost struct CreateServerFnParamsView {
    pub name: Seq<char>,
    pub args: Seq<ArgSpecView>,
    pub return_type: Option<Seq<char>>,
    pub method: Option<Seq<char>>,
    pub path: Option<Seq<char>>,
    pub project_root: Option<Seq<char>>,
}

impl DeepView for CreateServerFnParams {
    type V = CreateServerFnParamsView;

    open spec fn deep_view(&self) -> CreateServerFnParamsView {
        CreateServerFnParamsView {
            name: self.name@,
            args: self.args.deep_view(),
            return_type: self.return_type.deep_view(),
            method: self.method.deep_view(),
            path: self.path.deep_view(),
            project_root: self.project_root.deep_view(),
        }
    }
}

/// A route to create.
#[derive(Debug, Clone)]
pub struct CreateRouteParams {
    pub path: String,
    /// The component that the route renders.
    pub component: String,
    /// The file with the enum of the routes, under the crate root.
    pub router_file: Option<String>,
    pub project_root: Option<String>,
    /// The fields of the variant: names and types.
    pub params: Vec<(String, String)>,
}

pub ghost struct CreateRouteParamsView {
    pub path: Seq<char>,
    pub component: Seq<char>,
    pub router_file: Option<Seq<char>>,
    pub project_root: Option<Seq<char>>,
    pub params: Seq<(Seq<char>, Seq<char>)>,
}

impl DeepView for CreateRouteParams {
    type V = CreateRouteParamsView;

    open spec fn deep_view(&self) -> CreateRouteParamsView {
        CreateRouteParamsView {
            path: self.path@,
            component: self.component@,
            router_file: self.router_file.deep_view(),
            project_root: self.project_root.deep_view(),
            params: self.params.deep_view(),
        }
    }
}

/// A file as it would be written.
#[derive(Debug)]
pub struct Preview {
    pub path: String,
    pub text: String,
}

pub ghost struct PreviewView {
    pub path: Seq<char>,
    pub text: Seq<char>,
}

impl DeepView for Preview {
    type V = PreviewView;

    open spec fn deep_view(&self) -> PreviewView {
        PreviewView {
            path: self.path@,
            text: self.text@,
        }
    }
}

/// What scaffolding did, or would do.
#[derive(Debug)]
pub struct ScaffoldResult {
    pub files_created: Vec<String>,
    pub files_modified: Vec<String>,
    pub next_steps: Vec<String>,
    /// Files that were there already and were left alone.
    pub collisions: Vec<String>,
    pub would_create: Vec<String>,
    pub would_modify: Vec<String>,
    /// Whether this is a plan and nothing was written.
    pub dry_run: bool,
    /// `no_changes`, `partial` or `applied`.
    pub status: Option<String>,
    /// The file with the enum of the routes.
    pub routable_file: Option<String>,
    pub previews: Vec<Preview>,
}

pub ghost struct ScaffoldResultView {
    pub files_created: Seq<Seq<char>>,
    pub files_modified: Seq<Seq<char>>,
    pub next_steps: Seq<Seq<char>>,
    pub collisions: Seq<Seq<char>>,
    pub would_create: Seq<Seq<char>>,
    pub would_modify: Seq<Seq<char>>,
    pub dry_run: bool,
    pub status: Option<Seq<char>>,
    pub routable_file: Option<Seq<char>>,
    pub previews: Seq<PreviewView>,
}

impl DeepView for ScaffoldResult {
    type V = ScaffoldResultView;

    open spec fn deep_view(&self) -> ScaffoldResultView {
        ScaffoldResultView {
            files_created: self.files_created.deep_view(),
            files_modified: self.files_modified.deep_view(),
            next_steps: self.next_steps.deep_view(),
            collisions: self.collisions.deep_view(),
            would_create: self.would_create.deep_view(),
            would_modify: self.would_modify.deep_view(),
            dry_run: self.dry_run,
            status: self.status.deep_view(),
            routable_file: self.routable_file.deep_view(),
            previews: self.previews.deep_view(),
        }
    }
}

/// A result in which nothing happened.
pub open spec fn no_result() -> ScaffoldResultView {
    ScaffoldResultView {
        files_created: Seq::empty(),
        files_modified: Seq::empty(),
        next_steps: Seq::empty(),
        collisions: Seq::empty(),
        would_create: Seq::empty(),
        would_modify: Seq::empty(),
        dry_run: false,
        status: None,
        routable_file: None,
        previews: Seq::empty(),
    }
}

impl Default for ScaffoldResult {
    fn default() -> (r: Self)
        ensures
            r.deep_view() == no_result(),
    {
        let r = ScaffoldResult {
            files_created: Vec::new(),
            files_modified: Vec::new(),
            next_steps: Vec::new(),
            collisions: Vec::new(),
            would_create: Vec::new(),
            would_modify: Vec::new(),
            dry_run: false,
            status: None,
            routable_file: None,
            previews: Vec::new(),
        };
        assert(r.files_created.deep_view() =~= Seq::empty());
        assert(r.files_modified.deep_view() =~= Seq::empty());
        assert(r.next_steps.deep_view() =~= Seq::empty());
        assert(r.collisions.deep_view() =~= Seq::empty());
        assert(r.would_create.deep_view() =~= Seq::empty());
        assert(r.would_modify.deep_view() =~= Seq::empty());
        assert(r.previews.deep_view() =~= Seq::empty());
        r
    }
}

/// A new file, the `mod.rs` beside it, and what to tell about them.
#[derive(Debug)]
pub struct Draft {
    /// Where the new file goes.
    pub target: String,
    pub text: String,
    /// Where the `mod.rs` is.
    pub mod_rs: String,
    /// What the `mod.rs` is to hold.
    pub mod_text: String,
    /// Whether that differs from what it holds.
    pub mod_changed: bool,
    pub result: ScaffoldResult,
}

pub ghost struct DraftView {
    pub target: Seq<char>,
    pub text: Seq<char>,
    pub mod_rs: Seq<char>,
    pub mod_text: Seq<char>,
    pub mod_changed: bool,
    pub result: ScaffoldResultView,
}

impl DeepView for Draft {
    type V = DraftView;

    open spec fn deep_view(&self) -> DraftView {
        DraftView {
            target: self.target@,
            text: self.text@,
            mod_rs: self.mod_rs@,
            mod_text: self.mod_text@,
            mod_changed: self.mod_changed,
            result: self.result.deep_view(),
        }
    }
}

/// The draft of the file `target` with the text `text`, which is exported from
/// the `mod.rs` that holds `mods`.
pub open spec fn drafted(
    target: Seq<char>,
    text: Seq<char>,
    mod_rs: Seq<char>,
    mods: Option<Seq<char>>,
    name: Seq<char>,
    allow_unused: bool,
    next_steps: Seq<Seq<char>>,
) -> DraftView {
    let (change, mod_text) = upserted(mods, name, None, allow_unused);
    DraftView {
        target,
        text,
        mod_rs,
        mod_text,
        mod_changed: change != ModUpsert::Unchanged,
        result: ScaffoldResultView {
            files_created: if change == ModUpsert::Created {
                seq![target, mod_rs]
            } else {
                seq![target]
            },
            files_modified: only_if(change == ModUpsert::Modified, mod_rs),
            next_steps,
            ..no_result()
        },
    }
}

fn draft(
    target: &str,
    text: &str,
    mod_rs: &str,
    mods: Option<&str>,
    name: &str,
    allow_unused: bool,
    next_steps: Vec<String>,
) -> (r: Draft)
    ensures
        r.deep_view() == drafted(
            target@,
            text@,
            mod_rs@,
            mods.deep_view(),
            name@,
            allow_unused,
            next_steps.deep_view(),
        ),
{
    let (change, mod_text) = upsert_mod_entry(mods, name, None, allow_unused);
    let mut created: Vec<String> = Vec::new();
    put(&mut created, owned(target));
    if change == ModUpsert::Created {
        put(&mut created, owned(mod_rs));
    }
    let mut modified: Vec<String> = Vec::new();
    if change == ModUpsert::Modified {
        put(&mut modified, owned(mod_rs));
    }
    assert(created.deep_view() =~= if change == ModUpsert::Created {
        seq![target@, mod_rs@]
    } else {
        seq![target@]
    });
    assert(modified.deep_view() =~= only_if(change == ModUpsert::Modified, mod_rs@));
    Draft {
        target: owned(target),
        text: owned(text),
        mod_rs: owned(mod_rs),
        mod_text,
        mod_changed: change != ModUpsert::Unchanged,
        result: ScaffoldResult {
            files_created: created,
            files_modified: modified,
            next_steps,
            ..Default::default()
        },
    }
}

/// A draft of a file that is not there yet never modifies it, and the `mod.rs`
/// is reported exactly when it changes.
pub proof fn law_draft_reports(
    target: Seq<char>,
    text: Seq<char>,
    mod_rs: Seq<char>,
    mods: Option<Seq<char>>,
    name: Seq<char>,
    allow_unused: bool,
    next_steps: Seq<Seq<char>>,
)
    requires
        target != mod_rs,
    ensures
        ({
            let d = drafted(target, text, mod_rs, mods, name, allow_unused, next_steps);
            &&& d.result.files_created.contains(target)
            &&& !d.result.files_modified.contains(target)
            &&& d.mod_changed <==> d.result.files_created.contains(mod_rs)
                || d.result.files_modified.contains(mod_rs)
            &&& mods is None ==> d.result.files_created == seq![target, mod_rs]
        }),
{
    let d = drafted(target, text, mod_rs, mods, name, allow_unused, next_steps);
    assert(d.result.files_created[0] == target);
    let (change, _) = upserted(mods, name, None, allow_unused);
    if change == ModUpsert::Created {
        assert(d.result.files_created[1] == mod_rs);
    }
    if change == ModUpsert::Modified {
        assert(d.result.files_modified[0] == mod_rs);
    }
}

/// `x`, or `or` where there is none.
pub open spec fn text_or(x: Option<Seq<char>>, or: Seq<char>) -> Seq<char> {
    match x {
        Some(s) => s,
        None => or,
    }
}

fn text_or_else(x: &Option<String>, or: &str) -> (r: String)
    ensures
        r@ == text_or(x.deep_view(), or@),
{
    match x {
        Some(s) => owned(s.as_str()),
        None => owned(or),
    }
}

// ---------------------------------------------------------------------------
// Components
// ---------------------------------------------------------------------------

/// The directory of the components.
pub open spec fn components_dir(p: CreateComponentParamsView, crate_root: Seq<char>) -> Seq<char> {
    path_join(crate_root, text_or(p.path, "src/components"@))
}

pub fn component_dir(p: &CreateComponentParams, crate_root: &str) -> (r: String)
    ensures
        r@ == components_dir(p.deep_view(), crate_root@),
{
    join_path(crate_root, text_or_else(&p.path, "src/components").as_str())
}

/// The file of a component.
pub open spec fn component_target(
    p: CreateComponentParamsView,
    crate_root: Seq<char>,
) -> Seq<char> {
    path_join(components_dir(p, crate_root), file_name(snake_case(p.name)))
}

pub fn component_file(p: &CreateComponentParams, crate_root: &str) -> (r: String)
    ensures
        r@ == component_target(p.deep_view(), crate_root@),
{
    join_path(
        component_dir(p, crate_root).as_str(),
        file_name_of(to_snake_case(p.name.as_str()).as_str()).as_str(),
    )
}

/// The variables of a component's body.
pub open spec fn body_vars(pascal: Seq<char>, snake: Seq<char>) -> Seq<VarView> {
    seq![text_var("pascal"@, pascal), text_var("snake"@, snake)]
}

pub fn body_vars_of(pascal: &str, snake: &str) -> (r: Vec<Var>)
    ensures
        r.deep_view() == body_vars(pascal@, snake@),
{
    let mut out: Vec<Var> = Vec::new();
    put(&mut out, text_var_of("pascal", pascal));
    put(&mut out, text_var_of("snake", snake));
    assert(out.deep_view() =~= body_vars(pascal@, snake@));
    out
}

pub open spec fn prop_row(p: PropSpecView) -> Seq<CellView> {
    seq![
        text_cell("name"@, p.name),
        text_cell("ty"@, p.ty),
        CellView { name: "optional"@, value: PlainView::Flag(p.optional) },
    ]
}

fn prop_row_of(p: &PropSpec) -> (r: Vec<Cell>)
    ensures
        r.deep_view() == prop_row(p.deep_view()),
{
    let mut out: Vec<Cell> = Vec::new();
    put(&mut out, text_cell_of("name", p.name.as_str()));
    put(&mut out, text_cell_of("ty", p.ty.as_str()));
    put(&mut out, Cell { name: owned("optional"), value: Plain::Flag(p.optional) });
    assert(out.deep_view() =~= prop_row(p.deep_view()));
    out
}

pub open spec fn prop_row_at(props: Seq<PropSpecView>) -> spec_fn(int) -> Seq<Seq<CellView>> {
    |k: int| seq![prop_row(props[k])]
}

fn prop_rows_of(props: &Vec<PropSpec>) -> (r: Vec<Vec<Cell>>)
    ensures
        r.deep_view() == gather(0, props@.len() as int, prop_row_at(props.deep_view())),
{
    let mut out: Vec<Vec<Cell>> = Vec::new();
    let mut k: usize = 0;
    while k < props.len()
        invariant
            k <= props.len(),
            out.deep_view() == gather(0, k as int, prop_row_at(props.deep_view())),
        decreases props.len() - k,
    {
        assert(props.deep_view()[k as int] == props@[k as int].deep_view());
        put(&mut out, prop_row_of(&props[k]));
        assert(out.deep_view() =~= gather(0, k as int, prop_row_at(props.deep_view()))
            + prop_row_at(props.deep_view())(k as int));
        k += 1;
    }
    out
}

/// The variables of a component's file.
pub open spec fn component_vars(
    props: Seq<PropSpecView>,
    pascal: Seq<char>,
    snake: Seq<char>,
    body: Seq<char>,
) -> Seq<VarView> {
    let rows = gather(0, props.len() as int, prop_row_at(props));
    seq![
        text_var("pascal"@, pascal),
        text_var("snake"@, snake),
        flag_var("has_props"@, props.len() > 0),
        VarView { name: "props"@, value: SlotView::Rows(rows) },
        text_var("body"@, body),
    ]
}

pub fn component_vars_of(
    props: &Vec<PropSpec>,
    pascal: &str,
    snake: &str,
    body: &str,
) -> (r: Vec<Var>)
    ensures
        r.deep_view() == component_vars(props.deep_view(), pascal@, snake@, body@),
{
    let mut out: Vec<Var> = Vec::new();
    put(&mut out, text_var_of("pascal", pascal));
    put(&mut out, text_var_of("snake", snake));
    put(&mut out, flag_var_of("has_props", props.len() > 0));
    put(&mut out, Var { name: owned("props"), value: Slot::Rows(prop_rows_of(props)) });
    put(&mut out, text_var_of("body", body));
    assert(out.deep_view() =~= component_vars(props.deep_view(), pascal@, snake@, body@));
    out
}

pub open spec fn use_it(pascal: Seq<char>) -> Seq<char> {
    "`use crate::components::"@
        + pascal
        + ";` where you want to render it"@
}

fn use_it_of(pascal: &str) -> (r: String)
    ensures
        r@ == use_it(pascal@),
{
    let mut s = owned("`use crate::components::");
    s.append(pascal);
    s.append(";` where you want to render it");
    s
}

/// The draft of a component's file, when it is rendered as `text`.
pub open spec fn component_draft(
    p: CreateComponentParamsView,
    crate_root: Seq<char>,
    pascal: Seq<char>,
    snake: Seq<char>,
    text: Seq<char>,
    mods: Option<Seq<char>>,
) -> DraftView {
    let dir = components_dir(p, crate_root);
    drafted(
        path_join(dir, file_name(snake)),
        text,
        path_join(dir, "mod.rs"@),
        mods,
        snake,
        false,
        seq![
            use_it(pascal),
            "wire `mod components;` into your crate root if it isn't already"@,
        ],
    )
}

/// Drafts the file of a component from its names and its rendered text.
pub fn draft_component(
    p: &CreateComponentParams,
    crate_root: &str,
    pascal: &str,
    snake: &str,
    text: &str,
    mods: Option<&str>,
) -> (r: Draft)
    ensures
        r.deep_view() == component_draft(
            p.deep_view(),
            crate_root@,
            pascal@,
            snake@,
            text@,
            mods.deep_view(),
        ),
{
    let dir = component_dir(p, crate_root);
    let mut steps: Vec<String> = Vec::new();
    put(&mut steps, use_it_of(pascal));
    put(&mut steps, owned("wire `mod components;` into your crate root if it isn't already"));
    assert(steps.deep_view() =~= seq![
        use_it(pascal@),
        "wire `mod components;` into your crate root if it isn't already"@,
    ]);
    draft(
        join_path(dir.as_str(), file_name_of(snake).as_str()).as_str(),
        text,
        join_path(dir.as_str(), "mod.rs").as_str(),
        mods,
        snake,
        false,
        steps,
    )
}

/// A component's file as it is rendered.
pub open spec fn component_text(
    p: CreateComponentParamsView,
    pascal: Seq<char>,
    snake: Seq<char>,
) -> Result<Seq<char>, Seq<char>> {
    match body_template(text_or(p.template, "empty"@)) {
        Err(e) => Err(e),
        Ok(body_tpl) => match rendered("component_body"@, body_tpl, body_vars(pascal, snake)) {
            Err(e) => Err(e),
            Ok(body) => rendered(
                "component"@,
                COMPONENT_TPL@,
                component_vars(p.props, pascal, snake, body),
            ),
        },
    }
}

/// Renders a component's file.
pub fn render_component(
    p: &CreateComponentParams,
    pascal: &str,
    snake: &str,
) -> (r: Result<String, String>)
    ensures
        viewed(r) == component_text(p.deep_view(), pascal@, snake@),
{
    let template = text_or_else(&p.template, "empty");
    let body_tpl = match component_body_for(template.as_str()) {
        Ok(b) => b,
        Err(e) => return Err(e),
    };
    let body = match render("component_body", body_tpl, &body_vars_of(pascal, snake)) {
        Ok(b) => b,
        Err(e) => return Err(e),
    };
    render("component", COMPONENT_TPL, &component_vars_of(&p.props, pascal, snake, body.as_str()))
}

/// What creating a component comes to. `taken`: its file is there already;
/// `mods`: what the `mod.rs` of the directory holds.
pub open spec fn component_plan(
    p: CreateComponentParamsView,
    crate_root: Seq<char>,
    taken: bool,
    mods: Option<Seq<char>>,
) -> Result<DraftView, Seq<char>> {
    let pascal = pascal_case(p.name);
    let snake = snake_case(p.name);
    if taken {
        Err(exists_already(component_target(p, crate_root)))
    } else {
        match component_text(p, pascal, snake) {
            Ok(text) => Ok(component_draft(p, crate_root, pascal, snake, text, mods)),
            Err(e) => Err(e),
        }
    }
}

/// Plans a new component under `crate_root`. The caller says whether the file of
/// the component is there already, and what the `mod.rs` beside it holds; it
/// writes the draft that it gets.
pub fn create_component(
    p: &CreateComponentParams,
    crate_root: &str,
    taken: bool,
    mods: Option<&str>,
) -> (r: Result<Draft, String>)
    ensures
        viewed(r) == component_plan(p.deep_view(), crate_root@, taken, mods.deep_view()),
{
    if taken {
        return Err(exists_already_of(component_file(p, crate_root).as_str()));
    }
    let pascal = to_pascal_case(p.name.as_str());
    let snake = to_snake_case(p.name.as_str());
    match render_component(p, pascal.as_str(), snake.as_str()) {
        Ok(text) => Ok(
            draft_component(p, crate_root, pascal.as_str(), snake.as_str(), text.as_str(), mods),
        ),
        Err(e) => Err(e),
    }
}

// ---------------------------------------------------------------------------
// Server functions
// ---------------------------------------------------------------------------

/// The features of dioxus allow server functions.
pub open spec fn fullstack(features: Seq<Seq<char>>) -> bool {
    features.contains("fullstack"@) || (features.contains("server"@) && features.contains("web"@))
}

pub fn fullstack_capable(features: &Vec<String>) -> (r: bool)
    ensures
        r == fullstack(features.deep_view()),
{
    holds(features, "fullstack") || (holds(features, "server") && holds(features, "web"))
}

pub open spec fn bad_method(method: Seq<char>) -> Seq<char> {
    "method must be \"get\" or \"post\", got "@
        + method
}

fn bad_method_of(method: &str) -> (r: String)
    ensures
        r@ == bad_method(method@),
{
    let mut s = owned("method must be \"get\" or \"post\", got ");
    s.append(method);
    s
}

pub open spec fn api_path(snake: Seq<char>) -> Seq<char> {
    "/api/"@
        + snake
}

fn api_path_of(snake: &str) -> (r: String)
    ensures
        r@ == api_path(snake@),
{
    let mut s = owned("/api/");
    s.append(snake);
    s
}

/// The HTTP method of a server function.
pub open spec fn http_method(p: CreateServerFnParamsView) -> Result<Seq<char>, Seq<char>> {
    match p.method {
        Some(m) => {
            if lower(m) == "get"@ || lower(m) == "post"@ {
                Ok(lower(m))
            } else {
                Err(bad_method(debug_text(lower(m))))
            }
        },
        None => Ok(
            if p.args.len() == 0 {
                "get"@
            } else {
                "post"@
            },
        ),
    }
}

pub fn method_of(p: &CreateServerFnParams) -> (r: Result<String, String>)
    ensures
        viewed(r) == http_method(p.deep_view()),
{
    match &p.method {
        Some(m) => {
            let l = to_lower(m.as_str());
            if same(l.as_str(), "get") || same(l.as_str(), "post") {
                Ok(l)
            } else {
                Err(bad_method_of(debug(l.as_str()).as_str()))
            }
        },
        None => {
            if p.args.len() == 0 {
                Ok(owned("get"))
            } else {
                Ok(owned("post"))
            }
        },
    }
}

pub open spec fn arg_row(a: ArgSpecView) -> Seq<CellView> {
    seq![text_cell("name"@, a.name), text_cell("ty"@, a.ty)]
}

pub open spec fn arg_row_at(args: Seq<ArgSpecView>) -> spec_fn(int) -> Seq<Seq<CellView>> {
    |k: int| seq![arg_row(args[k])]
}

fn arg_rows_of(args: &Vec<ArgSpec>) -> (r: Vec<Vec<Cell>>)
    ensures
        r.deep_view() == gather(0, args@.len() as int, arg_row_at(args.deep_view())),
{
    let mut out: Vec<Vec<Cell>> = Vec::new();
    let mut k: usize = 0;
    while k < args.len()
        invariant
            k <= args.len(),
            out.deep_view() == gather(0, k as int, arg_row_at(args.deep_view())),
        decreases args.len() - k,
    {
        assert(args.deep_view()[k as int] == args@[k as int].deep_view());
        let mut row: Vec<Cell> = Vec::new();
        put(&mut row, text_cell_of("name", args[k].name.as_str()));
        put(&mut row, text_cell_of("ty", args[k].ty.as_str()));
        assert(row.deep_view() =~= arg_row(args@[k as int].deep_view()));
        put(&mut out, row);
        assert(out.deep_view() =~= gather(0, k as int, arg_row_at(args.deep_view()))
            + arg_row_at(args.deep_view())(k as int));
        k += 1;
    }
    out
}

/// The variables of a server function's file.
pub open spec fn server_fn_vars(
    p: CreateServerFnParamsView,
    snake: Seq<char>,
    method: Seq<char>,
) -> Seq<VarView> {
    let rows = gather(0, p.args.len() as int, arg_row_at(p.args));
    seq![
        text_var("snake"@, snake),
        text_var("ret"@, text_or(p.return_type, "String"@)),
        text_var("method"@, method),
        text_var("path"@, text_or(p.path, api_path(snake))),
        VarView { name: "args"@, value: SlotView::Rows(rows) },
    ]
}

pub fn server_fn_vars_of(p: &CreateServerFnParams, snake: &str, method: &str) -> (r: Vec<Var>)
    ensures
        r.deep_view() == server_fn_vars(p.deep_view(), snake@, method@),
{
    let ret = text_or_else(&p.return_type, "String");
    let path = text_or_else(&p.path, api_path_of(snake).as_str());
    let mut out: Vec<Var> = Vec::new();
    put(&mut out, text_var_of("snake", snake));
    put(&mut out, text_var_of("ret", ret.as_str()));
    put(&mut out, text_var_of("method", method));
    put(&mut out, text_var_of("path", path.as_str()));
    put(&mut out, Var { name: owned("args"), value: Slot::Rows(arg_rows_of(&p.args)) });
    assert(out.deep_view() =~= server_fn_vars(p.deep_view(), snake@, method@));
    out
}

pub open spec fn call_it(snake: Seq<char>) -> Seq<char> {
    "call `"@
        + snake
        + "(...)` from a client component to invoke it"@
}

fn call_it_of(snake: &str) -> (r: String)
    ensures
        r@ == call_it(snake@),
{
    let mut s = owned("call `");
    s.append(snake);
    s.append("(...)` from a client component to invoke it");
    s
}

/// The file of a server function.
pub open spec fn server_fn_target(crate_root: Seq<char>, snake: Seq<char>) -> Seq<char> {
    path_join(path_join(crate_root, "src/server"@), file_name(snake))
}

pub fn server_fn_file(p: &CreateServerFnParams, crate_root: &str) -> (r: String)
    ensures
        r@ == server_fn_target(crate_root@, snake_case(p.name@)),
{
    join_path(
        join_path(crate_root, "src/server").as_str(),
        file_name_of(to_snake_case(p.name.as_str()).as_str()).as_str(),
    )
}

/// The draft of a server function's file, when it is rendered as `text`.
pub open spec fn server_fn_draft(
    crate_root: Seq<char>,
    snake: Seq<char>,
    text: Seq<char>,
    mods: Option<Seq<char>>,
) -> DraftView {
    drafted(
        server_fn_target(crate_root, snake),
        text,
        path_join(path_join(crate_root, "src/server"@), "mod.rs"@),
        mods,
        snake,
        true,
        seq![call_it(snake), "ensure `mod server;` is declared in your crate root"@],
    )
}

/// Drafts the file of a server function from its name and its rendered text.
pub fn draft_server_fn(
    crate_root: &str,
    snake: &str,
    text: &str,
    mods: Option<&str>,
) -> (r: Draft)
    ensures
        r.deep_view() == server_fn_draft(crate_root@, snake@, text@, mods.deep_view()),
{
    let dir = join_path(crate_root, "src/server");
    let mut steps: Vec<String> = Vec::new();
    put(&mut steps, call_it_of(snake));
    put(&mut steps, owned("ensure `mod server;` is declared in your crate root"));
    assert(steps.deep_view() =~= seq![
        call_it(snake@),
        "ensure `mod server;` is declared in your crate root"@,
    ]);
    draft(
        join_path(dir.as_str(), file_name_of(snake).as_str()).as_str(),
        text,
        join_path(dir.as_str(), "mod.rs").as_str(),
        mods,
        snake,
        true,
        steps,
    )
}

/// What creating a server function comes to. `taken`: its file is there already;
/// `mods`: what the `mod.rs` of the directory holds.
pub open spec fn server_fn_plan(
    p: CreateServerFnParamsView,
    features: Seq<Seq<char>>,
    crate_root: Option<Seq<char>>,
    taken: bool,
    mods: Option<Seq<char>>,
) -> Result<DraftView, Seq<char>> {
    let snake = snake_case(p.name);
    if !fullstack(features) {
        Err(NOT_FULLSTACK@)
    } else if crate_root is None {
        Err("no manifest dir"@)
    } else {
        match return_fault(text_or(p.return_type, "String"@)) {
            Some(reason) => Err(reason),
            None => match http_method(p) {
                Err(e) => Err(e),
                Ok(method) => {
                    if taken {
                        Err(exists_already(server_fn_target(crate_root->0, snake)))
                    } else {
                        match rendered(
                            "server_fn"@,
                            SERVER_FN_TPL@,
                            server_fn_vars(p, snake, method),
                        ) {
                            Ok(text) => Ok(server_fn_draft(crate_root->0, snake, text, mods)),
                            Err(e) => Err(e),
                        }
                    }
                },
            },
        }
    }
}

/// The answer to a project without server functions.
pub const NOT_FULLSTACK: &'static str =
    "this project does not have `fullstack` (or `web`+`server`) enabled on the dioxus dep; server fns require a fullstack setup. Run audit_feature_flags for guidance.";

/// Plans a new server function for a project with these features of dioxus. The
/// caller says whether the file of the function is there already, and what the
/// `mod.rs` beside it holds; it writes the draft that it gets.
pub fn create_server_fn(
    p: &CreateServerFnParams,
    features: &Vec<String>,
    crate_root: Option<&str>,
    taken: bool,
    mods: Option<&str>,
) -> (r: Result<Draft, String>)
    ensures
        viewed(r) == server_fn_plan(
            p.deep_view(),
            features.deep_view(),
            crate_root.deep_view(),
            taken,
            mods.deep_view(),
        ),
{
    if !fullstack_capable(features) {
        return Err(owned(NOT_FULLSTACK));
    }
    let root = match crate_root {
        Some(x) => x,
        None => return Err(owned("no manifest dir")),
    };
    let ret = text_or_else(&p.return_type, "String");
    match check_inner_return_type(ret.as_str()) {
        Some(reason) => return Err(reason),
        None => {},
    }
    let method = match method_of(p) {
        Ok(m) => m,
        Err(e) => return Err(e),
    };
    if taken {
        return Err(exists_already_of(server_fn_file(p, root).as_str()));
    }
    let snake = to_snake_case(p.name.as_str());
    let vars = server_fn_vars_of(p, snake.as_str(), method.as_str());
    match render("server_fn", SERVER_FN_TPL, &vars) {
        Ok(text) => Ok(draft_server_fn(root, snake.as_str(), text.as_str(), mods)),
        Err(e) => Err(e),
    }
}

/// A project without the features gets no server function, whatever is asked.
pub proof fn law_needs_fullstack(
    p: CreateServerFnParamsView,
    features: Seq<Seq<char>>,
    crate_root: Option<Seq<char>>,
    taken: bool,
    mods: Option<Seq<char>>,
)
    requires
        !fullstack(features),
    ensures
        server_fn_plan(p, features, crate_root, taken, mods) == Err::<DraftView, Seq<char>>(
            NOT_FULLSTACK@,
        ),
{
}

/// No file is written over: a name that is taken is refused.
pub proof fn law_taken_is_refused(
    c: CreateComponentParamsView,
    s: CreateServerFnParamsView,
    features: Seq<Seq<char>>,
    root: Seq<char>,
    mods: Option<Seq<char>>,
)
    ensures
        component_plan(c, root, true, mods) is Err,
        server_fn_plan(s, features, Some(root), true, mods) is Err,
{
}

// ---------------------------------------------------------------------------
// Routes
// ---------------------------------------------------------------------------

/// A file and what it holds.
#[derive(Debug)]
pub struct SourceText {
    pub path: String,
    pub text: String,
}

pub ghost struct SourceTextView {
    pub path: Seq<char>,
    pub text: Seq<char>,
}

impl DeepView for SourceText {
    type V = SourceTextView;

    open spec fn deep_view(&self) -> SourceTextView {
        SourceTextView {
            path: self.path@,
            text: self.text@,
        }
    }
}

/// The files in which the routes are looked for first.
pub const ROUTER_CANDIDATES: [&'static str; 4] = [
    "src/router.rs",
    "src/route.rs",
    "src/main.rs",
    "src/lib.rs",
];

/// The first file from `k` on that holds the text `mark`.
pub open spec fn first_with(
    files: Seq<SourceTextView>,
    mark: Seq<char>,
    k: int,
) -> Option<Seq<char>>
    decreases files.len() - k,
{
    if k < 0 || k >= files.len() {
        None
    } else if occurs(files[k].text, mark) {
        Some(files[k].path)
    } else {
        first_with(files, mark, k + 1)
    }
}

fn first_with_of(files: &Vec<SourceText>, mark: &str) -> (r: Option<String>)
    ensures
        r.deep_view() == first_with(files.deep_view(), mark@, 0),
{
    let mut k: usize = 0;
    while k < files.len()
        invariant
            k <= files.len(),
            first_with(files.deep_view(), mark@, 0) == first_with(
                files.deep_view(),
                mark@,
                k as int,
            ),
        decreases files.len() - k,
    {
        assert(files.deep_view()[k as int] == files@[k as int].deep_view());
        if contains(files[k].text.as_str(), mark) {
            return Some(owned(files[k].path.as_str()));
        }
        k += 1;
    }
    None
}

/// The file of the routes: the first candidate that speaks of `Routable`, else the
/// first file that derives it.
pub open spec fn router(
    candidates: Seq<SourceTextView>,
    walked: Seq<SourceTextView>,
) -> Option<Seq<char>> {
    match first_with(candidates, "Routable"@, 0) {
        Some(p) => Some(p),
        None => first_with(walked, "derive(Routable"@, 0),
    }
}

/// Finds the file of the routes among the candidates that could be read, in
/// their order, and the source files of the crate.
pub fn find_routable(candidates: &Vec<SourceText>, walked: &Vec<SourceText>) -> (r: Option<String>)
    ensures
        r.deep_view() == router(candidates.deep_view(), walked.deep_view()),
{
    match first_with_of(candidates, "Routable") {
        Some(p) => Some(p),
        None => first_with_of(walked, "derive(Routable"),
    }
}

/// The router's file as it is to be, and what to tell about it.
#[derive(Debug)]
pub struct RouteDraft {
    /// The new text, if it changes.
    pub new_src: Option<String>,
    pub result: ScaffoldResult,
}

pub ghost struct RouteDraftView {
    pub new_src: Option<Seq<char>>,
    pub result: ScaffoldResultView,
}

impl DeepView for RouteDraft {
    type V = RouteDraftView;

    open spec fn deep_view(&self) -> RouteDraftView {
        RouteDraftView {
            new_src: self.new_src.deep_view(),
            result: self.result.deep_view(),
        }
    }
}

pub open spec fn in_scope(name: Seq<char>) -> Seq<char> {
    "ensure `"@
        + name
        + "` exists and is in scope at the routable enum"@
}

fn in_scope_of(name: &str) -> (r: String)
    ensures
        r@ == in_scope(name@),
{
    let mut s = owned("ensure `");
    s.append(name);
    s.append("` exists and is in scope at the routable enum");
    s
}

pub open spec fn inserted_step(name: Seq<char>, rel: Seq<char>, line: nat) -> Seq<char> {
    "inserted `"@
        + name
        + "` route variant at `"@
        + rel
        + ":"@
        + decimal(line)
        + "`"@
}

fn inserted_step_of(name: &str, rel: &str, line: usize) -> (r: String)
    ensures
        r@ == inserted_step(name@, rel@, line as nat),
{
    let mut s = owned("inserted `");
    s.append(name);
    s.append("` route variant at `");
    s.append(rel);
    s.append(":");
    s.append(decimal_usize(line).as_str());
    s.append("`");
    s
}

/// The draft of a route, when it is planned as `plan`.
pub open spec fn route_draft(
    name: Seq<char>,
    crate_root: Seq<char>,
    router_file: Seq<char>,
    plan: RouteInsertionView,
) -> RouteDraftView {
    let steps = seq![in_scope(name), "consider running `cargo fmt` on the router file"@];
    match plan {
        RouteInsertionView::AlreadyMatches => RouteDraftView {
            new_src: None,
            result: ScaffoldResultView { next_steps: steps, ..no_result() },
        },
        RouteInsertionView::Insert { new_src, line } => RouteDraftView {
            new_src: Some(new_src),
            result: ScaffoldResultView {
                files_modified: seq![router_file],
                next_steps: seq![inserted_step(name, path_within(router_file, crate_root), line)]
                    + steps,
                ..no_result()
            },
        },
    }
}

/// Drafts a route from the plan for it.
pub fn draft_route(
    name: &str,
    crate_root: &str,
    router_file: &str,
    plan: RouteInsertion,
) -> (r: RouteDraft)
    ensures
        r.deep_view() == route_draft(name@, crate_root@, router_file@, plan.deep_view()),
{
    let mut steps: Vec<String> = Vec::new();
    put(&mut steps, in_scope_of(name));
    put(&mut steps, owned("consider running `cargo fmt` on the router file"));
    assert(steps.deep_view() =~= seq![
        in_scope(name@),
        "consider running `cargo fmt` on the router file"@,
    ]);
    match plan {
        RouteInsertion::AlreadyMatches => RouteDraft {
            new_src: None,
            result: ScaffoldResult { next_steps: steps, ..Default::default() },
        },
        RouteInsertion::Insert { new_src, line } => {
            let rel = strip_base(router_file, crate_root);
            let mut all: Vec<String> = Vec::new();
            put(&mut all, inserted_step_of(name, rel.as_str(), line));
            assert(all.deep_view() =~= seq![inserted_step(name@, rel@, line as nat)]);
            put_all(&mut all, steps);
            let mut modified: Vec<String> = Vec::new();
            put(&mut modified, owned(router_file));
            assert(modified.deep_view() =~= seq![router_file@]);
            RouteDraft {
                new_src: Some(new_src),
                result: ScaffoldResult {
                    files_modified: modified,
                    next_steps: all,
                    ..Default::default()
                },
            }
        },
    }
}

/// What creating a route comes to, in the router's file that holds `src`.
pub open spec fn route_plan(
    p: CreateRouteParamsView,
    crate_root: Seq<char>,
    router_file: Seq<char>,
    src: Seq<char>,
) -> Result<RouteDraftView, Seq<char>> {
    let name = pascal_case(p.component);
    match planned(parsed(src), src, name, p.path, p.params) {
        Ok(plan) => Ok(route_draft(name, crate_root, router_file, plan)),
        Err(e) => Err(e),
    }
}

/// Plans a new route in the router's file, which holds `src`. The caller writes
/// the draft that it gets.
pub fn create_route(
    p: &CreateRouteParams,
    crate_root: &str,
    router_file: &str,
    src: &str,
) -> (r: Result<RouteDraft, String>)
    ensures
        viewed(r) == route_plan(p.deep_view(), crate_root@, router_file@, src@),
{
    let name = to_pascal_case(p.component.as_str());
    match plan_route_insertion(src, name.as_str(), p.path.as_str(), &p.params) {
        Ok(plan) => Ok(draft_route(name.as_str(), crate_root, router_file, plan)),
        Err(e) => Err(e),
    }
}

} // verus!
