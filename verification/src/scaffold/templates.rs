//! The templates of new files, and what renders them.
use vstd::prelude::*;

use crate::order::viewed;
use crate::text::{debug, debug_text, owned, same};

verus! {

/// The frame of a component's file.
pub const COMPONENT_TPL: &'static str = r#"use dioxus::prelude::*;

{%- if has_props %}

#[derive(Props, PartialEq, Clone)]
pub struct {{ pascal }}Props {
{%- for p in props %}
    {%- if p.optional %}
    #[props(default)]
    pub {{ p.name }}: Option<{{ p.ty }}>,
    {%- else %}
    pub {{ p.name }}: {{ p.ty }},
    {%- endif %}
{%- endfor %}
}
{%- endif %}

#[component]
pub fn {{ pascal }}({% if has_props %}props: {{ pascal }}Props{% endif %}) -> Element {
    rsx! {
{{ body }}
    }
}
"#;

// What a component renders. The text stands under `rsx! {` in the frame.
/// A single placeholder.
pub const COMPONENT_BODY_EMPTY: &'static str = r#"        div { class: "{{ snake }}",
            "{{ pascal }} component"
        }"#;

/// A form with a submit handler.
pub const COMPONENT_BODY_FORM: &'static str = r#"        form { class: "{{ snake }}",
            onsubmit: move |evt: Event<FormData>| {
                evt.prevent_default();
                // TODO: read form values and submit
            },
            div { class: "field",
                label { "Field" }
                input { r#type: "text", name: "field" }
            }
            button { r#type: "submit", "Submit" }
        }"#;

/// A list with an empty state.
pub const COMPONENT_BODY_LIST: &'static str = r#"        div { class: "{{ snake }}",
            h2 { "{{ pascal }}" }
            // TODO: replace with real items, e.g. `for item in items.iter()`
            ul { class: "{{ snake }}-items",
                li { "Empty list" }
            }
        }"#;

/// A table with a header and a toolbar.
pub const COMPONENT_BODY_CRUD_TABLE: &'static str = r#"        div { class: "{{ snake }}",
            div { class: "toolbar",
                button { "New" }
            }
            table { class: "{{ snake }}-table",
                thead {
                    tr {
                        th { "Id" }
                        th { "Name" }
                        th { class: "actions", "Actions" }
                    }
                }
                tbody {
                    // TODO: `for row in rows.iter() { tr { key: "{row.id}", ... } }`
                    tr {
                        td { "—" }
                        td { "No rows" }
                        td {}
                    }
                }
            }
        }"#;

/// An article with fields and actions.
pub const COMPONENT_BODY_RESOURCE_VIEW: &'static str = r#"        article { class: "{{ snake }}",
            header {
                h2 { "{{ pascal }}" }
            }
            dl { class: "{{ snake }}-fields",
                dt { "Field" }
                dd { "—" }
            }
            footer { class: "actions",
                button { "Edit" }
                button { class: "danger", "Delete" }
            }
        }"#;

/// The file of a server function.
pub const SERVER_FN_TPL: &'static str = r#"use dioxus::prelude::*;

#[{{ method }}("{{ path }}")]
pub async fn {{ snake }}(
{%- for a in args %}
    {{ a.name }}: {{ a.ty }},
{%- endfor %}
) -> Result<{{ ret }}, ServerFnError> {
    Ok(Default::default())
}
"#;

pub open spec fn unknown_template(template: Seq<char>) -> Seq<char> {
    "create_component: unknown template "@
        + template
        + "; valid: empty, form, list, crud_table, resource_view"@
}

fn unknown_template_of(template: &str) -> (r: String)
    ensures
        r@ == unknown_template(template@),
{
    let mut s = owned("create_component: unknown template ");
    s.append(template);
    s.append("; valid: empty, form, list, crud_table, resource_view");
    s
}

/// The body of the template `template`.
pub open spec fn body_template(template: Seq<char>) -> Result<Seq<char>, Seq<char>> {
    if template == "empty"@ {
        Ok(COMPONENT_BODY_EMPTY@)
    } else if template == "form"@ {
        Ok(COMPONENT_BODY_FORM@)
    } else if template == "list"@ {
        Ok(COMPONENT_BODY_LIST@)
    } else if template == "crud_table"@ {
        Ok(COMPONENT_BODY_CRUD_TABLE@)
    } else if template == "resource_view"@ {
        Ok(COMPONENT_BODY_RESOURCE_VIEW@)
    } else {
        Err(unknown_template(debug_text(template)))
    }
}

pub fn component_body_for(template: &str) -> (r: Result<&'static str, String>)
    ensures
        viewed(r) == body_template(template@),
{
    if same(template, "empty") {
        Ok(COMPONENT_BODY_EMPTY)
    } else if same(template, "form") {
        Ok(COMPONENT_BODY_FORM)
    } else if same(template, "list") {
        Ok(COMPONENT_BODY_LIST)
    } else if same(template, "crud_table") {
        Ok(COMPONENT_BODY_CRUD_TABLE)
    } else if same(template, "resource_view") {
        Ok(COMPONENT_BODY_RESOURCE_VIEW)
    } else {
        Err(unknown_template_of(debug(template).as_str()))
    }
}

// ---------------------------------------------------------------------------
// Rendering
// ---------------------------------------------------------------------------

/// A value without parts.
#[derive(Debug)]
pub enum Plain {
    Text(String),
    Flag(bool),
}

pub ghost enum PlainView {
    Text(Seq<char>),
    Flag(bool),
}

impl DeepView for Plain {
    type V = PlainView;

    open spec fn deep_view(&self) -> PlainView {
        match self {
            Plain::Text(s) => PlainView::Text(s@),
            Plain::Flag(b) => PlainView::Flag(*b),
        }
    }
}

/// A named value in a row.
#[derive(Debug)]
pub struct Cell {
    pub name: String,
    pub value: Plain,
}

pub ghost struct CellView {
    pub name: Seq<char>,
    pub value: PlainView,
}

impl DeepView for Cell {
    type V = CellView;

    open spec fn deep_view(&self) -> CellView {
        CellView {
            name: self.name@,
            value: self.value.deep_view(),
        }
    }
}

/// A value that a template can show or walk.
#[derive(Debug)]
pub enum Slot {
    One(Plain),
    Rows(Vec<Vec<Cell>>),
}

pub ghost enum SlotView {
    One(PlainView),
    Rows(Seq<Seq<CellView>>),
}

impl DeepView for Slot {
    type V = SlotView;

    open spec fn deep_view(&self) -> SlotView {
        match self {
            Slot::One(x) => SlotView::One(x.deep_view()),
            Slot::Rows(v) => SlotView::Rows(v.deep_view()),
        }
    }
}

/// A variable of a template.
#[derive(Debug)]
pub struct Var {
    pub name: String,
    pub value: Slot,
}

pub ghost struct VarView {
    pub name: Seq<char>,
    pub value: SlotView,
}

impl DeepView for Var {
    type V = VarView;

    open spec fn deep_view(&self) -> VarView {
        VarView {
            name: self.name@,
            value: self.value.deep_view(),
        }
    }
}

#[verifier::external_type_specification]
#[verifier::external_body]
pub struct ExTemplateValue(minijinja::Value);

/// A `minijinja::Value` that holds the text or the flag.
#[verifier::external_body]
fn plain_value(x: &Plain) -> minijinja::Value {
    match x {
        Plain::Text(s) => minijinja::Value::from(s.as_str()),
        Plain::Flag(b) => minijinja::Value::from(*b),
    }
}

/// A `minijinja::Value` that maps the names of the cells to their values.
#[verifier::external_body]
fn row_value(row: &Vec<Cell>) -> minijinja::Value {
    row.iter().map(|c| (c.name.clone(), plain_value(&c.value))).collect()
}

/// A `minijinja::Value`: a plain one, or a sequence of rows.
#[verifier::external_body]
fn slot_value(x: &Slot) -> minijinja::Value {
    match x {
        Slot::One(p) => plain_value(p),
        Slot::Rows(v) => minijinja::Value::from(v.iter().map(row_value).collect::<Vec<_>>()),
    }
}

/// What minijinja renders: the text, or the message of the error. `name` is the
/// template's name, `source` its text.
pub uninterp spec fn rendered(
    name: Seq<char>,
    source: Seq<char>,
    vars: Seq<VarView>,
) -> Result<Seq<char>, Seq<char>>;

/// `minijinja::Template::render` on a template that a fresh
/// `minijinja::Environment` holds under `name`. The outcome depends on the
/// template, its name and the variables alone.
#[verifier::external_body]
pub(crate) fn render(name: &str, source: &str, vars: &Vec<Var>) -> (r: Result<String, String>)
    ensures
        viewed(r) == rendered(name@, source@, vars.deep_view()),
{
    let mut env = minijinja::Environment::new();
    env.add_template(name, source).map_err(|e| e.to_string())?;
    let context: minijinja::Value =
        vars.iter().map(|v| (v.name.clone(), slot_value(&v.value))).collect();
    let template = env.get_template(name).map_err(|e| e.to_string())?;
    template.render(context).map_err(|e| e.to_string())
}

// ---------------------------------------------------------------------------
// Variables
// ---------------------------------------------------------------------------

pub open spec fn text_var(name: Seq<char>, value: Seq<char>) -> VarView {
    VarView { name, value: SlotView::One(PlainView::Text(value)) }
}

pub fn text_var_of(name: &str, value: &str) -> (r: Var)
    ensures
        r.deep_view() == text_var(name@, value@),
{
    Var { name: owned(name), value: Slot::One(Plain::Text(owned(value))) }
}

pub open spec fn flag_var(name: Seq<char>, value: bool) -> VarView {
    VarView { name, value: SlotView::One(PlainView::Flag(value)) }
}

pub fn flag_var_of(name: &str, value: bool) -> (r: Var)
    ensures
        r.deep_view() == flag_var(name@, value),
{
    Var { name: owned(name), value: Slot::One(Plain::Flag(value)) }
}

pub open spec fn text_cell(name: Seq<char>, value: Seq<char>) -> CellView {
    CellView { name, value: PlainView::Text(value) }
}

pub fn text_cell_of(name: &str, value: &str) -> (r: Cell)
    ensures
        r.deep_view() == text_cell(name@, value@),
{
    Cell { name: owned(name), value: Plain::Text(owned(value)) }
}

} // verus!
