//! What the lints on markup and on props find, in terms of the nodes.
use vstd::prelude::*;

use super::components_audit;
use super::laws::{in_markup, lemma_in_markup, parses};
use super::props_lint;
use super::reinvented_widget;
use super::signal_lint::laws::{component_in, nodes};
use crate::literal::{literal_value, quote};
use crate::order::{gather, lemma_distinct, lemma_gather_contains, lemma_sorted_contains, rank};
use crate::plain::{
    ident_in, lemma_component_with_body, lemma_numbered, lemma_token_number, mark_in, token_in,
    tokens_before, under,
};
use crate::scan::{kids, lemma_inside, ScannedFile};
use crate::tape::{operand, stop, Kind, Node};
use crate::text::{fields, lower};

verus! {

// ---------------------------------------------------------------------------
// Classes
// ---------------------------------------------------------------------------

/// The class `name`, in small letters, is one by which the widget `w` is known.
pub open spec fn known_as(name: Seq<char>, w: Seq<char>) -> bool {
    ||| w == "dialog"@ && (name == "modal"@ || name == "dialog"@)
    ||| w == "popover"@ && name == "popover"@
    ||| w == "tooltip"@ && name == "tooltip"@
    ||| w == "accordion"@ && name == "accordion"@
    ||| w == "tabs"@ && (name == "tabs"@ || name == "tab-strip"@ || name == "tablist"@)
    ||| w == "calendar"@ && name == "calendar"@
    ||| w == "date_picker"@ && (name == "datepicker"@ || name == "date-picker"@)
    ||| w == "dropdown_menu"@ && (name == "dropdown"@ || name == "dropdown-menu"@)
    ||| w == "pagination"@ && name == "pagination"@
    ||| w == "toast"@ && (name == "toast"@ || name == "snackbar"@)
    ||| w == "sidebar"@ && name == "sidebar"@
    ||| w == "sheet"@ && name == "drawer"@
    ||| w == "avatar"@ && name == "avatar"@
    ||| w == "badge"@ && name == "badge"@
    ||| w == "progress"@ && (name == "progress"@ || name == "progress-bar"@)
}

/// The row of the table at `n` says what its class suggests, where no row before it
/// does.
proof fn lemma_row(name: Seq<char>, n: int, class: Seq<char>, w: Seq<char>)
    requires
        0 <= n < 22,
        components_audit::CLASS_TO_CATALOG@[n].0@ == class,
        components_audit::CLASS_TO_CATALOG@[n].1@ == w,
    ensures
        name != class ==> components_audit::suggested(name, n + 1) == components_audit::suggested(
            name,
            n,
        ),
        components_audit::suggested(name, n) is Some ==> components_audit::suggested(name, n + 1)
            == components_audit::suggested(name, n),
        components_audit::suggested(name, n) is None && name == class
            ==> components_audit::suggested(name, n + 1) == Some(w),
{
}

proof fn lemma_known_as(name: Seq<char>, w: Seq<char>)
    requires
        known_as(name, w),
    ensures
        components_audit::suggested(name, components_audit::CLASS_TO_CATALOG@.len() as int)
            == Some(w),
{
    reveal_strlit("modal");
    assert("modal"@.len() == 5 && "modal"@[0] == 'm' && "modal"@[1] == 'o');
    reveal_strlit("dialog");
    assert("dialog"@.len() == 6 && "dialog"@[0] == 'd' && "dialog"@[1] == 'i');
    reveal_strlit("popover");
    assert("popover"@.len() == 7 && "popover"@[0] == 'p' && "popover"@[1] == 'o');
    reveal_strlit("tooltip");
    assert("tooltip"@.len() == 7 && "tooltip"@[0] == 't' && "tooltip"@[1] == 'o');
    reveal_strlit("accordion");
    assert("accordion"@.len() == 9 && "accordion"@[0] == 'a' && "accordion"@[1] == 'c');
    reveal_strlit("tabs");
    assert("tabs"@.len() == 4 && "tabs"@[0] == 't' && "tabs"@[1] == 'a');
    reveal_strlit("tab-strip");
    assert("tab-strip"@.len() == 9 && "tab-strip"@[0] == 't' && "tab-strip"@[1] == 'a');
    reveal_strlit("tablist");
    assert("tablist"@.len() == 7 && "tablist"@[0] == 't' && "tablist"@[1] == 'a');
    reveal_strlit("calendar");
    assert("calendar"@.len() == 8 && "calendar"@[0] == 'c' && "calendar"@[1] == 'a');
    reveal_strlit("datepicker");
    assert("datepicker"@.len() == 10 && "datepicker"@[0] == 'd' && "datepicker"@[1] == 'a');
    reveal_strlit("date-picker");
    assert("date-picker"@.len() == 11 && "date-picker"@[0] == 'd' && "date-picker"@[1] == 'a');
    reveal_strlit("dropdown");
    assert("dropdown"@.len() == 8 && "dropdown"@[0] == 'd' && "dropdown"@[1] == 'r');
    reveal_strlit("dropdown-menu");
    assert("dropdown-menu"@.len() == 13 && "dropdown-menu"@[0] == 'd' && "dropdown-menu"@[1] == 'r');
    reveal_strlit("pagination");
    assert("pagination"@.len() == 10 && "pagination"@[0] == 'p' && "pagination"@[1] == 'a');
    reveal_strlit("toast");
    assert("toast"@.len() == 5 && "toast"@[0] == 't' && "toast"@[1] == 'o');
    reveal_strlit("snackbar");
    assert("snackbar"@.len() == 8 && "snackbar"@[0] == 's' && "snackbar"@[1] == 'n');
    reveal_strlit("sidebar");
    assert("sidebar"@.len() == 7 && "sidebar"@[0] == 's' && "sidebar"@[1] == 'i');
    reveal_strlit("drawer");
    assert("drawer"@.len() == 6 && "drawer"@[0] == 'd' && "drawer"@[1] == 'r');
    reveal_strlit("avatar");
    assert("avatar"@.len() == 6 && "avatar"@[0] == 'a' && "avatar"@[1] == 'v');
    reveal_strlit("badge");
    assert("badge"@.len() == 5 && "badge"@[0] == 'b' && "badge"@[1] == 'a');
    reveal_strlit("progress");
    assert("progress"@.len() == 8 && "progress"@[0] == 'p' && "progress"@[1] == 'r');
    reveal_strlit("progress-bar");
    assert("progress-bar"@.len() == 12 && "progress-bar"@[0] == 'p' && "progress-bar"@[1] == 'r');
    lemma_row(name, 0, "modal"@, "dialog"@);
    lemma_row(name, 1, "dialog"@, "dialog"@);
    lemma_row(name, 2, "popover"@, "popover"@);
    lemma_row(name, 3, "tooltip"@, "tooltip"@);
    lemma_row(name, 4, "accordion"@, "accordion"@);
    lemma_row(name, 5, "tabs"@, "tabs"@);
    lemma_row(name, 6, "tab-strip"@, "tabs"@);
    lemma_row(name, 7, "tablist"@, "tabs"@);
    lemma_row(name, 8, "calendar"@, "calendar"@);
    lemma_row(name, 9, "datepicker"@, "date_picker"@);
    lemma_row(name, 10, "date-picker"@, "date_picker"@);
    lemma_row(name, 11, "dropdown"@, "dropdown_menu"@);
    lemma_row(name, 12, "dropdown-menu"@, "dropdown_menu"@);
    lemma_row(name, 13, "pagination"@, "pagination"@);
    lemma_row(name, 14, "toast"@, "toast"@);
    lemma_row(name, 15, "snackbar"@, "toast"@);
    lemma_row(name, 16, "sidebar"@, "sidebar"@);
    lemma_row(name, 17, "drawer"@, "sheet"@);
    lemma_row(name, 18, "avatar"@, "avatar"@);
    lemma_row(name, 19, "badge"@, "badge"@);
    lemma_row(name, 20, "progress"@, "progress"@);
    lemma_row(name, 21, "progress-bar"@, "progress"@);
    assert(components_audit::CLASS_TO_CATALOG@.len() == 22);
    assert(components_audit::suggested(name, 0) is None);
    assert(components_audit::suggested(name, 22) == Some(w));
}

pub proof fn lemma_known_class(name: Seq<char>, w: Seq<char>)
    requires
        components_audit::suggested(name, components_audit::CLASS_TO_CATALOG@.len() as int)
            == Some(w),
    ensures
        known_as(name, w),
{
    lemma_row(name, 0, "modal"@, "dialog"@);
    lemma_row(name, 1, "dialog"@, "dialog"@);
    lemma_row(name, 2, "popover"@, "popover"@);
    lemma_row(name, 3, "tooltip"@, "tooltip"@);
    lemma_row(name, 4, "accordion"@, "accordion"@);
    lemma_row(name, 5, "tabs"@, "tabs"@);
    lemma_row(name, 6, "tab-strip"@, "tabs"@);
    lemma_row(name, 7, "tablist"@, "tabs"@);
    lemma_row(name, 8, "calendar"@, "calendar"@);
    lemma_row(name, 9, "datepicker"@, "date_picker"@);
    lemma_row(name, 10, "date-picker"@, "date_picker"@);
    lemma_row(name, 11, "dropdown"@, "dropdown_menu"@);
    lemma_row(name, 12, "dropdown-menu"@, "dropdown_menu"@);
    lemma_row(name, 13, "pagination"@, "pagination"@);
    lemma_row(name, 14, "toast"@, "toast"@);
    lemma_row(name, 15, "snackbar"@, "toast"@);
    lemma_row(name, 16, "sidebar"@, "sidebar"@);
    lemma_row(name, 17, "drawer"@, "sheet"@);
    lemma_row(name, 18, "avatar"@, "avatar"@);
    lemma_row(name, 19, "badge"@, "badge"@);
    lemma_row(name, 20, "progress"@, "progress"@);
    lemma_row(name, 21, "progress-bar"@, "progress"@);
    assert(components_audit::CLASS_TO_CATALOG@.len() == 22);
    assert(components_audit::suggested(name, 0) is None);
}

/// The first of the hits for a widget becomes a finding.
proof fn lemma_first_hit(hs: Seq<components_audit::ClassHitView>, n: int) -> (m: int)
    requires
        0 <= n < hs.len(),
    ensures
        0 <= m <= n,
        hs[m].catalog == hs[n].catalog,
        components_audit::first_of_widget(hs, m),
    decreases n,
{
    if components_audit::first_of_widget(hs, n) {
        n
    } else {
        let e = choose|e: int| 0 <= e < n && (#[trigger] hs[e]).catalog == hs[n].catalog;
        lemma_first_hit(hs, e)
    }
}

/// In the markup of a component, a `class` with a word by which a widget is known is
/// found: that widget is reported for that component, unless the file wraps widgets.
pub proof fn law_widget_class_is_found(
    files: Seq<ScannedFile>,
    wrappers: Seq<Seq<char>>,
    k: int,
    i: int,
    b: int,
    g: int,
    j: int,
    n: int,
    w: Seq<char>,
)
    requires
        component_in(files, k, i, b),
        !wrappers.contains(files[k].path@),
        ({
            let t = nodes(files, k);
            &&& b <= j < t[b].end && in_markup(t, b, j)
            &&& ident_in(t, g, j, "class"@) && mark_in(t, g, j + 1, ":"@)
            &&& under(t, g, j + 2) && t[j + 2].parent == g && t[j + 2].kind == Kind::TokLit
            &&& quote(t[j + 2].name@) matches Some(class)
            &&& 0 <= n < fields(class).len() && known_as(lower(fields(class)[n]), w)
        }),
    ensures
        exists|x: components_audit::ComponentsAuditFindingView| #[trigger]
            components_audit::report(files, wrappers).findings.contains(x) && x.file
                == files[k].path@ && x.component == nodes(files, k)[i].name@ && x.reinvented == w,
{
    let t = nodes(files, k);
    let path = files[k].path@;
    lemma_component_with_body(t, i, b);
    lemma_in_markup(t, b, j);
    let class = quote(t[j + 2].name@)->0;
    lemma_known_as(lower(fields(class)[n]), w);
    assert(components_audit::class_at(t, j) == Some(class));
    let words = components_audit::word_hit(class, t[j + 2].line);
    let h = components_audit::ClassHitView { catalog: w, line: t[j + 2].line, class };
    assert(words(n)[0] == h);
    assert(words(n).contains(h));
    lemma_gather_contains(0, fields(class).len() as int, words, h);
    let inner = components_audit::token_hits(t, b);
    assert(inner(j).contains(h));
    lemma_gather_contains(b, t[b].end as int, inner, h);
    let hs = components_audit::hits(t, i);
    assert(hs.contains(h));
    let e = choose|e: int| 0 <= e < hs.len() && hs[e] == h;
    let m = lemma_first_hit(hs, e);
    let found = components_audit::hit_finding(t, i, path, hs);
    let x = found(m)[0];
    assert(found(m).contains(x));
    lemma_gather_contains(0, hs.len() as int, found, x);
    let rule = components_audit::component_findings(t, path);
    assert(rule(i).contains(x));
    lemma_gather_contains(0, t.len() as int, rule, x);
    let outer = components_audit::file_findings(files, wrappers);
    assert(outer(k).contains(x));
    lemma_gather_contains(0, files.len() as int, outer, x);
    lemma_sorted_contains(
        gather(0, files.len() as int, outer),
        rank::<components_audit::ComponentsAuditFinding>(),
        x,
    );
    assert(components_audit::report(files, wrappers).findings.contains(x));
}

// ---------------------------------------------------------------------------
// Elements
// ---------------------------------------------------------------------------

/// In the markup between `b` and the end of its subtree, token `j` begins the element
/// `name`.
pub open spec fn begins_element(t: Seq<Node>, b: int, j: int, name: Seq<char>) -> bool {
    &&& b <= j < t[b].end && j + 1 < t.len() && in_markup(t, b, j)
    &&& t[j].kind == Kind::TokIdent && t[j].name@ == name
    &&& t[j + 1].kind == Kind::TokGroup && t[j + 1].name@ == "{"@ && t[j + 1].parent
        == t[j].parent
}

proof fn lemma_first_element(t: Seq<Node>, lo: int, hi: int, j: int, name: Seq<char>) -> (m: int)
    requires
        lo <= j < hi,
        reinvented_widget::element(t, lo, j, name),
    ensures
        lo <= m <= j,
        reinvented_widget::first_element(t, lo, hi, name) == Some(m),
        reinvented_widget::element(t, lo, m, name),
    decreases hi - lo,
{
    match reinvented_widget::first_element(t, lo, hi - 1, name) {
        Some(m) => {
            lemma_element_before(t, lo, hi - 1, name);
            if j < hi - 1 {
                let m2 = lemma_first_element(t, lo, hi - 1, j, name);
                m2
            } else {
                m
            }
        },
        None => {
            if j < hi - 1 {
                let m2 = lemma_first_element(t, lo, hi - 1, j, name);
                m2
            } else {
                j
            }
        },
    }
}

proof fn lemma_element_before(t: Seq<Node>, lo: int, hi: int, name: Seq<char>)
    ensures
        reinvented_widget::first_element(t, lo, hi, name) matches Some(m) ==> lo <= m < hi
            && reinvented_widget::element(t, lo, m, name),
    decreases hi - lo,
{
    if lo < hi {
        lemma_element_before(t, lo, hi - 1, name);
    }
}

proof fn lemma_widget_reported(
    files: Seq<ScannedFile>,
    wrappers: Seq<Seq<char>>,
    k: int,
    i: int,
    b: int,
    x: reinvented_widget::ReinventedFindingView,
)
    requires
        component_in(files, k, i, b),
        !wrappers.contains(files[k].path@),
        reinvented_widget::component_findings(nodes(files, k), files[k].path@)(i).contains(x),
    ensures
        reinvented_widget::report(files, wrappers).findings.contains(x),
{
    let t = nodes(files, k);
    let rule = reinvented_widget::component_findings(t, files[k].path@);
    lemma_gather_contains(0, t.len() as int, rule, x);
    let outer = reinvented_widget::file_findings(files, wrappers);
    assert(outer(k).contains(x));
    lemma_gather_contains(0, files.len() as int, outer, x);
    lemma_sorted_contains(
        gather(0, files.len() as int, outer),
        rank::<reinvented_widget::ReinventedFinding>(),
        x,
    );
}

/// In the markup of a component, a bare `dialog`, `input`, `select` or `textarea` is
/// found, unless the file wraps widgets.
pub proof fn law_bare_element_is_found(
    files: Seq<ScannedFile>,
    wrappers: Seq<Seq<char>>,
    k: int,
    i: int,
    b: int,
    j: int,
    name: Seq<char>,
)
    requires
        component_in(files, k, i, b),
        !wrappers.contains(files[k].path@),
        begins_element(nodes(files, k), b, j, name),
        name == "dialog"@ || name == "input"@ || name == "select"@ || name == "textarea"@,
    ensures
        exists|x: reinvented_widget::ReinventedFindingView| #[trigger]
            reinvented_widget::report(files, wrappers).findings.contains(x) && x.file
                == files[k].path@ && x.component == nodes(files, k)[i].name@ && x.reinvented
                == name,
{
    let t = nodes(files, k);
    let path = files[k].path@;
    lemma_component_with_body(t, i, b);
    lemma_in_markup(t, b, j);
    let m = lemma_first_element(t, b, t[b].end as int, j, name);
    let x = reinvented_widget::element_finding(t, i, path, name)[0];
    lemma_among(t, i, path, name, x);
    lemma_widget_reported(files, wrappers, k, i, b, x);
}

proof fn lemma_among(
    t: Seq<Node>,
    i: int,
    path: Seq<char>,
    name: Seq<char>,
    x: reinvented_widget::ReinventedFindingView,
)
    requires
        crate::scan::component(t, i),
        name == "dialog"@ || name == "input"@ || name == "select"@ || name == "textarea"@,
        reinvented_widget::element_finding(t, i, path, name).len() > 0,
        reinvented_widget::element_finding(t, i, path, name)[0] == x,
    ensures
        reinvented_widget::component_findings(t, path)(i).contains(x),
{
    let d = reinvented_widget::element_finding(t, i, path, "dialog"@);
    let n = reinvented_widget::element_finding(t, i, path, "input"@);
    let s = reinvented_widget::element_finding(t, i, path, "select"@);
    let a = reinvented_widget::element_finding(t, i, path, "textarea"@);
    let r = reinvented_widget::drag_finding(t, i, path);
    let all = d + n + s + a + r;
    let at: int = if name == "dialog"@ {
        0
    } else if name == "input"@ {
        d.len() as int
    } else if name == "select"@ {
        (d + n).len() as int
    } else {
        (d + n + s).len() as int
    };
    assert(all[at] == x);
}

/// The only `input` of a component whose `type` is `text`, `email`, `password` or
/// `search` is found with medium confidence.
pub proof fn law_text_input_is_found(
    files: Seq<ScannedFile>,
    wrappers: Seq<Seq<char>>,
    k: int,
    i: int,
    b: int,
    j: int,
    a: int,
)
    requires
        component_in(files, k, i, b),
        !wrappers.contains(files[k].path@),
        ({
            let t = nodes(files, k);
            let g = j + 1;
            &&& begins_element(t, b, j, "input"@)
            &&& forall|x: int| #[trigger]
                reinvented_widget::element(t, b, x, "input"@) ==> x < b || x >= j
            &&& ident_in(t, g, a, "type"@) || ident_in(t, g, a, "r#type"@)
            &&& forall|x: int| g < x < a ==> (#[trigger] t[x]).kind != Kind::TokIdent
            &&& mark_in(t, g, a + 1, ":"@)
            &&& under(t, g, a + 2) && t[a + 2].parent == g && t[a + 2].kind == Kind::TokLit
            &&& literal_value(t[a + 2].name@) matches Some(v)
            &&& lower(v) == "text"@ || lower(v) == "email"@ || lower(v) == "password"@ || lower(v)
                == "search"@
        }),
    ensures
        exists|x: reinvented_widget::ReinventedFindingView| #[trigger]
            reinvented_widget::report(files, wrappers).findings.contains(x) && x.file
                == files[k].path@ && x.component == nodes(files, k)[i].name@ && x.reinvented
                == "input"@ && x.line == nodes(files, k)[j].line && x.confidence == "medium"@,
{
    let t = nodes(files, k);
    let path = files[k].path@;
    let g = j + 1;
    assert(files[k].ast->Ok_0.len() == t.len());
    lemma_component_with_body(t, i, b);
    lemma_in_markup(t, b, j);
    let m = lemma_first_element(t, b, t[b].end as int, j, "input"@);
    assert(m == j);
    lemma_token_number(t, g, a);
    lemma_token_number(t, g, a + 1);
    lemma_token_number(t, g, a + 2);
    let ks = kids(t, g);
    let n = tokens_before(t, g, a);
    assert(reinvented_widget::type_at(t, ks, n) is Some);
    lemma_first_type(t, g, a, ks.len() as int);
    let x = reinvented_widget::element_finding(t, i, path, "input"@)[0];
    lemma_among(t, i, path, "input"@, x);
    lemma_widget_reported(files, wrappers, k, i, b, x);
}

proof fn lemma_first_type(t: Seq<Node>, g: int, a: int, hi: int)
    requires
        0 <= g < t.len() <= usize::MAX,
        token_in(t, g, a),
        forall|x: int| g < x < a ==> (#[trigger] t[x]).kind != Kind::TokIdent,
        hi <= kids(t, g).len(),
        reinvented_widget::type_at(t, kids(t, g), tokens_before(t, g, a)) is Some,
        0 <= tokens_before(t, g, a) < kids(t, g).len(),
    ensures
        reinvented_widget::first_type(t, kids(t, g), hi) == if hi <= tokens_before(t, g, a) {
            None
        } else {
            reinvented_widget::type_at(t, kids(t, g), tokens_before(t, g, a))
        },
    decreases hi,
{
    let n = tokens_before(t, g, a);
    if hi > 0 {
        lemma_first_type(t, g, a, hi - 1);
        if hi - 1 < n {
            let y = kids(t, g)[hi - 1] as int;
            lemma_numbered(t, g, hi - 1);
            if y >= a {
                crate::plain::lemma_numbers_grow(t, g, a, y);
            }
            assert(t[y].kind != Kind::TokIdent);
        }
    }
}

/// In the markup from `b` on, token `j` is the attribute `name`.
pub open spec fn has_handler(t: Seq<Node>, b: int, j: int, name: Seq<char>) -> bool {
    b <= j < t[b].end && t[j].kind == Kind::TokIdent && t[j].name@ == name && in_markup(t, b, j)
}

/// A component whose markup handles `ondragover` and `ondrop` is found, with high
/// confidence where it handles `ondragstart` too and low confidence where it does not.
pub proof fn law_drag_and_drop_is_found(
    files: Seq<ScannedFile>,
    wrappers: Seq<Seq<char>>,
    k: int,
    i: int,
    b: int,
    over: int,
    drop: int,
)
    requires
        component_in(files, k, i, b),
        !wrappers.contains(files[k].path@),
        has_handler(nodes(files, k), b, over, "ondragover"@),
        has_handler(nodes(files, k), b, drop, "ondrop"@),
    ensures
        exists|x: reinvented_widget::ReinventedFindingView| #[trigger]
            reinvented_widget::report(files, wrappers).findings.contains(x) && x.file
                == files[k].path@ && x.component == nodes(files, k)[i].name@ && x.reinvented
                == "drag_and_drop_list"@ && ((exists|s: int| #[trigger]
                has_handler(nodes(files, k), b, s, "ondragstart"@)) ==> x.confidence == "high"@)
                && ((forall|s: int|
                b <= s < nodes(files, k)[b].end && (#[trigger] nodes(files, k)[s]).kind
                    == Kind::TokIdent ==> nodes(files, k)[s].name@ != "ondragstart"@)
                ==> x.confidence == "low"@),
{
    let t = nodes(files, k);
    let path = files[k].path@;
    lemma_component_with_body(t, i, b);
    lemma_in_markup(t, b, over);
    lemma_in_markup(t, b, drop);
    assert(reinvented_widget::handler(t, b, over, "ondragover"@));
    assert(reinvented_widget::handler(t, b, drop, "ondrop"@));
    if exists|s: int| #[trigger] has_handler(t, b, s, "ondragstart"@) {
        let s = choose|s: int| #[trigger] has_handler(t, b, s, "ondragstart"@);
        lemma_in_markup(t, b, s);
        assert(reinvented_widget::handler(t, b, s, "ondragstart"@));
    }
    let r = reinvented_widget::drag_finding(t, i, path);
    let x = r[0];
    let all = reinvented_widget::component_findings(t, path)(i);
    assert(all[all.len() - 1] == x);
    lemma_widget_reported(files, wrappers, k, i, b, x);
}

// ---------------------------------------------------------------------------
// Props
// ---------------------------------------------------------------------------

/// Node `i` derives the trait `name`.
pub open spec fn derives_trait(t: Seq<Node>, i: int, a: int, d: int, name: Seq<char>) -> bool {
    &&& under(t, i, a) && t[a].kind == Kind::Attr && t[a].flag && t[a].name@ == "derive"@
        && t[a].parent == i
    &&& under(t, a, d) && d < t[i].end && t[d].kind == Kind::Derive && t[d].name@ == name
        && t[d].parent == a
}

/// A struct at the top level that derives `Props` and does not derive `PartialEq` is
/// found.
pub proof fn law_props_without_partial_eq(
    files: Seq<ScannedFile>,
    k: int,
    i: int,
    a: int,
    d: int,
)
    requires
        parses(files, k),
        ({
            let t = nodes(files, k);
            &&& 0 < i < t.len() && t[i].kind == Kind::Struct && t[i].parent == 0
            &&& derives_trait(t, i, a, d, "Props"@)
            &&& forall|x: int|
                i < x < stop(t, i) && (#[trigger] t[x]).kind == Kind::Derive ==> t[x].name@
                    != "PartialEq"@
        }),
    ensures
        exists|x: props_lint::PropsIssueView| #[trigger]
            props_lint::report(files).issues.contains(x) && x.file == files[k].path@ && x.line
                == nodes(files, k)[i].line && x.struct_name == nodes(files, k)[i].name@ && x.code
                == "props_missing_partial_eq"@,
{
    let t = nodes(files, k);
    let path = files[k].path@;
    let known = props_lint::known_types(files);
    assert(props_lint::derive_at(t, i, d, "Props"@));
    let rule = props_lint::item_issues(t, known, path);
    let x = rule(i)[0];
    assert(rule(i).contains(x));
    lemma_gather_contains(0, t.len() as int, rule, x);
    let outer = props_lint::file_issues(files, known);
    assert(outer(k).contains(x));
    lemma_gather_contains(0, files.len() as int, outer, x);
    assert(props_lint::report(files).issues.contains(x));
}

/// The type `name` is made comparable by no item of the files: no struct or enum of
/// that name is there, and no `impl PartialEq` for it.
pub open spec fn never_compared(files: Seq<ScannedFile>, name: Seq<char>) -> bool {
    forall|k: int, i: int|
        parses(files, k) && 0 < i < nodes(files, k).len() ==> {
            let n = #[trigger] nodes(files, k)[i];
            &&& n.kind == Kind::Struct || n.kind == Kind::Enum ==> n.name@ != name
            &&& n.kind == Kind::Impl ==> n.text@ != name
        }
}

proof fn lemma_never_compared(files: Seq<ScannedFile>, name: Seq<char>)
    requires
        never_compared(files, name),
    ensures
        !props_lint::known_types(files).contains(name),
{
    let outer = props_lint::file_comparable(files);
    if props_lint::known_types(files).contains(name) {
        lemma_gather_contains(0, files.len() as int, outer, name);
        let k = choose|k: int| 0 <= k < files.len() && (#[trigger] outer(k)).contains(name);
        let t = nodes(files, k);
        let rule = props_lint::made_comparable_at(t);
        lemma_gather_contains(0, t.len() as int, rule, name);
        let i = choose|i: int| 0 <= i < t.len() && (#[trigger] rule(i)).contains(name);
        assert(parses(files, k));
        assert(nodes(files, k)[i] == t[i]);
    }
}

/// `name` is a type that a component takes without being run again for it.
pub open spec fn reactive_type(name: Seq<char>) -> bool {
    name == "Signal"@ || name == "ReadOnlySignal"@ || name == "WriteSignal"@ || name
        == "EventHandler"@ || name == "Memo"@ || name == "Resource"@ || name == "GlobalSignal"@
        || name == "Callback"@
}

/// `name` is a type of the language or its library that can be compared.
pub open spec fn library_type(name: Seq<char>) -> bool {
    ||| name == "String"@ || name == "str"@ || name == "bool"@ || name == "char"@
    ||| name == "f32"@ || name == "f64"@
    ||| name == "i8"@ || name == "i16"@ || name == "i32"@ || name == "i64"@ || name == "i128"@
        || name == "isize"@
    ||| name == "u8"@ || name == "u16"@ || name == "u32"@ || name == "u64"@ || name == "u128"@
        || name == "usize"@
    ||| name == "Vec"@ || name == "Box"@ || name == "Option"@ || name == "Result"@ || name == "Rc"@
        || name == "Arc"@ || name == "Cow"@
    ||| name == "HashMap"@ || name == "BTreeMap"@ || name == "HashSet"@ || name == "BTreeSet"@
        || name == "VecDeque"@
    ||| name == "PathBuf"@ || name == "Path"@ || name == "Element"@ || name == "VNode"@
}

/// An argument of a component whose type is a path to a type that nothing makes
/// comparable is found, unless the type is reactive or of the library.
pub proof fn law_type_without_partial_eq(
    files: Seq<ScannedFile>,
    k: int,
    i: int,
    b: int,
    j: int,
    p: int,
    ty: int,
)
    requires
        component_in(files, k, i, b),
        ({
            let t = nodes(files, k);
            &&& under(t, i, j) && t[j].kind == Kind::Arg && t[j].parent == i
            &&& operand(t, j, 0) == Some(p) && operand(t, j, 1) == Some(ty)
            &&& 0 <= ty < t.len() && t[ty].kind == Kind::TyPath
            &&& !reactive_type(t[ty].name@) && !library_type(t[ty].name@)
            &&& never_compared(files, t[ty].name@)
        }),
    ensures
        exists|x: props_lint::PropsIssueView| #[trigger]
            props_lint::report(files).issues.contains(x) && x.file == files[k].path@ && x.line
                == nodes(files, k)[j].line && x.code == "missing_partial_eq_on_prop_type"@,
{
    let t = nodes(files, k);
    let path = files[k].path@;
    let known = props_lint::known_types(files);
    let name = t[ty].name@;
    lemma_component_with_body(t, i, b);
    lemma_never_compared(files, name);
    lemma_inside(t, ty, ty, ty, props_lint::sealed_at(t));
    let unknown = props_lint::unknown_at(t, ty, known);
    assert(unknown(ty)[0] == name);
    assert(unknown(ty).contains(name));
    lemma_gather_contains(ty, stop(t, ty), unknown, name);
    let all = gather(ty, stop(t, ty), unknown);
    lemma_distinct(all);
    lemma_sorted_contains(crate::order::distinct(all), rank::<String>(), name);
    assert(props_lint::unknown_types(t, ty, known).len() > 0);
    let inner = props_lint::arg_issue(t, i, known, path);
    let x = inner(j)[0];
    assert(inner(j).contains(x));
    lemma_gather_contains(i, stop(t, i), inner, x);
    let rule = props_lint::item_issues(t, known, path);
    assert(rule(i).contains(x));
    lemma_gather_contains(0, t.len() as int, rule, x);
    let outer = props_lint::file_issues(files, known);
    assert(outer(k).contains(x));
    lemma_gather_contains(0, files.len() as int, outer, x);
    assert(props_lint::report(files).issues.contains(x));
}

/// Node `m` is a part of a type that hands on what stands in it: a path that is not
/// reactive, the last segment of one, its arguments, a tuple, an array, a slice, a
/// reference, or parentheses.
pub open spec fn hands_type_on(t: Seq<Node>, m: int) -> bool {
    let kind = t[m].kind;
    ||| kind == Kind::TyPath && !reactive_type(t[m].name@)
    ||| kind == Kind::TyTuple || kind == Kind::TyArray || kind == Kind::TySlice || kind
        == Kind::TyRef || kind == Kind::TyParen || kind == Kind::TyGroup || kind == Kind::GenType
    ||| kind == Kind::Segment && t[m].parent < t.len() && t[t[m].parent as int].last == m
}

/// The same holds of a type that stands within the type of the argument, at whatever
/// depth.
pub proof fn law_type_within_without_partial_eq(
    files: Seq<ScannedFile>,
    k: int,
    i: int,
    b: int,
    j: int,
    p: int,
    ty: int,
    n: int,
)
    requires
        component_in(files, k, i, b),
        ({
            let t = nodes(files, k);
            &&& under(t, i, j) && t[j].kind == Kind::Arg && t[j].parent == i
            &&& operand(t, j, 0) == Some(p) && operand(t, j, 1) == Some(ty)
            &&& !(t[ty].kind == Kind::TyPath && reactive_type(t[ty].name@))
            &&& 0 <= ty <= n < stop(t, ty) && n < t.len() && t[n].kind == Kind::TyPath
            &&& !reactive_type(t[n].name@) && !library_type(t[n].name@)
            &&& never_compared(files, t[n].name@)
            &&& forall|m: int|
                ty <= m < n && stop(t, m) > n ==> #[trigger] hands_type_on(t, m)
        }),
    ensures
        exists|x: props_lint::PropsIssueView| #[trigger]
            props_lint::report(files).issues.contains(x) && x.file == files[k].path@ && x.line
                == nodes(files, k)[j].line && x.code == "missing_partial_eq_on_prop_type"@,
{
    let t = nodes(files, k);
    let path = files[k].path@;
    let known = props_lint::known_types(files);
    let name = t[n].name@;
    lemma_component_with_body(t, i, b);
    lemma_never_compared(files, name);
    let sealed = props_lint::sealed_at(t);
    lemma_inside(t, ty, n, n, sealed);
    if crate::scan::inside(t, ty, n, sealed) {
        let m = choose|m: int| ty <= m < n && #[trigger] sealed(m) && stop(t, m) > n;
        assert(hands_type_on(t, m));
    }
    let unknown = props_lint::unknown_at(t, ty, known);
    assert(unknown(n)[0] == name);
    assert(unknown(n).contains(name));
    lemma_gather_contains(ty, stop(t, ty), unknown, name);
    let all = gather(ty, stop(t, ty), unknown);
    lemma_distinct(all);
    lemma_sorted_contains(crate::order::distinct(all), rank::<String>(), name);
    assert(props_lint::unknown_types(t, ty, known).len() > 0);
    let inner = props_lint::arg_issue(t, i, known, path);
    let x = inner(j)[0];
    assert(inner(j).contains(x));
    lemma_gather_contains(i, stop(t, i), inner, x);
    let rule = props_lint::item_issues(t, known, path);
    assert(rule(i).contains(x));
    lemma_gather_contains(0, t.len() as int, rule, x);
    let outer = props_lint::file_issues(files, known);
    assert(outer(k).contains(x));
    lemma_gather_contains(0, files.len() as int, outer, x);
    assert(props_lint::report(files).issues.contains(x));
}

} // verus!
