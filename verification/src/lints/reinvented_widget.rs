//! `reinvented_widget`: flag components that do by hand what the catalog has.
//!
//! The shapes are the handlers of drag and drop, all three or those of a drop
//! target, and bare elements like `select` for which the catalog has a widget.
use vstd::prelude::*;

use crate::literal::{literal_value, parse_literal};
use crate::order::{
    gather, holds, lemma_text_le, put, put_all, rank, sort, sorted, text_le, text_leq, Ranked,
};
use crate::paths::{is_same_path, lemma_path_le, path_le, path_leq, same_path};
use crate::scan::{
    ParseError, ParseErrorView, ScannedFile, body_end, body_of, body_start, collect_parse_errors,
    component, inside, is_component, is_punct, is_rsx, is_then_group, is_word, kids, kids_of,
    parse_errors, punct, reach, rsx_at, then_group, word,
};
use crate::tape::{Kind, Node, stop, stop_of};
use crate::text::{lower, owned, same, to_lower};

verus! {

#[derive(Debug)]
pub struct ReinventedWidgetParams {
    pub project_root: Option<String>,
}

pub ghost struct ReinventedWidgetParamsView {
    pub project_root: Option<Seq<char>>,
}

impl DeepView for ReinventedWidgetParams {
    type V = ReinventedWidgetParamsView;

    open spec fn deep_view(&self) -> ReinventedWidgetParamsView {
        ReinventedWidgetParamsView {
            project_root: self.project_root.deep_view(),
        }
    }
}

#[derive(Debug)]
pub struct ReinventedFinding {
    /// The widget of the catalog.
    pub reinvented: &'static str,
    pub component: String,
    pub file: String,
    pub line: usize,
    pub confidence: &'static str,
    pub hint: String,
}

pub ghost struct ReinventedFindingView {
    pub reinvented: Seq<char>,
    pub component: Seq<char>,
    pub file: Seq<char>,
    pub line: usize,
    pub confidence: Seq<char>,
    pub hint: Seq<char>,
}

impl DeepView for ReinventedFinding {
    type V = ReinventedFindingView;

    open spec fn deep_view(&self) -> ReinventedFindingView {
        ReinventedFindingView {
            reinvented: self.reinvented@,
            component: self.component@,
            file: self.file@,
            line: self.line,
            confidence: self.confidence@,
            hint: self.hint@,
        }
    }
}

#[derive(Debug)]
pub struct ReinventedWidgetReport {
    pub findings: Vec<ReinventedFinding>,
    pub parse_errors: Vec<ParseError>,
}

pub ghost struct ReinventedWidgetReportView {
    pub findings: Seq<ReinventedFindingView>,
    pub parse_errors: Seq<ParseErrorView>,
}

impl DeepView for ReinventedWidgetReport {
    type V = ReinventedWidgetReportView;

    open spec fn deep_view(&self) -> ReinventedWidgetReportView {
        ReinventedWidgetReportView {
            findings: self.findings.deep_view(),
            parse_errors: self.parse_errors.deep_view(),
        }
    }
}

impl Ranked for ReinventedFinding {
    /// By file, then by line, then by component.
    open spec fn le(a: ReinventedFindingView, b: ReinventedFindingView) -> bool {
        if !same_path(a.file, b.file) {
            path_le(a.file, b.file)
        } else if a.line != b.line {
            a.line < b.line
        } else {
            text_le(a.component, b.component)
        }
    }

    proof fn ordered(a: ReinventedFindingView, b: ReinventedFindingView, c: ReinventedFindingView) {
        lemma_path_le(a.file, b.file, c.file);
        lemma_text_le(a.component, b.component, c.component);
    }

    fn leq(&self, other: &Self) -> (r: bool) {
        if !is_same_path(self.file.as_str(), other.file.as_str()) {
            path_leq(self.file.as_str(), other.file.as_str())
        } else if self.line != other.line {
            self.line < other.line
        } else {
            text_leq(self.component.as_str(), other.component.as_str())
        }
    }
}

/// A type of `input` that takes text.
pub open spec fn text_type(name: Seq<char>) -> bool {
    ||| name == "text"@
    ||| name == "email"@
    ||| name == "password"@
    ||| name == "search"@
}

fn is_text_type(name: &str) -> (r: bool)
    ensures
        r == text_type(name@),
{
    same(name, "text")
        || same(name, "email")
        || same(name, "password")
        || same(name, "search")
}

pub open spec fn medium_hint(dom: Seq<char>, catalog: Seq<char>) -> Seq<char> {
    "`<"@
        + dom
        + ">` here is a text-flavoured input (`type=\"text\"`/`email`/`password`/`search`) — the catalog's `"@
        + catalog
        + "` widget is a direct drop-in with theming, label / error wiring, and a11y already handled. `dx components add "@
        + catalog
        + "` to install. `confidence: medium` because the catalog target is unambiguous for these `type=` values (unlike `file`/`range`/`color`/`date`)."@
}

fn medium_hint_of(dom: &str, catalog: &str) -> (r: String)
    ensures
        r@ == medium_hint(dom@, catalog@),
{
    let mut s = owned("`<");
    s.append(dom);
    s.append(">` here is a text-flavoured input (`type=\"text\"`/`email`/`password`/`search`) — the catalog's `");
    s.append(catalog);
    s.append("` widget is a direct drop-in with theming, label / error wiring, and a11y already handled. `dx components add ");
    s.append(catalog);
    s.append("` to install. `confidence: medium` because the catalog target is unambiguous for these `type=` values (unlike `file`/`range`/`color`/`date`).");
    s
}

pub open spec fn low_hint(dom: Seq<char>, catalog: Seq<char>) -> Seq<char> {
    "`<"@
        + dom
        + ">` is a bare DOM element; the catalog ships `"@
        + catalog
        + "` with theming, keyboard navigation, and a11y wiring already done. `dx components add "@
        + catalog
        + "` to install. `confidence: low` because specialised forms (e.g. `<input type=\"file\">`) have no catalog equivalent — verify the use case before swapping."@
}

fn low_hint_of(dom: &str, catalog: &str) -> (r: String)
    ensures
        r@ == low_hint(dom@, catalog@),
{
    let mut s = owned("`<");
    s.append(dom);
    s.append(">` is a bare DOM element; the catalog ships `");
    s.append(catalog);
    s.append("` with theming, keyboard navigation, and a11y wiring already done. `dx components add ");
    s.append(catalog);
    s.append("` to install. `confidence: low` because specialised forms (e.g. `<input type=\"file\">`) have no catalog equivalent — verify the use case before swapping.");
    s
}

pub open spec fn dom_hint(dom: Seq<char>, catalog: Seq<char>, confidence: Seq<char>) -> Seq<char> {
    if confidence == "medium"@ {
        medium_hint(dom, catalog)
    } else {
        low_hint(dom, catalog)
    }
}

pub fn build_dom_hint(dom_name: &str, catalog_name: &str, confidence: &str) -> (r: String)
    ensures
        r@ == dom_hint(dom_name@, catalog_name@, confidence@),
{
    if same(confidence, "medium") {
        medium_hint_of(dom_name, catalog_name)
    } else {
        low_hint_of(dom_name, catalog_name)
    }
}

pub open spec fn triplet_hint() -> Seq<char> {
    "all three of `ondragstart` / `ondragover` / `ondrop` are wired here. Catalog widget `drag_and_drop_list` covers single-list reordering with pointer / keyboard / touch out of the box. Caveat: it does NOT support cross-list drops, so kanban-style boards with multiple drop targets genuinely need this hand-rolled pattern — verify shape before installing."@
}

fn triplet_hint_of() -> (r: String)
    ensures
        r@ == triplet_hint(),
{
    let s = owned("all three of `ondragstart` / `ondragover` / `ondrop` are wired here. Catalog widget `drag_and_drop_list` covers single-list reordering with pointer / keyboard / touch out of the box. Caveat: it does NOT support cross-list drops, so kanban-style boards with multiple drop targets genuinely need this hand-rolled pattern — verify shape before installing.");
    s
}

pub open spec fn target_hint() -> Seq<char> {
    "drop-target half of HTML5 drag-and-drop (`ondragover` + `ondrop`) is wired here without `ondragstart`. Common kanban shape: the card component (a sibling) starts the drag, this component receives it. Catalog `drag_and_drop_list` covers single-list reordering but does NOT support cross-list drops, so a multi-column board legitimately needs the hand-rolled pattern. Filter `confidence: \"low\"` out if you only want the full-triplet hits."@
}

fn target_hint_of() -> (r: String)
    ensures
        r@ == target_hint(),
{
    let s = owned("drop-target half of HTML5 drag-and-drop (`ondragover` + `ondrop`) is wired here without `ondragstart`. Common kanban shape: the card component (a sibling) starts the drag, this component receives it. Catalog `drag_and_drop_list` covers single-list reordering but does NOT support cross-list drops, so a multi-column board legitimately needs the hand-rolled pattern. Filter `confidence: \"low\"` out if you only want the full-triplet hits.");
    s
}

// ---------------------------------------------------------------------------
// Elements
// ---------------------------------------------------------------------------

/// Token `j` of an `rsx!` body opens the element `name`.
pub open spec fn element(t: Seq<Node>, lo: int, j: int, name: Seq<char>) -> bool {
    word(t, j, name) && then_group(t, j, "{"@) && inside(t, lo, j, rsx_at(t))
}

/// The first element `name` between `lo` and `hi`.
pub open spec fn first_element(t: Seq<Node>, lo: int, hi: int, name: Seq<char>) -> Option<int>
    decreases hi - lo,
{
    if hi <= lo {
        None
    } else {
        match first_element(t, lo, hi - 1, name) {
            Some(j) => Some(j),
            None => if element(t, lo, hi - 1, name) {
                Some(hi - 1)
            } else {
                None
            },
        }
    }
}

fn first_element_of(t: &Vec<Node>, lo: usize, hi: usize, name: &str) -> (r: Option<usize>)
    requires
        lo <= hi <= t.len(),
    ensures
        match r {
            Some(j) => first_element(t@, lo as int, hi as int, name@) == Some(j as int) && j + 1
                < t.len(),
            None => first_element(t@, lo as int, hi as int, name@) is None,
        },
{
    let mut found: Option<usize> = None;
    let mut until: usize = lo;
    let mut j: usize = lo;
    while j < hi
        invariant
            lo <= j <= hi <= t.len(),
            until == reach(t@, lo as int, j as int, rsx_at(t@)),
            match found {
                Some(i) => first_element(t@, lo as int, j as int, name@) == Some(i as int) && i + 1
                    < t.len(),
                None => first_element(t@, lo as int, j as int, name@) is None,
            },
        decreases hi - j,
    {
        if found.is_none() && j < until && is_word(t, j, name) && is_then_group(t, j, "{") {
            found = Some(j);
        }
        if is_rsx(t, j) {
            let end = stop_of(t, j);
            if end > until {
                until = end;
            }
        }
        j += 1;
    }
    found
}

/// The value of the attribute `type` that starts at number `k` of the tokens
/// `ks`: `type: "<text>"`, in lower case.
pub open spec fn type_at(t: Seq<Node>, ks: Seq<usize>, k: int) -> Option<Seq<char>> {
    if k + 2 < ks.len() && (word(t, ks[k] as int, "r#type"@) || word(t, ks[k] as int, "type"@))
        && punct(t, ks[k + 1] as int, ":"@) && t[ks[k + 2] as int].kind == Kind::TokLit {
        match literal_value(t[ks[k + 2] as int].name@) {
            Some(v) => Some(lower(v)),
            None => None,
        }
    } else {
        None
    }
}

/// The first attribute `type` among the first `n` of the tokens `ks`.
pub open spec fn first_type(t: Seq<Node>, ks: Seq<usize>, n: int) -> Option<Seq<char>>
    decreases n,
{
    if n <= 0 {
        None
    } else {
        match first_type(t, ks, n - 1) {
            Some(v) => Some(v),
            None => type_at(t, ks, n - 1),
        }
    }
}

/// The value of the attribute `type` of the element whose braces are at `g`.
pub open spec fn input_type(t: Seq<Node>, g: int) -> Option<Seq<char>> {
    first_type(t, kids(t, g), kids(t, g).len() as int)
}

pub fn input_type_attr(t: &Vec<Node>, g: usize) -> (r: Option<String>)
    requires
        g < t.len(),
    ensures
        r.deep_view() == input_type(t@, g as int),
{
    let ks = kids_of(t, g);
    let end = stop_of(t, g);
    let mut found: Option<String> = None;
    let mut k: usize = 0;
    while k < ks.len()
        invariant
            k <= ks.len(),
            end <= t.len(),
            end == stop(t@, g as int),
            forall|i: int| 0 <= i < ks.len() ==> g < #[trigger] ks[i] < stop(t@, g as int),
            found.deep_view() == first_type(t@, ks@, k as int),
        decreases ks.len() - k,
    {
        if found.is_none() && ks.len() - k > 2 && (is_word(t, ks[k], "r#type") || is_word(
            t,
            ks[k],
            "type",
        )) && is_punct(t, ks[k + 1], ":") && t[ks[k + 2]].kind == Kind::TokLit {
            found = match parse_literal(t[ks[k + 2]].name.as_str()) {
                Some(v) => Some(to_lower(v.as_str())),
                None => None,
            };
        }
        k += 1;
    }
    found
}

/// How sure the finding on the element `name` is whose braces are at `g`: more
/// for an `input` that takes text.
pub open spec fn confidence(t: Seq<Node>, name: Seq<char>, g: int) -> Seq<char> {
    if name == "input"@ {
        match input_type(t, g) {
            Some(v) => if text_type(v) {
                "medium"@
            } else {
                "low"@
            },
            None => "low"@,
        }
    } else {
        "low"@
    }
}

pub fn confidence_for_dom_element(t: &Vec<Node>, dom: &str, g: usize) -> (r: &'static str)
    requires
        g < t.len(),
    ensures
        r@ == confidence(t@, dom@, g as int),
{
    if !same(dom, "input") {
        return "low";
    }
    match input_type_attr(t, g) {
        Some(v) => if is_text_type(v.as_str()) {
            "medium"
        } else {
            "low"
        },
        None => "low",
    }
}

/// The finding on the first element `name` of the component at `f`.
pub open spec fn element_finding(t: Seq<Node>, f: int, file: Seq<char>, name: Seq<char>) -> Seq<
    ReinventedFindingView,
> {
    match first_element(t, body_start(t, f), body_end(t, f), name) {
        Some(j) => seq![
            ReinventedFindingView {
                reinvented: name,
                component: t[f].name@,
                file,
                line: t[j].line,
                confidence: confidence(t, name, j + 1),
                hint: dom_hint(name, name, confidence(t, name, j + 1)),
            },
        ],
        None => Seq::empty(),
    }
}

fn put_element(
    out: &mut Vec<ReinventedFinding>,
    t: &Vec<Node>,
    f: usize,
    file: &str,
    name: &'static str,
)
    requires
        f < t.len(),
    ensures
        final(out).deep_view() == old(out).deep_view() + element_finding(
            t@,
            f as int,
            file@,
            name@,
        ),
{
    let (lo, hi) = body_of(t, f);
    match first_element_of(t, lo, hi, name) {
        Some(j) => {
            let confidence = confidence_for_dom_element(t, name, j + 1);
            let finding = ReinventedFinding {
                reinvented: name,
                component: owned(t[f].name.as_str()),
                file: owned(file),
                line: t[j].line,
                confidence,
                hint: build_dom_hint(name, name, confidence),
            };
            put(out, finding);
        },
        None => {},
    }
}

// ---------------------------------------------------------------------------
// Handlers
// ---------------------------------------------------------------------------

/// Token `j` of an `rsx!` body is the handler `name`.
pub open spec fn handler(t: Seq<Node>, lo: int, j: int, name: Seq<char>) -> bool {
    word(t, j, name) && inside(t, lo, j, rsx_at(t))
}

/// The function at `f` has the handler `name` in an `rsx!` body.
pub open spec fn handles(t: Seq<Node>, f: int, name: Seq<char>) -> bool {
    exists|j: int|
        body_start(t, f) <= j < body_end(t, f) && handler(t, body_start(t, f), j, name)
}

/// Token `j` is a handler for dragging.
pub open spec fn drag_handler(t: Seq<Node>, lo: int, j: int) -> bool {
    handler(t, lo, j, "ondragstart"@) || handler(t, lo, j, "ondragover"@) || handler(
        t,
        lo,
        j,
        "ondrop"@,
    )
}

/// The line of the first handler for dragging before `hi`.
pub open spec fn drag_line(t: Seq<Node>, lo: int, hi: int) -> Option<usize>
    decreases hi - lo,
{
    if hi <= lo {
        None
    } else {
        match drag_line(t, lo, hi - 1) {
            Some(line) => Some(line),
            None => if drag_handler(t, lo, hi - 1) {
                Some(t[hi - 1].line)
            } else {
                None
            },
        }
    }
}

/// The finding on handlers for dragging in the component at `f`: all three, or
/// those of a drop target.
pub open spec fn drag_finding(t: Seq<Node>, f: int, file: Seq<char>) -> Seq<ReinventedFindingView> {
    if handles(t, f, "ondragover"@) && handles(t, f, "ondrop"@) {
        let whole = handles(t, f, "ondragstart"@);
        seq![
            ReinventedFindingView {
                reinvented: "drag_and_drop_list"@,
                component: t[f].name@,
                file,
                line: match drag_line(t, body_start(t, f), body_end(t, f)) {
                    Some(line) => line,
                    None => t[f].line,
                },
                confidence: if whole {
                    "high"@
                } else {
                    "low"@
                },
                hint: if whole {
                    triplet_hint()
                } else {
                    target_hint()
                },
            },
        ]
    } else {
        Seq::empty()
    }
}

/// What `rsx!` bodies of the function at `f` hold: the three handlers, and the
/// line of the first.
fn scan_event_handlers(t: &Vec<Node>, f: usize) -> (r: (bool, bool, bool, Option<usize>))
    requires
        f < t.len(),
    ensures
        r.0 == handles(t@, f as int, "ondragstart"@),
        r.1 == handles(t@, f as int, "ondragover"@),
        r.2 == handles(t@, f as int, "ondrop"@),
        r.3 == drag_line(t@, body_start(t@, f as int), body_end(t@, f as int)),
{
    let (lo, hi) = body_of(t, f);
    let mut start = false;
    let mut over = false;
    let mut drop = false;
    let mut line: Option<usize> = None;
    let mut until: usize = lo;
    let mut j: usize = lo;
    while j < hi
        invariant
            lo <= j <= hi <= t.len(),
            until == reach(t@, lo as int, j as int, rsx_at(t@)),
            start == exists|k: int| lo <= k < j && handler(t@, lo as int, k, "ondragstart"@),
            over == exists|k: int| lo <= k < j && handler(t@, lo as int, k, "ondragover"@),
            drop == exists|k: int| lo <= k < j && handler(t@, lo as int, k, "ondrop"@),
            line == drag_line(t@, lo as int, j as int),
        decreases hi - j,
    {
        if j < until {
            let is_start = is_word(t, j, "ondragstart");
            let is_over = is_word(t, j, "ondragover");
            let is_drop = is_word(t, j, "ondrop");
            assert(is_start == handler(t@, lo as int, j as int, "ondragstart"@));
            assert(is_over == handler(t@, lo as int, j as int, "ondragover"@));
            assert(is_drop == handler(t@, lo as int, j as int, "ondrop"@));
            start = start || is_start;
            over = over || is_over;
            drop = drop || is_drop;
            if line.is_none() && (is_start || is_over || is_drop) {
                line = Some(t[j].line);
            }
        } else {
            assert(!handler(t@, lo as int, j as int, "ondragstart"@));
            assert(!handler(t@, lo as int, j as int, "ondragover"@));
            assert(!handler(t@, lo as int, j as int, "ondrop"@));
        }
        if is_rsx(t, j) {
            let end = stop_of(t, j);
            if end > until {
                until = end;
            }
        }
        j += 1;
    }
    (start, over, drop, line)
}

fn put_drag(out: &mut Vec<ReinventedFinding>, t: &Vec<Node>, f: usize, file: &str)
    requires
        f < t.len(),
    ensures
        final(out).deep_view() == old(out).deep_view() + drag_finding(t@, f as int, file@),
{
    let (start, over, drop, line) = scan_event_handlers(t, f);
    if over && drop {
        let finding = ReinventedFinding {
            reinvented: "drag_and_drop_list",
            component: owned(t[f].name.as_str()),
            file: owned(file),
            line: match line {
                Some(l) => l,
                None => t[f].line,
            },
            confidence: if start {
                "high"
            } else {
                "low"
            },
            hint: if start {
                triplet_hint_of()
            } else {
                target_hint_of()
            },
        };
        put(out, finding);
    }
}

// ---------------------------------------------------------------------------
// Findings
// ---------------------------------------------------------------------------

/// The findings on node `f`, if it is a component.
pub open spec fn component_findings(t: Seq<Node>, file: Seq<char>) -> spec_fn(int) -> Seq<
    ReinventedFindingView,
> {
    |f: int|
        if component(t, f) {
            element_finding(t, f, file, "dialog"@) + element_finding(t, f, file, "input"@)
                + element_finding(t, f, file, "select"@) + element_finding(t, f, file, "textarea"@)
                + drag_finding(t, f, file)
        } else {
            Seq::empty()
        }
}

fn component_findings_of(t: &Vec<Node>, f: usize, file: &str) -> (r: Vec<ReinventedFinding>)
    requires
        f < t.len(),
        component(t@, f as int),
    ensures
        r.deep_view() == component_findings(t@, file@)(f as int),
{
    let mut out: Vec<ReinventedFinding> = Vec::new();
    put_element(&mut out, t, f, file, "dialog");
    put_element(&mut out, t, f, file, "input");
    put_element(&mut out, t, f, file, "select");
    put_element(&mut out, t, f, file, "textarea");
    put_drag(&mut out, t, f, file);
    assert(out.deep_view() =~= component_findings(t@, file@)(f as int));
    out
}

pub fn scan_file(t: &Vec<Node>, file: &str) -> (r: Vec<ReinventedFinding>)
    ensures
        r.deep_view() == gather(0, t@.len() as int, component_findings(t@, file@)),
{
    let mut out: Vec<ReinventedFinding> = Vec::new();
    let mut j: usize = 0;
    while j < t.len()
        invariant
            j <= t.len(),
            out.deep_view() == gather(0, j as int, component_findings(t@, file@)),
        decreases t.len() - j,
    {
        if is_component(t, j) {
            put_all(&mut out, component_findings_of(t, j, file));
        }
        j += 1;
    }
    out
}

pub open spec fn file_findings(
    files: Seq<ScannedFile>,
    wrappers: Seq<Seq<char>>,
) -> spec_fn(int) -> Seq<ReinventedFindingView> {
    |k: int|
        match files[k].ast {
            Ok(t) => if wrappers.contains(files[k].path@) {
                Seq::empty()
            } else {
                gather(0, t@.len() as int, component_findings(t@, files[k].path@))
            },
            Err(_) => Seq::empty(),
        }
}

fn all_findings(files: &Vec<ScannedFile>, wrappers: &Vec<String>) -> (r: Vec<
    ReinventedFinding,
>)
    ensures
        r.deep_view() == gather(
            0,
            files@.len() as int,
            file_findings(files@, wrappers.deep_view()),
        ),
{
    let mut out: Vec<ReinventedFinding> = Vec::new();
    let mut k: usize = 0;
    while k < files.len()
        invariant
            k <= files.len(),
            out.deep_view() == gather(
                0,
                k as int,
                file_findings(files@, wrappers.deep_view()),
            ),
        decreases files.len() - k,
    {
        let path = files[k].path.as_str();
        match &files[k].ast {
            Ok(t) => {
                if !holds(wrappers, path) {
                    put_all(&mut out, scan_file(t, path));
                }
            },
            Err(_) => {},
        }
        k += 1;
    }
    out
}

/// What there is to report.
pub open spec fn report(
    files: Seq<ScannedFile>,
    wrappers: Seq<Seq<char>>,
) -> ReinventedWidgetReportView {
    ReinventedWidgetReportView {
        findings: sorted(
            gather(
                0,
                files.len() as int,
                file_findings(files, wrappers),
            ),
            rank::<ReinventedFinding>(),
        ),
        parse_errors: parse_errors(files),
    }
}

/// Reports the components in `files` that do by hand what a widget of the catalog
/// does, by file, line and component. The files of the widgets themselves, at
/// the paths `wrappers`, are left out.
pub fn reinvented_widget(files: &Vec<ScannedFile>, wrappers: &Vec<String>) -> (r:
    ReinventedWidgetReport)
    ensures
        r.deep_view() == report(files@, wrappers.deep_view()),
{
    ReinventedWidgetReport {
        findings: sort(all_findings(files, wrappers)),
        parse_errors: collect_parse_errors(files),
    }
}

/// A component gets at most one finding for each widget.
pub proof fn law_once_per_widget(t: Seq<Node>, f: int, file: Seq<char>, i: int, j: int)
    requires
        0 <= i < j < component_findings(t, file)(f).len(),
    ensures
        component_findings(t, file)(f)[i].reinvented != component_findings(t, file)(f)[j].reinvented,
{
    reveal_strlit("dialog");
    reveal_strlit("input");
    reveal_strlit("select");
    reveal_strlit("textarea");
    reveal_strlit("drag_and_drop_list");
    assert("dialog"@[0] == 'd' && "dialog"@.len() == 6);
    assert("input"@[0] == 'i' && "select"@[0] == 's' && "textarea"@[0] == 't');
    assert("drag_and_drop_list"@.len() == 18 && "drag_and_drop_list"@[0] == 'd');
    let a = element_finding(t, f, file, "dialog"@);
    let b = element_finding(t, f, file, "input"@);
    let c = element_finding(t, f, file, "select"@);
    let d = element_finding(t, f, file, "textarea"@);
    let e = drag_finding(t, f, file);
    let all = component_findings(t, file)(f);
    assert(all == a + b + c + d + e);
    assert forall|k: int| 0 <= k < all.len() implies {
        let n = #[trigger] all[k].reinvented;
        &&& k < a.len() <==> n == "dialog"@
        &&& a.len() <= k < a.len() + b.len() <==> n == "input"@
        &&& a.len() + b.len() <= k < a.len() + b.len() + c.len() <==> n == "select"@
        &&& a.len() + b.len() + c.len() <= k < a.len() + b.len() + c.len() + d.len() <==> n
            == "textarea"@
    } by {
        if k < a.len() {
            assert(all[k] == a[k]);
        } else if k < a.len() + b.len() {
            assert(all[k] == b[k - a.len()]);
        } else if k < a.len() + b.len() + c.len() {
            assert(all[k] == c[k - a.len() - b.len()]);
        } else if k < a.len() + b.len() + c.len() + d.len() {
            assert(all[k] == d[k - a.len() - b.len() - c.len()]);
        } else {
            assert(all[k] == e[k - a.len() - b.len() - c.len() - d.len()]);
        }
    }
    let x = all[i].reinvented;
    let y = all[j].reinvented;
    assert(x == all[i].reinvented && y == all[j].reinvented);
}

} // verus!
