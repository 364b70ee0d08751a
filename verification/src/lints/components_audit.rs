//! `components_audit`: flag classes that are named like a widget of the catalog.
//!
//! The hits are `class: "<text>"` attributes in `rsx!` bodies with a word like
//! `modal` or `tabs`. They are hints: names of classes are conventions.
use vstd::prelude::*;

use crate::literal::{quote, strip_str_literal};
use crate::order::{
    gather, holds, lemma_gather_contains, lemma_text_le, only_if, put, put_all, rank, sort, sorted,
    text_le, text_leq, Ranked,
};
use crate::paths::{is_same_path, lemma_path_le, path_le, path_leq, same_path};
use crate::scan::{
    ParseError, ParseErrorView, ScannedFile, body_end, body_of, body_start, collect_parse_errors,
    component, inside, is_component, is_punct, is_rsx, is_word, parse_errors, punct, reach, rsx_at,
    word,
};
use crate::tape::{Kind, Node, stop_of};
use crate::text::{fields, lower, owned, same, split_whitespace, to_lower};

verus! {

#[derive(Debug)]
pub struct ComponentsAuditParams {
    pub project_root: Option<String>,
}

pub ghost struct ComponentsAuditParamsView {
    pub project_root: Option<Seq<char>>,
}

impl DeepView for ComponentsAuditParams {
    type V = ComponentsAuditParamsView;

    open spec fn deep_view(&self) -> ComponentsAuditParamsView {
        ComponentsAuditParamsView {
            project_root: self.project_root.deep_view(),
        }
    }
}

#[derive(Debug)]
pub struct ComponentsAuditFinding {
    /// The widget of the catalog.
    pub reinvented: &'static str,
    pub component: String,
    pub file: String,
    pub line: usize,
    /// The whole class attribute.
    pub matched_class: String,
    /// Always `low`: names of classes are conventions.
    pub confidence: &'static str,
    pub hint: String,
}

pub ghost struct ComponentsAuditFindingView {
    pub reinvented: Seq<char>,
    pub component: Seq<char>,
    pub file: Seq<char>,
    pub line: usize,
    pub matched_class: Seq<char>,
    pub confidence: Seq<char>,
    pub hint: Seq<char>,
}

impl DeepView for ComponentsAuditFinding {
    type V = ComponentsAuditFindingView;

    open spec fn deep_view(&self) -> ComponentsAuditFindingView {
        ComponentsAuditFindingView {
            reinvented: self.reinvented@,
            component: self.component@,
            file: self.file@,
            line: self.line,
            matched_class: self.matched_class@,
            confidence: self.confidence@,
            hint: self.hint@,
        }
    }
}

#[derive(Debug)]
pub struct ComponentsAuditReport {
    pub findings: Vec<ComponentsAuditFinding>,
    pub parse_errors: Vec<ParseError>,
}

pub ghost struct ComponentsAuditReportView {
    pub findings: Seq<ComponentsAuditFindingView>,
    pub parse_errors: Seq<ParseErrorView>,
}

impl DeepView for ComponentsAuditReport {
    type V = ComponentsAuditReportView;

    open spec fn deep_view(&self) -> ComponentsAuditReportView {
        ComponentsAuditReportView {
            findings: self.findings.deep_view(),
            parse_errors: self.parse_errors.deep_view(),
        }
    }
}

/// A class that is named like a widget.
#[derive(Debug)]
pub struct ClassHit {
    pub catalog: &'static str,
    pub line: usize,
    pub class: String,
}

pub ghost struct ClassHitView {
    pub catalog: Seq<char>,
    pub line: usize,
    pub class: Seq<char>,
}

impl DeepView for ClassHit {
    type V = ClassHitView;

    open spec fn deep_view(&self) -> ClassHitView {
        ClassHitView {
            catalog: self.catalog@,
            line: self.line,
            class: self.class@,
        }
    }
}

impl Ranked for ComponentsAuditFinding {
    /// By file, then by line, then by component, then by widget.
    open spec fn le(a: ComponentsAuditFindingView, b: ComponentsAuditFindingView) -> bool {
        if !same_path(a.file, b.file) {
            path_le(a.file, b.file)
        } else if a.line != b.line {
            a.line < b.line
        } else if a.component != b.component {
            text_le(a.component, b.component)
        } else {
            text_le(a.reinvented, b.reinvented)
        }
    }

    proof fn ordered(
        a: ComponentsAuditFindingView,
        b: ComponentsAuditFindingView,
        c: ComponentsAuditFindingView,
    ) {
        lemma_path_le(a.file, b.file, c.file);
        lemma_text_le(a.component, b.component, c.component);
        lemma_text_le(a.reinvented, b.reinvented, c.reinvented);
    }

    fn leq(&self, other: &Self) -> (r: bool) {
        if !is_same_path(self.file.as_str(), other.file.as_str()) {
            path_leq(self.file.as_str(), other.file.as_str())
        } else if self.line != other.line {
            self.line < other.line
        } else if !same(self.component.as_str(), other.component.as_str()) {
            text_leq(self.component.as_str(), other.component.as_str())
        } else {
            text_leq(self.reinvented, other.reinvented)
        }
    }
}

/// Names of classes, and the widgets that they suggest. Names as general as
/// `card` or `button` are left out.
pub const CLASS_TO_CATALOG: [(&'static str, &'static str); 22] = [
    ("modal", "dialog"),
    ("dialog", "dialog"),
    ("popover", "popover"),
    ("tooltip", "tooltip"),
    ("accordion", "accordion"),
    ("tabs", "tabs"),
    ("tab-strip", "tabs"),
    ("tablist", "tabs"),
    ("calendar", "calendar"),
    ("datepicker", "date_picker"),
    ("date-picker", "date_picker"),
    ("dropdown", "dropdown_menu"),
    ("dropdown-menu", "dropdown_menu"),
    ("pagination", "pagination"),
    ("toast", "toast"),
    ("snackbar", "toast"),
    ("sidebar", "sidebar"),
    ("drawer", "sheet"),
    ("avatar", "avatar"),
    ("badge", "badge"),
    ("progress", "progress"),
    ("progress-bar", "progress"),
];

/// The widget that the class `name` suggests, among the first `n` entries.
pub open spec fn suggested(name: Seq<char>, n: int) -> Option<Seq<char>>
    decreases n,
{
    if n <= 0 {
        None
    } else {
        match suggested(name, n - 1) {
            Some(w) => Some(w),
            None => if CLASS_TO_CATALOG@[n - 1].0@ == name {
                Some(CLASS_TO_CATALOG@[n - 1].1@)
            } else {
                None
            },
        }
    }
}

/// The widget that the class `name` suggests.
pub open spec fn widget(name: Seq<char>) -> Option<Seq<char>> {
    suggested(lower(name), CLASS_TO_CATALOG@.len() as int)
}

fn widget_of(name: &str) -> (r: Option<&'static str>)
    ensures
        r.deep_view() == widget(name@),
{
    let name = to_lower(name);
    let mut found: Option<&'static str> = None;
    let mut k: usize = 0;
    while k < CLASS_TO_CATALOG.len()
        invariant
            k <= CLASS_TO_CATALOG.len(),
            found.deep_view() == suggested(name@, k as int),
        decreases CLASS_TO_CATALOG.len() - k,
    {
        let (class, catalog) = CLASS_TO_CATALOG[k];
        if found.is_none() && same(class, name.as_str()) {
            found = Some(catalog);
        }
        k += 1;
    }
    found
}

// ---------------------------------------------------------------------------
// Class attributes
// ---------------------------------------------------------------------------

/// The class attribute that starts at token `j`: `class: "<text>"`.
pub open spec fn class_at(t: Seq<Node>, j: int) -> Option<Seq<char>> {
    if word(t, j, "class"@) && j + 2 < t.len() && punct(t, j + 1, ":"@) && t[j + 1].parent
        == t[j].parent && t[j + 2].kind == Kind::TokLit && t[j + 2].parent == t[j].parent {
        quote(t[j + 2].name@)
    } else {
        None
    }
}

fn class_of(t: &Vec<Node>, j: usize) -> (r: Option<String>)
    requires
        j < t.len(),
    ensures
        r.deep_view() == class_at(t@, j as int),
{
    if is_word(t, j, "class") && t.len() - j > 2 && is_punct(t, j + 1, ":") && t[j + 1].parent
        == t[j].parent && t[j + 2].kind == Kind::TokLit && t[j + 2].parent == t[j].parent {
        strip_str_literal(t[j + 2].name.as_str())
    } else {
        None
    }
}

/// The hit of word `k` of the class attribute `class`.
pub open spec fn word_hit(class: Seq<char>, line: usize) -> spec_fn(int) -> Seq<ClassHitView> {
    |k: int|
        match widget(fields(class)[k]) {
            Some(catalog) => seq![ClassHitView { catalog, line, class }],
            None => Seq::empty(),
        }
}

/// The hits of token `j` of the macro at `m`.
pub open spec fn token_hits(t: Seq<Node>, lo: int) -> spec_fn(int) -> Seq<ClassHitView> {
    |j: int|
        match class_at(t, j) {
            Some(class) => if inside(t, lo, j, rsx_at(t)) {
                gather(0, fields(class).len() as int, word_hit(class, t[j + 2].line))
            } else {
                Seq::empty()
            },
            None => Seq::empty(),
        }
}

/// The hits in the `rsx!` bodies of the function at `f`.
pub open spec fn hits(t: Seq<Node>, f: int) -> Seq<ClassHitView> {
    gather(body_start(t, f), body_end(t, f), token_hits(t, body_start(t, f)))
}

fn word_hits(class: &str, line: usize) -> (r: Vec<ClassHit>)
    ensures
        r.deep_view() == gather(0, fields(class@).len() as int, word_hit(class@, line)),
{
    let words = split_whitespace(class);
    let mut out: Vec<ClassHit> = Vec::new();
    let mut k: usize = 0;
    while k < words.len()
        invariant
            k <= words.len(),
            words.deep_view() == fields(class@),
            out.deep_view() == gather(0, k as int, word_hit(class@, line)),
        decreases words.len() - k,
    {
        assert(words.deep_view()[k as int] == words@[k as int]@);
        match widget_of(words[k].as_str()) {
            Some(catalog) => put(&mut out, ClassHit { catalog, line, class: owned(class) }),
            None => {},
        }
        k += 1;
    }
    out
}

pub fn scan_class_attrs(t: &Vec<Node>, f: usize) -> (r: Vec<ClassHit>)
    requires
        f < t.len(),
    ensures
        r.deep_view() == hits(t@, f as int),
{
    let (lo, hi) = body_of(t, f);
    let mut out: Vec<ClassHit> = Vec::new();
    let mut until: usize = lo;
    let mut j: usize = lo;
    while j < hi
        invariant
            lo <= j <= hi <= t.len(),
            until == reach(t@, lo as int, j as int, rsx_at(t@)),
            out.deep_view() == gather(lo as int, j as int, token_hits(t@, lo as int)),
        decreases hi - j,
    {
        if j < until {
            match class_of(t, j) {
                Some(class) => put_all(&mut out, word_hits(class.as_str(), t[j + 2].line)),
                None => {},
            }
        }
        if is_rsx(t, j) {
            let end = stop_of(t, j);
            if end > until {
                until = end;
            }
        }
        j += 1;
    }
    out
}

// ---------------------------------------------------------------------------
// Findings
// ---------------------------------------------------------------------------

pub open spec fn hint(class: Seq<char>, catalog: Seq<char>) -> Seq<char> {
    "`class: \""@
        + class
        + "\"` looks like a hand-rolled "@
        + catalog
        + " shape. Catalog ships `"@
        + catalog
        + "` with theming, keyboard navigation, and a11y wiring already done. `dx components add "@
        + catalog
        + "` to install, then call `describe_component` for the prop surface. `confidence: low` — class names are conventions, not contracts; verify the shape before swapping."@
}

fn hint_of(class: &str, catalog: &str) -> (r: String)
    ensures
        r@ == hint(class@, catalog@),
{
    let mut s = owned("`class: \"");
    s.append(class);
    s.append("\"` looks like a hand-rolled ");
    s.append(catalog);
    s.append(" shape. Catalog ships `");
    s.append(catalog);
    s.append("` with theming, keyboard navigation, and a11y wiring already done. `dx components add ");
    s.append(catalog);
    s.append("` to install, then call `describe_component` for the prop surface. `confidence: low` — class names are conventions, not contracts; verify the shape before swapping.");
    s
}

/// No hit before number `k` suggests the same widget.
pub open spec fn first_of_widget(hs: Seq<ClassHitView>, k: int) -> bool {
    forall|m: int| 0 <= m < k ==> (#[trigger] hs[m]).catalog != hs[k].catalog
}

/// The finding on the first hit for each widget.
pub open spec fn hit_finding(
    t: Seq<Node>,
    f: int,
    file: Seq<char>,
    hs: Seq<ClassHitView>,
) -> spec_fn(
    int,
) -> Seq<ComponentsAuditFindingView> {
    |k: int|
        only_if(
            first_of_widget(hs, k),
            ComponentsAuditFindingView {
                reinvented: hs[k].catalog,
                component: t[f].name@,
                file,
                line: hs[k].line,
                matched_class: hs[k].class,
                confidence: "low"@,
                hint: hint(hs[k].class, hs[k].catalog),
            },
        )
}

pub open spec fn component_findings(t: Seq<Node>, file: Seq<char>) -> spec_fn(int) -> Seq<
    ComponentsAuditFindingView,
> {
    |f: int|
        if component(t, f) {
            gather(0, hits(t, f).len() as int, hit_finding(t, f, file, hits(t, f)))
        } else {
            Seq::empty()
        }
}

fn is_first_of_widget(hs: &Vec<ClassHit>, k: usize) -> (r: bool)
    requires
        k < hs.len(),
    ensures
        r == first_of_widget(hs.deep_view(), k as int),
{
    let ghost v = hs.deep_view();
    assert(v[k as int] == hs@[k as int].deep_view());
    let mut m: usize = 0;
    while m < k
        invariant
            m <= k < hs.len(),
            v == hs.deep_view(),
            v[k as int] == hs@[k as int].deep_view(),
            forall|i: int| 0 <= i < m ==> (#[trigger] v[i]).catalog != v[k as int].catalog,
        decreases k - m,
    {
        assert(v[m as int] == hs@[m as int].deep_view());
        if same(hs[m].catalog, hs[k].catalog) {
            return false;
        }
        m += 1;
    }
    true
}

fn component_findings_of(t: &Vec<Node>, f: usize, file: &str) -> (r: Vec<ComponentsAuditFinding>)
    requires
        f < t.len(),
    ensures
        r.deep_view() == gather(
            0,
            hits(t@, f as int).len() as int,
            hit_finding(t@, f as int, file@, hits(t@, f as int)),
        ),
{
    let hs = scan_class_attrs(t, f);
    let ghost v = hs.deep_view();
    let mut out: Vec<ComponentsAuditFinding> = Vec::new();
    let mut k: usize = 0;
    while k < hs.len()
        invariant
            f < t.len(),
            k <= hs.len(),
            v == hs.deep_view(),
            out.deep_view() == gather(0, k as int, hit_finding(t@, f as int, file@, v)),
        decreases hs.len() - k,
    {
        assert(v[k as int] == hs@[k as int].deep_view());
        if is_first_of_widget(&hs, k) {
            let finding = ComponentsAuditFinding {
                reinvented: hs[k].catalog,
                component: owned(t[f].name.as_str()),
                file: owned(file),
                line: hs[k].line,
                matched_class: owned(hs[k].class.as_str()),
                confidence: "low",
                hint: hint_of(hs[k].class.as_str(), hs[k].catalog),
            };
            put(&mut out, finding);
        }
        k += 1;
    }
    out
}

pub fn scan_file(t: &Vec<Node>, file: &str) -> (r: Vec<ComponentsAuditFinding>)
    ensures
        r.deep_view() == gather(0, t@.len() as int, component_findings(t@, file@)),
{
    let mut out: Vec<ComponentsAuditFinding> = Vec::new();
    let mut j: usize = 0;
    while j < t.len()
        invariant
            j <= t.len(),
            out.deep_view() == gather(0, j as int, component_findings(t@, file@)),
        decreases t.len() - j,
    {
        if is_component(t, j) {
            put_all(&mut out, component_findings_of(t, j, file));
        }
        j += 1;
    }
    out
}

pub open spec fn file_findings(
    files: Seq<ScannedFile>,
    wrappers: Seq<Seq<char>>,
) -> spec_fn(int) -> Seq<ComponentsAuditFindingView> {
    |k: int|
        match files[k].ast {
            Ok(t) => if wrappers.contains(files[k].path@) {
                Seq::empty()
            } else {
                gather(0, t@.len() as int, component_findings(t@, files[k].path@))
            },
            Err(_) => Seq::empty(),
        }
}

fn all_findings(files: &Vec<ScannedFile>, wrappers: &Vec<String>) -> (r: Vec<
    ComponentsAuditFinding,
>)
    ensures
        r.deep_view() == gather(
            0,
            files@.len() as int,
            file_findings(files@, wrappers.deep_view()),
        ),
{
    let mut out: Vec<ComponentsAuditFinding> = Vec::new();
    let mut k: usize = 0;
    while k < files.len()
        invariant
            k <= files.len(),
            out.deep_view() == gather(
                0,
                k as int,
                file_findings(files@, wrappers.deep_view()),
            ),
        decreases files.len() - k,
    {
        let path = files[k].path.as_str();
        match &files[k].ast {
            Ok(t) => {
                if !holds(wrappers, path) {
                    put_all(&mut out, scan_file(t, path));
                }
            },
            Err(_) => {},
        }
        k += 1;
    }
    out
}

/// What there is to report.
pub open spec fn report(
    files: Seq<ScannedFile>,
    wrappers: Seq<Seq<char>>,
) -> ComponentsAuditReportView {
    ComponentsAuditReportView {
        findings: sorted(
            gather(
                0,
                files.len() as int,
                file_findings(files, wrappers),
            ),
            rank::<ComponentsAuditFinding>(),
        ),
        parse_errors: parse_errors(files),
    }
}

/// Reports the classes in `rsx!` bodies of `files` that are named like a widget
/// of the catalog, by file, line, component and widget. The files of the widgets
/// themselves, at the paths `wrappers`, are left out.
pub fn components_audit(files: &Vec<ScannedFile>, wrappers: &Vec<String>) -> (r:
    ComponentsAuditReport)
    ensures
        r.deep_view() == report(files@, wrappers.deep_view()),
{
    ComponentsAuditReport {
        findings: sort(all_findings(files, wrappers)),
        parse_errors: collect_parse_errors(files),
    }
}

/// A component gets one finding for each widget, however often its classes
/// suggest it.
pub proof fn law_once_per_widget(
    t: Seq<Node>,
    f: int,
    file: Seq<char>,
    x: ComponentsAuditFindingView,
    y: ComponentsAuditFindingView,
)
    requires
        component_findings(t, file)(f).contains(x),
        component_findings(t, file)(f).contains(y),
        x.reinvented == y.reinvented,
    ensures
        x == y,
{
    let hs = hits(t, f);
    let n = hs.len() as int;
    let rule = hit_finding(t, f, file, hs);
    lemma_gather_contains(0, n, rule, x);
    lemma_gather_contains(0, n, rule, y);
    let i = choose|i: int| 0 <= i < n && (#[trigger] rule(i)).contains(x);
    let j = choose|j: int| 0 <= j < n && (#[trigger] rule(j)).contains(y);
    assert(rule(i).contains(x) && rule(j).contains(y));
    if i < j {
        assert(hs[i].catalog != hs[j].catalog);
    } else if j < i {
        assert(hs[j].catalog != hs[i].catalog);
    }
}

} // verus!
