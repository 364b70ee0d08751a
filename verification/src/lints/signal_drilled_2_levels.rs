//! `signal_drilled_2_levels`: flag a signal that is handed unchanged through two
//! components. Such a signal wants a context provider.
use vstd::prelude::*;

use crate::index::{ComponentInfo, ComponentInfoView};
use crate::order::{
    gather, in_order, law_sorted, lemma_texts_le, only_if, put, put_all, rank, sort, sorted,
    texts_le, texts_leq, Ranked,
};
use crate::paths::{is_same_path, lemma_path_le, path_le, path_leq, same_path};
use crate::prop_drill::{ParentEntry, ParentEntryView, Passthrough, PassthroughView};
use crate::scan::{ParseError, ParseErrorView};
use crate::text::{contains, join, joined, occurs, owned, remove_char, same, without};

verus! {

#[derive(Debug)]
pub struct SignalDrilledParams {
    pub project_root: Option<String>,
}

pub ghost struct SignalDrilledParamsView {
    pub project_root: Option<Seq<char>>,
}

impl DeepView for SignalDrilledParams {
    type V = SignalDrilledParamsView;

    open spec fn deep_view(&self) -> SignalDrilledParamsView {
        SignalDrilledParamsView {
            project_root: self.project_root.deep_view(),
        }
    }
}

#[derive(Debug)]
pub struct SignalDrilledFinding {
    pub code: &'static str,
    pub severity: &'static str,
    pub file: String,
    pub line: usize,
    /// Top of the chain: the component that hands the signal on first.
    pub root_component: String,
    /// The components that the signal passes, the root first.
    pub chain: Vec<String>,
    /// Name of the prop in the root component.
    pub root_prop: String,
    /// Type of that prop.
    pub signal_type: String,
    pub message: String,
    /// Code to paste into the root component.
    pub fix_snippet: String,
}

pub ghost struct SignalDrilledFindingView {
    pub code: Seq<char>,
    pub severity: Seq<char>,
    pub file: Seq<char>,
    pub line: usize,
    pub root_component: Seq<char>,
    pub chain: Seq<Seq<char>>,
    pub root_prop: Seq<char>,
    pub signal_type: Seq<char>,
    pub message: Seq<char>,
    pub fix_snippet: Seq<char>,
}

impl DeepView for SignalDrilledFinding {
    type V = SignalDrilledFindingView;

    open spec fn deep_view(&self) -> SignalDrilledFindingView {
        SignalDrilledFindingView {
            code: self.code@,
            severity: self.severity@,
            file: self.file@,
            line: self.line,
            root_component: self.root_component@,
            chain: self.chain.deep_view(),
            root_prop: self.root_prop@,
            signal_type: self.signal_type@,
            message: self.message@,
            fix_snippet: self.fix_snippet@,
        }
    }
}

#[derive(Debug)]
pub struct SignalDrilledReport {
    pub findings: Vec<SignalDrilledFinding>,
    pub parse_errors: Vec<ParseError>,
}

pub ghost struct SignalDrilledReportView {
    pub findings: Seq<SignalDrilledFindingView>,
    pub parse_errors: Seq<ParseErrorView>,
}

impl DeepView for SignalDrilledReport {
    type V = SignalDrilledReportView;

    open spec fn deep_view(&self) -> SignalDrilledReportView {
        SignalDrilledReportView {
            findings: self.findings.deep_view(),
            parse_errors: self.parse_errors.deep_view(),
        }
    }
}

/// A signal prop that one component hands on to another.
#[derive(Debug)]
pub struct Edge {
    pub component: String,
    pub prop: String,
    pub ty: String,
    pub child: String,
    pub child_prop: String,
    pub file: String,
    pub line: usize,
}

pub ghost struct EdgeView {
    pub component: Seq<char>,
    pub prop: Seq<char>,
    pub ty: Seq<char>,
    pub child: Seq<char>,
    pub child_prop: Seq<char>,
    pub file: Seq<char>,
    pub line: usize,
}

impl DeepView for Edge {
    type V = EdgeView;

    open spec fn deep_view(&self) -> EdgeView {
        EdgeView {
            component: self.component@,
            prop: self.prop@,
            ty: self.ty@,
            child: self.child@,
            child_prop: self.child_prop@,
            file: self.file@,
            line: self.line,
        }
    }
}

impl Ranked for SignalDrilledFinding {
    /// By file, then by line, then by chain.
    open spec fn le(a: SignalDrilledFindingView, b: SignalDrilledFindingView) -> bool {
        if !same_path(a.file, b.file) {
            path_le(a.file, b.file)
        } else if a.line != b.line {
            a.line < b.line
        } else {
            texts_le(a.chain, b.chain)
        }
    }

    proof fn ordered(
        a: SignalDrilledFindingView,
        b: SignalDrilledFindingView,
        c: SignalDrilledFindingView,
    ) {
        lemma_path_le(a.file, b.file, c.file);
        lemma_texts_le(a.chain, b.chain, c.chain);
    }

    fn leq(&self, other: &Self) -> (r: bool) {
        if !is_same_path(self.file.as_str(), other.file.as_str()) {
            path_leq(self.file.as_str(), other.file.as_str())
        } else if self.line != other.line {
            self.line < other.line
        } else {
            texts_leq(&self.chain, &other.chain)
        }
    }
}

/// A type that holds a signal.
pub open spec fn signal_type(ty: Seq<char>) -> bool {
    let s = without(ty, ' ');
    occurs(s, "Signal<"@) || occurs(s, "ReadSignal<"@) || occurs(s, "WriteSignal<"@)
}

pub fn is_signal_type(ty: &str) -> (r: bool)
    ensures
        r == signal_type(ty@),
{
    let s = remove_char(ty, ' ');
    contains(s.as_str(), "Signal<") || contains(s.as_str(), "ReadSignal<") || contains(
        s.as_str(),
        "WriteSignal<",
    )
}

/// The components of a chain that read the signal: all but the first.
pub open spec fn consumers(chain: Seq<Seq<char>>) -> Seq<Seq<char>> {
    if chain.len() > 0 {
        chain.drop_first()
    } else {
        chain
    }
}

/// Code that provides the signal once and reads it in each consumer.
pub open spec fn fix_snippet(
    root: Seq<char>,
    prop: Seq<char>,
    ty: Seq<char>,
    chain: Seq<Seq<char>>,
) -> Seq<char> {
    "// In `"@ + root + "`: stop threading `"@ + prop
        + "` through props — provide it once via context.\nuse_context_provider(|| "@ + prop
        + ");  // `"@ + prop + ": "@ + ty + "`\n\n// Then in each consumer ("@ + joined(
        consumers(chain),
        ", "@,
    ) + "):\nlet "@ + prop + " = use_context::<"@ + ty + ">();"@
}

pub fn build_fix_snippet(root: &str, prop: &str, ty: &str, chain: &Vec<String>) -> (r: String)
    ensures
        r@ == fix_snippet(root@, prop@, ty@, chain.deep_view()),
{
    let mut readers: Vec<String> = Vec::new();
    let mut k: usize = 1;
    while k < chain.len()
        invariant
            1 <= k,
            k <= chain.len() || k == 1,
            k <= chain.len() ==> readers.deep_view() =~= chain.deep_view().subrange(1, k as int),
            k > chain.len() ==> readers.len() == 0,
        decreases chain.len() - k,
    {
        put(&mut readers, owned(chain[k].as_str()));
        k += 1;
    }
    assert(readers.deep_view() =~= consumers(chain.deep_view()));
    let mut s = owned("// In `");
    s.append(root);
    s.append("`: stop threading `");
    s.append(prop);
    s.append("` through props — provide it once via context.\nuse_context_provider(|| ");
    s.append(prop);
    s.append(");  // `");
    s.append(prop);
    s.append(": ");
    s.append(ty);
    s.append("`\n\n// Then in each consumer (");
    s.append(join(&readers, ", ").as_str());
    s.append("):\nlet ");
    s.append(prop);
    s.append(" = use_context::<");
    s.append(ty);
    s.append(">();");
    s
}

// ---------------------------------------------------------------------------
// Edges
// ---------------------------------------------------------------------------

/// The type of the last prop called `prop` among the first `n` props of `c`.
pub open spec fn prop_type_in(c: ComponentInfoView, prop: Seq<char>, n: int) -> Option<Seq<char>>
    decreases n,
{
    if n <= 0 {
        None
    } else if c.props[n - 1].name == prop {
        Some(c.props[n - 1].ty)
    } else {
        prop_type_in(c, prop, n - 1)
    }
}

/// The type of `prop` in the last of the first `n` components that is called
/// `component` and has such a prop.
pub open spec fn prop_type(
    cs: Seq<ComponentInfoView>,
    component: Seq<char>,
    prop: Seq<char>,
    n: int,
) -> Option<Seq<char>>
    decreases n,
{
    if n <= 0 {
        None
    } else {
        let c = cs[n - 1];
        let found = prop_type_in(c, prop, c.props.len() as int);
        if c.name == component && found is Some {
            found
        } else {
            prop_type(cs, component, prop, n - 1)
        }
    }
}

fn prop_type_in_of(c: &ComponentInfo, prop: &str) -> (r: Option<String>)
    ensures
        r.deep_view() == prop_type_in(c.deep_view(), prop@, c.deep_view().props.len() as int),
{
    let ghost v = c.deep_view();
    let mut n: usize = c.props.len();
    while n > 0
        invariant
            n <= c.props.len(),
            v == c.deep_view(),
            prop_type_in(v, prop@, v.props.len() as int) == prop_type_in(v, prop@, n as int),
        decreases n,
    {
        assert(v.props[n - 1] == c.props@[n - 1].deep_view());
        if same(c.props[n - 1].name.as_str(), prop) {
            return Some(owned(c.props[n - 1].ty.as_str()));
        }
        n -= 1;
    }
    None
}

fn prop_type_of(cs: &Vec<ComponentInfo>, component: &str, prop: &str) -> (r: Option<String>)
    ensures
        r.deep_view() == prop_type(cs.deep_view(), component@, prop@, cs.deep_view().len() as int),
{
    let ghost v = cs.deep_view();
    let mut n: usize = cs.len();
    while n > 0
        invariant
            n <= cs.len(),
            v == cs.deep_view(),
            prop_type(v, component@, prop@, v.len() as int) == prop_type(
                v,
                component@,
                prop@,
                n as int,
            ),
        decreases n,
    {
        assert(v[n - 1] == cs@[n - 1].deep_view());
        if same(cs[n - 1].name.as_str(), component) {
            let found = prop_type_in_of(&cs[n - 1], prop);
            if found.is_some() {
                return found;
            }
        }
        n -= 1;
    }
    None
}

/// The edge that the passthrough `pt` of `parent` is, if its prop is a signal.
pub open spec fn edge(
    cs: Seq<ComponentInfoView>,
    parent: ParentEntryView,
    pt: PassthroughView,
) -> Option<EdgeView> {
    match prop_type(cs, parent.component, pt.parent_prop, cs.len() as int) {
        Some(ty) => if signal_type(ty) {
            Some(
                EdgeView {
                    component: parent.component,
                    prop: pt.parent_prop,
                    ty,
                    child: pt.child,
                    child_prop: pt.child_prop,
                    file: parent.file,
                    line: pt.line,
                },
            )
        } else {
            None
        },
        None => None,
    }
}

pub open spec fn parent_edge(cs: Seq<ComponentInfoView>, parent: ParentEntryView) -> spec_fn(
    int,
) -> Seq<EdgeView> {
    |j: int|
        match edge(cs, parent, parent.passthroughs[j]) {
            Some(e) => seq![e],
            None => Seq::empty(),
        }
}

pub open spec fn parent_edges(cs: Seq<ComponentInfoView>, ps: Seq<ParentEntryView>) -> spec_fn(
    int,
) -> Seq<EdgeView> {
    |k: int| gather(0, ps[k].passthroughs.len() as int, parent_edge(cs, ps[k]))
}

/// The signal props that components hand on.
pub open spec fn edges(cs: Seq<ComponentInfoView>, ps: Seq<ParentEntryView>) -> Seq<EdgeView> {
    gather(0, ps.len() as int, parent_edges(cs, ps))
}

fn edge_of(cs: &Vec<ComponentInfo>, parent: &ParentEntry, pt: &Passthrough) -> (r: Option<Edge>)
    ensures
        r.deep_view() == edge(cs.deep_view(), parent.deep_view(), pt.deep_view()),
{
    match prop_type_of(cs, parent.component.as_str(), pt.parent_prop.as_str()) {
        Some(ty) => if is_signal_type(ty.as_str()) {
            Some(
                Edge {
                    component: owned(parent.component.as_str()),
                    prop: owned(pt.parent_prop.as_str()),
                    ty,
                    child: owned(pt.child.as_str()),
                    child_prop: owned(pt.child_prop.as_str()),
                    file: owned(parent.file.as_str()),
                    line: pt.line,
                },
            )
        } else {
            None
        },
        None => None,
    }
}

fn edges_of_parent(cs: &Vec<ComponentInfo>, parent: &ParentEntry) -> (r: Vec<Edge>)
    ensures
        r.deep_view() == gather(
            0,
            parent.deep_view().passthroughs.len() as int,
            parent_edge(cs.deep_view(), parent.deep_view()),
        ),
{
    let ghost p = parent.deep_view();
    let mut out: Vec<Edge> = Vec::new();
    let mut j: usize = 0;
    while j < parent.passthroughs.len()
        invariant
            j <= parent.passthroughs.len(),
            p == parent.deep_view(),
            out.deep_view() == gather(0, j as int, parent_edge(cs.deep_view(), p)),
        decreases parent.passthroughs.len() - j,
    {
        assert(p.passthroughs[j as int] == parent.passthroughs@[j as int].deep_view());
        match edge_of(cs, parent, &parent.passthroughs[j]) {
            Some(e) => put(&mut out, e),
            None => {},
        }
        j += 1;
    }
    out
}

fn edges_of(cs: &Vec<ComponentInfo>, ps: &Vec<ParentEntry>) -> (r: Vec<Edge>)
    ensures
        r.deep_view() == edges(cs.deep_view(), ps.deep_view()),
{
    let ghost v = ps.deep_view();
    let mut out: Vec<Edge> = Vec::new();
    let mut k: usize = 0;
    while k < ps.len()
        invariant
            k <= ps.len(),
            v == ps.deep_view(),
            out.deep_view() == gather(0, k as int, parent_edges(cs.deep_view(), v)),
        decreases ps.len() - k,
    {
        assert(v[k as int] == ps@[k as int].deep_view());
        put_all(&mut out, edges_of_parent(cs, &ps[k]));
        k += 1;
    }
    out
}

// ---------------------------------------------------------------------------
// Chains
// ---------------------------------------------------------------------------

/// `b` hands on what `a` hands to its child.
pub open spec fn follows(a: EdgeView, b: EdgeView) -> bool {
    b.component == a.child && b.prop == a.child_prop
}

pub open spec fn message(a: EdgeView, b: EdgeView) -> Seq<char> {
    "`"@ + a.prop + ": "@ + a.ty + "` is drilled through 2 parents ("@ + a.component + " → "@
        + a.child + " → "@ + b.child
        + ") without being modified — this is the missing-`use_context_provider` shape. Lifting the signal into a context provider near the top of the tree lets each component pull it directly with `use_context::<"@
        + a.ty + ">()` instead of threading the prop down."@
}

/// The finding on the chain that `a` and then `b` make.
pub open spec fn finding(a: EdgeView, b: EdgeView) -> SignalDrilledFindingView {
    let chain = seq![a.component, a.child, b.child];
    SignalDrilledFindingView {
        code: "signal_drilled_2_levels"@,
        severity: "warning"@,
        file: a.file,
        line: a.line,
        root_component: a.component,
        chain,
        root_prop: a.prop,
        signal_type: a.ty,
        message: message(a, b),
        fix_snippet: fix_snippet(a.component, a.prop, a.ty, chain),
    }
}

pub open spec fn chain_at(es: Seq<EdgeView>, a: EdgeView) -> spec_fn(int) -> Seq<
    SignalDrilledFindingView,
> {
    |j: int| only_if(follows(a, es[j]), finding(a, es[j]))
}

pub open spec fn chains_from(es: Seq<EdgeView>) -> spec_fn(int) -> Seq<SignalDrilledFindingView> {
    |i: int| gather(0, es.len() as int, chain_at(es, es[i]))
}

/// One finding for each two edges of which the second follows the first, by
/// file, line and chain.
pub open spec fn findings(es: Seq<EdgeView>) -> Seq<SignalDrilledFindingView> {
    sorted(gather(0, es.len() as int, chains_from(es)), rank::<SignalDrilledFinding>())
}

fn finding_of(a: &Edge, b: &Edge) -> (r: SignalDrilledFinding)
    ensures
        r.deep_view() == finding(a.deep_view(), b.deep_view()),
{
    let mut chain: Vec<String> = Vec::new();
    put(&mut chain, owned(a.component.as_str()));
    put(&mut chain, owned(a.child.as_str()));
    put(&mut chain, owned(b.child.as_str()));
    assert(chain.deep_view() =~= seq![a.component@, a.child@, b.child@]);
    let fix_snippet = build_fix_snippet(
        a.component.as_str(),
        a.prop.as_str(),
        a.ty.as_str(),
        &chain,
    );
    let mut m = owned("`");
    m.append(a.prop.as_str());
    m.append(": ");
    m.append(a.ty.as_str());
    m.append("` is drilled through 2 parents (");
    m.append(a.component.as_str());
    m.append(" → ");
    m.append(a.child.as_str());
    m.append(" → ");
    m.append(b.child.as_str());
    m.append(
        ") without being modified — this is the missing-`use_context_provider` shape. Lifting the signal into a context provider near the top of the tree lets each component pull it directly with `use_context::<",
    );
    m.append(a.ty.as_str());
    m.append(">()` instead of threading the prop down.");
    SignalDrilledFinding {
        code: "signal_drilled_2_levels",
        severity: "warning",
        file: owned(a.file.as_str()),
        line: a.line,
        root_component: owned(a.component.as_str()),
        chain,
        root_prop: owned(a.prop.as_str()),
        signal_type: owned(a.ty.as_str()),
        message: m,
        fix_snippet,
    }
}

fn chains_of(es: &Vec<Edge>, a: &Edge) -> (r: Vec<SignalDrilledFinding>)
    ensures
        r.deep_view() == gather(
            0,
            es.deep_view().len() as int,
            chain_at(es.deep_view(), a.deep_view()),
        ),
{
    let ghost v = es.deep_view();
    let mut out: Vec<SignalDrilledFinding> = Vec::new();
    let mut j: usize = 0;
    while j < es.len()
        invariant
            j <= es.len(),
            v == es.deep_view(),
            out.deep_view() == gather(0, j as int, chain_at(v, a.deep_view())),
        decreases es.len() - j,
    {
        assert(v[j as int] == es@[j as int].deep_view());
        if same(es[j].component.as_str(), a.child.as_str()) && same(
            es[j].prop.as_str(),
            a.child_prop.as_str(),
        ) {
            put(&mut out, finding_of(a, &es[j]));
        }
        j += 1;
    }
    out
}

/// The findings on the edges `es`.
pub fn chain_findings(es: &Vec<Edge>) -> (r: Vec<SignalDrilledFinding>)
    ensures
        r.deep_view() == findings(es.deep_view()),
{
    let ghost v = es.deep_view();
    let mut out: Vec<SignalDrilledFinding> = Vec::new();
    let mut i: usize = 0;
    while i < es.len()
        invariant
            i <= es.len(),
            v == es.deep_view(),
            out.deep_view() == gather(0, i as int, chains_from(v)),
        decreases es.len() - i,
    {
        assert(v[i as int] == es@[i as int].deep_view());
        put_all(&mut out, chains_of(es, &es[i]));
        i += 1;
    }
    sort(out)
}

/// What there is to report.
pub open spec fn report(
    cs: Seq<ComponentInfoView>,
    parents: Seq<ParentEntryView>,
    parse_errors: Seq<ParseErrorView>,
) -> SignalDrilledReportView {
    SignalDrilledReportView {
        findings: findings(edges(cs, parents)),
        parse_errors: parse_errors,
    }
}

/// Reports the signals that pass two components unchanged. `cs` are the
/// components of the project, `parents` the props that they hand on, and
/// `parse_errors` what went wrong in finding those.
pub fn signal_drilled_2_levels(
    cs: &Vec<ComponentInfo>,
    parents: &Vec<ParentEntry>,
    parse_errors: Vec<ParseError>,
) -> (r: SignalDrilledReport)
    ensures
        r.deep_view() == report(cs.deep_view(), parents.deep_view(), parse_errors.deep_view()),
{
    let es = edges_of(cs, parents);
    SignalDrilledReport { findings: chain_findings(&es), parse_errors }
}

/// Findings are ordered by file, then by line, then by chain, and every chain
/// is reported: there are as many findings as there are pairs of edges of which
/// the second follows the first.
pub proof fn law_findings_in_order(es: Seq<EdgeView>)
    ensures
        in_order(findings(es), rank::<SignalDrilledFinding>()),
        findings(es).to_multiset() == gather(0, es.len() as int, chains_from(es)).to_multiset(),
{
    law_sorted::<SignalDrilledFinding>(gather(0, es.len() as int, chains_from(es)));
}

} // verus!
