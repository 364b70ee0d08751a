//! `vec_or_owned_prop_passthrough`: hint when a component takes an owned value
//! (`Vec<T>` or a struct of the project) that every render of the parent clones.
//!
//! A finding has confidence `medium` if a component that writes signals calls
//! the component, since each such write clones the value again, and `low` if
//! none does: then the cost is bounded to the mount.
use vstd::prelude::*;

use crate::order::{
    gather, holds, lemma_gather_contains, lemma_sorted_contains, lemma_text_le, only_if, put, rank,
    sort, sorted, text_le, text_leq, Ranked,
};
use crate::scan::{
    body_end, body_of, body_start, collect_parse_errors, component, compound, inside, is_component,
    is_compound, is_rsx, is_then_group, parse_errors, pat_name, pat_name_of, reach, rsx_at,
    then_group, ParseError, ParseErrorView, ScannedFile,
};
use crate::tape::{first_type_arg, first_type_arg_of, operand, operand_of, stop, stop_of, Kind, Node};
use crate::text::{capital, is_capital, join, joined, owned, same, tight, tighten_ws};

verus! {

#[derive(Debug)]
pub struct VecOrOwnedPropParams {
    pub project_root: Option<String>,
}

pub ghost struct VecOrOwnedPropParamsView {
    pub project_root: Option<Seq<char>>,
}

impl DeepView for VecOrOwnedPropParams {
    type V = VecOrOwnedPropParamsView;

    open spec fn deep_view(&self) -> VecOrOwnedPropParamsView {
        VecOrOwnedPropParamsView {
            project_root: self.project_root.deep_view(),
        }
    }
}

#[derive(Debug)]
pub struct VecOrOwnedFinding {
    pub code: &'static str,
    pub severity: &'static str,
    pub confidence: &'static str,
    pub file: String,
    pub line: usize,
    pub component: String,
    pub arg_name: String,
    pub arg_type: String,
    /// Components that call this one in their `rsx!` and write signals.
    pub reactive_callers: Vec<String>,
    pub message: String,
    pub fix: String,
}

pub ghost struct VecOrOwnedFindingView {
    pub code: Seq<char>,
    pub severity: Seq<char>,
    pub confidence: Seq<char>,
    pub file: Seq<char>,
    pub line: usize,
    pub component: Seq<char>,
    pub arg_name: Seq<char>,
    pub arg_type: Seq<char>,
    pub reactive_callers: Seq<Seq<char>>,
    pub message: Seq<char>,
    pub fix: Seq<char>,
}

impl DeepView for VecOrOwnedFinding {
    type V = VecOrOwnedFindingView;

    open spec fn deep_view(&self) -> VecOrOwnedFindingView {
        VecOrOwnedFindingView {
            code: self.code@,
            severity: self.severity@,
            confidence: self.confidence@,
            file: self.file@,
            line: self.line,
            component: self.component@,
            arg_name: self.arg_name@,
            arg_type: self.arg_type@,
            reactive_callers: self.reactive_callers.deep_view(),
            message: self.message@,
            fix: self.fix@,
        }
    }
}

#[derive(Debug)]
pub struct VecOrOwnedPropReport {
    pub findings: Vec<VecOrOwnedFinding>,
    pub parse_errors: Vec<ParseError>,
}

pub ghost struct VecOrOwnedPropReportView {
    pub findings: Seq<VecOrOwnedFindingView>,
    pub parse_errors: Seq<ParseErrorView>,
}

impl DeepView for VecOrOwnedPropReport {
    type V = VecOrOwnedPropReportView;

    open spec fn deep_view(&self) -> VecOrOwnedPropReportView {
        VecOrOwnedPropReportView {
            findings: self.findings.deep_view(),
            parse_errors: self.parse_errors.deep_view(),
        }
    }
}

/// The two shapes of an owned argument.
#[derive(Debug)]
pub enum OwnedCategory {
    /// `Vec<T>`; the text of `T`.
    Vec(String),
    /// A type of the project passed by value; its name.
    Owned(String),
}

pub ghost enum OwnedCategoryView {
    Vec(Seq<char>),
    Owned(Seq<char>),
}

impl DeepView for OwnedCategory {
    type V = OwnedCategoryView;

    open spec fn deep_view(&self) -> OwnedCategoryView {
        match self {
            OwnedCategory::Vec(s) => OwnedCategoryView::Vec(s@),
            OwnedCategory::Owned(s) => OwnedCategoryView::Owned(s@),
        }
    }
}

/// An argument of a component that is passed by value.
#[derive(Debug)]
pub struct OwnedArg {
    pub name: String,
    pub ty: String,
    pub line: usize,
    pub category: OwnedCategory,
}

pub ghost struct OwnedArgView {
    pub name: Seq<char>,
    pub ty: Seq<char>,
    pub line: usize,
    pub category: OwnedCategoryView,
}

impl DeepView for OwnedArg {
    type V = OwnedArgView;

    open spec fn deep_view(&self) -> OwnedArgView {
        OwnedArgView {
            name: self.name@,
            ty: self.ty@,
            line: self.line,
            category: self.category.deep_view(),
        }
    }
}

/// What the lint reads of a component.
#[derive(Debug)]
pub struct ComponentSig {
    pub name: String,
    pub file: String,
    /// Its body writes signals.
    pub reactive: bool,
    /// The components that its `rsx!` calls.
    pub callees: Vec<String>,
    pub args: Vec<OwnedArg>,
}

pub ghost struct ComponentSigView {
    pub name: Seq<char>,
    pub file: Seq<char>,
    pub reactive: bool,
    pub callees: Seq<Seq<char>>,
    pub args: Seq<OwnedArgView>,
}

impl DeepView for ComponentSig {
    type V = ComponentSigView;

    open spec fn deep_view(&self) -> ComponentSigView {
        ComponentSigView {
            name: self.name@,
            file: self.file@,
            reactive: self.reactive,
            callees: self.callees.deep_view(),
            args: self.args.deep_view(),
        }
    }
}

impl Ranked for VecOrOwnedFinding {
    /// By component, then by argument.
    open spec fn le(a: VecOrOwnedFindingView, b: VecOrOwnedFindingView) -> bool {
        if a.component == b.component {
            text_le(a.arg_name, b.arg_name)
        } else {
            text_le(a.component, b.component)
        }
    }

    proof fn ordered(a: VecOrOwnedFindingView, b: VecOrOwnedFindingView, c: VecOrOwnedFindingView) {
        lemma_text_le(a.component, b.component, c.component);
        lemma_text_le(a.arg_name, b.arg_name, c.arg_name);
    }

    fn leq(&self, other: &Self) -> (r: bool) {
        if same(self.component.as_str(), other.component.as_str()) {
            text_leq(self.arg_name.as_str(), other.arg_name.as_str())
        } else {
            text_leq(self.component.as_str(), other.component.as_str())
        }
    }
}

// ---------------------------------------------------------------------------
// Types
// ---------------------------------------------------------------------------

/// Containers that carry a handle, not a copy.
pub open spec fn reactive_type(name: Seq<char>) -> bool {
    ||| name == "Signal"@
    ||| name == "ReadOnlySignal"@
    ||| name == "WriteSignal"@
    ||| name == "EventHandler"@
    ||| name == "Memo"@
    ||| name == "Resource"@
    ||| name == "GlobalSignal"@
    ||| name == "Callback"@
    ||| name == "Element"@
    ||| name == "VNode"@
}

fn is_reactive_type(name: &str) -> (r: bool)
    ensures
        r == reactive_type(name@),
{
    same(name, "Signal") || same(name, "ReadOnlySignal") || same(name, "WriteSignal") || same(
        name,
        "EventHandler",
    ) || same(name, "Memo") || same(name, "Resource") || same(name, "GlobalSignal") || same(
        name,
        "Callback",
    ) || same(name, "Element") || same(name, "VNode")
}

/// Types of the standard library that are cheap or too common to report.
pub open spec fn plain_type(name: Seq<char>) -> bool {
    ||| name == "String"@
    ||| name == "str"@
    ||| name == "bool"@
    ||| name == "char"@
    ||| name == "f32"@
    ||| name == "f64"@
    ||| name == "i8"@
    ||| name == "i16"@
    ||| name == "i32"@
    ||| name == "i64"@
    ||| name == "i128"@
    ||| name == "isize"@
    ||| name == "u8"@
    ||| name == "u16"@
    ||| name == "u32"@
    ||| name == "u64"@
    ||| name == "u128"@
    ||| name == "usize"@
    ||| name == "Option"@
    ||| name == "Result"@
    ||| name == "Box"@
    ||| name == "Rc"@
    ||| name == "Arc"@
    ||| name == "Cow"@
    ||| name == "HashMap"@
    ||| name == "BTreeMap"@
    ||| name == "HashSet"@
    ||| name == "BTreeSet"@
    ||| name == "PathBuf"@
    ||| name == "Path"@
}

fn is_plain_type(name: &str) -> (r: bool)
    ensures
        r == plain_type(name@),
{
    same(name, "String") || same(name, "str") || same(name, "bool") || same(name, "char") || same(
        name,
        "f32",
    ) || same(name, "f64") || same(name, "i8") || same(name, "i16") || same(name, "i32") || same(
        name,
        "i64",
    ) || same(name, "i128") || same(name, "isize") || same(name, "u8") || same(name, "u16") || same(
        name,
        "u32",
    ) || same(name, "u64") || same(name, "u128") || same(name, "usize") || same(name, "Option")
        || same(name, "Result") || same(name, "Box") || same(name, "Rc") || same(name, "Arc")
        || same(name, "Cow") || same(name, "HashMap") || same(name, "BTreeMap") || same(
        name,
        "HashSet",
    ) || same(name, "BTreeSet") || same(name, "PathBuf") || same(name, "Path")
}

/// What kind of owned value the type at `i` is, if it is one.
pub open spec fn category(t: Seq<Node>, i: int) -> Option<OwnedCategoryView> {
    let name = t[i].name@;
    if t[i].kind != Kind::TyPath || reactive_type(name) {
        None
    } else if name == "Vec"@ {
        match first_type_arg(t, i) {
            Some(s) => Some(OwnedCategoryView::Vec(tight(s))),
            None => Some(OwnedCategoryView::Vec("_"@)),
        }
    } else if plain_type(name) {
        None
    } else {
        Some(OwnedCategoryView::Owned(name))
    }
}

pub fn classify_owned_prop(t: &Vec<Node>, i: usize) -> (r: Option<OwnedCategory>)
    requires
        i < t.len(),
    ensures
        r.deep_view() == category(t@, i as int),
{
    let name = t[i].name.as_str();
    if t[i].kind != Kind::TyPath || is_reactive_type(name) {
        None
    } else if same(name, "Vec") {
        match first_type_arg_of(t, i) {
            Some(s) => Some(OwnedCategory::Vec(tighten_ws(s.as_str()))),
            None => Some(OwnedCategory::Vec(owned("_"))),
        }
    } else if is_plain_type(name) {
        None
    } else {
        Some(OwnedCategory::Owned(owned(name)))
    }
}

// ---------------------------------------------------------------------------
// Components
// ---------------------------------------------------------------------------

/// Node `j` writes something that looks like a signal.
pub open spec fn reactive_write(t: Seq<Node>, j: int) -> bool {
    let name = t[j].name@;
    ||| t[j].kind == Kind::MethodCall && (name == "set"@ || name == "with_mut"@ || name == "write"@
        || name == "replace"@ || name == "take"@ || name == "modify"@)
    ||| t[j].kind == Kind::Assign && (operand(t, j, 0) matches Some(l) && t[l].kind == Kind::Path)
    ||| t[j].kind == Kind::Binary && compound(name)
}

fn is_reactive_write(t: &Vec<Node>, j: usize) -> (r: bool)
    requires
        j < t.len(),
    ensures
        r == reactive_write(t@, j as int),
{
    let name = t[j].name.as_str();
    match t[j].kind {
        Kind::MethodCall => same(name, "set") || same(name, "with_mut") || same(name, "write")
            || same(name, "replace") || same(name, "take") || same(name, "modify"),
        Kind::Assign => match operand_of(t, j, 0) {
            Some(l) => t[l].kind == Kind::Path,
            None => false,
        },
        Kind::Binary => is_compound(name),
        _ => false,
    }
}

pub fn has_reactive_writes(t: &Vec<Node>, lo: usize, hi: usize) -> (r: bool)
    requires
        hi <= t.len(),
    ensures
        r == exists|j: int| lo <= j < hi && reactive_write(t@, j),
{
    let mut j: usize = lo;
    while j < hi
        invariant
            lo <= j,
            hi <= t.len(),
            forall|k: int| lo <= k < j ==> !reactive_write(t@, k),
        decreases hi - j,
    {
        if is_reactive_write(t, j) {
            assert(reactive_write(t@, j as int));
            return true;
        }
        j += 1;
    }
    false
}

/// Token `j` names a component and `{` follows.
pub open spec fn invocation(t: Seq<Node>, j: int) -> bool {
    t[j].kind == Kind::TokIdent && capital(t[j].name@) && then_group(t, j, "{"@)
}

pub open spec fn callee(t: Seq<Node>, lo: int) -> spec_fn(int) -> Seq<Seq<char>> {
    |j: int| only_if(inside(t, lo, j, rsx_at(t)) && invocation(t, j), t[j].name@)
}

/// The components that the calls of `rsx` in a span name.
pub open spec fn callees(t: Seq<Node>, lo: int, hi: int) -> Seq<Seq<char>> {
    gather(lo, hi, callee(t, lo))
}

pub fn scan_invocations(t: &Vec<Node>, lo: usize, hi: usize) -> (r: Vec<String>)
    requires
        lo <= hi <= t.len(),
    ensures
        r.deep_view() == callees(t@, lo as int, hi as int),
{
    let mut out: Vec<String> = Vec::new();
    let mut until: usize = lo;
    let mut j: usize = lo;
    while j < hi
        invariant
            lo <= j <= hi <= t.len(),
            until == reach(t@, lo as int, j as int, rsx_at(t@)),
            out.deep_view() == gather(lo as int, j as int, callee(t@, lo as int)),
        decreases hi - j,
    {
        if j < until && t[j].kind == Kind::TokIdent && is_capital(t[j].name.as_str())
            && is_then_group(t, j, "{") {
            put(&mut out, owned(t[j].name.as_str()));
        }
        if is_rsx(t, j) {
            let end = stop_of(t, j);
            if end > until {
                until = end;
            }
        }
        j += 1;
    }
    out
}

/// The owned value that argument `j` of the function at `i` is.
pub open spec fn owned_arg(t: Seq<Node>, i: int, j: int) -> Option<OwnedArgView> {
    if t[j].kind == Kind::Arg && t[j].parent == i {
        match (operand(t, j, 0), operand(t, j, 1)) {
            (Some(p), Some(ty)) => match (pat_name(t, p), category(t, ty)) {
                (Some(name), Some(category)) => Some(
                    OwnedArgView { name, ty: tight(t[j].text@), line: t[j].line, category },
                ),
                _ => None,
            },
            _ => None,
        }
    } else {
        None
    }
}

pub open spec fn owned_arg_at(t: Seq<Node>, i: int) -> spec_fn(int) -> Seq<OwnedArgView> {
    |j: int|
        match owned_arg(t, i, j) {
            Some(a) => seq![a],
            None => Seq::empty(),
        }
}

fn owned_arg_of(t: &Vec<Node>, i: usize, j: usize) -> (r: Option<OwnedArg>)
    requires
        j < t.len(),
    ensures
        r.deep_view() == owned_arg(t@, i as int, j as int),
{
    if t[j].kind != Kind::Arg || t[j].parent != i {
        return None;
    }
    match (operand_of(t, j, 0), operand_of(t, j, 1)) {
        (Some(p), Some(ty)) => match (pat_name_of(t, p), classify_owned_prop(t, ty)) {
            (Some(name), Some(category)) => Some(
                OwnedArg { name, ty: tighten_ws(t[j].text.as_str()), line: t[j].line, category },
            ),
            _ => None,
        },
        _ => None,
    }
}

fn owned_args(t: &Vec<Node>, i: usize) -> (r: Vec<OwnedArg>)
    requires
        i < t.len(),
    ensures
        r.deep_view() == gather(i as int, stop(t@, i as int), owned_arg_at(t@, i as int)),
{
    let mut out: Vec<OwnedArg> = Vec::new();
    let end = stop_of(t, i);
    let mut j: usize = i;
    while j < end
        invariant
            i <= j <= end <= t.len(),
            out.deep_view() == gather(i as int, j as int, owned_arg_at(t@, i as int)),
        decreases end - j,
    {
        match owned_arg_of(t, i, j) {
            Some(a) => put(&mut out, a),
            None => {},
        }
        j += 1;
    }
    out
}

/// What the lint reads of the component at `i`.
pub open spec fn signature(t: Seq<Node>, i: int, file: Seq<char>) -> ComponentSigView {
    let (lo, hi) = (body_start(t, i), body_end(t, i));
    ComponentSigView {
        name: t[i].name@,
        file,
        reactive: exists|j: int| lo <= j < hi && reactive_write(t, j),
        callees: callees(t, lo, hi),
        args: gather(i, stop(t, i), owned_arg_at(t, i)),
    }
}

pub open spec fn signature_at(t: Seq<Node>, file: Seq<char>) -> spec_fn(int) -> Seq<
    ComponentSigView,
> {
    |i: int| only_if(component(t, i), signature(t, i, file))
}

pub open spec fn file_signatures(f: ScannedFile) -> Seq<ComponentSigView> {
    match f.ast {
        Ok(t) => gather(0, t@.len() as int, signature_at(t@, f.path@)),
        Err(_) => Seq::empty(),
    }
}

pub open spec fn file_signatures_at(files: Seq<ScannedFile>) -> spec_fn(int) -> Seq<
    ComponentSigView,
> {
    |k: int| file_signatures(files[k])
}

/// The components of a project, file by file.
pub open spec fn signatures(files: Seq<ScannedFile>) -> Seq<ComponentSigView> {
    gather(0, files.len() as int, file_signatures_at(files))
}

fn scan_file(f: &ScannedFile) -> (r: Vec<ComponentSig>)
    ensures
        r.deep_view() == file_signatures(*f),
{
    let mut out: Vec<ComponentSig> = Vec::new();
    match &f.ast {
        Ok(t) => {
            let mut i: usize = 0;
            while i < t.len()
                invariant
                    i <= t.len(),
                    out.deep_view() == gather(0, i as int, signature_at(t@, f.path@)),
                decreases t.len() - i,
            {
                if is_component(t, i) {
                    let (lo, hi) = body_of(t, i);
                    let sig = ComponentSig {
                        name: owned(t[i].name.as_str()),
                        file: owned(f.path.as_str()),
                        reactive: has_reactive_writes(t, lo, hi),
                        callees: scan_invocations(t, lo, hi),
                        args: owned_args(t, i),
                    };
                    put(&mut out, sig);
                }
                i += 1;
            }
        },
        Err(_) => {},
    }
    out
}

fn scan_components(files: &Vec<ScannedFile>) -> (r: Vec<ComponentSig>)
    ensures
        r.deep_view() == signatures(files@),
{
    let mut out: Vec<ComponentSig> = Vec::new();
    let mut k: usize = 0;
    while k < files.len()
        invariant
            k <= files.len(),
            out.deep_view() == gather(0, k as int, file_signatures_at(files@)),
        decreases files.len() - k,
    {
        crate::order::put_all(&mut out, scan_file(&files[k]));
        k += 1;
    }
    out
}

// ---------------------------------------------------------------------------
// Callers
// ---------------------------------------------------------------------------

/// Some component called `name` writes signals.
pub open spec fn reactive_name(cs: Seq<ComponentSigView>, name: Seq<char>) -> bool {
    exists|k: int| 0 <= k < cs.len() && (#[trigger] cs[k]).name == name && cs[k].reactive
}

/// No component after number `k` has its name.
pub open spec fn last_of_name(cs: Seq<ComponentSigView>, k: int) -> bool {
    forall|m: int| k < m < cs.len() ==> (#[trigger] cs[m]).name != cs[k].name
}

pub open spec fn reactive_caller(cs: Seq<ComponentSigView>, name: Seq<char>) -> spec_fn(int) -> Seq<
    Seq<char>,
> {
    |k: int|
        only_if(
            last_of_name(cs, k) && cs[k].callees.contains(name) && reactive_name(cs, cs[k].name),
            cs[k].name,
        )
}

/// The components that call `name` and write signals, by name. Where two
/// components share a name, the calls of the later one count.
pub open spec fn reactive_callers(cs: Seq<ComponentSigView>, name: Seq<char>) -> Seq<Seq<char>> {
    sorted(gather(0, cs.len() as int, reactive_caller(cs, name)), rank::<String>())
}

fn is_reactive_name(cs: &Vec<ComponentSig>, name: &str) -> (r: bool)
    ensures
        r == reactive_name(cs.deep_view(), name@),
{
    let ghost v = cs.deep_view();
    let mut k: usize = 0;
    while k < cs.len()
        invariant
            k <= cs.len(),
            v == cs.deep_view(),
            forall|m: int| 0 <= m < k ==> !((#[trigger] v[m]).name == name@ && v[m].reactive),
        decreases cs.len() - k,
    {
        assert(v[k as int] == cs@[k as int].deep_view());
        if cs[k].reactive && same(cs[k].name.as_str(), name) {
            return true;
        }
        k += 1;
    }
    false
}

fn is_last_of_name(cs: &Vec<ComponentSig>, k: usize) -> (r: bool)
    requires
        k < cs.len(),
    ensures
        r == last_of_name(cs.deep_view(), k as int),
{
    let ghost v = cs.deep_view();
    let mut m: usize = k + 1;
    assert(v[k as int] == cs@[k as int].deep_view());
    while m < cs.len()
        invariant
            k < m <= cs.len(),
            v == cs.deep_view(),
            v[k as int] == cs@[k as int].deep_view(),
            forall|j: int| k < j < m ==> (#[trigger] v[j]).name != v[k as int].name,
        decreases cs.len() - m,
    {
        assert(v[m as int] == cs@[m as int].deep_view());
        if same(cs[m].name.as_str(), cs[k].name.as_str()) {
            return false;
        }
        m += 1;
    }
    true
}

fn reactive_callers_of(cs: &Vec<ComponentSig>, name: &str) -> (r: Vec<String>)
    ensures
        r.deep_view() == reactive_callers(cs.deep_view(), name@),
{
    let ghost v = cs.deep_view();
    let mut out: Vec<String> = Vec::new();
    let mut k: usize = 0;
    while k < cs.len()
        invariant
            k <= cs.len(),
            v == cs.deep_view(),
            out.deep_view() == gather(0, k as int, reactive_caller(v, name@)),
        decreases cs.len() - k,
    {
        assert(v[k as int] == cs@[k as int].deep_view());
        if is_last_of_name(cs, k) && holds(&cs[k].callees, name) && is_reactive_name(
            cs,
            cs[k].name.as_str(),
        ) {
            put(&mut out, owned(cs[k].name.as_str()));
        }
        k += 1;
    }
    sort(out)
}

// ---------------------------------------------------------------------------
// Findings
// ---------------------------------------------------------------------------

pub open spec fn vec_hint(callers: Seq<Seq<char>>) -> Seq<char> {
    if callers.len() == 0 {
        "No reactive parent caller observed; cost bounded to mount."@
    } else {
        "Callers with reactive writes: "@ + joined(callers, ", "@)
            + ". Each `.set()` / `.with_mut()` on a parent signal re-runs the parent body and reclones this vec."@
    }
}

pub open spec fn owned_hint(callers: Seq<Seq<char>>, name: Seq<char>) -> Seq<char> {
    if callers.len() == 0 {
        "No reactive parent caller observed; cost bounded to mount."@
    } else {
        "Callers with reactive writes: "@ + joined(callers, ", "@)
            + ". Each parent signal write reclones "@ + name + "."@
    }
}

pub open spec fn message(comp: Seq<char>, a: OwnedArgView, callers: Seq<Seq<char>>) -> Seq<char> {
    let start = "`"@ + comp + "::"@ + a.name + ": "@ + a.ty + "` is an owned `"@;
    match a.category {
        OwnedCategoryView::Vec(inner) => start + "Vec<"@ + inner
            + ">` — every parent re-render reclones the whole vec. "@ + vec_hint(callers),
        OwnedCategoryView::Owned(name) => start + name
            + "` — every parent re-render reclones the struct. "@ + owned_hint(callers, name),
    }
}

pub open spec fn fix(a: OwnedArgView) -> Seq<char> {
    let start = "Switch to `"@ + a.name + ": ReadOnlySignal<"@;
    match a.category {
        OwnedCategoryView::Vec(inner) => start + "Vec<"@ + inner
            + ">>` and have the parent pass a signal handle instead of cloning the vec; or use `"@
            + a.name + ": Rc<["@ + inner
            + "]>` if the slice is immutable and you want a cheap clone without a signal."@,
        OwnedCategoryView::Owned(name) => start + name
            + ">` and have the parent pass a signal handle; or `"@ + a.name + ": Rc<"@ + name
            + ">` if the struct is immutable and you want a cheap clone without a signal."@,
    }
}

fn message_of(comp: &str, a: &OwnedArg, callers: &Vec<String>) -> (r: String)
    ensures
        r@ == message(comp@, a.deep_view(), callers.deep_view()),
{
    let mut s = owned("`");
    s.append(comp);
    s.append("::");
    s.append(a.name.as_str());
    s.append(": ");
    s.append(a.ty.as_str());
    s.append("` is an owned `");
    let mut h = owned("No reactive parent caller observed; cost bounded to mount.");
    if callers.len() > 0 {
        h = owned("Callers with reactive writes: ");
        h.append(join(callers, ", ").as_str());
    }
    match &a.category {
        OwnedCategory::Vec(inner) => {
            s.append("Vec<");
            s.append(inner.as_str());
            s.append(">` — every parent re-render reclones the whole vec. ");
            if callers.len() > 0 {
                h.append(
                    ". Each `.set()` / `.with_mut()` on a parent signal re-runs the parent body and reclones this vec.",
                );
            }
            assert(h@ == vec_hint(callers.deep_view()));
        },
        OwnedCategory::Owned(name) => {
            s.append(name.as_str());
            s.append("` — every parent re-render reclones the struct. ");
            if callers.len() > 0 {
                h.append(". Each parent signal write reclones ");
                h.append(name.as_str());
                h.append(".");
            }
            assert(h@ == owned_hint(callers.deep_view(), name@));
        },
    }
    s.append(h.as_str());
    s
}

fn fix_of(a: &OwnedArg) -> (r: String)
    ensures
        r@ == fix(a.deep_view()),
{
    let mut s = owned("Switch to `");
    s.append(a.name.as_str());
    s.append(": ReadOnlySignal<");
    match &a.category {
        OwnedCategory::Vec(inner) => {
            s.append("Vec<");
            s.append(inner.as_str());
            s.append(
                ">>` and have the parent pass a signal handle instead of cloning the vec; or use `",
            );
            s.append(a.name.as_str());
            s.append(": Rc<[");
            s.append(inner.as_str());
            s.append("]>` if the slice is immutable and you want a cheap clone without a signal.");
        },
        OwnedCategory::Owned(name) => {
            s.append(name.as_str());
            s.append(">` and have the parent pass a signal handle; or `");
            s.append(a.name.as_str());
            s.append(": Rc<");
            s.append(name.as_str());
            s.append(">` if the struct is immutable and you want a cheap clone without a signal.");
        },
    }
    s
}

pub open spec fn finding(
    cs: Seq<ComponentSigView>,
    c: ComponentSigView,
    a: OwnedArgView,
) -> VecOrOwnedFindingView {
    let callers = reactive_callers(cs, c.name);
    VecOrOwnedFindingView {
        code: "vec_or_owned_prop_passthrough"@,
        severity: "info"@,
        confidence: if callers.len() > 0 {
            "medium"@
        } else {
            "low"@
        },
        file: c.file,
        line: a.line,
        component: c.name,
        arg_name: a.name,
        arg_type: a.ty,
        reactive_callers: callers,
        message: message(c.name, a, callers),
        fix: fix(a),
    }
}

pub open spec fn arg_finding(cs: Seq<ComponentSigView>, c: ComponentSigView) -> spec_fn(int) -> Seq<
    VecOrOwnedFindingView,
> {
    |j: int| seq![finding(cs, c, c.args[j])]
}

pub open spec fn component_findings(cs: Seq<ComponentSigView>) -> spec_fn(int) -> Seq<
    VecOrOwnedFindingView,
> {
    |k: int| gather(0, cs[k].args.len() as int, arg_finding(cs, cs[k]))
}

/// One finding for each owned argument of each component, by component and
/// argument.
pub open spec fn findings(cs: Seq<ComponentSigView>) -> Seq<VecOrOwnedFindingView> {
    sorted(gather(0, cs.len() as int, component_findings(cs)), rank::<VecOrOwnedFinding>())
}

fn finding_of(cs: &Vec<ComponentSig>, c: &ComponentSig, a: &OwnedArg) -> (r: VecOrOwnedFinding)
    ensures
        r.deep_view() == finding(cs.deep_view(), c.deep_view(), a.deep_view()),
{
    let callers = reactive_callers_of(cs, c.name.as_str());
    let message = message_of(c.name.as_str(), a, &callers);
    VecOrOwnedFinding {
        code: "vec_or_owned_prop_passthrough",
        severity: "info",
        confidence: if callers.len() > 0 {
            "medium"
        } else {
            "low"
        },
        file: owned(c.file.as_str()),
        line: a.line,
        component: owned(c.name.as_str()),
        arg_name: owned(a.name.as_str()),
        arg_type: owned(a.ty.as_str()),
        reactive_callers: callers,
        message,
        fix: fix_of(a),
    }
}

/// The findings for the components `cs`.
pub fn owned_findings(cs: &Vec<ComponentSig>) -> (r: Vec<VecOrOwnedFinding>)
    ensures
        r.deep_view() == findings(cs.deep_view()),
{
    let ghost v = cs.deep_view();
    let mut out: Vec<VecOrOwnedFinding> = Vec::new();
    let mut k: usize = 0;
    while k < cs.len()
        invariant
            k <= cs.len(),
            v == cs.deep_view(),
            out.deep_view() == gather(0, k as int, component_findings(v)),
        decreases cs.len() - k,
    {
        let ghost before = out.deep_view();
        let ghost c = v[k as int];
        assert(c == cs@[k as int].deep_view());
        let mut j: usize = 0;
        while j < cs[k].args.len()
            invariant
                k < cs.len(),
                v == cs.deep_view(),
                c == cs@[k as int].deep_view(),
                j <= cs[k as int].args.len(),
                out.deep_view() == before + gather(0, j as int, arg_finding(v, c)),
            decreases cs[k as int].args.len() - j,
        {
            assert(c.args[j as int] == cs@[k as int].args@[j as int].deep_view());
            put(&mut out, finding_of(cs, &cs[k], &cs[k].args[j]));
            j += 1;
        }
        k += 1;
    }
    sort(out)
}

/// What there is to report.
pub open spec fn report(files: Seq<ScannedFile>) -> VecOrOwnedPropReportView {
    VecOrOwnedPropReportView {
        findings: findings(signatures(files)),
        parse_errors: parse_errors(files),
    }
}

/// Reports the owned arguments of the components in `files`.
pub fn vec_or_owned_prop_passthrough(files: &Vec<ScannedFile>) -> (r: VecOrOwnedPropReport)
    ensures
        r.deep_view() == report(files@),
{
    let components = scan_components(files);
    VecOrOwnedPropReport {
        findings: owned_findings(&components),
        parse_errors: collect_parse_errors(files),
    }
}

/// Confidence is medium exactly if some caller writes reactive state.
pub proof fn law_confidence(cs: Seq<ComponentSigView>, f: VecOrOwnedFindingView)
    requires
        findings(cs).contains(f),
    ensures
        f.confidence == "medium"@ <==> f.reactive_callers.len() > 0,
        f.confidence == "low"@ <==> f.reactive_callers.len() == 0,
        f.reactive_callers == reactive_callers(cs, f.component),
{
    reveal_strlit("medium");
    reveal_strlit("low");
    assert("medium"@.len() == 6 && "low"@.len() == 3);
    let n = cs.len() as int;
    lemma_sorted_contains(gather(0, n, component_findings(cs)), rank::<VecOrOwnedFinding>(), f);
    lemma_gather_contains(0, n, component_findings(cs), f);
    let k = choose|k: int| 0 <= k < n && (#[trigger] component_findings(cs)(k)).contains(f);
    assert(component_findings(cs)(k).contains(f));
    let rule = arg_finding(cs, cs[k]);
    lemma_gather_contains(0, cs[k].args.len() as int, rule, f);
    let j = choose|j: int| 0 <= j < cs[k].args.len() && (#[trigger] rule(j)).contains(f);
    assert(rule(j).contains(f));
}

} // verus!
