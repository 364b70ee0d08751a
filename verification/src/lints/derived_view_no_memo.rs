//! `derived_view_no_memo`: flag derivations that every render runs again.
//!
//! A derivation is a function that takes `&[T]` first and returns a `Vec`. A
//! finding is a call of one in an `rsx!` body, outside `use_memo(..)`.
use vstd::prelude::*;

use crate::order::{
    gather, holds, lemma_text_le, only_if, put, put_all, rank, sort, sorted, text_le, text_leq,
    Ranked,
};
use crate::paths::{is_same_path, lemma_path_le, path_le, path_leq, same_path};
use crate::scan::{
    ParseError, ParseErrorView, ScannedFile, body_end, body_of, body_start, collect_parse_errors,
    component, inside, is_component, is_rsx, is_then_group, is_word, parse_errors, reach, rsx,
    then_group, top_fn, word,
};
use crate::tape::{Kind, Node, operand, operand_of, stop, stop_of};
use crate::text::{begins, decimal, decimal_usize, owned, remove_char, same, starts_with, without};

verus! {

#[derive(Debug)]
pub struct DerivedViewNoMemoParams {
    pub project_root: Option<String>,
}

pub ghost struct DerivedViewNoMemoParamsView {
    pub project_root: Option<Seq<char>>,
}

impl DeepView for DerivedViewNoMemoParams {
    type V = DerivedViewNoMemoParamsView;

    open spec fn deep_view(&self) -> DerivedViewNoMemoParamsView {
        DerivedViewNoMemoParamsView {
            project_root: self.project_root.deep_view(),
        }
    }
}

#[derive(Debug)]
pub struct DerivedViewFinding {
    pub code: &'static str,
    pub severity: &'static str,
    pub file: String,
    pub line: usize,
    /// The component whose `rsx!` body holds the calls.
    pub component: String,
    /// The function that derives.
    pub callee: String,
    /// How often that body calls it.
    pub calls_in_rsx_block: usize,
    pub message: String,
    pub fix: String,
}

pub ghost struct DerivedViewFindingView {
    pub code: Seq<char>,
    pub severity: Seq<char>,
    pub file: Seq<char>,
    pub line: usize,
    pub component: Seq<char>,
    pub callee: Seq<char>,
    pub calls_in_rsx_block: nat,
    pub message: Seq<char>,
    pub fix: Seq<char>,
}

impl DeepView for DerivedViewFinding {
    type V = DerivedViewFindingView;

    open spec fn deep_view(&self) -> DerivedViewFindingView {
        DerivedViewFindingView {
            code: self.code@,
            severity: self.severity@,
            file: self.file@,
            line: self.line,
            component: self.component@,
            callee: self.callee@,
            calls_in_rsx_block: self.calls_in_rsx_block as nat,
            message: self.message@,
            fix: self.fix@,
        }
    }
}

#[derive(Debug)]
pub struct DerivedViewReport {
    pub findings: Vec<DerivedViewFinding>,
    pub parse_errors: Vec<ParseError>,
}

pub ghost struct DerivedViewReportView {
    pub findings: Seq<DerivedViewFindingView>,
    pub parse_errors: Seq<ParseErrorView>,
}

impl DeepView for DerivedViewReport {
    type V = DerivedViewReportView;

    open spec fn deep_view(&self) -> DerivedViewReportView {
        DerivedViewReportView {
            findings: self.findings.deep_view(),
            parse_errors: self.parse_errors.deep_view(),
        }
    }
}

impl Ranked for DerivedViewFinding {
    /// By file, then by line, then by callee.
    open spec fn le(a: DerivedViewFindingView, b: DerivedViewFindingView) -> bool {
        if !same_path(a.file, b.file) {
            path_le(a.file, b.file)
        } else if a.line != b.line {
            a.line < b.line
        } else {
            text_le(a.callee, b.callee)
        }
    }

    proof fn ordered(
        a: DerivedViewFindingView,
        b: DerivedViewFindingView,
        c: DerivedViewFindingView,
    ) {
        lemma_path_le(a.file, b.file, c.file);
        lemma_text_le(a.callee, b.callee, c.callee);
    }

    fn leq(&self, other: &Self) -> (r: bool) {
        if !is_same_path(self.file.as_str(), other.file.as_str()) {
            path_leq(self.file.as_str(), other.file.as_str())
        } else if self.line != other.line {
            self.line < other.line
        } else {
            text_leq(self.callee.as_str(), other.callee.as_str())
        }
    }
}

pub open spec fn message(callee: Seq<char>, n: nat, comp: Seq<char>) -> Seq<char> {
    "`"@
        + callee
        + "(…)` returns an owned `Vec<…>` derived from a slice and is called "@
        + decimal(n)
        + " time(s) directly in `"@
        + comp
        + "`'s rsx! body — each render reruns the filter/sort/clone. Wrap each call in `use_memo(|| "@
        + callee
        + "(…))` so the derivation only reruns when its inputs actually change."@
}

fn message_of(callee: &str, n: usize, comp: &str) -> (r: String)
    ensures
        r@ == message(callee@, n as nat, comp@),
{
    let mut s = owned("`");
    s.append(callee);
    s.append("(…)` returns an owned `Vec<…>` derived from a slice and is called ");
    s.append(decimal_usize(n).as_str());
    s.append(" time(s) directly in `");
    s.append(comp);
    s.append("`'s rsx! body — each render reruns the filter/sort/clone. Wrap each call in `use_memo(|| ");
    s.append(callee);
    s.append("(…))` so the derivation only reruns when its inputs actually change.");
    s
}

pub open spec fn fix(callee: Seq<char>) -> Seq<char> {
    "Replace `"@
        + callee
        + "(args)` with `use_memo(move || "@
        + callee
        + "(args))()`. If the source is a `Signal<T>`, the memo's reactive read tracks the signal automatically; the closure reruns only when the signal value changes. For props that don't carry a signal, lift the source into a `use_signal` or `use_memo` in the parent."@
}

fn fix_of(callee: &str) -> (r: String)
    ensures
        r@ == fix(callee@),
{
    let mut s = owned("Replace `");
    s.append(callee);
    s.append("(args)` with `use_memo(move || ");
    s.append(callee);
    s.append("(args))()`. If the source is a `Signal<T>`, the memo's reactive read tracks the signal automatically; the closure reruns only when the signal value changes. For props that don't carry a signal, lift the source into a `use_signal` or `use_memo` in the parent.");
    s
}

// ---------------------------------------------------------------------------
// Functions that derive
// ---------------------------------------------------------------------------

/// The type of text `s` is a `Vec`.
pub open spec fn vec_type(s: Seq<char>) -> bool {
    let tokens = without(s, ' ');
    begins(tokens, "Vec<"@) || begins(tokens, "std::vec::Vec<"@) || begins(
        tokens,
        "alloc::vec::Vec<"@,
    )
}

pub fn is_vec_type(s: &str) -> (r: bool)
    ensures
        r == vec_type(s@),
{
    let tokens = remove_char(s, ' ');
    starts_with(tokens.as_str(), "Vec<") || starts_with(tokens.as_str(), "std::vec::Vec<")
        || starts_with(tokens.as_str(), "alloc::vec::Vec<")
}

/// The type at `ty` is a reference to a slice.
pub open spec fn slice_ref(t: Seq<Node>, ty: int) -> bool {
    t[ty].kind == Kind::TyRef && match operand(t, ty, 0) {
        Some(e) => t[e].kind == Kind::TySlice,
        None => false,
    }
}

pub fn is_slice_ref_type(t: &Vec<Node>, ty: usize) -> (r: bool)
    requires
        ty < t.len(),
    ensures
        r == slice_ref(t@, ty as int),
{
    t[ty].kind == Kind::TyRef && match operand_of(t, ty, 0) {
        Some(e) => t[e].kind == Kind::TySlice,
        None => false,
    }
}

/// The function at `f` takes a slice first and returns a `Vec`.
pub open spec fn derives(t: Seq<Node>, f: int) -> bool {
    top_fn(t, f) && !t[f].flag && t[f].count > 0 && match (
        operand(t, f, 0),
        operand(t, f, t[f].count as nat),
    ) {
        (Some(a), Some(r)) => t[a].kind == Kind::Arg && t[r].flag && vec_type(t[r].text@)
            && match operand(t, a, 1) {
            Some(ty) => slice_ref(t, ty),
            None => false,
        },
        _ => false,
    }
}

fn is_derivation(t: &Vec<Node>, f: usize) -> (r: bool)
    requires
        f < t.len(),
    ensures
        r == derives(t@, f as int),
{
    if t[f].kind != Kind::Fn || t[f].parent != 0 || f == 0 || t[f].flag || t[f].count == 0 {
        return false;
    }
    match (operand_of(t, f, 0), operand_of(t, f, t[f].count)) {
        (Some(a), Some(r)) => t[a].kind == Kind::Arg && t[r].flag && is_vec_type(t[r].text.as_str())
            && match operand_of(t, a, 1) {
            Some(ty) => is_slice_ref_type(t, ty),
            None => false,
        },
        _ => false,
    }
}

pub open spec fn derivation_at(t: Seq<Node>) -> spec_fn(int) -> Seq<Seq<char>> {
    |f: int| only_if(derives(t, f), t[f].name@)
}

pub open spec fn file_derivations(files: Seq<ScannedFile>) -> spec_fn(int) -> Seq<Seq<char>> {
    |k: int|
        match files[k].ast {
            Ok(t) => gather(0, t@.len() as int, derivation_at(t@)),
            Err(_) => Seq::empty(),
        }
}

/// The names of the functions of a project that derive a `Vec` from a slice.
pub open spec fn derivations(files: Seq<ScannedFile>) -> Seq<Seq<char>> {
    gather(0, files.len() as int, file_derivations(files))
}

fn derivations_in(t: &Vec<Node>) -> (r: Vec<String>)
    ensures
        r.deep_view() == gather(0, t@.len() as int, derivation_at(t@)),
{
    let mut out: Vec<String> = Vec::new();
    let mut f: usize = 0;
    while f < t.len()
        invariant
            f <= t.len(),
            out.deep_view() == gather(0, f as int, derivation_at(t@)),
        decreases t.len() - f,
    {
        if is_derivation(t, f) {
            put(&mut out, owned(t[f].name.as_str()));
        }
        f += 1;
    }
    out
}

pub fn collect_derivations(files: &Vec<ScannedFile>) -> (r: Vec<String>)
    ensures
        r.deep_view() == derivations(files@),
{
    let mut out: Vec<String> = Vec::new();
    let mut k: usize = 0;
    while k < files.len()
        invariant
            k <= files.len(),
            out.deep_view() == gather(0, k as int, file_derivations(files@)),
        decreases files.len() - k,
    {
        match &files[k].ast {
            Ok(t) => put_all(&mut out, derivations_in(t)),
            Err(_) => {},
        }
        k += 1;
    }
    out
}

// ---------------------------------------------------------------------------
// Calls
// ---------------------------------------------------------------------------

/// Node `g` is the group behind the identifier `use_memo`.
pub open spec fn memo(t: Seq<Node>, g: int) -> bool {
    t[g].kind == Kind::TokGroup && g > 0 && word(t, g - 1, "use_memo"@) && t[g - 1].parent
        == t[g].parent
}

pub open spec fn memo_at(t: Seq<Node>) -> spec_fn(int) -> bool {
    |g: int| memo(t, g)
}

fn is_memo(t: &Vec<Node>, g: usize) -> (r: bool)
    requires
        g < t.len(),
    ensures
        r == memo(t@, g as int),
{
    t[g].kind == Kind::TokGroup && g > 0 && is_word(t, g - 1, "use_memo") && t[g - 1].parent
        == t[g].parent
}

/// Token `j` of the macro at `m` calls one of the functions `names`, outside
/// the arguments of `use_memo`.
pub open spec fn call_at(t: Seq<Node>, m: int, names: Seq<Seq<char>>, j: int) -> bool {
    t[j].kind == Kind::TokIdent && t[j].name@ != "use_memo"@ && names.contains(t[j].name@)
        && then_group(t, j, "("@) && !inside(t, m, j, memo_at(t))
}

pub open spec fn callee_at(t: Seq<Node>, m: int, names: Seq<Seq<char>>) -> spec_fn(int) -> Seq<
    usize,
> {
    |j: int| only_if(call_at(t, m, names, j), j as usize)
}

/// Where the macro at `m` calls one of the functions `names`.
pub open spec fn calls(t: Seq<Node>, m: int, names: Seq<Seq<char>>) -> Seq<usize> {
    gather(m, stop(t, m), callee_at(t, m, names))
}

pub fn find_calls_outside_use_memo(t: &Vec<Node>, m: usize, names: &Vec<String>) -> (r: Vec<usize>)
    requires
        m < t.len(),
    ensures
        r@ == calls(t@, m as int, names.deep_view()),
        forall|k: int| 0 <= k < r.len() ==> #[trigger] r[k] < t.len(),
{
    let end = stop_of(t, m);
    let mut out: Vec<usize> = Vec::new();
    let mut until: usize = m;
    let mut j: usize = m;
    while j < end
        invariant
            m <= j <= end <= t.len(),
            until == reach(t@, m as int, j as int, memo_at(t@)),
            out@ == gather(m as int, j as int, callee_at(t@, m as int, names.deep_view())),
            forall|k: int| 0 <= k < out.len() ==> #[trigger] out[k] < t.len(),
        decreases end - j,
    {
        if t[j].kind == Kind::TokIdent && j >= until && !same(t[j].name.as_str(), "use_memo")
            && holds(names, t[j].name.as_str()) && is_then_group(t, j, "(") {
            out.push(j);
        }
        if is_memo(t, j) {
            let e = stop_of(t, j);
            if e > until {
                until = e;
            }
        }
        j += 1;
    }
    out
}

// ---------------------------------------------------------------------------
// Findings
// ---------------------------------------------------------------------------

/// How many of the calls `cs` before number `n` are of `name`.
pub open spec fn tally(t: Seq<Node>, cs: Seq<usize>, name: Seq<char>, n: int) -> nat
    decreases n,
{
    if n <= 0 {
        0
    } else {
        tally(t, cs, name, n - 1) + if t[cs[n - 1] as int].name@ == name {
            1nat
        } else {
            0nat
        }
    }
}

/// The first line on which one of the calls `cs` before number `n` is of `name`.
pub open spec fn least_line(t: Seq<Node>, cs: Seq<usize>, name: Seq<char>, n: int) -> Option<usize>
    decreases n,
{
    if n <= 0 {
        None
    } else {
        let before = least_line(t, cs, name, n - 1);
        let node = t[cs[n - 1] as int];
        if node.name@ != name {
            before
        } else {
            match before {
                Some(line) => if line <= node.line {
                    before
                } else {
                    Some(node.line)
                },
                None => Some(node.line),
            }
        }
    }
}

/// No call before number `k` is of the same function.
pub open spec fn first_of_name(t: Seq<Node>, cs: Seq<usize>, k: int) -> bool {
    tally(t, cs, t[cs[k] as int].name@, k) == 0
}

pub open spec fn finding(
    t: Seq<Node>,
    cs: Seq<usize>,
    f: int,
    name: Seq<char>,
    file: Seq<char>,
) -> DerivedViewFindingView {
    let n = tally(t, cs, name, cs.len() as int);
    DerivedViewFindingView {
        code: "derived_view_no_memo"@,
        severity: "warning"@,
        file,
        line: match least_line(t, cs, name, cs.len() as int) {
            Some(line) => line,
            None => 0,
        },
        component: t[f].name@,
        callee: name,
        calls_in_rsx_block: n,
        message: message(name, n, t[f].name@),
        fix: fix(name),
    }
}

/// One finding for each function that the calls `cs` are of.
pub open spec fn call_findings(t: Seq<Node>, cs: Seq<usize>, f: int, file: Seq<char>) -> spec_fn(
    int,
) -> Seq<DerivedViewFindingView> {
    |k: int|
        only_if(
            first_of_name(t, cs, k),
            finding(t, cs, f, t[cs[k] as int].name@, file),
        )
}

/// The findings on the macro at `m`, in the component at `f`.
pub open spec fn rsx_findings(
    t: Seq<Node>,
    f: int,
    names: Seq<Seq<char>>,
    file: Seq<char>,
) -> spec_fn(
    int,
) -> Seq<DerivedViewFindingView> {
    |m: int|
        if rsx(t, m) {
            let cs = calls(t, m, names);
            gather(0, cs.len() as int, call_findings(t, cs, f, file))
        } else {
            Seq::empty()
        }
}

pub open spec fn component_findings(
    t: Seq<Node>,
    file: Seq<char>,
    names: Seq<Seq<char>>,
) -> spec_fn(
    int,
) -> Seq<DerivedViewFindingView> {
    |f: int|
        if component(t, f) {
            gather(body_start(t, f), body_end(t, f), rsx_findings(t, f, names, file))
        } else {
            Seq::empty()
        }
}

/// How many of the calls `cs` are of `name`, and the first line of one.
fn summary(t: &Vec<Node>, cs: &Vec<usize>, name: &str) -> (r: (usize, usize))
    requires
        forall|k: int| 0 <= k < cs.len() ==> #[trigger] cs[k] < t.len(),
    ensures
        r.0 == tally(t@, cs@, name@, cs.len() as int),
        Some(r.1) == least_line(t@, cs@, name@, cs.len() as int) || (r.1 == 0 && least_line(
            t@,
            cs@,
            name@,
            cs.len() as int,
        ) is None),
{
    let mut n: usize = 0;
    let mut line: Option<usize> = None;
    let mut k: usize = 0;
    while k < cs.len()
        invariant
            k <= cs.len(),
            n <= k,
            forall|i: int| 0 <= i < cs.len() ==> #[trigger] cs[i] < t.len(),
            n == tally(t@, cs@, name@, k as int),
            line == least_line(t@, cs@, name@, k as int),
        decreases cs.len() - k,
    {
        let node = &t[cs[k]];
        if same(node.name.as_str(), name) {
            n += 1;
            line = match line {
                Some(l) => if l <= node.line {
                    Some(l)
                } else {
                    Some(node.line)
                },
                None => Some(node.line),
            };
        }
        k += 1;
    }
    match line {
        Some(l) => (n, l),
        None => (n, 0),
    }
}

fn is_first_of_name(t: &Vec<Node>, cs: &Vec<usize>, k: usize) -> (r: bool)
    requires
        k < cs.len(),
        forall|i: int| 0 <= i < cs.len() ==> #[trigger] cs[i] < t.len(),
    ensures
        r == first_of_name(t@, cs@, k as int),
{
    let name = t[cs[k]].name.as_str();
    let mut i: usize = 0;
    while i < k
        invariant
            i <= k < cs.len(),
            name@ == t@[cs@[k as int] as int].name@,
            forall|m: int| 0 <= m < cs.len() ==> #[trigger] cs[m] < t.len(),
            tally(t@, cs@, name@, i as int) == 0,
        decreases k - i,
    {
        if same(t[cs[i]].name.as_str(), name) {
            proof {
                lemma_tally(t@, cs@, name@, i + 1, k as int);
            }
            return false;
        }
        i += 1;
    }
    true
}

proof fn lemma_tally(t: Seq<Node>, cs: Seq<usize>, name: Seq<char>, i: int, k: int)
    requires
        i <= k,
    ensures
        tally(t, cs, name, i) <= tally(t, cs, name, k),
    decreases k - i,
{
    if i < k {
        lemma_tally(t, cs, name, i, k - 1);
    }
}

fn rsx_findings_of(t: &Vec<Node>, m: usize, f: usize, names: &Vec<String>, file: &str) -> (r: Vec<
    DerivedViewFinding,
>)
    requires
        m < t.len(),
        f < t.len(),
    ensures
        ({
            let cs = calls(t@, m as int, names.deep_view());
            r.deep_view() == gather(0, cs.len() as int, call_findings(t@, cs, f as int, file@))
        }),
{
    let cs = find_calls_outside_use_memo(t, m, names);
    let mut out: Vec<DerivedViewFinding> = Vec::new();
    let mut k: usize = 0;
    while k < cs.len()
        invariant
            k <= cs.len(),
            f < t.len(),
            forall|i: int| 0 <= i < cs.len() ==> #[trigger] cs[i] < t.len(),
            out.deep_view() == gather(0, k as int, call_findings(t@, cs@, f as int, file@)),
        decreases cs.len() - k,
    {
        if is_first_of_name(t, &cs, k) {
            let name = t[cs[k]].name.as_str();
            let comp = t[f].name.as_str();
            let (n, line) = summary(t, &cs, name);
            let finding = DerivedViewFinding {
                code: "derived_view_no_memo",
                severity: "warning",
                file: owned(file),
                line,
                component: owned(comp),
                callee: owned(name),
                calls_in_rsx_block: n,
                message: message_of(name, n, comp),
                fix: fix_of(name),
            };
            put(&mut out, finding);
        }
        k += 1;
    }
    out
}

fn component_findings_of(t: &Vec<Node>, f: usize, names: &Vec<String>, file: &str) -> (r: Vec<
    DerivedViewFinding,
>)
    requires
        f < t.len(),
    ensures
        r.deep_view() == gather(
            body_start(t@, f as int),
            body_end(t@, f as int),
            rsx_findings(t@, f as int, names.deep_view(), file@),
        ),
{
    let (lo, hi) = body_of(t, f);
    let mut out: Vec<DerivedViewFinding> = Vec::new();
    let mut m: usize = lo;
    while m < hi
        invariant
            lo <= m <= hi <= t.len(),
            f < t.len(),
            out.deep_view() == gather(
                lo as int,
                m as int,
                rsx_findings(t@, f as int, names.deep_view(), file@),
            ),
        decreases hi - m,
    {
        if is_rsx(t, m) {
            put_all(&mut out, rsx_findings_of(t, m, f, names, file));
        }
        m += 1;
    }
    out
}

fn findings_in(t: &Vec<Node>, file: &str, names: &Vec<String>) -> (r: Vec<DerivedViewFinding>)
    ensures
        r.deep_view() == gather(0, t@.len() as int, component_findings(t@, file@, names.deep_view())),
{
    let mut out: Vec<DerivedViewFinding> = Vec::new();
    let mut j: usize = 0;
    while j < t.len()
        invariant
            j <= t.len(),
            out.deep_view() == gather(0, j as int, component_findings(t@, file@, names.deep_view())),
        decreases t.len() - j,
    {
        if is_component(t, j) {
            put_all(&mut out, component_findings_of(t, j, names, file));
        }
        j += 1;
    }
    out
}

pub open spec fn file_findings(
    files: Seq<ScannedFile>,
    names: Seq<Seq<char>>,
) -> spec_fn(int) -> Seq<DerivedViewFindingView> {
    |k: int|
        match files[k].ast {
            Ok(t) => gather(0, t@.len() as int, component_findings(t@, files[k].path@, names)),
            Err(_) => Seq::empty(),
        }
}

fn all_findings(files: &Vec<ScannedFile>, names: &Vec<String>) -> (r: Vec<DerivedViewFinding>)
    ensures
        r.deep_view() == gather(0, files@.len() as int, file_findings(files@, names.deep_view())),
{
    let mut out: Vec<DerivedViewFinding> = Vec::new();
    let mut k: usize = 0;
    while k < files.len()
        invariant
            k <= files.len(),
            out.deep_view() == gather(0, k as int, file_findings(files@, names.deep_view())),
        decreases files.len() - k,
    {
        match &files[k].ast {
            Ok(t) => put_all(&mut out, findings_in(t, files[k].path.as_str(), names)),
            Err(_) => {},
        }
        k += 1;
    }
    out
}

/// What there is to report.
pub open spec fn report(files: Seq<ScannedFile>) -> DerivedViewReportView {
    DerivedViewReportView {
        findings: sorted(
            gather(0, files.len() as int, file_findings(files, derivations(files))),
            rank::<DerivedViewFinding>(),
        ),
        parse_errors: parse_errors(files),
    }
}

/// Reports the calls in `rsx!` bodies of `files` that derive a `Vec` from a slice
/// at each render, by file, line and function.
pub fn derived_view_no_memo(files: &Vec<ScannedFile>) -> (r: DerivedViewReport)
    ensures
        r.deep_view() == report(files@),
{
    let names = collect_derivations(files);
    DerivedViewReport {
        findings: sort(all_findings(files, &names)),
        parse_errors: collect_parse_errors(files),
    }
}

} // verus!
