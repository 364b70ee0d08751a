//! `optimistic_lock_gate`: flag counters that gate asynchronous work by hand.
//!
//! The pattern, on one signal `S` of a component: a snapshot `let snap = S();`, a
//! bump `S += 1;`, and a comparison of `S()` with `snap` in an asynchronous tail.
use vstd::prelude::*;

use crate::lints::signal_lint::bindings::{binding, binding_of, signal_init, signal_init_of};
use crate::lints::signal_lint::fence::{
    comparison, int_literal, is_comparison, is_int_literal, signal_call, signal_call_name, snapshot,
    snapshot_of,
};
use crate::lints::signal_lint::writers::{
    WriteSourceView, collect_write_sources, hook_form, sources, standalone_hook_form,
};
use crate::order::{distinct, distinct_of, gather, only_if, put, put_all};
use crate::scan::{
    ParseError, ParseErrorView, ScannedFile, body, body_of, collect_parse_errors, component, ident,
    inside, is_bare, is_component, operand_ident, operand_ident_of, parse_errors, pat_name,
    pat_name_of, reach,
};
use crate::tape::{Kind, Node, operand, operand_of, stop, stop_of};
use crate::text::{owned, same};

verus! {

#[derive(Debug)]
pub struct OptimisticLockGateParams {
    pub project_root: Option<String>,
}

pub ghost struct OptimisticLockGateParamsView {
    pub project_root: Option<Seq<char>>,
}

impl DeepView for OptimisticLockGateParams {
    type V = OptimisticLockGateParamsView;

    open spec fn deep_view(&self) -> OptimisticLockGateParamsView {
        OptimisticLockGateParamsView {
            project_root: self.project_root.deep_view(),
        }
    }
}

#[derive(Debug)]
pub struct OptimisticLockGateFinding {
    pub code: &'static str,
    pub file: String,
    /// The line of the snapshot.
    pub line: usize,
    pub component: String,
    pub signal: String,
    /// The name that the snapshot is bound to.
    pub snapshot: String,
    /// `high` if one closure or hook holds the whole pattern, `medium` if the
    /// bump stands elsewhere in the component.
    pub confidence: &'static str,
    pub message: String,
}

pub ghost struct OptimisticLockGateFindingView {
    pub code: Seq<char>,
    pub file: Seq<char>,
    pub line: usize,
    pub component: Seq<char>,
    pub signal: Seq<char>,
    pub snapshot: Seq<char>,
    pub confidence: Seq<char>,
    pub message: Seq<char>,
}

impl DeepView for OptimisticLockGateFinding {
    type V = OptimisticLockGateFindingView;

    open spec fn deep_view(&self) -> OptimisticLockGateFindingView {
        OptimisticLockGateFindingView {
            code: self.code@,
            file: self.file@,
            line: self.line,
            component: self.component@,
            signal: self.signal@,
            snapshot: self.snapshot@,
            confidence: self.confidence@,
            message: self.message@,
        }
    }
}

#[derive(Debug)]
pub struct OptimisticLockGateReport {
    pub findings: Vec<OptimisticLockGateFinding>,
    pub parse_errors: Vec<ParseError>,
}

pub ghost struct OptimisticLockGateReportView {
    pub findings: Seq<OptimisticLockGateFindingView>,
    pub parse_errors: Seq<ParseErrorView>,
}

impl DeepView for OptimisticLockGateReport {
    type V = OptimisticLockGateReportView;

    open spec fn deep_view(&self) -> OptimisticLockGateReportView {
        OptimisticLockGateReportView {
            findings: self.findings.deep_view(),
            parse_errors: self.parse_errors.deep_view(),
        }
    }
}

/// A snapshot that a gate compares with its signal.
#[derive(Debug)]
pub struct DetectionHit {
    pub snapshot_name: String,
    pub snapshot_line: usize,
}

pub ghost struct DetectionHitView {
    pub snapshot_name: Seq<char>,
    pub snapshot_line: usize,
}

impl DeepView for DetectionHit {
    type V = DetectionHitView;

    open spec fn deep_view(&self) -> DetectionHitView {
        DetectionHitView {
            snapshot_name: self.snapshot_name@,
            snapshot_line: self.snapshot_line,
        }
    }
}

pub open spec fn high_message(signal: Seq<char>, snap: Seq<char>) -> Seq<char> {
    "`"@
        + signal
        + "` is hand-rolling the optimistic-lock staleness gate: snapshot (`let "@
        + snap
        + " = "@
        + signal
        + "();`), bump (`"@
        + signal
        + " += …;`), and a gated reconciliation (`if "@
        + signal
        + "() == "@
        + snap
        + " { … }`) inside an async tail. This is the third generated app with the same shape — extract the pattern into a `Store` generation method (e.g. `let rev = store.bump_revision(); … if store.matches(rev) { … }`) so the invariant lives in one place. See the `Store` primitive in `get_dsl_spec`."@
}

fn high_message_of(signal: &str, snap: &str) -> (r: String)
    ensures
        r@ == high_message(signal@, snap@),
{
    let mut s = owned("`");
    s.append(signal);
    s.append("` is hand-rolling the optimistic-lock staleness gate: snapshot (`let ");
    s.append(snap);
    s.append(" = ");
    s.append(signal);
    s.append("();`), bump (`");
    s.append(signal);
    s.append(" += …;`), and a gated reconciliation (`if ");
    s.append(signal);
    s.append("() == ");
    s.append(snap);
    s.append(" { … }`) inside an async tail. This is the third generated app with the same shape — extract the pattern into a `Store` generation method (e.g. `let rev = store.bump_revision(); … if store.matches(rev) { … }`) so the invariant lives in one place. See the `Store` primitive in `get_dsl_spec`.");
    s
}

pub open spec fn medium_message(signal: Seq<char>, snap: Seq<char>) -> Seq<char> {
    "`"@
        + signal
        + "` looks like the optimistic-lock staleness gate split across bodies: snapshot + async compare against `"@
        + snap
        + "` live in one hook/closure, the bump (`"@
        + signal
        + " += …;`) lives in another. The semantics are still the same — extract into a `Store` generation method (e.g. `let rev = store.bump_revision(); … if store.matches(rev) { … }`) so the invariant lives in one place. See the `Store` primitive in `get_dsl_spec`."@
}

fn medium_message_of(signal: &str, snap: &str) -> (r: String)
    ensures
        r@ == medium_message(signal@, snap@),
{
    let mut s = owned("`");
    s.append(signal);
    s.append("` looks like the optimistic-lock staleness gate split across bodies: snapshot + async compare against `");
    s.append(snap);
    s.append("` live in one hook/closure, the bump (`");
    s.append(signal);
    s.append(" += …;`) lives in another. The semantics are still the same — extract into a `Store` generation method (e.g. `let rev = store.bump_revision(); … if store.matches(rev) { … }`) so the invariant lives in one place. See the `Store` primitive in `get_dsl_spec`.");
    s
}

// ---------------------------------------------------------------------------
// Counters
// ---------------------------------------------------------------------------

pub open spec fn counter_at(t: Seq<Node>, b: int) -> spec_fn(int) -> Seq<Seq<char>> {
    |j: int|
        match binding(t, b, j) {
            Some((p, e)) => match (signal_init(t, e), pat_name(t, p)) {
                (Some(v), Some(name)) => only_if(int_literal(t, v), name),
                _ => Seq::empty(),
            },
            None => Seq::empty(),
        }
}

/// The signals that the statements of the block at `b` start as an integer.
pub open spec fn counters(t: Seq<Node>, b: int) -> Seq<Seq<char>> {
    distinct(gather(b, stop(t, b), counter_at(t, b)))
}

pub fn collect_int_use_signals(t: &Vec<Node>, b: usize) -> (r: Vec<String>)
    requires
        b < t.len(),
    ensures
        r.deep_view() == counters(t@, b as int),
{
    let end = stop_of(t, b);
    let mut out: Vec<String> = Vec::new();
    let mut j: usize = b;
    while j < end
        invariant
            b <= j <= end <= t.len(),
            out.deep_view() == gather(b as int, j as int, counter_at(t@, b as int)),
        decreases end - j,
    {
        match binding_of(t, b, j) {
            Some((p, e)) => match (signal_init_of(t, e), pat_name_of(t, p)) {
                (Some(v), Some(name)) => {
                    if is_int_literal(t, v) {
                        put(&mut out, name);
                    }
                },
                _ => {},
            },
            None => {},
        }
        j += 1;
    }
    distinct_of(&out)
}

// ---------------------------------------------------------------------------
// The three parts of the pattern
// ---------------------------------------------------------------------------

/// Node `j` adds an integer to `signal`, or takes one off.
pub open spec fn bump(t: Seq<Node>, j: int, signal: Seq<char>) -> bool {
    t[j].kind == Kind::Binary && (t[j].name@ == "+="@ || t[j].name@ == "-="@) && operand_ident(
        t,
        j,
        0,
    ) == Some(signal) && match operand(t, j, 1) {
        Some(v) => int_literal(t, v),
        None => false,
    }
}

/// The subtree at `e` bumps `signal`.
pub open spec fn bumped(t: Seq<Node>, e: int, signal: Seq<char>) -> bool {
    exists|j: int| e <= j < stop(t, e) && bump(t, j, signal)
}

fn is_bump(t: &Vec<Node>, j: usize, signal: &str) -> (r: bool)
    requires
        j < t.len(),
    ensures
        r == bump(t@, j as int, signal@),
{
    if t[j].kind != Kind::Binary || !(same(t[j].name.as_str(), "+=") || same(
        t[j].name.as_str(),
        "-=",
    )) {
        return false;
    }
    match operand_ident_of(t, j, 0) {
        Some(name) => {
            if !same(name.as_str(), signal) {
                return false;
            }
        },
        None => return false,
    }
    match operand_of(t, j, 1) {
        Some(v) => is_int_literal(t, v),
        None => false,
    }
}

fn is_bumped(t: &Vec<Node>, e: usize, signal: &str) -> (r: bool)
    requires
        e < t.len(),
    ensures
        r == bumped(t@, e as int, signal@),
{
    let end = stop_of(t, e);
    let mut j: usize = e;
    while j < end
        invariant
            e <= j <= end <= t.len(),
            end == stop(t@, e as int),
            forall|k: int| e <= k < j ==> !bump(t@, k, signal@),
        decreases end - j,
    {
        if is_bump(t, j, signal) {
            return true;
        }
        j += 1;
    }
    false
}

/// Node `m` is an `async` block or closure.
pub open spec fn async_tail(t: Seq<Node>, m: int) -> bool {
    t[m].kind == Kind::Async || (t[m].kind == Kind::Closure && t[m].flag)
}

pub open spec fn async_tail_at(t: Seq<Node>) -> spec_fn(int) -> bool {
    |m: int| async_tail(t, m)
}

/// The name that node `j` compares with `signal()`.
pub open spec fn gate_name(t: Seq<Node>, j: int, signal: Seq<char>) -> Option<Seq<char>> {
    if comparison(t, j) {
        match (operand(t, j, 0), operand(t, j, 1)) {
            (Some(l), Some(r)) => if signal_call(t, l) == Some(signal) && ident(t, r) is Some {
                ident(t, r)
            } else if signal_call(t, r) == Some(signal) {
                ident(t, l)
            } else {
                None
            },
            _ => None,
        }
    } else {
        None
    }
}

/// Node `j`, in the asynchronous part of the subtree at `e`, compares `name` with
/// `signal()`.
pub open spec fn gate(t: Seq<Node>, e: int, j: int, signal: Seq<char>, name: Seq<char>) -> bool {
    gate_name(t, j, signal) == Some(name) && inside(t, e, j, async_tail_at(t))
}

/// The asynchronous part of the subtree at `e` compares `name` with `signal()`.
pub open spec fn gated(t: Seq<Node>, e: int, signal: Seq<char>, name: Seq<char>) -> bool {
    exists|j: int| e <= j < stop(t, e) && gate(t, e, j, signal, name)
}

fn calls_signal(t: &Vec<Node>, e: usize, signal: &str) -> (r: bool)
    requires
        e < t.len(),
    ensures
        r == (signal_call(t@, e as int) == Some(signal@)),
{
    match signal_call_name(t, e) {
        Some(name) => same(name.as_str(), signal),
        None => false,
    }
}

fn is_gate(t: &Vec<Node>, j: usize, signal: &str, name: &str) -> (r: bool)
    requires
        j < t.len(),
    ensures
        r == (gate_name(t@, j as int, signal@) == Some(name@)),
{
    if !is_comparison(t, j) {
        return false;
    }
    match (operand_of(t, j, 0), operand_of(t, j, 1)) {
        (Some(l), Some(r)) => {
            let other: usize = if calls_signal(t, l, signal) && is_bare(t, r) {
                r
            } else if calls_signal(t, r, signal) {
                l
            } else {
                return false;
            };
            is_bare(t, other) && same(t[other].name.as_str(), name)
        },
        _ => false,
    }
}

fn is_gated(t: &Vec<Node>, e: usize, signal: &str, name: &str) -> (r: bool)
    requires
        e < t.len(),
    ensures
        r == gated(t@, e as int, signal@, name@),
{
    let end = stop_of(t, e);
    let mut until: usize = e;
    let mut j: usize = e;
    while j < end
        invariant
            e <= j <= end <= t.len(),
            end == stop(t@, e as int),
            until == reach(t@, e as int, j as int, async_tail_at(t@)),
            forall|k: int| e <= k < j ==> !gate(t@, e as int, k, signal@, name@),
        decreases end - j,
    {
        if j < until && is_gate(t, j, signal, name) {
            assert(gate(t@, e as int, j as int, signal@, name@));
            return true;
        }
        if t[j].kind == Kind::Async || (t[j].kind == Kind::Closure && t[j].flag) {
            let stop = stop_of(t, j);
            if stop > until {
                until = stop;
            }
        }
        j += 1;
    }
    false
}

// ---------------------------------------------------------------------------
// Detection
// ---------------------------------------------------------------------------

/// The snapshot of `signal` that the `let` at `j` takes and that the subtree at
/// `e` gates on.
pub open spec fn hit(t: Seq<Node>, e: int, j: int, signal: Seq<char>) -> Option<DetectionHitView> {
    match snapshot(t, j) {
        Some(p) => if p.signal == signal && gated(t, e, signal, p.name) {
            Some(DetectionHitView { snapshot_name: p.name, snapshot_line: t[j].line })
        } else {
            None
        },
        None => None,
    }
}

/// The first such snapshot in the subtree at `e`, before `hi`.
pub open spec fn first_hit(t: Seq<Node>, e: int, hi: int, signal: Seq<char>) -> Option<
    DetectionHitView,
>
    decreases hi - e,
{
    if hi <= e {
        None
    } else {
        match first_hit(t, e, hi - 1, signal) {
            Some(h) => Some(h),
            None => hit(t, e, hi - 1, signal),
        }
    }
}

/// Snapshot and gate on `signal` in the subtree at `e`.
pub open spec fn snapshot_gate(
    t: Seq<Node>,
    e: int,
    signal: Seq<char>,
) -> Option<DetectionHitView> {
    first_hit(t, e, stop(t, e), signal)
}

/// Snapshot, bump and gate on `signal`, all in the subtree at `e`.
pub open spec fn detected(t: Seq<Node>, e: int, signal: Seq<char>) -> Option<DetectionHitView> {
    if bumped(t, e, signal) {
        snapshot_gate(t, e, signal)
    } else {
        None
    }
}

pub fn detect_snapshot_gate_in_source(t: &Vec<Node>, e: usize, signal: &str) -> (r: Option<
    DetectionHit,
>)
    requires
        e < t.len(),
    ensures
        r.deep_view() == snapshot_gate(t@, e as int, signal@),
{
    let end = stop_of(t, e);
    let mut found: Option<DetectionHit> = None;
    let mut j: usize = e;
    while j < end
        invariant
            e <= j <= end <= t.len(),
            found.deep_view() == first_hit(t@, e as int, j as int, signal@),
        decreases end - j,
    {
        if found.is_none() {
            match snapshot_of(t, j) {
                Some(p) => {
                    if same(p.signal.as_str(), signal) && is_gated(t, e, signal, p.name.as_str()) {
                        found = Some(
                            DetectionHit { snapshot_name: p.name, snapshot_line: t[j].line },
                        );
                    }
                },
                None => {},
            }
        }
        j += 1;
    }
    found
}

pub fn detect_in_source(t: &Vec<Node>, e: usize, signal: &str) -> (r: Option<DetectionHit>)
    requires
        e < t.len(),
    ensures
        r.deep_view() == detected(t@, e as int, signal@),
{
    if is_bumped(t, e, signal) {
        detect_snapshot_gate_in_source(t, e, signal)
    } else {
        None
    }
}

// ---------------------------------------------------------------------------
// One closure or hook
// ---------------------------------------------------------------------------

pub open spec fn high_finding(
    t: Seq<Node>,
    f: int,
    file: Seq<char>,
    signal: Seq<char>,
    h: DetectionHitView,
) -> OptimisticLockGateFindingView {
    OptimisticLockGateFindingView {
        code: "optimistic_lock_gate"@,
        file,
        line: h.snapshot_line,
        component: t[f].name@,
        signal,
        snapshot: h.snapshot_name,
        confidence: "high"@,
        message: high_message(signal, h.snapshot_name),
    }
}

/// The finding on the source at `e` for each of the signals.
pub open spec fn source_finding(
    t: Seq<Node>,
    f: int,
    file: Seq<char>,
    e: int,
    signals: Seq<Seq<char>>,
) -> spec_fn(int) -> Seq<OptimisticLockGateFindingView> {
    |i: int|
        match detected(t, e, signals[i]) {
            Some(h) => seq![high_finding(t, f, file, signals[i], h)],
            None => Seq::empty(),
        }
}

pub open spec fn source_findings(
    t: Seq<Node>,
    f: int,
    file: Seq<char>,
    es: Seq<usize>,
    signals: Seq<Seq<char>>,
) -> spec_fn(int) -> Seq<OptimisticLockGateFindingView> {
    |k: int|
        gather(
            0,
            signals.len() as int,
            source_finding(t, f, file, es[k] as int, signals),
        )
}

/// One of the sources `es` holds the whole pattern for `signal`.
pub open spec fn whole(t: Seq<Node>, es: Seq<usize>, signal: Seq<char>) -> bool {
    exists|k: int| 0 <= k < es.len() && detected(t, #[trigger] es[k] as int, signal) is Some
}

fn source_findings_of(
    t: &Vec<Node>,
    f: usize,
    file: &str,
    e: usize,
    signals: &Vec<String>,
) -> (r: Vec<OptimisticLockGateFinding>)
    requires
        f < t.len(),
        e < t.len(),
    ensures
        r.deep_view() == gather(
            0,
            signals@.len() as int,
            source_finding(t@, f as int, file@, e as int, signals.deep_view()),
        ),
{
    let ghost v = signals.deep_view();
    let mut out: Vec<OptimisticLockGateFinding> = Vec::new();
    let mut i: usize = 0;
    while i < signals.len()
        invariant
            f < t.len(),
            e < t.len(),
            i <= signals.len(),
            v == signals.deep_view(),
            out.deep_view() == gather(
                0,
                i as int,
                source_finding(t@, f as int, file@, e as int, v),
            ),
        decreases signals.len() - i,
    {
        assert(v[i as int] == signals@[i as int]@);
        let signal = signals[i].as_str();
        match detect_in_source(t, e, signal) {
            Some(h) => {
                let finding = OptimisticLockGateFinding {
                    code: "optimistic_lock_gate",
                    file: owned(file),
                    line: h.snapshot_line,
                    component: owned(t[f].name.as_str()),
                    signal: owned(signal),
                    message: high_message_of(signal, h.snapshot_name.as_str()),
                    snapshot: h.snapshot_name,
                    confidence: "high",
                };
                put(&mut out, finding);
            },
            None => {},
        }
        i += 1;
    }
    out
}

fn is_whole(t: &Vec<Node>, es: &Vec<usize>, signal: &str) -> (r: bool)
    requires
        forall|k: int| 0 <= k < es.len() ==> #[trigger] es[k] < t.len(),
    ensures
        r == whole(t@, es@, signal@),
{
    let mut k: usize = 0;
    while k < es.len()
        invariant
            k <= es.len(),
            forall|m: int| 0 <= m < es.len() ==> #[trigger] es[m] < t.len(),
            forall|m: int| 0 <= m < k ==> detected(t@, #[trigger] es@[m] as int, signal@) is None,
        decreases es.len() - k,
    {
        if detect_in_source(t, es[k], signal).is_some() {
            assert(detected(t@, es@[k as int] as int, signal@) is Some);
            return true;
        }
        k += 1;
    }
    false
}

// ---------------------------------------------------------------------------
// Across closures and hooks
// ---------------------------------------------------------------------------

pub open spec fn hook_at(t: Seq<Node>) -> spec_fn(int) -> Seq<usize> {
    |j: int| only_if(hook_form(t, j) is Some, j as usize)
}

/// The calls of hooks anywhere in the block at `b`.
pub open spec fn hooks(t: Seq<Node>, b: int) -> Seq<usize> {
    gather(b, stop(t, b), hook_at(t))
}

pub open spec fn bodies(ws: Seq<WriteSourceView>) -> Seq<usize> {
    Seq::new(ws.len(), |k: int| ws[k].body)
}

/// Snapshot and gate on `signal` in the first of `es` before number `n` that
/// holds both.
pub open spec fn first_pair(t: Seq<Node>, es: Seq<usize>, n: int, signal: Seq<char>) -> Option<
    DetectionHitView,
>
    decreases n,
{
    if n <= 0 {
        None
    } else {
        match first_pair(t, es, n - 1, signal) {
            Some(h) => Some(h),
            None => snapshot_gate(t, es[n - 1] as int, signal),
        }
    }
}

/// The finding on `signals[i]` if no source holds the whole pattern, but one of
/// `all` holds snapshot and gate, and the block at `b` bumps the signal.
pub open spec fn split_finding(
    t: Seq<Node>,
    f: int,
    file: Seq<char>,
    b: int,
    signals: Seq<Seq<char>>,
) -> spec_fn(int) -> Seq<OptimisticLockGateFindingView> {
    |i: int|
        {
            let signal = signals[i];
            let es = bodies(sources(t, b));
            let all = es + hooks(t, b);
            match first_pair(t, all, all.len() as int, signal) {
                Some(h) => only_if(
                    !whole(t, es, signal) && bumped(t, b, signal),
                    OptimisticLockGateFindingView {
                        code: "optimistic_lock_gate"@,
                        file,
                        line: h.snapshot_line,
                        component: t[f].name@,
                        signal,
                        snapshot: h.snapshot_name,
                        confidence: "medium"@,
                        message: medium_message(signal, h.snapshot_name),
                    },
                ),
                None => Seq::empty(),
            }
        }
}

/// The findings on the component at `f`, whose body is the block at `b`.
pub open spec fn block_findings(t: Seq<Node>, f: int, file: Seq<char>, b: int) -> Seq<
    OptimisticLockGateFindingView,
> {
    let signals = counters(t, b);
    let es = bodies(sources(t, b));
    gather(0, es.len() as int, source_findings(t, f, file, es, signals)) + gather(
        0,
        signals.len() as int,
        split_finding(t, f, file, b, signals),
    )
}

fn bodies_of(t: &Vec<Node>, b: usize) -> (r: Vec<usize>)
    requires
        b < t.len(),
    ensures
        r@ == bodies(sources(t@, b as int)),
        forall|k: int| 0 <= k < r.len() ==> #[trigger] r[k] < t.len(),
{
    let ws = collect_write_sources(t, b);
    let mut out: Vec<usize> = Vec::new();
    let mut k: usize = 0;
    while k < ws.len()
        invariant
            k <= ws.len(),
            ws.deep_view() == sources(t@, b as int),
            forall|m: int| 0 <= m < ws.len() ==> (#[trigger] ws[m]).body < t.len(),
            out@ =~= bodies(sources(t@, b as int)).take(k as int),
            forall|m: int| 0 <= m < out.len() ==> #[trigger] out[m] < t.len(),
        decreases ws.len() - k,
    {
        assert(ws.deep_view()[k as int] == ws@[k as int].deep_view());
        out.push(ws[k].body);
        k += 1;
    }
    assert(out@ =~= bodies(sources(t@, b as int)));
    out
}

fn hooks_of(t: &Vec<Node>, b: usize) -> (r: Vec<usize>)
    requires
        b < t.len(),
    ensures
        r@ == hooks(t@, b as int),
        forall|k: int| 0 <= k < r.len() ==> #[trigger] r[k] < t.len(),
{
    let end = stop_of(t, b);
    let mut out: Vec<usize> = Vec::new();
    let mut j: usize = b;
    while j < end
        invariant
            b <= j <= end <= t.len(),
            out@ == gather(b as int, j as int, hook_at(t@)),
            forall|k: int| 0 <= k < out.len() ==> #[trigger] out[k] < t.len(),
        decreases end - j,
    {
        if standalone_hook_form(t, j).is_some() {
            out.push(j);
        }
        j += 1;
    }
    out
}

fn first_pair_of(t: &Vec<Node>, es: &Vec<usize>, signal: &str) -> (r: Option<DetectionHit>)
    requires
        forall|k: int| 0 <= k < es.len() ==> #[trigger] es[k] < t.len(),
    ensures
        r.deep_view() == first_pair(t@, es@, es.len() as int, signal@),
{
    let mut found: Option<DetectionHit> = None;
    let mut k: usize = 0;
    while k < es.len()
        invariant
            k <= es.len(),
            forall|m: int| 0 <= m < es.len() ==> #[trigger] es[m] < t.len(),
            found.deep_view() == first_pair(t@, es@, k as int, signal@),
        decreases es.len() - k,
    {
        if found.is_none() {
            found = detect_snapshot_gate_in_source(t, es[k], signal);
        }
        k += 1;
    }
    found
}

fn split_findings_of(t: &Vec<Node>, f: usize, file: &str, b: usize, signals: &Vec<String>) -> (r:
    Vec<OptimisticLockGateFinding>)
    requires
        f < t.len(),
        b < t.len(),
    ensures
        r.deep_view() == gather(
            0,
            signals@.len() as int,
            split_finding(t@, f as int, file@, b as int, signals.deep_view()),
        ),
{
    let ghost v = signals.deep_view();
    let es = bodies_of(t, b);
    let mut all = bodies_of(t, b);
    let mut more = hooks_of(t, b);
    let ghost extra = more@;
    all.append(&mut more);
    assert(all@ =~= es@ + hooks(t@, b as int));
    assert forall|k: int| 0 <= k < all.len() implies #[trigger] all[k] < t.len() by {
        if k < es.len() {
            assert(all[k] == es[k]);
        } else {
            assert(all[k] == extra[k - es.len()]);
        }
    }
    let mut out: Vec<OptimisticLockGateFinding> = Vec::new();
    let mut i: usize = 0;
    while i < signals.len()
        invariant
            f < t.len(),
            b < t.len(),
            i <= signals.len(),
            v == signals.deep_view(),
            es@ == bodies(sources(t@, b as int)),
            all@ == es@ + hooks(t@, b as int),
            forall|k: int| 0 <= k < es.len() ==> #[trigger] es[k] < t.len(),
            forall|k: int| 0 <= k < all.len() ==> #[trigger] all[k] < t.len(),
            out.deep_view() == gather(
                0,
                i as int,
                split_finding(t@, f as int, file@, b as int, v),
            ),
        decreases signals.len() - i,
    {
        assert(v[i as int] == signals@[i as int]@);
        let signal = signals[i].as_str();
        match first_pair_of(t, &all, signal) {
            Some(h) => {
                if !is_whole(t, &es, signal) && is_bumped(t, b, signal) {
                    let finding = OptimisticLockGateFinding {
                        code: "optimistic_lock_gate",
                        file: owned(file),
                        line: h.snapshot_line,
                        component: owned(t[f].name.as_str()),
                        signal: owned(signal),
                        message: medium_message_of(signal, h.snapshot_name.as_str()),
                        snapshot: h.snapshot_name,
                        confidence: "medium",
                    };
                    put(&mut out, finding);
                }
            },
            None => {},
        }
        i += 1;
    }
    out
}

pub fn scan_component(t: &Vec<Node>, f: usize, file: &str, b: usize) -> (r: Vec<
    OptimisticLockGateFinding,
>)
    requires
        f < t.len(),
        b < t.len(),
    ensures
        r.deep_view() == block_findings(t@, f as int, file@, b as int),
{
    let signals = collect_int_use_signals(t, b);
    let es = bodies_of(t, b);
    let mut out: Vec<OptimisticLockGateFinding> = Vec::new();
    let mut k: usize = 0;
    while k < es.len()
        invariant
            f < t.len(),
            b < t.len(),
            k <= es.len(),
            forall|m: int| 0 <= m < es.len() ==> #[trigger] es[m] < t.len(),
            out.deep_view() == gather(
                0,
                k as int,
                source_findings(t@, f as int, file@, es@, signals.deep_view()),
            ),
        decreases es.len() - k,
    {
        put_all(&mut out, source_findings_of(t, f, file, es[k], &signals));
        k += 1;
    }
    put_all(&mut out, split_findings_of(t, f, file, b, &signals));
    out
}

pub open spec fn component_findings(t: Seq<Node>, file: Seq<char>) -> spec_fn(int) -> Seq<
    OptimisticLockGateFindingView,
> {
    |f: int|
        if component(t, f) {
            match body(t, f) {
                Some(b) => block_findings(t, f, file, b),
                None => Seq::empty(),
            }
        } else {
            Seq::empty()
        }
}

fn findings_in(t: &Vec<Node>, file: &str) -> (r: Vec<OptimisticLockGateFinding>)
    ensures
        r.deep_view() == gather(0, t@.len() as int, component_findings(t@, file@)),
{
    let mut out: Vec<OptimisticLockGateFinding> = Vec::new();
    let mut j: usize = 0;
    while j < t.len()
        invariant
            j <= t.len(),
            out.deep_view() == gather(0, j as int, component_findings(t@, file@)),
        decreases t.len() - j,
    {
        if is_component(t, j) {
            let (lo, hi) = body_of(t, j);
            if lo < hi {
                put_all(&mut out, scan_component(t, j, file, lo));
            }
        }
        j += 1;
    }
    out
}

pub open spec fn file_findings(
    files: Seq<ScannedFile>,
) -> spec_fn(int) -> Seq<OptimisticLockGateFindingView> {
    |k: int|
        match files[k].ast {
            Ok(t) => gather(0, t@.len() as int, component_findings(t@, files[k].path@)),
            Err(_) => Seq::empty(),
        }
}

fn all_findings(files: &Vec<ScannedFile>) -> (r: Vec<OptimisticLockGateFinding>)
    ensures
        r.deep_view() == gather(0, files@.len() as int, file_findings(files@)),
{
    let mut out: Vec<OptimisticLockGateFinding> = Vec::new();
    let mut k: usize = 0;
    while k < files.len()
        invariant
            k <= files.len(),
            out.deep_view() == gather(0, k as int, file_findings(files@)),
        decreases files.len() - k,
    {
        match &files[k].ast {
            Ok(t) => put_all(&mut out, findings_in(t, files[k].path.as_str())),
            Err(_) => {},
        }
        k += 1;
    }
    out
}

/// What there is to report.
pub open spec fn report(files: Seq<ScannedFile>) -> OptimisticLockGateReportView {
    OptimisticLockGateReportView {
        findings: gather(0, files.len() as int, file_findings(files)),
        parse_errors: parse_errors(files),
    }
}

/// Reports the counters of components in `files` that gate asynchronous work on
/// a snapshot.
pub fn optimistic_lock_gate(files: &Vec<ScannedFile>) -> (r: OptimisticLockGateReport)
    ensures
        r.deep_view() == report(files@),
{
    OptimisticLockGateReport {
        findings: all_findings(files),
        parse_errors: collect_parse_errors(files),
    }
}

/// A finding that rests on more than one body is never made on a signal for
/// which one source of the component holds the whole pattern.
pub proof fn law_no_double_flag(
    t: Seq<Node>,
    f: int,
    file: Seq<char>,
    b: int,
    signals: Seq<Seq<char>>,
    i: int,
    k: int,
)
    requires
        0 <= k < bodies(sources(t, b)).len(),
        0 <= i < signals.len(),
        source_finding(t, f, file, bodies(sources(t, b))[k] as int, signals)(i).len() > 0,
    ensures
        split_finding(t, f, file, b, signals)(i).len() == 0,
{
    let e = bodies(sources(t, b))[k];
    assert(detected(t, e as int, signals[i]) is Some);
    assert(whole(t, bodies(sources(t, b)), signals[i]));
}

} // verus!
