//! Signals that only serve as a fence: bumped by a constant and compared.
use vstd::prelude::*;

use super::bindings::{binding, binding_of, signal_init, signal_init_of};
use super::interpolation::{rsx_interpolated_names, shown};
use super::report::{issue, issue_of, SignalIssue, SignalIssueView};
use super::writers::{is_write_method, write_method};
use crate::order::{gather, holds, lemma_gather_contains, only_if, put};
use crate::scan::{
    ident, inside, is_bare, operand_ident, operand_ident_of, pat_name, pat_name_of, reach,
};
use crate::tape::{lemma_operand_bounds, operand, operand_of, stop, stop_of, Kind, Node};
use crate::text::{owned, same};

verus! {

/// A signal that starts as an integer.
#[derive(Debug)]
pub struct Candidate {
    pub name: String,
    pub line: usize,
}

pub ghost struct CandidateView {
    pub name: Seq<char>,
    pub line: usize,
}

impl DeepView for Candidate {
    type V = CandidateView;

    open spec fn deep_view(&self) -> CandidateView {
        CandidateView {
            name: self.name@,
            line: self.line,
        }
    }
}

/// A signal, and a name that holds or meets its value.
#[derive(Debug)]
pub struct Pair {
    pub signal: String,
    pub name: String,
}

pub ghost struct PairView {
    pub signal: Seq<char>,
    pub name: Seq<char>,
}

impl DeepView for Pair {
    type V = PairView;

    open spec fn deep_view(&self) -> PairView {
        PairView {
            signal: self.signal@,
            name: self.name@,
        }
    }
}

/// An integer literal, possibly behind minus signs and in parentheses.
pub open spec fn int_literal(t: Seq<Node>, i: int) -> bool
    decreases t.len() - i,
{
    if !(0 <= i < t.len()) {
        false
    } else if t[i].kind == Kind::Int {
        true
    } else if t[i].kind == Kind::Paren || (t[i].kind == Kind::Unary && t[i].name@ == "-"@) {
        proof {
            lemma_operand_bounds(t, i, 0);
        }
        match operand(t, i, 0) {
            Some(p) => int_literal(t, p),
            None => false,
        }
    } else {
        false
    }
}

pub fn is_int_literal(t: &Vec<Node>, i: usize) -> (r: bool)
    requires
        i < t.len(),
    ensures
        r == int_literal(t@, i as int),
{
    let mut at: usize = i;
    while t[at].kind == Kind::Paren || (t[at].kind == Kind::Unary && same(t[at].name.as_str(), "-"))
        invariant
            at < t.len(),
            int_literal(t@, i as int) == int_literal(t@, at as int),
        decreases t.len() - at,
    {
        match operand_of(t, at, 0) {
            Some(p) => at = p,
            None => return false,
        }
    }
    t[at].kind == Kind::Int
}

pub open spec fn candidate_at(t: Seq<Node>, b: int, signals: Seq<Seq<char>>) -> spec_fn(int) -> Seq<
    CandidateView,
> {
    |j: int|
        match binding(t, b, j) {
            Some((p, e)) => match (pat_name(t, p), signal_init(t, e)) {
                (Some(name), Some(v)) => only_if(
                    signals.contains(name) && int_literal(t, v),
                    CandidateView { name, line: t[j].line },
                ),
                _ => Seq::empty(),
            },
            None => Seq::empty(),
        }
}

/// The signals that the statements of the block at `b` start as an integer.
pub open spec fn candidates(t: Seq<Node>, b: int, signals: Seq<Seq<char>>) -> Seq<CandidateView> {
    gather(b, stop(t, b), candidate_at(t, b, signals))
}

fn candidates_of(t: &Vec<Node>, b: usize, signals: &Vec<String>) -> (r: Vec<Candidate>)
    requires
        b < t.len(),
    ensures
        r.deep_view() == candidates(t@, b as int, signals.deep_view()),
{
    let end = stop_of(t, b);
    let mut out: Vec<Candidate> = Vec::new();
    let mut j: usize = b;
    while j < end
        invariant
            b <= j <= end <= t.len(),
            out.deep_view() == gather(
                b as int,
                j as int,
                candidate_at(t@, b as int, signals.deep_view()),
            ),
        decreases end - j,
    {
        match binding_of(t, b, j) {
            Some((p, e)) => match (pat_name_of(t, p), signal_init_of(t, e)) {
                (Some(name), Some(v)) => {
                    if holds(signals, name.as_str()) && is_int_literal(t, v) {
                        put(&mut out, Candidate { name, line: t[j].line });
                    }
                },
                _ => {},
            },
            None => {},
        }
        j += 1;
    }
    out
}

// ---------------------------------------------------------------------------
// Snapshots
// ---------------------------------------------------------------------------

/// The name of the signal that the expression at `e` reads as `signal()`.
pub open spec fn signal_call(t: Seq<Node>, e: int) -> Option<Seq<char>> {
    if t[e].kind == Kind::Call && t[e].count == 1 {
        operand_ident(t, e, 0)
    } else {
        None
    }
}

pub fn signal_call_name(t: &Vec<Node>, e: usize) -> (r: Option<String>)
    requires
        e < t.len(),
    ensures
        r.deep_view() == signal_call(t@, e as int),
{
    if t[e].kind == Kind::Call && t[e].count == 1 {
        operand_ident_of(t, e, 0)
    } else {
        None
    }
}

/// The `let` at `j`, wherever it stands: `let name = signal()`.
pub open spec fn snapshot(t: Seq<Node>, j: int) -> Option<PairView> {
    if t[j].kind == Kind::Local && t[j].flag {
        match (operand(t, j, 0), operand(t, j, 1)) {
            (Some(p), Some(e)) => match (signal_call(t, e), pat_name(t, p)) {
                (Some(signal), Some(name)) => Some(PairView { signal, name }),
                _ => None,
            },
            _ => None,
        }
    } else {
        None
    }
}

pub fn snapshot_of(t: &Vec<Node>, j: usize) -> (r: Option<Pair>)
    requires
        j < t.len(),
    ensures
        r.deep_view() == snapshot(t@, j as int),
{
    if t[j].kind != Kind::Local || !t[j].flag {
        return None;
    }
    match (operand_of(t, j, 0), operand_of(t, j, 1)) {
        (Some(p), Some(e)) => match (signal_call_name(t, e), pat_name_of(t, p)) {
            (Some(signal), Some(name)) => Some(Pair { signal, name }),
            _ => None,
        },
        _ => None,
    }
}

/// Node `j` is `==` or `!=`.
pub open spec fn comparison(t: Seq<Node>, j: int) -> bool {
    t[j].kind == Kind::Binary && (t[j].name@ == "=="@ || t[j].name@ == "!="@)
}

pub open spec fn comparison_at(t: Seq<Node>) -> spec_fn(int) -> bool {
    |m: int| comparison(t, m)
}

pub fn is_comparison(t: &Vec<Node>, j: usize) -> (r: bool)
    requires
        j < t.len(),
    ensures
        r == comparison(t@, j as int),
{
    t[j].kind == Kind::Binary && (same(t[j].name.as_str(), "==") || same(t[j].name.as_str(), "!="))
}

/// One side of a comparison reads `signal()`, the other one is a name.
pub open spec fn meets(t: Seq<Node>, call: int, other: int, targets: Seq<Seq<char>>) -> Option<
    PairView,
> {
    match (signal_call(t, call), ident(t, other)) {
        (Some(signal), Some(name)) => if targets.contains(signal) {
            Some(PairView { signal, name })
        } else {
            None
        },
        _ => None,
    }
}

/// The comparison of a signal with a name that node `j` makes.
pub open spec fn compared(t: Seq<Node>, j: int, targets: Seq<Seq<char>>) -> Option<PairView> {
    if comparison(t, j) {
        match (operand(t, j, 0), operand(t, j, 1)) {
            (Some(l), Some(r)) => match meets(t, l, r, targets) {
                Some(p) => Some(p),
                None => meets(t, r, l, targets),
            },
            _ => None,
        }
    } else {
        None
    }
}

fn meets_of(t: &Vec<Node>, call: usize, other: usize, targets: &Vec<String>) -> (r: Option<Pair>)
    requires
        call < t.len(),
        other < t.len(),
    ensures
        r.deep_view() == meets(t@, call as int, other as int, targets.deep_view()),
{
    match signal_call_name(t, call) {
        Some(signal) => if is_bare(t, other) && holds(targets, signal.as_str()) {
            Some(Pair { signal, name: owned(t[other].name.as_str()) })
        } else {
            None
        },
        None => None,
    }
}

fn compared_of(t: &Vec<Node>, j: usize, targets: &Vec<String>) -> (r: Option<Pair>)
    requires
        j < t.len(),
    ensures
        r.deep_view() == compared(t@, j as int, targets.deep_view()),
{
    if !is_comparison(t, j) {
        return None;
    }
    match (operand_of(t, j, 0), operand_of(t, j, 1)) {
        (Some(l), Some(r)) => match meets_of(t, l, r, targets) {
            Some(p) => Some(p),
            None => meets_of(t, r, l, targets),
        },
        _ => None,
    }
}

/// Somewhere between `lo` and `hi` a signal is compared with a name, as in `p`.
pub open spec fn is_compared(
    t: Seq<Node>,
    lo: int,
    hi: int,
    targets: Seq<Seq<char>>,
    p: PairView,
) -> bool {
    exists|j: int| lo <= j < hi && #[trigger] compared(t, j, targets) == Some(p)
}

/// Node `j` takes a snapshot of a signal that is compared with the signal.
pub open spec fn paired(t: Seq<Node>, lo: int, hi: int, targets: Seq<Seq<char>>, j: int) -> bool {
    snapshot(t, j) matches Some(p) && targets.contains(p.signal) && is_compared(
        t,
        lo,
        hi,
        targets,
        p,
    )
}

fn is_paired(t: &Vec<Node>, lo: usize, hi: usize, targets: &Vec<String>, j: usize) -> (r: bool)
    requires
        lo <= hi <= t.len(),
        j < t.len(),
    ensures
        r == paired(t@, lo as int, hi as int, targets.deep_view(), j as int),
{
    let p = match snapshot_of(t, j) {
        Some(p) => p,
        None => return false,
    };
    if !holds(targets, p.signal.as_str()) {
        return false;
    }
    let mut k: usize = lo;
    while k < hi
        invariant
            lo <= k <= hi <= t.len(),
            snapshot(t@, j as int) == Some(p.deep_view()),
            targets.deep_view().contains(p.signal@),
            forall|m: int|
                lo <= m < k ==> #[trigger] compared(t@, m, targets.deep_view()) != Some(
                    p.deep_view(),
                ),
        decreases hi - k,
    {
        match compared_of(t, k, targets) {
            Some(q) => {
                if same(q.signal.as_str(), p.signal.as_str()) && same(
                    q.name.as_str(),
                    p.name.as_str(),
                ) {
                    assert(compared(t@, k as int, targets.deep_view()) == Some(p.deep_view()));
                    return true;
                }
            },
            None => {},
        }
        k += 1;
    }
    false
}

/// The snapshot at `m` reads the signal at `j`: `j` stands in its value.
pub open spec fn snapshot_reads(t: Seq<Node>, m: int, j: int) -> bool {
    operand(t, m, 1) matches Some(e) && e <= j < stop(t, m)
}

/// Node `j` stands in the value of a paired snapshot.
pub open spec fn in_snapshot(
    t: Seq<Node>,
    lo: int,
    hi: int,
    targets: Seq<Seq<char>>,
    j: int,
) -> bool {
    exists|m: int|
        lo <= m < j && #[trigger] paired(t, lo, hi, targets, m) && snapshot_reads(t, m, j)
}

fn is_in_snapshot(t: &Vec<Node>, lo: usize, hi: usize, targets: &Vec<String>, j: usize) -> (r: bool)
    requires
        lo <= hi <= t.len(),
        lo <= j < t.len(),
    ensures
        r == in_snapshot(t@, lo as int, hi as int, targets.deep_view(), j as int),
{
    let mut m: usize = lo;
    while m < j
        invariant
            lo <= hi <= t.len(),
            lo <= m <= j < t.len(),
            forall|k: int|
                lo <= k < m && #[trigger] paired(t@, lo as int, hi as int, targets.deep_view(), k)
                    ==> !snapshot_reads(t@, k, j as int),
        decreases j - m,
    {
        if t[m].kind == Kind::Local {
            let reads = match operand_of(t, m, 1) {
                Some(e) => e <= j && j < stop_of(t, m),
                None => false,
            };
            if reads && is_paired(t, lo, hi, targets, m) {
                assert(paired(t@, lo as int, hi as int, targets.deep_view(), m as int));
                return true;
            }
        }
        m += 1;
    }
    false
}

// ---------------------------------------------------------------------------
// Uses
// ---------------------------------------------------------------------------

/// Node `m` adds to or subtracts from its left side.
pub open spec fn bump(t: Seq<Node>, m: int) -> bool {
    t[m].kind == Kind::Binary && (t[m].name@ == "+="@ || t[m].name@ == "-="@)
}

fn is_bump(t: &Vec<Node>, m: usize) -> (r: bool)
    requires
        m < t.len(),
    ensures
        r == bump(t@, m as int),
{
    t[m].kind == Kind::Binary && (same(t[m].name.as_str(), "+=") || same(t[m].name.as_str(), "-="))
}

/// Node `m` bumps something, and node `j` stands on its left side.
pub open spec fn on_left(t: Seq<Node>, m: int, j: int) -> bool {
    bump(t, m) && m < j < (match operand(t, m, 1) {
        Some(r) => r,
        None => stop(t, m),
    })
}

/// Node `j` is the target of a bump, or part of one: it is not a use.
pub open spec fn target(t: Seq<Node>, lo: int, j: int) -> bool {
    exists|m: int| lo <= m < j && #[trigger] on_left(t, m, j)
}

fn is_target(t: &Vec<Node>, lo: usize, j: usize) -> (r: bool)
    requires
        lo <= j < t.len(),
    ensures
        r == target(t@, lo as int, j as int),
{
    let mut m: usize = lo;
    while m < j
        invariant
            lo <= m <= j < t.len(),
            forall|k: int| lo <= k < m ==> !#[trigger] on_left(t@, k, j as int),
        decreases j - m,
    {
        if is_bump(t, m) {
            let right = match operand_of(t, m, 1) {
                Some(r) => r,
                None => stop_of(t, m),
            };
            if j < right {
                assert(on_left(t@, m as int, j as int));
                return true;
            }
        }
        m += 1;
    }
    false
}

/// Node `j` bumps `name` by an integer literal.
pub open spec fn bumps(t: Seq<Node>, lo: int, j: int, name: Seq<char>) -> bool {
    &&& bump(t, j)
    &&& !target(t, lo, j)
    &&& operand_ident(t, j, 0) == Some(name)
    &&& operand(t, j, 1) matches Some(r) && int_literal(t, r)
}

/// Node `m` is a call of `set` with an integer literal.
pub open spec fn reset(t: Seq<Node>, m: int) -> bool {
    &&& t[m].kind == Kind::MethodCall
    &&& t[m].name@ == "set"@
    &&& t[m].count == 2
    &&& operand(t, m, 1) matches Some(v) && int_literal(t, v)
}

fn is_reset(t: &Vec<Node>, m: usize) -> (r: bool)
    requires
        m < t.len(),
    ensures
        r == reset(t@, m as int),
{
    t[m].kind == Kind::MethodCall && same(t[m].name.as_str(), "set") && t[m].count == 2
        && match operand_of(t, m, 1) {
        Some(v) => is_int_literal(t, v),
        None => false,
    }
}

/// Node `j` is what a reset resets: it is not read.
pub open spec fn reset_here(t: Seq<Node>, j: int) -> bool {
    &&& t[j].parent < t.len()
    &&& reset(t, t[j].parent as int)
    &&& operand(t, t[j].parent as int, 0) == Some(j)
}

fn is_reset_here(t: &Vec<Node>, j: usize) -> (r: bool)
    requires
        j < t.len(),
    ensures
        r == reset_here(t@, j as int),
{
    let m = t[j].parent;
    m < t.len() && is_reset(t, m) && match operand_of(t, m, 0) {
        Some(k) => k == j,
        None => false,
    }
}

/// Node `j` uses `name` in a way that a fence is not used: it bumps it by
/// something else, assigns it, writes it by a method other than `set` with an
/// integer literal, or reads it outside comparisons and paired snapshots.
pub open spec fn misuses(
    t: Seq<Node>,
    lo: int,
    hi: int,
    targets: Seq<Seq<char>>,
    j: int,
    name: Seq<char>,
) -> bool {
    &&& !target(t, lo, j)
    &&& {
        ||| bump(t, j) && operand_ident(t, j, 0) == Some(name) && !(operand(t, j, 1) matches Some(r)
            && int_literal(t, r))
        ||| t[j].kind == Kind::Assign && operand_ident(t, j, 0) == Some(name)
        ||| t[j].kind == Kind::MethodCall && write_method(t[j].name@) && operand_ident(t, j, 0)
            == Some(name) && !reset(t, j)
        ||| ident(t, j) == Some(name) && !reset_here(t, j) && !inside(
            t,
            lo,
            j,
            comparison_at(t),
        ) && !in_snapshot(
            t,
            lo,
            hi,
            targets,
            j,
        )
    }
}

pub open spec fn bump_at(t: Seq<Node>, lo: int, name: Seq<char>) -> spec_fn(int) -> Seq<usize> {
    |j: int| only_if(bumps(t, lo, j, name), j as usize)
}

/// `name` is bumped twice or more between `lo` and `hi`, and not misused.
pub open spec fn fence(
    t: Seq<Node>,
    lo: int,
    hi: int,
    targets: Seq<Seq<char>>,
    name: Seq<char>,
) -> bool {
    &&& gather(lo, hi, bump_at(t, lo, name)).len() >= 2
    &&& forall|j: int| lo <= j < hi ==> !#[trigger] misuses(t, lo, hi, targets, j, name)
}

/// A body, and the names of its candidates.
pub struct FenceVisitor<'a> {
    pub t: &'a Vec<Node>,
    pub lo: usize,
    pub hi: usize,
    pub target_names: &'a Vec<String>,
}

impl<'a> FenceVisitor<'a> {
    pub open spec fn wf(&self) -> bool {
        self.lo <= self.hi <= self.t.len()
    }

    fn operand_is(&self, j: usize, name: &str) -> (r: bool)
        requires
            j < self.t.len(),
        ensures
            r == (operand_ident(self.t@, j as int, 0) == Some(name@)),
    {
        match operand_ident_of(self.t, j, 0) {
            Some(n) => same(n.as_str(), name),
            None => false,
        }
    }

    fn literal_argument(&self, j: usize) -> (r: bool)
        requires
            j < self.t.len(),
        ensures
            r == (operand(self.t@, j as int, 1) matches Some(v) && int_literal(self.t@, v)),
    {
        match operand_of(self.t, j, 1) {
            Some(v) => is_int_literal(self.t, v),
            None => false,
        }
    }

    /// What node `j` does with `name`: whether it bumps it, and whether it
    /// misuses it. `compared` tells whether `j` stands inside a comparison.
    pub fn entry(&self, j: usize, name: &str, compared: bool) -> (r: (bool, bool))
        requires
            self.wf(),
            self.lo <= j < self.t.len(),
            compared == inside(self.t@, self.lo as int, j as int, comparison_at(self.t@)),
        ensures
            r.0 == bumps(self.t@, self.lo as int, j as int, name@),
            r.1 == misuses(
                self.t@,
                self.lo as int,
                self.hi as int,
                self.target_names.deep_view(),
                j as int,
                name@,
            ),
    {
        let t = self.t;
        if is_target(t, self.lo, j) {
            return (false, false);
        }
        match t[j].kind {
            Kind::Binary => {
                let mine = is_bump(t, j) && self.operand_is(j, name);
                let literal = self.literal_argument(j);
                (mine && literal, mine && !literal)
            },
            Kind::Assign => (false, self.operand_is(j, name)),
            Kind::MethodCall => {
                let mine = is_write_method(t[j].name.as_str()) && self.operand_is(j, name);
                (false, mine && !is_reset(t, j))
            },
            Kind::Path => {
                let mine = is_bare(t, j) && same(t[j].name.as_str(), name);
                (
                    false,
                    mine && !is_reset_here(t, j) && !compared && !is_in_snapshot(
                        t,
                        self.lo,
                        self.hi,
                        self.target_names,
                        j,
                    ),
                )
            },
            _ => (false, false),
        }
    }

    /// Whether `name` is used as a fence in the body.
    pub fn is_fence(&self, name: &str) -> (r: bool)
        requires
            self.wf(),
        ensures
            r == fence(
                self.t@,
                self.lo as int,
                self.hi as int,
                self.target_names.deep_view(),
                name@,
            ),
    {
        let t = self.t;
        let (lo, hi) = (self.lo, self.hi);
        let ghost targets = self.target_names.deep_view();
        let mut found: Vec<usize> = Vec::new();
        let mut until: usize = lo;
        let mut j: usize = lo;
        while j < hi
            invariant
                self.wf(),
                t == self.t,
                lo == self.lo,
                hi == self.hi,
                targets == self.target_names.deep_view(),
                lo <= j <= hi,
                until == reach(t@, lo as int, j as int, comparison_at(t@)),
                found@ == gather(lo as int, j as int, bump_at(t@, lo as int, name@)),
                forall|k: int|
                    lo <= k < j ==> !#[trigger] misuses(
                        t@,
                        lo as int,
                        hi as int,
                        targets,
                        k,
                        name@,
                    ),
            decreases hi - j,
        {
            let (bumped, misused) = self.entry(j, name, j < until);
            if misused {
                assert(misuses(t@, lo as int, hi as int, targets, j as int, name@));
                return false;
            }
            if bumped {
                found.push(j);
            }
            if is_comparison(t, j) {
                let end = stop_of(t, j);
                if end > until {
                    until = end;
                }
            }
            j += 1;
        }
        found.len() >= 2
    }
}

// ---------------------------------------------------------------------------
// Issues
// ---------------------------------------------------------------------------

pub open spec fn fence_message(name: Seq<char>) -> Seq<char> {
    "`"@
        + name
        + "` is a `Signal<integer>` used as a fence — every read is an equality comparison and every write bumps it by a constant. The reactive subscription is pure overhead. Replace with a `Cell<u32>` (server-side state) or expose a generation method on a Store. See the `Store` primitive in `get_dsl_spec`."@
}

fn fence_message_of(name: &str) -> (r: String)
    ensures
        r@ == fence_message(name@),
{
    let mut s = owned("`");
    s.append(name);
    s.append("` is a `Signal<integer>` used as a fence — every read is an equality comparison and every write bumps it by a constant. The reactive subscription is pure overhead. Replace with a `Cell<u32>` (server-side state) or expose a generation method on a Store. See the `Store` primitive in `get_dsl_spec`.");
    s
}

/// Code that replaces the signal `name` by a cell.
pub open spec fn fence_skeleton(name: Seq<char>) -> Seq<char> {
    "// Replace the reactive signal with a Cell or a Store generation field:\nuse std::cell::Cell;\nlet "@
        + name
        + ": Cell<u32> = Cell::new(0);\n// bump:    "@
        + name
        + ".set("@
        + name
        + ".get() + 1);\n// compare: if "@
        + name
        + ".get() == previous { … }\n// For a shared/Store version: expose `bump_"@
        + name
        + "()` and `current_"@
        + name
        + "()`\n// methods on the Store and read the generation when needed."@
}

pub fn fence_store_skeleton(name: &str) -> (r: String)
    ensures
        r@ == fence_skeleton(name@),
{
    let mut s = owned("// Replace the reactive signal with a Cell or a Store generation field:\nuse std::cell::Cell;\nlet ");
    s.append(name);
    s.append(": Cell<u32> = Cell::new(0);\n// bump:    ");
    s.append(name);
    s.append(".set(");
    s.append(name);
    s.append(".get() + 1);\n// compare: if ");
    s.append(name);
    s.append(".get() == previous { … }\n// For a shared/Store version: expose `bump_");
    s.append(name);
    s.append("()` and `current_");
    s.append(name);
    s.append("()`\n// methods on the Store and read the generation when needed.");
    s
}

pub open spec fn candidate_names(cs: Seq<CandidateView>) -> Seq<Seq<char>> {
    Seq::new(cs.len(), |k: int| cs[k].name)
}

pub open spec fn fence_at(
    t: Seq<Node>,
    lo: int,
    hi: int,
    cs: Seq<CandidateView>,
    file: Seq<char>,
    component: Seq<char>,
) -> spec_fn(int) -> Seq<SignalIssueView> {
    |k: int|
        only_if(
            fence(t, lo, hi, candidate_names(cs), cs[k].name) && !shown(t, lo, hi).contains(
                cs[k].name,
            ),
            issue(
                "signal_used_as_fence"@,
                fence_message(cs[k].name),
                file,
                cs[k].line,
                component,
                Some(cs[k].name),
                Some(fence_skeleton(cs[k].name)),
            ),
        )
}

/// The issues on the candidates that are used as fences and that no `rsx!` shows.
pub open spec fn fence_issues(
    t: Seq<Node>,
    lo: int,
    hi: int,
    cs: Seq<CandidateView>,
    file: Seq<char>,
    component: Seq<char>,
) -> Seq<SignalIssueView> {
    gather(0, cs.len() as int, fence_at(t, lo, hi, cs, file, component))
}

fn candidate_names_of(cs: &Vec<Candidate>) -> (r: Vec<String>)
    ensures
        r.deep_view() == candidate_names(cs.deep_view()),
{
    let mut out: Vec<String> = Vec::new();
    let mut k: usize = 0;
    while k < cs.len()
        invariant
            k <= cs.len(),
            out.deep_view() =~= candidate_names(cs.deep_view()).take(k as int),
        decreases cs.len() - k,
    {
        put(&mut out, owned(cs[k].name.as_str()));
        k += 1;
    }
    assert(out.deep_view() =~= candidate_names(cs.deep_view()));
    out
}

/// The issues on the signals of the block at `b` that are used as fences. The
/// block takes the positions from `b` up to `hi`.
pub fn check_signal_used_as_fence(
    t: &Vec<Node>,
    b: usize,
    hi: usize,
    signals: &Vec<String>,
    file: &str,
    component: &str,
) -> (r: Vec<SignalIssue>)
    requires
        b < t.len(),
        b <= hi <= t.len(),
    ensures
        r.deep_view() == fence_issues(
            t@,
            b as int,
            hi as int,
            candidates(t@, b as int, signals.deep_view()),
            file@,
            component@,
        ),
{
    let cs = candidates_of(t, b, signals);
    let ghost v = cs.deep_view();
    let names = candidate_names_of(&cs);
    let shown_names = rsx_interpolated_names(t, b, hi);
    let visitor = FenceVisitor { t, lo: b, hi, target_names: &names };
    let mut out: Vec<SignalIssue> = Vec::new();
    let mut k: usize = 0;
    while k < cs.len()
        invariant
            b <= hi <= t.len(),
            k <= cs.len(),
            v == cs.deep_view(),
            visitor.t == t,
            visitor.lo == b,
            visitor.hi == hi,
            visitor.target_names.deep_view() == candidate_names(v),
            shown_names.deep_view() == shown(t@, b as int, hi as int),
            out.deep_view() == gather(
                0,
                k as int,
                fence_at(t@, b as int, hi as int, v, file@, component@),
            ),
        decreases cs.len() - k,
    {
        assert(v[k as int] == cs@[k as int].deep_view());
        let name = cs[k].name.as_str();
        if visitor.is_fence(name) && !holds(&shown_names, name) {
            put(
                &mut out,
                issue_of(
                    "signal_used_as_fence",
                    fence_message_of(name),
                    file,
                    cs[k].line,
                    component,
                    Some(owned(name)),
                    Some(fence_store_skeleton(name)),
                ),
            );
        }
        k += 1;
    }
    out
}

/// What is reported as a fence is one, and is never shown.
pub proof fn law_fence_is_hidden(
    t: Seq<Node>,
    lo: int,
    hi: int,
    cs: Seq<CandidateView>,
    file: Seq<char>,
    component: Seq<char>,
    x: SignalIssueView,
)
    requires
        fence_issues(t, lo, hi, cs, file, component).contains(x),
    ensures
        x.signal matches Some(name) && fence(t, lo, hi, candidate_names(cs), name) && !shown(
            t,
            lo,
            hi,
        ).contains(name),
{
    let rule = fence_at(t, lo, hi, cs, file, component);
    lemma_gather_contains(0, cs.len() as int, rule, x);
    let k = choose|k: int| 0 <= k < cs.len() && (#[trigger] rule(k)).contains(x);
    assert(rule(k).contains(x));
}

} // verus!
