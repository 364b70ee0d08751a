//! What the lint on optimistic locks finds, in terms of the nodes.
use vstd::prelude::*;

use super::optimistic_lock_gate as gate;
use super::signal_lint::laws::{calls_path, component_in, nodes};
use super::signal_lint::state_laws::calls_source_hook;
use super::signal_lint::writers::{source_at, sources};
use crate::order::{gather, lemma_distinct, lemma_gather_contains};
use crate::plain::{lemma_component_with_body, under};
use crate::scan::{inside, lemma_inside, ScannedFile};
use crate::tape::{operand, stop, Kind, Node};

verus! {

/// Node `e` is the name `name` and nothing else.
pub open spec fn names_only(t: Seq<Node>, e: int, name: Seq<char>) -> bool {
    t[e].kind == Kind::Path && t[e].count == 1 && !t[e].flag && !t[e].mark && t[e].name@ == name
}

/// Node `e` reads the signal `signal` by calling it.
pub open spec fn reads_signal(t: Seq<Node>, e: int, signal: Seq<char>) -> bool {
    &&& t[e].kind == Kind::Call && t[e].count == 1
    &&& operand(t, e, 0) matches Some(f) && names_only(t, f, signal)
}

/// In the block at `b`, statement `l` is `let signal = use_signal(|| n)` with a whole
/// number `n`.
pub open spec fn lets_counter(t: Seq<Node>, b: int, l: int, signal: Seq<char>) -> bool {
    &&& under(t, b, l) && t[l].kind == Kind::Local && t[l].parent == b && t[l].flag
    &&& operand(t, l, 0) matches Some(p)
    &&& t[p].kind == Kind::PatIdent && t[p].name@ == signal
    &&& operand(t, l, 1) matches Some(e)
    &&& calls_path(t, e, "use_signal"@)
    &&& operand(t, e, 1) matches Some(c)
    &&& t[c].kind == Kind::Closure
    &&& operand(t, c, (t[c].count + 1) as nat) matches Some(v)
    &&& 0 <= v < t.len() && t[v].kind == Kind::Int
}

/// In the block at `b`, statement `l` is a hook on its own that runs the code at `e`, or
/// a closure at `e` that is bound to a name without `_` in front.
pub open spec fn runs_code(t: Seq<Node>, b: int, l: int, e: int) -> bool {
    &&& under(t, b, l) && t[l].parent == b && t[l].flag && 0 <= e < t.len()
    &&& {
        ||| {
            &&& t[l].kind == Kind::ExprStmt && operand(t, l, 0) == Some(e)
            &&& exists|hook: Seq<char>| #[trigger] calls_source_hook(t, e, hook)
        }
        ||| {
            &&& t[l].kind == Kind::Local && operand(t, l, 1) == Some(e) && t[e].kind
                == Kind::Closure
            &&& operand(t, l, 0) matches Some(p)
            &&& t[p].kind == Kind::PatIdent && t[p].name@.len() > 0 && t[p].name@[0] != '_'
        }
    }
}

/// In the code at `e`, node `s` is `let snap = signal();`.
pub open spec fn takes_snapshot(
    t: Seq<Node>,
    e: int,
    s: int,
    signal: Seq<char>,
    snap: Seq<char>,
) -> bool {
    &&& e <= s < stop(t, e) && t[s].kind == Kind::Local && t[s].flag
    &&& operand(t, s, 0) matches Some(p)
    &&& t[p].kind == Kind::PatIdent && t[p].name@ == snap
    &&& operand(t, s, 1) matches Some(c) && reads_signal(t, c, signal)
}

/// In the code at `e`, node `j` adds a whole number to the signal or takes one off.
pub open spec fn bumps(t: Seq<Node>, e: int, j: int, signal: Seq<char>) -> bool {
    &&& e <= j < stop(t, e) && t[j].kind == Kind::Binary
    &&& t[j].name@ == "+="@ || t[j].name@ == "-="@
    &&& operand(t, j, 0) matches Some(l) && names_only(t, l, signal)
    &&& operand(t, j, 1) matches Some(v)
    &&& 0 <= v < t.len() && t[v].kind == Kind::Int
}

/// In the code at `e`, node `j` compares the signal with the snapshot, inside an `async`
/// block or closure.
pub open spec fn compares(
    t: Seq<Node>,
    e: int,
    j: int,
    signal: Seq<char>,
    snap: Seq<char>,
) -> bool {
    &&& e <= j < stop(t, e) && t[j].kind == Kind::Binary
    &&& t[j].name@ == "=="@ || t[j].name@ == "!="@
    &&& operand(t, j, 0) matches Some(l)
    &&& operand(t, j, 1) matches Some(r)
    &&& {
        ||| reads_signal(t, l, signal) && names_only(t, r, snap)
        ||| names_only(t, l, snap) && reads_signal(t, r, signal)
    }
    &&& exists|m: int|
        e <= m && #[trigger] under(t, m, j) && (t[m].kind == Kind::Async || (t[m].kind
            == Kind::Closure && t[m].flag))
}

proof fn lemma_gate(t: Seq<Node>, e: int, j: int, signal: Seq<char>, snap: Seq<char>)
    requires
        0 <= e,
        compares(t, e, j, signal, snap),
    ensures
        gate::gated(t, e, signal, snap),
{
    let p = gate::async_tail_at(t);
    lemma_inside(t, e, j, j, p);
    let m = choose|m: int|
        e <= m && #[trigger] under(t, m, j) && (t[m].kind == Kind::Async || (t[m].kind
            == Kind::Closure && t[m].flag));
    assert(p(m) && stop(t, m) > j);
    assert(inside(t, e, j, p));
    assert(gate::gate(t, e, j, signal, snap));
}

proof fn lemma_hit(t: Seq<Node>, e: int, s: int, hi: int, signal: Seq<char>)
    requires
        e <= s < hi,
        gate::hit(t, e, s, signal) is Some,
    ensures
        gate::first_hit(t, e, hi, signal) is Some,
    decreases hi - s,
{
    if s < hi - 1 {
        lemma_hit(t, e, s, hi - 1, signal);
    }
}

proof fn lemma_counter(t: Seq<Node>, b: int, c: int, signal: Seq<char>)
    requires
        0 <= b,
        lets_counter(t, b, c, signal),
    ensures
        gate::counters(t, b).contains(signal),
{
    let rule = gate::counter_at(t, b);
    assert(rule(c)[0] == signal);
    assert(rule(c).contains(signal));
    lemma_gather_contains(b, stop(t, b), rule, signal);
    lemma_distinct(gather(b, stop(t, b), rule));
}

/// A component keeps a counter in a signal. One hook or closure of it takes a snapshot
/// of the counter, bumps the counter, and in an `async` tail compares the two: the
/// optimistic lock is found with high confidence.
pub proof fn law_lock_in_one_body_is_found(
    files: Seq<ScannedFile>,
    k: int,
    i: int,
    b: int,
    c: int,
    l: int,
    e: int,
    s: int,
    u: int,
    j: int,
    signal: Seq<char>,
    snap: Seq<char>,
)
    requires
        component_in(files, k, i, b),
        ({
            let t = nodes(files, k);
            &&& lets_counter(t, b, c, signal)
            &&& runs_code(t, b, l, e)
            &&& takes_snapshot(t, e, s, signal, snap)
            &&& bumps(t, e, u, signal)
            &&& compares(t, e, j, signal, snap)
        }),
    ensures
        exists|x: gate::OptimisticLockGateFindingView| #[trigger]
            gate::report(files).findings.contains(x) && x.file == files[k].path@ && x.component
                == nodes(files, k)[i].name@ && x.signal == signal && x.confidence == "high"@
                && x.code == "optimistic_lock_gate"@,
{
    let t = nodes(files, k);
    let path = files[k].path@;
    assert(files[k].ast->Ok_0.len() == t.len());
    lemma_component_with_body(t, i, b);
    lemma_counter(t, b, c, signal);
    lemma_gate(t, e, j, signal, snap);
    assert(gate::bump(t, u, signal));
    assert(gate::bumped(t, e, signal));
    assert(gate::hit(t, e, s, signal) is Some);
    lemma_hit(t, e, s, stop(t, e), signal);
    lemma_source(t, b, l, e);
    let signals = gate::counters(t, b);
    let es = gate::bodies(sources(t, b));
    let y = choose|y: int| 0 <= y < es.len() && es[y] == e as usize;
    let n = choose|n: int| 0 <= n < signals.len() && signals[n] == signal;
    let inner = gate::source_finding(t, i, path, e, signals);
    let x = inner(n)[0];
    assert(inner(n).contains(x));
    lemma_gather_contains(0, signals.len() as int, inner, x);
    let rule = gate::source_findings(t, i, path, es, signals);
    assert(rule(y).contains(x));
    lemma_gather_contains(0, es.len() as int, rule, x);
    let first = gather(0, es.len() as int, rule);
    let all = gate::block_findings(t, i, path, b);
    let z = choose|z: int| 0 <= z < first.len() && first[z] == x;
    assert(all[z] == x);
    lemma_lock_reported(files, k, i, b, x);
}

proof fn lemma_lock_reported(
    files: Seq<ScannedFile>,
    k: int,
    i: int,
    b: int,
    x: gate::OptimisticLockGateFindingView,
)
    requires
        component_in(files, k, i, b),
        gate::block_findings(nodes(files, k), i, files[k].path@, b).contains(x),
    ensures
        gate::report(files).findings.contains(x),
{
    let t = nodes(files, k);
    lemma_component_with_body(t, i, b);
    let comp = gate::component_findings(t, files[k].path@);
    assert(comp(i).contains(x));
    lemma_gather_contains(0, t.len() as int, comp, x);
    let outer = gate::file_findings(files);
    assert(outer(k).contains(x));
    lemma_gather_contains(0, files.len() as int, outer, x);
}

proof fn lemma_source(t: Seq<Node>, b: int, l: int, e: int)
    requires
        0 <= b < t.len() <= usize::MAX,
        runs_code(t, b, l, e),
    ensures
        gate::bodies(sources(t, b)).contains(e as usize),
{
    reveal_strlit("_");
    let rule = source_at(t, b);
    if t[l].kind == Kind::Local {
        let p = operand(t, l, 0)->0;
        let name = t[p].name@;
        assert(!crate::text::begins(name, "_"@)) by {
            if crate::text::begins(name, "_"@) {
                assert(name.subrange(0, 1)[0] == name[0]);
            }
        }
    }
    let w = rule(l)[0];
    assert(rule(l).contains(w));
    lemma_gather_contains(b, stop(t, b), rule, w);
    let ws = sources(t, b);
    let n = choose|n: int| 0 <= n < ws.len() && ws[n] == w;
    assert(gate::bodies(ws)[n] == e as usize);
}

/// The snapshot and the comparison stand in one hook or closure, and the bump elsewhere
/// in the component: the lock is found, with medium confidence where no one body holds
/// all three.
pub proof fn law_lock_across_bodies_is_found(
    files: Seq<ScannedFile>,
    k: int,
    i: int,
    b: int,
    c: int,
    l: int,
    e: int,
    s: int,
    u: int,
    j: int,
    signal: Seq<char>,
    snap: Seq<char>,
)
    requires
        component_in(files, k, i, b),
        ({
            let t = nodes(files, k);
            &&& lets_counter(t, b, c, signal)
            &&& runs_code(t, b, l, e)
            &&& takes_snapshot(t, e, s, signal, snap)
            &&& bumps(t, b, u, signal)
            &&& compares(t, e, j, signal, snap)
            &&& forall|y: int|
                0 <= y < gate::bodies(sources(t, b)).len() ==> !gate::bumped(
                    t,
                    #[trigger] gate::bodies(sources(t, b))[y] as int,
                    signal,
                )
        }),
    ensures
        exists|x: gate::OptimisticLockGateFindingView| #[trigger]
            gate::report(files).findings.contains(x) && x.file == files[k].path@ && x.component
                == nodes(files, k)[i].name@ && x.signal == signal && x.confidence == "medium"@
                && x.code == "optimistic_lock_gate"@,
{
    let t = nodes(files, k);
    let path = files[k].path@;
    assert(files[k].ast->Ok_0.len() == t.len());
    lemma_component_with_body(t, i, b);
    lemma_counter(t, b, c, signal);
    lemma_gate(t, e, j, signal, snap);
    assert(gate::bump(t, u, signal));
    assert(gate::bumped(t, b, signal));
    assert(gate::hit(t, e, s, signal) is Some);
    lemma_hit(t, e, s, stop(t, e), signal);
    lemma_source(t, b, l, e);
    let signals = gate::counters(t, b);
    let es = gate::bodies(sources(t, b));
    let all = es + gate::hooks(t, b);
    let y = choose|y: int| 0 <= y < es.len() && es[y] == e as usize;
    assert(all[y] == e as usize);
    lemma_pair(t, all, y, all.len() as int, signal);
    let n = choose|n: int| 0 <= n < signals.len() && signals[n] == signal;
    let inner = gate::split_finding(t, i, path, b, signals);
    let x = inner(n)[0];
    assert(inner(n).contains(x));
    lemma_gather_contains(0, signals.len() as int, inner, x);
    let second = gather(0, signals.len() as int, inner);
    let whole = gate::block_findings(t, i, path, b);
    let z = choose|z: int| 0 <= z < second.len() && second[z] == x;
    assert(whole[whole.len() - second.len() + z] == x);
    lemma_lock_reported(files, k, i, b, x);
}

proof fn lemma_pair(t: Seq<Node>, es: Seq<usize>, y: int, n: int, signal: Seq<char>)
    requires
        0 <= y < n,
        gate::snapshot_gate(t, es[y] as int, signal) is Some,
    ensures
        gate::first_pair(t, es, n, signal) is Some,
    decreases n,
{
    if y < n - 1 {
        lemma_pair(t, es, y, n - 1, signal);
    }
}

} // verus!
