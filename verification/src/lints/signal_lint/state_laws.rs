//! What the signal lints find on tasks, writers and context modules, in terms of the
//! nodes.
use vstd::prelude::*;

use super::bindings::{is_use_signal, signals};
use super::effects::{
    bool_gate_at, bool_gates, effect_at, ending, ending_at, first_await, first_opened, follows,
    handed, hook_call, in_task, opened, rsx_gate_at, rsx_gates, set_at, sets, spawn_at,
    spawn_issues, spawned, spawned_at, task_issue,
};
use super::laws::{
    calls_on, calls_path, component_in, lemma_kinds_of_issues, lemma_lets,
    lemma_reported, lets, names, nodes, reports_code, reports_signal,
};
use super::lint::report;
use super::report::{ContextSignalModuleView, SignalIssueView};
use super::triads::{
    file_pairs, last_use, pair, pair_at, pairs, provided, used, ContextPair,
    ContextPairView,
};
use super::writers::{
    has_writer, many_writers, source, source_at, sources, writers, writers_at, writers_issue,
    writes, written, WriteSourceView,
};
use crate::order::{
    gather, lemma_distinct, lemma_gather_contains, lemma_sorted_contains, rank,
};
use crate::plain::{lemma_component_with_body, under};
use crate::scan::{inside, lemma_inside, rsx_at, ScannedFile};
use crate::tape::{operand, stop, Kind, Node};
use crate::text::decimal;

verus! {

// ---------------------------------------------------------------------------
// Signals with many writers
// ---------------------------------------------------------------------------

/// Node `w` changes the signal `name`.
pub open spec fn changes(t: Seq<Node>, w: int, name: Seq<char>) -> bool {
    ||| calls_on(t, w, "set"@, name) || calls_on(t, w, "set_silent"@, name)
    ||| calls_on(t, w, "write"@, name) || calls_on(t, w, "with_mut"@, name)
    ||| calls_on(t, w, "replace"@, name) || calls_on(t, w, "swap"@, name)
    ||| calls_on(t, w, "take"@, name)
    ||| {
        &&& t[w].kind == Kind::Assign
        &&& operand(t, w, 0) matches Some(l)
        &&& names(t, l, name) || (t[l].kind == Kind::Unary && t[l].name@ == "*"@ && (operand(t, l, 0)
            matches Some(d) && names(t, d, name)))
    }
    ||| {
        let op = t[w].name@;
        &&& t[w].kind == Kind::Binary
        &&& op == "+="@ || op == "-="@ || op == "*="@ || op == "/="@ || op == "%="@ || op == "^="@
            || op == "&="@ || op == "|="@ || op == "<<="@ || op == ">>="@
        &&& operand(t, w, 0) matches Some(l)
        &&& names(t, l, name)
    }
}

/// Node `e` calls a hook that takes a closure of its own.
pub open spec fn calls_source_hook(t: Seq<Node>, e: int, hook: Seq<char>) -> bool {
    calls_path(t, e, hook) && (hook == "use_future"@ || hook == "use_effect"@ || hook
        == "use_resource"@ || hook == "use_callback"@)
}

/// Statement `l` of the body `b` holds, at `e`, code that runs on its own, and is known
/// as `source`: a closure or a hook that is bound to a name, or a hook alone.
pub open spec fn holds_code(t: Seq<Node>, b: int, l: int, e: int, source: Seq<char>) -> bool {
    &&& under(t, b, l) && t[l].parent == b && t[l].flag
    &&& {
        ||| {
            &&& t[l].kind == Kind::Local && operand(t, l, 1) == Some(e)
            &&& operand(t, l, 0) matches Some(p)
            &&& t[p].kind == Kind::PatIdent && t[p].name@.len() > 0 && t[p].name@[0] != '_'
            &&& {
                ||| t[e].kind == Kind::Closure && source == t[p].name@
                ||| source == "<"@ + t[p].name@ + ">"@ && (calls_source_hook(t, e, "use_future"@)
                    || calls_source_hook(t, e, "use_effect"@) || calls_source_hook(
                    t,
                    e,
                    "use_resource"@,
                ) || calls_source_hook(t, e, "use_callback"@))
            }
        }
        ||| {
            &&& t[l].kind == Kind::ExprStmt && operand(t, l, 0) == Some(e)
            &&& exists|hook: Seq<char>| #[trigger]
                calls_source_hook(t, e, hook) && source == "<"@ + hook + "@"@ + decimal(
                    t[l].line as nat,
                ) + ">"@
        }
    }
}

/// Statement `l` holds code, known as `source`, that changes the signal `name`.
pub open spec fn writes_from(
    t: Seq<Node>,
    b: int,
    l: int,
    e: int,
    source: Seq<char>,
    name: Seq<char>,
) -> bool {
    holds_code(t, b, l, e, source) && e < t[e].end <= t.len() && exists|w: int|
        e <= w < t[e].end && #[trigger] changes(t, w, name)
}

proof fn lemma_changes(t: Seq<Node>, w: int, name: Seq<char>)
    requires
        changes(t, w, name),
    ensures
        written(t, w) == Some(name),
{
    let l = operand(t, w, 0)->0;
    if t[l].kind == Kind::Unary {
        assert(crate::scan::operand_ident(t, l, 0) == Some(name));
    } else {
        assert(crate::scan::operand_ident(t, w, 0) == Some(name));
    }
}

proof fn lemma_writes_from(
    t: Seq<Node>,
    b: int,
    l: int,
    e: int,
    s: Seq<char>,
    name: Seq<char>,
)
    requires
        writes_from(t, b, l, e, s, name),
        0 <= e < t.len() <= usize::MAX,
        0 <= b < t[b].end <= t.len(),
    ensures
        has_writer(writers(t, sources(t, b), name, sources(t, b).len() as int), s),
{
    let w = choose|w: int| e <= w < t[e].end && #[trigger] changes(t, w, name);
    lemma_changes(t, w, name);
    assert(writes(t, e, name)) by {
        assert(written(t, w) == Some(name));
    }
    let x = WriteSourceView { name: s, body: e as usize, line: t[l].line };
    if t[l].kind == Kind::Local {
        let p = operand(t, l, 0)->0;
        reveal_strlit("_");
        assert(!crate::text::begins(t[p].name@, "_"@)) by {
            if crate::text::begins(t[p].name@, "_"@) {
                assert(t[p].name@.subrange(0, 1)[0] == '_');
            }
        }
    }
    assert(source(t, b, l) == Some(x));
    assert(source_at(t, b)(l)[0] == x);
    assert(source_at(t, b)(l).contains(x));
    lemma_gather_contains(b, stop(t, b), source_at(t, b), x);
    let ss = sources(t, b);
    let q = choose|q: int| 0 <= q < ss.len() && ss[q] == x;
    lemma_is_writer(t, ss, name, q, ss.len() as int);
}

proof fn lemma_is_writer(
    t: Seq<Node>,
    ss: Seq<WriteSourceView>,
    signal: Seq<char>,
    q: int,
    n: int,
)
    requires
        0 <= q < n <= ss.len(),
        writes(t, ss[q].body as int, signal),
    ensures
        has_writer(writers(t, ss, signal, n), ss[q].name),
    decreases n,
{
    let before = writers(t, ss, signal, n - 1);
    let all = writers(t, ss, signal, n);
    if q < n - 1 {
        lemma_is_writer(t, ss, signal, q, n - 1);
        let y = choose|y: int| 0 <= y < before.len() && (#[trigger] before[y]).name == ss[q].name;
        assert(all[y].name == ss[q].name);
    } else if has_writer(before, ss[q].name) {
        let y = choose|y: int| 0 <= y < before.len() && (#[trigger] before[y]).name == ss[q].name;
        assert(all[y].name == ss[q].name);
    } else {
        assert(all[before.len() as int].name == ss[q].name);
    }
}

/// A signal that three pieces of code change, each known by another name, is
/// reported.
pub proof fn law_many_writers_are_found(
    files: Seq<ScannedFile>,
    k: int,
    i: int,
    b: int,
    name: Seq<char>,
    l: int,
    ls: (int, int, int),
    es: (int, int, int),
    ss: (Seq<char>, Seq<char>, Seq<char>),
)
    requires
        component_in(files, k, i, b),
        ({
            let t = nodes(files, k);
            &&& lets(t, b, l, name, "use_signal"@)
            &&& ss.0 != ss.1 && ss.0 != ss.2 && ss.1 != ss.2
            &&& 0 <= es.0 < t.len() && writes_from(t, b, ls.0, es.0, ss.0, name)
            &&& 0 <= es.1 < t.len() && writes_from(t, b, ls.1, es.1, ss.1, name)
            &&& 0 <= es.2 < t.len() && writes_from(t, b, ls.2, es.2, ss.2, name)
        }),
    ensures
        reports_signal(
            files,
            "signal_many_writers"@,
            files[k].path@,
            nodes(files, k)[i].name@,
            name,
        ),
{
    let t = nodes(files, k);
    let path = files[k].path@;
    assert(files[k].ast->Ok_0.len() == t.len());
    lemma_component_with_body(t, i, b);
    lemma_lets(t, b, l, name, "use_signal"@, is_use_signal());
    let all = writers(t, sources(t, b), name, sources(t, b).len() as int);
    lemma_writes_from(t, b, ls.0, es.0, ss.0, name);
    lemma_writes_from(t, b, ls.1, es.1, ss.1, name);
    lemma_writes_from(t, b, ls.2, es.2, ss.2, name);
    let x = choose|x: int| 0 <= x < all.len() && (#[trigger] all[x]).name == ss.0;
    let y = choose|y: int| 0 <= y < all.len() && (#[trigger] all[y]).name == ss.1;
    let z = choose|z: int| 0 <= z < all.len() && (#[trigger] all[z]).name == ss.2;
    assert(x != y && x != z && y != z);
    assert(all.len() >= 3);
    let sigs = signals(t, b);
    lemma_sorted_contains(sigs, rank::<String>(), name);
    let sorted = crate::order::sorted(sigs, rank::<String>());
    let q = choose|q: int| 0 <= q < sorted.len() && sorted[q] == name;
    let rule = writers_at(t, b, sorted, path, t[i].name@);
    let found = writers_issue(name, all, path, t[i].name@)[0];
    assert(rule(q)[0] == found);
    assert(rule(q).contains(found));
    lemma_gather_contains(0, sorted.len() as int, rule, found);
    assert(many_writers(t, b, sigs, path, t[i].name@).contains(found));
    lemma_kinds_of_issues(t, i, path, 6, found);
    lemma_reported(files, k, i, b, found);
}

// ---------------------------------------------------------------------------
// Tasks that effects start
// ---------------------------------------------------------------------------

/// Node `p` calls a function whose name begins with `use_`.
pub open spec fn calls_hook(t: Seq<Node>, p: int) -> bool {
    &&& t[p].kind == Kind::Call
    &&& operand(t, p, 0) matches Some(f)
    &&& t[f].kind == Kind::Path
    &&& t[f].name@.len() >= 4 && t[f].name@[0] == 'u' && t[f].name@[1] == 's' && t[f].name@[2]
        == 'e' && t[f].name@[3] == '_'
}

proof fn lemma_calls_hook(t: Seq<Node>, p: int)
    ensures
        calls_hook(t, p) <==> hook_call(t, p),
{
    reveal_strlit("use_");
    let f = operand(t, p, 0)->0;
    if calls_hook(t, p) {
        assert(t[f].name@.subrange(0, 4) =~= "use_"@);
    }
    if hook_call(t, p) {
        assert(t[f].name@.subrange(0, 4) == "use_"@);
        assert(t[f].name@.subrange(0, 4)[0] == 'u' && t[f].name@.subrange(0, 4)[1] == 's'
            && t[f].name@.subrange(0, 4)[2] == 'e' && t[f].name@.subrange(0, 4)[3] == '_');
    }
}

/// Node `s` starts a task: it calls `spawn`, or is an `async` block that is handed to
/// a hook, on its own or as the body of a closure.
pub open spec fn starts_task(t: Seq<Node>, s: int) -> bool {
    ||| calls_path(t, s, "spawn"@)
    ||| {
        let p = t[s].parent as int;
        let q = t[p].parent as int;
        &&& t[s].kind == Kind::Async && p < t.len()
        &&& calls_hook(t, p) || (t[p].kind == Kind::Closure && q < t.len() && calls_hook(t, q))
    }
}

proof fn lemma_starts_task(t: Seq<Node>, s: int)
    ensures
        starts_task(t, s) <==> (crate::scan::call_tail(t, s) == Some("spawn"@) || handed(t, s)),
{
    let p = t[s].parent as int;
    let q = t[p].parent as int;
    lemma_calls_hook(t, p);
    lemma_calls_hook(t, q);
}

proof fn lemma_first_await(t: Seq<Node>, lo: int, s: int, n: int, a: int)
    requires
        s < a < n,
        in_task(t, lo, s, a),
        t[a].kind == Kind::Await,
    ensures
        first_await(t, lo, s, n) matches Some(f) && f <= a,
    decreases n - s,
{
    if a < n - 1 {
        lemma_first_await(t, lo, s, n - 1, a);
    } else {
        lemma_first_await_before(t, lo, s, n - 1);
    }
}

proof fn lemma_first_await_before(t: Seq<Node>, lo: int, s: int, n: int)
    ensures
        first_await(t, lo, s, n) matches Some(f) ==> f < n,
    decreases n - s,
{
    if n > s + 1 {
        lemma_first_await_before(t, lo, s, n - 1);
    }
}

/// The task at `s`, inside the effect at `m`, awaits at `a` and then, at `j`, sets a
/// signal; no other task is started in it.
pub open spec fn awaits_then_sets(t: Seq<Node>, b: int, m: int, s: int, a: int, j: int) -> bool {
    &&& b <= m && calls_path(t, m, "use_effect"@)
    &&& under(t, m, s) && s < t[b].end && starts_task(t, s)
    &&& forall|x: int| #[trigger] under(t, s, x) ==> !starts_task(t, x)
    &&& under(t, s, a) && t[a].kind == Kind::Await
    &&& under(t, s, j) && t[j].kind == Kind::MethodCall && t[j].name@ == "set"@
    &&& j < t[j].end <= t.len() && a < t[j].end
}

proof fn lemma_task(t: Seq<Node>, b: int, m: int, s: int, a: int, j: int)
    requires
        0 <= b,
        t.len() <= usize::MAX,
        awaits_then_sets(t, b, m, s, a, j),
    ensures
        spawned(t, b, s),
        sets(t, b, s).contains(j as usize),
{
    lemma_starts_task(t, s);
    lemma_inside(t, b, s, s, effect_at(t));
    assert(effect_at(t)(m) && stop(t, m) > s);
    assert forall|x: int| s < x < t[s].end implies #[trigger] in_task(t, b, s, x) by {
        let p = spawned_at(t, b);
        lemma_inside(t, s + 1, x, x, p);
        if inside(t, s + 1, x, p) {
            let y = choose|y: int| s + 1 <= y < x && #[trigger] p(y) && stop(t, y) > x;
            lemma_starts_task(t, y);
            assert(under(t, s, y));
        }
    }
    assert(in_task(t, b, s, a) && in_task(t, b, s, j));
    lemma_first_await(t, b, s, stop(t, s), a);
    assert(follows(t, b, s, j));
    assert(set_at(t, b, s)(j)[0] == j as usize);
    assert(set_at(t, b, s)(j).contains(j as usize));
    lemma_gather_contains(s + 1, stop(t, s), set_at(t, b, s), j as usize);
}

/// The issue on a task is among those of the component.
proof fn lemma_task_issue(
    t: Seq<Node>,
    b: int,
    hi: int,
    s: int,
    gates: Seq<Seq<char>>,
    shown: Seq<Seq<char>>,
    file: Seq<char>,
    component: Seq<char>,
    x: SignalIssueView,
)
    requires
        0 <= b <= s < hi <= t.len() <= usize::MAX,
        spawned(t, b, s),
        task_issue(t, b, s, gates, shown, file, component).contains(x),
    ensures
        spawn_issues(t, b, hi, gates, shown, file, component).contains(x),
{
    let ss = gather(b, hi, spawn_at(t, b));
    assert(spawn_at(t, b)(s)[0] == s as usize);
    assert(spawn_at(t, b)(s).contains(s as usize));
    lemma_gather_contains(b, hi, spawn_at(t, b), s as usize);
    let q = choose|q: int| 0 <= q < ss.len() && ss[q] == s as usize;
    let last = stop(t, s) - 1;
    let rule = ending(t, b, ss, last + 1, gates, shown, file, component);
    assert(rule(ss.len() - 1 - q).contains(x));
    lemma_gather_contains(0, ss.len() as int, rule, x);
    let outer = ending_at(t, b, ss, gates, shown, file, component);
    assert(outer(last).contains(x));
    lemma_gather_contains(b, t.len() as int, outer, x);
}

/// An effect whose task awaits something and then sets a signal is reported.
pub proof fn law_setting_task_is_found(
    files: Seq<ScannedFile>,
    k: int,
    i: int,
    b: int,
    m: int,
    s: int,
    a: int,
    j: int,
)
    requires
        component_in(files, k, i, b),
        awaits_then_sets(nodes(files, k), b, m, s, a, j),
    ensures
        reports_code(
            files,
            "hydration_unsafe_effect"@,
            files[k].path@,
            nodes(files, k)[i].name@,
        ) || reports_code(
            files,
            "bootstrap_gate_signal"@,
            files[k].path@,
            nodes(files, k)[i].name@,
        ),
{
    let t = nodes(files, k);
    let path = files[k].path@;
    assert(files[k].ast->Ok_0.len() == t.len());
    lemma_component_with_body(t, i, b);
    lemma_task(t, b, m, s, a, j);
    let hi = t[b].end as int;
    let gates = bool_gates(t, b);
    let shown = rsx_gates(t, b, hi);
    let x = task_issue(t, b, s, gates, shown, path, t[i].name@)[0];
    assert(task_issue(t, b, s, gates, shown, path, t[i].name@).contains(x));
    lemma_task_issue(t, b, hi, s, gates, shown, path, t[i].name@, x);
    lemma_kinds_of_issues(t, i, path, 2, x);
    lemma_reported(files, k, i, b, x);
}

/// Statement `l` of the body `b` is `let name = use_signal(|| false)`.
pub open spec fn lets_false(t: Seq<Node>, b: int, l: int, name: Seq<char>) -> bool {
    &&& lets(t, b, l, name, "use_signal"@)
    &&& operand(t, l, 1) matches Some(e)
    &&& operand(t, e, 1) matches Some(c)
    &&& t[c].kind == Kind::Closure
    &&& operand(t, c, (t[c].count + 1) as nat) matches Some(v)
    &&& t[v].kind == Kind::Bool && !t[v].flag
}

/// At token `w` of an `rsx!` stands `if name()`.
pub open spec fn shown_if(t: Seq<Node>, b: int, w: int, name: Seq<char>) -> bool {
    &&& exists|m: int|
        b <= m && #[trigger] under(t, m, w) && t[m].kind == Kind::Macro && t[m].name@ == "rsx"@
    &&& w + 2 < t.len() && t[w].kind == Kind::TokIdent && t[w].name@ == "if"@
    &&& t[w + 1].parent == t[w].parent && t[w + 1].kind == Kind::TokIdent && t[w + 1].name@ == name
    &&& t[w + 2].parent == t[w].parent && t[w + 2].kind == Kind::TokGroup && t[w + 2].name@ == "("@
        && t[w + 2].end == w + 3
}

proof fn lemma_first_opened(
    t: Seq<Node>,
    js: Seq<usize>,
    k: int,
    n: int,
    gates: Seq<Seq<char>>,
    shown: Seq<Seq<char>>,
)
    requires
        0 <= k <= n < js.len(),
        opened(t, js[n] as int, gates, shown) is Some,
    ensures
        first_opened(t, js, k, gates, shown) is Some,
    decreases n - k,
{
    if k < n {
        lemma_first_opened(t, js, k + 1, n, gates, shown);
    }
}

/// Where what is set is a flag that began as `false` and that the markup waits for,
/// the report says so.
pub proof fn law_bootstrap_gate_is_found(
    files: Seq<ScannedFile>,
    k: int,
    i: int,
    b: int,
    m: int,
    s: int,
    a: int,
    j: int,
    l: int,
    w: int,
    name: Seq<char>,
)
    requires
        component_in(files, k, i, b),
        ({
            let t = nodes(files, k);
            &&& awaits_then_sets(t, b, m, s, a, j)
            &&& calls_on(t, j, "set"@, name)
            &&& operand(t, j, 1) matches Some(v) && t[v].kind == Kind::Bool && t[v].flag
            &&& lets_false(t, b, l, name)
            &&& b <= w < t[b].end && shown_if(t, b, w, name)
        }),
    ensures
        reports_code(
            files,
            "bootstrap_gate_signal"@,
            files[k].path@,
            nodes(files, k)[i].name@,
        ),
{
    let t = nodes(files, k);
    let path = files[k].path@;
    assert(files[k].ast->Ok_0.len() == t.len());
    lemma_component_with_body(t, i, b);
    lemma_task(t, b, m, s, a, j);
    let hi = t[b].end as int;
    let gates = bool_gates(t, b);
    let shown = rsx_gates(t, b, hi);
    assert(gates.contains(name)) by {
        let rule = bool_gate_at(t, b);
        assert(rule(l)[0] == name);
        assert(rule(l).contains(name));
        lemma_gather_contains(b, hi, rule, name);
        lemma_distinct(gather(b, hi, rule));
    }
    assert(shown.contains(name)) by {
        let rule = rsx_gate_at(t, b);
        let mac = choose|m: int|
            b <= m && #[trigger] under(t, m, w) && t[m].kind == Kind::Macro && t[m].name@ == "rsx"@;
        lemma_inside(t, b, w, w, rsx_at(t));
        assert(rsx_at(t)(mac) && stop(t, mac) > w);
        assert(crate::scan::kids(t, w + 2) =~= Seq::<usize>::empty()) by {
            assert(stop(t, w + 2) == w + 3);
        }
        assert(rule(w)[0] == name);
        assert(rule(w).contains(name));
        lemma_gather_contains(b, hi, rule, name);
    }
    let js = sets(t, b, s);
    let n = choose|n: int| 0 <= n < js.len() && js[n] == j as usize;
    assert(opened(t, j, gates, shown) == Some(name));
    lemma_first_opened(t, js, 0, n, gates, shown);
    let x = task_issue(t, b, s, gates, shown, path, t[i].name@)[0];
    assert(task_issue(t, b, s, gates, shown, path, t[i].name@).contains(x));
    lemma_task_issue(t, b, hi, s, gates, shown, path, t[i].name@, x);
    lemma_kinds_of_issues(t, i, path, 2, x);
    lemma_reported(files, k, i, b, x);
}

// ---------------------------------------------------------------------------
// Context modules
// ---------------------------------------------------------------------------

/// Node `i` is a public function at the top level called `name`.
pub open spec fn public_named(t: Seq<Node>, i: int, name: Seq<char>) -> bool {
    0 < i < t.len() && t[i].kind == Kind::Fn && t[i].parent == 0 && t[i].mark && t[i].name@ == name
}

proof fn lemma_last_use(t: Seq<Node>, name: Seq<char>, u: int, n: int)
    requires
        0 <= u < n <= t.len(),
        used(t, u) == Some(name),
        forall|x: int| u < x < n ==> #[trigger] used(t, x) != Some(name),
    ensures
        last_use(t, name, n) == Some(u),
    decreases n,
{
    if u < n - 1 {
        lemma_last_use(t, name, u, n - 1);
    }
}

proof fn lemma_prefixes(name: Seq<char>)
    ensures
        crate::text::after_prefix("provide_"@ + name, "provide_"@) == Some(name),
        crate::text::after_prefix("use_"@ + name, "use_"@) == Some(name),
        crate::text::after_prefix("use_"@ + name, "provide_"@) is None,
        forall|s: Seq<char>| #[trigger]
            crate::text::after_prefix(s, "provide_"@) == Some(name) ==> s == "provide_"@ + name,
        forall|s: Seq<char>| #[trigger]
            crate::text::after_prefix(s, "use_"@) == Some(name) ==> s == "use_"@ + name,
{
    reveal_strlit("provide_");
    reveal_strlit("use_");
    let a = "provide_"@ + name;
    let b = "use_"@ + name;
    assert(a.subrange(0, 8) =~= "provide_"@);
    assert(a.skip(8) =~= name);
    assert(b.subrange(0, 4) =~= "use_"@);
    assert(b.skip(4) =~= name);
    assert(b[0] == 'u' && "provide_"@[0] == 'p');
    if b.len() >= 8 {
        assert(b.subrange(0, 8)[0] == 'u');
    }
    assert forall|s: Seq<char>| #[trigger]
        crate::text::after_prefix(s, "provide_"@) == Some(name) implies s == "provide_"@ + name by {
        assert(s =~= s.subrange(0, 8) + s.skip(8));
    }
    assert forall|s: Seq<char>| #[trigger]
        crate::text::after_prefix(s, "use_"@) == Some(name) implies s == "use_"@ + name by {
        assert(s =~= s.subrange(0, 4) + s.skip(4));
    }
}

/// A file with a public `provide_x` and a public `use_x`, one of each, is counted as a
/// context module, with the lines of both.
pub proof fn law_context_module_is_counted(
    files: Seq<ScannedFile>,
    k: int,
    i: int,
    u: int,
    name: Seq<char>,
)
    requires
        0 <= k < files.len(),
        files[k].ast is Ok,
        ({
            let t = nodes(files, k);
            &&& public_named(t, i, "provide_"@ + name) && public_named(t, u, "use_"@ + name)
            &&& forall|x: int|
                0 <= x < t.len() && #[trigger] public_named(t, x, "provide_"@ + name) ==> x == i
            &&& forall|x: int|
                0 <= x < t.len() && #[trigger] public_named(t, x, "use_"@ + name) ==> x == u
        }),
    ensures
        report(files).context_signal_triads_summary.names.contains(name),
        exists|p: ContextPairView| #[trigger]
            pairs(files).contains(p) && p.module == (ContextSignalModuleView {
                file: files[k].path@,
                name,
                provide_line: nodes(files, k)[i].line,
                use_line: nodes(files, k)[u].line,
            }),
{
    let t = nodes(files, k);
    let path = files[k].path@;
    lemma_prefixes(name);
    assert(provided(t, i) == Some(name));
    assert(used(t, u) == Some(name));
    assert forall|x: int| u < x < t.len() implies #[trigger] used(t, x) != Some(name) by {
        if used(t, x) == Some(name) {
            assert(public_named(t, x, "use_"@ + name));
        }
    }
    assert forall|x: int| i < x < t.len() implies #[trigger] provided(t, x) != provided(t, i) by {
        if provided(t, x) == Some(name) {
            assert(public_named(t, x, "provide_"@ + name));
        }
    }
    lemma_last_use(t, name, u, t.len() as int);
    let p = pair(t, i, path)->0;
    assert(pair_at(t, path)(i)[0] == p);
    assert(pair_at(t, path)(i).contains(p));
    lemma_gather_contains(0, t.len() as int, pair_at(t, path), p);
    assert(file_pairs(files)(k).contains(p));
    lemma_gather_contains(0, files.len() as int, file_pairs(files), p);
    lemma_sorted_contains(
        gather(0, files.len() as int, file_pairs(files)),
        rank::<ContextPair>(),
        p,
    );
    let all = pairs(files);
    let q = choose|q: int| 0 <= q < all.len() && all[q] == p;
    assert(report(files).context_signal_triads_summary.names[q] == name);
}

/// From three context modules on, one suggestion lists all of them; with fewer than
/// two there is none.
pub proof fn law_three_context_modules(files: Seq<ScannedFile>)
    ensures
        report(files).context_signal_triads_summary.detected == pairs(files).len(),
        report(files).context_signal_triads_summary.threshold == 3,
        pairs(files).len() >= 3 ==> report(files).context_signal_triads.len() == 1
            && report(files).context_signal_triads[0].modules.len() == pairs(files).len()
            && forall|q: int|
            0 <= q < pairs(files).len() ==> #[trigger] report(
                files,
            ).context_signal_triads[0].modules[q] == pairs(files)[q].module,
        pairs(files).len() < 2 ==> report(files).context_signal_triads.len() == 0,
{
}

} // verus!
