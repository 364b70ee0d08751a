//! Effects that set signals after awaiting, and effects that navigate.
use vstd::prelude::*;

use super::bindings::{binding, binding_of, signal_init, signal_init_of};
use super::report::{issue, issue_of, SignalIssue, SignalIssueView};
use crate::order::{distinct, distinct_of, gather, holds, only_if, put, put_all};
use crate::scan::{
    call_tail, call_tail_of, group, inside, is_group, is_rsx, is_word, kids, kids_of,
    operand_ident, operand_ident_of, pat_name, pat_name_of, reach, rsx_at, word,
};
use crate::tape::{operand, operand_of, stop, stop_of, Kind, Node};
use crate::text::{begins, owned, same, starts_with};

verus! {

// ---------------------------------------------------------------------------
// Gates
// ---------------------------------------------------------------------------

/// The name that statement `j` binds to a signal that starts as `false`.
pub open spec fn bool_gate_at(t: Seq<Node>, b: int) -> spec_fn(int) -> Seq<Seq<char>> {
    |j: int|
        match binding(t, b, j) {
            Some((p, e)) => match (pat_name(t, p), signal_init(t, e)) {
                (Some(name), Some(v)) => only_if(t[v].kind == Kind::Bool && !t[v].flag, name),
                _ => Seq::empty(),
            },
            None => Seq::empty(),
        }
}

/// The names that the statements of the block at `b` bind to signals that start
/// as `false`.
pub open spec fn bool_gates(t: Seq<Node>, b: int) -> Seq<Seq<char>> {
    distinct(gather(b, stop(t, b), bool_gate_at(t, b)))
}

pub fn collect_bool_gate_signals(t: &Vec<Node>, b: usize) -> (r: Vec<String>)
    requires
        b < t.len(),
    ensures
        r.deep_view() == bool_gates(t@, b as int),
{
    let end = stop_of(t, b);
    let mut out: Vec<String> = Vec::new();
    let mut j: usize = b;
    while j < end
        invariant
            b <= j <= end <= t.len(),
            out.deep_view() == gather(b as int, j as int, bool_gate_at(t@, b as int)),
        decreases end - j,
    {
        match binding_of(t, b, j) {
            Some((p, e)) => match (pat_name_of(t, p), signal_init_of(t, e)) {
                (Some(name), Some(v)) => {
                    if t[v].kind == Kind::Bool && !t[v].flag {
                        put(&mut out, name);
                    }
                },
                _ => {},
            },
            None => {},
        }
        j += 1;
    }
    distinct_of(&out)
}

/// Tokens `j` and the next two are `if`, a name and empty parentheses.
pub open spec fn if_call(t: Seq<Node>, j: int) -> bool {
    word(t, j, "if"@) && j + 2 < t.len() && t[j + 1].parent == t[j].parent && t[j + 1].kind
        == Kind::TokIdent && t[j + 2].parent == t[j].parent && group(t, j + 2, "("@) && kids(
        t,
        j + 2,
    ).len() == 0
}

fn is_if_call(t: &Vec<Node>, j: usize) -> (r: bool)
    requires
        j < t.len(),
    ensures
        r == if_call(t@, j as int),
{
    is_word(t, j, "if") && t.len() - j > 2 && t[j + 1].parent == t[j].parent && t[j + 1].kind
        == Kind::TokIdent && t[j + 2].parent == t[j].parent && is_group(t, j + 2, "(") && kids_of(
        t,
        j + 2,
    ).len() == 0
}

pub open spec fn rsx_gate_at(t: Seq<Node>, lo: int) -> spec_fn(int) -> Seq<Seq<char>> {
    |j: int| only_if(inside(t, lo, j, rsx_at(t)) && if_call(t, j), t[j + 1].name@)
}

/// The names that are called as the condition of an `if` inside `rsx!`.
pub open spec fn rsx_gates(t: Seq<Node>, lo: int, hi: int) -> Seq<Seq<char>> {
    gather(lo, hi, rsx_gate_at(t, lo))
}

pub fn collect_rsx_if_signal_calls(t: &Vec<Node>, lo: usize, hi: usize) -> (r: Vec<String>)
    requires
        lo <= hi <= t.len(),
    ensures
        r.deep_view() == rsx_gates(t@, lo as int, hi as int),
{
    let mut out: Vec<String> = Vec::new();
    let mut until: usize = lo;
    let mut j: usize = lo;
    while j < hi
        invariant
            lo <= j <= hi <= t.len(),
            until == reach(t@, lo as int, j as int, rsx_at(t@)),
            out.deep_view() == gather(lo as int, j as int, rsx_gate_at(t@, lo as int)),
        decreases hi - j,
    {
        if j < until && is_if_call(t, j) {
            put(&mut out, owned(t[j + 1].name.as_str()));
        }
        if is_rsx(t, j) {
            let end = stop_of(t, j);
            if end > until {
                until = end;
            }
        }
        j += 1;
    }
    out
}

// ---------------------------------------------------------------------------
// Effects
// ---------------------------------------------------------------------------

pub open spec fn effect(t: Seq<Node>, m: int) -> bool {
    call_tail(t, m) == Some("use_effect"@)
}

pub open spec fn effect_at(t: Seq<Node>) -> spec_fn(int) -> bool {
    |m: int| effect(t, m)
}

fn is_effect(t: &Vec<Node>, m: usize) -> (r: bool)
    requires
        m < t.len(),
    ensures
        r == effect(t@, m as int),
{
    match call_tail_of(t, m) {
        Some(name) => same(name.as_str(), "use_effect"),
        None => false,
    }
}

/// Whether node `j` stands inside an effect that starts at `lo` or later.
fn in_effect(t: &Vec<Node>, lo: usize, j: usize) -> (r: bool)
    requires
        lo <= j <= t.len(),
    ensures
        r == inside(t@, lo as int, j as int, effect_at(t@)),
{
    let mut until: usize = lo;
    let mut m: usize = lo;
    while m < j
        invariant
            lo <= m <= j <= t.len(),
            until == reach(t@, lo as int, m as int, effect_at(t@)),
        decreases j - m,
    {
        if is_effect(t, m) {
            let end = stop_of(t, m);
            if end > until {
                until = end;
            }
        }
        m += 1;
    }
    j < until
}

/// The line of the last effect that starts between `lo` and `hi`; 0 if none does.
pub open spec fn effect_line(t: Seq<Node>, lo: int, hi: int) -> usize
    decreases hi - lo,
{
    if hi <= lo {
        0
    } else if effect(t, hi - 1) {
        t[hi - 1].line
    } else {
        effect_line(t, lo, hi - 1)
    }
}

fn effect_line_of(t: &Vec<Node>, lo: usize, hi: usize) -> (r: usize)
    requires
        lo <= hi <= t.len(),
    ensures
        r == effect_line(t@, lo as int, hi as int),
{
    let mut k: usize = hi;
    while k > lo
        invariant
            lo <= k <= hi <= t.len(),
            effect_line(t@, lo as int, hi as int) == effect_line(t@, lo as int, k as int),
        decreases k,
    {
        if is_effect(t, k - 1) {
            return t[k - 1].line;
        }
        k -= 1;
    }
    0
}

// ---------------------------------------------------------------------------
// Effects that spawn
// ---------------------------------------------------------------------------

/// Node `m` calls a hook.
pub open spec fn hook_call(t: Seq<Node>, m: int) -> bool {
    call_tail(t, m) matches Some(name) && begins(name, "use_"@)
}

fn is_hook_call(t: &Vec<Node>, m: usize) -> (r: bool)
    requires
        m < t.len(),
    ensures
        r == hook_call(t@, m as int),
{
    match call_tail_of(t, m) {
        Some(name) => starts_with(name.as_str(), "use_"),
        None => false,
    }
}

/// Node `s` is an `async` block that is handed to a hook: as an argument, or as what
/// a closure among the arguments gives.
pub open spec fn handed(t: Seq<Node>, s: int) -> bool {
    let p = t[s].parent as int;
    let q = t[p].parent as int;
    &&& t[s].kind == Kind::Async
    &&& p < t.len()
    &&& hook_call(t, p) || (t[p].kind == Kind::Closure && q < t.len() && hook_call(t, q))
}

fn is_handed(t: &Vec<Node>, s: usize) -> (r: bool)
    requires
        s < t.len(),
    ensures
        r == handed(t@, s as int),
{
    let p = t[s].parent;
    if t[s].kind != Kind::Async || p >= t.len() {
        return false;
    }
    let q = t[p].parent;
    is_hook_call(t, p) || (t[p].kind == Kind::Closure && q < t.len() && is_hook_call(t, q))
}

/// Node `s` starts a task from inside an effect: it spawns one, or is handed to a
/// hook.
pub open spec fn spawned(t: Seq<Node>, lo: int, s: int) -> bool {
    (call_tail(t, s) == Some("spawn"@) || handed(t, s)) && inside(t, lo, s, effect_at(t))
}

pub open spec fn spawned_at(t: Seq<Node>, lo: int) -> spec_fn(int) -> bool {
    |s: int| spawned(t, lo, s)
}

fn is_spawned(t: &Vec<Node>, lo: usize, s: usize) -> (r: bool)
    requires
        lo <= s < t.len(),
    ensures
        r == spawned(t@, lo as int, s as int),
{
    let starts = match call_tail_of(t, s) {
        Some(name) => same(name.as_str(), "spawn"),
        None => false,
    };
    (starts || is_handed(t, s)) && in_effect(t, lo, s)
}

/// Node `j` runs in the task that `s` spawns, and in no task spawned by it.
pub open spec fn in_task(t: Seq<Node>, lo: int, s: int, j: int) -> bool {
    s < j < stop(t, s) && !inside(t, s + 1, j, spawned_at(t, lo))
}

/// The first thing that the task that `s` spawns awaits before `n`.
pub open spec fn first_await(t: Seq<Node>, lo: int, s: int, n: int) -> Option<int>
    decreases n - s,
{
    if n <= s + 1 {
        None
    } else {
        match first_await(t, lo, s, n - 1) {
            Some(a) => Some(a),
            None => if in_task(t, lo, s, n - 1) && t[n - 1].kind == Kind::Await {
                Some(n - 1)
            } else {
                None
            },
        }
    }
}

/// The call at `j` is made after the task that `s` spawns has awaited something: it
/// stands behind that, or has it among its arguments.
pub open spec fn follows(t: Seq<Node>, lo: int, s: int, j: int) -> bool {
    first_await(t, lo, s, stop(t, s)) matches Some(a) && a < stop(t, j)
}

pub open spec fn set_at(t: Seq<Node>, lo: int, s: int) -> spec_fn(int) -> Seq<usize> {
    |j: int|
        only_if(
            in_task(t, lo, s, j) && t[j].kind == Kind::MethodCall && t[j].name@ == "set"@
                && follows(t, lo, s, j),
            j as usize,
        )
}

/// The calls of `set` that the task that `s` spawns makes after awaiting.
pub open spec fn sets(t: Seq<Node>, lo: int, s: int) -> Seq<usize> {
    gather(s + 1, stop(t, s), set_at(t, lo, s))
}

fn first_await_of(t: &Vec<Node>, lo: usize, s: usize) -> (r: Option<usize>)
    requires
        lo <= s < t.len(),
    ensures
        match r {
            Some(a) => first_await(t@, lo as int, s as int, stop(t@, s as int)) == Some(a as int),
            None => first_await(t@, lo as int, s as int, stop(t@, s as int)) is None,
        },
{
    let end = stop_of(t, s);
    let mut found: Option<usize> = None;
    let mut until: usize = s + 1;
    let mut j: usize = s + 1;
    while j < end
        invariant
            lo <= s < j <= end <= t.len(),
            end == stop(t@, s as int),
            until == reach(t@, s + 1, j as int, spawned_at(t@, lo as int)),
            match found {
                Some(a) => first_await(t@, lo as int, s as int, j as int) == Some(a as int),
                None => first_await(t@, lo as int, s as int, j as int) is None,
            },
        decreases end - j,
    {
        if found.is_none() && j >= until && t[j].kind == Kind::Await {
            found = Some(j);
        }
        if is_spawned(t, lo, j) {
            let e = stop_of(t, j);
            if e > until {
                until = e;
            }
        }
        j += 1;
    }
    found
}

fn sets_of(t: &Vec<Node>, lo: usize, s: usize) -> (r: Vec<usize>)
    requires
        lo <= s < t.len(),
    ensures
        r@ == sets(t@, lo as int, s as int),
        forall|k: int| 0 <= k < r.len() ==> #[trigger] r[k] < t.len(),
{
    let mut js: Vec<usize> = Vec::new();
    let first = first_await_of(t, lo, s);
    let end = stop_of(t, s);
    let mut until: usize = s + 1;
    let mut j: usize = s + 1;
    while j < end
        invariant
            lo <= s < j <= end <= t.len(),
            end == stop(t@, s as int),
            match first {
                Some(a) => first_await(t@, lo as int, s as int, end as int) == Some(a as int),
                None => first_await(t@, lo as int, s as int, end as int) is None,
            },
            until == reach(t@, s + 1, j as int, spawned_at(t@, lo as int)),
            js@ == gather(s + 1, j as int, set_at(t@, lo as int, s as int)),
            forall|k: int| 0 <= k < js.len() ==> #[trigger] js[k] < t.len(),
        decreases end - j,
    {
        let after = match first {
            Some(a) => a < stop_of(t, j),
            None => false,
        };
        if j >= until && t[j].kind == Kind::MethodCall && same(t[j].name.as_str(), "set") && after {
            js.push(j);
        }
        if is_spawned(t, lo, j) {
            let e = stop_of(t, j);
            if e > until {
                until = e;
            }
        }
        j += 1;
    }
    js
}

/// The signal that the call of `set` at `j` opens: one of both lists of gates
/// that it sets to `true`.
pub open spec fn opened(
    t: Seq<Node>,
    j: int,
    gates: Seq<Seq<char>>,
    shown: Seq<Seq<char>>,
) -> Option<Seq<char>> {
    match (operand(t, j, 0), operand(t, j, 1)) {
        (Some(r), Some(v)) => if t[r].kind == Kind::Path && t[r].count == 1 && t[v].kind
            == Kind::Bool && t[v].flag && gates.contains(t[r].name@) && shown.contains(t[r].name@) {
            Some(t[r].name@)
        } else {
            None
        },
        _ => None,
    }
}

/// The first signal that the calls of `set` from number `k` on open.
pub open spec fn first_opened(
    t: Seq<Node>,
    js: Seq<usize>,
    k: int,
    gates: Seq<Seq<char>>,
    shown: Seq<Seq<char>>,
) -> Option<Seq<char>>
    decreases js.len() - k,
{
    if k < 0 || k >= js.len() {
        None
    } else {
        match opened(t, js[k] as int, gates, shown) {
            Some(name) => Some(name),
            None => first_opened(t, js, k + 1, gates, shown),
        }
    }
}

pub open spec fn bootstrap_message(signal: Seq<char>) -> Seq<char> {
    "`use_effect` flips `"@
        + signal
        + "` (a `use_signal(|| false)` binding) to `true` after awaiting a server fn, and rsx gates the whole subtree behind `if "@
        + signal
        + "() { … } else { loading }`. SSR renders the loading branch, the client paints the same loading branch, then flashes to the real content once the fetch resolves. Replace the effect + flag with `use_server_future`: drop the `"@
        + signal
        + "` signal, drop the `use_effect`, and write `let boot = use_server_future(|| async { /* the server fn */ })?; match boot() { Some(value) => rsx! { /* resolved tree */ }, None => rsx! { /* loading */ } }` — Dioxus 0.7 pre-renders the resolved branch on the server and there's no hydration flash. `use_effect` is correct for browser-only side effects (cleanup, focus, scroll); keep it for those."@
}

fn bootstrap_message_of(signal: &str) -> (r: String)
    ensures
        r@ == bootstrap_message(signal@),
{
    let mut s = owned("`use_effect` flips `");
    s.append(signal);
    s.append("` (a `use_signal(|| false)` binding) to `true` after awaiting a server fn, and rsx gates the whole subtree behind `if ");
    s.append(signal);
    s.append("() { … } else { loading }`. SSR renders the loading branch, the client paints the same loading branch, then flashes to the real content once the fetch resolves. Replace the effect + flag with `use_server_future`: drop the `");
    s.append(signal);
    s.append("` signal, drop the `use_effect`, and write `let boot = use_server_future(|| async { /* the server fn */ })?; match boot() { Some(value) => rsx! { /* resolved tree */ }, None => rsx! { /* loading */ } }` — Dioxus 0.7 pre-renders the resolved branch on the server and there's no hydration flash. `use_effect` is correct for browser-only side effects (cleanup, focus, scroll); keep it for those.");
    s
}

pub open spec fn unsafe_message() -> Seq<char> {
    "`use_effect` spawns an async block that awaits a server fn and writes a signal consumed by rsx — this renders the loading branch on SSR and again on the first client paint, then flips. Prefer `use_server_future` (or `use_server_cached`) so the server pre-renders the resolved branch and there's no hydration flash. `use_effect` is correct for browser-only side effects; keep it for those."@
}

fn unsafe_message_of() -> (r: String)
    ensures
        r@ == unsafe_message(),
{
    let s = owned("`use_effect` spawns an async block that awaits a server fn and writes a signal consumed by rsx — this renders the loading branch on SSR and again on the first client paint, then flips. Prefer `use_server_future` (or `use_server_cached`) so the server pre-renders the resolved branch and there's no hydration flash. `use_effect` is correct for browser-only side effects; keep it for those.");
    s
}

pub open spec fn navigate_message() -> Seq<char> {
    "`use_effect` calls a router navigation method (`push`/`replace`/`go_back`) — SSR doesn't run effects, so the server renders the protected branch and the client briefly paints it before the effect mounts and redirects. The user sees the protected content flash. Move the auth check to a server-side guard (`use_server_future` + early Outlet branch) or render the redirect markup conditionally instead of imperatively navigating from an effect."@
}

fn navigate_message_of() -> (r: String)
    ensures
        r@ == navigate_message(),
{
    let s = owned("`use_effect` calls a router navigation method (`push`/`replace`/`go_back`) — SSR doesn't run effects, so the server renders the protected branch and the client briefly paints it before the effect mounts and redirects. The user sees the protected content flash. Move the auth check to a server-side guard (`use_server_future` + early Outlet branch) or render the redirect markup conditionally instead of imperatively navigating from an effect.");
    s
}

/// The issue on the task that `s` starts: it awaits and then sets a signal. The
/// line is that of the last effect that starts before the task ends.
pub open spec fn task_issue(
    t: Seq<Node>,
    lo: int,
    s: int,
    gates: Seq<Seq<char>>,
    shown: Seq<Seq<char>>,
    file: Seq<char>,
    component: Seq<char>,
) -> Seq<SignalIssueView> {
    let js = sets(t, lo, s);
    if js.len() > 0 {
        let last = effect_line(t, lo, stop(t, s));
        let line = if last > 0 {
            last
        } else {
            t[js[0] as int].line
        };
        match first_opened(t, js, 0, gates, shown) {
            Some(name) => seq![
                issue(
                    "bootstrap_gate_signal"@,
                    bootstrap_message(name),
                    file,
                    line,
                    component,
                    None,
                    None,
                ),
            ],
            None => seq![
                issue(
                    "hydration_unsafe_effect"@,
                    unsafe_message(),
                    file,
                    line,
                    component,
                    None,
                    None,
                ),
            ],
        }
    } else {
        Seq::empty()
    }
}

pub open spec fn spawn_at(t: Seq<Node>, lo: int) -> spec_fn(int) -> Seq<usize> {
    |s: int| only_if(spawned(t, lo, s), s as usize)
}

/// The issues on the tasks `ss` that end at `end`, the innermost first.
pub open spec fn ending(
    t: Seq<Node>,
    lo: int,
    ss: Seq<usize>,
    end: int,
    gates: Seq<Seq<char>>,
    shown: Seq<Seq<char>>,
    file: Seq<char>,
    component: Seq<char>,
) -> spec_fn(int) -> Seq<SignalIssueView> {
    |k: int|
        {
            let s = ss[ss.len() - 1 - k] as int;
            if stop(t, s) == end {
                task_issue(t, lo, s, gates, shown, file, component)
            } else {
                Seq::empty()
            }
        }
}

pub open spec fn ending_at(
    t: Seq<Node>,
    lo: int,
    ss: Seq<usize>,
    gates: Seq<Seq<char>>,
    shown: Seq<Seq<char>>,
    file: Seq<char>,
    component: Seq<char>,
) -> spec_fn(int) -> Seq<SignalIssueView> {
    |last: int|
        gather(0, ss.len() as int, ending(t, lo, ss, last + 1, gates, shown, file, component))
}

/// The issues on the tasks that effects between `lo` and `hi` spawn, in the
/// order in which the tasks end.
pub open spec fn spawn_issues(
    t: Seq<Node>,
    lo: int,
    hi: int,
    gates: Seq<Seq<char>>,
    shown: Seq<Seq<char>>,
    file: Seq<char>,
    component: Seq<char>,
) -> Seq<SignalIssueView> {
    let ss = gather(lo, hi, spawn_at(t, lo));
    gather(lo, t.len() as int, ending_at(t, lo, ss, gates, shown, file, component))
}

/// A body in which effects may spawn tasks, and its gates.
pub struct EffectSpawnVisitor<'a> {
    pub t: &'a Vec<Node>,
    pub lo: usize,
    pub hi: usize,
    /// Signals that start as `false`.
    pub bool_gates: &'a Vec<String>,
    /// Signals that gate a part of `rsx!`.
    pub rsx_gates: &'a Vec<String>,
    pub file: &'a str,
    pub component: &'a str,
}

impl<'a> EffectSpawnVisitor<'a> {
    pub open spec fn wf(&self) -> bool {
        self.lo <= self.hi <= self.t.len()
    }

    pub open spec fn issue_on(&self, s: int) -> Seq<SignalIssueView> {
        task_issue(
            self.t@,
            self.lo as int,
            s,
            self.bool_gates.deep_view(),
            self.rsx_gates.deep_view(),
            self.file@,
            self.component@,
        )
    }

    fn opened_of(&self, j: usize) -> (r: Option<String>)
        requires
            j < self.t.len(),
        ensures
            r.deep_view() == opened(
                self.t@,
                j as int,
                self.bool_gates.deep_view(),
                self.rsx_gates.deep_view(),
            ),
    {
        let t = self.t;
        match (operand_of(t, j, 0), operand_of(t, j, 1)) {
            (Some(r), Some(v)) => if t[r].kind == Kind::Path && t[r].count == 1 && t[v].kind
                == Kind::Bool && t[v].flag && holds(self.bool_gates, t[r].name.as_str()) && holds(
                self.rsx_gates,
                t[r].name.as_str(),
            ) {
                Some(owned(t[r].name.as_str()))
            } else {
                None
            },
            _ => None,
        }
    }

    fn first_opened_of(&self, js: &Vec<usize>) -> (r: Option<String>)
        requires
            forall|k: int| 0 <= k < js.len() ==> #[trigger] js[k] < self.t.len(),
        ensures
            r.deep_view() == first_opened(
                self.t@,
                js@,
                0,
                self.bool_gates.deep_view(),
                self.rsx_gates.deep_view(),
            ),
    {
        let ghost (gates, shown) = (self.bool_gates.deep_view(), self.rsx_gates.deep_view());
        let mut k: usize = 0;
        while k < js.len()
            invariant
                k <= js.len(),
                (gates, shown) == (self.bool_gates.deep_view(), self.rsx_gates.deep_view()),
                forall|m: int| 0 <= m < js.len() ==> #[trigger] js[m] < self.t.len(),
                first_opened(self.t@, js@, 0, gates, shown) == first_opened(
                    self.t@,
                    js@,
                    k as int,
                    gates,
                    shown,
                ),
            decreases js.len() - k,
        {
            let name = self.opened_of(js[k]);
            if name.is_some() {
                return name;
            }
            k += 1;
        }
        None
    }

    /// The issue on the task that `s` spawns, if there is one.
    pub fn flush_pending_issues(&self, s: usize) -> (r: Vec<SignalIssue>)
        requires
            self.wf(),
            self.lo <= s < self.t.len(),
        ensures
            r.deep_view() == self.issue_on(s as int),
    {
        let t = self.t;
        let lo = self.lo;
        let end = stop_of(t, s);
        let js = sets_of(t, lo, s);
        let mut out: Vec<SignalIssue> = Vec::new();
        if js.len() == 0 {
            assert(out.deep_view() =~= self.issue_on(s as int));
            return out;
        }
        let last = effect_line_of(t, lo, end);
        let line = if last > 0 {
            last
        } else {
            t[js[0]].line
        };
        match self.first_opened_of(&js) {
            Some(name) => put(
                &mut out,
                issue_of(
                    "bootstrap_gate_signal",
                    bootstrap_message_of(name.as_str()),
                    self.file,
                    line,
                    self.component,
                    None,
                    None,
                ),
            ),
            None => put(
                &mut out,
                issue_of(
                    "hydration_unsafe_effect",
                    unsafe_message_of(),
                    self.file,
                    line,
                    self.component,
                    None,
                    None,
                ),
            ),
        }
        assert(out.deep_view() =~= self.issue_on(s as int));
        out
    }

    fn spawns(&self) -> (r: Vec<usize>)
        requires
            self.wf(),
        ensures
            r@ == gather(self.lo as int, self.hi as int, spawn_at(self.t@, self.lo as int)),
            forall|k: int| 0 <= k < r.len() ==> self.lo <= #[trigger] r[k] < self.t.len(),
    {
        let mut out: Vec<usize> = Vec::new();
        let mut s: usize = self.lo;
        while s < self.hi
            invariant
                self.lo <= s <= self.hi <= self.t.len(),
                out@ == gather(self.lo as int, s as int, spawn_at(self.t@, self.lo as int)),
                forall|k: int| 0 <= k < out.len() ==> self.lo <= #[trigger] out[k] < self.t.len(),
            decreases self.hi - s,
        {
            if is_spawned(self.t, self.lo, s) {
                out.push(s);
            }
            s += 1;
        }
        out
    }

    /// The issues on the tasks `ss` whose last node is `last`.
    fn ending_issues(&self, ss: &Vec<usize>, last: usize) -> (r: Vec<SignalIssue>)
        requires
            self.wf(),
            last < self.t.len(),
            forall|k: int| 0 <= k < ss.len() ==> self.lo <= #[trigger] ss[k] < self.t.len(),
        ensures
            r.deep_view() == ending_at(
                self.t@,
                self.lo as int,
                ss@,
                self.bool_gates.deep_view(),
                self.rsx_gates.deep_view(),
                self.file@,
                self.component@,
            )(last as int),
    {
        let ghost rule = ending(
            self.t@,
            self.lo as int,
            ss@,
            last + 1,
            self.bool_gates.deep_view(),
            self.rsx_gates.deep_view(),
            self.file@,
            self.component@,
        );
        let mut out: Vec<SignalIssue> = Vec::new();
        let mut k: usize = 0;
        while k < ss.len()
            invariant
                self.wf(),
                last < self.t.len(),
                k <= ss.len(),
                forall|m: int| 0 <= m < ss.len() ==> self.lo <= #[trigger] ss[m] < self.t.len(),
                rule == ending(
                    self.t@,
                    self.lo as int,
                    ss@,
                    last + 1,
                    self.bool_gates.deep_view(),
                    self.rsx_gates.deep_view(),
                    self.file@,
                    self.component@,
                ),
                out.deep_view() == gather(0, k as int, rule),
            decreases ss.len() - k,
        {
            let s = ss[ss.len() - 1 - k];
            if stop_of(self.t, s) == last + 1 {
                put_all(&mut out, self.flush_pending_issues(s));
            }
            k += 1;
        }
        out
    }

    /// The issues on the tasks that effects in the body spawn.
    pub fn issues(&self) -> (r: Vec<SignalIssue>)
        requires
            self.wf(),
        ensures
            r.deep_view() == spawn_issues(
                self.t@,
                self.lo as int,
                self.hi as int,
                self.bool_gates.deep_view(),
                self.rsx_gates.deep_view(),
                self.file@,
                self.component@,
            ),
    {
        let ss = self.spawns();
        let ghost rule = ending_at(
            self.t@,
            self.lo as int,
            ss@,
            self.bool_gates.deep_view(),
            self.rsx_gates.deep_view(),
            self.file@,
            self.component@,
        );
        let mut out: Vec<SignalIssue> = Vec::new();
        let mut last: usize = self.lo;
        while last < self.t.len()
            invariant
                self.wf(),
                self.lo <= last <= self.t.len(),
                forall|m: int| 0 <= m < ss.len() ==> self.lo <= #[trigger] ss[m] < self.t.len(),
                rule == ending_at(
                    self.t@,
                    self.lo as int,
                    ss@,
                    self.bool_gates.deep_view(),
                    self.rsx_gates.deep_view(),
                    self.file@,
                    self.component@,
                ),
                out.deep_view() == gather(self.lo as int, last as int, rule),
            decreases self.t.len() - last,
        {
            put_all(&mut out, self.ending_issues(&ss, last));
            last += 1;
        }
        out
    }
}

// ---------------------------------------------------------------------------
// Effects that navigate
// ---------------------------------------------------------------------------

/// The innermost effect between `lo` and `hi` that node `j` stands in.
pub open spec fn enclosing(t: Seq<Node>, lo: int, hi: int, j: int) -> Option<int>
    decreases hi - lo,
{
    if hi <= lo {
        None
    } else if effect(t, hi - 1) && stop(t, hi - 1) > j {
        Some(hi - 1)
    } else {
        enclosing(t, lo, hi - 1, j)
    }
}

fn enclosing_of(t: &Vec<Node>, lo: usize, j: usize) -> (r: Option<usize>)
    requires
        lo <= j < t.len(),
    ensures
        match r {
            Some(e) => enclosing(t@, lo as int, j as int, j as int) == Some(e as int) && lo <= e < j,
            None => enclosing(t@, lo as int, j as int, j as int) is None,
        },
{
    let mut k: usize = j;
    while k > lo
        invariant
            lo <= k <= j < t.len(),
            enclosing(t@, lo as int, j as int, j as int) == enclosing(
                t@,
                lo as int,
                k as int,
                j as int,
            ),
        decreases k,
    {
        if is_effect(t, k - 1) && stop_of(t, k - 1) > j {
            return Some(k - 1);
        }
        k -= 1;
    }
    None
}

/// Node `j` navigates: one of the four methods, on a navigator.
pub open spec fn navigates(t: Seq<Node>, j: int, navs: Seq<Seq<char>>) -> bool {
    let m = t[j].name@;
    &&& t[j].kind == Kind::MethodCall
    &&& m == "push"@ || m == "replace"@ || m == "go_back"@ || m == "go_forward"@
    &&& operand_ident(t, j, 0) matches Some(name) && (navs.contains(name) || name == "nav"@ || name
        == "navigator"@ || name == "router"@)
}

/// Node `j` is the first to navigate in its innermost effect.
pub open spec fn first_navigation(t: Seq<Node>, lo: int, j: int, navs: Seq<Seq<char>>) -> bool {
    &&& navigates(t, j, navs)
    &&& enclosing(t, lo, j, j) is Some
    &&& forall|k: int|
        lo <= k < j && #[trigger] navigates(t, k, navs) ==> enclosing(t, lo, k, k) != enclosing(
            t,
            lo,
            j,
            j,
        )
}

pub open spec fn navigation_at(
    t: Seq<Node>,
    lo: int,
    navs: Seq<Seq<char>>,
    file: Seq<char>,
    component: Seq<char>,
) -> spec_fn(int) -> Seq<SignalIssueView> {
    |j: int|
        {
            let last = effect_line(t, lo, j);
            only_if(
                first_navigation(t, lo, j, navs),
                issue(
                    "hydration_unsafe_effect"@,
                    navigate_message(),
                    file,
                    if last > 0 {
                        last
                    } else {
                        t[j].line
                    },
                    component,
                    None,
                    None,
                ),
            )
        }
}

/// A body in which effects may navigate, and the names of its navigators.
pub struct EffectNavigateVisitor<'a> {
    pub t: &'a Vec<Node>,
    pub lo: usize,
    pub hi: usize,
    pub nav_bindings: &'a Vec<String>,
    pub file: &'a str,
    pub component: &'a str,
}

impl<'a> EffectNavigateVisitor<'a> {
    pub open spec fn wf(&self) -> bool {
        self.lo <= self.hi <= self.t.len()
    }

    fn is_navigation(&self, j: usize) -> (r: bool)
        requires
            j < self.t.len(),
        ensures
            r == navigates(self.t@, j as int, self.nav_bindings.deep_view()),
    {
        let t = self.t;
        let m = t[j].name.as_str();
        if t[j].kind != Kind::MethodCall || !(same(m, "push") || same(m, "replace") || same(
            m,
            "go_back",
        ) || same(m, "go_forward")) {
            return false;
        }
        match operand_ident_of(t, j, 0) {
            Some(name) => {
                let name = name.as_str();
                holds(self.nav_bindings, name) || same(name, "nav") || same(name, "navigator")
                    || same(name, "router")
            },
            None => false,
        }
    }

    fn is_first(&self, j: usize) -> (r: bool)
        requires
            self.wf(),
            self.lo <= j < self.t.len(),
        ensures
            r == first_navigation(
                self.t@,
                self.lo as int,
                j as int,
                self.nav_bindings.deep_view(),
            ),
    {
        let t = self.t;
        let lo = self.lo;
        let ghost navs = self.nav_bindings.deep_view();
        if !self.is_navigation(j) {
            return false;
        }
        let e = match enclosing_of(t, lo, j) {
            Some(e) => e,
            None => return false,
        };
        let mut k: usize = lo;
        while k < j
            invariant
                self.wf(),
                t == self.t,
                lo == self.lo,
                navs == self.nav_bindings.deep_view(),
                lo <= k <= j < t.len(),
                enclosing(t@, lo as int, j as int, j as int) == Some(e as int),
                forall|m: int|
                    lo <= m < k && #[trigger] navigates(t@, m, navs) ==> enclosing(
                        t@,
                        lo as int,
                        m,
                        m,
                    ) != Some(e as int),
            decreases j - k,
        {
            if self.is_navigation(k) {
                match enclosing_of(t, lo, k) {
                    Some(x) => {
                        if x == e {
                            assert(navigates(t@, k as int, navs));
                            return false;
                        }
                    },
                    None => {},
                }
            }
            k += 1;
        }
        true
    }

    /// Adds the issue on the navigation at `j`. Its line is that of the last
    /// effect that starts before it.
    pub fn flag(&self, j: usize, issues: &mut Vec<SignalIssue>)
        requires
            self.wf(),
            self.lo <= j < self.t.len(),
        ensures
            final(issues).deep_view() == old(issues).deep_view().push(
                issue(
                    "hydration_unsafe_effect"@,
                    navigate_message(),
                    self.file@,
                    if effect_line(self.t@, self.lo as int, j as int) > 0 {
                        effect_line(self.t@, self.lo as int, j as int)
                    } else {
                        self.t@[j as int].line
                    },
                    self.component@,
                    None,
                    None,
                ),
            ),
    {
        let last = effect_line_of(self.t, self.lo, j);
        let line = if last > 0 {
            last
        } else {
            self.t[j].line
        };
        put(
            issues,
            issue_of(
                "hydration_unsafe_effect",
                navigate_message_of(),
                self.file,
                line,
                self.component,
                None,
                None,
            ),
        );
    }

    /// One issue for each effect in the body that navigates.
    pub fn issues(&self) -> (r: Vec<SignalIssue>)
        requires
            self.wf(),
        ensures
            r.deep_view() == gather(
                self.lo as int,
                self.hi as int,
                navigation_at(
                    self.t@,
                    self.lo as int,
                    self.nav_bindings.deep_view(),
                    self.file@,
                    self.component@,
                ),
            ),
    {
        let ghost rule = navigation_at(
            self.t@,
            self.lo as int,
            self.nav_bindings.deep_view(),
            self.file@,
            self.component@,
        );
        let mut out: Vec<SignalIssue> = Vec::new();
        let mut j: usize = self.lo;
        while j < self.hi
            invariant
                self.wf(),
                self.lo <= j <= self.hi,
                rule == navigation_at(
                    self.t@,
                    self.lo as int,
                    self.nav_bindings.deep_view(),
                    self.file@,
                    self.component@,
                ),
                out.deep_view() == gather(self.lo as int, j as int, rule),
            decreases self.hi - j,
        {
            if self.is_first(j) {
                self.flag(j, &mut out);
            }
            j += 1;
        }
        out
    }
}

/// An effect is reported once, however often it navigates.
pub proof fn law_once_per_effect(t: Seq<Node>, lo: int, navs: Seq<Seq<char>>, j: int, k: int)
    requires
        lo <= j,
        lo <= k,
        first_navigation(t, lo, j, navs),
        first_navigation(t, lo, k, navs),
        enclosing(t, lo, j, j) == enclosing(t, lo, k, k),
    ensures
        j == k,
{
    if j < k {
        assert(navigates(t, j, navs));
    } else if k < j {
        assert(navigates(t, k, navs));
    }
}

} // verus!
