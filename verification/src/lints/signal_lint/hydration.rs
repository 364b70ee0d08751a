//! Browser state read while a component renders.
use vstd::prelude::*;

use super::report::{issue, issue_of, SignalIssue, SignalIssueView};
use crate::order::{gather, put};
use crate::scan::{call_tail, call_tail_of, inside, reach};
use crate::tape::{operand, operand_of, stop_of, Kind, Node};
use crate::text::{cat2, same};

verus! {

/// A hook whose argument runs after hydration.
pub open spec fn deferring(name: Seq<char>) -> bool {
    ||| name == "use_future"@
    ||| name == "use_effect"@
    ||| name == "use_resource"@
    ||| name == "use_memo"@
    ||| name == "spawn"@
    ||| name == "use_coroutine"@
}

fn is_deferring(name: &str) -> (r: bool)
    ensures
        r == deferring(name@),
{
    same(name, "use_future")
        || same(name, "use_effect")
        || same(name, "use_resource")
        || same(name, "use_memo")
        || same(name, "spawn")
        || same(name, "use_coroutine")
}

/// Node `j` calls a hook whose argument runs after hydration.
pub open spec fn deferred_call(t: Seq<Node>, j: int) -> bool {
    call_tail(t, j) matches Some(name) && deferring(name)
}

fn is_deferred_call(t: &Vec<Node>, j: usize) -> (r: bool)
    requires
        j < t.len(),
    ensures
        r == deferred_call(t@, j as int),
{
    match call_tail_of(t, j) {
        Some(name) => is_deferring(name.as_str()),
        None => false,
    }
}

/// What does not run while the component renders.
pub open spec fn deferred_at(t: Seq<Node>) -> spec_fn(int) -> bool {
    |m: int| t[m].kind == Kind::Closure || t[m].kind == Kind::Async || deferred_call(t, m)
}

/// The browser state that node `j` reads, as a report calls it.
pub open spec fn browser_read(t: Seq<Node>, j: int) -> Option<Seq<char>> {
    if t[j].kind == Kind::MethodCall {
        if t[j].name@ == "local_storage"@ {
            Some("`Window::local_storage()` call"@)
        } else if t[j].name@ == "session_storage"@ {
            Some("`Window::session_storage()` call"@)
        } else if t[j].name@ == "cookie"@ {
            Some("`Document::cookie()` call"@)
        } else {
            None
        }
    } else if t[j].kind == Kind::Call {
        match operand(t, j, 0) {
            Some(f) => if t[f].kind != Kind::Path || t[f].count < 2 {
                None
            } else if t[f].text@ == "LocalStorage"@ {
                Some("`LocalStorage::*` browser read"@)
            } else if t[f].text@ == "SessionStorage"@ {
                Some("`SessionStorage::*` browser read"@)
            } else {
                None
            },
            None => None,
        }
    } else {
        None
    }
}

fn browser_read_of(t: &Vec<Node>, j: usize) -> (r: Option<&'static str>)
    requires
        j < t.len(),
    ensures
        match r {
            Some(s) => browser_read(t@, j as int) == Some(s@),
            None => browser_read(t@, j as int) is None,
        },
{
    if t[j].kind == Kind::MethodCall {
        let name = t[j].name.as_str();
        if same(name, "local_storage") {
            Some("`Window::local_storage()` call")
        } else if same(name, "session_storage") {
            Some("`Window::session_storage()` call")
        } else if same(name, "cookie") {
            Some("`Document::cookie()` call")
        } else {
            None
        }
    } else if t[j].kind == Kind::Call {
        match operand_of(t, j, 0) {
            Some(f) => if t[f].kind != Kind::Path || t[f].count < 2 {
                None
            } else if same(t[f].text.as_str(), "LocalStorage") {
                Some("`LocalStorage::*` browser read")
            } else if same(t[f].text.as_str(), "SessionStorage") {
                Some("`SessionStorage::*` browser read")
            } else {
                None
            },
            None => None,
        }
    } else {
        None
    }
}

pub open spec fn hydration_issue(
    file: Seq<char>,
    component: Seq<char>,
    kind: Seq<char>,
    line: usize,
) -> SignalIssueView {
    issue(
        "hydration_browser_read"@,
        kind
            + " in component body — SSR has no window, so the first client render reads different state and triggers a hydration flash. Move it inside `use_future` / `use_effect` / `spawn`, or guard with `#[cfg(target_arch = \"wasm32\")]`."@,
        file,
        line,
        component,
        None,
        None,
    )
}

/// Adds the issue on the browser read `kind` at `line`.
pub fn emit_hydration_issue(
    issues: &mut Vec<SignalIssue>,
    file: &str,
    component: &str,
    kind: &str,
    line: usize,
)
    ensures
        final(issues).deep_view() == old(issues).deep_view().push(
            hydration_issue(file@, component@, kind@, line),
        ),
{
    let message = cat2(
        kind,
        " in component body — SSR has no window, so the first client render reads different state and triggers a hydration flash. Move it inside `use_future` / `use_effect` / `spawn`, or guard with `#[cfg(target_arch = \"wasm32\")]`.",
    );
    put(issues, issue_of("hydration_browser_read", message, file, line, component, None, None));
}

/// The issue that node `j` of a body that starts at `lo` gives rise to: a read
/// of browser state that nothing defers.
pub open spec fn render_read(
    t: Seq<Node>,
    lo: int,
    file: Seq<char>,
    component: Seq<char>,
) -> spec_fn(
    int,
) -> Seq<SignalIssueView> {
    |j: int|
        if inside(t, lo, j, deferred_at(t)) || deferred_call(t, j) {
            Seq::empty()
        } else {
            match browser_read(t, j) {
                Some(kind) => seq![hydration_issue(file, component, kind, t[j].line)],
                None => Seq::empty(),
            }
        }
}

/// The reads of browser state between `lo` and `hi` that run while the
/// component renders.
pub fn check_hydration(t: &Vec<Node>, lo: usize, hi: usize, file: &str, component: &str) -> (r: Vec<
    SignalIssue,
>)
    requires
        lo <= hi <= t.len(),
    ensures
        r.deep_view() == gather(
            lo as int,
            hi as int,
            render_read(t@, lo as int, file@, component@),
        ),
{
    let mut out: Vec<SignalIssue> = Vec::new();
    let mut until: usize = lo;
    let mut j: usize = lo;
    while j < hi
        invariant
            lo <= j <= hi <= t.len(),
            until == reach(t@, lo as int, j as int, deferred_at(t@)),
            out.deep_view() == gather(
                lo as int,
                j as int,
                render_read(t@, lo as int, file@, component@),
            ),
        decreases hi - j,
    {
        let deferred = is_deferred_call(t, j);
        if j >= until && !deferred {
            match browser_read_of(t, j) {
                Some(kind) => emit_hydration_issue(&mut out, file, component, kind, t[j].line),
                None => {},
            }
        }
        if deferred || t[j].kind == Kind::Closure || t[j].kind == Kind::Async {
            let end = stop_of(t, j);
            if end > until {
                until = end;
            }
        }
        j += 1;
    }
    out
}

} // verus!
