//! The names that the statements of a component's body bind.
use vstd::prelude::*;

use crate::order::{distinct, distinct_of, gather, only_if, put};
use crate::scan::{call_tail, call_tail_of, pat_name, pat_name_of};
use crate::tape::{lemma_operand_bounds, operand, operand_of, stop, stop_of, Kind, Node};
use crate::text::same;

verus! {

/// The kinds of expression through which a value is followed to the call that
/// made it.
pub open spec fn passes(kind: Kind) -> bool {
    kind == Kind::MethodCall || kind == Kind::Try || kind == Kind::Await || kind == Kind::Paren
}

/// The last segment of the path that the call at the root of `i` calls.
pub open spec fn init_tail(t: Seq<Node>, i: int) -> Option<Seq<char>>
    decreases t.len() - i,
{
    if !(0 <= i < t.len()) {
        None
    } else if passes(t[i].kind) {
        proof {
            lemma_operand_bounds(t, i, 0);
        }
        match operand(t, i, 0) {
            Some(p) => init_tail(t, p),
            None => None,
        }
    } else {
        call_tail(t, i)
    }
}

pub fn init_call_tail(t: &Vec<Node>, i: usize) -> (r: Option<String>)
    requires
        i < t.len(),
    ensures
        r.deep_view() == init_tail(t@, i as int),
{
    let mut at: usize = i;
    while t[at].kind == Kind::MethodCall || t[at].kind == Kind::Try || t[at].kind == Kind::Await
        || t[at].kind == Kind::Paren
        invariant
            at < t.len(),
            init_tail(t@, i as int) == init_tail(t@, at as int),
        decreases t.len() - at,
    {
        match operand_of(t, at, 0) {
            Some(p) => at = p,
            None => return None,
        }
    }
    call_tail_of(t, at)
}

/// Node `j` is a `let` with an initial value directly in the block at `b`: its
/// pattern and that value.
pub open spec fn binding(t: Seq<Node>, b: int, j: int) -> Option<(int, int)> {
    if t[j].kind == Kind::Local && t[j].parent == b && t[j].flag {
        match (operand(t, j, 0), operand(t, j, 1)) {
            (Some(p), Some(e)) => Some((p, e)),
            _ => None,
        }
    } else {
        None
    }
}

pub fn binding_of(t: &Vec<Node>, b: usize, j: usize) -> (r: Option<(usize, usize)>)
    requires
        j < t.len(),
    ensures
        match r {
            Some((p, e)) => binding(t@, b as int, j as int) == Some((p as int, e as int)) && j < p
                < t.len() && j < e < t.len(),
            None => binding(t@, b as int, j as int) is None,
        },
{
    if t[j].kind != Kind::Local || t[j].parent != b || !t[j].flag {
        return None;
    }
    match (operand_of(t, j, 0), operand_of(t, j, 1)) {
        (Some(p), Some(e)) => Some((p, e)),
        _ => None,
    }
}

/// The name that statement `j` binds to the result of a call of `hook`.
pub open spec fn bound_by(t: Seq<Node>, b: int, hook: spec_fn(Seq<char>) -> bool) -> spec_fn(
    int,
) -> Seq<Seq<char>> {
    |j: int|
        match binding(t, b, j) {
            Some((p, e)) => match (pat_name(t, p), init_tail(t, e)) {
                (Some(name), Some(tail)) => only_if(hook(tail), name),
                _ => Seq::empty(),
            },
            None => Seq::empty(),
        }
}

pub open spec fn is_use_signal() -> spec_fn(Seq<char>) -> bool {
    |tail: Seq<char>| tail == "use_signal"@
}

pub open spec fn is_navigator_hook() -> spec_fn(Seq<char>) -> bool {
    |tail: Seq<char>|
        tail == "use_navigator"@ || tail == "use_router"@ || tail == "use_router_state"@ || tail
            == "navigator"@
}

/// The names that the statements of the block at `b` bind to signals.
pub open spec fn signals(t: Seq<Node>, b: int) -> Seq<Seq<char>> {
    distinct(gather(b, stop(t, b), bound_by(t, b, is_use_signal())))
}

/// The names that the statements of the block at `b` bind to navigators.
pub open spec fn navigators(t: Seq<Node>, b: int) -> Seq<Seq<char>> {
    distinct(gather(b, stop(t, b), bound_by(t, b, is_navigator_hook())))
}

pub fn collect_use_signal_bindings(t: &Vec<Node>, b: usize) -> (r: Vec<String>)
    requires
        b < t.len(),
    ensures
        r.deep_view() == signals(t@, b as int),
{
    let end = stop_of(t, b);
    let mut out: Vec<String> = Vec::new();
    let mut j: usize = b;
    while j < end
        invariant
            b <= j <= end <= t.len(),
            out.deep_view() == gather(b as int, j as int, bound_by(t@, b as int, is_use_signal())),
        decreases end - j,
    {
        match binding_of(t, b, j) {
            Some((p, e)) => match (pat_name_of(t, p), init_call_tail(t, e)) {
                (Some(name), Some(tail)) => {
                    if same(tail.as_str(), "use_signal") {
                        put(&mut out, name);
                    }
                },
                _ => {},
            },
            None => {},
        }
        j += 1;
    }
    distinct_of(&out)
}

pub fn collect_navigator_bindings(t: &Vec<Node>, b: usize) -> (r: Vec<String>)
    requires
        b < t.len(),
    ensures
        r.deep_view() == navigators(t@, b as int),
{
    let end = stop_of(t, b);
    let mut out: Vec<String> = Vec::new();
    let mut j: usize = b;
    while j < end
        invariant
            b <= j <= end <= t.len(),
            out.deep_view() == gather(
                b as int,
                j as int,
                bound_by(t@, b as int, is_navigator_hook()),
            ),
        decreases end - j,
    {
        match binding_of(t, b, j) {
            Some((p, e)) => match (pat_name_of(t, p), init_call_tail(t, e)) {
                (Some(name), Some(tail)) => {
                    let tail = tail.as_str();
                    if same(tail, "use_navigator") || same(tail, "use_router") || same(
                        tail,
                        "use_router_state",
                    ) || same(tail, "navigator") {
                        put(&mut out, name);
                    }
                },
                _ => {},
            },
            None => {},
        }
        j += 1;
    }
    distinct_of(&out)
}

/// The closure that is the first argument of the call of `use_signal` at `e`:
/// its body.
pub open spec fn signal_init(t: Seq<Node>, e: int) -> Option<int> {
    if call_tail(t, e) == Some("use_signal"@) {
        match operand(t, e, 1) {
            Some(c) => if t[c].kind == Kind::Closure {
                operand(t, c, (t[c].count + 1) as nat)
            } else {
                None
            },
            None => None,
        }
    } else {
        None
    }
}

pub fn signal_init_of(t: &Vec<Node>, e: usize) -> (r: Option<usize>)
    requires
        e < t.len(),
    ensures
        match r {
            Some(b) => signal_init(t@, e as int) == Some(b as int) && e < b < t.len(),
            None => signal_init(t@, e as int) is None,
        },
{
    match call_tail_of(t, e) {
        Some(tail) => {
            if !same(tail.as_str(), "use_signal") {
                return None;
            }
        },
        None => return None,
    }
    match operand_of(t, e, 1) {
        Some(c) => {
            if t[c].kind != Kind::Closure {
                return None;
            }
            if t[c].count == usize::MAX {
                proof {
                    crate::tape::lemma_hop_count(
                        t@,
                        t[c as int].first as int,
                        (usize::MAX + 1) as nat,
                        stop(t@, c as int),
                    );
                }
                return None;
            }
            operand_of(t, c, t[c].count + 1)
        },
        None => None,
    }
}

} // verus!
