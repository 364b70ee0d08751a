//! What is found of signals that nobody watches, in terms of the nodes.
use vstd::prelude::*;

use super::bindings::{is_use_signal, signals};
use super::fence::{
    bump_at, bumps, candidate_at, candidate_names, candidates, compared, comparison_at, fence,
    fence_at, misuses, on_left, target,
};
use super::interpolation::{
    closes, ends_name, first_at, interpolated, lemma_first_at, opens, shown, shown_at,
};
use super::laws::{
    component_in, lemma_kinds_of_issues, lemma_lets, lemma_reported, lets, nodes,
    reports_signal,
};
use crate::lints::gate_laws::{lets_counter, names_only};
use crate::order::{gather, lemma_gather_contains};
use crate::plain::{lemma_component_with_body, under};
use crate::scan::{lemma_inside, rsx_at, ScannedFile};
use crate::tape::{lemma_operand_bounds, operand, stop, Kind, Node};

verus! {

// ---------------------------------------------------------------------------
// Names in texts
// ---------------------------------------------------------------------------

proof fn lemma_first_at_later(a: Seq<char>, s: Seq<char>, i: int, p: spec_fn(char) -> bool)
    requires
        0 <= i <= s.len(),
    ensures
        first_at(a + s, a.len() + i, p) == a.len() + first_at(s, i, p),
    decreases s.len() - i,
{
    if i < s.len() {
        assert((a + s)[a.len() + i] == s[i]);
        if !p(s[i]) {
            lemma_first_at_later(a, s, i + 1, p);
        }
    }
}

proof fn lemma_interpolated_later(a: Seq<char>, s: Seq<char>, i: int)
    requires
        0 <= i,
    ensures
        interpolated(a + s, a.len() + i) == interpolated(s, i),
    decreases s.len() + 1 - i,
{
    let all = a + s;
    let n = a.len() as int;
    if i < s.len() {
        assert(all[n + i] == s[i]);
        if i + 1 < s.len() {
            assert(all[n + i + 1] == s[i + 1]);
        }
        if opens(s, i) {
            lemma_first_at_later(a, s, i + 1, ends_name());
            lemma_first_at_later(a, s, i + 1, closes());
            lemma_first_at(s, i + 1, ends_name());
            lemma_first_at(s, i + 1, closes());
            let end = first_at(s, i + 1, ends_name());
            assert(all.subrange(n + i + 1, n + end) =~= s.subrange(i + 1, end));
            lemma_interpolated_later(a, s, first_at(s, i + 1, closes()) + 1);
        } else {
            lemma_interpolated_later(a, s, i + 1);
        }
    }
}

proof fn lemma_first_here(s: Seq<char>, i: int, k: int, p: spec_fn(char) -> bool)
    requires
        0 <= i <= k < s.len(),
        p(s[k]),
        forall|m: int| i <= m < k ==> !p(#[trigger] s[m]),
    ensures
        first_at(s, i, p) == k,
    decreases k - i,
{
    if i < k {
        assert(!p(s[i]));
        lemma_first_here(s, i + 1, k, p);
    }
}

proof fn lemma_nothing_opens(a: Seq<char>, s: Seq<char>, i: int)
    requires
        0 <= i <= a.len(),
        !a.contains('{'),
    ensures
        interpolated(a + s, i) == interpolated(a + s, a.len() as int),
    decreases a.len() - i,
{
    if i < a.len() {
        assert((a + s)[i] == a[i]);
        assert(a.contains(a[i]));
        lemma_nothing_opens(a, s, i + 1);
    }
}

/// A text without braces names nothing.
pub proof fn law_plain_text_names_nothing(a: Seq<char>)
    requires
        !a.contains('{'),
    ensures
        interpolated(a, 0) == Seq::<Seq<char>>::empty(),
{
    let none = Seq::<char>::empty();
    assert(a + none =~= a);
    lemma_nothing_opens(a, none, 0);
}

/// Where a text opens its first brace, and what stands there is no second brace, it
/// names what stands up to a closing brace, a colon, a dot, an opening parenthesis or a
/// blank. After the closing brace it goes on in the same way.
pub proof fn law_text_names_what_stands_in_braces(
    a: Seq<char>,
    name: Seq<char>,
    more: Seq<char>,
    rest: Seq<char>,
)
    requires
        !a.contains('{'),
        name.len() > 0,
        name[0] != '{',
        forall|k: int|
            0 <= k < name.len() ==> (#[trigger] name[k]) != '}' && name[k] != ':' && name[k] != '.'
                && name[k] != '(' && name[k] != ' ',
        more.len() > 0 ==> more[0] == ':' || more[0] == '.' || more[0] == '(' || more[0] == ' ',
        !more.contains('}'),
    ensures
        interpolated(a + (seq!['{'] + name + more + seq!['}'] + rest), 0) == seq![name]
            + interpolated(rest, 0),
{
    let s = seq!['{'] + name + more + seq!['}'] + rest;
    let front = seq!['{'] + name + more + seq!['}'];
    lemma_nothing_opens(a, s, 0);
    lemma_interpolated_later(a, s, 0);
    let n = name.len() as int;
    let end = n + 1 + more.len();
    assert(s[0] == '{' && s[1] == name[0]);
    assert(s[end] == '}');
    assert forall|k: int| 1 <= k < n + 1 implies !ends_name()(#[trigger] s[k]) by {
        assert(s[k] == name[k - 1]);
    }
    assert(ends_name()(s[n + 1])) by {
        if more.len() > 0 {
            assert(s[n + 1] == more[0]);
        }
    }
    lemma_first_here(s, 1, n + 1, ends_name());
    assert forall|k: int| 1 <= k < end implies !closes()(#[trigger] s[k]) by {
        if k < n + 1 {
            assert(s[k] == name[k - 1]);
        } else {
            assert(s[k] == more[k - n - 1]);
            assert(more.contains(s[k]));
        }
    }
    lemma_first_here(s, 1, end, closes());
    assert(s.subrange(1, n + 1) =~= name);
    assert(s =~= front + rest);
    assert(front.len() == end + 1);
    lemma_interpolated_later(front, rest, 0);
}

/// In markup, an identifier is shown, and so is what a quoted text names.
pub proof fn law_what_markup_shows(t: Seq<Node>, lo: int, hi: int, m: int, j: int, name: Seq<char>)
    requires
        0 <= lo <= m < j < hi,
        under(t, m, j),
        t[m].kind == Kind::Macro,
        t[m].name@ == "rsx"@,
        ({
            ||| t[j].kind == Kind::TokIdent && t[j].name@ == name
            ||| {
                let s = t[j].name@;
                &&& t[j].kind == Kind::TokLit && s.len() >= 2 && s[0] == '"' && s.last() == '"'
                &&& interpolated(s.subrange(1, s.len() - 1), 0).contains(name)
            }
        }),
    ensures
        shown(t, lo, hi).contains(name),
{
    lemma_inside(t, lo, j, j, rsx_at(t));
    assert(rsx_at(t)(m) && stop(t, m) > j);
    let rule = shown_at(t, lo);
    if t[j].kind == Kind::TokIdent {
        assert(rule(j)[0] == name);
    }
    assert(rule(j).contains(name));
    lemma_gather_contains(lo, hi, rule, name);
}

// ---------------------------------------------------------------------------
// Fences
// ---------------------------------------------------------------------------

/// Node `m` adds to something or takes something off.
pub open spec fn adds(t: Seq<Node>, m: int) -> bool {
    t[m].kind == Kind::Binary && (t[m].name@ == "+="@ || t[m].name@ == "-="@)
}

/// Node `j` stands on the left of the addition at `m`.
pub open spec fn left_of(t: Seq<Node>, m: int, j: int) -> bool {
    &&& adds(t, m) && m < j
    &&& match operand(t, m, 1) {
        Some(r) => j < r,
        None => j < stop(t, m),
    }
}

/// Between `b` and `hi`, node `u` bumps the signal by a whole number, and is itself not
/// on the left of another addition.
pub open spec fn bumps_signal(t: Seq<Node>, b: int, hi: int, u: int, signal: Seq<char>) -> bool {
    &&& b <= u < hi && adds(t, u)
    &&& operand(t, u, 0) matches Some(l) && names_only(t, l, signal)
    &&& operand(t, u, 1) matches Some(v) && 0 <= v < t.len() && t[v].kind == Kind::Int
    &&& forall|m: int| b <= m < u ==> !#[trigger] left_of(t, m, u)
}

/// Node `j` stands in a comparison that begins at `b` or later.
pub open spec fn in_comparison(t: Seq<Node>, b: int, j: int) -> bool {
    exists|m: int|
        b <= m < j && (#[trigger] t[m]).kind == Kind::Binary && (t[m].name@ == "=="@ || t[m].name@
            == "!="@) && stop(t, m) > j
}

/// Node `j` stands on the left of an addition that begins at `b` or later.
pub open spec fn in_bump(t: Seq<Node>, b: int, j: int) -> bool {
    exists|m: int| b <= m < j && #[trigger] left_of(t, m, j)
}

/// The first operand of node `j` is the signal.
pub open spec fn on_signal(t: Seq<Node>, j: int, signal: Seq<char>) -> bool {
    operand(t, j, 0) matches Some(l) && names_only(t, l, signal)
}

/// Node `j` does no more with the signal than bump it or compare it.
pub open spec fn harmless(t: Seq<Node>, b: int, j: int, signal: Seq<char>) -> bool {
    &&& names_only(t, j, signal) ==> in_bump(t, b, j) || in_comparison(t, b, j)
    &&& t[j].kind == Kind::Assign || t[j].kind == Kind::MethodCall ==> !on_signal(t, j, signal)
    &&& adds(t, j) && on_signal(t, j, signal) ==> (operand(t, j, 1) matches Some(v) && 0 <= v
        < t.len() && t[v].kind == Kind::Int)
    &&& t[j].kind == Kind::TokIdent ==> t[j].name@ != signal
    &&& t[j].kind != Kind::TokLit
}

/// Between `b` and `hi`, the signal is used for nothing but bumps and comparisons.
pub open spec fn only_compared(t: Seq<Node>, b: int, hi: int, signal: Seq<char>) -> bool {
    forall|j: int| b <= j < hi ==> #[trigger] harmless(t, b, j, signal)
}

proof fn lemma_not_shown(t: Seq<Node>, b: int, hi: int, signal: Seq<char>)
    requires
        only_compared(t, b, hi, signal),
    ensures
        !shown(t, b, hi).contains(signal),
{
    let rule = shown_at(t, b);
    lemma_gather_contains(b, hi, rule, signal);
    if shown(t, b, hi).contains(signal) {
        let j = choose|j: int| b <= j < hi && (#[trigger] rule(j)).contains(signal);
        assert(harmless(t, b, j, signal));
    }
}

proof fn lemma_not_misused(
    t: Seq<Node>,
    b: int,
    hi: int,
    targets: Seq<Seq<char>>,
    j: int,
    signal: Seq<char>,
)
    requires
        b <= j < hi,
        only_compared(t, b, hi, signal),
    ensures
        !misuses(t, b, hi, targets, j, signal),
{
    assert(harmless(t, b, j, signal));
    let p = comparison_at(t);
    lemma_inside(t, b, j, j, p);
    if names_only(t, j, signal) {
        if in_bump(t, b, j) {
            let m = choose|m: int| b <= m < j && #[trigger] left_of(t, m, j);
            assert(on_left(t, m, j));
            assert(target(t, b, j));
        } else {
            let m = choose|m: int|
                b <= m < j && (#[trigger] t[m]).kind == Kind::Binary && (t[m].name@ == "=="@
                    || t[m].name@ == "!="@) && stop(t, m) > j;
            assert(p(m));
        }
    }
}

proof fn lemma_bump(t: Seq<Node>, b: int, hi: int, u: int, signal: Seq<char>)
    requires
        bumps_signal(t, b, hi, u, signal),
    ensures
        bumps(t, b, u, signal),
{
    if target(t, b, u) {
        let m = choose|m: int| b <= m < u && #[trigger] on_left(t, m, u);
        assert(left_of(t, m, u));
    }
}

/// A signal that starts as a whole number, is bumped in two places, and is otherwise
/// only compared and not shown, is found to be a fence.
pub proof fn law_fence_is_found(
    files: Seq<ScannedFile>,
    k: int,
    i: int,
    b: int,
    c: int,
    u: int,
    v: int,
    signal: Seq<char>,
)
    requires
        component_in(files, k, i, b),
        ({
            let t = nodes(files, k);
            let hi = t[b].end as int;
            &&& lets_counter(t, b, c, signal)
            &&& u != v && bumps_signal(t, b, hi, u, signal) && bumps_signal(t, b, hi, v, signal)
            &&& only_compared(t, b, hi, signal)
        }),
    ensures
        reports_signal(
            files,
            "signal_used_as_fence"@,
            files[k].path@,
            nodes(files, k)[i].name@,
            signal,
        ),
{
    let t = nodes(files, k);
    let path = files[k].path@;
    let hi = t[b].end as int;
    assert(files[k].ast->Ok_0.len() == t.len());
    lemma_component_with_body(t, i, b);
    lemma_operand_bounds(t, c, 1);
    assert(lets(t, b, c, signal, "use_signal"@));
    lemma_lets(t, b, c, signal, "use_signal"@, is_use_signal());
    let sigs = signals(t, b);
    let rule = candidate_at(t, b, sigs);
    let x = rule(c)[0];
    assert(rule(c).contains(x));
    lemma_gather_contains(b, hi, rule, x);
    let cs = candidates(t, b, sigs);
    let n = choose|n: int| 0 <= n < cs.len() && cs[n] == x;
    lemma_bump(t, b, hi, u, signal);
    lemma_bump(t, b, hi, v, signal);
    let all = gather(b, hi, bump_at(t, b, signal));
    assert(all.contains(u as usize)) by {
        assert(bump_at(t, b, signal)(u)[0] == u as usize);
        assert(bump_at(t, b, signal)(u).contains(u as usize));
        lemma_gather_contains(b, hi, bump_at(t, b, signal), u as usize);
    }
    assert(all.contains(v as usize)) by {
        assert(bump_at(t, b, signal)(v)[0] == v as usize);
        assert(bump_at(t, b, signal)(v).contains(v as usize));
        lemma_gather_contains(b, hi, bump_at(t, b, signal), v as usize);
    }
    let y = choose|y: int| 0 <= y < all.len() && all[y] == u as usize;
    let z = choose|z: int| 0 <= z < all.len() && all[z] == v as usize;
    assert(y != z);
    let targets = candidate_names(cs);
    assert forall|j: int| b <= j < hi implies !#[trigger] misuses(t, b, hi, targets, j, signal) by {
        lemma_not_misused(t, b, hi, targets, j, signal);
    }
    assert(fence(t, b, hi, targets, signal));
    lemma_not_shown(t, b, hi, signal);
    let found = fence_at(t, b, hi, cs, path, t[i].name@);
    let issue = found(n)[0];
    assert(found(n).contains(issue));
    lemma_gather_contains(0, cs.len() as int, found, issue);
    lemma_kinds_of_issues(t, i, path, 7, issue);
    lemma_reported(files, k, i, b, issue);
}

} // verus!
