//! Hooks inside loops.
use vstd::prelude::*;

use super::report::{issue, issue_of, SignalIssue, SignalIssueView};
use crate::order::{gather, put, put_all};
use crate::scan::{
    call_tail, call_tail_of, group, inside, is_group, is_rsx, kids, kids_of, reach, rsx,
};
use crate::tape::{operand, operand_of, stop_of, Kind, Node};
use crate::text::{cat3, same};

verus! {

/// A hook that must not run in a loop.
pub open spec fn hook(name: Seq<char>) -> bool {
    ||| name == "use_signal"@
    ||| name == "use_memo"@
    ||| name == "use_resource"@
    ||| name == "use_effect"@
}

pub fn is_hook_name(name: &str) -> (r: bool)
    ensures
        r == hook(name@),
{
    same(name, "use_signal")
        || same(name, "use_memo")
        || same(name, "use_resource")
        || same(name, "use_effect")
}

/// A word that starts a loop.
pub open spec fn loop_word(name: Seq<char>) -> bool {
    ||| name == "for"@
    ||| name == "while"@
    ||| name == "loop"@
}

fn is_loop_word(name: &str) -> (r: bool)
    ensures
        r == loop_word(name@),
{
    same(name, "for")
        || same(name, "while")
        || same(name, "loop")
}

pub open spec fn hook_message(kind: Seq<char>) -> Seq<char> {
    "`"@ + kind
        + "` inside a loop body — a new hook is created on every iteration; lift it out or use a `Vec<Signal<_>>` constructed once"@
}

pub open spec fn hook_issue(
    file: Seq<char>,
    component: Seq<char>,
    kind: Seq<char>,
    line: usize,
) -> SignalIssueView {
    issue("hook_in_loop"@, hook_message(kind), file, line, component, None, None)
}

/// Adds the issue on the hook `kind` at `line`.
pub fn emit_hook_issue(
    issues: &mut Vec<SignalIssue>,
    file: &str,
    component: &str,
    kind: &str,
    line: usize,
)
    ensures
        final(issues).deep_view() == old(issues).deep_view().push(
            hook_issue(file@, component@, kind@, line),
        ),
{
    let message = cat3(
        "`",
        kind,
        "` inside a loop body — a new hook is created on every iteration; lift it out or use a `Vec<Signal<_>>` constructed once",
    );
    put(issues, issue_of("hook_in_loop", message, file, line, component, None, None));
}

// ---------------------------------------------------------------------------
// Tokens
// ---------------------------------------------------------------------------

/// The number of the first token behind number `i` that is a group in braces.
pub open spec fn next_brace(t: Seq<Node>, ks: Seq<usize>, i: int) -> Option<int>
    decreases ks.len() - i,
{
    if i < 0 || i + 1 >= ks.len() {
        None
    } else if group(t, ks[i + 1] as int, "{"@) {
        Some(i + 1)
    } else {
        next_brace(t, ks, i + 1)
    }
}

pub proof fn lemma_next_brace(t: Seq<Node>, ks: Seq<usize>, i: int)
    ensures
        next_brace(t, ks, i) matches Some(b) ==> i < b < ks.len(),
    decreases ks.len() - i,
{
    if i >= 0 && i + 1 < ks.len() && !group(t, ks[i + 1] as int, "{"@) {
        lemma_next_brace(t, ks, i + 1);
    }
}

pub fn find_next_brace_group(t: &Vec<Node>, ks: &Vec<usize>, start: usize) -> (r: Option<usize>)
    requires
        start < ks.len(),
        forall|k: int| 0 <= k < ks.len() ==> #[trigger] ks[k] < t.len(),
    ensures
        match r {
            Some(b) => next_brace(t@, ks@, start as int) == Some(b as int) && start < b < ks.len(),
            None => next_brace(t@, ks@, start as int) is None,
        },
{
    let mut k: usize = start + 1;
    while k < ks.len()
        invariant
            start < k <= ks.len(),
            forall|m: int| 0 <= m < ks.len() ==> #[trigger] ks[m] < t.len(),
            next_brace(t@, ks@, start as int) == next_brace(t@, ks@, k - 1),
        decreases ks.len() - k,
    {
        if is_group(t, ks[k], "{") {
            return Some(k);
        }
        k += 1;
    }
    None
}

/// Token number `i` is a hook and its arguments follow.
pub open spec fn hook_token(t: Seq<Node>, ks: Seq<usize>, i: int) -> bool {
    t[ks[i] as int].kind == Kind::TokIdent && hook(t[ks[i] as int].name@) && i + 1 < ks.len()
        && group(t, ks[i + 1] as int, "("@)
}

/// The hooks in loops among the tokens of `g` from number `i` on. What stands
/// between the word of a loop and its braces is not looked at.
pub open spec fn token_hooks(
    t: Seq<Node>,
    g: int,
    i: int,
    in_loop: bool,
    file: Seq<char>,
    component: Seq<char>,
) -> Seq<SignalIssueView>
    decreases t.len() - g, kids(t, g).len() - i,
{
    let ks = kids(t, g);
    if i < 0 || i >= ks.len() {
        Seq::empty()
    } else {
        proof {
            lemma_next_brace(t, ks, i);
        }
        let j = ks[i] as int;
        let brace = if t[j].kind == Kind::TokIdent && loop_word(t[j].name@) {
            next_brace(t, ks, i)
        } else {
            None
        };
        match brace {
            Some(b) => {
                let body = if g < ks[b] < t.len() {
                    token_hooks(t, ks[b] as int, 0, true, file, component)
                } else {
                    Seq::empty()
                };
                body + token_hooks(t, g, b + 1, in_loop, file, component)
            },
            None => {
                let own = if in_loop && hook_token(t, ks, i) {
                    seq![hook_issue(file, component, t[j].name@, t[j].line)]
                } else {
                    Seq::empty()
                };
                let inner = if t[j].kind == Kind::TokGroup && g < j < t.len() {
                    token_hooks(t, j, 0, in_loop, file, component)
                } else {
                    Seq::empty()
                };
                own + inner + token_hooks(t, g, i + 1, in_loop, file, component)
            },
        }
    }
}

/// The hooks in loops inside the macro or group at `g`.
pub fn lint_rsx_tokens(t: &Vec<Node>, g: usize, in_loop: bool, file: &str, component: &str) -> (r:
    Vec<SignalIssue>)
    requires
        g < t.len(),
    ensures
        r.deep_view() == token_hooks(t@, g as int, 0, in_loop, file@, component@),
    decreases t.len() - g,
{
    let ks = kids_of(t, g);
    let mut out: Vec<SignalIssue> = Vec::new();
    let ghost all = token_hooks(t@, g as int, 0, in_loop, file@, component@);
    let mut i: usize = 0;
    assert(out.deep_view() + all =~= all);
    while i < ks.len()
        invariant
            g < t.len(),
            i <= ks.len(),
            ks@ == kids(t@, g as int),
            forall|k: int| 0 <= k < ks.len() ==> g < #[trigger] ks[k] < t.len(),
            out.deep_view() + token_hooks(t@, g as int, i as int, in_loop, file@, component@)
                =~= all,
        decreases ks.len() - i,
    {
        let j = ks[i];
        let ghost before = out.deep_view();
        let brace = if t[j].kind == Kind::TokIdent && is_loop_word(t[j].name.as_str()) {
            find_next_brace_group(t, &ks, i)
        } else {
            None
        };
        match brace {
            Some(b) => {
                put_all(&mut out, lint_rsx_tokens(t, ks[b], true, file, component));
                i = b + 1;
            },
            None => {
                if in_loop && t[j].kind == Kind::TokIdent && is_hook_name(t[j].name.as_str()) && i
                    + 1 < ks.len() && is_group(t, ks[i + 1], "(") {
                    emit_hook_issue(&mut out, file, component, t[j].name.as_str(), t[j].line);
                }
                if t[j].kind == Kind::TokGroup {
                    put_all(&mut out, lint_rsx_tokens(t, j, in_loop, file, component));
                }
                i += 1;
            },
        }
    }
    out
}

// ---------------------------------------------------------------------------
// Expressions
// ---------------------------------------------------------------------------

pub open spec fn loop_at(t: Seq<Node>) -> spec_fn(int) -> bool {
    |m: int| t[m].kind == Kind::ForLoop || t[m].kind == Kind::While || t[m].kind == Kind::Loop
}

/// The issues that node `j` of a body that starts at `lo` gives rise to.
pub open spec fn loop_hooks(
    t: Seq<Node>,
    lo: int,
    file: Seq<char>,
    component: Seq<char>,
) -> spec_fn(
    int,
) -> Seq<SignalIssueView> {
    |j: int|
        {
            let in_loop = inside(t, lo, j, loop_at(t));
            if rsx(t, j) {
                token_hooks(t, j, 0, in_loop, file, component)
            } else if in_loop {
                match call_tail(t, j) {
                    Some(name) => if hook(name) {
                        seq![
                            hook_issue(file, component, name, t[operand(t, j, 0)->0].line),
                        ]
                    } else {
                        Seq::empty()
                    },
                    None => Seq::empty(),
                }
            } else {
                Seq::empty()
            }
        }
}

/// The hooks that run in a loop between `lo` and `hi`.
pub fn check_loops(t: &Vec<Node>, lo: usize, hi: usize, file: &str, component: &str) -> (r: Vec<
    SignalIssue,
>)
    requires
        lo <= hi <= t.len(),
    ensures
        r.deep_view() == gather(
            lo as int,
            hi as int,
            loop_hooks(t@, lo as int, file@, component@),
        ),
{
    let mut out: Vec<SignalIssue> = Vec::new();
    let mut until: usize = lo;
    let mut j: usize = lo;
    while j < hi
        invariant
            lo <= j <= hi <= t.len(),
            until == reach(t@, lo as int, j as int, loop_at(t@)),
            out.deep_view() == gather(
                lo as int,
                j as int,
                loop_hooks(t@, lo as int, file@, component@),
            ),
        decreases hi - j,
    {
        if is_rsx(t, j) {
            put_all(&mut out, lint_rsx_tokens(t, j, j < until, file, component));
        } else if j < until {
            match call_tail_of(t, j) {
                Some(name) => {
                    if is_hook_name(name.as_str()) {
                        match operand_of(t, j, 0) {
                            Some(f) => emit_hook_issue(
                                &mut out,
                                file,
                                component,
                                name.as_str(),
                                t[f].line,
                            ),
                            None => {},
                        }
                    }
                },
                None => {},
            }
        }
        if t[j].kind == Kind::ForLoop || t[j].kind == Kind::While || t[j].kind == Kind::Loop {
            let end = stop_of(t, j);
            if end > until {
                until = end;
            }
        }
        j += 1;
    }
    out
}

} // verus!
