//! What the signal lints find, in terms of the nodes.
use vstd::prelude::*;

use super::bindings::{
    bound_by, init_tail, is_navigator_hook, is_use_signal, navigators, signals,
};
use super::clones::{
    clone_at, clone_issues, cloned_names, cloned_props, clones, line_of, prop_issue, prop_issues,
    prop_name_at, prop_names, CloneSiteView,
};
use super::effects::{effect, enclosing, first_navigation, navigates, navigation_at};
use super::hydration::{deferred_at, deferred_call, render_read};
use super::links::{all_linked, linked};
use super::lint::{component_issues, component_issues_at, file_issues, report};
use super::loops::{
    hook, hook_issue, hook_token, lemma_next_brace, loop_at, loop_hooks, loop_word, next_brace,
    token_hooks,
};
use super::polling::{future_at, polling_at, polls, reactive_read, read_at, sleeps};
use super::report::SignalIssueView;
use crate::order::{
    distinct, gather, lemma_distinct, lemma_gather_contains, lemma_gather_split,
    lemma_sorted_contains, rank,
};
use crate::plain::{
    calls, component_with_body, group_in, lemma_calls, lemma_component_with_body,
    lemma_numbered, lemma_numbers_grow, lemma_token_number, token_in, token_of, tokens_before,
    under,
};
use crate::scan::{group, kids, lemma_inside, rsx, ScannedFile};
use crate::tape::{operand, stop, Kind, Node};

verus! {

// ---------------------------------------------------------------------------
// Reports
// ---------------------------------------------------------------------------

/// The nodes of a file that parses.
pub open spec fn nodes(files: Seq<ScannedFile>, k: int) -> Seq<Node> {
    files[k].ast->Ok_0@
}

/// File number `k` parses, and its node `i` is a component with the body `b`.
pub open spec fn component_in(files: Seq<ScannedFile>, k: int, i: int, b: int) -> bool {
    0 <= k < files.len() && files[k].ast is Ok && component_with_body(nodes(files, k), i, b)
}

/// An issue of that code is reported for that line of that component.
pub open spec fn reports(
    files: Seq<ScannedFile>,
    code: Seq<char>,
    file: Seq<char>,
    line: usize,
    component: Seq<char>,
) -> bool {
    exists|x: SignalIssueView| #[trigger]
        report(files).issues.contains(x) && x.code == code && x.file == file && x.line == line
            && x.component == Some(component)
}

/// An issue of that code is reported for that signal of that component.
pub open spec fn reports_signal(
    files: Seq<ScannedFile>,
    code: Seq<char>,
    file: Seq<char>,
    component: Seq<char>,
    signal: Seq<char>,
) -> bool {
    exists|x: SignalIssueView| #[trigger]
        report(files).issues.contains(x) && x.code == code && x.file == file && x.component
            == Some(component) && x.signal == Some(signal)
}

/// The issues on a component are reported.
pub proof fn lemma_reported(
    files: Seq<ScannedFile>,
    k: int,
    i: int,
    b: int,
    x: SignalIssueView,
)
    requires
        component_in(files, k, i, b),
        component_issues(nodes(files, k), i, files[k].path@).contains(x),
    ensures
        exists|y: SignalIssueView| #[trigger]
            report(files).issues.contains(y) && y.code == x.code && y.file == x.file && y.line
                == x.line && y.component == x.component && y.signal == x.signal && y.message
                == x.message,
{
    let t = nodes(files, k);
    let path = files[k].path@;
    lemma_component_with_body(t, i, b);
    assert(component_issues_at(t, path)(i).contains(x));
    lemma_gather_contains(0, t.len() as int, component_issues_at(t, path), x);
    assert(file_issues(files)(k).contains(x));
    lemma_gather_contains(0, files.len() as int, file_issues(files), x);
    let all = gather(0, files.len() as int, file_issues(files));
    let m = choose|m: int| 0 <= m < all.len() && all[m] == x;
    let y = linked(all, all[m]);
    assert(all_linked(all)[m] == y);
    assert(report(files).issues.contains(y));
}

/// Each part of a sum is in it.
proof fn lemma_sum<A>(
    parts: Seq<Seq<A>>,
    sum: Seq<A>,
    n: int,
    a: A,
)
    requires
        parts.len() == 8,
        sum == parts[0] + parts[1] + parts[2] + parts[3] + parts[4] + parts[5] + parts[6] + parts[7],
        0 <= n < 8,
        parts[n].contains(a),
    ensures
        sum.contains(a),
{
    let s1 = parts[0] + parts[1];
    let s2 = s1 + parts[2];
    let s3 = s2 + parts[3];
    let s4 = s3 + parts[4];
    let s5 = s4 + parts[5];
    let s6 = s5 + parts[6];
    let x = choose|x: int| 0 <= x < parts[n].len() && parts[n][x] == a;
    if n == 0 {
        assert(sum[x] == a);
    } else if n == 1 {
        assert(sum[parts[0].len() + x] == a);
    } else if n == 2 {
        assert(sum[s1.len() + x] == a);
    } else if n == 3 {
        assert(sum[s2.len() + x] == a);
    } else if n == 4 {
        assert(sum[s3.len() + x] == a);
    } else if n == 5 {
        assert(sum[s4.len() + x] == a);
    } else if n == 6 {
        assert(sum[s5.len() + x] == a);
    } else {
        assert(sum[s6.len() + x] == a);
    }
}

/// The eight kinds of issues on a component, in the order of the report.
pub open spec fn kinds_of_issues(t: Seq<Node>, i: int, file: Seq<char>) -> Seq<
    Seq<SignalIssueView>,
> {
    let (b, hi) = (crate::scan::body_start(t, i), crate::scan::body_end(t, i));
    let name = t[i].name@;
    let sigs = super::bindings::signals(t, b);
    seq![
        gather(b, hi, loop_hooks(t, b, file, name)),
        gather(b, hi, super::hydration::render_read(t, b, file, name)),
        super::effects::spawn_issues(
            t,
            b,
            hi,
            super::effects::bool_gates(t, b),
            super::effects::rsx_gates(t, b, hi),
            file,
            name,
        ),
        gather(
            b,
            hi,
            super::effects::navigation_at(t, b, super::bindings::navigators(t, b), file, name),
        ),
        gather(b, hi, super::polling::polling_at(t, b, sigs, file, name)),
        super::clones::clone_issues(
            super::clones::clones(t, b, super::clones::prop_names(t, i)),
            file,
            name,
        ),
        super::writers::many_writers(t, b, sigs, file, name),
        super::fence::fence_issues(t, b, hi, super::fence::candidates(t, b, sigs), file, name),
    ]
}

pub proof fn lemma_kinds_of_issues(
    t: Seq<Node>,
    i: int,
    file: Seq<char>,
    n: int,
    x: SignalIssueView,
)
    requires
        0 <= n < 8,
        kinds_of_issues(t, i, file)[n].contains(x),
    ensures
        component_issues(t, i, file).contains(x),
{
    lemma_sum(kinds_of_issues(t, i, file), component_issues(t, i, file), n, x);
}

// ---------------------------------------------------------------------------
// Hooks in loops
// ---------------------------------------------------------------------------

/// `name` is that of a hook that must not run in a loop.
pub open spec fn looping_hook(name: Seq<char>) -> bool {
    name == "use_signal"@ || name == "use_memo"@ || name == "use_resource"@ || name
        == "use_effect"@
}

/// Node `j` stands in a `for`, `while` or `loop` that begins at `lo` or later.
pub open spec fn looped(t: Seq<Node>, lo: int, j: int) -> bool {
    exists|m: int|
        lo <= m && #[trigger] under(t, m, j) && (t[m].kind == Kind::ForLoop || t[m].kind
            == Kind::While || t[m].kind == Kind::Loop)
}

proof fn lemma_looped(t: Seq<Node>, lo: int, j: int)
    requires
        0 <= lo <= j < t.len(),
        looped(t, lo, j),
    ensures
        crate::scan::inside(t, lo, j, loop_at(t)),
{
    let m = choose|m: int|
        lo <= m && #[trigger] under(t, m, j) && (t[m].kind == Kind::ForLoop || t[m].kind
            == Kind::While || t[m].kind == Kind::Loop);
    lemma_inside(t, lo, j, j, loop_at(t));
    assert(loop_at(t)(m) && stop(t, m) > j);
}

/// A call of `use_signal`, `use_memo`, `use_resource` or `use_effect` in a `for`, a
/// `while` or a `loop` of a component is reported, at its line.
pub proof fn law_hook_in_loop_is_found(
    files: Seq<ScannedFile>,
    k: int,
    i: int,
    b: int,
    j: int,
    f: int,
    name: Seq<char>,
)
    requires
        component_in(files, k, i, b),
        b <= j < nodes(files, k)[b].end,
        calls(nodes(files, k), j, f, name),
        looping_hook(name),
        looped(nodes(files, k), b, j),
    ensures
        reports(
            files,
            "hook_in_loop"@,
            files[k].path@,
            nodes(files, k)[f].line,
            nodes(files, k)[i].name@,
        ),
{
    let t = nodes(files, k);
    let path = files[k].path@;
    let x = hook_issue(path, t[i].name@, name, t[f].line);
    lemma_component_with_body(t, i, b);
    lemma_calls(t, j, f, name);
    lemma_looped(t, b, j);
    let rule = loop_hooks(t, b, path, t[i].name@);
    assert(rule(j)[0] == x);
    assert(rule(j).contains(x));
    lemma_gather_contains(b, t[b].end as int, rule, x);
    lemma_kinds_of_issues(t, i, path, 0, x);
    lemma_reported(files, k, i, b, x);
}

/// Node `w` is a word that begins a loop, and `c` the next group in braces behind
/// it, both directly in `g`.
pub open spec fn loop_braces(t: Seq<Node>, g: int, w: int, c: int) -> bool {
    &&& under(t, g, w) && t[w].parent == g && t[w].kind == Kind::TokIdent
    &&& t[w].name@ == "for"@ || t[w].name@ == "while"@ || t[w].name@ == "loop"@
    &&& w < c && group_in(t, g, c, "{"@)
    &&& forall|y: int| w < y < c ==> !#[trigger] group_in(t, g, y, "{"@)
}

/// Node `c` is the body of a loop among tokens.
pub open spec fn token_loop(t: Seq<Node>, c: int) -> bool {
    exists|w: int| #[trigger] loop_braces(t, t[c].parent as int, w, c)
}

/// Node `j` stands between the word of a loop and its braces.
pub open spec fn in_header(t: Seq<Node>, j: int) -> bool {
    exists|w: int, c: int| #[trigger] loop_braces(t, t[j].parent as int, w, c) && w < j < c
}

/// Neither node `j` nor a group around it, inside the macro at `m`, stands between
/// the word of a loop and its braces.
pub open spec fn past_headers(t: Seq<Node>, m: int, j: int) -> bool
    decreases j,
{
    let p = t[j].parent as int;
    !in_header(t, j) && (p == m || (m < p < j && past_headers(t, m, p)))
}

/// Node `j` of the macro at `m`, or a group around it, is the body of a loop among
/// the tokens.
pub open spec fn in_token_loop(t: Seq<Node>, m: int, j: int) -> bool
    decreases j,
{
    let p = t[j].parent as int;
    token_loop(t, j) || (m < p < j && in_token_loop(t, m, p))
}

proof fn lemma_next_brace_first(t: Seq<Node>, g: int, i: int)
    requires
        0 <= g < t.len(),
        0 <= i < kids(t, g).len(),
        t.len() <= usize::MAX,
    ensures
        match next_brace(t, kids(t, g), i) {
            Some(b) => i < b < kids(t, g).len() && group(t, kids(t, g)[b] as int, "{"@) && forall|y:
                int|
                i < y < b ==> !group(t, #[trigger] kids(t, g)[y] as int, "{"@),
            None => forall|y: int|
                i < y < kids(t, g).len() ==> !group(t, #[trigger] kids(t, g)[y] as int, "{"@),
        },
    decreases kids(t, g).len() - i,
{
    let ks = kids(t, g);
    if i + 1 < ks.len() && !group(t, ks[i + 1] as int, "{"@) {
        lemma_next_brace_first(t, g, i + 1);
    }
}

/// The numbers of a loop's word and its braces tell that it is one.
proof fn lemma_loop_braces(t: Seq<Node>, g: int, i: int)
    requires
        0 <= g < t[g].end <= t.len(),
        0 <= i < kids(t, g).len(),
        t.len() <= usize::MAX,
        t[kids(t, g)[i] as int].kind == Kind::TokIdent,
        loop_word(t[kids(t, g)[i] as int].name@),
        next_brace(t, kids(t, g), i) is Some,
    ensures
        loop_braces(
            t,
            g,
            kids(t, g)[i] as int,
            kids(t, g)[next_brace(t, kids(t, g), i)->0] as int,
        ),
{
    let ks = kids(t, g);
    let b = next_brace(t, ks, i)->0;
    lemma_next_brace_first(t, g, i);
    lemma_numbered(t, g, i);
    lemma_numbered(t, g, b);
    let w = ks[i] as int;
    let c = ks[b] as int;
    if c <= w {
        lemma_numbers_grow(t, g, c, w);
    }
    assert forall|y: int| w < y < c implies !#[trigger] group_in(t, g, y, "{"@) by {
        if group_in(t, g, y, "{"@) {
            lemma_token_number(t, g, y);
            lemma_token_number(t, g, w);
            lemma_numbers_grow(t, g, w + 1, y);
            lemma_numbers_grow(t, g, y + 1, c);
            let n = tokens_before(t, g, y);
            assert(ks[n] == y);
        }
    }
}

/// What the group `c` gives is among what the node around it gives, from its token
/// number `i` on.
proof fn lemma_group_in_level(
    t: Seq<Node>,
    g: int,
    i: int,
    c: int,
    in_loop: bool,
    file: Seq<char>,
    component: Seq<char>,
    x: SignalIssueView,
)
    requires
        t.len() <= usize::MAX,
        token_in(t, g, c),
        t[c].kind == Kind::TokGroup,
        !in_header(t, c),
        0 <= i <= tokens_before(t, g, c),
        token_hooks(
            t,
            c,
            0,
            in_loop || exists|w: int| #[trigger]
                loop_braces(t, g, w, c) && tokens_before(t, g, w) >= i,
            file,
            component,
        ).contains(x),
    ensures
        token_hooks(t, g, i, in_loop, file, component).contains(x),
    decreases kids(t, g).len() - i,
{
    let ks = kids(t, g);
    let ci = tokens_before(t, g, c);
    lemma_token_number(t, g, c);
    lemma_next_brace(t, ks, i);
    lemma_numbered(t, g, i);
    let j = ks[i] as int;
    let deep = exists|w: int| #[trigger] loop_braces(t, g, w, c) && tokens_before(t, g, w) >= i;
    let word = t[j].kind == Kind::TokIdent && loop_word(t[j].name@);
    let brace = if word {
        next_brace(t, ks, i)
    } else {
        None
    };
    if i < ci {
        if c <= j {
            lemma_numbers_grow(t, g, c, j);
        }
    }
    match brace {
        Some(b) => {
            lemma_next_brace_first(t, g, i);
            lemma_loop_braces(t, g, i);
            lemma_numbered(t, g, b);
            let e = ks[b] as int;
            let body = token_hooks(t, e, 0, true, file, component);
            let rest = token_hooks(t, g, b + 1, in_loop, file, component);
            if i == ci {
                assert(j == c);
            } else if b < ci {
                if deep {
                    let w = choose|w: int| #[trigger]
                        loop_braces(t, g, w, c) && tokens_before(t, g, w) >= i;
                    lemma_token_number(t, g, w);
                    lemma_token_number(t, g, e);
                    if tokens_before(t, g, w) <= b {
                        if e < w {
                            lemma_numbers_grow(t, g, e + 1, w);
                        }
                        if c <= e {
                            lemma_numbers_grow(t, g, c, e);
                        }
                        assert(w < e < c);
                        assert(group_in(t, g, e, "{"@));
                    }
                }
                lemma_group_in_level(t, g, b + 1, c, in_loop, file, component, x);
                let n = choose|n: int| 0 <= n < rest.len() && rest[n] == x;
                assert((body + rest)[body.len() + n] == x);
            } else if b == ci {
                assert(e == c);
                assert(loop_braces(t, g, j, c) && tokens_before(t, g, j) >= i);
                let n = choose|n: int| 0 <= n < body.len() && body[n] == x;
                assert((body + rest)[n] == x);
            } else {
                if e <= c {
                    lemma_numbers_grow(t, g, e, c);
                }
                assert(loop_braces(t, t[c].parent as int, j, e) && j < c < e);
            }
        },
        None => {
            let own = if in_loop && hook_token(t, ks, i) {
                seq![hook_issue(file, component, t[j].name@, t[j].line)]
            } else {
                Seq::empty()
            };
            let inner = if t[j].kind == Kind::TokGroup && g < j < t.len() {
                token_hooks(t, j, 0, in_loop, file, component)
            } else {
                Seq::empty()
            };
            let rest = token_hooks(t, g, i + 1, in_loop, file, component);
            if deep {
                let w = choose|w: int| #[trigger]
                    loop_braces(t, g, w, c) && tokens_before(t, g, w) >= i;
                lemma_token_number(t, g, w);
                lemma_numbers_grow(t, g, w + 1, c);
                assert(tokens_before(t, g, w) < ci);
                if tokens_before(t, g, w) == i {
                    assert(w == j);
                    lemma_next_brace_first(t, g, i);
                    assert(group(t, ks[ci] as int, "{"@));
                }
            }
            if i == ci {
                let n = choose|n: int| 0 <= n < inner.len() && inner[n] == x;
                assert((own + inner + rest)[own.len() + n] == x);
            } else {
                lemma_group_in_level(t, g, i + 1, c, in_loop, file, component, x);
                let n = choose|n: int| 0 <= n < rest.len() && rest[n] == x;
                assert((own + inner + rest)[own.len() + inner.len() + n] == x);
            }
        },
    }
}

/// A hook that is called directly in a group that runs in a loop is found.
proof fn lemma_hook_in_level(
    t: Seq<Node>,
    g: int,
    i: int,
    h: int,
    file: Seq<char>,
    component: Seq<char>,
)
    requires
        t.len() <= usize::MAX,
        token_in(t, g, h),
        t[h].kind == Kind::TokIdent,
        looping_hook(t[h].name@),
        group_in(t, g, h + 1, "("@),
        !in_header(t, h),
        0 <= i <= tokens_before(t, g, h),
    ensures
        token_hooks(t, g, i, true, file, component).contains(
            hook_issue(file, component, t[h].name@, t[h].line),
        ),
    decreases kids(t, g).len() - i,
{
    let ks = kids(t, g);
    let hi = tokens_before(t, g, h);
    let x = hook_issue(file, component, t[h].name@, t[h].line);
    lemma_token_number(t, g, h);
    lemma_token_number(t, g, h + 1);
    lemma_next_brace(t, ks, i);
    lemma_numbered(t, g, i);
    let j = ks[i] as int;
    let word = t[j].kind == Kind::TokIdent && loop_word(t[j].name@);
    let brace = if word {
        next_brace(t, ks, i)
    } else {
        None
    };
    if i < hi && h <= j {
        lemma_numbers_grow(t, g, h, j);
    }
    match brace {
        Some(b) => {
            lemma_next_brace_first(t, g, i);
            lemma_loop_braces(t, g, i);
            lemma_numbered(t, g, b);
            let e = ks[b] as int;
            let body = token_hooks(t, e, 0, true, file, component);
            let rest = token_hooks(t, g, b + 1, true, file, component);
            if i == hi {
                lemma_hook_is_no_loop(t[h].name@);
            } else if b < hi {
                lemma_hook_in_level(t, g, b + 1, h, file, component);
                let n = choose|n: int| 0 <= n < rest.len() && rest[n] == x;
                assert((body + rest)[body.len() + n] == x);
            } else if b == hi {
                assert(e == h);
            } else {
                if e <= h {
                    lemma_numbers_grow(t, g, e, h);
                }
                assert(loop_braces(t, t[h].parent as int, j, e) && j < h < e);
            }
        },
        None => {
            let own = if hook_token(t, ks, i) {
                seq![hook_issue(file, component, t[j].name@, t[j].line)]
            } else {
                Seq::empty()
            };
            let inner = if t[j].kind == Kind::TokGroup && g < j < t.len() {
                token_hooks(t, j, 0, true, file, component)
            } else {
                Seq::empty()
            };
            let rest = token_hooks(t, g, i + 1, true, file, component);
            if i == hi {
                assert(ks[i + 1] == h + 1);
                assert(own[0] == x);
                assert((own + inner + rest)[0] == x);
            } else {
                lemma_hook_in_level(t, g, i + 1, h, file, component);
                let n = choose|n: int| 0 <= n < rest.len() && rest[n] == x;
                assert((own + inner + rest)[own.len() + inner.len() + n] == x);
            }
        },
    }
}

proof fn lemma_hook_is_no_loop(name: Seq<char>)
    requires
        looping_hook(name),
    ensures
        name != "for"@,
        name != "while"@,
        name != "loop"@,
{
    reveal_strlit("use_signal");
    reveal_strlit("use_memo");
    reveal_strlit("use_resource");
    reveal_strlit("use_effect");
    reveal_strlit("for");
    reveal_strlit("while");
    reveal_strlit("loop");
    assert(name[0] == 'u');
    assert("for"@[0] == 'f' && "while"@[0] == 'w' && "loop"@[0] == 'l');
}

/// What a group inside the macro at `m` gives, the macro gives.
proof fn lemma_group_in_macro(
    t: Seq<Node>,
    m: int,
    c: int,
    in_loop: bool,
    file: Seq<char>,
    component: Seq<char>,
    x: SignalIssueView,
)
    requires
        t.len() <= usize::MAX,
        token_of(t, m, c),
        t[c].kind == Kind::TokGroup,
        past_headers(t, m, c),
        0 <= m,
        token_hooks(t, c, 0, in_loop || in_token_loop(t, m, c), file, component).contains(x),
    ensures
        token_hooks(t, m, 0, in_loop, file, component).contains(x),
    decreases c,
{
    let p = t[c].parent as int;
    let outer = in_loop || (p != m && in_token_loop(t, m, p));
    let deep = exists|w: int| #[trigger] loop_braces(t, p, w, c) && tokens_before(t, p, w) >= 0;
    assert(deep == token_loop(t, c)) by {
        if token_loop(t, c) {
            let w = choose|w: int| #[trigger] loop_braces(t, p, w, c);
            assert(loop_braces(t, p, w, c) && tokens_before(t, p, w) >= 0);
        }
    }
    assert((in_loop || in_token_loop(t, m, c)) == (outer || deep));
    lemma_group_in_level(t, p, 0, c, outer, file, component, x);
    if p != m {
        lemma_group_in_macro(t, m, p, in_loop, file, component, x);
    }
}

/// A call of one of the four hooks among the tokens of an `rsx!` of a component is
/// reported where it runs in a loop: in the braces of a `for`, `while` or `loop` of
/// the markup, or because the whole `rsx!` does.
pub proof fn law_hook_in_markup_loop_is_found(
    files: Seq<ScannedFile>,
    k: int,
    i: int,
    b: int,
    m: int,
    h: int,
)
    requires
        component_in(files, k, i, b),
        ({
            let t = nodes(files, k);
            &&& b <= m < t[b].end
            &&& t[m].kind == Kind::Macro && t[m].name@ == "rsx"@
            &&& token_of(t, m, h) && t[h].kind == Kind::TokIdent && looping_hook(t[h].name@)
            &&& group_in(t, t[h].parent as int, h + 1, "("@)
            &&& past_headers(t, m, h)
            &&& looped(t, b, m) || in_token_loop(t, m, h)
        }),
    ensures
        reports(
            files,
            "hook_in_loop"@,
            files[k].path@,
            nodes(files, k)[h].line,
            nodes(files, k)[i].name@,
        ),
{
    let t = nodes(files, k);
    let path = files[k].path@;
    let name = t[i].name@;
    assert(files[k].ast->Ok_0.len() == t.len());
    let x = hook_issue(path, name, t[h].name@, t[h].line);
    lemma_component_with_body(t, i, b);
    let rule = loop_hooks(t, b, path, name);
    let in_loop = crate::scan::inside(t, b, m, loop_at(t));
    if looped(t, b, m) {
        lemma_looped(t, b, m);
    }
    let p = t[h].parent as int;
    assert(!token_loop(t, h));
    assert(in_loop || in_token_loop(t, m, p) || p == m);
    assert(p == m ==> in_loop);
    lemma_hook_in_level(t, p, 0, h, path, name);
    if p != m {
        assert(in_loop || in_token_loop(t, m, p));
        lemma_group_in_macro(t, m, p, in_loop, path, name, x);
    }
    assert(rsx(t, m));
    assert(rule(m).contains(x));
    lemma_gather_contains(b, t[b].end as int, rule, x);
    lemma_kinds_of_issues(t, i, path, 0, x);
    lemma_reported(files, k, i, b, x);
}

/// What is found among tokens is a call of a hook that runs in a loop.
proof fn lemma_token_hooks_are_real(
    t: Seq<Node>,
    m: int,
    g: int,
    i: int,
    in_loop: bool,
    outside: bool,
    file: Seq<char>,
    component: Seq<char>,
    x: SignalIssueView,
) -> (h: int)
    requires
        t.len() <= usize::MAX,
        0 <= m < t.len(),
        0 <= g < t.len(),
        g == m || (token_of(t, m, g) && t[g].kind == Kind::TokGroup && m < g),
        in_loop ==> outside || (g != m && in_token_loop(t, m, g)),
        token_hooks(t, g, i, in_loop, file, component).contains(x),
    ensures
        token_of(t, m, h),
        t[h].kind == Kind::TokIdent,
        looping_hook(t[h].name@),
        x == hook_issue(file, component, t[h].name@, t[h].line),
        outside || in_token_loop(t, m, h),
    decreases t.len() - g, kids(t, g).len() - i,
{
    let ks = kids(t, g);
    lemma_numbered(t, g, i);
    lemma_next_brace(t, ks, i);
    let j = ks[i] as int;
    assert(token_in(t, g, j));
    let brace = if t[j].kind == Kind::TokIdent && loop_word(t[j].name@) {
        next_brace(t, ks, i)
    } else {
        None
    };
    match brace {
        Some(b) => {
            lemma_loop_braces(t, g, i);
            lemma_numbered(t, g, b);
            let c = ks[b] as int;
            let body = token_hooks(t, c, 0, true, file, component);
            let rest = token_hooks(t, g, b + 1, in_loop, file, component);
            let n = choose|n: int| 0 <= n < (body + rest).len() && (body + rest)[n] == x;
            if n < body.len() {
                assert(body[n] == x);
                assert(token_in(t, g, c));
                assert(token_loop(t, c));
                lemma_token_hooks_are_real(t, m, c, 0, true, outside, file, component, x)
            } else {
                assert(rest[n - body.len()] == x);
                lemma_token_hooks_are_real(t, m, g, b + 1, in_loop, outside, file, component, x)
            }
        },
        None => {
            let own = if in_loop && hook_token(t, ks, i) {
                seq![hook_issue(file, component, t[j].name@, t[j].line)]
            } else {
                Seq::empty()
            };
            let inner = if t[j].kind == Kind::TokGroup && g < j < t.len() {
                token_hooks(t, j, 0, in_loop, file, component)
            } else {
                Seq::empty()
            };
            let rest = token_hooks(t, g, i + 1, in_loop, file, component);
            let all = own + inner + rest;
            let n = choose|n: int| 0 <= n < all.len() && all[n] == x;
            if n < own.len() {
                j
            } else if n < own.len() + inner.len() {
                assert(inner[n - own.len()] == x);
                lemma_token_hooks_are_real(t, m, j, 0, in_loop, outside, file, component, x)
            } else {
                assert(rest[n - own.len() - inner.len()] == x);
                lemma_token_hooks_are_real(t, m, g, i + 1, in_loop, outside, file, component, x)
            }
        },
    }
}

/// Node `f` is what a call at `j` calls, and the call is of a hook in a loop.
pub open spec fn looped_call(t: Seq<Node>, lo: int, j: int, f: int) -> bool {
    &&& t[j].kind == Kind::Call && operand(t, j, 0) == Some(f) && t[f].kind == Kind::Path
    &&& looping_hook(t[f].name@)
    &&& looped(t, lo, j)
}

/// Token `h` of the `rsx!` at `m` is a hook in a loop.
pub open spec fn looped_token(t: Seq<Node>, lo: int, m: int, h: int) -> bool {
    &&& t[m].kind == Kind::Macro && t[m].name@ == "rsx"@
    &&& token_of(t, m, h) && t[h].kind == Kind::TokIdent && looping_hook(t[h].name@)
    &&& looped(t, lo, m) || in_token_loop(t, m, h)
}

/// Node `f` is a hook in a loop that is found at node `j`.
pub open spec fn looped_hook(t: Seq<Node>, lo: int, j: int, f: int) -> bool {
    looped_call(t, lo, j, f) || looped_token(t, lo, j, f)
}

/// Nothing else is taken for a hook in a loop: each issue is on the line of a hook
/// that is called in a `for`, `while` or `loop`.
pub proof fn law_hook_in_loop_is_real(
    t: Seq<Node>,
    lo: int,
    hi: int,
    file: Seq<char>,
    component: Seq<char>,
    x: SignalIssueView,
)
    requires
        0 <= lo <= hi <= t.len() <= usize::MAX,
        gather(lo, hi, loop_hooks(t, lo, file, component)).contains(x),
    ensures
        x.code == "hook_in_loop"@,
        x.file == file,
        x.component == Some(component),
        exists|j: int, f: int|
            lo <= j < hi && x.line == t[f].line && #[trigger] looped_hook(t, lo, j, f),
{
    let rule = loop_hooks(t, lo, file, component);
    lemma_gather_contains(lo, hi, rule, x);
    let j = choose|j: int| lo <= j < hi && (#[trigger] rule(j)).contains(x);
    let in_loop = crate::scan::inside(t, lo, j, loop_at(t));
    lemma_inside(t, lo, j, j, loop_at(t));
    if in_loop {
        let m = choose|m: int| lo <= m < j && #[trigger] loop_at(t)(m) && stop(t, m) > j;
        assert(under(t, m, j));
        assert(looped(t, lo, j));
    }
    if rsx(t, j) {
        let h = lemma_token_hooks_are_real(t, j, j, 0, in_loop, in_loop, file, component, x);
        assert(looped_hook(t, lo, j, h));
    } else {
        let f = operand(t, j, 0)->0;
        assert(in_loop && hook(t[f].name@));
        assert(x == hook_issue(file, component, t[f].name@, t[f].line));
        assert(looped_hook(t, lo, j, f));
    }
}

/// An issue of that code is reported for that component.
pub open spec fn reports_code(
    files: Seq<ScannedFile>,
    code: Seq<char>,
    file: Seq<char>,
    component: Seq<char>,
) -> bool {
    exists|x: SignalIssueView| #[trigger]
        report(files).issues.contains(x) && x.code == code && x.file == file && x.component
            == Some(component)
}

/// Node `j` is a call of a path that ends in `name`.
pub open spec fn calls_path(t: Seq<Node>, j: int, name: Seq<char>) -> bool {
    &&& t[j].kind == Kind::Call
    &&& operand(t, j, 0) matches Some(f)
    &&& t[f].kind == Kind::Path && t[f].name@ == name
}

/// Node `j` is a path of one identifier, `name`.
pub open spec fn names(t: Seq<Node>, j: int, name: Seq<char>) -> bool {
    t[j].kind == Kind::Path && t[j].count == 1 && !t[j].flag && !t[j].mark && t[j].name@ == name
}

/// Node `j` calls the method `method` on the identifier `name`.
pub open spec fn calls_on(t: Seq<Node>, j: int, method: Seq<char>, name: Seq<char>) -> bool {
    &&& t[j].kind == Kind::MethodCall && t[j].name@ == method
    &&& operand(t, j, 0) matches Some(r)
    &&& names(t, r, name)
}

/// Statement `l` of the body `b` is `let name = hook(..)`.
pub open spec fn lets(t: Seq<Node>, b: int, l: int, name: Seq<char>, hook: Seq<char>) -> bool {
    &&& under(t, b, l) && t[l].kind == Kind::Local && t[l].parent == b && t[l].flag
    &&& operand(t, l, 0) matches Some(p)
    &&& t[p].kind == Kind::PatIdent && t[p].name@ == name
    &&& operand(t, l, 1) matches Some(e)
    &&& 0 <= e < t.len() && calls_path(t, e, hook)
}

pub proof fn lemma_lets(
    t: Seq<Node>,
    b: int,
    l: int,
    name: Seq<char>,
    hook: Seq<char>,
    p: spec_fn(Seq<char>) -> bool,
)
    requires
        lets(t, b, l, name, hook),
        p(hook),
    ensures
        distinct(gather(b, stop(t, b), bound_by(t, b, p))).contains(name),
{
    let rule = bound_by(t, b, p);
    let e = operand(t, l, 1)->0;
    assert(init_tail(t, e) == Some(hook));
    assert(rule(l)[0] == name);
    assert(rule(l).contains(name));
    lemma_gather_contains(b, stop(t, b), rule, name);
    lemma_distinct(gather(b, stop(t, b), rule));
}

// ---------------------------------------------------------------------------
// Reads of the browser
// ---------------------------------------------------------------------------

/// What stands in node `m` runs later: it is a closure, an `async` block, or a call of
/// a function that takes work to be done later.
pub open spec fn defers(t: Seq<Node>, m: int) -> bool {
    ||| t[m].kind == Kind::Closure
    ||| t[m].kind == Kind::Async
    ||| calls_path(t, m, "use_future"@)
    ||| calls_path(t, m, "use_effect"@)
    ||| calls_path(t, m, "use_resource"@)
    ||| calls_path(t, m, "use_memo"@)
    ||| calls_path(t, m, "spawn"@)
    ||| calls_path(t, m, "use_coroutine"@)
}

/// Node `j` reads what only a browser has.
pub open spec fn reads_browser(t: Seq<Node>, j: int) -> bool {
    ||| t[j].kind == Kind::MethodCall && (t[j].name@ == "local_storage"@ || t[j].name@
        == "session_storage"@ || t[j].name@ == "cookie"@)
    ||| {
        &&& t[j].kind == Kind::Call
        &&& operand(t, j, 0) matches Some(f)
        &&& t[f].kind == Kind::Path && t[f].count >= 2 && (t[f].text@ == "LocalStorage"@
            || t[f].text@ == "SessionStorage"@)
    }
}

/// Node `j` runs with the render that begins at `lo`: nothing around it, nor it
/// itself, defers it.
pub open spec fn runs_in_render(t: Seq<Node>, lo: int, j: int) -> bool {
    &&& !defers(t, j)
    &&& forall|m: int| lo <= m < j && #[trigger] defers(t, m) ==> stop(t, m) <= j
}

proof fn lemma_runs_in_render(t: Seq<Node>, lo: int, j: int)
    requires
        0 <= lo <= j < t.len(),
        t[j].kind == Kind::MethodCall || t[j].kind == Kind::Call,
    ensures
        runs_in_render(t, lo, j) <==> !crate::scan::inside(t, lo, j, deferred_at(t))
            && !deferred_call(t, j),
{
    let p = deferred_at(t);
    lemma_inside(t, lo, j, j, p);
    assert forall|m: int| p(m) == #[trigger] defers(t, m) by {}
    if crate::scan::inside(t, lo, j, p) {
        let m = choose|m: int| lo <= m < j && #[trigger] p(m) && stop(t, m) > j;
        assert(defers(t, m));
    } else if !runs_in_render(t, lo, j) && !defers(t, j) {
        let m = choose|m: int| lo <= m < j && #[trigger] defers(t, m) && stop(t, m) > j;
        assert(p(m));
    }
}

/// A component that reads the browser's storage or cookies while it renders is
/// reported, at the line of the read; and nothing else is.
pub proof fn law_browser_read_is_found(
    files: Seq<ScannedFile>,
    k: int,
    i: int,
    b: int,
    j: int,
)
    requires
        component_in(files, k, i, b),
        b <= j < nodes(files, k)[b].end,
        reads_browser(nodes(files, k), j),
        runs_in_render(nodes(files, k), b, j),
    ensures
        reports(
            files,
            "hydration_browser_read"@,
            files[k].path@,
            nodes(files, k)[j].line,
            nodes(files, k)[i].name@,
        ),
{
    let t = nodes(files, k);
    let path = files[k].path@;
    let rule = render_read(t, b, path, t[i].name@);
    lemma_component_with_body(t, i, b);
    lemma_runs_in_render(t, b, j);
    let x = rule(j)[0];
    assert(rule(j).contains(x));
    lemma_gather_contains(b, t[b].end as int, rule, x);
    lemma_kinds_of_issues(t, i, path, 1, x);
    lemma_reported(files, k, i, b, x);
}

pub proof fn law_browser_read_is_real(
    t: Seq<Node>,
    lo: int,
    hi: int,
    file: Seq<char>,
    component: Seq<char>,
    x: SignalIssueView,
)
    requires
        0 <= lo <= hi <= t.len(),
        gather(lo, hi, render_read(t, lo, file, component)).contains(x),
    ensures
        exists|j: int|
            lo <= j < hi && #[trigger] reads_browser(t, j) && runs_in_render(t, lo, j) && x.line
                == t[j].line,
{
    let rule = render_read(t, lo, file, component);
    lemma_gather_contains(lo, hi, rule, x);
    let j = choose|j: int| lo <= j < hi && (#[trigger] rule(j)).contains(x);
    lemma_runs_in_render(t, lo, j);
    assert(reads_browser(t, j));
}

// ---------------------------------------------------------------------------
// Futures that poll
// ---------------------------------------------------------------------------

/// Node `j` waits for a timer.
pub open spec fn waits(t: Seq<Node>, j: int) -> bool {
    &&& t[j].kind == Kind::Call
    &&& operand(t, j, 0) matches Some(f)
    &&& t[f].kind == Kind::Path
    &&& {
        let n = t[f].name@;
        ||| n == "sleep"@ || n == "sleep_until"@ || n == "interval"@ || n == "interval_at"@
        ||| n == "TimeoutFuture"@ || n == "Interval"@ || n == "set_interval"@ || n
            == "set_timeout"@
        ||| n == "new"@ && t[f].count >= 2 && (t[f].text@ == "TimeoutFuture"@ || t[f].text@
            == "Interval"@ || t[f].text@ == "IntervalStream"@)
    }
}

/// Node `j` reads the signal `name` so that what it stands in depends on it: it calls
/// it, or its method `read`.
pub open spec fn subscribes(t: Seq<Node>, j: int, name: Seq<char>) -> bool {
    ||| calls_on(t, j, "read"@, name)
    ||| {
        &&& t[j].kind == Kind::Call && t[j].count == 1
        &&& operand(t, j, 0) matches Some(f)
        &&& names(t, f, name)
    }
}

/// A `use_future` that waits for a timer and reads a signal of its component is
/// reported, at its line.
pub proof fn law_polling_read_is_found(
    files: Seq<ScannedFile>,
    k: int,
    i: int,
    b: int,
    f: int,
    s: int,
    j: int,
    l: int,
    name: Seq<char>,
)
    requires
        component_in(files, k, i, b),
        ({
            let t = nodes(files, k);
            &&& b <= f < t[b].end && calls_path(t, f, "use_future"@)
            &&& forall|m: int|
                b <= m < f && #[trigger] calls_path(t, m, "use_future"@) ==> stop(t, m) <= f
            &&& under(t, f, s) && waits(t, s)
            &&& under(t, f, j) && subscribes(t, j, name)
            &&& lets(t, b, l, name, "use_signal"@)
        }),
    ensures
        reports(
            files,
            "polling_future_reactive_read"@,
            files[k].path@,
            nodes(files, k)[f].line,
            nodes(files, k)[i].name@,
        ),
{
    let t = nodes(files, k);
    let path = files[k].path@;
    lemma_component_with_body(t, i, b);
    lemma_lets(t, b, l, name, "use_signal"@, is_use_signal());
    let sigs = signals(t, b);
    assert(sigs.contains(name));
    assert(sleeps(t, s));
    assert(polls(t, f));
    assert(reactive_read(t, j, sigs) == Some(name)) by {
        if calls_on(t, j, "read"@, name) {
            let r = operand(t, j, 0)->0;
            assert(crate::scan::ident(t, r) == Some(name));
        }
    }
    assert(read_at(t, sigs)(j)[0] == name);
    assert(read_at(t, sigs)(j).contains(name));
    lemma_gather_contains(f + 1, stop(t, f), read_at(t, sigs), name);
    lemma_inside(t, b, f, f, future_at(t));
    if crate::scan::inside(t, b, f, future_at(t)) {
        let m = choose|m: int| b <= m < f && #[trigger] future_at(t)(m) && stop(t, m) > f;
        assert(calls_path(t, m, "use_future"@));
    }
    let rule = polling_at(t, b, sigs, path, t[i].name@);
    let x = rule(f)[0];
    assert(rule(f).contains(x));
    lemma_gather_contains(b, t[b].end as int, rule, x);
    lemma_kinds_of_issues(t, i, path, 4, x);
    lemma_reported(files, k, i, b, x);
}

// ---------------------------------------------------------------------------
// Effects that navigate
// ---------------------------------------------------------------------------

/// Node `j` moves to another page: a method of the router, called on a name that
/// stands for it.
pub open spec fn moves_on(t: Seq<Node>, b: int, j: int, name: Seq<char>) -> bool {
    &&& {
        ||| calls_on(t, j, "push"@, name)
        ||| calls_on(t, j, "replace"@, name)
        ||| calls_on(t, j, "go_back"@, name)
        ||| calls_on(t, j, "go_forward"@, name)
    }
    &&& {
        ||| name == "nav"@ || name == "navigator"@ || name == "router"@
        ||| exists|l: int| #[trigger]
            lets(t, b, l, name, "use_navigator"@) || lets(t, b, l, name, "use_router"@) || lets(
                t,
                b,
                l,
                name,
                "use_router_state"@,
            ) || lets(t, b, l, name, "navigator"@)
    }
}

proof fn lemma_first_move(t: Seq<Node>, lo: int, j: int, navs: Seq<Seq<char>>) -> (first: int)
    requires
        lo <= j,
        navigates(t, j, navs),
        enclosing(t, lo, j, j) is Some,
    ensures
        lo <= first <= j,
        first_navigation(t, lo, first, navs),
    decreases j - lo,
{
    if first_navigation(t, lo, j, navs) {
        j
    } else {
        let k = choose|k: int|
            lo <= k < j && #[trigger] navigates(t, k, navs) && enclosing(t, lo, k, k) == enclosing(
                t,
                lo,
                j,
                j,
            );
        lemma_first_move(t, lo, k, navs)
    }
}

proof fn lemma_enclosing(t: Seq<Node>, lo: int, hi: int, j: int, m: int)
    requires
        lo <= m < hi,
        effect(t, m),
        stop(t, m) > j,
    ensures
        enclosing(t, lo, hi, j) is Some,
    decreases hi - lo,
{
    if !(effect(t, hi - 1) && stop(t, hi - 1) > j) {
        lemma_enclosing(t, lo, hi - 1, j, m);
    }
}

/// An effect that moves to another page is reported.
pub proof fn law_navigating_effect_is_found(
    files: Seq<ScannedFile>,
    k: int,
    i: int,
    b: int,
    m: int,
    j: int,
    name: Seq<char>,
)
    requires
        component_in(files, k, i, b),
        ({
            let t = nodes(files, k);
            &&& b <= m && calls_path(t, m, "use_effect"@)
            &&& under(t, m, j) && j < t[b].end
            &&& moves_on(t, b, j, name)
        }),
    ensures
        reports_code(
            files,
            "hydration_unsafe_effect"@,
            files[k].path@,
            nodes(files, k)[i].name@,
        ),
{
    let t = nodes(files, k);
    let path = files[k].path@;
    lemma_component_with_body(t, i, b);
    let navs = navigators(t, b);
    if !(name == "nav"@ || name == "navigator"@ || name == "router"@) {
        let l = choose|l: int| #[trigger]
            lets(t, b, l, name, "use_navigator"@) || lets(t, b, l, name, "use_router"@) || lets(
                t,
                b,
                l,
                name,
                "use_router_state"@,
            ) || lets(t, b, l, name, "navigator"@);
        let p = is_navigator_hook();
        if lets(t, b, l, name, "use_navigator"@) {
            lemma_lets(t, b, l, name, "use_navigator"@, p);
        } else if lets(t, b, l, name, "use_router"@) {
            lemma_lets(t, b, l, name, "use_router"@, p);
        } else if lets(t, b, l, name, "use_router_state"@) {
            lemma_lets(t, b, l, name, "use_router_state"@, p);
        } else {
            lemma_lets(t, b, l, name, "navigator"@, p);
        }
    }
    assert(crate::scan::ident(t, operand(t, j, 0)->0) == Some(name));
    assert(navigates(t, j, navs));
    lemma_enclosing(t, b, j, j, m);
    let first = lemma_first_move(t, b, j, navs);
    let rule = navigation_at(t, b, navs, path, t[i].name@);
    let x = rule(first)[0];
    assert(rule(first).contains(x));
    lemma_gather_contains(b, t[b].end as int, rule, x);
    lemma_kinds_of_issues(t, i, path, 3, x);
    lemma_reported(files, k, i, b, x);
}

// ---------------------------------------------------------------------------
// Clones and writers
// ---------------------------------------------------------------------------

/// Function `i` has an argument called `prop`.
pub open spec fn has_argument(t: Seq<Node>, i: int, prop: Seq<char>) -> bool {
    exists|a: int|
        under(t, i, a) && (#[trigger] t[a]).kind == Kind::Arg && t[a].parent == i && (operand(
            t,
            a,
            0,
        ) matches Some(p) && t[p].kind == Kind::PatIdent && t[p].name@ == prop)
}

/// Statement `l` of the body `b` is `let .. = prop.clone()`.
pub open spec fn clones_prop(t: Seq<Node>, b: int, l: int, prop: Seq<char>) -> bool {
    &&& under(t, b, l) && t[l].kind == Kind::Local && t[l].parent == b && t[l].flag
    &&& operand(t, l, 0) is Some
    &&& operand(t, l, 1) matches Some(e)
    &&& calls_on(t, e, "clone"@, prop) && t[e].count == 1
}

/// What is gathered at three places counts three at least.
pub proof fn lemma_three<A>(lo: int, hi: int, f: spec_fn(int) -> Seq<A>, a: int, b: int, c: int)
    requires
        lo <= a < b < c < hi,
        f(a).len() >= 1,
        f(b).len() >= 1,
        f(c).len() >= 1,
    ensures
        gather(lo, hi, f).len() >= 3,
{
    lemma_gather_split(lo, a, hi, f);
    lemma_gather_split(a, a + 1, hi, f);
    lemma_gather_split(a + 1, b, hi, f);
    lemma_gather_split(b, b + 1, hi, f);
    lemma_gather_split(b + 1, c, hi, f);
    lemma_gather_split(c, c + 1, hi, f);
    reveal_with_fuel(gather, 3);
}

proof fn lemma_lines_of(
    t: Seq<Node>,
    b: int,
    props: Seq<Seq<char>>,
    prop: Seq<char>,
    n: int,
)
    ensures
        gather(
            0,
            gather(b, n, clone_at(t, b, props)).len() as int,
            line_of(gather(b, n, clone_at(t, b, props)), prop),
        ).len() == gather(b, n, clones_at(t, b, props, prop)).len(),
    decreases n - b,
{
    if b < n {
        lemma_lines_of(t, b, props, prop, n - 1);
        let less = gather(b, n - 1, clone_at(t, b, props));
        let all = gather(b, n, clone_at(t, b, props));
        let more = clone_at(t, b, props)(n - 1);
        lemma_same_lines(less, all, prop, less.len() as int);
        if more.len() > 0 {
            assert(all =~= less.push(more[0]));
        } else {
            assert(all =~= less);
        }
    }
}

proof fn lemma_same_lines(
    cs: Seq<CloneSiteView>,
    ds: Seq<CloneSiteView>,
    prop: Seq<char>,
    n: int,
)
    requires
        0 <= n <= cs.len() <= ds.len(),
        forall|x: int| 0 <= x < cs.len() ==> #[trigger] cs[x] == ds[x],
    ensures
        gather(0, n, line_of(cs, prop)) == gather(0, n, line_of(ds, prop)),
    decreases n,
{
    if n > 0 {
        lemma_same_lines(cs, ds, prop, n - 1);
        assert(cs[n - 1] == ds[n - 1]);
    }
}

/// The clones of one prop.
pub open spec fn clones_at(
    t: Seq<Node>,
    b: int,
    props: Seq<Seq<char>>,
    prop: Seq<char>,
) -> spec_fn(int) -> Seq<CloneSiteView> {
    |j: int|
        {
            let c = clone_at(t, b, props)(j);
            if c.len() > 0 && c[0].prop == prop {
                c
            } else {
                Seq::empty()
            }
        }
}

/// A component that clones a prop into three `let`s or more is reported.
pub proof fn law_repeated_clone_is_found(
    files: Seq<ScannedFile>,
    k: int,
    i: int,
    b: int,
    prop: Seq<char>,
    l1: int,
    l2: int,
    l3: int,
)
    requires
        component_in(files, k, i, b),
        ({
            let t = nodes(files, k);
            &&& has_argument(t, i, prop)
            &&& l1 < l2 < l3
            &&& clones_prop(t, b, l1, prop) && clones_prop(t, b, l2, prop) && clones_prop(
                t,
                b,
                l3,
                prop,
            )
        }),
    ensures
        reports_code(files, "prop_clone_overuse"@, files[k].path@, nodes(files, k)[i].name@),
{
    let t = nodes(files, k);
    let path = files[k].path@;
    lemma_component_with_body(t, i, b);
    let props = prop_names(t, i);
    let a = choose|a: int|
        under(t, i, a) && (#[trigger] t[a]).kind == Kind::Arg && t[a].parent == i && (operand(
            t,
            a,
            0,
        ) matches Some(p) && t[p].kind == Kind::PatIdent && t[p].name@ == prop);
    assert(prop_name_at(t, i)(a)[0] == prop);
    assert(prop_name_at(t, i)(a).contains(prop));
    lemma_gather_contains(i, stop(t, i), prop_name_at(t, i), prop);
    let cs = clones(t, b, props);
    let end = t[b].end as int;
    lemma_clones_prop(t, b, l1, props, prop);
    lemma_clones_prop(t, b, l2, props, prop);
    lemma_clones_prop(t, b, l3, props, prop);
    lemma_three(b, end, clones_at(t, b, props, prop), l1, l2, l3);
    lemma_lines_of(t, b, props, prop, end);
    assert(super::clones::lines(cs, prop).len() >= 3);
    let site = clone_at(t, b, props)(l1)[0];
    assert(clone_at(t, b, props)(l1).contains(site));
    lemma_gather_contains(b, end, clone_at(t, b, props), site);
    let x = lemma_cloned_often(cs, site, path, t[i].name@);
    lemma_kinds_of_issues(t, i, path, 5, x);
    lemma_reported(files, k, i, b, x);
}

proof fn lemma_cloned_often(
    cs: Seq<CloneSiteView>,
    site: CloneSiteView,
    file: Seq<char>,
    component: Seq<char>,
) -> (x: SignalIssueView)
    requires
        cs.contains(site),
        super::clones::lines(cs, site.prop).len() >= 3,
    ensures
        clone_issues(cs, file, component).contains(x),
        x.code == "prop_clone_overuse"@,
        x.file == file,
        x.component == Some(component),
{
    let prop = site.prop;
    let n = choose|n: int| 0 <= n < cs.len() && cs[n] == site;
    assert(cloned_names(cs)[n] == prop);
    lemma_distinct(cloned_names(cs));
    assert(distinct(cloned_names(cs)).contains(prop));
    lemma_sorted_contains(distinct(cloned_names(cs)), rank::<String>(), prop);
    let ps = cloned_props(cs);
    let q = choose|q: int| 0 <= q < ps.len() && ps[q] == prop;
    let rule = prop_issue(cs, ps, file, component);
    let x = rule(q)[0];
    assert(rule(q).contains(x));
    lemma_gather_contains(0, ps.len() as int, rule, x);
    let own = prop_issues(cs, file, component);
    let y = choose|y: int| 0 <= y < own.len() && own[y] == x;
    assert(clone_issues(cs, file, component)[y] == x);
    x
}

proof fn lemma_clones_prop(
    t: Seq<Node>,
    b: int,
    l: int,
    props: Seq<Seq<char>>,
    prop: Seq<char>,
)
    requires
        clones_prop(t, b, l, prop),
        props.contains(prop),
    ensures
        clone_at(t, b, props)(l).len() == 1,
        clone_at(t, b, props)(l)[0].prop == prop,
        clones_at(t, b, props, prop)(l).len() == 1,
{
    let e = operand(t, l, 1)->0;
    assert(crate::scan::operand_ident(t, e, 0) == Some(prop));
}

proof fn lemma_pair<A>(lo: int, hi: int, f: spec_fn(int) -> Seq<A>, a: int, b: int)
    requires
        lo <= a < b < hi,
        f(a).len() >= 1,
        f(b).len() >= 1,
    ensures
        gather(lo, hi, f).len() >= 2,
{
    lemma_gather_split(lo, a, hi, f);
    lemma_gather_split(a, a + 1, hi, f);
    lemma_gather_split(a + 1, b, hi, f);
    lemma_gather_split(b, b + 1, hi, f);
    reveal_with_fuel(gather, 3);
}

proof fn lemma_lines_apart(cs: Seq<CloneSiteView>, p: Seq<char>, q: Seq<char>, n: int)
    requires
        p != q,
        0 <= n,
    ensures
        gather(0, n, line_of(cs, p)).len() + gather(0, n, line_of(cs, q)).len() <= n,
    decreases n,
{
    if n > 0 {
        lemma_lines_apart(cs, p, q, n - 1);
    }
}

proof fn lemma_cloned_twice(
    t: Seq<Node>,
    i: int,
    b: int,
    prop: Seq<char>,
    l1: int,
    l2: int,
)
    requires
        component_with_body(t, i, b),
        has_argument(t, i, prop),
        l1 < l2,
        clones_prop(t, b, l1, prop),
        clones_prop(t, b, l2, prop),
    ensures
        ({
            let cs = clones(t, b, prop_names(t, i));
            super::clones::lines(cs, prop).len() >= 2 && cloned_props(cs).contains(prop)
        }),
{
    let props = prop_names(t, i);
    let a = choose|a: int|
        under(t, i, a) && (#[trigger] t[a]).kind == Kind::Arg && t[a].parent == i && (operand(
            t,
            a,
            0,
        ) matches Some(p) && t[p].kind == Kind::PatIdent && t[p].name@ == prop);
    assert(prop_name_at(t, i)(a)[0] == prop);
    assert(prop_name_at(t, i)(a).contains(prop));
    lemma_gather_contains(i, stop(t, i), prop_name_at(t, i), prop);
    let cs = clones(t, b, props);
    let end = t[b].end as int;
    lemma_clones_prop(t, b, l1, props, prop);
    lemma_clones_prop(t, b, l2, props, prop);
    lemma_pair(b, end, clones_at(t, b, props, prop), l1, l2);
    lemma_lines_of(t, b, props, prop, end);
    let site = clone_at(t, b, props)(l1)[0];
    assert(clone_at(t, b, props)(l1).contains(site));
    lemma_gather_contains(b, end, clone_at(t, b, props), site);
    let n = choose|n: int| 0 <= n < cs.len() && cs[n] == site;
    assert(cloned_names(cs)[n] == prop);
    lemma_distinct(cloned_names(cs));
    assert(distinct(cloned_names(cs)).contains(prop));
    lemma_sorted_contains(distinct(cloned_names(cs)), rank::<String>(), prop);
}

/// Two props of a component that are each cloned twice are found, together if neither is
/// found on its own.
pub proof fn law_clones_of_two_props_are_found(
    files: Seq<ScannedFile>,
    k: int,
    i: int,
    b: int,
    p: Seq<char>,
    l1: int,
    l2: int,
    q: Seq<char>,
    l3: int,
    l4: int,
)
    requires
        component_in(files, k, i, b),
        p != q,
        ({
            let t = nodes(files, k);
            &&& has_argument(t, i, p) && has_argument(t, i, q)
            &&& l1 < l2 && clones_prop(t, b, l1, p) && clones_prop(t, b, l2, p)
            &&& l3 < l4 && clones_prop(t, b, l3, q) && clones_prop(t, b, l4, q)
        }),
    ensures
        reports_code(files, "prop_clone_overuse"@, files[k].path@, nodes(files, k)[i].name@)
            || reports_code(
            files,
            "prop_clone_overuse_aggregate"@,
            files[k].path@,
            nodes(files, k)[i].name@,
        ),
{
    let t = nodes(files, k);
    let path = files[k].path@;
    let name = t[i].name@;
    lemma_component_with_body(t, i, b);
    lemma_cloned_twice(t, i, b, p, l1, l2);
    lemma_cloned_twice(t, i, b, q, l3, l4);
    let cs = clones(t, b, prop_names(t, i));
    lemma_lines_apart(cs, p, q, cs.len() as int);
    let ps = cloned_props(cs);
    let x = choose|x: int| 0 <= x < ps.len() && ps[x] == p;
    let y = choose|y: int| 0 <= y < ps.len() && ps[y] == q;
    assert(x != y);
    assert(super::clones::lines(cs, ps[x]).len() >= 2);
    assert(super::clones::repeats(cs));
    let own = prop_issues(cs, path, name);
    let both = super::clones::aggregate_issue(cs, path, name);
    let all = clone_issues(cs, path, name);
    if own.len() > 0 {
        let issue = own[0];
        assert(own.contains(issue));
        let rule = prop_issue(cs, ps, path, name);
        lemma_gather_contains(0, ps.len() as int, rule, issue);
        assert(all[0] == issue);
        lemma_kinds_of_issues(t, i, path, 5, issue);
        lemma_reported(files, k, i, b, issue);
    } else {
        let issue = both[0];
        assert(all[0] == issue);
        lemma_kinds_of_issues(t, i, path, 5, issue);
        lemma_reported(files, k, i, b, issue);
    }
}

} // verus!
