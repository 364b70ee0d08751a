//! That what the lints find is there.
use vstd::prelude::*;

use super::components_audit;
use super::derived_view_no_memo;
use super::empty_async_error_arm;
use super::insecure_set_cookie;
use super::laws::{made_up, matches_err, parses};
use super::magic_id_prefix;
use super::polling_future_no_backoff;
use super::props_laws::{cloned_whole, derives_vec, memoized};
use super::props_lint;
use super::reinvented_widget;
use super::server_state_blocking_locks;
use super::signal_lint::laws::{calls_path, nodes};
use super::vec_or_owned_prop_passthrough as owned_props;
use super::widget_laws::{known_as, lemma_known_class};
use crate::literal::quote;
use crate::order::{gather, lemma_gather_contains, lemma_sorted_contains, rank};
use crate::scan::{
    asynchronous_at, body_end, body_start, component, inside, lemma_inside, pat_name, rsx_at,
    server_fn, ScannedFile,
};
use crate::tape::{lemma_operand_bounds, operand, stop, Kind, Node};
use crate::text::{at, fields, lower};

verus! {

// ---------------------------------------------------------------------------
// Where it is
// ---------------------------------------------------------------------------

/// Node `i` is a function at the top level that has an attribute of that name.
pub open spec fn marked(t: Seq<Node>, i: int, name: Seq<char>) -> bool {
    &&& 0 < i < t.len() && t[i].kind == Kind::Fn && t[i].parent == 0
    &&& exists|a: int|
        i < a < stop(t, i) && (#[trigger] t[a]).kind == Kind::Attr && t[a].parent == i && t[a].name@
            == name
}

/// The server runs the function at `i`.
pub open spec fn marked_for_server(t: Seq<Node>, i: int) -> bool {
    marked(t, i, "server"@) || marked(t, i, "get"@) || marked(t, i, "post"@) || marked(
        t,
        i,
        "put"@,
    ) || marked(t, i, "delete"@) || marked(t, i, "patch"@)
}

/// Node `j` stands in the body of the function at `i`, which begins at `b`.
pub open spec fn in_body(t: Seq<Node>, i: int, b: int, j: int) -> bool {
    &&& operand(t, i, (t[i].count + 1) as nat) == Some(b)
    &&& 0 <= b <= j < stop(t, b) && j < t.len()
}

proof fn lemma_attributed(t: Seq<Node>, i: int, name: Seq<char>)
    requires
        0 < i < t.len(),
        t[i].kind == Kind::Fn,
        t[i].parent == 0,
        crate::scan::attributed(t, i, name),
    ensures
        marked(t, i, name),
{
    let a = choose|a: int| i < a < stop(t, i) && crate::scan::attr_at(t, i, a, name);
    assert(t[a].kind == Kind::Attr);
}

proof fn lemma_server_fn(t: Seq<Node>, i: int)
    requires
        0 <= i < t.len(),
        server_fn(t, i),
    ensures
        marked_for_server(t, i),
{
    if crate::scan::attributed(t, i, "server"@) {
        lemma_attributed(t, i, "server"@);
    } else if crate::scan::attributed(t, i, "get"@) {
        lemma_attributed(t, i, "get"@);
    } else if crate::scan::attributed(t, i, "post"@) {
        lemma_attributed(t, i, "post"@);
    } else if crate::scan::attributed(t, i, "put"@) {
        lemma_attributed(t, i, "put"@);
    } else if crate::scan::attributed(t, i, "delete"@) {
        lemma_attributed(t, i, "delete"@);
    } else {
        lemma_attributed(t, i, "patch"@);
    }
}

proof fn lemma_component(t: Seq<Node>, i: int)
    requires
        0 <= i < t.len(),
        component(t, i),
    ensures
        marked(t, i, "component"@),
{
    lemma_attributed(t, i, "component"@);
}

proof fn lemma_in_body(t: Seq<Node>, i: int, j: int)
    requires
        0 <= i < t.len(),
        body_start(t, i) <= j < body_end(t, i),
    ensures
        in_body(t, i, body_start(t, i), j),
{
    lemma_operand_bounds(t, i, (t[i].count + 1) as nat);
}

/// Node `j` stands in asynchronous code.
pub open spec fn runs_async(t: Seq<Node>, j: int) -> bool {
    exists|m: int|
        0 <= m < j && stop(t, m) > j && ((#[trigger] t[m]).kind == Kind::Async || (t[m].flag && (
        t[m].kind == Kind::Fn || t[m].kind == Kind::Method || t[m].kind == Kind::Closure)))
}

proof fn lemma_runs_async(t: Seq<Node>, j: int)
    requires
        0 <= j,
        inside(t, 0, j, asynchronous_at(t)),
    ensures
        runs_async(t, j),
{
    let p = asynchronous_at(t);
    lemma_inside(t, 0, j, j, p);
    let m = choose|m: int| 0 <= m < j && #[trigger] p(m) && stop(t, m) > j;
    assert(t[m].kind == Kind::Async || t[m].flag);
}

/// Node `j` stands in an `rsx!` that begins at `b` or later.
pub open spec fn in_rsx(t: Seq<Node>, b: int, j: int) -> bool {
    exists|m: int|
        b <= m < j && stop(t, m) > j && (#[trigger] t[m]).kind == Kind::Macro && t[m].name@
            == "rsx"@
}

proof fn lemma_in_rsx(t: Seq<Node>, b: int, j: int)
    requires
        b <= j,
        inside(t, b, j, rsx_at(t)),
    ensures
        in_rsx(t, b, j),
{
    let p = rsx_at(t);
    lemma_inside(t, b, j, j, p);
    let m = choose|m: int| b <= m < j && #[trigger] p(m) && stop(t, m) > j;
    assert(t[m].kind == Kind::Macro);
}

// ---------------------------------------------------------------------------
// Server code
// ---------------------------------------------------------------------------

/// In file `k`, the call at `j` takes a lock in the `async` server function at `i`, and
/// in no call of `spawn_blocking`.
pub open spec fn takes_lock(files: Seq<ScannedFile>, k: int, i: int, b: int, j: int) -> bool {
    let t = nodes(files, k);
    let n = t[j].name@;
    &&& parses(files, k) && marked_for_server(t, i) && t[i].flag && in_body(t, i, b, j)
    &&& t[j].kind == Kind::MethodCall
    &&& n == "lock"@ || n == "read"@ || n == "write"@ || n == "try_lock"@ || n == "try_read"@ || n
        == "try_write"@
    &&& forall|m: int|
        b <= m < j && #[trigger] calls_path(t, m, "spawn_blocking"@) ==> stop(t, m) <= j
}

/// A lock that is found is taken there.
pub proof fn law_blocking_lock_is_real(
    files: Seq<ScannedFile>,
    x: server_state_blocking_locks::BlockingLockFindingView,
)
    requires
        server_state_blocking_locks::report(files).findings.contains(x),
    ensures
        exists|k: int, i: int, b: int, j: int| #[trigger]
            takes_lock(files, k, i, b, j) && x.file == files[k].path@ && x.line == nodes(
                files,
                k,
            )[j].line && x.method == nodes(files, k)[j].name@ && x.server_fn == nodes(
                files,
                k,
            )[i].name@,
{
    let outer = server_state_blocking_locks::file_locks(files);
    lemma_gather_contains(0, files.len() as int, outer, x);
    let k = choose|k: int| 0 <= k < files.len() && (#[trigger] outer(k)).contains(x);
    let t = nodes(files, k);
    let rule = server_state_blocking_locks::fn_locks(t, files[k].path@);
    lemma_gather_contains(0, t.len() as int, rule, x);
    let i = choose|i: int| 0 <= i < t.len() && (#[trigger] rule(i)).contains(x);
    let (b, hi) = (body_start(t, i), body_end(t, i));
    let inner = server_state_blocking_locks::lock_at(t, i, files[k].path@);
    lemma_gather_contains(b, hi, inner, x);
    let j = choose|j: int| b <= j < hi && (#[trigger] inner(j)).contains(x);
    lemma_server_fn(t, i);
    lemma_in_body(t, i, j);
    let p = server_state_blocking_locks::blocking_task_at(t);
    lemma_inside(t, b, j, j, p);
    assert forall|m: int|
        b <= m < j && #[trigger] calls_path(t, m, "spawn_blocking"@) implies stop(t, m) <= j by {
        assert(p(m));
    }
    assert(takes_lock(files, k, i, b, j));
}

/// In file `k`, node `j` in the server function at `i` holds the text of a cookie, as a
/// string of its own or in a macro.
pub open spec fn holds_cookie(files: Seq<ScannedFile>, k: int, i: int, b: int, j: int) -> bool {
    let t = nodes(files, k);
    &&& parses(files, k) && marked_for_server(t, i) && in_body(t, i, b, j)
    &&& t[j].kind == Kind::Str || t[j].kind == Kind::Macro
}

/// A cookie that is found stands there, and is judged as it is reported.
pub proof fn law_insecure_cookie_is_real(
    files: Seq<ScannedFile>,
    x: insecure_set_cookie::InsecureCookieFindingView,
)
    requires
        insecure_set_cookie::report(files).findings.contains(x),
    ensures
        insecure_set_cookie::severity(x.literal) == Some(x.severity),
        exists|k: int, i: int, b: int, j: int| #[trigger]
            holds_cookie(files, k, i, b, j) && x.file == files[k].path@ && x.server_fn == nodes(
                files,
                k,
            )[i].name@ && (nodes(files, k)[j].kind == Kind::Str ==> x.literal == nodes(
                files,
                k,
            )[j].name@ && x.line == nodes(files, k)[j].line),
{
    let outer = insecure_set_cookie::file_cookies(files);
    lemma_gather_contains(0, files.len() as int, outer, x);
    let k = choose|k: int| 0 <= k < files.len() && (#[trigger] outer(k)).contains(x);
    let t = nodes(files, k);
    let rule = insecure_set_cookie::fn_cookies(t, files[k].path@);
    lemma_gather_contains(0, t.len() as int, rule, x);
    let i = choose|i: int| 0 <= i < t.len() && (#[trigger] rule(i)).contains(x);
    let (b, hi) = (body_start(t, i), body_end(t, i));
    let inner = insecure_set_cookie::cookie_at(t, i, files[k].path@);
    lemma_gather_contains(b, hi, inner, x);
    let j = choose|j: int| b <= j < hi && (#[trigger] inner(j)).contains(x);
    lemma_server_fn(t, i);
    lemma_in_body(t, i, j);
    assert(holds_cookie(files, k, i, b, j));
}

// ---------------------------------------------------------------------------
// Asynchronous code
// ---------------------------------------------------------------------------

/// The block at `b` has no statement but `()` and empty ones.
pub open spec fn idles(t: Seq<Node>, b: int) -> bool {
    forall|s: int|
        b < s < stop(t, b) && (#[trigger] t[s]).parent == b ==> t[s].kind == Kind::ExprStmt && (
        operand(t, s, 0) matches Some(e) && ((t[e].kind == Kind::Tuple && t[e].count == 0) || (
        t[e].kind == Kind::Verbatim && t[e].text@.len() == 0)))
}

/// In file `k`, node `a` drops an error in asynchronous code: it is an arm of a `match`
/// that does nothing, or an `if let` with nothing in its block.
pub open spec fn drops_error(files: Seq<ScannedFile>, k: int, a: int) -> bool {
    let t = nodes(files, k);
    &&& parses(files, k) && 0 <= a < t.len()
    &&& {
        ||| {
            &&& t[a].kind == Kind::Arm && runs_async(t, t[a].parent as int)
            &&& t[t[a].parent as int].kind == Kind::Match
            &&& operand(t, a, 0) matches Some(p) && matches_err(t, p)
            &&& operand(
                t,
                a,
                if t[a].flag {
                    2
                } else {
                    1
                },
            ) matches Some(e)
            &&& {
                ||| t[e].kind == Kind::Tuple && t[e].count == 0
                ||| t[e].kind == Kind::BlockExpr && (operand(t, e, 0) matches Some(b) && idles(
                    t,
                    b,
                ))
            }
        }
        ||| {
            &&& t[a].kind == Kind::If && runs_async(t, a)
            &&& operand(t, a, 0) matches Some(l)
            &&& t[l].kind == Kind::Let
            &&& operand(t, l, 0) matches Some(p) && matches_err(t, p)
            &&& operand(t, a, 1) matches Some(b) && idles(t, b)
        }
    }
}

/// An error that is found to be dropped is dropped there.
pub proof fn law_dropped_error_is_real(
    files: Seq<ScannedFile>,
    x: empty_async_error_arm::EmptyAsyncErrorArmFindingView,
)
    requires
        empty_async_error_arm::report(files).findings.contains(x),
    ensures
        exists|k: int, a: int| #[trigger]
            drops_error(files, k, a) && x.file == files[k].path@ && (nodes(files, k)[a].kind
                == Kind::Arm ==> x.line == nodes(files, k)[a].line && x.shape == "match_arm"@) && (
            nodes(files, k)[a].kind == Kind::If ==> x.shape == "if_let_block"@),
{
    let outer = empty_async_error_arm::file_findings(files);
    lemma_sorted_contains(
        gather(0, files.len() as int, outer),
        rank::<empty_async_error_arm::EmptyAsyncErrorArmFinding>(),
        x,
    );
    lemma_gather_contains(0, files.len() as int, outer, x);
    let k = choose|k: int| 0 <= k < files.len() && (#[trigger] outer(k)).contains(x);
    let t = nodes(files, k);
    let path = files[k].path@;
    let rule = empty_async_error_arm::findings_at(t, path);
    lemma_gather_contains(0, t.len() as int, rule, x);
    let j = choose|j: int| 0 <= j < t.len() && (#[trigger] rule(j)).contains(x);
    lemma_runs_async(t, j);
    if t[j].kind == Kind::Match {
        let inner = empty_async_error_arm::arm_finding(t, j, path);
        lemma_gather_contains(j, stop(t, j), inner, x);
        let a = choose|a: int| j <= a < stop(t, j) && (#[trigger] inner(a)).contains(x);
        assert(empty_async_error_arm::drops(t, j, a));
        assert(drops_error(files, k, a));
    } else {
        assert(empty_async_error_arm::dropping_let(t, j) is Some);
        assert(drops_error(files, k, j));
    }
}

/// In file `k`, the `loop` at `l` runs in asynchronous code and holds the sleep at `w`
/// that is awaited, in no `loop` or `async` block of its own.
pub open spec fn loops_with_sleep(files: Seq<ScannedFile>, k: int, l: int, b: int, w: int) -> bool {
    let t = nodes(files, k);
    &&& parses(files, k) && 0 <= l < t.len() && t[l].kind == Kind::Loop && runs_async(t, l)
    &&& operand(t, l, 0) == Some(b) && b <= w < stop(t, b) && t[w].kind == Kind::Await
    &&& forall|m: int|
        b <= m < w && ((#[trigger] t[m]).kind == Kind::Loop || t[m].kind == Kind::Async) ==> stop(
            t,
            m,
        ) <= w
}

proof fn lemma_first_sleep_is_real(t: Seq<Node>, b: int, hi: int) -> (w: int)
    requires
        polling_future_no_backoff::first_sleep(t, b, hi) is Some,
    ensures
        b <= w < hi,
        !inside(t, b, w, polling_future_no_backoff::apart_at(t)),
        polling_future_no_backoff::constant_sleep(t, w)
            == polling_future_no_backoff::first_sleep(t, b, hi),
    decreases hi - b,
{
    match polling_future_no_backoff::first_sleep(t, b, hi - 1) {
        Some(s) => lemma_first_sleep_is_real(t, b, hi - 1),
        None => hi - 1,
    }
}

/// A loop that is found to poll sleeps there for that time.
pub proof fn law_polling_loop_is_real(
    files: Seq<ScannedFile>,
    x: polling_future_no_backoff::PollingFutureFindingView,
)
    requires
        polling_future_no_backoff::report(files).findings.contains(x),
    ensures
        x.delay_ms is Some,
        exists|k: int, l: int, b: int, w: int| #[trigger]
            loops_with_sleep(files, k, l, b, w) && x.file == files[k].path@ && (operand(
                nodes(files, k),
                w,
                0,
            ) matches Some(c) && x.line == nodes(files, k)[c].line),
{
    let outer = polling_future_no_backoff::file_findings(files);
    lemma_sorted_contains(
        gather(0, files.len() as int, outer),
        rank::<polling_future_no_backoff::PollingFutureFinding>(),
        x,
    );
    lemma_gather_contains(0, files.len() as int, outer, x);
    let k = choose|k: int| 0 <= k < files.len() && (#[trigger] outer(k)).contains(x);
    let t = nodes(files, k);
    let rule = polling_future_no_backoff::loop_finding(t, files[k].path@);
    lemma_gather_contains(0, t.len() as int, rule, x);
    let l = choose|l: int| 0 <= l < t.len() && (#[trigger] rule(l)).contains(x);
    lemma_runs_async(t, l);
    let b = operand(t, l, 0)->0;
    let w = lemma_first_sleep_is_real(t, b, stop(t, b));
    let p = polling_future_no_backoff::apart_at(t);
    lemma_inside(t, b, w, w, p);
    assert forall|m: int|
        b <= m < w && ((#[trigger] t[m]).kind == Kind::Loop || t[m].kind
            == Kind::Async) implies stop(t, m) <= w by {
        assert(p(m));
    }
    assert(loops_with_sleep(files, k, l, b, w));
}

// ---------------------------------------------------------------------------
// Identifiers and markup
// ---------------------------------------------------------------------------

/// In file `k`, node `j` tests whether something starts with `prefix`, or formats a text.
pub open spec fn uses_prefix(files: Seq<ScannedFile>, k: int, j: int, prefix: Seq<char>) -> bool {
    let t = nodes(files, k);
    &&& parses(files, k) && 0 <= j < t.len() && made_up(prefix)
    &&& {
        ||| {
            &&& t[j].kind == Kind::MethodCall && t[j].name@ == "starts_with"@
            &&& operand(t, j, 1) matches Some(a) && t[a].kind == Kind::Str && t[a].name@ == prefix
        }
        ||| t[j].kind == Kind::Macro && (t[j].name@ == "format"@ || t[j].name@ == "format_args"@)
    }
}

/// A prefix that is found is used there.
pub proof fn law_magic_prefix_is_real(
    files: Seq<ScannedFile>,
    x: magic_id_prefix::MagicIdFindingView,
)
    requires
        magic_id_prefix::report(files).findings.contains(x),
    ensures
        exists|k: int, j: int| #[trigger]
            uses_prefix(files, k, j, x.placeholder) && x.file == files[k].path@ && x.line == nodes(
                files,
                k,
            )[j].line && (x.kind == "read"@ ==> nodes(files, k)[j].kind == Kind::MethodCall) && (
            x.kind == "write"@ ==> nodes(files, k)[j].kind == Kind::Macro),
{
    let outer = magic_id_prefix::file_sites(files);
    lemma_sorted_contains(
        gather(0, files.len() as int, outer),
        rank::<magic_id_prefix::MagicIdFinding>(),
        x,
    );
    lemma_gather_contains(0, files.len() as int, outer, x);
    let k = choose|k: int| 0 <= k < files.len() && (#[trigger] outer(k)).contains(x);
    let t = nodes(files, k);
    let rule = magic_id_prefix::site(t, files[k].path@);
    lemma_gather_contains(0, t.len() as int, rule, x);
    let j = choose|j: int| 0 <= j < t.len() && (#[trigger] rule(j)).contains(x);
    reveal_strlit("read");
    reveal_strlit("write");
    assert("read"@.len() == 4 && "write"@.len() == 5);
    assert(uses_prefix(files, k, j, x.placeholder));
}

/// In file `k`, the component at `i` has in its markup at `j` a `class` with a word by
/// which the widget `w` is known.
pub open spec fn has_class(
    files: Seq<ScannedFile>,
    k: int,
    i: int,
    b: int,
    j: int,
    w: Seq<char>,
) -> bool {
    let t = nodes(files, k);
    &&& parses(files, k) && marked(t, i, "component"@) && in_body(t, i, b, j) && in_rsx(t, b, j)
    &&& t[j].kind == Kind::TokIdent && t[j].name@ == "class"@
    &&& j + 2 < t.len() && t[j + 1].kind == Kind::TokPunct && t[j + 1].name@ == ":"@
    &&& quote(t[j + 2].name@) matches Some(class)
    &&& exists|n: int|
        0 <= n < fields(class).len() && known_as(lower(#[trigger] fields(class)[n]), w)
}

/// A widget that is found by its class has that class there.
pub proof fn law_widget_class_is_real(
    files: Seq<ScannedFile>,
    wrappers: Seq<Seq<char>>,
    x: components_audit::ComponentsAuditFindingView,
)
    requires
        components_audit::report(files, wrappers).findings.contains(x),
    ensures
        !wrappers.contains(x.file),
        exists|k: int, i: int, b: int, j: int| #[trigger]
            has_class(files, k, i, b, j, x.reinvented) && x.file == files[k].path@ && x.component
                == nodes(files, k)[i].name@ && x.line == nodes(files, k)[j + 2].line,
{
    let outer = components_audit::file_findings(files, wrappers);
    lemma_sorted_contains(
        gather(0, files.len() as int, outer),
        rank::<components_audit::ComponentsAuditFinding>(),
        x,
    );
    lemma_gather_contains(0, files.len() as int, outer, x);
    let k = choose|k: int| 0 <= k < files.len() && (#[trigger] outer(k)).contains(x);
    let t = nodes(files, k);
    let path = files[k].path@;
    let rule = components_audit::component_findings(t, path);
    lemma_gather_contains(0, t.len() as int, rule, x);
    let i = choose|i: int| 0 <= i < t.len() && (#[trigger] rule(i)).contains(x);
    lemma_component(t, i);
    let hs = components_audit::hits(t, i);
    let found = components_audit::hit_finding(t, i, path, hs);
    lemma_gather_contains(0, hs.len() as int, found, x);
    let n = choose|n: int| 0 <= n < hs.len() && (#[trigger] found(n)).contains(x);
    let h = hs[n];
    assert(hs.contains(h));
    let (b, hi) = (body_start(t, i), body_end(t, i));
    let inner = components_audit::token_hits(t, b);
    lemma_gather_contains(b, hi, inner, h);
    let j = choose|j: int| b <= j < hi && (#[trigger] inner(j)).contains(h);
    lemma_in_body(t, i, j);
    lemma_in_rsx(t, b, j);
    let class = components_audit::class_at(t, j)->0;
    let words = components_audit::word_hit(class, t[j + 2].line);
    lemma_gather_contains(0, fields(class).len() as int, words, h);
    let m = choose|m: int| 0 <= m < fields(class).len() && (#[trigger] words(m)).contains(h);
    lemma_known_class(lower(fields(class)[m]), x.reinvented);
    assert(known_as(lower(fields(class)[m]), x.reinvented));
    assert(has_class(files, k, i, b, j, x.reinvented));
}

/// In file `k`, the component at `i` has in its markup at `j` the bare element `name`.
pub open spec fn has_element(
    files: Seq<ScannedFile>,
    k: int,
    i: int,
    b: int,
    j: int,
    name: Seq<char>,
) -> bool {
    let t = nodes(files, k);
    &&& parses(files, k) && marked(t, i, "component"@) && in_body(t, i, b, j) && in_rsx(t, b, j)
    &&& t[j].kind == Kind::TokIdent && t[j].name@ == name
    &&& name == "dialog"@ || name == "input"@ || name == "select"@ || name == "textarea"@
    &&& j + 1 < t.len() && t[j + 1].kind == Kind::TokGroup && t[j + 1].name@ == "{"@
}

/// In file `k`, the component at `i` handles `ondragover` at `over` and `ondrop` at `drop`
/// in its markup.
pub open spec fn has_drag(
    files: Seq<ScannedFile>,
    k: int,
    i: int,
    b: int,
    over: int,
    drop: int,
) -> bool {
    let t = nodes(files, k);
    &&& parses(files, k) && marked(t, i, "component"@)
    &&& in_body(t, i, b, over) && in_rsx(t, b, over)
    &&& t[over].kind == Kind::TokIdent && t[over].name@ == "ondragover"@
    &&& in_body(t, i, b, drop) && in_rsx(t, b, drop)
    &&& t[drop].kind == Kind::TokIdent && t[drop].name@ == "ondrop"@
}

proof fn lemma_element_is_real(t: Seq<Node>, lo: int, hi: int, name: Seq<char>)
    ensures
        reinvented_widget::first_element(t, lo, hi, name) matches Some(m) ==> lo <= m < hi
            && reinvented_widget::element(t, lo, m, name),
    decreases hi - lo,
{
    if lo < hi {
        lemma_element_is_real(t, lo, hi - 1, name);
    }
}

/// A bare element or a hand-made drag and drop that is found is there.
pub proof fn law_reinvented_widget_is_real(
    files: Seq<ScannedFile>,
    wrappers: Seq<Seq<char>>,
    x: reinvented_widget::ReinventedFindingView,
)
    requires
        reinvented_widget::report(files, wrappers).findings.contains(x),
    ensures
        !wrappers.contains(x.file),
        (exists|k: int, i: int, b: int, j: int| #[trigger]
            has_element(files, k, i, b, j, x.reinvented) && x.file == files[k].path@ && x.component
                == nodes(files, k)[i].name@ && x.line == nodes(files, k)[j].line) || (
        x.reinvented == "drag_and_drop_list"@ && exists|
            k: int,
            i: int,
            b: int,
            over: int,
            drop: int,
        | #[trigger]
            has_drag(files, k, i, b, over, drop) && x.file == files[k].path@ && x.component
                == nodes(files, k)[i].name@),
{
    let outer = reinvented_widget::file_findings(files, wrappers);
    lemma_sorted_contains(
        gather(0, files.len() as int, outer),
        rank::<reinvented_widget::ReinventedFinding>(),
        x,
    );
    lemma_gather_contains(0, files.len() as int, outer, x);
    let k = choose|k: int| 0 <= k < files.len() && (#[trigger] outer(k)).contains(x);
    let t = nodes(files, k);
    let path = files[k].path@;
    let rule = reinvented_widget::component_findings(t, path);
    lemma_gather_contains(0, t.len() as int, rule, x);
    let i = choose|i: int| 0 <= i < t.len() && (#[trigger] rule(i)).contains(x);
    lemma_component(t, i);
    let (b, hi) = (body_start(t, i), body_end(t, i));
    let name = x.reinvented;
    let parts = (
        reinvented_widget::element_finding(t, i, path, "dialog"@),
        reinvented_widget::element_finding(t, i, path, "input"@),
        reinvented_widget::element_finding(t, i, path, "select"@),
        reinvented_widget::element_finding(t, i, path, "textarea"@),
        reinvented_widget::drag_finding(t, i, path),
    );
    lemma_among_five(parts.0, parts.1, parts.2, parts.3, parts.4, x);
    if parts.4.contains(x) {
        let over = choose|j: int|
            b <= j < hi && reinvented_widget::handler(t, b, j, "ondragover"@);
        let drop = choose|j: int| b <= j < hi && reinvented_widget::handler(t, b, j, "ondrop"@);
        lemma_in_body(t, i, over);
        lemma_in_body(t, i, drop);
        lemma_in_rsx(t, b, over);
        lemma_in_rsx(t, b, drop);
        assert(has_drag(files, k, i, b, over, drop));
    } else {
        lemma_element_is_real(t, b, hi, name);
        let j = reinvented_widget::first_element(t, b, hi, name)->0;
        lemma_in_body(t, i, j);
        lemma_in_rsx(t, b, j);
        assert(has_element(files, k, i, b, j, name));
    }
}

proof fn lemma_among_five<A>(a: Seq<A>, b: Seq<A>, c: Seq<A>, d: Seq<A>, e: Seq<A>, x: A)
    requires
        (a + b + c + d + e).contains(x),
    ensures
        a.contains(x) || b.contains(x) || c.contains(x) || d.contains(x) || e.contains(x),
{
    let all = a + b + c + d + e;
    let n = choose|n: int| 0 <= n < all.len() && all[n] == x;
    let p = a.len() as int;
    let q = p + b.len();
    let r = q + c.len();
    let s = r + d.len();
    if n < p {
        assert(a[n] == x);
    } else if n < q {
        assert(b[n - p] == x);
    } else if n < r {
        assert(c[n - q] == x);
    } else if n < s {
        assert(d[n - r] == x);
    } else {
        assert(e[n - s] == x);
    }
}

// ---------------------------------------------------------------------------
// Props
// ---------------------------------------------------------------------------

/// In file `k`, the component at `i` takes at `j` an argument that is cloned as a whole.
pub open spec fn takes_owned(
    files: Seq<ScannedFile>,
    k: int,
    i: int,
    j: int,
    arg: Seq<char>,
) -> bool {
    let t = nodes(files, k);
    &&& parses(files, k) && marked(t, i, "component"@)
    &&& i <= j < stop(t, i) && t[j].kind == Kind::Arg && t[j].parent == i
    &&& operand(t, j, 0) matches Some(p) && pat_name(t, p) == Some(arg)
    &&& operand(t, j, 1) matches Some(ty)
    &&& t[ty].kind == Kind::TyPath && cloned_whole(t[ty].name@)
}

/// An owned prop that is found is an argument of that component.
pub proof fn law_owned_prop_is_real(
    files: Seq<ScannedFile>,
    x: owned_props::VecOrOwnedFindingView,
)
    requires
        owned_props::report(files).findings.contains(x),
    ensures
        exists|k: int, i: int, j: int| #[trigger]
            takes_owned(files, k, i, j, x.arg_name) && x.file == files[k].path@ && x.component
                == nodes(files, k)[i].name@ && x.line == nodes(files, k)[j].line,
{
    let cs = owned_props::signatures(files);
    let rule = owned_props::component_findings(cs);
    lemma_sorted_contains(
        gather(0, cs.len() as int, rule),
        rank::<owned_props::VecOrOwnedFinding>(),
        x,
    );
    lemma_gather_contains(0, cs.len() as int, rule, x);
    let n = choose|n: int| 0 <= n < cs.len() && (#[trigger] rule(n)).contains(x);
    let c = cs[n];
    let found = owned_props::arg_finding(cs, c);
    lemma_gather_contains(0, c.args.len() as int, found, x);
    let a = choose|a: int| 0 <= a < c.args.len() && (#[trigger] found(a)).contains(x);
    assert(cs.contains(c));
    let outer = owned_props::file_signatures_at(files);
    lemma_gather_contains(0, files.len() as int, outer, c);
    let k = choose|k: int| 0 <= k < files.len() && (#[trigger] outer(k)).contains(c);
    let t = nodes(files, k);
    let sigs = owned_props::signature_at(t, files[k].path@);
    lemma_gather_contains(0, t.len() as int, sigs, c);
    let i = choose|i: int| 0 <= i < t.len() && (#[trigger] sigs(i)).contains(c);
    lemma_component(t, i);
    let args = owned_props::owned_arg_at(t, i);
    let o = c.args[a];
    assert(c.args.contains(o));
    lemma_gather_contains(i, stop(t, i), args, o);
    let j = choose|j: int| i <= j < stop(t, i) && (#[trigger] args(j)).contains(o);
    assert(takes_owned(files, k, i, j, x.arg_name));
}

/// In file `k`, the struct at `i` derives `Props` and not `PartialEq`.
pub open spec fn derives_props_alone(files: Seq<ScannedFile>, k: int, i: int, d: int) -> bool {
    let t = nodes(files, k);
    &&& parses(files, k) && 0 < i < t.len() && t[i].kind == Kind::Struct && t[i].parent == 0
    &&& i < d < stop(t, i) && t[d].kind == Kind::Derive && t[d].name@ == "Props"@
    &&& forall|y: int|
        i < y < stop(t, i) && #[trigger] props_lint::derive_at(t, i, y, "PartialEq"@) ==> false
}

/// A struct that is found to lack `PartialEq` derives `Props` without it.
pub proof fn law_props_without_partial_eq_is_real(
    files: Seq<ScannedFile>,
    x: props_lint::PropsIssueView,
)
    requires
        props_lint::report(files).issues.contains(x),
        x.code == "props_missing_partial_eq"@,
    ensures
        exists|k: int, i: int, d: int| #[trigger]
            derives_props_alone(files, k, i, d) && x.file == files[k].path@ && x.line == nodes(
                files,
                k,
            )[i].line && x.struct_name == nodes(files, k)[i].name@,
{
    let known = props_lint::known_types(files);
    let outer = props_lint::file_issues(files, known);
    lemma_gather_contains(0, files.len() as int, outer, x);
    let k = choose|k: int| 0 <= k < files.len() && (#[trigger] outer(k)).contains(x);
    let t = nodes(files, k);
    let path = files[k].path@;
    let rule = props_lint::item_issues(t, known, path);
    lemma_gather_contains(0, t.len() as int, rule, x);
    let i = choose|i: int| 0 <= i < t.len() && (#[trigger] rule(i)).contains(x);
    if t[i].kind == Kind::Struct && t[i].parent == 0 && i > 0 {
        let d = choose|d: int| i < d < stop(t, i) && props_lint::derive_at(t, i, d, "Props"@);
        assert(derives_props_alone(files, k, i, d));
    } else {
        let inner = props_lint::arg_issue(t, i, known, path);
        lemma_gather_contains(i, stop(t, i), inner, x);
        let j = choose|j: int| i <= j < stop(t, i) && (#[trigger] inner(j)).contains(x);
        reveal_strlit("props_missing_partial_eq");
        reveal_strlit("missing_partial_eq_on_prop_type");
        assert("props_missing_partial_eq"@.len() == 24
            && "missing_partial_eq_on_prop_type"@.len() == 31);
    }
}

/// In file `k`, the component at `i` calls at `j`, in the `rsx!` at `m` and not in a
/// `use_memo`, the function `name`.
pub open spec fn calls_in_rsx(
    files: Seq<ScannedFile>,
    k: int,
    i: int,
    m: int,
    j: int,
    name: Seq<char>,
) -> bool {
    let t = nodes(files, k);
    &&& parses(files, k) && marked(t, i, "component"@)
    &&& 0 <= m <= j < stop(t, m) && t[m].kind == Kind::Macro && t[m].name@ == "rsx"@
    &&& t[j].kind == Kind::TokIdent && t[j].name@ == name
    &&& j + 1 < t.len() && t[j + 1].kind == Kind::TokGroup && t[j + 1].name@ == "("@
    &&& forall|g: int| m <= g < j && #[trigger] memoized(t, g) ==> stop(t, g) <= j
}

/// A derived view that is found is called there and made by a function that derives it.
pub proof fn law_derived_view_is_real(
    files: Seq<ScannedFile>,
    x: derived_view_no_memo::DerivedViewFindingView,
)
    requires
        derived_view_no_memo::report(files).findings.contains(x),
    ensures
        exists|k: int, i: int, m: int, j: int| #[trigger]
            calls_in_rsx(files, k, i, m, j, x.callee) && x.file == files[k].path@ && x.component
                == nodes(files, k)[i].name@,
        exists|k: int, f: int, a: int, ty: int, e: int, r: int|
            parses(files, k) && #[trigger] derives_vec(nodes(files, k), f, a, ty, e, r) && nodes(
                files,
                k,
            )[f].name@ == x.callee,
{
    let names = derived_view_no_memo::derivations(files);
    let all = derived_view_no_memo::file_findings(files, names);
    lemma_sorted_contains(
        gather(0, files.len() as int, all),
        rank::<derived_view_no_memo::DerivedViewFinding>(),
        x,
    );
    lemma_gather_contains(0, files.len() as int, all, x);
    let k = choose|k: int| 0 <= k < files.len() && (#[trigger] all(k)).contains(x);
    let t = nodes(files, k);
    let path = files[k].path@;
    assert(files[k].ast->Ok_0.len() == t.len());
    let comp = derived_view_no_memo::component_findings(t, path, names);
    lemma_gather_contains(0, t.len() as int, comp, x);
    let i = choose|i: int| 0 <= i < t.len() && (#[trigger] comp(i)).contains(x);
    lemma_component(t, i);
    let (b, hi) = (body_start(t, i), body_end(t, i));
    let markup = derived_view_no_memo::rsx_findings(t, i, names, path);
    lemma_gather_contains(b, hi, markup, x);
    let m = choose|m: int| b <= m < hi && (#[trigger] markup(m)).contains(x);
    lemma_in_body(t, i, m);
    let cs = derived_view_no_memo::calls(t, m, names);
    let found = derived_view_no_memo::call_findings(t, cs, i, path);
    lemma_gather_contains(0, cs.len() as int, found, x);
    let n = choose|n: int| 0 <= n < cs.len() && (#[trigger] found(n)).contains(x);
    let callee = derived_view_no_memo::callee_at(t, m, names);
    assert(cs.contains(cs[n]));
    lemma_gather_contains(m, stop(t, m), callee, cs[n]);
    let j = choose|j: int| m <= j < stop(t, m) && (#[trigger] callee(j)).contains(cs[n]);
    assert(cs[n] == j as usize);
    let p = derived_view_no_memo::memo_at(t);
    lemma_inside(t, m, j, j, p);
    assert forall|g: int| m <= g < j && #[trigger] memoized(t, g) implies stop(t, g) <= j by {
        assert(p(g));
    }
    assert(calls_in_rsx(files, k, i, m, j, x.callee));
    let name = x.callee;
    let outer = derived_view_no_memo::file_derivations(files);
    lemma_gather_contains(0, files.len() as int, outer, name);
    let k2 = choose|k2: int| 0 <= k2 < files.len() && (#[trigger] outer(k2)).contains(name);
    let u = nodes(files, k2);
    let rule = derived_view_no_memo::derivation_at(u);
    lemma_gather_contains(0, u.len() as int, rule, name);
    let f = choose|f: int| 0 <= f < u.len() && (#[trigger] rule(f)).contains(name);
    let a = operand(u, f, 0)->0;
    let r = operand(u, f, u[f].count as nat)->0;
    let ty = operand(u, a, 1)->0;
    let e = operand(u, ty, 0)->0;
    assert(derives_vec(nodes(files, k2), f, a, ty, e, r));
    assert(parses(files, k2));
}

} // verus!
