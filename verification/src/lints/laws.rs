//! What the lints on whole files find, in terms of the nodes.
use vstd::prelude::*;

use super::empty_async_error_arm;
use super::insecure_set_cookie;
use super::magic_id_prefix;
use super::polling_future_no_backoff;
use super::server_state_blocking_locks;
use super::signal_lint::laws::{calls_path, nodes};
use crate::literal::quote;
use crate::order::{gather, lemma_gather_contains, lemma_sorted_contains, rank};
use crate::plain::under;
use crate::scan::{
    asynchronous_at, attr_at, body_end, body_start, inside, lemma_inside, rsx_at, server_fn,
    ScannedFile,
};
use crate::tape::{operand, stop, Kind, Node};
use crate::text::{at, lower, parts, trimmed};

verus! {

/// File number `k` parses.
pub open spec fn parses(files: Seq<ScannedFile>, k: int) -> bool {
    0 <= k < files.len() && files[k].ast is Ok
}

/// Node `j` stands in asynchronous code: in an `async` block, or in an `async`
/// function, method or closure.
pub open spec fn in_async(t: Seq<Node>, j: int) -> bool {
    exists|m: int| #[trigger]
        under(t, m, j) && (t[m].kind == Kind::Async || (t[m].flag && (t[m].kind == Kind::Fn
            || t[m].kind == Kind::Method || t[m].kind == Kind::Closure)))
}

proof fn lemma_in_async(t: Seq<Node>, j: int)
    requires
        in_async(t, j),
    ensures
        inside(t, 0, j, asynchronous_at(t)),
{
    let m = choose|m: int| #[trigger]
        under(t, m, j) && (t[m].kind == Kind::Async || (t[m].flag && (t[m].kind == Kind::Fn
            || t[m].kind == Kind::Method || t[m].kind == Kind::Closure)));
    lemma_inside(t, 0, j, j, asynchronous_at(t));
    assert(asynchronous_at(t)(m) && stop(t, m) > j);
}

/// Node `j` stands in an `rsx!` that begins at `lo` or later.
pub open spec fn in_markup(t: Seq<Node>, lo: int, j: int) -> bool {
    exists|m: int|
        lo <= m && #[trigger] under(t, m, j) && t[m].kind == Kind::Macro && t[m].name@ == "rsx"@
}

pub proof fn lemma_in_markup(t: Seq<Node>, lo: int, j: int)
    requires
        0 <= lo,
        in_markup(t, lo, j),
    ensures
        inside(t, lo, j, rsx_at(t)),
{
    let m = choose|m: int|
        lo <= m && #[trigger] under(t, m, j) && t[m].kind == Kind::Macro && t[m].name@ == "rsx"@;
    lemma_inside(t, lo, j, j, rsx_at(t));
    assert(rsx_at(t)(m) && stop(t, m) > j);
}

/// Node `i` is a function at the top level that the server runs, by an attribute
/// `server` or one named after a verb of HTTP, and its body is the node at `b`.
pub open spec fn server_fn_with_body(t: Seq<Node>, i: int, b: int) -> bool {
    &&& 0 < i < t.len() && t[i].kind == Kind::Fn && t[i].parent == 0
    &&& exists|a: int|
        under(t, i, a) && (#[trigger] t[a]).kind == Kind::Attr && t[a].parent == i && (t[a].name@
            == "server"@ || t[a].name@ == "get"@ || t[a].name@ == "post"@ || t[a].name@ == "put"@
            || t[a].name@ == "delete"@ || t[a].name@ == "patch"@)
    &&& operand(t, i, (t[i].count + 1) as nat) == Some(b)
    &&& 0 <= b < t[b].end <= t.len()
}

pub proof fn lemma_server_fn_with_body(t: Seq<Node>, i: int, b: int)
    requires
        server_fn_with_body(t, i, b),
    ensures
        server_fn(t, i),
        body_start(t, i) == b,
        body_end(t, i) == t[b].end,
{
    let a = choose|a: int|
        under(t, i, a) && (#[trigger] t[a]).kind == Kind::Attr && t[a].parent == i && (t[a].name@
            == "server"@ || t[a].name@ == "get"@ || t[a].name@ == "post"@ || t[a].name@ == "put"@
            || t[a].name@ == "delete"@ || t[a].name@ == "patch"@);
    assert(attr_at(t, i, a, t[a].name@));
}

// ---------------------------------------------------------------------------
// Errors that are dropped
// ---------------------------------------------------------------------------

/// Node `p` is the pattern `Err(..)`.
pub open spec fn matches_err(t: Seq<Node>, p: int) -> bool {
    t[p].kind == Kind::PatTupleStruct && t[p].name@ == "Err"@
}

/// The block at `b` holds no statements.
pub open spec fn holds_nothing(t: Seq<Node>, b: int) -> bool {
    forall|s: int| b < s < stop(t, b) ==> (#[trigger] t[s]).parent != b
}

/// Node `e` does nothing: it is `()` or a block without statements.
pub open spec fn does_nothing(t: Seq<Node>, e: int) -> bool {
    ||| t[e].kind == Kind::Tuple && t[e].count == 0
    ||| t[e].kind == Kind::BlockExpr && (operand(t, e, 0) matches Some(b) && holds_nothing(t, b))
}

/// In asynchronous code, an arm `Err(..)` of a `match` that does nothing is found, with
/// or without a guard.
pub proof fn law_dropped_error_in_match_is_found(
    files: Seq<ScannedFile>,
    k: int,
    m: int,
    a: int,
    p: int,
    e: int,
)
    requires
        parses(files, k),
        ({
            let t = nodes(files, k);
            &&& in_async(t, m) && 0 <= m && t[m].kind == Kind::Match
            &&& under(t, m, a) && t[a].kind == Kind::Arm && t[a].parent == m
            &&& operand(t, a, 0) == Some(p) && matches_err(t, p)
            &&& operand(
                t,
                a,
                if t[a].flag {
                    2
                } else {
                    1
                },
            ) == Some(e)
            &&& does_nothing(t, e)
        }),
    ensures
        exists|x: empty_async_error_arm::EmptyAsyncErrorArmFindingView| #[trigger]
            empty_async_error_arm::report(files).findings.contains(x) && x.file == files[k].path@
                && x.line == nodes(files, k)[a].line && x.shape == "match_arm"@ && x.code
                == "empty_async_error_arm"@,
{
    let t = nodes(files, k);
    let path = files[k].path@;
    lemma_in_async(t, m);
    let inner = empty_async_error_arm::arm_finding(t, m, path);
    let x = inner(a)[0];
    assert(inner(a).contains(x));
    lemma_gather_contains(m, stop(t, m), inner, x);
    let rule = empty_async_error_arm::findings_at(t, path);
    assert(rule(m).contains(x));
    lemma_gather_contains(0, t.len() as int, rule, x);
    lemma_error_arm_reported(files, k, x);
}

/// In asynchronous code, an `if let Err(..)` with nothing in its block is found.
pub proof fn law_dropped_error_in_if_let_is_found(
    files: Seq<ScannedFile>,
    k: int,
    j: int,
    l: int,
    p: int,
    b: int,
)
    requires
        parses(files, k),
        ({
            let t = nodes(files, k);
            &&& in_async(t, j) && 0 <= j < t.len() && t[j].kind == Kind::If
            &&& operand(t, j, 0) == Some(l) && t[l].kind == Kind::Let
            &&& operand(t, l, 0) == Some(p) && matches_err(t, p)
            &&& operand(t, j, 1) == Some(b) && holds_nothing(t, b)
        }),
    ensures
        exists|x: empty_async_error_arm::EmptyAsyncErrorArmFindingView| #[trigger]
            empty_async_error_arm::report(files).findings.contains(x) && x.file == files[k].path@
                && x.line == nodes(files, k)[l].line && x.shape == "if_let_block"@ && x.code
                == "empty_async_error_arm"@,
{
    let t = nodes(files, k);
    let path = files[k].path@;
    lemma_in_async(t, j);
    let rule = empty_async_error_arm::findings_at(t, path);
    let x = rule(j)[0];
    assert(rule(j).contains(x));
    lemma_gather_contains(0, t.len() as int, rule, x);
    lemma_error_arm_reported(files, k, x);
}

proof fn lemma_error_arm_reported(
    files: Seq<ScannedFile>,
    k: int,
    x: empty_async_error_arm::EmptyAsyncErrorArmFindingView,
)
    requires
        parses(files, k),
        gather(
            0,
            nodes(files, k).len() as int,
            empty_async_error_arm::findings_at(nodes(files, k), files[k].path@),
        ).contains(x),
    ensures
        empty_async_error_arm::report(files).findings.contains(x),
{
    let rule = empty_async_error_arm::file_findings(files);
    assert(rule(k).contains(x));
    lemma_gather_contains(0, files.len() as int, rule, x);
    lemma_sorted_contains(
        gather(0, files.len() as int, rule),
        rank::<empty_async_error_arm::EmptyAsyncErrorArmFinding>(),
        x,
    );
}

// ---------------------------------------------------------------------------
// Loops that poll
// ---------------------------------------------------------------------------

/// The argument at `e` is a constant delay of `ms` milliseconds: a whole number, or a
/// duration made of one.
pub open spec fn delay_of(t: Seq<Node>, e: int, ms: u64) -> bool {
    ||| t[e].kind == Kind::Int && t[e].flag && t[e].value == ms
    ||| {
        &&& operand(t, e, 1) matches Some(v)
        &&& e < v && t[v].kind == Kind::Int && t[v].flag
        &&& {
            ||| (calls_path(t, e, "from_millis"@) || calls_path(t, e, "millis"@)) && t[v].value == ms
            ||| (calls_path(t, e, "from_secs"@) || calls_path(t, e, "secs"@)) && t[v].value * 1000
                == ms
            ||| (calls_path(t, e, "from_micros"@) || calls_path(t, e, "micros"@)) && t[v].value
                as int / 1000 == ms
            ||| (calls_path(t, e, "from_nanos"@) || calls_path(t, e, "nanos"@)) && t[v].value as int
                / 1000000 == ms
        }
    }
}

/// The call at `c` waits for what its argument says, and is known as `name`.
pub open spec fn sleeps_as(t: Seq<Node>, c: int, name: Seq<char>) -> bool {
    ||| {
        let n = t[c].name@;
        t[c].kind == Kind::MethodCall && name == n && (n == "sleep"@ || n == "delay_for"@ || n
            == "delay_until"@)
    }
    ||| {
        &&& t[c].kind == Kind::Call
        &&& operand(t, c, 0) matches Some(f)
        &&& t[f].kind == Kind::Path
        &&& {
            let n = t[f].name@;
            ||| n == "sleep"@ || n == "delay_for"@ || n == "delay_until"@ || n == "sleep_until"@
            ||| n == "new"@ && (t[f].text@ == "TimeoutFuture"@ || t[f].text@ == "Timer"@ || t[f].text@
                == "Delay"@ || t[f].text@ == "Interval"@ || t[f].text@ == "Sleep"@)
        }
        &&& name == if t[f].count >= 2 {
            t[f].text@ + "::"@ + t[f].name@
        } else {
            t[f].name@
        }
    }
}

proof fn lemma_units()
    ensures
        "from_secs"@ != "from_millis"@,
        "from_secs"@ != "millis"@,
        "secs"@ != "from_millis"@,
        "secs"@ != "millis"@,
        "from_nanos"@ != "from_millis"@,
        "from_nanos"@ != "millis"@,
        "from_nanos"@ != "from_secs"@,
        "from_nanos"@ != "secs"@,
        "nanos"@ != "from_millis"@,
        "nanos"@ != "millis"@,
        "nanos"@ != "from_secs"@,
        "nanos"@ != "secs"@,
        "from_micros"@ != "from_millis"@,
        "from_micros"@ != "millis"@,
        "from_micros"@ != "from_secs"@,
        "from_micros"@ != "secs"@,
        "from_micros"@ != "from_nanos"@,
        "from_micros"@ != "nanos"@,
        "micros"@ != "from_millis"@,
        "micros"@ != "millis"@,
        "micros"@ != "from_secs"@,
        "micros"@ != "secs"@,
        "micros"@ != "from_nanos"@,
        "micros"@ != "nanos"@,
{
    reveal_strlit("from_millis");
    reveal_strlit("millis");
    reveal_strlit("from_secs");
    reveal_strlit("secs");
    reveal_strlit("from_micros");
    reveal_strlit("micros");
    reveal_strlit("from_nanos");
    reveal_strlit("nanos");
    assert("from_millis"@.len() == 11 && "millis"@.len() == 6 && "from_secs"@.len() == 9
        && "secs"@.len() == 4 && "from_micros"@.len() == 11 && "micros"@.len() == 6
        && "from_nanos"@.len() == 10 && "nanos"@.len() == 5);
    assert("from_millis"@[7] == 'l' && "from_micros"@[7] == 'c');
    assert("millis"@[2] == 'l' && "micros"@[2] == 'c');
}

proof fn lemma_delay(t: Seq<Node>, e: int, ms: u64)
    requires
        0 <= e < t.len(),
        delay_of(t, e, ms),
    ensures
        polling_future_no_backoff::constant(t, e) == Some(ms),
{
    lemma_units();
    reveal_with_fuel(polling_future_no_backoff::constant, 2);
    if t[e].kind != Kind::Int {
        crate::tape::lemma_operand_bounds(t, e, 1);
        let v = operand(t, e, 1)->0;
        assert(polling_future_no_backoff::constant(t, v) == Some(t[v].value));
    }
}

/// Node `w` is the only thing that the loop body `b` awaits.
pub open spec fn awaits_only(t: Seq<Node>, b: int, w: int) -> bool {
    &&& b < w < stop(t, b) && t[w].kind == Kind::Await
    &&& forall|x: int| b <= x < stop(t, b) && (#[trigger] t[x]).kind == Kind::Await ==> x == w
    &&& forall|x: int|
        b <= x < w && (#[trigger] t[x]).kind == Kind::Loop || t[x].kind == Kind::Async ==> stop(
            t,
            x,
        ) <= w || x < b || x >= w
}

proof fn lemma_first_sleep(t: Seq<Node>, b: int, hi: int, w: int)
    requires
        0 <= b < w,
        hi <= stop(t, b),
        awaits_only(t, b, w),
        polling_future_no_backoff::constant_sleep(t, w) is Some,
        !inside(t, b, w, polling_future_no_backoff::apart_at(t)),
    ensures
        polling_future_no_backoff::first_sleep(t, b, hi) == if hi <= w {
            None
        } else {
            polling_future_no_backoff::constant_sleep(t, w)
        },
    decreases hi - b,
{
    if b < hi {
        lemma_first_sleep(t, b, hi - 1, w);
        if hi - 1 != w {
            assert(t[hi - 1].kind != Kind::Await);
        }
    }
}

/// A `loop` in asynchronous code that awaits nothing but a constant sleep is found,
/// with the line, the delay in milliseconds and the name of the sleep.
pub proof fn law_constant_sleep_is_found(
    files: Seq<ScannedFile>,
    k: int,
    j: int,
    b: int,
    w: int,
    c: int,
    a: int,
    name: Seq<char>,
    ms: u64,
)
    requires
        parses(files, k),
        ({
            let t = nodes(files, k);
            &&& in_async(t, j) && 0 <= j < t.len() && t[j].kind == Kind::Loop
            &&& operand(t, j, 0) == Some(b) && 0 <= b < t.len() && awaits_only(t, b, w)
            &&& operand(t, w, 0) == Some(c) && sleeps_as(t, c, name)
            &&& operand(t, c, 1) == Some(a) && 0 <= a < t.len() && delay_of(t, a, ms)
        }),
    ensures
        exists|x: polling_future_no_backoff::PollingFutureFindingView| #[trigger]
            polling_future_no_backoff::report(files).findings.contains(x) && x.file
                == files[k].path@ && x.line == nodes(files, k)[c].line && x.delay_ms == Some(ms)
                && x.sleep_call == name && x.severity == "warning"@ && x.code
                == "polling_future_no_backoff"@,
{
    let t = nodes(files, k);
    let path = files[k].path@;
    lemma_in_async(t, j);
    lemma_delay(t, a, ms);
    lemma_sleep_names();
    let s = polling_future_no_backoff::awaited_sleep(t, w);
    assert(s is Some && s->0.delay_ms == Some(ms) && s->0.line == t[c].line && s->0.path_tail
        == name);
    let p = polling_future_no_backoff::apart_at(t);
    lemma_inside(t, b, w, w, p);
    if inside(t, b, w, p) {
        let m = choose|m: int| b <= m < w && #[trigger] p(m) && stop(t, m) > w;
        assert(t[m].kind == Kind::Loop || t[m].kind == Kind::Async);
    }
    lemma_first_sleep(t, b, stop(t, b), w);
    let rule = polling_future_no_backoff::loop_finding(t, path);
    let x = rule(j)[0];
    assert(rule(j).contains(x));
    lemma_gather_contains(0, t.len() as int, rule, x);
    let outer = polling_future_no_backoff::file_findings(files);
    assert(outer(k).contains(x));
    lemma_gather_contains(0, files.len() as int, outer, x);
    lemma_sorted_contains(
        gather(0, files.len() as int, outer),
        rank::<polling_future_no_backoff::PollingFutureFinding>(),
        x,
    );
    assert(polling_future_no_backoff::report(files).findings.contains(x));
}

proof fn lemma_sleep_names()
    ensures
        "sleep"@ != "new"@,
        "delay_for"@ != "new"@,
        "delay_until"@ != "new"@,
        "sleep_until"@ != "new"@,
{
    reveal_strlit("sleep");
    reveal_strlit("delay_for");
    reveal_strlit("delay_until");
    reveal_strlit("sleep_until");
    reveal_strlit("new");
    assert("new"@.len() == 3 && "sleep"@.len() == 5 && "delay_for"@.len() == 9
        && "delay_until"@.len() == 11 && "sleep_until"@.len() == 11);
}

// ---------------------------------------------------------------------------
// Locks that block
// ---------------------------------------------------------------------------

/// In an `async` server function, a call of `lock`, `read`, `write`, `try_lock`,
/// `try_read` or `try_write` is found, unless it stands in a call of `spawn_blocking`.
pub proof fn law_blocking_lock_is_found(files: Seq<ScannedFile>, k: int, i: int, b: int, j: int)
    requires
        parses(files, k),
        ({
            let t = nodes(files, k);
            let n = t[j].name@;
            &&& server_fn_with_body(t, i, b) && t[i].flag
            &&& b <= j < t[b].end && t[j].kind == Kind::MethodCall
            &&& n == "lock"@ || n == "read"@ || n == "write"@ || n == "try_lock"@ || n
                == "try_read"@ || n == "try_write"@
            &&& forall|m: int|
                b <= m < j && #[trigger] calls_path(t, m, "spawn_blocking"@) ==> stop(t, m) <= j
        }),
    ensures
        exists|x: server_state_blocking_locks::BlockingLockFindingView| #[trigger]
            server_state_blocking_locks::report(files).findings.contains(x) && x.file
                == files[k].path@ && x.line == nodes(files, k)[j].line && x.server_fn == nodes(
                files,
                k,
            )[i].name@ && x.method == nodes(files, k)[j].name@ && x.code
                == "server_state_blocking_locks"@,
{
    let t = nodes(files, k);
    let path = files[k].path@;
    lemma_server_fn_with_body(t, i, b);
    let p = server_state_blocking_locks::blocking_task_at(t);
    lemma_inside(t, b, j, j, p);
    if inside(t, b, j, p) {
        let m = choose|m: int| b <= m < j && #[trigger] p(m) && stop(t, m) > j;
        assert(calls_path(t, m, "spawn_blocking"@));
    }
    let inner = server_state_blocking_locks::lock_at(t, i, path);
    let x = inner(j)[0];
    assert(inner(j).contains(x));
    lemma_gather_contains(b, t[b].end as int, inner, x);
    let rule = server_state_blocking_locks::fn_locks(t, path);
    assert(rule(i).contains(x));
    lemma_gather_contains(0, t.len() as int, rule, x);
    let outer = server_state_blocking_locks::file_locks(files);
    assert(outer(k).contains(x));
    lemma_gather_contains(0, files.len() as int, outer, x);
    assert(server_state_blocking_locks::report(files).findings.contains(x));
}

// ---------------------------------------------------------------------------
// Cookies
// ---------------------------------------------------------------------------

/// The text `part` is an attribute of a cookie, whatever the case of its letters.
pub open spec fn cookie_attribute(part: Seq<char>) -> bool {
    let l = lower(trimmed(part));
    ||| l == "secure"@ || l == "httponly"@ || l == "partitioned"@
    ||| at(l, "samesite="@, 0) || at(l, "path="@, 0) || at(l, "max-age="@, 0)
    ||| at(l, "expires="@, 0) || at(l, "domain="@, 0)
}

/// The texts between the semicolons of `s` hold no line breaks.
pub open spec fn unbroken(s: Seq<char>) -> bool {
    forall|k: int|
        0 <= k < parts(s, ';').len() ==> !trimmed(#[trigger] parts(s, ';')[k]).contains('\n')
            && !trimmed(parts(s, ';')[k]).contains('\r')
}

proof fn lemma_cookie_part(s: Seq<char>, k: int)
    requires
        unbroken(s),
        0 <= k < parts(s, ';').len(),
        trimmed(parts(s, ';')[k]).len() > 0,
    ensures
        insecure_set_cookie::cookie_parts(s).contains(trimmed(parts(s, ';')[k])),
{
    let rule = insecure_set_cookie::likely_part(s);
    let p = trimmed(parts(s, ';')[k]);
    assert(rule(k)[0] == p);
    assert(rule(k).contains(p));
    lemma_gather_contains(0, parts(s, ';').len() as int, rule, p);
}

proof fn lemma_cookie_part_is_real(s: Seq<char>, n: int) -> (k: int)
    requires
        0 <= n < insecure_set_cookie::cookie_parts(s).len(),
    ensures
        0 <= k < parts(s, ';').len(),
        insecure_set_cookie::cookie_parts(s)[n] == trimmed(parts(s, ';')[k]),
{
    let p = insecure_set_cookie::cookie_parts(s)[n];
    let rule = insecure_set_cookie::likely_part(s);
    assert(insecure_set_cookie::cookie_parts(s).contains(p));
    lemma_gather_contains(0, parts(s, ';').len() as int, rule, p);
    choose|k: int| 0 <= k < parts(s, ';').len() && (#[trigger] rule(k)).contains(p)
}

proof fn lemma_attribute_is_text(part: Seq<char>)
    requires
        cookie_attribute(part),
    ensures
        trimmed(part).len() > 0,
{
    reveal_strlit("secure");
    reveal_strlit("httponly");
    reveal_strlit("partitioned");
    reveal_strlit("samesite=");
    reveal_strlit("path=");
    reveal_strlit("max-age=");
    reveal_strlit("expires=");
    reveal_strlit("domain=");
    assert("secure"@.len() == 6 && "httponly"@.len() == 8 && "partitioned"@.len() == 11
        && "samesite="@.len() == 9 && "path="@.len() == 5 && "max-age="@.len() == 8
        && "expires="@.len() == 8 && "domain="@.len() == 7);
    assert(lower(trimmed(part)).len() == trimmed(part).len());
}

/// A text is judged as a cookie where one of its parts is an attribute of cookies. It
/// passes where one part is `Secure`. Otherwise it is an error where a part begins with
/// `SameSite=None`, and a warning where none does.
pub proof fn law_cookie_is_judged(s: Seq<char>)
    requires
        unbroken(s),
    ensures
        ({
            let ps = parts(s, ';');
            let a_cookie = exists|k: int| 0 <= k < ps.len() && cookie_attribute(#[trigger] ps[k]);
            let is_secure = exists|k: int|
                0 <= k < ps.len() && lower(trimmed(#[trigger] ps[k])) == "secure"@;
            let none = exists|k: int|
                0 <= k < ps.len() && at(lower(trimmed(#[trigger] ps[k])), "samesite=none"@, 0);
            insecure_set_cookie::severity(s) == if !a_cookie || is_secure {
                None
            } else if none {
                Some("error"@)
            } else {
                Some("warning"@)
            }
        }),
{
    let ps = parts(s, ';');
    let cs = insecure_set_cookie::cookie_parts(s);
    let a_cookie = exists|k: int| 0 <= k < ps.len() && cookie_attribute(#[trigger] ps[k]);
    let is_secure = exists|k: int|
        0 <= k < ps.len() && lower(trimmed(#[trigger] ps[k])) == "secure"@;
    let none = exists|k: int|
        0 <= k < ps.len() && at(lower(trimmed(#[trigger] ps[k])), "samesite=none"@, 0);
    let known = exists|n: int| 0 <= n < cs.len() && insecure_set_cookie::known_attr(#[trigger] cs[n]);
    assert(a_cookie == known) by {
        if a_cookie {
            let k = choose|k: int| 0 <= k < ps.len() && cookie_attribute(#[trigger] ps[k]);
            lemma_attribute_is_text(ps[k]);
            lemma_cookie_part(s, k);
            let n = choose|n: int| 0 <= n < cs.len() && cs[n] == trimmed(ps[k]);
            assert(insecure_set_cookie::known_attr(cs[n]));
        }
        if known {
            let n = choose|n: int|
                0 <= n < cs.len() && insecure_set_cookie::known_attr(#[trigger] cs[n]);
            let k = lemma_cookie_part_is_real(s, n);
            assert(cookie_attribute(ps[k]));
        }
    }
    let has_secure = exists|n: int| 0 <= n < cs.len() && insecure_set_cookie::secure(#[trigger] cs[n]);
    assert(is_secure == has_secure) by {
        if is_secure {
            let k = choose|k: int|
                0 <= k < ps.len() && lower(trimmed(#[trigger] ps[k])) == "secure"@;
            assert(cookie_attribute(ps[k]));
            lemma_attribute_is_text(ps[k]);
            lemma_cookie_part(s, k);
            let n = choose|n: int| 0 <= n < cs.len() && cs[n] == trimmed(ps[k]);
            assert(insecure_set_cookie::secure(cs[n]));
        }
        if has_secure {
            let n = choose|n: int|
                0 <= n < cs.len() && insecure_set_cookie::secure(#[trigger] cs[n]);
            let k = lemma_cookie_part_is_real(s, n);
            assert(lower(trimmed(ps[k])) == "secure"@);
        }
    }
    let crosses = exists|n: int|
        0 <= n < cs.len() && insecure_set_cookie::cross_site(#[trigger] cs[n]);
    assert(none == crosses) by {
        if none {
            let k = choose|k: int|
                0 <= k < ps.len() && at(lower(trimmed(#[trigger] ps[k])), "samesite=none"@, 0);
            let l = lower(trimmed(ps[k]));
            reveal_strlit("samesite=none");
            reveal_strlit("samesite=");
            assert(l.subrange(0, 13) == "samesite=none"@);
            assert(l.subrange(0, 9) =~= l.subrange(0, 13).subrange(0, 9));
            assert("samesite=none"@.subrange(0, 9) =~= "samesite="@);
            assert(cookie_attribute(ps[k]));
            lemma_attribute_is_text(ps[k]);
            lemma_cookie_part(s, k);
            let n = choose|n: int| 0 <= n < cs.len() && cs[n] == trimmed(ps[k]);
            assert(insecure_set_cookie::cross_site(cs[n]));
        }
        if crosses {
            let n = choose|n: int|
                0 <= n < cs.len() && insecure_set_cookie::cross_site(#[trigger] cs[n]);
            let k = lemma_cookie_part_is_real(s, n);
            assert(at(lower(trimmed(ps[k])), "samesite=none"@, 0));
        }
    }
}

/// In a server function, a string that is judged as a cookie and does not pass is
/// found, with its line and the judgement.
pub proof fn law_insecure_cookie_is_found(files: Seq<ScannedFile>, k: int, i: int, b: int, j: int)
    requires
        parses(files, k),
        ({
            let t = nodes(files, k);
            &&& server_fn_with_body(t, i, b)
            &&& b <= j < t[b].end && t[j].kind == Kind::Str
            &&& insecure_set_cookie::severity(t[j].name@) is Some
        }),
    ensures
        exists|x: insecure_set_cookie::InsecureCookieFindingView| #[trigger]
            insecure_set_cookie::report(files).findings.contains(x) && x.file == files[k].path@
                && x.line == nodes(files, k)[j].line && x.server_fn == nodes(files, k)[i].name@
                && x.literal == nodes(files, k)[j].name@ && Some(x.severity)
                == insecure_set_cookie::severity(x.literal),
{
    let t = nodes(files, k);
    let path = files[k].path@;
    lemma_server_fn_with_body(t, i, b);
    let inner = insecure_set_cookie::cookie_at(t, i, path);
    let x = inner(j)[0];
    assert(inner(j).contains(x));
    lemma_gather_contains(b, t[b].end as int, inner, x);
    let rule = insecure_set_cookie::fn_cookies(t, path);
    assert(rule(i).contains(x));
    lemma_gather_contains(0, t.len() as int, rule, x);
    let outer = insecure_set_cookie::file_cookies(files);
    assert(outer(k).contains(x));
    lemma_gather_contains(0, files.len() as int, outer, x);
    assert(insecure_set_cookie::report(files).findings.contains(x));
}

// ---------------------------------------------------------------------------
// Identifiers with a magic prefix
// ---------------------------------------------------------------------------

/// `prefix` marks an identifier that the client made up.
pub open spec fn made_up(prefix: Seq<char>) -> bool {
    prefix == "tmp-"@ || prefix == "tmp_"@ || prefix == "temp-"@ || prefix == "temp_"@ || prefix
        == "pending-"@ || prefix == "local-"@
}

/// The value at `e` is the field `id` of something, seen through a reference,
/// parentheses or a method at most.
pub open spec fn reads_id(t: Seq<Node>, e: int) -> bool {
    ||| t[e].kind == Kind::FieldAccess && t[e].flag && t[e].name@ == "id"@
    ||| (t[e].kind == Kind::Reference || t[e].kind == Kind::Paren || t[e].kind == Kind::MethodCall)
        && (operand(t, e, 0) matches Some(d) && 0 <= d < t.len() && t[d].kind == Kind::FieldAccess
        && t[d].flag && t[d].name@ == "id"@)
}

/// A test whether an `id` starts with such a prefix is found.
pub proof fn law_magic_prefix_is_found(files: Seq<ScannedFile>, k: int, j: int, e: int, a: int)
    requires
        parses(files, k),
        ({
            let t = nodes(files, k);
            &&& 0 <= j < t.len() && t[j].kind == Kind::MethodCall && t[j].name@ == "starts_with"@
            &&& operand(t, j, 0) == Some(e) && 0 <= e < t.len() && reads_id(t, e)
            &&& operand(t, j, 1) == Some(a) && t[a].kind == Kind::Str && made_up(t[a].name@)
        }),
    ensures
        exists|x: magic_id_prefix::MagicIdFindingView| #[trigger]
            magic_id_prefix::report(files).findings.contains(x) && x.file == files[k].path@ && x.line
                == nodes(files, k)[j].line && x.kind == "read"@ && x.severity == "warning"@
                && x.placeholder == nodes(files, k)[a].name@,
{
    let t = nodes(files, k);
    let path = files[k].path@;
    reveal_with_fuel(magic_id_prefix::ends_in_id, 2);
    assert(magic_id_prefix::ends_in_id(t, e));
    let rule = magic_id_prefix::site(t, path);
    let x = rule(j)[0];
    assert(rule(j).contains(x));
    lemma_gather_contains(0, t.len() as int, rule, x);
    lemma_magic_reported(files, k, x);
}

proof fn lemma_magic_reported(
    files: Seq<ScannedFile>,
    k: int,
    x: magic_id_prefix::MagicIdFindingView,
)
    requires
        parses(files, k),
        gather(
            0,
            nodes(files, k).len() as int,
            magic_id_prefix::site(nodes(files, k), files[k].path@),
        ).contains(x),
    ensures
        magic_id_prefix::report(files).findings.contains(x),
{
    let outer = magic_id_prefix::file_sites(files);
    assert(outer(k).contains(x));
    lemma_gather_contains(0, files.len() as int, outer, x);
    lemma_sorted_contains(
        gather(0, files.len() as int, outer),
        rank::<magic_id_prefix::MagicIdFinding>(),
        x,
    );
}

proof fn lemma_first_string(t: Seq<Node>, m: int, hi: int, l: int, text: Seq<char>)
    requires
        m < l < hi,
        t[l].kind == Kind::TokLit,
        t[l].parent == m,
        quote(t[l].name@) == Some(text),
        forall|x: int| m <= x < l ==> (#[trigger] t[x]).kind != Kind::TokLit,
    ensures
        magic_id_prefix::first_string(t, m, hi) == Some(text),
    decreases hi - m,
{
    if l < hi - 1 {
        lemma_first_string(t, m, hi - 1, l, text);
    } else {
        lemma_no_string(t, m, l);
    }
}

proof fn lemma_no_string(t: Seq<Node>, m: int, hi: int)
    requires
        forall|x: int| m <= x < hi ==> (#[trigger] t[x]).kind != Kind::TokLit,
    ensures
        magic_id_prefix::first_string(t, m, hi) is None,
    decreases hi - m,
{
    if m < hi {
        lemma_no_string(t, m, hi - 1);
    }
}

/// A `format!` whose text starts with such a prefix is found, with the prefix.
pub proof fn law_magic_format_is_found(
    files: Seq<ScannedFile>,
    k: int,
    j: int,
    l: int,
    text: Seq<char>,
    prefix: Seq<char>,
)
    requires
        parses(files, k),
        made_up(prefix),
        at(text, prefix, 0),
        ({
            let t = nodes(files, k);
            &&& 0 <= j && t[j].kind == Kind::Macro && t[j].flag
            &&& t[j].name@ == "format"@ || t[j].name@ == "format_args"@
            &&& under(t, j, l) && t[l].kind == Kind::TokLit && t[l].parent == j
            &&& quote(t[l].name@) == Some(text)
            &&& forall|x: int| j <= x < l ==> (#[trigger] t[x]).kind != Kind::TokLit
        }),
    ensures
        exists|x: magic_id_prefix::MagicIdFindingView| #[trigger]
            magic_id_prefix::report(files).findings.contains(x) && x.file == files[k].path@ && x.line
                == nodes(files, k)[j].line && x.kind == "write"@ && x.severity == "info"@
                && x.placeholder == prefix,
{
    let t = nodes(files, k);
    let path = files[k].path@;
    lemma_first_string(t, j, stop(t, j), l, text);
    lemma_leading(text, prefix);
    let rule = magic_id_prefix::site(t, path);
    let x = rule(j)[0];
    assert(rule(j).contains(x));
    lemma_gather_contains(0, t.len() as int, rule, x);
    lemma_magic_reported(files, k, x);
}

proof fn lemma_leading(text: Seq<char>, prefix: Seq<char>)
    requires
        made_up(prefix),
        at(text, prefix, 0),
    ensures
        magic_id_prefix::leading(text) == Some(prefix),
{
    reveal_strlit("tmp-");
    reveal_strlit("tmp_");
    reveal_strlit("temp-");
    reveal_strlit("temp_");
    reveal_strlit("pending-");
    reveal_strlit("local-");
    lemma_prefix_apart(text, prefix, "tmp-"@);
    lemma_prefix_apart(text, prefix, "tmp_"@);
    lemma_prefix_apart(text, prefix, "temp-"@);
    lemma_prefix_apart(text, prefix, "temp_"@);
    lemma_prefix_apart(text, prefix, "pending-"@);
    lemma_prefix_apart(text, prefix, "local-"@);
}

/// No two of the prefixes begin one text.
proof fn lemma_prefix_apart(text: Seq<char>, p: Seq<char>, q: Seq<char>)
    requires
        made_up(p),
        made_up(q),
        at(text, p, 0),
    ensures
        at(text, q, 0) ==> p == q,
{
    reveal_strlit("tmp-");
    reveal_strlit("tmp_");
    reveal_strlit("temp-");
    reveal_strlit("temp_");
    reveal_strlit("pending-");
    reveal_strlit("local-");
    if at(text, q, 0) {
        let a = text.subrange(0, p.len() as int);
        let b = text.subrange(0, q.len() as int);
        assert(a == p && b == q);
        assert(p[0] == a[0] && q[0] == b[0] && a[0] == b[0]);
        assert(p[1] == a[1] && q[1] == b[1] && a[1] == b[1]);
        assert(p[3] == a[3] && q[3] == b[3] && a[3] == b[3]);
        if p.len() > 4 && q.len() > 4 {
            assert(p[4] == a[4] && q[4] == b[4] && a[4] == b[4]);
        }
    }
}

} // verus!
