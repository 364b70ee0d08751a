//! `polling_future_no_backoff`: flag polling loops that sleep for a constant time.
//!
//! A finding is a `loop` in asynchronous code that awaits a sleep for an integer
//! constant; the first such sleep is reported. When the server has trouble, all
//! clients retry together.
use vstd::prelude::*;

use crate::order::{gather, put, put_all, rank, sort, sorted, Ranked};
use crate::paths::{is_same_path, lemma_path_le, path_le, path_leq, same_path};
use crate::scan::{
    asynchronous, asynchronous_at, call_tail, call_tail_of, collect_parse_errors, inside, is_asynchronous,
    lemma_inside, parse_errors, reach, ParseError, ParseErrorView, ScannedFile,
};
use crate::tape::{Kind, Node, lemma_operand_bounds, operand, operand_of, stop, stop_of};
use crate::text::{cat3, owned, same};

verus! {

#[derive(Debug)]
pub struct PollingFutureNoBackoffParams {
    pub project_root: Option<String>,
}

pub ghost struct PollingFutureNoBackoffParamsView {
    pub project_root: Option<Seq<char>>,
}

impl DeepView for PollingFutureNoBackoffParams {
    type V = PollingFutureNoBackoffParamsView;

    open spec fn deep_view(&self) -> PollingFutureNoBackoffParamsView {
        PollingFutureNoBackoffParamsView {
            project_root: self.project_root.deep_view(),
        }
    }
}

#[derive(Debug)]
pub struct PollingFutureFinding {
    pub code: &'static str,
    pub severity: &'static str,
    pub file: String,
    pub line: usize,
    /// The constant delay in milliseconds.
    pub delay_ms: Option<u64>,
    /// The last segments of the path of the call that sleeps.
    pub sleep_call: String,
    pub message: String,
    pub fix: String,
}

pub ghost struct PollingFutureFindingView {
    pub code: Seq<char>,
    pub severity: Seq<char>,
    pub file: Seq<char>,
    pub line: usize,
    pub delay_ms: Option<u64>,
    pub sleep_call: Seq<char>,
    pub message: Seq<char>,
    pub fix: Seq<char>,
}

impl DeepView for PollingFutureFinding {
    type V = PollingFutureFindingView;

    open spec fn deep_view(&self) -> PollingFutureFindingView {
        PollingFutureFindingView {
            code: self.code@,
            severity: self.severity@,
            file: self.file@,
            line: self.line,
            delay_ms: self.delay_ms.deep_view(),
            sleep_call: self.sleep_call@,
            message: self.message@,
            fix: self.fix@,
        }
    }
}

#[derive(Debug)]
pub struct PollingFutureReport {
    pub findings: Vec<PollingFutureFinding>,
    pub parse_errors: Vec<ParseError>,
}

pub ghost struct PollingFutureReportView {
    pub findings: Seq<PollingFutureFindingView>,
    pub parse_errors: Seq<ParseErrorView>,
}

impl DeepView for PollingFutureReport {
    type V = PollingFutureReportView;

    open spec fn deep_view(&self) -> PollingFutureReportView {
        PollingFutureReportView {
            findings: self.findings.deep_view(),
            parse_errors: self.parse_errors.deep_view(),
        }
    }
}

/// A call that sleeps.
#[derive(Debug)]
pub struct SleepCall {
    pub line: usize,
    /// The last segments of its path.
    pub path_tail: String,
    /// How long, if that is a constant.
    pub delay_ms: Option<u64>,
}

pub ghost struct SleepCallView {
    pub line: usize,
    pub path_tail: Seq<char>,
    pub delay_ms: Option<u64>,
}

impl DeepView for SleepCall {
    type V = SleepCallView;

    open spec fn deep_view(&self) -> SleepCallView {
        SleepCallView {
            line: self.line,
            path_tail: self.path_tail@,
            delay_ms: self.delay_ms.deep_view(),
        }
    }
}

impl Ranked for PollingFutureFinding {
    /// By file, then by line.
    open spec fn le(a: PollingFutureFindingView, b: PollingFutureFindingView) -> bool {
        if !same_path(a.file, b.file) {
            path_le(a.file, b.file)
        } else {
            a.line <= b.line
        }
    }

    proof fn ordered(
        a: PollingFutureFindingView,
        b: PollingFutureFindingView,
        c: PollingFutureFindingView,
    ) {
        lemma_path_le(a.file, b.file, c.file);
    }

    fn leq(&self, other: &Self) -> (r: bool) {
        if !is_same_path(self.file.as_str(), other.file.as_str()) {
            path_leq(self.file.as_str(), other.file.as_str())
        } else {
            self.line <= other.line
        }
    }
}

/// A function that sleeps, or makes a timer.
pub open spec fn sleeper(name: Seq<char>) -> bool {
    ||| name == "new"@
    ||| name == "sleep"@
    ||| name == "delay_for"@
    ||| name == "delay_until"@
    ||| name == "sleep_until"@
}

fn is_sleeper(name: &str) -> (r: bool)
    ensures
        r == sleeper(name@),
{
    same(name, "new")
        || same(name, "sleep")
        || same(name, "delay_for")
        || same(name, "delay_until")
        || same(name, "sleep_until")
}

/// A type whose `new` makes a timer.
pub open spec fn timer_type(name: Seq<char>) -> bool {
    ||| name == "TimeoutFuture"@
    ||| name == "Timer"@
    ||| name == "Delay"@
    ||| name == "Interval"@
    ||| name == "Sleep"@
}

fn is_timer_type(name: &str) -> (r: bool)
    ensures
        r == timer_type(name@),
{
    same(name, "TimeoutFuture")
        || same(name, "Timer")
        || same(name, "Delay")
        || same(name, "Interval")
        || same(name, "Sleep")
}

/// A method that sleeps.
pub open spec fn sleep_method(name: Seq<char>) -> bool {
    ||| name == "sleep"@
    ||| name == "delay_for"@
    ||| name == "delay_until"@
}

fn is_sleep_method(name: &str) -> (r: bool)
    ensures
        r == sleep_method(name@),
{
    same(name, "sleep")
        || same(name, "delay_for")
        || same(name, "delay_until")
}

pub open spec fn message() -> Seq<char> {
    "This async loop sleeps for a constant interval after every awaited call. When the server hiccups, every client retries on the same cadence — a classic thundering-herd shape, and user-visible latency spikes (briefly stale UI on a healthy server become long stalls on a bad one)."@
}

fn message_of() -> (r: String)
    ensures
        r@ == message(),
{
    let s = owned("This async loop sleeps for a constant interval after every awaited call. When the server hiccups, every client retries on the same cadence — a classic thundering-herd shape, and user-visible latency spikes (briefly stale UI on a healthy server become long stalls on a bad one).");
    s
}

pub open spec fn fix() -> Seq<char> {
    "Add error-aware backoff: `let mut delay = 1000u64;` outside the loop; on Ok reset to the base interval, on Err multiply by 2 up to a cap (e.g. 30s) and add jitter (`delay = delay + js_random_u64() % (delay / 2);`). For shared shapes extract a `retry_with_backoff(…)` helper into `src/model/` so every polling loop in the app uses the same policy."@
}

fn fix_of() -> (r: String)
    ensures
        r@ == fix(),
{
    let s = owned("Add error-aware backoff: `let mut delay = 1000u64;` outside the loop; on Ok reset to the base interval, on Err multiply by 2 up to a cap (e.g. 30s) and add jitter (`delay = delay + js_random_u64() % (delay / 2);`). For shared shapes extract a `retry_with_backoff(…)` helper into `src/model/` so every polling loop in the app uses the same policy.");
    s
}

// ---------------------------------------------------------------------------
// Delays
// ---------------------------------------------------------------------------

/// `v` of the units that the function `name` takes, in milliseconds; none for
/// another function, or if the result does not fit 64 bits.
pub open spec fn in_millis(name: Seq<char>, v: u64) -> Option<u64> {
    if name == "from_millis"@ || name == "millis"@ {
        Some(v)
    } else if name == "from_secs"@ || name == "secs"@ {
        if v * 1000 <= u64::MAX {
            Some((v * 1000) as u64)
        } else {
            None
        }
    } else if name == "from_nanos"@ || name == "nanos"@ {
        Some((v as int / 1_000_000) as u64)
    } else if name == "from_micros"@ || name == "micros"@ {
        Some((v as int / 1000) as u64)
    } else {
        None
    }
}

fn in_millis_of(name: &str, v: u64) -> (r: Option<u64>)
    ensures
        r == in_millis(name@, v),
{
    if same(name, "from_millis") || same(name, "millis") {
        Some(v)
    } else if same(name, "from_secs") || same(name, "secs") {
        v.checked_mul(1000)
    } else if same(name, "from_nanos") || same(name, "nanos") {
        Some(v / 1_000_000)
    } else if same(name, "from_micros") || same(name, "micros") {
        Some(v / 1000)
    } else {
        None
    }
}

/// The constant that the expression at `e` is, in milliseconds: an integer, or
/// such a constant in a call like `Duration::from_secs`.
pub open spec fn constant(t: Seq<Node>, e: int) -> Option<u64>
    decreases t.len() - e,
{
    if !(0 <= e < t.len()) {
        None
    } else if t[e].kind == Kind::Int {
        if t[e].flag {
            Some(t[e].value)
        } else {
            None
        }
    } else {
        proof {
            lemma_operand_bounds(t, e, 1);
        }
        match (call_tail(t, e), operand(t, e, 1)) {
            (Some(name), Some(a)) => match constant(t, a) {
                Some(v) => in_millis(name, v),
                None => None,
            },
            _ => None,
        }
    }
}

pub fn literal_u64(t: &Vec<Node>, e: usize) -> (r: Option<u64>)
    requires
        e < t.len(),
    ensures
        r == constant(t@, e as int),
    decreases t.len() - e,
{
    if t[e].kind == Kind::Int {
        return if t[e].flag {
            Some(t[e].value)
        } else {
            None
        };
    }
    match (call_tail_of(t, e), operand_of(t, e, 1)) {
        (Some(name), Some(a)) => match literal_u64(t, a) {
            Some(v) => in_millis_of(name.as_str(), v),
            None => None,
        },
        _ => None,
    }
}

// ---------------------------------------------------------------------------
// Calls that sleep
// ---------------------------------------------------------------------------

/// The last two segments of the path at `p`, or the only one.
pub open spec fn path_tail(t: Seq<Node>, p: int) -> Seq<char> {
    if t[p].count >= 2 {
        t[p].text@ + "::"@ + t[p].name@
    } else {
        t[p].name@
    }
}

pub fn tail_path(t: &Vec<Node>, p: usize) -> (r: String)
    requires
        p < t.len(),
    ensures
        r@ == path_tail(t@, p as int),
{
    if t[p].count >= 2 {
        cat3(t[p].text.as_str(), "::", t[p].name.as_str())
    } else {
        owned(t[p].name.as_str())
    }
}

/// The call at `c`, if it sleeps: `sleep(..)`, or `new(..)` of a timer.
pub open spec fn sleep_call(t: Seq<Node>, c: int) -> Option<SleepCallView> {
    match (operand(t, c, 0), operand(t, c, 1)) {
        (Some(f), Some(a)) => if t[f].kind == Kind::Path && sleeper(t[f].name@) && (t[f].name@
            == "new"@ ==> timer_type(t[f].text@)) {
            Some(
                SleepCallView {
                    line: t[c].line,
                    path_tail: path_tail(t, f),
                    delay_ms: constant(t, a),
                },
            )
        } else {
            None
        },
        _ => None,
    }
}

pub fn classify_sleep_call(t: &Vec<Node>, c: usize) -> (r: Option<SleepCall>)
    requires
        c < t.len(),
    ensures
        r.deep_view() == sleep_call(t@, c as int),
{
    match (operand_of(t, c, 0), operand_of(t, c, 1)) {
        (Some(f), Some(a)) => {
            let name = t[f].name.as_str();
            if t[f].kind == Kind::Path && is_sleeper(name) && (!same(name, "new") || is_timer_type(
                t[f].text.as_str(),
            )) {
                Some(
                    SleepCall {
                        line: t[c].line,
                        path_tail: tail_path(t, f),
                        delay_ms: literal_u64(t, a),
                    },
                )
            } else {
                None
            }
        },
        _ => None,
    }
}

/// The method call at `c`, if it sleeps.
pub open spec fn method_sleep(t: Seq<Node>, c: int) -> Option<SleepCallView> {
    match operand(t, c, 1) {
        Some(a) => if sleep_method(t[c].name@) {
            Some(
                SleepCallView {
                    line: t[c].line,
                    path_tail: t[c].name@,
                    delay_ms: constant(t, a),
                },
            )
        } else {
            None
        },
        None => None,
    }
}

pub fn classify_method_sleep(t: &Vec<Node>, c: usize) -> (r: Option<SleepCall>)
    requires
        c < t.len(),
    ensures
        r.deep_view() == method_sleep(t@, c as int),
{
    match operand_of(t, c, 1) {
        Some(a) => if is_sleep_method(t[c].name.as_str()) {
            Some(
                SleepCall {
                    line: t[c].line,
                    path_tail: owned(t[c].name.as_str()),
                    delay_ms: literal_u64(t, a),
                },
            )
        } else {
            None
        },
        None => None,
    }
}

/// The call that sleeps and that node `j` awaits.
pub open spec fn awaited_sleep(t: Seq<Node>, j: int) -> Option<SleepCallView> {
    if t[j].kind != Kind::Await {
        None
    } else {
        match operand(t, j, 0) {
            Some(c) => if t[c].kind == Kind::Call {
                sleep_call(t, c)
            } else if t[c].kind == Kind::MethodCall {
                method_sleep(t, c)
            } else {
                None
            },
            None => None,
        }
    }
}

fn awaited_sleep_of(t: &Vec<Node>, j: usize) -> (r: Option<SleepCall>)
    requires
        j < t.len(),
    ensures
        r.deep_view() == awaited_sleep(t@, j as int),
{
    if t[j].kind != Kind::Await {
        return None;
    }
    match operand_of(t, j, 0) {
        Some(c) => match t[c].kind {
            Kind::Call => classify_sleep_call(t, c),
            Kind::MethodCall => classify_method_sleep(t, c),
            _ => None,
        },
        None => None,
    }
}

// ---------------------------------------------------------------------------
// Loops
// ---------------------------------------------------------------------------

/// Node `m` starts something that is looked at on its own.
pub open spec fn apart(t: Seq<Node>, m: int) -> bool {
    t[m].kind == Kind::Loop || t[m].kind == Kind::Async
}

pub open spec fn apart_at(t: Seq<Node>) -> spec_fn(int) -> bool {
    |m: int| apart(t, m)
}

/// The sleep that node `j` awaits, if its time is a literal.
pub open spec fn constant_sleep(t: Seq<Node>, j: int) -> Option<SleepCallView> {
    match awaited_sleep(t, j) {
        Some(s) => if s.delay_ms is Some {
            Some(s)
        } else {
            None
        },
        None => None,
    }
}

fn constant_sleep_of(t: &Vec<Node>, j: usize) -> (r: Option<SleepCall>)
    requires
        j < t.len(),
    ensures
        r.deep_view() == constant_sleep(t@, j as int),
{
    match awaited_sleep_of(t, j) {
        Some(s) => if s.delay_ms.is_some() {
            Some(s)
        } else {
            None
        },
        None => None,
    }
}

/// The first sleep for a constant time that a loop whose body starts at `lo` awaits
/// before `hi`, nested loops and `async` blocks left out.
pub open spec fn first_sleep(t: Seq<Node>, lo: int, hi: int) -> Option<SleepCallView>
    decreases hi - lo,
{
    if hi <= lo {
        None
    } else {
        match first_sleep(t, lo, hi - 1) {
            Some(s) => Some(s),
            None => if inside(t, lo, hi - 1, apart_at(t)) {
                None
            } else {
                constant_sleep(t, hi - 1)
            },
        }
    }
}

/// The first sleep for a constant time that the loop at `l` awaits.
pub open spec fn loop_sleep(t: Seq<Node>, l: int) -> Option<SleepCallView> {
    match operand(t, l, 0) {
        Some(b) => first_sleep(t, b, stop(t, b)),
        None => None,
    }
}

/// The loop at `j`, in an `async` context, sleeps for a constant time.
pub open spec fn loop_finding(t: Seq<Node>, file: Seq<char>) -> spec_fn(int) -> Seq<
    PollingFutureFindingView,
> {
    |j: int|
        if t[j].kind == Kind::Loop && inside(t, 0, j, asynchronous_at(t)) {
            match loop_sleep(t, j) {
                Some(s) => seq![
                    PollingFutureFindingView {
                        code: "polling_future_no_backoff"@,
                        severity: "warning"@,
                        file,
                        line: s.line,
                        delay_ms: s.delay_ms,
                        sleep_call: s.path_tail,
                        message: message(),
                        fix: fix(),
                    },
                ],
                None => Seq::empty(),
            }
        } else {
            Seq::empty()
        }
}

fn loop_sleep_of(t: &Vec<Node>, l: usize) -> (r: Option<SleepCall>)
    requires
        l < t.len(),
    ensures
        r.deep_view() == loop_sleep(t@, l as int),
{
    let lo: usize = match operand_of(t, l, 0) {
        Some(b) => b,
        None => return None,
    };
    let hi = stop_of(t, lo);
    let mut found: Option<SleepCall> = None;
    let mut until: usize = lo;
    let mut j: usize = lo;
    while j < hi
        invariant
            lo <= j <= hi <= t.len(),
            until == reach(t@, lo as int, j as int, apart_at(t@)),
            found.deep_view() == first_sleep(t@, lo as int, j as int),
        decreases hi - j,
    {
        if found.is_none() && j >= until {
            found = constant_sleep_of(t, j);
        }
        if t[j].kind == Kind::Loop || t[j].kind == Kind::Async {
            let end = stop_of(t, j);
            if end > until {
                until = end;
            }
        }
        j += 1;
    }
    found
}

fn findings_in(t: &Vec<Node>, file: &str) -> (r: Vec<PollingFutureFinding>)
    ensures
        r.deep_view() == gather(0, t@.len() as int, loop_finding(t@, file@)),
{
    let mut out: Vec<PollingFutureFinding> = Vec::new();
    let mut until: usize = 0;
    let mut j: usize = 0;
    while j < t.len()
        invariant
            j <= t.len(),
            until == reach(t@, 0, j as int, asynchronous_at(t@)),
            out.deep_view() == gather(0, j as int, loop_finding(t@, file@)),
        decreases t.len() - j,
    {
        if j < until && t[j].kind == Kind::Loop {
            match loop_sleep_of(t, j) {
                Some(s) => {
                    let finding = PollingFutureFinding {
                        code: "polling_future_no_backoff",
                        severity: "warning",
                        file: owned(file),
                        line: s.line,
                        delay_ms: s.delay_ms,
                        sleep_call: s.path_tail,
                        message: message_of(),
                        fix: fix_of(),
                    };
                    put(&mut out, finding);
                },
                None => {},
            }
        }
        if is_asynchronous(t, j) {
            let end = stop_of(t, j);
            if end > until {
                until = end;
            }
        }
        j += 1;
    }
    out
}

pub open spec fn file_findings(
    files: Seq<ScannedFile>,
) -> spec_fn(int) -> Seq<PollingFutureFindingView> {
    |k: int|
        match files[k].ast {
            Ok(t) => gather(0, t@.len() as int, loop_finding(t@, files[k].path@)),
            Err(_) => Seq::empty(),
        }
}

fn all_findings(files: &Vec<ScannedFile>) -> (r: Vec<PollingFutureFinding>)
    ensures
        r.deep_view() == gather(0, files@.len() as int, file_findings(files@)),
{
    let mut out: Vec<PollingFutureFinding> = Vec::new();
    let mut k: usize = 0;
    while k < files.len()
        invariant
            k <= files.len(),
            out.deep_view() == gather(0, k as int, file_findings(files@)),
        decreases files.len() - k,
    {
        match &files[k].ast {
            Ok(t) => put_all(&mut out, findings_in(t, files[k].path.as_str())),
            Err(_) => {},
        }
        k += 1;
    }
    out
}

/// What there is to report.
pub open spec fn report(files: Seq<ScannedFile>) -> PollingFutureReportView {
    PollingFutureReportView {
        findings: sorted(
            gather(0, files.len() as int, file_findings(files)),
            rank::<PollingFutureFinding>(),
        ),
        parse_errors: parse_errors(files),
    }
}

/// Reports the loops in asynchronous code of `files` that sleep for a constant
/// time, by file and line.
pub fn polling_future_no_backoff(files: &Vec<ScannedFile>) -> (r: PollingFutureReport)
    ensures
        r.deep_view() == report(files@),
{
    PollingFutureReport {
        findings: sort(all_findings(files)),
        parse_errors: collect_parse_errors(files),
    }
}

/// A file without asynchronous code has no findings.
pub proof fn law_silent_without_async(t: Seq<Node>, file: Seq<char>, n: int)
    requires
        0 <= n <= t.len(),
        forall|m: int| 0 <= m < t.len() ==> !#[trigger] asynchronous(t, m),
    ensures
        gather(0, n, loop_finding(t, file)) == Seq::<PollingFutureFindingView>::empty(),
    decreases n,
{
    if n > 0 {
        law_silent_without_async(t, file, n - 1);
        lemma_inside(t, 0, n - 1, n - 1, asynchronous_at(t));
        assert(loop_finding(t, file)(n - 1) =~= Seq::<PollingFutureFindingView>::empty());
    }
}

} // verus!
