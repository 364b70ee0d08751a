//! Futures that poll and read signals.
use vstd::prelude::*;

use super::report::{issue, issue_of, SignalIssue, SignalIssueView};
use crate::order::{distinct, distinct_of, gather, holds, only_if, put, put_all, rank, sort, sorted};
use crate::scan::{call_tail, call_tail_of, inside, operand_ident, operand_ident_of, reach};
use crate::tape::{operand, operand_of, stop, stop_of, Kind, Node};
use crate::text::{join, joined, owned, same};

verus! {

/// A function that waits for time to pass.
pub open spec fn timer(name: Seq<char>) -> bool {
    ||| name == "sleep"@
    ||| name == "sleep_until"@
    ||| name == "interval"@
    ||| name == "interval_at"@
    ||| name == "TimeoutFuture"@
    ||| name == "Interval"@
    ||| name == "set_interval"@
    ||| name == "set_timeout"@
}

fn is_timer(name: &str) -> (r: bool)
    ensures
        r == timer(name@),
{
    same(name, "sleep")
        || same(name, "sleep_until")
        || same(name, "interval")
        || same(name, "interval_at")
        || same(name, "TimeoutFuture")
        || same(name, "Interval")
        || same(name, "set_interval")
        || same(name, "set_timeout")
}

/// A type whose `new` waits for time to pass.
pub open spec fn timer_type(name: Seq<char>) -> bool {
    ||| name == "TimeoutFuture"@
    ||| name == "Interval"@
    ||| name == "IntervalStream"@
}

fn is_timer_type(name: &str) -> (r: bool)
    ensures
        r == timer_type(name@),
{
    same(name, "TimeoutFuture")
        || same(name, "Interval")
        || same(name, "IntervalStream")
}

/// Node `j` waits for time to pass.
pub open spec fn sleeps(t: Seq<Node>, j: int) -> bool {
    if t[j].kind == Kind::Call {
        match operand(t, j, 0) {
            Some(f) => t[f].kind == Kind::Path && (timer(t[f].name@) || (t[f].name@ == "new"@
                && t[f].count >= 2 && timer_type(t[f].text@))),
            None => false,
        }
    } else {
        false
    }
}

fn is_sleep(t: &Vec<Node>, j: usize) -> (r: bool)
    requires
        j < t.len(),
    ensures
        r == sleeps(t@, j as int),
{
    if t[j].kind != Kind::Call {
        return false;
    }
    match operand_of(t, j, 0) {
        Some(f) => t[f].kind == Kind::Path && (is_timer(t[f].name.as_str()) || (same(
            t[f].name.as_str(),
            "new",
        ) && t[f].count >= 2 && is_timer_type(t[f].text.as_str()))),
        None => false,
    }
}

/// The signal that node `j` reads and subscribes to: `signal()` or
/// `signal.read()`.
pub open spec fn reactive_read(t: Seq<Node>, j: int, signals: Seq<Seq<char>>) -> Option<Seq<char>> {
    if t[j].kind == Kind::Call && t[j].count == 1 {
        match operand(t, j, 0) {
            Some(f) => if t[f].kind == Kind::Path && t[f].count == 1 && !t[f].flag
                && signals.contains(t[f].name@) {
                Some(t[f].name@)
            } else {
                None
            },
            None => None,
        }
    } else if t[j].kind == Kind::MethodCall && t[j].name@ == "read"@ {
        match operand_ident(t, j, 0) {
            Some(name) => if signals.contains(name) {
                Some(name)
            } else {
                None
            },
            None => None,
        }
    } else {
        None
    }
}

fn reactive_read_of(t: &Vec<Node>, j: usize, signals: &Vec<String>) -> (r: Option<String>)
    requires
        j < t.len(),
    ensures
        r.deep_view() == reactive_read(t@, j as int, signals.deep_view()),
{
    if t[j].kind == Kind::Call && t[j].count == 1 {
        match operand_of(t, j, 0) {
            Some(f) => if t[f].kind == Kind::Path && t[f].count == 1 && !t[f].flag && holds(
                signals,
                t[f].name.as_str(),
            ) {
                Some(owned(t[f].name.as_str()))
            } else {
                None
            },
            None => None,
        }
    } else if t[j].kind == Kind::MethodCall && same(t[j].name.as_str(), "read") {
        match operand_ident_of(t, j, 0) {
            Some(name) => if holds(signals, name.as_str()) {
                Some(name)
            } else {
                None
            },
            None => None,
        }
    } else {
        None
    }
}

pub open spec fn future(t: Seq<Node>, f: int) -> bool {
    call_tail(t, f) == Some("use_future"@)
}

pub open spec fn future_at(t: Seq<Node>) -> spec_fn(int) -> bool {
    |f: int| future(t, f)
}

pub open spec fn read_at(t: Seq<Node>, signals: Seq<Seq<char>>) -> spec_fn(int) -> Seq<Seq<char>> {
    |j: int|
        match reactive_read(t, j, signals) {
            Some(name) => seq![name],
            None => Seq::empty(),
        }
}

/// The signals that the future at `f` reads.
pub open spec fn reads(t: Seq<Node>, f: int, signals: Seq<Seq<char>>) -> Seq<Seq<char>> {
    gather(f + 1, stop(t, f), read_at(t, signals))
}

/// The future at `f` waits for time to pass.
pub open spec fn polls(t: Seq<Node>, f: int) -> bool {
    exists|j: int| f < j < stop(t, f) && sleeps(t, j)
}

pub open spec fn polling_message(signals: Seq<char>) -> Seq<char> {
    "`use_future` with a sleep/interval also reads signal(s) ["@
        + signals
        + "] — each reactive read subscribes the future, so every write restarts the polling loop. If the signal is meant to *gate* applying stale results (the common intent), read it with `.peek()` instead. If you DO want the loop to restart on the signal, use `use_resource` so the dependency is explicit and idiomatic."@
}

fn polling_message_of(signals: &str) -> (r: String)
    ensures
        r@ == polling_message(signals@),
{
    let mut s = owned("`use_future` with a sleep/interval also reads signal(s) [");
    s.append(signals);
    s.append("] — each reactive read subscribes the future, so every write restarts the polling loop. If the signal is meant to *gate* applying stale results (the common intent), read it with `.peek()` instead. If you DO want the loop to restart on the signal, use `use_resource` so the dependency is explicit and idiomatic.");
    s
}

/// The issue on the future at `f`, if it polls and reads signals.
pub open spec fn future_issue(
    t: Seq<Node>,
    f: int,
    signals: Seq<Seq<char>>,
    file: Seq<char>,
    component: Seq<char>,
) -> Seq<SignalIssueView> {
    let names = reads(t, f, signals);
    only_if(
        polls(t, f) && names.len() > 0,
        issue(
            "polling_future_reactive_read"@,
            polling_message(joined(sorted(distinct(names), rank::<String>()), ", "@)),
            file,
            t[f].line,
            component,
            None,
            None,
        ),
    )
}

/// The issue that node `f` of a body that starts at `lo` gives rise to. A future
/// inside another one is part of that one.
pub open spec fn polling_at(
    t: Seq<Node>,
    lo: int,
    signals: Seq<Seq<char>>,
    file: Seq<char>,
    component: Seq<char>,
) -> spec_fn(int) -> Seq<SignalIssueView> {
    |f: int|
        if future(t, f) && !inside(t, lo, f, future_at(t)) {
            future_issue(t, f, signals, file, component)
        } else {
            Seq::empty()
        }
}

/// A body with futures, and the names of its signals.
pub struct PollingFutureVisitor<'a> {
    pub t: &'a Vec<Node>,
    pub lo: usize,
    pub hi: usize,
    pub signal_bindings: &'a Vec<String>,
    pub file: &'a str,
    pub component: &'a str,
}

impl<'a> PollingFutureVisitor<'a> {
    /// The issue on the future at `f`, if there is one.
    pub fn flush(&self, f: usize) -> (r: Vec<SignalIssue>)
        requires
            f < self.t.len(),
        ensures
            r.deep_view() == future_issue(
                self.t@,
                f as int,
                self.signal_bindings.deep_view(),
                self.file@,
                self.component@,
            ),
    {
        let t = self.t;
        let ghost signals = self.signal_bindings.deep_view();
        let end = stop_of(t, f);
        let mut saw_sleep = false;
        let mut names: Vec<String> = Vec::new();
        let mut j: usize = f + 1;
        while j < end
            invariant
                t == self.t,
                signals == self.signal_bindings.deep_view(),
                f < j <= end <= t.len(),
                saw_sleep == exists|k: int| f < k < j && sleeps(t@, k),
                names.deep_view() == gather(f + 1, j as int, read_at(t@, signals)),
            decreases end - j,
        {
            if is_sleep(t, j) {
                assert(sleeps(t@, j as int));
                saw_sleep = true;
            }
            match reactive_read_of(t, j, self.signal_bindings) {
                Some(name) => put(&mut names, name),
                None => {},
            }
            j += 1;
        }
        let mut out: Vec<SignalIssue> = Vec::new();
        if saw_sleep && names.len() > 0 {
            let list = join(&sort(distinct_of(&names)), ", ");
            put(
                &mut out,
                issue_of(
                    "polling_future_reactive_read",
                    polling_message_of(list.as_str()),
                    self.file,
                    t[f].line,
                    self.component,
                    None,
                    None,
                ),
            );
        }
        assert(out.deep_view() =~= future_issue(
            self.t@,
            f as int,
            signals,
            self.file@,
            self.component@,
        ));
        out
    }

    /// The issues on the futures of the body.
    pub fn issues(&self) -> (r: Vec<SignalIssue>)
        requires
            self.lo <= self.hi <= self.t.len(),
        ensures
            r.deep_view() == gather(
                self.lo as int,
                self.hi as int,
                polling_at(
                    self.t@,
                    self.lo as int,
                    self.signal_bindings.deep_view(),
                    self.file@,
                    self.component@,
                ),
            ),
    {
        let t = self.t;
        let ghost rule = polling_at(
            self.t@,
            self.lo as int,
            self.signal_bindings.deep_view(),
            self.file@,
            self.component@,
        );
        let mut out: Vec<SignalIssue> = Vec::new();
        let mut until: usize = self.lo;
        let mut f: usize = self.lo;
        while f < self.hi
            invariant
                t == self.t,
                self.lo <= f <= self.hi <= t.len(),
                until == reach(t@, self.lo as int, f as int, future_at(t@)),
                rule == polling_at(
                    self.t@,
                    self.lo as int,
                    self.signal_bindings.deep_view(),
                    self.file@,
                    self.component@,
                ),
                out.deep_view() == gather(self.lo as int, f as int, rule),
            decreases self.hi - f,
        {
            let is_future = match call_tail_of(t, f) {
                Some(name) => same(name.as_str(), "use_future"),
                None => false,
            };
            if is_future {
                if f >= until {
                    put_all(&mut out, self.flush(f));
                }
                let end = stop_of(t, f);
                if end > until {
                    until = end;
                }
            }
            f += 1;
        }
        out
    }
}

} // verus!
