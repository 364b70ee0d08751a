//! `server_state_blocking_locks`: flag blocking locks in async server functions.
//!
//! A short section under such a lock is fine, but the first `.await` added while
//! the guard is held blocks the worker.
use vstd::prelude::*;

use crate::order::{gather, put, put_all};
use crate::scan::{
    body_end, body_of, body_start, call_tail, call_tail_of, collect_parse_errors, inside,
    is_server_fn, parse_errors, reach, server_fn, ParseError, ParseErrorView, ScannedFile,
};
use crate::tape::{stop_of, Kind, Node};
use crate::text::{owned, same};

verus! {

#[derive(Debug)]
pub struct ServerStateBlockingLocksParams {
    pub project_root: Option<String>,
}

pub ghost struct ServerStateBlockingLocksParamsView {
    pub project_root: Option<Seq<char>>,
}

impl DeepView for ServerStateBlockingLocksParams {
    type V = ServerStateBlockingLocksParamsView;

    open spec fn deep_view(&self) -> ServerStateBlockingLocksParamsView {
        ServerStateBlockingLocksParamsView {
            project_root: self.project_root.deep_view(),
        }
    }
}

#[derive(Debug)]
pub struct BlockingLockFinding {
    pub code: &'static str,
    pub file: String,
    pub line: usize,
    /// The function that takes the lock.
    pub server_fn: String,
    /// The method that takes it.
    pub method: String,
    pub message: String,
}

pub ghost struct BlockingLockFindingView {
    pub code: Seq<char>,
    pub file: Seq<char>,
    pub line: usize,
    pub server_fn: Seq<char>,
    pub method: Seq<char>,
    pub message: Seq<char>,
}

impl DeepView for BlockingLockFinding {
    type V = BlockingLockFindingView;

    open spec fn deep_view(&self) -> BlockingLockFindingView {
        BlockingLockFindingView {
            code: self.code@,
            file: self.file@,
            line: self.line,
            server_fn: self.server_fn@,
            method: self.method@,
            message: self.message@,
        }
    }
}

#[derive(Debug)]
pub struct ServerStateBlockingLocksReport {
    pub findings: Vec<BlockingLockFinding>,
    pub parse_errors: Vec<ParseError>,
}

pub ghost struct ServerStateBlockingLocksReportView {
    pub findings: Seq<BlockingLockFindingView>,
    pub parse_errors: Seq<ParseErrorView>,
}

impl DeepView for ServerStateBlockingLocksReport {
    type V = ServerStateBlockingLocksReportView;

    open spec fn deep_view(&self) -> ServerStateBlockingLocksReportView {
        ServerStateBlockingLocksReportView {
            findings: self.findings.deep_view(),
            parse_errors: self.parse_errors.deep_view(),
        }
    }
}

/// A method that returns the guard of a lock.
pub open spec fn lock_method(name: Seq<char>) -> bool {
    ||| name == "lock"@
    ||| name == "read"@
    ||| name == "write"@
    ||| name == "try_lock"@
    ||| name == "try_read"@
    ||| name == "try_write"@
}

fn is_lock_method(name: &str) -> (r: bool)
    ensures
        r == lock_method(name@),
{
    same(name, "lock")
        || same(name, "read")
        || same(name, "write")
        || same(name, "try_lock")
        || same(name, "try_read")
        || same(name, "try_write")
}

pub open spec fn message(method: Seq<char>) -> Seq<char> {
    "`."@
        + method
        + "()` on a `std::sync` lock from inside an `async` server fn body. Currently safe if the critical section stays fully sync — but the first `.await` added while holding the guard will block the Tokio worker. Either switch to `tokio::sync::Mutex` / `RwLock` (lock-across-await safe) or assert the section stays sync (a comment + a manual `drop(guard)` before any await keeps the invariant visible)."@
}

fn message_of(method: &str) -> (r: String)
    ensures
        r@ == message(method@),
{
    let mut s = owned("`.");
    s.append(method);
    s.append("()` on a `std::sync` lock from inside an `async` server fn body. Currently safe if the critical section stays fully sync — but the first `.await` added while holding the guard will block the Tokio worker. Either switch to `tokio::sync::Mutex` / `RwLock` (lock-across-await safe) or assert the section stays sync (a comment + a manual `drop(guard)` before any await keeps the invariant visible).");
    s
}

/// Node `m` hands its argument to a thread that may block.
pub open spec fn blocking_task(t: Seq<Node>, m: int) -> bool {
    call_tail(t, m) == Some("spawn_blocking"@)
}

pub open spec fn blocking_task_at(t: Seq<Node>) -> spec_fn(int) -> bool {
    |m: int| blocking_task(t, m)
}

/// The finding that node `j` of the body of the function at `f` gives rise to.
pub open spec fn lock_at(t: Seq<Node>, f: int, file: Seq<char>) -> spec_fn(int) -> Seq<
    BlockingLockFindingView,
> {
    |j: int|
        if t[j].kind == Kind::MethodCall && lock_method(t[j].name@) && !inside(
            t,
            body_start(t, f),
            j,
            blocking_task_at(t),
        ) {
            seq![
                BlockingLockFindingView {
                    code: "server_state_blocking_locks"@,
                    file,
                    line: t[j].line,
                    server_fn: t[f].name@,
                    method: t[j].name@,
                    message: message(t[j].name@),
                },
            ]
        } else {
            Seq::empty()
        }
}

pub open spec fn fn_locks(t: Seq<Node>, file: Seq<char>) -> spec_fn(int) -> Seq<
    BlockingLockFindingView,
> {
    |f: int|
        if server_fn(t, f) && t[f].flag {
            gather(body_start(t, f), body_end(t, f), lock_at(t, f, file))
        } else {
            Seq::empty()
        }
}

pub open spec fn file_locks(files: Seq<ScannedFile>) -> spec_fn(int) -> Seq<
    BlockingLockFindingView,
> {
    |k: int|
        match files[k].ast {
            Ok(t) => gather(0, t@.len() as int, fn_locks(t@, files[k].path@)),
            Err(_) => Seq::empty(),
        }
}

fn locks_in_fn(t: &Vec<Node>, f: usize, file: &str) -> (r: Vec<BlockingLockFinding>)
    requires
        f < t.len(),
    ensures
        r.deep_view() == gather(
            body_start(t@, f as int),
            body_end(t@, f as int),
            lock_at(t@, f as int, file@),
        ),
{
    let (lo, hi) = body_of(t, f);
    let mut out: Vec<BlockingLockFinding> = Vec::new();
    let mut until: usize = lo;
    let mut j: usize = lo;
    while j < hi
        invariant
            f < t.len(),
            lo == body_start(t@, f as int),
            lo <= j <= hi <= t.len(),
            until == reach(t@, lo as int, j as int, blocking_task_at(t@)),
            out.deep_view() == gather(lo as int, j as int, lock_at(t@, f as int, file@)),
        decreases hi - j,
    {
        if t[j].kind == Kind::MethodCall && j >= until && is_lock_method(t[j].name.as_str()) {
            let finding = BlockingLockFinding {
                code: "server_state_blocking_locks",
                file: owned(file),
                line: t[j].line,
                server_fn: owned(t[f].name.as_str()),
                method: owned(t[j].name.as_str()),
                message: message_of(t[j].name.as_str()),
            };
            put(&mut out, finding);
        }
        let blocking = match call_tail_of(t, j) {
            Some(name) => same(name.as_str(), "spawn_blocking"),
            None => false,
        };
        if blocking {
            let end = stop_of(t, j);
            if end > until {
                until = end;
            }
        }
        j += 1;
    }
    out
}

fn locks_in_file(t: &Vec<Node>, file: &str) -> (r: Vec<BlockingLockFinding>)
    ensures
        r.deep_view() == gather(0, t@.len() as int, fn_locks(t@, file@)),
{
    let mut out: Vec<BlockingLockFinding> = Vec::new();
    let mut f: usize = 0;
    while f < t.len()
        invariant
            f <= t.len(),
            out.deep_view() == gather(0, f as int, fn_locks(t@, file@)),
        decreases t.len() - f,
    {
        if t[f].flag && is_server_fn(t, f) {
            put_all(&mut out, locks_in_fn(t, f, file));
        }
        f += 1;
    }
    out
}

/// What there is to report.
pub open spec fn report(files: Seq<ScannedFile>) -> ServerStateBlockingLocksReportView {
    ServerStateBlockingLocksReportView {
        findings: gather(0, files.len() as int, file_locks(files)),
        parse_errors: parse_errors(files),
    }
}

/// Reports the blocking locks that async server functions in `files` take.
pub fn server_state_blocking_locks(files: &Vec<ScannedFile>) -> (r: ServerStateBlockingLocksReport)
    ensures
        r.deep_view() == report(files@),
{
    let mut out: Vec<BlockingLockFinding> = Vec::new();
    let mut k: usize = 0;
    while k < files.len()
        invariant
            k <= files.len(),
            out.deep_view() == gather(0, k as int, file_locks(files@)),
        decreases files.len() - k,
    {
        match &files[k].ast {
            Ok(t) => put_all(&mut out, locks_in_file(t, files[k].path.as_str())),
            Err(_) => {},
        }
        k += 1;
    }
    ServerStateBlockingLocksReport { findings: out, parse_errors: collect_parse_errors(files) }
}

} // verus!
