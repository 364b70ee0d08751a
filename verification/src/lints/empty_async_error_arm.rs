//! `empty_async_error_arm`: flag errors that asynchronous code drops in silence.
//!
//! The shapes are an arm `Err(..) => {}` and `if let Err(..) = .. {}` in an
//! `async` function, block or closure. A body is empty if it is `{}`, `{ ; }` or
//! `()`. In a polling loop such a drop leaves stale data on the screen.
use vstd::prelude::*;

use crate::order::{gather, only_if, put, put_all, rank, sort, sorted, Ranked};
use crate::paths::{is_same_path, lemma_path_le, path_le, path_leq, same_path};
use crate::scan::{
    asynchronous, asynchronous_at, collect_parse_errors, inside, is_asynchronous, lemma_inside, parse_errors,
    reach, ParseError, ParseErrorView, ScannedFile,
};
use crate::tape::{Kind, Node, operand, operand_of, stop, stop_of};
use crate::text::{owned, same};

verus! {

#[derive(Debug)]
pub struct EmptyAsyncErrorArmParams {
    pub project_root: Option<String>,
}

pub ghost struct EmptyAsyncErrorArmParamsView {
    pub project_root: Option<Seq<char>>,
}

impl DeepView for EmptyAsyncErrorArmParams {
    type V = EmptyAsyncErrorArmParamsView;

    open spec fn deep_view(&self) -> EmptyAsyncErrorArmParamsView {
        EmptyAsyncErrorArmParamsView {
            project_root: self.project_root.deep_view(),
        }
    }
}

#[derive(Debug)]
pub struct EmptyAsyncErrorArmFinding {
    pub code: &'static str,
    pub severity: &'static str,
    pub file: String,
    pub line: usize,
    /// `match_arm` or `if_let_block`.
    pub shape: &'static str,
    pub message: String,
    pub fix: String,
}

pub ghost struct EmptyAsyncErrorArmFindingView {
    pub code: Seq<char>,
    pub severity: Seq<char>,
    pub file: Seq<char>,
    pub line: usize,
    pub shape: Seq<char>,
    pub message: Seq<char>,
    pub fix: Seq<char>,
}

impl DeepView for EmptyAsyncErrorArmFinding {
    type V = EmptyAsyncErrorArmFindingView;

    open spec fn deep_view(&self) -> EmptyAsyncErrorArmFindingView {
        EmptyAsyncErrorArmFindingView {
            code: self.code@,
            severity: self.severity@,
            file: self.file@,
            line: self.line,
            shape: self.shape@,
            message: self.message@,
            fix: self.fix@,
        }
    }
}

#[derive(Debug)]
pub struct EmptyAsyncErrorArmReport {
    pub findings: Vec<EmptyAsyncErrorArmFinding>,
    pub parse_errors: Vec<ParseError>,
}

pub ghost struct EmptyAsyncErrorArmReportView {
    pub findings: Seq<EmptyAsyncErrorArmFindingView>,
    pub parse_errors: Seq<ParseErrorView>,
}

impl DeepView for EmptyAsyncErrorArmReport {
    type V = EmptyAsyncErrorArmReportView;

    open spec fn deep_view(&self) -> EmptyAsyncErrorArmReportView {
        EmptyAsyncErrorArmReportView {
            findings: self.findings.deep_view(),
            parse_errors: self.parse_errors.deep_view(),
        }
    }
}

impl Ranked for EmptyAsyncErrorArmFinding {
    /// By file, then by line.
    open spec fn le(a: EmptyAsyncErrorArmFindingView, b: EmptyAsyncErrorArmFindingView) -> bool {
        if !same_path(a.file, b.file) {
            path_le(a.file, b.file)
        } else {
            a.line <= b.line
        }
    }

    proof fn ordered(
        a: EmptyAsyncErrorArmFindingView,
        b: EmptyAsyncErrorArmFindingView,
        c: EmptyAsyncErrorArmFindingView,
    ) {
        lemma_path_le(a.file, b.file, c.file);
    }

    fn leq(&self, other: &Self) -> (r: bool) {
        if !is_same_path(self.file.as_str(), other.file.as_str()) {
            path_leq(self.file.as_str(), other.file.as_str())
        } else {
            self.line <= other.line
        }
    }
}

pub open spec fn arm_message() -> Seq<char> {
    "An `Err(_) => {}` arm inside an async context silently drops the failure. Polling loops keep spinning, the UI never sees the broken server, and stale data looks current."@
}

fn arm_message_of() -> (r: String)
    ensures
        r@ == arm_message(),
{
    let s = owned("An `Err(_) => {}` arm inside an async context silently drops the failure. Polling loops keep spinning, the UI never sees the broken server, and stale data looks current.");
    s
}

pub open spec fn arm_fix() -> Seq<char> {
    "Surface the error to a status signal (`status.set(Some(format!(\"…: {e}\")))`), log it (`tracing::warn!(?e, \"…\")`), or propagate it via the caller's `Result`. If a silent drop is genuinely correct, bind the value and write the rationale in a comment so the next reader doesn't read it as a TODO."@
}

fn arm_fix_of() -> (r: String)
    ensures
        r@ == arm_fix(),
{
    let s = owned("Surface the error to a status signal (`status.set(Some(format!(\"…: {e}\")))`), log it (`tracing::warn!(?e, \"…\")`), or propagate it via the caller's `Result`. If a silent drop is genuinely correct, bind the value and write the rationale in a comment so the next reader doesn't read it as a TODO.");
    s
}

pub open spec fn block_message() -> Seq<char> {
    "An `if let Err(_) = … {}` with an empty body inside an async context silently drops the failure. The branch reads as 'noop on error' which is almost never what the call site wants."@
}

fn block_message_of() -> (r: String)
    ensures
        r@ == block_message(),
{
    let s = owned("An `if let Err(_) = … {}` with an empty body inside an async context silently drops the failure. The branch reads as 'noop on error' which is almost never what the call site wants.");
    s
}

pub open spec fn block_fix() -> Seq<char> {
    "Either use `if let Err(e) = … { status.set(Some(format!(\"…: {e}\"))); }` to surface the error, or switch to `let _ = …;` if the drop is genuinely deliberate (the explicit `_` form makes the intent reviewable)."@
}

fn block_fix_of() -> (r: String)
    ensures
        r@ == block_fix(),
{
    let s = owned("Either use `if let Err(e) = … { status.set(Some(format!(\"…: {e}\"))); }` to surface the error, or switch to `let _ = …;` if the drop is genuinely deliberate (the explicit `_` form makes the intent reviewable).");
    s
}

// ---------------------------------------------------------------------------
// Patterns and bodies
// ---------------------------------------------------------------------------

/// The pattern at `p` is `Err(..)`.
pub open spec fn err_pat(t: Seq<Node>, p: int) -> bool {
    t[p].kind == Kind::PatTupleStruct && t[p].name@ == "Err"@
}

pub fn is_err_pat(t: &Vec<Node>, p: usize) -> (r: bool)
    requires
        p < t.len(),
    ensures
        r == err_pat(t@, p as int),
{
    t[p].kind == Kind::PatTupleStruct && same(t[p].name.as_str(), "Err")
}

/// The statement at `s` does nothing: it is `()`, or a semicolon alone.
pub open spec fn idle(t: Seq<Node>, s: int) -> bool {
    t[s].kind == Kind::ExprStmt && match operand(t, s, 0) {
        Some(e) => (t[e].kind == Kind::Tuple && t[e].count == 0) || (t[e].kind == Kind::Verbatim
            && t[e].text@.len() == 0),
        None => false,
    }
}

/// Every statement of the block at `b` does nothing.
pub open spec fn empty_block(t: Seq<Node>, b: int) -> bool {
    forall|s: int| b < s < stop(t, b) && (#[trigger] t[s]).parent == b ==> idle(t, s)
}

/// The body at `e` does nothing: it is `()`, or a block of such statements.
pub open spec fn empty_body(t: Seq<Node>, e: int) -> bool {
    if t[e].kind == Kind::BlockExpr {
        match operand(t, e, 0) {
            Some(b) => empty_block(t, b),
            None => false,
        }
    } else {
        t[e].kind == Kind::Tuple && t[e].count == 0
    }
}

fn is_idle(t: &Vec<Node>, s: usize) -> (r: bool)
    requires
        s < t.len(),
    ensures
        r == idle(t@, s as int),
{
    t[s].kind == Kind::ExprStmt && match operand_of(t, s, 0) {
        Some(e) => (t[e].kind == Kind::Tuple && t[e].count == 0) || (t[e].kind == Kind::Verbatim
            && t[e].text.as_str().unicode_len() == 0),
        None => false,
    }
}

pub fn is_empty_block(t: &Vec<Node>, b: usize) -> (r: bool)
    requires
        b < t.len(),
    ensures
        r == empty_block(t@, b as int),
{
    let end = stop_of(t, b);
    let mut s: usize = b + 1;
    while s < end
        invariant
            b < s <= end <= t.len(),
            end == stop(t@, b as int),
            forall|k: int| b < k < s && (#[trigger] t@[k]).parent == b ==> idle(t@, k),
        decreases end - s,
    {
        if t[s].parent == b && !is_idle(t, s) {
            assert(!idle(t@, s as int));
            return false;
        }
        s += 1;
    }
    true
}

pub fn is_empty_body(t: &Vec<Node>, e: usize) -> (r: bool)
    requires
        e < t.len(),
    ensures
        r == empty_body(t@, e as int),
{
    if t[e].kind == Kind::BlockExpr {
        match operand_of(t, e, 0) {
            Some(b) => is_empty_block(t, b),
            None => false,
        }
    } else {
        t[e].kind == Kind::Tuple && t[e].count == 0
    }
}

// ---------------------------------------------------------------------------
// Findings
// ---------------------------------------------------------------------------

/// The body of the arm at `a`: what follows the pattern and the guard.
pub open spec fn arm_body(t: Seq<Node>, a: int) -> Option<int> {
    operand(
        t,
        a,
        if t[a].flag {
            2
        } else {
            1
        },
    )
}

/// The arm at `a` of the match at `m` drops an error.
pub open spec fn drops(t: Seq<Node>, m: int, a: int) -> bool {
    t[a].kind == Kind::Arm && t[a].parent == m && match (operand(t, a, 0), arm_body(t, a)) {
        (Some(p), Some(e)) => err_pat(t, p) && empty_body(t, e),
        _ => false,
    }
}

pub open spec fn arm_finding(t: Seq<Node>, m: int, file: Seq<char>) -> spec_fn(int) -> Seq<
    EmptyAsyncErrorArmFindingView,
> {
    |a: int|
        only_if(
            drops(t, m, a),
            EmptyAsyncErrorArmFindingView {
                code: "empty_async_error_arm"@,
                severity: "warning"@,
                file,
                line: t[a].line,
                shape: "match_arm"@,
                message: arm_message(),
                fix: arm_fix(),
            },
        )
}

/// The `if` at `i` asks for an error and does nothing then: its `let`.
pub open spec fn dropping_let(t: Seq<Node>, i: int) -> Option<int> {
    match (operand(t, i, 0), operand(t, i, 1)) {
        (Some(l), Some(b)) => if t[l].kind == Kind::Let {
            match operand(t, l, 0) {
                Some(p) => if err_pat(t, p) && empty_block(t, b) {
                    Some(l)
                } else {
                    None
                },
                None => None,
            }
        } else {
            None
        },
        _ => None,
    }
}

/// What node `j` gives rise to: the arms of a match that drop an error, or an
/// `if let` that does.
pub open spec fn findings_at(t: Seq<Node>, file: Seq<char>) -> spec_fn(int) -> Seq<
    EmptyAsyncErrorArmFindingView,
> {
    |j: int|
        if !inside(t, 0, j, asynchronous_at(t)) {
            Seq::empty()
        } else if t[j].kind == Kind::Match {
            gather(j, stop(t, j), arm_finding(t, j, file))
        } else if t[j].kind == Kind::If {
            match dropping_let(t, j) {
                Some(l) => seq![
                    EmptyAsyncErrorArmFindingView {
                        code: "empty_async_error_arm"@,
                        severity: "warning"@,
                        file,
                        line: t[l].line,
                        shape: "if_let_block"@,
                        message: block_message(),
                        fix: block_fix(),
                    },
                ],
                None => Seq::empty(),
            }
        } else {
            Seq::empty()
        }
}

fn arm_findings(t: &Vec<Node>, m: usize, file: &str) -> (r: Vec<EmptyAsyncErrorArmFinding>)
    requires
        m < t.len(),
    ensures
        r.deep_view() == gather(m as int, stop(t@, m as int), arm_finding(t@, m as int, file@)),
{
    let end = stop_of(t, m);
    let mut out: Vec<EmptyAsyncErrorArmFinding> = Vec::new();
    let mut a: usize = m;
    while a < end
        invariant
            m <= a <= end <= t.len(),
            out.deep_view() == gather(m as int, a as int, arm_finding(t@, m as int, file@)),
        decreases end - a,
    {
        if t[a].kind == Kind::Arm && t[a].parent == m {
            let body: usize = if t[a].flag {
                2
            } else {
                1
            };
            match (operand_of(t, a, 0), operand_of(t, a, body)) {
                (Some(p), Some(e)) => {
                    if is_err_pat(t, p) && is_empty_body(t, e) {
                        let finding = EmptyAsyncErrorArmFinding {
                            code: "empty_async_error_arm",
                            severity: "warning",
                            file: owned(file),
                            line: t[a].line,
                            shape: "match_arm",
                            message: arm_message_of(),
                            fix: arm_fix_of(),
                        };
                        put(&mut out, finding);
                    }
                },
                _ => {},
            }
        }
        a += 1;
    }
    out
}

fn dropping_let_of(t: &Vec<Node>, i: usize) -> (r: Option<usize>)
    requires
        i < t.len(),
    ensures
        match r {
            Some(l) => dropping_let(t@, i as int) == Some(l as int) && l < t.len(),
            None => dropping_let(t@, i as int) is None,
        },
{
    match (operand_of(t, i, 0), operand_of(t, i, 1)) {
        (Some(l), Some(b)) => if t[l].kind == Kind::Let {
            match operand_of(t, l, 0) {
                Some(p) => if is_err_pat(t, p) && is_empty_block(t, b) {
                    Some(l)
                } else {
                    None
                },
                None => None,
            }
        } else {
            None
        },
        _ => None,
    }
}

fn findings_in(t: &Vec<Node>, file: &str) -> (r: Vec<EmptyAsyncErrorArmFinding>)
    ensures
        r.deep_view() == gather(0, t@.len() as int, findings_at(t@, file@)),
{
    let mut out: Vec<EmptyAsyncErrorArmFinding> = Vec::new();
    let mut until: usize = 0;
    let mut j: usize = 0;
    while j < t.len()
        invariant
            j <= t.len(),
            until == reach(t@, 0, j as int, asynchronous_at(t@)),
            out.deep_view() == gather(0, j as int, findings_at(t@, file@)),
        decreases t.len() - j,
    {
        if j < until {
            if t[j].kind == Kind::Match {
                put_all(&mut out, arm_findings(t, j, file));
            } else if t[j].kind == Kind::If {
                match dropping_let_of(t, j) {
                    Some(l) => {
                        let finding = EmptyAsyncErrorArmFinding {
                            code: "empty_async_error_arm",
                            severity: "warning",
                            file: owned(file),
                            line: t[l].line,
                            shape: "if_let_block",
                            message: block_message_of(),
                            fix: block_fix_of(),
                        };
                        put(&mut out, finding);
                    },
                    None => {},
                }
            }
        }
        if is_asynchronous(t, j) {
            let end = stop_of(t, j);
            if end > until {
                until = end;
            }
        }
        j += 1;
    }
    out
}

pub open spec fn file_findings(
    files: Seq<ScannedFile>,
) -> spec_fn(int) -> Seq<EmptyAsyncErrorArmFindingView> {
    |k: int|
        match files[k].ast {
            Ok(t) => gather(0, t@.len() as int, findings_at(t@, files[k].path@)),
            Err(_) => Seq::empty(),
        }
}

fn all_findings(files: &Vec<ScannedFile>) -> (r: Vec<EmptyAsyncErrorArmFinding>)
    ensures
        r.deep_view() == gather(0, files@.len() as int, file_findings(files@)),
{
    let mut out: Vec<EmptyAsyncErrorArmFinding> = Vec::new();
    let mut k: usize = 0;
    while k < files.len()
        invariant
            k <= files.len(),
            out.deep_view() == gather(0, k as int, file_findings(files@)),
        decreases files.len() - k,
    {
        match &files[k].ast {
            Ok(t) => put_all(&mut out, findings_in(t, files[k].path.as_str())),
            Err(_) => {},
        }
        k += 1;
    }
    out
}

/// What there is to report.
pub open spec fn report(files: Seq<ScannedFile>) -> EmptyAsyncErrorArmReportView {
    EmptyAsyncErrorArmReportView {
        findings: sorted(
            gather(0, files.len() as int, file_findings(files)),
            rank::<EmptyAsyncErrorArmFinding>(),
        ),
        parse_errors: parse_errors(files),
    }
}

/// Reports the errors that asynchronous code in `files` drops in silence, by
/// file and line.
pub fn empty_async_error_arm(files: &Vec<ScannedFile>) -> (r: EmptyAsyncErrorArmReport)
    ensures
        r.deep_view() == report(files@),
{
    EmptyAsyncErrorArmReport {
        findings: sort(all_findings(files)),
        parse_errors: collect_parse_errors(files),
    }
}

/// A file without asynchronous code has no findings.
pub proof fn law_silent_without_async(t: Seq<Node>, file: Seq<char>, n: int)
    requires
        0 <= n <= t.len(),
        forall|m: int| 0 <= m < t.len() ==> !#[trigger] asynchronous(t, m),
    ensures
        gather(0, n, findings_at(t, file)) == Seq::<EmptyAsyncErrorArmFindingView>::empty(),
    decreases n,
{
    if n > 0 {
        law_silent_without_async(t, file, n - 1);
        lemma_inside(t, 0, n - 1, n - 1, asynchronous_at(t));
        assert(findings_at(t, file)(n - 1) =~= Seq::<EmptyAsyncErrorArmFindingView>::empty());
    }
}

} // verus!
