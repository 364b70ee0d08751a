//! `repeated_auth_extractor`: flag checks that many server functions repeat.
//!
//! A check is a call whose name mentions a user, a session, a cookie or
//! authentication. Each server function counts once for each check.
use vstd::prelude::*;

use crate::order::{
    gather, lemma_gather_contains, lemma_sorted_contains, lemma_text_le, only_if, put, put_all,
    rank, sort, sorted, text_le, text_leq, Ranked,
};
use crate::scan::{
    ParseError, ParseErrorView, ScannedFile, body_end, body_of, body_start, collect_parse_errors,
    is_server_fn, parse_errors, server_fn,
};
use crate::tape::{Kind, Node, lemma_operand_bounds, operand, operand_of};
use crate::text::{
    cat3, cat6, contains, decimal, decimal_usize, join, joined, lower, occurs, owned, same,
    to_lower,
};

verus! {

#[derive(Debug)]
pub struct RepeatedAuthExtractorParams {
    pub project_root: Option<String>,
    /// In how many server functions a call must occur; 3 if absent, at least 2.
    pub min_call_sites: Option<usize>,
}

pub ghost struct RepeatedAuthExtractorParamsView {
    pub project_root: Option<Seq<char>>,
    pub min_call_sites: Option<usize>,
}

impl DeepView for RepeatedAuthExtractorParams {
    type V = RepeatedAuthExtractorParamsView;

    open spec fn deep_view(&self) -> RepeatedAuthExtractorParamsView {
        RepeatedAuthExtractorParamsView {
            project_root: self.project_root.deep_view(),
            min_call_sites: self.min_call_sites.deep_view(),
        }
    }
}

#[derive(Debug)]
pub struct CallSite {
    pub file: String,
    pub line: usize,
    pub server_fn: String,
}

pub ghost struct CallSiteView {
    pub file: Seq<char>,
    pub line: usize,
    pub server_fn: Seq<char>,
}

impl DeepView for CallSite {
    type V = CallSiteView;

    open spec fn deep_view(&self) -> CallSiteView {
        CallSiteView {
            file: self.file@,
            line: self.line,
            server_fn: self.server_fn@,
        }
    }
}

#[derive(Debug)]
pub struct RepeatedAuthFinding {
    pub code: &'static str,
    pub severity: &'static str,
    pub callee: String,
    pub sites: Vec<CallSite>,
    pub message: String,
    pub fix: String,
}

pub ghost struct RepeatedAuthFindingView {
    pub code: Seq<char>,
    pub severity: Seq<char>,
    pub callee: Seq<char>,
    pub sites: Seq<CallSiteView>,
    pub message: Seq<char>,
    pub fix: Seq<char>,
}

impl DeepView for RepeatedAuthFinding {
    type V = RepeatedAuthFindingView;

    open spec fn deep_view(&self) -> RepeatedAuthFindingView {
        RepeatedAuthFindingView {
            code: self.code@,
            severity: self.severity@,
            callee: self.callee@,
            sites: self.sites.deep_view(),
            message: self.message@,
            fix: self.fix@,
        }
    }
}

#[derive(Debug)]
pub struct RepeatedAuthExtractorReport {
    pub findings: Vec<RepeatedAuthFinding>,
    pub parse_errors: Vec<ParseError>,
}

pub ghost struct RepeatedAuthExtractorReportView {
    pub findings: Seq<RepeatedAuthFindingView>,
    pub parse_errors: Seq<ParseErrorView>,
}

impl DeepView for RepeatedAuthExtractorReport {
    type V = RepeatedAuthExtractorReportView;

    open spec fn deep_view(&self) -> RepeatedAuthExtractorReportView {
        RepeatedAuthExtractorReportView {
            findings: self.findings.deep_view(),
            parse_errors: self.parse_errors.deep_view(),
        }
    }
}

/// A call in a server function.
#[derive(Debug)]
pub struct RecordedCall {
    pub callee: String,
    pub site: CallSite,
}

pub ghost struct RecordedCallView {
    pub callee: Seq<char>,
    pub site: CallSiteView,
}

impl DeepView for RecordedCall {
    type V = RecordedCallView;

    open spec fn deep_view(&self) -> RecordedCallView {
        RecordedCallView {
            callee: self.callee@,
            site: self.site.deep_view(),
        }
    }
}

impl Ranked for RepeatedAuthFinding {
    /// By callee.
    open spec fn le(a: RepeatedAuthFindingView, b: RepeatedAuthFindingView) -> bool {
        text_le(a.callee, b.callee)
    }

    proof fn ordered(
        a: RepeatedAuthFindingView,
        b: RepeatedAuthFindingView,
        c: RepeatedAuthFindingView,
    ) {
        lemma_text_le(a.callee, b.callee, c.callee);
    }

    fn leq(&self, other: &Self) -> (r: bool) {
        text_leq(self.callee.as_str(), other.callee.as_str())
    }
}

/// `name` sounds like a check of who is calling.
pub open spec fn auth_shaped(name: Seq<char>) -> bool {
    let l = lower(name);
    occurs(l, "user"@) || occurs(l, "auth"@) || occurs(l, "session"@) || occurs(l, "cookie"@)
}

pub fn is_auth_shaped(name: &str) -> (r: bool)
    ensures
        r == auth_shaped(name@),
{
    let lowered = to_lower(name);
    let l = lowered.as_str();
    contains(l, "user") || contains(l, "auth") || contains(l, "session") || contains(l, "cookie")
}

/// A function that is an endpoint for signing in or out.
pub open spec fn endpoint(name: Seq<char>) -> bool {
    ||| name == "who_am_i"@
    ||| name == "whoami"@
    ||| name == "login"@
    ||| name == "login_user"@
    ||| name == "logout"@
    ||| name == "logout_user"@
    ||| name == "sign_in"@
    ||| name == "sign_out"@
}

fn is_endpoint(name: &str) -> (r: bool)
    ensures
        r == endpoint(name@),
{
    same(name, "who_am_i")
        || same(name, "whoami")
        || same(name, "login")
        || same(name, "login_user")
        || same(name, "logout")
        || same(name, "logout_user")
        || same(name, "sign_in")
        || same(name, "sign_out")
}

pub fn is_auth_endpoint_name(name: &str) -> (r: bool)
    ensures
        r == endpoint(lower(name@)),
{
    is_endpoint(to_lower(name).as_str())
}

// ---------------------------------------------------------------------------
// Calls
// ---------------------------------------------------------------------------

/// The only segment of the path at `e`, possibly behind references.
pub open spec fn receiver(t: Seq<Node>, e: int) -> Option<Seq<char>>
    decreases t.len() - e,
{
    if !(0 <= e < t.len()) {
        None
    } else if t[e].kind == Kind::Path {
        if t[e].count == 1 {
            Some(t[e].name@)
        } else {
            None
        }
    } else if t[e].kind == Kind::Reference {
        proof {
            lemma_operand_bounds(t, e, 0);
        }
        match operand(t, e, 0) {
            Some(p) => receiver(t, p),
            None => None,
        }
    } else {
        None
    }
}

pub fn path_receiver_ident(t: &Vec<Node>, e: usize) -> (r: Option<String>)
    requires
        e < t.len(),
    ensures
        r.deep_view() == receiver(t@, e as int),
{
    let mut at: usize = e;
    while t[at].kind == Kind::Reference
        invariant
            at < t.len(),
            receiver(t@, e as int) == receiver(t@, at as int),
        decreases t.len() - at,
    {
        match operand_of(t, at, 0) {
            Some(p) => at = p,
            None => return None,
        }
    }
    if t[at].kind == Kind::Path && t[at].count == 1 {
        Some(owned(t[at].name.as_str()))
    } else {
        None
    }
}

/// What node `j` calls, and where: the last segment of a path, or a method of a
/// plain receiver.
pub open spec fn callee(t: Seq<Node>, j: int) -> Option<(Seq<char>, usize)> {
    if t[j].kind == Kind::Call {
        match operand(t, j, 0) {
            Some(p) => if t[p].kind == Kind::Path {
                Some((t[p].name@, t[p].line))
            } else {
                None
            },
            None => None,
        }
    } else if t[j].kind == Kind::MethodCall {
        match operand(t, j, 0) {
            Some(p) => match receiver(t, p) {
                Some(r) => Some((r + "."@ + t[j].name@, t[j].line)),
                None => None,
            },
            None => None,
        }
    } else {
        None
    }
}

fn callee_of(t: &Vec<Node>, j: usize) -> (r: Option<(String, usize)>)
    requires
        j < t.len(),
    ensures
        r.deep_view() == callee(t@, j as int),
{
    match t[j].kind {
        Kind::Call => match operand_of(t, j, 0) {
            Some(p) => if t[p].kind == Kind::Path {
                Some((owned(t[p].name.as_str()), t[p].line))
            } else {
                None
            },
            None => None,
        },
        Kind::MethodCall => match operand_of(t, j, 0) {
            Some(p) => match path_receiver_ident(t, p) {
                Some(r) => Some((cat3(r.as_str(), ".", t[j].name.as_str()), t[j].line)),
                None => None,
            },
            None => None,
        },
        _ => None,
    }
}

/// The name of what node `j` calls.
pub open spec fn callee_name(t: Seq<Node>, j: int) -> Option<Seq<char>> {
    match callee(t, j) {
        Some((name, _)) => Some(name),
        None => None,
    }
}

/// No node from `lo` on calls what node `j` calls, before it.
pub open spec fn first_call(t: Seq<Node>, lo: int, j: int) -> bool {
    forall|k: int| lo <= k < j ==> #[trigger] callee_name(t, k) != callee_name(t, j)
}

/// The call that node `j` of the function at `f` adds: the first of its kind,
/// if it sounds like a check.
pub open spec fn call_at(t: Seq<Node>, f: int, file: Seq<char>) -> spec_fn(int) -> Seq<
    RecordedCallView,
> {
    |j: int|
        match callee(t, j) {
            Some((name, line)) => only_if(
                auth_shaped(name) && first_call(t, body_start(t, f), j),
                RecordedCallView {
                    callee: name,
                    site: CallSiteView { file, line, server_fn: t[f].name@ },
                },
            ),
            None => Seq::empty(),
        }
}

pub open spec fn fn_calls(t: Seq<Node>, file: Seq<char>) -> spec_fn(int) -> Seq<RecordedCallView> {
    |f: int|
        if server_fn(t, f) {
            gather(body_start(t, f), body_end(t, f), call_at(t, f, file))
        } else {
            Seq::empty()
        }
}

fn is_first_call(t: &Vec<Node>, lo: usize, j: usize, name: &str) -> (r: bool)
    requires
        lo <= j < t.len(),
        callee_name(t@, j as int) == Some(name@),
    ensures
        r == first_call(t@, lo as int, j as int),
{
    let mut k: usize = lo;
    while k < j
        invariant
            lo <= k <= j < t.len(),
            callee_name(t@, j as int) == Some(name@),
            forall|i: int| lo <= i < k ==> #[trigger] callee_name(t@, i) != Some(name@),
        decreases j - k,
    {
        match callee_of(t, k) {
            Some((other, _)) => {
                if same(other.as_str(), name) {
                    assert(callee_name(t@, k as int) == Some(name@));
                    return false;
                }
            },
            None => {},
        }
        k += 1;
    }
    true
}

fn calls_in_fn(t: &Vec<Node>, f: usize, file: &str) -> (r: Vec<RecordedCall>)
    requires
        f < t.len(),
    ensures
        r.deep_view() == gather(
            body_start(t@, f as int),
            body_end(t@, f as int),
            call_at(t@, f as int, file@),
        ),
{
    let (lo, hi) = body_of(t, f);
    let mut out: Vec<RecordedCall> = Vec::new();
    let mut j: usize = lo;
    while j < hi
        invariant
            f < t.len(),
            lo == body_start(t@, f as int),
            lo <= j <= hi <= t.len(),
            out.deep_view() == gather(lo as int, j as int, call_at(t@, f as int, file@)),
        decreases hi - j,
    {
        match callee_of(t, j) {
            Some((name, line)) => {
                if is_auth_shaped(name.as_str()) && is_first_call(t, lo, j, name.as_str()) {
                    let site = CallSite {
                        file: owned(file),
                        line,
                        server_fn: owned(t[f].name.as_str()),
                    };
                    put(&mut out, RecordedCall { callee: name, site });
                }
            },
            None => {},
        }
        j += 1;
    }
    out
}

fn calls_in(t: &Vec<Node>, file: &str) -> (r: Vec<RecordedCall>)
    ensures
        r.deep_view() == gather(0, t@.len() as int, fn_calls(t@, file@)),
{
    let mut out: Vec<RecordedCall> = Vec::new();
    let mut j: usize = 0;
    while j < t.len()
        invariant
            j <= t.len(),
            out.deep_view() == gather(0, j as int, fn_calls(t@, file@)),
        decreases t.len() - j,
    {
        if is_server_fn(t, j) {
            put_all(&mut out, calls_in_fn(t, j, file));
        }
        j += 1;
    }
    out
}

pub open spec fn file_calls(files: Seq<ScannedFile>) -> spec_fn(int) -> Seq<RecordedCallView> {
    |k: int|
        match files[k].ast {
            Ok(t) => gather(0, t@.len() as int, fn_calls(t@, files[k].path@)),
            Err(_) => Seq::empty(),
        }
}

fn all_calls(files: &Vec<ScannedFile>) -> (r: Vec<RecordedCall>)
    ensures
        r.deep_view() == gather(0, files@.len() as int, file_calls(files@)),
{
    let mut out: Vec<RecordedCall> = Vec::new();
    let mut k: usize = 0;
    while k < files.len()
        invariant
            k <= files.len(),
            out.deep_view() == gather(0, k as int, file_calls(files@)),
        decreases files.len() - k,
    {
        match &files[k].ast {
            Ok(t) => put_all(&mut out, calls_in(t, files[k].path.as_str())),
            Err(_) => {},
        }
        k += 1;
    }
    out
}

// ---------------------------------------------------------------------------
// Findings
// ---------------------------------------------------------------------------

pub open spec fn site_of(cs: Seq<RecordedCallView>, name: Seq<char>) -> spec_fn(int) -> Seq<
    CallSiteView,
> {
    |k: int| only_if(cs[k].callee == name, cs[k].site)
}

/// Where `name` is called.
pub open spec fn sites(cs: Seq<RecordedCallView>, name: Seq<char>) -> Seq<CallSiteView> {
    gather(0, cs.len() as int, site_of(cs, name))
}

/// `file:line (function)` for each of the sites.
pub open spec fn shown(ss: Seq<CallSiteView>) -> Seq<Seq<char>> {
    Seq::new(
        ss.len(),
        |k: int|
            ss[k].file + ":"@ + decimal(ss[k].line as nat) + " ("@ + ss[k].server_fn + ")"@,
    )
}

pub open spec fn message(callee: Seq<char>, n: nat, locs: Seq<char>) -> Seq<char> {
    "`"@
        + callee
        + "(…)` is called from "@
        + decimal(n)
        + " server fns: "@
        + locs
        + ". The same identity check is repeated across the server surface — when the next change ships (rate limit, role check, audit log) it has to land in "@
        + decimal(n)
        + " files."@
}

fn message_of(callee: &str, n: usize, locs: &str) -> (r: String)
    ensures
        r@ == message(callee@, n as nat, locs@),
{
    let mut s = owned("`");
    s.append(callee);
    s.append("(…)` is called from ");
    s.append(decimal_usize(n).as_str());
    s.append(" server fns: ");
    s.append(locs);
    s.append(". The same identity check is repeated across the server surface — when the next change ships (rate limit, role check, audit log) it has to land in ");
    s.append(decimal_usize(n).as_str());
    s.append(" files.");
    s
}

pub open spec fn fix(callee: Seq<char>) -> Seq<char> {
    "Extract an Axum extractor: write `pub struct AuthUser(pub String);` in `src/server/auth.rs` with `impl FromRequestParts<S> for AuthUser` doing the same `"@
        + callee
        + "` work, then declare server fns as e.g. `#[get(\"/api/board\", user: AuthUser)] pub async fn fetch_board(user: AuthUser) -> …`. The extractor runs once, returns a typed handle, and every endpoint that needs auth gets it for free."@
}

fn fix_of(callee: &str) -> (r: String)
    ensures
        r@ == fix(callee@),
{
    let mut s = owned("Extract an Axum extractor: write `pub struct AuthUser(pub String);` in `src/server/auth.rs` with `impl FromRequestParts<S> for AuthUser` doing the same `");
    s.append(callee);
    s.append("` work, then declare server fns as e.g. `#[get(\"/api/board\", user: AuthUser)] pub async fn fetch_board(user: AuthUser) -> …`. The extractor runs once, returns a typed handle, and every endpoint that needs auth gets it for free.");
    s
}

/// No call before number `k` is of the same function.
pub open spec fn first_of_callee(cs: Seq<RecordedCallView>, k: int) -> bool {
    forall|m: int| 0 <= m < k ==> (#[trigger] cs[m]).callee != cs[k].callee
}

/// The finding on what call number `k` calls, if `min` sites or more do.
pub open spec fn finding_at(cs: Seq<RecordedCallView>, min: nat) -> spec_fn(int) -> Seq<
    RepeatedAuthFindingView,
> {
    |k: int|
        {
            let name = cs[k].callee;
            let ss = sites(cs, name);
            only_if(
                first_of_callee(cs, k) && ss.len() >= min && !endpoint(lower(name)),
                RepeatedAuthFindingView {
                    code: "repeated_auth_extractor"@,
                    severity: "info"@,
                    callee: name,
                    sites: ss,
                    message: message(name, ss.len(), joined(shown(ss), ", "@)),
                    fix: fix(name),
                },
            )
        }
}

/// One finding for each function that `min` server functions or more call, by
/// its name.
pub open spec fn findings(cs: Seq<RecordedCallView>, min: nat) -> Seq<RepeatedAuthFindingView> {
    sorted(gather(0, cs.len() as int, finding_at(cs, min)), rank::<RepeatedAuthFinding>())
}

/// How many server functions must share a call.
pub open spec fn threshold(min_call_sites: Option<usize>) -> nat {
    match min_call_sites {
        Some(n) => if n < 2 {
            2
        } else {
            n as nat
        },
        None => 3,
    }
}

fn sites_of(cs: &Vec<RecordedCall>, name: &str) -> (r: Vec<CallSite>)
    ensures
        r.deep_view() == sites(cs.deep_view(), name@),
{
    let ghost v = cs.deep_view();
    let mut out: Vec<CallSite> = Vec::new();
    let mut k: usize = 0;
    while k < cs.len()
        invariant
            k <= cs.len(),
            v == cs.deep_view(),
            out.deep_view() == gather(0, k as int, site_of(v, name@)),
        decreases cs.len() - k,
    {
        assert(v[k as int] == cs@[k as int].deep_view());
        if same(cs[k].callee.as_str(), name) {
            let s = &cs[k].site;
            let site = CallSite {
                file: owned(s.file.as_str()),
                line: s.line,
                server_fn: owned(s.server_fn.as_str()),
            };
            put(&mut out, site);
        }
        k += 1;
    }
    out
}

fn shown_of(ss: &Vec<CallSite>) -> (r: Vec<String>)
    ensures
        r.deep_view() == shown(ss.deep_view()),
{
    let ghost v = ss.deep_view();
    let mut out: Vec<String> = Vec::new();
    let mut k: usize = 0;
    while k < ss.len()
        invariant
            k <= ss.len(),
            v == ss.deep_view(),
            out.deep_view() =~= shown(v).take(k as int),
        decreases ss.len() - k,
    {
        assert(v[k as int] == ss@[k as int].deep_view());
        let line = decimal_usize(ss[k].line);
        put(
            &mut out,
            cat6(
                ss[k].file.as_str(),
                ":",
                line.as_str(),
                " (",
                ss[k].server_fn.as_str(),
                ")",
            ),
        );
        k += 1;
    }
    assert(out.deep_view() =~= shown(v));
    out
}

fn is_first_of_callee(cs: &Vec<RecordedCall>, k: usize) -> (r: bool)
    requires
        k < cs.len(),
    ensures
        r == first_of_callee(cs.deep_view(), k as int),
{
    let ghost v = cs.deep_view();
    assert(v[k as int] == cs@[k as int].deep_view());
    let mut m: usize = 0;
    while m < k
        invariant
            m <= k < cs.len(),
            v == cs.deep_view(),
            v[k as int] == cs@[k as int].deep_view(),
            forall|i: int| 0 <= i < m ==> (#[trigger] v[i]).callee != v[k as int].callee,
        decreases k - m,
    {
        assert(v[m as int] == cs@[m as int].deep_view());
        if same(cs[m].callee.as_str(), cs[k].callee.as_str()) {
            return false;
        }
        m += 1;
    }
    true
}

/// The findings on the calls `cs`.
pub fn call_findings(cs: &Vec<RecordedCall>, min: usize) -> (r: Vec<RepeatedAuthFinding>)
    ensures
        r.deep_view() == findings(cs.deep_view(), min as nat),
{
    let ghost v = cs.deep_view();
    let mut out: Vec<RepeatedAuthFinding> = Vec::new();
    let mut k: usize = 0;
    while k < cs.len()
        invariant
            k <= cs.len(),
            v == cs.deep_view(),
            out.deep_view() == gather(0, k as int, finding_at(v, min as nat)),
        decreases cs.len() - k,
    {
        assert(v[k as int] == cs@[k as int].deep_view());
        let name = cs[k].callee.as_str();
        let ss = sites_of(cs, name);
        if is_first_of_callee(cs, k) && ss.len() >= min && !is_auth_endpoint_name(name) {
            let n = ss.len();
            let locs = join(&shown_of(&ss), ", ");
            let finding = RepeatedAuthFinding {
                code: "repeated_auth_extractor",
                severity: "info",
                callee: owned(name),
                sites: ss,
                message: message_of(name, n, locs.as_str()),
                fix: fix_of(name),
            };
            put(&mut out, finding);
        }
        k += 1;
    }
    sort(out)
}

/// What there is to report.
pub open spec fn report(
    min_call_sites: Option<usize>,
    files: Seq<ScannedFile>,
) -> RepeatedAuthExtractorReportView {
    RepeatedAuthExtractorReportView {
        findings: findings(
            gather(0, files.len() as int, file_calls(files)),
            threshold(min_call_sites),
        ),
        parse_errors: parse_errors(files),
    }
}

/// Reports the checks of who is calling that many server functions in `files`
/// repeat, by name.
pub fn repeated_auth_extractor(p: &RepeatedAuthExtractorParams, files: &Vec<ScannedFile>) -> (r:
    RepeatedAuthExtractorReport)
    ensures
        r.deep_view() == report(p.min_call_sites, files@),
{
    let min: usize = match p.min_call_sites {
        Some(n) => if n < 2 {
            2
        } else {
            n
        },
        None => 3,
    };
    let cs = all_calls(files);
    RepeatedAuthExtractorReport {
        findings: call_findings(&cs, min),
        parse_errors: collect_parse_errors(files),
    }
}

/// Every finding reaches the threshold, is on no endpoint of the authentication
/// itself, and lists all sites of its callee.
pub proof fn law_threshold(cs: Seq<RecordedCallView>, min: nat, f: RepeatedAuthFindingView)
    requires
        findings(cs, min).contains(f),
    ensures
        f.sites.len() >= min,
        f.sites == sites(cs, f.callee),
        !endpoint(lower(f.callee)),
{
    let all = gather(0, cs.len() as int, finding_at(cs, min));
    lemma_sorted_contains(all, rank::<RepeatedAuthFinding>(), f);
    lemma_gather_contains(0, cs.len() as int, finding_at(cs, min), f);
    let k = choose|k: int| 0 <= k < cs.len() && (#[trigger] finding_at(cs, min)(k)).contains(f);
    assert(finding_at(cs, min)(k).contains(f));
}

/// The first call of what call `i` calls, looking from `k` on.
proof fn lemma_first_of_callee(cs: Seq<RecordedCallView>, i: int, k: int) -> (r: int)
    requires
        0 <= k <= i < cs.len(),
        forall|m: int| 0 <= m < k ==> (#[trigger] cs[m]).callee != cs[i].callee,
    ensures
        k <= r <= i,
        cs[r].callee == cs[i].callee,
        first_of_callee(cs, r),
    decreases i - k,
{
    if cs[k].callee == cs[i].callee {
        k
    } else {
        lemma_first_of_callee(cs, i, k + 1)
    }
}

/// A call that is repeated often enough is found.
pub proof fn law_repetition_is_found(cs: Seq<RecordedCallView>, min: nat, i: int) -> (f:
    RepeatedAuthFindingView)
    requires
        0 <= i < cs.len(),
        sites(cs, cs[i].callee).len() >= min,
        !endpoint(lower(cs[i].callee)),
    ensures
        findings(cs, min).contains(f),
        f.callee == cs[i].callee,
{
    let k = lemma_first_of_callee(cs, i, 0);
    let name = cs[k].callee;
    let ss = sites(cs, name);
    let f = RepeatedAuthFindingView {
        code: "repeated_auth_extractor"@,
        severity: "info"@,
        callee: name,
        sites: ss,
        message: message(name, ss.len(), joined(shown(ss), ", "@)),
        fix: fix(name),
    };
    assert(finding_at(cs, min)(k) =~= seq![f]);
    assert(finding_at(cs, min)(k)[0] == f);
    lemma_gather_contains(0, cs.len() as int, finding_at(cs, min), f);
    lemma_sorted_contains(
        gather(0, cs.len() as int, finding_at(cs, min)),
        rank::<RepeatedAuthFinding>(),
        f,
    );
    f
}

} // verus!
