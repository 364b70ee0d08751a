//! `insecure_set_cookie`: flag cookies that server functions build without
//! `Secure`.
//!
//! A string counts as a cookie if one of its parts between semicolons is a known
//! attribute. Browsers reject `SameSite=None` without `Secure`, so that is an
//! error; anything else without `Secure` is a warning.
use vstd::prelude::*;

use crate::literal::{is_quoted, literal_value, parse_literal, quoted};
use crate::order::{gather, only_if, put, put_all};
use crate::scan::{
    ParseError, ParseErrorView, ScannedFile, body_end, body_of, body_start, collect_parse_errors,
    is_server_fn, parse_errors, server_fn,
};
use crate::tape::{Kind, Node, stop, stop_of};
use crate::text::{
    begins, has_char, lower, owned, parts, replace, replaced, same, split, starts_with, strip,
    strip_back, strip_front, to_lower, trim, trimmed,
};

verus! {

#[derive(Debug)]
pub struct InsecureSetCookieParams {
    pub project_root: Option<String>,
}

pub ghost struct InsecureSetCookieParamsView {
    pub project_root: Option<Seq<char>>,
}

impl DeepView for InsecureSetCookieParams {
    type V = InsecureSetCookieParamsView;

    open spec fn deep_view(&self) -> InsecureSetCookieParamsView {
        InsecureSetCookieParamsView {
            project_root: self.project_root.deep_view(),
        }
    }
}

#[derive(Debug)]
pub struct InsecureCookieFinding {
    pub code: &'static str,
    pub severity: &'static str,
    pub file: String,
    pub line: usize,
    pub server_fn: String,
    /// The value of the string.
    pub literal: String,
    pub message: String,
}

pub ghost struct InsecureCookieFindingView {
    pub code: Seq<char>,
    pub severity: Seq<char>,
    pub file: Seq<char>,
    pub line: usize,
    pub server_fn: Seq<char>,
    pub literal: Seq<char>,
    pub message: Seq<char>,
}

impl DeepView for InsecureCookieFinding {
    type V = InsecureCookieFindingView;

    open spec fn deep_view(&self) -> InsecureCookieFindingView {
        InsecureCookieFindingView {
            code: self.code@,
            severity: self.severity@,
            file: self.file@,
            line: self.line,
            server_fn: self.server_fn@,
            literal: self.literal@,
            message: self.message@,
        }
    }
}

#[derive(Debug)]
pub struct InsecureSetCookieReport {
    pub findings: Vec<InsecureCookieFinding>,
    pub parse_errors: Vec<ParseError>,
}

pub ghost struct InsecureSetCookieReportView {
    pub findings: Seq<InsecureCookieFindingView>,
    pub parse_errors: Seq<ParseErrorView>,
}

impl DeepView for InsecureSetCookieReport {
    type V = InsecureSetCookieReportView;

    open spec fn deep_view(&self) -> InsecureSetCookieReportView {
        InsecureSetCookieReportView {
            findings: self.findings.deep_view(),
            parse_errors: self.parse_errors.deep_view(),
        }
    }
}

/// A string in a server function.
#[derive(Debug)]
pub struct LiteralHit {
    pub value: String,
    pub line: usize,
}

pub ghost struct LiteralHitView {
    pub value: Seq<char>,
    pub line: usize,
}

impl DeepView for LiteralHit {
    type V = LiteralHitView;

    open spec fn deep_view(&self) -> LiteralHitView {
        LiteralHitView {
            value: self.value@,
            line: self.line,
        }
    }
}

// ---------------------------------------------------------------------------
// Cookies
// ---------------------------------------------------------------------------

/// `s` could be a part of a cookie.
pub open spec fn likely(s: Seq<char>) -> bool {
    !s.contains('\n') && !s.contains('\r') && s.len() > 0
}

pub fn is_likely_attribute_or_pair(s: &str) -> (r: bool)
    ensures
        r == likely(s@),
{
    !has_char(s, '\n') && !has_char(s, '\r') && s.unicode_len() > 0
}

/// `s` is an attribute of a cookie.
pub open spec fn known_attr(s: Seq<char>) -> bool {
    let l = lower(s);
    ||| l == "secure"@
    ||| l == "httponly"@
    ||| l == "partitioned"@
    ||| begins(l, "samesite="@)
    ||| begins(l, "path="@)
    ||| begins(l, "max-age="@)
    ||| begins(l, "expires="@)
    ||| begins(l, "domain="@)
}

pub fn is_known_cookie_attr(s: &str) -> (r: bool)
    ensures
        r == known_attr(s@),
{
    let lowered = to_lower(s);
    let l = lowered.as_str();
    same(l, "secure") || same(l, "httponly") || same(l, "partitioned") || starts_with(
        l,
        "samesite=",
    ) || starts_with(l, "path=") || starts_with(l, "max-age=") || starts_with(l, "expires=")
        || starts_with(l, "domain=")
}

pub open spec fn likely_part(s: Seq<char>) -> spec_fn(int) -> Seq<Seq<char>> {
    |k: int| only_if(likely(trimmed(parts(s, ';')[k])), trimmed(parts(s, ';')[k]))
}

/// The parts of `s` between semicolons that could be parts of a cookie.
pub open spec fn cookie_parts(s: Seq<char>) -> Seq<Seq<char>> {
    gather(0, parts(s, ';').len() as int, likely_part(s))
}

/// The parts of the cookie `s`; none if it has no known attribute.
pub open spec fn attrs(s: Seq<char>) -> Seq<Seq<char>> {
    if exists|k: int| 0 <= k < cookie_parts(s).len() && known_attr(#[trigger] cookie_parts(s)[k]) {
        cookie_parts(s)
    } else {
        Seq::empty()
    }
}

pub fn parse_attrs(literal: &str) -> (r: Vec<String>)
    ensures
        r.deep_view() == attrs(literal@),
{
    let pieces = split(literal, ';');
    let mut out: Vec<String> = Vec::new();
    let mut known = false;
    let mut k: usize = 0;
    while k < pieces.len()
        invariant
            k <= pieces.len(),
            pieces.deep_view() == parts(literal@, ';'),
            out.deep_view() == gather(0, k as int, likely_part(literal@)),
            known == exists|m: int|
                0 <= m < out.len() && known_attr(#[trigger] out.deep_view()[m]),
        decreases pieces.len() - k,
    {
        assert(pieces.deep_view()[k as int] == pieces@[k as int]@);
        let part = trim(pieces[k].as_str());
        if is_likely_attribute_or_pair(part.as_str()) {
            let ghost before = out.deep_view();
            let ghost text = part@;
            let adds = is_known_cookie_attr(part.as_str());
            put(&mut out, part);
            assert(out.deep_view() == before.push(text));
            assert(out.deep_view()[out.len() - 1] == text);
            assert(forall|m: int| 0 <= m < before.len() ==> out.deep_view()[m] == before[m]);
            known = known || adds;
        }
        k += 1;
    }
    if !known {
        let none: Vec<String> = Vec::new();
        assert(none.deep_view() =~= attrs(literal@));
        return none;
    }
    proof {
        let m = choose|m: int| 0 <= m < out.len() && known_attr(#[trigger] out.deep_view()[m]);
        assert(known_attr(cookie_parts(literal@)[m]));
    }
    out
}

/// `a` is the attribute `Secure`.
pub open spec fn secure(a: Seq<char>) -> bool {
    lower(a) == "secure"@
}

/// `a` asks for cookies across sites.
pub open spec fn cross_site(a: Seq<char>) -> bool {
    begins(lower(a), "samesite=none"@)
}

/// How bad the cookie `s` is: browsers reject `SameSite=None` without `Secure`,
/// and accept anything else without it.
pub open spec fn severity(s: Seq<char>) -> Option<Seq<char>> {
    let a = attrs(s);
    if a.len() == 0 || exists|k: int| 0 <= k < a.len() && secure(#[trigger] a[k]) {
        None
    } else if exists|k: int| 0 <= k < a.len() && cross_site(#[trigger] a[k]) {
        Some("error"@)
    } else {
        Some("warning"@)
    }
}

pub fn classify(literal: &str) -> (r: Option<&'static str>)
    ensures
        r.deep_view() == severity(literal@),
{
    let attributes = parse_attrs(literal);
    let ghost a = attributes.deep_view();
    if attributes.len() == 0 {
        return None;
    }
    let mut none = false;
    let mut k: usize = 0;
    while k < attributes.len()
        invariant
            k <= attributes.len(),
            a == attributes.deep_view(),
            a == attrs(literal@),
            forall|m: int| 0 <= m < k ==> !secure(#[trigger] a[m]),
            none == exists|m: int| 0 <= m < k && cross_site(#[trigger] a[m]),
        decreases attributes.len() - k,
    {
        assert(a[k as int] == attributes@[k as int]@);
        let l = to_lower(attributes[k].as_str());
        if same(l.as_str(), "secure") {
            assert(secure(a[k as int]));
            return None;
        }
        if starts_with(l.as_str(), "samesite=none") {
            assert(cross_site(a[k as int]));
            none = true;
        }
        k += 1;
    }
    if none {
        Some("error")
    } else {
        Some("warning")
    }
}

/// `s` with line breaks spelled out.
pub open spec fn escaped(s: Seq<char>) -> Seq<char> {
    replaced(replaced(s, "\n"@, "\\n"@), "\r"@, "\\r"@)
}

fn escape(s: &str) -> (r: String)
    ensures
        r@ == escaped(s@),
{
    proof {
        reveal_strlit("\n");
        reveal_strlit("\r");
    }
    let lines = replace(s, "\n", "\\n");
    replace(lines.as_str(), "\r", "\\r")
}

pub open spec fn error_message(text: Seq<char>) -> Seq<char> {
    "Set-Cookie value `"@
        + text
        + "` declares `SameSite=None` but lacks `Secure`. Modern browsers reject this combination outright — the cookie is dropped. Add `; Secure` (and serve over HTTPS) or change `SameSite=None` to `Lax` / `Strict` if cross-site delivery isn't required."@
}

fn error_message_of(text: &str) -> (r: String)
    ensures
        r@ == error_message(text@),
{
    let mut s = owned("Set-Cookie value `");
    s.append(text);
    s.append("` declares `SameSite=None` but lacks `Secure`. Modern browsers reject this combination outright — the cookie is dropped. Add `; Secure` (and serve over HTTPS) or change `SameSite=None` to `Lax` / `Strict` if cross-site delivery isn't required.");
    s
}

pub open spec fn warning_message(text: Seq<char>) -> Seq<char> {
    "Set-Cookie value `"@
        + text
        + "` is missing the `Secure` attribute. Without `Secure` the browser will send the cookie over plain HTTP, so a network observer can lift the session. For session cookies, prefer the `__Host-` prefix (forces Secure + Path=/ + no Domain). Also consider tightening the fixed `Max-Age` if it's a long lifetime."@
}

fn warning_message_of(text: &str) -> (r: String)
    ensures
        r@ == warning_message(text@),
{
    let mut s = owned("Set-Cookie value `");
    s.append(text);
    s.append("` is missing the `Secure` attribute. Without `Secure` the browser will send the cookie over plain HTTP, so a network observer can lift the session. For session cookies, prefer the `__Host-` prefix (forces Secure + Path=/ + no Domain). Also consider tightening the fixed `Max-Age` if it's a long lifetime.");
    s
}

/// The message for the cookie `literal`.
pub open spec fn message(severity: Seq<char>, literal: Seq<char>) -> Seq<char> {
    if severity == "error"@ {
        error_message(escaped(literal))
    } else {
        warning_message(escaped(literal))
    }
}

pub fn build_message(severity: &str, literal: &str) -> (r: String)
    ensures
        r@ == message(severity@, literal@),
{
    let text = escape(literal);
    if same(severity, "error") {
        error_message_of(text.as_str())
    } else {
        warning_message_of(text.as_str())
    }
}

// ---------------------------------------------------------------------------
// Strings
// ---------------------------------------------------------------------------

/// `value`, or the text `s` without its quotes where there is none.
pub open spec fn value_or_text(s: Seq<char>, value: Option<Seq<char>>) -> Seq<char> {
    match value {
        Some(v) => v,
        None => strip_back(strip_front(s, '"'), '"'),
    }
}

/// The parsed value of a literal, or its text without the quotes.
pub fn value_or_unquoted(s: &str, value: Option<String>) -> (r: String)
    ensures
        r@ == value_or_text(s@, value.deep_view()),
{
    match value {
        Some(v) => v,
        None => strip(s, '"'),
    }
}

/// The value of the string literal of text `s`.
pub fn unquote(s: &str) -> (r: String)
    ensures
        r@ == value_or_text(s@, literal_value(s@)),
{
    value_or_unquoted(s, parse_literal(s))
}

/// The first literal that stands directly in the macro at `m`, before `hi`.
pub open spec fn first_literal(t: Seq<Node>, m: int, hi: int) -> Option<int>
    decreases hi - m,
{
    if hi <= m {
        None
    } else {
        match first_literal(t, m, hi - 1) {
            Some(j) => Some(j),
            None => if t[hi - 1].kind == Kind::TokLit && t[hi - 1].parent == m {
                Some(hi - 1)
            } else {
                None
            },
        }
    }
}

/// The string that node `j` holds: a literal, or the first one in a macro.
pub open spec fn hit(t: Seq<Node>, j: int) -> Option<LiteralHitView> {
    if t[j].kind == Kind::Str {
        Some(LiteralHitView { value: t[j].name@, line: t[j].line })
    } else if t[j].kind == Kind::Macro {
        match first_literal(t, j, stop(t, j)) {
            Some(l) => if quoted(t[l].name@) {
                Some(
                    LiteralHitView {
                        value: value_or_text(t[l].name@, literal_value(t[l].name@)),
                        line: t[l].line,
                    },
                )
            } else {
                None
            },
            None => None,
        }
    } else {
        None
    }
}

fn first_literal_of(t: &Vec<Node>, m: usize) -> (r: Option<usize>)
    requires
        m < t.len(),
    ensures
        match r {
            Some(l) => first_literal(t@, m as int, stop(t@, m as int)) == Some(l as int) && l
                < t.len(),
            None => first_literal(t@, m as int, stop(t@, m as int)) is None,
        },
{
    let end = stop_of(t, m);
    let mut found: Option<usize> = None;
    let mut j: usize = m;
    while j < end
        invariant
            m <= j <= end <= t.len(),
            match found {
                Some(l) => first_literal(t@, m as int, j as int) == Some(l as int) && l < t.len(),
                None => first_literal(t@, m as int, j as int) is None,
            },
        decreases end - j,
    {
        if found.is_none() && t[j].kind == Kind::TokLit && t[j].parent == m {
            found = Some(j);
        }
        j += 1;
    }
    found
}

fn hit_of(t: &Vec<Node>, j: usize) -> (r: Option<LiteralHit>)
    requires
        j < t.len(),
    ensures
        r.deep_view() == hit(t@, j as int),
{
    match t[j].kind {
        Kind::Str => Some(LiteralHit { value: owned(t[j].name.as_str()), line: t[j].line }),
        Kind::Macro => match first_literal_of(t, j) {
            Some(l) => if is_quoted(t[l].name.as_str()) {
                Some(LiteralHit { value: unquote(t[l].name.as_str()), line: t[l].line })
            } else {
                None
            },
            None => None,
        },
        _ => None,
    }
}

// ---------------------------------------------------------------------------
// Findings
// ---------------------------------------------------------------------------

/// The finding on the string that node `j` of the server function at `f` holds.
pub open spec fn cookie_at(t: Seq<Node>, f: int, file: Seq<char>) -> spec_fn(int) -> Seq<
    InsecureCookieFindingView,
> {
    |j: int|
        match hit(t, j) {
            Some(h) => match severity(h.value) {
                Some(s) => seq![
                    InsecureCookieFindingView {
                        code: "insecure_set_cookie"@,
                        severity: s,
                        file,
                        line: h.line,
                        server_fn: t[f].name@,
                        literal: h.value,
                        message: message(s, h.value),
                    },
                ],
                None => Seq::empty(),
            },
            None => Seq::empty(),
        }
}

pub open spec fn fn_cookies(t: Seq<Node>, file: Seq<char>) -> spec_fn(int) -> Seq<
    InsecureCookieFindingView,
> {
    |f: int|
        if server_fn(t, f) {
            gather(body_start(t, f), body_end(t, f), cookie_at(t, f, file))
        } else {
            Seq::empty()
        }
}

fn cookies_in_fn(t: &Vec<Node>, f: usize, file: &str) -> (r: Vec<InsecureCookieFinding>)
    requires
        f < t.len(),
    ensures
        r.deep_view() == gather(
            body_start(t@, f as int),
            body_end(t@, f as int),
            cookie_at(t@, f as int, file@),
        ),
{
    let (lo, hi) = body_of(t, f);
    let mut out: Vec<InsecureCookieFinding> = Vec::new();
    let mut j: usize = lo;
    while j < hi
        invariant
            f < t.len(),
            lo <= j <= hi <= t.len(),
            out.deep_view() == gather(lo as int, j as int, cookie_at(t@, f as int, file@)),
        decreases hi - j,
    {
        match hit_of(t, j) {
            Some(h) => match classify(h.value.as_str()) {
                Some(s) => {
                    let finding = InsecureCookieFinding {
                        code: "insecure_set_cookie",
                        severity: s,
                        file: owned(file),
                        line: h.line,
                        server_fn: owned(t[f].name.as_str()),
                        message: build_message(s, h.value.as_str()),
                        literal: h.value,
                    };
                    put(&mut out, finding);
                },
                None => {},
            },
            None => {},
        }
        j += 1;
    }
    out
}

fn cookies_in(t: &Vec<Node>, file: &str) -> (r: Vec<InsecureCookieFinding>)
    ensures
        r.deep_view() == gather(0, t@.len() as int, fn_cookies(t@, file@)),
{
    let mut out: Vec<InsecureCookieFinding> = Vec::new();
    let mut j: usize = 0;
    while j < t.len()
        invariant
            j <= t.len(),
            out.deep_view() == gather(0, j as int, fn_cookies(t@, file@)),
        decreases t.len() - j,
    {
        if is_server_fn(t, j) {
            put_all(&mut out, cookies_in_fn(t, j, file));
        }
        j += 1;
    }
    out
}

pub open spec fn file_cookies(
    files: Seq<ScannedFile>,
) -> spec_fn(int) -> Seq<InsecureCookieFindingView> {
    |k: int|
        match files[k].ast {
            Ok(t) => gather(0, t@.len() as int, fn_cookies(t@, files[k].path@)),
            Err(_) => Seq::empty(),
        }
}

fn all_cookies(files: &Vec<ScannedFile>) -> (r: Vec<InsecureCookieFinding>)
    ensures
        r.deep_view() == gather(0, files@.len() as int, file_cookies(files@)),
{
    let mut out: Vec<InsecureCookieFinding> = Vec::new();
    let mut k: usize = 0;
    while k < files.len()
        invariant
            k <= files.len(),
            out.deep_view() == gather(0, k as int, file_cookies(files@)),
        decreases files.len() - k,
    {
        match &files[k].ast {
            Ok(t) => put_all(&mut out, cookies_in(t, files[k].path.as_str())),
            Err(_) => {},
        }
        k += 1;
    }
    out
}

/// What there is to report.
pub open spec fn report(files: Seq<ScannedFile>) -> InsecureSetCookieReportView {
    InsecureSetCookieReportView {
        findings: gather(0, files.len() as int, file_cookies(files)),
        parse_errors: parse_errors(files),
    }
}

/// Reports the cookies without `Secure` that server functions in `files` build.
pub fn insecure_set_cookie(files: &Vec<ScannedFile>) -> (r: InsecureSetCookieReport)
    ensures
        r.deep_view() == report(files@),
{
    InsecureSetCookieReport {
        findings: all_cookies(files),
        parse_errors: collect_parse_errors(files),
    }
}

/// A cookie is flagged exactly if it has a known attribute and none is `Secure`,
/// and the flag is an error exactly if it asks for cookies across sites.
pub proof fn law_severity(s: Seq<char>)
    ensures
        severity(s) is Some <==> (exists|k: int|
            0 <= k < cookie_parts(s).len() && known_attr(#[trigger] cookie_parts(s)[k])) && (forall|
            k: int,
        |
            0 <= k < cookie_parts(s).len() ==> !secure(#[trigger] cookie_parts(s)[k])),
        severity(s) is Some ==> (severity(s) == Some("error"@) || severity(s) == Some("warning"@)),
        severity(s) is Some && (exists|k: int|
            0 <= k < cookie_parts(s).len() && cross_site(#[trigger] cookie_parts(s)[k]))
            ==> severity(s) == Some("error"@),
        severity(s) is Some && (forall|k: int|
            0 <= k < cookie_parts(s).len() ==> !cross_site(#[trigger] cookie_parts(s)[k]))
            ==> severity(s) == Some("warning"@),
{
}

} // verus!
