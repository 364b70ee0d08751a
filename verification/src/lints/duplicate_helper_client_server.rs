//! `duplicate_helper_client_server`: flag functions that client and server both
//! define.
//!
//! Two functions are the same if their names, the types of their signatures and
//! their bodies agree, whatever their parameters are called.
use vstd::prelude::*;

use vstd::utf8::encode_utf8;

use crate::order::{
    gather, lemma_gather_contains, lemma_sorted_contains, lemma_text_le, only_if, put, put_all,
    rank, sort, sorted, text_le, text_leq, Ranked,
};
use crate::paths::{path_is_under, path_under};
use crate::scan::{
    ParseError, ParseErrorView, ScannedFile, attributed, collect_parse_errors, has_attr,
    has_server_attr, parse_errors, server_attributed, top_fn,
};
use crate::tape::{Kind, Node, operand, operand_of};
use crate::text::{
    cat2, cat3, cat6, decimal, decimal_usize, join, joined, owned, same, squeeze, squeezed, trimmed,
};
use crate::tokens::{Shape, Token, TokenView, spell, spelled, tokens, tokens_of};

verus! {

#[derive(Debug)]
pub struct DuplicateHelperParams {
    pub project_root: Option<String>,
}

pub ghost struct DuplicateHelperParamsView {
    pub project_root: Option<Seq<char>>,
}

impl DeepView for DuplicateHelperParams {
    type V = DuplicateHelperParamsView;

    open spec fn deep_view(&self) -> DuplicateHelperParamsView {
        DuplicateHelperParamsView {
            project_root: self.project_root.deep_view(),
        }
    }
}

#[derive(Debug)]
pub struct HelperSite {
    pub file: String,
    pub line: usize,
    /// `client` or `server`.
    pub side: &'static str,
}

pub ghost struct HelperSiteView {
    pub file: Seq<char>,
    pub line: usize,
    pub side: Seq<char>,
}

impl DeepView for HelperSite {
    type V = HelperSiteView;

    open spec fn deep_view(&self) -> HelperSiteView {
        HelperSiteView {
            file: self.file@,
            line: self.line,
            side: self.side@,
        }
    }
}

#[derive(Debug)]
pub struct DuplicateHelperFinding {
    pub code: &'static str,
    pub severity: &'static str,
    pub fn_name: String,
    /// Every site with this body; some on each side.
    pub sites: Vec<HelperSite>,
    pub message: String,
    pub fix: String,
}

pub ghost struct DuplicateHelperFindingView {
    pub code: Seq<char>,
    pub severity: Seq<char>,
    pub fn_name: Seq<char>,
    pub sites: Seq<HelperSiteView>,
    pub message: Seq<char>,
    pub fix: Seq<char>,
}

impl DeepView for DuplicateHelperFinding {
    type V = DuplicateHelperFindingView;

    open spec fn deep_view(&self) -> DuplicateHelperFindingView {
        DuplicateHelperFindingView {
            code: self.code@,
            severity: self.severity@,
            fn_name: self.fn_name@,
            sites: self.sites.deep_view(),
            message: self.message@,
            fix: self.fix@,
        }
    }
}

#[derive(Debug)]
pub struct DuplicateHelperReport {
    pub findings: Vec<DuplicateHelperFinding>,
    pub parse_errors: Vec<ParseError>,
}

pub ghost struct DuplicateHelperReportView {
    pub findings: Seq<DuplicateHelperFindingView>,
    pub parse_errors: Seq<ParseErrorView>,
}

impl DeepView for DuplicateHelperReport {
    type V = DuplicateHelperReportView;

    open spec fn deep_view(&self) -> DuplicateHelperReportView {
        DuplicateHelperReportView {
            findings: self.findings.deep_view(),
            parse_errors: self.parse_errors.deep_view(),
        }
    }
}

/// A function that may have a twin.
#[derive(Debug)]
pub struct Helper {
    pub name: String,
    /// The types of its signature, and its body with the parameters renamed.
    pub key: String,
    pub site: HelperSite,
}

pub ghost struct HelperView {
    pub name: Seq<char>,
    pub key: Seq<char>,
    pub site: HelperSiteView,
}

impl DeepView for Helper {
    type V = HelperView;

    open spec fn deep_view(&self) -> HelperView {
        HelperView {
            name: self.name@,
            key: self.key@,
            site: self.site.deep_view(),
        }
    }
}

impl Ranked for DuplicateHelperFinding {
    /// By name.
    open spec fn le(a: DuplicateHelperFindingView, b: DuplicateHelperFindingView) -> bool {
        text_le(a.fn_name, b.fn_name)
    }

    proof fn ordered(
        a: DuplicateHelperFindingView,
        b: DuplicateHelperFindingView,
        c: DuplicateHelperFindingView,
    ) {
        lemma_text_le(a.fn_name, b.fn_name, c.fn_name);
    }

    fn leq(&self, other: &Self) -> (r: bool) {
        text_leq(self.fn_name.as_str(), other.fn_name.as_str())
    }
}

// ---------------------------------------------------------------------------
// Sides
// ---------------------------------------------------------------------------

/// Which side of the application the file at `path` is on.
pub open spec fn side(
    path: Seq<char>,
    components_root: Seq<char>,
    server_root: Seq<char>,
) -> Option<Seq<char>> {
    if path_under(path, components_root) {
        Some("client"@)
    } else if path_under(path, server_root) {
        Some("server"@)
    } else {
        None
    }
}

pub fn classify_side(path: &str, components_root: &str, server_root: &str) -> (r: Option<
    &'static str,
>)
    ensures
        r.deep_view() == side(path@, components_root@, server_root@),
{
    if path_is_under(path, components_root) {
        Some("client")
    } else if path_is_under(path, server_root) {
        Some("server")
    } else {
        None
    }
}

// ---------------------------------------------------------------------------
// Keys
// ---------------------------------------------------------------------------

/// `s` with every run of white space replaced by one space, and none at its ends.
pub open spec fn normalized(s: Seq<char>) -> Seq<char> {
    trimmed(squeezed(s, false))
}

pub fn normalize(s: &str) -> (r: String)
    ensures
        r@ == normalized(s@),
{
    squeeze(s, false)
}

/// The name of argument `k` of the function at `f`, if its pattern is a name.
pub open spec fn param(t: Seq<Node>, f: int, k: nat) -> Option<Seq<char>> {
    match operand(t, f, k) {
        Some(a) => if t[a].kind == Kind::Arg {
            match operand(t, a, 0) {
                Some(p) => if t[p].kind == Kind::PatIdent {
                    Some(t[p].name@)
                } else {
                    None
                },
                None => None,
            }
        } else {
            None
        },
        None => None,
    }
}

fn param_of(t: &Vec<Node>, f: usize, k: usize) -> (r: Option<String>)
    requires
        f < t.len(),
    ensures
        r.deep_view() == param(t@, f as int, k as nat),
{
    match operand_of(t, f, k) {
        Some(a) => if t[a].kind == Kind::Arg {
            match operand_of(t, a, 0) {
                Some(p) => if t[p].kind == Kind::PatIdent {
                    Some(owned(t[p].name.as_str()))
                } else {
                    None
                },
                None => None,
            }
        } else {
            None
        },
        None => None,
    }
}

/// What stands for the argument `name`, among the first `n`: its number.
pub open spec fn placeholder(t: Seq<Node>, f: int, n: nat, name: Seq<char>) -> Option<Seq<char>>
    decreases n,
{
    if n == 0 {
        None
    } else if param(t, f, (n - 1) as nat) == Some(name) {
        Some("__arg"@ + decimal((n - 1) as nat) + "__"@)
    } else {
        placeholder(t, f, (n - 1) as nat, name)
    }
}

/// `k` with the name of an argument replaced by its number.
pub open spec fn renamed(t: Seq<Node>, f: int, k: TokenView) -> TokenView {
    match placeholder(t, f, t[f].count as nat, k.text) {
        Some(text) => if k.shape == Shape::Ident {
            TokenView { shape: k.shape, text, joint: k.joint }
        } else {
            k
        },
        None => k,
    }
}

pub open spec fn all_renamed(t: Seq<Node>, f: int, ks: Seq<TokenView>) -> Seq<TokenView> {
    Seq::new(ks.len(), |k: int| renamed(t, f, ks[k]))
}

/// The text of the body of the function at `f` whose tokens are `ks`, with the
/// names of arguments replaced; the text itself where it has no tokens.
pub open spec fn body_text(t: Seq<Node>, f: int, ks: Option<Seq<TokenView>>) -> Seq<char> {
    match ks {
        Some(s) => spelled(all_renamed(t, f, s)),
        None => t[f].text@,
    }
}

fn placeholder_of(t: &Vec<Node>, f: usize, name: &str) -> (r: Option<String>)
    requires
        f < t.len(),
    ensures
        r.deep_view() == placeholder(t@, f as int, t@[f as int].count as nat, name@),
{
    let mut n: usize = t[f].count;
    while n > 0
        invariant
            f < t.len(),
            placeholder(t@, f as int, t@[f as int].count as nat, name@) == placeholder(
                t@,
                f as int,
                n as nat,
                name@,
            ),
        decreases n,
    {
        match param_of(t, f, n - 1) {
            Some(p) => {
                if same(p.as_str(), name) {
                    return Some(cat3("__arg", decimal_usize(n - 1).as_str(), "__"));
                }
            },
            None => {},
        }
        n -= 1;
    }
    None
}

/// The text of the body of the function at `f`, given its tokens.
pub fn rewrite_idents(t: &Vec<Node>, f: usize, ks: &Option<Vec<Token>>) -> (r: String)
    requires
        f < t.len(),
    ensures
        r@ == body_text(t@, f as int, ks.deep_view()),
{
    let tokens = match ks {
        Some(v) => v,
        None => return owned(t[f].text.as_str()),
    };
    let ghost s = tokens.deep_view();
    let mut out: Vec<Token> = Vec::new();
    let mut i: usize = 0;
    while i < tokens.len()
        invariant
            f < t.len(),
            i <= tokens.len(),
            s == tokens.deep_view(),
            out.deep_view() =~= all_renamed(t@, f as int, s).take(i as int),
        decreases tokens.len() - i,
    {
        assert(s[i as int] == tokens@[i as int].deep_view());
        let k = &tokens[i];
        let text = if k.shape == Shape::Ident {
            match placeholder_of(t, f, k.text.as_str()) {
                Some(text) => text,
                None => owned(k.text.as_str()),
            }
        } else {
            owned(k.text.as_str())
        };
        put(&mut out, Token { shape: k.shape, text, joint: k.joint });
        i += 1;
    }
    assert(out.deep_view() =~= all_renamed(t@, f as int, s));
    spell(&out)
}

/// The types of the first `n` arguments of the function at `f`.
pub open spec fn arg_types(t: Seq<Node>, f: int, n: nat) -> Seq<Seq<char>>
    decreases n,
{
    if n == 0 {
        Seq::empty()
    } else {
        match operand(t, f, (n - 1) as nat) {
            Some(a) => arg_types(t, f, (n - 1) as nat).push(normalized(t[a].text@)),
            None => arg_types(t, f, (n - 1) as nat),
        }
    }
}

/// The type that the function at `f` returns.
pub open spec fn return_type(t: Seq<Node>, f: int) -> Seq<char> {
    match operand(t, f, t[f].count as nat) {
        Some(r) => if t[r].flag {
            normalized(t[r].text@)
        } else {
            "()"@
        },
        None => "()"@,
    }
}

/// The types of the signature of the function at `f`.
pub open spec fn signature(t: Seq<Node>, f: int) -> Seq<char> {
    joined(arg_types(t, f, t[f].count as nat).push("->"@ + return_type(t, f)), "|"@)
}

pub fn signature_type_key(t: &Vec<Node>, f: usize) -> (r: String)
    requires
        f < t.len(),
    ensures
        r@ == signature(t@, f as int),
{
    let count = t[f].count;
    let mut types: Vec<String> = Vec::new();
    let mut n: usize = 0;
    assert(types.deep_view() =~= arg_types(t@, f as int, 0));
    while n < count
        invariant
            f < t.len(),
            n <= count,
            types.deep_view() == arg_types(t@, f as int, n as nat),
        decreases count - n,
    {
        match operand_of(t, f, n) {
            Some(a) => put(&mut types, normalize(t[a].text.as_str())),
            None => {},
        }
        n += 1;
    }
    let ret = match operand_of(t, f, count) {
        Some(r) => if t[r].flag {
            normalize(t[r].text.as_str())
        } else {
            owned("()")
        },
        None => owned("()"),
    };
    put(&mut types, cat2("->", ret.as_str()));
    join(&types, "|")
}

// ---------------------------------------------------------------------------
// Helpers
// ---------------------------------------------------------------------------

/// The text `key` of a body is too short to count.
pub open spec fn short(key: Seq<char>) -> bool {
    (encode_utf8(key).len() as usize) < 40
}

/// The function at `f` may be a helper: plain, neither a component nor run by
/// the server.
pub open spec fn plain_fn(t: Seq<Node>, f: int) -> bool {
    top_fn(t, f) && !t[f].flag && !server_attributed(t, f) && !attributed(t, f, "component"@)
}

/// The helper that the function at `f` is, given the tokens of its body.
pub open spec fn helper(
    t: Seq<Node>,
    f: int,
    file: Seq<char>,
    side: Seq<char>,
    ks: Option<Seq<TokenView>>,
) -> Option<HelperView> {
    let body = normalized(body_text(t, f, ks));
    if short(body) {
        None
    } else {
        Some(
            HelperView {
                name: t[f].name@,
                key: signature(t, f) + "::"@ + body,
                site: HelperSiteView { file, line: t[f].line, side },
            },
        )
    }
}

pub open spec fn helper_at(t: Seq<Node>, file: Seq<char>, side: Seq<char>) -> spec_fn(int) -> Seq<
    HelperView,
> {
    |f: int|
        if plain_fn(t, f) {
            match helper(t, f, file, side, tokens(t[f].text@)) {
                Some(h) => seq![h],
                None => Seq::empty(),
            }
        } else {
            Seq::empty()
        }
}

pub open spec fn file_helpers(
    files: Seq<ScannedFile>,
    components_root: Seq<char>,
    server_root: Seq<char>,
) -> spec_fn(int) -> Seq<HelperView> {
    |k: int|
        match (files[k].ast, side(files[k].path@, components_root, server_root)) {
            (Ok(t), Some(s)) => gather(0, t@.len() as int, helper_at(t@, files[k].path@, s)),
            _ => Seq::empty(),
        }
}

/// The helpers of both sides of a project.
pub open spec fn helpers(
    files: Seq<ScannedFile>,
    components_root: Seq<char>,
    server_root: Seq<char>,
) -> Seq<HelperView> {
    gather(0, files.len() as int, file_helpers(files, components_root, server_root))
}

/// The helper that the function at `f` is, given the tokens of its body.
pub fn helper_of(
    t: &Vec<Node>,
    f: usize,
    file: &str,
    side: &'static str,
    ks: &Option<Vec<Token>>,
) -> (r: Option<Helper>)
    requires
        f < t.len(),
    ensures
        r.deep_view() == helper(t@, f as int, file@, side@, ks.deep_view()),
{
    let body = normalize(rewrite_idents(t, f, ks).as_str());
    if body.as_str().len() < 40 {
        return None;
    }
    let types = signature_type_key(t, f);
    Some(
        Helper {
            name: owned(t[f].name.as_str()),
            key: cat3(types.as_str(), "::", body.as_str()),
            site: HelperSite { file: owned(file), line: t[f].line, side },
        },
    )
}

fn collect_fn_bodies(t: &Vec<Node>, file: &str, side: &'static str) -> (r: Vec<Helper>)
    ensures
        r.deep_view() == gather(0, t@.len() as int, helper_at(t@, file@, side@)),
{
    let mut out: Vec<Helper> = Vec::new();
    let mut f: usize = 0;
    while f < t.len()
        invariant
            f <= t.len(),
            out.deep_view() == gather(0, f as int, helper_at(t@, file@, side@)),
        decreases t.len() - f,
    {
        if t[f].kind == Kind::Fn && t[f].parent == 0 && f > 0 && !t[f].flag && !has_server_attr(
            t,
            f,
        ) && !has_attr(t, f, "component") {
            let ks = tokens_of(t[f].text.as_str());
            match helper_of(t, f, file, side, &ks) {
                Some(h) => put(&mut out, h),
                None => {},
            }
        }
        f += 1;
    }
    out
}

fn helpers_of(
    files: &Vec<ScannedFile>,
    components_root: &str,
    server_root: &str,
) -> (r: Vec<Helper>)
    ensures
        r.deep_view() == helpers(files@, components_root@, server_root@),
{
    let mut out: Vec<Helper> = Vec::new();
    let mut k: usize = 0;
    while k < files.len()
        invariant
            k <= files.len(),
            out.deep_view() == gather(
                0,
                k as int,
                file_helpers(files@, components_root@, server_root@),
            ),
        decreases files.len() - k,
    {
        let path = files[k].path.as_str();
        match (&files[k].ast, classify_side(path, components_root, server_root)) {
            (Ok(t), Some(side)) => put_all(&mut out, collect_fn_bodies(t, path, side)),
            _ => {},
        }
        k += 1;
    }
    out
}

// ---------------------------------------------------------------------------
// Findings
// ---------------------------------------------------------------------------

/// `a` and `b` are the same function.
pub open spec fn twins(a: HelperView, b: HelperView) -> bool {
    a.name == b.name && a.key == b.key
}

pub open spec fn twin_site(hs: Seq<HelperView>, k: int) -> spec_fn(int) -> Seq<HelperSiteView> {
    |m: int| only_if(twins(hs[m], hs[k]), hs[m].site)
}

/// Where the function that helper `k` is stands.
pub open spec fn sites(hs: Seq<HelperView>, k: int) -> Seq<HelperSiteView> {
    gather(0, hs.len() as int, twin_site(hs, k))
}

/// One of the sites is on `side`.
pub open spec fn reaches(ss: Seq<HelperSiteView>, side: Seq<char>) -> bool {
    exists|k: int| 0 <= k < ss.len() && (#[trigger] ss[k]).side == side
}

pub open spec fn first_twin(hs: Seq<HelperView>, k: int) -> bool {
    forall|m: int| 0 <= m < k ==> !twins(#[trigger] hs[m], hs[k])
}

/// `file:line (side)` for each of the sites.
pub open spec fn shown(ss: Seq<HelperSiteView>) -> Seq<Seq<char>> {
    Seq::new(
        ss.len(),
        |k: int| ss[k].file + ":"@ + decimal(ss[k].line as nat) + " ("@ + ss[k].side + ")"@,
    )
}

pub open spec fn message(name: Seq<char>, n: nat, locs: Seq<char>) -> Seq<char> {
    "`fn "@
        + name
        + "` has byte-identical bodies at "@
        + decimal(n)
        + " sites across `src/components/` and `src/server/`: "@
        + locs
        + ". Two impls of the same logic will drift — a bug fixed on one side won't reach the other."@
}

fn message_of(name: &str, n: usize, locs: &str) -> (r: String)
    ensures
        r@ == message(name@, n as nat, locs@),
{
    let mut s = owned("`fn ");
    s.append(name);
    s.append("` has byte-identical bodies at ");
    s.append(decimal_usize(n).as_str());
    s.append(" sites across `src/components/` and `src/server/`: ");
    s.append(locs);
    s.append(". Two impls of the same logic will drift — a bug fixed on one side won't reach the other.");
    s
}

pub open spec fn fix(name: Seq<char>) -> Seq<char> {
    "Move `fn "@
        + name
        + "` into `src/model/"@
        + name
        + ".rs` (or an existing model module) and re-export it from both call sites."@
}

fn fix_of(name: &str) -> (r: String)
    ensures
        r@ == fix(name@),
{
    let mut s = owned("Move `fn ");
    s.append(name);
    s.append("` into `src/model/");
    s.append(name);
    s.append(".rs` (or an existing model module) and re-export it from both call sites.");
    s
}

/// The finding on helper `k`, if it is the first of its twins and they stand on
/// both sides.
pub open spec fn finding_at(
    hs: Seq<HelperView>,
) -> spec_fn(int) -> Seq<DuplicateHelperFindingView> {
    |k: int|
        {
            let ss = sites(hs, k);
            only_if(
                first_twin(hs, k) && ss.len() >= 2 && reaches(ss, "client"@) && reaches(
                    ss,
                    "server"@,
                ),
                DuplicateHelperFindingView {
                    code: "duplicate_helper_across_client_and_server"@,
                    severity: "warning"@,
                    fn_name: hs[k].name,
                    sites: ss,
                    message: message(hs[k].name, ss.len(), joined(shown(ss), ", "@)),
                    fix: fix(hs[k].name),
                },
            )
        }
}

/// One finding for each function that stands on both sides, by its name.
pub open spec fn findings(hs: Seq<HelperView>) -> Seq<DuplicateHelperFindingView> {
    sorted(gather(0, hs.len() as int, finding_at(hs)), rank::<DuplicateHelperFinding>())
}

fn are_twins(a: &Helper, b: &Helper) -> (r: bool)
    ensures
        r == twins(a.deep_view(), b.deep_view()),
{
    same(a.name.as_str(), b.name.as_str()) && same(a.key.as_str(), b.key.as_str())
}

fn sites_of(hs: &Vec<Helper>, k: usize) -> (r: Vec<HelperSite>)
    requires
        k < hs.len(),
    ensures
        r.deep_view() == sites(hs.deep_view(), k as int),
{
    let ghost v = hs.deep_view();
    assert(v[k as int] == hs@[k as int].deep_view());
    let mut out: Vec<HelperSite> = Vec::new();
    let mut m: usize = 0;
    while m < hs.len()
        invariant
            k < hs.len(),
            m <= hs.len(),
            v == hs.deep_view(),
            v[k as int] == hs@[k as int].deep_view(),
            out.deep_view() == gather(0, m as int, twin_site(v, k as int)),
        decreases hs.len() - m,
    {
        assert(v[m as int] == hs@[m as int].deep_view());
        if are_twins(&hs[m], &hs[k]) {
            let s = &hs[m].site;
            put(
                &mut out,
                HelperSite { file: owned(s.file.as_str()), line: s.line, side: s.side },
            );
        }
        m += 1;
    }
    out
}

fn is_first_twin(hs: &Vec<Helper>, k: usize) -> (r: bool)
    requires
        k < hs.len(),
    ensures
        r == first_twin(hs.deep_view(), k as int),
{
    let ghost v = hs.deep_view();
    assert(v[k as int] == hs@[k as int].deep_view());
    let mut m: usize = 0;
    while m < k
        invariant
            m <= k < hs.len(),
            v == hs.deep_view(),
            v[k as int] == hs@[k as int].deep_view(),
            forall|i: int| 0 <= i < m ==> !twins(#[trigger] v[i], v[k as int]),
        decreases k - m,
    {
        assert(v[m as int] == hs@[m as int].deep_view());
        if are_twins(&hs[m], &hs[k]) {
            return false;
        }
        m += 1;
    }
    true
}

fn has_side(ss: &Vec<HelperSite>, side: &str) -> (r: bool)
    ensures
        r == reaches(ss.deep_view(), side@),
{
    let ghost v = ss.deep_view();
    let mut k: usize = 0;
    while k < ss.len()
        invariant
            k <= ss.len(),
            v == ss.deep_view(),
            forall|i: int| 0 <= i < k ==> (#[trigger] v[i]).side != side@,
        decreases ss.len() - k,
    {
        assert(v[k as int] == ss@[k as int].deep_view());
        if same(ss[k].side, side) {
            return true;
        }
        k += 1;
    }
    false
}

fn shown_of(ss: &Vec<HelperSite>) -> (r: Vec<String>)
    ensures
        r.deep_view() == shown(ss.deep_view()),
{
    let ghost v = ss.deep_view();
    let mut out: Vec<String> = Vec::new();
    let mut k: usize = 0;
    while k < ss.len()
        invariant
            k <= ss.len(),
            v == ss.deep_view(),
            out.deep_view() =~= shown(v).take(k as int),
        decreases ss.len() - k,
    {
        assert(v[k as int] == ss@[k as int].deep_view());
        let line = decimal_usize(ss[k].line);
        put(
            &mut out,
            cat6(ss[k].file.as_str(), ":", line.as_str(), " (", ss[k].side, ")"),
        );
        k += 1;
    }
    assert(out.deep_view() =~= shown(v));
    out
}

/// The findings on the helpers `hs`.
pub fn helper_findings(hs: &Vec<Helper>) -> (r: Vec<DuplicateHelperFinding>)
    ensures
        r.deep_view() == findings(hs.deep_view()),
{
    let ghost v = hs.deep_view();
    let mut out: Vec<DuplicateHelperFinding> = Vec::new();
    let mut k: usize = 0;
    while k < hs.len()
        invariant
            k <= hs.len(),
            v == hs.deep_view(),
            out.deep_view() == gather(0, k as int, finding_at(v)),
        decreases hs.len() - k,
    {
        assert(v[k as int] == hs@[k as int].deep_view());
        let ss = sites_of(hs, k);
        if is_first_twin(hs, k) && ss.len() >= 2 && has_side(&ss, "client") && has_side(
            &ss,
            "server",
        ) {
            let n = ss.len();
            let name = hs[k].name.as_str();
            let locs = join(&shown_of(&ss), ", ");
            let finding = DuplicateHelperFinding {
                code: "duplicate_helper_across_client_and_server",
                severity: "warning",
                fn_name: owned(name),
                sites: ss,
                message: message_of(name, n, locs.as_str()),
                fix: fix_of(name),
            };
            put(&mut out, finding);
        }
        k += 1;
    }
    sort(out)
}

/// What there is to report.
pub open spec fn report(
    files: Seq<ScannedFile>,
    components_root: Seq<char>,
    server_root: Seq<char>,
) -> DuplicateHelperReportView {
    DuplicateHelperReportView {
        findings: findings(helpers(files, components_root, server_root)),
        parse_errors: parse_errors(files),
    }
}

/// Reports the functions that stand both under `components_root` and under
/// `server_root`, by name.
pub fn duplicate_helper_client_server(
    files: &Vec<ScannedFile>,
    components_root: &str,
    server_root: &str,
) -> (r: DuplicateHelperReport)
    ensures
        r.deep_view() == report(files@, components_root@, server_root@),
{
    let hs = helpers_of(files, components_root, server_root);
    DuplicateHelperReport {
        findings: helper_findings(&hs),
        parse_errors: collect_parse_errors(files),
    }
}

/// Every finding is on a function that stands on both sides.
pub proof fn law_both_sides(hs: Seq<HelperView>, f: DuplicateHelperFindingView)
    requires
        findings(hs).contains(f),
    ensures
        f.sites.len() >= 2,
        reaches(f.sites, "client"@),
        reaches(f.sites, "server"@),
{
    let all = gather(0, hs.len() as int, finding_at(hs));
    lemma_sorted_contains(all, rank::<DuplicateHelperFinding>(), f);
    lemma_gather_contains(0, hs.len() as int, finding_at(hs), f);
    let k = choose|k: int| 0 <= k < hs.len() && (#[trigger] finding_at(hs)(k)).contains(f);
    assert(finding_at(hs)(k).contains(f));
}

/// The first twin of helper `i`, looking from `k` on.
proof fn lemma_first_twin(hs: Seq<HelperView>, i: int, k: int) -> (r: int)
    requires
        0 <= k <= i < hs.len(),
        forall|m: int| 0 <= m < k ==> !twins(#[trigger] hs[m], hs[i]),
    ensures
        k <= r <= i,
        twins(hs[r], hs[i]),
        first_twin(hs, r),
    decreases i - k,
{
    if twins(hs[k], hs[i]) {
        k
    } else {
        lemma_first_twin(hs, i, k + 1)
    }
}

/// A function that stands on both sides is found, with both places.
pub proof fn law_twins_are_found(hs: Seq<HelperView>, i: int, j: int) -> (f:
    DuplicateHelperFindingView)
    requires
        0 <= i < hs.len(),
        0 <= j < hs.len(),
        twins(hs[i], hs[j]),
        hs[i].site.side == "client"@,
        hs[j].site.side == "server"@,
    ensures
        findings(hs).contains(f),
        f.fn_name == hs[i].name,
        f.sites.contains(hs[i].site),
        f.sites.contains(hs[j].site),
{
    reveal_strlit("client");
    reveal_strlit("server");
    assert("client"@[0] == 'c' && "server"@[0] == 's');
    let k = lemma_first_twin(hs, i, 0);
    let ss = sites(hs, k);
    lemma_gather_contains(0, hs.len() as int, twin_site(hs, k), hs[i].site);
    lemma_gather_contains(0, hs.len() as int, twin_site(hs, k), hs[j].site);
    assert(twin_site(hs, k)(i) =~= seq![hs[i].site]);
    assert(twin_site(hs, k)(j) =~= seq![hs[j].site]);
    assert(twin_site(hs, k)(i)[0] == hs[i].site);
    assert(twin_site(hs, k)(j)[0] == hs[j].site);
    assert(ss.contains(hs[i].site));
    assert(ss.contains(hs[j].site));
    let a = choose|a: int| 0 <= a < ss.len() && ss[a] == hs[i].site;
    let b = choose|b: int| 0 <= b < ss.len() && ss[b] == hs[j].site;
    assert(ss[a].side == "client"@ && ss[b].side == "server"@);
    let f = DuplicateHelperFindingView {
        code: "duplicate_helper_across_client_and_server"@,
        severity: "warning"@,
        fn_name: hs[k].name,
        sites: ss,
        message: message(hs[k].name, ss.len(), joined(shown(ss), ", "@)),
        fix: fix(hs[k].name),
    };
    assert(finding_at(hs)(k) =~= seq![f]);
    assert(finding_at(hs)(k)[0] == f);
    lemma_gather_contains(0, hs.len() as int, finding_at(hs), f);
    lemma_sorted_contains(
        gather(0, hs.len() as int, finding_at(hs)),
        rank::<DuplicateHelperFinding>(),
        f,
    );
    f
}

} // verus!
