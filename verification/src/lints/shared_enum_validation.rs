//! `shared_enum_validation`: a set of strings that a constant of the client and a
//! `match` of the server spell out independently.
//!
//! The client's side is a constant array under the directory of components whose
//! elements are strings or tuples that start with one. The server's side is an
//! arm of a `match` whose pattern is an alternation of strings.
use vstd::prelude::*;

use crate::order::{
    distinct, distinct_of, gather, lemma_gather_contains, lemma_sorted_contains, lemma_texts_le,
    only_if, put, put_all, rank, sort, sorted, texts_le, texts_leq, Ranked,
};
use crate::paths::{path_is_under, path_under};
use crate::scan::{
    body_end, body_of, body_start, collect_parse_errors, is_server_fn, parse_errors, server_fn,
    ParseError, ParseErrorView, ScannedFile,
};
use crate::tape::{lemma_operand_bounds, operand, operand_of, stop, stop_of, Kind, Node};
use crate::text::{debug, debug_text, join, joined, owned, same};

verus! {

#[derive(Debug)]
pub struct SharedEnumValidationParams {
    pub project_root: Option<String>,
}

pub ghost struct SharedEnumValidationParamsView {
    pub project_root: Option<Seq<char>>,
}

impl DeepView for SharedEnumValidationParams {
    type V = SharedEnumValidationParamsView;

    open spec fn deep_view(&self) -> SharedEnumValidationParamsView {
        SharedEnumValidationParamsView {
            project_root: self.project_root.deep_view(),
        }
    }
}

#[derive(Debug)]
pub struct ClientSite {
    pub file: String,
    pub line: usize,
    /// Name of the constant.
    pub binding: String,
}

pub ghost struct ClientSiteView {
    pub file: Seq<char>,
    pub line: usize,
    pub binding: Seq<char>,
}

impl DeepView for ClientSite {
    type V = ClientSiteView;

    open spec fn deep_view(&self) -> ClientSiteView {
        ClientSiteView {
            file: self.file@,
            line: self.line,
            binding: self.binding@,
        }
    }
}

#[derive(Debug)]
pub struct ServerSite {
    pub file: String,
    pub line: usize,
    pub server_fn: String,
}

pub ghost struct ServerSiteView {
    pub file: Seq<char>,
    pub line: usize,
    pub server_fn: Seq<char>,
}

impl DeepView for ServerSite {
    type V = ServerSiteView;

    open spec fn deep_view(&self) -> ServerSiteView {
        ServerSiteView {
            file: self.file@,
            line: self.line,
            server_fn: self.server_fn@,
        }
    }
}

#[derive(Debug)]
pub struct SharedEnumFinding {
    pub code: &'static str,
    pub severity: &'static str,
    pub confidence: &'static str,
    /// The strings on which both sides agree, in order.
    pub values: Vec<String>,
    pub client_sites: Vec<ClientSite>,
    pub server_sites: Vec<ServerSite>,
    pub message: String,
    pub fix: String,
}

pub ghost struct SharedEnumFindingView {
    pub code: Seq<char>,
    pub severity: Seq<char>,
    pub confidence: Seq<char>,
    pub values: Seq<Seq<char>>,
    pub client_sites: Seq<ClientSiteView>,
    pub server_sites: Seq<ServerSiteView>,
    pub message: Seq<char>,
    pub fix: Seq<char>,
}

impl DeepView for SharedEnumFinding {
    type V = SharedEnumFindingView;

    open spec fn deep_view(&self) -> SharedEnumFindingView {
        SharedEnumFindingView {
            code: self.code@,
            severity: self.severity@,
            confidence: self.confidence@,
            values: self.values.deep_view(),
            client_sites: self.client_sites.deep_view(),
            server_sites: self.server_sites.deep_view(),
            message: self.message@,
            fix: self.fix@,
        }
    }
}

#[derive(Debug)]
pub struct SharedEnumReport {
    pub findings: Vec<SharedEnumFinding>,
    pub parse_errors: Vec<ParseError>,
}

pub ghost struct SharedEnumReportView {
    pub findings: Seq<SharedEnumFindingView>,
    pub parse_errors: Seq<ParseErrorView>,
}

impl DeepView for SharedEnumReport {
    type V = SharedEnumReportView;

    open spec fn deep_view(&self) -> SharedEnumReportView {
        SharedEnumReportView {
            findings: self.findings.deep_view(),
            parse_errors: self.parse_errors.deep_view(),
        }
    }
}

/// The strings of a constant.
#[derive(Debug)]
pub struct ClientSet {
    pub values: Vec<String>,
    pub site: ClientSite,
}

pub ghost struct ClientSetView {
    pub values: Seq<Seq<char>>,
    pub site: ClientSiteView,
}

impl DeepView for ClientSet {
    type V = ClientSetView;

    open spec fn deep_view(&self) -> ClientSetView {
        ClientSetView {
            values: self.values.deep_view(),
            site: self.site.deep_view(),
        }
    }
}

/// The strings of a pattern.
#[derive(Debug)]
pub struct ServerSet {
    pub values: Vec<String>,
    pub site: ServerSite,
}

pub ghost struct ServerSetView {
    pub values: Seq<Seq<char>>,
    pub site: ServerSiteView,
}

impl DeepView for ServerSet {
    type V = ServerSetView;

    open spec fn deep_view(&self) -> ServerSetView {
        ServerSetView {
            values: self.values.deep_view(),
            site: self.site.deep_view(),
        }
    }
}

impl Ranked for SharedEnumFinding {
    /// By values.
    open spec fn le(a: SharedEnumFindingView, b: SharedEnumFindingView) -> bool {
        texts_le(a.values, b.values)
    }

    proof fn ordered(a: SharedEnumFindingView, b: SharedEnumFindingView, c: SharedEnumFindingView) {
        lemma_texts_le(a.values, b.values, c.values);
    }

    fn leq(&self, other: &Self) -> (r: bool) {
        texts_leq(&self.values, &other.values)
    }
}

/// The set of the strings `s`, as the list that has each once, in order.
pub open spec fn as_set(s: Seq<Seq<char>>) -> Seq<Seq<char>> {
    sorted(distinct(s), rank::<String>())
}

fn as_set_of(v: &Vec<String>) -> (r: Vec<String>)
    ensures
        r.deep_view() == as_set(v.deep_view()),
{
    sort(distinct_of(v))
}

fn same_texts(a: &Vec<String>, b: &Vec<String>) -> (r: bool)
    ensures
        r == (a.deep_view() == b.deep_view()),
{
    if a.len() != b.len() {
        assert(a.deep_view().len() != b.deep_view().len());
        return false;
    }
    let mut k: usize = 0;
    while k < a.len()
        invariant
            k <= a.len(),
            a.len() == b.len(),
            forall|m: int| 0 <= m < k ==> #[trigger] a.deep_view()[m] == b.deep_view()[m],
        decreases a.len() - k,
    {
        if !same(a[k].as_str(), b[k].as_str()) {
            assert(a.deep_view()[k as int] != b.deep_view()[k as int]);
            return false;
        }
        k += 1;
    }
    assert(a.deep_view() =~= b.deep_view());
    true
}

fn copy_texts(v: &Vec<String>) -> (r: Vec<String>)
    ensures
        r.deep_view() == v.deep_view(),
{
    let mut out: Vec<String> = Vec::new();
    let mut k: usize = 0;
    while k < v.len()
        invariant
            k <= v.len(),
            out.deep_view() =~= v.deep_view().take(k as int),
        decreases v.len() - k,
    {
        put(&mut out, owned(v[k].as_str()));
        k += 1;
    }
    assert(out.deep_view() =~= v.deep_view());
    out
}

// ---------------------------------------------------------------------------
// The client's side
// ---------------------------------------------------------------------------

/// The value of the string at `e`, possibly behind references.
pub open spec fn str_value(t: Seq<Node>, e: int) -> Option<Seq<char>>
    decreases t.len() - e,
{
    if !(0 <= e < t.len()) {
        None
    } else if t[e].kind == Kind::Str {
        Some(t[e].name@)
    } else if t[e].kind == Kind::Reference {
        proof {
            lemma_operand_bounds(t, e, 0);
        }
        match operand(t, e, 0) {
            Some(p) => str_value(t, p),
            None => None,
        }
    } else {
        None
    }
}

pub fn lit_str_value(t: &Vec<Node>, e: usize) -> (r: Option<String>)
    requires
        e < t.len(),
    ensures
        r.deep_view() == str_value(t@, e as int),
{
    let mut at: usize = e;
    while t[at].kind == Kind::Reference
        invariant
            at < t.len(),
            str_value(t@, e as int) == str_value(t@, at as int),
        decreases t.len() - at,
    {
        match operand_of(t, at, 0) {
            Some(p) => at = p,
            None => return None,
        }
    }
    if t[at].kind == Kind::Str {
        Some(owned(t[at].name.as_str()))
    } else {
        None
    }
}

/// The array that the expression at `e` is, possibly behind one reference.
pub open spec fn array_of(t: Seq<Node>, e: int) -> Option<int> {
    if t[e].kind == Kind::Array {
        Some(e)
    } else if t[e].kind == Kind::Reference {
        match operand(t, e, 0) {
            Some(p) => if t[p].kind == Kind::Array {
                Some(p)
            } else {
                None
            },
            None => None,
        }
    } else {
        None
    }
}

/// Node `j` is an element of the array at `a`.
pub open spec fn element(t: Seq<Node>, a: int, j: int) -> bool {
    t[j].parent == a && t[j].kind != Kind::Attr
}

/// The string that the element at `j` starts with.
pub open spec fn first_string(t: Seq<Node>, j: int) -> Option<Seq<char>> {
    if t[j].kind == Kind::Tuple {
        match operand(t, j, 0) {
            Some(p) => str_value(t, p),
            None => None,
        }
    } else if t[j].kind == Kind::Str {
        Some(t[j].name@)
    } else {
        None
    }
}

/// The element at `j` is a literal that is no string: it adds nothing.
pub open spec fn other_literal(t: Seq<Node>, j: int) -> bool {
    match t[j].kind {
        Kind::Int
        | Kind::Bool
        | Kind::ByteStr
        | Kind::CStr
        | Kind::Byte
        | Kind::Char
        | Kind::Float
        | Kind::OtherLit => true,
        _ => false,
    }
}

fn is_other_literal(t: &Vec<Node>, j: usize) -> (r: bool)
    requires
        j < t.len(),
    ensures
        r == other_literal(t@, j as int),
{
    match t[j].kind {
        Kind::Int
        | Kind::Bool
        | Kind::ByteStr
        | Kind::CStr
        | Kind::Byte
        | Kind::Char
        | Kind::Float
        | Kind::OtherLit => true,
        _ => false,
    }
}

pub open spec fn element_string(t: Seq<Node>, a: int) -> spec_fn(int) -> Seq<Seq<char>> {
    |j: int|
        if element(t, a, j) {
            match first_string(t, j) {
                Some(s) => seq![s],
                None => Seq::empty(),
            }
        } else {
            Seq::empty()
        }
}

/// Every element of the array at `a` is a literal or starts with a string.
pub open spec fn listing(t: Seq<Node>, a: int) -> bool {
    forall|j: int|
        a < j < stop(t, a) && #[trigger] element(t, a, j) ==> first_string(t, j) is Some
            || other_literal(t, j)
}

/// The strings that the constant whose value is at `e` lists.
pub open spec fn listed(t: Seq<Node>, e: int) -> Option<Seq<Seq<char>>> {
    match array_of(t, e) {
        Some(a) => if listing(t, a) {
            Some(gather(a + 1, stop(t, a), element_string(t, a)))
        } else {
            None
        },
        None => None,
    }
}

fn first_string_of(t: &Vec<Node>, j: usize) -> (r: Option<String>)
    requires
        j < t.len(),
    ensures
        r.deep_view() == first_string(t@, j as int),
{
    match t[j].kind {
        Kind::Tuple => match operand_of(t, j, 0) {
            Some(p) => lit_str_value(t, p),
            None => None,
        },
        Kind::Str => Some(owned(t[j].name.as_str())),
        _ => None,
    }
}

pub fn extract_const_array_first_strings(t: &Vec<Node>, e: usize) -> (r: Option<Vec<String>>)
    requires
        e < t.len(),
    ensures
        r.deep_view() == listed(t@, e as int),
{
    let a: usize = match t[e].kind {
        Kind::Array => e,
        Kind::Reference => match operand_of(t, e, 0) {
            Some(p) => {
                if t[p].kind != Kind::Array {
                    return None;
                }
                p
            },
            None => return None,
        },
        _ => return None,
    };
    let end = stop_of(t, a);
    let mut out: Vec<String> = Vec::new();
    let mut j: usize = a + 1;
    while j < end
        invariant
            a < j <= end <= t.len(),
            end == stop(t@, a as int),
            array_of(t@, e as int) == Some(a as int),
            out.deep_view() == gather(a + 1, j as int, element_string(t@, a as int)),
            forall|k: int|
                a < k < j && #[trigger] element(t@, a as int, k) ==> first_string(t@, k) is Some
                    || other_literal(t@, k),
        decreases end - j,
    {
        if t[j].parent == a && t[j].kind != Kind::Attr {
            match first_string_of(t, j) {
                Some(s) => put(&mut out, s),
                None => {
                    if !is_other_literal(t, j) {
                        assert(element(t@, a as int, j as int));
                        return None;
                    }
                },
            }
        }
        j += 1;
    }
    Some(out)
}

/// The set that the constant at `i` lists, if it has two strings or more.
pub open spec fn client_set(t: Seq<Node>, i: int, file: Seq<char>) -> Option<ClientSetView> {
    if t[i].kind == Kind::Const && t[i].parent == 0 && i > 0 {
        match operand(t, i, 0) {
            Some(e) => match listed(t, e) {
                Some(s) => if s.len() >= 2 {
                    Some(
                        ClientSetView {
                            values: as_set(s),
                            site: ClientSiteView { file, line: t[i].line, binding: t[i].name@ },
                        },
                    )
                } else {
                    None
                },
                None => None,
            },
            None => None,
        }
    } else {
        None
    }
}

pub open spec fn client_set_at(
    t: Seq<Node>,
    file: Seq<char>,
) -> spec_fn(int) -> Seq<ClientSetView> {
    |i: int|
        match client_set(t, i, file) {
            Some(c) => seq![c],
            None => Seq::empty(),
        }
}

pub open spec fn file_client_sets(files: Seq<ScannedFile>, root: Seq<char>) -> spec_fn(int) -> Seq<
    ClientSetView,
> {
    |k: int|
        match files[k].ast {
            Ok(t) => if path_under(files[k].path@, root) {
                gather(0, t@.len() as int, client_set_at(t@, files[k].path@))
            } else {
                Seq::empty()
            },
            Err(_) => Seq::empty(),
        }
}

/// The sets that constants of the files under `root` list.
pub open spec fn client_sets(files: Seq<ScannedFile>, root: Seq<char>) -> Seq<ClientSetView> {
    gather(0, files.len() as int, file_client_sets(files, root))
}

fn client_set_of(t: &Vec<Node>, i: usize, file: &str) -> (r: Option<ClientSet>)
    requires
        i < t.len(),
    ensures
        r.deep_view() == client_set(t@, i as int, file@),
{
    if t[i].kind != Kind::Const || t[i].parent != 0 || i == 0 {
        return None;
    }
    match operand_of(t, i, 0) {
        Some(e) => match extract_const_array_first_strings(t, e) {
            Some(s) => if s.len() >= 2 {
                let site = ClientSite {
                    file: owned(file),
                    line: t[i].line,
                    binding: owned(t[i].name.as_str()),
                };
                Some(ClientSet { values: as_set_of(&s), site })
            } else {
                None
            },
            None => None,
        },
        None => None,
    }
}

fn client_sets_in(t: &Vec<Node>, file: &str) -> (r: Vec<ClientSet>)
    ensures
        r.deep_view() == gather(0, t@.len() as int, client_set_at(t@, file@)),
{
    let mut out: Vec<ClientSet> = Vec::new();
    let mut i: usize = 0;
    while i < t.len()
        invariant
            i <= t.len(),
            out.deep_view() == gather(0, i as int, client_set_at(t@, file@)),
        decreases t.len() - i,
    {
        match client_set_of(t, i, file) {
            Some(c) => put(&mut out, c),
            None => {},
        }
        i += 1;
    }
    out
}

fn client_sets_of(files: &Vec<ScannedFile>, root: &str) -> (r: Vec<ClientSet>)
    ensures
        r.deep_view() == client_sets(files@, root@),
{
    let mut out: Vec<ClientSet> = Vec::new();
    let mut k: usize = 0;
    while k < files.len()
        invariant
            k <= files.len(),
            out.deep_view() == gather(0, k as int, file_client_sets(files@, root@)),
        decreases files.len() - k,
    {
        match &files[k].ast {
            Ok(t) => {
                if path_is_under(files[k].path.as_str(), root) {
                    put_all(&mut out, client_sets_in(t, files[k].path.as_str()));
                }
            },
            Err(_) => {},
        }
        k += 1;
    }
    out
}

// ---------------------------------------------------------------------------
// The server's side
// ---------------------------------------------------------------------------

/// The pattern at `p` is made of strings and alternations alone.
pub open spec fn alternation(t: Seq<Node>, p: int) -> bool {
    forall|k: int|
        p <= k < stop(t, p) ==> (#[trigger] t[k]).kind == Kind::PatOr || t[k].kind == Kind::Str
}

pub open spec fn string_at(t: Seq<Node>) -> spec_fn(int) -> Seq<Seq<char>> {
    |k: int| only_if(t[k].kind == Kind::Str, t[k].name@)
}

/// The strings of the pattern at `p`, if it is made of nothing else.
pub open spec fn alternatives(t: Seq<Node>, p: int) -> Seq<Seq<char>> {
    if alternation(t, p) {
        as_set(gather(p, stop(t, p), string_at(t)))
    } else {
        Seq::empty()
    }
}

pub fn collect_literal_alternation(t: &Vec<Node>, p: usize) -> (r: Vec<String>)
    requires
        p < t.len(),
    ensures
        r.deep_view() == alternatives(t@, p as int),
{
    let end = stop_of(t, p);
    let mut out: Vec<String> = Vec::new();
    let mut k: usize = p;
    while k < end
        invariant
            p <= k <= end <= t.len(),
            end == stop(t@, p as int),
            out.deep_view() == gather(p as int, k as int, string_at(t@)),
            forall|m: int|
                p <= m < k ==> (#[trigger] t@[m]).kind == Kind::PatOr || t@[m].kind == Kind::Str,
        decreases end - k,
    {
        if t[k].kind == Kind::Str {
            put(&mut out, owned(t[k].name.as_str()));
        } else if t[k].kind != Kind::PatOr {
            let r: Vec<String> = Vec::new();
            assert(!alternation(t@, p as int));
            assert(r.deep_view() =~= alternatives(t@, p as int));
            return r;
        }
        k += 1;
    }
    as_set_of(&out)
}

/// The set of two strings or more that arm `a` of the match at `m` spells out.
pub open spec fn arm_set(t: Seq<Node>, m: int, f: int, file: Seq<char>) -> spec_fn(int) -> Seq<
    ServerSetView,
> {
    |a: int|
        if t[a].kind == Kind::Arm && t[a].parent == m {
            match operand(t, a, 0) {
                Some(p) => only_if(
                    alternatives(t, p).len() >= 2,
                    ServerSetView {
                        values: alternatives(t, p),
                        site: ServerSiteView { file, line: t[m].line, server_fn: t[f].name@ },
                    },
                ),
                None => Seq::empty(),
            }
        } else {
            Seq::empty()
        }
}

pub open spec fn match_sets(t: Seq<Node>, f: int, file: Seq<char>) -> spec_fn(int) -> Seq<
    ServerSetView,
> {
    |m: int|
        if t[m].kind == Kind::Match {
            gather(m, stop(t, m), arm_set(t, m, f, file))
        } else {
            Seq::empty()
        }
}

pub open spec fn fn_sets(t: Seq<Node>, file: Seq<char>) -> spec_fn(int) -> Seq<ServerSetView> {
    |f: int|
        if server_fn(t, f) {
            gather(body_start(t, f), body_end(t, f), match_sets(t, f, file))
        } else {
            Seq::empty()
        }
}

pub open spec fn file_server_sets(files: Seq<ScannedFile>) -> spec_fn(int) -> Seq<ServerSetView> {
    |k: int|
        match files[k].ast {
            Ok(t) => gather(0, t@.len() as int, fn_sets(t@, files[k].path@)),
            Err(_) => Seq::empty(),
        }
}

/// The sets that patterns of server functions spell out.
pub open spec fn server_sets(files: Seq<ScannedFile>) -> Seq<ServerSetView> {
    gather(0, files.len() as int, file_server_sets(files))
}

fn match_sets_of(t: &Vec<Node>, m: usize, f: usize, file: &str) -> (r: Vec<ServerSet>)
    requires
        m < t.len(),
        f < t.len(),
    ensures
        r.deep_view() == gather(
            m as int,
            stop(t@, m as int),
            arm_set(t@, m as int, f as int, file@),
        ),
{
    let end = stop_of(t, m);
    let mut out: Vec<ServerSet> = Vec::new();
    let mut a: usize = m;
    while a < end
        invariant
            f < t.len(),
            m <= a <= end <= t.len(),
            m < t.len(),
            out.deep_view() == gather(
                m as int,
                a as int,
                arm_set(t@, m as int, f as int, file@),
            ),
        decreases end - a,
    {
        if t[a].kind == Kind::Arm && t[a].parent == m {
            match operand_of(t, a, 0) {
                Some(p) => {
                    let values = collect_literal_alternation(t, p);
                    if values.len() >= 2 {
                        let site = ServerSite {
                            file: owned(file),
                            line: t[m].line,
                            server_fn: owned(t[f].name.as_str()),
                        };
                        put(&mut out, ServerSet { values, site });
                    }
                },
                None => {},
            }
        }
        a += 1;
    }
    out
}

fn fn_sets_of(t: &Vec<Node>, f: usize, file: &str) -> (r: Vec<ServerSet>)
    requires
        f < t.len(),
    ensures
        r.deep_view() == gather(
            body_start(t@, f as int),
            body_end(t@, f as int),
            match_sets(t@, f as int, file@),
        ),
{
    let (lo, hi) = body_of(t, f);
    let mut out: Vec<ServerSet> = Vec::new();
    let mut m: usize = lo;
    while m < hi
        invariant
            f < t.len(),
            lo <= m <= hi <= t.len(),
            out.deep_view() == gather(lo as int, m as int, match_sets(t@, f as int, file@)),
        decreases hi - m,
    {
        if t[m].kind == Kind::Match {
            put_all(&mut out, match_sets_of(t, m, f, file));
        }
        m += 1;
    }
    out
}

fn server_sets_in(t: &Vec<Node>, file: &str) -> (r: Vec<ServerSet>)
    ensures
        r.deep_view() == gather(0, t@.len() as int, fn_sets(t@, file@)),
{
    let mut out: Vec<ServerSet> = Vec::new();
    let mut f: usize = 0;
    while f < t.len()
        invariant
            f <= t.len(),
            out.deep_view() == gather(0, f as int, fn_sets(t@, file@)),
        decreases t.len() - f,
    {
        if is_server_fn(t, f) {
            put_all(&mut out, fn_sets_of(t, f, file));
        }
        f += 1;
    }
    out
}

fn server_sets_of(files: &Vec<ScannedFile>) -> (r: Vec<ServerSet>)
    ensures
        r.deep_view() == server_sets(files@),
{
    let mut out: Vec<ServerSet> = Vec::new();
    let mut k: usize = 0;
    while k < files.len()
        invariant
            k <= files.len(),
            out.deep_view() == gather(0, k as int, file_server_sets(files@)),
        decreases files.len() - k,
    {
        match &files[k].ast {
            Ok(t) => put_all(&mut out, server_sets_in(t, files[k].path.as_str())),
            Err(_) => {},
        }
        k += 1;
    }
    out
}

// ---------------------------------------------------------------------------
// Findings
// ---------------------------------------------------------------------------

pub open spec fn client_site_of(cs: Seq<ClientSetView>, values: Seq<Seq<char>>) -> spec_fn(
    int,
) -> Seq<ClientSiteView> {
    |k: int| only_if(cs[k].values == values, cs[k].site)
}

pub open spec fn server_site_of(ss: Seq<ServerSetView>, values: Seq<Seq<char>>) -> spec_fn(
    int,
) -> Seq<ServerSiteView> {
    |k: int| only_if(ss[k].values == values, ss[k].site)
}

pub open spec fn client_sites(cs: Seq<ClientSetView>, values: Seq<Seq<char>>) -> Seq<
    ClientSiteView,
> {
    gather(0, cs.len() as int, client_site_of(cs, values))
}

pub open spec fn server_sites(ss: Seq<ServerSetView>, values: Seq<Seq<char>>) -> Seq<
    ServerSiteView,
> {
    gather(0, ss.len() as int, server_site_of(ss, values))
}

pub open spec fn quoted(values: Seq<Seq<char>>) -> Seq<Seq<char>> {
    Seq::new(values.len(), |k: int| debug_text(values[k]))
}

pub open spec fn message(values: Seq<char>) -> Seq<char> {
    "Client const array and server `match` patterns both pin the same string set { "@
        + values
        + " } independently. Either side adding a value silently desyncs from the other."@
}

fn message_of(values: &str) -> (r: String)
    ensures
        r@ == message(values@),
{
    let mut s = owned("Client const array and server `match` patterns both pin the same string set { ");
    s.append(values);
    s.append(" } independently. Either side adding a value silently desyncs from the other.");
    s
}

pub open spec fn fix(values: Seq<char>) -> Seq<char> {
    "Define an `enum` in `src/model/` (with `serde::Serialize` + `serde::Deserialize` + `Copy`) covering { "@
        + values
        + " } and reference it from both halves: the client `for` loop drives off `<Enum as IntoEnumIterator>::iter()` (with `strum`), and the server fn args take the enum directly so the pattern match is exhaustive at compile time."@
}

fn fix_of(values: &str) -> (r: String)
    ensures
        r@ == fix(values@),
{
    let mut s = owned("Define an `enum` in `src/model/` (with `serde::Serialize` + `serde::Deserialize` + `Copy`) covering { ");
    s.append(values);
    s.append(" } and reference it from both halves: the client `for` loop drives off `<Enum as IntoEnumIterator>::iter()` (with `strum`), and the server fn args take the enum directly so the pattern match is exhaustive at compile time.");
    s
}

pub open spec fn finding(
    cs: Seq<ClientSetView>,
    ss: Seq<ServerSetView>,
    values: Seq<Seq<char>>,
) -> SharedEnumFindingView {
    let list = joined(quoted(values), ", "@);
    SharedEnumFindingView {
        code: "shared_enum_validation"@,
        severity: "info"@,
        confidence: "low"@,
        values,
        client_sites: client_sites(cs, values),
        server_sites: server_sites(ss, values),
        message: message(list),
        fix: fix(list),
    }
}

/// No constant before number `k` lists the set that it lists.
pub open spec fn first_of_set(cs: Seq<ClientSetView>, k: int) -> bool {
    forall|m: int| 0 <= m < k ==> (#[trigger] cs[m]).values != cs[k].values
}

pub open spec fn finding_at(cs: Seq<ClientSetView>, ss: Seq<ServerSetView>) -> spec_fn(int) -> Seq<
    SharedEnumFindingView,
> {
    |k: int|
        only_if(
            first_of_set(cs, k) && server_sites(ss, cs[k].values).len() > 0,
            finding(cs, ss, cs[k].values),
        )
}

/// One finding for each set that both sides spell out, by values.
pub open spec fn findings(cs: Seq<ClientSetView>, ss: Seq<ServerSetView>) -> Seq<
    SharedEnumFindingView,
> {
    sorted(gather(0, cs.len() as int, finding_at(cs, ss)), rank::<SharedEnumFinding>())
}

fn client_sites_of(cs: &Vec<ClientSet>, values: &Vec<String>) -> (r: Vec<ClientSite>)
    ensures
        r.deep_view() == client_sites(cs.deep_view(), values.deep_view()),
{
    let ghost v = cs.deep_view();
    let mut out: Vec<ClientSite> = Vec::new();
    let mut k: usize = 0;
    while k < cs.len()
        invariant
            k <= cs.len(),
            v == cs.deep_view(),
            out.deep_view() == gather(0, k as int, client_site_of(v, values.deep_view())),
        decreases cs.len() - k,
    {
        assert(v[k as int] == cs@[k as int].deep_view());
        if same_texts(&cs[k].values, values) {
            let s = &cs[k].site;
            let site = ClientSite {
                file: owned(s.file.as_str()),
                line: s.line,
                binding: owned(s.binding.as_str()),
            };
            put(&mut out, site);
        }
        k += 1;
    }
    out
}

fn server_sites_of(ss: &Vec<ServerSet>, values: &Vec<String>) -> (r: Vec<ServerSite>)
    ensures
        r.deep_view() == server_sites(ss.deep_view(), values.deep_view()),
{
    let ghost v = ss.deep_view();
    let mut out: Vec<ServerSite> = Vec::new();
    let mut k: usize = 0;
    while k < ss.len()
        invariant
            k <= ss.len(),
            v == ss.deep_view(),
            out.deep_view() == gather(0, k as int, server_site_of(v, values.deep_view())),
        decreases ss.len() - k,
    {
        assert(v[k as int] == ss@[k as int].deep_view());
        if same_texts(&ss[k].values, values) {
            let s = &ss[k].site;
            let site = ServerSite {
                file: owned(s.file.as_str()),
                line: s.line,
                server_fn: owned(s.server_fn.as_str()),
            };
            put(&mut out, site);
        }
        k += 1;
    }
    out
}

fn quoted_of(values: &Vec<String>) -> (r: Vec<String>)
    ensures
        r.deep_view() == quoted(values.deep_view()),
{
    let mut out: Vec<String> = Vec::new();
    let mut k: usize = 0;
    while k < values.len()
        invariant
            k <= values.len(),
            out.deep_view() =~= quoted(values.deep_view()).take(k as int),
        decreases values.len() - k,
    {
        put(&mut out, debug(values[k].as_str()));
        k += 1;
    }
    assert(out.deep_view() =~= quoted(values.deep_view()));
    out
}

fn is_first_of_set(cs: &Vec<ClientSet>, k: usize) -> (r: bool)
    requires
        k < cs.len(),
    ensures
        r == first_of_set(cs.deep_view(), k as int),
{
    let ghost v = cs.deep_view();
    let mut m: usize = 0;
    assert(v[k as int] == cs@[k as int].deep_view());
    while m < k
        invariant
            m <= k < cs.len(),
            v == cs.deep_view(),
            v[k as int] == cs@[k as int].deep_view(),
            forall|j: int| 0 <= j < m ==> (#[trigger] v[j]).values != v[k as int].values,
        decreases k - m,
    {
        assert(v[m as int] == cs@[m as int].deep_view());
        if same_texts(&cs[m].values, &cs[k].values) {
            return false;
        }
        m += 1;
    }
    true
}

/// The findings on the sets `cs` of the client and `ss` of the server.
pub fn set_findings(cs: &Vec<ClientSet>, ss: &Vec<ServerSet>) -> (r: Vec<SharedEnumFinding>)
    ensures
        r.deep_view() == findings(cs.deep_view(), ss.deep_view()),
{
    let ghost v = cs.deep_view();
    let mut out: Vec<SharedEnumFinding> = Vec::new();
    let mut k: usize = 0;
    while k < cs.len()
        invariant
            k <= cs.len(),
            v == cs.deep_view(),
            out.deep_view() == gather(0, k as int, finding_at(v, ss.deep_view())),
        decreases cs.len() - k,
    {
        assert(v[k as int] == cs@[k as int].deep_view());
        let values = &cs[k].values;
        let servers = server_sites_of(ss, values);
        if is_first_of_set(cs, k) && servers.len() > 0 {
            let list = join(&quoted_of(values), ", ");
            let finding = SharedEnumFinding {
                code: "shared_enum_validation",
                severity: "info",
                confidence: "low",
                values: copy_texts(values),
                client_sites: client_sites_of(cs, values),
                server_sites: servers,
                message: message_of(list.as_str()),
                fix: fix_of(list.as_str()),
            };
            put(&mut out, finding);
        }
        k += 1;
    }
    sort(out)
}

/// What there is to report.
pub open spec fn report(
    files: Seq<ScannedFile>,
    components_root: Seq<char>,
) -> SharedEnumReportView {
    SharedEnumReportView {
        findings: findings(client_sets(files, components_root), server_sets(files)),
        parse_errors: parse_errors(files),
    }
}

/// Reports the sets of strings that constants under `components_root` and
/// server functions in `files` both spell out.
pub fn shared_enum_validation(files: &Vec<ScannedFile>, components_root: &str) -> (r:
    SharedEnumReport)
    ensures
        r.deep_view() == report(files@, components_root@),
{
    let cs = client_sets_of(files, components_root);
    let ss = server_sets_of(files);
    SharedEnumReport {
        findings: set_findings(&cs, &ss),
        parse_errors: collect_parse_errors(files),
    }
}

/// Every finding is on a set that both sides spell out.
pub proof fn law_both_spell_it(
    cs: Seq<ClientSetView>,
    ss: Seq<ServerSetView>,
    f: SharedEnumFindingView,
)
    requires
        findings(cs, ss).contains(f),
    ensures
        f.client_sites.len() > 0,
        f.server_sites.len() > 0,
        f.client_sites == client_sites(cs, f.values),
        f.server_sites == server_sites(ss, f.values),
{
    let all = gather(0, cs.len() as int, finding_at(cs, ss));
    lemma_sorted_contains(all, rank::<SharedEnumFinding>(), f);
    lemma_gather_contains(0, cs.len() as int, finding_at(cs, ss), f);
    let k = choose|k: int| 0 <= k < cs.len() && (#[trigger] finding_at(cs, ss)(k)).contains(f);
    assert(finding_at(cs, ss)(k).contains(f));
    let site = client_site_of(cs, f.values);
    lemma_gather_contains(0, cs.len() as int, site, cs[k].site);
    assert(site(k) =~= seq![cs[k].site]);
    assert(site(k)[0] == cs[k].site);
}

/// The first constant that lists what constant `i` lists, looking from `k` on.
proof fn lemma_first_of_set(cs: Seq<ClientSetView>, i: int, k: int) -> (r: int)
    requires
        0 <= k <= i < cs.len(),
        forall|m: int| 0 <= m < k ==> (#[trigger] cs[m]).values != cs[i].values,
    ensures
        k <= r <= i,
        cs[r].values == cs[i].values,
        first_of_set(cs, r),
    decreases i - k,
{
    if cs[k].values == cs[i].values {
        k
    } else {
        lemma_first_of_set(cs, i, k + 1)
    }
}

/// A set that both sides spell out, and exactly alike, is found.
pub proof fn law_same_set_is_found(
    cs: Seq<ClientSetView>,
    ss: Seq<ServerSetView>,
    i: int,
    j: int,
)
    requires
        0 <= i < cs.len(),
        0 <= j < ss.len(),
        cs[i].values == ss[j].values,
    ensures
        findings(cs, ss).contains(finding(cs, ss, cs[i].values)),
{
    let k = lemma_first_of_set(cs, i, 0);
    let site = server_site_of(ss, cs[i].values);
    lemma_gather_contains(0, ss.len() as int, site, ss[j].site);
    assert(site(j) =~= seq![ss[j].site]);
    assert(site(j)[0] == ss[j].site);
    let f = finding(cs, ss, cs[i].values);
    assert(finding_at(cs, ss)(k) =~= seq![f]);
    assert(finding_at(cs, ss)(k)[0] == f);
    lemma_gather_contains(0, cs.len() as int, finding_at(cs, ss), f);
    lemma_sorted_contains(
        gather(0, cs.len() as int, finding_at(cs, ss)),
        rank::<SharedEnumFinding>(),
        f,
    );
}

} // verus!
