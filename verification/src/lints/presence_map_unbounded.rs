//! `presence_map_unbounded`: flag a static map behind a lock that server
//! functions insert into and that nothing keeps bounded.
//!
//! `retain`, `extract_if`, `clear` and `drain` bound a map: no finding. A map
//! that only `remove` shrinks is reported as `warning`, since entries whose
//! owners never ask for removal stay. A map that nothing shrinks is reported as
//! `info`: many caches over a bounded set of keys are append-only on purpose.
use vstd::prelude::*;

use crate::order::{
    distinct, distinct_of, gather, holds, lemma_gather_contains, only_if, put, put_all, rank, sort,
    sorted,
};
use crate::scan::{
    body_end, body_of, body_start, collect_parse_errors, is_server_fn, parse_errors, pat_name,
    pat_name_of, server_fn, ParseError, ParseErrorView, ScannedFile,
};
use crate::tape::{lemma_operand_bounds, operand, operand_of, Kind, Node};
use crate::text::{
    contains, decimal, decimal_usize, join, joined, occurs, owned, plural, plural_of, remove_char,
    same, tight, tighten_ws, without,
};

verus! {

#[derive(Debug)]
pub struct PresenceMapUnboundedParams {
    pub project_root: Option<String>,
}

pub ghost struct PresenceMapUnboundedParamsView {
    pub project_root: Option<Seq<char>>,
}

impl DeepView for PresenceMapUnboundedParams {
    type V = PresenceMapUnboundedParamsView;

    open spec fn deep_view(&self) -> PresenceMapUnboundedParamsView {
        PresenceMapUnboundedParamsView {
            project_root: self.project_root.deep_view(),
        }
    }
}

#[derive(Debug)]
pub struct InsertSite {
    pub server_fn: String,
    pub file: String,
    pub line: usize,
}

pub ghost struct InsertSiteView {
    pub server_fn: Seq<char>,
    pub file: Seq<char>,
    pub line: usize,
}

impl DeepView for InsertSite {
    type V = InsertSiteView;

    open spec fn deep_view(&self) -> InsertSiteView {
        InsertSiteView {
            server_fn: self.server_fn@,
            file: self.file@,
            line: self.line,
        }
    }
}

#[derive(Debug)]
pub struct PresenceMapFinding {
    pub code: &'static str,
    pub severity: &'static str,
    pub file: String,
    pub line: usize,
    /// Name of the static map.
    pub binding: String,
    /// Type of the map as the declaration writes it.
    pub map_type: String,
    /// Where server functions insert into the map.
    pub insert_sites: Vec<InsertSite>,
    /// Where server functions remove from the map.
    pub remove_sites: Vec<InsertSite>,
    pub message: String,
}

pub ghost struct PresenceMapFindingView {
    pub code: Seq<char>,
    pub severity: Seq<char>,
    pub file: Seq<char>,
    pub line: usize,
    pub binding: Seq<char>,
    pub map_type: Seq<char>,
    pub insert_sites: Seq<InsertSiteView>,
    pub remove_sites: Seq<InsertSiteView>,
    pub message: Seq<char>,
}

impl DeepView for PresenceMapFinding {
    type V = PresenceMapFindingView;

    open spec fn deep_view(&self) -> PresenceMapFindingView {
        PresenceMapFindingView {
            code: self.code@,
            severity: self.severity@,
            file: self.file@,
            line: self.line,
            binding: self.binding@,
            map_type: self.map_type@,
            insert_sites: self.insert_sites.deep_view(),
            remove_sites: self.remove_sites.deep_view(),
            message: self.message@,
        }
    }
}

#[derive(Debug)]
pub struct PresenceMapUnboundedReport {
    pub findings: Vec<PresenceMapFinding>,
    pub parse_errors: Vec<ParseError>,
}

pub ghost struct PresenceMapUnboundedReportView {
    pub findings: Seq<PresenceMapFindingView>,
    pub parse_errors: Seq<ParseErrorView>,
}

impl DeepView for PresenceMapUnboundedReport {
    type V = PresenceMapUnboundedReportView;

    open spec fn deep_view(&self) -> PresenceMapUnboundedReportView {
        PresenceMapUnboundedReportView {
            findings: self.findings.deep_view(),
            parse_errors: self.parse_errors.deep_view(),
        }
    }
}

/// A static map.
#[derive(Debug)]
pub struct StaticMap {
    pub binding: String,
    pub ty: String,
    pub file: String,
    pub line: usize,
}

pub ghost struct StaticMapView {
    pub binding: Seq<char>,
    pub ty: Seq<char>,
    pub file: Seq<char>,
    pub line: usize,
}

impl DeepView for StaticMap {
    type V = StaticMapView;

    open spec fn deep_view(&self) -> StaticMapView {
        StaticMapView {
            binding: self.binding@,
            ty: self.ty@,
            file: self.file@,
            line: self.line,
        }
    }
}

/// A local name for a static map.
#[derive(Debug)]
pub struct Alias {
    pub name: String,
    pub target: String,
}

pub ghost struct AliasView {
    pub name: Seq<char>,
    pub target: Seq<char>,
}

impl DeepView for Alias {
    type V = AliasView;

    open spec fn deep_view(&self) -> AliasView {
        AliasView {
            name: self.name@,
            target: self.target@,
        }
    }
}

/// A call of a method on a static map.
#[derive(Debug)]
pub struct MapUse {
    pub binding: String,
    pub method: String,
    pub site: InsertSite,
}

pub ghost struct MapUseView {
    pub binding: Seq<char>,
    pub method: Seq<char>,
    pub site: InsertSiteView,
}

impl DeepView for MapUse {
    type V = MapUseView;

    open spec fn deep_view(&self) -> MapUseView {
        MapUseView {
            binding: self.binding@,
            method: self.method@,
            site: self.site.deep_view(),
        }
    }
}

// ---------------------------------------------------------------------------
// Static maps
// ---------------------------------------------------------------------------

/// A type that holds a lazily made map behind a lock.
pub open spec fn lazy_map(ty: Seq<char>) -> bool {
    let s = without(ty, ' ');
    &&& occurs(s, "Lazy<"@) || occurs(s, "OnceLock<"@)
    &&& occurs(s, "Mutex<"@) || occurs(s, "RwLock<"@)
    &&& occurs(s, "HashMap<"@) || occurs(s, "BTreeMap<"@) || occurs(s, "DashMap<"@)
}

pub fn is_lazy_mutex_hashmap(ty: &str) -> (r: bool)
    ensures
        r == lazy_map(ty@),
{
    let s = remove_char(ty, ' ');
    let s = s.as_str();
    let has_lazy = contains(s, "Lazy<") || contains(s, "OnceLock<");
    let has_lock = contains(s, "Mutex<") || contains(s, "RwLock<");
    let has_map = contains(s, "HashMap<") || contains(s, "BTreeMap<") || contains(s, "DashMap<");
    has_lazy && has_lock && has_map
}

pub open spec fn static_map_at(
    t: Seq<Node>,
    file: Seq<char>,
) -> spec_fn(int) -> Seq<StaticMapView> {
    |i: int|
        only_if(
            t[i].kind == Kind::Static && t[i].parent == 0 && i > 0 && lazy_map(t[i].text@),
            StaticMapView {
                binding: t[i].name@,
                ty: tight(t[i].text@),
                file,
                line: t[i].line,
            },
        )
}

pub open spec fn file_statics(files: Seq<ScannedFile>) -> spec_fn(int) -> Seq<StaticMapView> {
    |k: int|
        match files[k].ast {
            Ok(t) => gather(0, t@.len() as int, static_map_at(t@, files[k].path@)),
            Err(_) => Seq::empty(),
        }
}

/// The static maps of a project, in order.
pub open spec fn statics(files: Seq<ScannedFile>) -> Seq<StaticMapView> {
    gather(0, files.len() as int, file_statics(files))
}

fn statics_in(t: &Vec<Node>, file: &str) -> (r: Vec<StaticMap>)
    ensures
        r.deep_view() == gather(0, t@.len() as int, static_map_at(t@, file@)),
{
    let mut out: Vec<StaticMap> = Vec::new();
    let mut i: usize = 0;
    while i < t.len()
        invariant
            i <= t.len(),
            out.deep_view() == gather(0, i as int, static_map_at(t@, file@)),
        decreases t.len() - i,
    {
        if t[i].kind == Kind::Static && t[i].parent == 0 && i > 0 && is_lazy_mutex_hashmap(
            t[i].text.as_str(),
        ) {
            let s = StaticMap {
                binding: owned(t[i].name.as_str()),
                ty: tighten_ws(t[i].text.as_str()),
                file: owned(file),
                line: t[i].line,
            };
            put(&mut out, s);
        }
        i += 1;
    }
    out
}

fn scan_statics(files: &Vec<ScannedFile>) -> (r: Vec<StaticMap>)
    ensures
        r.deep_view() == statics(files@),
{
    let mut out: Vec<StaticMap> = Vec::new();
    let mut k: usize = 0;
    while k < files.len()
        invariant
            k <= files.len(),
            out.deep_view() == gather(0, k as int, file_statics(files@)),
        decreases files.len() - k,
    {
        match &files[k].ast {
            Ok(t) => put_all(&mut out, statics_in(t, files[k].path.as_str())),
            Err(_) => {},
        }
        k += 1;
    }
    out
}

// ---------------------------------------------------------------------------
// Uses
// ---------------------------------------------------------------------------

/// The kinds of expression through which a receiver is followed to its root.
pub open spec fn passes(kind: Kind) -> bool {
    kind == Kind::MethodCall || kind == Kind::Paren || kind == Kind::Reference || kind
        == Kind::Unary || kind == Kind::Try
}

/// The last segment of the path at the root of the chain of calls at `i`.
pub open spec fn root_ident(t: Seq<Node>, i: int) -> Option<Seq<char>>
    decreases t.len() - i,
{
    if !(0 <= i < t.len()) {
        None
    } else if passes(t[i].kind) {
        proof {
            lemma_operand_bounds(t, i, 0);
        }
        match operand(t, i, 0) {
            Some(p) => root_ident(t, p),
            None => None,
        }
    } else if t[i].kind == Kind::Path {
        Some(t[i].name@)
    } else {
        None
    }
}

pub fn receiver_root_ident(t: &Vec<Node>, i: usize) -> (r: Option<String>)
    requires
        i < t.len(),
    ensures
        r.deep_view() == root_ident(t@, i as int),
{
    let mut at: usize = i;
    while t[at].kind == Kind::MethodCall || t[at].kind == Kind::Paren || t[at].kind
        == Kind::Reference || t[at].kind == Kind::Unary || t[at].kind == Kind::Try
        invariant
            at < t.len(),
            root_ident(t@, i as int) == root_ident(t@, at as int),
        decreases t.len() - at,
    {
        match operand_of(t, at, 0) {
            Some(p) => at = p,
            None => return None,
        }
    }
    if t[at].kind == Kind::Path {
        Some(owned(t[at].name.as_str()))
    } else {
        None
    }
}

/// What `name` was last bound to.
pub open spec fn bound_to(aliases: Seq<AliasView>, name: Seq<char>) -> Option<Seq<char>>
    decreases aliases.len(),
{
    if aliases.len() == 0 {
        None
    } else if aliases.last().name == name {
        Some(aliases.last().target)
    } else {
        bound_to(aliases.drop_last(), name)
    }
}

/// The map that the expression at `e` stands for, by name or through an alias.
pub open spec fn resolved(
    t: Seq<Node>,
    maps: Seq<Seq<char>>,
    aliases: Seq<AliasView>,
    e: int,
) -> Option<Seq<char>> {
    match root_ident(t, e) {
        Some(name) => if maps.contains(name) {
            Some(name)
        } else {
            bound_to(aliases, name)
        },
        None => None,
    }
}

/// The alias that the statement at `i` introduces.
pub open spec fn alias_at(
    t: Seq<Node>,
    maps: Seq<Seq<char>>,
    aliases: Seq<AliasView>,
    i: int,
) -> Option<AliasView> {
    if t[i].kind == Kind::Local && t[i].flag {
        match (operand(t, i, 0), operand(t, i, 1)) {
            (Some(p), Some(e)) => match (pat_name(t, p), resolved(t, maps, aliases, e)) {
                (Some(name), Some(target)) => Some(AliasView { name, target }),
                _ => None,
            },
            _ => None,
        }
    } else {
        None
    }
}

/// The aliases that the nodes from `lo` up to `hi` introduce, in order.
pub open spec fn aliases(t: Seq<Node>, maps: Seq<Seq<char>>, lo: int, hi: int) -> Seq<AliasView>
    decreases hi - lo,
{
    if hi <= lo {
        Seq::empty()
    } else {
        let before = aliases(t, maps, lo, hi - 1);
        match alias_at(t, maps, before, hi - 1) {
            Some(a) => before.push(a),
            None => before,
        }
    }
}

/// The use of a map that the call at `i` is, inside a body that starts at `lo`.
pub open spec fn map_use(
    t: Seq<Node>,
    maps: Seq<Seq<char>>,
    f: int,
    file: Seq<char>,
    lo: int,
    i: int,
) -> Option<MapUseView> {
    if t[i].kind == Kind::MethodCall {
        match operand(t, i, 0) {
            Some(e) => match resolved(t, maps, aliases(t, maps, lo, i), e) {
                Some(binding) => Some(
                    MapUseView {
                        binding,
                        method: t[i].name@,
                        site: InsertSiteView { server_fn: t[f].name@, file, line: t[i].line },
                    },
                ),
                None => None,
            },
            None => None,
        }
    } else {
        None
    }
}

pub open spec fn map_use_at(
    t: Seq<Node>,
    maps: Seq<Seq<char>>,
    f: int,
    file: Seq<char>,
    lo: int,
) -> spec_fn(int) -> Seq<MapUseView> {
    |i: int|
        match map_use(t, maps, f, file, lo, i) {
            Some(u) => seq![u],
            None => Seq::empty(),
        }
}

/// The uses of maps in the body of the function at `f`, if the server runs it.
pub open spec fn fn_uses(
    t: Seq<Node>,
    maps: Seq<Seq<char>>,
    file: Seq<char>,
) -> spec_fn(int) -> Seq<MapUseView> {
    |f: int|
        if server_fn(t, f) {
            gather(
                body_start(t, f),
                body_end(t, f),
                map_use_at(t, maps, f, file, body_start(t, f)),
            )
        } else {
            Seq::empty()
        }
}

pub open spec fn file_uses(files: Seq<ScannedFile>, maps: Seq<Seq<char>>) -> spec_fn(int) -> Seq<
    MapUseView,
> {
    |k: int|
        match files[k].ast {
            Ok(t) => gather(0, t@.len() as int, fn_uses(t@, maps, files[k].path@)),
            Err(_) => Seq::empty(),
        }
}

/// The uses of maps in the server functions of a project, in order.
pub open spec fn uses(files: Seq<ScannedFile>, maps: Seq<Seq<char>>) -> Seq<MapUseView> {
    gather(0, files.len() as int, file_uses(files, maps))
}

fn bound_to_of(aliases: &Vec<Alias>, name: &str) -> (r: Option<String>)
    ensures
        r.deep_view() == bound_to(aliases.deep_view(), name@),
{
    let ghost v = aliases.deep_view();
    let mut k: usize = aliases.len();
    assert(v.take(k as int) =~= v);
    while k > 0
        invariant
            k <= aliases.len(),
            v == aliases.deep_view(),
            bound_to(v, name@) == bound_to(v.take(k as int), name@),
        decreases k,
    {
        assert(v.take(k as int).drop_last() =~= v.take(k - 1));
        assert(v[k - 1] == aliases@[k - 1].deep_view());
        if same(aliases[k - 1].name.as_str(), name) {
            return Some(owned(aliases[k - 1].target.as_str()));
        }
        k -= 1;
    }
    None
}

fn resolved_of(t: &Vec<Node>, maps: &Vec<String>, aliases: &Vec<Alias>, e: usize) -> (r: Option<
    String,
>)
    requires
        e < t.len(),
    ensures
        r.deep_view() == resolved(t@, maps.deep_view(), aliases.deep_view(), e as int),
{
    match receiver_root_ident(t, e) {
        Some(name) => if holds(maps, name.as_str()) {
            Some(name)
        } else {
            bound_to_of(aliases, name.as_str())
        },
        None => None,
    }
}

fn alias_of(t: &Vec<Node>, maps: &Vec<String>, aliases: &Vec<Alias>, i: usize) -> (r: Option<Alias>)
    requires
        i < t.len(),
    ensures
        r.deep_view() == alias_at(t@, maps.deep_view(), aliases.deep_view(), i as int),
{
    if t[i].kind != Kind::Local || !t[i].flag {
        return None;
    }
    match (operand_of(t, i, 0), operand_of(t, i, 1)) {
        (Some(p), Some(e)) => match (pat_name_of(t, p), resolved_of(t, maps, aliases, e)) {
            (Some(name), Some(target)) => Some(Alias { name, target }),
            _ => None,
        },
        _ => None,
    }
}

fn uses_in_fn(t: &Vec<Node>, maps: &Vec<String>, f: usize, file: &str) -> (r: Vec<MapUse>)
    requires
        f < t.len(),
    ensures
        r.deep_view() == gather(
            body_start(t@, f as int),
            body_end(t@, f as int),
            map_use_at(t@, maps.deep_view(), f as int, file@, body_start(t@, f as int)),
        ),
{
    let (lo, hi) = body_of(t, f);
    let ghost m = maps.deep_view();
    let mut known: Vec<Alias> = Vec::new();
    let mut out: Vec<MapUse> = Vec::new();
    let mut i: usize = lo;
    while i < hi
        invariant
            f < t.len(),
            lo <= i <= hi <= t.len(),
            m == maps.deep_view(),
            known.deep_view() == aliases(t@, m, lo as int, i as int),
            out.deep_view() == gather(
                lo as int,
                i as int,
                map_use_at(t@, m, f as int, file@, lo as int),
            ),
        decreases hi - i,
    {
        if t[i].kind == Kind::MethodCall {
            match operand_of(t, i, 0) {
                Some(e) => match resolved_of(t, maps, &known, e) {
                    Some(binding) => {
                        let site = InsertSite {
                            server_fn: owned(t[f].name.as_str()),
                            file: owned(file),
                            line: t[i].line,
                        };
                        put(&mut out, MapUse { binding, method: owned(t[i].name.as_str()), site });
                    },
                    None => {},
                },
                None => {},
            }
        }
        match alias_of(t, maps, &known, i) {
            Some(a) => put(&mut known, a),
            None => {},
        }
        i += 1;
    }
    out
}

fn uses_in_file(t: &Vec<Node>, maps: &Vec<String>, file: &str) -> (r: Vec<MapUse>)
    ensures
        r.deep_view() == gather(0, t@.len() as int, fn_uses(t@, maps.deep_view(), file@)),
{
    let mut out: Vec<MapUse> = Vec::new();
    let mut f: usize = 0;
    while f < t.len()
        invariant
            f <= t.len(),
            out.deep_view() == gather(0, f as int, fn_uses(t@, maps.deep_view(), file@)),
        decreases t.len() - f,
    {
        if is_server_fn(t, f) {
            put_all(&mut out, uses_in_fn(t, maps, f, file));
        }
        f += 1;
    }
    out
}

fn scan_uses(files: &Vec<ScannedFile>, maps: &Vec<String>) -> (r: Vec<MapUse>)
    ensures
        r.deep_view() == uses(files@, maps.deep_view()),
{
    let mut out: Vec<MapUse> = Vec::new();
    let mut k: usize = 0;
    while k < files.len()
        invariant
            k <= files.len(),
            out.deep_view() == gather(0, k as int, file_uses(files@, maps.deep_view())),
        decreases files.len() - k,
    {
        match &files[k].ast {
            Ok(t) => put_all(&mut out, uses_in_file(t, maps, files[k].path.as_str())),
            Err(_) => {},
        }
        k += 1;
    }
    out
}

// ---------------------------------------------------------------------------
// Findings
// ---------------------------------------------------------------------------

pub open spec fn site_of(us: Seq<MapUseView>, binding: Seq<char>, method: Seq<char>) -> spec_fn(
    int,
) -> Seq<InsertSiteView> {
    |k: int| only_if(us[k].binding == binding && us[k].method == method, us[k].site)
}

/// The sites that call `method` on the map `binding`.
pub open spec fn sites(us: Seq<MapUseView>, binding: Seq<char>, method: Seq<char>) -> Seq<
    InsertSiteView,
> {
    gather(0, us.len() as int, site_of(us, binding, method))
}

/// Methods that shrink a map without knowing a key.
pub open spec fn bounding(name: Seq<char>) -> bool {
    ||| name == "retain"@
    ||| name == "clear"@
    ||| name == "drain"@
    ||| name == "extract_if"@
}

fn is_bounding(name: &str) -> (r: bool)
    ensures
        r == bounding(name@),
{
    same(name, "retain")
        || same(name, "clear")
        || same(name, "drain")
        || same(name, "extract_if")
}

/// Some call shrinks the map `binding` without knowing a key.
pub open spec fn bounded(us: Seq<MapUseView>, binding: Seq<char>) -> bool {
    exists|k: int|
        0 <= k < us.len() && (#[trigger] us[k]).binding == binding && bounding(us[k].method)
}

pub open spec fn names_of(ss: Seq<InsertSiteView>) -> Seq<Seq<char>> {
    Seq::new(ss.len(), |k: int| ss[k].server_fn)
}

/// The functions of the sites, each once, by name.
pub open spec fn functions(ss: Seq<InsertSiteView>) -> Seq<Seq<char>> {
    sorted(distinct(names_of(ss)), rank::<String>())
}

pub open spec fn narrow_message(
    s: StaticMapView,
    inserts: Seq<InsertSiteView>,
    removes: Seq<InsertSiteView>,
) -> Seq<char> {
    let fns = joined(functions(removes), ", "@);
    "`"@ + s.binding + ": "@ + s.ty + "` only sheds entries via `.remove()` in "@ + fns + " ("@
        + decimal(removes.len()) + " call site"@ + plural(removes.len())
        + "). That covers users who explicitly opt out, but abandoned tabs / users who never call "@
        + fns
        + " accumulate forever. Add a TTL sweep (`map.retain(|_, (ts, _)| ts.elapsed() < TTL)`) on a periodic task, or filter expired entries on read AND evict them there; consider `dashmap` + `mini-moka` for a TTL-aware drop-in. Server fns insert at "@
        + decimal(inserts.len()) + " site"@ + plural(inserts.len()) + "."@
}

pub open spec fn unbounded_message(s: StaticMapView, inserts: Seq<InsertSiteView>) -> Seq<char> {
    "`"@ + s.binding + ": "@ + s.ty
        + "` grows on every request — server fns insert into it ("@ + decimal(inserts.len())
        + " site"@ + plural(inserts.len())
        + ") but no `.retain()` / `.remove()` / `.clear()` call is reachable from any server fn. Long-running servers will accumulate entries forever. Add a TTL sweep (`map.retain(|_, (ts, _)| ts.elapsed() < TTL)`) to a periodic task or filter expired entries on read AND evict them there; consider `dashmap` + `mini-moka` for a TTL-aware drop-in."@
}

pub open spec fn finding(us: Seq<MapUseView>, s: StaticMapView) -> PresenceMapFindingView {
    let inserts = sites(us, s.binding, "insert"@);
    let removes = sites(us, s.binding, "remove"@);
    let narrow = removes.len() > 0;
    PresenceMapFindingView {
        code: if narrow {
            "presence_map_narrow_eviction"@
        } else {
            "presence_map_unbounded"@
        },
        severity: if narrow {
            "warning"@
        } else {
            "info"@
        },
        file: s.file,
        line: s.line,
        binding: s.binding,
        map_type: s.ty,
        insert_sites: inserts,
        remove_sites: removes,
        message: if narrow {
            narrow_message(s, inserts, removes)
        } else {
            unbounded_message(s, inserts)
        },
    }
}

pub open spec fn finding_at(ss: Seq<StaticMapView>, us: Seq<MapUseView>) -> spec_fn(int) -> Seq<
    PresenceMapFindingView,
> {
    |k: int|
        only_if(
            sites(us, ss[k].binding, "insert"@).len() > 0 && !bounded(us, ss[k].binding),
            finding(us, ss[k]),
        )
}

/// One finding for each map that some server function inserts into and none
/// bounds, in the order of the declarations.
pub open spec fn findings(ss: Seq<StaticMapView>, us: Seq<MapUseView>) -> Seq<
    PresenceMapFindingView,
> {
    gather(0, ss.len() as int, finding_at(ss, us))
}

pub open spec fn bindings(ss: Seq<StaticMapView>) -> Seq<Seq<char>> {
    Seq::new(ss.len(), |k: int| ss[k].binding)
}

fn sites_of(us: &Vec<MapUse>, binding: &str, method: &str) -> (r: Vec<InsertSite>)
    ensures
        r.deep_view() == sites(us.deep_view(), binding@, method@),
{
    let ghost v = us.deep_view();
    let mut out: Vec<InsertSite> = Vec::new();
    let mut k: usize = 0;
    while k < us.len()
        invariant
            k <= us.len(),
            v == us.deep_view(),
            out.deep_view() == gather(0, k as int, site_of(v, binding@, method@)),
        decreases us.len() - k,
    {
        assert(v[k as int] == us@[k as int].deep_view());
        if same(us[k].binding.as_str(), binding) && same(us[k].method.as_str(), method) {
            let s = &us[k].site;
            let site = InsertSite {
                server_fn: owned(s.server_fn.as_str()),
                file: owned(s.file.as_str()),
                line: s.line,
            };
            put(&mut out, site);
        }
        k += 1;
    }
    out
}

fn is_bounded(us: &Vec<MapUse>, binding: &str) -> (r: bool)
    ensures
        r == bounded(us.deep_view(), binding@),
{
    let ghost v = us.deep_view();
    let mut k: usize = 0;
    while k < us.len()
        invariant
            k <= us.len(),
            v == us.deep_view(),
            forall|m: int|
                0 <= m < k ==> !((#[trigger] v[m]).binding == binding@ && bounding(v[m].method)),
        decreases us.len() - k,
    {
        assert(v[k as int] == us@[k as int].deep_view());
        if same(us[k].binding.as_str(), binding) && is_bounding(us[k].method.as_str()) {
            return true;
        }
        k += 1;
    }
    false
}

fn functions_of(ss: &Vec<InsertSite>) -> (r: Vec<String>)
    ensures
        r.deep_view() == functions(ss.deep_view()),
{
    let mut names: Vec<String> = Vec::new();
    let mut k: usize = 0;
    while k < ss.len()
        invariant
            k <= ss.len(),
            names.deep_view() =~= names_of(ss.deep_view()).take(k as int),
        decreases ss.len() - k,
    {
        put(&mut names, owned(ss[k].server_fn.as_str()));
        k += 1;
    }
    assert(names.deep_view() =~= names_of(ss.deep_view()));
    sort(distinct_of(&names))
}

fn finding_of(us: &Vec<MapUse>, s: &StaticMap) -> (r: PresenceMapFinding)
    ensures
        r.deep_view() == finding(us.deep_view(), s.deep_view()),
{
    let inserts = sites_of(us, s.binding.as_str(), "insert");
    let removes = sites_of(us, s.binding.as_str(), "remove");
    let narrow = removes.len() > 0;
    let mut m = owned("`");
    m.append(s.binding.as_str());
    m.append(": ");
    m.append(s.ty.as_str());
    if narrow {
        let fns = join(&functions_of(&removes), ", ");
        m.append("` only sheds entries via `.remove()` in ");
        m.append(fns.as_str());
        m.append(" (");
        m.append(decimal_usize(removes.len()).as_str());
        m.append(" call site");
        m.append(plural_of(removes.len()));
        m.append(
            "). That covers users who explicitly opt out, but abandoned tabs / users who never call ",
        );
        m.append(fns.as_str());
        m.append(
            " accumulate forever. Add a TTL sweep (`map.retain(|_, (ts, _)| ts.elapsed() < TTL)`) on a periodic task, or filter expired entries on read AND evict them there; consider `dashmap` + `mini-moka` for a TTL-aware drop-in. Server fns insert at ",
        );
        m.append(decimal_usize(inserts.len()).as_str());
        m.append(" site");
        m.append(plural_of(inserts.len()));
        m.append(".");
    } else {
        m.append("` grows on every request — server fns insert into it (");
        m.append(decimal_usize(inserts.len()).as_str());
        m.append(" site");
        m.append(plural_of(inserts.len()));
        m.append(
            ") but no `.retain()` / `.remove()` / `.clear()` call is reachable from any server fn. Long-running servers will accumulate entries forever. Add a TTL sweep (`map.retain(|_, (ts, _)| ts.elapsed() < TTL)`) to a periodic task or filter expired entries on read AND evict them there; consider `dashmap` + `mini-moka` for a TTL-aware drop-in.",
        );
    }
    PresenceMapFinding {
        code: if narrow {
            "presence_map_narrow_eviction"
        } else {
            "presence_map_unbounded"
        },
        severity: if narrow {
            "warning"
        } else {
            "info"
        },
        file: owned(s.file.as_str()),
        line: s.line,
        binding: owned(s.binding.as_str()),
        map_type: owned(s.ty.as_str()),
        insert_sites: inserts,
        remove_sites: removes,
        message: m,
    }
}

/// The findings for the maps `ss` and their uses `us`.
pub fn map_findings(ss: &Vec<StaticMap>, us: &Vec<MapUse>) -> (r: Vec<PresenceMapFinding>)
    ensures
        r.deep_view() == findings(ss.deep_view(), us.deep_view()),
{
    let ghost v = ss.deep_view();
    let mut out: Vec<PresenceMapFinding> = Vec::new();
    let mut k: usize = 0;
    while k < ss.len()
        invariant
            k <= ss.len(),
            v == ss.deep_view(),
            out.deep_view() == gather(0, k as int, finding_at(v, us.deep_view())),
        decreases ss.len() - k,
    {
        assert(v[k as int] == ss@[k as int].deep_view());
        let f = finding_of(us, &ss[k]);
        if f.insert_sites.len() > 0 && !is_bounded(us, ss[k].binding.as_str()) {
            put(&mut out, f);
        }
        k += 1;
    }
    out
}

fn bindings_of(ss: &Vec<StaticMap>) -> (r: Vec<String>)
    ensures
        r.deep_view() == bindings(ss.deep_view()),
{
    let mut out: Vec<String> = Vec::new();
    let mut k: usize = 0;
    while k < ss.len()
        invariant
            k <= ss.len(),
            out.deep_view() =~= bindings(ss.deep_view()).take(k as int),
        decreases ss.len() - k,
    {
        put(&mut out, owned(ss[k].binding.as_str()));
        k += 1;
    }
    assert(out.deep_view() =~= bindings(ss.deep_view()));
    out
}

/// What there is to report.
pub open spec fn report(files: Seq<ScannedFile>) -> PresenceMapUnboundedReportView {
    PresenceMapUnboundedReportView {
        findings: findings(statics(files), uses(files, bindings(statics(files)))),
        parse_errors: parse_errors(files),
    }
}

/// Reports the unbounded static maps in `files`.
pub fn presence_map_unbounded(files: &Vec<ScannedFile>) -> (r: PresenceMapUnboundedReport)
    ensures
        r.deep_view() == report(files@),
{
    let ss = scan_statics(files);
    let us = scan_uses(files, &bindings_of(&ss));
    PresenceMapUnboundedReport {
        findings: map_findings(&ss, &us),
        parse_errors: collect_parse_errors(files),
    }
}

/// Every finding is on a map that some server function inserts into and none
/// bounds. It is a warning exactly if entries are removed one by one.
pub proof fn law_unbounded(
    ss: Seq<StaticMapView>,
    us: Seq<MapUseView>,
    f: PresenceMapFindingView,
)
    requires
        findings(ss, us).contains(f),
    ensures
        f.insert_sites.len() > 0,
        !bounded(us, f.binding),
        f.severity == "warning"@ <==> f.remove_sites.len() > 0,
        f.severity == "info"@ <==> f.remove_sites.len() == 0,
{
    reveal_strlit("warning");
    reveal_strlit("info");
    assert("warning"@.len() == 7 && "info"@.len() == 4);
    lemma_gather_contains(0, ss.len() as int, finding_at(ss, us), f);
    let k = choose|k: int| 0 <= k < ss.len() && (#[trigger] finding_at(ss, us)(k)).contains(f);
    assert(finding_at(ss, us)(k).contains(f));
}

/// A map that is inserted into and never bounded is found.
pub proof fn law_growth_is_found(ss: Seq<StaticMapView>, us: Seq<MapUseView>, k: int)
    requires
        0 <= k < ss.len(),
        sites(us, ss[k].binding, "insert"@).len() > 0,
        !bounded(us, ss[k].binding),
    ensures
        findings(ss, us).contains(finding(us, ss[k])),
{
    let f = finding(us, ss[k]);
    assert(finding_at(ss, us)(k) =~= seq![f]);
    assert(finding_at(ss, us)(k)[0] == f);
    lemma_gather_contains(0, ss.len() as int, finding_at(ss, us), f);
}

} // verus!
