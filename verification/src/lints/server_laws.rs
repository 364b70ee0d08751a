//! What the lints on server code find, in terms of the nodes.
use vstd::prelude::*;

use super::duplicate_helper_client_server as twins;
use super::laws::{lemma_server_fn_with_body, parses, server_fn_with_body};
use super::presence_map_unbounded as presence;
use super::repeated_auth_extractor as auth;
use super::shared_enum_validation as enums;
use super::signal_lint::laws::nodes;
use crate::order::{
    distinct, gather, in_order, law_sorted, lemma_distinct, lemma_gather_contains,
    lemma_sorted_contains, lemma_text_le, rank, sorted,
};
use crate::paths::components;
use crate::plain::under;
use crate::scan::{pat_name, server_fn, ScannedFile};
use crate::tape::{lemma_operand_bounds, operand, stop, Kind, Node};
use crate::text::{at, lower, occurs, without};
use crate::tokens::tokens;

verus! {

// ---------------------------------------------------------------------------
// Maps that grow
// ---------------------------------------------------------------------------

/// The type `ty`, blanks aside, holds the text `p`.
pub open spec fn spells(ty: Seq<char>, p: Seq<char>) -> bool {
    exists|i: int| #[trigger] at(without(ty, ' '), p, i)
}

/// Node `i` is a static at the top level that is set up on first use and holds a map
/// behind a lock.
pub open spec fn locked_map(t: Seq<Node>, i: int) -> bool {
    let ty = t[i].text@;
    &&& 0 < i < t.len() && t[i].kind == Kind::Static && t[i].parent == 0
    &&& spells(ty, "Lazy<"@) || spells(ty, "OnceLock<"@)
    &&& spells(ty, "Mutex<"@) || spells(ty, "RwLock<"@)
    &&& spells(ty, "HashMap<"@) || spells(ty, "BTreeMap<"@) || spells(ty, "DashMap<"@)
}

/// The value at `e` comes from the name `name`, through method calls, parentheses,
/// references, unary operators and `?`, however many.
pub open spec fn comes_from(t: Seq<Node>, e: int, name: Seq<char>) -> bool
    decreases t.len() - e,
{
    &&& 0 <= e < t.len()
    &&& {
        ||| t[e].kind == Kind::Path && t[e].name@ == name
        ||| {
            &&& t[e].kind == Kind::MethodCall || t[e].kind == Kind::Paren || t[e].kind
                == Kind::Reference || t[e].kind == Kind::Unary || t[e].kind == Kind::Try
            &&& operand(t, e, 0) matches Some(d)
            &&& e < d && comes_from(t, d, name)
        }
    }
}

proof fn lemma_comes_from(t: Seq<Node>, e: int, name: Seq<char>)
    requires
        comes_from(t, e, name),
    ensures
        presence::root_ident(t, e) == Some(name),
    decreases t.len() - e,
{
    if t[e].kind != Kind::Path {
        lemma_operand_bounds(t, e, 0);
        lemma_comes_from(t, operand(t, e, 0)->0, name);
    }
}

/// No method of that name is called in the files.
pub open spec fn never_called(files: Seq<ScannedFile>, name: Seq<char>) -> bool {
    forall|k: int, j: int|
        parses(files, k) && 0 <= j < nodes(files, k).len() ==> {
            let n = #[trigger] nodes(files, k)[j];
            n.kind == Kind::MethodCall ==> n.name@ != name
        }
}

proof fn lemma_static(files: Seq<ScannedFile>, k: int, i: int) -> (n: int)
    requires
        parses(files, k),
        locked_map(nodes(files, k), i),
    ensures
        0 <= n < presence::statics(files).len(),
        presence::statics(files)[n].binding == nodes(files, k)[i].name@,
        presence::statics(files)[n].file == files[k].path@,
        presence::statics(files)[n].line == nodes(files, k)[i].line,
        presence::bindings(presence::statics(files)).contains(nodes(files, k)[i].name@),
{
    let t = nodes(files, k);
    let ty = t[i].text@;
    assert(presence::lazy_map(ty)) by {
        let s = without(ty, ' ');
        if spells(ty, "Lazy<"@) {
            assert(occurs(s, "Lazy<"@));
        }
        if spells(ty, "OnceLock<"@) {
            assert(occurs(s, "OnceLock<"@));
        }
        if spells(ty, "Mutex<"@) {
            assert(occurs(s, "Mutex<"@));
        }
        if spells(ty, "RwLock<"@) {
            assert(occurs(s, "RwLock<"@));
        }
        if spells(ty, "HashMap<"@) {
            assert(occurs(s, "HashMap<"@));
        }
        if spells(ty, "BTreeMap<"@) {
            assert(occurs(s, "BTreeMap<"@));
        }
        if spells(ty, "DashMap<"@) {
            assert(occurs(s, "DashMap<"@));
        }
    }
    let rule = presence::static_map_at(t, files[k].path@);
    let x = rule(i)[0];
    assert(rule(i).contains(x));
    lemma_gather_contains(0, t.len() as int, rule, x);
    let outer = presence::file_statics(files);
    assert(outer(k).contains(x));
    lemma_gather_contains(0, files.len() as int, outer, x);
    let ss = presence::statics(files);
    let n = choose|n: int| 0 <= n < ss.len() && ss[n] == x;
    assert(presence::bindings(ss)[n] == t[i].name@);
    n
}

/// What is recorded of a map is a method call in a server function.
proof fn lemma_use_is_real(files: Seq<ScannedFile>, maps: Seq<Seq<char>>, m: int)
    requires
        0 <= m < presence::uses(files, maps).len(),
    ensures
        !never_called(files, presence::uses(files, maps)[m].method),
{
    let us = presence::uses(files, maps);
    let u = us[m];
    assert(us.contains(u));
    let outer = presence::file_uses(files, maps);
    lemma_gather_contains(0, files.len() as int, outer, u);
    let k = choose|k: int| 0 <= k < files.len() && (#[trigger] outer(k)).contains(u);
    let t = nodes(files, k);
    let rule = presence::fn_uses(t, maps, files[k].path@);
    lemma_gather_contains(0, t.len() as int, rule, u);
    let f = choose|f: int| 0 <= f < t.len() && (#[trigger] rule(f)).contains(u);
    let (lo, hi) = (crate::scan::body_start(t, f), crate::scan::body_end(t, f));
    let inner = presence::map_use_at(t, maps, f, files[k].path@, lo);
    lemma_gather_contains(lo, hi, inner, u);
    let i = choose|i: int| lo <= i < hi && (#[trigger] inner(i)).contains(u);
    lemma_operand_bounds(t, f, (t[f].count + 1) as nat);
    assert(parses(files, k));
    assert(nodes(files, k)[i].kind == Kind::MethodCall);
}

/// Into a map behind a lock, a server function inserts, and nothing in the files calls
/// `retain`, `clear`, `drain` or `extract_if`: the map is found, with the place of the
/// insertion. Where nothing calls `remove` either, it is found to be unbounded.
pub proof fn law_growing_map_is_found(
    files: Seq<ScannedFile>,
    k: int,
    i: int,
    from: int,
    f: int,
    b: int,
    j: int,
    e: int,
)
    requires
        parses(files, k),
        locked_map(nodes(files, k), i),
        parses(files, from),
        ({
            let t = nodes(files, from);
            &&& server_fn_with_body(t, f, b)
            &&& b <= j < t[b].end && t[j].kind == Kind::MethodCall && t[j].name@ == "insert"@
            &&& operand(t, j, 0) == Some(e)
            &&& comes_from(t, e, nodes(files, k)[i].name@)
        }),
        never_called(files, "retain"@),
        never_called(files, "clear"@),
        never_called(files, "drain"@),
        never_called(files, "extract_if"@),
    ensures
        exists|x: presence::PresenceMapFindingView| #[trigger]
            presence::report(files).findings.contains(x) && x.file == files[k].path@ && x.line
                == nodes(files, k)[i].line && x.binding == nodes(files, k)[i].name@
                && x.insert_sites.contains(
                presence::InsertSiteView {
                    server_fn: nodes(files, from)[f].name@,
                    file: files[from].path@,
                    line: nodes(files, from)[j].line,
                },
            ) && (never_called(files, "remove"@) ==> x.code == "presence_map_unbounded"@
                && x.severity == "info"@),
{
    let t = nodes(files, from);
    let name = nodes(files, k)[i].name@;
    let n = lemma_static(files, k, i);
    let maps = presence::bindings(presence::statics(files));
    lemma_comes_from(t, e, name);
    lemma_growth(files, n, from, f, b, j, name);
}

proof fn lemma_growth(
    files: Seq<ScannedFile>,
    n: int,
    from: int,
    f: int,
    b: int,
    j: int,
    name: Seq<char>,
)
    requires
        0 <= n < presence::statics(files).len(),
        presence::statics(files)[n].binding == name,
        parses(files, from),
        ({
            let t = nodes(files, from);
            let maps = presence::bindings(presence::statics(files));
            &&& server_fn_with_body(t, f, b)
            &&& b <= j < t[b].end && t[j].kind == Kind::MethodCall && t[j].name@ == "insert"@
            &&& operand(t, j, 0) matches Some(e)
            &&& presence::resolved(t, maps, presence::aliases(t, maps, b, j), e) == Some(name)
        }),
        never_called(files, "retain"@),
        never_called(files, "clear"@),
        never_called(files, "drain"@),
        never_called(files, "extract_if"@),
    ensures
        exists|x: presence::PresenceMapFindingView| #[trigger]
            presence::report(files).findings.contains(x) && x.file == presence::statics(
                files,
            )[n].file && x.line == presence::statics(files)[n].line && x.binding == name
                && x.insert_sites.contains(
                presence::InsertSiteView {
                    server_fn: nodes(files, from)[f].name@,
                    file: files[from].path@,
                    line: nodes(files, from)[j].line,
                },
            ) && (never_called(files, "remove"@) ==> x.code == "presence_map_unbounded"@
                && x.severity == "info"@),
{
    let t = nodes(files, from);
    let ss = presence::statics(files);
    let maps = presence::bindings(ss);
    let us = presence::uses(files, maps);
    let path = files[from].path@;
    lemma_server_fn_with_body(t, f, b);
    let inner = presence::map_use_at(t, maps, f, path, b);
    let u = inner(j)[0];
    assert(inner(j).contains(u));
    lemma_gather_contains(b, t[b].end as int, inner, u);
    let rule = presence::fn_uses(t, maps, path);
    assert(rule(f).contains(u));
    lemma_gather_contains(0, t.len() as int, rule, u);
    let outer = presence::file_uses(files, maps);
    assert(outer(from).contains(u));
    lemma_gather_contains(0, files.len() as int, outer, u);
    let m = choose|m: int| 0 <= m < us.len() && us[m] == u;
    let sites = presence::site_of(us, name, "insert"@);
    assert(sites(m)[0] == u.site);
    assert(sites(m).contains(u.site));
    lemma_gather_contains(0, us.len() as int, sites, u.site);
    assert(!presence::bounded(us, name)) by {
        if presence::bounded(us, name) {
            let y = choose|y: int|
                0 <= y < us.len() && (#[trigger] us[y]).binding == name && presence::bounding(
                    us[y].method,
                );
            lemma_use_is_real(files, maps, y);
        }
    }
    if never_called(files, "remove"@) {
        let gone = presence::site_of(us, name, "remove"@);
        if presence::sites(us, name, "remove"@).len() > 0 {
            let z = presence::sites(us, name, "remove"@)[0];
            assert(presence::sites(us, name, "remove"@).contains(z));
            lemma_gather_contains(0, us.len() as int, gone, z);
            let y = choose|y: int| 0 <= y < us.len() && (#[trigger] gone(y)).contains(z);
            lemma_use_is_real(files, maps, y);
        }
    }
    let found = presence::finding_at(ss, us);
    let x = presence::finding(us, ss[n]);
    assert(found(n)[0] == x);
    assert(found(n).contains(x));
    lemma_gather_contains(0, ss.len() as int, found, x);
    assert(presence::report(files).findings.contains(x));
}

/// No `let` between `lo` and `hi` binds `name`.
pub open spec fn not_bound_again(t: Seq<Node>, lo: int, hi: int, name: Seq<char>) -> bool {
    forall|l: int|
        lo < l < hi && (#[trigger] t[l]).kind == Kind::Local ==> !(operand(t, l, 0) matches Some(p)
            && pat_name(t, p) == Some(name))
}

proof fn lemma_alias(
    t: Seq<Node>,
    maps: Seq<Seq<char>>,
    b: int,
    l: int,
    hi: int,
    guard: Seq<char>,
    name: Seq<char>,
)
    requires
        b <= l < hi,
        not_bound_again(t, l, hi, guard),
        presence::alias_at(t, maps, presence::aliases(t, maps, b, l), l) == Some(
            presence::AliasView { name: guard, target: name },
        ),
    ensures
        presence::bound_to(presence::aliases(t, maps, b, hi), guard) == Some(name),
    decreases hi - l,
{
    let before = presence::aliases(t, maps, b, hi - 1);
    if l == hi - 1 {
        let all = presence::aliases(t, maps, b, hi);
        assert(all.last() == presence::AliasView { name: guard, target: name });
    } else {
        lemma_alias(t, maps, b, l, hi - 1, guard, name);
        match presence::alias_at(t, maps, before, hi - 1) {
            Some(a) => {
                assert(t[hi - 1].kind == Kind::Local);
                let all = presence::aliases(t, maps, b, hi);
                assert(all.drop_last() =~= before);
                assert(all.last() == a);
            },
            None => {},
        }
    }
}

/// The same, where the server function first binds the map's guard to a name of its own
/// and inserts through that name.
pub proof fn law_map_that_grows_by_a_guard_is_found(
    files: Seq<ScannedFile>,
    k: int,
    i: int,
    from: int,
    f: int,
    b: int,
    l: int,
    p: int,
    v: int,
    guard: Seq<char>,
    j: int,
    e: int,
)
    requires
        parses(files, k),
        locked_map(nodes(files, k), i),
        parses(files, from),
        ({
            let t = nodes(files, from);
            &&& server_fn_with_body(t, f, b)
            &&& b <= l < j && t[l].kind == Kind::Local && t[l].flag
            &&& operand(t, l, 0) == Some(p) && pat_name(t, p) == Some(guard)
            &&& operand(t, l, 1) == Some(v) && comes_from(t, v, nodes(files, k)[i].name@)
            &&& not_bound_again(t, l, j, guard)
            &&& b <= j < t[b].end && t[j].kind == Kind::MethodCall && t[j].name@ == "insert"@
            &&& operand(t, j, 0) == Some(e) && comes_from(t, e, guard)
            &&& forall|k2: int, i2: int|
                parses(files, k2) && 0 <= i2 < nodes(files, k2).len() && (#[trigger] nodes(
                    files,
                    k2,
                )[i2]).kind == Kind::Static ==> nodes(files, k2)[i2].name@ != guard
        }),
        never_called(files, "retain"@),
        never_called(files, "clear"@),
        never_called(files, "drain"@),
        never_called(files, "extract_if"@),
    ensures
        exists|x: presence::PresenceMapFindingView| #[trigger]
            presence::report(files).findings.contains(x) && x.file == files[k].path@ && x.line
                == nodes(files, k)[i].line && x.binding == nodes(files, k)[i].name@
                && x.insert_sites.contains(
                presence::InsertSiteView {
                    server_fn: nodes(files, from)[f].name@,
                    file: files[from].path@,
                    line: nodes(files, from)[j].line,
                },
            ) && (never_called(files, "remove"@) ==> x.code == "presence_map_unbounded"@
                && x.severity == "info"@),
{
    let t = nodes(files, from);
    let name = nodes(files, k)[i].name@;
    let n = lemma_static(files, k, i);
    let ss = presence::statics(files);
    let maps = presence::bindings(ss);
    lemma_comes_from(t, v, name);
    lemma_comes_from(t, e, guard);
    assert(!maps.contains(guard)) by {
        if maps.contains(guard) {
            let y = choose|y: int| 0 <= y < maps.len() && maps[y] == guard;
            let s = ss[y];
            assert(ss.contains(s));
            let outer = presence::file_statics(files);
            lemma_gather_contains(0, files.len() as int, outer, s);
            let k2 = choose|k2: int| 0 <= k2 < files.len() && (#[trigger] outer(k2)).contains(s);
            let u = nodes(files, k2);
            let rule = presence::static_map_at(u, files[k2].path@);
            lemma_gather_contains(0, u.len() as int, rule, s);
            let i2 = choose|i2: int| 0 <= i2 < u.len() && (#[trigger] rule(i2)).contains(s);
            assert(parses(files, k2));
            assert(nodes(files, k2)[i2].kind == Kind::Static);
        }
    }
    assert(presence::alias_at(t, maps, presence::aliases(t, maps, b, l), l) == Some(
        presence::AliasView { name: guard, target: name },
    ));
    lemma_alias(t, maps, b, l, j, guard, name);
    lemma_growth(files, n, from, f, b, j, name);
}

// ---------------------------------------------------------------------------
// Repeated checks of identity
// ---------------------------------------------------------------------------

/// `name` speaks of a user, of authorization, of a session or of a cookie, in letters of
/// any case, and is not itself the name of an endpoint for signing in or out.
pub open spec fn checks_identity(name: Seq<char>) -> bool {
    let l = lower(name);
    &&& exists|i: int|
        #![trigger at(l, "user"@, i)]
        #![trigger at(l, "auth"@, i)]
        #![trigger at(l, "session"@, i)]
        #![trigger at(l, "cookie"@, i)]
        at(l, "user"@, i) || at(l, "auth"@, i) || at(l, "session"@, i) || at(l, "cookie"@, i)
    &&& l != "who_am_i"@ && l != "whoami"@ && l != "login"@ && l != "login_user"@ && l
        != "logout"@ && l != "logout_user"@ && l != "sign_in"@ && l != "sign_out"@
}

/// In file `k`, the server function at `f` calls the function `name` at `j`.
pub open spec fn server_fn_calls(
    files: Seq<ScannedFile>,
    k: int,
    f: int,
    b: int,
    j: int,
    name: Seq<char>,
) -> bool {
    let t = nodes(files, k);
    &&& parses(files, k) && server_fn_with_body(t, f, b)
    &&& b <= j < t[b].end && t[j].kind == Kind::Call
    &&& operand(t, j, 0) matches Some(p)
    &&& t[p].kind == Kind::Path && t[p].name@ == name
}

proof fn lemma_first_call(t: Seq<Node>, lo: int, j: int) -> (m: int)
    requires
        lo <= j,
        auth::callee_name(t, j) is Some,
    ensures
        lo <= m <= j,
        auth::callee_name(t, m) == auth::callee_name(t, j),
        auth::first_call(t, lo, m),
    decreases j - lo,
{
    if auth::first_call(t, lo, j) {
        j
    } else {
        let e = choose|e: int|
            lo <= e < j && #[trigger] auth::callee_name(t, e) == auth::callee_name(t, j);
        lemma_first_call(t, lo, e)
    }
}

proof fn lemma_recorded(
    files: Seq<ScannedFile>,
    k: int,
    f: int,
    b: int,
    j: int,
    name: Seq<char>,
) -> (c: auth::RecordedCallView)
    requires
        server_fn_calls(files, k, f, b, j, name),
        checks_identity(name),
    ensures
        gather(0, files.len() as int, auth::file_calls(files)).contains(c),
        c.callee == name,
        c.site.server_fn == nodes(files, k)[f].name@,
        c.site.file == files[k].path@,
{
    let t = nodes(files, k);
    let path = files[k].path@;
    lemma_server_fn_with_body(t, f, b);
    assert(auth::auth_shaped(name)) by {
        let l = lower(name);
        let i = choose|i: int|
            #![trigger at(l, "user"@, i)]
            #![trigger at(l, "auth"@, i)]
            #![trigger at(l, "session"@, i)]
            #![trigger at(l, "cookie"@, i)]
            at(l, "user"@, i) || at(l, "auth"@, i) || at(l, "session"@, i) || at(l, "cookie"@, i);
        assert(occurs(l, "user"@) || occurs(l, "auth"@) || occurs(l, "session"@) || occurs(
            l,
            "cookie"@,
        ));
    }
    assert(auth::callee_name(t, j) == Some(name));
    let m = lemma_first_call(t, b, j);
    let inner = auth::call_at(t, f, path);
    let c = inner(m)[0];
    assert(inner(m).contains(c));
    lemma_gather_contains(b, t[b].end as int, inner, c);
    let rule = auth::fn_calls(t, path);
    assert(rule(f).contains(c));
    lemma_gather_contains(0, t.len() as int, rule, c);
    let outer = auth::file_calls(files);
    assert(outer(k).contains(c));
    lemma_gather_contains(0, files.len() as int, outer, c);
    c
}

/// A check of identity that three server functions of different names call is found,
/// unless a higher number is asked for.
pub proof fn law_repeated_check_is_found(
    asked: Option<usize>,
    files: Seq<ScannedFile>,
    k1: int,
    f1: int,
    b1: int,
    j1: int,
    k2: int,
    f2: int,
    b2: int,
    j2: int,
    k3: int,
    f3: int,
    b3: int,
    j3: int,
    name: Seq<char>,
)
    requires
        asked is None || asked->0 <= 3,
        checks_identity(name),
        server_fn_calls(files, k1, f1, b1, j1, name),
        server_fn_calls(files, k2, f2, b2, j2, name),
        server_fn_calls(files, k3, f3, b3, j3, name),
        nodes(files, k1)[f1].name@ != nodes(files, k2)[f2].name@,
        nodes(files, k1)[f1].name@ != nodes(files, k3)[f3].name@,
        nodes(files, k2)[f2].name@ != nodes(files, k3)[f3].name@,
    ensures
        exists|x: auth::RepeatedAuthFindingView| #[trigger]
            auth::report(asked, files).findings.contains(x) && x.callee == name && x.sites.len()
                >= 3 && x.code == "repeated_auth_extractor"@,
{
    let cs = gather(0, files.len() as int, auth::file_calls(files));
    let c1 = lemma_recorded(files, k1, f1, b1, j1, name);
    let c2 = lemma_recorded(files, k2, f2, b2, j2, name);
    let c3 = lemma_recorded(files, k3, f3, b3, j3, name);
    let n1 = lemma_site(cs, c1);
    let n2 = lemma_site(cs, c2);
    let n3 = lemma_site(cs, c3);
    assert(n1 != n2 && n1 != n3 && n2 != n3);
    let i = choose|i: int| 0 <= i < cs.len() && cs[i] == c1;
    let x = auth::law_repetition_is_found(cs, auth::threshold(asked), i);
    auth::law_threshold(cs, auth::threshold(asked), x);
    lemma_auth_code(cs, auth::threshold(asked), x);
    assert(auth::report(asked, files).findings.contains(x));
}

proof fn lemma_auth_code(
    cs: Seq<auth::RecordedCallView>,
    min: nat,
    x: auth::RepeatedAuthFindingView,
)
    requires
        auth::findings(cs, min).contains(x),
    ensures
        x.code == "repeated_auth_extractor"@,
{
    let rule = auth::finding_at(cs, min);
    let all = gather(0, cs.len() as int, rule);
    lemma_sorted_contains(all, rank::<auth::RepeatedAuthFinding>(), x);
    lemma_gather_contains(0, cs.len() as int, rule, x);
}

proof fn lemma_site(cs: Seq<auth::RecordedCallView>, c: auth::RecordedCallView) -> (n: int)
    requires
        cs.contains(c),
    ensures
        0 <= n < auth::sites(cs, c.callee).len(),
        auth::sites(cs, c.callee)[n] == c.site,
{
    let k = choose|k: int| 0 <= k < cs.len() && cs[k] == c;
    let rule = auth::site_of(cs, c.callee);
    assert(rule(k)[0] == c.site);
    assert(rule(k).contains(c.site));
    lemma_gather_contains(0, cs.len() as int, rule, c.site);
    let s = auth::sites(cs, c.callee);
    choose|n: int| 0 <= n < s.len() && s[n] == c.site
}

/// A check that fewer server functions call than asked for is not found, and nothing is
/// asked for means three.
pub proof fn law_few_checks_are_not_found(
    asked: Option<usize>,
    files: Seq<ScannedFile>,
    x: auth::RepeatedAuthFindingView,
)
    requires
        auth::report(asked, files).findings.contains(x),
    ensures
        x.sites.len() >= 2,
        asked matches Some(n) ==> x.sites.len() >= n,
        asked is None ==> x.sites.len() >= 3,
{
    let cs = gather(0, files.len() as int, auth::file_calls(files));
    auth::law_threshold(cs, auth::threshold(asked), x);
}

// ---------------------------------------------------------------------------
// Values spelled twice
// ---------------------------------------------------------------------------

proof fn lemma_same_order(u: Seq<Seq<char>>, v: Seq<Seq<char>>)
    requires
        u.no_duplicates(),
        v.no_duplicates(),
        in_order(u, rank::<String>()),
        in_order(v, rank::<String>()),
        forall|x: Seq<char>| u.contains(x) <==> v.contains(x),
    ensures
        u == v,
    decreases u.len(),
{
    let le = rank::<String>();
    if u.len() == 0 {
        if v.len() > 0 {
            assert(v.contains(v[0]));
        }
        assert(u =~= v);
    } else if v.len() == 0 {
        assert(u.contains(u[0]));
    } else {
        let a = u.last();
        let b = v.last();
        assert(u.contains(a) && v.contains(b));
        let i = choose|i: int| 0 <= i < u.len() && u[i] == b;
        let j = choose|j: int| 0 <= j < v.len() && v[j] == a;
        if i < u.len() - 1 {
            assert(le(u[i], u[u.len() - 1]));
        }
        if j < v.len() - 1 {
            assert(le(v[j], v[v.len() - 1]));
        }
        lemma_text_le(a, b, b);
        assert(a == b);
        let s = u.drop_last();
        let t = v.drop_last();
        assert forall|x: Seq<char>| s.contains(x) <==> t.contains(x) by {
            if s.contains(x) {
                let m = choose|m: int| 0 <= m < s.len() && s[m] == x;
                assert(u[m] == x && u.contains(x));
                let n = choose|n: int| 0 <= n < v.len() && v[n] == x;
                assert(n != v.len() - 1);
                assert(t[n] == x);
            }
            if t.contains(x) {
                let m = choose|m: int| 0 <= m < t.len() && t[m] == x;
                assert(v[m] == x && v.contains(x));
                let n = choose|n: int| 0 <= n < u.len() && u[n] == x;
                assert(n != u.len() - 1);
                assert(s[n] == x);
            }
        }
        assert forall|m: int, n: int| 0 <= m < n < s.len() implies #[trigger] le(s[m], s[n]) by {
            assert(le(u[m], u[n]));
        }
        assert forall|m: int, n: int| 0 <= m < n < t.len() implies #[trigger] le(t[m], t[n]) by {
            assert(le(v[m], v[n]));
        }
        lemma_same_order(s, t);
        assert(u =~= s.push(a));
        assert(v =~= t.push(b));
    }
}

/// Two lists make the same set if they hold the same texts, in whatever order and
/// however often.
pub proof fn law_same_values(a: Seq<Seq<char>>, b: Seq<Seq<char>>)
    requires
        forall|x: Seq<char>| a.contains(x) <==> b.contains(x),
    ensures
        enums::as_set(a) == enums::as_set(b),
        forall|x: Seq<char>| #[trigger] enums::as_set(a).contains(x) <==> a.contains(x),
{
    let u = distinct(a);
    let v = distinct(b);
    lemma_distinct(a);
    lemma_distinct(b);
    law_sorted::<String>(u);
    law_sorted::<String>(v);
    let s = sorted(u, rank::<String>());
    let t = sorted(v, rank::<String>());
    assert forall|x: Seq<char>| s.contains(x) <==> a.contains(x) by {
        lemma_sorted_contains(u, rank::<String>(), x);
    }
    assert forall|x: Seq<char>| t.contains(x) <==> b.contains(x) by {
        lemma_sorted_contains(v, rank::<String>(), x);
    }
    lemma_no_duplicates(u, s);
    lemma_no_duplicates(v, t);
    lemma_same_order(s, t);
}

proof fn lemma_no_duplicates(u: Seq<Seq<char>>, s: Seq<Seq<char>>)
    requires
        u.no_duplicates(),
        u.to_multiset() == s.to_multiset(),
    ensures
        s.no_duplicates(),
{
    broadcast use vstd::seq_lib::group_to_multiset_ensures;

    u.lemma_multiset_has_no_duplicates();
    s.lemma_multiset_has_no_duplicates_conv();
}

/// The list at `a` has the text `x`, on its own or first in a tuple.
pub open spec fn lists_value(t: Seq<Node>, a: int, x: Seq<char>) -> bool {
    exists|j: int| #[trigger] spells_value(t, a, j, x)
}

/// Node `j` is an element of the list at `a` and is the text `x`, on its own or first in
/// a tuple.
pub open spec fn spells_value(t: Seq<Node>, a: int, j: int, x: Seq<char>) -> bool {
    &&& under(t, a, j) && t[j].parent == a
    &&& {
        ||| t[j].kind == Kind::Str && t[j].name@ == x
        ||| {
            &&& t[j].kind == Kind::Tuple
            &&& operand(t, j, 0) matches Some(p)
            &&& 0 <= p < t.len() && t[p].kind == Kind::Str && t[p].name@ == x
        }
    }
}

/// Node `i` is a constant at the top level, and its value is the list at `a`, by
/// reference or not, of texts only.
pub open spec fn constant_list(t: Seq<Node>, i: int, a: int) -> bool {
    &&& 0 < i < t.len() && t[i].kind == Kind::Const && t[i].parent == 0
    &&& operand(t, i, 0) matches Some(e)
    &&& {
        ||| e == a
        ||| t[e].kind == Kind::Reference && operand(t, e, 0) == Some(a)
    }
    &&& 0 <= a < t[a].end <= t.len() && t[a].kind == Kind::Array
    &&& forall|j: int|
        under(t, a, j) && (#[trigger] t[j]).parent == a ==> exists|x: Seq<char>| #[trigger]
            spells_value(t, a, j, x)
}

/// The pattern at `p` is one text or another, and nothing else.
pub open spec fn texts_only(t: Seq<Node>, p: int) -> bool {
    &&& 0 <= p < t[p].end <= t.len()
    &&& forall|j: int|
        p <= j < t[p].end ==> (#[trigger] t[j]).kind == Kind::PatOr || t[j].kind == Kind::Str
}

/// One of the texts of the pattern at `p` is `x`.
pub open spec fn accepts(t: Seq<Node>, p: int, x: Seq<char>) -> bool {
    exists|j: int| p <= j < t[p].end && (#[trigger] t[j]).kind == Kind::Str && t[j].name@ == x
}

proof fn lemma_value(t: Seq<Node>, a: int, j: int, x: Seq<char>)
    requires
        spells_value(t, a, j, x),
    ensures
        enums::first_string(t, j) == Some(x),
        enums::element(t, a, j),
{
    if t[j].kind == Kind::Tuple {
        let p = operand(t, j, 0)->0;
        assert(enums::str_value(t, p) == Some(x));
    }
}

/// Client code lists texts in a constant, and a server function matches on just these:
/// the pair is found, with both places and with the texts.
pub proof fn law_values_spelled_twice_are_found(
    files: Seq<ScannedFile>,
    root: Seq<char>,
    k: int,
    i: int,
    a: int,
    from: int,
    f: int,
    b: int,
    m: int,
    arm: int,
    p: int,
    one: Seq<char>,
    two: Seq<char>,
)
    requires
        parses(files, k),
        components(root).is_prefix_of(components(files[k].path@)),
        constant_list(nodes(files, k), i, a),
        parses(files, from),
        ({
            let t = nodes(files, from);
            &&& server_fn_with_body(t, f, b)
            &&& b <= m < t[b].end && t[m].kind == Kind::Match
            &&& under(t, m, arm) && t[arm].kind == Kind::Arm && t[arm].parent == m
            &&& operand(t, arm, 0) == Some(p) && texts_only(t, p)
        }),
        lists_value(nodes(files, k), a, one),
        lists_value(nodes(files, k), a, two),
        one != two,
        forall|x: Seq<char>|
            lists_value(nodes(files, k), a, x) <==> accepts(nodes(files, from), p, x),
    ensures
        exists|x: enums::SharedEnumFindingView| #[trigger]
            enums::report(files, root).findings.contains(x) && x.client_sites.contains(
                enums::ClientSiteView {
                    file: files[k].path@,
                    line: nodes(files, k)[i].line,
                    binding: nodes(files, k)[i].name@,
                },
            ) && x.server_sites.contains(
                enums::ServerSiteView {
                    file: files[from].path@,
                    line: nodes(files, from)[m].line,
                    server_fn: nodes(files, from)[f].name@,
                },
            ) && (forall|v: Seq<char>| #[trigger]
                x.values.contains(v) <==> lists_value(nodes(files, k), a, v)),
{
    let t = nodes(files, k);
    let u = nodes(files, from);
    let cs = enums::client_sets(files, root);
    let ss = enums::server_sets(files);
    let left = gather(a + 1, stop(t, a), enums::element_string(t, a));
    let right = gather(p, stop(u, p), enums::string_at(u));
    assert forall|x: Seq<char>| #[trigger] left.contains(x) <==> lists_value(t, a, x) by {
        let rule = enums::element_string(t, a);
        lemma_gather_contains(a + 1, stop(t, a), rule, x);
        if left.contains(x) {
            let j = choose|j: int| a + 1 <= j < stop(t, a) && (#[trigger] rule(j)).contains(x);
            assert(t[j].parent == a);
            let y = choose|y: Seq<char>| #[trigger] spells_value(t, a, j, y);
            lemma_value(t, a, j, y);
        }
        if lists_value(t, a, x) {
            let j = choose|j: int| #[trigger] spells_value(t, a, j, x);
            lemma_value(t, a, j, x);
            lemma_not_attr(t, j);
            assert(rule(j)[0] == x);
            assert(rule(j).contains(x));
        }
    }
    assert forall|x: Seq<char>| #[trigger] right.contains(x) <==> accepts(u, p, x) by {
        let rule = enums::string_at(u);
        lemma_gather_contains(p, stop(u, p), rule, x);
        if right.contains(x) {
            let j = choose|j: int| p <= j < stop(u, p) && (#[trigger] rule(j)).contains(x);
            assert(u[j].kind == Kind::Str);
        }
        if accepts(u, p, x) {
            let j = choose|j: int|
                p <= j < u[p].end && (#[trigger] u[j]).kind == Kind::Str && u[j].name@ == x;
            assert(rule(j)[0] == x);
            assert(rule(j).contains(x));
        }
    }
    assert forall|x: Seq<char>| left.contains(x) <==> right.contains(x) by {
        assert(left.contains(x) <==> lists_value(t, a, x));
        assert(right.contains(x) <==> accepts(u, p, x));
    }
    law_same_values(left, right);
    let values = enums::as_set(left);
    assert(enums::listed(t, operand(t, i, 0)->0) == Some(left)) by {
        assert(enums::listing(t, a)) by {
            assert forall|j: int| a < j < stop(t, a) && #[trigger] enums::element(t, a, j) implies
                enums::first_string(t, j) is Some || enums::other_literal(t, j) by {
                assert(t[j].parent == a);
                let y = choose|y: Seq<char>| #[trigger] spells_value(t, a, j, y);
                lemma_value(t, a, j, y);
            }
        }
    }
    assert(left.contains(one) && left.contains(two));
    lemma_two(left, one, two);
    assert(values.contains(one) && values.contains(two));
    lemma_two(values, one, two);
    let c = enums::client_set(t, i, files[k].path@)->0;
    let crule = enums::client_set_at(t, files[k].path@);
    assert(crule(i)[0] == c);
    assert(crule(i).contains(c));
    lemma_gather_contains(0, t.len() as int, crule, c);
    let couter = enums::file_client_sets(files, root);
    assert(couter(k).contains(c));
    lemma_gather_contains(0, files.len() as int, couter, c);
    let path = files[from].path@;
    lemma_server_fn_with_body(u, f, b);
    let arms = enums::arm_set(u, m, f, path);
    let s = arms(arm)[0];
    assert(arms(arm).contains(s));
    lemma_gather_contains(m, stop(u, m), arms, s);
    let matches = enums::match_sets(u, f, path);
    assert(matches(m).contains(s));
    lemma_gather_contains(b, u[b].end as int, matches, s);
    let srule = enums::fn_sets(u, path);
    assert(srule(f).contains(s));
    lemma_gather_contains(0, u.len() as int, srule, s);
    let souter = enums::file_server_sets(files);
    assert(souter(from).contains(s));
    lemma_gather_contains(0, files.len() as int, souter, s);
    let ci = choose|ci: int| 0 <= ci < cs.len() && cs[ci] == c;
    let si = choose|si: int| 0 <= si < ss.len() && ss[si] == s;
    enums::law_same_set_is_found(cs, ss, ci, si);
    let x = enums::finding(cs, ss, values);
    let csites = enums::client_site_of(cs, values);
    assert(csites(ci)[0] == c.site);
    assert(csites(ci).contains(c.site));
    lemma_gather_contains(0, cs.len() as int, csites, c.site);
    let ssites = enums::server_site_of(ss, values);
    assert(ssites(si)[0] == s.site);
    assert(ssites(si).contains(s.site));
    lemma_gather_contains(0, ss.len() as int, ssites, s.site);
    assert(enums::report(files, root).findings.contains(x));
}

proof fn lemma_not_attr(t: Seq<Node>, j: int)
    requires
        t[j].kind == Kind::Str || t[j].kind == Kind::Tuple,
    ensures
        t[j].kind != Kind::Attr,
{
}

proof fn lemma_two(s: Seq<Seq<char>>, one: Seq<char>, two: Seq<char>)
    requires
        s.contains(one),
        s.contains(two),
        one != two,
    ensures
        s.len() >= 2,
{
    let i = choose|i: int| 0 <= i < s.len() && s[i] == one;
    let j = choose|j: int| 0 <= j < s.len() && s[j] == two;
    assert(i != j);
}

// ---------------------------------------------------------------------------
// Helpers written twice
// ---------------------------------------------------------------------------

/// The arguments at `a` and `b` are written alike: the type, and the name if it is one.
pub open spec fn same_argument(t: Seq<Node>, a: int, u: Seq<Node>, b: int) -> bool {
    &&& t[a].kind == u[b].kind && t[a].text@ == u[b].text@
    &&& operand(t, a, 0) matches Some(p)
    &&& operand(u, b, 0) matches Some(q)
    &&& t[p].kind == u[q].kind && t[p].name@ == u[q].name@
}

/// The functions at `f` and `g` are written alike: name, arguments, return type and body.
pub open spec fn same_function(t: Seq<Node>, f: int, u: Seq<Node>, g: int) -> bool {
    &&& t[f].name@ == u[g].name@ && t[f].text@ == u[g].text@ && t[f].count == u[g].count
    &&& forall|n: nat| #![trigger operand(t, f, n)]
        n < t[f].count ==> (operand(t, f, n) matches Some(a) && (operand(u, g, n) matches Some(b)
            && same_argument(t, a, u, b)))
    &&& operand(t, f, t[f].count as nat) matches Some(r)
    &&& operand(u, g, t[f].count as nat) matches Some(s)
    &&& t[r].flag == u[s].flag && t[r].text@ == u[s].text@
}

/// Node `f` is a function at the top level, not `async`, without an attribute.
pub open spec fn bare_function(t: Seq<Node>, f: int) -> bool {
    &&& 0 < f < t.len() && t[f].kind == Kind::Fn && t[f].parent == 0 && !t[f].flag
    &&& forall|a: int| f < a < stop(t, f) ==> (#[trigger] t[a]).kind != Kind::Attr
}

proof fn lemma_bare(t: Seq<Node>, f: int)
    requires
        bare_function(t, f),
    ensures
        twins::plain_fn(t, f),
{
    assert forall|name: Seq<char>| !#[trigger] crate::scan::attributed(t, f, name) by {
        if crate::scan::attributed(t, f, name) {
            let a = choose|a: int| f < a < stop(t, f) && crate::scan::attr_at(t, f, a, name);
            assert(t[a].kind != Kind::Attr);
        }
    }
}

proof fn lemma_same_placeholder(
    t: Seq<Node>,
    f: int,
    u: Seq<Node>,
    g: int,
    n: nat,
    name: Seq<char>,
)
    requires
        same_function(t, f, u, g),
        n <= t[f].count,
    ensures
        twins::placeholder(t, f, n, name) == twins::placeholder(u, g, n, name),
    decreases n,
{
    if n > 0 {
        let m = (n - 1) as nat;
        lemma_same_placeholder(t, f, u, g, m, name);
        assert(operand(t, f, m) is Some);
    }
}

proof fn lemma_same_types(t: Seq<Node>, f: int, u: Seq<Node>, g: int, n: nat)
    requires
        same_function(t, f, u, g),
        n <= t[f].count,
    ensures
        twins::arg_types(t, f, n) == twins::arg_types(u, g, n),
    decreases n,
{
    if n > 0 {
        let m = (n - 1) as nat;
        lemma_same_types(t, f, u, g, m);
        assert(operand(t, f, m) is Some);
    }
}

proof fn lemma_same_key(t: Seq<Node>, f: int, u: Seq<Node>, g: int)
    requires
        same_function(t, f, u, g),
    ensures
        twins::signature(t, f) == twins::signature(u, g),
        twins::body_text(t, f, tokens(t[f].text@)) == twins::body_text(u, g, tokens(u[g].text@)),
{
    lemma_same_types(t, f, u, g, t[f].count as nat);
    match tokens(t[f].text@) {
        Some(ks) => {
            assert forall|k: int| 0 <= k < ks.len() implies twins::renamed(t, f, ks[k])
                == twins::renamed(u, g, ks[k]) by {
                lemma_same_placeholder(t, f, u, g, t[f].count as nat, ks[k].text);
            }
            assert(twins::all_renamed(t, f, ks) =~= twins::all_renamed(u, g, ks));
        },
        None => {},
    }
}

proof fn lemma_helper(
    files: Seq<ScannedFile>,
    client: Seq<char>,
    server: Seq<char>,
    k: int,
    f: int,
    side: Seq<char>,
) -> (n: int)
    requires
        parses(files, k),
        bare_function(nodes(files, k), f),
        twins::side(files[k].path@, client, server) == Some(side),
        twins::helper(
            nodes(files, k),
            f,
            files[k].path@,
            side,
            tokens(nodes(files, k)[f].text@),
        ) is Some,
    ensures
        0 <= n < twins::helpers(files, client, server).len(),
        Some(twins::helpers(files, client, server)[n]) == twins::helper(
            nodes(files, k),
            f,
            files[k].path@,
            side,
            tokens(nodes(files, k)[f].text@),
        ),
{
    let t = nodes(files, k);
    let path = files[k].path@;
    lemma_bare(t, f);
    let h = twins::helper(t, f, path, side, tokens(t[f].text@))->0;
    let rule = twins::helper_at(t, path, side);
    assert(rule(f)[0] == h);
    assert(rule(f).contains(h));
    lemma_gather_contains(0, t.len() as int, rule, h);
    let outer = twins::file_helpers(files, client, server);
    assert(outer(k).contains(h));
    lemma_gather_contains(0, files.len() as int, outer, h);
    let hs = twins::helpers(files, client, server);
    choose|n: int| 0 <= n < hs.len() && hs[n] == h
}

/// A function that is written alike in client code and in server code, and whose body is
/// not too short to count, is found with both places.
pub proof fn law_helper_written_twice_is_found(
    files: Seq<ScannedFile>,
    client: Seq<char>,
    server: Seq<char>,
    k: int,
    f: int,
    k2: int,
    g: int,
)
    requires
        parses(files, k),
        parses(files, k2),
        components(client).is_prefix_of(components(files[k].path@)),
        components(server).is_prefix_of(components(files[k2].path@)),
        !components(client).is_prefix_of(components(files[k2].path@)),
        bare_function(nodes(files, k), f),
        bare_function(nodes(files, k2), g),
        same_function(nodes(files, k), f, nodes(files, k2), g),
        !twins::short(
            twins::normalized(
                twins::body_text(nodes(files, k), f, tokens(nodes(files, k)[f].text@)),
            ),
        ),
    ensures
        exists|x: twins::DuplicateHelperFindingView| #[trigger]
            twins::report(files, client, server).findings.contains(x) && x.fn_name == nodes(
                files,
                k,
            )[f].name@ && x.sites.contains(
                twins::HelperSiteView {
                    file: files[k].path@,
                    line: nodes(files, k)[f].line,
                    side: "client"@,
                },
            ) && x.sites.contains(
                twins::HelperSiteView {
                    file: files[k2].path@,
                    line: nodes(files, k2)[g].line,
                    side: "server"@,
                },
            ),
{
    let t = nodes(files, k);
    let u = nodes(files, k2);
    lemma_same_key(t, f, u, g);
    let n = lemma_helper(files, client, server, k, f, "client"@);
    let m = lemma_helper(files, client, server, k2, g, "server"@);
    let hs = twins::helpers(files, client, server);
    let x = twins::law_twins_are_found(hs, n, m);
    assert(twins::report(files, client, server).findings.contains(x));
}

/// A body in ASCII is too short to count if it has fewer than forty characters.
pub proof fn law_short_body(key: Seq<char>)
    requires
        key.len() <= usize::MAX,
        forall|k: int| 0 <= k < key.len() ==> '\0' <= #[trigger] key[k] <= '\u{7f}',
    ensures
        twins::short(key) <==> key.len() < 40,
{
    assert(vstd::utf8::is_ascii_chars(key));
    vstd::utf8::is_ascii_chars_encode_utf8(key);
}

} // verus!
