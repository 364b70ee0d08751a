//! Routes: the variants of the enum that derives `Routable`.
use vstd::prelude::*;

use crate::lower::{Fault, FaultView, outcome, parse_source, parsed};
use crate::order::{
    gather, lemma_gather_contains, lemma_gather_split, only_if, put, viewed,
};
use crate::tape::{Kind, Node, NodeView};
use crate::text::{
    at, at_chars, cat2, cat3, chars_of, debug, debug_text, ends, ends_with, join, joined,
    lemma_parts, lemma_parts_between, lemma_parts_longer, lines, owned, parts, same, string_of,
};

verus! {

// ---------------------------------------------------------------------------
// The enum of the routes
// ---------------------------------------------------------------------------

/// Node `a` is an attribute of node `i` whose path is `name`.
pub open spec fn plain_attr(t: Seq<NodeView>, a: int, i: int, name: Seq<char>) -> bool {
    &&& 0 <= a < t.len()
    &&& t[a].kind == Kind::Attr
    &&& t[a].parent == i
    &&& t[a].flag
    &&& t[a].name == name
}

fn is_plain_attr(t: &Vec<Node>, a: usize, i: usize, name: &str) -> (r: bool)
    ensures
        r == plain_attr(t.deep_view(), a as int, i as int, name@),
{
    if a >= t.len() {
        return false;
    }
    assert(t.deep_view()[a as int] == t@[a as int].deep_view());
    t[a].kind == Kind::Attr && t[a].parent == i && t[a].flag && same(t[a].name.as_str(), name)
}

/// Node `d` is `name` in a `derive` on node `i`.
pub open spec fn derived(t: Seq<NodeView>, d: int, i: int, name: Seq<char>) -> bool {
    &&& t[d].kind == Kind::Derive
    &&& t[d].flag
    &&& t[d].name == name
    &&& plain_attr(t, t[d].parent as int, i, "derive"@)
}

/// Node `i` derives `name`.
pub open spec fn derives(t: Seq<NodeView>, i: int, name: Seq<char>) -> bool {
    exists|d: int| 0 <= d < t.len() && derived(t, d, i, name)
}

/// Whether the item at `i` derives `target`.
pub fn has_derive(t: &Vec<Node>, i: usize, target: &str) -> (r: bool)
    ensures
        r == derives(t.deep_view(), i as int, target@),
{
    let mut d: usize = 0;
    while d < t.len()
        invariant
            d <= t.len(),
            forall|k: int| 0 <= k < d ==> !derived(t.deep_view(), k, i as int, target@),
        decreases t.len() - d,
    {
        assert(t.deep_view()[d as int] == t@[d as int].deep_view());
        if t[d].kind == Kind::Derive && t[d].flag && same(t[d].name.as_str(), target)
            && is_plain_attr(t, t[d].parent, i, "derive") {
            assert(derived(t.deep_view(), d as int, i as int, target@));
            return true;
        }
        d += 1;
    }
    false
}

/// Node `i` is an enum at the top level that derives `Routable`.
pub open spec fn routable(t: Seq<NodeView>, i: int) -> bool {
    t[i].kind == Kind::Enum && t[i].parent == 0 && derives(t, i, "Routable"@)
}

/// The first such enum from node `i` on.
pub open spec fn routable_from(t: Seq<NodeView>, i: int) -> Option<int>
    decreases t.len() - i,
{
    if i < 0 || i >= t.len() {
        None
    } else if routable(t, i) {
        Some(i)
    } else {
        routable_from(t, i + 1)
    }
}

pub fn find_routable_enum(t: &Vec<Node>) -> (r: Option<usize>)
    ensures
        match r {
            Some(i) => routable_from(t.deep_view(), 0) == Some(i as int) && i < t.len(),
            None => routable_from(t.deep_view(), 0) is None,
        },
{
    let mut i: usize = 0;
    while i < t.len()
        invariant
            i <= t.len(),
            routable_from(t.deep_view(), 0) == routable_from(t.deep_view(), i as int),
        decreases t.len() - i,
    {
        assert(t.deep_view()[i as int] == t@[i as int].deep_view());
        if t[i].kind == Kind::Enum && t[i].parent == 0 && has_derive(t, i, "Routable") {
            return Some(i);
        }
        i += 1;
    }
    None
}

/// Node `k` is the string of an attribute `route` on node `v`.
pub open spec fn route_string(t: Seq<NodeView>, k: int, v: int) -> bool {
    t[k].kind == Kind::AttrStr && plain_attr(t, t[k].parent as int, v, "route"@)
}

/// The path of variant `v`: the first such string from node `k` on.
pub open spec fn route_path_from(t: Seq<NodeView>, v: int, k: int) -> Option<Seq<char>>
    decreases t.len() - k,
{
    if k < 0 || k >= t.len() {
        None
    } else if route_string(t, k, v) {
        Some(t[k].name)
    } else {
        route_path_from(t, v, k + 1)
    }
}

pub open spec fn route_path(t: Seq<NodeView>, v: int) -> Option<Seq<char>> {
    route_path_from(t, v, 0)
}

/// The path in the attribute `#[route("...")]` of the variant at `v`.
pub fn variant_route_path(t: &Vec<Node>, v: usize) -> (r: Option<String>)
    ensures
        r.deep_view() == route_path(t.deep_view(), v as int),
{
    let mut k: usize = 0;
    while k < t.len()
        invariant
            k <= t.len(),
            route_path(t.deep_view(), v as int) == route_path_from(
                t.deep_view(),
                v as int,
                k as int,
            ),
        decreases t.len() - k,
    {
        assert(t.deep_view()[k as int] == t@[k as int].deep_view());
        if t[k].kind == Kind::AttrStr && is_plain_attr(t, t[k].parent, v, "route") {
            return Some(owned(t[k].name.as_str()));
        }
        k += 1;
    }
    None
}

/// Node `v` is a variant of the enum at `e`.
pub open spec fn variant(t: Seq<NodeView>, v: int, e: int) -> bool {
    t[v].kind == Kind::Variant && t[v].parent == e
}

// ---------------------------------------------------------------------------
// The routes there are
// ---------------------------------------------------------------------------

pub open spec fn route_at(t: Seq<NodeView>, e: int) -> spec_fn(int) -> Seq<(Seq<char>, Seq<char>)> {
    |v: int|
        match route_path(t, v) {
            Some(p) => only_if(variant(t, v, e), (t[v].name, p)),
            None => Seq::empty(),
        }
}

/// Each variant with a path, and that path.
pub open spec fn routes(file: Result<Seq<NodeView>, FaultView>) -> Seq<(Seq<char>, Seq<char>)> {
    match file {
        Ok(t) => match routable_from(t, 0) {
            Some(e) => gather(0, t.len() as int, route_at(t, e)),
            None => Seq::empty(),
        },
        Err(_) => Seq::empty(),
    }
}

/// The routes in a parsed file.
pub fn routes_in(file: &Result<Vec<Node>, Fault>) -> (r: Vec<(String, String)>)
    ensures
        r.deep_view() == routes(outcome(*file)),
{
    let mut out: Vec<(String, String)> = Vec::new();
    assert(out.deep_view() =~= Seq::<(Seq<char>, Seq<char>)>::empty());
    match file {
        Ok(t) => match find_routable_enum(t) {
            Some(e) => {
                let mut v: usize = 0;
                while v < t.len()
                    invariant
                        v <= t.len(),
                        out.deep_view() == gather(0, v as int, route_at(t.deep_view(), e as int)),
                    decreases t.len() - v,
                {
                    assert(t.deep_view()[v as int] == t@[v as int].deep_view());
                    if t[v].kind == Kind::Variant && t[v].parent == e {
                        match variant_route_path(t, v) {
                            Some(p) => put(&mut out, (owned(t[v].name.as_str()), p)),
                            None => {},
                        }
                    }
                    v += 1;
                }
            },
            None => {},
        },
        Err(_) => {},
    }
    out
}

/// The variants of the enum that derives `Routable` in `router_src`, each with
/// its path. Nothing where the text does not parse or has no such enum.
pub fn existing_route_paths(router_src: &str) -> (r: Vec<(String, String)>)
    ensures
        r.deep_view() == routes(parsed(router_src@)),
{
    routes_in(&parse_source(router_src))
}

// ---------------------------------------------------------------------------
// A new route
// ---------------------------------------------------------------------------

pub open spec fn unparsed(message: Seq<char>) -> Seq<char> {
    "parse: "@
        + message
}

fn unparsed_of(message: &str) -> (r: String)
    ensures
        r@ == unparsed(message@),
{
    let mut s = owned("parse: ");
    s.append(message);
    s
}

pub open spec fn remapped(name: Seq<char>, mapped: Seq<char>, path: Seq<char>) -> Seq<char> {
    "route conflict: variant "@
        + name
        + " already maps to "@
        + mapped
        + ", not "@
        + path
}

fn remapped_of(name: &str, mapped: &str, path: &str) -> (r: String)
    ensures
        r@ == remapped(name@, mapped@, path@),
{
    let mut s = owned("route conflict: variant ");
    s.append(name);
    s.append(" already maps to ");
    s.append(mapped);
    s.append(", not ");
    s.append(path);
    s
}

pub open spec fn unrouted(name: Seq<char>, enum_name: Seq<char>) -> Seq<char> {
    "variant "@
        + name
        + " already exists in "@
        + enum_name
        + " but has no #[route(\"...\")] attribute"@
}

fn unrouted_of(name: &str, enum_name: &str) -> (r: String)
    ensures
        r@ == unrouted(name@, enum_name@),
{
    let mut s = owned("variant ");
    s.append(name);
    s.append(" already exists in ");
    s.append(enum_name);
    s.append(" but has no #[route(\"...\")] attribute");
    s
}

pub open spec fn shadowed(path: Seq<char>, other: Seq<char>, enum_name: Seq<char>) -> Seq<char> {
    "route conflict: path "@
        + path
        + " is already mapped by variant "@
        + other
        + " in "@
        + enum_name
        + "; rename one or change the path before re-running"@
}

fn shadowed_of(path: &str, other: &str, enum_name: &str) -> (r: String)
    ensures
        r@ == shadowed(path@, other@, enum_name@),
{
    let mut s = owned("route conflict: path ");
    s.append(path);
    s.append(" is already mapped by variant ");
    s.append(other);
    s.append(" in ");
    s.append(enum_name);
    s.append("; rename one or change the path before re-running");
    s
}

pub open spec fn unlocated(enum_name: Seq<char>) -> Seq<char> {
    "could not locate `enum "@
        + enum_name
        + "` in source"@
}

fn unlocated_of(enum_name: &str) -> (r: String)
    ensures
        r@ == unlocated(enum_name@),
{
    let mut s = owned("could not locate `enum ");
    s.append(enum_name);
    s.append("` in source");
    s
}

pub open spec fn field(name: Seq<char>, ty: Seq<char>) -> Seq<char> {
    name
        + ": "@
        + ty
}

fn field_of(name: &str, ty: &str) -> (r: String)
    ensures
        r@ == field(name@, ty@),
{
    let mut s = owned(name);
    s.append(": ");
    s.append(ty);
    s
}

/// A variant as it is written.
pub open spec fn variant_text(path: Seq<char>, name: Seq<char>, fields: Seq<char>) -> Seq<char> {
    "    #[route(\""@
        + path
        + "\")]\n    "@
        + name
        + " {"@
        + fields
        + "},\n"@
}

fn variant_text_of(path: &str, name: &str, fields: &str) -> (r: String)
    ensures
        r@ == variant_text(path@, name@, fields@),
{
    let mut s = owned("    #[route(\"");
    s.append(path);
    s.append("\")]\n    ");
    s.append(name);
    s.append(" {");
    s.append(fields);
    s.append("},\n");
    s
}

/// What the variants from node `v` on say of a route: that it is there already,
/// that it conflicts, or nothing.
pub open spec fn judged(
    t: Seq<NodeView>,
    e: int,
    name: Seq<char>,
    path: Seq<char>,
    v: int,
) -> Option<Result<(), Seq<char>>>
    decreases t.len() - v,
{
    if v < 0 || v >= t.len() {
        None
    } else if !variant(t, v, e) {
        judged(t, e, name, path, v + 1)
    } else if t[v].name == name {
        Some(
            match route_path(t, v) {
                Some(p) => {
                    if p == path {
                        Ok(())
                    } else {
                        Err(remapped(name, debug_text(p), debug_text(path)))
                    }
                },
                None => Err(unrouted(name, t[e].name)),
            },
        )
    } else if route_path(t, v) == Some(path) {
        Some(Err(shadowed(debug_text(path), t[v].name, t[e].name)))
    } else {
        judged(t, e, name, path, v + 1)
    }
}

fn judge_variant(
    t: &Vec<Node>,
    e: usize,
    name: &str,
    path: &str,
    v: usize,
) -> (r: Option<Result<(), String>>)
    requires
        v < t.len(),
        e < t.len(),
        variant(t.deep_view(), v as int, e as int),
    ensures
        match r {
            Some(x) => Some(viewed(x)) == judged(
                t.deep_view(),
                e as int,
                name@,
                path@,
                v as int,
            ),
            None => judged(t.deep_view(), e as int, name@, path@, v as int) == judged(
                t.deep_view(),
                e as int,
                name@,
                path@,
                v + 1,
            ),
        },
{
    assert(t.deep_view()[v as int] == t@[v as int].deep_view());
    assert(t.deep_view()[e as int] == t@[e as int].deep_view());
    let mapped = variant_route_path(t, v);
    if same(t[v].name.as_str(), name) {
        let x = match mapped {
            Some(p) => {
                if same(p.as_str(), path) {
                    Ok(())
                } else {
                    Err(remapped_of(name, debug(p.as_str()).as_str(), debug(path).as_str()))
                }
            },
            None => Err(unrouted_of(name, t[e].name.as_str())),
        };
        return Some(x);
    }
    match mapped {
        Some(p) => {
            if same(p.as_str(), path) {
                Some(
                    Err(
                        shadowed_of(
                            debug(path).as_str(),
                            t[v].name.as_str(),
                            t[e].name.as_str(),
                        ),
                    ),
                )
            } else {
                None
            }
        },
        None => None,
    }
}

fn judge(t: &Vec<Node>, e: usize, name: &str, path: &str) -> (r: Option<Result<(), String>>)
    requires
        e < t.len(),
    ensures
        match r {
            Some(x) => Some(viewed(x)) == judged(t.deep_view(), e as int, name@, path@, 0),
            None => judged(t.deep_view(), e as int, name@, path@, 0) is None,
        },
{
    let mut v: usize = 0;
    while v < t.len()
        invariant
            v <= t.len(),
            e < t.len(),
            judged(t.deep_view(), e as int, name@, path@, 0) == judged(
                t.deep_view(),
                e as int,
                name@,
                path@,
                v as int,
            ),
        decreases t.len() - v,
    {
        assert(t.deep_view()[v as int] == t@[v as int].deep_view());
        if t[v].kind == Kind::Variant && t[v].parent == e {
            match judge_variant(t, e, name, path, v) {
                Some(x) => return Some(x),
                None => {},
            }
        }
        v += 1;
    }
    None
}

pub open spec fn field_at(params: Seq<(Seq<char>, Seq<char>)>) -> spec_fn(int) -> Seq<Seq<char>> {
    |k: int| seq![field(params[k].0, params[k].1)]
}

/// The fields of a variant as they stand between its braces.
pub open spec fn fields(params: Seq<(Seq<char>, Seq<char>)>) -> Seq<char> {
    if params.len() == 0 {
        Seq::empty()
    } else {
        " "@ + joined(gather(0, params.len() as int, field_at(params)), ", "@) + " "@
    }
}

fn fields_of(params: &Vec<(String, String)>) -> (r: String)
    ensures
        r@ == fields(params.deep_view()),
{
    if params.len() == 0 {
        return String::new();
    }
    let mut out: Vec<String> = Vec::new();
    let mut k: usize = 0;
    while k < params.len()
        invariant
            k <= params.len(),
            out.deep_view() == gather(0, k as int, field_at(params.deep_view())),
        decreases params.len() - k,
    {
        assert(params.deep_view()[k as int] == params@[k as int].deep_view());
        put(&mut out, field_of(params[k].0.as_str(), params[k].1.as_str()));
        assert(out.deep_view() =~= gather(0, k as int, field_at(params.deep_view())) + field_at(
            params.deep_view(),
        )(k as int));
        k += 1;
    }
    cat3(" ", join(&out, ", ").as_str(), " ")
}

// ---------------------------------------------------------------------------
// Where it goes
// ---------------------------------------------------------------------------

/// The first place from `i` on at which `p` stands in `s`.
pub open spec fn place(s: Seq<char>, p: Seq<char>, i: int) -> Option<int>
    decreases s.len() + 1 - i,
{
    if i < 0 || i > s.len() {
        None
    } else if at(s, p, i) {
        Some(i)
    } else {
        place(s, p, i + 1)
    }
}

fn place_of(s: &Vec<char>, p: &Vec<char>, from: usize) -> (r: Option<usize>)
    requires
        from <= s.len(),
    ensures
        match r {
            Some(i) => place(s@, p@, from as int) == Some(i as int) && from <= i && at(
                s@,
                p@,
                i as int,
            ) && i + p@.len() <= s@.len(),
            None => place(s@, p@, from as int) is None,
        },
{
    let mut i: usize = from;
    while i < s.len()
        invariant
            from <= i <= s.len(),
            place(s@, p@, from as int) == place(s@, p@, i as int),
        decreases s.len() - i,
    {
        if at_chars(s, p, i) {
            return Some(i);
        }
        i += 1;
    }
    if at_chars(s, p, i) {
        return Some(i);
    }
    assert(place(s@, p@, s@.len() as int + 1) is None);
    None
}

/// The place from `i` on of the `}` that closes the braces open at depth `depth`.
pub open spec fn closing(s: Seq<char>, i: int, depth: nat) -> Option<int>
    decreases s.len() - i,
{
    if i < 0 || i >= s.len() {
        None
    } else if s[i] == '{' {
        closing(s, i + 1, depth + 1)
    } else if s[i] == '}' {
        if depth <= 1 {
            Some(i)
        } else {
            closing(s, i + 1, (depth - 1) as nat)
        }
    } else {
        closing(s, i + 1, depth)
    }
}

/// The end of what the brace before `from` opens; `from` where it never closes.
pub open spec fn closed_at(s: Seq<char>, from: int) -> int {
    match closing(s, from, 1) {
        Some(i) => i,
        None => from,
    }
}

fn closing_of(s: &Vec<char>, from: usize) -> (r: usize)
    requires
        0 < from <= s.len(),
    ensures
        r == closed_at(s@, from as int),
        from <= r <= s.len(),
{
    let mut depth: usize = 1;
    let mut i: usize = from;
    while i < s.len()
        invariant
            0 < from <= i <= s.len(),
            1 <= depth <= 1 + (i - from),
            closing(s@, from as int, 1) == closing(s@, i as int, depth as nat),
        decreases s.len() - i,
    {
        let c = s[i];
        if c == '{' {
            depth += 1;
        } else if c == '}' {
            if depth == 1 {
                return i;
            }
            depth -= 1;
        }
        i += 1;
    }
    from
}

/// How often `c` stands in `s`.
pub open spec fn occurrences(s: Seq<char>, c: char) -> nat
    decreases s.len(),
{
    if s.len() == 0 {
        0
    } else if s.last() == c {
        occurrences(s.drop_last(), c) + 1
    } else {
        occurrences(s.drop_last(), c)
    }
}

fn count_char(s: &Vec<char>, c: char) -> (r: usize)
    ensures
        r == occurrences(s@, c),
        r <= s.len(),
{
    let mut n: usize = 0;
    let mut i: usize = 0;
    while i < s.len()
        invariant
            n <= i <= s.len(),
            n == occurrences(s@.take(i as int), c),
        decreases s.len() - i,
    {
        assert(s@.take(i + 1).drop_last() =~= s@.take(i as int));
        if s[i] == c {
            n += 1;
        }
        i += 1;
    }
    assert(s@.take(i as int) =~= s@);
    n
}

/// What becomes of the router's file.
#[derive(Debug)]
pub enum RouteInsertion {
    /// The variant is there and has that path.
    AlreadyMatches,
    /// The new text, and the line in it, counted from 1, of the new attribute.
    Insert { new_src: String, line: usize },
}

pub ghost enum RouteInsertionView {
    AlreadyMatches,
    Insert { new_src: Seq<char>, line: nat },
}

impl DeepView for RouteInsertion {
    type V = RouteInsertionView;

    open spec fn deep_view(&self) -> RouteInsertionView {
        match self {
            RouteInsertion::AlreadyMatches => RouteInsertionView::AlreadyMatches,
            RouteInsertion::Insert { new_src, line } => RouteInsertionView::Insert {
                new_src: new_src@,
                line: *line as nat,
            },
        }
    }
}

/// What stands before the new variant: the text up to the end of the enum, on
/// lines of its own.
pub open spec fn lead(src: Seq<char>, end: int) -> Seq<char> {
    let before = src.take(end);
    if ends(before, "\n"@) {
        before
    } else {
        before + "\n"@
    }
}

/// `src` with `added` before place `end`.
pub open spec fn inserted_at(src: Seq<char>, end: int, added: Seq<char>) -> RouteInsertionView {
    RouteInsertionView::Insert {
        new_src: lead(src, end) + added + src.skip(end),
        line: occurrences(lead(src, end), '\n') + 1,
    }
}

/// `src` with `added` at the end of the enum `enum_name`.
pub open spec fn placed(
    src: Seq<char>,
    enum_name: Seq<char>,
    added: Seq<char>,
) -> Result<RouteInsertionView, Seq<char>> {
    match place(src, "enum "@ + enum_name, 0) {
        None => Err(unlocated(enum_name)),
        Some(start) => match place(src, "{"@, start) {
            None => Err("malformed enum"@),
            Some(open) => Ok(inserted_at(src, closed_at(src, open + 1), added)),
        },
    }
}

/// Puts `added` at the end of the enum `enum_name` in `src`.
pub fn place_variant(src: &str, enum_name: &str, added: &str) -> (r: Result<RouteInsertion, String>)
    ensures
        viewed(r) == placed(src@, enum_name@, added@),
{
    let s = chars_of(src);
    let start = match place_of(&s, &chars_of(cat2("enum ", enum_name).as_str()), 0) {
        Some(i) => i,
        None => return Err(unlocated_of(enum_name)),
    };
    let brace = chars_of("{");
    proof {
        reveal_strlit("{");
    }
    assert(brace@.len() == 1);
    let open = match place_of(&s, &brace, start) {
        Some(i) => i,
        None => return Err(owned("malformed enum")),
    };
    assert(at(s@, brace@, open as int));
    assert(open < s.len());
    let end = closing_of(&s, open + 1);
    let mut text = string_of(&s, 0, end);
    assert(text@ =~= src@.take(end as int));
    proof {
        reveal_strlit("\n");
    }
    if !ends_with(text.as_str(), "\n") {
        text.append("\n");
    }
    let before = chars_of(text.as_str());
    let line = count_char(&before, '\n');
    proof {
        assert(s@.subrange(open as int, open + 1)[0] == '{');
        assert(text@[open as int] == '{');
        lemma_occurrences(text@, '\n', open as int);
    }
    text.append(added);
    let rest = string_of(&s, end, s.len());
    assert(rest@ =~= src@.skip(end as int));
    text.append(rest.as_str());
    Ok(RouteInsertion::Insert { new_src: text, line: line + 1 })
}

/// A text that holds something else holds `c` fewer times than it has characters.
proof fn lemma_occurrences(s: Seq<char>, c: char, k: int)
    ensures
        occurrences(s, c) <= s.len(),
        0 <= k < s.len() && s[k] != c ==> occurrences(s, c) < s.len(),
    decreases s.len(),
{
    if s.len() > 0 {
        lemma_occurrences(s.drop_last(), c, k);
    }
}

// ---------------------------------------------------------------------------
// The plan
// ---------------------------------------------------------------------------

/// What a route of the variant `name` for `path` makes of the file `src`, which
/// parses as `file`.
pub open spec fn planned(
    file: Result<Seq<NodeView>, FaultView>,
    src: Seq<char>,
    name: Seq<char>,
    path: Seq<char>,
    params: Seq<(Seq<char>, Seq<char>)>,
) -> Result<RouteInsertionView, Seq<char>> {
    match file {
        Err(f) => Err(unparsed(f.message)),
        Ok(t) => match routable_from(t, 0) {
            None => Err("no `#[derive(Routable)]` enum in source"@),
            Some(e) => match judged(t, e, name, path, 0) {
                Some(Ok(_)) => Ok(RouteInsertionView::AlreadyMatches),
                Some(Err(message)) => Err(message),
                None => placed(src, t[e].name, variant_text(path, name, fields(params))),
            },
        },
    }
}

/// Plans a route in a file that is parsed already.
pub fn plan_route(
    file: &Result<Vec<Node>, Fault>,
    src: &str,
    variant_name: &str,
    path: &str,
    params: &Vec<(String, String)>,
) -> (r: Result<RouteInsertion, String>)
    ensures
        viewed(r) == planned(
            outcome(*file),
            src@,
            variant_name@,
            path@,
            params.deep_view(),
        ),
{
    let t = match file {
        Ok(t) => t,
        Err(f) => return Err(unparsed_of(f.message.as_str())),
    };
    let e = match find_routable_enum(t) {
        Some(e) => e,
        None => return Err(owned("no `#[derive(Routable)]` enum in source")),
    };
    assert(t.deep_view()[e as int] == t@[e as int].deep_view());
    match judge(t, e, variant_name, path) {
        Some(Ok(_)) => Ok(RouteInsertion::AlreadyMatches),
        Some(Err(message)) => Err(message),
        None => {
            let added = variant_text_of(path, variant_name, fields_of(params).as_str());
            place_variant(src, t[e].name.as_str(), added.as_str())
        },
    }
}

/// Decides what a route of the variant `variant_name` for `path` makes of the
/// source `src`. A variant of that name with that path is left alone; one with
/// another path, and another variant with that path, are conflicts. Otherwise the
/// variant goes before the closing brace of the enum that derives `Routable`.
pub fn plan_route_insertion(
    src: &str,
    variant_name: &str,
    path: &str,
    params: &Vec<(String, String)>,
) -> (r: Result<RouteInsertion, String>)
    ensures
        viewed(r) == planned(
            parsed(src@),
            src@,
            variant_name@,
            path@,
            params.deep_view(),
        ),
{
    plan_route(&parse_source(src), src, variant_name, path, params)
}

// ---------------------------------------------------------------------------
// Laws
// ---------------------------------------------------------------------------

proof fn lemma_place(s: Seq<char>, p: Seq<char>, i: int)
    requires
        0 <= i,
    ensures
        place(s, p, i) matches Some(k) ==> i <= k && at(s, p, k),
    decreases s.len() + 1 - i,
{
    if i <= s.len() && !at(s, p, i) {
        lemma_place(s, p, i + 1);
    }
}

proof fn lemma_closing(s: Seq<char>, i: int, depth: nat)
    requires
        0 <= i,
    ensures
        closing(s, i, depth) matches Some(k) ==> i <= k < s.len() && s[k] == '}',
    decreases s.len() - i,
{
    if i < s.len() {
        if s[i] == '{' {
            lemma_closing(s, i + 1, depth + 1);
        } else if s[i] == '}' {
            if depth > 1 {
                lemma_closing(s, i + 1, (depth - 1) as nat);
            }
        } else {
            lemma_closing(s, i + 1, depth);
        }
    }
}

/// An insertion keeps the text: the new text is the old one with the added text,
/// and at most one line feed, at one place. The line that is reported is that of
/// the added text, which starts it.
pub proof fn law_insertion_keeps(src: Seq<char>, enum_name: Seq<char>, added: Seq<char>)
    ensures
        match placed(src, enum_name, added) {
            Ok(RouteInsertionView::Insert { new_src, line }) => exists|end: int|
                {
                    let start = (#[trigger] lead(src, end)).len() as int;
                    &&& 0 <= end <= src.len()
                    &&& new_src.take(end) == src.take(end)
                    &&& end <= start <= end + 1
                    &&& new_src.subrange(start, start + added.len()) == added
                    &&& new_src.skip(start + added.len()) == src.skip(end)
                    &&& start > 0 && new_src[start - 1] == '\n'
                    &&& line == occurrences(new_src.take(start), '\n') + 1
                },
            Ok(RouteInsertionView::AlreadyMatches) => false,
            Err(_) => true,
        },
{
    match place(src, "enum "@ + enum_name, 0) {
        None => {},
        Some(first) => {
            lemma_place(src, "enum "@ + enum_name, 0);
            match place(src, "{"@, first) {
                None => {},
                Some(open) => {
                    lemma_place(src, "{"@, first);
                    reveal_strlit("{");
                    reveal_strlit("\n");
                    lemma_closing(src, open + 1, 1);
                    let end = closed_at(src, open + 1);
                    let before = src.take(end);
                    let start = lead(src, end).len() as int;
                    let new = lead(src, end) + added + src.skip(end);
                    if ends(before, "\n"@) {
                        assert(before.subrange(before.len() - 1, before.len() as int)[0]
                            == before.last());
                    }
                    assert(new.take(end) =~= src.take(end));
                    assert(new.take(start) =~= lead(src, end));
                    assert(new.subrange(start, start + added.len()) =~= added);
                    assert(new.skip(start + added.len()) =~= src.skip(end));
                    assert(new[start - 1] == lead(src, end).last());
                },
            }
        },
    }
}

/// A text has one part more than it has separators.
proof fn lemma_separators(s: Seq<char>, c: char)
    ensures
        parts(s, c).len() == occurrences(s, c) + 1,
    decreases s.len(),
{
    if s.len() > 0 {
        lemma_parts(s.drop_last(), c);
        lemma_separators(s.drop_last(), c);
    }
}

/// The line that is reported for an insertion is that of the new attribute.
pub proof fn law_inserted_line(
    file: Result<Seq<NodeView>, FaultView>,
    src: Seq<char>,
    name: Seq<char>,
    path: Seq<char>,
    params: Seq<(Seq<char>, Seq<char>)>,
)
    requires
        !path.contains('\n'),
    ensures
        match planned(file, src, name, path, params) {
            Ok(RouteInsertionView::Insert { new_src, line }) => {
                &&& 1 <= line <= lines(new_src).len()
                &&& lines(new_src)[line - 1] == "    #[route(\""@ + path + "\")]"@
            },
            _ => true,
        },
{
    match planned(file, src, name, path, params) {
        Ok(RouteInsertionView::Insert { new_src, line }) => {
            let t = file->Ok_0;
            let e = routable_from(t, 0).unwrap();
            let start = place(src, "enum "@ + t[e].name, 0).unwrap();
            let end = closed_at(src, place(src, "{"@, start).unwrap() + 1);
            let added = variant_text(path, name, fields(params));
            let before = lead(src, end);
            assert(new_src == before + added + src.skip(end));
            reveal_strlit("\n");
            reveal_strlit("    #[route(\"");
            reveal_strlit("\")]");
            reveal_strlit("\")]\n    ");
            assert(before.len() > 0 && before.last() == '\n') by {
                let b = src.take(end);
                if ends(b, "\n"@) {
                    assert(b.subrange(b.len() - 1, b.len() as int)[0] == b.last());
                }
            }
            let head = before.drop_last();
            let first = "    #[route(\""@ + path + "\")]"@;
            let more = "    "@ + name + " {"@ + fields(params) + "},\n"@ + src.skip(end);
            reveal_strlit("    ");
            assert("\")]\n    "@ =~= "\")]"@ + seq!['\n'] + "    "@);
            let rest = added + src.skip(end);
            assert(rest =~= first + seq!['\n'] + more);
            assert(new_src =~= head + seq!['\n'] + rest);
            lemma_parts_between(head, rest, '\n');
            lemma_parts_between(first, more, '\n');
            lemma_parts(more, '\n');
            lemma_separators(head, '\n');
            assert(!first.contains('\n')) by {
                if first.contains('\n') {
                    let k = choose|k: int| 0 <= k < first.len() && first[k] == '\n';
                    let n = "    #[route(\""@.len() as int;
                    if n <= k < n + path.len() {
                        assert(path[k - n] == '\n');
                    }
                }
            }
            let none = Seq::<char>::empty();
            lemma_parts_longer(none, first, '\n');
            assert(none + first =~= first);
            assert(parts(first, '\n') =~= seq![first]);
            let p = parts(new_src, '\n');
            assert(p[line - 1] == first);
            assert(first.last() == ']');
        },
        _ => {},
    }
}

/// A route that is there is not added again: where the first variant that has
/// its name or its path has both, the plan says that it matches.
pub proof fn law_planned_again(
    t: Seq<NodeView>,
    e: int,
    v: int,
    src: Seq<char>,
    name: Seq<char>,
    path: Seq<char>,
    params: Seq<(Seq<char>, Seq<char>)>,
)
    requires
        routable_from(t, 0) == Some(e),
        0 <= v < t.len(),
        variant(t, v, e),
        t[v].name == name,
        route_path(t, v) == Some(path),
        forall|u: int|
            0 <= u < v && #[trigger] variant(t, u, e) ==> t[u].name != name && route_path(t, u)
                != Some(path),
    ensures
        planned(Ok(t), src, name, path, params) == Ok::<RouteInsertionView, Seq<char>>(
            RouteInsertionView::AlreadyMatches,
        ),
{
    lemma_judged_at(t, e, name, path, 0, v);
}

proof fn lemma_judged_at(
    t: Seq<NodeView>,
    e: int,
    name: Seq<char>,
    path: Seq<char>,
    from: int,
    v: int,
)
    requires
        0 <= from <= v < t.len(),
        variant(t, v, e),
        t[v].name == name,
        route_path(t, v) == Some(path),
        forall|u: int|
            from <= u < v && #[trigger] variant(t, u, e) ==> t[u].name != name && route_path(t, u)
                != Some(path),
    ensures
        judged(t, e, name, path, from) == Some(Ok::<(), Seq<char>>(())),
    decreases v - from,
{
    if from < v {
        assert(variant(t, from, e) ==> t[from].name != name);
        lemma_judged_at(t, e, name, path, from + 1, v);
    }
}

pub open spec fn declared_at(t: Seq<NodeView>, e: int) -> spec_fn(int) -> Seq<
    (Seq<char>, Option<Seq<char>>),
> {
    |v: int| only_if(variant(t, v, e), (t[v].name, route_path(t, v)))
}

/// The variants of the enum that derives `Routable`, each with its path if it has
/// one.
pub open spec fn declared(file: Result<Seq<NodeView>, FaultView>) -> Option<
    Seq<(Seq<char>, Option<Seq<char>>)>,
> {
    match file {
        Ok(t) => match routable_from(t, 0) {
            Some(e) => Some(gather(0, t.len() as int, declared_at(t, e))),
            None => None,
        },
        Err(_) => None,
    }
}

/// Those of them that have a path.
pub open spec fn with_paths(vs: Seq<(Seq<char>, Option<Seq<char>>)>) -> Seq<
    (Seq<char>, Seq<char>),
>
    decreases vs.len(),
{
    if vs.len() == 0 {
        Seq::empty()
    } else {
        match vs.last().1 {
            Some(p) => with_paths(vs.drop_last()).push((vs.last().0, p)),
            None => with_paths(vs.drop_last()),
        }
    }
}

proof fn lemma_with_paths(t: Seq<NodeView>, e: int, n: int)
    ensures
        gather(0, n, route_at(t, e)) == with_paths(gather(0, n, declared_at(t, e))),
    decreases n,
{
    if n > 0 {
        lemma_with_paths(t, e, n - 1);
        let before = gather(0, n - 1, declared_at(t, e));
        let all = gather(0, n, declared_at(t, e));
        if variant(t, n - 1, e) {
            assert(all =~= before.push((t[n - 1].name, route_path(t, n - 1))));
            assert(all.drop_last() =~= before);
        } else {
            assert(all =~= before);
        }
        assert(gather(0, n, route_at(t, e)) =~= with_paths(all));
    }
}

/// A route that is put in is there. Where the new text declares the variants that
/// the old one did and the new one behind them, the routes in it are the old ones
/// and the new one, the line that is reported is that of the new attribute, and the
/// same plan again finds the route in place.
pub proof fn law_route_is_added(
    src: Seq<char>,
    new_src: Seq<char>,
    line: nat,
    name: Seq<char>,
    path: Seq<char>,
    params: Seq<(Seq<char>, Seq<char>)>,
)
    requires
        planned(parsed(src), src, name, path, params) == Ok::<RouteInsertionView, Seq<char>>(
            RouteInsertionView::Insert { new_src, line },
        ),
        !path.contains('\n'),
        declared(parsed(new_src)) == Some(declared(parsed(src)).unwrap().push((name, Some(path)))),
    ensures
        routes(parsed(new_src)) == routes(parsed(src)).push((name, path)),
        1 <= line <= lines(new_src).len(),
        lines(new_src)[line - 1] == "    #[route(\""@ + path + "\")]"@,
        planned(parsed(new_src), new_src, name, path, params) == Ok::<
            RouteInsertionView,
            Seq<char>,
        >(RouteInsertionView::AlreadyMatches),
{
    law_inserted_line(parsed(src), src, name, path, params);
    let t = parsed(src)->Ok_0;
    let e = routable_from(t, 0).unwrap();
    let u = parsed(new_src)->Ok_0;
    let f = routable_from(u, 0).unwrap();
    let n = u.len() as int;
    let new: (Seq<char>, Option<Seq<char>>) = (name, Some(path));
    let old = gather(0, t.len() as int, declared_at(t, e));
    let all = gather(0, n, declared_at(u, f));
    lemma_with_paths(t, e, t.len() as int);
    lemma_with_paths(u, f, n);
    assert(all.drop_last() =~= old);
    assert forall|x: (Seq<char>, Option<Seq<char>>)| #[trigger] old.contains(x) implies x.0 != name
        && x.1 != Some(path) by {
        lemma_gather_contains(0, t.len() as int, declared_at(t, e), x);
        let w = choose|w: int| 0 <= w < t.len() && (#[trigger] declared_at(t, e)(w)).contains(x);
        law_no_shadowing(t, e, name, path, 0, w);
    }
    assert(all[all.len() - 1] == new);
    lemma_gather_contains(0, n, declared_at(u, f), new);
    let v = choose|v: int| 0 <= v < n && (#[trigger] declared_at(u, f)(v)).contains(new);
    let before = gather(0, v, declared_at(u, f));
    lemma_gather_split(0, v, n, declared_at(u, f));
    lemma_gather_contains(v, n, declared_at(u, f), new);
    assert(before.len() < all.len());
    assert forall|w: int| 0 <= w < v && #[trigger] variant(u, w, f) implies u[w].name != name
        && route_path(u, w) != Some(path) by {
        let x = (u[w].name, route_path(u, w));
        assert(declared_at(u, f)(w)[0] == x);
        assert(declared_at(u, f)(w).contains(x));
        lemma_gather_contains(0, v, declared_at(u, f), x);
        let k = choose|k: int| 0 <= k < before.len() && before[k] == x;
        assert(all[k] == x);
        assert(old[k] == x);
        assert(old.contains(x));
    }
    law_planned_again(u, f, v, new_src, name, path, params);
}

/// No two variants are given one path: a plan inserts a variant only where none
/// has its name or its path.
pub proof fn law_no_shadowing(
    t: Seq<NodeView>,
    e: int,
    name: Seq<char>,
    path: Seq<char>,
    from: int,
    v: int,
)
    requires
        0 <= from <= v < t.len(),
        judged(t, e, name, path, from) is None,
        variant(t, v, e),
    ensures
        t[v].name != name,
        route_path(t, v) != Some(path),
    decreases t.len() - from,
{
    if from < v {
        law_no_shadowing(t, e, name, path, from + 1, v);
    }
}

/// In `text` from place `from` on, the params stand one after the other, each as
/// its name, a colon, a space and its type, with a comma and a space between two:
/// number `k` at `at[k]`, and the last one up to place `end`.
pub open spec fn lists(
    text: Seq<char>,
    from: int,
    end: int,
    params: Seq<(Seq<char>, Seq<char>)>,
    at: Seq<int>,
) -> bool {
    &&& at.len() == params.len() && params.len() > 0
    &&& at[0] == from && 0 <= from
    &&& end <= text.len()
    &&& forall|k: int|
        0 <= k < params.len() ==> {
            let entry = params[k].0 + ": "@ + params[k].1;
            let stop = #[trigger] at[k] + entry.len();
            &&& from <= at[k] && stop <= end
            &&& text.subrange(at[k], stop) == entry
            &&& if k + 1 < params.len() {
                stop + 2 <= end && text.subrange(stop, stop + 2) == ", "@ && at[k + 1] == stop + 2
            } else {
                stop == end
            }
        }
}

/// What a joined list of entries amounts to.
proof fn lemma_lists(
    params: Seq<(Seq<char>, Seq<char>)>,
    n: int,
    before: Seq<char>,
    after: Seq<char>,
) -> (at: Seq<int>)
    requires
        0 < n <= params.len(),
    ensures
        lists(
            before + joined(gather(0, n, field_at(params)), ", "@) + after,
            before.len() as int,
            (before.len() + joined(gather(0, n, field_at(params)), ", "@).len()) as int,
            params.take(n),
            at,
        ),
    decreases n,
{
    reveal_strlit(", ");
    let all = gather(0, n, field_at(params));
    let entry = params[n - 1].0 + ": "@ + params[n - 1].1;
    lemma_field_count(params, n);
    lemma_field_count(params, n - 1);
    assert(all == gather(0, n - 1, field_at(params)) + seq![field(params[n - 1].0, params[n - 1].1)]);
    assert(all.last() =~= entry);
    assert(all.drop_last() =~= gather(0, n - 1, field_at(params)));
    let text = before + joined(all, ", "@) + after;
    let end = (before.len() + joined(all, ", "@).len()) as int;
    if n == 1 {
        let at = seq![before.len() as int];
        assert(joined(all, ", "@) =~= entry);
        assert(text.subrange(before.len() as int, (before.len() + entry.len()) as int) =~= entry);
        assert(params.take(1)[0] == params[0]);
        at
    } else {
        let less = joined(all.drop_last(), ", "@);
        let tail = ", "@ + entry + after;
        assert(joined(all, ", "@) =~= less + ", "@ + entry);
        assert(text =~= before + less + tail);
        let prior = lemma_lists(params, n - 1, before, tail);
        let mid = (before.len() + less.len()) as int;
        let at = prior.push(mid + 2);
        assert(text.subrange(mid, mid + 2) =~= ", "@);
        assert(text.subrange(mid + 2, mid + 2 + entry.len()) =~= entry);
        assert(prior.len() == n - 1);
        assert forall|k: int| 0 <= k < n implies {
            let e = params.take(n)[k].0 + ": "@ + params.take(n)[k].1;
            let stop = #[trigger] at[k] + e.len();
            &&& before.len() <= at[k] && stop <= end
            &&& text.subrange(at[k], stop) == e
            &&& if k + 1 < n {
                stop + 2 <= end && text.subrange(stop, stop + 2) == ", "@ && at[k + 1] == stop + 2
            } else {
                stop == end
            }
        } by {
            if k < n - 1 {
                assert(at[k] == prior[k]);
                assert(params.take(n)[k] == params.take(n - 1)[k]);
                if k + 1 < n - 1 {
                    assert(at[k + 1] == prior[k + 1]);
                }
            }
        }
        assert(at[0] == prior[0]);
        at
    }
}

proof fn lemma_field_count(params: Seq<(Seq<char>, Seq<char>)>, n: int)
    requires
        0 <= n,
    ensures
        gather(0, n, field_at(params)).len() == n,
    decreases n,
{
    if n > 0 {
        lemma_field_count(params, n - 1);
    }
}

/// From place `start` on, `text` has the attribute with the path, the name, and
/// between the braces the params, which stand at the places `at` and end at `end`.
pub open spec fn has_variant(
    text: Seq<char>,
    name: Seq<char>,
    path: Seq<char>,
    params: Seq<(Seq<char>, Seq<char>)>,
    start: int,
    end: int,
    at: Seq<int>,
) -> bool {
    let head = "    #[route(\""@ + path + "\")]\n    "@ + name + " {"@;
    let open = start + head.len();
    &&& 0 <= start && open <= text.len()
    &&& text.subrange(start, open) == head
    &&& if params.len() == 0 {
        open + 3 <= text.len() && text.subrange(open, open + 3) == "},\n"@
    } else {
        &&& lists(text, open + 1, end, params, at)
        &&& text[open] == ' '
        &&& end + 4 <= text.len() && text.subrange(end, end + 4) == " },\n"@
    }
}

proof fn lemma_has_variant(
    before: Seq<char>,
    after: Seq<char>,
    name: Seq<char>,
    path: Seq<char>,
    params: Seq<(Seq<char>, Seq<char>)>,
)
    ensures
        ({
            let head = "    #[route(\""@ + path + "\")]\n    "@ + name + " {"@;
            let text = before + head + fields(params) + "},\n"@ + after;
            exists|start: int, end: int, at: Seq<int>| #[trigger]
                has_variant(text, name, path, params, start, end, at)
        }),
{
    let head = "    #[route(\""@ + path + "\")]\n    "@ + name + " {"@;
    let text = before + head + fields(params) + "},\n"@ + after;
    let start = before.len() as int;
    let open = start + head.len();
    reveal_strlit(" ");
    reveal_strlit("},\n");
    reveal_strlit(" },\n");
    assert(text.subrange(start, open) =~= head);
    if params.len() == 0 {
        assert(text.subrange(open, open + 3) =~= "},\n"@);
        let at = Seq::<int>::empty();
        assert(has_variant(text, name, path, params, start, 0, at));
    } else {
        let n = params.len() as int;
        let mid = joined(gather(0, n, field_at(params)), ", "@);
        let pre = before + head + " "@;
        let post = " },\n"@ + after;
        let at = lemma_lists(params, n, pre, post);
        assert(params.take(n) =~= params);
        assert(" },\n"@ =~= " "@ + "},\n"@);
        assert(text =~= pre + mid + post);
        let end = (pre.len() + mid.len()) as int;
        assert(text[open] == ' ');
        assert(text.subrange(end, end + 4) =~= " },\n"@);
        assert(lists(text, open + 1, end, params, at));
        assert(has_variant(text, name, path, params, start, end, at));
    }
}

/// The new variant has its name, its path and all its params: a plan that inserts
/// puts in the attribute, the name, and between the braces each param in order,
/// none left out and nothing else.
pub proof fn law_variant_has_params(
    file: Result<Seq<NodeView>, FaultView>,
    src: Seq<char>,
    name: Seq<char>,
    path: Seq<char>,
    params: Seq<(Seq<char>, Seq<char>)>,
)
    ensures
        match planned(file, src, name, path, params) {
            Ok(RouteInsertionView::Insert { new_src, line }) => exists|start: int, end: int, at: Seq<
                int,
            >| #[trigger] has_variant(new_src, name, path, params, start, end, at),
            _ => true,
        },
{
    match planned(file, src, name, path, params) {
        Ok(RouteInsertionView::Insert { new_src, line }) => {
            let t = file->Ok_0;
            let e = routable_from(t, 0).unwrap();
            let first = place(src, "enum "@ + t[e].name, 0).unwrap();
            let cut = closed_at(src, place(src, "{"@, first).unwrap() + 1);
            let before = lead(src, cut);
            let after = src.skip(cut);
            let head = "    #[route(\""@ + path + "\")]\n    "@ + name + " {"@;
            assert(new_src =~= before + head + fields(params) + "},\n"@ + after);
            lemma_has_variant(before, after, name, path, params);
        },
        _ => {},
    }
}

} // verus!
