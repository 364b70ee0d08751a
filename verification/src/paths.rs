//! Paths as text, with `/` between their parts.
use vstd::prelude::*;

use crate::order::{
    gather, is_strict_order, lemma_lex_total, lemma_lex_transitive, lemma_text_le, lex_le, only_if,
    put, text_le, text_leq,
};
use crate::text::{
    begins, cat2, cat3, ends, ends_with, join, joined, lemma_parts, lemma_parts_between, owned,
    parts, same, split, starts_with,
};

verus! {

// ---------------------------------------------------------------------------
// Components
// ---------------------------------------------------------------------------

/// Part `k` of a path says something: it stands first, or it is neither empty
/// nor a dot. An empty path says nothing.
pub open spec fn counts(ps: Seq<Seq<char>>, k: int) -> bool {
    if k == 0 {
        ps.len() > 1 || ps[0].len() > 0
    } else {
        ps[k].len() > 0 && ps[k] != "."@
    }
}

fn is_counted(ps: &Vec<String>, k: usize) -> (r: bool)
    requires
        k < ps.len(),
    ensures
        r == counts(ps.deep_view(), k as int),
{
    assert(ps.deep_view()[k as int] == ps@[k as int]@);
    if k == 0 {
        ps.len() > 1 || ps[0].as_str().unicode_len() > 0
    } else {
        ps[k].as_str().unicode_len() > 0 && !same(ps[k].as_str(), ".")
    }
}

pub open spec fn counted(ps: Seq<Seq<char>>) -> spec_fn(int) -> Seq<int> {
    |k: int| only_if(counts(ps, k), k)
}

/// The parts that say something.
pub open spec fn positions(ps: Seq<Seq<char>>) -> Seq<int> {
    gather(0, ps.len() as int, counted(ps))
}

fn positions_of(ps: &Vec<String>) -> (r: Vec<usize>)
    ensures
        r@.len() == positions(ps.deep_view()).len(),
        forall|n: int| 0 <= n < r@.len() ==> #[trigger] r@[n] == positions(ps.deep_view())[n],
        forall|n: int| 0 <= n < r@.len() ==> #[trigger] r@[n] < ps@.len(),
{
    let ghost v = ps.deep_view();
    let ghost rule = counted(v);
    let mut out: Vec<usize> = Vec::new();
    let mut k: usize = 0;
    while k < ps.len()
        invariant
            k <= ps.len(),
            v == ps.deep_view(),
            rule == counted(v),
            out@.len() == gather(0, k as int, rule).len(),
            forall|n: int|
                0 <= n < out@.len() ==> #[trigger] out@[n] == gather(0, k as int, rule)[n],
            forall|n: int| 0 <= n < out@.len() ==> #[trigger] out@[n] < k,
        decreases ps.len() - k,
    {
        if is_counted(ps, k) {
            out.push(k);
        }
        k += 1;
    }
    out
}

/// What part `k` stands for: itself, or the root where it is empty.
pub open spec fn component(ps: Seq<Seq<char>>, k: int) -> Seq<char> {
    if ps[k].len() == 0 {
        "/"@
    } else {
        ps[k]
    }
}

/// The components of a path: the root as `/`, a leading `.`, and the names.
/// Repeated and trailing separators and other dots leave none.
pub open spec fn components(path: Seq<char>) -> Seq<Seq<char>> {
    let ps = parts(path, '/');
    Seq::new(positions(ps).len(), |n: int| component(ps, positions(ps)[n]))
}

pub fn components_of(path: &str) -> (r: Vec<String>)
    ensures
        r.deep_view() == components(path@),
{
    let ps = split(path, '/');
    let at = positions_of(&ps);
    let mut out: Vec<String> = Vec::new();
    let mut n: usize = 0;
    while n < at.len()
        invariant
            n <= at.len(),
            ps.deep_view() == parts(path@, '/'),
            at@.len() == positions(ps.deep_view()).len(),
            forall|m: int| 0 <= m < at@.len() ==> #[trigger] at@[m] == positions(ps.deep_view())[m],
            forall|m: int| 0 <= m < at@.len() ==> #[trigger] at@[m] < ps@.len(),
            out.deep_view() =~= components(path@).take(n as int),
        decreases at.len() - n,
    {
        assert(ps.deep_view()[at@[n as int] as int] == ps@[at@[n as int] as int]@);
        if ps[at[n]].as_str().unicode_len() == 0 {
            put(&mut out, owned("/"));
        } else {
            put(&mut out, owned(ps[at[n]].as_str()));
        }
        n += 1;
    }
    assert(components(path@).take(n as int) =~= components(path@));
    out
}

/// `a` and `b` are the same path, as `Path` compares them.
pub open spec fn same_path(a: Seq<char>, b: Seq<char>) -> bool {
    components(a) == components(b)
}

pub fn is_same_path(a: &str, b: &str) -> (r: bool)
    ensures
        r == same_path(a@, b@),
{
    let x = components_of(a);
    let y = components_of(b);
    assert(x.deep_view().len() == x@.len() && y.deep_view().len() == y@.len());
    x.len() == y.len() && begins_with(&x, &y)
}

/// Whether the list `x` begins with `y`.
fn begins_with(x: &Vec<String>, y: &Vec<String>) -> (r: bool)
    ensures
        r == y.deep_view().is_prefix_of(x.deep_view()),
        r && x@.len() == y@.len() ==> x.deep_view() == y.deep_view(),
        !r ==> x.deep_view() != y.deep_view(),
{
    let ghost u = x.deep_view();
    let ghost v = y.deep_view();
    if x.len() < y.len() {
        return false;
    }
    let mut i: usize = 0;
    while i < y.len()
        invariant
            i <= y.len() <= x.len(),
            u == x.deep_view(),
            v == y.deep_view(),
            forall|k: int| 0 <= k < i ==> #[trigger] u[k] == v[k],
        decreases y.len() - i,
    {
        assert(u[i as int] == x@[i as int]@ && v[i as int] == y@[i as int]@);
        if !same(x[i].as_str(), y[i].as_str()) {
            assert(u.subrange(0, v.len() as int)[i as int] == u[i as int]);
            return false;
        }
        i += 1;
    }
    assert(v =~= u.subrange(0, v.len() as int));
    assert(x@.len() == y@.len() ==> u =~= v);
    true
}

/// `path` is `root`, or lies under it, as `Path::starts_with` has it.
pub open spec fn path_under(path: Seq<char>, root: Seq<char>) -> bool {
    components(root).is_prefix_of(components(path))
}

pub fn path_is_under(path: &str, root: &str) -> (r: bool)
    ensures
        r == path_under(path@, root@),
{
    begins_with(&components_of(path), &components_of(root))
}

// ---------------------------------------------------------------------------
// The order of paths
// ---------------------------------------------------------------------------

/// The root comes first, then `.`, then `..`, then names.
pub open spec fn class(c: Seq<char>) -> int {
    if c == "/"@ {
        0
    } else if c == "."@ {
        1
    } else if c == ".."@ {
        2
    } else {
        3
    }
}

fn class_of(c: &str) -> (r: u8)
    ensures
        r == class(c@),
{
    if same(c, "/") {
        0
    } else if same(c, ".") {
        1
    } else if same(c, "..") {
        2
    } else {
        3
    }
}

/// Component `a` comes before component `b`.
pub open spec fn component_order() -> spec_fn(Seq<char>, Seq<char>) -> bool {
    |a: Seq<char>, b: Seq<char>|
        class(a) < class(b) || (class(a) == class(b) && a != b && text_le(a, b))
}

proof fn lemma_component_order()
    ensures
        is_strict_order(component_order()),
{
    let lt = component_order();
    assert forall|c: Seq<char>, d: Seq<char>| c != d implies (#[trigger] lt(c, d) <==> !lt(d, c)) by {
        lemma_text_le(c, d, d);
    }
    assert forall|c: Seq<char>, d: Seq<char>, e: Seq<char>| #[trigger] lt(c, d) && #[trigger] lt(
        d,
        e,
    ) implies lt(c, e) by {
        lemma_text_le(c, d, e);
    }
}

/// `a` comes before `b`, or is the same path, in the order of paths: component
/// by component.
pub open spec fn path_le(a: Seq<char>, b: Seq<char>) -> bool {
    lex_le(components(a), components(b), component_order())
}

/// The order of paths is a total order.
pub proof fn lemma_path_le(a: Seq<char>, b: Seq<char>, c: Seq<char>)
    ensures
        path_le(a, b) || path_le(b, a),
        path_le(a, b) && path_le(b, a) ==> same_path(a, b),
        path_le(a, b) && path_le(b, c) ==> path_le(a, c),
{
    lemma_component_order();
    lemma_lex_total(components(a), components(b), component_order());
    if path_le(a, b) && path_le(b, c) {
        lemma_lex_transitive(components(a), components(b), components(c), component_order());
    }
}

/// Whether `a` does not come after `b` in the order of paths.
pub fn path_leq(a: &str, b: &str) -> (r: bool)
    ensures
        r == path_le(a@, b@),
{
    let x = components_of(a);
    let y = components_of(b);
    let ghost u = x.deep_view();
    let ghost v = y.deep_view();
    let mut i: usize = 0;
    assert(u.skip(0) =~= u);
    assert(v.skip(0) =~= v);
    while i < x.len() && i < y.len()
        invariant
            i <= x.len(),
            i <= y.len(),
            u == x.deep_view(),
            v == y.deep_view(),
            path_le(a@, b@) == lex_le(u.skip(i as int), v.skip(i as int), component_order()),
        decreases x.len() - i,
    {
        let c = x[i].as_str();
        let d = y[i].as_str();
        assert(u.skip(i as int)[0] == c@ && v.skip(i as int)[0] == d@);
        if !same(c, d) {
            let m: u8 = class_of(c);
            let n: u8 = class_of(d);
            assert(path_le(a@, b@) == component_order()(c@, d@));
            return m < n || (m == n && text_leq(c, d));
        }
        assert(u.skip(i as int).drop_first() =~= u.skip(i + 1));
        assert(v.skip(i as int).drop_first() =~= v.skip(i + 1));
        i += 1;
    }
    i == x.len()
}

// ---------------------------------------------------------------------------
// Joining and taking off
// ---------------------------------------------------------------------------

/// `rel` under `base`, as `Path::join` puts them together: an absolute `rel`
/// stands alone.
pub open spec fn path_join(base: Seq<char>, rel: Seq<char>) -> Seq<char> {
    if begins(rel, "/"@) || base.len() == 0 {
        rel
    } else if ends(base, "/"@) {
        base + rel
    } else {
        base + "/"@ + rel
    }
}

pub fn join_path(base: &str, rel: &str) -> (r: String)
    ensures
        r@ == path_join(base@, rel@),
{
    if starts_with(rel, "/") || base.unicode_len() == 0 {
        owned(rel)
    } else if ends_with(base, "/") {
        cat2(base, rel)
    } else {
        cat3(base, "/", rel)
    }
}

/// The parts from `i` to `j` as they are written; the root alone is `/`.
pub open spec fn spelled(ps: Seq<Seq<char>>, i: int, j: int) -> Seq<char> {
    if j == 0 && ps[0].len() == 0 {
        "/"@
    } else {
        joined(ps.subrange(i, j + 1), "/"@)
    }
}

fn spelled_of(ps: &Vec<String>, i: usize, j: usize) -> (r: String)
    requires
        i <= j < ps@.len(),
    ensures
        r@ == spelled(ps.deep_view(), i as int, j as int),
{
    assert(ps.deep_view()[0] == ps@[0]@);
    if j == 0 && ps[0].as_str().unicode_len() == 0 {
        return owned("/");
    }
    let ghost all = ps.deep_view().subrange(i as int, j + 1);
    let mut some: Vec<String> = Vec::new();
    let mut k: usize = i;
    while k <= j
        invariant
            i <= k <= j + 1,
            j < ps.len(),
            all == ps.deep_view().subrange(i as int, j + 1),
            some.deep_view() =~= all.take(k - i),
        decreases j + 1 - k,
    {
        assert(all[k - i] == ps@[k as int]@);
        put(&mut some, owned(ps[k].as_str()));
        k += 1;
    }
    assert(all.take(k - i) =~= all);
    join(&some, "/")
}

/// The first component at or behind `n` up to the last one, as they are written.
pub open spec fn from_component(path: Seq<char>, n: int) -> Seq<char> {
    let ps = parts(path, '/');
    let at = positions(ps);
    if n >= at.len() {
        Seq::empty()
    } else {
        spelled(ps, at[n], at.last())
    }
}

/// `path` from `base` on, or the whole path where it does not lie under `base`.
pub open spec fn path_within(path: Seq<char>, base: Seq<char>) -> Seq<char> {
    if path_under(path, base) {
        from_component(path, components(base).len() as int)
    } else {
        path
    }
}

/// The positions come in order, each once.
proof fn lemma_positions(ps: Seq<Seq<char>>, hi: int)
    ensures
        forall|n: int|
            0 <= n < gather(0, hi, counted(ps)).len() ==> 0 <= #[trigger] gather(
                0,
                hi,
                counted(ps),
            )[n] < hi,
        forall|m: int, n: int|
            0 <= m < n < gather(0, hi, counted(ps)).len() ==> #[trigger] gather(
                0,
                hi,
                counted(ps),
            )[m] < #[trigger] gather(0, hi, counted(ps))[n],
    decreases hi,
{
    if hi > 0 {
        lemma_positions(ps, hi - 1);
        let less = gather(0, hi - 1, counted(ps));
        let g = gather(0, hi, counted(ps));
        assert(g == less + only_if(counts(ps, hi - 1), hi - 1));
        assert forall|n: int| 0 <= n < g.len() implies 0 <= #[trigger] g[n] < hi by {
            if n < less.len() {
                assert(g[n] == less[n]);
            }
        }
        assert forall|m: int, n: int| 0 <= m < n < g.len() implies #[trigger] g[m]
            < #[trigger] g[n] by {
            assert(g[m] == less[m]);
            if n < less.len() {
                assert(g[n] == less[n]);
            }
        }
    }
}

/// Takes `base` off the front of `path`, as `Path::strip_prefix` does.
pub fn strip_base(path: &str, base: &str) -> (r: String)
    ensures
        r@ == path_within(path@, base@),
{
    if !path_is_under(path, base) {
        return owned(path);
    }
    let n = components_of(base).len();
    let ps = split(path, '/');
    let at = positions_of(&ps);
    if n >= at.len() {
        String::new()
    } else {
        let last = at.len() - 1;
        proof {
            lemma_positions(ps.deep_view(), ps@.len() as int);
        }
        assert(at@[n as int] == positions(ps.deep_view())[n as int]);
        assert(at@[last as int] == positions(ps.deep_view())[last as int]);
        spelled_of(&ps, at[n], at[last])
    }
}

// ---------------------------------------------------------------------------
// What joining keeps
// ---------------------------------------------------------------------------

/// The first part of a text is empty only where the text is, or where it begins
/// with the separator.
proof fn lemma_first_part(s: Seq<char>)
    requires
        s.len() > 0,
        s[0] != '/',
    ensures
        parts(s, '/')[0].len() > 0,
    decreases s.len(),
{
    let less = s.drop_last();
    lemma_parts(less, '/');
    if less.len() == 0 {
        assert(parts(less, '/').len() == 1);
    } else {
        lemma_first_part(less);
    }
}

/// A text that begins with the separator has more than one part.
proof fn lemma_leading(s: Seq<char>)
    requires
        s.len() > 0,
        s[0] == '/',
    ensures
        parts(s, '/').len() > 1,
    decreases s.len(),
{
    let less = s.drop_last();
    lemma_parts(less, '/');
    if less.len() > 0 {
        lemma_leading(less);
    }
}

/// Rules that agree gather the same.
proof fn lemma_gather_same<A>(
    lo: int,
    hi: int,
    f: spec_fn(int) -> Seq<A>,
    g: spec_fn(int) -> Seq<A>,
)
    requires
        forall|k: int| lo <= k < hi ==> #[trigger] f(k) == g(k),
    ensures
        gather(lo, hi, f) == gather(lo, hi, g),
    decreases hi - lo,
{
    if lo < hi {
        lemma_gather_same(lo, hi - 1, f, g);
        assert(f(hi - 1) == g(hi - 1));
    }
}

/// The parts of `q` count behind those of `p` as they do alone.
proof fn lemma_positions_behind(p: Seq<Seq<char>>, q: Seq<Seq<char>>, h: int)
    requires
        p.len() > 0,
        q.len() > 0,
        q[0] != "."@,
        q[0].len() > 0 || q.len() == 1,
        0 <= h <= q.len(),
    ensures
        gather(0, p.len() + h, counted(p + q)) == gather(0, p.len() as int, counted(p + q))
            + gather(0, h, counted(q)).map_values(|k: int| k + p.len()),
    decreases h,
{
    let shift = |k: int| k + p.len();
    let front = gather(0, p.len() as int, counted(p + q));
    if h == 0 {
        assert(gather(0, h, counted(q)).map_values(shift) =~= Seq::<int>::empty());
        assert(front + Seq::<int>::empty() =~= front);
    } else {
        lemma_positions_behind(p, q, h - 1);
        let k = h - 1;
        assert((p + q)[p.len() + k] == q[k]);
        assert(counts(p + q, p.len() + k) == counts(q, k));
        let before = gather(0, k, counted(q));
        assert(gather(0, h, counted(q)) == before + only_if(counts(q, k), k));
        assert(gather(0, p.len() + h, counted(p + q)) == gather(0, p.len() + k, counted(p + q))
            + only_if(counts(q, k), p.len() + k));
        assert(gather(0, p.len() + h, counted(p + q)) =~= front + gather(
            0,
            h,
            counted(q),
        ).map_values(shift));
    }
}

/// What is joined to a base lies under it, and comes back when the base is taken
/// off, as it does when nothing is taken off it.
pub proof fn law_join_strip(base: Seq<char>, rel: Seq<char>)
    requires
        !begins(rel, "/"@),
        parts(rel, '/')[0] != "."@,
    ensures
        path_under(path_join(base, rel), base),
        path_within(path_join(base, rel), base) == path_within(rel, Seq::empty()),
{
    reveal_strlit("/");
    let none = Seq::<char>::empty();
    assert(positions(parts(none, '/')) =~= Seq::empty()) by {
        assert(gather(0, 1, counted(parts(none, '/'))) =~= gather(
            0,
            0,
            counted(parts(none, '/')),
        ) + counted(parts(none, '/'))(0));
    }
    assert(components(none) =~= Seq::empty());
    assert(components(none) =~= components(rel).subrange(0, 0));
    if base.len() == 0 {
        assert(base =~= none);
        return ;
    }
    let b = parts(base, '/');
    let q = parts(rel, '/');
    lemma_parts(base, '/');
    lemma_parts(rel, '/');
    if rel.len() > 0 {
        if rel[0] == '/' {
            assert(rel.subrange(0, 1) =~= "/"@);
        }
        lemma_first_part(rel);
    }
    let whole = path_join(base, rel);
    let slashed = ends(base, "/"@);
    let head = if slashed {
        base.drop_last()
    } else {
        base
    };
    lemma_parts(head, '/');
    if slashed {
        assert(base.last() == "/"@[0]);
    }
    assert(whole =~= head + seq!['/'] + rel);
    lemma_parts_between(head, rel, '/');
    let p = parts(head, '/');
    let n = p.len() as int;
    assert(forall|k: int| 0 <= k < n ==> #[trigger] b[k] == (p + q)[k]);
    if base.len() == 1 && !slashed {
        assert(base[0] != '/') by {
            if base[0] == '/' {
                assert(base.skip(base.len() - 1) =~= "/"@);
            }
        }
    }
    assert(counts(b, 0)) by {
        if base[0] != '/' {
            lemma_first_part(base);
        } else {
            lemma_leading(base);
        }
    }
    assert forall|k: int| 0 <= k < n implies #[trigger] counted(p + q)(k) == counted(b)(k) by {
        assert(b[k] == (p + q)[k]);
    }
    lemma_gather_same(0, n, counted(p + q), counted(b));
    let front = gather(0, n, counted(b));
    assert(positions(b) =~= front) by {
        if slashed {
            assert(b =~= p.push(Seq::empty()));
            assert(!counts(b, n));
            assert(gather(0, n + 1, counted(b)) =~= front + counted(b)(n));
        }
    }
    lemma_positions_behind(p, q, q.len() as int);
    let at = positions(p + q);
    let back = positions(q).map_values(|k: int| k + p.len());
    assert(at == front + back);
    lemma_positions(b, n);
    assert forall|m: int| 0 <= m < front.len() implies #[trigger] components(base)[m]
        == components(whole)[m] by {
        assert(at[m] == front[m]);
        assert(b[front[m]] == (p + q)[front[m]]);
    }
    assert(components(base) =~= components(whole).subrange(0, front.len() as int));
    lemma_positions(q, q.len() as int);
    if back.len() > 0 {
        let i = positions(q)[0];
        let j = positions(q).last();
        assert(at[front.len() as int] == back[0] && back[0] == i + n);
        assert(at.last() == back.last() && back.last() == j + n);
        assert((p + q).subrange(i + n, j + n + 1) =~= q.subrange(i, j + 1));
        assert(counts(q, 0) || q.len() == 1);
    }
}

} // verus!
