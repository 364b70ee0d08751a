//! Sequences: gathering, lists without repeats, orders and sorting.
use vstd::prelude::*;

use crate::text::{chars_of, owned, same};

verus! {

// ---------------------------------------------------------------------------
// Gathering
// ---------------------------------------------------------------------------

/// `f(lo) + f(lo + 1) + ... + f(hi - 1)`.
pub open spec fn gather<A>(lo: int, hi: int, f: spec_fn(int) -> Seq<A>) -> Seq<A>
    decreases hi - lo,
{
    if hi <= lo {
        Seq::empty()
    } else {
        gather(lo, hi - 1, f) + f(hi - 1)
    }
}

/// `seq![a]` if `c` holds, nothing otherwise.
pub open spec fn only_if<A>(c: bool, a: A) -> Seq<A> {
    if c {
        seq![a]
    } else {
        Seq::empty()
    }
}

/// A result over views.
pub open spec fn viewed<T: DeepView>(r: Result<T, String>) -> Result<T::V, Seq<char>> {
    match r {
        Ok(x) => Ok(x.deep_view()),
        Err(e) => Err(e@),
    }
}

/// What is gathered comes from some position, and nothing else does.
pub proof fn lemma_gather_contains<A>(lo: int, hi: int, f: spec_fn(int) -> Seq<A>, a: A)
    ensures
        gather(lo, hi, f).contains(a) <==> exists|i: int| lo <= i < hi && (#[trigger] f(i)).contains(
            a,
        ),
    decreases hi - lo,
{
    if lo < hi {
        lemma_gather_contains(lo, hi - 1, f, a);
        let x = gather(lo, hi - 1, f);
        let y = f(hi - 1);
        if x.contains(a) {
            let k = choose|k: int| 0 <= k < x.len() && x[k] == a;
            assert((x + y)[k] == a);
        }
        if y.contains(a) {
            let k = choose|k: int| 0 <= k < y.len() && y[k] == a;
            assert((x + y)[x.len() + k] == a);
        }
        if (x + y).contains(a) {
            let k = choose|k: int| 0 <= k < (x + y).len() && (x + y)[k] == a;
            if k >= x.len() {
                assert(y[k - x.len()] == a);
            } else {
                assert(x[k] == a);
            }
        }
    }
}

/// What is gathered over a range is gathered over its parts.
pub proof fn lemma_gather_split<A>(lo: int, mid: int, hi: int, f: spec_fn(int) -> Seq<A>)
    requires
        lo <= mid <= hi,
    ensures
        gather(lo, hi, f) == gather(lo, mid, f) + gather(mid, hi, f),
    decreases hi - mid,
{
    if mid < hi {
        lemma_gather_split(lo, mid, hi - 1, f);
        assert(gather(lo, hi, f) =~= gather(lo, mid, f) + gather(mid, hi, f));
    } else {
        assert(gather(lo, mid, f) + gather(mid, hi, f) =~= gather(lo, mid, f));
    }
}

/// Adds `x` at the end of `v`.
pub fn put<T: DeepView>(v: &mut Vec<T>, x: T)
    ensures
        final(v).deep_view() == old(v).deep_view().push(x.deep_view()),
        final(v)@ == old(v)@.push(x),
{
    v.push(x);
    assert(v.deep_view() =~= old(v).deep_view().push(x.deep_view()));
}

/// Adds the elements of `more` at the end of `v`.
pub fn put_all<T: DeepView>(v: &mut Vec<T>, more: Vec<T>)
    ensures
        final(v).deep_view() == old(v).deep_view() + more.deep_view(),
        final(v)@ == old(v)@ + more@,
{
    let mut more = more;
    let ghost rest = more@;
    v.append(&mut more);
    assert(v.deep_view() =~= old(v).deep_view() + Seq::new(rest.len(), |i: int| rest[i].deep_view()));
}

// ---------------------------------------------------------------------------
// Lists of strings
// ---------------------------------------------------------------------------

/// Whether `s` is in `v`.
pub fn holds(v: &Vec<String>, s: &str) -> (r: bool)
    ensures
        r == v.deep_view().contains(s@),
{
    let mut i: usize = 0;
    while i < v.len()
        invariant
            i <= v.len(),
            forall|j: int| 0 <= j < i ==> v.deep_view()[j] != s@,
        decreases v.len() - i,
    {
        if same(v[i].as_str(), s) {
            assert(v.deep_view()[i as int] == s@);
            return true;
        }
        i += 1;
    }
    false
}

/// `s`, with `x` at the end unless it is there already.
pub open spec fn with_new<A>(s: Seq<A>, x: A) -> Seq<A> {
    if s.contains(x) {
        s
    } else {
        s.push(x)
    }
}

/// Adds `s` at the end of `v` unless it is there already.
pub fn put_new(v: &mut Vec<String>, s: &str)
    ensures
        final(v).deep_view() == with_new(old(v).deep_view(), s@),
{
    if !holds(v, s) {
        put(v, owned(s));
    }
}

/// The first occurrence of each element of `s`, in order.
pub open spec fn distinct<A>(s: Seq<A>) -> Seq<A>
    decreases s.len(),
{
    if s.len() == 0 {
        s
    } else {
        with_new(distinct(s.drop_last()), s.last())
    }
}

/// `distinct` keeps each element and repeats none.
pub proof fn lemma_distinct<A>(s: Seq<A>)
    ensures
        distinct(s).no_duplicates(),
        forall|x: A| #[trigger] distinct(s).contains(x) <==> s.contains(x),
    decreases s.len(),
{
    if s.len() > 0 {
        lemma_distinct(s.drop_last());
        let d = distinct(s.drop_last());
        assert forall|x: A| #[trigger] distinct(s).contains(x) <==> s.contains(x) by {
            if s.contains(x) {
                let k = choose|k: int| 0 <= k < s.len() && s[k] == x;
                if k < s.len() - 1 {
                    assert(s.drop_last()[k] == x);
                    assert(d.contains(x));
                    let m = choose|m: int| 0 <= m < d.len() && d[m] == x;
                    assert(distinct(s)[m] == x);
                } else if !d.contains(x) {
                    assert(distinct(s)[d.len() as int] == x);
                }
            }
            if distinct(s).contains(x) {
                let k = choose|k: int| 0 <= k < distinct(s).len() && distinct(s)[k] == x;
                if k < d.len() {
                    assert(d.contains(x));
                    let m = choose|m: int| 0 <= m < s.drop_last().len() && s.drop_last()[m] == x;
                    assert(s[m] == x);
                } else {
                    assert(s[s.len() - 1] == x);
                }
            }
        }
    }
}

/// The list without repeats that has the elements of `v`, first ones first.
pub fn distinct_of(v: &Vec<String>) -> (r: Vec<String>)
    ensures
        r.deep_view() == distinct(v.deep_view()),
{
    let mut out: Vec<String> = Vec::new();
    let mut i: usize = 0;
    while i < v.len()
        invariant
            i <= v.len(),
            out.deep_view() == distinct(v.deep_view().take(i as int)),
        decreases v.len() - i,
    {
        assert(v.deep_view().take(i + 1).drop_last() =~= v.deep_view().take(i as int));
        put_new(&mut out, v[i].as_str());
        i += 1;
    }
    assert(v.deep_view().take(i as int) =~= v.deep_view());
    out
}

// ---------------------------------------------------------------------------
// Orders
// ---------------------------------------------------------------------------

/// The order of dictionaries, for letters ordered by `lt`.
pub open spec fn lex_le<A>(a: Seq<A>, b: Seq<A>, lt: spec_fn(A, A) -> bool) -> bool
    decreases a.len(),
{
    if a.len() == 0 {
        true
    } else if b.len() == 0 {
        false
    } else if a[0] == b[0] {
        lex_le(a.drop_first(), b.drop_first(), lt)
    } else {
        lt(a[0], b[0])
    }
}

pub open spec fn is_strict_order<A>(lt: spec_fn(A, A) -> bool) -> bool {
    &&& forall|c: A, d: A| c != d ==> (#[trigger] lt(c, d) <==> !lt(d, c))
    &&& forall|c: A, d: A, e: A| #[trigger] lt(c, d) && #[trigger] lt(d, e) ==> lt(c, e)
    &&& forall|c: A| !#[trigger] lt(c, c)
}

/// The order of dictionaries is total, and two words that precede each other
/// are equal.
pub proof fn lemma_lex_total<A>(a: Seq<A>, b: Seq<A>, lt: spec_fn(A, A) -> bool)
    requires
        is_strict_order(lt),
    ensures
        lex_le(a, b, lt) || lex_le(b, a, lt),
        lex_le(a, b, lt) && lex_le(b, a, lt) ==> a == b,
    decreases a.len(),
{
    if a.len() > 0 && b.len() > 0 {
        if a[0] == b[0] {
            lemma_lex_total(a.drop_first(), b.drop_first(), lt);
            if a.drop_first() == b.drop_first() {
                assert(a =~= seq![a[0]] + a.drop_first());
                assert(b =~= seq![b[0]] + b.drop_first());
            }
        } else {
            assert(lt(a[0], b[0]) <==> !lt(b[0], a[0]));
        }
    } else if a.len() == 0 && b.len() == 0 {
        assert(a =~= b);
    }
}

pub proof fn lemma_lex_transitive<A>(
    a: Seq<A>,
    b: Seq<A>,
    c: Seq<A>,
    lt: spec_fn(A, A) -> bool,
)
    requires
        is_strict_order(lt),
        lex_le(a, b, lt),
        lex_le(b, c, lt),
    ensures
        lex_le(a, c, lt),
    decreases a.len(),
{
    if a.len() > 0 && b.len() > 0 && c.len() > 0 {
        if a[0] == b[0] && b[0] == c[0] {
            lemma_lex_transitive(a.drop_first(), b.drop_first(), c.drop_first(), lt);
        } else if a[0] != b[0] && b[0] != c[0] {
            assert(lt(a[0], c[0]));
        }
    }
}

pub open spec fn char_order() -> spec_fn(char, char) -> bool {
    |c: char, d: char| c < d
}

/// `a` comes before `b`, or is `b`, in the order of strings.
pub open spec fn text_le(a: Seq<char>, b: Seq<char>) -> bool {
    lex_le(a, b, char_order())
}

/// The order of strings is a total order.
pub proof fn lemma_text_le(a: Seq<char>, b: Seq<char>, c: Seq<char>)
    ensures
        text_le(a, b) || text_le(b, a),
        text_le(a, b) && text_le(b, a) ==> a == b,
        text_le(a, b) && text_le(b, c) ==> text_le(a, c),
{
    lemma_lex_total(a, b, char_order());
    if text_le(a, b) && text_le(b, c) {
        lemma_lex_transitive(a, b, c, char_order());
    }
}

/// Whether `a` does not come after `b` in the order of strings.
pub fn text_leq(a: &str, b: &str) -> (r: bool)
    ensures
        r == text_le(a@, b@),
{
    let x = chars_of(a);
    let y = chars_of(b);
    let mut i: usize = 0;
    assert(x@.skip(0) =~= x@);
    assert(y@.skip(0) =~= y@);
    while i < x.len() && i < y.len()
        invariant
            i <= x.len(),
            i <= y.len(),
            text_le(a@, b@) == text_le(x@.skip(i as int), y@.skip(i as int)),
        decreases x.len() - i,
    {
        if x[i] != y[i] {
            return x[i] < y[i];
        }
        assert(x@.skip(i as int).drop_first() =~= x@.skip(i + 1));
        assert(y@.skip(i as int).drop_first() =~= y@.skip(i + 1));
        i += 1;
    }
    i == x.len()
}

/// `a` comes before `b` in the order of strings.
pub open spec fn text_order() -> spec_fn(Seq<char>, Seq<char>) -> bool {
    |a: Seq<char>, b: Seq<char>| a != b && text_le(a, b)
}

/// The order of dictionaries on lists of strings.
pub open spec fn texts_le(a: Seq<Seq<char>>, b: Seq<Seq<char>>) -> bool {
    lex_le(a, b, text_order())
}

proof fn lemma_text_order()
    ensures
        is_strict_order(text_order()),
{
    let lt = text_order();
    assert forall|c: Seq<char>, d: Seq<char>| c != d implies (#[trigger] lt(c, d) <==> !lt(d, c)) by {
        lemma_text_le(c, d, d);
    }
    assert forall|c: Seq<char>, d: Seq<char>, e: Seq<char>| #[trigger] lt(c, d) && #[trigger] lt(
        d,
        e,
    ) implies lt(c, e) by {
        lemma_text_le(c, d, e);
    }
}

/// The order of lists of strings is a total order.
pub proof fn lemma_texts_le(a: Seq<Seq<char>>, b: Seq<Seq<char>>, c: Seq<Seq<char>>)
    ensures
        texts_le(a, b) || texts_le(b, a),
        texts_le(a, b) && texts_le(b, a) ==> a == b,
        texts_le(a, b) && texts_le(b, c) ==> texts_le(a, c),
{
    lemma_text_order();
    lemma_lex_total(a, b, text_order());
    if texts_le(a, b) && texts_le(b, c) {
        lemma_lex_transitive(a, b, c, text_order());
    }
}

pub fn texts_leq(a: &Vec<String>, b: &Vec<String>) -> (r: bool)
    ensures
        r == texts_le(a.deep_view(), b.deep_view()),
{
    let ghost x = a.deep_view();
    let ghost y = b.deep_view();
    let mut i: usize = 0;
    assert(x.skip(0) =~= x);
    assert(y.skip(0) =~= y);
    while i < a.len() && i < b.len()
        invariant
            i <= a.len(),
            i <= b.len(),
            x == a.deep_view(),
            y == b.deep_view(),
            texts_le(x, y) == texts_le(x.skip(i as int), y.skip(i as int)),
        decreases a.len() - i,
    {
        assert(x.skip(i as int)[0] == a@[i as int]@);
        assert(y.skip(i as int)[0] == b@[i as int]@);
        if !same(a[i].as_str(), b[i].as_str()) {
            return text_leq(a[i].as_str(), b[i].as_str());
        }
        assert(x.skip(i as int).drop_first() =~= x.skip(i + 1));
        assert(y.skip(i as int).drop_first() =~= y.skip(i + 1));
        i += 1;
    }
    i == a.len()
}

// ---------------------------------------------------------------------------
// Sorting
// ---------------------------------------------------------------------------

/// Values with an order on what they stand for.
pub trait Ranked: DeepView + Sized {
    /// `a` need not come after `b`.
    spec fn le(a: Self::V, b: Self::V) -> bool;

    /// Of any two, one may come first, and what comes first stays first.
    proof fn ordered(a: Self::V, b: Self::V, c: Self::V)
        ensures
            Self::le(a, b) || Self::le(b, a),
            Self::le(a, b) && Self::le(b, c) ==> Self::le(a, c),
    ;

    fn leq(&self, other: &Self) -> (r: bool)
        ensures
            r == Self::le(self.deep_view(), other.deep_view()),
    ;
}

pub open spec fn rank<T: Ranked>() -> spec_fn(T::V, T::V) -> bool {
    |a: T::V, b: T::V| T::le(a, b)
}

/// `s` with `x` behind the last element that may come before it.
pub open spec fn inserted<A>(s: Seq<A>, x: A, le: spec_fn(A, A) -> bool) -> Seq<A>
    decreases s.len(),
{
    if s.len() == 0 {
        seq![x]
    } else if le(s.last(), x) {
        s.push(x)
    } else {
        inserted(s.drop_last(), x, le).push(s.last())
    }
}

/// `s` in the order of `le`; elements of the same rank keep their order.
pub open spec fn sorted<A>(s: Seq<A>, le: spec_fn(A, A) -> bool) -> Seq<A>
    decreases s.len(),
{
    if s.len() == 0 {
        s
    } else {
        inserted(sorted(s.drop_last(), le), s.last(), le)
    }
}

pub open spec fn is_total_order<A>(le: spec_fn(A, A) -> bool) -> bool {
    &&& forall|a: A, b: A| #[trigger] le(a, b) || le(b, a)
    &&& forall|a: A, b: A, c: A| #[trigger] le(a, b) && #[trigger] le(b, c) ==> le(a, c)
}

pub open spec fn in_order<A>(s: Seq<A>, le: spec_fn(A, A) -> bool) -> bool {
    forall|i: int, j: int| 0 <= i < j < s.len() ==> #[trigger] le(s[i], s[j])
}

proof fn lemma_inserted<A>(s: Seq<A>, x: A, le: spec_fn(A, A) -> bool)
    ensures
        inserted(s, x, le).to_multiset() =~= s.to_multiset().insert(x),
        inserted(s, x, le).len() == s.len() + 1,
        is_total_order(le) && in_order(s, le) ==> in_order(inserted(s, x, le), le),
        forall|y: A| inserted(s, x, le).contains(y) ==> y == x || s.contains(y),
    decreases s.len(),
{
    broadcast use vstd::seq_lib::group_to_multiset_ensures;

    if s.len() == 0 {
        assert(seq![x] =~= s.push(x));
    } else if le(s.last(), x) {
        if is_total_order(le) && in_order(s, le) {
            let r = s.push(x);
            assert forall|i: int, j: int| 0 <= i < j < r.len() implies #[trigger] le(r[i], r[j]) by {
                if j == s.len() && i < s.len() - 1 {
                    assert(le(s[i], s[s.len() - 1]));
                }
            }
        }
    } else {
        let t = s.drop_last();
        lemma_inserted(t, x, le);
        let u = inserted(t, x, le);
        assert(s =~= t.push(s.last()));
        assert(inserted(s, x, le) == u.push(s.last()));
        assert forall|y: A| inserted(s, x, le).contains(y) implies y == x || s.contains(y) by {
            let k = choose|k: int| 0 <= k < u.push(s.last()).len() && u.push(s.last())[k] == y;
            if k < u.len() {
                assert(u[k] == y);
                assert(u.contains(y));
                if y != x {
                    assert(t.contains(y));
                    let m = choose|m: int| 0 <= m < t.len() && t[m] == y;
                    assert(s[m] == y);
                }
            } else {
                assert(s[s.len() - 1] == y);
            }
        }
        if is_total_order(le) && in_order(s, le) {
            assert(in_order(t, le));
            let r = u.push(s.last());
            assert forall|i: int, j: int| 0 <= i < j < r.len() implies #[trigger] le(r[i], r[j]) by {
                if j == u.len() {
                    assert(u.contains(u[i]));
                    if u[i] != x {
                        assert(t.contains(u[i]));
                        let m = choose|m: int| 0 <= m < t.len() && t[m] == u[i];
                        assert(le(s[m], s[s.len() - 1]));
                    } else {
                        assert(le(s.last(), x) || le(x, s.last()));
                    }
                }
            }
        }
    }
}

/// Sorting keeps the elements and puts them in order.
pub proof fn lemma_sorted<A>(s: Seq<A>, le: spec_fn(A, A) -> bool)
    ensures
        sorted(s, le).to_multiset() =~= s.to_multiset(),
        sorted(s, le).len() == s.len(),
        is_total_order(le) ==> in_order(sorted(s, le), le),
    decreases s.len(),
{
    broadcast use vstd::seq_lib::group_to_multiset_ensures;

    if s.len() > 0 {
        lemma_sorted(s.drop_last(), le);
        lemma_inserted(sorted(s.drop_last(), le), s.last(), le);
        assert(s =~= s.drop_last().push(s.last()));
    }
}

/// Sorting keeps what there is.
pub proof fn lemma_sorted_contains<A>(s: Seq<A>, le: spec_fn(A, A) -> bool, a: A)
    ensures
        sorted(s, le).contains(a) <==> s.contains(a),
{
    broadcast use vstd::seq_lib::group_to_multiset_ensures;

    lemma_sorted(s, le);
    assert(s.contains(a) <==> s.to_multiset().count(a) > 0);
    assert(sorted(s, le).contains(a) <==> sorted(s, le).to_multiset().count(a) > 0);
}

/// Sorting what is in order changes nothing.
pub proof fn lemma_sorted_again<A>(s: Seq<A>, le: spec_fn(A, A) -> bool)
    requires
        in_order(s, le),
    ensures
        sorted(s, le) == s,
    decreases s.len(),
{
    if s.len() > 0 {
        let t = s.drop_last();
        assert(in_order(t, le));
        lemma_sorted_again(t, le);
        if t.len() > 0 {
            assert(le(s[t.len() - 1], s[t.len() as int]));
        }
        assert(inserted(t, s.last(), le) =~= s);
    }
}

/// What is sorted is in order, and holds what was there before.
pub proof fn law_sorted<T: Ranked>(s: Seq<T::V>)
    ensures
        is_total_order(rank::<T>()),
        in_order(sorted(s, rank::<T>()), rank::<T>()),
        sorted(s, rank::<T>()).to_multiset() == s.to_multiset(),
        sorted(s, rank::<T>()).len() == s.len(),
{
    let le = rank::<T>();
    assert forall|a: T::V, b: T::V| #[trigger] le(a, b) || le(b, a) by {
        T::ordered(a, b, b);
    }
    assert forall|a: T::V, b: T::V, c: T::V| #[trigger] le(a, b) && #[trigger] le(
        b,
        c,
    ) implies le(a, c) by {
        T::ordered(a, b, c);
    }
    lemma_sorted(s, le);
}

/// `v` in order; values of the same rank keep their order.
pub fn sort<T: Ranked>(v: Vec<T>) -> (r: Vec<T>)
    ensures
        r.deep_view() == sorted(v.deep_view(), rank::<T>()),
{
    let mut rest = v;
    let mut back: Vec<T> = Vec::new();
    let ghost all = rest.deep_view();
    // Take the values from the end, so that the first one comes out last.
    while rest.len() > 0
        invariant
            rest.deep_view() + back.deep_view().reverse() =~= all,
        decreases rest.len(),
    {
        let ghost before = rest.deep_view();
        match rest.pop() {
            Some(x) => {
                assert(before =~= rest.deep_view().push(x.deep_view()));
                put(&mut back, x);
            },
            None => {},
        }
    }
    let mut out: Vec<T> = Vec::new();
    assert(all =~= back.deep_view().reverse());
    assert(all.take(0) =~= Seq::<T::V>::empty());
    while back.len() > 0
        invariant
            back.len() <= all.len(),
            out.deep_view() == sorted(all.take(all.len() - back.len()), rank::<T>()),
            all.skip(all.len() - back.len()) =~= back.deep_view().reverse(),
        decreases back.len(),
    {
        let ghost before = back.deep_view();
        let ghost n = all.len() - back.len();
        match back.pop() {
            Some(x) => {
                assert(before =~= back.deep_view().push(x.deep_view()));
                assert(all.skip(n)[0] == before.reverse()[0]);
                assert(all[n] == x.deep_view());
                assert(all.take(n + 1).drop_last() =~= all.take(n));
                insert(&mut out, x);
                assert(all.skip(n + 1) =~= all.skip(n).drop_first());
                assert(back.deep_view().reverse() =~= before.reverse().drop_first());
            },
            None => {},
        }
    }
    assert(all.take(all.len() as int) =~= all);
    out
}

/// Puts `x` into `v` behind the last value that may come before it.
fn insert<T: Ranked>(v: &mut Vec<T>, x: T)
    ensures
        final(v).deep_view() == inserted(old(v).deep_view(), x.deep_view(), rank::<T>()),
{
    let mut i: usize = v.len();
    let ghost s = v.deep_view();
    assert(s.take(i as int) =~= s);
    assert(s.skip(i as int) =~= Seq::<T::V>::empty());
    while i > 0 && !v[i - 1].leq(&x)
        invariant
            i <= v.len(),
            s == v.deep_view(),
            inserted(s, x.deep_view(), rank::<T>()) =~= inserted(
                s.take(i as int),
                x.deep_view(),
                rank::<T>(),
            ) + s.skip(i as int),
        decreases i,
    {
        assert(s.take(i as int).drop_last() =~= s.take(i - 1));
        assert(s.skip(i - 1) =~= seq![s[i - 1]] + s.skip(i as int));
        i -= 1;
    }
    assert(i > 0 ==> s.take(i as int).last() == s[i - 1]);
    v.insert(i, x);
    assert(v.deep_view() =~= s.take(i as int).push(x.deep_view()) + s.skip(i as int));
}

impl Ranked for String {
    open spec fn le(a: Seq<char>, b: Seq<char>) -> bool {
        text_le(a, b)
    }

    proof fn ordered(a: Seq<char>, b: Seq<char>, c: Seq<char>) {
        lemma_text_le(a, b, c);
    }

    fn leq(&self, other: &Self) -> (r: bool) {
        text_leq(self.as_str(), other.as_str())
    }
}

} // verus!
