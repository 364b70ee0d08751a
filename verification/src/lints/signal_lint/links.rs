//! Links between issues on the same signal.
use vstd::prelude::*;

use super::report::{SignalIssue, SignalIssueView};
use crate::order::{
    distinct, distinct_of, gather, lemma_distinct, lemma_gather_contains, lemma_sorted, only_if,
    put, rank, sort, sorted,
};
use crate::text::{owned, same};

verus! {

/// Two issues are on the same signal of the same component.
pub open spec fn same_signal(a: SignalIssueView, b: SignalIssueView) -> bool {
    a.component is Some && a.signal is Some && a.component == b.component && a.signal == b.signal
}

pub open spec fn code_of(s: Seq<SignalIssueView>, a: SignalIssueView) -> spec_fn(int) -> Seq<
    Seq<char>,
> {
    |k: int| only_if(same_signal(a, s[k]), s[k].code)
}

/// The codes of all issues on the signal of `a`.
pub open spec fn codes(s: Seq<SignalIssueView>, a: SignalIssueView) -> Seq<Seq<char>> {
    gather(0, s.len() as int, code_of(s, a))
}

pub open spec fn other_code(s: Seq<SignalIssueView>, a: SignalIssueView) -> spec_fn(int) -> Seq<
    Seq<char>,
> {
    |k: int| only_if(same_signal(a, s[k]) && s[k].code != a.code, s[k].code)
}

/// The codes, other than its own, of the issues on the signal of `a`: each once,
/// by name.
pub open spec fn related(s: Seq<SignalIssueView>, a: SignalIssueView) -> Seq<Seq<char>> {
    sorted(distinct(gather(0, s.len() as int, other_code(s, a))), rank::<String>())
}

/// `a` with its links, where there are two issues or more on its signal.
pub open spec fn linked(s: Seq<SignalIssueView>, a: SignalIssueView) -> SignalIssueView {
    if codes(s, a).len() < 2 {
        a
    } else {
        SignalIssueView {
            code: a.code,
            message: a.message,
            file: a.file,
            line: a.line,
            component: a.component,
            signal: a.signal,
            related_codes: related(s, a),
            fix: a.fix,
        }
    }
}

pub open spec fn all_linked(s: Seq<SignalIssueView>) -> Seq<SignalIssueView> {
    Seq::new(s.len(), |k: int| linked(s, s[k]))
}

fn equal(a: &Option<String>, b: &Option<String>) -> (r: bool)
    ensures
        r == (a.deep_view() is Some && a.deep_view() == b.deep_view()),
{
    match (a, b) {
        (Some(x), Some(y)) => same(x.as_str(), y.as_str()),
        _ => false,
    }
}

fn is_same_signal(a: &SignalIssue, b: &SignalIssue) -> (r: bool)
    ensures
        r == same_signal(a.deep_view(), b.deep_view()),
{
    equal(&a.component, &b.component) && equal(&a.signal, &b.signal)
}

fn related_of(v: &Vec<SignalIssue>, i: usize) -> (r: Option<Vec<String>>)
    requires
        i < v.len(),
    ensures
        match r {
            Some(x) => codes(v.deep_view(), v.deep_view()[i as int]).len() >= 2 && x.deep_view()
                == related(v.deep_view(), v.deep_view()[i as int]),
            None => codes(v.deep_view(), v.deep_view()[i as int]).len() < 2,
        },
{
    let ghost s = v.deep_view();
    let ghost a = s[i as int];
    let mut all: Vec<String> = Vec::new();
    let mut others: Vec<String> = Vec::new();
    let mut k: usize = 0;
    assert(a == v@[i as int].deep_view());
    while k < v.len()
        invariant
            i < v.len(),
            k <= v.len(),
            s == v.deep_view(),
            a == v@[i as int].deep_view(),
            all.deep_view() == gather(0, k as int, code_of(s, a)),
            others.deep_view() == gather(0, k as int, other_code(s, a)),
        decreases v.len() - k,
    {
        assert(s[k as int] == v@[k as int].deep_view());
        if is_same_signal(&v[i], &v[k]) {
            put(&mut all, owned(v[k].code));
            if !same(v[k].code, v[i].code) {
                put(&mut others, owned(v[k].code));
            }
        }
        k += 1;
    }
    if all.len() < 2 {
        None
    } else {
        Some(sort(distinct_of(&others)))
    }
}

/// Two issues differ at most in their links.
pub open spec fn same_but_links(a: SignalIssueView, b: SignalIssueView) -> bool {
    a.code == b.code && a.message == b.message && a.file == b.file && a.line == b.line
        && a.component == b.component && a.signal == b.signal && a.fix == b.fix
}

/// What links an issue does not depend on the links that others have.
proof fn lemma_links_ignore_links(
    s: Seq<SignalIssueView>,
    u: Seq<SignalIssueView>,
    a: SignalIssueView,
    b: SignalIssueView,
    n: int,
)
    requires
        s.len() == u.len(),
        0 <= n <= s.len(),
        same_but_links(a, b),
        forall|k: int| 0 <= k < s.len() ==> same_but_links(#[trigger] s[k], u[k]),
    ensures
        gather(0, n, code_of(s, a)) == gather(0, n, code_of(u, b)),
        gather(0, n, other_code(s, a)) == gather(0, n, other_code(u, b)),
    decreases n,
{
    if n > 0 {
        lemma_links_ignore_links(s, u, a, b, n - 1);
        assert(same_but_links(s[n - 1], u[n - 1]));
        assert(code_of(s, a)(n - 1) == code_of(u, b)(n - 1));
        assert(other_code(s, a)(n - 1) == other_code(u, b)(n - 1));
    }
}

/// Links the issues that are on the same signal of the same component.
pub fn link_related_findings(issues: &mut Vec<SignalIssue>)
    ensures
        final(issues).deep_view() == all_linked(old(issues).deep_view()),
{
    let ghost s = issues.deep_view();
    let mut i: usize = 0;
    while i < issues.len()
        invariant
            i <= issues.len(),
            issues.deep_view().len() == s.len(),
            forall|k: int| 0 <= k < i ==> #[trigger] issues.deep_view()[k] == linked(s, s[k]),
            forall|k: int| i <= k < s.len() ==> #[trigger] issues.deep_view()[k] == s[k],
        decreases issues.len() - i,
    {
        let ghost before = issues.deep_view();
        proof {
            assert forall|k: int| 0 <= k < s.len() implies same_but_links(
                #[trigger] before[k],
                s[k],
            ) by {
                if k < i {
                    assert(before[k] == linked(s, s[k]));
                } else {
                    assert(before[k] == s[k]);
                }
            }
            lemma_links_ignore_links(
                before,
                s,
                before[i as int],
                s[i as int],
                s.len() as int,
            );
        }
        match related_of(issues, i) {
            Some(codes) => {
                issues[i].related_codes = codes;
                assert(issues.deep_view() =~= before.update(i as int, linked(s, s[i as int])));
            },
            None => {},
        }
        i += 1;
    }
    assert(issues.deep_view() =~= all_linked(s));
}

/// Links are mutual: if the codes of two issues on the same signal differ, each
/// issue names the code of the other.
pub proof fn law_links_are_mutual(s: Seq<SignalIssueView>, i: int, j: int)
    requires
        0 <= i < s.len(),
        0 <= j < s.len(),
        same_signal(s[i], s[j]),
        s[i].code != s[j].code,
    ensures
        all_linked(s)[i].related_codes.contains(s[j].code),
        all_linked(s)[j].related_codes.contains(s[i].code),
{
    lemma_names_other(s, i, j);
    lemma_names_other(s, j, i);
}

proof fn lemma_count_two(s: Seq<SignalIssueView>, a: SignalIssueView, i: int, j: int, n: int)
    requires
        0 <= i < j < n <= s.len(),
        same_signal(a, s[i]),
        same_signal(a, s[j]),
    ensures
        gather(0, n, code_of(s, a)).len() >= 2,
    decreases n,
{
    if n - 1 > j {
        lemma_count_two(s, a, i, j, n - 1);
    } else {
        lemma_count_one(s, a, i, n - 1);
    }
}

proof fn lemma_count_one(s: Seq<SignalIssueView>, a: SignalIssueView, i: int, n: int)
    requires
        0 <= i < n <= s.len(),
        same_signal(a, s[i]),
    ensures
        gather(0, n, code_of(s, a)).len() >= 1,
    decreases n,
{
    if n - 1 > i {
        lemma_count_one(s, a, i, n - 1);
    }
}

proof fn lemma_names_other(s: Seq<SignalIssueView>, i: int, j: int)
    requires
        0 <= i < s.len(),
        0 <= j < s.len(),
        same_signal(s[i], s[j]),
        s[i].code != s[j].code,
    ensures
        all_linked(s)[i].related_codes.contains(s[j].code),
{
    broadcast use vstd::seq_lib::group_to_multiset_ensures;

    let a = s[i];
    if i < j {
        lemma_count_two(s, a, i, j, s.len() as int);
    } else {
        lemma_count_two(s, a, j, i, s.len() as int);
    }
    let all = gather(0, s.len() as int, other_code(s, a));
    crate::order::lemma_gather_contains(0, s.len() as int, other_code(s, a), s[j].code);
    assert(other_code(s, a)(j) == seq![s[j].code]);
    assert(other_code(s, a)(j)[0] == s[j].code);
    assert(other_code(s, a)(j).contains(s[j].code));
    lemma_distinct(all);
    let d = distinct(all);
    assert(d.contains(s[j].code));
    lemma_sorted(d, rank::<String>());
    assert(d.to_multiset().count(s[j].code) > 0);
    assert(sorted(d, rank::<String>()).to_multiset().count(s[j].code) > 0);
    assert(sorted(d, rank::<String>()).contains(s[j].code));
}

/// Linking changes nothing but the links, and links an issue only to the other codes of
/// the same signal in the same component.
pub proof fn law_links_are_real(s: Seq<SignalIssueView>, i: int, c: Seq<char>)
    requires
        0 <= i < s.len(),
        s[i].related_codes.len() == 0,
    ensures
        ({
            let x = all_linked(s)[i];
            &&& all_linked(s).len() == s.len()
            &&& x.code == s[i].code && x.message == s[i].message && x.file == s[i].file && x.line
                == s[i].line && x.component == s[i].component && x.signal == s[i].signal && x.fix
                == s[i].fix
            &&& x.related_codes.contains(c) ==> c != s[i].code && exists|j: int|
                0 <= j < s.len() && (#[trigger] s[j]).code == c && s[j].component == s[i].component
                    && s[j].signal == s[i].signal
        }),
{
    let a = s[i];
    let rule = other_code(s, a);
    let all = gather(0, s.len() as int, rule);
    if related(s, a).contains(c) {
        crate::order::lemma_sorted_contains(distinct(all), rank::<String>(), c);
        lemma_distinct(all);
        lemma_gather_contains(0, s.len() as int, rule, c);
        let j = choose|j: int| 0 <= j < s.len() && (#[trigger] rule(j)).contains(c);
        assert(s[j].code == c);
    }
}

} // verus!
