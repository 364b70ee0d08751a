//! The headline of a run: findings rolled up by lint, code and severity.
use vstd::prelude::*;

use crate::order::{
    gather, inserted, law_sorted, lemma_gather_contains, lemma_sorted, lemma_text_le, only_if, put,
    rank, sort, sorted, text_le, text_leq, Ranked,
};
use crate::text::{owned, same};

verus! {

/// One finding, as the headline counts it.
#[derive(Debug)]
pub struct Event {
    pub lint: &'static str,
    pub code: Option<String>,
    pub severity: &'static str,
}

pub ghost struct EventView {
    pub lint: Seq<char>,
    pub code: Option<Seq<char>>,
    pub severity: Seq<char>,
}

impl DeepView for Event {
    type V = EventView;

    open spec fn deep_view(&self) -> EventView {
        EventView {
            lint: self.lint@,
            code: self.code.deep_view(),
            severity: self.severity@,
        }
    }
}

/// The findings of one lint with one code and one severity.
#[derive(Debug)]
pub struct HeadlineEntry {
    pub lint: String,
    /// The code of the findings, where the lint gives one.
    pub code: Option<String>,
    /// `error`, `warning`, `info` or `hint`.
    pub severity: &'static str,
    pub count: usize,
}

pub ghost struct HeadlineEntryView {
    pub lint: Seq<char>,
    pub code: Option<Seq<char>>,
    pub severity: Seq<char>,
    pub count: nat,
}

impl DeepView for HeadlineEntry {
    type V = HeadlineEntryView;

    open spec fn deep_view(&self) -> HeadlineEntryView {
        HeadlineEntryView {
            lint: self.lint@,
            code: self.code.deep_view(),
            severity: self.severity@,
            count: self.count as nat,
        }
    }
}

// ---------------------------------------------------------------------------
// Severities
// ---------------------------------------------------------------------------

/// How much `s` weighs.
pub open spec fn weight(s: Seq<char>) -> int {
    if s == "error"@ {
        4
    } else if s == "warning"@ {
        3
    } else if s == "info"@ {
        2
    } else if s == "hint"@ {
        1
    } else {
        0
    }
}

pub fn severity_rank(s: &str) -> (r: u8)
    ensures
        r == weight(s@),
{
    if same(s, "error") {
        4
    } else if same(s, "warning") {
        3
    } else if same(s, "info") {
        2
    } else if same(s, "hint") {
        1
    } else {
        0
    }
}

/// `raw` if it is a severity, `default` otherwise.
pub open spec fn severity_or(raw: Option<Seq<char>>, default: Seq<char>) -> Seq<char> {
    match raw {
        Some(s) => if weight(s) > 0 {
            s
        } else {
            default
        },
        None => default,
    }
}

pub fn severity_str(raw: Option<&str>, default: &'static str) -> (r: &'static str)
    ensures
        r@ == severity_or(raw.deep_view(), default@),
{
    match raw {
        Some(s) => if same(s, "error") {
            "error"
        } else if same(s, "warning") {
            "warning"
        } else if same(s, "info") {
            "info"
        } else if same(s, "hint") {
            "hint"
        } else {
            default
        },
        None => default,
    }
}

// ---------------------------------------------------------------------------
// Events
// ---------------------------------------------------------------------------

/// A finding of a lint: its code and its severity.
pub trait Coded: DeepView + Sized {
    spec fn code(v: Self::V) -> Option<Seq<char>>;

    spec fn tier(v: Self::V) -> Seq<char>;

    fn code_of(&self) -> (r: Option<String>)
        ensures
            r.deep_view() == Self::code(self.deep_view()),
    ;

    fn tier_of(&self) -> (r: &'static str)
        ensures
            r@ == Self::tier(self.deep_view()),
    ;
}

/// The findings `s` of a lint as events.
pub open spec fn lint_events<T: Coded>(lint: Seq<char>, s: Seq<T::V>) -> Seq<EventView> {
    Seq::new(s.len(), |k: int| EventView { lint, code: T::code(s[k]), severity: T::tier(s[k]) })
}

/// Adds the findings `v` of a lint at the end of `out`.
pub fn put_events<T: Coded>(out: &mut Vec<Event>, lint: &'static str, v: &Vec<T>)
    ensures
        final(out).deep_view() == old(out).deep_view() + lint_events::<T>(lint@, v.deep_view()),
{
    let ghost s = v.deep_view();
    let ghost before = out.deep_view();
    let mut k: usize = 0;
    assert(out.deep_view() =~= before + lint_events::<T>(lint@, s).take(0));
    while k < v.len()
        invariant
            k <= v.len(),
            s == v.deep_view(),
            out.deep_view() =~= before + lint_events::<T>(lint@, s).take(k as int),
        decreases v.len() - k,
    {
        assert(s[k as int] == v@[k as int].deep_view());
        put(out, Event { lint, code: v[k].code_of(), severity: v[k].tier_of() });
        assert(lint_events::<T>(lint@, s).take(k + 1) =~= lint_events::<T>(lint@, s).take(
            k as int,
        ).push(lint_events::<T>(lint@, s)[k as int]));
        k += 1;
    }
    assert(lint_events::<T>(lint@, s).take(k as int) =~= lint_events::<T>(lint@, s));
}

// ---------------------------------------------------------------------------
// Rows
// ---------------------------------------------------------------------------

/// How many of the first `n` events are `e`.
pub open spec fn tally(es: Seq<EventView>, e: EventView, n: int) -> nat
    decreases n,
{
    if n <= 0 {
        0
    } else {
        tally(es, e, n - 1) + if es[n - 1] == e {
            1nat
        } else {
            0nat
        }
    }
}

/// No event before number `k` is the same.
pub open spec fn first_event(es: Seq<EventView>, k: int) -> bool {
    forall|m: int| 0 <= m < k ==> #[trigger] es[m] != es[k]
}

pub open spec fn entry(es: Seq<EventView>, e: EventView) -> HeadlineEntryView {
    HeadlineEntryView {
        lint: e.lint,
        code: e.code,
        severity: e.severity,
        count: tally(es, e, es.len() as int),
    }
}

pub open spec fn row_at(es: Seq<EventView>) -> spec_fn(int) -> Seq<HeadlineEntryView> {
    |k: int| only_if(first_event(es, k), entry(es, es[k]))
}

/// One row for each kind of event.
pub open spec fn rows(es: Seq<EventView>) -> Seq<HeadlineEntryView> {
    gather(0, es.len() as int, row_at(es))
}

/// The rows, the heaviest first.
pub open spec fn headline(es: Seq<EventView>) -> Seq<HeadlineEntryView> {
    sorted(rows(es), rank::<HeadlineEntry>())
}

/// No code comes before any code.
pub open spec fn code_le(a: Option<Seq<char>>, b: Option<Seq<char>>) -> bool {
    match (a, b) {
        (None, _) => true,
        (Some(_), None) => false,
        (Some(x), Some(y)) => text_le(x, y),
    }
}

fn code_leq(a: &Option<String>, b: &Option<String>) -> (r: bool)
    ensures
        r == code_le(a.deep_view(), b.deep_view()),
{
    match (a, b) {
        (None, _) => true,
        (Some(_), None) => false,
        (Some(x), Some(y)) => text_leq(x.as_str(), y.as_str()),
    }
}

impl Ranked for HeadlineEntry {
    /// By severity and then by count, the greater first; then by lint, then by
    /// code.
    open spec fn le(a: HeadlineEntryView, b: HeadlineEntryView) -> bool {
        if weight(a.severity) != weight(b.severity) {
            weight(a.severity) > weight(b.severity)
        } else if a.count != b.count {
            a.count > b.count
        } else if a.lint != b.lint {
            text_le(a.lint, b.lint)
        } else {
            code_le(a.code, b.code)
        }
    }

    proof fn ordered(a: HeadlineEntryView, b: HeadlineEntryView, c: HeadlineEntryView) {
        lemma_text_le(a.lint, b.lint, c.lint);
        lemma_code_le(a.code, b.code, c.code);
    }

    fn leq(&self, other: &Self) -> (r: bool) {
        let a = severity_rank(self.severity);
        let b = severity_rank(other.severity);
        if a != b {
            a > b
        } else if self.count != other.count {
            self.count > other.count
        } else if !same(self.lint.as_str(), other.lint.as_str()) {
            text_leq(self.lint.as_str(), other.lint.as_str())
        } else {
            code_leq(&self.code, &other.code)
        }
    }
}

fn same_code(a: &Option<String>, b: &Option<String>) -> (r: bool)
    ensures
        r == (a.deep_view() == b.deep_view()),
{
    match (a, b) {
        (None, None) => true,
        (Some(x), Some(y)) => same(x.as_str(), y.as_str()),
        _ => false,
    }
}

fn same_event(a: &Event, b: &Event) -> (r: bool)
    ensures
        r == (a.deep_view() == b.deep_view()),
{
    same(a.lint, b.lint) && same_code(&a.code, &b.code) && same(a.severity, b.severity)
}

fn is_first_event(es: &Vec<Event>, k: usize) -> (r: bool)
    requires
        k < es.len(),
    ensures
        r == first_event(es.deep_view(), k as int),
{
    let ghost v = es.deep_view();
    assert(v[k as int] == es@[k as int].deep_view());
    let mut m: usize = 0;
    while m < k
        invariant
            m <= k < es.len(),
            v == es.deep_view(),
            v[k as int] == es@[k as int].deep_view(),
            forall|i: int| 0 <= i < m ==> #[trigger] v[i] != v[k as int],
        decreases k - m,
    {
        assert(v[m as int] == es@[m as int].deep_view());
        if same_event(&es[m], &es[k]) {
            return false;
        }
        m += 1;
    }
    true
}

fn tally_of(es: &Vec<Event>, k: usize) -> (r: usize)
    requires
        k < es.len(),
    ensures
        r == tally(es.deep_view(), es.deep_view()[k as int], es.len() as int),
{
    let ghost v = es.deep_view();
    assert(v[k as int] == es@[k as int].deep_view());
    let mut n: usize = 0;
    let mut m: usize = 0;
    while m < es.len()
        invariant
            m <= es.len(),
            n <= m,
            k < es.len(),
            v == es.deep_view(),
            v[k as int] == es@[k as int].deep_view(),
            n == tally(v, v[k as int], m as int),
        decreases es.len() - m,
    {
        assert(v[m as int] == es@[m as int].deep_view());
        if same_event(&es[m], &es[k]) {
            n += 1;
        }
        m += 1;
    }
    n
}

fn copy_code(c: &Option<String>) -> (r: Option<String>)
    ensures
        r.deep_view() == c.deep_view(),
{
    match c {
        Some(s) => Some(owned(s.as_str())),
        None => None,
    }
}

/// The headline of the events `es`.
pub fn headline_of(es: &Vec<Event>) -> (r: Vec<HeadlineEntry>)
    ensures
        r.deep_view() == headline(es.deep_view()),
{
    let ghost v = es.deep_view();
    let mut out: Vec<HeadlineEntry> = Vec::new();
    let mut k: usize = 0;
    while k < es.len()
        invariant
            k <= es.len(),
            v == es.deep_view(),
            out.deep_view() == gather(0, k as int, row_at(v)),
        decreases es.len() - k,
    {
        assert(v[k as int] == es@[k as int].deep_view());
        if is_first_event(es, k) {
            let row = HeadlineEntry {
                lint: owned(es[k].lint),
                code: copy_code(&es[k].code),
                severity: es[k].severity,
                count: tally_of(es, k),
            };
            put(&mut out, row);
        }
        k += 1;
    }
    sort(out)
}

// ---------------------------------------------------------------------------
// Laws
// ---------------------------------------------------------------------------

proof fn lemma_code_le(a: Option<Seq<char>>, b: Option<Seq<char>>, c: Option<Seq<char>>)
    ensures
        code_le(a, b) || code_le(b, a),
        code_le(a, b) && code_le(b, c) ==> code_le(a, c),
{
    match (a, b) {
        (Some(x), Some(y)) => {
            match c {
                Some(z) => {
                    lemma_text_le(x, y, z);
                },
                None => {
                    lemma_text_le(x, y, y);
                },
            }
        },
        _ => {},
    }
}

/// The headline is in order: no row weighs more than one before it, and of rows
/// of one severity none counts more than one before it.
pub proof fn law_headline_order(es: Seq<EventView>, i: int, j: int)
    requires
        0 <= i < j < headline(es).len(),
    ensures
        weight(headline(es)[i].severity) >= weight(headline(es)[j].severity),
        headline(es)[i].severity == headline(es)[j].severity ==> headline(es)[i].count
            >= headline(es)[j].count,
{
    law_sorted::<HeadlineEntry>(rows(es));
    let le = rank::<HeadlineEntry>();
    assert(le(headline(es)[i], headline(es)[j]));
}

/// The sum of the counts of rows.
pub open spec fn counted(s: Seq<HeadlineEntryView>) -> nat
    decreases s.len(),
{
    if s.len() == 0 {
        0
    } else {
        counted(s.drop_last()) + s.last().count
    }
}

proof fn lemma_counted_push(s: Seq<HeadlineEntryView>, x: HeadlineEntryView)
    ensures
        counted(s.push(x)) == counted(s) + x.count,
{
    assert(s.push(x).drop_last() =~= s);
}

proof fn lemma_counted_inserted(
    s: Seq<HeadlineEntryView>,
    x: HeadlineEntryView,
    le: spec_fn(HeadlineEntryView, HeadlineEntryView) -> bool,
)
    ensures
        counted(inserted(s, x, le)) == counted(s) + x.count,
    decreases s.len(),
{
    if s.len() == 0 {
        lemma_counted_push(s, x);
        assert(seq![x] =~= s.push(x));
    } else if le(s.last(), x) {
        lemma_counted_push(s, x);
    } else {
        lemma_counted_inserted(s.drop_last(), x, le);
        lemma_counted_push(inserted(s.drop_last(), x, le), s.last());
    }
}

proof fn lemma_counted_sorted(
    s: Seq<HeadlineEntryView>,
    le: spec_fn(HeadlineEntryView, HeadlineEntryView) -> bool,
)
    ensures
        counted(sorted(s, le)) == counted(s),
    decreases s.len(),
{
    if s.len() > 0 {
        lemma_counted_sorted(s.drop_last(), le);
        lemma_counted_inserted(sorted(s.drop_last(), le), s.last(), le);
    }
}

/// How often the events before number `n` count in the rows of those before
/// number `m`.
spec fn partial(es: Seq<EventView>, n: int, m: int) -> nat
    decreases m,
{
    if m <= 0 {
        0
    } else {
        partial(es, n, m - 1) + if first_event(es, m - 1) {
            tally(es, es[m - 1], n)
        } else {
            0
        }
    }
}

proof fn lemma_partial_step(es: Seq<EventView>, n: int, m: int)
    requires
        0 < n <= es.len(),
        0 <= m <= es.len(),
    ensures
        partial(es, n, m) == partial(es, n - 1, m) + if exists|k: int|
            0 <= k < m && #[trigger] es[k] == es[n - 1] {
            1nat
        } else {
            0nat
        },
    decreases m,
{
    if m > 0 {
        lemma_partial_step(es, n, m - 1);
        let before = exists|k: int| 0 <= k < m - 1 && #[trigger] es[k] == es[n - 1];
        let now = exists|k: int| 0 <= k < m && #[trigger] es[k] == es[n - 1];
        if es[m - 1] == es[n - 1] {
            assert(now);
            if before {
                let k = choose|k: int| 0 <= k < m - 1 && #[trigger] es[k] == es[n - 1];
                assert(es[k] == es[m - 1]);
                assert(!first_event(es, m - 1));
            } else {
                assert(first_event(es, m - 1));
            }
        } else if now {
            let k = choose|k: int| 0 <= k < m && #[trigger] es[k] == es[n - 1];
            assert(k < m - 1);
        }
    }
}

proof fn lemma_partial(es: Seq<EventView>, n: int)
    requires
        0 <= n <= es.len(),
    ensures
        partial(es, n, es.len() as int) == n,
    decreases n,
{
    if n > 0 {
        lemma_partial(es, n - 1);
        lemma_partial_step(es, n, es.len() as int);
        assert(es[n - 1] == es[n - 1]);
    } else {
        lemma_partial_zero(es, es.len() as int);
    }
}

proof fn lemma_partial_zero(es: Seq<EventView>, m: int)
    ensures
        partial(es, 0, m) == 0,
    decreases m,
{
    if m > 0 {
        lemma_partial_zero(es, m - 1);
    }
}

proof fn lemma_rows_counted(es: Seq<EventView>, m: int)
    requires
        0 <= m <= es.len(),
    ensures
        counted(gather(0, m, row_at(es))) == partial(es, es.len() as int, m),
    decreases m,
{
    if m > 0 {
        lemma_rows_counted(es, m - 1);
        let before = gather(0, m - 1, row_at(es));
        if first_event(es, m - 1) {
            let x = entry(es, es[m - 1]);
            assert(before + seq![x] =~= before.push(x));
            lemma_counted_push(before, x);
        } else {
            assert(before + Seq::<HeadlineEntryView>::empty() =~= before);
        }
    }
}

/// The headline loses no finding and counts none twice: its counts add up to
/// the number of findings.
pub proof fn law_headline_counts(es: Seq<EventView>)
    ensures
        counted(headline(es)) == es.len(),
{
    lemma_counted_sorted(rows(es), rank::<HeadlineEntry>());
    lemma_rows_counted(es, es.len() as int);
    lemma_partial(es, es.len() as int);
}

/// What a row counts.
pub open spec fn kind(h: HeadlineEntryView) -> EventView {
    EventView { lint: h.lint, code: h.code, severity: h.severity }
}

/// Every row counts the findings of its kind, and there is a row for each kind
/// that occurs.
pub proof fn law_headline_rows(es: Seq<EventView>)
    ensures
        forall|h: HeadlineEntryView| #[trigger]
            headline(es).contains(h) ==> h.count == tally(es, kind(h), es.len() as int)
                && es.contains(kind(h)),
        forall|k: int|
            0 <= k < es.len() ==> headline(es).contains(entry(es, #[trigger] es[k])),
{
    lemma_sorted(rows(es), rank::<HeadlineEntry>());
    assert forall|h: HeadlineEntryView| #[trigger] headline(es).contains(h) <==> rows(es).contains(
        h,
    ) by {
        lemma_same_multiset(headline(es), rows(es), h);
    }
    assert forall|h: HeadlineEntryView| #[trigger] headline(es).contains(h) implies h.count == tally(
        es,
        kind(h),
        es.len() as int,
    ) && es.contains(kind(h)) by {
        lemma_gather_contains(0, es.len() as int, row_at(es), h);
        let k = choose|k: int| 0 <= k < es.len() && (#[trigger] row_at(es)(k)).contains(h);
        assert(h == entry(es, es[k]));
        assert(kind(h) == es[k]);
    }
    assert forall|k: int| 0 <= k < es.len() implies headline(es).contains(
        entry(es, #[trigger] es[k]),
    ) by {
        lemma_first_event(es, k);
        let m = choose|m: int| 0 <= m <= k && es[m] == es[k] && #[trigger] first_event(es, m);
        let h = entry(es, es[m]);
        assert(row_at(es)(m) == seq![h]);
        assert(row_at(es)(m)[0] == h);
        assert(row_at(es)(m).contains(h));
        lemma_gather_contains(0, es.len() as int, row_at(es), h);
        assert(rows(es).contains(h));
    }
}

proof fn lemma_first_event(es: Seq<EventView>, k: int)
    requires
        0 <= k < es.len(),
    ensures
        exists|m: int| 0 <= m <= k && es[m] == es[k] && #[trigger] first_event(es, m),
    decreases k,
{
    if !first_event(es, k) {
        let m = choose|m: int| 0 <= m < k && #[trigger] es[m] == es[k];
        lemma_first_event(es, m);
        let i = choose|i: int| 0 <= i <= m && es[i] == es[m] && #[trigger] first_event(es, i);
        assert(es[i] == es[k] && first_event(es, i));
    }
}

proof fn lemma_same_multiset<A>(s: Seq<A>, t: Seq<A>, x: A)
    requires
        s.to_multiset() =~= t.to_multiset(),
    ensures
        s.contains(x) <==> t.contains(x),
{
    broadcast use vstd::seq_lib::group_to_multiset_ensures;

    assert(s.contains(x) <==> s.to_multiset().count(x) > 0);
    assert(t.contains(x) <==> t.to_multiset().count(x) > 0);
}

} // verus!
