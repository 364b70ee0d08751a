//! Modules that each provide one signal through a context.
use vstd::prelude::*;

use super::report::{
    ContextSignalModule, ContextSignalModuleView, ContextSignalTriad, ContextSignalTriadView,
    ContextSignalTriadsSummary, ContextSignalTriadsSummaryView,
};
use crate::order::{
    gather, in_order, law_sorted, lemma_text_le, put, put_all, rank, sort, sorted, text_le,
    text_leq, Ranked,
};
use crate::paths::{is_same_path, lemma_path_le, path_le, path_leq, same_path};
use crate::scan::{top_fn, ScannedFile};
use crate::tape::{Kind, Node};
use crate::text::{
    after_prefix, at, contains, decimal, decimal_usize, join, joined, occurs, owned, remove_char, same,
    squeeze, squeezed, strip_prefix, trimmed, without,
};

verus! {

/// From how many pairs on they are reported without further conditions.
pub const CONTEXT_SIGNAL_TRIAD_THRESHOLD: usize = 3;

/// Two functions `provide_X` and `use_X` of one file.
#[derive(Debug)]
pub struct ContextPair {
    pub module: ContextSignalModule,
    /// Both bodies only pass a signal through a context.
    pub boilerplate: bool,
}

pub ghost struct ContextPairView {
    pub module: ContextSignalModuleView,
    pub boilerplate: bool,
}

impl DeepView for ContextPair {
    type V = ContextPairView;

    open spec fn deep_view(&self) -> ContextPairView {
        ContextPairView {
            module: self.module.deep_view(),
            boilerplate: self.boilerplate,
        }
    }
}

impl Ranked for ContextPair {
    /// By file, then by suffix.
    open spec fn le(a: ContextPairView, b: ContextPairView) -> bool {
        if !same_path(a.module.file, b.module.file) {
            path_le(a.module.file, b.module.file)
        } else {
            text_le(a.module.name, b.module.name)
        }
    }

    proof fn ordered(a: ContextPairView, b: ContextPairView, c: ContextPairView) {
        lemma_path_le(a.module.file, b.module.file, c.module.file);
        lemma_text_le(a.module.name, b.module.name, c.module.name);
    }

    fn leq(&self, other: &Self) -> (r: bool) {
        if !is_same_path(self.module.file.as_str(), other.module.file.as_str()) {
            path_leq(self.module.file.as_str(), other.module.file.as_str())
        } else {
            text_leq(self.module.name.as_str(), other.module.name.as_str())
        }
    }
}

/// `s` with every run of white space replaced by one space, and none at its ends.
pub open spec fn collapsed(s: Seq<char>) -> Seq<char> {
    trimmed(squeezed(s, true))
}

pub fn collapse_ws(s: &str) -> (r: String)
    ensures
        r@ == collapsed(s@),
{
    squeeze(s, true)
}

/// A body that provides a signal through a context.
pub open spec fn provides_signal(body: Seq<char>) -> bool {
    let s = without(body, ' ');
    occurs(s, "use_context_provider"@) && (occurs(s, "Signal::new"@) || occurs(s, "Signal<"@))
}

pub fn is_signal_provider_boilerplate(body: &str) -> (r: bool)
    ensures
        r == provides_signal(body@),
{
    let s = remove_char(body, ' ');
    contains(s.as_str(), "use_context_provider") && (contains(s.as_str(), "Signal::new")
        || contains(s.as_str(), "Signal<"))
}

/// A body that reads a signal from a context.
pub open spec fn uses_signal(body: Seq<char>) -> bool {
    let s = without(body, ' ');
    occurs(s, "use_context::<Signal<"@) || occurs(s, "use_context::<ReadSignal<"@) || occurs(
        s,
        "use_context::<WriteSignal<"@,
    )
}

pub fn is_signal_use_boilerplate(body: &str) -> (r: bool)
    ensures
        r == uses_signal(body@),
{
    let s = remove_char(body, ' ');
    contains(s.as_str(), "use_context::<Signal<") || contains(
        s.as_str(),
        "use_context::<ReadSignal<",
    ) || contains(s.as_str(), "use_context::<WriteSignal<")
}

// ---------------------------------------------------------------------------
// Pairs
// ---------------------------------------------------------------------------

/// Node `i` is a public function at the top level.
pub open spec fn public_fn(t: Seq<Node>, i: int) -> bool {
    top_fn(t, i) && t[i].mark
}

/// The suffix of the function at `i` behind `provide_`.
pub open spec fn provided(t: Seq<Node>, i: int) -> Option<Seq<char>> {
    if public_fn(t, i) {
        after_prefix(t[i].name@, "provide_"@)
    } else {
        None
    }
}

/// The suffix of the function at `i` behind `use_`.
pub open spec fn used(t: Seq<Node>, i: int) -> Option<Seq<char>> {
    if public_fn(t, i) && after_prefix(t[i].name@, "provide_"@) is None {
        after_prefix(t[i].name@, "use_"@)
    } else {
        None
    }
}

fn provided_of(t: &Vec<Node>, i: usize) -> (r: Option<String>)
    requires
        i < t.len(),
    ensures
        r.deep_view() == provided(t@, i as int),
{
    if t[i].kind == Kind::Fn && t[i].parent == 0 && i > 0 && t[i].mark {
        strip_prefix(t[i].name.as_str(), "provide_")
    } else {
        None
    }
}

fn used_of(t: &Vec<Node>, i: usize) -> (r: Option<String>)
    requires
        i < t.len(),
    ensures
        r.deep_view() == used(t@, i as int),
{
    if t[i].kind == Kind::Fn && t[i].parent == 0 && i > 0 && t[i].mark {
        match strip_prefix(t[i].name.as_str(), "provide_") {
            Some(_) => None,
            None => strip_prefix(t[i].name.as_str(), "use_"),
        }
    } else {
        None
    }
}

/// The last function before `n` called `use_` and then `suffix`.
pub open spec fn last_use(t: Seq<Node>, suffix: Seq<char>, n: int) -> Option<int>
    decreases n,
{
    if n <= 0 {
        None
    } else if used(t, n - 1) == Some(suffix) {
        Some(n - 1)
    } else {
        last_use(t, suffix, n - 1)
    }
}

/// The function at `i` is the last one that provides its suffix.
pub open spec fn last_provide(t: Seq<Node>, i: int) -> bool {
    forall|k: int| i < k < t.len() ==> #[trigger] provided(t, k) != provided(t, i)
}

/// The pair that the function at `i` provides.
pub open spec fn pair(t: Seq<Node>, i: int, file: Seq<char>) -> Option<ContextPairView> {
    match provided(t, i) {
        Some(name) => match last_use(t, name, t.len() as int) {
            Some(u) => if last_provide(t, i) {
                Some(
                    ContextPairView {
                        module: ContextSignalModuleView {
                            file,
                            name,
                            provide_line: t[i].line,
                            use_line: t[u].line,
                        },
                        boilerplate: provides_signal(collapsed(t[i].text@)) && uses_signal(
                            collapsed(t[u].text@),
                        ),
                    },
                )
            } else {
                None
            },
            None => None,
        },
        None => None,
    }
}

pub open spec fn pair_at(t: Seq<Node>, file: Seq<char>) -> spec_fn(int) -> Seq<ContextPairView> {
    |i: int|
        match pair(t, i, file) {
            Some(p) => seq![p],
            None => Seq::empty(),
        }
}

pub open spec fn file_pairs(files: Seq<ScannedFile>) -> spec_fn(int) -> Seq<ContextPairView> {
    |k: int|
        match files[k].ast {
            Ok(t) => gather(0, t@.len() as int, pair_at(t@, files[k].path@)),
            Err(_) => Seq::empty(),
        }
}

/// The pairs of a project, by file and suffix.
pub open spec fn pairs(files: Seq<ScannedFile>) -> Seq<ContextPairView> {
    sorted(gather(0, files.len() as int, file_pairs(files)), rank::<ContextPair>())
}

fn last_use_of(t: &Vec<Node>, suffix: &str) -> (r: Option<usize>)
    ensures
        match r {
            Some(u) => last_use(t@, suffix@, t@.len() as int) == Some(u as int) && u < t.len(),
            None => last_use(t@, suffix@, t@.len() as int) is None,
        },
{
    let mut n: usize = t.len();
    while n > 0
        invariant
            n <= t.len(),
            last_use(t@, suffix@, t@.len() as int) == last_use(t@, suffix@, n as int),
        decreases n,
    {
        match used_of(t, n - 1) {
            Some(s) => {
                if same(s.as_str(), suffix) {
                    return Some(n - 1);
                }
            },
            None => {},
        }
        n -= 1;
    }
    None
}

fn is_last_provide(t: &Vec<Node>, i: usize, name: &str) -> (r: bool)
    requires
        i < t.len(),
        provided(t@, i as int) == Some(name@),
    ensures
        r == last_provide(t@, i as int),
{
    let mut k: usize = i + 1;
    while k < t.len()
        invariant
            i < k <= t.len(),
            provided(t@, i as int) == Some(name@),
            forall|m: int| i < m < k ==> #[trigger] provided(t@, m) != provided(t@, i as int),
        decreases t.len() - k,
    {
        match provided_of(t, k) {
            Some(s) => {
                if same(s.as_str(), name) {
                    assert(provided(t@, k as int) == provided(t@, i as int));
                    return false;
                }
            },
            None => {},
        }
        k += 1;
    }
    true
}

fn pair_of(t: &Vec<Node>, i: usize, file: &str) -> (r: Option<ContextPair>)
    requires
        i < t.len(),
    ensures
        r.deep_view() == pair(t@, i as int, file@),
{
    match provided_of(t, i) {
        Some(name) => match last_use_of(t, name.as_str()) {
            Some(u) => {
                if !is_last_provide(t, i, name.as_str()) {
                    return None;
                }
                let boilerplate = is_signal_provider_boilerplate(
                    collapse_ws(t[i].text.as_str()).as_str(),
                ) && is_signal_use_boilerplate(collapse_ws(t[u].text.as_str()).as_str());
                let module = ContextSignalModule {
                    file: owned(file),
                    name,
                    provide_line: t[i].line,
                    use_line: t[u].line,
                };
                Some(ContextPair { module, boilerplate })
            },
            None => None,
        },
        None => None,
    }
}

fn pairs_in(t: &Vec<Node>, file: &str) -> (r: Vec<ContextPair>)
    ensures
        r.deep_view() == gather(0, t@.len() as int, pair_at(t@, file@)),
{
    let mut out: Vec<ContextPair> = Vec::new();
    let mut i: usize = 0;
    while i < t.len()
        invariant
            i <= t.len(),
            out.deep_view() == gather(0, i as int, pair_at(t@, file@)),
        decreases t.len() - i,
    {
        match pair_of(t, i, file) {
            Some(p) => put(&mut out, p),
            None => {},
        }
        i += 1;
    }
    out
}

fn pairs_of(files: &Vec<ScannedFile>) -> (r: Vec<ContextPair>)
    ensures
        r.deep_view() == pairs(files@),
{
    let mut out: Vec<ContextPair> = Vec::new();
    let mut k: usize = 0;
    while k < files.len()
        invariant
            k <= files.len(),
            out.deep_view() == gather(0, k as int, file_pairs(files@)),
        decreases files.len() - k,
    {
        match &files[k].ast {
            Ok(t) => put_all(&mut out, pairs_in(t, files[k].path.as_str())),
            Err(_) => {},
        }
        k += 1;
    }
    sort(out)
}

// ---------------------------------------------------------------------------
// Suggestions
// ---------------------------------------------------------------------------

pub open spec fn pair_names(ps: Seq<ContextPairView>) -> Seq<Seq<char>> {
    Seq::new(ps.len(), |k: int| ps[k].module.name)
}

pub open spec fn pair_modules(ps: Seq<ContextPairView>) -> Seq<ContextSignalModuleView> {
    Seq::new(ps.len(), |k: int| ps[k].module)
}

pub open spec fn all_boilerplate(ps: Seq<ContextPairView>) -> bool {
    forall|k: int| 0 <= k < ps.len() ==> (#[trigger] ps[k]).boilerplate
}

pub open spec fn many_message(n: nat, names: Seq<char>) -> Seq<char> {
    decimal(n)
        + " sibling context-signal modules detected ("@
        + names
        + "). Three or more `provide_X` + `use_X` pairs is a smell — consolidate into a single `Store` (see the `Store` primitive in `get_dsl_spec`) so callers share one provider and one type, instead of N near-identical files."@
}

fn many_message_of(n: usize, names: &str) -> (r: String)
    ensures
        r@ == many_message(n as nat, names@),
{
    let mut s = decimal_usize(n);
    s.append(" sibling context-signal modules detected (");
    s.append(names);
    s.append("). Three or more `provide_X` + `use_X` pairs is a smell — consolidate into a single `Store` (see the `Store` primitive in `get_dsl_spec`) so callers share one provider and one type, instead of N near-identical files.");
    s
}

pub open spec fn two_message(names: Seq<char>) -> Seq<char> {
    "2 sibling context-signal modules detected ("@
        + names
        + "). Each one is a byte-identical `use_context_provider(|| Signal::new(…))` + `use_context::<Signal<…>>()` pair — the boilerplate is already present, just below the N=3 warning threshold. Consider consolidating into a single `Store` now (see the `Store` primitive in `get_dsl_spec`) before a third context-signal pair lands and the duplication becomes harder to unwind."@
}

fn two_message_of(names: &str) -> (r: String)
    ensures
        r@ == two_message(names@),
{
    let mut s = owned("2 sibling context-signal modules detected (");
    s.append(names);
    s.append("). Each one is a byte-identical `use_context_provider(|| Signal::new(…))` + `use_context::<Signal<…>>()` pair — the boilerplate is already present, just below the N=3 warning threshold. Consider consolidating into a single `Store` now (see the `Store` primitive in `get_dsl_spec`) before a third context-signal pair lands and the duplication becomes harder to unwind.");
    s
}

/// The suggestion on the pairs `ps`: one for three or more, and one for two
/// that both only pass a signal.
pub open spec fn triads(ps: Seq<ContextPairView>) -> Seq<ContextSignalTriadView> {
    let names = joined(pair_names(ps), ", "@);
    if ps.len() >= CONTEXT_SIGNAL_TRIAD_THRESHOLD {
        seq![
            ContextSignalTriadView {
                modules: pair_modules(ps),
                message: many_message(ps.len(), names),
            },
        ]
    } else if ps.len() == 2 && all_boilerplate(ps) {
        seq![ContextSignalTriadView { modules: pair_modules(ps), message: two_message(names) }]
    } else {
        Seq::empty()
    }
}

pub open spec fn triads_summary(ps: Seq<ContextPairView>) -> ContextSignalTriadsSummaryView {
    ContextSignalTriadsSummaryView {
        detected: ps.len(),
        threshold: CONTEXT_SIGNAL_TRIAD_THRESHOLD,
        names: pair_names(ps),
    }
}

/// Below the threshold and without two pairs of boilerplate nothing is
/// suggested, but the summary still tells how many pairs there are.
pub proof fn law_summary_without_suggestion(ps: Seq<ContextPairView>)
    requires
        triads(ps).len() == 0,
    ensures
        triads_summary(ps).detected < triads_summary(ps).threshold,
        triads_summary(ps).names.len() == triads_summary(ps).detected,
{
}

/// Pairs are ordered by file, then by suffix.
pub proof fn law_pairs_in_order(files: Seq<ScannedFile>)
    ensures
        in_order(pairs(files), rank::<ContextPair>()),
{
    law_sorted::<ContextPair>(gather(0, files.len() as int, file_pairs(files)));
}

fn copy_names(ps: &Vec<ContextPair>) -> (r: Vec<String>)
    ensures
        r.deep_view() == pair_names(ps.deep_view()),
{
    let mut out: Vec<String> = Vec::new();
    let mut k: usize = 0;
    while k < ps.len()
        invariant
            k <= ps.len(),
            out.deep_view() =~= pair_names(ps.deep_view()).take(k as int),
        decreases ps.len() - k,
    {
        put(&mut out, owned(ps[k].module.name.as_str()));
        k += 1;
    }
    assert(out.deep_view() =~= pair_names(ps.deep_view()));
    out
}

fn copy_modules(ps: &Vec<ContextPair>) -> (r: Vec<ContextSignalModule>)
    ensures
        r.deep_view() == pair_modules(ps.deep_view()),
{
    let mut out: Vec<ContextSignalModule> = Vec::new();
    let mut k: usize = 0;
    while k < ps.len()
        invariant
            k <= ps.len(),
            out.deep_view() =~= pair_modules(ps.deep_view()).take(k as int),
        decreases ps.len() - k,
    {
        let m = &ps[k].module;
        let copy = ContextSignalModule {
            file: owned(m.file.as_str()),
            name: owned(m.name.as_str()),
            provide_line: m.provide_line,
            use_line: m.use_line,
        };
        put(&mut out, copy);
        k += 1;
    }
    assert(out.deep_view() =~= pair_modules(ps.deep_view()));
    out
}

fn is_all_boilerplate(ps: &Vec<ContextPair>) -> (r: bool)
    ensures
        r == all_boilerplate(ps.deep_view()),
{
    let ghost v = ps.deep_view();
    let mut k: usize = 0;
    while k < ps.len()
        invariant
            k <= ps.len(),
            v == ps.deep_view(),
            forall|m: int| 0 <= m < k ==> (#[trigger] v[m]).boilerplate,
        decreases ps.len() - k,
    {
        assert(v[k as int] == ps@[k as int].deep_view());
        if !ps[k].boilerplate {
            return false;
        }
        k += 1;
    }
    true
}

/// The suggestion on the pairs `ps`, and the summary.
pub fn suggest(ps: &Vec<ContextPair>) -> (r: (Vec<ContextSignalTriad>, ContextSignalTriadsSummary))
    ensures
        r.0.deep_view() == triads(ps.deep_view()),
        r.1.deep_view() == triads_summary(ps.deep_view()),
{
    let summary = ContextSignalTriadsSummary {
        detected: ps.len(),
        threshold: CONTEXT_SIGNAL_TRIAD_THRESHOLD,
        names: copy_names(ps),
    };
    let names = join(&copy_names(ps), ", ");
    let mut out: Vec<ContextSignalTriad> = Vec::new();
    if ps.len() >= CONTEXT_SIGNAL_TRIAD_THRESHOLD {
        let message = many_message_of(ps.len(), names.as_str());
        put(&mut out, ContextSignalTriad { modules: copy_modules(ps), message });
    } else if ps.len() == 2 && is_all_boilerplate(ps) {
        let message = two_message_of(names.as_str());
        put(&mut out, ContextSignalTriad { modules: copy_modules(ps), message });
    }
    assert(out.deep_view() =~= triads(ps.deep_view()));
    (out, summary)
}

/// Looks for files with a public `provide_X` and a public `use_X`.
pub fn detect_context_signal_triads(files: &Vec<ScannedFile>) -> (r: (
    Vec<ContextSignalTriad>,
    ContextSignalTriadsSummary,
))
    ensures
        r.0.deep_view() == triads(pairs(files@)),
        r.1.deep_view() == triads_summary(pairs(files@)),
{
    let ps = pairs_of(files);
    suggest(&ps)
}

/// What counts as a provider of a signal and as a use of one, blanks aside.
pub proof fn law_boilerplate(body: Seq<char>, i: int, j: int)
    ensures
        at(without(body, ' '), "use_context_provider"@, i) && (at(
            without(body, ' '),
            "Signal::new"@,
            j,
        ) || at(without(body, ' '), "Signal<"@, j)) ==> provides_signal(body),
        (forall|k: int| !#[trigger] at(without(body, ' '), "use_context_provider"@, k))
            ==> !provides_signal(body),
        at(without(body, ' '), "use_context::<Signal<"@, i) || at(
            without(body, ' '),
            "use_context::<ReadSignal<"@,
            i,
        ) || at(without(body, ' '), "use_context::<WriteSignal<"@, i) ==> uses_signal(body),
{
}

/// Two modules are suggested for merging if both are boilerplate and only then; one
/// module never is.
pub proof fn law_two_modules(ps: Seq<ContextPairView>)
    ensures
        ps.len() == 2 && ps[0].boilerplate && ps[1].boilerplate ==> triads(ps).len() == 1
            && triads(ps)[0].modules.len() == 2 && triads(ps)[0].modules[0] == ps[0].module
            && triads(ps)[0].modules[1] == ps[1].module,
        ps.len() == 2 && !(ps[0].boilerplate && ps[1].boilerplate) ==> triads(ps).len() == 0,
        ps.len() < 2 ==> triads(ps).len() == 0,
{
    if ps.len() == 2 && ps[0].boilerplate && ps[1].boilerplate {
        assert forall|k: int| 0 <= k < ps.len() implies (#[trigger] ps[k]).boilerplate by {
            assert(k == 0 || k == 1);
        }
        assert(all_boilerplate(ps));
    }
}

} // verus!
