//! In what order findings are reported.
use vstd::prelude::*;

use super::components_audit;
use super::derived_view_no_memo;
use super::empty_async_error_arm;
use super::headline;
use super::magic_id_prefix;
use super::polling_future_no_backoff;
use super::reinvented_widget;
use super::signal_drilled_2_levels;
use super::vec_or_owned_prop_passthrough as owned_props;
use crate::index::ComponentInfoView;
use crate::order::{law_sorted, lex_le, rank, text_le, Ranked};
use crate::paths::{component_order, components, path_le};
use crate::prop_drill::ParentEntryView;
use crate::scan::{ParseErrorView, ScannedFile};

verus! {

// ---------------------------------------------------------------------------
// Texts and paths
// ---------------------------------------------------------------------------

/// Texts are ordered as in a dictionary: where two differ first, the smaller character
/// decides, and a text comes before a longer one that it begins.
pub proof fn law_text_order(p: Seq<char>, a: char, x: Seq<char>, b: char, y: Seq<char>)
    ensures
        text_le(p, p + x),
        x.len() > 0 ==> !text_le(p + x, p),
        a < b ==> text_le(p + seq![a] + x, p + seq![b] + y) && !text_le(
            p + seq![b] + y,
            p + seq![a] + x,
        ),
    decreases p.len(),
{
    let s = p + seq![a] + x;
    let t = p + seq![b] + y;
    if p.len() > 0 {
        let q = p.drop_first();
        law_text_order(q, a, x, b, y);
        assert((p + x).drop_first() =~= q + x);
        assert(s.drop_first() =~= q + seq![a] + x);
        assert(t.drop_first() =~= q + seq![b] + y);
        assert((p + x)[0] == p[0] && s[0] == p[0] && t[0] == p[0]);
    } else {
        assert(s[0] == a && t[0] == b);
    }
}

/// Paths are ordered by their components: where two differ first, the smaller name
/// decides, and a directory comes before what it holds.
pub proof fn law_path_order(
    a: Seq<char>,
    b: Seq<char>,
    c: Seq<Seq<char>>,
    x: Seq<char>,
    y: Seq<char>,
    more: Seq<Seq<char>>,
    rest: Seq<Seq<char>>,
)
    requires
        components(a) == c + seq![x] + more,
    ensures
        components(b) == c ==> path_le(b, a) && !path_le(a, b),
        components(b) == c + seq![y] + rest && x != y && text_le(x, y) && ordinary(x) && ordinary(
            y,
        ) ==> path_le(a, b) && !path_le(b, a),
{
    lemma_components_order(c, x, y, more, rest);
}

/// The name `x` of a component is neither the root nor a dot or two.
pub open spec fn ordinary(x: Seq<char>) -> bool {
    x != "/"@ && x != "."@ && x != ".."@
}

proof fn lemma_components_order(
    c: Seq<Seq<char>>,
    x: Seq<char>,
    y: Seq<char>,
    more: Seq<Seq<char>>,
    rest: Seq<Seq<char>>,
)
    ensures
        lex_le(c, c + seq![x] + more, component_order()),
        !lex_le(c + seq![x] + more, c, component_order()),
        x != y && text_le(x, y) && ordinary(x) && ordinary(y) ==> lex_le(
            c + seq![x] + more,
            c + seq![y] + rest,
            component_order(),
        ) && !lex_le(c + seq![y] + rest, c + seq![x] + more, component_order()),
    decreases c.len(),
{
    let s = c + seq![x] + more;
    let t = c + seq![y] + rest;
    if c.len() > 0 {
        let q = c.drop_first();
        lemma_components_order(q, x, y, more, rest);
        assert(s.drop_first() =~= q + seq![x] + more);
        assert(t.drop_first() =~= q + seq![y] + rest);
        assert(s[0] == c[0] && t[0] == c[0]);
    } else {
        assert(s[0] == x && t[0] == y);
        crate::order::lemma_text_le(x, y, y);
        crate::order::lemma_text_le(y, x, x);
    }
}

// ---------------------------------------------------------------------------
// Reports
// ---------------------------------------------------------------------------

/// A place, a file and a line in it, comes no later than another.
pub open spec fn no_later(file: Seq<char>, line: usize, file2: Seq<char>, line2: usize) -> bool {
    if components(file) == components(file2) {
        line <= line2
    } else {
        path_le(file, file2)
    }
}

proof fn lemma_ranked<T: Ranked>(s: Seq<T::V>, i: int, j: int)
    requires
        0 <= i < j < s.len(),
    ensures
        T::le(
            crate::order::sorted(s, rank::<T>())[i],
            crate::order::sorted(s, rank::<T>())[j],
        ),
{
    law_sorted::<T>(s);
    let r = crate::order::sorted(s, rank::<T>());
    assert(rank::<T>()(r[i], r[j]));
}

/// The findings of the lints on whole files are reported by file and line.
pub proof fn law_findings_by_place(
    files: Seq<ScannedFile>,
    wrappers: Seq<Seq<char>>,
    cs: Seq<ComponentInfoView>,
    parents: Seq<ParentEntryView>,
    errors: Seq<ParseErrorView>,
    i: int,
    j: int,
)
    requires
        0 <= i < j,
    ensures
        ({
            let f = empty_async_error_arm::report(files).findings;
            j < f.len() ==> no_later(f[i].file, f[i].line, f[j].file, f[j].line)
        }),
        ({
            let f = polling_future_no_backoff::report(files).findings;
            j < f.len() ==> no_later(f[i].file, f[i].line, f[j].file, f[j].line)
        }),
        ({
            let f = magic_id_prefix::report(files).findings;
            j < f.len() ==> no_later(f[i].file, f[i].line, f[j].file, f[j].line)
        }),
        ({
            let f = derived_view_no_memo::report(files).findings;
            j < f.len() ==> no_later(f[i].file, f[i].line, f[j].file, f[j].line)
        }),
        ({
            let f = components_audit::report(files, wrappers).findings;
            j < f.len() ==> no_later(f[i].file, f[i].line, f[j].file, f[j].line)
        }),
        ({
            let f = reinvented_widget::report(files, wrappers).findings;
            j < f.len() ==> no_later(f[i].file, f[i].line, f[j].file, f[j].line)
        }),
        ({
            let f = signal_drilled_2_levels::report(cs, parents, errors).findings;
            j < f.len() ==> no_later(f[i].file, f[i].line, f[j].file, f[j].line)
        }),
{
    let n = files.len() as int;
    lemma_places::<empty_async_error_arm::EmptyAsyncErrorArmFinding>(
        crate::order::gather(0, n, empty_async_error_arm::file_findings(files)),
        i,
        j,
    );
    lemma_places::<polling_future_no_backoff::PollingFutureFinding>(
        crate::order::gather(0, n, polling_future_no_backoff::file_findings(files)),
        i,
        j,
    );
    lemma_places::<magic_id_prefix::MagicIdFinding>(
        crate::order::gather(0, n, magic_id_prefix::file_sites(files)),
        i,
        j,
    );
    lemma_places::<derived_view_no_memo::DerivedViewFinding>(
        crate::order::gather(
            0,
            n,
            derived_view_no_memo::file_findings(files, derived_view_no_memo::derivations(files)),
        ),
        i,
        j,
    );
    lemma_places::<components_audit::ComponentsAuditFinding>(
        crate::order::gather(0, n, components_audit::file_findings(files, wrappers)),
        i,
        j,
    );
    lemma_places::<reinvented_widget::ReinventedFinding>(
        crate::order::gather(0, n, reinvented_widget::file_findings(files, wrappers)),
        i,
        j,
    );
    let es = signal_drilled_2_levels::edges(cs, parents);
    lemma_places::<signal_drilled_2_levels::SignalDrilledFinding>(
        crate::order::gather(0, es.len() as int, signal_drilled_2_levels::chains_from(es)),
        i,
        j,
    );
}

proof fn lemma_places<T: Ranked>(s: Seq<T::V>, i: int, j: int)
    requires
        0 <= i < j,
    ensures
        j < crate::order::sorted(s, rank::<T>()).len() ==> T::le(
            crate::order::sorted(s, rank::<T>())[i],
            crate::order::sorted(s, rank::<T>())[j],
        ),
{
    law_sorted::<T>(s);
    if j < s.len() {
        lemma_ranked::<T>(s, i, j);
    }
}

/// Owned props are reported by component and argument.
pub proof fn law_owned_props_by_name(cs: Seq<owned_props::ComponentSigView>, i: int, j: int)
    requires
        0 <= i < j < owned_props::findings(cs).len(),
    ensures
        ({
            let f = owned_props::findings(cs);
            &&& text_le(f[i].component, f[j].component)
            &&& f[i].component == f[j].component ==> text_le(f[i].arg_name, f[j].arg_name)
        }),
{
    let s = crate::order::gather(0, cs.len() as int, owned_props::component_findings(cs));
    lemma_places::<owned_props::VecOrOwnedFinding>(s, i, j);
    let f = owned_props::findings(cs);
    crate::order::lemma_text_le(f[i].component, f[j].component, f[j].component);
}

// ---------------------------------------------------------------------------
// The headline
// ---------------------------------------------------------------------------

/// In the headline, errors come before warnings, warnings before infos and infos before
/// hints.
pub proof fn law_errors_come_first(es: Seq<headline::EventView>, i: int, j: int)
    requires
        0 <= i < j < headline::headline(es).len(),
    ensures
        ({
            let a = headline::headline(es)[i].severity;
            let b = headline::headline(es)[j].severity;
            &&& b == "error"@ ==> a == "error"@
            &&& b == "warning"@ ==> a == "error"@ || a == "warning"@
            &&& b == "info"@ ==> a == "error"@ || a == "warning"@ || a == "info"@
            &&& b == "hint"@ ==> a == "error"@ || a == "warning"@ || a == "info"@ || a == "hint"@
        }),
{
    headline::law_headline_order(es, i, j);
    reveal_strlit("error");
    reveal_strlit("warning");
    reveal_strlit("info");
    reveal_strlit("hint");
    assert("error"@.len() == 5 && "warning"@.len() == 7 && "info"@.len() == 4 && "hint"@.len()
        == 4);
    assert("info"@[0] == 'i' && "hint"@[0] == 'h');
}

/// A severity that is known is kept; any other gives way to the usual one.
pub proof fn law_severity_is_kept(s: Seq<char>, usual: Seq<char>)
    ensures
        headline::severity_or(None, usual) == usual,
        s == "error"@ || s == "warning"@ || s == "info"@ || s == "hint"@
            ==> headline::severity_or(Some(s), usual) == s,
        s != "error"@ && s != "warning"@ && s != "info"@ && s != "hint"@
            ==> headline::severity_or(Some(s), usual) == usual,
{
}

} // verus!
