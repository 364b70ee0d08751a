//! All signal lints on a project.
use vstd::prelude::*;

use super::bindings::{
    collect_navigator_bindings, collect_use_signal_bindings, navigators, signals,
};
use super::clones::{check_prop_clone_overuse, clone_issues, clones, prop_names};
use super::effects::{
    bool_gates, collect_bool_gate_signals, collect_rsx_if_signal_calls, navigation_at, rsx_gates,
    spawn_issues, EffectNavigateVisitor, EffectSpawnVisitor,
};
use super::fence::{candidates, check_signal_used_as_fence, fence_issues};
use super::hydration::{check_hydration, render_read};
use super::links::{all_linked, link_related_findings};
use super::loops::{check_loops, loop_hooks};
use super::polling::{polling_at, PollingFutureVisitor};
use super::report::{SignalIssue, SignalIssueView, SignalLintReport, SignalLintReportView};
use super::triads::{detect_context_signal_triads, pairs, triads, triads_summary};
use super::writers::{check_signal_many_writers, many_writers};
use crate::order::{gather, put_all};
use crate::scan::{
    body_end, body_of, body_start, collect_parse_errors, component, is_component, parse_errors,
    ScannedFile,
};
use crate::tape::Node;

verus! {

/// The issues on the component at `i`: hooks in loops, browser reads, effects
/// that set signals, effects that navigate, polling futures, clones of props,
/// signals with many writers, and fences.
pub open spec fn component_issues(t: Seq<Node>, i: int, file: Seq<char>) -> Seq<SignalIssueView> {
    let (b, hi) = (body_start(t, i), body_end(t, i));
    let name = t[i].name@;
    let sigs = signals(t, b);
    gather(b, hi, loop_hooks(t, b, file, name)) + gather(b, hi, render_read(t, b, file, name))
        + spawn_issues(t, b, hi, bool_gates(t, b), rsx_gates(t, b, hi), file, name) + gather(
        b,
        hi,
        navigation_at(t, b, navigators(t, b), file, name),
    ) + gather(b, hi, polling_at(t, b, sigs, file, name)) + clone_issues(
        clones(t, b, prop_names(t, i)),
        file,
        name,
    ) + many_writers(t, b, sigs, file, name) + fence_issues(
        t,
        b,
        hi,
        candidates(t, b, sigs),
        file,
        name,
    )
}

/// The issues on the component at `i`.
pub fn lint_component(t: &Vec<Node>, i: usize, file: &str) -> (r: Vec<SignalIssue>)
    requires
        i < t.len(),
    ensures
        r.deep_view() == component_issues(t@, i as int, file@),
{
    let (b, hi) = body_of(t, i);
    let name = t[i].name.as_str();
    let mut out = check_loops(t, b, hi, file, name);
    put_all(&mut out, check_hydration(t, b, hi, file, name));

    let gates = collect_bool_gate_signals(t, b);
    let shown = collect_rsx_if_signal_calls(t, b, hi);
    let spawns = EffectSpawnVisitor {
        t,
        lo: b,
        hi,
        bool_gates: &gates,
        rsx_gates: &shown,
        file,
        component: name,
    };
    put_all(&mut out, spawns.issues());

    let navs = collect_navigator_bindings(t, b);
    let navigation = EffectNavigateVisitor {
        t,
        lo: b,
        hi,
        nav_bindings: &navs,
        file,
        component: name,
    };
    put_all(&mut out, navigation.issues());

    let sigs = collect_use_signal_bindings(t, b);
    let polling = PollingFutureVisitor {
        t,
        lo: b,
        hi,
        signal_bindings: &sigs,
        file,
        component: name,
    };
    put_all(&mut out, polling.issues());

    put_all(&mut out, check_prop_clone_overuse(t, i, b, file));
    put_all(&mut out, check_signal_many_writers(t, b, &sigs, file, name));
    put_all(&mut out, check_signal_used_as_fence(t, b, hi, &sigs, file, name));
    out
}

pub open spec fn component_issues_at(t: Seq<Node>, file: Seq<char>) -> spec_fn(int) -> Seq<
    SignalIssueView,
> {
    |i: int|
        if component(t, i) {
            component_issues(t, i, file)
        } else {
            Seq::empty()
        }
}

pub open spec fn file_issues(files: Seq<ScannedFile>) -> spec_fn(int) -> Seq<SignalIssueView> {
    |k: int|
        match files[k].ast {
            Ok(t) => gather(0, t@.len() as int, component_issues_at(t@, files[k].path@)),
            Err(_) => Seq::empty(),
        }
}

fn lint_file(t: &Vec<Node>, file: &str) -> (r: Vec<SignalIssue>)
    ensures
        r.deep_view() == gather(0, t@.len() as int, component_issues_at(t@, file@)),
{
    let mut out: Vec<SignalIssue> = Vec::new();
    let mut i: usize = 0;
    while i < t.len()
        invariant
            i <= t.len(),
            out.deep_view() == gather(0, i as int, component_issues_at(t@, file@)),
        decreases t.len() - i,
    {
        if is_component(t, i) {
            put_all(&mut out, lint_component(t, i, file));
        }
        i += 1;
    }
    out
}

/// What there is to report.
pub open spec fn report(files: Seq<ScannedFile>) -> SignalLintReportView {
    SignalLintReportView {
        issues: all_linked(gather(0, files.len() as int, file_issues(files))),
        context_signal_triads: triads(pairs(files)),
        context_signal_triads_summary: triads_summary(pairs(files)),
        parse_errors: parse_errors(files),
    }
}

/// Runs the signal lints on every component in `files`, links the issues on the
/// same signal, and looks for sibling context signals.
pub fn signal_lint(files: &Vec<ScannedFile>) -> (r: SignalLintReport)
    ensures
        r.deep_view() == report(files@),
{
    let mut issues: Vec<SignalIssue> = Vec::new();
    let mut k: usize = 0;
    while k < files.len()
        invariant
            k <= files.len(),
            issues.deep_view() == gather(0, k as int, file_issues(files@)),
        decreases files.len() - k,
    {
        match &files[k].ast {
            Ok(t) => put_all(&mut issues, lint_file(t, files[k].path.as_str())),
            Err(_) => {},
        }
        k += 1;
    }
    let (triads_found, summary) = detect_context_signal_triads(files);
    link_related_findings(&mut issues);
    SignalLintReport {
        issues,
        context_signal_triads: triads_found,
        context_signal_triads_summary: summary,
        parse_errors: collect_parse_errors(files),
    }
}

} // verus!
