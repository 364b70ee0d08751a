//! `lint_project`: all lints over one project, and what they found together.
use vstd::prelude::*;

use super::check_rsx::{swept, sweep, CheckRsxReport, CheckRsxReportView};
use super::components_audit::{components_audit, ComponentsAuditReport, ComponentsAuditReportView};
use super::derived_view_no_memo::{derived_view_no_memo, DerivedViewReport, DerivedViewReportView};
use super::duplicate_helper_client_server::{
    duplicate_helper_client_server, DuplicateHelperReport, DuplicateHelperReportView,
};
use super::empty_async_error_arm::{
    empty_async_error_arm, EmptyAsyncErrorArmReport, EmptyAsyncErrorArmReportView,
};
use super::findings::{
    capped, copy_error, put_errors, DeadComponentsReport, DeadComponentsReportView, DrillReport,
    DrillReportView, Reported,
};
use super::headline::{
    counted, headline, headline_of, law_headline_counts, Event, EventView, HeadlineEntry,
    HeadlineEntryView,
};
use super::insecure_set_cookie::{
    insecure_set_cookie, InsecureSetCookieReport, InsecureSetCookieReportView,
};
use super::magic_id_prefix::{
    magic_id_prefix_for_optimistic, MagicIdPrefixReport, MagicIdPrefixReportView,
};
use super::optimistic_lock_gate::{
    optimistic_lock_gate, OptimisticLockGateReport, OptimisticLockGateReportView,
};
use super::polling_future_no_backoff::{
    polling_future_no_backoff, PollingFutureReport, PollingFutureReportView,
};
use super::presence_map_unbounded::{
    presence_map_unbounded, PresenceMapUnboundedReport, PresenceMapUnboundedReportView,
};
use super::props_lint::{props_lint, PropsLintReport, PropsLintReportView};
use super::reinvented_widget::{
    reinvented_widget, ReinventedWidgetReport, ReinventedWidgetReportView,
};
use super::repeated_auth_extractor::{
    repeated_auth_extractor, RepeatedAuthExtractorParams, RepeatedAuthExtractorReport,
    RepeatedAuthExtractorReportView,
};
use super::server_state_blocking_locks::{
    server_state_blocking_locks, ServerStateBlockingLocksReport, ServerStateBlockingLocksReportView,
};
use super::shared_enum_validation::{shared_enum_validation, SharedEnumReport, SharedEnumReportView};
use super::signal_drilled_2_levels::{
    signal_drilled_2_levels, SignalDrilledReport, SignalDrilledReportView,
};
use super::signal_lint::lint::{signal_lint};
use super::signal_lint::report::{SignalLintReport, SignalLintReportView};
use super::vec_or_owned_prop_passthrough::{
    vec_or_owned_prop_passthrough, VecOrOwnedPropReport, VecOrOwnedPropReportView,
};
use crate::index::ComponentInfo;
use crate::order::{distinct, gather, holds, lemma_distinct, lemma_gather_contains, only_if, put};
use crate::prop_drill::{ParentEntry, report};
use crate::scan::{parse_error, ParseError, ParseErrorView, ScannedFile};
use crate::text::{cat2, debug, debug_text, decimal, decimal_usize, join, joined, owned, same};

verus! {

/// Every lint, in the order in which they run.
pub const ALL_LINTS: [&'static str; 20] = [
    "check_rsx",
    "dead_components",
    "prop_drill",
    "signal_lint",
    "signal_drilled_2_levels",
    "props_lint",
    "reinvented_widget",
    "optimistic_lock_gate",
    "server_state_blocking_locks",
    "presence_map_unbounded",
    "insecure_set_cookie",
    "components_audit",
    "duplicate_helper_client_server",
    "vec_or_owned_prop_passthrough",
    "magic_id_prefix_for_optimistic",
    "shared_enum_validation",
    "derived_view_no_memo",
    "empty_async_error_arm",
    "polling_future_no_backoff",
    "repeated_auth_extractor",
];

#[derive(Debug)]
pub struct LintProjectParams {
    /// The lints to run; all of them if absent.
    pub included: Option<Vec<String>>,
    /// Lints to leave out.
    pub exclude: Option<Vec<String>>,
    /// Components that count as rendered in any case.
    pub dead_component_roots: Option<Vec<String>>,
    pub project_root: Option<String>,
}

pub ghost struct LintProjectParamsView {
    pub included: Option<Seq<Seq<char>>>,
    pub exclude: Option<Seq<Seq<char>>>,
    pub dead_component_roots: Option<Seq<Seq<char>>>,
    pub project_root: Option<Seq<char>>,
}

impl DeepView for LintProjectParams {
    type V = LintProjectParamsView;

    open spec fn deep_view(&self) -> LintProjectParamsView {
        LintProjectParamsView {
            included: self.included.deep_view(),
            exclude: self.exclude.deep_view(),
            dead_component_roots: self.dead_component_roots.deep_view(),
            project_root: self.project_root.deep_view(),
        }
    }
}

#[derive(Debug)]
pub struct LintCount {
    pub lint: String,
    pub issues: usize,
}

pub ghost struct LintCountView {
    pub lint: Seq<char>,
    pub issues: usize,
}

impl DeepView for LintCount {
    type V = LintCountView;

    open spec fn deep_view(&self) -> LintCountView {
        LintCountView {
            lint: self.lint@,
            issues: self.issues,
        }
    }
}

/// A run of the lints: what each found, and what they found together.
#[derive(Debug)]
pub struct LintProjectReport {
    /// The run in Markdown.
    pub summary: String,
    /// The lints that ran.
    pub lints_run: Vec<String>,
    /// The sum of the issues of all lints.
    pub total_issues: usize,
    /// The issues of each lint that ran, in order.
    pub issues_by_lint: Vec<LintCount>,
    /// The findings by lint, code and severity, the heaviest first.
    pub headline: Vec<HeadlineEntry>,
    /// The files that did not parse, each once.
    pub parse_errors: Vec<ParseError>,
    pub check_rsx: Option<CheckRsxReport>,
    pub dead_components: Option<DeadComponentsReport>,
    pub prop_drill: Option<DrillReport>,
    pub signal_lint: Option<SignalLintReport>,
    pub signal_drilled_2_levels: Option<SignalDrilledReport>,
    pub props_lint: Option<PropsLintReport>,
    pub reinvented_widget: Option<ReinventedWidgetReport>,
    pub optimistic_lock_gate: Option<OptimisticLockGateReport>,
    pub server_state_blocking_locks: Option<ServerStateBlockingLocksReport>,
    pub presence_map_unbounded: Option<PresenceMapUnboundedReport>,
    pub insecure_set_cookie: Option<InsecureSetCookieReport>,
    pub components_audit: Option<ComponentsAuditReport>,
    pub duplicate_helper_client_server: Option<DuplicateHelperReport>,
    pub vec_or_owned_prop_passthrough: Option<VecOrOwnedPropReport>,
    pub magic_id_prefix_for_optimistic: Option<MagicIdPrefixReport>,
    pub shared_enum_validation: Option<SharedEnumReport>,
    pub derived_view_no_memo: Option<DerivedViewReport>,
    pub empty_async_error_arm: Option<EmptyAsyncErrorArmReport>,
    pub polling_future_no_backoff: Option<PollingFutureReport>,
    pub repeated_auth_extractor: Option<RepeatedAuthExtractorReport>,
}

pub ghost struct LintProjectReportView {
    pub summary: Seq<char>,
    pub lints_run: Seq<Seq<char>>,
    pub total_issues: usize,
    pub issues_by_lint: Seq<LintCountView>,
    pub headline: Seq<HeadlineEntryView>,
    pub parse_errors: Seq<ParseErrorView>,
    pub check_rsx: Option<CheckRsxReportView>,
    pub dead_components: Option<DeadComponentsReportView>,
    pub prop_drill: Option<DrillReportView>,
    pub signal_lint: Option<SignalLintReportView>,
    pub signal_drilled_2_levels: Option<SignalDrilledReportView>,
    pub props_lint: Option<PropsLintReportView>,
    pub reinvented_widget: Option<ReinventedWidgetReportView>,
    pub optimistic_lock_gate: Option<OptimisticLockGateReportView>,
    pub server_state_blocking_locks: Option<ServerStateBlockingLocksReportView>,
    pub presence_map_unbounded: Option<PresenceMapUnboundedReportView>,
    pub insecure_set_cookie: Option<InsecureSetCookieReportView>,
    pub components_audit: Option<ComponentsAuditReportView>,
    pub duplicate_helper_client_server: Option<DuplicateHelperReportView>,
    pub vec_or_owned_prop_passthrough: Option<VecOrOwnedPropReportView>,
    pub magic_id_prefix_for_optimistic: Option<MagicIdPrefixReportView>,
    pub shared_enum_validation: Option<SharedEnumReportView>,
    pub derived_view_no_memo: Option<DerivedViewReportView>,
    pub empty_async_error_arm: Option<EmptyAsyncErrorArmReportView>,
    pub polling_future_no_backoff: Option<PollingFutureReportView>,
    pub repeated_auth_extractor: Option<RepeatedAuthExtractorReportView>,
}

impl DeepView for LintProjectReport {
    type V = LintProjectReportView;

    open spec fn deep_view(&self) -> LintProjectReportView {
        LintProjectReportView {
            summary: self.summary@,
            lints_run: self.lints_run.deep_view(),
            total_issues: self.total_issues,
            issues_by_lint: self.issues_by_lint.deep_view(),
            headline: self.headline.deep_view(),
            parse_errors: self.parse_errors.deep_view(),
            check_rsx: self.check_rsx.deep_view(),
            dead_components: self.dead_components.deep_view(),
            prop_drill: self.prop_drill.deep_view(),
            signal_lint: self.signal_lint.deep_view(),
            signal_drilled_2_levels: self.signal_drilled_2_levels.deep_view(),
            props_lint: self.props_lint.deep_view(),
            reinvented_widget: self.reinvented_widget.deep_view(),
            optimistic_lock_gate: self.optimistic_lock_gate.deep_view(),
            server_state_blocking_locks: self.server_state_blocking_locks.deep_view(),
            presence_map_unbounded: self.presence_map_unbounded.deep_view(),
            insecure_set_cookie: self.insecure_set_cookie.deep_view(),
            components_audit: self.components_audit.deep_view(),
            duplicate_helper_client_server: self.duplicate_helper_client_server.deep_view(),
            vec_or_owned_prop_passthrough: self.vec_or_owned_prop_passthrough.deep_view(),
            magic_id_prefix_for_optimistic: self.magic_id_prefix_for_optimistic.deep_view(),
            shared_enum_validation: self.shared_enum_validation.deep_view(),
            derived_view_no_memo: self.derived_view_no_memo.deep_view(),
            empty_async_error_arm: self.empty_async_error_arm.deep_view(),
            polling_future_no_backoff: self.polling_future_no_backoff.deep_view(),
            repeated_auth_extractor: self.repeated_auth_extractor.deep_view(),
        }
    }
}

/// What the lints read.
pub struct LintInputs<'a> {
    pub files: &'a Vec<ScannedFile>,
    /// The path of the directory of the sources.
    pub src_root: &'a str,
    /// The paths of the files that widgets of the catalog came in.
    pub wrappers: &'a Vec<String>,
    /// The components of the project.
    pub components: &'a Vec<ComponentInfo>,
    /// The props that components hand on unchanged, callbacks left out.
    pub parents: &'a Vec<ParentEntry>,
    /// What went wrong in finding them.
    pub parents_errors: &'a Vec<ParseError>,
}

// ---------------------------------------------------------------------------
// Which lints run
// ---------------------------------------------------------------------------

pub open spec fn all_lints() -> Seq<Seq<char>> {
    Seq::new(ALL_LINTS@.len(), |k: int| ALL_LINTS@[k]@)
}

/// The first of `names` that is no lint.
pub open spec fn unknown(names: Seq<Seq<char>>) -> Option<Seq<char>>
    decreases names.len(),
{
    if names.len() == 0 {
        None
    } else {
        match unknown(names.drop_last()) {
            Some(n) => Some(n),
            None => if all_lints().contains(names.last()) {
                None
            } else {
                Some(names.last())
            },
        }
    }
}

pub open spec fn listed(names: Option<Seq<Seq<char>>>) -> Seq<Seq<char>> {
    match names {
        Some(v) => v,
        None => Seq::empty(),
    }
}

/// The lint `name` is to run.
pub open spec fn wants(p: LintProjectParamsView, name: Seq<char>) -> bool {
    (p.included is None || listed(p.included).contains(name)) && !listed(p.exclude).contains(name)
}

pub open spec fn quoted_lints() -> Seq<Seq<char>> {
    Seq::new(ALL_LINTS@.len(), |k: int| debug_text(ALL_LINTS@[k]@))
}

pub open spec fn unknown_message(name: Seq<char>, list: Seq<char>, valid: Seq<char>) -> Seq<char> {
    "lint_project: unknown lint "@
        + name
        + " in "@
        + list
        + "; valid: ["@
        + valid
        + "]"@
}

fn unknown_message_of(name: &str, list: &str, valid: &str) -> (r: String)
    ensures
        r@ == unknown_message(name@, list@, valid@),
{
    let mut s = owned("lint_project: unknown lint ");
    s.append(name);
    s.append(" in ");
    s.append(list);
    s.append("; valid: [");
    s.append(valid);
    s.append("]");
    s
}

/// Why the run is refused: a name that is no lint.
pub open spec fn refusal(p: LintProjectParamsView) -> Option<Seq<char>> {
    let valid = joined(quoted_lints(), ", "@);
    match unknown(listed(p.included)) {
        Some(n) => Some(unknown_message(debug_text(n), "include"@, valid)),
        None => match unknown(listed(p.exclude)) {
            Some(n) => Some(unknown_message(debug_text(n), "exclude"@, valid)),
            None => None,
        },
    }
}

fn is_lint(name: &str) -> (r: bool)
    ensures
        r == all_lints().contains(name@),
{
    let mut k: usize = 0;
    while k < ALL_LINTS.len()
        invariant
            k <= ALL_LINTS.len(),
            forall|m: int| 0 <= m < k ==> #[trigger] all_lints()[m] != name@,
        decreases ALL_LINTS.len() - k,
    {
        assert(all_lints()[k as int] == ALL_LINTS@[k as int]@);
        if same(ALL_LINTS[k], name) {
            return true;
        }
        k += 1;
    }
    false
}

fn unknown_of(names: &Option<Vec<String>>) -> (r: Option<String>)
    ensures
        r.deep_view() == unknown(listed(names.deep_view())),
{
    let v = match names {
        Some(v) => v,
        None => return None,
    };
    let ghost s = v.deep_view();
    let mut found: Option<String> = None;
    let mut k: usize = 0;
    assert(s.take(0) =~= Seq::<Seq<char>>::empty());
    while k < v.len()
        invariant
            k <= v.len(),
            s == v.deep_view(),
            found.deep_view() == unknown(s.take(k as int)),
        decreases v.len() - k,
    {
        assert(s.take(k + 1).drop_last() =~= s.take(k as int));
        assert(s.take(k + 1).last() == v@[k as int]@);
        if found.is_none() && !is_lint(v[k].as_str()) {
            found = Some(owned(v[k].as_str()));
        }
        k += 1;
    }
    assert(s.take(k as int) =~= s);
    found
}

fn quoted_lints_of() -> (r: Vec<String>)
    ensures
        r.deep_view() == quoted_lints(),
{
    let mut out: Vec<String> = Vec::new();
    let mut k: usize = 0;
    while k < ALL_LINTS.len()
        invariant
            k <= ALL_LINTS.len(),
            out.deep_view() =~= quoted_lints().take(k as int),
        decreases ALL_LINTS.len() - k,
    {
        put(&mut out, debug(ALL_LINTS[k]));
        k += 1;
    }
    assert(out.deep_view() =~= quoted_lints());
    out
}

/// Why the run is refused: a name that is no lint.
pub fn refuse(p: &LintProjectParams) -> (r: Option<String>)
    ensures
        r.deep_view() == refusal(p.deep_view()),
{
    let valid = join(&quoted_lints_of(), ", ");
    match unknown_of(&p.included) {
        Some(n) => {
            Some(unknown_message_of(debug(n.as_str()).as_str(), "include", valid.as_str()))
        },
        None => match unknown_of(&p.exclude) {
            Some(n) => {
                Some(unknown_message_of(debug(n.as_str()).as_str(), "exclude", valid.as_str()))
            },
            None => None,
        },
    }
}

fn lists(names: &Option<Vec<String>>, name: &str) -> (r: bool)
    ensures
        r == listed(names.deep_view()).contains(name@),
{
    match names {
        Some(v) => holds(v, name),
        None => false,
    }
}

pub fn wanted(p: &LintProjectParams, name: &str) -> (r: bool)
    ensures
        r == wants(p.deep_view(), name@),
{
    (p.included.is_none() || lists(&p.included, name)) && !lists(&p.exclude, name)
}

// ---------------------------------------------------------------------------
// What the lints found together
// ---------------------------------------------------------------------------

/// The findings of a report, if there is one.
pub open spec fn part<T: Reported>(r: Option<T::V>) -> Seq<EventView> {
    match r {
        Some(x) => T::found(x),
        None => Seq::empty(),
    }
}

/// The row of a lint, if it ran.
pub open spec fn count_row<T: Reported>(r: Option<T::V>) -> Seq<LintCountView> {
    match r {
        Some(x) => seq![LintCountView { lint: T::lint(), issues: capped(T::found(x).len()) }],
        None => Seq::empty(),
    }
}

/// What did not parse, by a report.
pub open spec fn part_errors<T: Reported>(r: Option<T::V>) -> Seq<ParseErrorView> {
    match r {
        Some(x) => T::unparsed(x),
        None => Seq::empty(),
    }
}

fn put_part<T: Reported>(out: &mut Vec<Event>, r: &Option<T>)
    ensures
        final(out).deep_view() == old(out).deep_view() + part::<T>(r.deep_view()),
{
    match r {
        Some(x) => x.put_found(out),
        None => {
            assert(out.deep_view() =~= old(out).deep_view() + Seq::<EventView>::empty());
        },
    }
}

fn put_count<T: Reported>(out: &mut Vec<LintCount>, r: &Option<T>)
    ensures
        final(out).deep_view() == old(out).deep_view() + count_row::<T>(r.deep_view()),
{
    match r {
        Some(x) => {
            let row = LintCount { lint: owned(T::lint_of()), issues: x.count_found() };
            put(out, row);
            assert(out.deep_view() =~= old(out).deep_view() + count_row::<T>(r.deep_view()));
        },
        None => {
            assert(out.deep_view() =~= old(out).deep_view() + Seq::<LintCountView>::empty());
        },
    }
}

fn put_part_errors<T: Reported>(out: &mut Vec<ParseError>, r: &Option<T>)
    ensures
        final(out).deep_view() == old(out).deep_view() + part_errors::<T>(r.deep_view()),
{
    match r {
        Some(x) => x.put_unparsed(out),
        None => {
            assert(out.deep_view() =~= old(out).deep_view() + Seq::<ParseErrorView>::empty());
        },
    }
}

/// The findings of all lints.
pub open spec fn events(r: LintProjectReportView) -> Seq<EventView> {
    part::<CheckRsxReport>(r.check_rsx)
        + part::<DeadComponentsReport>(r.dead_components)
        + part::<DrillReport>(r.prop_drill)
        + part::<SignalLintReport>(r.signal_lint)
        + part::<SignalDrilledReport>(r.signal_drilled_2_levels)
        + part::<PropsLintReport>(r.props_lint)
        + part::<ReinventedWidgetReport>(r.reinvented_widget)
        + part::<OptimisticLockGateReport>(r.optimistic_lock_gate)
        + part::<ServerStateBlockingLocksReport>(r.server_state_blocking_locks)
        + part::<PresenceMapUnboundedReport>(r.presence_map_unbounded)
        + part::<InsecureSetCookieReport>(r.insecure_set_cookie)
        + part::<ComponentsAuditReport>(r.components_audit)
        + part::<DuplicateHelperReport>(r.duplicate_helper_client_server)
        + part::<VecOrOwnedPropReport>(r.vec_or_owned_prop_passthrough)
        + part::<MagicIdPrefixReport>(r.magic_id_prefix_for_optimistic)
        + part::<SharedEnumReport>(r.shared_enum_validation)
        + part::<DerivedViewReport>(r.derived_view_no_memo)
        + part::<EmptyAsyncErrorArmReport>(r.empty_async_error_arm)
        + part::<PollingFutureReport>(r.polling_future_no_backoff)
        + part::<RepeatedAuthExtractorReport>(r.repeated_auth_extractor)
}

/// The issues of each lint that ran.
pub open spec fn counts(r: LintProjectReportView) -> Seq<LintCountView> {
    count_row::<CheckRsxReport>(r.check_rsx)
        + count_row::<DeadComponentsReport>(r.dead_components)
        + count_row::<DrillReport>(r.prop_drill)
        + count_row::<SignalLintReport>(r.signal_lint)
        + count_row::<SignalDrilledReport>(r.signal_drilled_2_levels)
        + count_row::<PropsLintReport>(r.props_lint)
        + count_row::<ReinventedWidgetReport>(r.reinvented_widget)
        + count_row::<OptimisticLockGateReport>(r.optimistic_lock_gate)
        + count_row::<ServerStateBlockingLocksReport>(r.server_state_blocking_locks)
        + count_row::<PresenceMapUnboundedReport>(r.presence_map_unbounded)
        + count_row::<InsecureSetCookieReport>(r.insecure_set_cookie)
        + count_row::<ComponentsAuditReport>(r.components_audit)
        + count_row::<DuplicateHelperReport>(r.duplicate_helper_client_server)
        + count_row::<VecOrOwnedPropReport>(r.vec_or_owned_prop_passthrough)
        + count_row::<MagicIdPrefixReport>(r.magic_id_prefix_for_optimistic)
        + count_row::<SharedEnumReport>(r.shared_enum_validation)
        + count_row::<DerivedViewReport>(r.derived_view_no_memo)
        + count_row::<EmptyAsyncErrorArmReport>(r.empty_async_error_arm)
        + count_row::<PollingFutureReport>(r.polling_future_no_backoff)
        + count_row::<RepeatedAuthExtractorReport>(r.repeated_auth_extractor)
}

pub open spec fn sum(s: Seq<LintCountView>) -> nat
    decreases s.len(),
{
    if s.len() == 0 {
        0
    } else {
        sum(s.drop_last()) + s.last().issues as nat
    }
}

/// What did not parse, by the lints that say so.
pub open spec fn errors(r: LintProjectReportView) -> Seq<ParseErrorView> {
    part_errors::<CheckRsxReport>(r.check_rsx)
        + part_errors::<DeadComponentsReport>(r.dead_components)
        + part_errors::<DrillReport>(r.prop_drill)
        + part_errors::<SignalLintReport>(r.signal_lint)
        + part_errors::<SignalDrilledReport>(r.signal_drilled_2_levels)
        + part_errors::<PropsLintReport>(r.props_lint)
        + part_errors::<ReinventedWidgetReport>(r.reinvented_widget)
        + part_errors::<OptimisticLockGateReport>(r.optimistic_lock_gate)
        + part_errors::<ServerStateBlockingLocksReport>(r.server_state_blocking_locks)
        + part_errors::<PresenceMapUnboundedReport>(r.presence_map_unbounded)
        + part_errors::<InsecureSetCookieReport>(r.insecure_set_cookie)
        + part_errors::<ComponentsAuditReport>(r.components_audit)
        + part_errors::<DuplicateHelperReport>(r.duplicate_helper_client_server)
        + part_errors::<VecOrOwnedPropReport>(r.vec_or_owned_prop_passthrough)
        + part_errors::<MagicIdPrefixReport>(r.magic_id_prefix_for_optimistic)
        + part_errors::<SharedEnumReport>(r.shared_enum_validation)
        + part_errors::<DerivedViewReport>(r.derived_view_no_memo)
        + part_errors::<EmptyAsyncErrorArmReport>(r.empty_async_error_arm)
        + part_errors::<PollingFutureReport>(r.polling_future_no_backoff)
        + part_errors::<RepeatedAuthExtractorReport>(r.repeated_auth_extractor)
}

/// The findings in `report`, as events.
pub fn events_of(report: &LintProjectReport) -> (r: Vec<Event>)
    ensures
        r.deep_view() == events(report.deep_view()),
{
    let mut out: Vec<Event> = Vec::new();
    put_part(&mut out, &report.check_rsx);
    put_part(&mut out, &report.dead_components);
    put_part(&mut out, &report.prop_drill);
    put_part(&mut out, &report.signal_lint);
    put_part(&mut out, &report.signal_drilled_2_levels);
    put_part(&mut out, &report.props_lint);
    put_part(&mut out, &report.reinvented_widget);
    put_part(&mut out, &report.optimistic_lock_gate);
    put_part(&mut out, &report.server_state_blocking_locks);
    put_part(&mut out, &report.presence_map_unbounded);
    put_part(&mut out, &report.insecure_set_cookie);
    put_part(&mut out, &report.components_audit);
    put_part(&mut out, &report.duplicate_helper_client_server);
    put_part(&mut out, &report.vec_or_owned_prop_passthrough);
    put_part(&mut out, &report.magic_id_prefix_for_optimistic);
    put_part(&mut out, &report.shared_enum_validation);
    put_part(&mut out, &report.derived_view_no_memo);
    put_part(&mut out, &report.empty_async_error_arm);
    put_part(&mut out, &report.polling_future_no_backoff);
    put_part(&mut out, &report.repeated_auth_extractor);
    assert(out.deep_view() =~= events(report.deep_view()));
    out
}

/// The findings in `report` by lint, code and severity, the heaviest first.
pub fn build_headline(report: &LintProjectReport) -> (r: Vec<HeadlineEntry>)
    ensures
        r.deep_view() == headline(events(report.deep_view())),
{
    headline_of(&events_of(report))
}

/// The issues of each lint that ran.
pub fn counts_of(report: &LintProjectReport) -> (r: Vec<LintCount>)
    ensures
        r.deep_view() == counts(report.deep_view()),
{
    let mut out: Vec<LintCount> = Vec::new();
    put_count(&mut out, &report.check_rsx);
    put_count(&mut out, &report.dead_components);
    put_count(&mut out, &report.prop_drill);
    put_count(&mut out, &report.signal_lint);
    put_count(&mut out, &report.signal_drilled_2_levels);
    put_count(&mut out, &report.props_lint);
    put_count(&mut out, &report.reinvented_widget);
    put_count(&mut out, &report.optimistic_lock_gate);
    put_count(&mut out, &report.server_state_blocking_locks);
    put_count(&mut out, &report.presence_map_unbounded);
    put_count(&mut out, &report.insecure_set_cookie);
    put_count(&mut out, &report.components_audit);
    put_count(&mut out, &report.duplicate_helper_client_server);
    put_count(&mut out, &report.vec_or_owned_prop_passthrough);
    put_count(&mut out, &report.magic_id_prefix_for_optimistic);
    put_count(&mut out, &report.shared_enum_validation);
    put_count(&mut out, &report.derived_view_no_memo);
    put_count(&mut out, &report.empty_async_error_arm);
    put_count(&mut out, &report.polling_future_no_backoff);
    put_count(&mut out, &report.repeated_auth_extractor);
    assert(out.deep_view() =~= counts(report.deep_view()));
    out
}

fn sum_of(v: &Vec<LintCount>) -> (r: usize)
    ensures
        r == capped(sum(v.deep_view())),
{
    let ghost s = v.deep_view();
    let mut n: usize = 0;
    let mut k: usize = 0;
    assert(s.take(0) =~= Seq::<LintCountView>::empty());
    while k < v.len()
        invariant
            k <= v.len(),
            s == v.deep_view(),
            n == capped(sum(s.take(k as int))),
        decreases v.len() - k,
    {
        assert(s.take(k + 1).drop_last() =~= s.take(k as int));
        assert(s.take(k + 1).last() == v@[k as int].deep_view());
        n = match n.checked_add(v[k].issues) {
            Some(m) => m,
            None => usize::MAX,
        };
        k += 1;
    }
    assert(s.take(k as int) =~= s);
    n
}

fn errors_of(report: &LintProjectReport) -> (r: Vec<ParseError>)
    ensures
        r.deep_view() == errors(report.deep_view()),
{
    let mut out: Vec<ParseError> = Vec::new();
    put_part_errors(&mut out, &report.check_rsx);
    put_part_errors(&mut out, &report.dead_components);
    put_part_errors(&mut out, &report.prop_drill);
    put_part_errors(&mut out, &report.signal_lint);
    put_part_errors(&mut out, &report.signal_drilled_2_levels);
    put_part_errors(&mut out, &report.props_lint);
    put_part_errors(&mut out, &report.reinvented_widget);
    put_part_errors(&mut out, &report.optimistic_lock_gate);
    put_part_errors(&mut out, &report.server_state_blocking_locks);
    put_part_errors(&mut out, &report.presence_map_unbounded);
    put_part_errors(&mut out, &report.insecure_set_cookie);
    put_part_errors(&mut out, &report.components_audit);
    put_part_errors(&mut out, &report.duplicate_helper_client_server);
    put_part_errors(&mut out, &report.vec_or_owned_prop_passthrough);
    put_part_errors(&mut out, &report.magic_id_prefix_for_optimistic);
    put_part_errors(&mut out, &report.shared_enum_validation);
    put_part_errors(&mut out, &report.derived_view_no_memo);
    put_part_errors(&mut out, &report.empty_async_error_arm);
    put_part_errors(&mut out, &report.polling_future_no_backoff);
    put_part_errors(&mut out, &report.repeated_auth_extractor);
    assert(out.deep_view() =~= errors(report.deep_view()));
    out
}

fn same_error(a: &ParseError, b: &ParseError) -> (r: bool)
    ensures
        r == (a.deep_view() == b.deep_view()),
{
    a.line == b.line && a.column == b.column && same(a.file.as_str(), b.file.as_str()) && same(
        a.message.as_str(),
        b.message.as_str(),
    )
}

fn has_error(v: &Vec<ParseError>, e: &ParseError) -> (r: bool)
    ensures
        r == v.deep_view().contains(e.deep_view()),
{
    let ghost s = v.deep_view();
    let mut k: usize = 0;
    while k < v.len()
        invariant
            k <= v.len(),
            s == v.deep_view(),
            forall|m: int| 0 <= m < k ==> #[trigger] s[m] != e.deep_view(),
        decreases v.len() - k,
    {
        assert(s[k as int] == v@[k as int].deep_view());
        if same_error(&v[k], e) {
            return true;
        }
        k += 1;
    }
    false
}

/// The first of each of the errors `v`.
pub fn dedup_parse_errors(v: &Vec<ParseError>) -> (r: Vec<ParseError>)
    ensures
        r.deep_view() == distinct(v.deep_view()),
{
    let ghost s = v.deep_view();
    let mut out: Vec<ParseError> = Vec::new();
    let mut k: usize = 0;
    while k < v.len()
        invariant
            k <= v.len(),
            s == v.deep_view(),
            out.deep_view() == distinct(s.take(k as int)),
        decreases v.len() - k,
    {
        assert(s.take(k + 1).drop_last() =~= s.take(k as int));
        assert(s.take(k + 1).last() == v@[k as int].deep_view());
        if !has_error(&out, &v[k]) {
            put(&mut out, copy_error(&v[k]));
        }
        k += 1;
    }
    assert(s.take(k as int) =~= s);
    out
}

// ---------------------------------------------------------------------------
// The summary
// ---------------------------------------------------------------------------

pub open spec fn totals(n: nat, total: nat) -> Seq<char> {
    "**Lints run**: "@
        + decimal(n)
        + " | **Total issues**: "@
        + decimal(total)
        + "\n"@
}

fn totals_of(n: usize, total: usize) -> (r: String)
    ensures
        r@ == totals(n as nat, total as nat),
{
    let mut s = owned("**Lints run**: ");
    s.append(decimal_usize(n).as_str());
    s.append(" | **Total issues**: ");
    s.append(decimal_usize(total).as_str());
    s.append("\n");
    s
}

pub open spec fn parse_note(n: nat) -> Seq<char> {
    "**Parse errors**: "@
        + decimal(n)
        + " files failed to parse (results may be incomplete)\n"@
}

fn parse_note_of(n: usize) -> (r: String)
    ensures
        r@ == parse_note(n as nat),
{
    let mut s = owned("**Parse errors**: ");
    s.append(decimal_usize(n).as_str());
    s.append(" files failed to parse (results may be incomplete)\n");
    s
}

pub open spec fn top_row(
    sev: Seq<char>,
    lint: Seq<char>,
    code: Seq<char>,
    count: nat,
) -> Seq<char> {
    "- `["@
        + sev
        + "]` `"@
        + lint
        + "` / `"@
        + code
        + "` × "@
        + decimal(count)
        + "\n"@
}

fn top_row_of(sev: &str, lint: &str, code: &str, count: usize) -> (r: String)
    ensures
        r@ == top_row(sev@, lint@, code@, count as nat),
{
    let mut s = owned("- `[");
    s.append(sev);
    s.append("]` `");
    s.append(lint);
    s.append("` / `");
    s.append(code);
    s.append("` × ");
    s.append(decimal_usize(count).as_str());
    s.append("\n");
    s
}

pub open spec fn lint_row(lint: Seq<char>, n: nat, badge: Seq<char>) -> Seq<char> {
    "- `"@
        + lint
        + "`: "@
        + decimal(n)
        + " ("@
        + badge
        + ")\n"@
}

fn lint_row_of(lint: &str, n: usize, badge: &str) -> (r: String)
    ensures
        r@ == lint_row(lint@, n as nat, badge@),
{
    let mut s = owned("- `");
    s.append(lint);
    s.append("`: ");
    s.append(decimal_usize(n).as_str());
    s.append(" (");
    s.append(badge);
    s.append(")\n");
    s
}

/// The rows on the first `n` entries of a headline.
pub open spec fn top_rows(h: Seq<HeadlineEntryView>, n: int) -> Seq<char>
    decreases n,
{
    if n <= 0 {
        Seq::empty()
    } else {
        let e = h[n - 1];
        let code = match e.code {
            Some(c) => c,
            None => "-"@,
        };
        top_rows(h, n - 1) + top_row(e.severity, e.lint, code, e.count)
    }
}

/// The rows on the first `n` lints.
pub open spec fn lint_rows(c: Seq<LintCountView>, n: int) -> Seq<char>
    decreases n,
{
    if n <= 0 {
        Seq::empty()
    } else {
        let badge = if c[n - 1].issues == 0 {
            "ok"@
        } else {
            "issues"@
        };
        lint_rows(c, n - 1) + lint_row(c[n - 1].lint, c[n - 1].issues as nat, badge)
    }
}

/// A run in Markdown: totals, the three heaviest rows of the headline, and the
/// issues of each lint.
pub open spec fn rendered(r: LintProjectReportView) -> Seq<char> {
    let head = "# Project lint\n\n"@ + totals(r.lints_run.len(), r.total_issues as nat);
    let errors = if r.parse_errors.len() > 0 {
        parse_note(r.parse_errors.len())
    } else {
        Seq::empty()
    };
    let top = if r.headline.len() > 0 {
        "## Top fixes\n\n"@ + top_rows(
            r.headline,
            if r.headline.len() < 3 {
                r.headline.len() as int
            } else {
                3
            },
        ) + "\n"@
    } else {
        Seq::empty()
    };
    head + errors + "\n"@ + top + lint_rows(r.issues_by_lint, r.issues_by_lint.len() as int)
}

fn top_rows_of(h: &Vec<HeadlineEntry>, n: usize) -> (r: String)
    requires
        n <= h.len(),
    ensures
        r@ == top_rows(h.deep_view(), n as int),
{
    let ghost v = h.deep_view();
    let mut out = String::new();
    let mut k: usize = 0;
    assert(out@ =~= top_rows(v, 0));
    while k < n
        invariant
            k <= n <= h.len(),
            v == h.deep_view(),
            out@ == top_rows(v, k as int),
        decreases n - k,
    {
        assert(v[k as int] == h@[k as int].deep_view());
        let code = match &h[k].code {
            Some(c) => owned(c.as_str()),
            None => owned("-"),
        };
        let row = top_row_of(h[k].severity, h[k].lint.as_str(), code.as_str(), h[k].count);
        out.append(row.as_str());
        k += 1;
    }
    out
}

fn lint_rows_of(c: &Vec<LintCount>) -> (r: String)
    ensures
        r@ == lint_rows(c.deep_view(), c.len() as int),
{
    let ghost v = c.deep_view();
    let mut out = String::new();
    let mut k: usize = 0;
    assert(out@ =~= lint_rows(v, 0));
    while k < c.len()
        invariant
            k <= c.len(),
            v == c.deep_view(),
            out@ == lint_rows(v, k as int),
        decreases c.len() - k,
    {
        assert(v[k as int] == c@[k as int].deep_view());
        let badge = if c[k].issues == 0 {
            "ok"
        } else {
            "issues"
        };
        let row = lint_row_of(c[k].lint.as_str(), c[k].issues, badge);
        out.append(row.as_str());
        k += 1;
    }
    out
}

pub fn render_summary(report: &LintProjectReport) -> (r: String)
    ensures
        r@ == rendered(report.deep_view()),
{
    let mut out = owned("# Project lint\n\n");
    out.append(totals_of(report.lints_run.len(), report.total_issues).as_str());
    if report.parse_errors.len() > 0 {
        out.append(parse_note_of(report.parse_errors.len()).as_str());
    }
    out.append("\n");
    let n = report.headline.len();
    if n > 0 {
        out.append("## Top fixes\n\n");
        out.append(
            top_rows_of(
                &report.headline,
                if n < 3 {
                    n
                } else {
                    3
                },
            ).as_str(),
        );
        out.append("\n");
    }
    out.append(lint_rows_of(&report.issues_by_lint).as_str());
    assert(out@ =~= rendered(report.deep_view()));
    out
}

// ---------------------------------------------------------------------------
// The run
// ---------------------------------------------------------------------------

/// The report on a project without files.
pub open spec fn nothing_checked() -> CheckRsxReportView {
    CheckRsxReportView {
        file: None,
        rsx_block_count: 0,
        checks_run: Seq::empty(),
        issues: Seq::empty(),
        per_file: Seq::empty(),
        parse_errors: Seq::empty(),
    }
}

/// What `check_rsx` says of `files`.
pub open spec fn checked(files: Seq<ScannedFile>) -> CheckRsxReportView {
    if files.len() == 0 {
        nothing_checked()
    } else {
        swept(files)
    }
}

fn check_files(files: &Vec<ScannedFile>) -> (r: CheckRsxReport)
    ensures
        r.deep_view() == checked(files@),
{
    if files.len() == 0 {
        let report = CheckRsxReport {
            file: None,
            rsx_block_count: 0,
            checks_run: Vec::new(),
            issues: Vec::new(),
            per_file: Vec::new(),
            parse_errors: Vec::new(),
        };
        assert(report.checks_run.deep_view() =~= Seq::<Seq<char>>::empty());
        assert(report.issues.deep_view() =~= nothing_checked().issues);
        assert(report.per_file.deep_view() =~= nothing_checked().per_file);
        assert(report.parse_errors.deep_view() =~= nothing_checked().parse_errors);
        return report;
    }
    sweep(files)
}

pub open spec fn when<A>(c: bool, a: A) -> Option<A> {
    if c {
        Some(a)
    } else {
        None
    }
}

/// What the lints found, each for itself.
pub open spec fn found(
    p: LintProjectParamsView,
    i: LintInputs,
    dead: DeadComponentsReportView,
    drill: DrillReportView,
) -> LintProjectReportView {
    let files = i.files@;
    let components = i.src_root@ + "/components"@;
    let server = i.src_root@ + "/server"@;
    LintProjectReportView {
        summary: Seq::empty(),
        lints_run: Seq::empty(),
        total_issues: 0,
        issues_by_lint: Seq::empty(),
        headline: Seq::empty(),
        parse_errors: Seq::empty(),
        check_rsx: when(wants(p, "check_rsx"@), checked(files)),
        dead_components: when(wants(p, "dead_components"@), dead),
        prop_drill: when(wants(p, "prop_drill"@), drill),
        signal_lint: when(wants(p, "signal_lint"@), crate::lints::signal_lint::lint::report(files)),
        signal_drilled_2_levels: when(wants(p, "signal_drilled_2_levels"@), crate::lints::signal_drilled_2_levels::report(i.components.deep_view(), i.parents.deep_view(), i.parents_errors.deep_view())),
        props_lint: when(wants(p, "props_lint"@), crate::lints::props_lint::report(files)),
        reinvented_widget: when(wants(p, "reinvented_widget"@), crate::lints::reinvented_widget::report(files, i.wrappers.deep_view())),
        optimistic_lock_gate: when(wants(p, "optimistic_lock_gate"@), crate::lints::optimistic_lock_gate::report(files)),
        server_state_blocking_locks: when(wants(p, "server_state_blocking_locks"@), crate::lints::server_state_blocking_locks::report(files)),
        presence_map_unbounded: when(wants(p, "presence_map_unbounded"@), crate::lints::presence_map_unbounded::report(files)),
        insecure_set_cookie: when(wants(p, "insecure_set_cookie"@), crate::lints::insecure_set_cookie::report(files)),
        components_audit: when(wants(p, "components_audit"@), crate::lints::components_audit::report(files, i.wrappers.deep_view())),
        duplicate_helper_client_server: when(wants(p, "duplicate_helper_client_server"@), crate::lints::duplicate_helper_client_server::report(files, components, server)),
        vec_or_owned_prop_passthrough: when(wants(p, "vec_or_owned_prop_passthrough"@), crate::lints::vec_or_owned_prop_passthrough::report(files)),
        magic_id_prefix_for_optimistic: when(wants(p, "magic_id_prefix_for_optimistic"@), crate::lints::magic_id_prefix::report(files)),
        shared_enum_validation: when(wants(p, "shared_enum_validation"@), crate::lints::shared_enum_validation::report(files, components)),
        derived_view_no_memo: when(wants(p, "derived_view_no_memo"@), crate::lints::derived_view_no_memo::report(files)),
        empty_async_error_arm: when(wants(p, "empty_async_error_arm"@), crate::lints::empty_async_error_arm::report(files)),
        polling_future_no_backoff: when(wants(p, "polling_future_no_backoff"@), crate::lints::polling_future_no_backoff::report(files)),
        repeated_auth_extractor: when(wants(p, "repeated_auth_extractor"@), crate::lints::repeated_auth_extractor::report(None, files)),
    }
}

/// The lints that run, in order.
pub open spec fn run_at(p: LintProjectParamsView) -> spec_fn(int) -> Seq<Seq<char>> {
    |k: int| only_if(wants(p, all_lints()[k]), all_lints()[k])
}

/// `r` with what its reports amount to.
pub open spec fn summed_up(
    p: LintProjectParamsView,
    r: LintProjectReportView,
) -> LintProjectReportView {
    let full = LintProjectReportView {
        lints_run: gather(0, all_lints().len() as int, run_at(p)),
        total_issues: capped(sum(counts(r))),
        issues_by_lint: counts(r),
        headline: headline(events(r)),
        parse_errors: distinct(errors(r)),
        ..r
    };
    LintProjectReportView { summary: rendered(full), ..full }
}

/// What a run gives: a report, or the reason why there is none.
pub open spec fn run(
    p: LintProjectParamsView,
    i: LintInputs,
    dead: DeadComponentsReportView,
    drill: DrillReportView,
) -> Result<LintProjectReportView, Seq<char>> {
    match refusal(p) {
        Some(m) => Err(m),
        None => Ok(summed_up(p, found(p, i, dead, drill))),
    }
}

fn runs_of(p: &LintProjectParams) -> (r: Vec<String>)
    ensures
        r.deep_view() == gather(0, all_lints().len() as int, run_at(p.deep_view())),
{
    let mut out: Vec<String> = Vec::new();
    let mut k: usize = 0;
    while k < ALL_LINTS.len()
        invariant
            k <= ALL_LINTS.len(),
            out.deep_view() == gather(0, k as int, run_at(p.deep_view())),
        decreases ALL_LINTS.len() - k,
    {
        assert(all_lints()[k as int] == ALL_LINTS@[k as int]@);
        if wanted(p, ALL_LINTS[k]) {
            put(&mut out, owned(ALL_LINTS[k]));
        }
        k += 1;
    }
    out
}

/// Sums up what the lints found.
pub fn sum_up(p: &LintProjectParams, report: LintProjectReport) -> (r: LintProjectReport)
    ensures
        r.deep_view() == summed_up(p.deep_view(), report.deep_view()),
{
    let lints_run = runs_of(p);
    let issues_by_lint = counts_of(&report);
    let total_issues = sum_of(&issues_by_lint);
    let headline = build_headline(&report);
    let parse_errors = dedup_parse_errors(&errors_of(&report));
    let mut full = report;
    full.lints_run = lints_run;
    full.issues_by_lint = issues_by_lint;
    full.total_issues = total_issues;
    full.headline = headline;
    full.parse_errors = parse_errors;
    let summary = render_summary(&full);
    full.summary = summary;
    full
}

impl Default for LintProjectReport {
    /// No lint ran.
    fn default() -> (r: Self)
        ensures
            r.deep_view() == (LintProjectReportView {
                summary: Seq::empty(),
                lints_run: Seq::empty(),
                total_issues: 0,
                issues_by_lint: Seq::empty(),
                headline: Seq::empty(),
                parse_errors: Seq::empty(),
                check_rsx: None,
                dead_components: None,
                prop_drill: None,
                signal_lint: None,
                signal_drilled_2_levels: None,
                props_lint: None,
                reinvented_widget: None,
                optimistic_lock_gate: None,
                server_state_blocking_locks: None,
                presence_map_unbounded: None,
                insecure_set_cookie: None,
                components_audit: None,
                duplicate_helper_client_server: None,
                vec_or_owned_prop_passthrough: None,
                magic_id_prefix_for_optimistic: None,
                shared_enum_validation: None,
                derived_view_no_memo: None,
                empty_async_error_arm: None,
                polling_future_no_backoff: None,
                repeated_auth_extractor: None,
            }),
    {
        let r = LintProjectReport {
            summary: String::new(),
            lints_run: Vec::new(),
            total_issues: 0,
            issues_by_lint: Vec::new(),
            headline: Vec::new(),
            parse_errors: Vec::new(),
            check_rsx: None,
            dead_components: None,
            prop_drill: None,
            signal_lint: None,
            signal_drilled_2_levels: None,
            props_lint: None,
            reinvented_widget: None,
            optimistic_lock_gate: None,
            server_state_blocking_locks: None,
            presence_map_unbounded: None,
            insecure_set_cookie: None,
            components_audit: None,
            duplicate_helper_client_server: None,
            vec_or_owned_prop_passthrough: None,
            magic_id_prefix_for_optimistic: None,
            shared_enum_validation: None,
            derived_view_no_memo: None,
            empty_async_error_arm: None,
            polling_future_no_backoff: None,
            repeated_auth_extractor: None,
        };
        assert(r.summary@ =~= Seq::<char>::empty());
        assert(r.lints_run.deep_view() =~= Seq::<Seq<char>>::empty());
        assert(r.issues_by_lint.deep_view() =~= Seq::<LintCountView>::empty());
        assert(r.headline.deep_view() =~= Seq::<HeadlineEntryView>::empty());
        assert(r.parse_errors.deep_view() =~= Seq::<ParseErrorView>::empty());
        r
    }
}

fn copy_errors(v: &Vec<ParseError>) -> (r: Vec<ParseError>)
    ensures
        r.deep_view() == v.deep_view(),
{
    let mut out: Vec<ParseError> = Vec::new();
    put_errors(&mut out, v);
    assert(out.deep_view() =~= v.deep_view());
    out
}

fn keep_if<T: DeepView>(c: bool, x: T) -> (r: Option<T>)
    ensures
        r.deep_view() == when(c, x.deep_view()),
{
    if c {
        Some(x)
    } else {
        None
    }
}

fn run_signal_lint(p: &LintProjectParams, i: &LintInputs) -> (r: Option<SignalLintReport>)
    ensures
        r.deep_view() == when(
            wants(p.deep_view(), "signal_lint"@),
            crate::lints::signal_lint::lint::report(i.files@),
        ),
{
    if wanted(p, "signal_lint") {
        Some(signal_lint(i.files))
    } else {
        None
    }
}

fn run_signal_drilled_2_levels(
    p: &LintProjectParams,
    i: &LintInputs,
) -> (r: Option<SignalDrilledReport>)
    ensures
        r.deep_view() == when(
            wants(p.deep_view(), "signal_drilled_2_levels"@),
            crate::lints::signal_drilled_2_levels::report(
                i.components.deep_view(),
                i.parents.deep_view(),
                i.parents_errors.deep_view(),
            ),
        ),
{
    if wanted(p, "signal_drilled_2_levels") {
        Some(signal_drilled_2_levels(i.components, i.parents, copy_errors(i.parents_errors)))
    } else {
        None
    }
}

fn run_props_lint(p: &LintProjectParams, i: &LintInputs) -> (r: Option<PropsLintReport>)
    ensures
        r.deep_view() == when(
            wants(p.deep_view(), "props_lint"@),
            crate::lints::props_lint::report(i.files@),
        ),
{
    if wanted(p, "props_lint") {
        Some(props_lint(i.files))
    } else {
        None
    }
}

fn run_reinvented_widget(
    p: &LintProjectParams,
    i: &LintInputs,
) -> (r: Option<ReinventedWidgetReport>)
    ensures
        r.deep_view() == when(
            wants(p.deep_view(), "reinvented_widget"@),
            crate::lints::reinvented_widget::report(i.files@, i.wrappers.deep_view()),
        ),
{
    if wanted(p, "reinvented_widget") {
        Some(reinvented_widget(i.files, i.wrappers))
    } else {
        None
    }
}

fn run_optimistic_lock_gate(
    p: &LintProjectParams,
    i: &LintInputs,
) -> (r: Option<OptimisticLockGateReport>)
    ensures
        r.deep_view() == when(
            wants(p.deep_view(), "optimistic_lock_gate"@),
            crate::lints::optimistic_lock_gate::report(i.files@),
        ),
{
    if wanted(p, "optimistic_lock_gate") {
        Some(optimistic_lock_gate(i.files))
    } else {
        None
    }
}

fn run_server_state_blocking_locks(
    p: &LintProjectParams,
    i: &LintInputs,
) -> (r: Option<ServerStateBlockingLocksReport>)
    ensures
        r.deep_view() == when(
            wants(p.deep_view(), "server_state_blocking_locks"@),
            crate::lints::server_state_blocking_locks::report(i.files@),
        ),
{
    if wanted(p, "server_state_blocking_locks") {
        Some(server_state_blocking_locks(i.files))
    } else {
        None
    }
}

fn run_presence_map_unbounded(
    p: &LintProjectParams,
    i: &LintInputs,
) -> (r: Option<PresenceMapUnboundedReport>)
    ensures
        r.deep_view() == when(
            wants(p.deep_view(), "presence_map_unbounded"@),
            crate::lints::presence_map_unbounded::report(i.files@),
        ),
{
    if wanted(p, "presence_map_unbounded") {
        Some(presence_map_unbounded(i.files))
    } else {
        None
    }
}

fn run_insecure_set_cookie(
    p: &LintProjectParams,
    i: &LintInputs,
) -> (r: Option<InsecureSetCookieReport>)
    ensures
        r.deep_view() == when(
            wants(p.deep_view(), "insecure_set_cookie"@),
            crate::lints::insecure_set_cookie::report(i.files@),
        ),
{
    if wanted(p, "insecure_set_cookie") {
        Some(insecure_set_cookie(i.files))
    } else {
        None
    }
}

fn run_components_audit(p: &LintProjectParams, i: &LintInputs) -> (r: Option<ComponentsAuditReport>)
    ensures
        r.deep_view() == when(
            wants(p.deep_view(), "components_audit"@),
            crate::lints::components_audit::report(i.files@, i.wrappers.deep_view()),
        ),
{
    if wanted(p, "components_audit") {
        Some(components_audit(i.files, i.wrappers))
    } else {
        None
    }
}

fn run_duplicate_helper_client_server(
    p: &LintProjectParams,
    i: &LintInputs,
) -> (r: Option<DuplicateHelperReport>)
    ensures
        r.deep_view() == when(
            wants(p.deep_view(), "duplicate_helper_client_server"@),
            crate::lints::duplicate_helper_client_server::report(i.files@, i.src_root@ + "/components"@, i.src_root@ + "/server"@),
        ),
{
    let components = cat2(i.src_root, "/components");
    let server = cat2(i.src_root, "/server");
    if wanted(p, "duplicate_helper_client_server") {
        Some(duplicate_helper_client_server(i.files, components.as_str(), server.as_str()))
    } else {
        None
    }
}

fn run_vec_or_owned_prop_passthrough(
    p: &LintProjectParams,
    i: &LintInputs,
) -> (r: Option<VecOrOwnedPropReport>)
    ensures
        r.deep_view() == when(
            wants(p.deep_view(), "vec_or_owned_prop_passthrough"@),
            crate::lints::vec_or_owned_prop_passthrough::report(i.files@),
        ),
{
    if wanted(p, "vec_or_owned_prop_passthrough") {
        Some(vec_or_owned_prop_passthrough(i.files))
    } else {
        None
    }
}

fn run_magic_id_prefix_for_optimistic(
    p: &LintProjectParams,
    i: &LintInputs,
) -> (r: Option<MagicIdPrefixReport>)
    ensures
        r.deep_view() == when(
            wants(p.deep_view(), "magic_id_prefix_for_optimistic"@),
            crate::lints::magic_id_prefix::report(i.files@),
        ),
{
    if wanted(p, "magic_id_prefix_for_optimistic") {
        Some(magic_id_prefix_for_optimistic(i.files))
    } else {
        None
    }
}

fn run_shared_enum_validation(
    p: &LintProjectParams,
    i: &LintInputs,
) -> (r: Option<SharedEnumReport>)
    ensures
        r.deep_view() == when(
            wants(p.deep_view(), "shared_enum_validation"@),
            crate::lints::shared_enum_validation::report(i.files@, i.src_root@ + "/components"@),
        ),
{
    let components = cat2(i.src_root, "/components");
    if wanted(p, "shared_enum_validation") {
        Some(shared_enum_validation(i.files, components.as_str()))
    } else {
        None
    }
}

fn run_derived_view_no_memo(p: &LintProjectParams, i: &LintInputs) -> (r: Option<DerivedViewReport>)
    ensures
        r.deep_view() == when(
            wants(p.deep_view(), "derived_view_no_memo"@),
            crate::lints::derived_view_no_memo::report(i.files@),
        ),
{
    if wanted(p, "derived_view_no_memo") {
        Some(derived_view_no_memo(i.files))
    } else {
        None
    }
}

fn run_empty_async_error_arm(
    p: &LintProjectParams,
    i: &LintInputs,
) -> (r: Option<EmptyAsyncErrorArmReport>)
    ensures
        r.deep_view() == when(
            wants(p.deep_view(), "empty_async_error_arm"@),
            crate::lints::empty_async_error_arm::report(i.files@),
        ),
{
    if wanted(p, "empty_async_error_arm") {
        Some(empty_async_error_arm(i.files))
    } else {
        None
    }
}

fn run_polling_future_no_backoff(
    p: &LintProjectParams,
    i: &LintInputs,
) -> (r: Option<PollingFutureReport>)
    ensures
        r.deep_view() == when(
            wants(p.deep_view(), "polling_future_no_backoff"@),
            crate::lints::polling_future_no_backoff::report(i.files@),
        ),
{
    if wanted(p, "polling_future_no_backoff") {
        Some(polling_future_no_backoff(i.files))
    } else {
        None
    }
}

fn run_repeated_auth_extractor(
    p: &LintProjectParams,
    i: &LintInputs,
) -> (r: Option<RepeatedAuthExtractorReport>)
    ensures
        r.deep_view() == when(
            wants(p.deep_view(), "repeated_auth_extractor"@),
            crate::lints::repeated_auth_extractor::report(None, i.files@),
        ),
{
    if wanted(p, "repeated_auth_extractor") {
        Some(repeated_auth_extractor(
            &RepeatedAuthExtractorParams { project_root: None, min_call_sites: None },
            i.files,
        ))
    } else {
        None
    }
}

/// Runs the lints that `p` asks for. `dead` and `drill` are what the index of
/// the project says of components that nothing renders and of props that are
/// handed on.
pub fn lint_project(
    p: &LintProjectParams,
    i: &LintInputs,
    dead: DeadComponentsReport,
    drill: DrillReport,
) -> (r: Result<LintProjectReport, String>)
    ensures
        match r {
            Ok(x) => run(p.deep_view(), *i, dead.deep_view(), drill.deep_view()) == Ok::<
                LintProjectReportView,
                Seq<char>,
            >(x.deep_view()),
            Err(m) => run(p.deep_view(), *i, dead.deep_view(), drill.deep_view()) == Err::<
                LintProjectReportView,
                Seq<char>,
            >(m@),
        },
{
    match refuse(p) {
        Some(m) => return Err(m),
        None => {},
    }
    let check_rsx = if wanted(p, "check_rsx") {
        Some(check_files(i.files))
    } else {
        None
    };
    let report = LintProjectReport {
        summary: String::new(),
        lints_run: Vec::new(),
        total_issues: 0,
        issues_by_lint: Vec::new(),
        headline: Vec::new(),
        parse_errors: Vec::new(),
        check_rsx,
        dead_components: keep_if(wanted(p, "dead_components"), dead),
        prop_drill: keep_if(wanted(p, "prop_drill"), drill),
        signal_lint: run_signal_lint(p, i),
        signal_drilled_2_levels: run_signal_drilled_2_levels(p, i),
        props_lint: run_props_lint(p, i),
        reinvented_widget: run_reinvented_widget(p, i),
        optimistic_lock_gate: run_optimistic_lock_gate(p, i),
        server_state_blocking_locks: run_server_state_blocking_locks(p, i),
        presence_map_unbounded: run_presence_map_unbounded(p, i),
        insecure_set_cookie: run_insecure_set_cookie(p, i),
        components_audit: run_components_audit(p, i),
        duplicate_helper_client_server: run_duplicate_helper_client_server(p, i),
        vec_or_owned_prop_passthrough: run_vec_or_owned_prop_passthrough(p, i),
        magic_id_prefix_for_optimistic: run_magic_id_prefix_for_optimistic(p, i),
        shared_enum_validation: run_shared_enum_validation(p, i),
        derived_view_no_memo: run_derived_view_no_memo(p, i),
        empty_async_error_arm: run_empty_async_error_arm(p, i),
        polling_future_no_backoff: run_polling_future_no_backoff(p, i),
        repeated_auth_extractor: run_repeated_auth_extractor(p, i),
    };
    assert(report.summary@ =~= Seq::<char>::empty());
    assert(report.lints_run.deep_view() =~= Seq::<Seq<char>>::empty());
    assert(report.issues_by_lint.deep_view() =~= Seq::<LintCountView>::empty());
    assert(report.headline.deep_view() =~= Seq::<HeadlineEntryView>::empty());
    assert(report.parse_errors.deep_view() =~= Seq::<ParseErrorView>::empty());
    Ok(sum_up(p, report))
}

/// The total of a run is the sum of the issues of its lints, up to the greatest
/// number that there is.
pub proof fn law_total(p: LintProjectParamsView, r: LintProjectReportView)
    ensures
        summed_up(p, r).total_issues == capped(sum(summed_up(p, r).issues_by_lint)),
{
}

proof fn lemma_sum_append(s: Seq<LintCountView>, x: Seq<LintCountView>)
    ensures
        sum(s + x) == sum(s) + sum(x),
    decreases x.len(),
{
    if x.len() == 0 {
        assert(s + x =~= s);
    } else {
        lemma_sum_append(s, x.drop_last());
        assert((s + x).drop_last() =~= s + x.drop_last());
    }
}

/// The row of a lint counts its findings.
proof fn lemma_count_row<T: Reported>(
    s: Seq<LintCountView>,
    es: Seq<EventView>,
    r: Option<T::V>,
)
    requires
        sum(s) == es.len(),
        (es + part::<T>(r)).len() <= usize::MAX,
    ensures
        sum(s + count_row::<T>(r)) == (es + part::<T>(r)).len(),
{
    lemma_sum_append(s, count_row::<T>(r));
    match r {
        Some(x) => {
            let row = count_row::<T>(r);
            assert(row.drop_last() =~= Seq::<LintCountView>::empty());
            assert(sum(row.drop_last()) == 0);
        },
        None => {},
    }
}

/// The headline and the total tell of the same findings, as long as their number
/// can be written down.
pub proof fn law_total_is_headline(p: LintProjectParamsView, r: LintProjectReportView)
    requires
        events(r).len() <= usize::MAX,
    ensures
        counted(summed_up(p, r).headline) == summed_up(p, r).total_issues,
{
    law_headline_counts(events(r));
    let a0 = Seq::<LintCountView>::empty();
    let b0 = Seq::<EventView>::empty();
    let a1 = a0 + count_row::<CheckRsxReport>(r.check_rsx);
    let b1 = b0 + part::<CheckRsxReport>(r.check_rsx);
    let a2 = a1 + count_row::<DeadComponentsReport>(r.dead_components);
    let b2 = b1 + part::<DeadComponentsReport>(r.dead_components);
    let a3 = a2 + count_row::<DrillReport>(r.prop_drill);
    let b3 = b2 + part::<DrillReport>(r.prop_drill);
    let a4 = a3 + count_row::<SignalLintReport>(r.signal_lint);
    let b4 = b3 + part::<SignalLintReport>(r.signal_lint);
    let a5 = a4 + count_row::<SignalDrilledReport>(r.signal_drilled_2_levels);
    let b5 = b4 + part::<SignalDrilledReport>(r.signal_drilled_2_levels);
    let a6 = a5 + count_row::<PropsLintReport>(r.props_lint);
    let b6 = b5 + part::<PropsLintReport>(r.props_lint);
    let a7 = a6 + count_row::<ReinventedWidgetReport>(r.reinvented_widget);
    let b7 = b6 + part::<ReinventedWidgetReport>(r.reinvented_widget);
    let a8 = a7 + count_row::<OptimisticLockGateReport>(r.optimistic_lock_gate);
    let b8 = b7 + part::<OptimisticLockGateReport>(r.optimistic_lock_gate);
    let a9 = a8 + count_row::<ServerStateBlockingLocksReport>(r.server_state_blocking_locks);
    let b9 = b8 + part::<ServerStateBlockingLocksReport>(r.server_state_blocking_locks);
    let a10 = a9 + count_row::<PresenceMapUnboundedReport>(r.presence_map_unbounded);
    let b10 = b9 + part::<PresenceMapUnboundedReport>(r.presence_map_unbounded);
    let a11 = a10 + count_row::<InsecureSetCookieReport>(r.insecure_set_cookie);
    let b11 = b10 + part::<InsecureSetCookieReport>(r.insecure_set_cookie);
    let a12 = a11 + count_row::<ComponentsAuditReport>(r.components_audit);
    let b12 = b11 + part::<ComponentsAuditReport>(r.components_audit);
    let a13 = a12 + count_row::<DuplicateHelperReport>(r.duplicate_helper_client_server);
    let b13 = b12 + part::<DuplicateHelperReport>(r.duplicate_helper_client_server);
    let a14 = a13 + count_row::<VecOrOwnedPropReport>(r.vec_or_owned_prop_passthrough);
    let b14 = b13 + part::<VecOrOwnedPropReport>(r.vec_or_owned_prop_passthrough);
    let a15 = a14 + count_row::<MagicIdPrefixReport>(r.magic_id_prefix_for_optimistic);
    let b15 = b14 + part::<MagicIdPrefixReport>(r.magic_id_prefix_for_optimistic);
    let a16 = a15 + count_row::<SharedEnumReport>(r.shared_enum_validation);
    let b16 = b15 + part::<SharedEnumReport>(r.shared_enum_validation);
    let a17 = a16 + count_row::<DerivedViewReport>(r.derived_view_no_memo);
    let b17 = b16 + part::<DerivedViewReport>(r.derived_view_no_memo);
    let a18 = a17 + count_row::<EmptyAsyncErrorArmReport>(r.empty_async_error_arm);
    let b18 = b17 + part::<EmptyAsyncErrorArmReport>(r.empty_async_error_arm);
    let a19 = a18 + count_row::<PollingFutureReport>(r.polling_future_no_backoff);
    let b19 = b18 + part::<PollingFutureReport>(r.polling_future_no_backoff);
    let a20 = a19 + count_row::<RepeatedAuthExtractorReport>(r.repeated_auth_extractor);
    let b20 = b19 + part::<RepeatedAuthExtractorReport>(r.repeated_auth_extractor);
    assert(b20 =~= events(r));
    assert(a20 =~= counts(r));
    assert(b19.len() <= usize::MAX);
    assert(b18.len() <= usize::MAX);
    assert(b17.len() <= usize::MAX);
    assert(b16.len() <= usize::MAX);
    assert(b15.len() <= usize::MAX);
    assert(b14.len() <= usize::MAX);
    assert(b13.len() <= usize::MAX);
    assert(b12.len() <= usize::MAX);
    assert(b11.len() <= usize::MAX);
    assert(b10.len() <= usize::MAX);
    assert(b9.len() <= usize::MAX);
    assert(b8.len() <= usize::MAX);
    assert(b7.len() <= usize::MAX);
    assert(b6.len() <= usize::MAX);
    assert(b5.len() <= usize::MAX);
    assert(b4.len() <= usize::MAX);
    assert(b3.len() <= usize::MAX);
    assert(b2.len() <= usize::MAX);
    assert(b1.len() <= usize::MAX);
    assert(b0.len() <= usize::MAX);
    lemma_count_row::<CheckRsxReport>(a0, b0, r.check_rsx);
    lemma_count_row::<DeadComponentsReport>(a1, b1, r.dead_components);
    lemma_count_row::<DrillReport>(a2, b2, r.prop_drill);
    lemma_count_row::<SignalLintReport>(a3, b3, r.signal_lint);
    lemma_count_row::<SignalDrilledReport>(a4, b4, r.signal_drilled_2_levels);
    lemma_count_row::<PropsLintReport>(a5, b5, r.props_lint);
    lemma_count_row::<ReinventedWidgetReport>(a6, b6, r.reinvented_widget);
    lemma_count_row::<OptimisticLockGateReport>(a7, b7, r.optimistic_lock_gate);
    lemma_count_row::<ServerStateBlockingLocksReport>(a8, b8, r.server_state_blocking_locks);
    lemma_count_row::<PresenceMapUnboundedReport>(a9, b9, r.presence_map_unbounded);
    lemma_count_row::<InsecureSetCookieReport>(a10, b10, r.insecure_set_cookie);
    lemma_count_row::<ComponentsAuditReport>(a11, b11, r.components_audit);
    lemma_count_row::<DuplicateHelperReport>(a12, b12, r.duplicate_helper_client_server);
    lemma_count_row::<VecOrOwnedPropReport>(a13, b13, r.vec_or_owned_prop_passthrough);
    lemma_count_row::<MagicIdPrefixReport>(a14, b14, r.magic_id_prefix_for_optimistic);
    lemma_count_row::<SharedEnumReport>(a15, b15, r.shared_enum_validation);
    lemma_count_row::<DerivedViewReport>(a16, b16, r.derived_view_no_memo);
    lemma_count_row::<EmptyAsyncErrorArmReport>(a17, b17, r.empty_async_error_arm);
    lemma_count_row::<PollingFutureReport>(a18, b18, r.polling_future_no_backoff);
    lemma_count_row::<RepeatedAuthExtractorReport>(a19, b19, r.repeated_auth_extractor);
}

/// A lint that is left out does not run.
pub proof fn law_excluded(p: LintProjectParamsView, r: LintProjectReportView, name: Seq<char>)
    requires
        listed(p.exclude).contains(name),
    ensures
        !summed_up(p, r).lints_run.contains(name),
{
    lemma_gather_contains(0, all_lints().len() as int, run_at(p), name);
    if summed_up(p, r).lints_run.contains(name) {
        let k = choose|k: int|
            0 <= k < all_lints().len() && (#[trigger] run_at(p)(k)).contains(name);
        assert(all_lints()[k] == name);
    }
}

/// No parse error is reported twice, and none is lost.
pub proof fn law_parse_errors(p: LintProjectParamsView, r: LintProjectReportView)
    ensures
        summed_up(p, r).parse_errors.no_duplicates(),
        forall|e: ParseErrorView| #[trigger]
            summed_up(p, r).parse_errors.contains(e) <==> errors(r).contains(e),
{
    lemma_distinct(errors(r));
}

/// What `check_rsx` could not parse comes first among the errors.
#[verifier::spinoff_prover]
proof fn lemma_first_errors(r: LintProjectReportView, e: ParseErrorView)
    requires
        part_errors::<CheckRsxReport>(r.check_rsx).contains(e),
    ensures
        errors(r).contains(e),
{
    let own = part_errors::<CheckRsxReport>(r.check_rsx);
    let m = choose|m: int| 0 <= m < own.len() && own[m] == e;
    assert(errors(r)[m] == e);
}

/// Files that do not parse stop no run: each is listed among the parse errors.
#[verifier::spinoff_prover]
pub proof fn law_unparsed_is_listed(
    p: LintProjectParamsView,
    i: LintInputs,
    dead: DeadComponentsReportView,
    drill: DrillReportView,
    k: int,
)
    requires
        refusal(p) is None,
        wants(p, "check_rsx"@),
        0 <= k < i.files@.len(),
        i.files@[k].ast is Err,
    ensures
        run(p, i, dead, drill) matches Ok(r) && r.parse_errors.contains(
            parse_error(i.files@)(k)[0],
        ),
{
    let files = i.files@;
    let r = found(p, i, dead, drill);
    let e = parse_error(files)(k)[0];
    let own = part_errors::<CheckRsxReport>(r.check_rsx);
    assert(parse_error(files)(k).contains(e));
    lemma_gather_contains(0, files.len() as int, parse_error(files), e);
    assert(own.contains(e));
    lemma_first_errors(r, e);
    law_parse_errors(p, r);
}

} // verus!
