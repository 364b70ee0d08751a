//! The findings of all lints, as the headline counts them.
use vstd::prelude::*;

use super::headline::{
    lint_events, put_events, severity_or, severity_str, Coded, Event, EventView,
};
use super::check_rsx::{CheckRsxReport, CheckRsxReportView, RsxIssue, RsxIssueView};
use super::components_audit::{
    ComponentsAuditFinding, ComponentsAuditFindingView, ComponentsAuditReport, ComponentsAuditReportView,
};
use super::derived_view_no_memo::{
    DerivedViewFinding, DerivedViewFindingView, DerivedViewReport, DerivedViewReportView,
};
use super::duplicate_helper_client_server::{
    DuplicateHelperFinding, DuplicateHelperFindingView, DuplicateHelperReport, DuplicateHelperReportView,
};
use super::empty_async_error_arm::{
    EmptyAsyncErrorArmFinding, EmptyAsyncErrorArmFindingView, EmptyAsyncErrorArmReport, EmptyAsyncErrorArmReportView,
};
use super::insecure_set_cookie::{
    InsecureCookieFinding, InsecureCookieFindingView, InsecureSetCookieReport, InsecureSetCookieReportView,
};
use super::magic_id_prefix::{
    MagicIdFinding, MagicIdFindingView, MagicIdPrefixReport, MagicIdPrefixReportView,
};
use super::optimistic_lock_gate::{
    OptimisticLockGateFinding, OptimisticLockGateFindingView, OptimisticLockGateReport, OptimisticLockGateReportView,
};
use super::polling_future_no_backoff::{
    PollingFutureFinding, PollingFutureFindingView, PollingFutureReport, PollingFutureReportView,
};
use super::presence_map_unbounded::{
    PresenceMapFinding, PresenceMapFindingView, PresenceMapUnboundedReport, PresenceMapUnboundedReportView,
};
use super::props_lint::{PropsIssue, PropsIssueView, PropsLintReport, PropsLintReportView};
use super::reinvented_widget::{
    ReinventedFinding, ReinventedFindingView, ReinventedWidgetReport, ReinventedWidgetReportView,
};
use super::repeated_auth_extractor::{
    RepeatedAuthExtractorReport, RepeatedAuthExtractorReportView, RepeatedAuthFinding, RepeatedAuthFindingView,
};
use super::server_state_blocking_locks::{
    BlockingLockFinding, BlockingLockFindingView, ServerStateBlockingLocksReport, ServerStateBlockingLocksReportView,
};
use super::shared_enum_validation::{
    SharedEnumFinding, SharedEnumFindingView, SharedEnumReport, SharedEnumReportView,
};
use super::signal_drilled_2_levels::{
    SignalDrilledFinding, SignalDrilledFindingView, SignalDrilledReport, SignalDrilledReportView,
};
use super::signal_lint::report::{
    SignalIssue, SignalIssueView, SignalLintReport, SignalLintReportView,
};
use super::vec_or_owned_prop_passthrough::{
    VecOrOwnedFinding, VecOrOwnedFindingView, VecOrOwnedPropReport, VecOrOwnedPropReportView,
};
use crate::order::{gather, put};
use crate::scan::{ParseError, ParseErrorView};
use crate::text::{owned, same};

verus! {

/// A component that nothing renders.
#[derive(Debug)]
pub struct DeadComponent {
    pub name: String,
}

pub ghost struct DeadComponentView {
    pub name: Seq<char>,
}

impl DeepView for DeadComponent {
    type V = DeadComponentView;

    open spec fn deep_view(&self) -> DeadComponentView {
        DeadComponentView {
            name: self.name@,
        }
    }
}

/// The components that nothing renders.
#[derive(Debug)]
pub struct DeadComponentsReport {
    pub dead: Vec<DeadComponent>,
    pub parse_errors: Vec<ParseError>,
}

pub ghost struct DeadComponentsReportView {
    pub dead: Seq<DeadComponentView>,
    pub parse_errors: Seq<ParseErrorView>,
}

impl DeepView for DeadComponentsReport {
    type V = DeadComponentsReportView;

    open spec fn deep_view(&self) -> DeadComponentsReportView {
        DeadComponentsReportView {
            dead: self.dead.deep_view(),
            parse_errors: self.parse_errors.deep_view(),
        }
    }
}

/// A prop that a component hands on.
#[derive(Debug)]
pub struct DrillPassthrough {
    /// What is handed on, where it is known.
    pub kind: Option<String>,
    pub severity: Option<String>,
}

pub ghost struct DrillPassthroughView {
    pub kind: Option<Seq<char>>,
    pub severity: Option<Seq<char>>,
}

impl DeepView for DrillPassthrough {
    type V = DrillPassthroughView;

    open spec fn deep_view(&self) -> DrillPassthroughView {
        DrillPassthroughView {
            kind: self.kind.deep_view(),
            severity: self.severity.deep_view(),
        }
    }
}

/// What one component hands on.
#[derive(Debug)]
pub struct DrillParent {
    pub component: String,
    pub passthroughs: Vec<DrillPassthrough>,
}

pub ghost struct DrillParentView {
    pub component: Seq<char>,
    pub passthroughs: Seq<DrillPassthroughView>,
}

impl DeepView for DrillParent {
    type V = DrillParentView;

    open spec fn deep_view(&self) -> DrillParentView {
        DrillParentView {
            component: self.component@,
            passthroughs: self.passthroughs.deep_view(),
        }
    }
}

/// The props that components hand on.
#[derive(Debug)]
pub struct DrillReport {
    pub parents: Vec<DrillParent>,
    pub parse_errors: Vec<ParseError>,
}

pub ghost struct DrillReportView {
    pub parents: Seq<DrillParentView>,
    pub parse_errors: Seq<ParseErrorView>,
}

impl DeepView for DrillReport {
    type V = DrillReportView;

    open spec fn deep_view(&self) -> DrillReportView {
        DrillReportView {
            parents: self.parents.deep_view(),
            parse_errors: self.parse_errors.deep_view(),
        }
    }
}

impl Coded for RsxIssue {
    open spec fn code(v: RsxIssueView) -> Option<Seq<char>> {
        None
    }

    open spec fn tier(v: RsxIssueView) -> Seq<char> {
        "error"@
    }

    fn code_of(&self) -> (r: Option<String>) {
        None
    }

    fn tier_of(&self) -> (r: &'static str) {
        "error"
    }
}

impl Coded for DeadComponent {
    open spec fn code(v: DeadComponentView) -> Option<Seq<char>> {
        Some("dead_components"@)
    }

    open spec fn tier(v: DeadComponentView) -> Seq<char> {
        "warning"@
    }

    fn code_of(&self) -> (r: Option<String>) {
        Some(owned("dead_components"))
    }

    fn tier_of(&self) -> (r: &'static str) {
        "warning"
    }
}

impl Coded for DrillPassthrough {
    open spec fn code(v: DrillPassthroughView) -> Option<Seq<char>> {
        match v.kind {
            Some(k) => Some(k),
            None => Some("state_passthrough"@),
        }
    }

    open spec fn tier(v: DrillPassthroughView) -> Seq<char> {
        severity_or(v.severity, "warning"@)
    }

    fn code_of(&self) -> (r: Option<String>) {
        match &self.kind {
            Some(k) => Some(owned(k.as_str())),
            None => Some(owned("state_passthrough")),
        }
    }

    fn tier_of(&self) -> (r: &'static str) {
        match &self.severity {
            Some(s) => severity_str(Some(s.as_str()), "warning"),
            None => "warning",
        }
    }
}

impl Coded for SignalIssue {
    open spec fn code(v: SignalIssueView) -> Option<Seq<char>> {
        Some(v.code)
    }

    open spec fn tier(v: SignalIssueView) -> Seq<char> {
        "warning"@
    }

    fn code_of(&self) -> (r: Option<String>) {
        Some(owned(self.code))
    }

    fn tier_of(&self) -> (r: &'static str) {
        "warning"
    }
}

impl Coded for SignalDrilledFinding {
    open spec fn code(v: SignalDrilledFindingView) -> Option<Seq<char>> {
        Some(v.code)
    }

    open spec fn tier(v: SignalDrilledFindingView) -> Seq<char> {
        severity_or(Some(v.severity), "warning"@)
    }

    fn code_of(&self) -> (r: Option<String>) {
        Some(owned(self.code))
    }

    fn tier_of(&self) -> (r: &'static str) {
        severity_str(Some(self.severity), "warning")
    }
}

impl Coded for PropsIssue {
    open spec fn code(v: PropsIssueView) -> Option<Seq<char>> {
        Some(v.code)
    }

    open spec fn tier(v: PropsIssueView) -> Seq<char> {
        "warning"@
    }

    fn code_of(&self) -> (r: Option<String>) {
        Some(owned(self.code))
    }

    fn tier_of(&self) -> (r: &'static str) {
        "warning"
    }
}

impl Coded for ReinventedFinding {
    open spec fn code(v: ReinventedFindingView) -> Option<Seq<char>> {
        Some("reinvented_widget"@)
    }

    open spec fn tier(v: ReinventedFindingView) -> Seq<char> {
        if v.confidence == "high"@ {
            "warning"@
        } else {
            "info"@
        }
    }

    fn code_of(&self) -> (r: Option<String>) {
        Some(owned("reinvented_widget"))
    }

    fn tier_of(&self) -> (r: &'static str) {
        if same(self.confidence, "high") {
            "warning"
        } else {
            "info"
        }
    }
}

impl Coded for OptimisticLockGateFinding {
    open spec fn code(v: OptimisticLockGateFindingView) -> Option<Seq<char>> {
        Some(v.code)
    }

    open spec fn tier(v: OptimisticLockGateFindingView) -> Seq<char> {
        "warning"@
    }

    fn code_of(&self) -> (r: Option<String>) {
        Some(owned(self.code))
    }

    fn tier_of(&self) -> (r: &'static str) {
        "warning"
    }
}

impl Coded for BlockingLockFinding {
    open spec fn code(v: BlockingLockFindingView) -> Option<Seq<char>> {
        Some(v.code)
    }

    open spec fn tier(v: BlockingLockFindingView) -> Seq<char> {
        "info"@
    }

    fn code_of(&self) -> (r: Option<String>) {
        Some(owned(self.code))
    }

    fn tier_of(&self) -> (r: &'static str) {
        "info"
    }
}

impl Coded for PresenceMapFinding {
    open spec fn code(v: PresenceMapFindingView) -> Option<Seq<char>> {
        Some(v.code)
    }

    open spec fn tier(v: PresenceMapFindingView) -> Seq<char> {
        severity_or(Some(v.severity), "info"@)
    }

    fn code_of(&self) -> (r: Option<String>) {
        Some(owned(self.code))
    }

    fn tier_of(&self) -> (r: &'static str) {
        severity_str(Some(self.severity), "info")
    }
}

impl Coded for InsecureCookieFinding {
    open spec fn code(v: InsecureCookieFindingView) -> Option<Seq<char>> {
        Some(v.code)
    }

    open spec fn tier(v: InsecureCookieFindingView) -> Seq<char> {
        severity_or(Some(v.severity), "warning"@)
    }

    fn code_of(&self) -> (r: Option<String>) {
        Some(owned(self.code))
    }

    fn tier_of(&self) -> (r: &'static str) {
        severity_str(Some(self.severity), "warning")
    }
}

impl Coded for ComponentsAuditFinding {
    open spec fn code(v: ComponentsAuditFindingView) -> Option<Seq<char>> {
        Some("hand_rolled_catalog_class"@)
    }

    open spec fn tier(v: ComponentsAuditFindingView) -> Seq<char> {
        "info"@
    }

    fn code_of(&self) -> (r: Option<String>) {
        Some(owned("hand_rolled_catalog_class"))
    }

    fn tier_of(&self) -> (r: &'static str) {
        "info"
    }
}

impl Coded for DuplicateHelperFinding {
    open spec fn code(v: DuplicateHelperFindingView) -> Option<Seq<char>> {
        Some(v.code)
    }

    open spec fn tier(v: DuplicateHelperFindingView) -> Seq<char> {
        severity_or(Some(v.severity), "warning"@)
    }

    fn code_of(&self) -> (r: Option<String>) {
        Some(owned(self.code))
    }

    fn tier_of(&self) -> (r: &'static str) {
        severity_str(Some(self.severity), "warning")
    }
}

impl Coded for VecOrOwnedFinding {
    open spec fn code(v: VecOrOwnedFindingView) -> Option<Seq<char>> {
        Some(v.code)
    }

    open spec fn tier(v: VecOrOwnedFindingView) -> Seq<char> {
        severity_or(Some(v.severity), "info"@)
    }

    fn code_of(&self) -> (r: Option<String>) {
        Some(owned(self.code))
    }

    fn tier_of(&self) -> (r: &'static str) {
        severity_str(Some(self.severity), "info")
    }
}

impl Coded for MagicIdFinding {
    open spec fn code(v: MagicIdFindingView) -> Option<Seq<char>> {
        Some(v.code)
    }

    open spec fn tier(v: MagicIdFindingView) -> Seq<char> {
        severity_or(Some(v.severity), "info"@)
    }

    fn code_of(&self) -> (r: Option<String>) {
        Some(owned(self.code))
    }

    fn tier_of(&self) -> (r: &'static str) {
        severity_str(Some(self.severity), "info")
    }
}

impl Coded for SharedEnumFinding {
    open spec fn code(v: SharedEnumFindingView) -> Option<Seq<char>> {
        Some(v.code)
    }

    open spec fn tier(v: SharedEnumFindingView) -> Seq<char> {
        severity_or(Some(v.severity), "info"@)
    }

    fn code_of(&self) -> (r: Option<String>) {
        Some(owned(self.code))
    }

    fn tier_of(&self) -> (r: &'static str) {
        severity_str(Some(self.severity), "info")
    }
}

impl Coded for DerivedViewFinding {
    open spec fn code(v: DerivedViewFindingView) -> Option<Seq<char>> {
        Some(v.code)
    }

    open spec fn tier(v: DerivedViewFindingView) -> Seq<char> {
        severity_or(Some(v.severity), "warning"@)
    }

    fn code_of(&self) -> (r: Option<String>) {
        Some(owned(self.code))
    }

    fn tier_of(&self) -> (r: &'static str) {
        severity_str(Some(self.severity), "warning")
    }
}

impl Coded for EmptyAsyncErrorArmFinding {
    open spec fn code(v: EmptyAsyncErrorArmFindingView) -> Option<Seq<char>> {
        Some(v.code)
    }

    open spec fn tier(v: EmptyAsyncErrorArmFindingView) -> Seq<char> {
        severity_or(Some(v.severity), "warning"@)
    }

    fn code_of(&self) -> (r: Option<String>) {
        Some(owned(self.code))
    }

    fn tier_of(&self) -> (r: &'static str) {
        severity_str(Some(self.severity), "warning")
    }
}

impl Coded for PollingFutureFinding {
    open spec fn code(v: PollingFutureFindingView) -> Option<Seq<char>> {
        Some(v.code)
    }

    open spec fn tier(v: PollingFutureFindingView) -> Seq<char> {
        severity_or(Some(v.severity), "warning"@)
    }

    fn code_of(&self) -> (r: Option<String>) {
        Some(owned(self.code))
    }

    fn tier_of(&self) -> (r: &'static str) {
        severity_str(Some(self.severity), "warning")
    }
}

impl Coded for RepeatedAuthFinding {
    open spec fn code(v: RepeatedAuthFindingView) -> Option<Seq<char>> {
        Some(v.code)
    }

    open spec fn tier(v: RepeatedAuthFindingView) -> Seq<char> {
        severity_or(Some(v.severity), "info"@)
    }

    fn code_of(&self) -> (r: Option<String>) {
        Some(owned(self.code))
    }

    fn tier_of(&self) -> (r: &'static str) {
        severity_str(Some(self.severity), "info")
    }
}

// ---------------------------------------------------------------------------
// Reports
// ---------------------------------------------------------------------------

/// `n`, or the greatest number that there is.
pub open spec fn capped(n: nat) -> usize {
    if n <= usize::MAX {
        n as usize
    } else {
        usize::MAX
    }
}

/// The report of a lint: its findings and what did not parse.
pub trait Reported: DeepView + Sized {
    /// The name of the lint.
    spec fn lint() -> Seq<char>;

    spec fn found(v: Self::V) -> Seq<EventView>;

    spec fn unparsed(v: Self::V) -> Seq<ParseErrorView>;

    fn lint_of() -> (r: &'static str)
        ensures
            r@ == Self::lint(),
    ;

    fn put_found(&self, out: &mut Vec<Event>)
        ensures
            final(out).deep_view() == old(out).deep_view() + Self::found(self.deep_view()),
    ;

    fn count_found(&self) -> (r: usize)
        ensures
            r == capped(Self::found(self.deep_view()).len()),
    ;

    fn put_unparsed(&self, out: &mut Vec<ParseError>)
        ensures
            final(out).deep_view() == old(out).deep_view() + Self::unparsed(self.deep_view()),
    ;
}

pub fn copy_error(e: &ParseError) -> (r: ParseError)
    ensures
        r.deep_view() == e.deep_view(),
{
    ParseError {
        file: owned(e.file.as_str()),
        line: e.line,
        column: e.column,
        message: owned(e.message.as_str()),
    }
}

/// Adds a copy of the errors `v` at the end of `out`.
pub fn put_errors(out: &mut Vec<ParseError>, v: &Vec<ParseError>)
    ensures
        final(out).deep_view() == old(out).deep_view() + v.deep_view(),
{
    let ghost s = v.deep_view();
    let ghost before = out.deep_view();
    let mut k: usize = 0;
    assert(out.deep_view() =~= before + s.take(0));
    while k < v.len()
        invariant
            k <= v.len(),
            s == v.deep_view(),
            out.deep_view() =~= before + s.take(k as int),
        decreases v.len() - k,
    {
        assert(s[k as int] == v@[k as int].deep_view());
        put(out, copy_error(&v[k]));
        assert(s.take(k + 1) =~= s.take(k as int).push(s[k as int]));
        k += 1;
    }
    assert(s.take(k as int) =~= s);
}

pub open spec fn passthroughs_at(ps: Seq<DrillParentView>) -> spec_fn(int) -> Seq<
    DrillPassthroughView,
> {
    |k: int| ps[k].passthroughs
}

/// All props that components hand on.
pub open spec fn passthroughs(ps: Seq<DrillParentView>) -> Seq<DrillPassthroughView> {
    gather(0, ps.len() as int, passthroughs_at(ps))
}

fn put_passthroughs(out: &mut Vec<Event>, ps: &Vec<DrillParent>)
    ensures
        final(out).deep_view() == old(out).deep_view() + lint_events::<DrillPassthrough>(
            "prop_drill"@,
            passthroughs(ps.deep_view()),
        ),
{
    let ghost v = ps.deep_view();
    let ghost before = out.deep_view();
    let mut k: usize = 0;
    assert(out.deep_view() =~= before + lint_events::<DrillPassthrough>(
        "prop_drill"@,
        gather(0, 0, passthroughs_at(v)),
    ));
    while k < ps.len()
        invariant
            k <= ps.len(),
            v == ps.deep_view(),
            out.deep_view() =~= before + lint_events::<DrillPassthrough>(
                "prop_drill"@,
                gather(0, k as int, passthroughs_at(v)),
            ),
        decreases ps.len() - k,
    {
        assert(v[k as int] == ps@[k as int].deep_view());
        put_events(out, "prop_drill", &ps[k].passthroughs);
        let ghost a = gather(0, k as int, passthroughs_at(v));
        let ghost b = v[k as int].passthroughs;
        assert(gather(0, k + 1, passthroughs_at(v)) == a + b);
        assert(lint_events::<DrillPassthrough>("prop_drill"@, a + b)
            =~= lint_events::<DrillPassthrough>("prop_drill"@, a)
            + lint_events::<DrillPassthrough>("prop_drill"@, b));
        k += 1;
    }
}

fn passthrough_count(ps: &Vec<DrillParent>) -> (r: usize)
    ensures
        r == capped(passthroughs(ps.deep_view()).len()),
{
    let ghost v = ps.deep_view();
    let mut n: usize = 0;
    let mut k: usize = 0;
    while k < ps.len()
        invariant
            k <= ps.len(),
            v == ps.deep_view(),
            n == capped(gather(0, k as int, passthroughs_at(v)).len()),
        decreases ps.len() - k,
    {
        assert(v[k as int] == ps@[k as int].deep_view());
        let more = ps[k].passthroughs.len();
        assert(more == v[k as int].passthroughs.len());
        n = match n.checked_add(more) {
            Some(m) => m,
            None => usize::MAX,
        };
        k += 1;
    }
    n
}

impl Reported for CheckRsxReport {
    open spec fn lint() -> Seq<char> {
        "check_rsx"@
    }

    open spec fn found(v: CheckRsxReportView) -> Seq<EventView> {
        lint_events::<RsxIssue>("check_rsx"@, v.issues)
    }

    open spec fn unparsed(v: CheckRsxReportView) -> Seq<ParseErrorView> {
        v.parse_errors
    }

    fn lint_of() -> (r: &'static str) {
        "check_rsx"
    }

    fn put_found(&self, out: &mut Vec<Event>) {
        put_events(out, "check_rsx", &self.issues);
    }

    fn count_found(&self) -> (r: usize) {
        self.issues.len()
    }

    fn put_unparsed(&self, out: &mut Vec<ParseError>) {
        put_errors(out, &self.parse_errors);
    }
}

impl Reported for DeadComponentsReport {
    open spec fn lint() -> Seq<char> {
        "dead_components"@
    }

    open spec fn found(v: DeadComponentsReportView) -> Seq<EventView> {
        lint_events::<DeadComponent>("dead_components"@, v.dead)
    }

    open spec fn unparsed(v: DeadComponentsReportView) -> Seq<ParseErrorView> {
        v.parse_errors
    }

    fn lint_of() -> (r: &'static str) {
        "dead_components"
    }

    fn put_found(&self, out: &mut Vec<Event>) {
        put_events(out, "dead_components", &self.dead);
    }

    fn count_found(&self) -> (r: usize) {
        self.dead.len()
    }

    fn put_unparsed(&self, out: &mut Vec<ParseError>) {
        put_errors(out, &self.parse_errors);
    }
}

impl Reported for DrillReport {
    open spec fn lint() -> Seq<char> {
        "prop_drill"@
    }

    open spec fn found(v: DrillReportView) -> Seq<EventView> {
        lint_events::<DrillPassthrough>("prop_drill"@, passthroughs(v.parents))
    }

    open spec fn unparsed(v: DrillReportView) -> Seq<ParseErrorView> {
        v.parse_errors
    }

    fn lint_of() -> (r: &'static str) {
        "prop_drill"
    }

    fn put_found(&self, out: &mut Vec<Event>) {
        put_passthroughs(out, &self.parents);
    }

    fn count_found(&self) -> (r: usize) {
        passthrough_count(&self.parents)
    }

    fn put_unparsed(&self, out: &mut Vec<ParseError>) {
        put_errors(out, &self.parse_errors);
    }
}

impl Reported for SignalLintReport {
    open spec fn lint() -> Seq<char> {
        "signal_lint"@
    }

    open spec fn found(v: SignalLintReportView) -> Seq<EventView> {
        lint_events::<SignalIssue>("signal_lint"@, v.issues)
    }

    open spec fn unparsed(v: SignalLintReportView) -> Seq<ParseErrorView> {
        v.parse_errors
    }

    fn lint_of() -> (r: &'static str) {
        "signal_lint"
    }

    fn put_found(&self, out: &mut Vec<Event>) {
        put_events(out, "signal_lint", &self.issues);
    }

    fn count_found(&self) -> (r: usize) {
        self.issues.len()
    }

    fn put_unparsed(&self, out: &mut Vec<ParseError>) {
        put_errors(out, &self.parse_errors);
    }
}

impl Reported for SignalDrilledReport {
    open spec fn lint() -> Seq<char> {
        "signal_drilled_2_levels"@
    }

    open spec fn found(v: SignalDrilledReportView) -> Seq<EventView> {
        lint_events::<SignalDrilledFinding>("signal_drilled_2_levels"@, v.findings)
    }

    open spec fn unparsed(v: SignalDrilledReportView) -> Seq<ParseErrorView> {
        v.parse_errors
    }

    fn lint_of() -> (r: &'static str) {
        "signal_drilled_2_levels"
    }

    fn put_found(&self, out: &mut Vec<Event>) {
        put_events(out, "signal_drilled_2_levels", &self.findings);
    }

    fn count_found(&self) -> (r: usize) {
        self.findings.len()
    }

    fn put_unparsed(&self, out: &mut Vec<ParseError>) {
        put_errors(out, &self.parse_errors);
    }
}

impl Reported for PropsLintReport {
    open spec fn lint() -> Seq<char> {
        "props_lint"@
    }

    open spec fn found(v: PropsLintReportView) -> Seq<EventView> {
        lint_events::<PropsIssue>("props_lint"@, v.issues)
    }

    open spec fn unparsed(v: PropsLintReportView) -> Seq<ParseErrorView> {
        v.parse_errors
    }

    fn lint_of() -> (r: &'static str) {
        "props_lint"
    }

    fn put_found(&self, out: &mut Vec<Event>) {
        put_events(out, "props_lint", &self.issues);
    }

    fn count_found(&self) -> (r: usize) {
        self.issues.len()
    }

    fn put_unparsed(&self, out: &mut Vec<ParseError>) {
        put_errors(out, &self.parse_errors);
    }
}

impl Reported for ReinventedWidgetReport {
    open spec fn lint() -> Seq<char> {
        "reinvented_widget"@
    }

    open spec fn found(v: ReinventedWidgetReportView) -> Seq<EventView> {
        lint_events::<ReinventedFinding>("reinvented_widget"@, v.findings)
    }

    open spec fn unparsed(v: ReinventedWidgetReportView) -> Seq<ParseErrorView> {
        v.parse_errors
    }

    fn lint_of() -> (r: &'static str) {
        "reinvented_widget"
    }

    fn put_found(&self, out: &mut Vec<Event>) {
        put_events(out, "reinvented_widget", &self.findings);
    }

    fn count_found(&self) -> (r: usize) {
        self.findings.len()
    }

    fn put_unparsed(&self, out: &mut Vec<ParseError>) {
        put_errors(out, &self.parse_errors);
    }
}

impl Reported for OptimisticLockGateReport {
    open spec fn lint() -> Seq<char> {
        "optimistic_lock_gate"@
    }

    open spec fn found(v: OptimisticLockGateReportView) -> Seq<EventView> {
        lint_events::<OptimisticLockGateFinding>("optimistic_lock_gate"@, v.findings)
    }

    open spec fn unparsed(v: OptimisticLockGateReportView) -> Seq<ParseErrorView> {
        v.parse_errors
    }

    fn lint_of() -> (r: &'static str) {
        "optimistic_lock_gate"
    }

    fn put_found(&self, out: &mut Vec<Event>) {
        put_events(out, "optimistic_lock_gate", &self.findings);
    }

    fn count_found(&self) -> (r: usize) {
        self.findings.len()
    }

    fn put_unparsed(&self, out: &mut Vec<ParseError>) {
        put_errors(out, &self.parse_errors);
    }
}

impl Reported for ServerStateBlockingLocksReport {
    open spec fn lint() -> Seq<char> {
        "server_state_blocking_locks"@
    }

    open spec fn found(v: ServerStateBlockingLocksReportView) -> Seq<EventView> {
        lint_events::<BlockingLockFinding>("server_state_blocking_locks"@, v.findings)
    }

    open spec fn unparsed(v: ServerStateBlockingLocksReportView) -> Seq<ParseErrorView> {
        v.parse_errors
    }

    fn lint_of() -> (r: &'static str) {
        "server_state_blocking_locks"
    }

    fn put_found(&self, out: &mut Vec<Event>) {
        put_events(out, "server_state_blocking_locks", &self.findings);
    }

    fn count_found(&self) -> (r: usize) {
        self.findings.len()
    }

    fn put_unparsed(&self, out: &mut Vec<ParseError>) {
        put_errors(out, &self.parse_errors);
    }
}

impl Reported for PresenceMapUnboundedReport {
    open spec fn lint() -> Seq<char> {
        "presence_map_unbounded"@
    }

    open spec fn found(v: PresenceMapUnboundedReportView) -> Seq<EventView> {
        lint_events::<PresenceMapFinding>("presence_map_unbounded"@, v.findings)
    }

    open spec fn unparsed(v: PresenceMapUnboundedReportView) -> Seq<ParseErrorView> {
        v.parse_errors
    }

    fn lint_of() -> (r: &'static str) {
        "presence_map_unbounded"
    }

    fn put_found(&self, out: &mut Vec<Event>) {
        put_events(out, "presence_map_unbounded", &self.findings);
    }

    fn count_found(&self) -> (r: usize) {
        self.findings.len()
    }

    fn put_unparsed(&self, out: &mut Vec<ParseError>) {
        put_errors(out, &self.parse_errors);
    }
}

impl Reported for InsecureSetCookieReport {
    open spec fn lint() -> Seq<char> {
        "insecure_set_cookie"@
    }

    open spec fn found(v: InsecureSetCookieReportView) -> Seq<EventView> {
        lint_events::<InsecureCookieFinding>("insecure_set_cookie"@, v.findings)
    }

    open spec fn unparsed(v: InsecureSetCookieReportView) -> Seq<ParseErrorView> {
        v.parse_errors
    }

    fn lint_of() -> (r: &'static str) {
        "insecure_set_cookie"
    }

    fn put_found(&self, out: &mut Vec<Event>) {
        put_events(out, "insecure_set_cookie", &self.findings);
    }

    fn count_found(&self) -> (r: usize) {
        self.findings.len()
    }

    fn put_unparsed(&self, out: &mut Vec<ParseError>) {
        put_errors(out, &self.parse_errors);
    }
}

impl Reported for ComponentsAuditReport {
    open spec fn lint() -> Seq<char> {
        "components_audit"@
    }

    open spec fn found(v: ComponentsAuditReportView) -> Seq<EventView> {
        lint_events::<ComponentsAuditFinding>("components_audit"@, v.findings)
    }

    open spec fn unparsed(v: ComponentsAuditReportView) -> Seq<ParseErrorView> {
        v.parse_errors
    }

    fn lint_of() -> (r: &'static str) {
        "components_audit"
    }

    fn put_found(&self, out: &mut Vec<Event>) {
        put_events(out, "components_audit", &self.findings);
    }

    fn count_found(&self) -> (r: usize) {
        self.findings.len()
    }

    fn put_unparsed(&self, out: &mut Vec<ParseError>) {
        put_errors(out, &self.parse_errors);
    }
}

impl Reported for DuplicateHelperReport {
    open spec fn lint() -> Seq<char> {
        "duplicate_helper_client_server"@
    }

    open spec fn found(v: DuplicateHelperReportView) -> Seq<EventView> {
        lint_events::<DuplicateHelperFinding>("duplicate_helper_client_server"@, v.findings)
    }

    open spec fn unparsed(v: DuplicateHelperReportView) -> Seq<ParseErrorView> {
        v.parse_errors
    }

    fn lint_of() -> (r: &'static str) {
        "duplicate_helper_client_server"
    }

    fn put_found(&self, out: &mut Vec<Event>) {
        put_events(out, "duplicate_helper_client_server", &self.findings);
    }

    fn count_found(&self) -> (r: usize) {
        self.findings.len()
    }

    fn put_unparsed(&self, out: &mut Vec<ParseError>) {
        put_errors(out, &self.parse_errors);
    }
}

impl Reported for VecOrOwnedPropReport {
    open spec fn lint() -> Seq<char> {
        "vec_or_owned_prop_passthrough"@
    }

    open spec fn found(v: VecOrOwnedPropReportView) -> Seq<EventView> {
        lint_events::<VecOrOwnedFinding>("vec_or_owned_prop_passthrough"@, v.findings)
    }

    open spec fn unparsed(v: VecOrOwnedPropReportView) -> Seq<ParseErrorView> {
        v.parse_errors
    }

    fn lint_of() -> (r: &'static str) {
        "vec_or_owned_prop_passthrough"
    }

    fn put_found(&self, out: &mut Vec<Event>) {
        put_events(out, "vec_or_owned_prop_passthrough", &self.findings);
    }

    fn count_found(&self) -> (r: usize) {
        self.findings.len()
    }

    fn put_unparsed(&self, out: &mut Vec<ParseError>) {
        put_errors(out, &self.parse_errors);
    }
}

impl Reported for MagicIdPrefixReport {
    open spec fn lint() -> Seq<char> {
        "magic_id_prefix_for_optimistic"@
    }

    open spec fn found(v: MagicIdPrefixReportView) -> Seq<EventView> {
        lint_events::<MagicIdFinding>("magic_id_prefix_for_optimistic"@, v.findings)
    }

    open spec fn unparsed(v: MagicIdPrefixReportView) -> Seq<ParseErrorView> {
        v.parse_errors
    }

    fn lint_of() -> (r: &'static str) {
        "magic_id_prefix_for_optimistic"
    }

    fn put_found(&self, out: &mut Vec<Event>) {
        put_events(out, "magic_id_prefix_for_optimistic", &self.findings);
    }

    fn count_found(&self) -> (r: usize) {
        self.findings.len()
    }

    fn put_unparsed(&self, out: &mut Vec<ParseError>) {
        put_errors(out, &self.parse_errors);
    }
}

impl Reported for SharedEnumReport {
    open spec fn lint() -> Seq<char> {
        "shared_enum_validation"@
    }

    open spec fn found(v: SharedEnumReportView) -> Seq<EventView> {
        lint_events::<SharedEnumFinding>("shared_enum_validation"@, v.findings)
    }

    open spec fn unparsed(v: SharedEnumReportView) -> Seq<ParseErrorView> {
        v.parse_errors
    }

    fn lint_of() -> (r: &'static str) {
        "shared_enum_validation"
    }

    fn put_found(&self, out: &mut Vec<Event>) {
        put_events(out, "shared_enum_validation", &self.findings);
    }

    fn count_found(&self) -> (r: usize) {
        self.findings.len()
    }

    fn put_unparsed(&self, out: &mut Vec<ParseError>) {
        put_errors(out, &self.parse_errors);
    }
}

impl Reported for DerivedViewReport {
    open spec fn lint() -> Seq<char> {
        "derived_view_no_memo"@
    }

    open spec fn found(v: DerivedViewReportView) -> Seq<EventView> {
        lint_events::<DerivedViewFinding>("derived_view_no_memo"@, v.findings)
    }

    open spec fn unparsed(v: DerivedViewReportView) -> Seq<ParseErrorView> {
        v.parse_errors
    }

    fn lint_of() -> (r: &'static str) {
        "derived_view_no_memo"
    }

    fn put_found(&self, out: &mut Vec<Event>) {
        put_events(out, "derived_view_no_memo", &self.findings);
    }

    fn count_found(&self) -> (r: usize) {
        self.findings.len()
    }

    fn put_unparsed(&self, out: &mut Vec<ParseError>) {
        put_errors(out, &self.parse_errors);
    }
}

impl Reported for EmptyAsyncErrorArmReport {
    open spec fn lint() -> Seq<char> {
        "empty_async_error_arm"@
    }

    open spec fn found(v: EmptyAsyncErrorArmReportView) -> Seq<EventView> {
        lint_events::<EmptyAsyncErrorArmFinding>("empty_async_error_arm"@, v.findings)
    }

    open spec fn unparsed(v: EmptyAsyncErrorArmReportView) -> Seq<ParseErrorView> {
        v.parse_errors
    }

    fn lint_of() -> (r: &'static str) {
        "empty_async_error_arm"
    }

    fn put_found(&self, out: &mut Vec<Event>) {
        put_events(out, "empty_async_error_arm", &self.findings);
    }

    fn count_found(&self) -> (r: usize) {
        self.findings.len()
    }

    fn put_unparsed(&self, out: &mut Vec<ParseError>) {
        put_errors(out, &self.parse_errors);
    }
}

impl Reported for PollingFutureReport {
    open spec fn lint() -> Seq<char> {
        "polling_future_no_backoff"@
    }

    open spec fn found(v: PollingFutureReportView) -> Seq<EventView> {
        lint_events::<PollingFutureFinding>("polling_future_no_backoff"@, v.findings)
    }

    open spec fn unparsed(v: PollingFutureReportView) -> Seq<ParseErrorView> {
        v.parse_errors
    }

    fn lint_of() -> (r: &'static str) {
        "polling_future_no_backoff"
    }

    fn put_found(&self, out: &mut Vec<Event>) {
        put_events(out, "polling_future_no_backoff", &self.findings);
    }

    fn count_found(&self) -> (r: usize) {
        self.findings.len()
    }

    fn put_unparsed(&self, out: &mut Vec<ParseError>) {
        put_errors(out, &self.parse_errors);
    }
}

impl Reported for RepeatedAuthExtractorReport {
    open spec fn lint() -> Seq<char> {
        "repeated_auth_extractor"@
    }

    open spec fn found(v: RepeatedAuthExtractorReportView) -> Seq<EventView> {
        lint_events::<RepeatedAuthFinding>("repeated_auth_extractor"@, v.findings)
    }

    open spec fn unparsed(v: RepeatedAuthExtractorReportView) -> Seq<ParseErrorView> {
        v.parse_errors
    }

    fn lint_of() -> (r: &'static str) {
        "repeated_auth_extractor"
    }

    fn put_found(&self, out: &mut Vec<Event>) {
        put_events(out, "repeated_auth_extractor", &self.findings);
    }

    fn count_found(&self) -> (r: usize) {
        self.findings.len()
    }

    fn put_unparsed(&self, out: &mut Vec<ParseError>) {
        put_errors(out, &self.parse_errors);
    }
}

} // verus!
