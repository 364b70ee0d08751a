//! What the lint of a whole project reports of what each lint finds.
use vstd::prelude::*;

use super::check_rsx::CheckRsxReport;
use super::components_audit::ComponentsAuditReport;
use super::derived_view_no_memo::DerivedViewReport;
use super::duplicate_helper_client_server::DuplicateHelperReport;
use super::empty_async_error_arm::EmptyAsyncErrorArmReport;
use super::findings::{
    DeadComponentsReport, DeadComponentsReportView, DrillReport, DrillReportView,
};
use super::headline::{headline, law_headline_rows, EventView, HeadlineEntryView};
use super::insecure_set_cookie::InsecureSetCookieReport;
use super::lint_project::{
    all_lints, count_row, counts, errors, events, listed, part, part_errors, run, run_at, summed_up,
    unknown, LintCountView, LintInputs, LintProjectParamsView, LintProjectReportView, ALL_LINTS,
};
use super::magic_id_prefix::MagicIdPrefixReport;
use super::optimistic_lock_gate::OptimisticLockGateReport;
use super::polling_future_no_backoff::PollingFutureReport;
use super::presence_map_unbounded::PresenceMapUnboundedReport;
use super::props_lint::PropsLintReport;
use super::reinvented_widget::ReinventedWidgetReport;
use super::repeated_auth_extractor::RepeatedAuthExtractorReport;
use super::server_state_blocking_locks::ServerStateBlockingLocksReport;
use super::shared_enum_validation::SharedEnumReport;
use super::signal_drilled_2_levels::SignalDrilledReport;
use super::signal_lint::report::SignalLintReport;
use super::vec_or_owned_prop_passthrough::VecOrOwnedPropReport;
use crate::order::{gather, lemma_distinct, lemma_gather_contains};
use crate::scan::ParseErrorView;

verus! {

/// `name` is the name of a lint.
pub open spec fn lint_name(name: Seq<char>) -> bool {
    ||| name == "check_rsx"@
    ||| name == "dead_components"@
    ||| name == "prop_drill"@
    ||| name == "signal_lint"@
    ||| name == "signal_drilled_2_levels"@
    ||| name == "props_lint"@
    ||| name == "reinvented_widget"@
    ||| name == "optimistic_lock_gate"@
    ||| name == "server_state_blocking_locks"@
    ||| name == "presence_map_unbounded"@
    ||| name == "insecure_set_cookie"@
    ||| name == "components_audit"@
    ||| name == "duplicate_helper_client_server"@
    ||| name == "vec_or_owned_prop_passthrough"@
    ||| name == "magic_id_prefix_for_optimistic"@
    ||| name == "shared_enum_validation"@
    ||| name == "derived_view_no_memo"@
    ||| name == "empty_async_error_arm"@
    ||| name == "polling_future_no_backoff"@
    ||| name == "repeated_auth_extractor"@
}

proof fn lemma_lint_name(name: Seq<char>)
    ensures
        all_lints().contains(name) <==> lint_name(name),
{
    let all = all_lints();
    assert(ALL_LINTS@.len() == 20);
    assert(all[0] == "check_rsx"@);
    assert(all[1] == "dead_components"@);
    assert(all[2] == "prop_drill"@);
    assert(all[3] == "signal_lint"@);
    assert(all[4] == "signal_drilled_2_levels"@);
    assert(all[5] == "props_lint"@);
    assert(all[6] == "reinvented_widget"@);
    assert(all[7] == "optimistic_lock_gate"@);
    assert(all[8] == "server_state_blocking_locks"@);
    assert(all[9] == "presence_map_unbounded"@);
    assert(all[10] == "insecure_set_cookie"@);
    assert(all[11] == "components_audit"@);
    assert(all[12] == "duplicate_helper_client_server"@);
    assert(all[13] == "vec_or_owned_prop_passthrough"@);
    assert(all[14] == "magic_id_prefix_for_optimistic"@);
    assert(all[15] == "shared_enum_validation"@);
    assert(all[16] == "derived_view_no_memo"@);
    assert(all[17] == "empty_async_error_arm"@);
    assert(all[18] == "polling_future_no_backoff"@);
    assert(all[19] == "repeated_auth_extractor"@);
    if all.contains(name) {
        let k = choose|k: int| 0 <= k < all.len() && all[k] == name;
        assert(k == 0 || k == 1 || k == 2 || k == 3 || k == 4 || k == 5 || k == 6
            || k == 7 || k == 8 || k == 9 || k == 10 || k == 11 || k == 12 || k == 13
            || k == 14 || k == 15 || k == 16 || k == 17 || k == 18 || k == 19);
    }
}

/// The lint `name` is asked for: it is among those named, or none is, and it is not
/// left out.
pub open spec fn asked_for(p: LintProjectParamsView, name: Seq<char>) -> bool {
    &&& p.included matches Some(v) ==> v.contains(name)
    &&& p.exclude matches Some(v) ==> !v.contains(name)
}

/// The lints that run are those that are asked for.
pub proof fn law_lints_run(p: LintProjectParamsView, r: LintProjectReportView, name: Seq<char>)
    ensures
        summed_up(p, r).lints_run.contains(name) <==> lint_name(name) && asked_for(p, name),
{
    let rule = run_at(p);
    let n = all_lints().len() as int;
    lemma_lint_name(name);
    lemma_gather_contains(0, n, rule, name);
    if lint_name(name) && asked_for(p, name) {
        let k = choose|k: int| 0 <= k < n && all_lints()[k] == name;
        assert(rule(k)[0] == name);
        assert(rule(k).contains(name));
    }
    if gather(0, n, rule).contains(name) {
        let k = choose|k: int| 0 <= k < n && (#[trigger] rule(k)).contains(name);
        assert(all_lints().contains(all_lints()[k]));
    }
}

proof fn lemma_unknown(names: Seq<Seq<char>>)
    ensures
        unknown(names) is None <==> forall|k: int|
            0 <= k < names.len() ==> lint_name(#[trigger] names[k]),
    decreases names.len(),
{
    if names.len() > 0 {
        let less = names.drop_last();
        lemma_unknown(less);
        lemma_lint_name(names.last());
        assert forall|k: int| 0 <= k < less.len() implies less[k] == #[trigger] names[k] by {}
        if unknown(names) is None {
            assert forall|k: int| 0 <= k < names.len() implies lint_name(#[trigger] names[k]) by {
                if k < less.len() {
                    assert(lint_name(less[k]));
                }
            }
        } else if forall|k: int| 0 <= k < names.len() ==> lint_name(#[trigger] names[k]) {
            assert forall|k: int| 0 <= k < less.len() implies lint_name(#[trigger] less[k]) by {
                assert(lint_name(names[k]));
            }
            assert(lint_name(names[names.len() - 1]));
        }
    }
}

/// A project is linted if every name that is asked for or left out is that of a lint,
/// and refused otherwise.
pub proof fn law_unknown_names_are_refused(
    p: LintProjectParamsView,
    i: LintInputs,
    dead: DeadComponentsReportView,
    drill: DrillReportView,
)
    ensures
        run(p, i, dead, drill) is Ok <==> (p.included matches Some(v) ==> forall|k: int|
            0 <= k < v.len() ==> lint_name(#[trigger] v[k])) && (p.exclude matches Some(v)
            ==> forall|k: int| 0 <= k < v.len() ==> lint_name(#[trigger] v[k])),
{
    lemma_unknown(listed(p.included));
    lemma_unknown(listed(p.exclude));
}

/// A lint that is asked for has its report, and one that is not has none.
pub proof fn law_reports_of_lints(
    p: LintProjectParamsView,
    i: LintInputs,
    dead: DeadComponentsReportView,
    drill: DrillReportView,
)
    ensures
        run(p, i, dead, drill) matches Ok(r) ==> {
            &&& r.check_rsx is Some <==> asked_for(p, "check_rsx"@)
            &&& r.dead_components is Some <==> asked_for(p, "dead_components"@)
            &&& r.prop_drill is Some <==> asked_for(p, "prop_drill"@)
            &&& r.signal_lint is Some <==> asked_for(p, "signal_lint"@)
            &&& r.signal_drilled_2_levels is Some <==> asked_for(p, "signal_drilled_2_levels"@)
            &&& r.props_lint is Some <==> asked_for(p, "props_lint"@)
            &&& r.reinvented_widget is Some <==> asked_for(p, "reinvented_widget"@)
            &&& r.optimistic_lock_gate is Some <==> asked_for(p, "optimistic_lock_gate"@)
            &&& r.server_state_blocking_locks is Some <==> asked_for(
                p,
                "server_state_blocking_locks"@,
            )
            &&& r.presence_map_unbounded is Some <==> asked_for(p, "presence_map_unbounded"@)
            &&& r.insecure_set_cookie is Some <==> asked_for(p, "insecure_set_cookie"@)
            &&& r.components_audit is Some <==> asked_for(p, "components_audit"@)
            &&& r.duplicate_helper_client_server is Some <==> asked_for(
                p,
                "duplicate_helper_client_server"@,
            )
            &&& r.vec_or_owned_prop_passthrough is Some <==> asked_for(
                p,
                "vec_or_owned_prop_passthrough"@,
            )
            &&& r.magic_id_prefix_for_optimistic is Some <==> asked_for(
                p,
                "magic_id_prefix_for_optimistic"@,
            )
            &&& r.shared_enum_validation is Some <==> asked_for(p, "shared_enum_validation"@)
            &&& r.derived_view_no_memo is Some <==> asked_for(p, "derived_view_no_memo"@)
            &&& r.empty_async_error_arm is Some <==> asked_for(p, "empty_async_error_arm"@)
            &&& r.polling_future_no_backoff is Some <==> asked_for(p, "polling_future_no_backoff"@)
            &&& r.repeated_auth_extractor is Some <==> asked_for(p, "repeated_auth_extractor"@)
            &&& r.dead_components matches Some(x) ==> x == dead
            &&& r.prop_drill matches Some(x) ==> x == drill
        },
{
}

// ---------------------------------------------------------------------------
// Rows
// ---------------------------------------------------------------------------

proof fn lemma_concat<A>(a: Seq<A>, b: Seq<A>)
    ensures
        forall|x: A| #[trigger] a.contains(x) ==> (a + b).contains(x),
        forall|x: A| #[trigger] b.contains(x) ==> (a + b).contains(x),
{
    assert forall|x: A| #[trigger] a.contains(x) implies (a + b).contains(x) by {
        let k = choose|k: int| 0 <= k < a.len() && a[k] == x;
        assert((a + b)[k] == x);
    }
    assert forall|x: A| #[trigger] b.contains(x) implies (a + b).contains(x) by {
        let k = choose|k: int| 0 <= k < b.len() && b[k] == x;
        assert((a + b)[a.len() + k] == x);
    }
}

proof fn lemma_event(r: LintProjectReportView, x: EventView)
    requires
        part::<CheckRsxReport>(r.check_rsx).contains(x)
            || part::<DeadComponentsReport>(r.dead_components).contains(x)
            || part::<DrillReport>(r.prop_drill).contains(x)
            || part::<SignalLintReport>(r.signal_lint).contains(x)
            || part::<SignalDrilledReport>(r.signal_drilled_2_levels).contains(x)
            || part::<PropsLintReport>(r.props_lint).contains(x)
            || part::<ReinventedWidgetReport>(r.reinvented_widget).contains(x)
            || part::<OptimisticLockGateReport>(r.optimistic_lock_gate).contains(x)
            || part::<ServerStateBlockingLocksReport>(r.server_state_blocking_locks).contains(x)
            || part::<PresenceMapUnboundedReport>(r.presence_map_unbounded).contains(x)
            || part::<InsecureSetCookieReport>(r.insecure_set_cookie).contains(x)
            || part::<ComponentsAuditReport>(r.components_audit).contains(x)
            || part::<DuplicateHelperReport>(r.duplicate_helper_client_server).contains(x)
            || part::<VecOrOwnedPropReport>(r.vec_or_owned_prop_passthrough).contains(x)
            || part::<MagicIdPrefixReport>(r.magic_id_prefix_for_optimistic).contains(x)
            || part::<SharedEnumReport>(r.shared_enum_validation).contains(x)
            || part::<DerivedViewReport>(r.derived_view_no_memo).contains(x)
            || part::<EmptyAsyncErrorArmReport>(r.empty_async_error_arm).contains(x)
            || part::<PollingFutureReport>(r.polling_future_no_backoff).contains(x)
            || part::<RepeatedAuthExtractorReport>(r.repeated_auth_extractor).contains(x),
    ensures
        events(r).contains(x),
{
    let p0 = part::<CheckRsxReport>(r.check_rsx);
    let p1 = part::<DeadComponentsReport>(r.dead_components);
    let p2 = part::<DrillReport>(r.prop_drill);
    let p3 = part::<SignalLintReport>(r.signal_lint);
    let p4 = part::<SignalDrilledReport>(r.signal_drilled_2_levels);
    let p5 = part::<PropsLintReport>(r.props_lint);
    let p6 = part::<ReinventedWidgetReport>(r.reinvented_widget);
    let p7 = part::<OptimisticLockGateReport>(r.optimistic_lock_gate);
    let p8 = part::<ServerStateBlockingLocksReport>(r.server_state_blocking_locks);
    let p9 = part::<PresenceMapUnboundedReport>(r.presence_map_unbounded);
    let p10 = part::<InsecureSetCookieReport>(r.insecure_set_cookie);
    let p11 = part::<ComponentsAuditReport>(r.components_audit);
    let p12 = part::<DuplicateHelperReport>(r.duplicate_helper_client_server);
    let p13 = part::<VecOrOwnedPropReport>(r.vec_or_owned_prop_passthrough);
    let p14 = part::<MagicIdPrefixReport>(r.magic_id_prefix_for_optimistic);
    let p15 = part::<SharedEnumReport>(r.shared_enum_validation);
    let p16 = part::<DerivedViewReport>(r.derived_view_no_memo);
    let p17 = part::<EmptyAsyncErrorArmReport>(r.empty_async_error_arm);
    let p18 = part::<PollingFutureReport>(r.polling_future_no_backoff);
    let p19 = part::<RepeatedAuthExtractorReport>(r.repeated_auth_extractor);
    let s1 = p0 + p1;
    lemma_concat(p0, p1);
    let s2 = s1 + p2;
    lemma_concat(s1, p2);
    let s3 = s2 + p3;
    lemma_concat(s2, p3);
    let s4 = s3 + p4;
    lemma_concat(s3, p4);
    let s5 = s4 + p5;
    lemma_concat(s4, p5);
    let s6 = s5 + p6;
    lemma_concat(s5, p6);
    let s7 = s6 + p7;
    lemma_concat(s6, p7);
    let s8 = s7 + p8;
    lemma_concat(s7, p8);
    let s9 = s8 + p9;
    lemma_concat(s8, p9);
    let s10 = s9 + p10;
    lemma_concat(s9, p10);
    let s11 = s10 + p11;
    lemma_concat(s10, p11);
    let s12 = s11 + p12;
    lemma_concat(s11, p12);
    let s13 = s12 + p13;
    lemma_concat(s12, p13);
    let s14 = s13 + p14;
    lemma_concat(s13, p14);
    let s15 = s14 + p15;
    lemma_concat(s14, p15);
    let s16 = s15 + p16;
    lemma_concat(s15, p16);
    let s17 = s16 + p17;
    lemma_concat(s16, p17);
    let s18 = s17 + p18;
    lemma_concat(s17, p18);
    let s19 = s18 + p19;
    lemma_concat(s18, p19);
    assert(events(r) == s19);
}

proof fn lemma_count(r: LintProjectReportView, x: LintCountView)
    requires
        count_row::<CheckRsxReport>(r.check_rsx).contains(x)
            || count_row::<DeadComponentsReport>(r.dead_components).contains(x)
            || count_row::<DrillReport>(r.prop_drill).contains(x)
            || count_row::<SignalLintReport>(r.signal_lint).contains(x)
            || count_row::<SignalDrilledReport>(r.signal_drilled_2_levels).contains(x)
            || count_row::<PropsLintReport>(r.props_lint).contains(x)
            || count_row::<ReinventedWidgetReport>(r.reinvented_widget).contains(x)
            || count_row::<OptimisticLockGateReport>(r.optimistic_lock_gate).contains(x)
            || count_row::<ServerStateBlockingLocksReport>(r.server_state_blocking_locks).contains(x)
            || count_row::<PresenceMapUnboundedReport>(r.presence_map_unbounded).contains(x)
            || count_row::<InsecureSetCookieReport>(r.insecure_set_cookie).contains(x)
            || count_row::<ComponentsAuditReport>(r.components_audit).contains(x)
            || count_row::<DuplicateHelperReport>(r.duplicate_helper_client_server).contains(x)
            || count_row::<VecOrOwnedPropReport>(r.vec_or_owned_prop_passthrough).contains(x)
            || count_row::<MagicIdPrefixReport>(r.magic_id_prefix_for_optimistic).contains(x)
            || count_row::<SharedEnumReport>(r.shared_enum_validation).contains(x)
            || count_row::<DerivedViewReport>(r.derived_view_no_memo).contains(x)
            || count_row::<EmptyAsyncErrorArmReport>(r.empty_async_error_arm).contains(x)
            || count_row::<PollingFutureReport>(r.polling_future_no_backoff).contains(x)
            || count_row::<RepeatedAuthExtractorReport>(r.repeated_auth_extractor).contains(x),
    ensures
        counts(r).contains(x),
{
    let p0 = count_row::<CheckRsxReport>(r.check_rsx);
    let p1 = count_row::<DeadComponentsReport>(r.dead_components);
    let p2 = count_row::<DrillReport>(r.prop_drill);
    let p3 = count_row::<SignalLintReport>(r.signal_lint);
    let p4 = count_row::<SignalDrilledReport>(r.signal_drilled_2_levels);
    let p5 = count_row::<PropsLintReport>(r.props_lint);
    let p6 = count_row::<ReinventedWidgetReport>(r.reinvented_widget);
    let p7 = count_row::<OptimisticLockGateReport>(r.optimistic_lock_gate);
    let p8 = count_row::<ServerStateBlockingLocksReport>(r.server_state_blocking_locks);
    let p9 = count_row::<PresenceMapUnboundedReport>(r.presence_map_unbounded);
    let p10 = count_row::<InsecureSetCookieReport>(r.insecure_set_cookie);
    let p11 = count_row::<ComponentsAuditReport>(r.components_audit);
    let p12 = count_row::<DuplicateHelperReport>(r.duplicate_helper_client_server);
    let p13 = count_row::<VecOrOwnedPropReport>(r.vec_or_owned_prop_passthrough);
    let p14 = count_row::<MagicIdPrefixReport>(r.magic_id_prefix_for_optimistic);
    let p15 = count_row::<SharedEnumReport>(r.shared_enum_validation);
    let p16 = count_row::<DerivedViewReport>(r.derived_view_no_memo);
    let p17 = count_row::<EmptyAsyncErrorArmReport>(r.empty_async_error_arm);
    let p18 = count_row::<PollingFutureReport>(r.polling_future_no_backoff);
    let p19 = count_row::<RepeatedAuthExtractorReport>(r.repeated_auth_extractor);
    let s1 = p0 + p1;
    lemma_concat(p0, p1);
    let s2 = s1 + p2;
    lemma_concat(s1, p2);
    let s3 = s2 + p3;
    lemma_concat(s2, p3);
    let s4 = s3 + p4;
    lemma_concat(s3, p4);
    let s5 = s4 + p5;
    lemma_concat(s4, p5);
    let s6 = s5 + p6;
    lemma_concat(s5, p6);
    let s7 = s6 + p7;
    lemma_concat(s6, p7);
    let s8 = s7 + p8;
    lemma_concat(s7, p8);
    let s9 = s8 + p9;
    lemma_concat(s8, p9);
    let s10 = s9 + p10;
    lemma_concat(s9, p10);
    let s11 = s10 + p11;
    lemma_concat(s10, p11);
    let s12 = s11 + p12;
    lemma_concat(s11, p12);
    let s13 = s12 + p13;
    lemma_concat(s12, p13);
    let s14 = s13 + p14;
    lemma_concat(s13, p14);
    let s15 = s14 + p15;
    lemma_concat(s14, p15);
    let s16 = s15 + p16;
    lemma_concat(s15, p16);
    let s17 = s16 + p17;
    lemma_concat(s16, p17);
    let s18 = s17 + p18;
    lemma_concat(s17, p18);
    let s19 = s18 + p19;
    lemma_concat(s18, p19);
    assert(counts(r) == s19);
}

proof fn lemma_error(r: LintProjectReportView, x: ParseErrorView)
    requires
        part_errors::<CheckRsxReport>(r.check_rsx).contains(x)
            || part_errors::<DeadComponentsReport>(r.dead_components).contains(x)
            || part_errors::<DrillReport>(r.prop_drill).contains(x)
            || part_errors::<SignalLintReport>(r.signal_lint).contains(x)
            || part_errors::<SignalDrilledReport>(r.signal_drilled_2_levels).contains(x)
            || part_errors::<PropsLintReport>(r.props_lint).contains(x)
            || part_errors::<ReinventedWidgetReport>(r.reinvented_widget).contains(x)
            || part_errors::<OptimisticLockGateReport>(r.optimistic_lock_gate).contains(x)
            || part_errors::<ServerStateBlockingLocksReport>(r.server_state_blocking_locks).contains(x)
            || part_errors::<PresenceMapUnboundedReport>(r.presence_map_unbounded).contains(x)
            || part_errors::<InsecureSetCookieReport>(r.insecure_set_cookie).contains(x)
            || part_errors::<ComponentsAuditReport>(r.components_audit).contains(x)
            || part_errors::<DuplicateHelperReport>(r.duplicate_helper_client_server).contains(x)
            || part_errors::<VecOrOwnedPropReport>(r.vec_or_owned_prop_passthrough).contains(x)
            || part_errors::<MagicIdPrefixReport>(r.magic_id_prefix_for_optimistic).contains(x)
            || part_errors::<SharedEnumReport>(r.shared_enum_validation).contains(x)
            || part_errors::<DerivedViewReport>(r.derived_view_no_memo).contains(x)
            || part_errors::<EmptyAsyncErrorArmReport>(r.empty_async_error_arm).contains(x)
            || part_errors::<PollingFutureReport>(r.polling_future_no_backoff).contains(x)
            || part_errors::<RepeatedAuthExtractorReport>(r.repeated_auth_extractor).contains(x),
    ensures
        errors(r).contains(x),
{
    let p0 = part_errors::<CheckRsxReport>(r.check_rsx);
    let p1 = part_errors::<DeadComponentsReport>(r.dead_components);
    let p2 = part_errors::<DrillReport>(r.prop_drill);
    let p3 = part_errors::<SignalLintReport>(r.signal_lint);
    let p4 = part_errors::<SignalDrilledReport>(r.signal_drilled_2_levels);
    let p5 = part_errors::<PropsLintReport>(r.props_lint);
    let p6 = part_errors::<ReinventedWidgetReport>(r.reinvented_widget);
    let p7 = part_errors::<OptimisticLockGateReport>(r.optimistic_lock_gate);
    let p8 = part_errors::<ServerStateBlockingLocksReport>(r.server_state_blocking_locks);
    let p9 = part_errors::<PresenceMapUnboundedReport>(r.presence_map_unbounded);
    let p10 = part_errors::<InsecureSetCookieReport>(r.insecure_set_cookie);
    let p11 = part_errors::<ComponentsAuditReport>(r.components_audit);
    let p12 = part_errors::<DuplicateHelperReport>(r.duplicate_helper_client_server);
    let p13 = part_errors::<VecOrOwnedPropReport>(r.vec_or_owned_prop_passthrough);
    let p14 = part_errors::<MagicIdPrefixReport>(r.magic_id_prefix_for_optimistic);
    let p15 = part_errors::<SharedEnumReport>(r.shared_enum_validation);
    let p16 = part_errors::<DerivedViewReport>(r.derived_view_no_memo);
    let p17 = part_errors::<EmptyAsyncErrorArmReport>(r.empty_async_error_arm);
    let p18 = part_errors::<PollingFutureReport>(r.polling_future_no_backoff);
    let p19 = part_errors::<RepeatedAuthExtractorReport>(r.repeated_auth_extractor);
    let s1 = p0 + p1;
    lemma_concat(p0, p1);
    let s2 = s1 + p2;
    lemma_concat(s1, p2);
    let s3 = s2 + p3;
    lemma_concat(s2, p3);
    let s4 = s3 + p4;
    lemma_concat(s3, p4);
    let s5 = s4 + p5;
    lemma_concat(s4, p5);
    let s6 = s5 + p6;
    lemma_concat(s5, p6);
    let s7 = s6 + p7;
    lemma_concat(s6, p7);
    let s8 = s7 + p8;
    lemma_concat(s7, p8);
    let s9 = s8 + p9;
    lemma_concat(s8, p9);
    let s10 = s9 + p10;
    lemma_concat(s9, p10);
    let s11 = s10 + p11;
    lemma_concat(s10, p11);
    let s12 = s11 + p12;
    lemma_concat(s11, p12);
    let s13 = s12 + p13;
    lemma_concat(s12, p13);
    let s14 = s13 + p14;
    lemma_concat(s13, p14);
    let s15 = s14 + p15;
    lemma_concat(s14, p15);
    let s16 = s15 + p16;
    lemma_concat(s15, p16);
    let s17 = s16 + p17;
    lemma_concat(s16, p17);
    let s18 = s17 + p18;
    lemma_concat(s17, p18);
    let s19 = s18 + p19;
    lemma_concat(s18, p19);
    assert(errors(r) == s19);
}

/// The headline has a row for that lint, code and severity, and counts something in it.
pub open spec fn has_row(
    h: Seq<HeadlineEntryView>,
    lint: Seq<char>,
    code: Option<Seq<char>>,
    severity: Seq<char>,
) -> bool {
    exists|e: HeadlineEntryView| #[trigger]
        h.contains(e) && e.lint == lint && e.code == code && e.severity == severity && e.count >= 1
}

proof fn lemma_has_row(r: LintProjectReportView, e: EventView)
    requires
        events(r).contains(e),
    ensures
        has_row(headline(events(r)), e.lint, e.code, e.severity),
{
    let es = events(r);
    let k = choose|k: int| 0 <= k < es.len() && es[k] == e;
    law_headline_rows(es);
    let h = super::headline::entry(es, es[k]);
    assert(headline(es).contains(h));
    lemma_tallied(es, e, k, es.len() as int);
}

proof fn lemma_tallied(es: Seq<EventView>, e: EventView, k: int, n: int)
    requires
        0 <= k < n <= es.len(),
        es[k] == e,
    ensures
        super::headline::tally(es, e, n) >= 1,
    decreases n,
{
    if k < n - 1 {
        lemma_tallied(es, e, k, n - 1);
    }
}

/// `s` is one of the severities.
pub open spec fn severity_name(s: Seq<char>) -> bool {
    s == "error"@ || s == "warning"@ || s == "info"@ || s == "hint"@
}

/// What the lint `check_rsx` finds is counted and in the headline, and what it could not
/// parse is listed.
pub proof fn law_check_rsx_is_reported(
    p: LintProjectParamsView,
    r: LintProjectReportView,
    n: int,
    e: ParseErrorView,
)
    ensures
        ({
            let all = summed_up(p, r);
            &&& r.check_rsx matches Some(x) ==> x.issues.len() <= usize::MAX
                ==> all.issues_by_lint.contains(
                LintCountView { lint: "check_rsx"@, issues: x.issues.len() as usize },
            )
            &&& r.check_rsx matches Some(x) ==> 0 <= n < x.issues.len() ==> has_row(
                all.headline,
                "check_rsx"@,
                None,
                "error"@,
            )
            &&& r.check_rsx matches Some(x) ==> x.parse_errors.contains(e)
                ==> all.parse_errors.contains(e)
        }),
{
    if let Some(x) = r.check_rsx {
        let found = part::<CheckRsxReport>(r.check_rsx);
        let row = count_row::<CheckRsxReport>(r.check_rsx)[0];
        assert(count_row::<CheckRsxReport>(r.check_rsx).contains(row));
        lemma_count(r, row);
        if 0 <= n < x.issues.len() {
            let y = found[n];
            assert(found.contains(y));
            lemma_event(r, y);
            lemma_has_row(r, y);
        }
        if x.parse_errors.contains(e) {
            assert(part_errors::<CheckRsxReport>(r.check_rsx).contains(e));
            lemma_error(r, e);
            lemma_distinct(errors(r));
        }
    }
}

/// What the lint `dead_components` finds is counted and in the headline, and what it could not
/// parse is listed.
pub proof fn law_dead_components_is_reported(
    p: LintProjectParamsView,
    r: LintProjectReportView,
    n: int,
    e: ParseErrorView,
)
    ensures
        ({
            let all = summed_up(p, r);
            &&& r.dead_components matches Some(x) ==> x.dead.len() <= usize::MAX
                ==> all.issues_by_lint.contains(
                LintCountView { lint: "dead_components"@, issues: x.dead.len() as usize },
            )
            &&& r.dead_components matches Some(x) ==> 0 <= n < x.dead.len() ==> has_row(
                all.headline,
                "dead_components"@,
                Some("dead_components"@),
                "warning"@,
            )
            &&& r.dead_components matches Some(x) ==> x.parse_errors.contains(e)
                ==> all.parse_errors.contains(e)
        }),
{
    if let Some(x) = r.dead_components {
        let found = part::<DeadComponentsReport>(r.dead_components);
        let row = count_row::<DeadComponentsReport>(r.dead_components)[0];
        assert(count_row::<DeadComponentsReport>(r.dead_components).contains(row));
        lemma_count(r, row);
        if 0 <= n < x.dead.len() {
            let y = found[n];
            assert(found.contains(y));
            lemma_event(r, y);
            lemma_has_row(r, y);
        }
        if x.parse_errors.contains(e) {
            assert(part_errors::<DeadComponentsReport>(r.dead_components).contains(e));
            lemma_error(r, e);
            lemma_distinct(errors(r));
        }
    }
}

/// What the lint `signal_lint` finds is counted and in the headline, and what it could not
/// parse is listed.
pub proof fn law_signal_lint_is_reported(
    p: LintProjectParamsView,
    r: LintProjectReportView,
    n: int,
    e: ParseErrorView,
)
    ensures
        ({
            let all = summed_up(p, r);
            &&& r.signal_lint matches Some(x) ==> x.issues.len() <= usize::MAX
                ==> all.issues_by_lint.contains(
                LintCountView { lint: "signal_lint"@, issues: x.issues.len() as usize },
            )
            &&& r.signal_lint matches Some(x) ==> 0 <= n < x.issues.len() ==> has_row(
                all.headline,
                "signal_lint"@,
                Some(x.issues[n].code),
                "warning"@,
            )
            &&& r.signal_lint matches Some(x) ==> x.parse_errors.contains(e)
                ==> all.parse_errors.contains(e)
        }),
{
    if let Some(x) = r.signal_lint {
        let found = part::<SignalLintReport>(r.signal_lint);
        let row = count_row::<SignalLintReport>(r.signal_lint)[0];
        assert(count_row::<SignalLintReport>(r.signal_lint).contains(row));
        lemma_count(r, row);
        if 0 <= n < x.issues.len() {
            let y = found[n];
            assert(found.contains(y));
            lemma_event(r, y);
            lemma_has_row(r, y);
        }
        if x.parse_errors.contains(e) {
            assert(part_errors::<SignalLintReport>(r.signal_lint).contains(e));
            lemma_error(r, e);
            lemma_distinct(errors(r));
        }
    }
}

/// What the lint `signal_drilled_2_levels` finds is counted and in the headline, and
/// what it could not parse is listed.
pub proof fn law_signal_drilled_2_levels_is_reported(
    p: LintProjectParamsView,
    r: LintProjectReportView,
    n: int,
    e: ParseErrorView,
)
    ensures
        ({
            let all = summed_up(p, r);
            &&& r.signal_drilled_2_levels matches Some(x) ==> x.findings.len() <= usize::MAX
                ==> all.issues_by_lint.contains(
                LintCountView { lint: "signal_drilled_2_levels"@, issues: x.findings.len() as usize },
            )
            &&& r.signal_drilled_2_levels matches Some(x) ==> 0 <= n < x.findings.len()
                && severity_name(x.findings[n].severity) ==> has_row(
                all.headline,
                "signal_drilled_2_levels"@,
                Some(x.findings[n].code),
                x.findings[n].severity,
            )
            &&& r.signal_drilled_2_levels matches Some(x) ==> x.parse_errors.contains(e)
                ==> all.parse_errors.contains(e)
        }),
{
    if let Some(x) = r.signal_drilled_2_levels {
        let found = part::<SignalDrilledReport>(r.signal_drilled_2_levels);
        let row = count_row::<SignalDrilledReport>(r.signal_drilled_2_levels)[0];
        assert(count_row::<SignalDrilledReport>(r.signal_drilled_2_levels).contains(row));
        lemma_count(r, row);
        if 0 <= n < x.findings.len() {
            let y = found[n];
            assert(found.contains(y));
            lemma_event(r, y);
            lemma_has_row(r, y);
        }
        if x.parse_errors.contains(e) {
            assert(part_errors::<SignalDrilledReport>(r.signal_drilled_2_levels).contains(e));
            lemma_error(r, e);
            lemma_distinct(errors(r));
        }
    }
}

/// What the lint `props_lint` finds is counted and in the headline, and what it could not
/// parse is listed.
pub proof fn law_props_lint_is_reported(
    p: LintProjectParamsView,
    r: LintProjectReportView,
    n: int,
    e: ParseErrorView,
)
    ensures
        ({
            let all = summed_up(p, r);
            &&& r.props_lint matches Some(x) ==> x.issues.len() <= usize::MAX
                ==> all.issues_by_lint.contains(
                LintCountView { lint: "props_lint"@, issues: x.issues.len() as usize },
            )
            &&& r.props_lint matches Some(x) ==> 0 <= n < x.issues.len() ==> has_row(
                all.headline,
                "props_lint"@,
                Some(x.issues[n].code),
                "warning"@,
            )
            &&& r.props_lint matches Some(x) ==> x.parse_errors.contains(e)
                ==> all.parse_errors.contains(e)
        }),
{
    if let Some(x) = r.props_lint {
        let found = part::<PropsLintReport>(r.props_lint);
        let row = count_row::<PropsLintReport>(r.props_lint)[0];
        assert(count_row::<PropsLintReport>(r.props_lint).contains(row));
        lemma_count(r, row);
        if 0 <= n < x.issues.len() {
            let y = found[n];
            assert(found.contains(y));
            lemma_event(r, y);
            lemma_has_row(r, y);
        }
        if x.parse_errors.contains(e) {
            assert(part_errors::<PropsLintReport>(r.props_lint).contains(e));
            lemma_error(r, e);
            lemma_distinct(errors(r));
        }
    }
}

/// What the lint `reinvented_widget` finds is counted and in the headline, and what it could not
/// parse is listed.
pub proof fn law_reinvented_widget_is_reported(
    p: LintProjectParamsView,
    r: LintProjectReportView,
    n: int,
    e: ParseErrorView,
)
    ensures
        ({
            let all = summed_up(p, r);
            &&& r.reinvented_widget matches Some(x) ==> x.findings.len() <= usize::MAX
                ==> all.issues_by_lint.contains(
                LintCountView { lint: "reinvented_widget"@, issues: x.findings.len() as usize },
            )
            &&& r.reinvented_widget matches Some(x) ==> 0 <= n < x.findings.len()
                && x.findings[n].confidence == "high"@ ==> has_row(
                all.headline,
                "reinvented_widget"@,
                Some("reinvented_widget"@),
                "warning"@,
            )
            &&& r.reinvented_widget matches Some(x) ==> 0 <= n < x.findings.len()
                && x.findings[n].confidence != "high"@ ==> has_row(
                all.headline,
                "reinvented_widget"@,
                Some("reinvented_widget"@),
                "info"@,
            )
            &&& r.reinvented_widget matches Some(x) ==> x.parse_errors.contains(e)
                ==> all.parse_errors.contains(e)
        }),
{
    if let Some(x) = r.reinvented_widget {
        let found = part::<ReinventedWidgetReport>(r.reinvented_widget);
        let row = count_row::<ReinventedWidgetReport>(r.reinvented_widget)[0];
        assert(count_row::<ReinventedWidgetReport>(r.reinvented_widget).contains(row));
        lemma_count(r, row);
        if 0 <= n < x.findings.len() {
            let y = found[n];
            assert(found.contains(y));
            lemma_event(r, y);
            lemma_has_row(r, y);
        }
        if x.parse_errors.contains(e) {
            assert(part_errors::<ReinventedWidgetReport>(r.reinvented_widget).contains(e));
            lemma_error(r, e);
            lemma_distinct(errors(r));
        }
    }
}

/// What the lint `optimistic_lock_gate` finds is counted and in the headline, and what it could not
/// parse is listed.
pub proof fn law_optimistic_lock_gate_is_reported(
    p: LintProjectParamsView,
    r: LintProjectReportView,
    n: int,
    e: ParseErrorView,
)
    ensures
        ({
            let all = summed_up(p, r);
            &&& r.optimistic_lock_gate matches Some(x) ==> x.findings.len() <= usize::MAX
                ==> all.issues_by_lint.contains(
                LintCountView { lint: "optimistic_lock_gate"@, issues: x.findings.len() as usize },
            )
            &&& r.optimistic_lock_gate matches Some(x) ==> 0 <= n < x.findings.len() ==> has_row(
                all.headline,
                "optimistic_lock_gate"@,
                Some(x.findings[n].code),
                "warning"@,
            )
            &&& r.optimistic_lock_gate matches Some(x) ==> x.parse_errors.contains(e)
                ==> all.parse_errors.contains(e)
        }),
{
    if let Some(x) = r.optimistic_lock_gate {
        let found = part::<OptimisticLockGateReport>(r.optimistic_lock_gate);
        let row = count_row::<OptimisticLockGateReport>(r.optimistic_lock_gate)[0];
        assert(count_row::<OptimisticLockGateReport>(r.optimistic_lock_gate).contains(row));
        lemma_count(r, row);
        if 0 <= n < x.findings.len() {
            let y = found[n];
            assert(found.contains(y));
            lemma_event(r, y);
            lemma_has_row(r, y);
        }
        if x.parse_errors.contains(e) {
            assert(part_errors::<OptimisticLockGateReport>(r.optimistic_lock_gate).contains(e));
            lemma_error(r, e);
            lemma_distinct(errors(r));
        }
    }
}

/// What the lint `server_state_blocking_locks` finds is counted and in the headline, and
/// what it could not parse is listed.
pub proof fn law_server_state_blocking_locks_is_reported(
    p: LintProjectParamsView,
    r: LintProjectReportView,
    n: int,
    e: ParseErrorView,
)
    ensures
        ({
            let all = summed_up(p, r);
            &&& r.server_state_blocking_locks matches Some(x) ==> x.findings.len() <= usize::MAX
                ==> all.issues_by_lint.contains(
                LintCountView { lint: "server_state_blocking_locks"@, issues: x.findings.len() as usize },
            )
            &&& r.server_state_blocking_locks matches Some(x) ==> 0 <= n < x.findings.len()
                ==> has_row(
                all.headline,
                "server_state_blocking_locks"@,
                Some(x.findings[n].code),
                "info"@,
            )
            &&& r.server_state_blocking_locks matches Some(x) ==> x.parse_errors.contains(e)
                ==> all.parse_errors.contains(e)
        }),
{
    if let Some(x) = r.server_state_blocking_locks {
        let found = part::<ServerStateBlockingLocksReport>(r.server_state_blocking_locks);
        let row = count_row::<ServerStateBlockingLocksReport>(r.server_state_blocking_locks)[0];
        assert(count_row::<ServerStateBlockingLocksReport>(r.server_state_blocking_locks).contains(row));
        lemma_count(r, row);
        if 0 <= n < x.findings.len() {
            let y = found[n];
            assert(found.contains(y));
            lemma_event(r, y);
            lemma_has_row(r, y);
        }
        if x.parse_errors.contains(e) {
            assert(part_errors::<ServerStateBlockingLocksReport>(r.server_state_blocking_locks).contains(e));
            lemma_error(r, e);
            lemma_distinct(errors(r));
        }
    }
}

/// What the lint `presence_map_unbounded` finds is counted and in the headline, and
/// what it could not parse is listed.
pub proof fn law_presence_map_unbounded_is_reported(
    p: LintProjectParamsView,
    r: LintProjectReportView,
    n: int,
    e: ParseErrorView,
)
    ensures
        ({
            let all = summed_up(p, r);
            &&& r.presence_map_unbounded matches Some(x) ==> x.findings.len() <= usize::MAX
                ==> all.issues_by_lint.contains(
                LintCountView { lint: "presence_map_unbounded"@, issues: x.findings.len() as usize },
            )
            &&& r.presence_map_unbounded matches Some(x) ==> 0 <= n < x.findings.len()
                && severity_name(x.findings[n].severity) ==> has_row(
                all.headline,
                "presence_map_unbounded"@,
                Some(x.findings[n].code),
                x.findings[n].severity,
            )
            &&& r.presence_map_unbounded matches Some(x) ==> x.parse_errors.contains(e)
                ==> all.parse_errors.contains(e)
        }),
{
    if let Some(x) = r.presence_map_unbounded {
        let found = part::<PresenceMapUnboundedReport>(r.presence_map_unbounded);
        let row = count_row::<PresenceMapUnboundedReport>(r.presence_map_unbounded)[0];
        assert(count_row::<PresenceMapUnboundedReport>(r.presence_map_unbounded).contains(row));
        lemma_count(r, row);
        if 0 <= n < x.findings.len() {
            let y = found[n];
            assert(found.contains(y));
            lemma_event(r, y);
            lemma_has_row(r, y);
        }
        if x.parse_errors.contains(e) {
            assert(part_errors::<PresenceMapUnboundedReport>(r.presence_map_unbounded).contains(e));
            lemma_error(r, e);
            lemma_distinct(errors(r));
        }
    }
}

/// What the lint `insecure_set_cookie` finds is counted and in the headline, and what it could not
/// parse is listed.
pub proof fn law_insecure_set_cookie_is_reported(
    p: LintProjectParamsView,
    r: LintProjectReportView,
    n: int,
    e: ParseErrorView,
)
    ensures
        ({
            let all = summed_up(p, r);
            &&& r.insecure_set_cookie matches Some(x) ==> x.findings.len() <= usize::MAX
                ==> all.issues_by_lint.contains(
                LintCountView { lint: "insecure_set_cookie"@, issues: x.findings.len() as usize },
            )
            &&& r.insecure_set_cookie matches Some(x) ==> 0 <= n < x.findings.len()
                && severity_name(x.findings[n].severity) ==> has_row(
                all.headline,
                "insecure_set_cookie"@,
                Some(x.findings[n].code),
                x.findings[n].severity,
            )
            &&& r.insecure_set_cookie matches Some(x) ==> x.parse_errors.contains(e)
                ==> all.parse_errors.contains(e)
        }),
{
    if let Some(x) = r.insecure_set_cookie {
        let found = part::<InsecureSetCookieReport>(r.insecure_set_cookie);
        let row = count_row::<InsecureSetCookieReport>(r.insecure_set_cookie)[0];
        assert(count_row::<InsecureSetCookieReport>(r.insecure_set_cookie).contains(row));
        lemma_count(r, row);
        if 0 <= n < x.findings.len() {
            let y = found[n];
            assert(found.contains(y));
            lemma_event(r, y);
            lemma_has_row(r, y);
        }
        if x.parse_errors.contains(e) {
            assert(part_errors::<InsecureSetCookieReport>(r.insecure_set_cookie).contains(e));
            lemma_error(r, e);
            lemma_distinct(errors(r));
        }
    }
}

/// What the lint `components_audit` finds is counted and in the headline, and what it could not
/// parse is listed.
pub proof fn law_components_audit_is_reported(
    p: LintProjectParamsView,
    r: LintProjectReportView,
    n: int,
    e: ParseErrorView,
)
    ensures
        ({
            let all = summed_up(p, r);
            &&& r.components_audit matches Some(x) ==> x.findings.len() <= usize::MAX
                ==> all.issues_by_lint.contains(
                LintCountView { lint: "components_audit"@, issues: x.findings.len() as usize },
            )
            &&& r.components_audit matches Some(x) ==> 0 <= n < x.findings.len() ==> has_row(
                all.headline,
                "components_audit"@,
                Some("hand_rolled_catalog_class"@),
                "info"@,
            )
            &&& r.components_audit matches Some(x) ==> x.parse_errors.contains(e)
                ==> all.parse_errors.contains(e)
        }),
{
    if let Some(x) = r.components_audit {
        let found = part::<ComponentsAuditReport>(r.components_audit);
        let row = count_row::<ComponentsAuditReport>(r.components_audit)[0];
        assert(count_row::<ComponentsAuditReport>(r.components_audit).contains(row));
        lemma_count(r, row);
        if 0 <= n < x.findings.len() {
            let y = found[n];
            assert(found.contains(y));
            lemma_event(r, y);
            lemma_has_row(r, y);
        }
        if x.parse_errors.contains(e) {
            assert(part_errors::<ComponentsAuditReport>(r.components_audit).contains(e));
            lemma_error(r, e);
            lemma_distinct(errors(r));
        }
    }
}

/// What the lint `duplicate_helper_client_server` finds is counted and in the headline, and
/// what it could not parse is listed.
pub proof fn law_duplicate_helper_client_server_is_reported(
    p: LintProjectParamsView,
    r: LintProjectReportView,
    n: int,
    e: ParseErrorView,
)
    ensures
        ({
            let all = summed_up(p, r);
            &&& r.duplicate_helper_client_server matches Some(x) ==> x.findings.len() <= usize::MAX
                ==> all.issues_by_lint.contains(
                LintCountView { lint: "duplicate_helper_client_server"@, issues: x.findings.len() as usize },
            )
            &&& r.duplicate_helper_client_server matches Some(x) ==> 0 <= n < x.findings.len()
                && severity_name(x.findings[n].severity) ==> has_row(
                all.headline,
                "duplicate_helper_client_server"@,
                Some(x.findings[n].code),
                x.findings[n].severity,
            )
            &&& r.duplicate_helper_client_server matches Some(x) ==> x.parse_errors.contains(e)
                ==> all.parse_errors.contains(e)
        }),
{
    if let Some(x) = r.duplicate_helper_client_server {
        let found = part::<DuplicateHelperReport>(r.duplicate_helper_client_server);
        let row = count_row::<DuplicateHelperReport>(r.duplicate_helper_client_server)[0];
        assert(count_row::<DuplicateHelperReport>(r.duplicate_helper_client_server).contains(row));
        lemma_count(r, row);
        if 0 <= n < x.findings.len() {
            let y = found[n];
            assert(found.contains(y));
            lemma_event(r, y);
            lemma_has_row(r, y);
        }
        if x.parse_errors.contains(e) {
            assert(part_errors::<DuplicateHelperReport>(r.duplicate_helper_client_server).contains(e));
            lemma_error(r, e);
            lemma_distinct(errors(r));
        }
    }
}

/// What the lint `vec_or_owned_prop_passthrough` finds is counted and in the headline, and
/// what it could not parse is listed.
pub proof fn law_vec_or_owned_prop_passthrough_is_reported(
    p: LintProjectParamsView,
    r: LintProjectReportView,
    n: int,
    e: ParseErrorView,
)
    ensures
        ({
            let all = summed_up(p, r);
            &&& r.vec_or_owned_prop_passthrough matches Some(x) ==> x.findings.len() <= usize::MAX
                ==> all.issues_by_lint.contains(
                LintCountView { lint: "vec_or_owned_prop_passthrough"@, issues: x.findings.len() as usize },
            )
            &&& r.vec_or_owned_prop_passthrough matches Some(x) ==> 0 <= n < x.findings.len()
                && severity_name(x.findings[n].severity) ==> has_row(
                all.headline,
                "vec_or_owned_prop_passthrough"@,
                Some(x.findings[n].code),
                x.findings[n].severity,
            )
            &&& r.vec_or_owned_prop_passthrough matches Some(x) ==> x.parse_errors.contains(e)
                ==> all.parse_errors.contains(e)
        }),
{
    if let Some(x) = r.vec_or_owned_prop_passthrough {
        let found = part::<VecOrOwnedPropReport>(r.vec_or_owned_prop_passthrough);
        let row = count_row::<VecOrOwnedPropReport>(r.vec_or_owned_prop_passthrough)[0];
        assert(count_row::<VecOrOwnedPropReport>(r.vec_or_owned_prop_passthrough).contains(row));
        lemma_count(r, row);
        if 0 <= n < x.findings.len() {
            let y = found[n];
            assert(found.contains(y));
            lemma_event(r, y);
            lemma_has_row(r, y);
        }
        if x.parse_errors.contains(e) {
            assert(part_errors::<VecOrOwnedPropReport>(r.vec_or_owned_prop_passthrough).contains(e));
            lemma_error(r, e);
            lemma_distinct(errors(r));
        }
    }
}

/// What the lint `magic_id_prefix_for_optimistic` finds is counted and in the headline, and
/// what it could not parse is listed.
pub proof fn law_magic_id_prefix_for_optimistic_is_reported(
    p: LintProjectParamsView,
    r: LintProjectReportView,
    n: int,
    e: ParseErrorView,
)
    ensures
        ({
            let all = summed_up(p, r);
            &&& r.magic_id_prefix_for_optimistic matches Some(x) ==> x.findings.len() <= usize::MAX
                ==> all.issues_by_lint.contains(
                LintCountView { lint: "magic_id_prefix_for_optimistic"@, issues: x.findings.len() as usize },
            )
            &&& r.magic_id_prefix_for_optimistic matches Some(x) ==> 0 <= n < x.findings.len()
                && severity_name(x.findings[n].severity) ==> has_row(
                all.headline,
                "magic_id_prefix_for_optimistic"@,
                Some(x.findings[n].code),
                x.findings[n].severity,
            )
            &&& r.magic_id_prefix_for_optimistic matches Some(x) ==> x.parse_errors.contains(e)
                ==> all.parse_errors.contains(e)
        }),
{
    if let Some(x) = r.magic_id_prefix_for_optimistic {
        let found = part::<MagicIdPrefixReport>(r.magic_id_prefix_for_optimistic);
        let row = count_row::<MagicIdPrefixReport>(r.magic_id_prefix_for_optimistic)[0];
        assert(count_row::<MagicIdPrefixReport>(r.magic_id_prefix_for_optimistic).contains(row));
        lemma_count(r, row);
        if 0 <= n < x.findings.len() {
            let y = found[n];
            assert(found.contains(y));
            lemma_event(r, y);
            lemma_has_row(r, y);
        }
        if x.parse_errors.contains(e) {
            assert(part_errors::<MagicIdPrefixReport>(r.magic_id_prefix_for_optimistic).contains(e));
            lemma_error(r, e);
            lemma_distinct(errors(r));
        }
    }
}

/// What the lint `shared_enum_validation` finds is counted and in the headline, and
/// what it could not parse is listed.
pub proof fn law_shared_enum_validation_is_reported(
    p: LintProjectParamsView,
    r: LintProjectReportView,
    n: int,
    e: ParseErrorView,
)
    ensures
        ({
            let all = summed_up(p, r);
            &&& r.shared_enum_validation matches Some(x) ==> x.findings.len() <= usize::MAX
                ==> all.issues_by_lint.contains(
                LintCountView { lint: "shared_enum_validation"@, issues: x.findings.len() as usize },
            )
            &&& r.shared_enum_validation matches Some(x) ==> 0 <= n < x.findings.len()
                && severity_name(x.findings[n].severity) ==> has_row(
                all.headline,
                "shared_enum_validation"@,
                Some(x.findings[n].code),
                x.findings[n].severity,
            )
            &&& r.shared_enum_validation matches Some(x) ==> x.parse_errors.contains(e)
                ==> all.parse_errors.contains(e)
        }),
{
    if let Some(x) = r.shared_enum_validation {
        let found = part::<SharedEnumReport>(r.shared_enum_validation);
        let row = count_row::<SharedEnumReport>(r.shared_enum_validation)[0];
        assert(count_row::<SharedEnumReport>(r.shared_enum_validation).contains(row));
        lemma_count(r, row);
        if 0 <= n < x.findings.len() {
            let y = found[n];
            assert(found.contains(y));
            lemma_event(r, y);
            lemma_has_row(r, y);
        }
        if x.parse_errors.contains(e) {
            assert(part_errors::<SharedEnumReport>(r.shared_enum_validation).contains(e));
            lemma_error(r, e);
            lemma_distinct(errors(r));
        }
    }
}

/// What the lint `derived_view_no_memo` finds is counted and in the headline, and what it could not
/// parse is listed.
pub proof fn law_derived_view_no_memo_is_reported(
    p: LintProjectParamsView,
    r: LintProjectReportView,
    n: int,
    e: ParseErrorView,
)
    ensures
        ({
            let all = summed_up(p, r);
            &&& r.derived_view_no_memo matches Some(x) ==> x.findings.len() <= usize::MAX
                ==> all.issues_by_lint.contains(
                LintCountView { lint: "derived_view_no_memo"@, issues: x.findings.len() as usize },
            )
            &&& r.derived_view_no_memo matches Some(x) ==> 0 <= n < x.findings.len()
                && severity_name(x.findings[n].severity) ==> has_row(
                all.headline,
                "derived_view_no_memo"@,
                Some(x.findings[n].code),
                x.findings[n].severity,
            )
            &&& r.derived_view_no_memo matches Some(x) ==> x.parse_errors.contains(e)
                ==> all.parse_errors.contains(e)
        }),
{
    if let Some(x) = r.derived_view_no_memo {
        let found = part::<DerivedViewReport>(r.derived_view_no_memo);
        let row = count_row::<DerivedViewReport>(r.derived_view_no_memo)[0];
        assert(count_row::<DerivedViewReport>(r.derived_view_no_memo).contains(row));
        lemma_count(r, row);
        if 0 <= n < x.findings.len() {
            let y = found[n];
            assert(found.contains(y));
            lemma_event(r, y);
            lemma_has_row(r, y);
        }
        if x.parse_errors.contains(e) {
            assert(part_errors::<DerivedViewReport>(r.derived_view_no_memo).contains(e));
            lemma_error(r, e);
            lemma_distinct(errors(r));
        }
    }
}

/// What the lint `empty_async_error_arm` finds is counted and in the headline, and
/// what it could not parse is listed.
pub proof fn law_empty_async_error_arm_is_reported(
    p: LintProjectParamsView,
    r: LintProjectReportView,
    n: int,
    e: ParseErrorView,
)
    ensures
        ({
            let all = summed_up(p, r);
            &&& r.empty_async_error_arm matches Some(x) ==> x.findings.len() <= usize::MAX
                ==> all.issues_by_lint.contains(
                LintCountView { lint: "empty_async_error_arm"@, issues: x.findings.len() as usize },
            )
            &&& r.empty_async_error_arm matches Some(x) ==> 0 <= n < x.findings.len()
                && severity_name(x.findings[n].severity) ==> has_row(
                all.headline,
                "empty_async_error_arm"@,
                Some(x.findings[n].code),
                x.findings[n].severity,
            )
            &&& r.empty_async_error_arm matches Some(x) ==> x.parse_errors.contains(e)
                ==> all.parse_errors.contains(e)
        }),
{
    if let Some(x) = r.empty_async_error_arm {
        let found = part::<EmptyAsyncErrorArmReport>(r.empty_async_error_arm);
        let row = count_row::<EmptyAsyncErrorArmReport>(r.empty_async_error_arm)[0];
        assert(count_row::<EmptyAsyncErrorArmReport>(r.empty_async_error_arm).contains(row));
        lemma_count(r, row);
        if 0 <= n < x.findings.len() {
            let y = found[n];
            assert(found.contains(y));
            lemma_event(r, y);
            lemma_has_row(r, y);
        }
        if x.parse_errors.contains(e) {
            assert(part_errors::<EmptyAsyncErrorArmReport>(r.empty_async_error_arm).contains(e));
            lemma_error(r, e);
            lemma_distinct(errors(r));
        }
    }
}

/// What the lint `polling_future_no_backoff` finds is counted and in the headline, and
/// what it could not parse is listed.
pub proof fn law_polling_future_no_backoff_is_reported(
    p: LintProjectParamsView,
    r: LintProjectReportView,
    n: int,
    e: ParseErrorView,
)
    ensures
        ({
            let all = summed_up(p, r);
            &&& r.polling_future_no_backoff matches Some(x) ==> x.findings.len() <= usize::MAX
                ==> all.issues_by_lint.contains(
                LintCountView { lint: "polling_future_no_backoff"@, issues: x.findings.len() as usize },
            )
            &&& r.polling_future_no_backoff matches Some(x) ==> 0 <= n < x.findings.len()
                && severity_name(x.findings[n].severity) ==> has_row(
                all.headline,
                "polling_future_no_backoff"@,
                Some(x.findings[n].code),
                x.findings[n].severity,
            )
            &&& r.polling_future_no_backoff matches Some(x) ==> x.parse_errors.contains(e)
                ==> all.parse_errors.contains(e)
        }),
{
    if let Some(x) = r.polling_future_no_backoff {
        let found = part::<PollingFutureReport>(r.polling_future_no_backoff);
        let row = count_row::<PollingFutureReport>(r.polling_future_no_backoff)[0];
        assert(count_row::<PollingFutureReport>(r.polling_future_no_backoff).contains(row));
        lemma_count(r, row);
        if 0 <= n < x.findings.len() {
            let y = found[n];
            assert(found.contains(y));
            lemma_event(r, y);
            lemma_has_row(r, y);
        }
        if x.parse_errors.contains(e) {
            assert(part_errors::<PollingFutureReport>(r.polling_future_no_backoff).contains(e));
            lemma_error(r, e);
            lemma_distinct(errors(r));
        }
    }
}

/// What the lint `repeated_auth_extractor` finds is counted and in the headline, and
/// what it could not parse is listed.
pub proof fn law_repeated_auth_extractor_is_reported(
    p: LintProjectParamsView,
    r: LintProjectReportView,
    n: int,
    e: ParseErrorView,
)
    ensures
        ({
            let all = summed_up(p, r);
            &&& r.repeated_auth_extractor matches Some(x) ==> x.findings.len() <= usize::MAX
                ==> all.issues_by_lint.contains(
                LintCountView { lint: "repeated_auth_extractor"@, issues: x.findings.len() as usize },
            )
            &&& r.repeated_auth_extractor matches Some(x) ==> 0 <= n < x.findings.len()
                && severity_name(x.findings[n].severity) ==> has_row(
                all.headline,
                "repeated_auth_extractor"@,
                Some(x.findings[n].code),
                x.findings[n].severity,
            )
            &&& r.repeated_auth_extractor matches Some(x) ==> x.parse_errors.contains(e)
                ==> all.parse_errors.contains(e)
        }),
{
    if let Some(x) = r.repeated_auth_extractor {
        let found = part::<RepeatedAuthExtractorReport>(r.repeated_auth_extractor);
        let row = count_row::<RepeatedAuthExtractorReport>(r.repeated_auth_extractor)[0];
        assert(count_row::<RepeatedAuthExtractorReport>(r.repeated_auth_extractor).contains(row));
        lemma_count(r, row);
        if 0 <= n < x.findings.len() {
            let y = found[n];
            assert(found.contains(y));
            lemma_event(r, y);
            lemma_has_row(r, y);
        }
        if x.parse_errors.contains(e) {
            assert(part_errors::<RepeatedAuthExtractorReport>(r.repeated_auth_extractor).contains(e));
            lemma_error(r, e);
            lemma_distinct(errors(r));
        }
    }
}

} // verus!
