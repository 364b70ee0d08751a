//! What the summary of server functions says of the calls in a log.
use vstd::prelude::*;

use crate::order::{gather, lemma_distinct, lemma_sorted_contains, rank};
use crate::server_fn_summary::{
    after_event, calls, elapsed, event, field, instant, names, pending, report, sample_of,
    samples_of, successes, summaries, summary, CallsView, DatumView, EntryView, EventView,
    SampleView, ServerFnSummary, ServerFnSummaryView, StartView,
};
use crate::text::trimmed;

verus! {

// ---------------------------------------------------------------------------
// Times
// ---------------------------------------------------------------------------

/// The time between two instants, in nanoseconds, is given in whole microseconds and
/// rounded down; there is none if the end comes first or the number does not fit.
pub proof fn law_elapsed(s: int, e: int)
    ensures
        elapsed(Some(s), Some(e)) matches Some(us) ==> s <= e && us * 1000 <= e - s < us * 1000
            + 1000,
        elapsed(Some(s), Some(e)) is None ==> e < s || (e - s) / 1000 > u64::MAX,
        elapsed(None, Some(e)) is None,
        elapsed(Some(s), None) is None,
{
}

// ---------------------------------------------------------------------------
// Events
// ---------------------------------------------------------------------------

/// The object `v` has the entry `key` with that value, and with no other.
pub open spec fn has_entry(v: Seq<EntryView>, key: Seq<char>, value: DatumView) -> bool {
    &&& exists|n: int| 0 <= n < v.len() && (#[trigger] v[n]).key == key
    &&& forall|n: int| 0 <= n < v.len() && (#[trigger] v[n]).key == key ==> v[n].value == value
}

/// The object `v` has no entry `key`.
pub open spec fn lacks_entry(v: Seq<EntryView>, key: Seq<char>) -> bool {
    forall|n: int| 0 <= n < v.len() ==> (#[trigger] v[n]).key != key
}

proof fn lemma_field(v: Seq<EntryView>, n: int, key: Seq<char>)
    requires
        0 <= n <= v.len(),
    ensures
        match field(v, n, key) {
            Some(x) => exists|m: int| 0 <= m < n && (#[trigger] v[m]).key == key && v[m].value == x,
            None => forall|m: int| 0 <= m < n ==> (#[trigger] v[m]).key != key,
        },
    decreases n,
{
    if n > 0 {
        lemma_field(v, n - 1, key);
        assert(v[n - 1] == v[n - 1]);
    }
}

proof fn lemma_has_entry(v: Seq<EntryView>, key: Seq<char>, value: DatumView)
    requires
        has_entry(v, key, value),
    ensures
        field(v, v.len() as int, key) == Some(value),
{
    lemma_field(v, v.len() as int, key);
}

proof fn lemma_lacks_entry(v: Seq<EntryView>, key: Seq<char>)
    requires
        lacks_entry(v, key),
    ensures
        field(v, v.len() as int, key) is None,
{
    lemma_field(v, v.len() as int, key);
}

/// The end of a call of a server function is read from its object: name, time, id and
/// whether it went well, and the time it took if the object says so. It counts if its
/// time is not before the one asked for and no other function is asked for.
pub proof fn law_end_is_read(
    v: Seq<EntryView>,
    since: Seq<char>,
    only: Option<Seq<char>>,
    name: Seq<char>,
    ts: Seq<char>,
    id: Seq<char>,
    phase: Seq<char>,
    ok: bool,
)
    requires
        has_entry(v, "kind"@, DatumView::Text("server_fn"@)),
        has_entry(v, "name"@, DatumView::Text(name)),
        has_entry(v, "ts"@, DatumView::Text(ts)),
        has_entry(v, "call_id"@, DatumView::Text(id)),
        has_entry(v, "phase"@, DatumView::Text(phase)),
        has_entry(v, "ok"@, DatumView::Bool(ok)) || (lacks_entry(v, "ok"@) && ok),
        instant(since) matches Some(a) && instant(ts) matches Some(b) && a <= b,
        only is None || only == Some(name),
    ensures
        event(v, since, only) matches Some(e) && e.name == name && e.ts == ts && e.call_id == id
            && e.phase == phase && e.ok == ok && (forall|us: u64| #[trigger]
            has_entry(v, "duration_us"@, DatumView::Whole(us)) ==> e.duration_us == Some(us)) && (
        lacks_entry(v, "duration_us"@) ==> e.duration_us is None),
{
    lemma_has_entry(v, "kind"@, DatumView::Text("server_fn"@));
    lemma_has_entry(v, "name"@, DatumView::Text(name));
    lemma_has_entry(v, "ts"@, DatumView::Text(ts));
    lemma_has_entry(v, "call_id"@, DatumView::Text(id));
    lemma_has_entry(v, "phase"@, DatumView::Text(phase));
    if has_entry(v, "ok"@, DatumView::Bool(ok)) {
        lemma_has_entry(v, "ok"@, DatumView::Bool(ok));
    } else {
        lemma_lacks_entry(v, "ok"@);
    }
    let e = event(v, since, only)->0;
    assert forall|us: u64| #[trigger]
        has_entry(v, "duration_us"@, DatumView::Whole(us)) implies e.duration_us == Some(us) by {
        lemma_has_entry(v, "duration_us"@, DatumView::Whole(us));
    }
    if lacks_entry(v, "duration_us"@) {
        lemma_lacks_entry(v, "duration_us"@);
    }
}

/// What is no call of a server function, comes before the time asked for, or is a call
/// of another function than the one asked for, does not count.
pub proof fn law_other_events_do_not_count(
    v: Seq<EntryView>,
    since: Seq<char>,
    only: Option<Seq<char>>,
    kind: Seq<char>,
    name: Seq<char>,
    ts: Seq<char>,
)
    requires
        has_entry(v, "kind"@, DatumView::Text(kind)),
        has_entry(v, "name"@, DatumView::Text(name)),
        has_entry(v, "ts"@, DatumView::Text(ts)),
        ({
            ||| kind != "server_fn"@
            ||| instant(since) matches Some(a) && instant(ts) matches Some(b) && b < a
            ||| only matches Some(x) && x != name
        }),
    ensures
        event(v, since, only) is None,
{
    lemma_has_entry(v, "kind"@, DatumView::Text(kind));
    lemma_has_entry(v, "name"@, DatumView::Text(name));
    lemma_has_entry(v, "ts"@, DatumView::Text(ts));
}

// ---------------------------------------------------------------------------
// Calls
// ---------------------------------------------------------------------------

proof fn lemma_phases()
    ensures
        "start"@ != "end"@,
{
    reveal_strlit("start");
    reveal_strlit("end");
    assert("start"@.len() == 5 && "end"@.len() == 3);
}

/// A call that starts and ends is measured: by what its end says it took, and if the end
/// does not say, by the time between the two. The call is then no longer pending.
pub proof fn law_call_is_measured(c: CallsView, s: EventView, e: EventView)
    requires
        s.phase == "start"@,
        e.phase == "end"@,
        s.call_id == e.call_id,
        s.call_id.len() > 0,
    ensures
        ({
            let r = after_event(after_event(c, s), e);
            &&& r.malformed == c.malformed
            &&& forall|k: int| 0 <= k < r.starts.len() ==> (#[trigger] r.starts[k]).call_id
                != s.call_id
            &&& e.duration_us matches Some(d) ==> r.samples == c.samples.push(
                SampleView { name: e.name, us: d, ok: e.ok },
            )
            &&& e.duration_us is None ==> match elapsed(instant(s.ts), instant(e.ts)) {
                Some(us) => r.samples == c.samples.push(SampleView { name: e.name, us, ok: e.ok }),
                None => r.samples == c.samples,
            }
        }),
{
    lemma_phases();
    let one = after_event(c, s);
    assert(one.starts.last().call_id == s.call_id);
    lemma_others(one.starts, s.call_id);
}

proof fn lemma_others(s: Seq<StartView>, id: Seq<char>)
    ensures
        forall|k: int|
            0 <= k < crate::server_fn_summary::others(s, id).len() ==> (
            #[trigger] crate::server_fn_summary::others(s, id)[k]).call_id != id,
        forall|x: StartView| #[trigger]
            s.contains(x) && x.call_id != id ==> crate::server_fn_summary::others(s, id).contains(
                x,
            ),
    decreases s.len(),
{
    if s.len() > 0 {
        let less = s.drop_last();
        lemma_others(less, id);
        let all = crate::server_fn_summary::others(s, id);
        let before = crate::server_fn_summary::others(less, id);
        assert forall|x: StartView| #[trigger] s.contains(x) && x.call_id != id implies all.contains(
            x,
        ) by {
            let k = choose|k: int| 0 <= k < s.len() && s[k] == x;
            if k < less.len() {
                assert(less[k] == x);
                assert(less.contains(x));
                let m = choose|m: int| 0 <= m < before.len() && before[m] == x;
                assert(all[m] == x);
            } else {
                assert(all[all.len() - 1] == x);
            }
        }
    }
}

/// A call that has started is pending until it ends; the others stay pending.
pub proof fn law_start_is_pending(c: CallsView, s: EventView)
    requires
        s.phase == "start"@,
        s.call_id.len() > 0,
    ensures
        ({
            let r = after_event(c, s);
            &&& r.samples == c.samples && r.malformed == c.malformed
            &&& r.starts.contains(StartView { call_id: s.call_id, name: s.name, ts: s.ts })
            &&& forall|x: StartView| #[trigger]
                c.starts.contains(x) && x.call_id != s.call_id ==> r.starts.contains(x)
        }),
{
    let r = after_event(c, s);
    let before = crate::server_fn_summary::others(c.starts, s.call_id);
    lemma_others(c.starts, s.call_id);
    assert(r.starts[r.starts.len() - 1] == StartView {
        call_id: s.call_id,
        name: s.name,
        ts: s.ts,
    });
    assert forall|x: StartView| #[trigger]
        c.starts.contains(x) && x.call_id != s.call_id implies r.starts.contains(x) by {
        let m = choose|m: int| 0 <= m < before.len() && before[m] == x;
        assert(r.starts[m] == x);
    }
}

/// A line that is no JSON is counted, one that is blank or no object is passed over, and
/// the note says how many were counted.
pub proof fn law_lines_are_counted(
    lines: Seq<Seq<char>>,
    n: int,
    since: Seq<char>,
    only: Option<Seq<char>>,
    path: Seq<char>,
)
    requires
        0 < n <= lines.len(),
    ensures
        ({
            let before = calls(lines, n - 1, since, only);
            let after = calls(lines, n, since, only);
            let blank = trimmed(lines[n - 1]).len() == 0;
            let line = crate::server_fn_summary::json(lines[n - 1]);
            &&& blank ==> after == before
            &&& !blank && line is Malformed ==> after.malformed == before.malformed + 1
                && after.samples == before.samples && after.starts == before.starts
            &&& !blank && line is Foreign ==> after == before
            &&& line is Object ==> after.malformed == before.malformed
            &&& after.malformed == 0 <==> report(after, path).notes.len() == 0
            &&& report(after, path).log_files_scanned == seq![path]
        }),
{
}

// ---------------------------------------------------------------------------
// Summaries
// ---------------------------------------------------------------------------

proof fn lemma_filtered(s: Seq<SampleView>, name: Seq<char>, n: int)
    requires
        0 <= n <= s.len(),
    ensures
        gather(0, n, sample_of(s, name)) == s.take(n).filter(|x: SampleView| x.name == name),
    decreases n,
{
    reveal(Seq::filter);
    if n > 0 {
        lemma_filtered(s, name, n - 1);
        assert(s.take(n).drop_last() =~= s.take(n - 1));
        assert(gather(0, n, sample_of(s, name)) =~= s.take(n).filter(
            |x: SampleView| x.name == name,
        ));
    } else {
        assert(s.take(0).filter(|x: SampleView| x.name == name) =~= Seq::<SampleView>::empty());
    }
}

proof fn lemma_pending(s: Seq<StartView>, name: Seq<char>, n: int)
    requires
        0 <= n <= s.len(),
    ensures
        pending(s, name, n) == s.take(n).filter(|x: StartView| x.name == name).len(),
    decreases n,
{
    reveal(Seq::filter);
    if n > 0 {
        lemma_pending(s, name, n - 1);
        assert(s.take(n).drop_last() =~= s.take(n - 1));
    }
}

proof fn lemma_successes(s: Seq<SampleView>, n: int)
    requires
        0 <= n <= s.len(),
    ensures
        successes(s, n) == s.take(n).filter(|x: SampleView| x.ok).len(),
    decreases n,
{
    reveal(Seq::filter);
    if n > 0 {
        lemma_successes(s, n - 1);
        assert(s.take(n).drop_last() =~= s.take(n - 1));
    }
}

/// Of every server function that was called, the summary has its calls: as many as were
/// measured, those that went well, and those that have started and not ended.
pub proof fn law_every_function_is_summed_up(c: CallsView, path: Seq<char>, name: Seq<char>)
    requires
        (exists|k: int| 0 <= k < c.samples.len() && (#[trigger] c.samples[k]).name == name) || (
        exists|k: int| 0 <= k < c.starts.len() && (#[trigger] c.starts[k]).name == name),
    ensures
        exists|x: ServerFnSummaryView| #[trigger]
            report(c, path).summaries.contains(x) && x.name == name && x.completed.count
                == c.samples.filter(|y: SampleView| y.name == name).len() && x.completed.ok
                == c.samples.filter(|y: SampleView| y.name == name).filter(
                |y: SampleView| y.ok,
            ).len() && x.pending == c.starts.filter(|y: StartView| y.name == name).len(),
{
    let xs = Seq::new(c.samples.len(), |k: int| c.samples[k].name) + Seq::new(
        c.starts.len(),
        |k: int| c.starts[k].name,
    );
    assert(xs.contains(name)) by {
        if exists|k: int| 0 <= k < c.samples.len() && (#[trigger] c.samples[k]).name == name {
            let k = choose|k: int|
                0 <= k < c.samples.len() && (#[trigger] c.samples[k]).name == name;
            assert(xs[k] == name);
        } else {
            let k = choose|k: int| 0 <= k < c.starts.len() && (#[trigger] c.starts[k]).name == name;
            assert(xs[c.samples.len() + k] == name);
        }
    }
    lemma_distinct(xs);
    let ns = names(c);
    assert(ns.contains(name));
    let n = choose|n: int| 0 <= n < ns.len() && ns[n] == name;
    let all = Seq::new(ns.len(), |k: int| summary(c, ns[k]));
    let x = summary(c, name);
    assert(all[n] == x);
    assert(all.contains(x));
    lemma_sorted_contains(all, rank::<ServerFnSummary>(), x);
    assert(report(c, path).summaries.contains(x));
    lemma_filtered(c.samples, name, c.samples.len() as int);
    assert(c.samples.take(c.samples.len() as int) =~= c.samples);
    lemma_pending(c.starts, name, c.starts.len() as int);
    assert(c.starts.take(c.starts.len() as int) =~= c.starts);
    let mine = samples_of(c.samples, name);
    lemma_successes(mine, mine.len() as int);
    assert(mine.take(mine.len() as int) =~= mine);
    if mine.len() == 0 {
        reveal(Seq::filter);
    }
}

/// Of each server function there is one summary only.
pub proof fn law_one_summary_per_function(c: CallsView, path: Seq<char>, i: int, j: int)
    requires
        0 <= i < j < report(c, path).summaries.len(),
    ensures
        report(c, path).summaries[i].name != report(c, path).summaries[j].name,
{
    let ns = names(c);
    let xs = Seq::new(c.samples.len(), |k: int| c.samples[k].name) + Seq::new(
        c.starts.len(),
        |k: int| c.starts[k].name,
    );
    lemma_distinct(xs);
    let all = Seq::new(ns.len(), |k: int| summary(c, ns[k]));
    let s = summaries(c);
    assert(all.no_duplicates()) by {
        assert forall|a: int, b: int| 0 <= a < b < all.len() implies all[a] != all[b] by {
            assert(all[a].name == ns[a] && all[b].name == ns[b]);
        }
    }
    crate::order::law_sorted::<ServerFnSummary>(all);
    broadcast use vstd::seq_lib::group_to_multiset_ensures;

    all.lemma_multiset_has_no_duplicates();
    s.lemma_multiset_has_no_duplicates_conv();
    lemma_sorted_contains(all, rank::<ServerFnSummary>(), s[i]);
    lemma_sorted_contains(all, rank::<ServerFnSummary>(), s[j]);
    assert(s.contains(s[i]) && s.contains(s[j]));
    let a = choose|a: int| 0 <= a < all.len() && all[a] == s[i];
    let b = choose|b: int| 0 <= b < all.len() && all[b] == s[j];
    assert(s[i] != s[j]);
    assert(a != b);
    assert(ns[a] != ns[b]);
}

} // verus!
