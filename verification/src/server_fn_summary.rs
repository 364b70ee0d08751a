//! What the log of a running application says of calls of server functions.
//!
//! Each line of the log is an object in JSON. Lines with `phase` "start" and "end"
//! tell of calls, which `call_id` keeps apart.
use vstd::prelude::*;

use crate::order::{
    distinct, distinct_of, gather, in_order, law_sorted, lemma_sorted, lemma_text_le, only_if, put,
    rank, sort, sorted, text_le, text_leq, Ranked,
};
use crate::text::{decimal, decimal_usize, owned, same, trim, trimmed};

verus! {

#[derive(Debug)]
pub struct ServerFnSummaryParams {
    pub project_root: Option<String>,
    /// The earliest time stamp that counts.
    pub since: Option<String>,
    /// The only function that counts, if there is one.
    pub server_fn: Option<String>,
    pub log_path: Option<String>,
}

pub ghost struct ServerFnSummaryParamsView {
    pub project_root: Option<Seq<char>>,
    pub since: Option<Seq<char>>,
    pub server_fn: Option<Seq<char>>,
    pub log_path: Option<Seq<char>>,
}

impl DeepView for ServerFnSummaryParams {
    type V = ServerFnSummaryParamsView;

    open spec fn deep_view(&self) -> ServerFnSummaryParamsView {
        ServerFnSummaryParamsView {
            project_root: self.project_root.deep_view(),
            since: self.since.deep_view(),
            server_fn: self.server_fn.deep_view(),
            log_path: self.log_path.deep_view(),
        }
    }
}

/// How long calls took.
#[derive(Debug)]
pub struct LatencyStats {
    pub count: usize,
    pub ok: usize,
    pub err: usize,
    pub min_us: u64,
    pub p50_us: u64,
    pub p95_us: u64,
    pub max_us: u64,
    /// All of them together, in microseconds.
    pub total_us: u128,
}

pub ghost struct LatencyStatsView {
    pub count: nat,
    pub ok: nat,
    pub err: nat,
    pub min_us: u64,
    pub p50_us: u64,
    pub p95_us: u64,
    pub max_us: u64,
    pub total_us: u128,
}

impl DeepView for LatencyStats {
    type V = LatencyStatsView;

    open spec fn deep_view(&self) -> LatencyStatsView {
        LatencyStatsView {
            count: self.count as nat,
            ok: self.ok as nat,
            err: self.err as nat,
            min_us: self.min_us,
            p50_us: self.p50_us,
            p95_us: self.p95_us,
            max_us: self.max_us,
            total_us: self.total_us,
        }
    }
}

#[derive(Debug)]
pub struct ServerFnSummary {
    pub name: String,
    pub completed: LatencyStats,
    /// Calls that started and did not end.
    pub pending: usize,
}

pub ghost struct ServerFnSummaryView {
    pub name: Seq<char>,
    pub completed: LatencyStatsView,
    pub pending: nat,
}

impl DeepView for ServerFnSummary {
    type V = ServerFnSummaryView;

    open spec fn deep_view(&self) -> ServerFnSummaryView {
        ServerFnSummaryView {
            name: self.name@,
            completed: self.completed.deep_view(),
            pending: self.pending as nat,
        }
    }
}

#[derive(Debug)]
pub struct ServerFnSummaryReport {
    pub summaries: Vec<ServerFnSummary>,
    pub log_files_scanned: Vec<String>,
    pub notes: Vec<String>,
}

pub ghost struct ServerFnSummaryReportView {
    pub summaries: Seq<ServerFnSummaryView>,
    pub log_files_scanned: Seq<Seq<char>>,
    pub notes: Seq<Seq<char>>,
}

impl DeepView for ServerFnSummaryReport {
    type V = ServerFnSummaryReportView;

    open spec fn deep_view(&self) -> ServerFnSummaryReportView {
        ServerFnSummaryReportView {
            summaries: self.summaries.deep_view(),
            log_files_scanned: self.log_files_scanned.deep_view(),
            notes: self.notes.deep_view(),
        }
    }
}

/// A call that ended.
#[derive(Debug)]
pub struct Sample {
    pub name: String,
    pub us: u64,
    pub ok: bool,
}

pub ghost struct SampleView {
    pub name: Seq<char>,
    pub us: u64,
    pub ok: bool,
}

impl DeepView for Sample {
    type V = SampleView;

    open spec fn deep_view(&self) -> SampleView {
        SampleView {
            name: self.name@,
            us: self.us,
            ok: self.ok,
        }
    }
}

/// A call that started.
#[derive(Debug)]
pub struct Start {
    pub call_id: String,
    pub name: String,
    pub ts: String,
}

pub ghost struct StartView {
    pub call_id: Seq<char>,
    pub name: Seq<char>,
    pub ts: Seq<char>,
}

impl DeepView for Start {
    type V = StartView;

    open spec fn deep_view(&self) -> StartView {
        StartView {
            call_id: self.call_id@,
            name: self.name@,
            ts: self.ts@,
        }
    }
}

impl Ranked for u64 {
    open spec fn le(a: u64, b: u64) -> bool {
        a <= b
    }

    proof fn ordered(a: u64, b: u64, c: u64) {
    }

    fn leq(&self, other: &Self) -> (r: bool) {
        *self <= *other
    }
}

impl Ranked for ServerFnSummary {
    /// By the number of calls, the greater first; then by name.
    open spec fn le(a: ServerFnSummaryView, b: ServerFnSummaryView) -> bool {
        if a.completed.count != b.completed.count {
            a.completed.count > b.completed.count
        } else {
            text_le(a.name, b.name)
        }
    }

    proof fn ordered(a: ServerFnSummaryView, b: ServerFnSummaryView, c: ServerFnSummaryView) {
        lemma_text_le(a.name, b.name, c.name);
    }

    fn leq(&self, other: &Self) -> (r: bool) {
        if self.completed.count != other.completed.count {
            self.completed.count > other.completed.count
        } else {
            text_leq(self.name.as_str(), other.name.as_str())
        }
    }
}

// ---------------------------------------------------------------------------
// Latency
// ---------------------------------------------------------------------------

pub open spec fn durations(s: Seq<SampleView>) -> Seq<u64> {
    Seq::new(s.len(), |k: int| s[k].us)
}

/// How many of the first `n` samples went well.
pub open spec fn successes(s: Seq<SampleView>, n: int) -> nat
    decreases n,
{
    if n <= 0 {
        0
    } else {
        successes(s, n - 1) + if s[n - 1].ok {
            1nat
        } else {
            0nat
        }
    }
}

/// The sum of the first `n` durations.
pub open spec fn total(s: Seq<SampleView>, n: int) -> nat
    decreases n,
{
    if n <= 0 {
        0
    } else {
        total(s, n - 1) + s[n - 1].us as nat
    }
}

/// The position of the median among `n` values: half of `n - 1`, rounded up.
pub open spec fn median(n: int) -> int {
    n / 2
}

/// The position of the 95th percentile among `n` values: 0.95 of `n - 1`,
/// rounded to the nearest.
pub open spec fn percentile_95(n: int) -> int {
    (19 * (n - 1) + 10) / 20
}

/// How long the calls `s` took.
pub open spec fn stats(s: Seq<SampleView>) -> LatencyStatsView {
    let n = s.len() as int;
    let d = sorted(durations(s), rank::<u64>());
    if n == 0 {
        LatencyStatsView {
            count: 0,
            ok: 0,
            err: 0,
            min_us: 0,
            p50_us: 0,
            p95_us: 0,
            max_us: 0,
            total_us: 0,
        }
    } else {
        LatencyStatsView {
            count: s.len(),
            ok: successes(s, n),
            err: (n - successes(s, n)) as nat,
            min_us: d[0],
            p50_us: d[median(n)],
            p95_us: d[percentile_95(n)],
            max_us: d[n - 1],
            total_us: total(s, n) as u128,
        }
    }
}

proof fn lemma_successes(s: Seq<SampleView>, n: int)
    requires
        0 <= n,
    ensures
        successes(s, n) <= n,
    decreases n,
{
    if n > 0 {
        lemma_successes(s, n - 1);
    }
}

fn durations_of(v: &Vec<Sample>) -> (r: Vec<u64>)
    ensures
        r.deep_view() == durations(v.deep_view()),
{
    let ghost s = v.deep_view();
    let mut out: Vec<u64> = Vec::new();
    let mut k: usize = 0;
    while k < v.len()
        invariant
            k <= v.len(),
            s == v.deep_view(),
            out.deep_view() =~= durations(s).take(k as int),
        decreases v.len() - k,
    {
        assert(s[k as int] == v@[k as int].deep_view());
        put(&mut out, v[k].us);
        k += 1;
    }
    assert(out.deep_view() =~= durations(s));
    out
}

fn percentile_95_of(n: usize) -> (r: usize)
    requires
        n > 0,
    ensures
        r == percentile_95(n as int),
        r < n,
{
    ((19 * ((n - 1) as u128) + 10) / 20) as usize
}

/// How long the calls `samples` took.
pub fn stats_from(samples: &Vec<Sample>) -> (r: LatencyStats)
    ensures
        r.deep_view() == stats(samples.deep_view()),
{
    let ghost s = samples.deep_view();
    let n = samples.len();
    if n == 0 {
        return LatencyStats {
            count: 0,
            ok: 0,
            err: 0,
            min_us: 0,
            p50_us: 0,
            p95_us: 0,
            max_us: 0,
            total_us: 0,
        };
    }
    let mut ok: usize = 0;
    let mut total_us: u128 = 0;
    let mut k: usize = 0;
    while k < n
        invariant
            k <= n == samples.len(),
            s == samples.deep_view(),
            ok <= k,
            ok == successes(s, k as int),
            total_us == total(s, k as int),
            total_us <= k * 0xffff_ffff_ffff_ffff,
        decreases n - k,
    {
        assert(s[k as int] == samples@[k as int].deep_view());
        assert((k + 1) * 0xffff_ffff_ffff_ffff == k * 0xffff_ffff_ffff_ffff + 0xffff_ffff_ffff_ffff);
        assert((k + 1) * 0xffff_ffff_ffff_ffff <= 0xffff_ffff_ffff_ffff * 0xffff_ffff_ffff_ffff);
        if samples[k].ok {
            ok += 1;
        }
        total_us += samples[k].us as u128;
        k += 1;
    }
    let d = sort(durations_of(samples));
    proof {
        lemma_sorted(durations(s), rank::<u64>());
        lemma_successes(s, n as int);
    }
    assert(d.len() == n) by {
        assert(d.deep_view().len() == n);
    }
    let p95 = percentile_95_of(n);
    assert(d.deep_view()[0] == d[0]);
    assert(d.deep_view()[n as int / 2] == d[n as int / 2]);
    assert(d.deep_view()[p95 as int] == d[p95 as int]);
    assert(d.deep_view()[n - 1] == d[n - 1]);
    LatencyStats {
        count: n,
        ok,
        err: n - ok,
        min_us: d[0],
        p50_us: d[n / 2],
        p95_us: d[p95],
        max_us: d[n - 1],
        total_us,
    }
}

/// The least, the median, the 95th percentile and the greatest latency come in
/// this order, and every call went well or did not.
pub proof fn law_stats(s: Seq<SampleView>)
    requires
        s.len() > 0,
    ensures
        stats(s).min_us <= stats(s).p50_us <= stats(s).p95_us <= stats(s).max_us,
        stats(s).ok + stats(s).err == stats(s).count,
        forall|k: int| 0 <= k < s.len() ==> stats(s).min_us <= (#[trigger] s[k]).us <= stats(s).max_us,
{
    let d = durations(s);
    let le = rank::<u64>();
    let o = sorted(d, le);
    law_sorted::<u64>(d);
    lemma_successes(s, s.len() as int);
    let n = s.len() as int;
    assert(in_order(o, le));
    if 0 < median(n) {
        assert(le(o[0], o[median(n)]));
    }
    assert(median(n) <= percentile_95(n) <= n - 1);
    if median(n) < percentile_95(n) {
        assert(le(o[median(n)], o[percentile_95(n)]));
    }
    if percentile_95(n) < n - 1 {
        assert(le(o[percentile_95(n)], o[n - 1]));
    }
    assert forall|k: int| 0 <= k < s.len() implies stats(s).min_us <= (#[trigger] s[k]).us
        <= stats(s).max_us by {
        broadcast use vstd::seq_lib::group_to_multiset_ensures;

        assert(d[k] == s[k].us);
        assert(d.contains(d[k]));
        assert(d.to_multiset().count(d[k]) > 0);
        assert(o.contains(d[k]));
        let m = choose|m: int| 0 <= m < o.len() && o[m] == d[k];
        if 0 < m {
            assert(le(o[0], o[m]));
        }
        if m < n - 1 {
            assert(le(o[m], o[n - 1]));
        }
    }
}

// ---------------------------------------------------------------------------
// Time stamps
// ---------------------------------------------------------------------------

/// The time that a time stamp gives, in nanoseconds since 1970; none if it is
/// not in the format of RFC 3339.
pub uninterp spec fn instant(text: Seq<char>) -> Option<int>;

/// `time::OffsetDateTime::parse` in the format of RFC 3339, and
/// `unix_timestamp_nanos`: the time is a function of the text.
#[verifier::external_body]
fn parse_instant(text: &str) -> (r: Option<i128>)
    ensures
        match r {
            Some(n) => instant(text@) == Some(n as int),
            None => instant(text@) is None,
        },
{
    let format = &time::format_description::well_known::Rfc3339;
    time::OffsetDateTime::parse(text, format).ok().map(|t| t.unix_timestamp_nanos())
}

/// The whole microseconds from `start` to `end`; none if time runs backwards or
/// they do not fit 64 bits.
pub open spec fn elapsed(start: Option<int>, end: Option<int>) -> Option<u64> {
    match (start, end) {
        (Some(s), Some(e)) => if s <= e && (e - s) / 1000 <= u64::MAX {
            Some(((e - s) / 1000) as u64)
        } else {
            None
        },
        _ => None,
    }
}

pub open spec fn nanos(t: Option<i128>) -> Option<int> {
    match t {
        Some(n) => Some(n as int),
        None => None,
    }
}

/// The whole microseconds from `start` to `end`, both in nanoseconds.
pub fn elapsed_us(start: Option<i128>, end: Option<i128>) -> (r: Option<u64>)
    ensures
        r == elapsed(nanos(start), nanos(end)),
{
    match (start, end) {
        (Some(s), Some(e)) => {
            if s > e {
                return None;
            }
            match e.checked_sub(s) {
                Some(d) => {
                    let us = d / 1000;
                    if us <= 0xffff_ffff_ffff_ffff {
                        Some(us as u64)
                    } else {
                        None
                    }
                },
                None => None,
            }
        },
        _ => None,
    }
}

/// The whole microseconds between two time stamps.
pub fn duration_from_iso(start: &str, end: &str) -> (r: Option<u64>)
    ensures
        r == elapsed(instant(start@), instant(end@)),
{
    elapsed_us(parse_instant(start), parse_instant(end))
}

// ---------------------------------------------------------------------------
// Lines
// ---------------------------------------------------------------------------

/// A value in a line of the log.
#[derive(Debug)]
pub enum Datum {
    Text(String),
    Bool(bool),
    /// A whole number that is not negative.
    Whole(u64),
    Other,
}

pub ghost enum DatumView {
    Text(Seq<char>),
    Bool(bool),
    Whole(u64),
    Other,
}

impl DeepView for Datum {
    type V = DatumView;

    open spec fn deep_view(&self) -> DatumView {
        match self {
            Datum::Text(s) => DatumView::Text(s@),
            Datum::Bool(b) => DatumView::Bool(*b),
            Datum::Whole(n) => DatumView::Whole(*n),
            Datum::Other => DatumView::Other,
        }
    }
}

/// A field of a line.
#[derive(Debug)]
pub struct Entry {
    pub key: String,
    pub value: Datum,
}

pub ghost struct EntryView {
    pub key: Seq<char>,
    pub value: DatumView,
}

impl DeepView for Entry {
    type V = EntryView;

    open spec fn deep_view(&self) -> EntryView {
        EntryView {
            key: self.key@,
            value: self.value.deep_view(),
        }
    }
}

/// A line of the log.
#[derive(Debug)]
pub enum Line {
    /// No JSON.
    Malformed,
    /// JSON, but no object.
    Foreign,
    Object(Vec<Entry>),
}

pub ghost enum LineView {
    Malformed,
    Foreign,
    Object(Seq<EntryView>),
}

impl DeepView for Line {
    type V = LineView;

    open spec fn deep_view(&self) -> LineView {
        match self {
            Line::Malformed => LineView::Malformed,
            Line::Foreign => LineView::Foreign,
            Line::Object(v) => LineView::Object(v.deep_view()),
        }
    }
}

/// What `serde_json` makes of a text.
pub uninterp spec fn json(text: Seq<char>) -> LineView;

/// One value of `serde_json`. Lists and objects inside a line are left out.
#[verifier::external_body]
fn convert(v: serde_json::Value) -> Datum {
    match v {
        serde_json::Value::String(s) => Datum::Text(s),
        serde_json::Value::Bool(b) => Datum::Bool(b),
        serde_json::Value::Number(n) => n.as_u64().map(Datum::Whole).unwrap_or(Datum::Other),
        _ => Datum::Other,
    }
}

/// `serde_json::from_str` on `text`, its result as a value of this library. The
/// result is a function of the text.
#[verifier::external_body]
fn parse_line(text: &str) -> (r: Line)
    ensures
        r.deep_view() == json(text@),
{
    match serde_json::from_str::<serde_json::Value>(text) {
        Ok(serde_json::Value::Object(m)) => {
            Line::Object(m.into_iter().map(|(key, v)| Entry { key, value: convert(v) }).collect())
        },
        Ok(_) => Line::Foreign,
        Err(_) => Line::Malformed,
    }
}

#[verifier::external_type_specification]
#[verifier::external_body]
pub struct ExValue(serde_json::Value);

/// The value of the field `key` among the first `n`.
pub open spec fn field(v: Seq<EntryView>, n: int, key: Seq<char>) -> Option<DatumView>
    decreases n,
{
    if n <= 0 {
        None
    } else if v[n - 1].key == key {
        Some(v[n - 1].value)
    } else {
        field(v, n - 1, key)
    }
}

pub open spec fn text_of(v: Option<DatumView>) -> Option<Seq<char>> {
    match v {
        Some(DatumView::Text(s)) => Some(s),
        _ => None,
    }
}

/// The text of the field `key`.
pub open spec fn text_field(v: Seq<EntryView>, key: Seq<char>) -> Option<Seq<char>> {
    text_of(field(v, v.len() as int, key))
}

pub open spec fn or_empty(s: Option<Seq<char>>) -> Seq<char> {
    match s {
        Some(s) => s,
        None => ""@,
    }
}

fn position(v: &Vec<Entry>, key: &str) -> (r: Option<usize>)
    ensures
        match r {
            Some(k) => k < v.len() && field(v.deep_view(), v.len() as int, key@) == Some(
                v.deep_view()[k as int].value,
            ),
            None => field(v.deep_view(), v.len() as int, key@) is None,
        },
{
    let ghost s = v.deep_view();
    let mut n: usize = v.len();
    while n > 0
        invariant
            n <= v.len(),
            s == v.deep_view(),
            field(s, v.len() as int, key@) == field(s, n as int, key@),
        decreases n,
    {
        assert(s[n - 1] == v@[n - 1].deep_view());
        if same(v[n - 1].key.as_str(), key) {
            return Some(n - 1);
        }
        n -= 1;
    }
    None
}

fn text_field_of(v: &Vec<Entry>, key: &str) -> (r: Option<String>)
    ensures
        r.deep_view() == text_field(v.deep_view(), key@),
{
    match position(v, key) {
        Some(k) => {
            assert(v.deep_view()[k as int] == v@[k as int].deep_view());
            match &v[k].value {
                Datum::Text(s) => Some(owned(s.as_str())),
                _ => None,
            }
        },
        None => None,
    }
}

fn text_or_empty(v: &Vec<Entry>, key: &str) -> (r: String)
    ensures
        r@ == or_empty(text_field(v.deep_view(), key@)),
{
    match text_field_of(v, key) {
        Some(s) => s,
        None => owned(""),
    }
}

// ---------------------------------------------------------------------------
// Calls
// ---------------------------------------------------------------------------

/// What a line says of a call.
#[derive(Debug)]
pub struct Event {
    pub name: String,
    pub ts: String,
    pub phase: String,
    pub call_id: String,
    pub duration_us: Option<u64>,
    pub ok: bool,
}

pub ghost struct EventView {
    pub name: Seq<char>,
    pub ts: Seq<char>,
    pub phase: Seq<char>,
    pub call_id: Seq<char>,
    pub duration_us: Option<u64>,
    pub ok: bool,
}

impl DeepView for Event {
    type V = EventView;

    open spec fn deep_view(&self) -> EventView {
        EventView {
            name: self.name@,
            ts: self.ts@,
            phase: self.phase@,
            call_id: self.call_id@,
            duration_us: self.duration_us.deep_view(),
            ok: self.ok,
        }
    }
}

pub open spec fn whole_field(v: Seq<EntryView>, key: Seq<char>) -> Option<u64> {
    match field(v, v.len() as int, key) {
        Some(DatumView::Whole(n)) => Some(n),
        _ => None,
    }
}

/// The field `ok`; true if there is none.
pub open spec fn went_well(v: Seq<EntryView>) -> bool {
    match field(v, v.len() as int, "ok"@) {
        Some(DatumView::Bool(b)) => b,
        _ => true,
    }
}

/// `ts`, which gives the time `at`, is not before `since`, which gives the time
/// `start`. Where either gives no time, the two compare as texts.
pub open spec fn reached(
    since: Seq<char>,
    start: Option<int>,
    ts: Seq<char>,
    at: Option<int>,
) -> bool {
    match (start, at) {
        (Some(a), Some(b)) => a <= b,
        _ => text_le(since, ts),
    }
}

/// Whether `ts`, which gives the time `at`, is not before `since`, which gives the
/// time `start`.
pub fn has_reached(since: &str, start: Option<i128>, ts: &str, at: Option<i128>) -> (r: bool)
    ensures
        r == reached(since@, nanos(start), ts@, nanos(at)),
{
    match (start, at) {
        (Some(a), Some(b)) => a <= b,
        _ => text_leq(since, ts),
    }
}

/// The call that an object tells of: one of a server function, not before
/// `since`, and of the function `only` if there is one.
pub open spec fn event(v: Seq<EntryView>, since: Seq<char>, only: Option<Seq<char>>) -> Option<
    EventView,
> {
    let ts = or_empty(text_field(v, "ts"@));
    match text_field(v, "name"@) {
        Some(name) => if text_field(v, "kind"@) == Some("server_fn"@) && reached(
            since,
            instant(since),
            ts,
            instant(ts),
        ) && (only is None || only == Some(name)) {
            Some(
                EventView {
                    name,
                    ts,
                    phase: or_empty(text_field(v, "phase"@)),
                    call_id: or_empty(text_field(v, "call_id"@)),
                    duration_us: whole_field(v, "duration_us"@),
                    ok: went_well(v),
                },
            )
        } else {
            None
        },
        None => None,
    }
}

/// The call that an object tells of.
pub fn event_of(v: &Vec<Entry>, since: &str, only: &Option<String>) -> (r: Option<Event>)
    ensures
        r.deep_view() == event(v.deep_view(), since@, only.deep_view()),
{
    match text_field_of(v, "kind") {
        Some(kind) => {
            if !same(kind.as_str(), "server_fn") {
                return None;
            }
        },
        None => return None,
    }
    let ts = text_or_empty(v, "ts");
    if !has_reached(since, parse_instant(since), ts.as_str(), parse_instant(ts.as_str())) {
        return None;
    }
    let name = match text_field_of(v, "name") {
        Some(n) => n,
        None => return None,
    };
    match only {
        Some(o) => {
            if !same(o.as_str(), name.as_str()) {
                return None;
            }
        },
        None => {},
    }
    let duration_us = match position(v, "duration_us") {
        Some(k) => {
            assert(v.deep_view()[k as int] == v@[k as int].deep_view());
            match &v[k].value {
                Datum::Whole(n) => Some(*n),
                _ => None,
            }
        },
        None => None,
    };
    let ok = match position(v, "ok") {
        Some(k) => {
            assert(v.deep_view()[k as int] == v@[k as int].deep_view());
            match &v[k].value {
                Datum::Bool(b) => *b,
                _ => true,
            }
        },
        None => true,
    };
    Some(
        Event {
            name,
            ts,
            phase: text_or_empty(v, "phase"),
            call_id: text_or_empty(v, "call_id"),
            duration_us,
            ok,
        },
    )
}

/// What the lines so far tell of.
#[derive(Debug)]
pub struct Calls {
    /// Calls that started and have not ended, each with its own id.
    pub starts: Vec<Start>,
    /// Calls that ended.
    pub samples: Vec<Sample>,
    pub malformed: usize,
}

pub ghost struct CallsView {
    pub starts: Seq<StartView>,
    pub samples: Seq<SampleView>,
    pub malformed: nat,
}

impl DeepView for Calls {
    type V = CallsView;

    open spec fn deep_view(&self) -> CallsView {
        CallsView {
            starts: self.starts.deep_view(),
            samples: self.samples.deep_view(),
            malformed: self.malformed as nat,
        }
    }
}

/// The starts of other calls than `id`.
pub open spec fn others(s: Seq<StartView>, id: Seq<char>) -> Seq<StartView>
    decreases s.len(),
{
    if s.len() == 0 {
        s
    } else if s.last().call_id == id {
        others(s.drop_last(), id)
    } else {
        others(s.drop_last(), id).push(s.last())
    }
}

/// When the call `id` started.
pub open spec fn start_of(s: Seq<StartView>, id: Seq<char>) -> Option<Seq<char>>
    decreases s.len(),
{
    if s.len() == 0 {
        None
    } else if s.last().call_id == id {
        Some(s.last().ts)
    } else {
        start_of(s.drop_last(), id)
    }
}

/// The time from the start of a call to `ts`.
pub open spec fn since_start(start: Option<Seq<char>>, ts: Seq<char>) -> Option<u64> {
    match start {
        Some(t) => elapsed(instant(t), instant(ts)),
        None => None,
    }
}

/// How long the call that `e` ends took: as it says, or since its start.
pub open spec fn took(s: Seq<StartView>, e: EventView) -> Option<u64> {
    match e.duration_us {
        Some(d) => Some(d),
        None => since_start(start_of(s, e.call_id), e.ts),
    }
}

/// `c` after the event `e`.
pub open spec fn after_event(c: CallsView, e: EventView) -> CallsView {
    if e.phase == "start"@ && e.call_id.len() > 0 {
        CallsView {
            starts: others(c.starts, e.call_id).push(
                StartView { call_id: e.call_id, name: e.name, ts: e.ts },
            ),
            ..c
        }
    } else if e.phase == "end"@ {
        CallsView {
            starts: others(c.starts, e.call_id),
            samples: match took(c.starts, e) {
                Some(us) => c.samples.push(SampleView { name: e.name, us, ok: e.ok }),
                None => c.samples,
            },
            ..c
        }
    } else {
        c
    }
}

/// `c` after a line that is `line`.
pub open spec fn after_line(
    c: CallsView,
    line: LineView,
    since: Seq<char>,
    only: Option<Seq<char>>,
) -> CallsView {
    match line {
        LineView::Malformed => CallsView { malformed: c.malformed + 1, ..c },
        LineView::Foreign => c,
        LineView::Object(v) => match event(v, since, only) {
            Some(e) => after_event(c, e),
            None => c,
        },
    }
}

/// What the first `n` of the lines tell of. Blank lines say nothing.
pub open spec fn calls(
    lines: Seq<Seq<char>>,
    n: int,
    since: Seq<char>,
    only: Option<Seq<char>>,
) -> CallsView
    decreases n,
{
    if n <= 0 {
        CallsView { starts: Seq::empty(), samples: Seq::empty(), malformed: 0 }
    } else {
        let before = calls(lines, n - 1, since, only);
        if trimmed(lines[n - 1]).len() == 0 {
            before
        } else {
            after_line(before, json(lines[n - 1]), since, only)
        }
    }
}

fn others_of(v: Vec<Start>, id: &str) -> (r: Vec<Start>)
    ensures
        r.deep_view() == others(v.deep_view(), id@),
        r.len() <= v.len(),
{
    let ghost s = v.deep_view();
    let mut out: Vec<Start> = Vec::new();
    let mut k: usize = 0;
    assert(s.take(0) =~= Seq::<StartView>::empty());
    assert(out.deep_view() =~= others(s.take(0), id@));
    while k < v.len()
        invariant
            k <= v.len(),
            s == v.deep_view(),
            out.len() <= k,
            out.deep_view() == others(s.take(k as int), id@),
        decreases v.len() - k,
    {
        assert(s.take(k + 1).drop_last() =~= s.take(k as int));
        assert(s.take(k + 1).last() == v@[k as int].deep_view());
        if !same(v[k].call_id.as_str(), id) {
            let copy = Start {
                call_id: owned(v[k].call_id.as_str()),
                name: owned(v[k].name.as_str()),
                ts: owned(v[k].ts.as_str()),
            };
            put(&mut out, copy);
        }
        k += 1;
    }
    assert(s.take(k as int) =~= s);
    out
}

fn start_of_call(v: &Vec<Start>, id: &str) -> (r: Option<String>)
    ensures
        r.deep_view() == start_of(v.deep_view(), id@),
{
    let ghost s = v.deep_view();
    let mut n: usize = v.len();
    assert(s.take(n as int) =~= s);
    while n > 0
        invariant
            n <= v.len(),
            s == v.deep_view(),
            start_of(s, id@) == start_of(s.take(n as int), id@),
        decreases n,
    {
        assert(s.take(n as int).drop_last() =~= s.take(n - 1));
        assert(s.take(n as int).last() == v@[n - 1].deep_view());
        if same(v[n - 1].call_id.as_str(), id) {
            return Some(owned(v[n - 1].ts.as_str()));
        }
        n -= 1;
    }
    assert(s.take(0) =~= Seq::<StartView>::empty());
    None
}

fn took_of(starts: &Vec<Start>, e: &Event) -> (r: Option<u64>)
    ensures
        r == took(starts.deep_view(), e.deep_view()),
{
    match e.duration_us {
        Some(d) => Some(d),
        None => match start_of_call(starts, e.call_id.as_str()) {
            Some(t) => duration_from_iso(t.as_str(), e.ts.as_str()),
            None => None,
        },
    }
}

/// `c` after the event `e`.
pub fn step(c: Calls, e: Event) -> (r: Calls)
    ensures
        r.deep_view() == after_event(c.deep_view(), e.deep_view()),
        r.malformed == c.malformed,
{
    let mut samples = c.samples;
    let mut starts = c.starts;
    if same(e.phase.as_str(), "start") && e.call_id.as_str().unicode_len() > 0 {
        starts = others_of(starts, e.call_id.as_str());
        put(&mut starts, Start { call_id: e.call_id, name: e.name, ts: e.ts });
    } else if same(e.phase.as_str(), "end") {
        let us = took_of(&starts, &e);
        starts = others_of(starts, e.call_id.as_str());
        match us {
            Some(us) => put(&mut samples, Sample { name: e.name, us, ok: e.ok }),
            None => {},
        }
    }
    Calls { starts, samples, malformed: c.malformed }
}

/// `c` after a line that is `line`.
pub fn step_line(c: Calls, line: &Line, since: &str, only: &Option<String>) -> (r: Calls)
    requires
        c.malformed < usize::MAX,
    ensures
        r.deep_view() == after_line(c.deep_view(), line.deep_view(), since@, only.deep_view()),
        r.malformed <= c.malformed + 1,
{
    match line {
        Line::Malformed => {
            Calls { starts: c.starts, samples: c.samples, malformed: c.malformed + 1 }
        },
        Line::Foreign => c,
        Line::Object(v) => match event_of(v, since, only) {
            Some(e) => step(c, e),
            None => c,
        },
    }
}

/// What the lines of a log tell of.
pub fn read_calls(lines: &Vec<String>, since: &str, only: &Option<String>) -> (r: Calls)
    ensures
        r.deep_view() == calls(lines.deep_view(), lines.len() as int, since@, only.deep_view()),
{
    let ghost s = lines.deep_view();
    let mut c = Calls { starts: Vec::new(), samples: Vec::new(), malformed: 0 };
    let mut n: usize = 0;
    assert(c.starts.deep_view() =~= Seq::<StartView>::empty());
    assert(c.samples.deep_view() =~= Seq::<SampleView>::empty());
    while n < lines.len()
        invariant
            n <= lines.len(),
            s == lines.deep_view(),
            c.malformed <= n,
            c.deep_view() == calls(s, n as int, since@, only.deep_view()),
        decreases lines.len() - n,
    {
        assert(s[n as int] == lines@[n as int]@);
        if trim(lines[n].as_str()).as_str().unicode_len() > 0 {
            let line = parse_line(lines[n].as_str());
            c = step_line(c, &line, since, only);
        }
        n += 1;
    }
    c
}

// ---------------------------------------------------------------------------
// Summaries
// ---------------------------------------------------------------------------

pub open spec fn sample_of(s: Seq<SampleView>, name: Seq<char>) -> spec_fn(int) -> Seq<SampleView> {
    |k: int| only_if(s[k].name == name, s[k])
}

/// The calls of `name` that ended.
pub open spec fn samples_of(s: Seq<SampleView>, name: Seq<char>) -> Seq<SampleView> {
    gather(0, s.len() as int, sample_of(s, name))
}

/// How many of the first `n` starts are of `name`.
pub open spec fn pending(s: Seq<StartView>, name: Seq<char>, n: int) -> nat
    decreases n,
{
    if n <= 0 {
        0
    } else {
        pending(s, name, n - 1) + if s[n - 1].name == name {
            1nat
        } else {
            0nat
        }
    }
}

pub open spec fn names(c: CallsView) -> Seq<Seq<char>> {
    distinct(
        Seq::new(c.samples.len(), |k: int| c.samples[k].name) + Seq::new(
            c.starts.len(),
            |k: int| c.starts[k].name,
        ),
    )
}

pub open spec fn summary(c: CallsView, name: Seq<char>) -> ServerFnSummaryView {
    ServerFnSummaryView {
        name,
        completed: stats(samples_of(c.samples, name)),
        pending: pending(c.starts, name, c.starts.len() as int),
    }
}

/// One summary for each function, the most called first.
pub open spec fn summaries(c: CallsView) -> Seq<ServerFnSummaryView> {
    sorted(
        Seq::new(names(c).len(), |k: int| summary(c, names(c)[k])),
        rank::<ServerFnSummary>(),
    )
}

pub open spec fn malformed_note(n: nat, path: Seq<char>) -> Seq<char> {
    "skipped "@
        + decimal(n)
        + " malformed line(s) in "@
        + path
}

fn malformed_note_of(n: usize, path: &str) -> (r: String)
    ensures
        r@ == malformed_note(n as nat, path@),
{
    let mut s = owned("skipped ");
    s.append(decimal_usize(n).as_str());
    s.append(" malformed line(s) in ");
    s.append(path);
    s
}

/// The report on the log at `path` whose lines tell of `c`.
pub open spec fn report(c: CallsView, path: Seq<char>) -> ServerFnSummaryReportView {
    ServerFnSummaryReportView {
        summaries: summaries(c),
        log_files_scanned: seq![path],
        notes: only_if(c.malformed > 0, malformed_note(c.malformed, path)),
    }
}

fn pick_samples(v: &Vec<Sample>, name: &str) -> (r: Vec<Sample>)
    ensures
        r.deep_view() == samples_of(v.deep_view(), name@),
{
    let ghost s = v.deep_view();
    let mut out: Vec<Sample> = Vec::new();
    let mut k: usize = 0;
    while k < v.len()
        invariant
            k <= v.len(),
            s == v.deep_view(),
            out.deep_view() == gather(0, k as int, sample_of(s, name@)),
        decreases v.len() - k,
    {
        assert(s[k as int] == v@[k as int].deep_view());
        if same(v[k].name.as_str(), name) {
            put(&mut out, Sample { name: owned(name), us: v[k].us, ok: v[k].ok });
        }
        k += 1;
    }
    out
}

fn pending_of(v: &Vec<Start>, name: &str) -> (r: usize)
    ensures
        r == pending(v.deep_view(), name@, v.len() as int),
{
    let ghost s = v.deep_view();
    let mut n: usize = 0;
    let mut k: usize = 0;
    while k < v.len()
        invariant
            k <= v.len(),
            n <= k,
            s == v.deep_view(),
            n == pending(s, name@, k as int),
        decreases v.len() - k,
    {
        assert(s[k as int] == v@[k as int].deep_view());
        if same(v[k].name.as_str(), name) {
            n += 1;
        }
        k += 1;
    }
    n
}

fn names_of(c: &Calls) -> (r: Vec<String>)
    ensures
        r.deep_view() == names(c.deep_view()),
{
    let ghost a = Seq::new(c.samples.len() as nat, |k: int| c.deep_view().samples[k].name);
    let ghost b = Seq::new(c.starts.len() as nat, |k: int| c.deep_view().starts[k].name);
    let mut out: Vec<String> = Vec::new();
    let mut k: usize = 0;
    while k < c.samples.len()
        invariant
            k <= c.samples.len(),
            a == Seq::new(c.samples.len() as nat, |k: int| c.deep_view().samples[k].name),
            out.deep_view() =~= a.take(k as int),
        decreases c.samples.len() - k,
    {
        assert(c.deep_view().samples[k as int] == c.samples@[k as int].deep_view());
        put(&mut out, owned(c.samples[k].name.as_str()));
        k += 1;
    }
    let mut m: usize = 0;
    assert(out.deep_view() =~= a + b.take(0));
    while m < c.starts.len()
        invariant
            m <= c.starts.len(),
            b == Seq::new(c.starts.len() as nat, |k: int| c.deep_view().starts[k].name),
            out.deep_view() =~= a + b.take(m as int),
        decreases c.starts.len() - m,
    {
        assert(c.deep_view().starts[m as int] == c.starts@[m as int].deep_view());
        put(&mut out, owned(c.starts[m].name.as_str()));
        m += 1;
    }
    assert(out.deep_view() =~= a + b);
    assert(a =~= Seq::new(
        c.deep_view().samples.len(),
        |k: int| c.deep_view().samples[k].name,
    ));
    assert(b =~= Seq::new(c.deep_view().starts.len(), |k: int| c.deep_view().starts[k].name));
    distinct_of(&out)
}

/// One summary for each function, the most called first.
pub fn summarize(c: &Calls) -> (r: Vec<ServerFnSummary>)
    ensures
        r.deep_view() == summaries(c.deep_view()),
{
    let ghost v = c.deep_view();
    let all = names_of(c);
    let ghost rows = Seq::new(names(v).len(), |k: int| summary(v, names(v)[k]));
    let mut out: Vec<ServerFnSummary> = Vec::new();
    let mut k: usize = 0;
    while k < all.len()
        invariant
            k <= all.len(),
            v == c.deep_view(),
            all.deep_view() == names(v),
            rows == Seq::new(names(v).len(), |k: int| summary(v, names(v)[k])),
            out.deep_view() =~= rows.take(k as int),
        decreases all.len() - k,
    {
        assert(all.deep_view()[k as int] == all@[k as int]@);
        let name = all[k].as_str();
        let row = ServerFnSummary {
            name: owned(name),
            completed: stats_from(&pick_samples(&c.samples, name)),
            pending: pending_of(&c.starts, name),
        };
        put(&mut out, row);
        k += 1;
    }
    assert(out.deep_view() =~= rows);
    sort(out)
}

/// Reports the calls of server functions that the lines of the log at `path` tell
/// of, from `since` on; only those of one function if `p` names one.
pub fn server_fn_summary(
    p: &ServerFnSummaryParams,
    lines: &Vec<String>,
    since: &str,
    path: &str,
) -> (r: ServerFnSummaryReport)
    ensures
        r.deep_view() == report(
            calls(
                lines.deep_view(),
                lines.len() as int,
                match p.since.deep_view() {
                    Some(s) => s,
                    None => since@,
                },
                p.server_fn.deep_view(),
            ),
            path@,
        ),
{
    let since = match &p.since {
        Some(s) => owned(s.as_str()),
        None => owned(since),
    };
    let c = read_calls(lines, since.as_str(), &p.server_fn);
    let mut notes: Vec<String> = Vec::new();
    if c.malformed > 0 {
        put(&mut notes, malformed_note_of(c.malformed, path));
    }
    assert(notes.deep_view() =~= report(c.deep_view(), path@).notes);
    let mut scanned: Vec<String> = Vec::new();
    put(&mut scanned, owned(path));
    assert(scanned.deep_view() =~= seq![path@]);
    ServerFnSummaryReport { summaries: summarize(&c), log_files_scanned: scanned, notes }
}

// ---------------------------------------------------------------------------
// Laws
// ---------------------------------------------------------------------------

proof fn lemma_others(s: Seq<StartView>, id: Seq<char>)
    ensures
        forall|k: int| 0 <= k < others(s, id).len() ==> (#[trigger] others(s, id)[k]).call_id != id,
        forall|x: StartView| #[trigger] others(s, id).contains(x) ==> s.contains(x),
    decreases s.len(),
{
    if s.len() > 0 {
        lemma_others(s.drop_last(), id);
        let t = others(s.drop_last(), id);
        assert forall|x: StartView| #[trigger] others(s, id).contains(x) implies s.contains(x) by {
            let k = choose|k: int| 0 <= k < others(s, id).len() && others(s, id)[k] == x;
            if k < t.len() {
                assert(t[k] == x);
                assert(t.contains(x));
                let m = choose|m: int| 0 <= m < s.drop_last().len() && s.drop_last()[m] == x;
                assert(s[m] == x);
            } else {
                assert(s[s.len() - 1] == x);
            }
        }
    }
}

/// No two calls that are under way have the same id.
pub open spec fn one_each(s: Seq<StartView>) -> bool {
    forall|i: int, j: int|
        0 <= i < j < s.len() ==> (#[trigger] s[i]).call_id != (#[trigger] s[j]).call_id
}

proof fn lemma_others_one_each(s: Seq<StartView>, id: Seq<char>)
    requires
        one_each(s),
    ensures
        one_each(others(s, id)),
    decreases s.len(),
{
    if s.len() > 0 {
        let d = s.drop_last();
        assert(one_each(d)) by {
            assert forall|i: int, j: int| 0 <= i < j < d.len() implies (#[trigger] d[i]).call_id
                != (#[trigger] d[j]).call_id by {
                assert(s[i].call_id != s[j].call_id);
            }
        }
        lemma_others_one_each(d, id);
        lemma_others(d, id);
        let t = others(d, id);
        if s.last().call_id != id {
            assert forall|i: int, j: int| 0 <= i < j < t.push(s.last()).len() implies (
            #[trigger] t.push(s.last())[i]).call_id != (#[trigger] t.push(s.last())[j]).call_id by {
                if j == t.len() {
                    assert(t.contains(t[i]));
                    assert(d.contains(t[i]));
                    let m = choose|m: int| 0 <= m < d.len() && d[m] == t[i];
                    assert(s[m].call_id != s[s.len() - 1].call_id);
                }
            }
        }
    }
}

/// A call is under way at most once: whatever the log says, no two pending
/// starts have the same id.
pub proof fn law_one_start_per_call(
    lines: Seq<Seq<char>>,
    n: int,
    since: Seq<char>,
    only: Option<Seq<char>>,
)
    ensures
        one_each(calls(lines, n, since, only).starts),
    decreases n,
{
    if n > 0 {
        law_one_start_per_call(lines, n - 1, since, only);
        let c = calls(lines, n - 1, since, only);
        if trimmed(lines[n - 1]).len() > 0 {
            match json(lines[n - 1]) {
                LineView::Object(v) => match event(v, since, only) {
                    Some(e) => {
                        lemma_others_one_each(c.starts, e.call_id);
                        lemma_others(c.starts, e.call_id);
                    },
                    None => {},
                },
                _ => {},
            }
        }
    }
}

/// A call that starts and then ends is not pending, whatever was known of it.
pub proof fn law_end_closes_start(c: CallsView, start: EventView, end: EventView, k: int)
    requires
        start.phase == "start"@,
        end.phase == "end"@,
        start.call_id == end.call_id,
        0 <= k < after_event(after_event(c, start), end).starts.len(),
    ensures
        after_event(after_event(c, start), end).starts[k].call_id != start.call_id,
{
    reveal_strlit("start");
    reveal_strlit("end");
    assert("start"@ != "end"@) by {
        assert("start"@.len() == 5);
        assert("end"@.len() == 3);
    }
    lemma_others(after_event(c, start).starts, end.call_id);
}

/// Every call among `c` is of the function `name`.
pub open spec fn all_named(c: CallsView, name: Seq<char>) -> bool {
    &&& forall|k: int| 0 <= k < c.starts.len() ==> (#[trigger] c.starts[k]).name == name
    &&& forall|k: int| 0 <= k < c.samples.len() ==> (#[trigger] c.samples[k]).name == name
}

/// Where one function is asked for, calls of no other are counted.
pub proof fn law_only_the_function_asked_for(
    lines: Seq<Seq<char>>,
    n: int,
    since: Seq<char>,
    name: Seq<char>,
)
    ensures
        all_named(calls(lines, n, since, Some(name)), name),
    decreases n,
{
    if n > 0 {
        law_only_the_function_asked_for(lines, n - 1, since, name);
        let c = calls(lines, n - 1, since, Some(name));
        if trimmed(lines[n - 1]).len() > 0 {
            match json(lines[n - 1]) {
                LineView::Object(v) => match event(v, since, Some(name)) {
                    Some(e) => {
                        lemma_others(c.starts, e.call_id);
                        lemma_others_among(c.starts, e.call_id);
                    },
                    None => {},
                },
                _ => {},
            }
        }
    }
}

/// What is left after a call is taken out was there before.
proof fn lemma_others_among(s: Seq<StartView>, id: Seq<char>)
    ensures
        forall|k: int| 0 <= k < others(s, id).len() ==> s.contains(#[trigger] others(s, id)[k]),
    decreases s.len(),
{
    if s.len() > 0 {
        let less = s.drop_last();
        lemma_others_among(less, id);
        assert forall|k: int| 0 <= k < others(s, id).len() implies s.contains(
            #[trigger] others(s, id)[k],
        ) by {
            if k < others(less, id).len() {
                assert(less.contains(others(less, id)[k]));
                let m = choose|m: int| 0 <= m < less.len() && less[m] == others(less, id)[k];
                assert(s[m] == others(s, id)[k]);
            } else {
                assert(s[s.len() - 1] == others(s, id)[k]);
            }
        }
    }
}

/// `d` holds the durations of `s`, shortest first.
pub open spec fn in_rising_order(d: Seq<u64>, s: Seq<SampleView>) -> bool {
    &&& d.to_multiset() == Seq::new(s.len(), |k: int| s[k].us).to_multiset()
    &&& d.len() == s.len()
    &&& forall|i: int, j: int| 0 <= i < j < d.len() ==> #[trigger] d[i] <= #[trigger] d[j]
}

/// Of `n` calls put in order of their durations, the first gives the least, the
/// last the greatest. The median is the one nearest to the middle, and the 95th
/// percentile the one nearest to 0.95 of the way from the first to the last, the
/// later one where two are as near.
pub proof fn law_percentiles(s: Seq<SampleView>)
    requires
        s.len() > 0,
    ensures
        exists|d: Seq<u64>, h: int, k: int|
            {
                let n = s.len() as int;
                &&& #[trigger] in_rising_order(d, s)
                &&& 0 <= h < n && 0 <= 2 * h - (n - 1) <= 1
                &&& 0 <= k < n && -10 < 20 * k - 19 * (n - 1) <= 10
                &&& stats(s).min_us == d[0]
                &&& stats(s).p50_us == #[trigger] d[h]
                &&& stats(s).p95_us == #[trigger] d[k]
                &&& stats(s).max_us == d[n - 1]
            },
{
    let d = sorted(durations(s), rank::<u64>());
    let n = s.len() as int;
    law_sorted::<u64>(durations(s));
    assert(durations(s) =~= Seq::new(s.len(), |k: int| s[k].us));
    assert forall|i: int, j: int| 0 <= i < j < d.len() implies #[trigger] d[i] <= #[trigger] d[j] by {
        assert(rank::<u64>()(d[i], d[j]));
    }
    assert(in_rising_order(d, s));
    let h = median(n);
    let k = percentile_95(n);
    assert(0 <= 2 * h - (n - 1) <= 1);
    assert(-10 < 20 * k - 19 * (n - 1) <= 10);
    assert(stats(s).p50_us == d[h] && stats(s).p95_us == d[k]);
}

/// How many of the calls `s` took longer than `us`.
pub open spec fn slower(s: Seq<SampleView>, us: u64) -> nat {
    Seq::new(s.len(), |k: int| s[k].us).to_multiset().filter(|x: u64| x > us).len()
}

/// Fewer than one slow call in twenty does not move the 95th percentile, and fewer
/// than half of them do not move the median.
pub proof fn law_few_slow_calls(s: Seq<SampleView>, us: u64)
    requires
        s.len() > 0,
    ensures
        20 * slower(s, us) < s.len() ==> stats(s).p95_us <= us,
        2 * slower(s, us) < s.len() ==> stats(s).p50_us <= us,
{
    law_percentiles(s);
    let n = s.len() as int;
    let (d, h, k) = choose|d: Seq<u64>, h: int, k: int|
        {
            let n = s.len() as int;
            &&& #[trigger] in_rising_order(d, s)
            &&& 0 <= h < n && 0 <= 2 * h - (n - 1) <= 1
            &&& 0 <= k < n && -10 < 20 * k - 19 * (n - 1) <= 10
            &&& stats(s).min_us == d[0]
            &&& stats(s).p50_us == #[trigger] d[h]
            &&& stats(s).p95_us == #[trigger] d[k]
            &&& stats(s).max_us == d[n - 1]
        };
    if d[k] > us {
        lemma_above(d, us, k);
    }
    if d[h] > us {
        lemma_above(d, us, h);
    }
}

/// From a value above `us` on, all values of an ordered list are above it.
proof fn lemma_above(d: Seq<u64>, us: u64, k: int)
    requires
        0 <= k < d.len(),
        d[k] > us,
        forall|i: int, j: int| 0 <= i < j < d.len() ==> #[trigger] d[i] <= #[trigger] d[j],
    ensures
        d.to_multiset().filter(|x: u64| x > us).len() >= d.len() - k,
    decreases d.len(),
{
    broadcast use vstd::seq_lib::group_to_multiset_ensures;
    broadcast use vstd::multiset::group_multiset_axioms;

    let p = |x: u64| x > us;
    let last = d.last();
    let rest = d.drop_last();
    assert(d =~= rest.push(last));
    assert(d.to_multiset() =~= rest.to_multiset().insert(last));
    if k < d.len() - 1 {
        assert(d[k] <= d[d.len() - 1]);
    }
    assert(p(last));
    assert(d.to_multiset().filter(p) =~= rest.to_multiset().filter(p).insert(last));
    if k < d.len() - 1 {
        lemma_above(rest, us, k);
    }
}

/// One more call is one more that went well or did not, and adds its time.
pub proof fn law_one_more_call(s: Seq<SampleView>, x: SampleView)
    requires
        s.len() < 0xffff_ffff_ffff_ffff,
    ensures
        stats(s.push(x)).count == stats(s).count + 1,
        stats(s.push(x)).ok == stats(s).ok + if x.ok {
            1int
        } else {
            0int
        },
        stats(s.push(x)).err == stats(s).err + if x.ok {
            0int
        } else {
            1int
        },
        stats(s.push(x)).total_us == stats(s).total_us + x.us,
        stats(s.push(x)).min_us <= x.us <= stats(s.push(x)).max_us,
{
    let n = s.len() as int;
    lemma_same_sums(s, s.push(x), n);
    lemma_successes(s, n);
    lemma_successes(s.push(x), n + 1);
    lemma_total(s, n);
    law_stats(s.push(x));
    assert(s.push(x)[n] == x);
}

proof fn lemma_same_sums(s: Seq<SampleView>, u: Seq<SampleView>, n: int)
    requires
        0 <= n <= s.len(),
        n <= u.len(),
        forall|k: int| 0 <= k < n ==> #[trigger] s[k] == u[k],
    ensures
        successes(s, n) == successes(u, n),
        total(s, n) == total(u, n),
    decreases n,
{
    if n > 0 {
        lemma_same_sums(s, u, n - 1);
        assert(s[n - 1] == u[n - 1]);
    }
}

proof fn lemma_total(s: Seq<SampleView>, n: int)
    requires
        0 <= n,
    ensures
        total(s, n) <= n * 0xffff_ffff_ffff_ffff,
    decreases n,
{
    if n > 0 {
        lemma_total(s, n - 1);
        assert(n * 0xffff_ffff_ffff_ffff == (n - 1) * 0xffff_ffff_ffff_ffff + 0xffff_ffff_ffff_ffff);
    }
}

} // verus!
