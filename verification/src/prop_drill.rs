//! `prop_drill`: props that a component hands on to another one unchanged.
use vstd::prelude::*;

use crate::index::{
    component_named, find_component, has_prop, has_prop_named, known, lemma_component_named,
    ComponentInfo, ComponentInfoView,
};
use crate::order::{
    gather, lemma_gather_contains, lemma_sorted_contains, lemma_text_le, put, put_all, rank, sort, sorted, text_le, text_leq, Ranked,
};
use crate::plain::{
    component_with_body, group_in, lemma_component_with_body, lemma_token_number, mark_in, token_in,
    token_of, tokens_before,
};
use crate::scan::{
    body_end, body_of, body_start, collect_parse_errors, component, group, is_component, is_group,
    is_punct, is_rsx, kids, kids_of, parse_errors, punct, rsx, ParseError, ParseErrorView,
    ScannedFile,
};
use crate::tape::{operand, operand_of, Kind, Node};
use crate::text::{owned, same};

verus! {

#[derive(Debug)]
pub struct PropDrillParams {
    pub project_root: Option<String>,
}

pub ghost struct PropDrillParamsView {
    pub project_root: Option<Seq<char>>,
}

impl DeepView for PropDrillParams {
    type V = PropDrillParamsView;

    open spec fn deep_view(&self) -> PropDrillParamsView {
        PropDrillParamsView {
            project_root: self.project_root.deep_view(),
        }
    }
}

#[derive(Debug)]
pub struct Passthrough {
    pub parent_prop: String,
    pub child: String,
    pub child_prop: String,
    /// How the prop is handed on: `direct`, or the method called on it.
    pub via: &'static str,
    pub line: usize,
}

pub ghost struct PassthroughView {
    pub parent_prop: Seq<char>,
    pub child: Seq<char>,
    pub child_prop: Seq<char>,
    pub via: Seq<char>,
    pub line: usize,
}

impl DeepView for Passthrough {
    type V = PassthroughView;

    open spec fn deep_view(&self) -> PassthroughView {
        PassthroughView {
            parent_prop: self.parent_prop@,
            child: self.child@,
            child_prop: self.child_prop@,
            via: self.via@,
            line: self.line,
        }
    }
}

#[derive(Debug)]
pub struct ParentEntry {
    pub component: String,
    pub file: String,
    pub passthroughs: Vec<Passthrough>,
}

pub ghost struct ParentEntryView {
    pub component: Seq<char>,
    pub file: Seq<char>,
    pub passthroughs: Seq<PassthroughView>,
}

impl DeepView for ParentEntry {
    type V = ParentEntryView;

    open spec fn deep_view(&self) -> ParentEntryView {
        ParentEntryView {
            component: self.component@,
            file: self.file@,
            passthroughs: self.passthroughs.deep_view(),
        }
    }
}

#[derive(Debug)]
pub struct PropDrillReport {
    pub parents: Vec<ParentEntry>,
    pub known_gaps: Vec<String>,
    pub parse_errors: Vec<ParseError>,
}

pub ghost struct PropDrillReportView {
    pub parents: Seq<ParentEntryView>,
    pub known_gaps: Seq<Seq<char>>,
    pub parse_errors: Seq<ParseErrorView>,
}

impl DeepView for PropDrillReport {
    type V = PropDrillReportView;

    open spec fn deep_view(&self) -> PropDrillReportView {
        PropDrillReportView {
            parents: self.parents.deep_view(),
            known_gaps: self.known_gaps.deep_view(),
            parse_errors: self.parse_errors.deep_view(),
        }
    }
}

impl Ranked for ParentEntry {
    /// By component.
    open spec fn le(a: ParentEntryView, b: ParentEntryView) -> bool {
        text_le(a.component, b.component)
    }

    proof fn ordered(a: ParentEntryView, b: ParentEntryView, c: ParentEntryView) {
        lemma_text_le(a.component, b.component, c.component);
    }

    fn leq(&self, other: &Self) -> (r: bool) {
        text_leq(self.component.as_str(), other.component.as_str())
    }
}

// ---------------------------------------------------------------------------
// Values
// ---------------------------------------------------------------------------

/// What calling `method` on a prop is called in a report.
pub open spec fn via_method(method: Seq<char>) -> Option<Seq<char>> {
    if method == "clone"@ {
        Some("clone"@)
    } else if method == "into"@ {
        Some("into"@)
    } else if method == "to_owned"@ {
        Some("to_owned"@)
    } else if method == "read"@ {
        Some("signal_read"@)
    } else if method == "peek"@ {
        Some("signal_peek"@)
    } else if method == "cloned"@ {
        Some("signal_cloned"@)
    } else {
        None
    }
}

fn via_method_of(method: &str) -> (r: Option<&'static str>)
    ensures
        match r {
            Some(v) => via_method(method@) == Some(v@),
            None => via_method(method@) is None,
        },
{
    if same(method, "clone") {
        Some("clone")
    } else if same(method, "into") {
        Some("into")
    } else if same(method, "to_owned") {
        Some("to_owned")
    } else if same(method, "read") {
        Some("signal_read")
    } else if same(method, "peek") {
        Some("signal_peek")
    } else if same(method, "cloned") {
        Some("signal_cloned")
    } else {
        None
    }
}

/// All of `v` lie in the tape.
pub open spec fn within(t: Seq<Node>, v: Seq<usize>) -> bool {
    forall|k: int| 0 <= k < v.len() ==> #[trigger] v[k] < t.len()
}

/// The call of a method without arguments at the end of the tokens `v`.
pub open spec fn method_suffix(t: Seq<Node>, v: Seq<usize>) -> Option<Seq<char>> {
    let n = v.len();
    if n >= 4 && punct(t, v[n - 3] as int, "."@) && t[v[n - 2] as int].kind == Kind::TokIdent
        && group(t, v[n - 1] as int, "("@) && kids(t, v[n - 1] as int).len() == 0 {
        via_method(t[v[n - 2] as int].name@)
    } else {
        None
    }
}

/// The tokens in front of such a call, and how they are handed on.
pub open spec fn stripped(t: Seq<Node>, v: Seq<usize>) -> (Seq<usize>, Seq<char>) {
    match method_suffix(t, v) {
        Some(via) => (v.take(v.len() - 3), via),
        None => (v, "direct"@),
    }
}

pub fn strip_method_suffix(t: &Vec<Node>, v: &Vec<usize>) -> (r: (usize, &'static str))
    requires
        within(t@, v@),
    ensures
        r.0 <= v.len(),
        stripped(t@, v@).0 == v@.take(r.0 as int),
        stripped(t@, v@).1 == r.1@,
{
    let n = v.len();
    assert(v@.take(n as int) =~= v@);
    if n < 4 {
        return (n, "direct");
    }
    if !is_punct(t, v[n - 3], ".") || t[v[n - 2]].kind != Kind::TokIdent || !is_group(
        t,
        v[n - 1],
        "(",
    ) || kids_of(t, v[n - 1]).len() != 0 {
        return (n, "direct");
    }
    match via_method_of(t[v[n - 2]].name.as_str()) {
        Some(via) => (n - 3, via),
        None => (n, "direct"),
    }
}

/// The prop of `c` that the tokens `v` are: its name, or the name behind that of
/// the argument `arg`.
pub open spec fn base_prop(
    t: Seq<Node>,
    v: Seq<usize>,
    c: ComponentInfoView,
    arg: Option<Seq<char>>,
) -> Option<Seq<char>> {
    if v.len() == 1 && t[v[0] as int].kind == Kind::TokIdent && has_prop(c, t[v[0] as int].name@) {
        Some(t[v[0] as int].name@)
    } else if v.len() == 3 && t[v[0] as int].kind == Kind::TokIdent && punct(t, v[1] as int, "."@)
        && t[v[2] as int].kind == Kind::TokIdent && arg == Some(t[v[0] as int].name@) && has_prop(
        c,
        t[v[2] as int].name@,
    ) {
        Some(t[v[2] as int].name@)
    } else {
        None
    }
}

/// Whether the first `n` tokens of `v` are a prop of `c`.
pub fn match_base(
    t: &Vec<Node>,
    v: &Vec<usize>,
    n: usize,
    c: &ComponentInfo,
    arg: &Option<String>,
) -> (r: Option<String>)
    requires
        within(t@, v@),
        n <= v.len(),
    ensures
        r.deep_view() == base_prop(t@, v@.take(n as int), c.deep_view(), arg.deep_view()),
{
    if n == 1 && t[v[0]].kind == Kind::TokIdent && has_prop_named(c, t[v[0]].name.as_str()) {
        return Some(owned(t[v[0]].name.as_str()));
    }
    if n == 3 && t[v[0]].kind == Kind::TokIdent && is_punct(t, v[1], ".") && t[v[2]].kind
        == Kind::TokIdent {
        let first = match arg {
            Some(a) => same(a.as_str(), t[v[0]].name.as_str()),
            None => false,
        };
        if first && has_prop_named(c, t[v[2]].name.as_str()) {
            return Some(owned(t[v[2]].name.as_str()));
        }
    }
    None
}

// ---------------------------------------------------------------------------
// Fields
// ---------------------------------------------------------------------------

/// The first `n` tokens of `ks`, cut at commas: the parts that a comma has
/// ended, and the tokens since.
pub open spec fn cut(t: Seq<Node>, ks: Seq<usize>, n: int) -> (Seq<Seq<usize>>, Seq<usize>)
    decreases n,
{
    if n <= 0 {
        (Seq::empty(), Seq::empty())
    } else {
        let (parts, now) = cut(t, ks, n - 1);
        if !punct(t, ks[n - 1] as int, ","@) {
            (parts, now.push(ks[n - 1]))
        } else if now.len() > 0 {
            (parts.push(now), Seq::empty())
        } else {
            (parts, now)
        }
    }
}

/// The parts of `ks` between commas that hold tokens.
pub open spec fn fields(t: Seq<Node>, ks: Seq<usize>) -> Seq<Seq<usize>> {
    let (parts, now) = cut(t, ks, ks.len() as int);
    if now.len() > 0 {
        parts.push(now)
    } else {
        parts
    }
}

pub fn split_top_level_commas(t: &Vec<Node>, ks: &Vec<usize>) -> (r: Vec<Vec<usize>>)
    requires
        within(t@, ks@),
    ensures
        r.deep_view() == fields(t@, ks@),
        forall|k: int| 0 <= k < r.len() ==> within(t@, #[trigger] r[k]@) && r[k].len() > 0,
{
    let mut parts: Vec<Vec<usize>> = Vec::new();
    let mut now: Vec<usize> = Vec::new();
    let mut n: usize = 0;
    while n < ks.len()
        invariant
            n <= ks.len(),
            within(t@, ks@),
            within(t@, now@),
            parts.deep_view() == cut(t@, ks@, n as int).0,
            now@ == cut(t@, ks@, n as int).1,
            forall|k: int|
                0 <= k < parts.len() ==> within(t@, #[trigger] parts[k]@) && parts[k].len() > 0,
        decreases ks.len() - n,
    {
        if is_punct(t, ks[n], ",") {
            if now.len() > 0 {
                assert(now.deep_view() =~= now@);
                put(&mut parts, now);
                now = Vec::new();
            }
        } else {
            now.push(ks[n]);
        }
        n += 1;
    }
    if now.len() > 0 {
        assert(now.deep_view() =~= now@);
        put(&mut parts, now);
    }
    parts
}

/// The tokens of the value that a field has: what follows `key:`, or the key
/// itself.
pub open spec fn field_value(t: Seq<Node>, f: Seq<usize>) -> Option<Seq<usize>> {
    if f.len() == 0 || t[f[0] as int].kind != Kind::TokIdent {
        None
    } else if f.len() == 1 {
        Some(f)
    } else if punct(t, f[1] as int, ":"@) {
        Some(f.skip(2))
    } else {
        None
    }
}

/// The prop of `c` that the field `f` of a call of `child` hands on.
pub open spec fn passthrough(
    t: Seq<Node>,
    f: Seq<usize>,
    child: Seq<char>,
    c: ComponentInfoView,
    arg: Option<Seq<char>>,
) -> Option<PassthroughView> {
    match field_value(t, f) {
        Some(v) => {
            let (base, via) = stripped(t, v);
            match base_prop(t, base, c, arg) {
                Some(prop) => Some(
                    PassthroughView {
                        parent_prop: prop,
                        child,
                        child_prop: t[f[0] as int].name@,
                        via,
                        line: t[f[0] as int].line,
                    },
                ),
                None => None,
            }
        },
        None => None,
    }
}

pub open spec fn field_passthrough(
    t: Seq<Node>,
    fs: Seq<Seq<usize>>,
    child: Seq<char>,
    c: ComponentInfoView,
    arg: Option<Seq<char>>,
) -> spec_fn(int) -> Seq<PassthroughView> {
    |k: int|
        match passthrough(t, fs[k], child, c, arg) {
            Some(p) => seq![p],
            None => Seq::empty(),
        }
}

/// The props that the call of `child` with the braces at `g` hands on.
pub open spec fn call_passthroughs(
    t: Seq<Node>,
    g: int,
    child: Seq<char>,
    c: ComponentInfoView,
    arg: Option<Seq<char>>,
) -> Seq<PassthroughView> {
    let fs = fields(t, kids(t, g));
    gather(0, fs.len() as int, field_passthrough(t, fs, child, c, arg))
}

fn passthrough_of(
    t: &Vec<Node>,
    f: &Vec<usize>,
    child: &str,
    c: &ComponentInfo,
    arg: &Option<String>,
) -> (r: Option<Passthrough>)
    requires
        within(t@, f@),
    ensures
        r.deep_view() == passthrough(t@, f@, child@, c.deep_view(), arg.deep_view()),
{
    if f.len() == 0 || t[f[0]].kind != Kind::TokIdent {
        return None;
    }
    let from: usize = if f.len() == 1 {
        0
    } else if is_punct(t, f[1], ":") {
        2
    } else {
        return None;
    };
    let mut v: Vec<usize> = Vec::new();
    let mut k: usize = from;
    while k < f.len()
        invariant
            from <= k <= f.len(),
            within(t@, f@),
            within(t@, v@),
            v@ =~= f@.subrange(from as int, k as int),
        decreases f.len() - k,
    {
        v.push(f[k]);
        k += 1;
    }
    proof {
        if from == 0 {
            assert(v@ =~= f@);
        } else {
            assert(v@ =~= f@.skip(2));
        }
        assert(field_value(t@, f@) == Some(v@));
    }
    let (n, via) = strip_method_suffix(t, &v);
    match match_base(t, &v, n, c, arg) {
        Some(prop) => Some(
            Passthrough {
                parent_prop: prop,
                child: owned(child),
                child_prop: owned(t[f[0]].name.as_str()),
                via,
                line: t[f[0]].line,
            },
        ),
        None => None,
    }
}

/// The props that the call of `child` with the braces at `g` hands on.
pub fn analyze_invocation(
    t: &Vec<Node>,
    g: usize,
    child: &str,
    c: &ComponentInfo,
    arg: &Option<String>,
) -> (r: Vec<Passthrough>)
    requires
        g < t.len(),
    ensures
        r.deep_view() == call_passthroughs(t@, g as int, child@, c.deep_view(), arg.deep_view()),
{
    let ks = kids_of(t, g);
    let fs = split_top_level_commas(t, &ks);
    let ghost v = fs.deep_view();
    let mut out: Vec<Passthrough> = Vec::new();
    let mut k: usize = 0;
    while k < fs.len()
        invariant
            k <= fs.len(),
            v == fs.deep_view(),
            forall|m: int| 0 <= m < fs.len() ==> within(t@, #[trigger] fs[m]@),
            out.deep_view() == gather(
                0,
                k as int,
                field_passthrough(t@, v, child@, c.deep_view(), arg.deep_view()),
            ),
        decreases fs.len() - k,
    {
        assert(fs@[k as int].deep_view() =~= fs@[k as int]@);
        assert(v[k as int] == fs@[k as int]@);
        match passthrough_of(t, &fs[k], child, c, arg) {
            Some(p) => put(&mut out, p),
            None => {},
        }
        k += 1;
    }
    out
}

// ---------------------------------------------------------------------------
// Calls
// ---------------------------------------------------------------------------

/// What the call at token number `i` of a level hands on, if it is a call of a
/// known component.
pub open spec fn level_call(
    t: Seq<Node>,
    ks: Seq<usize>,
    cs: Seq<ComponentInfoView>,
    c: ComponentInfoView,
    arg: Option<Seq<char>>,
) -> spec_fn(int) -> Seq<PassthroughView> {
    |i: int|
        if t[ks[i] as int].kind == Kind::TokIdent && known(cs, t[ks[i] as int].name@) && i + 1
            < ks.len() && group(t, ks[i + 1] as int, "{"@) {
            call_passthroughs(t, ks[i + 1] as int, t[ks[i] as int].name@, c, arg)
        } else {
            Seq::empty()
        }
}

/// What the calls in the macro or group at `g` hand on: those of its own
/// tokens, then those of the groups in it.
pub open spec fn found(
    t: Seq<Node>,
    g: int,
    cs: Seq<ComponentInfoView>,
    c: ComponentInfoView,
    arg: Option<Seq<char>>,
) -> Seq<PassthroughView>
    decreases t.len() - g, kids(t, g).len() + 1,
{
    let ks = kids(t, g);
    gather(0, ks.len() as int, level_call(t, ks, cs, c, arg)) + found_below(
        t,
        g,
        ks.len(),
        cs,
        c,
        arg,
    )
}

/// What the calls in the groups among the first `n` tokens of `g` hand on.
pub open spec fn found_below(
    t: Seq<Node>,
    g: int,
    n: nat,
    cs: Seq<ComponentInfoView>,
    c: ComponentInfoView,
    arg: Option<Seq<char>>,
) -> Seq<PassthroughView>
    decreases t.len() - g, n,
{
    if n == 0 {
        Seq::empty()
    } else {
        let j = kids(t, g)[n - 1] as int;
        let before = found_below(t, g, (n - 1) as nat, cs, c, arg);
        if g < j < t.len() && t[j].kind == Kind::TokGroup {
            before + found(t, j, cs, c, arg)
        } else {
            before
        }
    }
}

pub fn find_invocations(
    t: &Vec<Node>,
    g: usize,
    cs: &Vec<ComponentInfo>,
    c: &ComponentInfo,
    arg: &Option<String>,
) -> (r: Vec<Passthrough>)
    requires
        g < t.len(),
    ensures
        r.deep_view() == found(t@, g as int, cs.deep_view(), c.deep_view(), arg.deep_view()),
    decreases t.len() - g,
{
    let ks = kids_of(t, g);
    let ghost (vs, v, a) = (cs.deep_view(), c.deep_view(), arg.deep_view());
    let mut out: Vec<Passthrough> = Vec::new();
    let mut i: usize = 0;
    while i < ks.len()
        invariant
            i <= ks.len(),
            (vs, v, a) == (cs.deep_view(), c.deep_view(), arg.deep_view()),
            forall|k: int| 0 <= k < ks.len() ==> g < #[trigger] ks[k] < t.len(),
            out.deep_view() == gather(0, i as int, level_call(t@, ks@, vs, v, a)),
        decreases ks.len() - i,
    {
        if t[ks[i]].kind == Kind::TokIdent && find_component(cs, t[ks[i]].name.as_str()).is_some()
            && i + 1 < ks.len() && is_group(t, ks[i + 1], "{") {
            put_all(
                &mut out,
                analyze_invocation(t, ks[i + 1], t[ks[i]].name.as_str(), c, arg),
            );
        }
        i += 1;
    }
    let ghost own = out.deep_view();
    let mut n: usize = 0;
    while n < ks.len()
        invariant
            g < t.len(),
            n <= ks.len(),
            ks@ == kids(t@, g as int),
            (vs, v, a) == (cs.deep_view(), c.deep_view(), arg.deep_view()),
            forall|k: int| 0 <= k < ks.len() ==> g < #[trigger] ks[k] < t.len(),
            out.deep_view() == own + found_below(t@, g as int, n as nat, vs, v, a),
        decreases ks.len() - n,
    {
        let j = ks[n];
        if t[j].kind == Kind::TokGroup {
            let ghost before = found_below(t@, g as int, n as nat, vs, v, a);
            let more = find_invocations(t, j, cs, c, arg);
            assert(own + before + more.deep_view() =~= own + (before + more.deep_view()));
            put_all(&mut out, more);
        }
        n += 1;
    }
    out
}

// ---------------------------------------------------------------------------
// Components
// ---------------------------------------------------------------------------

/// The name of the first argument of the function at `i`, if it is a plain one.
pub open spec fn first_arg(t: Seq<Node>, i: int) -> Option<Seq<char>> {
    match operand(t, i, 0) {
        Some(a) => if t[a].kind == Kind::Arg {
            match operand(t, a, 0) {
                Some(p) => if t[p].kind == Kind::PatIdent {
                    Some(t[p].name@)
                } else {
                    None
                },
                None => None,
            }
        } else {
            None
        },
        None => None,
    }
}

pub fn fn_first_arg_name(t: &Vec<Node>, i: usize) -> (r: Option<String>)
    requires
        i < t.len(),
    ensures
        r.deep_view() == first_arg(t@, i as int),
{
    match operand_of(t, i, 0) {
        Some(a) => {
            if t[a].kind != Kind::Arg {
                return None;
            }
            match operand_of(t, a, 0) {
                Some(p) => if t[p].kind == Kind::PatIdent {
                    Some(owned(t[p].name.as_str()))
                } else {
                    None
                },
                None => None,
            }
        },
        None => None,
    }
}

/// The argument through which the component `c` at `i` reads its props.
pub open spec fn props_arg(t: Seq<Node>, i: int, c: ComponentInfoView) -> Option<Seq<char>> {
    if c.via_props_struct {
        first_arg(t, i)
    } else {
        None
    }
}

pub open spec fn block_found(
    t: Seq<Node>,
    cs: Seq<ComponentInfoView>,
    c: ComponentInfoView,
    arg: Option<Seq<char>>,
) -> spec_fn(int) -> Seq<PassthroughView> {
    |m: int|
        if rsx(t, m) {
            found(t, m, cs, c, arg)
        } else {
            Seq::empty()
        }
}

/// What the component at `i`, which the index lists as `c`, hands on.
pub open spec fn component_passthroughs(
    t: Seq<Node>,
    i: int,
    cs: Seq<ComponentInfoView>,
    c: ComponentInfoView,
) -> Seq<PassthroughView> {
    gather(body_start(t, i), body_end(t, i), block_found(t, cs, c, props_arg(t, i, c)))
}

pub open spec fn parent_at(t: Seq<Node>, file: Seq<char>, cs: Seq<ComponentInfoView>) -> spec_fn(
    int,
) -> Seq<ParentEntryView> {
    |i: int|
        if component(t, i) {
            match component_named(cs, t[i].name@) {
                Some(k) => {
                    let ps = component_passthroughs(t, i, cs, cs[k]);
                    if ps.len() > 0 {
                        seq![
                            ParentEntryView { component: t[i].name@, file, passthroughs: ps },
                        ]
                    } else {
                        Seq::empty()
                    }
                },
                None => Seq::empty(),
            }
        } else {
            Seq::empty()
        }
}

pub open spec fn file_parents(files: Seq<ScannedFile>, cs: Seq<ComponentInfoView>) -> spec_fn(
    int,
) -> Seq<ParentEntryView> {
    |k: int|
        match files[k].ast {
            Ok(t) => gather(0, t@.len() as int, parent_at(t@, files[k].path@, cs)),
            Err(_) => Seq::empty(),
        }
}

/// The components that hand props on, by name.
pub open spec fn parents(files: Seq<ScannedFile>, cs: Seq<ComponentInfoView>) -> Seq<
    ParentEntryView,
> {
    sorted(gather(0, files.len() as int, file_parents(files, cs)), rank::<ParentEntry>())
}

pub open spec fn gaps() -> Seq<Seq<char>> {
    seq![
        "rsx! `..props` spread syntax is not detected"@,
        "method chains deeper than one call (e.g. `prop.clone().to_string()`) are not detected"@,
    ]
}

fn component_passthroughs_of(
    t: &Vec<Node>,
    i: usize,
    cs: &Vec<ComponentInfo>,
    c: &ComponentInfo,
) -> (r: Vec<Passthrough>)
    requires
        i < t.len(),
    ensures
        r.deep_view() == component_passthroughs(t@, i as int, cs.deep_view(), c.deep_view()),
{
    let arg = if c.via_props_struct {
        fn_first_arg_name(t, i)
    } else {
        None
    };
    let (lo, hi) = body_of(t, i);
    let mut out: Vec<Passthrough> = Vec::new();
    let mut m: usize = lo;
    while m < hi
        invariant
            lo <= m <= hi <= t.len(),
            out.deep_view() == gather(
                lo as int,
                m as int,
                block_found(t@, cs.deep_view(), c.deep_view(), arg.deep_view()),
            ),
        decreases hi - m,
    {
        if is_rsx(t, m) {
            put_all(&mut out, find_invocations(t, m, cs, c, &arg));
        }
        m += 1;
    }
    out
}

fn parents_in(t: &Vec<Node>, file: &str, cs: &Vec<ComponentInfo>) -> (r: Vec<ParentEntry>)
    ensures
        r.deep_view() == gather(0, t@.len() as int, parent_at(t@, file@, cs.deep_view())),
{
    let mut out: Vec<ParentEntry> = Vec::new();
    let mut i: usize = 0;
    while i < t.len()
        invariant
            i <= t.len(),
            out.deep_view() == gather(0, i as int, parent_at(t@, file@, cs.deep_view())),
        decreases t.len() - i,
    {
        if is_component(t, i) {
            match find_component(cs, t[i].name.as_str()) {
                Some(k) => {
                    assert(cs.deep_view()[k as int] == cs@[k as int].deep_view());
                    let passthroughs = component_passthroughs_of(t, i, cs, &cs[k]);
                    if passthroughs.len() > 0 {
                        let entry = ParentEntry {
                            component: owned(t[i].name.as_str()),
                            file: owned(file),
                            passthroughs,
                        };
                        put(&mut out, entry);
                    }
                },
                None => {},
            }
        }
        i += 1;
    }
    out
}

fn known_gaps() -> (r: Vec<String>)
    ensures
        r.deep_view() == gaps(),
{
    let mut out: Vec<String> = Vec::new();
    put(&mut out, owned("rsx! `..props` spread syntax is not detected"));
    put(
        &mut out,
        owned("method chains deeper than one call (e.g. `prop.clone().to_string()`) are not detected"),
    );
    assert(out.deep_view() =~= gaps());
    out
}

/// What there is to report.
pub open spec fn report(
    files: Seq<ScannedFile>,
    cs: Seq<ComponentInfoView>,
) -> PropDrillReportView {
    PropDrillReportView {
        parents: parents(files, cs),
        known_gaps: gaps(),
        parse_errors: parse_errors(files),
    }
}

/// Reports the props that components in `files` hand on to the components `cs`.
pub fn prop_drill(files: &Vec<ScannedFile>, cs: &Vec<ComponentInfo>) -> (r: PropDrillReport)
    ensures
        r.deep_view() == report(files@, cs.deep_view()),
{
    let mut out: Vec<ParentEntry> = Vec::new();
    let mut k: usize = 0;
    while k < files.len()
        invariant
            k <= files.len(),
            out.deep_view() == gather(0, k as int, file_parents(files@, cs.deep_view())),
        decreases files.len() - k,
    {
        match &files[k].ast {
            Ok(t) => put_all(&mut out, parents_in(t, files[k].path.as_str(), cs)),
            Err(_) => {},
        }
        k += 1;
    }
    PropDrillReport {
        parents: sort(out),
        known_gaps: known_gaps(),
        parse_errors: collect_parse_errors(files),
    }
}

// ---------------------------------------------------------------------------
// What is found, in terms of the nodes
// ---------------------------------------------------------------------------

/// The tokens from `a` to before `z` are one field of the braces at `g`: they stand
/// directly in it, side by side, without a comma among them, and a comma or the end
/// of the braces is on either side.
pub open spec fn field_tokens(t: Seq<Node>, g: int, a: int, z: int) -> bool {
    &&& g < a < z <= t[g].end <= t.len() && 0 <= g
    &&& forall|x: int| a <= x < z ==> #[trigger] token_in(t, g, x) && !mark_in(t, g, x, ","@)
    &&& a == g + 1 || mark_in(t, g, a - 1, ","@)
    &&& z == t[g].end || mark_in(t, g, z, ","@)
}

pub open spec fn run(a: int, z: int) -> Seq<usize> {
    Seq::new((z - a) as nat, |x: int| (a + x) as usize)
}

proof fn lemma_run(t: Seq<Node>, g: int, a: int, z: int)
    requires
        t.len() <= usize::MAX,
        field_tokens(t, g, a, z),
    ensures
        ({
            let lo = tokens_before(t, g, a);
            &&& 0 <= lo && lo + (z - a) <= kids(t, g).len()
            &&& kids(t, g).subrange(lo, lo + (z - a)) == run(a, z)
            &&& forall|x: int| a <= x <= z ==> #[trigger] tokens_before(t, g, x) == lo + (x - a)
        }),
{
    let lo = tokens_before(t, g, a);
    assert forall|x: int| a <= x <= z implies #[trigger] tokens_before(t, g, x) == lo + (x - a) by {
        lemma_run_numbers(t, g, a, z, x);
    }
    assert(token_in(t, g, z - 1));
    lemma_token_number(t, g, z - 1);
    assert(tokens_before(t, g, z - 1) == lo + (z - 1 - a));
    let part = kids(t, g).subrange(lo, lo + (z - a));
    assert forall|x: int| 0 <= x < z - a implies #[trigger] part[x] == run(a, z)[x] by {
        assert(token_in(t, g, a + x));
        lemma_token_number(t, g, a + x);
        assert(tokens_before(t, g, a + x) == lo + x);
    }
    assert(part =~= run(a, z));
}

proof fn lemma_run_numbers(t: Seq<Node>, g: int, a: int, z: int, x: int)
    requires
        t.len() <= usize::MAX,
        field_tokens(t, g, a, z),
        a <= x <= z,
    ensures
        tokens_before(t, g, x) == tokens_before(t, g, a) + (x - a),
    decreases x - a,
{
    if a < x {
        lemma_run_numbers(t, g, a, z, x - 1);
        assert(token_in(t, g, x - 1));
        lemma_token_number(t, g, x - 1);
    }
}

/// The tokens since the last comma.
proof fn lemma_cut_now(t: Seq<Node>, ks: Seq<usize>, lo: int, n: int)
    requires
        0 <= lo <= n <= ks.len(),
        lo == 0 || punct(t, ks[lo - 1] as int, ","@),
        forall|x: int| lo <= x < n ==> !punct(t, #[trigger] ks[x] as int, ","@),
    ensures
        cut(t, ks, n).1 == ks.subrange(lo, n),
    decreases n,
{
    if lo < n {
        lemma_cut_now(t, ks, lo, n - 1);
        assert(!punct(t, ks[n - 1] as int, ","@));
        assert(ks.subrange(lo, n) =~= ks.subrange(lo, n - 1).push(ks[n - 1]));
    } else {
        assert(ks.subrange(lo, n) =~= Seq::<usize>::empty());
    }
}

/// A part that a comma has ended stays.
proof fn lemma_cut_keeps(t: Seq<Node>, ks: Seq<usize>, m: int, n: int, f: Seq<usize>)
    requires
        0 <= m <= n <= ks.len(),
        cut(t, ks, m).0.contains(f),
    ensures
        cut(t, ks, n).0.contains(f),
    decreases n,
{
    if m < n {
        lemma_cut_keeps(t, ks, m, n - 1, f);
        let before = cut(t, ks, n - 1).0;
        let i = choose|i: int| 0 <= i < before.len() && before[i] == f;
        assert(cut(t, ks, n).0[i] == f);
    }
}

proof fn lemma_field_is_cut(t: Seq<Node>, g: int, a: int, z: int)
    requires
        t.len() <= usize::MAX,
        field_tokens(t, g, a, z),
    ensures
        fields(t, kids(t, g)).contains(run(a, z)),
{
    let ks = kids(t, g);
    let lo = tokens_before(t, g, a);
    let n = lo + (z - a);
    lemma_run(t, g, a, z);
    assert(lo == 0 || punct(t, ks[lo - 1] as int, ","@)) by {
        if a == g + 1 {
            assert(lo == 0);
        } else {
            lemma_token_number(t, g, a - 1);
        }
    }
    assert forall|x: int| lo <= x < n implies !punct(t, #[trigger] ks[x] as int, ","@) by {
        assert(ks.subrange(lo, n)[x - lo] == run(a, z)[x - lo]);
        assert(token_in(t, g, a + (x - lo)));
    }
    lemma_cut_now(t, ks, lo, n);
    let f = run(a, z);
    assert(f.len() > 0);
    if z == t[g].end {
        assert(n == ks.len()) by {
            assert(tokens_before(t, g, z) == n);
        }
        let parts = cut(t, ks, n).0;
        assert(fields(t, ks)[parts.len() as int] == f);
    } else {
        lemma_token_number(t, g, z);
        assert(tokens_before(t, g, z) == n);
        assert(punct(t, ks[n] as int, ","@));
        let parts = cut(t, ks, n).0;
        assert(cut(t, ks, n + 1).0[parts.len() as int] == f);
        lemma_cut_keeps(t, ks, n + 1, ks.len() as int, f);
        let all = cut(t, ks, ks.len() as int).0;
        let i = choose|i: int| 0 <= i < all.len() && all[i] == f;
        assert(fields(t, ks)[i] == f);
    }
}

/// The tokens from `v` to before `e` are the prop `prop` of `c`: its name, or its name
/// behind that of the argument `arg` and a dot.
pub open spec fn prop_tokens(
    t: Seq<Node>,
    v: int,
    e: int,
    c: ComponentInfoView,
    arg: Option<Seq<char>>,
    prop: Seq<char>,
) -> bool {
    &&& exists|p: int| 0 <= p < c.props.len() && (#[trigger] c.props[p]).name == prop
    &&& t[e - 1].kind == Kind::TokIdent && t[e - 1].name@ == prop
    &&& e == v + 1 || (e == v + 3 && t[v].kind == Kind::TokIdent && arg == Some(t[v].name@)
        && t[v + 1].kind == Kind::TokPunct && t[v + 1].name@ == "."@)
}

/// The tokens from `e` to before `z` say how a value is handed on: there are none,
/// or they call a method without arguments.
pub open spec fn via_tokens(t: Seq<Node>, e: int, z: int, via: Seq<char>) -> bool {
    ||| e == z && via == "direct"@
    ||| {
        let m = t[e + 1].name@;
        &&& z == e + 3
        &&& t[e].kind == Kind::TokPunct && t[e].name@ == "."@
        &&& t[e + 1].kind == Kind::TokIdent
        &&& t[e + 2].kind == Kind::TokGroup && t[e + 2].name@ == "("@ && t[e + 2].end == e + 3
        &&& {
            ||| m == "clone"@ && via == "clone"@
            ||| m == "into"@ && via == "into"@
            ||| m == "to_owned"@ && via == "to_owned"@
            ||| m == "read"@ && via == "signal_read"@
            ||| m == "peek"@ && via == "signal_peek"@
            ||| m == "cloned"@ && via == "signal_cloned"@
        }
    }
}

/// The field from `a` to before `z` hands on `prop`: its value, behind the key and a
/// colon, is the prop, as it stands or with a method called on it; or the key stands
/// alone and is the prop.
pub open spec fn hands_on(
    t: Seq<Node>,
    a: int,
    z: int,
    c: ComponentInfoView,
    arg: Option<Seq<char>>,
    prop: Seq<char>,
    via: Seq<char>,
) -> bool {
    &&& t[a].kind == Kind::TokIdent
    &&& {
        ||| z == a + 1 && via == "direct"@ && prop_tokens(t, a, z, c, None, prop)
        ||| {
            &&& t[a + 1].kind == Kind::TokPunct && t[a + 1].name@ == ":"@
            &&& exists|e: int|
                a + 2 < e <= z && #[trigger] prop_tokens(t, a + 2, e, c, arg, prop) && via_tokens(
                    t,
                    e,
                    z,
                    via,
                )
        }
    }
}

proof fn lemma_hands_on(
    t: Seq<Node>,
    a: int,
    z: int,
    child: Seq<char>,
    c: ComponentInfoView,
    arg: Option<Seq<char>>,
    prop: Seq<char>,
    via: Seq<char>,
)
    requires
        t.len() <= usize::MAX,
        0 <= a < z <= t.len(),
        hands_on(t, a, z, c, arg, prop, via),
    ensures
        passthrough(t, run(a, z), child, c, arg) == Some(
            PassthroughView {
                parent_prop: prop,
                child,
                child_prop: t[a].name@,
                via,
                line: t[a].line,
            },
        ),
{
    let f = run(a, z);
    assert(f[0] == a as usize);
    let p = choose|p: int| 0 <= p < c.props.len() && (#[trigger] c.props[p]).name == prop;
    assert(has_prop(c, prop));
    if z == a + 1 && via == "direct"@ && prop_tokens(t, a, z, c, None, prop) {
        assert(f.len() == 1);
        assert(base_prop(t, f, c, arg) == Some(prop));
    } else {
        let e = choose|e: int|
            a + 2 < e <= z && #[trigger] prop_tokens(t, a + 2, e, c, arg, prop) && via_tokens(
                t,
                e,
                z,
                via,
            );
        assert(f[1] == (a + 1) as usize);
        let v = f.skip(2);
        assert(v =~= run(a + 2, z));
        let n = v.len() as int;
        let base = run(a + 2, e);
        if e == z {
            // A prop behind an argument ends in no call.
            assert(v.len() == 1 || v.len() == 3);
            assert(stripped(t, v) == (v, "direct"@));
            assert(base =~= v);
        } else {
            assert(v[n - 1] == (e + 2) as usize && v[n - 2] == (e + 1) as usize && v[n - 3]
                == e as usize);
            assert(kids(t, e + 2) =~= Seq::<usize>::empty()) by {
                assert(crate::tape::stop(t, e + 2) == e + 3);
            }
            lemma_methods();
            assert(via_method(t[e + 1].name@) == Some(via));
            assert(v.take(n - 3) =~= base);
        }
        assert(base[0] == (a + 2) as usize);
        if e == a + 5 {
            assert(base[1] == (a + 3) as usize && base[2] == (a + 4) as usize);
        }
        assert(base_prop(t, base, c, arg) == Some(prop));
    }
}

proof fn lemma_methods()
    ensures
        "into"@ != "clone"@,
        "to_owned"@ != "clone"@,
        "to_owned"@ != "into"@,
        "read"@ != "clone"@,
        "read"@ != "into"@,
        "read"@ != "to_owned"@,
        "peek"@ != "clone"@,
        "peek"@ != "into"@,
        "peek"@ != "to_owned"@,
        "peek"@ != "read"@,
        "cloned"@ != "clone"@,
        "cloned"@ != "into"@,
        "cloned"@ != "to_owned"@,
        "cloned"@ != "read"@,
        "cloned"@ != "peek"@,
{
    reveal_strlit("clone");
    reveal_strlit("into");
    reveal_strlit("to_owned");
    reveal_strlit("read");
    reveal_strlit("peek");
    reveal_strlit("cloned");
    assert("clone"@.len() == 5 && "into"@.len() == 4 && "to_owned"@.len() == 8 && "read"@.len() == 4
        && "peek"@.len() == 4 && "cloned"@.len() == 6);
    assert("into"@[0] == 'i' && "read"@[0] == 'r' && "peek"@[0] == 'p');
}

proof fn lemma_found_below_grows(
    t: Seq<Node>,
    g: int,
    n: nat,
    m: nat,
    cs: Seq<ComponentInfoView>,
    c: ComponentInfoView,
    arg: Option<Seq<char>>,
    x: PassthroughView,
)
    requires
        n <= m,
        found_below(t, g, n, cs, c, arg).contains(x),
    ensures
        found_below(t, g, m, cs, c, arg).contains(x),
    decreases m,
{
    if n < m {
        lemma_found_below_grows(t, g, n, (m - 1) as nat, cs, c, arg, x);
        let before = found_below(t, g, (m - 1) as nat, cs, c, arg);
        let i = choose|i: int| 0 <= i < before.len() && before[i] == x;
        assert(found_below(t, g, m, cs, c, arg)[i] == x);
    }
}

/// What the calls in a group hand on, those in the macro around it do, however deep
/// the group stands.
proof fn lemma_found_in_macro(
    t: Seq<Node>,
    m: int,
    g: int,
    cs: Seq<ComponentInfoView>,
    c: ComponentInfoView,
    arg: Option<Seq<char>>,
    x: PassthroughView,
)
    requires
        t.len() <= usize::MAX,
        0 <= m,
        g == m || (token_of(t, m, g) && t[g].kind == Kind::TokGroup),
        found(t, g, cs, c, arg).contains(x),
    ensures
        found(t, m, cs, c, arg).contains(x),
    decreases g,
{
    if g != m {
        let p = t[g].parent as int;
        let n = tokens_before(t, p, g);
        lemma_token_number(t, p, g);
        let ks = kids(t, p);
        let before = found_below(t, p, n as nat, cs, c, arg);
        let inner = found(t, g, cs, c, arg);
        let i = choose|i: int| 0 <= i < inner.len() && inner[i] == x;
        assert(found_below(t, p, (n + 1) as nat, cs, c, arg) == before + inner);
        assert((before + inner)[before.len() + i] == x);
        lemma_found_below_grows(t, p, (n + 1) as nat, ks.len(), cs, c, arg, x);
        let own = gather(0, ks.len() as int, level_call(t, ks, cs, c, arg));
        let deep = found_below(t, p, ks.len(), cs, c, arg);
        let k = choose|k: int| 0 <= k < deep.len() && deep[k] == x;
        assert((own + deep)[own.len() + k] == x);
        assert(found(t, p, cs, c, arg).contains(x));
        lemma_found_in_macro(t, m, p, cs, c, arg, x);
    }
}

/// The argument through which the component at `i` reads its props: none, or its
/// first one where they come in one struct.
pub open spec fn reads_through(
    t: Seq<Node>,
    i: int,
    c: ComponentInfoView,
    arg: Option<Seq<char>>,
) -> bool {
    if c.via_props_struct {
        match arg {
            Some(name) => {
                &&& operand(t, i, 0) matches Some(a)
                &&& t[a].kind == Kind::Arg
                &&& operand(t, a, 0) matches Some(p)
                &&& t[p].kind == Kind::PatIdent && t[p].name@ == name
            },
            None => false,
        }
    } else {
        arg is None
    }
}

/// Every prop that is handed on is found, at whatever depth: where a token of an
/// `rsx!` of a component names a known component and braces follow it, each field in
/// these braces that hands on a prop is among the passthroughs of the component.
pub proof fn law_handed_on_is_found(
    files: Seq<ScannedFile>,
    cs: Seq<ComponentInfoView>,
    k: int,
    i: int,
    b: int,
    q: int,
    arg: Option<Seq<char>>,
    m: int,
    j: int,
    d: int,
    a: int,
    z: int,
    prop: Seq<char>,
    via: Seq<char>,
)
    requires
        0 <= k < files.len(),
        files[k].ast is Ok,
        ({
            let t = files[k].ast->Ok_0@;
            &&& component_with_body(t, i, b)
            &&& 0 <= q < cs.len() && cs[q].name == t[i].name@
            &&& forall|y: int| q < y < cs.len() ==> (#[trigger] cs[y]).name != t[i].name@
            &&& reads_through(t, i, cs[q], arg)
            &&& b <= m < t[b].end && t[m].kind == Kind::Macro && t[m].name@ == "rsx"@
            &&& token_of(t, m, j) && t[j].kind == Kind::TokIdent
            &&& 0 <= d < cs.len() && cs[d].name == t[j].name@
            &&& group_in(t, t[j].parent as int, j + 1, "{"@)
            &&& field_tokens(t, j + 1, a, z)
            &&& hands_on(t, a, z, cs[q], arg, prop, via)
        }),
    ensures
        ({
            let t = files[k].ast->Ok_0@;
            exists|p: ParentEntryView| #[trigger]
                report(files, cs).parents.contains(p) && p.component == t[i].name@ && p.file
                    == files[k].path@ && p.passthroughs.contains(
                    PassthroughView {
                        parent_prop: prop,
                        child: t[j].name@,
                        child_prop: t[a].name@,
                        via,
                        line: t[a].line,
                    },
                )
        }),
{
    let t = files[k].ast->Ok_0@;
    assert(files[k].ast->Ok_0.len() == t.len());
    let c = cs[q];
    let g = t[j].parent as int;
    let ks = kids(t, g);
    let x = PassthroughView {
        parent_prop: prop,
        child: t[j].name@,
        child_prop: t[a].name@,
        via,
        line: t[a].line,
    };
    lemma_component_with_body(t, i, b);
    lemma_component_named(cs, t[i].name@);
    lemma_component_named(cs, t[j].name@);
    assert(component_named(cs, t[i].name@) == Some(q));
    assert(arg == props_arg(t, i, c));
    // The field.
    lemma_field_is_cut(t, j + 1, a, z);
    lemma_hands_on(t, a, z, t[j].name@, c, arg, prop, via);
    let fs = fields(t, kids(t, j + 1));
    let n = choose|n: int| 0 <= n < fs.len() && fs[n] == run(a, z);
    let rule = field_passthrough(t, fs, t[j].name@, c, arg);
    assert(rule(n)[0] == x);
    assert(rule(n).contains(x));
    lemma_gather_contains(0, fs.len() as int, rule, x);
    // The call.
    lemma_token_number(t, g, j);
    lemma_token_number(t, g, j + 1);
    let at = tokens_before(t, g, j);
    assert(level_call(t, ks, cs, c, arg)(at).contains(x));
    lemma_gather_contains(0, ks.len() as int, level_call(t, ks, cs, c, arg), x);
    let own = gather(0, ks.len() as int, level_call(t, ks, cs, c, arg));
    let deep = found_below(t, g, ks.len(), cs, c, arg);
    let y = choose|y: int| 0 <= y < own.len() && own[y] == x;
    assert((own + deep)[y] == x);
    lemma_found_in_macro(t, m, g, cs, c, arg, x);
    // The component.
    assert(rsx(t, m));
    assert(block_found(t, cs, c, arg)(m).contains(x));
    lemma_gather_contains(b, t[b].end as int, block_found(t, cs, c, arg), x);
    let ps = component_passthroughs(t, i, cs, c);
    assert(ps.contains(x));
    let p = ParentEntryView { component: t[i].name@, file: files[k].path@, passthroughs: ps };
    assert(parent_at(t, files[k].path@, cs)(i)[0] == p);
    assert(parent_at(t, files[k].path@, cs)(i).contains(p));
    lemma_gather_contains(0, t.len() as int, parent_at(t, files[k].path@, cs), p);
    assert(file_parents(files, cs)(k).contains(p));
    lemma_gather_contains(0, files.len() as int, file_parents(files, cs), p);
    lemma_sorted_contains(
        gather(0, files.len() as int, file_parents(files, cs)),
        rank::<ParentEntry>(),
        p,
    );
    assert(report(files, cs).parents.contains(p));
}

} // verus!
