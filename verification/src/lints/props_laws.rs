//! What the lints on values handed to components find, in terms of the nodes.
use vstd::prelude::*;

use super::derived_view_no_memo;
use super::laws::{in_markup, lemma_in_markup, parses};
use super::signal_drilled_2_levels;
use super::signal_lint::laws::{component_in, nodes};
use super::vec_or_owned_prop_passthrough as owned_props;
use super::widget_laws::{library_type, reactive_type};
use crate::index::ComponentInfoView;
use crate::order::{gather, lemma_gather_contains, lemma_sorted_contains, rank};
use crate::plain::{lemma_component_with_body, under};
use crate::prop_drill::{ParentEntryView, PassthroughView};
use crate::scan::{component, inside, lemma_inside, pat_name, ParseErrorView, ScannedFile};
use crate::tape::{operand, stop, Kind, Node};
use crate::text::{at, occurs, without};

verus! {

// ---------------------------------------------------------------------------
// Derived views
// ---------------------------------------------------------------------------

/// The type `s` is a `Vec`, blanks aside.
pub open spec fn spells_vec(s: Seq<char>) -> bool {
    let w = without(s, ' ');
    at(w, "Vec<"@, 0) || at(w, "std::vec::Vec<"@, 0) || at(w, "alloc::vec::Vec<"@, 0)
}

/// Node `f` is a function at the top level, not `async`, that takes a slice by reference
/// and returns a `Vec`.
pub open spec fn derives_vec(t: Seq<Node>, f: int, a: int, ty: int, e: int, r: int) -> bool {
    &&& 0 < f < t.len() && t[f].kind == Kind::Fn && t[f].parent == 0 && !t[f].flag
    &&& t[f].count > 0
    &&& operand(t, f, 0) == Some(a) && t[a].kind == Kind::Arg
    &&& operand(t, a, 1) == Some(ty) && t[ty].kind == Kind::TyRef
    &&& operand(t, ty, 0) == Some(e) && t[e].kind == Kind::TySlice
    &&& operand(t, f, t[f].count as nat) == Some(r) && t[r].flag && spells_vec(t[r].text@)
}

/// In the macro at `m`, the group at `g` is what a `use_memo` is called with.
pub open spec fn memoized(t: Seq<Node>, g: int) -> bool {
    &&& 0 < g && t[g].kind == Kind::TokGroup
    &&& t[g - 1].kind == Kind::TokIdent && t[g - 1].name@ == "use_memo"@
    &&& t[g - 1].parent == t[g].parent
}

/// A function that derives a `Vec` from a slice is found where markup calls it outside
/// `use_memo`, for the component, at that line or an earlier one.
pub proof fn law_derived_view_is_found(
    files: Seq<ScannedFile>,
    from: int,
    f: int,
    a: int,
    ty: int,
    e: int,
    r: int,
    k: int,
    i: int,
    b: int,
    m: int,
    j: int,
)
    requires
        parses(files, from),
        derives_vec(nodes(files, from), f, a, ty, e, r),
        component_in(files, k, i, b),
        ({
            let t = nodes(files, k);
            &&& b <= m < t[b].end && t[m].kind == Kind::Macro && t[m].name@ == "rsx"@
            &&& under(t, m, j) && j + 1 < t.len()
            &&& t[j].kind == Kind::TokIdent && t[j].name@ == nodes(files, from)[f].name@
            &&& t[j].name@ != "use_memo"@
            &&& t[j + 1].kind == Kind::TokGroup && t[j + 1].name@ == "("@ && t[j + 1].parent
                == t[j].parent
            &&& forall|g: int| m <= g < j && #[trigger] memoized(t, g) ==> stop(t, g) <= j
        }),
    ensures
        exists|x: derived_view_no_memo::DerivedViewFindingView| #[trigger]
            derived_view_no_memo::report(files).findings.contains(x) && x.file == files[k].path@
                && x.component == nodes(files, k)[i].name@ && x.callee == nodes(files, k)[j].name@
                && x.line <= nodes(files, k)[j].line && x.calls_in_rsx_block >= 1,
{
    let t = nodes(files, k);
    let u = nodes(files, from);
    let path = files[k].path@;
    let name = t[j].name@;
    assert(files[k].ast->Ok_0.len() == t.len());
    lemma_component_with_body(t, i, b);
    let rule = derived_view_no_memo::derivation_at(u);
    assert(rule(f)[0] == name);
    assert(rule(f).contains(name));
    lemma_gather_contains(0, u.len() as int, rule, name);
    let outer = derived_view_no_memo::file_derivations(files);
    assert(outer(from).contains(name));
    lemma_gather_contains(0, files.len() as int, outer, name);
    let names = derived_view_no_memo::derivations(files);
    let p = derived_view_no_memo::memo_at(t);
    lemma_inside(t, m, j, j, p);
    if inside(t, m, j, p) {
        let g = choose|g: int| m <= g < j && #[trigger] p(g) && stop(t, g) > j;
        assert(memoized(t, g));
    }
    let callee = derived_view_no_memo::callee_at(t, m, names);
    assert(callee(j)[0] == j as usize);
    assert(callee(j).contains(j as usize));
    lemma_gather_contains(m, stop(t, m), callee, j as usize);
    let cs = derived_view_no_memo::calls(t, m, names);
    let n = choose|n: int| 0 <= n < cs.len() && cs[n] == j as usize;
    lemma_tally(t, cs, name, n, cs.len() as int);
    let c = lemma_first_of_name(t, cs, n);
    let found = derived_view_no_memo::call_findings(t, cs, i, path);
    let x = found(c)[0];
    assert(found(c).contains(x));
    lemma_gather_contains(0, cs.len() as int, found, x);
    let markup = derived_view_no_memo::rsx_findings(t, i, names, path);
    assert(markup(m).contains(x));
    lemma_gather_contains(b, t[b].end as int, markup, x);
    let comp = derived_view_no_memo::component_findings(t, path, names);
    assert(comp(i).contains(x));
    lemma_gather_contains(0, t.len() as int, comp, x);
    let all = derived_view_no_memo::file_findings(files, names);
    assert(all(k).contains(x));
    lemma_gather_contains(0, files.len() as int, all, x);
    lemma_sorted_contains(
        gather(0, files.len() as int, all),
        rank::<derived_view_no_memo::DerivedViewFinding>(),
        x,
    );
    assert(derived_view_no_memo::report(files).findings.contains(x));
}

proof fn lemma_tally(t: Seq<Node>, cs: Seq<usize>, name: Seq<char>, n: int, hi: int)
    requires
        0 <= n < hi <= cs.len(),
        t[cs[n] as int].name@ == name,
    ensures
        derived_view_no_memo::tally(t, cs, name, hi) >= 1,
        derived_view_no_memo::least_line(t, cs, name, hi) matches Some(line) && line
            <= t[cs[n] as int].line,
    decreases hi,
{
    if n < hi - 1 {
        lemma_tally(t, cs, name, n, hi - 1);
    }
}

proof fn lemma_first_of_name(t: Seq<Node>, cs: Seq<usize>, n: int) -> (c: int)
    requires
        0 <= n < cs.len(),
    ensures
        0 <= c <= n,
        t[cs[c] as int].name@ == t[cs[n] as int].name@,
        derived_view_no_memo::first_of_name(t, cs, c),
    decreases n,
{
    if derived_view_no_memo::first_of_name(t, cs, n) {
        n
    } else {
        let e = lemma_counted(t, cs, t[cs[n] as int].name@, n);
        lemma_first_of_name(t, cs, e)
    }
}

proof fn lemma_counted(t: Seq<Node>, cs: Seq<usize>, name: Seq<char>, n: int) -> (e: int)
    requires
        n <= cs.len(),
        derived_view_no_memo::tally(t, cs, name, n) != 0,
    ensures
        0 <= e < n,
        t[cs[e] as int].name@ == name,
    decreases n,
{
    if t[cs[n - 1] as int].name@ == name {
        n - 1
    } else {
        lemma_counted(t, cs, name, n - 1)
    }
}

// ---------------------------------------------------------------------------
// Owned props
// ---------------------------------------------------------------------------

/// Node `j` is an argument of node `i` that binds `arg` and has the type at `ty`.
pub open spec fn takes(t: Seq<Node>, i: int, j: int, p: int, ty: int, arg: Seq<char>) -> bool {
    &&& under(t, i, j) && t[j].kind == Kind::Arg && t[j].parent == i
    &&& operand(t, j, 0) == Some(p) && pat_name(t, p) == Some(arg)
    &&& operand(t, j, 1) == Some(ty)
}

/// The type `name` is cloned as a whole: it is `Vec` or `VecDeque`, or it is neither
/// reactive nor one of the library's.
pub open spec fn cloned_whole(name: Seq<char>) -> bool {
    name == "Vec"@ || name == "VecDeque"@ || (!reactive_type(name) && !library_type(name))
}

proof fn lemma_vec()
    ensures
        !owned_props::reactive_type("Vec"@),
        !owned_props::reactive_type("VecDeque"@),
        !owned_props::plain_type("VecDeque"@),
{
    reveal_strlit("Vec");
    reveal_strlit("VecDeque");
    reveal_strlit("Signal");
    reveal_strlit("ReadOnlySignal");
    reveal_strlit("WriteSignal");
    reveal_strlit("EventHandler");
    reveal_strlit("Memo");
    reveal_strlit("Resource");
    reveal_strlit("GlobalSignal");
    reveal_strlit("Callback");
    reveal_strlit("Element");
    reveal_strlit("VNode");
    reveal_strlit("String");
    reveal_strlit("str");
    reveal_strlit("bool");
    reveal_strlit("char");
    reveal_strlit("f32");
    reveal_strlit("f64");
    reveal_strlit("i8");
    reveal_strlit("i16");
    reveal_strlit("i32");
    reveal_strlit("i64");
    reveal_strlit("i128");
    reveal_strlit("isize");
    reveal_strlit("u8");
    reveal_strlit("u16");
    reveal_strlit("u32");
    reveal_strlit("u64");
    reveal_strlit("u128");
    reveal_strlit("usize");
    reveal_strlit("Option");
    reveal_strlit("Result");
    reveal_strlit("Box");
    reveal_strlit("Rc");
    reveal_strlit("Arc");
    reveal_strlit("Cow");
    reveal_strlit("HashMap");
    reveal_strlit("BTreeMap");
    reveal_strlit("HashSet");
    reveal_strlit("BTreeSet");
    reveal_strlit("PathBuf");
    reveal_strlit("Path");
    assert("Vec"@.len() == 3 && "Vec"@[0] == 'V');
    assert("VecDeque"@.len() == 8 && "VecDeque"@[0] == 'V');
    assert("Signal"@.len() == 6 && "Signal"@[0] == 'S');
    assert("ReadOnlySignal"@.len() == 14 && "ReadOnlySignal"@[0] == 'R');
    assert("WriteSignal"@.len() == 11 && "WriteSignal"@[0] == 'W');
    assert("EventHandler"@.len() == 12 && "EventHandler"@[0] == 'E');
    assert("Memo"@.len() == 4 && "Memo"@[0] == 'M');
    assert("Resource"@.len() == 8 && "Resource"@[0] == 'R');
    assert("GlobalSignal"@.len() == 12 && "GlobalSignal"@[0] == 'G');
    assert("Callback"@.len() == 8 && "Callback"@[0] == 'C');
    assert("Element"@.len() == 7 && "Element"@[0] == 'E');
    assert("VNode"@.len() == 5 && "VNode"@[0] == 'V');
    assert("String"@.len() == 6 && "String"@[0] == 'S');
    assert("str"@.len() == 3 && "str"@[0] == 's');
    assert("bool"@.len() == 4 && "bool"@[0] == 'b');
    assert("char"@.len() == 4 && "char"@[0] == 'c');
    assert("f32"@.len() == 3 && "f32"@[0] == 'f');
    assert("f64"@.len() == 3 && "f64"@[0] == 'f');
    assert("i8"@.len() == 2 && "i8"@[0] == 'i');
    assert("i16"@.len() == 3 && "i16"@[0] == 'i');
    assert("i32"@.len() == 3 && "i32"@[0] == 'i');
    assert("i64"@.len() == 3 && "i64"@[0] == 'i');
    assert("i128"@.len() == 4 && "i128"@[0] == 'i');
    assert("isize"@.len() == 5 && "isize"@[0] == 'i');
    assert("u8"@.len() == 2 && "u8"@[0] == 'u');
    assert("u16"@.len() == 3 && "u16"@[0] == 'u');
    assert("u32"@.len() == 3 && "u32"@[0] == 'u');
    assert("u64"@.len() == 3 && "u64"@[0] == 'u');
    assert("u128"@.len() == 4 && "u128"@[0] == 'u');
    assert("usize"@.len() == 5 && "usize"@[0] == 'u');
    assert("Option"@.len() == 6 && "Option"@[0] == 'O');
    assert("Result"@.len() == 6 && "Result"@[0] == 'R');
    assert("Box"@.len() == 3 && "Box"@[0] == 'B');
    assert("Rc"@.len() == 2 && "Rc"@[0] == 'R');
    assert("Arc"@.len() == 3 && "Arc"@[0] == 'A');
    assert("Cow"@.len() == 3 && "Cow"@[0] == 'C');
    assert("HashMap"@.len() == 7 && "HashMap"@[0] == 'H');
    assert("BTreeMap"@.len() == 8 && "BTreeMap"@[0] == 'B');
    assert("HashSet"@.len() == 7 && "HashSet"@[0] == 'H');
    assert("BTreeSet"@.len() == 8 && "BTreeSet"@[0] == 'B');
    assert("PathBuf"@.len() == 7 && "PathBuf"@[0] == 'P');
    assert("Path"@.len() == 4 && "Path"@[0] == 'P');
}

/// The signature that a component has, and what is found of it.
proof fn lemma_signature(files: Seq<ScannedFile>, k: int, i: int)
    requires
        parses(files, k),
        0 <= i < nodes(files, k).len(),
        component(nodes(files, k), i),
    ensures
        owned_props::signatures(files).contains(
            owned_props::signature(nodes(files, k), i, files[k].path@),
        ),
{
    let t = nodes(files, k);
    let s = owned_props::signature(t, i, files[k].path@);
    let rule = owned_props::signature_at(t, files[k].path@);
    assert(rule(i)[0] == s);
    assert(rule(i).contains(s));
    lemma_gather_contains(0, t.len() as int, rule, s);
    let outer = owned_props::file_signatures_at(files);
    assert(outer(k).contains(s));
    lemma_gather_contains(0, files.len() as int, outer, s);
}

/// A signature is that of a component of the files.
proof fn lemma_signature_is_real(
    files: Seq<ScannedFile>,
    s: owned_props::ComponentSigView,
) -> (r: (int, int))
    requires
        owned_props::signatures(files).contains(s),
    ensures
        parses(files, r.0),
        0 <= r.1 < nodes(files, r.0).len(),
        component(nodes(files, r.0), r.1),
        s == owned_props::signature(nodes(files, r.0), r.1, files[r.0].path@),
{
    let outer = owned_props::file_signatures_at(files);
    lemma_gather_contains(0, files.len() as int, outer, s);
    let k = choose|k: int| 0 <= k < files.len() && (#[trigger] outer(k)).contains(s);
    let t = nodes(files, k);
    let rule = owned_props::signature_at(t, files[k].path@);
    lemma_gather_contains(0, t.len() as int, rule, s);
    let i = choose|i: int| 0 <= i < t.len() && (#[trigger] rule(i)).contains(s);
    (k, i)
}

/// An argument of a component that is cloned as a whole is found.
pub proof fn law_owned_prop_is_found(
    files: Seq<ScannedFile>,
    k: int,
    i: int,
    b: int,
    j: int,
    p: int,
    ty: int,
    arg: Seq<char>,
)
    requires
        component_in(files, k, i, b),
        takes(nodes(files, k), i, j, p, ty, arg),
        nodes(files, k)[ty].kind == Kind::TyPath,
        cloned_whole(nodes(files, k)[ty].name@),
    ensures
        exists|x: owned_props::VecOrOwnedFindingView| #[trigger]
            owned_props::report(files).findings.contains(x) && x.file == files[k].path@ && x.line
                == nodes(files, k)[j].line && x.component == nodes(files, k)[i].name@
                && x.arg_name == arg,
{
    let x = lemma_owned_prop(files, k, i, b, j, p, ty, arg);
}

proof fn lemma_owned_prop(
    files: Seq<ScannedFile>,
    k: int,
    i: int,
    b: int,
    j: int,
    p: int,
    ty: int,
    arg: Seq<char>,
) -> (x: owned_props::VecOrOwnedFindingView)
    requires
        component_in(files, k, i, b),
        takes(nodes(files, k), i, j, p, ty, arg),
        nodes(files, k)[ty].kind == Kind::TyPath,
        cloned_whole(nodes(files, k)[ty].name@),
    ensures
        owned_props::report(files).findings.contains(x),
        x.file == files[k].path@,
        x.line == nodes(files, k)[j].line,
        x.component == nodes(files, k)[i].name@,
        x.arg_name == arg,
        x.reactive_callers == owned_props::reactive_callers(
            owned_props::signatures(files),
            x.component,
        ),
        x.confidence == if x.reactive_callers.len() > 0 {
            "medium"@
        } else {
            "low"@
        },
{
    let t = nodes(files, k);
    lemma_vec();
    lemma_component_with_body(t, i, b);
    assert(owned_props::category(t, ty) is Some);
    let o = owned_props::owned_arg(t, i, j)->0;
    let args = owned_props::owned_arg_at(t, i);
    assert(args(j)[0] == o);
    assert(args(j).contains(o));
    lemma_gather_contains(i, stop(t, i), args, o);
    let s = owned_props::signature(t, i, files[k].path@);
    lemma_signature(files, k, i);
    let cs = owned_props::signatures(files);
    let n = choose|n: int| 0 <= n < cs.len() && cs[n] == s;
    assert(s.args.contains(o));
    let a = choose|a: int| 0 <= a < s.args.len() && s.args[a] == o;
    let found = owned_props::arg_finding(cs, s);
    let x = owned_props::finding(cs, s, o);
    assert(found(a)[0] == x);
    assert(found(a).contains(x));
    lemma_gather_contains(0, s.args.len() as int, found, x);
    let rule = owned_props::component_findings(cs);
    assert(rule(n).contains(x));
    lemma_gather_contains(0, cs.len() as int, rule, x);
    lemma_sorted_contains(
        gather(0, cs.len() as int, rule),
        rank::<owned_props::VecOrOwnedFinding>(),
        x,
    );
    assert(owned_props::report(files).findings.contains(x));
    x
}

/// Node `j` writes to a signal or assigns to a name.
pub open spec fn writes_state(t: Seq<Node>, j: int) -> bool {
    let n = t[j].name@;
    ||| t[j].kind == Kind::MethodCall && (n == "set"@ || n == "with_mut"@ || n == "write"@ || n
        == "replace"@ || n == "take"@ || n == "modify"@)
    ||| t[j].kind == Kind::Assign && (operand(t, j, 0) matches Some(l) && t[l].kind == Kind::Path)
    ||| t[j].kind == Kind::Binary && (n == "+="@ || n == "-="@ || n == "*="@ || n == "/="@ || n
        == "%="@ || n == "^="@ || n == "&="@ || n == "|="@ || n == "<<="@ || n == ">>="@)
}

/// A component whose body writes state and whose markup uses the component `name` is
/// among the reactive callers of what is found of `name`, and the confidence is medium.
/// The caller is the only component of its name.
pub proof fn law_reactive_caller_is_named(
    files: Seq<ScannedFile>,
    k: int,
    i: int,
    b: int,
    j: int,
    p: int,
    ty: int,
    arg: Seq<char>,
    from: int,
    c: int,
    d: int,
    w: int,
    u: int,
)
    requires
        component_in(files, k, i, b),
        takes(nodes(files, k), i, j, p, ty, arg),
        nodes(files, k)[ty].kind == Kind::TyPath,
        cloned_whole(nodes(files, k)[ty].name@),
        component_in(files, from, c, d),
        ({
            let t = nodes(files, from);
            &&& d <= w < t[d].end && writes_state(t, w)
            &&& d <= u < t[d].end && u + 1 < t.len() && in_markup(t, d, u)
            &&& t[u].kind == Kind::TokIdent && t[u].name@ == nodes(files, k)[i].name@
            &&& t[u].name@.len() > 0 && 'A' <= t[u].name@[0] <= 'Z'
            &&& t[u + 1].kind == Kind::TokGroup && t[u + 1].name@ == "{"@ && t[u + 1].parent
                == t[u].parent
            &&& forall|k2: int, i2: int|
                parses(files, k2) && 0 <= i2 < nodes(files, k2).len() && #[trigger] component(
                    nodes(files, k2),
                    i2,
                ) && nodes(files, k2)[i2].name@ == t[c].name@ ==> k2 == from && i2 == c
        }),
    ensures
        exists|x: owned_props::VecOrOwnedFindingView| #[trigger]
            owned_props::report(files).findings.contains(x) && x.file == files[k].path@ && x.line
                == nodes(files, k)[j].line && x.component == nodes(files, k)[i].name@
                && x.arg_name == arg && x.reactive_callers.contains(nodes(files, from)[c].name@)
                && x.confidence == "medium"@,
{
    let x = lemma_owned_prop(files, k, i, b, j, p, ty, arg);
    let t = nodes(files, from);
    let name = nodes(files, k)[i].name@;
    let cs = owned_props::signatures(files);
    lemma_component_with_body(t, c, d);
    lemma_in_markup(t, d, u);
    let callee = owned_props::callee(t, d);
    assert(callee(u)[0] == name);
    assert(callee(u).contains(name));
    lemma_gather_contains(d, t[d].end as int, callee, name);
    assert(owned_props::reactive_write(t, w));
    let s = owned_props::signature(t, c, files[from].path@);
    assert(s.reactive && s.callees.contains(name));
    lemma_signature(files, from, c);
    let n = choose|n: int| 0 <= n < cs.len() && cs[n] == s;
    assert(owned_props::reactive_name(cs, s.name));
    let z = lemma_last_of_name(cs, n);
    assert(cs.contains(cs[z]));
    let (k2, i2) = lemma_signature_is_real(files, cs[z]);
    assert(component(nodes(files, k2), i2));
    assert(cs[z] == s);
    let callers = owned_props::reactive_caller(cs, name);
    assert(callers(z)[0] == s.name);
    assert(callers(z).contains(s.name));
    lemma_gather_contains(0, cs.len() as int, callers, s.name);
    lemma_sorted_contains(gather(0, cs.len() as int, callers), rank::<String>(), s.name);
    assert(x.reactive_callers.contains(s.name));
}

proof fn lemma_last_of_name(cs: Seq<owned_props::ComponentSigView>, n: int) -> (z: int)
    requires
        0 <= n < cs.len(),
    ensures
        n <= z < cs.len(),
        cs[z].name == cs[n].name,
        owned_props::last_of_name(cs, z),
    decreases cs.len() - n,
{
    if owned_props::last_of_name(cs, n) {
        n
    } else {
        let m = choose|m: int| n < m < cs.len() && (#[trigger] cs[m]).name == cs[n].name;
        lemma_last_of_name(cs, m)
    }
}

// ---------------------------------------------------------------------------
// Signals handed down
// ---------------------------------------------------------------------------

/// The type `ty` spells a signal, blanks aside.
pub open spec fn spells_signal(ty: Seq<char>) -> bool {
    exists|i: int| #[trigger] at(without(ty, ' '), "Signal<"@, i)
}

/// The component `name` has one prop called `prop`, and its type is `ty`, wherever
/// components of that name are listed.
pub open spec fn has_prop(
    cs: Seq<ComponentInfoView>,
    name: Seq<char>,
    prop: Seq<char>,
    ty: Seq<char>,
) -> bool {
    &&& exists|c: int, p: int|
        0 <= c < cs.len() && 0 <= p < cs[c].props.len() && cs[c].name == name
            && #[trigger] cs[c].props[p].name == prop
    &&& forall|c: int, p: int|
        0 <= c < cs.len() && 0 <= p < cs[c].props.len() && cs[c].name == name
            && #[trigger] cs[c].props[p].name == prop ==> cs[c].props[p].ty == ty
}

proof fn lemma_prop_type_in(c: ComponentInfoView, prop: Seq<char>, n: int)
    requires
        n <= c.props.len(),
    ensures
        match signal_drilled_2_levels::prop_type_in(c, prop, n) {
            Some(ty) => exists|p: int|
                0 <= p < n && (#[trigger] c.props[p]).name == prop && c.props[p].ty == ty,
            None => forall|p: int| 0 <= p < n ==> (#[trigger] c.props[p]).name != prop,
        },
    decreases n,
{
    if n > 0 {
        lemma_prop_type_in(c, prop, n - 1);
        assert(c.props[n - 1] == c.props[n - 1]);
    }
}

proof fn lemma_prop_type(
    cs: Seq<ComponentInfoView>,
    name: Seq<char>,
    prop: Seq<char>,
    ty: Seq<char>,
    n: int,
)
    requires
        has_prop(cs, name, prop, ty),
        n <= cs.len(),
    ensures
        match signal_drilled_2_levels::prop_type(cs, name, prop, n) {
            Some(found) => found == ty,
            None => forall|c: int, p: int|
                0 <= c < n && 0 <= p < cs[c].props.len() && cs[c].name == name
                    ==> #[trigger] cs[c].props[p].name != prop,
        },
    decreases n,
{
    if n > 0 {
        lemma_prop_type(cs, name, prop, ty, n - 1);
        lemma_prop_type_in(cs[n - 1], prop, cs[n - 1].props.len() as int);
    }
}

/// A signal that one component hands on to a second, and the second to a third, is
/// found, with the three components in order.
pub proof fn law_drilled_signal_is_found(
    cs: Seq<ComponentInfoView>,
    parents: Seq<ParentEntryView>,
    errors: Seq<ParseErrorView>,
    a: ParentEntryView,
    b: ParentEntryView,
    first: PassthroughView,
    second: PassthroughView,
    ty: Seq<char>,
    ty2: Seq<char>,
)
    requires
        parents.contains(a),
        parents.contains(b),
        a.passthroughs.contains(first),
        b.passthroughs.contains(second),
        first.child == b.component,
        first.child_prop == second.parent_prop,
        has_prop(cs, a.component, first.parent_prop, ty),
        has_prop(cs, b.component, second.parent_prop, ty2),
        spells_signal(ty),
        spells_signal(ty2),
    ensures
        exists|x: signal_drilled_2_levels::SignalDrilledFindingView| #[trigger]
            signal_drilled_2_levels::report(cs, parents, errors).findings.contains(x) && x.file
                == a.file && x.line == first.line && x.root_component == a.component
                && x.root_prop == first.parent_prop && x.signal_type == ty && x.chain == seq![
                a.component,
                first.child,
                second.child,
            ],
{
    let es = signal_drilled_2_levels::edges(cs, parents);
    let e = lemma_edge(cs, parents, a, first, ty);
    let f = lemma_edge(cs, parents, b, second, ty2);
    let i = choose|i: int| 0 <= i < es.len() && es[i] == e;
    let j = choose|j: int| 0 <= j < es.len() && es[j] == f;
    let x = signal_drilled_2_levels::finding(e, f);
    let inner = signal_drilled_2_levels::chain_at(es, e);
    assert(inner(j)[0] == x);
    assert(inner(j).contains(x));
    lemma_gather_contains(0, es.len() as int, inner, x);
    let rule = signal_drilled_2_levels::chains_from(es);
    assert(rule(i).contains(x));
    lemma_gather_contains(0, es.len() as int, rule, x);
    lemma_sorted_contains(
        gather(0, es.len() as int, rule),
        rank::<signal_drilled_2_levels::SignalDrilledFinding>(),
        x,
    );
    assert(signal_drilled_2_levels::report(cs, parents, errors).findings.contains(x));
}

proof fn lemma_edge(
    cs: Seq<ComponentInfoView>,
    parents: Seq<ParentEntryView>,
    a: ParentEntryView,
    pt: PassthroughView,
    ty: Seq<char>,
) -> (e: signal_drilled_2_levels::EdgeView)
    requires
        parents.contains(a),
        a.passthroughs.contains(pt),
        has_prop(cs, a.component, pt.parent_prop, ty),
        spells_signal(ty),
    ensures
        signal_drilled_2_levels::edges(cs, parents).contains(e),
        e.component == a.component,
        e.prop == pt.parent_prop,
        e.ty == ty,
        e.child == pt.child,
        e.child_prop == pt.child_prop,
        e.file == a.file,
        e.line == pt.line,
{
    lemma_prop_type(cs, a.component, pt.parent_prop, ty, cs.len() as int);
    assert(occurs(without(ty, ' '), "Signal<"@));
    let e = signal_drilled_2_levels::edge(cs, a, pt)->0;
    let k = choose|k: int| 0 <= k < parents.len() && parents[k] == a;
    let j = choose|j: int| 0 <= j < a.passthroughs.len() && a.passthroughs[j] == pt;
    let inner = signal_drilled_2_levels::parent_edge(cs, a);
    assert(inner(j)[0] == e);
    assert(inner(j).contains(e));
    lemma_gather_contains(0, a.passthroughs.len() as int, inner, e);
    let rule = signal_drilled_2_levels::parent_edges(cs, parents);
    assert(rule(k).contains(e));
    lemma_gather_contains(0, parents.len() as int, rule, e);
    e
}

} // verus!
