//! `props_lint`: props that cannot be compared, so that components cannot be
//! memoized.
use vstd::prelude::*;

use crate::order::{distinct, distinct_of, gather, holds, only_if, put, put_all, rank, sort, sorted};
use crate::scan::{
    collect_parse_errors, component, inside, is_component, parse_errors, pat_name, pat_name_of,
    reach, ParseError, ParseErrorView, ScannedFile,
};
use crate::tape::{operand, operand_of, stop, stop_of, Kind, Node};
use crate::text::{cat3, join, joined, owned, plural, plural_of, same, tight, tighten_ws};

verus! {

#[derive(Debug)]
pub struct PropsLintParams {
    pub project_root: Option<String>,
}

pub ghost struct PropsLintParamsView {
    pub project_root: Option<Seq<char>>,
}

impl DeepView for PropsLintParams {
    type V = PropsLintParamsView;

    open spec fn deep_view(&self) -> PropsLintParamsView {
        PropsLintParamsView {
            project_root: self.project_root.deep_view(),
        }
    }
}

#[derive(Debug)]
pub struct PropsIssue {
    pub code: &'static str,
    pub message: String,
    pub file: String,
    pub line: usize,
    /// What the issue is about: a struct, or `Component::arg`.
    pub struct_name: String,
    pub fix: Option<String>,
}

pub ghost struct PropsIssueView {
    pub code: Seq<char>,
    pub message: Seq<char>,
    pub file: Seq<char>,
    pub line: usize,
    pub struct_name: Seq<char>,
    pub fix: Option<Seq<char>>,
}

impl DeepView for PropsIssue {
    type V = PropsIssueView;

    open spec fn deep_view(&self) -> PropsIssueView {
        PropsIssueView {
            code: self.code@,
            message: self.message@,
            file: self.file@,
            line: self.line,
            struct_name: self.struct_name@,
            fix: self.fix.deep_view(),
        }
    }
}

#[derive(Debug)]
pub struct PropsLintReport {
    pub issues: Vec<PropsIssue>,
    pub parse_errors: Vec<ParseError>,
}

pub ghost struct PropsLintReportView {
    pub issues: Seq<PropsIssueView>,
    pub parse_errors: Seq<ParseErrorView>,
}

impl DeepView for PropsLintReport {
    type V = PropsLintReportView;

    open spec fn deep_view(&self) -> PropsLintReportView {
        PropsLintReportView {
            issues: self.issues.deep_view(),
            parse_errors: self.parse_errors.deep_view(),
        }
    }
}

/// A container that is compared by handle.
pub open spec fn reactive(name: Seq<char>) -> bool {
    ||| name == "Signal"@
    ||| name == "ReadOnlySignal"@
    ||| name == "WriteSignal"@
    ||| name == "EventHandler"@
    ||| name == "Memo"@
    ||| name == "Resource"@
    ||| name == "GlobalSignal"@
    ||| name == "Callback"@
}

fn is_reactive(name: &str) -> (r: bool)
    ensures
        r == reactive(name@),
{
    same(name, "Signal")
        || same(name, "ReadOnlySignal")
        || same(name, "WriteSignal")
        || same(name, "EventHandler")
        || same(name, "Memo")
        || same(name, "Resource")
        || same(name, "GlobalSignal")
        || same(name, "Callback")
}

/// A type that can be compared wherever its arguments can.
pub open spec fn comparable(name: Seq<char>) -> bool {
    ||| name == "String"@
    ||| name == "str"@
    ||| name == "bool"@
    ||| name == "char"@
    ||| name == "f32"@
    ||| name == "f64"@
    ||| name == "i8"@
    ||| name == "i16"@
    ||| name == "i32"@
    ||| name == "i64"@
    ||| name == "i128"@
    ||| name == "isize"@
    ||| name == "u8"@
    ||| name == "u16"@
    ||| name == "u32"@
    ||| name == "u64"@
    ||| name == "u128"@
    ||| name == "usize"@
    ||| name == "Vec"@
    ||| name == "Box"@
    ||| name == "Option"@
    ||| name == "Result"@
    ||| name == "Rc"@
    ||| name == "Arc"@
    ||| name == "Cow"@
    ||| name == "HashMap"@
    ||| name == "BTreeMap"@
    ||| name == "HashSet"@
    ||| name == "BTreeSet"@
    ||| name == "VecDeque"@
    ||| name == "PathBuf"@
    ||| name == "Path"@
    ||| name == "Element"@
    ||| name == "VNode"@
}

fn is_comparable(name: &str) -> (r: bool)
    ensures
        r == comparable(name@),
{
    same(name, "String")
        || same(name, "str")
        || same(name, "bool")
        || same(name, "char")
        || same(name, "f32")
        || same(name, "f64")
        || same(name, "i8")
        || same(name, "i16")
        || same(name, "i32")
        || same(name, "i64")
        || same(name, "i128")
        || same(name, "isize")
        || same(name, "u8")
        || same(name, "u16")
        || same(name, "u32")
        || same(name, "u64")
        || same(name, "u128")
        || same(name, "usize")
        || same(name, "Vec")
        || same(name, "Box")
        || same(name, "Option")
        || same(name, "Result")
        || same(name, "Rc")
        || same(name, "Arc")
        || same(name, "Cow")
        || same(name, "HashMap")
        || same(name, "BTreeMap")
        || same(name, "HashSet")
        || same(name, "BTreeSet")
        || same(name, "VecDeque")
        || same(name, "PathBuf")
        || same(name, "Path")
        || same(name, "Element")
        || same(name, "VNode")
}

// ---------------------------------------------------------------------------
// Derives
// ---------------------------------------------------------------------------

/// Node `a` is a `derive` of the item at `i`.
pub open spec fn derive_attr(t: Seq<Node>, i: int, a: int) -> bool {
    t[a].kind == Kind::Attr && t[a].parent == i && t[a].flag && t[a].name@ == "derive"@
}

/// Node `d` is the path `name` in a `derive` of the item at `i`.
pub open spec fn derive_at(t: Seq<Node>, i: int, d: int, name: Seq<char>) -> bool {
    t[d].kind == Kind::Derive && t[d].name@ == name && i < t[d].parent < d && derive_attr(
        t,
        i,
        t[d].parent as int,
    )
}

/// The item at `i` derives `name`.
pub open spec fn derives(t: Seq<Node>, i: int, name: Seq<char>) -> bool {
    exists|d: int| i < d < stop(t, i) && derive_at(t, i, d, name)
}

pub fn has_derive(t: &Vec<Node>, i: usize, name: &str) -> (r: bool)
    requires
        i < t.len(),
    ensures
        r == derives(t@, i as int, name@),
{
    let end = stop_of(t, i);
    let mut d: usize = i + 1;
    while d < end
        invariant
            i < d <= end <= t.len(),
            end == stop(t@, i as int),
            forall|k: int| i < k < d ==> !derive_at(t@, i as int, k, name@),
        decreases end - d,
    {
        let a = t[d].parent;
        if t[d].kind == Kind::Derive && same(t[d].name.as_str(), name) && i < a && a < d
            && t[a].kind == Kind::Attr && t[a].parent == i && t[a].flag && same(
            t[a].name.as_str(),
            "derive",
        ) {
            assert(derive_at(t@, i as int, d as int, name@));
            return true;
        }
        d += 1;
    }
    false
}

/// The type that item `i` makes comparable: one that derives `PartialEq`, or for
/// which the trait is implemented.
pub open spec fn made_comparable(t: Seq<Node>, i: int) -> Option<Seq<char>> {
    if t[i].parent != 0 || i == 0 {
        None
    } else if (t[i].kind == Kind::Struct || t[i].kind == Kind::Enum) && derives(
        t,
        i,
        "PartialEq"@,
    ) {
        Some(t[i].name@)
    } else if t[i].kind == Kind::Impl && t[i].name@ == "PartialEq"@ && t[i].text@.len() > 0 {
        Some(t[i].text@)
    } else {
        None
    }
}

pub open spec fn made_comparable_at(t: Seq<Node>) -> spec_fn(int) -> Seq<Seq<char>> {
    |i: int|
        match made_comparable(t, i) {
            Some(name) => seq![name],
            None => Seq::empty(),
        }
}

pub open spec fn file_comparable(files: Seq<ScannedFile>) -> spec_fn(int) -> Seq<Seq<char>> {
    |k: int|
        match files[k].ast {
            Ok(t) => gather(0, t@.len() as int, made_comparable_at(t@)),
            Err(_) => Seq::empty(),
        }
}

/// The types of a project that can be compared.
pub open spec fn known_types(files: Seq<ScannedFile>) -> Seq<Seq<char>> {
    gather(0, files.len() as int, file_comparable(files))
}

fn made_comparable_of(t: &Vec<Node>, i: usize) -> (r: Option<String>)
    requires
        i < t.len(),
    ensures
        r.deep_view() == made_comparable(t@, i as int),
{
    if t[i].parent != 0 || i == 0 {
        None
    } else if (t[i].kind == Kind::Struct || t[i].kind == Kind::Enum) && has_derive(
        t,
        i,
        "PartialEq",
    ) {
        Some(owned(t[i].name.as_str()))
    } else if t[i].kind == Kind::Impl && same(t[i].name.as_str(), "PartialEq")
        && t[i].text.as_str().unicode_len() > 0 {
        Some(owned(t[i].text.as_str()))
    } else {
        None
    }
}

fn known_types_in(t: &Vec<Node>) -> (r: Vec<String>)
    ensures
        r.deep_view() == gather(0, t@.len() as int, made_comparable_at(t@)),
{
    let mut out: Vec<String> = Vec::new();
    let mut i: usize = 0;
    while i < t.len()
        invariant
            i <= t.len(),
            out.deep_view() == gather(0, i as int, made_comparable_at(t@)),
        decreases t.len() - i,
    {
        match made_comparable_of(t, i) {
            Some(name) => put(&mut out, name),
            None => {},
        }
        i += 1;
    }
    out
}

pub fn collect_partial_eq_types(files: &Vec<ScannedFile>) -> (r: Vec<String>)
    ensures
        r.deep_view() == known_types(files@),
{
    let mut out: Vec<String> = Vec::new();
    let mut k: usize = 0;
    while k < files.len()
        invariant
            k <= files.len(),
            out.deep_view() == gather(0, k as int, file_comparable(files@)),
        decreases files.len() - k,
    {
        match &files[k].ast {
            Ok(t) => put_all(&mut out, known_types_in(t)),
            Err(_) => {},
        }
        k += 1;
    }
    out
}

// ---------------------------------------------------------------------------
// Types of arguments
// ---------------------------------------------------------------------------

pub open spec fn reactive_path(t: Seq<Node>, i: int) -> bool {
    t[i].kind == Kind::TyPath && reactive(t[i].name@)
}

/// Node `m` is a type whose parts matter, or leads to such a part: the last segment
/// of a path and the types among its generic arguments.
pub open spec fn carries(t: Seq<Node>, m: int) -> bool {
    match t[m].kind {
        Kind::TyPath
        | Kind::TyTuple
        | Kind::TyArray
        | Kind::TySlice
        | Kind::TyRef
        | Kind::TyParen
        | Kind::TyGroup
        | Kind::GenType => true,
        Kind::Segment => t[m].parent < t.len() && t[t[m].parent as int].last == m,
        _ => false,
    }
}

fn is_carrying(t: &Vec<Node>, m: usize) -> (r: bool)
    requires
        m < t.len(),
    ensures
        r == carries(t@, m as int),
{
    match t[m].kind {
        Kind::TyPath
        | Kind::TyTuple
        | Kind::TyArray
        | Kind::TySlice
        | Kind::TyRef
        | Kind::TyParen
        | Kind::TyGroup
        | Kind::GenType => true,
        Kind::Segment => t[m].parent < t.len() && t[t[m].parent].last == m,
        _ => false,
    }
}

/// Nothing in the subtree at `i` matters.
pub open spec fn sealed_at(t: Seq<Node>) -> spec_fn(int) -> bool {
    |i: int| reactive_path(t, i) || !carries(t, i)
}

/// The type named at `j`, part of the type at `ty`, that nothing makes
/// comparable. The arguments of reactive containers do not count.
pub open spec fn unknown_at(t: Seq<Node>, ty: int, known: Seq<Seq<char>>) -> spec_fn(int) -> Seq<
    Seq<char>,
> {
    |j: int|
        only_if(
            t[j].kind == Kind::TyPath && !reactive(t[j].name@) && !inside(
                t,
                ty,
                j,
                sealed_at(t),
            ) && !comparable(t[j].name@) && !known.contains(t[j].name@),
            t[j].name@,
        )
}

/// The types in the type at `ty` that nothing makes comparable, by name.
pub open spec fn unknown_types(t: Seq<Node>, ty: int, known: Seq<Seq<char>>) -> Seq<Seq<char>> {
    sorted(distinct(gather(ty, stop(t, ty), unknown_at(t, ty, known))), rank::<String>())
}

pub fn collect_unknown_user_types(t: &Vec<Node>, ty: usize, known: &Vec<String>) -> (r: Vec<String>)
    requires
        ty < t.len(),
    ensures
        r.deep_view() == unknown_types(t@, ty as int, known.deep_view()),
{
    let end = stop_of(t, ty);
    let mut out: Vec<String> = Vec::new();
    let mut until: usize = ty;
    let mut j: usize = ty;
    while j < end
        invariant
            ty <= j <= end <= t.len(),
            until == reach(t@, ty as int, j as int, sealed_at(t@)),
            out.deep_view() == gather(
                ty as int,
                j as int,
                unknown_at(t@, ty as int, known.deep_view()),
            ),
        decreases end - j,
    {
        let name = t[j].name.as_str();
        if (t[j].kind == Kind::TyPath && is_reactive(name)) || !is_carrying(t, j) {
            let e = stop_of(t, j);
            if e > until {
                until = e;
            }
        } else if t[j].kind == Kind::TyPath && j >= until && !is_comparable(name) && !holds(
            known,
            name,
        ) {
            put(&mut out, owned(name));
        }
        j += 1;
    }
    sort(distinct_of(&out))
}

// ---------------------------------------------------------------------------
// Issues
// ---------------------------------------------------------------------------

pub open spec fn derive_message(name: Seq<char>) -> Seq<char> {
    "`"@
        + name
        + "` derives `Props` but not `PartialEq`; Dioxus needs `PartialEq` on Props for memoization"@
}

fn derive_message_of(name: &str) -> (r: String)
    ensures
        r@ == derive_message(name@),
{
    let mut s = owned("`");
    s.append(name);
    s.append("` derives `Props` but not `PartialEq`; Dioxus needs `PartialEq` on Props for memoization");
    s
}

pub open spec fn type_message(
    comp: Seq<char>,
    arg: Seq<char>,
    ty: Seq<char>,
    ending: Seq<char>,
    names: Seq<char>,
) -> Seq<char> {
    "`"@
        + comp
        + "::"@
        + arg
        + ": "@
        + ty
        + "` — type"@
        + ending
        + " "@
        + names
        + " has no reachable `PartialEq` impl in this crate, so Dioxus can't memoize "@
        + comp
        + " across renders. Each parent re-render will re-run the component."@
}

fn type_message_of(comp: &str, arg: &str, ty: &str, ending: &str, names: &str) -> (r: String)
    ensures
        r@ == type_message(comp@, arg@, ty@, ending@, names@),
{
    let mut s = owned("`");
    s.append(comp);
    s.append("::");
    s.append(arg);
    s.append(": ");
    s.append(ty);
    s.append("` — type");
    s.append(ending);
    s.append(" ");
    s.append(names);
    s.append(" has no reachable `PartialEq` impl in this crate, so Dioxus can't memoize ");
    s.append(comp);
    s.append(" across renders. Each parent re-render will re-run the component.");
    s
}

pub open spec fn type_fix(names: Seq<char>) -> Seq<char> {
    "`derive(PartialEq)` on "@
        + names
        + " (alongside `Clone` if missing), or wrap the arg in `Signal<…>` / `ReadOnlySignal<…>` so memoization isn't required"@
}

fn type_fix_of(names: &str) -> (r: String)
    ensures
        r@ == type_fix(names@),
{
    let mut s = owned("`derive(PartialEq)` on ");
    s.append(names);
    s.append(" (alongside `Clone` if missing), or wrap the arg in `Signal<…>` / `ReadOnlySignal<…>` so memoization isn't required");
    s
}

/// The issue on the struct at `i`: it derives `Props` but not `PartialEq`.
pub open spec fn struct_issue(t: Seq<Node>, i: int, file: Seq<char>) -> Seq<PropsIssueView> {
    only_if(
        derives(t, i, "Props"@) && !derives(t, i, "PartialEq"@),
        PropsIssueView {
            code: "props_missing_partial_eq"@,
            message: derive_message(t[i].name@),
            file,
            line: t[i].line,
            struct_name: t[i].name@,
            fix: Some(
                "add `PartialEq` to the derive list, e.g. `#[derive(Props, PartialEq, Clone)]`"@,
            ),
        },
    )
}

/// The issue on argument `j` of the component at `i`: its type holds types that
/// cannot be compared.
pub open spec fn arg_issue(t: Seq<Node>, i: int, known: Seq<Seq<char>>, file: Seq<char>) -> spec_fn(
    int,
) -> Seq<PropsIssueView> {
    |j: int|
        if t[j].kind == Kind::Arg && t[j].parent == i {
            match (operand(t, j, 0), operand(t, j, 1)) {
                (Some(p), Some(ty)) => {
                    let arg = match pat_name(t, p) {
                        Some(name) => name,
                        None => "_"@,
                    };
                    let unknown = unknown_types(t, ty, known);
                    let names = joined(unknown, ", "@);
                    only_if(
                        !reactive_path(t, ty) && unknown.len() > 0,
                        PropsIssueView {
                            code: "missing_partial_eq_on_prop_type"@,
                            message: type_message(
                                t[i].name@,
                                arg,
                                tight(t[j].text@),
                                plural(unknown.len()),
                                names,
                            ),
                            file,
                            line: t[j].line,
                            struct_name: t[i].name@ + "::"@ + arg,
                            fix: Some(type_fix(names)),
                        },
                    )
                },
                _ => Seq::empty(),
            }
        } else {
            Seq::empty()
        }
}

pub open spec fn item_issues(t: Seq<Node>, known: Seq<Seq<char>>, file: Seq<char>) -> spec_fn(
    int,
) -> Seq<PropsIssueView> {
    |i: int|
        if t[i].kind == Kind::Struct && t[i].parent == 0 && i > 0 {
            struct_issue(t, i, file)
        } else if component(t, i) {
            gather(i, stop(t, i), arg_issue(t, i, known, file))
        } else {
            Seq::empty()
        }
}

pub open spec fn file_issues(files: Seq<ScannedFile>, known: Seq<Seq<char>>) -> spec_fn(int) -> Seq<
    PropsIssueView,
> {
    |k: int|
        match files[k].ast {
            Ok(t) => gather(0, t@.len() as int, item_issues(t@, known, files[k].path@)),
            Err(_) => Seq::empty(),
        }
}

fn arg_issues_of(t: &Vec<Node>, i: usize, known: &Vec<String>, file: &str) -> (r: Vec<PropsIssue>)
    requires
        i < t.len(),
    ensures
        r.deep_view() == gather(
            i as int,
            stop(t@, i as int),
            arg_issue(t@, i as int, known.deep_view(), file@),
        ),
{
    let end = stop_of(t, i);
    let comp = t[i].name.as_str();
    let mut out: Vec<PropsIssue> = Vec::new();
    let mut j: usize = i;
    while j < end
        invariant
            i < t.len(),
            comp@ == t@[i as int].name@,
            i <= j <= end <= t.len(),
            out.deep_view() == gather(
                i as int,
                j as int,
                arg_issue(t@, i as int, known.deep_view(), file@),
            ),
        decreases end - j,
    {
        if t[j].kind == Kind::Arg && t[j].parent == i {
            match (operand_of(t, j, 0), operand_of(t, j, 1)) {
                (Some(p), Some(ty)) => {
                    let arg = match pat_name_of(t, p) {
                        Some(name) => name,
                        None => owned("_"),
                    };
                    let unknown = collect_unknown_user_types(t, ty, known);
                    let skip = t[ty].kind == Kind::TyPath && is_reactive(t[ty].name.as_str());
                    if !skip && unknown.len() > 0 {
                        let names = join(&unknown, ", ");
                        let ty_text = tighten_ws(t[j].text.as_str());
                        let issue = PropsIssue {
                            code: "missing_partial_eq_on_prop_type",
                            message: type_message_of(
                                comp,
                                arg.as_str(),
                                ty_text.as_str(),
                                plural_of(unknown.len()),
                                names.as_str(),
                            ),
                            file: owned(file),
                            line: t[j].line,
                            struct_name: cat3(comp, "::", arg.as_str()),
                            fix: Some(type_fix_of(names.as_str())),
                        };
                        put(&mut out, issue);
                    }
                },
                _ => {},
            }
        }
        j += 1;
    }
    out
}

fn issues_in(t: &Vec<Node>, known: &Vec<String>, file: &str) -> (r: Vec<PropsIssue>)
    ensures
        r.deep_view() == gather(0, t@.len() as int, item_issues(t@, known.deep_view(), file@)),
{
    let mut out: Vec<PropsIssue> = Vec::new();
    let mut i: usize = 0;
    while i < t.len()
        invariant
            i <= t.len(),
            out.deep_view() == gather(0, i as int, item_issues(t@, known.deep_view(), file@)),
        decreases t.len() - i,
    {
        if t[i].kind == Kind::Struct && t[i].parent == 0 && i > 0 {
            if has_derive(t, i, "Props") && !has_derive(t, i, "PartialEq") {
                let issue = PropsIssue {
                    code: "props_missing_partial_eq",
                    message: derive_message_of(t[i].name.as_str()),
                    file: owned(file),
                    line: t[i].line,
                    struct_name: owned(t[i].name.as_str()),
                    fix: Some(
                        owned(
                            "add `PartialEq` to the derive list, e.g. `#[derive(Props, PartialEq, Clone)]`",
                        ),
                    ),
                };
                put(&mut out, issue);
            }
        } else if is_component(t, i) {
            put_all(&mut out, arg_issues_of(t, i, known, file));
        }
        i += 1;
    }
    out
}

/// What there is to report.
pub open spec fn report(files: Seq<ScannedFile>) -> PropsLintReportView {
    PropsLintReportView {
        issues: gather(0, files.len() as int, file_issues(files, known_types(files))),
        parse_errors: parse_errors(files),
    }
}

/// Reports the props in `files` that cannot be compared.
pub fn props_lint(files: &Vec<ScannedFile>) -> (r: PropsLintReport)
    ensures
        r.deep_view() == report(files@),
{
    let known = collect_partial_eq_types(files);
    let mut out: Vec<PropsIssue> = Vec::new();
    let mut k: usize = 0;
    while k < files.len()
        invariant
            k <= files.len(),
            out.deep_view() == gather(0, k as int, file_issues(files@, known.deep_view())),
        decreases files.len() - k,
    {
        match &files[k].ast {
            Ok(t) => put_all(&mut out, issues_in(t, &known, files[k].path.as_str())),
            Err(_) => {},
        }
        k += 1;
    }
    PropsLintReport { issues: out, parse_errors: collect_parse_errors(files) }
}

} // verus!
