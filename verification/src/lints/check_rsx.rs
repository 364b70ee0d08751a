//! `check_rsx`: common mistakes inside `rsx!`, found in its tokens.
use vstd::prelude::*;

use crate::order::{gather, lemma_gather_contains, only_if, put, put_all};
use crate::plain::{
    group_in, ident_in, lemma_numbered, lemma_numbers_grow, lemma_token_number, mark_in, token_in,
    token_of, tokens_before, under,
};
use crate::scan::{
    collect_parse_errors, group, is_group, is_punct, is_rsx, is_word, kids, kids_of, parse_errors,
    punct, rsx, word, ParseError, ParseErrorView, ScannedFile,
};
use crate::tape::{stop, stop_of, Kind, Node};
use crate::text::{
    begins, capital, decimal, decimal_usize, is_capital, owned, same, starts_with, trim, trimmed,
};

verus! {

#[derive(Debug)]
pub struct CheckRsxParams {
    /// Path of a single file. One of `file` or `files` must be given.
    pub file: Option<String>,
    /// Several paths. Each file is linted, and `issues` merges the findings.
    pub files: Option<Vec<String>>,
    pub project_root: Option<String>,
}

pub ghost struct CheckRsxParamsView {
    pub file: Option<Seq<char>>,
    pub files: Option<Seq<Seq<char>>>,
    pub project_root: Option<Seq<char>>,
}

impl DeepView for CheckRsxParams {
    type V = CheckRsxParamsView;

    open spec fn deep_view(&self) -> CheckRsxParamsView {
        CheckRsxParamsView {
            file: self.file.deep_view(),
            files: self.files.deep_view(),
            project_root: self.project_root.deep_view(),
        }
    }
}

#[derive(Debug)]
pub struct RsxIssue {
    pub line: usize,
    pub column: usize,
    pub message: String,
    /// Set where several files are linted.
    pub file: Option<String>,
}

pub ghost struct RsxIssueView {
    pub line: usize,
    pub column: usize,
    pub message: Seq<char>,
    pub file: Option<Seq<char>>,
}

impl DeepView for RsxIssue {
    type V = RsxIssueView;

    open spec fn deep_view(&self) -> RsxIssueView {
        RsxIssueView {
            line: self.line,
            column: self.column,
            message: self.message@,
            file: self.file.deep_view(),
        }
    }
}

#[derive(Debug)]
pub struct CheckRsxFileReport {
    pub file: String,
    pub rsx_block_count: usize,
    pub issues: Vec<RsxIssue>,
}

pub ghost struct CheckRsxFileReportView {
    pub file: Seq<char>,
    pub rsx_block_count: nat,
    pub issues: Seq<RsxIssueView>,
}

impl DeepView for CheckRsxFileReport {
    type V = CheckRsxFileReportView;

    open spec fn deep_view(&self) -> CheckRsxFileReportView {
        CheckRsxFileReportView {
            file: self.file@,
            rsx_block_count: self.rsx_block_count as nat,
            issues: self.issues.deep_view(),
        }
    }
}

#[derive(Debug)]
pub struct CheckRsxReport {
    /// The file, where one is linted.
    pub file: Option<String>,
    /// Number of `rsx!` blocks in all files.
    pub rsx_block_count: usize,
    /// Names of the checks that ran.
    pub checks_run: Vec<String>,
    pub issues: Vec<RsxIssue>,
    /// One report for each file, where several are linted.
    pub per_file: Vec<CheckRsxFileReport>,
    /// The files that do not parse, where a whole project is linted.
    pub parse_errors: Vec<ParseError>,
}

pub ghost struct CheckRsxReportView {
    pub file: Option<Seq<char>>,
    pub rsx_block_count: nat,
    pub checks_run: Seq<Seq<char>>,
    pub issues: Seq<RsxIssueView>,
    pub per_file: Seq<CheckRsxFileReportView>,
    pub parse_errors: Seq<ParseErrorView>,
}

impl DeepView for CheckRsxReport {
    type V = CheckRsxReportView;

    open spec fn deep_view(&self) -> CheckRsxReportView {
        CheckRsxReportView {
            file: self.file.deep_view(),
            rsx_block_count: self.rsx_block_count as nat,
            checks_run: self.checks_run.deep_view(),
            issues: self.issues.deep_view(),
            per_file: self.per_file.deep_view(),
            parse_errors: self.parse_errors.deep_view(),
        }
    }
}

/// The checks that `walk_lint` makes.
pub const CHECKS_RUN: [&'static str; 3] = [
    "missing_key_in_for_loop",
    "ambiguous_attribute_e0034",
    "empty_event_handler_closure",
];

pub open spec fn check_names() -> Seq<Seq<char>> {
    Seq::new(CHECKS_RUN@.len(), |k: int| CHECKS_RUN@[k]@)
}

fn checks_run() -> (r: Vec<String>)
    ensures
        r.deep_view() == check_names(),
{
    let mut out: Vec<String> = Vec::new();
    let mut k: usize = 0;
    while k < CHECKS_RUN.len()
        invariant
            k <= CHECKS_RUN.len(),
            out.deep_view() =~= check_names().take(k as int),
        decreases CHECKS_RUN.len() - k,
    {
        put(&mut out, owned(CHECKS_RUN[k]));
        k += 1;
    }
    assert(out.deep_view() =~= check_names());
    out
}

pub fn starts_uppercase(s: &str) -> (r: bool)
    ensures
        r == capital(s@),
{
    is_capital(s)
}

/// An attribute that two extension traits of `element` both provide, so that
/// writing it does not compile.
pub open spec fn ambiguous_attr(element: Seq<char>, attr: Seq<char>) -> bool {
    (element == "input"@ || element == "button"@ || element == "textarea"@ || element == "select"@)
        && attr == "autofocus"@
}

/// The attributes that are ambiguous on an HTML element: both the extension
/// trait of all elements and the element's own have a setter of that name.
pub fn ambiguous_attrs_for_element(element: &str) -> (r: Vec<&'static str>)
    ensures
        forall|attr: Seq<char>|
            ambiguous_attr(element@, attr) <==> exists|k: int|
                0 <= k < r.len() && (#[trigger] r[k])@ == attr,
        r.len() <= 1,
{
    let mut out: Vec<&'static str> = Vec::new();
    if same(element, "input") || same(element, "button") || same(element, "textarea") || same(
        element,
        "select",
    ) {
        out.push("autofocus");
        assert(out[0]@ == "autofocus"@);
    }
    out
}

fn is_ambiguous_attr(element: &str, attr: &str) -> (r: bool)
    ensures
        r == ambiguous_attr(element@, attr@),
{
    let bad = ambiguous_attrs_for_element(element);
    let mut k: usize = 0;
    while k < bad.len()
        invariant
            k <= bad.len(),
            forall|a: Seq<char>|
                ambiguous_attr(element@, a) <==> exists|m: int|
                    0 <= m < bad.len() && (#[trigger] bad[m])@ == a,
            forall|m: int| 0 <= m < k ==> (#[trigger] bad[m])@ != attr@,
        decreases bad.len() - k,
    {
        if same(bad[k], attr) {
            return true;
        }
        k += 1;
    }
    false
}

// ---------------------------------------------------------------------------
// One level of tokens
// ---------------------------------------------------------------------------

/// The first group in braces behind token number `from` of a level.
pub open spec fn for_body(t: Seq<Node>, ks: Seq<usize>, from: int) -> Option<int>
    decreases ks.len() - from,
{
    if from + 1 >= ks.len() || from < 0 {
        None
    } else if group(t, ks[from + 1] as int, "{"@) {
        Some(ks[from + 1] as int)
    } else {
        for_body(t, ks, from + 1)
    }
}

pub fn find_for_body(t: &Vec<Node>, ks: &Vec<usize>, start: usize) -> (r: Option<usize>)
    requires
        start < ks.len(),
        forall|k: int| 0 <= k < ks.len() ==> #[trigger] ks[k] < t.len(),
    ensures
        match r {
            Some(b) => for_body(t@, ks@, start as int) == Some(b as int) && b < t.len(),
            None => for_body(t@, ks@, start as int) is None,
        },
{
    let mut k: usize = start + 1;
    while k < ks.len()
        invariant
            start < k <= ks.len(),
            forall|m: int| 0 <= m < ks.len() ==> #[trigger] ks[m] < t.len(),
            for_body(t@, ks@, start as int) == for_body(t@, ks@, k - 1),
        decreases ks.len() - k,
    {
        if is_group(t, ks[k], "{") {
            return Some(ks[k]);
        }
        k += 1;
    }
    None
}

/// Token `j` is `key` and `:` follows.
pub open spec fn key_attr(t: Seq<Node>, j: int) -> bool {
    word(t, j, "key"@) && j + 1 < t.len() && t[j + 1].parent == t[j].parent && punct(
        t,
        j + 1,
        ":"@,
    )
}

/// Somewhere in the group at `b` stands `key:`.
pub open spec fn keyed(t: Seq<Node>, b: int) -> bool {
    exists|j: int| b < j < stop(t, b) && key_attr(t, j)
}

pub fn slice_has_key_attr(t: &Vec<Node>, b: usize) -> (r: bool)
    requires
        b < t.len(),
    ensures
        r == keyed(t@, b as int),
{
    let end = stop_of(t, b);
    let mut j: usize = b + 1;
    while j < end
        invariant
            b < j <= end <= t.len(),
            end == stop(t@, b as int),
            forall|k: int| b < k < j ==> !key_attr(t@, k),
        decreases end - j,
    {
        if is_word(t, j, "key") && j + 1 < t.len() && t[j + 1].parent == t[j].parent && is_punct(
            t,
            j + 1,
            ":",
        ) {
            assert(key_attr(t@, j as int));
            return true;
        }
        j += 1;
    }
    false
}

pub open spec fn issue(t: Seq<Node>, j: int, message: Seq<char>) -> RsxIssueView {
    RsxIssueView { line: t[j].line, column: t[j].column, message, file: None }
}

pub open spec fn key_message() -> Seq<char> {
    "loop in rsx! is missing a `key: ...` attribute on its child element — Dioxus needs keys for stable diffing"@
}

/// A loop without a key: `for`, and no `key:` in the braces that follow.
pub open spec fn loop_issue(t: Seq<Node>, ks: Seq<usize>) -> spec_fn(int) -> Seq<RsxIssueView> {
    |i: int|
        only_if(
            word(t, ks[i] as int, "for"@) && (for_body(t, ks, i) matches Some(b) && !keyed(t, b)),
            issue(t, ks[i] as int, key_message()),
        )
}

pub open spec fn ambiguous_message(name: Seq<char>, elem: Seq<char>) -> Seq<char> {
    "`"@ + name + "` on `"@ + elem
        + "` is ambiguous: both `GlobalAttributesExtension` and `"@ + elem
        + "`'s extension trait define a setter named `"@ + name
        + "` (E0034). Use the explicit attribute syntax instead: `\""@ + name
        + "\": \"...\"` (or `\""@ + name + "\": true` for boolean attrs)."@
}

/// An attribute `name:` that is ambiguous on `elem`.
pub open spec fn ambiguous_issue(t: Seq<Node>, ks: Seq<usize>, elem: Seq<char>) -> spec_fn(
    int,
) -> Seq<RsxIssueView> {
    |i: int|
        only_if(
            i + 1 < ks.len() && t[ks[i] as int].kind == Kind::TokIdent && punct(
                t,
                ks[i + 1] as int,
                ":"@,
            ) && ambiguous_attr(elem, t[ks[i] as int].name@),
            issue(t, ks[i] as int, ambiguous_message(t[ks[i] as int].name@, elem)),
        )
}

pub open spec fn handler_message(name: Seq<char>) -> Seq<char> {
    "`"@ + name
        + "` handler closure takes no parameters; in Dioxus it should accept an Event, e.g. `"@
        + name + ": move |evt: Event<MouseData>| { ... }`"@
}

/// Tokens number `k` and `k + 1` are two bars.
pub open spec fn two_bars(t: Seq<Node>, ks: Seq<usize>, k: int) -> bool {
    k + 1 < ks.len() && punct(t, ks[k] as int, "|"@) && punct(t, ks[k + 1] as int, "|"@)
}

/// A handler `onXxx:` whose closure has no parameters.
pub open spec fn handler_issue(t: Seq<Node>, ks: Seq<usize>) -> spec_fn(int) -> Seq<RsxIssueView> {
    |i: int|
        only_if(
            i + 2 < ks.len() && t[ks[i] as int].kind == Kind::TokIdent && begins(
                t[ks[i] as int].name@,
                "on"@,
            ) && t[ks[i] as int].name@.len() > 2 && punct(t, ks[i + 1] as int, ":"@) && two_bars(
                t,
                ks,
                if word(t, ks[i + 2] as int, "move"@) {
                    i + 3
                } else {
                    i + 2
                },
            ),
            issue(t, ks[i] as int, handler_message(t[ks[i] as int].name@)),
        )
}

fn issue_at(t: &Vec<Node>, j: usize, message: String) -> (r: RsxIssue)
    requires
        j < t.len(),
    ensures
        r.deep_view() == issue(t@, j as int, message@),
{
    RsxIssue { line: t[j].line, column: t[j].column, message, file: None }
}

fn loop_issues(t: &Vec<Node>, ks: &Vec<usize>) -> (r: Vec<RsxIssue>)
    requires
        forall|k: int| 0 <= k < ks.len() ==> #[trigger] ks[k] < t.len(),
    ensures
        r.deep_view() == gather(0, ks@.len() as int, loop_issue(t@, ks@)),
{
    let mut out: Vec<RsxIssue> = Vec::new();
    let mut i: usize = 0;
    while i < ks.len()
        invariant
            i <= ks.len(),
            forall|k: int| 0 <= k < ks.len() ==> #[trigger] ks[k] < t.len(),
            out.deep_view() == gather(0, i as int, loop_issue(t@, ks@)),
        decreases ks.len() - i,
    {
        if is_word(t, ks[i], "for") {
            match find_for_body(t, ks, i) {
                Some(b) => {
                    if !slice_has_key_attr(t, b) {
                        let message = owned(
                            "loop in rsx! is missing a `key: ...` attribute on its child element — Dioxus needs keys for stable diffing",
                        );
                        put(&mut out, issue_at(t, ks[i], message));
                    }
                },
                None => {},
            }
        }
        i += 1;
    }
    out
}

fn ambiguous_issues(t: &Vec<Node>, ks: &Vec<usize>, elem: &str) -> (r: Vec<RsxIssue>)
    requires
        forall|k: int| 0 <= k < ks.len() ==> #[trigger] ks[k] < t.len(),
    ensures
        r.deep_view() == gather(0, ks@.len() as int, ambiguous_issue(t@, ks@, elem@)),
{
    let mut out: Vec<RsxIssue> = Vec::new();
    let mut i: usize = 0;
    while i < ks.len()
        invariant
            i <= ks.len(),
            forall|k: int| 0 <= k < ks.len() ==> #[trigger] ks[k] < t.len(),
            out.deep_view() == gather(0, i as int, ambiguous_issue(t@, ks@, elem@)),
        decreases ks.len() - i,
    {
        if i + 1 < ks.len() && t[ks[i]].kind == Kind::TokIdent && is_punct(t, ks[i + 1], ":")
            && is_ambiguous_attr(elem, t[ks[i]].name.as_str()) {
            let name = t[ks[i]].name.as_str();
            let mut m = owned("`");
            m.append(name);
            m.append("` on `");
            m.append(elem);
            m.append("` is ambiguous: both `GlobalAttributesExtension` and `");
            m.append(elem);
            m.append("`'s extension trait define a setter named `");
            m.append(name);
            m.append("` (E0034). Use the explicit attribute syntax instead: `\"");
            m.append(name);
            m.append("\": \"...\"` (or `\"");
            m.append(name);
            m.append("\": true` for boolean attrs).");
            put(&mut out, issue_at(t, ks[i], m));
        }
        i += 1;
    }
    out
}

fn handler_issues(t: &Vec<Node>, ks: &Vec<usize>) -> (r: Vec<RsxIssue>)
    requires
        forall|k: int| 0 <= k < ks.len() ==> #[trigger] ks[k] < t.len(),
    ensures
        r.deep_view() == gather(0, ks@.len() as int, handler_issue(t@, ks@)),
{
    let mut out: Vec<RsxIssue> = Vec::new();
    let mut i: usize = 0;
    while i < ks.len()
        invariant
            i <= ks.len(),
            forall|k: int| 0 <= k < ks.len() ==> #[trigger] ks[k] < t.len(),
            out.deep_view() == gather(0, i as int, handler_issue(t@, ks@)),
        decreases ks.len() - i,
    {
        if ks.len() - i > 2 && t[ks[i]].kind == Kind::TokIdent && starts_with(
            t[ks[i]].name.as_str(),
            "on",
        ) && t[ks[i]].name.as_str().unicode_len() > 2 && is_punct(t, ks[i + 1], ":") {
            let k: usize = if is_word(t, ks[i + 2], "move") {
                i + 3
            } else {
                i + 2
            };
            if k < ks.len() && ks.len() - k > 1 && is_punct(t, ks[k], "|") && is_punct(
                t,
                ks[k + 1],
                "|",
            ) {
                let name = t[ks[i]].name.as_str();
                let mut m = owned("`");
                m.append(name);
                m.append(
                    "` handler closure takes no parameters; in Dioxus it should accept an Event, e.g. `",
                );
                m.append(name);
                m.append(": move |evt: Event<MouseData>| { ... }`");
                put(&mut out, issue_at(t, ks[i], m));
            }
        }
        i += 1;
    }
    out
}

// ---------------------------------------------------------------------------
// Nested groups
// ---------------------------------------------------------------------------

/// What a reader of a level remembers between two tokens.
pub ghost struct Memory {
    /// The identifier just read.
    pub ident: Option<Seq<char>>,
    /// A bar has opened the parameters of a closure.
    pub open: bool,
    /// The parameters of a closure have just ended.
    pub closed: bool,
}

/// The memory after the first `n` tokens of a level.
pub open spec fn memory(t: Seq<Node>, ks: Seq<usize>, n: int) -> Memory
    decreases n,
{
    if n <= 0 {
        Memory { ident: None, open: false, closed: false }
    } else {
        let before = memory(t, ks, n - 1);
        let j = ks[n - 1] as int;
        if t[j].kind == Kind::TokIdent {
            Memory { ident: Some(t[j].name@), open: before.open, closed: false }
        } else if punct(t, j, "|"@) {
            Memory { ident: None, open: !before.open, closed: before.open || before.closed }
        } else {
            Memory { ident: None, open: false, closed: false }
        }
    }
}

/// The group at `j` is the body of an element, a component or a branch: braces
/// behind an identifier, and not the body of a closure.
pub open spec fn node_body(t: Seq<Node>, j: int, m: Memory) -> bool {
    group(t, j, "{"@) && m.ident is Some && !m.closed
}

/// The group that a memory precedes belongs to a component.
pub open spec fn component_body(m: Memory) -> bool {
    m.ident matches Some(name) && capital(name)
}

/// The element whose body the group at `j` is.
pub open spec fn element_of(t: Seq<Node>, j: int, m: Memory) -> Option<Seq<char>> {
    if node_body(t, j, m) && !component_body(m) {
        m.ident
    } else {
        None
    }
}

/// The issues in the group or macro at `g`: those of its own tokens, then those
/// of the groups in it.
pub open spec fn walked(
    t: Seq<Node>,
    g: int,
    in_component: bool,
    in_node: bool,
    elem: Option<Seq<char>>,
) -> Seq<RsxIssueView>
    decreases t.len() - g, kids(t, g).len() + 1,
{
    let ks = kids(t, g);
    let n = ks.len() as int;
    let loops = if in_node {
        gather(0, n, loop_issue(t, ks))
    } else {
        Seq::empty()
    };
    let ambiguous = match elem {
        Some(e) => gather(0, n, ambiguous_issue(t, ks, e)),
        None => Seq::empty(),
    };
    let handlers = if !in_component {
        gather(0, n, handler_issue(t, ks))
    } else {
        Seq::empty()
    };
    loops + ambiguous + handlers + nested(t, g, ks.len())
}

/// The issues in the groups among the first `n` tokens of `g`.
pub open spec fn nested(t: Seq<Node>, g: int, n: nat) -> Seq<RsxIssueView>
    decreases t.len() - g, n,
{
    if n == 0 {
        Seq::empty()
    } else {
        let ks = kids(t, g);
        let j = ks[n - 1] as int;
        let m = memory(t, ks, n - 1);
        let before = nested(t, g, (n - 1) as nat);
        if g < j < t.len() && t[j].kind == Kind::TokGroup {
            before + walked(t, j, component_body(m), node_body(t, j, m), element_of(t, j, m))
        } else {
            before
        }
    }
}

/// Lints the tokens of the macro or group at `g`.
///
/// `in_component`: the tokens are the body of a component, whose handlers may
/// take no parameters. `in_node`: the tokens stand where elements may, so that
/// a `for` is a loop over elements. `elem`: the element whose body they are.
pub fn walk_lint(
    t: &Vec<Node>,
    g: usize,
    in_component: bool,
    in_node: bool,
    elem: Option<&str>,
) -> (r: Vec<RsxIssue>)
    requires
        g < t.len(),
    ensures
        r.deep_view() == walked(
            t@,
            g as int,
            in_component,
            in_node,
            match elem {
                Some(e) => Some(e@),
                None => None,
            },
        ),
    decreases t.len() - g,
{
    let ks = kids_of(t, g);
    let mut out: Vec<RsxIssue> = Vec::new();
    if in_node {
        put_all(&mut out, loop_issues(t, &ks));
    }
    let ghost loops = out.deep_view();
    match elem {
        Some(e) => put_all(&mut out, ambiguous_issues(t, &ks, e)),
        None => {},
    }
    let ghost ambiguous = out.deep_view();
    if !in_component {
        put_all(&mut out, handler_issues(t, &ks));
    }
    let ghost own = out.deep_view();
    proof {
        let n = ks@.len() as int;
        let l = if in_node {
            gather(0, n, loop_issue(t@, ks@))
        } else {
            Seq::empty()
        };
        let a = match elem {
            Some(e) => gather(0, n, ambiguous_issue(t@, ks@, e@)),
            None => Seq::empty(),
        };
        let h = if !in_component {
            gather(0, n, handler_issue(t@, ks@))
        } else {
            Seq::empty()
        };
        assert(loops =~= l);
        assert(ambiguous =~= l + a);
        assert(own =~= l + a + h);
    }
    let mut ident: Option<String> = None;
    let mut open = false;
    let mut closed = false;
    let mut n: usize = 0;
    while n < ks.len()
        invariant
            g < t.len(),
            n <= ks.len(),
            ks@ == kids(t@, g as int),
            forall|k: int| 0 <= k < ks.len() ==> g < #[trigger] ks[k] < t.len(),
            ident.deep_view() == memory(t@, ks@, n as int).ident,
            open == memory(t@, ks@, n as int).open,
            closed == memory(t@, ks@, n as int).closed,
            out.deep_view() == own + nested(t@, g as int, n as nat),
        decreases ks.len() - n,
    {
        let j = ks[n];
        match t[j].kind {
            Kind::TokIdent => {
                ident = Some(owned(t[j].name.as_str()));
                closed = false;
            },
            Kind::TokGroup => {
                let ghost m = memory(t@, ks@, n as int);
                let ghost before = nested(t@, g as int, n as nat);
                let name: Option<&str> = match &ident {
                    Some(s) => Some(s.as_str()),
                    None => None,
                };
                let is_component = match name {
                    Some(s) => starts_uppercase(s),
                    None => false,
                };
                let is_node = is_group(t, j, "{") && name.is_some() && !closed;
                let child: Option<&str> = if is_node && !is_component {
                    name
                } else {
                    None
                };
                put_all(&mut out, walk_lint(t, j, is_component, is_node, child));
                proof {
                    let inner = walked(
                        t@,
                        j as int,
                        component_body(m),
                        node_body(t@, j as int, m),
                        element_of(t@, j as int, m),
                    );
                    assert(own + before + inner =~= own + (before + inner));
                }
                ident = None;
                open = false;
                closed = false;
            },
            _ => {
                if is_punct(t, j, "|") {
                    closed = open || closed;
                    open = !open;
                } else {
                    open = false;
                    closed = false;
                }
                ident = None;
            },
        }
        n += 1;
    }
    out
}

// ---------------------------------------------------------------------------
// Files
// ---------------------------------------------------------------------------

pub open spec fn block_at(t: Seq<Node>) -> spec_fn(int) -> Seq<usize> {
    |i: int| only_if(rsx(t, i), i as usize)
}

/// The calls of `rsx` in a file.
pub open spec fn blocks(t: Seq<Node>) -> Seq<usize> {
    gather(0, t.len() as int, block_at(t))
}

pub open spec fn block_issues(t: Seq<Node>) -> spec_fn(int) -> Seq<RsxIssueView> {
    |i: int|
        if rsx(t, i) {
            walked(t, i, false, true, None)
        } else {
            Seq::empty()
        }
}

/// The report on a file that parses.
pub open spec fn file_report(t: Seq<Node>, file: Seq<char>) -> CheckRsxFileReportView {
    CheckRsxFileReportView {
        file,
        rsx_block_count: blocks(t).len(),
        issues: gather(0, t.len() as int, block_issues(t)),
    }
}

/// The message on a file that does not parse.
pub open spec fn fault_message(
    file: Seq<char>,
    line: usize,
    column: usize,
    message: Seq<char>,
) -> Seq<char> {
    "rust parse error in "@ + file + " at line "@ + decimal(line as nat) + " col "@ + decimal(
        column as nat,
    ) + ": "@ + message
}

pub open spec fn single(f: ScannedFile) -> Result<CheckRsxFileReportView, Seq<char>> {
    match f.ast {
        Ok(t) => Ok(file_report(t@, f.path@)),
        Err(e) => Err(fault_message(f.path@, e.line, e.column, e.message@)),
    }
}

fn lint_tape(t: &Vec<Node>, file: &str) -> (r: CheckRsxFileReport)
    ensures
        r.deep_view() == file_report(t@, file@),
{
    let mut issues: Vec<RsxIssue> = Vec::new();
    let mut found: Vec<usize> = Vec::new();
    let mut i: usize = 0;
    while i < t.len()
        invariant
            i <= t.len(),
            found@ == gather(0, i as int, block_at(t@)),
            issues.deep_view() == gather(0, i as int, block_issues(t@)),
        decreases t.len() - i,
    {
        if is_rsx(t, i) {
            found.push(i);
            put_all(&mut issues, walk_lint(t, i, false, true, None));
        }
        i += 1;
    }
    CheckRsxFileReport { file: owned(file), rsx_block_count: found.len(), issues }
}

/// Lints every `rsx!` block of a file.
pub fn lint_single_file(f: &ScannedFile) -> (r: Result<CheckRsxFileReport, String>)
    ensures
        match r {
            Ok(x) => single(*f) == Ok::<CheckRsxFileReportView, Seq<char>>(x.deep_view()),
            Err(m) => single(*f) == Err::<CheckRsxFileReportView, Seq<char>>(m@),
        },
{
    match &f.ast {
        Ok(t) => Ok(lint_tape(t, f.path.as_str())),
        Err(e) => {
            let mut m = owned("rust parse error in ");
            m.append(f.path.as_str());
            m.append(" at line ");
            m.append(decimal_usize(e.line).as_str());
            m.append(" col ");
            m.append(decimal_usize(e.column).as_str());
            m.append(": ");
            m.append(e.message.as_str());
            Err(m)
        },
    }
}

// ---------------------------------------------------------------------------
// Requests
// ---------------------------------------------------------------------------

pub open spec fn named_path(s: Seq<char>) -> Seq<Seq<char>> {
    only_if(trimmed(s).len() > 0, trimmed(s))
}

pub open spec fn listed_path(files: Seq<Seq<char>>) -> spec_fn(int) -> Seq<Seq<char>> {
    |k: int| named_path(files[k])
}

/// The paths that a request names, without white space around them.
pub open spec fn requested(p: CheckRsxParamsView) -> Seq<Seq<char>> {
    (match p.file {
        Some(f) => named_path(f),
        None => Seq::empty(),
    }) + (match p.files {
        Some(fs) => gather(0, fs.len() as int, listed_path(fs)),
        None => Seq::empty(),
    })
}

/// A request is for several files if it lists files or names more than one.
pub open spec fn batch(p: CheckRsxParamsView) -> bool {
    requested(p).len() > 1 || p.files is Some
}

fn put_path(out: &mut Vec<String>, s: &str)
    ensures
        final(out).deep_view() == old(out).deep_view() + named_path(s@),
{
    let f = trim(s);
    if f.as_str().unicode_len() > 0 {
        put(out, f);
    }
    assert(out.deep_view() =~= old(out).deep_view() + named_path(s@));
}

/// The paths that a request names, or an error if it names none.
pub fn requested_files(p: &CheckRsxParams) -> (r: Result<Vec<String>, String>)
    ensures
        match r {
            Ok(fs) => requested(p.deep_view()).len() > 0 && fs.deep_view() == requested(
                p.deep_view(),
            ),
            Err(m) => requested(p.deep_view()).len() == 0 && m@
                == "check_rsx: pass `file` (single path) or `files` (list of paths)"@,
        },
{
    let mut out: Vec<String> = Vec::new();
    match &p.file {
        Some(f) => put_path(&mut out, f.as_str()),
        None => {},
    }
    let ghost first = out.deep_view();
    match &p.files {
        Some(fs) => {
            let mut k: usize = 0;
            while k < fs.len()
                invariant
                    k <= fs.len(),
                    out.deep_view() =~= first + gather(0, k as int, listed_path(fs.deep_view())),
                decreases fs.len() - k,
            {
                put_path(&mut out, fs[k].as_str());
                assert(fs.deep_view()[k as int] == fs@[k as int]@);
                k += 1;
            }
        },
        None => {},
    }
    assert(out.deep_view() =~= requested(p.deep_view()));
    if out.len() == 0 {
        return Err(owned("check_rsx: pass `file` (single path) or `files` (list of paths)"));
    }
    Ok(out)
}

/// The first of the first `n` files that does not parse, if any.
pub open spec fn first_fault(files: Seq<ScannedFile>, n: int) -> Option<int>
    decreases n,
{
    if n <= 0 {
        None
    } else {
        match first_fault(files, n - 1) {
            Some(k) => Some(k),
            None => if files[n - 1].ast is Err {
                Some(n - 1)
            } else {
                None
            },
        }
    }
}

pub open spec fn file_reports(files: Seq<ScannedFile>) -> Seq<CheckRsxFileReportView> {
    Seq::new(files.len(), |k: int| single(files[k])->Ok_0)
}

pub open spec fn located(i: RsxIssueView, file: Option<Seq<char>>) -> RsxIssueView {
    RsxIssueView { line: i.line, column: i.column, message: i.message, file }
}

pub open spec fn located_at(r: CheckRsxFileReportView, named: bool) -> spec_fn(int) -> Seq<
    RsxIssueView,
> {
    |i: int|
        seq![
            located(
                r.issues[i],
                if named {
                    Some(r.file)
                } else {
                    None
                },
            ),
        ]
}

pub open spec fn report_issues(rs: Seq<CheckRsxFileReportView>, named: bool) -> spec_fn(int) -> Seq<
    RsxIssueView,
> {
    |k: int| gather(0, rs[k].issues.len() as int, located_at(rs[k], named))
}

pub open spec fn report_blocks(files: Seq<ScannedFile>) -> spec_fn(int) -> Seq<usize> {
    |k: int|
        match files[k].ast {
            Ok(t) => blocks(t@),
            Err(_) => Seq::empty(),
        }
}

/// The report on files that all parse.
pub open spec fn merged(files: Seq<ScannedFile>, many: bool) -> CheckRsxReportView {
    let rs = file_reports(files);
    CheckRsxReportView {
        file: if many {
            None
        } else {
            Some(rs[0].file)
        },
        rsx_block_count: gather(0, files.len() as int, report_blocks(files)).len(),
        checks_run: check_names(),
        issues: gather(0, rs.len() as int, report_issues(rs, many)),
        per_file: if many {
            rs
        } else {
            Seq::empty()
        },
        parse_errors: Seq::empty(),
    }
}

pub open spec fn file_report_at(files: Seq<ScannedFile>) -> spec_fn(int) -> Seq<
    CheckRsxFileReportView,
> {
    |k: int|
        match files[k].ast {
            Ok(t) => seq![file_report(t@, files[k].path@)],
            Err(_) => Seq::empty(),
        }
}

/// The report on the files of a project: on those that parse, and which do not.
pub open spec fn swept(files: Seq<ScannedFile>) -> CheckRsxReportView {
    let rs = gather(0, files.len() as int, file_report_at(files));
    CheckRsxReportView {
        file: None,
        rsx_block_count: gather(0, files.len() as int, report_blocks(files)).len(),
        checks_run: check_names(),
        issues: gather(0, rs.len() as int, report_issues(rs, true)),
        per_file: rs,
        parse_errors: parse_errors(files),
    }
}

/// Lints the files of a project. Files that do not parse are listed.
pub fn sweep(files: &Vec<ScannedFile>) -> (r: CheckRsxReport)
    ensures
        r.deep_view() == swept(files@),
{
    let mut per_file: Vec<CheckRsxFileReport> = Vec::new();
    let mut found: Vec<usize> = Vec::new();
    let mut k: usize = 0;
    while k < files.len()
        invariant
            k <= files.len(),
            per_file.deep_view() == gather(0, k as int, file_report_at(files@)),
            found@ == gather(0, k as int, report_blocks(files@)),
        decreases files.len() - k,
    {
        match &files[k].ast {
            Ok(t) => {
                put(&mut per_file, lint_tape(t, files[k].path.as_str()));
                let mut more = blocks_of(t);
                found.append(&mut more);
            },
            Err(_) => {},
        }
        k += 1;
    }
    let ghost rs = per_file.deep_view();
    let mut issues: Vec<RsxIssue> = Vec::new();
    let mut n: usize = 0;
    while n < per_file.len()
        invariant
            n <= per_file.len(),
            rs == per_file.deep_view(),
            issues.deep_view() == gather(0, n as int, report_issues(rs, true)),
        decreases per_file.len() - n,
    {
        assert(rs[n as int] == per_file@[n as int].deep_view());
        put_located(&mut issues, &per_file[n], true);
        n += 1;
    }
    CheckRsxReport {
        file: None,
        rsx_block_count: found.len(),
        checks_run: checks_run(),
        issues,
        per_file,
        parse_errors: collect_parse_errors(files),
    }
}

fn put_located(out: &mut Vec<RsxIssue>, r: &CheckRsxFileReport, named: bool)
    ensures
        final(out).deep_view() == old(out).deep_view() + gather(
            0,
            r.deep_view().issues.len() as int,
            located_at(r.deep_view(), named),
        ),
{
    let ghost v = r.deep_view();
    let mut i: usize = 0;
    while i < r.issues.len()
        invariant
            i <= r.issues.len(),
            v == r.deep_view(),
            out.deep_view() =~= old(out).deep_view() + gather(0, i as int, located_at(v, named)),
        decreases r.issues.len() - i,
    {
        assert(v.issues[i as int] == r.issues@[i as int].deep_view());
        let issue = RsxIssue {
            line: r.issues[i].line,
            column: r.issues[i].column,
            message: owned(r.issues[i].message.as_str()),
            file: if named {
                Some(owned(r.file.as_str()))
            } else {
                None
            },
        };
        put(out, issue);
        i += 1;
    }
}

fn blocks_of(t: &Vec<Node>) -> (r: Vec<usize>)
    ensures
        r@ == blocks(t@),
{
    let mut found: Vec<usize> = Vec::new();
    let mut i: usize = 0;
    while i < t.len()
        invariant
            i <= t.len(),
            found@ == gather(0, i as int, block_at(t@)),
        decreases t.len() - i,
    {
        if is_rsx(t, i) {
            found.push(i);
        }
        i += 1;
    }
    found
}

/// Lints the files of a request, given in the order in which it names them. The
/// first file that does not parse is the error.
pub fn check_rsx(p: &CheckRsxParams, files: &Vec<ScannedFile>) -> (r: Result<
    CheckRsxReport,
    String,
>)
    requires
        files@.len() == requested(p.deep_view()).len(),
    ensures
        match r {
            Ok(x) => requested(p.deep_view()).len() > 0 && first_fault(files@, files@.len() as int)
                is None && x.deep_view() == merged(files@, batch(p.deep_view())),
            Err(m) => if requested(p.deep_view()).len() == 0 {
                m@ == "check_rsx: pass `file` (single path) or `files` (list of paths)"@
            } else {
                first_fault(files@, files@.len() as int) matches Some(k) && single(files@[k])
                    == Err::<CheckRsxFileReportView, Seq<char>>(m@)
            },
        },
{
    let named = match requested_files(p) {
        Ok(fs) => fs,
        Err(m) => return Err(m),
    };
    let many = named.len() > 1 || p.files.is_some();
    lint_files(files, many)
}

/// Lints `files`, one report for each if there may be `many`.
pub fn lint_files(files: &Vec<ScannedFile>, many: bool) -> (r: Result<CheckRsxReport, String>)
    requires
        many || files@.len() > 0,
    ensures
        match r {
            Ok(x) => first_fault(files@, files@.len() as int) is None && x.deep_view() == merged(
                files@,
                many,
            ),
            Err(m) => first_fault(files@, files@.len() as int) matches Some(k) && single(files@[k])
                == Err::<CheckRsxFileReportView, Seq<char>>(m@),
        },
{
    let mut per_file: Vec<CheckRsxFileReport> = Vec::new();
    let mut found: Vec<usize> = Vec::new();
    let mut k: usize = 0;
    while k < files.len()
        invariant
            k <= files.len(),
            first_fault(files@, k as int) is None,
            per_file.deep_view() =~= file_reports(files@).take(k as int),
            found@ == gather(0, k as int, report_blocks(files@)),
        decreases files.len() - k,
    {
        match lint_single_file(&files[k]) {
            Ok(x) => put(&mut per_file, x),
            Err(m) => {
                proof {
                    lemma_first_fault(files@, k as int, files@.len() as int);
                }
                return Err(m);
            },
        }
        match &files[k].ast {
            Ok(t) => {
                let mut more = blocks_of(t);
                found.append(&mut more);
            },
            Err(_) => {},
        }
        k += 1;
    }
    let ghost rs = file_reports(files@);
    assert(per_file.deep_view() =~= rs);
    let mut issues: Vec<RsxIssue> = Vec::new();
    let mut i: usize = 0;
    while i < per_file.len()
        invariant
            i <= per_file.len(),
            per_file.deep_view() == rs,
            issues.deep_view() == gather(0, i as int, report_issues(rs, many)),
        decreases per_file.len() - i,
    {
        assert(rs[i as int] == per_file@[i as int].deep_view());
        put_located(&mut issues, &per_file[i], many);
        i += 1;
    }
    let file = if many {
        None
    } else {
        assert(rs[0] == per_file@[0].deep_view());
        Some(owned(per_file[0].file.as_str()))
    };
    let x = CheckRsxReport {
        file,
        rsx_block_count: found.len(),
        checks_run: checks_run(),
        issues,
        per_file: if many {
            per_file
        } else {
            Vec::new()
        },
        parse_errors: Vec::new(),
    };
    assert(x.deep_view().per_file =~= merged(files@, many).per_file);
    assert(x.deep_view().parse_errors =~= merged(files@, many).parse_errors);
    Ok(x)
}

/// A file that does not parse stays the first one, whatever follows.
proof fn lemma_first_fault(files: Seq<ScannedFile>, k: int, n: int)
    requires
        0 <= k < n <= files.len(),
        first_fault(files, k) is None,
        files[k].ast is Err,
    ensures
        first_fault(files, n) == Some(k),
    decreases n,
{
    if n > k + 1 {
        lemma_first_fault(files, k, n - 1);
    }
}

/// The sum of the issues of the first `n` reports.
pub open spec fn issue_sum(rs: Seq<CheckRsxFileReportView>, n: int) -> nat
    decreases n,
{
    if n <= 0 {
        0
    } else {
        issue_sum(rs, n - 1) + rs[n - 1].issues.len()
    }
}

/// The sum of the blocks in the first `n` reports.
pub open spec fn block_sum(rs: Seq<CheckRsxFileReportView>, n: int) -> nat
    decreases n,
{
    if n <= 0 {
        0
    } else {
        block_sum(rs, n - 1) + rs[n - 1].rsx_block_count
    }
}

proof fn lemma_located(r: CheckRsxFileReportView, named: bool, n: int)
    requires
        0 <= n,
    ensures
        gather(0, n, located_at(r, named)).len() == n,
    decreases n,
{
    if n > 0 {
        lemma_located(r, named, n - 1);
    }
}

proof fn lemma_sums(files: Seq<ScannedFile>, many: bool, n: int)
    requires
        0 <= n <= files.len(),
        forall|k: int| 0 <= k < files.len() ==> (#[trigger] files[k]).ast is Ok,
    ensures
        gather(0, n, report_issues(file_reports(files), many)).len() == issue_sum(
            file_reports(files),
            n,
        ),
        gather(0, n, report_blocks(files)).len() == block_sum(file_reports(files), n),
    decreases n,
{
    if n > 0 {
        let rs = file_reports(files);
        lemma_sums(files, many, n - 1);
        lemma_located(rs[n - 1], many, rs[n - 1].issues.len() as int);
        assert(files[n - 1].ast is Ok);
    }
}

/// A merged report counts what the reports of the files count, and names one file
/// only where one was asked for.
pub proof fn law_merged(files: Seq<ScannedFile>, many: bool)
    requires
        forall|k: int| 0 <= k < files.len() ==> (#[trigger] files[k]).ast is Ok,
    ensures
        ({
            let r = merged(files, many);
            let rs = file_reports(files);
            &&& r.issues.len() == issue_sum(rs, rs.len() as int)
            &&& r.rsx_block_count == block_sum(rs, rs.len() as int)
            &&& r.file is Some <==> !many
            &&& many ==> r.per_file == rs
        }),
{
    lemma_sums(files, many, files.len() as int);
}

// ---------------------------------------------------------------------------
// What is found, in terms of the nodes
// ---------------------------------------------------------------------------

/// The issue is in the report on the project, and in that on a request for the
/// files.
pub open spec fn told(
    files: Seq<ScannedFile>,
    k: int,
    line: usize,
    column: usize,
    message: Seq<char>,
) -> bool {
    let path = Some(files[k].path@);
    &&& swept(files).issues.contains(RsxIssueView { line, column, message, file: path })
    &&& merged(files, true).issues.contains(RsxIssueView { line, column, message, file: path })
    &&& merged(files, false).issues.contains(RsxIssueView { line, column, message, file: None })
}

proof fn lemma_report_issues(
    rs: Seq<CheckRsxFileReportView>,
    k: int,
    named: bool,
    x: RsxIssueView,
)
    requires
        0 <= k < rs.len(),
        rs[k].issues.contains(x),
    ensures
        gather(0, rs.len() as int, report_issues(rs, named)).contains(
            located(
                x,
                if named {
                    Some(rs[k].file)
                } else {
                    None
                },
            ),
        ),
{
    let y = located(
        x,
        if named {
            Some(rs[k].file)
        } else {
            None
        },
    );
    let m = choose|m: int| 0 <= m < rs[k].issues.len() && rs[k].issues[m] == x;
    assert(located_at(rs[k], named)(m)[0] == y);
    assert(located_at(rs[k], named)(m).contains(y));
    lemma_gather_contains(0, rs[k].issues.len() as int, located_at(rs[k], named), y);
    assert(report_issues(rs, named)(k).contains(y));
    lemma_gather_contains(0, rs.len() as int, report_issues(rs, named), y);
}

/// What an `rsx!` of a file gives is told.
proof fn lemma_told(files: Seq<ScannedFile>, k: int, m: int, x: RsxIssueView)
    requires
        0 <= k < files.len(),
        files[k].ast is Ok,
        ({
            let t = files[k].ast->Ok_0@;
            0 <= m < t.len() && rsx(t, m) && walked(t, m, false, true, None).contains(x)
        }),
    ensures
        told(files, k, x.line, x.column, x.message),
{
    let t = files[k].ast->Ok_0@;
    let r = file_report(t, files[k].path@);
    assert(block_issues(t)(m).contains(x));
    lemma_gather_contains(0, t.len() as int, block_issues(t), x);
    assert(r.issues.contains(x));
    let rs = gather(0, files.len() as int, file_report_at(files));
    assert(file_report_at(files)(k)[0] == r);
    assert(file_report_at(files)(k).contains(r));
    lemma_gather_contains(0, files.len() as int, file_report_at(files), r);
    let n = choose|n: int| 0 <= n < rs.len() && rs[n] == r;
    lemma_report_issues(rs, n, true, x);
    let all = file_reports(files);
    assert(all[k] == r);
    lemma_report_issues(all, k, true, x);
    lemma_report_issues(all, k, false, x);
}

/// What precedes the group at `c` in the node around it.
pub open spec fn before_group(t: Seq<Node>, c: int) -> Memory {
    let p = t[c].parent as int;
    memory(t, kids(t, p), tokens_before(t, p, c))
}

proof fn lemma_nested_grows(t: Seq<Node>, g: int, n: nat, m: nat, x: RsxIssueView)
    requires
        n <= m,
        nested(t, g, n).contains(x),
    ensures
        nested(t, g, m).contains(x),
    decreases m,
{
    if n < m {
        lemma_nested_grows(t, g, n, (m - 1) as nat, x);
        let before = nested(t, g, (m - 1) as nat);
        let i = choose|i: int| 0 <= i < before.len() && before[i] == x;
        assert(nested(t, g, m)[i] == x);
    }
}

/// What a group gives is among what the node around it gives.
proof fn lemma_walked_around(
    t: Seq<Node>,
    c: int,
    in_component: bool,
    in_node: bool,
    elem: Option<Seq<char>>,
    x: RsxIssueView,
)
    requires
        t.len() <= usize::MAX,
        token_in(t, t[c].parent as int, c),
        t[c].kind == Kind::TokGroup,
        ({
            let m = before_group(t, c);
            walked(t, c, component_body(m), node_body(t, c, m), element_of(t, c, m)).contains(x)
        }),
    ensures
        walked(t, t[c].parent as int, in_component, in_node, elem).contains(x),
{
    let p = t[c].parent as int;
    let n = tokens_before(t, p, c);
    let mem = before_group(t, c);
    lemma_token_number(t, p, c);
    let inner = walked(t, c, component_body(mem), node_body(t, c, mem), element_of(t, c, mem));
    let before = nested(t, p, n as nat);
    let i = choose|i: int| 0 <= i < inner.len() && inner[i] == x;
    assert((before + inner)[before.len() + i] == x);
    assert(nested(t, p, (n + 1) as nat) == before + inner);
    lemma_nested_grows(t, p, (n + 1) as nat, kids(t, p).len(), x);
    let all = walked(t, p, in_component, in_node, elem);
    let deep = nested(t, p, kids(t, p).len());
    let k = choose|k: int| 0 <= k < deep.len() && deep[k] == x;
    assert(all[all.len() - deep.len() + k] == x);
}

/// What a group inside an `rsx!` gives, the `rsx!` gives.
proof fn lemma_walked_in_macro(t: Seq<Node>, m: int, c: int, x: RsxIssueView)
    requires
        t.len() <= usize::MAX,
        0 <= m,
        token_of(t, m, c),
        t[c].kind == Kind::TokGroup,
        ({
            let mem = before_group(t, c);
            walked(t, c, component_body(mem), node_body(t, c, mem), element_of(t, c, mem)).contains(x)
        }),
    ensures
        walked(t, m, false, true, None).contains(x),
    decreases c,
{
    let p = t[c].parent as int;
    if p == m {
        lemma_walked_around(t, c, false, true, None, x);
    } else {
        let mem = before_group(t, p);
        lemma_walked_around(
            t,
            c,
            component_body(mem),
            node_body(t, p, mem),
            element_of(t, p, mem),
            x,
        );
        lemma_walked_in_macro(t, m, p, x);
    }
}

/// The group at `c` is the body of the element `elem`: braces right behind a name
/// that does not begin with a capital.
pub open spec fn element_body(t: Seq<Node>, c: int, elem: Seq<char>) -> bool {
    let p = t[c].parent as int;
    &&& group_in(t, p, c, "{"@)
    &&& ident_in(t, p, c - 1, elem)
    &&& elem.len() > 0 && !('A' <= elem[0] && elem[0] <= 'Z')
}

proof fn lemma_element_body(t: Seq<Node>, c: int, elem: Seq<char>)
    requires
        t.len() <= usize::MAX,
        element_body(t, c, elem),
    ensures
        ({
            let m = before_group(t, c);
            &&& !component_body(m)
            &&& node_body(t, c, m)
            &&& element_of(t, c, m) == Some(elem)
        }),
{
    let p = t[c].parent as int;
    lemma_token_number(t, p, c - 1);
    lemma_token_number(t, p, c);
}

/// The tokens in `c` are looked at as markup: `c` is the `rsx!` at `m`, or the body
/// of an element somewhere in it.
pub open spec fn markup(t: Seq<Node>, m: int, c: int) -> bool {
    &&& 0 <= m < t.len() && t[m].kind == Kind::Macro && t[m].name@ == "rsx"@
    &&& c == m || (token_of(t, m, c) && exists|elem: Seq<char>| #[trigger] element_body(t, c, elem))
}

proof fn lemma_markup(t: Seq<Node>, m: int, c: int, x: RsxIssueView)
    requires
        t.len() <= usize::MAX,
        markup(t, m, c),
        0 <= c < t.len(),
        gather(0, kids(t, c).len() as int, handler_issue(t, kids(t, c))).contains(x) || gather(
            0,
            kids(t, c).len() as int,
            loop_issue(t, kids(t, c)),
        ).contains(x),
    ensures
        rsx(t, m),
        walked(t, m, false, true, None).contains(x),
{
    let ks = kids(t, c);
    let n = ks.len() as int;
    let elem = choose|elem: Seq<char>| #[trigger] element_body(t, c, elem);
    let e = if c == m {
        None
    } else {
        Some(elem)
    };
    if c != m {
        lemma_element_body(t, c, elem);
    }
    let loops = gather(0, n, loop_issue(t, ks));
    let ambiguous = match e {
        Some(e) => gather(0, n, ambiguous_issue(t, ks, e)),
        None => Seq::empty(),
    };
    let handlers = gather(0, n, handler_issue(t, ks));
    let all = walked(t, c, false, true, e);
    assert(all == loops + ambiguous + handlers + nested(t, c, ks.len()));
    if handlers.contains(x) {
        let i = choose|i: int| 0 <= i < handlers.len() && handlers[i] == x;
        assert(all[loops.len() + ambiguous.len() + i] == x);
    } else {
        let i = choose|i: int| 0 <= i < loops.len() && loops[i] == x;
        assert(all[i] == x);
    }
    if c != m {
        lemma_walked_in_macro(t, m, c, x);
    }
}

/// Node `h` of `c` is a name that begins with `on` and goes on, and a colon follows.
pub open spec fn handler_name(t: Seq<Node>, c: int, h: int) -> bool {
    &&& ident_in(t, c, h, t[h].name@)
    &&& t[h].name@.len() > 2 && t[h].name@[0] == 'o' && t[h].name@[1] == 'n'
    &&& mark_in(t, c, h + 1, ":"@)
}

proof fn lemma_handler(files: Seq<ScannedFile>, k: int, m: int, c: int, h: int, bars: int)
    requires
        0 <= k < files.len(),
        files[k].ast is Ok,
        ({
            let t = files[k].ast->Ok_0@;
            &&& markup(t, m, c)
            &&& handler_name(t, c, h)
            &&& bars == h + 2 || (bars == h + 3 && ident_in(t, c, h + 2, "move"@))
            &&& mark_in(t, c, bars, "|"@) && mark_in(t, c, bars + 1, "|"@)
        }),
    ensures
        ({
            let t = files[k].ast->Ok_0@;
            told(files, k, t[h].line, t[h].column, handler_message(t[h].name@))
        }),
{
    let t = files[k].ast->Ok_0@;
    assert(files[k].ast->Ok_0.len() == t.len());
    let ks = kids(t, c);
    let i = tokens_before(t, c, h);
    let x = issue(t, h, handler_message(t[h].name@));
    lemma_token_number(t, c, h);
    lemma_token_number(t, c, h + 1);
    lemma_token_number(t, c, h + 2);
    lemma_token_number(t, c, bars);
    lemma_token_number(t, c, bars + 1);
    reveal_strlit("on");
    assert(t[h].name@.subrange(0, 2) =~= "on"@);
    assert(handler_issue(t, ks)(i)[0] == x);
    assert(handler_issue(t, ks)(i).contains(x));
    lemma_gather_contains(0, ks.len() as int, handler_issue(t, ks), x);
    lemma_markup(t, m, c, x);
    lemma_told(files, k, m, x);
}

/// In markup, a handler that is a closure without parameters is told at its place:
/// a name that begins with `on`, a colon, and two bars.
pub proof fn law_handler_without_parameters(
    files: Seq<ScannedFile>,
    k: int,
    m: int,
    c: int,
    h: int,
)
    requires
        0 <= k < files.len(),
        files[k].ast is Ok,
        ({
            let t = files[k].ast->Ok_0@;
            &&& markup(t, m, c)
            &&& handler_name(t, c, h)
            &&& mark_in(t, c, h + 2, "|"@) && mark_in(t, c, h + 3, "|"@)
        }),
    ensures
        ({
            let t = files[k].ast->Ok_0@;
            told(
                files,
                k,
                t[h].line,
                t[h].column,
                "`"@ + t[h].name@
                    + "` handler closure takes no parameters; in Dioxus it should accept an Event, e.g. `"@
                    + t[h].name@ + ": move |evt: Event<MouseData>| { ... }`"@,
            )
        }),
{
    lemma_handler(files, k, m, c, h, h + 2);
}

/// So is one whose closure is written with `move`: a name that begins with `on`, a
/// colon, the word `move`, and two bars.
pub proof fn law_moving_handler_without_parameters(
    files: Seq<ScannedFile>,
    k: int,
    m: int,
    c: int,
    h: int,
)
    requires
        0 <= k < files.len(),
        files[k].ast is Ok,
        ({
            let t = files[k].ast->Ok_0@;
            &&& markup(t, m, c)
            &&& handler_name(t, c, h)
            &&& ident_in(t, c, h + 2, "move"@)
            &&& mark_in(t, c, h + 3, "|"@) && mark_in(t, c, h + 4, "|"@)
        }),
    ensures
        ({
            let t = files[k].ast->Ok_0@;
            told(
                files,
                k,
                t[h].line,
                t[h].column,
                "`"@ + t[h].name@
                    + "` handler closure takes no parameters; in Dioxus it should accept an Event, e.g. `"@
                    + t[h].name@ + ": move |evt: Event<MouseData>| { ... }`"@,
            )
        }),
{
    lemma_handler(files, k, m, c, h, h + 3);
}

proof fn lemma_for_body(t: Seq<Node>, g: int, i: int)
    requires
        0 <= i < kids(t, g).len(),
    ensures
        match for_body(t, kids(t, g), i) {
            Some(b) => exists|n: int|
                i < n < kids(t, g).len() && #[trigger] kids(t, g)[n] == b && group(t, b, "{"@)
                    && forall|y: int|
                    i < y < n ==> !group(t, #[trigger] kids(t, g)[y] as int, "{"@),
            None => forall|y: int|
                i < y < kids(t, g).len() ==> !group(t, #[trigger] kids(t, g)[y] as int, "{"@),
        },
    decreases kids(t, g).len() - i,
{
    let ks = kids(t, g);
    if i + 1 < ks.len() {
        if group(t, ks[i + 1] as int, "{"@) {
            assert(ks[i + 1] == for_body(t, ks, i)->0);
        } else {
            lemma_for_body(t, g, i + 1);
            match for_body(t, ks, i + 1) {
                Some(b) => {
                    let n = choose|n: int|
                        i + 1 < n < ks.len() && #[trigger] ks[n] == b && group(t, b, "{"@)
                            && forall|y: int|
                            i + 1 < y < n ==> !group(t, #[trigger] ks[y] as int, "{"@);
                    assert(ks[n] == b);
                },
                None => {},
            }
        }
    }
}

/// Node `y` is the word `key`, and a colon follows in the same group.
pub open spec fn keeps_key(t: Seq<Node>, y: int) -> bool {
    &&& t[y].kind == Kind::TokIdent && t[y].name@ == "key"@
    &&& y + 1 < t.len() && t[y + 1].parent == t[y].parent && t[y + 1].kind == Kind::TokPunct
        && t[y + 1].name@ == ":"@
}

/// In markup, a `for` is told at its place where nowhere in the next braces behind
/// it the word `key` stands before a colon.
pub proof fn law_loop_without_key(
    files: Seq<ScannedFile>,
    k: int,
    m: int,
    c: int,
    w: int,
    b: int,
)
    requires
        0 <= k < files.len(),
        files[k].ast is Ok,
        ({
            let t = files[k].ast->Ok_0@;
            &&& markup(t, m, c)
            &&& ident_in(t, c, w, "for"@)
            &&& w < b && group_in(t, c, b, "{"@) && b < t[b].end <= t.len()
            &&& forall|y: int| w < y < b ==> !#[trigger] group_in(t, c, y, "{"@)
            &&& forall|y: int| #[trigger] under(t, b, y) ==> !keeps_key(t, y)
        }),
    ensures
        ({
            let t = files[k].ast->Ok_0@;
            told(
                files,
                k,
                t[w].line,
                t[w].column,
                "loop in rsx! is missing a `key: ...` attribute on its child element — Dioxus needs keys for stable diffing"@,
            )
        }),
{
    let t = files[k].ast->Ok_0@;
    assert(files[k].ast->Ok_0.len() == t.len());
    let ks = kids(t, c);
    let i = tokens_before(t, c, w);
    let x = issue(t, w, key_message());
    lemma_token_number(t, c, w);
    lemma_token_number(t, c, b);
    lemma_numbers_grow(t, c, w + 1, b);
    let nb = tokens_before(t, c, b);
    lemma_for_body(t, c, i);
    assert(group(t, ks[nb] as int, "{"@));
    assert(for_body(t, ks, i) == Some(b)) by {
        let found = for_body(t, ks, i)->0;
        let n = choose|n: int|
            i < n < ks.len() && #[trigger] ks[n] == found && group(t, found, "{"@) && forall|y: int|
                i < y < n ==> !group(t, #[trigger] ks[y] as int, "{"@);
        if n < nb {
            lemma_numbered(t, c, n);
            if found <= w {
                lemma_numbers_grow(t, c, found, w);
            }
            if b <= found {
                lemma_numbers_grow(t, c, b, found);
            }
            assert(group_in(t, c, found, "{"@));
        }
    }
    assert(!keyed(t, b)) by {
        if keyed(t, b) {
            let y = choose|y: int| b < y < stop(t, b) && key_attr(t, y);
            assert(under(t, b, y));
        }
    }
    assert(loop_issue(t, ks)(i)[0] == x);
    assert(loop_issue(t, ks)(i).contains(x));
    lemma_gather_contains(0, ks.len() as int, loop_issue(t, ks), x);
    lemma_markup(t, m, c, x);
    lemma_told(files, k, m, x);
}

/// In the body of an `input`, a `button`, a `textarea` or a `select`, the attribute
/// `autofocus` is told at its place.
pub proof fn law_ambiguous_attribute(
    files: Seq<ScannedFile>,
    k: int,
    m: int,
    c: int,
    elem: Seq<char>,
    h: int,
)
    requires
        0 <= k < files.len(),
        files[k].ast is Ok,
        elem == "input"@ || elem == "button"@ || elem == "textarea"@ || elem == "select"@,
        ({
            let t = files[k].ast->Ok_0@;
            &&& 0 <= m < t.len() && t[m].kind == Kind::Macro && t[m].name@ == "rsx"@
            &&& token_of(t, m, c) && element_body(t, c, elem)
            &&& ident_in(t, c, h, "autofocus"@) && mark_in(t, c, h + 1, ":"@)
        }),
    ensures
        ({
            let t = files[k].ast->Ok_0@;
            exists|x: RsxIssueView| #[trigger]
                swept(files).issues.contains(x) && x.line == t[h].line && x.column == t[h].column
                    && x.file == Some(files[k].path@) && begins(
                    x.message,
                    "`"@ + "autofocus"@ + "` on `"@ + elem + "` is ambiguous: "@,
                )
        }),
{
    let t = files[k].ast->Ok_0@;
    assert(files[k].ast->Ok_0.len() == t.len());
    let ks = kids(t, c);
    let n = ks.len() as int;
    let i = tokens_before(t, c, h);
    let x = issue(t, h, ambiguous_message("autofocus"@, elem));
    lemma_token_number(t, c, h);
    lemma_token_number(t, c, h + 1);
    lemma_element_body(t, c, elem);
    assert(ambiguous_issue(t, ks, elem)(i)[0] == x);
    assert(ambiguous_issue(t, ks, elem)(i).contains(x));
    lemma_gather_contains(0, n, ambiguous_issue(t, ks, elem), x);
    let loops = gather(0, n, loop_issue(t, ks));
    let ambiguous = gather(0, n, ambiguous_issue(t, ks, elem));
    let all = walked(t, c, false, true, Some(elem));
    let y = choose|y: int| 0 <= y < ambiguous.len() && ambiguous[y] == x;
    assert(all[loops.len() + y] == x);
    lemma_walked_in_macro(t, m, c, x);
    assert(rsx(t, m));
    lemma_told(files, k, m, x);
    let head = "`"@ + "autofocus"@ + "` on `"@ + elem + "` is ambiguous: "@;
    reveal_strlit("` is ambiguous: ");
    reveal_strlit("` is ambiguous: both `GlobalAttributesExtension` and `");
    assert("` is ambiguous: both `GlobalAttributesExtension` and `"@.subrange(0, 16)
        =~= "` is ambiguous: "@);
    assert(x.message.subrange(0, head.len() as int) =~= head);
}

} // verus!
