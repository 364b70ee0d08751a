//! Files of a project, and what most lints ask of them.
use vstd::prelude::*;

use crate::layout::tree;
use crate::lower::{outcome, parse_source, parsed, Fault};
use crate::order::{gather, only_if, put};
use crate::tape::{operand, operand_of, stop, stop_of, Kind, Node};
use crate::text::{owned, same};

verus! {

/// A file and what became of parsing it.
#[derive(Debug)]
pub struct ScannedFile {
    pub path: String,
    pub ast: Result<Vec<Node>, Fault>,
}

/// A file that did not parse.
#[derive(Debug)]
pub struct ParseError {
    pub file: String,
    pub line: usize,
    pub column: usize,
    pub message: String,
}

pub ghost struct ParseErrorView {
    pub file: Seq<char>,
    pub line: usize,
    pub column: usize,
    pub message: Seq<char>,
}

impl DeepView for ParseError {
    type V = ParseErrorView;

    open spec fn deep_view(&self) -> ParseErrorView {
        ParseErrorView {
            file: self.file@,
            line: self.line,
            column: self.column,
            message: self.message@,
        }
    }
}

/// Parses the text of the file at `path`.
pub fn scan_source(path: &str, text: &str) -> (r: ScannedFile)
    ensures
        r.path@ == path@,
        outcome(r.ast) == parsed(text@),
        r.ast matches Ok(t) ==> tree(t.deep_view()),
{
    ScannedFile { path: owned(path), ast: parse_source(text) }
}

pub open spec fn parse_error(files: Seq<ScannedFile>) -> spec_fn(int) -> Seq<ParseErrorView> {
    |k: int|
        match files[k].ast {
            Ok(_) => Seq::empty(),
            Err(f) => seq![
                ParseErrorView {
                    file: files[k].path@,
                    line: f.line,
                    column: f.column,
                    message: f.message@,
                },
            ],
        }
}

/// One entry for each file that did not parse, in the order of the files.
pub open spec fn parse_errors(files: Seq<ScannedFile>) -> Seq<ParseErrorView> {
    gather(0, files.len() as int, parse_error(files))
}

pub fn collect_parse_errors(files: &Vec<ScannedFile>) -> (r: Vec<ParseError>)
    ensures
        r.deep_view() == parse_errors(files@),
{
    let mut out: Vec<ParseError> = Vec::new();
    let mut k: usize = 0;
    while k < files.len()
        invariant
            k <= files.len(),
            out.deep_view() == gather(0, k as int, parse_error(files@)),
        decreases files.len() - k,
    {
        match &files[k].ast {
            Ok(_) => {},
            Err(f) => {
                put(
                    &mut out,
                    ParseError {
                        file: owned(files[k].path.as_str()),
                        line: f.line,
                        column: f.column,
                        message: owned(f.message.as_str()),
                    },
                );
            },
        }
        k += 1;
    }
    out
}

// ---------------------------------------------------------------------------
// Inside
// ---------------------------------------------------------------------------

/// The furthest that a subtree reaches whose root satisfies `p` and stands at
/// `lo` or later, but before `hi`; `lo` if there is none.
pub open spec fn reach(t: Seq<Node>, lo: int, hi: int, p: spec_fn(int) -> bool) -> int
    decreases hi - lo,
{
    if hi <= lo {
        lo
    } else {
        let before = reach(t, lo, hi - 1, p);
        if p(hi - 1) && stop(t, hi - 1) > before {
            stop(t, hi - 1)
        } else {
            before
        }
    }
}

/// Node `i` stands inside a subtree whose root satisfies `p` and stands at `lo`
/// or later.
pub open spec fn inside(t: Seq<Node>, lo: int, i: int, p: spec_fn(int) -> bool) -> bool {
    i < reach(t, lo, i, p)
}

/// A node is inside exactly if there is such a root before it whose subtree has
/// not ended.
pub proof fn lemma_inside(t: Seq<Node>, lo: int, hi: int, i: int, p: spec_fn(int) -> bool)
    requires
        lo <= hi <= i,
    ensures
        i < reach(t, lo, hi, p) <==> exists|m: int| lo <= m < hi && #[trigger] p(m) && stop(t, m) > i,
    decreases hi - lo,
{
    if lo < hi {
        lemma_inside(t, lo, hi - 1, i, p);
        if p(hi - 1) && stop(t, hi - 1) > i {
            assert(p(hi - 1));
        }
    }
}

// ---------------------------------------------------------------------------
// Functions and components
// ---------------------------------------------------------------------------

/// Node `j` is an attribute of node `i` whose path ends in `name`.
pub open spec fn attr_at(t: Seq<Node>, i: int, j: int, name: Seq<char>) -> bool {
    t[j].kind == Kind::Attr && t[j].parent == i && t[j].name@ == name
}

/// Node `i` has an attribute whose path ends in `name`.
pub open spec fn attributed(t: Seq<Node>, i: int, name: Seq<char>) -> bool {
    exists|j: int| i < j < stop(t, i) && attr_at(t, i, j, name)
}

pub fn has_attr(t: &Vec<Node>, i: usize, name: &str) -> (r: bool)
    requires
        i < t.len(),
    ensures
        r == attributed(t@, i as int, name@),
{
    let end = stop_of(t, i);
    let mut j: usize = i + 1;
    while j < end
        invariant
            i < j <= end <= t.len(),
            end == stop(t@, i as int),
            forall|k: int| i < k < j ==> !attr_at(t@, i as int, k, name@),
        decreases end - j,
    {
        if t[j].kind == Kind::Attr && t[j].parent == i && same(t[j].name.as_str(), name) {
            assert(attr_at(t@, i as int, j as int, name@));
            return true;
        }
        j += 1;
    }
    false
}

/// Node `i` is a function at the top level of its file.
pub open spec fn top_fn(t: Seq<Node>, i: int) -> bool {
    t[i].kind == Kind::Fn && t[i].parent == 0 && i > 0
}

/// Node `i` is a function at the top level with the attribute `component`.
pub open spec fn component(t: Seq<Node>, i: int) -> bool {
    top_fn(t, i) && attributed(t, i, "component"@)
}

pub fn is_component(t: &Vec<Node>, i: usize) -> (r: bool)
    requires
        i < t.len(),
    ensures
        r == component(t@, i as int),
{
    t[i].kind == Kind::Fn && t[i].parent == 0 && i > 0 && has_attr(t, i, "component")
}

/// Node `i` is a function at the top level that the server runs: it has the
/// attribute `server` or one named after a verb of HTTP.
pub open spec fn server_fn(t: Seq<Node>, i: int) -> bool {
    top_fn(t, i) && server_attributed(t, i)
}

pub open spec fn server_attributed(t: Seq<Node>, i: int) -> bool {
    attributed(t, i, "server"@) || attributed(t, i, "get"@) || attributed(t, i, "post"@)
        || attributed(t, i, "put"@) || attributed(t, i, "delete"@) || attributed(t, i, "patch"@)
}

pub fn has_server_attr(t: &Vec<Node>, i: usize) -> (r: bool)
    requires
        i < t.len(),
    ensures
        r == server_attributed(t@, i as int),
{
    has_attr(t, i, "server") || has_attr(t, i, "get") || has_attr(t, i, "post") || has_attr(
        t,
        i,
        "put",
    ) || has_attr(t, i, "delete") || has_attr(t, i, "patch")
}

pub fn is_server_fn(t: &Vec<Node>, i: usize) -> (r: bool)
    requires
        i < t.len(),
    ensures
        r == server_fn(t@, i as int),
{
    t[i].kind == Kind::Fn && t[i].parent == 0 && i > 0 && has_server_attr(t, i)
}

/// The body of the function at `i`.
pub open spec fn body(t: Seq<Node>, i: int) -> Option<int> {
    operand(t, i, (t[i].count + 1) as nat)
}

/// The span of nodes that a function's body takes: empty if it has none.
pub open spec fn body_start(t: Seq<Node>, i: int) -> int {
    match body(t, i) {
        Some(b) => b,
        None => i,
    }
}

pub open spec fn body_end(t: Seq<Node>, i: int) -> int {
    match body(t, i) {
        Some(b) => stop(t, b),
        None => i,
    }
}

/// The first position of the body of the function at `i`, and the position
/// after it.
pub fn body_of(t: &Vec<Node>, i: usize) -> (r: (usize, usize))
    requires
        i < t.len(),
    ensures
        r.0 == body_start(t@, i as int),
        r.1 == body_end(t@, i as int),
        i <= r.0 <= r.1 <= t.len(),
        r.0 < t.len(),
{
    if t[i].count == usize::MAX {
        proof {
            crate::tape::lemma_hop_count(
                t@,
                t[i as int].first as int,
                (usize::MAX + 1) as nat,
                stop(t@, i as int),
            );
        }
        return (i, i);
    }
    match operand_of(t, i, t[i].count + 1) {
        Some(b) => (b, stop_of(t, b)),
        None => (i, i),
    }
}

/// Node `m` runs asynchronously: an `async` function, block or closure.
pub open spec fn asynchronous(t: Seq<Node>, m: int) -> bool {
    ||| t[m].kind == Kind::Async
    ||| (t[m].kind == Kind::Fn || t[m].kind == Kind::Method || t[m].kind == Kind::Closure)
        && t[m].flag
}

pub open spec fn asynchronous_at(t: Seq<Node>) -> spec_fn(int) -> bool {
    |m: int| asynchronous(t, m)
}

pub fn is_asynchronous(t: &Vec<Node>, m: usize) -> (r: bool)
    requires
        m < t.len(),
    ensures
        r == asynchronous(t@, m as int),
{
    t[m].kind == Kind::Async || ((t[m].kind == Kind::Fn || t[m].kind == Kind::Method
        || t[m].kind == Kind::Closure) && t[m].flag)
}

// ---------------------------------------------------------------------------
// Macros and tokens
// ---------------------------------------------------------------------------

/// Node `m` is a call of the macro `rsx`.
pub open spec fn rsx(t: Seq<Node>, m: int) -> bool {
    t[m].kind == Kind::Macro && t[m].name@ == "rsx"@
}

pub open spec fn rsx_at(t: Seq<Node>) -> spec_fn(int) -> bool {
    |m: int| rsx(t, m)
}

pub fn is_rsx(t: &Vec<Node>, m: usize) -> (r: bool)
    requires
        m < t.len(),
    ensures
        r == rsx(t@, m as int),
{
    t[m].kind == Kind::Macro && same(t[m].name.as_str(), "rsx")
}

pub open spec fn token(kind: Kind) -> bool {
    kind == Kind::TokIdent || kind == Kind::TokPunct || kind == Kind::TokLit || kind
        == Kind::TokGroup
}

pub open spec fn kid_at(t: Seq<Node>, g: int) -> spec_fn(int) -> Seq<usize> {
    |j: int| only_if(t[j].parent == g && token(t[j].kind), j as usize)
}

/// The tokens that stand directly in the macro or group at `g`, in order.
pub open spec fn kids(t: Seq<Node>, g: int) -> Seq<usize> {
    gather(g + 1, stop(t, g), kid_at(t, g))
}

pub fn kids_of(t: &Vec<Node>, g: usize) -> (r: Vec<usize>)
    requires
        g < t.len(),
    ensures
        r@ == kids(t@, g as int),
        forall|k: int| 0 <= k < r.len() ==> g < #[trigger] r[k] < stop(t@, g as int),
{
    let end = stop_of(t, g);
    let mut out: Vec<usize> = Vec::new();
    let mut j: usize = g + 1;
    while j < end
        invariant
            g < j <= end <= t.len(),
            end == stop(t@, g as int),
            out@ == gather(g + 1, j as int, kid_at(t@, g as int)),
            forall|k: int| 0 <= k < out.len() ==> g < #[trigger] out[k] < end,
        decreases end - j,
    {
        if t[j].parent == g && (t[j].kind == Kind::TokIdent || t[j].kind == Kind::TokPunct
            || t[j].kind == Kind::TokLit || t[j].kind == Kind::TokGroup) {
            out.push(j);
        }
        j += 1;
    }
    out
}

/// Token `j` is the identifier `name`.
pub open spec fn word(t: Seq<Node>, j: int, name: Seq<char>) -> bool {
    t[j].kind == Kind::TokIdent && t[j].name@ == name
}

pub fn is_word(t: &Vec<Node>, j: usize, name: &str) -> (r: bool)
    requires
        j < t.len(),
    ensures
        r == word(t@, j as int, name@),
{
    t[j].kind == Kind::TokIdent && same(t[j].name.as_str(), name)
}

/// Token `j` is the punctuation mark `mark`.
pub open spec fn punct(t: Seq<Node>, j: int, mark: Seq<char>) -> bool {
    t[j].kind == Kind::TokPunct && t[j].name@ == mark
}

pub fn is_punct(t: &Vec<Node>, j: usize, mark: &str) -> (r: bool)
    requires
        j < t.len(),
    ensures
        r == punct(t@, j as int, mark@),
{
    t[j].kind == Kind::TokPunct && same(t[j].name.as_str(), mark)
}

pub fn is_group(t: &Vec<Node>, j: usize, open: &str) -> (r: bool)
    requires
        j < t.len(),
    ensures
        r == group(t@, j as int, open@),
{
    t[j].kind == Kind::TokGroup && same(t[j].name.as_str(), open)
}

/// Token `j` is a group that opens with `open`.
pub open spec fn group(t: Seq<Node>, j: int, open: Seq<char>) -> bool {
    t[j].kind == Kind::TokGroup && t[j].name@ == open
}

/// The token after the leaf `j` is a group that opens with `open`.
pub open spec fn then_group(t: Seq<Node>, j: int, open: Seq<char>) -> bool {
    j + 1 < t.len() && t[j + 1].parent == t[j].parent && group(t, j + 1, open)
}

pub fn is_then_group(t: &Vec<Node>, j: usize, open: &str) -> (r: bool)
    requires
        j < t.len(),
    ensures
        r == then_group(t@, j as int, open@),
{
    j + 1 < t.len() && t[j + 1].parent == t[j].parent && t[j + 1].kind == Kind::TokGroup && same(
        t[j + 1].name.as_str(),
        open,
    )
}

// ---------------------------------------------------------------------------
// Patterns and paths
// ---------------------------------------------------------------------------

/// The name that a pattern binds, if it is an identifier, with or without a type.
pub open spec fn pat_name(t: Seq<Node>, i: int) -> Option<Seq<char>> {
    if t[i].kind == Kind::PatIdent {
        Some(t[i].name@)
    } else if t[i].kind == Kind::PatType {
        match operand(t, i, 0) {
            Some(p) => if t[p].kind == Kind::PatIdent {
                Some(t[p].name@)
            } else {
                None
            },
            None => None,
        }
    } else {
        None
    }
}

pub fn pat_name_of(t: &Vec<Node>, i: usize) -> (r: Option<String>)
    requires
        i < t.len(),
    ensures
        r.deep_view() == pat_name(t@, i as int),
{
    if t[i].kind == Kind::PatIdent {
        Some(owned(t[i].name.as_str()))
    } else if t[i].kind == Kind::PatType {
        match operand_of(t, i, 0) {
            Some(p) => if t[p].kind == Kind::PatIdent {
                Some(owned(t[p].name.as_str()))
            } else {
                None
            },
            None => None,
        }
    } else {
        None
    }
}

/// Node `i` is a path of one identifier, written without `::` before it.
pub open spec fn bare(t: Seq<Node>, i: int) -> bool {
    t[i].kind == Kind::Path && t[i].count == 1 && !t[i].flag && !t[i].mark
}

pub fn is_bare(t: &Vec<Node>, i: usize) -> (r: bool)
    requires
        i < t.len(),
    ensures
        r == bare(t@, i as int),
{
    t[i].kind == Kind::Path && t[i].count == 1 && !t[i].flag && !t[i].mark
}

/// The name of node `i` if it is a bare identifier.
pub open spec fn ident(t: Seq<Node>, i: int) -> Option<Seq<char>> {
    if bare(t, i) {
        Some(t[i].name@)
    } else {
        None
    }
}

/// Operand `k` of node `i` is a bare identifier, and this is its name.
pub open spec fn operand_ident(t: Seq<Node>, i: int, k: nat) -> Option<Seq<char>> {
    match operand(t, i, k) {
        Some(p) => ident(t, p),
        None => None,
    }
}

pub fn operand_ident_of(t: &Vec<Node>, i: usize, k: usize) -> (r: Option<String>)
    requires
        i < t.len(),
    ensures
        r.deep_view() == operand_ident(t@, i as int, k as nat),
{
    match operand_of(t, i, k) {
        Some(p) => if is_bare(t, p) {
            Some(owned(t[p].name.as_str()))
        } else {
            None
        },
        None => None,
    }
}

/// The last segment of the path that node `i` calls, if it is such a call.
pub open spec fn call_tail(t: Seq<Node>, i: int) -> Option<Seq<char>> {
    if t[i].kind == Kind::Call {
        match operand(t, i, 0) {
            Some(f) => if t[f].kind == Kind::Path {
                Some(t[f].name@)
            } else {
                None
            },
            None => None,
        }
    } else {
        None
    }
}

pub fn call_tail_of(t: &Vec<Node>, i: usize) -> (r: Option<String>)
    requires
        i < t.len(),
    ensures
        r.deep_view() == call_tail(t@, i as int),
{
    if t[i].kind == Kind::Call {
        match operand_of(t, i, 0) {
            Some(f) => if t[f].kind == Kind::Path {
                Some(owned(t[f].name.as_str()))
            } else {
                None
            },
            None => None,
        }
    } else {
        None
    }
}

/// `name` is one of the operators that change their left side.
pub open spec fn compound(name: Seq<char>) -> bool {
    ||| name == "+="@
    ||| name == "-="@
    ||| name == "*="@
    ||| name == "/="@
    ||| name == "%="@
    ||| name == "^="@
    ||| name == "&="@
    ||| name == "|="@
    ||| name == "<<="@
    ||| name == ">>="@
}

pub fn is_compound(name: &str) -> (r: bool)
    ensures
        r == compound(name@),
{
    same(name, "+=") || same(name, "-=") || same(name, "*=") || same(name, "/=") || same(name, "%=")
        || same(name, "^=") || same(name, "&=") || same(name, "|=") || same(name, "<<=") || same(
        name,
        ">>=",
    )
}

} // verus!
