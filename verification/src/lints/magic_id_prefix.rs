//! `magic_id_prefix_for_optimistic`: flag ids that carry a marker in a prefix.
//!
//! The sites are `x.id.starts_with("tmp-")`, which reads the marker, and
//! `format!("tmp-{}", ..)`, which writes it. A real id with that prefix would be
//! taken for a placeholder.
use vstd::prelude::*;

use crate::literal::{quote, strip_str_literal};
use crate::order::{
    gather, lemma_gather_contains, lemma_sorted_contains, lemma_text_le, put, put_all, rank, sort,
    sorted, text_le, text_leq, Ranked,
};
use crate::paths::{is_same_path, lemma_path_le, path_le, path_leq, same_path};
use crate::scan::{ParseError, ParseErrorView, ScannedFile, collect_parse_errors, parse_errors};
use crate::tape::{Kind, Node, lemma_operand_bounds, operand, operand_of, stop, stop_of};
use crate::text::{begins, debug, debug_text, owned, same, starts_with};

verus! {

#[derive(Debug)]
pub struct MagicIdPrefixParams {
    pub project_root: Option<String>,
}

pub ghost struct MagicIdPrefixParamsView {
    pub project_root: Option<Seq<char>>,
}

impl DeepView for MagicIdPrefixParams {
    type V = MagicIdPrefixParamsView;

    open spec fn deep_view(&self) -> MagicIdPrefixParamsView {
        MagicIdPrefixParamsView {
            project_root: self.project_root.deep_view(),
        }
    }
}

#[derive(Debug)]
pub struct MagicIdFinding {
    pub code: &'static str,
    pub severity: &'static str,
    pub confidence: &'static str,
    pub file: String,
    pub line: usize,
    /// `read` or `write`.
    pub kind: &'static str,
    pub placeholder: String,
    pub message: String,
    pub fix: String,
}

pub ghost struct MagicIdFindingView {
    pub code: Seq<char>,
    pub severity: Seq<char>,
    pub confidence: Seq<char>,
    pub file: Seq<char>,
    pub line: usize,
    pub kind: Seq<char>,
    pub placeholder: Seq<char>,
    pub message: Seq<char>,
    pub fix: Seq<char>,
}

impl DeepView for MagicIdFinding {
    type V = MagicIdFindingView;

    open spec fn deep_view(&self) -> MagicIdFindingView {
        MagicIdFindingView {
            code: self.code@,
            severity: self.severity@,
            confidence: self.confidence@,
            file: self.file@,
            line: self.line,
            kind: self.kind@,
            placeholder: self.placeholder@,
            message: self.message@,
            fix: self.fix@,
        }
    }
}

#[derive(Debug)]
pub struct MagicIdPrefixReport {
    pub findings: Vec<MagicIdFinding>,
    pub parse_errors: Vec<ParseError>,
}

pub ghost struct MagicIdPrefixReportView {
    pub findings: Seq<MagicIdFindingView>,
    pub parse_errors: Seq<ParseErrorView>,
}

impl DeepView for MagicIdPrefixReport {
    type V = MagicIdPrefixReportView;

    open spec fn deep_view(&self) -> MagicIdPrefixReportView {
        MagicIdPrefixReportView {
            findings: self.findings.deep_view(),
            parse_errors: self.parse_errors.deep_view(),
        }
    }
}

impl Ranked for MagicIdFinding {
    /// By file, then by line, then by kind.
    open spec fn le(a: MagicIdFindingView, b: MagicIdFindingView) -> bool {
        if !same_path(a.file, b.file) {
            path_le(a.file, b.file)
        } else if a.line != b.line {
            a.line < b.line
        } else {
            text_le(a.kind, b.kind)
        }
    }

    proof fn ordered(a: MagicIdFindingView, b: MagicIdFindingView, c: MagicIdFindingView) {
        lemma_path_le(a.file, b.file, c.file);
        lemma_text_le(a.kind, b.kind, c.kind);
    }

    fn leq(&self, other: &Self) -> (r: bool) {
        if !is_same_path(self.file.as_str(), other.file.as_str()) {
            path_leq(self.file.as_str(), other.file.as_str())
        } else if self.line != other.line {
            self.line < other.line
        } else {
            text_leq(self.kind, other.kind)
        }
    }
}

/// `name` is a prefix that marks a row the server has not confirmed.
pub open spec fn placeholder(name: Seq<char>) -> bool {
    ||| name == "tmp-"@
    ||| name == "tmp_"@
    ||| name == "temp-"@
    ||| name == "temp_"@
    ||| name == "pending-"@
    ||| name == "local-"@
}

pub fn matches_placeholder(name: &str) -> (r: bool)
    ensures
        r == placeholder(name@),
{
    same(name, "tmp-")
        || same(name, "tmp_")
        || same(name, "temp-")
        || same(name, "temp_")
        || same(name, "pending-")
        || same(name, "local-")
}

/// The placeholder that `s` starts with.
pub open spec fn leading(s: Seq<char>) -> Option<Seq<char>> {
    if begins(s, "tmp-"@) {
        Some("tmp-"@)
    } else if begins(s, "tmp_"@) {
        Some("tmp_"@)
    } else if begins(s, "temp-"@) {
        Some("temp-"@)
    } else if begins(s, "temp_"@) {
        Some("temp_"@)
    } else if begins(s, "pending-"@) {
        Some("pending-"@)
    } else if begins(s, "local-"@) {
        Some("local-"@)
    } else {
        None
    }
}

pub fn placeholder_at_start(s: &str) -> (r: Option<&'static str>)
    ensures
        r.deep_view() == leading(s@),
{
    if starts_with(s, "tmp-") {
        Some("tmp-")
    } else if starts_with(s, "tmp_") {
        Some("tmp_")
    } else if starts_with(s, "temp-") {
        Some("temp-")
    } else if starts_with(s, "temp_") {
        Some("temp_")
    } else if starts_with(s, "pending-") {
        Some("pending-")
    } else if starts_with(s, "local-") {
        Some("local-")
    } else {
        None
    }
}

pub open spec fn read_message(prefix: Seq<char>) -> Seq<char> {
    "`.id.starts_with("@
        + prefix
        + ")` branches on a magic prefix to detect a client-side optimistic placeholder. A real id that happens to start with "@
        + prefix
        + " is silently mis-classified — that's a correctness bug, not just a smell."@
}

fn read_message_of(prefix: &str) -> (r: String)
    ensures
        r@ == read_message(prefix@),
{
    let mut s = owned("`.id.starts_with(");
    s.append(prefix);
    s.append(")` branches on a magic prefix to detect a client-side optimistic placeholder. A real id that happens to start with ");
    s.append(prefix);
    s.append(" is silently mis-classified — that's a correctness bug, not just a smell.");
    s
}

pub open spec fn read_fix() -> Seq<char> {
    "Add a typed marker: `pending: bool` on the model (set true on optimistic insert, false / removed on server confirm), or maintain a sidecar signal `pending: HashSet<Id>` so the consumer reads `pending.contains(&card.id)` instead of a string match."@
}

fn read_fix_of() -> (r: String)
    ensures
        r@ == read_fix(),
{
    let s = owned("Add a typed marker: `pending: bool` on the model (set true on optimistic insert, false / removed on server confirm), or maintain a sidecar signal `pending: HashSet<Id>` so the consumer reads `pending.contains(&card.id)` instead of a string match.");
    s
}

pub open spec fn write_message(prefix: Seq<char>) -> Seq<char> {
    "`format!("@
        + prefix
        + ", …)` forges an ID with a magic prefix to mark an optimistic placeholder. The downstream consumer ends up branching on the prefix string."@
}

fn write_message_of(prefix: &str) -> (r: String)
    ensures
        r@ == write_message(prefix@),
{
    let mut s = owned("`format!(");
    s.append(prefix);
    s.append(", …)` forges an ID with a magic prefix to mark an optimistic placeholder. The downstream consumer ends up branching on the prefix string.");
    s
}

pub open spec fn write_fix() -> Seq<char> {
    "Construct the row with `id` empty (or a stable client UUID) and a separate `pending: true` field; or hold optimistic rows in a sidecar signal keyed by client UUID and merge them with the server-confirmed list at render time."@
}

fn write_fix_of() -> (r: String)
    ensures
        r@ == write_fix(),
{
    let s = owned("Construct the row with `id` empty (or a stable client UUID) and a separate `pending: true` field; or hold optimistic rows in a sidecar signal keyed by client UUID and merge them with the server-confirmed list at render time.");
    s
}

// ---------------------------------------------------------------------------
// Sites
// ---------------------------------------------------------------------------

/// The expression at `e` reads a field `id`, possibly through references,
/// parentheses and further method calls.
pub open spec fn ends_in_id(t: Seq<Node>, e: int) -> bool
    decreases t.len() - e,
{
    if !(0 <= e < t.len()) {
        false
    } else if t[e].kind == Kind::FieldAccess {
        t[e].flag && t[e].name@ == "id"@
    } else if t[e].kind == Kind::Reference || t[e].kind == Kind::Paren || t[e].kind
        == Kind::MethodCall {
        proof {
            lemma_operand_bounds(t, e, 0);
        }
        match operand(t, e, 0) {
            Some(p) => ends_in_id(t, p),
            None => false,
        }
    } else {
        false
    }
}

pub fn receiver_ends_in_id(t: &Vec<Node>, e: usize) -> (r: bool)
    requires
        e < t.len(),
    ensures
        r == ends_in_id(t@, e as int),
{
    let mut at: usize = e;
    while t[at].kind == Kind::Reference || t[at].kind == Kind::Paren || t[at].kind
        == Kind::MethodCall
        invariant
            at < t.len(),
            ends_in_id(t@, e as int) == ends_in_id(t@, at as int),
        decreases t.len() - at,
    {
        match operand_of(t, at, 0) {
            Some(p) => at = p,
            None => return false,
        }
    }
    t[at].kind == Kind::FieldAccess && t[at].flag && same(t[at].name.as_str(), "id")
}

/// The placeholder that the method call at `j` compares an `id` with.
pub open spec fn read_prefix(t: Seq<Node>, j: int) -> Option<Seq<char>> {
    if t[j].kind == Kind::MethodCall && t[j].name@ == "starts_with"@ {
        match (operand(t, j, 0), operand(t, j, 1)) {
            (Some(e), Some(a)) => if t[a].kind == Kind::Str && placeholder(t[a].name@)
                && ends_in_id(t, e) {
                Some(t[a].name@)
            } else {
                None
            },
            _ => None,
        }
    } else {
        None
    }
}

fn read_prefix_of(t: &Vec<Node>, j: usize) -> (r: Option<String>)
    requires
        j < t.len(),
    ensures
        r.deep_view() == read_prefix(t@, j as int),
{
    if t[j].kind != Kind::MethodCall || !same(t[j].name.as_str(), "starts_with") {
        return None;
    }
    match (operand_of(t, j, 0), operand_of(t, j, 1)) {
        (Some(e), Some(a)) => if t[a].kind == Kind::Str && matches_placeholder(t[a].name.as_str())
            && receiver_ends_in_id(t, e) {
            Some(owned(t[a].name.as_str()))
        } else {
            None
        },
        _ => None,
    }
}

/// The first string that stands directly in the macro at `m`, before `hi`,
/// without its quotes.
pub open spec fn first_string(t: Seq<Node>, m: int, hi: int) -> Option<Seq<char>>
    decreases hi - m,
{
    if hi <= m {
        None
    } else {
        match first_string(t, m, hi - 1) {
            Some(s) => Some(s),
            None => {
                let n = t[hi - 1];
                if n.kind == Kind::TokLit && n.parent == m {
                    quote(n.name@)
                } else {
                    None
                }
            },
        }
    }
}

pub fn first_str_lit_in_macro(t: &Vec<Node>, m: usize) -> (r: Option<String>)
    requires
        m < t.len(),
    ensures
        r.deep_view() == first_string(t@, m as int, stop(t@, m as int)),
{
    let end = stop_of(t, m);
    let mut found: Option<String> = None;
    let mut j: usize = m;
    while j < end
        invariant
            m <= j <= end <= t.len(),
            found.deep_view() == first_string(t@, m as int, j as int),
        decreases end - j,
    {
        if found.is_none() && t[j].kind == Kind::TokLit && t[j].parent == m {
            found = strip_str_literal(t[j].name.as_str());
        }
        j += 1;
    }
    found
}

/// The string that the macro call at `j` formats.
pub open spec fn formatted(t: Seq<Node>, j: int) -> Option<Seq<char>> {
    if t[j].kind == Kind::Macro && t[j].flag && (t[j].name@ == "format"@ || t[j].name@
        == "format_args"@) {
        first_string(t, j, stop(t, j))
    } else {
        None
    }
}

fn formatted_of(t: &Vec<Node>, j: usize) -> (r: Option<String>)
    requires
        j < t.len(),
    ensures
        r.deep_view() == formatted(t@, j as int),
{
    if t[j].kind == Kind::Macro && t[j].flag && (same(t[j].name.as_str(), "format") || same(
        t[j].name.as_str(),
        "format_args",
    )) {
        first_str_lit_in_macro(t, j)
    } else {
        None
    }
}

// ---------------------------------------------------------------------------
// Findings
// ---------------------------------------------------------------------------

pub open spec fn read_finding(
    t: Seq<Node>,
    j: int,
    file: Seq<char>,
    prefix: Seq<char>,
) -> MagicIdFindingView {
    MagicIdFindingView {
        code: "magic_id_prefix_for_optimistic"@,
        severity: "warning"@,
        confidence: "low"@,
        file,
        line: t[j].line,
        kind: "read"@,
        placeholder: prefix,
        message: read_message(debug_text(prefix)),
        fix: read_fix(),
    }
}

pub open spec fn write_finding(
    t: Seq<Node>,
    j: int,
    file: Seq<char>,
    text: Seq<char>,
    prefix: Seq<char>,
) -> MagicIdFindingView {
    MagicIdFindingView {
        code: "magic_id_prefix_for_optimistic"@,
        severity: "info"@,
        confidence: "low"@,
        file,
        line: t[j].line,
        kind: "write"@,
        placeholder: prefix,
        message: write_message(debug_text(text)),
        fix: write_fix(),
    }
}

/// What node `j` gives rise to: it tests an `id` for a placeholder, or formats
/// a string that starts with one.
pub open spec fn site(t: Seq<Node>, file: Seq<char>) -> spec_fn(int) -> Seq<MagicIdFindingView> {
    |j: int|
        match read_prefix(t, j) {
            Some(prefix) => seq![read_finding(t, j, file, prefix)],
            None => match formatted(t, j) {
                Some(text) => match leading(text) {
                    Some(prefix) => seq![write_finding(t, j, file, text, prefix)],
                    None => Seq::empty(),
                },
                None => Seq::empty(),
            },
        }
}

fn sites_in(t: &Vec<Node>, file: &str) -> (r: Vec<MagicIdFinding>)
    ensures
        r.deep_view() == gather(0, t@.len() as int, site(t@, file@)),
{
    let mut out: Vec<MagicIdFinding> = Vec::new();
    let mut j: usize = 0;
    while j < t.len()
        invariant
            j <= t.len(),
            out.deep_view() == gather(0, j as int, site(t@, file@)),
        decreases t.len() - j,
    {
        match read_prefix_of(t, j) {
            Some(prefix) => {
                let shown = debug(prefix.as_str());
                let finding = MagicIdFinding {
                    code: "magic_id_prefix_for_optimistic",
                    severity: "warning",
                    confidence: "low",
                    file: owned(file),
                    line: t[j].line,
                    kind: "read",
                    placeholder: prefix,
                    message: read_message_of(shown.as_str()),
                    fix: read_fix_of(),
                };
                put(&mut out, finding);
            },
            None => match formatted_of(t, j) {
                Some(text) => match placeholder_at_start(text.as_str()) {
                    Some(prefix) => {
                        let shown = debug(text.as_str());
                        let finding = MagicIdFinding {
                            code: "magic_id_prefix_for_optimistic",
                            severity: "info",
                            confidence: "low",
                            file: owned(file),
                            line: t[j].line,
                            kind: "write",
                            placeholder: owned(prefix),
                            message: write_message_of(shown.as_str()),
                            fix: write_fix_of(),
                        };
                        put(&mut out, finding);
                    },
                    None => {},
                },
                None => {},
            },
        }
        j += 1;
    }
    out
}

pub open spec fn file_sites(files: Seq<ScannedFile>) -> spec_fn(int) -> Seq<MagicIdFindingView> {
    |k: int|
        match files[k].ast {
            Ok(t) => gather(0, t@.len() as int, site(t@, files[k].path@)),
            Err(_) => Seq::empty(),
        }
}

fn all_sites(files: &Vec<ScannedFile>) -> (r: Vec<MagicIdFinding>)
    ensures
        r.deep_view() == gather(0, files@.len() as int, file_sites(files@)),
{
    let mut out: Vec<MagicIdFinding> = Vec::new();
    let mut k: usize = 0;
    while k < files.len()
        invariant
            k <= files.len(),
            out.deep_view() == gather(0, k as int, file_sites(files@)),
        decreases files.len() - k,
    {
        match &files[k].ast {
            Ok(t) => put_all(&mut out, sites_in(t, files[k].path.as_str())),
            Err(_) => {},
        }
        k += 1;
    }
    out
}

/// What there is to report.
pub open spec fn report(files: Seq<ScannedFile>) -> MagicIdPrefixReportView {
    MagicIdPrefixReportView {
        findings: sorted(
            gather(0, files.len() as int, file_sites(files)),
            rank::<MagicIdFinding>(),
        ),
        parse_errors: parse_errors(files),
    }
}

/// Reports where `files` mark rows by a prefix of their `id`, by file, line and
/// kind.
pub fn magic_id_prefix_for_optimistic(files: &Vec<ScannedFile>) -> (r: MagicIdPrefixReport)
    ensures
        r.deep_view() == report(files@),
{
    MagicIdPrefixReport {
        findings: sort(all_sites(files)),
        parse_errors: collect_parse_errors(files),
    }
}

/// A site that reads a magic prefix is a warning, one that writes it is not.
pub proof fn law_severity(files: Seq<ScannedFile>, f: MagicIdFindingView)
    requires
        report(files).findings.contains(f),
    ensures
        f.kind == "read"@ && f.severity == "warning"@ || f.kind == "write"@ && f.severity
            == "info"@,
        placeholder(f.placeholder),
{
    let n = files.len() as int;
    lemma_sorted_contains(gather(0, n, file_sites(files)), rank::<MagicIdFinding>(), f);
    lemma_gather_contains(0, n, file_sites(files), f);
    let k = choose|k: int| 0 <= k < n && (#[trigger] file_sites(files)(k)).contains(f);
    assert(file_sites(files)(k).contains(f));
    let t = files[k].ast->Ok_0@;
    let rule = site(t, files[k].path@);
    lemma_gather_contains(0, t.len() as int, rule, f);
    let j = choose|j: int| 0 <= j < t.len() && (#[trigger] rule(j)).contains(f);
    assert(rule(j).contains(f));
}

} // verus!
