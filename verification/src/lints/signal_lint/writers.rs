//! Signals that many closures and hooks write.
use vstd::prelude::*;

use super::report::{issue, issue_of, SignalIssue, SignalIssueView};
use crate::order::{gather, only_if, put, rank, sort, sorted};
use crate::scan::{
    call_tail, call_tail_of, compound, is_compound, operand_ident, operand_ident_of, pat_name,
    pat_name_of,
};
use crate::tape::{operand, operand_of, stop, stop_of, Kind, Node};
use crate::text::{
    begins, cat3, cat5, decimal, decimal_usize, join, joined, owned, same, starts_with,
    string_of, chars_of, upper_chars, uppercase,
};

verus! {

/// A closure or hook from which a signal may be written.
#[derive(Debug)]
pub struct WriteSource {
    /// The name it is bound to, or one made from the hook and its line.
    pub name: String,
    /// The position of its expression.
    pub body: usize,
    pub line: usize,
}

pub ghost struct WriteSourceView {
    pub name: Seq<char>,
    pub body: usize,
    pub line: usize,
}

impl DeepView for WriteSource {
    type V = WriteSourceView;

    open spec fn deep_view(&self) -> WriteSourceView {
        WriteSourceView {
            name: self.name@,
            body: self.body,
            line: self.line,
        }
    }
}

/// A source that writes a signal.
#[derive(Debug)]
pub struct Writer {
    pub name: String,
    pub line: usize,
}

pub ghost struct WriterView {
    pub name: Seq<char>,
    pub line: usize,
}

impl DeepView for Writer {
    type V = WriterView;

    open spec fn deep_view(&self) -> WriterView {
        WriterView {
            name: self.name@,
            line: self.line,
        }
    }
}

/// A hook whose closure may write signals.
pub open spec fn source_hook(name: Seq<char>) -> bool {
    ||| name == "use_future"@
    ||| name == "use_effect"@
    ||| name == "use_resource"@
    ||| name == "use_callback"@
}

fn is_source_hook(name: &str) -> (r: bool)
    ensures
        r == source_hook(name@),
{
    same(name, "use_future")
        || same(name, "use_effect")
        || same(name, "use_resource")
        || same(name, "use_callback")
}

/// A method that writes a signal.
pub open spec fn write_method(name: Seq<char>) -> bool {
    ||| name == "set"@
    ||| name == "set_silent"@
    ||| name == "write"@
    ||| name == "with_mut"@
    ||| name == "replace"@
    ||| name == "swap"@
    ||| name == "take"@
}

pub fn is_write_method(name: &str) -> (r: bool)
    ensures
        r == write_method(name@),
{
    same(name, "set")
        || same(name, "set_silent")
        || same(name, "write")
        || same(name, "with_mut")
        || same(name, "replace")
        || same(name, "swap")
        || same(name, "take")
}

/// The hook that the expression at `e` calls.
pub open spec fn hook_form(t: Seq<Node>, e: int) -> Option<Seq<char>> {
    match call_tail(t, e) {
        Some(name) => if source_hook(name) {
            Some(name)
        } else {
            None
        },
        None => None,
    }
}

pub fn standalone_hook_form(t: &Vec<Node>, e: usize) -> (r: Option<String>)
    requires
        e < t.len(),
    ensures
        r.deep_view() == hook_form(t@, e as int),
{
    match call_tail_of(t, e) {
        Some(name) => if is_source_hook(name.as_str()) {
            Some(name)
        } else {
            None
        },
        None => None,
    }
}

/// The source that statement `j` of the block at `b` is: a closure or hook bound
/// to a name that does not start with `_`, or a hook on its own.
pub open spec fn source(t: Seq<Node>, b: int, j: int) -> Option<WriteSourceView> {
    if t[j].parent != b {
        None
    } else if t[j].kind == Kind::Local && t[j].flag {
        match (operand(t, j, 0), operand(t, j, 1)) {
            (Some(p), Some(e)) => match pat_name(t, p) {
                Some(name) => if begins(name, "_"@) {
                    None
                } else if t[e].kind == Kind::Closure {
                    Some(WriteSourceView { name, body: e as usize, line: t[j].line })
                } else if hook_form(t, e) is Some {
                    Some(
                        WriteSourceView {
                            name: "<"@ + name + ">"@,
                            body: e as usize,
                            line: t[j].line,
                        },
                    )
                } else {
                    None
                },
                None => None,
            },
            _ => None,
        }
    } else if t[j].kind == Kind::ExprStmt && t[j].flag {
        match operand(t, j, 0) {
            Some(e) => match hook_form(t, e) {
                Some(form) => Some(
                    WriteSourceView {
                        name: "<"@ + form + "@"@ + decimal(t[j].line as nat) + ">"@,
                        body: e as usize,
                        line: t[j].line,
                    },
                ),
                None => None,
            },
            None => None,
        }
    } else {
        None
    }
}

pub open spec fn source_at(t: Seq<Node>, b: int) -> spec_fn(int) -> Seq<WriteSourceView> {
    |j: int|
        match source(t, b, j) {
            Some(s) => seq![s],
            None => Seq::empty(),
        }
}

/// The sources among the statements of the block at `b`.
pub open spec fn sources(t: Seq<Node>, b: int) -> Seq<WriteSourceView> {
    gather(b, stop(t, b), source_at(t, b))
}

fn source_of(t: &Vec<Node>, b: usize, j: usize) -> (r: Option<WriteSource>)
    requires
        j < t.len(),
    ensures
        r.deep_view() == source(t@, b as int, j as int),
        r matches Some(s) ==> s.body < t.len(),
{
    if t[j].parent != b {
        return None;
    }
    if t[j].kind == Kind::Local && t[j].flag {
        match (operand_of(t, j, 0), operand_of(t, j, 1)) {
            (Some(p), Some(e)) => match pat_name_of(t, p) {
                Some(name) => if starts_with(name.as_str(), "_") {
                    None
                } else if t[e].kind == Kind::Closure {
                    Some(WriteSource { name, body: e, line: t[j].line })
                } else if standalone_hook_form(t, e).is_some() {
                    Some(
                        WriteSource {
                            name: cat3("<", name.as_str(), ">"),
                            body: e,
                            line: t[j].line,
                        },
                    )
                } else {
                    None
                },
                None => None,
            },
            _ => None,
        }
    } else if t[j].kind == Kind::ExprStmt && t[j].flag {
        match operand_of(t, j, 0) {
            Some(e) => match standalone_hook_form(t, e) {
                Some(form) => {
                    let line = decimal_usize(t[j].line);
                    Some(
                        WriteSource {
                            name: cat5("<", form.as_str(), "@", line.as_str(), ">"),
                            body: e,
                            line: t[j].line,
                        },
                    )
                },
                None => None,
            },
            None => None,
        }
    } else {
        None
    }
}

pub fn collect_write_sources(t: &Vec<Node>, b: usize) -> (r: Vec<WriteSource>)
    requires
        b < t.len(),
    ensures
        r.deep_view() == sources(t@, b as int),
        forall|k: int| 0 <= k < r.len() ==> (#[trigger] r[k]).body < t.len(),
{
    let end = stop_of(t, b);
    let mut out: Vec<WriteSource> = Vec::new();
    let mut j: usize = b;
    while j < end
        invariant
            b <= j <= end <= t.len(),
            out.deep_view() == gather(b as int, j as int, source_at(t@, b as int)),
            forall|k: int| 0 <= k < out.len() ==> (#[trigger] out[k]).body < t.len(),
        decreases end - j,
    {
        match source_of(t, b, j) {
            Some(s) => put(&mut out, s),
            None => {},
        }
        j += 1;
    }
    out
}

// ---------------------------------------------------------------------------
// Writes
// ---------------------------------------------------------------------------

/// The name that the left side of an assignment writes: `name` or `*name`.
pub open spec fn assigned(t: Seq<Node>, j: int) -> Option<Seq<char>> {
    match operand(t, j, 0) {
        Some(l) => if t[l].kind == Kind::Unary && t[l].name@ == "*"@ {
            operand_ident(t, l, 0)
        } else {
            operand_ident(t, j, 0)
        },
        None => None,
    }
}

/// The name that node `j` writes: by a method, by `=` or by a compound operator.
pub open spec fn written(t: Seq<Node>, j: int) -> Option<Seq<char>> {
    if t[j].kind == Kind::MethodCall && write_method(t[j].name@) {
        operand_ident(t, j, 0)
    } else if t[j].kind == Kind::Assign {
        assigned(t, j)
    } else if t[j].kind == Kind::Binary && compound(t[j].name@) {
        operand_ident(t, j, 0)
    } else {
        None
    }
}

fn written_of(t: &Vec<Node>, j: usize) -> (r: Option<String>)
    requires
        j < t.len(),
    ensures
        r.deep_view() == written(t@, j as int),
{
    if t[j].kind == Kind::MethodCall && is_write_method(t[j].name.as_str()) {
        operand_ident_of(t, j, 0)
    } else if t[j].kind == Kind::Assign {
        match operand_of(t, j, 0) {
            Some(l) => if t[l].kind == Kind::Unary && same(t[l].name.as_str(), "*") {
                operand_ident_of(t, l, 0)
            } else {
                operand_ident_of(t, j, 0)
            },
            None => None,
        }
    } else if t[j].kind == Kind::Binary && is_compound(t[j].name.as_str()) {
        operand_ident_of(t, j, 0)
    } else {
        None
    }
}

/// The expression at `e` writes `name` somewhere.
pub open spec fn writes(t: Seq<Node>, e: int, name: Seq<char>) -> bool {
    exists|j: int| e <= j < stop(t, e) && #[trigger] written(t, j) == Some(name)
}

pub fn writes_signal(t: &Vec<Node>, e: usize, name: &str) -> (r: bool)
    requires
        e < t.len(),
    ensures
        r == writes(t@, e as int, name@),
{
    let end = stop_of(t, e);
    let mut j: usize = e;
    while j < end
        invariant
            e <= j <= end <= t.len(),
            end == stop(t@, e as int),
            forall|k: int| e <= k < j ==> #[trigger] written(t@, k) != Some(name@),
        decreases end - j,
    {
        match written_of(t, j) {
            Some(w) => {
                if same(w.as_str(), name) {
                    assert(written(t@, j as int) == Some(name@));
                    return true;
                }
            },
            None => {},
        }
        j += 1;
    }
    false
}

/// A writer called `name` is in `ws`.
pub open spec fn has_writer(ws: Seq<WriterView>, name: Seq<char>) -> bool {
    exists|k: int| 0 <= k < ws.len() && (#[trigger] ws[k]).name == name
}

/// The writers of `signal` among the first `n` sources, the first of each name.
pub open spec fn writers(
    t: Seq<Node>,
    ss: Seq<WriteSourceView>,
    signal: Seq<char>,
    n: int,
) -> Seq<WriterView>
    decreases n,
{
    if n <= 0 {
        Seq::empty()
    } else {
        let before = writers(t, ss, signal, n - 1);
        let s = ss[n - 1];
        if writes(t, s.body as int, signal) && !has_writer(before, s.name) {
            before.push(WriterView { name: s.name, line: s.line })
        } else {
            before
        }
    }
}

fn has_writer_of(ws: &Vec<Writer>, name: &str) -> (r: bool)
    ensures
        r == has_writer(ws.deep_view(), name@),
{
    let ghost v = ws.deep_view();
    let mut k: usize = 0;
    while k < ws.len()
        invariant
            k <= ws.len(),
            v == ws.deep_view(),
            forall|m: int| 0 <= m < k ==> (#[trigger] v[m]).name != name@,
        decreases ws.len() - k,
    {
        assert(v[k as int] == ws@[k as int].deep_view());
        if same(ws[k].name.as_str(), name) {
            return true;
        }
        k += 1;
    }
    false
}

fn writers_of(t: &Vec<Node>, ss: &Vec<WriteSource>, signal: &str) -> (r: Vec<Writer>)
    requires
        forall|k: int| 0 <= k < ss.len() ==> (#[trigger] ss[k]).body < t.len(),
    ensures
        r.deep_view() == writers(t@, ss.deep_view(), signal@, ss.deep_view().len() as int),
{
    let ghost v = ss.deep_view();
    let mut out: Vec<Writer> = Vec::new();
    let mut n: usize = 0;
    while n < ss.len()
        invariant
            n <= ss.len(),
            v == ss.deep_view(),
            forall|k: int| 0 <= k < ss.len() ==> (#[trigger] ss[k]).body < t.len(),
            out.deep_view() == writers(t@, v, signal@, n as int),
        decreases ss.len() - n,
    {
        assert(v[n as int] == ss@[n as int].deep_view());
        if writes_signal(t, ss[n].body, signal) && !has_writer_of(&out, ss[n].name.as_str()) {
            put(&mut out, Writer { name: owned(ss[n].name.as_str()), line: ss[n].line });
        }
        n += 1;
    }
    out
}

// ---------------------------------------------------------------------------
// The suggested store
// ---------------------------------------------------------------------------

/// `s` with its first character in upper case.
pub open spec fn capitalized(s: Seq<char>) -> Seq<char> {
    if s.len() == 0 {
        s
    } else {
        upper_chars(s[0]) + s.drop_first()
    }
}

pub fn capitalize(s: &str) -> (r: String)
    ensures
        r@ == capitalized(s@),
{
    let cs = chars_of(s);
    if cs.len() == 0 {
        let r = String::new();
        assert(r@ =~= s@);
        return r;
    }
    let mut r = uppercase(cs[0]);
    let rest = string_of(&cs, 1, cs.len());
    assert(rest@ =~= s@.drop_first());
    r.append(rest.as_str());
    r
}

/// The stubs of the first three writers.
pub open spec fn stubs(ws: Seq<Seq<char>>) -> Seq<Seq<char>> {
    Seq::new(
        if ws.len() < 3 {
            ws.len()
        } else {
            3
        },
        |k: int|
            "    pub fn "@ + ws[k] + "(&mut self) { /* moved-out logic for "@ + ws[k] + " */ }"@,
    )
}

pub open spec fn skeleton(
    signal: Seq<char>,
    store: Seq<char>,
    stubs: Seq<char>,
    etc: Seq<char>,
    first: Seq<char>,
) -> Seq<char> {
    "// Lift `"@
        + signal
        + "` into a Store with named mutators:\npub struct "@
        + store
        + "Store { pub "@
        + signal
        + ": /* type */ }\nimpl "@
        + store
        + "Store {\n"@
        + stubs
        + "\n"@
        + etc
        + "}\n// In the component body:\n//   let mut store = use_context_provider(|| Signal::new("@
        + store
        + "Store { "@
        + signal
        + ": /* init */ }));\n//   store.write()."@
        + first
        + "();"@
}

fn skeleton_of(signal: &str, store: &str, stubs: &str, etc: &str, first: &str) -> (r: String)
    ensures
        r@ == skeleton(signal@, store@, stubs@, etc@, first@),
{
    let mut s = owned("// Lift `");
    s.append(signal);
    s.append("` into a Store with named mutators:\npub struct ");
    s.append(store);
    s.append("Store { pub ");
    s.append(signal);
    s.append(": /* type */ }\nimpl ");
    s.append(store);
    s.append("Store {\n");
    s.append(stubs);
    s.append("\n");
    s.append(etc);
    s.append("}\n// In the component body:\n//   let mut store = use_context_provider(|| Signal::new(");
    s.append(store);
    s.append("Store { ");
    s.append(signal);
    s.append(": /* init */ }));\n//   store.write().");
    s.append(first);
    s.append("();");
    s
}

pub open spec fn store_skeleton(signal: Seq<char>, ws: Seq<Seq<char>>) -> Seq<char> {
    skeleton(
        signal,
        capitalized(signal),
        joined(stubs(ws), "\n"@),
        if ws.len() > 3 {
            "    // … remaining writers …\n"@
        } else {
            ""@
        },
        if ws.len() > 0 {
            ws[0]
        } else {
            "commit"@
        },
    )
}

/// A store with a method for each of the first three writers of `signal`.
pub fn store_skeleton_fix_snippet(signal: &str, ws: &Vec<String>) -> (r: String)
    ensures
        r@ == store_skeleton(signal@, ws.deep_view()),
{
    let ghost v = ws.deep_view();
    let mut lines: Vec<String> = Vec::new();
    let mut k: usize = 0;
    while k < ws.len() && k < 3
        invariant
            k <= ws.len(),
            k <= 3,
            v == ws.deep_view(),
            lines.deep_view() =~= stubs(v).take(k as int),
        decreases ws.len() - k,
    {
        assert(v[k as int] == ws@[k as int]@);
        let w = ws[k].as_str();
        put(
            &mut lines,
            cat5("    pub fn ", w, "(&mut self) { /* moved-out logic for ", w, " */ }"),
        );
        k += 1;
    }
    assert(lines.deep_view() =~= stubs(v));
    let stubs = join(&lines, "\n");
    let store = capitalize(signal);
    let etc = if ws.len() > 3 {
        "    // … remaining writers …\n"
    } else {
        ""
    };
    let first = if ws.len() > 0 {
        ws[0].as_str()
    } else {
        "commit"
    };
    skeleton_of(signal, store.as_str(), stubs.as_str(), etc, first)
}

// ---------------------------------------------------------------------------
// Issues
// ---------------------------------------------------------------------------

pub open spec fn writer_names(ws: Seq<WriterView>) -> Seq<Seq<char>> {
    Seq::new(ws.len(), |k: int| ws[k].name)
}

/// The lowest line among the first `n` writers; 0 if `n` is 0.
pub open spec fn first_line(ws: Seq<WriterView>, n: int) -> usize
    decreases n,
{
    if n <= 0 {
        0
    } else if n == 1 || ws[n - 1].line < first_line(ws, n - 1) {
        ws[n - 1].line
    } else {
        first_line(ws, n - 1)
    }
}

pub open spec fn writers_message(signal: Seq<char>, n: nat, list: Seq<char>) -> Seq<char> {
    "`"@
        + signal
        + "` is written from "@
        + decimal(n)
        + " distinct sources in this component ("@
        + list
        + "). Three or more mutator callsites is the canonical \"lift to Store\" smell — each call duplicates plumbing the others have to keep in sync. Move `"@
        + signal
        + "` into a `Store` (see `get_dsl_spec`'s `Store` primitive) and expose named mutator methods (`store.commit_move(...)` etc.) instead of inline `.with_mut` / `.set` calls."@
}

fn writers_message_of(signal: &str, n: usize, list: &str) -> (r: String)
    ensures
        r@ == writers_message(signal@, n as nat, list@),
{
    let mut s = owned("`");
    s.append(signal);
    s.append("` is written from ");
    s.append(decimal_usize(n).as_str());
    s.append(" distinct sources in this component (");
    s.append(list);
    s.append("). Three or more mutator callsites is the canonical \"lift to Store\" smell — each call duplicates plumbing the others have to keep in sync. Move `");
    s.append(signal);
    s.append("` into a `Store` (see `get_dsl_spec`'s `Store` primitive) and expose named mutator methods (`store.commit_move(...)` etc.) instead of inline `.with_mut` / `.set` calls.");
    s
}

/// The issue on a signal that three sources or more write.
pub open spec fn writers_issue(
    signal: Seq<char>,
    ws: Seq<WriterView>,
    file: Seq<char>,
    component: Seq<char>,
) -> Seq<SignalIssueView> {
    let names = sorted(writer_names(ws), rank::<String>());
    only_if(
        ws.len() >= 3,
        issue(
            "signal_many_writers"@,
            writers_message(signal, ws.len(), joined(names, ", "@)),
            file,
            first_line(ws, ws.len() as int),
            component,
            Some(signal),
            Some(store_skeleton(signal, names)),
        ),
    )
}

pub open spec fn writers_at(
    t: Seq<Node>,
    b: int,
    signals: Seq<Seq<char>>,
    file: Seq<char>,
    component: Seq<char>,
) -> spec_fn(int) -> Seq<SignalIssueView> {
    |k: int|
        {
            let ss = sources(t, b);
            writers_issue(
                signals[k],
                writers(t, ss, signals[k], ss.len() as int),
                file,
                component,
            )
        }
}

/// The issues on the signals that many sources in the block at `b` write, by
/// signal.
pub open spec fn many_writers(
    t: Seq<Node>,
    b: int,
    signals: Seq<Seq<char>>,
    file: Seq<char>,
    component: Seq<char>,
) -> Seq<SignalIssueView> {
    let names = sorted(signals, rank::<String>());
    gather(0, names.len() as int, writers_at(t, b, names, file, component))
}

fn first_line_of(ws: &Vec<Writer>) -> (r: usize)
    ensures
        r == first_line(ws.deep_view(), ws.deep_view().len() as int),
{
    let ghost v = ws.deep_view();
    let mut low: usize = 0;
    let mut n: usize = 0;
    while n < ws.len()
        invariant
            n <= ws.len(),
            v == ws.deep_view(),
            low == first_line(v, n as int),
        decreases ws.len() - n,
    {
        assert(v[n as int] == ws@[n as int].deep_view());
        if n == 0 || ws[n].line < low {
            low = ws[n].line;
        }
        n += 1;
    }
    low
}

fn writer_names_of(ws: &Vec<Writer>) -> (r: Vec<String>)
    ensures
        r.deep_view() == writer_names(ws.deep_view()),
{
    let mut out: Vec<String> = Vec::new();
    let mut k: usize = 0;
    while k < ws.len()
        invariant
            k <= ws.len(),
            out.deep_view() =~= writer_names(ws.deep_view()).take(k as int),
        decreases ws.len() - k,
    {
        put(&mut out, owned(ws[k].name.as_str()));
        k += 1;
    }
    assert(out.deep_view() =~= writer_names(ws.deep_view()));
    out
}

/// The issue on `signal` and its writers `ws`, if there are three or more.
pub fn writers_finding(signal: &str, ws: &Vec<Writer>, file: &str, component: &str) -> (r: Vec<
    SignalIssue,
>)
    ensures
        r.deep_view() == writers_issue(signal@, ws.deep_view(), file@, component@),
{
    let mut out: Vec<SignalIssue> = Vec::new();
    if ws.len() >= 3 {
        let names = sort(writer_names_of(ws));
        let list = join(&names, ", ");
        let message = writers_message_of(signal, ws.len(), list.as_str());
        let fix = store_skeleton_fix_snippet(signal, &names);
        put(
            &mut out,
            issue_of(
                "signal_many_writers",
                message,
                file,
                first_line_of(ws),
                component,
                Some(owned(signal)),
                Some(fix),
            ),
        );
    }
    assert(out.deep_view() =~= writers_issue(signal@, ws.deep_view(), file@, component@));
    out
}

/// The issues on the signals that many sources in the block at `b` write.
pub fn check_signal_many_writers(
    t: &Vec<Node>,
    b: usize,
    signals: &Vec<String>,
    file: &str,
    component: &str,
) -> (r: Vec<SignalIssue>)
    requires
        b < t.len(),
    ensures
        r.deep_view() == many_writers(t@, b as int, signals.deep_view(), file@, component@),
{
    let ss = collect_write_sources(t, b);
    let mut copy: Vec<String> = Vec::new();
    let mut k: usize = 0;
    while k < signals.len()
        invariant
            k <= signals.len(),
            copy.deep_view() =~= signals.deep_view().take(k as int),
        decreases signals.len() - k,
    {
        put(&mut copy, owned(signals[k].as_str()));
        k += 1;
    }
    assert(copy.deep_view() =~= signals.deep_view());
    let names = sort(copy);
    let ghost v = names.deep_view();
    let mut out: Vec<SignalIssue> = Vec::new();
    let mut n: usize = 0;
    while n < names.len()
        invariant
            b < t.len(),
            n <= names.len(),
            v == names.deep_view(),
            ss.deep_view() == sources(t@, b as int),
            forall|m: int| 0 <= m < ss.len() ==> (#[trigger] ss[m]).body < t.len(),
            out.deep_view() == gather(
                0,
                n as int,
                writers_at(t@, b as int, v, file@, component@),
            ),
        decreases names.len() - n,
    {
        assert(v[n as int] == names@[n as int]@);
        let ws = writers_of(t, &ss, names[n].as_str());
        crate::order::put_all(
            &mut out,
            writers_finding(names[n].as_str(), &ws, file, component),
        );
        n += 1;
    }
    out
}

/// A source counts once, however often it writes: no two writers have one name.
pub proof fn law_writers_are_distinct(
    t: Seq<Node>,
    ss: Seq<WriteSourceView>,
    signal: Seq<char>,
    n: int,
    i: int,
    j: int,
)
    requires
        0 <= i < j < writers(t, ss, signal, n).len(),
    ensures
        writers(t, ss, signal, n)[i].name != writers(t, ss, signal, n)[j].name,
    decreases n,
{
    if n > 0 {
        let before = writers(t, ss, signal, n - 1);
        if j < before.len() {
            law_writers_are_distinct(t, ss, signal, n - 1, i, j);
        } else {
            assert(before[i] == writers(t, ss, signal, n)[i]);
        }
    }
}

} // verus!
