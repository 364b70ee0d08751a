//! What scaffolding writes, in terms of what it is given.
use vstd::prelude::*;

use crate::order::{gather, lemma_sorted_contains, rank};
use crate::scaffold::crate_root::{
    after_last, after_preamble, crate_mod, insertion, preliminary, shebang, with_declaration,
};
use crate::scaffold::create::{
    arg_row_at, component_vars, first_with, fullstack, http_method, prop_row_at, router,
    server_fn_plan, server_fn_vars, ArgSpecView, CreateServerFnParamsView, PropSpecView,
    SourceTextView,
};
use crate::scaffold::mods::{
    entries, entry, gated, gating, has_entry, mod_lines, shielding, with_entry, ModLine,
    ModLineView,
};
use crate::scaffold::return_type::{argument_at, wrapped};
use crate::scaffold::templates::{CellView, PlainView, SlotView, VarView};
use crate::tape::{Kind, NodeView};
use crate::text::{at, begins, joined, lines, lower, occurs, trim_start, trimmed, without};
use crate::text_laws::law_where_a_text_stands;

verus! {

// ---------------------------------------------------------------------------
// What templates are filled in with
// ---------------------------------------------------------------------------

/// The cell `c` has that name and holds that text.
pub open spec fn holds_text(c: CellView, name: Seq<char>, text: Seq<char>) -> bool {
    c.name == name && c.value == PlainView::Text(text)
}

/// Among `vars` is one text of that name.
pub open spec fn gives(vars: Seq<VarView>, name: Seq<char>, text: Seq<char>) -> bool {
    exists|k: int|
        0 <= k < vars.len() && (#[trigger] vars[k]).name == name && vars[k].value == SlotView::One(
            PlainView::Text(text),
        )
}

proof fn lemma_arg_rows(args: Seq<ArgSpecView>, n: int)
    requires
        0 <= n <= args.len(),
    ensures
        gather(0, n, arg_row_at(args)).len() == n,
        forall|k: int|
            0 <= k < n ==> {
                let row = #[trigger] gather(0, n, arg_row_at(args))[k];
                row.len() == 2 && holds_text(row[0], "name"@, args[k].name) && holds_text(
                    row[1],
                    "ty"@,
                    args[k].ty,
                )
            },
    decreases n,
{
    if n > 0 {
        lemma_arg_rows(args, n - 1);
    }
}

proof fn lemma_prop_rows(props: Seq<PropSpecView>, n: int)
    requires
        0 <= n <= props.len(),
    ensures
        gather(0, n, prop_row_at(props)).len() == n,
        forall|k: int|
            0 <= k < n ==> {
                let row = #[trigger] gather(0, n, prop_row_at(props))[k];
                &&& row.len() == 3
                &&& holds_text(row[0], "name"@, props[k].name)
                &&& holds_text(row[1], "ty"@, props[k].ty)
                &&& row[2].name == "optional"@ && row[2].value == PlainView::Flag(
                    props[k].optional,
                )
            },
    decreases n,
{
    if n > 0 {
        lemma_prop_rows(props, n - 1);
    }
}

/// The template of a server function is filled in with its name, its return type, its
/// method and its path, and with every argument in order.
pub proof fn law_server_fn_vars(p: CreateServerFnParamsView, snake: Seq<char>, method: Seq<char>)
    ensures
        ({
            let vars = server_fn_vars(p, snake, method);
            &&& gives(vars, "snake"@, snake)
            &&& gives(vars, "method"@, method)
            &&& p.return_type matches Some(r) ==> gives(vars, "ret"@, r)
            &&& p.return_type is None ==> gives(vars, "ret"@, "String"@)
            &&& p.path matches Some(x) ==> gives(vars, "path"@, x)
            &&& p.path is None ==> gives(vars, "path"@, "/api/"@ + snake)
            &&& exists|k: int|
                0 <= k < vars.len() && (#[trigger] vars[k]).name == "args"@ && (vars[k].value
                    matches SlotView::Rows(rows) && rows.len() == p.args.len() && forall|a: int|
                    0 <= a < rows.len() ==> (#[trigger] rows[a]).len() == 2 && holds_text(
                        rows[a][0],
                        "name"@,
                        p.args[a].name,
                    ) && holds_text(rows[a][1], "ty"@, p.args[a].ty))
        }),
{
    let vars = server_fn_vars(p, snake, method);
    lemma_arg_rows(p.args, p.args.len() as int);
    assert(vars[0].name == "snake"@);
    assert(vars[1].name == "ret"@);
    assert(vars[2].name == "method"@);
    assert(vars[3].name == "path"@);
    assert(vars[4].name == "args"@);
    let rows = gather(0, p.args.len() as int, arg_row_at(p.args));
    assert(vars[4].value == SlotView::Rows(rows));
}

/// The template of a component is filled in with its names and its body, and with every
/// prop in order.
pub proof fn law_component_vars(
    props: Seq<PropSpecView>,
    pascal: Seq<char>,
    snake: Seq<char>,
    body: Seq<char>,
)
    ensures
        ({
            let vars = component_vars(props, pascal, snake, body);
            &&& gives(vars, "pascal"@, pascal)
            &&& gives(vars, "snake"@, snake)
            &&& gives(vars, "body"@, body)
            &&& exists|k: int|
                0 <= k < vars.len() && (#[trigger] vars[k]).name == "has_props"@ && vars[k].value
                    == SlotView::One(PlainView::Flag(props.len() != 0))
            &&& exists|k: int|
                0 <= k < vars.len() && (#[trigger] vars[k]).name == "props"@ && (vars[k].value
                    matches SlotView::Rows(rows) && rows.len() == props.len() && forall|a: int|
                    0 <= a < rows.len() ==> (#[trigger] rows[a]).len() == 3 && holds_text(
                        rows[a][0],
                        "name"@,
                        props[a].name,
                    ) && holds_text(rows[a][1], "ty"@, props[a].ty) && rows[a][2].name
                        == "optional"@ && rows[a][2].value == PlainView::Flag(props[a].optional))
        }),
{
    let vars = component_vars(props, pascal, snake, body);
    lemma_prop_rows(props, props.len() as int);
    assert(vars[0].name == "pascal"@);
    assert(vars[1].name == "snake"@);
    assert(vars[2].name == "has_props"@);
    assert(vars[3].name == "props"@);
    assert(vars[4].name == "body"@);
    let rows = gather(0, props.len() as int, prop_row_at(props));
    assert(vars[3].value == SlotView::Rows(rows));
}

/// A server function without arguments is fetched by `get` and one with arguments by
/// `post`, unless a method is asked for; only these two can be, in letters of any case.
pub proof fn law_method(p: CreateServerFnParamsView)
    ensures
        p.method is None && p.args.len() == 0 ==> http_method(p) == Ok::<Seq<char>, Seq<char>>(
            "get"@,
        ),
        p.method is None && p.args.len() > 0 ==> http_method(p) == Ok::<Seq<char>, Seq<char>>(
            "post"@,
        ),
        p.method matches Some(m) ==> match http_method(p) {
            Ok(x) => x == lower(m) && (x == "get"@ || x == "post"@),
            Err(_) => lower(m) != "get"@ && lower(m) != "post"@,
        },
{
}

/// A project can hold server functions if it has the feature `fullstack`, or `server`
/// and `web` both; without them none is planned.
pub proof fn law_fullstack(
    p: CreateServerFnParamsView,
    features: Seq<Seq<char>>,
    root: Option<Seq<char>>,
    taken: bool,
    mods: Option<Seq<char>>,
)
    ensures
        features.contains("fullstack"@) ==> fullstack(features),
        features.contains("server"@) && features.contains("web"@) ==> fullstack(features),
        !features.contains("fullstack"@) && !features.contains("server"@) ==> server_fn_plan(
            p,
            features,
            root,
            taken,
            mods,
        ) is Err,
        !features.contains("fullstack"@) && !features.contains("web"@) ==> server_fn_plan(
            p,
            features,
            root,
            taken,
            mods,
        ) is Err,
        root is None ==> server_fn_plan(p, features, root, taken, mods) is Err,
{
}

/// The router is the first of the usual files that holds `Routable`, and where none
/// does, the first file of all that holds `derive(Routable`.
pub proof fn law_router(candidates: Seq<SourceTextView>, walked: Seq<SourceTextView>)
    ensures
        forall|k: int|
            #![trigger candidates[k]]
            0 <= k < candidates.len() && occurs(candidates[k].text, "Routable"@) && (forall|m: int|
                0 <= m < k ==> !occurs((#[trigger] candidates[m]).text, "Routable"@)) ==> router(
                candidates,
                walked,
            ) == Some(candidates[k].path),
        (forall|m: int|
            0 <= m < candidates.len() ==> !occurs(
                (#[trigger] candidates[m]).text,
                "Routable"@,
            )) ==> {
            &&& forall|k: int|
                #![trigger walked[k]]
                0 <= k < walked.len() && occurs(walked[k].text, "derive(Routable"@) && (forall|
                    m: int,
                |
                    0 <= m < k ==> !occurs((#[trigger] walked[m]).text, "derive(Routable"@))
                    ==> router(candidates, walked) == Some(walked[k].path)
            &&& (forall|m: int|
                0 <= m < walked.len() ==> !occurs(
                    (#[trigger] walked[m]).text,
                    "derive(Routable"@,
                )) ==> router(candidates, walked) is None
        },
{
    assert forall|k: int|
        #![trigger candidates[k]]
        0 <= k < candidates.len() && occurs(candidates[k].text, "Routable"@) && (forall|m: int|
            0 <= m < k ==> !occurs((#[trigger] candidates[m]).text, "Routable"@)) implies router(
        candidates,
        walked,
    ) == Some(candidates[k].path) by {
        lemma_first_with(candidates, "Routable"@, 0, k);
    }
    if forall|m: int|
        0 <= m < candidates.len() ==> !occurs((#[trigger] candidates[m]).text, "Routable"@) {
        lemma_none_with(candidates, "Routable"@, 0);
        assert forall|k: int|
            #![trigger walked[k]]
            0 <= k < walked.len() && occurs(walked[k].text, "derive(Routable"@) && (forall|m: int|
                0 <= m < k ==> !occurs((#[trigger] walked[m]).text, "derive(Routable"@))
            implies router(candidates, walked) == Some(walked[k].path) by {
            lemma_first_with(walked, "derive(Routable"@, 0, k);
        }
        if forall|m: int|
            0 <= m < walked.len() ==> !occurs((#[trigger] walked[m]).text, "derive(Routable"@) {
            lemma_none_with(walked, "derive(Routable"@, 0);
        }
    }
}

proof fn lemma_first_with(files: Seq<SourceTextView>, mark: Seq<char>, from: int, k: int)
    requires
        0 <= from <= k < files.len(),
        occurs(files[k].text, mark),
        forall|m: int| from <= m < k ==> !occurs((#[trigger] files[m]).text, mark),
    ensures
        first_with(files, mark, from) == Some(files[k].path),
    decreases k - from,
{
    if from < k {
        assert(!occurs(files[from].text, mark));
        lemma_first_with(files, mark, from + 1, k);
    }
}

proof fn lemma_none_with(files: Seq<SourceTextView>, mark: Seq<char>, from: int)
    requires
        0 <= from <= files.len(),
        forall|m: int| from <= m < files.len() ==> !occurs((#[trigger] files[m]).text, mark),
    ensures
        first_with(files, mark, from) is None,
    decreases files.len() - from,
{
    if from < files.len() {
        assert(!occurs(files[from].text, mark));
        lemma_none_with(files, mark, from + 1);
    }
}

// ---------------------------------------------------------------------------
// Return types
// ---------------------------------------------------------------------------

/// Node `k` is an argument of the last segment of the path at the root.
pub open spec fn type_argument(t: Seq<NodeView>, k: int) -> bool {
    0 < k < t.len() && t[k].kind == Kind::GenType && t[k].parent == t[0].last && t[0].last > 0
}

/// A return type `ServerFnResult` of one type is refused, and the refusal names the type
/// within.
pub proof fn law_server_fn_result_is_refused(ret: Seq<char>, t: Seq<NodeView>, k: int)
    requires
        t.len() > 0,
        t[0].kind == Kind::TyPath,
        t[0].name == "ServerFnResult"@,
        type_argument(t, k),
        forall|m: int| #[trigger] type_argument(t, m) ==> m == k,
    ensures
        wrapped(ret, t) matches Some(reason) && occurs(reason, ret) && occurs(reason, t[k].text),
{
    lemma_one_argument(t, k, t.len() as int);
    let a = "return_type `"@;
    let b = "` already wraps the inner type in ServerFnResult; pass just `"@;
    let c = "` instead — the template wraps it in `Result<_, ServerFnError>` for you."@;
    let reason = wrapped(ret, t)->0;
    let inner = t[k].text;
    assert(reason == a + ret + b + inner + c);
    assert(reason.subrange(a.len() as int, (a.len() + ret.len()) as int) =~= ret);
    assert(at(reason, ret, a.len() as int));
    let p = (a.len() + ret.len() + b.len()) as int;
    assert(reason.subrange(p, p + inner.len()) =~= inner);
    assert(at(reason, inner, p));
}

proof fn lemma_one_argument(t: Seq<NodeView>, k: int, hi: int)
    requires
        1 <= hi <= t.len(),
        type_argument(t, k),
        forall|m: int| #[trigger] type_argument(t, m) ==> m == k,
    ensures
        gather(1, hi, argument_at(t)) == if hi <= k {
            Seq::empty()
        } else {
            seq![t[k].text]
        },
    decreases hi,
{
    if hi > 1 {
        lemma_one_argument(t, k, hi - 1);
        if hi - 1 != k {
            assert(!type_argument(t, hi - 1));
        }
        assert(gather(1, hi, argument_at(t)) =~= if hi <= k {
            Seq::empty()
        } else {
            seq![t[k].text]
        });
    }
}

proof fn lemma_two_arguments(t: Seq<NodeView>, k: int, e: int, hi: int)
    requires
        1 <= hi <= t.len(),
        k < e,
        type_argument(t, k),
        type_argument(t, e),
        forall|m: int| #[trigger] type_argument(t, m) ==> m == k || m == e,
    ensures
        gather(1, hi, argument_at(t)) == if hi <= k {
            Seq::empty()
        } else if hi <= e {
            seq![t[k].text]
        } else {
            seq![t[k].text, t[e].text]
        },
    decreases hi,
{
    if hi > 1 {
        lemma_two_arguments(t, k, e, hi - 1);
        if hi - 1 != k && hi - 1 != e {
            assert(!type_argument(t, hi - 1));
        }
        assert(gather(1, hi, argument_at(t)) =~= if hi <= k {
            Seq::empty()
        } else if hi <= e {
            seq![t[k].text]
        } else {
            seq![t[k].text, t[e].text]
        });
    }
}

/// A return type `Result` of two types is refused if the second is `ServerFnError`, by
/// whatever path and blanks aside, and only then.
pub proof fn law_wrapped_result_is_refused(
    ret: Seq<char>,
    t: Seq<NodeView>,
    k: int,
    e: int,
    path: Seq<char>,
)
    requires
        t.len() > 0,
        t[0].kind == Kind::TyPath,
        t[0].name == "Result"@,
        k < e,
        type_argument(t, k),
        type_argument(t, e),
        forall|m: int| #[trigger] type_argument(t, m) ==> m == k || m == e,
    ensures
        without(t[e].text, ' ') == path + "ServerFnError"@ ==> wrapped(ret, t) is Some && occurs(
            wrapped(ret, t)->0,
            t[k].text,
        ),
        !at(
            without(t[e].text, ' '),
            "ServerFnError"@,
            without(t[e].text, ' ').len() - "ServerFnError"@.len(),
        ) ==> wrapped(ret, t) is None,
{
    lemma_two_arguments(t, k, e, t.len() as int);
    lemma_result_names();
    let w = without(t[e].text, ' ');
    let err = "ServerFnError"@;
    if w == path + err {
        assert(w.subrange(path.len() as int, (path.len() + err.len()) as int) =~= err);
        let a = "return_type `"@;
        let b = "` already wraps the inner type in `Result<_, ServerFnError>`; pass just `"@;
        let c = "` instead — the template wraps it for you."@;
        let reason = wrapped(ret, t)->0;
        let inner = t[k].text;
        assert(reason == a + ret + b + inner + c);
        let p = (a.len() + ret.len() + b.len()) as int;
        assert(reason.subrange(p, p + inner.len()) =~= inner);
        assert(at(reason, inner, p));
    }
}

proof fn lemma_result_names()
    ensures
        "Result"@ != "ServerFnResult"@,
{
    reveal_strlit("Result");
    reveal_strlit("ServerFnResult");
    assert("Result"@.len() == 6 && "ServerFnResult"@.len() == 14);
}

/// Any other return type is accepted.
pub proof fn law_other_types_are_accepted(ret: Seq<char>, t: Seq<NodeView>)
    requires
        t.len() > 0,
        t[0].kind != Kind::TyPath || (t[0].name != "ServerFnResult"@ && t[0].name != "Result"@),
    ensures
        wrapped(ret, t) is None,
{
}

// ---------------------------------------------------------------------------
// Declarations in the crate root
// ---------------------------------------------------------------------------

/// Line `l` starts with one of the two texts, blanks in front aside.
pub open spec fn starts(l: Seq<char>, a: Seq<char>, b: Seq<char>) -> bool {
    at(trim_start(l), a, 0) || at(trim_start(l), b, 0)
}

/// Line number `k` is the last of `ls` that starts with one of the two texts.
pub open spec fn last_start(ls: Seq<Seq<char>>, a: Seq<char>, b: Seq<char>, k: int) -> bool {
    &&& 0 <= k < ls.len() && starts(ls[k], a, b)
    &&& forall|m: int| k < m < ls.len() ==> !starts(#[trigger] ls[m], a, b)
}

/// No line of `ls` starts with one of the two texts.
pub open spec fn no_start(ls: Seq<Seq<char>>, a: Seq<char>, b: Seq<char>) -> bool {
    forall|m: int| 0 <= m < ls.len() ==> !starts(#[trigger] ls[m], a, b)
}

proof fn lemma_after_last(ls: Seq<Seq<char>>, a: Seq<char>, b: Seq<char>)
    ensures
        match after_last(ls, a, b) {
            Some(k) => last_start(ls, a, b, k - 1),
            None => no_start(ls, a, b),
        },
    decreases ls.len(),
{
    if ls.len() > 0 {
        let less = ls.drop_last();
        lemma_after_last(less, a, b);
        assert forall|m: int| 0 <= m < less.len() implies less[m] == #[trigger] ls[m] by {}
        if !starts(ls.last(), a, b) {
            assert forall|m: int|
                0 <= m < ls.len() && (after_last(less, a, b) matches Some(k) ==> k - 1
                    < m) implies !starts(#[trigger] ls[m], a, b) by {
                if m < less.len() {
                    assert(!starts(less[m], a, b));
                }
            }
        }
    }
}

/// A line that may stand before the items of a file: a blank one, an attribute of the
/// file or a comment.
pub open spec fn before_items(l: Seq<char>) -> bool {
    trimmed(l).len() == 0 || at(trimmed(l), "#!["@, 0) || at(trimmed(l), "//"@, 0)
}

proof fn lemma_after_preamble(ls: Seq<Seq<char>>, i: int)
    requires
        0 <= i <= ls.len(),
    ensures
        i <= after_preamble(ls, i) <= ls.len(),
        forall|m: int| i <= m < after_preamble(ls, i) ==> before_items(#[trigger] ls[m]),
        after_preamble(ls, i) < ls.len() ==> !before_items(ls[after_preamble(ls, i)]),
    decreases ls.len() - i,
{
    if i < ls.len() && preliminary(ls[i]) {
        lemma_after_preamble(ls, i + 1);
    }
}

/// A module that is not declared yet is declared in a line of its own, and the other
/// lines stay as they are. The line stands after the last `mod`; without any, after the
/// last `use`; without any, after the lines that may stand before all items, and a
/// `#!` line for the shell.
pub proof fn law_declaration_is_placed(text: Seq<char>, module: Seq<char>) -> (at_line: int)
    ensures
        crate_mod(text, module) matches Some(new) ==> {
            let ls = lines(text);
            let line = "pub mod "@ + module + ";"@;
            let all = joined(ls.take(at_line) + seq![line] + ls.skip(at_line), "\n"@);
            &&& 0 <= at_line <= ls.len()
            &&& new == all || new == all + "\n"@
            &&& {
                ||| last_start(ls, "mod "@, "pub mod "@, at_line - 1)
                ||| no_start(ls, "mod "@, "pub mod "@) && last_start(
                    ls,
                    "use "@,
                    "pub use "@,
                    at_line - 1,
                )
                ||| {
                    &&& no_start(ls, "mod "@, "pub mod "@) && no_start(ls, "use "@, "pub use "@)
                    &&& forall|m: int| 0 < m < at_line ==> before_items(#[trigger] ls[m])
                    &&& at_line > 0 ==> before_items(ls[0]) || (at(ls[0], "#!"@, 0) && !at(
                        ls[0],
                        "#!["@,
                        0,
                    ))
                    &&& 0 < at_line < ls.len() ==> !before_items(ls[at_line])
                }
            }
        },
{
    let ls = lines(text);
    let p = insertion(ls);
    lemma_after_last(ls, "mod "@, "pub mod "@);
    lemma_after_last(ls, "use "@, "pub use "@);
    let from = if ls.len() > 0 && shebang(ls[0]) {
        1int
    } else {
        0int
    };
    lemma_after_preamble(ls, from);
    let line = "pub mod "@ + module + ";"@;
    assert(0 <= p <= ls.len());
    assert(with_declaration(ls, module) =~= ls.take(p) + seq![line] + ls.skip(p));
    p
}

// ---------------------------------------------------------------------------
// Entries in a module file
// ---------------------------------------------------------------------------

proof fn lemma_gated(es: Seq<ModLineView>, gate: Option<Seq<char>>, k: int)
    requires
        0 <= k < es.len(),
    ensures
        gated(es, gate).contains(es[k].raw),
        gate matches Some(g) ==> gated(es, gate).contains(g),
    decreases es.len(),
{
    let all = gated(es, gate);
    let before = gated(es.drop_last(), gate);
    assert(all[all.len() - 1] == es.last().raw);
    if gate is Some {
        assert(all[all.len() - 2] == gate->0);
    }
    if k < es.len() - 1 {
        lemma_gated(es.drop_last(), gate, k);
        let x = choose|x: int| 0 <= x < before.len() && before[x] == es[k].raw;
        assert(all[x] == es[k].raw);
    }
}

proof fn lemma_entry_kept(ls: Seq<Seq<char>>, l: Seq<char>, n: int)
    requires
        0 <= n < ls.len(),
        ls[n] == l,
        entry(l) is Some,
    ensures
        entries(ls).contains(ModLineView { name: entry(l)->0, raw: l }),
    decreases ls.len(),
{
    let e = ModLineView { name: entry(l)->0, raw: l };
    let less = ls.drop_last();
    if n == ls.len() - 1 {
        assert(entries(ls)[entries(ls).len() - 1] == e);
    } else {
        lemma_entry_kept(less, l, n);
        let x = choose|x: int| 0 <= x < entries(less).len() && entries(less)[x] == e;
        assert(entries(ls)[x] == e);
    }
}

proof fn lemma_written(
    ls: Seq<Seq<char>>,
    name: Seq<char>,
    gate: Option<Seq<char>>,
    allow_unused: bool,
    e: ModLineView,
)
    requires
        with_entry(entries(ls), name).contains(e),
    ensures
        mod_lines(ls, name, gate, allow_unused).contains(e.raw),
        gate matches Some(g) ==> mod_lines(ls, name, gate, allow_unused).contains(g),
{
    let es = crate::order::sorted(with_entry(entries(ls), name), rank::<ModLine>());
    lemma_sorted_contains(with_entry(entries(ls), name), rank::<ModLine>(), e);
    let k = choose|k: int| 0 <= k < es.len() && es[k] == e;
    lemma_gated(es, gate, k);
    let all = mod_lines(ls, name, gate, allow_unused);
    let tail = gated(es, gate);
    let x = choose|x: int| 0 <= x < tail.len() && tail[x] == e.raw;
    assert(all[all.len() - tail.len() + x] == e.raw);
    if gate is Some {
        let y = choose|y: int| 0 <= y < tail.len() && tail[y] == gate->0;
        assert(all[all.len() - tail.len() + y] == gate->0);
    }
}

/// A module without an entry is given two lines, one that declares it and one that
/// exports its items; every entry already there stays; a `cfg` attribute that is asked
/// for stands among the lines; and the file opens with `#![allow(unused_imports)]` if
/// that is asked for.
pub proof fn law_entries_are_written(
    ls: Seq<Seq<char>>,
    name: Seq<char>,
    gate: Option<Seq<char>>,
    allow_unused: bool,
)
    ensures
        ({
            let all = mod_lines(ls, name, gate, allow_unused);
            &&& !has_entry(entries(ls), name) ==> all.contains("pub mod "@ + name + ";"@)
                && all.contains("pub use "@ + name + "::*;"@)
            &&& !has_entry(entries(ls), name) && gate is Some ==> all.contains(gate->0)
            &&& forall|n: int|
                0 <= n < ls.len() && entry(#[trigger] ls[n]) is Some ==> all.contains(ls[n])
            &&& allow_unused ==> all.len() > 0 && all[0] == "#![allow(unused_imports)]"@
        }),
{
    let es = entries(ls);
    if !has_entry(es, name) {
        let m = ModLineView { name, raw: "pub mod "@ + name + ";"@ };
        let u = ModLineView { name, raw: "pub use "@ + name + "::*;"@ };
        let with = with_entry(es, name);
        assert(with[es.len() as int] == m);
        assert(with[(es.len() + 1) as int] == u);
        lemma_written(ls, name, gate, allow_unused, m);
        lemma_written(ls, name, gate, allow_unused, u);
    }
    assert forall|n: int| 0 <= n < ls.len() && entry(#[trigger] ls[n]) is Some implies mod_lines(
        ls,
        name,
        gate,
        allow_unused,
    ).contains(ls[n]) by {
        lemma_entry_kept(ls, ls[n], n);
        let e = ModLineView { name: entry(ls[n])->0, raw: ls[n] };
        let x = choose|x: int| 0 <= x < es.len() && es[x] == e;
        assert(with_entry(es, name)[x] == e);
        lemma_written(ls, name, gate, allow_unused, e);
    }
}

/// A line `pub mod n;` or `pub use n::*;` is an entry for `n`.
pub proof fn law_what_an_entry_is(name: Seq<char>)
    ensures
        trimmed("pub mod "@ + name + ";"@) == "pub mod "@ + name + ";"@ ==> entry(
            "pub mod "@ + name + ";"@,
        ) == Some(name),
        trimmed("pub use "@ + name + "::*;"@) == "pub use "@ + name + "::*;"@ ==> entry(
            "pub use "@ + name + "::*;"@,
        ) == Some(name),
{
    let m = "pub mod "@ + name + ";"@;
    let u = "pub use "@ + name + "::*;"@;
    if trimmed(m) == m {
        lemma_no_attribute(m, "pub mod "@, name + ";"@);
        law_where_a_text_stands(Seq::empty(), "pub mod "@, name + ";"@);
        law_where_a_text_stands(name, ";"@, Seq::empty());
        assert(m =~= "pub mod "@ + (name + ";"@));
    }
    if trimmed(u) == u {
        lemma_no_attribute(u, "pub use "@, name + "::*;"@);
        law_where_a_text_stands(Seq::empty(), "pub use "@, name + "::*;"@);
        law_where_a_text_stands(name, "::*;"@, Seq::empty());
        assert(u =~= "pub use "@ + (name + "::*;"@));
        lemma_no_mod(u, name + "::*;"@);
    }
}

/// A text that begins like an entry is no attribute.
proof fn lemma_no_attribute(l: Seq<char>, front: Seq<char>, rest: Seq<char>)
    requires
        l =~= front + rest,
        front == "pub mod "@ || front == "pub use "@,
        trimmed(l) == l,
    ensures
        !shielding(l),
        !gating(l),
{
    reveal_strlit("pub mod ");
    reveal_strlit("pub use ");
    reveal_strlit("#![allow(unused_imports)]");
    reveal_strlit("#[cfg(");
    assert(l[0] == 'p');
    assert("#![allow(unused_imports)]"@[0] == '#');
    if begins(l, "#[cfg("@) {
        assert(l.subrange(0, 6)[0] == l[0]);
        assert("#[cfg("@[0] == '#');
    }
}

proof fn lemma_no_mod(l: Seq<char>, rest: Seq<char>)
    requires
        l =~= "pub use "@ + rest,
    ensures
        !begins(l, "pub mod "@),
{
    reveal_strlit("pub mod ");
    reveal_strlit("pub use ");
    assert(l[4] == 'u');
    if begins(l, "pub mod "@) {
        assert(l.subrange(0, 8)[4] == l[4]);
        assert("pub mod "@[4] == 'm');
    }
}

} // verus!
