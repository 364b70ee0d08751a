//! The return type of a server function.
use vstd::prelude::*;

use crate::lower::{parse_type, parsed_type};
use crate::order::{gather, only_if, put};
use crate::tape::{Kind, Node, NodeView};
use crate::text::{ends, ends_with, owned, remove_char, same, without};

verus! {

pub open spec fn already_result(ret: Seq<char>, inner: Seq<char>) -> Seq<char> {
    "return_type `"@
        + ret
        + "` already wraps the inner type in ServerFnResult; pass just `"@
        + inner
        + "` instead — the template wraps it in `Result<_, ServerFnError>` for you."@
}

fn already_result_of(ret: &str, inner: &str) -> (r: String)
    ensures
        r@ == already_result(ret@, inner@),
{
    let mut s = owned("return_type `");
    s.append(ret);
    s.append("` already wraps the inner type in ServerFnResult; pass just `");
    s.append(inner);
    s.append("` instead — the template wraps it in `Result<_, ServerFnError>` for you.");
    s
}

pub open spec fn already_wrapped(ret: Seq<char>, inner: Seq<char>) -> Seq<char> {
    "return_type `"@
        + ret
        + "` already wraps the inner type in `Result<_, ServerFnError>`; pass just `"@
        + inner
        + "` instead — the template wraps it for you."@
}

fn already_wrapped_of(ret: &str, inner: &str) -> (r: String)
    ensures
        r@ == already_wrapped(ret@, inner@),
{
    let mut s = owned("return_type `");
    s.append(ret);
    s.append("` already wraps the inner type in `Result<_, ServerFnError>`; pass just `");
    s.append(inner);
    s.append("` instead — the template wraps it for you.");
    s
}

pub open spec fn argument_at(t: Seq<NodeView>) -> spec_fn(int) -> Seq<Seq<char>> {
    |k: int|
        only_if(
            t[k].kind == Kind::GenType && t[k].parent == t[0].last && t[0].last > 0,
            t[k].text,
        )
}

/// The tokens of the type arguments of the last segment of the type at node 0.
pub open spec fn arguments(t: Seq<NodeView>) -> Seq<Seq<char>> {
    gather(1, t.len() as int, argument_at(t))
}

fn arguments_of(t: &Vec<Node>) -> (r: Vec<String>)
    requires
        t.len() > 0,
    ensures
        r.deep_view() == arguments(t.deep_view()),
{
    let mut out: Vec<String> = Vec::new();
    let mut k: usize = 1;
    while k < t.len()
        invariant
            1 <= k <= t.len(),
            t.len() > 0,
            out.deep_view() == gather(1, k as int, argument_at(t.deep_view())),
        decreases t.len() - k,
    {
        assert(t.deep_view()[k as int] == t@[k as int].deep_view());
        assert(t.deep_view()[0] == t@[0].deep_view());
        if t[k].kind == Kind::GenType && t[k].parent == t[0].last && t[0].last > 0 {
            put(&mut out, owned(t[k].text.as_str()));
        }
        k += 1;
    }
    out
}

/// Why `ret`, laid out as `t`, cannot be the inner type of a server function.
pub open spec fn wrapped(ret: Seq<char>, t: Seq<NodeView>) -> Option<Seq<char>> {
    if t.len() == 0 || t[0].kind != Kind::TyPath {
        None
    } else {
        let args = arguments(t);
        if t[0].name == "ServerFnResult"@ && args.len() == 1 {
            Some(already_result(ret, args[0]))
        } else if t[0].name == "Result"@ && args.len() == 2 && ends(
            without(args[1], ' '),
            "ServerFnError"@,
        ) {
            Some(already_wrapped(ret, args[0]))
        } else {
            None
        }
    }
}

/// Why the type `ret`, laid out as nodes, cannot be the inner type of a server
/// function, if that is so.
pub fn check_type(ret: &str, t: &Vec<Node>) -> (r: Option<String>)
    ensures
        r.deep_view() == wrapped(ret@, t.deep_view()),
{
    if t.len() == 0 {
        return None;
    }
    assert(t.deep_view()[0] == t@[0].deep_view());
    if t[0].kind != Kind::TyPath {
        return None;
    }
    let args = arguments_of(t);
    assert(args.deep_view().len() == args@.len());
    if same(t[0].name.as_str(), "ServerFnResult") && args.len() == 1 {
        assert(args.deep_view()[0] == args@[0]@);
        return Some(already_result_of(ret, args[0].as_str()));
    }
    if same(t[0].name.as_str(), "Result") && args.len() == 2 {
        assert(args.deep_view()[0] == args@[0]@);
        assert(args.deep_view()[1] == args@[1]@);
        if ends_with(remove_char(args[1].as_str(), ' ').as_str(), "ServerFnError") {
            return Some(already_wrapped_of(ret, args[0].as_str()));
        }
    }
    None
}

/// What is wrong with `ret`, if anything. A text that is no type is left to the
/// compiler.
pub open spec fn return_fault(ret: Seq<char>) -> Option<Seq<char>> {
    match parsed_type(ret) {
        Some(t) => wrapped(ret, t),
        None => None,
    }
}

/// A server function's file wraps the return type in `Result<_, ServerFnError>`.
/// Gives the reason why `ret` must not be wrapped already, if it is.
pub fn check_inner_return_type(ret: &str) -> (r: Option<String>)
    ensures
        r.deep_view() == return_fault(ret@),
{
    match parse_type(ret) {
        Some(t) => check_type(ret, &t),
        None => None,
    }
}

} // verus!
