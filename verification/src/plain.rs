//! Plain words for nodes, in which laws are stated.
//!
//! What a lint finds is defined step by step, close to how it is found. The laws say
//! what it finds in terms of the nodes alone: their kinds, names, parents and the
//! ends of their subtrees. This module holds the words that several laws share.
use vstd::prelude::*;

use crate::order::{gather, only_if};
use crate::scan::{attr_at, body_end, body_start, component, kid_at, kids, token};
use crate::tape::{operand, stop, Kind, Node};

verus! {

/// Node `j` stands in the subtree of node `m`.
pub open spec fn under(t: Seq<Node>, m: int, j: int) -> bool {
    0 <= m < j < t[m].end <= t.len()
}

/// Node `i` is a function at the top level with the attribute `component`, and its
/// body is the node at `b`.
pub open spec fn component_with_body(t: Seq<Node>, i: int, b: int) -> bool {
    &&& 0 < i < t.len() && t[i].kind == Kind::Fn && t[i].parent == 0
    &&& exists|a: int|
        under(t, i, a) && (#[trigger] t[a]).kind == Kind::Attr && t[a].parent == i && t[a].name@
            == "component"@
    &&& operand(t, i, (t[i].count + 1) as nat) == Some(b)
    &&& 0 <= b < t[b].end <= t.len()
}

pub proof fn lemma_component_with_body(t: Seq<Node>, i: int, b: int)
    requires
        component_with_body(t, i, b),
    ensures
        component(t, i),
        body_start(t, i) == b,
        body_end(t, i) == t[b].end,
{
    let a = choose|a: int|
        under(t, i, a) && (#[trigger] t[a]).kind == Kind::Attr && t[a].parent == i && t[a].name@
            == "component"@;
    assert(attr_at(t, i, a, "component"@));
}

/// Node `j` calls a path that ends in `name`; the path is the node at `f`.
pub open spec fn calls(t: Seq<Node>, j: int, f: int, name: Seq<char>) -> bool {
    &&& 0 <= j < t.len() && t[j].kind == Kind::Call
    &&& under(t, j, f) && t[j].first == f
    &&& t[f].kind == Kind::Path && t[f].name@ == name
}

pub proof fn lemma_calls(t: Seq<Node>, j: int, f: int, name: Seq<char>)
    requires
        calls(t, j, f, name),
    ensures
        operand(t, j, 0) == Some(f),
        crate::scan::call_tail(t, j) == Some(name),
{
}

// ---------------------------------------------------------------------------
// Tokens
// ---------------------------------------------------------------------------

/// Node `j` is a token that stands directly in node `g`.
pub open spec fn token_in(t: Seq<Node>, g: int, j: int) -> bool {
    &&& under(t, g, j) && t[j].parent == g
    &&& t[j].kind == Kind::TokIdent || t[j].kind == Kind::TokPunct || t[j].kind == Kind::TokLit
        || t[j].kind == Kind::TokGroup
}

/// Node `j` is the identifier `name`, directly in node `g`.
pub open spec fn ident_in(t: Seq<Node>, g: int, j: int, name: Seq<char>) -> bool {
    under(t, g, j) && t[j].parent == g && t[j].kind == Kind::TokIdent && t[j].name@ == name
}

/// Node `j` is the mark `name`, directly in node `g`.
pub open spec fn mark_in(t: Seq<Node>, g: int, j: int, name: Seq<char>) -> bool {
    under(t, g, j) && t[j].parent == g && t[j].kind == Kind::TokPunct && t[j].name@ == name
}

/// Node `j` is a group that opens with `name`, directly in node `g`.
pub open spec fn group_in(t: Seq<Node>, g: int, j: int, name: Seq<char>) -> bool {
    under(t, g, j) && t[j].parent == g && t[j].kind == Kind::TokGroup && t[j].name@ == name
}

/// Node `j` is a token of the macro at `m`: it stands in it with nothing but groups
/// between, however many.
pub open spec fn token_of(t: Seq<Node>, m: int, j: int) -> bool
    decreases j,
{
    let p = t[j].parent as int;
    &&& token_in(t, p, j)
    &&& p == m || (m < p < j && t[p].kind == Kind::TokGroup && token_of(t, m, p))
}

/// How many tokens stand directly in node `g` before position `j`.
pub open spec fn tokens_before(t: Seq<Node>, g: int, j: int) -> int {
    gather(g + 1, j, kid_at(t, g)).len() as int
}

/// A token has its number among those of its group.
pub proof fn lemma_token_number(t: Seq<Node>, g: int, j: int)
    requires
        token_in(t, g, j),
        t.len() <= usize::MAX,
    ensures
        0 <= tokens_before(t, g, j) < kids(t, g).len(),
        kids(t, g)[tokens_before(t, g, j)] == j,
        tokens_before(t, g, j + 1) == tokens_before(t, g, j) + 1,
{
    lemma_prefix(t, g, j + 1, stop(t, g));
    let one = gather(g + 1, j + 1, kid_at(t, g));
    assert(one == gather(g + 1, j, kid_at(t, g)) + only_if(true, j as usize));
    assert(one.last() == j as usize);
}

proof fn lemma_prefix(t: Seq<Node>, g: int, j: int, hi: int)
    requires
        g + 1 <= j <= hi,
    ensures
        gather(g + 1, j, kid_at(t, g)).len() <= gather(g + 1, hi, kid_at(t, g)).len(),
        forall|x: int|
            0 <= x < gather(g + 1, j, kid_at(t, g)).len() ==> #[trigger] gather(
                g + 1,
                hi,
                kid_at(t, g),
            )[x] == gather(g + 1, j, kid_at(t, g))[x],
    decreases hi - j,
{
    if j < hi {
        lemma_prefix(t, g, j, hi - 1);
    }
}

/// What is numbered is a token, and a later one has a higher number.
pub proof fn lemma_numbered(t: Seq<Node>, g: int, x: int)
    requires
        0 <= g < t.len(),
        0 <= x < kids(t, g).len(),
        t.len() <= usize::MAX,
    ensures
        g < kids(t, g)[x] < stop(t, g),
        t[kids(t, g)[x] as int].parent == g,
        token(t[kids(t, g)[x] as int].kind),
        tokens_before(t, g, kids(t, g)[x] as int) == x,
{
    lemma_numbered_upto(t, g, stop(t, g), x);
}

proof fn lemma_numbered_upto(t: Seq<Node>, g: int, hi: int, x: int)
    requires
        0 <= g < t.len(),
        g + 1 <= hi <= t.len(),
        0 <= x < gather(g + 1, hi, kid_at(t, g)).len(),
        t.len() <= usize::MAX,
    ensures
        ({
            let j = gather(g + 1, hi, kid_at(t, g))[x] as int;
            g < j < hi && t[j].parent == g && token(t[j].kind) && tokens_before(t, g, j) == x
        }),
    decreases hi,
{
    let less = gather(g + 1, hi - 1, kid_at(t, g));
    if hi - 1 >= g + 1 {
        if x < less.len() {
            lemma_numbered_upto(t, g, hi - 1, x);
        }
    }
}

/// Numbers grow with positions.
pub proof fn lemma_numbers_grow(t: Seq<Node>, g: int, j: int, k: int)
    requires
        g + 1 <= j <= k,
    ensures
        tokens_before(t, g, j) <= tokens_before(t, g, k),
    decreases k - j,
{
    if j < k {
        lemma_numbers_grow(t, g, j, k - 1);
    }
}

} // verus!
