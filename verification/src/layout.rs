//! From marks to nodes.
//!
//! A reader of source text says what it meets as a sequence of marks: a value
//! begins, has a name, has tokens, ends. This module says what the marks amount to
//! as nodes: which node is whose parent, where a subtree ends, where the operands of
//! a node begin and how many there are, and what a node is called after its parts.
//! Whatever the marks are, the nodes make up a tree.
use vstd::prelude::*;

use crate::tape::{Kind, Node, NodeView};
use crate::text::owned;

verus! {

/// One thing that a reader of source text says.
#[derive(Debug)]
pub enum Mark {
    /// A value of a kind begins, at a line and a column.
    Open(Kind, usize, usize),
    /// The name of the value that has begun last and not ended.
    Name(String),
    /// Its tokens.
    Text(String),
    /// Whether it has some part.
    Flag(bool),
    /// The whole number that it is, if it fits.
    Number(Option<u64>),
    /// It ends.
    Close,
}

pub ghost enum MarkView {
    Open(Kind, usize, usize),
    Name(Seq<char>),
    Text(Seq<char>),
    Flag(bool),
    Number(Option<u64>),
    Close,
}

impl DeepView for Mark {
    type V = MarkView;

    open spec fn deep_view(&self) -> MarkView {
        match self {
            Mark::Open(kind, line, column) => MarkView::Open(*kind, *line, *column),
            Mark::Name(s) => MarkView::Name(s@),
            Mark::Text(s) => MarkView::Text(s@),
            Mark::Flag(b) => MarkView::Flag(*b),
            Mark::Number(n) => MarkView::Number(*n),
            Mark::Close => MarkView::Close,
        }
    }
}

// ---------------------------------------------------------------------------
// Parents and children
// ---------------------------------------------------------------------------

/// Kinds of children that stand before the operands of their parent.
pub open spec fn preamble(kind: Kind) -> bool {
    ||| kind == Kind::Attr
    ||| kind == Kind::VisPublic
    ||| kind == Kind::VisRestricted
    ||| kind == Kind::VisInherited
    ||| kind == Kind::Generics
    ||| kind == Kind::Segment
    ||| kind == Kind::Qualifier
    ||| kind == Kind::Ascribed
    ||| kind == Kind::ImplTrait
    ||| kind == Kind::ImplSelf
}

fn is_preamble(kind: Kind) -> (r: bool)
    ensures
        r == preamble(kind),
{
    match kind {
        Kind::Attr
        | Kind::VisPublic
        | Kind::VisRestricted
        | Kind::VisInherited
        | Kind::Generics
        | Kind::Segment
        | Kind::Qualifier
        | Kind::Ascribed
        | Kind::ImplTrait
        | Kind::ImplSelf => true,
        _ => false,
    }
}

/// A parent counts its children of some kind: a function its arguments, a closure
/// its parameters, a path its segments, and any other node its operands.
pub open spec fn counted(parent: Kind, child: Kind) -> bool {
    match parent {
        Kind::Fn => child == Kind::Arg || child == Kind::Receiver,
        Kind::Method => child == Kind::Arg || child == Kind::Receiver,
        Kind::Closure => child == Kind::Param,
        Kind::Path => child == Kind::Segment,
        _ => !preamble(child) && child != Kind::Turbofish,
    }
}

fn is_counted(parent: Kind, child: Kind) -> (r: bool)
    ensures
        r == counted(parent, child),
{
    match parent {
        Kind::Fn => child == Kind::Arg || child == Kind::Receiver,
        Kind::Method => child == Kind::Arg || child == Kind::Receiver,
        Kind::Closure => child == Kind::Param,
        Kind::Path => child == Kind::Segment,
        _ => !is_preamble(child) && child != Kind::Turbofish,
    }
}

/// What `p` is called after its child `c` at `i`: a path after its last segment, an
/// impl after its trait.
pub open spec fn named_after(p: NodeView, c: NodeView) -> Seq<char> {
    if c.kind == Kind::Segment || c.kind == Kind::ImplTrait || (p.kind == Kind::ImplSelf && c.kind
        == Kind::TyPath) {
        c.name
    } else {
        p.name
    }
}

/// The text of `p` after its child `c`: for a path the segment before its last one,
/// for an impl the name of its type, for a generic argument the tokens of its type.
pub open spec fn text_after(p: NodeView, c: NodeView) -> Seq<char> {
    if c.kind == Kind::Segment && p.kind == Kind::Path {
        p.name
    } else if c.kind == Kind::ImplSelf {
        c.name
    } else if p.kind == Kind::GenType {
        c.text
    } else {
        p.text
    }
}

/// The node `p` after its child `c` at `i`, whose subtree ends at `n`. A path stands
/// where its last segment does.
pub open spec fn settled(p: NodeView, c: NodeView, i: int, n: int) -> NodeView {
    let moved = c.kind == Kind::Segment && p.kind == Kind::Path;
    NodeView {
        name: named_after(p, c),
        text: text_after(p, c),
        line: if moved {
            c.line
        } else {
            p.line
        },
        column: if moved {
            c.column
        } else {
            p.column
        },
        first: if preamble(c.kind) {
            n as usize
        } else {
            p.first
        },
        last: if c.kind == Kind::Segment {
            i as usize
        } else {
            p.last
        },
        mark: p.mark || (p.kind == Kind::Fn && c.kind == Kind::VisPublic) || (p.kind == Kind::Path
            && c.kind == Kind::Qualifier),
        ..p
    }
}

/// A node of `kind` without parts, at `i`.
pub open spec fn fresh(kind: Kind, line: usize, column: usize, parent: int, i: int) -> NodeView {
    NodeView {
        kind,
        name: ""@,
        text: ""@,
        line,
        column,
        parent: parent as usize,
        end: (i + 1) as usize,
        first: (i + 1) as usize,
        last: 0,
        count: 0,
        value: 0,
        flag: false,
        mark: false,
    }
}

// ---------------------------------------------------------------------------
// Reading marks
// ---------------------------------------------------------------------------

/// The nodes so far, and the positions of those that have not ended, outermost first.
pub ghost struct Desk {
    pub nodes: Seq<NodeView>,
    pub open: Seq<usize>,
}

/// A value begins. What follows the end of the first value is left out.
pub open spec fn opened(d: Desk, kind: Kind, line: usize, column: usize) -> Desk {
    let i = d.nodes.len() as int;
    if d.open.len() > 0 {
        let p = d.open.last() as int;
        let parent = NodeView {
            count: if counted(d.nodes[p].kind, kind) {
                (d.nodes[p].count + 1) as usize
            } else {
                d.nodes[p].count
            },
            ..d.nodes[p]
        };
        Desk {
            nodes: d.nodes.update(p, parent).push(fresh(kind, line, column, p, i)),
            open: d.open.push(i as usize),
        }
    } else if i == 0 {
        Desk { nodes: d.nodes.push(fresh(kind, line, column, 0, 0)), open: d.open.push(0) }
    } else {
        d
    }
}

/// The innermost value ends.
pub open spec fn ended(d: Desk) -> Desk {
    let n = d.nodes.len() as int;
    if d.open.len() == 0 {
        d
    } else {
        let i = d.open.last() as int;
        let rest = d.open.drop_last();
        let node = NodeView { end: n as usize, ..d.nodes[i] };
        let nodes = d.nodes.update(i, node);
        if rest.len() == 0 {
            Desk { nodes, open: rest }
        } else {
            let p = rest.last() as int;
            Desk { nodes: nodes.update(p, settled(nodes[p], node, i, n)), open: rest }
        }
    }
}

/// The innermost value is `node` from now on.
pub open spec fn amended(d: Desk, node: NodeView) -> Desk {
    Desk { nodes: d.nodes.update(d.open.last() as int, node), open: d.open }
}

/// The desk after one more mark.
pub open spec fn read(d: Desk, m: MarkView) -> Desk {
    match m {
        MarkView::Open(kind, line, column) => opened(d, kind, line, column),
        MarkView::Close => ended(d),
        _ => if d.open.len() == 0 {
            d
        } else {
            let node = d.nodes[d.open.last() as int];
            match m {
                MarkView::Name(s) => amended(d, NodeView { name: s, ..node }),
                MarkView::Text(s) => amended(d, NodeView { text: s, ..node }),
                MarkView::Flag(b) => amended(d, NodeView { flag: b, ..node }),
                MarkView::Number(Some(v)) => amended(
                    d,
                    NodeView { flag: true, value: v, ..node },
                ),
                _ => d,
            }
        },
    }
}

/// The desk after the first `n` marks.
pub open spec fn desk(ms: Seq<MarkView>, n: int) -> Desk
    decreases n,
{
    if n <= 0 {
        Desk { nodes: Seq::empty(), open: Seq::empty() }
    } else {
        read(desk(ms, n - 1), ms[n - 1])
    }
}

/// The desk when `n` more values have ended.
pub open spec fn cleared(d: Desk, n: nat) -> Desk
    decreases n,
{
    if n == 0 {
        d
    } else {
        cleared(ended(d), (n - 1) as nat)
    }
}

/// The nodes that the marks amount to. What has not ended ends with the last mark.
pub open spec fn laid(ms: Seq<MarkView>) -> Seq<NodeView> {
    let d = desk(ms, ms.len() as int);
    cleared(d, d.open.len()).nodes
}

// ---------------------------------------------------------------------------
// Trees
// ---------------------------------------------------------------------------

/// The nodes make up one tree, in the order in which a reader meets them: each
/// node's subtree is the nodes from it up to its `end`, lies within its parent's, and
/// holds its operands from `first` on.
#[verifier::opaque]
pub open spec fn tree(t: Seq<NodeView>) -> bool {
    &&& t.len() > 0 ==> t[0].parent == 0 && t[0].end == t.len()
    &&& forall|i: int| 0 <= i < t.len() ==> i < (#[trigger] t[i]).first <= t[i].end <= t.len()
    &&& forall|i: int|
        0 < i < t.len() ==> (#[trigger] t[i]).parent < i && t[i].end <= t[t[i].parent as int].end
    &&& forall|i: int, j: int|
        0 <= i < j < t.len() && j < (#[trigger] t[i]).end ==> i <= (#[trigger] t[j]).parent
}

/// Where the subtree of node `i` ends so far.
pub open spec fn so_far(d: Desk, i: int) -> int {
    if d.open.contains(i as usize) {
        d.nodes.len() as int
    } else {
        d.nodes[i].end as int
    }
}

/// The positions of the nodes that have not ended, each inside the one before.
pub open spec fn stacked(d: Desk) -> bool {
    &&& d.open.len() > 0 ==> d.open[0] == 0
    &&& forall|k: int| 0 <= k < d.open.len() ==> #[trigger] d.open[k] < d.nodes.len()
    &&& forall|k: int, l: int|
        0 <= k < l < d.open.len() ==> #[trigger] d.open[k] < #[trigger] d.open[l]
    &&& forall|k: int|
        0 < k < d.open.len() ==> (#[trigger] d.nodes[d.open[k] as int]).parent == d.open[k - 1]
}

/// The nodes on a desk make up a tree so far.
#[verifier::opaque]
pub open spec fn growing(d: Desk) -> bool {
    let n = d.nodes.len() as int;
    &&& n <= usize::MAX
    &&& stacked(d)
    &&& n > 0 ==> d.nodes[0].parent == 0 && so_far(d, 0) == n
    &&& forall|i: int| 0 <= i < n ==> (#[trigger] d.nodes[i]).count <= n
    &&& forall|i: int| 0 <= i < n ==> i < (#[trigger] d.nodes[i]).first <= so_far(d, i) <= n
    &&& forall|i: int|
        0 < i < n ==> (#[trigger] d.nodes[i]).parent < i && so_far(d, i) <= so_far(
            d,
            d.nodes[i].parent as int,
        )
    &&& forall|i: int, j: int|
        0 <= i < j < n && j < #[trigger] so_far(d, i) ==> i <= (#[trigger] d.nodes[j]).parent
}

/// A node that has not ended stands in one that has not ended.
proof fn lemma_parent_open(d: Desk, i: int)
    requires
        growing(d),
        0 < i < d.nodes.len(),
        d.open.contains(i as usize),
    ensures
        d.open.contains(d.nodes[i].parent),
{
    reveal(growing);
    let k = choose|k: int| 0 <= k < d.open.len() && d.open[k] == i as usize;
    assert(d.open[k] as int == i);
    assert(d.nodes[d.open[k] as int].parent == d.open[k - 1]);
}

proof fn lemma_opened(d: Desk, kind: Kind, line: usize, column: usize)
    requires
        growing(d),
        d.nodes.len() < usize::MAX,
    ensures
        growing(opened(d, kind, line, column)),
{
    reveal(growing);
    let e = opened(d, kind, line, column);
    let n = d.nodes.len() as int;
    if d.open.len() > 0 {
        let p = d.open.last() as int;
        let top = d.open.len() as int;
        assert(e.open[top] == n as usize);
        assert(e.open.contains(n as usize));
        assert forall|i: int| 0 <= i < n implies (#[trigger] e.open.contains(i as usize)
            <==> d.open.contains(i as usize)) by {
            if d.open.contains(i as usize) {
                let k = choose|k: int| 0 <= k < d.open.len() && d.open[k] == i as usize;
                assert(e.open[k] == i as usize);
            }
            if e.open.contains(i as usize) {
                let k = choose|k: int| 0 <= k < e.open.len() && e.open[k] == i as usize;
                assert(k < top);
                assert(d.open[k] == i as usize);
            }
        }
        assert forall|i: int| 0 <= i < n implies e.nodes[i].end == d.nodes[i].end && e.nodes[i].first
            == d.nodes[i].first && (#[trigger] e.nodes[i]).parent == d.nodes[i].parent
            && e.nodes[i].count <= n + 1 by {}
        assert forall|i: int| 0 <= i < n implies (#[trigger] so_far(e, i)) == so_far(d, i) || (
        d.open.contains(i as usize) && so_far(e, i) == n + 1 && so_far(d, i) == n) by {
            assert(e.nodes[i].end == d.nodes[i].end);
        }
        assert(so_far(e, n) == n + 1);
        assert(d.open[0] == 0);
        assert(d.open.contains(0));
        assert(e.open.contains(0usize));
        assert(d.open[top - 1] == p as usize);
        assert(d.open.contains(p as usize));
        assert(so_far(e, p) == n + 1);
        assert(stacked(e)) by {
            assert forall|k: int| 0 < k < e.open.len() implies (#[trigger] e.nodes[e.open[k] as int]).parent
                == e.open[k - 1] by {
                if k < top {
                    assert(d.nodes[d.open[k] as int].parent == d.open[k - 1]);
                }
            }
        }
        assert forall|i: int| 0 < i < e.nodes.len() implies (#[trigger] e.nodes[i]).parent < i
            && so_far(e, i) <= so_far(e, e.nodes[i].parent as int) by {
            if i < n {
                let q = d.nodes[i].parent as int;
                assert(so_far(d, i) <= so_far(d, q));
                if d.open.contains(i as usize) {
                    lemma_parent_open(d, i);
                    assert(e.open.contains(q as usize));
                }
            }
        }
        assert forall|i: int, j: int|
            0 <= i < j < e.nodes.len() && j < #[trigger] so_far(e, i) implies i <= (
        #[trigger] e.nodes[j]).parent by {
            if j < n {
                assert(j < so_far(d, i));
                assert(i <= d.nodes[j].parent);
            } else {
                assert(so_far(d, i) <= n);
                assert(d.open.contains(i as usize));
                let k = choose|k: int| 0 <= k < d.open.len() && d.open[k] == i as usize;
                if k < top - 1 {
                    assert(d.open[k] < d.open[top - 1]);
                }
            }
        }
    } else if n == 0 {
        assert(e.open[0] == 0);
        assert(e.open.contains(0));
    }
}

/// Two desks whose nodes have the same places, and which agree on what has ended.
proof fn lemma_same_shape(d: Desk, e: Desk)
    requires
        growing(d),
        stacked(e),
        e.nodes.len() == d.nodes.len(),
        forall|i: int|
            0 <= i < d.nodes.len() ==> (#[trigger] e.nodes[i]).parent == d.nodes[i].parent && so_far(
                e,
                i,
            ) == so_far(d, i) && e.nodes[i].count == d.nodes[i].count && i < e.nodes[i].first
                <= so_far(d, i),
    ensures
        growing(e),
{
    reveal(growing);
    assert forall|i: int| 0 < i < e.nodes.len() implies (#[trigger] e.nodes[i]).parent < i && so_far(
        e,
        i,
    ) <= so_far(e, e.nodes[i].parent as int) by {
        assert(d.nodes[i].parent < i);
        assert(e.nodes[d.nodes[i].parent as int].parent == d.nodes[d.nodes[i].parent as int].parent);
    }
    assert forall|i: int, j: int|
        0 <= i < j < e.nodes.len() && j < #[trigger] so_far(e, i) implies i <= (
    #[trigger] e.nodes[j]).parent by {
        assert(e.nodes[i].parent == d.nodes[i].parent);
        assert(j < so_far(d, i));
        assert(i <= d.nodes[j].parent);
    }
    if e.nodes.len() > 0 {
        assert(e.nodes[0].parent == d.nodes[0].parent);
    }
    assert forall|i: int| 0 <= i < e.nodes.len() implies (#[trigger] e.nodes[i]).count
        <= e.nodes.len() by {
        assert(d.nodes[i].count <= d.nodes.len());
    }
    assert forall|i: int| 0 <= i < e.nodes.len() implies i < (#[trigger] e.nodes[i]).first <= so_far(
        e,
        i,
    ) <= e.nodes.len() by {
        assert(i < d.nodes[i].first <= so_far(d, i) <= d.nodes.len());
    }
}

/// All but the innermost of what had not ended has still not ended.
proof fn lemma_left_open(d: Desk, j: usize)
    requires
        stacked(d),
        d.open.len() > 0,
    ensures
        d.open.drop_last().contains(j) <==> d.open.contains(j) && j != d.open.last(),
{
    let rest = d.open.drop_last();
    let top = d.open.len() - 1;
    if rest.contains(j) {
        let k = choose|k: int| 0 <= k < rest.len() && rest[k] == j;
        assert(d.open[k] == j);
        assert(d.open[k] < d.open[top]);
    }
    if d.open.contains(j) && j != d.open.last() {
        let k = choose|k: int| 0 <= k < d.open.len() && d.open[k] == j;
        assert(rest[k] == j);
    }
}

/// The places of node `j` when the innermost value has ended.
proof fn lemma_ended_node(d: Desk, j: int)
    requires
        growing(d),
        d.open.len() > 0,
        0 <= j < d.nodes.len(),
    ensures
        ended(d).nodes[j].parent == d.nodes[j].parent,
        so_far(ended(d), j) == so_far(d, j),
        ended(d).nodes[j].count == d.nodes[j].count,
        j < ended(d).nodes[j].first <= so_far(d, j),
{
    reveal(growing);
    let top = d.open.len() - 1;
    lemma_left_open(d, j as usize);
    assert(d.open[top] == d.open.last());
    assert(d.open.contains(d.open.last()));
    assert(j < d.nodes[j].first <= so_far(d, j));
    if top > 0 {
        let p = d.open[top - 1];
        assert(p < d.open[top]);
        assert(d.open.contains(p));
    }
}

proof fn lemma_ended_stacked(d: Desk)
    requires
        stacked(d),
        d.open.len() > 0,
    ensures
        stacked(ended(d)),
{
    let e = ended(d);
    assert(e.open =~= d.open.drop_last());
    assert forall|k: int| 0 < k < e.open.len() implies (#[trigger] e.nodes[e.open[k] as int]).parent
        == e.open[k - 1] by {
        assert(d.nodes[d.open[k] as int].parent == d.open[k - 1]);
    }
}

proof fn lemma_ended(d: Desk)
    requires
        growing(d),
    ensures
        growing(ended(d)),
{
    if d.open.len() > 0 {
        let e = ended(d);
        assert(stacked(d)) by {
            reveal(growing);
        }
        lemma_ended_stacked(d);
        assert forall|j: int| 0 <= j < d.nodes.len() implies (#[trigger] e.nodes[j]).parent
            == d.nodes[j].parent && so_far(e, j) == so_far(d, j) && e.nodes[j].count
            == d.nodes[j].count && j < e.nodes[j].first <= so_far(d, j) by {
            lemma_ended_node(d, j);
        }
        lemma_same_shape(d, e);
    }
}

proof fn lemma_amended(d: Desk, node: NodeView)
    requires
        growing(d),
        d.open.len() > 0,
        ({
            let was = d.nodes[d.open.last() as int];
            node.parent == was.parent && node.end == was.end && node.first == was.first
                && node.count == was.count
        }),
    ensures
        growing(amended(d, node)),
{
    reveal(growing);
    let e = amended(d, node);
    assert(stacked(e)) by {
        assert forall|k: int| 0 < k < e.open.len() implies (#[trigger] e.nodes[e.open[k] as int]).parent
            == e.open[k - 1] by {
            assert(d.nodes[d.open[k] as int].parent == d.open[k - 1]);
        }
    }
    assert forall|j: int| 0 <= j < d.nodes.len() implies (#[trigger] e.nodes[j]).parent
        == d.nodes[j].parent && so_far(e, j) == so_far(d, j) && e.nodes[j].count == d.nodes[j].count
        && j < e.nodes[j].first <= so_far(d, j) by {
        assert(j < d.nodes[j].first <= so_far(d, j));
    }
    lemma_same_shape(d, e);
}

/// When everything has ended, the nodes on a desk make up a tree.
proof fn lemma_tree(d: Desk)
    requires
        growing(d),
        d.open.len() == 0,
    ensures
        tree(d.nodes),
{
    reveal(tree);
    reveal(growing);
    assert forall|i: int| 0 <= i < d.nodes.len() implies so_far(d, i) == (
    #[trigger] d.nodes[i]).end by {}
    assert forall|i: int, j: int|
        0 <= i < j < d.nodes.len() && j < (#[trigger] d.nodes[i]).end implies i <= (
    #[trigger] d.nodes[j]).parent by {
        assert(j < so_far(d, i));
    }
}

/// Before the first mark there is nothing.
proof fn lemma_blank(d: Desk, ms: Seq<MarkView>)
    requires
        d.nodes.len() == 0,
        d.open.len() == 0,
    ensures
        growing(d),
        d == desk(ms, 0),
{
    reveal(growing);
    assert(d.nodes =~= desk(ms, 0).nodes);
    assert(d.open =~= desk(ms, 0).open);
}

/// What has not ended is a node.
proof fn lemma_top(d: Desk)
    requires
        growing(d),
        d.open.len() > 0,
    ensures
        d.open.last() < d.nodes.len(),
{
    reveal(growing);
}

// ---------------------------------------------------------------------------
// Nodes
// ---------------------------------------------------------------------------

/// What a list of nodes and a stack of positions are a view of.
pub open spec fn desk_of(nodes: &Vec<Node>, open: &Vec<usize>) -> Desk {
    Desk { nodes: nodes.deep_view(), open: open@ }
}

fn begin(
    nodes: &mut Vec<Node>,
    open: &mut Vec<usize>,
    kind: Kind,
    line: usize,
    column: usize,
)
    requires
        growing(desk_of(old(nodes), old(open))),
    ensures
        desk_of(final(nodes), final(open)) == opened(
            desk_of(old(nodes), old(open)),
            kind,
            line,
            column,
        ),
        growing(desk_of(final(nodes), final(open))),
{
    reveal(growing);
    let ghost d = desk_of(nodes, open);
    let i = nodes.len();
    let k = open.len();
    if k == 0 && i > 0 {
        return;
    }
    let parent: usize = if k > 0 {
        open[k - 1]
    } else {
        0
    };
    let (name, text) = (owned(""), owned(""));
    let (end, first, last, count, value) = (0usize, 0usize, 0usize, 0usize, 0u64);
    let (flag, mark) = (false, false);
    let node = Node {
        kind,
        name,
        text,
        line,
        column,
        parent,
        end,
        first,
        last,
        count,
        value,
        flag,
        mark,
    };
    nodes.push(node);
    let n = nodes.len();
    proof {
        lemma_opened(d, kind, line, column);
    }
    nodes[i].end = n;
    nodes[i].first = n;
    if k > 0 {
        assert(nodes@[parent as int].deep_view() == d.nodes[parent as int]);
        if is_counted(nodes[parent].kind, kind) {
            nodes[parent].count = nodes[parent].count + 1;
        }
    }
    open.push(i);
    assert(desk_of(nodes, open).nodes =~= opened(d, kind, line, column).nodes);
}

fn end(nodes: &mut Vec<Node>, open: &mut Vec<usize>)
    requires
        growing(desk_of(old(nodes), old(open))),
    ensures
        desk_of(final(nodes), final(open)) == ended(desk_of(old(nodes), old(open))),
        growing(desk_of(final(nodes), final(open))),
{
    let ghost d = desk_of(nodes, open);
    proof {
        reveal(growing);
        lemma_ended(d);
    }
    let k = open.len();
    if k == 0 {
        return;
    }
    let i = open[k - 1];
    assert(d.open.last() == i);
    let n = nodes.len();
    nodes[i].end = n;
    open.pop();
    if k > 1 {
        let p = open[k - 2];
        assert(d.open[k - 2] == p);
        assert(d.open[k - 2] < d.open[k - 1]);
        settle(nodes, p, i);
    }
    assert(open@ =~= d.open.drop_last());
    assert(desk_of(nodes, open).nodes =~= ended(d).nodes);
}

/// Makes node `p` what it is after its child `i`, the last node.
fn settle(nodes: &mut Vec<Node>, p: usize, i: usize)
    requires
        p < i < old(nodes).len(),
    ensures
        final(nodes).deep_view() == old(nodes).deep_view().update(
            p as int,
            settled(
                old(nodes).deep_view()[p as int],
                old(nodes).deep_view()[i as int],
                i as int,
                old(nodes).len() as int,
            ),
        ),
{
    let ghost v = nodes.deep_view();
    assert(v[p as int] == nodes@[p as int].deep_view());
    assert(v[i as int] == nodes@[i as int].deep_view());
    let n = nodes.len();
    let (child, parent) = (nodes[i].kind, nodes[p].kind);
    if child == Kind::Segment && parent == Kind::Path {
        let s = owned(nodes[p].name.as_str());
        nodes[p].text = s;
        nodes[p].line = nodes[i].line;
        nodes[p].column = nodes[i].column;
    } else if child == Kind::ImplSelf {
        let s = owned(nodes[i].name.as_str());
        nodes[p].text = s;
    } else if parent == Kind::GenType {
        let s = owned(nodes[i].text.as_str());
        nodes[p].text = s;
    }
    if child == Kind::Segment || child == Kind::ImplTrait || (parent == Kind::ImplSelf && child
        == Kind::TyPath) {
        let s = owned(nodes[i].name.as_str());
        nodes[p].name = s;
    }
    if child == Kind::Segment {
        nodes[p].last = i;
    }
    if is_preamble(child) {
        nodes[p].first = n;
    }
    if (parent == Kind::Fn && child == Kind::VisPublic) || (parent == Kind::Path && child
        == Kind::Qualifier) {
        nodes[p].mark = true;
    }
    assert(nodes.deep_view() =~= v.update(
        p as int,
        settled(v[p as int], v[i as int], i as int, n as int),
    ));
}

fn take_in(nodes: &mut Vec<Node>, open: &mut Vec<usize>, m: &Mark)
    requires
        growing(desk_of(old(nodes), old(open))),
    ensures
        desk_of(final(nodes), final(open)) == read(desk_of(old(nodes), old(open)), m.deep_view()),
        growing(desk_of(final(nodes), final(open))),
{
    let ghost d = desk_of(nodes, open);
    let k = open.len();
    match m {
        Mark::Open(kind, line, column) => begin(nodes, open, *kind, *line, *column),
        Mark::Close => end(nodes, open),
        _ => {
            if k == 0 {
                return;
            }
            let i = open[k - 1];
            proof {
                lemma_top(d);
            }
            assert(d.open.last() == i);
            assert(nodes@[i as int].deep_view() == d.nodes[i as int]);
            match m {
                Mark::Name(s) => nodes[i].name = owned(s.as_str()),
                Mark::Text(s) => nodes[i].text = owned(s.as_str()),
                Mark::Flag(b) => nodes[i].flag = *b,
                Mark::Number(Some(v)) => {
                    nodes[i].flag = true;
                    nodes[i].value = *v;
                },
                _ => return,
            }
            proof {
                let node = nodes@[i as int].deep_view();
                lemma_amended(d, node);
                assert(desk_of(nodes, open).nodes =~= amended(d, node).nodes);
            }
        },
    }
}

/// Ends what has not ended.
fn clear(nodes: &mut Vec<Node>, open: &mut Vec<usize>)
    requires
        growing(desk_of(old(nodes), old(open))),
    ensures
        desk_of(final(nodes), final(open)) == cleared(
            desk_of(old(nodes), old(open)),
            old(open)@.len(),
        ),
        growing(desk_of(final(nodes), final(open))),
        final(open)@.len() == 0,
{
    let ghost d = desk_of(nodes, open);
    while open.len() > 0
        invariant
            growing(desk_of(nodes, open)),
            cleared(d, d.open.len()) == cleared(desk_of(nodes, open), open@.len()),
        decreases open.len(),
    {
        end(nodes, open);
    }
}

/// Lays out marks as nodes.
pub fn lay(ms: &Vec<Mark>) -> (r: Vec<Node>)
    ensures
        r.deep_view() == laid(ms.deep_view()),
        tree(r.deep_view()),
{
    let ghost v = ms.deep_view();
    let mut nodes: Vec<Node> = Vec::new();
    let mut open: Vec<usize> = Vec::new();
    proof {
        lemma_blank(desk_of(&nodes, &open), v);
    }
    let mut n: usize = 0;
    while n < ms.len()
        invariant
            n <= ms.len(),
            v == ms.deep_view(),
            desk_of(&nodes, &open) == desk(v, n as int),
            growing(desk_of(&nodes, &open)),
        decreases ms.len() - n,
    {
        assert(v[n as int] == ms@[n as int].deep_view());
        take_in(&mut nodes, &mut open, &ms[n]);
        n += 1;
    }
    clear(&mut nodes, &mut open);
    proof {
        lemma_tree(desk_of(&nodes, &open));
    }
    nodes
}

} // verus!
