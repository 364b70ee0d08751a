//! Source files as flat trees.
//!
//! A parsed file is a sequence of nodes in the order in which a reader meets
//! them. Each node knows its parent and where its subtree ends, so "inside a
//! loop" or "an argument of this call" are statements about positions.
use vstd::prelude::*;

verus! {

/// What a node stands for.
#[derive(Clone, Copy, Debug, PartialEq, Eq, Structural)]
pub enum Kind {
    /// A whole file; its children are its attributes and items.
    File,
    // Items. `name` is the item's identifier.
    /// `flag`: async. `mark`: `pub`. `text`: the tokens of the body.
    /// Operands: `count` arguments, a `Ret`, a `Block`.
    Fn,
    /// A function of an impl, a trait or a foreign module, with the operands of `Fn`.
    Method,
    /// Operands: the fields.
    Struct,
    Union,
    /// Operands: the variants.
    Enum,
    /// Operands: the fields, then the discriminant.
    Variant,
    /// A struct's field. `flag`: it has a name. Operand: its type.
    Field,
    /// `name`: the last segment of the trait's path, `text`: that of the type.
    Impl,
    Trait,
    TraitAlias,
    TypeAlias,
    Mod,
    /// `text`: the type. Operand: the value.
    Static,
    /// Operand: the value.
    Const,
    AssocConst,
    AssocType,
    ForeignMod,
    ForeignStatic,
    ForeignType,
    ForeignCrate,
    Use,
    OtherItem,
    // Parts of items.
    /// `name`: the last segment of the path. `flag`: it is a single identifier.
    /// Operands: the value after `=`, or the paths or the string in a list.
    Attr,
    /// One path in a list. `flag`: it is a single identifier.
    Derive,
    /// The string in an attribute that takes one. `name`: its value.
    AttrStr,
    VisPublic,
    VisRestricted,
    VisInherited,
    /// A typed argument. `text`: the type. Operands: the pattern, the type.
    Arg,
    /// `self` in any form. `text`: its tokens.
    Receiver,
    /// A return type. `flag`: one is written. `text`: its tokens.
    Ret,
    /// The type that a value is declared with.
    Ascribed,
    /// The trait that an impl is of.
    ImplTrait,
    /// The type that an impl is for.
    ImplSelf,
    // Generics.
    Generics,
    LifetimeParam,
    TypeParam,
    ConstParam,
    TypeBound,
    TraitBound,
    LifetimeBound,
    OtherBound,
    // Paths.
    /// One segment of a path. Operands: its generic arguments.
    Segment,
    /// The type before a path: `<T as ..>`.
    Qualifier,
    /// One generic argument of a method call.
    Turbofish,
    /// A type as a generic argument. `text`: its tokens.
    GenType,
    GenConst,
    GenLifetime,
    /// What a generic argument says of an associated item.
    GenAssoc,
    /// Arguments and a result in parentheses: `Fn(A) -> B`.
    GenFn,
    // Statements.
    /// Operands: the statements.
    Block,
    /// `flag`: there is an initial value. Operands: the pattern, that value.
    Local,
    /// `flag`: a semicolon follows. Operand: the expression.
    ExprStmt,
    // Expressions.
    Array,
    /// Operands: the target, the value.
    Assign,
    Async,
    Await,
    /// `name`: the operator. Operands: the two sides.
    Binary,
    BlockExpr,
    Break,
    /// Operands: the callee and the arguments.
    Call,
    /// Operands: the value, the type.
    Cast,
    /// `flag`: async. Operands: `count` times a `Param`, a `Ret`, the body.
    Closure,
    ConstBlock,
    Continue,
    /// `base.name`. `flag`: the member is named.
    FieldAccess,
    /// Operands: the pattern, the iterated value, the block.
    ForLoop,
    /// An expression in an invisible group.
    Group,
    /// `flag`: there is an `else`. Operands: the condition, the block, the rest.
    If,
    Index,
    Infer,
    /// `let pattern = value` as a condition. Operands: pattern, value.
    Let,
    Loop,
    /// Operands: the matched value and the arms.
    Match,
    /// `flag`: there is a guard. Operands: the pattern, the guard, the body.
    Arm,
    /// A parameter of a closure. Operand: the pattern.
    Param,
    /// `name`: the last segment. `flag`: it stands as an expression.
    /// Operands: its tokens.
    Macro,
    /// `name`: the method. Operands: the receiver and the arguments.
    MethodCall,
    Paren,
    /// `name`: the last segment, `text`: the one before it, `count`: how many.
    /// `flag`: it starts with `::`. `mark`: it starts with a `<type>`.
    Path,
    Range,
    RawAddr,
    Reference,
    Repeat,
    Return,
    /// Operands: the fields, then the rest.
    StructExpr,
    /// `name`: the field. Operand: its value.
    FieldValue,
    Try,
    TryBlock,
    Tuple,
    /// `name`: the operator.
    Unary,
    Unsafe,
    While,
    Yield,
    /// What the parser keeps as tokens; `text` holds them. Empty for a statement
    /// that is only a semicolon.
    Verbatim,
    OtherExpr,
    // Literals.
    /// `name`: the value of a string literal.
    Str,
    /// `name`: the digits. `flag`: the value fits 64 bits and is `value`.
    Int,
    /// `flag`: the value.
    Bool,
    ByteStr,
    CStr,
    Byte,
    Char,
    Float,
    OtherLit,
    // Patterns.
    PatIdent,
    /// Operands: the pattern, the type.
    PatType,
    PatOr,
    PatParen,
    PatReference,
    PatRest,
    PatSlice,
    PatStruct,
    /// `name`: the field. Operand: its pattern.
    FieldPat,
    PatTuple,
    /// `name`: the last segment of the path.
    PatTupleStruct,
    PatWild,
    PatOther,
    // Types. `text` holds the tokens.
    /// `name`: the last segment of the path.
    TyPath,
    TyRef,
    TySlice,
    /// Operands: the element type, the length.
    TyArray,
    TyTuple,
    TyParen,
    /// A type in an invisible group.
    TyGroup,
    TyPtr,
    TyFn,
    TyImplTrait,
    TyTraitObject,
    TyInfer,
    TyNever,
    TyMacro,
    TyOther,
    // Tokens of a macro.
    TokIdent,
    /// `flag`: the next token follows at once.
    TokPunct,
    TokLit,
    /// `name`: the opening delimiter, empty for an invisible one.
    TokGroup,
}

/// One node of a file.
#[derive(Debug)]
pub struct Node {
    pub kind: Kind,
    pub name: String,
    pub text: String,
    pub line: usize,
    pub column: usize,
    /// The position of the parent.
    pub parent: usize,
    /// The position after the last node of the subtree.
    pub end: usize,
    /// The position of the first operand: what follows the attributes, the path and
    /// the like.
    pub first: usize,
    /// The position of the last segment of a path; 0 if there is none.
    pub last: usize,
    /// How many arguments, parameters, segments or operands there are.
    pub count: usize,
    pub value: u64,
    pub flag: bool,
    pub mark: bool,
}

/// A node over views.
pub ghost struct NodeView {
    pub kind: Kind,
    pub name: Seq<char>,
    pub text: Seq<char>,
    pub line: usize,
    pub column: usize,
    pub parent: usize,
    pub end: usize,
    pub first: usize,
    pub last: usize,
    pub count: usize,
    pub value: u64,
    pub flag: bool,
    pub mark: bool,
}

impl DeepView for Node {
    type V = NodeView;

    open spec fn deep_view(&self) -> NodeView {
        NodeView {
            kind: self.kind,
            name: self.name@,
            text: self.text@,
            line: self.line,
            column: self.column,
            parent: self.parent,
            end: self.end,
            first: self.first,
            last: self.last,
            count: self.count,
            value: self.value,
            flag: self.flag,
            mark: self.mark,
        }
    }
}

/// The position after the subtree of node `i`: its `end`, or the next position
/// where that makes no sense.
pub open spec fn stop(t: Seq<Node>, i: int) -> int {
    if i < t[i].end <= t.len() {
        t[i].end as int
    } else {
        i + 1
    }
}

pub fn stop_of(t: &Vec<Node>, i: usize) -> (r: usize)
    requires
        i < t.len(),
    ensures
        r == stop(t@, i as int),
        i < r <= t.len(),
{
    if i < t[i].end && t[i].end <= t.len() {
        t[i].end
    } else {
        i + 1
    }
}

/// The position after the generic arguments at `at`, or `at` where there are none.
pub open spec fn past(t: Seq<Node>, at: int) -> int {
    if 0 <= at < t.len() && t[at].kind == Kind::Turbofish {
        stop(t, at)
    } else {
        at
    }
}

/// The node `k` siblings after position `at`, before `limit`. The generic arguments
/// of a method call, which stand between its receiver and the others, are passed
/// over.
pub open spec fn hop(t: Seq<Node>, at: int, k: nat, limit: int) -> Option<int>
    decreases k,
{
    let p = past(t, at);
    if p < 0 || p >= limit || p >= t.len() {
        None
    } else if k == 0 {
        Some(p)
    } else {
        hop(t, stop(t, p), (k - 1) as nat, limit)
    }
}

/// Operand number `k` of node `i`.
pub open spec fn operand(t: Seq<Node>, i: int, k: nat) -> Option<int> {
    if t[i].first > i {
        hop(t, t[i].first as int, k, stop(t, i))
    } else {
        None
    }
}

pub proof fn lemma_hop_bounds(t: Seq<Node>, at: int, k: nat, limit: int)
    ensures
        hop(t, at, k, limit) matches Some(p) ==> at <= p < limit && p < t.len() && p >= 0,
    decreases k,
{
    let p = past(t, at);
    if 0 <= p < limit && p < t.len() && k > 0 {
        lemma_hop_bounds(t, stop(t, p), (k - 1) as nat, limit);
    }
}

/// Operands stand behind their node, inside its subtree.
pub proof fn lemma_operand_bounds(t: Seq<Node>, i: int, k: nat)
    requires
        0 <= i < t.len(),
    ensures
        operand(t, i, k) matches Some(p) ==> i < p < stop(t, i) && p < t.len(),
{
    if t[i].first > i {
        lemma_hop_bounds(t, t[i].first as int, k, stop(t, i));
    }
}

fn past_of(t: &Vec<Node>, at: usize) -> (r: usize)
    ensures
        r == past(t@, at as int),
        at <= r,
{
    if at < t.len() && t[at].kind == Kind::Turbofish {
        stop_of(t, at)
    } else {
        at
    }
}

pub fn operand_of(t: &Vec<Node>, i: usize, k: usize) -> (r: Option<usize>)
    requires
        i < t.len(),
    ensures
        match r {
            Some(p) => operand(t@, i as int, k as nat) == Some(p as int) && i < p < stop(
                t@,
                i as int,
            ) && p < t.len(),
            None => operand(t@, i as int, k as nat) is None,
        },
{
    proof {
        lemma_operand_bounds(t@, i as int, k as nat);
    }
    if t[i].first <= i {
        return None;
    }
    let limit = stop_of(t, i);
    let mut at: usize = t[i].first;
    let mut left: usize = k;
    while left > 0
        invariant
            i < at,
            i < t.len(),
            limit == stop(t@, i as int),
            limit <= t.len(),
            operand(t@, i as int, k as nat) == hop(t@, at as int, left as nat, limit as int),
        decreases left,
    {
        at = past_of(t, at);
        if at >= limit {
            return None;
        }
        at = stop_of(t, at);
        left -= 1;
    }
    at = past_of(t, at);
    if at >= limit {
        return None;
    }
    Some(at)
}

/// The tokens of the first generic argument of the path at `i`, if that is a type.
pub open spec fn first_type_arg(t: Seq<Node>, i: int) -> Option<Seq<char>> {
    let s = t[i].last as int;
    if 0 < s < t.len() && s + 1 < stop(t, s) && t[s + 1].kind == Kind::GenType {
        Some(t[s + 1].text@)
    } else {
        None
    }
}

pub fn first_type_arg_of(t: &Vec<Node>, i: usize) -> (r: Option<&String>)
    requires
        i < t.len(),
    ensures
        match r {
            Some(s) => first_type_arg(t@, i as int) == Some(s@),
            None => first_type_arg(t@, i as int) is None,
        },
{
    let s = t[i].last;
    if 0 < s && s < t.len() {
        let end = stop_of(t, s);
        if end - s > 1 && t[s + 1].kind == Kind::GenType {
            return Some(&t[s + 1].text);
        }
    }
    None
}

/// No node has more siblings behind it than there are nodes.
pub proof fn lemma_hop_count(t: Seq<Node>, at: int, k: nat, limit: int)
    ensures
        k >= t.len() ==> hop(t, at, k, limit) is None,
        hop(t, at, k, limit) is Some ==> at + k < t.len(),
    decreases k,
{
    let p = past(t, at);
    if 0 <= p < limit && p < t.len() && k > 0 {
        lemma_hop_count(t, stop(t, p), (k - 1) as nat, limit);
    }
}

} // verus!
