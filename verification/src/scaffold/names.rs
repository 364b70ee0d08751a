//! The cases in which names are written.
use vstd::prelude::*;


verus! {

/// A name in PascalCase, as `heck::ToPascalCase` gives it.
pub uninterp spec fn pascal_case(name: Seq<char>) -> Seq<char>;

/// `heck::ToPascalCase::to_pascal_case` depends on the name alone. Where the
/// words of a name start is left unsaid.
#[verifier::external_body]
pub(crate) fn to_pascal_case(name: &str) -> (r: String)
    ensures
        r@ == pascal_case(name@),
{
    heck::ToPascalCase::to_pascal_case(name)
}

/// A name in snake_case, as `heck::ToSnakeCase` gives it.
pub uninterp spec fn snake_case(name: Seq<char>) -> Seq<char>;

/// `heck::ToSnakeCase::to_snake_case` depends on the name alone. Where the words
/// of a name start is left unsaid.
#[verifier::external_body]
pub(crate) fn to_snake_case(name: &str) -> (r: String)
    ensures
        r@ == snake_case(name@),
{
    heck::ToSnakeCase::to_snake_case(name)
}

} // verus!
