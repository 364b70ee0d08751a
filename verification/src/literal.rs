//! String literals.
use vstd::prelude::*;

use crate::text::{chars_of, string_of};

verus! {

/// The value of the string literal of text `s`, as `syn` parses it; none if it
/// is no string literal.
pub uninterp spec fn literal_value(s: Seq<char>) -> Option<Seq<char>>;

/// `syn::parse_str` for a `syn::LitStr`, and `syn::LitStr::value`: the value is a
/// function of the text.
#[verifier::external_body]
pub(crate) fn parse_literal(s: &str) -> (r: Option<String>)
    ensures
        r.deep_view() == literal_value(s@),
{
    syn::parse_str::<syn::LitStr>(s).ok().map(|l| l.value())
}

/// `s` is the text of a string between quotes.
pub open spec fn quoted(s: Seq<char>) -> bool {
    s.len() >= 2 && s[0] == '"' && s.last() == '"'
}

/// The text between the quotes of `s`, if it is a quoted string.
pub open spec fn quote(s: Seq<char>) -> Option<Seq<char>> {
    if quoted(s) {
        Some(s.subrange(1, s.len() - 1))
    } else {
        None
    }
}

/// Whether `s` is the text of a string between quotes.
pub fn is_quoted(s: &str) -> (r: bool)
    ensures
        r == quoted(s@),
{
    let v = chars_of(s);
    v.len() >= 2 && v[0] == '"' && v[v.len() - 1] == '"'
}

/// The text between the quotes of `raw`, if it is a quoted string.
pub fn strip_str_literal(raw: &str) -> (r: Option<String>)
    ensures
        r.deep_view() == quote(raw@),
{
    let v = chars_of(raw);
    if v.len() >= 2 && v[0] == '"' && v[v.len() - 1] == '"' {
        Some(string_of(&v, 1, v.len() - 1))
    } else {
        None
    }
}

} // verus!
