//! Source text as a flat list of tokens.
use vstd::prelude::*;

use proc_macro2::{Delimiter, Spacing, TokenTree};

verus! {

/// What a token is.
#[derive(Clone, Copy, Debug, PartialEq, Eq, Structural)]
pub enum Shape {
    Ident,
    Punct,
    Literal,
    /// The start of a group.
    Open,
    /// The end of a group.
    Close,
}

/// A token, on its own: groups are flat.
#[derive(Debug)]
pub struct Token {
    pub shape: Shape,
    pub text: String,
    /// The next token follows at once.
    pub joint: bool,
}

pub ghost struct TokenView {
    pub shape: Shape,
    pub text: Seq<char>,
    pub joint: bool,
}

impl DeepView for Token {
    type V = TokenView;

    open spec fn deep_view(&self) -> TokenView {
        TokenView { shape: self.shape, text: self.text@, joint: self.joint }
    }
}

/// The tokens of a text, as `proc_macro2` splits it; none where it cannot.
pub uninterp spec fn tokens(text: Seq<char>) -> Option<Seq<TokenView>>;

/// The delimiters that a `proc_macro2::Delimiter` stands for.
#[verifier::external_body]
fn delimiters(d: proc_macro2::Delimiter) -> (String, String) {
    match d {
        Delimiter::Parenthesis => ("(".to_string(), ")".to_string()),
        Delimiter::Brace => ("{".to_string(), "}".to_string()),
        Delimiter::Bracket => ("[".to_string(), "]".to_string()),
        Delimiter::None => (String::new(), String::new()),
    }
}

/// Appends the trees of a `proc_macro2::TokenStream`, in order.
#[verifier::external_body]
fn flatten(out: &mut Vec<Token>, stream: proc_macro2::TokenStream) {
    for t in stream {
        let (text, shape, joint) = match t {
            TokenTree::Group(g) => {
                let (open, close) = delimiters(g.delimiter());
                out.push(Token { shape: Shape::Open, text: open, joint: false });
                flatten(out, g.stream());
                (close, Shape::Close, false)
            },
            TokenTree::Ident(x) => (x.to_string(), Shape::Ident, false),
            TokenTree::Literal(x) => (x.to_string(), Shape::Literal, false),
            TokenTree::Punct(x) => (x.to_string(), Shape::Punct, x.spacing() == Spacing::Joint),
        };
        out.push(Token { shape, text, joint });
    }
}

/// `proc_macro2::TokenStream::from_str` on `text`, its trees laid out flat. The
/// tokens are a function of the text.
#[verifier::external_body]
pub(crate) fn tokens_of(text: &str) -> (r: Option<Vec<Token>>)
    ensures
        r.deep_view() == tokens(text@),
{
    let stream: proc_macro2::TokenStream = text.parse().ok()?;
    let mut out = Vec::new();
    flatten(&mut out, stream);
    Some(out)
}

/// Tokens as text: one after the other, with a space behind each but the joint
/// ones.
pub open spec fn written(s: Seq<TokenView>) -> Seq<char>
    decreases s.len(),
{
    if s.len() == 0 {
        Seq::empty()
    } else if s.last().joint {
        written(s.drop_last()) + s.last().text
    } else {
        written(s.drop_last()) + s.last().text + " "@
    }
}

fn write_out(v: &Vec<Token>) -> (r: String)
    ensures
        r@ == written(v.deep_view()),
{
    let ghost s = v.deep_view();
    let mut out = String::new();
    let mut i: usize = 0;
    assert(s.take(0) =~= Seq::<TokenView>::empty());
    while i < v.len()
        invariant
            i <= v.len(),
            s == v.deep_view(),
            out@ == written(s.take(i as int)),
        decreases v.len() - i,
    {
        assert(s.take(i + 1).drop_last() =~= s.take(i as int));
        assert(s.take(i + 1).last() == v@[i as int].deep_view());
        out.append(v[i].text.as_str());
        if !v[i].joint {
            out.append(" ");
        }
        i += 1;
    }
    assert(s.take(i as int) =~= s);
    out
}

/// A text as `proc_macro2` prints its tokens; none where it has no tokens.
pub uninterp spec fn printed(text: Seq<char>) -> Option<Seq<char>>;

/// `proc_macro2::TokenStream::from_str` on `text`, and `to_string` on what it
/// gives. The text that is printed is a function of the text that is read.
#[verifier::external_body]
fn print(text: &str) -> (r: Option<String>)
    ensures
        r.deep_view() == printed(text@),
{
    let stream: proc_macro2::TokenStream = text.parse().ok()?;
    Some(stream.to_string())
}

/// The text of tokens, as `proc_macro2` prints them; as they are written where it
/// does not read them.
pub open spec fn spelled(s: Seq<TokenView>) -> Seq<char> {
    match printed(written(s)) {
        Some(text) => text,
        None => written(s),
    }
}

/// The text of `v`.
pub fn spell(v: &Vec<Token>) -> (r: String)
    ensures
        r@ == spelled(v.deep_view()),
{
    let text = write_out(v);
    match print(text.as_str()) {
        Some(s) => s,
        None => text,
    }
}

} // verus!
