//! From source text to marks.
//!
//! `syn` and `proc_macro2` parse. The functions here say what they returned, value
//! by value, in the order of `syn`'s own visitor: a mark where a value begins, marks
//! for what it holds, and a mark where it ends. Every variant has a kind of its own,
//! and every segment of a path and every generic argument is a value. Nothing is
//! claimed of these functions one by one; `parse_source` and `parse_type` give the
//! outcome of the whole a name. What the marks amount to is for `layout` to say.
use proc_macro2::{Delimiter, Ident, Span, TokenStream, TokenTree};
use quote::ToTokens;
use syn::spanned::Spanned;
use syn::{
    Arm, Attribute, Block, ConstParam, Expr, Field, FnArg, ForeignItem, GenericArgument,
    GenericParam, Generics, ImplItem, Item, Lit, Local, Macro, Member, Pat, PathArguments, QSelf,
    ReturnType, Signature, Stmt, TraitItem, Type, TypeParam, TypeParamBound, Variant, Visibility,
    WherePredicate,
};
use vstd::prelude::*;

use crate::layout::{laid, lay, tree, Mark, MarkView};
use crate::order::put;
use crate::tape::{Kind, Node, NodeView};

verus! {

/// Where in a file a parser gave up, and why.
#[derive(Debug)]
pub struct Fault {
    pub line: usize,
    pub column: usize,
    pub message: String,
}

pub ghost struct FaultView {
    pub line: usize,
    pub column: usize,
    pub message: Seq<char>,
}

impl DeepView for Fault {
    type V = FaultView;

    open spec fn deep_view(&self) -> FaultView {
        FaultView { line: self.line, column: self.column, message: self.message@ }
    }
}

// ---------------------------------------------------------------------------
// The types of `syn` and `proc_macro2` that are read
// ---------------------------------------------------------------------------

#[verifier::external_type_specification]
#[verifier::external_body]
pub struct ExSpan(proc_macro2::Span);

#[verifier::external_type_specification]
#[verifier::external_body]
pub struct ExTokenStream(proc_macro2::TokenStream);

#[verifier::external_type_specification]
#[verifier::external_body]
pub struct ExTokenTree(proc_macro2::TokenTree);

#[verifier::external_type_specification]
#[verifier::external_body]
pub struct ExDelimiter(proc_macro2::Delimiter);

#[verifier::external_type_specification]
#[verifier::external_body]
pub struct ExAttribute(syn::Attribute);

#[verifier::external_type_specification]
#[verifier::external_body]
pub struct ExFile(syn::File);

#[verifier::external_type_specification]
#[verifier::external_body]
pub struct ExItem(syn::Item);

#[verifier::external_type_specification]
#[verifier::external_body]
pub struct ExIdent(proc_macro2::Ident);

#[verifier::external_type_specification]
#[verifier::external_body]
pub struct ExImplItem(syn::ImplItem);

#[verifier::external_type_specification]
#[verifier::external_body]
pub struct ExTraitItem(syn::TraitItem);

#[verifier::external_type_specification]
#[verifier::external_body]
pub struct ExForeignItem(syn::ForeignItem);

#[verifier::external_type_specification]
#[verifier::external_body]
pub struct ExVisibility(syn::Visibility);

#[verifier::external_type_specification]
#[verifier::external_body]
pub struct ExSignature(syn::Signature);

#[verifier::external_type_specification]
#[verifier::external_body]
pub struct ExFnArg(syn::FnArg);

#[verifier::external_type_specification]
#[verifier::external_body]
pub struct ExReturnType(syn::ReturnType);

#[verifier::external_type_specification]
#[verifier::external_body]
pub struct ExField(syn::Field);

#[verifier::external_type_specification]
#[verifier::external_body]
pub struct ExVariant(syn::Variant);

#[verifier::external_type_specification]
#[verifier::external_body]
pub struct ExGenerics(syn::Generics);

#[verifier::external_type_specification]
#[verifier::external_body]
pub struct ExGenericParam(syn::GenericParam);

#[verifier::external_type_specification]
#[verifier::external_body]
pub struct ExTypeParam(syn::TypeParam);

#[verifier::external_type_specification]
#[verifier::external_body]
pub struct ExConstParam(syn::ConstParam);

#[verifier::external_type_specification]
#[verifier::external_body]
pub struct ExWherePredicate(syn::WherePredicate);

#[verifier::external_type_specification]
#[verifier::external_body]
pub struct ExTypeParamBound(syn::TypeParamBound);

#[verifier::external_type_specification]
#[verifier::external_body]
pub struct ExGenericArgument(syn::GenericArgument);

#[verifier::external_type_specification]
#[verifier::external_body]
pub struct ExAngleBracketed(syn::AngleBracketedGenericArguments);

#[verifier::external_type_specification]
#[verifier::external_body]
pub struct ExPathArguments(syn::PathArguments);

#[verifier::external_type_specification]
#[verifier::external_body]
pub struct ExQSelf(syn::QSelf);

#[verifier::external_type_specification]
#[verifier::external_body]
pub struct ExPath(syn::Path);

#[verifier::external_type_specification]
#[verifier::external_body]
pub struct ExType(syn::Type);

#[verifier::external_type_specification]
#[verifier::external_body]
pub struct ExBlock(syn::Block);

#[verifier::external_type_specification]
#[verifier::external_body]
pub struct ExStmt(syn::Stmt);

#[verifier::external_type_specification]
#[verifier::external_body]
pub struct ExLocal(syn::Local);

#[verifier::external_type_specification]
#[verifier::external_body]
pub struct ExExpr(syn::Expr);

#[verifier::external_type_specification]
#[verifier::external_body]
pub struct ExMember(syn::Member);

#[verifier::external_type_specification]
#[verifier::external_body]
pub struct ExArm(syn::Arm);

#[verifier::external_type_specification]
#[verifier::external_body]
pub struct ExLit(syn::Lit);

#[verifier::external_type_specification]
#[verifier::external_body]
pub struct ExMacro(syn::Macro);

#[verifier::external_type_specification]
#[verifier::external_body]
pub struct ExPat(syn::Pat);

// ---------------------------------------------------------------------------
// Marks
// ---------------------------------------------------------------------------

/// Marks the beginning of a value of `kind` that starts where `at` does
/// (`proc_macro2::Span::start`). Nothing is claimed of the line and the column.
#[verifier::external_body]
fn enter(out: &mut Vec<Mark>, kind: Kind, at: Span)
    ensures
        exists|line: usize, column: usize|
            final(out).deep_view() == old(out).deep_view().push(
                MarkView::Open(kind, line, column),
            ),
{
    out.push(Mark::Open(kind, at.start().line, at.start().column));
}

/// Marks the end of a value.
fn leave(out: &mut Vec<Mark>)
    ensures
        final(out).deep_view() == old(out).deep_view().push(MarkView::Close),
{
    put(out, Mark::Close);
}

/// Marks the name of a value.
fn name(out: &mut Vec<Mark>, s: String)
    ensures
        final(out).deep_view() == old(out).deep_view().push(MarkView::Name(s@)),
{
    put(out, Mark::Name(s));
}

/// Marks the tokens of a value.
fn text(out: &mut Vec<Mark>, s: String)
    ensures
        final(out).deep_view() == old(out).deep_view().push(MarkView::Text(s@)),
{
    put(out, Mark::Text(s));
}

/// Marks whether a part of a value is there.
fn flag(out: &mut Vec<Mark>, b: bool)
    ensures
        final(out).deep_view() == old(out).deep_view().push(MarkView::Flag(b)),
{
    put(out, Mark::Flag(b));
}

/// Marks a value of `kind` that has no parts.
fn leaf(out: &mut Vec<Mark>, kind: Kind, at: Span)
    ensures
        exists|line: usize, column: usize|
            final(out).deep_view() == old(out).deep_view().push(
                MarkView::Open(kind, line, column),
            ).push(MarkView::Close),
{
    enter(out, kind, at);
    leave(out);
}

// ---------------------------------------------------------------------------
// Attributes and visibility
// ---------------------------------------------------------------------------

/// Marks `syn::Attribute`s.
#[verifier::external_body]
fn put_attrs(out: &mut Vec<Mark>, attrs: &[Attribute]) {
    attrs.iter().for_each(|a| put_attr(out, a));
}

/// Marks a `syn::Attribute`: its path, and whether that is one identifier
/// (`syn::Path::get_ident`); then what its `syn::Meta` holds.
#[verifier::external_body]
fn put_attr(out: &mut Vec<Mark>, a: &Attribute) {
    enter(out, Kind::Attr, a.span());
    flag(out, a.path().get_ident().is_some());
    put_path(out, None, a.path());
    match &a.meta {
        syn::Meta::Path(_) => {},
        syn::Meta::List(_) => put_list(out, a),
        syn::Meta::NameValue(x) => put_expr(out, &x.value),
    }
    leave(out);
}

/// Marks the paths that `syn::Attribute::parse_nested_meta` finds in a list, up to
/// the first thing that is not a path; and the string that is all of it, if
/// `syn::Attribute::parse_args` reads one.
#[verifier::external_body]
fn put_list(out: &mut Vec<Mark>, a: &Attribute) {
    let mut paths: Vec<syn::Path> = Vec::new();
    let _ = a.parse_nested_meta(|m| Ok(paths.push(m.path)));
    paths.iter().for_each(|p| put_derive(out, p));
    if let Ok(x) = a.parse_args::<syn::LitStr>() {
        enter(out, Kind::AttrStr, x.span());
        name(out, x.value());
        leave(out);
    }
}

/// Marks a `syn::Path` in an attribute's list.
#[verifier::external_body]
fn put_derive(out: &mut Vec<Mark>, path: &syn::Path) {
    enter(out, Kind::Derive, path.span());
    flag(out, path.get_ident().is_some());
    put_path(out, None, path);
    leave(out);
}

/// Marks a `syn::Visibility`.
#[verifier::external_body]
fn put_vis(out: &mut Vec<Mark>, vis: &Visibility) {
    match vis {
        Visibility::Public(x) => leaf(out, Kind::VisPublic, x.span()),
        Visibility::Restricted(x) => {
            enter(out, Kind::VisRestricted, x.span());
            put_path(out, None, &x.path);
            leave(out);
        },
        Visibility::Inherited => leaf(out, Kind::VisInherited, vis.span()),
    }
}

// ---------------------------------------------------------------------------
// Items
// ---------------------------------------------------------------------------

/// Marks the beginning of something with a name: its kind, place, name, attributes
/// and generics.
#[verifier::external_body]
fn begin(out: &mut Vec<Mark>, kind: Kind, attrs: &[Attribute], id: &Ident, g: Option<&Generics>) {
    enter(out, kind, id.span());
    name(out, id.to_string());
    put_attrs(out, attrs);
    g.iter().for_each(|x| put_generics(out, x));
}

/// Marks a `syn::Item`.
#[verifier::external_body]
fn put_item(out: &mut Vec<Mark>, item: &Item) {
    match item {
        Item::Fn(x) => {
            enter(out, Kind::Fn, x.sig.ident.span());
            put_attrs(out, &x.attrs);
            put_vis(out, &x.vis);
            put_fn(out, &x.sig, Some(&x.block));
            leave(out);
        },
        _ => put_module(out, item),
    }
}

/// Marks a `syn::Item` that is a module, or holds no statements.
#[verifier::external_body]
fn put_module(out: &mut Vec<Mark>, item: &Item) {
    match item {
        Item::Mod(x) => {
            enter(out, Kind::Mod, x.span());
            put_attrs(out, &x.attrs);
            x.content.iter().flat_map(|c| &c.1).for_each(|y| put_item(out, y));
            leave(out);
        },
        _ => put_data(out, item),
    }
}

/// Marks a `syn::Item` that declares data.
#[verifier::external_body]
fn put_data(out: &mut Vec<Mark>, item: &Item) {
    match item {
        Item::Struct(x) => {
            begin(out, Kind::Struct, &x.attrs, &x.ident, Some(&x.generics));
            x.fields.iter().for_each(|f| put_field(out, f));
            leave(out);
        },
        Item::Enum(x) => {
            begin(out, Kind::Enum, &x.attrs, &x.ident, Some(&x.generics));
            x.variants.iter().for_each(|v| put_variant(out, v));
            leave(out);
        },
        _ => put_alias(out, item),
    }
}

/// Marks a `syn::Item` that declares a union or gives a type or traits a name.
#[verifier::external_body]
fn put_alias(out: &mut Vec<Mark>, item: &Item) {
    match item {
        Item::Union(x) => {
            begin(out, Kind::Union, &x.attrs, &x.ident, Some(&x.generics));
            x.fields.named.iter().for_each(|f| put_field(out, f));
            leave(out);
        },
        Item::Type(x) => {
            begin(out, Kind::TypeAlias, &x.attrs, &x.ident, Some(&x.generics));
            put_type(out, &x.ty);
            leave(out);
        },
        _ => put_trait_alias(out, item),
    }
}

/// Marks a `syn::Item` that gives traits a name.
#[verifier::external_body]
fn put_trait_alias(out: &mut Vec<Mark>, item: &Item) {
    match item {
        Item::TraitAlias(x) => {
            begin(out, Kind::TraitAlias, &x.attrs, &x.ident, Some(&x.generics));
            x.bounds.iter().for_each(|b| put_bound(out, b));
            leave(out);
        },
        _ => put_value_item(out, item),
    }
}

/// Marks a `syn::Item` that declares a value.
#[verifier::external_body]
fn put_value_item(out: &mut Vec<Mark>, item: &Item) {
    match item {
        Item::Static(x) => {
            begin(out, Kind::Static, &x.attrs, &x.ident, None);
            text(out, x.ty.to_token_stream().to_string());
            put_ascribed(out, &x.ty);
            put_expr(out, &x.expr);
            leave(out);
        },
        _ => put_const(out, item),
    }
}

/// Marks a `syn::Item` that declares a constant.
#[verifier::external_body]
fn put_const(out: &mut Vec<Mark>, item: &Item) {
    match item {
        Item::Const(x) => {
            begin(out, Kind::Const, &x.attrs, &x.ident, Some(&x.generics));
            put_ascribed(out, &x.ty);
            put_expr(out, &x.expr);
            leave(out);
        },
        _ => put_holder(out, item),
    }
}

/// Marks the `syn::Type` that a value is declared with.
#[verifier::external_body]
fn put_ascribed(out: &mut Vec<Mark>, ty: &Type) {
    enter(out, Kind::Ascribed, ty.span());
    put_type(out, ty);
    leave(out);
}

/// Marks a `syn::Item` that holds functions.
#[verifier::external_body]
fn put_holder(out: &mut Vec<Mark>, item: &Item) {
    match item {
        Item::Impl(x) => {
            enter(out, Kind::Impl, x.span());
            put_attrs(out, &x.attrs);
            put_generics(out, &x.generics);
            x.trait_.iter().for_each(|t| put_impl_trait(out, &t.1));
            put_impl_self(out, &x.self_ty);
            x.items.iter().for_each(|y| put_impl_item(out, y));
            leave(out);
        },
        _ => put_trait(out, item),
    }
}

/// Marks a `syn::Item` that declares a trait.
#[verifier::external_body]
fn put_trait(out: &mut Vec<Mark>, item: &Item) {
    match item {
        Item::Trait(x) => {
            begin(out, Kind::Trait, &x.attrs, &x.ident, Some(&x.generics));
            x.supertraits.iter().for_each(|b| put_bound(out, b));
            x.items.iter().for_each(|y| put_trait_item(out, y));
            leave(out);
        },
        _ => put_outer(out, item),
    }
}

/// Marks the `syn::Path` of the trait that an impl is of.
#[verifier::external_body]
fn put_impl_trait(out: &mut Vec<Mark>, path: &syn::Path) {
    enter(out, Kind::ImplTrait, path.span());
    put_path(out, None, path);
    leave(out);
}

/// Marks the `syn::Type` that an impl is for.
#[verifier::external_body]
fn put_impl_self(out: &mut Vec<Mark>, ty: &Type) {
    enter(out, Kind::ImplSelf, ty.span());
    put_type(out, ty);
    leave(out);
}

/// Marks a `syn::Item` that calls a macro or brings in what is declared elsewhere.
#[verifier::external_body]
fn put_outer(out: &mut Vec<Mark>, item: &Item) {
    match item {
        Item::Macro(x) => put_macro(out, false, &x.attrs, &x.mac),
        Item::ForeignMod(x) => {
            enter(out, Kind::ForeignMod, x.span());
            put_attrs(out, &x.attrs);
            x.items.iter().for_each(|y| put_foreign_item(out, y));
            leave(out);
        },
        Item::Use(x) => put_bare(out, Kind::Use, &x.attrs, x.span()),
        Item::ExternCrate(x) => put_bare(out, Kind::ForeignCrate, &x.attrs, x.span()),
        _ => leaf(out, Kind::OtherItem, item.span()),
    }
}

/// Marks a value of which only the attributes are read.
#[verifier::external_body]
fn put_bare(out: &mut Vec<Mark>, kind: Kind, attrs: &[Attribute], at: Span) {
    enter(out, kind, at);
    put_attrs(out, attrs);
    leave(out);
}

/// Marks a `syn::ImplItem`.
#[verifier::external_body]
fn put_impl_item(out: &mut Vec<Mark>, item: &ImplItem) {
    match item {
        ImplItem::Fn(x) => put_method(out, &x.attrs, &x.vis, &x.sig, Some(&x.block)),
        ImplItem::Const(x) => {
            begin(out, Kind::AssocConst, &x.attrs, &x.ident, Some(&x.generics));
            put_ascribed(out, &x.ty);
            put_expr(out, &x.expr);
            leave(out);
        },
        ImplItem::Macro(x) => put_macro(out, false, &x.attrs, &x.mac),
        _ => put_impl_type(out, item),
    }
}

/// Marks a `syn::ImplItem` that is a type.
#[verifier::external_body]
fn put_impl_type(out: &mut Vec<Mark>, item: &ImplItem) {
    match item {
        ImplItem::Type(x) => {
            begin(out, Kind::AssocType, &x.attrs, &x.ident, Some(&x.generics));
            put_type(out, &x.ty);
            leave(out);
        },
        _ => leaf(out, Kind::OtherItem, item.span()),
    }
}

/// Marks a `syn::TraitItem`.
#[verifier::external_body]
fn put_trait_item(out: &mut Vec<Mark>, item: &TraitItem) {
    match item {
        TraitItem::Fn(x) => {
            put_method(out, &x.attrs, &Visibility::Inherited, &x.sig, x.default.as_ref());
        },
        TraitItem::Const(x) => {
            begin(out, Kind::AssocConst, &x.attrs, &x.ident, Some(&x.generics));
            put_ascribed(out, &x.ty);
            x.default.iter().for_each(|d| put_expr(out, &d.1));
            leave(out);
        },
        TraitItem::Macro(x) => put_macro(out, false, &x.attrs, &x.mac),
        _ => put_trait_type(out, item),
    }
}

/// Marks a `syn::TraitItem` that is a type.
#[verifier::external_body]
fn put_trait_type(out: &mut Vec<Mark>, item: &TraitItem) {
    match item {
        TraitItem::Type(x) => {
            begin(out, Kind::AssocType, &x.attrs, &x.ident, Some(&x.generics));
            x.bounds.iter().for_each(|b| put_bound(out, b));
            x.default.iter().for_each(|d| put_type(out, &d.1));
            leave(out);
        },
        _ => leaf(out, Kind::OtherItem, item.span()),
    }
}

/// Marks a `syn::ForeignItem`.
#[verifier::external_body]
fn put_foreign_item(out: &mut Vec<Mark>, item: &ForeignItem) {
    match item {
        ForeignItem::Fn(x) => put_method(out, &x.attrs, &x.vis, &x.sig, None),
        ForeignItem::Static(x) => {
            begin(out, Kind::ForeignStatic, &x.attrs, &x.ident, None);
            put_ascribed(out, &x.ty);
            leave(out);
        },
        ForeignItem::Type(x) => put_bare(out, Kind::ForeignType, &x.attrs, x.span()),
        ForeignItem::Macro(x) => put_macro(out, false, &x.attrs, &x.mac),
        _ => leaf(out, Kind::OtherItem, item.span()),
    }
}

/// Marks a function of an impl, a trait or a foreign module.
#[verifier::external_body]
fn put_method(
    out: &mut Vec<Mark>,
    attrs: &[Attribute],
    vis: &Visibility,
    sig: &Signature,
    body: Option<&Block>,
) {
    enter(out, Kind::Method, sig.ident.span());
    put_attrs(out, attrs);
    put_vis(out, vis);
    put_fn(out, sig, body);
    leave(out);
}

/// Marks the `syn::Signature` and the body of a function.
#[verifier::external_body]
fn put_fn(out: &mut Vec<Mark>, sig: &Signature, body: Option<&Block>) {
    name(out, sig.ident.to_string());
    flag(out, sig.asyncness.is_some());
    body.iter().for_each(|b| text(out, b.to_token_stream().to_string()));
    put_generics(out, &sig.generics);
    sig.inputs.iter().for_each(|a| put_arg(out, a));
    put_ret(out, &sig.output);
    body.iter().for_each(|b| put_block(out, b));
}

/// Marks a `syn::FnArg`.
#[verifier::external_body]
fn put_arg(out: &mut Vec<Mark>, arg: &FnArg) {
    match arg {
        FnArg::Receiver(x) => {
            enter(out, Kind::Receiver, x.span());
            text(out, x.to_token_stream().to_string());
            put_attrs(out, &x.attrs);
            put_type(out, &x.ty);
            leave(out);
        },
        FnArg::Typed(x) => put_typed(out, &x.attrs, &x.pat, &x.ty),
    }
}

/// Marks an argument that is a `syn::PatType`.
#[verifier::external_body]
fn put_typed(out: &mut Vec<Mark>, attrs: &[Attribute], pat: &Pat, ty: &Type) {
    enter(out, Kind::Arg, pat.span());
    text(out, ty.to_token_stream().to_string());
    put_attrs(out, attrs);
    put_pat(out, pat);
    put_type(out, ty);
    leave(out);
}

/// Marks a `syn::ReturnType`.
#[verifier::external_body]
fn put_ret(out: &mut Vec<Mark>, ret: &ReturnType) {
    enter(out, Kind::Ret, ret.span());
    match ret {
        ReturnType::Default => {},
        ReturnType::Type(_, ty) => {
            flag(out, true);
            text(out, ty.to_token_stream().to_string());
            put_type(out, ty);
        },
    }
    leave(out);
}

/// Marks a `syn::Field`.
#[verifier::external_body]
fn put_field(out: &mut Vec<Mark>, f: &Field) {
    enter(out, Kind::Field, f.span());
    flag(out, f.ident.is_some());
    f.ident.iter().for_each(|x| name(out, x.to_string()));
    put_attrs(out, &f.attrs);
    put_vis(out, &f.vis);
    put_type(out, &f.ty);
    leave(out);
}

/// Marks a `syn::Variant`.
#[verifier::external_body]
fn put_variant(out: &mut Vec<Mark>, v: &Variant) {
    enter(out, Kind::Variant, v.ident.span());
    name(out, v.ident.to_string());
    put_attrs(out, &v.attrs);
    v.fields.iter().for_each(|f| put_field(out, f));
    v.discriminant.iter().for_each(|d| put_expr(out, &d.1));
    leave(out);
}

// ---------------------------------------------------------------------------
// Generics
// ---------------------------------------------------------------------------

/// Marks `syn::Generics`.
#[verifier::external_body]
fn put_generics(out: &mut Vec<Mark>, g: &Generics) {
    enter(out, Kind::Generics, g.span());
    g.params.iter().for_each(|p| put_param(out, p));
    g.where_clause.iter().flat_map(|w| &w.predicates).for_each(|p| put_predicate(out, p));
    leave(out);
}

/// Marks a `syn::GenericParam`.
#[verifier::external_body]
fn put_param(out: &mut Vec<Mark>, p: &GenericParam) {
    match p {
        GenericParam::Lifetime(x) => put_bare(out, Kind::LifetimeParam, &x.attrs, x.span()),
        GenericParam::Type(x) => put_type_param(out, x),
        GenericParam::Const(x) => put_const_param(out, x),
    }
}

/// Marks a `syn::TypeParam`.
#[verifier::external_body]
fn put_type_param(out: &mut Vec<Mark>, x: &TypeParam) {
    begin(out, Kind::TypeParam, &x.attrs, &x.ident, None);
    x.bounds.iter().for_each(|b| put_bound(out, b));
    x.default.iter().for_each(|t| put_type(out, t));
    leave(out);
}

/// Marks a `syn::ConstParam`.
#[verifier::external_body]
fn put_const_param(out: &mut Vec<Mark>, x: &ConstParam) {
    begin(out, Kind::ConstParam, &x.attrs, &x.ident, None);
    put_ascribed(out, &x.ty);
    x.default.iter().for_each(|e| put_expr(out, e));
    leave(out);
}

/// Marks a `syn::WherePredicate`.
#[verifier::external_body]
fn put_predicate(out: &mut Vec<Mark>, p: &WherePredicate) {
    match p {
        WherePredicate::Lifetime(x) => leaf(out, Kind::LifetimeBound, x.span()),
        WherePredicate::Type(x) => {
            enter(out, Kind::TypeBound, x.span());
            put_type(out, &x.bounded_ty);
            x.bounds.iter().for_each(|b| put_bound(out, b));
            leave(out);
        },
        _ => leaf(out, Kind::OtherBound, p.span()),
    }
}

/// Marks a `syn::TypeParamBound`.
#[verifier::external_body]
fn put_bound(out: &mut Vec<Mark>, b: &TypeParamBound) {
    match b {
        TypeParamBound::Trait(x) => {
            enter(out, Kind::TraitBound, x.span());
            put_path(out, None, &x.path);
            leave(out);
        },
        TypeParamBound::Lifetime(x) => leaf(out, Kind::LifetimeBound, x.span()),
        _ => leaf(out, Kind::OtherBound, b.span()),
    }
}

// ---------------------------------------------------------------------------
// Paths
// ---------------------------------------------------------------------------

/// Marks a `syn::Path`, segment by segment, behind the type that qualifies it.
#[verifier::external_body]
fn put_path(out: &mut Vec<Mark>, qself: Option<&QSelf>, path: &syn::Path) {
    qself.iter().for_each(|q| put_qself(out, q));
    for s in &path.segments {
        enter(out, Kind::Segment, s.ident.span());
        name(out, s.ident.to_string());
        put_arguments(out, &s.arguments);
        leave(out);
    }
}

/// Marks a `syn::QSelf`.
#[verifier::external_body]
fn put_qself(out: &mut Vec<Mark>, q: &QSelf) {
    enter(out, Kind::Qualifier, q.ty.span());
    put_type(out, &q.ty);
    leave(out);
}

/// Marks `syn::PathArguments`.
#[verifier::external_body]
fn put_arguments(out: &mut Vec<Mark>, args: &PathArguments) {
    match args {
        PathArguments::None => {},
        PathArguments::AngleBracketed(x) => x.args.iter().for_each(|a| put_argument(out, a)),
        PathArguments::Parenthesized(x) => {
            enter(out, Kind::GenFn, x.span());
            x.inputs.iter().for_each(|t| put_type(out, t));
            put_ret(out, &x.output);
            leave(out);
        },
    }
}

/// Marks a `syn::GenericArgument`.
#[verifier::external_body]
fn put_argument(out: &mut Vec<Mark>, a: &GenericArgument) {
    match a {
        GenericArgument::Lifetime(x) => leaf(out, Kind::GenLifetime, x.span()),
        GenericArgument::Type(x) => {
            enter(out, Kind::GenType, x.span());
            put_type(out, x);
            leave(out);
        },
        GenericArgument::Const(x) => {
            enter(out, Kind::GenConst, x.span());
            put_expr(out, x);
            leave(out);
        },
        _ => put_constraint(out, a),
    }
}

/// Marks a `syn::GenericArgument` that says something of an associated item.
#[verifier::external_body]
fn put_constraint(out: &mut Vec<Mark>, a: &GenericArgument) {
    enter(out, Kind::GenAssoc, a.span());
    match a {
        GenericArgument::AssocType(x) => {
            x.generics.iter().flat_map(|g| &g.args).for_each(|y| put_argument(out, y));
            put_type(out, &x.ty);
        },
        GenericArgument::AssocConst(x) => {
            x.generics.iter().flat_map(|g| &g.args).for_each(|y| put_argument(out, y));
            put_expr(out, &x.value);
        },
        _ => put_bounded(out, a),
    }
    leave(out);
}

/// Marks a `syn::GenericArgument` that bounds an associated type.
#[verifier::external_body]
fn put_bounded(out: &mut Vec<Mark>, a: &GenericArgument) {
    match a {
        GenericArgument::Constraint(x) => {
            x.generics.iter().flat_map(|g| &g.args).for_each(|y| put_argument(out, y));
            x.bounds.iter().for_each(|b| put_bound(out, b));
        },
        _ => leaf(out, Kind::OtherBound, a.span()),
    }
}

// ---------------------------------------------------------------------------
// Types
// ---------------------------------------------------------------------------

/// Marks a `syn::Type`: its tokens, and what it is made of.
#[verifier::external_body]
fn put_type(out: &mut Vec<Mark>, ty: &Type) {
    match ty {
        Type::Path(x) => {
            enter(out, Kind::TyPath, x.span());
            text(out, x.to_token_stream().to_string());
            put_path(out, x.qself.as_ref(), &x.path);
            leave(out);
        },
        Type::Tuple(x) => put_types(out, Kind::TyTuple, ty, x.elems.iter().collect()),
        _ => put_array_type(out, ty),
    }
}

/// Marks a `syn::Type` that is an array, or names no parts.
#[verifier::external_body]
fn put_array_type(out: &mut Vec<Mark>, ty: &Type) {
    match ty {
        Type::Array(x) => {
            enter(out, Kind::TyArray, x.span());
            text(out, x.to_token_stream().to_string());
            put_type(out, &x.elem);
            put_expr(out, &x.len);
            leave(out);
        },
        _ => put_wrapping_type(out, ty),
    }
}

/// Marks a `syn::Type` that is made of one other type, or of none.
#[verifier::external_body]
fn put_wrapping_type(out: &mut Vec<Mark>, ty: &Type) {
    match ty {
        Type::Reference(x) => put_types(out, Kind::TyRef, ty, vec![&x.elem]),
        Type::Slice(x) => put_types(out, Kind::TySlice, ty, vec![&x.elem]),
        Type::Paren(x) => put_types(out, Kind::TyParen, ty, vec![&x.elem]),
        Type::Group(x) => put_types(out, Kind::TyGroup, ty, vec![&x.elem]),
        _ => put_plain_type(out, ty),
    }
}

/// Marks a `syn::Type` that is a pointer, or left out.
#[verifier::external_body]
fn put_plain_type(out: &mut Vec<Mark>, ty: &Type) {
    match ty {
        Type::Ptr(x) => put_types(out, Kind::TyPtr, ty, vec![&x.elem]),
        Type::Infer(_) => put_types(out, Kind::TyInfer, ty, Vec::new()),
        Type::Never(_) => put_types(out, Kind::TyNever, ty, Vec::new()),
        _ => put_bounded_type(out, ty),
    }
}

/// Marks the kind, the tokens and the parts of a `syn::Type`.
#[verifier::external_body]
fn put_types(out: &mut Vec<Mark>, kind: Kind, ty: &Type, parts: Vec<&Type>) {
    enter(out, kind, ty.span());
    text(out, ty.to_token_stream().to_string());
    parts.iter().for_each(|t| put_type(out, t));
    leave(out);
}

/// Marks a `syn::Type` that is a function, a set of bounds or a macro call.
#[verifier::external_body]
fn put_bounded_type(out: &mut Vec<Mark>, ty: &Type) {
    match ty {
        Type::BareFn(x) => {
            enter(out, Kind::TyFn, x.span());
            text(out, x.to_token_stream().to_string());
            x.inputs.iter().for_each(|a| put_type(out, &a.ty));
            put_ret(out, &x.output);
            leave(out);
        },
        _ => put_traits_type(out, ty),
    }
}

/// Marks a `syn::Type` that is a set of bounds.
#[verifier::external_body]
fn put_traits_type(out: &mut Vec<Mark>, ty: &Type) {
    match ty {
        Type::ImplTrait(x) => put_bounds(out, Kind::TyImplTrait, ty, x.bounds.iter().collect()),
        Type::TraitObject(x) => {
            put_bounds(out, Kind::TyTraitObject, ty, x.bounds.iter().collect());
        },
        _ => put_other_type(out, ty),
    }
}

/// Marks the kind, the tokens and the bounds of a `syn::Type`.
#[verifier::external_body]
fn put_bounds(out: &mut Vec<Mark>, kind: Kind, ty: &Type, bounds: Vec<&TypeParamBound>) {
    enter(out, kind, ty.span());
    text(out, ty.to_token_stream().to_string());
    bounds.iter().for_each(|b| put_bound(out, b));
    leave(out);
}

/// Marks a `syn::Type` that is a macro call or tokens.
#[verifier::external_body]
fn put_other_type(out: &mut Vec<Mark>, ty: &Type) {
    match ty {
        Type::Macro(x) => {
            enter(out, Kind::TyMacro, x.span());
            text(out, x.to_token_stream().to_string());
            put_macro(out, false, &[], &x.mac);
            leave(out);
        },
        _ => put_types(out, Kind::TyOther, ty, Vec::new()),
    }
}

// ---------------------------------------------------------------------------
// Statements
// ---------------------------------------------------------------------------

/// Marks a `syn::Block`.
#[verifier::external_body]
fn put_block(out: &mut Vec<Mark>, b: &Block) {
    enter(out, Kind::Block, b.span());
    b.stmts.iter().for_each(|s| put_stmt(out, s));
    leave(out);
}

/// Marks a `syn::Stmt`.
#[verifier::external_body]
fn put_stmt(out: &mut Vec<Mark>, s: &Stmt) {
    match s {
        Stmt::Local(x) => put_local(out, x),
        Stmt::Item(x) => put_item(out, x),
        Stmt::Expr(x, semi) => {
            enter(out, Kind::ExprStmt, x.span());
            flag(out, semi.is_some());
            put_expr(out, x);
            leave(out);
        },
        Stmt::Macro(x) => put_macro(out, false, &x.attrs, &x.mac),
    }
}

/// Marks a `syn::Local`.
#[verifier::external_body]
fn put_local(out: &mut Vec<Mark>, x: &Local) {
    enter(out, Kind::Local, x.let_token.span);
    flag(out, x.init.is_some());
    put_attrs(out, &x.attrs);
    put_pat(out, &x.pat);
    if let Some(init) = &x.init {
        put_expr(out, &init.expr);
        init.diverge.iter().for_each(|d| put_expr(out, &d.1));
    }
    leave(out);
}

// ---------------------------------------------------------------------------
// Expressions
// ---------------------------------------------------------------------------

/// Marks a `syn::Expr`.
#[verifier::external_body]
fn put_expr(out: &mut Vec<Mark>, e: &Expr) {
    let at = e.span();
    match e {
        Expr::Array(x) => put_exprs(out, Kind::Array, at, &x.attrs, x.elems.iter().collect()),
        Expr::Assign(x) => put_exprs(out, Kind::Assign, at, &x.attrs, vec![&x.left, &x.right]),
        Expr::Tuple(x) => put_exprs(out, Kind::Tuple, at, &x.attrs, x.elems.iter().collect()),
        _ => put_pair(out, e),
    }
}

/// Marks a `syn::Expr` that is an element of another, or repeats one.
#[verifier::external_body]
fn put_pair(out: &mut Vec<Mark>, e: &Expr) {
    let at = e.span();
    match e {
        Expr::Index(x) => put_exprs(out, Kind::Index, at, &x.attrs, vec![&x.expr, &x.index]),
        Expr::Repeat(x) => put_exprs(out, Kind::Repeat, at, &x.attrs, vec![&x.expr, &x.len]),
        _ => put_wrapping_expr(out, e),
    }
}

/// Marks a `syn::Expr` that is made of one other expression.
#[verifier::external_body]
fn put_wrapping_expr(out: &mut Vec<Mark>, e: &Expr) {
    let at = e.span();
    match e {
        Expr::Await(x) => put_exprs(out, Kind::Await, at, &x.attrs, vec![&x.base]),
        Expr::Group(x) => put_exprs(out, Kind::Group, at, &x.attrs, vec![&x.expr]),
        Expr::Paren(x) => put_exprs(out, Kind::Paren, at, &x.attrs, vec![&x.expr]),
        _ => put_mark_expr(out, e),
    }
}

/// Marks a `syn::Expr` that puts a sign to another.
#[verifier::external_body]
fn put_mark_expr(out: &mut Vec<Mark>, e: &Expr) {
    let at = e.span();
    match e {
        Expr::RawAddr(x) => put_exprs(out, Kind::RawAddr, at, &x.attrs, vec![&x.expr]),
        Expr::Reference(x) => put_exprs(out, Kind::Reference, at, &x.attrs, vec![&x.expr]),
        Expr::Try(x) => put_exprs(out, Kind::Try, at, &x.attrs, vec![&x.expr]),
        _ => put_operator(out, e),
    }
}

/// Marks the kind, the attributes and the parts of a `syn::Expr`.
#[verifier::external_body]
fn put_exprs(out: &mut Vec<Mark>, kind: Kind, at: Span, attrs: &[Attribute], parts: Vec<&Expr>) {
    enter(out, kind, at);
    put_attrs(out, attrs);
    parts.iter().for_each(|e| put_expr(out, e));
    leave(out);
}

/// Marks a `syn::Expr` that has an operator.
#[verifier::external_body]
fn put_operator(out: &mut Vec<Mark>, e: &Expr) {
    match e {
        Expr::Binary(x) => {
            enter(out, Kind::Binary, x.span());
            name(out, x.op.to_token_stream().to_string());
            put_attrs(out, &x.attrs);
            put_expr(out, &x.left);
            put_expr(out, &x.right);
            leave(out);
        },
        _ => put_unary(out, e),
    }
}

/// Marks a `syn::Expr` that has an operator and one operand.
#[verifier::external_body]
fn put_unary(out: &mut Vec<Mark>, e: &Expr) {
    match e {
        Expr::Unary(x) => {
            enter(out, Kind::Unary, x.span());
            name(out, x.op.to_token_stream().to_string());
            put_attrs(out, &x.attrs);
            put_expr(out, &x.expr);
            leave(out);
        },
        _ => put_cast(out, e),
    }
}

/// Marks a `syn::Expr` that casts or reads a member.
#[verifier::external_body]
fn put_cast(out: &mut Vec<Mark>, e: &Expr) {
    match e {
        Expr::Cast(x) => {
            enter(out, Kind::Cast, x.span());
            put_attrs(out, &x.attrs);
            put_expr(out, &x.expr);
            put_type(out, &x.ty);
            leave(out);
        },
        _ => put_access(out, e),
    }
}

/// Marks a `syn::Expr` that reads a member.
#[verifier::external_body]
fn put_access(out: &mut Vec<Mark>, e: &Expr) {
    match e {
        Expr::Field(x) => {
            enter(out, Kind::FieldAccess, x.span());
            put_member(out, &x.member);
            put_attrs(out, &x.attrs);
            put_expr(out, &x.base);
            leave(out);
        },
        _ => put_call(out, e),
    }
}

/// Marks the name of a `syn::Member`, and whether it has one.
#[verifier::external_body]
fn put_member(out: &mut Vec<Mark>, m: &Member) {
    match m {
        Member::Named(x) => {
            flag(out, true);
            name(out, x.to_string());
        },
        Member::Unnamed(x) => {
            flag(out, false);
            name(out, x.index.to_string());
        },
    }
}

/// Marks a `syn::Expr` that calls something.
#[verifier::external_body]
fn put_call(out: &mut Vec<Mark>, e: &Expr) {
    match e {
        Expr::Call(x) => {
            let parts = std::iter::once(&*x.func).chain(&x.args).collect();
            put_exprs(out, Kind::Call, x.func.span(), &x.attrs, parts);
        },
        _ => put_method_call(out, e),
    }
}

/// Marks a `syn::Expr` that calls a method.
#[verifier::external_body]
fn put_method_call(out: &mut Vec<Mark>, e: &Expr) {
    match e {
        Expr::MethodCall(x) => {
            enter(out, Kind::MethodCall, x.method.span());
            name(out, x.method.to_string());
            put_attrs(out, &x.attrs);
            put_expr(out, &x.receiver);
            x.turbofish.iter().for_each(|g| put_turbofish(out, g));
            x.args.iter().for_each(|a| put_expr(out, a));
            leave(out);
        },
        _ => put_leaf(out, e),
    }
}

/// Marks the generic arguments of a method call.
#[verifier::external_body]
fn put_turbofish(out: &mut Vec<Mark>, g: &syn::AngleBracketedGenericArguments) {
    enter(out, Kind::Turbofish, g.span());
    g.args.iter().for_each(|a| put_argument(out, a));
    leave(out);
}

/// Marks a `syn::Expr` that is a path, a literal or a macro call.
#[verifier::external_body]
fn put_leaf(out: &mut Vec<Mark>, e: &Expr) {
    match e {
        Expr::Path(x) => {
            enter(out, Kind::Path, x.span());
            flag(out, x.path.leading_colon.is_some());
            put_attrs(out, &x.attrs);
            put_path(out, x.qself.as_ref(), &x.path);
            leave(out);
        },
        Expr::Lit(x) => put_lit(out, &x.attrs, &x.lit),
        Expr::Macro(x) => put_macro(out, true, &x.attrs, &x.mac),
        Expr::Infer(x) => put_bare(out, Kind::Infer, &x.attrs, x.span()),
        _ => put_body_expr(out, e),
    }
}

/// Marks a `syn::Lit`.
#[verifier::external_body]
fn put_lit(out: &mut Vec<Mark>, attrs: &[Attribute], lit: &Lit) {
    match lit {
        Lit::Str(x) => put_word(out, Kind::Str, attrs, lit, x.value()),
        Lit::Bool(x) => {
            enter(out, Kind::Bool, lit.span());
            flag(out, x.value);
            put_attrs(out, attrs);
            leave(out);
        },
        _ => put_number(out, attrs, lit),
    }
}

/// Marks a `syn::Lit` that is a number.
#[verifier::external_body]
fn put_number(out: &mut Vec<Mark>, attrs: &[Attribute], lit: &Lit) {
    match lit {
        Lit::Int(x) => {
            enter(out, Kind::Int, lit.span());
            name(out, x.base10_digits().to_string());
            put(out, Mark::Number(x.base10_parse::<u64>().ok()));
            put_attrs(out, attrs);
            leave(out);
        },
        _ => put_other_lit(out, attrs, lit),
    }
}

/// Marks a `syn::Lit` by its kind and a name.
#[verifier::external_body]
fn put_word(out: &mut Vec<Mark>, kind: Kind, attrs: &[Attribute], lit: &Lit, s: String) {
    enter(out, kind, lit.span());
    name(out, s);
    put_attrs(out, attrs);
    leave(out);
}

/// Marks a `syn::Lit` that is neither text nor a whole number nor a truth value.
#[verifier::external_body]
fn put_other_lit(out: &mut Vec<Mark>, attrs: &[Attribute], lit: &Lit) {
    let s = lit.to_token_stream().to_string();
    match lit {
        Lit::ByteStr(_) => put_word(out, Kind::ByteStr, attrs, lit, s),
        Lit::CStr(_) => put_word(out, Kind::CStr, attrs, lit, s),
        Lit::Byte(_) => put_word(out, Kind::Byte, attrs, lit, s),
        Lit::Char(_) => put_word(out, Kind::Char, attrs, lit, s),
        Lit::Float(_) => put_word(out, Kind::Float, attrs, lit, s),
        _ => put_word(out, Kind::OtherLit, attrs, lit, s),
    }
}

/// Marks a `syn::Macro`: its path and its tokens. `value`: it stands as an
/// expression.
#[verifier::external_body]
fn put_macro(out: &mut Vec<Mark>, value: bool, attrs: &[Attribute], mac: &Macro) {
    enter(out, Kind::Macro, mac.span());
    flag(out, value);
    put_attrs(out, attrs);
    put_path(out, None, &mac.path);
    put_tokens(out, mac.tokens.clone());
    leave(out);
}

/// Marks a `syn::Expr` that is made of one block.
#[verifier::external_body]
fn put_body_expr(out: &mut Vec<Mark>, e: &Expr) {
    let at = e.span();
    match e {
        Expr::Async(x) => put_body(out, Kind::Async, at, &x.attrs, &x.block),
        Expr::Block(x) => put_body(out, Kind::BlockExpr, at, &x.attrs, &x.block),
        Expr::Const(x) => put_body(out, Kind::ConstBlock, at, &x.attrs, &x.block),
        _ => put_block_expr(out, e),
    }
}

/// Marks a `syn::Expr` that is made of one block of another sort.
#[verifier::external_body]
fn put_block_expr(out: &mut Vec<Mark>, e: &Expr) {
    let at = e.span();
    match e {
        Expr::Loop(x) => put_body(out, Kind::Loop, at, &x.attrs, &x.body),
        Expr::TryBlock(x) => put_body(out, Kind::TryBlock, at, &x.attrs, &x.block),
        Expr::Unsafe(x) => put_body(out, Kind::Unsafe, at, &x.attrs, &x.block),
        _ => put_branching(out, e),
    }
}

/// Marks the kind, the attributes and the block of a `syn::Expr`.
#[verifier::external_body]
fn put_body(out: &mut Vec<Mark>, kind: Kind, at: Span, attrs: &[Attribute], b: &Block) {
    enter(out, kind, at);
    put_attrs(out, attrs);
    put_block(out, b);
    leave(out);
}

/// Marks a `syn::Expr` that branches or repeats.
#[verifier::external_body]
fn put_branching(out: &mut Vec<Mark>, e: &Expr) {
    match e {
        Expr::If(x) => {
            enter(out, Kind::If, x.span());
            flag(out, x.else_branch.is_some());
            put_attrs(out, &x.attrs);
            put_expr(out, &x.cond);
            put_block(out, &x.then_branch);
            x.else_branch.iter().for_each(|b| put_expr(out, &b.1));
            leave(out);
        },
        _ => put_while(out, e),
    }
}

/// Marks a `syn::Expr` that repeats while something holds.
#[verifier::external_body]
fn put_while(out: &mut Vec<Mark>, e: &Expr) {
    match e {
        Expr::While(x) => {
            enter(out, Kind::While, x.span());
            put_attrs(out, &x.attrs);
            put_expr(out, &x.cond);
            put_block(out, &x.body);
            leave(out);
        },
        _ => put_binding(out, e),
    }
}

/// Marks a `syn::Expr` that binds patterns.
#[verifier::external_body]
fn put_binding(out: &mut Vec<Mark>, e: &Expr) {
    match e {
        Expr::ForLoop(x) => {
            enter(out, Kind::ForLoop, x.span());
            put_attrs(out, &x.attrs);
            put_pat(out, &x.pat);
            put_expr(out, &x.expr);
            put_block(out, &x.body);
            leave(out);
        },
        _ => put_let(out, e),
    }
}

/// Marks a `syn::Expr` that is a `let`.
#[verifier::external_body]
fn put_let(out: &mut Vec<Mark>, e: &Expr) {
    match e {
        Expr::Let(x) => {
            enter(out, Kind::Let, x.let_token.span);
            put_attrs(out, &x.attrs);
            put_pat(out, &x.pat);
            put_expr(out, &x.expr);
            leave(out);
        },
        _ => put_match(out, e),
    }
}

/// Marks a `syn::Expr` that is a `match` or a closure.
#[verifier::external_body]
fn put_match(out: &mut Vec<Mark>, e: &Expr) {
    match e {
        Expr::Match(x) => {
            enter(out, Kind::Match, x.match_token.span);
            put_attrs(out, &x.attrs);
            put_expr(out, &x.expr);
            x.arms.iter().for_each(|a| put_arm(out, a));
            leave(out);
        },
        _ => put_closure(out, e),
    }
}

/// Marks a `syn::Expr` that is a closure.
#[verifier::external_body]
fn put_closure(out: &mut Vec<Mark>, e: &Expr) {
    match e {
        Expr::Closure(x) => {
            enter(out, Kind::Closure, x.span());
            flag(out, x.asyncness.is_some());
            put_attrs(out, &x.attrs);
            x.inputs.iter().for_each(|p| put_closure_param(out, p));
            put_ret(out, &x.output);
            put_expr(out, &x.body);
            leave(out);
        },
        _ => put_struct(out, e),
    }
}

/// Marks a `syn::Arm`.
#[verifier::external_body]
fn put_arm(out: &mut Vec<Mark>, a: &Arm) {
    enter(out, Kind::Arm, a.fat_arrow_token.span());
    flag(out, a.guard.is_some());
    put_attrs(out, &a.attrs);
    put_pat(out, &a.pat);
    a.guard.iter().for_each(|g| put_expr(out, &g.1));
    put_expr(out, &a.body);
    leave(out);
}

/// Marks the `syn::Pat` of a closure's parameter.
#[verifier::external_body]
fn put_closure_param(out: &mut Vec<Mark>, p: &Pat) {
    enter(out, Kind::Param, p.span());
    put_pat(out, p);
    leave(out);
}

/// Marks a `syn::Expr` that is a struct or a range.
#[verifier::external_body]
fn put_struct(out: &mut Vec<Mark>, e: &Expr) {
    match e {
        Expr::Struct(x) => {
            enter(out, Kind::StructExpr, x.span());
            put_attrs(out, &x.attrs);
            put_path(out, x.qself.as_ref(), &x.path);
            x.fields.iter().for_each(|f| put_field_value(out, &f.attrs, &f.member, &f.expr));
            x.rest.iter().for_each(|r| put_expr(out, r));
            leave(out);
        },
        Expr::Range(x) => {
            let parts = x.start.iter().chain(&x.end).map(|y| &**y).collect();
            put_exprs(out, Kind::Range, x.span(), &x.attrs, parts);
        },
        _ => put_leaving(out, e),
    }
}

/// Marks a field of a struct expression.
#[verifier::external_body]
fn put_field_value(out: &mut Vec<Mark>, attrs: &[Attribute], m: &Member, e: &Expr) {
    enter(out, Kind::FieldValue, m.span());
    put_member(out, m);
    put_attrs(out, attrs);
    put_expr(out, e);
    leave(out);
}

/// Marks a `syn::Expr` that leaves a block, with or without a value.
#[verifier::external_body]
fn put_leaving(out: &mut Vec<Mark>, e: &Expr) {
    match e {
        Expr::Break(x) => put_option(out, Kind::Break, &x.attrs, e, x.expr.as_deref()),
        Expr::Return(x) => put_option(out, Kind::Return, &x.attrs, e, x.expr.as_deref()),
        Expr::Yield(x) => put_option(out, Kind::Yield, &x.attrs, e, x.expr.as_deref()),
        Expr::Continue(x) => put_option(out, Kind::Continue, &x.attrs, e, None),
        Expr::Verbatim(x) => {
            enter(out, Kind::Verbatim, e.span());
            text(out, x.to_string());
            leave(out);
        },
        _ => leaf(out, Kind::OtherExpr, e.span()),
    }
}

/// Marks the kind and the attributes of a `syn::Expr`, and its part if it has one.
#[verifier::external_body]
fn put_option(out: &mut Vec<Mark>, kind: Kind, attrs: &[Attribute], e: &Expr, part: Option<&Expr>) {
    put_exprs(out, kind, e.span(), attrs, part.into_iter().collect());
}

// ---------------------------------------------------------------------------
// Patterns
// ---------------------------------------------------------------------------

/// Marks a `syn::Pat`. Literals, paths, ranges, blocks and macros stand as the
/// expressions that they are.
#[verifier::external_body]
fn put_pat(out: &mut Vec<Mark>, p: &Pat) {
    match p {
        Pat::Const(x) => put_expr(out, &Expr::Const(x.clone())),
        Pat::Lit(x) => put_expr(out, &Expr::Lit(x.clone())),
        Pat::Macro(x) => put_expr(out, &Expr::Macro(x.clone())),
        Pat::Path(x) => put_expr(out, &Expr::Path(x.clone())),
        Pat::Range(x) => put_expr(out, &Expr::Range(x.clone())),
        _ => put_own_pat(out, p),
    }
}

/// Marks a `syn::Pat` that binds a name or has a type.
#[verifier::external_body]
fn put_own_pat(out: &mut Vec<Mark>, p: &Pat) {
    match p {
        Pat::Ident(x) => {
            enter(out, Kind::PatIdent, x.span());
            name(out, x.ident.to_string());
            put_attrs(out, &x.attrs);
            x.subpat.iter().for_each(|s| put_pat(out, &s.1));
            leave(out);
        },
        _ => put_type_pat(out, p),
    }
}

/// Marks a `syn::Pat` that has a type.
#[verifier::external_body]
fn put_type_pat(out: &mut Vec<Mark>, p: &Pat) {
    match p {
        Pat::Type(x) => {
            enter(out, Kind::PatType, x.span());
            put_attrs(out, &x.attrs);
            put_pat(out, &x.pat);
            put_type(out, &x.ty);
            leave(out);
        },
        _ => put_struct_pat(out, p),
    }
}

/// Marks a `syn::Pat` that takes a struct apart.
#[verifier::external_body]
fn put_struct_pat(out: &mut Vec<Mark>, p: &Pat) {
    match p {
        Pat::TupleStruct(x) => {
            enter(out, Kind::PatTupleStruct, x.span());
            put_attrs(out, &x.attrs);
            put_path(out, x.qself.as_ref(), &x.path);
            x.elems.iter().for_each(|y| put_pat(out, y));
            leave(out);
        },
        _ => put_named_pat(out, p),
    }
}

/// Marks a `syn::Pat` that takes a struct with named fields apart.
#[verifier::external_body]
fn put_named_pat(out: &mut Vec<Mark>, p: &Pat) {
    match p {
        Pat::Struct(x) => {
            enter(out, Kind::PatStruct, x.span());
            put_attrs(out, &x.attrs);
            put_path(out, x.qself.as_ref(), &x.path);
            x.fields.iter().for_each(|f| put_field_pat(out, &f.attrs, &f.member, &f.pat));
            leave(out);
        },
        _ => put_compound_pat(out, p),
    }
}

/// Marks a field of a struct pattern.
#[verifier::external_body]
fn put_field_pat(out: &mut Vec<Mark>, attrs: &[Attribute], m: &Member, p: &Pat) {
    enter(out, Kind::FieldPat, m.span());
    put_member(out, m);
    put_attrs(out, attrs);
    put_pat(out, p);
    leave(out);
}

/// Marks a `syn::Pat` that is made of other patterns, or of none.
#[verifier::external_body]
fn put_compound_pat(out: &mut Vec<Mark>, p: &Pat) {
    let at = p.span();
    match p {
        Pat::Or(x) => put_pats(out, Kind::PatOr, at, &x.attrs, x.cases.iter().collect()),
        Pat::Paren(x) => put_pats(out, Kind::PatParen, at, &x.attrs, vec![&x.pat]),
        Pat::Reference(x) => put_pats(out, Kind::PatReference, at, &x.attrs, vec![&x.pat]),
        _ => put_list_pat(out, p),
    }
}

/// Marks a `syn::Pat` that takes a list apart, or nothing.
#[verifier::external_body]
fn put_list_pat(out: &mut Vec<Mark>, p: &Pat) {
    let at = p.span();
    match p {
        Pat::Slice(x) => put_pats(out, Kind::PatSlice, at, &x.attrs, x.elems.iter().collect()),
        Pat::Tuple(x) => put_pats(out, Kind::PatTuple, at, &x.attrs, x.elems.iter().collect()),
        Pat::Rest(x) => put_bare(out, Kind::PatRest, &x.attrs, at),
        Pat::Wild(x) => put_bare(out, Kind::PatWild, &x.attrs, at),
        _ => leaf(out, Kind::PatOther, at),
    }
}

/// Marks the kind, the attributes and the parts of a `syn::Pat`.
#[verifier::external_body]
fn put_pats(out: &mut Vec<Mark>, kind: Kind, at: Span, attrs: &[Attribute], parts: Vec<&Pat>) {
    enter(out, kind, at);
    put_attrs(out, attrs);
    parts.iter().for_each(|p| put_pat(out, p));
    leave(out);
}

// ---------------------------------------------------------------------------
// Tokens
// ---------------------------------------------------------------------------

/// The opening delimiter that a `proc_macro2::Delimiter` stands for.
#[verifier::external_body]
fn delimiter(d: Delimiter) -> String {
    match d {
        Delimiter::Parenthesis => "(".to_string(),
        Delimiter::Brace => "{".to_string(),
        Delimiter::Bracket => "[".to_string(),
        Delimiter::None => String::new(),
    }
}

/// Marks the trees of a `proc_macro2::TokenStream`.
#[verifier::external_body]
fn put_tokens(out: &mut Vec<Mark>, tokens: TokenStream) {
    tokens.into_iter().for_each(|t| put_token(out, t));
}

/// Marks a `proc_macro2::TokenTree`.
#[verifier::external_body]
fn put_token(out: &mut Vec<Mark>, t: TokenTree) {
    match t {
        TokenTree::Ident(x) => put_lexeme(out, Kind::TokIdent, x.span(), x.to_string()),
        TokenTree::Literal(x) => put_lexeme(out, Kind::TokLit, x.span(), x.to_string()),
        TokenTree::Punct(x) => {
            put_lexeme(out, Kind::TokPunct, x.span(), x.as_char().to_string());
            flag(out, x.spacing() == proc_macro2::Spacing::Joint);
        },
        TokenTree::Group(x) => {
            put_lexeme(out, Kind::TokGroup, x.span(), delimiter(x.delimiter()));
            put_tokens(out, x.stream());
        },
    }
    leave(out);
}

/// Marks the beginning of a token: its kind, place and name.
#[verifier::external_body]
fn put_lexeme(out: &mut Vec<Mark>, kind: Kind, at: Span, s: String) {
    enter(out, kind, at);
    name(out, s);
}

// ---------------------------------------------------------------------------
// Files
// ---------------------------------------------------------------------------

/// Marks a `syn::File`.
#[verifier::external_body]
fn put_file(out: &mut Vec<Mark>, file: &syn::File) {
    enter(out, Kind::File, file.span());
    put_attrs(out, &file.attrs);
    file.items.iter().for_each(|x| put_item(out, x));
    leave(out);
}

/// What `syn::parse_file` makes of a text: the marks of the file, or the place and
/// the message of the first error.
pub uninterp spec fn file_marks(text: Seq<char>) -> Result<Seq<MarkView>, FaultView>;

/// `syn::parse_file` on `text`, its result as marks. The outcome is a function of the
/// text: lines and columns count from its start.
#[verifier::external_body]
fn mark_file(text: &str) -> (r: Result<Vec<Mark>, Fault>)
    ensures
        match r {
            Ok(ms) => file_marks(text@) == Ok::<Seq<MarkView>, FaultView>(ms.deep_view()),
            Err(f) => file_marks(text@) == Err::<Seq<MarkView>, FaultView>(f.deep_view()),
        },
{
    let file = syn::parse_file(text).map_err(|e| {
        let (at, message) = (e.span().start(), e.to_string());
        Fault { line: at.line, column: at.column, message }
    })?;
    let mut out = Vec::new();
    put_file(&mut out, &file);
    Ok(out)
}

/// The nodes of a text, or the place and the message of the first error.
pub open spec fn parsed(text: Seq<char>) -> Result<Seq<NodeView>, FaultView> {
    match file_marks(text) {
        Ok(ms) => Ok(laid(ms)),
        Err(f) => Err(f),
    }
}

/// The outcome of `parse_source` over views.
pub open spec fn outcome(r: Result<Vec<Node>, Fault>) -> Result<Seq<NodeView>, FaultView> {
    match r {
        Ok(t) => Ok(t.deep_view()),
        Err(f) => Err(f.deep_view()),
    }
}

/// Parses `text` and lays it out as nodes, which make up a tree.
pub fn parse_source(text: &str) -> (r: Result<Vec<Node>, Fault>)
    ensures
        outcome(r) == parsed(text@),
        r matches Ok(t) ==> tree(t.deep_view()),
{
    match mark_file(text) {
        Ok(ms) => Ok(lay(&ms)),
        Err(f) => Err(f),
    }
}

/// What `syn::parse_str` makes of a text as a type: its marks, or nothing where the
/// text is no type.
pub uninterp spec fn type_marks(text: Seq<char>) -> Option<Seq<MarkView>>;

/// `syn::parse_str::<syn::Type>` on `text`, its result as marks. The outcome is a
/// function of the text.
#[verifier::external_body]
fn mark_type(text: &str) -> (r: Option<Vec<Mark>>)
    ensures
        r.deep_view() == type_marks(text@),
{
    let ty: Type = syn::parse_str(text).ok()?;
    let mut out = Vec::new();
    put_type(&mut out, &ty);
    Some(out)
}

/// The nodes of a type, the type itself first, or nothing where the text is no type.
pub open spec fn parsed_type(text: Seq<char>) -> Option<Seq<NodeView>> {
    match type_marks(text) {
        Some(ms) => Some(laid(ms)),
        None => None,
    }
}

/// Parses `text` as a type and lays it out as nodes, which make up a tree.
pub fn parse_type(text: &str) -> (r: Option<Vec<Node>>)
    ensures
        r.deep_view() == parsed_type(text@),
        r matches Some(t) ==> tree(t.deep_view()),
{
    match mark_type(text) {
        Some(ms) => Some(lay(&ms)),
        None => None,
    }
}

} // verus!
