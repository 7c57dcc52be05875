//! The nodes of `syn`'s syntax tree that extraction reads, and how their
//! parts are reached.
//!
//! Nothing in this file is verified: the node types are opaque, and each
//! function only hands out a part of a node. None of them promises anything
//! about what it returns.

use vstd::prelude::*;

verus! {

/// `syn::Attribute`, held as an opaque value.
#[verifier::external_type_specification]
#[verifier::external_body]
pub struct ExAttribute(syn::Attribute);

/// `syn::Path`, held as an opaque value.
#[verifier::external_type_specification]
#[verifier::external_body]
pub struct ExPath(syn::Path);

/// `syn::NestedMeta`, held as an opaque value.
#[verifier::external_type_specification]
#[verifier::external_body]
pub struct ExNestedMeta(syn::NestedMeta);

/// `syn::Lit`, held as an opaque value.
#[verifier::external_type_specification]
#[verifier::external_body]
pub struct ExLit(syn::Lit);

/// `syn::Ident`, held as an opaque value.
#[verifier::external_type_specification]
#[verifier::external_body]
pub struct ExIdent(syn::Ident);

/// `syn::Type`, held as an opaque value.
#[verifier::external_type_specification]
#[verifier::external_body]
pub struct ExType(syn::Type);

/// `syn::Pat`, held as an opaque value.
#[verifier::external_type_specification]
#[verifier::external_body]
pub struct ExPat(syn::Pat);

/// `syn::ReturnType`, held as an opaque value.
#[verifier::external_type_specification]
#[verifier::external_body]
pub struct ExReturnType(syn::ReturnType);

/// `syn::FnArg`, held as an opaque value.
#[verifier::external_type_specification]
#[verifier::external_body]
pub struct ExFnArg(syn::FnArg);

/// `syn::ItemFn`, held as an opaque value.
#[verifier::external_type_specification]
#[verifier::external_body]
pub struct ExItemFn(syn::ItemFn);

/// `syn::Field`, held as an opaque value.
#[verifier::external_type_specification]
#[verifier::external_body]
pub struct ExField(syn::Field);

/// `syn::Fields`, held as an opaque value.
#[verifier::external_type_specification]
#[verifier::external_body]
pub struct ExFields(syn::Fields);

/// `syn::ItemStruct`, held as an opaque value.
#[verifier::external_type_specification]
#[verifier::external_body]
pub struct ExItemStruct(syn::ItemStruct);

/// `syn::Variant`, held as an opaque value.
#[verifier::external_type_specification]
#[verifier::external_body]
pub struct ExVariant(syn::Variant);

/// `syn::ItemEnum`, held as an opaque value.
#[verifier::external_type_specification]
#[verifier::external_body]
pub struct ExItemEnum(syn::ItemEnum);

/// The path and the entries of an attribute that `syn::Attribute::parse_meta`
/// reads as a list, `path(entry, ..)`; none for any other attribute.
#[verifier::external_body]
pub(crate) fn attribute_list(attr: &syn::Attribute) -> Option<(syn::Path, Vec<syn::NestedMeta>)> {
    match attr.parse_meta() {
        Ok(syn::Meta::List(list)) => Some((list.path, list.nested.into_iter().collect())),
        _ => None,
    }
}

/// `syn::Path::get_ident`: the identifier that a one-word path consists of.
#[verifier::external_body]
pub(crate) fn path_ident(path: &syn::Path) -> Option<&syn::Ident> {
    path.get_ident()
}

/// The identifiers of a path's segments, in order.
#[verifier::external_body]
pub(crate) fn path_segments(path: &syn::Path) -> Vec<&syn::Ident> {
    path.segments.iter().map(|segment| &segment.ident).collect()
}

/// The literal that an entry consists of, where it is a bare literal.
#[verifier::external_body]
pub(crate) fn nested_lit(nested: &syn::NestedMeta) -> Option<&syn::Lit> {
    match nested {
        syn::NestedMeta::Lit(lit) => Some(lit),
        _ => None,
    }
}

/// The path that an entry consists of, where it is a bare path.
#[verifier::external_body]
pub(crate) fn nested_path(nested: &syn::NestedMeta) -> Option<&syn::Path> {
    match nested {
        syn::NestedMeta::Meta(syn::Meta::Path(path)) => Some(path),
        _ => None,
    }
}

/// The two sides of an entry, where it is `path = literal`.
#[verifier::external_body]
pub(crate) fn nested_name_value(nested: &syn::NestedMeta) -> Option<(&syn::Path, &syn::Lit)> {
    match nested {
        syn::NestedMeta::Meta(syn::Meta::NameValue(pair)) => Some((&pair.path, &pair.lit)),
        _ => None,
    }
}

/// `syn::LitStr::value`: what a string literal denotes, where `lit` is one.
#[verifier::external_body]
pub(crate) fn lit_str_value(lit: &syn::Lit) -> Option<String> {
    match lit {
        syn::Lit::Str(text) => Some(text.value()),
        _ => None,
    }
}

/// `syn::LitInt::base10_digits`: an integer literal in decimal, without its
/// suffix, where `lit` is one.
#[verifier::external_body]
pub(crate) fn lit_int_digits(lit: &syn::Lit) -> Option<String> {
    match lit {
        syn::Lit::Int(number) => Some(number.base10_digits().to_owned()),
        _ => None,
    }
}

/// The attributes of a function.
#[verifier::external_body]
pub(crate) fn fn_attrs(function: &syn::ItemFn) -> &Vec<syn::Attribute> {
    &function.attrs
}

/// The name of a function.
#[verifier::external_body]
pub(crate) fn fn_ident(function: &syn::ItemFn) -> &syn::Ident {
    &function.sig.ident
}

/// The parameters of a function, in order.
#[verifier::external_body]
pub(crate) fn fn_inputs(function: &syn::ItemFn) -> Vec<&syn::FnArg> {
    function.sig.inputs.iter().collect()
}

/// What a function is declared to return.
#[verifier::external_body]
pub(crate) fn fn_output(function: &syn::ItemFn) -> &syn::ReturnType {
    &function.sig.output
}

/// The pattern and the type of a parameter; none for a receiver.
#[verifier::external_body]
pub(crate) fn typed_arg(arg: &syn::FnArg) -> Option<(&syn::Pat, &syn::Type)> {
    match arg {
        syn::FnArg::Typed(typed) => Some((&typed.pat, &typed.ty)),
        syn::FnArg::Receiver(_) => None,
    }
}

/// The type that a return type names; none where nothing is declared.
#[verifier::external_body]
pub(crate) fn declared_type(output: &syn::ReturnType) -> Option<&syn::Type> {
    match output {
        syn::ReturnType::Type(_, ty) => Some(ty),
        syn::ReturnType::Default => None,
    }
}

/// The attributes of a struct.
#[verifier::external_body]
pub(crate) fn struct_attrs(strct: &syn::ItemStruct) -> &Vec<syn::Attribute> {
    &strct.attrs
}

/// The name of a struct.
#[verifier::external_body]
pub(crate) fn struct_ident(strct: &syn::ItemStruct) -> &syn::Ident {
    &strct.ident
}

/// The fields of a struct.
#[verifier::external_body]
pub(crate) fn struct_fields(strct: &syn::ItemStruct) -> &syn::Fields {
    &strct.fields
}

/// The fields of a braced body, in order; none for any other body.
#[verifier::external_body]
pub(crate) fn named_fields(fields: &syn::Fields) -> Option<Vec<&syn::Field>> {
    match fields {
        syn::Fields::Named(body) => Some(body.named.iter().collect()),
        _ => None,
    }
}

/// The fields of a parenthesized body, in order; none for any other body.
#[verifier::external_body]
pub(crate) fn unnamed_fields(fields: &syn::Fields) -> Option<Vec<&syn::Field>> {
    match fields {
        syn::Fields::Unnamed(body) => Some(body.unnamed.iter().collect()),
        _ => None,
    }
}

/// The name of a field, where it has one.
#[verifier::external_body]
pub(crate) fn field_ident(field: &syn::Field) -> Option<&syn::Ident> {
    field.ident.as_ref()
}

/// The type of a field.
#[verifier::external_body]
pub(crate) fn field_type(field: &syn::Field) -> &syn::Type {
    &field.ty
}

/// The attributes of an enum.
#[verifier::external_body]
pub(crate) fn enum_attrs(enm: &syn::ItemEnum) -> &Vec<syn::Attribute> {
    &enm.attrs
}

/// The name of an enum.
#[verifier::external_body]
pub(crate) fn enum_ident(enm: &syn::ItemEnum) -> &syn::Ident {
    &enm.ident
}

/// The variants of an enum, in order.
#[verifier::external_body]
pub(crate) fn enum_variants(enm: &syn::ItemEnum) -> Vec<&syn::Variant> {
    enm.variants.iter().collect()
}

/// The attributes of a variant.
#[verifier::external_body]
pub(crate) fn variant_attrs(variant: &syn::Variant) -> &Vec<syn::Attribute> {
    &variant.attrs
}

/// The name of a variant.
#[verifier::external_body]
pub(crate) fn variant_ident(variant: &syn::Variant) -> &syn::Ident {
    &variant.ident
}

/// The fields of a variant.
#[verifier::external_body]
pub(crate) fn variant_fields(variant: &syn::Variant) -> &syn::Fields {
    &variant.fields
}

} // verus!
