//! Fills the model of [`crate::syntax`] from the nodes of `syn`'s syntax
//! tree.
//!
//! A node is opaque to the verifier. Each `read` therefore does two things
//! only: it asks the node for its parts, and it hands them, as text, to a
//! `from_parts` function. What the parts make is decided there, over plain
//! values, and the contract of each `from_parts` says exactly what.

use crate::ast_formatting::{format_idnt, format_pat, format_type};
use crate::nodes::{
    attribute_list, declared_type, enum_attrs, enum_ident, enum_variants, field_ident,
    field_type, fn_attrs, fn_ident, fn_inputs, fn_output, lit_int_digits, lit_str_value,
    named_fields, nested_lit, nested_name_value, nested_path, path_ident, path_segments,
    struct_attrs, struct_fields, struct_ident, typed_arg, unnamed_fields, variant_attrs,
    variant_fields, variant_ident,
};
use crate::syntax::{
    AttrArg, AttrArgView, EnumDecl, EnumDeclView, FieldList, FieldListView, FnDecl, Output,
    OutputView, Param, ParamView, RawAttribute, RawAttributeView, StructDecl, StructDeclView,
    VariantDecl, VariantDeclView,
};
use vstd::prelude::*;

verus! {

/// The text of a literal, given its value where it is a string literal and
/// its digits where it is an integer literal: the value, else the digits.
pub open spec fn literal_text_of(value: Option<Seq<char>>, digits: Option<Seq<char>>) -> Option<
    Seq<char>,
> {
    match value {
        Some(text) => Some(text),
        None => digits,
    }
}

/// The entry that its parts make. `literal` is there for a bare literal and
/// holds its value where it is a string; `path` is there for a bare path and
/// holds its segments; `pair` is there for `path = literal` and holds the
/// name where the path is one word, and the literal's text where it has one.
/// A bare string literal is `Str`, a bare path is `Path`, a pair with both a
/// name and a text is `NameValue`; everything else is `Other`.
pub open spec fn arg_of_parts(
    literal: Option<Option<Seq<char>>>,
    path: Option<Seq<Seq<char>>>,
    pair: Option<(Option<Seq<char>>, Option<Seq<char>>)>,
) -> AttrArgView {
    match literal {
        Some(Some(value)) => AttrArgView::Str(value),
        Some(None) => AttrArgView::Other,
        None => match path {
            Some(segments) => AttrArgView::Path(segments),
            None => match pair {
                Some((Some(name), Some(value))) => AttrArgView::NameValue { name, value },
                _ => AttrArgView::Other,
            },
        },
    }
}

/// The attribute that its parts make. `list` is there for an attribute that
/// reads as a list, and holds the name where the path is one word, and the
/// entries. A list with a name is `List`; everything else is `Other`.
pub open spec fn attribute_of_parts(
    list: Option<(Option<Seq<char>>, Seq<AttrArgView>)>,
) -> RawAttributeView {
    match list {
        Some((Some(path), args)) => RawAttributeView::List { path, args },
        _ => RawAttributeView::Other,
    }
}

/// The parameter that its parts make: bound where a pattern and a type are
/// there, a receiver otherwise.
pub open spec fn param_of_parts(bound: Option<(Seq<char>, Seq<char>)>) -> ParamView {
    match bound {
        Some((pat, ty)) => ParamView::Bound { pat, ty },
        None => ParamView::Receiver,
    }
}

/// The return type that a declared type, or none, makes.
pub open spec fn output_of_parts(ty: Option<Seq<char>>) -> OutputView {
    match ty {
        Some(text) => OutputView::Type(text),
        None => OutputView::Default,
    }
}

/// Whether every item of `items` is there.
pub open spec fn all_present<T>(items: Seq<Option<T>>) -> bool {
    forall|i: int| 0 <= i < items.len() ==> (#[trigger] items[i]) is Some
}

/// The items of `items`, in order; it is meant for a list in which every
/// item is there.
pub open spec fn present<T>(items: Seq<Option<T>>) -> Seq<T> {
    Seq::new(items.len(), |i: int| items[i]->0)
}

/// The field list that its parts make. `named` is there for a braced body
/// and holds, per field, its name and type, or none for a field without a
/// name; `unnamed` is there for a parenthesized body and holds the types.
/// A braced body makes `Named` where every field has a name, and nothing
/// where one has none. Otherwise a parenthesized body makes `Unnamed`, and
/// any other body makes `Unit`.
pub open spec fn fields_of_parts(
    named: Option<Seq<Option<(Seq<char>, Seq<char>)>>>,
    unnamed: Option<Seq<Seq<char>>>,
) -> Option<FieldListView> {
    match named {
        Some(entries) => if all_present(entries) {
            Some(FieldListView::Named(present(entries)))
        } else {
            None
        },
        None => match unnamed {
            Some(types) => Some(FieldListView::Unnamed(types)),
            None => Some(FieldListView::Unit),
        },
    }
}

/// The struct that its parts make: none where its fields could not be read.
pub open spec fn struct_of_parts(
    ident: Seq<char>,
    attrs: Seq<RawAttributeView>,
    fields: Option<FieldListView>,
) -> Option<StructDeclView> {
    match fields {
        Some(fields) => Some(StructDeclView { ident, attrs, fields }),
        None => None,
    }
}

/// The variant that its parts make: none where its fields could not be
/// read.
pub open spec fn variant_of_parts(
    ident: Seq<char>,
    attrs: Seq<RawAttributeView>,
    fields: Option<FieldListView>,
) -> Option<VariantDeclView> {
    match fields {
        Some(fields) => Some(VariantDeclView { ident, attrs, fields }),
        None => None,
    }
}

/// The enum that its parts make: none where one of its variants could not
/// be read.
pub open spec fn enum_of_parts(
    ident: Seq<char>,
    attrs: Seq<RawAttributeView>,
    variants: Seq<Option<VariantDeclView>>,
) -> Option<EnumDeclView> {
    if all_present(variants) {
        Some(EnumDeclView { ident, attrs, variants: present(variants) })
    } else {
        None
    }
}

/// The text of a literal on the right of `name = ..`, given what reading it
/// as a string literal and as an integer literal gave: the value of a
/// string literal, else the digits of an integer literal, else none.
pub fn text_of_literal(value: Option<String>, digits: Option<String>) -> (r: Option<String>)
    ensures
        r.deep_view() == literal_text_of(value.deep_view(), digits.deep_view()),
{
    match value {
        Some(text) => Some(text),
        None => digits,
    }
}

/// The items of a list where every one is there, in their order; none
/// where one is missing.
pub fn all_or_none<T>(items: Vec<Option<T>>) -> (r: Option<Vec<T>>)
    ensures
        match r {
            Some(all) => all_present(items@) && all@ == present(items@),
            None => !all_present(items@),
        },
{
    let ghost given = items@;
    let mut rest = items;
    let mut reversed: Vec<T> = Vec::new();
    while rest.len() > 0
        invariant
            given == items@,
            rest@.len() <= given.len(),
            rest@ == given.take(rest@.len() as int),
            reversed@.len() == given.len() - rest@.len(),
            forall|j: int|
                0 <= j < reversed@.len() ==> given[given.len() - 1 - j] == Some(
                    #[trigger] reversed@[j],
                ),
        decreases rest.len(),
    {
        let ghost n = rest@.len() as int;
        match rest.pop() {
            Some(Some(item)) => {
                reversed.push(item);
            },
            _ => {
                assert(given[n - 1] is None);
                return None;
            },
        }
    }
    let ghost turned = reversed@;
    let mut all: Vec<T> = Vec::new();
    while reversed.len() > 0
        invariant
            turned.len() == given.len(),
            forall|j: int|
                0 <= j < turned.len() ==> given[given.len() - 1 - j] == Some(#[trigger] turned[j]),
            reversed@.len() <= turned.len(),
            reversed@ == turned.take(reversed@.len() as int),
            all@.len() == turned.len() - reversed@.len(),
            forall|j: int| 0 <= j < all@.len() ==> given[j] == Some(#[trigger] all@[j]),
        decreases reversed.len(),
    {
        let ghost n = reversed@.len() as int;
        let item = reversed.pop().unwrap();
        assert(item == turned[n - 1]);
        all.push(item);
    }
    assert forall|i: int| 0 <= i < given.len() implies (#[trigger] given[i]) is Some by {
        assert(given[i] == Some(all@[i]));
    }
    assert(all@ =~= present(given));
    Some(all)
}

/// The deep view of the items that are all there is that of the present
/// ones among the deep views.
proof fn lemma_present_deep_view<T: DeepView>(items: Vec<Option<T>>, all: Vec<T>)
    requires
        all_present(items@),
        all@ == present(items@),
    ensures
        all_present(items.deep_view()),
        all.deep_view() == present(items.deep_view()),
{
    assert forall|i: int| 0 <= i < items.deep_view().len() implies (
    #[trigger] items.deep_view()[i]) is Some by {
        assert(items@[i] is Some);
    }
    assert forall|i: int| 0 <= i < all.deep_view().len() implies all.deep_view()[i] == present(
        items.deep_view(),
    )[i] by {
        assert(all@[i] == items@[i]->0);
    }
    assert(all.deep_view() =~= present(items.deep_view()));
}

/// Where an item is missing, one is missing among the deep views.
proof fn lemma_missing_deep_view<T: DeepView>(items: Vec<Option<T>>)
    requires
        !all_present(items@),
    ensures
        !all_present(items.deep_view()),
{
    let i = choose|i: int| 0 <= i < items@.len() && !((#[trigger] items@[i]) is Some);
    assert(items.deep_view()[i] is None);
}

/// Reads the text of a literal on the right of `name = ..`.
fn literal_text(lit: &syn::Lit) -> Option<String> {
    text_of_literal(lit_str_value(lit), lit_int_digits(lit))
}

impl AttrArg {
    /// Makes an entry of an attribute's argument list from its parts: a
    /// bare string literal is `Str`, a bare path is `Path`, `name = literal`
    /// under a one-word name and with a literal that has a text is
    /// `NameValue`, everything else is `Other`.
    pub fn from_parts(
        literal: Option<Option<String>>,
        path: Option<Vec<String>>,
        pair: Option<(Option<String>, Option<String>)>,
    ) -> (r: AttrArg)
        ensures
            r@ == arg_of_parts(literal.deep_view(), path.deep_view(), pair.deep_view()),
    {
        match literal {
            Some(Some(value)) => AttrArg::Str(value),
            Some(None) => AttrArg::Other,
            None => match path {
                Some(segments) => AttrArg::Path(segments),
                None => match pair {
                    Some((Some(name), Some(value))) => AttrArg::NameValue { name, value },
                    _ => AttrArg::Other,
                },
            },
        }
    }

    /// Reads one entry of an attribute's argument list: asks the node for
    /// its literal, its path and its two sides, and makes the entry of
    /// them.
    pub fn read(nested: &syn::NestedMeta) -> AttrArg {
        let literal = match nested_lit(nested) {
            Some(lit) => Some(lit_str_value(lit)),
            None => None,
        };
        let path = match nested_path(nested) {
            Some(path) => {
                let idents = path_segments(path);
                let mut segments: Vec<String> = Vec::new();
                let mut i: usize = 0;
                while i < idents.len()
                    invariant
                        i <= idents.len(),
                        segments.len() == i,
                    decreases idents.len() - i,
                {
                    segments.push(format_idnt(idents[i]));
                    i += 1;
                }
                Some(segments)
            },
            None => None,
        };
        let pair = match nested_name_value(nested) {
            Some((path, lit)) => {
                let name = match path_ident(path) {
                    Some(ident) => Some(format_idnt(ident)),
                    None => None,
                };
                Some((name, literal_text(lit)))
            },
            None => None,
        };
        AttrArg::from_parts(literal, path, pair)
    }
}

impl RawAttribute {
    /// Makes an attribute from its parts: a list under a one-word path is
    /// `List`, with its entries in order; everything else is `Other`.
    pub fn from_parts(list: Option<(Option<String>, Vec<AttrArg>)>) -> (r: RawAttribute)
        ensures
            r@ == attribute_of_parts(list.deep_view()),
    {
        match list {
            Some((Some(path), args)) => RawAttribute::List { path, args },
            _ => RawAttribute::Other,
        }
    }

    /// Reads one attribute: asks the node for its path and its entries,
    /// reads each entry, and makes the attribute of them.
    pub fn read(attr: &syn::Attribute) -> (r: RawAttribute) {
        let list = match attribute_list(attr) {
            None => None,
            Some((path, nested)) => {
                let name = match path_ident(&path) {
                    Some(ident) => Some(format_idnt(ident)),
                    None => None,
                };
                let mut args: Vec<AttrArg> = Vec::new();
                let mut i: usize = 0;
                while i < nested.len()
                    invariant
                        i <= nested.len(),
                        args.len() == i,
                    decreases nested.len() - i,
                {
                    args.push(AttrArg::read(&nested[i]));
                    i += 1;
                }
                Some((name, args))
            },
        };
        RawAttribute::from_parts(list)
    }

    /// Reads the attributes of a declaration, one for one and in order.
    pub fn read_all(attrs: &Vec<syn::Attribute>) -> (r: Vec<RawAttribute>)
        ensures
            r.len() == attrs.len(),
    {
        let mut raw: Vec<RawAttribute> = Vec::new();
        let mut i: usize = 0;
        while i < attrs.len()
            invariant
                i <= attrs.len(),
                raw.len() == i,
            decreases attrs.len() - i,
        {
            raw.push(RawAttribute::read(&attrs[i]));
            i += 1;
        }
        raw
    }
}

impl Param {
    /// Makes a parameter from its parts: bound where a pattern and a type
    /// are there, a receiver otherwise.
    pub fn from_parts(bound: Option<(String, String)>) -> (r: Param)
        ensures
            r@ == param_of_parts(bound.deep_view()),
    {
        match bound {
            Some((pat, ty)) => Param::Bound { pat, ty },
            None => Param::Receiver,
        }
    }

    /// Reads one parameter of a function: asks the node for its pattern
    /// and type, and makes the parameter of their texts.
    pub fn read(arg: &syn::FnArg) -> Param {
        let bound = match typed_arg(arg) {
            Some((pat, ty)) => Some((format_pat(pat), format_type(ty))),
            None => None,
        };
        Param::from_parts(bound)
    }
}

impl Output {
    /// Makes a return type from the text of the declared type, or from
    /// none.
    pub fn from_parts(ty: Option<String>) -> (r: Output)
        ensures
            r@ == output_of_parts(ty.deep_view()),
    {
        match ty {
            Some(text) => Output::Type(text),
            None => Output::Default,
        }
    }

    /// Reads what a function is declared to return: asks the node for the
    /// declared type, and makes the return type of its text.
    pub fn read(output: &syn::ReturnType) -> Output {
        let ty = match declared_type(output) {
            Some(ty) => Some(format_type(ty)),
            None => None,
        };
        Output::from_parts(ty)
    }
}

impl FnDecl {
    /// Reads the name, the attributes and the signature of a function, each
    /// from the node's part of that name, the parameters one for one and in
    /// order.
    pub fn read(function: &syn::ItemFn) -> FnDecl {
        let inputs = fn_inputs(function);
        let mut params: Vec<Param> = Vec::new();
        let mut i: usize = 0;
        while i < inputs.len()
            invariant
                i <= inputs.len(),
                params.len() == i,
            decreases inputs.len() - i,
        {
            params.push(Param::read(inputs[i]));
            i += 1;
        }
        FnDecl {
            ident: format_idnt(fn_ident(function)),
            attrs: RawAttribute::read_all(fn_attrs(function)),
            params,
            output: Output::read(fn_output(function)),
        }
    }
}

impl FieldList {
    /// Makes a field list from its parts. A braced body is `Named` where
    /// every field has a name; there is no field list for one with a field
    /// that has none. Otherwise a parenthesized body is `Unnamed`, and any
    /// other body is `Unit`.
    pub fn from_parts(
        named: Option<Vec<Option<(String, String)>>>,
        unnamed: Option<Vec<String>>,
    ) -> (r: Option<FieldList>)
        ensures
            match r {
                Some(fields) => fields_of_parts(named.deep_view(), unnamed.deep_view()) == Some(
                    fields@,
                ),
                None => fields_of_parts(named.deep_view(), unnamed.deep_view()) is None,
            },
    {
        match named {
            Some(entries) => {
                let ghost given = entries;
                match all_or_none(entries) {
                    Some(fields) => {
                        proof {
                            lemma_present_deep_view(given, fields);
                        }
                        Some(FieldList::Named(fields))
                    },
                    None => {
                        proof {
                            lemma_missing_deep_view(given);
                        }
                        None
                    },
                }
            },
            None => match unnamed {
                Some(types) => Some(FieldList::Unnamed(types)),
                None => Some(FieldList::Unit),
            },
        }
    }

    /// Reads the fields of a struct or of a variant: asks the node for the
    /// fields of a braced and of a parenthesized body, and makes the field
    /// list of their names and types. No parsed source has a braced field
    /// without a name.
    pub fn read(fields: &syn::Fields) -> Option<FieldList> {
        let named = match named_fields(fields) {
            Some(list) => {
                let mut entries: Vec<Option<(String, String)>> = Vec::new();
                let mut i: usize = 0;
                while i < list.len()
                    invariant
                        i <= list.len(),
                        entries.len() == i,
                    decreases list.len() - i,
                {
                    let entry = match field_ident(list[i]) {
                        Some(ident) => Some((format_idnt(ident), format_type(field_type(list[i])))),
                        None => None,
                    };
                    entries.push(entry);
                    i += 1;
                }
                Some(entries)
            },
            None => None,
        };
        let unnamed = match unnamed_fields(fields) {
            Some(list) => {
                let mut types: Vec<String> = Vec::new();
                let mut i: usize = 0;
                while i < list.len()
                    invariant
                        i <= list.len(),
                        types.len() == i,
                    decreases list.len() - i,
                {
                    types.push(format_type(field_type(list[i])));
                    i += 1;
                }
                Some(types)
            },
            None => None,
        };
        FieldList::from_parts(named, unnamed)
    }
}

impl StructDecl {
    /// Makes a struct from its name, its attributes and its fields; none
    /// where the fields could not be read.
    pub fn from_parts(ident: String, attrs: Vec<RawAttribute>, fields: Option<FieldList>) -> (r:
        Option<StructDecl>)
        ensures
            match r {
                Some(decl) => struct_of_parts(ident@, attrs.deep_view(), fields.deep_view()) == Some(
                    decl@,
                ),
                None => struct_of_parts(ident@, attrs.deep_view(), fields.deep_view()) is None,
            },
    {
        match fields {
            Some(fields) => Some(StructDecl { ident, attrs, fields }),
            None => None,
        }
    }

    /// Reads the name, the attributes and the fields of a struct, each from
    /// the node's part of that name.
    pub fn read(strct: &syn::ItemStruct) -> Option<StructDecl> {
        StructDecl::from_parts(
            format_idnt(struct_ident(strct)),
            RawAttribute::read_all(struct_attrs(strct)),
            FieldList::read(struct_fields(strct)),
        )
    }
}

impl VariantDecl {
    /// Makes a variant from its name, its attributes and its fields; none
    /// where the fields could not be read.
    pub fn from_parts(ident: String, attrs: Vec<RawAttribute>, fields: Option<FieldList>) -> (r:
        Option<VariantDecl>)
        ensures
            match r {
                Some(decl) => variant_of_parts(ident@, attrs.deep_view(), fields.deep_view())
                    == Some(decl@),
                None => variant_of_parts(ident@, attrs.deep_view(), fields.deep_view()) is None,
            },
    {
        match fields {
            Some(fields) => Some(VariantDecl { ident, attrs, fields }),
            None => None,
        }
    }

    /// Reads the name, the attributes and the fields of a variant, each
    /// from the node's part of that name.
    pub fn read(variant: &syn::Variant) -> Option<VariantDecl> {
        VariantDecl::from_parts(
            format_idnt(variant_ident(variant)),
            RawAttribute::read_all(variant_attrs(variant)),
            FieldList::read(variant_fields(variant)),
        )
    }
}

impl EnumDecl {
    /// Makes an enum from its name, its attributes and its variants, in
    /// order; none where one of the variants could not be read.
    pub fn from_parts(
        ident: String,
        attrs: Vec<RawAttribute>,
        variants: Vec<Option<VariantDecl>>,
    ) -> (r: Option<EnumDecl>)
        ensures
            match r {
                Some(decl) => enum_of_parts(ident@, attrs.deep_view(), variants.deep_view())
                    == Some(decl@),
                None => enum_of_parts(ident@, attrs.deep_view(), variants.deep_view()) is None,
            },
    {
        let ghost given = variants;
        match all_or_none(variants) {
            Some(variants) => {
                proof {
                    lemma_present_deep_view(given, variants);
                }
                Some(EnumDecl { ident, attrs, variants })
            },
            None => {
                proof {
                    lemma_missing_deep_view(given);
                }
                None
            },
        }
    }

    /// Reads the name, the attributes and the variants of an enum, each
    /// from the node's part of that name, the variants one for one and in
    /// order.
    pub fn read(enm: &syn::ItemEnum) -> Option<EnumDecl> {
        let list = enum_variants(enm);
        let mut variants: Vec<Option<VariantDecl>> = Vec::new();
        let mut i: usize = 0;
        while i < list.len()
            invariant
                i <= list.len(),
                variants.len() == i,
            decreases list.len() - i,
        {
            variants.push(VariantDecl::read(list[i]));
            i += 1;
        }
        EnumDecl::from_parts(
            format_idnt(enum_ident(enm)),
            RawAttribute::read_all(enum_attrs(enm)),
            variants,
        )
    }
}

} // verus!
