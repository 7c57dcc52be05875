//! How the parts of a declaration are written out as text.

use crate::decimal::{decimal_string, decimal_text};
use crate::syntax::{FieldList, FieldListView, Output, OutputView};
use vstd::prelude::*;

verus! {

/// The text of a return type: `()` where none is written.
pub open spec fn ret_type_text(ty: OutputView) -> Seq<char> {
    match ty {
        OutputView::Default => "()"@,
        OutputView::Type(text) => text,
    }
}

/// The entries of a field list: a named field under its name, an unnamed one
/// under its position, counted from zero and written in decimal.
pub open spec fn field_entries(fields: FieldListView) -> Seq<(Seq<char>, Seq<char>)> {
    match fields {
        FieldListView::Named(named) => named,
        FieldListView::Unnamed(types) => Seq::new(
            types.len(),
            |i: int| (decimal_text(i as nat), types[i]),
        ),
        FieldListView::Unit => Seq::empty(),
    }
}

/// Writes out a type as the text of its tokens, one space between tokens
/// (`Option < i32 >`).
///
/// Trusted, with nothing promised: the text is what `quote`'s `ToTokens`
/// makes of the node and what `proc_macro2` prints of that.
#[verifier::external_body]
pub fn format_type(ty: &syn::Type) -> String {
    quote::ToTokens::to_token_stream(ty).to_string()
}

/// Writes out a parameter's pattern as the text of its tokens.
///
/// Trusted, with nothing promised: the text is what `quote`'s `ToTokens`
/// makes of the node and what `proc_macro2` prints of that.
#[verifier::external_body]
pub fn format_pat(pat: &syn::Pat) -> String {
    quote::ToTokens::to_token_stream(pat).to_string()
}

/// Writes out an identifier.
///
/// Trusted, with nothing promised: the text is what `proc_macro2` prints of
/// the identifier.
#[verifier::external_body]
pub fn format_idnt(ident: &syn::Ident) -> String {
    ident.to_string()
}

/// Writes out a return type: the unit type `()` where the function declares
/// none, the declared type otherwise.
pub fn format_ret_type(ty: &Output) -> (r: String)
    ensures
        r@ == ret_type_text(ty@),
{
    match ty {
        Output::Default => "()".to_owned(),
        Output::Type(text) => text.clone(),
    }
}

/// Writes out a field list as `(label, type)` entries in declaration order.
pub fn format_fields(fields: &FieldList) -> (r: Vec<(String, String)>)
    ensures
        r.deep_view() == field_entries(fields@),
{
    let mut entries: Vec<(String, String)> = Vec::new();
    match fields {
        FieldList::Named(named) => {
            let mut i: usize = 0;
            while i < named.len()
                invariant
                    i <= named.len(),
                    entries.deep_view() == named.deep_view().take(i as int),
                decreases named.len() - i,
            {
                let ghost before = entries.deep_view();
                let entry = (named[i].0.clone(), named[i].1.clone());
                entries.push(entry);
                assert(entries.deep_view() == before.push(named.deep_view()[i as int]));
                assert(named.deep_view().take(i + 1) == before.push(named.deep_view()[i as int]));
                i += 1;
            }
            assert(named.deep_view().take(i as int) == named.deep_view());
        },
        FieldList::Unnamed(types) => {
            let mut i: usize = 0;
            while i < types.len()
                invariant
                    i <= types.len(),
                    entries.deep_view() == field_entries(fields@).take(i as int),
                    fields@ == FieldListView::Unnamed(types.deep_view()),
                decreases types.len() - i,
            {
                let ghost before = entries.deep_view();
                let entry = (decimal_string(i), types[i].clone());
                entries.push(entry);
                assert(entries.deep_view() == before.push(field_entries(fields@)[i as int]));
                assert(field_entries(fields@).take(i + 1) == before.push(
                    field_entries(fields@)[i as int],
                ));
                i += 1;
            }
            assert(field_entries(fields@).take(i as int) == field_entries(fields@));
        },
        FieldList::Unit => {},
    }
    entries
}

} // verus!
