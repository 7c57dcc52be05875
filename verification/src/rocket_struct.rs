//! Structs: every struct yields a record of its fields, with the response
//! attribute it carries, if any.

use crate::ast_formatting::{field_entries, format_fields};
use crate::rocket_attribute::{
    classify_all, first_response, is_response_attribute, lemma_no_response, Malformed,
    MalformedView, ResponseAttribute, ResponseAttributeView, RocketAttribute,
};
use crate::syntax::{StructDecl, StructDeclView};
use vstd::prelude::*;

verus! {

/// The record of a struct.
#[derive(Debug, PartialEq)]
pub struct RocketStruct {
    pub ident: String,
    /// `(label, type)` per field; an unnamed field is labelled by its
    /// position.
    pub fields: Vec<(String, String)>,
    pub response: Option<ResponseAttribute>,
}

/// The view of a [`RocketStruct`].
pub struct RocketStructView {
    pub ident: Seq<char>,
    pub fields: Seq<(Seq<char>, Seq<char>)>,
    pub response: Option<ResponseAttributeView>,
}

impl View for RocketStruct {
    type V = RocketStructView;

    open spec fn view(&self) -> RocketStructView {
        RocketStructView {
            ident: self.ident@,
            fields: self.fields.deep_view(),
            response: self.response.deep_view(),
        }
    }
}

/// The record of the struct `decl`, or what is malformed about it.
pub open spec fn struct_record(decl: StructDeclView) -> Result<RocketStructView, MalformedView> {
    match classify_all(decl.attrs) {
        Err(reason) => Err(MalformedView { ident: decl.ident, reason }),
        Ok(attrs) => Ok(
            RocketStructView {
                ident: decl.ident,
                fields: field_entries(decl.fields),
                response: first_response(attrs),
            },
        ),
    }
}

/// A struct with no attribute written as a response, and with no malformed
/// attribute, has a record without a response: its name and its fields.
pub proof fn lemma_struct_without_response(decl: StructDeclView)
    requires
        forall|j: int|
            0 <= j < decl.attrs.len() ==> !is_response_attribute(#[trigger] decl.attrs[j]),
        classify_all(decl.attrs) is Ok,
    ensures
        struct_record(decl) == Ok::<_, MalformedView>(
            RocketStructView {
                ident: decl.ident,
                fields: field_entries(decl.fields),
                response: None,
            },
        ),
{
    lemma_no_response(decl.attrs);
}

impl RocketStruct {
    /// Extracts the record of a struct: its name, its fields in declaration
    /// order, and the first response attribute it carries. Every struct has
    /// a record; extraction fails only where an attribute is malformed.
    pub fn parse_struct(s: &StructDecl) -> (r: Result<Self, Malformed>)
        ensures
            match r {
                Ok(record) => struct_record(s@) == Ok::<_, MalformedView>(record@),
                Err(e) => struct_record(s@) == Err::<RocketStructView, _>(e@),
            },
    {
        match RocketAttribute::from_struct(s) {
            Err(reason) => Err(Malformed { ident: s.ident.clone(), reason }),
            Ok(attrs) => Ok(
                RocketStruct {
                    ident: s.ident.clone(),
                    fields: format_fields(&s.fields),
                    response: RocketAttribute::select_response(attrs),
                },
            ),
        }
    }
}

} // verus!
