//! Enums: an enum that derives `Responder` yields a record of the variants
//! that carry a response attribute.

use crate::ast_formatting::{field_entries, format_fields};
use crate::rocket_attribute::{
    classify_all, first_response, has_marker, is_responder_derive, is_response_attribute,
    lemma_no_marker, lemma_no_response,
    AttributeError, Malformed, MalformedView, ResponseAttribute, ResponseAttributeView,
    RocketAttribute,
};
use crate::syntax::{EnumDecl, EnumDeclView, VariantDecl, VariantDeclView};
use vstd::prelude::*;

verus! {

/// The record of an enum.
#[derive(Debug, PartialEq)]
pub struct RocketEnum {
    pub ident: String,
    pub variants: Vec<RocketVariant>,
}

/// The record of one variant of an enum.
#[derive(Debug, PartialEq)]
pub struct RocketVariant {
    pub ident: String,
    pub response: ResponseAttribute,
    /// `(label, type)` per field; an unnamed field is labelled by its
    /// position.
    pub fields: Vec<(String, String)>,
}

/// The view of a [`RocketVariant`].
pub struct RocketVariantView {
    pub ident: Seq<char>,
    pub response: ResponseAttributeView,
    pub fields: Seq<(Seq<char>, Seq<char>)>,
}

/// The view of a [`RocketEnum`].
pub struct RocketEnumView {
    pub ident: Seq<char>,
    pub variants: Seq<RocketVariantView>,
}

impl View for RocketVariant {
    type V = RocketVariantView;

    open spec fn view(&self) -> RocketVariantView {
        RocketVariantView {
            ident: self.ident@,
            response: self.response@,
            fields: self.fields.deep_view(),
        }
    }
}

impl DeepView for RocketVariant {
    type V = RocketVariantView;

    open spec fn deep_view(&self) -> RocketVariantView {
        self@
    }
}

impl View for RocketEnum {
    type V = RocketEnumView;

    open spec fn view(&self) -> RocketEnumView {
        RocketEnumView { ident: self.ident@, variants: self.variants.deep_view() }
    }
}

/// The record of the variant `decl`: none where it carries no response
/// attribute, or the error of its first malformed attribute.
pub open spec fn variant_record(decl: VariantDeclView) -> Result<
    Option<RocketVariantView>,
    AttributeError,
> {
    match classify_all(decl.attrs) {
        Err(e) => Err(e),
        Ok(attrs) => match first_response(attrs) {
            None => Ok(None),
            Some(response) => Ok(
                Some(
                    RocketVariantView {
                        ident: decl.ident,
                        response,
                        fields: field_entries(decl.fields),
                    },
                ),
            ),
        },
    }
}

/// The records of the variants `decls` that have one, in their order, or the
/// error of the first variant with a malformed attribute.
pub open spec fn variant_records(decls: Seq<VariantDeclView>) -> Result<
    Seq<RocketVariantView>,
    AttributeError,
>
    decreases decls.len(),
{
    if decls.len() == 0 {
        Ok(Seq::empty())
    } else {
        match variant_records(decls.drop_last()) {
            Err(e) => Err(e),
            Ok(records) => match variant_record(decls.last()) {
                Err(e) => Err(e),
                Ok(None) => Ok(records),
                Ok(Some(record)) => Ok(records.push(record)),
            },
        }
    }
}

/// The record of the enum `decl`: none where it does not derive `Responder`,
/// or what is malformed about it. The variants of an enum that does not
/// derive `Responder` are not looked at.
pub open spec fn enum_record(decl: EnumDeclView) -> Result<Option<RocketEnumView>, MalformedView> {
    match classify_all(decl.attrs) {
        Err(reason) => Err(MalformedView { ident: decl.ident, reason }),
        Ok(attrs) => if !has_marker(attrs) {
            Ok(None)
        } else {
            match variant_records(decl.variants) {
                Err(reason) => Err(MalformedView { ident: decl.ident, reason }),
                Ok(variants) => Ok(Some(RocketEnumView { ident: decl.ident, variants })),
            }
        },
    }
}

/// An error among the first `n` variants is the error of the whole list.
proof fn lemma_variant_records_error(decls: Seq<VariantDeclView>, n: int)
    requires
        0 <= n <= decls.len(),
        variant_records(decls.take(n)) is Err,
    ensures
        variant_records(decls) == variant_records(decls.take(n)),
    decreases decls.len() - n,
{
    if n < decls.len() {
        assert(decls.take(n + 1).drop_last() == decls.take(n));
        lemma_variant_records_error(decls, n + 1);
    } else {
        assert(decls.take(n) == decls);
    }
}

/// An enum that does not derive `Responder` yields no record, whatever its
/// variants carry. Where none of its own attributes is malformed, it is
/// passed over in silence.
pub proof fn lemma_enum_without_responder(decl: EnumDeclView)
    requires
        forall|j: int|
            0 <= j < decl.attrs.len() ==> !is_responder_derive(#[trigger] decl.attrs[j]),
    ensures
        !(enum_record(decl) matches Ok(Some(_))),
        classify_all(decl.attrs) is Ok ==> enum_record(decl) == Ok::<
            Option<RocketEnumView>,
            MalformedView,
        >(None),
{
    if classify_all(decl.attrs) is Ok {
        lemma_no_marker(decl.attrs);
    }
}

/// A variant with no attribute written as a response yields no record.
/// Where none of its attributes is malformed, it is left out in silence.
pub proof fn lemma_variant_without_response(decl: VariantDeclView)
    requires
        forall|j: int|
            0 <= j < decl.attrs.len() ==> !is_response_attribute(#[trigger] decl.attrs[j]),
    ensures
        !(variant_record(decl) matches Ok(Some(_))),
        classify_all(decl.attrs) is Ok ==> variant_record(decl) == Ok::<
            Option<RocketVariantView>,
            AttributeError,
        >(None),
{
    if classify_all(decl.attrs) is Ok {
        lemma_no_response(decl.attrs);
    }
}

/// Of three variants of an enum that derives `Responder`, where the first
/// and the third carry a response attribute and the second carries none, the
/// record holds the first and then the third.
pub proof fn lemma_middle_variant_left_out(decl: EnumDeclView)
    requires
        classify_all(decl.attrs) matches Ok(attrs) && has_marker(attrs),
        decl.variants.len() == 3,
        variant_record(decl.variants[0]) matches Ok(Some(_)),
        variant_record(decl.variants[1]) == Ok::<Option<RocketVariantView>, AttributeError>(None),
        variant_record(decl.variants[2]) matches Ok(Some(_)),
    ensures
        enum_record(decl) == Ok::<_, MalformedView>(
            Some(
                RocketEnumView {
                    ident: decl.ident,
                    variants: seq![
                        variant_record(decl.variants[0])->Ok_0->0,
                        variant_record(decl.variants[2])->Ok_0->0,
                    ],
                },
            ),
        ),
{
    let v = decl.variants;
    let two = v.drop_last();
    let one = two.drop_last();
    assert(one.drop_last().len() == 0);
    assert(one.last() == v[0] && two.last() == v[1] && v.last() == v[2]);
    assert(variant_records(one.drop_last()) == Ok::<_, AttributeError>(
        Seq::<RocketVariantView>::empty(),
    ));
    let first = variant_record(v[0])->Ok_0->0;
    let third = variant_record(v[2])->Ok_0->0;
    assert(variant_records(one) == Ok::<_, AttributeError>(
        Seq::<RocketVariantView>::empty().push(first),
    ));
    assert(variant_records(two) == variant_records(one));
    assert(variant_records(v)->Ok_0 == seq![first, third]);
}

impl RocketVariant {
    /// Extracts the record of one variant: its name, the first response
    /// attribute it carries, and its fields in declaration order. A variant
    /// with no response attribute yields none.
    pub fn parse_variant(variant: &VariantDecl) -> (r: Result<Option<Self>, AttributeError>)
        ensures
            match r {
                Ok(Some(record)) => variant_record(variant@) == Ok::<_, AttributeError>(
                    Some(record@),
                ),
                Ok(None) => variant_record(variant@) == Ok::<
                    Option<RocketVariantView>,
                    AttributeError,
                >(None),
                Err(e) => variant_record(variant@) == Err::<Option<RocketVariantView>, _>(e),
            },
    {
        match RocketAttribute::from_variant(variant) {
            Err(e) => Err(e),
            Ok(attrs) => match RocketAttribute::select_response(attrs) {
                None => Ok(None),
                Some(response) => Ok(
                    Some(
                        RocketVariant {
                            ident: variant.ident.clone(),
                            response,
                            fields: format_fields(&variant.fields),
                        },
                    ),
                ),
            },
        }
    }
}

impl RocketEnum {
    /// Extracts the record of an enum. An enum that does not derive
    /// `Responder` yields none, whatever its variants carry. Of one that
    /// does, the variants with a response attribute are kept, in declaration
    /// order; the others are left out. Extraction fails where an attribute of
    /// the enum, or then of a variant, is malformed.
    pub fn parse_enum(enm: &EnumDecl) -> (r: Result<Option<Self>, Malformed>)
        ensures
            match r {
                Ok(Some(record)) => enum_record(enm@) == Ok::<_, MalformedView>(Some(record@)),
                Ok(None) => enum_record(enm@) == Ok::<Option<RocketEnumView>, MalformedView>(None),
                Err(e) => enum_record(enm@) == Err::<Option<RocketEnumView>, _>(e@),
            },
    {
        let attrs = match RocketAttribute::from_enum(enm) {
            Err(reason) => {
                return Err(Malformed { ident: enm.ident.clone(), reason });
            },
            Ok(attrs) => attrs,
        };
        if !RocketAttribute::any_marker(&attrs) {
            return Ok(None);
        }
        let mut variants: Vec<RocketVariant> = Vec::new();
        let mut i: usize = 0;
        assert(enm.variants.deep_view().take(0).len() == 0);
        assert(variants.deep_view() == Seq::<RocketVariantView>::empty());
        while i < enm.variants.len()
            invariant
                i <= enm.variants.len(),
                classify_all(enm@.attrs) == Ok::<_, AttributeError>(attrs.deep_view()),
                has_marker(attrs.deep_view()),
                variant_records(enm.variants.deep_view().take(i as int)) == Ok::<
                    _,
                    AttributeError,
                >(variants.deep_view()),
            decreases enm.variants.len() - i,
        {
            let ghost prefix = enm.variants.deep_view().take(i + 1);
            let ghost before = variants.deep_view();
            assert(prefix.last() == enm.variants[i as int]@);
            assert(prefix.drop_last() == enm.variants.deep_view().take(i as int));
            match RocketVariant::parse_variant(&enm.variants[i]) {
                Err(reason) => {
                    proof {
                        lemma_variant_records_error(enm.variants.deep_view(), i + 1);
                    }
                    return Err(Malformed { ident: enm.ident.clone(), reason });
                },
                Ok(None) => {},
                Ok(Some(record)) => {
                    variants.push(record);
                    assert(variants.deep_view() == before.push(record@));
                },
            }
            i += 1;
        }
        assert(enm.variants.deep_view().take(i as int) == enm.variants.deep_view());
        Ok(Some(RocketEnum { ident: enm.ident.clone(), variants }))
    }
}

} // verus!
