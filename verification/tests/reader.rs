use rocket_extract::reader::{all_or_none, text_of_literal};
use rocket_extract::syntax::{
    AttrArg, EnumDecl, FieldList, Output, Param, RawAttribute, StructDecl, VariantDecl,
};

fn s(text: &str) -> String {
    text.to_string()
}

fn variant(ident: &str) -> VariantDecl {
    VariantDecl {
        ident: s(ident),
        attrs: vec![],
        fields: FieldList::Unit,
    }
}

#[test]
fn literal_text_prefers_the_string_value() {
    assert_eq!(text_of_literal(Some(s("a")), Some(s("1"))), Some(s("a")));
    assert_eq!(text_of_literal(Some(s("")), Some(s("1"))), Some(s("")));
    assert_eq!(text_of_literal(None, Some(s("1"))), Some(s("1")));
    assert_eq!(text_of_literal(Some(s("a")), None), Some(s("a")));
    assert_eq!(text_of_literal(None, None), None);
}

#[test]
fn all_or_none_keeps_the_order() {
    assert_eq!(
        all_or_none(vec![Some(1u8), Some(2), Some(3)]),
        Some(vec![1u8, 2, 3])
    );
    assert_eq!(all_or_none(vec![Some(s("x"))]), Some(vec![s("x")]));
    assert_eq!(all_or_none(Vec::<Option<u8>>::new()), Some(vec![]));
}

#[test]
fn all_or_none_fails_on_a_missing_item() {
    assert_eq!(all_or_none(vec![None, Some(2u8), Some(3)]), None);
    assert_eq!(all_or_none(vec![Some(1u8), None, Some(3)]), None);
    assert_eq!(all_or_none(vec![Some(1u8), Some(2), None]), None);
    assert_eq!(all_or_none(vec![None::<u8>]), None);
}

#[test]
fn entry_from_a_bare_literal() {
    assert_eq!(
        AttrArg::from_parts(Some(Some(s("/"))), None, None),
        AttrArg::Str(s("/"))
    );
    assert_eq!(AttrArg::from_parts(Some(None), None, None), AttrArg::Other);
    assert_eq!(
        AttrArg::from_parts(
            Some(Some(s("/"))),
            Some(vec![s("p")]),
            Some((Some(s("n")), Some(s("v"))))
        ),
        AttrArg::Str(s("/"))
    );
    assert_eq!(
        AttrArg::from_parts(Some(None), Some(vec![s("p")]), None),
        AttrArg::Other
    );
}

#[test]
fn entry_from_a_path() {
    assert_eq!(
        AttrArg::from_parts(None, Some(vec![s("rocket"), s("Responder")]), None),
        AttrArg::Path(vec![s("rocket"), s("Responder")])
    );
    assert_eq!(
        AttrArg::from_parts(None, Some(vec![]), Some((Some(s("n")), Some(s("v"))))),
        AttrArg::Path(vec![])
    );
}

#[test]
fn entry_from_a_pair() {
    assert_eq!(
        AttrArg::from_parts(None, None, Some((Some(s("rank")), Some(s("2"))))),
        AttrArg::NameValue {
            name: s("rank"),
            value: s("2")
        }
    );
    assert_eq!(
        AttrArg::from_parts(None, None, Some((None, Some(s("2"))))),
        AttrArg::Other
    );
    assert_eq!(
        AttrArg::from_parts(None, None, Some((Some(s("rank")), None))),
        AttrArg::Other
    );
    assert_eq!(
        AttrArg::from_parts(None, None, Some((None, None))),
        AttrArg::Other
    );
    assert_eq!(AttrArg::from_parts(None, None, None), AttrArg::Other);
}

#[test]
fn attribute_from_parts() {
    assert_eq!(RawAttribute::from_parts(None), RawAttribute::Other);
    assert_eq!(
        RawAttribute::from_parts(Some((None, vec![AttrArg::Str(s("/"))]))),
        RawAttribute::Other
    );
    assert_eq!(
        RawAttribute::from_parts(Some((Some(s("get")), vec![AttrArg::Str(s("/")), AttrArg::Other]))),
        RawAttribute::List {
            path: s("get"),
            args: vec![AttrArg::Str(s("/")), AttrArg::Other]
        }
    );
    assert_eq!(
        RawAttribute::from_parts(Some((Some(s("get")), vec![]))),
        RawAttribute::List {
            path: s("get"),
            args: vec![]
        }
    );
}

#[test]
fn parameter_and_output_from_parts() {
    assert_eq!(Param::from_parts(None), Param::Receiver);
    assert_eq!(
        Param::from_parts(Some((s("a"), s("u8")))),
        Param::Bound {
            pat: s("a"),
            ty: s("u8")
        }
    );
    assert_eq!(Output::from_parts(None), Output::Default);
    assert_eq!(Output::from_parts(Some(s("u8"))), Output::Type(s("u8")));
}

#[test]
fn fields_from_parts() {
    assert_eq!(FieldList::from_parts(None, None), Some(FieldList::Unit));
    assert_eq!(
        FieldList::from_parts(None, Some(vec![s("A"), s("B")])),
        Some(FieldList::Unnamed(vec![s("A"), s("B")]))
    );
    assert_eq!(
        FieldList::from_parts(
            Some(vec![Some((s("a"), s("A"))), Some((s("b"), s("B")))]),
            None
        ),
        Some(FieldList::Named(vec![(s("a"), s("A")), (s("b"), s("B"))]))
    );
    assert_eq!(
        FieldList::from_parts(Some(vec![]), Some(vec![s("A")])),
        Some(FieldList::Named(vec![]))
    );
}

#[test]
fn fields_with_a_nameless_braced_field_are_none() {
    assert_eq!(
        FieldList::from_parts(Some(vec![Some((s("a"), s("A"))), None]), None),
        None
    );
    assert_eq!(
        FieldList::from_parts(Some(vec![None]), Some(vec![s("A")])),
        None
    );
}

#[test]
fn declarations_from_parts() {
    assert_eq!(
        StructDecl::from_parts(s("S"), vec![RawAttribute::Other], Some(FieldList::Unit)),
        Some(StructDecl {
            ident: s("S"),
            attrs: vec![RawAttribute::Other],
            fields: FieldList::Unit
        })
    );
    assert_eq!(StructDecl::from_parts(s("S"), vec![], None), None);
    assert_eq!(
        VariantDecl::from_parts(s("V"), vec![], Some(FieldList::Unnamed(vec![s("u8")]))),
        Some(VariantDecl {
            ident: s("V"),
            attrs: vec![],
            fields: FieldList::Unnamed(vec![s("u8")])
        })
    );
    assert_eq!(VariantDecl::from_parts(s("V"), vec![], None), None);
}

#[test]
fn enum_from_parts() {
    assert_eq!(
        EnumDecl::from_parts(
            s("E"),
            vec![RawAttribute::Other],
            vec![Some(variant("A")), Some(variant("B")), Some(variant("C"))]
        ),
        Some(EnumDecl {
            ident: s("E"),
            attrs: vec![RawAttribute::Other],
            variants: vec![variant("A"), variant("B"), variant("C")]
        })
    );
    assert_eq!(
        EnumDecl::from_parts(s("E"), vec![], vec![]),
        Some(EnumDecl {
            ident: s("E"),
            attrs: vec![],
            variants: vec![]
        })
    );
    assert_eq!(
        EnumDecl::from_parts(s("E"), vec![], vec![Some(variant("A")), None]),
        None
    );
}

#[test]
fn enum_with_a_nameless_braced_field_cannot_be_read() {
    let mut enm: syn::ItemEnum = syn::parse_str("enum E { A, B { x: u8 }, C(u8) }").unwrap();
    assert!(EnumDecl::read(&enm).is_some());
    if let syn::Fields::Named(body) = &mut enm.variants[1].fields {
        body.named[0].ident = None;
    }
    assert_eq!(EnumDecl::read(&enm), None);
    assert_eq!(VariantDecl::read(&enm.variants[1]), None);
    assert_eq!(VariantDecl::read(&enm.variants[2]), Some(VariantDecl {
        ident: s("C"),
        attrs: vec![],
        fields: FieldList::Unnamed(vec![s("u8")])
    }));
}
