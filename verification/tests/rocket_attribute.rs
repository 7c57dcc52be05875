use rocket_extract::rocket_attribute::{
    AttributeError, ResponseAttribute, RocketAttribute, RouteAttribute,
};
use rocket_extract::syntax::{AttrArg, EnumDecl, FnDecl, RawAttribute, StructDecl, VariantDecl};

fn s(text: &str) -> String {
    text.to_string()
}

fn list(path: &str, args: Vec<AttrArg>) -> RawAttribute {
    RawAttribute::List {
        path: s(path),
        args,
    }
}

fn pair(name: &str, value: &str) -> AttrArg {
    AttrArg::NameValue {
        name: s(name),
        value: s(value),
    }
}

fn route(method: &str, path: &str) -> RouteAttribute {
    RouteAttribute {
        method: s(method),
        path: s(path),
        rank: None,
        format: None,
        data: None,
    }
}

fn read_fn_attrs(source: &str) -> Vec<RawAttribute> {
    FnDecl::read(&syn::parse_str(source).unwrap()).attrs
}

#[test]
fn test() {
    let x = RocketAttribute::from_fn(&FnDecl::read(
        &syn::parse_str(
            "
                #[post(\"my/path\", data = \"<something>\")]
                fn x() {}
                ",
        )
        .unwrap(),
    ))
    .unwrap();

    assert_eq!(
        x,
        vec![RocketAttribute::Route(RouteAttribute {
            method: "post".to_string(),
            path: "my/path".to_string(),
            rank: None,
            format: None,
            data: Some("<something>".to_string())
        })],
        "Parses attributes on a function correctly"
    )
}

#[test]
fn rocket_attribute_test_1() {
    let x = RocketAttribute::from_struct(
        &StructDecl::read(
            &syn::parse_str(
                "
                #[derive(Responder)]
                #[response(status =400, content_type = \"application/json\")]
                struct MyResponse {
                    body: String,
                    head1: Option<CustomType>,
                }
                ",
            )
            .unwrap(),
        )
        .unwrap(),
    )
    .unwrap();

    assert_eq!(
        x,
        vec![
            RocketAttribute::DeriveResponder,
            RocketAttribute::Response(ResponseAttribute {
                status: 400,
                content_type: Some("application/json".to_string())
            })
        ],
        "Parses attributes on a struct properly"
    )
}

#[test]
fn reads_attribute_shapes() {
    let attrs = read_fn_attrs(
        "
        #[private]
        #[doc = \"text\"]
        #[rocket::get(\"/\")]
        #[derive(Debug, rocket::Responder)]
        #[get(\"/a\", \"/b\", 5, rank = 2, format = \"json\", other(x), a::b = 1, flag = true)]
        fn f() {}
        ",
    );
    assert_eq!(
        attrs,
        vec![
            RawAttribute::Other,
            RawAttribute::Other,
            RawAttribute::Other,
            list(
                "derive",
                vec![
                    AttrArg::Path(vec![s("Debug")]),
                    AttrArg::Path(vec![s("rocket"), s("Responder")])
                ]
            ),
            list(
                "get",
                vec![
                    AttrArg::Str(s("/a")),
                    AttrArg::Str(s("/b")),
                    AttrArg::Other,
                    pair("rank", "2"),
                    pair("format", "json"),
                    AttrArg::Other,
                    AttrArg::Other,
                    AttrArg::Other,
                ]
            ),
        ]
    );
}

#[test]
fn reads_integer_literals_by_their_digits() {
    let attrs = read_fn_attrs("#[response(status = 404u16, rank = -3, n = 0x1F)] fn f() {}");
    assert_eq!(
        attrs,
        vec![list(
            "response",
            vec![pair("status", "404"), pair("rank", "-3"), pair("n", "31")]
        )]
    );
}

#[test]
fn attribute_that_is_no_meta_is_other() {
    let attrs = read_fn_attrs("#[get(\"/\" extra)] #[cfg(a < b)] fn f() {}");
    assert_eq!(attrs, vec![RawAttribute::Other, RawAttribute::Other]);
    assert_eq!(RocketAttribute::from_attributes(&attrs), Ok(vec![]));
}

#[test]
fn classify_derive_responder() {
    let attr = list(
        "derive",
        vec![
            AttrArg::Path(vec![s("Debug")]),
            AttrArg::Path(vec![s("Responder")]),
        ],
    );
    assert_eq!(
        RocketAttribute::from_attribute(&attr),
        Ok(Some(RocketAttribute::DeriveResponder))
    );
    let qualified = list("derive", vec![AttrArg::Path(vec![s("rocket"), s("Responder")])]);
    assert_eq!(
        RocketAttribute::from_attribute(&qualified),
        Ok(Some(RocketAttribute::DeriveResponder))
    );
}

#[test]
fn classify_derive_without_responder_is_ignored() {
    let attr = list(
        "derive",
        vec![
            AttrArg::Path(vec![s("Debug")]),
            AttrArg::Str(s("Responder")),
            pair("Responder", "Responder"),
            AttrArg::Path(vec![]),
        ],
    );
    assert_eq!(RocketAttribute::from_attribute(&attr), Ok(None));
    assert_eq!(RocketAttribute::from_attribute(&list("derive", vec![])), Ok(None));
}

#[test]
fn classify_responder_under_another_path_is_ignored() {
    let attr = list("derives", vec![AttrArg::Path(vec![s("Responder")])]);
    assert_eq!(RocketAttribute::from_attribute(&attr), Ok(None));
}

#[test]
fn classify_other_attribute_is_ignored() {
    assert_eq!(RocketAttribute::from_attribute(&RawAttribute::Other), Ok(None));
    assert_eq!(
        RocketAttribute::from_attribute(&list("not_rocket", vec![AttrArg::Str(s("/x"))])),
        Ok(None)
    );
    assert_eq!(
        RocketAttribute::from_attribute(&list("GET", vec![AttrArg::Str(s("/x"))])),
        Ok(None)
    );
    assert_eq!(RocketAttribute::from_attribute(&list("", vec![])), Ok(None));
}

#[test]
fn classify_each_method() {
    for method in ["get", "put", "post", "delete", "head", "options", "patch"] {
        assert_eq!(
            RocketAttribute::from_attribute(&list(method, vec![AttrArg::Str(s("/p"))])),
            Ok(Some(RocketAttribute::Route(route(method, "/p"))))
        );
    }
}

#[test]
fn classify_response() {
    let attr = list(
        "response",
        vec![pair("status", "201"), pair("content_type", "text/plain")],
    );
    assert_eq!(
        RocketAttribute::from_attribute(&attr),
        Ok(Some(RocketAttribute::Response(ResponseAttribute {
            status: 201,
            content_type: Some(s("text/plain"))
        })))
    );
}

#[test]
fn response_content_type_may_be_absent() {
    assert_eq!(
        ResponseAttribute::from_args(&vec![pair("status", "404")]),
        Ok(ResponseAttribute {
            status: 404,
            content_type: None
        })
    );
}

#[test]
fn response_ignores_bare_literals() {
    let args = vec![AttrArg::Str(s("200")), AttrArg::Str(s("status"))];
    assert_eq!(
        ResponseAttribute::from_args(&args),
        Err(AttributeError::MissingStatus)
    );
    let args = vec![AttrArg::Str(s("text")), pair("status", "200")];
    assert_eq!(
        ResponseAttribute::from_args(&args),
        Ok(ResponseAttribute {
            status: 200,
            content_type: None
        })
    );
}

#[test]
fn response_without_status_is_malformed() {
    assert_eq!(
        ResponseAttribute::from_args(&vec![]),
        Err(AttributeError::MissingStatus)
    );
    assert_eq!(
        ResponseAttribute::from_args(&vec![pair("content_type", "json")]),
        Err(AttributeError::MissingStatus)
    );
    assert_eq!(
        RocketAttribute::from_attribute(&list("response", vec![])),
        Err(AttributeError::MissingStatus)
    );
}

#[test]
fn response_status_must_be_an_unsigned_integer() {
    for text in ["", "abc", "-1", "+", "4 0 0", " 400", "400 ", "40_0", "0x10", "1.5", "4294967296"] {
        assert_eq!(
            ResponseAttribute::from_args(&vec![pair("status", text)]),
            Err(AttributeError::InvalidStatus),
            "status {:?}",
            text
        );
    }
}

#[test]
fn response_status_values() {
    for (text, status) in [
        ("0", 0u32),
        ("7", 7),
        ("007", 7),
        ("+200", 200),
        ("400", 400),
        ("4294967295", u32::MAX),
    ] {
        assert_eq!(
            ResponseAttribute::from_args(&vec![pair("status", text)]),
            Ok(ResponseAttribute {
                status,
                content_type: None
            })
        );
    }
}

#[test]
fn last_entry_of_a_name_counts() {
    let args = vec![
        pair("status", "200"),
        pair("content_type", "a"),
        pair("status", "500"),
        pair("content_type", "b"),
    ];
    assert_eq!(
        ResponseAttribute::from_args(&args),
        Ok(ResponseAttribute {
            status: 500,
            content_type: Some(s("b"))
        })
    );
    let args = vec![pair("status", "200"), pair("status", "oops")];
    assert_eq!(
        ResponseAttribute::from_args(&args),
        Err(AttributeError::InvalidStatus)
    );
}

#[test]
fn route_takes_first_string_literal_as_path() {
    let args = vec![
        pair("rank", "1"),
        AttrArg::Other,
        AttrArg::Str(s("/first")),
        AttrArg::Str(s("/second")),
    ];
    assert_eq!(
        RouteAttribute::from_args(&s("get"), &args),
        Ok(RouteAttribute {
            method: s("get"),
            path: s("/first"),
            rank: Some(1),
            format: None,
            data: None
        })
    );
}

#[test]
fn route_without_path_is_malformed() {
    assert_eq!(
        RouteAttribute::from_args(&s("get"), &vec![]),
        Err(AttributeError::MissingPath)
    );
    assert_eq!(
        RouteAttribute::from_args(&s("put"), &vec![pair("path", "/x"), AttrArg::Other]),
        Err(AttributeError::MissingPath)
    );
    assert_eq!(
        RocketAttribute::from_attribute(&list("patch", vec![pair("rank", "1")])),
        Err(AttributeError::MissingPath)
    );
}

#[test]
fn route_settings() {
    let args = vec![
        AttrArg::Str(s("/login")),
        pair("format", "application/json"),
        pair("data", "<data>"),
        pair("rank", "-2"),
    ];
    assert_eq!(
        RouteAttribute::from_args(&s("post"), &args),
        Ok(RouteAttribute {
            method: s("post"),
            path: s("/login"),
            rank: Some(-2),
            format: Some(s("application/json")),
            data: Some(s("<data>"))
        })
    );
}

#[test]
fn route_rank_values() {
    for (text, rank) in [
        ("0", Some(0i32)),
        ("12", Some(12)),
        ("+12", Some(12)),
        ("-12", Some(-12)),
        ("-0", Some(0)),
        ("0012", Some(12)),
        ("2147483647", Some(i32::MAX)),
        ("-2147483648", Some(i32::MIN)),
        ("2147483648", None),
        ("-2147483649", None),
        ("", None),
        ("-", None),
        ("+", None),
        ("+-1", None),
        ("1-", None),
        ("one", None),
        ("1.0", None),
        (" 1", None),
    ] {
        let args = vec![AttrArg::Str(s("/")), pair("rank", text)];
        assert_eq!(
            RouteAttribute::from_args(&s("get"), &args).unwrap().rank,
            rank,
            "rank {:?}",
            text
        );
    }
}

#[test]
fn classification_keeps_order_and_drops_the_rest() {
    let attrs = vec![
        list("get", vec![AttrArg::Str(s("/a"))]),
        RawAttribute::Other,
        list("derive", vec![AttrArg::Path(vec![s("Responder")])]),
        list("allow", vec![AttrArg::Path(vec![s("unused")])]),
        list("response", vec![pair("status", "200")]),
        list("post", vec![AttrArg::Str(s("/b"))]),
    ];
    assert_eq!(
        RocketAttribute::from_attributes(&attrs),
        Ok(vec![
            RocketAttribute::Route(route("get", "/a")),
            RocketAttribute::DeriveResponder,
            RocketAttribute::Response(ResponseAttribute {
                status: 200,
                content_type: None
            }),
            RocketAttribute::Route(route("post", "/b")),
        ])
    );
    assert_eq!(RocketAttribute::from_attributes(&vec![]), Ok(vec![]));
}

#[test]
fn classification_reports_the_first_malformed_attribute() {
    let attrs = vec![
        list("get", vec![AttrArg::Str(s("/a"))]),
        list("response", vec![pair("status", "x")]),
        list("get", vec![]),
        list("response", vec![]),
    ];
    assert_eq!(
        RocketAttribute::from_attributes(&attrs),
        Err(AttributeError::InvalidStatus)
    );
}

#[test]
fn select_first_route_and_response() {
    let attrs = || {
        vec![
            RocketAttribute::DeriveResponder,
            RocketAttribute::Response(ResponseAttribute {
                status: 1,
                content_type: None,
            }),
            RocketAttribute::Route(route("get", "/1")),
            RocketAttribute::Route(route("put", "/2")),
            RocketAttribute::Response(ResponseAttribute {
                status: 2,
                content_type: None,
            }),
        ]
    };
    assert_eq!(RocketAttribute::select_route(attrs()), Some(route("get", "/1")));
    assert_eq!(
        RocketAttribute::select_response(attrs()),
        Some(ResponseAttribute {
            status: 1,
            content_type: None
        })
    );
    assert!(RocketAttribute::any_marker(&attrs()));
    assert_eq!(RocketAttribute::select_route(vec![]), None);
    assert_eq!(RocketAttribute::select_response(vec![]), None);
    assert!(!RocketAttribute::any_marker(&vec![]));
    assert!(!RocketAttribute::any_marker(&vec![RocketAttribute::Route(route(
        "get", "/"
    ))]));
}

#[test]
fn attributes_of_each_kind_of_declaration() {
    let function = FnDecl::read(&syn::parse_str("#[get(\"/\")] fn f() {}").unwrap());
    assert_eq!(
        RocketAttribute::from_fn(&function),
        Ok(vec![RocketAttribute::Route(route("get", "/"))])
    );
    let enm = EnumDecl::read(
        &syn::parse_str("#[derive(Responder)] enum E { #[response(status = 1)] A }").unwrap(),
    )
    .unwrap();
    assert_eq!(
        RocketAttribute::from_enum(&enm),
        Ok(vec![RocketAttribute::DeriveResponder])
    );
    assert_eq!(
        RocketAttribute::from_variant(&enm.variants[0]),
        Ok(vec![RocketAttribute::Response(ResponseAttribute {
            status: 1,
            content_type: None
        })])
    );
    let variant: VariantDecl =
        VariantDecl::read(&syn::parse_str("#[response(status = \"oops\")] A").unwrap()).unwrap();
    assert_eq!(
        RocketAttribute::from_variant(&variant),
        Err(AttributeError::InvalidStatus)
    );
}
