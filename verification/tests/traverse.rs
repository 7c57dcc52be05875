use rocket_extract::rocket_attribute::{AttributeError, Malformed, ResponseAttribute, RouteAttribute};
use rocket_extract::rocket_enum::{RocketEnum, RocketVariant};
use rocket_extract::rocket_route::{Function, RocketRoute};
use rocket_extract::rocket_struct::RocketStruct;
use rocket_extract::syntax::{EnumDecl, File, FnDecl, Item, Stmt, StructDecl};
use rocket_extract::traverse::{traverse_file, traverse_item, traverse_items, Record};

fn s(text: &str) -> String {
    text.to_string()
}

fn read_item(item: &syn::Item) -> Item {
    match item {
        syn::Item::Fn(function) => Item::Fn {
            decl: FnDecl::read(function),
            body: function
                .block
                .stmts
                .iter()
                .map(|stmt| match stmt {
                    syn::Stmt::Item(item) => Stmt::Item(read_item(item)),
                    _ => Stmt::Other,
                })
                .collect(),
        },
        syn::Item::Mod(module) => Item::Mod {
            content: module
                .content
                .as_ref()
                .map(|(_, items)| items.iter().map(read_item).collect()),
        },
        syn::Item::Struct(strct) => Item::Struct(StructDecl::read(strct).unwrap()),
        syn::Item::Enum(enm) => Item::Enum(EnumDecl::read(enm).unwrap()),
        _ => Item::Other,
    }
}

fn read_file(source: &str) -> File {
    let file: syn::File = syn::parse_str(source).unwrap();
    File {
        items: file.items.iter().map(read_item).collect(),
    }
}

fn route(ident: &str, method: &str, path: &str) -> Record {
    Record::Route(RocketRoute {
        ident: s(ident),
        handler: Function {
            args: vec![],
            ret: s("()"),
        },
        route: RouteAttribute {
            method: s(method),
            path: s(path),
            rank: None,
            format: None,
            data: None,
        },
    })
}

fn plain_struct(ident: &str) -> Record {
    Record::Struct(RocketStruct {
        ident: s(ident),
        fields: vec![],
        response: None,
    })
}

const SERVER: &str = "
    #![feature(proc_macro_hygiene, decl_macro)]
    #[macro_use] extern crate rocket;

    #[get(\"/hello/<name>/<age>\")]
    fn hello(name: String, age: u8) -> String {
        format!(\"Hello, {} year old named {}!\", age, name)
    }

    #[derive(Responder)]
    pub enum LoginResponse {
        #[response(status = 200, content_type = \"text/plain\")]
        Success(i32),
        #[response(status = 401, content_type = \"text/plain\")]
        Failure(String),
    }

    struct LoginData {
        username: String,
        password: String,
    }

    #[post(\"/login\", format=\"application/json\", data = \"<data>\")]
    fn login(user: User, data: LoginData) -> LoginResponse {
        if username == \"a\" && password == \"b\" {
            LoginResponse::Success(user.id)
        } else {
            LoginResponse::Failure(\"Bad login\")
        }
    }

    #[derive(Responder)]
    #[response(status=200)]
    struct LogoutResponse {
        body: String
    }

    #[post(\"/logout\", format=\"text\")]
    fn logout(user: User) -> LogoutResponse {
        LogoutResponse {
            body: \"you're out\".to_string()
        }
    }

    fn main() {
        rocket::ignite().mount(\"/\", routes![hello]).launch();
    }
    ";

fn server_records() -> Vec<Record> {
    vec![
        Record::Route(RocketRoute {
            ident: s("hello"),
            handler: Function {
                args: vec![(s("name"), s("String")), (s("age"), s("u8"))],
                ret: s("String"),
            },
            route: RouteAttribute {
                method: s("get"),
                path: s("/hello/<name>/<age>"),
                rank: None,
                format: None,
                data: None,
            },
        }),
        Record::Enum(RocketEnum {
            ident: s("LoginResponse"),
            variants: vec![
                RocketVariant {
                    ident: s("Success"),
                    response: ResponseAttribute {
                        status: 200,
                        content_type: Some(s("text/plain")),
                    },
                    fields: vec![(s("0"), s("i32"))],
                },
                RocketVariant {
                    ident: s("Failure"),
                    response: ResponseAttribute {
                        status: 401,
                        content_type: Some(s("text/plain")),
                    },
                    fields: vec![(s("0"), s("String"))],
                },
            ],
        }),
        Record::Struct(RocketStruct {
            ident: s("LoginData"),
            fields: vec![(s("username"), s("String")), (s("password"), s("String"))],
            response: None,
        }),
        Record::Route(RocketRoute {
            ident: s("login"),
            handler: Function {
                args: vec![(s("user"), s("User")), (s("data"), s("LoginData"))],
                ret: s("LoginResponse"),
            },
            route: RouteAttribute {
                method: s("post"),
                path: s("/login"),
                rank: None,
                format: Some(s("application/json")),
                data: Some(s("<data>")),
            },
        }),
        Record::Struct(RocketStruct {
            ident: s("LogoutResponse"),
            fields: vec![(s("body"), s("String"))],
            response: Some(ResponseAttribute {
                status: 200,
                content_type: None,
            }),
        }),
        Record::Route(RocketRoute {
            ident: s("logout"),
            handler: Function {
                args: vec![(s("user"), s("User"))],
                ret: s("LogoutResponse"),
            },
            route: RouteAttribute {
                method: s("post"),
                path: s("/logout"),
                rank: None,
                format: Some(s("text")),
                data: None,
            },
        }),
    ]
}

#[test]
fn walks_a_server_file() {
    assert_eq!(traverse_file(&read_file(SERVER)), server_records());
}

#[test]
fn walking_twice_gives_the_same_records() {
    let file = read_file(SERVER);
    let first = traverse_file(&file);
    let second = traverse_file(&file);
    assert_eq!(first, second);
    assert_eq!(traverse_items(&file.items), first);
    assert_eq!(traverse_file(&read_file(SERVER)), first);
}

#[test]
fn empty_file_has_no_records() {
    assert_eq!(traverse_file(&File { items: vec![] }), vec![]);
    assert_eq!(traverse_file(&read_file("")), vec![]);
    assert_eq!(traverse_items(&vec![]), vec![]);
}

#[test]
fn other_declarations_are_ignored() {
    let file = read_file(
        "use std::fmt; const N: u8 = 1; trait T {} impl T for u8 {} type A = u8; static S: u8 = 0;",
    );
    assert_eq!(file.items.len(), 6);
    assert_eq!(traverse_file(&file), vec![]);
    assert_eq!(traverse_item(&Item::Other), vec![]);
}

#[test]
fn function_comes_before_what_its_body_declares() {
    let file = read_file(
        "
        #[get(\"/outer\")]
        fn outer() {
            let x = 1;
            struct Inside;
            #[put(\"/inner\")]
            fn inner() {
                struct Deep;
            }
            x;
        }
        struct After;
        ",
    );
    assert_eq!(
        traverse_file(&file),
        vec![
            route("outer", "get", "/outer"),
            plain_struct("Inside"),
            route("inner", "put", "/inner"),
            plain_struct("Deep"),
            plain_struct("After"),
        ]
    );
}

#[test]
fn function_without_route_still_has_its_body_walked() {
    let file = read_file("fn plain() { struct Local; #[get(\"/\")] fn handler() {} }");
    assert_eq!(
        traverse_file(&file),
        vec![plain_struct("Local"), route("handler", "get", "/")]
    );
}

#[test]
fn inline_module_is_walked_and_outside_module_is_not() {
    let file = read_file(
        "
        mod elsewhere;
        mod here {
            struct A;
            mod deeper {
                #[delete(\"/d\")]
                fn d() {}
            }
            struct B;
        }
        mod empty {}
        struct C;
        ",
    );
    assert_eq!(
        file.items[0],
        Item::Mod { content: None }
    );
    assert_eq!(
        traverse_file(&file),
        vec![
            plain_struct("A"),
            route("d", "delete", "/d"),
            plain_struct("B"),
            plain_struct("C"),
        ]
    );
}

#[test]
fn enum_without_responder_emits_nothing() {
    let file = read_file("enum E { #[response(status = 1)] A } struct S;");
    assert_eq!(traverse_file(&file), vec![plain_struct("S")]);
}

#[test]
fn malformed_declaration_is_reported_and_the_walk_goes_on() {
    let file = read_file(
        "
        struct Before;
        #[get()]
        fn broken() {
            struct Inside;
        }
        #[response()]
        struct Bad;
        #[derive(Responder)]
        enum Worse { #[response(status = \"x\")] A }
        #[get(\"/\")]
        fn fine() {}
        ",
    );
    assert_eq!(
        traverse_file(&file),
        vec![
            plain_struct("Before"),
            Record::Malformed(Malformed {
                ident: s("broken"),
                reason: AttributeError::MissingPath
            }),
            plain_struct("Inside"),
            Record::Malformed(Malformed {
                ident: s("Bad"),
                reason: AttributeError::MissingStatus
            }),
            Record::Malformed(Malformed {
                ident: s("Worse"),
                reason: AttributeError::InvalidStatus
            }),
            route("fine", "get", "/"),
        ]
    );
}

#[test]
fn one_item_with_nested_items() {
    let item = Item::Mod {
        content: Some(vec![
            Item::Other,
            Item::Struct(StructDecl {
                ident: s("S"),
                attrs: vec![],
                fields: rocket_extract::syntax::FieldList::Unit,
            }),
            Item::Mod { content: None },
        ]),
    };
    assert_eq!(traverse_item(&item), vec![plain_struct("S")]);
}

#[test]
fn other_statements_of_a_body_are_skipped() {
    let item = Item::Fn {
        decl: FnDecl {
            ident: s("f"),
            attrs: vec![],
            params: vec![],
            output: rocket_extract::syntax::Output::Default,
        },
        body: vec![
            Stmt::Other,
            Stmt::Item(Item::Struct(StructDecl {
                ident: s("A"),
                attrs: vec![],
                fields: rocket_extract::syntax::FieldList::Unit,
            })),
            Stmt::Other,
            Stmt::Item(Item::Other),
            Stmt::Item(Item::Struct(StructDecl {
                ident: s("B"),
                attrs: vec![],
                fields: rocket_extract::syntax::FieldList::Unit,
            })),
        ],
    };
    assert_eq!(traverse_item(&item), vec![plain_struct("A"), plain_struct("B")]);
    let file = read_file("fn f() { if true { struct Hidden; } struct Seen; }");
    assert_eq!(traverse_file(&file), vec![plain_struct("Seen")]);
}
