//! The attributes that matter to extraction, and how a declaration's raw
//! attributes are classified into them.

use crate::decimal::{i32_of_text, parse_i32, parse_u32, u32_of_text};
use crate::syntax::{
    AttrArg, AttrArgView, EnumDecl, FnDecl, RawAttribute, RawAttributeView, StructDecl,
    VariantDecl,
};
use vstd::prelude::*;

verus! {

/// An attribute that extraction recognizes.
#[derive(Debug, PartialEq)]
pub enum RocketAttribute {
    /// `#[derive(.., Responder, ..)]`.
    DeriveResponder,
    /// `#[response(status = .., content_type = "..")]`.
    Response(ResponseAttribute),
    /// `#[get("..", ..)]` and the like.
    Route(RouteAttribute),
}

/// A route attribute: the method it is named after, its path, and its
/// optional settings.
#[derive(Debug, PartialEq)]
pub struct RouteAttribute {
    pub method: String,
    pub path: String,
    pub rank: Option<i32>,
    pub format: Option<String>,
    pub data: Option<String>,
}

/// A response attribute.
#[derive(Debug, PartialEq)]
pub struct ResponseAttribute {
    pub status: u32,
    pub content_type: Option<String>,
}

/// Why an attribute that extraction recognizes by its path cannot be used.
#[derive(Debug, PartialEq, Eq, Clone, Copy)]
pub enum AttributeError {
    /// A `response` attribute has no `status = ..` entry.
    MissingStatus,
    /// The `status` of a `response` attribute is no unsigned integer.
    InvalidStatus,
    /// A route attribute has no bare string literal to serve as its path.
    MissingPath,
}

/// A declaration with a malformed attribute: its name, and what is wrong.
#[derive(Debug, PartialEq)]
pub struct Malformed {
    pub ident: String,
    pub reason: AttributeError,
}

/// The view of a [`Malformed`].
pub struct MalformedView {
    pub ident: Seq<char>,
    pub reason: AttributeError,
}

impl View for Malformed {
    type V = MalformedView;

    open spec fn view(&self) -> MalformedView {
        MalformedView { ident: self.ident@, reason: self.reason }
    }
}

/// The view of a [`RouteAttribute`].
pub struct RouteAttributeView {
    pub method: Seq<char>,
    pub path: Seq<char>,
    pub rank: Option<i32>,
    pub format: Option<Seq<char>>,
    pub data: Option<Seq<char>>,
}

/// The view of a [`ResponseAttribute`].
pub struct ResponseAttributeView {
    pub status: u32,
    pub content_type: Option<Seq<char>>,
}

/// The view of a [`RocketAttribute`].
pub enum RocketAttributeView {
    DeriveResponder,
    Response(ResponseAttributeView),
    Route(RouteAttributeView),
}

impl View for RouteAttribute {
    type V = RouteAttributeView;

    open spec fn view(&self) -> RouteAttributeView {
        RouteAttributeView {
            method: self.method@,
            path: self.path@,
            rank: self.rank,
            format: self.format.deep_view(),
            data: self.data.deep_view(),
        }
    }
}

impl View for ResponseAttribute {
    type V = ResponseAttributeView;

    open spec fn view(&self) -> ResponseAttributeView {
        ResponseAttributeView { status: self.status, content_type: self.content_type.deep_view() }
    }
}

impl DeepView for RouteAttribute {
    type V = RouteAttributeView;

    open spec fn deep_view(&self) -> RouteAttributeView {
        self@
    }
}

impl DeepView for ResponseAttribute {
    type V = ResponseAttributeView;

    open spec fn deep_view(&self) -> ResponseAttributeView {
        self@
    }
}

impl View for RocketAttribute {
    type V = RocketAttributeView;

    open spec fn view(&self) -> RocketAttributeView {
        match self {
            RocketAttribute::DeriveResponder => RocketAttributeView::DeriveResponder,
            RocketAttribute::Response(response) => RocketAttributeView::Response(response@),
            RocketAttribute::Route(route) => RocketAttributeView::Route(route@),
        }
    }
}

impl DeepView for RocketAttribute {
    type V = RocketAttributeView;

    open spec fn deep_view(&self) -> RocketAttributeView {
        self@
    }
}

/// Whether `name` is one of the seven method names that make a route
/// attribute.
pub open spec fn is_method(name: Seq<char>) -> bool {
    name == "get"@ || name == "post"@ || name == "put"@ || name == "delete"@ || name == "head"@
        || name == "options"@ || name == "patch"@
}

/// Whether `arg` is a path with a segment `Responder`.
pub open spec fn names_responder(arg: AttrArgView) -> bool {
    arg matches AttrArgView::Path(segments) && segments.contains("Responder"@)
}

/// Whether some entry of `args` is a path with a segment `Responder`.
pub open spec fn derives_responder(args: Seq<AttrArgView>) -> bool {
    exists|i: int| 0 <= i < args.len() && names_responder(#[trigger] args[i])
}

/// Whether `arg` is `name = ..`.
pub open spec fn is_named(arg: AttrArgView, name: Seq<char>) -> bool {
    arg matches AttrArgView::NameValue { name: n, .. } && n == name
}

/// The value that `args` gives to `name`: that of the last `name = ..`
/// entry, where there is one.
pub open spec fn value_of(args: Seq<AttrArgView>, name: Seq<char>) -> Option<Seq<char>>
    decreases args.len(),
{
    if args.len() == 0 {
        None
    } else if is_named(args.last(), name) {
        Some(args.last()->value)
    } else {
        value_of(args.drop_last(), name)
    }
}

/// The value of the first bare string literal among `args`, where there is
/// one.
pub open spec fn first_literal(args: Seq<AttrArgView>) -> Option<Seq<char>>
    decreases args.len(),
{
    if args.len() == 0 {
        None
    } else if args[0] is Str {
        Some(args[0]->Str_0)
    } else {
        first_literal(args.drop_first())
    }
}

/// The integer that `args` gives to `name`, where the value reads as one.
pub open spec fn i32_value_of(args: Seq<AttrArgView>, name: Seq<char>) -> Option<i32> {
    match value_of(args, name) {
        Some(text) => i32_of_text(text),
        None => None,
    }
}

/// What a `response` attribute with the arguments `args` says.
pub open spec fn response_of(args: Seq<AttrArgView>) -> Result<
    ResponseAttributeView,
    AttributeError,
> {
    match value_of(args, "status"@) {
        None => Err(AttributeError::MissingStatus),
        Some(text) => match u32_of_text(text) {
            None => Err(AttributeError::InvalidStatus),
            Some(status) => Ok(
                ResponseAttributeView { status, content_type: value_of(args, "content_type"@) },
            ),
        },
    }
}

/// What a route attribute named `method` with the arguments `args` says.
pub open spec fn route_of(method: Seq<char>, args: Seq<AttrArgView>) -> Result<
    RouteAttributeView,
    AttributeError,
> {
    match first_literal(args) {
        None => Err(AttributeError::MissingPath),
        Some(path) => Ok(
            RouteAttributeView {
                method,
                path,
                rank: i32_value_of(args, "rank"@),
                format: value_of(args, "format"@),
                data: value_of(args, "data"@),
            },
        ),
    }
}

/// The classification of one raw attribute: the attribute it stands for,
/// none where extraction ignores it, or the reason it is malformed.
pub open spec fn classify(attr: RawAttributeView) -> Result<
    Option<RocketAttributeView>,
    AttributeError,
> {
    match attr {
        RawAttributeView::Other => Ok(None),
        RawAttributeView::List { path, args } => {
            if path == "derive"@ && derives_responder(args) {
                Ok(Some(RocketAttributeView::DeriveResponder))
            } else if path == "response"@ {
                match response_of(args) {
                    Ok(response) => Ok(Some(RocketAttributeView::Response(response))),
                    Err(e) => Err(e),
                }
            } else if is_method(path) {
                match route_of(path, args) {
                    Ok(route) => Ok(Some(RocketAttributeView::Route(route))),
                    Err(e) => Err(e),
                }
            } else {
                Ok(None)
            }
        },
    }
}

/// The classification of a declaration's attributes: the recognized ones in
/// their order, or the error of the first malformed one.
pub open spec fn classify_all(attrs: Seq<RawAttributeView>) -> Result<
    Seq<RocketAttributeView>,
    AttributeError,
>
    decreases attrs.len(),
{
    if attrs.len() == 0 {
        Ok(Seq::empty())
    } else {
        match classify_all(attrs.drop_last()) {
            Err(e) => Err(e),
            Ok(found) => match classify(attrs.last()) {
                Err(e) => Err(e),
                Ok(None) => Ok(found),
                Ok(Some(attr)) => Ok(found.push(attr)),
            },
        }
    }
}

/// The views of a classification's outcome.
pub open spec fn classified_view(r: Result<Vec<RocketAttribute>, AttributeError>) -> Result<
    Seq<RocketAttributeView>,
    AttributeError,
> {
    match r {
        Ok(found) => Ok(found.deep_view()),
        Err(e) => Err(e),
    }
}

/// The first route attribute among `attrs`, where there is one.
pub open spec fn first_route(attrs: Seq<RocketAttributeView>) -> Option<RouteAttributeView>
    decreases attrs.len(),
{
    if attrs.len() == 0 {
        None
    } else if attrs[0] is Route {
        Some(attrs[0]->Route_0)
    } else {
        first_route(attrs.drop_first())
    }
}

/// The first response attribute among `attrs`, where there is one.
pub open spec fn first_response(attrs: Seq<RocketAttributeView>) -> Option<ResponseAttributeView>
    decreases attrs.len(),
{
    if attrs.len() == 0 {
        None
    } else if attrs[0] is Response {
        Some(attrs[0]->Response_0)
    } else {
        first_response(attrs.drop_first())
    }
}

/// Whether `attrs` holds the marker that `derive(Responder)` leaves.
pub open spec fn has_marker(attrs: Seq<RocketAttributeView>) -> bool {
    attrs.contains(RocketAttributeView::DeriveResponder)
}

fn method_name(name: &String) -> (r: bool)
    ensures
        r == is_method(name@),
{
    *name == "get".to_owned() || *name == "post".to_owned() || *name == "put".to_owned() || *name
        == "delete".to_owned() || *name == "head".to_owned() || *name == "options".to_owned()
        || *name == "patch".to_owned()
}

fn path_names_responder(segments: &Vec<String>) -> (r: bool)
    ensures
        r == segments.deep_view().contains("Responder"@),
{
    let responder = "Responder".to_owned();
    let mut i: usize = 0;
    while i < segments.len()
        invariant
            i <= segments.len(),
            responder@ == "Responder"@,
            forall|j: int| 0 <= j < i ==> segments.deep_view()[j] != "Responder"@,
        decreases segments.len() - i,
    {
        if segments[i] == responder {
            assert(segments.deep_view()[i as int] == "Responder"@);
            return true;
        }
        i += 1;
    }
    false
}

fn args_derive_responder(args: &Vec<AttrArg>) -> (r: bool)
    ensures
        r == derives_responder(args.deep_view()),
{
    let mut i: usize = 0;
    while i < args.len()
        invariant
            i <= args.len(),
            forall|j: int| 0 <= j < i ==> !names_responder(#[trigger] args.deep_view()[j]),
        decreases args.len() - i,
    {
        if let AttrArg::Path(segments) = &args[i] {
            if path_names_responder(segments) {
                assert(names_responder(args.deep_view()[i as int]));
                return true;
            }
        }
        i += 1;
    }
    false
}

fn find_value<'a>(args: &'a Vec<AttrArg>, name: &str) -> (r: Option<&'a String>)
    ensures
        r.deep_view() == value_of(args.deep_view(), name@),
{
    let key = name.to_owned();
    let mut i: usize = args.len();
    assert(args.deep_view().take(i as int) == args.deep_view());
    while i > 0
        invariant
            i <= args.len(),
            key@ == name@,
            value_of(args.deep_view(), name@) == value_of(args.deep_view().take(i as int), name@),
        decreases i,
    {
        i -= 1;
        let ghost prefix = args.deep_view().take(i + 1);
        assert(prefix.last() == args.deep_view()[i as int]);
        assert(prefix.drop_last() == args.deep_view().take(i as int));
        if let AttrArg::NameValue { name: n, value } = &args[i] {
            if *n == key {
                return Some(value);
            }
        }
    }
    None
}

fn find_literal<'a>(args: &'a Vec<AttrArg>) -> (r: Option<&'a String>)
    ensures
        r.deep_view() == first_literal(args.deep_view()),
{
    let mut i: usize = 0;
    assert(args.deep_view().skip(0) == args.deep_view());
    while i < args.len()
        invariant
            i <= args.len(),
            first_literal(args.deep_view()) == first_literal(
                args.deep_view().skip(i as int),
            ),
        decreases args.len() - i,
    {
        let ghost rest = args.deep_view().skip(i as int);
        assert(rest[0] == args.deep_view()[i as int]);
        assert(rest.drop_first() == args.deep_view().skip(i + 1));
        if let AttrArg::Str(value) = &args[i] {
            return Some(value);
        }
        i += 1;
    }
    None
}

fn cloned(text: Option<&String>) -> (r: Option<String>)
    ensures
        r.deep_view() == text.deep_view(),
{
    match text {
        Some(s) => Some(s.clone()),
        None => None,
    }
}

impl ResponseAttribute {
    /// Reads the arguments of a `response` attribute: the status from
    /// `status = ..`, which must be there and be an unsigned integer, and the
    /// content type from `content_type = ..`, which may be absent. Bare
    /// literals are not looked at.
    pub fn from_args(args: &Vec<AttrArg>) -> (r: Result<ResponseAttribute, AttributeError>)
        ensures
            match r {
                Ok(response) => response_of(args.deep_view()) == Ok::<_, AttributeError>(response@),
                Err(e) => response_of(args.deep_view()) == Err::<ResponseAttributeView, _>(e),
            },
    {
        match find_value(args, "status") {
            None => Err(AttributeError::MissingStatus),
            Some(text) => match parse_u32(text.as_str()) {
                None => Err(AttributeError::InvalidStatus),
                Some(status) => Ok(
                    ResponseAttribute {
                        status,
                        content_type: cloned(find_value(args, "content_type")),
                    },
                ),
            },
        }
    }
}

impl RouteAttribute {
    /// Reads the arguments of the route attribute named `method`: the path
    /// from the first bare string literal, which must be there, and `rank`,
    /// `format` and `data` from the entries of those names. A `rank` that is
    /// no integer counts as absent.
    pub fn from_args(method: &String, args: &Vec<AttrArg>) -> (r: Result<
        RouteAttribute,
        AttributeError,
    >)
        ensures
            match r {
                Ok(route) => route_of(method@, args.deep_view()) == Ok::<_, AttributeError>(route@),
                Err(e) => route_of(method@, args.deep_view()) == Err::<RouteAttributeView, _>(e),
            },
    {
        match find_literal(args) {
            None => Err(AttributeError::MissingPath),
            Some(path) => {
                let rank = match find_value(args, "rank") {
                    Some(text) => parse_i32(text.as_str()),
                    None => None,
                };
                Ok(
                    RouteAttribute {
                        method: method.clone(),
                        path: path.clone(),
                        rank,
                        format: cloned(find_value(args, "format")),
                        data: cloned(find_value(args, "data")),
                    },
                )
            },
        }
    }
}

impl RocketAttribute {
    /// Classifies one raw attribute: `derive` with `Responder` among its
    /// arguments, `response`, or one of the seven method names; any other
    /// attribute is ignored.
    pub fn from_attribute(attr: &RawAttribute) -> (r: Result<Option<Self>, AttributeError>)
        ensures
            match r {
                Ok(Some(found)) => classify(attr@) == Ok::<_, AttributeError>(Some(found@)),
                Ok(None) => classify(attr@) == Ok::<Option<RocketAttributeView>, AttributeError>(
                    None,
                ),
                Err(e) => classify(attr@) == Err::<Option<RocketAttributeView>, _>(e),
            },
    {
        match attr {
            RawAttribute::Other => Ok(None),
            RawAttribute::List { path, args } => {
                if *path == "derive".to_owned() && args_derive_responder(args) {
                    Ok(Some(RocketAttribute::DeriveResponder))
                } else if *path == "response".to_owned() {
                    match ResponseAttribute::from_args(args) {
                        Ok(response) => Ok(Some(RocketAttribute::Response(response))),
                        Err(e) => Err(e),
                    }
                } else if method_name(path) {
                    match RouteAttribute::from_args(path, args) {
                        Ok(route) => Ok(Some(RocketAttribute::Route(route))),
                        Err(e) => Err(e),
                    }
                } else {
                    Ok(None)
                }
            },
        }
    }

    /// The first route attribute of `attrs`; later ones are dropped.
    pub fn select_route(attrs: Vec<Self>) -> (r: Option<RouteAttribute>)
        ensures
            r.deep_view() == first_route(attrs.deep_view()),
    {
        let ghost all = attrs.deep_view();
        let mut attrs = attrs;
        let mut first: Option<RouteAttribute> = None;
        assert(all.skip(all.len() as int).len() == 0);
        while attrs.len() > 0
            invariant
                attrs.len() <= all.len(),
                attrs.deep_view() == all.take(attrs.len() as int),
                first.deep_view() == first_route(all.skip(attrs.len() as int)),
            decreases attrs.len(),
        {
            let ghost n = attrs.len() as int;
            let ghost before = attrs.deep_view();
            let attr = attrs.pop().unwrap();
            assert(attr@ == before[n - 1]);
            assert(attrs.deep_view() == all.take(n - 1));
            assert(all.skip(n - 1)[0] == all[n - 1]);
            assert(all.skip(n - 1).drop_first() == all.skip(n));
            if let RocketAttribute::Route(route) = attr {
                first = Some(route);
            }
        }
        assert(all.skip(0) == all);
        first
    }

    /// The first response attribute of `attrs`; later ones are dropped.
    pub fn select_response(attrs: Vec<Self>) -> (r: Option<ResponseAttribute>)
        ensures
            r.deep_view() == first_response(attrs.deep_view()),
    {
        let ghost all = attrs.deep_view();
        let mut attrs = attrs;
        let mut first: Option<ResponseAttribute> = None;
        assert(all.skip(all.len() as int).len() == 0);
        while attrs.len() > 0
            invariant
                attrs.len() <= all.len(),
                attrs.deep_view() == all.take(attrs.len() as int),
                first.deep_view() == first_response(all.skip(attrs.len() as int)),
            decreases attrs.len(),
        {
            let ghost n = attrs.len() as int;
            let ghost before = attrs.deep_view();
            let attr = attrs.pop().unwrap();
            assert(attr@ == before[n - 1]);
            assert(attrs.deep_view() == all.take(n - 1));
            assert(all.skip(n - 1)[0] == all[n - 1]);
            assert(all.skip(n - 1).drop_first() == all.skip(n));
            if let RocketAttribute::Response(response) = attr {
                first = Some(response);
            }
        }
        assert(all.skip(0) == all);
        first
    }

    /// Whether `attrs` holds the marker that `derive(Responder)` leaves.
    pub fn any_marker(attrs: &Vec<Self>) -> (r: bool)
        ensures
            r == has_marker(attrs.deep_view()),
    {
        let mut i: usize = 0;
        while i < attrs.len()
            invariant
                i <= attrs.len(),
                forall|j: int| 0 <= j < i ==> !(#[trigger] attrs.deep_view()[j] is DeriveResponder),
            decreases attrs.len() - i,
        {
            if let RocketAttribute::DeriveResponder = &attrs[i] {
                assert(attrs.deep_view()[i as int] == RocketAttributeView::DeriveResponder);
                return true;
            }
            i += 1;
        }
        false
    }

    /// Classifies the attributes of one declaration: the recognized ones in
    /// their order, the others dropped. Fails with the error of the first
    /// malformed attribute.
    pub fn from_attributes(attrs: &Vec<RawAttribute>) -> (r: Result<Vec<Self>, AttributeError>)
        ensures
            classified_view(r) == classify_all(attrs.deep_view()),
    {
        let mut found: Vec<RocketAttribute> = Vec::new();
        let mut i: usize = 0;
        assert(attrs.deep_view().take(0).len() == 0);
        assert(found.deep_view() == Seq::<RocketAttributeView>::empty());
        while i < attrs.len()
            invariant
                i <= attrs.len(),
                classify_all(attrs.deep_view().take(i as int)) == Ok::<_, AttributeError>(
                    found.deep_view(),
                ),
            decreases attrs.len() - i,
        {
            let ghost prefix = attrs.deep_view().take(i + 1);
            let ghost before = found.deep_view();
            assert(prefix.last() == attrs[i as int]@);
            assert(prefix.drop_last() == attrs.deep_view().take(i as int));
            match RocketAttribute::from_attribute(&attrs[i]) {
                Err(e) => {
                    proof {
                        lemma_classify_all_error(attrs.deep_view(), i + 1);
                    }
                    return Err(e);
                },
                Ok(None) => {},
                Ok(Some(attr)) => {
                    found.push(attr);
                    assert(found.deep_view() == before.push(attr@));
                },
            }
            i += 1;
        }
        assert(attrs.deep_view().take(i as int) == attrs.deep_view());
        Ok(found)
    }

    /// Classifies the attributes of a struct.
    pub fn from_struct(strct: &StructDecl) -> (r: Result<Vec<Self>, AttributeError>)
        ensures
            classified_view(r) == classify_all(strct@.attrs),
    {
        Self::from_attributes(&strct.attrs)
    }

    /// Classifies the attributes of a function.
    pub fn from_fn(function: &FnDecl) -> (r: Result<Vec<Self>, AttributeError>)
        ensures
            classified_view(r) == classify_all(function@.attrs),
    {
        Self::from_attributes(&function.attrs)
    }

    /// Classifies the attributes of an enum; those of its variants are not
    /// looked at.
    pub fn from_enum(enm: &EnumDecl) -> (r: Result<Vec<Self>, AttributeError>)
        ensures
            classified_view(r) == classify_all(enm@.attrs),
    {
        Self::from_attributes(&enm.attrs)
    }

    /// Classifies the attributes of an enum variant.
    pub fn from_variant(var: &VariantDecl) -> (r: Result<Vec<Self>, AttributeError>)
        ensures
            classified_view(r) == classify_all(var@.attrs),
    {
        Self::from_attributes(&var.attrs)
    }
}

/// Whether `attr` is written as a route: a list under one of the seven method
/// names.
pub open spec fn is_route_attribute(attr: RawAttributeView) -> bool {
    attr matches RawAttributeView::List { path, .. } && is_method(path)
}

/// Whether `attr` is written as a response: a list under the path
/// `response`.
pub open spec fn is_response_attribute(attr: RawAttributeView) -> bool {
    attr matches RawAttributeView::List { path, .. } && path == "response"@
}

/// Whether `attr` is a `derive` list that names `Responder`.
pub open spec fn is_responder_derive(attr: RawAttributeView) -> bool {
    attr matches RawAttributeView::List { path, args } && path == "derive"@ && derives_responder(
        args,
    )
}

/// `derive` and `response` are no method names.
pub proof fn lemma_method_names_apart()
    ensures
        !is_method("derive"@),
        !is_method("response"@),
{
    reveal_strlit("derive");
    reveal_strlit("response");
    reveal_strlit("get");
    reveal_strlit("post");
    reveal_strlit("put");
    reveal_strlit("delete");
    reveal_strlit("head");
    reveal_strlit("options");
    reveal_strlit("patch");
    assert("derive"@.len() == 6 && "response"@.len() == 8);
    assert("get"@.len() == 3 && "post"@.len() == 4 && "put"@.len() == 3);
    assert("head"@.len() == 4 && "options"@.len() == 7 && "patch"@.len() == 5);
    assert("derive"@[2] == 'r' && "delete"@[2] == 'l');
}

/// An attribute written as a route, with a string literal among its
/// arguments, is classified as that route: named after its path, with the
/// first such literal as the route's path.
pub proof fn lemma_route_attribute_classified(attr: RawAttributeView)
    requires
        is_route_attribute(attr),
        first_literal(attr->args) is Some,
    ensures
        classify(attr) matches Ok(Some(RocketAttributeView::Route(route))) && route.method
            == attr->path && route.path == first_literal(attr->args)->0,
{
    lemma_method_names_apart();
}

/// With `attr` appended, the first route is the one there was before, or
/// else `attr` where it is a route.
pub proof fn lemma_first_route_push(attrs: Seq<RocketAttributeView>, attr: RocketAttributeView)
    ensures
        first_route(attrs.push(attr)) == if first_route(attrs) is Some {
            first_route(attrs)
        } else if attr is Route {
            Some(attr->Route_0)
        } else {
            None
        },
    decreases attrs.len(),
{
    let longer = attrs.push(attr);
    if attrs.len() == 0 {
        assert(longer.drop_first().len() == 0);
        assert(first_route(longer.drop_first()) is None);
        assert(longer[0] == attr);
    } else {
        assert(longer[0] == attrs[0]);
        assert(longer.drop_first() == attrs.drop_first().push(attr));
        lemma_first_route_push(attrs.drop_first(), attr);
    }
}

/// Attributes of which none is written as a route classify to a list without
/// a route.
pub proof fn lemma_no_route(attrs: Seq<RawAttributeView>)
    requires
        classify_all(attrs) is Ok,
        forall|j: int| 0 <= j < attrs.len() ==> !is_route_attribute(#[trigger] attrs[j]),
    ensures
        first_route(classify_all(attrs)->Ok_0) is None,
    decreases attrs.len(),
{
    if attrs.len() > 0 {
        let init = attrs.drop_last();
        assert forall|j: int| 0 <= j < init.len() implies !is_route_attribute(
            #[trigger] init[j],
        ) by {
            assert(init[j] == attrs[j]);
        }
        lemma_no_route(init);
        assert(!is_route_attribute(attrs[attrs.len() - 1]));
        if let Ok(Some(found)) = classify(attrs.last()) {
            lemma_first_route_push(classify_all(init)->Ok_0, found);
        }
    }
}

/// Where the attribute at `k` classifies as a route and none before it is
/// written as a route, that route is the first of the classification.
pub proof fn lemma_first_route_at(attrs: Seq<RawAttributeView>, k: int)
    requires
        0 <= k < attrs.len(),
        classify_all(attrs) is Ok,
        classify(attrs[k]) matches Ok(Some(RocketAttributeView::Route(_))),
        forall|j: int| 0 <= j < k ==> !is_route_attribute(#[trigger] attrs[j]),
    ensures
        first_route(classify_all(attrs)->Ok_0) == Some(classify(attrs[k])->Ok_0->0->Route_0),
    decreases attrs.len(),
{
    let init = attrs.drop_last();
    let before = classify_all(init)->Ok_0;
    if k == attrs.len() - 1 {
        assert forall|j: int| 0 <= j < init.len() implies !is_route_attribute(
            #[trigger] init[j],
        ) by {
            assert(init[j] == attrs[j]);
        }
        lemma_no_route(init);
        lemma_first_route_push(before, classify(attrs[k])->Ok_0->0);
    } else {
        assert(init[k] == attrs[k]);
        assert forall|j: int| 0 <= j < k implies !is_route_attribute(#[trigger] init[j]) by {
            assert(init[j] == attrs[j]);
        }
        lemma_first_route_at(init, k);
        if let Ok(Some(found)) = classify(attrs.last()) {
            lemma_first_route_push(before, found);
        }
    }
}

/// With `attr` appended, the first response is the one there was before, or
/// else `attr` where it is a response.
pub proof fn lemma_first_response_push(attrs: Seq<RocketAttributeView>, attr: RocketAttributeView)
    ensures
        first_response(attrs.push(attr)) == if first_response(attrs) is Some {
            first_response(attrs)
        } else if attr is Response {
            Some(attr->Response_0)
        } else {
            None
        },
    decreases attrs.len(),
{
    let longer = attrs.push(attr);
    if attrs.len() == 0 {
        assert(longer.drop_first().len() == 0);
        assert(first_response(longer.drop_first()) is None);
        assert(longer[0] == attr);
    } else {
        assert(longer[0] == attrs[0]);
        assert(longer.drop_first() == attrs.drop_first().push(attr));
        lemma_first_response_push(attrs.drop_first(), attr);
    }
}

/// Attributes of which none is written as a response classify to a list
/// without a response.
pub proof fn lemma_no_response(attrs: Seq<RawAttributeView>)
    requires
        classify_all(attrs) is Ok,
        forall|j: int| 0 <= j < attrs.len() ==> !is_response_attribute(#[trigger] attrs[j]),
    ensures
        first_response(classify_all(attrs)->Ok_0) is None,
    decreases attrs.len(),
{
    if attrs.len() > 0 {
        let init = attrs.drop_last();
        assert forall|j: int| 0 <= j < init.len() implies !is_response_attribute(
            #[trigger] init[j],
        ) by {
            assert(init[j] == attrs[j]);
        }
        lemma_no_response(init);
        assert(!is_response_attribute(attrs[attrs.len() - 1]));
        if let Ok(Some(found)) = classify(attrs.last()) {
            lemma_first_response_push(classify_all(init)->Ok_0, found);
        }
    }
}

/// Attributes of which none is a `derive` list that names `Responder`
/// classify to a list without the marker.
pub proof fn lemma_no_marker(attrs: Seq<RawAttributeView>)
    requires
        classify_all(attrs) is Ok,
        forall|j: int| 0 <= j < attrs.len() ==> !is_responder_derive(#[trigger] attrs[j]),
    ensures
        !has_marker(classify_all(attrs)->Ok_0),
    decreases attrs.len(),
{
    if attrs.len() > 0 {
        let init = attrs.drop_last();
        assert forall|j: int| 0 <= j < init.len() implies !is_responder_derive(
            #[trigger] init[j],
        ) by {
            assert(init[j] == attrs[j]);
        }
        lemma_no_marker(init);
        assert(!is_responder_derive(attrs[attrs.len() - 1]));
        lemma_method_names_apart();
        reveal_strlit("derive");
        reveal_strlit("response");
        assert("derive"@.len() == 6 && "response"@.len() == 8);
        let before = classify_all(init)->Ok_0;
        let found = classify_all(attrs)->Ok_0;
        assert forall|i: int| 0 <= i < found.len() implies found[i]
            != RocketAttributeView::DeriveResponder by {
            if i < before.len() {
                assert(found[i] == before[i]);
                assert(before.contains(before[i]));
            }
        }
    }
}

/// Classification succeeds where every attribute is well formed, and only
/// there.
pub proof fn lemma_classify_all_ok(attrs: Seq<RawAttributeView>)
    ensures
        classify_all(attrs) is Ok <==> forall|j: int|
            0 <= j < attrs.len() ==> classify(#[trigger] attrs[j]) is Ok,
    decreases attrs.len(),
{
    if attrs.len() > 0 {
        let init = attrs.drop_last();
        lemma_classify_all_ok(init);
        if classify_all(attrs) is Ok {
            assert forall|j: int| 0 <= j < attrs.len() implies classify(
                #[trigger] attrs[j],
            ) is Ok by {
                if j < init.len() {
                    assert(init[j] == attrs[j]);
                }
            }
        }
        if forall|j: int| 0 <= j < attrs.len() ==> classify(#[trigger] attrs[j]) is Ok {
            assert forall|j: int| 0 <= j < init.len() implies classify(#[trigger] init[j]) is Ok by {
                assert(init[j] == attrs[j]);
            }
            assert(classify(attrs[attrs.len() - 1]) is Ok);
        }
    }
}

/// Classification fails with the error of the first malformed attribute.
pub proof fn lemma_first_malformed(attrs: Seq<RawAttributeView>, k: int)
    requires
        0 <= k < attrs.len(),
        classify(attrs[k]) is Err,
        forall|j: int| 0 <= j < k ==> classify(#[trigger] attrs[j]) is Ok,
    ensures
        classify_all(attrs) == Err::<Seq<RocketAttributeView>, _>(classify(attrs[k])->Err_0),
{
    let upto = attrs.take(k + 1);
    assert(upto.drop_last() == attrs.take(k));
    assert(upto.last() == attrs[k]);
    assert forall|j: int| 0 <= j < k implies classify(#[trigger] attrs.take(k)[j]) is Ok by {
        assert(attrs.take(k)[j] == attrs[j]);
    }
    lemma_classify_all_ok(attrs.take(k));
    lemma_classify_all_error(attrs, k + 1);
}

/// An error in a prefix of the attributes is the error of the whole list.
pub proof fn lemma_classify_all_error(attrs: Seq<RawAttributeView>, n: int)
    requires
        0 <= n <= attrs.len(),
        classify_all(attrs.take(n)) is Err,
    ensures
        classify_all(attrs) == classify_all(attrs.take(n)),
    decreases attrs.len() - n,
{
    if n < attrs.len() {
        assert(attrs.take(n + 1).drop_last() == attrs.take(n));
        lemma_classify_all_error(attrs, n + 1);
    } else {
        assert(attrs.take(n) == attrs);
    }
}

} // verus!
