//! Routes: a function with a route attribute yields a record of its handler
//! signature and of that attribute.

use crate::ast_formatting::{format_ret_type, ret_type_text};
use crate::rocket_attribute::{
    classify, classify_all, first_literal, first_route, is_route_attribute,
    lemma_classify_all_ok, lemma_first_route_at, lemma_method_names_apart, lemma_no_route,
    lemma_route_attribute_classified, Malformed, MalformedView, RocketAttribute,
    RocketAttributeView, RouteAttribute, RouteAttributeView,
};
use crate::syntax::{FnDecl, FnDeclView, Param, ParamView};
use vstd::prelude::*;

verus! {

/// The record of a route.
#[derive(Debug, PartialEq)]
pub struct RocketRoute {
    pub ident: String,
    pub handler: Function,
    pub route: RouteAttribute,
}

/// The signature of a route's handler.
#[derive(Debug, PartialEq)]
pub struct Function {
    /// `(pattern, type)` per parameter, receivers left out.
    pub args: Vec<(String, String)>,
    pub ret: String,
}

/// The view of a [`Function`].
pub struct FunctionView {
    pub args: Seq<(Seq<char>, Seq<char>)>,
    pub ret: Seq<char>,
}

/// The view of a [`RocketRoute`].
pub struct RocketRouteView {
    pub ident: Seq<char>,
    pub handler: FunctionView,
    pub route: RouteAttributeView,
}

impl View for Function {
    type V = FunctionView;

    open spec fn view(&self) -> FunctionView {
        FunctionView { args: self.args.deep_view(), ret: self.ret@ }
    }
}

impl View for RocketRoute {
    type V = RocketRouteView;

    open spec fn view(&self) -> RocketRouteView {
        RocketRouteView { ident: self.ident@, handler: self.handler@, route: self.route@ }
    }
}

impl DeepView for RocketRoute {
    type V = RocketRouteView;

    open spec fn deep_view(&self) -> RocketRouteView {
        self@
    }
}

/// The arguments of a handler: the bound parameters as `(pattern, type)`, in
/// their order; receivers are left out.
pub open spec fn handler_args(params: Seq<ParamView>) -> Seq<(Seq<char>, Seq<char>)>
    decreases params.len(),
{
    if params.len() == 0 {
        Seq::empty()
    } else {
        match params.last() {
            ParamView::Receiver => handler_args(params.drop_last()),
            ParamView::Bound { pat, ty } => handler_args(params.drop_last()).push((pat, ty)),
        }
    }
}

/// The signature of the handler `decl`.
pub open spec fn handler_of(decl: FnDeclView) -> FunctionView {
    FunctionView { args: handler_args(decl.params), ret: ret_type_text(decl.output) }
}

/// The record of the function `decl`: none where it carries no route
/// attribute, or what is malformed about it.
pub open spec fn route_record(decl: FnDeclView) -> Result<Option<RocketRouteView>, MalformedView> {
    match classify_all(decl.attrs) {
        Err(reason) => Err(MalformedView { ident: decl.ident, reason }),
        Ok(attrs) => match first_route(attrs) {
            None => Ok(None),
            Some(route) => Ok(
                Some(RocketRouteView { ident: decl.ident, handler: handler_of(decl), route }),
            ),
        },
    }
}

/// The positions of the bound parameters among `params`, in increasing
/// order.
pub open spec fn bound_positions(params: Seq<ParamView>) -> Seq<int>
    decreases params.len(),
{
    if params.len() == 0 {
        Seq::empty()
    } else {
        match params.last() {
            ParamView::Receiver => bound_positions(params.drop_last()),
            ParamView::Bound { .. } => bound_positions(params.drop_last()).push(params.len() - 1),
        }
    }
}

/// A handler's arguments are the bound parameters, each once and in the
/// order of the declaration: the argument at `i` is the parameter at the
/// `i`-th bound position, and those positions increase.
pub proof fn lemma_handler_args_in_order(params: Seq<ParamView>)
    ensures
        bound_positions(params).len() == handler_args(params).len(),
        forall|i: int|
            0 <= i < handler_args(params).len() ==> {
                let k = #[trigger] bound_positions(params)[i];
                &&& 0 <= k < params.len()
                &&& params[k] == (ParamView::Bound {
                    pat: handler_args(params)[i].0,
                    ty: handler_args(params)[i].1,
                })
            },
        forall|i: int, j: int|
            0 <= i < j < handler_args(params).len() ==> bound_positions(params)[i]
                < bound_positions(params)[j],
        forall|k: int|
            0 <= k < params.len() && (#[trigger] params[k]) is Bound ==> bound_positions(
                params,
            ).contains(k),
    decreases params.len(),
{
    if params.len() > 0 {
        let init = params.drop_last();
        let at = bound_positions(params);
        lemma_handler_args_in_order(init);
        assert forall|i: int| 0 <= i < handler_args(params).len() implies {
            let k = #[trigger] at[i];
            &&& 0 <= k < params.len()
            &&& params[k] == (ParamView::Bound {
                pat: handler_args(params)[i].0,
                ty: handler_args(params)[i].1,
            })
        } by {
            if i < bound_positions(init).len() {
                let k = bound_positions(init)[i];
                assert(at[i] == k);
                assert(init[k] == params[k]);
            }
        }
        assert forall|i: int, j: int| 0 <= i < j < handler_args(params).len() implies at[i]
            < at[j] by {
            let ki = bound_positions(init)[i];
            if j < bound_positions(init).len() {
                let kj = bound_positions(init)[j];
            }
        }
        assert forall|k: int| 0 <= k < params.len() && (#[trigger] params[k]) is Bound implies at.contains(
            k,
        ) by {
            if k < init.len() {
                assert(init[k] == params[k]);
                let i = choose|i: int|
                    0 <= i < bound_positions(init).len() && bound_positions(init)[i] == k;
                assert(at[i] == k);
            } else {
                assert(at[at.len() - 1] == k);
            }
        }
    }
}

/// Where every parameter is bound, the handler's arguments are the
/// parameters, one for one.
pub proof fn lemma_handler_args_all_bound(params: Seq<ParamView>)
    requires
        forall|k: int| 0 <= k < params.len() ==> (#[trigger] params[k]) is Bound,
    ensures
        handler_args(params).len() == params.len(),
        forall|k: int|
            0 <= k < params.len() ==> #[trigger] handler_args(params)[k] == (
                params[k]->pat,
                params[k]->ty,
            ),
    decreases params.len(),
{
    if params.len() > 0 {
        let init = params.drop_last();
        assert forall|k: int| 0 <= k < init.len() implies (#[trigger] init[k]) is Bound by {
            assert(init[k] == params[k]);
        }
        lemma_handler_args_all_bound(init);
        assert(params[params.len() - 1] is Bound);
        assert forall|k: int| 0 <= k < params.len() implies #[trigger] handler_args(params)[k] == (
            params[k]->pat,
            params[k]->ty,
        ) by {
            if k < init.len() {
                assert(init[k] == params[k]);
                assert(handler_args(params)[k] == handler_args(init)[k]);
            }
        }
    }
}

/// A function with exactly one attribute written as a route, which has a
/// string literal among its arguments, and with no malformed attribute
/// yields a route record: named after the function, with the method that the
/// attribute is named after and with its first string literal as the path.
pub proof fn lemma_single_route(decl: FnDeclView, k: int)
    requires
        0 <= k < decl.attrs.len(),
        is_route_attribute(decl.attrs[k]),
        first_literal(decl.attrs[k]->args) is Some,
        forall|j: int|
            0 <= j < decl.attrs.len() && j != k ==> !is_route_attribute(#[trigger] decl.attrs[j]),
        classify_all(decl.attrs) is Ok,
    ensures
        route_record(decl) matches Ok(Some(record)) && record.ident == decl.ident
            && record.handler == handler_of(decl) && record.route.method == decl.attrs[k]->path
            && record.route.path == first_literal(decl.attrs[k]->args)->0,
{
    lemma_route_attribute_classified(decl.attrs[k]);
    lemma_first_route_at(decl.attrs, k);
}

/// A function with no attribute written as a route yields no route record.
/// Where none of its attributes is malformed, it is passed over in silence.
pub proof fn lemma_no_route_attribute(decl: FnDeclView)
    requires
        forall|j: int| 0 <= j < decl.attrs.len() ==> !is_route_attribute(#[trigger] decl.attrs[j]),
    ensures
        !(route_record(decl) matches Ok(Some(_))),
        classify_all(decl.attrs) is Ok ==> route_record(decl) == Ok::<
            Option<RocketRouteView>,
            MalformedView,
        >(None),
{
    if classify_all(decl.attrs) is Ok {
        lemma_no_route(decl.attrs);
    }
}

/// Of several attributes written as routes, the first one counts: where it
/// is well formed and no attribute is malformed, the record holds it,
/// whatever follows.
pub proof fn lemma_first_route_wins(decl: FnDeclView, k: int)
    requires
        0 <= k < decl.attrs.len(),
        is_route_attribute(decl.attrs[k]),
        forall|j: int| 0 <= j < k ==> !is_route_attribute(#[trigger] decl.attrs[j]),
        classify_all(decl.attrs) is Ok,
    ensures
        classify(decl.attrs[k]) matches Ok(Some(RocketAttributeView::Route(route)))
            && route_record(decl) == Ok::<_, MalformedView>(
            Some(RocketRouteView { ident: decl.ident, handler: handler_of(decl), route }),
        ),
{
    lemma_classify_all_ok(decl.attrs);
    lemma_method_names_apart();
    lemma_first_route_at(decl.attrs, k);
}

impl Function {
    /// The handler signature of a function: its bound parameters in order,
    /// and its return type, `()` where none is declared.
    pub fn of(function: &FnDecl) -> (r: Function)
        ensures
            r@ == handler_of(function@),
    {
        let mut args: Vec<(String, String)> = Vec::new();
        let mut i: usize = 0;
        assert(function.params.deep_view().take(0).len() == 0);
        while i < function.params.len()
            invariant
                i <= function.params.len(),
                args.deep_view() == handler_args(function.params.deep_view().take(i as int)),
            decreases function.params.len() - i,
        {
            let ghost prefix = function.params.deep_view().take(i + 1);
            let ghost before = args.deep_view();
            assert(prefix.last() == function.params[i as int]@);
            assert(prefix.drop_last() == function.params.deep_view().take(i as int));
            match &function.params[i] {
                Param::Receiver => {},
                Param::Bound { pat, ty } => {
                    args.push((pat.clone(), ty.clone()));
                    assert(args.deep_view() == before.push((pat@, ty@)));
                },
            }
            i += 1;
        }
        assert(function.params.deep_view().take(i as int) == function.params.deep_view());
        Function { args, ret: format_ret_type(&function.output) }
    }
}

impl RocketRoute {
    /// Extracts the route that a function declares. A function with no route
    /// attribute yields none. Of several route attributes the first counts.
    /// Extraction fails where an attribute is malformed.
    pub fn parse_fn(function: &FnDecl) -> (r: Result<Option<Self>, Malformed>)
        ensures
            match r {
                Ok(Some(record)) => route_record(function@) == Ok::<_, MalformedView>(
                    Some(record@),
                ),
                Ok(None) => route_record(function@) == Ok::<Option<RocketRouteView>, MalformedView>(
                    None,
                ),
                Err(e) => route_record(function@) == Err::<Option<RocketRouteView>, _>(e@),
            },
    {
        match RocketAttribute::from_fn(function) {
            Err(reason) => Err(Malformed { ident: function.ident.clone(), reason }),
            Ok(attrs) => match RocketAttribute::select_route(attrs) {
                None => Ok(None),
                Some(route) => Ok(
                    Some(
                        RocketRoute {
                            ident: function.ident.clone(),
                            handler: Function::of(function),
                            route,
                        },
                    ),
                ),
            },
        }
    }
}

} // verus!
