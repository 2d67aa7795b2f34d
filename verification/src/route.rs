use vstd::prelude::*;

use crate::body::Body;
use crate::http::{STATUS_METHOD_NOT_ALLOWED, STATUS_NOT_FOUND};
use crate::request::{ReqView, Request};
use crate::response::{plain_view, Response, RespView};

verus! {

/// What a route ultimately calls once its middleware has run: an
/// application handler, named by the number the application registered it
/// under, or one of the router's two built-in answers.
#[derive(Clone, Copy, Debug, PartialEq, Eq, Structural)]
pub enum ServiceKind {
    /// A deferred application handler; the dispatcher hands the number and
    /// the request to the caller-supplied invoke function.
    CallHandler { handler: u64 },
    /// The built-in catch-all answer for unmatched paths.
    NotFound,
    /// The built-in answer for a matched path whose table has no slot for
    /// the request's method.
    NotAllowed,
}

/// One middleware interceptor. An interceptor rewrites the request on its
/// way in and the response on its way out; `Around(a, b)` is the single
/// interceptor that runs `a` around `b`.
pub enum Layer {
    /// Append a header to the request before the inner callable sees it.
    RequestHeader { name: String, value: String },
    /// Append a header to the response the inner callable produced.
    ResponseHeader { name: String, value: String },
    /// Replace the status of the response the inner callable produced.
    StatusOverride { status: u16 },
    /// Run the first interceptor around the second.
    Around(Box<Layer>, Box<Layer>),
}

/// Ghost form of `Layer`.
pub enum LayerView {
    RequestHeader { name: Seq<char>, value: Seq<char> },
    ResponseHeader { name: Seq<char>, value: Seq<char> },
    StatusOverride { status: u16 },
    Around(Box<LayerView>, Box<LayerView>),
}

impl View for Layer {
    type V = LayerView;

    open spec fn view(&self) -> LayerView
        decreases self,
    {
        match self {
            Layer::RequestHeader { name, value } => LayerView::RequestHeader {
                name: name@,
                value: value@,
            },
            Layer::ResponseHeader { name, value } => LayerView::ResponseHeader {
                name: name@,
                value: value@,
            },
            Layer::StatusOverride { status } => LayerView::StatusOverride { status: *status },
            Layer::Around(outer, inner) => LayerView::Around(
                Box::new((**outer)@),
                Box::new((**inner)@),
            ),
        }
    }
}

impl Clone for Layer {
    fn clone(&self) -> (other: Layer)
        ensures
            other@ == self@,
        decreases self,
    {
        match self {
            Layer::RequestHeader { name, value } => Layer::RequestHeader {
                name: name.clone(),
                value: value.clone(),
            },
            Layer::ResponseHeader { name, value } => Layer::ResponseHeader {
                name: name.clone(),
                value: value.clone(),
            },
            Layer::StatusOverride { status } => Layer::StatusOverride { status: *status },
            Layer::Around(outer, inner) => Layer::Around(
                Box::new((**outer).clone()),
                Box::new((**inner).clone()),
            ),
        }
    }
}

/// The view of a list of interceptors, outermost first.
pub open spec fn layers_view(layers: Seq<Layer>) -> Seq<LayerView> {
    layers.map_values(|l: Layer| l@)
}

/// How an interceptor rewrites the request on its way in.
pub open spec fn layer_req(layer: LayerView, req: ReqView) -> ReqView
    decreases layer,
{
    match layer {
        LayerView::RequestHeader { name, value } => ReqView {
            parts: crate::request::PartsView {
                headers: req.parts.headers.push((name, value)),
                ..req.parts
            },
            ..req
        },
        LayerView::ResponseHeader { .. } => req,
        LayerView::StatusOverride { .. } => req,
        LayerView::Around(outer, inner) => layer_req(*inner, layer_req(*outer, req)),
    }
}

/// How an interceptor rewrites the response on its way out.
pub open spec fn layer_resp(layer: LayerView, resp: RespView) -> RespView
    decreases layer,
{
    match layer {
        LayerView::RequestHeader { .. } => resp,
        LayerView::ResponseHeader { name, value } => RespView {
            headers: resp.headers.push((name, value)),
            ..resp
        },
        LayerView::StatusOverride { status } => RespView { status, ..resp },
        LayerView::Around(outer, inner) => layer_resp(*outer, layer_resp(*inner, resp)),
    }
}

/// The request the innermost callable sees: each interceptor rewrites it in
/// turn, outermost first.
pub open spec fn pre_chain(layers: Seq<LayerView>, req: ReqView) -> ReqView
    decreases layers.len(),
{
    if layers.len() == 0 {
        req
    } else {
        pre_chain(layers.drop_first(), layer_req(layers[0], req))
    }
}

/// The response after every interceptor rewrote it on the way out, innermost
/// first.
pub open spec fn post_chain(layers: Seq<LayerView>, resp: RespView) -> RespView
    decreases layers.len(),
{
    if layers.len() == 0 {
        resp
    } else {
        layer_resp(layers[0], post_chain(layers.drop_first(), resp))
    }
}

/// An interceptor appended to the chain acts innermost: the request reaches
/// it last.
pub proof fn lemma_pre_chain_push(layers: Seq<LayerView>, layer: LayerView, req: ReqView)
    ensures
        pre_chain(layers.push(layer), req) == layer_req(layer, pre_chain(layers, req)),
    decreases layers.len(),
{
    if layers.len() == 0 {
        assert(layers.push(layer)[0] == layer);
        assert(layers.push(layer).drop_first() =~= Seq::<LayerView>::empty());
        assert(pre_chain(Seq::<LayerView>::empty(), layer_req(layer, req)) == layer_req(
            layer,
            req,
        ));
    } else {
        assert(layers.push(layer)[0] == layers[0]);
        assert(layers.push(layer).drop_first() =~= layers.drop_first().push(layer));
        lemma_pre_chain_push(layers.drop_first(), layer, layer_req(layers[0], req));
    }
}

/// An interceptor appended to the chain rewrites the response first.
pub proof fn lemma_post_chain_push(layers: Seq<LayerView>, layer: LayerView, resp: RespView)
    ensures
        post_chain(layers.push(layer), resp) == post_chain(layers, layer_resp(layer, resp)),
    decreases layers.len(),
{
    if layers.len() == 0 {
        assert(layers.push(layer)[0] == layer);
        assert(layers.push(layer).drop_first() =~= Seq::<LayerView>::empty());
        assert(post_chain(Seq::<LayerView>::empty(), resp) == resp);
        assert(post_chain(Seq::<LayerView>::empty(), layer_resp(layer, resp)) == layer_resp(
            layer,
            resp,
        ));
    } else {
        assert(layers.push(layer)[0] == layers[0]);
        assert(layers.push(layer).drop_first() =~= layers.drop_first().push(layer));
        lemma_post_chain_push(layers.drop_first(), layer, resp);
    }
}

/// A type-erased unit of dispatch: what to call, wrapped in interceptors,
/// outermost first.
pub struct Route {
    pub kind: ServiceKind,
    pub layers: Vec<Layer>,
}

/// Ghost form of `Route`.
#[verifier::ext_equal]
pub struct RouteView {
    pub kind: ServiceKind,
    pub layers: Seq<LayerView>,
}

impl View for Route {
    type V = RouteView;

    open spec fn view(&self) -> RouteView {
        RouteView { kind: self.kind, layers: layers_view(self.layers@) }
    }
}

impl Route {
    /// Wrap a callable as a route with no interceptors yet.
    pub fn new(kind: ServiceKind) -> (route: Route)
        ensures
            route@ == (RouteView { kind, layers: Seq::<LayerView>::empty() }),
    {
        let route = Route { kind, layers: Vec::new() };
        proof {
            assert(route@.layers =~= Seq::<LayerView>::empty());
        }
        route
    }

    /// Wrap the route in one more interceptor. The new interceptor joins the
    /// chain innermost: interceptors installed earlier stay outside it.
    pub fn layer(self, layer: Layer) -> (route: Route)
        ensures
            route@ == (RouteView { kind: self@.kind, layers: self@.layers.push(layer@) }),
    {
        let mut layers = self.layers;
        let ghost before = layers_view(layers@);
        layers.push(layer);
        proof {
            assert(layers_view(layers@) =~= before.push(layer@));
        }
        Route { kind: self.kind, layers }
    }
}

impl Route {
    /// Answer one request with this route: the single-shot call. `invoke`
    /// runs the deferred handler if this route names one.
    pub fn call<F: FnOnce(u64, Request) -> Response>(self, req: Request, invoke: F) -> (resp:
        Response)
        requires
            forall|handler: u64, handed: Request| call_requires(invoke, (handler, handed)),
        ensures
            plan_allows(invoke, route_plan(self@, false, req@), resp@),
    {
        run_route(self.kind, &self.layers, false, req, invoke)
    }
}

impl Clone for Route {
    fn clone(&self) -> (other: Route)
        ensures
            other@ == self@,
    {
        let other = Route { kind: self.kind, layers: clone_layers(&self.layers) };
        proof {
            assert(other@ =~= self@);
        }
        other
    }
}

/// A handler not yet turned into a route, together with the interceptors
/// already asked of it; they are replayed, in order, when state arrives and
/// the handler becomes a route.
pub struct BoxedIntoRoute {
    pub handler: u64,
    pub layers: Vec<Layer>,
}

/// Ghost form of `BoxedIntoRoute`.
#[verifier::ext_equal]
pub struct BoxedIntoRouteView {
    pub handler: u64,
    pub layers: Seq<LayerView>,
}

impl View for BoxedIntoRoute {
    type V = BoxedIntoRouteView;

    open spec fn view(&self) -> BoxedIntoRouteView {
        BoxedIntoRouteView { handler: self.handler, layers: layers_view(self.layers@) }
    }
}

/// The route a deferred handler becomes once state is bound.
pub open spec fn deferred_route(deferred: BoxedIntoRouteView) -> RouteView {
    RouteView {
        kind: ServiceKind::CallHandler { handler: deferred.handler },
        layers: deferred.layers,
    }
}

impl BoxedIntoRoute {
    /// Defer a handler, to become a route at state-binding time.
    pub fn from_handler(handler: u64) -> (deferred: BoxedIntoRoute)
        ensures
            deferred@ == (BoxedIntoRouteView {
                handler,
                layers: Seq::<LayerView>::empty(),
            }),
    {
        let deferred = BoxedIntoRoute { handler, layers: Vec::new() };
        proof {
            assert(deferred@.layers =~= Seq::<LayerView>::empty());
        }
        deferred
    }

    /// Store one more interceptor to replay at state-binding time.
    pub fn map(self, layer: Layer) -> (deferred: BoxedIntoRoute)
        ensures
            deferred@ == (BoxedIntoRouteView {
                handler: self@.handler,
                layers: self@.layers.push(layer@),
            }),
    {
        let mut layers = self.layers;
        let ghost before = layers_view(layers@);
        layers.push(layer);
        proof {
            assert(layers_view(layers@) =~= before.push(layer@));
        }
        BoxedIntoRoute { handler: self.handler, layers }
    }

    /// Turn the deferred handler into a concrete route, replaying the stored
    /// interceptors in the order they were asked.
    pub fn into_route(self) -> (route: Route)
        ensures
            route@ == deferred_route(self@),
    {
        Route { kind: ServiceKind::CallHandler { handler: self.handler }, layers: self.layers }
    }
}

impl Clone for BoxedIntoRoute {
    fn clone(&self) -> (other: BoxedIntoRoute)
        ensures
            other@ == self@,
    {
        let other = BoxedIntoRoute { handler: self.handler, layers: clone_layers(&self.layers) };
        proof {
            assert(other@ =~= self@);
        }
        other
    }
}

/// Copy a list of interceptors, preserving its view.
pub fn clone_layers(layers: &Vec<Layer>) -> (other: Vec<Layer>)
    ensures
        layers_view(other@) == layers_view(layers@),
{
    let mut out: Vec<Layer> = Vec::new();
    let mut i: usize = 0;
    while i < layers.len()
        invariant
            0 <= i <= layers.len(),
            out@.len() == i,
            layers_view(out@) == layers_view(layers@).take(i as int),
        decreases layers.len() - i,
    {
        let copied = layers[i].clone();
        proof {
            assert(copied@ == layers_view(layers@)[i as int]);
        }
        out.push(copied);
        proof {
            assert(layers_view(out@) =~= layers_view(layers@).take(i + 1));
        }
        i = i + 1;
    }
    proof {
        assert(layers_view(layers@).take(layers@.len() as int) =~= layers_view(layers@));
    }
    out
}

/// A response with its body discarded, as a method table answers a HEAD
/// request through a GET handler: status and headers stand, the body is
/// dropped.
pub open spec fn strip_view(strip: bool, resp: RespView) -> RespView {
    if strip {
        RespView { body: Seq::empty(), ..resp }
    } else {
        resp
    }
}

/// A dispatch that still owes a handler call: which handler, the request it
/// must receive, and what happens to whatever it answers.
pub struct PendingCall {
    pub handler: u64,
    pub request: ReqView,
    pub layers: Seq<LayerView>,
    pub strip_body: bool,
}

/// What running a route on a request comes to: either a finished response,
/// or one owed handler call.
pub enum RoutePlan {
    Done { resp: RespView },
    Call(PendingCall),
}

/// The plan of running `route` on `req`: the interceptors rewrite the
/// request outermost first; a built-in callable finishes at once, a handler
/// callable is owed.
pub open spec fn route_plan(route: RouteView, strip_body: bool, req: ReqView) -> RoutePlan {
    let inner_req = pre_chain(route.layers, req);
    match route.kind {
        ServiceKind::CallHandler { handler } => RoutePlan::Call(
            PendingCall { handler, request: inner_req, layers: route.layers, strip_body },
        ),
        ServiceKind::NotFound => RoutePlan::Done {
            resp: strip_view(
                strip_body,
                post_chain(route.layers, plain_view(STATUS_NOT_FOUND, Seq::empty())),
            ),
        },
        ServiceKind::NotAllowed => RoutePlan::Done {
            resp: strip_view(
                strip_body,
                post_chain(route.layers, plain_view(STATUS_METHOD_NOT_ALLOWED, Seq::empty())),
            ),
        },
    }
}

/// The response owed once the pending handler answered `hresp`: the
/// interceptors rewrite it innermost first, then the body is discarded if
/// the dispatch serves a HEAD request through a GET handler.
pub open spec fn finish_call(pending: PendingCall, hresp: RespView) -> RespView {
    strip_view(pending.strip_body, post_chain(pending.layers, hresp))
}

/// That `resp` is a response that running the plan with the handler-invoking
/// function `invoke` can produce.
pub open spec fn plan_allows<F: FnOnce(u64, Request) -> Response>(
    invoke: F,
    plan: RoutePlan,
    resp: RespView,
) -> bool {
    match plan {
        RoutePlan::Done { resp: done } => resp == done,
        RoutePlan::Call(pending) => exists|handed: Request, answered: Response|
            handed@ == pending.request && #[trigger] call_ensures(
                invoke,
                (pending.handler, handed),
                answered,
            ) && resp == finish_call(pending, answered@),
    }
}

/// Run a route: rewrite the request through the interceptors, call the
/// handler through `invoke` (or answer the built-in response), rewrite the
/// answer back out, and discard the body if `strip_body` asks for it.
pub fn run_route<F: FnOnce(u64, Request) -> Response>(
    kind: ServiceKind,
    layers: &Vec<Layer>,
    strip_body: bool,
    req: Request,
    invoke: F,
) -> (resp: Response)
    requires
        forall|handler: u64, handed: Request| call_requires(invoke, (handler, handed)),
    ensures
        plan_allows(
            invoke,
            route_plan(
                RouteView { kind, layers: layers_view(layers@) },
                strip_body,
                req@,
            ),
            resp@,
        ),
{
    let ghost lv = layers_view(layers@);
    let ghost req0 = req@;
    proof {
        assert(lv.skip(0) =~= lv);
    }
    let mut current = req;
    let mut i: usize = 0;
    while i < layers.len()
        invariant
            lv == layers_view(layers@),
            req0 == req@,
            0 <= i <= layers.len(),
            lv.len() == layers@.len(),
            pre_chain(lv, req0) == pre_chain(lv.skip(i as int), current@),
        decreases layers.len() - i,
    {
        proof {
            assert(lv.skip(i as int)[0] == lv[i as int]);
            assert(lv.skip(i as int).drop_first() =~= lv.skip(i + 1));
        }
        current = apply_layer_req(&layers[i], current);
        i = i + 1;
    }
    proof {
        assert(lv.skip(lv.len() as int) =~= Seq::<LayerView>::empty());
    }
    let mut resp = match kind {
        ServiceKind::CallHandler { handler } => invoke(handler, current),
        ServiceKind::NotFound => {
            let built_in = STATUS_NOT_FOUND;
            let mut r = Response::empty();
            r.status = built_in;
            proof {
                assert(r@ =~= plain_view(STATUS_NOT_FOUND, Seq::<Seq<u8>>::empty()));
            }
            r
        },
        ServiceKind::NotAllowed => {
            let built_in = STATUS_METHOD_NOT_ALLOWED;
            let mut r = Response::empty();
            r.status = built_in;
            proof {
                assert(r@ =~= plain_view(STATUS_METHOD_NOT_ALLOWED, Seq::<Seq<u8>>::empty()));
            }
            r
        },
    };
    let ghost base = resp@;
    let mut j: usize = layers.len();
    while j > 0
        invariant
            lv == layers_view(layers@),
            lv.len() == layers@.len(),
            0 <= j <= layers.len(),
            resp@ == post_chain(lv.skip(j as int), base),
        decreases j,
    {
        j = j - 1;
        proof {
            assert(lv.skip(j as int)[0] == lv[j as int]);
            assert(lv.skip(j as int).drop_first() =~= lv.skip(j + 1));
        }
        resp = apply_layer_resp(&layers[j], resp);
    }
    proof {
        assert(lv.skip(0) =~= lv);
    }
    if strip_body {
        resp.body = Body::empty();
        proof {
            assert(resp@ =~= strip_view(true, post_chain(lv, base)));
        }
    }
    resp
}

/// Rewrite a request through one interceptor on its way in.
pub fn apply_layer_req(layer: &Layer, req: Request) -> (out: Request)
    ensures
        out@ == layer_req(layer@, req@),
    decreases layer,
{
    match layer {
        Layer::RequestHeader { name, value } => {
            let ghost before = req@;
            let mut out = req;
            out.parts.headers.push((name.clone(), value.clone()));
            proof {
                assert(out@.parts.headers =~= layer_req(layer@, before).parts.headers);
                assert(out@ =~= layer_req(layer@, before));
            }
            out
        },
        Layer::ResponseHeader { .. } => req,
        Layer::StatusOverride { .. } => req,
        Layer::Around(outer, inner) => {
            let passed = apply_layer_req(&**outer, req);
            apply_layer_req(&**inner, passed)
        },
    }
}

/// Rewrite a response through one interceptor on its way out.
pub fn apply_layer_resp(layer: &Layer, resp: Response) -> (out: Response)
    ensures
        out@ == layer_resp(layer@, resp@),
    decreases layer,
{
    match layer {
        Layer::RequestHeader { .. } => resp,
        Layer::ResponseHeader { name, value } => {
            let ghost before = resp@;
            let mut out = resp;
            out.headers.push((name.clone(), value.clone()));
            proof {
                assert(out@.headers =~= layer_resp(layer@, before).headers);
                assert(out@ =~= layer_resp(layer@, before));
            }
            out
        },
        Layer::StatusOverride { status } => {
            let mut resp = resp;
            resp.status = *status;
            resp
        },
        Layer::Around(outer, inner) => {
            let passed = apply_layer_resp(&**inner, resp);
            apply_layer_resp(&**outer, passed)
        },
    }
}


/// The response source used when no route can answer: the router's built-in
/// default, an explicit service, or a deferred handler awaiting state.
pub enum Fallback {
    /// The built-in answer nobody chose; it yields to any explicit fallback.
    Default(Route),
    /// An explicit route.
    Service(Route),
    /// An explicit handler not yet bound to state.
    BoxedHandler(BoxedIntoRoute),
}

/// Ghost form of `Fallback`.
pub enum FallbackView {
    Default(RouteView),
    Service(RouteView),
    BoxedHandler(BoxedIntoRouteView),
}

impl View for Fallback {
    type V = FallbackView;

    open spec fn view(&self) -> FallbackView {
        match self {
            Fallback::Default(route) => FallbackView::Default(route@),
            Fallback::Service(route) => FallbackView::Service(route@),
            Fallback::BoxedHandler(deferred) => FallbackView::BoxedHandler(deferred@),
        }
    }
}

impl Clone for Fallback {
    fn clone(&self) -> (other: Fallback)
        ensures
            other@ == self@,
    {
        match self {
            Fallback::Default(route) => Fallback::Default(route.clone()),
            Fallback::Service(route) => Fallback::Service(route.clone()),
            Fallback::BoxedHandler(deferred) => Fallback::BoxedHandler(deferred.clone()),
        }
    }
}

/// The route a fallback answers with.
pub open spec fn fallback_route(fallback: FallbackView) -> RouteView {
    match fallback {
        FallbackView::Default(route) => route,
        FallbackView::Service(route) => route,
        FallbackView::BoxedHandler(deferred) => deferred_route(deferred),
    }
}

impl Fallback {
    /// Merge two fallbacks: the built-in default yields to the other side;
    /// two explicit fallbacks cannot be combined and yield `None`.
    pub fn merge(self, other: Fallback) -> (merged: Option<Fallback>)
        ensures
            self@ is Default ==> (merged matches Some(f) && f@ == other@),
            !(self@ is Default) && other@ is Default ==> (merged matches Some(f) && f@ == self@),
            !(self@ is Default) && !(other@ is Default) ==> merged is None,
    {
        match (self, other) {
            (Fallback::Default(_), pick) => Some(pick),
            (pick, Fallback::Default(_)) => Some(pick),
            _ => None,
        }
    }

    /// Map the fallback's underlying route through one more interceptor; on
    /// a deferred handler the interceptor is stored for replay at
    /// state-binding time.
    pub fn map(self, layer: Layer) -> (layered: Fallback)
        ensures
            layered@ == fallback_layer_spec(self@, layer@),
    {
        match self {
            Fallback::Default(route) => Fallback::Default(route.layer(layer)),
            Fallback::Service(route) => Fallback::Service(route.layer(layer)),
            Fallback::BoxedHandler(deferred) => Fallback::BoxedHandler(deferred.map(layer)),
        }
    }

    /// Bind state: a deferred handler becomes a concrete explicit route;
    /// anything already a route stands.
    pub fn with_state(self) -> (bound: Fallback)
        ensures
            bound@ == fallback_bind_spec(self@),
    {
        match self {
            Fallback::Default(route) => Fallback::Default(route),
            Fallback::Service(route) => Fallback::Service(route),
            Fallback::BoxedHandler(deferred) => Fallback::Service(deferred.into_route()),
        }
    }
}

impl Fallback {
    /// One response from this fallback: run its route, calling any deferred
    /// handler through `invoke`.
    pub fn call_with_state<F: FnOnce(u64, Request) -> Response>(
        self,
        req: Request,
        invoke: F,
    ) -> (resp: Response)
        requires
            forall|handler: u64, handed: Request| call_requires(invoke, (handler, handed)),
        ensures
            plan_allows(invoke, route_plan(fallback_route(self@), false, req@), resp@),
    {
        match self {
            Fallback::Default(route) => route.call(req, invoke),
            Fallback::Service(route) => route.call(req, invoke),
            Fallback::BoxedHandler(deferred) => run_route(
                ServiceKind::CallHandler { handler: deferred.handler },
                &deferred.layers,
                false,
                req,
                invoke,
            ),
        }
    }
}

/// A fallback with one more interceptor around its route.
pub open spec fn fallback_layer_spec(fallback: FallbackView, layer: LayerView) -> FallbackView {
    match fallback {
        FallbackView::Default(route) => FallbackView::Default(
            RouteView { kind: route.kind, layers: route.layers.push(layer) },
        ),
        FallbackView::Service(route) => FallbackView::Service(
            RouteView { kind: route.kind, layers: route.layers.push(layer) },
        ),
        FallbackView::BoxedHandler(deferred) => FallbackView::BoxedHandler(
            BoxedIntoRouteView { handler: deferred.handler, layers: deferred.layers.push(layer) },
        ),
    }
}

/// A fallback after state binding: deferred handlers resolved, the rest as
/// it was.
pub open spec fn fallback_bind_spec(fallback: FallbackView) -> FallbackView {
    match fallback {
        FallbackView::Default(route) => FallbackView::Default(route),
        FallbackView::Service(route) => FallbackView::Service(route),
        FallbackView::BoxedHandler(deferred) => FallbackView::Service(deferred_route(deferred)),
    }
}

proof fn lemma_pre_around(layers: Seq<LayerView>, a: LayerView, b: LayerView, req: ReqView)
    ensures
        pre_chain(layers.push(a).push(b), req) == pre_chain(
            layers.push(LayerView::Around(Box::new(a), Box::new(b))),
            req,
        ),
{
    let c = LayerView::Around(Box::new(a), Box::new(b));
    lemma_pre_chain_push(layers.push(a), b, req);
    lemma_pre_chain_push(layers, a, req);
    lemma_pre_chain_push(layers, c, req);
}

proof fn lemma_post_around(layers: Seq<LayerView>, a: LayerView, b: LayerView, resp: RespView)
    ensures
        post_chain(layers.push(a).push(b), resp) == post_chain(
            layers.push(LayerView::Around(Box::new(a), Box::new(b))),
            resp,
        ),
{
    let c = LayerView::Around(Box::new(a), Box::new(b));
    lemma_post_chain_push(layers.push(a), b, resp);
    lemma_post_chain_push(layers, a, layer_resp(b, resp));
    lemma_post_chain_push(layers, c, resp);
}

/// Layering composes associatively: wrapping a route first in `a` and then
/// in `b` is observably the same as wrapping it once in the single
/// interceptor that runs `a` around `b`. Either way the handler is the same
/// and sees the same request, and any response it could give — `hresp`
/// stands for every one — leaves the chain identical; a route that finishes
/// without a handler finishes with the identical response.
pub proof fn lemma_layer_around(
    route: RouteView,
    a: LayerView,
    b: LayerView,
    strip_body: bool,
    req: ReqView,
    hresp: RespView,
)
    ensures
        ({
            let twice = RouteView { kind: route.kind, layers: route.layers.push(a).push(b) };
            let once = RouteView {
                kind: route.kind,
                layers: route.layers.push(LayerView::Around(Box::new(a), Box::new(b))),
            };
            match (route_plan(twice, strip_body, req), route_plan(once, strip_body, req)) {
                (RoutePlan::Done { resp: twice_done }, RoutePlan::Done { resp: once_done }) => {
                    twice_done == once_done
                },
                (RoutePlan::Call(twice_call), RoutePlan::Call(once_call)) => {
                    &&& twice_call.handler == once_call.handler
                    &&& twice_call.request == once_call.request
                    &&& twice_call.strip_body == once_call.strip_body
                    &&& finish_call(twice_call, hresp) == finish_call(once_call, hresp)
                },
                _ => false,
            }
        }),
{
    lemma_pre_around(route.layers, a, b, req);
    lemma_post_around(route.layers, a, b, hresp);
    lemma_post_around(route.layers, a, b, plain_view(STATUS_NOT_FOUND, Seq::empty()));
    lemma_post_around(route.layers, a, b, plain_view(STATUS_METHOD_NOT_ALLOWED, Seq::empty()));
}

} // verus!
