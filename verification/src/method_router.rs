use vstd::prelude::*;

use crate::http::Method;
use crate::request::{ReqView, Request};
use crate::response::Response;
use crate::route::{
    deferred_route, fallback_bind_spec, fallback_layer_spec, fallback_route, plan_allows,
    route_plan, run_route, BoxedIntoRoute, BoxedIntoRouteView, Fallback, FallbackView, Layer,
    Route, RoutePlan, RouteView, ServiceKind,
};

verus! {

/// Why a routing table could not be built: these are programming mistakes in
/// the table, found while it is constructed, never at request time.
#[derive(Debug)]
pub enum RoutingError {
    /// Two handlers were registered for the same method on one path; the
    /// path is named where the registration site knows it.
    OverlappingMethod { method: Method, path: Option<String> },
    /// Two tables with explicit fallbacks were merged.
    ConflictingFallback,
    /// The pattern engine refused a path pattern.
    InvalidPath { reason: crate::trie::PathError },
    /// The path is already taken by a plain route, which cannot merge.
    OccupiedPath,
}

/// One slot of a method table.
pub enum MethodEndpoint {
    /// Nothing registered.
    Empty,
    /// A concrete route.
    Route(Route),
    /// A handler awaiting application state.
    BoxedHandler(BoxedIntoRoute),
}

/// Ghost form of `MethodEndpoint`.
pub enum MethodEndpointView {
    Empty,
    Route(RouteView),
    BoxedHandler(BoxedIntoRouteView),
}

impl View for MethodEndpoint {
    type V = MethodEndpointView;

    open spec fn view(&self) -> MethodEndpointView {
        match self {
            MethodEndpoint::Empty => MethodEndpointView::Empty,
            MethodEndpoint::Route(route) => MethodEndpointView::Route(route@),
            MethodEndpoint::BoxedHandler(deferred) => MethodEndpointView::BoxedHandler(deferred@),
        }
    }
}

impl Clone for MethodEndpoint {
    fn clone(&self) -> (other: MethodEndpoint)
        ensures
            other@ == self@,
    {
        match self {
            MethodEndpoint::Empty => MethodEndpoint::Empty,
            MethodEndpoint::Route(route) => MethodEndpoint::Route(route.clone()),
            MethodEndpoint::BoxedHandler(deferred) => MethodEndpoint::BoxedHandler(
                deferred.clone(),
            ),
        }
    }
}

impl MethodEndpoint {
    /// Whether the slot holds anything.
    pub fn is_some(&self) -> (occupied: bool)
        ensures
            occupied == !(self@ is Empty),
    {
        match self {
            MethodEndpoint::Empty => false,
            _ => true,
        }
    }
}

/// Whether the slot holds anything.
pub open spec fn slot_occupied(slot: MethodEndpointView) -> bool {
    !(slot is Empty)
}

/// The route a slot answers with; meaningful only on an occupied slot.
pub open spec fn slot_route(slot: MethodEndpointView) -> RouteView {
    match slot {
        MethodEndpointView::Empty => arbitrary(),
        MethodEndpointView::Route(route) => route,
        MethodEndpointView::BoxedHandler(deferred) => deferred_route(deferred),
    }
}

/// A slot with one more interceptor around whatever it holds.
pub open spec fn slot_layer_spec(
    slot: MethodEndpointView,
    layer: crate::route::LayerView,
) -> MethodEndpointView {
    match slot {
        MethodEndpointView::Empty => MethodEndpointView::Empty,
        MethodEndpointView::Route(route) => MethodEndpointView::Route(
            RouteView { kind: route.kind, layers: route.layers.push(layer) },
        ),
        MethodEndpointView::BoxedHandler(deferred) => MethodEndpointView::BoxedHandler(
            BoxedIntoRouteView { handler: deferred.handler, layers: deferred.layers.push(layer) },
        ),
    }
}

/// A slot after state binding: a deferred handler becomes its route.
pub open spec fn slot_bind_spec(slot: MethodEndpointView) -> MethodEndpointView {
    match slot {
        MethodEndpointView::Empty => MethodEndpointView::Empty,
        MethodEndpointView::Route(route) => MethodEndpointView::Route(route),
        MethodEndpointView::BoxedHandler(deferred) => MethodEndpointView::Route(
            deferred_route(deferred),
        ),
    }
}

/// How two slots for one method merge: at most one side may be occupied.
pub open spec fn slots_conflict(ours: MethodEndpointView, theirs: MethodEndpointView) -> bool {
    slot_occupied(ours) && slot_occupied(theirs)
}

/// The occupied side, or an empty slot when neither side holds anything.
pub open spec fn merged_slot(
    ours: MethodEndpointView,
    theirs: MethodEndpointView,
) -> MethodEndpointView {
    if slot_occupied(ours) {
        ours
    } else {
        theirs
    }
}

/// The per-path table from each request method to at most one endpoint, with
/// the not-allowed fallback used when the request's method has no slot.
pub struct MethodRouter {
    pub get: MethodEndpoint,
    pub head: MethodEndpoint,
    pub delete: MethodEndpoint,
    pub options: MethodEndpoint,
    pub patch: MethodEndpoint,
    pub post: MethodEndpoint,
    pub put: MethodEndpoint,
    pub trace: MethodEndpoint,
    pub connect: MethodEndpoint,
    pub fallback: Fallback,
}

/// Ghost form of `MethodRouter`.
#[verifier::ext_equal]
pub struct MethodRouterView {
    pub get: MethodEndpointView,
    pub head: MethodEndpointView,
    pub delete: MethodEndpointView,
    pub options: MethodEndpointView,
    pub patch: MethodEndpointView,
    pub post: MethodEndpointView,
    pub put: MethodEndpointView,
    pub trace: MethodEndpointView,
    pub connect: MethodEndpointView,
    pub fallback: FallbackView,
}

impl View for MethodRouter {
    type V = MethodRouterView;

    open spec fn view(&self) -> MethodRouterView {
        MethodRouterView {
            get: self.get@,
            head: self.head@,
            delete: self.delete@,
            options: self.options@,
            patch: self.patch@,
            post: self.post@,
            put: self.put@,
            trace: self.trace@,
            connect: self.connect@,
            fallback: self.fallback@,
        }
    }
}

/// The slot a table holds for a method.
pub open spec fn table_slot(table: MethodRouterView, method: Method) -> MethodEndpointView {
    match method {
        Method::Get => table.get,
        Method::Head => table.head,
        Method::Delete => table.delete,
        Method::Options => table.options,
        Method::Patch => table.patch,
        Method::Post => table.post,
        Method::Put => table.put,
        Method::Trace => table.trace,
        Method::Connect => table.connect,
    }
}

/// The table with one slot replaced.
pub open spec fn table_with_slot(
    table: MethodRouterView,
    method: Method,
    slot: MethodEndpointView,
) -> MethodRouterView {
    match method {
        Method::Get => MethodRouterView { get: slot, ..table },
        Method::Head => MethodRouterView { head: slot, ..table },
        Method::Delete => MethodRouterView { delete: slot, ..table },
        Method::Options => MethodRouterView { options: slot, ..table },
        Method::Patch => MethodRouterView { patch: slot, ..table },
        Method::Post => MethodRouterView { post: slot, ..table },
        Method::Put => MethodRouterView { put: slot, ..table },
        Method::Trace => MethodRouterView { trace: slot, ..table },
        Method::Connect => MethodRouterView { connect: slot, ..table },
    }
}

/// What dispatching a request through a method table comes to. The request's
/// exact method is tried first; a HEAD request with no HEAD slot is answered
/// by the GET slot with the response body discarded; otherwise the table's
/// not-allowed fallback answers.
pub open spec fn method_plan(table: MethodRouterView, req: ReqView) -> RoutePlan {
    let slot = table_slot(table, req.parts.method);
    if slot_occupied(slot) {
        route_plan(slot_route(slot), false, req)
    } else if req.parts.method == Method::Head && slot_occupied(table.get) {
        route_plan(slot_route(table.get), true, req)
    } else {
        route_plan(fallback_route(table.fallback), false, req)
    }
}

/// Whether any slot is occupied on both sides.
pub open spec fn tables_conflict(ours: MethodRouterView, theirs: MethodRouterView) -> bool {
    exists|method: Method| slots_conflict(
        #[trigger] table_slot(ours, method),
        table_slot(theirs, method),
    )
}

impl MethodRouter {
    /// The empty table: no slot filled, the built-in not-allowed answer as
    /// its fallback.
    pub fn new() -> (table: MethodRouter)
        ensures
            forall|method: Method| table_slot(table@, method) is Empty,
            table@.fallback == FallbackView::Default(
                RouteView {
                    kind: ServiceKind::NotAllowed,
                    layers: Seq::<crate::route::LayerView>::empty(),
                },
            ),
    {
        MethodRouter {
            get: MethodEndpoint::Empty,
            head: MethodEndpoint::Empty,
            delete: MethodEndpoint::Empty,
            options: MethodEndpoint::Empty,
            patch: MethodEndpoint::Empty,
            post: MethodEndpoint::Empty,
            put: MethodEndpoint::Empty,
            trace: MethodEndpoint::Empty,
            connect: MethodEndpoint::Empty,
            fallback: Fallback::Default(Route::new(ServiceKind::NotAllowed)),
        }
    }

    /// Register a handler for one method. Registering a method whose slot is
    /// already occupied is a fatal construction error, whatever was
    /// registered first.
    pub fn on(self, method: Method, handler: u64) -> (table: Result<MethodRouter, RoutingError>)
        ensures
            table matches Ok(t) ==> !slot_occupied(table_slot(self@, method)) && t@
                == table_with_slot(
                self@,
                method,
                MethodEndpointView::BoxedHandler(
                    BoxedIntoRouteView {
                        handler,
                        layers: Seq::<crate::route::LayerView>::empty(),
                    },
                ),
            ),
            table matches Err(e) ==> slot_occupied(table_slot(self@, method)) && (e matches
                RoutingError::OverlappingMethod { method: m, path: p } && m == method
                && p is None),
    {
        let endpoint = MethodEndpoint::BoxedHandler(BoxedIntoRoute::from_handler(handler));
        let mut this = self;
        match method {
            Method::Get => {
                if this.get.is_some() {
                    return Err(RoutingError::OverlappingMethod { method, path: None });
                }
                this.get = endpoint;
            },
            Method::Head => {
                if this.head.is_some() {
                    return Err(RoutingError::OverlappingMethod { method, path: None });
                }
                this.head = endpoint;
            },
            Method::Delete => {
                if this.delete.is_some() {
                    return Err(RoutingError::OverlappingMethod { method, path: None });
                }
                this.delete = endpoint;
            },
            Method::Options => {
                if this.options.is_some() {
                    return Err(RoutingError::OverlappingMethod { method, path: None });
                }
                this.options = endpoint;
            },
            Method::Patch => {
                if this.patch.is_some() {
                    return Err(RoutingError::OverlappingMethod { method, path: None });
                }
                this.patch = endpoint;
            },
            Method::Post => {
                if this.post.is_some() {
                    return Err(RoutingError::OverlappingMethod { method, path: None });
                }
                this.post = endpoint;
            },
            Method::Put => {
                if this.put.is_some() {
                    return Err(RoutingError::OverlappingMethod { method, path: None });
                }
                this.put = endpoint;
            },
            Method::Trace => {
                if this.trace.is_some() {
                    return Err(RoutingError::OverlappingMethod { method, path: None });
                }
                this.trace = endpoint;
            },
            Method::Connect => {
                if this.connect.is_some() {
                    return Err(RoutingError::OverlappingMethod { method, path: None });
                }
                this.connect = endpoint;
            },
        }
        proof {
            assert(this@ =~= table_with_slot(
                self@,
                method,
                MethodEndpointView::BoxedHandler(
                    BoxedIntoRouteView {
                        handler,
                        layers: Seq::<crate::route::LayerView>::empty(),
                    },
                ),
            ));
        }
        Ok(this)
    }

    /// Merge two tables registered for one path, slot by slot: a slot
    /// occupied on both sides is a fatal construction error naming the
    /// method; the fallbacks merge with the built-in default yielding.
    #[verifier::rlimit(100)]
    pub fn merge_for_path(self, other: MethodRouter) -> (merged: Result<
        MethodRouter,
        RoutingError,
    >)
        ensures
            merged matches Ok(t) ==> t@ == merge_tables(self@, other@),
            merged matches Ok(t) ==> {
                &&& !tables_conflict(self@, other@)
                &&& forall|method: Method| #[trigger] table_slot(t@, method) == merged_slot(
                    table_slot(self@, method),
                    table_slot(other@, method),
                )
                &&& (self@.fallback is Default ==> t@.fallback == other@.fallback)
                &&& (!(self@.fallback is Default) && other@.fallback is Default ==> t@.fallback
                    == self@.fallback)
            },
            merged matches Err(e) ==> e matches RoutingError::OverlappingMethod { .. }
                || e matches RoutingError::ConflictingFallback,
            merged matches Err(RoutingError::OverlappingMethod { method, path: None }) ==> slots_conflict(
                table_slot(self@, method),
                table_slot(other@, method),
            ),
            merged is Err <==> tables_conflict(self@, other@) || (!(self@.fallback is Default)
                && !(other@.fallback is Default)),
    {
        let mut this = self;
        if this.get.is_some() && other.get.is_some() {
            proof {
                assert(slots_conflict(table_slot(this@, Method::Get), table_slot(other@, Method::Get)));
            }
            return Err(RoutingError::OverlappingMethod { method: Method::Get, path: None });
        }
        if this.head.is_some() && other.head.is_some() {
            proof {
                assert(slots_conflict(table_slot(this@, Method::Head), table_slot(other@, Method::Head)));
            }
            return Err(RoutingError::OverlappingMethod { method: Method::Head, path: None });
        }
        if this.delete.is_some() && other.delete.is_some() {
            proof {
                assert(slots_conflict(table_slot(this@, Method::Delete), table_slot(other@, Method::Delete)));
            }
            return Err(RoutingError::OverlappingMethod { method: Method::Delete, path: None });
        }
        if this.options.is_some() && other.options.is_some() {
            proof {
                assert(slots_conflict(table_slot(this@, Method::Options), table_slot(other@, Method::Options)));
            }
            return Err(RoutingError::OverlappingMethod { method: Method::Options, path: None });
        }
        if this.patch.is_some() && other.patch.is_some() {
            proof {
                assert(slots_conflict(table_slot(this@, Method::Patch), table_slot(other@, Method::Patch)));
            }
            return Err(RoutingError::OverlappingMethod { method: Method::Patch, path: None });
        }
        if this.post.is_some() && other.post.is_some() {
            proof {
                assert(slots_conflict(table_slot(this@, Method::Post), table_slot(other@, Method::Post)));
            }
            return Err(RoutingError::OverlappingMethod { method: Method::Post, path: None });
        }
        if this.put.is_some() && other.put.is_some() {
            proof {
                assert(slots_conflict(table_slot(this@, Method::Put), table_slot(other@, Method::Put)));
            }
            return Err(RoutingError::OverlappingMethod { method: Method::Put, path: None });
        }
        if this.trace.is_some() && other.trace.is_some() {
            proof {
                assert(slots_conflict(table_slot(this@, Method::Trace), table_slot(other@, Method::Trace)));
            }
            return Err(RoutingError::OverlappingMethod { method: Method::Trace, path: None });
        }
        if this.connect.is_some() && other.connect.is_some() {
            proof {
                assert(slots_conflict(table_slot(this@, Method::Connect), table_slot(other@, Method::Connect)));
            }
            return Err(RoutingError::OverlappingMethod { method: Method::Connect, path: None });
        }
        let ghost before = this@;
        if !this.get.is_some() {
            this.get = other.get;
        }
        if !this.head.is_some() {
            this.head = other.head;
        }
        if !this.delete.is_some() {
            this.delete = other.delete;
        }
        if !this.options.is_some() {
            this.options = other.options;
        }
        if !this.patch.is_some() {
            this.patch = other.patch;
        }
        if !this.post.is_some() {
            this.post = other.post;
        }
        if !this.put.is_some() {
            this.put = other.put;
        }
        if !this.trace.is_some() {
            this.trace = other.trace;
        }
        if !this.connect.is_some() {
            this.connect = other.connect;
        }
        proof {
            assert(!tables_conflict(before, other@)) by {
                assert forall|m: Method| !slots_conflict(
                    table_slot(before, m),
                    table_slot(other@, m),
                ) by {
                    match m {
                        Method::Get => {},
                        Method::Head => {},
                        Method::Delete => {},
                        Method::Options => {},
                        Method::Patch => {},
                        Method::Post => {},
                        Method::Put => {},
                        Method::Trace => {},
                        Method::Connect => {},
                    }
                }
            }
        }
        match this.fallback.merge(other.fallback) {
            Option::Some(fallback) => {
                this.fallback = fallback;
            },
            Option::None => {
                return Err(RoutingError::ConflictingFallback);
            },
        }
        proof {
            assert(forall|method: Method| #[trigger] table_slot(this@, method) == merged_slot(
                table_slot(before, method),
                table_slot(other@, method),
            )) by {
                assert(table_slot(this@, Method::Get) == merged_slot(table_slot(before, Method::Get), table_slot(other@, Method::Get)));
                assert(table_slot(this@, Method::Head) == merged_slot(table_slot(before, Method::Head), table_slot(other@, Method::Head)));
                assert(table_slot(this@, Method::Delete) == merged_slot(table_slot(before, Method::Delete), table_slot(other@, Method::Delete)));
                assert(table_slot(this@, Method::Options) == merged_slot(table_slot(before, Method::Options), table_slot(other@, Method::Options)));
                assert(table_slot(this@, Method::Patch) == merged_slot(table_slot(before, Method::Patch), table_slot(other@, Method::Patch)));
                assert(table_slot(this@, Method::Post) == merged_slot(table_slot(before, Method::Post), table_slot(other@, Method::Post)));
                assert(table_slot(this@, Method::Put) == merged_slot(table_slot(before, Method::Put), table_slot(other@, Method::Put)));
                assert(table_slot(this@, Method::Trace) == merged_slot(table_slot(before, Method::Trace), table_slot(other@, Method::Trace)));
                assert(table_slot(this@, Method::Connect) == merged_slot(table_slot(before, Method::Connect), table_slot(other@, Method::Connect)));
            }
            assert(this@ =~= merge_tables(before, other@));
        }
        Ok(this)
    }

    /// Wrap every registered endpoint, and the fallback, in one more
    /// interceptor.
    pub fn layer(self, layer: &Layer) -> (layered: MethodRouter)
        ensures
            forall|method: Method| #[trigger] table_slot(layered@, method) == slot_layer_spec(
                table_slot(self@, method),
                layer@,
            ),
            layered@.fallback == fallback_layer_spec(self@.fallback, layer@),
    {
        let layered = MethodRouter {
            get: layer_slot(self.get, layer),
            head: layer_slot(self.head, layer),
            delete: layer_slot(self.delete, layer),
            options: layer_slot(self.options, layer),
            patch: layer_slot(self.patch, layer),
            post: layer_slot(self.post, layer),
            put: layer_slot(self.put, layer),
            trace: layer_slot(self.trace, layer),
            connect: layer_slot(self.connect, layer),
            fallback: self.fallback.map(layer.clone()),
        };
        proof {
            assert forall|method: Method| #[trigger] table_slot(layered@, method)
                == slot_layer_spec(table_slot(self@, method), layer@) by {
                match method {
                    Method::Get => {},
                    Method::Head => {},
                    Method::Delete => {},
                    Method::Options => {},
                    Method::Patch => {},
                    Method::Post => {},
                    Method::Put => {},
                    Method::Trace => {},
                    Method::Connect => {},
                }
            }
        }
        layered
    }

    /// Bind the application state: every deferred handler becomes a concrete
    /// route, once and for all.
    pub fn with_state(self) -> (bound: MethodRouter)
        ensures
            forall|method: Method| #[trigger] table_slot(bound@, method) == slot_bind_spec(
                table_slot(self@, method),
            ),
            bound@.fallback == fallback_bind_spec(self@.fallback),
    {
        let bound = MethodRouter {
            get: bind_slot(self.get),
            head: bind_slot(self.head),
            delete: bind_slot(self.delete),
            options: bind_slot(self.options),
            patch: bind_slot(self.patch),
            post: bind_slot(self.post),
            put: bind_slot(self.put),
            trace: bind_slot(self.trace),
            connect: bind_slot(self.connect),
            fallback: self.fallback.with_state(),
        };
        proof {
            assert forall|method: Method| #[trigger] table_slot(bound@, method) == slot_bind_spec(
                table_slot(self@, method),
            ) by {
                match method {
                    Method::Get => {},
                    Method::Head => {},
                    Method::Delete => {},
                    Method::Options => {},
                    Method::Patch => {},
                    Method::Post => {},
                    Method::Put => {},
                    Method::Trace => {},
                    Method::Connect => {},
                }
            }
        }
        bound
    }

    /// Dispatch one request through the table: the slot of the request's
    /// method answers; a HEAD request without a HEAD slot is answered by the
    /// GET slot with the body discarded; otherwise the not-allowed fallback
    /// answers. `invoke` runs whatever deferred handler the chosen endpoint
    /// names.
    pub fn call_with_state<F: FnOnce(u64, Request) -> Response>(
        &self,
        req: Request,
        invoke: F,
    ) -> (resp: Response)
        requires
            forall|handler: u64, handed: Request| call_requires(invoke, (handler, handed)),
        ensures
            plan_allows(invoke, method_plan(self@, req@), resp@),
    {
        let slot = match req.parts.method {
            Method::Get => &self.get,
            Method::Head => &self.head,
            Method::Delete => &self.delete,
            Method::Options => &self.options,
            Method::Patch => &self.patch,
            Method::Post => &self.post,
            Method::Put => &self.put,
            Method::Trace => &self.trace,
            Method::Connect => &self.connect,
        };
        match slot {
            MethodEndpoint::Route(route) => run_route(route.kind, &route.layers, false, req, invoke),
            MethodEndpoint::BoxedHandler(deferred) => run_route(
                ServiceKind::CallHandler { handler: deferred.handler },
                &deferred.layers,
                false,
                req,
                invoke,
            ),
            MethodEndpoint::Empty => {
                if req.parts.method == Method::Head && self.get.is_some() {
                    match &self.get {
                        MethodEndpoint::Route(route) => run_route(
                            route.kind,
                            &route.layers,
                            true,
                            req,
                            invoke,
                        ),
                        MethodEndpoint::BoxedHandler(deferred) => run_route(
                            ServiceKind::CallHandler { handler: deferred.handler },
                            &deferred.layers,
                            true,
                            req,
                            invoke,
                        ),
                        MethodEndpoint::Empty => {
                            proof {
                                assert(false);
                            }
                            run_route(ServiceKind::NotFound, &Vec::new(), false, req, invoke)
                        },
                    }
                } else {
                    match &self.fallback {
                        Fallback::Default(route) => run_route(
                            route.kind,
                            &route.layers,
                            false,
                            req,
                            invoke,
                        ),
                        Fallback::Service(route) => run_route(
                            route.kind,
                            &route.layers,
                            false,
                            req,
                            invoke,
                        ),
                        Fallback::BoxedHandler(deferred) => run_route(
                            ServiceKind::CallHandler { handler: deferred.handler },
                            &deferred.layers,
                            false,
                            req,
                            invoke,
                        ),
                    }
                }
            },
        }
    }

    /// Register a handler for GET requests.
    pub fn get(self, handler: u64) -> (table: Result<MethodRouter, RoutingError>)
        ensures
            table matches Ok(t) ==> !slot_occupied(self@.get) && t@ == table_with_slot(
                self@,
                Method::Get,
                MethodEndpointView::BoxedHandler(
                    BoxedIntoRouteView {
                        handler,
                        layers: Seq::<crate::route::LayerView>::empty(),
                    },
                ),
            ),
            table matches Err(e) ==> slot_occupied(self@.get) && (e matches
                RoutingError::OverlappingMethod { method: m, path: p } && m == Method::Get
                && p is None),
    {
        self.on(Method::Get, handler)
    }
}

impl Clone for MethodRouter {
    fn clone(&self) -> (other: MethodRouter)
        ensures
            other@ == self@,
    {
        let other = MethodRouter {
            get: self.get.clone(),
            head: self.head.clone(),
            delete: self.delete.clone(),
            options: self.options.clone(),
            patch: self.patch.clone(),
            post: self.post.clone(),
            put: self.put.clone(),
            trace: self.trace.clone(),
            connect: self.connect.clone(),
            fallback: self.fallback.clone(),
        };
        proof {
            assert(other@ =~= self@);
        }
        other
    }
}

/// How two whole tables merge, slot by slot, the built-in default fallback
/// yielding; meaningful only when no slot conflicts and at most one fallback
/// is explicit.
pub open spec fn merge_tables(ours: MethodRouterView, theirs: MethodRouterView) -> MethodRouterView {
    MethodRouterView {
        get: merged_slot(ours.get, theirs.get),
        head: merged_slot(ours.head, theirs.head),
        delete: merged_slot(ours.delete, theirs.delete),
        options: merged_slot(ours.options, theirs.options),
        patch: merged_slot(ours.patch, theirs.patch),
        post: merged_slot(ours.post, theirs.post),
        put: merged_slot(ours.put, theirs.put),
        trace: merged_slot(ours.trace, theirs.trace),
        connect: merged_slot(ours.connect, theirs.connect),
        fallback: if ours.fallback is Default {
            theirs.fallback
        } else {
            ours.fallback
        },
    }
}

/// Whether two tables for one path can merge at all: no slot occupied on
/// both sides, and at most one explicit fallback.
pub open spec fn tables_mergeable(ours: MethodRouterView, theirs: MethodRouterView) -> bool {
    !tables_conflict(ours, theirs) && (ours.fallback is Default || theirs.fallback is Default)
}

/// A slot with one more interceptor around whatever it holds.
fn layer_slot(slot: MethodEndpoint, layer: &Layer) -> (layered: MethodEndpoint)
    ensures
        layered@ == slot_layer_spec(slot@, layer@),
{
    match slot {
        MethodEndpoint::Empty => MethodEndpoint::Empty,
        MethodEndpoint::Route(route) => MethodEndpoint::Route(route.layer(layer.clone())),
        MethodEndpoint::BoxedHandler(deferred) => MethodEndpoint::BoxedHandler(
            deferred.map(layer.clone()),
        ),
    }
}

/// A slot after state binding.
fn bind_slot(slot: MethodEndpoint) -> (bound: MethodEndpoint)
    ensures
        bound@ == slot_bind_spec(slot@),
{
    match slot {
        MethodEndpoint::Empty => MethodEndpoint::Empty,
        MethodEndpoint::Route(route) => MethodEndpoint::Route(route),
        MethodEndpoint::BoxedHandler(deferred) => MethodEndpoint::Route(deferred.into_route()),
    }
}

/// A method table answering GET requests with the given handler: the usual
/// way one is made.
pub fn get(handler: u64) -> (table: MethodRouter)
    ensures
        table@.get == MethodEndpointView::BoxedHandler(
            BoxedIntoRouteView { handler, layers: Seq::<crate::route::LayerView>::empty() },
        ),
        forall|method: Method|
            method != Method::Get ==> table_slot(table@, method) is Empty,
        table@.fallback == FallbackView::Default(
            RouteView {
                kind: ServiceKind::NotAllowed,
                layers: Seq::<crate::route::LayerView>::empty(),
            },
        ),
{
    MethodRouter {
        get: MethodEndpoint::BoxedHandler(BoxedIntoRoute::from_handler(handler)),
        head: MethodEndpoint::Empty,
        delete: MethodEndpoint::Empty,
        options: MethodEndpoint::Empty,
        patch: MethodEndpoint::Empty,
        post: MethodEndpoint::Empty,
        put: MethodEndpoint::Empty,
        trace: MethodEndpoint::Empty,
        connect: MethodEndpoint::Empty,
        fallback: Fallback::Default(Route::new(ServiceKind::NotAllowed)),
    }
}

} // verus!
