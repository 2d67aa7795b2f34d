use vstd::prelude::*;

use crate::http::Method;
use crate::method_router::{
    merge_tables, method_plan, slot_bind_spec, slot_layer_spec, table_slot, tables_mergeable,
    MethodRouter, MethodRouterView, RoutingError,
};
use crate::request::{PartsView, ReqView, Request};
use crate::response::Response;
use crate::route::{
    fallback_bind_spec, fallback_layer_spec, fallback_route, plan_allows, route_plan, run_route,
    BoxedIntoRoute, BoxedIntoRouteView, Fallback, FallbackView, Layer, Route, RoutePlan, RouteView,
    ServiceKind,
};
use crate::trie::{
    brace_count, count_braces, is_literal_route, trie_accepts, trie_at, trie_clone, trie_entries,
    trie_insert, trie_match, trie_new, PathError, PatternTrie, MOST_PATTERN_PARAMETERS,
};
use vstd::utf8::encode_utf8;

verus! {

/// The number a registered path stands under: its position in the router's
/// endpoint table.
#[derive(Clone, Copy, Debug, PartialEq, Eq, Structural, Hash)]
pub struct RouteId(pub usize);

/// The pattern store: the outside trie that does the matching, beside the
/// list of registered patterns, where the pattern of route `i` sits at
/// position `i`.
pub struct Node {
    pub inner: PatternTrie,
    pub paths: Vec<String>,
}

/// The view of the registered patterns, in registration order.
pub open spec fn paths_view(paths: Seq<String>) -> Seq<Seq<char>> {
    paths.map_values(|p: String| p@)
}

impl Node {
    /// The trie and the pattern list agree: pattern `i` is registered with
    /// value `i`, and everything registered is such a pattern.
    pub open spec fn wf(self) -> bool {
        &&& forall|i: int|
            0 <= i < self.paths@.len() ==> trie_entries(self.inner).contains_key(
                #[trigger] self.paths@[i]@,
            ) && trie_entries(self.inner)[self.paths@[i]@] == i
        &&& forall|p: Seq<char>|
            #[trigger] trie_entries(self.inner).contains_key(p) ==> trie_entries(self.inner)[p]
                < self.paths@.len() && self.paths@[trie_entries(self.inner)[p] as int]@ == p
    }

    /// An empty pattern store.
    pub fn new() -> (node: Node)
        ensures
            node.wf(),
            node.paths@.len() == 0,
            trie_entries(node.inner) == (Map::<Seq<char>, usize>::empty()),
    {
        Node { inner: trie_new(), paths: Vec::new() }
    }

    /// The position of an exactly matching registered pattern.
    pub fn find(&self, path: &String) -> (found: Option<usize>)
        ensures
            found matches Some(i) ==> i < self.paths@.len() && self.paths@[i as int]@ == path@,
            found is None ==> forall|i: int|
                0 <= i < self.paths@.len() ==> self.paths@[i]@ != path@,
    {
        let mut i: usize = 0;
        while i < self.paths.len()
            invariant
                0 <= i <= self.paths@.len(),
                forall|j: int| 0 <= j < i ==> self.paths@[j]@ != path@,
            decreases self.paths@.len() - i,
        {
            if self.paths[i] == *path {
                return Some(i);
            }
            i = i + 1;
        }
        None
    }

    /// Register one more pattern under the next position. Succeeds exactly
    /// when the pattern is within the engine's parameter budget and the
    /// engine takes it; no failure changes the store.
    pub fn insert(&mut self, path: &str, id: RouteId) -> (outcome: Result<(), PathError>)
        requires
            old(self).wf(),
            id.0 == old(self).paths@.len(),
        ensures
            outcome is Ok ==> {
                &&& final(self).wf()
                &&& final(self).paths@.len() == old(self).paths@.len() + 1
                &&& paths_view(final(self).paths@) == paths_view(old(self).paths@).push(path@)
                &&& trie_entries(final(self).inner) == trie_entries(old(self).inner).insert(
                    path@,
                    id.0,
                )
            },
            (outcome is Ok) <==> (brace_count(encode_utf8(path@)) <= MOST_PATTERN_PARAMETERS
                && trie_accepts(old(self).inner, path@)),
            outcome is Err ==> final(self).paths@ == old(self).paths@ && trie_entries(
                final(self).inner,
            ) == trie_entries(old(self).inner) && final(self).wf(),
            trie_entries(old(self).inner).contains_key(path@) ==> outcome is Err,
    {
        if count_braces(path) > MOST_PATTERN_PARAMETERS {
            return Err(PathError::TooManyParameters);
        }
        match trie_insert(&mut self.inner, path, id.0) {
            Result::Ok(()) => {
                let owned = path.to_owned();
                self.paths.push(owned);
                proof {
                    assert(paths_view(self.paths@) =~= paths_view(old(self).paths@).push(path@));
                    let entries = trie_entries(self.inner);
                    assert forall|i: int| 0 <= i < self.paths@.len() implies entries.contains_key(
                        #[trigger] self.paths@[i]@,
                    ) && entries[self.paths@[i]@] == i by {
                        if i < old(self).paths@.len() {
                            assert(self.paths@[i] == old(self).paths@[i]);
                            assert(old(self).paths@[i]@ != path@);
                        }
                    }
                    assert forall|p: Seq<char>| #[trigger] entries.contains_key(p) implies
                        entries[p] < self.paths@.len() && self.paths@[entries[p] as int]@ == p by {
                        if p != path@ {
                            assert(trie_entries(old(self).inner).contains_key(p));
                        }
                    }
                }
                Ok(())
            },
            Result::Err(error) => Err(error),
        }
    }

    /// Match a path against the registered patterns.
    pub fn at(&self, path: &str) -> (found: Option<(usize, Vec<(String, String)>)>)
        ensures
            found matches Some(hit) ==> trie_match(self.inner, path@) == Some(
                (hit.0, crate::request::pairs_view(hit.1@)),
            ),
            found is None ==> trie_match(self.inner, path@) is None,
            found matches Some(hit) ==> crate::trie::trie_value_registered(self.inner, hit.0),
            trie_entries(self.inner).contains_key(path@) && is_literal_route(path@) ==> found
                is Some,
            found matches Some(hit) ==> (trie_entries(self.inner).contains_key(path@)
                && is_literal_route(path@) ==> hit.0 == trie_entries(self.inner)[path@]
                && hit.1@.len() == 0),
    {
        trie_at(&self.inner, path)
    }
}

impl Clone for Node {
    fn clone(&self) -> (other: Node)
        ensures
            trie_entries(other.inner) == trie_entries(self.inner),
            forall|p: Seq<char>| #[trigger] trie_match(other.inner, p) == trie_match(self.inner, p),
            other.paths@.len() == self.paths@.len(),
            paths_view(other.paths@) == paths_view(self.paths@),
            self.wf() ==> other.wf(),
    {
        let inner = trie_clone(&self.inner);
        let mut paths: Vec<String> = Vec::new();
        let mut i: usize = 0;
        while i < self.paths.len()
            invariant
                0 <= i <= self.paths@.len(),
                paths@.len() == i,
                paths_view(paths@) == paths_view(self.paths@).take(i as int),
                forall|j: int| 0 <= j < i ==> #[trigger] paths@[j]@ == self.paths@[j]@,
            decreases self.paths@.len() - i,
        {
            paths.push(self.paths[i].clone());
            proof {
                assert(paths_view(paths@) =~= paths_view(self.paths@).take(i + 1));
            }
            i = i + 1;
        }
        proof {
            assert(paths_view(self.paths@).take(self.paths@.len() as int) =~= paths_view(
                self.paths@,
            ));
        }
        let other = Node { inner, paths };
        proof {
            if self.wf() {
                assert forall|i2: int| 0 <= i2 < other.paths@.len() implies trie_entries(
                    other.inner,
                ).contains_key(#[trigger] other.paths@[i2]@) && trie_entries(other.inner)[
                    other.paths@[i2]@] == i2 by {
                    assert(other.paths@[i2]@ == paths_view(other.paths@)[i2]);
                    assert(self.paths@[i2]@ == paths_view(self.paths@)[i2]);
                }
                assert forall|p: Seq<char>| #[trigger] trie_entries(other.inner).contains_key(p)
                    implies trie_entries(other.inner)[p] < other.paths@.len() && other.paths@[
                    trie_entries(other.inner)[p] as int]@ == p by {
                    let idx = trie_entries(self.inner)[p] as int;
                    assert(other.paths@[idx]@ == paths_view(other.paths@)[idx]);
                    assert(self.paths@[idx]@ == paths_view(self.paths@)[idx]);
                }
            }
        }
        other
    }
}

/// What a path is registered to: a method table, or one route answering
/// every method.
pub enum Endpoint {
    MethodRouter(MethodRouter),
    Route(Route),
}

/// Ghost form of `Endpoint`.
pub enum EndpointView {
    MethodRouter(MethodRouterView),
    Route(RouteView),
}

impl View for Endpoint {
    type V = EndpointView;

    open spec fn view(&self) -> EndpointView {
        match self {
            Endpoint::MethodRouter(table) => EndpointView::MethodRouter(table@),
            Endpoint::Route(route) => EndpointView::Route(route@),
        }
    }
}

impl Clone for Endpoint {
    fn clone(&self) -> (other: Endpoint)
        ensures
            other@ == self@,
    {
        match self {
            Endpoint::MethodRouter(table) => Endpoint::MethodRouter(table.clone()),
            Endpoint::Route(route) => Endpoint::Route(route.clone()),
        }
    }
}

/// An endpoint with one more interceptor around everything it can answer.
pub open spec fn endpoint_layer_spec(
    endpoint: EndpointView,
    layer: crate::route::LayerView,
) -> EndpointView {
    match endpoint {
        EndpointView::MethodRouter(table) => EndpointView::MethodRouter(
            MethodRouterView {
                get: crate::method_router::slot_layer_spec(table.get, layer),
                head: crate::method_router::slot_layer_spec(table.head, layer),
                delete: crate::method_router::slot_layer_spec(table.delete, layer),
                options: crate::method_router::slot_layer_spec(table.options, layer),
                patch: crate::method_router::slot_layer_spec(table.patch, layer),
                post: crate::method_router::slot_layer_spec(table.post, layer),
                put: crate::method_router::slot_layer_spec(table.put, layer),
                trace: crate::method_router::slot_layer_spec(table.trace, layer),
                connect: crate::method_router::slot_layer_spec(table.connect, layer),
                fallback: fallback_layer_spec(table.fallback, layer),
            },
        ),
        EndpointView::Route(route) => EndpointView::Route(
            RouteView { kind: route.kind, layers: route.layers.push(layer) },
        ),
    }
}

/// An endpoint after state binding.
pub open spec fn endpoint_bind_spec(endpoint: EndpointView) -> EndpointView {
    match endpoint {
        EndpointView::MethodRouter(table) => EndpointView::MethodRouter(
            MethodRouterView {
                get: crate::method_router::slot_bind_spec(table.get),
                head: crate::method_router::slot_bind_spec(table.head),
                delete: crate::method_router::slot_bind_spec(table.delete),
                options: crate::method_router::slot_bind_spec(table.options),
                patch: crate::method_router::slot_bind_spec(table.patch),
                post: crate::method_router::slot_bind_spec(table.post),
                put: crate::method_router::slot_bind_spec(table.put),
                trace: crate::method_router::slot_bind_spec(table.trace),
                connect: crate::method_router::slot_bind_spec(table.connect),
                fallback: fallback_bind_spec(table.fallback),
            },
        ),
        EndpointView::Route(route) => EndpointView::Route(route),
    }
}

impl Endpoint {
    /// Wrap everything this endpoint can answer in one more interceptor.
    pub fn layer(self, layer: &Layer) -> (layered: Endpoint)
        ensures
            layered@ == endpoint_layer_spec(self@, layer@),
    {
        match self {
            Endpoint::MethodRouter(table) => {
                let ghost tv = table@;
                let layered_table = table.layer(layer);
                proof {
                    assert(table_slot(layered_table@, Method::Get) == slot_layer_spec(table_slot(tv, Method::Get), layer@));
                    assert(table_slot(layered_table@, Method::Head) == slot_layer_spec(table_slot(tv, Method::Head), layer@));
                    assert(table_slot(layered_table@, Method::Delete) == slot_layer_spec(table_slot(tv, Method::Delete), layer@));
                    assert(table_slot(layered_table@, Method::Options) == slot_layer_spec(table_slot(tv, Method::Options), layer@));
                    assert(table_slot(layered_table@, Method::Patch) == slot_layer_spec(table_slot(tv, Method::Patch), layer@));
                    assert(table_slot(layered_table@, Method::Post) == slot_layer_spec(table_slot(tv, Method::Post), layer@));
                    assert(table_slot(layered_table@, Method::Put) == slot_layer_spec(table_slot(tv, Method::Put), layer@));
                    assert(table_slot(layered_table@, Method::Trace) == slot_layer_spec(table_slot(tv, Method::Trace), layer@));
                    assert(table_slot(layered_table@, Method::Connect) == slot_layer_spec(table_slot(tv, Method::Connect), layer@));
                    assert(EndpointView::MethodRouter(layered_table@) =~~= endpoint_layer_spec(
                        EndpointView::MethodRouter(tv),
                        layer@,
                    ));
                }
                Endpoint::MethodRouter(layered_table)
            },
            Endpoint::Route(route) => Endpoint::Route(route.layer(layer.clone())),
        }
    }

    /// Bind state: deferred handlers in this endpoint become routes.
    pub fn with_state(self) -> (bound: Endpoint)
        ensures
            bound@ == endpoint_bind_spec(self@),
    {
        match self {
            Endpoint::MethodRouter(table) => {
                let ghost tv = table@;
                let bound_table = table.with_state();
                proof {
                    assert(table_slot(bound_table@, Method::Get) == slot_bind_spec(table_slot(tv, Method::Get)));
                    assert(table_slot(bound_table@, Method::Head) == slot_bind_spec(table_slot(tv, Method::Head)));
                    assert(table_slot(bound_table@, Method::Delete) == slot_bind_spec(table_slot(tv, Method::Delete)));
                    assert(table_slot(bound_table@, Method::Options) == slot_bind_spec(table_slot(tv, Method::Options)));
                    assert(table_slot(bound_table@, Method::Patch) == slot_bind_spec(table_slot(tv, Method::Patch)));
                    assert(table_slot(bound_table@, Method::Post) == slot_bind_spec(table_slot(tv, Method::Post)));
                    assert(table_slot(bound_table@, Method::Put) == slot_bind_spec(table_slot(tv, Method::Put)));
                    assert(table_slot(bound_table@, Method::Trace) == slot_bind_spec(table_slot(tv, Method::Trace)));
                    assert(table_slot(bound_table@, Method::Connect) == slot_bind_spec(table_slot(tv, Method::Connect)));
                    assert(EndpointView::MethodRouter(bound_table@) =~~= endpoint_bind_spec(
                        EndpointView::MethodRouter(tv),
                    ));
                }
                Endpoint::MethodRouter(bound_table)
            },
            Endpoint::Route(route) => Endpoint::Route(route),
        }
    }
}

/// The view of the endpoint table, in registration order.
pub open spec fn routes_view(routes: Seq<Endpoint>) -> Seq<EndpointView> {
    routes.map_values(|e: Endpoint| e@)
}

/// The path router: patterns matched by the trie name positions in the
/// endpoint table; requests nothing matches go to the catch-all fallback.
pub struct Router {
    pub routes: Vec<Endpoint>,
    pub node: Node,
    pub default_fallback: bool,
    pub catch_all_fallback: Fallback,
}

impl Router {
    /// The router's structural invariant: the pattern store is sound, every
    /// stored value names an endpoint, and the default-fallback flag tracks
    /// whether the catch-all is still the built-in one.
    pub open spec fn wf(self) -> bool {
        &&& self.node.wf()
        &&& self.node.paths@.len() == self.routes@.len()
        &&& self.default_fallback == (self.catch_all_fallback@ is Default)
    }

    /// The endpoint registered under a pattern.
    pub open spec fn endpoint_at(self, path: Seq<char>) -> Option<EndpointView> {
        if trie_entries(self.node.inner).contains_key(path) {
            Some(self.routes@[trie_entries(self.node.inner)[path] as int]@)
        } else {
            None
        }
    }

    /// An empty router: nothing registered, the built-in not-found answer as
    /// its catch-all.
    pub fn new() -> (router: Router)
        ensures
            router.wf(),
            router.routes@.len() == 0,
            trie_entries(router.node.inner) == (Map::<Seq<char>, usize>::empty()),
            forall|p: Seq<char>| router.endpoint_at(p) is None,
            router.default_fallback,
            router.catch_all_fallback@ == FallbackView::Default(
                RouteView {
                    kind: ServiceKind::NotFound,
                    layers: Seq::<crate::route::LayerView>::empty(),
                },
            ),
    {
        Router {
            routes: Vec::new(),
            node: Node::new(),
            default_fallback: true,
            catch_all_fallback: Fallback::Default(Route::new(ServiceKind::NotFound)),
        }
    }

    /// Register a method table under a path pattern. A pattern already
    /// registered merges the new table into its existing one; a fresh
    /// pattern gains a new endpoint. Everything else stands untouched.
    pub fn route(self, path: &str, method_router: MethodRouter) -> (updated: Result<
        Router,
        RoutingError,
    >)
        requires
            self.wf(),
        ensures
            updated matches Ok(router) ==> {
                &&& router.wf()
                &&& router.default_fallback == self.default_fallback
                &&& router.catch_all_fallback@ == self.catch_all_fallback@
                &&& forall|p: Seq<char>|
                    p != path@ ==> #[trigger] router.endpoint_at(p) == self.endpoint_at(p)
                &&& match self.endpoint_at(path@) {
                    Option::None => router.endpoint_at(path@) == Some(
                        EndpointView::MethodRouter(method_router@),
                    ),
                    Option::Some(EndpointView::MethodRouter(prev)) => router.endpoint_at(path@)
                        == Some(EndpointView::MethodRouter(merge_tables(prev, method_router@))),
                    Option::Some(EndpointView::Route(_)) => false,
                }
            },
            self.endpoint_at(path@) matches Some(EndpointView::MethodRouter(prev)) ==> (
            updated is Ok <==> tables_mergeable(prev, method_router@)),
            self.endpoint_at(path@) matches Some(EndpointView::Route(_)) ==> updated is Err,
            self.endpoint_at(path@) is None ==> ((updated is Ok) <==> (brace_count(
                encode_utf8(path@),
            ) <= MOST_PATTERN_PARAMETERS && trie_accepts(self.node.inner, path@))),
            self.endpoint_at(path@) is None && updated is Err ==> updated matches Err(
                RoutingError::InvalidPath { .. },
            ),
            updated matches Err(RoutingError::OverlappingMethod { path: p, .. }) ==> (p matches
                Some(s) && s@ == path@),
    {
        let owned = path.to_owned();
        let mut this = self;
        match this.node.find(&owned) {
            Option::Some(id) => {
                proof {
                    assert(trie_entries(this.node.inner).contains_key(path@));
                    assert(trie_entries(this.node.inner)[path@] == id);
                }
                let mut taken = Endpoint::Route(Route::new(ServiceKind::NotFound));
                this.routes.set_and_swap(id, &mut taken);
                match taken {
                    Endpoint::MethodRouter(prev) => {
                        match prev.merge_for_path(method_router) {
                            Result::Ok(merged) => {
                                this.routes.set(id, Endpoint::MethodRouter(merged));
                                proof {
                                    assert forall|p: Seq<char>| p != path@ implies
                                        #[trigger] this.endpoint_at(p) == self.endpoint_at(p) by {
                                        if trie_entries(self.node.inner).contains_key(p) {
                                            assert(trie_entries(self.node.inner)[p] != id);
                                        }
                                    }
                                }
                                Ok(this)
                            },
                            Result::Err(error) => Err(name_overlap_path(error, path)),
                        }
                    },
                    Endpoint::Route(_) => Err(RoutingError::OccupiedPath),
                }
            },
            Option::None => {
                proof {
                    if trie_entries(this.node.inner).contains_key(path@) {
                        let idx = trie_entries(this.node.inner)[path@] as int;
                        assert(this.node.paths@[idx]@ == path@);
                    }
                }
                let id = this.routes.len();
                match this.node.insert(path, RouteId(id)) {
                    Result::Ok(()) => {
                        this.routes.push(Endpoint::MethodRouter(method_router));
                        proof {
                            assert(paths_view(this.node.paths@).len() == this.node.paths@.len());
                            assert forall|p: Seq<char>| p != path@ implies
                                #[trigger] this.endpoint_at(p) == self.endpoint_at(p) by {
                                if trie_entries(self.node.inner).contains_key(p) {
                                    assert(trie_entries(self.node.inner)[p] < id);
                                }
                            }
                        }
                        Ok(this)
                    },
                    Result::Err(error) => Err(RoutingError::InvalidPath { reason: error }),
                }
            },
        }
    }

    /// Register one route, answering every method, under a fresh path
    /// pattern. A pattern that is already registered cannot take it.
    pub fn route_service(self, path: &str, route: Route) -> (updated: Result<
        Router,
        RoutingError,
    >)
        requires
            self.wf(),
        ensures
            updated matches Ok(router) ==> {
                &&& router.wf()
                &&& router.default_fallback == self.default_fallback
                &&& router.catch_all_fallback@ == self.catch_all_fallback@
                &&& self.endpoint_at(path@) is None
                &&& router.endpoint_at(path@) == Some(EndpointView::Route(route@))
                &&& forall|p: Seq<char>|
                    p != path@ ==> #[trigger] router.endpoint_at(p) == self.endpoint_at(p)
            },
            self.endpoint_at(path@) is Some ==> updated is Err,
            self.endpoint_at(path@) is None ==> ((updated is Ok) <==> (brace_count(
                encode_utf8(path@),
            ) <= MOST_PATTERN_PARAMETERS && trie_accepts(self.node.inner, path@))),
            self.endpoint_at(path@) is None && updated is Err ==> updated matches Err(
                RoutingError::InvalidPath { .. },
            ),
    {
        let owned = path.to_owned();
        let mut this = self;
        match this.node.find(&owned) {
            Option::Some(_) => Err(RoutingError::OccupiedPath),
            Option::None => {
                proof {
                    if trie_entries(this.node.inner).contains_key(path@) {
                        let idx = trie_entries(this.node.inner)[path@] as int;
                        assert(this.node.paths@[idx]@ == path@);
                    }
                }
                let id = this.routes.len();
                match this.node.insert(path, RouteId(id)) {
                    Result::Ok(()) => {
                        this.routes.push(Endpoint::Route(route));
                        proof {
                            assert(paths_view(this.node.paths@).len() == this.node.paths@.len());
                            assert forall|p: Seq<char>| p != path@ implies
                                #[trigger] this.endpoint_at(p) == self.endpoint_at(p) by {
                                if trie_entries(self.node.inner).contains_key(p) {
                                    assert(trie_entries(self.node.inner)[p] < id);
                                }
                            }
                        }
                        Ok(this)
                    },
                    Result::Err(error) => Err(RoutingError::InvalidPath { reason: error }),
                }
            },
        }
    }

    /// Choose the catch-all answer for requests no pattern matches: the
    /// handler overrides the built-in default.
    pub fn fallback(self, handler: u64) -> (router: Router)
        ensures
            router.routes == self.routes,
            router.node == self.node,
            !router.default_fallback,
            router.catch_all_fallback@ == FallbackView::BoxedHandler(
                BoxedIntoRouteView {
                    handler,
                    layers: Seq::<crate::route::LayerView>::empty(),
                },
            ),
            self.wf() ==> router.wf(),
            forall|p: Seq<char>| #[trigger] router.endpoint_at(p) == self.endpoint_at(p),
    {
        Router {
            routes: self.routes,
            node: self.node,
            default_fallback: false,
            catch_all_fallback: Fallback::BoxedHandler(BoxedIntoRoute::from_handler(handler)),
        }
    }
}


/// A request with the captured path parameters filled in.
pub open spec fn with_params(req: ReqView, params: Seq<(Seq<char>, Seq<char>)>) -> ReqView {
    ReqView { parts: PartsView { params, ..req.parts }, ..req }
}

/// What dispatching a request through the router comes to, given what the
/// pattern engine made of its path: the matched endpoint dispatches a
/// request carrying the captured parameters; an unmatched path goes to the
/// catch-all fallback.
pub open spec fn dispatch_plan(
    router: Router,
    req: ReqView,
    matched: Option<(usize, Seq<(Seq<char>, Seq<char>)>)>,
) -> RoutePlan {
    match matched {
        Some(hit) => {
            let req2 = with_params(req, hit.1);
            if hit.0 < router.routes@.len() {
                match router.routes@[hit.0 as int] {
                    Endpoint::MethodRouter(table) => method_plan(table@, req2),
                    Endpoint::Route(route) => route_plan(route@, false, req2),
                }
            } else {
                arbitrary()
            }
        },
        None => route_plan(fallback_route(router.catch_all_fallback@), false, req),
    }
}

impl Router {
    /// Wrap every registered endpoint and the catch-all fallback in one more
    /// interceptor. Paths and matching stand as they are.
    pub fn layer(self, layer: &Layer) -> (layered: Router)
        requires
            self.wf(),
        ensures
            layered.wf(),
            layered.node == self.node,
            layered.default_fallback == self.default_fallback,
            layered.catch_all_fallback@ == fallback_layer_spec(self.catch_all_fallback@, layer@),
            layered.routes@.len() == self.routes@.len(),
            forall|i: int|
                0 <= i < self.routes@.len() ==> #[trigger] layered.routes@[i]@
                    == endpoint_layer_spec(self.routes@[i]@, layer@),
    {
        let ghost orig = routes_view(self.routes@);
        let mut rest = self.routes;
        let mut mapped: Vec<Endpoint> = Vec::new();
        let mut i: usize = 0;
        while i < rest.len()
            invariant
                orig.len() == rest@.len(),
                0 <= i <= rest@.len(),
                mapped@.len() == i,
                forall|j: int| i <= j < rest@.len() ==> #[trigger] rest@[j]@ == orig[j],
                forall|j: int|
                    0 <= j < i ==> #[trigger] mapped@[j]@ == endpoint_layer_spec(orig[j], layer@),
            decreases rest@.len() - i,
        {
            let mut taken = Endpoint::Route(Route::new(ServiceKind::NotFound));
            rest.set_and_swap(i, &mut taken);
            mapped.push(taken.layer(layer));
            i = i + 1;
        }
        Router {
            routes: mapped,
            node: self.node,
            default_fallback: self.default_fallback,
            catch_all_fallback: self.catch_all_fallback.map(layer.clone()),
        }
    }

    /// Wrap every registered endpoint — but not the fallback — in one more
    /// interceptor.
    pub fn route_layer(self, layer: &Layer) -> (layered: Router)
        requires
            self.wf(),
        ensures
            layered.wf(),
            layered.node == self.node,
            layered.default_fallback == self.default_fallback,
            layered.catch_all_fallback@ == self.catch_all_fallback@,
            layered.routes@.len() == self.routes@.len(),
            forall|i: int|
                0 <= i < self.routes@.len() ==> #[trigger] layered.routes@[i]@
                    == endpoint_layer_spec(self.routes@[i]@, layer@),
    {
        let ghost orig = routes_view(self.routes@);
        let mut rest = self.routes;
        let mut mapped: Vec<Endpoint> = Vec::new();
        let mut i: usize = 0;
        while i < rest.len()
            invariant
                orig.len() == rest@.len(),
                0 <= i <= rest@.len(),
                mapped@.len() == i,
                forall|j: int| i <= j < rest@.len() ==> #[trigger] rest@[j]@ == orig[j],
                forall|j: int|
                    0 <= j < i ==> #[trigger] mapped@[j]@ == endpoint_layer_spec(orig[j], layer@),
            decreases rest@.len() - i,
        {
            let mut taken = Endpoint::Route(Route::new(ServiceKind::NotFound));
            rest.set_and_swap(i, &mut taken);
            mapped.push(taken.layer(layer));
            i = i + 1;
        }
        Router {
            routes: mapped,
            node: self.node,
            default_fallback: self.default_fallback,
            catch_all_fallback: self.catch_all_fallback,
        }
    }

    /// The one-time transition out of the building phase: application state
    /// is bound, every deferred handler in every endpoint and in the
    /// fallback becomes a concrete route. Binding twice changes nothing
    /// more.
    pub fn with_state(self) -> (bound: Router)
        requires
            self.wf(),
        ensures
            bound.wf(),
            bound.node == self.node,
            bound.default_fallback == self.default_fallback,
            bound.catch_all_fallback@ == fallback_bind_spec(self.catch_all_fallback@),
            bound.routes@.len() == self.routes@.len(),
            forall|i: int|
                0 <= i < self.routes@.len() ==> #[trigger] bound.routes@[i]@
                    == endpoint_bind_spec(self.routes@[i]@),
    {
        let ghost orig = routes_view(self.routes@);
        let mut rest = self.routes;
        let mut mapped: Vec<Endpoint> = Vec::new();
        let mut i: usize = 0;
        while i < rest.len()
            invariant
                orig.len() == rest@.len(),
                0 <= i <= rest@.len(),
                mapped@.len() == i,
                forall|j: int| i <= j < rest@.len() ==> #[trigger] rest@[j]@ == orig[j],
                forall|j: int|
                    0 <= j < i ==> #[trigger] mapped@[j]@ == endpoint_bind_spec(orig[j]),
            decreases rest@.len() - i,
        {
            let mut taken = Endpoint::Route(Route::new(ServiceKind::NotFound));
            rest.set_and_swap(i, &mut taken);
            mapped.push(taken.with_state());
            i = i + 1;
        }
        Router {
            routes: mapped,
            node: self.node,
            default_fallback: self.default_fallback,
            catch_all_fallback: self.catch_all_fallback.with_state(),
        }
    }

    /// Dispatch one request: resolve its path through the pattern engine,
    /// hand the request — with the captured parameters filled in — to the
    /// matched endpoint, or to the catch-all fallback when nothing matches.
    /// `invoke` runs whatever deferred handler the dispatch settles on; it
    /// is called at most once. A path that equals a registered literal
    /// pattern is guaranteed to reach that pattern's endpoint.
    pub fn call_with_state<F: FnOnce(u64, Request) -> Response>(&self, req: Request, invoke: F) -> (resp: Response)
        requires
            self.wf(),
            forall|handler: u64, handed: Request| call_requires(invoke, (handler, handed)),
        ensures
            plan_allows(
                invoke,
                dispatch_plan(*self, req@, trie_match(self.node.inner, req@.parts.path)),
                resp@,
            ),
            trie_entries(self.node.inner).contains_key(req@.parts.path) && is_literal_route(
                req@.parts.path,
            ) ==> plan_allows(
                invoke,
                dispatch_plan(
                    *self,
                    req@,
                    Some(
                        (
                            trie_entries(self.node.inner)[req@.parts.path],
                            Seq::<(Seq<char>, Seq<char>)>::empty(),
                        ),
                    ),
                ),
                resp@,
            ),
    {
        let found = self.node.at(req.parts.path.as_str());
        match found {
            Option::Some((id, params)) => {
                proof {
                    if params@.len() == 0 {
                        assert(crate::request::pairs_view(params@) =~= Seq::<
                            (Seq<char>, Seq<char>),
                        >::empty());
                    }
                }
                let ghost pv = crate::request::pairs_view(params@);
                let ghost rv = req@;
                if id < self.routes.len() {
                    let mut req2 = req;
                    req2.parts.params = params;
                    proof {
                        assert(req2@ =~= with_params(rv, pv));
                    }
                    match &self.routes[id] {
                        Endpoint::MethodRouter(table) => table.call_with_state(req2, invoke),
                        Endpoint::Route(route) => run_route(
                            route.kind,
                            &route.layers,
                            false,
                            req2,
                            invoke,
                        ),
                    }
                } else {
                    proof {
                        assert(false);
                    }
                    let empty: Vec<Layer> = Vec::new();
                    run_route(ServiceKind::NotFound, &empty, false, req, invoke)
                }
            },
            Option::None => {
                match &self.catch_all_fallback {
                    Fallback::Default(route) => run_route(
                        route.kind,
                        &route.layers,
                        false,
                        req,
                        invoke,
                    ),
                    Fallback::Service(route) => run_route(
                        route.kind,
                        &route.layers,
                        false,
                        req,
                        invoke,
                    ),
                    Fallback::BoxedHandler(deferred) => run_route(
                        ServiceKind::CallHandler { handler: deferred.handler },
                        &deferred.layers,
                        false,
                        req,
                        invoke,
                    ),
                }
            },
        }
    }
}


/// Whether one of the first `count` patterns of a router reads as `path`.
pub open spec fn prefix_has(router: Router, count: int, path: Seq<char>) -> bool {
    exists|j: int| 0 <= j < count && #[trigger] router.node.paths@[j]@ == path
}

/// What a merged router must answer under a path both sides know about:
/// whichever side registered the path supplies the endpoint; a path both
/// sides registered carries the slot-by-slot merge of two method tables.
pub open spec fn union_endpoint(
    ours: Router,
    theirs: Router,
    merged: Router,
    path: Seq<char>,
) -> bool {
    match ours.endpoint_at(path) {
        Option::None => merged.endpoint_at(path) == theirs.endpoint_at(path),
        Option::Some(EndpointView::MethodRouter(prev)) => match theirs.endpoint_at(path) {
            Option::Some(EndpointView::MethodRouter(table)) => tables_mergeable(prev, table)
                && merged.endpoint_at(path) == Some(
                EndpointView::MethodRouter(merge_tables(prev, table)),
            ),
            _ => false,
        },
        Option::Some(EndpointView::Route(_)) => false,
    }
}

/// The same error, with the path it arose on attached where the error names
/// an overlapping method.
fn name_overlap_path(error: RoutingError, path: &str) -> (named: RoutingError)
    ensures
        error matches RoutingError::OverlappingMethod { method, .. } ==> (named matches
            RoutingError::OverlappingMethod { method: m, path: p } && m == method && (p matches
            Some(s) && s@ == path@)),
        !(error matches RoutingError::OverlappingMethod { .. }) ==> named == error,
{
    match error {
        RoutingError::OverlappingMethod { method, path: _ } => RoutingError::OverlappingMethod {
            method,
            path: Some(path.to_owned()),
        },
        other => other,
    }
}

/// One position of `theirs` whose path `ours` already serves with a method
/// table that the table at that position can merge into.
pub open spec fn shared_mergeable_at(ours: Router, theirs: Router, j: int) -> bool {
    match ours.endpoint_at(theirs.node.paths@[j]@) {
        Option::Some(EndpointView::MethodRouter(prev)) => match theirs.routes@[j]@ {
            EndpointView::MethodRouter(table) => tables_mergeable(prev, table),
            EndpointView::Route(_) => false,
        },
        _ => false,
    }
}

/// When a merge owes success: every path of `theirs` is already served by
/// `ours` with a method table its own table can merge into, and at most one
/// side chose an explicit catch-all — nothing is left that could go wrong.
pub open spec fn all_shared_mergeable(ours: Router, theirs: Router) -> bool {
    &&& (ours.catch_all_fallback@ is Default || theirs.catch_all_fallback@ is Default)
    &&& forall|j: int|
        0 <= j < theirs.routes@.len() ==> #[trigger] shared_mergeable_at(ours, theirs, j)
}

impl Router {
    /// Merge another router into this one: every endpoint of `other` is
    /// registered here under its original path, merging method tables where
    /// a path is shared; the catch-all fallbacks merge with the built-in
    /// default yielding, and two explicit catch-alls are a fatal
    /// construction error.
    #[verifier::loop_isolation(false)]
    pub fn merge(self, other: Router) -> (merged: Result<Router, RoutingError>)
        requires
            self.wf(),
            other.wf(),
        ensures
            merged matches Ok(out) ==> {
                &&& out.wf()
                &&& forall|p: Seq<char>|
                    !trie_entries(other.node.inner).contains_key(p)
                        ==> #[trigger] out.endpoint_at(p) == self.endpoint_at(p)
                &&& forall|p: Seq<char>|
                    #[trigger] trie_entries(other.node.inner).contains_key(p) ==> union_endpoint(
                        self,
                        other,
                        out,
                        p,
                    )
                &&& out.default_fallback == (self.default_fallback && other.default_fallback)
                &&& (self.catch_all_fallback@ is Default ==> out.catch_all_fallback@
                    == other.catch_all_fallback@)
                &&& (!(self.catch_all_fallback@ is Default) ==> other.catch_all_fallback@
                    is Default && out.catch_all_fallback@ == self.catch_all_fallback@)
            },
            !self.default_fallback && !other.default_fallback ==> merged is Err,
            all_shared_mergeable(self, other) ==> merged is Ok,
    {
        let ghost oself = self;
        let ghost oother = other;
        let mut this = self;
        let mut source = other;
        let mut i: usize = 0;
        while i < source.routes.len()
            invariant
                oself.wf(),
                oother.wf(),
                this.wf(),
                source.node == oother.node,
                source.routes@.len() == oother.routes@.len(),
                0 <= i <= source.routes@.len(),
                forall|j: int|
                    i <= j < source.routes@.len() ==> #[trigger] source.routes@[j]@
                        == oother.routes@[j]@,
                this.default_fallback == oself.default_fallback,
                this.catch_all_fallback@ == oself.catch_all_fallback@,
                source.default_fallback == oother.default_fallback,
                source.catch_all_fallback@ == oother.catch_all_fallback@,
                forall|p: Seq<char>|
                    !prefix_has(oother, i as int, p) ==> #[trigger] this.endpoint_at(p)
                        == oself.endpoint_at(p),
                forall|p: Seq<char>|
                    #[trigger] prefix_has(oother, i as int, p) ==> union_endpoint(
                        oself,
                        oother,
                        this,
                        p,
                    ),
            decreases source.routes@.len() - i,
        {
            let mut taken = Endpoint::Route(Route::new(ServiceKind::NotFound));
            source.routes.set_and_swap(i, &mut taken);
            let ghost takenv = taken@;
            let ghost pview = oother.node.paths@[i as int]@;
            proof {
                assert(takenv == oother.routes@[i as int]@);
                assert(trie_entries(oother.node.inner).contains_key(pview));
                assert(trie_entries(oother.node.inner)[pview] == i);
                assert(oother.endpoint_at(pview) == Some(oother.routes@[i as int]@));
                assert forall|j: int| 0 <= j < i implies oother.node.paths@[j]@ != pview by {
                    assert(trie_entries(oother.node.inner)[oother.node.paths@[j]@] == j);
                }
                assert(!prefix_has(oother, i as int, pview));
            }
            let ghost cur = this;
            let path = &source.node.paths[i];
            proof {
                assert(path@ == pview);
            }
            match taken {
                Endpoint::MethodRouter(table) => {
                    let ghost tv = table@;
                    proof {
                        assert(oother.routes@[i as int]@ == EndpointView::MethodRouter(tv));
                        assert(cur.endpoint_at(pview) == oself.endpoint_at(pview));
                        assert(oother.endpoint_at(pview) == Some(EndpointView::MethodRouter(tv)));
                    }
                    match this.route(path.as_str(), table) {
                        Result::Ok(updated) => {
                            this = updated;
                            proof {
                                assert(union_endpoint(oself, oother, this, pview));
                                lemma_merge_step(oself, oother, cur, this, i as int, pview);
                            }
                        },
                        Result::Err(error) => {
                            proof {
                                if all_shared_mergeable(oself, oother) {
                                    assert(shared_mergeable_at(oself, oother, i as int));
                                    assert(false);
                                }
                            }
                            return Err(error);
                        },
                    }
                },
                Endpoint::Route(route) => {
                    let ghost rv = route@;
                    proof {
                        assert(oother.routes@[i as int]@ == EndpointView::Route(rv));
                        assert(cur.endpoint_at(pview) == oself.endpoint_at(pview));
                        assert(oother.endpoint_at(pview) == Some(EndpointView::Route(rv)));
                    }
                    match this.route_service(path.as_str(), route) {
                        Result::Ok(updated) => {
                            this = updated;
                            proof {
                                if all_shared_mergeable(oself, oother) {
                                    assert(shared_mergeable_at(oself, oother, i as int));
                                    assert(false);
                                }
                                assert(this.endpoint_at(pview) == Some(EndpointView::Route(rv)));
                                assert(union_endpoint(oself, oother, this, pview));
                                lemma_merge_step(oself, oother, cur, this, i as int, pview);
                            }
                        },
                        Result::Err(error) => {
                            proof {
                                if all_shared_mergeable(oself, oother) {
                                    assert(shared_mergeable_at(oself, oother, i as int));
                                    assert(false);
                                }
                            }
                            return Err(error);
                        },
                    }
                },
            }
            i = i + 1;
        }
        let ghost fin = this;
        let default_fallback = this.default_fallback && source.default_fallback;
        let Router { routes, node, default_fallback: _, catch_all_fallback } = this;
        match catch_all_fallback.merge(source.catch_all_fallback) {
            Option::Some(fallback) => {
                let out = Router { routes, node, default_fallback, catch_all_fallback: fallback };
                proof {
                    assert(out.routes == fin.routes && out.node == fin.node);
                    assert forall|p: Seq<char>| #[trigger] out.endpoint_at(p) == fin.endpoint_at(
                        p,
                    ) by {}
                    assert forall|p: Seq<char>|
                        #[trigger] trie_entries(oother.node.inner).contains_key(p) implies
                        prefix_has(oother, oother.routes@.len() as int, p) by {
                        let idx = trie_entries(oother.node.inner)[p] as int;
                        assert(oother.node.paths@[idx]@ == p);
                    }
                    assert forall|p: Seq<char>|
                        prefix_has(oother, oother.routes@.len() as int, p) implies #[trigger]
                        trie_entries(oother.node.inner).contains_key(p) by {
                        let j = choose|j: int|
                            0 <= j < oother.routes@.len() && oother.node.paths@[j]@ == p;
                        assert(trie_entries(oother.node.inner).contains_key(
                            oother.node.paths@[j]@,
                        ));
                    }
                    assert(out.wf());
                }
                Ok(out)
            },
            Option::None => {
                proof {
                    if all_shared_mergeable(oself, oother) {
                        assert(false);
                    }
                }
                Err(RoutingError::ConflictingFallback)
            },
        }
    }
}

/// One step of a router merge keeps the union shape: after registering the
/// pattern at position `i` of `theirs` into `cur`, giving `next`, the first
/// `i + 1` patterns follow the union rule and everything else is untouched.
proof fn lemma_merge_step(
    oself: Router,
    oother: Router,
    cur: Router,
    next: Router,
    i: int,
    pview: Seq<char>,
)
    requires
        oself.wf(),
        oother.wf(),
        0 <= i < oother.routes@.len(),
        oother.node.paths@[i]@ == pview,
        forall|p: Seq<char>|
            !prefix_has(oother, i, p) ==> #[trigger] cur.endpoint_at(p) == oself.endpoint_at(p),
        forall|p: Seq<char>|
            #[trigger] prefix_has(oother, i, p) ==> union_endpoint(oself, oother, cur, p),
        !prefix_has(oother, i, pview),
        forall|p: Seq<char>| p != pview ==> #[trigger] next.endpoint_at(p) == cur.endpoint_at(p),
        union_endpoint(oself, oother, next, pview),
    ensures
        forall|p: Seq<char>|
            !prefix_has(oother, i + 1, p) ==> #[trigger] next.endpoint_at(p) == oself.endpoint_at(
                p,
            ),
        forall|p: Seq<char>|
            #[trigger] prefix_has(oother, i + 1, p) ==> union_endpoint(oself, oother, next, p),
{
    assert forall|p: Seq<char>| !prefix_has(oother, i + 1, p) implies #[trigger] next.endpoint_at(
        p,
    ) == oself.endpoint_at(p) by {
        assert(!prefix_has(oother, i, p));
        assert(p != pview);
    }
    assert forall|p: Seq<char>| #[trigger] prefix_has(oother, i + 1, p) implies union_endpoint(
        oself,
        oother,
        next,
        p,
    ) by {
        if p != pview {
            assert(prefix_has(oother, i, p));
            assert(union_endpoint(oself, oother, cur, p));
            assert(next.endpoint_at(p) == cur.endpoint_at(p));
        }
    }
}

impl Clone for Router {
    fn clone(&self) -> (other: Router)
        ensures
            trie_entries(other.node.inner) == trie_entries(self.node.inner),
            forall|p: Seq<char>|
                #[trigger] trie_match(other.node.inner, p) == trie_match(self.node.inner, p),
            paths_view(other.node.paths@) == paths_view(self.node.paths@),
            other.routes@.len() == self.routes@.len(),
            forall|i: int|
                0 <= i < self.routes@.len() ==> #[trigger] other.routes@[i]@ == self.routes@[i]@,
            other.default_fallback == self.default_fallback,
            other.catch_all_fallback@ == self.catch_all_fallback@,
            self.wf() ==> other.wf(),
    {
        let mut routes: Vec<Endpoint> = Vec::new();
        let mut i: usize = 0;
        while i < self.routes.len()
            invariant
                0 <= i <= self.routes@.len(),
                routes@.len() == i,
                forall|j: int| 0 <= j < i ==> #[trigger] routes@[j]@ == self.routes@[j]@,
            decreases self.routes@.len() - i,
        {
            routes.push(self.routes[i].clone());
            i = i + 1;
        }
        let node = self.node.clone();
        let other = Router {
            routes,
            node,
            default_fallback: self.default_fallback,
            catch_all_fallback: self.catch_all_fallback.clone(),
        };
        proof {
            if self.wf() {
                assert forall|i2: int| 0 <= i2 < other.node.paths@.len() implies trie_entries(
                    other.node.inner,
                ).contains_key(#[trigger] other.node.paths@[i2]@) && trie_entries(
                    other.node.inner,
                )[other.node.paths@[i2]@] == i2 by {
                    assert(other.node.paths@[i2]@ == paths_view(other.node.paths@)[i2]);
                    assert(self.node.paths@[i2]@ == paths_view(self.node.paths@)[i2]);
                }
                assert forall|p: Seq<char>| #[trigger] trie_entries(
                    other.node.inner,
                ).contains_key(p) implies trie_entries(other.node.inner)[p]
                    < other.node.paths@.len() && other.node.paths@[trie_entries(
                    other.node.inner,
                )[p] as int]@ == p by {
                    let idx = trie_entries(self.node.inner)[p] as int;
                    assert(other.node.paths@[idx]@ == paths_view(other.node.paths@)[idx]);
                    assert(self.node.paths@[idx]@ == paths_view(self.node.paths@)[idx]);
                }
            }
        }
        other
    }
}

} // verus!
