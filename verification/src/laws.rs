use vstd::prelude::*;

use crate::extract::{FromRequest, FromRequestParts};
use crate::handler::{handler1_response, handler2_response, handler3_response,
    handler4_response, handler5_response, handler6_response, handler7_response,
    handler8_response};
use crate::http::{Method, STATUS_METHOD_NOT_ALLOWED};
use crate::method_router::{
    method_plan, slot_occupied, slot_route, table_slot, tables_conflict, tables_mergeable,
    MethodRouterView,
};
use crate::request::ReqView;
use crate::response::{plain_view, IntoResponse, RespView};
use crate::route::{
    deferred_route, finish_call, post_chain, route_plan, BoxedIntoRouteView, FallbackView,
    LayerView, RoutePlan, RouteView, ServiceKind,
};
use crate::router::{dispatch_plan, union_endpoint, EndpointView, Router};
use crate::trie::{is_literal_route, trie_entries};

verus! {

/// A request whose exact method is bound on a table reaches the handler
/// registered there and nothing else: the dispatch owes one call to that
/// very handler, with the response body kept whole.
pub proof fn lemma_exact_method_reaches_handler(
    table: MethodRouterView,
    req: ReqView,
    deferred: BoxedIntoRouteView,
)
    requires
        table_slot(table, req.parts.method) == crate::method_router::MethodEndpointView::BoxedHandler(deferred),
    ensures
        method_plan(table, req) == route_plan(deferred_route(deferred), false, req),
        method_plan(table, req) matches RoutePlan::Call(pending) && pending.handler
            == deferred.handler && !pending.strip_body,
{
}

/// Any other method on the same path — one whose slot is empty and which is
/// not a HEAD request served through GET — is answered by the table's
/// built-in not-allowed fallback, never by a handler.
pub proof fn lemma_other_method_not_allowed(table: MethodRouterView, req: ReqView)
    requires
        table_slot(table, req.parts.method) is Empty,
        !(req.parts.method == Method::Head && slot_occupied(table.get)),
        table.fallback == FallbackView::Default(
            RouteView { kind: ServiceKind::NotAllowed, layers: Seq::<LayerView>::empty() },
        ),
    ensures
        method_plan(table, req) == (RoutePlan::Done {
            resp: plain_view(STATUS_METHOD_NOT_ALLOWED, Seq::empty()),
        }),
{
    assert(post_chain(
        Seq::<LayerView>::empty(),
        plain_view(STATUS_METHOD_NOT_ALLOWED, Seq::empty()),
    ) == plain_view(STATUS_METHOD_NOT_ALLOWED, Seq::empty()));
}

/// Two tables that both bind the same method cannot merge, in either order:
/// registering a method twice on one path is refused whatever came first.
pub proof fn lemma_duplicate_method_conflicts(
    ours: MethodRouterView,
    theirs: MethodRouterView,
    method: Method,
)
    requires
        slot_occupied(table_slot(ours, method)),
        slot_occupied(table_slot(theirs, method)),
    ensures
        tables_conflict(ours, theirs),
        tables_conflict(theirs, ours),
        !tables_mergeable(ours, theirs),
        !tables_mergeable(theirs, ours),
{
    assert(crate::method_router::slots_conflict(
        table_slot(ours, method),
        table_slot(theirs, method),
    ));
    assert(crate::method_router::slots_conflict(
        table_slot(theirs, method),
        table_slot(ours, method),
    ));
}

/// Merging routers that share no path yields the union of their route
/// tables: every path registered in either router answers in the merged
/// router exactly as it did where it came from, and a path registered in
/// neither stays unrouted. The hypotheses are what `Router::merge`
/// guarantees of its result, plus the disjointness.
pub proof fn lemma_merge_disjoint_union(ours: Router, theirs: Router, merged: Router, p: Seq<char>)
    requires
        forall|q: Seq<char>|
            !trie_entries(theirs.node.inner).contains_key(q) ==> #[trigger] merged.endpoint_at(q)
                == ours.endpoint_at(q),
        forall|q: Seq<char>|
            #[trigger] trie_entries(theirs.node.inner).contains_key(q) ==> union_endpoint(
                ours,
                theirs,
                merged,
                q,
            ),
        forall|q: Seq<char>|
            !(#[trigger] trie_entries(ours.node.inner).contains_key(q) && trie_entries(
                theirs.node.inner,
            ).contains_key(q)),
    ensures
        trie_entries(ours.node.inner).contains_key(p) ==> merged.endpoint_at(p)
            == ours.endpoint_at(p),
        trie_entries(theirs.node.inner).contains_key(p) ==> merged.endpoint_at(p)
            == theirs.endpoint_at(p),
        !trie_entries(ours.node.inner).contains_key(p) && !trie_entries(
            theirs.node.inner,
        ).contains_key(p) ==> merged.endpoint_at(p) is None,
{
    if trie_entries(theirs.node.inner).contains_key(p) {
        assert(union_endpoint(ours, theirs, merged, p));
        assert(ours.endpoint_at(p) is None);
    }
}

/// A GET handler with no explicit HEAD handler answers HEAD requests on the
/// path: the dispatch owes the GET endpoint's handler a call, and whatever
/// that handler answers, the response out of the chain keeps its status and
/// headers and carries an empty body.
pub proof fn lemma_head_answered_by_get(table: MethodRouterView, req: ReqView, hresp: RespView)
    requires
        req.parts.method == Method::Head,
        table.head is Empty,
        slot_occupied(table.get),
    ensures
        method_plan(table, req) == route_plan(slot_route(table.get), true, req),
        method_plan(table, req) matches RoutePlan::Call(pending) ==> {
            &&& finish_call(pending, hresp).status == post_chain(pending.layers, hresp).status
            &&& finish_call(pending, hresp).headers == post_chain(pending.layers, hresp).headers
            &&& finish_call(pending, hresp).body == Seq::<Seq<u8>>::empty()
        },
{
}

/// A failing extractor never lets a one-parameter bound function run: the
/// response is exactly the rejection's, whatever the function would have
/// answered — and it is still a response.
pub proof fn lemma_rejection_short_circuits1<T1: FromRequest, R: IntoResponse, F: FnOnce(T1) -> R>(
    handler: F,
    req: ReqView,
    resp: RespView,
)
    requires
        handler1_response::<T1, R, F>(handler, req, resp),
    ensures
        !T1::accepts_req(req) ==> resp == T1::rejection_from_req(req),
{
}

/// The first failing extractor of a two-parameter bound function
/// short-circuits: the response is exactly that rejection's, whatever the
/// function would have answered — and it is still a response.
pub proof fn lemma_rejection_short_circuits2<
    T1: FromRequestParts,
    T2: FromRequest,
    R: IntoResponse,
    F: FnOnce(T1, T2) -> R,
>(handler: F, req: ReqView, resp: RespView)
    requires
        handler2_response::<T1, T2, R, F>(handler, req, resp),
    ensures
        !T1::accepts(req.parts) ==> resp == T1::rejection_view(req.parts),
        T1::accepts(req.parts) && !T2::accepts_req(
            ReqView { parts: T1::parts_after(req.parts), body: req.body },
        ) ==> resp == T2::rejection_from_req(
            ReqView { parts: T1::parts_after(req.parts), body: req.body },
        ),
{
}

/// The first failing extractor of a three-parameter bound function
/// short-circuits, whichever of the three it is: the response is exactly
/// that rejection's, the later extractors and the function never run — and
/// it is still a response.
pub proof fn lemma_rejection_short_circuits3<
    T1: FromRequestParts,
    T2: FromRequestParts,
    T3: FromRequest,
    R: IntoResponse,
    F: FnOnce(T1, T2, T3) -> R,
>(handler: F, req: ReqView, resp: RespView)
    requires
        handler3_response::<T1, T2, T3, R, F>(handler, req, resp),
    ensures
        !T1::accepts(req.parts) ==> resp == T1::rejection_view(req.parts),
        T1::accepts(req.parts) && !T2::accepts(T1::parts_after(req.parts)) ==> resp
            == T2::rejection_view(T1::parts_after(req.parts)),
        T1::accepts(req.parts) && T2::accepts(T1::parts_after(req.parts)) && !T3::accepts_req(
            ReqView {
                parts: T2::parts_after(T1::parts_after(req.parts)),
                body: req.body,
            },
        ) ==> resp == T3::rejection_from_req(
            ReqView {
                parts: T2::parts_after(T1::parts_after(req.parts)),
                body: req.body,
            },
        ),
{
}

/// The first failing extractor of a four-parameter bound function
/// short-circuits, whichever position it holds: the response is exactly
/// that rejection's, the later extractors and the function never run — and
/// it is still a response.
pub proof fn lemma_rejection_short_circuits4<
    T1: FromRequestParts,
    T2: FromRequestParts,
    T3: FromRequestParts,
    T4: FromRequest,
    R: IntoResponse,
    F: FnOnce(T1, T2, T3, T4) -> R,
>(handler: F, req: ReqView, resp: RespView)
    requires
        handler4_response::<T1, T2, T3, T4, R, F>(handler, req, resp),
    ensures
        !T1::accepts(req.parts) ==> resp == T1::rejection_view(req.parts),
        T1::accepts(req.parts) && !T2::accepts(T1::parts_after(req.parts)) ==> resp == T2::rejection_view(T1::parts_after(req.parts)),
        T1::accepts(req.parts) && T2::accepts(T1::parts_after(req.parts)) && !T3::accepts(T2::parts_after(T1::parts_after(req.parts))) ==> resp == T3::rejection_view(T2::parts_after(T1::parts_after(req.parts))),
        T1::accepts(req.parts) && T2::accepts(T1::parts_after(req.parts)) && T3::accepts(T2::parts_after(T1::parts_after(req.parts))) && !T4::accepts_req(ReqView { parts: T3::parts_after(T2::parts_after(T1::parts_after(req.parts))), body: req.body }) ==> resp == T4::rejection_from_req(ReqView { parts: T3::parts_after(T2::parts_after(T1::parts_after(req.parts))), body: req.body }),
{
}

/// The first failing extractor of a five-parameter bound function
/// short-circuits, whichever position it holds: the response is exactly
/// that rejection's, the later extractors and the function never run — and
/// it is still a response.
pub proof fn lemma_rejection_short_circuits5<
    T1: FromRequestParts,
    T2: FromRequestParts,
    T3: FromRequestParts,
    T4: FromRequestParts,
    T5: FromRequest,
    R: IntoResponse,
    F: FnOnce(T1, T2, T3, T4, T5) -> R,
>(handler: F, req: ReqView, resp: RespView)
    requires
        handler5_response::<T1, T2, T3, T4, T5, R, F>(handler, req, resp),
    ensures
        !T1::accepts(req.parts) ==> resp == T1::rejection_view(req.parts),
        T1::accepts(req.parts) && !T2::accepts(T1::parts_after(req.parts)) ==> resp == T2::rejection_view(T1::parts_after(req.parts)),
        T1::accepts(req.parts) && T2::accepts(T1::parts_after(req.parts)) && !T3::accepts(T2::parts_after(T1::parts_after(req.parts))) ==> resp == T3::rejection_view(T2::parts_after(T1::parts_after(req.parts))),
        T1::accepts(req.parts) && T2::accepts(T1::parts_after(req.parts)) && T3::accepts(T2::parts_after(T1::parts_after(req.parts))) && !T4::accepts(T3::parts_after(T2::parts_after(T1::parts_after(req.parts)))) ==> resp == T4::rejection_view(T3::parts_after(T2::parts_after(T1::parts_after(req.parts)))),
        T1::accepts(req.parts) && T2::accepts(T1::parts_after(req.parts)) && T3::accepts(T2::parts_after(T1::parts_after(req.parts))) && T4::accepts(T3::parts_after(T2::parts_after(T1::parts_after(req.parts)))) && !T5::accepts_req(ReqView { parts: T4::parts_after(T3::parts_after(T2::parts_after(T1::parts_after(req.parts)))), body: req.body }) ==> resp == T5::rejection_from_req(ReqView { parts: T4::parts_after(T3::parts_after(T2::parts_after(T1::parts_after(req.parts)))), body: req.body }),
{
}

/// The first failing extractor of a six-parameter bound function
/// short-circuits, whichever position it holds: the response is exactly
/// that rejection's, the later extractors and the function never run — and
/// it is still a response.
pub proof fn lemma_rejection_short_circuits6<
    T1: FromRequestParts,
    T2: FromRequestParts,
    T3: FromRequestParts,
    T4: FromRequestParts,
    T5: FromRequestParts,
    T6: FromRequest,
    R: IntoResponse,
    F: FnOnce(T1, T2, T3, T4, T5, T6) -> R,
>(handler: F, req: ReqView, resp: RespView)
    requires
        handler6_response::<T1, T2, T3, T4, T5, T6, R, F>(handler, req, resp),
    ensures
        !T1::accepts(req.parts) ==> resp == T1::rejection_view(req.parts),
        T1::accepts(req.parts) && !T2::accepts(T1::parts_after(req.parts)) ==> resp == T2::rejection_view(T1::parts_after(req.parts)),
        T1::accepts(req.parts) && T2::accepts(T1::parts_after(req.parts)) && !T3::accepts(T2::parts_after(T1::parts_after(req.parts))) ==> resp == T3::rejection_view(T2::parts_after(T1::parts_after(req.parts))),
        T1::accepts(req.parts) && T2::accepts(T1::parts_after(req.parts)) && T3::accepts(T2::parts_after(T1::parts_after(req.parts))) && !T4::accepts(T3::parts_after(T2::parts_after(T1::parts_after(req.parts)))) ==> resp == T4::rejection_view(T3::parts_after(T2::parts_after(T1::parts_after(req.parts)))),
        T1::accepts(req.parts) && T2::accepts(T1::parts_after(req.parts)) && T3::accepts(T2::parts_after(T1::parts_after(req.parts))) && T4::accepts(T3::parts_after(T2::parts_after(T1::parts_after(req.parts)))) && !T5::accepts(T4::parts_after(T3::parts_after(T2::parts_after(T1::parts_after(req.parts))))) ==> resp == T5::rejection_view(T4::parts_after(T3::parts_after(T2::parts_after(T1::parts_after(req.parts))))),
        T1::accepts(req.parts) && T2::accepts(T1::parts_after(req.parts)) && T3::accepts(T2::parts_after(T1::parts_after(req.parts))) && T4::accepts(T3::parts_after(T2::parts_after(T1::parts_after(req.parts)))) && T5::accepts(T4::parts_after(T3::parts_after(T2::parts_after(T1::parts_after(req.parts))))) && !T6::accepts_req(ReqView { parts: T5::parts_after(T4::parts_after(T3::parts_after(T2::parts_after(T1::parts_after(req.parts))))), body: req.body }) ==> resp == T6::rejection_from_req(ReqView { parts: T5::parts_after(T4::parts_after(T3::parts_after(T2::parts_after(T1::parts_after(req.parts))))), body: req.body }),
{
}

/// The first failing extractor of a seven-parameter bound function
/// short-circuits, whichever position it holds: the response is exactly
/// that rejection's, the later extractors and the function never run — and
/// it is still a response.
pub proof fn lemma_rejection_short_circuits7<
    T1: FromRequestParts,
    T2: FromRequestParts,
    T3: FromRequestParts,
    T4: FromRequestParts,
    T5: FromRequestParts,
    T6: FromRequestParts,
    T7: FromRequest,
    R: IntoResponse,
    F: FnOnce(T1, T2, T3, T4, T5, T6, T7) -> R,
>(handler: F, req: ReqView, resp: RespView)
    requires
        handler7_response::<T1, T2, T3, T4, T5, T6, T7, R, F>(handler, req, resp),
    ensures
        !T1::accepts(req.parts) ==> resp == T1::rejection_view(req.parts),
        T1::accepts(req.parts) && !T2::accepts(T1::parts_after(req.parts)) ==> resp == T2::rejection_view(T1::parts_after(req.parts)),
        T1::accepts(req.parts) && T2::accepts(T1::parts_after(req.parts)) && !T3::accepts(T2::parts_after(T1::parts_after(req.parts))) ==> resp == T3::rejection_view(T2::parts_after(T1::parts_after(req.parts))),
        T1::accepts(req.parts) && T2::accepts(T1::parts_after(req.parts)) && T3::accepts(T2::parts_after(T1::parts_after(req.parts))) && !T4::accepts(T3::parts_after(T2::parts_after(T1::parts_after(req.parts)))) ==> resp == T4::rejection_view(T3::parts_after(T2::parts_after(T1::parts_after(req.parts)))),
        T1::accepts(req.parts) && T2::accepts(T1::parts_after(req.parts)) && T3::accepts(T2::parts_after(T1::parts_after(req.parts))) && T4::accepts(T3::parts_after(T2::parts_after(T1::parts_after(req.parts)))) && !T5::accepts(T4::parts_after(T3::parts_after(T2::parts_after(T1::parts_after(req.parts))))) ==> resp == T5::rejection_view(T4::parts_after(T3::parts_after(T2::parts_after(T1::parts_after(req.parts))))),
        T1::accepts(req.parts) && T2::accepts(T1::parts_after(req.parts)) && T3::accepts(T2::parts_after(T1::parts_after(req.parts))) && T4::accepts(T3::parts_after(T2::parts_after(T1::parts_after(req.parts)))) && T5::accepts(T4::parts_after(T3::parts_after(T2::parts_after(T1::parts_after(req.parts))))) && !T6::accepts(T5::parts_after(T4::parts_after(T3::parts_after(T2::parts_after(T1::parts_after(req.parts)))))) ==> resp == T6::rejection_view(T5::parts_after(T4::parts_after(T3::parts_after(T2::parts_after(T1::parts_after(req.parts)))))),
        T1::accepts(req.parts) && T2::accepts(T1::parts_after(req.parts)) && T3::accepts(T2::parts_after(T1::parts_after(req.parts))) && T4::accepts(T3::parts_after(T2::parts_after(T1::parts_after(req.parts)))) && T5::accepts(T4::parts_after(T3::parts_after(T2::parts_after(T1::parts_after(req.parts))))) && T6::accepts(T5::parts_after(T4::parts_after(T3::parts_after(T2::parts_after(T1::parts_after(req.parts)))))) && !T7::accepts_req(ReqView { parts: T6::parts_after(T5::parts_after(T4::parts_after(T3::parts_after(T2::parts_after(T1::parts_after(req.parts)))))), body: req.body }) ==> resp == T7::rejection_from_req(ReqView { parts: T6::parts_after(T5::parts_after(T4::parts_after(T3::parts_after(T2::parts_after(T1::parts_after(req.parts)))))), body: req.body }),
{
}

/// The first failing extractor of a eight-parameter bound function
/// short-circuits, whichever position it holds: the response is exactly
/// that rejection's, the later extractors and the function never run — and
/// it is still a response.
pub proof fn lemma_rejection_short_circuits8<
    T1: FromRequestParts,
    T2: FromRequestParts,
    T3: FromRequestParts,
    T4: FromRequestParts,
    T5: FromRequestParts,
    T6: FromRequestParts,
    T7: FromRequestParts,
    T8: FromRequest,
    R: IntoResponse,
    F: FnOnce(T1, T2, T3, T4, T5, T6, T7, T8) -> R,
>(handler: F, req: ReqView, resp: RespView)
    requires
        handler8_response::<T1, T2, T3, T4, T5, T6, T7, T8, R, F>(handler, req, resp),
    ensures
        !T1::accepts(req.parts) ==> resp == T1::rejection_view(req.parts),
        T1::accepts(req.parts) && !T2::accepts(T1::parts_after(req.parts)) ==> resp == T2::rejection_view(T1::parts_after(req.parts)),
        T1::accepts(req.parts) && T2::accepts(T1::parts_after(req.parts)) && !T3::accepts(T2::parts_after(T1::parts_after(req.parts))) ==> resp == T3::rejection_view(T2::parts_after(T1::parts_after(req.parts))),
        T1::accepts(req.parts) && T2::accepts(T1::parts_after(req.parts)) && T3::accepts(T2::parts_after(T1::parts_after(req.parts))) && !T4::accepts(T3::parts_after(T2::parts_after(T1::parts_after(req.parts)))) ==> resp == T4::rejection_view(T3::parts_after(T2::parts_after(T1::parts_after(req.parts)))),
        T1::accepts(req.parts) && T2::accepts(T1::parts_after(req.parts)) && T3::accepts(T2::parts_after(T1::parts_after(req.parts))) && T4::accepts(T3::parts_after(T2::parts_after(T1::parts_after(req.parts)))) && !T5::accepts(T4::parts_after(T3::parts_after(T2::parts_after(T1::parts_after(req.parts))))) ==> resp == T5::rejection_view(T4::parts_after(T3::parts_after(T2::parts_after(T1::parts_after(req.parts))))),
        T1::accepts(req.parts) && T2::accepts(T1::parts_after(req.parts)) && T3::accepts(T2::parts_after(T1::parts_after(req.parts))) && T4::accepts(T3::parts_after(T2::parts_after(T1::parts_after(req.parts)))) && T5::accepts(T4::parts_after(T3::parts_after(T2::parts_after(T1::parts_after(req.parts))))) && !T6::accepts(T5::parts_after(T4::parts_after(T3::parts_after(T2::parts_after(T1::parts_after(req.parts)))))) ==> resp == T6::rejection_view(T5::parts_after(T4::parts_after(T3::parts_after(T2::parts_after(T1::parts_after(req.parts)))))),
        T1::accepts(req.parts) && T2::accepts(T1::parts_after(req.parts)) && T3::accepts(T2::parts_after(T1::parts_after(req.parts))) && T4::accepts(T3::parts_after(T2::parts_after(T1::parts_after(req.parts)))) && T5::accepts(T4::parts_after(T3::parts_after(T2::parts_after(T1::parts_after(req.parts))))) && T6::accepts(T5::parts_after(T4::parts_after(T3::parts_after(T2::parts_after(T1::parts_after(req.parts)))))) && !T7::accepts(T6::parts_after(T5::parts_after(T4::parts_after(T3::parts_after(T2::parts_after(T1::parts_after(req.parts))))))) ==> resp == T7::rejection_view(T6::parts_after(T5::parts_after(T4::parts_after(T3::parts_after(T2::parts_after(T1::parts_after(req.parts))))))),
        T1::accepts(req.parts) && T2::accepts(T1::parts_after(req.parts)) && T3::accepts(T2::parts_after(T1::parts_after(req.parts))) && T4::accepts(T3::parts_after(T2::parts_after(T1::parts_after(req.parts)))) && T5::accepts(T4::parts_after(T3::parts_after(T2::parts_after(T1::parts_after(req.parts))))) && T6::accepts(T5::parts_after(T4::parts_after(T3::parts_after(T2::parts_after(T1::parts_after(req.parts)))))) && T7::accepts(T6::parts_after(T5::parts_after(T4::parts_after(T3::parts_after(T2::parts_after(T1::parts_after(req.parts))))))) && !T8::accepts_req(ReqView { parts: T7::parts_after(T6::parts_after(T5::parts_after(T4::parts_after(T3::parts_after(T2::parts_after(T1::parts_after(req.parts))))))), body: req.body }) ==> resp == T8::rejection_from_req(ReqView { parts: T7::parts_after(T6::parts_after(T5::parts_after(T4::parts_after(T3::parts_after(T2::parts_after(T1::parts_after(req.parts))))))), body: req.body }),
{
}
/// Binding state twice is the same as binding it once: each deferred handler
/// becomes a route exactly once, and stays that route.
pub proof fn lemma_bind_idempotent(endpoint: EndpointView)
    ensures
        crate::router::endpoint_bind_spec(crate::router::endpoint_bind_spec(endpoint))
            == crate::router::endpoint_bind_spec(endpoint),
{
    match endpoint {
        EndpointView::MethodRouter(table) => {
            assert(crate::router::endpoint_bind_spec(
                crate::router::endpoint_bind_spec(EndpointView::MethodRouter(table)),
            ) =~~= crate::router::endpoint_bind_spec(EndpointView::MethodRouter(table)));
        },
        EndpointView::Route(_) => {},
    }
}

/// Two routers that hold the same endpoint under a path dispatch a request
/// for that path identically, whatever positions the endpoint occupies in
/// their tables. With the union law above, a router merged from two routers
/// with no shared path therefore dispatches every literal registered path as
/// the router it came from does.
pub proof fn lemma_same_endpoint_same_dispatch(ours: Router, theirs: Router, req: ReqView)
    requires
        ours.wf(),
        theirs.wf(),
        trie_entries(ours.node.inner).contains_key(req.parts.path),
        trie_entries(theirs.node.inner).contains_key(req.parts.path),
        ours.endpoint_at(req.parts.path) == theirs.endpoint_at(req.parts.path),
    ensures
        dispatch_plan(
            ours,
            req,
            Some(
                (
                    trie_entries(ours.node.inner)[req.parts.path],
                    Seq::<(Seq<char>, Seq<char>)>::empty(),
                ),
            ),
        ) == dispatch_plan(
            theirs,
            req,
            Some(
                (
                    trie_entries(theirs.node.inner)[req.parts.path],
                    Seq::<(Seq<char>, Seq<char>)>::empty(),
                ),
            ),
        ),
{
    let our_id = trie_entries(ours.node.inner)[req.parts.path] as int;
    let their_id = trie_entries(theirs.node.inner)[req.parts.path] as int;
    assert(ours.routes@[our_id]@ == theirs.routes@[their_id]@);
    match ours.routes@[our_id] {
        crate::router::Endpoint::MethodRouter(our_table) => {
            match theirs.routes@[their_id] {
                crate::router::Endpoint::MethodRouter(their_table) => {
                    assert(our_table@ == their_table@);
                },
                crate::router::Endpoint::Route(_) => {
                    assert(false);
                },
            }
        },
        crate::router::Endpoint::Route(our_route) => {
            match theirs.routes@[their_id] {
                crate::router::Endpoint::MethodRouter(_) => {
                    assert(false);
                },
                crate::router::Endpoint::Route(their_route) => {
                    assert(our_route@ == their_route@);
                },
            }
        },
    }
}

/// Binding state twice leaves a fallback as one binding left it.
pub proof fn lemma_fallback_bind_idempotent(fallback: FallbackView)
    ensures
        crate::route::fallback_bind_spec(crate::route::fallback_bind_spec(fallback))
            == crate::route::fallback_bind_spec(fallback),
{
}

/// For a registered literal path whose table binds the request's method, the
/// router's dispatch owes exactly that handler a call.
pub proof fn lemma_registered_dispatch(router: Router, req: ReqView, deferred: BoxedIntoRouteView)
    requires
        router.wf(),
        is_literal_route(req.parts.path),
        router.endpoint_at(req.parts.path) matches Some(EndpointView::MethodRouter(table))
            && table_slot(table, req.parts.method) == crate::method_router::MethodEndpointView::BoxedHandler(deferred),
    ensures
        trie_entries(router.node.inner).contains_key(req.parts.path),
        dispatch_plan(
            router,
            req,
            Some(
                (
                    trie_entries(router.node.inner)[req.parts.path],
                    Seq::<(Seq<char>, Seq<char>)>::empty(),
                ),
            ),
        ) matches RoutePlan::Call(pending) && pending.handler == deferred.handler,
{
    let id = trie_entries(router.node.inner)[req.parts.path] as int;
    assert(router.routes@[id]@ matches EndpointView::MethodRouter(t) && table_slot(
        t,
        req.parts.method,
    ) == crate::method_router::MethodEndpointView::BoxedHandler(deferred));
    match router.routes@[id] {
        crate::router::Endpoint::MethodRouter(table) => {},
        crate::router::Endpoint::Route(_) => {
            assert(false);
        },
    }
}

} // verus!
