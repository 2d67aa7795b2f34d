use monet::body::Body;
use monet::handler::call_handler0;
use monet::http::Method;
use monet::method_router::{get, MethodRouter, RoutingError};
use monet::request::Request;
use monet::response::{IntoResponse, Response};
use monet::route::{Fallback, Route, ServiceKind};
use monet::router::Router;

fn req(method: Method, path: &str) -> Request {
    Request::new(method, path.to_string(), Body::empty())
}

fn drain_body(resp: Response) -> Vec<u8> {
    let mut body = resp.body;
    body.collect_bytes().expect("body fits in one vector")
}

#[test]
fn one_route_serves_two_paths_through_clones() {
    let shared = Route::new(ServiceKind::CallHandler { handler: 8 });
    let router = Router::new()
        .route_service("/first", shared.clone())
        .unwrap()
        .route_service("/second", shared)
        .unwrap();
    for path in ["/first", "/second"] {
        let resp = router.call_with_state(req(Method::Get, path), |id, r| {
            assert_eq!(id, 8);
            call_handler0(|| "shared".to_string(), r)
        });
        assert_eq!(drain_body(resp), b"shared".to_vec());
    }
}

#[test]
fn a_route_endpoint_answers_every_method() {
    let router = Router::new()
        .route_service("/any", Route::new(ServiceKind::CallHandler { handler: 3 }))
        .unwrap();
    for method in [Method::Get, Method::Post, Method::Delete] {
        let resp = router.call_with_state(req(method, "/any"), |id, r| {
            assert_eq!(id, 3);
            call_handler0(|| "always".to_string(), r)
        });
        assert_eq!(drain_body(resp), b"always".to_vec());
    }
}

#[test]
fn a_path_taken_by_a_route_cannot_merge_a_table() {
    let router = Router::new()
        .route_service("/taken", Route::new(ServiceKind::CallHandler { handler: 1 }))
        .unwrap();
    assert!(matches!(
        router.clone().route("/taken", get(2)),
        Err(RoutingError::OccupiedPath)
    ));
    assert!(matches!(
        router.route_service("/taken", Route::new(ServiceKind::NotFound)),
        Err(RoutingError::OccupiedPath)
    ));
}

#[test]
fn built_in_routes_answer_without_any_handler() {
    let not_found = Route::new(ServiceKind::NotFound);
    let resp = not_found.call(req(Method::Get, "/"), |_id, _r| unreachable!());
    assert_eq!(resp.status, 404);

    let not_allowed = Route::new(ServiceKind::NotAllowed);
    let resp = not_allowed.call(req(Method::Get, "/"), |_id, _r| unreachable!());
    assert_eq!(resp.status, 405);
}

#[test]
fn fallback_calls_its_deferred_handler() {
    let fallback = Fallback::BoxedHandler(monet::route::BoxedIntoRoute::from_handler(12));
    let resp = fallback.call_with_state(req(Method::Get, "/whatever"), |id, r| {
        assert_eq!(id, 12);
        call_handler0(|| 503u16, r)
    });
    assert_eq!(resp.status, 503);
}

#[test]
fn method_router_slots_report_occupancy() {
    let table = MethodRouter::new();
    assert!(!table.get.is_some());
    let table = table.get(1).unwrap();
    assert!(table.get.is_some());
    assert!(!table.post.is_some());
}

#[test]
fn table_fallbacks_merge_like_router_fallbacks() {
    // an explicit table fallback survives a merge with a default one
    let explicit = Fallback::Service(Route::new(ServiceKind::CallHandler { handler: 9 }));
    let merged = explicit.merge(Fallback::Default(Route::new(ServiceKind::NotAllowed)));
    assert!(matches!(merged, Some(Fallback::Service(_))));

    let both = Fallback::Service(Route::new(ServiceKind::NotFound)).merge(Fallback::Service(
        Route::new(ServiceKind::NotFound),
    ));
    assert!(both.is_none());
}

#[test]
fn a_cloned_router_still_captures_parameters() {
    let router = Router::new().route("/u/{id}", get(2)).unwrap();
    let copy = router.clone();
    drop(router);
    let resp = copy.call_with_state(req(Method::Get, "/u/alice"), |id, r| {
        assert_eq!(id, 2);
        call_handler0(|| "found".to_string(), r)
    });
    assert_eq!(resp.status, 200);
    assert_eq!(drain_body(resp), b"found".to_vec());
}

#[test]
fn borrowed_text_converts_to_a_response() {
    let resp = "static words".into_response();
    assert_eq!(resp.status, 200);
    assert_eq!(drain_body(resp), b"static words".to_vec());
}
