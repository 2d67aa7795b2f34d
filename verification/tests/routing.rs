use monet::body::Body;
use monet::extract::{BodyBytes, PathParam};
use monet::handler::{call_handler0, call_handler3};
use monet::http::Method;
use monet::method_router::{get, MethodRouter, RoutingError};
use monet::request::Request;
use monet::response::{IntoResponse, Response};
use monet::route::Layer;
use monet::router::Router;
use monet::trie::PathError;

use std::cell::Cell;

fn req(method: Method, path: &str) -> Request {
    Request::new(method, path.to_string(), Body::empty())
}

fn body_bytes(resp: Response) -> Vec<u8> {
    let mut body = resp.body;
    body.collect_bytes().expect("body fits in one vector")
}

#[test]
fn exact_route_reaches_handler_exactly_once() {
    let router = Router::new().route("/users", get(1)).unwrap();
    let calls = Cell::new(0u32);
    let resp = router.call_with_state(req(Method::Get, "/users"), |id, r| {
        calls.set(calls.get() + 1);
        assert_eq!(id, 1);
        call_handler0(|| "alice".to_string(), r)
    });
    assert_eq!(calls.get(), 1);
    assert_eq!(resp.status, 200);
    assert_eq!(body_bytes(resp), b"alice".to_vec());
}

#[test]
fn other_method_is_not_allowed() {
    let router = Router::new().route("/users", get(1)).unwrap();
    let calls = Cell::new(0u32);
    let resp = router.call_with_state(req(Method::Post, "/users"), |_id, r| {
        calls.set(calls.get() + 1);
        call_handler0(|| "alice".to_string(), r)
    });
    assert_eq!(calls.get(), 0);
    assert_eq!(resp.status, 405);
    assert_eq!(body_bytes(resp), Vec::<u8>::new());
}

#[test]
fn duplicate_method_registration_fails_both_orders() {
    assert!(matches!(
        MethodRouter::new().get(1).unwrap().get(2),
        Err(RoutingError::OverlappingMethod { method: Method::Get, path: None })
    ));
    assert!(matches!(
        MethodRouter::new().get(2).unwrap().get(1),
        Err(RoutingError::OverlappingMethod { method: Method::Get, path: None })
    ));
    assert!(MethodRouter::new()
        .on(Method::Post, 1)
        .unwrap()
        .on(Method::Post, 2)
        .is_err());
    // the same conflict through the router's path table names method and path
    let router = Router::new().route("/a", get(1)).unwrap();
    match router.route("/a", get(2)) {
        Err(RoutingError::OverlappingMethod { method, path }) => {
            assert_eq!(method, Method::Get);
            assert_eq!(path.as_deref(), Some("/a"));
        },
        _ => panic!("a duplicate GET on one path must be refused"),
    }
}

#[test]
fn patterns_beyond_the_parameter_budget_are_refused() {
    let mut long = String::new();
    let mut i = 0;
    while i < 26 {
        long.push_str(&format!("/{{p{i}}}"));
        i += 1;
    }
    let refused = Router::new().route(&long, get(1));
    assert!(matches!(
        refused,
        Err(RoutingError::InvalidPath { reason: PathError::TooManyParameters })
    ));

    // one parameter fewer is still within the engine's budget
    let mut fits = String::new();
    let mut i = 0;
    while i < 25 {
        fits.push_str(&format!("/{{p{i}}}"));
        i += 1;
    }
    assert!(Router::new().route(&fits, get(1)).is_ok());
}

#[test]
fn merge_of_disjoint_routers_serves_union() {
    let users = Router::new().route("/users", get(1)).unwrap();
    let teams = Router::new().route("/teams", get(2)).unwrap();
    let merged = users.clone().merge(teams).unwrap();

    let seen = Cell::new(0u64);
    let serve = |id: u64, r: Request| {
        seen.set(id);
        call_handler0(|| format!("handler {id}"), r)
    };
    let resp = merged.call_with_state(req(Method::Get, "/users"), serve);
    assert_eq!(seen.get(), 1);
    assert_eq!(body_bytes(resp), b"handler 1".to_vec());

    let resp = merged.call_with_state(req(Method::Get, "/teams"), |id, r| {
        seen.set(id);
        call_handler0(|| format!("handler {id}"), r)
    });
    assert_eq!(seen.get(), 2);
    assert_eq!(body_bytes(resp), b"handler 2".to_vec());

    // the merged router answers /users exactly as the original did
    let original = users.call_with_state(req(Method::Get, "/users"), |id, r| {
        call_handler0(move || format!("handler {id}"), r)
    });
    assert_eq!(body_bytes(original), b"handler 1".to_vec());

    // a path neither router had still falls back to not-found
    let resp = merged.call_with_state(req(Method::Get, "/nope"), |_id, r| {
        call_handler0(|| "never".to_string(), r)
    });
    assert_eq!(resp.status, 404);
}

#[test]
fn merge_with_shared_method_fails_and_one_sided_merges() {
    let a = Router::new().route("/x", get(1)).unwrap();
    let b = Router::new().route("/x", get(2)).unwrap();
    assert!(a.merge(b).is_err());

    let a = Router::new().route("/x", get(1)).unwrap();
    let b = Router::new()
        .route("/x", MethodRouter::new().on(Method::Post, 2).unwrap())
        .unwrap();
    let merged = a.merge(b).unwrap();
    let resp = merged.call_with_state(req(Method::Get, "/x"), |id, r| {
        call_handler0(move || format!("{id}"), r)
    });
    assert_eq!(body_bytes(resp), b"1".to_vec());
    let resp = merged.call_with_state(req(Method::Post, "/x"), |id, r| {
        call_handler0(move || format!("{id}"), r)
    });
    assert_eq!(body_bytes(resp), b"2".to_vec());
}

#[test]
fn merge_of_two_explicit_fallbacks_fails() {
    let a = Router::new().route("/a", get(1)).unwrap().fallback(10);
    let b = Router::new().route("/b", get(2)).unwrap().fallback(11);
    assert!(matches!(a.merge(b), Err(RoutingError::ConflictingFallback)));

    // a default fallback yields to the explicit one
    let a = Router::new().route("/a", get(1)).unwrap();
    let b = Router::new().route("/b", get(2)).unwrap().fallback(11);
    let merged = a.merge(b).unwrap();
    let resp = merged.call_with_state(req(Method::Get, "/nope"), |id, r| {
        call_handler0(move || format!("fallback {id}"), r)
    });
    assert_eq!(body_bytes(resp), b"fallback 11".to_vec());
}

#[test]
fn head_is_answered_by_get_with_empty_body() {
    let router = Router::new().route("/page", get(4)).unwrap();
    let full = |id: u64, r: Request| {
        assert_eq!(id, 4);
        call_handler0(
            || {
                let mut resp = "a whole page".to_string().into_response();
                resp.headers.push(("x-kind".to_string(), "page".to_string()));
                resp
            },
            r,
        )
    };
    let resp = router.call_with_state(req(Method::Head, "/page"), full);
    assert_eq!(resp.status, 200);
    assert_eq!(resp.headers, vec![("x-kind".to_string(), "page".to_string())]);
    assert_eq!(body_bytes(resp), Vec::<u8>::new());

    // the GET answer itself keeps its body
    let resp = router.call_with_state(req(Method::Get, "/page"), |id, r| {
        assert_eq!(id, 4);
        call_handler0(
            || {
                let mut resp = "a whole page".to_string().into_response();
                resp.headers.push(("x-kind".to_string(), "page".to_string()));
                resp
            },
            r,
        )
    });
    assert_eq!(body_bytes(resp), b"a whole page".to_vec());
}

#[test]
fn layering_twice_equals_one_around_interceptor() {
    let a = Layer::ResponseHeader { name: "x-outer".to_string(), value: "yes".to_string() };
    let b = Layer::StatusOverride { status: 201 };
    let around = Layer::Around(Box::new(a.clone()), Box::new(b.clone()));

    let twice = Router::new()
        .route("/w", get(9))
        .unwrap()
        .layer(&a)
        .layer(&b);
    let once = Router::new().route("/w", get(9)).unwrap().layer(&around);

    let run = |router: &Router| {
        router.call_with_state(req(Method::Get, "/w"), |_id, r| {
            call_handler0(|| "wrapped".to_string(), r)
        })
    };
    let left = run(&twice);
    let right = run(&once);
    assert_eq!(left.status, right.status);
    assert_eq!(left.headers, right.headers);
    assert_eq!(left.status, 201);
    assert_eq!(
        left.headers,
        vec![("x-outer".to_string(), "yes".to_string())]
    );
    assert_eq!(body_bytes(left), body_bytes(right));
}

#[test]
fn path_parameter_is_captured_and_other_method_refused() {
    let router = Router::new().route("/items/{id}", get(7)).unwrap();
    let resp = router.call_with_state(req(Method::Get, "/items/42"), |id, r| {
        assert_eq!(id, 7);
        call_handler3(
            |param: PathParam, method: Method, _unit: ()| {
                assert_eq!(method, Method::Get);
                param.0
            },
            r,
        )
    });
    assert_eq!(resp.status, 200);
    assert_eq!(body_bytes(resp), b"42".to_vec());

    let resp = router.call_with_state(req(Method::Post, "/items/42"), |_id, r| {
        call_handler0(|| "never".to_string(), r)
    });
    assert_eq!(resp.status, 405);
}

#[test]
fn explicit_fallback_overrides_built_in_not_found() {
    let router = Router::new().route("/known", get(3)).unwrap().fallback(77);
    let resp = router.call_with_state(req(Method::Get, "/nope"), |id, r| {
        assert_eq!(id, 77);
        call_handler0(|| "not found here".to_string(), r)
    });
    assert_eq!(resp.status, 200);
    assert_eq!(body_bytes(resp), b"not found here".to_vec());
}

#[test]
fn built_in_fallback_answers_not_found() {
    let router = Router::new().route("/known", get(3)).unwrap();
    let resp = router.call_with_state(req(Method::Get, "/nope"), |_id, r| {
        call_handler0(|| "never".to_string(), r)
    });
    assert_eq!(resp.status, 404);
    assert_eq!(body_bytes(resp), Vec::<u8>::new());
}

#[test]
fn ambiguous_patterns_are_refused_at_registration() {
    let router = Router::new().route("/a/{x}", get(1)).unwrap();
    assert!(matches!(
        router.route("/a/{y}", get(2)),
        Err(RoutingError::InvalidPath { .. })
    ));
}

#[test]
fn with_state_binds_deferred_handlers_and_dispatch_is_unchanged() {
    let router = Router::new().route("/b", get(5)).unwrap().fallback(6);
    let bound = router.with_state();
    let bound_again = bound.clone().with_state();
    for r in [&bound, &bound_again] {
        let resp = r.call_with_state(req(Method::Get, "/b"), |id, rq| {
            call_handler0(move || format!("h{id}"), rq)
        });
        assert_eq!(body_bytes(resp), b"h5".to_vec());
        let resp = r.call_with_state(req(Method::Get, "/zzz"), |id, rq| {
            call_handler0(move || format!("h{id}"), rq)
        });
        assert_eq!(body_bytes(resp), b"h6".to_vec());
    }
}

#[test]
fn route_layer_leaves_fallback_alone() {
    let mark = Layer::ResponseHeader { name: "x-m".to_string(), value: "1".to_string() };
    let router = Router::new()
        .route("/q", get(1))
        .unwrap()
        .fallback(2)
        .route_layer(&mark);
    let resp = router.call_with_state(req(Method::Get, "/q"), |_id, r| {
        call_handler0(|| "q".to_string(), r)
    });
    assert_eq!(resp.headers.len(), 1);
    let resp = router.call_with_state(req(Method::Get, "/other"), |_id, r| {
        call_handler0(|| "f".to_string(), r)
    });
    assert_eq!(resp.headers.len(), 0);
}

#[test]
fn request_header_layer_reaches_the_handler() {
    let stamp = Layer::RequestHeader { name: "x-in".to_string(), value: "seen".to_string() };
    let router = Router::new().route("/h", get(1)).unwrap().layer(&stamp);
    let resp = router.call_with_state(req(Method::Get, "/h"), |_id, r| {
        assert_eq!(
            r.parts.headers,
            vec![("x-in".to_string(), "seen".to_string())]
        );
        monet::handler::call_handler1(|_b: BodyBytes| 204u16, r)
    });
    assert_eq!(resp.status, 204);
}
