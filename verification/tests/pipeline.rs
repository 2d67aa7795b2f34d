use monet::body::Body;
use monet::extract::{BodyBytes, BodyUint, PathParam};
use monet::handler::{
    call_handler1, call_handler2, call_handler4, HandlerService, HandlerWithoutStateExt,
    StatusResponder, TextResponder,
};
use monet::http::Method;
use monet::method_router::get;
use monet::request::{Parts, Request};
use monet::response::{IntoResponse, Response};
use monet::router::Router;

use std::cell::Cell;

fn req_with_body(method: Method, path: &str, body: &[u8]) -> Request {
    Request::new(method, path.to_string(), Body::from_bytes(body.to_vec()))
}

fn drain(resp: Response) -> Vec<u8> {
    let mut body = resp.body;
    body.collect_bytes().expect("body fits in one vector")
}

#[test]
fn failing_body_extractor_skips_handler_but_still_answers() {
    let router = Router::new().route("/n", get(5)).unwrap();
    let ran = Cell::new(false);
    let resp = router.call_with_state(req_with_body(Method::Get, "/n", b"not a number"), |id, r| {
        assert_eq!(id, 5);
        call_handler1(
            |n: BodyUint| {
                ran.set(true);
                format!("{}", n.0)
            },
            r,
        )
    });
    assert!(!ran.get());
    assert_eq!(resp.status, 400);
    assert_eq!(drain(resp), Vec::<u8>::new());

    let resp = router.call_with_state(req_with_body(Method::Get, "/n", b"123"), |_id, r| {
        call_handler1(
            |n: BodyUint| {
                ran.set(true);
                format!("{}", n.0)
            },
            r,
        )
    });
    assert!(ran.get());
    assert_eq!(resp.status, 200);
    assert_eq!(drain(resp), b"123".to_vec());
}

#[test]
fn number_extractor_edge_cases() {
    let parse = |bytes: &[u8]| {
        let request = req_with_body(Method::Post, "/", bytes);
        call_handler1(|n: BodyUint| format!("{}", n.0), request)
    };
    assert_eq!(parse(b"").status, 400);
    assert_eq!(parse(b"12x").status, 400);
    assert_eq!(parse(b"99999999999999999999999").status, 400);
    let max = parse(b"18446744073709551615");
    assert_eq!(max.status, 200);
    assert_eq!(drain(max), b"18446744073709551615".to_vec());
    assert_eq!(drain(parse(b"0")), b"0".to_vec());
}

#[test]
fn metadata_extraction_runs_left_to_right_without_the_body() {
    let request = req_with_body(Method::Put, "/anything", b"payload");
    let resp = call_handler2(
        |m: Method, raw: BodyBytes| {
            assert_eq!(m, Method::Put);
            raw.0
        },
        request,
    );
    assert_eq!(resp.status, 200);
    assert_eq!(drain(resp), b"payload".to_vec());
}

#[test]
fn missing_path_parameter_is_an_internal_error() {
    let request = req_with_body(Method::Get, "/literal", b"");
    let ran = Cell::new(false);
    let resp = call_handler2(
        |p: PathParam, _unit: ()| {
            ran.set(true);
            p.0
        },
        request,
    );
    assert!(!ran.get());
    assert_eq!(resp.status, 500);
}

#[test]
fn body_pull_is_chunked_and_end_is_idempotent() {
    let chunks = vec![b"ab".to_vec(), Vec::new(), b"cde".to_vec()];
    let mut body = Body::new(chunks);
    assert!(!body.is_end_stream());
    assert_eq!(body.size_hint(), Some(5));
    assert_eq!(body.pull(), Some(b"ab".to_vec()));
    assert_eq!(body.pull(), Some(Vec::new()));
    assert_eq!(body.size_hint(), Some(3));
    assert_eq!(body.pull(), Some(b"cde".to_vec()));
    assert!(body.is_end_stream());
    assert_eq!(body.pull(), None);
    assert_eq!(body.pull(), None);
    assert_eq!(body.size_hint(), Some(0));
}

#[test]
fn body_collect_flattens_chunks() {
    let mut body = Body::new(vec![b"ab".to_vec(), b"cd".to_vec()]);
    assert_eq!(body.collect_bytes(), Some(b"abcd".to_vec()));
    assert!(body.is_end_stream());

    let mut empty = Body::empty();
    assert_eq!(empty.size_hint(), Some(0));
    assert!(empty.is_end_stream());
    assert_eq!(empty.collect_bytes(), Some(Vec::new()));
}

#[test]
fn request_splits_and_reassembles_losslessly() {
    let request = req_with_body(Method::Get, "/r", b"xyz");
    let (mut parts, body) = request.into_parts();
    parts.headers.push(("x-a".to_string(), "1".to_string()));
    let rebuilt = Request::from_parts(parts, body);
    assert_eq!(rebuilt.parts.method, Method::Get);
    assert_eq!(rebuilt.parts.path, "/r".to_string());
    assert_eq!(rebuilt.parts.headers, vec![("x-a".to_string(), "1".to_string())]);
    let mut body = rebuilt.body;
    assert_eq!(body.collect_bytes(), Some(b"xyz".to_vec()));
}

#[test]
fn response_conversions() {
    let unit = ().into_response();
    assert_eq!(unit.status, 200);
    assert_eq!(drain(unit), Vec::<u8>::new());

    let status = 418u16.into_response();
    assert_eq!(status.status, 418);
    assert_eq!(drain(status), Vec::<u8>::new());

    let text = "hello".to_string().into_response();
    assert_eq!(text.status, 200);
    assert_eq!(drain(text), b"hello".to_vec());

    let bytes = vec![1u8, 2, 3].into_response();
    assert_eq!(drain(bytes), vec![1u8, 2, 3]);

    let body = Body::from_bytes(b"raw".to_vec()).into_response();
    assert_eq!(drain(body), b"raw".to_vec());

    let ok: Result<String, u16> = Ok("fine".to_string());
    let resp = ok.into_response();
    assert_eq!(resp.status, 200);
    assert_eq!(drain(resp), b"fine".to_vec());

    let failed: Result<String, u16> = Err(503);
    let resp = failed.into_response();
    assert_eq!(resp.status, 503);

    let already = Response::empty().into_response();
    assert_eq!(already.status, 200);

    let defaulted = Response::default();
    assert_eq!(defaulted.status, 200);
}

#[test]
fn handlers_bound_to_state_answer_uniformly() {
    let text = TextResponder { status: 200, text: "greetings".to_string() };
    let service = HandlerService::new(text, 41u32);
    assert_eq!(*service.state(), 41);
    let resp = service.call(req_with_body(Method::Get, "/", b""));
    assert_eq!(drain(resp), b"greetings".to_vec());

    let status = StatusResponder { status: 204 };
    let service = status.into_service();
    let resp = service.call(req_with_body(Method::Get, "/", b""));
    assert_eq!(resp.status, 204);
}

#[test]
fn oversized_parameter_values_pass_through_matching() {
    // the captured parameter is handed over exactly as it stood in the path
    let router = Router::new().route("/files/{name}", get(1)).unwrap();
    let resp = router.call_with_state(
        req_with_body(Method::Get, "/files/report.txt", b""),
        |_id, r| call_handler2(|p: PathParam, _unit: ()| p.0, r),
    );
    assert_eq!(drain(resp), b"report.txt".to_vec());
}

#[test]
fn parts_carry_no_parameters_until_matching() {
    let request = req_with_body(Method::Get, "/a", b"");
    let parts: &Parts = &request.parts;
    assert!(parts.params.is_empty());
    assert!(parts.headers.is_empty());
}

#[test]
fn wide_handlers_extract_in_declaration_order() {
    let request = req_with_body(Method::Patch, "/w", b"last");
    let resp = call_handler4(
        |m1: Method, m2: Method, m3: Method, raw: BodyBytes| {
            assert_eq!(m1, Method::Patch);
            assert_eq!(m2, Method::Patch);
            assert_eq!(m3, Method::Patch);
            raw.0
        },
        request,
    );
    assert_eq!(resp.status, 200);
    assert_eq!(drain(resp), b"last".to_vec());
}
