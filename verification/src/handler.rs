use vstd::prelude::*;

use crate::extract::{FromRequest, FromRequestParts};
use crate::request::{ReqView, Request};
use crate::response::{plain_view, IntoResponse, Response, RespView};
use vstd::utf8::encode_utf8;

verus! {

/// The uniform asynchronous call contract of §handler dispatch, collapsed to
/// its decision content: a handler takes a request and the application
/// state and yields exactly the response `response_spec` describes.
///
/// The trait exists for callers of the library to implement on their own
/// handler types; the crate implements it for [`TextResponder`] and
/// [`StatusResponder`].
pub trait Handler<S>: Sized {
    /// The response this handler gives to a request under a given state.
    spec fn response_spec(self, req: ReqView, state: S) -> RespView;

    /// Answer one request.
    fn call(self, req: Request, state: S) -> (resp: Response)
        ensures
            resp@ == self.response_spec(req@, state),
    ;

    /// Bind the state permanently, producing the uniform service.
    fn with_state(self, state: S) -> (service: HandlerService<Self, S>)
        ensures
            service.handler == self,
            service.state == state,
    {
        HandlerService::new(self, state)
    }
}

/// A handler bound to its application state: the one-time "bind state"
/// transformation has happened and each call needs only the request.
pub struct HandlerService<H, S> {
    pub handler: H,
    pub state: S,
}

impl<H, S> HandlerService<H, S> {
    /// Pair a handler with the state it will always be called with.
    pub fn new(handler: H, state: S) -> (service: HandlerService<H, S>)
        ensures
            service.handler == handler,
            service.state == state,
    {
        HandlerService { handler, state }
    }

    /// The bound state.
    pub fn state(&self) -> (state: &S)
        ensures
            state == self.state,
    {
        &self.state
    }
}

impl<H: Handler<S>, S> HandlerService<H, S> {
    /// The uniform call contract: one request in, one response out.
    pub fn call(self, req: Request) -> (resp: Response)
        ensures
            resp@ == self.handler.response_spec(req@, self.state),
    {
        self.handler.call(req, self.state)
    }
}

/// Convenience for handlers that need no application state.
pub trait HandlerWithoutStateExt: Handler<()> {
    /// Bind the empty state.
    fn into_service(self) -> (service: HandlerService<Self, ()>)
        ensures
            service.handler == self,
    ;
}

impl<H: Handler<()>> HandlerWithoutStateExt for H {
    fn into_service(self) -> (service: HandlerService<Self, ()>) {
        self.with_state(())
    }
}

/// A handler answering every request with fixed text under a fixed status.
pub struct TextResponder {
    pub status: u16,
    pub text: String,
}

impl<S> Handler<S> for TextResponder {
    open spec fn response_spec(self, req: ReqView, state: S) -> RespView {
        plain_view(self.status, seq![encode_utf8(self.text@)])
    }

    fn call(self, req: Request, state: S) -> (resp: Response) {
        let mut resp = self.text.into_response();
        resp.status = self.status;
        proof {
            assert(resp@ =~= plain_view(self.status, seq![encode_utf8(self.text@)]));
        }
        resp
    }
}

/// A handler answering every request with an empty response of fixed status.
pub struct StatusResponder {
    pub status: u16,
}

impl<S> Handler<S> for StatusResponder {
    open spec fn response_spec(self, req: ReqView, state: S) -> RespView {
        plain_view(self.status, Seq::empty())
    }

    fn call(self, req: Request, state: S) -> (resp: Response) {
        self.status.into_response()
    }
}

/// What binding a plain function as a handler yields on a given request:
/// either the response of the first extractor that rejected — the function
/// then never ran — or a response the function's own output converted to.
///
/// `call_handler0` through `call_handler8` below are the arity-indexed
/// family: a function of `n` parameters takes `n - 1` metadata extractors,
/// run strictly left to right on the metadata, each seeing the metadata as
/// its predecessors left it, and one final body extractor, which receives the
/// request rebuilt from the extracted-over metadata and the original body.
/// Seven leading extractors — a function of eight parameters — is the
/// largest shape this crate provides.
pub open spec fn handler0_response<R: IntoResponse, F: FnOnce() -> R>(
    handler: F,
    resp: RespView,
) -> bool {
    exists|out: R| #[trigger] call_ensures(handler, (), out) && resp == out.resp_spec()
}

/// Bind a function of no parameters: nothing is extracted, the request is
/// dropped unread.
pub fn call_handler0<R: IntoResponse, F: FnOnce() -> R>(handler: F, req: Request) -> (resp:
    Response)
    requires
        call_requires(handler, ()),
    ensures
        handler0_response(handler, resp@),
{
    handler().into_response()
}

/// What binding a one-parameter function yields: the single parameter is the
/// body extractor.
pub open spec fn handler1_response<T1: FromRequest, R: IntoResponse, F: FnOnce(T1) -> R>(
    handler: F,
    req: ReqView,
    resp: RespView,
) -> bool {
    if !T1::accepts_req(req) {
        resp == T1::rejection_from_req(req)
    } else {
        exists|t1: T1, out: R|
            T1::value_from_req(req, t1) && #[trigger] call_ensures(handler, (t1,), out) && resp
                == out.resp_spec()
    }
}

/// Bind a function of one parameter.
pub fn call_handler1<T1: FromRequest, R: IntoResponse, F: FnOnce(T1) -> R>(
    handler: F,
    req: Request,
) -> (resp: Response)
    requires
        forall|t1: T1| call_requires(handler, (t1,)),
    ensures
        handler1_response(handler, req@, resp@),
{
    let t1 = match T1::from_request(req) {
        Result::Ok(value) => value,
        Result::Err(rejection) => {
            return rejection.into_response();
        },
    };
    handler(t1).into_response()
}

/// What binding a two-parameter function yields: one metadata extractor,
/// then the body extractor on the request rebuilt from the possibly changed
/// metadata; the first rejection short-circuits.
pub open spec fn handler2_response<
    T1: FromRequestParts,
    T2: FromRequest,
    R: IntoResponse,
    F: FnOnce(T1, T2) -> R,
>(handler: F, req: ReqView, resp: RespView) -> bool {
    if !T1::accepts(req.parts) {
        resp == T1::rejection_view(req.parts)
    } else {
        let req1 = ReqView { parts: T1::parts_after(req.parts), body: req.body };
        if !T2::accepts_req(req1) {
            resp == T2::rejection_from_req(req1)
        } else {
            exists|t1: T1, t2: T2, out: R|
                T1::value_spec(req.parts, t1) && T2::value_from_req(req1, t2)
                    && #[trigger] call_ensures(handler, (t1, t2), out) && resp == out.resp_spec()
        }
    }
}

/// Bind a function of two parameters.
pub fn call_handler2<
    T1: FromRequestParts,
    T2: FromRequest,
    R: IntoResponse,
    F: FnOnce(T1, T2) -> R,
>(handler: F, req: Request) -> (resp: Response)
    requires
        forall|t1: T1, t2: T2| call_requires(handler, (t1, t2)),
    ensures
        handler2_response(handler, req@, resp@),
{
    let (mut parts, body) = req.into_parts();
    let t1 = match T1::from_request_parts(&mut parts) {
        Result::Ok(value) => value,
        Result::Err(rejection) => {
            return rejection.into_response();
        },
    };
    let rebuilt = Request::from_parts(parts, body);
    let t2 = match T2::from_request(rebuilt) {
        Result::Ok(value) => value,
        Result::Err(rejection) => {
            return rejection.into_response();
        },
    };
    handler(t1, t2).into_response()
}

/// What binding a three-parameter function yields: two metadata extractors
/// run left to right, then the body extractor; the first rejection
/// short-circuits.
pub open spec fn handler3_response<
    T1: FromRequestParts,
    T2: FromRequestParts,
    T3: FromRequest,
    R: IntoResponse,
    F: FnOnce(T1, T2, T3) -> R,
>(handler: F, req: ReqView, resp: RespView) -> bool {
    if !T1::accepts(req.parts) {
        resp == T1::rejection_view(req.parts)
    } else {
        let parts1 = T1::parts_after(req.parts);
        if !T2::accepts(parts1) {
            resp == T2::rejection_view(parts1)
        } else {
            let req2 = ReqView { parts: T2::parts_after(parts1), body: req.body };
            if !T3::accepts_req(req2) {
                resp == T3::rejection_from_req(req2)
            } else {
                exists|t1: T1, t2: T2, t3: T3, out: R|
                    T1::value_spec(req.parts, t1) && T2::value_spec(parts1, t2)
                        && T3::value_from_req(req2, t3) && #[trigger] call_ensures(
                        handler,
                        (t1, t2, t3),
                        out,
                    ) && resp == out.resp_spec()
            }
        }
    }
}

/// Bind a function of three parameters.
pub fn call_handler3<
    T1: FromRequestParts,
    T2: FromRequestParts,
    T3: FromRequest,
    R: IntoResponse,
    F: FnOnce(T1, T2, T3) -> R,
>(handler: F, req: Request) -> (resp: Response)
    requires
        forall|t1: T1, t2: T2, t3: T3| call_requires(handler, (t1, t2, t3)),
    ensures
        handler3_response(handler, req@, resp@),
{
    let (mut parts, body) = req.into_parts();
    let t1 = match T1::from_request_parts(&mut parts) {
        Result::Ok(value) => value,
        Result::Err(rejection) => {
            return rejection.into_response();
        },
    };
    let t2 = match T2::from_request_parts(&mut parts) {
        Result::Ok(value) => value,
        Result::Err(rejection) => {
            return rejection.into_response();
        },
    };
    let rebuilt = Request::from_parts(parts, body);
    let t3 = match T3::from_request(rebuilt) {
        Result::Ok(value) => value,
        Result::Err(rejection) => {
            return rejection.into_response();
        },
    };
    handler(t1, t2, t3).into_response()
}

/// What binding a four-parameter function yields: the leading
/// metadata extractors run left to right, then the body extractor; the
/// first rejection short-circuits.
pub open spec fn handler4_response<
    T1: FromRequestParts,
    T2: FromRequestParts,
    T3: FromRequestParts,
    T4: FromRequest,
    R: IntoResponse,
    F: FnOnce(T1, T2, T3, T4) -> R,
>(handler: F, req: ReqView, resp: RespView) -> bool {
    if !T1::accepts(req.parts) {
        resp == T1::rejection_view(req.parts)
    } else {
        let parts1 = T1::parts_after(req.parts);
        if !T2::accepts(parts1) {
            resp == T2::rejection_view(parts1)
        } else {
            let parts2 = T2::parts_after(parts1);
            if !T3::accepts(parts2) {
                resp == T3::rejection_view(parts2)
            } else {
                let parts3 = T3::parts_after(parts2);
                let req3 = ReqView { parts: parts3, body: req.body };
                if !T4::accepts_req(req3) {
                    resp == T4::rejection_from_req(req3)
                } else {
                    exists|t1: T1, t2: T2, t3: T3, t4: T4, out: R|
                        T1::value_spec(req.parts, t1) && T2::value_spec(parts1, t2) && T3::value_spec(parts2, t3) && T4::value_from_req(req3, t4)
                        && #[trigger] call_ensures(handler, (t1, t2, t3, t4), out) && resp == out.resp_spec()
                }
            }
        }
    }
}

/// Bind a function of four parameters.
pub fn call_handler4<
    T1: FromRequestParts,
    T2: FromRequestParts,
    T3: FromRequestParts,
    T4: FromRequest,
    R: IntoResponse,
    F: FnOnce(T1, T2, T3, T4) -> R,
>(handler: F, req: Request) -> (resp: Response)
    requires
        forall|t1: T1, t2: T2, t3: T3, t4: T4| call_requires(handler, (t1, t2, t3, t4)),
    ensures
        handler4_response::<T1, T2, T3, T4, R, F>(handler, req@, resp@),
{
    let (mut parts, body) = req.into_parts();
    let t1 = match T1::from_request_parts(&mut parts) {
        Result::Ok(value) => value,
        Result::Err(rejection) => {
            return rejection.into_response();
        },
    };
    let t2 = match T2::from_request_parts(&mut parts) {
        Result::Ok(value) => value,
        Result::Err(rejection) => {
            return rejection.into_response();
        },
    };
    let t3 = match T3::from_request_parts(&mut parts) {
        Result::Ok(value) => value,
        Result::Err(rejection) => {
            return rejection.into_response();
        },
    };
    let rebuilt = Request::from_parts(parts, body);
    let t4 = match T4::from_request(rebuilt) {
        Result::Ok(value) => value,
        Result::Err(rejection) => {
            return rejection.into_response();
        },
    };
    handler(t1, t2, t3, t4).into_response()
}

/// What binding a five-parameter function yields: the leading
/// metadata extractors run left to right, then the body extractor; the
/// first rejection short-circuits.
pub open spec fn handler5_response<
    T1: FromRequestParts,
    T2: FromRequestParts,
    T3: FromRequestParts,
    T4: FromRequestParts,
    T5: FromRequest,
    R: IntoResponse,
    F: FnOnce(T1, T2, T3, T4, T5) -> R,
>(handler: F, req: ReqView, resp: RespView) -> bool {
    if !T1::accepts(req.parts) {
        resp == T1::rejection_view(req.parts)
    } else {
        let parts1 = T1::parts_after(req.parts);
        if !T2::accepts(parts1) {
            resp == T2::rejection_view(parts1)
        } else {
            let parts2 = T2::parts_after(parts1);
            if !T3::accepts(parts2) {
                resp == T3::rejection_view(parts2)
            } else {
                let parts3 = T3::parts_after(parts2);
                if !T4::accepts(parts3) {
                    resp == T4::rejection_view(parts3)
                } else {
                    let parts4 = T4::parts_after(parts3);
                    let req4 = ReqView { parts: parts4, body: req.body };
                    if !T5::accepts_req(req4) {
                        resp == T5::rejection_from_req(req4)
                    } else {
                        exists|t1: T1, t2: T2, t3: T3, t4: T4, t5: T5, out: R|
                            T1::value_spec(req.parts, t1) && T2::value_spec(parts1, t2) && T3::value_spec(parts2, t3) && T4::value_spec(parts3, t4) && T5::value_from_req(req4, t5)
                            && #[trigger] call_ensures(handler, (t1, t2, t3, t4, t5), out) && resp == out.resp_spec()
                    }
                }
            }
        }
    }
}

/// Bind a function of five parameters.
pub fn call_handler5<
    T1: FromRequestParts,
    T2: FromRequestParts,
    T3: FromRequestParts,
    T4: FromRequestParts,
    T5: FromRequest,
    R: IntoResponse,
    F: FnOnce(T1, T2, T3, T4, T5) -> R,
>(handler: F, req: Request) -> (resp: Response)
    requires
        forall|t1: T1, t2: T2, t3: T3, t4: T4, t5: T5| call_requires(handler, (t1, t2, t3, t4, t5)),
    ensures
        handler5_response::<T1, T2, T3, T4, T5, R, F>(handler, req@, resp@),
{
    let (mut parts, body) = req.into_parts();
    let t1 = match T1::from_request_parts(&mut parts) {
        Result::Ok(value) => value,
        Result::Err(rejection) => {
            return rejection.into_response();
        },
    };
    let t2 = match T2::from_request_parts(&mut parts) {
        Result::Ok(value) => value,
        Result::Err(rejection) => {
            return rejection.into_response();
        },
    };
    let t3 = match T3::from_request_parts(&mut parts) {
        Result::Ok(value) => value,
        Result::Err(rejection) => {
            return rejection.into_response();
        },
    };
    let t4 = match T4::from_request_parts(&mut parts) {
        Result::Ok(value) => value,
        Result::Err(rejection) => {
            return rejection.into_response();
        },
    };
    let rebuilt = Request::from_parts(parts, body);
    let t5 = match T5::from_request(rebuilt) {
        Result::Ok(value) => value,
        Result::Err(rejection) => {
            return rejection.into_response();
        },
    };
    handler(t1, t2, t3, t4, t5).into_response()
}

/// What binding a six-parameter function yields: the leading
/// metadata extractors run left to right, then the body extractor; the
/// first rejection short-circuits.
pub open spec fn handler6_response<
    T1: FromRequestParts,
    T2: FromRequestParts,
    T3: FromRequestParts,
    T4: FromRequestParts,
    T5: FromRequestParts,
    T6: FromRequest,
    R: IntoResponse,
    F: FnOnce(T1, T2, T3, T4, T5, T6) -> R,
>(handler: F, req: ReqView, resp: RespView) -> bool {
    if !T1::accepts(req.parts) {
        resp == T1::rejection_view(req.parts)
    } else {
        let parts1 = T1::parts_after(req.parts);
        if !T2::accepts(parts1) {
            resp == T2::rejection_view(parts1)
        } else {
            let parts2 = T2::parts_after(parts1);
            if !T3::accepts(parts2) {
                resp == T3::rejection_view(parts2)
            } else {
                let parts3 = T3::parts_after(parts2);
                if !T4::accepts(parts3) {
                    resp == T4::rejection_view(parts3)
                } else {
                    let parts4 = T4::parts_after(parts3);
                    if !T5::accepts(parts4) {
                        resp == T5::rejection_view(parts4)
                    } else {
                        let parts5 = T5::parts_after(parts4);
                        let req5 = ReqView { parts: parts5, body: req.body };
                        if !T6::accepts_req(req5) {
                            resp == T6::rejection_from_req(req5)
                        } else {
                            exists|t1: T1, t2: T2, t3: T3, t4: T4, t5: T5, t6: T6, out: R|
                                T1::value_spec(req.parts, t1) && T2::value_spec(parts1, t2) && T3::value_spec(parts2, t3) && T4::value_spec(parts3, t4) && T5::value_spec(parts4, t5) && T6::value_from_req(req5, t6)
                                && #[trigger] call_ensures(handler, (t1, t2, t3, t4, t5, t6), out) && resp == out.resp_spec()
                        }
                    }
                }
            }
        }
    }
}

/// Bind a function of six parameters.
pub fn call_handler6<
    T1: FromRequestParts,
    T2: FromRequestParts,
    T3: FromRequestParts,
    T4: FromRequestParts,
    T5: FromRequestParts,
    T6: FromRequest,
    R: IntoResponse,
    F: FnOnce(T1, T2, T3, T4, T5, T6) -> R,
>(handler: F, req: Request) -> (resp: Response)
    requires
        forall|t1: T1, t2: T2, t3: T3, t4: T4, t5: T5, t6: T6| call_requires(handler, (t1, t2, t3, t4, t5, t6)),
    ensures
        handler6_response::<T1, T2, T3, T4, T5, T6, R, F>(handler, req@, resp@),
{
    let (mut parts, body) = req.into_parts();
    let t1 = match T1::from_request_parts(&mut parts) {
        Result::Ok(value) => value,
        Result::Err(rejection) => {
            return rejection.into_response();
        },
    };
    let t2 = match T2::from_request_parts(&mut parts) {
        Result::Ok(value) => value,
        Result::Err(rejection) => {
            return rejection.into_response();
        },
    };
    let t3 = match T3::from_request_parts(&mut parts) {
        Result::Ok(value) => value,
        Result::Err(rejection) => {
            return rejection.into_response();
        },
    };
    let t4 = match T4::from_request_parts(&mut parts) {
        Result::Ok(value) => value,
        Result::Err(rejection) => {
            return rejection.into_response();
        },
    };
    let t5 = match T5::from_request_parts(&mut parts) {
        Result::Ok(value) => value,
        Result::Err(rejection) => {
            return rejection.into_response();
        },
    };
    let rebuilt = Request::from_parts(parts, body);
    let t6 = match T6::from_request(rebuilt) {
        Result::Ok(value) => value,
        Result::Err(rejection) => {
            return rejection.into_response();
        },
    };
    handler(t1, t2, t3, t4, t5, t6).into_response()
}

/// What binding a seven-parameter function yields: the leading
/// metadata extractors run left to right, then the body extractor; the
/// first rejection short-circuits.
pub open spec fn handler7_response<
    T1: FromRequestParts,
    T2: FromRequestParts,
    T3: FromRequestParts,
    T4: FromRequestParts,
    T5: FromRequestParts,
    T6: FromRequestParts,
    T7: FromRequest,
    R: IntoResponse,
    F: FnOnce(T1, T2, T3, T4, T5, T6, T7) -> R,
>(handler: F, req: ReqView, resp: RespView) -> bool {
    if !T1::accepts(req.parts) {
        resp == T1::rejection_view(req.parts)
    } else {
        let parts1 = T1::parts_after(req.parts);
        if !T2::accepts(parts1) {
            resp == T2::rejection_view(parts1)
        } else {
            let parts2 = T2::parts_after(parts1);
            if !T3::accepts(parts2) {
                resp == T3::rejection_view(parts2)
            } else {
                let parts3 = T3::parts_after(parts2);
                if !T4::accepts(parts3) {
                    resp == T4::rejection_view(parts3)
                } else {
                    let parts4 = T4::parts_after(parts3);
                    if !T5::accepts(parts4) {
                        resp == T5::rejection_view(parts4)
                    } else {
                        let parts5 = T5::parts_after(parts4);
                        if !T6::accepts(parts5) {
                            resp == T6::rejection_view(parts5)
                        } else {
                            let parts6 = T6::parts_after(parts5);
                            let req6 = ReqView { parts: parts6, body: req.body };
                            if !T7::accepts_req(req6) {
                                resp == T7::rejection_from_req(req6)
                            } else {
                                exists|t1: T1, t2: T2, t3: T3, t4: T4, t5: T5, t6: T6, t7: T7, out: R|
                                    T1::value_spec(req.parts, t1) && T2::value_spec(parts1, t2) && T3::value_spec(parts2, t3) && T4::value_spec(parts3, t4) && T5::value_spec(parts4, t5) && T6::value_spec(parts5, t6) && T7::value_from_req(req6, t7)
                                    && #[trigger] call_ensures(handler, (t1, t2, t3, t4, t5, t6, t7), out) && resp == out.resp_spec()
                            }
                        }
                    }
                }
            }
        }
    }
}

/// Bind a function of seven parameters.
pub fn call_handler7<
    T1: FromRequestParts,
    T2: FromRequestParts,
    T3: FromRequestParts,
    T4: FromRequestParts,
    T5: FromRequestParts,
    T6: FromRequestParts,
    T7: FromRequest,
    R: IntoResponse,
    F: FnOnce(T1, T2, T3, T4, T5, T6, T7) -> R,
>(handler: F, req: Request) -> (resp: Response)
    requires
        forall|t1: T1, t2: T2, t3: T3, t4: T4, t5: T5, t6: T6, t7: T7| call_requires(handler, (t1, t2, t3, t4, t5, t6, t7)),
    ensures
        handler7_response::<T1, T2, T3, T4, T5, T6, T7, R, F>(handler, req@, resp@),
{
    let (mut parts, body) = req.into_parts();
    let t1 = match T1::from_request_parts(&mut parts) {
        Result::Ok(value) => value,
        Result::Err(rejection) => {
            return rejection.into_response();
        },
    };
    let t2 = match T2::from_request_parts(&mut parts) {
        Result::Ok(value) => value,
        Result::Err(rejection) => {
            return rejection.into_response();
        },
    };
    let t3 = match T3::from_request_parts(&mut parts) {
        Result::Ok(value) => value,
        Result::Err(rejection) => {
            return rejection.into_response();
        },
    };
    let t4 = match T4::from_request_parts(&mut parts) {
        Result::Ok(value) => value,
        Result::Err(rejection) => {
            return rejection.into_response();
        },
    };
    let t5 = match T5::from_request_parts(&mut parts) {
        Result::Ok(value) => value,
        Result::Err(rejection) => {
            return rejection.into_response();
        },
    };
    let t6 = match T6::from_request_parts(&mut parts) {
        Result::Ok(value) => value,
        Result::Err(rejection) => {
            return rejection.into_response();
        },
    };
    let rebuilt = Request::from_parts(parts, body);
    let t7 = match T7::from_request(rebuilt) {
        Result::Ok(value) => value,
        Result::Err(rejection) => {
            return rejection.into_response();
        },
    };
    handler(t1, t2, t3, t4, t5, t6, t7).into_response()
}

/// What binding a eight-parameter function yields: the leading
/// metadata extractors run left to right, then the body extractor; the
/// first rejection short-circuits.
pub open spec fn handler8_response<
    T1: FromRequestParts,
    T2: FromRequestParts,
    T3: FromRequestParts,
    T4: FromRequestParts,
    T5: FromRequestParts,
    T6: FromRequestParts,
    T7: FromRequestParts,
    T8: FromRequest,
    R: IntoResponse,
    F: FnOnce(T1, T2, T3, T4, T5, T6, T7, T8) -> R,
>(handler: F, req: ReqView, resp: RespView) -> bool {
    if !T1::accepts(req.parts) {
        resp == T1::rejection_view(req.parts)
    } else {
        let parts1 = T1::parts_after(req.parts);
        if !T2::accepts(parts1) {
            resp == T2::rejection_view(parts1)
        } else {
            let parts2 = T2::parts_after(parts1);
            if !T3::accepts(parts2) {
                resp == T3::rejection_view(parts2)
            } else {
                let parts3 = T3::parts_after(parts2);
                if !T4::accepts(parts3) {
                    resp == T4::rejection_view(parts3)
                } else {
                    let parts4 = T4::parts_after(parts3);
                    if !T5::accepts(parts4) {
                        resp == T5::rejection_view(parts4)
                    } else {
                        let parts5 = T5::parts_after(parts4);
                        if !T6::accepts(parts5) {
                            resp == T6::rejection_view(parts5)
                        } else {
                            let parts6 = T6::parts_after(parts5);
                            if !T7::accepts(parts6) {
                                resp == T7::rejection_view(parts6)
                            } else {
                                let parts7 = T7::parts_after(parts6);
                                let req7 = ReqView { parts: parts7, body: req.body };
                                if !T8::accepts_req(req7) {
                                    resp == T8::rejection_from_req(req7)
                                } else {
                                    exists|t1: T1, t2: T2, t3: T3, t4: T4, t5: T5, t6: T6, t7: T7, t8: T8, out: R|
                                        T1::value_spec(req.parts, t1) && T2::value_spec(parts1, t2) && T3::value_spec(parts2, t3) && T4::value_spec(parts3, t4) && T5::value_spec(parts4, t5) && T6::value_spec(parts5, t6) && T7::value_spec(parts6, t7) && T8::value_from_req(req7, t8)
                                        && #[trigger] call_ensures(handler, (t1, t2, t3, t4, t5, t6, t7, t8), out) && resp == out.resp_spec()
                                }
                            }
                        }
                    }
                }
            }
        }
    }
}

/// Bind a function of eight parameters.
pub fn call_handler8<
    T1: FromRequestParts,
    T2: FromRequestParts,
    T3: FromRequestParts,
    T4: FromRequestParts,
    T5: FromRequestParts,
    T6: FromRequestParts,
    T7: FromRequestParts,
    T8: FromRequest,
    R: IntoResponse,
    F: FnOnce(T1, T2, T3, T4, T5, T6, T7, T8) -> R,
>(handler: F, req: Request) -> (resp: Response)
    requires
        forall|t1: T1, t2: T2, t3: T3, t4: T4, t5: T5, t6: T6, t7: T7, t8: T8| call_requires(handler, (t1, t2, t3, t4, t5, t6, t7, t8)),
    ensures
        handler8_response::<T1, T2, T3, T4, T5, T6, T7, T8, R, F>(handler, req@, resp@),
{
    let (mut parts, body) = req.into_parts();
    let t1 = match T1::from_request_parts(&mut parts) {
        Result::Ok(value) => value,
        Result::Err(rejection) => {
            return rejection.into_response();
        },
    };
    let t2 = match T2::from_request_parts(&mut parts) {
        Result::Ok(value) => value,
        Result::Err(rejection) => {
            return rejection.into_response();
        },
    };
    let t3 = match T3::from_request_parts(&mut parts) {
        Result::Ok(value) => value,
        Result::Err(rejection) => {
            return rejection.into_response();
        },
    };
    let t4 = match T4::from_request_parts(&mut parts) {
        Result::Ok(value) => value,
        Result::Err(rejection) => {
            return rejection.into_response();
        },
    };
    let t5 = match T5::from_request_parts(&mut parts) {
        Result::Ok(value) => value,
        Result::Err(rejection) => {
            return rejection.into_response();
        },
    };
    let t6 = match T6::from_request_parts(&mut parts) {
        Result::Ok(value) => value,
        Result::Err(rejection) => {
            return rejection.into_response();
        },
    };
    let t7 = match T7::from_request_parts(&mut parts) {
        Result::Ok(value) => value,
        Result::Err(rejection) => {
            return rejection.into_response();
        },
    };
    let rebuilt = Request::from_parts(parts, body);
    let t8 = match T8::from_request(rebuilt) {
        Result::Ok(value) => value,
        Result::Err(rejection) => {
            return rejection.into_response();
        },
    };
    handler(t1, t2, t3, t4, t5, t6, t7, t8).into_response()
}

} // verus!
