use vstd::prelude::*;

use crate::body::{chunks_bytes, chunks_len};
use crate::http::{Method, STATUS_BAD_REQUEST, STATUS_INTERNAL_SERVER_ERROR, STATUS_PAYLOAD_TOO_LARGE};
use crate::request::{Parts, PartsView, ReqView, Request};
use crate::response::{plain_view, IntoResponse, Response, RespView};

verus! {

/// Capability: derive a typed value from the request metadata alone, without
/// the body. The contract is exact: `accepts` says on which metadata
/// extraction succeeds, `parts_after` how the metadata is left behind,
/// `value_spec` pins the extracted value, and `rejection_view` pins the
/// response a rejection converts to.
pub trait FromRequestParts: Sized {
    type Rejection: IntoResponse;

    /// Whether extraction succeeds on this metadata.
    spec fn accepts(parts: PartsView) -> bool;

    /// The metadata after extraction ran on it.
    spec fn parts_after(parts: PartsView) -> PartsView;

    /// What it means for `value` to be the value extracted from `parts`.
    spec fn value_spec(parts: PartsView, value: Self) -> bool;

    /// The response that the rejection for this metadata converts to.
    spec fn rejection_view(parts: PartsView) -> RespView;

    /// Extract the value, or reject.
    fn from_request_parts(parts: &mut Parts) -> (extracted: Result<Self, Self::Rejection>)
        ensures
            final(parts)@ == Self::parts_after(old(parts)@),
            extracted matches Ok(value) ==> Self::accepts(old(parts)@) && Self::value_spec(
                old(parts)@,
                value,
            ),
            extracted matches Err(rejection) ==> !Self::accepts(old(parts)@)
                && rejection.resp_spec() == Self::rejection_view(old(parts)@),
    ;
}

/// Capability: derive a typed value from the full request, consuming the
/// body. Exactly one such extractor runs per handler, as its last parameter.
pub trait FromRequest: Sized {
    type Rejection: IntoResponse;

    /// Whether extraction succeeds on this request.
    spec fn accepts_req(req: ReqView) -> bool;

    /// What it means for `value` to be the value extracted from `req`.
    spec fn value_from_req(req: ReqView, value: Self) -> bool;

    /// The response that the rejection for this request converts to.
    spec fn rejection_from_req(req: ReqView) -> RespView;

    /// Extract the value, or reject.
    fn from_request(req: Request) -> (extracted: Result<Self, Self::Rejection>)
        ensures
            extracted matches Ok(value) ==> Self::accepts_req(req@) && Self::value_from_req(
                req@,
                value,
            ),
            extracted matches Err(rejection) ==> !Self::accepts_req(req@)
                && rejection.resp_spec() == Self::rejection_from_req(req@),
    ;
}

/// A rejection for extractors that never fail: no extractor ever constructs
/// a value of it, so its conversion is never reached.
pub struct NoRejection;

impl IntoResponse for NoRejection {
    open spec fn resp_spec(self) -> RespView {
        crate::response::default_view()
    }

    fn into_response(self) -> (resp: Response) {
        Response::empty()
    }
}

/// The request method is metadata; extracting it never fails and leaves the
/// metadata unchanged.
impl FromRequestParts for Method {
    type Rejection = NoRejection;

    open spec fn accepts(parts: PartsView) -> bool {
        true
    }

    open spec fn parts_after(parts: PartsView) -> PartsView {
        parts
    }

    open spec fn value_spec(parts: PartsView, value: Method) -> bool {
        value == parts.method
    }

    open spec fn rejection_view(parts: PartsView) -> RespView {
        arbitrary()
    }

    fn from_request_parts(parts: &mut Parts) -> (extracted: Result<Method, NoRejection>) {
        Ok(parts.method)
    }
}

/// The value of the first path parameter the router captured.
pub struct PathParam(pub String);

/// Rejection of [`PathParam`] on a route that captured no parameter: a
/// programming mistake in the route table, answered with an internal error.
pub struct MissingPathParam;

impl IntoResponse for MissingPathParam {
    open spec fn resp_spec(self) -> RespView {
        plain_view(STATUS_INTERNAL_SERVER_ERROR, Seq::empty())
    }

    fn into_response(self) -> (resp: Response) {
        STATUS_INTERNAL_SERVER_ERROR.into_response()
    }
}

impl FromRequestParts for PathParam {
    type Rejection = MissingPathParam;

    open spec fn accepts(parts: PartsView) -> bool {
        parts.params.len() > 0
    }

    open spec fn parts_after(parts: PartsView) -> PartsView {
        parts
    }

    open spec fn value_spec(parts: PartsView, value: PathParam) -> bool {
        value.0@ == parts.params[0].1
    }

    open spec fn rejection_view(parts: PartsView) -> RespView {
        plain_view(STATUS_INTERNAL_SERVER_ERROR, Seq::empty())
    }

    fn from_request_parts(parts: &mut Parts) -> (extracted: Result<PathParam, MissingPathParam>) {
        if parts.params.len() > 0 {
            let value = parts.params[0].1.clone();
            Ok(PathParam(value))
        } else {
            Err(MissingPathParam)
        }
    }
}

/// The unit extractor: asks nothing of the request and drops the body. A
/// handler whose last parameter is `()` reads no body.
impl FromRequest for () {
    type Rejection = NoRejection;

    open spec fn accepts_req(req: ReqView) -> bool {
        true
    }

    open spec fn value_from_req(req: ReqView, value: ()) -> bool {
        true
    }

    open spec fn rejection_from_req(req: ReqView) -> RespView {
        arbitrary()
    }

    fn from_request(req: Request) -> (extracted: Result<(), NoRejection>) {
        Ok(())
    }
}

/// The whole body, collected into one flat byte vector.
pub struct BodyBytes(pub Vec<u8>);

/// Rejection of [`BodyBytes`] on a body too large for one vector.
pub struct BodyTooLarge;

impl IntoResponse for BodyTooLarge {
    open spec fn resp_spec(self) -> RespView {
        plain_view(STATUS_PAYLOAD_TOO_LARGE, Seq::empty())
    }

    fn into_response(self) -> (resp: Response) {
        STATUS_PAYLOAD_TOO_LARGE.into_response()
    }
}

impl FromRequest for BodyBytes {
    type Rejection = BodyTooLarge;

    open spec fn accepts_req(req: ReqView) -> bool {
        chunks_len(req.body) <= usize::MAX
    }

    open spec fn value_from_req(req: ReqView, value: BodyBytes) -> bool {
        value.0@ == chunks_bytes(req.body)
    }

    open spec fn rejection_from_req(req: ReqView) -> RespView {
        plain_view(STATUS_PAYLOAD_TOO_LARGE, Seq::empty())
    }

    fn from_request(req: Request) -> (extracted: Result<BodyBytes, BodyTooLarge>) {
        let (_parts, mut body) = req.into_parts();
        match body.collect_bytes() {
            Option::Some(bytes) => {
                proof {
                    crate::body::lemma_chunks_bytes_len(req@.body);
                    vstd::std_specs::vec::axiom_spec_len(&bytes);
                }
                Ok(BodyBytes(bytes))
            },
            Option::None => Err(BodyTooLarge),
        }
    }
}

/// Whether every byte is an ASCII decimal digit, with at least one of them.
pub open spec fn is_digits(s: Seq<u8>) -> bool {
    s.len() > 0 && forall|i: int| 0 <= i < s.len() ==> 48 <= #[trigger] s[i] <= 57
}

/// The number written by a sequence of ASCII decimal digits.
pub open spec fn digits_value(s: Seq<u8>) -> int
    decreases s.len(),
{
    if s.len() == 0 {
        0
    } else {
        digits_value(s.drop_last()) * 10 + (s.last() - 48)
    }
}

/// The value of a digit prefix never exceeds the value of the whole.
proof fn lemma_digits_value_monotone(s: Seq<u8>, i: int)
    requires
        0 <= i <= s.len(),
        forall|j: int| 0 <= j < s.len() ==> 48 <= #[trigger] s[j] <= 57,
    ensures
        0 <= digits_value(s.take(i)) <= digits_value(s),
    decreases s.len(),
{
    if s.len() == 0 {
        assert(s.take(i) =~= s);
    } else if i == s.len() {
        assert(s.take(i) =~= s);
        lemma_digits_value_monotone(s.drop_last(), s.len() - 1);
    } else {
        assert(s.take(i) =~= s.drop_last().take(i));
        lemma_digits_value_monotone(s.drop_last(), i);
    }
}

/// The whole body read as one unsigned decimal number.
pub struct BodyUint(pub u64);

/// Rejection of [`BodyUint`]: the body is not a number this extractor takes.
pub struct NotANumber;

impl IntoResponse for NotANumber {
    open spec fn resp_spec(self) -> RespView {
        plain_view(STATUS_BAD_REQUEST, Seq::empty())
    }

    fn into_response(self) -> (resp: Response) {
        STATUS_BAD_REQUEST.into_response()
    }
}

impl FromRequest for BodyUint {
    type Rejection = NotANumber;

    open spec fn accepts_req(req: ReqView) -> bool {
        chunks_len(req.body) <= usize::MAX && is_digits(chunks_bytes(req.body)) && digits_value(
            chunks_bytes(req.body),
        ) <= u64::MAX
    }

    open spec fn value_from_req(req: ReqView, value: BodyUint) -> bool {
        value.0 == digits_value(chunks_bytes(req.body))
    }

    open spec fn rejection_from_req(req: ReqView) -> RespView {
        plain_view(STATUS_BAD_REQUEST, Seq::empty())
    }

    fn from_request(req: Request) -> (extracted: Result<BodyUint, NotANumber>) {
        let (_parts, mut body) = req.into_parts();
        let ghost bodyv = body@;
        let bytes = match body.collect_bytes() {
            Option::Some(bytes) => bytes,
            Option::None => {
                return Err(NotANumber);
            },
        };
        if bytes.len() == 0 {
            return Err(NotANumber);
        }
        let ghost all = bytes@;
        let mut value: u64 = 0;
        let mut i: usize = 0;
        while i < bytes.len()
            invariant
                all == bytes@,
                all == chunks_bytes(req@.body),
                all.len() > 0,
                0 <= i <= all.len(),
                forall|j: int| 0 <= j < i ==> 48 <= #[trigger] all[j] <= 57,
                value == digits_value(all.take(i as int)),
            decreases bytes.len() - i,
        {
            let b = bytes[i];
            if b < 48 || b > 57 {
                return Err(NotANumber);
            }
            let digit = (b - 48) as u64;
            if value > (u64::MAX - digit) / 10 {
                // the number written so far already overflows with this digit
                proof {
                    lemma_take_succ_bytes(all, i as int);
                    assert(digits_value(all.take(i + 1)) > u64::MAX);
                    if is_digits(all) {
                        lemma_digits_value_monotone(all, i + 1);
                    }
                }
                return Err(NotANumber);
            }
            proof {
                lemma_take_succ_bytes(all, i as int);
            }
            value = value * 10 + digit;
            i = i + 1;
        }
        proof {
            assert(all.take(all.len() as int) =~= all);
            crate::body::lemma_chunks_bytes_len(req@.body);
            vstd::std_specs::vec::axiom_spec_len(&bytes);
        }
        Ok(BodyUint(value))
    }
}

proof fn lemma_take_succ_bytes(s: Seq<u8>, i: int)
    requires
        0 <= i < s.len(),
    ensures
        s.take(i + 1).drop_last() == s.take(i),
        s.take(i + 1).last() == s[i],
        digits_value(s.take(i + 1)) == digits_value(s.take(i)) * 10 + (s[i] - 48),
{
    assert(s.take(i + 1).drop_last() =~= s.take(i));
}

} // verus!
