use vstd::prelude::*;

use crate::body::Body;
use crate::http::STATUS_OK;
use crate::request::pairs_view;
use vstd::utf8::encode_utf8;

verus! {

/// An outbound response: status, headers, and the single owned body.
pub struct Response {
    pub status: u16,
    pub headers: Vec<(String, String)>,
    pub body: Body,
}

/// Ghost form of `Response`.
#[verifier::ext_equal]
pub struct RespView {
    pub status: u16,
    pub headers: Seq<(Seq<char>, Seq<char>)>,
    pub body: Seq<Seq<u8>>,
}

impl View for Response {
    type V = RespView;

    open spec fn view(&self) -> RespView {
        RespView {
            status: self.status,
            headers: pairs_view(self.headers@),
            body: self.body@,
        }
    }
}

/// The view of a response with the given status, no headers, and the given
/// body chunks.
pub open spec fn plain_view(status: u16, body: Seq<Seq<u8>>) -> RespView {
    RespView { status, headers: Seq::empty(), body }
}

/// The view of the default response: empty with status of success.
pub open spec fn default_view() -> RespView {
    plain_view(STATUS_OK, Seq::empty())
}

impl Response {
    /// A response of status of success carrying the given body.
    pub fn new(body: Body) -> (resp: Response)
        ensures
            resp@ == plain_view(STATUS_OK, body@),
    {
        let resp = Response { status: STATUS_OK, headers: Vec::new(), body };
        proof {
            assert(resp@ =~= plain_view(STATUS_OK, resp.body@));
        }
        resp
    }

    /// The default response: status of success, no headers, empty body.
    pub fn empty() -> (resp: Response)
        ensures
            resp@ == default_view(),
    {
        let resp = Response::new(Body::empty());
        proof {
            assert(resp@ =~= default_view());
        }
        resp
    }
}

impl Default for Response {
    /// Same as [`Response::empty`].
    fn default() -> (resp: Response)
        ensures
            resp@ == default_view(),
    {
        Response::empty()
    }
}

/// The capability of being converted into a response. Every handler return
/// value, and every extractor rejection, has it; a request therefore always
/// ends in a response.
pub trait IntoResponse: Sized {
    /// The exact response this value converts to.
    spec fn resp_spec(self) -> RespView;

    /// Convert the value into its response.
    fn into_response(self) -> (resp: Response)
        ensures
            resp@ == self.resp_spec(),
    ;
}

impl IntoResponse for Response {
    open spec fn resp_spec(self) -> RespView {
        self@
    }

    fn into_response(self) -> (resp: Response) {
        self
    }
}

impl IntoResponse for () {
    open spec fn resp_spec(self) -> RespView {
        default_view()
    }

    fn into_response(self) -> (resp: Response) {
        Response::empty()
    }
}

/// A bare status code converts to an empty response with that status.
impl IntoResponse for u16 {
    open spec fn resp_spec(self) -> RespView {
        plain_view(self, Seq::empty())
    }

    fn into_response(self) -> (resp: Response) {
        let mut resp = Response::empty();
        resp.status = self;
        proof {
            assert(resp@ =~= plain_view(self, Seq::<Seq<u8>>::empty()));
        }
        resp
    }
}

/// A body converts to a response of status of success carrying it.
impl IntoResponse for Body {
    open spec fn resp_spec(self) -> RespView {
        plain_view(STATUS_OK, self@)
    }

    fn into_response(self) -> (resp: Response) {
        Response::new(self)
    }
}

/// Raw bytes convert to a response of status of success whose body is that
/// one chunk.
impl IntoResponse for Vec<u8> {
    open spec fn resp_spec(self) -> RespView {
        plain_view(STATUS_OK, seq![self@])
    }

    fn into_response(self) -> (resp: Response) {
        Response::new(Body::from_bytes(self))
    }
}

/// Text converts to a response of status of success whose body is the text's
/// bytes as one chunk.
impl IntoResponse for String {
    open spec fn resp_spec(self) -> RespView {
        plain_view(STATUS_OK, seq![encode_utf8(self@)])
    }

    fn into_response(self) -> (resp: Response) {
        let bytes = text_bytes(&self);
        Response::new(Body::from_bytes(bytes))
    }
}

/// Borrowed text converts like owned text: a response of status of success
/// whose body is the text's bytes as one chunk.
impl IntoResponse for &'static str {
    open spec fn resp_spec(self) -> RespView {
        plain_view(STATUS_OK, seq![encode_utf8(self@)])
    }

    fn into_response(self) -> (resp: Response) {
        let owned = self.to_owned();
        let bytes = text_bytes(&owned);
        Response::new(Body::from_bytes(bytes))
    }
}

/// A fallible value converts through whichever branch it holds; a failure is
/// still a response, never a failed request.
impl<T: IntoResponse, E: IntoResponse> IntoResponse for Result<T, E> {
    open spec fn resp_spec(self) -> RespView {
        match self {
            Result::Ok(value) => value.resp_spec(),
            Result::Err(error) => error.resp_spec(),
        }
    }

    fn into_response(self) -> (resp: Response) {
        match self {
            Result::Ok(value) => value.into_response(),
            Result::Err(error) => error.into_response(),
        }
    }
}

/// The bytes of a piece of text.
pub fn text_bytes(text: &String) -> (bytes: Vec<u8>)
    ensures
        bytes@ == encode_utf8(text@),
{
    let mut bytes: Vec<u8> = Vec::new();
    bytes.extend_from_slice(text.as_str().as_bytes());
    proof {
        assert(bytes@ =~= encode_utf8(text@));
    }
    bytes
}

} // verus!
