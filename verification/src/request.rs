use vstd::prelude::*;

use crate::body::Body;
use crate::http::Method;

verus! {

/// View of a list of name/value string pairs: headers or path parameters.
pub open spec fn pairs_view(v: Seq<(String, String)>) -> Seq<(Seq<char>, Seq<char>)> {
    v.map_values(|p: (String, String)| (p.0@, p.1@))
}

/// The metadata of a request: everything except the body. Metadata
/// extractors work on a `Parts` value alone, so they can never touch the
/// body.
pub struct Parts {
    pub method: Method,
    pub path: String,
    pub headers: Vec<(String, String)>,
    /// Path parameters captured while the router matched `path` against a
    /// registered pattern; empty until a router fills them in.
    pub params: Vec<(String, String)>,
}

/// Ghost form of `Parts`.
#[verifier::ext_equal]
pub struct PartsView {
    pub method: Method,
    pub path: Seq<char>,
    pub headers: Seq<(Seq<char>, Seq<char>)>,
    pub params: Seq<(Seq<char>, Seq<char>)>,
}

impl View for Parts {
    type V = PartsView;

    open spec fn view(&self) -> PartsView {
        PartsView {
            method: self.method,
            path: self.path@,
            headers: pairs_view(self.headers@),
            params: pairs_view(self.params@),
        }
    }
}

/// An inbound request: metadata plus the single owned body.
pub struct Request {
    pub parts: Parts,
    pub body: Body,
}

/// Ghost form of `Request`.
#[verifier::ext_equal]
pub struct ReqView {
    pub parts: PartsView,
    pub body: Seq<Seq<u8>>,
}

impl View for Request {
    type V = ReqView;

    open spec fn view(&self) -> ReqView {
        ReqView { parts: self.parts@, body: self.body@ }
    }
}

impl Request {
    /// A request with the given line data and body, and no headers or
    /// captured parameters yet.
    pub fn new(method: Method, path: String, body: Body) -> (req: Request)
        ensures
            req@.parts.method == method,
            req@.parts.path == path@,
            req@.parts.headers == Seq::<(Seq<char>, Seq<char>)>::empty(),
            req@.parts.params == Seq::<(Seq<char>, Seq<char>)>::empty(),
            req@.body == body@,
    {
        let req = Request {
            parts: Parts { method, path, headers: Vec::new(), params: Vec::new() },
            body,
        };
        proof {
            assert(req@.parts.headers =~= Seq::<(Seq<char>, Seq<char>)>::empty());
            assert(req@.parts.params =~= Seq::<(Seq<char>, Seq<char>)>::empty());
        }
        req
    }

    /// Split the request into its metadata and its body. Splitting loses
    /// nothing: `from_parts` rebuilds the identical request.
    pub fn into_parts(self) -> (split: (Parts, Body))
        ensures
            split.0@ == self@.parts,
            split.1@ == self@.body,
    {
        (self.parts, self.body)
    }

    /// Reassemble a request from metadata and a body, whether or not the
    /// metadata was changed in between.
    pub fn from_parts(parts: Parts, body: Body) -> (req: Request)
        ensures
            req@ == (ReqView { parts: parts@, body: body@ }),
    {
        let req = Request { parts, body };
        proof {
            assert(req@ =~= (ReqView { parts: req.parts@, body: req.body@ }));
        }
        req
    }
}

} // verus!
