use vstd::prelude::*;

verus! {

/// The fixed set of request methods a method table has a slot for.
#[derive(Clone, Copy, Debug, PartialEq, Eq, Structural, Hash)]
pub enum Method {
    Get,
    Head,
    Post,
    Put,
    Patch,
    Delete,
    Options,
    Trace,
    Connect,
}

/// Status of a response produced without consulting any handler: the router's
/// built-in not-found answer.
pub const STATUS_NOT_FOUND: u16 = 404;

/// Status of the built-in answer for a path whose method table has no slot
/// for the request's method.
pub const STATUS_METHOD_NOT_ALLOWED: u16 = 405;

/// Status of the default response.
pub const STATUS_OK: u16 = 200;

/// Status answering a request whose data an extractor rejected.
pub const STATUS_BAD_REQUEST: u16 = 400;

/// Status answering a request whose body is too large to collect.
pub const STATUS_PAYLOAD_TOO_LARGE: u16 = 413;

/// Status answering a request that exposed a mistake in the route table.
pub const STATUS_INTERNAL_SERVER_ERROR: u16 = 500;

} // verus!
