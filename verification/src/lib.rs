//! A verified request-dispatch core for an HTTP server.
//!
//! The crate routes an incoming request to the handler registered for its
//! path and method, binds typed arguments to the handler through an
//! extraction contract, and converts the handler's return value into a wire
//! response. Path patterns are matched by the `matchit` radix trie, which is
//! reached only through trusted declarations; everything around it — method
//! tables, merging, fallbacks, middleware layering, extraction and response
//! conversion — is verified.
//!
//! Middleware is modelled as data: the closed [`route::Layer`] algebra of
//! request rewrites, response rewrites and their composition, not an open
//! trait an outside transformation could implement, because only such data
//! can be verified. Construction mistakes — a method registered twice on one
//! path, an ambiguous pattern, two explicit fallbacks — come back as `Err`
//! values rather than aborting, since verified code never panics; an
//! embedding should treat them as fatal, as the tables are fixed at startup.

pub mod body;
pub mod extract;
pub mod handler;
pub mod http;
pub mod laws;
pub mod method_router;
pub mod request;
pub mod response;
pub mod route;
pub mod router;
pub mod trie;
