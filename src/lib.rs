//! A small HTTP request router: each route is a regular expression over the
//! request path, anchored at both ends, together with a predicate over the
//! rest of the request and a handler. All paths are compiled into one set of
//! regular expressions, so that a request is matched against every route in
//! one pass; the first route in registration order whose predicate accepts
//! the request handles it.
pub mod captures;
pub mod laws;
pub mod matcher;
pub mod pattern;
pub mod request;
pub mod router;

pub use captures::{CaptureView, Captures};
pub use matcher::{Matcher, Predicate};
pub use request::Request;
pub use router::{routes, Builder, CompileError, Handler, Router};
