//! An embeddable HTTP routing core.
//!
//! Given an incoming method and path, the router resolves the handler that
//! should process the request and extracts any named path parameters; a
//! per-connection state machine drives the read/dispatch/write phases of a
//! request, and a small bootstrap type sizes the worker pool.

pub mod errors;
pub use errors::{ConfigError, SylphError, SylphResult};
pub use method::Method;
pub use params::Params;
pub use request::{
    BodyEvent, HttpRequest, HttpVersion, LifecycleState, Next, RequestHead, ResponseHead,
    WriteEvent,
};
pub use response::HttpResponse;
pub use router::{RegexRouter, Route, Router};
pub use sylph::Sylph;

pub mod matcher;
pub mod method;
pub mod params;
pub mod request;
pub mod response;
pub mod router;
pub mod sylph;
