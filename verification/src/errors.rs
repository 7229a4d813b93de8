use vstd::prelude::*;

verus! {

/// Shorthand for results whose failure is a request-time routing or handler
/// error.
pub type SylphResult<T> = Result<T, SylphError>;

/// A request-time failure: an ordinary outcome of resolving or handling a
/// request, mapped to an HTTP status code when the response head is written.
#[derive(PartialEq, Eq, Structural, Clone, Copy, Debug)]
pub enum SylphError {
    NotFound,
    NotAllowed,
    InternalServerError,
}

/// A configuration failure at registration or build time. The embedding
/// program is expected to abort on one of these rather than serve requests
/// from a router in an inconsistent state.
#[derive(PartialEq, Eq, Structural, Clone, Copy, Debug)]
pub enum ConfigError {
    /// A registered path was empty or did not start with `/`.
    InvalidPath,
    /// A registered path pattern failed to compile.
    InvalidPattern,
    /// The combined multi-pattern matcher could not be assembled even though
    /// every pattern compiled on its own.
    MatcherBuild,
}

/// The HTTP status code that a request-time error is reported as.
pub open spec fn spec_status_of(e: SylphError) -> u16 {
    match e {
        SylphError::NotFound => 404,
        SylphError::NotAllowed => 405,
        SylphError::InternalServerError => 500,
    }
}

impl SylphError {
    /// Maps the error to its HTTP status code: NotFound to 404, NotAllowed to
    /// 405, InternalServerError to 500.
    pub fn status_code(&self) -> (r: u16)
        ensures
            r == spec_status_of(*self),
    {
        match self {
            SylphError::NotFound => 404,
            SylphError::NotAllowed => 405,
            SylphError::InternalServerError => 500,
        }
    }
}

} // verus!
