//! Protocol errors and the HTTP status each one is answered with.

use vstd::prelude::*;

verus! {

/// An ACP error: the HTTP status it is answered with and its message (the
/// specification's `ErrorResponse` is a plain string).
#[derive(Debug)]
pub struct AcpError {
    pub status: u16,
    pub message: String,
}

/// The value of an error.
pub struct AcpErrorV {
    pub status: u16,
    pub message: Seq<char>,
}

impl View for AcpError {
    type V = AcpErrorV;

    open spec fn view(&self) -> AcpErrorV {
        AcpErrorV { status: self.status, message: self.message@ }
    }
}

/// HTTP 404 Not Found.
pub const NOT_FOUND: u16 = 404;

/// HTTP 409 Conflict.
pub const CONFLICT: u16 = 409;

/// HTTP 422 Unprocessable Entity.
pub const UNPROCESSABLE_ENTITY: u16 = 422;

/// HTTP 500 Internal Server Error.
pub const INTERNAL_SERVER_ERROR: u16 = 500;

impl AcpError {
    /// A missing agent, thread or run.
    pub fn not_found(msg: String) -> (r: Self)
        ensures
            r@ == (AcpErrorV { status: NOT_FOUND, message: msg@ }),
    {
        AcpError { status: NOT_FOUND, message: msg }
    }

    /// A request that clashes with the current state.
    pub fn conflict(msg: String) -> (r: Self)
        ensures
            r@ == (AcpErrorV { status: CONFLICT, message: msg@ }),
    {
        AcpError { status: CONFLICT, message: msg }
    }

    /// A request that this server does not support.
    pub fn validation(msg: String) -> (r: Self)
        ensures
            r@ == (AcpErrorV { status: UNPROCESSABLE_ENTITY, message: msg@ }),
    {
        AcpError { status: UNPROCESSABLE_ENTITY, message: msg }
    }

    /// A failure inside the server.
    pub fn internal(msg: String) -> (r: Self)
        ensures
            r@ == (AcpErrorV { status: INTERNAL_SERVER_ERROR, message: msg@ }),
    {
        AcpError { status: INTERNAL_SERVER_ERROR, message: msg }
    }
}

/// The value of a result whose error is an `AcpError`.
pub open spec fn result_view<T: View>(r: Result<T, AcpError>) -> Result<T::V, AcpErrorV> {
    match r {
        Ok(t) => Ok(t@),
        Err(e) => Err(e@),
    }
}

} // verus!
