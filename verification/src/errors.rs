//! The service's error kinds and their mapping to HTTP status codes.

use vstd::prelude::*;

verus! {

/// Everything that can go wrong in the service. `Config` and `Migration`
/// are fatal at startup; the others surface per request as an HTTP status.
#[derive(Clone, Copy, PartialEq, Eq, Structural, Debug)]
pub enum ServiceError {
    /// The connection string is missing or invalid (fatal at startup).
    Config,
    /// Applying the schema migration failed (fatal at startup).
    Migration,
    /// No connection could be handed out before the connect timeout.
    PoolExhausted,
    /// The store could not be reached.
    Connection,
    /// The row an update or delete addressed does not exist.
    NotFound,
    /// A query or path parameter is malformed.
    Validation,
    /// The store reported an I/O or constraint failure.
    Store,
}

/// The HTTP status an error is reported with: bad input is the client's
/// fault (4xx), everything else the server's (5xx).
pub open spec fn spec_status_of(e: ServiceError) -> u16 {
    match e {
        ServiceError::Validation => 400,
        ServiceError::NotFound => 404,
        _ => 500,
    }
}

/// Maps an error to the HTTP status code it is reported with.
pub fn status_of(e: ServiceError) -> (r: u16)
    ensures
        r == spec_status_of(e),
{
    match e {
        ServiceError::Validation => 400,
        ServiceError::NotFound => 404,
        _ => 500,
    }
}

} // verus!
