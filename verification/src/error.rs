//! The error taxonomy of every operation: failures decoding a response,
//! errors the service reported, and transport failures.

use vstd::prelude::*;

verus! {

/// Why an operation failed. Every failure propagates unchanged to the
/// caller; nothing is retried or swallowed.
#[derive(Debug, Clone, PartialEq, Eq)]
pub enum Error {
    /// The response body was not the expected shape.
    Decode,
    /// The service answered with a structured error; the body carrying its
    /// code and message is kept for caller inspection.
    Server { status_code: u16, body: String },
    /// The transport failed before any response arrived.
    Transport { message: String },
}

} // verus!
