//! The failures that parsing and resolution report.

use vstd::prelude::*;

verus! {

/// Why a DID could not be parsed, or why its document or handle could not be had.
#[derive(Debug, Clone, Copy, PartialEq, Eq, Structural)]
pub enum DIDError {
    /// The string is not of the form `did:<method>:<identifier>`.
    SyntaxError,
    /// The method name is none that this library knows.
    UnsupportedMethod,
    /// The identifier breaks the grammar of its method.
    InvalidIdentifier,
    /// The transport failed while the document was fetched.
    NetworkError,
    /// The response body is not a DID document.
    DecodeError,
    /// The document names no handle.
    MissingHandle,
}

} // verus!
