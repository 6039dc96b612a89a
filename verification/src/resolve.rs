//! From the outcome of one GET to a document and a handle.
//!
//! The library performs no I/O. Its caller requests `DID::document_url`
//! once, decodes the body, and hands in what came of that as a `Fetched`.

use vstd::prelude::*;
use crate::did::DID;
use crate::document::DIDDocument;
use crate::error::DIDError;

verus! {

/// What one GET of a document URL came to.
#[derive(Debug, Clone, PartialEq, Eq)]
pub enum Fetched {
    /// The transport failed: no connection, a TLS failure, a timeout.
    TransportFailed,
    /// A body arrived that is not well-formed, or not of the shape of a
    /// DID document.
    Malformed,
    /// A body arrived and decoded to this document.
    Document(DIDDocument),
}

impl Fetched {
    /// The document that was fetched, or the failure that stands for what
    /// went wrong.
    pub open spec fn document(self) -> Result<DIDDocument, DIDError> {
        match self {
            Fetched::TransportFailed => Err(DIDError::NetworkError),
            Fetched::Malformed => Err(DIDError::DecodeError),
            Fetched::Document(document) => Ok(document),
        }
    }

    /// The handle of the document that was fetched, or the failure that
    /// stands for what went wrong.
    pub open spec fn handle(self) -> Result<Seq<char>, DIDError> {
        match self.document() {
            Err(e) => Err(e),
            Ok(document) => match document.spec_handle() {
                Some(handle) => Ok(handle),
                None => Err(DIDError::MissingHandle),
            },
        }
    }
}

impl DID {
    /// The document of this DID, given what the GET of `document_url` came
    /// to. The `id` of the document is not held against this DID.
    pub fn fetch_document(&self, fetched: Fetched) -> (r: Result<DIDDocument, DIDError>)
        ensures
            r == fetched.document(),
    {
        match fetched {
            Fetched::TransportFailed => Err(DIDError::NetworkError),
            Fetched::Malformed => Err(DIDError::DecodeError),
            Fetched::Document(document) => Ok(document),
        }
    }

    /// The handle of this DID, given what the GET of `document_url` came
    /// to: the first alias of the document.
    pub fn resolve_handle(&self, fetched: Fetched) -> (r: Result<String, DIDError>)
        ensures
            match r {
                Ok(handle) => fetched.handle() == Ok::<Seq<char>, DIDError>(handle@),
                Err(e) => fetched.handle() == Err::<Seq<char>, DIDError>(e),
            },
    {
        let document = match self.fetch_document(fetched) {
            Err(e) => { return Err(e); },
            Ok(document) => document,
        };
        match document.handle() {
            Some(handle) => Ok(handle.clone()),
            None => Err(DIDError::MissingHandle),
        }
    }
}

} // verus!
