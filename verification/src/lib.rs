//! Decentralized identifiers of the `web` and `plc` methods: parsing and
//! validation, canonical forms, document URLs, and what a fetched document
//! resolves to.
//!
//! A [`DID`] is made by parsing ([`DID::from_str`]) or from its parts
//! ([`DID::new`]); either way its identifier has been held to the grammar
//! of its method. The grammars are predicates on character sequences
//! ([`grammar`]), decided in one pass over the bytes of the text ([`scan`]).
//!
//! The library performs no I/O. To resolve a DID, its caller issues one GET
//! against [`DID::document_url`], decodes the body as a [`DIDDocument`], and
//! hands the outcome in as a [`Fetched`]; [`DID::fetch_document`] and
//! [`DID::resolve_handle`] say what that outcome means.

pub mod did;
pub mod document;
pub mod error;
pub mod grammar;
pub mod laws;
pub mod method;
pub mod resolve;
pub mod scan;

pub use did::{DIDView, DID};
pub use document::{DIDDocument, DIDService, DIDVerificationMethod};
pub use error::DIDError;
pub use method::DIDType;
pub use resolve::Fetched;
