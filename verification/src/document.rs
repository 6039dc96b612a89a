//! The DID document: what a DID resolves to.

use vstd::prelude::*;

verus! {

/// A public key that a document lists.
#[derive(Debug, Clone, PartialEq, Eq)]
pub struct DIDVerificationMethod {
    /// `id` on the wire.
    pub id: String,
    /// `type` on the wire.
    pub kind: String,
    /// `controller` on the wire.
    pub controller: String,
    /// `publicKeyMultibase` on the wire.
    pub public_key: String,
}

/// A service endpoint that a document lists.
#[derive(Debug, Clone, PartialEq, Eq)]
pub struct DIDService {
    /// `id` on the wire.
    pub id: String,
    /// `type` on the wire.
    pub kind: String,
    /// `serviceEndpoint` on the wire.
    pub service_endpoint: String,
}

/// The descriptor that a DID resolves to. Each list keeps the order in
/// which the wire gave it.
#[derive(Debug, Clone, PartialEq, Eq)]
pub struct DIDDocument {
    /// `@context` on the wire.
    pub context: Vec<String>,
    /// `id` on the wire: the DID that the document describes.
    pub id: String,
    /// `alsoKnownAs` on the wire: the aliases of the DID, the handle first.
    pub also_known_as: Vec<String>,
    /// `verificationMethod` on the wire.
    pub verification_method: Vec<DIDVerificationMethod>,
    /// `service` on the wire.
    pub service: Vec<DIDService>,
}

impl DIDDocument {
    /// The handle that the document names: its first alias, whatever that
    /// alias looks like.
    pub open spec fn spec_handle(self) -> Option<Seq<char>> {
        if self.also_known_as@.len() > 0 {
            Some(self.also_known_as@[0]@)
        } else {
            None
        }
    }

    /// The handle that the document names, if it names any.
    pub fn handle(&self) -> (r: Option<&String>)
        ensures
            match r {
                Some(handle) => self.spec_handle() == Some(handle@),
                None => self.spec_handle().is_none(),
            },
    {
        if self.also_known_as.len() > 0 {
            Some(&self.also_known_as[0])
        } else {
            None
        }
    }
}

} // verus!
