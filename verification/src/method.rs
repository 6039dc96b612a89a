//! The methods of a DID, and what each of them owns: a name, a grammar for
//! its identifiers, and the place where its documents are found.

use vstd::prelude::*;
use vstd::string::StrSliceExecFns;
use crate::error::DIDError;
use crate::grammar::{did_text, is_plc_identifier, is_web_identifier};

verus! {

/// The method of a DID: the namespace that says what its identifiers look
/// like and how they resolve to a document.
#[derive(Debug, Clone, Copy, PartialEq, Eq, Structural)]
pub enum DIDType {
    /// `did:web`: the identifier is a host name.
    Web,
    /// `did:plc`: the identifier is a key of the PLC directory.
    PLC,
}

impl DIDType {
    /// The method name as it stands in a DID string.
    pub open spec fn name(self) -> Seq<char> {
        match self {
            DIDType::Web => "web"@,
            DIDType::PLC => "plc"@,
        }
    }

    /// The method of this name, if there is one.
    pub open spec fn named(name: Seq<char>) -> Option<DIDType> {
        if name == DIDType::Web.name() {
            Some(DIDType::Web)
        } else if name == DIDType::PLC.name() {
            Some(DIDType::PLC)
        } else {
            None
        }
    }

    /// Whether the text is an identifier of this method.
    pub open spec fn accepts(self, identifier: Seq<char>) -> bool {
        match self {
            DIDType::Web => is_web_identifier(identifier),
            DIDType::PLC => is_plc_identifier(identifier),
        }
    }

    /// The URL of the document of the DID with this method and identifier.
    pub open spec fn document_url(self, identifier: Seq<char>) -> Seq<char> {
        match self {
            DIDType::Web => "https://"@ + identifier + "/.well-known/did.json"@,
            DIDType::PLC => "https://plc.directory/"@ + did_text(self.name(), identifier),
        }
    }

    /// Looks a method up by its name.
    pub fn from_str(s: &str) -> (r: Result<DIDType, DIDError>)
        ensures
            r == (match DIDType::named(s@) {
                Some(method) => Ok::<DIDType, DIDError>(method),
                None => Err::<DIDType, DIDError>(DIDError::UnsupportedMethod),
            }),
    {
        proof {
            reveal_strlit("web");
            reveal_strlit("plc");
        }
        if s.unicode_len() != 3 {
            return Err(DIDError::UnsupportedMethod);
        }
        let a = s.get_char(0);
        let b = s.get_char(1);
        let c = s.get_char(2);
        if a == 'w' && b == 'e' && c == 'b' {
            assert(s@ =~= "web"@);
            Ok(DIDType::Web)
        } else if a == 'p' && b == 'l' && c == 'c' {
            assert(s@ =~= "plc"@);
            Ok(DIDType::PLC)
        } else {
            Err(DIDError::UnsupportedMethod)
        }
    }

    /// The method name.
    pub fn as_str(&self) -> (r: &'static str)
        ensures
            r@ == self.name(),
    {
        match self {
            DIDType::Web => "web",
            DIDType::PLC => "plc",
        }
    }
}

} // verus!
