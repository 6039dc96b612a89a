//! The DID value: a method and an identifier that the method accepts.

use vstd::prelude::*;
use vstd::string::{StrSliceExecFns, StringExecFns};
use crate::error::DIDError;
use crate::grammar::{did_parts, did_text, is_did_syntax, lemma_grammars_are_ascii};
use crate::laws::{lemma_no_quotes, lemma_parse_canonical};
use crate::method::DIDType;
use crate::scan::{ascii_text, plc_identifier_matches, split_did, web_identifier_matches};

verus! {

/// A DID as contracts speak of it: the method, and the identifier as a
/// sequence of characters.
pub struct DIDView {
    pub method: DIDType,
    pub identifier: Seq<char>,
}

impl DIDView {
    /// The identifier is one that the method accepts.
    pub open spec fn valid(self) -> bool {
        self.method.accepts(self.identifier)
    }

    /// `did:<method-name>:<identifier>`.
    pub open spec fn canonical(self) -> Seq<char> {
        did_text(self.method.name(), self.identifier)
    }

    /// `at://did:<method-name>:<identifier>`.
    pub open spec fn uri(self) -> Seq<char> {
        "at://"@ + self.canonical()
    }

    /// The URL under which the document of this DID is found.
    pub open spec fn document_url(self) -> Seq<char> {
        self.method.document_url(self.identifier)
    }
}

/// What parsing makes of a string: the DID that it spells, or the reason
/// why it spells none.
///
/// A string that is not of the form `did:<lowercase-letters>:<remainder>`
/// is a syntax error. Of one that is, the letters are the method name and
/// the whole remainder is the identifier: a name that no method bears is an
/// unsupported method, and an identifier that the method does not accept is
/// an invalid identifier.
pub open spec fn spec_parse(s: Seq<char>) -> Result<DIDView, DIDError> {
    if !is_did_syntax(s) {
        Err(DIDError::SyntaxError)
    } else {
        match DIDType::named(did_parts(s).0) {
            None => Err(DIDError::UnsupportedMethod),
            Some(method) => {
                let did = DIDView { method, identifier: did_parts(s).1 };
                if did.valid() {
                    Ok(did)
                } else {
                    Err(DIDError::InvalidIdentifier)
                }
            },
        }
    }
}

/// A decentralized identifier: a method and an identifier. Every value of
/// this type is valid, that is, its identifier is one that its method
/// accepts; no value is ever changed once it is made.
#[derive(Debug, PartialEq, Eq)]
pub struct DID {
    method: DIDType,
    identifier: String,
}

impl View for DID {
    type V = DIDView;

    closed spec fn view(&self) -> DIDView {
        DIDView { method: self.method, identifier: self.identifier@ }
    }
}

impl Clone for DID {
    fn clone(&self) -> (r: DID)
        ensures
            r@ == self@,
    {
        proof {
            use_type_invariant(self);
        }
        DID { method: self.method, identifier: self.identifier.clone() }
    }
}

impl DID {
    #[verifier::type_invariant]
    spec fn well_formed(self) -> bool {
        self.method.accepts(self.identifier@)
    }

    /// Makes the DID of this method and identifier. Fails with
    /// `InvalidIdentifier` if the method does not accept the identifier.
    pub fn new(method: DIDType, identifier: String) -> (r: Result<DID, DIDError>)
        ensures
            match r {
                Ok(did) => method.accepts(identifier@) && did@ == (DIDView {
                    method,
                    identifier: identifier@,
                }),
                Err(e) => !method.accepts(identifier@) && e == DIDError::InvalidIdentifier,
            },
    {
        if DID::validate_identifier(&method, identifier.as_str()) {
            Ok(DID { method, identifier })
        } else {
            Err(DIDError::InvalidIdentifier)
        }
    }

    /// Whether the text is an identifier of the method.
    pub fn validate_identifier(method: &DIDType, identifier: &str) -> (r: bool)
        ensures
            r == method.accepts(identifier@),
    {
        proof {
            lemma_grammars_are_ascii(identifier@);
        }
        match ascii_text(identifier) {
            None => false,
            Some(text) => match method {
                DIDType::Web => web_identifier_matches(text),
                DIDType::PLC => plc_identifier_matches(text),
            },
        }
    }

    /// Parses `did:<method>:<identifier>`. Fails with `SyntaxError`,
    /// `UnsupportedMethod` or `InvalidIdentifier`, as `spec_parse` says.
    pub fn from_str(did: &str) -> (r: Result<DID, DIDError>)
        ensures
            match r {
                Ok(d) => spec_parse(did@) == Ok::<DIDView, DIDError>(d@),
                Err(e) => spec_parse(did@) == Err::<DIDView, DIDError>(e),
            },
    {
        proof {
            lemma_grammars_are_ascii(did@);
        }
        let text = match ascii_text(did) {
            None => { return Err(DIDError::SyntaxError); },
            Some(text) => text,
        };
        let k = match split_did(text) {
            None => { return Err(DIDError::SyntaxError); },
            Some(k) => k,
        };
        let name = did.substring_ascii(4, k);
        let identifier = did.substring_ascii(k + 1, text.len());
        match DIDType::from_str(name) {
            Err(e) => Err(e),
            Ok(method) => DID::new(method, String::from_str(identifier)),
        }
    }

    /// Parses `did:<method>:<identifier>`, as `from_str` does.
    pub fn from_string(did: &str) -> (r: Result<DID, DIDError>)
        ensures
            match r {
                Ok(d) => spec_parse(did@) == Ok::<DIDView, DIDError>(d@),
                Err(e) => spec_parse(did@) == Err::<DIDView, DIDError>(e),
            },
    {
        DID::from_str(did)
    }

    /// The canonical form, `did:<method-name>:<identifier>`, which parses
    /// back to this DID.
    pub fn to_string(&self) -> (r: String)
        ensures
            r@ == self@.canonical(),
            spec_parse(r@) == Ok::<DIDView, DIDError>(self@),
    {
        proof {
            use_type_invariant(self);
            lemma_parse_canonical(self@);
        }
        let mut s = String::from_str("did:");
        s.append(self.method.as_str());
        s.append(":");
        s.append(self.identifier.as_str());
        s
    }

    /// The DID as a URI of the protocol: `at://` and the canonical form,
    /// with nothing quoted or escaped.
    pub fn uri(&self) -> (r: String)
        ensures
            r@ == self@.uri(),
            !r@.contains('"'),
    {
        proof {
            use_type_invariant(self);
            lemma_no_quotes(self@);
        }
        let mut s = String::from_str("at://");
        s.append(self.to_string().as_str());
        s
    }

    /// The URL under which the document of this DID is found:
    /// `https://<identifier>/.well-known/did.json` for the Web method,
    /// `https://plc.directory/<canonical form>` for the PLC method.
    pub fn document_url(&self) -> (r: String)
        ensures
            r@ == self@.document_url(),
    {
        match self.method {
            DIDType::Web => {
                let mut s = String::from_str("https://");
                s.append(self.identifier.as_str());
                s.append("/.well-known/did.json");
                s
            },
            DIDType::PLC => {
                let mut s = String::from_str("https://plc.directory/");
                s.append(self.to_string().as_str());
                s
            },
        }
    }

    /// The method.
    pub fn method(&self) -> (r: DIDType)
        ensures
            r == self@.method,
            self@.valid(),
    {
        proof {
            use_type_invariant(self);
        }
        self.method
    }

    /// The identifier.
    pub fn identifier(&self) -> (r: &str)
        ensures
            r@ == self@.identifier,
            self@.valid(),
    {
        proof {
            use_type_invariant(self);
        }
        self.identifier.as_str()
    }
}

} // verus!
