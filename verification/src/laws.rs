//! What holds of parsing and writing together.

use vstd::prelude::*;
use crate::did::{spec_parse, DIDView};
use crate::error::DIDError;
use crate::grammar::{
    did_parts, did_text, is_did_char, is_did_syntax, is_lower, is_method_name, is_remainder,
    lemma_did_text_parts, lemma_split_position, lemma_web_identifier_shape, splits_into,
};
use crate::method::DIDType;

verus! {

/// The name of every method is made of lowercase letters, and no two
/// methods share a name.
pub proof fn lemma_method_names(method: DIDType)
    ensures
        is_method_name(method.name()),
        DIDType::named(method.name()) == Some(method),
{
    reveal_strlit("web");
    reveal_strlit("plc");
    assert("web"@[0] != "plc"@[0]);
}

/// An identifier that a method accepts may stand in a DID string: it is
/// not empty, it is made of DID characters, and it does not end in a colon.
pub proof fn lemma_identifiers_are_remainders(method: DIDType, identifier: Seq<char>)
    requires
        method.accepts(identifier),
    ensures
        is_remainder(identifier),
{
    lemma_web_identifier_shape(identifier);
    assert forall|i: int| 0 <= i < identifier.len() implies is_did_char(
        #[trigger] identifier[i],
    ) by {}
}

/// Parsing `did:<name>:<remainder>` looks the name up among the methods
/// and holds the whole remainder to the grammar of the method found.
pub proof fn lemma_parse_parts(name: Seq<char>, remainder: Seq<char>)
    requires
        is_method_name(name),
        is_remainder(remainder),
    ensures
        spec_parse(did_text(name, remainder)) == (match DIDType::named(name) {
            None => Err::<DIDView, DIDError>(DIDError::UnsupportedMethod),
            Some(method) => if method.accepts(remainder) {
                Ok::<DIDView, DIDError>(DIDView { method, identifier: remainder })
            } else {
                Err::<DIDView, DIDError>(DIDError::InvalidIdentifier)
            },
        }),
{
    lemma_did_text_parts(name, remainder);
}

/// Writing a valid DID in its canonical form and parsing that form gives
/// the same DID back, whatever its method.
pub proof fn lemma_parse_canonical(did: DIDView)
    requires
        did.valid(),
    ensures
        spec_parse(did.canonical()) == Ok::<DIDView, DIDError>(did),
{
    lemma_method_names(did.method);
    lemma_identifiers_are_remainders(did.method, did.identifier);
    lemma_parse_parts(did.method.name(), did.identifier);
}

/// A string that parses is the canonical form of the DID that it parses to.
pub proof fn lemma_canonical_parse(s: Seq<char>)
    ensures
        spec_parse(s) matches Ok(did) ==> did.valid() && did.canonical() == s,
{
    if let Ok(did) = spec_parse(s) {
        let (name, remainder) = choose|name: Seq<char>, remainder: Seq<char>|
            splits_into(s, name, remainder);
        let parts = did_parts(s);
        assert(splits_into(s, parts.0, parts.1)) by {
            let witness = (name, remainder);
            assert(splits_into(s, witness.0, witness.1));
        }
    }
}

/// A string that parses has three parts between its colons, which stand
/// behind `did` and behind the method name and nowhere else.
pub proof fn lemma_three_parts(s: Seq<char>)
    ensures
        spec_parse(s) matches Ok(did) ==> forall|i: int|
            0 <= i < s.len() ==> (#[trigger] s[i] == ':' <==> i == 3 || i == 4
                + did.method.name().len()),
{
    if let Ok(did) = spec_parse(s) {
        lemma_canonical_parse(s);
        lemma_method_names(did.method);
        lemma_identifiers_are_remainders(did.method, did.identifier);
        lemma_split_position(s, did.method.name(), did.identifier);
        lemma_web_identifier_shape(did.identifier);
        let k = 4 + did.method.name().len() as int;
        assert forall|i: int| 0 <= i < s.len() implies (#[trigger] s[i] == ':' <==> i == 3 || i
            == k) by {
            if 4 <= i < k {
                assert(is_lower(s[i]));
            } else if k < i {
                assert(s[i] == did.identifier[i - k - 1]);
            }
        }
    }
}

/// A string that holds fewer than two colons fails with a syntax error.
pub proof fn lemma_too_few_parts(s: Seq<char>)
    requires
        forall|i: int, j: int| 0 <= i < j < s.len() ==> !(s[i] == ':' && s[j] == ':'),
    ensures
        spec_parse(s) == Err::<DIDView, DIDError>(DIDError::SyntaxError),
{
    if is_did_syntax(s) {
        let (name, remainder) = choose|name: Seq<char>, remainder: Seq<char>|
            splits_into(s, name, remainder);
        lemma_split_position(s, name, remainder);
        assert(s[3] == ':' && s[4 + name.len() as int] == ':');
    }
}

/// Neither the canonical form of a valid DID nor its URI holds a quote
/// character.
pub proof fn lemma_no_quotes(did: DIDView)
    requires
        did.valid(),
    ensures
        !did.canonical().contains('"'),
        !did.uri().contains('"'),
{
    let s = did.canonical();
    lemma_method_names(did.method);
    lemma_identifiers_are_remainders(did.method, did.identifier);
    lemma_split_position(s, did.method.name(), did.identifier);
    let k = 4 + did.method.name().len() as int;
    assert forall|i: int| 0 <= i < s.len() implies #[trigger] s[i] != '"' by {
        if 4 <= i < k {
            assert(is_lower(s[i]));
        } else if k < i {
            assert(is_did_char(s[i]));
        }
    }
    reveal_strlit("at://");
    let u = did.uri();
    assert forall|i: int| 5 <= i < u.len() implies #[trigger] u[i] != '"' by {
        assert(u[i] == s[i - 5]);
    }
}

/// A string that is not of the form `did:<method>:<identifier>` fails with
/// a syntax error, and no other string does.
pub proof fn lemma_syntax_error(s: Seq<char>)
    ensures
        spec_parse(s) == Err::<DIDView, DIDError>(DIDError::SyntaxError) <==> !is_did_syntax(s),
{
}

} // verus!
