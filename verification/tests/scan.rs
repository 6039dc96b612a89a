use athost_identity::scan::{
    ascii_text, plc_identifier_matches, split_did, web_identifier_matches,
};
use athost_identity::{DIDError, DIDType, DID};
use regex::Regex;

const WEB: &str =
    r"^([a-zA-Z0-9]([a-zA-Z0-9-]*[a-zA-Z0-9])?\.)+[a-zA-Z0-9]([a-zA-Z0-9-]*[a-zA-Z0-9])?$";

const PLC: &str = r"^[a-z0-9]+$";

const SYNTAX: &str = r"^did:[a-z]+:[a-zA-Z0-9._:%-]*[a-zA-Z0-9._%-]$";

/// Every string over the alphabet of at most the given length.
fn strings(alphabet: &[char], longest: usize) -> Vec<String> {
    let mut all = vec![String::new()];
    let mut last = vec![String::new()];
    for _ in 0..longest {
        let mut next = Vec::new();
        for prefix in &last {
            for c in alphabet {
                let mut s = prefix.clone();
                s.push(*c);
                next.push(s);
            }
        }
        all.extend(next.iter().cloned());
        last = next;
    }
    all
}

/// What parsing should make of the input, worked out with regular expressions.
fn expected(
    input: &str,
    syntax: &Regex,
    web: &Regex,
    plc: &Regex,
) -> Result<(DIDType, String), DIDError> {
    if !syntax.is_match(input) {
        return Err(DIDError::SyntaxError);
    }
    let rest = &input[4..];
    let colon = rest.find(':').unwrap();
    let name = &rest[..colon];
    let identifier = &rest[colon + 1..];
    let (method, grammar) = match name {
        "web" => (DIDType::Web, web),
        "plc" => (DIDType::PLC, plc),
        _ => return Err(DIDError::UnsupportedMethod),
    };
    if grammar.is_match(identifier) {
        Ok((method, identifier.to_string()))
    } else {
        Err(DIDError::InvalidIdentifier)
    }
}

fn observed(input: &str) -> Result<(DIDType, String), DIDError> {
    DID::from_str(input).map(|did| (did.method(), did.identifier().to_string()))
}

#[test]
fn web_grammar_on_every_short_string() {
    let web = Regex::new(WEB).unwrap();
    for s in strings(&['a', 'Z', '0', '-', '.', '_', ':', '%'], 5) {
        assert_eq!(DID::validate_identifier(&DIDType::Web, &s), web.is_match(&s), "{:?}", s);
        assert_eq!(web_identifier_matches(s.as_bytes()), web.is_match(&s), "{:?}", s);
    }
}

#[test]
fn web_grammar_on_longer_strings_of_few_characters() {
    let web = Regex::new(WEB).unwrap();
    for s in strings(&['a', '-', '.'], 9) {
        assert_eq!(DID::validate_identifier(&DIDType::Web, &s), web.is_match(&s), "{:?}", s);
    }
}

#[test]
fn plc_grammar_on_every_short_string() {
    let plc = Regex::new(PLC).unwrap();
    for s in strings(&['a', 'z', 'Z', '0', '9', '-', '.', ':'], 5) {
        assert_eq!(DID::validate_identifier(&DIDType::PLC, &s), plc.is_match(&s), "{:?}", s);
        assert_eq!(plc_identifier_matches(s.as_bytes()), plc.is_match(&s), "{:?}", s);
    }
}

#[test]
fn parsing_on_every_short_string_behind_the_prefix() {
    let syntax = Regex::new(SYNTAX).unwrap();
    let web = Regex::new(WEB).unwrap();
    let plc = Regex::new(PLC).unwrap();
    for tail in strings(&['w', 'e', 'b', ':', '.', '-', 'A', '%', '1'], 5) {
        let input = format!("did:{}", tail);
        assert_eq!(observed(&input), expected(&input, &syntax, &web, &plc), "{:?}", input);
    }
}

#[test]
fn parsing_on_every_short_string_behind_a_method() {
    let syntax = Regex::new(SYNTAX).unwrap();
    let web = Regex::new(WEB).unwrap();
    let plc = Regex::new(PLC).unwrap();
    for tail in strings(&['a', 'Z', '0', '-', '.', '_', ':', '%', '/'], 5) {
        for method in ["web", "plc", "key"] {
            let input = format!("did:{}:{}", method, tail);
            assert_eq!(observed(&input), expected(&input, &syntax, &web, &plc), "{:?}", input);
        }
    }
}

#[test]
fn parsing_on_every_short_string_of_the_prefix_characters() {
    let syntax = Regex::new(SYNTAX).unwrap();
    let web = Regex::new(WEB).unwrap();
    let plc = Regex::new(PLC).unwrap();
    for input in strings(&['d', 'i', ':', 'a'], 8) {
        assert_eq!(observed(&input), expected(&input, &syntax, &web, &plc), "{:?}", input);
    }
}

#[test]
fn every_short_identifier_that_is_accepted_survives_writing_and_parsing() {
    let mut accepted = 0;
    for identifier in strings(&['a', 'Z', '0', '-', '.'], 6) {
        for method in [DIDType::Web, DIDType::PLC] {
            if let Ok(did) = DID::new(method, identifier.clone()) {
                accepted += 1;
                let written = did.to_string();
                assert_eq!(written, format!("did:{}:{}", method.as_str(), identifier));
                assert_eq!(DID::from_str(&written), Ok(did.clone()), "{:?}", written);
                assert_eq!(did.uri(), format!("at://{}", written));
            }
        }
    }
    assert!(accepted > 1000);
}

#[test]
fn every_short_string_that_parses_is_written_back_as_it_was() {
    let mut parsed = 0;
    for tail in strings(&['a', 'Z', '0', '-', '.', ':', '%'], 5) {
        for method in ["web", "plc", "key"] {
            let input = format!("did:{}:{}", method, tail);
            if let Ok(did) = DID::from_str(&input) {
                parsed += 1;
                assert_eq!(did.to_string(), input);
                assert_eq!(input.matches(':').count(), 2);
            }
        }
    }
    assert!(parsed > 100);
}

#[test]
fn identifiers_with_characters_beyond_ascii() {
    for s in ["\u{e9}", "a.\u{e9}", "exa\u{e4}mple.com", "abc\u{1F600}", "\u{ff41}bc"] {
        assert!(!DID::validate_identifier(&DIDType::Web, s), "{:?}", s);
        assert!(!DID::validate_identifier(&DIDType::PLC, s), "{:?}", s);
        assert!(ascii_text(s).is_none());
    }
}

#[test]
fn bytes_beyond_ascii_match_no_grammar() {
    assert!(!plc_identifier_matches(&[b'a', 0xe9]));
    assert!(!web_identifier_matches(&[b'a', b'.', 0xe9]));
    assert!(!web_identifier_matches(&[0xe9, b'.', b'a']));
    assert_eq!(split_did(&[b'd', b'i', b'd', b':', b'w', b':', 0xe9]), None);
}

#[test]
fn ascii_text_is_the_bytes_of_the_string() {
    assert_eq!(ascii_text("did:web:a.b"), Some("did:web:a.b".as_bytes()));
    assert_eq!(ascii_text(""), Some("".as_bytes()));
}

#[test]
fn the_split_is_at_the_colon_behind_the_method_name() {
    assert_eq!(split_did(b"did:web:example.com"), Some(7));
    assert_eq!(split_did(b"did:a:b"), Some(5));
    assert_eq!(split_did(b"did:method:a:b:c"), Some(10));
    assert_eq!(split_did(b"did:web:"), None);
    assert_eq!(split_did(b"did:web"), None);
    assert_eq!(split_did(b"did::a"), None);
    assert_eq!(split_did(b"did:a:b:"), None);
    assert_eq!(split_did(b""), None);
}

#[test]
fn the_web_grammar_by_example() {
    for s in ["example.com", "nat.vg", "a.b.c.d", "xn--bcher-kva.example", "A.B", "0.0"] {
        assert!(web_identifier_matches(s.as_bytes()), "{}", s);
    }
    for s in ["", "example", ".", "a.", ".a", "a..b", "-a.b", "a-.b", "a.b-", "a b.c", "a_b.c"] {
        assert!(!web_identifier_matches(s.as_bytes()), "{}", s);
    }
}

#[test]
fn the_plc_grammar_by_example() {
    for s in ["6vxtya3serxcwvcdk5e7psvv", "abc123", "a", "0"] {
        assert!(plc_identifier_matches(s.as_bytes()), "{}", s);
    }
    for s in ["", "ABC123", "abc-123", "abc.123", "abc 123", "abc:123"] {
        assert!(!plc_identifier_matches(s.as_bytes()), "{}", s);
    }
}
