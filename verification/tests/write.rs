use athost_identity::{DIDError, DIDType, DID};

#[test]
fn uri_is_the_canonical_form_behind_the_scheme() {
    let did = DID::new(DIDType::Web, "example.com".to_string()).unwrap();
    assert_eq!(did.uri(), "at://did:web:example.com");
    assert!(!did.uri().contains('"'));
}

#[test]
fn uri_of_a_plc_did() {
    let did = DID::from_str("did:plc:6vxtya3serxcwvcdk5e7psvv").unwrap();
    assert_eq!(did.uri(), "at://did:plc:6vxtya3serxcwvcdk5e7psvv");
    assert_eq!(did.uri(), format!("at://{}", did.to_string()));
    assert!(!did.uri().contains('"'));
}

#[test]
fn canonical_form_has_no_quotes_and_keeps_case() {
    let did = DID::from_str("did:web:Example.Com").unwrap();
    assert_eq!(did.to_string(), "did:web:Example.Com");
    assert!(!did.to_string().contains('"'));
}

#[test]
fn document_url_of_a_web_did() {
    let did = DID::from_str("did:web:nat.vg").unwrap();
    assert_eq!(did.document_url(), "https://nat.vg/.well-known/did.json");
}

#[test]
fn document_url_of_a_plc_did() {
    let did = DID::from_str("did:plc:6vxtya3serxcwvcdk5e7psvv").unwrap();
    assert_eq!(did.document_url(), "https://plc.directory/did:plc:6vxtya3serxcwvcdk5e7psvv");
}

#[test]
fn method_names() {
    assert_eq!(DIDType::Web.as_str(), "web");
    assert_eq!(DIDType::PLC.as_str(), "plc");
}

#[test]
fn methods_by_name() {
    assert_eq!(DIDType::from_str("web"), Ok(DIDType::Web));
    assert_eq!(DIDType::from_str("plc"), Ok(DIDType::PLC));
    for name in ["", "foo", "Web", "PLC", "we", "webs", "w\u{e9}b", "key"] {
        assert_eq!(DIDType::from_str(name), Err(DIDError::UnsupportedMethod), "{}", name);
    }
}

#[test]
fn a_method_is_found_again_by_its_name() {
    for method in [DIDType::Web, DIDType::PLC] {
        assert_eq!(DIDType::from_str(method.as_str()), Ok(method));
    }
}
