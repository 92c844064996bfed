//! Tests for parsing and printing authorized-client entries, against the
//! real base64 codec.

use base64ct::Encoding;
use tor_hsservice::authclient::{
    parse_auth_client, text_round_trip, AuthorizedClientConfig, AuthorizedClientParseError,
};

#[test]
fn parse_directory_entry() {
    let r = parse_auth_client(&b"dir:/some/key/dir".to_vec()).unwrap();
    match r {
        AuthorizedClientConfig::DirectoryOfKeys(p) => assert_eq!(p, b"/some/key/dir".to_vec()),
        other => panic!("unexpected: {:?}", other),
    }
}

#[test]
fn parse_curve25519_entry() {
    let key = [0xabu8; 32];
    let text = format!("curve25519:{}", base64ct::Base64Unpadded::encode_string(&key));
    let r = parse_auth_client(&text.into_bytes()).unwrap();
    match r {
        AuthorizedClientConfig::Curve25519Key(k) => assert_eq!(k, key.to_vec()),
        other => panic!("unexpected: {:?}", other),
    }
}

#[test]
fn parse_errors() {
    match parse_auth_client(&b"no-colon-here".to_vec()) {
        Err(AuthorizedClientParseError::InvalidType) => {}
        other => panic!("unexpected: {:?}", other),
    }
    match parse_auth_client(&b"rsa:AAAA".to_vec()) {
        Err(AuthorizedClientParseError::InvalidType) => {}
        other => panic!("unexpected: {:?}", other),
    }
    match parse_auth_client(&b"curve25519:!!!not-base64!!!".to_vec()) {
        Err(AuthorizedClientParseError::InvalidKey) => {}
        other => panic!("unexpected: {:?}", other),
    }
    // Valid base64, wrong length.
    let short = base64ct::Base64Unpadded::encode_string(&[1u8; 16]);
    match parse_auth_client(&format!("curve25519:{}", short).into_bytes()) {
        Err(AuthorizedClientParseError::InvalidKey) => {}
        other => panic!("unexpected: {:?}", other),
    }
}

#[test]
fn printed_form_matches_codec() {
    let key = [7u8; 32];
    let entry = AuthorizedClientConfig::Curve25519Key(key.to_vec());
    let text = entry.to_text();
    assert_eq!(
        text,
        format!("curve25519:{}", base64ct::Base64Unpadded::encode_string(&key)).into_bytes()
    );
    match parse_auth_client(&text).unwrap() {
        AuthorizedClientConfig::Curve25519Key(k) => assert_eq!(k, key.to_vec()),
        other => panic!("unexpected: {:?}", other),
    }

    let entry = AuthorizedClientConfig::DirectoryOfKeys(b"/p".to_vec());
    assert_eq!(entry.to_text(), b"dir:/p".to_vec());
}

#[test]
fn round_trip_function_is_identity() {
    let key = [0x5au8; 32];
    match text_round_trip(&AuthorizedClientConfig::Curve25519Key(key.to_vec())).unwrap() {
        AuthorizedClientConfig::Curve25519Key(k) => assert_eq!(k, key.to_vec()),
        other => panic!("unexpected: {:?}", other),
    }
    match text_round_trip(&AuthorizedClientConfig::DirectoryOfKeys(b"/k:dir".to_vec())).unwrap() {
        AuthorizedClientConfig::DirectoryOfKeys(p) => assert_eq!(p, b"/k:dir".to_vec()),
        other => panic!("unexpected: {:?}", other),
    }
}
