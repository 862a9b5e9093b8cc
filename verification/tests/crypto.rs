use k256::ecdsa::signature::hazmat::PrehashSigner;
use k256::ecdsa::{Signature, SigningKey};
use sha2::{Digest, Sha256};
use trustboost::crypto::{append_binary_string, check_signature, derive_addr_from_pubkey, get_address};
use trustboost::state::TBInput;
use trustboost::ContractError;

fn signed_input(binary: &str) -> TBInput {
    let sk = SigningKey::from_slice(&[7u8; 32]).unwrap();
    let hash = Sha256::digest(binary.as_bytes());
    let sig: Signature = sk.sign_prehash(&hash).unwrap();
    TBInput {
        binary: binary.to_string(),
        public_key: sk.verifying_key().to_sec1_bytes().to_vec(),
        signature: sig.to_bytes().to_vec(),
    }
}

#[test]
fn valid_signature_verifies() {
    let input = signed_input("e30=");
    assert!(check_signature(input));
}

#[test]
fn tampered_signature_fails() {
    let mut input = signed_input("e30=");
    input.signature[5] ^= 0xff;
    assert!(!check_signature(input));
}

#[test]
fn malformed_signature_counts_as_failed() {
    let mut input = signed_input("e30=");
    input.signature.pop();
    assert!(!check_signature(input));
}

#[test]
fn signature_does_not_cover_other_payloads() {
    let mut input = signed_input("e30=");
    input.binary = "eyJhIjoxfQ==".to_string();
    assert!(!check_signature(input));
}

#[test]
fn derived_address_is_a_wasm_account() {
    let input = signed_input("e30=");
    let addr = get_address(input).unwrap();
    assert!(addr.starts_with("wasm1"));
    // 4 prefix characters, the separator, 32 data characters, 6 checksum characters
    assert_eq!(addr.len(), 43);
    let again = derive_addr_from_pubkey(&signed_input("e30=").public_key).unwrap();
    assert_eq!(addr, again);
}

#[test]
fn different_keys_give_different_addresses() {
    let a = derive_addr_from_pubkey(&signed_input("e30=").public_key).unwrap();
    let other = SigningKey::from_slice(&[9u8; 32]).unwrap();
    let b = derive_addr_from_pubkey(&other.verifying_key().to_sec1_bytes()).unwrap();
    assert_ne!(a, b);
}

#[test]
fn payload_splices_identity_into_braces() {
    // "eyJ4Ijp7fX0=" is the standard base64 encoding of {"x":{}}
    let out = append_binary_string(
        "eyJ4Ijp7fX0=".to_string(),
        &"user".to_string(),
        &"ASDF".to_string(),
    )
    .unwrap();
    assert_eq!(out, b"{\"x\":{,\"user\":\"ASDF\"}}".to_vec());
}

#[test]
fn payload_of_empty_object() {
    // "e30=" decodes to {}
    let out = append_binary_string("e30=".to_string(), &"k".to_string(), &"v".to_string())
        .unwrap();
    assert_eq!(out, b",\"k\":\"v\"}}".to_vec());
}

#[test]
fn invalid_base64_payload_is_rejected() {
    let r = append_binary_string("!!not-base64!!".to_string(), &"k".to_string(), &"v".to_string());
    assert!(matches!(r.unwrap_err(), ContractError::CustomError { .. }));
}

#[test]
fn value_hash_depends_on_every_field() {
    let a = TBInput { binary: "e30=".to_string(), public_key: vec![1], signature: vec![2] };
    let b = TBInput { binary: "e30=".to_string(), public_key: vec![1], signature: vec![2] };
    assert_eq!(a.clone().calculate_hash(), b.calculate_hash());
    let c = TBInput { binary: "e30=".to_string(), public_key: vec![1], signature: vec![3] };
    assert_ne!(a.clone().calculate_hash(), c.calculate_hash());
    let d = TBInput { binary: "e31=".to_string(), public_key: vec![1], signature: vec![2] };
    assert_ne!(a.calculate_hash(), d.calculate_hash());
}
