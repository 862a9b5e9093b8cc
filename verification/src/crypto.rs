//! The cryptographic collaborators of the engine: hashing, signature
//! verification, address derivation and payload framing for the decision
//! callout.
//!
//! The outside calls stand behind trusted wrappers; everything that merely
//! rearranges bytes is verified here.

use vstd::prelude::*;
use vstd::utf8::encode_utf8;
use vstd::string::StrSliceExecFns;
use bech32::ToBase32;
use ripemd::Ripemd160;
use sha2::{Digest, Sha256};
use crate::state::{InputType, TBInput};
use crate::ContractError;

verus! {

/// The SHA-256 digest of a byte sequence.
pub uninterp spec fn sha256_of(data: Seq<u8>) -> Seq<u8>;

/// The RIPEMD-160 digest of a byte sequence.
pub uninterp spec fn ripemd160_of(data: Seq<u8>) -> Seq<u8>;

/// The Bech32 encoding of a byte sequence under the human-readable part `wasm`.
pub uninterp spec fn bech32_wasm_of(data: Seq<u8>) -> Seq<char>;

/// What standard base64 decoding yields for a character sequence: the decoded
/// bytes, or nothing when the input is not valid base64.
pub uninterp spec fn base64_decode_of(encoded: Seq<char>) -> Option<Seq<u8>>;

/// The outcome of secp256k1 signature verification against a 32-byte message
/// hash: `Some(valid)` on well-formed inputs, `None` when the hash, signature
/// or public key is malformed.
pub uninterp spec fn secp256k1_verify_of(
    message_hash: Seq<u8>,
    signature: Seq<u8>,
    public_key: Seq<u8>,
) -> Option<bool>;

/// Relies on sha2's `Sha256::digest`: a 32-byte digest determined by the
/// input bytes alone.
#[verifier::external_body]
fn sha256(data: &[u8]) -> (r: Vec<u8>)
    ensures
        r@ == sha256_of(data@),
        r@.len() == 32,
{
    Sha256::digest(data).to_vec()
}

/// Relies on ripemd's `Ripemd160::digest`: a 20-byte digest determined by the
/// input bytes alone.
#[verifier::external_body]
fn ripemd160(data: &[u8]) -> (r: Vec<u8>)
    ensures
        r@ == ripemd160_of(data@),
        r@.len() == 20,
{
    Ripemd160::digest(data).to_vec()
}

/// Relies on bech32's `encode` (with `ToBase32` regrouping the bytes): the
/// result is determined by the data alone, and encoding only fails for an
/// invalid human-readable part, which `wasm` is not.
#[verifier::external_body]
fn bech32_encode_wasm(data: &[u8]) -> (r: Option<String>)
    ensures
        r is Some,
        r matches Some(s) ==> s@ == bech32_wasm_of(data@),
{
    match bech32::encode("wasm", data.to_base32(), bech32::Variant::Bech32) {
        Ok(s) => Some(s),
        Err(_) => None,
    }
}

/// Relies on cosmwasm-std's `Binary::from_base64`: standard-alphabet base64
/// decoding (padding optional), determined by the input alone.
#[verifier::external_body]
fn from_base64(encoded: &str) -> (r: Option<Vec<u8>>)
    ensures
        r matches Some(b) ==> base64_decode_of(encoded@) == Some(b@),
        r is None ==> base64_decode_of(encoded@) is None,
{
    match cosmwasm_std::Binary::from_base64(encoded) {
        Ok(b) => Some(b.0),
        Err(_) => None,
    }
}

/// Relies on cosmwasm-crypto's `secp256k1_verify`: a pure function of the
/// message hash, signature and public key; it errs exactly on malformed
/// inputs (hash not 32 bytes, signature not 64 bytes, or an invalid key).
#[verifier::external_body]
fn secp256k1_verify(message_hash: &[u8], signature: &[u8], public_key: &[u8]) -> (r: Option<bool>)
    ensures
        r == secp256k1_verify_of(message_hash@, signature@, public_key@),
{
    match cosmwasm_crypto::secp256k1_verify(message_hash, signature, public_key) {
        Ok(b) => Some(b),
        Err(_) => None,
    }
}

/// Whether the decision value carries a signature that verifies: the payload
/// is hashed with SHA-256 and checked against the value's signature and
/// public key.  A malformed signature or key counts as failed verification.
pub open spec fn signature_valid(v: crate::state::TBInputView) -> bool {
    secp256k1_verify_of(sha256_of(encode_utf8(v.binary)), v.signature, v.public_key) == Some(
        true,
    )
}

/// Verify the signature of a decision value.
pub fn check_signature(val: InputType) -> (r: bool)
    ensures
        r == signature_valid(val@),
{
    let hash = sha256(val.binary.as_str().as_bytes());
    match secp256k1_verify(hash.as_slice(), val.signature.as_slice(), val.public_key.as_slice()) {
        Some(b) => b,
        None => false,
    }
}

/// A character sequence taken as bytes, each character truncated to its low
/// eight bits (the appended fields are expected to be ASCII).
pub open spec fn chars_as_bytes(s: Seq<char>) -> Seq<u8> {
    s.map_values(|c: char| c as u8)
}

/// The decision callout payload: the decoded value with its final two bytes
/// (the closing braces) removed, extended with `,"key":"value"}}`.
pub open spec fn append_fields(bytes: Seq<u8>, key: Seq<char>, value: Seq<char>) -> Seq<u8> {
    let trimmed = if bytes.len() >= 2 {
        bytes.take(bytes.len() - 2)
    } else {
        Seq::<u8>::empty()
    };
    trimmed + seq![44u8, 34u8] + chars_as_bytes(key) + seq![34u8, 58u8, 34u8] + chars_as_bytes(
        value,
    ) + seq![34u8, 125u8, 125u8]
}

/// Append the characters of `s` to `out`, truncating each to a byte.
fn push_chars(out: &mut Vec<u8>, s: &String)
    ensures
        final(out)@ == old(out)@ + chars_as_bytes(s@),
{
    let ghost base: Seq<u8> = out@;
    let sl = s.as_str();
    let n = sl.unicode_len();
    let mut i: usize = 0;
    while i < n
        invariant
            0 <= i <= n,
            n == sl@.len(),
            sl@ == s@,
            out@ == base + chars_as_bytes(s@.take(i as int)),
        decreases n - i,
    {
        let c = sl.get_char(i);
        out.push(#[verifier::truncate] (c as u8));
        proof {
            assert(chars_as_bytes(s@.take(i + 1)) =~= chars_as_bytes(s@.take(i as int)).push(
                s@[i as int] as u8,
            ));
            assert(out@ =~= base + chars_as_bytes(s@.take(i + 1)));
        }
        i = i + 1;
    }
    proof {
        assert(s@.take(n as int) =~= s@);
    }
}

/// Build the decision callout payload: decode the base64 value and splice the
/// identity field into its trailing object braces.
pub fn append_binary_string(binary_string: String, key: &String, value: &String) -> (r: Result<
    Vec<u8>,
    ContractError,
>)
    ensures
        r matches Ok(b) ==> (base64_decode_of(binary_string@) matches Some(d) && b@
            == append_fields(d, key@, value@)),
        r is Err <==> base64_decode_of(binary_string@) is None,
{
    let decoded = from_base64(binary_string.as_str());
    match decoded {
        None => Err(ContractError::CustomError { val: "invalid base64 payload".to_owned() }),
        Some(mut bytes) => {
            let ghost d: Seq<u8> = bytes@;
            // Remove the two closing braces.
            if bytes.len() >= 1 {
                bytes.pop();
            }
            if bytes.len() >= 1 {
                bytes.pop();
            }
            proof {
                if d.len() >= 2 {
                    assert(bytes@ =~= d.take(d.len() - 2));
                } else {
                    assert(bytes@ =~= Seq::<u8>::empty());
                }
            }
            let ghost trimmed: Seq<u8> = bytes@;
            bytes.push(44u8);
            bytes.push(34u8);
            push_chars(&mut bytes, key);
            bytes.push(34u8);
            bytes.push(58u8);
            bytes.push(34u8);
            push_chars(&mut bytes, value);
            bytes.push(34u8);
            bytes.push(125u8);
            bytes.push(125u8);
            proof {
                assert(bytes@ =~= append_fields(d, key@, value@));
            }
            Ok(bytes)
        },
    }
}

/// The account address derived from a public key: Bech32 (`wasm` prefix) over
/// RIPEMD-160 over SHA-256 of the key bytes.
pub open spec fn addr_of(public_key: Seq<u8>) -> Seq<char> {
    bech32_wasm_of(ripemd160_of(sha256_of(public_key)))
}

/// Derive the account address for a public key.
pub fn derive_addr_from_pubkey(pub_key_bytes: &[u8]) -> (r: Result<String, ContractError>)
    ensures
        r is Ok,
        r matches Ok(a) ==> a@ == addr_of(pub_key_bytes@),
{
    let sha_hash = sha256(pub_key_bytes);
    if sha_hash.len() != 32 {
        return Err(ContractError::CustomError { val: "INVALID_LENGTH NOT 32".to_owned() });
    }
    let rip_hash = ripemd160(sha_hash.as_slice());
    match bech32_encode_wasm(rip_hash.as_slice()) {
        Some(addr) => Ok(addr),
        None => Err(ContractError::CustomError { val: "bech32 encoding failed".to_owned() }),
    }
}

/// The account address for a decision value's public key.
pub fn get_address(val: InputType) -> (r: Result<String, ContractError>)
    ensures
        r is Ok,
        r matches Ok(a) ==> a@ == addr_of(val@.public_key),
{
    derive_addr_from_pubkey(val.public_key.as_slice())
}

} // verus!
