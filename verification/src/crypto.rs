//! The calls into `sha2`, `ed25519-dalek` and `base64` that the library makes,
//! each behind a small wrapper whose contract names what the call returns.
use base64::engine::general_purpose::{STANDARD, URL_SAFE_NO_PAD};
use base64::Engine;
use ed25519_dalek::{Signature, Signer, SigningKey, VerifyingKey};
use sha2::{Digest, Sha256};
use vstd::prelude::*;
use vstd::utf8::*;

use crate::bytes::str_bytes;

verus! {

/// The SHA-256 digest of a byte string.
pub uninterp spec fn sha256_of(data: Seq<u8>) -> Seq<u8>;

/// The Ed25519 public key that `SigningKey::from_bytes(seed)` carries.
pub uninterp spec fn ed25519_public_key_of(seed: Seq<u8>) -> Seq<u8>;

/// Whether `VerifyingKey::from_bytes` accepts these 32 bytes as a curve point.
pub uninterp spec fn ed25519_point_decodes(public_key: Seq<u8>) -> bool;

/// The (deterministic) Ed25519 signature that the key with this seed makes on a message.
pub uninterp spec fn ed25519_signature_of(seed: Seq<u8>, message: Seq<u8>) -> Seq<u8>;

/// Whether `VerifyingKey::verify_strict` accepts a signature on a message.
pub uninterp spec fn ed25519_strictly_accepts(
    public_key: Seq<u8>,
    message: Seq<u8>,
    signature: Seq<u8>,
) -> bool;

/// The padded standard-alphabet Base64 text of a byte string.
pub uninterp spec fn base64_standard_text(data: Seq<u8>) -> Seq<char>;

/// What the padded standard-alphabet Base64 decoder makes of a text, if it accepts it.
pub uninterp spec fn base64_standard_bytes(text: Seq<u8>) -> Option<Seq<u8>>;

/// The unpadded URL-safe Base64 text of a byte string.
pub uninterp spec fn base64_url_text(data: Seq<u8>) -> Seq<char>;

/// What the unpadded URL-safe Base64 decoder makes of a text, if it accepts it.
pub uninterp spec fn base64_url_bytes(text: Seq<u8>) -> Option<Seq<u8>>;

/// A character of the padded standard Base64 alphabet.
pub open spec fn is_standard_base64_char(c: char) -> bool {
    ('A' <= c <= 'Z') || ('a' <= c <= 'z') || ('0' <= c <= '9') || c == '+' || c == '/' || c
        == '='
}

/// A character of the URL-safe Base64 alphabet.
pub open spec fn is_url_base64_char(c: char) -> bool {
    ('A' <= c <= 'Z') || ('a' <= c <= 'z') || ('0' <= c <= '9') || c == '-' || c == '_'
}

/// `Option<Vec<u8>>` seen as an optional byte string.
pub open spec fn option_bytes(value: Option<Vec<u8>>) -> Option<Seq<u8>> {
    match value {
        Some(v) => Some(v@),
        None => None,
    }
}

/// `Sha256::digest`: the digest is 32 bytes.
#[verifier::external_body]
pub(crate) fn sha256(data: &[u8]) -> (digest: [u8; 32])
    ensures
        digest@ == sha256_of(data@),
{
    Sha256::digest(data).into()
}

/// `SigningKey::from_bytes(seed).verifying_key().to_bytes()`: the public key of a seed,
/// which is the compression of a curve point and so decodes again.
#[verifier::external_body]
pub(crate) fn ed25519_public_key(seed: &[u8; 32]) -> (public_key: [u8; 32])
    ensures
        public_key@ == ed25519_public_key_of(seed@),
        ed25519_point_decodes(public_key@),
{
    SigningKey::from_bytes(seed).verifying_key().to_bytes()
}

/// `VerifyingKey::from_bytes(public_key).is_ok()`.
#[verifier::external_body]
pub(crate) fn ed25519_key_decodes(public_key: &[u8; 32]) -> (decodes: bool)
    ensures
        decodes == ed25519_point_decodes(public_key@),
{
    VerifyingKey::from_bytes(public_key).is_ok()
}

/// `SigningKey::from_bytes(seed).sign(message)`: Ed25519 signing is deterministic.
#[verifier::external_body]
pub(crate) fn ed25519_sign(seed: &[u8; 32], message: &[u8]) -> (signature: [u8; 64])
    ensures
        signature@ == ed25519_signature_of(seed@, message@),
{
    SigningKey::from_bytes(seed).sign(message).to_bytes()
}

/// `VerifyingKey::verify_strict` of a signature given by its 64 bytes, on a key that decodes.
#[verifier::external_body]
pub(crate) fn ed25519_verify_strict(public_key: &[u8; 32], message: &[u8], signature: &[u8; 64]) -> (accepted: bool)
    requires
        ed25519_point_decodes(public_key@),
    ensures
        accepted == ed25519_strictly_accepts(public_key@, message@, signature@),
{
    match VerifyingKey::from_bytes(public_key) {
        Ok(key) => key.verify_strict(message, &Signature::from_bytes(signature)).is_ok(),
        Err(_) => false,
    }
}

/// `STANDARD.encode(data)`: the text uses the standard alphabet, is four
/// characters for every started three bytes (padded), and decodes back to `data`.
#[verifier::external_body]
pub(crate) fn base64_standard_encode(data: &[u8]) -> (text: String)
    ensures
        text@ == base64_standard_text(data@),
        text@.len() == 4 * ((data@.len() + 2) / 3),
        forall|i: int| 0 <= i < text@.len() ==> is_standard_base64_char(#[trigger] text@[i]),
        base64_standard_bytes(str_bytes(text@)) == Some(data@),
{
    STANDARD.encode(data)
}

/// `STANDARD.decode(text).ok()`.
#[verifier::external_body]
pub(crate) fn base64_standard_decode(text: &[u8]) -> (data: Option<Vec<u8>>)
    ensures
        option_bytes(data) == base64_standard_bytes(text@),
{
    STANDARD.decode(text).ok()
}

/// `URL_SAFE_NO_PAD.encode(data)`: the text uses the URL-safe alphabet, is
/// `⌈4n/3⌉` characters for `n` bytes (unpadded), and decodes back to `data`.
#[verifier::external_body]
pub(crate) fn base64_url_encode(data: &[u8]) -> (text: String)
    ensures
        text@ == base64_url_text(data@),
        text@.len() == (4 * data@.len() + 2) / 3,
        forall|i: int| 0 <= i < text@.len() ==> is_url_base64_char(#[trigger] text@[i]),
        base64_url_bytes(str_bytes(text@)) == Some(data@),
{
    URL_SAFE_NO_PAD.encode(data)
}

/// `URL_SAFE_NO_PAD.decode(text).ok()`.
#[verifier::external_body]
pub(crate) fn base64_url_decode(text: &[u8]) -> (data: Option<Vec<u8>>)
    ensures
        option_bytes(data) == base64_url_bytes(text@),
{
    URL_SAFE_NO_PAD.decode(text).ok()
}

/// Base64 text of either alphabet is ASCII.
pub proof fn lemma_base64_text_is_ascii(text: Seq<char>)
    requires
        (forall|i: int| 0 <= i < text.len() ==> is_standard_base64_char(#[trigger] text[i]))
            || (forall|i: int| 0 <= i < text.len() ==> is_url_base64_char(#[trigger] text[i])),
    ensures
        is_ascii_chars(text),
{
    assert forall|i: int| 0 <= i < text.len() implies '\0' <= #[trigger] text[i] <= '\u{7f}' by {
        if forall|i: int| 0 <= i < text.len() ==> is_standard_base64_char(#[trigger] text[i]) {
            assert(is_standard_base64_char(text[i]));
        } else {
            assert(is_url_base64_char(text[i]));
        }
    }
}

} // verus!
