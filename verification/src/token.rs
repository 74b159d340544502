//! Short-lived delegation tokens: `mca1.<payload>.<signature>`, where the
//! payload is the claims' JSON in unpadded URL-safe Base64 and the signature
//! is an Ed25519 signature over a domain-separated, length-framed payload.
//!
//! The JSON itself is written and read outside this module; here the payload
//! is a byte string, and the claims are checked against their rules.
use vstd::prelude::*;
use vstd::utf8::*;

use crate::bytes::{
    copy_range, find_byte, find_byte_from, le32, lemma_find_byte_absent, lemma_find_byte_at,
    lemma_str_bytes_concat, put_bytes, put_u32, push_char, str_bytes, array64,
};
use crate::text::message;
use crate::crypto::{
    base64_url_bytes, base64_url_decode, base64_url_encode, base64_url_text,
    ed25519_key_decodes, ed25519_point_decodes, ed25519_public_key_of, ed25519_sign,
    ed25519_signature_of, ed25519_strictly_accepts, ed25519_verify_strict, is_url_base64_char,
    lemma_base64_text_is_ascii,
};

verus! {

broadcast use is_ascii_chars_encode_utf8;

pub const TOKEN_PREFIX: &'static str = "mca1";
pub const MAX_TOKEN_BYTES: usize = 4096;
pub const MAX_PAYLOAD_BYTES: usize = 2048;
pub const MAX_TOKEN_LIFETIME_SECONDS: u64 = 900;

#[derive(Clone, Debug, PartialEq, Eq)]
pub struct Claims {
    pub iss: String,
    pub sub: String,
    pub aud: String,
    pub iat: u64,
    pub exp: u64,
    pub jti: String,
    pub role: String,
    pub act: Option<String>,
    pub client_id: Option<String>,
    pub scope: Option<String>,
    pub session_id: Option<String>,
}

#[derive(Clone, Copy, Debug, PartialEq, Eq, Structural)]
pub enum TokenError {
    TooLarge,
    Format,
    InvalidSignature,
    InvalidClaims,
    NotYetValid,
    Expired,
    LifetimeTooLong,
    Serialization,
}

/// The name of each TokenError variant, as its `Debug` form writes it.
pub open spec fn token_error_name(error: TokenError) -> Seq<char> {
    match error {
        TokenError::TooLarge => "TooLarge"@,
        TokenError::Format => "Format"@,
        TokenError::InvalidSignature => "InvalidSignature"@,
        TokenError::InvalidClaims => "InvalidClaims"@,
        TokenError::NotYetValid => "NotYetValid"@,
        TokenError::Expired => "Expired"@,
        TokenError::LifetimeTooLong => "LifetimeTooLong"@,
        TokenError::Serialization => "Serialization"@,
    }
}

impl TokenError {
    /// The human-readable description of the error: `invalid delegation token: ` and the variant's name.
    pub fn message(&self) -> (text: String)
        ensures
            text@ == "invalid delegation token: "@ + token_error_name(*self),
    {
        let name: &str = match self {
            TokenError::TooLarge => "TooLarge",
            TokenError::Format => "Format",
            TokenError::InvalidSignature => "InvalidSignature",
            TokenError::InvalidClaims => "InvalidClaims",
            TokenError::NotYetValid => "NotYetValid",
            TokenError::Expired => "Expired",
            TokenError::LifetimeTooLong => "LifetimeTooLong",
            TokenError::Serialization => "Serialization",
        };
        let mut text = message("invalid delegation token: ");
        text.append(name);
        text
    }
}

// ---------------------------------------------------------------------------
// Claims
// ---------------------------------------------------------------------------

/// A byte allowed in token text fields: ASCII alphanumeric or one of `. - _ : /`.
pub open spec fn is_text_byte(byte: u8) -> bool {
    (48 <= byte <= 57) || (65 <= byte <= 90) || (97 <= byte <= 122) || byte == 46 || byte == 45
        || byte == 95 || byte == 58 || byte == 47
}

/// A non-empty text of at most `maximum` bytes, each allowed.
pub open spec fn is_valid_text(text: Seq<char>, maximum: nat) -> bool {
    &&& 0 < str_bytes(text).len() <= maximum
    &&& forall|i: int| 0 <= i < str_bytes(text).len() ==> is_text_byte(#[trigger] str_bytes(text)[i])
}

/// An account ID: 36 bytes, each an ASCII hexadecimal digit or `-`.
pub open spec fn is_account_id(text: Seq<char>) -> bool {
    &&& str_bytes(text).len() == 36
    &&& forall|i: int|
        0 <= i < str_bytes(text).len() ==> {
            let b = #[trigger] str_bytes(text)[i];
            (48 <= b <= 57) || (65 <= b <= 70) || (97 <= b <= 102) || b == 45
        }
}

/// An absent optional text, or a valid one.
pub open spec fn is_valid_optional(text: Option<String>, maximum: nat) -> bool {
    match text {
        None => true,
        Some(value) => is_valid_text(value@, maximum),
    }
}

/// An absent scope, or one of one to 512 bytes.
pub open spec fn is_valid_scope(scope: Option<String>) -> bool {
    match scope {
        None => true,
        Some(value) => 0 < str_bytes(value@).len() <= 512,
    }
}

/// Every field of the claims is well formed and `iat` precedes `exp`.
pub open spec fn claims_well_formed(claims: Claims) -> bool {
    &&& is_valid_text(claims.iss@, 255)
    &&& is_account_id(claims.sub@)
    &&& is_valid_text(claims.aud@, 64)
    &&& is_valid_text(claims.jti@, 128)
    &&& is_valid_text(claims.role@, 64)
    &&& is_valid_optional(claims.act, 128)
    &&& is_valid_optional(claims.client_id, 64)
    &&& is_valid_scope(claims.scope)
    &&& is_valid_optional(claims.session_id, 128)
    &&& claims.iat < claims.exp
}

/// The check of claims at time `now`, with the error it reports first.
pub open spec fn claims_error(claims: Claims, now: u64) -> Result<(), TokenError> {
    if !claims_well_formed(claims) {
        Err(TokenError::InvalidClaims)
    } else if claims.exp - claims.iat >= MAX_TOKEN_LIFETIME_SECONDS {
        Err(TokenError::LifetimeTooLong)
    } else if claims.iat > now.saturating_add(30) {
        Err(TokenError::NotYetValid)
    } else if claims.exp <= now {
        Err(TokenError::Expired)
    } else {
        Ok(())
    }
}

pub fn valid_text(value: &str, maximum: usize) -> (valid: bool)
    ensures
        valid == is_valid_text(value@, maximum as nat),
{
    let bytes = value.as_bytes();
    if bytes.len() == 0 || bytes.len() > maximum {
        return false;
    }
    let mut i: usize = 0;
    while i < bytes.len()
        invariant
            i <= bytes@.len(),
            bytes@ == str_bytes(value@),
            forall|j: int| 0 <= j < i ==> is_text_byte(#[trigger] bytes@[j]),
        decreases bytes@.len() - i,
    {
        let b = bytes[i];
        if !((48 <= b && b <= 57) || (65 <= b && b <= 90) || (97 <= b && b <= 122) || b == 46
            || b == 45 || b == 95 || b == 58 || b == 47) {
            assert(!is_text_byte(bytes@[i as int]));
            return false;
        }
        i = i + 1;
    }
    true
}

pub fn valid_account_id(value: &str) -> (valid: bool)
    ensures
        valid == is_account_id(value@),
{
    let bytes = value.as_bytes();
    if bytes.len() != 36 {
        return false;
    }
    let mut i: usize = 0;
    while i < bytes.len()
        invariant
            i <= bytes@.len(),
            bytes@ == str_bytes(value@),
            forall|j: int|
                0 <= j < i ==> {
                    let b = #[trigger] bytes@[j];
                    (48 <= b <= 57) || (65 <= b <= 70) || (97 <= b <= 102) || b == 45
                },
        decreases bytes@.len() - i,
    {
        let b = bytes[i];
        if !((48 <= b && b <= 57) || (65 <= b && b <= 70) || (97 <= b && b <= 102) || b == 45) {
            return false;
        }
        i = i + 1;
    }
    true
}

fn valid_optional(value: &Option<String>, maximum: usize) -> (valid: bool)
    ensures
        valid == is_valid_optional(*value, maximum as nat),
{
    match value {
        None => true,
        Some(text) => valid_text(text.as_str(), maximum),
    }
}

/// Checks the claims of a token at time `now`.
pub fn validate_claims(claims: &Claims, now: u64) -> (result: Result<(), TokenError>)
    ensures
        result == claims_error(*claims, now),
{
    let scope_ok = match &claims.scope {
        None => true,
        Some(value) => {
            let n = value.as_str().as_bytes().len();
            n != 0 && n <= 512
        },
    };
    if !valid_text(claims.iss.as_str(), 255) || !valid_account_id(claims.sub.as_str())
        || !valid_text(claims.aud.as_str(), 64) || !valid_text(claims.jti.as_str(), 128)
        || !valid_text(claims.role.as_str(), 64) || !valid_optional(&claims.act, 128)
        || !valid_optional(&claims.client_id, 64) || !scope_ok || !valid_optional(
        &claims.session_id,
        128,
    ) || claims.iat >= claims.exp {
        return Err(TokenError::InvalidClaims);
    }
    if claims.exp - claims.iat >= MAX_TOKEN_LIFETIME_SECONDS {
        return Err(TokenError::LifetimeTooLong);
    }
    if claims.iat > now.saturating_add(30) {
        return Err(TokenError::NotYetValid);
    }
    if claims.exp <= now {
        return Err(TokenError::Expired);
    }
    Ok(())
}

/// Accepts the claims that a verified payload was read into, if they hold at `now`;
/// `None` stands for a payload that did not read as claims.
pub fn accept_claims(claims: Option<Claims>, now: u64) -> (result: Result<Claims, TokenError>)
    ensures
        match claims {
            None => result == Err::<Claims, TokenError>(TokenError::InvalidClaims),
            Some(c) => match claims_error(c, now) {
                Ok(_) => result == Ok::<Claims, TokenError>(c),
                Err(e) => result == Err::<Claims, TokenError>(e),
            },
        },
{
    match claims {
        None => Err(TokenError::InvalidClaims),
        Some(c) => match validate_claims(&c, now) {
            Ok(_) => Ok(c),
            Err(e) => Err(e),
        },
    }
}

// ---------------------------------------------------------------------------
// Signing message and token framing
// ---------------------------------------------------------------------------

/// `b"mochios-developer-ca-delegation-v1\0"`.
pub open spec fn delegation_domain() -> Seq<u8> {
    seq![
        109u8, 111, 99, 104, 105, 111, 115, 45, 100, 101, 118, 101, 108, 111, 112, 101, 114, 45,
        99, 97, 45, 100, 101, 108, 101, 103, 97, 116, 105, 111, 110, 45, 118, 49, 0,
    ]
}

/// The bytes of `TOKEN_PREFIX`.
pub open spec fn prefix_bytes() -> Seq<u8> {
    seq![109u8, 99, 97, 49]
}

/// The bytes signed for a payload: domain, payload length as a little-endian `u32`, payload.
pub open spec fn delegation_message(payload: Seq<u8>) -> Seq<u8> {
    delegation_domain() + le32(payload.len() as u32) + payload
}

/// The message for a payload, or `TooLarge` when its length does not fit.
pub open spec fn signing_message_of(payload: Seq<u8>) -> Result<Seq<u8>, TokenError> {
    if payload.len() + 39 > usize::MAX || payload.len() > u32::MAX {
        Err(TokenError::TooLarge)
    } else {
        Ok(delegation_message(payload))
    }
}

pub fn signing_message(payload: &[u8]) -> (message: Result<Vec<u8>, TokenError>)
    ensures
        match message {
            Ok(m) => signing_message_of(payload@) == Ok::<Seq<u8>, TokenError>(m@),
            Err(e) => signing_message_of(payload@) == Err::<Seq<u8>, TokenError>(e),
        },
{
    if payload.len() > usize::MAX - 39 || payload.len() > 4294967295usize {
        return Err(TokenError::TooLarge);
    }
    let domain: [u8; 35] = [
        109, 111, 99, 104, 105, 111, 115, 45, 100, 101, 118, 101, 108, 111, 112, 101, 114, 45,
        99, 97, 45, 100, 101, 108, 101, 103, 97, 116, 105, 111, 110, 45, 118, 49, 0,
    ];
    let mut message: Vec<u8> = Vec::new();
    put_bytes(&mut message, domain.as_slice());
    put_u32(&mut message, payload.len() as u32);
    put_bytes(&mut message, payload);
    Ok(message)
}

/// The text of a token: the prefix, the Base64 payload and the Base64 signature, joined by dots.
pub open spec fn token_text(payload: Seq<u8>, signature: Seq<u8>) -> Seq<char> {
    seq!['m', 'c', 'a', '1', '.'] + base64_url_text(payload) + seq!['.'] + base64_url_text(
        signature,
    )
}

/// The token that issuing claims with a given payload and seed produces, or why there is none.
pub open spec fn token_issuance(claims: Claims, payload: Seq<u8>, seed: Seq<u8>) -> Result<
    Seq<char>,
    TokenError,
> {
    match claims_error(claims, claims.iat) {
        Err(e) => Err(e),
        Ok(_) => if payload.len() > MAX_PAYLOAD_BYTES {
            Err(TokenError::TooLarge)
        } else {
            let text = token_text(
                payload,
                ed25519_signature_of(seed, delegation_message(payload)),
            );
            if str_bytes(text).len() > MAX_TOKEN_BYTES {
                Err(TokenError::TooLarge)
            } else {
                Ok(text)
            }
        },
    }
}

/// Facts about the Base64 texts inside a token that issuing one establishes:
/// they use the URL-safe alphabet and decode back to the payload and signature.
pub open spec fn token_issued(token: Seq<char>, claims: Claims, payload: Seq<u8>, seed: Seq<u8>) -> bool {
    let signature = ed25519_signature_of(seed, delegation_message(payload));
    &&& token_issuance(claims, payload, seed) == Ok::<Seq<char>, TokenError>(token)
    &&& signature.len() == 64
    &&& forall|i: int|
        0 <= i < base64_url_text(payload).len() ==> is_url_base64_char(
            #[trigger] base64_url_text(payload)[i],
        )
    &&& forall|i: int|
        0 <= i < base64_url_text(signature).len() ==> is_url_base64_char(
            #[trigger] base64_url_text(signature)[i],
        )
    &&& base64_url_bytes(str_bytes(base64_url_text(payload))) == Some(payload)
    &&& base64_url_bytes(str_bytes(base64_url_text(signature))) == Some(signature)
}

/// The payload and signature a token's bytes carry, if it is framed as
/// exactly three dot-separated parts with the right prefix, both parts decode,
/// and the payload is at most `MAX_PAYLOAD_BYTES`.
pub open spec fn token_frame(token: Seq<u8>) -> Option<(Seq<u8>, Seq<u8>)> {
    match find_byte(token, 46, 0) {
        None => None,
        Some(first) => match find_byte(token, 46, first + 1) {
            None => None,
            Some(second) => if find_byte(token, 46, second + 1) is Some {
                None
            } else if token.take(first) != prefix_bytes() {
                None
            } else {
                match (
                    base64_url_bytes(token.subrange(first + 1, second)),
                    base64_url_bytes(token.subrange(second + 1, token.len() as int)),
                ) {
                    (Some(payload), Some(signature)) => if payload.len() > MAX_PAYLOAD_BYTES {
                        None
                    } else {
                        Some((payload, signature))
                    },
                    _ => None,
                }
            },
        },
    }
}

/// The verification of a token's bytes against a public key: the signed payload, or the error.
pub open spec fn token_verification(token: Seq<u8>, public_key: Seq<u8>) -> Result<
    Seq<u8>,
    TokenError,
> {
    if token.len() == 0 || token.len() > MAX_TOKEN_BYTES {
        Err(TokenError::TooLarge)
    } else {
        match token_frame(token) {
            None => Err(TokenError::Format),
            Some((payload, signature)) => if ed25519_point_decodes(public_key)
                && signature.len() == 64 && ed25519_strictly_accepts(
                public_key,
                delegation_message(payload),
                signature,
            ) {
                Ok(payload)
            } else {
                Err(TokenError::InvalidSignature)
            },
        }
    }
}

/// Issues a token for claims valid at their own `iat`, given the claims' JSON
/// payload and the 32-byte seed of the signing key.
pub fn issue(claims: &Claims, payload: &[u8], signing_seed: &[u8; 32]) -> (token: Result<
    String,
    TokenError,
>)
    ensures
        match token {
            Ok(t) => token_issued(t@, *claims, payload@, signing_seed@),
            Err(e) => token_issuance(*claims, payload@, signing_seed@) == Err::<
                Seq<char>,
                TokenError,
            >(e),
        },
        claims_error(*claims, claims.iat) is Ok && payload@.len() <= MAX_PAYLOAD_BYTES
            ==> token is Ok,
{
    match validate_claims(claims, claims.iat) {
        Ok(_) => {},
        Err(e) => return Err(e),
    }
    if payload.len() > MAX_PAYLOAD_BYTES {
        return Err(TokenError::TooLarge);
    }
    let message = match signing_message(payload) {
        Ok(m) => m,
        Err(e) => return Err(e),
    };
    let signature = ed25519_sign(signing_seed, message.as_slice());
    let payload_text = base64_url_encode(payload);
    let signature_text = base64_url_encode(signature.as_slice());
    let mut token = String::new();
    push_char(&mut token, 'm');
    push_char(&mut token, 'c');
    push_char(&mut token, 'a');
    push_char(&mut token, '1');
    push_char(&mut token, '.');
    token.append(payload_text.as_str());
    push_char(&mut token, '.');
    token.append(signature_text.as_str());
    assert(token@ =~= token_text(payload@, signature@));
    proof {
        let p_text = payload_text@;
        let s_text = signature_text@;
        lemma_base64_text_is_ascii(p_text);
        lemma_base64_text_is_ascii(s_text);
        assert forall|i: int| 0 <= i < token@.len() implies '\0' <= #[trigger] token@[i]
            <= '\u{7f}' by {
            if 5 <= i < 5 + p_text.len() {
                assert(token@[i] == p_text[i - 5]);
            } else if 5 + p_text.len() < i {
                assert(token@[i] == s_text[i - 6 - p_text.len()]);
            }
        }
        assert(is_ascii_chars(token@));
        assert(str_bytes(token@).len() == token@.len());
        assert(token@.len() <= 5 + 2731 + 1 + 86);
    }
    if token.as_str().as_bytes().len() > MAX_TOKEN_BYTES {
        return Err(TokenError::TooLarge);
    }
    Ok(token)
}

/// Checks a token's size, framing and signature against a public key, and
/// gives back the signed payload (the claims' JSON).
pub fn verify(token: &str, public_key: &[u8; 32]) -> (payload: Result<Vec<u8>, TokenError>)
    ensures
        match payload {
            Ok(p) => token_verification(str_bytes(token@), public_key@) == Ok::<
                Seq<u8>,
                TokenError,
            >(p@),
            Err(e) => token_verification(str_bytes(token@), public_key@) == Err::<
                Seq<u8>,
                TokenError,
            >(e),
        },
{
    let bytes = token.as_bytes();
    if bytes.len() == 0 || bytes.len() > MAX_TOKEN_BYTES {
        return Err(TokenError::TooLarge);
    }
    let first = match find_byte_from(bytes, 46, 0) {
        Some(i) => i,
        None => return Err(TokenError::Format),
    };
    let second = match find_byte_from(bytes, 46, first + 1) {
        Some(i) => i,
        None => return Err(TokenError::Format),
    };
    if find_byte_from(bytes, 46, second + 1).is_some() {
        return Err(TokenError::Format);
    }
    let prefix: [u8; 4] = [109, 99, 97, 49];
    let head = copy_range(bytes, 0, first);
    if !crate::bytes::bytes_equal(head.as_slice(), prefix.as_slice()) {
        assert(bytes@.take(first as int) =~= head@);
        return Err(TokenError::Format);
    }
    assert(bytes@.take(first as int) =~= head@);
    let payload_part = copy_range(bytes, first + 1, second);
    let signature_part = copy_range(bytes, second + 1, bytes.len());
    let payload = match base64_url_decode(payload_part.as_slice()) {
        Some(p) => p,
        None => return Err(TokenError::Format),
    };
    let signature = match base64_url_decode(signature_part.as_slice()) {
        Some(s) => s,
        None => return Err(TokenError::Format),
    };
    if payload.len() > MAX_PAYLOAD_BYTES {
        return Err(TokenError::Format);
    }
    if !ed25519_key_decodes(public_key) {
        return Err(TokenError::InvalidSignature);
    }
    if signature.len() != 64 {
        return Err(TokenError::InvalidSignature);
    }
    let signature = array64(signature.as_slice());
    let message = match signing_message(payload.as_slice()) {
        Ok(m) => m,
        Err(e) => return Err(e),
    };
    if !ed25519_verify_strict(public_key, message.as_slice(), &signature) {
        return Err(TokenError::InvalidSignature);
    }
    Ok(payload)
}

// ---------------------------------------------------------------------------
// Laws
// ---------------------------------------------------------------------------

/// A token issued with a seed verifies against that seed's public key and gives
/// back exactly the payload it was issued with, provided Ed25519 strict
/// verification accepts the seed's own signature on the signing message.
pub proof fn lemma_issue_then_verify(token: Seq<char>, claims: Claims, payload: Seq<u8>, seed: Seq<u8>)
    requires
        token_issued(token, claims, payload, seed),
        ed25519_point_decodes(ed25519_public_key_of(seed)),
        ed25519_strictly_accepts(
            ed25519_public_key_of(seed),
            delegation_message(payload),
            ed25519_signature_of(seed, delegation_message(payload)),
        ),
    ensures
        token_verification(str_bytes(token), ed25519_public_key_of(seed)) == Ok::<
            Seq<u8>,
            TokenError,
        >(payload),
{
    let signature = ed25519_signature_of(seed, delegation_message(payload));
    let p_text = base64_url_text(payload);
    let s_text = base64_url_text(signature);
    let head: Seq<char> = seq!['m', 'c', 'a', '1', '.'];
    let dot: Seq<char> = seq!['.'];
    lemma_base64_text_is_ascii(p_text);
    lemma_base64_text_is_ascii(s_text);
    assert(is_ascii_chars(head));
    assert(is_ascii_chars(dot));
    lemma_str_bytes_concat(head, p_text);
    lemma_str_bytes_concat(head + p_text, dot);
    lemma_str_bytes_concat(head + p_text + dot, s_text);
    let hb = str_bytes(head);
    let pb = str_bytes(p_text);
    let db = str_bytes(dot);
    let sb = str_bytes(s_text);
    assert(hb =~= seq![109u8, 99, 97, 49, 46]);
    assert(db =~= seq![46u8]);
    let bytes = str_bytes(token);
    assert(bytes =~= hb + pb + db + sb);
    let first: int = 4;
    let second: int = 5 + pb.len() as int;
    assert forall|i: int| 0 <= i < pb.len() implies pb[i] != 46 by {
        assert(is_url_base64_char(p_text[i]));
    }
    assert forall|i: int| 0 <= i < sb.len() implies sb[i] != 46 by {
        assert(is_url_base64_char(s_text[i]));
    }
    lemma_find_byte_at(bytes, 46, 0, first);
    assert forall|i: int| first + 1 <= i < second implies bytes[i] != 46 by {
        assert(bytes[i] == pb[i - 5]);
    }
    lemma_find_byte_at(bytes, 46, first + 1, second);
    assert forall|i: int| second + 1 <= i < bytes.len() implies bytes[i] != 46 by {
        assert(bytes[i] == sb[i - second - 1]);
    }
    lemma_find_byte_absent(bytes, 46, second + 1);
    assert(bytes.take(first) =~= prefix_bytes());
    assert(bytes.subrange(first + 1, second) =~= pb);
    assert(bytes.subrange(second + 1, bytes.len() as int) =~= sb);
}

/// Claims that a token was issued for are accepted at any time from thirty
/// seconds before they were issued until they expire.
pub proof fn lemma_issued_claims_accepted_until_expiry(
    claims: Claims,
    payload: Seq<u8>,
    seed: Seq<u8>,
    now: u64,
)
    requires
        token_issuance(claims, payload, seed) is Ok,
        claims.iat <= now.saturating_add(30),
        now < claims.exp,
    ensures
        claims_error(claims, now) == Ok::<(), TokenError>(()),
{
}

} // verus!
