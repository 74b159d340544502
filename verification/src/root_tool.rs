//! The Offline Root operation tool's rules: key records, Issuer records, trust
//! snapshot content, and admin token claims.
//!
//! Reading and writing files, drawing random seeds and parsing the command line
//! happen outside; these functions take and give the values involved.
use vstd::prelude::*;

use crate::bytes::{hex, hex_lower, str_bytes};
use crate::crypto::{
    base64_standard_bytes, base64_standard_decode, base64_standard_encode, base64_standard_text,
    ed25519_public_key, ed25519_public_key_of,
};
use crate::order::{dedup_sorted, has_key, keys_sorted, keys_strictly_sorted, sort_by_key, SortKey};
use crate::text::{message, trim, trimmed};
use crate::auth::MAX_ADMIN_TOKEN_LIFETIME_SECONDS;
use crate::token::Claims;
use crate::trust::{
    decode_public_key, decoded_public_key, key_id, key_id_of, trust_issued, trust_signature,
    IssuerRecord, IssuerStatus, TrustError, TrustSnapshot, UnsignedTrustSnapshot,
    TRUST_FORMAT_VERSION,
};

verus! {

impl SortKey for IssuerRecord {
    open spec fn key(&self) -> Seq<u8> {
        str_bytes(self.issuer_key_id@)
    }

    fn key_bytes(&self) -> (bytes: &[u8]) {
        self.issuer_key_id.as_str().as_bytes()
    }
}

/// A public key and its key ID, as the tool writes them.
#[derive(Clone, Debug, PartialEq, Eq)]
pub struct PublicKeyRecord {
    pub key_id: String,
    pub public_key: String,
}

/// The public record of the key whose 32-byte seed is given.
pub fn public_key_record(seed: &[u8; 32]) -> (record: PublicKeyRecord)
    ensures
        record.key_id@ == key_id_of(ed25519_public_key_of(seed@)),
        record.public_key@ == base64_standard_text(ed25519_public_key_of(seed@)),
{
    let public_key = ed25519_public_key(seed);
    PublicKeyRecord { key_id: key_id(&public_key), public_key: base64_standard_encode(public_key.as_slice()) }
}

/// The message for an Issuer validity window that is empty.
pub open spec fn window_message() -> Seq<char> {
    "not-before must precede not-after"@
}

/// An Issuer's validity window must not be empty.
pub fn issuer_window(not_before: u64, not_after: u64) -> (result: Result<(), String>)
    ensures
        not_before < not_after ==> result == Ok::<(), String>(()),
        not_before >= not_after ==> (result matches Err(e) && e@ == window_message()),
{
    if not_before >= not_after {
        return Err(message("not-before must precede not-after"));
    }
    Ok(())
}

/// Key usages in byte order, each once.
pub fn canonical_usages(usages: Vec<String>) -> (canonical: Vec<String>)
    ensures
        keys_strictly_sorted(canonical@),
        forall|key: Seq<u8>| has_key(canonical@, key) <==> has_key(usages@, key),
{
    let sorted = sort_by_key(usages);
    proof {
        broadcast use vstd::seq_lib::group_to_multiset_ensures;

    }
    let ghost before = sorted@;
    let unique = dedup_sorted(sorted);
    proof {
        lemma_same_keys(before, usages@);
    }
    unique
}

/// Two lists holding the same elements, each as often, hold the same keys.
proof fn lemma_same_keys<T: SortKey>(left: Seq<T>, right: Seq<T>)
    requires
        left.to_multiset() == right.to_multiset(),
    ensures
        forall|key: Seq<u8>| has_key(left, key) <==> has_key(right, key),
{
    broadcast use vstd::seq_lib::group_to_multiset_ensures;

    assert forall|key: Seq<u8>| has_key(left, key) <==> has_key(right, key) by {
        if has_key(left, key) {
            let i = choose|i: int| 0 <= i < left.len() && #[trigger] left[i].key() == key;
            assert(left.to_multiset().count(left[i]) > 0);
            assert(right.contains(left[i]));
            let j = choose|j: int| 0 <= j < right.len() && right[j] == left[i];
            assert(right[j].key() == key);
        }
        if has_key(right, key) {
            let j = choose|j: int| 0 <= j < right.len() && #[trigger] right[j].key() == key;
            assert(right.to_multiset().count(right[j]) > 0);
            assert(left.contains(right[j]));
            let i = choose|i: int| 0 <= i < left.len() && left[i] == right[j];
            assert(left[i].key() == key);
        }
    }
}

/// The Issuer record of the key whose seed is given.
pub fn issuer_record(
    seed: &[u8; 32],
    status: IssuerStatus,
    not_before: u64,
    not_after: u64,
    allowed_key_usages: Vec<String>,
) -> (record: IssuerRecord)
    ensures
        record.issuer_key_id@ == key_id_of(ed25519_public_key_of(seed@)),
        record.public_key@ == base64_standard_text(ed25519_public_key_of(seed@)),
        record.status == status,
        record.not_before == not_before,
        record.not_after == not_after,
        record.allowed_key_usages == allowed_key_usages,
{
    let key = public_key_record(seed);
    IssuerRecord {
        issuer_key_id: key.key_id,
        public_key: key.public_key,
        status,
        not_before,
        not_after,
        allowed_key_usages,
    }
}

/// The message for a private key file that is not Base64.
pub open spec fn seed_encoding_message() -> Seq<char> {
    "private key is not valid base64"@
}

/// The message for a private key that is not a 32-byte seed.
pub open spec fn seed_length_message() -> Seq<char> {
    "private key must contain a 32-byte seed"@
}

/// Reads a 32-byte private key seed from its padded standard Base64 text,
/// ignoring surrounding whitespace.
pub fn seed_from_text(encoded: &str) -> (seed: Result<[u8; 32], String>)
    ensures
        match base64_standard_bytes(str_bytes(trimmed(encoded@))) {
            None => seed matches Err(e) && e@ == seed_encoding_message(),
            Some(bytes) => if bytes.len() == 32 {
                seed matches Ok(s) && s@ == bytes
            } else {
                seed matches Err(e) && e@ == seed_length_message()
            },
        },
{
    match base64_standard_decode(trim(encoded).as_bytes()) {
        None => Err(message("private key is not valid base64")),
        Some(bytes) => if bytes.len() == 32 {
            Ok(crate::bytes::array32(bytes.as_slice()))
        } else {
            Err(message("private key must contain a 32-byte seed"))
        },
    }
}

/// The message for a public key record whose key does not decode.
pub open spec fn public_key_message() -> Seq<char> {
    "invalid public key"@
}

/// The message for a public key record whose key ID belongs to another key.
pub open spec fn key_id_mismatch_message() -> Seq<char> {
    "public key ID does not match public key"@
}

/// Reads the key of a public key record: it must decode, and its key ID must
/// be the one recorded.
pub fn record_public_key(record: &PublicKeyRecord) -> (key: Result<[u8; 32], String>)
    ensures
        match decoded_public_key(record.public_key@) {
            None => key matches Err(e) && e@ == public_key_message(),
            Some(bytes) => if key_id_of(bytes) == record.key_id@ {
                key matches Ok(k) && k@ == bytes
            } else {
                key matches Err(e) && e@ == key_id_mismatch_message()
            },
        },
{
    let key = match decode_public_key(record.public_key.as_str()) {
        Ok(key) => key,
        Err(_) => return Err(message("invalid public key")),
    };
    if !(key_id(&key) == record.key_id) {
        return Err(message("public key ID does not match public key"));
    }
    Ok(key)
}

/// `content` is the trust snapshot the tool signs: format 1, the given version
/// and window, the Root's key ID, the Issuers in key ID order, and Ed25519.
pub open spec fn snapshot_content_for(
    content: UnsignedTrustSnapshot,
    issuers: Seq<IssuerRecord>,
    version: u64,
    generated_at: u64,
    expires_at: u64,
    root_seed: Seq<u8>,
) -> bool {
    &&& content.format_version == TRUST_FORMAT_VERSION
    &&& content.snapshot_version == version
    &&& content.generated_at == generated_at
    &&& content.expires_at == expires_at
    &&& content.root_key_id@ == key_id_of(ed25519_public_key_of(root_seed))
    &&& content.issuers@.to_multiset() == issuers.to_multiset()
    &&& keys_sorted(content.issuers@)
    &&& content.signature_algorithm@ == "ed25519"@
}

/// Signs a trust snapshot of the given Issuers with the Root seed.
pub fn issue_trust_snapshot(
    issuers: Vec<IssuerRecord>,
    version: u64,
    generated_at: u64,
    expires_at: u64,
    root_seed: &[u8; 32],
) -> (snapshot: Result<TrustSnapshot, TrustError>)
    ensures
        match snapshot {
            Ok(s) => snapshot_content_for(
                s.content,
                issuers@,
                version,
                generated_at,
                expires_at,
                root_seed@,
            ) && trust_issued(s, s.content, root_seed@),
            Err(e) => exists|content: UnsignedTrustSnapshot|
                snapshot_content_for(content, issuers@, version, generated_at, expires_at, root_seed@)
                    && trust_signature(content, root_seed@) == Err::<Seq<u8>, TrustError>(e),
        },
{
    let ghost given = issuers@;
    let sorted = sort_by_key(issuers);
    let public_key = ed25519_public_key(root_seed);
    let content = UnsignedTrustSnapshot {
        format_version: TRUST_FORMAT_VERSION,
        snapshot_version: version,
        generated_at,
        expires_at,
        root_key_id: key_id(&public_key),
        issuers: sorted,
        signature_algorithm: message("ed25519"),
    };
    assert(snapshot_content_for(content, given, version, generated_at, expires_at, root_seed@));
    TrustSnapshot::issue(content, root_seed)
}

/// The message for an admin token whose lifetime is empty or longer than 120 seconds.
pub open spec fn admin_window_message() -> Seq<char> {
    "admin token must expire within 120 seconds after it is issued"@
}

/// An admin token must expire after it is issued, and at most 120 seconds after.
pub fn admin_token_window(issued_at: u64, expires_at: u64) -> (result: Result<(), String>)
    ensures
        issued_at < expires_at && expires_at - issued_at <= MAX_ADMIN_TOKEN_LIFETIME_SECONDS
            ==> result == Ok::<(), String>(()),
        !(issued_at < expires_at && expires_at - issued_at <= MAX_ADMIN_TOKEN_LIFETIME_SECONDS)
            ==> (result matches Err(e) && e@ == admin_window_message()),
{
    if issued_at < expires_at && expires_at - issued_at <= MAX_ADMIN_TOKEN_LIFETIME_SECONDS {
        Ok(())
    } else {
        Err(message("admin token must expire within 120 seconds after it is issued"))
    }
}

/// The claims of an admin token for `subject`, valid from `issued_at`
/// to `expires_at`, whose token ID is the lowercase hex of 16 random bytes.
pub fn admin_claims(subject: &str, issued_at: u64, expires_at: u64, jti_bytes: &[u8; 16]) -> (claims:
    Claims)
    ensures
        claims.iss@ == "console.mochios.org"@,
        claims.sub@ == subject@,
        claims.aud@ == "developer-ca-admin"@,
        claims.iat == issued_at,
        claims.exp == expires_at,
        claims.jti@ == hex_lower(jti_bytes@),
        claims.role@ == "developer_ca_reviewer"@,
        claims.act matches Some(a) && a@ == "mochios-console"@,
        claims.client_id is None,
        claims.scope is None,
        claims.session_id is None,
{
    Claims {
        iss: message("console.mochios.org"),
        sub: message(subject),
        aud: message("developer-ca-admin"),
        iat: issued_at,
        exp: expires_at,
        jti: hex(jti_bytes.as_slice()),
        role: message("developer_ca_reviewer"),
        act: Some(message("mochios-console")),
        client_id: None,
        scope: None,
        session_id: None,
    }
}

} // verus!
