//! Root-signed Issuer trust snapshots and Issuer-signed revocation snapshots:
//! their validation rules, their canonical signing encoding, and signing and
//! verification over that encoding.
use vstd::prelude::*;
use vstd::utf8::*;

use crate::order::{lemma_bytes_lt_asymmetric, lemma_bytes_lt_irreflexive, lemma_bytes_lt_total};
use crate::text::message;
use crate::bytes::{
    is_hex_digit, all_hex, all_hex_digits, array32, array64, bytes_equal, bytes_less, bytes_lt, framed, hex, hex_lower,
    is_decimal_digit, le32, le64, put_bytes, put_u32, put_u64, str_bytes,
};
use crate::crypto::{
    base64_standard_bytes, base64_standard_decode, base64_standard_encode, base64_standard_text,
    ed25519_key_decodes, ed25519_point_decodes, ed25519_public_key, ed25519_public_key_of,
    ed25519_sign, ed25519_signature_of, ed25519_strictly_accepts, ed25519_verify_strict, sha256,
    sha256_of,
};

verus! {

broadcast use is_ascii_chars_encode_utf8;

pub const TRUST_FORMAT_VERSION: u32 = 1;
pub const REVOCATION_FORMAT_VERSION: u32 = 1;
pub const SIGNATURE_ALGORITHM: &'static str = "ed25519";
pub const MAX_ISSUERS: usize = 64;
pub const MAX_REVOCATIONS: usize = 100000;
pub const MAX_SNAPSHOT_BYTES: usize = 4194304;
pub const MAX_KEY_ID_LEN: usize = 64;
pub const MAX_REASON_CODE_LEN: usize = 32;
pub const MAX_TRUST_LIFETIME_SECONDS: u64 = 15552000;
pub const MAX_REVOCATION_LIFETIME_SECONDS: u64 = 604800;

#[derive(Clone, Copy, Debug, PartialEq, Eq, Structural)]
pub enum IssuerStatus {
    Future,
    Active,
    Retired,
    Revoked,
}

#[derive(Clone, Debug, PartialEq, Eq)]
pub struct IssuerRecord {
    pub issuer_key_id: String,
    pub public_key: String,
    pub status: IssuerStatus,
    pub not_before: u64,
    pub not_after: u64,
    pub allowed_key_usages: Vec<String>,
}

#[derive(Clone, Debug, PartialEq, Eq)]
pub struct UnsignedTrustSnapshot {
    pub format_version: u32,
    pub snapshot_version: u64,
    pub generated_at: u64,
    pub expires_at: u64,
    pub root_key_id: String,
    pub issuers: Vec<IssuerRecord>,
    pub signature_algorithm: String,
}

#[derive(Clone, Debug, PartialEq, Eq)]
pub struct TrustSnapshot {
    pub content: UnsignedTrustSnapshot,
    pub root_signature: String,
}

#[derive(Clone, Copy, Debug, PartialEq, Eq, Structural)]
pub enum RevocationReasonCode {
    KeyCompromise,
    DeveloperSuspended,
    CertificateReplaced,
    ScopeViolation,
    Administrative,
    Unspecified,
}

#[derive(Clone, Debug, PartialEq, Eq)]
pub struct SnapshotRevocation {
    pub certificate_serial: String,
    pub revoked_at: u64,
    pub reason_code: RevocationReasonCode,
}

#[derive(Clone, Debug, PartialEq, Eq)]
pub struct UnsignedRevocationSnapshot {
    pub format_version: u32,
    pub snapshot_version: u64,
    pub generated_at: u64,
    pub expires_at: u64,
    pub issuer_key_id: String,
    pub revocations: Vec<SnapshotRevocation>,
    pub signature_algorithm: String,
}

#[derive(Clone, Debug, PartialEq, Eq)]
pub struct RevocationSnapshot {
    pub content: UnsignedRevocationSnapshot,
    pub signature: String,
}

#[derive(Clone, Copy, Debug, PartialEq, Eq, Structural)]
pub enum TrustError {
    UnsupportedFormat,
    UnsupportedSignatureAlgorithm,
    InvalidVersion,
    InvalidValidity,
    LifetimeTooLong,
    TooManyIssuers,
    TooManyRevocations,
    InvalidKeyId,
    InvalidPublicKey,
    KeyIdMismatch,
    InvalidKeyUsage,
    DuplicateIssuer,
    UnsortedIssuers,
    MultipleActiveIssuers,
    InvalidSerial,
    InvalidReasonCode,
    DuplicateRevocation,
    UnsortedRevocations,
    InvalidSignature,
    SnapshotTooLarge,
    EncodingOverflow,
}

/// The name of each TrustError variant, as its `Debug` form writes it.
pub open spec fn trust_error_name(error: TrustError) -> Seq<char> {
    match error {
        TrustError::UnsupportedFormat => "UnsupportedFormat"@,
        TrustError::UnsupportedSignatureAlgorithm => "UnsupportedSignatureAlgorithm"@,
        TrustError::InvalidVersion => "InvalidVersion"@,
        TrustError::InvalidValidity => "InvalidValidity"@,
        TrustError::LifetimeTooLong => "LifetimeTooLong"@,
        TrustError::TooManyIssuers => "TooManyIssuers"@,
        TrustError::TooManyRevocations => "TooManyRevocations"@,
        TrustError::InvalidKeyId => "InvalidKeyId"@,
        TrustError::InvalidPublicKey => "InvalidPublicKey"@,
        TrustError::KeyIdMismatch => "KeyIdMismatch"@,
        TrustError::InvalidKeyUsage => "InvalidKeyUsage"@,
        TrustError::DuplicateIssuer => "DuplicateIssuer"@,
        TrustError::UnsortedIssuers => "UnsortedIssuers"@,
        TrustError::MultipleActiveIssuers => "MultipleActiveIssuers"@,
        TrustError::InvalidSerial => "InvalidSerial"@,
        TrustError::InvalidReasonCode => "InvalidReasonCode"@,
        TrustError::DuplicateRevocation => "DuplicateRevocation"@,
        TrustError::UnsortedRevocations => "UnsortedRevocations"@,
        TrustError::InvalidSignature => "InvalidSignature"@,
        TrustError::SnapshotTooLarge => "SnapshotTooLarge"@,
        TrustError::EncodingOverflow => "EncodingOverflow"@,
    }
}

impl TrustError {
    /// The human-readable description of the error: `invalid trust material: ` and the variant's name.
    pub fn message(&self) -> (text: String)
        ensures
            text@ == "invalid trust material: "@ + trust_error_name(*self),
    {
        let name: &str = match self {
            TrustError::UnsupportedFormat => "UnsupportedFormat",
            TrustError::UnsupportedSignatureAlgorithm => "UnsupportedSignatureAlgorithm",
            TrustError::InvalidVersion => "InvalidVersion",
            TrustError::InvalidValidity => "InvalidValidity",
            TrustError::LifetimeTooLong => "LifetimeTooLong",
            TrustError::TooManyIssuers => "TooManyIssuers",
            TrustError::TooManyRevocations => "TooManyRevocations",
            TrustError::InvalidKeyId => "InvalidKeyId",
            TrustError::InvalidPublicKey => "InvalidPublicKey",
            TrustError::KeyIdMismatch => "KeyIdMismatch",
            TrustError::InvalidKeyUsage => "InvalidKeyUsage",
            TrustError::DuplicateIssuer => "DuplicateIssuer",
            TrustError::UnsortedIssuers => "UnsortedIssuers",
            TrustError::MultipleActiveIssuers => "MultipleActiveIssuers",
            TrustError::InvalidSerial => "InvalidSerial",
            TrustError::InvalidReasonCode => "InvalidReasonCode",
            TrustError::DuplicateRevocation => "DuplicateRevocation",
            TrustError::UnsortedRevocations => "UnsortedRevocations",
            TrustError::InvalidSignature => "InvalidSignature",
            TrustError::SnapshotTooLarge => "SnapshotTooLarge",
            TrustError::EncodingOverflow => "EncodingOverflow",
        };
        let mut text = message("invalid trust material: ");
        text.append(name);
        text
    }
}

// ---------------------------------------------------------------------------
// Fixed byte strings
// ---------------------------------------------------------------------------

/// `b"mochios-issuer-trust-snapshot-v1\0"`, the domain separator of trust snapshots.
pub open spec fn trust_domain() -> Seq<u8> {
    seq![
        109u8, 111, 99, 104, 105, 111, 115, 45, 105, 115, 115, 117, 101, 114, 45, 116, 114, 117,
        115, 116, 45, 115, 110, 97, 112, 115, 104, 111, 116, 45, 118, 49, 0,
    ]
}

/// `b"mochios-revocation-snapshot-v1\0"`, the domain separator of revocation snapshots.
pub open spec fn revocation_domain() -> Seq<u8> {
    seq![
        109u8, 111, 99, 104, 105, 111, 115, 45, 114, 101, 118, 111, 99, 97, 116, 105, 111, 110,
        45, 115, 110, 97, 112, 115, 104, 111, 116, 45, 118, 49, 0,
    ]
}

/// The bytes of `SIGNATURE_ALGORITHM`, `"ed25519"`.
pub open spec fn algorithm_bytes() -> Seq<u8> {
    seq![101u8, 100, 50, 53, 53, 49, 57]
}

/// `"developer-certificate-signing"`.
pub open spec fn certificate_signing_usage() -> Seq<u8> {
    seq![
        100u8, 101, 118, 101, 108, 111, 112, 101, 114, 45, 99, 101, 114, 116, 105, 102, 105, 99,
        97, 116, 101, 45, 115, 105, 103, 110, 105, 110, 103,
    ]
}

/// `"revocation-signing"`.
pub open spec fn revocation_signing_usage() -> Seq<u8> {
    seq![114u8, 101, 118, 111, 99, 97, 116, 105, 111, 110, 45, 115, 105, 103, 110, 105, 110, 103]
}

/// The text of a reason code, as `RevocationReasonCode::as_str` gives it.
pub open spec fn reason_text(code: RevocationReasonCode) -> Seq<char> {
    match code {
        RevocationReasonCode::KeyCompromise => "key_compromise"@,
        RevocationReasonCode::DeveloperSuspended => "developer_suspended"@,
        RevocationReasonCode::CertificateReplaced => "certificate_replaced"@,
        RevocationReasonCode::ScopeViolation => "scope_violation"@,
        RevocationReasonCode::Administrative => "administrative"@,
        RevocationReasonCode::Unspecified => "unspecified"@,
    }
}

// ---------------------------------------------------------------------------
// Validation rules
// ---------------------------------------------------------------------------

/// A key ID: 64 ASCII hexadecimal digits.
pub open spec fn is_key_id(text: Seq<char>) -> bool {
    str_bytes(text).len() == MAX_KEY_ID_LEN && all_hex(str_bytes(text))
}

/// The key ID of a public key: lowercase hex of its SHA-256 digest.
pub open spec fn key_id_of(public_key: Seq<u8>) -> Seq<char> {
    hex_lower(sha256_of(public_key))
}

/// The 32-byte public key that a padded standard Base64 text decodes to, if any.
pub open spec fn decoded_public_key(text: Seq<char>) -> Option<Seq<u8>> {
    match base64_standard_bytes(str_bytes(text)) {
        Some(bytes) => if bytes.len() == 32 {
            Some(bytes)
        } else {
            None
        },
        None => None,
    }
}

/// The checks that trust and revocation snapshots share, in the order they are made.
pub open spec fn common_error(
    version: u64,
    generated_at: u64,
    expires_at: u64,
    max_lifetime: u64,
    algorithm: Seq<char>,
) -> Result<(), TrustError> {
    if version == 0 {
        Err(TrustError::InvalidVersion)
    } else if generated_at >= expires_at {
        Err(TrustError::InvalidValidity)
    } else if expires_at - generated_at > max_lifetime {
        Err(TrustError::LifetimeTooLong)
    } else if str_bytes(algorithm) != algorithm_bytes() {
        Err(TrustError::UnsupportedSignatureAlgorithm)
    } else {
        Ok(())
    }
}

/// One of the two key usages an Issuer may hold.
pub open spec fn is_known_usage(usage: Seq<char>) -> bool {
    str_bytes(usage) == certificate_signing_usage() || str_bytes(usage) == revocation_signing_usage()
}

/// Between one and four known usages, strictly ascending.
pub open spec fn usages_valid(usages: Seq<String>) -> bool {
    &&& 0 < usages.len() <= 4
    &&& forall|i: int| 0 <= i < usages.len() ==> is_known_usage(#[trigger] usages[i]@)
    &&& forall|i: int|
        0 <= i < usages.len() - 1 ==> bytes_lt(
            str_bytes(#[trigger] usages[i]@),
            str_bytes(usages[i + 1]@),
        )
}

/// The checks on one Issuer record, in the order they are made.
pub open spec fn issuer_error(issuer: IssuerRecord) -> Result<(), TrustError> {
    if !is_key_id(issuer.issuer_key_id@) || issuer.not_before >= issuer.not_after {
        Err(TrustError::InvalidKeyId)
    } else {
        match decoded_public_key(issuer.public_key@) {
            None => Err(TrustError::InvalidPublicKey),
            Some(key) => if !ed25519_point_decodes(key) {
                Err(TrustError::InvalidPublicKey)
            } else if key_id_of(key) != issuer.issuer_key_id@ {
                Err(TrustError::KeyIdMismatch)
            } else if !usages_valid(issuer.allowed_key_usages@) {
                Err(TrustError::InvalidKeyUsage)
            } else {
                Ok(())
            },
        }
    }
}

/// The checks on the Issuers from position `i` on: each record, then its key ID
/// against the previous one (no duplicate, ascending).
pub open spec fn issuers_error_from(issuers: Seq<IssuerRecord>, i: int) -> Result<(), TrustError>
    decreases issuers.len() - i,
{
    if i < 0 || i >= issuers.len() {
        Ok(())
    } else {
        match issuer_error(issuers[i]) {
            Err(e) => Err(e),
            Ok(_) => if i > 0 && str_bytes(issuers[i - 1].issuer_key_id@) == str_bytes(
                issuers[i].issuer_key_id@,
            ) {
                Err(TrustError::DuplicateIssuer)
            } else if i > 0 && bytes_lt(
                str_bytes(issuers[i].issuer_key_id@),
                str_bytes(issuers[i - 1].issuer_key_id@),
            ) {
                Err(TrustError::UnsortedIssuers)
            } else {
                issuers_error_from(issuers, i + 1)
            },
        }
    }
}

/// How many Issuers are active.
pub open spec fn active_count(issuers: Seq<IssuerRecord>) -> nat
    decreases issuers.len(),
{
    if issuers.len() == 0 {
        0
    } else {
        active_count(issuers.drop_last()) + if issuers.last().status == IssuerStatus::Active {
            1nat
        } else {
            0nat
        }
    }
}

/// The validation of a trust snapshot's content, with the error it reports first.
pub open spec fn trust_error(content: UnsignedTrustSnapshot) -> Result<(), TrustError> {
    if content.format_version != TRUST_FORMAT_VERSION {
        Err(TrustError::UnsupportedFormat)
    } else {
        match common_error(
            content.snapshot_version,
            content.generated_at,
            content.expires_at,
            MAX_TRUST_LIFETIME_SECONDS,
            content.signature_algorithm@,
        ) {
            Err(e) => Err(e),
            Ok(_) => if content.issuers@.len() > MAX_ISSUERS {
                Err(TrustError::TooManyIssuers)
            } else if !is_key_id(content.root_key_id@) {
                Err(TrustError::InvalidKeyId)
            } else {
                match issuers_error_from(content.issuers@, 0) {
                    Err(e) => Err(e),
                    Ok(_) => if active_count(content.issuers@) > 1 {
                        Err(TrustError::MultipleActiveIssuers)
                    } else {
                        Ok(())
                    },
                }
            },
        }
    }
}

/// A certificate serial: one to 32 ASCII decimal digits.
pub open spec fn is_serial(text: Seq<char>) -> bool {
    &&& 0 < str_bytes(text).len() <= 32
    &&& forall|i: int|
        0 <= i < str_bytes(text).len() ==> is_decimal_digit(#[trigger] str_bytes(text)[i])
}

/// The checks on the revocations from position `i` on.
pub open spec fn revocations_error_from(revocations: Seq<SnapshotRevocation>, i: int) -> Result<
    (),
    TrustError,
>
    decreases revocations.len() - i,
{
    if i < 0 || i >= revocations.len() {
        Ok(())
    } else if !is_serial(revocations[i].certificate_serial@) {
        Err(TrustError::InvalidSerial)
    } else if str_bytes(reason_text(revocations[i].reason_code)).len() > MAX_REASON_CODE_LEN {
        Err(TrustError::InvalidReasonCode)
    } else if i > 0 && str_bytes(revocations[i - 1].certificate_serial@) == str_bytes(
        revocations[i].certificate_serial@,
    ) {
        Err(TrustError::DuplicateRevocation)
    } else if i > 0 && bytes_lt(
        str_bytes(revocations[i].certificate_serial@),
        str_bytes(revocations[i - 1].certificate_serial@),
    ) {
        Err(TrustError::UnsortedRevocations)
    } else {
        revocations_error_from(revocations, i + 1)
    }
}

/// The validation of a revocation snapshot's content, with the error it reports first.
pub open spec fn revocation_error(content: UnsignedRevocationSnapshot) -> Result<(), TrustError> {
    if content.format_version != REVOCATION_FORMAT_VERSION {
        Err(TrustError::UnsupportedFormat)
    } else {
        match common_error(
            content.snapshot_version,
            content.generated_at,
            content.expires_at,
            MAX_REVOCATION_LIFETIME_SECONDS,
            content.signature_algorithm@,
        ) {
            Err(e) => Err(e),
            Ok(_) => if !is_key_id(content.issuer_key_id@) {
                Err(TrustError::InvalidKeyId)
            } else if content.revocations@.len() > MAX_REVOCATIONS {
                Err(TrustError::TooManyRevocations)
            } else {
                revocations_error_from(content.revocations@, 0)
            },
        }
    }
}

// ---------------------------------------------------------------------------
// Validation
// ---------------------------------------------------------------------------

impl RevocationReasonCode {
    /// The snake-case text of the reason code.
    pub fn as_str(self) -> (text: &'static str)
        ensures
            text@ == reason_text(self),
    {
        match self {
            RevocationReasonCode::KeyCompromise => "key_compromise",
            RevocationReasonCode::DeveloperSuspended => "developer_suspended",
            RevocationReasonCode::CertificateReplaced => "certificate_replaced",
            RevocationReasonCode::ScopeViolation => "scope_violation",
            RevocationReasonCode::Administrative => "administrative",
            RevocationReasonCode::Unspecified => "unspecified",
        }
    }
}

/// The key ID of a public key: lowercase hex of its SHA-256 digest.
pub fn key_id(public_key: &[u8; 32]) -> (id: String)
    ensures
        id@ == key_id_of(public_key@),
{
    let digest = sha256(public_key);
    hex(&digest)
}

/// Decodes a padded standard Base64 Ed25519 public key of exactly 32 bytes.
pub fn decode_public_key(encoded: &str) -> (key: Result<[u8; 32], TrustError>)
    ensures
        match key {
            Ok(bytes) => decoded_public_key(encoded@) == Some(bytes@),
            Err(e) => e == TrustError::InvalidPublicKey && decoded_public_key(encoded@) is None,
        },
{
    match base64_standard_decode(encoded.as_bytes()) {
        Some(bytes) => {
            if bytes.len() == 32 {
                Ok(array32(bytes.as_slice()))
            } else {
                Err(TrustError::InvalidPublicKey)
            }
        },
        None => Err(TrustError::InvalidPublicKey),
    }
}

pub fn valid_key_id(value: &str) -> (valid: bool)
    ensures
        valid == is_key_id(value@),
{
    value.as_bytes().len() == MAX_KEY_ID_LEN && all_hex_digits(value.as_bytes())
}

pub fn validate_common(
    version: u64,
    generated_at: u64,
    expires_at: u64,
    max_lifetime: u64,
    algorithm: &str,
) -> (result: Result<(), TrustError>)
    ensures
        result == common_error(version, generated_at, expires_at, max_lifetime, algorithm@),
{
    if version == 0 {
        return Err(TrustError::InvalidVersion);
    }
    if generated_at >= expires_at {
        return Err(TrustError::InvalidValidity);
    }
    if expires_at - generated_at > max_lifetime {
        return Err(TrustError::LifetimeTooLong);
    }
    let name: [u8; 7] = [101, 100, 50, 53, 53, 49, 57];
    if !bytes_equal(algorithm.as_bytes(), name.as_slice()) {
        return Err(TrustError::UnsupportedSignatureAlgorithm);
    }
    Ok(())
}

fn known_usage(usage: &str) -> (known: bool)
    ensures
        known == is_known_usage(usage@),
{
    let certificate: [u8; 29] = [
        100, 101, 118, 101, 108, 111, 112, 101, 114, 45, 99, 101, 114, 116, 105, 102, 105, 99,
        97, 116, 101, 45, 115, 105, 103, 110, 105, 110, 103,
    ];
    let revocation: [u8; 18] = [
        114, 101, 118, 111, 99, 97, 116, 105, 111, 110, 45, 115, 105, 103, 110, 105, 110, 103,
    ];
    bytes_equal(usage.as_bytes(), certificate.as_slice()) || bytes_equal(
        usage.as_bytes(),
        revocation.as_slice(),
    )
}

fn validate_usages(usages: &Vec<String>) -> (valid: bool)
    ensures
        valid == usages_valid(usages@),
{
    if usages.len() == 0 || usages.len() > 4 {
        return false;
    }
    let mut i: usize = 0;
    while i < usages.len()
        invariant
            0 < usages@.len() <= 4,
            i <= usages@.len(),
            forall|j: int| 0 <= j < i ==> is_known_usage(#[trigger] usages@[j]@),
        decreases usages@.len() - i,
    {
        if !known_usage(usages[i].as_str()) {
            return false;
        }
        i = i + 1;
    }
    let mut k: usize = 1;
    while k < usages.len()
        invariant
            0 < usages@.len() <= 4,
            1 <= k <= usages@.len(),
            forall|j: int| 0 <= j < usages@.len() ==> is_known_usage(#[trigger] usages@[j]@),
            forall|j: int|
                0 <= j < k - 1 ==> bytes_lt(
                    str_bytes(#[trigger] usages@[j]@),
                    str_bytes(usages@[j + 1]@),
                ),
        decreases usages@.len() - k,
    {
        if !bytes_less(usages[k - 1].as_str().as_bytes(), usages[k].as_str().as_bytes()) {
            return false;
        }
        k = k + 1;
    }
    true
}

fn validate_issuer(issuer: &IssuerRecord) -> (result: Result<(), TrustError>)
    ensures
        result == issuer_error(*issuer),
{
    if !valid_key_id(issuer.issuer_key_id.as_str()) || issuer.not_before >= issuer.not_after {
        return Err(TrustError::InvalidKeyId);
    }
    let public_key = match decode_public_key(issuer.public_key.as_str()) {
        Ok(key) => key,
        Err(e) => return Err(e),
    };
    if !ed25519_key_decodes(&public_key) {
        return Err(TrustError::InvalidPublicKey);
    }
    let id = key_id(&public_key);
    if !(id == issuer.issuer_key_id) {
        return Err(TrustError::KeyIdMismatch);
    }
    if !validate_usages(&issuer.allowed_key_usages) {
        return Err(TrustError::InvalidKeyUsage);
    }
    Ok(())
}

pub fn validate_trust(content: &UnsignedTrustSnapshot) -> (result: Result<(), TrustError>)
    ensures
        result == trust_error(*content),
{
    if content.format_version != TRUST_FORMAT_VERSION {
        return Err(TrustError::UnsupportedFormat);
    }
    match validate_common(
        content.snapshot_version,
        content.generated_at,
        content.expires_at,
        MAX_TRUST_LIFETIME_SECONDS,
        content.signature_algorithm.as_str(),
    ) {
        Err(e) => return Err(e),
        Ok(_) => {},
    }
    if content.issuers.len() > MAX_ISSUERS {
        return Err(TrustError::TooManyIssuers);
    }
    if !valid_key_id(content.root_key_id.as_str()) {
        return Err(TrustError::InvalidKeyId);
    }
    let issuers = &content.issuers;
    let mut active: usize = 0;
    let mut i: usize = 0;
    while i < issuers.len()
        invariant
            issuers@ == content.issuers@,
            issuers@.len() <= MAX_ISSUERS,
            content.format_version == TRUST_FORMAT_VERSION,
            common_error(
                content.snapshot_version,
                content.generated_at,
                content.expires_at,
                MAX_TRUST_LIFETIME_SECONDS,
                content.signature_algorithm@,
            ) is Ok,
            is_key_id(content.root_key_id@),
            i <= issuers@.len(),
            active <= i,
            active == active_count(issuers@.take(i as int)),
            issuers_error_from(issuers@, 0) == issuers_error_from(issuers@, i as int),
        decreases issuers@.len() - i,
    {
        let issuer = &issuers[i];
        assert(issuers_error_from(issuers@, i as int) == match issuer_error(issuers@[i as int]) {
            Err(e) => Err(e),
            Ok(_) => if i > 0 && str_bytes(issuers@[i - 1].issuer_key_id@) == str_bytes(
                issuers@[i as int].issuer_key_id@,
            ) {
                Err(TrustError::DuplicateIssuer)
            } else if i > 0 && bytes_lt(
                str_bytes(issuers@[i as int].issuer_key_id@),
                str_bytes(issuers@[i - 1].issuer_key_id@),
            ) {
                Err(TrustError::UnsortedIssuers)
            } else {
                issuers_error_from(issuers@, i + 1)
            },
        });
        match validate_issuer(issuer) {
            Err(e) => return Err(e),
            Ok(_) => {},
        }
        assert(issuers@.take(i + 1).drop_last() =~= issuers@.take(i as int));
        if issuer.status == IssuerStatus::Active {
            active = active + 1;
        }
        if i > 0 {
            let previous = issuers[i - 1].issuer_key_id.as_str().as_bytes();
            let current = issuer.issuer_key_id.as_str().as_bytes();
            if bytes_equal(previous, current) {
                return Err(TrustError::DuplicateIssuer);
            }
            if bytes_less(current, previous) {
                return Err(TrustError::UnsortedIssuers);
            }
        }
        i = i + 1;
    }
    assert(issuers@.take(i as int) =~= issuers@);
    if active > 1 {
        return Err(TrustError::MultipleActiveIssuers);
    }
    Ok(())
}

pub fn validate_revocations(content: &UnsignedRevocationSnapshot) -> (result: Result<(), TrustError>)
    ensures
        result == revocation_error(*content),
{
    if content.format_version != REVOCATION_FORMAT_VERSION {
        return Err(TrustError::UnsupportedFormat);
    }
    match validate_common(
        content.snapshot_version,
        content.generated_at,
        content.expires_at,
        MAX_REVOCATION_LIFETIME_SECONDS,
        content.signature_algorithm.as_str(),
    ) {
        Err(e) => return Err(e),
        Ok(_) => {},
    }
    if !valid_key_id(content.issuer_key_id.as_str()) {
        return Err(TrustError::InvalidKeyId);
    }
    if content.revocations.len() > MAX_REVOCATIONS {
        return Err(TrustError::TooManyRevocations);
    }
    let revocations = &content.revocations;
    let mut i: usize = 0;
    while i < revocations.len()
        invariant
            revocations@ == content.revocations@,
            i <= revocations@.len(),
            content.format_version == REVOCATION_FORMAT_VERSION,
            common_error(
                content.snapshot_version,
                content.generated_at,
                content.expires_at,
                MAX_REVOCATION_LIFETIME_SECONDS,
                content.signature_algorithm@,
            ) is Ok,
            is_key_id(content.issuer_key_id@),
            revocations@.len() <= MAX_REVOCATIONS,
            revocations_error_from(revocations@, 0) == revocations_error_from(
                revocations@,
                i as int,
            ),
        decreases revocations@.len() - i,
    {
        let revocation = &revocations[i];
        let serial = revocation.certificate_serial.as_str().as_bytes();
        if serial.len() == 0 || serial.len() > 32 || !all_decimal_digits(serial) {
            return Err(TrustError::InvalidSerial);
        }
        if revocation.reason_code.as_str().as_bytes().len() > MAX_REASON_CODE_LEN {
            return Err(TrustError::InvalidReasonCode);
        }
        if i > 0 {
            let previous = revocations[i - 1].certificate_serial.as_str().as_bytes();
            if bytes_equal(previous, serial) {
                return Err(TrustError::DuplicateRevocation);
            }
            if bytes_less(serial, previous) {
                return Err(TrustError::UnsortedRevocations);
            }
        }
        i = i + 1;
    }
    Ok(())
}

fn all_decimal_digits(data: &[u8]) -> (all: bool)
    ensures
        all == forall|i: int| 0 <= i < data@.len() ==> is_decimal_digit(#[trigger] data@[i]),
{
    let mut i: usize = 0;
    while i < data.len()
        invariant
            i <= data@.len(),
            forall|j: int| 0 <= j < i ==> is_decimal_digit(#[trigger] data@[j]),
        decreases data@.len() - i,
    {
        if !(48 <= data[i] && data[i] <= 57) {
            assert(!is_decimal_digit(data@[i as int]));
            return false;
        }
        i = i + 1;
    }
    true
}

// ---------------------------------------------------------------------------
// Canonical signing encoding
// ---------------------------------------------------------------------------

/// Whether a text's byte length fits the `u32` length prefix.
pub open spec fn text_fits(text: Seq<char>) -> bool {
    str_bytes(text).len() <= u32::MAX
}

/// A text framed by its byte length.
pub open spec fn encode_text(text: Seq<char>) -> Seq<u8> {
    framed(str_bytes(text))
}

/// The framed texts of a list, one after another.
pub open spec fn encode_texts(texts: Seq<String>) -> Seq<u8>
    decreases texts.len(),
{
    if texts.len() == 0 {
        seq![]
    } else {
        encode_texts(texts.drop_last()) + encode_text(texts.last()@)
    }
}

/// The byte that stands for an Issuer status.
pub open spec fn status_code(status: IssuerStatus) -> u8 {
    match status {
        IssuerStatus::Future => 1,
        IssuerStatus::Active => 2,
        IssuerStatus::Retired => 3,
        IssuerStatus::Revoked => 4,
    }
}

/// The encoding of one Issuer record.
pub open spec fn encode_issuer(issuer: IssuerRecord) -> Seq<u8> {
    encode_text(issuer.issuer_key_id@) + encode_text(issuer.public_key@) + seq![
        status_code(issuer.status),
    ] + le64(issuer.not_before) + le64(issuer.not_after) + le32(
        issuer.allowed_key_usages@.len() as u32,
    ) + encode_texts(issuer.allowed_key_usages@)
}

/// The encodings of a list of Issuer records, one after another.
pub open spec fn encode_issuers(issuers: Seq<IssuerRecord>) -> Seq<u8>
    decreases issuers.len(),
{
    if issuers.len() == 0 {
        seq![]
    } else {
        encode_issuers(issuers.drop_last()) + encode_issuer(issuers.last())
    }
}

/// Every length that the encoding of an Issuer record writes fits a `u32`.
pub open spec fn issuer_fits(issuer: IssuerRecord) -> bool {
    &&& text_fits(issuer.issuer_key_id@)
    &&& text_fits(issuer.public_key@)
    &&& issuer.allowed_key_usages@.len() <= u32::MAX
    &&& forall|j: int|
        0 <= j < issuer.allowed_key_usages@.len() ==> text_fits(
            #[trigger] issuer.allowed_key_usages@[j]@,
        )
}

/// Every length that the encoding of a trust snapshot writes fits a `u32`.
pub open spec fn trust_fits(content: UnsignedTrustSnapshot) -> bool {
    &&& text_fits(content.root_key_id@)
    &&& content.issuers@.len() <= u32::MAX
    &&& forall|i: int| 0 <= i < content.issuers@.len() ==> issuer_fits(#[trigger] content.issuers@[i])
    &&& text_fits(content.signature_algorithm@)
}

/// The canonical bytes of a trust snapshot's content.
pub open spec fn trust_encoding(content: UnsignedTrustSnapshot) -> Seq<u8> {
    trust_domain() + le32(content.format_version) + le64(content.snapshot_version) + le64(
        content.generated_at,
    ) + le64(content.expires_at) + encode_text(content.root_key_id@) + le32(
        content.issuers@.len() as u32,
    ) + encode_issuers(content.issuers@) + encode_text(content.signature_algorithm@)
}

/// The message a Root signs for a trust snapshot, or why there is none.
pub open spec fn trust_message(content: UnsignedTrustSnapshot) -> Result<Seq<u8>, TrustError> {
    match trust_error(content) {
        Err(e) => Err(e),
        Ok(_) => if !trust_fits(content) {
            Err(TrustError::EncodingOverflow)
        } else if trust_encoding(content).len() > MAX_SNAPSHOT_BYTES {
            Err(TrustError::SnapshotTooLarge)
        } else {
            Ok(trust_encoding(content))
        },
    }
}

/// The encoding of one revocation.
pub open spec fn encode_revocation(revocation: SnapshotRevocation) -> Seq<u8> {
    encode_text(revocation.certificate_serial@) + le64(revocation.revoked_at) + encode_text(
        reason_text(revocation.reason_code),
    )
}

/// The encodings of a list of revocations, one after another.
pub open spec fn encode_revocations(revocations: Seq<SnapshotRevocation>) -> Seq<u8>
    decreases revocations.len(),
{
    if revocations.len() == 0 {
        seq![]
    } else {
        encode_revocations(revocations.drop_last()) + encode_revocation(revocations.last())
    }
}

/// Every length that the encoding of a revocation snapshot writes fits a `u32`.
pub open spec fn revocation_fits(content: UnsignedRevocationSnapshot) -> bool {
    &&& text_fits(content.issuer_key_id@)
    &&& content.revocations@.len() <= u32::MAX
    &&& forall|i: int|
        0 <= i < content.revocations@.len() ==> text_fits(
            (#[trigger] content.revocations@[i]).certificate_serial@,
        ) && text_fits(reason_text(content.revocations@[i].reason_code))
    &&& text_fits(content.signature_algorithm@)
}

/// The canonical bytes of a revocation snapshot's content.
pub open spec fn revocation_encoding(content: UnsignedRevocationSnapshot) -> Seq<u8> {
    revocation_domain() + le32(content.format_version) + le64(content.snapshot_version) + le64(
        content.generated_at,
    ) + le64(content.expires_at) + encode_text(content.issuer_key_id@) + le32(
        content.revocations@.len() as u32,
    ) + encode_revocations(content.revocations@) + encode_text(content.signature_algorithm@)
}

/// The message an Issuer signs for a revocation snapshot, or why there is none.
pub open spec fn revocation_message(content: UnsignedRevocationSnapshot) -> Result<
    Seq<u8>,
    TrustError,
> {
    match revocation_error(content) {
        Err(e) => Err(e),
        Ok(_) => if !revocation_fits(content) {
            Err(TrustError::EncodingOverflow)
        } else if revocation_encoding(content).len() > MAX_SNAPSHOT_BYTES {
            Err(TrustError::SnapshotTooLarge)
        } else {
            Ok(revocation_encoding(content))
        },
    }
}

pub fn to_u32(value: usize) -> (result: Result<u32, TrustError>)
    ensures
        match result {
            Ok(v) => value <= u32::MAX && v == value,
            Err(e) => value > u32::MAX && e == TrustError::EncodingOverflow,
        },
{
    if value > 4294967295usize {
        Err(TrustError::EncodingOverflow)
    } else {
        Ok(value as u32)
    }
}

pub fn put_string(bytes: &mut Vec<u8>, value: &str) -> (result: Result<(), TrustError>)
    ensures
        match result {
            Ok(_) => text_fits(value@) && final(bytes)@ == old(bytes)@ + encode_text(value@),
            Err(e) => e == TrustError::EncodingOverflow && !text_fits(value@) && final(bytes)@
                == old(bytes)@,
        },
{
    let data = value.as_bytes();
    let length = match to_u32(data.len()) {
        Ok(length) => length,
        Err(e) => return Err(e),
    };
    put_u32(bytes, length);
    put_bytes(bytes, data);
    Ok(())
}

fn put_texts(bytes: &mut Vec<u8>, texts: &Vec<String>) -> (result: Result<(), TrustError>)
    ensures
        match result {
            Ok(_) => (forall|j: int| 0 <= j < texts@.len() ==> text_fits(#[trigger] texts@[j]@))
                && final(bytes)@ == old(bytes)@ + encode_texts(texts@),
            Err(e) => e == TrustError::EncodingOverflow && !(forall|j: int|
                0 <= j < texts@.len() ==> text_fits(#[trigger] texts@[j]@)),
        },
{
    let ghost start = bytes@;
    let mut i: usize = 0;
    while i < texts.len()
        invariant
            i <= texts@.len(),
            forall|j: int| 0 <= j < i ==> text_fits(#[trigger] texts@[j]@),
            bytes@ == start + encode_texts(texts@.take(i as int)),
        decreases texts@.len() - i,
    {
        match put_string(bytes, texts[i].as_str()) {
            Ok(_) => {},
            Err(e) => {
                assert(!text_fits(texts@[i as int]@));
                return Err(e);
            },
        }
        assert(texts@.take(i + 1).drop_last() =~= texts@.take(i as int));
        assert(bytes@ =~= start + encode_texts(texts@.take(i + 1)));
        i = i + 1;
    }
    assert(texts@.take(i as int) =~= texts@);
    Ok(())
}

fn put_issuer(bytes: &mut Vec<u8>, issuer: &IssuerRecord) -> (result: Result<(), TrustError>)
    ensures
        match result {
            Ok(_) => issuer_fits(*issuer) && final(bytes)@ == old(bytes)@ + encode_issuer(*issuer),
            Err(e) => e == TrustError::EncodingOverflow && !issuer_fits(*issuer),
        },
{
    let ghost start = bytes@;
    match put_string(bytes, issuer.issuer_key_id.as_str()) {
        Ok(_) => {},
        Err(e) => return Err(e),
    }
    match put_string(bytes, issuer.public_key.as_str()) {
        Ok(_) => {},
        Err(e) => return Err(e),
    }
    let code: u8 = match issuer.status {
        IssuerStatus::Future => 1,
        IssuerStatus::Active => 2,
        IssuerStatus::Retired => 3,
        IssuerStatus::Revoked => 4,
    };
    bytes.push(code);
    put_u64(bytes, issuer.not_before);
    put_u64(bytes, issuer.not_after);
    let count = match to_u32(issuer.allowed_key_usages.len()) {
        Ok(count) => count,
        Err(e) => return Err(e),
    };
    put_u32(bytes, count);
    match put_texts(bytes, &issuer.allowed_key_usages) {
        Ok(_) => {},
        Err(e) => return Err(e),
    }
    assert(bytes@ =~= start + encode_issuer(*issuer));
    Ok(())
}

pub fn trust_signing_message(content: &UnsignedTrustSnapshot) -> (message: Result<Vec<u8>, TrustError>)
    ensures
        match message {
            Ok(bytes) => trust_message(*content) == Ok::<Seq<u8>, TrustError>(bytes@),
            Err(e) => trust_message(*content) == Err::<Seq<u8>, TrustError>(e),
        },
{
    match validate_trust(content) {
        Ok(_) => {},
        Err(e) => return Err(e),
    }
    let domain: [u8; 33] = [
        109, 111, 99, 104, 105, 111, 115, 45, 105, 115, 115, 117, 101, 114, 45, 116, 114, 117,
        115, 116, 45, 115, 110, 97, 112, 115, 104, 111, 116, 45, 118, 49, 0,
    ];
    let mut bytes: Vec<u8> = Vec::new();
    put_bytes(&mut bytes, domain.as_slice());
    put_u32(&mut bytes, content.format_version);
    put_u64(&mut bytes, content.snapshot_version);
    put_u64(&mut bytes, content.generated_at);
    put_u64(&mut bytes, content.expires_at);
    match put_string(&mut bytes, content.root_key_id.as_str()) {
        Ok(_) => {},
        Err(e) => return Err(e),
    }
    let count = match to_u32(content.issuers.len()) {
        Ok(count) => count,
        Err(e) => return Err(e),
    };
    put_u32(&mut bytes, count);
    let ghost header = bytes@;
    let issuers = &content.issuers;
    let mut i: usize = 0;
    while i < issuers.len()
        invariant
            issuers@ == content.issuers@,
            i <= issuers@.len(),
            trust_error(*content) is Ok,
            text_fits(content.root_key_id@),
            content.issuers@.len() <= u32::MAX,
            forall|k: int| 0 <= k < i ==> issuer_fits(#[trigger] issuers@[k]),
            bytes@ == header + encode_issuers(issuers@.take(i as int)),
        decreases issuers@.len() - i,
    {
        match put_issuer(&mut bytes, &issuers[i]) {
            Ok(_) => {},
            Err(e) => return Err(e),
        }
        assert(issuers@.take(i + 1).drop_last() =~= issuers@.take(i as int));
        assert(bytes@ =~= header + encode_issuers(issuers@.take(i + 1)));
        i = i + 1;
    }
    assert(issuers@.take(i as int) =~= issuers@);
    match put_string(&mut bytes, content.signature_algorithm.as_str()) {
        Ok(_) => {},
        Err(e) => return Err(e),
    }
    assert(bytes@ =~= trust_encoding(*content));
    if bytes.len() > MAX_SNAPSHOT_BYTES {
        Err(TrustError::SnapshotTooLarge)
    } else {
        Ok(bytes)
    }
}

fn put_revocation(bytes: &mut Vec<u8>, revocation: &SnapshotRevocation) -> (result: Result<
    (),
    TrustError,
>)
    ensures
        match result {
            Ok(_) => text_fits(revocation.certificate_serial@) && text_fits(
                reason_text(revocation.reason_code),
            ) && final(bytes)@ == old(bytes)@ + encode_revocation(*revocation),
            Err(e) => e == TrustError::EncodingOverflow && !(text_fits(
                revocation.certificate_serial@,
            ) && text_fits(reason_text(revocation.reason_code))),
        },
{
    let ghost start = bytes@;
    match put_string(bytes, revocation.certificate_serial.as_str()) {
        Ok(_) => {},
        Err(e) => return Err(e),
    }
    put_u64(bytes, revocation.revoked_at);
    match put_string(bytes, revocation.reason_code.as_str()) {
        Ok(_) => {},
        Err(e) => return Err(e),
    }
    assert(bytes@ =~= start + encode_revocation(*revocation));
    Ok(())
}

pub fn revocation_signing_message(content: &UnsignedRevocationSnapshot) -> (message: Result<
    Vec<u8>,
    TrustError,
>)
    ensures
        match message {
            Ok(bytes) => revocation_message(*content) == Ok::<Seq<u8>, TrustError>(bytes@),
            Err(e) => revocation_message(*content) == Err::<Seq<u8>, TrustError>(e),
        },
{
    match validate_revocations(content) {
        Ok(_) => {},
        Err(e) => return Err(e),
    }
    let domain: [u8; 31] = [
        109, 111, 99, 104, 105, 111, 115, 45, 114, 101, 118, 111, 99, 97, 116, 105, 111, 110,
        45, 115, 110, 97, 112, 115, 104, 111, 116, 45, 118, 49, 0,
    ];
    let mut bytes: Vec<u8> = Vec::new();
    put_bytes(&mut bytes, domain.as_slice());
    put_u32(&mut bytes, content.format_version);
    put_u64(&mut bytes, content.snapshot_version);
    put_u64(&mut bytes, content.generated_at);
    put_u64(&mut bytes, content.expires_at);
    match put_string(&mut bytes, content.issuer_key_id.as_str()) {
        Ok(_) => {},
        Err(e) => return Err(e),
    }
    let count = match to_u32(content.revocations.len()) {
        Ok(count) => count,
        Err(e) => return Err(e),
    };
    put_u32(&mut bytes, count);
    let ghost header = bytes@;
    let revocations = &content.revocations;
    let mut i: usize = 0;
    while i < revocations.len()
        invariant
            revocations@ == content.revocations@,
            i <= revocations@.len(),
            revocation_error(*content) is Ok,
            text_fits(content.issuer_key_id@),
            content.revocations@.len() <= u32::MAX,
            forall|k: int|
                0 <= k < i ==> text_fits((#[trigger] revocations@[k]).certificate_serial@)
                    && text_fits(reason_text(revocations@[k].reason_code)),
            bytes@ == header + encode_revocations(revocations@.take(i as int)),
        decreases revocations@.len() - i,
    {
        match put_revocation(&mut bytes, &revocations[i]) {
            Ok(_) => {},
            Err(e) => return Err(e),
        }
        assert(revocations@.take(i + 1).drop_last() =~= revocations@.take(i as int));
        assert(bytes@ =~= header + encode_revocations(revocations@.take(i + 1)));
        i = i + 1;
    }
    assert(revocations@.take(i as int) =~= revocations@);
    match put_string(&mut bytes, content.signature_algorithm.as_str()) {
        Ok(_) => {},
        Err(e) => return Err(e),
    }
    assert(bytes@ =~= revocation_encoding(*content));
    if bytes.len() > MAX_SNAPSHOT_BYTES {
        Err(TrustError::SnapshotTooLarge)
    } else {
        Ok(bytes)
    }
}

// ---------------------------------------------------------------------------
// Signing and verification
// ---------------------------------------------------------------------------

/// How a Base64 signature text on a message is checked against a public key.
pub open spec fn signature_check(public_key: Seq<u8>, encoded: Seq<char>, message: Seq<u8>) -> Result<
    (),
    TrustError,
> {
    if !ed25519_point_decodes(public_key) {
        Err(TrustError::InvalidPublicKey)
    } else {
        match base64_standard_bytes(str_bytes(encoded)) {
            None => Err(TrustError::InvalidSignature),
            Some(signature) => if signature.len() == 64 && ed25519_strictly_accepts(
                public_key,
                message,
                signature,
            ) {
                Ok(())
            } else {
                Err(TrustError::InvalidSignature)
            },
        }
    }
}

/// A snapshot generated at `generated_at` and expiring at `expires_at` may be
/// used at `now`: generated no more than five minutes ahead, not yet expired.
pub open spec fn within_window(generated_at: u64, expires_at: u64, now: u64) -> bool {
    generated_at <= now.saturating_add(300) && now < expires_at
}

/// The verification of a trust snapshot against a Root public key at a time.
pub open spec fn trust_verification(
    content: UnsignedTrustSnapshot,
    signature: Seq<char>,
    root_public_key: Seq<u8>,
    now: u64,
) -> Result<(), TrustError> {
    match trust_error(content) {
        Err(e) => Err(e),
        Ok(_) => if content.root_key_id@ != key_id_of(root_public_key) {
            Err(TrustError::KeyIdMismatch)
        } else if !within_window(content.generated_at, content.expires_at, now) {
            Err(TrustError::InvalidValidity)
        } else {
            match trust_message(content) {
                Err(e) => Err(e),
                Ok(message) => signature_check(root_public_key, signature, message),
            }
        },
    }
}

/// The Root signature that issuing a trust snapshot produces, or why there is none.
pub open spec fn trust_signature(content: UnsignedTrustSnapshot, root_seed: Seq<u8>) -> Result<
    Seq<u8>,
    TrustError,
> {
    match trust_error(content) {
        Err(e) => Err(e),
        Ok(_) => if content.root_key_id@ != key_id_of(ed25519_public_key_of(root_seed)) {
            Err(TrustError::KeyIdMismatch)
        } else {
            match trust_message(content) {
                Err(e) => Err(e),
                Ok(message) => Ok(ed25519_signature_of(root_seed, message)),
            }
        },
    }
}

/// `snapshot` is what issuing `content` with the Root seed gives.
pub open spec fn trust_issued(
    snapshot: TrustSnapshot,
    content: UnsignedTrustSnapshot,
    root_seed: Seq<u8>,
) -> bool {
    &&& trust_signature(content, root_seed) matches Ok(signature)
    &&& snapshot.content == content
    &&& snapshot.root_signature@ == base64_standard_text(signature)
    &&& base64_standard_bytes(str_bytes(snapshot.root_signature@)) == Some(signature)
    &&& signature.len() == 64
    &&& ed25519_point_decodes(ed25519_public_key_of(root_seed))
}

/// The verification of a revocation snapshot against an Issuer public key at a time.
pub open spec fn revocation_verification(
    content: UnsignedRevocationSnapshot,
    signature: Seq<char>,
    issuer_public_key: Seq<u8>,
    now: u64,
) -> Result<(), TrustError> {
    match revocation_error(content) {
        Err(e) => Err(e),
        Ok(_) => if content.issuer_key_id@ != key_id_of(issuer_public_key) {
            Err(TrustError::KeyIdMismatch)
        } else if !within_window(content.generated_at, content.expires_at, now) {
            Err(TrustError::InvalidValidity)
        } else {
            match revocation_message(content) {
                Err(e) => Err(e),
                Ok(message) => signature_check(issuer_public_key, signature, message),
            }
        },
    }
}

/// The Issuer signature that issuing a revocation snapshot produces, or why there is none.
pub open spec fn revocation_signature(
    content: UnsignedRevocationSnapshot,
    issuer_seed: Seq<u8>,
) -> Result<Seq<u8>, TrustError> {
    match revocation_error(content) {
        Err(e) => Err(e),
        Ok(_) => if content.issuer_key_id@ != key_id_of(ed25519_public_key_of(issuer_seed)) {
            Err(TrustError::KeyIdMismatch)
        } else {
            match revocation_message(content) {
                Err(e) => Err(e),
                Ok(message) => Ok(ed25519_signature_of(issuer_seed, message)),
            }
        },
    }
}

/// `snapshot` is what issuing `content` with the Issuer seed gives.
pub open spec fn revocation_issued(
    snapshot: RevocationSnapshot,
    content: UnsignedRevocationSnapshot,
    issuer_seed: Seq<u8>,
) -> bool {
    &&& revocation_signature(content, issuer_seed) matches Ok(signature)
    &&& snapshot.content == content
    &&& snapshot.signature@ == base64_standard_text(signature)
    &&& base64_standard_bytes(str_bytes(snapshot.signature@)) == Some(signature)
    &&& signature.len() == 64
    &&& ed25519_point_decodes(ed25519_public_key_of(issuer_seed))
}

fn verify_signature(public_key: &[u8; 32], encoded: &str, message: &[u8]) -> (result: Result<
    (),
    TrustError,
>)
    ensures
        result == signature_check(public_key@, encoded@, message@),
{
    if !ed25519_key_decodes(public_key) {
        return Err(TrustError::InvalidPublicKey);
    }
    let signature = match base64_standard_decode(encoded.as_bytes()) {
        Some(bytes) => bytes,
        None => return Err(TrustError::InvalidSignature),
    };
    if signature.len() != 64 {
        return Err(TrustError::InvalidSignature);
    }
    let signature = array64(signature.as_slice());
    if ed25519_verify_strict(public_key, message, &signature) {
        Ok(())
    } else {
        Err(TrustError::InvalidSignature)
    }
}

fn window_open(generated_at: u64, expires_at: u64, now: u64) -> (open: bool)
    ensures
        open == within_window(generated_at, expires_at, now),
{
    !(generated_at > now.saturating_add(300) || expires_at <= now)
}

impl TrustSnapshot {
    /// Signs a valid trust snapshot with the Root key whose 32-byte seed is given.
    pub fn issue(content: UnsignedTrustSnapshot, root_seed: &[u8; 32]) -> (snapshot: Result<
        TrustSnapshot,
        TrustError,
    >)
        ensures
            match snapshot {
                Ok(s) => trust_issued(s, content, root_seed@),
                Err(e) => trust_signature(content, root_seed@) == Err::<Seq<u8>, TrustError>(e),
            },
    {
        match validate_trust(&content) {
            Ok(_) => {},
            Err(e) => return Err(e),
        }
        let public_key = ed25519_public_key(root_seed);
        if !(content.root_key_id == key_id(&public_key)) {
            return Err(TrustError::KeyIdMismatch);
        }
        let message = match trust_signing_message(&content) {
            Ok(message) => message,
            Err(e) => return Err(e),
        };
        let signature = ed25519_sign(root_seed, message.as_slice());
        let root_signature = base64_standard_encode(signature.as_slice());
        Ok(TrustSnapshot { content, root_signature })
    }

    /// Checks a trust snapshot: its content, its Root key ID, its validity window
    /// at `now`, and the Root signature over its canonical bytes.
    pub fn verify(&self, root_public_key: &[u8; 32], now: u64) -> (result: Result<(), TrustError>)
        ensures
            result == trust_verification(self.content, self.root_signature@, root_public_key@, now),
    {
        match validate_trust(&self.content) {
            Ok(_) => {},
            Err(e) => return Err(e),
        }
        if !(self.content.root_key_id == key_id(root_public_key)) {
            return Err(TrustError::KeyIdMismatch);
        }
        if !window_open(self.content.generated_at, self.content.expires_at, now) {
            return Err(TrustError::InvalidValidity);
        }
        let message = match trust_signing_message(&self.content) {
            Ok(message) => message,
            Err(e) => return Err(e),
        };
        verify_signature(root_public_key, self.root_signature.as_str(), message.as_slice())
    }

    /// The canonical bytes that the Root signs.
    pub fn canonical_bytes(&self) -> (bytes: Result<Vec<u8>, TrustError>)
        ensures
            match bytes {
                Ok(b) => trust_message(self.content) == Ok::<Seq<u8>, TrustError>(b@),
                Err(e) => trust_message(self.content) == Err::<Seq<u8>, TrustError>(e),
            },
    {
        trust_signing_message(&self.content)
    }
}

impl RevocationSnapshot {
    /// Signs a valid revocation snapshot with the Issuer key whose 32-byte seed is given.
    pub fn issue(content: UnsignedRevocationSnapshot, issuer_seed: &[u8; 32]) -> (snapshot: Result<
        RevocationSnapshot,
        TrustError,
    >)
        ensures
            match snapshot {
                Ok(s) => revocation_issued(s, content, issuer_seed@),
                Err(e) => revocation_signature(content, issuer_seed@) == Err::<Seq<u8>, TrustError>(
                    e,
                ),
            },
    {
        match validate_revocations(&content) {
            Ok(_) => {},
            Err(e) => return Err(e),
        }
        let public_key = ed25519_public_key(issuer_seed);
        if !(content.issuer_key_id == key_id(&public_key)) {
            return Err(TrustError::KeyIdMismatch);
        }
        let message = match revocation_signing_message(&content) {
            Ok(message) => message,
            Err(e) => return Err(e),
        };
        let signature = ed25519_sign(issuer_seed, message.as_slice());
        let encoded = base64_standard_encode(signature.as_slice());
        Ok(RevocationSnapshot { content, signature: encoded })
    }

    /// Checks a revocation snapshot: its content, its Issuer key ID, its validity
    /// window at `now`, and the Issuer signature over its canonical bytes.
    pub fn verify(&self, issuer_public_key: &[u8; 32], now: u64) -> (result: Result<(), TrustError>)
        ensures
            result == revocation_verification(
                self.content,
                self.signature@,
                issuer_public_key@,
                now,
            ),
    {
        match validate_revocations(&self.content) {
            Ok(_) => {},
            Err(e) => return Err(e),
        }
        if !(self.content.issuer_key_id == key_id(issuer_public_key)) {
            return Err(TrustError::KeyIdMismatch);
        }
        if !window_open(self.content.generated_at, self.content.expires_at, now) {
            return Err(TrustError::InvalidValidity);
        }
        let message = match revocation_signing_message(&self.content) {
            Ok(message) => message,
            Err(e) => return Err(e),
        };
        verify_signature(issuer_public_key, self.signature.as_str(), message.as_slice())
    }

    /// The canonical bytes that the Issuer signs.
    pub fn canonical_bytes(&self) -> (bytes: Result<Vec<u8>, TrustError>)
        ensures
            match bytes {
                Ok(b) => revocation_message(self.content) == Ok::<Seq<u8>, TrustError>(b@),
                Err(e) => revocation_message(self.content) == Err::<Seq<u8>, TrustError>(e),
            },
    {
        revocation_signing_message(&self.content)
    }
}

// ---------------------------------------------------------------------------
// Laws
// ---------------------------------------------------------------------------

/// A trust snapshot that a Root key issued verifies against that Root's public key
/// at any time inside its validity window, provided Ed25519 strict verification
/// accepts the Root's own signature on the canonical bytes.
pub proof fn lemma_trust_issue_then_verify(
    snapshot: TrustSnapshot,
    content: UnsignedTrustSnapshot,
    root_seed: Seq<u8>,
    now: u64,
)
    requires
        trust_issued(snapshot, content, root_seed),
        within_window(content.generated_at, content.expires_at, now),
        trust_message(content) matches Ok(message) ==> ed25519_strictly_accepts(
            ed25519_public_key_of(root_seed),
            message,
            ed25519_signature_of(root_seed, message),
        ),
    ensures
        trust_verification(
            snapshot.content,
            snapshot.root_signature@,
            ed25519_public_key_of(root_seed),
            now,
        ) == Ok::<(), TrustError>(()),
{
}

/// Issuing the same trust snapshot content with the same Root seed twice gives
/// the same snapshot: the same content and the same signature text.
pub proof fn lemma_trust_issue_deterministic(
    first: TrustSnapshot,
    second: TrustSnapshot,
    content: UnsignedTrustSnapshot,
    root_seed: Seq<u8>,
)
    requires
        trust_issued(first, content, root_seed),
        trust_issued(second, content, root_seed),
    ensures
        first.content == second.content,
        first.root_signature@ == second.root_signature@,
{
}

/// A revocation snapshot that an Issuer key issued verifies against that Issuer's
/// public key at any time inside its validity window, provided Ed25519 strict
/// verification accepts the Issuer's own signature on the canonical bytes.
pub proof fn lemma_revocation_issue_then_verify(
    snapshot: RevocationSnapshot,
    content: UnsignedRevocationSnapshot,
    issuer_seed: Seq<u8>,
    now: u64,
)
    requires
        revocation_issued(snapshot, content, issuer_seed),
        within_window(content.generated_at, content.expires_at, now),
        revocation_message(content) matches Ok(message) ==> ed25519_strictly_accepts(
            ed25519_public_key_of(issuer_seed),
            message,
            ed25519_signature_of(issuer_seed, message),
        ),
    ensures
        revocation_verification(
            snapshot.content,
            snapshot.signature@,
            ed25519_public_key_of(issuer_seed),
            now,
        ) == Ok::<(), TrustError>(()),
{
}

/// The canonical bytes of a trust snapshot begin with its domain separator.
pub proof fn lemma_trust_message_begins_with_domain(content: UnsignedTrustSnapshot)
    ensures
        trust_message(content) matches Ok(message) ==> message.len() >= 33 && message.take(33)
            == trust_domain(),
{
    let e = trust_encoding(content);
    assert(e.take(33) =~= trust_domain());
}

/// The canonical bytes of a revocation snapshot begin with its domain separator.
pub proof fn lemma_revocation_message_begins_with_domain(content: UnsignedRevocationSnapshot)
    ensures
        revocation_message(content) matches Ok(message) ==> message.len() >= 31 && message.take(
            31,
        ) == revocation_domain(),
{
    let e = revocation_encoding(content);
    assert(e.take(31) =~= revocation_domain());
}

// ---------------------------------------------------------------------------
// Laws of validation and verification
// ---------------------------------------------------------------------------

/// What the revocation checks from position `k` on say of the serial order.
proof fn lemma_revocation_order_from(rs: Seq<SnapshotRevocation>, k: int)
    requires
        0 <= k,
    ensures
        revocations_error_from(rs, k) == Err::<(), TrustError>(TrustError::UnsortedRevocations)
            ==> exists|i: int|
            k <= i < rs.len() && 0 < i && bytes_lt(
                str_bytes(#[trigger] rs[i].certificate_serial@),
                str_bytes(rs[i - 1].certificate_serial@),
            ),
        revocations_error_from(rs, k) == Err::<(), TrustError>(TrustError::DuplicateRevocation)
            ==> exists|i: int|
            k <= i < rs.len() && 0 < i && str_bytes(#[trigger] rs[i].certificate_serial@)
                == str_bytes(rs[i - 1].certificate_serial@),
        revocations_error_from(rs, k) is Ok ==> forall|i: int|
            k <= i < rs.len() && 0 < i ==> bytes_lt(
                str_bytes(rs[i - 1].certificate_serial@),
                str_bytes(#[trigger] rs[i].certificate_serial@),
            ),
    decreases rs.len() - k,
{
    if k < rs.len() {
        lemma_revocation_order_from(rs, k + 1);
        if k > 0 {
            lemma_bytes_lt_total(
                str_bytes(rs[k - 1].certificate_serial@),
                str_bytes(rs[k].certificate_serial@),
            );
        }
    }
}

/// Revocation serials must be strictly ascending in byte order: a snapshot
/// that validates has them so, a snapshot is refused as unsorted only when some
/// serial sorts before the one before it, and as a duplicate only when some
/// serial repeats the one before it. So ascending serials are never refused
/// for their order.
pub proof fn lemma_revocation_serial_order(
    content: &UnsignedRevocationSnapshot,
    result: Result<(), TrustError>,
)
    requires
        call_ensures(validate_revocations, (content,), result),
    ensures
        result is Ok ==> forall|i: int|
            0 < i < content.revocations@.len() ==> bytes_lt(
                str_bytes(content.revocations@[i - 1].certificate_serial@),
                str_bytes(#[trigger] content.revocations@[i].certificate_serial@),
            ),
        result == Err::<(), TrustError>(TrustError::UnsortedRevocations) ==> exists|i: int|
            0 < i < content.revocations@.len() && bytes_lt(
                str_bytes(#[trigger] content.revocations@[i].certificate_serial@),
                str_bytes(content.revocations@[i - 1].certificate_serial@),
            ),
        result == Err::<(), TrustError>(TrustError::DuplicateRevocation) ==> exists|i: int|
            0 < i < content.revocations@.len() && str_bytes(
                #[trigger] content.revocations@[i].certificate_serial@,
            ) == str_bytes(content.revocations@[i - 1].certificate_serial@),
        (forall|i: int|
            0 < i < content.revocations@.len() ==> bytes_lt(
                str_bytes(content.revocations@[i - 1].certificate_serial@),
                str_bytes(#[trigger] content.revocations@[i].certificate_serial@),
            )) ==> result != Err::<(), TrustError>(TrustError::UnsortedRevocations) && result
            != Err::<(), TrustError>(TrustError::DuplicateRevocation),
{
    let rs = content.revocations@;
    lemma_revocation_order_from(rs, 0);
    if forall|i: int|
        0 < i < rs.len() ==> bytes_lt(
            str_bytes(rs[i - 1].certificate_serial@),
            str_bytes(#[trigger] rs[i].certificate_serial@),
        ) {
        if result == Err::<(), TrustError>(TrustError::UnsortedRevocations) {
            let i = choose|i: int|
                0 <= i < rs.len() && 0 < i && bytes_lt(
                    str_bytes(#[trigger] rs[i].certificate_serial@),
                    str_bytes(rs[i - 1].certificate_serial@),
                );
            lemma_bytes_lt_asymmetric(
                str_bytes(rs[i - 1].certificate_serial@),
                str_bytes(rs[i].certificate_serial@),
            );
        }
        if result == Err::<(), TrustError>(TrustError::DuplicateRevocation) {
            let i = choose|i: int|
                0 <= i < rs.len() && 0 < i && str_bytes(#[trigger] rs[i].certificate_serial@)
                    == str_bytes(rs[i - 1].certificate_serial@);
            lemma_bytes_lt_irreflexive(str_bytes(rs[i].certificate_serial@));
        }
    }
}

/// What the Issuer checks from position `k` on say of each record.
proof fn lemma_issuers_valid_from(is: Seq<IssuerRecord>, k: int)
    requires
        0 <= k,
        issuers_error_from(is, k) is Ok,
    ensures
        forall|i: int| k <= i < is.len() ==> issuer_error(#[trigger] is[i]) is Ok,
        forall|i: int|
            k <= i < is.len() && 0 < i ==> bytes_lt(
                str_bytes(is[i - 1].issuer_key_id@),
                str_bytes(#[trigger] is[i].issuer_key_id@),
            ),
    decreases is.len() - k,
{
    if k < is.len() {
        lemma_issuers_valid_from(is, k + 1);
        if k > 0 {
            lemma_bytes_lt_total(str_bytes(is[k - 1].issuer_key_id@), str_bytes(is[k].issuer_key_id@));
        }
    }
}

proof fn lemma_known_usage_text(usage: Seq<char>)
    requires
        is_known_usage(usage),
    ensures
        usage == "developer-certificate-signing"@ || usage == "revocation-signing"@,
{
    reveal_strlit("developer-certificate-signing");
    reveal_strlit("revocation-signing");
    let a = "developer-certificate-signing"@;
    let b = "revocation-signing"@;
    assert(is_ascii_chars(a));
    assert(is_ascii_chars(b));
    assert(str_bytes(a) =~= certificate_signing_usage());
    assert(str_bytes(b) =~= revocation_signing_usage());
    encode_utf8_decode_utf8(usage);
    encode_utf8_decode_utf8(a);
    encode_utf8_decode_utf8(b);
}

/// An Issuer trust snapshot that validates lists its Issuers in strictly
/// ascending key ID order, at most 64 of them, and grants each only the key
/// usages `developer-certificate-signing` and `revocation-signing`.
pub proof fn lemma_validated_trust_issuers(content: &UnsignedTrustSnapshot, result: Result<(), TrustError>)
    requires
        call_ensures(validate_trust, (content,), result),
        result is Ok,
    ensures
        content.issuers@.len() <= 64,
        forall|i: int|
            0 < i < content.issuers@.len() ==> bytes_lt(
                str_bytes(content.issuers@[i - 1].issuer_key_id@),
                str_bytes(#[trigger] content.issuers@[i].issuer_key_id@),
            ),
        forall|i: int, j: int|
            0 <= i < content.issuers@.len() && 0 <= j
                < content.issuers@[i].allowed_key_usages@.len() ==> #[trigger] content.issuers@[i].allowed_key_usages@[j]@
                == "developer-certificate-signing"@
                || content.issuers@[i].allowed_key_usages@[j]@ == "revocation-signing"@,
{
    let is = content.issuers@;
    lemma_issuers_valid_from(is, 0);
    assert forall|i: int, j: int|
        0 <= i < is.len() && 0 <= j < is[i].allowed_key_usages@.len() implies #[trigger] is[i].allowed_key_usages@[j]@
        == "developer-certificate-signing"@ || is[i].allowed_key_usages@[j]@
        == "revocation-signing"@ by {
        assert(issuer_error(is[i]) is Ok);
        assert(usages_valid(is[i].allowed_key_usages@));
        lemma_known_usage_text(is[i].allowed_key_usages@[j]@);
    }
}

/// A trust snapshot verifies only at a time before it expires and no more than
/// five minutes before it was generated, and only for the Root key it names.
pub proof fn lemma_trust_verified_within_window(
    snapshot: &TrustSnapshot,
    root_public_key: &[u8; 32],
    now: u64,
    result: Result<(), TrustError>,
)
    requires
        call_ensures(TrustSnapshot::verify, (snapshot, root_public_key, now), result),
        result is Ok,
    ensures
        now < snapshot.content.expires_at,
        snapshot.content.generated_at <= now + 300,
        snapshot.content.root_key_id@ == key_id_of(root_public_key@),
{
}

/// A revocation snapshot verifies only at a time before it expires and no more
/// than five minutes before it was generated, and only for the Issuer key it
/// names.
pub proof fn lemma_revocation_verified_within_window(
    snapshot: &RevocationSnapshot,
    issuer_public_key: &[u8; 32],
    now: u64,
    result: Result<(), TrustError>,
)
    requires
        call_ensures(RevocationSnapshot::verify, (snapshot, issuer_public_key, now), result),
        result is Ok,
    ensures
        now < snapshot.content.expires_at,
        snapshot.content.generated_at <= now + 300,
        snapshot.content.issuer_key_id@ == key_id_of(issuer_public_key@),
{
}

/// A text whose UTF-8 bytes are those of another text is that text.
proof fn lemma_same_bytes_same_text(text: Seq<char>, other: Seq<char>)
    requires
        str_bytes(text) == str_bytes(other),
    ensures
        text == other,
{
    encode_utf8_decode_utf8(text);
    encode_utf8_decode_utf8(other);
}

proof fn lemma_algorithm_text(algorithm: Seq<char>)
    requires
        str_bytes(algorithm) == algorithm_bytes(),
    ensures
        algorithm == "ed25519"@,
{
    reveal_strlit("ed25519");
    assert(is_ascii_chars("ed25519"@));
    assert(str_bytes("ed25519"@) =~= algorithm_bytes());
    lemma_same_bytes_same_text(algorithm, "ed25519"@);
}

proof fn lemma_no_active(is: Seq<IssuerRecord>)
    requires
        active_count(is) == 0,
    ensures
        forall|i: int| 0 <= i < is.len() ==> (#[trigger] is[i]).status != IssuerStatus::Active,
    decreases is.len(),
{
    if is.len() > 0 {
        lemma_no_active(is.drop_last());
        assert forall|i: int| 0 <= i < is.len() implies (#[trigger] is[i]).status
            != IssuerStatus::Active by {
            if i < is.len() - 1 {
                assert(is.drop_last()[i] == is[i]);
            }
        }
    }
}

proof fn lemma_single_active(is: Seq<IssuerRecord>)
    requires
        active_count(is) <= 1,
    ensures
        forall|i: int, j: int|
            0 <= i < j < is.len() ==> !((#[trigger] is[i]).status == IssuerStatus::Active && (
            #[trigger] is[j]).status == IssuerStatus::Active),
    decreases is.len(),
{
    if is.len() > 0 {
        let d = is.drop_last();
        lemma_single_active(d);
        if is.last().status == IssuerStatus::Active {
            lemma_no_active(d);
        }
        assert forall|i: int, j: int| 0 <= i < j < is.len() implies !((#[trigger] is[i]).status
            == IssuerStatus::Active && (#[trigger] is[j]).status == IssuerStatus::Active) by {
            assert(is[i] == d[i]);
            if j < is.len() - 1 {
                assert(is[j] == d[j]);
            }
        }
    }
}

/// An Issuer trust snapshot that validates is of format 1 and a positive
/// version, uses Ed25519, is valid for a non-empty window of at most 180 days,
/// names its Root by a 64-digit hexadecimal key ID, and has at most one active
/// Issuer; each Issuer has a non-empty window, one to four strictly ascending
/// key usages, and a Base64 public key of a 32-byte Ed25519 point whose key ID
/// is the one it is listed under.
pub proof fn lemma_validated_trust_content(content: &UnsignedTrustSnapshot, result: Result<(), TrustError>)
    requires
        call_ensures(validate_trust, (content,), result),
        result is Ok,
    ensures
        content.format_version == 1,
        content.snapshot_version > 0,
        content.generated_at < content.expires_at,
        content.expires_at - content.generated_at <= 15552000,
        content.signature_algorithm@ == "ed25519"@,
        str_bytes(content.root_key_id@).len() == 64,
        forall|b: int|
            0 <= b < 64 ==> is_hex_digit(#[trigger] str_bytes(content.root_key_id@)[b]),
        forall|i: int, j: int|
            0 <= i < j < content.issuers@.len() ==> !((#[trigger] content.issuers@[i]).status
                == IssuerStatus::Active && (#[trigger] content.issuers@[j]).status
                == IssuerStatus::Active),
        forall|i: int|
            0 <= i < content.issuers@.len() ==> {
                let issuer = #[trigger] content.issuers@[i];
                &&& issuer.not_before < issuer.not_after
                &&& 0 < issuer.allowed_key_usages@.len() <= 4
                &&& forall|u: int|
                    0 <= u < issuer.allowed_key_usages@.len() - 1 ==> bytes_lt(
                        str_bytes(#[trigger] issuer.allowed_key_usages@[u]@),
                        str_bytes(issuer.allowed_key_usages@[u + 1]@),
                    )
                &&& base64_standard_bytes(str_bytes(issuer.public_key@)) matches Some(key)
                    && key.len() == 32 && ed25519_point_decodes(key) && issuer.issuer_key_id@
                    == hex_lower(sha256_of(key))
            },
{
    lemma_algorithm_text(content.signature_algorithm@);
    lemma_issuers_valid_from(content.issuers@, 0);
    lemma_single_active(content.issuers@);
    assert forall|i: int| 0 <= i < content.issuers@.len() implies issuer_error(
        #[trigger] content.issuers@[i],
    ) is Ok by {}
}

/// A revocation snapshot that validates is of format 1 and a positive version,
/// uses Ed25519, is valid for a non-empty window of at most seven days, names
/// its Issuer by a 64-digit hexadecimal key ID, lists at most 100000
/// revocations, and each serial is one to 32 ASCII decimal digits.
pub proof fn lemma_validated_revocation_content(
    content: &UnsignedRevocationSnapshot,
    result: Result<(), TrustError>,
)
    requires
        call_ensures(validate_revocations, (content,), result),
        result is Ok,
    ensures
        content.format_version == 1,
        content.snapshot_version > 0,
        content.generated_at < content.expires_at,
        content.expires_at - content.generated_at <= 604800,
        content.signature_algorithm@ == "ed25519"@,
        str_bytes(content.issuer_key_id@).len() == 64,
        forall|b: int|
            0 <= b < 64 ==> is_hex_digit(#[trigger] str_bytes(content.issuer_key_id@)[b]),
        content.revocations@.len() <= 100000,
        forall|i: int|
            0 <= i < content.revocations@.len() ==> {
                let serial = str_bytes((#[trigger] content.revocations@[i]).certificate_serial@);
                &&& 0 < serial.len() <= 32
                &&& forall|b: int| 0 <= b < serial.len() ==> 48 <= #[trigger] serial[b] <= 57
            },
{
    lemma_algorithm_text(content.signature_algorithm@);
    lemma_revocations_valid_from(content.revocations@, 0);
}

/// What the revocation checks from position `k` on say of each serial.
proof fn lemma_revocations_valid_from(rs: Seq<SnapshotRevocation>, k: int)
    requires
        0 <= k,
        revocations_error_from(rs, k) is Ok,
    ensures
        forall|i: int| k <= i < rs.len() ==> is_serial((#[trigger] rs[i]).certificate_serial@),
    decreases rs.len() - k,
{
    if k < rs.len() {
        lemma_revocations_valid_from(rs, k + 1);
    }
}

/// A trust snapshot that verifies also validates, and carries a 64-byte
/// Base64 signature that Ed25519 strict verification accepts, under the Root
/// key, for the snapshot's canonical bytes.
pub proof fn lemma_trust_verified_is_valid_and_signed(
    snapshot: &TrustSnapshot,
    root_public_key: &[u8; 32],
    now: u64,
    result: Result<(), TrustError>,
    validation: Result<(), TrustError>,
)
    requires
        call_ensures(TrustSnapshot::verify, (snapshot, root_public_key, now), result),
        result is Ok,
        call_ensures(validate_trust, (&snapshot.content,), validation),
    ensures
        validation is Ok,
        trust_message(snapshot.content) matches Ok(message) && base64_standard_bytes(
            str_bytes(snapshot.root_signature@),
        ) matches Some(signature) && signature.len() == 64 && ed25519_strictly_accepts(
            root_public_key@,
            message,
            signature,
        ),
{
}

/// A revocation snapshot that verifies also validates, and carries a 64-byte
/// Base64 signature that Ed25519 strict verification accepts, under the
/// Issuer key, for the snapshot's canonical bytes.
pub proof fn lemma_revocation_verified_is_valid_and_signed(
    snapshot: &RevocationSnapshot,
    issuer_public_key: &[u8; 32],
    now: u64,
    result: Result<(), TrustError>,
    validation: Result<(), TrustError>,
)
    requires
        call_ensures(RevocationSnapshot::verify, (snapshot, issuer_public_key, now), result),
        result is Ok,
        call_ensures(validate_revocations, (&snapshot.content,), validation),
    ensures
        validation is Ok,
        revocation_message(snapshot.content) matches Ok(message) && base64_standard_bytes(
            str_bytes(snapshot.signature@),
        ) matches Some(signature) && signature.len() == 64 && ed25519_strictly_accepts(
            issuer_public_key@,
            message,
            signature,
        ),
{
}

} // verus!
