//! Developer Certificate registration, the status check of a stored
//! certificate, and the public list of revoked serial numbers.
//!
//! An MCER value is decoded and its signature checked by the shared
//! certificate crate; what the rules here read of it is `CertificateFacts`.
use vstd::prelude::*;

use crate::bytes::{bytes_equal, hex, hex_lower, str_bytes};
use crate::crypto::{
    base64_standard_bytes, base64_standard_decode, base64_standard_encode, base64_standard_text,
    sha256, sha256_of,
};
use crate::model::{CertificateRow, Developer, Revocation};
use crate::service::ServiceError;
use crate::text::{decimal, decimal_text, message, text_is, trim, trimmed};

verus! {

/// What the rules read of a decoded MCER certificate.
#[derive(Clone, Debug, PartialEq, Eq)]
pub struct CertificateFacts {
    pub developer_id: String,
    pub serial_number: u64,
    pub issuer_key_id: [u8; 32],
    pub subject_key_id: [u8; 32],
    pub not_before: u64,
    pub not_after: u64,
}

/// The values stored for a registered certificate.
#[derive(Clone, Debug, PartialEq, Eq)]
pub struct RegisteredCertificate {
    pub serial: String,
    pub issuer: String,
    pub certificate_json: String,
    pub not_before: i64,
    pub not_after: i64,
}

/// The key ID of an MCER key: the SHA-256 digest of its 32 public key bytes.
pub fn mcer_key_id(public_key: &[u8; 32]) -> (id: [u8; 32])
    ensures
        id@ == sha256_of(public_key@),
{
    sha256(public_key.as_slice())
}

/// The position of the first Root key whose key ID is `issuer_key_id`.
pub open spec fn first_trusted(keys: Seq<[u8; 32]>, issuer_key_id: Seq<u8>) -> Option<int>
    decreases keys.len(),
{
    if keys.len() == 0 {
        None
    } else {
        match first_trusted(keys.drop_last(), issuer_key_id) {
            Some(i) => Some(i),
            None => if sha256_of(keys.last()@) == issuer_key_id {
                Some(keys.len() - 1)
            } else {
                None
            },
        }
    }
}

/// A position that `first_trusted` gives is in range and its key has the key ID.
pub proof fn lemma_first_trusted(keys: Seq<[u8; 32]>, issuer_key_id: Seq<u8>)
    ensures
        match first_trusted(keys, issuer_key_id) {
            Some(i) => 0 <= i < keys.len() && sha256_of(keys[i]@) == issuer_key_id,
            None => forall|j: int|
                0 <= j < keys.len() ==> sha256_of((#[trigger] keys[j])@) != issuer_key_id,
        },
    decreases keys.len(),
{
    if keys.len() > 0 {
        lemma_first_trusted(keys.drop_last(), issuer_key_id);
        assert forall|j: int| 0 <= j < keys.len() - 1 implies keys[j] == keys.drop_last()[j] by {}
    }
}

/// The Root key that issued a certificate: unavailable when no Root key is
/// configured, unknown when none has the certificate's issuer key ID.
pub open spec fn trusted_root_of(root_keys: Option<Vec<[u8; 32]>>, issuer_key_id: Seq<u8>) -> Result<
    [u8; 32],
    ServiceError,
> {
    match root_keys {
        None => Err(ServiceError::RootKeyUnavailable),
        Some(keys) => match first_trusted(keys@, issuer_key_id) {
            None => Err(ServiceError::CertificateIssuerUnknown),
            Some(i) => Ok(keys@[i]),
        },
    }
}

/// Finds the position of the first key with this key ID.
fn trusted_position(keys: &Vec<[u8; 32]>, issuer_key_id: &[u8; 32]) -> (position: Option<usize>)
    ensures
        match first_trusted(keys@, issuer_key_id@) {
            Some(i) => position is Some && position->0 as int == i,
            None => position is None,
        },
{
    let mut i: usize = 0;
    while i < keys.len()
        invariant
            i <= keys@.len(),
            first_trusted(keys@.take(i as int), issuer_key_id@) is None,
        decreases keys@.len() - i,
    {
        assert(keys@.take(i + 1).drop_last() =~= keys@.take(i as int));
        let id = mcer_key_id(&keys[i]);
        if bytes_equal(id.as_slice(), issuer_key_id.as_slice()) {
            assert(keys@.take(i + 1).last() == keys@[i as int]);
            assert(first_trusted(keys@.take(i + 1), issuer_key_id@) == Some(i as int));
            proof {
                lemma_trusted_prefix(keys@, issuer_key_id@, i + 1);
            }
            return Some(i);
        }
        i = i + 1;
    }
    assert(keys@.take(i as int) =~= keys@);
    None
}

/// Finds the Root key that issued a certificate.
pub fn trusted_root(root_keys: &Option<Vec<[u8; 32]>>, issuer_key_id: &[u8; 32]) -> (root: Result<
    [u8; 32],
    ServiceError,
>)
    ensures
        root == trusted_root_of(*root_keys, issuer_key_id@),
{
    match root_keys {
        None => Err(ServiceError::RootKeyUnavailable),
        Some(keys) => match trusted_position(keys, issuer_key_id) {
            None => Err(ServiceError::CertificateIssuerUnknown),
            Some(i) => {
                proof {
                    lemma_first_trusted(keys@, issuer_key_id@);
                }
                Ok(keys[i])
            },
        },
    }
}

proof fn lemma_trusted_prefix(keys: Seq<[u8; 32]>, issuer_key_id: Seq<u8>, n: int)
    requires
        0 <= n <= keys.len(),
        first_trusted(keys.take(n), issuer_key_id) is Some,
    ensures
        first_trusted(keys, issuer_key_id) == first_trusted(keys.take(n), issuer_key_id),
    decreases keys.len() - n,
{
    if n < keys.len() {
        assert(keys.take(n + 1).drop_last() =~= keys.take(n));
        lemma_trusted_prefix(keys, issuer_key_id, n + 1);
    } else {
        assert(keys.take(n) =~= keys);
    }
}

/// Reads the MCER wire bytes of a registration: the trimmed text must be padded
/// standard Base64 of between one and `max_len` bytes.
pub fn registration_wire(certificate: &str, max_len: usize) -> (wire: Result<Vec<u8>, ServiceError>)
    ensures
        match base64_standard_bytes(str_bytes(trimmed(certificate@))) {
            Some(bytes) if 0 < bytes.len() <= max_len => wire matches Ok(w) && w@ == bytes,
            _ => wire matches Err(ServiceError::CertificateInvalid(m)) && m@
                == crate::service::certificate_text_message(),
        },
{
    match base64_standard_decode(trim(certificate).as_bytes()) {
        Some(bytes) => if bytes.len() > 0 && bytes.len() <= max_len {
            Ok(bytes)
        } else {
            Err(ServiceError::CertificateInvalid(message("Certificate must be a Base64 MCER v1 value")))
        },
        None => Err(ServiceError::CertificateInvalid(message("Certificate must be a Base64 MCER v1 value"))),
    }
}

/// A registered certificate must name the Developer it is registered for.
pub fn developer_match(facts: &CertificateFacts, developer: &Developer) -> (result: Result<
    (),
    ServiceError,
>)
    ensures
        result == if facts.developer_id@ == developer.certificate_developer_id@ {
            Ok::<(), ServiceError>(())
        } else {
            Err(ServiceError::CertificateDeveloperMismatch)
        },
{
    if facts.developer_id == developer.certificate_developer_id {
        Ok(())
    } else {
        Err(ServiceError::CertificateDeveloperMismatch)
    }
}

/// The values stored for a certificate: its serial in decimal, its issuer key
/// ID in lowercase hex, its wire bytes in Base64, and its validity window.
pub fn registered_certificate(facts: &CertificateFacts, wire: &[u8]) -> (record: RegisteredCertificate)
    ensures
        record.serial@ == decimal(facts.serial_number as nat),
        record.issuer@ == hex_lower(facts.issuer_key_id@),
        record.certificate_json@ == base64_standard_text(wire@),
        record.not_before == facts.not_before as i64,
        record.not_after == facts.not_after as i64,
{
    RegisteredCertificate {
        serial: decimal_text(facts.serial_number),
        issuer: hex(facts.issuer_key_id.as_slice()),
        certificate_json: base64_standard_encode(wire),
        not_before: facts.not_before as i64,
        not_after: facts.not_after as i64,
    }
}

/// A registration stores a row only for an eligible Developer and member.
pub fn registration_outcome(row: Option<CertificateRow>) -> (result: Result<CertificateRow, ServiceError>)
    ensures
        result == match row {
            Some(r) => Ok::<CertificateRow, ServiceError>(r),
            None => Err(ServiceError::DeveloperNotEligible),
        },
{
    match row {
        Some(r) => Ok(r),
        None => Err(ServiceError::DeveloperNotEligible),
    }
}

// ---------------------------------------------------------------------------
// Status of a stored certificate
// ---------------------------------------------------------------------------

/// Why a certificate is valid or not.
#[derive(Clone, Copy, Debug, PartialEq, Eq, Structural)]
pub enum StatusReason {
    Valid,
    CertificateRevoked,
    MetadataMismatch,
    CertificateExpired,
    DeveloperSuspended,
    DeveloperNotVerified,
    SignatureInvalid,
    IssuerUnknown,
}

/// The text of a status reason.
pub open spec fn status_reason_text(reason: StatusReason) -> Seq<char> {
    match reason {
        StatusReason::Valid => "VALID"@,
        StatusReason::CertificateRevoked => "CERTIFICATE_REVOKED"@,
        StatusReason::MetadataMismatch => "METADATA_MISMATCH"@,
        StatusReason::CertificateExpired => "CERTIFICATE_EXPIRED"@,
        StatusReason::DeveloperSuspended => "DEVELOPER_SUSPENDED"@,
        StatusReason::DeveloperNotVerified => "DEVELOPER_NOT_VERIFIED"@,
        StatusReason::SignatureInvalid => "SIGNATURE_INVALID"@,
        StatusReason::IssuerUnknown => "ISSUER_UNKNOWN"@,
    }
}

impl StatusReason {
    /// The text of the reason, as the status response gives it.
    pub fn as_str(self) -> (text: &'static str)
        ensures
            text@ == status_reason_text(self),
    {
        match self {
            StatusReason::Valid => "VALID",
            StatusReason::CertificateRevoked => "CERTIFICATE_REVOKED",
            StatusReason::MetadataMismatch => "METADATA_MISMATCH",
            StatusReason::CertificateExpired => "CERTIFICATE_EXPIRED",
            StatusReason::DeveloperSuspended => "DEVELOPER_SUSPENDED",
            StatusReason::DeveloperNotVerified => "DEVELOPER_NOT_VERIFIED",
            StatusReason::SignatureInvalid => "SIGNATURE_INVALID",
            StatusReason::IssuerUnknown => "ISSUER_UNKNOWN",
        }
    }

    /// Whether the certificate is valid.
    pub fn is_valid(self) -> (valid: bool)
        ensures
            valid == (self == StatusReason::Valid),
    {
        match self {
            StatusReason::Valid => true,
            _ => false,
        }
    }
}

/// The decoded certificate agrees with its stored row.
pub open spec fn facts_match(facts: CertificateFacts, row: CertificateRow) -> bool {
    &&& facts.developer_id@ == row.developer_id@
    &&& decimal(facts.serial_number as nat) == row.serial_number@
    &&& hex_lower(facts.issuer_key_id@) == row.issuer_key_id@
    &&& hex_lower(facts.subject_key_id@) == row.subject_key_id@
    &&& facts.not_before == row.not_before as u64
    &&& facts.not_after == row.not_after as u64
}

/// The status of a stored certificate at time `at`, checked in order: revoked
/// (by its row or by a revocation record), not active, expired, its Developer
/// missing, suspended or not verified, its MCER not decoding or disagreeing
/// with the row, its issuer not a Root key, and its signature. `verification`
/// is `None` when no Root key has the issuer's key ID, else whether the shared
/// certificate check passed at `at`.
pub open spec fn status_reason(
    row: CertificateRow,
    revocation_found: bool,
    developer: Option<Developer>,
    decoded: Option<CertificateFacts>,
    verification: Option<bool>,
    at: i64,
) -> StatusReason {
    if row.status@ == "revoked"@ || revocation_found {
        StatusReason::CertificateRevoked
    } else if row.status@ != "active"@ {
        StatusReason::MetadataMismatch
    } else if row.not_after <= at {
        StatusReason::CertificateExpired
    } else {
        match developer {
            None => StatusReason::MetadataMismatch,
            Some(d) => if d.status@ != "active"@ {
                StatusReason::DeveloperSuspended
            } else if d.verification_status@ != "verified"@ {
                StatusReason::DeveloperNotVerified
            } else {
                match decoded {
                    None => StatusReason::SignatureInvalid,
                    Some(facts) => if !facts_match(facts, row) {
                        StatusReason::MetadataMismatch
                    } else {
                        match verification {
                            None => StatusReason::IssuerUnknown,
                            Some(passed) => if passed {
                                StatusReason::Valid
                            } else if facts.not_after <= at as u64 {
                                StatusReason::CertificateExpired
                            } else {
                                StatusReason::SignatureInvalid
                            },
                        }
                    },
                }
            },
        }
    }
}

fn facts_agree(facts: &CertificateFacts, row: &CertificateRow) -> (agree: bool)
    ensures
        agree == facts_match(*facts, *row),
{
    facts.developer_id == row.developer_id && decimal_text(facts.serial_number) == row.serial_number
        && hex(facts.issuer_key_id.as_slice()) == row.issuer_key_id && hex(
        facts.subject_key_id.as_slice(),
    ) == row.subject_key_id && facts.not_before == row.not_before as u64 && facts.not_after
        == row.not_after as u64
}

/// The status of a stored certificate at time `at`.
pub fn certificate_status(
    row: &CertificateRow,
    revocation_found: bool,
    developer: &Option<Developer>,
    decoded: &Option<CertificateFacts>,
    verification: Option<bool>,
    at: i64,
) -> (reason: StatusReason)
    ensures
        reason == status_reason(*row, revocation_found, *developer, *decoded, verification, at),
{
    if text_is(row.status.as_str(), "revoked") || revocation_found {
        return StatusReason::CertificateRevoked;
    }
    if !text_is(row.status.as_str(), "active") {
        return StatusReason::MetadataMismatch;
    }
    if row.not_after <= at {
        return StatusReason::CertificateExpired;
    }
    let d = match developer {
        None => return StatusReason::MetadataMismatch,
        Some(d) => d,
    };
    if !text_is(d.status.as_str(), "active") {
        return StatusReason::DeveloperSuspended;
    }
    if !text_is(d.verification_status.as_str(), "verified") {
        return StatusReason::DeveloperNotVerified;
    }
    let facts = match decoded {
        None => return StatusReason::SignatureInvalid,
        Some(f) => f,
    };
    if !facts_agree(facts, row) {
        return StatusReason::MetadataMismatch;
    }
    match verification {
        None => StatusReason::IssuerUnknown,
        Some(passed) => if passed {
            StatusReason::Valid
        } else if facts.not_after <= at as u64 {
            StatusReason::CertificateExpired
        } else {
            StatusReason::SignatureInvalid
        },
    }
}

/// The row stored for a registered certificate agrees with the certificate's
/// MCER facts, so its status check never reports a metadata mismatch for it.
pub proof fn lemma_registered_row_matches(
    facts: CertificateFacts,
    record: RegisteredCertificate,
    row: CertificateRow,
)
    requires
        record.serial@ == decimal(facts.serial_number as nat),
        record.issuer@ == hex_lower(facts.issuer_key_id@),
        record.not_before == facts.not_before as i64,
        record.not_after == facts.not_after as i64,
        row.developer_id@ == facts.developer_id@,
        row.serial_number@ == record.serial@,
        row.issuer_key_id@ == record.issuer@,
        row.subject_key_id@ == hex_lower(facts.subject_key_id@),
        row.not_before == record.not_before,
        row.not_after == record.not_after,
    ensures
        facts_match(facts, row),
{
    let nb = facts.not_before;
    let na = facts.not_after;
    assert(nb as i64 as u64 == nb) by (bit_vector);
    assert(na as i64 as u64 == na) by (bit_vector);
}

/// A certificate is reported valid only when it is active, unrevoked and
/// unexpired, its Developer is active and verified, its MCER agrees with its
/// row, and the issuer's signature was checked and passed.
pub proof fn lemma_valid_status(
    row: CertificateRow,
    revocation_found: bool,
    developer: Option<Developer>,
    decoded: Option<CertificateFacts>,
    verification: Option<bool>,
    at: i64,
)
    requires
        status_reason(row, revocation_found, developer, decoded, verification, at)
            == StatusReason::Valid,
    ensures
        row.status@ == "active"@,
        !revocation_found,
        at < row.not_after,
        developer matches Some(d) && d.status@ == "active"@ && d.verification_status@
            == "verified"@,
        decoded matches Some(f) && facts_match(f, row),
        verification == Some(true),
{
}

/// A certificate with a revocation record is never reported valid, whatever
/// else holds of it.
pub proof fn lemma_revoked_never_valid(
    row: CertificateRow,
    developer: Option<Developer>,
    decoded: Option<CertificateFacts>,
    verification: Option<bool>,
    at: i64,
)
    ensures
        status_reason(row, true, developer, decoded, verification, at)
            == StatusReason::CertificateRevoked,
{
}

// ---------------------------------------------------------------------------
// Revoked serial numbers
// ---------------------------------------------------------------------------

/// The value of a text of decimal digits.
pub open spec fn digits_value(digits: Seq<char>) -> nat
    decreases digits.len(),
{
    if digits.len() == 0 {
        0
    } else {
        digits_value(digits.drop_last()) * 10 + (digits.last() as nat - 48) as nat
    }
}

/// Every character is an ASCII decimal digit.
pub open spec fn all_digits(text: Seq<char>) -> bool {
    forall|i: int| 0 <= i < text.len() ==> '0' <= #[trigger] text[i] <= '9'
}

/// The digits of an unsigned number's text: without one leading `+`.
pub open spec fn unsigned_digits(text: Seq<char>) -> Seq<char> {
    if text.len() > 0 && text[0] == '+' {
        text.drop_first()
    } else {
        text
    }
}

/// `text.parse::<u64>()`: an optional `+` and then at least one decimal digit,
/// with a value that fits.
pub open spec fn parsed_u64(text: Seq<char>) -> Option<u64> {
    let digits = unsigned_digits(text);
    if digits.len() > 0 && all_digits(digits) && digits_value(digits) <= u64::MAX {
        Some(digits_value(digits) as u64)
    } else {
        None
    }
}

proof fn lemma_digits_value_prefix(digits: Seq<char>, k: int)
    requires
        all_digits(digits),
        0 <= k <= digits.len(),
    ensures
        digits_value(digits.take(k)) <= digits_value(digits),
    decreases digits.len() - k,
{
    if k < digits.len() {
        lemma_digits_value_prefix(digits, k + 1);
        assert(digits.take(k + 1).drop_last() =~= digits.take(k));
        assert(digits.take(k + 1).last() == digits[k]);
    } else {
        assert(digits.take(k) =~= digits);
    }
}

/// Reads an unsigned number the way `str::parse::<u64>` does.
pub fn parse_u64(text: &str) -> (value: Option<u64>)
    ensures
        value == parsed_u64(text@),
{
    let len = text.unicode_len();
    let start: usize = if len > 0 && text.get_char(0) == '+' {
        1
    } else {
        0
    };
    if start >= len {
        return None;
    }
    let digits = text.substring_char(start, len);
    assert(digits@ =~= unsigned_digits(text@));
    let ghost whole = digits@;
    let mut value: u64 = 0;
    for c in it: digits.chars()
        invariant
            it.seq() == whole,
            whole == unsigned_digits(text@),
            whole.len() > 0,
            all_digits(whole.take(it.index() as int)),
            value == digits_value(whole.take(it.index() as int)),
    {
        let ghost k = it.index() as int;
        assert(whole.take(k + 1).drop_last() =~= whole.take(k));
        assert(whole.take(k + 1).last() == c);
        if c < '0' || c > '9' {
            assert(!all_digits(whole));
            return None;
        }
        let d: u64 = ((c as u32) - 48) as u64;
        let next = match value.checked_mul(10) {
            Some(m) => m.checked_add(d),
            None => None,
        };
        match next {
            Some(v) => {
                value = v;
                assert(all_digits(whole.take(k + 1)));
            },
            None => {
                proof {
                    if all_digits(whole) {
                        lemma_digits_value_prefix(whole, k + 1);
                    }
                }
                return None;
            },
        }
    }
    assert(whole.take(whole.len() as int) =~= whole);
    Some(value)
}

proof fn lemma_decimal_digits(n: nat)
    ensures
        decimal(n).len() > 0,
        all_digits(decimal(n)),
        digits_value(decimal(n)) == n,
    decreases n,
{
    let c = crate::text::digit_char(n % 10);
    assert((n % 10) % 10 == n % 10);
    assert(c as nat == n % 10 + 48);
    if n >= 10 {
        lemma_decimal_digits(n / 10);
        let head = decimal(n / 10);
        let text = head.push(c);
        assert(text.drop_last() =~= head);
        assert(forall|i: int| 0 <= i < head.len() ==> text[i] == head[i]);
        assert(digits_value(text) == digits_value(head) * 10 + (c as nat - 48));
        assert((n / 10) * 10 + n % 10 == n);
        assert(decimal(n) == text);
    } else {
        let text = seq![c];
        assert(text.drop_last() =~= Seq::<char>::empty());
        assert(digits_value(Seq::<char>::empty()) == 0);
        assert(digits_value(text) == (c as nat - 48));
        assert(n % 10 == n);
        assert(decimal(n) == text);
    }
}

/// A serial number written in decimal, as registration stores it, reads back
/// as the same number, as the revocation list reads it.
pub proof fn lemma_serial_text_round_trip(serial: u64)
    ensures
        parsed_u64(decimal(serial as nat)) == Some(serial),
{
    lemma_decimal_digits(serial as nat);
    let text = decimal(serial as nat);
    assert('0' <= text[0] <= '9');
    assert(unsigned_digits(text) == text);
}

/// Strictly increasing.
pub open spec fn strictly_increasing(values: Seq<u64>) -> bool {
    forall|i: int, j: int| 0 <= i < j < values.len() ==> values[i] < values[j]
}

/// Adds a value to a strictly increasing list, unless it is there already.
fn insert_unique(values: &mut Vec<u64>, value: u64)
    requires
        strictly_increasing(old(values)@),
    ensures
        strictly_increasing(final(values)@),
        forall|x: u64| final(values)@.contains(x) <==> (old(values)@.contains(x) || x == value),
{
    let mut position: usize = 0;
    while position < values.len() && values[position] < value
        invariant
            values@ == old(values)@,
            position <= values@.len(),
            forall|j: int| 0 <= j < position ==> values@[j] < value,
        decreases values@.len() - position,
    {
        position = position + 1;
    }
    if position < values.len() && values[position] == value {
        assert(values@[position as int] == value);
        return;
    }
    let ghost before = values@;
    values.insert(position, value);
    assert(before == old(values)@);
    assert forall|x: u64| #[trigger] values@.contains(x) <==> (old(values)@.contains(x) || x == value) by {
        if before.contains(x) {
            let j = choose|j: int| 0 <= j < before.len() && before[j] == x;
            if j < position {
                assert(values@[j] == x);
            } else {
                assert(values@[j + 1] == x);
            }
        }
        if x == value {
            assert(values@[position as int] == x);
        }
        if values@.contains(x) {
            let j = choose|j: int| 0 <= j < values@.len() && values@[j] == x;
            if j < position {
                assert(before[j] == x);
            } else if j > position {
                assert(before[j - 1] == x);
            }
        }
    }
}

/// Some revocation record's serial number reads as `serial`.
pub open spec fn published_serial(records: Seq<Revocation>, serial: u64) -> bool {
    exists|i: int|
        0 <= i < records.len() && parsed_u64(#[trigger] records[i].serial_number@) == Some(serial)
}

/// The serial numbers of revocation records that read as numbers, in increasing
/// order without repeats.
pub fn revoked_serials(records: &Vec<Revocation>) -> (serials: Vec<u64>)
    ensures
        strictly_increasing(serials@),
        forall|x: u64| serials@.contains(x) <==> published_serial(records@, x),
{
    let mut serials: Vec<u64> = Vec::new();
    let mut i: usize = 0;
    while i < records.len()
        invariant
            i <= records@.len(),
            strictly_increasing(serials@),
            forall|x: u64|
                serials@.contains(x) <==> exists|j: int|
                    0 <= j < i && parsed_u64(#[trigger] records@[j].serial_number@) == Some(x),
        decreases records@.len() - i,
    {
        match parse_u64(records[i].serial_number.as_str()) {
            Some(v) => {
                insert_unique(&mut serials, v);
            },
            None => {},
        }
        assert forall|x: u64|
            serials@.contains(x) <==> exists|j: int|
                0 <= j < i + 1 && parsed_u64(#[trigger] records@[j].serial_number@) == Some(x) by {
            if exists|j: int| 0 <= j < i + 1 && parsed_u64(#[trigger] records@[j].serial_number@) == Some(x) {
                let j = choose|j: int| 0 <= j < i + 1 && parsed_u64(#[trigger] records@[j].serial_number@) == Some(x);
                if j < i {
                    assert(exists|k: int| 0 <= k < i && parsed_u64(#[trigger] records@[k].serial_number@) == Some(x));
                }
            }
        }
        i = i + 1;
    }
    assert forall|x: u64| serials@.contains(x) <==> published_serial(records@, x) by {}
    serials
}

/// The serial number of a revoked certificate, stored in decimal as
/// registration stores it, is published in the list of revoked serials.
pub proof fn lemma_revoked_serial_published(records: Seq<Revocation>, i: int, serial: u64)
    requires
        0 <= i < records.len(),
        records[i].serial_number@ == decimal(serial as nat),
    ensures
        published_serial(records, serial),
{
    lemma_serial_text_round_trip(serial);
    assert(parsed_u64(records[i].serial_number@) == Some(serial));
}

} // verus!
