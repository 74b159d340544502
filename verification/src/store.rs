//! The decisions around the D1 store: record IDs, certificate serial
//! reservation, idempotent issuance claims, and the values written for a
//! registered trust snapshot.
//!
//! The queries themselves run outside; they hand these functions what they read.
use vstd::prelude::*;

use uuid::{NoContext, Timestamp, Uuid};

use crate::model::CertificateRow;
use crate::bytes::push_char;
use crate::text::{message, text_is};
use crate::trust::{IssuerRecord, IssuerStatus};

verus! {

// ---------------------------------------------------------------------------
// Record IDs
// ---------------------------------------------------------------------------

/// A lowercase hexadecimal digit.
pub open spec fn is_lower_hex(c: char) -> bool {
    ('0' <= c <= '9') || ('a' <= c <= 'f')
}

/// The value of a lowercase hexadecimal digit.
pub open spec fn lower_hex_value(c: char) -> nat {
    if '0' <= c <= '9' {
        (c as nat - 48) as nat
    } else {
        (c as nat - 87) as nat
    }
}

/// The value of a text of lowercase hexadecimal digits.
pub open spec fn lower_hex_number(digits: Seq<char>) -> nat
    decreases digits.len(),
{
    if digits.len() == 0 {
        0
    } else {
        lower_hex_number(digits.drop_last()) * 16 + lower_hex_value(digits.last())
    }
}

/// The Unix time in milliseconds that a version 7 UUID records for `seconds`:
/// `seconds * 1000`, saturated at `u64::MAX`.
pub open spec fn uuid_millis(seconds: u64) -> nat {
    if seconds * 1000 <= u64::MAX {
        (seconds * 1000) as nat
    } else {
        u64::MAX as nat
    }
}

/// A hyphenated lowercase version 7 UUID (RFC 9562 variant) whose 48-bit
/// timestamp field holds the low 48 bits of `millis`.
pub open spec fn is_uuid_v7_text(text: Seq<char>, millis: nat) -> bool {
    &&& text.len() == 36
    &&& forall|i: int|
        0 <= i < 36 ==> if i == 8 || i == 13 || i == 18 || i == 23 {
            #[trigger] text[i] == '-'
        } else {
            is_lower_hex(text[i])
        }
    &&& text[14] == '7'
    &&& (text[19] == '8' || text[19] == '9' || text[19] == 'a' || text[19] == 'b')
    &&& lower_hex_number(text.take(8) + text.subrange(9, 13)) == millis % 0x1_0000_0000_0000
}

/// `Uuid::new_v7(Timestamp::from_unix(NoContext, seconds, 0)).to_string()`.
/// The uuid crate fills the 74 bits after the timestamp, version and variant
/// with random data, so two calls differ; what holds of every result is its
/// hyphenated lowercase form, version 7, the RFC variant and the timestamp
/// field, which `Builder::from_unix_timestamp_millis` fills with the low 48
/// bits of `seconds * 1000` (saturating).
#[verifier::external_body]
fn uuid_v7_text(seconds: u64) -> (text: String)
    ensures
        is_uuid_v7_text(text@, uuid_millis(seconds)),
{
    Uuid::new_v7(Timestamp::from_unix(NoContext, seconds, 0)).to_string()
}

/// A new record ID: a version 7 UUID stamped with `now` (clamped at zero),
/// without reading the system clock.
pub fn id(now: i64) -> (text: String)
    ensures
        is_uuid_v7_text(text@, uuid_millis(if now > 0 { now as u64 } else { 0 })),
{
    let seconds: u64 = if now > 0 {
        now as u64
    } else {
        0
    };
    uuid_v7_text(seconds)
}

// ---------------------------------------------------------------------------
// Certificate serial numbers
// ---------------------------------------------------------------------------

/// The message when the serial sequence has run past the positive numbers.
pub open spec fn serial_exhausted_message() -> Seq<char> {
    "certificate serial range exhausted"@
}

/// The serial number that a reservation returned: only positive ones are used.
pub fn reserved_serial(serial: i64) -> (result: Result<u64, String>)
    ensures
        serial > 0 ==> result == Ok::<u64, String>(serial as u64),
        serial <= 0 ==> (result matches Err(e) && e@ == serial_exhausted_message()),
{
    if serial > 0 {
        Ok(serial as u64)
    } else {
        Err(message("certificate serial range exhausted"))
    }
}

// ---------------------------------------------------------------------------
// Idempotent issuance claims
// ---------------------------------------------------------------------------

/// How long a pending claim holds before another request may take it over.
pub const CLAIM_STALE_SECONDS: i64 = 300;

/// The stored state of an idempotency key.
#[derive(Clone, Debug, PartialEq, Eq)]
pub struct IdempotencyRow {
    pub request_hash: String,
    pub certificate_id: Option<String>,
    pub status: String,
    pub updated_at: i64,
}

/// The outcome of claiming an idempotency key for an issuance.
#[derive(Clone, Debug, PartialEq, Eq)]
pub enum IssueClaim {
    /// This request may issue.
    Claimed,
    /// An earlier request with the same body issued this certificate.
    Complete(Box<CertificateRow>),
    /// An earlier request with the same body is still issuing.
    Pending,
    /// The key was used for a different request body.
    Conflict,
}

/// What the store does next while claiming a key.
#[derive(Clone, Debug, PartialEq, Eq)]
pub enum ClaimStep {
    /// The claim is decided.
    Done(IssueClaim),
    /// Read the certificate that a completed claim recorded.
    LookUpCertificate(String),
    /// Take over the claim if it is still pending and was last touched at or
    /// before `stale_before`.
    Reclaim { stale_before: i64 },
}

/// `i64::saturating_sub` for a non-negative amount.
pub open spec fn saturating_minus(value: i64, amount: i64) -> i64 {
    if value - amount < i64::MIN {
        i64::MIN
    } else {
        (value - amount) as i64
    }
}

fn minus_saturating(value: i64, amount: i64) -> (result: i64)
    requires
        amount >= 0,
    ensures
        result == saturating_minus(value, amount),
{
    if value < i64::MIN + amount {
        i64::MIN
    } else {
        value - amount
    }
}

/// A pending claim touched within the last five minutes still holds; an older
/// one may be taken over.
pub open spec fn freshness_step(updated_at: i64, now: i64) -> ClaimStep {
    let cutoff = saturating_minus(now, CLAIM_STALE_SECONDS);
    if updated_at > cutoff {
        ClaimStep::Done(IssueClaim::Pending)
    } else {
        ClaimStep::Reclaim { stale_before: cutoff }
    }
}

fn freshness(updated_at: i64, now: i64) -> (step: ClaimStep)
    ensures
        step == freshness_step(updated_at, now),
{
    let cutoff = minus_saturating(now, CLAIM_STALE_SECONDS);
    if updated_at > cutoff {
        ClaimStep::Done(IssueClaim::Pending)
    } else {
        ClaimStep::Reclaim { stale_before: cutoff }
    }
}

/// The outcome of inserting a fresh claim: a new row claims the key; an
/// existing one has to be inspected.
pub fn claim_after_insert(inserted: bool) -> (claim: Option<IssueClaim>)
    ensures
        claim == if inserted {
            Some(IssueClaim::Claimed)
        } else {
            None::<IssueClaim>
        },
{
    if inserted {
        Some(IssueClaim::Claimed)
    } else {
        None
    }
}

/// The step after reading the existing row of a key: a different request body
/// conflicts; a completed claim with a certificate looks it up; otherwise the
/// claim's age decides.
pub open spec fn inspect_step(row: IdempotencyRow, request_hash: Seq<char>, now: i64) -> ClaimStep {
    if row.request_hash@ != request_hash {
        ClaimStep::Done(IssueClaim::Conflict)
    } else if row.status@ == "complete"@ && row.certificate_id is Some {
        ClaimStep::LookUpCertificate(row.certificate_id->0)
    } else {
        freshness_step(row.updated_at, now)
    }
}

/// Decides the step after reading the existing row of a key.
pub fn inspect_claim(row: &IdempotencyRow, request_hash: &str, now: i64) -> (step: ClaimStep)
    ensures
        step == inspect_step(*row, request_hash@, now),
{
    if !text_is(row.request_hash.as_str(), request_hash) {
        return ClaimStep::Done(IssueClaim::Conflict);
    }
    if text_is(row.status.as_str(), "complete") {
        match &row.certificate_id {
            Some(id) => return ClaimStep::LookUpCertificate(id.clone()),
            None => {},
        }
    }
    freshness(row.updated_at, now)
}

/// The step after looking up a completed claim's certificate: found, the
/// claim is complete; gone, the claim's age decides.
pub fn claim_after_lookup(row: &IdempotencyRow, certificate: Option<CertificateRow>, now: i64) -> (step:
    ClaimStep)
    ensures
        step == match certificate {
            Some(c) => ClaimStep::Done(IssueClaim::Complete(Box::new(c))),
            None => freshness_step(row.updated_at, now),
        },
{
    match certificate {
        Some(c) => ClaimStep::Done(IssueClaim::Complete(Box::new(c))),
        None => freshness(row.updated_at, now),
    }
}

/// The outcome of trying to take over a stale claim.
pub fn claim_after_reclaim(reclaimed: bool) -> (claim: IssueClaim)
    ensures
        claim == if reclaimed {
            IssueClaim::Claimed
        } else {
            IssueClaim::Pending
        },
{
    if reclaimed {
        IssueClaim::Claimed
    } else {
        IssueClaim::Pending
    }
}

/// A key reused for a different request body always conflicts, whatever its
/// state and whenever it is asked.
pub proof fn lemma_other_body_conflicts(row: IdempotencyRow, request_hash: Seq<char>, now: i64)
    requires
        row.request_hash@ != request_hash,
    ensures
        inspect_step(row, request_hash, now) == ClaimStep::Done(IssueClaim::Conflict),
{
}

/// A claim that is not complete and was touched within the last five minutes
/// is never taken over: the request is told it is pending.
pub proof fn lemma_recent_claim_not_taken(row: IdempotencyRow, now: i64)
    requires
        row.status@ != "complete"@,
        row.updated_at > saturating_minus(now, CLAIM_STALE_SECONDS),
    ensures
        inspect_step(row, row.request_hash@, now) == ClaimStep::Done(IssueClaim::Pending),
{
}

// ---------------------------------------------------------------------------
// Records written by the store
// ---------------------------------------------------------------------------

/// The values stored with an issued certificate.
pub struct IssuedCertificateRecord<'a> {
    pub request_id: &'a str,
    pub certificate_id: &'a str,
    pub serial: &'a str,
    pub issuer: &'a str,
    pub certificate_json: &'a str,
    pub not_before: i64,
    pub not_after: i64,
    pub now: i64,
    pub request_hash: &'a str,
    pub idempotency_key: &'a str,
    pub issuance_source: &'a str,
}

/// The values stored with a signed revocation snapshot.
pub struct RevocationSnapshotRecord<'a> {
    pub version: i64,
    pub generated_at: i64,
    pub expires_at: i64,
    pub issuer_key_id: &'a str,
    pub snapshot_json: &'a str,
    pub etag: &'a str,
}

/// The text of an issuer status, as the trust snapshot's JSON names it.
pub open spec fn issuer_status_name(status: IssuerStatus) -> Seq<char> {
    match status {
        IssuerStatus::Future => "future"@,
        IssuerStatus::Active => "active"@,
        IssuerStatus::Retired => "retired"@,
        IssuerStatus::Revoked => "revoked"@,
    }
}

/// The text of an issuer status.
pub fn issuer_status_text(status: IssuerStatus) -> (text: &'static str)
    ensures
        text@ == issuer_status_name(status),
{
    match status {
        IssuerStatus::Future => "future",
        IssuerStatus::Active => "active",
        IssuerStatus::Retired => "retired",
        IssuerStatus::Revoked => "revoked",
    }
}

/// The values written for one issuer of a registered trust snapshot.
#[derive(Clone, Debug, PartialEq, Eq)]
pub struct IssuerRowValues {
    pub key_id: String,
    pub public_key: String,
    pub status: String,
    pub not_before: i64,
    pub not_after: i64,
    pub snapshot_version: i64,
}

/// The values written for one issuer of a trust snapshot of `snapshot_version`.
pub fn issuer_row(issuer: &IssuerRecord, snapshot_version: u64) -> (row: IssuerRowValues)
    ensures
        row.key_id@ == issuer.issuer_key_id@,
        row.public_key@ == issuer.public_key@,
        row.status@ == issuer_status_name(issuer.status),
        row.not_before == issuer.not_before as i64,
        row.not_after == issuer.not_after as i64,
        row.snapshot_version == snapshot_version as i64,
{
    IssuerRowValues {
        key_id: issuer.issuer_key_id.clone(),
        public_key: issuer.public_key.clone(),
        status: message(issuer_status_text(issuer.status)),
        not_before: issuer.not_before as i64,
        not_after: issuer.not_after as i64,
        snapshot_version: snapshot_version as i64,
    }
}

// ---------------------------------------------------------------------------
// Issuance attempts and issuer status changes
// ---------------------------------------------------------------------------

/// How long issuance attempts are kept, in seconds.
pub const ATTEMPT_RETENTION_SECONDS: i64 = 86400;

/// The window that issuance attempts are counted over, in seconds.
pub const ATTEMPT_WINDOW_SECONDS: i64 = 3600;

/// The cut-offs of an issuance attempt at `now`: attempts created at or before
/// the first are deleted; those created after the second are counted.
pub fn attempt_cutoffs(now: i64) -> (cutoffs: (i64, i64))
    ensures
        cutoffs.0 == saturating_minus(now, ATTEMPT_RETENTION_SECONDS),
        cutoffs.1 == saturating_minus(now, ATTEMPT_WINDOW_SECONDS),
{
    (minus_saturating(now, ATTEMPT_RETENTION_SECONDS), minus_saturating(now, ATTEMPT_WINDOW_SECONDS))
}

/// The column that records when an issuer entered a status, for the statuses
/// that an admin may set.
pub open spec fn status_column(status: Seq<char>) -> Option<Seq<char>> {
    if status == "active"@ {
        Some("activated_at"@)
    } else if status == "retired"@ {
        Some("retired_at"@)
    } else if status == "revoked"@ {
        Some("revoked_at"@)
    } else {
        None
    }
}

/// The timestamp column of an issuer status change, or `None` for a status
/// that cannot be set.
pub fn issuer_status_column(status: &str) -> (column: Option<&'static str>)
    ensures
        match status_column(status@) {
            Some(c) => column is Some && column->0@ == c,
            None => column is None,
        },
{
    if text_is(status, "active") {
        Some("activated_at")
    } else if text_is(status, "retired") {
        Some("retired_at")
    } else if text_is(status, "revoked") {
        Some("revoked_at")
    } else {
        None
    }
}

// ---------------------------------------------------------------------------
// Developer IDs
// ---------------------------------------------------------------------------

/// A text without any occurrence of `c`.
pub open spec fn without_char(text: Seq<char>, c: char) -> Seq<char>
    decreases text.len(),
{
    if text.len() == 0 {
        text
    } else if text.last() == c {
        without_char(text.drop_last(), c)
    } else {
        without_char(text.drop_last(), c).push(text.last())
    }
}

/// The Developer ID written into certificates: the Developer's UUIDv7 body,
/// that is its UUID without the hyphens.
pub fn certificate_developer_id(developer_id: &str) -> (id: String)
    ensures
        id@ == without_char(developer_id@, '-'),
{
    let ghost whole = developer_id@;
    let mut compact = String::new();
    for c in it: developer_id.chars()
        invariant
            it.seq() == whole,
            compact@ == without_char(whole.take(it.index() as int), '-'),
    {
        let ghost k = it.index() as int;
        assert(whole.take(k + 1).drop_last() =~= whole.take(k));
        if c != '-' {
            push_char(&mut compact, c);
        }
    }
    assert(whole.take(whole.len() as int) =~= whole);
    compact
}

proof fn lemma_without_char_concat(a: Seq<char>, b: Seq<char>, c: char)
    ensures
        without_char(a + b, c) == without_char(a, c) + without_char(b, c),
    decreases b.len(),
{
    if b.len() == 0 {
        assert(a + b =~= a);
        assert(without_char(a, c) + without_char(b, c) =~= without_char(a, c));
    } else {
        assert((a + b).drop_last() =~= a + b.drop_last());
        assert((a + b).last() == b.last());
        lemma_without_char_concat(a, b.drop_last(), c);
        if b.last() == c {
        } else {
            assert(without_char(a, c) + without_char(b.drop_last(), c).push(b.last())
                =~= (without_char(a, c) + without_char(b.drop_last(), c)).push(b.last()));
        }
    }
}

proof fn lemma_without_absent_char(text: Seq<char>, c: char)
    requires
        forall|i: int| 0 <= i < text.len() ==> text[i] != c,
    ensures
        without_char(text, c) == text,
    decreases text.len(),
{
    if text.len() > 0 {
        lemma_without_absent_char(text.drop_last(), c);
        assert(text.drop_last().push(text.last()) =~= text);
    }
}

/// For every version 7 UUID text, such as `store::id` returns, the certificate
/// Developer ID is its 32-digit lowercase hexadecimal body.
pub proof fn lemma_certificate_developer_id_is_uuid_body(text: Seq<char>, millis: nat)
    requires
        is_uuid_v7_text(text, millis),
    ensures
        without_char(text, '-').len() == 32,
        forall|i: int| 0 <= i < 32 ==> is_lower_hex(#[trigger] without_char(text, '-')[i]),
{
    let p0 = text.subrange(0, 8);
    let p1 = text.subrange(9, 13);
    let p2 = text.subrange(14, 18);
    let p3 = text.subrange(19, 23);
    let p4 = text.subrange(24, 36);
    let h = seq!['-'];
    assert(text[8] == '-' && text[13] == '-' && text[18] == '-' && text[23] == '-');
    assert(text =~= p0 + h + p1 + h + p2 + h + p3 + h + p4);
    assert forall|i: int| 0 <= i < 36 && i != 8 && i != 13 && i != 18 && i != 23 implies
        is_lower_hex(text[i]) && text[i] != '-' by {
        assert(is_lower_hex(text[i]));
    }
    lemma_without_absent_char(p0, '-');
    lemma_without_absent_char(p1, '-');
    lemma_without_absent_char(p2, '-');
    lemma_without_absent_char(p3, '-');
    lemma_without_absent_char(p4, '-');
    assert(without_char(h, '-') =~= Seq::<char>::empty()) by {
        assert(h.drop_last() =~= Seq::<char>::empty());
        assert(h.last() == '-');
        assert(without_char(h.drop_last(), '-') =~= Seq::<char>::empty());
    }
    lemma_without_char_concat(p0, h, '-');
    lemma_without_char_concat(p0 + h, p1, '-');
    lemma_without_char_concat(p0 + h + p1, h, '-');
    lemma_without_char_concat(p0 + h + p1 + h, p2, '-');
    lemma_without_char_concat(p0 + h + p1 + h + p2, h, '-');
    lemma_without_char_concat(p0 + h + p1 + h + p2 + h, p3, '-');
    lemma_without_char_concat(p0 + h + p1 + h + p2 + h + p3, h, '-');
    lemma_without_char_concat(p0 + h + p1 + h + p2 + h + p3 + h, p4, '-');
    let body = p0 + p1 + p2 + p3 + p4;
    assert(without_char(text, '-') =~= body);
    assert forall|i: int| 0 <= i < 32 implies is_lower_hex(#[trigger] without_char(text, '-')[i]) by {
        if i < 8 {
            assert(body[i] == text[i]);
        } else if i < 12 {
            assert(body[i] == text[i + 1]);
        } else if i < 16 {
            assert(body[i] == text[i + 2]);
        } else if i < 20 {
            assert(body[i] == text[i + 3]);
        } else {
            assert(body[i] == text[i + 4]);
        }
    }
}

} // verus!
