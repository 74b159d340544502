//! The service's records and request bodies, as plain values.
use vstd::prelude::*;

verus! {

/// A Developer: the organisation or individual that certificates are issued to.
#[derive(Clone, Debug, PartialEq, Eq)]
pub struct Developer {
    pub id: String,
    pub certificate_developer_id: String,
    pub developer_type: String,
    pub display_name: String,
    pub status: String,
    pub verification_status: String,
    pub created_at: i64,
    pub updated_at: i64,
}

/// An Account's membership in a Developer.
#[derive(Clone, Debug, PartialEq, Eq)]
pub struct Member {
    pub id: String,
    pub developer_id: String,
    pub account_id: String,
    pub role: String,
    pub status: String,
    pub created_at: i64,
    pub updated_at: i64,
}

/// A request to create one more Developer.
#[derive(Clone, Debug, PartialEq, Eq)]
pub struct CreationRequest {
    pub id: String,
    pub account_id: String,
    pub requested_display_name: String,
    pub requested_developer_type: String,
    pub reason: String,
    pub status: String,
    pub reviewed_by_account_id: Option<String>,
    pub reviewed_at: Option<i64>,
    pub rejection_reason: Option<String>,
    pub created_at: i64,
    pub updated_at: i64,
}

/// Body of a Developer creation.
#[derive(Clone, Debug, PartialEq, Eq)]
pub struct CreateDeveloper {
    pub developer_type: String,
    pub display_name: String,
    pub creation_request_id: Option<String>,
}

/// Body of a membership addition.
#[derive(Clone, Debug, PartialEq, Eq)]
pub struct CreateMember {
    pub account_id: String,
    pub role: String,
}

/// Body of a membership change.
#[derive(Clone, Debug, PartialEq, Eq)]
pub struct UpdateMember {
    pub role: Option<String>,
    pub status: Option<String>,
}

/// Body of a Developer creation request.
#[derive(Clone, Debug, PartialEq, Eq)]
pub struct CreateCreationRequest {
    pub requested_display_name: String,
    pub requested_developer_type: String,
    pub reason: String,
}

/// Body of a creation request review.
#[derive(Clone, Debug, PartialEq, Eq)]
pub struct ReviewInput {
    pub rejection_reason: Option<String>,
}

/// Body of a verification status change.
#[derive(Clone, Debug, PartialEq, Eq)]
pub struct VerificationInput {
    pub verification_status: String,
}

/// Body of a certificate revocation.
#[derive(Clone, Debug, PartialEq, Eq)]
pub struct RevokeInput {
    pub reason: String,
    pub reason_code: Option<RevocationReasonCode>,
}

/// Why a certificate was revoked.
#[derive(Clone, Copy, Debug, PartialEq, Eq, Structural)]
pub enum RevocationReasonCode {
    KeyCompromise,
    DeveloperSuspended,
    CertificateReplaced,
    ScopeViolation,
    Administrative,
    Unspecified,
}

/// The snake-case text of a reason code.
pub open spec fn reason_code_text(code: RevocationReasonCode) -> Seq<char> {
    match code {
        RevocationReasonCode::KeyCompromise => "key_compromise"@,
        RevocationReasonCode::DeveloperSuspended => "developer_suspended"@,
        RevocationReasonCode::CertificateReplaced => "certificate_replaced"@,
        RevocationReasonCode::ScopeViolation => "scope_violation"@,
        RevocationReasonCode::Administrative => "administrative"@,
        RevocationReasonCode::Unspecified => "unspecified"@,
    }
}

impl RevocationReasonCode {
    /// The snake-case text of the reason code, as stored with a revocation.
    pub fn as_str(self) -> (text: &'static str)
        ensures
            text@ == reason_code_text(self),
    {
        match self {
            RevocationReasonCode::KeyCompromise => "key_compromise",
            RevocationReasonCode::DeveloperSuspended => "developer_suspended",
            RevocationReasonCode::CertificateReplaced => "certificate_replaced",
            RevocationReasonCode::ScopeViolation => "scope_violation",
            RevocationReasonCode::Administrative => "administrative",
            RevocationReasonCode::Unspecified => "unspecified",
        }
    }
}

/// A stored certificate.
#[derive(Clone, Debug, PartialEq, Eq)]
pub struct CertificateRow {
    pub id: String,
    pub certificate_request_id: String,
    pub developer_id: String,
    pub serial_number: String,
    pub issuer_key_id: String,
    pub subject_key_id: String,
    pub certificate_json: String,
    pub not_before: i64,
    pub not_after: i64,
    pub status: String,
    pub created_at: i64,
}

/// A stored revocation.
#[derive(Clone, Debug, PartialEq, Eq)]
pub struct Revocation {
    pub id: String,
    pub certificate_id: String,
    pub serial_number: String,
    pub reason: String,
    pub reason_code: String,
    pub revoked_by_account_id: String,
    pub revoked_at: i64,
}

} // verus!
