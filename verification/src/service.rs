//! The Developer CA service's rules: who may do what, which request bodies are
//! accepted, and what each refusal is answered with.
//!
//! The HTTP routing and the D1 queries run outside; they hand these functions
//! the records they read and act on what comes back.
use vstd::prelude::*;

use crate::model::{
    CertificateRow, CreateCreationRequest, CreateDeveloper, Member, RevocationReasonCode,
    RevokeInput, UpdateMember,
};
use crate::text::{message, option_text_is, text_is, trim, trimmed};

verus! {

/// A refusal of the service: its code, message and HTTP status.
#[derive(Clone, Debug, PartialEq, Eq)]
pub enum ServiceError {
    Unauthenticated,
    DeveloperInputInvalid,
    DeveloperLimitReached,
    MembershipRequired,
    DeveloperNotFound,
    MemberChangeForbidden,
    AccountInactive,
    MemberNotFound,
    MemberUpdateForbidden,
    MemberRemovalForbidden,
    LastOwnerRequired,
    RequestInvalid,
    CertificateRoleForbidden,
    CertificateInvalid(String),
    CertificateDeveloperMismatch,
    RootKeyUnavailable,
    CertificateIssuerUnknown,
    DeveloperNotEligible,
    CertificateNotFound,
    AdminAuthRequired,
    StatusInvalid,
    AdminTokenReplayed,
    RejectionReasonRequired,
    RevocationReasonRequired,
    CertificateNotActive,
}

/// The message of a registration whose certificate text is not a usable MCER value.
pub open spec fn certificate_text_message() -> Seq<char> {
    "Certificate must be a Base64 MCER v1 value"@
}

impl ServiceError {
    /// The error code of the refusal.
    pub fn code(&self) -> (code: &'static str)
        ensures
            code@ == error_code(*self),
    {
        match self {
            ServiceError::Unauthenticated => "UNAUTHENTICATED",
            ServiceError::DeveloperInputInvalid => "DEVELOPER_INPUT_INVALID",
            ServiceError::DeveloperLimitReached => "DEVELOPER_LIMIT_REACHED",
            ServiceError::MembershipRequired => "FORBIDDEN",
            ServiceError::DeveloperNotFound => "DEVELOPER_NOT_FOUND",
            ServiceError::MemberChangeForbidden => "FORBIDDEN",
            ServiceError::AccountInactive => "ACCOUNT_INACTIVE",
            ServiceError::MemberNotFound => "MEMBER_NOT_FOUND",
            ServiceError::MemberUpdateForbidden => "FORBIDDEN",
            ServiceError::MemberRemovalForbidden => "FORBIDDEN",
            ServiceError::LastOwnerRequired => "LAST_OWNER_REQUIRED",
            ServiceError::RequestInvalid => "REQUEST_INVALID",
            ServiceError::CertificateRoleForbidden => "FORBIDDEN",
            ServiceError::CertificateInvalid(_) => "CERTIFICATE_INVALID",
            ServiceError::CertificateDeveloperMismatch => "CERTIFICATE_DEVELOPER_MISMATCH",
            ServiceError::RootKeyUnavailable => "ROOT_KEY_UNAVAILABLE",
            ServiceError::CertificateIssuerUnknown => "CERTIFICATE_ISSUER_UNKNOWN",
            ServiceError::DeveloperNotEligible => "DEVELOPER_NOT_ELIGIBLE",
            ServiceError::CertificateNotFound => "CERTIFICATE_NOT_FOUND",
            ServiceError::AdminAuthRequired => "ADMIN_AUTH_REQUIRED",
            ServiceError::StatusInvalid => "STATUS_INVALID",
            ServiceError::AdminTokenReplayed => "ADMIN_TOKEN_REPLAYED",
            ServiceError::RejectionReasonRequired => "REJECTION_REASON_REQUIRED",
            ServiceError::RevocationReasonRequired => "REVOCATION_REASON_REQUIRED",
            ServiceError::CertificateNotActive => "CERTIFICATE_NOT_ACTIVE",
        }
    }

    /// The human-readable message of the refusal.
    pub fn message(&self) -> (text: String)
        ensures
            text@ == error_message(*self),
    {
        match self {
            ServiceError::CertificateInvalid(reason) => reason.clone(),
            ServiceError::Unauthenticated => message("Active Accounts session required"),
            ServiceError::DeveloperInputInvalid => message(
                "Developer type or display name is invalid",
            ),
            ServiceError::DeveloperLimitReached => message(
                "An approved unused request is required for another Developer",
            ),
            ServiceError::MembershipRequired => message("Active membership required"),
            ServiceError::DeveloperNotFound => message("Developer not found"),
            ServiceError::MemberChangeForbidden => message(
                "Insufficient role for membership change",
            ),
            ServiceError::AccountInactive => message("Target Account must be active"),
            ServiceError::MemberNotFound => message("Member not found"),
            ServiceError::MemberUpdateForbidden => message(
                "Insufficient role or invalid membership change",
            ),
            ServiceError::MemberRemovalForbidden => message("Insufficient role"),
            ServiceError::LastOwnerRequired => message("Developer must retain an active owner"),
            ServiceError::RequestInvalid => message(
                "Display name, type, and reason are required",
            ),
            ServiceError::CertificateRoleForbidden => message("Role cannot request certificates"),
            ServiceError::CertificateDeveloperMismatch => message(
                "Certificate developer ID does not match",
            ),
            ServiceError::RootKeyUnavailable => message("Root public key is unavailable"),
            ServiceError::CertificateIssuerUnknown => message("Certificate issuer is not trusted"),
            ServiceError::DeveloperNotEligible => message(
                "Developer must be active, verified, and registered by an eligible member",
            ),
            ServiceError::CertificateNotFound => message("Certificate not found"),
            ServiceError::AdminAuthRequired => message("Admin authentication required"),
            ServiceError::StatusInvalid => message("Invalid verification status"),
            ServiceError::AdminTokenReplayed => message("Admin token was already used"),
            ServiceError::RejectionReasonRequired => message("Rejection reason required"),
            ServiceError::RevocationReasonRequired => message("Revocation reason required"),
            ServiceError::CertificateNotActive => message("Certificate is not active"),
        }
    }

    /// The HTTP status of the refusal.
    pub fn status(&self) -> (status: u16)
        ensures
            status == error_status(*self),
    {
        match self {
            ServiceError::Unauthenticated => 401,
            ServiceError::AdminAuthRequired => 401,
            ServiceError::DeveloperLimitReached => 403,
            ServiceError::MembershipRequired => 403,
            ServiceError::MemberChangeForbidden => 403,
            ServiceError::MemberUpdateForbidden => 403,
            ServiceError::MemberRemovalForbidden => 403,
            ServiceError::CertificateRoleForbidden => 403,
            ServiceError::DeveloperNotFound => 404,
            ServiceError::MemberNotFound => 404,
            ServiceError::CertificateNotFound => 404,
            ServiceError::LastOwnerRequired => 409,
            ServiceError::DeveloperNotEligible => 409,
            ServiceError::AdminTokenReplayed => 409,
            ServiceError::CertificateNotActive => 409,
            ServiceError::RootKeyUnavailable => 503,
            ServiceError::DeveloperInputInvalid => 422,
            ServiceError::AccountInactive => 422,
            ServiceError::RequestInvalid => 422,
            ServiceError::CertificateInvalid(_) => 422,
            ServiceError::CertificateDeveloperMismatch => 422,
            ServiceError::CertificateIssuerUnknown => 422,
            ServiceError::StatusInvalid => 422,
            ServiceError::RejectionReasonRequired => 422,
            ServiceError::RevocationReasonRequired => 422,
        }
    }
}

/// The error code of each refusal.
pub open spec fn error_code(error: ServiceError) -> Seq<char> {
    match error {
        ServiceError::Unauthenticated => "UNAUTHENTICATED"@,
        ServiceError::DeveloperInputInvalid => "DEVELOPER_INPUT_INVALID"@,
        ServiceError::DeveloperLimitReached => "DEVELOPER_LIMIT_REACHED"@,
        ServiceError::MembershipRequired => "FORBIDDEN"@,
        ServiceError::DeveloperNotFound => "DEVELOPER_NOT_FOUND"@,
        ServiceError::MemberChangeForbidden => "FORBIDDEN"@,
        ServiceError::AccountInactive => "ACCOUNT_INACTIVE"@,
        ServiceError::MemberNotFound => "MEMBER_NOT_FOUND"@,
        ServiceError::MemberUpdateForbidden => "FORBIDDEN"@,
        ServiceError::MemberRemovalForbidden => "FORBIDDEN"@,
        ServiceError::LastOwnerRequired => "LAST_OWNER_REQUIRED"@,
        ServiceError::RequestInvalid => "REQUEST_INVALID"@,
        ServiceError::CertificateRoleForbidden => "FORBIDDEN"@,
        ServiceError::CertificateInvalid(_) => "CERTIFICATE_INVALID"@,
        ServiceError::CertificateDeveloperMismatch => "CERTIFICATE_DEVELOPER_MISMATCH"@,
        ServiceError::RootKeyUnavailable => "ROOT_KEY_UNAVAILABLE"@,
        ServiceError::CertificateIssuerUnknown => "CERTIFICATE_ISSUER_UNKNOWN"@,
        ServiceError::DeveloperNotEligible => "DEVELOPER_NOT_ELIGIBLE"@,
        ServiceError::CertificateNotFound => "CERTIFICATE_NOT_FOUND"@,
        ServiceError::AdminAuthRequired => "ADMIN_AUTH_REQUIRED"@,
        ServiceError::StatusInvalid => "STATUS_INVALID"@,
        ServiceError::AdminTokenReplayed => "ADMIN_TOKEN_REPLAYED"@,
        ServiceError::RejectionReasonRequired => "REJECTION_REASON_REQUIRED"@,
        ServiceError::RevocationReasonRequired => "REVOCATION_REASON_REQUIRED"@,
        ServiceError::CertificateNotActive => "CERTIFICATE_NOT_ACTIVE"@,
    }
}

/// The message of each refusal.
pub open spec fn error_message(error: ServiceError) -> Seq<char> {
    match error {
        ServiceError::CertificateInvalid(reason) => reason@,
        ServiceError::Unauthenticated => "Active Accounts session required"@,
        ServiceError::DeveloperInputInvalid => "Developer type or display name is invalid"@,
        ServiceError::DeveloperLimitReached => "An approved unused request is required for another Developer"@,
        ServiceError::MembershipRequired => "Active membership required"@,
        ServiceError::DeveloperNotFound => "Developer not found"@,
        ServiceError::MemberChangeForbidden => "Insufficient role for membership change"@,
        ServiceError::AccountInactive => "Target Account must be active"@,
        ServiceError::MemberNotFound => "Member not found"@,
        ServiceError::MemberUpdateForbidden => "Insufficient role or invalid membership change"@,
        ServiceError::MemberRemovalForbidden => "Insufficient role"@,
        ServiceError::LastOwnerRequired => "Developer must retain an active owner"@,
        ServiceError::RequestInvalid => "Display name, type, and reason are required"@,
        ServiceError::CertificateRoleForbidden => "Role cannot request certificates"@,
        ServiceError::CertificateDeveloperMismatch => "Certificate developer ID does not match"@,
        ServiceError::RootKeyUnavailable => "Root public key is unavailable"@,
        ServiceError::CertificateIssuerUnknown => "Certificate issuer is not trusted"@,
        ServiceError::DeveloperNotEligible => "Developer must be active, verified, and registered by an eligible member"@,
        ServiceError::CertificateNotFound => "Certificate not found"@,
        ServiceError::AdminAuthRequired => "Admin authentication required"@,
        ServiceError::StatusInvalid => "Invalid verification status"@,
        ServiceError::AdminTokenReplayed => "Admin token was already used"@,
        ServiceError::RejectionReasonRequired => "Rejection reason required"@,
        ServiceError::RevocationReasonRequired => "Revocation reason required"@,
        ServiceError::CertificateNotActive => "Certificate is not active"@,
    }
}

/// The HTTP status of each refusal.
pub open spec fn error_status(error: ServiceError) -> u16 {
    match error {
        ServiceError::Unauthenticated | ServiceError::AdminAuthRequired => 401,
        ServiceError::DeveloperLimitReached | ServiceError::MembershipRequired
        | ServiceError::MemberChangeForbidden | ServiceError::MemberUpdateForbidden
        | ServiceError::MemberRemovalForbidden | ServiceError::CertificateRoleForbidden => 403,
        ServiceError::DeveloperNotFound | ServiceError::MemberNotFound
        | ServiceError::CertificateNotFound => 404,
        ServiceError::LastOwnerRequired | ServiceError::DeveloperNotEligible
        | ServiceError::AdminTokenReplayed | ServiceError::CertificateNotActive => 409,
        ServiceError::RootKeyUnavailable => 503,
        _ => 422,
    }
}

// ---------------------------------------------------------------------------
// Roles and statuses
// ---------------------------------------------------------------------------

/// `individual` or `organization`.
pub open spec fn is_developer_type(value: Seq<char>) -> bool {
    value == "individual"@ || value == "organization"@
}

/// `owner`, `admin`, `developer` or `viewer`.
pub open spec fn is_role(value: Seq<char>) -> bool {
    value == "owner"@ || value == "admin"@ || value == "developer"@ || value == "viewer"@
}

/// `active`, `invited`, `suspended` or `removed`.
pub open spec fn is_member_status(value: Seq<char>) -> bool {
    value == "active"@ || value == "invited"@ || value == "suspended"@ || value == "removed"@
}

/// Roles that manage a Developer's members: `owner` and `admin`.
pub open spec fn manages(role: Seq<char>) -> bool {
    role == "owner"@ || role == "admin"@
}

/// Roles that may register certificates: `owner`, `admin` and `developer`.
pub open spec fn requests_certificates(role: Seq<char>) -> bool {
    role == "owner"@ || role == "admin"@ || role == "developer"@
}

/// Whether a Developer type is known.
pub fn valid_developer_type(value: &str) -> (valid: bool)
    ensures
        valid == is_developer_type(value@),
{
    text_is(value, "individual") || text_is(value, "organization")
}

/// Whether a membership role is known.
pub fn valid_role(value: &str) -> (valid: bool)
    ensures
        valid == is_role(value@),
{
    text_is(value, "owner") || text_is(value, "admin") || text_is(value, "developer") || text_is(
        value,
        "viewer",
    )
}

/// Whether a membership status is known.
pub fn valid_member_status(value: &str) -> (valid: bool)
    ensures
        valid == is_member_status(value@),
{
    text_is(value, "active") || text_is(value, "invited") || text_is(value, "suspended")
        || text_is(value, "removed")
}

/// Whether a role manages the Developer's members.
pub fn can_manage(role: &str) -> (manage: bool)
    ensures
        manage == manages(role@),
{
    text_is(role, "owner") || text_is(role, "admin")
}

/// Whether a role may register certificates.
pub fn can_request_certificate(role: &str) -> (allowed: bool)
    ensures
        allowed == requests_certificates(role@),
{
    text_is(role, "owner") || text_is(role, "admin") || text_is(role, "developer")
}

// ---------------------------------------------------------------------------
// Request bodies
// ---------------------------------------------------------------------------

/// The longest Developer display name, in characters.
pub const MAX_DISPLAY_NAME_CHARS: usize = 120;

/// A Developer creation body is refused: unknown type, or a display name that is
/// blank or longer than 120 characters once trimmed.
pub open spec fn developer_input_refused(input: CreateDeveloper) -> bool {
    !is_developer_type(input.developer_type@) || trimmed(input.display_name@).len() == 0
        || trimmed(input.display_name@).len() > 120
}

/// Checks a Developer creation body and gives its trimmed display name.
pub fn developer_display_name(input: &CreateDeveloper) -> (name: Result<String, ServiceError>)
    ensures
        developer_input_refused(*input) ==> name == Err::<String, ServiceError>(
            ServiceError::DeveloperInputInvalid,
        ),
        !developer_input_refused(*input) ==> (name matches Ok(n) && n@ == trimmed(
            input.display_name@,
        )),
{
    let name = trim(input.display_name.as_str());
    let count = name.unicode_len();
    if !valid_developer_type(input.developer_type.as_str()) || count == 0 || count
        > MAX_DISPLAY_NAME_CHARS {
        return Err(ServiceError::DeveloperInputInvalid);
    }
    Ok(message(name))
}

/// A creation request body is refused: unknown type, or a blank name or reason.
pub open spec fn creation_request_refused(input: CreateCreationRequest) -> bool {
    !is_developer_type(input.requested_developer_type@) || trimmed(
        input.requested_display_name@,
    ).len() == 0 || trimmed(input.reason@).len() == 0
}

/// Checks a creation request body and gives its trimmed display name and reason.
pub fn creation_request_fields(input: &CreateCreationRequest) -> (fields: Result<
    (String, String),
    ServiceError,
>)
    ensures
        creation_request_refused(*input) ==> fields == Err::<(String, String), ServiceError>(
            ServiceError::RequestInvalid,
        ),
        !creation_request_refused(*input) ==> (fields matches Ok((name, reason)) && name@
            == trimmed(input.requested_display_name@) && reason@ == trimmed(input.reason@)),
{
    let name = trim(input.requested_display_name.as_str());
    let reason = trim(input.reason.as_str());
    if !valid_developer_type(input.requested_developer_type.as_str()) || name.unicode_len() == 0
        || reason.unicode_len() == 0 {
        return Err(ServiceError::RequestInvalid);
    }
    Ok((message(name), message(reason)))
}

/// A verification status an admin may set: `pending`, `verified` or `rejected`.
pub open spec fn is_verification_status(value: Seq<char>) -> bool {
    value == "pending"@ || value == "verified"@ || value == "rejected"@
}

/// Checks a verification status change.
pub fn verification_status_check(status: &str) -> (result: Result<(), ServiceError>)
    ensures
        result == if is_verification_status(status@) {
            Ok::<(), ServiceError>(())
        } else {
            Err(ServiceError::StatusInvalid)
        },
{
    if text_is(status, "pending") || text_is(status, "verified") || text_is(status, "rejected") {
        Ok(())
    } else {
        Err(ServiceError::StatusInvalid)
    }
}

/// A review is refused when it rejects without a non-empty reason.
pub open spec fn review_refused(status: Seq<char>, rejection_reason: Option<String>) -> bool {
    status == "rejected"@ && (rejection_reason is None || rejection_reason->0@.len() == 0)
}

/// Checks a creation request review: a rejection needs a reason.
pub fn review_check(status: &str, rejection_reason: &Option<String>) -> (result: Result<
    (),
    ServiceError,
>)
    ensures
        result == if review_refused(status@, *rejection_reason) {
            Err(ServiceError::RejectionReasonRequired)
        } else {
            Ok::<(), ServiceError>(())
        },
{
    if text_is(status, "rejected") {
        let missing = match rejection_reason {
            None => true,
            Some(reason) => reason.as_str().unicode_len() == 0,
        };
        if missing {
            return Err(ServiceError::RejectionReasonRequired);
        }
    }
    Ok(())
}

/// Checks a revocation body and gives its trimmed reason.
pub fn revocation_reason(input: &RevokeInput) -> (reason: Result<String, ServiceError>)
    ensures
        trimmed(input.reason@).len() == 0 ==> reason == Err::<String, ServiceError>(
            ServiceError::RevocationReasonRequired,
        ),
        trimmed(input.reason@).len() > 0 ==> (reason matches Ok(r) && r@ == trimmed(
            input.reason@,
        )),
{
    let reason = trim(input.reason.as_str());
    if reason.unicode_len() == 0 {
        return Err(ServiceError::RevocationReasonRequired);
    }
    Ok(message(reason))
}

/// The reason code of a revocation: the one given, else `unspecified`.
pub fn revocation_reason_code(code: Option<RevocationReasonCode>) -> (chosen: RevocationReasonCode)
    ensures
        chosen == match code {
            Some(c) => c,
            None => RevocationReasonCode::Unspecified,
        },
{
    match code {
        Some(c) => c,
        None => RevocationReasonCode::Unspecified,
    }
}

/// Only an active certificate can be revoked.
pub fn revocable(certificate: &CertificateRow) -> (result: Result<(), ServiceError>)
    ensures
        result == if certificate.status@ == "active"@ {
            Ok::<(), ServiceError>(())
        } else {
            Err(ServiceError::CertificateNotActive)
        },
{
    if text_is(certificate.status.as_str(), "active") {
        Ok(())
    } else {
        Err(ServiceError::CertificateNotActive)
    }
}

/// An admin action goes ahead only when its token had not been used before.
pub fn admin_action_check(first_use: bool) -> (result: Result<(), ServiceError>)
    ensures
        result == if first_use {
            Ok::<(), ServiceError>(())
        } else {
            Err(ServiceError::AdminTokenReplayed)
        },
{
    if first_use {
        Ok(())
    } else {
        Err(ServiceError::AdminTokenReplayed)
    }
}

// ---------------------------------------------------------------------------
// Membership changes
// ---------------------------------------------------------------------------

/// An actor may add a member with `role`: it manages members, the role is
/// known, and only an owner adds an owner.
pub open spec fn addition_allowed(actor_role: Seq<char>, role: Seq<char>) -> bool {
    manages(actor_role) && is_role(role) && !(role == "owner"@ && actor_role != "owner"@)
}

/// Checks a membership addition by an actor of `actor_role`.
pub fn member_addition_check(actor_role: &str, role: &str) -> (result: Result<(), ServiceError>)
    ensures
        result == if addition_allowed(actor_role@, role@) {
            Ok::<(), ServiceError>(())
        } else {
            Err(ServiceError::MemberChangeForbidden)
        },
{
    if !can_manage(actor_role) || !valid_role(role) || (text_is(role, "owner") && !text_is(
        actor_role,
        "owner",
    )) {
        return Err(ServiceError::MemberChangeForbidden);
    }
    Ok(())
}

/// The position of the first member with this ID.
pub open spec fn first_member(members: Seq<Member>, member_id: Seq<char>) -> Option<int>
    decreases members.len(),
{
    if members.len() == 0 {
        None
    } else {
        match first_member(members.drop_last(), member_id) {
            Some(i) => Some(i),
            None => if members.last().id@ == member_id {
                Some(members.len() - 1)
            } else {
                None
            },
        }
    }
}

/// Finds the first member with this ID.
pub fn find_member(members: &Vec<Member>, member_id: &str) -> (found: Option<usize>)
    ensures
        match first_member(members@, member_id@) {
            Some(i) => found is Some && found->0 as int == i,
            None => found is None,
        },
{
    let mut i: usize = 0;
    while i < members.len()
        invariant
            i <= members@.len(),
            first_member(members@.take(i as int), member_id@) is None,
        decreases members@.len() - i,
    {
        assert(members@.take(i + 1).drop_last() =~= members@.take(i as int));
        if text_is(members[i].id.as_str(), member_id) {
            proof {
                lemma_first_member_prefix(members@, member_id@, i + 1);
            }
            return Some(i);
        }
        i = i + 1;
    }
    assert(members@.take(i as int) =~= members@);
    None
}

/// The first member with an ID has that ID; when there is none, no member has it.
pub proof fn lemma_first_member(members: Seq<Member>, member_id: Seq<char>)
    ensures
        match first_member(members, member_id) {
            Some(i) => 0 <= i < members.len() && members[i].id@ == member_id && forall|j: int|
                0 <= j < i ==> (#[trigger] members[j]).id@ != member_id,
            None => forall|j: int| 0 <= j < members.len() ==> (#[trigger] members[j]).id@ != member_id,
        },
    decreases members.len(),
{
    if members.len() > 0 {
        lemma_first_member(members.drop_last(), member_id);
        assert forall|j: int| 0 <= j < members.len() - 1 implies members[j] == members.drop_last()[j] by {}
    }
}

/// A member found in a prefix is the first in the whole list.
proof fn lemma_first_member_prefix(members: Seq<Member>, member_id: Seq<char>, n: int)
    requires
        0 <= n <= members.len(),
        first_member(members.take(n), member_id) is Some,
    ensures
        first_member(members, member_id) == first_member(members.take(n), member_id),
    decreases members.len() - n,
{
    if n < members.len() {
        assert(members.take(n + 1).drop_last() =~= members.take(n));
        lemma_first_member_prefix(members, member_id, n + 1);
    } else {
        assert(members.take(n) =~= members);
    }
}

/// An actor may apply a change to a member of `target_role`: it manages members,
/// only an owner touches ownership, and the new role and status are known.
pub open spec fn update_allowed(actor_role: Seq<char>, target_role: Seq<char>, input: UpdateMember) -> bool {
    let ownership_change = target_role == "owner"@ || (input.role is Some && input.role->0@
        == "owner"@);
    &&& manages(actor_role)
    &&& !(ownership_change && actor_role != "owner"@)
    &&& (input.role is Some ==> is_role(input.role->0@))
    &&& (input.status is Some ==> is_member_status(input.status->0@))
}

/// Only an owner changes an owner's membership or makes someone an owner, and
/// only an owner or admin changes any membership.
pub proof fn lemma_only_owner_touches_ownership(
    actor_role: Seq<char>,
    target_role: Seq<char>,
    input: UpdateMember,
)
    requires
        actor_role != "owner"@,
        target_role == "owner"@ || (input.role is Some && input.role->0@ == "owner"@)
            || !manages(actor_role),
    ensures
        !update_allowed(actor_role, target_role, input),
        !removal_allowed(actor_role, target_role) || target_role != "owner"@,
{
}

/// Finds the member a change is for and checks the actor may make it.
pub fn member_update_target(
    actor_role: &str,
    members: &Vec<Member>,
    member_id: &str,
    input: &UpdateMember,
) -> (target: Result<usize, ServiceError>)
    ensures
        match first_member(members@, member_id@) {
            None => target == Err::<usize, ServiceError>(ServiceError::MemberNotFound),
            Some(i) => if update_allowed(actor_role@, members@[i].role@, *input) {
                target == Ok::<usize, ServiceError>(i as usize)
            } else {
                target == Err::<usize, ServiceError>(ServiceError::MemberUpdateForbidden)
            },
        },
{
    let index = match find_member(members, member_id) {
        Some(i) => i,
        None => return Err(ServiceError::MemberNotFound),
    };
    proof {
        lemma_first_member(members@, member_id@);
        assert(members@.len() == members.len());
    }
    let target_role = members[index].role.as_str();
    let ownership_change = text_is(target_role, "owner") || option_text_is(&input.role, "owner");
    let role_known = match &input.role {
        Some(role) => valid_role(role.as_str()),
        None => true,
    };
    let status_known = match &input.status {
        Some(status) => valid_member_status(status.as_str()),
        None => true,
    };
    if !can_manage(actor_role) || (ownership_change && !text_is(actor_role, "owner")) || !role_known
        || !status_known {
        return Err(ServiceError::MemberUpdateForbidden);
    }
    Ok(index)
}

/// An actor may remove a member of `target_role`: it manages members, and only
/// an owner removes an owner.
pub open spec fn removal_allowed(actor_role: Seq<char>, target_role: Seq<char>) -> bool {
    manages(actor_role) && !(target_role == "owner"@ && actor_role != "owner"@)
}

/// Finds the member a removal is for and checks the actor may remove it.
pub fn member_removal_target(actor_role: &str, members: &Vec<Member>, member_id: &str) -> (target:
    Result<usize, ServiceError>)
    ensures
        match first_member(members@, member_id@) {
            None => target == Err::<usize, ServiceError>(ServiceError::MemberNotFound),
            Some(i) => if removal_allowed(actor_role@, members@[i].role@) {
                target == Ok::<usize, ServiceError>(i as usize)
            } else {
                target == Err::<usize, ServiceError>(ServiceError::MemberRemovalForbidden)
            },
        },
{
    let index = match find_member(members, member_id) {
        Some(i) => i,
        None => return Err(ServiceError::MemberNotFound),
    };
    proof {
        lemma_first_member(members@, member_id@);
        assert(members@.len() == members.len());
    }
    if !can_manage(actor_role) || (text_is(members[index].role.as_str(), "owner") && !text_is(
        actor_role,
        "owner",
    )) {
        return Err(ServiceError::MemberRemovalForbidden);
    }
    Ok(index)
}

/// Checks that the caller's role may register certificates.
pub fn certificate_role_check(role: &str) -> (result: Result<(), ServiceError>)
    ensures
        result == if requests_certificates(role@) {
            Ok::<(), ServiceError>(())
        } else {
            Err(ServiceError::CertificateRoleForbidden)
        },
{
    if can_request_certificate(role) {
        Ok(())
    } else {
        Err(ServiceError::CertificateRoleForbidden)
    }
}

// ---------------------------------------------------------------------------
// Laws of membership changes and creation requests
// ---------------------------------------------------------------------------

/// A member change goes ahead only for an owner or admin, names a member that
/// exists, sets only a known role (`owner`, `admin`, `developer` or `viewer`)
/// and a known status (`active`, `invited`, `suspended` or `removed`), and
/// touches ownership only when the actor is an owner.
pub proof fn lemma_member_update_allowed_changes(
    actor_role: &str,
    members: &Vec<Member>,
    member_id: &str,
    input: &UpdateMember,
    target: Result<usize, ServiceError>,
)
    requires
        call_ensures(member_update_target, (actor_role, members, member_id, input), target),
        target is Ok,
    ensures
        target->Ok_0 < members@.len(),
        members@[target->Ok_0 as int].id@ == member_id@,
        actor_role@ == "owner"@ || actor_role@ == "admin"@,
        input.role is Some ==> input.role->0@ == "owner"@ || input.role->0@ == "admin"@
            || input.role->0@ == "developer"@ || input.role->0@ == "viewer"@,
        input.status is Some ==> input.status->0@ == "active"@ || input.status->0@ == "invited"@
            || input.status->0@ == "suspended"@ || input.status->0@ == "removed"@,
        (members@[target->Ok_0 as int].role@ == "owner"@ || (input.role is Some
            && input.role->0@ == "owner"@)) ==> actor_role@ == "owner"@,
{
    lemma_first_member(members@, member_id@);
    match first_member(members@, member_id@) {
        Some(i) => {
            assert(members@.len() == members.len());
            assert(target == Ok::<usize, ServiceError>(i as usize));
            assert(target->Ok_0 as int == i);
        },
        None => {},
    }
}

/// A creation request is accepted only with a known Developer type and a
/// display name and reason that are not blank; what comes back are the
/// trimmed display name and reason.
pub proof fn lemma_creation_request_fields_not_blank(
    input: &CreateCreationRequest,
    fields: Result<(String, String), ServiceError>,
)
    requires
        call_ensures(creation_request_fields, (input,), fields),
        fields is Ok,
    ensures
        fields->Ok_0.0@.len() > 0,
        fields->Ok_0.1@.len() > 0,
        fields->Ok_0.0@ == trimmed(input.requested_display_name@),
        fields->Ok_0.1@ == trimmed(input.reason@),
        input.requested_developer_type@ == "individual"@ || input.requested_developer_type@
            == "organization"@,
{
}

/// A Developer is created only with a known type and a display name that is
/// not blank and at most 120 characters once trimmed.
pub proof fn lemma_developer_display_name_accepted(
    input: &CreateDeveloper,
    name: Result<String, ServiceError>,
)
    requires
        call_ensures(developer_display_name, (input,), name),
        name is Ok,
    ensures
        0 < name->Ok_0@.len() <= 120,
        name->Ok_0@ == trimmed(input.display_name@),
        input.developer_type@ == "individual"@ || input.developer_type@ == "organization"@,
{
}

/// A member is added only by an owner or admin, with a known role, and as an
/// owner only by an owner.
pub proof fn lemma_member_addition_allowed(
    actor_role: &str,
    role: &str,
    result: Result<(), ServiceError>,
)
    requires
        call_ensures(member_addition_check, (actor_role, role), result),
        result is Ok,
    ensures
        actor_role@ == "owner"@ || actor_role@ == "admin"@,
        role@ == "owner"@ || role@ == "admin"@ || role@ == "developer"@ || role@ == "viewer"@,
        role@ == "owner"@ ==> actor_role@ == "owner"@,
{
}

/// A member is removed only by an owner or admin, names a member that exists,
/// and an owner is removed only by an owner.
pub proof fn lemma_member_removal_allowed(
    actor_role: &str,
    members: &Vec<Member>,
    member_id: &str,
    target: Result<usize, ServiceError>,
)
    requires
        call_ensures(member_removal_target, (actor_role, members, member_id), target),
        target is Ok,
    ensures
        target->Ok_0 < members@.len(),
        members@[target->Ok_0 as int].id@ == member_id@,
        actor_role@ == "owner"@ || actor_role@ == "admin"@,
        members@[target->Ok_0 as int].role@ == "owner"@ ==> actor_role@ == "owner"@,
{
    lemma_first_member(members@, member_id@);
    match first_member(members@, member_id@) {
        Some(i) => {
            assert(members@.len() == members.len());
            assert(target == Ok::<usize, ServiceError>(i as usize));
            assert(target->Ok_0 as int == i);
        },
        None => {},
    }
}

/// A revocation goes ahead only with a reason that is not blank; the reason
/// kept is the trimmed one.
pub proof fn lemma_revocation_reason_not_blank(input: &RevokeInput, reason: Result<String, ServiceError>)
    requires
        call_ensures(revocation_reason, (input,), reason),
        reason is Ok,
    ensures
        reason->Ok_0@.len() > 0,
        reason->Ok_0@ == trimmed(input.reason@),
{
}

/// Only `pending`, `verified` and `rejected` are accepted verification
/// statuses, a rejecting review carries a non-empty reason, and only owners,
/// admins and developers register certificates.
pub proof fn lemma_status_review_and_role_checks(
    status: &str,
    status_result: Result<(), ServiceError>,
    rejection_reason: &Option<String>,
    review_result: Result<(), ServiceError>,
    role: &str,
    role_result: Result<(), ServiceError>,
)
    requires
        call_ensures(verification_status_check, (status,), status_result),
        call_ensures(review_check, (status, rejection_reason), review_result),
        call_ensures(certificate_role_check, (role,), role_result),
    ensures
        status_result is Ok ==> status@ == "pending"@ || status@ == "verified"@ || status@
            == "rejected"@,
        review_result is Ok && status@ == "rejected"@ ==> (rejection_reason matches Some(r)
            && r@.len() > 0),
        role_result is Ok ==> role@ == "owner"@ || role@ == "admin"@ || role@ == "developer"@,
{
}

} // verus!
