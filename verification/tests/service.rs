use mochios_developer_ca::model::{
    CertificateRow, CreateCreationRequest, CreateDeveloper, Member, RevocationReasonCode,
    RevokeInput, UpdateMember,
};
use mochios_developer_ca::service::{
    admin_action_check, can_manage, can_request_certificate, certificate_role_check,
    creation_request_fields, developer_display_name, find_member, member_addition_check,
    member_removal_target, member_update_target, revocable, revocation_reason,
    revocation_reason_code, review_check, valid_developer_type, valid_member_status, valid_role,
    verification_status_check, ServiceError,
};

fn member(id: &str, role: &str) -> Member {
    Member {
        id: id.into(),
        developer_id: "developer-1".into(),
        account_id: format!("account-{id}"),
        role: role.into(),
        status: "active".into(),
        created_at: 1,
        updated_at: 1,
    }
}

fn row(status: &str) -> CertificateRow {
    CertificateRow {
        id: "certificate-1".into(),
        certificate_request_id: "request-1".into(),
        developer_id: "developer-1".into(),
        serial_number: "42".into(),
        issuer_key_id: "aa".into(),
        subject_key_id: "bb".into(),
        certificate_json: "AAAA".into(),
        not_before: 100,
        not_after: 200,
        status: status.into(),
        created_at: 100,
    }
}

#[test]
fn roles_and_statuses_are_closed_sets() {
    assert!(valid_developer_type("individual") && valid_developer_type("organization"));
    assert!(!valid_developer_type("company"));
    for role in ["owner", "admin", "developer", "viewer"] {
        assert!(valid_role(role));
    }
    assert!(!valid_role("Owner"));
    for status in ["active", "invited", "suspended", "removed"] {
        assert!(valid_member_status(status));
    }
    assert!(!valid_member_status("deleted"));
    assert!(can_manage("owner") && can_manage("admin") && !can_manage("developer"));
    assert!(can_request_certificate("developer") && !can_request_certificate("viewer"));
}

#[test]
fn developer_names_are_trimmed_and_bounded() {
    let input = CreateDeveloper {
        developer_type: "individual".into(),
        display_name: "  Mochi Labs \n".into(),
        creation_request_id: None,
    };
    assert_eq!(developer_display_name(&input), Ok("Mochi Labs".to_string()));
    let long = CreateDeveloper { display_name: "é".repeat(120), ..input.clone() };
    assert_eq!(developer_display_name(&long), Ok("é".repeat(120)));
    let too_long = CreateDeveloper { display_name: "é".repeat(121), ..input.clone() };
    assert_eq!(developer_display_name(&too_long), Err(ServiceError::DeveloperInputInvalid));
    let blank = CreateDeveloper { display_name: " \t ".into(), ..input.clone() };
    assert_eq!(developer_display_name(&blank), Err(ServiceError::DeveloperInputInvalid));
    let unknown = CreateDeveloper { developer_type: "team".into(), ..input };
    assert_eq!(developer_display_name(&unknown), Err(ServiceError::DeveloperInputInvalid));
}

#[test]
fn creation_requests_need_type_name_and_reason() {
    let input = CreateCreationRequest {
        requested_display_name: " Second ".into(),
        requested_developer_type: "organization".into(),
        reason: " separate team ".into(),
    };
    assert_eq!(
        creation_request_fields(&input),
        Ok(("Second".to_string(), "separate team".to_string()))
    );
    let no_reason = CreateCreationRequest { reason: "  ".into(), ..input };
    assert_eq!(creation_request_fields(&no_reason), Err(ServiceError::RequestInvalid));
}

#[test]
fn only_owners_add_owners() {
    assert_eq!(member_addition_check("owner", "owner"), Ok(()));
    assert_eq!(member_addition_check("admin", "developer"), Ok(()));
    assert_eq!(member_addition_check("admin", "owner"), Err(ServiceError::MemberChangeForbidden));
    assert_eq!(member_addition_check("developer", "viewer"), Err(ServiceError::MemberChangeForbidden));
    assert_eq!(member_addition_check("owner", "root"), Err(ServiceError::MemberChangeForbidden));
}

#[test]
fn membership_changes_find_the_first_member_and_guard_ownership() {
    let members = vec![member("m1", "owner"), member("m2", "developer"), member("m2", "viewer")];
    assert_eq!(find_member(&members, "m2"), Some(1));
    assert_eq!(find_member(&members, "m9"), None);
    let promote = UpdateMember { role: Some("owner".into()), status: None };
    let demote = UpdateMember { role: Some("viewer".into()), status: None };
    let suspend = UpdateMember { role: None, status: Some("suspended".into()) };
    assert_eq!(member_update_target("owner", &members, "m2", &promote), Ok(1));
    assert_eq!(member_update_target("admin", &members, "m2", &promote), Err(ServiceError::MemberUpdateForbidden));
    assert_eq!(member_update_target("admin", &members, "m1", &suspend), Err(ServiceError::MemberUpdateForbidden));
    assert_eq!(member_update_target("admin", &members, "m2", &demote), Ok(1));
    assert_eq!(member_update_target("developer", &members, "m2", &demote), Err(ServiceError::MemberUpdateForbidden));
    assert_eq!(member_update_target("owner", &members, "m9", &demote), Err(ServiceError::MemberNotFound));
    let unknown = UpdateMember { role: None, status: Some("gone".into()) };
    assert_eq!(member_update_target("owner", &members, "m2", &unknown), Err(ServiceError::MemberUpdateForbidden));
    assert_eq!(member_removal_target("owner", &members, "m1"), Ok(0));
    assert_eq!(member_removal_target("admin", &members, "m1"), Err(ServiceError::MemberRemovalForbidden));
    assert_eq!(member_removal_target("admin", &members, "m2"), Ok(1));
    assert_eq!(member_removal_target("admin", &members, "m3"), Err(ServiceError::MemberNotFound));
}

#[test]
fn admin_inputs_are_checked() {
    assert_eq!(verification_status_check("verified"), Ok(()));
    assert_eq!(verification_status_check("approved"), Err(ServiceError::StatusInvalid));
    assert_eq!(review_check("approved", &None), Ok(()));
    assert_eq!(review_check("rejected", &Some("duplicate".into())), Ok(()));
    assert_eq!(review_check("rejected", &Some(String::new())), Err(ServiceError::RejectionReasonRequired));
    assert_eq!(review_check("rejected", &None), Err(ServiceError::RejectionReasonRequired));
    assert_eq!(admin_action_check(true), Ok(()));
    assert_eq!(admin_action_check(false), Err(ServiceError::AdminTokenReplayed));
}

#[test]
fn revocations_need_a_reason_and_an_active_certificate() {
    let input = RevokeInput { reason: "  leaked key ".into(), reason_code: None };
    assert_eq!(revocation_reason(&input), Ok("leaked key".to_string()));
    assert_eq!(revocation_reason(&RevokeInput { reason: " ".into(), reason_code: None }), Err(ServiceError::RevocationReasonRequired));
    assert_eq!(revocation_reason_code(None), RevocationReasonCode::Unspecified);
    assert_eq!(revocation_reason_code(Some(RevocationReasonCode::KeyCompromise)), RevocationReasonCode::KeyCompromise);
    assert_eq!(revocation_reason_code(None).as_str(), "unspecified");
    assert_eq!(revocable(&row("active")), Ok(()));
    assert_eq!(revocable(&row("revoked")), Err(ServiceError::CertificateNotActive));
    assert_eq!(certificate_role_check("developer"), Ok(()));
    assert_eq!(certificate_role_check("viewer"), Err(ServiceError::CertificateRoleForbidden));
}

#[test]
fn errors_carry_code_message_and_status() {
    let cases = [
        (ServiceError::Unauthenticated, "UNAUTHENTICATED", "Active Accounts session required", 401),
        (ServiceError::DeveloperInputInvalid, "DEVELOPER_INPUT_INVALID", "Developer type or display name is invalid", 422),
        (ServiceError::DeveloperLimitReached, "DEVELOPER_LIMIT_REACHED", "An approved unused request is required for another Developer", 403),
        (ServiceError::MembershipRequired, "FORBIDDEN", "Active membership required", 403),
        (ServiceError::DeveloperNotFound, "DEVELOPER_NOT_FOUND", "Developer not found", 404),
        (ServiceError::MemberChangeForbidden, "FORBIDDEN", "Insufficient role for membership change", 403),
        (ServiceError::AccountInactive, "ACCOUNT_INACTIVE", "Target Account must be active", 422),
        (ServiceError::MemberNotFound, "MEMBER_NOT_FOUND", "Member not found", 404),
        (ServiceError::MemberUpdateForbidden, "FORBIDDEN", "Insufficient role or invalid membership change", 403),
        (ServiceError::MemberRemovalForbidden, "FORBIDDEN", "Insufficient role", 403),
        (ServiceError::LastOwnerRequired, "LAST_OWNER_REQUIRED", "Developer must retain an active owner", 409),
        (ServiceError::RequestInvalid, "REQUEST_INVALID", "Display name, type, and reason are required", 422),
        (ServiceError::CertificateRoleForbidden, "FORBIDDEN", "Role cannot request certificates", 403),
        (ServiceError::CertificateInvalid("bad signature".into()), "CERTIFICATE_INVALID", "bad signature", 422),
        (ServiceError::CertificateDeveloperMismatch, "CERTIFICATE_DEVELOPER_MISMATCH", "Certificate developer ID does not match", 422),
        (ServiceError::RootKeyUnavailable, "ROOT_KEY_UNAVAILABLE", "Root public key is unavailable", 503),
        (ServiceError::CertificateIssuerUnknown, "CERTIFICATE_ISSUER_UNKNOWN", "Certificate issuer is not trusted", 422),
        (ServiceError::DeveloperNotEligible, "DEVELOPER_NOT_ELIGIBLE", "Developer must be active, verified, and registered by an eligible member", 409),
        (ServiceError::CertificateNotFound, "CERTIFICATE_NOT_FOUND", "Certificate not found", 404),
        (ServiceError::AdminAuthRequired, "ADMIN_AUTH_REQUIRED", "Admin authentication required", 401),
        (ServiceError::StatusInvalid, "STATUS_INVALID", "Invalid verification status", 422),
        (ServiceError::AdminTokenReplayed, "ADMIN_TOKEN_REPLAYED", "Admin token was already used", 409),
        (ServiceError::RejectionReasonRequired, "REJECTION_REASON_REQUIRED", "Rejection reason required", 422),
        (ServiceError::RevocationReasonRequired, "REVOCATION_REASON_REQUIRED", "Revocation reason required", 422),
        (ServiceError::CertificateNotActive, "CERTIFICATE_NOT_ACTIVE", "Certificate is not active", 409),
    ];
    for (error, code, message, status) in cases {
        assert_eq!(error.code(), code);
        assert_eq!(error.message(), message);
        assert_eq!(error.status(), status);
    }
}
