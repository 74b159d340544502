use mochios_developer_ca::certificate::encode_base64;
use mochios_developer_ca::model::{CertificateRow, Developer, Member, RevocationReasonCode, RevokeInput};
use mochios_developer_ca::registration::{mcer_key_id, registered_certificate, CertificateFacts};
use mochios_developer_ca::service::ServiceError;
use mochios_developer_ca::steps::{
    register_next, revoke_next, RegisterEvent, RegisterState, RevokeEvent, RevokeState,
};

fn row(status: &str) -> CertificateRow {
    CertificateRow {
        id: "certificate-1".into(),
        certificate_request_id: "request-1".into(),
        developer_id: "developer-1".into(),
        serial_number: "42".into(),
        issuer_key_id: "aa".into(),
        subject_key_id: "bb".into(),
        certificate_json: "AAAA".into(),
        not_before: 100,
        not_after: 200,
        status: status.into(),
        created_at: 100,
    }
}

fn member(role: &str) -> Member {
    Member {
        id: "member-1".into(),
        developer_id: "developer-1".into(),
        account_id: "account-1".into(),
        role: role.into(),
        status: "active".into(),
        created_at: 1,
        updated_at: 1,
    }
}

fn developer() -> Developer {
    Developer {
        id: "developer-1".into(),
        certificate_developer_id: "018f0000000070008000000000000001".into(),
        developer_type: "individual".into(),
        display_name: "Example".into(),
        status: "active".into(),
        verification_status: "verified".into(),
        created_at: 1,
        updated_at: 1,
    }
}

fn root_key() -> [u8; 32] {
    ed25519_dalek::SigningKey::from_bytes(&[3; 32]).verifying_key().to_bytes()
}

fn facts() -> CertificateFacts {
    CertificateFacts {
        developer_id: "018f0000000070008000000000000001".into(),
        serial_number: 42,
        issuer_key_id: mcer_key_id(&root_key()),
        subject_key_id: [2; 32],
        not_before: 100,
        not_after: 200,
    }
}

fn revoke_input(reason: &str) -> RevokeInput {
    RevokeInput { reason: reason.into(), reason_code: Some(RevocationReasonCode::KeyCompromise) }
}

fn revoke_run(events: Vec<RevokeEvent>) -> RevokeState {
    events.into_iter().fold(RevokeState::AwaitingAdmin, revoke_next)
}

#[test]
fn revocations_run_their_checks_in_order() {
    let reason = || RevokeState::AwaitingRevocation {
        reason: "key leaked".into(),
        reason_code: RevocationReasonCode::KeyCompromise,
    };
    assert_eq!(
        revoke_run(vec![
            RevokeEvent::Admin(true),
            RevokeEvent::Body(revoke_input("  key leaked ")),
            RevokeEvent::Certificate(Some(row("active"))),
            RevokeEvent::TokenUse(true),
        ]),
        reason()
    );
    assert_eq!(
        revoke_next(reason(), RevokeEvent::Revocation(Some(row("revoked")))),
        RevokeState::Done(Ok(row("revoked")))
    );
    assert_eq!(
        revoke_next(reason(), RevokeEvent::Revocation(None)),
        RevokeState::Done(Err(ServiceError::CertificateNotFound))
    );
}

#[test]
fn revocation_refusals_come_first_to_last() {
    assert_eq!(
        revoke_run(vec![RevokeEvent::Admin(false)]),
        RevokeState::Done(Err(ServiceError::AdminAuthRequired))
    );
    assert_eq!(
        revoke_run(vec![RevokeEvent::Admin(true), RevokeEvent::Body(revoke_input("   "))]),
        RevokeState::Done(Err(ServiceError::RevocationReasonRequired))
    );
    let checked = |found: Option<CertificateRow>| {
        revoke_run(vec![
            RevokeEvent::Admin(true),
            RevokeEvent::Body(RevokeInput { reason: "why".into(), reason_code: None }),
            RevokeEvent::Certificate(found),
        ])
    };
    assert_eq!(checked(None), RevokeState::Done(Err(ServiceError::CertificateNotFound)));
    assert_eq!(checked(Some(row("revoked"))), RevokeState::Done(Err(ServiceError::CertificateNotActive)));
    assert_eq!(
        checked(Some(row("active"))),
        RevokeState::AwaitingTokenUse { reason: "why".into(), reason_code: RevocationReasonCode::Unspecified }
    );
    assert_eq!(
        revoke_next(checked(Some(row("active"))), RevokeEvent::TokenUse(false)),
        RevokeState::Done(Err(ServiceError::AdminTokenReplayed))
    );
}

fn register_run(events: Vec<RegisterEvent>) -> RegisterState {
    events.into_iter().fold(RegisterState::AwaitingMember, register_next)
}

fn body(certificate: &str) -> RegisterEvent {
    RegisterEvent::Body { certificate: certificate.into(), max_len: 16 }
}

#[test]
fn registrations_store_only_after_every_check() {
    let wire = b"MCER".to_vec();
    let stored = register_run(vec![
        RegisterEvent::Member(Some(member("developer"))),
        body(&format!(" {} ", encode_base64(&wire))),
        RegisterEvent::Decoded(Ok(facts())),
        RegisterEvent::Developer(Some(developer())),
        RegisterEvent::RootKeys(Some(vec![[9; 32], root_key()])),
        RegisterEvent::Verified(Ok(())),
    ]);
    assert_eq!(
        stored,
        RegisterState::AwaitingStore { member: member("developer"), record: registered_certificate(&facts(), &wire) }
    );
    assert_eq!(
        register_next(stored, RegisterEvent::Stored(Some(row("active")))),
        RegisterState::Done(Ok(row("active")))
    );
}

#[test]
fn registration_refusals_come_first_to_last() {
    let wire = encode_base64(b"MCER");
    let done = |error: ServiceError| RegisterState::Done(Err(error));
    assert_eq!(register_run(vec![RegisterEvent::Member(None)]), done(ServiceError::MembershipRequired));
    assert_eq!(
        register_run(vec![RegisterEvent::Member(Some(member("viewer")))]),
        done(ServiceError::CertificateRoleForbidden)
    );
    let invalid = done(ServiceError::CertificateInvalid("Certificate must be a Base64 MCER v1 value".into()));
    assert_eq!(register_run(vec![RegisterEvent::Member(Some(member("owner"))), body("!!")]), invalid);
    assert_eq!(
        register_run(vec![RegisterEvent::Member(Some(member("owner"))), body(&encode_base64(&[0; 17]))]),
        invalid
    );
    let decoded = |decoded: Result<CertificateFacts, String>| {
        vec![RegisterEvent::Member(Some(member("admin"))), body(&wire), RegisterEvent::Decoded(decoded)]
    };
    assert_eq!(
        register_run(decoded(Err("bad magic".into()))),
        done(ServiceError::CertificateInvalid("bad magic".into()))
    );
    let mut events = decoded(Ok(facts()));
    events.push(RegisterEvent::Developer(None));
    assert_eq!(register_run(events), done(ServiceError::DeveloperNotFound));
    let mut other = developer();
    other.certificate_developer_id = "018f0000000070008000000000000002".into();
    let mut events = decoded(Ok(facts()));
    events.push(RegisterEvent::Developer(Some(other)));
    assert_eq!(register_run(events), done(ServiceError::CertificateDeveloperMismatch));
    let with_keys = |keys: Option<Vec<[u8; 32]>>| {
        let mut events = decoded(Ok(facts()));
        events.push(RegisterEvent::Developer(Some(developer())));
        events.push(RegisterEvent::RootKeys(keys));
        events
    };
    assert_eq!(register_run(with_keys(None)), done(ServiceError::RootKeyUnavailable));
    assert_eq!(register_run(with_keys(Some(vec![[9; 32]]))), done(ServiceError::CertificateIssuerUnknown));
    let mut events = with_keys(Some(vec![root_key()]));
    events.push(RegisterEvent::Verified(Err("certificate expired".into())));
    assert_eq!(register_run(events), done(ServiceError::CertificateInvalid("certificate expired".into())));
    let mut events = with_keys(Some(vec![root_key()]));
    events.push(RegisterEvent::Verified(Ok(())));
    events.push(RegisterEvent::Stored(None));
    assert_eq!(register_run(events), done(ServiceError::DeveloperNotEligible));
}
