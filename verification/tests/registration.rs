use sha2::Digest;
use mochios_developer_ca::certificate::{encode_base64, hex};
use mochios_developer_ca::model::{CertificateRow, Developer, Revocation};
use mochios_developer_ca::registration::{
    certificate_status, developer_match, mcer_key_id, parse_u64,
    registered_certificate, registration_outcome, registration_wire, revoked_serials,
    trusted_root, CertificateFacts, StatusReason,
};
use mochios_developer_ca::service::ServiceError;

fn sha256(data: &[u8]) -> [u8; 32] {
    sha2::Sha256::digest(data).into()
}

fn public_key(seed: &[u8; 32]) -> [u8; 32] {
    ed25519_dalek::SigningKey::from_bytes(seed).verifying_key().to_bytes()
}


fn facts() -> CertificateFacts {
    CertificateFacts {
        developer_id: "org.mochios.developer.example".into(),
        serial_number: 42,
        issuer_key_id: [1; 32],
        subject_key_id: [2; 32],
        not_before: 100,
        not_after: 200,
    }
}

fn developer(status: &str, verification: &str) -> Developer {
    Developer {
        id: "developer-1".into(),
        certificate_developer_id: "org.mochios.developer.example".into(),
        developer_type: "individual".into(),
        display_name: "Example".into(),
        status: status.into(),
        verification_status: verification.into(),
        created_at: 1,
        updated_at: 1,
    }
}

fn row() -> CertificateRow {
    CertificateRow {
        id: "certificate-1".into(),
        certificate_request_id: "request-1".into(),
        developer_id: "org.mochios.developer.example".into(),
        serial_number: "42".into(),
        issuer_key_id: hex(&[1; 32]),
        subject_key_id: hex(&[2; 32]),
        certificate_json: "AAAA".into(),
        not_before: 100,
        not_after: 200,
        status: "active".into(),
        created_at: 100,
    }
}

fn revocation(serial: &str) -> Revocation {
    Revocation {
        id: format!("revocation-{serial}"),
        certificate_id: "certificate-1".into(),
        serial_number: serial.into(),
        reason: "leaked".into(),
        reason_code: "key_compromise".into(),
        revoked_by_account_id: "admin".into(),
        revoked_at: 150,
    }
}

#[test]
fn valid_certificates_pass_every_check() {
    let active = Some(developer("active", "verified"));
    assert_eq!(certificate_status(&row(), false, &active, &Some(facts()), Some(true), 150), StatusReason::Valid);
    assert!(StatusReason::Valid.is_valid());
    assert_eq!(StatusReason::Valid.as_str(), "VALID");
}

#[test]
fn status_checks_come_in_order() {
    let active = Some(developer("active", "verified"));
    let decoded = Some(facts());
    let mut revoked = row();
    revoked.status = "revoked".into();
    assert_eq!(certificate_status(&revoked, false, &active, &decoded, Some(true), 150), StatusReason::CertificateRevoked);
    assert_eq!(certificate_status(&row(), true, &active, &decoded, Some(true), 150), StatusReason::CertificateRevoked);
    let mut pending = row();
    pending.status = "pending".into();
    assert_eq!(certificate_status(&pending, false, &active, &decoded, Some(true), 150), StatusReason::MetadataMismatch);
    assert_eq!(certificate_status(&row(), false, &active, &decoded, Some(true), 200), StatusReason::CertificateExpired);
    assert_eq!(certificate_status(&row(), false, &None, &decoded, Some(true), 150), StatusReason::MetadataMismatch);
    assert_eq!(
        certificate_status(&row(), false, &Some(developer("suspended", "verified")), &decoded, Some(true), 150),
        StatusReason::DeveloperSuspended
    );
    assert_eq!(
        certificate_status(&row(), false, &Some(developer("active", "pending")), &decoded, Some(true), 150),
        StatusReason::DeveloperNotVerified
    );
    assert_eq!(certificate_status(&row(), false, &active, &None, Some(true), 150), StatusReason::SignatureInvalid);
    let mut other_serial = facts();
    other_serial.serial_number = 43;
    assert_eq!(certificate_status(&row(), false, &active, &Some(other_serial), Some(true), 150), StatusReason::MetadataMismatch);
    assert_eq!(certificate_status(&row(), false, &active, &decoded, None, 150), StatusReason::IssuerUnknown);
    assert_eq!(certificate_status(&row(), false, &active, &decoded, Some(false), 150), StatusReason::SignatureInvalid);
    let mut longer_row = row();
    longer_row.not_after = 300;
    let mut longer_facts = facts();
    longer_facts.not_after = 300;
    assert_eq!(
        certificate_status(&longer_row, false, &active, &Some(longer_facts), Some(false), 300 - 1),
        StatusReason::SignatureInvalid
    );
    assert_eq!(StatusReason::CertificateRevoked.as_str(), "CERTIFICATE_REVOKED");
    assert_eq!(StatusReason::IssuerUnknown.as_str(), "ISSUER_UNKNOWN");
    assert!(!StatusReason::SignatureInvalid.is_valid());
}

#[test]
fn revoked_serials_are_numeric_sorted_and_unique() {
    let records = vec![
        revocation("42"),
        revocation("7"),
        revocation("+7"),
        revocation("abc"),
        revocation("18446744073709551616"),
        revocation("18446744073709551615"),
        revocation(""),
        revocation("-1"),
    ];
    assert_eq!(revoked_serials(&records), vec![7, 42, 18446744073709551615]);
    assert_eq!(revoked_serials(&vec![]), Vec::<u64>::new());
}

#[test]
fn numbers_parse_like_std() {
    for text in ["0", "+0", "007", "18446744073709551615", "+", "", "1 ", "-0", "18446744073709551616", "12a"] {
        assert_eq!(parse_u64(text), text.parse::<u64>().ok(), "{text}");
    }
}

#[test]
fn root_keys_are_found_by_sha256_key_id() {
    let key = public_key(&[3; 32]);
    let other = public_key(&[4; 32]);
    assert_eq!(mcer_key_id(&key), sha256(&key));
    let keys = Some(vec![other, key]);
    assert_eq!(trusted_root(&keys, &sha256(&key)), Ok(key));
    assert_eq!(trusted_root(&keys, &[0; 32]), Err(ServiceError::CertificateIssuerUnknown));
    assert_eq!(trusted_root(&None, &sha256(&key)), Err(ServiceError::RootKeyUnavailable));
}

#[test]
fn registration_wire_must_be_base64_within_the_limit() {
    let wire = vec![7u8; 10];
    assert_eq!(registration_wire(&format!(" {} ", encode_base64(&wire)), 10), Ok(wire.clone()));
    let message = ServiceError::CertificateInvalid("Certificate must be a Base64 MCER v1 value".into());
    assert_eq!(registration_wire(&encode_base64(&wire), 9), Err(message.clone()));
    assert_eq!(registration_wire("", 10), Err(message.clone()));
    assert_eq!(registration_wire("***", 10), Err(message));
}

#[test]
fn registrations_match_the_developer_and_record_their_values() {
    assert_eq!(developer_match(&facts(), &developer("active", "verified")), Ok(()));
    let mut other = facts();
    other.developer_id = "org.mochios.developer.other".into();
    assert_eq!(developer_match(&other, &developer("active", "verified")), Err(ServiceError::CertificateDeveloperMismatch));
    let record = registered_certificate(&facts(), b"wire");
    assert_eq!(record.serial, "42");
    assert_eq!(record.issuer, hex(&[1; 32]));
    assert_eq!(record.certificate_json, encode_base64(b"wire"));
    assert_eq!((record.not_before, record.not_after), (100, 200));
    assert_eq!(registration_outcome(Some(row())), Ok(row()));
    assert_eq!(registration_outcome(None), Err(ServiceError::DeveloperNotEligible));
}

#[test]
fn registered_rows_pass_their_own_metadata_check() {
    let record = registered_certificate(&facts(), b"wire");
    let stored = CertificateRow {
        serial_number: record.serial.clone(),
        issuer_key_id: record.issuer.clone(),
        not_before: record.not_before,
        not_after: record.not_after,
        ..row()
    };
    let active = Some(developer("active", "verified"));
    assert_eq!(certificate_status(&stored, false, &active, &Some(facts()), Some(true), 150), StatusReason::Valid);
}

#[test]
fn stored_serials_are_published_when_revoked() {
    let record = registered_certificate(&CertificateFacts { serial_number: 18446744073709551615, ..facts() }, b"wire");
    assert_eq!(revoked_serials(&vec![revocation(&record.serial)]), vec![18446744073709551615]);
}
