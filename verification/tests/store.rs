use mochios_developer_ca::model::CertificateRow;
use mochios_developer_ca::store::{
    attempt_cutoffs, certificate_developer_id, issuer_status_column,
    claim_after_insert, claim_after_lookup, claim_after_reclaim, id, inspect_claim, issuer_row,
    issuer_status_text, reserved_serial, ClaimStep, IdempotencyRow, IssueClaim,
};
use mochios_developer_ca::trust::{IssuerRecord, IssuerStatus};
use uuid::Uuid;

fn certificate() -> CertificateRow {
    CertificateRow {
        id: "certificate-1".into(),
        certificate_request_id: "request-1".into(),
        developer_id: "developer-1".into(),
        serial_number: "42".into(),
        issuer_key_id: "aa".into(),
        subject_key_id: "bb".into(),
        certificate_json: "AAAA".into(),
        not_before: 100,
        not_after: 200,
        status: "active".into(),
        created_at: 100,
    }
}

fn pending(updated_at: i64) -> IdempotencyRow {
    IdempotencyRow {
        request_hash: "hash-1".into(),
        certificate_id: None,
        status: "pending".into(),
        updated_at,
    }
}

#[test]
fn generated_ids_are_uuid_v7_without_system_clock_access() {
    let parsed = Uuid::parse_str(&id(1_700_000_000)).unwrap();
    assert_eq!(parsed.get_version_num(), 7);
}

#[test]
fn ids_carry_the_timestamp_in_milliseconds() {
    let text = id(1_700_000_000);
    assert_eq!(text.len(), 36);
    let millis = u64::from_str_radix(&format!("{}{}", &text[0..8], &text[9..13]), 16).unwrap();
    assert_eq!(millis, 1_700_000_000_000);
    let before_epoch = id(-5);
    assert!(before_epoch.starts_with("00000000-0000-7"));
    assert_ne!(id(1_700_000_000), id(1_700_000_000));
}

#[test]
fn only_positive_serials_are_used() {
    assert_eq!(reserved_serial(7), Ok(7));
    assert_eq!(reserved_serial(0), Err("certificate serial range exhausted".into()));
    assert_eq!(reserved_serial(-3), Err("certificate serial range exhausted".into()));
}

#[test]
fn claims_follow_the_idempotency_row() {
    assert_eq!(claim_after_insert(true), Some(IssueClaim::Claimed));
    assert_eq!(claim_after_insert(false), None);
    assert_eq!(inspect_claim(&pending(1000), "hash-2", 1100), ClaimStep::Done(IssueClaim::Conflict));
    assert_eq!(inspect_claim(&pending(1000), "hash-1", 1100), ClaimStep::Done(IssueClaim::Pending));
    assert_eq!(inspect_claim(&pending(800), "hash-1", 1100), ClaimStep::Reclaim { stale_before: 800 });
    let complete = IdempotencyRow {
        certificate_id: Some("certificate-1".into()),
        status: "complete".into(),
        ..pending(1000)
    };
    assert_eq!(inspect_claim(&complete, "hash-1", 5000), ClaimStep::LookUpCertificate("certificate-1".into()));
    assert_eq!(
        claim_after_lookup(&complete, Some(certificate()), 5000),
        ClaimStep::Done(IssueClaim::Complete(Box::new(certificate())))
    );
    assert_eq!(claim_after_lookup(&complete, None, 1100), ClaimStep::Done(IssueClaim::Pending));
    assert_eq!(claim_after_lookup(&complete, None, 5000), ClaimStep::Reclaim { stale_before: 4700 });
    assert_eq!(claim_after_reclaim(true), IssueClaim::Claimed);
    assert_eq!(claim_after_reclaim(false), IssueClaim::Pending);
    assert_eq!(inspect_claim(&pending(i64::MIN), "hash-1", i64::MIN + 10), ClaimStep::Reclaim { stale_before: i64::MIN });
}

#[test]
fn issuer_rows_take_the_record_values() {
    let record = IssuerRecord {
        issuer_key_id: "ab".repeat(32),
        public_key: "key".into(),
        status: IssuerStatus::Retired,
        not_before: 90,
        not_after: 300,
        allowed_key_usages: vec!["revocation-signing".into()],
    };
    let row = issuer_row(&record, 4);
    assert_eq!(row.key_id, record.issuer_key_id);
    assert_eq!(row.status, "retired");
    assert_eq!((row.not_before, row.not_after, row.snapshot_version), (90, 300, 4));
    assert_eq!(issuer_status_text(IssuerStatus::Future), "future");
    assert_eq!(issuer_status_text(IssuerStatus::Active), "active");
    assert_eq!(issuer_status_text(IssuerStatus::Revoked), "revoked");
}

#[test]
fn certificate_developer_ids_drop_the_hyphens() {
    assert_eq!(
        certificate_developer_id("018f0000-0000-7000-8000-000000000001"),
        "018f0000000070008000000000000001"
    );
}

#[test]
fn attempt_windows_and_status_columns() {
    assert_eq!(attempt_cutoffs(100_000), (13_600, 96_400));
    assert_eq!(attempt_cutoffs(i64::MIN + 5), (i64::MIN, i64::MIN));
    assert_eq!(issuer_status_column("active"), Some("activated_at"));
    assert_eq!(issuer_status_column("retired"), Some("retired_at"));
    assert_eq!(issuer_status_column("revoked"), Some("revoked_at"));
    assert_eq!(issuer_status_column("future"), None);
}

#[test]
fn certificate_developer_ids_of_new_records_are_32_lowercase_hex_digits() {
    let body = certificate_developer_id(&id(1_700_000_000));
    assert_eq!(body.len(), 32);
    assert!(body.chars().all(|c| c.is_ascii_digit() || ('a'..='f').contains(&c)));
    assert_eq!(&body[12..13], "7");
}
