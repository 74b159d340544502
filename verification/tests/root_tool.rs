use mochios_developer_ca::certificate::encode_base64;
use mochios_developer_ca::root_tool::{
    admin_claims, admin_token_window, canonical_usages, issue_trust_snapshot, issuer_record, issuer_window,
    public_key_record, record_public_key, seed_from_text, PublicKeyRecord,
};
use mochios_developer_ca::token::validate_claims;
use mochios_developer_ca::trust::{key_id, IssuerStatus, TrustError};

fn public_key(seed: &[u8; 32]) -> [u8; 32] {
    ed25519_dalek::SigningKey::from_bytes(seed).verifying_key().to_bytes()
}


#[test]
fn creates_keys_and_issues_a_verifiable_snapshot_without_overwriting_secrets() {
    let root_seed = [21u8; 32];
    let root_public = public_key_record(&root_seed);
    let issuer = issuer_record(
        &[22u8; 32],
        IssuerStatus::Active,
        90,
        300,
        vec!["developer-certificate-signing".into(), "revocation-signing".into()],
    );
    let snapshot = issue_trust_snapshot(vec![issuer], 1, 100, 200, &root_seed).expect("issue snapshot");
    snapshot
        .verify(&record_public_key(&root_public).expect("root public key"), 150)
        .expect("verify snapshot");
}

#[test]
fn snapshots_list_issuers_in_key_id_order() {
    let usages = || vec!["developer-certificate-signing".to_string()];
    let first = issuer_record(&[31u8; 32], IssuerStatus::Active, 90, 300, usages());
    let second = issuer_record(&[32u8; 32], IssuerStatus::Future, 90, 300, usages());
    let snapshot = issue_trust_snapshot(vec![first.clone(), second.clone()], 1, 100, 200, &[21u8; 32])
        .expect("issue snapshot");
    let ids: Vec<String> = snapshot.content.issuers.iter().map(|issuer| issuer.issuer_key_id.clone()).collect();
    let mut expected = vec![first.issuer_key_id, second.issuer_key_id];
    expected.sort();
    assert_eq!(ids, expected);
    assert_eq!(snapshot.content.root_key_id, key_id(&public_key(&[21u8; 32])));
    let twice = issue_trust_snapshot(vec![issuer_record(&[31u8; 32], IssuerStatus::Active, 90, 300, usages()), issuer_record(&[31u8; 32], IssuerStatus::Active, 90, 300, usages())], 1, 100, 200, &[21u8; 32]);
    assert!(twice.is_err());
    assert_eq!(issue_trust_snapshot(vec![], 0, 100, 200, &[21u8; 32]).err(), Some(TrustError::InvalidVersion));
}

#[test]
fn key_records_check_their_key_id() {
    let record = public_key_record(&[5u8; 32]);
    assert_eq!(record_public_key(&record), Ok(public_key(&[5u8; 32])));
    let wrong = PublicKeyRecord { key_id: "0".repeat(64), ..record.clone() };
    assert_eq!(record_public_key(&wrong), Err("public key ID does not match public key".into()));
    let broken = PublicKeyRecord { public_key: "??".into(), ..record };
    assert_eq!(record_public_key(&broken), Err("invalid public key".into()));
}

#[test]
fn seeds_read_from_trimmed_base64() {
    let seed = [9u8; 32];
    assert_eq!(seed_from_text(&format!("{}\n", encode_base64(&seed))), Ok(seed));
    assert_eq!(seed_from_text("not base64"), Err("private key is not valid base64".into()));
    assert_eq!(seed_from_text(&encode_base64(&[9u8; 16])), Err("private key must contain a 32-byte seed".into()));
}

#[test]
fn issuer_windows_and_usages_are_canonical() {
    assert_eq!(issuer_window(90, 300), Ok(()));
    assert_eq!(issuer_window(300, 300), Err("not-before must precede not-after".into()));
    assert_eq!(
        canonical_usages(vec!["revocation-signing".into(), "developer-certificate-signing".into(), "revocation-signing".into()]),
        vec!["developer-certificate-signing".to_string(), "revocation-signing".to_string()]
    );
}

#[test]
fn admin_tokens_claim_the_reviewer_role() {
    let claims = admin_claims("018f0000-0000-7000-8000-000000000001", 100, 400, &[0xab; 16]);
    assert_eq!(claims.jti, "ab".repeat(16));
    assert_eq!(claims.aud, "developer-ca-admin");
    assert_eq!(claims.role, "developer_ca_reviewer");
    assert_eq!(claims.act.as_deref(), Some("mochios-console"));
    assert_eq!(validate_claims(&claims, 100), Ok(()));
}

#[test]
fn public_keys_follow_rfc_8032() {
    let seed: [u8; 32] = [
        0x9d, 0x61, 0xb1, 0x9d, 0xef, 0xfd, 0x5a, 0x60, 0xba, 0x84, 0x4a, 0xf4, 0x92, 0xec, 0x2c, 0xc4,
        0x44, 0x49, 0xc5, 0x69, 0x7b, 0x32, 0x69, 0x19, 0x70, 0x3b, 0xac, 0x03, 0x1c, 0xae, 0x7f, 0x60,
    ];
    let expected: [u8; 32] = [
        0xd7, 0x5a, 0x98, 0x01, 0x82, 0xb1, 0x0a, 0xb7, 0xd5, 0x4b, 0xfe, 0xd3, 0xc9, 0x64, 0x07, 0x3a,
        0x0e, 0xe1, 0x72, 0xf3, 0xda, 0xa6, 0x23, 0x25, 0xaf, 0x02, 0x1a, 0x68, 0xf7, 0x07, 0x51, 0x1a,
    ];
    let record = public_key_record(&seed);
    assert_eq!(record.public_key, encode_base64(&expected));
    assert_eq!(record.key_id, key_id(&expected));
}

#[test]
fn admin_token_windows_are_at_most_120_seconds() {
    assert_eq!(admin_token_window(100, 160), Ok(()));
    assert_eq!(admin_token_window(100, 220), Ok(()));
    let message = "admin token must expire within 120 seconds after it is issued".to_string();
    assert_eq!(admin_token_window(100, 221), Err(message.clone()));
    assert_eq!(admin_token_window(100, 100), Err(message.clone()));
    assert_eq!(admin_token_window(100, 50), Err(message));
}
