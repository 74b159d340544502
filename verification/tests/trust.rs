use mochios_developer_ca::certificate::encode_base64;
use mochios_developer_ca::trust::{
    decode_public_key, key_id, validate_revocations, validate_trust, IssuerRecord, IssuerStatus,
    RevocationReasonCode, RevocationSnapshot, SnapshotRevocation, TrustError, TrustSnapshot,
    UnsignedRevocationSnapshot, UnsignedTrustSnapshot, REVOCATION_FORMAT_VERSION,
    SIGNATURE_ALGORITHM, TRUST_FORMAT_VERSION,
};

fn public_key(seed: &[u8; 32]) -> [u8; 32] {
    ed25519_dalek::SigningKey::from_bytes(seed).verifying_key().to_bytes()
}


const TRUST_DOMAIN: &[u8] = b"mochios-issuer-trust-snapshot-v1\0";
const REVOCATION_DOMAIN: &[u8] = b"mochios-revocation-snapshot-v1\0";

fn issuer_record(issuer_seed: &[u8; 32]) -> IssuerRecord {
    let issuer = public_key(issuer_seed);
    IssuerRecord {
        issuer_key_id: key_id(&issuer),
        public_key: encode_base64(&issuer),
        status: IssuerStatus::Active,
        not_before: 90,
        not_after: 300,
        allowed_key_usages: vec!["developer-certificate-signing".into(), "revocation-signing".into()],
    }
}

fn trust_content(root_seed: &[u8; 32], issuer_seed: &[u8; 32]) -> UnsignedTrustSnapshot {
    UnsignedTrustSnapshot {
        format_version: TRUST_FORMAT_VERSION,
        snapshot_version: 1,
        generated_at: 100,
        expires_at: 200,
        root_key_id: key_id(&public_key(root_seed)),
        issuers: vec![issuer_record(issuer_seed)],
        signature_algorithm: SIGNATURE_ALGORITHM.into(),
    }
}

fn trust(root_seed: &[u8; 32], issuer_seed: &[u8; 32]) -> TrustSnapshot {
    TrustSnapshot::issue(trust_content(root_seed, issuer_seed), root_seed).expect("fixture trust snapshot")
}

fn revocation_content(issuer_seed: &[u8; 32]) -> UnsignedRevocationSnapshot {
    UnsignedRevocationSnapshot {
        format_version: REVOCATION_FORMAT_VERSION,
        snapshot_version: 1,
        generated_at: 100,
        expires_at: 150,
        issuer_key_id: key_id(&public_key(issuer_seed)),
        revocations: vec![SnapshotRevocation {
            certificate_serial: "42".into(),
            revoked_at: 101,
            reason_code: RevocationReasonCode::KeyCompromise,
        }],
        signature_algorithm: SIGNATURE_ALGORITHM.into(),
    }
}

#[test]
fn trust_signature_and_canonical_encoding_are_deterministic() {
    let root = [3; 32];
    let issuer = [5; 32];
    let snapshot = trust(&root, &issuer);
    snapshot.verify(&public_key(&root), 150).expect("valid root signature");
    assert_eq!(
        snapshot.canonical_bytes().expect("canonical bytes"),
        snapshot.canonical_bytes().expect("canonical bytes")
    );
    assert!(snapshot.canonical_bytes().expect("canonical bytes").starts_with(TRUST_DOMAIN));
}

#[test]
fn trust_rejects_tampering_and_multiple_active_issuers() {
    let root = [3; 32];
    let issuer = [5; 32];
    let mut snapshot = trust(&root, &issuer);
    snapshot.content.snapshot_version = 2;
    assert_eq!(snapshot.verify(&public_key(&root), 150), Err(TrustError::InvalidSignature));
    let mut content = snapshot.content;
    content.issuers.push(content.issuers[0].clone());
    content.issuers[1].issuer_key_id = "f".repeat(64);
    content.issuers[1].public_key = encode_base64(&[9; 32]);
    assert!(validate_trust(&content).is_err());
}

#[test]
fn signed_revocations_are_cumulative_canonical_material() {
    let issuer = [5; 32];
    let snapshot = RevocationSnapshot::issue(revocation_content(&issuer), &issuer)
        .expect("fixture revocation snapshot");
    snapshot.verify(&public_key(&issuer), 120).expect("valid revocation signature");
    assert!(snapshot.canonical_bytes().expect("canonical bytes").starts_with(REVOCATION_DOMAIN));
}

#[test]
fn issuing_twice_gives_the_same_snapshot() {
    let first = trust(&[3; 32], &[5; 32]);
    let second = trust(&[3; 32], &[5; 32]);
    assert_eq!(first, second);
}

#[test]
fn trust_snapshots_verify_until_expiry_with_clock_skew() {
    let root = [3; 32];
    let snapshot = trust(&root, &[5; 32]);
    let root_key = public_key(&root);
    assert_eq!(snapshot.verify(&root_key, 100), Ok(()));
    assert_eq!(snapshot.verify(&root_key, 199), Ok(()));
    assert!(snapshot.verify(&root_key, 200).is_err());
    assert_eq!(snapshot.verify(&root_key, 0), Ok(()));
    assert!(snapshot.verify(&public_key(&[4; 32]), 150).is_err());
}

#[test]
fn trust_content_rules_report_their_errors() {
    let mut content = trust_content(&[3; 32], &[5; 32]);
    assert_eq!(validate_trust(&content), Ok(()));
    content.format_version = 2;
    assert_eq!(validate_trust(&content), Err(TrustError::UnsupportedFormat));
    let mut content = trust_content(&[3; 32], &[5; 32]);
    content.signature_algorithm = "rsa".into();
    assert_eq!(validate_trust(&content), Err(TrustError::UnsupportedSignatureAlgorithm));
    let mut content = trust_content(&[3; 32], &[5; 32]);
    content.snapshot_version = 0;
    assert_eq!(validate_trust(&content), Err(TrustError::InvalidVersion));
    let mut content = trust_content(&[3; 32], &[5; 32]);
    content.expires_at = content.generated_at;
    assert_eq!(validate_trust(&content), Err(TrustError::InvalidValidity));
    let mut content = trust_content(&[3; 32], &[5; 32]);
    content.expires_at = content.generated_at + 15_552_001;
    assert_eq!(validate_trust(&content), Err(TrustError::LifetimeTooLong));
    let mut content = trust_content(&[3; 32], &[5; 32]);
    content.issuers[0].allowed_key_usages = vec!["revocation-signing".into(), "developer-certificate-signing".into()];
    assert_eq!(validate_trust(&content), Err(TrustError::InvalidKeyUsage));
    let mut content = trust_content(&[3; 32], &[5; 32]);
    content.issuers[0].issuer_key_id = "0".repeat(64);
    assert_eq!(validate_trust(&content), Err(TrustError::KeyIdMismatch));
}

#[test]
fn revocation_rules_report_their_errors() {
    let issuer = [5; 32];
    assert_eq!(validate_revocations(&revocation_content(&issuer)), Ok(()));
    let mut content = revocation_content(&issuer);
    content.revocations[0].certificate_serial = "4a".into();
    assert_eq!(validate_revocations(&content), Err(TrustError::InvalidSerial));
    let mut content = revocation_content(&issuer);
    content.revocations.push(content.revocations[0].clone());
    assert!(validate_revocations(&content).is_err());
}

#[test]
fn public_keys_decode_from_32_bytes_of_base64() {
    let key = public_key(&[5; 32]);
    assert_eq!(decode_public_key(&encode_base64(&key)), Ok(key));
    assert_eq!(decode_public_key(&encode_base64(&[1; 31])), Err(TrustError::InvalidPublicKey));
    assert_eq!(decode_public_key("%%%"), Err(TrustError::InvalidPublicKey));
    assert_eq!(key_id(&key).len(), 64);
}

#[test]
fn reason_codes_have_snake_case_names() {
    assert_eq!(RevocationReasonCode::KeyCompromise.as_str(), "key_compromise");
    assert_eq!(RevocationReasonCode::DeveloperSuspended.as_str(), "developer_suspended");
    assert_eq!(RevocationReasonCode::CertificateReplaced.as_str(), "certificate_replaced");
    assert_eq!(RevocationReasonCode::ScopeViolation.as_str(), "scope_violation");
    assert_eq!(RevocationReasonCode::Administrative.as_str(), "administrative");
    assert_eq!(RevocationReasonCode::Unspecified.as_str(), "unspecified");
}

#[test]
fn only_one_issuer_may_be_active() {
    let mut content = trust_content(&[3; 32], &[5; 32]);
    content.issuers.push(issuer_record(&[6; 32]));
    content.issuers.sort_by(|left, right| left.issuer_key_id.cmp(&right.issuer_key_id));
    assert_eq!(validate_trust(&content), Err(TrustError::MultipleActiveIssuers));
    content.issuers[1].status = IssuerStatus::Retired;
    assert_eq!(validate_trust(&content), Ok(()));
    content.issuers.swap(0, 1);
    assert_eq!(validate_trust(&content), Err(TrustError::UnsortedIssuers));
}

#[test]
fn trust_errors_describe_themselves() {
    assert_eq!(TrustError::InvalidSignature.message(), "invalid trust material: InvalidSignature");
    assert_eq!(TrustError::MultipleActiveIssuers.message(), "invalid trust material: MultipleActiveIssuers");
}

#[test]
fn canonical_bytes_tell_contents_apart_and_ignore_signatures() {
    let snapshot = trust(&[1; 32], &[2; 32]);
    let resigned = TrustSnapshot { root_signature: "other".into(), ..snapshot.clone() };
    assert_eq!(snapshot.canonical_bytes(), resigned.canonical_bytes());
    let mut later = snapshot.clone();
    later.content.snapshot_version = 2;
    assert_ne!(snapshot.canonical_bytes().unwrap(), later.canonical_bytes().unwrap());
    let mut narrower = snapshot.clone();
    narrower.content.issuers[0].allowed_key_usages = vec!["developer-certificate-signing".into()];
    assert_ne!(snapshot.canonical_bytes().unwrap(), narrower.canonical_bytes().unwrap());

    let content = revocation_content(&[2; 32]);
    let revocations = RevocationSnapshot { content: content.clone(), signature: "a".into() };
    let resigned = RevocationSnapshot { content: content.clone(), signature: "b".into() };
    assert_eq!(revocations.canonical_bytes(), resigned.canonical_bytes());
    let mut other_reason = content.clone();
    other_reason.revocations[0].reason_code = RevocationReasonCode::Administrative;
    let other = RevocationSnapshot { content: other_reason, signature: "a".into() };
    assert_ne!(revocations.canonical_bytes().unwrap(), other.canonical_bytes().unwrap());
}
