use mochios_developer_ca::certificate::encode_base64;
use mochios_developer_ca::trust::{
    key_id, IssuerRecord, IssuerStatus, RevocationReasonCode, RevocationSnapshot,
    SnapshotRevocation, TrustSnapshot, UnsignedRevocationSnapshot, UnsignedTrustSnapshot,
    REVOCATION_FORMAT_VERSION, SIGNATURE_ALGORITHM, TRUST_FORMAT_VERSION,
};

fn public_key(seed: &[u8; 32]) -> [u8; 32] {
    ed25519_dalek::SigningKey::from_bytes(seed).verifying_key().to_bytes()
}


#[test]
fn online_intermediate_mcer_and_revocation_round_trip() {
    let root = [11u8; 32];
    let issuer = [22u8; 32];
    let root_public_key = public_key(&root);
    let issuer_public_key = public_key(&issuer);

    let trust = TrustSnapshot::issue(
        UnsignedTrustSnapshot {
            format_version: TRUST_FORMAT_VERSION,
            snapshot_version: 1,
            generated_at: 1_000,
            expires_at: 2_000,
            root_key_id: key_id(&root_public_key),
            issuers: vec![IssuerRecord {
                issuer_key_id: key_id(&issuer_public_key),
                public_key: encode_base64(&issuer_public_key),
                status: IssuerStatus::Active,
                not_before: 900,
                not_after: 3_000,
                allowed_key_usages: vec![
                    "developer-certificate-signing".into(),
                    "revocation-signing".into(),
                ],
            }],
            signature_algorithm: SIGNATURE_ALGORITHM.into(),
        },
        &root,
    )
    .expect("issue Root-signed trust snapshot");
    trust.verify(&root_public_key, 1_100).expect("verify Root-signed trust snapshot");
    assert_eq!(trust.content.issuers.len(), 1);
    assert_eq!(trust.content.issuers[0].status, IssuerStatus::Active);
    assert_eq!(trust.content.issuers[0].issuer_key_id, key_id(&issuer_public_key));

    let serial_number: u64 = 42;
    let revocations = RevocationSnapshot::issue(
        UnsignedRevocationSnapshot {
            format_version: REVOCATION_FORMAT_VERSION,
            snapshot_version: 1,
            generated_at: 1_200,
            expires_at: 1_500,
            issuer_key_id: key_id(&issuer_public_key),
            revocations: vec![SnapshotRevocation {
                certificate_serial: serial_number.to_string(),
                revoked_at: 1_200,
                reason_code: RevocationReasonCode::CertificateReplaced,
            }],
            signature_algorithm: SIGNATURE_ALGORITHM.into(),
        },
        &issuer,
    )
    .expect("issue signed revocation snapshot");
    revocations.verify(&issuer_public_key, 1_300).expect("verify signed revocation snapshot");
    assert_eq!(revocations.content.revocations[0].certificate_serial, serial_number.to_string());
}
