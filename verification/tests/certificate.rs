use sha2::Digest;
use mochios_developer_ca::certificate::{
    decode_wire_base64, encode_base64, encoded_public_key, hex, issuer_key_id,
    request_from_certificate, root_public_key, root_public_keys, scope_list, scope_string,
    validate_capability, validate_package_scope, CertificateRequestInput, PackageScope, ScopeKind,
    SIGNATURE_ALGORITHM,
};

fn sha256(data: &[u8]) -> [u8; 32] {
    sha2::Sha256::digest(data).into()
}

fn public_key(seed: &[u8; 32]) -> [u8; 32] {
    ed25519_dalek::SigningKey::from_bytes(seed).verifying_key().to_bytes()
}


fn request() -> CertificateRequestInput {
    let signing = public_key(&[7; 32]);
    CertificateRequestInput {
        signature_algorithm: SIGNATURE_ALGORITHM.into(),
        subject_public_key: encoded_public_key(&signing),
        package_id_scopes: vec!["dev.mochi.*".into()],
        allowed_capabilities: vec!["network.client".into()],
    }
}

fn exact_request() -> CertificateRequestInput {
    let mut input = request();
    input.package_id_scopes = vec!["dev.mochi.app".into()];
    input
}

fn all_valid(input: &CertificateRequestInput) -> Vec<bool> {
    vec![true; input.allowed_capabilities.len()]
}

#[test]
fn accepts_hex_and_base64_root_public_keys() {
    let key = public_key(&[3; 32]);
    let other = public_key(&[4; 32]);
    assert_eq!(root_public_key(&hex(&key)).unwrap(), key);
    assert_eq!(root_public_key(&encode_base64(&key)).unwrap(), key);
    assert_eq!(root_public_keys(&format!("{},{}", hex(&key), hex(&other))).unwrap().len(), 2);
}

#[test]
fn rejects_duplicate_and_invalid_authority_requests() {
    let mut input = request();
    input.allowed_capabilities.push("network.client".into());
    assert!(input.validate(Ok(()), &all_valid(&input)).is_err());
    let mut input = request();
    input.package_id_scopes = vec!["dev.mochi.*".into(), "dev.mochi.*".into()];
    assert!(input.validate(Ok(()), &all_valid(&input)).is_err());
}

#[test]
fn valid_requests_give_the_subject_key() {
    let input = exact_request();
    assert_eq!(input.validate(Ok(()), &all_valid(&input)), Ok(public_key(&[7; 32])));
    assert_eq!(input.subject_public_key_bytes(), Ok(public_key(&[7; 32])));
}

#[test]
fn request_errors_come_in_order() {
    let mut input = request();
    input.signature_algorithm = "rsa".into();
    assert_eq!(input.validate(Ok(()), &all_valid(&input)), Err("unsupported signature algorithm".into()));
    let input = request();
    assert_eq!(input.validate(Err("scope rejected".into()), &all_valid(&input)), Err("scope rejected".into()));
    let mut input = request();
    input.package_id_scopes = vec!["dev.mochi.*".into(), "dev.mochi.*".into()];
    assert_eq!(input.validate(Ok(()), &all_valid(&input)), Err("duplicate package id scope".into()));
    let mut input = request();
    input.package_id_scopes = vec![];
    assert_eq!(
        input.validate(Ok(()), &all_valid(&input)),
        Err("at least one package id scope is required".into())
    );
    let mut input = request();
    input.package_id_scopes = vec!["dev.mochi.app".into(), "dev.mochi.tool".into()];
    assert_eq!(
        input.validate(Ok(()), &all_valid(&input)),
        Err("exactly one package id scope is required".into())
    );
    let input = request();
    assert_eq!(
        input.validate(Ok(()), &all_valid(&input)),
        Err("prefix package id scopes are not accepted".into())
    );
    let mut input = exact_request();
    input.allowed_capabilities = (0..513).map(|i| format!("cap.{i}")).collect();
    assert_eq!(input.validate(Ok(()), &vec![false; 513]), Err("too many capabilities".into()));
    let input = exact_request();
    assert_eq!(input.validate(Ok(()), &vec![false]), Err("invalid capability".into()));
    let mut input = exact_request();
    input.allowed_capabilities.push("network.client".into());
    assert_eq!(input.validate(Ok(()), &all_valid(&input)), Err("duplicate capability".into()));
    let mut input = exact_request();
    input.subject_public_key = "***".into();
    assert_eq!(input.validate(Ok(()), &all_valid(&input)), Err("invalid public key encoding".into()));
    let mut input = exact_request();
    input.subject_public_key = encode_base64(&[1; 16]);
    assert_eq!(
        input.validate(Ok(()), &all_valid(&input)),
        Err("Ed25519 public key must be 32 bytes".into())
    );
}

#[test]
fn at_most_512_capabilities_are_accepted() {
    let mut input = exact_request();
    input.allowed_capabilities = (0..512).map(|i| format!("cap.{i:03}")).collect();
    assert_eq!(input.validate(Ok(()), &all_valid(&input)), Ok(public_key(&[7; 32])));
    input.allowed_capabilities.push("cap.999".into());
    assert_eq!(input.validate(Ok(()), &all_valid(&input)), Err("too many capabilities".into()));
}

#[test]
fn capabilities_come_back_sorted() {
    let mut input = exact_request();
    input.allowed_capabilities = vec!["window.create".into(), "fs.read.all".into()];
    assert_eq!(
        input.canonical_capabilities(Ok(()), &all_valid(&input)),
        Ok(vec!["fs.read.all".to_string(), "window.create".to_string()])
    );
}

#[test]
fn subject_key_id_is_the_hex_sha256_of_the_key() {
    let input = exact_request();
    let key = public_key(&[7; 32]);
    assert_eq!(input.subject_key_id(Ok(()), &all_valid(&input)), Ok(hex(&sha256(&key))));
    assert_eq!(issuer_key_id(&key), hex(&sha256(&key)));
}

#[test]
fn scope_texts_read_as_exact_or_prefix() {
    let scopes = scope_list(&vec!["org.example.app".into(), "dev.mochi.*".into()]);
    assert_eq!(
        scopes,
        vec![
            PackageScope { kind: ScopeKind::Prefix, package_id: "dev.mochi".into() },
            PackageScope { kind: ScopeKind::Exact, package_id: "org.example.app".into() },
        ]
    );
    for scope in &scopes {
        let text = scope_string(scope);
        assert_eq!(scope_list(&vec![text]), vec![scope.clone()]);
    }
    assert_eq!(validate_package_scope("dev.mochi.*", Ok(())), Ok(()));
    assert_eq!(validate_package_scope("Bad", Err("invalid".into())), Err("invalid".into()));
}

#[test]
fn capability_verdicts_become_messages() {
    assert_eq!(validate_capability(true), Ok(()));
    assert_eq!(validate_capability(false), Err("invalid capability".into()));
}

#[test]
fn root_key_lists_are_sorted_unique_and_checked() {
    let key = public_key(&[3; 32]);
    let other = public_key(&[4; 32]);
    let list = format!(" {} , ,{},{}", hex(&other), encode_base64(&key), hex(&other));
    let keys = root_public_keys(&list).unwrap();
    let mut expected = vec![key, other];
    expected.sort();
    assert_eq!(keys, expected);
    assert_eq!(root_public_keys(" , "), Err("at least one Root public key is required".into()));
    assert_eq!(
        root_public_keys(&format!("{},zz", hex(&key))),
        Err("invalid Root public key encoding".into())
    );
    assert_eq!(root_public_key(&encode_base64(&[1; 31])), Err("Root public key must be 32 bytes".into()));
    assert_eq!(root_public_key(&hex(&key).to_uppercase()), Ok(key));
}

#[test]
fn wire_base64_round_trips() {
    let wire = b"MCER wire".to_vec();
    assert_eq!(decode_wire_base64(&encode_base64(&wire)), Ok(wire));
    assert_eq!(decode_wire_base64("!!"), Err("invalid certificate wire encoding".into()));
}

#[test]
fn requests_rebuild_from_certificate_contents() {
    let key = public_key(&[7; 32]);
    let request = request_from_certificate(
        &key,
        &vec![PackageScope { kind: ScopeKind::Prefix, package_id: "dev.mochi".into() }],
        &vec!["network.client".into()],
    );
    assert_eq!(request.signature_algorithm, "ed25519");
    assert_eq!(request.subject_public_key, encode_base64(&key));
    assert_eq!(request.package_id_scopes, vec!["dev.mochi.*".to_string()]);
    assert_eq!(request.allowed_capabilities, vec!["network.client".to_string()]);
    assert_eq!(request.subject_public_key_bytes(), Ok(key));
}

#[test]
fn key_ids_and_base64_match_known_vectors() {
    assert_eq!(
        issuer_key_id(&[0u8; 32]),
        "66687aadf862bd776c8fc18b8e9f8e20089714856ee233b3902a591d0d5f2925"
    );
    assert_eq!(encode_base64(b"hello"), "aGVsbG8=");
    assert_eq!(decode_wire_base64("aGVsbG8="), Ok(b"hello".to_vec()));
}

#[test]
fn subject_keys_must_be_curve_points() {
    let bad = (0u8..=255)
        .map(|first| {
            let mut bytes = [0u8; 32];
            bytes[0] = first;
            bytes[31] = 0x7f;
            bytes
        })
        .find(|bytes| ed25519_dalek::VerifyingKey::from_bytes(bytes).is_err())
        .expect("a 32-byte value that is not a curve point");
    let mut input = request();
    input.subject_public_key = encode_base64(&bad);
    assert_eq!(input.subject_public_key_bytes(), Err("invalid Ed25519 public key".into()));
}

#[test]
fn root_key_lists_do_not_depend_on_order_or_repetition() {
    let key = public_key(&[3; 32]);
    let other = public_key(&[4; 32]);
    let first = root_public_keys(&format!("{},{}", hex(&key), encode_base64(&other))).unwrap();
    let second = root_public_keys(&format!(" {} ,{},{} ,", hex(&other), hex(&key), encode_base64(&key))).unwrap();
    assert_eq!(first, second);
}
