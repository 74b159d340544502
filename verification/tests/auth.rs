use mochios_developer_ca::auth::{
    account_route, account_state_active, active_introspection_account, admin_actor,
    admin_delegated_claims, bearer_token,
    claims_match, console_public_key, delegated_claims, service_url, AccountRoute, AccountState,
    Introspection,
};
use mochios_developer_ca::certificate::encode_base64;
use mochios_developer_ca::token::{Claims, TokenError};

fn claims() -> Claims {
    Claims {
        iss: "console.mochios.org".into(),
        sub: "018f0000-0000-7000-8000-000000000001".into(),
        aud: "developer-ca-admin".into(),
        iat: 100,
        exp: 160,
        jti: "fixture".into(),
        role: "developer_ca_reviewer".into(),
        act: Some("mochios-console".into()),
        client_id: None,
        scope: None,
        session_id: None,
    }
}

#[test]
fn admin_claims_require_fixed_issuer_audience_role_and_actor() {
    let valid = claims();
    assert!(claims_match(&valid, "developer-ca-admin", "developer_ca_reviewer"));
    for invalid in [
        Claims { iss: "attacker.example".into(), ..valid.clone() },
        Claims { aud: "developer-ca".into(), ..valid.clone() },
        Claims { role: "delegated_account".into(), ..valid.clone() },
        Claims { act: Some("other-service".into()), ..valid.clone() },
    ] {
        assert!(!claims_match(&invalid, "developer-ca-admin", "developer_ca_reviewer"));
    }
}

#[test]
fn session_introspection_requires_an_active_account() {
    assert_eq!(
        active_introspection_account(Introspection {
            active: true,
            account_id: Some("account-1".into()),
            account_status: Some("active".into()),
        }),
        Some("account-1".into())
    );
    for result in [
        Introspection {
            active: false,
            account_id: Some("account-1".into()),
            account_status: Some("active".into()),
        },
        Introspection {
            active: true,
            account_id: Some("account-1".into()),
            account_status: Some("suspended".into()),
        },
        Introspection {
            active: true,
            account_id: None,
            account_status: Some("active".into()),
        },
    ] {
        assert_eq!(active_introspection_account(result), None);
    }
}

#[test]
fn claims_without_an_actor_do_not_match() {
    let mut missing = claims();
    missing.act = None;
    assert!(!claims_match(&missing, "developer-ca-admin", "developer_ca_reviewer"));
}

#[test]
fn bearer_tokens_are_trimmed_and_need_the_scheme() {
    assert_eq!(bearer_token("Bearer  abc \t"), Some("abc".to_string()));
    assert_eq!(bearer_token("Bearer "), Some(String::new()));
    assert_eq!(bearer_token("Basic abc"), None);
    assert_eq!(bearer_token("bearer abc"), None);
    assert_eq!(bearer_token(""), None);
}

#[test]
fn account_routes_follow_the_token_kind() {
    assert_eq!(account_route(""), AccountRoute::Anonymous);
    assert_eq!(account_route("Bearer    "), AccountRoute::Anonymous);
    assert_eq!(account_route("Token abc"), AccountRoute::Anonymous);
    assert_eq!(account_route("Bearer mca1.payload.signature"), AccountRoute::Delegated("mca1.payload.signature".into()));
    assert_eq!(account_route("Bearer mca1payload"), AccountRoute::Session("mca1payload".into()));
    assert_eq!(account_route("Bearer session-token "), AccountRoute::Session("session-token".into()));
}

#[test]
fn accounts_answer_must_name_the_active_account() {
    let state = AccountState { id: "account-1".into(), status: "active".into() };
    assert!(account_state_active(&state, "account-1"));
    assert!(!account_state_active(&state, "account-2"));
    let suspended = AccountState { id: "account-1".into(), status: "suspended".into() };
    assert!(!account_state_active(&suspended, "account-1"));
}

#[test]
fn console_public_key_must_be_32_bytes_of_base64() {
    let key = [9u8; 32];
    assert_eq!(console_public_key(&encode_base64(&key)), Ok(key));
    assert_eq!(
        console_public_key(&encode_base64(&[9u8; 31])),
        Err("invalid Console token public key".to_string())
    );
    assert_eq!(console_public_key("not base64!"), Err("invalid Console token public key".to_string()));
}

#[test]
fn delegated_claims_keep_only_matching_verified_claims() {
    assert_eq!(
        delegated_claims(Ok(claims()), "developer-ca-admin", "developer_ca_reviewer"),
        Some(claims())
    );
    assert_eq!(delegated_claims(Ok(claims()), "developer-ca", "delegated_account"), None);
    assert_eq!(
        delegated_claims(Err(TokenError::Expired), "developer-ca-admin", "developer_ca_reviewer"),
        None
    );
}

#[test]
fn admin_actor_carries_subject_token_id_and_expiry() {
    let actor = admin_actor(claims());
    assert_eq!(actor.account_id, "018f0000-0000-7000-8000-000000000001");
    assert_eq!(actor.jti, "fixture");
    assert_eq!(actor.expires_at, 160);
}

#[test]
fn service_urls_drop_trailing_slashes_of_the_base() {
    assert_eq!(
        service_url("https://accounts.example//", "/v1/internal/sessions/introspect"),
        "https://accounts.example/v1/internal/sessions/introspect"
    );
    assert_eq!(service_url("https://a", "/x"), "https://a/x");
}

#[test]
fn admin_tokens_live_at_most_120_seconds() {
    let valid = claims();
    assert_eq!(admin_delegated_claims(Ok(valid.clone())), Some(valid.clone()));
    let limit = Claims { exp: 220, ..valid.clone() };
    assert_eq!(admin_delegated_claims(Ok(limit.clone())), Some(limit));
    let long = Claims { exp: 700, ..valid.clone() };
    assert_eq!(admin_delegated_claims(Ok(long.clone())), None);
    assert_eq!(
        delegated_claims(Ok(long.clone()), "developer-ca-admin", "developer_ca_reviewer"),
        Some(long)
    );
    let wrong_role = Claims { role: "delegated_account".into(), ..valid };
    assert_eq!(admin_delegated_claims(Ok(wrong_role)), None);
    assert_eq!(admin_delegated_claims(Err(TokenError::Expired)), None);
}
