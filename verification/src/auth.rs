//! Who a request speaks for: an Accounts session (checked by introspection), a
//! Console delegation token, or an admin of the Developer CA.
//!
//! The network calls are made by the caller; this module decides from their
//! results.
use vstd::prelude::*;

use crate::bytes::{array32, str_bytes};
use crate::crypto::{base64_standard_bytes, base64_standard_decode};
use crate::text::{
    after_prefix, message, option_text_is, strip_prefix_text, text_is, trim, trim_end_char,
    trim_end_matching, trimmed,
};
use crate::token::{Claims, TokenError};

verus! {

/// The issuer of Console delegation tokens.
pub const CONSOLE_ISSUER: &'static str = "console.mochios.org";

/// The actor that Console delegation tokens name.
pub const CONSOLE_ACTOR: &'static str = "mochios-console";

/// Audience and role of a token that speaks for an Account.
pub const ACCOUNT_AUDIENCE: &'static str = "developer-ca";
pub const ACCOUNT_ROLE: &'static str = "delegated_account";

/// Audience and role of an admin's token.
pub const ADMIN_AUDIENCE: &'static str = "developer-ca-admin";
pub const ADMIN_ROLE: &'static str = "developer_ca_reviewer";

/// The longest lifetime of an admin token, in seconds.
pub const MAX_ADMIN_TOKEN_LIFETIME_SECONDS: u64 = 120;

/// What Accounts answers about a session token.
#[derive(Clone, Debug, PartialEq, Eq)]
pub struct Introspection {
    pub active: bool,
    pub account_id: Option<String>,
    pub account_status: Option<String>,
}

/// What Accounts answers about an Account.
#[derive(Clone, Debug, PartialEq, Eq)]
pub struct AccountState {
    pub id: String,
    pub status: String,
}

/// An admin, as a verified admin token names them.
#[derive(Clone, Debug, PartialEq, Eq)]
pub struct AdminActor {
    pub account_id: String,
    pub jti: String,
    pub expires_at: i64,
}

/// The Account an introspection result speaks for: only an active session of an
/// active Account names one.
pub open spec fn introspected_account(result: Introspection) -> Option<String> {
    if result.active && result.account_status is Some && result.account_status->0@ == "active"@ {
        result.account_id
    } else {
        None
    }
}

/// The Account that an introspection result speaks for, if any.
pub fn active_introspection_account(result: Introspection) -> (account: Option<String>)
    ensures
        account == introspected_account(result),
{
    if result.active && option_text_is(&result.account_status, "active") {
        result.account_id
    } else {
        None
    }
}

/// Accounts' answer names the Account asked about, and it is active.
pub open spec fn account_state_is_active(state: AccountState, account_id: Seq<char>) -> bool {
    state.id@ == account_id && state.status@ == "active"@
}

/// Whether Accounts' answer shows `account_id` as an active Account.
pub fn account_state_active(state: &AccountState, account_id: &str) -> (active: bool)
    ensures
        active == account_state_is_active(*state, account_id@),
{
    text_is(state.id.as_str(), account_id) && text_is(state.status.as_str(), "active")
}

/// Delegation claims come from the Console, for this audience and role.
pub open spec fn claims_match_spec(claims: Claims, audience: Seq<char>, role: Seq<char>) -> bool {
    &&& claims.iss@ == "console.mochios.org"@
    &&& claims.aud@ == audience
    &&& claims.role@ == role
    &&& claims.act is Some
    &&& claims.act->0@ == "mochios-console"@
}

/// Whether delegation claims come from the Console, for this audience and role.
pub fn claims_match(claims: &Claims, audience: &str, role: &str) -> (matches: bool)
    ensures
        matches == claims_match_spec(*claims, audience@, role@),
{
    text_is(claims.iss.as_str(), CONSOLE_ISSUER) && text_is(claims.aud.as_str(), audience)
        && text_is(claims.role.as_str(), role) && option_text_is(&claims.act, CONSOLE_ACTOR)
}

/// The token of an `Authorization` header value: what follows `Bearer `, trimmed.
pub open spec fn bearer_of(authorization: Seq<char>) -> Option<Seq<char>> {
    match after_prefix(authorization, "Bearer "@) {
        Some(rest) => Some(trimmed(rest)),
        None => None,
    }
}

/// The bearer token of an `Authorization` header value, if it has the scheme.
pub fn bearer_token(authorization: &str) -> (token: Option<String>)
    ensures
        match bearer_of(authorization@) {
            Some(t) => token is Some && token->0@ == t,
            None => token is None,
        },
{
    match strip_prefix_text(authorization, "Bearer ") {
        Some(rest) => Some(message(trim(rest))),
        None => None,
    }
}

/// How the caller of a request is to be found.
#[derive(Clone, Debug, PartialEq, Eq)]
pub enum AccountRoute {
    /// No bearer token: no Account.
    Anonymous,
    /// A Console delegation token, checked against the Console's public key.
    Delegated(String),
    /// An Accounts session token, checked by introspection.
    Session(String),
}

/// The token a route carries, if any.
pub open spec fn route_token(route: AccountRoute) -> Option<Seq<char>> {
    match route {
        AccountRoute::Anonymous => None,
        AccountRoute::Delegated(t) => Some(t@),
        AccountRoute::Session(t) => Some(t@),
    }
}

/// Decides how the caller of a request is to be found from its `Authorization`
/// header: no token, or an empty one, is anonymous; a token that begins with
/// `mca1.` is a delegation token; any other is a session token.
pub fn account_route(authorization: &str) -> (route: AccountRoute)
    ensures
        match bearer_of(authorization@) {
            None => route == AccountRoute::Anonymous,
            Some(t) => if t.len() == 0 {
                route == AccountRoute::Anonymous
            } else if after_prefix(t, "mca1."@) is Some {
                route is Delegated && route_token(route) == Some(t)
            } else {
                route is Session && route_token(route) == Some(t)
            },
        },
{
    let token = match bearer_token(authorization) {
        Some(t) => t,
        None => return AccountRoute::Anonymous,
    };
    if token.as_str().unicode_len() == 0 {
        return AccountRoute::Anonymous;
    }
    if strip_prefix_text(token.as_str(), "mca1.").is_some() {
        AccountRoute::Delegated(token)
    } else {
        AccountRoute::Session(token)
    }
}

/// The message for a Console token public key that is not 32 bytes of Base64.
pub open spec fn console_key_message() -> Seq<char> {
    "invalid Console token public key"@
}

/// Reads the Console's token public key from its padded standard Base64 text.
pub fn console_public_key(encoded: &str) -> (key: Result<[u8; 32], String>)
    ensures
        match base64_standard_bytes(str_bytes(encoded@)) {
            Some(bytes) if bytes.len() == 32 => key matches Ok(k) && k@ == bytes,
            _ => key matches Err(e) && e@ == console_key_message(),
        },
{
    match base64_standard_decode(encoded.as_bytes()) {
        Some(bytes) => if bytes.len() == 32 {
            Ok(array32(bytes.as_slice()))
        } else {
            Err(message("invalid Console token public key"))
        },
        None => Err(message("invalid Console token public key")),
    }
}

/// The claims of a verified delegation token, kept only when they come from the
/// Console for this audience and role.
pub fn delegated_claims(verified: Result<Claims, TokenError>, audience: &str, role: &str) -> (claims:
    Option<Claims>)
    ensures
        match verified {
            Ok(c) => if claims_match_spec(c, audience@, role@) {
                claims == Some(c)
            } else {
                claims is None
            },
            Err(_) => claims is None,
        },
{
    match verified {
        Ok(c) => if claims_match(&c, audience, role) {
            Some(c)
        } else {
            None
        },
        Err(_) => None,
    }
}

/// Admin claims come from the Console for the admin audience and role, and
/// the token lives at most 120 seconds.
pub open spec fn admin_claims_accepted(claims: Claims) -> bool {
    &&& claims_match_spec(claims, "developer-ca-admin"@, "developer_ca_reviewer"@)
    &&& claims.exp - claims.iat <= MAX_ADMIN_TOKEN_LIFETIME_SECONDS
}

/// The claims of a verified admin token, kept only when they come from the
/// Console for the admin audience and role and the token lives at most 120 seconds.
pub fn admin_delegated_claims(verified: Result<Claims, TokenError>) -> (claims: Option<Claims>)
    ensures
        match verified {
            Ok(c) => if admin_claims_accepted(c) {
                claims == Some(c)
            } else {
                claims is None
            },
            Err(_) => claims is None,
        },
{
    match delegated_claims(verified, ADMIN_AUDIENCE, ADMIN_ROLE) {
        Some(c) => if c.exp <= c.iat || c.exp - c.iat <= MAX_ADMIN_TOKEN_LIFETIME_SECONDS {
            Some(c)
        } else {
            None
        },
        None => None,
    }
}

/// The admin that verified admin claims name.
pub fn admin_actor(claims: Claims) -> (actor: AdminActor)
    ensures
        actor.account_id == claims.sub,
        actor.jti == claims.jti,
        actor.expires_at == claims.exp as i64,
{
    AdminActor { account_id: claims.sub, jti: claims.jti, expires_at: claims.exp as i64 }
}

/// The URL of an Accounts endpoint: the base without trailing slashes, then the path.
pub fn service_url(base: &str, path: &str) -> (url: String)
    ensures
        url@ == trim_end_char(base@, '/') + path@,
{
    let mut url = message(trim_end_matching(base, '/'));
    url.append(path);
    url
}

} // verus!
