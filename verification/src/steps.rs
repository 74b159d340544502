//! The order of the checks of the service's multi-step requests, as state
//! machines. Each state names the outside work to do next; the handler does it
//! and hands back what came of it as an event, until a state is `Done`.
use vstd::prelude::*;

use crate::bytes::{hex_lower, str_bytes};
use crate::crypto::{base64_standard_bytes, base64_standard_text};
use crate::model::{CertificateRow, Developer, Member, RevocationReasonCode, RevokeInput};
use crate::registration::{
    developer_match, registered_certificate, registration_outcome, registration_wire,
    trusted_root, trusted_root_of, CertificateFacts, RegisteredCertificate,
};
use crate::service::{
    admin_action_check, certificate_role_check, certificate_text_message, requests_certificates,
    revocable, revocation_reason, revocation_reason_code, ServiceError,
};
use crate::text::{decimal, trimmed};

verus! {

// ---------------------------------------------------------------------------
// Admin revocation of a certificate
// ---------------------------------------------------------------------------

/// Where an admin revocation stands, and what it waits for.
#[derive(Debug, PartialEq, Eq)]
pub enum RevokeState {
    /// The admin token of the request is to be checked.
    AwaitingAdmin,
    /// The request body is to be read.
    AwaitingBody,
    /// The certificate is to be looked up.
    AwaitingCertificate { reason: String, reason_code: RevocationReasonCode },
    /// The one use of the admin token is to be recorded.
    AwaitingTokenUse { reason: String, reason_code: RevocationReasonCode },
    /// The store is to revoke the certificate with this reason.
    AwaitingRevocation { reason: String, reason_code: RevocationReasonCode },
    /// The answer: the revoked certificate, or the refusal.
    Done(Result<CertificateRow, ServiceError>),
}

/// What came of the outside work of a revocation step.
#[derive(Clone, Debug, PartialEq, Eq)]
pub enum RevokeEvent {
    /// Whether the request carries a valid admin token.
    Admin(bool),
    /// The request body.
    Body(RevokeInput),
    /// The certificate, if it exists.
    Certificate(Option<CertificateRow>),
    /// Whether this was the first use of the admin token.
    TokenUse(bool),
    /// The revoked certificate, if the store found it.
    Revocation(Option<CertificateRow>),
}

/// The reason code a revocation body chooses: the one given, else `unspecified`.
pub open spec fn chosen_reason_code(code: Option<RevocationReasonCode>) -> RevocationReasonCode {
    match code {
        Some(c) => c,
        None => RevocationReasonCode::Unspecified,
    }
}

/// Whether an event is what a revocation state waits for.
pub open spec fn revoke_fits(state: RevokeState, event: RevokeEvent) -> bool {
    match state {
        RevokeState::AwaitingAdmin => event is Admin,
        RevokeState::AwaitingBody => event is Body,
        RevokeState::AwaitingCertificate { .. } => event is Certificate,
        RevokeState::AwaitingTokenUse { .. } => event is TokenUse,
        RevokeState::AwaitingRevocation { .. } => event is Revocation,
        RevokeState::Done(_) => false,
    }
}

/// One step of an admin revocation: an unauthenticated request, a blank
/// reason, a missing or inactive certificate and a replayed token are refused
/// in that order, and the store is asked to revoke only after all of them.
pub open spec fn revoke_step(state: RevokeState, event: RevokeEvent, next: RevokeState) -> bool {
    match state {
        RevokeState::AwaitingAdmin => match event {
            RevokeEvent::Admin(authenticated) => if authenticated {
                next == RevokeState::AwaitingBody
            } else {
                next == RevokeState::Done(Err(ServiceError::AdminAuthRequired))
            },
            _ => false,
        },
        RevokeState::AwaitingBody => match event {
            RevokeEvent::Body(input) => if trimmed(input.reason@).len() == 0 {
                next == RevokeState::Done(Err(ServiceError::RevocationReasonRequired))
            } else {
                next matches RevokeState::AwaitingCertificate { reason, reason_code } && reason@
                    == trimmed(input.reason@) && reason_code == chosen_reason_code(input.reason_code)
            },
            _ => false,
        },
        RevokeState::AwaitingCertificate { reason, reason_code } => match event {
            RevokeEvent::Certificate(found) => match found {
                None => next == RevokeState::Done(Err(ServiceError::CertificateNotFound)),
                Some(c) => if c.status@ == "active"@ {
                    next == RevokeState::AwaitingTokenUse { reason, reason_code }
                } else {
                    next == RevokeState::Done(Err(ServiceError::CertificateNotActive))
                },
            },
            _ => false,
        },
        RevokeState::AwaitingTokenUse { reason, reason_code } => match event {
            RevokeEvent::TokenUse(first_use) => if first_use {
                next == RevokeState::AwaitingRevocation { reason, reason_code }
            } else {
                next == RevokeState::Done(Err(ServiceError::AdminTokenReplayed))
            },
            _ => false,
        },
        RevokeState::AwaitingRevocation { .. } => match event {
            RevokeEvent::Revocation(row) => match row {
                Some(r) => next == RevokeState::Done(Ok(r)),
                None => next == RevokeState::Done(Err(ServiceError::CertificateNotFound)),
            },
            _ => false,
        },
        RevokeState::Done(_) => false,
    }
}

/// Advances an admin revocation by what came of its last step.
pub fn revoke_next(state: RevokeState, event: RevokeEvent) -> (next: RevokeState)
    requires
        revoke_fits(state, event),
    ensures
        revoke_step(state, event, next),
{
    match state {
        RevokeState::AwaitingAdmin => match event {
            RevokeEvent::Admin(authenticated) => if authenticated {
                RevokeState::AwaitingBody
            } else {
                RevokeState::Done(Err(ServiceError::AdminAuthRequired))
            },
            _ => state,
        },
        RevokeState::AwaitingBody => match event {
            RevokeEvent::Body(input) => match revocation_reason(&input) {
                Ok(reason) => RevokeState::AwaitingCertificate {
                    reason,
                    reason_code: revocation_reason_code(input.reason_code),
                },
                Err(e) => RevokeState::Done(Err(e)),
            },
            _ => RevokeState::AwaitingBody,
        },
        RevokeState::AwaitingCertificate { reason, reason_code } => match event {
            RevokeEvent::Certificate(found) => match found {
                None => RevokeState::Done(Err(ServiceError::CertificateNotFound)),
                Some(c) => match revocable(&c) {
                    Ok(()) => RevokeState::AwaitingTokenUse { reason, reason_code },
                    Err(e) => RevokeState::Done(Err(e)),
                },
            },
            _ => RevokeState::AwaitingCertificate { reason, reason_code },
        },
        RevokeState::AwaitingTokenUse { reason, reason_code } => match event {
            RevokeEvent::TokenUse(first_use) => match admin_action_check(first_use) {
                Ok(()) => RevokeState::AwaitingRevocation { reason, reason_code },
                Err(e) => RevokeState::Done(Err(e)),
            },
            _ => RevokeState::AwaitingTokenUse { reason, reason_code },
        },
        RevokeState::AwaitingRevocation { reason, reason_code } => match event {
            RevokeEvent::Revocation(row) => match row {
                Some(r) => RevokeState::Done(Ok(r)),
                None => RevokeState::Done(Err(ServiceError::CertificateNotFound)),
            },
            _ => RevokeState::AwaitingRevocation { reason, reason_code },
        },
        RevokeState::Done(answer) => RevokeState::Done(answer),
    }
}

/// A run of an admin revocation: its states from the start, each the step of
/// the one before by the event between them.
pub open spec fn revoke_run(states: Seq<RevokeState>, events: Seq<RevokeEvent>) -> bool {
    &&& states.len() == events.len() + 1
    &&& states[0] == RevokeState::AwaitingAdmin
    &&& forall|i: int|
        #![trigger events[i]]
        0 <= i < events.len() ==> revoke_step(states[i], events[i], states[i + 1])
}

/// How many steps a revocation state lies from the start.
pub open spec fn revoke_stage(state: RevokeState) -> int {
    match state {
        RevokeState::AwaitingAdmin => 0,
        RevokeState::AwaitingBody => 1,
        RevokeState::AwaitingCertificate { .. } => 2,
        RevokeState::AwaitingTokenUse { .. } => 3,
        RevokeState::AwaitingRevocation { .. } => 4,
        RevokeState::Done(_) => -1,
    }
}

proof fn lemma_revoke_stages(states: Seq<RevokeState>, events: Seq<RevokeEvent>, k: int)
    requires
        revoke_run(states, events),
        0 <= k <= events.len(),
    ensures
        states[k] is Done || revoke_stage(states[k]) == k,
    decreases k,
{
    if k > 0 {
        lemma_revoke_stages(states, events, k - 1);
        assert(revoke_step(states[k - 1], events[k - 1], states[k]));
    }
}

/// A certificate is revoked only for an authenticated admin with a non-blank
/// reason, after the certificate was found active and the admin token was used
/// for the first time, and with that reason and reason code.
pub proof fn lemma_revocation_only_after_every_check(
    states: Seq<RevokeState>,
    events: Seq<RevokeEvent>,
)
    requires
        revoke_run(states, events),
        states.last() is AwaitingRevocation,
    ensures
        events.len() == 4,
        events[0] == RevokeEvent::Admin(true),
        events[1] matches RevokeEvent::Body(input) && trimmed(input.reason@).len() > 0
            && states.last()->AwaitingRevocation_reason@ == trimmed(input.reason@)
            && states.last()->AwaitingRevocation_reason_code == chosen_reason_code(input.reason_code),
        events[2] matches RevokeEvent::Certificate(found) && found matches Some(c) && c.status@
            == "active"@,
        events[3] == RevokeEvent::TokenUse(true),
{
    lemma_revoke_stages(states, events, events.len() as int);
    assert(revoke_step(states[0], events[0], states[1]));
    assert(revoke_step(states[1], events[1], states[2]));
    assert(revoke_step(states[2], events[2], states[3]));
    assert(revoke_step(states[3], events[3], states[4]));
    lemma_revoke_stages(states, events, 1);
    lemma_revoke_stages(states, events, 2);
    lemma_revoke_stages(states, events, 3);
}

// ---------------------------------------------------------------------------
// Registration of an offline-issued certificate
// ---------------------------------------------------------------------------

/// Where a certificate registration stands, and what it waits for.
#[derive(Debug, PartialEq, Eq)]
pub enum RegisterState {
    /// The caller's active membership of the Developer is to be looked up.
    AwaitingMember,
    /// The request body is to be read.
    AwaitingBody { member: Member },
    /// The MCER wire bytes are to be decoded by the certificate crate.
    AwaitingDecoding { member: Member, wire: Vec<u8> },
    /// The Developer is to be looked up.
    AwaitingDeveloper { member: Member, wire: Vec<u8>, facts: CertificateFacts },
    /// The configured Root public keys are to be read.
    AwaitingRootKeys { member: Member, wire: Vec<u8>, facts: CertificateFacts },
    /// The certificate is to be verified against this Root key.
    AwaitingVerification {
        member: Member,
        wire: Vec<u8>,
        facts: CertificateFacts,
        root_key: [u8; 32],
    },
    /// The store is to record this certificate for this member.
    AwaitingStore { member: Member, record: RegisteredCertificate },
    /// The answer: the stored certificate, or the refusal.
    Done(Result<CertificateRow, ServiceError>),
}

/// What came of the outside work of a registration step.
#[derive(Debug, PartialEq, Eq)]
pub enum RegisterEvent {
    /// The caller's active membership, if any.
    Member(Option<Member>),
    /// The certificate text of the body, and the largest MCER value accepted.
    Body { certificate: String, max_len: usize },
    /// The decoded certificate's facts, or why it does not decode.
    Decoded(Result<CertificateFacts, String>),
    /// The Developer, if it exists.
    Developer(Option<Developer>),
    /// The configured Root public keys, if they could be read.
    RootKeys(Option<Vec<[u8; 32]>>),
    /// Whether the certificate verified, or why not.
    Verified(Result<(), String>),
    /// The stored certificate, if the Developer and member were eligible.
    Stored(Option<CertificateRow>),
}

/// The MCER bytes of a registration's certificate text: trimmed padded
/// standard Base64 of between one and `max_len` bytes.
pub open spec fn registration_bytes(certificate: Seq<char>, max_len: usize) -> Option<Seq<u8>> {
    match base64_standard_bytes(str_bytes(trimmed(certificate))) {
        Some(bytes) => if 0 < bytes.len() <= max_len {
            Some(bytes)
        } else {
            None
        },
        None => None,
    }
}

/// The values stored for a certificate with these facts and wire bytes.
pub open spec fn is_registered_record(
    record: RegisteredCertificate,
    facts: CertificateFacts,
    wire: Seq<u8>,
) -> bool {
    &&& record.serial@ == decimal(facts.serial_number as nat)
    &&& record.issuer@ == hex_lower(facts.issuer_key_id@)
    &&& record.certificate_json@ == base64_standard_text(wire)
    &&& record.not_before == facts.not_before as i64
    &&& record.not_after == facts.not_after as i64
}

/// Whether an event is what a registration state waits for.
pub open spec fn register_fits(state: RegisterState, event: RegisterEvent) -> bool {
    match state {
        RegisterState::AwaitingMember => event is Member,
        RegisterState::AwaitingBody { .. } => event is Body,
        RegisterState::AwaitingDecoding { .. } => event is Decoded,
        RegisterState::AwaitingDeveloper { .. } => event is Developer,
        RegisterState::AwaitingRootKeys { .. } => event is RootKeys,
        RegisterState::AwaitingVerification { .. } => event is Verified,
        RegisterState::AwaitingStore { .. } => event is Stored,
        RegisterState::Done(_) => false,
    }
}

/// One step of a registration: a missing membership, a role that may not
/// register, an unusable certificate text, a certificate that does not decode,
/// a missing Developer, a certificate of another Developer, missing Root keys
/// or an unknown issuer, and a failed verification are refused in that order,
/// and the store is asked to record the certificate only after all of them.
pub open spec fn register_step(state: RegisterState, event: RegisterEvent, next: RegisterState) -> bool {
    match state {
        RegisterState::AwaitingMember => match event {
            RegisterEvent::Member(found) => match found {
                None => next == RegisterState::Done(Err(ServiceError::MembershipRequired)),
                Some(m) => if requests_certificates(m.role@) {
                    next == RegisterState::AwaitingBody { member: m }
                } else {
                    next == RegisterState::Done(Err(ServiceError::CertificateRoleForbidden))
                },
            },
            _ => false,
        },
        RegisterState::AwaitingBody { member } => match event {
            RegisterEvent::Body { certificate, max_len } => match registration_bytes(
                certificate@,
                max_len,
            ) {
                Some(bytes) => next matches RegisterState::AwaitingDecoding { member: m, wire }
                    && m == member && wire@ == bytes,
                None => next matches RegisterState::Done(Err(ServiceError::CertificateInvalid(text)))
                    && text@ == certificate_text_message(),
            },
            _ => false,
        },
        RegisterState::AwaitingDecoding { member, wire } => match event {
            RegisterEvent::Decoded(decoded) => match decoded {
                Err(reason) => next == RegisterState::Done(
                    Err(ServiceError::CertificateInvalid(reason)),
                ),
                Ok(facts) => next == RegisterState::AwaitingDeveloper { member, wire, facts },
            },
            _ => false,
        },
        RegisterState::AwaitingDeveloper { member, wire, facts } => match event {
            RegisterEvent::Developer(found) => match found {
                None => next == RegisterState::Done(Err(ServiceError::DeveloperNotFound)),
                Some(d) => if facts.developer_id@ == d.certificate_developer_id@ {
                    next == RegisterState::AwaitingRootKeys { member, wire, facts }
                } else {
                    next == RegisterState::Done(Err(ServiceError::CertificateDeveloperMismatch))
                },
            },
            _ => false,
        },
        RegisterState::AwaitingRootKeys { member, wire, facts } => match event {
            RegisterEvent::RootKeys(keys) => match trusted_root_of(keys, facts.issuer_key_id@) {
                Ok(root_key) => next == RegisterState::AwaitingVerification {
                    member,
                    wire,
                    facts,
                    root_key,
                },
                Err(e) => next == RegisterState::Done(Err(e)),
            },
            _ => false,
        },
        RegisterState::AwaitingVerification { member, wire, facts, .. } => match event {
            RegisterEvent::Verified(verified) => match verified {
                Err(reason) => next == RegisterState::Done(
                    Err(ServiceError::CertificateInvalid(reason)),
                ),
                Ok(_) => next matches RegisterState::AwaitingStore { member: m, record } && m
                    == member && is_registered_record(record, facts, wire@),
            },
            _ => false,
        },
        RegisterState::AwaitingStore { .. } => match event {
            RegisterEvent::Stored(row) => match row {
                Some(r) => next == RegisterState::Done(Ok(r)),
                None => next == RegisterState::Done(Err(ServiceError::DeveloperNotEligible)),
            },
            _ => false,
        },
        RegisterState::Done(_) => false,
    }
}

/// Advances a certificate registration by what came of its last step.
pub fn register_next(state: RegisterState, event: RegisterEvent) -> (next: RegisterState)
    requires
        register_fits(state, event),
    ensures
        register_step(state, event, next),
{
    match state {
        RegisterState::AwaitingMember => match event {
            RegisterEvent::Member(found) => match found {
                None => RegisterState::Done(Err(ServiceError::MembershipRequired)),
                Some(m) => match certificate_role_check(m.role.as_str()) {
                    Ok(()) => RegisterState::AwaitingBody { member: m },
                    Err(e) => RegisterState::Done(Err(e)),
                },
            },
            _ => RegisterState::AwaitingMember,
        },
        RegisterState::AwaitingBody { member } => match event {
            RegisterEvent::Body { certificate, max_len } => match registration_wire(
                certificate.as_str(),
                max_len,
            ) {
                Ok(wire) => RegisterState::AwaitingDecoding { member, wire },
                Err(e) => RegisterState::Done(Err(e)),
            },
            _ => RegisterState::AwaitingBody { member },
        },
        RegisterState::AwaitingDecoding { member, wire } => match event {
            RegisterEvent::Decoded(decoded) => match decoded {
                Err(reason) => RegisterState::Done(Err(ServiceError::CertificateInvalid(reason))),
                Ok(facts) => RegisterState::AwaitingDeveloper { member, wire, facts },
            },
            _ => RegisterState::AwaitingDecoding { member, wire },
        },
        RegisterState::AwaitingDeveloper { member, wire, facts } => match event {
            RegisterEvent::Developer(found) => match found {
                None => RegisterState::Done(Err(ServiceError::DeveloperNotFound)),
                Some(d) => match developer_match(&facts, &d) {
                    Ok(()) => RegisterState::AwaitingRootKeys { member, wire, facts },
                    Err(e) => RegisterState::Done(Err(e)),
                },
            },
            _ => RegisterState::AwaitingDeveloper { member, wire, facts },
        },
        RegisterState::AwaitingRootKeys { member, wire, facts } => match event {
            RegisterEvent::RootKeys(keys) => match trusted_root(&keys, &facts.issuer_key_id) {
                Ok(root_key) => RegisterState::AwaitingVerification { member, wire, facts, root_key },
                Err(e) => RegisterState::Done(Err(e)),
            },
            _ => RegisterState::AwaitingRootKeys { member, wire, facts },
        },
        RegisterState::AwaitingVerification { member, wire, facts, root_key } => match event {
            RegisterEvent::Verified(verified) => match verified {
                Err(reason) => RegisterState::Done(Err(ServiceError::CertificateInvalid(reason))),
                Ok(()) => {
                    let record = registered_certificate(&facts, wire.as_slice());
                    RegisterState::AwaitingStore { member, record }
                },
            },
            _ => RegisterState::AwaitingVerification { member, wire, facts, root_key },
        },
        RegisterState::AwaitingStore { member, record } => match event {
            RegisterEvent::Stored(row) => RegisterState::Done(registration_outcome(row)),
            _ => RegisterState::AwaitingStore { member, record },
        },
        RegisterState::Done(answer) => RegisterState::Done(answer),
    }
}

/// A run of a registration: its states from the start, each the step of the
/// one before by the event between them.
pub open spec fn register_run(states: Seq<RegisterState>, events: Seq<RegisterEvent>) -> bool {
    &&& states.len() == events.len() + 1
    &&& states[0] == RegisterState::AwaitingMember
    &&& forall|i: int|
        #![trigger events[i]]
        0 <= i < events.len() ==> register_step(states[i], events[i], states[i + 1])
}

/// How many steps a registration state lies from the start.
pub open spec fn register_stage(state: RegisterState) -> int {
    match state {
        RegisterState::AwaitingMember => 0,
        RegisterState::AwaitingBody { .. } => 1,
        RegisterState::AwaitingDecoding { .. } => 2,
        RegisterState::AwaitingDeveloper { .. } => 3,
        RegisterState::AwaitingRootKeys { .. } => 4,
        RegisterState::AwaitingVerification { .. } => 5,
        RegisterState::AwaitingStore { .. } => 6,
        RegisterState::Done(_) => -1,
    }
}

proof fn lemma_register_stages(states: Seq<RegisterState>, events: Seq<RegisterEvent>, k: int)
    requires
        register_run(states, events),
        0 <= k <= events.len(),
    ensures
        states[k] is Done || register_stage(states[k]) == k,
    decreases k,
{
    if k > 0 {
        lemma_register_stages(states, events, k - 1);
        assert(register_step(states[k - 1], events[k - 1], states[k]));
    }
}

/// A certificate is stored only for a member whose role may register
/// certificates, after its text gave MCER bytes that decoded to a certificate
/// of this Developer, whose issuer is a configured Root key and which
/// verified; what is stored is the record of those facts and bytes.
pub proof fn lemma_store_only_after_every_check(
    states: Seq<RegisterState>,
    events: Seq<RegisterEvent>,
)
    requires
        register_run(states, events),
        states.last() is AwaitingStore,
    ensures
        events.len() == 6,
        events[0] matches RegisterEvent::Member(found) && found matches Some(m)
            && requests_certificates(m.role@) && states.last()->AwaitingStore_member == m,
        events[1] matches RegisterEvent::Body { certificate, max_len } && registration_bytes(
            certificate@,
            max_len,
        ) is Some,
        events[2] is Decoded && events[2]->Decoded_0 is Ok,
        is_registered_record(
            states.last()->AwaitingStore_record,
            events[2]->Decoded_0->Ok_0,
            registration_bytes(events[1]->certificate@, events[1]->max_len)->Some_0,
        ),
        events[3] is Developer && events[3]->Developer_0 is Some
            && events[2]->Decoded_0->Ok_0.developer_id@
            == events[3]->Developer_0->Some_0.certificate_developer_id@,
        events[4] is RootKeys && trusted_root_of(
            events[4]->RootKeys_0,
            events[2]->Decoded_0->Ok_0.issuer_key_id@,
        ) is Ok,
        events[5] matches RegisterEvent::Verified(verified) && verified is Ok,
{
    lemma_register_stages(states, events, events.len() as int);
    lemma_register_stages(states, events, 1);
    lemma_register_stages(states, events, 2);
    lemma_register_stages(states, events, 3);
    lemma_register_stages(states, events, 4);
    lemma_register_stages(states, events, 5);
    assert(register_step(states[0], events[0], states[1]));
    assert(register_step(states[1], events[1], states[2]));
    assert(register_step(states[2], events[2], states[3]));
    assert(register_step(states[3], events[3], states[4]));
    assert(register_step(states[4], events[4], states[5]));
    assert(register_step(states[5], events[5], states[6]));
}

} // verus!
