//! The canonical signing encodings are one to one: two snapshot contents that
//! can be signed give the same bytes exactly when they agree in every field.
use vstd::prelude::*;
use vstd::utf8::*;

use crate::bytes::{framed, le32, le64, str_bytes};
use crate::text::views;
use crate::trust::{
    encode_issuer, encode_issuers, encode_revocation, encode_revocations, encode_text,
    encode_texts, issuer_fits, reason_text, revocation_domain, revocation_encoding,
    revocation_fits, revocation_message, status_code, text_fits, trust_domain, trust_encoding,
    trust_fits, trust_message, IssuerRecord, IssuerStatus, RevocationReasonCode,
    SnapshotRevocation, UnsignedRevocationSnapshot, UnsignedTrustSnapshot,
};

verus! {

/// Two concatenations whose first parts have the same length agree part by part.
proof fn lemma_split_same_length(x1: Seq<u8>, r1: Seq<u8>, x2: Seq<u8>, r2: Seq<u8>)
    requires
        x1 + r1 == x2 + r2,
        x1.len() == x2.len(),
    ensures
        x1 == x2,
        r1 == r2,
{
    assert(x1 =~= (x1 + r1).take(x1.len() as int));
    assert(x2 =~= (x2 + r2).take(x2.len() as int));
    assert(r1 =~= (x1 + r1).skip(x1.len() as int));
    assert(r2 =~= (x2 + r2).skip(x2.len() as int));
}

proof fn lemma_le32_injective(a: u32, b: u32)
    requires
        le32(a) == le32(b),
    ensures
        a == b,
{
    assert(le32(a)[0] == le32(b)[0] && le32(a)[1] == le32(b)[1] && le32(a)[2] == le32(b)[2]
        && le32(a)[3] == le32(b)[3]);
    assert(a == b) by (bit_vector)
        requires
            (a & 0xff) as u8 == (b & 0xff) as u8,
            ((a >> 8u32) & 0xff) as u8 == ((b >> 8u32) & 0xff) as u8,
            ((a >> 16u32) & 0xff) as u8 == ((b >> 16u32) & 0xff) as u8,
            ((a >> 24u32) & 0xff) as u8 == ((b >> 24u32) & 0xff) as u8,
    ;
}

proof fn lemma_le64_injective(a: u64, b: u64)
    requires
        le64(a) == le64(b),
    ensures
        a == b,
{
    assert(le64(a)[0] == le64(b)[0] && le64(a)[1] == le64(b)[1] && le64(a)[2] == le64(b)[2]
        && le64(a)[3] == le64(b)[3] && le64(a)[4] == le64(b)[4] && le64(a)[5] == le64(b)[5]
        && le64(a)[6] == le64(b)[6] && le64(a)[7] == le64(b)[7]);
    assert(a == b) by (bit_vector)
        requires
            (a & 0xff) as u8 == (b & 0xff) as u8,
            ((a >> 8u64) & 0xff) as u8 == ((b >> 8u64) & 0xff) as u8,
            ((a >> 16u64) & 0xff) as u8 == ((b >> 16u64) & 0xff) as u8,
            ((a >> 24u64) & 0xff) as u8 == ((b >> 24u64) & 0xff) as u8,
            ((a >> 32u64) & 0xff) as u8 == ((b >> 32u64) & 0xff) as u8,
            ((a >> 40u64) & 0xff) as u8 == ((b >> 40u64) & 0xff) as u8,
            ((a >> 48u64) & 0xff) as u8 == ((b >> 48u64) & 0xff) as u8,
            ((a >> 56u64) & 0xff) as u8 == ((b >> 56u64) & 0xff) as u8,
    ;
}

proof fn lemma_concat_assoc(a: Seq<u8>, b: Seq<u8>, r: Seq<u8>)
    ensures
        (a + b) + r == a + (b + r),
{
    assert((a + b) + r =~= a + (b + r));
}

/// A `u32` field followed by more bytes is read back from the front.
proof fn lemma_le32_prefix(a: u32, r1: Seq<u8>, b: u32, r2: Seq<u8>)
    requires
        le32(a) + r1 == le32(b) + r2,
    ensures
        a == b,
        r1 == r2,
{
    lemma_split_same_length(le32(a), r1, le32(b), r2);
    lemma_le32_injective(a, b);
}

/// A `u64` field followed by more bytes is read back from the front.
proof fn lemma_le64_prefix(a: u64, r1: Seq<u8>, b: u64, r2: Seq<u8>)
    requires
        le64(a) + r1 == le64(b) + r2,
    ensures
        a == b,
        r1 == r2,
{
    lemma_split_same_length(le64(a), r1, le64(b), r2);
    lemma_le64_injective(a, b);
}

/// A framed byte string followed by more bytes is read back from the front.
proof fn lemma_framed_prefix(d1: Seq<u8>, r1: Seq<u8>, d2: Seq<u8>, r2: Seq<u8>)
    requires
        d1.len() <= u32::MAX,
        d2.len() <= u32::MAX,
        framed(d1) + r1 == framed(d2) + r2,
    ensures
        d1 == d2,
        r1 == r2,
{
    assert(framed(d1) + r1 =~= le32(d1.len() as u32) + (d1 + r1));
    assert(framed(d2) + r2 =~= le32(d2.len() as u32) + (d2 + r2));
    lemma_le32_prefix(d1.len() as u32, d1 + r1, d2.len() as u32, d2 + r2);
    lemma_split_same_length(d1, r1, d2, r2);
}

/// A framed text followed by more bytes is read back from the front.
proof fn lemma_text_prefix(t1: Seq<char>, r1: Seq<u8>, t2: Seq<char>, r2: Seq<u8>)
    requires
        text_fits(t1),
        text_fits(t2),
        encode_text(t1) + r1 == encode_text(t2) + r2,
    ensures
        t1 == t2,
        r1 == r2,
{
    lemma_framed_prefix(str_bytes(t1), r1, str_bytes(t2), r2);
    encode_utf8_decode_utf8(t1);
    encode_utf8_decode_utf8(t2);
}

/// Equally many framed texts followed by more bytes are read back from the front.
#[verifier::spinoff_prover]
proof fn lemma_texts_prefix(ts1: Seq<String>, r1: Seq<u8>, ts2: Seq<String>, r2: Seq<u8>)
    requires
        ts1.len() == ts2.len(),
        forall|j: int| 0 <= j < ts1.len() ==> text_fits(#[trigger] ts1[j]@),
        forall|j: int| 0 <= j < ts2.len() ==> text_fits(#[trigger] ts2[j]@),
        encode_texts(ts1) + r1 == encode_texts(ts2) + r2,
    ensures
        views(ts1) == views(ts2),
        r1 == r2,
    decreases ts1.len(),
{
    if ts1.len() == 0 {
        assert(encode_texts(ts1) + r1 =~= r1);
        assert(encode_texts(ts2) + r2 =~= r2);
        assert(views(ts1) =~= views(ts2));
    } else {
        let n = ts1.len() - 1;
        let l1 = ts1.last();
        let l2 = ts2.last();
        assert(text_fits(ts1[n]@) && text_fits(ts2[n]@));
        lemma_concat_assoc(encode_texts(ts1.drop_last()), encode_text(l1@), r1);
        lemma_concat_assoc(encode_texts(ts2.drop_last()), encode_text(l2@), r2);
        assert forall|j: int| 0 <= j < ts1.drop_last().len() implies text_fits(
            #[trigger] ts1.drop_last()[j]@,
        ) by {
            assert(ts1.drop_last()[j] == ts1[j]);
        }
        assert forall|j: int| 0 <= j < ts2.drop_last().len() implies text_fits(
            #[trigger] ts2.drop_last()[j]@,
        ) by {
            assert(ts2.drop_last()[j] == ts2[j]);
        }
        lemma_texts_prefix(ts1.drop_last(), encode_text(l1@) + r1, ts2.drop_last(), encode_text(l2@) + r2);
        lemma_text_prefix(l1@, r1, l2@, r2);
        assert forall|j: int| 0 <= j < ts1.len() implies views(ts1)[j] == views(ts2)[j] by {
            if j < n {
                assert(views(ts1.drop_last())[j] == views(ts2.drop_last())[j]);
            }
        }
        assert(views(ts1) =~= views(ts2));
    }
}

/// Texts that read the same encode the same.
proof fn lemma_texts_same(ts1: Seq<String>, ts2: Seq<String>)
    requires
        views(ts1) == views(ts2),
    ensures
        encode_texts(ts1) == encode_texts(ts2),
    decreases ts1.len(),
{
    assert(ts1.len() == views(ts1).len() && ts2.len() == views(ts2).len());
    if ts1.len() > 0 {
        let n = ts1.len() - 1;
        assert(views(ts1)[n] == views(ts2)[n]);
        assert(views(ts1.drop_last()) =~= views(ts2.drop_last())) by {
            assert forall|j: int| 0 <= j < n implies views(ts1.drop_last())[j] == views(
                ts2.drop_last(),
            )[j] by {
                assert(views(ts1)[j] == views(ts2)[j]);
            }
        }
        lemma_texts_same(ts1.drop_last(), ts2.drop_last());
    }
}


/// What the canonical encoding records of an Issuer record: its fields, each
/// text by its characters.
pub open spec fn issuer_view(issuer: IssuerRecord) -> (
    Seq<char>,
    Seq<char>,
    IssuerStatus,
    u64,
    u64,
    Seq<Seq<char>>,
) {
    (
        issuer.issuer_key_id@,
        issuer.public_key@,
        issuer.status,
        issuer.not_before,
        issuer.not_after,
        views(issuer.allowed_key_usages@),
    )
}

/// The views of a list of Issuer records.
pub open spec fn issuer_views(issuers: Seq<IssuerRecord>) -> Seq<
    (Seq<char>, Seq<char>, IssuerStatus, u64, u64, Seq<Seq<char>>),
> {
    issuers.map_values(|issuer: IssuerRecord| issuer_view(issuer))
}

/// What the canonical encoding records of a trust snapshot's content: every
/// field, each text by its characters.
pub open spec fn trust_content_view(content: UnsignedTrustSnapshot) -> (
    u32,
    u64,
    u64,
    u64,
    Seq<char>,
    Seq<(Seq<char>, Seq<char>, IssuerStatus, u64, u64, Seq<Seq<char>>)>,
    Seq<char>,
) {
    (
        content.format_version,
        content.snapshot_version,
        content.generated_at,
        content.expires_at,
        content.root_key_id@,
        issuer_views(content.issuers@),
        content.signature_algorithm@,
    )
}

proof fn lemma_status_code_injective(a: IssuerStatus, b: IssuerStatus)
    requires
        status_code(a) == status_code(b),
    ensures
        a == b,
{
}

/// An encoded Issuer record followed by more bytes is read back from the front.
proof fn lemma_issuer_prefix(i1: IssuerRecord, r1: Seq<u8>, i2: IssuerRecord, r2: Seq<u8>)
    requires
        issuer_fits(i1),
        issuer_fits(i2),
        encode_issuer(i1) + r1 == encode_issuer(i2) + r2,
    ensures
        issuer_view(i1) == issuer_view(i2),
        r1 == r2,
{
    let u1 = i1.allowed_key_usages@;
    let u2 = i2.allowed_key_usages@;
    let t1 = le64(i1.not_after) + (le32(u1.len() as u32) + (encode_texts(u1) + r1));
    let t2 = le64(i2.not_after) + (le32(u2.len() as u32) + (encode_texts(u2) + r2));
    let s1 = seq![status_code(i1.status)] + (le64(i1.not_before) + t1);
    let s2 = seq![status_code(i2.status)] + (le64(i2.not_before) + t2);
    assert(encode_issuer(i1) + r1 =~= encode_text(i1.issuer_key_id@) + (encode_text(
        i1.public_key@,
    ) + s1));
    assert(encode_issuer(i2) + r2 =~= encode_text(i2.issuer_key_id@) + (encode_text(
        i2.public_key@,
    ) + s2));
    lemma_text_prefix(
        i1.issuer_key_id@,
        encode_text(i1.public_key@) + s1,
        i2.issuer_key_id@,
        encode_text(i2.public_key@) + s2,
    );
    lemma_text_prefix(i1.public_key@, s1, i2.public_key@, s2);
    lemma_split_same_length(
        seq![status_code(i1.status)],
        le64(i1.not_before) + t1,
        seq![status_code(i2.status)],
        le64(i2.not_before) + t2,
    );
    assert(seq![status_code(i1.status)][0] == seq![status_code(i2.status)][0]);
    lemma_status_code_injective(i1.status, i2.status);
    lemma_le64_prefix(i1.not_before, t1, i2.not_before, t2);
    lemma_le64_prefix(
        i1.not_after,
        le32(u1.len() as u32) + (encode_texts(u1) + r1),
        i2.not_after,
        le32(u2.len() as u32) + (encode_texts(u2) + r2),
    );
    lemma_le32_prefix(u1.len() as u32, encode_texts(u1) + r1, u2.len() as u32, encode_texts(u2) + r2);
    lemma_texts_prefix(u1, r1, u2, r2);
}

/// Issuer records that read the same encode the same.
proof fn lemma_issuer_same(i1: IssuerRecord, i2: IssuerRecord)
    requires
        issuer_view(i1) == issuer_view(i2),
    ensures
        encode_issuer(i1) == encode_issuer(i2),
{
    lemma_texts_same(i1.allowed_key_usages@, i2.allowed_key_usages@);
    assert(i1.allowed_key_usages@.len() == views(i1.allowed_key_usages@).len());
    assert(i2.allowed_key_usages@.len() == views(i2.allowed_key_usages@).len());
}

/// Equally many encoded Issuer records followed by more bytes are read back
/// from the front.
#[verifier::spinoff_prover]
proof fn lemma_issuers_prefix(is1: Seq<IssuerRecord>, r1: Seq<u8>, is2: Seq<IssuerRecord>, r2: Seq<u8>)
    requires
        is1.len() == is2.len(),
        forall|j: int| 0 <= j < is1.len() ==> issuer_fits(#[trigger] is1[j]),
        forall|j: int| 0 <= j < is2.len() ==> issuer_fits(#[trigger] is2[j]),
        encode_issuers(is1) + r1 == encode_issuers(is2) + r2,
    ensures
        issuer_views(is1) == issuer_views(is2),
        r1 == r2,
    decreases is1.len(),
{
    if is1.len() == 0 {
        assert(encode_issuers(is1) + r1 =~= r1);
        assert(encode_issuers(is2) + r2 =~= r2);
        assert(issuer_views(is1) =~= issuer_views(is2));
    } else {
        let n = is1.len() - 1;
        let l1 = is1.last();
        let l2 = is2.last();
        assert(issuer_fits(is1[n]) && issuer_fits(is2[n]));
        lemma_concat_assoc(encode_issuers(is1.drop_last()), encode_issuer(l1), r1);
        lemma_concat_assoc(encode_issuers(is2.drop_last()), encode_issuer(l2), r2);
        assert forall|j: int| 0 <= j < is1.drop_last().len() implies issuer_fits(
            #[trigger] is1.drop_last()[j],
        ) by {
            assert(is1.drop_last()[j] == is1[j]);
        }
        assert forall|j: int| 0 <= j < is2.drop_last().len() implies issuer_fits(
            #[trigger] is2.drop_last()[j],
        ) by {
            assert(is2.drop_last()[j] == is2[j]);
        }
        lemma_issuers_prefix(is1.drop_last(), encode_issuer(l1) + r1, is2.drop_last(), encode_issuer(l2) + r2);
        lemma_issuer_prefix(l1, r1, l2, r2);
        assert forall|j: int| 0 <= j < is1.len() implies issuer_views(is1)[j] == issuer_views(is2)[j] by {
            if j < n {
                assert(issuer_views(is1.drop_last())[j] == issuer_views(is2.drop_last())[j]);
            }
        }
        assert(issuer_views(is1) =~= issuer_views(is2));
    }
}

/// Issuer lists that read the same encode the same.
proof fn lemma_issuers_same(is1: Seq<IssuerRecord>, is2: Seq<IssuerRecord>)
    requires
        issuer_views(is1) == issuer_views(is2),
    ensures
        encode_issuers(is1) == encode_issuers(is2),
    decreases is1.len(),
{
    assert(is1.len() == issuer_views(is1).len() && is2.len() == issuer_views(is2).len());
    if is1.len() > 0 {
        let n = is1.len() - 1;
        assert(issuer_views(is1)[n] == issuer_views(is2)[n]);
        lemma_issuer_same(is1[n], is2[n]);
        assert(issuer_views(is1.drop_last()) =~= issuer_views(is2.drop_last())) by {
            assert forall|j: int| 0 <= j < n implies issuer_views(is1.drop_last())[j]
                == issuer_views(is2.drop_last())[j] by {
                assert(issuer_views(is1)[j] == issuer_views(is2)[j]);
            }
        }
        lemma_issuers_same(is1.drop_last(), is2.drop_last());
    }
}

/// Trust snapshot contents with the same canonical bytes agree in every field.
#[verifier::rlimit(40)]
proof fn lemma_trust_read_back(a: UnsignedTrustSnapshot, b: UnsignedTrustSnapshot)
    requires
        trust_fits(a),
        trust_fits(b),
        trust_encoding(a) == trust_encoding(b),
    ensures
        trust_content_view(a) == trust_content_view(b),
{
    let e = Seq::<u8>::empty();
    let ia = a.issuers@;
    let ib = b.issuers@;
    let g1 = encode_issuers(ia) + (encode_text(a.signature_algorithm@) + e);
    let g2 = encode_issuers(ib) + (encode_text(b.signature_algorithm@) + e);
    let f1 = encode_text(a.root_key_id@) + (le32(ia.len() as u32) + g1);
    let f2 = encode_text(b.root_key_id@) + (le32(ib.len() as u32) + g2);
    let d1 = le64(a.generated_at) + (le64(a.expires_at) + f1);
    let d2 = le64(b.generated_at) + (le64(b.expires_at) + f2);
    let c1 = le32(a.format_version) + (le64(a.snapshot_version) + d1);
    let c2 = le32(b.format_version) + (le64(b.snapshot_version) + d2);
    assert(trust_encoding(a) =~= trust_domain() + c1);
    assert(trust_encoding(b) =~= trust_domain() + c2);
    lemma_split_same_length(trust_domain(), c1, trust_domain(), c2);
    lemma_le32_prefix(
        a.format_version,
        le64(a.snapshot_version) + d1,
        b.format_version,
        le64(b.snapshot_version) + d2,
    );
    lemma_le64_prefix(a.snapshot_version, d1, b.snapshot_version, d2);
    lemma_le64_prefix(
        a.generated_at,
        le64(a.expires_at) + f1,
        b.generated_at,
        le64(b.expires_at) + f2,
    );
    lemma_le64_prefix(a.expires_at, f1, b.expires_at, f2);
    lemma_text_prefix(
        a.root_key_id@,
        le32(ia.len() as u32) + g1,
        b.root_key_id@,
        le32(ib.len() as u32) + g2,
    );
    lemma_le32_prefix(ia.len() as u32, g1, ib.len() as u32, g2);
    lemma_issuers_prefix(
        ia,
        encode_text(a.signature_algorithm@) + e,
        ib,
        encode_text(b.signature_algorithm@) + e,
    );
    lemma_text_prefix(a.signature_algorithm@, e, b.signature_algorithm@, e);
}

/// The canonical encoding of trust snapshot contents whose lengths fit is one
/// to one: two such contents encode to the same bytes exactly when they agree
/// in every field.
pub proof fn lemma_trust_encoding_one_to_one(a: UnsignedTrustSnapshot, b: UnsignedTrustSnapshot)
    requires
        trust_fits(a),
        trust_fits(b),
    ensures
        (trust_encoding(a) == trust_encoding(b)) <==> (trust_content_view(a) == trust_content_view(b)),
{
    if trust_content_view(a) == trust_content_view(b) {
        lemma_issuers_same(a.issuers@, b.issuers@);
        assert(a.issuers@.len() == issuer_views(a.issuers@).len());
        assert(b.issuers@.len() == issuer_views(b.issuers@).len());
    }
    if trust_encoding(a) == trust_encoding(b) {
        lemma_trust_read_back(a, b);
    }
}

/// Two trust snapshots whose canonical bytes exist have the same canonical
/// bytes exactly when their contents agree in every field; the Root signature
/// is no part of them.
pub proof fn lemma_trust_canonical_bytes_identify_content(a: UnsignedTrustSnapshot, b: UnsignedTrustSnapshot)
    requires
        trust_message(a) is Ok,
        trust_message(b) is Ok,
    ensures
        (trust_message(a) == trust_message(b)) <==> (trust_content_view(a) == trust_content_view(b)),
{
    lemma_trust_encoding_one_to_one(a, b);
}

/// What the canonical encoding records of a revocation: its serial's
/// characters, its time and its reason.
pub open spec fn revocation_view(revocation: SnapshotRevocation) -> (Seq<char>, u64, RevocationReasonCode) {
    (revocation.certificate_serial@, revocation.revoked_at, revocation.reason_code)
}

/// The views of a list of revocations.
pub open spec fn revocation_views(revocations: Seq<SnapshotRevocation>) -> Seq<
    (Seq<char>, u64, RevocationReasonCode),
> {
    revocations.map_values(|revocation: SnapshotRevocation| revocation_view(revocation))
}

/// What the canonical encoding records of a revocation snapshot's content:
/// every field, each text by its characters.
pub open spec fn revocation_content_view(content: UnsignedRevocationSnapshot) -> (
    u32,
    u64,
    u64,
    u64,
    Seq<char>,
    Seq<(Seq<char>, u64, RevocationReasonCode)>,
    Seq<char>,
) {
    (
        content.format_version,
        content.snapshot_version,
        content.generated_at,
        content.expires_at,
        content.issuer_key_id@,
        revocation_views(content.revocations@),
        content.signature_algorithm@,
    )
}

proof fn lemma_reason_text_injective(a: RevocationReasonCode, b: RevocationReasonCode)
    requires
        reason_text(a) == reason_text(b),
    ensures
        a == b,
{
    reveal_strlit("key_compromise");
    reveal_strlit("developer_suspended");
    reveal_strlit("certificate_replaced");
    reveal_strlit("scope_violation");
    reveal_strlit("administrative");
    reveal_strlit("unspecified");
    assert(reason_text(RevocationReasonCode::KeyCompromise)[0] == 'k');
    assert(reason_text(RevocationReasonCode::DeveloperSuspended)[0] == 'd');
    assert(reason_text(RevocationReasonCode::CertificateReplaced)[0] == 'c');
    assert(reason_text(RevocationReasonCode::ScopeViolation)[0] == 's');
    assert(reason_text(RevocationReasonCode::Administrative)[0] == 'a');
    assert(reason_text(RevocationReasonCode::Unspecified)[0] == 'u');
    assert(reason_text(a)[0] == reason_text(b)[0]);
}

/// An encoded revocation followed by more bytes is read back from the front.
proof fn lemma_revocation_prefix(v1: SnapshotRevocation, r1: Seq<u8>, v2: SnapshotRevocation, r2: Seq<u8>)
    requires
        text_fits(v1.certificate_serial@) && text_fits(reason_text(v1.reason_code)),
        text_fits(v2.certificate_serial@) && text_fits(reason_text(v2.reason_code)),
        encode_revocation(v1) + r1 == encode_revocation(v2) + r2,
    ensures
        revocation_view(v1) == revocation_view(v2),
        r1 == r2,
{
    let t1 = le64(v1.revoked_at) + (encode_text(reason_text(v1.reason_code)) + r1);
    let t2 = le64(v2.revoked_at) + (encode_text(reason_text(v2.reason_code)) + r2);
    assert(encode_revocation(v1) + r1 =~= encode_text(v1.certificate_serial@) + t1);
    assert(encode_revocation(v2) + r2 =~= encode_text(v2.certificate_serial@) + t2);
    lemma_text_prefix(v1.certificate_serial@, t1, v2.certificate_serial@, t2);
    lemma_le64_prefix(
        v1.revoked_at,
        encode_text(reason_text(v1.reason_code)) + r1,
        v2.revoked_at,
        encode_text(reason_text(v2.reason_code)) + r2,
    );
    lemma_text_prefix(reason_text(v1.reason_code), r1, reason_text(v2.reason_code), r2);
    lemma_reason_text_injective(v1.reason_code, v2.reason_code);
}

/// Equally many encoded revocations followed by more bytes are read back from
/// the front.
#[verifier::spinoff_prover]
proof fn lemma_revocations_prefix(
    vs1: Seq<SnapshotRevocation>,
    r1: Seq<u8>,
    vs2: Seq<SnapshotRevocation>,
    r2: Seq<u8>,
)
    requires
        vs1.len() == vs2.len(),
        forall|j: int|
            0 <= j < vs1.len() ==> text_fits((#[trigger] vs1[j]).certificate_serial@) && text_fits(
                reason_text(vs1[j].reason_code),
            ),
        forall|j: int|
            0 <= j < vs2.len() ==> text_fits((#[trigger] vs2[j]).certificate_serial@) && text_fits(
                reason_text(vs2[j].reason_code),
            ),
        encode_revocations(vs1) + r1 == encode_revocations(vs2) + r2,
    ensures
        revocation_views(vs1) == revocation_views(vs2),
        r1 == r2,
    decreases vs1.len(),
{
    if vs1.len() == 0 {
        assert(encode_revocations(vs1) + r1 =~= r1);
        assert(encode_revocations(vs2) + r2 =~= r2);
        assert(revocation_views(vs1) =~= revocation_views(vs2));
    } else {
        let n = vs1.len() - 1;
        let l1 = vs1.last();
        let l2 = vs2.last();
        assert(text_fits(vs1[n].certificate_serial@) && text_fits(vs2[n].certificate_serial@));
        lemma_concat_assoc(encode_revocations(vs1.drop_last()), encode_revocation(l1), r1);
        lemma_concat_assoc(encode_revocations(vs2.drop_last()), encode_revocation(l2), r2);
        assert forall|j: int| 0 <= j < vs1.drop_last().len() implies text_fits(
            (#[trigger] vs1.drop_last()[j]).certificate_serial@,
        ) && text_fits(reason_text(vs1.drop_last()[j].reason_code)) by {
            assert(vs1.drop_last()[j] == vs1[j]);
        }
        assert forall|j: int| 0 <= j < vs2.drop_last().len() implies text_fits(
            (#[trigger] vs2.drop_last()[j]).certificate_serial@,
        ) && text_fits(reason_text(vs2.drop_last()[j].reason_code)) by {
            assert(vs2.drop_last()[j] == vs2[j]);
        }
        lemma_revocations_prefix(
            vs1.drop_last(),
            encode_revocation(l1) + r1,
            vs2.drop_last(),
            encode_revocation(l2) + r2,
        );
        lemma_revocation_prefix(l1, r1, l2, r2);
        assert forall|j: int| 0 <= j < vs1.len() implies revocation_views(vs1)[j]
            == revocation_views(vs2)[j] by {
            if j < n {
                assert(revocation_views(vs1.drop_last())[j] == revocation_views(vs2.drop_last())[j]);
            }
        }
        assert(revocation_views(vs1) =~= revocation_views(vs2));
    }
}

/// Revocation lists that read the same encode the same.
proof fn lemma_revocations_same(vs1: Seq<SnapshotRevocation>, vs2: Seq<SnapshotRevocation>)
    requires
        revocation_views(vs1) == revocation_views(vs2),
    ensures
        encode_revocations(vs1) == encode_revocations(vs2),
    decreases vs1.len(),
{
    assert(vs1.len() == revocation_views(vs1).len() && vs2.len() == revocation_views(vs2).len());
    if vs1.len() > 0 {
        let n = vs1.len() - 1;
        assert(revocation_views(vs1)[n] == revocation_views(vs2)[n]);
        assert(revocation_views(vs1.drop_last()) =~= revocation_views(vs2.drop_last())) by {
            assert forall|j: int| 0 <= j < n implies revocation_views(vs1.drop_last())[j]
                == revocation_views(vs2.drop_last())[j] by {
                assert(revocation_views(vs1)[j] == revocation_views(vs2)[j]);
            }
        }
        lemma_revocations_same(vs1.drop_last(), vs2.drop_last());
    }
}

/// Revocation snapshot contents with the same canonical bytes agree in every field.
#[verifier::rlimit(40)]
proof fn lemma_revocation_read_back(a: UnsignedRevocationSnapshot, b: UnsignedRevocationSnapshot)
    requires
        revocation_fits(a),
        revocation_fits(b),
        revocation_encoding(a) == revocation_encoding(b),
    ensures
        revocation_content_view(a) == revocation_content_view(b),
{
    let e = Seq::<u8>::empty();
    let va = a.revocations@;
    let vb = b.revocations@;
    let g1 = encode_revocations(va) + (encode_text(a.signature_algorithm@) + e);
    let g2 = encode_revocations(vb) + (encode_text(b.signature_algorithm@) + e);
    let f1 = encode_text(a.issuer_key_id@) + (le32(va.len() as u32) + g1);
    let f2 = encode_text(b.issuer_key_id@) + (le32(vb.len() as u32) + g2);
    let d1 = le64(a.generated_at) + (le64(a.expires_at) + f1);
    let d2 = le64(b.generated_at) + (le64(b.expires_at) + f2);
    let c1 = le32(a.format_version) + (le64(a.snapshot_version) + d1);
    let c2 = le32(b.format_version) + (le64(b.snapshot_version) + d2);
    assert(revocation_encoding(a) =~= revocation_domain() + c1);
    assert(revocation_encoding(b) =~= revocation_domain() + c2);
    lemma_split_same_length(revocation_domain(), c1, revocation_domain(), c2);
    lemma_le32_prefix(
        a.format_version,
        le64(a.snapshot_version) + d1,
        b.format_version,
        le64(b.snapshot_version) + d2,
    );
    lemma_le64_prefix(a.snapshot_version, d1, b.snapshot_version, d2);
    lemma_le64_prefix(
        a.generated_at,
        le64(a.expires_at) + f1,
        b.generated_at,
        le64(b.expires_at) + f2,
    );
    lemma_le64_prefix(a.expires_at, f1, b.expires_at, f2);
    lemma_text_prefix(
        a.issuer_key_id@,
        le32(va.len() as u32) + g1,
        b.issuer_key_id@,
        le32(vb.len() as u32) + g2,
    );
    lemma_le32_prefix(va.len() as u32, g1, vb.len() as u32, g2);
    lemma_revocations_prefix(
        va,
        encode_text(a.signature_algorithm@) + e,
        vb,
        encode_text(b.signature_algorithm@) + e,
    );
    lemma_text_prefix(a.signature_algorithm@, e, b.signature_algorithm@, e);
}

/// The canonical encoding of revocation snapshot contents whose lengths fit is
/// one to one: two such contents encode to the same bytes exactly when they
/// agree in every field.
pub proof fn lemma_revocation_encoding_one_to_one(
    a: UnsignedRevocationSnapshot,
    b: UnsignedRevocationSnapshot,
)
    requires
        revocation_fits(a),
        revocation_fits(b),
    ensures
        (revocation_encoding(a) == revocation_encoding(b)) <==> (revocation_content_view(a)
            == revocation_content_view(b)),
{
    if revocation_content_view(a) == revocation_content_view(b) {
        lemma_revocations_same(a.revocations@, b.revocations@);
        assert(a.revocations@.len() == revocation_views(a.revocations@).len());
        assert(b.revocations@.len() == revocation_views(b.revocations@).len());
    }
    if revocation_encoding(a) == revocation_encoding(b) {
        lemma_revocation_read_back(a, b);
    }
}

/// Two revocation snapshots whose canonical bytes exist have the same canonical
/// bytes exactly when their contents agree in every field; the Issuer
/// signature is no part of them.
pub proof fn lemma_revocation_canonical_bytes_identify_content(
    a: UnsignedRevocationSnapshot,
    b: UnsignedRevocationSnapshot,
)
    requires
        revocation_message(a) is Ok,
        revocation_message(b) is Ok,
    ensures
        (revocation_message(a) == revocation_message(b)) <==> (revocation_content_view(a)
            == revocation_content_view(b)),
{
    lemma_revocation_encoding_one_to_one(a, b);
}

} // verus!
