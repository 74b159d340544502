//! Developer Certificate requests and Root public key configuration.
//!
//! The MCER wire format and its scope and capability grammar belong to the
//! shared certificate crate; where a check here depends on its verdict, that
//! verdict is an argument, and this module does the rest.
use vstd::prelude::*;
use vstd::utf8::*;

use crate::bytes::{all_hex, all_hex_digits, array32, bytes_equal, bytes_lt, hex_char, hex_lower, lemma_hex_is_ascii, str_bytes};
use crate::crypto::{
    base64_standard_bytes, base64_standard_decode, base64_standard_encode, base64_standard_text,
    ed25519_key_decodes, ed25519_point_decodes, is_standard_base64_char,
    lemma_base64_text_is_ascii, sha256_of,
};
use crate::registration::mcer_key_id;
use crate::order::{
    dedup_sorted, has_key, keys_sorted, keys_strictly_sorted, lemma_bytes_lt_asymmetric,
    lemma_bytes_lt_irreflexive, lemma_bytes_lt_total, sort_by_key,
    SortKey,
};
use crate::text::{is_whitespace, message, split_on, split_text, take_chars, trim, trim_end, trim_start, trimmed, views};

verus! {

broadcast use is_ascii_chars_encode_utf8;

pub const SIGNATURE_ALGORITHM: &'static str = "ed25519";

/// The most capabilities a certificate request may carry.
pub const MAX_CAPABILITIES: usize = 512;

#[derive(Clone, Debug, PartialEq, Eq)]
pub struct CertificateRegistrationInput {
    pub certificate: String,
}

#[derive(Clone, Debug, PartialEq, Eq)]
pub struct CertificateRequestInput {
    pub signature_algorithm: String,
    pub subject_public_key: String,
    pub package_id_scopes: Vec<String>,
    pub allowed_capabilities: Vec<String>,
}

/// Whether a package scope names one package or every package under a prefix.
#[derive(Clone, Copy, Debug, PartialEq, Eq, Structural)]
pub enum ScopeKind {
    Exact,
    Prefix,
}

/// A package ID scope as read from its text (`org.example.app` or `org.example.*`).
#[derive(Clone, Debug, PartialEq, Eq)]
pub struct PackageScope {
    pub kind: ScopeKind,
    pub package_id: String,
}

impl SortKey for PackageScope {
    open spec fn key(&self) -> Seq<u8> {
        str_bytes(self.package_id@)
    }

    fn key_bytes(&self) -> (bytes: &[u8]) {
        self.package_id.as_str().as_bytes()
    }
}

// ---------------------------------------------------------------------------
// Messages
// ---------------------------------------------------------------------------

pub open spec fn unsupported_algorithm_message() -> Seq<char> {
    "unsupported signature algorithm"@
}

pub open spec fn duplicate_scope_message() -> Seq<char> {
    "duplicate package id scope"@
}

pub open spec fn missing_scope_message() -> Seq<char> {
    "at least one package id scope is required"@
}

pub open spec fn single_scope_message() -> Seq<char> {
    "exactly one package id scope is required"@
}

pub open spec fn prefix_scope_message() -> Seq<char> {
    "prefix package id scopes are not accepted"@
}

pub open spec fn too_many_capabilities_message() -> Seq<char> {
    "too many capabilities"@
}

pub open spec fn invalid_capability_message() -> Seq<char> {
    "invalid capability"@
}

pub open spec fn duplicate_capability_message() -> Seq<char> {
    "duplicate capability"@
}

pub open spec fn key_encoding_message() -> Seq<char> {
    "invalid public key encoding"@
}

pub open spec fn key_length_message() -> Seq<char> {
    "Ed25519 public key must be 32 bytes"@
}

pub open spec fn key_point_message() -> Seq<char> {
    "invalid Ed25519 public key"@
}

pub open spec fn root_encoding_message() -> Seq<char> {
    "invalid Root public key encoding"@
}

pub open spec fn root_length_message() -> Seq<char> {
    "Root public key must be 32 bytes"@
}

pub open spec fn root_missing_message() -> Seq<char> {
    "at least one Root public key is required"@
}

pub open spec fn wire_encoding_message() -> Seq<char> {
    "invalid certificate wire encoding"@
}

// ---------------------------------------------------------------------------
// Package scopes and capabilities
// ---------------------------------------------------------------------------

/// A scope text that ends in `.*`.
pub open spec fn is_prefix_text(text: Seq<char>) -> bool {
    text.len() >= 2 && text[text.len() - 2] == '.' && text[text.len() - 1] == '*'
}

/// The kind and package ID a scope text stands for.
pub open spec fn scope_of(text: Seq<char>) -> (ScopeKind, Seq<char>) {
    if is_prefix_text(text) {
        (ScopeKind::Prefix, text.take(text.len() - 2))
    } else {
        (ScopeKind::Exact, text)
    }
}

/// `scope` is what `text` stands for.
pub open spec fn scope_reads(scope: PackageScope, text: Seq<char>) -> bool {
    (scope.kind, scope.package_id@) == scope_of(text)
}

/// Two scope texts of the list stand for the same scope.
pub open spec fn has_duplicate_scope(texts: Seq<String>) -> bool {
    exists|i: int, j: int|
        0 <= i < j < texts.len() && scope_of(#[trigger] texts[i]@) == scope_of(#[trigger] texts[j]@)
}

/// Two texts of the list are equal.
pub open spec fn has_duplicate_text(texts: Seq<String>) -> bool {
    exists|i: int, j: int| 0 <= i < j < texts.len() && #[trigger] texts[i]@ == #[trigger] texts[j]@
}

/// Some scope of the list is what `text` stands for.
pub open spec fn some_scope_reads(scopes: Seq<PackageScope>, text: Seq<char>) -> bool {
    exists|j: int| 0 <= j < scopes.len() && scope_reads(#[trigger] scopes[j], text)
}

/// `scope` is what some text of the list stands for.
pub open spec fn read_from_some_text(scope: PackageScope, texts: Seq<String>) -> bool {
    exists|i: int| 0 <= i < texts.len() && scope_reads(scope, #[trigger] texts[i]@)
}

/// `scopes` holds, in package-ID order, exactly what each of the texts stands for.
pub open spec fn scopes_read(scopes: Seq<PackageScope>, texts: Seq<String>) -> bool {
    &&& scopes.len() == texts.len()
    &&& keys_sorted(scopes)
    &&& forall|i: int| 0 <= i < texts.len() ==> some_scope_reads(scopes, #[trigger] texts[i]@)
    &&& forall|j: int| 0 <= j < scopes.len() ==> read_from_some_text(#[trigger] scopes[j], texts)
}

fn read_scope(text: &String) -> (scope: PackageScope)
    ensures
        scope_reads(scope, text@),
{
    let chars = text.as_str();
    let count = chars.unicode_len();
    if count >= 2 && chars.get_char(count - 2) == '.' && chars.get_char(count - 1) == '*' {
        return PackageScope { kind: ScopeKind::Prefix, package_id: take_chars(chars, count - 2) };
    }
    PackageScope { kind: ScopeKind::Exact, package_id: text.clone() }
}

fn duplicate_scope(texts: &Vec<String>) -> (duplicate: bool)
    ensures
        duplicate == has_duplicate_scope(texts@),
{
    let mut scopes: Vec<PackageScope> = Vec::new();
    let mut i: usize = 0;
    while i < texts.len()
        invariant
            i <= texts@.len(),
            scopes@.len() == i,
            forall|k: int| 0 <= k < i ==> scope_reads(#[trigger] scopes@[k], texts@[k]@),
            forall|a: int, b: int|
                0 <= a < b < i ==> scope_of(#[trigger] texts@[a]@) != scope_of(
                    #[trigger] texts@[b]@,
                ),
        decreases texts@.len() - i,
    {
        let scope = read_scope(&texts[i]);
        let mut k: usize = 0;
        while k < i
            invariant
                k <= i,
                i < texts@.len(),
                scopes@.len() == i,
                forall|m: int| 0 <= m < i ==> scope_reads(#[trigger] scopes@[m], texts@[m]@),
                scope_reads(scope, texts@[i as int]@),
                forall|m: int| 0 <= m < k ==> scope_of(#[trigger] texts@[m]@) != scope_of(
                    texts@[i as int]@,
                ),
            decreases i - k,
        {
            if scopes[k].kind == scope.kind && scopes[k].package_id == scope.package_id {
                assert(scope_of(texts@[k as int]@) == scope_of(texts@[i as int]@));
                return true;
            }
            k = k + 1;
        }
        scopes.push(scope);
        i = i + 1;
    }
    false
}

/// The scopes that a list of scope texts stands for, in package-ID order: what
/// the shared certificate validator is asked about.
pub fn scope_list(texts: &Vec<String>) -> (scopes: Vec<PackageScope>)
    ensures
        scopes_read(scopes@, texts@),
{
    let mut read: Vec<PackageScope> = Vec::new();
    let mut i: usize = 0;
    while i < texts.len()
        invariant
            i <= texts@.len(),
            read@.len() == i,
            forall|k: int| 0 <= k < i ==> scope_reads(#[trigger] read@[k], texts@[k]@),
        decreases texts@.len() - i,
    {
        read.push(read_scope(&texts[i]));
        i = i + 1;
    }
    let ghost unsorted = read@;
    let sorted = sort_by_key(read);
    proof {
        broadcast use vstd::seq_lib::group_to_multiset_ensures;

        assert forall|i: int| 0 <= i < texts@.len() implies some_scope_reads(sorted@, #[trigger] texts@[i]@) by {
            assert(unsorted.to_multiset().count(unsorted[i]) > 0);
            assert(sorted@.contains(unsorted[i]));
            let j = choose|j: int| 0 <= j < sorted@.len() && sorted@[j] == unsorted[i];
            assert(scope_reads(sorted@[j], texts@[i]@));
        }
        assert forall|j: int| 0 <= j < sorted@.len() implies read_from_some_text(#[trigger] sorted@[j], texts@) by {
            assert(sorted@.to_multiset().count(sorted@[j]) > 0);
            assert(unsorted.contains(sorted@[j]));
            let i = choose|i: int| 0 <= i < unsorted.len() && unsorted[i] == sorted@[j];
            assert(scope_reads(sorted@[j], texts@[i]@));
        }
    }
    sorted
}

/// Reads scope texts: no two may stand for the same scope, and then the shared
/// certificate validator's verdict on the `scope_list` of the texts decides.
pub fn parse_scopes(texts: &Vec<String>, shared_verdict: Result<(), String>) -> (scopes: Result<
    Vec<PackageScope>,
    String,
>)
    ensures
        has_duplicate_scope(texts@) ==> (scopes matches Err(e) && e@ == duplicate_scope_message()),
        !has_duplicate_scope(texts@) ==> match shared_verdict {
            Err(e) => scopes == Err::<Vec<PackageScope>, String>(e),
            Ok(_) => scopes matches Ok(list) && scopes_read(list@, texts@),
        },
{
    if duplicate_scope(texts) {
        return Err(message("duplicate package id scope"));
    }
    match shared_verdict {
        Err(e) => Err(e),
        Ok(_) => Ok(scope_list(texts)),
    }
}

/// The text of a scope: its package ID, followed by `.*` for a prefix scope.
pub open spec fn scope_text(kind: ScopeKind, package_id: Seq<char>) -> Seq<char> {
    match kind {
        ScopeKind::Exact => package_id,
        ScopeKind::Prefix => package_id + ".*"@,
    }
}

/// The text of a package scope.
pub fn scope_string(scope: &PackageScope) -> (text: String)
    ensures
        text@ == scope_text(scope.kind, scope.package_id@),
{
    match scope.kind {
        ScopeKind::Exact => scope.package_id.clone(),
        ScopeKind::Prefix => {
            let mut text = scope.package_id.clone();
            text.append(".*");
            text
        },
    }
}

/// Reading a scope text and writing the scope back gives the same text.
pub proof fn lemma_scope_text_round_trip(text: Seq<char>)
    ensures
        scope_text(scope_of(text).0, scope_of(text).1) == text,
{
    reveal_strlit(".*");
    if is_prefix_text(text) {
        assert(text.take(text.len() - 2) + ".*"@ =~= text);
    }
}

/// Checks one capability: the shared certificate validator's verdict decides.
pub fn validate_capability(capability_valid: bool) -> (result: Result<(), String>)
    ensures
        capability_valid ==> result == Ok::<(), String>(()),
        !capability_valid ==> (result matches Err(e) && e@ == invalid_capability_message()),
{
    if capability_valid {
        Ok(())
    } else {
        Err(message("invalid capability"))
    }
}

/// Checks one package scope text: the shared certificate validator's verdict on
/// its scope decides.
pub fn validate_package_scope(value: &str, shared_verdict: Result<(), String>) -> (result: Result<
    (),
    String,
>)
    ensures
        result == shared_verdict,
{
    let texts = vec![message(value)];
    assert(!has_duplicate_scope(texts@));
    let parsed = parse_scopes(&texts, shared_verdict);
    match parsed {
        Ok(_) => {
            assert(shared_verdict is Ok);
            let unit: () = ();
            assert(shared_verdict->Ok_0 == unit);
            Ok(())
        },
        Err(e) => {
            assert(shared_verdict is Err);
            Err(e)
        },
    }
}

fn all_true(flags: &Vec<bool>) -> (all: bool)
    ensures
        all == forall|i: int| 0 <= i < flags@.len() ==> #[trigger] flags@[i],
{
    let mut i: usize = 0;
    while i < flags.len()
        invariant
            i <= flags@.len(),
            forall|k: int| 0 <= k < i ==> #[trigger] flags@[k],
        decreases flags@.len() - i,
    {
        if !flags[i] {
            return false;
        }
        i = i + 1;
    }
    true
}

fn duplicate_text(texts: &Vec<String>) -> (duplicate: bool)
    ensures
        duplicate == has_duplicate_text(texts@),
{
    let mut i: usize = 0;
    while i < texts.len()
        invariant
            i <= texts@.len(),
            forall|a: int, b: int| 0 <= a < b < i ==> #[trigger] texts@[a]@ != #[trigger] texts@[b]@,
        decreases texts@.len() - i,
    {
        let mut k: usize = 0;
        while k < i
            invariant
                k <= i < texts@.len(),
                forall|m: int| 0 <= m < k ==> texts@[m]@ != texts@[i as int]@,
            decreases i - k,
        {
            if texts[k] == texts[i] {
                return true;
            }
            k = k + 1;
        }
        i = i + 1;
    }
    false
}

// ---------------------------------------------------------------------------
// Public keys
// ---------------------------------------------------------------------------

/// The outcome of decoding a Base64 Ed25519 public key: its bytes, or the message.
pub open spec fn public_key_decoding(text: Seq<char>) -> Result<Seq<u8>, Seq<char>> {
    match base64_standard_bytes(str_bytes(text)) {
        None => Err(key_encoding_message()),
        Some(bytes) => if bytes.len() != 32 {
            Err(key_length_message())
        } else if !ed25519_point_decodes(bytes) {
            Err(key_point_message())
        } else {
            Ok(bytes)
        },
    }
}

/// `result` carries the same outcome as `expected`, with the error as a `String`.
pub open spec fn same_outcome(result: Result<[u8; 32], String>, expected: Result<Seq<u8>, Seq<char>>) -> bool {
    match (result, expected) {
        (Ok(key), Ok(bytes)) => key@ == bytes,
        (Err(e), Err(text)) => e@ == text,
        _ => false,
    }
}

fn decode_public_key(encoded: &str) -> (key: Result<[u8; 32], String>)
    ensures
        same_outcome(key, public_key_decoding(encoded@)),
{
    let bytes = match base64_standard_decode(encoded.as_bytes()) {
        Some(bytes) => bytes,
        None => return Err(message("invalid public key encoding")),
    };
    if bytes.len() != 32 {
        return Err(message("Ed25519 public key must be 32 bytes"));
    }
    let key = array32(bytes.as_slice());
    if !ed25519_key_decodes(&key) {
        return Err(message("invalid Ed25519 public key"));
    }
    Ok(key)
}

/// The padded standard Base64 text of a public key.
pub fn encoded_public_key(key: &[u8; 32]) -> (text: String)
    ensures
        text@ == base64_standard_text(key@),
        base64_standard_bytes(str_bytes(text@)) == Some(key@),
        root_key_reading(text@) == Ok::<Seq<u8>, Seq<char>>(key@),
{
    let text = base64_standard_encode(key.as_slice());
    proof {
        lemma_base64_root_key(text@, key@);
    }
    text
}

/// The padded standard Base64 text of MCER wire bytes.
pub fn encode_base64(wire: &[u8]) -> (text: String)
    ensures
        text@ == base64_standard_text(wire@),
        base64_standard_bytes(str_bytes(text@)) == Some(wire@),
        wire@.len() == 32 ==> root_key_reading(text@) == Ok::<Seq<u8>, Seq<char>>(wire@),
{
    let text = base64_standard_encode(wire);
    proof {
        if wire@.len() == 32 {
            lemma_base64_root_key(text@, wire@);
        }
    }
    text
}

/// The padded Base64 text of a 32-byte key reads back as that key: it is 44
/// characters, not 64 hexadecimal digits, and has no whitespace to trim.
pub proof fn lemma_base64_root_key(text: Seq<char>, key: Seq<u8>)
    requires
        key.len() == 32,
        text.len() == 4 * ((key.len() + 2) / 3),
        forall|i: int| 0 <= i < text.len() ==> is_standard_base64_char(#[trigger] text[i]),
        base64_standard_bytes(str_bytes(text)) == Some(key),
    ensures
        root_key_reading(text) == Ok::<Seq<u8>, Seq<char>>(key),
{
    assert(text.len() == 44);
    lemma_base64_text_is_ascii(text);
    assert(is_standard_base64_char(text[0]));
    assert(is_standard_base64_char(text.last()));
    assert(trim_start(text) == text);
    assert(trim_end(text) == text);
    assert(str_bytes(text).len() == 44);
}

/// The MCER wire bytes of a padded standard Base64 text.
pub fn decode_wire_base64(wire: &str) -> (bytes: Result<Vec<u8>, String>)
    ensures
        match bytes {
            Ok(b) => base64_standard_bytes(str_bytes(wire@)) == Some(b@),
            Err(e) => base64_standard_bytes(str_bytes(wire@)) is None && e@
                == wire_encoding_message(),
        },
{
    match base64_standard_decode(wire.as_bytes()) {
        Some(bytes) => Ok(bytes),
        None => Err(message("invalid certificate wire encoding")),
    }
}

/// Lowercase hexadecimal text of a byte string.
pub fn hex(bytes: &[u8]) -> (text: String)
    ensures
        text@ == hex_lower(bytes@),
{
    crate::bytes::hex(bytes)
}

// ---------------------------------------------------------------------------
// Certificate requests
// ---------------------------------------------------------------------------

/// The check of a certificate request, given the shared certificate validator's
/// verdict on its scopes and on each of its capabilities, with the first error.
pub open spec fn request_check(
    input: CertificateRequestInput,
    scope_verdict: Result<(), String>,
    capability_valid: Seq<bool>,
) -> Result<Seq<u8>, Seq<char>> {
    if str_bytes(input.signature_algorithm@) != seq![101u8, 100, 50, 53, 53, 49, 57] {
        Err(unsupported_algorithm_message())
    } else if has_duplicate_scope(input.package_id_scopes@) {
        Err(duplicate_scope_message())
    } else if scope_verdict is Err {
        Err(scope_verdict->Err_0@)
    } else if input.package_id_scopes@.len() == 0 {
        Err(missing_scope_message())
    } else if input.package_id_scopes@.len() > 1 {
        Err(single_scope_message())
    } else if is_prefix_text(input.package_id_scopes@[0]@) {
        Err(prefix_scope_message())
    } else if input.allowed_capabilities@.len() > MAX_CAPABILITIES {
        Err(too_many_capabilities_message())
    } else if exists|i: int| 0 <= i < capability_valid.len() && !#[trigger] capability_valid[i] {
        Err(invalid_capability_message())
    } else if has_duplicate_text(input.allowed_capabilities@) {
        Err(duplicate_capability_message())
    } else {
        public_key_decoding(input.subject_public_key@)
    }
}

/// The request's capabilities in strictly ascending byte order, each exactly
/// as often as in the request.
pub open spec fn capabilities_canonical(sorted: Seq<String>, capabilities: Seq<String>) -> bool {
    &&& sorted.to_multiset() == capabilities.to_multiset()
    &&& keys_strictly_sorted(sorted)
}

/// A byte-sorted rearrangement of texts of which no two are equal is strictly
/// ascending.
proof fn lemma_sorted_distinct_strict(sorted: Seq<String>, texts: Seq<String>)
    requires
        sorted.to_multiset() == texts.to_multiset(),
        keys_sorted(sorted),
        !has_duplicate_text(texts),
    ensures
        keys_strictly_sorted(sorted),
{
    broadcast use vstd::seq_lib::group_to_multiset_ensures;

    assert(texts.no_duplicates()) by {
        assert forall|a: int, b: int| 0 <= a < texts.len() && 0 <= b < texts.len() && a != b
            implies texts[a] != texts[b] by {
            if a < b {
                assert(texts[a]@ != texts[b]@);
            } else {
                assert(texts[b]@ != texts[a]@);
            }
        }
    }
    texts.lemma_multiset_has_no_duplicates();
    assert forall|x: String| sorted.to_multiset().contains(x) implies sorted.to_multiset().count(
        x,
    ) == 1 by {}
    sorted.lemma_multiset_has_no_duplicates_conv();
    assert forall|i: int, j: int| 0 <= i < j < sorted.len() implies bytes_lt(
        #[trigger] sorted[i].key(),
        #[trigger] sorted[j].key(),
    ) by {
        assert(sorted[i] != sorted[j]);
        assert(sorted.to_multiset().count(sorted[i]) > 0);
        assert(sorted.to_multiset().count(sorted[j]) > 0);
        assert(texts.contains(sorted[i]));
        assert(texts.contains(sorted[j]));
        let a = choose|a: int| 0 <= a < texts.len() && texts[a] == sorted[i];
        let b = choose|b: int| 0 <= b < texts.len() && texts[b] == sorted[j];
        if a < b {
            assert(texts[a]@ != texts[b]@);
        } else {
            assert(texts[b]@ != texts[a]@);
        }
        encode_utf8_decode_utf8(sorted[i]@);
        encode_utf8_decode_utf8(sorted[j]@);
        assert(sorted[i].key() != sorted[j].key());
        lemma_bytes_lt_total(sorted[i].key(), sorted[j].key());
    }
}

impl CertificateRequestInput {
    /// Checks the request: algorithm, scopes (exactly one, naming one package),
    /// capabilities (at most 512, each valid, none repeated) and subject key; gives
    /// the subject public key. `scope_verdict` is the shared validator's verdict on
    /// `scope_list(&self.package_id_scopes)`; `capability_valid[i]` its verdict on
    /// capability `i`.
    pub fn validate(&self, scope_verdict: Result<(), String>, capability_valid: &Vec<bool>) -> (key: Result<
        [u8; 32],
        String,
    >)
        requires
            capability_valid@.len() == self.allowed_capabilities@.len(),
        ensures
            same_outcome(key, request_check(*self, scope_verdict, capability_valid@)),
    {
        let name: [u8; 7] = [101, 100, 50, 53, 53, 49, 57];
        if !bytes_equal(self.signature_algorithm.as_str().as_bytes(), name.as_slice()) {
            return Err(message("unsupported signature algorithm"));
        }
        let scopes = match parse_scopes(&self.package_id_scopes, scope_verdict) {
            Ok(scopes) => scopes,
            Err(e) => return Err(e),
        };
        if scopes.len() == 0 {
            return Err(message("at least one package id scope is required"));
        }
        if scopes.len() > 1 {
            return Err(message("exactly one package id scope is required"));
        }
        assert(scope_reads(scopes@[0], self.package_id_scopes@[0]@)) by {
            assert(some_scope_reads(scopes@, self.package_id_scopes@[0]@));
        }
        if scopes[0].kind == ScopeKind::Prefix {
            return Err(message("prefix package id scopes are not accepted"));
        }
        if self.allowed_capabilities.len() > MAX_CAPABILITIES {
            return Err(message("too many capabilities"));
        }
        if !all_true(capability_valid) {
            return Err(message("invalid capability"));
        }
        if duplicate_text(&self.allowed_capabilities) {
            return Err(message("duplicate capability"));
        }
        decode_public_key(self.subject_public_key.as_str())
    }

    /// The request's capabilities in canonical (byte) order, once the request is valid.
    pub fn canonical_capabilities(&self, scope_verdict: Result<(), String>, capability_valid: &Vec<
        bool,
    >) -> (capabilities: Result<Vec<String>, String>)
        requires
            capability_valid@.len() == self.allowed_capabilities@.len(),
        ensures
            match request_check(*self, scope_verdict, capability_valid@) {
                Err(text) => capabilities matches Err(e) && e@ == text,
                Ok(_) => capabilities matches Ok(sorted) && capabilities_canonical(
                    sorted@,
                    self.allowed_capabilities@,
                ),
            },
    {
        match self.validate(scope_verdict, capability_valid) {
            Ok(_) => {},
            Err(e) => return Err(e),
        }
        let mut copy: Vec<String> = Vec::new();
        let mut i: usize = 0;
        while i < self.allowed_capabilities.len()
            invariant
                i <= self.allowed_capabilities@.len(),
                copy@ == self.allowed_capabilities@.take(i as int),
            decreases self.allowed_capabilities@.len() - i,
        {
            copy.push(self.allowed_capabilities[i].clone());
            i = i + 1;
            assert(copy@ =~= self.allowed_capabilities@.take(i as int));
        }
        assert(self.allowed_capabilities@.take(i as int) =~= self.allowed_capabilities@);
        let sorted = sort_by_key(copy);
        proof {
            lemma_sorted_distinct_strict(sorted@, self.allowed_capabilities@);
        }
        Ok(sorted)
    }

    /// The key ID of a valid request's subject key, in lowercase hex.
    pub fn subject_key_id(&self, scope_verdict: Result<(), String>, capability_valid: &Vec<bool>) -> (id:
        Result<String, String>)
        requires
            capability_valid@.len() == self.allowed_capabilities@.len(),
        ensures
            match request_check(*self, scope_verdict, capability_valid@) {
                Err(text) => id matches Err(e) && e@ == text,
                Ok(key) => id matches Ok(i) && i@ == hex_lower(sha256_of(key)),
            },
    {
        let key = match self.validate(scope_verdict, capability_valid) {
            Ok(key) => key,
            Err(e) => return Err(e),
        };
        Ok(issuer_key_id(&key))
    }

    /// The request's package scopes in canonical order, once they are valid.
    pub fn canonical_scopes(&self, scope_verdict: Result<(), String>) -> (scopes: Result<
        Vec<PackageScope>,
        String,
    >)
        ensures
            has_duplicate_scope(self.package_id_scopes@) ==> (scopes matches Err(e) && e@
                == duplicate_scope_message()),
            !has_duplicate_scope(self.package_id_scopes@) ==> match scope_verdict {
                Err(e) => scopes == Err::<Vec<PackageScope>, String>(e),
                Ok(_) => scopes matches Ok(list) && scopes_read(list@, self.package_id_scopes@),
            },
    {
        parse_scopes(&self.package_id_scopes, scope_verdict)
    }

    /// The subject public key's 32 bytes.
    pub fn subject_public_key_bytes(&self) -> (key: Result<[u8; 32], String>)
        ensures
            same_outcome(key, public_key_decoding(self.subject_public_key@)),
    {
        decode_public_key(self.subject_public_key.as_str())
    }
}

/// The key ID of an MCER key, in lowercase hex.
pub fn issuer_key_id(key: &[u8; 32]) -> (id: String)
    ensures
        id@ == hex_lower(sha256_of(key@)),
{
    let digest = mcer_key_id(key);
    crate::bytes::hex(digest.as_slice())
}

/// A request that passes validation gives as its key exactly what reading its
/// subject public key gives.
pub proof fn lemma_validated_key_is_subject_key(
    input: CertificateRequestInput,
    scope_verdict: Result<(), String>,
    capability_valid: Seq<bool>,
)
    requires
        request_check(input, scope_verdict, capability_valid) is Ok,
    ensures
        request_check(input, scope_verdict, capability_valid) == public_key_decoding(
            input.subject_public_key@,
        ),
{
}

/// A subject key text whose Base64 gives a 32-byte Ed25519 point reads back as
/// that key, as the text that `request_from_certificate` writes for a
/// certificate's key does.
pub proof fn lemma_subject_key_text_reads_back(text: Seq<char>, key: Seq<u8>)
    requires
        base64_standard_bytes(str_bytes(text)) == Some(key),
        key.len() == 32,
        ed25519_point_decodes(key),
    ensures
        public_key_decoding(text) == Ok::<Seq<u8>, Seq<char>>(key),
{
}

/// The request that an issued certificate answers: Ed25519, its subject key in
/// Base64, its scopes as text and its capabilities.
pub fn request_from_certificate(
    subject_public_key: &[u8; 32],
    scopes: &Vec<PackageScope>,
    capabilities: &Vec<String>,
) -> (request: CertificateRequestInput)
    ensures
        request.signature_algorithm@ == "ed25519"@,
        request.subject_public_key@ == base64_standard_text(subject_public_key@),
        base64_standard_bytes(str_bytes(request.subject_public_key@)) == Some(
            subject_public_key@,
        ),
        request.package_id_scopes@.len() == scopes@.len(),
        forall|i: int|
            0 <= i < scopes@.len() ==> (#[trigger] request.package_id_scopes@[i])@ == scope_text(
                scopes@[i].kind,
                scopes@[i].package_id@,
            ),
        request.allowed_capabilities@.len() == capabilities@.len(),
        forall|i: int|
            0 <= i < capabilities@.len() ==> (#[trigger] request.allowed_capabilities@[i])@
                == capabilities@[i]@,
{
    let mut texts: Vec<String> = Vec::new();
    let mut i: usize = 0;
    while i < scopes.len()
        invariant
            i <= scopes@.len(),
            texts@.len() == i,
            forall|k: int|
                0 <= k < i ==> (#[trigger] texts@[k])@ == scope_text(
                    scopes@[k].kind,
                    scopes@[k].package_id@,
                ),
        decreases scopes@.len() - i,
    {
        texts.push(scope_string(&scopes[i]));
        i = i + 1;
    }
    let mut copies: Vec<String> = Vec::new();
    let mut j: usize = 0;
    while j < capabilities.len()
        invariant
            j <= capabilities@.len(),
            copies@.len() == j,
            forall|k: int| 0 <= k < j ==> (#[trigger] copies@[k])@ == capabilities@[k]@,
        decreases capabilities@.len() - j,
    {
        copies.push(capabilities[j].clone());
        j = j + 1;
    }
    CertificateRequestInput {
        signature_algorithm: message("ed25519"),
        subject_public_key: base64_standard_encode(subject_public_key.as_slice()),
        package_id_scopes: texts,
        allowed_capabilities: copies,
    }
}

// ---------------------------------------------------------------------------
// Root public keys
// ---------------------------------------------------------------------------

/// The value of an ASCII hexadecimal digit (either case).
pub open spec fn hex_value(byte: u8) -> u8 {
    if 48 <= byte <= 57 {
        (byte - 48) as u8
    } else if 65 <= byte <= 70 {
        (byte - 55) as u8
    } else {
        (byte - 87) as u8
    }
}

/// The bytes that a text of hexadecimal digit pairs stands for.
pub open spec fn hex_decode(digits: Seq<u8>) -> Seq<u8> {
    Seq::new(
        digits.len() / 2,
        |i: int| (hex_value(digits[2 * i]) * 16 + hex_value(digits[2 * i + 1])) as u8,
    )
}

/// The outcome of reading one Root public key (64 hex digits or Base64), after trimming.
pub open spec fn root_key_reading(encoded: Seq<char>) -> Result<Seq<u8>, Seq<char>> {
    let value = str_bytes(trimmed(encoded));
    if value.len() == 64 && all_hex(value) {
        Ok(hex_decode(value))
    } else {
        match base64_standard_bytes(value) {
            None => Err(root_encoding_message()),
            Some(bytes) => if bytes.len() == 32 {
                Ok(bytes)
            } else {
                Err(root_length_message())
            },
        }
    }
}

fn hex_digit_value(byte: u8) -> (value: u8)
    requires
        crate::bytes::is_hex_digit(byte),
    ensures
        value == hex_value(byte),
        value < 16,
{
    if 48 <= byte && byte <= 57 {
        byte - 48
    } else if 65 <= byte && byte <= 70 {
        byte - 55
    } else {
        byte - 87
    }
}

/// Reads one Root public key: after trimming, either 64 hexadecimal digits or
/// padded standard Base64 of 32 bytes.
pub fn root_public_key(encoded: &str) -> (key: Result<[u8; 32], String>)
    ensures
        same_outcome(key, root_key_reading(encoded@)),
{
    let value = trim(encoded);
    let bytes = value.as_bytes();
    if bytes.len() == 64 && all_hex_digits(bytes) {
        let mut key = [0u8; 32];
        let mut i: usize = 0;
        while i < 32
            invariant
                i <= 32,
                bytes@.len() == 64,
                all_hex(bytes@),
                forall|j: int| 0 <= j < i ==> key@[j] == hex_decode(bytes@)[j],
            decreases 32 - i,
        {
            let high = hex_digit_value(bytes[2 * i]);
            let low = hex_digit_value(bytes[2 * i + 1]);
            key[i] = high * 16 + low;
            i = i + 1;
        }
        assert(key@ =~= hex_decode(bytes@));
        return Ok(key);
    }
    match base64_standard_decode(bytes) {
        None => Err(message("invalid Root public key encoding")),
        Some(decoded) => if decoded.len() == 32 {
            Ok(array32(decoded.as_slice()))
        } else {
            Err(message("Root public key must be 32 bytes"))
        },
    }
}

/// The nibble that hex digit `j` of a byte string stands for.
pub open spec fn nibble_at(data: Seq<u8>, j: int) -> u8 {
    if j % 2 == 0 {
        data[j / 2] >> 4u8
    } else {
        data[j / 2] & 0x0fu8
    }
}

/// The value of a nibble's lowercase hex digit is the nibble.
proof fn lemma_hex_char_value(nibble: u8)
    requires
        nibble < 16,
    ensures
        crate::bytes::is_hex_digit(hex_char(nibble) as u8),
        hex_value(hex_char(nibble) as u8) == nibble,
        !is_whitespace(hex_char(nibble)),
{
}

/// The lowercase hex text of a 32-byte key reads back as that key.
pub proof fn lemma_hex_root_key(key: Seq<u8>)
    requires
        key.len() == 32,
    ensures
        root_key_reading(hex_lower(key)) == Ok::<Seq<u8>, Seq<char>>(key),
{
    let text = hex_lower(key);
    lemma_hex_is_ascii(key);
    assert forall|i: int| 0 <= i < 32 implies #[trigger] key[i] >> 4u8 < 16 && key[i] & 0x0fu8 < 16
        && (key[i] >> 4u8) * 16 + (key[i] & 0x0fu8) == key[i] by {
        let b = key[i];
        assert(b >> 4u8 < 16 && b & 0x0fu8 < 16 && (b >> 4u8) * 16 + (b & 0x0fu8) == b)
            by (bit_vector);
    }
    assert forall|j: int| 0 <= j < 64 implies hex_char(nibble_at(key, j)) == #[trigger] text[j] by {}
    assert(text.len() == 64);
    lemma_hex_char_value(key[0] >> 4u8);
    lemma_hex_char_value(key[31] & 0x0fu8);
    assert(trim_start(text) == text);
    assert(trim_end(text) == text);
    let bytes = str_bytes(text);
    assert forall|j: int| 0 <= j < 64 implies crate::bytes::is_hex_digit(#[trigger] bytes[j])
        && hex_value(bytes[j]) == nibble_at(key, j) by {
        lemma_hex_char_value(nibble_at(key, j));
        assert(bytes[j] == text[j] as u8);
    }
    assert(all_hex(bytes));
    assert forall|i: int| 0 <= i < 32 implies #[trigger] hex_decode(bytes)[i] == key[i] by {
        assert(hex_value(bytes[2 * i]) == key[i] >> 4u8);
        assert(hex_value(bytes[2 * i + 1]) == key[i] & 0x0fu8);
    }
    assert(hex_decode(bytes) =~= key);
}

/// The non-empty texts of a list, in order.
pub open spec fn nonempty_texts(texts: Seq<Seq<char>>) -> Seq<Seq<char>>
    decreases texts.len(),
{
    if texts.len() == 0 {
        seq![]
    } else if texts.last().len() == 0 {
        nonempty_texts(texts.drop_last())
    } else {
        nonempty_texts(texts.drop_last()).push(texts.last())
    }
}

/// The trimmed, non-empty pieces of a comma-separated list of Root keys.
pub open spec fn root_key_texts(encoded: Seq<char>) -> Seq<Seq<char>> {
    nonempty_texts(split_on(encoded, ',').map_values(|piece: Seq<char>| trimmed(piece)))
}

/// The error of the first Root key text that does not read, if any.
pub open spec fn first_root_key_error(texts: Seq<Seq<char>>) -> Option<Seq<char>>
    decreases texts.len(),
{
    if texts.len() == 0 {
        None
    } else {
        match root_key_reading(texts[0]) {
            Err(e) => Some(e),
            Ok(_) => first_root_key_error(texts.drop_first()),
        }
    }
}

/// Some Root key text reads as `key`.
pub open spec fn reads_root_key(texts: Seq<Seq<char>>, key: Seq<u8>) -> bool {
    exists|i: int| 0 <= i < texts.len() && #[trigger] root_key_reading(texts[i]) == Ok::<Seq<u8>, Seq<char>>(key)
}

/// Reads a comma-separated list of Root public keys: every non-blank entry must
/// read; the keys come back sorted and without repeats, and at least one is required.
pub fn root_public_keys(encoded: &str) -> (keys: Result<Vec<[u8; 32]>, String>)
    ensures
        match first_root_key_error(root_key_texts(encoded@)) {
            Some(text) => keys matches Err(e) && e@ == text,
            None => if root_key_texts(encoded@).len() == 0 {
                keys matches Err(e) && e@ == root_missing_message()
            } else {
                keys matches Ok(list) && keys_strictly_sorted(list@) && list@.len() > 0
                    && forall|key: Seq<u8>|
                    has_key(list@, key) <==> reads_root_key(root_key_texts(encoded@), key)
            },
        },
{
    let pieces = split_text(encoded, ',');
    let ghost all_pieces = split_on(encoded@, ',').map_values(|piece: Seq<char>| trimmed(piece));
    let ghost texts = root_key_texts(encoded@);
    let mut keys: Vec<[u8; 32]> = Vec::new();
    let ghost mut read: Seq<Seq<char>> = Seq::empty();
    let mut i: usize = 0;
    assert(all_pieces.take(0) =~= Seq::<Seq<char>>::empty());
    while i < pieces.len()
        invariant
            views(pieces@) == split_on(encoded@, ','),
            all_pieces == split_on(encoded@, ',').map_values(|piece: Seq<char>| trimmed(piece)),
            texts == nonempty_texts(all_pieces),
            i <= pieces@.len(),
            read == nonempty_texts(all_pieces.take(i as int)),
            first_root_key_error(read) is None,
            keys@.len() == read.len(),
            forall|k: int| 0 <= k < read.len() ==> root_key_reading(read[k]) == Ok::<Seq<u8>, Seq<char>>(#[trigger] keys@[k]@),
        decreases pieces@.len() - i,
    {
        let piece = trim(pieces[i].as_str());
        assert(views(pieces@)[i as int] == pieces@[i as int]@);
        assert(all_pieces[i as int] == piece@);
        assert(all_pieces.take(i + 1).drop_last() =~= all_pieces.take(i as int));
        if piece.as_bytes().len() != 0 {
            match root_public_key(piece) {
                Ok(key) => {
                    proof {
                        lemma_first_error_push(read, piece@);
                    }
                    keys.push(key);
                    proof {
                        read = read.push(piece@);
                    }
                },
                Err(e) => {
                    proof {
                        lemma_first_error_push(read, piece@);
                        lemma_nonempty_prefix_error(all_pieces, (i + 1) as int);
                    }
                    return Err(e);
                },
            }
        }
        i = i + 1;
    }
    assert(all_pieces.take(i as int) =~= all_pieces);
    if keys.len() == 0 {
        return Err(message("at least one Root public key is required"));
    }
    let ghost unsorted = keys@;
    let sorted = sort_by_key(keys);
    let unique = dedup_sorted(sorted);
    proof {
        lemma_sorted_keys_read(unsorted, sorted@, texts);
        if unique@.len() == 0 {
            assert(has_key(sorted@, sorted@[0].key()));
        }
    }
    Ok(unique)
}

proof fn lemma_sorted_keys_read(unsorted: Seq<[u8; 32]>, sorted: Seq<[u8; 32]>, texts: Seq<Seq<char>>)
    requires
        sorted.to_multiset() == unsorted.to_multiset(),
        unsorted.len() == texts.len(),
        forall|k: int| 0 <= k < texts.len() ==> root_key_reading(texts[k]) == Ok::<Seq<u8>, Seq<char>>(#[trigger] unsorted[k]@),
    ensures
        forall|key: Seq<u8>| has_key(sorted, key) <==> reads_root_key(texts, key),
{
    broadcast use vstd::seq_lib::group_to_multiset_ensures;

    assert forall|key: Seq<u8>| has_key(sorted, key) <==> reads_root_key(texts, key) by {
        if has_key(sorted, key) {
            let j = choose|j: int| 0 <= j < sorted.len() && #[trigger] sorted[j].key() == key;
            assert(sorted.to_multiset().count(sorted[j]) > 0);
            assert(unsorted.contains(sorted[j]));
            let k = choose|k: int| 0 <= k < unsorted.len() && unsorted[k] == sorted[j];
            assert(root_key_reading(texts[k]) == Ok::<Seq<u8>, Seq<char>>(unsorted[k]@));
        }
        if reads_root_key(texts, key) {
            let k = choose|k: int|
                0 <= k < texts.len() && #[trigger] root_key_reading(texts[k]) == Ok::<Seq<u8>, Seq<char>>(key);
            assert(unsorted[k]@ == key);
            assert(unsorted.to_multiset().count(unsorted[k]) > 0);
            assert(sorted.contains(unsorted[k]));
            let j = choose|j: int| 0 <= j < sorted.len() && sorted[j] == unsorted[k];
            assert(sorted[j].key() == key);
        }
    }
}

proof fn lemma_first_error_push(read: Seq<Seq<char>>, text: Seq<char>)
    requires
        first_root_key_error(read) is None,
    ensures
        first_root_key_error(read.push(text)) == match root_key_reading(text) {
            Err(e) => Some(e),
            Ok(_) => None::<Seq<char>>,
        },
    decreases read.len(),
{
    if read.len() == 0 {
        assert(read.push(text).drop_first() =~= Seq::<Seq<char>>::empty());
        assert(read.push(text)[0] == text);
        assert(first_root_key_error(read.push(text).drop_first()) is None);
    } else {
        assert(read.push(text).drop_first() =~= read.drop_first().push(text));
        assert(read.push(text)[0] == read[0]);
        assert(root_key_reading(read[0]) is Ok);
        assert(first_root_key_error(read.drop_first()) is None);
        lemma_first_error_push(read.drop_first(), text);
    }
}

proof fn lemma_nonempty_prefix_error(pieces: Seq<Seq<char>>, n: int)
    requires
        0 <= n <= pieces.len(),
        first_root_key_error(nonempty_texts(pieces.take(n))) is Some,
    ensures
        first_root_key_error(nonempty_texts(pieces)) == first_root_key_error(
            nonempty_texts(pieces.take(n)),
        ),
    decreases pieces.len() - n,
{
    if n < pieces.len() {
        assert(pieces.take(n + 1).drop_last() =~= pieces.take(n));
        lemma_error_survives_push(nonempty_texts(pieces.take(n)), pieces[n]);
        lemma_nonempty_prefix_error(pieces, n + 1);
    } else {
        assert(pieces.take(n) =~= pieces);
    }
}

proof fn lemma_error_survives_push(read: Seq<Seq<char>>, text: Seq<char>)
    requires
        first_root_key_error(read) is Some,
    ensures
        first_root_key_error(read.push(text)) == first_root_key_error(read),
    decreases read.len(),
{
    if read.len() > 0 {
        assert(read.push(text).drop_first() =~= read.drop_first().push(text));
        if root_key_reading(read[0]) is Ok {
            lemma_error_survives_push(read.drop_first(), text);
        }
    }
}

/// Two key lists in strictly increasing order that hold the same keys are the
/// same list.
proof fn lemma_sorted_keys_unique(first: Seq<[u8; 32]>, second: Seq<[u8; 32]>)
    requires
        keys_strictly_sorted(first),
        keys_strictly_sorted(second),
        forall|key: Seq<u8>| has_key(first, key) <==> has_key(second, key),
    ensures
        first == second,
    decreases first.len() + second.len(),
{
    if first.len() == 0 || second.len() == 0 {
        if first.len() > 0 {
            assert(has_key(first, first[0].key()));
        }
        if second.len() > 0 {
            assert(has_key(second, second[0].key()));
        }
        assert(first =~= second);
    } else {
        let a = first[0]@;
        let b = second[0]@;
        assert(has_key(first, first[0].key()));
        assert(has_key(second, second[0].key()));
        let j = choose|j: int| 0 <= j < second.len() && #[trigger] second[j].key() == a;
        let i = choose|i: int| 0 <= i < first.len() && #[trigger] first[i].key() == b;
        lemma_bytes_lt_total(a, b);
        if bytes_lt(a, b) {
            if j == 0 {
                lemma_bytes_lt_irreflexive(a);
            } else {
                assert(bytes_lt(second[0].key(), second[j].key()));
                lemma_bytes_lt_asymmetric(a, b);
            }
        } else if bytes_lt(b, a) {
            if i == 0 {
                lemma_bytes_lt_irreflexive(b);
            } else {
                assert(bytes_lt(first[0].key(), first[i].key()));
                lemma_bytes_lt_asymmetric(b, a);
            }
        }
        assert(a == b);
        assert(first[0] =~= second[0]);
        let rest_first = first.drop_first();
        let rest_second = second.drop_first();
        assert forall|key: Seq<u8>| has_key(rest_first, key) <==> has_key(rest_second, key) by {
            if has_key(rest_first, key) {
                let k = choose|k: int| 0 <= k < rest_first.len() && #[trigger] rest_first[k].key() == key;
                assert(first[k + 1].key() == key);
                assert(bytes_lt(first[0].key(), first[k + 1].key()));
                lemma_bytes_lt_irreflexive(key);
                assert(has_key(first, key));
                let m = choose|m: int| 0 <= m < second.len() && #[trigger] second[m].key() == key;
                assert(m != 0);
                assert(rest_second[m - 1].key() == key);
            }
            if has_key(rest_second, key) {
                let k = choose|k: int| 0 <= k < rest_second.len() && #[trigger] rest_second[k].key() == key;
                assert(second[k + 1].key() == key);
                assert(bytes_lt(second[0].key(), second[k + 1].key()));
                lemma_bytes_lt_irreflexive(key);
                assert(has_key(second, key));
                let m = choose|m: int| 0 <= m < first.len() && #[trigger] first[m].key() == key;
                assert(m != 0);
                assert(rest_first[m - 1].key() == key);
            }
        }
        lemma_sorted_keys_unique(rest_first, rest_second);
        assert(first =~= seq![first[0]] + rest_first);
        assert(second =~= seq![second[0]] + rest_second);
    }
}

/// Two Root key configurations that read as the same set of keys give the same
/// Root key list, whatever the order, spacing or repetition of their entries.
pub proof fn lemma_root_key_list_canonical(
    first: Seq<char>,
    second: Seq<char>,
    first_keys: Seq<[u8; 32]>,
    second_keys: Seq<[u8; 32]>,
)
    requires
        forall|key: Seq<u8>|
            reads_root_key(root_key_texts(first), key) <==> reads_root_key(
                root_key_texts(second),
                key,
            ),
        keys_strictly_sorted(first_keys),
        keys_strictly_sorted(second_keys),
        forall|key: Seq<u8>|
            has_key(first_keys, key) <==> reads_root_key(root_key_texts(first), key),
        forall|key: Seq<u8>|
            has_key(second_keys, key) <==> reads_root_key(root_key_texts(second), key),
    ensures
        first_keys == second_keys,
{
    lemma_sorted_keys_unique(first_keys, second_keys);
}

} // verus!
