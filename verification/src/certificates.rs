//! The certificates of the local HTTPS service: a local authority, and the server certificate for
//! `localhost` that it signs.
use std::sync::Arc;
use std::time::Duration;

use rcgen::ExtendedKeyUsagePurpose::ServerAuth;
use rcgen::KeyUsagePurpose::{CrlSign, DigitalSignature, KeyCertSign};
use rcgen::{BasicConstraints, CertificateParams, DnType, IsCa, Issuer, KeyPair, PublicKeyData};
use rustls::client::danger::ServerCertVerifier;
use rustls::client::WebPkiServerVerifier;
use rustls::pki_types::pem::PemObject;
use rustls::pki_types::{CertificateDer, ServerName, UnixTime};
use rustls::RootCertStore;
use time::OffsetDateTime;
use vstd::prelude::*;
use vstd::utf8::encode_utf8;

use crate::error::SetupError;
use crate::text::same_bytes;

verus! {

/// The error of `rcgen`.
#[verifier::external_type_specification]
#[verifier::external_body]
pub struct ExRcgenError(rcgen::Error);

/// What a key may be used for.
pub enum KeyUsage {
    DigitalSignature,
    KeyCertSign,
    CrlSign,
}

/// What a certificate may be used for.
pub enum Purpose {
    ServerAuth,
}

/// What the certificate of an authority says. Instants are seconds since 1970.
pub struct AuthorityTerms {
    pub common_name: String,
    /// How many further authorities may stand between this one and a server.
    pub path_length: u8,
    pub key_usages: Vec<KeyUsage>,
    pub not_before: i64,
    pub not_after: i64,
}

/// What a server certificate says. Instants are seconds since 1970.
pub struct ServerTerms {
    /// The host names and addresses.
    pub names: Vec<String>,
    pub common_name: String,
    pub key_usages: Vec<KeyUsage>,
    pub purposes: Vec<Purpose>,
    pub not_before: i64,
    pub not_after: i64,
}

/// What the certificate of an authority says.
pub struct AuthorityTermsView {
    pub common_name: Seq<char>,
    pub path_length: u8,
    pub key_usages: Seq<KeyUsage>,
    pub not_before: i64,
    pub not_after: i64,
}

/// What a server certificate says.
pub struct ServerTermsView {
    pub names: Seq<Seq<char>>,
    pub common_name: Seq<char>,
    pub key_usages: Seq<KeyUsage>,
    pub purposes: Seq<Purpose>,
    pub not_before: i64,
    pub not_after: i64,
}

impl View for AuthorityTerms {
    type V = AuthorityTermsView;

    open spec fn view(&self) -> AuthorityTermsView {
        AuthorityTermsView {
            common_name: self.common_name@,
            path_length: self.path_length,
            key_usages: self.key_usages@,
            not_before: self.not_before,
            not_after: self.not_after,
        }
    }
}

impl View for ServerTerms {
    type V = ServerTermsView;

    open spec fn view(&self) -> ServerTermsView {
        ServerTermsView {
            names: crate::text::texts(self.names@),
            common_name: self.common_name@,
            key_usages: self.key_usages@,
            purposes: self.purposes@,
            not_before: self.not_before,
            not_after: self.not_after,
        }
    }
}

/// The first second of the year 0. A certificate cannot speak of an earlier one.
pub const FIRST_INSTANT: i64 = -62_167_219_200;

/// The last second of the year 9999. A certificate cannot speak of a later one.
pub const LAST_INSTANT: i64 = 253_402_300_799;

/// Whether a certificate can speak of this instant.
pub open spec fn is_instant(seconds: int) -> bool {
    FIRST_INSTANT <= seconds <= LAST_INSTANT
}

/// A part of the name of the one whom a certificate is for.
pub struct SubjectAttribute {
    /// What the part says, as the arcs of an object identifier; nothing if an arc is too large.
    pub kind: Option<Vec<u64>>,
    /// The tag of the value in ASN.1, which says what kind of string it is.
    pub tag: u32,
    /// The value without its tag and its length.
    pub value: Vec<u8>,
}

/// A part of the name of the one whom a certificate is for.
pub struct SubjectAttributeView {
    pub kind: Option<Seq<u64>>,
    pub tag: u32,
    pub value: Seq<u8>,
}

impl View for SubjectAttribute {
    type V = SubjectAttributeView;

    open spec fn view(&self) -> SubjectAttributeView {
        SubjectAttributeView {
            kind: match self.kind {
                Some(arcs) => Some(arcs@),
                None => None,
            },
            tag: self.tag,
            value: self.value@,
        }
    }
}

/// The views of the parts of a name.
pub open spec fn subject_view(subject: Seq<SubjectAttribute>) -> Seq<SubjectAttributeView> {
    subject.map_values(|attribute: SubjectAttribute| attribute@)
}

/// What is read from a certificate.
pub struct CertificateFacts {
    /// The public key with its algorithm, in DER.
    pub public_key: Vec<u8>,
    /// Whether the certificate is one of an authority.
    pub is_ca: bool,
    /// The last second at which the certificate is valid, in seconds since 1970.
    pub not_after: i64,
    /// The name of the one whom the certificate is for, part by part.
    pub subject: Vec<SubjectAttribute>,
}

/// What is read from a certificate.
pub struct CertificateFactsView {
    pub public_key: Seq<u8>,
    pub is_ca: bool,
    pub not_after: i64,
    pub subject: Seq<SubjectAttributeView>,
}

impl View for CertificateFacts {
    type V = CertificateFactsView;

    open spec fn view(&self) -> CertificateFactsView {
        CertificateFactsView {
            public_key: self.public_key@,
            is_ca: self.is_ca,
            not_after: self.not_after,
            subject: subject_view(self.subject@),
        }
    }
}

/// What `CertificateDer::from_pem_slice` makes of a PEM text: the first certificate in it, or the
/// text of the error.
pub uninterp spec fn pem_certificate(pem: Seq<u8>) -> Result<Seq<u8>, Seq<char>>;

/// What `x509_parser::parse_x509_certificate` makes of a certificate: what it says, or the text of
/// the error.
pub uninterp spec fn certificate_facts(der: Seq<u8>) -> Result<CertificateFactsView, Seq<char>>;

/// What `pem::parse` finds in a text: what the first section of it holds, if it has one.
pub uninterp spec fn pem_section(text: Seq<char>) -> Option<Seq<u8>>;

/// Whether `Issuer::from_ca_cert_pem` takes the certificate in a text as one of an authority.
pub uninterp spec fn is_taken(pem: Seq<char>) -> bool;

/// The public key, with its algorithm, of the key pair that `KeyPair::from_pem` finds in a PEM text;
/// nothing if there is none that it takes.
pub uninterp spec fn public_key(pem: Seq<char>) -> Option<Seq<u8>>;

/// Whether `WebPkiServerVerifier::verify_server_cert` accepts the server certificate `leaf` for a
/// host name at an instant, with the authority `ca` as the only root.
pub uninterp spec fn verifies(leaf: Seq<u8>, ca: Seq<u8>, name: Seq<char>, at: u64) -> bool;

/// Whether `CertificateParams::self_signed` can make the certificate `pem` from these terms and
/// this key.
pub uninterp spec fn is_self_signed(
    pem: Seq<char>,
    terms: AuthorityTermsView,
    key: Seq<char>,
) -> bool;

/// Whether `CertificateParams::signed_by` can make the certificate `pem` from these terms and this
/// key, with this authority.
pub uninterp spec fn is_signed_by(
    pem: Seq<char>,
    terms: ServerTermsView,
    key: Seq<char>,
    ca: Seq<char>,
    ca_key: Seq<char>,
) -> bool;

/// The view of an outcome with a text on both sides.
pub open spec fn bytes_or_text(outcome: Result<Vec<u8>, String>) -> Result<Seq<u8>, Seq<char>> {
    match outcome {
        Ok(bytes) => Ok(bytes@),
        Err(text) => Err(text@),
    }
}

/// Whether `read` can come of reading the key pair in a PEM text. A key is not always read where
/// there is one, since that takes random numbers of the system.
pub open spec fn key_reads(pem: Seq<char>, read: Result<Seq<u8>, Seq<char>>) -> bool {
    read matches Ok(bytes) ==> public_key(pem) == Some(bytes)
}

/// What the certificate `pem` says.
pub open spec fn facts_of(pem: Seq<char>) -> Result<CertificateFactsView, Seq<char>> {
    certificate_facts(pem_certificate(encode_utf8(pem))->Ok_0)
}

/// Whether the certificate `pem` reads back as one with the public key of `key`.
pub open spec fn reads_back(pem: Seq<char>, key: Seq<char>, is_ca: bool, not_after: i64) -> bool {
    &&& pem_certificate(encode_utf8(pem)) is Ok
    &&& facts_of(pem) matches Ok(facts)
    &&& public_key(key) == Some(facts.public_key)
    &&& facts.is_ca == is_ca
    &&& facts.not_after == not_after
}

/// A common name, as a part of a name.
pub open spec fn common_name(name: Seq<char>) -> SubjectAttributeView {
    SubjectAttributeView { kind: Some(seq![2, 5, 4, 3]), tag: 12, value: encode_utf8(name) }
}

/// Whether the text `pem` holds a certificate in its first section, which is for someone of this
/// common name and no other name.
pub open spec fn is_for(pem: Seq<char>, name: Seq<char>) -> bool {
    &&& pem_section(pem) == Some(pem_certificate(encode_utf8(pem))->Ok_0)
    &&& facts_of(pem) matches Ok(facts)
    &&& facts.subject == seq![common_name(name)]
}

/// The tag of a `PrintableString` in ASN.1.
pub const PRINTABLE_STRING: u32 = 19;

/// The question mark, as a byte.
pub const QUESTION_MARK: u8 = 63;

/// The second arc of an object identifier that can be written stays below this.
pub const ARC_LIMIT: u64 = 18_446_744_073_709_551_535;

/// Whether an object identifier can be written into a certificate.
pub open spec fn arcs_can_be_written(arcs: Seq<u64>) -> bool {
    &&& arcs.len() >= 2
    &&& arcs[0] < 3
    &&& arcs[1] < ARC_LIMIT
    &&& arcs[0] >= 2 || arcs[1] < 40
}

/// Whether a part of a name counts for nothing, since a later one says the same thing.
pub open spec fn is_outdone(subject: Seq<SubjectAttributeView>, i: int) -> bool {
    exists|j: int| i < j < subject.len() && (#[trigger] subject[j]).kind == subject[i].kind
}

/// Whether a part of a name can be written into a certificate.
pub open spec fn part_can_be_written(subject: Seq<SubjectAttributeView>, i: int) -> bool {
    subject[i].kind matches Some(arcs) ==> {
        &&& arcs_can_be_written(arcs)
        &&& subject[i].tag == PRINTABLE_STRING && subject[i].value.contains(QUESTION_MARK)
            ==> is_outdone(subject, i)
    }
}

/// Whether a name can be written into a certificate.
pub open spec fn name_can_be_written(subject: Seq<SubjectAttributeView>) -> bool {
    forall|i: int| 0 <= i < subject.len() ==> #[trigger] part_can_be_written(subject, i)
}

/// Whether the name of the authority in the text `pem` can be written into the certificates that it
/// signs, or the authority is not even taken.
pub open spec fn can_be_issuer(pem: Seq<char>) -> bool {
    is_taken(pem) ==> (pem_section(pem) matches Some(der) ==> (certificate_facts(der) matches Ok(
        facts,
    ) ==> name_can_be_written(facts.subject)))
}

/// How many bytes a section of a PEM text can hold.
pub const SECTION_LIMIT: usize = 0x1000_0000;

/// `CertificateDer::from_pem_slice`: the first certificate of a PEM text, or the text of the error.
/// A section of more than 256 MB is an error.
#[verifier::external_body]
pub(crate) fn certificate_of(pem: &[u8]) -> (res: Result<Vec<u8>, String>)
    ensures
        bytes_or_text(res) == pem_certificate(pem@),
        res matches Ok(der) ==> der@.len() <= SECTION_LIMIT,
{
    match CertificateDer::from_pem_slice(pem) {
        Ok(der) => Ok(der.to_vec()),
        Err(error) => Err(error.to_string()),
    }
}

/// `x509_parser::parse_x509_certificate`, with what `public_key`, `is_ca`, `validity` and `subject`
/// say of the result; or the text of the error.
#[verifier::external_body]
fn parse_certificate(der: &[u8]) -> (res: Result<CertificateFacts, String>)
    ensures
        match res {
            Ok(facts) => certificate_facts(der@) == Ok::<_, Seq<char>>(facts@),
            Err(text) => certificate_facts(der@) == Err::<CertificateFactsView, _>(text@),
        },
{
    match x509_parser::parse_x509_certificate(der) {
        Ok((_, parsed)) => Ok(CertificateFacts {
            public_key: parsed.public_key().raw.to_vec(),
            is_ca: parsed.is_ca(),
            not_after: parsed.validity().not_after.timestamp(),
            subject: parsed.subject().iter_attributes().map(|attribute| SubjectAttribute {
                kind: attribute.attr_type().iter().map(|arcs| arcs.collect()),
                tag: attribute.attr_value().header.tag().0,
                value: attribute.attr_value().data.to_vec(),
            }).collect(),
        }),
        Err(error) => Err(error.to_string()),
    }
}

/// `pem::parse`: what the first section of a PEM text holds.
#[verifier::external_body]
fn section_of(text: &str) -> (res: Option<Vec<u8>>)
    ensures
        match res {
            Some(bytes) => pem_section(text@) == Some(bytes@),
            None => pem_section(text@) is None,
        },
{
    pem::parse(text).ok().map(|section| section.into_contents())
}

/// `KeyPair::from_pem`, then `subject_public_key_info`: the public key of a key pair, or the text
/// of the error. When a key that is there cannot be read is not stated: it rests on the random
/// numbers of the system, which are drawn to read some kinds of keys.
#[verifier::external_body]
pub(crate) fn public_key_of(pem: &str) -> (res: Result<Vec<u8>, String>)
    ensures
        key_reads(pem@, bytes_or_text(res)),
{
    match KeyPair::from_pem(pem) {
        Ok(key) => Ok(key.subject_public_key_info()),
        Err(error) => Err(error.to_string()),
    }
}

/// `Issuer::from_ca_cert_pem`, with the key that `KeyPair::from_pem` reads: whether the certificate
/// is taken as one of an authority. When it fails is not stated: reading the key may take random
/// numbers of the system.
#[verifier::external_body]
fn take_issuer(ca: &str, ca_key: &str) -> (res: Result<(), rcgen::Error>)
    ensures
        res is Ok ==> is_taken(ca@),
{
    Issuer::from_ca_cert_pem(ca, KeyPair::from_pem(ca_key)?)?;
    Ok(())
}

/// `KeyPair::generate`, then `serialize_pem`: a new key pair, chosen at random. The text can be read
/// back. When it fails is not stated: it rests on the random numbers of the system.
#[verifier::external_body]
fn generate_key() -> (res: Result<String, rcgen::Error>)
    ensures
        res matches Ok(pem) ==> public_key(pem@) is Some,
{
    Ok(KeyPair::generate()?.serialize_pem())
}

/// How many characters the common name of an authority may have.
pub const COMMON_NAME_LIMIT: usize = 0x1_0000;

/// `CertificateParams::self_signed`: the certificate of an authority, which reads back as the terms
/// say, with the common name as its only name, and which `pem::parse` finds too. The signature is
/// made at random, so that two calls do not make the same certificate. When it fails is not stated:
/// that too rests on the random numbers of the system.
#[verifier::external_body]
fn self_signed(terms: &AuthorityTerms, key: &str) -> (res: Result<String, rcgen::Error>)
    requires
        terms.common_name@.len() <= COMMON_NAME_LIMIT,
        is_instant(terms.not_before as int),
        is_instant(terms.not_after as int),
    ensures
        res matches Ok(pem) ==> is_self_signed(pem@, terms@, key@),
        res matches Ok(pem) ==> reads_back(pem@, key@, true, terms.not_after),
        res matches Ok(pem) ==> is_for(pem@, terms.common_name@),
{
    let mut params = CertificateParams::default();
    params.distinguished_name.push(DnType::CommonName, terms.common_name.as_str());
    params.is_ca = IsCa::Ca(BasicConstraints::Constrained(terms.path_length));
    params.not_before = OffsetDateTime::from_unix_timestamp(terms.not_before).unwrap();
    params.not_after = OffsetDateTime::from_unix_timestamp(terms.not_after).unwrap();
    params.key_usages = terms.key_usages.iter().map(|usage| match usage {
        KeyUsage::DigitalSignature => DigitalSignature,
        KeyUsage::KeyCertSign => KeyCertSign,
        KeyUsage::CrlSign => CrlSign,
    }).collect();
    Ok(params.self_signed(&KeyPair::from_pem(key)?)?.pem())
}

/// `CertificateParams::signed_by`, with `Issuer::from_ca_cert_pem`: a server certificate, which
/// reads back as the terms say, unless it is too large to be read from a PEM text. The signature is
/// made at random, so that two calls do not make the same certificate. When it fails is not stated:
/// that too rests on the random numbers of the system. It panics where the name of the authority
/// cannot be written again: an object identifier whose first arcs are out of range, or a
/// `PrintableString` with a question mark, which is read but not written. Of the parts of a name
/// that say the same thing only the last is written.
#[verifier::external_body]
fn signed_by(terms: &ServerTerms, key: &str, ca: &str, ca_key: &str) -> (res: Result<
    String,
    rcgen::Error,
>)
    requires
        is_instant(terms.not_before as int),
        is_instant(terms.not_after as int),
        can_be_issuer(ca@),
    ensures
        res matches Ok(pem) ==> is_signed_by(pem@, terms@, key@, ca@, ca_key@),
        res matches Ok(pem) ==> (pem@.len() <= SECTION_LIMIT ==> reads_back(
            pem@,
            key@,
            false,
            terms.not_after,
        )),
{
    let mut params = CertificateParams::new(terms.names.clone())?;
    params.distinguished_name.push(DnType::CommonName, terms.common_name.as_str());
    params.not_before = OffsetDateTime::from_unix_timestamp(terms.not_before).unwrap();
    params.not_after = OffsetDateTime::from_unix_timestamp(terms.not_after).unwrap();
    params.key_usages = terms.key_usages.iter().map(|usage| match usage {
        KeyUsage::DigitalSignature => DigitalSignature,
        KeyUsage::KeyCertSign => KeyCertSign,
        KeyUsage::CrlSign => CrlSign,
    }).collect();
    params.extended_key_usages = terms.purposes.iter().map(|Purpose::ServerAuth| ServerAuth).collect();
    let issuer = Issuer::from_ca_cert_pem(ca, KeyPair::from_pem(ca_key)?)?;
    Ok(params.signed_by(&KeyPair::from_pem(key)?, &issuer)?.pem())
}

/// The text of an error of `rcgen`. Nothing is stated of it.
#[verifier::external_body]
fn rcgen_error_text(error: rcgen::Error) -> (res: String)
{
    error.to_string()
}

/// `WebPkiServerVerifier::verify_server_cert`, without intermediate certificates and with `ca` as
/// the only root: whether it accepts the server certificate.
#[verifier::external_body]
fn verify_server_certificate(leaf: &[u8], ca: &[u8], name: &str, at: u64) -> (res: Option<()>)
    ensures
        res is Some == verifies(leaf@, ca@, name@, at),
{
    let mut roots = RootCertStore::empty();
    roots.add(CertificateDer::from(ca)).ok()?;
    let provider = Arc::new(rustls::crypto::ring::default_provider());
    let builder = WebPkiServerVerifier::builder_with_provider(Arc::new(roots), provider);
    let time = UnixTime::since_unix_epoch(Duration::from_secs(at));
    let name = ServerName::try_from(name).ok()?;
    let leaf = CertificateDer::from(leaf);
    builder.build().ok()?.verify_server_cert(&leaf, &[], &name, &[], time).ok()?;
    Some(())
}

/// A day, in seconds.
pub const DAY: i64 = 86_400;

/// How long before its end a certificate is replaced, in seconds.
pub const RENEW_BEFORE: i64 = 30 * DAY;

/// How far back a new certificate reaches, in seconds.
pub const BACKDATE: i64 = 300;

/// How long the certificate of a new authority is valid, in seconds.
pub const AUTHORITY_LIFETIME: i64 = 3650 * DAY;

/// How long a new server certificate is valid, in seconds.
pub const SERVER_LIFETIME: i64 = 365 * DAY;

/// Whether a certificate can be made at this instant: it can say from when and until when it is
/// valid.
pub open spec fn can_issue_at(now: i64) -> bool {
    is_instant(now - BACKDATE) && is_instant(now + AUTHORITY_LIFETIME)
}

/// Whether a certificate can be made at this instant.
pub fn clock_is_usable(now: i64) -> (res: bool)
    ensures
        res == can_issue_at(now),
{
    FIRST_INSTANT + BACKDATE <= now && now <= LAST_INSTANT - AUTHORITY_LIFETIME
}

/// A certificate and its private key, both in PEM.
pub struct KeyedCertificate {
    pub cert: String,
    pub key: String,
}

/// What the certificate of an authority says that is made at the instant `now`: it may sign
/// certificates of servers and revocation lists, but set up no further authority, and it is valid
/// for ten years.
pub open spec fn authority_terms(now: i64) -> AuthorityTermsView {
    AuthorityTermsView {
        common_name: "CCS Proxy Local CA"@,
        path_length: 0,
        key_usages: seq![KeyUsage::KeyCertSign, KeyUsage::CrlSign],
        not_before: (now - BACKDATE) as i64,
        not_after: (now + AUTHORITY_LIFETIME) as i64,
    }
}

/// What a server certificate says that is made at the instant `now`: it is for HTTPS at this host,
/// by name and by address, and it is valid for a year.
pub open spec fn server_terms(now: i64) -> ServerTermsView {
    ServerTermsView {
        names: seq!["localhost"@, "127.0.0.1"@, "::1"@],
        common_name: "localhost"@,
        key_usages: seq![KeyUsage::DigitalSignature],
        purposes: seq![Purpose::ServerAuth],
        not_before: (now - BACKDATE) as i64,
        not_after: (now + SERVER_LIFETIME) as i64,
    }
}

/// Whether `authority` is one that is made at the instant `now`.
pub open spec fn is_new_authority(authority: KeyedCertificate, now: i64) -> bool {
    &&& is_self_signed(authority.cert@, authority_terms(now), authority.key@)
    &&& reads_back(authority.cert@, authority.key@, true, (now + AUTHORITY_LIFETIME) as i64)
    &&& is_for(authority.cert@, authority_terms(now).common_name)
}

/// Whether `server` is one that `authority` signs at the instant `now`.
pub open spec fn is_new_server(
    server: KeyedCertificate,
    authority: KeyedCertificate,
    now: i64,
) -> bool {
    &&& is_signed_by(
        server.cert@,
        server_terms(now),
        server.key@,
        authority.cert@,
        authority.key@,
    )
    &&& server.cert@.len() <= SECTION_LIMIT ==> reads_back(
        server.cert@,
        server.key@,
        false,
        (now + SERVER_LIFETIME) as i64,
    )
}

/// Makes an authority: a new key, and a certificate that it signs for itself.
pub fn create_ca(now: i64) -> (res: Result<KeyedCertificate, SetupError>)
    requires
        can_issue_at(now),
    ensures
        match res {
            Ok(authority) => is_new_authority(authority, now),
            Err(error) => error is Failed,
        },
{
    let key = match generate_key() {
        Ok(key) => key,
        Err(error) => return Err(SetupError::Failed(rcgen_error_text(error))),
    };
    let terms = AuthorityTerms {
        common_name: "CCS Proxy Local CA".to_owned(),
        path_length: 0,
        key_usages: vec![KeyUsage::KeyCertSign, KeyUsage::CrlSign],
        not_before: now - BACKDATE,
        not_after: now + AUTHORITY_LIFETIME,
    };
    assert(terms.key_usages@ =~= seq![KeyUsage::KeyCertSign, KeyUsage::CrlSign]);
    assert(terms@ == authority_terms(now));
    proof {
        reveal_strlit("CCS Proxy Local CA");
    }
    match self_signed(&terms, key.as_str()) {
        Ok(cert) => Ok(KeyedCertificate { cert, key }),
        Err(error) => Err(SetupError::Failed(rcgen_error_text(error))),
    }
}

/// Whether a server certificate can be made at this instant: it can say from when and until when it
/// is valid.
pub open spec fn can_issue_server_at(now: i64) -> bool {
    is_instant(now - BACKDATE) && is_instant(now + SERVER_LIFETIME)
}

/// Whether two object identifiers are the same.
fn same_arcs(a: &Vec<u64>, b: &Vec<u64>) -> (res: bool)
    ensures
        res == (a@ == b@),
{
    if a.len() != b.len() {
        return false;
    }
    let mut i: usize = 0;
    while i < a.len()
        invariant
            i <= a.len(),
            a.len() == b.len(),
            forall|k: int| 0 <= k < i ==> a@[k] == b@[k],
        decreases a.len() - i,
    {
        if a[i] != b[i] {
            assert(a@[i as int] != b@[i as int]);
            return false;
        }
        i = i + 1;
    }
    assert(a@ =~= b@);
    true
}

/// Whether two parts of a name say the same thing.
fn same_kind(a: &SubjectAttribute, b: &SubjectAttribute) -> (res: bool)
    ensures
        res == (a@.kind == b@.kind),
{
    match (&a.kind, &b.kind) {
        (Some(arcs), Some(others)) => same_arcs(arcs, others),
        (None, None) => true,
        (_, _) => false,
    }
}

/// Whether bytes hold this one.
fn holds_byte(bytes: &Vec<u8>, byte: u8) -> (res: bool)
    ensures
        res == bytes@.contains(byte),
{
    let mut i: usize = 0;
    while i < bytes.len()
        invariant
            i <= bytes.len(),
            forall|k: int| 0 <= k < i ==> bytes@[k] != byte,
        decreases bytes.len() - i,
    {
        if bytes[i] == byte {
            return true;
        }
        i = i + 1;
    }
    false
}

/// Whether a later part of a name says the same thing.
fn outdone(subject: &Vec<SubjectAttribute>, i: usize) -> (res: bool)
    requires
        i < subject.len(),
    ensures
        res == is_outdone(subject_view(subject@), i as int),
{
    let mut j: usize = i + 1;
    while j < subject.len()
        invariant
            i < subject.len(),
            i < j <= subject.len(),
            forall|k: int|
                i < k < j ==> (#[trigger] subject_view(subject@)[k]).kind != subject_view(
                    subject@,
                )[i as int].kind,
        decreases subject.len() - j,
    {
        assert(subject_view(subject@)[j as int] == subject@[j as int]@);
        if same_kind(&subject[j], &subject[i]) {
            return true;
        }
        j = j + 1;
    }
    false
}

/// Whether an object identifier can be written into a certificate.
fn writable_arcs(arcs: &Vec<u64>) -> (res: bool)
    ensures
        res == arcs_can_be_written(arcs@),
{
    arcs.len() >= 2 && arcs[0] < 3 && arcs[1] < ARC_LIMIT && (arcs[0] >= 2 || arcs[1] < 40)
}

/// Whether a name can be written into a certificate.
pub fn writable_name(subject: &Vec<SubjectAttribute>) -> (res: bool)
    ensures
        res == name_can_be_written(subject_view(subject@)),
{
    let mut i: usize = 0;
    while i < subject.len()
        invariant
            i <= subject.len(),
            forall|k: int|
                0 <= k < i ==> #[trigger] part_can_be_written(subject_view(subject@), k),
        decreases subject.len() - i,
    {
        let part = &subject[i];
        assert(subject_view(subject@)[i as int] == part@);
        let writable = match &part.kind {
            Some(arcs) => writable_arcs(arcs) && !(part.tag == PRINTABLE_STRING && holds_byte(
                &part.value,
                QUESTION_MARK,
            ) && !outdone(subject, i)),
            None => true,
        };
        assert(writable == part_can_be_written(subject_view(subject@), i as int));
        if !writable {
            return false;
        }
        i = i + 1;
    }
    true
}

/// Whether the name of the authority in the text `pem`, which is taken as one, can be written again.
fn writable_issuer(pem: &str) -> (res: bool)
    requires
        is_taken(pem@),
    ensures
        res == can_be_issuer(pem@),
{
    match section_of(pem) {
        Some(der) => match parse_certificate(der.as_slice()) {
            Ok(facts) => writable_name(&facts.subject),
            Err(_) => true,
        },
        None => true,
    }
}

/// What can come of making a server certificate: one that the authority signs, if the name of the
/// authority can be written again; an error for a name that is taken and cannot be written again; or
/// the error of an outside call.
pub open spec fn makes(
    made: Result<KeyedCertificate, SetupError>,
    authority: KeyedCertificate,
    now: i64,
) -> bool {
    match made {
        Ok(server) => can_be_issuer(authority.cert@) && is_new_server(server, authority, now),
        Err(SetupError::InvalidAuthority(reason)) => !can_be_issuer(authority.cert@) && reason@
            == "unsupported subject name"@,
        Err(error) => error is Failed,
    }
}

/// Makes a server certificate: a new key, and a certificate that `authority` signs. The error is
/// that of an outside call, unless the authority is taken and its name cannot be written again.
pub fn create_server(authority: &KeyedCertificate, now: i64) -> (res: Result<
    KeyedCertificate,
    SetupError,
>)
    requires
        can_issue_server_at(now),
    ensures
        makes(res, *authority, now),
{
    if let Err(error) = take_issuer(authority.cert.as_str(), authority.key.as_str()) {
        return Err(SetupError::Failed(rcgen_error_text(error)));
    }
    if !writable_issuer(authority.cert.as_str()) {
        return Err(SetupError::InvalidAuthority("unsupported subject name".to_owned()));
    }
    let key = match generate_key() {
        Ok(key) => key,
        Err(error) => return Err(SetupError::Failed(rcgen_error_text(error))),
    };
    let terms = ServerTerms {
        names: vec!["localhost".to_owned(), "127.0.0.1".to_owned(), "::1".to_owned()],
        common_name: "localhost".to_owned(),
        key_usages: vec![KeyUsage::DigitalSignature],
        purposes: vec![Purpose::ServerAuth],
        not_before: now - BACKDATE,
        not_after: now + SERVER_LIFETIME,
    };
    assert(terms@.names =~= server_terms(now).names);
    assert(terms@.key_usages =~= server_terms(now).key_usages);
    assert(terms@.purposes =~= server_terms(now).purposes);
    assert(terms@ == server_terms(now));
    match signed_by(&terms, key.as_str(), authority.cert.as_str(), authority.key.as_str()) {
        Ok(cert) => Ok(KeyedCertificate { cert, key }),
        Err(error) => Err(SetupError::Failed(rcgen_error_text(error))),
    }
}

/// What comes of reading the certificate of an authority.
pub open spec fn authority_reads(cert: Seq<char>, res: Result<CertificateFacts, SetupError>) -> bool {
    match pem_certificate(encode_utf8(cert)) {
        Err(text) => res matches Err(SetupError::Failed(reason)) && reason@ == text,
        Ok(der) => match certificate_facts(der) {
            Err(text) => res matches Err(SetupError::InvalidAuthority(reason)) && reason@ == text,
            Ok(facts) => res matches Ok(read) && read@ == facts,
        },
    }
}

/// Reads the certificate of an authority.
pub fn read_authority(cert: &str) -> (res: Result<CertificateFacts, SetupError>)
    ensures
        authority_reads(cert@, res),
{
    let der = match certificate_of(cert.as_bytes()) {
        Ok(der) => der,
        Err(text) => return Err(SetupError::Failed(text)),
    };
    match parse_certificate(der.as_slice()) {
        Ok(facts) => Ok(facts),
        Err(text) => Err(SetupError::InvalidAuthority(text)),
    }
}

/// What comes of holding an authority's certificate against its key, as it was read, and the clock:
/// whether the authority can be kept. It is to be replaced if it ends within the next 30 days.
pub open spec fn authority_checks(
    facts: CertificateFactsView,
    read: Result<Seq<u8>, Seq<char>>,
    now: i64,
    res: Result<bool, SetupError>,
) -> bool {
    match read {
        Err(text) => res matches Err(SetupError::Failed(reason)) && reason@ == text,
        Ok(public_key) => if facts.public_key != public_key {
            res == Err::<bool, _>(SetupError::KeyMismatch)
        } else if !facts.is_ca {
            res == Err::<bool, _>(SetupError::NotAnAuthority)
        } else {
            res == Ok::<_, SetupError>(facts.not_after > now + RENEW_BEFORE)
        },
    }
}

/// Whether the clock can be set forward by 30 days.
pub open spec fn can_look_ahead(now: i64) -> bool {
    now + RENEW_BEFORE <= i64::MAX
}

/// Holds an authority's certificate against its key, as it was read, and the clock.
pub fn check_authority(
    facts: &CertificateFacts,
    read: Result<Vec<u8>, String>,
    now: i64,
) -> (res: Result<bool, SetupError>)
    requires
        can_look_ahead(now),
    ensures
        authority_checks(facts@, bytes_or_text(read), now, res),
{
    let public_key = match read {
        Ok(public_key) => public_key,
        Err(text) => return Err(SetupError::Failed(text)),
    };
    if !same_bytes(&facts.public_key, &public_key) {
        return Err(SetupError::KeyMismatch);
    }
    if !facts.is_ca {
        return Err(SetupError::NotAnAuthority);
    }
    Ok(facts.not_after > now + RENEW_BEFORE)
}

/// Whether a key goes with a certificate, which is one of an authority.
pub open spec fn is_authority(cert: Seq<char>, key: Seq<char>) -> bool {
    &&& pem_certificate(encode_utf8(cert)) is Ok
    &&& facts_of(cert) matches Ok(facts)
    &&& public_key(key) == Some(facts.public_key)
    &&& facts.is_ca
}

/// Whether an authority can be kept whose key was read: it does not end within the next 30 days.
pub open spec fn authority_is_sound(cert: Seq<char>, key: Seq<char>, now: i64) -> bool {
    is_authority(cert, key) && (facts_of(cert)->Ok_0).not_after > now + RENEW_BEFORE
}

/// Whether an authority is to be replaced once its key was read: it ends within the next 30 days.
pub open spec fn authority_is_ending(cert: Seq<char>, key: Seq<char>, now: i64) -> bool {
    is_authority(cert, key) && (facts_of(cert)->Ok_0).not_after <= now + RENEW_BEFORE
}

/// Whether a server certificate is accepted for `localhost`, now and in 30 days, with the authority
/// `ca` as the only root.
pub open spec fn is_accepted(cert: Seq<u8>, ca: Seq<u8>, now: i64) -> bool {
    &&& pem_certificate(cert) matches Ok(leaf)
    &&& now >= 0
    &&& verifies(leaf, ca, "localhost"@, now as u64)
    &&& verifies(leaf, ca, "localhost"@, (now + RENEW_BEFORE) as u64)
}

/// Whether a server certificate can be kept, with its key as it was read: it has the public key of
/// its private key, and it is accepted.
pub open spec fn leaf_passes(
    cert: Seq<u8>,
    read: Result<Seq<u8>, Seq<char>>,
    ca: Seq<u8>,
    now: i64,
) -> bool {
    &&& is_accepted(cert, ca, now)
    &&& read is Ok
    &&& certificate_facts(pem_certificate(cert)->Ok_0) matches Ok(facts) && facts.public_key
        == read->Ok_0
}

/// Whether a server certificate can be kept once its key is read.
pub open spec fn leaf_is_valid(cert: Seq<u8>, key: Seq<char>, ca: Seq<u8>, now: i64) -> bool {
    public_key(key) matches Some(bytes) && leaf_passes(cert, Ok(bytes), ca, now)
}

/// Whether a server certificate can be kept, with its key as it was read.
pub fn valid_leaf(cert: &[u8], read: &Result<Vec<u8>, String>, ca: &[u8], now: i64) -> (res: bool)
    requires
        can_look_ahead(now),
    ensures
        res == leaf_passes(cert@, bytes_or_text(*read), ca@, now),
{
    let leaf = match certificate_of(cert) {
        Ok(leaf) => leaf,
        Err(_) => return false,
    };
    let public_key = match read {
        Ok(public_key) => public_key,
        Err(_) => return false,
    };
    let facts = match parse_certificate(leaf.as_slice()) {
        Ok(facts) => facts,
        Err(_) => return false,
    };
    if !same_bytes(&facts.public_key, public_key) || now < 0 {
        return false;
    }
    let early = verify_server_certificate(leaf.as_slice(), ca, "localhost", now as u64);
    let late = verify_server_certificate(
        leaf.as_slice(),
        ca,
        "localhost",
        (now + RENEW_BEFORE) as u64,
    );
    early.is_some() && late.is_some()
}

/// The certificate of an authority as it is handed to the check of a server certificate.
pub fn authority_der(cert: &str) -> (res: Result<Vec<u8>, SetupError>)
    ensures
        match pem_certificate(encode_utf8(cert@)) {
            Err(text) => res matches Err(SetupError::Failed(reason)) && reason@ == text,
            Ok(der) => res matches Ok(read) && read@ == der,
        },
{
    match certificate_of(cert.as_bytes()) {
        Ok(der) => Ok(der),
        Err(text) => Err(SetupError::Failed(text)),
    }
}

/// An authority that was made here is accepted later: its certificate can be read, its key goes
/// with it if it can be read, and it is kept until 30 days before it ends.
pub proof fn new_authority_is_kept(
    authority: KeyedCertificate,
    made: i64,
    now: i64,
    facts: Result<CertificateFacts, SetupError>,
    read: Result<Seq<u8>, Seq<char>>,
    kept: Result<bool, SetupError>,
)
    requires
        can_issue_at(made),
        is_new_authority(authority, made),
        authority_reads(authority.cert@, facts),
        key_reads(authority.key@, read),
        facts matches Ok(facts) ==> authority_checks(facts@, read, now, kept),
    ensures
        facts is Ok,
        read is Ok ==> kept == Ok::<_, SetupError>(now + RENEW_BEFORE < made + AUTHORITY_LIFETIME),
        read is Err ==> (kept matches Err(error) && error is Failed),
        authority_is_sound(authority.cert@, authority.key@, now) == (now + RENEW_BEFORE < made
            + AUTHORITY_LIFETIME),
{
}

/// An authority that was made here can sign server certificates: its name is no obstacle.
pub proof fn new_authority_can_sign(authority: KeyedCertificate, made: i64)
    requires
        is_new_authority(authority, made),
    ensures
        can_be_issuer(authority.cert@),
{
    let subject = facts_of(authority.cert@)->Ok_0.subject;
    assert forall|i: int| 0 <= i < subject.len() implies #[trigger] part_can_be_written(
        subject,
        i,
    ) by {
        assert(subject[0] == common_name(authority_terms(made).common_name));
    }
}

/// A server certificate that was made here and can be read from a PEM text goes with its key:
/// whether it is kept rests on the check of the certificate alone.
pub proof fn new_server_goes_with_its_key(
    server: KeyedCertificate,
    authority: KeyedCertificate,
    made: i64,
    ca: Seq<u8>,
    now: i64,
)
    requires
        is_new_server(server, authority, made),
        server.cert@.len() <= SECTION_LIMIT,
    ensures
        leaf_is_valid(encode_utf8(server.cert@), server.key@, ca, now) == is_accepted(
            encode_utf8(server.cert@),
            ca,
            now,
        ),
{
}

} // verus!
