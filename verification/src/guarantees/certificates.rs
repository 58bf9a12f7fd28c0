//! Promises on the certificates of the local HTTPS service.
use vstd::prelude::*;
use vstd::utf8::encode_utf8;

use crate::certificates::{
    authority_der, certificate_facts, check_authority, clock_is_usable, create_ca, create_server,
    is_self_signed, is_signed_by, is_taken, part_can_be_written, pem_certificate, pem_section,
    public_key, read_authority, subject_view, valid_leaf, verifies, writable_name,
    AuthorityTermsView, CertificateFacts, CertificateFactsView, KeyUsage, KeyedCertificate, Purpose,
    ServerTermsView, SubjectAttribute, SubjectAttributeView,
};
use crate::error::SetupError;

verus! {

/// A certificate can be made exactly if it can say from five minutes ago until in ten years,
/// between the years 0 and 9999.
pub proof fn clock_is_used_between_the_years(now: i64, res: bool)
    requires
        call_ensures(clock_is_usable, (now,), res),
    ensures
        res == (-62_167_219_200 <= now - 300 && now + 3650 * 24 * 60 * 60 <= 253_402_300_799),
{
}

/// Whether terms are those of a local authority that is made at the instant `now`: under its own
/// name, for certificates and revocation lists, with no further authority below it, from five
/// minutes ago until in ten years.
pub open spec fn are_authority_terms(terms: AuthorityTermsView, now: i64) -> bool {
    &&& terms.common_name == "CCS Proxy Local CA"@
    &&& terms.path_length == 0
    &&& terms.key_usages == seq![KeyUsage::KeyCertSign, KeyUsage::CrlSign]
    &&& terms.not_before == now - 300
    &&& terms.not_after == now + 3650 * 24 * 60 * 60
}

/// Whether terms are those of a server certificate that is made at the instant `now`: for this host
/// alone, by name and by its two addresses, for HTTPS servers, from five minutes ago until in a
/// year.
pub open spec fn are_server_terms(terms: ServerTermsView, now: i64) -> bool {
    &&& terms.names == seq!["localhost"@, "127.0.0.1"@, "::1"@]
    &&& terms.common_name == "localhost"@
    &&& terms.key_usages == seq![KeyUsage::DigitalSignature]
    &&& terms.purposes == seq![Purpose::ServerAuth]
    &&& terms.not_before == now - 300
    &&& terms.not_after == now + 365 * 24 * 60 * 60
}

/// What a certificate in a text says, if it can be read.
pub open spec fn said_in(pem: Seq<char>) -> Option<CertificateFactsView> {
    match pem_certificate(encode_utf8(pem)) {
        Ok(der) => match certificate_facts(der) {
            Ok(facts) => Some(facts),
            Err(_) => None,
        },
        Err(_) => None,
    }
}

/// Whether an authority is one that signs for itself at the instant `now`: its certificate can be
/// read, is that of an authority, and has the public key of its key.
pub open spec fn is_local_authority(authority: KeyedCertificate, now: i64) -> bool {
    &&& forall|terms: AuthorityTermsView|
        are_authority_terms(terms, now) ==> #[trigger] is_self_signed(
            authority.cert@,
            terms,
            authority.key@,
        )
    &&& said_in(authority.cert@) matches Some(facts)
    &&& facts.is_ca
    &&& public_key(authority.key@) == Some(facts.public_key)
    &&& facts.subject.len() == 1
    &&& facts.subject[0].value == encode_utf8("CCS Proxy Local CA"@)
}

/// Whether a server certificate is one that the authority signs at the instant `now`. If it can be
/// read, it is not that of an authority, and it has the public key of its key.
pub open spec fn is_local_server(
    server: KeyedCertificate,
    authority: KeyedCertificate,
    now: i64,
) -> bool {
    &&& forall|terms: ServerTermsView|
        are_server_terms(terms, now) ==> #[trigger] is_signed_by(
            server.cert@,
            terms,
            server.key@,
            authority.cert@,
            authority.key@,
        )
    &&& server.cert@.len() <= 0x1000_0000 ==> (said_in(server.cert@) matches Some(facts)
        && !facts.is_ca && public_key(server.key@) == Some(facts.public_key))
}

pub(crate) proof fn lemma_local_authority(authority: KeyedCertificate, now: i64)
    requires
        crate::certificates::is_new_authority(authority, now),
    ensures
        is_local_authority(authority, now),
{
    assert forall|terms: AuthorityTermsView| are_authority_terms(terms, now) implies #[trigger]
        is_self_signed(authority.cert@, terms, authority.key@) by {
        assert(terms == crate::certificates::authority_terms(now));
    }
}

pub(crate) proof fn lemma_local_server(
    server: KeyedCertificate,
    authority: KeyedCertificate,
    now: i64,
)
    requires
        crate::certificates::is_new_server(server, authority, now),
    ensures
        is_local_server(server, authority, now),
{
    assert forall|terms: ServerTermsView| are_server_terms(terms, now) implies #[trigger]
        is_signed_by(
        server.cert@,
        terms,
        server.key@,
        authority.cert@,
        authority.key@,
    ) by {
        assert(terms == crate::certificates::server_terms(now));
    }
}

/// A new authority signs for itself, under the terms of the local authority, with its own key. Only
/// the outside calls can fail.
pub proof fn new_authorities_sign_for_themselves(
    now: i64,
    terms: AuthorityTermsView,
    res: Result<KeyedCertificate, SetupError>,
)
    requires
        call_ensures(create_ca, (now,), res),
        are_authority_terms(terms, now),
    ensures
        res matches Ok(authority) ==> is_self_signed(authority.cert@, terms, authority.key@),
        res matches Ok(authority) ==> is_local_authority(authority, now),
        res matches Ok(authority) ==> (said_in(authority.cert@) matches Some(facts)
            && facts.not_after == now + 3650 * 24 * 60 * 60),
        res matches Err(error) ==> error is Failed,
{
    if let Ok(authority) = res {
        lemma_local_authority(authority, now);
    }
}

/// Whether an object identifier can be written: it has two arcs or more, the first is at most 2,
/// and the second is below 40 unless the first is 2.
pub open spec fn is_writable_kind(arcs: Seq<u64>) -> bool {
    &&& arcs.len() >= 2
    &&& arcs[0] <= 2
    &&& arcs[0] < 2 ==> arcs[1] <= 39
    &&& arcs[1] < 18_446_744_073_709_551_535
}

/// Whether a part of a name is a `PrintableString` that holds a question mark.
pub open spec fn is_questionable(part: SubjectAttributeView) -> bool {
    part.tag == 19 && exists|k: int| 0 <= k < part.value.len() && #[trigger] part.value[k] == 63
}

/// Whether every part of a name can be written: its kind can, and it is not a `PrintableString`
/// with a question mark, unless a later part of the same kind stands in for it. A part of an
/// unknown kind is left out.
pub open spec fn is_writable(subject: Seq<SubjectAttributeView>) -> bool {
    forall|i: int|
        0 <= i < subject.len() ==> ((#[trigger] subject[i]).kind matches Some(arcs)
            ==> is_writable_kind(arcs) && (is_questionable(subject[i]) ==> exists|j: int|
            i < j < subject.len() && (#[trigger] subject[j]).kind == subject[i].kind))
}

proof fn lemma_part(subject: Seq<SubjectAttributeView>, i: int)
    requires
        0 <= i < subject.len(),
    ensures
        part_can_be_written(subject, i) == (subject[i].kind matches Some(arcs)
            ==> is_writable_kind(arcs) && (is_questionable(subject[i]) ==> exists|j: int|
            i < j < subject.len() && (#[trigger] subject[j]).kind == subject[i].kind)),
{
    let part = subject[i];
    if part.tag == 19 {
        if part.value.contains(63u8) {
            let k = choose|k: int| 0 <= k < part.value.len() && part.value[k] == 63u8;
            assert(part.value[k] == 63);
        }
    }
}

pub(crate) proof fn lemma_writable(subject: Seq<SubjectAttributeView>)
    ensures
        crate::certificates::name_can_be_written(subject) == is_writable(subject),
{
    assert forall|i: int| 0 <= i < subject.len() implies #[trigger] part_can_be_written(subject, i)
        == (subject[i].kind matches Some(arcs) ==> is_writable_kind(arcs) && (is_questionable(
        subject[i],
    ) ==> exists|j: int|
        i < j < subject.len() && (#[trigger] subject[j]).kind == subject[i].kind)) by {
        lemma_part(subject, i);
    }
    if is_writable(subject) {
        assert forall|i: int| 0 <= i < subject.len() implies #[trigger] part_can_be_written(
            subject,
            i,
        ) by {
            assert(subject[i].kind == subject[i].kind);
        }
    }
    if crate::certificates::name_can_be_written(subject) {
        assert forall|i: int| 0 <= i < subject.len() implies ((
        #[trigger] subject[i]).kind matches Some(arcs) ==> is_writable_kind(arcs) && (
        is_questionable(subject[i]) ==> exists|j: int|
            i < j < subject.len() && (#[trigger] subject[j]).kind == subject[i].kind)) by {
            assert(part_can_be_written(subject, i));
        }
    }
}

/// A name can be written exactly if every part of it can.
pub proof fn names_are_written_part_by_part(subject: &Vec<SubjectAttribute>, i: int, res: bool)
    requires
        call_ensures(writable_name, (subject,), res),
    ensures
        res == is_writable(subject_view(subject@)),
        subject_view(subject@).len() == subject@.len(),
        0 <= i < subject@.len() ==> ({
            let part = subject@[i];
            let view = subject_view(subject@)[i];
            &&& view.tag == part.tag
            &&& view.value == part.value@
            &&& view.kind is Some == part.kind is Some
            &&& part.kind matches Some(arcs) ==> view.kind == Some(arcs@)
        }),
{
    lemma_writable(subject_view(subject@));
}

/// Whether an authority can be named in the certificates that it signs: if it is taken as one, and
/// its certificate can be read, its name can be written.
pub open spec fn can_be_named(pem: Seq<char>) -> bool {
    is_taken(pem) ==> (pem_section(pem) matches Some(der) ==> (certificate_facts(der) matches Ok(
        facts,
    ) ==> is_writable(facts.subject)))
}

pub(crate) proof fn lemma_can_be_named(pem: Seq<char>)
    ensures
        can_be_named(pem) == crate::certificates::can_be_issuer(pem),
{
    if let Some(der) = pem_section(pem) {
        if let Ok(facts) = certificate_facts(der) {
            lemma_writable(facts.subject);
        }
    }
}

/// A new server certificate is signed by the authority, under the terms of the local server, with a
/// key of its own. An authority that cannot be named is an error of its own; for the rest only the
/// outside calls can fail.
pub proof fn new_servers_are_signed_by_the_authority(
    authority: &KeyedCertificate,
    now: i64,
    terms: ServerTermsView,
    res: Result<KeyedCertificate, SetupError>,
)
    requires
        call_ensures(create_server, (authority, now), res),
        are_server_terms(terms, now),
    ensures
        res matches Ok(server) ==> is_signed_by(
            server.cert@,
            terms,
            server.key@,
            authority.cert@,
            authority.key@,
        ),
        res matches Ok(server) ==> is_local_server(server, *authority, now),
        res matches Ok(server) ==> (server.cert@.len() <= 0x1000_0000 ==> (said_in(
            server.cert@,
        ) matches Some(facts) && facts.not_after == now + 365 * 24 * 60 * 60)),
        res is Ok ==> can_be_named(authority.cert@),
        res matches Err(error) ==> error is Failed || (
        error matches SetupError::InvalidAuthority(reason) && reason@ == "unsupported subject name"@
            && !can_be_named(authority.cert@)),
{
    lemma_can_be_named(authority.cert@);
    if let Ok(server) = res {
        lemma_local_server(server, *authority, now);
    }
}

/// The certificate of an authority is read as it is: what it says, or why it cannot be read.
pub proof fn authorities_are_read_as_they_are(
    cert: &str,
    facts: Result<CertificateFacts, SetupError>,
    der: Result<Vec<u8>, SetupError>,
)
    requires
        call_ensures(read_authority, (cert,), facts),
        call_ensures(authority_der, (cert,), der),
    ensures
        facts is Ok == said_in(cert@) is Some,
        facts matches Ok(read) ==> said_in(cert@) == Some(read@),
        facts matches Ok(read) ==> (said_in(cert@) matches Some(said) && said.public_key
            == read.public_key@ && said.is_ca == read.is_ca && said.not_after == read.not_after),
        pem_certificate(encode_utf8(cert@)) matches Ok(bytes) ==> (der matches Ok(read) && read@
            == bytes),
        pem_certificate(encode_utf8(cert@)) matches Ok(bytes) ==> (certificate_facts(
            bytes,
        ) matches Err(text) ==> (facts matches Err(SetupError::InvalidAuthority(reason)) && reason@
            == text)),
        pem_certificate(encode_utf8(cert@)) matches Err(text) ==> (
        facts matches Err(SetupError::Failed(reason)) && reason@ == text) && (
        der matches Err(SetupError::Failed(reason)) && reason@ == text),
{
}

/// An authority is kept if its key is the one of its certificate, it is one of an authority, and it
/// does not end within the next 30 days; it is replaced if only the last does not hold. A key that
/// was not read, a key of another certificate and a certificate of no authority are errors, in this
/// order.
pub proof fn authorities_are_kept_or_replaced(
    facts: &CertificateFacts,
    read: Result<Vec<u8>, String>,
    now: i64,
    res: Result<bool, SetupError>,
)
    requires
        call_ensures(check_authority, (facts, read, now), res),
    ensures
        read matches Err(text) ==> (res matches Err(SetupError::Failed(reason)) && reason@ == text@),
        read matches Ok(key) ==> (key@ != facts.public_key@ ==> (res matches Err(error)
            && error is KeyMismatch)),
        read matches Ok(key) ==> (key@ == facts.public_key@ && !facts.is_ca ==> (
        res matches Err(error) && error is NotAnAuthority)),
        read matches Ok(key) ==> (key@ == facts.public_key@ && facts.is_ca ==> res == Ok::<
            _,
            SetupError,
        >(facts.not_after - now > 30 * 24 * 60 * 60)),
{
}

/// Whether a server certificate can be kept: it can be read, has this public key, and is accepted
/// for `localhost` at both instants with the authority as the only root.
pub open spec fn can_be_kept(
    cert: Seq<u8>,
    key: Seq<u8>,
    ca: Seq<u8>,
    at: u64,
    later: u64,
) -> bool {
    &&& pem_certificate(cert) matches Ok(leaf)
    &&& certificate_facts(leaf) matches Ok(facts)
    &&& facts.public_key == key
    &&& verifies(leaf, ca, "localhost"@, at)
    &&& verifies(leaf, ca, "localhost"@, later)
}

/// A server certificate is kept exactly if its key was read and it can be kept, now and in 30 days.
/// Before 1970 none is.
pub proof fn servers_are_kept_while_they_are_accepted(
    cert: &[u8],
    read: &Result<Vec<u8>, String>,
    ca: &[u8],
    now: i64,
    at: u64,
    later: u64,
    res: bool,
)
    requires
        call_ensures(valid_leaf, (cert, read, ca, now), res),
        now >= 0 ==> at == now && later == now + 30 * 24 * 60 * 60,
    ensures
        now < 0 ==> !res,
        *read is Err ==> !res,
        now >= 0 ==> (*read matches Ok(key) ==> res == can_be_kept(cert@, key@, ca@, at, later)),
{
    assert(now >= 0 ==> at == now as u64 && later == (now + 2_592_000) as u64);
}

} // verus!
