//! Promises on the setup of the certificates.
use vstd::prelude::*;
use vstd::utf8::encode_utf8;

use crate::certificates::{
    certificate_facts, leaf_passes, makes, pem_certificate, public_key, CertificateFacts,
    KeyedCertificate,
};
use crate::error::SetupError;
use crate::guarantees::certificates::{
    can_be_kept, can_be_named, is_local_authority, is_local_server, lemma_can_be_named,
    lemma_local_authority, lemma_local_server,
};
use crate::tls::{
    can_be_read, ensure_certificates, ensure_certificates_reading, follows, follows_reading,
    makes_authority, makes_server, prepare, prepare_with_store, proceed, reading_view,
    with_new_authority, with_new_server, writes_authority, writes_server, Action, Event, File,
    Setup, Stage, Step,
};

verus! {

/// The four files have these names.
pub proof fn files_are_named(file: File, res: String)
    requires
        call_ensures(File::name, (&file,), res),
    ensures
        file is Authority ==> res@ == "ca.pem"@,
        file is AuthorityKey ==> res@ == "ca-key.pem"@,
        file is Server ==> res@ == "localhost.pem"@,
        file is ServerKey ==> res@ == "localhost-key.pem"@,
{
}

/// The setup starts with the directory.
pub proof fn setup_starts_with_the_directory(directory: &str, started: i64, res: Step)
    requires
        call_ensures(prepare, (directory, started), res),
    ensures
        res.setup.directory@ == directory@,
        res.setup.started == started,
        res.setup.stage is CreatingDirectory,
        res.action is CreateDirectory,
{
}

/// Whether the setup ends with this text as the reason.
pub open spec fn ends_saying(step: Step, text: Seq<char>) -> bool {
    step.setup.stage is Finished && (
    step.action matches Action::Finish(Err(SetupError::Failed(reason))) && reason@ == text)
}

/// Whether the setup ends with an error that says nothing but its reason.
pub open spec fn ends_failed(step: Step) -> bool {
    step.setup.stage is Finished && (step.action matches Action::Finish(Err(error))
        && error is Failed)
}

/// Whether the setup ends with this error.
pub open spec fn ends_with(step: Step, error: SetupError) -> bool {
    step.setup.stage is Finished && step.action == Action::Finish(Err(error))
}

/// Whether a file is replaced by this text.
pub open spec fn replaces(step: Step, file: File, text: Seq<char>) -> bool {
    step.action matches Action::WriteFile { file: written, text: content } && written == file
        && content@ == text
}

/// Whether the server certificate is read next, to be held against this authority.
pub open spec fn looks_at_server(
    step: Step,
    authority: KeyedCertificate,
    der: Seq<u8>,
    renewed: bool,
) -> bool {
    &&& step.setup.stage matches Stage::ReadingServer { authority: kept, ca, renewed: flag }
    &&& kept == authority
    &&& ca@ == der
    &&& flag == renewed
    &&& step.action == Action::ReadBytes(File::Server)
}

/// Whether the setup goes on with an authority: the server certificate is next, unless the
/// certificate of the authority cannot be read.
pub open spec fn goes_on_with(step: Step, authority: KeyedCertificate) -> bool {
    match pem_certificate(encode_utf8(authority.cert@)) {
        Err(text) => ends_saying(step, text),
        Ok(der) => looks_at_server(step, authority, der, false),
    }
}

/// Whether the key of a new authority is written down, unless none can be made.
pub open spec fn starts_new_authority(step: Step, now: i64) -> bool {
    ||| ends_failed(step)
    ||| step.setup.stage matches Stage::WritingAuthorityKey { authority } && is_local_authority(
        authority,
        now,
    ) && replaces(step, File::AuthorityKey, authority.key@)
}

/// Whether the key of a new server certificate is written down, unless none can be made.
pub open spec fn starts_new_server(
    step: Step,
    authority: KeyedCertificate,
    der: Seq<u8>,
    now: i64,
) -> bool {
    ||| ends_failed(step)
    ||| !can_be_named(authority.cert@) && step.setup.stage is Finished && (
    step.action matches Action::Finish(Err(SetupError::InvalidAuthority(reason))) && reason@
        == "unsupported subject name"@)
    ||| can_be_named(authority.cert@) && (step.setup.stage matches Stage::WritingServerKey {
        authority: kept,
        ca,
        server,
    } && kept == authority && ca@ == der && is_local_server(server, authority, now) && replaces(
        step,
        File::ServerKey,
        server.key@,
    ))
}

/// Whether the setup goes on as the server certificate asks for. One that is good is read once
/// more, and then the system is asked. One that is not is replaced, but only once.
pub open spec fn goes_on_as_asked(
    step: Step,
    authority: KeyedCertificate,
    der: Seq<u8>,
    renewed: bool,
    good: bool,
    now: i64,
) -> bool {
    &&& good && renewed ==> step.setup.stage == (Stage::CheckingTrust { requested: false })
        && step.action is CheckTrust
    &&& good && !renewed ==> looks_at_server(step, authority, der, true)
    &&& !good && renewed ==> ends_with(step, SetupError::InvalidServerCertificate)
    &&& !good && !renewed ==> starts_new_server(step, authority, der, now)
}

/// Whether the setup goes on with an authority whose key was read.
pub open spec fn goes_on_with_key(
    step: Step,
    cert: String,
    facts: CertificateFacts,
    key: String,
    read: Result<Seq<u8>, Seq<char>>,
    started: i64,
) -> bool {
    match read {
        Err(text) => ends_saying(step, text),
        Ok(public) => {
            &&& public != facts.public_key@ ==> ends_with(step, SetupError::KeyMismatch)
            &&& public == facts.public_key@ && !facts.is_ca ==> ends_with(
                step,
                SetupError::NotAnAuthority,
            )
            &&& public == facts.public_key@ && facts.is_ca && facts.not_after - started > 30 * 24
                * 60 * 60 ==> goes_on_with(step, KeyedCertificate { cert, key })
            &&& public == facts.public_key@ && facts.is_ca && facts.not_after - started <= 30 * 24
                * 60 * 60 ==> starts_new_authority(step, started)
        },
    }
}

/// Whether the setup goes on with the certificate of an authority: its key is next, unless the
/// certificate cannot be read.
pub open spec fn goes_on_with_certificate(step: Step, cert: String) -> bool {
    match pem_certificate(encode_utf8(cert@)) {
        Err(text) => ends_saying(step, text),
        Ok(der) => match certificate_facts(der) {
            Err(text) => step.setup.stage is Finished && (
            step.action matches Action::Finish(Err(SetupError::InvalidAuthority(reason))) && reason@
                == text),
            Ok(said) => {
                &&& step.setup.stage matches Stage::ReadingAuthorityKey { cert: kept, facts }
                &&& kept == cert
                &&& facts@ == said
                &&& step.action == Action::ReadText(File::AuthorityKey)
            },
        },
    }
}

/// Whether a server certificate is good at the instant `now`, with its key as it was read.
pub open spec fn is_good(
    leaf: Seq<u8>,
    read: Result<Seq<u8>, Seq<char>>,
    ca: Seq<u8>,
    now: i64,
) -> bool {
    &&& now >= 0
    &&& read matches Ok(key)
    &&& can_be_kept(leaf, key, ca, now as u64, (now + 30 * 24 * 60 * 60) as u64)
}

/// Whether `step` is what comes next when the action of a stage did not fail, where the key that
/// came, if one did, was read as `read` says.
pub open spec fn comes_next(
    before: Setup,
    event: Event,
    read: Option<Result<Seq<u8>, Seq<char>>>,
    now: i64,
    step: Step,
) -> bool {
    match before.stage {
        Stage::CreatingDirectory => step.setup.stage is FindingAuthority && step.action
            == Action::FindFile(File::Authority),
        Stage::FindingAuthority => event matches Event::Found(found) && step.setup.stage == (
        Stage::FindingAuthorityKey { authority_found: found }) && step.action == Action::FindFile(
            File::AuthorityKey,
        ),
        Stage::FindingAuthorityKey { authority_found } => {
            &&& event matches Event::Found(found)
            &&& authority_found && found ==> step.setup.stage is ReadingAuthority && step.action
                == Action::ReadText(File::Authority)
            &&& authority_found != found ==> step.setup.stage is Finished && (
            step.action matches Action::Finish(Err(SetupError::IncompleteAuthority(shown)))
                && shown@ == before.directory@)
            &&& !authority_found && !found ==> starts_new_authority(step, before.started)
        },
        Stage::ReadingAuthority => event matches Event::Text(cert) && goes_on_with_certificate(
            step,
            cert,
        ),
        Stage::ReadingAuthorityKey { cert, facts } => event matches Event::Text(key)
            && goes_on_with_key(step, cert, facts, key, read->0, before.started),
        Stage::WritingAuthorityKey { authority } => step.setup.stage == (Stage::WritingAuthority {
            authority,
        }) && replaces(step, File::Authority, authority.cert@),
        Stage::WritingAuthority { authority } => goes_on_with(step, authority),
        Stage::ReadingServer { authority, ca, renewed } => event matches Event::Bytes(leaf)
            && step.setup.stage == (Stage::ReadingServerKey { authority, ca, renewed, leaf })
            && step.action == Action::ReadText(File::ServerKey),
        Stage::ReadingServerKey { authority, ca, renewed, leaf } => event is Text
            && goes_on_as_asked(
            step,
            authority,
            ca@,
            renewed,
            is_good(leaf@, read->0, ca@, now),
            before.started,
        ),
        Stage::WritingServerKey { authority, ca, server } => step.setup.stage == (
        Stage::WritingServer { authority, ca, server }) && replaces(
            step,
            File::Server,
            server.cert@,
        ),
        Stage::WritingServer { authority, ca, server } => looks_at_server(
            step,
            authority,
            ca@,
            true,
        ),
        Stage::CheckingTrust { requested } => {
            &&& event matches Event::Trusted(trusted)
            &&& trusted ==> hands_out(step)
            &&& !trusted && requested ==> ends_with(step, SetupError::NotTrusted)
            &&& !trusted && !requested ==> step.setup.stage is RequestingTrust
                && step.action is RequestTrust
        },
        Stage::RequestingTrust => step.setup.stage == (Stage::CheckingTrust { requested: true })
            && step.action is CheckTrust,
        Stage::Finished => false,
    }
}

/// Whether the setup ends with the names of the three files that the service needs.
pub open spec fn hands_out(step: Step) -> bool {
    &&& step.setup.stage is Finished
    &&& step.action matches Action::Finish(Ok(files))
    &&& files.ca@ == "ca.pem"@
    &&& files.cert@ == "localhost.pem"@
    &&& files.key@ == "localhost-key.pem"@
}

/// Whether `step` is what comes next when the action of a stage failed: a server certificate that
/// cannot be read is not good, and every other failure ends the setup with its reason.
pub open spec fn comes_of_failure(before: Setup, reason: Seq<char>, step: Step) -> bool {
    match before.stage {
        Stage::ReadingServer { authority, ca, renewed } => goes_on_as_asked(
            step,
            authority,
            ca@,
            renewed,
            false,
            before.started,
        ),
        Stage::ReadingServerKey { authority, ca, renewed, leaf } => goes_on_as_asked(
            step,
            authority,
            ca@,
            renewed,
            false,
            before.started,
        ),
        _ => ends_saying(step, reason),
    }
}

/// Whether `read` can come of reading the private key in a text: a key that is read is the public
/// key that belongs to it.
pub open spec fn is_reading(key: Seq<char>, read: Result<Seq<u8>, Seq<char>>) -> bool {
    read matches Ok(bytes) ==> public_key(key) == Some(bytes)
}

proof fn lemma_starts_new_authority(step: Step, now: i64)
    requires
        makes_authority(step, now),
    ensures
        starts_new_authority(step, now),
{
    let made = choose|made: Result<KeyedCertificate, SetupError>| #[trigger]
        writes_authority(step, made) && match made {
            Ok(authority) => crate::certificates::is_new_authority(authority, now),
            Err(error) => error is Failed,
        };
    if let Ok(authority) = made {
        lemma_local_authority(authority, now);
    }
}

proof fn lemma_starts_new_server(step: Step, authority: KeyedCertificate, der: Seq<u8>, now: i64)
    requires
        makes_server(step, authority, der, now),
    ensures
        starts_new_server(step, authority, der, now),
{
    let made = choose|made: Result<KeyedCertificate, SetupError>| #[trigger]
        writes_server(step, authority, der, made) && makes(made, authority, now);
    lemma_can_be_named(authority.cert@);
    if let Ok(server) = made {
        lemma_local_server(server, authority, now);
    }
}

proof fn lemma_goes_on_as_asked(
    step: Step,
    authority: KeyedCertificate,
    der: Seq<u8>,
    renewed: bool,
    good: bool,
    now: i64,
)
    requires
        crate::tls::judges(step, authority, der, renewed, good, now),
    ensures
        goes_on_as_asked(step, authority, der, renewed, good, now),
{
    if !good && !renewed {
        lemma_starts_new_server(step, authority, der, now);
    }
}

proof fn lemma_comes_next(
    before: Setup,
    event: Event,
    read: Option<Result<Seq<u8>, Seq<char>>>,
    now: i64,
    step: Step,
)
    requires
        follows_reading(before, event, read, now, step),
    ensures
        step.setup.directory@ == before.directory@,
        step.setup.started == before.started,
        event matches Event::Failed(reason) ==> comes_of_failure(before, reason@, step),
        !(event is Failed) ==> comes_next(before, event, read, now, step),
{
    match before.stage {
        Stage::FindingAuthorityKey { authority_found } => {
            if let Event::Found(found) = event {
                if !authority_found && !found {
                    lemma_starts_new_authority(step, before.started);
                }
            }
        },
        Stage::ReadingAuthorityKey { cert, facts } => {
            if let Event::Text(key) = event {
                if let Ok(public) = read->0 {
                    if public == facts.public_key@ && facts.is_ca && facts.not_after
                        - before.started <= 30 * 24 * 60 * 60 {
                        lemma_starts_new_authority(step, before.started);
                    }
                }
            }
        },
        Stage::ReadingServer { authority, ca, renewed } => {
            if event is Failed {
                lemma_goes_on_as_asked(step, authority, ca@, renewed, false, before.started);
            }
        },
        Stage::ReadingServerKey { authority, ca, renewed, leaf } => {
            if event is Failed {
                lemma_goes_on_as_asked(step, authority, ca@, renewed, false, before.started);
            } else if event is Text {
                let good = is_good(leaf@, read->0, ca@, now);
                assert(good == leaf_passes(leaf@, read->0, ca@, now));
                lemma_goes_on_as_asked(step, authority, ca@, renewed, good, before.started);
            }
        },
        _ => {},
    }
}

/// What comes next, step by step, where the key that came was read as `read` says.
pub proof fn steps_follow_what_was_read(
    setup: Setup,
    event: Event,
    read: Option<Result<Vec<u8>, String>>,
    now: i64,
    res: Step,
)
    requires
        call_ensures(ensure_certificates_reading, (setup, event, read, now), res),
    ensures
        res.setup.directory@ == setup.directory@,
        res.setup.started == setup.started,
        event matches Event::Failed(reason) ==> comes_of_failure(setup, reason@, res),
        !(event is Failed) ==> comes_next(setup, event, reading_view(read), now, res),
{
    lemma_comes_next(setup, event, reading_view(read), now, res);
}

/// Whether what comes next fits some reading of the key that came, if one did.
pub open spec fn comes_next_somehow(before: Setup, event: Event, now: i64, step: Step) -> bool {
    &&& step.setup.directory@ == before.directory@
    &&& step.setup.started == before.started
    &&& event matches Event::Failed(reason) ==> comes_of_failure(before, reason@, step)
    &&& !(event is Failed) ==> exists|read: Option<Result<Seq<u8>, Seq<char>>>| #[trigger]
        comes_next(before, event, read, now, step) && (before.stage is ReadingAuthorityKey
            || before.stage is ReadingServerKey ==> (event matches Event::Text(key) ==> (
        read matches Some(outcome) && is_reading(key@, outcome))))
}

proof fn lemma_comes_next_somehow(before: Setup, event: Event, now: i64, step: Step)
    requires
        follows(before, event, now, step),
    ensures
        comes_next_somehow(before, event, now, step),
{
    let read = choose|read: Option<Result<Seq<u8>, Seq<char>>>|
        can_be_read(before.stage, event, read) && #[trigger] follows_reading(
            before,
            event,
            read,
            now,
            step,
        );
    lemma_comes_next(before, event, read, now, step);
}

/// What comes next, step by step: from the directory to a server certificate, to the system's
/// trust.
pub proof fn steps_follow_one_another(setup: Setup, event: Event, now: i64, res: Step)
    requires
        call_ensures(proceed, (setup, event, now), res),
    ensures
        comes_next_somehow(setup, event, now, res),
{
    lemma_comes_next_somehow(setup, event, now, res);
}

/// What comes next on the way to a server certificate.
pub proof fn steps_lead_to_a_certificate(setup: Setup, event: Event, now: i64, res: Step)
    requires
        call_ensures(ensure_certificates, (setup, event, now), res),
    ensures
        comes_next_somehow(setup, event, now, res),
{
    lemma_comes_next_somehow(setup, event, now, res);
}

/// What comes next on the way to the system's trust, whatever the time is.
pub proof fn steps_lead_to_trust(setup: Setup, event: Event, now: i64, res: Step)
    requires
        call_ensures(prepare_with_store, (setup, event), res),
    ensures
        comes_next_somehow(setup, event, now, res),
{
    assert(follows(setup, event, now, res));
    lemma_comes_next_somehow(setup, event, now, res);
}

/// Nothing is handed out unless the system has just said that it trusts the certificate.
pub proof fn only_trusted_certificates_are_handed_out(
    setup: Setup,
    event: Event,
    now: i64,
    res: Step,
)
    requires
        call_ensures(proceed, (setup, event, now), res),
    ensures
        res.action matches Action::Finish(Ok(_)) ==> event == Event::Trusted(true)
            && setup.stage is CheckingTrust && hands_out(res),
        setup.stage is CheckingTrust && event == Event::Trusted(true) ==> hands_out(res),
{
}

/// A private key is written before its certificate, and the certificate that follows is the one
/// that belongs to it.
pub proof fn keys_are_written_first(setup: Setup, event: Event, now: i64, res: Step)
    requires
        call_ensures(proceed, (setup, event, now), res),
    ensures
        res.action matches Action::WriteFile { file, text } ==> match file {
            File::Authority => setup.stage matches Stage::WritingAuthorityKey { authority } && text@
                == authority.cert@ && !(event is Failed),
            File::Server => setup.stage matches Stage::WritingServerKey { server, .. } && text@
                == server.cert@ && !(event is Failed),
            File::AuthorityKey => res.setup.stage matches Stage::WritingAuthorityKey { authority }
                && text@ == authority.key@,
            File::ServerKey => res.setup.stage matches Stage::WritingServerKey { server, .. }
                && text@ == server.key@,
        },
{
}

/// A new authority is written down with its key first; why none could be made ends the setup.
pub proof fn new_authorities_are_written_down(
    directory: String,
    started: i64,
    made: Result<KeyedCertificate, SetupError>,
    res: Step,
)
    requires
        call_ensures(with_new_authority, (directory, started, made), res),
    ensures
        res.setup.directory@ == directory@,
        res.setup.started == started,
        made matches Ok(authority) ==> res.setup.stage == (Stage::WritingAuthorityKey { authority })
            && replaces(res, File::AuthorityKey, authority.key@),
        made matches Err(error) ==> ends_with(res, error),
{
}

/// A new server certificate is written down with its key first; why none could be made ends the
/// setup.
pub proof fn new_servers_are_written_down(
    directory: String,
    started: i64,
    authority: KeyedCertificate,
    ca: Vec<u8>,
    made: Result<KeyedCertificate, SetupError>,
    res: Step,
)
    requires
        call_ensures(with_new_server, (directory, started, authority, ca, made), res),
    ensures
        res.setup.directory@ == directory@,
        res.setup.started == started,
        made matches Ok(server) ==> (res.setup.stage matches Stage::WritingServerKey {
            authority: kept,
            ca: root,
            server: written,
        } && kept == authority && root@ == ca@ && written == server && replaces(
            res,
            File::ServerKey,
            server.key@,
        )),
        made matches Err(error) ==> ends_with(res, error),
{
}

/// Each stage waits for its own answer: whether a file is there, what it holds, that it was
/// written, or whether the system trusts the certificate. All but the search for a file may fail.
pub proof fn stages_wait_for_their_answer(setup: Setup, event: Event, res: bool)
    requires
        call_ensures(Setup::expects, (&setup, &event), res),
    ensures
        setup.stage is Finished ==> !res,
        setup.stage is FindingAuthority || setup.stage is FindingAuthorityKey ==> res
            == event is Found,
        setup.stage is ReadingAuthority || setup.stage is ReadingAuthorityKey
            || setup.stage is ReadingServerKey ==> res == (event is Text || event is Failed),
        setup.stage is ReadingServer ==> res == (event is Bytes || event is Failed),
        setup.stage is CheckingTrust ==> res == (event is Trusted || event is Failed),
        setup.stage is CreatingDirectory || setup.stage is WritingAuthorityKey
            || setup.stage is WritingAuthority || setup.stage is WritingServerKey
            || setup.stage is WritingServer || setup.stage is RequestingTrust ==> res == (
        event is Done || event is Failed),
{
}

} // verus!
