//! How the local HTTPS service gets a certificate that the system trusts.
//!
//! The files and the system's trust are left to the caller: it does what it is told, one action at
//! a time, and hands over what came of it.
use vstd::prelude::*;
use vstd::utf8::encode_utf8;

use crate::certificates::{
    authority_checks, authority_der, authority_reads, bytes_or_text, can_be_issuer, can_issue_at,
    can_look_ahead, check_authority, create_ca, create_server, is_new_authority, is_new_server,
    key_reads, leaf_is_valid, leaf_passes, makes, pem_certificate, public_key, public_key_of,
    read_authority, valid_leaf, CertificateFacts, KeyedCertificate, RENEW_BEFORE,
};
use crate::error::SetupError;

verus! {

/// The files of the local HTTPS service, by their names in the certificate directory.
pub struct Certificates {
    /// The certificate of the local authority.
    pub ca: String,
    /// The server certificate.
    pub cert: String,
    /// The private key of the server certificate.
    pub key: String,
}

/// A file in the certificate directory.
pub enum File {
    /// The certificate of the local authority.
    Authority,
    /// The private key of the local authority.
    AuthorityKey,
    /// The server certificate.
    Server,
    /// The private key of the server certificate.
    ServerKey,
}

impl File {
    /// The name of the file.
    pub open spec fn named(self) -> Seq<char> {
        match self {
            File::Authority => "ca.pem"@,
            File::AuthorityKey => "ca-key.pem"@,
            File::Server => "localhost.pem"@,
            File::ServerKey => "localhost-key.pem"@,
        }
    }

    /// The name of the file.
    pub fn name(&self) -> (res: String)
        ensures
            res@ == self.named(),
    {
        match self {
            File::Authority => "ca.pem".to_owned(),
            File::AuthorityKey => "ca-key.pem".to_owned(),
            File::Server => "localhost.pem".to_owned(),
            File::ServerKey => "localhost-key.pem".to_owned(),
        }
    }
}

/// What is to be done next.
pub enum Action {
    /// Create the certificate directory unless it is there, for this user only.
    CreateDirectory,
    /// Look whether a file is there.
    FindFile(File),
    /// Read a file that holds text.
    ReadText(File),
    /// Read a file as it is.
    ReadBytes(File),
    /// Replace a file, for this user only.
    WriteFile { file: File, text: String },
    /// Ask the system whether it trusts the server certificate.
    CheckTrust,
    /// Ask the user to let the system trust the local authority.
    RequestTrust,
    /// The certificates are ready, or they cannot be had.
    Finish(Result<Certificates, SetupError>),
}

/// What came of an action.
pub enum Event {
    Done,
    Found(bool),
    Text(String),
    Bytes(Vec<u8>),
    Trusted(bool),
    /// The action failed, for this reason.
    Failed(String),
}

/// How far the setup has come.
pub enum Stage {
    CreatingDirectory,
    FindingAuthority,
    FindingAuthorityKey { authority_found: bool },
    ReadingAuthority,
    ReadingAuthorityKey { cert: String, facts: CertificateFacts },
    WritingAuthorityKey { authority: KeyedCertificate },
    WritingAuthority { authority: KeyedCertificate },
    /// `renewed` says that the server certificate must be valid by now.
    ReadingServer { authority: KeyedCertificate, ca: Vec<u8>, renewed: bool },
    ReadingServerKey { authority: KeyedCertificate, ca: Vec<u8>, renewed: bool, leaf: Vec<u8> },
    WritingServerKey { authority: KeyedCertificate, ca: Vec<u8>, server: KeyedCertificate },
    WritingServer { authority: KeyedCertificate, ca: Vec<u8>, server: KeyedCertificate },
    /// `requested` says that the user was asked before.
    CheckingTrust { requested: bool },
    RequestingTrust,
    Finished,
}

/// The setup of the certificates.
pub struct Setup {
    /// The certificate directory, as it is shown to the user.
    pub directory: String,
    /// When the setup started, in seconds since 1970.
    pub started: i64,
    pub stage: Stage,
}

/// Whether an event can be what came of the last action.
pub open spec fn is_answer(stage: Stage, event: Event) -> bool {
    match stage {
        Stage::CreatingDirectory | Stage::WritingAuthorityKey { .. } | Stage::WritingAuthority {
            ..
        } | Stage::WritingServerKey { .. } | Stage::WritingServer { .. }
        | Stage::RequestingTrust => event is Done || event is Failed,
        Stage::FindingAuthority | Stage::FindingAuthorityKey { .. } => event is Found,
        Stage::ReadingAuthority | Stage::ReadingAuthorityKey { .. } | Stage::ReadingServerKey {
            ..
        } => event is Text || event is Failed,
        Stage::ReadingServer { .. } => event is Bytes || event is Failed,
        Stage::CheckingTrust { .. } => event is Trusted || event is Failed,
        Stage::Finished => false,
    }
}

impl Setup {
    /// What holds of every setup: its clock can be used for certificates.
    pub open spec fn wf(self) -> bool {
        can_issue_at(self.started)
    }

    /// Whether an event can be what came of the last action.
    pub fn expects(&self, event: &Event) -> (res: bool)
        ensures
            res == is_answer(self.stage, *event),
    {
        match &self.stage {
            Stage::CreatingDirectory | Stage::WritingAuthorityKey { .. } | Stage::WritingAuthority {
                ..
            } | Stage::WritingServerKey { .. } | Stage::WritingServer { .. }
            | Stage::RequestingTrust => matches!(event, Event::Done | Event::Failed(_)),
            Stage::FindingAuthority | Stage::FindingAuthorityKey { .. } => matches!(
                event,
                Event::Found(_)
            ),
            Stage::ReadingAuthority | Stage::ReadingAuthorityKey { .. }
            | Stage::ReadingServerKey { .. } => matches!(event, Event::Text(_) | Event::Failed(_)),
            Stage::ReadingServer { .. } => matches!(event, Event::Bytes(_) | Event::Failed(_)),
            Stage::CheckingTrust { .. } => matches!(event, Event::Trusted(_) | Event::Failed(_)),
            Stage::Finished => false,
        }
    }
}

/// A step of the setup: how far it has come, and what is to be done next.
pub struct Step {
    pub setup: Setup,
    pub action: Action,
}

/// Whether the setup stops with this error.
pub open spec fn fails_with(step: Step, error: SetupError) -> bool {
    step.setup.stage is Finished && step.action == Action::Finish(Err(error))
}

/// Whether the certificates are ready.
pub open spec fn succeeds(step: Step) -> bool {
    &&& step.setup.stage is Finished
    &&& step.action matches Action::Finish(Ok(certificates))
    &&& certificates.ca@ == File::Authority.named()
    &&& certificates.cert@ == File::Server.named()
    &&& certificates.key@ == File::ServerKey.named()
}

/// Whether an authority that was to be made is written down, its key first; or why it could not be
/// made.
pub open spec fn writes_authority(step: Step, made: Result<KeyedCertificate, SetupError>) -> bool {
    match made {
        Ok(authority) => {
            &&& step.setup.stage == (Stage::WritingAuthorityKey { authority })
            &&& step.action matches Action::WriteFile { file: File::AuthorityKey, text }
            &&& text@ == authority.key@
        },
        Err(error) => fails_with(step, error),
    }
}

/// Whether a new authority is made and written down.
pub open spec fn makes_authority(step: Step, now: i64) -> bool {
    exists|made: Result<KeyedCertificate, SetupError>| #[trigger]
        writes_authority(step, made) && match made {
            Ok(authority) => is_new_authority(authority, now),
            Err(error) => error is Failed,
        }
}

/// Whether a server certificate that was to be made is written down, its key first; or why it could
/// not be made.
pub open spec fn writes_server(
    step: Step,
    authority: KeyedCertificate,
    ca: Seq<u8>,
    made: Result<KeyedCertificate, SetupError>,
) -> bool {
    match made {
        Ok(server) => {
            &&& step.setup.stage matches Stage::WritingServerKey {
                authority: kept,
                ca: root,
                server: written,
            }
            &&& kept == authority
            &&& root@ == ca
            &&& written == server
            &&& step.action matches Action::WriteFile { file: File::ServerKey, text }
            &&& text@ == server.key@
        },
        Err(error) => fails_with(step, error),
    }
}

/// Whether a new server certificate is made and written down.
pub open spec fn makes_server(
    step: Step,
    authority: KeyedCertificate,
    ca: Seq<u8>,
    now: i64,
) -> bool {
    exists|made: Result<KeyedCertificate, SetupError>| #[trigger]
        writes_server(step, authority, ca, made) && makes(made, authority, now)
}

/// Whether the server certificate is read next.
pub open spec fn reads_server(
    step: Step,
    authority: KeyedCertificate,
    ca: Seq<u8>,
    renewed: bool,
) -> bool {
    &&& step.setup.stage matches Stage::ReadingServer { authority: kept, ca: root, renewed: flag }
    &&& kept == authority
    &&& root@ == ca
    &&& flag == renewed
    &&& step.action == Action::ReadBytes(File::Server)
}

/// Whether the setup goes on with this authority.
pub open spec fn settles(step: Step, authority: KeyedCertificate) -> bool {
    match pem_certificate(encode_utf8(authority.cert@)) {
        Err(text) => {
            &&& step.setup.stage is Finished
            &&& step.action matches Action::Finish(Err(SetupError::Failed(reason)))
            &&& reason@ == text
        },
        Ok(ca) => reads_server(step, authority, ca, false),
    }
}

/// Whether the setup goes on as the server certificate asks for: one that is valid is looked at
/// once more before the system's trust is checked, one that is not is replaced, but only once.
pub open spec fn judges(
    step: Step,
    authority: KeyedCertificate,
    ca: Seq<u8>,
    renewed: bool,
    valid: bool,
    now: i64,
) -> bool {
    if valid && renewed {
        &&& step.setup.stage == (Stage::CheckingTrust { requested: false })
        &&& step.action == Action::CheckTrust
    } else if valid {
        reads_server(step, authority, ca, true)
    } else if renewed {
        fails_with(step, SetupError::InvalidServerCertificate)
    } else {
        makes_server(step, authority, ca, now)
    }
}

/// Whether the setup goes on with the two files of the authority.
pub open spec fn finds_authority(
    step: Step,
    directory: Seq<char>,
    authority_found: bool,
    key_found: bool,
    now: i64,
) -> bool {
    if authority_found && key_found {
        step.setup.stage is ReadingAuthority && step.action == Action::ReadText(File::Authority)
    } else if authority_found || key_found {
        &&& step.setup.stage is Finished
        &&& step.action matches Action::Finish(Err(SetupError::IncompleteAuthority(shown)))
        &&& shown@ == directory
    } else {
        makes_authority(step, now)
    }
}

/// Whether the setup goes on with the authority whose certificate was read.
pub open spec fn reads_authority(step: Step, cert: String) -> bool {
    exists|read: Result<CertificateFacts, SetupError>| #[trigger]
        authority_reads(cert@, read) && match read {
            Err(error) => fails_with(step, error),
            Ok(facts) => {
                &&& step.setup.stage == (Stage::ReadingAuthorityKey { cert, facts })
                &&& step.action == Action::ReadText(File::AuthorityKey)
            },
        }
}

/// Whether the setup goes on with the authority whose key was read, as `read` says.
pub open spec fn checks_authority(
    step: Step,
    cert: String,
    facts: CertificateFacts,
    key: String,
    read: Result<Seq<u8>, Seq<char>>,
    now: i64,
) -> bool {
    exists|kept: Result<bool, SetupError>| #[trigger]
        authority_checks(facts@, read, now, kept) && match kept {
            Err(error) => fails_with(step, error),
            Ok(true) => settles(step, KeyedCertificate { cert, key }),
            Ok(false) => makes_authority(step, now),
        }
}

/// Whether the setup goes on with the system's answer.
pub open spec fn checks_trust(step: Step, requested: bool, trusted: bool) -> bool {
    if trusted {
        succeeds(step)
    } else if requested {
        fails_with(step, SetupError::NotTrusted)
    } else {
        step.setup.stage is RequestingTrust && step.action == Action::RequestTrust
    }
}

/// Whether an event brings a private key whose public key is asked for.
pub open spec fn brings_key(stage: Stage, event: Event) -> bool {
    (stage is ReadingAuthorityKey || stage is ReadingServerKey) && event is Text
}

/// The view of what came of reading a key, if there was one to read.
pub open spec fn reading_view(read: Option<Result<Vec<u8>, String>>) -> Option<
    Result<Seq<u8>, Seq<char>>,
> {
    match read {
        Some(read) => Some(bytes_or_text(read)),
        None => None,
    }
}

/// Whether `read` can come of reading the key that an event brings.
pub open spec fn can_be_read(
    stage: Stage,
    event: Event,
    read: Option<Result<Seq<u8>, Seq<char>>>,
) -> bool {
    if brings_key(stage, event) {
        read matches Some(outcome) && key_reads(event->Text_0@, outcome)
    } else {
        read is None
    }
}

/// Whether `step` is what follows on an event at the instant `now`.
pub open spec fn follows(before: Setup, event: Event, now: i64, step: Step) -> bool {
    exists|read: Option<Result<Seq<u8>, Seq<char>>>|
        can_be_read(before.stage, event, read) && #[trigger] follows_reading(
            before,
            event,
            read,
            now,
            step,
        )
}

/// Whether `step` is what follows on an event at the instant `now`, where the key that the event
/// brings was read as `read` says.
pub open spec fn follows_reading(
    before: Setup,
    event: Event,
    read: Option<Result<Seq<u8>, Seq<char>>>,
    now: i64,
    step: Step,
) -> bool {
    &&& step.setup.directory == before.directory
    &&& step.setup.started == before.started
    &&& match (before.stage, event) {
        (Stage::ReadingServer { authority, ca, renewed }, Event::Failed(_)) => judges(
            step,
            authority,
            ca@,
            renewed,
            false,
            before.started,
        ),
        (
            Stage::ReadingServerKey { authority, ca, renewed, leaf },
            Event::Failed(_),
        ) => judges(step, authority, ca@, renewed, false, before.started),
        (_, Event::Failed(reason)) => fails_with(step, SetupError::Failed(reason)),
        (Stage::CreatingDirectory, _) => {
            &&& step.setup.stage is FindingAuthority
            &&& step.action == Action::FindFile(File::Authority)
        },
        (Stage::FindingAuthority, Event::Found(found)) => {
            &&& step.setup.stage == (Stage::FindingAuthorityKey { authority_found: found })
            &&& step.action == Action::FindFile(File::AuthorityKey)
        },
        (Stage::FindingAuthorityKey { authority_found }, Event::Found(found)) => finds_authority(
            step,
            before.directory@,
            authority_found,
            found,
            before.started,
        ),
        (Stage::ReadingAuthority, Event::Text(cert)) => reads_authority(step, cert),
        (Stage::ReadingAuthorityKey { cert, facts }, Event::Text(key)) => checks_authority(
            step,
            cert,
            facts,
            key,
            read->0,
            before.started,
        ),
        (Stage::WritingAuthorityKey { authority }, _) => {
            &&& step.setup.stage == (Stage::WritingAuthority { authority })
            &&& step.action matches Action::WriteFile { file: File::Authority, text }
            &&& text@ == authority.cert@
        },
        (Stage::WritingAuthority { authority }, _) => settles(step, authority),
        (Stage::ReadingServer { authority, ca, renewed }, Event::Bytes(leaf)) => {
            &&& step.setup.stage == (Stage::ReadingServerKey { authority, ca, renewed, leaf })
            &&& step.action == Action::ReadText(File::ServerKey)
        },
        (Stage::ReadingServerKey { authority, ca, renewed, leaf }, Event::Text(key)) => judges(
            step,
            authority,
            ca@,
            renewed,
            leaf_passes(leaf@, read->0, ca@, now),
            before.started,
        ),
        (Stage::WritingServerKey { authority, ca, server }, _) => {
            &&& step.setup.stage == (Stage::WritingServer { authority, ca, server })
            &&& step.action matches Action::WriteFile { file: File::Server, text }
            &&& text@ == server.cert@
        },
        (Stage::WritingServer { authority, ca, server }, _) => reads_server(
            step,
            authority,
            ca@,
            true,
        ),
        (Stage::CheckingTrust { requested }, Event::Trusted(trusted)) => checks_trust(
            step,
            requested,
            trusted,
        ),
        (Stage::RequestingTrust, _) => {
            &&& step.setup.stage == (Stage::CheckingTrust { requested: true })
            &&& step.action == Action::CheckTrust
        },
        _ => false,
    }
}

fn step(directory: String, started: i64, stage: Stage, action: Action) -> (res: Step)
    ensures
        res == (Step { setup: (Setup { directory, started, stage }), action }),
{
    Step { setup: Setup { directory, started, stage }, action }
}

fn fail(directory: String, started: i64, error: SetupError) -> (res: Step)
    ensures
        res.setup.directory == directory,
        res.setup.started == started,
        fails_with(res, error),
{
    step(directory, started, Stage::Finished, Action::Finish(Err(error)))
}

/// Goes on with an authority that was to be made.
pub fn with_new_authority(
    directory: String,
    started: i64,
    made: Result<KeyedCertificate, SetupError>,
) -> (res: Step)
    ensures
        res.setup.directory == directory,
        res.setup.started == started,
        writes_authority(res, made),
{
    match made {
        Ok(authority) => {
            let text = authority.key.clone();
            step(
                directory,
                started,
                Stage::WritingAuthorityKey { authority },
                Action::WriteFile { file: File::AuthorityKey, text },
            )
        },
        Err(error) => fail(directory, started, error),
    }
}

/// Goes on with a server certificate that was to be made.
pub fn with_new_server(
    directory: String,
    started: i64,
    authority: KeyedCertificate,
    ca: Vec<u8>,
    made: Result<KeyedCertificate, SetupError>,
) -> (res: Step)
    ensures
        res.setup.directory == directory,
        res.setup.started == started,
        writes_server(res, authority, ca@, made),
{
    match made {
        Ok(server) => {
            let text = server.key.clone();
            step(
                directory,
                started,
                Stage::WritingServerKey { authority, ca, server },
                Action::WriteFile { file: File::ServerKey, text },
            )
        },
        Err(error) => fail(directory, started, error),
    }
}

fn make_authority(directory: String, started: i64) -> (res: Step)
    requires
        can_issue_at(started),
    ensures
        res.setup.directory == directory,
        res.setup.started == started,
        makes_authority(res, started),
{
    let made = create_ca(started);
    let ghost outcome = made;
    let res = with_new_authority(directory, started, made);
    assert(writes_authority(res, outcome));
    res
}

fn settle(directory: String, started: i64, authority: KeyedCertificate) -> (res: Step)
    ensures
        res.setup.directory == directory,
        res.setup.started == started,
        settles(res, authority),
{
    match authority_der(authority.cert.as_str()) {
        Ok(ca) => step(
            directory,
            started,
            Stage::ReadingServer { authority, ca, renewed: false },
            Action::ReadBytes(File::Server),
        ),
        Err(error) => fail(directory, started, error),
    }
}

fn judge(
    directory: String,
    started: i64,
    authority: KeyedCertificate,
    ca: Vec<u8>,
    renewed: bool,
    valid: bool,
) -> (res: Step)
    requires
        can_issue_at(started),
    ensures
        res.setup.directory == directory,
        res.setup.started == started,
        judges(res, authority, ca@, renewed, valid, started),
{
    if valid && renewed {
        return step(
            directory,
            started,
            Stage::CheckingTrust { requested: false },
            Action::CheckTrust,
        );
    }
    if valid {
        return step(
            directory,
            started,
            Stage::ReadingServer { authority, ca, renewed: true },
            Action::ReadBytes(File::Server),
        );
    }
    if renewed {
        return fail(directory, started, SetupError::InvalidServerCertificate);
    }
    let made = create_server(&authority, started);
    let ghost outcome = made;
    let res = with_new_server(directory, started, authority, ca, made);
    assert(writes_server(res, authority, ca@, outcome));
    res
}

fn find_authority(
    directory: String,
    started: i64,
    authority_found: bool,
    key_found: bool,
) -> (res: Step)
    requires
        can_issue_at(started),
    ensures
        res.setup.directory == directory,
        res.setup.started == started,
        finds_authority(res, directory@, authority_found, key_found, started),
{
    if authority_found && key_found {
        return step(
            directory,
            started,
            Stage::ReadingAuthority,
            Action::ReadText(File::Authority),
        );
    }
    if authority_found || key_found {
        let shown = directory.clone();
        return fail(directory, started, SetupError::IncompleteAuthority(shown));
    }
    make_authority(directory, started)
}

/// Reads the key that an event brings, if it brings one.
fn read_key(stage: &Stage, event: &Event) -> (res: Option<Result<Vec<u8>, String>>)
    ensures
        can_be_read(*stage, *event, reading_view(res)),
{
    match (stage, event) {
        (Stage::ReadingAuthorityKey { .. }, Event::Text(key)) => Some(public_key_of(key.as_str())),
        (Stage::ReadingServerKey { .. }, Event::Text(key)) => Some(public_key_of(key.as_str())),
        (_, _) => None,
    }
}

/// Takes the steps that lead to a server certificate that is valid under the local authority.
pub fn ensure_certificates(setup: Setup, event: Event, now: i64) -> (res: Step)
    requires
        setup.wf(),
        is_answer(setup.stage, event),
        !(setup.stage is CheckingTrust || setup.stage is RequestingTrust),
        can_look_ahead(now),
    ensures
        follows(setup, event, now, res),
{
    let ghost before = setup;
    let ghost answer = event;
    let read = read_key(&setup.stage, &event);
    let ghost reading = reading_view(read);
    let res = ensure_certificates_reading(setup, event, read, now);
    assert(follows_reading(before, answer, reading, now, res));
    res
}

/// Takes the steps that lead to a server certificate that is valid under the local authority, where
/// the key that the event brings was read as `read` says.
pub fn ensure_certificates_reading(
    setup: Setup,
    event: Event,
    read: Option<Result<Vec<u8>, String>>,
    now: i64,
) -> (res: Step)
    requires
        setup.wf(),
        is_answer(setup.stage, event),
        !(setup.stage is CheckingTrust || setup.stage is RequestingTrust),
        read is Some == brings_key(setup.stage, event),
        can_look_ahead(now),
    ensures
        follows_reading(setup, event, reading_view(read), now, res),
{
    let Setup { directory, started, stage } = setup;
    match (stage, event, read) {
        (Stage::ReadingServer { authority, ca, renewed }, Event::Failed(_), _) => judge(
            directory,
            started,
            authority,
            ca,
            renewed,
            false,
        ),
        (Stage::ReadingServerKey { authority, ca, renewed, leaf: _ }, Event::Failed(_), _) => judge(
            directory,
            started,
            authority,
            ca,
            renewed,
            false,
        ),
        (_, Event::Failed(reason), _) => fail(directory, started, SetupError::Failed(reason)),
        (Stage::CreatingDirectory, _, _) => step(
            directory,
            started,
            Stage::FindingAuthority,
            Action::FindFile(File::Authority),
        ),
        (Stage::FindingAuthority, Event::Found(found), _) => step(
            directory,
            started,
            Stage::FindingAuthorityKey { authority_found: found },
            Action::FindFile(File::AuthorityKey),
        ),
        (Stage::FindingAuthorityKey { authority_found }, Event::Found(found), _) => find_authority(
            directory,
            started,
            authority_found,
            found,
        ),
        (Stage::ReadingAuthority, Event::Text(cert), _) => {
            let read = read_authority(cert.as_str());
            assert(authority_reads(cert@, read));
            match read {
                Ok(facts) => step(
                    directory,
                    started,
                    Stage::ReadingAuthorityKey { cert, facts },
                    Action::ReadText(File::AuthorityKey),
                ),
                Err(error) => fail(directory, started, error),
            }
        },
        (Stage::ReadingAuthorityKey { cert, facts }, Event::Text(key), Some(read)) => {
            let ghost outcome = bytes_or_text(read);
            let kept = check_authority(&facts, read, started);
            assert(authority_checks(facts@, outcome, started, kept));
            match kept {
                Ok(true) => settle(directory, started, KeyedCertificate { cert, key }),
                Ok(false) => make_authority(directory, started),
                Err(error) => fail(directory, started, error),
            }
        },
        (Stage::WritingAuthorityKey { authority }, _, _) => {
            let text = authority.cert.clone();
            step(
                directory,
                started,
                Stage::WritingAuthority { authority },
                Action::WriteFile { file: File::Authority, text },
            )
        },
        (Stage::WritingAuthority { authority }, _, _) => settle(directory, started, authority),
        (Stage::ReadingServer { authority, ca, renewed }, Event::Bytes(leaf), _) => step(
            directory,
            started,
            Stage::ReadingServerKey { authority, ca, renewed, leaf },
            Action::ReadText(File::ServerKey),
        ),
        (Stage::ReadingServerKey { authority, ca, renewed, leaf }, Event::Text(_), Some(read)) => {
            let valid = valid_leaf(leaf.as_slice(), &read, ca.as_slice(), now);
            judge(directory, started, authority, ca, renewed, valid)
        },
        (Stage::WritingServerKey { authority, ca, server }, _, _) => {
            let text = server.cert.clone();
            step(
                directory,
                started,
                Stage::WritingServer { authority, ca, server },
                Action::WriteFile { file: File::Server, text },
            )
        },
        (Stage::WritingServer { authority, ca, server: _ }, _, _) => step(
            directory,
            started,
            Stage::ReadingServer { authority, ca, renewed: true },
            Action::ReadBytes(File::Server),
        ),
        // No other event is an answer.
        (_, _, _) => fail(directory, started, SetupError::NotTrusted),
    }
}

/// Takes the steps that lead to the system's trust.
pub fn prepare_with_store(setup: Setup, event: Event) -> (res: Step)
    requires
        is_answer(setup.stage, event),
        setup.stage is CheckingTrust || setup.stage is RequestingTrust,
    ensures
        forall|now: i64| #[trigger] follows(setup, event, now, res),
{
    let ghost before = setup;
    let ghost answer = event;
    let res = prepare_step(setup, event);
    assert forall|now: i64| #[trigger] follows(before, answer, now, res) by {
        assert(follows_reading(before, answer, None, now, res));
    }
    res
}

/// The step that leads on to the system's trust.
fn prepare_step(setup: Setup, event: Event) -> (res: Step)
    requires
        is_answer(setup.stage, event),
        setup.stage is CheckingTrust || setup.stage is RequestingTrust,
    ensures
        forall|now: i64| #[trigger] follows_reading(setup, event, None, now, res),
{
    let Setup { directory, started, stage } = setup;
    match (stage, event) {
        (_, Event::Failed(reason)) => fail(directory, started, SetupError::Failed(reason)),
        (Stage::CheckingTrust { requested: _ }, Event::Trusted(true)) => {
            let certificates = Certificates {
                ca: File::Authority.name(),
                cert: File::Server.name(),
                key: File::ServerKey.name(),
            };
            step(directory, started, Stage::Finished, Action::Finish(Ok(certificates)))
        },
        (Stage::CheckingTrust { requested: true }, _) => fail(
            directory,
            started,
            SetupError::NotTrusted,
        ),
        (Stage::CheckingTrust { requested: false }, _) => step(
            directory,
            started,
            Stage::RequestingTrust,
            Action::RequestTrust,
        ),
        (_, _) => step(
            directory,
            started,
            Stage::CheckingTrust { requested: true },
            Action::CheckTrust,
        ),
    }
}

/// Whether `step` is the first one.
pub open spec fn starts(step: Step) -> bool {
    step.setup.stage is CreatingDirectory && step.action is CreateDirectory
}

/// Starts the setup in a directory at the instant `started`.
pub fn prepare(directory: &str, started: i64) -> (res: Step)
    requires
        can_issue_at(started),
    ensures
        res.setup.wf(),
        res.setup.directory@ == directory@,
        res.setup.started == started,
        starts(res),
{
    step(directory.to_owned(), started, Stage::CreatingDirectory, Action::CreateDirectory)
}

/// Goes on with the setup after an event at the instant `now`.
pub fn proceed(setup: Setup, event: Event, now: i64) -> (res: Step)
    requires
        setup.wf(),
        is_answer(setup.stage, event),
        can_look_ahead(now),
    ensures
        res.setup.wf(),
        follows(setup, event, now, res),
{
    let ghost before = setup;
    let trusting = matches!(
        &setup.stage,
        Stage::CheckingTrust { .. } | Stage::RequestingTrust
    );
    if trusting {
        let res = prepare_with_store(setup, event);
        assert(follows(before, event, now, res));
        res
    } else {
        ensure_certificates(setup, event, now)
    }
}

/// A run of the setup: steps and the events between them, each at its instant.
pub open spec fn is_run(steps: Seq<Step>, events: Seq<(Event, i64)>) -> bool {
    &&& steps.len() == events.len() + 1
    &&& starts(steps[0])
    &&& forall|i: int| 0 <= i < events.len() ==> #[trigger] follows_at(steps, events, i)
}

/// Whether the step behind event `i` follows on it.
pub open spec fn follows_at(steps: Seq<Step>, events: Seq<(Event, i64)>, i: int) -> bool {
    &&& is_answer(steps[i].setup.stage, events[i].0)
    &&& follows(steps[i].setup, events[i].0, events[i].1, steps[i + 1])
}

/// How far a stage is along the way.
pub open spec fn rank(stage: Stage) -> int {
    match stage {
        Stage::CreatingDirectory => 0,
        Stage::FindingAuthority => 1,
        Stage::FindingAuthorityKey { .. } => 2,
        Stage::ReadingAuthority => 3,
        Stage::ReadingAuthorityKey { .. } => 4,
        Stage::WritingAuthorityKey { .. } => 5,
        Stage::WritingAuthority { .. } => 6,
        Stage::ReadingServer { renewed, .. } => if renewed { 11 } else { 7 },
        Stage::ReadingServerKey { renewed, .. } => if renewed { 12 } else { 8 },
        Stage::WritingServerKey { .. } => 9,
        Stage::WritingServer { .. } => 10,
        Stage::CheckingTrust { requested } => if requested { 15 } else { 13 },
        Stage::RequestingTrust => 14,
        Stage::Finished => 16,
    }
}

/// Whether an action belongs to a stage.
pub open spec fn belongs(action: Action, stage: Stage) -> bool {
    match action {
        Action::CreateDirectory => stage is CreatingDirectory,
        Action::FindFile(file) => match file {
            File::Authority => stage is FindingAuthority,
            File::AuthorityKey => stage is FindingAuthorityKey,
            _ => false,
        },
        Action::ReadText(file) => match file {
            File::Authority => stage is ReadingAuthority,
            File::AuthorityKey => stage is ReadingAuthorityKey,
            File::ServerKey => stage is ReadingServerKey,
            File::Server => false,
        },
        Action::ReadBytes(file) => file is Server && stage is ReadingServer,
        Action::WriteFile { file, .. } => match file {
            File::AuthorityKey => stage is WritingAuthorityKey,
            File::Authority => stage is WritingAuthority,
            File::ServerKey => stage is WritingServerKey,
            File::Server => stage is WritingServer,
        },
        Action::CheckTrust => stage is CheckingTrust,
        Action::RequestTrust => stage is RequestingTrust,
        Action::Finish(_) => stage is Finished,
    }
}

/// Every step leads further along the way, and tells what its stage is about.
pub proof fn steps_lead_on(before: Setup, event: Event, now: i64, step: Step)
    requires
        is_answer(before.stage, event),
        follows(before, event, now, step),
    ensures
        rank(step.setup.stage) > rank(before.stage),
        belongs(step.action, step.setup.stage),
{
}

pub(crate) proof fn lemma_run_leads_on(steps: Seq<Step>, events: Seq<(Event, i64)>, i: int, j: int)
    requires
        is_run(steps, events),
        0 <= i <= j < steps.len(),
    ensures
        rank(steps[j].setup.stage) >= rank(steps[i].setup.stage) + (j - i),
        belongs(steps[j].action, steps[j].setup.stage),
    decreases j - i,
{
    if j > 0 {
        assert(follows_at(steps, events, j - 1));
        steps_lead_on(steps[j - 1].setup, events[j - 1].0, events[j - 1].1, steps[j]);
    }
    if i < j {
        lemma_run_leads_on(steps, events, i, j - 1);
    }
}

/// The setup ends: no run has more than 17 steps.
pub proof fn setup_ends(steps: Seq<Step>, events: Seq<(Event, i64)>)
    requires
        is_run(steps, events),
    ensures
        steps.len() <= 17,
{
    lemma_run_leads_on(steps, events, 0, steps.len() - 1);
}

/// The user is asked at most once.
pub proof fn trust_is_requested_once(
    steps: Seq<Step>,
    events: Seq<(Event, i64)>,
    i: int,
    j: int,
)
    requires
        is_run(steps, events),
        0 <= i < steps.len(),
        0 <= j < steps.len(),
        steps[i].action is RequestTrust,
        steps[j].action is RequestTrust,
    ensures
        i == j,
{
    lemma_run_leads_on(steps, events, i, i);
    lemma_run_leads_on(steps, events, j, j);
    if i < j {
        lemma_run_leads_on(steps, events, i, j);
    } else if j < i {
        lemma_run_leads_on(steps, events, j, i);
    }
}

/// The certificates are handed out only when the system has said that it trusts them: the service
/// is never started without.
pub proof fn ready_only_when_trusted(steps: Seq<Step>, events: Seq<(Event, i64)>, i: int)
    requires
        is_run(steps, events),
        0 <= i < steps.len(),
        steps[i].action matches Action::Finish(Ok(_)),
    ensures
        i > 0,
        events[i - 1].0 == Event::Trusted(true),
        succeeds(steps[i]),
{
    assert(i > 0);
    assert(follows_at(steps, events, i - 1));
}

/// A refusal ends the setup: if the user does not agree, or the system still does not trust the
/// certificate once the user was asked, nothing is handed out.
pub proof fn refusal_ends_the_setup(before: Setup, event: Event, now: i64, step: Step)
    requires
        is_answer(before.stage, event),
        follows(before, event, now, step),
        before.stage is RequestingTrust && event is Failed || before.stage == (
        Stage::CheckingTrust { requested: true }) && event != Event::Trusted(true),
    ensures
        step.action matches Action::Finish(Err(_)),
{
}

/// An authority is replaced only if there is none, or if the one there is sound but ends within
/// the next 30 days. One with a missing file, a foreign key or a certificate that is not one of an
/// authority is never overwritten.
pub proof fn authority_is_not_overwritten(before: Setup, event: Event, now: i64, step: Step)
    requires
        is_answer(before.stage, event),
        follows(before, event, now, step),
        step.action matches Action::WriteFile { file, .. } && (file is Authority
            || file is AuthorityKey),
    ensures
        match before.stage {
            Stage::FindingAuthorityKey { authority_found } => !authority_found && event
                == Event::Found(false),
            Stage::ReadingAuthorityKey { facts, .. } => {
                &&& event matches Event::Text(key)
                &&& public_key(key@) == Some(facts.public_key@)
                &&& facts.is_ca
                &&& facts.not_after <= before.started + RENEW_BEFORE
            },
            Stage::WritingAuthorityKey { .. } => true,
            _ => false,
        },
{
}

/// An incomplete authority is an error, and nothing is written.
pub proof fn incomplete_authority_is_an_error(
    before: Setup,
    authority_found: bool,
    key_found: bool,
    now: i64,
    step: Step,
)
    requires
        before.stage == (Stage::FindingAuthorityKey { authority_found }),
        authority_found != key_found,
        follows(before, Event::Found(key_found), now, step),
    ensures
        step.action matches Action::Finish(Err(error)) && error is IncompleteAuthority,
{
}

/// A server certificate is renewed under the same authority: once the server certificate is looked
/// at, the files of the authority are left alone.
pub proof fn renewal_leaves_the_authority_alone(
    steps: Seq<Step>,
    events: Seq<(Event, i64)>,
    i: int,
    j: int,
)
    requires
        is_run(steps, events),
        0 <= i <= j < steps.len(),
        steps[i].action == Action::ReadBytes(File::Server),
    ensures
        !(steps[j].action matches Action::WriteFile { file, .. } && (file is Authority
            || file is AuthorityKey)),
{
    lemma_run_leads_on(steps, events, i, i);
    lemma_run_leads_on(steps, events, i, j);
}

/// A server certificate that is missing or not valid is replaced by a new one under the same
/// authority, unless the new one cannot be made.
pub proof fn invalid_server_certificate_is_replaced(
    before: Setup,
    event: Event,
    now: i64,
    step: Step,
    authority: KeyedCertificate,
)
    requires
        is_answer(before.stage, event),
        follows(before, event, now, step),
        match before.stage {
            Stage::ReadingServer { authority: kept, renewed, .. } => kept == authority && !renewed
                && event is Failed,
            Stage::ReadingServerKey { authority: kept, ca, renewed, leaf } => {
                &&& kept == authority
                &&& !renewed
                &&& event matches Event::Text(key) ==> !leaf_is_valid(leaf@, key@, ca@, now)
            },
            _ => false,
        },
    ensures
        match step.action {
            Action::WriteFile { file, text } => {
                &&& file is ServerKey
                &&& step.setup.stage matches Stage::WritingServerKey {
                    authority: kept,
                    server,
                    ..
                }
                &&& kept == authority
                &&& text@ == server.key@
                &&& is_new_server(server, authority, before.started)
            },
            Action::Finish(Err(error)) => error is Failed || error is InvalidAuthority
                && !can_be_issuer(authority.cert@),
            _ => false,
        },
{
}

/// A sound authority that ends within 30 days is replaced by a new one, unless its key cannot be
/// read or the new one cannot be made.
pub proof fn ending_authority_is_replaced(
    before: Setup,
    cert: String,
    facts: CertificateFacts,
    key: String,
    now: i64,
    step: Step,
)
    requires
        before.stage == (Stage::ReadingAuthorityKey { cert, facts }),
        facts.is_ca,
        public_key(key@) == Some(facts.public_key@),
        facts.not_after <= before.started + RENEW_BEFORE,
        follows(before, Event::Text(key), now, step),
    ensures
        match step.action {
            Action::WriteFile { file, text } => {
                &&& file is AuthorityKey
                &&& step.setup.stage matches Stage::WritingAuthorityKey { authority }
                &&& text@ == authority.key@
                &&& is_new_authority(authority, before.started)
            },
            Action::Finish(Err(error)) => error is Failed,
            _ => false,
        },
{
}

} // verus!
