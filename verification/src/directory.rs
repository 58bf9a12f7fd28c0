//! What a run of the setup finds in the certificate directory, and what it leaves there.
use vstd::prelude::*;
use vstd::utf8::encode_utf8;

use crate::certificates::{
    authority_is_ending, authority_is_sound, authority_reads, can_be_issuer, is_accepted,
    is_new_authority, is_new_server, leaf_is_valid, new_authority_can_sign, pem_certificate,
    KeyedCertificate,
};
use crate::error::SetupError;
use crate::tls::{
    belongs, can_be_read, follows, follows_at, follows_reading, is_answer, is_run,
    lemma_run_leads_on, Action, Event, File, Setup, Stage, Step,
};

verus! {

/// What the certificate directory holds: each of the four files, if it is there.
pub struct Directory {
    pub authority: Option<Seq<char>>,
    pub authority_key: Option<Seq<char>>,
    pub server: Option<Seq<u8>>,
    pub server_key: Option<Seq<char>>,
}

/// What the directory holds after an action. A file is there once it was written.
pub open spec fn directory_after(directory: Directory, action: Action) -> Directory {
    match action {
        Action::WriteFile { file: File::Authority, text } => Directory {
            authority: Some(text@),
            ..directory
        },
        Action::WriteFile { file: File::AuthorityKey, text } => Directory {
            authority_key: Some(text@),
            ..directory
        },
        Action::WriteFile { file: File::Server, text } => Directory {
            server: Some(encode_utf8(text@)),
            ..directory
        },
        Action::WriteFile { file: File::ServerKey, text } => Directory {
            server_key: Some(text@),
            ..directory
        },
        _ => directory,
    }
}

/// What the directory holds before step `i` is carried out.
pub open spec fn directory_at(directory: Directory, steps: Seq<Step>, i: int) -> Directory
    decreases i,
{
    if i <= 0 {
        directory
    } else {
        directory_after(directory_at(directory, steps, i - 1), steps[i - 1].action)
    }
}

/// Whether an event is what comes of reading a text file.
pub open spec fn reads_text(file: Option<Seq<char>>, event: Event) -> bool {
    match file {
        Some(content) => event matches Event::Text(text) && text@ == content,
        None => event is Failed,
    }
}

/// Whether an event is what comes of an action on this directory. What the system and the user
/// answer is open.
pub open spec fn comes_from(directory: Directory, action: Action, event: Event) -> bool {
    match action {
        Action::CreateDirectory => event is Done,
        Action::FindFile(File::Authority) => event == Event::Found(directory.authority is Some),
        Action::FindFile(_) => event == Event::Found(directory.authority_key is Some),
        Action::ReadText(File::Authority) => reads_text(directory.authority, event),
        Action::ReadText(File::AuthorityKey) => reads_text(directory.authority_key, event),
        Action::ReadText(_) => reads_text(directory.server_key, event),
        Action::ReadBytes(_) => match directory.server {
            Some(content) => event matches Event::Bytes(bytes) && bytes@ == content,
            None => event is Failed,
        },
        Action::WriteFile { .. } => event is Done,
        _ => true,
    }
}

/// A run of the setup on a directory that nothing else touches and that can be read and written.
pub open spec fn is_run_on(directory: Directory, steps: Seq<Step>, events: Seq<(Event, i64)>) -> bool {
    &&& is_run(steps, events)
    &&& forall|i: int|
        0 <= i < events.len() ==> comes_from(
            directory_at(directory, steps, i),
            steps[i].action,
            (#[trigger] events[i]).0,
        )
}

/// The certificate of an authority, as it is handed to the check of a server certificate.
pub open spec fn root(authority: Seq<char>) -> Result<Seq<u8>, Seq<char>> {
    pem_certificate(encode_utf8(authority))
}

/// Whether the directory holds a server certificate that is valid at the instant `now` under the
/// authority that it holds.
pub open spec fn is_valid_at(directory: Directory, now: i64) -> bool {
    &&& directory.authority matches Some(authority)
    &&& directory.server matches Some(server)
    &&& directory.server_key matches Some(key)
    &&& root(authority) matches Ok(ca)
    &&& leaf_is_valid(server, key, ca, now)
}

/// Whether the directory holds a server certificate that is accepted at the instant `now` under the
/// authority that it holds, whatever its key is.
pub open spec fn has_accepted_server(directory: Directory, now: i64) -> bool {
    &&& directory.authority matches Some(authority)
    &&& directory.server matches Some(server)
    &&& root(authority) matches Ok(ca)
    &&& is_accepted(server, ca, now)
}

/// Whether the directory holds this authority.
pub open spec fn holds_authority(directory: Directory, authority: KeyedCertificate) -> bool {
    directory.authority == Some(authority.cert@) && directory.authority_key == Some(authority.key@)
}

/// Whether a step is one of those that come once the server certificate has passed the check.
pub open spec fn is_beyond_check(step: Step) -> bool {
    ||| step.action is CheckTrust
    ||| step.action is RequestTrust
    ||| step.action matches Action::Finish(Ok(_))
}

/// What a step knows of the directory.
spec fn knows(directory: Directory, step: Step) -> bool {
    match step.setup.stage {
        Stage::ReadingAuthorityKey { cert, .. } => directory.authority == Some(cert@),
        Stage::WritingAuthorityKey { authority } => step.action matches Action::WriteFile {
            text,
            ..
        } && text@ == authority.key@,
        Stage::WritingAuthority { authority } => {
            &&& directory.authority_key == Some(authority.key@)
            &&& step.action matches Action::WriteFile { text, .. } && text@ == authority.cert@
        },
        Stage::ReadingServer { authority, ca, .. } => holds_authority(directory, authority) && root(
            authority.cert@,
        ) == Ok::<_, Seq<char>>(ca@),
        Stage::ReadingServerKey { authority, ca, leaf, .. } => {
            &&& holds_authority(directory, authority)
            &&& root(authority.cert@) == Ok::<_, Seq<char>>(ca@)
            &&& directory.server == Some(leaf@)
        },
        Stage::WritingServerKey { authority, ca, .. } => holds_authority(directory, authority)
            && root(authority.cert@) == Ok::<_, Seq<char>>(ca@),
        Stage::WritingServer { authority, ca, .. } => holds_authority(directory, authority) && root(
            authority.cert@,
        ) == Ok::<_, Seq<char>>(ca@),
        _ => true,
    }
}

proof fn lemma_step_knows(
    directory: Directory,
    before: Step,
    event: Event,
    now: i64,
    step: Step,
)
    requires
        belongs(before.action, before.setup.stage),
        knows(directory, before),
        is_answer(before.setup.stage, event),
        comes_from(directory, before.action, event),
        follows(before.setup, event, now, step),
    ensures
        knows(directory_after(directory, before.action), step),
        is_beyond_check(step) ==> is_beyond_check(before) && directory_after(
            directory,
            before.action,
        ) == directory || is_valid_at(directory_after(directory, before.action), now)
            && directory_after(directory, before.action).authority_key is Some,
{
}

proof fn lemma_run_knows(
    directory: Directory,
    steps: Seq<Step>,
    events: Seq<(Event, i64)>,
    i: int,
)
    requires
        is_run_on(directory, steps, events),
        0 <= i < steps.len(),
    ensures
        knows(directory_at(directory, steps, i), steps[i]),
    decreases i,
{
    if i > 0 {
        lemma_run_knows(directory, steps, events, i - 1);
        lemma_run_leads_on(steps, events, i - 1, i - 1);
        assert(follows_at(steps, events, i - 1));
        let event = events[i - 1];
        let held = directory_at(directory, steps, i - 1);
        lemma_step_knows(held, steps[i - 1], event.0, event.1, steps[i]);
    }
}

/// What is handed out is valid: whatever the directory held, the system is asked for its trust, the
/// user is asked, and the certificates are handed out only where the directory holds a server
/// certificate that passed the check during the run, under the authority that the directory holds
/// with its key.
pub proof fn handed_out_files_are_valid(
    directory: Directory,
    steps: Seq<Step>,
    events: Seq<(Event, i64)>,
    i: int,
)
    requires
        is_run_on(directory, steps, events),
        0 <= i < steps.len(),
        is_beyond_check(steps[i]),
    ensures
        exists|k: int|
            0 <= k < i && is_valid_at(
                directory_at(directory, steps, i),
                (#[trigger] events[k]).1,
            ),
        directory_at(directory, steps, i).authority_key is Some,
    decreases i,
{
    assert(i > 0);
    lemma_run_knows(directory, steps, events, i - 1);
    lemma_run_leads_on(steps, events, i - 1, i - 1);
    assert(follows_at(steps, events, i - 1));
    let event = events[i - 1];
    let held = directory_at(directory, steps, i - 1);
    lemma_step_knows(held, steps[i - 1], event.0, event.1, steps[i]);
    if is_beyond_check(steps[i - 1]) {
        handed_out_files_are_valid(directory, steps, events, i - 1);
    }
}

/// Whether the directory holds a server certificate that `authority` signed at the instant `made`.
pub open spec fn holds_new_server(
    directory: Directory,
    authority: KeyedCertificate,
    made: i64,
) -> bool {
    exists|server: KeyedCertificate| #[trigger]
        is_new_server(server, authority, made) && directory.server == Some(
            encode_utf8(server.cert@),
        ) && directory.server_key == Some(server.key@)
}

/// Whether a setup can end so where a server certificate was to be made with this authority.
pub open spec fn can_end(authority: KeyedCertificate, error: SetupError) -> bool {
    match error {
        SetupError::Failed(_) => true,
        SetupError::InvalidAuthority(_) => !can_be_issuer(authority.cert@),
        SetupError::InvalidServerCertificate => true,
        SetupError::NotTrusted => true,
        _ => false,
    }
}

/// Whether two certificates are the same, and their keys.
spec fn same_pair(a: KeyedCertificate, b: KeyedCertificate) -> bool {
    a.cert@ == b.cert@ && a.key@ == b.key@
}

/// How a renewal stands: `held` is what the directory held at first, `directory` what it holds now.
spec fn renews(
    held: Directory,
    authority: KeyedCertificate,
    directory: Directory,
    step: Step,
) -> bool {
    let made = step.setup.started;
    &&& holds_authority(directory, authority)
    &&& match step.setup.stage {
        Stage::CreatingDirectory | Stage::FindingAuthority | Stage::ReadingAuthority => directory
            == held,
        Stage::FindingAuthorityKey { authority_found } => directory == held && authority_found,
        Stage::ReadingAuthorityKey { cert, facts } => directory == held && cert@ == authority.cert@
            && authority_reads(cert@, Ok(facts)),
        Stage::ReadingServer { authority: kept, ca, renewed } => {
            &&& same_pair(kept, authority)
            &&& if renewed {
                holds_new_server(directory, authority, made)
            } else {
                directory == held
            }
        },
        Stage::ReadingServerKey { authority: kept, ca, renewed, leaf } => {
            &&& same_pair(kept, authority)
            &&& if renewed {
                holds_new_server(directory, authority, made)
            } else {
                directory == held
            }
        },
        Stage::WritingServerKey { authority: kept, server, .. } => {
            &&& same_pair(kept, authority)
            &&& is_new_server(server, authority, made)
            &&& step.action matches Action::WriteFile { text, .. } && text@ == server.key@
        },
        Stage::WritingServer { authority: kept, server, .. } => {
            &&& same_pair(kept, authority)
            &&& is_new_server(server, authority, made)
            &&& directory.server_key == Some(server.key@)
            &&& step.action matches Action::WriteFile { text, .. } && text@ == server.cert@
        },
        Stage::CheckingTrust { .. } | Stage::RequestingTrust => holds_new_server(
            directory,
            authority,
            made,
        ),
        Stage::Finished => match step.action {
            Action::Finish(Ok(_)) => holds_new_server(directory, authority, made),
            Action::Finish(Err(error)) => can_end(authority, error) && (
            error is InvalidServerCertificate ==> holds_new_server(directory, authority, made)),
            _ => false,
        },
        _ => false,
    }
}

proof fn lemma_step_renews(
    held: Directory,
    authority: KeyedCertificate,
    directory: Directory,
    before: Step,
    event: Event,
    now: i64,
    step: Step,
)
    requires
        holds_authority(held, authority),
        authority_is_sound(authority.cert@, authority.key@, before.setup.started),
        !is_valid_at(held, now),
        belongs(before.action, before.setup.stage),
        knows(directory, before),
        renews(held, authority, directory, before),
        is_answer(before.setup.stage, event),
        comes_from(directory, before.action, event),
        follows(before.setup, event, now, step),
    ensures
        renews(held, authority, directory_after(directory, before.action), step),
{
}

/// A server certificate that is missing, not valid or ends soon is renewed under the same authority:
/// where the directory holds a sound authority, its files stay as they are throughout, and the
/// system is asked for its trust, the user is asked, and the certificates are handed out only once
/// the directory holds another server certificate, or another key for it, than before: one that this
/// authority signed at the start, and that was read again and passed the check. If the server
/// certificate itself was not accepted, it is another one. Otherwise the setup ends with an error;
/// that the new one does not pass the check is said only of such a new one.
pub proof fn renewal_keeps_the_authority(
    directory: Directory,
    authority: KeyedCertificate,
    steps: Seq<Step>,
    events: Seq<(Event, i64)>,
    i: int,
)
    requires
        is_run_on(directory, steps, events),
        holds_authority(directory, authority),
        authority_is_sound(authority.cert@, authority.key@, steps[0].setup.started),
        forall|k: int| 0 <= k < events.len() ==> !is_valid_at(directory, (#[trigger] events[k]).1),
        0 <= i < steps.len(),
    ensures
        holds_authority(directory_at(directory, steps, i), authority),
        is_beyond_check(steps[i]) ==> holds_new_server(
            directory_at(directory, steps, i),
            authority,
            steps[0].setup.started,
        ),
        is_beyond_check(steps[i]) ==> exists|k: int|
            0 <= k < i && is_valid_at(
                directory_at(directory, steps, i),
                (#[trigger] events[k]).1,
            ),
        is_beyond_check(steps[i]) ==> !(directory_at(directory, steps, i).server
            == directory.server && directory_at(directory, steps, i).server_key
            == directory.server_key),
        is_beyond_check(steps[i]) && (forall|k: int|
            0 <= k < events.len() ==> !has_accepted_server(directory, (#[trigger] events[k]).1))
            ==> directory_at(directory, steps, i).server != directory.server,
        steps[i].action matches Action::Finish(Err(error)) ==> can_end(authority, error),
        steps[i].action == Action::Finish(Err(SetupError::InvalidServerCertificate))
            ==> holds_new_server(
            directory_at(directory, steps, i),
            authority,
            steps[0].setup.started,
        ),
{
    lemma_run_renews(directory, authority, steps, events, i);
    lemma_run_leads_on(steps, events, i, i);
    lemma_run_keeps_start(steps, events, i);
    if is_beyond_check(steps[i]) {
        handed_out_files_are_valid(directory, steps, events, i);
    }
}

proof fn lemma_run_renews(
    directory: Directory,
    authority: KeyedCertificate,
    steps: Seq<Step>,
    events: Seq<(Event, i64)>,
    i: int,
)
    requires
        is_run_on(directory, steps, events),
        holds_authority(directory, authority),
        authority_is_sound(authority.cert@, authority.key@, steps[0].setup.started),
        forall|k: int| 0 <= k < events.len() ==> !is_valid_at(directory, (#[trigger] events[k]).1),
        0 <= i < steps.len(),
    ensures
        renews(directory, authority, directory_at(directory, steps, i), steps[i]),
    decreases i,
{
    if i > 0 {
        lemma_run_renews(directory, authority, steps, events, i - 1);
        lemma_run_knows(directory, steps, events, i - 1);
        lemma_run_leads_on(steps, events, i - 1, i - 1);
        lemma_run_keeps_start(steps, events, i - 1);
        assert(follows_at(steps, events, i - 1));
        let event = events[i - 1];
        let now_held = directory_at(directory, steps, i - 1);
        lemma_step_renews(
            directory,
            authority,
            now_held,
            steps[i - 1],
            event.0,
            event.1,
            steps[i],
        );
    }
}

proof fn lemma_run_keeps_start(steps: Seq<Step>, events: Seq<(Event, i64)>, i: int)
    requires
        is_run(steps, events),
        0 <= i < steps.len(),
    ensures
        steps[i].setup.started == steps[0].setup.started,
    decreases i,
{
    if i > 0 {
        lemma_run_keeps_start(steps, events, i - 1);
        assert(follows_at(steps, events, i - 1));
    }
}

/// Whether the step behind event `i` follows on it, where the key that the event brings was read.
pub open spec fn reads_key_at(steps: Seq<Step>, events: Seq<(Event, i64)>, i: int) -> bool {
    exists|read: Option<Result<Seq<u8>, Seq<char>>>|
        can_be_read(steps[i].setup.stage, events[i].0, read) && (read matches Some(outcome)
            ==> outcome is Ok) && #[trigger] follows_reading(
            steps[i].setup,
            events[i].0,
            read,
            events[i].1,
            steps[i + 1],
        )
}

/// Whether a setup ends with this error since a server certificate could not be made, or since a new
/// one is not valid.
pub open spec fn fails_to_renew(
    directory: Directory,
    before: Setup,
    now: i64,
    error: SetupError,
) -> bool {
    ||| error is InvalidServerCertificate && !is_valid_at(directory, now)
    ||| (error is Failed || error is InvalidAuthority) && match before.stage {
        Stage::ReadingServer { renewed, .. } => !renewed,
        Stage::ReadingServerKey { renewed, .. } => !renewed,
        _ => false,
    }
}

proof fn lemma_step_fails_to_renew(
    held: Directory,
    authority: KeyedCertificate,
    directory: Directory,
    before: Step,
    event: Event,
    read: Option<Result<Seq<u8>, Seq<char>>>,
    now: i64,
    step: Step,
)
    requires
        holds_authority(held, authority),
        authority_is_sound(authority.cert@, authority.key@, before.setup.started),
        !is_valid_at(held, now),
        belongs(before.action, before.setup.stage),
        knows(directory, before),
        renews(held, authority, directory, before),
        is_answer(before.setup.stage, event),
        comes_from(directory, before.action, event),
        before.action is CheckTrust ==> event == Event::Trusted(true),
        !(before.setup.stage is RequestingTrust),
        can_be_read(before.setup.stage, event, read),
        read matches Some(outcome) ==> outcome is Ok,
        follows_reading(before.setup, event, read, now, step),
    ensures
        step.action matches Action::Finish(Err(error)) ==> fails_to_renew(
            directory_after(directory, before.action),
            before.setup,
            now,
            error,
        ),
{
}

/// A renewal fails only where the outside world does: where the keys can be read and the system
/// trusts the authority, a run on a directory with a sound authority and without a valid server
/// certificate ends with an error only if the new server certificate could not be made, or if it was
/// made and written, and does not pass the check.
pub proof fn renewal_fails_only_with_the_new_certificate(
    directory: Directory,
    authority: KeyedCertificate,
    steps: Seq<Step>,
    events: Seq<(Event, i64)>,
    i: int,
)
    requires
        is_run_on(directory, steps, events),
        holds_authority(directory, authority),
        authority_is_sound(authority.cert@, authority.key@, steps[0].setup.started),
        forall|k: int| 0 <= k < events.len() ==> !is_valid_at(directory, (#[trigger] events[k]).1),
        forall|k: int| 0 <= k < events.len() ==> #[trigger] reads_key_at(steps, events, k),
        forall|k: int|
            0 <= k < events.len() && steps[k].action is CheckTrust ==> (#[trigger] events[k]).0
                == Event::Trusted(true),
        0 <= i < steps.len(),
    ensures
        !(steps[i].action is RequestTrust),
        steps[i].action matches Action::Finish(Err(error)) ==> i > 0 && fails_to_renew(
            directory_at(directory, steps, i),
            steps[i - 1].setup,
            events[i - 1].1,
            error,
        ),
    decreases i,
{
    if i > 0 {
        renewal_fails_only_with_the_new_certificate(directory, authority, steps, events, i - 1);
        lemma_run_renews(directory, authority, steps, events, i - 1);
        lemma_run_knows(directory, steps, events, i - 1);
        lemma_run_leads_on(steps, events, i - 1, i);
        lemma_run_leads_on(steps, events, i - 1, i - 1);
        lemma_run_keeps_start(steps, events, i - 1);
        assert(follows_at(steps, events, i - 1));
        assert(reads_key_at(steps, events, i - 1));
        let event = events[i - 1];
        let read = choose|read: Option<Result<Seq<u8>, Seq<char>>>|
            can_be_read(steps[i - 1].setup.stage, event.0, read) && (read matches Some(outcome)
                ==> outcome is Ok) && #[trigger] follows_reading(
                steps[i - 1].setup,
                event.0,
                read,
                event.1,
                steps[i - 1 + 1],
            );
        let now_held = directory_at(directory, steps, i - 1);
        lemma_step_fails_to_renew(
            directory,
            authority,
            now_held,
            steps[i - 1],
            event.0,
            read,
            event.1,
            steps[i],
        );
    }
}

/// Whether a setup goes on without touching the directory.
spec fn is_quiet(step: Step) -> bool {
    match step.setup.stage {
        Stage::CreatingDirectory | Stage::FindingAuthority | Stage::ReadingAuthority => true,
        Stage::FindingAuthorityKey { authority_found } => authority_found,
        Stage::ReadingAuthorityKey { cert, facts } => authority_reads(cert@, Ok(facts)),
        Stage::ReadingServer { .. } | Stage::ReadingServerKey { .. } => true,
        Stage::CheckingTrust { requested } => !requested,
        Stage::Finished => step.action matches Action::Finish(Ok(_)),
        _ => false,
    }
}

proof fn lemma_quiet_step(
    directory: Directory,
    authority: KeyedCertificate,
    before: Step,
    event: Event,
    read: Option<Result<Seq<u8>, Seq<char>>>,
    now: i64,
    step: Step,
)
    requires
        holds_authority(directory, authority),
        authority_is_sound(authority.cert@, authority.key@, before.setup.started),
        is_valid_at(directory, now),
        belongs(before.action, before.setup.stage),
        knows(directory, before),
        is_quiet(before),
        is_answer(before.setup.stage, event),
        comes_from(directory, before.action, event),
        before.action is CheckTrust ==> event == Event::Trusted(true),
        can_be_read(before.setup.stage, event, read),
        read matches Some(outcome) ==> outcome is Ok,
        follows_reading(before.setup, event, read, now, step),
    ensures
        is_quiet(step),
        directory_after(directory, before.action) == directory,
{
}

/// A later start reuses what an earlier one left: where the directory holds an authority that is
/// sound and a server certificate that is valid under it, where their keys can be read, and where
/// the system trusts them, nothing is written, nobody is asked, the directory stays as it is, and
/// the setup does not fail.
pub proof fn later_start_reuses_everything(
    directory: Directory,
    authority: KeyedCertificate,
    steps: Seq<Step>,
    events: Seq<(Event, i64)>,
    i: int,
)
    requires
        is_run_on(directory, steps, events),
        holds_authority(directory, authority),
        authority_is_sound(authority.cert@, authority.key@, steps[0].setup.started),
        forall|k: int| 0 <= k < events.len() ==> is_valid_at(directory, (#[trigger] events[k]).1),
        forall|k: int| 0 <= k < events.len() ==> #[trigger] reads_key_at(steps, events, k),
        forall|k: int|
            0 <= k < events.len() && steps[k].action is CheckTrust ==> (#[trigger] events[k]).0
                == Event::Trusted(true),
        0 <= i < steps.len(),
    ensures
        !(steps[i].action is WriteFile),
        !(steps[i].action is RequestTrust),
        directory_at(directory, steps, i) == directory,
        steps[i].action matches Action::Finish(res) ==> res is Ok,
{
    lemma_run_is_quiet(directory, authority, steps, events, i);
    lemma_run_leads_on(steps, events, i, i);
}

proof fn lemma_run_is_quiet(
    directory: Directory,
    authority: KeyedCertificate,
    steps: Seq<Step>,
    events: Seq<(Event, i64)>,
    i: int,
)
    requires
        is_run_on(directory, steps, events),
        holds_authority(directory, authority),
        authority_is_sound(authority.cert@, authority.key@, steps[0].setup.started),
        forall|k: int| 0 <= k < events.len() ==> is_valid_at(directory, (#[trigger] events[k]).1),
        forall|k: int| 0 <= k < events.len() ==> #[trigger] reads_key_at(steps, events, k),
        forall|k: int|
            0 <= k < events.len() && steps[k].action is CheckTrust ==> (#[trigger] events[k]).0
                == Event::Trusted(true),
        0 <= i < steps.len(),
    ensures
        is_quiet(steps[i]),
        directory_at(directory, steps, i) == directory,
    decreases i,
{
    if i > 0 {
        lemma_run_is_quiet(directory, authority, steps, events, i - 1);
        lemma_run_knows(directory, steps, events, i - 1);
        lemma_run_leads_on(steps, events, i - 1, i - 1);
        lemma_run_keeps_start(steps, events, i - 1);
        assert(follows_at(steps, events, i - 1));
        assert(reads_key_at(steps, events, i - 1));
        let event = events[i - 1];
        let read = choose|read: Option<Result<Seq<u8>, Seq<char>>>|
            can_be_read(steps[i - 1].setup.stage, event.0, read) && (read matches Some(outcome)
                ==> outcome is Ok) && #[trigger] follows_reading(
                steps[i - 1].setup,
                event.0,
                read,
                event.1,
                steps[i - 1 + 1],
            );
        lemma_quiet_step(
            directory,
            authority,
            steps[i - 1],
            event.0,
            read,
            event.1,
            steps[i],
        );
    }
}

/// Whether a start makes an authority where the directory holds this: none, or a sound one that ends
/// within 30 days.
pub open spec fn needs_authority(directory: Directory, now: i64) -> bool {
    match (directory.authority, directory.authority_key) {
        (None, None) => true,
        (Some(cert), Some(key)) => authority_is_ending(cert, key, now),
        _ => false,
    }
}

/// Whether the directory still holds the server certificate and the key that it held before.
spec fn same_server(held: Directory, directory: Directory) -> bool {
    directory.server == held.server && directory.server_key == held.server_key
}

/// Whether the directory holds an authority that was made at the instant `made`, and either the
/// server certificate that it held before, or one that the new authority signed at that instant.
pub open spec fn is_set_up_anew(held: Directory, directory: Directory, made: i64) -> bool {
    exists|authority: KeyedCertificate| #[trigger]
        is_new_authority(authority, made) && holds_authority(directory, authority) && (
        directory.server == held.server && directory.server_key == held.server_key
            || holds_new_server(directory, authority, made))
}

/// How a start stands that makes an authority: `held` is what the directory held at first,
/// `directory` what it holds now.
spec fn begins(held: Directory, directory: Directory, step: Step) -> bool {
    let made = step.setup.started;
    match step.setup.stage {
        Stage::CreatingDirectory | Stage::FindingAuthority => directory == held,
        Stage::FindingAuthorityKey { authority_found } => directory == held && authority_found
            == held.authority is Some,
        Stage::ReadingAuthority => directory == held && held.authority is Some,
        Stage::ReadingAuthorityKey { cert, facts } => directory == held && held.authority == Some(
            cert@,
        ) && authority_reads(cert@, Ok(facts)),
        Stage::WritingAuthorityKey { authority } | Stage::WritingAuthority { authority } => {
            &&& same_server(held, directory)
            &&& is_new_authority(authority, made)
        },
        Stage::ReadingServer { authority, renewed, .. } | Stage::ReadingServerKey {
            authority,
            renewed,
            ..
        } => {
            &&& is_new_authority(authority, made)
            &&& same_server(held, directory) || renewed && holds_new_server(
                directory,
                authority,
                made,
            )
        },
        Stage::WritingServerKey { authority, server, .. } => {
            &&& is_new_authority(authority, made)
            &&& is_new_server(server, authority, made)
            &&& step.action matches Action::WriteFile { text, .. } && text@ == server.key@
        },
        Stage::WritingServer { authority, server, .. } => {
            &&& is_new_authority(authority, made)
            &&& is_new_server(server, authority, made)
            &&& directory.server_key == Some(server.key@)
            &&& step.action matches Action::WriteFile { text, .. } && text@ == server.cert@
        },
        Stage::CheckingTrust { .. } | Stage::RequestingTrust => is_set_up_anew(
            held,
            directory,
            made,
        ),
        Stage::Finished => match step.action {
            Action::Finish(Ok(_)) => is_set_up_anew(held, directory, made),
            Action::Finish(Err(error)) => can_end_anew(error),
            _ => false,
        },
    }
}

/// Whether a setup can end so where an authority was to be made.
pub open spec fn can_end_anew(error: SetupError) -> bool {
    error is Failed || error is InvalidServerCertificate || error is NotTrusted
}

proof fn lemma_step_begins(
    held: Directory,
    directory: Directory,
    before: Step,
    event: Event,
    now: i64,
    step: Step,
)
    requires
        needs_authority(held, before.setup.started),
        belongs(before.action, before.setup.stage),
        knows(directory, before),
        begins(held, directory, before),
        is_answer(before.setup.stage, event),
        comes_from(directory, before.action, event),
        follows(before.setup, event, now, step),
    ensures
        begins(held, directory_after(directory, before.action), step),
{
    match before.setup.stage {
        Stage::ReadingServer { authority, .. } => new_authority_can_sign(
            authority,
            before.setup.started,
        ),
        Stage::ReadingServerKey { authority, .. } => new_authority_can_sign(
            authority,
            before.setup.started,
        ),
        _ => {},
    }
}

proof fn lemma_run_begins(
    directory: Directory,
    steps: Seq<Step>,
    events: Seq<(Event, i64)>,
    i: int,
)
    requires
        is_run_on(directory, steps, events),
        needs_authority(directory, steps[0].setup.started),
        0 <= i < steps.len(),
    ensures
        begins(directory, directory_at(directory, steps, i), steps[i]),
    decreases i,
{
    if i > 0 {
        lemma_run_begins(directory, steps, events, i - 1);
        lemma_run_knows(directory, steps, events, i - 1);
        lemma_run_leads_on(steps, events, i - 1, i - 1);
        lemma_run_keeps_start(steps, events, i - 1);
        assert(follows_at(steps, events, i - 1));
        let event = events[i - 1];
        let now_held = directory_at(directory, steps, i - 1);
        lemma_step_begins(directory, now_held, steps[i - 1], event.0, event.1, steps[i]);
    }
}

/// A first start sets up everything: where the directory holds no authority and no server
/// certificate, the system is asked for its trust, the user is asked, and the certificates are
/// handed out only once the directory holds a new authority and a new server certificate that this
/// authority signed. Otherwise the setup ends with an error, but not with one of an authority that
/// was there before.
pub proof fn first_start_makes_everything(
    directory: Directory,
    steps: Seq<Step>,
    events: Seq<(Event, i64)>,
    i: int,
)
    requires
        is_run_on(directory, steps, events),
        directory.authority is None,
        directory.authority_key is None,
        directory.server is None,
        0 <= i < steps.len(),
    ensures
        is_beyond_check(steps[i]) ==> exists|authority: KeyedCertificate| #[trigger]
            is_new_authority(authority, steps[0].setup.started) && holds_authority(
                directory_at(directory, steps, i),
                authority,
            ) && holds_new_server(
                directory_at(directory, steps, i),
                authority,
                steps[0].setup.started,
            ),
        steps[i].action matches Action::Finish(Err(error)) ==> can_end_anew(error),
{
    lemma_run_begins(directory, steps, events, i);
    lemma_run_leads_on(steps, events, i, i);
    lemma_run_keeps_start(steps, events, i);
    if is_beyond_check(steps[i]) {
        handed_out_files_are_valid(directory, steps, events, i);
    }
}

/// An authority that ends soon is replaced: where the directory holds no authority, or a sound one
/// that ends within 30 days, the system is asked for its trust, the user is asked, and the
/// certificates are handed out only once the directory holds a new authority in its place, and a
/// server certificate that passed the check under the new authority: one that the new authority
/// signed, or the one that was there if it passes even so. Otherwise the setup ends with an error.
pub proof fn ending_authority_is_replaced_for_good(
    directory: Directory,
    steps: Seq<Step>,
    events: Seq<(Event, i64)>,
    i: int,
)
    requires
        is_run_on(directory, steps, events),
        needs_authority(directory, steps[0].setup.started),
        0 <= i < steps.len(),
    ensures
        is_beyond_check(steps[i]) ==> is_set_up_anew(
            directory,
            directory_at(directory, steps, i),
            steps[0].setup.started,
        ),
        is_beyond_check(steps[i]) ==> exists|k: int|
            0 <= k < i && is_valid_at(
                directory_at(directory, steps, i),
                (#[trigger] events[k]).1,
            ),
        steps[i].action matches Action::Finish(Err(error)) ==> can_end_anew(error),
{
    lemma_run_begins(directory, steps, events, i);
    lemma_run_leads_on(steps, events, i, i);
    lemma_run_keeps_start(steps, events, i);
    if is_beyond_check(steps[i]) {
        handed_out_files_are_valid(directory, steps, events, i);
    }
}

} // verus!
