//! Trust on Linux: the system's store of authorities, and the databases of browsers.
//!
//! Commands are left to the caller: it runs what it is told, one command at a time, and hands over
//! what came of it.
use sha2::{Digest, Sha256};
use vstd::prelude::*;

use crate::certificates::{certificate_of, pem_certificate};
use crate::error::TrustError;
use crate::preview::{from_utf8_lossy, utf8_lossy};
use crate::text::{
    concatenate, same_bytes, same_text, split, split_text, texts, Separator,
};
use crate::trust::{command, plain_command, Command, CommandView};

verus! {

/// A path below a directory. The path does not start with a slash.
pub open spec fn path_below(directory: Seq<char>, path: Seq<char>) -> Seq<char> {
    if directory.len() == 0 || directory.last() == '/' {
        directory + path
    } else {
        directory + seq!['/'] + path
    }
}

/// A path below a directory. The path does not start with a slash.
pub fn below(directory: &str, path: &str) -> (res: String)
    ensures
        res@ == path_below(directory@, path@),
{
    let chars = crate::text::chars_of(directory);
    let mut res = directory.to_owned();
    if chars.len() > 0 && chars[chars.len() - 1] != '/' {
        res.push('/');
    }
    res.append(path);
    assert(res@ =~= path_below(directory@, path@));
    res
}

/// The tool of Debian, Alpine and openSUSE, below the root directory.
pub const UPDATE_CA_CERTIFICATES: &'static str = "usr/sbin/update-ca-certificates";

/// The tool of Fedora and Arch, below the root directory.
pub const UPDATE_CA_TRUST: &'static str = "usr/bin/update-ca-trust";

/// Another place of the tool of Fedora and Arch, below the root directory.
pub const UPDATE_CA_TRUST_SBIN: &'static str = "usr/sbin/update-ca-trust";

/// The directory of Debian, below the root directory.
pub const DEBIAN_ANCHORS: &'static str = "usr/local/share/ca-certificates";

/// The directory of openSUSE, below the root directory.
pub const SUSE_ANCHORS: &'static str = "etc/pki/trust/anchors";

/// The directory of Fedora, below the root directory.
pub const FEDORA_ANCHORS: &'static str = "etc/pki/ca-trust/source/anchors";

/// The directory of Arch, below the root directory.
pub const ARCH_ANCHORS: &'static str = "etc/ca-certificates/trust-source/anchors";

/// Which of the tools and directories are there.
pub struct Presence {
    pub update_ca_certificates: bool,
    pub update_ca_trust: bool,
    pub update_ca_trust_sbin: bool,
    pub suse_anchors: bool,
    pub arch_anchors: bool,
}

/// The system's store of authorities: where a certificate goes, and the command that takes it up.
pub struct LinuxStore {
    pub directory: String,
    pub update: String,
    pub args: Vec<String>,
}

/// The system's store of authorities.
pub struct LinuxStoreView {
    pub directory: Seq<char>,
    pub update: Seq<char>,
    pub args: Seq<Seq<char>>,
}

impl View for LinuxStore {
    type V = LinuxStoreView;

    open spec fn view(&self) -> LinuxStoreView {
        LinuxStoreView {
            directory: self.directory@,
            update: self.update@,
            args: texts(self.args@),
        }
    }
}

/// The directory that goes with the tool of Debian, Alpine and openSUSE.
pub open spec fn certificates_directory(presence: Presence) -> Seq<char> {
    if presence.suse_anchors {
        SUSE_ANCHORS@
    } else {
        DEBIAN_ANCHORS@
    }
}

/// The directory that goes with the tool of Fedora and Arch.
pub open spec fn trust_directory(presence: Presence) -> Seq<char> {
    if presence.arch_anchors {
        ARCH_ANCHORS@
    } else {
        FEDORA_ANCHORS@
    }
}

/// The store of a system with these tools and directories below `root`.
pub open spec fn store_at(root: Seq<char>, presence: Presence) -> Option<LinuxStoreView> {
    if presence.update_ca_certificates {
        Some(
            LinuxStoreView {
                directory: path_below(root, certificates_directory(presence)),
                update: path_below(root, UPDATE_CA_CERTIFICATES@),
                args: Seq::empty(),
            },
        )
    } else if presence.update_ca_trust || presence.update_ca_trust_sbin {
        Some(
            LinuxStoreView {
                directory: path_below(root, trust_directory(presence)),
                update: path_below(
                    root,
                    if presence.update_ca_trust {
                        UPDATE_CA_TRUST@
                    } else {
                        UPDATE_CA_TRUST_SBIN@
                    },
                ),
                args: seq!["extract"@],
            },
        )
    } else {
        None
    }
}

/// The system's store of authorities.
pub fn linux_store(root: &str, presence: &Presence) -> (res: Result<LinuxStore, TrustError>)
    ensures
        match store_at(root@, *presence) {
            Some(store) => res matches Ok(found) && found@ == store,
            None => res == Err::<LinuxStore, _>(TrustError::MissingUpdateTool),
        },
{
    if presence.update_ca_certificates {
        let directory = if presence.suse_anchors {
            SUSE_ANCHORS
        } else {
            DEBIAN_ANCHORS
        };
        let res = LinuxStore {
            directory: below(root, directory),
            update: below(root, UPDATE_CA_CERTIFICATES),
            args: Vec::new(),
        };
        assert(res@.args =~= Seq::<Seq<char>>::empty());
        return Ok(res);
    }
    let tool = if presence.update_ca_trust {
        UPDATE_CA_TRUST
    } else if presence.update_ca_trust_sbin {
        UPDATE_CA_TRUST_SBIN
    } else {
        return Err(TrustError::MissingUpdateTool);
    };
    let directory = if presence.arch_anchors {
        ARCH_ANCHORS
    } else {
        FEDORA_ANCHORS
    };
    let res = LinuxStore {
        directory: below(root, directory),
        update: below(root, tool),
        args: vec!["extract".to_owned()],
    };
    assert(res@.args =~= seq!["extract"@]);
    Ok(res)
}

/// Where browsers keep their databases, below the user's home directory.
pub fn nss_databases() -> (res: Vec<String>)
    ensures
        texts(res@) == seq![".pki/nssdb"@, ".local/share/pki/nssdb"@],
{
    let res = vec![".pki/nssdb".to_owned(), ".local/share/pki/nssdb".to_owned()];
    assert(texts(res@) =~= seq![".pki/nssdb"@, ".local/share/pki/nssdb"@]);
    res
}

/// The file that shows that a directory holds a browser's database.
pub const NSS_DATABASE_FILE: &'static str = "cert9.db";

/// The SHA-256 digest of some bytes.
pub uninterp spec fn sha256(bytes: Seq<u8>) -> Seq<u8>;

/// `Sha256::digest`: the digest of some bytes.
#[verifier::external_body]
fn sha256_of(bytes: &[u8]) -> (res: Vec<u8>)
    ensures
        res@ == sha256(bytes@),
{
    Sha256::digest(bytes).to_vec()
}

/// A hexadecimal digit.
pub open spec fn hex_digit(n: int) -> char {
    if n < 10 {
        ('0' as int + n) as char
    } else {
        ('a' as int + (n - 10)) as char
    }
}

/// Some bytes in hexadecimal digits, two for each.
pub open spec fn hex(bytes: Seq<u8>) -> Seq<char>
    decreases bytes.len(),
{
    if bytes.len() == 0 {
        Seq::empty()
    } else {
        hex(bytes.drop_last()) + seq![
            hex_digit(bytes.last() as int / 16),
            hex_digit(bytes.last() as int % 16),
        ]
    }
}

fn hex_digit_of(n: u8) -> (res: char)
    requires
        n < 16,
    ensures
        res == hex_digit(n as int),
{
    if n < 10 {
        (48 + n) as char
    } else {
        (97 + (n - 10)) as char
    }
}

/// Some bytes in hexadecimal digits.
pub fn write_hex(bytes: &Vec<u8>) -> (res: String)
    ensures
        res@ == hex(bytes@),
{
    let mut res = String::new();
    let mut i: usize = 0;
    while i < bytes.len()
        invariant
            i <= bytes@.len(),
            res@ == hex(bytes@.take(i as int)),
        decreases bytes@.len() - i,
    {
        let ghost before = res@;
        let b: u8 = bytes[i];
        res.push(hex_digit_of(b / 16));
        res.push(hex_digit_of(b % 16));
        proof {
            assert(bytes@.take(i + 1).drop_last() =~= bytes@.take(i as int));
            assert(res@ =~= hex(bytes@.take(i + 1)));
        }
        i = i + 1;
    }
    assert(bytes@.take(i as int) =~= bytes@);
    res
}

/// The name under which an authority is stored: it tells one authority from another.
pub open spec fn authority_name(ca: Seq<u8>) -> Result<Seq<char>, Seq<char>> {
    match pem_certificate(ca) {
        Ok(der) => Ok("ccs-proxy-"@ + hex(sha256(der))),
        Err(text) => Err(text),
    }
}

/// The name under which the authority in a PEM file is stored.
pub fn ca_name(ca: &[u8]) -> (res: Result<String, TrustError>)
    ensures
        match authority_name(ca@) {
            Ok(name) => res matches Ok(text) && text@ == name,
            Err(text) => res matches Err(TrustError::Failed(reason)) && reason@ == text,
        },
{
    match certificate_of(ca) {
        Ok(der) => {
            let digest = sha256_of(der.as_slice());
            let digits = write_hex(&digest);
            Ok(concatenate("ccs-proxy-", digits.as_str()))
        },
        Err(text) => Err(TrustError::Failed(text)),
    }
}

/// The pieces that are not empty.
pub open spec fn non_empty_pieces(pieces: Seq<Seq<char>>) -> Seq<Seq<char>>
    decreases pieces.len(),
{
    if pieces.len() == 0 {
        Seq::empty()
    } else {
        let before = non_empty_pieces(pieces.drop_last());
        if pieces.last().len() > 0 {
            before.push(pieces.last())
        } else {
            before
        }
    }
}

/// The words of a line.
pub open spec fn words(line: Seq<char>) -> Seq<Seq<char>> {
    non_empty_pieces(split(line, Separator::Whitespace))
}

/// The words of a line.
pub fn words_of(line: &str) -> (res: Vec<String>)
    ensures
        texts(res@) == words(line@),
{
    let pieces = split_text(line, Separator::Whitespace);
    let ghost all = texts(pieces@);
    let mut res: Vec<String> = Vec::new();
    let mut i: usize = 0;
    assert(all.take(0) =~= Seq::<Seq<char>>::empty());
    assert(texts(res@) =~= Seq::<Seq<char>>::empty());
    while i < pieces.len()
        invariant
            i <= pieces@.len(),
            all == texts(pieces@),
            texts(res@) == non_empty_pieces(all.take(i as int)),
        decreases pieces@.len() - i,
    {
        let ghost before = texts(res@);
        assert(all[i as int] == pieces@[i as int]@);
        assert(all.take(i + 1).drop_last() =~= all.take(i as int));
        if !pieces[i].as_str().is_empty() {
            res.push(pieces[i].clone());
            assert(texts(res@) =~= before.push(all[i as int]));
        }
        i = i + 1;
    }
    assert(all.take(i as int) =~= all);
    res
}

/// Whether a line of a database's list says that the entry `name` may vouch for servers: its first
/// word is the name, and the first of the comma-separated flags behind it holds a `C`.
pub open spec fn vouches(line: Seq<char>, name: Seq<char>) -> bool {
    let fields = words(line);
    &&& fields.len() >= 2
    &&& fields[0] == name
    &&& split(fields[1], Separator::Comma)[0].contains('C')
}

/// Whether one of the lines of a database's list says that the entry `name` may vouch for servers.
pub open spec fn list_vouches(list: Seq<char>, name: Seq<char>) -> bool {
    let lines = split(list, Separator::Newline);
    exists|i: int| 0 <= i < lines.len() && vouches(#[trigger] lines[i], name)
}

proof fn lemma_split_is_not_empty(s: Seq<char>, sep: Separator)
    ensures
        split(s, sep).len() > 0,
    decreases s.len(),
{
    if s.len() > 0 {
        lemma_split_is_not_empty(s.drop_last(), sep);
    }
}

fn has_flag(flags: &str) -> (res: bool)
    ensures
        res == split(flags@, Separator::Comma)[0].contains('C'),
{
    let parts = split_text(flags, Separator::Comma);
    proof {
        lemma_split_is_not_empty(flags@, Separator::Comma);
        assert(texts(parts@)[0] == parts@[0]@);
    }
    let chars = crate::text::chars_of(parts[0].as_str());
    let mut i: usize = 0;
    while i < chars.len()
        invariant
            i <= chars@.len(),
            chars@ == split(flags@, Separator::Comma)[0],
            forall|j: int| 0 <= j < i ==> chars@[j] != 'C',
        decreases chars@.len() - i,
    {
        if chars[i] == 'C' {
            assert(chars@.contains('C'));
            return true;
        }
        i = i + 1;
    }
    false
}

fn line_vouches(line: &str, name: &str) -> (res: bool)
    ensures
        res == vouches(line@, name@),
{
    let fields = words_of(line);
    if fields.len() < 2 {
        return false;
    }
    assert(texts(fields@)[0] == fields@[0]@);
    assert(texts(fields@)[1] == fields@[1]@);
    same_text(fields[0].as_str(), name) && has_flag(fields[1].as_str())
}

/// Whether a database's list says that the entry `name` may vouch for servers.
pub fn nss_list_trusts(list: &str, name: &str) -> (res: bool)
    ensures
        res == list_vouches(list@, name@),
{
    let lines = split_text(list, Separator::Newline);
    let ghost all = texts(lines@);
    let mut i: usize = 0;
    while i < lines.len()
        invariant
            i <= lines@.len(),
            all == texts(lines@),
            all == split(list@, Separator::Newline),
            forall|j: int| 0 <= j < i ==> !vouches(#[trigger] all[j], name@),
        decreases lines@.len() - i,
    {
        assert(all[i as int] == lines@[i as int]@);
        if line_vouches(lines[i].as_str(), name) {
            return true;
        }
        i = i + 1;
    }
    false
}

/// What is needed to check the trust on Linux, and to ask for it.
pub struct LinuxTrust {
    /// The path of the authority's certificate.
    pub ca_path: String,
    /// The path of the server certificate.
    pub cert_path: String,
    /// The authority's certificate, in PEM.
    pub ca: Vec<u8>,
    /// The browsers' databases.
    pub databases: Vec<String>,
}

/// What came of a command.
pub struct Outcome {
    pub success: bool,
    pub stdout: Vec<u8>,
}

/// What is to be done next.
pub enum TrustAction<T> {
    Run(Command),
    Finish(Result<T, TrustError>),
}

/// How a database is named to the tool that reads it.
pub open spec fn database_name(database: Seq<char>) -> Seq<char> {
    "sql:"@ + database
}

/// Asks OpenSSL whether the system trusts the server certificate. The variables that name other
/// authorities are kept from it.
pub open spec fn check_command(trust: LinuxTrust) -> CommandView {
    CommandView {
        program: "openssl"@,
        arguments: seq![
            "verify"@,
            "-purpose"@,
            "sslserver"@,
            "-verify_hostname"@,
            "localhost"@,
            "-untrusted"@,
            trust.ca_path@,
            trust.cert_path@,
        ],
        unset: seq!["SSL_CERT_FILE"@, "SSL_CERT_DIR"@],
    }
}

/// Shows the entry of the authority in a database.
pub open spec fn show_command(database: Seq<char>, name: Seq<char>) -> CommandView {
    plain_command(
        "certutil"@,
        seq!["-L"@, "-d"@, database_name(database), "-n"@, name, "-a"@],
    )
}

/// Lists the entries of a database with their flags.
pub open spec fn list_command(database: Seq<char>) -> CommandView {
    plain_command("certutil"@, seq!["-L"@, "-d"@, database_name(database)])
}

/// Adds the authority to a database, as one that may vouch for servers.
pub open spec fn add_command(database: Seq<char>, name: Seq<char>, ca_path: Seq<char>) -> CommandView {
    plain_command(
        "certutil"@,
        seq!["-A"@, "-d"@, database_name(database), "-n"@, name, "-t"@, "C,,"@, "-i"@, ca_path],
    )
}

fn run_check(trust: &LinuxTrust) -> (res: Command)
    ensures
        res@ == check_command(*trust),
{
    let arguments = vec![
        "verify".to_owned(),
        "-purpose".to_owned(),
        "sslserver".to_owned(),
        "-verify_hostname".to_owned(),
        "localhost".to_owned(),
        "-untrusted".to_owned(),
        trust.ca_path.clone(),
        trust.cert_path.clone(),
    ];
    let unset = vec!["SSL_CERT_FILE".to_owned(), "SSL_CERT_DIR".to_owned()];
    let res = Command { program: "openssl".to_owned(), arguments, unset };
    assert(res@.arguments =~= check_command(*trust).arguments);
    assert(res@.unset =~= check_command(*trust).unset);
    res
}

fn run_show(database: &str, name: &str) -> (res: Command)
    ensures
        res@ == show_command(database@, name@),
{
    let arguments = vec![
        "-L".to_owned(),
        "-d".to_owned(),
        concatenate("sql:", database),
        "-n".to_owned(),
        name.to_owned(),
        "-a".to_owned(),
    ];
    let res = command("certutil", arguments);
    assert(res@.arguments =~= show_command(database@, name@).arguments);
    res
}

fn run_list(database: &str) -> (res: Command)
    ensures
        res@ == list_command(database@),
{
    let arguments = vec!["-L".to_owned(), "-d".to_owned(), concatenate("sql:", database)];
    let res = command("certutil", arguments);
    assert(res@.arguments =~= list_command(database@).arguments);
    res
}

fn run_add(database: &str, name: &str, ca_path: &str) -> (res: Command)
    ensures
        res@ == add_command(database@, name@, ca_path@),
{
    let arguments = vec![
        "-A".to_owned(),
        "-d".to_owned(),
        concatenate("sql:", database),
        "-n".to_owned(),
        name.to_owned(),
        "-t".to_owned(),
        "C,,".to_owned(),
        "-i".to_owned(),
        ca_path.to_owned(),
    ];
    let res = command("certutil", arguments);
    assert(res@.arguments =~= add_command(database@, name@, ca_path@).arguments);
    res
}

/// Whether an entry that a database showed is the authority; or why that cannot be told.
pub open spec fn shows_authority(shown: Seq<u8>, ca: Seq<u8>) -> Result<bool, Seq<char>> {
    match pem_certificate(shown) {
        Err(text) => Err(text),
        Ok(entry) => match pem_certificate(ca) {
            Err(text) => Err(text),
            Ok(der) => Ok(entry == der),
        },
    }
}

fn is_authority(shown: &Vec<u8>, ca: &Vec<u8>) -> (res: Result<bool, TrustError>)
    ensures
        match shows_authority(shown@, ca@) {
            Ok(same) => res == Ok::<_, TrustError>(same),
            Err(text) => res matches Err(TrustError::Failed(reason)) && reason@ == text,
        },
{
    let entry = match certificate_of(shown.as_slice()) {
        Ok(entry) => entry,
        Err(text) => return Err(TrustError::Failed(text)),
    };
    match certificate_of(ca.as_slice()) {
        Ok(der) => Ok(same_bytes(&entry, &der)),
        Err(text) => Err(TrustError::Failed(text)),
    }
}

/// How far the check has come.
#[derive(Clone, Copy)]
pub enum CheckStage {
    /// OpenSSL is asked.
    Verifying,
    /// The entry in this database is shown.
    Showing(usize),
    /// The entries of this database are listed.
    Listing(usize),
    Finished,
}

/// A step of the check.
pub struct CheckStep {
    pub stage: CheckStage,
    pub action: TrustAction<bool>,
}

/// Whether the check ends with this answer.
pub open spec fn answers(step: CheckStep, trusted: bool) -> bool {
    step.stage is Finished && step.action == TrustAction::Finish(Ok(trusted))
}

/// Whether the check ends because something failed for this reason.
pub open spec fn check_fails(step: CheckStep, text: Seq<char>) -> bool {
    &&& step.stage is Finished
    &&& step.action matches TrustAction::Finish(Err(TrustError::Failed(reason)))
    &&& reason@ == text
}

/// Whether the check goes on with a database, or ends well if there is none left.
pub open spec fn checks_database(trust: LinuxTrust, database: int, step: CheckStep) -> bool {
    if database >= trust.databases@.len() {
        answers(step, true)
    } else {
        match authority_name(trust.ca@) {
            Err(text) => check_fails(step, text),
            Ok(name) => {
                &&& step.stage == CheckStage::Showing(database as usize)
                &&& step.action matches TrustAction::Run(command)
                &&& command@ == show_command(trust.databases@[database]@, name)
            },
        }
    }
}

/// Whether a stage waits for the outcome of a command on these databases.
pub open spec fn check_is_running(trust: LinuxTrust, stage: CheckStage) -> bool {
    match stage {
        CheckStage::Verifying => true,
        CheckStage::Showing(database) | CheckStage::Listing(database) => database
            < trust.databases@.len(),
        CheckStage::Finished => false,
    }
}

/// Whether `step` is what follows on the outcome of a command.
pub open spec fn check_follows(
    trust: LinuxTrust,
    stage: CheckStage,
    outcome: Outcome,
    step: CheckStep,
) -> bool {
    match stage {
        CheckStage::Verifying => if outcome.success {
            checks_database(trust, 0, step)
        } else {
            answers(step, false)
        },
        CheckStage::Showing(database) => if !outcome.success {
            answers(step, false)
        } else {
            match shows_authority(outcome.stdout@, trust.ca@) {
                Err(text) => check_fails(step, text),
                Ok(false) => answers(step, false),
                Ok(true) => {
                    &&& step.stage == CheckStage::Listing(database)
                    &&& step.action matches TrustAction::Run(command)
                    &&& command@ == list_command(trust.databases@[database as int]@)
                },
            }
        },
        CheckStage::Listing(database) => if !outcome.success {
            &&& step.stage is Finished
            &&& step.action == TrustAction::<bool>::Finish(Err(TrustError::UnreadableDatabase))
        } else {
            match authority_name(trust.ca@) {
                Err(text) => check_fails(step, text),
                Ok(name) => if list_vouches(utf8_lossy(outcome.stdout@), name) {
                    checks_database(trust, database + 1, step)
                } else {
                    answers(step, false)
                },
            }
        },
        CheckStage::Finished => false,
    }
}

fn check_database(trust: &LinuxTrust, database: usize) -> (res: CheckStep)
    ensures
        checks_database(*trust, database as int, res),
{
    if database >= trust.databases.len() {
        return CheckStep { stage: CheckStage::Finished, action: TrustAction::Finish(Ok(true)) };
    }
    match ca_name(trust.ca.as_slice()) {
        Err(error) => CheckStep {
            stage: CheckStage::Finished,
            action: TrustAction::Finish(Err(error)),
        },
        Ok(name) => CheckStep {
            stage: CheckStage::Showing(database),
            action: TrustAction::Run(run_show(trust.databases[database].as_str(), name.as_str())),
        },
    }
}

/// Starts to check whether the system and the browsers trust the server certificate.
pub fn begin_check(trust: &LinuxTrust) -> (res: CheckStep)
    ensures
        res.stage is Verifying,
        res.action matches TrustAction::Run(command) && command@ == check_command(*trust),
{
    CheckStep { stage: CheckStage::Verifying, action: TrustAction::Run(run_check(trust)) }
}

/// Goes on with the check after a command.
pub fn continue_check(trust: &LinuxTrust, stage: CheckStage, outcome: &Outcome) -> (res: CheckStep)
    requires
        check_is_running(*trust, stage),
    ensures
        check_follows(*trust, stage, *outcome, res),
        check_is_running(*trust, res.stage) || res.stage is Finished,
{
    match stage {
        CheckStage::Verifying => {
            if outcome.success {
                return check_database(trust, 0);
            }
        },
        CheckStage::Showing(database) => {
            if outcome.success {
                match is_authority(&outcome.stdout, &trust.ca) {
                    Err(error) => {
                        return CheckStep {
                            stage: CheckStage::Finished,
                            action: TrustAction::Finish(Err(error)),
                        };
                    },
                    Ok(true) => {
                        return CheckStep {
                            stage: CheckStage::Listing(database),
                            action: TrustAction::Run(run_list(trust.databases[database].as_str())),
                        };
                    },
                    Ok(false) => {},
                }
            }
        },
        CheckStage::Listing(database) => {
            if !outcome.success {
                return CheckStep {
                    stage: CheckStage::Finished,
                    action: TrustAction::Finish(Err(TrustError::UnreadableDatabase)),
                };
            }
            let list = from_utf8_lossy(outcome.stdout.as_slice());
            match ca_name(trust.ca.as_slice()) {
                Ok(name) => {
                    if nss_list_trusts(list.as_str(), name.as_str()) {
                        let count: usize = trust.databases.len();
                        assert(database < count);
                        return check_database(trust, database + 1);
                    }
                },
                Err(error) => {
                    return CheckStep {
                        stage: CheckStage::Finished,
                        action: TrustAction::Finish(Err(error)),
                    };
                },
            }
        },
        CheckStage::Finished => {},
    }
    CheckStep { stage: CheckStage::Finished, action: TrustAction::Finish(Ok(false)) }
}

/// A run of the check: steps and the outcomes between them.
pub open spec fn is_check_run(
    trust: LinuxTrust,
    steps: Seq<CheckStep>,
    outcomes: Seq<Outcome>,
) -> bool {
    &&& steps.len() == outcomes.len() + 1
    &&& steps[0].stage is Verifying
    &&& steps[0].action is Run
    &&& forall|k: int|
        0 <= k < outcomes.len() ==> #[trigger] check_follows(
            trust,
            steps[k].stage,
            outcomes[k],
            steps[k + 1],
        )
}

/// Whether the outcomes show that a database holds the authority as one that may vouch for servers.
pub open spec fn database_trusts(
    trust: LinuxTrust,
    steps: Seq<CheckStep>,
    outcomes: Seq<Outcome>,
    database: int,
) -> bool {
    exists|k: int| #[trigger] lists_authority(trust, steps, outcomes, database, k)
}

/// Whether outcome `k` is the list of a database that showed the authority, and lets it vouch for
/// servers.
pub open spec fn lists_authority(
    trust: LinuxTrust,
    steps: Seq<CheckStep>,
    outcomes: Seq<Outcome>,
    database: int,
    k: int,
) -> bool {
    &&& 1 < k < outcomes.len()
    &&& steps[k - 1].stage == CheckStage::Showing(database as usize)
    &&& outcomes[k - 1].success
    &&& shows_authority(outcomes[k - 1].stdout@, trust.ca@) == Ok::<_, Seq<char>>(true)
    &&& steps[k].stage == CheckStage::Listing(database as usize)
    &&& outcomes[k].success
    &&& authority_name(trust.ca@) matches Ok(name) && list_vouches(
        utf8_lossy(outcomes[k].stdout@),
        name,
    )
}

/// How many databases are known to trust the authority at a stage.
spec fn trusting_databases(trust: LinuxTrust, step: CheckStep) -> int {
    match step.stage {
        CheckStage::Verifying => 0,
        CheckStage::Showing(database) | CheckStage::Listing(database) => database as int,
        CheckStage::Finished => if step.action == TrustAction::<bool>::Finish(Ok(true)) {
            trust.databases@.len() as int
        } else {
            0
        },
    }
}

proof fn lemma_check_run(
    trust: LinuxTrust,
    steps: Seq<CheckStep>,
    outcomes: Seq<Outcome>,
    k: int,
    database: int,
)
    requires
        is_check_run(trust, steps, outcomes),
        0 <= k < steps.len(),
    ensures
        0 <= database < trusting_databases(trust, steps[k]) ==> database_trusts(
            trust,
            steps,
            outcomes,
            database,
        ),
        k > 0 ==> !(steps[k].stage is Verifying),
        k > 0 && (steps[k].stage is Showing || steps[k].stage is Listing || steps[k].action
            == TrustAction::<bool>::Finish(Ok(true))) ==> outcomes[0].success,
        steps[k].stage matches CheckStage::Listing(shown) ==> k > 1 && steps[k - 1].stage
            == CheckStage::Showing(shown) && outcomes[k - 1].success && shows_authority(
            outcomes[k - 1].stdout@,
            trust.ca@,
        ) == Ok::<_, Seq<char>>(true),
        steps[k].stage matches CheckStage::Showing(shown) ==> shown < trust.databases@.len(),
        steps[k].stage matches CheckStage::Listing(shown) ==> shown < trust.databases@.len(),
    decreases k,
{
    if k > 0 {
        lemma_check_run(trust, steps, outcomes, k - 1, database);
        assert(check_follows(trust, steps[k - 1].stage, outcomes[k - 1], steps[k - 1 + 1]));
        if let CheckStage::Listing(listed) = steps[k - 1].stage {
            if database == listed as int && trusting_databases(trust, steps[k]) > listed {
                assert(lists_authority(trust, steps, outcomes, database, k - 1));
            }
        }
    }
}

/// The certificates count as trusted only if OpenSSL accepts them with the system's authorities, and
/// every browser's database holds the authority as one that may vouch for servers.
pub proof fn trusted_means_trusted_everywhere(
    trust: LinuxTrust,
    steps: Seq<CheckStep>,
    outcomes: Seq<Outcome>,
    database: int,
)
    requires
        is_check_run(trust, steps, outcomes),
        answers(steps.last(), true),
    ensures
        outcomes[0].success,
        0 <= database < trust.databases@.len() ==> database_trusts(
            trust,
            steps,
            outcomes,
            database,
        ),
{
    lemma_check_run(trust, steps, outcomes, steps.len() - 1, database);
}

/// How the administrator's command is run.
pub enum Authorization {
    /// The user is the administrator.
    Root,
    /// A window asks for the password.
    Desktop,
    /// The terminal asks for the password.
    Terminal,
}

/// How the administrator's command can be run: directly, through `pkexec` in a graphical session,
/// or through `sudo`.
pub open spec fn authorization(root: bool, graphical: bool, pkexec: bool, sudo: bool) -> Option<
    Authorization,
> {
    if root {
        Some(Authorization::Root)
    } else if graphical && pkexec {
        Some(Authorization::Desktop)
    } else if sudo {
        Some(Authorization::Terminal)
    } else {
        None
    }
}

fn authorize(root: bool, graphical: bool, pkexec: bool, sudo: bool) -> (res: Option<Authorization>)
    ensures
        res == authorization(root, graphical, pkexec, sudo),
{
    if root {
        Some(Authorization::Root)
    } else if graphical && pkexec {
        Some(Authorization::Desktop)
    } else if sudo {
        Some(Authorization::Terminal)
    } else {
        None
    }
}

/// The script that the administrator runs: it puts a file in its place, and runs the command that
/// takes it up. All paths are arguments; none is part of the script.
pub const INSTALL_SCRIPT: &'static str =
    "set -eu; source=$1; destination=$2; shift 2; install -D -m 0644 -- \"$source\" \"$destination\"; exec \"$@\"";

/// The command that runs a shell as the administrator.
pub open spec fn shell(authorization: Authorization) -> CommandView {
    match authorization {
        Authorization::Root => plain_command("/bin/sh"@, seq![]),
        Authorization::Desktop => plain_command("pkexec"@, seq!["/bin/sh"@]),
        Authorization::Terminal => plain_command("sudo"@, seq!["--"@, "/bin/sh"@]),
    }
}

/// The command that installs the authority in the system's store.
pub open spec fn install_command(
    authorization: Authorization,
    ca_path: Seq<char>,
    destination: Seq<char>,
    store: LinuxStoreView,
) -> CommandView {
    let shell = shell(authorization);
    plain_command(
        shell.program,
        shell.arguments + seq![
            "-c"@,
            INSTALL_SCRIPT@,
            "ccs-proxy-trust"@,
            ca_path,
            destination,
            store.update,
        ] + store.args,
    )
}

fn run_install(
    authorization: Authorization,
    ca_path: &str,
    destination: &str,
    store: &LinuxStore,
) -> (res: Command)
    ensures
        res@ == install_command(authorization, ca_path@, destination@, store@),
{
    let ghost shell = shell(authorization);
    let mut arguments: Vec<String> = Vec::new();
    let program = match authorization {
        Authorization::Root => "/bin/sh",
        Authorization::Desktop => {
            arguments.push("/bin/sh".to_owned());
            "pkexec"
        },
        Authorization::Terminal => {
            arguments.push("--".to_owned());
            arguments.push("/bin/sh".to_owned());
            "sudo"
        },
    };
    assert(texts(arguments@) =~= shell.arguments);
    arguments.push("-c".to_owned());
    arguments.push(INSTALL_SCRIPT.to_owned());
    arguments.push("ccs-proxy-trust".to_owned());
    arguments.push(ca_path.to_owned());
    arguments.push(destination.to_owned());
    arguments.push(store.update.clone());
    let ghost first = shell.arguments + seq![
        "-c"@,
        INSTALL_SCRIPT@,
        "ccs-proxy-trust"@,
        ca_path@,
        destination@,
        store.update@,
    ];
    let ghost last = texts(store.args@);
    assert(texts(arguments@) =~= first);
    let mut i: usize = 0;
    assert(first + last.take(0) =~= first);
    while i < store.args.len()
        invariant
            i <= store.args@.len(),
            last == texts(store.args@),
            texts(arguments@) == first + last.take(i as int),
        decreases store.args@.len() - i,
    {
        let ghost before = texts(arguments@);
        arguments.push(store.args[i].clone());
        assert(texts(arguments@) =~= before.push(store.args@[i as int]@));
        assert(last[i as int] == store.args@[i as int]@);
        assert(last.take(i + 1) =~= last.take(i as int).push(last[i as int]));
        assert(texts(arguments@) =~= first + last.take(i + 1));
        i = i + 1;
    }
    assert(last.take(i as int) =~= last);
    command(program, arguments)
}

/// What is known of the system before the administrator is asked.
pub struct Session {
    /// Whether there is a graphical session.
    pub graphical: bool,
    /// Whether `pkexec` can be run.
    pub pkexec: bool,
    /// Whether `sudo` can be run.
    pub sudo: bool,
}

/// How far the request has come.
#[derive(Clone, Copy)]
pub enum RequestStage {
    /// The entry in this database is shown.
    Showing(usize),
    /// The entries of this database are listed.
    Listing(usize),
    /// The user is identified.
    Identifying,
    /// The authority is put into the system's store.
    Installing,
    /// The authority is put into this database.
    Adding(usize),
    Finished,
}

/// A step of the request.
pub struct RequestStep {
    pub stage: RequestStage,
    pub action: TrustAction<()>,
}

/// Whether the request ends with this error.
pub open spec fn request_ends(step: RequestStep, error: TrustError) -> bool {
    step.stage is Finished && step.action == TrustAction::<()>::Finish(Err(error))
}

/// Whether the request ends because something failed for this reason.
pub open spec fn request_fails(step: RequestStep, text: Seq<char>) -> bool {
    &&& step.stage is Finished
    &&& step.action matches TrustAction::Finish(Err(TrustError::Failed(reason)))
    &&& reason@ == text
}

/// Whether the request goes on by looking at a database, or by identifying the user if there is
/// none left.
pub open spec fn inspects(trust: LinuxTrust, database: int, step: RequestStep) -> bool {
    match authority_name(trust.ca@) {
        Err(text) => request_fails(step, text),
        Ok(name) => {
            &&& step.action matches TrustAction::Run(command)
            &&& if database < trust.databases@.len() {
                &&& step.stage == RequestStage::Showing(database as usize)
                &&& command@ == show_command(trust.databases@[database]@, name)
            } else {
                &&& step.stage is Identifying
                &&& command@ == plain_command("id"@, seq!["-u"@])
            }
        },
    }
}

/// Whether the request goes on by adding the authority to a database, or ends well if there is none
/// left.
pub open spec fn adds(trust: LinuxTrust, database: int, step: RequestStep) -> bool {
    if database >= trust.databases@.len() {
        step.stage is Finished && step.action == TrustAction::<()>::Finish(Ok(()))
    } else {
        match authority_name(trust.ca@) {
            Err(text) => request_fails(step, text),
            Ok(name) => {
                &&& step.stage == RequestStage::Adding(database as usize)
                &&& step.action matches TrustAction::Run(command)
                &&& command@ == add_command(trust.databases@[database]@, name, trust.ca_path@)
            },
        }
    }
}

/// Whether the request goes on by installing the authority.
pub open spec fn installs(
    trust: LinuxTrust,
    store: LinuxStoreView,
    session: Session,
    root: bool,
    step: RequestStep,
) -> bool {
    match authority_name(trust.ca@) {
        Err(text) => request_fails(step, text),
        Ok(name) => match authorization(root, session.graphical, session.pkexec, session.sudo) {
            None => request_ends(step, TrustError::MissingAuthorization),
            Some(authorization) => {
                &&& step.stage is Installing
                &&& step.action matches TrustAction::Run(command)
                &&& command@ == install_command(
                    authorization,
                    trust.ca_path@,
                    path_below(store.directory, name + ".crt"@),
                    store,
                )
            },
        },
    }
}

/// What `id -u` writes for the administrator.
pub open spec fn is_root_id(stdout: Seq<u8>) -> bool {
    stdout == seq![48u8, 10u8]
}

/// Whether a stage waits for the outcome of a command on these databases.
pub open spec fn request_is_running(trust: LinuxTrust, stage: RequestStage) -> bool {
    match stage {
        RequestStage::Showing(database) | RequestStage::Listing(database)
        | RequestStage::Adding(database) => database < trust.databases@.len(),
        RequestStage::Identifying | RequestStage::Installing => true,
        RequestStage::Finished => false,
    }
}

/// Whether `step` is what follows on the outcome of a command.
pub open spec fn request_follows(
    trust: LinuxTrust,
    store: LinuxStoreView,
    session: Session,
    stage: RequestStage,
    outcome: Outcome,
    step: RequestStep,
) -> bool {
    match stage {
        RequestStage::Showing(database) => if !outcome.success {
            inspects(trust, database + 1, step)
        } else {
            match shows_authority(outcome.stdout@, trust.ca@) {
                Err(text) => request_fails(step, text),
                Ok(false) => inspects(trust, database + 1, step),
                Ok(true) => {
                    &&& step.stage == RequestStage::Listing(database)
                    &&& step.action matches TrustAction::Run(command)
                    &&& command@ == list_command(trust.databases@[database as int]@)
                },
            }
        },
        RequestStage::Listing(database) => if outcome.success {
            inspects(trust, database + 1, step)
        } else {
            request_ends(step, TrustError::UnreadableDatabase)
        },
        RequestStage::Identifying => if outcome.success {
            installs(trust, store, session, is_root_id(outcome.stdout@), step)
        } else {
            request_ends(step, TrustError::UnknownUser)
        },
        RequestStage::Installing => if outcome.success {
            adds(trust, 0, step)
        } else {
            request_ends(step, TrustError::LinuxDeclined)
        },
        RequestStage::Adding(database) => if outcome.success {
            adds(trust, database + 1, step)
        } else {
            request_ends(step, TrustError::DatabaseNotChanged)
        },
        RequestStage::Finished => false,
    }
}

fn end_request(error: TrustError) -> (res: RequestStep)
    ensures
        request_ends(res, error),
{
    RequestStep { stage: RequestStage::Finished, action: TrustAction::Finish(Err(error)) }
}

fn inspect(trust: &LinuxTrust, database: usize) -> (res: RequestStep)
    ensures
        inspects(*trust, database as int, res),
{
    let name = match ca_name(trust.ca.as_slice()) {
        Ok(name) => name,
        Err(error) => return end_request(error),
    };
    if database < trust.databases.len() {
        return RequestStep {
            stage: RequestStage::Showing(database),
            action: TrustAction::Run(run_show(trust.databases[database].as_str(), name.as_str())),
        };
    }
    let identify = command("id", vec!["-u".to_owned()]);
    assert(identify@.arguments =~= seq!["-u"@]);
    RequestStep { stage: RequestStage::Identifying, action: TrustAction::Run(identify) }
}

fn add_to_database(trust: &LinuxTrust, database: usize) -> (res: RequestStep)
    ensures
        adds(*trust, database as int, res),
{
    if database >= trust.databases.len() {
        return RequestStep { stage: RequestStage::Finished, action: TrustAction::Finish(Ok(())) };
    }
    match ca_name(trust.ca.as_slice()) {
        Err(error) => end_request(error),
        Ok(name) => RequestStep {
            stage: RequestStage::Adding(database),
            action: TrustAction::Run(
                run_add(
                    trust.databases[database].as_str(),
                    name.as_str(),
                    trust.ca_path.as_str(),
                ),
            ),
        },
    }
}

fn install(trust: &LinuxTrust, store: &LinuxStore, session: &Session, root: bool) -> (res:
    RequestStep)
    ensures
        installs(*trust, store@, *session, root, res),
{
    let name = match ca_name(trust.ca.as_slice()) {
        Ok(name) => name,
        Err(error) => return end_request(error),
    };
    let authorization = match authorize(
        root,
        session.graphical,
        session.pkexec,
        session.sudo,
    ) {
        Some(authorization) => authorization,
        None => return end_request(TrustError::MissingAuthorization),
    };
    let file = concatenate(name.as_str(), ".crt");
    let destination = below(store.directory.as_str(), file.as_str());
    let command = run_install(authorization, trust.ca_path.as_str(), destination.as_str(), store);
    RequestStep { stage: RequestStage::Installing, action: TrustAction::Run(command) }
}

/// Starts to ask for the trust of the system and the browsers.
pub fn begin_request(trust: &LinuxTrust) -> (res: RequestStep)
    ensures
        inspects(*trust, 0, res),
        request_is_running(*trust, res.stage) || res.stage is Finished,
{
    inspect(trust, 0)
}

/// Goes on with the request after a command.
pub fn continue_request(
    trust: &LinuxTrust,
    store: &LinuxStore,
    session: &Session,
    stage: RequestStage,
    outcome: &Outcome,
) -> (res: RequestStep)
    requires
        request_is_running(*trust, stage),
    ensures
        request_follows(*trust, store@, *session, stage, *outcome, res),
        request_is_running(*trust, res.stage) || res.stage is Finished,
{
    let count: usize = trust.databases.len();
    match stage {
        RequestStage::Showing(database) => {
            assert(database < count);
            if outcome.success {
                match is_authority(&outcome.stdout, &trust.ca) {
                    Err(error) => return end_request(error),
                    Ok(true) => {
                        return RequestStep {
                            stage: RequestStage::Listing(database),
                            action: TrustAction::Run(run_list(trust.databases[database].as_str())),
                        };
                    },
                    Ok(false) => {},
                }
            }
            inspect(trust, database + 1)
        },
        RequestStage::Listing(database) => {
            assert(database < count);
            if outcome.success {
                inspect(trust, database + 1)
            } else {
                end_request(TrustError::UnreadableDatabase)
            }
        },
        RequestStage::Identifying => {
            if outcome.success {
                let root_id: Vec<u8> = vec![48, 10];
                assert(root_id@ =~= seq![48u8, 10u8]);
                let root = same_bytes(&outcome.stdout, &root_id);
                install(trust, store, session, root)
            } else {
                end_request(TrustError::UnknownUser)
            }
        },
        RequestStage::Installing => {
            if outcome.success {
                add_to_database(trust, 0)
            } else {
                end_request(TrustError::LinuxDeclined)
            }
        },
        RequestStage::Adding(database) => {
            assert(database < count);
            if outcome.success {
                add_to_database(trust, database + 1)
            } else {
                end_request(TrustError::DatabaseNotChanged)
            }
        },
        RequestStage::Finished => end_request(TrustError::LinuxDeclined),
    }
}

/// How far a stage is along the way.
spec fn request_rank(trust: LinuxTrust, stage: RequestStage) -> int {
    let count = trust.databases@.len();
    match stage {
        RequestStage::Showing(database) => 2 * database as int,
        RequestStage::Listing(database) => 2 * database as int + 1,
        RequestStage::Identifying => 2 * count as int,
        RequestStage::Installing => 2 * count as int + 1,
        RequestStage::Adding(database) => 2 * count as int + 2 + database as int,
        RequestStage::Finished => 3 * count as int + 3,
    }
}

/// A run of the request: steps and the outcomes between them.
pub open spec fn is_request_run(
    trust: LinuxTrust,
    store: LinuxStoreView,
    session: Session,
    steps: Seq<RequestStep>,
    outcomes: Seq<Outcome>,
) -> bool {
    &&& steps.len() == outcomes.len() + 1
    &&& inspects(trust, 0, steps[0])
    &&& forall|k: int|
        0 <= k < outcomes.len() ==> #[trigger] request_follows(
            trust,
            store,
            session,
            steps[k].stage,
            outcomes[k],
            steps[k + 1],
        )
}

/// The system's store and the browsers' databases are changed only after every database has been
/// looked at, and the databases only after the system's store.
pub proof fn changes_come_last(
    trust: LinuxTrust,
    store: LinuxStoreView,
    session: Session,
    steps: Seq<RequestStep>,
    outcomes: Seq<Outcome>,
    i: int,
    j: int,
)
    requires
        is_request_run(trust, store, session, steps, outcomes),
        0 <= i < j < steps.len(),
    ensures
        steps[i].stage is Installing ==> !(steps[j].stage is Showing || steps[j].stage is Listing
            || steps[j].stage is Installing),
        steps[i].stage is Adding ==> !(steps[j].stage is Showing || steps[j].stage is Listing
            || steps[j].stage is Installing),
{
    lemma_request_leads_on(trust, store, session, steps, outcomes, i, i);
    lemma_request_leads_on(trust, store, session, steps, outcomes, i, j);
}

proof fn lemma_request_leads_on(
    trust: LinuxTrust,
    store: LinuxStoreView,
    session: Session,
    steps: Seq<RequestStep>,
    outcomes: Seq<Outcome>,
    i: int,
    j: int,
)
    requires
        is_request_run(trust, store, session, steps, outcomes),
        0 <= i <= j < steps.len(),
    ensures
        request_is_running(trust, steps[j].stage) || steps[j].stage is Finished,
        request_rank(trust, steps[j].stage) >= request_rank(trust, steps[i].stage) + (j - i),
    decreases j,
{
    if j > 0 {
        if i < j {
            lemma_request_leads_on(trust, store, session, steps, outcomes, i, j - 1);
        } else {
            lemma_request_leads_on(trust, store, session, steps, outcomes, j - 1, j - 1);
        }
        assert(request_follows(
            trust,
            store,
            session,
            steps[j - 1].stage,
            outcomes[j - 1],
            steps[j - 1 + 1],
        ));
        assert(trust.databases.len() == trust.databases@.len());
    }
}

} // verus!
