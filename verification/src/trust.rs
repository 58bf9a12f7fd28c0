//! How the system is asked whether it trusts the local certificates, and to do so: the commands on
//! macOS and Windows, and what their outcome means.
use base64::Engine;
use vstd::prelude::*;

use crate::certificates::{certificate_of, pem_certificate, SECTION_LIMIT};
use crate::error::TrustError;
use crate::preview::{from_utf8_lossy, utf8_lossy};
use crate::text::{concatenate, texts, trim, trimmed, Separator};

verus! {

/// A command to run.
pub struct Command {
    pub program: String,
    pub arguments: Vec<String>,
    /// Environment variables that the command must not see.
    pub unset: Vec<String>,
}

/// A command to run.
pub struct CommandView {
    pub program: Seq<char>,
    pub arguments: Seq<Seq<char>>,
    pub unset: Seq<Seq<char>>,
}

impl View for Command {
    type V = CommandView;

    open spec fn view(&self) -> CommandView {
        CommandView {
            program: self.program@,
            arguments: texts(self.arguments@),
            unset: texts(self.unset@),
        }
    }
}

/// A command that sees the whole environment.
pub open spec fn plain_command(program: Seq<char>, arguments: Seq<Seq<char>>) -> CommandView {
    CommandView { program, arguments, unset: Seq::empty() }
}

/// A command that sees the whole environment.
pub(crate) fn command(program: &str, arguments: Vec<String>) -> (res: Command)
    ensures
        res@ == plain_command(program@, texts(arguments@)),
{
    let res = Command { program: program.to_owned(), arguments, unset: Vec::new() };
    assert(texts(res.unset@) =~= Seq::<Seq<char>>::empty());
    res
}

/// Asks macOS whether it trusts the server certificate. The authority is not given as a root: that
/// would stand in for its trust.
pub fn macos_check(ca: &str, cert: &str) -> (res: Command)
    ensures
        res@ == plain_command(
            "/usr/bin/security"@,
            seq![
                "verify-cert"@,
                "-q"@,
                "-L"@,
                "-p"@,
                "ssl"@,
                "-n"@,
                "localhost"@,
                "-c"@,
                cert@,
                "-c"@,
                ca@,
            ],
        ),
{
    let arguments = vec![
        "verify-cert".to_owned(),
        "-q".to_owned(),
        "-L".to_owned(),
        "-p".to_owned(),
        "ssl".to_owned(),
        "-n".to_owned(),
        "localhost".to_owned(),
        "-c".to_owned(),
        cert.to_owned(),
        "-c".to_owned(),
        ca.to_owned(),
    ];
    let res = command("/usr/bin/security", arguments);
    assert(res@.arguments =~= seq![
        "verify-cert"@,
        "-q"@,
        "-L"@,
        "-p"@,
        "ssl"@,
        "-n"@,
        "localhost"@,
        "-c"@,
        cert@,
        "-c"@,
        ca@,
    ]);
    res
}

/// Asks macOS to trust the local authority, in the user's keychain.
pub fn macos_request(keychain: &str, ca: &str) -> (res: Command)
    ensures
        res@ == plain_command(
            "/usr/bin/security"@,
            seq!["add-trusted-cert"@, "-r"@, "trustRoot"@, "-k"@, keychain@, ca@],
        ),
{
    let arguments = vec![
        "add-trusted-cert".to_owned(),
        "-r".to_owned(),
        "trustRoot".to_owned(),
        "-k".to_owned(),
        keychain.to_owned(),
        ca.to_owned(),
    ];
    let res = command("/usr/bin/security", arguments);
    assert(res@.arguments =~= seq![
        "add-trusted-cert"@,
        "-r"@,
        "trustRoot"@,
        "-k"@,
        keychain@,
        ca@,
    ]);
    res
}

/// What comes of asking macOS to trust the local authority, given what the tool wrote.
pub fn macos_requested(success: bool, stderr: &[u8]) -> (res: Result<(), TrustError>)
    ensures
        if success {
            res is Ok
        } else {
            res matches Err(TrustError::MacDeclined(reason)) && reason@ == trimmed(
                utf8_lossy(stderr@),
                Separator::Whitespace,
            )
        },
{
    if success {
        return Ok(());
    }
    let text = from_utf8_lossy(stderr);
    Err(TrustError::MacDeclined(trim(text.as_str(), Separator::Whitespace)))
}

/// A script for Windows PowerShell. It stops at the first error.
pub fn powershell(script: &str) -> (res: Command)
    ensures
        res@ == powershell_command(script@),
{
    let arguments = vec![
        "-NoLogo".to_owned(),
        "-NoProfile".to_owned(),
        "-NonInteractive".to_owned(),
        "-Command".to_owned(),
        concatenate("$ErrorActionPreference = 'Stop'; ", script),
    ];
    let res = command("powershell.exe", arguments);
    assert(res@.arguments =~= seq![
        "-NoLogo"@,
        "-NoProfile"@,
        "-NonInteractive"@,
        "-Command"@,
        "$ErrorActionPreference = 'Stop'; "@ + script@,
    ]);
    res
}

/// The command that runs a script.
pub open spec fn powershell_command(script: Seq<char>) -> CommandView {
    plain_command(
        "powershell.exe"@,
        seq![
            "-NoLogo"@,
            "-NoProfile"@,
            "-NonInteractive"@,
            "-Command"@,
            "$ErrorActionPreference = 'Stop'; "@ + script,
        ],
    )
}

/// The environment variable with the certificate of the local authority.
pub const AUTHORITY_VARIABLE: &'static str = "CCS_TLS_CA";

/// The environment variable with the server certificate.
pub const SERVER_VARIABLE: &'static str = "CCS_TLS_LEAF";

/// The environment variable with the certificate directory.
pub const DIRECTORY_VARIABLE: &'static str = "CCS_TLS_DIRECTORY";

/// Builds the chain of the server certificate, and says no unless it ends at the local authority.
pub const CHECK_SCRIPT: &'static str = r#"
$ca = [System.Security.Cryptography.X509Certificates.X509Certificate2]::new([Convert]::FromBase64String($env:CCS_TLS_CA))
$leaf = [System.Security.Cryptography.X509Certificates.X509Certificate2]::new([Convert]::FromBase64String($env:CCS_TLS_LEAF))
$chain = [System.Security.Cryptography.X509Certificates.X509Chain]::new()
$chain.ChainPolicy.RevocationMode = 'NoCheck'
$chain.ChainPolicy.VerificationFlags = 'NoFlag'
$chain.ChainPolicy.ApplicationPolicy.Add(([System.Security.Cryptography.Oid]::new('1.3.6.1.5.5.7.3.1')))
[void]$chain.ChainPolicy.ExtraStore.Add($ca)
$ok = $chain.Build($leaf)
if ($ok -and $chain.ChainElements[$chain.ChainElements.Count - 1].Certificate.Thumbprint -eq $ca.Thumbprint) { exit 0 }
exit 10
"#;

/// Asks the user, and adds the local authority to the user's trusted roots.
pub const REQUEST_SCRIPT: &'static str = r#"
$ca = [System.Security.Cryptography.X509Certificates.X509Certificate2]::new([Convert]::FromBase64String($env:CCS_TLS_CA))
Add-Type -AssemblyName PresentationFramework
$message = 'CCS Proxy needs to trust its local CA to serve https://localhost:8000.' + [Environment]::NewLine + 'Only the current user certificate store is modified.' + [Environment]::NewLine + 'SHA-1: ' + $ca.Thumbprint
if ([System.Windows.MessageBox]::Show($message, 'CCS Proxy - Local HTTPS Certificate', 'YesNo', 'Question') -ne 'Yes') { exit 10 }
$store = [System.Security.Cryptography.X509Certificates.X509Store]::new('Root', 'CurrentUser')
try { $store.Open('ReadWrite'); $store.Add($ca) } finally { $store.Close() }
"#;

/// Leaves the certificate directory to this user alone.
pub const PROTECT_SCRIPT: &'static str = r#"
$path = $env:CCS_TLS_DIRECTORY
$sid = [System.Security.Principal.WindowsIdentity]::GetCurrent().User
$acl = [System.Security.AccessControl.DirectorySecurity]::new()
$acl.SetAccessRuleProtection($true, $false)
$rule = [System.Security.AccessControl.FileSystemAccessRule]::new($sid, 'FullControl', 'ContainerInherit,ObjectInherit', 'None', 'Allow')
$acl.AddAccessRule($rule)
[System.IO.Directory]::SetAccessControl($path, $acl)
"#;

/// Asks Windows whether it trusts the server certificate.
pub fn windows_check() -> (res: Command)
    ensures
        res@ == powershell_command(CHECK_SCRIPT@),
{
    powershell(CHECK_SCRIPT)
}

/// Asks the user to let Windows trust the local authority.
pub fn windows_request() -> (res: Command)
    ensures
        res@ == powershell_command(REQUEST_SCRIPT@),
{
    powershell(REQUEST_SCRIPT)
}

/// Protects the certificate directory on Windows.
pub fn protect_directory() -> (res: Command)
    ensures
        res@ == powershell_command(PROTECT_SCRIPT@),
{
    powershell(PROTECT_SCRIPT)
}

/// The exit code with which a script says no.
pub const NO: i32 = 10;

/// Whether Windows trusts the server certificate, given how the script that asks it ended.
pub fn windows_checked(success: bool, code: Option<i32>, stderr: &[u8]) -> (res: Result<
    bool,
    TrustError,
>)
    ensures
        if success {
            res == Ok::<_, TrustError>(true)
        } else if code == Some(NO) {
            res == Ok::<_, TrustError>(false)
        } else {
            res matches Err(TrustError::WindowsCheckFailed(reason)) && reason@ == utf8_lossy(
                stderr@,
            )
        },
{
    if success {
        return Ok(true);
    }
    if let Some(code) = code {
        if code == NO {
            return Ok(false);
        }
    }
    Err(TrustError::WindowsCheckFailed(from_utf8_lossy(stderr)))
}

/// What comes of asking Windows to trust the local authority, given how the script ended.
pub fn windows_requested(success: bool, stderr: &[u8]) -> (res: Result<(), TrustError>)
    ensures
        if success {
            res is Ok
        } else {
            res matches Err(TrustError::WindowsDeclined(reason)) && reason@ == utf8_lossy(stderr@)
        },
{
    if success {
        return Ok(());
    }
    Err(TrustError::WindowsDeclined(from_utf8_lossy(stderr)))
}

/// What comes of protecting the certificate directory on Windows, given how the script ended.
pub fn directory_protected(success: bool, stderr: &[u8]) -> (res: Result<(), TrustError>)
    ensures
        if success {
            res is Ok
        } else {
            res matches Err(TrustError::DirectoryNotProtected(reason)) && reason@ == utf8_lossy(
                stderr@,
            )
        },
{
    if success {
        return Ok(());
    }
    Err(TrustError::DirectoryNotProtected(from_utf8_lossy(stderr)))
}

/// The text that `base64::engine::general_purpose::STANDARD` makes of some bytes.
pub uninterp spec fn base64(bytes: Seq<u8>) -> Seq<char>;

/// `Engine::encode` of the crate `base64`, with its standard alphabet and padding. It panics if the
/// text does not fit into memory; what a PEM text holds does.
#[verifier::external_body]
fn encode_base64(bytes: &Vec<u8>) -> (res: String)
    requires
        bytes@.len() <= SECTION_LIMIT,
    ensures
        res@ == base64(bytes@),
{
    base64::engine::general_purpose::STANDARD.encode(bytes)
}

/// The certificate in a PEM file as it is handed to a script on Windows: its DER bytes, in base64.
pub fn windows_variable(pem: &[u8]) -> (res: Result<String, TrustError>)
    ensures
        match pem_certificate(pem@) {
            Err(text) => res matches Err(TrustError::Failed(reason)) && reason@ == text,
            Ok(der) => res matches Ok(value) && value@ == base64(der),
        },
{
    match certificate_of(pem) {
        Ok(der) => Ok(encode_base64(&der)),
        Err(text) => Err(TrustError::Failed(text)),
    }
}

} // verus!
