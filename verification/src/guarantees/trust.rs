//! Promises on how macOS and Windows are asked for their trust.
use vstd::prelude::*;

use crate::certificates::pem_certificate;
use crate::error::TrustError;
use crate::guarantees::linux::{is_command, lemma_command};
use crate::guarantees::text::{all_separate, is_bare, lemma_trimmed_core};
use crate::preview::utf8_lossy;
use crate::text::Separator;
use crate::trust::{
    base64, directory_protected, macos_check, macos_request, macos_requested, powershell,
    protect_directory, windows_check, windows_checked, windows_request, windows_requested,
    windows_variable, Command, AUTHORITY_VARIABLE, DIRECTORY_VARIABLE, SERVER_VARIABLE,
};

verus! {

/// macOS is asked about the server certificate, for TLS at `localhost`, with the authority as a
/// further certificate and not as a root.
pub proof fn macos_is_asked(ca: &str, cert: &str, res: Command)
    requires
        call_ensures(macos_check, (ca, cert), res),
    ensures
        is_command(
            res,
            "/usr/bin/security"@,
            seq![
                "verify-cert"@,
                "-q"@,
                "-L"@,
                "-p"@,
                "ssl"@,
                "-n"@,
                "localhost"@,
                "-c"@,
                cert@,
                "-c"@,
                ca@,
            ],
        ),
{
    lemma_command(
        res,
        "/usr/bin/security"@,
        seq![
            "verify-cert"@,
            "-q"@,
            "-L"@,
            "-p"@,
            "ssl"@,
            "-n"@,
            "localhost"@,
            "-c"@,
            cert@,
            "-c"@,
            ca@,
        ],
    );
}

/// macOS is told to trust the authority as a root, in the user's keychain.
pub proof fn macos_is_told(keychain: &str, ca: &str, res: Command)
    requires
        call_ensures(macos_request, (keychain, ca), res),
    ensures
        is_command(
            res,
            "/usr/bin/security"@,
            seq!["add-trusted-cert"@, "-r"@, "trustRoot"@, "-k"@, keychain@, ca@],
        ),
{
    lemma_command(
        res,
        "/usr/bin/security"@,
        seq!["add-trusted-cert"@, "-r"@, "trustRoot"@, "-k"@, keychain@, ca@],
    );
}

/// The user has agreed on macOS exactly if the tool succeeded; otherwise its words are the reason,
/// without the blanks around them.
pub proof fn macos_refusals_are_explained(
    success: bool,
    stderr: &[u8],
    before: Seq<char>,
    words: Seq<char>,
    after: Seq<char>,
    res: Result<(), TrustError>,
)
    requires
        call_ensures(macos_requested, (success, stderr), res),
        utf8_lossy(stderr@) == before + words + after,
        all_separate(Separator::Whitespace, before),
        all_separate(Separator::Whitespace, after),
        is_bare(Separator::Whitespace, words),
    ensures
        res is Ok == success,
        !success ==> (res matches Err(TrustError::MacDeclined(reason)) && reason@ == words),
{
    lemma_trimmed_core(before, words, after, Separator::Whitespace);
}

/// Whether a command runs a script in Windows PowerShell, alone, and stops at the first error.
pub open spec fn runs_script(command: Command, script: Seq<char>) -> bool {
    is_command(
        command,
        "powershell.exe"@,
        seq![
            "-NoLogo"@,
            "-NoProfile"@,
            "-NonInteractive"@,
            "-Command"@,
            "$ErrorActionPreference = 'Stop'; "@ + script,
        ],
    )
}

proof fn lemma_runs_script(command: Command, script: Seq<char>)
    requires
        command@ == crate::trust::powershell_command(script),
    ensures
        runs_script(command, script),
{
    lemma_command(
        command,
        "powershell.exe"@,
        seq![
            "-NoLogo"@,
            "-NoProfile"@,
            "-NonInteractive"@,
            "-Command"@,
            "$ErrorActionPreference = 'Stop'; "@ + script,
        ],
    );
}

/// Every script is run in the same way.
pub proof fn scripts_stop_at_the_first_error(script: &str, res: Command)
    requires
        call_ensures(powershell, (script,), res),
    ensures
        runs_script(res, script@),
{
    lemma_runs_script(res, script@);
}

/// The scripts for Windows, and the variables that they read.
pub proof fn windows_runs_these_scripts(check: Command, request: Command, protect: Command)
    requires
        call_ensures(windows_check, (), check),
        call_ensures(windows_request, (), request),
        call_ensures(protect_directory, (), protect),
    ensures
        AUTHORITY_VARIABLE@ == "CCS_TLS_CA"@,
        SERVER_VARIABLE@ == "CCS_TLS_LEAF"@,
        DIRECTORY_VARIABLE@ == "CCS_TLS_DIRECTORY"@,
        runs_script(
            check,
            r#"
$ca = [System.Security.Cryptography.X509Certificates.X509Certificate2]::new([Convert]::FromBase64String($env:CCS_TLS_CA))
$leaf = [System.Security.Cryptography.X509Certificates.X509Certificate2]::new([Convert]::FromBase64String($env:CCS_TLS_LEAF))
$chain = [System.Security.Cryptography.X509Certificates.X509Chain]::new()
$chain.ChainPolicy.RevocationMode = 'NoCheck'
$chain.ChainPolicy.VerificationFlags = 'NoFlag'
$chain.ChainPolicy.ApplicationPolicy.Add(([System.Security.Cryptography.Oid]::new('1.3.6.1.5.5.7.3.1')))
[void]$chain.ChainPolicy.ExtraStore.Add($ca)
$ok = $chain.Build($leaf)
if ($ok -and $chain.ChainElements[$chain.ChainElements.Count - 1].Certificate.Thumbprint -eq $ca.Thumbprint) { exit 0 }
exit 10
"#@,
        ),
        runs_script(
            request,
            r#"
$ca = [System.Security.Cryptography.X509Certificates.X509Certificate2]::new([Convert]::FromBase64String($env:CCS_TLS_CA))
Add-Type -AssemblyName PresentationFramework
$message = 'CCS Proxy needs to trust its local CA to serve https://localhost:8000.' + [Environment]::NewLine + 'Only the current user certificate store is modified.' + [Environment]::NewLine + 'SHA-1: ' + $ca.Thumbprint
if ([System.Windows.MessageBox]::Show($message, 'CCS Proxy - Local HTTPS Certificate', 'YesNo', 'Question') -ne 'Yes') { exit 10 }
$store = [System.Security.Cryptography.X509Certificates.X509Store]::new('Root', 'CurrentUser')
try { $store.Open('ReadWrite'); $store.Add($ca) } finally { $store.Close() }
"#@,
        ),
        runs_script(
            protect,
            r#"
$path = $env:CCS_TLS_DIRECTORY
$sid = [System.Security.Principal.WindowsIdentity]::GetCurrent().User
$acl = [System.Security.AccessControl.DirectorySecurity]::new()
$acl.SetAccessRuleProtection($true, $false)
$rule = [System.Security.AccessControl.FileSystemAccessRule]::new($sid, 'FullControl', 'ContainerInherit,ObjectInherit', 'None', 'Allow')
$acl.AddAccessRule($rule)
[System.IO.Directory]::SetAccessControl($path, $acl)
"#@,
        ),
{
    lemma_runs_script(check, crate::trust::CHECK_SCRIPT@);
    lemma_runs_script(request, crate::trust::REQUEST_SCRIPT@);
    lemma_runs_script(protect, crate::trust::PROTECT_SCRIPT@);
}

/// Windows trusts the certificate if the script succeeds, and does not if it ends with code 10.
/// Every other end is an error, with what the script wrote as the reason.
pub proof fn windows_answers_yes_or_no(
    success: bool,
    code: Option<i32>,
    stderr: &[u8],
    res: Result<bool, TrustError>,
)
    requires
        call_ensures(windows_checked, (success, code, stderr), res),
    ensures
        success ==> res == Ok::<_, TrustError>(true),
        !success && code == Some(10i32) ==> res == Ok::<_, TrustError>(false),
        !success && code != Some(10i32) ==> (res matches Err(TrustError::WindowsCheckFailed(reason))
            && reason@ == utf8_lossy(stderr@)),
{
}

/// The user has agreed on Windows, and the directory is protected, exactly if the script succeeded;
/// otherwise what it wrote is the reason.
pub proof fn windows_refusals_are_explained(
    success: bool,
    stderr: &[u8],
    requested: Result<(), TrustError>,
    protected: Result<(), TrustError>,
)
    requires
        call_ensures(windows_requested, (success, stderr), requested),
        call_ensures(directory_protected, (success, stderr), protected),
    ensures
        requested is Ok == success,
        protected is Ok == success,
        !success ==> (requested matches Err(TrustError::WindowsDeclined(reason)) && reason@
            == utf8_lossy(stderr@)),
        !success ==> (protected matches Err(TrustError::DirectoryNotProtected(reason)) && reason@
            == utf8_lossy(stderr@)),
{
}

/// A certificate is handed to a script as the base64 of its bytes; a file without one is an error.
pub proof fn certificates_are_handed_over_in_base64(pem: &[u8], res: Result<String, TrustError>)
    requires
        call_ensures(windows_variable, (pem,), res),
    ensures
        pem_certificate(pem@) matches Ok(der) ==> (res matches Ok(value) && value@ == base64(der)),
        pem_certificate(pem@) matches Err(text) ==> (res matches Err(TrustError::Failed(reason))
            && reason@ == text),
{
}

} // verus!
