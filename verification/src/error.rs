//! What can go wrong: with a request for the upstream service, and while the local certificates are
//! set up.
use vstd::prelude::*;

use crate::text::concatenate;

verus! {

/// Why a request cannot be forwarded.
pub enum ProxyError {
    /// The base URL names no host.
    MissingHost,
    /// The host of the base URL cannot be a header value.
    InvalidHost,
    /// The base URL has a scheme that has no WebSocket counterpart.
    UnsupportedScheme(String),
    /// The WebSocket scheme could not be set.
    SchemeNotSet,
    /// The WebSocket request could not be made, with the reason.
    Request(String),
}

impl ProxyError {
    /// The text of the error.
    pub open spec fn text(self) -> Seq<char> {
        match self {
            ProxyError::MissingHost => "upstream base url is missing host"@,
            ProxyError::InvalidHost => "failed to parse header value"@,
            ProxyError::UnsupportedScheme(scheme) => "unsupported upstream scheme `"@ + scheme@
                + "`"@,
            ProxyError::SchemeNotSet => "failed to set websocket scheme"@,
            ProxyError::Request(reason) => reason@,
        }
    }

    /// The text of the error.
    pub fn message(&self) -> (res: String)
        ensures
            res@ == self.text(),
    {
        match self {
            ProxyError::MissingHost => "upstream base url is missing host".to_owned(),
            ProxyError::InvalidHost => "failed to parse header value".to_owned(),
            ProxyError::UnsupportedScheme(scheme) => {
                let mut res = "unsupported upstream scheme `".to_owned();
                res.append(scheme.as_str());
                res.append("`");
                res
            },
            ProxyError::SchemeNotSet => "failed to set websocket scheme".to_owned(),
            ProxyError::Request(reason) => reason.clone(),
        }
    }
}

/// Why there is no trusted certificate for the local HTTPS service.
pub enum SetupError {
    /// The environment does not say where the certificates of a Windows user are kept.
    MissingLocalAppData,
    /// The environment does not say where the home directory is.
    MissingHome,
    /// One of the two files of the local authority is missing in this directory.
    IncompleteAuthority(String),
    /// The certificate of the local authority cannot be used, for this reason.
    InvalidAuthority(String),
    /// The key of the local authority is not that of its certificate.
    KeyMismatch,
    /// The certificate of the local authority is not one of an authority.
    NotAnAuthority,
    /// The server certificate does not pass the check.
    InvalidServerCertificate,
    /// The system does not trust the server certificate.
    NotTrusted,
    /// Something else failed, for this reason.
    Failed(String),
}

impl SetupError {
    /// The text of the error.
    pub open spec fn text(self) -> Seq<char> {
        match self {
            SetupError::MissingLocalAppData =>
                "找不到 LOCALAPPDATA，请使用 --tls-cert 和 --tls-key 指定证书"@,
            SetupError::MissingHome => "找不到用户目录，请使用 --tls-cert 和 --tls-key 指定证书"@,
            SetupError::IncompleteAuthority(directory) =>
                "本地 CA 文件不完整，保留现有文件，请检查 "@ + directory@,
            SetupError::InvalidAuthority(reason) => "无效的 CA 证书: "@ + reason@,
            SetupError::KeyMismatch => "本地 CA 证书与私钥不匹配，未覆盖现有文件"@,
            SetupError::NotAnAuthority => "本地 CA 证书缺少 CA 属性"@,
            SetupError::InvalidServerCertificate => "生成的 localhost 证书校验失败"@,
            SetupError::NotTrusted =>
                "系统尚未信任 localhost 证书。HTTPS 代理未启动，请重新运行并完成系统授权"@,
            SetupError::Failed(reason) => reason@,
        }
    }

    /// The text of the error.
    pub fn message(&self) -> (res: String)
        ensures
            res@ == self.text(),
    {
        match self {
            SetupError::MissingLocalAppData =>
                "找不到 LOCALAPPDATA，请使用 --tls-cert 和 --tls-key 指定证书".to_owned(),
            SetupError::MissingHome =>
                "找不到用户目录，请使用 --tls-cert 和 --tls-key 指定证书".to_owned(),
            SetupError::IncompleteAuthority(directory) => concatenate(
                "本地 CA 文件不完整，保留现有文件，请检查 ",
                directory.as_str(),
            ),
            SetupError::InvalidAuthority(reason) => concatenate("无效的 CA 证书: ", reason.as_str()),
            SetupError::KeyMismatch => "本地 CA 证书与私钥不匹配，未覆盖现有文件".to_owned(),
            SetupError::NotAnAuthority => "本地 CA 证书缺少 CA 属性".to_owned(),
            SetupError::InvalidServerCertificate => "生成的 localhost 证书校验失败".to_owned(),
            SetupError::NotTrusted =>
                "系统尚未信任 localhost 证书。HTTPS 代理未启动，请重新运行并完成系统授权".to_owned(),
            SetupError::Failed(reason) => reason.clone(),
        }
    }
}

/// Why the system's trust could not be checked or given.
pub enum TrustError {
    /// No tool that updates the system's authorities is there.
    MissingUpdateTool,
    /// No way to act as the administrator is there.
    MissingAuthorization,
    /// It is not known whether the user is the administrator.
    UnknownUser,
    /// The administrator's command failed on Linux.
    LinuxDeclined,
    /// The entries of a browser's database cannot be listed.
    UnreadableDatabase,
    /// The authority could not be added to a browser's database.
    DatabaseNotChanged,
    /// The user's keychain was not changed on macOS; the tool gave this reason.
    MacDeclined(String),
    /// The check failed on Windows; the tool gave this reason.
    WindowsCheckFailed(String),
    /// The user's store was not changed on Windows; the tool gave this reason.
    WindowsDeclined(String),
    /// The directory could not be protected on Windows; the tool gave this reason.
    DirectoryNotProtected(String),
    /// Something else failed, for this reason.
    Failed(String),
}

impl TrustError {
    /// The text of the error.
    pub open spec fn text(self) -> Seq<char> {
        match self {
            TrustError::MissingUpdateTool =>
                "找不到 update-ca-certificates / update-ca-trust，请先安装发行版的 ca-certificates 包"@,
            TrustError::MissingAuthorization =>
                "需要 pkexec（桌面）或 sudo（终端）来授权安装系统 CA"@,
            TrustError::UnknownUser => "无法确认 Linux 用户权限"@,
            TrustError::LinuxDeclined =>
                "Linux 证书授权被取消或信任库更新失败，HTTPS 代理未启动"@,
            TrustError::UnreadableDatabase => "无法读取 NSS 信任标记"@,
            TrustError::DatabaseNotChanged => "NSS 浏览器信任库安装失败，HTTPS 代理未启动"@,
            TrustError::MacDeclined(reason) => "证书信任授权未完成，HTTPS 代理未启动："@ + reason@,
            TrustError::WindowsCheckFailed(reason) => "Windows 证书信任检查失败: "@ + reason@,
            TrustError::WindowsDeclined(reason) =>
                "Windows 证书信任授权被取消或安装失败，HTTPS 代理未启动: "@ + reason@,
            TrustError::DirectoryNotProtected(reason) =>
                "无法保护 Windows 证书私钥目录: "@ + reason@,
            TrustError::Failed(reason) => reason@,
        }
    }

    /// The text of the error.
    pub fn message(&self) -> (res: String)
        ensures
            res@ == self.text(),
    {
        match self {
            TrustError::MissingUpdateTool =>
                "找不到 update-ca-certificates / update-ca-trust，请先安装发行版的 ca-certificates 包".to_owned(),
            TrustError::MissingAuthorization =>
                "需要 pkexec（桌面）或 sudo（终端）来授权安装系统 CA".to_owned(),
            TrustError::UnknownUser => "无法确认 Linux 用户权限".to_owned(),
            TrustError::LinuxDeclined =>
                "Linux 证书授权被取消或信任库更新失败，HTTPS 代理未启动".to_owned(),
            TrustError::UnreadableDatabase => "无法读取 NSS 信任标记".to_owned(),
            TrustError::DatabaseNotChanged =>
                "NSS 浏览器信任库安装失败，HTTPS 代理未启动".to_owned(),
            TrustError::MacDeclined(reason) => concatenate(
                "证书信任授权未完成，HTTPS 代理未启动：",
                reason.as_str(),
            ),
            TrustError::WindowsCheckFailed(reason) => concatenate(
                "Windows 证书信任检查失败: ",
                reason.as_str(),
            ),
            TrustError::WindowsDeclined(reason) => concatenate(
                "Windows 证书信任授权被取消或安装失败，HTTPS 代理未启动: ",
                reason.as_str(),
            ),
            TrustError::DirectoryNotProtected(reason) => concatenate(
                "无法保护 Windows 证书私钥目录: ",
                reason.as_str(),
            ),
            TrustError::Failed(reason) => reason.clone(),
        }
    }
}

} // verus!
