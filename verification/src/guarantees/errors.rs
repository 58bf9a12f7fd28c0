//! Promises on what the user is told when something goes wrong.
use vstd::prelude::*;

use crate::error::{ProxyError, SetupError, TrustError};

verus! {

/// Every error of a request has its own words. A reason stands behind them as it is.
pub proof fn requests_fail_with_these_words(error: ProxyError, res: String)
    requires
        call_ensures(ProxyError::message, (&error,), res),
    ensures
        error is MissingHost ==> res@ == "upstream base url is missing host"@,
        error is InvalidHost ==> res@ == "failed to parse header value"@,
        error matches ProxyError::UnsupportedScheme(scheme) ==> res@ ==
            "unsupported upstream scheme `"@ + scheme@ + "`"@,
        error is SchemeNotSet ==> res@ == "failed to set websocket scheme"@,
        error matches ProxyError::Request(reason) ==> res@ == reason@,
{
}

/// Every error of the setup has its own words. A reason stands behind them as it is.
pub proof fn setups_fail_with_these_words(error: SetupError, res: String)
    requires
        call_ensures(SetupError::message, (&error,), res),
    ensures
        error is MissingLocalAppData ==> res@ ==
            "找不到 LOCALAPPDATA，请使用 --tls-cert 和 --tls-key 指定证书"@,
        error is MissingHome ==> res@ == "找不到用户目录，请使用 --tls-cert 和 --tls-key 指定证书"@,
        error matches SetupError::IncompleteAuthority(directory) ==> res@ ==
            "本地 CA 文件不完整，保留现有文件，请检查 "@ + directory@,
        error matches SetupError::InvalidAuthority(reason) ==> res@ ==
            "无效的 CA 证书: "@ + reason@,
        error is KeyMismatch ==> res@ == "本地 CA 证书与私钥不匹配，未覆盖现有文件"@,
        error is NotAnAuthority ==> res@ == "本地 CA 证书缺少 CA 属性"@,
        error is InvalidServerCertificate ==> res@ == "生成的 localhost 证书校验失败"@,
        error is NotTrusted ==> res@ == "系统尚未信任 localhost 证书。HTTPS 代理未启动，请重新运行并完成系统授权"@,
        error matches SetupError::Failed(reason) ==> res@ == reason@,
{
}

/// Every error of the system's trust has its own words. A reason stands behind them as it is.
pub proof fn trust_fails_with_these_words(error: TrustError, res: String)
    requires
        call_ensures(TrustError::message, (&error,), res),
    ensures
        error is MissingUpdateTool ==> res@ ==
            "找不到 update-ca-certificates / update-ca-trust，请先安装发行版的 ca-certificates 包"@,
        error is MissingAuthorization ==> res@ == "需要 pkexec（桌面）或 sudo（终端）来授权安装系统 CA"@,
        error is UnknownUser ==> res@ == "无法确认 Linux 用户权限"@,
        error is LinuxDeclined ==> res@ == "Linux 证书授权被取消或信任库更新失败，HTTPS 代理未启动"@,
        error is UnreadableDatabase ==> res@ == "无法读取 NSS 信任标记"@,
        error is DatabaseNotChanged ==> res@ == "NSS 浏览器信任库安装失败，HTTPS 代理未启动"@,
        error matches TrustError::MacDeclined(reason) ==> res@ ==
            "证书信任授权未完成，HTTPS 代理未启动："@ + reason@,
        error matches TrustError::WindowsCheckFailed(reason) ==> res@ ==
            "Windows 证书信任检查失败: "@ + reason@,
        error matches TrustError::WindowsDeclined(reason) ==> res@ ==
            "Windows 证书信任授权被取消或安装失败，HTTPS 代理未启动: "@ + reason@,
        error matches TrustError::DirectoryNotProtected(reason) ==> res@ ==
            "无法保护 Windows 证书私钥目录: "@ + reason@,
        error matches TrustError::Failed(reason) ==> res@ == reason@,
{
}

} // verus!
