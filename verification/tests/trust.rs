use base64::Engine;
use ccs_proxy::certificates::{authority_der, create_ca};
use ccs_proxy::config::{
    default_directory, tls_source, Platform, TlsSource, DEFAULT_LISTEN, DEFAULT_UPSTREAM_BASE_URL,
};
use ccs_proxy::error::{SetupError, TrustError};
use ccs_proxy::linux::{
    begin_check, begin_request, below, ca_name, continue_check, continue_request, linux_store,
    nss_databases, nss_list_trusts, words_of, write_hex, CheckStage, LinuxStore, LinuxTrust,
    Outcome, Presence, RequestStage, Session, TrustAction, INSTALL_SCRIPT,
};
use ccs_proxy::trust::{
    directory_protected, macos_check, macos_request, macos_requested, powershell,
    protect_directory, windows_check, windows_checked, windows_request, windows_requested,
    windows_variable, Command, AUTHORITY_VARIABLE, DIRECTORY_VARIABLE, SERVER_VARIABLE,
};
use sha2::{Digest, Sha256};

fn presence() -> Presence {
    Presence {
        update_ca_certificates: false,
        update_ca_trust: false,
        update_ca_trust_sbin: false,
        suse_anchors: false,
        arch_anchors: false,
    }
}

/// What is there below a root directory with these files and directories.
fn look(files: &[&str]) -> Presence {
    Presence {
        update_ca_certificates: files.contains(&"usr/sbin/update-ca-certificates"),
        update_ca_trust: files.contains(&"usr/bin/update-ca-trust"),
        update_ca_trust_sbin: files.contains(&"usr/sbin/update-ca-trust"),
        suse_anchors: files.contains(&"etc/pki/trust/anchors"),
        arch_anchors: files.contains(&"etc/ca-certificates/trust-source/anchors"),
    }
}

#[test]
fn chooses_debian_and_redhat_trust_stores() {
    for (tool, destination, args) in [
        ("usr/sbin/update-ca-certificates", "usr/local/share/ca-certificates", vec![]),
        ("usr/bin/update-ca-trust", "etc/pki/ca-trust/source/anchors", vec!["extract"]),
    ] {
        let root = "/tmp/root";
        let store = linux_store(root, &look(&[tool])).ok().unwrap();
        assert_eq!(store.directory, format!("{root}/{destination}"));
        assert_eq!(store.update, format!("{root}/{tool}"));
        assert_eq!(store.args, args);
    }
}

#[test]
fn missing_linux_trust_tools_is_an_explicit_error() {
    assert!(linux_store("/tmp/root", &look(&[])).is_err());
    let error = linux_store("/", &presence()).err().unwrap();
    assert!(matches!(error, TrustError::MissingUpdateTool));
    assert_eq!(
        error.message(),
        "找不到 update-ca-certificates / update-ca-trust，请先安装发行版的 ca-certificates 包"
    );
}

#[test]
fn suse_and_arch_have_their_own_directories() {
    let suse = look(&["usr/sbin/update-ca-certificates", "etc/pki/trust/anchors"]);
    assert_eq!(linux_store("/", &suse).ok().unwrap().directory, "/etc/pki/trust/anchors");
    let arch = look(&["usr/sbin/update-ca-trust", "etc/ca-certificates/trust-source/anchors", "etc/pki/trust/anchors"]);
    let store = linux_store("/", &arch).ok().unwrap();
    assert_eq!(store.directory, "/etc/ca-certificates/trust-source/anchors");
    assert_eq!(store.update, "/usr/sbin/update-ca-trust");
    let both = look(&["usr/sbin/update-ca-certificates", "usr/bin/update-ca-trust"]);
    assert_eq!(linux_store("/", &both).ok().unwrap().update, "/usr/sbin/update-ca-certificates");
    assert_eq!(below("", "a"), "a");
    assert_eq!(below("/x", "a/b"), "/x/a/b");
}

#[test]
fn authority_is_named_by_its_digest() {
    let authority = create_ca(1_700_000_000).ok().unwrap();
    let der = authority_der(&authority.cert).ok().unwrap();
    let name = ca_name(authority.cert.as_bytes()).ok().unwrap();
    assert_eq!(name, format!("ccs-proxy-{:x}", Sha256::digest(&der)));
    assert!(matches!(ca_name(b"text"), Err(TrustError::Failed(_))));
    assert_eq!(write_hex(&vec![0, 15, 16, 255]), "000f10ff");
}

#[test]
fn list_of_a_database_is_read() {
    let list = "\nCertificate Nickname   Trust Attributes\n  SSL,S/MIME,JAR/XPI\n\nother  CT,C,C\n ccs-proxy-1 \t C,, \r\nccs-proxy-2 p,C,\nccs-proxy-3\n";
    assert!(nss_list_trusts(list, "ccs-proxy-1"));
    assert!(nss_list_trusts(list, "other"));
    assert!(!nss_list_trusts(list, "ccs-proxy-2"));
    assert!(!nss_list_trusts(list, "ccs-proxy-3"));
    assert!(!nss_list_trusts(list, "ccs-proxy"));
    assert!(!nss_list_trusts("", ""));
    assert_eq!(words_of("  a\tb \u{3000} c"), ["a", "b", "c"]);
    assert_eq!(nss_databases(), [".pki/nssdb", ".local/share/pki/nssdb"]);
}

fn trust(databases: &[&str]) -> LinuxTrust {
    LinuxTrust {
        ca_path: "/d/ca.pem".to_string(),
        cert_path: "/d/localhost.pem".to_string(),
        ca: create_ca(1_700_000_000).ok().unwrap().cert.into_bytes(),
        databases: databases.iter().map(|database| database.to_string()).collect(),
    }
}

fn outcome(success: bool, stdout: &[u8]) -> Outcome {
    Outcome { success, stdout: stdout.to_vec() }
}

fn line<T>(action: &TrustAction<T>) -> String {
    match action {
        TrustAction::Run(command) => words(command),
        TrustAction::Finish(_) => panic!("nothing to run"),
    }
}

fn words(command: &Command) -> String {
    let mut line = command.program.clone();
    for argument in &command.arguments {
        line.push(' ');
        line.push_str(argument);
    }
    line
}

#[test]
fn check_asks_openssl_and_every_browser() {
    let trust = trust(&["/h/one", "/h/two"]);
    let name = ca_name(&trust.ca).ok().unwrap();
    let list = outcome(true, format!("{name} C,,\n").as_bytes());
    let shown = outcome(true, &trust.ca);

    let step = begin_check(&trust);
    assert_eq!(
        line(&step.action),
        "openssl verify -purpose sslserver -verify_hostname localhost -untrusted /d/ca.pem /d/localhost.pem"
    );
    if let TrustAction::Run(command) = &step.action {
        assert_eq!(command.unset, ["SSL_CERT_FILE", "SSL_CERT_DIR"]);
    }
    let mut step = continue_check(&trust, step.stage, &outcome(true, b""));
    for database in ["/h/one", "/h/two"] {
        assert_eq!(line(&step.action), format!("certutil -L -d sql:{database} -n {name} -a"));
        step = continue_check(&trust, step.stage, &shown);
        assert_eq!(line(&step.action), format!("certutil -L -d sql:{database}"));
        step = continue_check(&trust, step.stage, &list);
    }
    assert!(matches!(step.action, TrustAction::Finish(Ok(true))));
    assert!(matches!(step.stage, CheckStage::Finished));
}

#[test]
fn one_doubt_is_enough() {
    let trust = trust(&["/h/one"]);
    let other = create_ca(1_700_000_000).ok().unwrap().cert.into_bytes();
    let no = |step: TrustAction<bool>| matches!(step, TrustAction::Finish(Ok(false)));
    assert!(no(continue_check(&trust, CheckStage::Verifying, &outcome(false, b"")).action));
    assert!(no(continue_check(&trust, CheckStage::Showing(0), &outcome(false, b"")).action));
    assert!(no(continue_check(&trust, CheckStage::Showing(0), &outcome(true, &other)).action));
    assert!(no(continue_check(&trust, CheckStage::Listing(0), &outcome(true, b"other C,,\n")).action));
    let step = continue_check(&trust, CheckStage::Showing(0), &outcome(true, b"text"));
    assert!(matches!(step.action, TrustAction::Finish(Err(TrustError::Failed(_)))));
    let step = continue_check(&trust, CheckStage::Listing(0), &outcome(false, b""));
    match step.action {
        TrustAction::Finish(Err(error)) => assert_eq!(error.message(), "无法读取 NSS 信任标记"),
        _ => panic!("no error"),
    }
}

#[test]
fn system_without_browsers_is_checked_alone() {
    let trust = trust(&[]);
    let step = continue_check(&trust, CheckStage::Verifying, &outcome(true, b""));
    assert!(matches!(step.action, TrustAction::Finish(Ok(true))));
}

fn store() -> LinuxStore {
    linux_store("/", &look(&["usr/bin/update-ca-trust"])).ok().unwrap()
}

fn session(graphical: bool, pkexec: bool, sudo: bool) -> Session {
    Session { graphical, pkexec, sudo }
}

#[test]
fn request_looks_first_and_changes_last() {
    let trust = trust(&["/h/one", "/h/two"]);
    let name = ca_name(&trust.ca).ok().unwrap();
    let store = store();
    let session = session(true, true, true);
    let next = |stage: RequestStage, outcome: &Outcome| {
        continue_request(&trust, &store, &session, stage, outcome)
    };

    let step = begin_request(&trust);
    assert_eq!(line(&step.action), format!("certutil -L -d sql:/h/one -n {name} -a"));
    let step = next(step.stage, &outcome(true, &trust.ca));
    assert_eq!(line(&step.action), "certutil -L -d sql:/h/one");
    let step = next(step.stage, &outcome(true, b""));
    assert_eq!(line(&step.action), format!("certutil -L -d sql:/h/two -n {name} -a"));
    let step = next(step.stage, &outcome(false, b""));
    assert_eq!(line(&step.action), "id -u");
    let step = next(step.stage, &outcome(true, b"1000\n"));
    let install = format!(
        "pkexec /bin/sh -c {INSTALL_SCRIPT} ccs-proxy-trust /d/ca.pem /etc/pki/ca-trust/source/anchors/{name}.crt /usr/bin/update-ca-trust extract"
    );
    assert_eq!(line(&step.action), install);
    let step = next(step.stage, &outcome(true, b""));
    assert_eq!(line(&step.action), format!("certutil -A -d sql:/h/one -n {name} -t C,, -i /d/ca.pem"));
    let step = next(step.stage, &outcome(true, b""));
    assert_eq!(line(&step.action), format!("certutil -A -d sql:/h/two -n {name} -t C,, -i /d/ca.pem"));
    let step = next(step.stage, &outcome(true, b""));
    assert!(matches!(step.action, TrustAction::Finish(Ok(()))));
    assert!(matches!(step.stage, RequestStage::Finished));
}

#[test]
fn administrator_is_asked_in_the_way_that_is_there() {
    let trust = trust(&[]);
    let store = store();
    for (id, session, start) in [
        ("0\n", session(false, false, false), "/bin/sh -c "),
        ("0\n", session(true, true, true), "/bin/sh -c "),
        ("1000\n", session(true, true, true), "pkexec /bin/sh -c "),
        ("1000\n", session(true, false, true), "sudo -- /bin/sh -c "),
        ("1000\n", session(false, true, true), "sudo -- /bin/sh -c "),
        ("0", session(false, false, true), "sudo -- /bin/sh -c "),
    ] {
        let stage = RequestStage::Identifying;
        let step = continue_request(&trust, &store, &session, stage, &outcome(true, id.as_bytes()));
        assert!(line(&step.action).starts_with(start));
    }
}

#[test]
fn request_fails_with_its_reason() {
    let trust = trust(&["/h/one"]);
    let store = store();
    for (stage, outcome, message) in [
        (RequestStage::Showing(0), outcome(true, b"text"), "no items found"),
        (RequestStage::Listing(0), outcome(false, b""), "无法读取 NSS 信任标记"),
        (RequestStage::Identifying, outcome(false, b""), "无法确认 Linux 用户权限"),
        (
            RequestStage::Identifying,
            outcome(true, b"1000\n"),
            "需要 pkexec（桌面）或 sudo（终端）来授权安装系统 CA",
        ),
        (
            RequestStage::Installing,
            outcome(false, b""),
            "Linux 证书授权被取消或信任库更新失败，HTTPS 代理未启动",
        ),
        (
            RequestStage::Adding(0),
            outcome(false, b""),
            "NSS 浏览器信任库安装失败，HTTPS 代理未启动",
        ),
    ] {
        let session = session(true, false, false);
        let step = continue_request(&trust, &store, &session, stage, &outcome);
        match step.action {
            TrustAction::Finish(Err(error)) => assert_eq!(error.message(), message),
            _ => panic!("no error"),
        }
    }
}

#[test]
fn macos_commands() {
    assert_eq!(
        words(&macos_check("/d/ca.pem", "/d/localhost.pem")),
        "/usr/bin/security verify-cert -q -L -p ssl -n localhost -c /d/localhost.pem -c /d/ca.pem"
    );
    assert_eq!(
        words(&macos_request("/h/login.keychain-db", "/d/ca.pem")),
        "/usr/bin/security add-trusted-cert -r trustRoot -k /h/login.keychain-db /d/ca.pem"
    );
    assert!(macos_requested(true, b"ignored").is_ok());
    let error = macos_requested(false, b" cancelled \xff\n").err().unwrap();
    assert_eq!(error.message(), "证书信任授权未完成，HTTPS 代理未启动：cancelled \u{fffd}");
}

#[test]
fn windows_outcomes() {
    assert!(matches!(windows_checked(true, Some(0), b""), Ok(true)));
    assert!(matches!(windows_checked(false, Some(10), b""), Ok(false)));
    let error = windows_checked(false, Some(1), b"broken").err().unwrap();
    assert_eq!(error.message(), "Windows 证书信任检查失败: broken");
    assert!(windows_checked(false, None, b"").is_err());
    assert!(windows_requested(true, b"").is_ok());
    let error = windows_requested(false, b"no").err().unwrap();
    assert_eq!(error.message(), "Windows 证书信任授权被取消或安装失败，HTTPS 代理未启动: no");
    assert!(directory_protected(true, b"").is_ok());
    let error = directory_protected(false, b"no").err().unwrap();
    assert_eq!(error.message(), "无法保护 Windows 证书私钥目录: no");
    assert_eq!(
        words(&powershell("exit 0")),
        "powershell.exe -NoLogo -NoProfile -NonInteractive -Command $ErrorActionPreference = 'Stop'; exit 0"
    );
}

#[test]
fn windows_scripts_read_their_variables() {
    let script = |command: &Command| command.arguments.last().unwrap().clone();
    for command in [windows_check(), windows_request(), protect_directory()] {
        assert_eq!(command.program, "powershell.exe");
        assert_eq!(command.arguments[..4], ["-NoLogo", "-NoProfile", "-NonInteractive", "-Command"]);
        assert!(command.unset.is_empty());
        assert!(script(&command).starts_with("$ErrorActionPreference = 'Stop'; \n$"));
    }
    let variable = |name: &str| format!("$env:{name}");
    let check = script(&windows_check());
    assert!(check.contains(&variable(AUTHORITY_VARIABLE)) && check.contains(&variable(SERVER_VARIABLE)));
    assert!(check.ends_with("-eq $ca.Thumbprint) { exit 0 }\nexit 10\n"));
    let request = script(&windows_request());
    assert!(request.contains(&variable(AUTHORITY_VARIABLE)) && request.contains("{ exit 10 }"));
    assert!(request.contains("::new('Root', 'CurrentUser')"));
    let protect = script(&protect_directory());
    assert!(protect.contains(&variable(DIRECTORY_VARIABLE)));
    assert!(protect.contains("$acl.SetAccessRuleProtection($true, $false)"));
}

#[test]
fn certificates_are_handed_to_windows_in_base64() {
    let authority = create_ca(1_700_000_000).ok().unwrap();
    let der = authority_der(&authority.cert).ok().unwrap();
    let expected = base64::engine::general_purpose::STANDARD.encode(&der);
    assert_eq!(windows_variable(authority.cert.as_bytes()).ok().unwrap(), expected);
    let short = b"-----BEGIN CERTIFICATE-----\n+/++\n-----END CERTIFICATE-----\n";
    assert_eq!(windows_variable(short).ok().unwrap(), "+/++");
    let padded = b"-----BEGIN CERTIFICATE-----\nAQ==\n-----END CERTIFICATE-----\n";
    assert_eq!(windows_variable(padded).ok().unwrap(), "AQ==");
    assert!(matches!(windows_variable(b"text"), Err(TrustError::Failed(_))));
}

#[test]
fn tls_requires_certificate_and_key_together() {
    assert!(tls_source(Some("cert.pem"), None).is_none());
    assert!(tls_source(None, Some("key.pem")).is_none());
    match tls_source(Some("cert.pem"), Some("key.pem")) {
        Some(TlsSource::Given { cert, key }) => assert_eq!((cert, key), ("cert.pem", "key.pem")),
        _ => panic!("not given"),
    }
    assert!(matches!(tls_source::<&str>(None, None), Some(TlsSource::Local)));
}

#[test]
fn certificates_are_kept_in_the_user_directory() {
    let at = |platform, local, xdg, home| {
        default_directory(platform, local, xdg, home).map(|at| format!("{}|{}", at.base, at.below))
    };
    let (local, xdg, home) = (Some("L"), Some("X"), Some("H"));
    assert_eq!(at(Platform::Windows, local, xdg, home).ok().unwrap(), "L|ccs-proxy/tls");
    assert_eq!(at(Platform::Unix, local, xdg, home).ok().unwrap(), "X|ccs-proxy/tls");
    assert_eq!(at(Platform::Unix, local, None, home).ok().unwrap(), "H|.config/ccs-proxy/tls");
    let error = at(Platform::Windows, None, xdg, home).err().unwrap();
    assert!(matches!(error, SetupError::MissingLocalAppData));
    assert_eq!(error.message(), "找不到 LOCALAPPDATA，请使用 --tls-cert 和 --tls-key 指定证书");
    let error = at(Platform::Unix, local, None, None).err().unwrap();
    assert_eq!(error.message(), "找不到用户目录，请使用 --tls-cert 和 --tls-key 指定证书");
    assert_eq!(DEFAULT_LISTEN, "127.0.0.1:8000");
    assert_eq!(DEFAULT_UPSTREAM_BASE_URL, "https://api.claudecode.store");
}
