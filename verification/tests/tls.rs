use std::collections::HashMap;

use ccs_proxy::certificates::{
    authority_der, check_authority, clock_is_usable, create_ca, create_server, read_authority,
    valid_leaf, writable_name, KeyedCertificate, SubjectAttribute, DAY, LAST_INSTANT,
};
use ccs_proxy::error::SetupError;
use ccs_proxy::tls::{
    ensure_certificates_reading, prepare, proceed, with_new_authority, with_new_server, Action,
    Certificates, Event, Stage, Step,
};
use rcgen::{
    BasicConstraints, CertificateParams, DistinguishedName, DnType, DnValue, IsCa, Issuer, KeyPair,
    PublicKeyData,
};
use time::OffsetDateTime;

fn now() -> i64 {
    OffsetDateTime::now_utc().unix_timestamp()
}

/// What comes of reading a private key.
fn read(key: &str) -> Result<Vec<u8>, String> {
    KeyPair::from_pem(key)
        .map(|pair| pair.subject_public_key_info())
        .map_err(|error| error.to_string())
}

/// An authority with these names, some bytes of whose certificate are replaced.
fn named(names: Vec<(DnType, DnValue)>, replaced: &[(&[u8], &[u8])]) -> KeyedCertificate {
    let key = KeyPair::generate().unwrap();
    let mut params = CertificateParams::default();
    params.is_ca = IsCa::Ca(BasicConstraints::Unconstrained);
    params.distinguished_name = DistinguishedName::new();
    for (kind, value) in names {
        params.distinguished_name.push(kind, value);
    }
    let mut der = params.self_signed(&key).unwrap().der().to_vec();
    for (old, new) in replaced {
        let mut count = 0;
        for at in 0..der.len() - old.len() {
            if der[at..].starts_with(old) {
                der[at..at + new.len()].copy_from_slice(new);
                count += 1;
            }
        }
        assert_eq!(count, 2);
    }
    let cert = pem::encode(&pem::Pem::new("CERTIFICATE", der));
    KeyedCertificate { cert, key: key.serialize_pem() }
}

fn printable(text: &str) -> DnValue {
    DnValue::PrintableString(text.try_into().unwrap())
}

/// A certificate directory, and a system that trusts it or not.
struct Machine {
    files: HashMap<String, Vec<u8>>,
    trusted: bool,
    accept: bool,
    requests: usize,
    writes: Vec<String>,
    broken: Option<String>,
}

impl Machine {
    fn new(trusted: bool, accept: bool) -> Machine {
        Machine {
            files: HashMap::new(),
            trusted,
            accept,
            requests: 0,
            writes: Vec::new(),
            broken: None,
        }
    }

    fn text(&self, name: &str) -> String {
        String::from_utf8(self.files[name].clone()).unwrap()
    }

    fn put(&mut self, name: &str, text: &str) {
        self.files.insert(name.to_string(), text.as_bytes().to_vec());
    }

    fn perform(&mut self, action: &Action) -> Event {
        match action {
            Action::CreateDirectory => Event::Done,
            Action::FindFile(file) => Event::Found(self.files.contains_key(&file.name())),
            Action::ReadText(file) => match self.files.get(&file.name()) {
                Some(bytes) => match String::from_utf8(bytes.clone()) {
                    Ok(text) => Event::Text(text),
                    Err(error) => Event::Failed(error.to_string()),
                },
                None => Event::Failed("not found".to_string()),
            },
            Action::ReadBytes(file) => match self.files.get(&file.name()) {
                Some(bytes) => Event::Bytes(bytes.clone()),
                None => Event::Failed("not found".to_string()),
            },
            Action::WriteFile { file, text } => {
                if self.broken.as_ref() == Some(&file.name()) {
                    return Event::Failed("disk full".to_string());
                }
                self.writes.push(file.name());
                self.put(&file.name(), text);
                Event::Done
            }
            Action::CheckTrust => Event::Trusted(self.trusted),
            Action::RequestTrust => {
                self.requests += 1;
                if self.accept {
                    self.trusted = true;
                    Event::Done
                } else {
                    Event::Failed("authorization cancelled".to_string())
                }
            }
            Action::Finish(_) => panic!("nothing is left to do"),
        }
    }

    fn start_at(&mut self, started: i64) -> Result<Certificates, String> {
        let mut step = prepare("/certificates", started);
        loop {
            if let Action::Finish(outcome) = step.action {
                return outcome.map_err(|error| error.message());
            }
            let event = self.perform(&step.action);
            assert!(step.setup.expects(&event));
            step = proceed(step.setup, event, started);
        }
    }

    fn start(&mut self) -> Result<Certificates, String> {
        self.start_at(now())
    }
}

#[test]
fn first_start_requests_trust_and_subsequent_start_reuses_certificates() {
    let mut machine = Machine::new(false, true);
    let paths = machine.start().ok().unwrap();
    let ca = machine.text(&paths.ca);
    let cert = machine.text(&paths.cert);
    machine.start().ok().unwrap();
    assert_eq!(machine.requests, 1);
    assert_eq!(machine.text(&paths.ca), ca);
    assert_eq!(machine.text(&paths.cert), cert);
    assert_eq!(machine.writes, ["ca-key.pem", "ca.pem", "localhost-key.pem", "localhost.pem"]);
}

#[test]
fn declined_authorization_stops_setup() {
    let mut machine = Machine::new(false, false);
    assert_eq!(machine.start().err().unwrap(), "authorization cancelled");
    assert_eq!(machine.requests, 1);
}

#[test]
fn missing_or_invalid_leaf_is_renewed_without_replacing_ca() {
    let mut machine = Machine::new(true, true);
    let paths = machine.start().ok().unwrap();
    let ca = machine.text(&paths.ca);
    machine.put(&paths.cert, "invalid");
    machine.start().ok().unwrap();
    assert_eq!(machine.text(&paths.ca), ca);
    machine.files.remove(&paths.key);
    machine.start().ok().unwrap();
    assert_eq!(machine.text(&paths.ca), ca);
    assert_eq!(machine.writes.len(), 8);
    assert_eq!(machine.requests, 0);
}

#[test]
fn soon_expiring_leaf_is_renewed_under_the_same_ca() {
    let mut machine = Machine::new(true, true);
    let paths = machine.start().ok().unwrap();
    let ca = machine.text(&paths.ca);
    let ca_key = KeyPair::from_pem(&machine.text("ca-key.pem")).unwrap();
    let issuer = Issuer::from_ca_cert_pem(&ca, ca_key).unwrap();
    let key = KeyPair::generate().unwrap();
    let mut params = CertificateParams::new(vec!["localhost".into()]).unwrap();
    params.not_before = OffsetDateTime::now_utc() - time::Duration::days(1);
    params.not_after = OffsetDateTime::now_utc() + time::Duration::days(1);
    let old = params.signed_by(&key, &issuer).unwrap().pem();
    machine.put(&paths.cert, &old);
    machine.put(&paths.key, &key.serialize_pem());
    machine.start().ok().unwrap();
    assert_eq!(machine.text(&paths.ca), ca);
    assert_ne!(machine.text(&paths.cert), old);
}

#[test]
fn expired_ca_is_replaced_and_trust_is_requested_again() {
    let mut machine = Machine::new(false, true);
    let old = create_ca(now() - 3651 * DAY).ok().unwrap();
    machine.put("ca.pem", &old.cert);
    machine.put("ca-key.pem", &old.key);
    machine.start().ok().unwrap();
    assert_ne!(machine.text("ca.pem"), old.cert);
    assert_eq!(machine.requests, 1);
}

#[test]
fn incomplete_ca_is_not_silently_overwritten() {
    let mut machine = Machine::new(true, true);
    machine.put("ca.pem", "existing");
    let message = "本地 CA 文件不完整，保留现有文件，请检查 /certificates";
    assert_eq!(machine.start().err().unwrap(), message);
    assert_eq!(machine.text("ca.pem"), "existing");
    assert!(machine.writes.is_empty());
    machine.files.clear();
    machine.put("ca-key.pem", "existing");
    assert_eq!(machine.start().err().unwrap(), message);
    assert!(machine.writes.is_empty());
}

#[test]
fn unsound_ca_is_not_silently_overwritten() {
    let authority = create_ca(now()).ok().unwrap();
    let other = create_ca(now()).ok().unwrap();
    let server = create_server(&authority, now()).ok().unwrap();
    let broken = "-----BEGIN CERTIFICATE-----\nAAAA\n-----END CERTIFICATE-----\n";
    for (cert, key, message) in [
        (authority.cert.as_str(), other.key.as_str(), "本地 CA 证书与私钥不匹配，未覆盖现有文件"),
        (server.cert.as_str(), server.key.as_str(), "本地 CA 证书缺少 CA 属性"),
        (broken, other.key.as_str(), "无效的 CA 证书: "),
        ("text", other.key.as_str(), "no items found"),
        (authority.cert.as_str(), "text", "PEM error: malformedframing"),
    ] {
        let mut machine = Machine::new(true, true);
        machine.put("ca.pem", cert);
        machine.put("ca-key.pem", key);
        let text = machine.start().err().unwrap();
        assert!(text.starts_with(message), "{text}");
        assert!(machine.writes.is_empty());
    }
}

#[test]
fn unreadable_ca_stops_setup() {
    let mut machine = Machine::new(true, true);
    machine.files.insert("ca.pem".to_string(), vec![0xff]);
    machine.put("ca-key.pem", "key");
    assert!(machine.start().is_err());
    assert!(machine.writes.is_empty());
}

#[test]
fn failed_write_stops_setup() {
    for file in ["ca-key.pem", "ca.pem", "localhost-key.pem", "localhost.pem"] {
        let mut machine = Machine::new(true, true);
        machine.broken = Some(file.to_string());
        assert_eq!(machine.start().err().unwrap(), "disk full");
    }
}

#[test]
fn trust_that_is_not_given_stops_setup() {
    let mut machine = Machine::new(false, true);
    let mut step = prepare("/certificates", now());
    let mut checks = 0;
    loop {
        if let Action::Finish(outcome) = step.action {
            assert!(matches!(&outcome, Err(SetupError::NotTrusted)));
            assert_eq!(
                outcome.err().unwrap().message(),
                "系统尚未信任 localhost 证书。HTTPS 代理未启动，请重新运行并完成系统授权"
            );
            break;
        }
        let event = match step.action {
            Action::CheckTrust => {
                checks += 1;
                Event::Trusted(false)
            }
            action => machine.perform(&action),
        };
        step = proceed(step.setup, event, now());
    }
    assert_eq!((checks, machine.requests), (2, 1));
}

#[test]
fn certificate_that_stays_invalid_stops_setup() {
    let mut machine = Machine::new(true, true);
    let started = now();
    let mut step = prepare("/certificates", started);
    loop {
        if let Action::Finish(outcome) = step.action {
            assert!(matches!(&outcome, Err(SetupError::InvalidServerCertificate)));
            assert_eq!(outcome.err().unwrap().message(), "生成的 localhost 证书校验失败");
            break;
        }
        let event = machine.perform(&step.action);
        step = proceed(step.setup, event, started + 400 * DAY);
    }
    assert_eq!(machine.writes.len(), 4);
}

#[test]
fn failed_directory_stops_setup() {
    let step = prepare("/certificates", now());
    let step = proceed(step.setup, Event::Failed("denied".to_string()), now());
    assert!(matches!(step.action, Action::Finish(Err(SetupError::Failed(text))) if text == "denied"));
}

#[test]
fn only_fitting_events_are_expected() {
    let step = prepare("/certificates", now());
    assert!(step.setup.expects(&Event::Done));
    assert!(!step.setup.expects(&Event::Found(true)));
    assert!(!step.setup.expects(&Event::Trusted(true)));
    let step = proceed(step.setup, Event::Done, now());
    assert!(step.setup.expects(&Event::Found(false)));
    assert!(!step.setup.expects(&Event::Failed(String::new())));
}

#[test]
fn made_certificates_are_written_key_first() {
    let authority = KeyedCertificate { cert: "cert".to_string(), key: "key".to_string() };
    let step = with_new_authority("/d".to_string(), 1, Ok(authority));
    assert!(matches!(&step.action, Action::WriteFile { file, text } if file.name() == "ca-key.pem" && text == "key"));
    let step = proceed(step.setup, Event::Done, 1);
    assert!(matches!(&step.action, Action::WriteFile { file, text } if file.name() == "ca.pem" && text == "cert"));
    let authority = KeyedCertificate { cert: "cert".to_string(), key: "key".to_string() };
    let server = KeyedCertificate { cert: "leaf".to_string(), key: "leaf key".to_string() };
    let step = with_new_server("/d".to_string(), 1, authority, vec![7], Ok(server));
    assert!(matches!(&step.action, Action::WriteFile { file, text } if file.name() == "localhost-key.pem" && text == "leaf key"));
    assert!(matches!(&step.setup.stage, Stage::WritingServerKey { ca, .. } if ca == &[7]));
    let step = with_new_authority("/d".to_string(), 1, Err(SetupError::Failed("no".to_string())));
    assert!(matches!(step.action, Action::Finish(Err(SetupError::Failed(_)))));
}

#[test]
fn new_authority_says_what_it_is() {
    let made = now();
    let authority = create_ca(made).ok().unwrap();
    let facts = read_authority(&authority.cert).ok().unwrap();
    assert!(facts.is_ca);
    assert_eq!(facts.not_after, made + 3650 * DAY);
    let kept = |at: i64| check_authority(&facts, read(&authority.key), at).ok().unwrap();
    assert!(kept(made));
    assert!(kept(made + 3620 * DAY - 1));
    assert!(!kept(made + 3620 * DAY));
    assert!(!kept(i64::MAX - 30 * DAY));
    assert!(kept(i64::MIN));
    assert_eq!(facts.subject.len(), 1);
    assert_eq!(facts.subject[0].kind, Some(vec![2, 5, 4, 3]));
    assert_eq!(facts.subject[0].tag, 12);
    assert_eq!(facts.subject[0].value, b"CCS Proxy Local CA");

    let der = authority_der(&authority.cert).ok().unwrap();
    let (_, parsed) = x509_parser::parse_x509_certificate(&der).unwrap();
    assert_eq!(parsed.subject().to_string(), "CN=CCS Proxy Local CA");
    assert_eq!(parsed.issuer().to_string(), "CN=CCS Proxy Local CA");
    assert_eq!(parsed.validity().not_before.timestamp(), made - 300);
    let constraints = parsed.basic_constraints().unwrap().unwrap().value;
    assert!(constraints.ca);
    assert_eq!(constraints.path_len_constraint, Some(0));
    let usage = parsed.key_usage().unwrap().unwrap().value;
    assert!(usage.key_cert_sign() && usage.crl_sign() && !usage.digital_signature());
    assert!(parsed.extended_key_usage().unwrap().is_none());
}

#[test]
fn new_server_certificate_says_what_it_is() {
    let made = now();
    let authority = create_ca(made).ok().unwrap();
    let server = create_server(&authority, made).ok().unwrap();
    let der = authority_der(&server.cert).ok().unwrap();
    let (_, parsed) = x509_parser::parse_x509_certificate(&der).unwrap();
    assert_eq!(parsed.subject().to_string(), "CN=localhost");
    assert_eq!(parsed.issuer().to_string(), "CN=CCS Proxy Local CA");
    assert_eq!(parsed.validity().not_before.timestamp(), made - 300);
    assert_eq!(parsed.validity().not_after.timestamp(), made + 365 * DAY);
    assert!(!parsed.is_ca());
    let usage = parsed.key_usage().unwrap().unwrap().value;
    assert!(usage.digital_signature() && !usage.key_cert_sign() && !usage.crl_sign());
    let purposes = parsed.extended_key_usage().unwrap().unwrap().value;
    assert!(purposes.server_auth && !purposes.client_auth && !purposes.any);
    let names = parsed.subject_alternative_name().unwrap().unwrap().value;
    assert_eq!(names.general_names.len(), 3);
}

#[test]
fn broken_authority_signs_nothing() {
    let text = || "text".to_string();
    let authority = create_ca(now()).ok().unwrap();
    let error = create_server(&KeyedCertificate { cert: text(), key: text() }, now()).err().unwrap();
    assert_eq!(error.message(), "PEM error: malformedframing");
    let error =
        create_server(&KeyedCertificate { cert: text(), key: authority.key }, now()).err().unwrap();
    assert_eq!(error.message(), "Could not parse certificate");
}

#[test]
fn valid_leaf_checks_key_name_signature_and_time() {
    let made = now();
    let authority = create_ca(made).ok().unwrap();
    let other = create_ca(made).ok().unwrap();
    let ca = authority_der(&authority.cert).ok().unwrap();
    let other_ca = authority_der(&other.cert).ok().unwrap();
    let server = create_server(&authority, made).ok().unwrap();
    let cert = server.cert.as_bytes();
    let key = read(&server.key);
    assert!(valid_leaf(cert, &key, &ca, made));
    assert!(!valid_leaf(cert, &read(&authority.key), &ca, made));
    assert!(!valid_leaf(cert, &read("text"), &ca, made));
    assert!(!valid_leaf(b"text", &key, &ca, made));
    assert!(!valid_leaf(cert, &key, &other_ca, made));
    assert!(!valid_leaf(cert, &key, b"text", made));
    assert!(!valid_leaf(cert, &key, &ca, made - 400));
    assert!(valid_leaf(cert, &key, &ca, made + 335 * DAY));
    assert!(!valid_leaf(cert, &key, &ca, made + 335 * DAY + 1));
    assert!(!valid_leaf(cert, &key, &ca, -1));
    assert!(!valid_leaf(cert, &key, &ca, i64::MAX - 30 * DAY));

    let issuer_key = KeyPair::from_pem(&authority.key).unwrap();
    let issuer = Issuer::from_ca_cert_pem(&authority.cert, issuer_key).unwrap();
    let key = KeyPair::generate().unwrap();
    let mut params = CertificateParams::new(vec!["example.com".to_string()]).unwrap();
    params.not_before = OffsetDateTime::from_unix_timestamp(made - DAY).unwrap();
    params.not_after = OffsetDateTime::from_unix_timestamp(made + 90 * DAY).unwrap();
    let foreign = params.signed_by(&key, &issuer).unwrap().pem();
    assert!(!valid_leaf(foreign.as_bytes(), &read(&key.serialize_pem()), &ca, made));
}

#[test]
fn certificates_can_be_made_from_the_year_0_to_9999() {
    for made in [-62_167_219_200 + 300, -631_152_000, 0, 2_524_608_000, LAST_INSTANT - 3650 * DAY] {
        assert!(clock_is_usable(made));
        let authority = create_ca(made).ok().unwrap();
        let facts = read_authority(&authority.cert).ok().unwrap();
        assert_eq!(facts.not_after, made + 3650 * DAY);
        assert!(facts.is_ca);
        assert!(create_server(&authority, made).is_ok());
    }
    assert!(!clock_is_usable(-62_167_219_200 + 299));
    assert!(!clock_is_usable(LAST_INSTANT - 3650 * DAY + 1));
    assert!(!clock_is_usable(i64::MAX));
    assert!(!clock_is_usable(i64::MIN));
}

#[test]
fn name_that_cannot_be_written_signs_nothing() {
    let custom = || (DnType::CustomDnType(vec![1, 2, 3, 4]), DnValue::from("x"));
    let common = |text: &str| (DnType::CommonName, printable(text));
    assert!(create_server(&named(vec![common("ab:c"), custom()], &[]), now()).is_ok());
    for authority in [
        named(vec![common("ab:c")], &[(b"ab:c", b"ab?c")]),
        named(vec![custom()], &[(&[6, 3, 42, 3, 4], &[6, 3, 127, 3, 4])]),
    ] {
        let error = create_server(&authority, now()).err().unwrap();
        assert!(matches!(&error, SetupError::InvalidAuthority(_)));
        assert_eq!(error.message(), "无效的 CA 证书: unsupported subject name");
        let mut machine = Machine::new(true, true);
        machine.put("ca.pem", &authority.cert);
        machine.put("ca-key.pem", &authority.key);
        let message = machine.start_at(1_700_000_000).err().unwrap();
        assert_eq!(message, "无效的 CA 证书: unsupported subject name");
        assert!(machine.writes.is_empty());
    }
}

#[test]
fn name_that_is_not_even_taken_is_an_error_of_its_own() {
    let common = |text: &str| (DnType::CommonName, printable(text));
    let authority = named(vec![common("ab:c:")], &[(b"ab:c:", b"ab?c@")]);
    let facts = read_authority(&authority.cert).ok().unwrap();
    assert!(!writable_name(&facts.subject));
    let error = create_server(&authority, now()).err().unwrap();
    assert!(matches!(&error, SetupError::Failed(text) if text.contains("ab?c@")), "{}", error.message());
}

#[test]
fn later_part_of_a_name_outdoes_an_earlier_one() {
    let custom = (DnType::CustomDnType(vec![2, 5, 4, 99]), DnValue::from("x"));
    let authority = named(
        vec![(DnType::CommonName, printable("ab:c")), custom],
        &[(b"ab:c", b"ab?c"), (&[6, 3, 85, 4, 99], &[6, 3, 85, 4, 3])],
    );
    let facts = read_authority(&authority.cert).ok().unwrap();
    assert_eq!(facts.subject.len(), 2);
    assert_eq!((facts.subject[0].tag, facts.subject[0].value.as_slice()), (19, b"ab?c".as_slice()));
    assert!(writable_name(&facts.subject));
    assert!(create_server(&authority, now()).is_ok());
}

#[test]
fn names_can_be_written_or_not() {
    let part = |kind: Option<&[u64]>, tag: u32, value: &str| SubjectAttribute {
        kind: kind.map(|arcs| arcs.to_vec()),
        tag,
        value: value.as_bytes().to_vec(),
    };
    assert!(writable_name(&vec![]));
    assert!(writable_name(&vec![part(None, 19, "?")]));
    assert!(writable_name(&vec![part(Some(&[2, 5, 4, 3]), 12, "?")]));
    assert!(!writable_name(&vec![part(Some(&[2, 5, 4, 3]), 19, "?")]));
    let twice = || part(Some(&[2, 5, 4, 3]), 19, "?");
    assert!(writable_name(&vec![twice(), part(Some(&[2, 5, 4, 3]), 19, "x")]));
    assert!(!writable_name(&vec![twice(), part(Some(&[2, 5, 4]), 19, "x")]));
    assert!(!writable_name(&vec![twice(), twice()]));
    for (arcs, writable) in [
        (vec![], false),
        (vec![1], false),
        (vec![0, 39], true),
        (vec![1, 40], false),
        (vec![2, 40], true),
        (vec![2, u64::MAX - 81], true),
        (vec![2, u64::MAX - 80], false),
        (vec![3, 0], false),
    ] {
        assert_eq!(writable_name(&vec![part(Some(&arcs), 12, "x")]), writable, "{arcs:?}");
    }
}

/// The step at which the setup waits for a private key, and the key.
fn step_with_key(machine: &mut Machine, server: bool) -> (Step, String) {
    let mut step = prepare("/certificates", now());
    loop {
        let event = machine.perform(&step.action);
        match (&step.setup.stage, event) {
            (Stage::ReadingAuthorityKey { .. }, Event::Text(key)) if !server => return (step, key),
            (Stage::ReadingServerKey { .. }, Event::Text(key)) if server => return (step, key),
            (_, event) => step = proceed(step.setup, event, now()),
        }
    }
}

#[test]
fn authority_key_that_cannot_be_read_stops_setup() {
    let mut machine = Machine::new(true, true);
    machine.start().ok().unwrap();
    let (step, key) = step_with_key(&mut machine, false);
    let outcome = Some(Err("no random numbers".to_string()));
    let step = ensure_certificates_reading(step.setup, Event::Text(key), outcome, now());
    assert!(matches!(
        step.action,
        Action::Finish(Err(SetupError::Failed(text))) if text == "no random numbers"
    ));
    let (step, key) = step_with_key(&mut machine, false);
    let outcome = Some(read(&key));
    let step = ensure_certificates_reading(step.setup, Event::Text(key), outcome, now());
    assert!(matches!(step.setup.stage, Stage::ReadingServer { renewed: false, .. }));
    let (step, key) = step_with_key(&mut machine, false);
    let outcome = Some(Ok(vec![1]));
    let step = ensure_certificates_reading(step.setup, Event::Text(key), outcome, now());
    assert!(matches!(step.action, Action::Finish(Err(SetupError::KeyMismatch))));
}

#[test]
fn server_key_that_cannot_be_read_is_replaced() {
    let mut machine = Machine::new(true, true);
    machine.start().ok().unwrap();
    let (step, key) = step_with_key(&mut machine, true);
    let outcome = Some(Err("no random numbers".to_string()));
    let step = ensure_certificates_reading(step.setup, Event::Text(key), outcome, now());
    assert!(matches!(&step.action, Action::WriteFile { file, .. } if file.name() == "localhost-key.pem"));
    let (step, key) = step_with_key(&mut machine, true);
    let outcome = Some(read(&key));
    let step = ensure_certificates_reading(step.setup, Event::Text(key), outcome, now());
    assert!(matches!(step.setup.stage, Stage::ReadingServer { renewed: true, .. }));
}

#[test]
fn handed_out_certificate_is_valid_under_the_authority() {
    let mut machine = Machine::new(false, true);
    for spoil in [None, Some("localhost.pem"), Some("localhost-key.pem")] {
        if let Some(name) = spoil {
            machine.put(name, "invalid");
        }
        let at = now();
        let paths = machine.start_at(at).ok().unwrap();
        let ca = authority_der(&machine.text(&paths.ca)).ok().unwrap();
        let key = read(&machine.text(&paths.key));
        assert!(valid_leaf(machine.text(&paths.cert).as_bytes(), &key, &ca, at));
    }
    assert_eq!(machine.requests, 1);
}
