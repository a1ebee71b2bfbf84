use worker::config::{Application, Check, CheckType, ExpectValue, Id, Visibility};
use worker::health_check::check::{
    cert_target, exec, expiry_warning, handshake_name, http, parse_command, tcp, tls_cert_warning,
    tls_connected, Answer, CertTarget, CheckRun, ExecOutcome, Handshake, HttpReply, Next,
    TcpOutcome,
};
use worker::health_check::HealthCheckResult;

const DAY: i64 = 86_400;

/// The first second of the year 2030.
const NEW_YEAR_2030: i64 = 1_893_456_000;

fn app(check_type: CheckType, url: &str) -> Application {
    Application {
        id: Id("api".to_string()),
        name: Some("The API".to_string()),
        visibility: Visibility::Public,
        required_tags: None,
        check: Check {
            check_type,
            url: url.to_string(),
            interval: "30s".to_string(),
            expect: ExpectValue { status_code: 200, exit_code: 0 },
        },
    }
}

fn tlv(tag: u8, parts: &[Vec<u8>]) -> Vec<u8> {
    let content: Vec<u8> = parts.concat();
    let mut der = vec![tag];
    if content.len() < 0x80 {
        der.push(content.len() as u8);
    } else {
        der.push(0x82);
        der.push((content.len() >> 8) as u8);
        der.push((content.len() & 0xff) as u8);
    }
    der.extend(content);
    der
}

fn certificate(not_after_tag: u8, not_after: &str) -> Vec<u8> {
    let algorithm = tlv(0x30, &[tlv(0x06, &[vec![0x2a, 0x86, 0x48, 0x86, 0xf7, 0x0d, 0x01, 0x01, 0x0b]])]);
    let key = tlv(0x30, &[algorithm.clone(), tlv(0x03, &[vec![0x00, 0x01]])]);
    let validity = tlv(
        0x30,
        &[
            tlv(0x17, &["200101000000Z".as_bytes().to_vec()]),
            tlv(not_after_tag, &[not_after.as_bytes().to_vec()]),
        ],
    );
    let name = tlv(0x30, &[]);
    let body = tlv(
        0x30,
        &[tlv(0x02, &[vec![0x01]]), algorithm.clone(), name.clone(), validity, name, key],
    );
    tlv(0x30, &[body, algorithm, tlv(0x03, &[vec![0x00, 0x01]])])
}

fn target(url: &str) -> Option<(String, u16)> {
    cert_target(url).map(|t| (t.host, t.port))
}

fn named(host: &str, port: u16) -> Option<(String, u16)> {
    Some((host.to_string(), port))
}

fn same(result: &HealthCheckResult, available: bool, status: Option<u16>, error: Option<&str>) {
    assert_eq!(result.id, Id("api".to_string()));
    assert_eq!(result.app_name, "The API");
    assert_eq!(result.is_available, available);
    assert_eq!(result.status_code, status);
    assert_eq!(result.error.as_deref(), error);
}

#[test]
fn a_url_names_host_and_port() {
    assert_eq!(target("https://example.com:8443/health"), named("example.com", 8443));
    assert_eq!(target("https://example.com/health"), named("example.com", 443));
    assert_eq!(target("https://example.com"), named("example.com", 443));
    assert_eq!(target("https://example.com:8443"), named("example.com", 8443));
    assert_eq!(target("http://example.com"), None);
    assert_eq!(target("HTTPS://example.com"), None);
    assert_eq!(target(""), None);
}

#[test]
fn odd_urls_are_read_to_the_letter() {
    assert_eq!(target("https://"), named("", 443));
    assert_eq!(target("https://https://a:1"), named("a", 1));
    assert_eq!(target("https://a/b:8080/c"), named("a", 8080));
    assert_eq!(target("https://a:b:80"), named("a", 443));
    assert_eq!(target("https://a:80:90"), named("a", 80));
    assert_eq!(target("https://a:+80"), named("a", 80));
    assert_eq!(target("https://a:65536/"), named("a", 443));
    assert_eq!(target("https://a:0/"), named("a", 0));
    assert_eq!(target("https://[::1]:8443/"), named("[", 443));
    assert_eq!(target("https://https:1/"), named("https", 1));
}

#[test]
fn hands_are_shaken_under_an_accepted_name_only() {
    let server = CertTarget { host: "example.com".to_string(), port: 443 };
    assert_eq!(tls_connected(&server, true).as_deref(), Some("example.com"));
    assert_eq!(tls_connected(&server, false), None);
    let address = CertTarget { host: "127.0.0.1".to_string(), port: 443 };
    assert_eq!(tls_connected(&address, true).as_deref(), Some("127.0.0.1"));
    for host in ["", "not a name", "-x", "999.1.1.1", "["] {
        let server = CertTarget { host: host.to_string(), port: 443 };
        assert_eq!(tls_connected(&server, true), None, "{}", host);
    }
    assert_eq!(handshake_name(&server, true, true).as_deref(), Some("example.com"));
    assert_eq!(handshake_name(&server, true, false), None);
    assert_eq!(handshake_name(&server, false, true), None);
}

#[test]
fn an_expiry_is_warned_of() {
    let now: i64 = 1_000_000_000;
    let at = |left: i64| now + left;
    let warning = |left: i64, days: i64| expiry_warning(at(left), now, days);
    assert_eq!(warning(2 * DAY, 3).as_deref(), Some("Certificate expires in 2 day(s)"));
    assert_eq!(warning(3 * DAY - 1, 3).as_deref(), Some("Certificate expires in 2 day(s)"));
    assert_eq!(warning(3 * DAY, 3), None);
    assert_eq!(warning(4 * DAY - 1, 3), None);
    assert_eq!(warning(DAY, 1), None);
    assert_eq!(warning(DAY, 2).as_deref(), Some("Certificate expires in 1 day(s)"));
    assert_eq!(warning(4 * DAY, 3), None);
    assert_eq!(warning(DAY - 1, 3).as_deref(), Some("Certificate EXPIRED 0"));
    assert_eq!(warning(0, 3).as_deref(), Some("Certificate EXPIRED 0"));
    assert_eq!(warning(-DAY + 1, 3).as_deref(), Some("Certificate EXPIRED 0"));
    assert_eq!(warning(-5 * DAY, 3).as_deref(), Some("Certificate EXPIRED 5"));
    assert_eq!(warning(-5 * DAY, -10).as_deref(), Some("Certificate EXPIRED 5"));
    assert_eq!(warning(DAY, 0), None);
    assert_eq!(
        expiry_warning(i64::MAX, i64::MIN, i64::MAX).as_deref(),
        Some("Certificate expires in 213503982334601 day(s)")
    );
    assert_eq!(
        expiry_warning(i64::MIN, i64::MAX, 0).as_deref(),
        Some("Certificate EXPIRED 213503982334601")
    );
}

#[test]
fn more_days_keep_the_warning() {
    let shown = Handshake::Completed(Some(vec![certificate(0x17, "300101000000Z")]));
    for left in -3..10 {
        let now = NEW_YEAR_2030 - left * DAY;
        for days in 0..10 {
            let warning = tls_cert_warning(&shown, days, now);
            assert_eq!(warning.is_some(), left <= 0 || left < days);
            if warning.is_some() {
                assert_eq!(tls_cert_warning(&shown, days + 1, now), warning);
            }
        }
    }
}

#[test]
fn more_days_change_nothing_but_the_warning() {
    let end = |days: i64| {
        let (mut run, _) = CheckRun::start(app(CheckType::Http, "https://example.com"), days);
        run.step(Answer::TlsOpened(true));
        let shown = Handshake::Completed(Some(vec![certificate(0x17, "300101000000Z")]));
        run.step(Answer::HandsShaken(shown, NEW_YEAR_2030 - 2 * DAY));
        match run.step(Answer::Replied(HttpReply::Status(200))) {
            Next::Done(result) => result,
            _ => panic!("the check is done"),
        }
    };
    for days in [0, 2, 3, 4, 30] {
        let result = end(days);
        same(&result, true, Some(200), None);
        let warning = if days > 2 { Some("Certificate expires in 2 day(s)") } else { None };
        assert_eq!(result.cert_warning.as_deref(), warning);
    }
}

#[test]
fn a_warning_stays_due() {
    let not_after = 1_000_000_000i64;
    let mut due = false;
    for day in 0..20 {
        let now = not_after - (10 - day) * DAY;
        let warned = expiry_warning(not_after, now, 3).is_some();
        assert_eq!(warned, day >= 8);
        assert!(warned || !due);
        if warned {
            assert_eq!(
                expiry_warning(not_after, now, 5),
                expiry_warning(not_after, now, 3)
            );
        }
        due = warned;
    }
}

#[test]
fn the_certificate_shown_first_decides() {
    let der = certificate(0x17, "300101000000Z");
    let now = NEW_YEAR_2030 - 2 * DAY;
    let other = certificate(0x17, "400101000000Z");
    let shown = Handshake::Completed(Some(vec![der.clone(), other.clone()]));
    assert_eq!(
        tls_cert_warning(&shown, 3, now).as_deref(),
        Some("Certificate expires in 2 day(s)")
    );
    assert_eq!(tls_cert_warning(&shown, 2, now), None);
    assert_eq!(tls_cert_warning(&shown, 1, now), None);
    let three_days = NEW_YEAR_2030 - 3 * DAY;
    assert_eq!(tls_cert_warning(&shown, 3, three_days), None);
    let shown = Handshake::Completed(Some(vec![other, der]));
    assert_eq!(tls_cert_warning(&shown, 3, now), None);
    let general = certificate(0x18, "20300101000000Z");
    let shown = Handshake::Completed(Some(vec![general]));
    assert_eq!(
        tls_cert_warning(&shown, 3, now).as_deref(),
        Some("Certificate expires in 2 day(s)")
    );
}

#[test]
fn certificates_at_the_ends_of_time_are_handled() {
    let last = Handshake::Completed(Some(vec![certificate(0x18, "99991231235959Z")]));
    assert_eq!(tls_cert_warning(&last, 3, 0), None);
    assert_eq!(
        tls_cert_warning(&last, i64::MAX, 0).as_deref(),
        Some("Certificate expires in 2932896 day(s)")
    );
    let first = Handshake::Completed(Some(vec![certificate(0x18, "00000101000000Z")]));
    assert_eq!(
        tls_cert_warning(&first, 3, 0).as_deref(),
        Some("Certificate EXPIRED 719528")
    );
    assert_eq!(
        tls_cert_warning(&first, 3, i64::MAX).as_deref(),
        Some("Certificate EXPIRED 106751991886828")
    );
}

#[test]
fn no_certificate_means_no_warning() {
    let now = NEW_YEAR_2030;
    assert_eq!(tls_cert_warning(&Handshake::Failed, 3, now), None);
    assert_eq!(tls_cert_warning(&Handshake::Completed(None), 3, now), None);
    assert_eq!(tls_cert_warning(&Handshake::Completed(Some(vec![])), 3, now), None);
    let broken = Handshake::Completed(Some(vec![vec![0x30, 0x03, 0x02, 0x01, 0x01]]));
    assert_eq!(tls_cert_warning(&broken, 3, now), None);
    let broken = Handshake::Completed(Some(vec![vec![]]));
    assert_eq!(tls_cert_warning(&broken, 3, now), None);
}

#[test]
fn an_http_check_expects_its_status() {
    let api = app(CheckType::Http, "http://x");
    let found = http(&api, HttpReply::Status(200), None);
    same(&found, true, Some(200), None);
    assert_eq!(found.cert_warning, None);
    let found = http(&api, HttpReply::Status(500), Some("soon".to_string()));
    same(&found, false, Some(500), None);
    assert_eq!(found.cert_warning.as_deref(), Some("soon"));
    let found = http(&api, HttpReply::Failed("refused".to_string()), Some("soon".to_string()));
    same(&found, false, None, Some("refused"));
    assert_eq!(found.cert_warning.as_deref(), Some("soon"));
}

#[test]
fn a_tcp_check_expects_a_connection() {
    let api = app(CheckType::Tcp, "x:1");
    same(&tcp(&api, TcpOutcome::Connected), true, None, None);
    same(&tcp(&api, TcpOutcome::Failed("refused".to_string())), false, None, Some("refused"));
    same(&tcp(&api, TcpOutcome::TimedOut), false, None, Some("connection timed out"));
}

#[test]
fn a_command_check_expects_its_exit_code() {
    let mut api = app(CheckType::Exec, "true");
    same(&exec(&api, ExecOutcome::Exited(Some(0))), true, Some(0), None);
    same(&exec(&api, ExecOutcome::Exited(Some(2))), false, Some(2), Some("exit code 2"));
    same(&exec(&api, ExecOutcome::Exited(None)), false, Some(65535), Some("exit code -1"));
    same(
        &exec(&api, ExecOutcome::SpawnFailed("no such file".to_string())),
        false,
        None,
        Some("spawn error: no such file"),
    );
    same(&exec(&api, ExecOutcome::TimedOut), false, None, Some("command timed out"));
    api.check.expect.exit_code = 7;
    same(&exec(&api, ExecOutcome::Exited(Some(7))), true, Some(7), None);
    same(&exec(&api, ExecOutcome::Exited(Some(0))), false, Some(0), Some("exit code 0"));
    api.check.expect.exit_code = -1;
    same(&exec(&api, ExecOutcome::Exited(None)), true, Some(65535), None);
    for code in [i32::MIN, -65_537, -65_536, 65_535, 65_536, 70_000, i32::MAX] {
        let found = exec(&api, ExecOutcome::Exited(Some(code)));
        assert_eq!(found.status_code, Some(code as u16));
        assert_eq!(found.error, Some(format!("exit code {}", code)));
    }
}

#[test]
fn a_command_is_followed_by_its_arguments() {
    let command = parse_command("  curl -f\thttp://x ").unwrap();
    assert_eq!(command.program, "curl");
    assert_eq!(command.args, vec!["-f".to_string(), "http://x".to_string()]);
    let command = parse_command("true").unwrap();
    assert_eq!(command.program, "true");
    assert!(command.args.is_empty());
    assert!(parse_command("").is_none());
    assert!(parse_command(" \t ").is_none());
}

#[test]
fn an_https_check_looks_at_the_certificate_first() {
    let (mut run, next) = CheckRun::start(app(CheckType::Http, "https://example.com:8443/x"), 3);
    match next {
        Next::OpenTls { host, port } => {
            assert_eq!(host, "example.com");
            assert_eq!(port, 8443);
        }
        _ => panic!("a connection is opened"),
    }
    assert!(!run.takes(&Answer::Replied(HttpReply::Status(200))));
    let opened = Answer::TlsOpened(true);
    assert!(run.takes(&opened));
    match run.step(opened) {
        Next::ShakeHands { name } => assert_eq!(name, "example.com"),
        _ => panic!("hands are shaken"),
    }
    let now = NEW_YEAR_2030 - DAY;
    assert!(!run.takes(&Answer::TlsOpened(true)));
    assert!(run.takes(&Answer::HandsShaken(Handshake::Failed, i64::MAX)));
    let shown = Handshake::Completed(Some(vec![certificate(0x17, "300101000000Z")]));
    match run.step(Answer::HandsShaken(shown, now)) {
        Next::Request { url, timeout_secs } => {
            assert_eq!(url, "https://example.com:8443/x");
            assert_eq!(timeout_secs, 5);
        }
        _ => panic!("the URL is requested"),
    }
    match run.step(Answer::Replied(HttpReply::Status(200))) {
        Next::Done(result) => {
            same(&result, true, Some(200), None);
            assert_eq!(result.cert_warning.as_deref(), Some("Certificate expires in 1 day(s)"));
        }
        _ => panic!("the check is done"),
    }
    assert!(!run.takes(&Answer::Replied(HttpReply::Status(200))));
}

#[test]
fn a_failed_look_at_the_certificate_is_no_failure() {
    for url in ["https://example.com", "https://not a name"] {
        let (mut run, _) = CheckRun::start(app(CheckType::Http, url), 3);
        let opened = url == "https://not a name";
        assert!(matches!(run.step(Answer::TlsOpened(opened)), Next::Request { .. }));
        match run.step(Answer::Replied(HttpReply::Status(200))) {
            Next::Done(result) => {
                same(&result, true, Some(200), None);
                assert_eq!(result.cert_warning, None);
            }
            _ => panic!("the check is done"),
        }
    }
}

#[test]
fn other_checks_take_one_answer() {
    let (mut run, next) = CheckRun::start(app(CheckType::Http, "http://x"), 3);
    assert!(matches!(next, Next::Request { timeout_secs: 5, .. }));
    match run.step(Answer::Replied(HttpReply::Failed("refused".to_string()))) {
        Next::Done(result) => same(&result, false, None, Some("refused")),
        _ => panic!("the check is done"),
    }
    let (mut run, next) = CheckRun::start(app(CheckType::Tcp, "x:1"), 3);
    match next {
        Next::Connect { address, timeout_secs } => {
            assert_eq!(address, "x:1");
            assert_eq!(timeout_secs, 5);
        }
        _ => panic!("a connection is opened"),
    }
    match run.step(Answer::Connected(TcpOutcome::Connected)) {
        Next::Done(result) => same(&result, true, None, None),
        _ => panic!("the check is done"),
    }
    let (mut run, next) = CheckRun::start(app(CheckType::Exec, "sh -c true"), 3);
    match next {
        Next::Run { command, timeout_secs } => {
            assert_eq!(command.program, "sh");
            assert_eq!(command.args, vec!["-c".to_string(), "true".to_string()]);
            assert_eq!(timeout_secs, 30);
        }
        _ => panic!("the command is run"),
    }
    match run.step(Answer::Ran(ExecOutcome::Exited(Some(0)))) {
        Next::Done(result) => same(&result, true, Some(0), None),
        _ => panic!("the check is done"),
    }
    let (_, next) = CheckRun::start(app(CheckType::Exec, "  "), 3);
    match next {
        Next::Done(result) => same(&result, false, None, Some("empty command")),
        _ => panic!("the check is done"),
    }
}
