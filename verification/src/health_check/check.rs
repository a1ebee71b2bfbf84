//! The single checks: what is sent to an application, and what its answer means.

use crate::config::{copy_option, spelled_option, Application, ApplicationView, CheckType};
use crate::health_check::{HealthCheckResult, HealthCheckResultView};
use crate::text::{
    after, all_digits, before, begins_with, decimal, decimal_signed, is_digit, law_decimal_round_trip,
    lemma_position, lemma_position_holds, parse_u16, parsed_u16, position, signed_text, spelled,
    split_words, strip_prefixes, text_after, text_before, without_prefixes, words,
};
use crate::trusted::{
    accepts_server_name, certificate_not_after, is_server_name, parse_not_after,
};
use vstd::prelude::*;

verus! {

/// How long an HTTP request may take, in seconds.
pub const HTTP_TIMEOUT_SECS: u64 = 5;

/// How long a TCP connection may take to open, in seconds.
pub const TCP_TIMEOUT_SECS: u64 = 5;

/// How long a command may run, in seconds.
pub const EXEC_TIMEOUT_SECS: u64 = 30;

/// The beginning of a URL that is reached over TLS.
pub open spec fn https() -> Seq<char> {
    "https://"@
}

/// A URL without the marks of HTTPS in front.
pub open spec fn url_rest(url: Seq<char>) -> Seq<char> {
    without_prefixes(url, https())
}

/// The host that a URL names: what stands before its first `/`, up to a `:`.
pub open spec fn url_host(url: Seq<char>) -> Seq<char> {
    before(before(url_rest(url), '/'), ':')
}

/// The port that a URL names: what stands between its first `:` and the next one, up to a
/// `/`; 443 where that is no port.
pub open spec fn url_port(url: Seq<char>) -> u16 {
    match after(url_rest(url), ':') {
        Some(rest) => match parsed_u16(before(before(rest, ':'), '/')) {
            Some(port) => port,
            None => 443,
        },
        None => 443,
    }
}

/// The server whose certificate is looked at.
pub struct CertTarget {
    pub host: String,
    pub port: u16,
}

pub struct CertTargetView {
    pub host: Seq<char>,
    pub port: u16,
}

impl View for CertTarget {
    type V = CertTargetView;

    open spec fn view(&self) -> CertTargetView {
        CertTargetView { host: self.host@, port: self.port }
    }
}

/// The server whose certificate is looked at when `url` is checked.
pub open spec fn cert_target_of(url: Seq<char>) -> Option<CertTargetView> {
    if https().is_prefix_of(url) {
        Some(CertTargetView { host: url_host(url), port: url_port(url) })
    } else {
        None
    }
}

/// The server whose certificate is looked at when `url` is checked: none unless `url` begins
/// with `https://`.
pub fn cert_target(url: &str) -> (target: Option<CertTarget>)
    ensures
        match target {
            Some(target) => cert_target_of(url@) == Some(target@),
            None => cert_target_of(url@) is None,
        },
{
    if !begins_with(url, "https://") {
        return None;
    }
    let rest = strip_prefixes(url, "https://");
    let host = text_before(text_before(rest, '/'), ':').to_owned();
    let port = match text_after(rest, ':') {
        Some(field) => match parse_u16(text_before(text_before(field, ':'), '/')) {
            Some(port) => port,
            None => 443,
        },
        None => 443,
    };
    Some(CertTarget { host, port })
}

/// The name to shake hands under with a server, once it is known whether the connection
/// opened and whether the name can be asked for. `None` ends the look at the certificate.
pub fn handshake_name(target: &CertTarget, connected: bool, accepted: bool) -> (name: Option<
    String,
>)
    ensures
        spelled_option(name) == (if connected && accepted {
            Some(target@.host)
        } else {
            None
        }),
{
    if connected && accepted {
        Some(target.host.clone())
    } else {
        None
    }
}

/// The name to shake hands under with a server once it is known whether the connection to it
/// opened. `None` ends the look at the certificate, without a warning.
pub fn tls_connected(target: &CertTarget, connected: bool) -> (name: Option<String>)
    ensures
        spelled_option(name) == (if connected && is_server_name(target@.host) {
            Some(target@.host)
        } else {
            None
        }),
{
    handshake_name(target, connected, accepts_server_name(target.host.as_str()))
}

/// Division that drops the fraction, for either sign.
pub open spec fn divide(n: int, d: int) -> int {
    if n >= 0 {
        n / d
    } else {
        -((-n) / d)
    }
}

/// The whole days between `now` and `not_after`, negative where the time has passed.
pub open spec fn days_left(not_after: int, now: int) -> int {
    divide(not_after - now, 86_400)
}

/// The warning for a certificate that is valid for `days` more days, if one is due: no
/// whole day remains, or fewer than `warn_days` days do.
pub open spec fn expiry_message(days: int, warn_days: int) -> Option<Seq<char>> {
    if days <= 0 {
        Some("Certificate EXPIRED "@ + decimal_signed(-days))
    } else if days < warn_days {
        Some("Certificate expires in "@ + decimal_signed(days) + " day(s)"@)
    } else {
        None
    }
}

/// The warning for a certificate whose validity ends at `not_after`, if one is due at `now`.
/// Both are in seconds since 1970.
pub fn expiry_warning(not_after: i64, now: i64, warn_days: i64) -> (warning: Option<String>)
    ensures
        spelled_option(warning) == expiry_message(
            days_left(not_after as int, now as int),
            warn_days as int,
        ),
{
    let left: i128 = not_after as i128 - now as i128;
    let days: i64 = (left / 86_400) as i64;
    if days <= 0 {
        let mut message = "Certificate EXPIRED ".to_owned();
        message.append(signed_text(-days).as_str());
        Some(message)
    } else if days < warn_days {
        let mut message = "Certificate expires in ".to_owned();
        message.append(signed_text(days).as_str());
        message.append(" day(s)");
        Some(message)
    } else {
        None
    }
}

/// What came of a TLS handshake: the certificates that the server showed, its own first.
pub enum Handshake {
    Failed,
    Completed(Option<Vec<Vec<u8>>>),
}

impl Handshake {
    /// The certificate of the server itself.
    pub open spec fn first_certificate(self) -> Option<Seq<u8>> {
        match self {
            Handshake::Completed(Some(certificates)) => if certificates@.len() > 0 {
                Some(certificates@[0]@)
            } else {
                None
            },
            _ => None,
        }
    }
}

/// The end of the validity of the certificate that a handshake showed.
pub open spec fn shown_not_after(handshake: Handshake) -> Option<i64> {
    match handshake.first_certificate() {
        Some(der) => certificate_not_after(der),
        None => None,
    }
}

/// The warning that a handshake leads to: none where there was no certificate that could be
/// read, and else that for its end of validity.
pub open spec fn cert_message(handshake: Handshake, warn_days: int, now: int) -> Option<Seq<char>> {
    match shown_not_after(handshake) {
        Some(not_after) => expiry_message(days_left(not_after as int, now), warn_days),
        None => None,
    }
}

/// The warning that a handshake leads to at `now`, in seconds since 1970.
pub fn tls_cert_warning(handshake: &Handshake, warn_days: i64, now: i64) -> (warning: Option<
    String,
>)
    ensures
        spelled_option(warning) == cert_message(*handshake, warn_days as int, now as int),
{
    match handshake {
        Handshake::Completed(Some(certificates)) => {
            if certificates.len() == 0 {
                return None;
            }
            match parse_not_after(certificates[0].as_slice()) {
                Some(not_after) => expiry_warning(not_after, now, warn_days),
                None => None,
            }
        },
        _ => None,
    }
}

/// What came of an HTTP request: the status of the answer, or why there was none.
pub enum HttpReply {
    Status(u16),
    Failed(String),
}

/// What an HTTP check finds: the application is available if the answer has the expected
/// status.
pub open spec fn http_found(
    app: ApplicationView,
    reply: HttpReply,
    cert_warning: Option<Seq<char>>,
) -> HealthCheckResultView {
    HealthCheckResultView {
        id: app.id,
        app_name: app.shown_name(),
        is_available: reply == HttpReply::Status(app.check.expect.status_code),
        status_code: match reply {
            HttpReply::Status(status) => Some(status),
            HttpReply::Failed(_) => None,
        },
        error: match reply {
            HttpReply::Status(_) => None,
            HttpReply::Failed(error) => Some(error@),
        },
        cert_warning,
    }
}

/// The result of an HTTP check.
pub fn http(app: &Application, reply: HttpReply, cert_warning: Option<String>) -> (result:
    HealthCheckResult)
    ensures
        result@ == http_found(app@, reply, spelled_option(cert_warning)),
{
    match reply {
        HttpReply::Status(status) => HealthCheckResult {
            id: app.id.clone(),
            app_name: app.name(),
            is_available: status == app.check.expect.status_code,
            status_code: Some(status),
            error: None,
            cert_warning,
        },
        HttpReply::Failed(error) => HealthCheckResult {
            id: app.id.clone(),
            app_name: app.name(),
            is_available: false,
            status_code: None,
            error: Some(error),
            cert_warning,
        },
    }
}

/// What came of opening a TCP connection.
pub enum TcpOutcome {
    Connected,
    Failed(String),
    TimedOut,
}

/// What a TCP check finds: the application is available if the connection opens.
pub open spec fn tcp_found(app: ApplicationView, outcome: TcpOutcome) -> HealthCheckResultView {
    HealthCheckResultView {
        id: app.id,
        app_name: app.shown_name(),
        is_available: outcome is Connected,
        status_code: None,
        error: match outcome {
            TcpOutcome::Connected => None,
            TcpOutcome::Failed(error) => Some(error@),
            TcpOutcome::TimedOut => Some("connection timed out"@),
        },
        cert_warning: None,
    }
}

/// The result of a TCP check.
pub fn tcp(app: &Application, outcome: TcpOutcome) -> (result: HealthCheckResult)
    ensures
        result@ == tcp_found(app@, outcome),
{
    let (is_available, error) = match outcome {
        TcpOutcome::Connected => (true, None),
        TcpOutcome::Failed(error) => (false, Some(error)),
        TcpOutcome::TimedOut => (false, Some("connection timed out".to_owned())),
    };
    HealthCheckResult {
        id: app.id.clone(),
        app_name: app.name(),
        is_available,
        status_code: None,
        error,
        cert_warning: None,
    }
}

/// A command and its arguments.
pub struct Command {
    pub program: String,
    pub args: Vec<String>,
}

pub struct CommandView {
    pub program: Seq<char>,
    pub args: Seq<Seq<char>>,
}

impl View for Command {
    type V = CommandView;

    open spec fn view(&self) -> CommandView {
        CommandView { program: self.program@, args: spelled(self.args@) }
    }
}

/// The command that a line writes: its first word, with the others as arguments.
pub open spec fn command_of(line: Seq<char>) -> Option<CommandView> {
    if words(line).len() > 0 {
        Some(CommandView { program: words(line)[0], args: words(line).skip(1) })
    } else {
        None
    }
}

/// Reads a command followed by its arguments, separated by white space.
pub fn parse_command(line: &str) -> (command: Option<Command>)
    ensures
        match command {
            Some(command) => command_of(line@) == Some(command@),
            None => command_of(line@) is None,
        },
{
    let mut args = split_words(line);
    let ghost all = spelled(args@);
    if args.len() == 0 {
        return None;
    }
    let program = args.remove(0);
    assert(spelled(args@) =~= all.skip(1));
    assert(program@ == all[0]);
    Some(Command { program, args })
}

/// What came of running a command: its exit code, if it had one.
pub enum ExecOutcome {
    Exited(Option<i32>),
    SpawnFailed(String),
    TimedOut,
}

/// The exit code that counts: -1 for a process that ended without one.
pub open spec fn counted_exit_code(code: Option<i32>) -> int {
    match code {
        Some(code) => code as int,
        None => -1,
    }
}

/// What a command check finds: the application is available if the command ends with the
/// expected exit code. The status is the low 16 bits of the exit code.
pub open spec fn exec_found(app: ApplicationView, outcome: ExecOutcome) -> HealthCheckResultView {
    HealthCheckResultView {
        id: app.id,
        app_name: app.shown_name(),
        is_available: match outcome {
            ExecOutcome::Exited(code) => counted_exit_code(code) == app.check.expect.exit_code,
            _ => false,
        },
        status_code: match outcome {
            ExecOutcome::Exited(code) => Some((counted_exit_code(code) % 0x10000) as u16),
            _ => None,
        },
        error: match outcome {
            ExecOutcome::Exited(code) => if counted_exit_code(code) == app.check.expect.exit_code {
                None
            } else {
                Some("exit code "@ + decimal_signed(counted_exit_code(code)))
            },
            ExecOutcome::SpawnFailed(error) => Some("spawn error: "@ + error@),
            ExecOutcome::TimedOut => Some("command timed out"@),
        },
        cert_warning: None,
    }
}

/// The low 16 bits of an exit code.
fn low_bits(code: i32) -> (bits: u16)
    ensures
        bits == code as int % 0x10000,
{
    let bits = #[verifier::truncate] (code as u16);
    assert(bits == (code as u32) % 0x10000) by (bit_vector)
        requires
            bits == code as u16,
    ;
    assert(code as u32 == (if code < 0 {
        code + 0x1_0000_0000
    } else {
        code as int
    })) by (bit_vector);
    bits
}

/// The result of a command check.
pub fn exec(app: &Application, outcome: ExecOutcome) -> (result: HealthCheckResult)
    ensures
        result@ == exec_found(app@, outcome),
{
    let (is_available, status_code, error) = match outcome {
        ExecOutcome::Exited(code) => {
            let exit_code: i32 = match code {
                Some(code) => code,
                None => -1,
            };
            if exit_code == app.check.expect.exit_code {
                (true, Some(low_bits(exit_code)), None)
            } else {
                let mut error = "exit code ".to_owned();
                error.append(signed_text(exit_code as i64).as_str());
                (false, Some(low_bits(exit_code)), Some(error))
            }
        },
        ExecOutcome::SpawnFailed(reason) => {
            let mut error = "spawn error: ".to_owned();
            error.append(reason.as_str());
            (false, None, Some(error))
        },
        ExecOutcome::TimedOut => (false, None, Some("command timed out".to_owned())),
    };
    HealthCheckResult {
        id: app.id.clone(),
        app_name: app.name(),
        is_available,
        status_code,
        error,
        cert_warning: None,
    }
}

/// What a command check finds where the line holds no command.
pub open spec fn empty_command_found(app: ApplicationView) -> HealthCheckResultView {
    HealthCheckResultView {
        id: app.id,
        app_name: app.shown_name(),
        is_available: false,
        status_code: None,
        error: Some("empty command"@),
        cert_warning: None,
    }
}

/// How far a check has come.
pub enum Stage {
    /// A connection to the server is being opened, to look at its certificate.
    OpeningTls(CertTarget),
    /// Hands are being shaken with the server.
    ShakingHands,
    /// The URL is being requested.
    Requesting(Option<String>),
    /// A connection is being opened.
    Connecting,
    /// A command is being run.
    Running,
    /// The result is known.
    Finished,
}

pub enum StageView {
    OpeningTls(CertTargetView),
    ShakingHands,
    Requesting(Option<Seq<char>>),
    Connecting,
    Running,
    Finished,
}

impl View for Stage {
    type V = StageView;

    open spec fn view(&self) -> StageView {
        match *self {
            Stage::OpeningTls(target) => StageView::OpeningTls(target@),
            Stage::ShakingHands => StageView::ShakingHands,
            Stage::Requesting(cert_warning) => StageView::Requesting(spelled_option(cert_warning)),
            Stage::Connecting => StageView::Connecting,
            Stage::Running => StageView::Running,
            Stage::Finished => StageView::Finished,
        }
    }
}

/// A check of an application while it is made.
pub struct CheckRun {
    app: Application,
    tls_warn_days: i64,
    stage: Stage,
}

pub struct CheckRunView {
    pub app: ApplicationView,
    pub tls_warn_days: i64,
    pub stage: StageView,
}

impl View for CheckRun {
    type V = CheckRunView;

    closed spec fn view(&self) -> CheckRunView {
        CheckRunView {
            app: self.app@,
            tls_warn_days: self.tls_warn_days,
            stage: self.stage@,
        }
    }
}

/// What a check does next.
pub enum Next {
    /// Open a connection, to look at the certificate of the server.
    OpenTls { host: String, port: u16 },
    /// Shake hands over the open connection, and read the clock.
    ShakeHands { name: String },
    /// Request a URL.
    Request { url: String, timeout_secs: u64 },
    /// Open a connection to an address, and close it.
    Connect { address: String, timeout_secs: u64 },
    /// Run a command.
    Run { command: Command, timeout_secs: u64 },
    /// Nothing: this is the result.
    Done(HealthCheckResult),
}

pub enum NextView {
    OpenTls { host: Seq<char>, port: u16 },
    ShakeHands { name: Seq<char> },
    Request { url: Seq<char>, timeout_secs: u64 },
    Connect { address: Seq<char>, timeout_secs: u64 },
    Run { command: CommandView, timeout_secs: u64 },
    Done(HealthCheckResultView),
}

impl View for Next {
    type V = NextView;

    open spec fn view(&self) -> NextView {
        match *self {
            Next::OpenTls { host, port } => NextView::OpenTls { host: host@, port },
            Next::ShakeHands { name } => NextView::ShakeHands { name: name@ },
            Next::Request { url, timeout_secs } => NextView::Request { url: url@, timeout_secs },
            Next::Connect { address, timeout_secs } => NextView::Connect {
                address: address@,
                timeout_secs,
            },
            Next::Run { command, timeout_secs } => NextView::Run {
                command: command@,
                timeout_secs,
            },
            Next::Done(result) => NextView::Done(result@),
        }
    }
}

/// What came of what a check did.
pub enum Answer {
    /// Whether the connection for the certificate opened.
    TlsOpened(bool),
    /// What came of the handshake, and the seconds since 1970 afterwards.
    HandsShaken(Handshake, i64),
    /// What came of the request.
    Replied(HttpReply),
    /// What came of opening the connection.
    Connected(TcpOutcome),
    /// What came of running the command.
    Ran(ExecOutcome),
}

impl CheckRunView {
    /// `answer` is an answer to what the check is doing.
    pub open spec fn takes(self, answer: Answer) -> bool {
        match answer {
            Answer::TlsOpened(_) => self.stage is OpeningTls,
            Answer::HandsShaken(_, _) => self.stage is ShakingHands,
            Answer::Replied(_) => self.stage is Requesting,
            Answer::Connected(_) => self.stage is Connecting,
            Answer::Ran(_) => self.stage is Running,
        }
    }

    pub open spec fn at(self, stage: StageView) -> CheckRunView {
        CheckRunView { stage, ..self }
    }

    /// The check goes on to request the URL.
    pub open spec fn requesting(self, cert_warning: Option<Seq<char>>) -> (CheckRunView, NextView) {
        (
            self.at(StageView::Requesting(cert_warning)),
            NextView::Request { url: self.app.check.url, timeout_secs: HTTP_TIMEOUT_SECS },
        )
    }

    /// The check has come to its end.
    pub open spec fn finished(self, result: HealthCheckResultView) -> (CheckRunView, NextView) {
        (self.at(StageView::Finished), NextView::Done(result))
    }

    /// What becomes of the check with `answer`, and what it does next.
    pub open spec fn stepped(self, answer: Answer) -> (CheckRunView, NextView) {
        match answer {
            Answer::TlsOpened(opened) => {
                let host = self.stage->OpeningTls_0.host;
                if opened && is_server_name(host) {
                    (self.at(StageView::ShakingHands), NextView::ShakeHands { name: host })
                } else {
                    self.requesting(None)
                }
            },
            Answer::HandsShaken(handshake, now) => self.requesting(
                cert_message(handshake, self.tls_warn_days as int, now as int),
            ),
            Answer::Replied(reply) => self.finished(
                http_found(self.app, reply, self.stage->Requesting_0),
            ),
            Answer::Connected(outcome) => self.finished(tcp_found(self.app, outcome)),
            Answer::Ran(outcome) => self.finished(exec_found(self.app, outcome)),
        }
    }

    /// A check as it starts, and what it does first.
    pub open spec fn started(app: ApplicationView, tls_warn_days: i64) -> (CheckRunView, NextView) {
        let run = CheckRunView { app, tls_warn_days, stage: StageView::Finished };
        let target = app.check.url;
        match app.check.check_type {
            CheckType::Http => match cert_target_of(target) {
                Some(server) => (
                    run.at(StageView::OpeningTls(server)),
                    NextView::OpenTls { host: server.host, port: server.port },
                ),
                None => run.requesting(None),
            },
            CheckType::Tcp => (
                run.at(StageView::Connecting),
                NextView::Connect { address: target, timeout_secs: TCP_TIMEOUT_SECS },
            ),
            CheckType::Exec => match command_of(target) {
                Some(command) => (
                    run.at(StageView::Running),
                    NextView::Run { command, timeout_secs: EXEC_TIMEOUT_SECS },
                ),
                None => run.finished(empty_command_found(app)),
            },
        }
    }
}

impl CheckRun {
    /// Starts the check of `app`: by HTTP, by TCP or with a command, as its type says. A
    /// certificate is looked at only for a URL that begins with `https://`.
    pub fn start(app: Application, tls_warn_days: i64) -> (r: (CheckRun, Next))
        ensures
            (r.0@, r.1@) == CheckRunView::started(app@, tls_warn_days),
    {
        let target = app.check.url.clone();
        let (stage, next) = match app.check.check_type {
            CheckType::Http => match cert_target(target.as_str()) {
                Some(server) => {
                    let host = server.host.clone();
                    let port = server.port;
                    (Stage::OpeningTls(server), Next::OpenTls { host, port })
                },
                None => (
                    Stage::Requesting(None),
                    Next::Request { url: target, timeout_secs: HTTP_TIMEOUT_SECS },
                ),
            },
            CheckType::Tcp => (
                Stage::Connecting,
                Next::Connect { address: target, timeout_secs: TCP_TIMEOUT_SECS },
            ),
            CheckType::Exec => match parse_command(target.as_str()) {
                Some(command) => (
                    Stage::Running,
                    Next::Run { command, timeout_secs: EXEC_TIMEOUT_SECS },
                ),
                None => (
                    Stage::Finished,
                    Next::Done(
                        HealthCheckResult {
                            id: app.id.clone(),
                            app_name: app.name(),
                            is_available: false,
                            status_code: None,
                            error: Some("empty command".to_owned()),
                            cert_warning: None,
                        },
                    ),
                ),
            },
        };
        (CheckRun { app, tls_warn_days, stage }, next)
    }

    /// Tells whether `answer` is an answer to what the check is doing.
    pub fn takes(&self, answer: &Answer) -> (b: bool)
        ensures
            b == self@.takes(*answer),
    {
        match (answer, &self.stage) {
            (Answer::TlsOpened(_), Stage::OpeningTls(_)) => true,
            (Answer::HandsShaken(_, _), Stage::ShakingHands) => true,
            (Answer::Replied(_), Stage::Requesting(_)) => true,
            (Answer::Connected(_), Stage::Connecting) => true,
            (Answer::Ran(_), Stage::Running) => true,
            _ => false,
        }
    }

    fn request(&self) -> (next: Next)
        ensures
            next@ == (NextView::Request {
                url: self@.app.check.url,
                timeout_secs: HTTP_TIMEOUT_SECS,
            }),
    {
        Next::Request { url: self.app.check.url.clone(), timeout_secs: HTTP_TIMEOUT_SECS }
    }

    /// Takes up the answer to what the check was doing, and says what it does next.
    pub fn step(&mut self, answer: Answer) -> (next: Next)
        requires
            old(self)@.takes(answer),
        ensures
            (final(self)@, next@) == old(self)@.stepped(answer),
    {
        match answer {
            Answer::TlsOpened(opened) => {
                let name = match &self.stage {
                    Stage::OpeningTls(target) => tls_connected(target, opened),
                    _ => None,
                };
                match name {
                    Some(name) => {
                        self.stage = Stage::ShakingHands;
                        Next::ShakeHands { name }
                    },
                    None => {
                        self.stage = Stage::Requesting(None);
                        self.request()
                    },
                }
            },
            Answer::HandsShaken(handshake, now) => {
                let warning = tls_cert_warning(&handshake, self.tls_warn_days, now);
                self.stage = Stage::Requesting(warning);
                self.request()
            },
            Answer::Replied(reply) => {
                let cert_warning = match &self.stage {
                    Stage::Requesting(warning) => copy_option(warning),
                    _ => None,
                };
                self.stage = Stage::Finished;
                Next::Done(http(&self.app, reply, cert_warning))
            },
            Answer::Connected(outcome) => {
                self.stage = Stage::Finished;
                Next::Done(tcp(&self.app, outcome))
            },
            Answer::Ran(outcome) => {
                self.stage = Stage::Finished;
                Next::Done(exec(&self.app, outcome))
            },
        }
    }
}

/// A check after a number of answers, and what it does next.
pub open spec fn run_after(
    app: ApplicationView,
    tls_warn_days: i64,
    answers: Seq<Answer>,
) -> (CheckRunView, NextView)
    decreases answers.len(),
{
    if answers.len() == 0 {
        CheckRunView::started(app, tls_warn_days)
    } else {
        run_after(app, tls_warn_days, answers.drop_last()).0.stepped(answers.last())
    }
}

/// Each answer is one to what the check was doing.
pub open spec fn answers_fit(
    app: ApplicationView,
    tls_warn_days: i64,
    answers: Seq<Answer>,
) -> bool
    decreases answers.len(),
{
    answers.len() > 0 ==> {
        &&& answers_fit(app, tls_warn_days, answers.drop_last())
        &&& run_after(app, tls_warn_days, answers.drop_last()).0.takes(answers.last())
    }
}

/// How many answers a check waits for at most.
pub open spec fn answers_left(stage: StageView) -> nat {
    match stage {
        StageView::OpeningTls(_) => 3,
        StageView::ShakingHands => 2,
        StageView::Requesting(_) | StageView::Connecting | StageView::Running => 1,
        StageView::Finished => 0,
    }
}

/// Whatever the answers, a check comes to its end after at most three of them. It then has a
/// result that bears the identifier and the name of its application. An application that is
/// available has no error. A warning about a certificate comes only with an HTTP check of a
/// URL that begins with `https://`.
pub proof fn law_check(app: ApplicationView, tls_warn_days: i64, answers: Seq<Answer>)
    requires
        answers_fit(app, tls_warn_days, answers),
    ensures
        answers.len() + answers_left(run_after(app, tls_warn_days, answers).0.stage) <= 3,
        run_after(app, tls_warn_days, answers).0.stage is Finished == run_after(
            app,
            tls_warn_days,
            answers,
        ).1 is Done,
        run_after(app, tls_warn_days, answers).1 matches NextView::Done(result) ==> {
            &&& result.id == app.id
            &&& result.app_name == app.shown_name()
            &&& result.is_available ==> result.error is None
            &&& result.cert_warning is Some ==> app.check.check_type == CheckType::Http
                && https().is_prefix_of(app.check.url)
        },
{
    lemma_run(app, tls_warn_days, answers);
}

proof fn lemma_run(app: ApplicationView, tls_warn_days: i64, answers: Seq<Answer>)
    requires
        answers_fit(app, tls_warn_days, answers),
    ensures
        ({
            let (run, next) = run_after(app, tls_warn_days, answers);
            &&& run.app == app
            &&& run.tls_warn_days == tls_warn_days
            &&& answers.len() + answers_left(run.stage) <= 3
            &&& run.stage is Finished == next is Done
            &&& run.stage is OpeningTls || run.stage is ShakingHands || (run.stage matches
                StageView::Requesting(warning) && warning is Some) ==> app.check.check_type
                == CheckType::Http && https().is_prefix_of(app.check.url)
            &&& next matches NextView::Done(result) ==> {
                &&& result.id == app.id
                &&& result.app_name == app.shown_name()
                &&& result.is_available ==> result.error is None
                &&& result.cert_warning is Some ==> app.check.check_type == CheckType::Http
                    && https().is_prefix_of(app.check.url)
            }
        }),
    decreases answers.len(),
{
    if answers.len() > 0 {
        lemma_run(app, tls_warn_days, answers.drop_last());
    }
}

/// A certificate that is valid for a day or more is warned of if and only if fewer than
/// `warn_days` days remain. One that is valid for less than a day, or that has expired, is warned
/// of whatever `warn_days` says.
pub proof fn law_expiry_is_warned_of(not_after: int, now: int, warn_days: int)
    ensures
        days_left(not_after, now) > 0 ==> (expiry_message(
            days_left(not_after, now),
            warn_days,
        ) is Some <==> not_after - now < warn_days * 86_400),
        not_after - now < 86_400 ==> expiry_message(days_left(not_after, now), warn_days) is Some,
{
    let left = not_after - now;
    if left > 0 {
        assert(left / 86_400 < warn_days <==> left < warn_days * 86_400);
    }
}

/// Earlier warnings stay due: with more days to warn ahead, or with less time left, a
/// certificate that was warned of is still warned of. At the same time the text is the same,
/// however many more days are warned ahead.
pub proof fn law_warnings_stay_due(
    not_after: int,
    now: int,
    later: int,
    warn_days: int,
    more_days: int,
)
    requires
        now <= later,
        warn_days <= more_days,
        expiry_message(days_left(not_after, now), warn_days) is Some,
    ensures
        expiry_message(days_left(not_after, later), more_days) is Some,
        later == now ==> expiry_message(days_left(not_after, later), more_days) == expiry_message(
            days_left(not_after, now),
            warn_days,
        ),
{
    let earlier_days = days_left(not_after, now);
    let later_days = days_left(not_after, later);
    assert(later_days <= earlier_days) by {
        let a = not_after - now;
        let b = not_after - later;
        assert(b <= a);
        if a >= 0 && b >= 0 {
            assert(b / 86_400 <= a / 86_400);
        } else if a < 0 {
            assert((-a) / 86_400 <= (-b) / 86_400);
        }
    }
}

/// More days to warn ahead never lose or reword a warning: with the same handshake at the same
/// time, the warning is the same.
pub proof fn law_more_days_keep_the_warning(
    handshake: Handshake,
    now: int,
    warn_days: int,
    more_days: int,
)
    requires
        warn_days <= more_days,
        cert_message(handshake, warn_days, now) is Some,
    ensures
        cert_message(handshake, more_days, now) == cert_message(handshake, warn_days, now),
{
}

/// A result apart from its warning about a certificate.
pub open spec fn without_warning(result: HealthCheckResultView) -> HealthCheckResultView {
    HealthCheckResultView { cert_warning: None, ..result }
}

/// Two checks with the same answers have come equally far, but for a warning that only the one
/// with more days to warn ahead has.
spec fn runs_alike(fewer: (CheckRunView, NextView), more: (CheckRunView, NextView)) -> bool {
    &&& fewer.0.app == more.0.app
    &&& fewer.0.tls_warn_days <= more.0.tls_warn_days
    &&& fewer.0.stage == more.0.stage || fewer.0.stage == StageView::Requesting(None)
        && more.0.stage is Requesting
    &&& fewer.1 == more.1 || {
        &&& fewer.1 is Done
        &&& more.1 is Done
        &&& fewer.1->Done_0.cert_warning is None
        &&& without_warning(fewer.1->Done_0) == without_warning(more.1->Done_0)
    }
}

proof fn lemma_runs_alike(app: ApplicationView, days: i64, more_days: i64, answers: Seq<Answer>)
    requires
        days <= more_days,
        answers_fit(app, days, answers),
    ensures
        answers_fit(app, more_days, answers),
        runs_alike(run_after(app, days, answers), run_after(app, more_days, answers)),
    decreases answers.len(),
{
    if answers.len() > 0 {
        lemma_runs_alike(app, days, more_days, answers.drop_last());
    }
}

/// With the same answers, a check ends with the same result whatever the number of days to warn
/// ahead, but for the warning about the certificate; and a warning that fewer days lead to comes
/// with more days as well, in the same words.
pub proof fn law_more_days_keep_the_result(
    app: ApplicationView,
    days: i64,
    more_days: i64,
    answers: Seq<Answer>,
)
    requires
        days <= more_days,
        answers_fit(app, days, answers),
    ensures
        answers_fit(app, more_days, answers),
        run_after(app, days, answers).1 matches NextView::Done(result) ==> {
            &&& run_after(app, more_days, answers).1 is Done
            &&& without_warning(run_after(app, more_days, answers).1->Done_0) == without_warning(
                result,
            )
            &&& result.cert_warning is Some ==> run_after(app, more_days, answers).1->Done_0
                == result
        },
{
    lemma_runs_alike(app, days, more_days, answers);
}

/// A text whose first colon, if it has one, has no slash behind it does not begin with the
/// mark of HTTPS, so that the mark is stripped from a URL once.
proof fn lemma_mark_is_stripped(rest: Seq<char>, n: int)
    requires
        0 <= n <= rest.len(),
        forall|i: int| 0 <= i < n ==> rest[i] != ':',
        n < rest.len() ==> rest[n] == ':' && !(n + 1 < rest.len() && rest[n + 1] == '/'),
    ensures
        https().is_prefix_of(https() + rest),
        url_rest(https() + rest) == rest,
{
    reveal_strlit("https://");
    let url = https() + rest;
    assert(https() =~= url.subrange(0, https().len() as int));
    assert(url.skip(https().len() as int) =~= rest);
    if https().is_prefix_of(rest) {
        let copy = rest.subrange(0, https().len() as int);
        assert(copy[5] == rest[5] && copy[6] == rest[6]);
        if n <= 5 {
            assert(copy[n] == rest[n]);
        }
    }
    assert(url_rest(rest) == rest);
}

/// A part of a text without `c` stands whole before the first `c`.
proof fn lemma_before_prefix(s: Seq<char>, c: char, n: int)
    requires
        0 <= n <= s.len(),
        forall|i: int| 0 <= i < n ==> s[i] != c,
    ensures
        n <= before(s, c).len() <= s.len(),
        forall|i: int| 0 <= i < n ==> before(s, c)[i] == s[i],
{
    lemma_position_holds(s, c);
    if position(s, c) < n {
        assert(s[position(s, c)] == c);
    }
}

/// What stands before the first `c` is what was written there.
proof fn lemma_before_mark(head: Seq<char>, c: char, tail: Seq<char>)
    requires
        !head.contains(c),
    ensures
        before(head + seq![c] + tail, c) == head,
        after(head + seq![c] + tail, c) == Some(tail),
{
    let s = head + seq![c] + tail;
    let n = head.len() as int;
    assert forall|i: int| 0 <= i < n implies s[i] != c by {
        assert(s[i] == head[i]);
        assert(head.contains(head[i]));
    }
    lemma_position(s, c, n);
    assert(before(s, c) =~= head);
    assert(s.skip(n + 1) =~= tail);
}

/// What stands before `c` where there is none is all of the text.
proof fn lemma_before_nothing(s: Seq<char>, c: char)
    requires
        !s.contains(c),
    ensures
        before(s, c) == s,
        after(s, c) is None,
{
    assert forall|i: int| 0 <= i < s.len() implies s[i] != c by {
        assert(s.contains(s[i]));
    }
    lemma_position(s, c, s.len() as int);
    assert(before(s, c) =~= s);
}

/// The end of a URL: nothing, or a slash and whatever follows.
pub open spec fn is_path(path: Seq<char>) -> bool {
    path.len() == 0 || path[0] == '/'
}

/// What stands before a path is found whole by its slash, or by the end of the text.
proof fn lemma_before_path(head: Seq<char>, path: Seq<char>)
    requires
        !head.contains('/'),
        is_path(path),
    ensures
        before(head + path, '/') == head,
{
    if path.len() == 0 {
        assert(head + path =~= head);
        lemma_before_nothing(head, '/');
    } else {
        assert(head + path =~= head + seq!['/'] + path.skip(1));
        lemma_before_mark(head, '/', path.skip(1));
    }
}

/// The digits of a port are found whatever follows behind the slash after them.
proof fn lemma_port_field(digits: Seq<char>, path: Seq<char>)
    requires
        all_digits(digits),
        is_path(path),
    ensures
        before(before(digits + path, ':'), '/') == digits,
{
    let tail = digits + path;
    let m = digits.len() as int;
    let solid = if path.len() == 0 {
        m
    } else {
        m + 1
    };
    assert forall|i: int| 0 <= i < solid implies tail[i] != ':' by {
        if i < m {
            assert(tail[i] == digits[i]);
            assert(is_digit(digits[i]));
        }
    }
    lemma_before_prefix(tail, ':', solid);
    let field = before(tail, ':');
    if path.len() > 0 {
        assert(field[m] == tail[m]);
    }
    assert forall|i: int| 0 <= i < m implies #[trigger] field[i] == digits[i] && field[i]
        != '/' by {
        assert(field[i] == tail[i]);
        assert(is_digit(digits[i]));
    }
    lemma_position(field, '/', m);
    assert(before(field, '/') =~= digits);
}

/// A URL `https://host:port`, with a path behind it or not, names the host and the port that it
/// writes.
pub proof fn law_url_with_port(host: Seq<char>, port: u16, path: Seq<char>)
    requires
        !host.contains('/'),
        !host.contains(':'),
        is_path(path),
    ensures
        cert_target_of(https() + (host + seq![':'] + (decimal(port as nat) + path))) == Some(
            CertTargetView { host, port },
        ),
{
    let digits = decimal(port as nat);
    let tail = digits + path;
    let rest = host + seq![':'] + tail;
    let authority = host + seq![':'] + digits;
    law_decimal_round_trip(port as nat);
    assert(is_digit(digits[0]));
    assert forall|i: int| 0 <= i < host.len() implies rest[i] != ':' by {
        assert(rest[i] == host[i]);
        assert(host.contains(host[i]));
    }
    assert(rest[host.len() as int + 1] == tail[0]);
    lemma_mark_is_stripped(rest, host.len() as int);
    assert(rest =~= authority + path);
    assert(!authority.contains('/')) by {
        assert forall|i: int| 0 <= i < authority.len() implies authority[i] != '/' by {
            if i < host.len() {
                assert(host.contains(host[i]));
            } else if i > host.len() {
                assert(is_digit(digits[i - host.len() - 1]));
            }
        }
    }
    lemma_before_path(authority, path);
    lemma_before_mark(host, ':', digits);
    lemma_before_mark(host, ':', tail);
    lemma_port_field(digits, path);
}

/// A URL `https://host`, with a path behind it or not, names the host that it writes, at port
/// 443, if there is no colon in it.
pub proof fn law_url_without_port(host: Seq<char>, path: Seq<char>)
    requires
        !host.contains('/'),
        !host.contains(':'),
        is_path(path),
        !path.contains(':'),
    ensures
        cert_target_of(https() + (host + path)) == Some(CertTargetView { host, port: 443 }),
{
    let rest = host + path;
    assert forall|i: int| 0 <= i < rest.len() implies rest[i] != ':' by {
        if i < host.len() {
            assert(host.contains(host[i]));
        } else {
            assert(path.contains(path[i - host.len()]));
        }
    }
    assert(!rest.contains(':'));
    lemma_mark_is_stripped(rest, rest.len() as int);
    lemma_before_path(host, path);
    lemma_before_nothing(host, ':');
    lemma_before_nothing(rest, ':');
}

} // verus!
