//! What a check does from its start to its end, and what its result says.

use crate::config::{Application, CheckType};
use crate::health_check::check::{
    cert_target_of, command_of, days_left, expiry_message, run_after, Answer, CheckRunView,
    ExecOutcome, Handshake, HttpReply, Next, TcpOutcome,
};
use crate::health_check::HealthCheckResult;
use crate::text::decimal;
use crate::trusted::{certificate_not_after, is_server_name};
use vstd::prelude::*;

verus! {

/// A result is of an application: it bears its identifier, and its name or, where it has none,
/// its identifier again.
pub open spec fn is_of(result: HealthCheckResult, app: Application) -> bool {
    &&& result.id.0@ == app.id.0@
    &&& result.app_name@ == (match app.name {
        Some(name) => name@,
        None => app.id.0@,
    })
}

/// An optional text is there and reads `text`.
pub open spec fn reads(s: Option<String>, text: Seq<char>) -> bool {
    s is Some && s->0@ == text
}

/// What becomes of a check with one more answer.
proof fn lemma_one_more(app: Application, days: i64, answers: Seq<Answer>, answer: Answer)
    ensures
        run_after(app@, days, answers.push(answer)) == run_after(app@, days, answers).0.stepped(
            answer,
        ),
{
    assert(answers.push(answer).drop_last() =~= answers);
}

/// A warning for a certificate with `left` seconds to its end, where a warning is wanted when
/// fewer than `days` days remain. It is due exactly then, or when less than a day remains, and
/// its text tells the whole days that are left or that have passed.
pub open spec fn warns(warning: Option<String>, left: int, days: int) -> bool {
    &&& warning is Some <==> left < 86_400 || left < days * 86_400
    &&& forall|k: nat|
        warning is Some && 0 < k && k * 86_400 <= left < (k + 1) * 86_400 ==> warning->0@
            == "Certificate expires in "@ + #[trigger] decimal(k) + " day(s)"@
    &&& 0 < left < 86_400 ==> reads(warning, "Certificate EXPIRED "@ + decimal(0))
    &&& forall|k: nat|
        k * 86_400 <= -left < (k + 1) * 86_400 ==> reads(
            warning,
            "Certificate EXPIRED "@ + #[trigger] decimal(k),
        )
}

proof fn lemma_warns(warning: Option<String>, not_after: int, now: int, days: int)
    requires
        match expiry_message(days_left(not_after, now), days) {
            Some(message) => reads(warning, message),
            None => warning is None,
        },
    ensures
        warns(warning, not_after - now, days),
{
    let left = not_after - now;
    let n = days_left(not_after, now);
    if left > 0 {
        assert(left / 86_400 < days <==> left < days * 86_400);
    }
    assert forall|k: nat|
        warning is Some && 0 < k && k * 86_400 <= left < (k + 1) * 86_400 implies warning->0@
        == "Certificate expires in "@ + #[trigger] decimal(k) + " day(s)"@ by {
        assert(n == k);
    }
    assert forall|k: nat| k * 86_400 <= -left < (k + 1) * 86_400 implies reads(
        warning,
        "Certificate EXPIRED "@ + #[trigger] decimal(k),
    ) by {
        assert(-n == k);
    }
}

/// What an HTTP check makes of the reply: the application is available if and only if the
/// status is the one that it expects, whichever that is. The status or the error is passed on.
pub open spec fn tells_reply(result: HealthCheckResult, app: Application, reply: HttpReply) -> bool {
    match reply {
        HttpReply::Status(status) => {
            &&& result.is_available <==> status == app.check.expect.status_code
            &&& result.status_code == Some(status)
            &&& result.error is None
        },
        HttpReply::Failed(error) => {
            &&& !result.is_available
            &&& result.status_code is None
            &&& reads(result.error, error@)
        },
    }
}

/// An HTTP check of a URL that does not begin with `https://` requests the URL, with five
/// seconds to answer, and ends with what it makes of the reply. There is no warning.
pub proof fn law_http(app: Application, days: i64, reply: HttpReply, first: Next, last: Next)
    requires
        app.check.check_type == CheckType::Http,
        !"https://"@.is_prefix_of(app.check.url@),
        first@ == run_after(app@, days, seq![]).1,
        last@ == run_after(app@, days, seq![Answer::Replied(reply)]).1,
    ensures
        first matches Next::Request { url, timeout_secs } && url@ == app.check.url@ && timeout_secs
            == 5,
        run_after(app@, days, seq![]).0.takes(Answer::Replied(reply)),
        last matches Next::Done(result) && is_of(result, app) && tells_reply(result, app, reply)
            && result.cert_warning is None,
{
    lemma_one_more(app, days, seq![], Answer::Replied(reply));
    assert(seq![].push(Answer::Replied(reply)) =~= seq![Answer::Replied(reply)]);
}

/// An HTTP check of a URL that begins with `https://` first opens a connection to the server
/// that the URL names. Where it opens, and the host is a name to ask for, hands are shaken under
/// that name, and then the URL is requested. Otherwise the URL is requested at once.
pub proof fn law_https_steps(
    app: Application,
    days: i64,
    opened: bool,
    handshake: Handshake,
    now: i64,
    first: Next,
    second: Next,
    third: Next,
)
    requires
        app.check.check_type == CheckType::Http,
        "https://"@.is_prefix_of(app.check.url@),
        first@ == run_after(app@, days, seq![]).1,
        second@ == run_after(app@, days, seq![Answer::TlsOpened(opened)]).1,
        third@ == run_after(
            app@,
            days,
            seq![Answer::TlsOpened(opened), Answer::HandsShaken(handshake, now)],
        ).1,
    ensures
        first matches Next::OpenTls { host, port } && cert_target_of(app.check.url@) is Some && host@
            == cert_target_of(app.check.url@)->0.host && port == cert_target_of(
            app.check.url@,
        )->0.port,
        run_after(app@, days, seq![]).0.takes(Answer::TlsOpened(opened)),
        opened && is_server_name(cert_target_of(app.check.url@)->0.host) ==> {
            &&& second matches Next::ShakeHands { name } && name@ == cert_target_of(
                app.check.url@,
            )->0.host
            &&& run_after(app@, days, seq![Answer::TlsOpened(opened)]).0.takes(
                Answer::HandsShaken(handshake, now),
            )
            &&& third matches Next::Request { url, timeout_secs } && url@ == app.check.url@
                && timeout_secs == 5
        },
        !(opened && is_server_name(cert_target_of(app.check.url@)->0.host)) ==> (
        second matches Next::Request { url, timeout_secs } && url@ == app.check.url@
            && timeout_secs == 5),
{
    let a = Answer::TlsOpened(opened);
    let b = Answer::HandsShaken(handshake, now);
    lemma_one_more(app, days, seq![], a);
    lemma_one_more(app, days, seq![a], b);
    assert(seq![].push(a) =~= seq![a]);
    assert(seq![a].push(b) =~= seq![a, b]);
}

/// An HTTPS check that has seen a certificate warns of it if and only if less than a day remains,
/// or fewer days than were configured, whatever number that is. It looks at the first
/// certificate that the server showed, and gives no warning where that cannot be read. For the
/// rest the result is that of any HTTP check.
pub proof fn law_https_warning(
    app: Application,
    days: i64,
    handshake: Handshake,
    now: i64,
    reply: HttpReply,
    last: Next,
)
    requires
        app.check.check_type == CheckType::Http,
        "https://"@.is_prefix_of(app.check.url@),
        is_server_name(cert_target_of(app.check.url@)->0.host),
        last@ == run_after(
            app@,
            days,
            seq![
                Answer::TlsOpened(true),
                Answer::HandsShaken(handshake, now),
                Answer::Replied(reply),
            ],
        ).1,
    ensures
        run_after(
            app@,
            days,
            seq![Answer::TlsOpened(true), Answer::HandsShaken(handshake, now)],
        ).0.takes(Answer::Replied(reply)),
        last matches Next::Done(result) && is_of(result, app) && tells_reply(result, app, reply)
            && match handshake {
            Handshake::Completed(Some(certificates)) => if certificates@.len() > 0 {
                match certificate_not_after(certificates@[0]@) {
                    Some(not_after) => warns(result.cert_warning, not_after - now, days as int),
                    None => result.cert_warning is None,
                }
            } else {
                result.cert_warning is None
            },
            _ => result.cert_warning is None,
        },
{
    let a = Answer::TlsOpened(true);
    let b = Answer::HandsShaken(handshake, now);
    let c = Answer::Replied(reply);
    lemma_one_more(app, days, seq![], a);
    lemma_one_more(app, days, seq![a], b);
    lemma_one_more(app, days, seq![a, b], c);
    assert(seq![].push(a) =~= seq![a]);
    assert(seq![a].push(b) =~= seq![a, b]);
    assert(seq![a, b].push(c) =~= seq![a, b, c]);
    let warning = last->Done_0.cert_warning;
    if let Handshake::Completed(Some(certificates)) = handshake {
        if certificates@.len() > 0 {
            if let Some(not_after) = certificate_not_after(certificates@[0]@) {
                lemma_warns(warning, not_after as int, now as int, days as int);
            }
        }
    }
}

/// An HTTPS check that could not look at the certificate ends like any other HTTP check, without
/// a warning.
pub proof fn law_https_without_a_look(
    app: Application,
    days: i64,
    opened: bool,
    reply: HttpReply,
    last: Next,
)
    requires
        app.check.check_type == CheckType::Http,
        "https://"@.is_prefix_of(app.check.url@),
        !(opened && is_server_name(cert_target_of(app.check.url@)->0.host)),
        last@ == run_after(
            app@,
            days,
            seq![Answer::TlsOpened(opened), Answer::Replied(reply)],
        ).1,
    ensures
        run_after(app@, days, seq![Answer::TlsOpened(opened)]).0.takes(Answer::Replied(reply)),
        last matches Next::Done(result) && is_of(result, app) && tells_reply(result, app, reply)
            && result.cert_warning is None,
{
    let a = Answer::TlsOpened(opened);
    let b = Answer::Replied(reply);
    lemma_one_more(app, days, seq![], a);
    lemma_one_more(app, days, seq![a], b);
    assert(seq![].push(a) =~= seq![a]);
    assert(seq![a].push(b) =~= seq![a, b]);
}

/// A TCP check opens a connection to its address, with five seconds to open. The application is
/// available if and only if it opens.
pub proof fn law_tcp(app: Application, days: i64, outcome: TcpOutcome, first: Next, last: Next)
    requires
        app.check.check_type == CheckType::Tcp,
        first@ == run_after(app@, days, seq![]).1,
        last@ == run_after(app@, days, seq![Answer::Connected(outcome)]).1,
    ensures
        first matches Next::Connect { address, timeout_secs } && address@ == app.check.url@
            && timeout_secs == 5,
        run_after(app@, days, seq![]).0.takes(Answer::Connected(outcome)),
        last matches Next::Done(result) && is_of(result, app) && result.cert_warning is None
            && result.status_code is None && (result.is_available <==> outcome is Connected)
            && match outcome {
            TcpOutcome::Connected => result.error is None,
            TcpOutcome::Failed(error) => reads(result.error, error@),
            TcpOutcome::TimedOut => reads(result.error, "connection timed out"@),
        },
{
    lemma_one_more(app, days, seq![], Answer::Connected(outcome));
    assert(seq![].push(Answer::Connected(outcome)) =~= seq![Answer::Connected(outcome)]);
}

/// A command check without a command ends at once, and the application is not available.
pub proof fn law_no_command(app: Application, days: i64, first: Next)
    requires
        app.check.check_type == CheckType::Exec,
        command_of(app.check.url@) is None,
        first@ == run_after(app@, days, seq![]).1,
    ensures
        first matches Next::Done(result) && is_of(result, app) && result.cert_warning is None
            && result.status_code is None && !result.is_available && reads(
            result.error,
            "empty command"@,
        ),
{
}

/// A command check runs its command, for thirty seconds at most. The application is available
/// if and only if the command ends with the exit code that is expected, whichever that is, where
/// a process that ends without one counts as -1. The status is congruent to the exit code modulo
/// 2^16.
pub proof fn law_exec(app: Application, days: i64, outcome: ExecOutcome, first: Next, last: Next)
    requires
        app.check.check_type == CheckType::Exec,
        command_of(app.check.url@) is Some,
        first@ == run_after(app@, days, seq![]).1,
        last@ == run_after(app@, days, seq![Answer::Ran(outcome)]).1,
    ensures
        first matches Next::Run { command, timeout_secs } && command.program@ == command_of(
            app.check.url@,
        )->0.program && command@.args == command_of(app.check.url@)->0.args && timeout_secs == 30,
        run_after(app@, days, seq![]).0.takes(Answer::Ran(outcome)),
        last matches Next::Done(result) && is_of(result, app) && result.cert_warning is None
            && match outcome {
            ExecOutcome::Exited(code) => {
                let n = match code {
                    Some(code) => code as int,
                    None => -1,
                };
                &&& result.is_available <==> n == app.check.expect.exit_code
                &&& result.status_code is Some && (n - result.status_code->0) % 65_536 == 0
                &&& result.is_available ==> result.error is None
                &&& !result.is_available && n >= 0 ==> reads(
                    result.error,
                    "exit code "@ + decimal(n as nat),
                )
                &&& !result.is_available && n < 0 ==> reads(
                    result.error,
                    "exit code "@ + (seq!['-'] + decimal((-n) as nat)),
                )
            },
            ExecOutcome::SpawnFailed(error) => !result.is_available && result.status_code is None
                && reads(result.error, "spawn error: "@ + error@),
            ExecOutcome::TimedOut => !result.is_available && result.status_code is None && reads(
                result.error,
                "command timed out"@,
            ),
        },
{
    lemma_one_more(app, days, seq![], Answer::Ran(outcome));
    assert(seq![].push(Answer::Ran(outcome)) =~= seq![Answer::Ran(outcome)]);
}

/// A check takes up answers of one kind at a time, whatever they say, and none once it is done.
pub proof fn law_takes(run: CheckRunView, a: Answer, b: Answer)
    requires
        run.takes(a),
    ensures
        run.takes(b) <==> match (a, b) {
            (Answer::TlsOpened(_), Answer::TlsOpened(_)) => true,
            (Answer::HandsShaken(_, _), Answer::HandsShaken(_, _)) => true,
            (Answer::Replied(_), Answer::Replied(_)) => true,
            (Answer::Connected(_), Answer::Connected(_)) => true,
            (Answer::Ran(_), Answer::Ran(_)) => true,
            _ => false,
        },
        forall|answer: Answer|
            run.stepped(a).1 is Done ==> !(#[trigger] run.stepped(a).0.takes(answer)),
{
}

} // verus!
