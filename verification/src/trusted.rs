//! The calls into other crates. What is said of them here is believed, not proved.

use crate::interval::{interval_in_range, written_nanos, Numeral};
use vstd::prelude::*;
use x509_parser::prelude::FromDer;

verus! {

/// The nanoseconds of the interval that a text such as `30s` or `1min 30s` writes, if it
/// writes one: what `humantime::parse_duration` makes of it.
pub uninterp spec fn interval_nanos(text: Seq<char>) -> Option<u128>;

/// Calls `humantime::parse_duration` and gives the duration in nanoseconds, `None` for any of
/// its errors. Both depend on the text alone. The parser adds up the numbers, each with its
/// unit, and returns an error where a unit is unknown, where a fraction of a unit does not come
/// out even, or where a number or the sum leaves its range. So whatever it reads comes to what
/// the numbers and units write. It builds the sum with `Duration::new`, which panics where the
/// sum comes to 2^64 seconds exactly, by nanoseconds that fill up the last second. A text that
/// keeps to the range never gets there.
#[verifier::external_body]
pub(crate) fn parse_interval(text: &str) -> (nanos: Option<u128>)
    requires
        interval_in_range(text@),
    ensures
        nanos == interval_nanos(text@),
        nanos matches Some(n) ==> n == written_nanos(text@, Numeral::unread()),
{
    match humantime::parse_duration(text) {
        Ok(duration) => Some(duration.as_nanos()),
        Err(_) => None,
    }
}

/// `host` is a name or an address by which a TLS server can be asked for: what
/// `rustls::pki_types::ServerName` accepts.
pub uninterp spec fn is_server_name(host: Seq<char>) -> bool;

/// Calls `rustls::pki_types::ServerName::try_from` and tells whether it accepts `host`, as a
/// DNS name or as an IP address. That depends on the text alone.
#[verifier::external_body]
pub(crate) fn accepts_server_name(host: &str) -> (accepted: bool)
    ensures
        accepted == is_server_name(host@),
{
    rustls::pki_types::ServerName::try_from(host.to_string()).is_ok()
}

/// The end of the validity of the certificate that `der` begins with, in seconds since 1970,
/// if it begins with one.
pub uninterp spec fn certificate_not_after(der: Seq<u8>) -> Option<i64>;

/// Parses `der` with `x509_parser::certificate::X509Certificate::from_der` and gives the
/// `notAfter` time of its validity as a UNIX timestamp, `None` where the parser fails. Both
/// depend on the bytes alone.
#[verifier::external_body]
pub(crate) fn parse_not_after(der: &[u8]) -> (not_after: Option<i64>)
    ensures
        not_after == certificate_not_after(der@),
{
    match x509_parser::certificate::X509Certificate::from_der(der) {
        Ok((_, certificate)) => Some(certificate.validity().not_after.timestamp()),
        Err(_) => None,
    }
}

} // verus!
