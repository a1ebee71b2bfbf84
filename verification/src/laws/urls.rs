//! Which server a URL names.

use crate::health_check::check::{cert_target_of, https, url_rest};
use crate::text::{after, before, lemma_position, lemma_position_holds, parsed_u16, position};
use vstd::prelude::*;

verus! {

/// A certificate is looked at for a URL that begins with `https://`, and for no other.
pub proof fn law_https_only(url: Seq<char>)
    ensures
        cert_target_of(url) is Some <==> "https://"@.is_prefix_of(url),
{
}

/// A mark of HTTPS that stands in front of another one counts for nothing.
pub proof fn law_marks_are_stripped(url: Seq<char>)
    requires
        "https://"@.is_prefix_of(url),
    ensures
        cert_target_of("https://"@ + url) == cert_target_of(url),
{
    reveal_strlit("https://");
    let longer = "https://"@ + url;
    assert("https://"@ =~= longer.subrange(0, 8));
    assert(longer.skip(8) =~= url);
}

proof fn lemma_one_mark(rest: Seq<char>)
    requires
        !"https://"@.is_prefix_of(rest),
    ensures
        "https://"@.is_prefix_of("https://"@ + rest),
        url_rest("https://"@ + rest) == rest,
{
    reveal_strlit("https://");
    let url = "https://"@ + rest;
    assert("https://"@ =~= url.subrange(0, 8));
    assert(url.skip(8) =~= rest);
    assert(url_rest(rest) == rest);
}

/// The host is what stands behind the mark of HTTPS, up to the first slash or colon.
pub proof fn law_host(host: Seq<char>, tail: Seq<char>)
    requires
        !"https://"@.is_prefix_of(host + tail),
        forall|i: int| 0 <= i < host.len() ==> host[i] != '/' && host[i] != ':',
        tail.len() == 0 || tail[0] == '/' || tail[0] == ':',
    ensures
        cert_target_of("https://"@ + (host + tail)) is Some,
        cert_target_of("https://"@ + (host + tail))->0.host == host,
{
    let rest = host + tail;
    let n = host.len() as int;
    lemma_one_mark(rest);
    assert forall|i: int| 0 <= i < n implies rest[i] != '/' && rest[i] != ':' by {
        assert(rest[i] == host[i]);
    }
    assert(tail.len() > 0 ==> rest[n] == tail[0]);
    lemma_position_holds(rest, '/');
    let q = position(rest, '/');
    assert(q >= n) by {
        if q < n {
            assert(rest[q] == '/');
        }
    }
    let front = before(rest, '/');
    assert forall|i: int| 0 <= i < n implies front[i] != ':' by {
        assert(front[i] == rest[i]);
    }
    if q > n {
        assert(front[n] == rest[n]);
        assert(rest[n] != '/');
    }
    lemma_position(front, ':', n);
    assert(before(front, ':') =~= host);
}

/// The port is what stands behind the first colon, wherever that is, up to the next slash or
/// colon; and 443 where that writes no 16-bit number.
pub proof fn law_port(front: Seq<char>, field: Seq<char>, tail: Seq<char>)
    requires
        !"https://"@.is_prefix_of(front + seq![':'] + (field + tail)),
        forall|i: int| 0 <= i < front.len() ==> front[i] != ':',
        forall|i: int| 0 <= i < field.len() ==> field[i] != '/' && field[i] != ':',
        tail.len() == 0 || tail[0] == '/' || tail[0] == ':',
    ensures
        cert_target_of("https://"@ + (front + seq![':'] + (field + tail))) is Some,
        cert_target_of("https://"@ + (front + seq![':'] + (field + tail)))->0.port == (
        match parsed_u16(field) {
            Some(port) => port,
            None => 443,
        }),
{
    let behind = field + tail;
    let rest = front + seq![':'] + behind;
    let n = front.len() as int;
    let m = field.len() as int;
    lemma_one_mark(rest);
    assert forall|i: int| 0 <= i < n implies rest[i] != ':' by {
        assert(rest[i] == front[i]);
    }
    lemma_position(rest, ':', n);
    assert(rest.skip(n + 1) =~= behind);
    assert forall|i: int| 0 <= i < m implies behind[i] != '/' && behind[i] != ':' by {
        assert(behind[i] == field[i]);
    }
    assert(tail.len() > 0 ==> behind[m] == tail[0]);
    lemma_position_holds(behind, ':');
    let q = position(behind, ':');
    assert(q >= m) by {
        if q < m {
            assert(behind[q] == ':');
        }
    }
    let part = before(behind, ':');
    assert forall|i: int| 0 <= i < m implies part[i] != '/' by {
        assert(part[i] == behind[i]);
    }
    if q > m {
        assert(part[m] == behind[m]);
        assert(behind[m] != ':');
    }
    lemma_position(part, '/', m);
    assert(before(part, '/') =~= field);
}

/// Without a colon behind the mark of HTTPS, the port is 443.
pub proof fn law_usual_port(rest: Seq<char>)
    requires
        forall|i: int| 0 <= i < rest.len() ==> rest[i] != ':',
    ensures
        cert_target_of("https://"@ + rest) is Some,
        cert_target_of("https://"@ + rest)->0.port == 443,
{
    reveal_strlit("https://");
    if "https://"@.is_prefix_of(rest) {
        assert("https://"@[5] == ':');
        assert(rest.subrange(0, 8)[5] == rest[5]);
    }
    lemma_one_mark(rest);
    lemma_position(rest, ':', rest.len() as int);
    assert(after(rest, ':') is None);
}

} // verus!
