//! HTTP-to-HTTPS redirect targets.
//!
//! All requests are answered with `308 Permanent Redirect` to the same URL
//! over HTTPS. The HTTPS port is taken from the main listener. If the port
//! is 443, it is omitted from the redirect URL.

use vstd::prelude::*;

use crate::text::{decimal_digits, push_decimal, push_str};

verus! {

/// The status every redirected request is answered with: `308 Permanent
/// Redirect`, which keeps the request method and body.
pub const REDIRECT_STATUS: u16 = 308;

/// Whether `s` holds a `:`.
pub open spec fn has_colon(s: Seq<char>) -> bool {
    exists|i: int| 0 <= i < s.len() && s[i] == ':'
}

/// The position of the last `:` of `s`.
pub open spec fn last_colon(s: Seq<char>) -> int
    recommends
        has_colon(s),
{
    choose|i: int| 0 <= i < s.len() && s[i] == ':' && forall|j: int| i < j < s.len() ==> s[j] != ':'
}

/// Whether `host` starts with `[`, as a bracketed IPv6 literal does.
pub open spec fn is_bracketed(host: Seq<char>) -> bool {
    host.len() > 0 && host[0] == '['
}

/// Whether a `]` stands before position `p` of `host`.
pub open spec fn closes_before(host: Seq<char>, p: int) -> bool {
    exists|b: int| 0 <= b < p && host[b] == ']'
}

/// Whether `host` ends in a `:port`: it has a `:`, and for a bracketed
/// IPv6 literal that `:` comes after the closing `]` (the `:`s inside the
/// brackets belong to the address).
pub open spec fn has_port(host: Seq<char>) -> bool {
    has_colon(host) && (!is_bracketed(host) || closes_before(host, last_colon(host)))
}

/// The host without its port: everything before the last `:` when that
/// `:` starts a port, or the whole host otherwise.
pub open spec fn strip_port_spec(host: Seq<char>) -> Seq<char> {
    if has_port(host) {
        host.take(last_colon(host))
    } else {
        host
    }
}

/// Strips a trailing `:port` from a `Host` header value (see
/// [`strip_port_spec`]): `example.com:8080` and `[::1]:8443` lose their
/// port, `example.com` and `[::1]` are kept whole.
pub fn strip_port(host: &str) -> (r: &str)
    ensures
        r@ == strip_port_spec(host@),
{
    let n = host.unicode_len();
    let mut i: usize = n;
    while i > 0
        invariant
            i <= n,
            n == host@.len(),
            forall|j: int| i <= j < n ==> host@[j] != ':',
        decreases i,
    {
        if host.get_char(i - 1) == ':' {
            let pos = i - 1;
            proof {
                let c = last_colon(host@);
                assert(0 <= pos < host@.len() && host@[pos as int] == ':' && forall|j: int| pos < j < host@.len() ==> host@[j] != ':');
                assert(has_colon(host@));
                if c != pos {
                    if c < pos {
                        assert(host@[pos as int] != ':');
                    } else {
                        assert(host@[c] != ':');
                    }
                }
                assert(c == pos);
            }
            if host.get_char(0) == '[' {
                let mut b: usize = 0;
                while b < pos
                    invariant
                        b <= pos,
                        pos < n,
                        host@[0] == '[',
                        last_colon(host@) == pos as int,
                        has_colon(host@),
                        n == host@.len(),
                        forall|k: int| 0 <= k < b ==> host@[k] != ']',
                    decreases pos - b,
                {
                    if host.get_char(b) == ']' {
                        assert(closes_before(host@, pos as int));
                        return host.substring_char(0, pos);
                    }
                    b = b + 1;
                }
                assert(!closes_before(host@, pos as int));
                return host;
            }
            return host.substring_char(0, pos);
        }
        i = i - 1;
    }
    host
}

/// The HTTPS URL a request for `path` on `host` is redirected to: the port
/// is omitted when it is 443.
pub open spec fn redirect_target_spec(https_port: u16, host: Seq<char>, path: Seq<char>) -> Seq<char> {
    if https_port == 443 {
        "https://"@ + host + path
    } else {
        "https://"@ + host + seq![':'] + decimal_digits(https_port as nat) + path
    }
}

/// The redirect target for a request whose `Host` header is `host` (if it
/// has a readable one) and whose path and query are `path` (if any): the
/// host's port is stripped, a missing host is `localhost`, and a missing
/// path is `/`.
pub fn redirect_target(https_port: u16, host: Option<&str>, path: Option<&str>) -> (r: String)
    ensures
        r@ == redirect_target_spec(
            https_port,
            match host {
                Some(h) => strip_port_spec(h@),
                None => "localhost"@,
            },
            match path {
                Some(p) => p@,
                None => "/"@,
            },
        ),
{
    let host = match host {
        Some(h) => strip_port(h),
        None => "localhost",
    };
    let path = match path {
        Some(p) => p,
        None => "/",
    };
    let mut r = String::new();
    push_str(&mut r, "https://");
    push_str(&mut r, host);
    if https_port != 443 {
        push_str(&mut r, ":");
        proof {
            reveal_strlit(":");
        }
        push_decimal(&mut r, https_port as u64);
    }
    push_str(&mut r, path);
    proof {
        if https_port == 443 {
            assert(r@ =~= redirect_target_spec(https_port, host@, path@));
        } else {
            assert(r@ =~= redirect_target_spec(https_port, host@, path@));
        }
    }
    r
}


/// A host without a port is kept as is.
pub proof fn law_host_without_port_is_kept(host: Seq<char>)
    requires
        forall|i: int| 0 <= i < host.len() ==> host[i] != ':',
    ensures
        strip_port_spec(host) == host,
{
}

/// Stripping keeps the text before the `:` of the port exactly, for a
/// plain host and for a bracketed IPv6 literal alike.
pub proof fn law_strip_port_keeps_prefix(name: Seq<char>, port: Seq<char>)
    requires
        forall|i: int| 0 <= i < port.len() ==> port[i] != ':',
        is_bracketed(name) ==> exists|b: int| 0 <= b < name.len() && name[b] == ']',
    ensures
        strip_port_spec(name + seq![':'] + port) == name,
{
    let host = name + seq![':'] + port;
    let p = name.len() as int;
    assert(host[p] == ':');
    assert(has_colon(host));
    let c = last_colon(host);
    if c != p {
        if c < p {
            assert(host[p] != ':');
        } else {
            assert(host[c] == port[c - p - 1]);
        }
    }
    if is_bracketed(name) {
        assert(host[0] == name[0]);
        let b = choose|b: int| 0 <= b < name.len() && name[b] == ']';
        assert(host[b] == ']');
    }
    assert(host.take(p) =~= name);
}

/// A text with a `:` has a last one.
pub proof fn lemma_last_colon(s: Seq<char>)
    requires
        has_colon(s),
    ensures
        0 <= last_colon(s) < s.len(),
        s[last_colon(s)] == ':',
        forall|j: int| last_colon(s) < j < s.len() ==> s[j] != ':',
    decreases s.len(),
{
    if s.last() == ':' {
        let w = s.len() - 1;
        assert(0 <= w < s.len() && s[w] == ':' && forall|j: int| w < j < s.len() ==> s[j] != ':');
    } else {
        let t = s.drop_last();
        let i = choose|i: int| 0 <= i < s.len() && s[i] == ':';
        assert(t[i] == ':');
        lemma_last_colon(t);
        let w = last_colon(t);
        assert(s[w] == ':');
        assert forall|j: int| w < j < s.len() implies s[j] != ':' by {
            if j < s.len() - 1 {
                assert(s[j] == t[j]);
            }
        }
    }
}

/// A bracketed IPv6 literal without a port is kept whole: its `:`s belong
/// to the address.
pub proof fn law_bracketed_literal_is_kept(inner: Seq<char>)
    requires
        forall|i: int| 0 <= i < inner.len() ==> inner[i] != ']',
    ensures
        strip_port_spec(seq!['['] + inner + seq![']']) == seq!['['] + inner + seq![']'],
{
    let host = seq!['['] + inner + seq![']'];
    if has_colon(host) {
        lemma_last_colon(host);
        let c = last_colon(host);
        assert(host[c] == ':');
        if closes_before(host, c) {
            let b = choose|b: int| 0 <= b < c && host[b] == ']';
            assert(b < host.len() - 1);
            if b == 0 {
                assert(host[0] == '[');
            } else {
                assert(host[b] == inner[b - 1]);
            }
        }
    }
}

} // verus!
