//! Who may push bundles to the node over HTTP.

use vstd::prelude::*;

verus! {

/// The address a request came from: IPv4 octets or IPv6 segments.
#[derive(Clone, Copy, Debug, PartialEq, Eq)]
pub enum RemoteIp {
    V4([u8; 4]),
    V6([u16; 8]),
}

/// Whether IPv4 octets are a loopback address (127.0.0.0/8).
pub open spec fn v4_loopback(first_octet: u8) -> bool {
    first_octet == 127
}

/// Whether IPv6 segments are the loopback address `::1`.
pub open spec fn v6_loopback(s: Seq<u16>) -> bool {
    s[0] == 0 && s[1] == 0 && s[2] == 0 && s[3] == 0 && s[4] == 0 && s[5] == 0 && s[6] == 0 && s[7]
        == 1
}

/// Whether IPv6 segments hold an IPv4 address (`::a.b.c.d` or
/// `::ffff:a.b.c.d`) whose first octet marks loopback.
pub open spec fn v6_holds_v4_loopback(s: Seq<u16>) -> bool {
    s[0] == 0 && s[1] == 0 && s[2] == 0 && s[3] == 0 && s[4] == 0 && (s[5] == 0 || s[5] == 0xffff)
        && v4_loopback((s[6] / 256) as u8)
}

/// Whether a request from `addr` may push bundles: always where the HTTP
/// server runs unprotected, else only from a loopback address (also one
/// written as IPv4 inside IPv6).
pub open spec fn request_allowed(unsafe_httpd: bool, addr: Option<RemoteIp>) -> bool {
    unsafe_httpd || match addr {
        Some(RemoteIp::V4(a)) => v4_loopback(a@[0]),
        Some(RemoteIp::V6(s)) => v6_loopback(s@) || v6_holds_v4_loopback(s@),
        None => false,
    }
}

/// Whether a request from `addr` (unknown where `None`) may push bundles.
pub fn require_localhost(unsafe_httpd: bool, addr: Option<RemoteIp>) -> (r: bool)
    ensures
        r == request_allowed(unsafe_httpd, addr),
{
    if unsafe_httpd {
        return true;
    }
    match addr {
        Some(RemoteIp::V4(a)) => a[0] == 127,
        Some(RemoteIp::V6(s)) => {
            let zero_prefix = s[0] == 0 && s[1] == 0 && s[2] == 0 && s[3] == 0 && s[4] == 0;
            if zero_prefix && s[5] == 0 && s[6] == 0 && s[7] == 1 {
                true
            } else {
                zero_prefix && (s[5] == 0 || s[5] == 0xffff) && s[6] / 256 == 127
            }
        },
        None => false,
    }
}

} // verus!
