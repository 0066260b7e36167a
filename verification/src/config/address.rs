//! IP addresses as numbers.

use vstd::prelude::*;

verus! {

/// An IP address.
#[derive(Debug, Clone, Copy, PartialEq, Eq, Structural)]
pub enum Ip {
    /// An IPv4 address, most significant byte first.
    V4(u32),
    /// An IPv6 address, most significant byte first.
    V6(u128),
}

/// The address that a text is, if it is one.
pub uninterp spec fn ip_value(s: Seq<char>) -> Option<Ip>;

/// `core::net::IpAddr::from_str`, through `str::parse`: the address that the
/// text stands for, or nothing where it stands for none.
#[verifier::external_body]
pub(crate) fn parse_ip(s: &str) -> (r: Option<Ip>)
    ensures
        r == ip_value(s@),
{
    match s.parse::<core::net::IpAddr>() {
        Ok(core::net::IpAddr::V4(a)) => Some(Ip::V4(u32::from(a))),
        Ok(core::net::IpAddr::V6(a)) => Some(Ip::V6(u128::from(a))),
        Err(_) => None,
    }
}

/// Whether a text is an IPv6 address.
pub open spec fn ipv6_text(s: Seq<char>) -> bool {
    ip_value(s) matches Some(Ip::V6(_))
}

/// Whether a text is an IPv6 address.
pub fn is_ipv6(s: &str) -> (r: bool)
    ensures
        r == ipv6_text(s@),
{
    matches!(parse_ip(s), Some(Ip::V6(_)))
}

} // verus!
