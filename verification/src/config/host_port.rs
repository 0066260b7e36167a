//! `host[:port]` with IPv6 literals in brackets.
//!
//! `host:port` is ambiguous for IPv6 literals, because the address itself
//! contains colons. So a literal stands in brackets when a port follows:
//! `[2001:db8::1]:22`.
//!
//! [`parse_host_port`] accepts
//!
//! - `example.com:2222` as `("example.com", 2222)`
//! - `[2001:db8::1]:2222` as `("2001:db8::1", 2222)`
//! - `[2001:db8::1]` and `2001:db8::1` as `("2001:db8::1", default_port)`
//! - `example.com` as `("example.com", default_port)`
//!
//! and rejects a missing close bracket, brackets around anything but an IPv6
//! literal, and an empty or malformed port.

use super::address::{ipv6_text, is_ipv6};
use super::{bad_value, with_quoted, ConfigError, ConfigErrorView};
use crate::text::{
    chars_of, debug_quoted, decimal, find, first_index, last_index, lemma_decimal,
    lemma_first_index, lemma_last_index, parse_number, parse_unsigned, rfind, string_of,
};
use vstd::prelude::*;

verus! {

/// A complaint about a host and port.
pub open spec fn complaint(msg: Seq<char>) -> ConfigErrorView {
    ConfigErrorView::BadValue { line: 0, keyword: "host_port"@, msg }
}

/// The port that `text` names, within the argument `s`.
pub open spec fn port_of(text: Seq<char>, s: Seq<char>) -> Result<u16, ConfigErrorView> {
    match parse_unsigned(text, 65535) {
        Some(v) => Ok(v as u16),
        None => Err(complaint("bad port "@ + debug_quoted(text) + " in "@ + debug_quoted(s))),
    }
}

/// The port that follows a close bracket.
pub open spec fn port_after(after: Seq<char>, default_port: u16, s: Seq<char>) -> Result<
    u16,
    ConfigErrorView,
> {
    if after.len() == 0 {
        Ok(default_port)
    } else if after[0] != ':' {
        Err(complaint("expected `:port` after `]` in "@ + debug_quoted(s)))
    } else {
        port_of(after.skip(1), s)
    }
}

/// A host with the port that belongs to it.
pub open spec fn with_port(host: Seq<char>, port: Result<u16, ConfigErrorView>) -> Result<
    (Seq<char>, u16),
    ConfigErrorView,
> {
    match port {
        Ok(p) => Ok((host, p)),
        Err(e) => Err(e),
    }
}

/// What `[host]` or `[host]:port` stands for; only IPv6 literals stand in
/// brackets if `v6_only`.
pub open spec fn bracketed(s: Seq<char>, default_port: u16, v6_only: bool) -> Result<
    (Seq<char>, u16),
    ConfigErrorView,
> {
    let rest = s.skip(1);
    match first_index(rest, ']') {
        None => Err(complaint("missing `]` in bracketed host "@ + debug_quoted(s))),
        Some(i) => if v6_only && !ipv6_text(rest.take(i)) {
            Err(
                complaint(
                    "brackets are only valid around IPv6 literals; got "@ + debug_quoted(
                        rest.take(i),
                    ) + " in "@ + debug_quoted(s),
                ),
            )
        } else {
            with_port(rest.take(i), port_after(rest.skip(i + 1), default_port, s))
        },
    }
}

/// The host and port that an argument stands for.
pub open spec fn host_port(s: Seq<char>, default_port: u16) -> Result<
    (Seq<char>, u16),
    ConfigErrorView,
> {
    if s.len() > 0 && s[0] == '[' {
        bracketed(s, default_port, true)
    } else if ipv6_text(s) {
        Ok((s, default_port))
    } else {
        match last_index(s, ':') {
            Some(i) => match port_of(s.skip(i + 1), s) {
                Err(e) => Err(e),
                Ok(p) => if i == 0 {
                    Err(complaint("empty host in "@ + debug_quoted(s)))
                } else {
                    Ok((s.take(i), p))
                },
            },
            None => if s.len() == 0 {
                Err(complaint("empty host"@))
            } else {
                Ok((s, default_port))
            },
        }
    }
}

/// The host and port that a known-hosts pattern stands for.
pub open spec fn host_port_pattern(s: Seq<char>, default_port: u16) -> Result<
    (Seq<char>, u16),
    ConfigErrorView,
> {
    if s.len() > 0 && s[0] == '[' {
        bracketed(s, default_port, false)
    } else {
        Ok((s, default_port))
    }
}

/// Whether a result is the host and port, or the error, of the model.
pub open spec fn is_host_port(
    r: Result<(String, u16), ConfigError>,
    model: Result<(Seq<char>, u16), ConfigErrorView>,
) -> bool {
    match model {
        Ok((host, port)) => r matches Ok((h, p)) && h@ == host && p == port,
        Err(e) => r matches Err(x) && x@ == e,
    }
}

fn complain(msg: String) -> (e: ConfigError)
    ensures
        e@ == complaint(msg@),
{
    bad_value(0, "host_port", msg)
}

fn read_port(text: &[char], s: &str) -> (r: Result<u16, ConfigError>)
    ensures
        match port_of(text@, s@) {
            Ok(p) => r matches Ok(q) && q == p,
            Err(e) => r matches Err(x) && x@ == e,
        },
{
    match parse_number(text, 65535) {
        Some(v) => Ok(v as u16),
        None => {
            let mut msg = with_quoted("bad port ", string_of(text).as_str());
            msg.append(" in ");
            msg.append(crate::text::quoted(s).as_str());
            Err(complain(msg))
        },
    }
}

fn parse_bracketed(s: &str, default_port: u16, v6_only: bool) -> (r: Result<
    (String, u16),
    ConfigError,
>)
    requires
        s@.len() > 0,
    ensures
        is_host_port(r, bracketed(s@, default_port, v6_only)),
{
    let cs = chars_of(s);
    let rest = vstd::slice::slice_subrange(cs.as_slice(), 1, cs.len());
    assert(rest@ =~= s@.skip(1));
    let close = match find(rest, ']') {
        Some(i) => i,
        None => {
            return Err(complain(with_quoted("missing `]` in bracketed host ", s)));
        },
    };
    let host_chars = vstd::slice::slice_subrange(rest, 0, close);
    let after = vstd::slice::slice_subrange(rest, close + 1, rest.len());
    assert(host_chars@ =~= rest@.take(close as int));
    assert(after@ =~= rest@.skip(close + 1));
    let host = string_of(host_chars);
    if v6_only && !is_ipv6(host.as_str()) {
        let mut msg = with_quoted(
            "brackets are only valid around IPv6 literals; got ",
            host.as_str(),
        );
        msg.append(" in ");
        msg.append(crate::text::quoted(s).as_str());
        return Err(complain(msg));
    }
    if after.len() == 0 {
        return Ok((host, default_port));
    }
    if after[0] != ':' {
        return Err(complain(with_quoted("expected `:port` after `]` in ", s)));
    }
    let text = vstd::slice::slice_subrange(after, 1, after.len());
    assert(text@ =~= after@.skip(1));
    match read_port(text, s) {
        Ok(port) => Ok((host, port)),
        Err(e) => Err(e),
    }
}

/// Parse a `host[:port]` argument. The host comes back without brackets and
/// without the port.
pub fn parse_host_port(s: &str, default_port: u16) -> (r: Result<(String, u16), ConfigError>)
    ensures
        is_host_port(r, host_port(s@, default_port)),
{
    let cs = chars_of(s);
    if cs.len() > 0 && cs[0] == '[' {
        return parse_bracketed(s, default_port, true);
    }
    if is_ipv6(s) {
        return Ok((s.to_owned(), default_port));
    }
    match rfind(cs.as_slice(), ':') {
        Some(i) => {
            let text = vstd::slice::slice_subrange(cs.as_slice(), i + 1, cs.len());
            assert(text@ =~= s@.skip(i + 1));
            let port = match read_port(text, s) {
                Ok(p) => p,
                Err(e) => {
                    return Err(e);
                },
            };
            if i == 0 {
                return Err(complain(with_quoted("empty host in ", s)));
            }
            let host = vstd::slice::slice_subrange(cs.as_slice(), 0, i);
            assert(host@ =~= s@.take(i as int));
            Ok((string_of(host), port))
        },
        None => {
            if cs.len() == 0 {
                return Err(complain("empty host".to_owned()));
            }
            Ok((s.to_owned(), default_port))
        },
    }
}

/// Parse the host pattern of a known-hosts entry, where brackets may stand
/// around any host. A pattern without brackets is taken as it is, colons
/// included.
pub fn parse_host_port_pattern(s: &str, default_port: u16) -> (r: Result<
    (String, u16),
    ConfigError,
>)
    ensures
        is_host_port(r, host_port_pattern(s@, default_port)),
{
    let cs = chars_of(s);
    if cs.len() > 0 && cs[0] == '[' {
        return parse_bracketed(s, default_port, false);
    }
    Ok((s.to_owned(), default_port))
}

/// The digits of a port are read back as that port.
proof fn lemma_port(port: u16, s: Seq<char>)
    ensures
        port_of(decimal(port as nat), s) == Ok::<u16, ConfigErrorView>(port),
{
    lemma_decimal(port as nat);
    let d = decimal(port as nat);
    assert(d[0] != '+');
    assert(parse_unsigned(d, 65535) == Some(port as nat));
}

/// `[host]:port`, as a known-hosts file writes a host with a port of its own,
/// is read back as that host and port.
pub proof fn lemma_bracketed_pattern(host: Seq<char>, port: u16, default_port: u16)
    requires
        !host.contains(']'),
    ensures
        host_port_pattern(seq!['['] + host + seq![']', ':'] + decimal(port as nat), default_port)
            == Ok::<(Seq<char>, u16), ConfigErrorView>((host, port)),
{
    let s = seq!['['] + host + seq![']', ':'] + decimal(port as nat);
    let rest = s.skip(1);
    lemma_bracket_split(host, port);
    lemma_port(port, s);
    assert(rest.skip(host.len() as int + 1).skip(1) =~= decimal(port as nat));
}

proof fn lemma_bracket_split(host: Seq<char>, port: u16)
    requires
        !host.contains(']'),
    ensures
        ({
            let rest = (seq!['['] + host + seq![']', ':'] + decimal(port as nat)).skip(1);
            &&& first_index(rest, ']') == Some(host.len() as int)
            &&& rest.take(host.len() as int) == host
            &&& rest.skip(host.len() as int + 1) == seq![':'] + decimal(port as nat)
        }),
{
    let rest = (seq!['['] + host + seq![']', ':'] + decimal(port as nat)).skip(1);
    assert(rest =~= host + seq![']', ':'] + decimal(port as nat));
    lemma_first_index(rest, ']');
    assert(rest[host.len() as int] == ']');
    assert(rest.contains(']'));
    assert forall|k: int| 0 <= k < host.len() implies rest[k] != ']' by {
        assert(rest[k] == host[k]);
    }
    assert(rest.take(host.len() as int) =~= host);
    assert(rest.skip(host.len() as int + 1) =~= seq![':'] + decimal(port as nat));
}

/// An IPv6 literal in brackets with a port is read as that literal and port.
pub proof fn lemma_bracketed_v6(host: Seq<char>, port: u16, default_port: u16)
    requires
        ipv6_text(host),
        !host.contains(']'),
    ensures
        host_port(seq!['['] + host + seq![']', ':'] + decimal(port as nat), default_port) == Ok::<
            (Seq<char>, u16),
            ConfigErrorView,
        >((host, port)),
{
    let s = seq!['['] + host + seq![']', ':'] + decimal(port as nat);
    let rest = s.skip(1);
    lemma_bracket_split(host, port);
    lemma_port(port, s);
    assert(rest.skip(host.len() as int + 1).skip(1) =~= decimal(port as nat));
}

/// A host with a port after a colon is read as that host and port, unless the
/// whole is an IPv6 literal.
pub proof fn lemma_host_colon_port(host: Seq<char>, port: u16, default_port: u16)
    requires
        host.len() > 0,
        host[0] != '[',
        !ipv6_text(host + seq![':'] + decimal(port as nat)),
    ensures
        host_port(host + seq![':'] + decimal(port as nat), default_port) == Ok::<
            (Seq<char>, u16),
            ConfigErrorView,
        >((host, port)),
{
    let s = host + seq![':'] + decimal(port as nat);
    lemma_decimal(port as nat);
    lemma_last_index(s, ':');
    assert(s[host.len() as int] == ':');
    assert(s.contains(':'));
    assert forall|k: int| host.len() < k < s.len() implies s[k] != ':' by {
        assert(s[k] == decimal(port as nat)[k - host.len() - 1]);
    }
    assert(s.take(host.len() as int) =~= host);
    assert(s.skip(host.len() as int + 1) =~= decimal(port as nat));
    lemma_port(port, s);
}

/// A host without a port gets the default port, an IPv6 literal as much as a
/// name.
pub proof fn lemma_default_port(host: Seq<char>, default_port: u16)
    requires
        host.len() > 0,
        host[0] != '[',
        ipv6_text(host) || !host.contains(':'),
    ensures
        host_port(host, default_port) == Ok::<(Seq<char>, u16), ConfigErrorView>(
            (host, default_port),
        ),
{
    lemma_last_index(host, ':');
}

} // verus!
