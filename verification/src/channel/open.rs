//! Channel-open kinds: the type-specific tail of `CHANNEL_OPEN` (RFC 4254
//! sections 5.1 and 7.2).

use super::{field, get_text, lemma_get_put_text, read_utf8, text_fits, wire_text};
use crate::error::Error;
use crate::format::{be32, get_u32, lemma_get_put_u32, lemma_regroup4, Reader, Writer};
use crate::text::str_eq;
use vstd::prelude::*;

verus! {

/// Channel-open kinds: the type-specific tail of `CHANNEL_OPEN`.
#[derive(Debug, Clone, PartialEq, Eq)]
pub enum ChannelOpen {
    /// `"session"`: RFC 4254 section 6.1.
    Session,
    /// `"direct-tcpip"`: client asks server to open a TCP connection (RFC 4254
    /// section 7.2).
    DirectTcpip {
        /// Final destination hostname/IP.
        dest_host: String,
        /// Final destination TCP port.
        dest_port: u32,
        /// Originator's IP address.
        orig_host: String,
        /// Originator's TCP port.
        orig_port: u32,
    },
    /// `"forwarded-tcpip"`: server delivers an incoming forwarded connection.
    ForwardedTcpip {
        /// Address that was being listened on.
        dest_host: String,
        /// Port that was being listened on.
        dest_port: u32,
        /// Originator's IP address.
        orig_host: String,
        /// Originator's TCP port.
        orig_port: u32,
    },
    /// `"auth-agent@openssh.com"`: server-initiated channel that proxies a
    /// connection on the per-session forwarded agent socket back to the
    /// client's local agent; no type-specific payload.
    AuthAgent,
    /// `"x11"`: server-initiated channel that proxies a connection on the
    /// per-session forwarded X11 display back to the client's local display
    /// (RFC 4254 section 6.3.2).
    X11 {
        /// Originator's IP address as reported by the X server side.
        orig_host: String,
        /// Originator's TCP port.
        orig_port: u32,
    },
    /// Unknown channel type, raw type-specific bytes preserved.
    Other {
        /// Channel-type name.
        kind: String,
        /// Type-specific body verbatim.
        raw: Vec<u8>,
    },
}

/// What a [`ChannelOpen`] says.
#[verifier::ext_equal]
pub ghost enum ChannelOpenView {
    Session,
    DirectTcpip { dest_host: Seq<char>, dest_port: u32, orig_host: Seq<char>, orig_port: u32 },
    ForwardedTcpip { dest_host: Seq<char>, dest_port: u32, orig_host: Seq<char>, orig_port: u32 },
    AuthAgent,
    X11 { orig_host: Seq<char>, orig_port: u32 },
    Other { kind: Seq<char>, raw: Seq<u8> },
}

/// A host and a port.
pub open spec fn get_endpoint(s: Seq<u8>) -> Result<((Seq<char>, u32), Seq<u8>), Error> {
    match get_text(s, "invalid utf-8") {
        Err(e) => Err(e),
        Ok((host, r1)) => match field(get_u32(r1)) {
            Err(e) => Err(e),
            Ok((port, r2)) => Ok(((host, port), r2)),
        },
    }
}

impl ChannelOpenView {
    /// The `channel_type` field value.
    pub open spec fn kind(self) -> Seq<char> {
        match self {
            ChannelOpenView::Session => "session"@,
            ChannelOpenView::DirectTcpip { .. } => "direct-tcpip"@,
            ChannelOpenView::ForwardedTcpip { .. } => "forwarded-tcpip"@,
            ChannelOpenView::AuthAgent => "auth-agent@openssh.com"@,
            ChannelOpenView::X11 { .. } => "x11"@,
            ChannelOpenView::Other { kind, .. } => kind,
        }
    }

    /// The part of the message after the maximum packet size.
    pub open spec fn body(self) -> Seq<u8> {
        match self {
            ChannelOpenView::DirectTcpip { dest_host, dest_port, orig_host, orig_port } => {
                wire_text(dest_host) + be32(dest_port) + wire_text(orig_host) + be32(orig_port)
            },
            ChannelOpenView::ForwardedTcpip { dest_host, dest_port, orig_host, orig_port } => {
                wire_text(dest_host) + be32(dest_port) + wire_text(orig_host) + be32(orig_port)
            },
            ChannelOpenView::X11 { orig_host, orig_port } => wire_text(orig_host) + be32(orig_port),
            ChannelOpenView::Other { raw, .. } => raw,
            _ => Seq::empty(),
        }
    }

    /// The open that a channel type and a body stand for. Bytes after the
    /// last field of a recognised type are ignored.
    pub open spec fn decode(kind: Seq<char>, body: Seq<u8>) -> Result<Self, Error> {
        if kind == "session"@ {
            Ok(ChannelOpenView::Session)
        } else if kind == "direct-tcpip"@ {
            match get_endpoint(body) {
                Err(e) => Err(e),
                Ok(((dest_host, dest_port), rest)) => match get_endpoint(rest) {
                    Err(e) => Err(e),
                    Ok(((orig_host, orig_port), _)) => Ok(
                        ChannelOpenView::DirectTcpip { dest_host, dest_port, orig_host, orig_port },
                    ),
                },
            }
        } else if kind == "forwarded-tcpip"@ {
            match get_endpoint(body) {
                Err(e) => Err(e),
                Ok(((dest_host, dest_port), rest)) => match get_endpoint(rest) {
                    Err(e) => Err(e),
                    Ok(((orig_host, orig_port), _)) => Ok(
                        ChannelOpenView::ForwardedTcpip {
                            dest_host,
                            dest_port,
                            orig_host,
                            orig_port,
                        },
                    ),
                },
            }
        } else if kind == "auth-agent@openssh.com"@ {
            Ok(ChannelOpenView::AuthAgent)
        } else if kind == "x11"@ {
            match get_endpoint(body) {
                Err(e) => Err(e),
                Ok(((orig_host, orig_port), _)) => Ok(
                    ChannelOpenView::X11 { orig_host, orig_port },
                ),
            }
        } else {
            Ok(ChannelOpenView::Other { kind, raw: body })
        }
    }

    /// Whether the open survives the trip over the wire: its strings fit
    /// their length prefixes, and an unrecognised type is not one of the known
    /// ones.
    pub open spec fn encodable(self) -> bool {
        match self {
            ChannelOpenView::DirectTcpip { dest_host, orig_host, .. } => text_fits(dest_host)
                && text_fits(orig_host),
            ChannelOpenView::ForwardedTcpip { dest_host, orig_host, .. } => text_fits(dest_host)
                && text_fits(orig_host),
            ChannelOpenView::X11 { orig_host, .. } => text_fits(orig_host),
            ChannelOpenView::Other { kind, .. } => kind != "session"@ && kind != "direct-tcpip"@
                && kind != "forwarded-tcpip"@ && kind != "auth-agent@openssh.com"@ && kind
                != "x11"@,
            _ => true,
        }
    }
}

impl View for ChannelOpen {
    type V = ChannelOpenView;

    open spec fn view(&self) -> ChannelOpenView {
        match self {
            ChannelOpen::Session => ChannelOpenView::Session,
            ChannelOpen::DirectTcpip { dest_host, dest_port, orig_host, orig_port } => {
                ChannelOpenView::DirectTcpip {
                    dest_host: dest_host@,
                    dest_port: *dest_port,
                    orig_host: orig_host@,
                    orig_port: *orig_port,
                }
            },
            ChannelOpen::ForwardedTcpip { dest_host, dest_port, orig_host, orig_port } => {
                ChannelOpenView::ForwardedTcpip {
                    dest_host: dest_host@,
                    dest_port: *dest_port,
                    orig_host: orig_host@,
                    orig_port: *orig_port,
                }
            },
            ChannelOpen::AuthAgent => ChannelOpenView::AuthAgent,
            ChannelOpen::X11 { orig_host, orig_port } => ChannelOpenView::X11 {
                orig_host: orig_host@,
                orig_port: *orig_port,
            },
            ChannelOpen::Other { kind, raw } => ChannelOpenView::Other {
                kind: kind@,
                raw: raw@,
            },
        }
    }
}

/// The recognised channel types are pairwise different.
proof fn lemma_kinds_differ()
    ensures
        "session"@ != "direct-tcpip"@,
        "session"@ != "forwarded-tcpip"@,
        "session"@ != "auth-agent@openssh.com"@,
        "session"@ != "x11"@,
        "direct-tcpip"@ != "forwarded-tcpip"@,
        "direct-tcpip"@ != "auth-agent@openssh.com"@,
        "direct-tcpip"@ != "x11"@,
        "forwarded-tcpip"@ != "auth-agent@openssh.com"@,
        "forwarded-tcpip"@ != "x11"@,
        "auth-agent@openssh.com"@ != "x11"@,
{
    reveal_strlit("session");
    reveal_strlit("direct-tcpip");
    reveal_strlit("forwarded-tcpip");
    reveal_strlit("auth-agent@openssh.com");
    reveal_strlit("x11");
    assert("session"@.len() == 7);
    assert("direct-tcpip"@.len() == 12);
    assert("forwarded-tcpip"@.len() == 15);
    assert("auth-agent@openssh.com"@.len() == 22);
    assert("x11"@.len() == 3);
}

proof fn lemma_endpoint_round_trip(host: Seq<char>, port: u32, tail: Seq<u8>)
    requires
        text_fits(host),
    ensures
        get_endpoint(wire_text(host) + (be32(port) + tail)) == Ok::<_, Error>(((host, port), tail)),
{
    lemma_get_put_text(host, be32(port) + tail, "invalid utf-8");
    lemma_get_put_u32(port, tail);
}

proof fn lemma_endpoints_round_trip(h1: Seq<char>, p1: u32, h2: Seq<char>, p2: u32)
    requires
        text_fits(h1),
        text_fits(h2),
    ensures
        ({
            let rest = wire_text(h2) + (be32(p2) + Seq::empty());
            &&& get_endpoint(wire_text(h1) + be32(p1) + wire_text(h2) + be32(p2)) == Ok::<_, Error>(
                ((h1, p1), rest),
            )
            &&& get_endpoint(rest) == Ok::<_, Error>(((h2, p2), Seq::<u8>::empty()))
        }),
{
    let rest = wire_text(h2) + (be32(p2) + Seq::empty());
    lemma_regroup4(wire_text(h1), be32(p1), wire_text(h2), be32(p2));
    lemma_endpoint_round_trip(h1, p1, rest);
    lemma_endpoint_round_trip(h2, p2, Seq::empty());
}

/// Decoding what was encoded gives the open back.
pub proof fn lemma_open_round_trip(open: ChannelOpenView)
    requires
        open.encodable(),
    ensures
        ChannelOpenView::decode(open.kind(), open.body()) == Ok::<ChannelOpenView, Error>(open),
{
    lemma_kinds_differ();
    match open {
        ChannelOpenView::DirectTcpip { dest_host, dest_port, orig_host, orig_port } => {
            lemma_endpoints_round_trip(dest_host, dest_port, orig_host, orig_port);
        },
        ChannelOpenView::ForwardedTcpip { dest_host, dest_port, orig_host, orig_port } => {
            lemma_endpoints_round_trip(dest_host, dest_port, orig_host, orig_port);
        },
        ChannelOpenView::X11 { orig_host, orig_port } => {
            assert(be32(orig_port) + Seq::<u8>::empty() =~= be32(orig_port));
            lemma_endpoint_round_trip(orig_host, orig_port, Seq::empty());
        },
        _ => {},
    }
}

/// Read a host and a port.
fn read_endpoint(r: &mut Reader<'_>) -> (e: Result<(String, u32), Error>)
    ensures
        match get_endpoint(old(r)@) {
            Ok(((host, port), rest)) => {
                &&& e matches Ok((h, p))
                &&& h@ == host
                &&& p == port
                &&& final(r)@ == rest
            },
            Err(x) => e == Err::<(String, u32), Error>(x),
        },
{
    let host = read_utf8(r, "invalid utf-8")?;
    let port: u32 = r.read_u32()?;
    Ok((host.to_owned(), port))
}

/// Append a host and a port.
fn write_endpoint(w: &mut Writer, host: &str, port: u32)
    ensures
        final(w)@ == old(w)@ + wire_text(host@) + be32(port),
{
    w.write_string(host.as_bytes());
    w.write_u32(port);
}

impl ChannelOpen {
    /// The `channel_type` field value.
    pub fn kind(&self) -> (r: &str)
        ensures
            r@ == self@.kind(),
    {
        match self {
            ChannelOpen::Session => "session",
            ChannelOpen::DirectTcpip { .. } => "direct-tcpip",
            ChannelOpen::ForwardedTcpip { .. } => "forwarded-tcpip",
            ChannelOpen::AuthAgent => "auth-agent@openssh.com",
            ChannelOpen::X11 { .. } => "x11",
            ChannelOpen::Other { kind, .. } => kind.as_str(),
        }
    }

    /// Append the type-specific tail.
    pub(crate) fn encode_tail(&self, w: &mut Writer)
        ensures
            final(w)@ == old(w)@ + self@.body(),
    {
        match self {
            ChannelOpen::Session => {},
            ChannelOpen::DirectTcpip { dest_host, dest_port, orig_host, orig_port } => {
                write_endpoint(w, dest_host.as_str(), *dest_port);
                write_endpoint(w, orig_host.as_str(), *orig_port);
            },
            ChannelOpen::ForwardedTcpip { dest_host, dest_port, orig_host, orig_port } => {
                write_endpoint(w, dest_host.as_str(), *dest_port);
                write_endpoint(w, orig_host.as_str(), *orig_port);
            },
            ChannelOpen::AuthAgent => {},
            ChannelOpen::X11 { orig_host, orig_port } => {
                write_endpoint(w, orig_host.as_str(), *orig_port);
            },
            ChannelOpen::Other { raw, .. } => {
                w.write_raw(raw.as_slice());
            },
        }
        assert(w@ =~= old(w)@ + self@.body());
    }

    /// Decode the type-specific tail given the channel type.
    pub(crate) fn decode(kind: &str, body: &[u8]) -> (r: Result<Self, Error>)
        ensures
            match ChannelOpenView::decode(kind@, body@) {
                Ok(v) => r matches Ok(open) && open@ == v,
                Err(e) => r == Err::<Self, Error>(e),
            },
    {
        let mut r = Reader::new(body);
        if str_eq(kind, "session") {
            Ok(ChannelOpen::Session)
        } else if str_eq(kind, "direct-tcpip") {
            let (dest_host, dest_port) = read_endpoint(&mut r)?;
            let (orig_host, orig_port) = read_endpoint(&mut r)?;
            Ok(ChannelOpen::DirectTcpip { dest_host, dest_port, orig_host, orig_port })
        } else if str_eq(kind, "forwarded-tcpip") {
            let (dest_host, dest_port) = read_endpoint(&mut r)?;
            let (orig_host, orig_port) = read_endpoint(&mut r)?;
            Ok(ChannelOpen::ForwardedTcpip { dest_host, dest_port, orig_host, orig_port })
        } else if str_eq(kind, "auth-agent@openssh.com") {
            Ok(ChannelOpen::AuthAgent)
        } else if str_eq(kind, "x11") {
            let (orig_host, orig_port) = read_endpoint(&mut r)?;
            Ok(ChannelOpen::X11 { orig_host, orig_port })
        } else {
            Ok(
                ChannelOpen::Other {
                    kind: kind.to_owned(),
                    raw: vstd::slice::slice_to_vec(body),
                },
            )
        }
    }
}

} // verus!
