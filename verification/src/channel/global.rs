//! `SSH_MSG_GLOBAL_REQUEST` payloads (RFC 4254 section 4).

use super::{field, get_text, lemma_get_put_text, read_utf8, text_fits, wire_text};
use crate::error::Error;
use crate::format::{be32, get_u32, lemma_get_put_u32, Reader, Writer};
use crate::text::str_eq;
use vstd::prelude::*;

verus! {

/// A decoded global-request body.
#[derive(Debug, Clone, PartialEq, Eq)]
pub enum GlobalRequest {
    /// `"tcpip-forward"`: ask the server to listen on `bind_address:bind_port`
    /// and forward incoming connections (RFC 4254 section 7.1).
    TcpipForward {
        /// Address to listen on; `""` means all interfaces, `"localhost"` is loopback only.
        bind_address: String,
        /// Port to listen on; 0 asks the server to pick.
        bind_port: u32,
    },
    /// `"cancel-tcpip-forward"`: undo a previous `tcpip-forward`.
    CancelTcpipForward {
        /// The originally bound address.
        bind_address: String,
        /// The originally bound port.
        bind_port: u32,
    },
    /// OpenSSH's `"keepalive@openssh.com"` heartbeat.
    Keepalive,
    /// Any request type we do not recognise.
    Other {
        /// Request name as advertised on the wire.
        name: String,
        /// Type-specific body verbatim.
        raw: Vec<u8>,
    },
}

/// What a [`GlobalRequest`] says.
#[verifier::ext_equal]
pub ghost enum GlobalRequestView {
    TcpipForward { bind_address: Seq<char>, bind_port: u32 },
    CancelTcpipForward { bind_address: Seq<char>, bind_port: u32 },
    Keepalive,
    Other { name: Seq<char>, raw: Seq<u8> },
}


impl GlobalRequestView {
    /// The `request_name` field of the parent message.
    pub open spec fn name(self) -> Seq<char> {
        match self {
            GlobalRequestView::TcpipForward { .. } => "tcpip-forward"@,
            GlobalRequestView::CancelTcpipForward { .. } => "cancel-tcpip-forward"@,
            GlobalRequestView::Keepalive => "keepalive@openssh.com"@,
            GlobalRequestView::Other { name, .. } => name,
        }
    }

    /// The part of the message after `want_reply`.
    pub open spec fn body(self) -> Seq<u8> {
        match self {
            GlobalRequestView::TcpipForward { bind_address, bind_port } => wire_text(bind_address)
                + be32(bind_port),
            GlobalRequestView::CancelTcpipForward { bind_address, bind_port } => wire_text(
                bind_address,
            ) + be32(bind_port),
            GlobalRequestView::Keepalive => Seq::empty(),
            GlobalRequestView::Other { raw, .. } => raw,
        }
    }

    /// The request that a name and a body stand for.
    pub open spec fn decode(name: Seq<char>, body: Seq<u8>) -> Result<Self, Error> {
        if name == "tcpip-forward"@ {
            match Self::decode_address(body) {
                Ok((bind_address, bind_port)) => Ok(
                    GlobalRequestView::TcpipForward { bind_address, bind_port },
                ),
                Err(e) => Err(e),
            }
        } else if name == "cancel-tcpip-forward"@ {
            match Self::decode_address(body) {
                Ok((bind_address, bind_port)) => Ok(
                    GlobalRequestView::CancelTcpipForward { bind_address, bind_port },
                ),
                Err(e) => Err(e),
            }
        } else if name == "keepalive@openssh.com"@ {
            Ok(GlobalRequestView::Keepalive)
        } else {
            Ok(GlobalRequestView::Other { name, raw: body })
        }
    }

    /// An address and a port.
    pub open spec fn decode_address(body: Seq<u8>) -> Result<(Seq<char>, u32), Error> {
        match get_text(body, "invalid utf-8 in global request") {
            Err(e) => Err(e),
            Ok((addr, rest)) => match field(get_u32(rest)) {
                Err(e) => Err(e),
                Ok((port, _)) => Ok((addr, port)),
            },
        }
    }

    /// Whether the request survives the trip over the wire: its text fits the
    /// length prefix, and an unrecognised name is not one of the known ones.
    pub open spec fn encodable(self) -> bool {
        match self {
            GlobalRequestView::TcpipForward { bind_address, .. } => text_fits(bind_address),
            GlobalRequestView::CancelTcpipForward { bind_address, .. } => text_fits(bind_address),
            GlobalRequestView::Keepalive => true,
            GlobalRequestView::Other { name, .. } => name != "tcpip-forward"@ && name
                != "cancel-tcpip-forward"@ && name != "keepalive@openssh.com"@,
        }
    }
}

impl View for GlobalRequest {
    type V = GlobalRequestView;

    open spec fn view(&self) -> GlobalRequestView {
        match self {
            GlobalRequest::TcpipForward { bind_address, bind_port } => {
                GlobalRequestView::TcpipForward {
                    bind_address: bind_address@,
                    bind_port: *bind_port,
                }
            },
            GlobalRequest::CancelTcpipForward { bind_address, bind_port } => {
                GlobalRequestView::CancelTcpipForward {
                    bind_address: bind_address@,
                    bind_port: *bind_port,
                }
            },
            GlobalRequest::Keepalive => GlobalRequestView::Keepalive,
            GlobalRequest::Other { name, raw } => GlobalRequestView::Other {
                name: name@,
                raw: raw@,
            },
        }
    }
}

/// The recognised names are pairwise different.
proof fn lemma_names_differ()
    ensures
        "tcpip-forward"@ != "cancel-tcpip-forward"@,
        "tcpip-forward"@ != "keepalive@openssh.com"@,
        "cancel-tcpip-forward"@ != "keepalive@openssh.com"@,
{
    reveal_strlit("tcpip-forward");
    reveal_strlit("cancel-tcpip-forward");
    reveal_strlit("keepalive@openssh.com");
    assert("tcpip-forward"@.len() == 13);
    assert("cancel-tcpip-forward"@.len() == 20);
    assert("keepalive@openssh.com"@.len() == 21);
}

/// Decoding what was encoded gives the request back.
pub proof fn lemma_global_round_trip(req: GlobalRequestView)
    requires
        req.encodable(),
    ensures
        GlobalRequestView::decode(req.name(), req.body()) == Ok::<GlobalRequestView, Error>(req),
{
    lemma_names_differ();
    match req {
        GlobalRequestView::TcpipForward { bind_address, bind_port } => {
            lemma_get_put_text(bind_address, be32(bind_port), "invalid utf-8 in global request");
            lemma_get_put_u32(bind_port, Seq::empty());
            assert(be32(bind_port) + Seq::<u8>::empty() =~= be32(bind_port));
        },
        GlobalRequestView::CancelTcpipForward { bind_address, bind_port } => {
            lemma_get_put_text(bind_address, be32(bind_port), "invalid utf-8 in global request");
            lemma_get_put_u32(bind_port, Seq::empty());
            assert(be32(bind_port) + Seq::<u8>::empty() =~= be32(bind_port));
        },
        _ => {},
    }
}

impl GlobalRequest {
    /// The `request_name` field of the parent message.
    pub fn name(&self) -> (r: &str)
        ensures
            r@ == self@.name(),
    {
        match self {
            GlobalRequest::TcpipForward { .. } => "tcpip-forward",
            GlobalRequest::CancelTcpipForward { .. } => "cancel-tcpip-forward",
            GlobalRequest::Keepalive => "keepalive@openssh.com",
            GlobalRequest::Other { name, .. } => name.as_str(),
        }
    }

    /// Encode just the request-name-specific tail (everything after `want_reply`).
    pub fn encode(&self, w: &mut Writer)
        ensures
            final(w)@ == old(w)@ + self@.body(),
    {
        match self {
            GlobalRequest::TcpipForward { bind_address, bind_port } => {
                w.write_string(bind_address.as_str().as_bytes());
                w.write_u32(*bind_port);
            },
            GlobalRequest::CancelTcpipForward { bind_address, bind_port } => {
                w.write_string(bind_address.as_str().as_bytes());
                w.write_u32(*bind_port);
            },
            GlobalRequest::Keepalive => {},
            GlobalRequest::Other { raw, .. } => {
                w.write_raw(raw.as_slice());
            },
        }
        assert(w@ =~= old(w)@ + self@.body());
    }

    /// Decode a global-request body given the `request_name`.
    pub fn decode(name: &str, body: &[u8]) -> (r: Result<Self, Error>)
        ensures
            match GlobalRequestView::decode(name@, body@) {
                Ok(v) => r matches Ok(req) && req@ == v,
                Err(e) => r == Err::<Self, Error>(e),
            },
    {
        let mut r = Reader::new(body);
        if str_eq(name, "tcpip-forward") {
            let bind_address = read_utf8(&mut r, "invalid utf-8 in global request")?;
            let bind_port: u32 = r.read_u32()?;
            Ok(GlobalRequest::TcpipForward { bind_address: bind_address.to_owned(), bind_port })
        } else if str_eq(name, "cancel-tcpip-forward") {
            let bind_address = read_utf8(&mut r, "invalid utf-8 in global request")?;
            let bind_port: u32 = r.read_u32()?;
            Ok(
                GlobalRequest::CancelTcpipForward {
                    bind_address: bind_address.to_owned(),
                    bind_port,
                },
            )
        } else if str_eq(name, "keepalive@openssh.com") {
            Ok(GlobalRequest::Keepalive)
        } else {
            Ok(
                GlobalRequest::Other {
                    name: name.to_owned(),
                    raw: vstd::slice::slice_to_vec(body),
                },
            )
        }
    }
}

} // verus!
