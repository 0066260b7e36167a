//! Connection protocol (RFC 4254).
//!
//! Once authenticated, peers open multiplexed channels. Each side maintains
//! its own initial window size and maximum packet size, then exchanges
//! `SSH_MSG_CHANNEL_*` messages.
//!
//! Common channel types:
//!
//! - `"session"`: interactive shell, exec, subsystem
//! - `"direct-tcpip"`: outbound TCP tunnels (local port forwarding)
//! - `"forwarded-tcpip"`: inbound TCP tunnels (remote port forwarding)
//! - `"x11"`: X display forwarding

pub mod global;
pub mod history;
pub mod layout;
pub mod ledger;
pub mod laws;
pub mod model;
pub mod msg;
pub mod open;
pub mod request;
pub mod state;

use crate::error::Error;
use crate::format::{get_string, truncated, Reader};
use crate::text::from_utf8;
use vstd::prelude::*;
use vstd::utf8::{decode_utf8, encode_utf8, valid_utf8};

pub use global::GlobalRequest;
pub use msg::{
    DEFAULT_MAX_PACKET, DEFAULT_WINDOW, MSG_CHANNEL_CLOSE, MSG_CHANNEL_DATA, MSG_CHANNEL_EOF,
    MSG_CHANNEL_EXTENDED_DATA, MSG_CHANNEL_FAILURE, MSG_CHANNEL_OPEN,
    MSG_CHANNEL_OPEN_CONFIRMATION, MSG_CHANNEL_OPEN_FAILURE, MSG_CHANNEL_REQUEST,
    MSG_CHANNEL_SUCCESS, MSG_CHANNEL_WINDOW_ADJUST, MSG_GLOBAL_REQUEST, MSG_REQUEST_FAILURE,
    MSG_REQUEST_SUCCESS, SSH_EXTENDED_DATA_STDERR, SSH_OPEN_ADMINISTRATIVELY_PROHIBITED,
};

pub use open::ChannelOpen;
pub use request::ChannelRequest;
pub use state::{ChannelEvent, ChannelState, ConnectionState};

verus! {

/// Per-side channel state.
#[derive(Debug)]
pub struct Channel {
    /// Our channel id; the peer addresses us by this.
    pub local_id: u32,
    /// Peer's channel id; we address them by this.
    pub remote_id: u32,
    /// Bytes the peer may still send us before we must advertise more window.
    pub local_window: u32,
    /// Bytes we may still send to the peer.
    pub remote_window: u32,
    /// Maximum SSH packet we are willing to receive.
    pub local_max_packet: u32,
    /// Maximum SSH packet the peer is willing to receive.
    pub remote_max_packet: u32,
    /// Channel type as advertised in `SSH_MSG_CHANNEL_OPEN`.
    pub kind: String,
    /// True once both sides have sent `SSH_MSG_CHANNEL_EOF`.
    pub eof: bool,
    /// True once both sides have sent `SSH_MSG_CHANNEL_CLOSE`.
    pub closed: bool,
}

/// The result of a field read, with the error for a buffer that is too short.
pub open spec fn field<T>(o: Option<T>) -> Result<T, Error> {
    match o {
        Some(v) => Ok(v),
        None => Err(truncated()),
    }
}

/// What reading a UTF-8 string gives: the text and the rest. `msg` is the
/// complaint about bytes that are not UTF-8.
#[verifier::opaque]
pub open spec fn get_text(s: Seq<u8>, msg: &'static str) -> Result<(Seq<char>, Seq<u8>), Error> {
    match get_string(s) {
        None => Err(truncated()),
        Some((b, rest)) => if valid_utf8(b) {
            Ok((decode_utf8(b), rest))
        } else {
            Err(Error::Format(msg))
        },
    }
}

/// A length-prefixed UTF-8 string on the wire.
pub open spec fn wire_text(s: Seq<char>) -> Seq<u8> {
    crate::format::wire_string(encode_utf8(s))
}

/// Whether a text is short enough for its 32-bit length prefix.
pub open spec fn text_fits(s: Seq<char>) -> bool {
    encode_utf8(s).len() <= u32::MAX
}

/// A text that was written is read back.
pub proof fn lemma_get_put_text(s: Seq<char>, tail: Seq<u8>, msg: &'static str)
    requires
        text_fits(s),
    ensures
        get_text(wire_text(s) + tail, msg) == Ok::<(Seq<char>, Seq<u8>), Error>((s, tail)),
{
    reveal(get_text);
    crate::format::lemma_get_put_string(encode_utf8(s), tail);
    vstd::utf8::encode_utf8_valid_utf8(s);
    vstd::utf8::encode_utf8_decode_utf8(s);
}

/// Read a UTF-8 string; `msg` is the complaint about bytes that are not UTF-8.
pub(crate) fn read_utf8<'a>(r: &mut Reader<'a>, msg: &'static str) -> (t: Result<&'a str, Error>)
    ensures
        match get_text(old(r)@, msg) {
            Ok((text, rest)) => t matches Ok(s) && s@ == text && final(r)@ == rest,
            Err(e) => t == Err::<&'a str, Error>(e),
        },
{
    proof {
        reveal(get_text);
    }
    let bytes = r.read_string()?;
    match from_utf8(bytes) {
        Some(s) => Ok(s),
        None => Err(Error::Format(msg)),
    }
}

} // verus!
