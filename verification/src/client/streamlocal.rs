//! OpenSSH's Unix-socket forwarding: the channel types and global requests
//! that carry a socket path where RFC 4254 section 7 carries a host and a
//! port. The connection protocol treats them as extensions, so they travel
//! as raw bodies.

use crate::channel::global::GlobalRequestView;
use crate::channel::open::ChannelOpenView;
use crate::channel::{field, get_text, read_utf8, wire_text, ChannelOpen, GlobalRequest};
use crate::error::Error;
use crate::format::{be32, get_string, wire_string, Reader, Writer};
use vstd::prelude::*;

verus! {

/// Channel type: the client asks the server to connect to a socket.
pub const DIRECT_STREAMLOCAL: &'static str = "direct-streamlocal@openssh.com";

/// Channel type: the server delivers a connection to a forwarded socket.
pub const FORWARDED_STREAMLOCAL: &'static str = "forwarded-streamlocal@openssh.com";

/// Global request: listen on a socket and forward connections to it.
pub const STREAMLOCAL_FORWARD: &'static str = "streamlocal-forward@openssh.com";

/// Global request: undo a `streamlocal-forward@openssh.com`.
pub const CANCEL_STREAMLOCAL_FORWARD: &'static str = "cancel-streamlocal-forward@openssh.com";

/// The open of a channel to the socket at `path`: the path, then a reserved
/// string and a reserved number.
pub open spec fn direct_open(path: Seq<char>) -> ChannelOpenView {
    ChannelOpenView::Other {
        kind: DIRECT_STREAMLOCAL@,
        raw: wire_text(path) + wire_string(Seq::empty()) + be32(0),
    }
}

/// The socket path that the body of a forwarded open names; a reserved
/// string follows it.
pub open spec fn forwarded_path(raw: Seq<u8>) -> Result<Seq<char>, Error> {
    match get_text(raw, "invalid utf-8") {
        Err(e) => Err(e),
        Ok((path, rest)) => match field(get_string(rest)) {
            Err(e) => Err(e),
            Ok(_) => Ok(path),
        },
    }
}

/// A global request that holds nothing but a socket path.
pub open spec fn path_request(name: Seq<char>, path: Seq<char>) -> GlobalRequestView {
    GlobalRequestView::Other { name, raw: wire_text(path) }
}

/// The open of a channel to the socket at `path`.
pub fn direct_streamlocal(path: &str) -> (r: ChannelOpen)
    ensures
        r@ == direct_open(path@),
{
    let mut w = Writer::new();
    w.write_string(path.as_bytes());
    let empty: Vec<u8> = Vec::new();
    w.write_string(empty.as_slice());
    w.write_u32(0);
    assert(empty@ =~= Seq::<u8>::empty());
    assert(w@ =~= wire_text(path@) + wire_string(Seq::empty()) + be32(0));
    ChannelOpen::Other { kind: DIRECT_STREAMLOCAL.to_owned(), raw: w.into_vec() }
}

/// The socket path that the body of a forwarded open names.
pub fn forwarded_streamlocal(raw: &[u8]) -> (r: Result<String, Error>)
    ensures
        match forwarded_path(raw@) {
            Ok(path) => r matches Ok(p) && p@ == path,
            Err(e) => r == Err::<String, Error>(e),
        },
{
    let mut r = Reader::new(raw);
    let path = read_utf8(&mut r, "invalid utf-8")?;
    let _ = r.read_string()?;
    Ok(path.to_owned())
}

/// A global request about the socket at `path`.
pub fn streamlocal_request(name: &str, path: &str) -> (r: GlobalRequest)
    ensures
        r@ == path_request(name@, path@),
{
    let mut w = Writer::new();
    w.write_string(path.as_bytes());
    assert(w@ =~= wire_text(path@));
    GlobalRequest::Other { name: name.to_owned(), raw: w.into_vec() }
}

} // verus!
