//! OpenSSH's `ping@openssh.com` transport extension: a peer that is sent a
//! PING answers with a PONG that carries the same data.

use crate::channel::field;
use crate::error::Error;
use crate::format::{get_string, get_u8, wire_string, Reader, Writer};
use vstd::prelude::*;

verus! {

/// `SSH2_MSG_PING`.
pub const SSH_MSG_PING: u8 = 192;

/// `SSH2_MSG_PONG`.
pub const SSH_MSG_PONG: u8 = 193;

/// A PING that carries `data`.
pub open spec fn ping_payload(data: Seq<u8>) -> Seq<u8> {
    seq![SSH_MSG_PING] + wire_string(data)
}

/// A PONG that carries `data`.
pub open spec fn pong_payload(data: Seq<u8>) -> Seq<u8> {
    seq![SSH_MSG_PONG] + wire_string(data)
}

/// The PONG that answers a PING.
pub open spec fn answer(ping: Seq<u8>) -> Result<Seq<u8>, Error> {
    match field(get_u8(ping)) {
        Err(e) => Err(e),
        Ok((_, body)) => match field(get_string(body)) {
            Err(e) => Err(e),
            Ok((data, _)) => Ok(pong_payload(data)),
        },
    }
}

/// A PING that carries `data`.
pub fn encode_ping(data: &[u8]) -> (r: Vec<u8>)
    ensures
        r@ == ping_payload(data@),
{
    let mut w = Writer::new();
    w.write_u8(SSH_MSG_PING);
    w.write_string(data);
    assert(w@ =~= ping_payload(data@));
    w.into_vec()
}

/// A PONG that carries `data`.
pub fn encode_pong(data: &[u8]) -> (r: Vec<u8>)
    ensures
        r@ == pong_payload(data@),
{
    let mut w = Writer::new();
    w.write_u8(SSH_MSG_PONG);
    w.write_string(data);
    assert(w@ =~= pong_payload(data@));
    w.into_vec()
}

/// The PONG that answers a PING.
pub fn pong_for_ping(payload: &[u8]) -> (r: Result<Vec<u8>, Error>)
    ensures
        match answer(payload@) {
            Ok(pong) => r matches Ok(p) && p@ == pong,
            Err(e) => r == Err::<Vec<u8>, Error>(e),
        },
{
    let mut reader = Reader::new(payload);
    let _ = reader.read_u8()?;
    let data = reader.read_string()?;
    Ok(encode_pong(data))
}

/// The answer to a PING carries the data of the PING.
pub proof fn lemma_pong_echoes(data: Seq<u8>)
    requires
        data.len() <= u32::MAX,
    ensures
        answer(ping_payload(data)) == Ok::<Seq<u8>, Error>(pong_payload(data)),
{
    crate::format::lemma_get_put_string(data, Seq::empty());
    assert(ping_payload(data).skip(1) =~= wire_string(data) + Seq::<u8>::empty());
}

} // verus!
