//! The server's side of a connection.
//!
//! A server's frontend runs authentication and its sessions over the payloads
//! that the driver surfaces, so the driver holds nothing of its own for them.

use super::Driver;
use crate::error::Error;
use vstd::prelude::*;

verus! {

/// Drives the server's half of a connection.
pub type ServerDriver = Driver;

/// The server is about to hand a packet to the key-exchange engine. Once
/// algorithms are negotiated, there has to be a host key for the one that was
/// agreed on.
pub fn host_key_picked(negotiated: bool, found: bool) -> (r: Result<(), Error>)
    ensures
        r == if negotiated && !found {
            Err::<(), Error>(Error::Protocol("kex: no host key for negotiated algorithm"))
        } else {
            Ok(())
        },
{
    if negotiated && !found {
        return Err(Error::Protocol("kex: no host key for negotiated algorithm"));
    }
    Ok(())
}

} // verus!
