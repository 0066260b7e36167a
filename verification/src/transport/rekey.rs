//! Which messages belong to a key exchange.

use vstd::prelude::*;

verus! {

/// `SSH_MSG_KEXINIT`.
pub const SSH_MSG_KEXINIT: u8 = 20;

/// `SSH_MSG_KEX_ECDH_REPLY`, which carries the host key.
pub const SSH_MSG_KEX_ECDH_REPLY: u8 = 31;

/// Whether a message number is one of a key exchange: negotiation and NEWKEYS
/// (20 to 29), or the method's own messages (30 to 49; RFC 4250 section
/// 4.1.2).
pub open spec fn kex_message(b: u8) -> bool {
    20 <= b <= 49
}

/// Whether a message number is one of a key exchange.
pub fn is_kex_msg(b: u8) -> (r: bool)
    ensures
        r == kex_message(b),
{
    20 <= b && b <= 49
}

} // verus!
