//! Binary packet limits (RFC 4253 section 6.1).

use vstd::prelude::*;

verus! {

/// The largest packet that every implementation must be able to process.
pub const MAX_PACKET_LEN: u32 = 35_000;

} // verus!
