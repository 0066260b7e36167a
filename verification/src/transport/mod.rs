//! The parts of the transport layer that the other layers share.

pub mod kex;
pub mod packet;
pub mod ping;
pub mod rekey;
