//! The error type shared by the protocol layers.

use vstd::prelude::*;

verus! {

/// Why a transport read or write failed, as far as the protocol layers
/// distinguish it.
#[derive(Debug, Clone, Copy, PartialEq, Eq, Structural)]
pub enum IoErrorKind {
    /// The operation would block.
    WouldBlock,
    /// The read timeout elapsed.
    TimedOut,
    /// The operation was interrupted and may be retried.
    Interrupted,
    /// The peer went away in the middle of a write.
    BrokenPipe,
    /// Anything else.
    Other,
}

/// Everything that can go wrong in the protocol layers.
#[derive(Debug, Clone, Copy, PartialEq, Eq)]
pub enum Error {
    /// A wire message could not be parsed.
    Format(&'static str),
    /// The peer broke a protocol rule.
    Protocol(&'static str),
    /// An algorithm or a feature is not implemented.
    Unsupported(&'static str),
    /// A cryptographic operation failed.
    Crypto(&'static str),
    /// The local configuration cannot work.
    Config(&'static str),
    /// Algorithm negotiation found nothing in common.
    NoCommonAlgorithm(&'static str),
    /// The channel does not exist or may not be used this way any more.
    BadChannelState,
    /// An authentication tag did not match.
    BadTag,
    /// The server's host key was refused by policy.
    HostKeyRejected,
    /// Every credential was refused.
    AuthFailed,
    /// The transport failed.
    Io(IoErrorKind),
}

} // verus!
