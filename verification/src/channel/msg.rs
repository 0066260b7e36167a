//! Message numbers and codes of the connection protocol (RFC 4254).

use vstd::prelude::*;

verus! {

/// `SSH_MSG_GLOBAL_REQUEST`.
pub const MSG_GLOBAL_REQUEST: u8 = 80;

/// `SSH_MSG_REQUEST_SUCCESS`.
pub const MSG_REQUEST_SUCCESS: u8 = 81;

/// `SSH_MSG_REQUEST_FAILURE`.
pub const MSG_REQUEST_FAILURE: u8 = 82;

/// `SSH_MSG_CHANNEL_OPEN`.
pub const MSG_CHANNEL_OPEN: u8 = 90;

/// `SSH_MSG_CHANNEL_OPEN_CONFIRMATION`.
pub const MSG_CHANNEL_OPEN_CONFIRMATION: u8 = 91;

/// `SSH_MSG_CHANNEL_OPEN_FAILURE`.
pub const MSG_CHANNEL_OPEN_FAILURE: u8 = 92;

/// `SSH_MSG_CHANNEL_WINDOW_ADJUST`.
pub const MSG_CHANNEL_WINDOW_ADJUST: u8 = 93;

/// `SSH_MSG_CHANNEL_DATA`.
pub const MSG_CHANNEL_DATA: u8 = 94;

/// `SSH_MSG_CHANNEL_EXTENDED_DATA`.
pub const MSG_CHANNEL_EXTENDED_DATA: u8 = 95;

/// `SSH_MSG_CHANNEL_EOF`.
pub const MSG_CHANNEL_EOF: u8 = 96;

/// `SSH_MSG_CHANNEL_CLOSE`.
pub const MSG_CHANNEL_CLOSE: u8 = 97;

/// `SSH_MSG_CHANNEL_REQUEST`.
pub const MSG_CHANNEL_REQUEST: u8 = 98;

/// `SSH_MSG_CHANNEL_SUCCESS`.
pub const MSG_CHANNEL_SUCCESS: u8 = 99;

/// `SSH_MSG_CHANNEL_FAILURE`.
pub const MSG_CHANNEL_FAILURE: u8 = 100;

/// Open-failure reason: the open is administratively prohibited.
pub const SSH_OPEN_ADMINISTRATIVELY_PROHIBITED: u32 = 1;

/// Extended-data type code of the standard error stream.
pub const SSH_EXTENDED_DATA_STDERR: u32 = 1;

/// Receive window advertised for a new local channel.
pub const DEFAULT_WINDOW: u32 = 2_097_152;

/// Largest packet advertised for a new local channel.
pub const DEFAULT_MAX_PACKET: u32 = 32_768;

} // verus!
