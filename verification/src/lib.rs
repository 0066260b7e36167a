//! The verified core of a pure-Rust SSH implementation.
//!
//! Everything in this crate is sans-IO: functions take bytes, strings and
//! plain values and give back bytes, strings and plain values. Sockets,
//! files, clocks and threads belong to the frontends that call it.

pub mod channel;
pub mod cipher;
pub mod client;
pub mod compress;
pub mod config;
pub mod driver;
pub mod error;
pub mod format;
pub mod text;
pub mod transport;

pub use error::Error;
