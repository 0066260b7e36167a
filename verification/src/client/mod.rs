//! The client side of a connection, without its transport: what a client is
//! set up to do, what it sends, and what it makes of what arrives.
//!
//! - [`state`] holds the client itself; its methods start an operation and
//!   give back what to transmit.
//! - [`session`] runs an operation on a channel of its own, [`stream`] turns
//!   an open channel into a byte stream, [`serve`] is the multi-channel loop,
//!   [`forward`] asks for remote forwards.
//! - [`verify`] decides about a server's host key, [`kexinit`] says which
//!   algorithms are offered.

pub mod asynchronous;
pub mod fingerprint;
pub mod forward;
pub mod frontend_laws;
pub mod kexinit;
pub mod laws;
pub mod mio;
pub mod operation_laws;
pub mod promise_laws;
pub mod pump;
pub mod scp;
pub mod serve;
pub mod service_laws;
pub mod session;
pub mod state;
pub mod stream;
pub mod streamlocal;
pub mod termios;
pub mod trust_laws;
pub mod verify;

use crate::text::views;
use std::time::Duration;
use vstd::prelude::*;

pub use serve::{
    ClientHandlers, ForwardedStreamlocalOrigin, ForwardedTcpipOrigin, ServeCommand, ServeContext,
};
pub use state::Client;
pub use termios::encode_termios_modes;

verus! {

/// Policy for accepting (or rejecting) a server's host key.
#[derive(Debug)]
pub enum HostKeyPolicy<S = ()> {
    /// Trust whatever the server presents (`StrictHostKeyChecking=no`).
    /// Insecure; do not use against untrusted peers.
    AcceptAny,
    /// Accept only if the server's host-key SHA-256 fingerprint (the raw 32
    /// bytes, exactly as `ssh-keygen -lf` reports them) matches.
    AcceptFingerprint([u8; 32]),
    /// Verify against an OpenSSH-format `known_hosts` store. Needs the name
    /// and the port of the host.
    KnownHosts(KnownHostsPolicy<S>),
}

/// Configuration for [`HostKeyPolicy::KnownHosts`], over whatever the
/// frontend keeps its store in.
#[derive(Debug)]
pub struct KnownHostsPolicy<S = ()> {
    /// The store.
    pub store: S,
    /// File the store is persisted to when an accept changes it. If `None`,
    /// accepts stay in memory only.
    pub save_path: Option<String>,
    /// Hash new entries (`HashKnownHosts yes`).
    pub hash_new: bool,
    /// What to do when no entry is about the host.
    pub on_unknown: TofuAction,
    /// What to do when the host is known but the key does not match any
    /// stored entry.
    pub on_mismatch: TofuAction,
}

/// What to do about an unknown host or a key that does not match any stored
/// entry.
#[derive(Debug, Clone, Copy, PartialEq, Eq, Structural)]
pub enum TofuAction {
    /// Refuse the connection (`StrictHostKeyChecking=yes`).
    Reject,
    /// Accept silently and add the entry (`StrictHostKeyChecking=accept-new`).
    Accept,
    /// Ask the user.
    Prompt,
    /// Accept the connection with a loud warning, and leave the stored entry
    /// alone (`StrictHostKeyChecking=no`). For an unknown host it is the same
    /// as [`TofuAction::Accept`].
    AcceptWithWarning,
}

impl<S> KnownHostsPolicy<S> {
    /// Reject unknown hosts and mismatched keys.
    pub fn strict(store: S) -> (r: Self)
        ensures
            r == (KnownHostsPolicy {
                store,
                save_path: None,
                hash_new: false,
                on_unknown: TofuAction::Reject,
                on_mismatch: TofuAction::Reject,
            }),
    {
        KnownHostsPolicy {
            store,
            save_path: None,
            hash_new: false,
            on_unknown: TofuAction::Reject,
            on_mismatch: TofuAction::Reject,
        }
    }
}

/// Client configuration. There is no default: the only one that would work
/// trusts every peer, so that decision is spelled out at the call site.
#[derive(Debug)]
pub struct Config<S = ()> {
    /// How to decide whether a server's host key is acceptable.
    pub host_key_policy: HostKeyPolicy<S>,
    /// Optional per-operation socket timeout.
    pub timeout: Option<Duration>,
    /// Overrides for the advertised algorithm preference lists.
    pub algorithms: AlgoOverrides,
}

impl<S> Config<S> {
    /// Trust whatever the peer presents.
    pub fn insecure() -> (r: Self)
        ensures
            r.host_key_policy is AcceptAny,
            r.timeout is None,
            r.algorithms == AlgoOverrides::none(),
    {
        Config {
            host_key_policy: HostKeyPolicy::AcceptAny,
            timeout: None,
            algorithms: AlgoOverrides::default(),
        }
    }

    /// Verify the host key against `store`; reject unknown hosts and
    /// mismatched keys.
    pub fn with_known_hosts(store: S) -> (r: Self)
        ensures
            r.host_key_policy == HostKeyPolicy::KnownHosts(
                KnownHostsPolicy {
                    store,
                    save_path: None,
                    hash_new: false,
                    on_unknown: TofuAction::Reject,
                    on_mismatch: TofuAction::Reject,
                },
            ),
            r.timeout is None,
            r.algorithms == AlgoOverrides::none(),
    {
        Config {
            host_key_policy: HostKeyPolicy::KnownHosts(KnownHostsPolicy::strict(store)),
            timeout: None,
            algorithms: AlgoOverrides::default(),
        }
    }
}

/// Overrides for the advertised algorithm preference lists; `None` stands for
/// the built-in list.
///
/// The markers of the strict key exchange are not represented here: they are
/// added after the overrides, so no override can take them out.
#[derive(Debug, Clone, PartialEq, Eq)]
pub struct AlgoOverrides {
    /// `Ciphers`, for both directions.
    pub ciphers: Option<Vec<String>>,
    /// `MACs`, for both directions.
    pub macs: Option<Vec<String>>,
    /// `KexAlgorithms`.
    pub kex_algorithms: Option<Vec<String>>,
    /// `HostKeyAlgorithms`.
    pub host_key_algorithms: Option<Vec<String>>,
    /// `PubkeyAcceptedAlgorithms`, for our own keys during authentication.
    pub pubkey_accepted_algorithms: Option<Vec<String>>,
    /// `CASignatureAlgorithms`, for the signatures on host certificates.
    pub ca_signature_algorithms: Option<Vec<String>>,
    /// `Compression`: `Some(true)` offers `zlib@openssh.com` ahead of `none`.
    pub compression: Option<bool>,
}

impl AlgoOverrides {
    /// No overrides.
    pub open spec fn none() -> AlgoOverrides {
        AlgoOverrides {
            ciphers: None,
            macs: None,
            kex_algorithms: None,
            host_key_algorithms: None,
            pubkey_accepted_algorithms: None,
            ca_signature_algorithms: None,
            compression: None,
        }
    }
}

impl Default for AlgoOverrides {
    fn default() -> (r: Self)
        ensures
            r == AlgoOverrides::none(),
    {
        AlgoOverrides {
            ciphers: None,
            macs: None,
            kex_algorithms: None,
            host_key_algorithms: None,
            pubkey_accepted_algorithms: None,
            ca_signature_algorithms: None,
            compression: None,
        }
    }
}

/// The names of an optional list.
pub open spec fn names_of(list: Option<Vec<String>>) -> Option<Seq<Seq<char>>> {
    match list {
        Some(v) => Some(views(v@)),
        None => None,
    }
}

/// Result of running a command.
#[derive(Debug)]
pub struct ExecOutput {
    /// Captured stdout bytes.
    pub stdout: Vec<u8>,
    /// Captured stderr bytes (extended-data channel, code 1).
    pub stderr: Vec<u8>,
    /// Process exit status (POSIX exit code), if the server sent `exit-status`.
    pub exit_status: Option<u32>,
    /// Signal name (no `SIG` prefix), if the server sent `exit-signal`.
    pub exit_signal: Option<String>,
}

} // verus!
