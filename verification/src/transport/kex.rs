//! Algorithm names offered during key exchange, in order of preference.

use crate::text::str_eq;
use vstd::prelude::*;

verus! {

/// Key-exchange methods. The last two are not methods: they announce the
/// strict variant of the exchange.
pub const KEX: [&'static str; 9] = [
    "curve25519-sha256",
    "curve25519-sha256@libssh.org",
    "ecdh-sha2-nistp256",
    "ecdh-sha2-nistp384",
    "ecdh-sha2-nistp521",
    "diffie-hellman-group16-sha512",
    "diffie-hellman-group14-sha256",
    "kex-strict-c-v00@openssh.com",
    "kex-strict-s-v00@openssh.com",
];

/// Ciphers, for both directions.
pub const CIPHERS: [&'static str; 6] = [
    "chacha20-poly1305@openssh.com",
    "aes256-gcm@openssh.com",
    "aes128-gcm@openssh.com",
    "aes256-ctr",
    "aes192-ctr",
    "aes128-ctr",
];

/// Message authentication codes, for both directions.
pub const MACS: [&'static str; 4] = [
    "hmac-sha2-256-etm@openssh.com",
    "hmac-sha2-512-etm@openssh.com",
    "hmac-sha2-256",
    "hmac-sha2-512",
];

/// Host-key algorithms.
pub const HOST_KEY: [&'static str; 6] = [
    "ssh-ed25519",
    "ecdsa-sha2-nistp256",
    "ecdsa-sha2-nistp384",
    "ecdsa-sha2-nistp521",
    "rsa-sha2-512",
    "rsa-sha2-256",
];

/// Host-key algorithms for certificates.
pub const CERT_KEY: [&'static str; 6] = [
    "ssh-ed25519-cert-v01@openssh.com",
    "ecdsa-sha2-nistp256-cert-v01@openssh.com",
    "ecdsa-sha2-nistp384-cert-v01@openssh.com",
    "ecdsa-sha2-nistp521-cert-v01@openssh.com",
    "rsa-sha2-512-cert-v01@openssh.com",
    "rsa-sha2-256-cert-v01@openssh.com",
];

/// Compression methods.
pub const COMP: [&'static str; 1] = ["none"];

/// Whether a name announces the strict key exchange rather than a method.
pub open spec fn strict_kex_marker(name: Seq<char>) -> bool {
    name == "kex-strict-c-v00@openssh.com"@ || name == "kex-strict-s-v00@openssh.com"@
}

/// Whether a name announces the strict key exchange rather than a method.
pub fn is_strict_kex_marker(name: &str) -> (r: bool)
    ensures
        r == strict_kex_marker(name@),
{
    str_eq(name, "kex-strict-c-v00@openssh.com") || str_eq(name, "kex-strict-s-v00@openssh.com")
}

} // verus!
