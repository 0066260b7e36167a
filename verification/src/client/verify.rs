//! Whether a server's host key is accepted.
//!
//! The key arrives with the key-exchange reply. What to make of it is up to
//! the [`HostKeyPolicy`]; certificates, the known-hosts store and the user are
//! asked along the way, and the frontend does the asking: [`begin`] and the
//! functions after it take what is known so far and say what to do next.

use super::fingerprint::{sha256, sha256_digest};
use super::{HostKeyPolicy, KnownHostsPolicy, TofuAction};
use crate::config::algos::{owned, CA_SIGNATURE_DEFAULTS};
use crate::error::Error;
use crate::format::be32_value;
use crate::text::{bytes_eq, clone_strings, contains_str, views};
use crate::transport::kex::CERT_KEY;
use vstd::prelude::*;

verus! {

/// What to do next about a host key.
#[derive(Debug)]
pub enum HostKeyStep {
    /// The key is accepted: check the exchange hash against it.
    Accept,
    /// Parse the key as a certificate, then go on with
    /// [`certificate_parsed`].
    ParseCertificate,
    /// Check that the certificate is one for hosts, is valid now, and has no
    /// critical option that is not understood. If so, it is accepted.
    CheckCertificate,
    /// Check the certificate against the authorities in the known-hosts
    /// store, under these signature algorithms. If they vouch for it, it is
    /// accepted.
    VerifyCertificate {
        /// Signature algorithms that an authority may use.
        ca_algorithms: Vec<String>,
    },
    /// Look the key up in the known-hosts store, then go on with
    /// [`looked_up`].
    LookUp,
}

/// What to do next about a host key.
#[verifier::ext_equal]
pub ghost enum HostKeyStepView {
    Accept,
    ParseCertificate,
    CheckCertificate,
    VerifyCertificate { ca_algorithms: Seq<Seq<char>> },
    LookUp,
}

impl View for HostKeyStep {
    type V = HostKeyStepView;

    open spec fn view(&self) -> HostKeyStepView {
        match self {
            HostKeyStep::Accept => HostKeyStepView::Accept,
            HostKeyStep::ParseCertificate => HostKeyStepView::ParseCertificate,
            HostKeyStep::CheckCertificate => HostKeyStepView::CheckCertificate,
            HostKeyStep::VerifyCertificate { ca_algorithms } => {
                HostKeyStepView::VerifyCertificate { ca_algorithms: views(ca_algorithms@) }
            },
            HostKeyStep::LookUp => HostKeyStepView::LookUp,
        }
    }
}

/// What the known-hosts store says about a key.
#[derive(Debug, Clone, Copy, PartialEq, Eq, Structural)]
pub enum LookupResult {
    /// The key is on file for the host.
    Match,
    /// The host is on file with other keys.
    Mismatch,
    /// The host is not on file.
    Unknown,
}

/// What becomes of a key after the store has been consulted.
#[derive(Debug, Clone, Copy, PartialEq, Eq, Structural)]
pub enum StoreStep {
    /// The key is accepted, and the store stays as it is.
    Accept,
    /// The key is accepted, and added to the store.
    Add,
    /// The key is accepted, and takes the place of the ones on file.
    Replace,
    /// Ask the user, then go on with [`answered`].
    Ask,
    /// The key is refused.
    Refuse,
}

/// What becomes of a key that was looked up, and what the user is told first.
#[derive(Debug, Clone, Copy, PartialEq, Eq, Structural)]
pub struct Verdict {
    /// Print the warning about a changed host key.
    pub warn: bool,
    /// Say that the connection goes on regardless and the store is not
    /// updated.
    pub note: bool,
    /// What becomes of the key.
    pub step: StoreStep,
}

/// The host key in a key-exchange reply: a message number, then the key with
/// its length in front.
pub open spec fn reply_key(reply: Seq<u8>) -> Result<Seq<u8>, Error> {
    if reply.len() < 5 {
        Err(Error::Format("kex-ecdh-reply too short"))
    } else {
        let len = be32_value(reply[1], reply[2], reply[3], reply[4]) as int;
        if reply.len() < 5 + len {
            Err(Error::Format("kex-ecdh-reply truncated"))
        } else {
            Ok(reply.subrange(5, 5 + len))
        }
    }
}

/// Whether a host-key algorithm is one for certificates.
pub open spec fn names_certificate(algorithm: Seq<char>) -> bool {
    views(CERT_KEY@).contains(algorithm)
}

/// What to do about a plain key.
pub open spec fn plain_step<S>(policy: HostKeyPolicy<S>, digest: Seq<u8>) -> Result<
    HostKeyStepView,
    Error,
> {
    match policy {
        HostKeyPolicy::AcceptAny => Ok(HostKeyStepView::Accept),
        HostKeyPolicy::AcceptFingerprint(fp) => if digest == fp@ {
            Ok(HostKeyStepView::Accept)
        } else {
            Err(Error::HostKeyRejected)
        },
        HostKeyPolicy::KnownHosts(_) => Ok(HostKeyStepView::LookUp),
    }
}

/// What to do about a certificate.
pub open spec fn certificate_step<S>(
    policy: HostKeyPolicy<S>,
    digest: Seq<u8>,
    ca_algorithms: Option<Seq<Seq<char>>>,
) -> Result<HostKeyStepView, Error> {
    match policy {
        HostKeyPolicy::AcceptAny => Ok(HostKeyStepView::CheckCertificate),
        HostKeyPolicy::AcceptFingerprint(fp) => if digest == fp@ {
            Ok(HostKeyStepView::CheckCertificate)
        } else {
            Err(Error::HostKeyRejected)
        },
        HostKeyPolicy::KnownHosts(_) => Ok(
            HostKeyStepView::VerifyCertificate {
                ca_algorithms: match ca_algorithms {
                    Some(names) => names,
                    None => views(CA_SIGNATURE_DEFAULTS@),
                },
            },
        ),
    }
}

/// What to do about the key in a reply, given the digest of that key.
pub open spec fn first_step<S>(
    reply: Seq<u8>,
    policy: HostKeyPolicy<S>,
    negotiated: Option<Seq<char>>,
    host: Seq<char>,
    port: u16,
    digest: Seq<u8>,
) -> Result<HostKeyStepView, Error> {
    match reply_key(reply) {
        Err(e) => Err(e),
        Ok(_) => if policy is KnownHosts && (host.len() == 0 || port == 0) {
            Err(Error::Config("HostKeyPolicy::KnownHosts requires Client::connect_to_host"))
        } else {
            match negotiated {
                None => Err(Error::Protocol("kex: no negotiated algorithms")),
                Some(algorithm) => if names_certificate(algorithm) {
                    Ok(HostKeyStepView::ParseCertificate)
                } else {
                    plain_step(policy, digest)
                },
            }
        },
    }
}

/// What becomes of a key that was looked up.
pub open spec fn verdict<S>(policy: KnownHostsPolicy<S>, found: LookupResult) -> Verdict {
    match found {
        LookupResult::Match => Verdict { warn: false, note: false, step: StoreStep::Accept },
        LookupResult::Mismatch => Verdict {
            warn: true,
            note: policy.on_mismatch == TofuAction::AcceptWithWarning,
            step: match policy.on_mismatch {
                TofuAction::Reject => StoreStep::Refuse,
                TofuAction::Accept => StoreStep::Replace,
                TofuAction::Prompt => StoreStep::Ask,
                TofuAction::AcceptWithWarning => StoreStep::Accept,
            },
        },
        LookupResult::Unknown => Verdict {
            warn: false,
            note: false,
            step: match policy.on_unknown {
                TofuAction::Reject => StoreStep::Refuse,
                TofuAction::Accept => StoreStep::Add,
                TofuAction::Prompt => StoreStep::Ask,
                TofuAction::AcceptWithWarning => StoreStep::Add,
            },
        },
    }
}

/// What becomes of a key that the user was asked about.
pub open spec fn answer(found: LookupResult, yes: bool) -> StoreStep {
    if !yes {
        StoreStep::Refuse
    } else if found == LookupResult::Mismatch {
        StoreStep::Replace
    } else {
        StoreStep::Add
    }
}

/// The host key in a key-exchange reply.
pub fn presented_key(reply: &[u8]) -> (r: Result<Vec<u8>, Error>)
    ensures
        match reply_key(reply@) {
            Ok(key) => r matches Ok(k) && k@ == key,
            Err(e) => r == Err::<Vec<u8>, Error>(e),
        },
{
    let n: usize = reply.len();
    if n < 5 {
        return Err(Error::Format("kex-ecdh-reply too short"));
    }
    let len: u32 = reply[1] as u32 * 0x100_0000 + reply[2] as u32 * 0x1_0000 + reply[3] as u32
        * 0x100 + reply[4] as u32;
    if n - 5 < len as usize {
        return Err(Error::Format("kex-ecdh-reply truncated"));
    }
    let key = vstd::slice::slice_subrange(reply, 5, 5 + len as usize);
    let key = vstd::slice::slice_to_vec(key);
    assert(key@ =~= reply@.subrange(5, 5 + len as int));
    Ok(key)
}

/// Whether a host-key algorithm is one for certificates.
pub fn is_cert_name(algorithm: &str) -> (r: bool)
    ensures
        r == names_certificate(algorithm@),
{
    contains_str(&CERT_KEY, algorithm)
}

/// What to do about the key in a key-exchange reply, given its SHA-256
/// digest. A policy that needs the host's name is refused without one,
/// wherever the exchange stands.
pub fn begin_with_digest<S>(
    reply: &[u8],
    policy: &HostKeyPolicy<S>,
    negotiated: Option<&str>,
    target_host: &str,
    target_port: u16,
    digest: &[u8],
) -> (r: Result<HostKeyStep, Error>)
    ensures
        match first_step(
            reply@,
            *policy,
            match negotiated {
                Some(a) => Some(a@),
                None => None,
            },
            target_host@,
            target_port,
            digest@,
        ) {
            Ok(step) => r matches Ok(s) && s@ == step,
            Err(e) => r == Err::<HostKeyStep, Error>(e),
        },
{
    let _ = presented_key(reply)?;
    if let HostKeyPolicy::KnownHosts(_) = policy {
        if target_host.unicode_len() == 0 || target_port == 0 {
            return Err(
                Error::Config("HostKeyPolicy::KnownHosts requires Client::connect_to_host"),
            );
        }
    }
    match negotiated {
        None => Err(Error::Protocol("kex: no negotiated algorithms")),
        Some(algorithm) => {
            if is_cert_name(algorithm) {
                return Ok(HostKeyStep::ParseCertificate);
            }
            match policy {
                HostKeyPolicy::AcceptAny => Ok(HostKeyStep::Accept),
                HostKeyPolicy::AcceptFingerprint(fp) => {
                    if bytes_eq(digest, fp) {
                        Ok(HostKeyStep::Accept)
                    } else {
                        Err(Error::HostKeyRejected)
                    }
                },
                HostKeyPolicy::KnownHosts(_) => Ok(HostKeyStep::LookUp),
            }
        },
    }
}

/// The digest that a policy compares with, of the key in a reply. Only a
/// policy that pins a fingerprint needs one.
fn digest_for<S>(policy: &HostKeyPolicy<S>, key: &[u8]) -> (r: Vec<u8>)
    ensures
        policy is AcceptFingerprint ==> r@ == sha256_digest(key@),
{
    match policy {
        HostKeyPolicy::AcceptFingerprint(_) => {
            let digest = sha256(key);
            let r = vstd::slice::slice_to_vec(digest.as_slice());
            assert(r@ =~= digest@);
            r
        },
        _ => Vec::new(),
    }
}

/// What to do about the key in a key-exchange reply.
pub fn begin<S>(
    reply: &[u8],
    policy: &HostKeyPolicy<S>,
    negotiated: Option<&str>,
    target_host: &str,
    target_port: u16,
) -> (r: Result<HostKeyStep, Error>)
    ensures
        match first_step(
            reply@,
            *policy,
            match negotiated {
                Some(a) => Some(a@),
                None => None,
            },
            target_host@,
            target_port,
            sha256_digest(reply_key(reply@)->Ok_0),
        ) {
            Ok(step) => r matches Ok(s) && s@ == step,
            Err(e) => r == Err::<HostKeyStep, Error>(e),
        },
{
    let key = presented_key(reply)?;
    let digest = digest_for(policy, key.as_slice());
    begin_with_digest(reply, policy, negotiated, target_host, target_port, digest.as_slice())
}

/// What to do about a key that has been parsed as a certificate, given the
/// digest of it.
pub fn certificate_with_digest<S>(
    policy: &HostKeyPolicy<S>,
    ca_signature_algorithms: Option<&[String]>,
    digest: &[u8],
) -> (r: Result<HostKeyStep, Error>)
    ensures
        match certificate_step(
            *policy,
            digest@,
            match ca_signature_algorithms {
                Some(v) => Some(views(v@)),
                None => None,
            },
        ) {
            Ok(step) => r matches Ok(s) && s@ == step,
            Err(e) => r == Err::<HostKeyStep, Error>(e),
        },
{
    match policy {
        HostKeyPolicy::AcceptAny => Ok(HostKeyStep::CheckCertificate),
        HostKeyPolicy::AcceptFingerprint(fp) => {
            if bytes_eq(digest, fp) {
                Ok(HostKeyStep::CheckCertificate)
            } else {
                Err(Error::HostKeyRejected)
            }
        },
        HostKeyPolicy::KnownHosts(_) => {
            let ca_algorithms = match ca_signature_algorithms {
                Some(v) => clone_strings(v),
                None => owned(&CA_SIGNATURE_DEFAULTS),
            };
            Ok(HostKeyStep::VerifyCertificate { ca_algorithms })
        },
    }
}

/// What to do about a key that has been parsed as a certificate.
pub fn certificate_parsed<S>(
    key: &[u8],
    policy: &HostKeyPolicy<S>,
    ca_signature_algorithms: Option<&[String]>,
) -> (r: Result<HostKeyStep, Error>)
    ensures
        match certificate_step(
            *policy,
            sha256_digest(key@),
            match ca_signature_algorithms {
                Some(v) => Some(views(v@)),
                None => None,
            },
        ) {
            Ok(step) => r matches Ok(s) && s@ == step,
            Err(e) => r == Err::<HostKeyStep, Error>(e),
        },
{
    let digest = digest_for(policy, key);
    certificate_with_digest(policy, ca_signature_algorithms, digest.as_slice())
}

/// What becomes of a key, now that the store has been consulted.
pub fn looked_up<S>(policy: &KnownHostsPolicy<S>, found: LookupResult) -> (r: Verdict)
    ensures
        r == verdict(*policy, found),
{
    match found {
        LookupResult::Match => Verdict { warn: false, note: false, step: StoreStep::Accept },
        LookupResult::Mismatch => {
            let (note, step) = match policy.on_mismatch {
                TofuAction::Reject => (false, StoreStep::Refuse),
                TofuAction::Accept => (false, StoreStep::Replace),
                TofuAction::Prompt => (false, StoreStep::Ask),
                TofuAction::AcceptWithWarning => (true, StoreStep::Accept),
            };
            Verdict { warn: true, note, step }
        },
        LookupResult::Unknown => {
            let step = match policy.on_unknown {
                TofuAction::Reject => StoreStep::Refuse,
                TofuAction::Accept => StoreStep::Add,
                TofuAction::Prompt => StoreStep::Ask,
                TofuAction::AcceptWithWarning => StoreStep::Add,
            };
            Verdict { warn: false, note: false, step }
        },
    }
}

/// What becomes of a key, now that the user has answered.
pub fn answered(found: LookupResult, yes: bool) -> (r: StoreStep)
    ensures
        r == answer(found, yes),
{
    if !yes {
        StoreStep::Refuse
    } else if let LookupResult::Mismatch = found {
        StoreStep::Replace
    } else {
        StoreStep::Add
    }
}

/// A strict policy accepts a looked-up key exactly if it is on file, asks
/// nobody, and never changes the store.
pub proof fn lemma_strict_policy<S>(policy: KnownHostsPolicy<S>, found: LookupResult)
    requires
        policy.on_unknown == TofuAction::Reject,
        policy.on_mismatch == TofuAction::Reject,
    ensures
        verdict(policy, found).step == if found == LookupResult::Match {
            StoreStep::Accept
        } else {
            StoreStep::Refuse
        },
{
}

/// A key that does not match the one on file never gets by without the
/// warning, whatever the policy.
pub proof fn lemma_mismatch_always_warns<S>(policy: KnownHostsPolicy<S>)
    ensures
        verdict(policy, LookupResult::Mismatch).warn,
        verdict(policy, LookupResult::Mismatch).note ==> verdict(
            policy,
            LookupResult::Mismatch,
        ).step == StoreStep::Accept,
{
}

/// A pinned fingerprint lets through nothing but keys of that digest, plain or in a
/// certificate.
pub proof fn lemma_fingerprint_is_pinned<S>(
    reply: Seq<u8>,
    fp: [u8; 32],
    negotiated: Option<Seq<char>>,
    host: Seq<char>,
    port: u16,
    digest: Seq<u8>,
    ca_algorithms: Option<Seq<Seq<char>>>,
)
    requires
        digest != fp@,
    ensures
        ({
            let policy = HostKeyPolicy::<S>::AcceptFingerprint(fp);
            &&& first_step(reply, policy, negotiated, host, port, digest) matches Ok(step)
                ==> step is ParseCertificate
            &&& certificate_step(policy, digest, ca_algorithms) is Err
        }),
{
}

} // verus!
