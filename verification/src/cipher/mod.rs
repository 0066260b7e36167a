//! SSH cipher suites.
//!
//! - `aes*-ctr` (RFC 4344), paired with a separate HMAC.
//! - `aes*-gcm@openssh.com` (RFC 5647), AEAD with an implicit 12-byte nonce.
//! - `chacha20-poly1305@openssh.com`, AEAD with two ChaCha20 keys, one for the
//!   length field and one for the payload.

pub mod chachapoly;
pub mod ctr;
pub mod gcm;
pub mod laws;
pub mod primitives;
pub mod secret;

use chachapoly::{packet_nonce, ChaChaPoly, ChaChaPolyView};
use ctr::{AesCtr, CtrView};
use gcm::{used_up, GcmState, GcmView};
use primitives::{
    chacha20_block, chacha20_fits, gcm128_tag, gcm256_tag, gcm_max_len, poly1305_tag,
};

use crate::error::Error;
use crate::text::str_eq;
use crate::transport::kex::CIPHERS;
use vstd::prelude::*;

verus! {

/// SSH-side identifier and key/iv/block geometry for a cipher suite.
#[derive(Debug, Clone, Copy)]
pub struct CipherSpec {
    /// On-the-wire SSH name (e.g. `"aes256-ctr"`).
    pub name: &'static str,
    /// Key length in bytes.
    pub key_len: usize,
    /// IV (or nonce) length in bytes: 16 for CTR, 12 for GCM, 8 for ChaCha20,
    /// which makes its nonces from sequence numbers and takes any IV.
    pub iv_len: usize,
    /// Block size in bytes (for length-field rounding); 16 for AES, 8 for ChaCha20 stream.
    pub block_size: usize,
    /// Whether this suite is AEAD (integrity built in, no separate MAC).
    pub aead: bool,
    /// AEAD tag length in bytes (0 if non-AEAD).
    pub tag_len: usize,
}

/// Key length, IV length, block size, whether it is AEAD, and tag length.
pub ghost struct Geometry {
    pub key_len: int,
    pub iv_len: int,
    pub block_size: int,
    pub aead: bool,
    pub tag_len: int,
}

/// The geometry of each supported suite.
pub open spec fn geometry(name: Seq<char>) -> Option<Geometry> {
    if name == "chacha20-poly1305@openssh.com"@ {
        Some(Geometry { key_len: 64, iv_len: 8, block_size: 8, aead: true, tag_len: 16 })
    } else if name == "aes256-gcm@openssh.com"@ {
        Some(Geometry { key_len: 32, iv_len: 12, block_size: 16, aead: true, tag_len: 16 })
    } else if name == "aes128-gcm@openssh.com"@ {
        Some(Geometry { key_len: 16, iv_len: 12, block_size: 16, aead: true, tag_len: 16 })
    } else if name == "aes256-ctr"@ {
        Some(Geometry { key_len: 32, iv_len: 16, block_size: 16, aead: false, tag_len: 0 })
    } else if name == "aes192-ctr"@ {
        Some(Geometry { key_len: 24, iv_len: 16, block_size: 16, aead: false, tag_len: 0 })
    } else if name == "aes128-ctr"@ {
        Some(Geometry { key_len: 16, iv_len: 16, block_size: 16, aead: false, tag_len: 0 })
    } else {
        None
    }
}

impl CipherSpec {
    /// The geometry that this entry gives.
    pub open spec fn geometry(self) -> Geometry {
        Geometry {
            key_len: self.key_len as int,
            iv_len: self.iv_len as int,
            block_size: self.block_size as int,
            aead: self.aead,
            tag_len: self.tag_len as int,
        }
    }
}

/// Look up a [`CipherSpec`] by SSH name.
pub fn by_name(name: &str) -> (r: Option<CipherSpec>)
    ensures
        match geometry(name@) {
            Some(g) => r matches Some(spec) && spec.name@ == name@ && spec.geometry() == g,
            None => r is None,
        },
{
    if str_eq(name, "chacha20-poly1305@openssh.com") {
        Some(
            CipherSpec {
                name: "chacha20-poly1305@openssh.com",
                key_len: 64,
                iv_len: 8,
                block_size: 8,
                aead: true,
                tag_len: 16,
            },
        )
    } else if str_eq(name, "aes256-gcm@openssh.com") {
        Some(gcm_spec("aes256-gcm@openssh.com", 32))
    } else if str_eq(name, "aes128-gcm@openssh.com") {
        Some(gcm_spec("aes128-gcm@openssh.com", 16))
    } else if str_eq(name, "aes256-ctr") {
        Some(ctr_spec("aes256-ctr", 32))
    } else if str_eq(name, "aes192-ctr") {
        Some(ctr_spec("aes192-ctr", 24))
    } else if str_eq(name, "aes128-ctr") {
        Some(ctr_spec("aes128-ctr", 16))
    } else {
        None
    }
}

fn gcm_spec(name: &'static str, key_len: usize) -> (r: CipherSpec)
    ensures
        r == (CipherSpec { name, key_len, iv_len: 12, block_size: 16, aead: true, tag_len: 16 }),
{
    CipherSpec { name, key_len, iv_len: 12, block_size: 16, aead: true, tag_len: 16 }
}

fn ctr_spec(name: &'static str, key_len: usize) -> (r: CipherSpec)
    ensures
        r == (CipherSpec { name, key_len, iv_len: 16, block_size: 16, aead: false, tag_len: 0 }),
{
    CipherSpec { name, key_len, iv_len: 16, block_size: 16, aead: false, tag_len: 0 }
}

/// Catalogue of suites this build supports, in order of preference.
pub fn all() -> (r: Vec<CipherSpec>)
    ensures
        r@.len() == CIPHERS@.len(),
        forall|i: int|
            0 <= i < r@.len() ==> {
                &&& (#[trigger] r@[i]).name@ == CIPHERS@[i]@
                &&& geometry(r@[i].name@) == Some(r@[i].geometry())
            },
{
    let mut out: Vec<CipherSpec> = Vec::new();
    let mut i: usize = 0;
    while i < 6
        invariant
            i <= 6,
            out@.len() == i,
            forall|k: int|
                0 <= k < i ==> {
                    &&& (#[trigger] out@[k]).name@ == CIPHERS@[k]@
                    &&& geometry(out@[k].name@) == Some(out@[k].geometry())
                },
        decreases 6 - i,
    {
        match by_name(CIPHERS[i]) {
            Some(spec) => out.push(spec),
            None => {
                assert(false) by {
                    assert(geometry(CIPHERS@[i as int]@) is Some);
                }
            },
        }
        i += 1;
    }
    out
}

/// The state of one direction of a connection, for any suite.
///
/// - CTR suites are streams: [`SshCipher::stream`] encrypts and decrypts, and
///   a separate MAC protects the packet.
/// - AES-GCM sends the packet length in clear and binds it to the tag:
///   [`SshCipher::aead_seal_len_aad`] and [`SshCipher::aead_open_len_aad`].
/// - `chacha20-poly1305@openssh.com` encrypts the length with a key of its own:
///   [`SshCipher::cp_xor_length`] for the length, [`SshCipher::cp_tag`] and
///   [`SshCipher::cp_verify_tag`] for the tag, and [`SshCipher::cp_xor_payload`]
///   for the payload, once the tag has been checked.
pub enum SshCipher {
    /// `aes128-ctr`, `aes192-ctr`, `aes256-ctr`.
    Ctr(AesCtr),
    /// `aes128-gcm@openssh.com`, `aes256-gcm@openssh.com`.
    Gcm(GcmState),
    /// `chacha20-poly1305@openssh.com`.
    ChaChaPoly(ChaChaPoly),
}

/// What an [`SshCipher`] is.
pub ghost enum SshCipherView {
    Ctr(CtrView),
    Gcm(GcmView),
    ChaChaPoly(ChaChaPolyView),
}

impl View for SshCipher {
    type V = SshCipherView;

    open spec fn view(&self) -> SshCipherView {
        match self {
            SshCipher::Ctr(c) => SshCipherView::Ctr(c@),
            SshCipher::Gcm(g) => SshCipherView::Gcm(g@),
            SshCipher::ChaChaPoly(c) => SshCipherView::ChaChaPoly(c@),
        }
    }
}

/// The state that a suite starts with, or the error for a key or an IV of the
/// wrong length.
pub open spec fn started(name: Seq<char>, key: Seq<u8>, iv: Seq<u8>) -> Result<
    SshCipherView,
    Error,
> {
    if name == "aes128-ctr"@ {
        ctr_started(key, iv, 16, "aes128-ctr key len")
    } else if name == "aes192-ctr"@ {
        ctr_started(key, iv, 24, "aes192-ctr key len")
    } else if name == "aes256-ctr"@ {
        ctr_started(key, iv, 32, "aes256-ctr key len")
    } else if name == "aes128-gcm@openssh.com"@ {
        gcm_started(key, iv, 16, "aes128-gcm key len")
    } else if name == "aes256-gcm@openssh.com"@ {
        gcm_started(key, iv, 32, "aes256-gcm key len")
    } else if name == "chacha20-poly1305@openssh.com"@ {
        if key.len() != 64 {
            Err(Error::Format("chacha20-poly1305 key len"))
        } else {
            Ok(SshCipherView::ChaChaPoly(ChaChaPolyView::start(key)))
        }
    } else {
        Err(Error::Unsupported("cipher"))
    }
}

/// The state that a CTR suite starts with.
pub open spec fn ctr_started(
    key: Seq<u8>,
    iv: Seq<u8>,
    key_len: int,
    key_error: &'static str,
) -> Result<SshCipherView, Error> {
    if key.len() != key_len {
        Err(Error::Format(key_error))
    } else if iv.len() != 16 {
        Err(Error::Format("aes-ctr iv len"))
    } else {
        Ok(SshCipherView::Ctr(CtrView::start(key, iv)))
    }
}

/// The state that a GCM suite starts with.
pub open spec fn gcm_started(
    key: Seq<u8>,
    iv: Seq<u8>,
    key_len: int,
    key_error: &'static str,
) -> Result<SshCipherView, Error> {
    if key.len() != key_len {
        Err(Error::Format(key_error))
    } else if iv.len() != 12 {
        Err(Error::Format("aes-gcm iv len"))
    } else {
        Ok(SshCipherView::Gcm(GcmView::start(key, iv)))
    }
}

/// The error for an operation of ChaCha20-Poly1305 on another suite.
pub open spec fn not_chachapoly() -> Error {
    Error::Unsupported("chacha20-poly1305 op on other cipher")
}

impl SshCipher {
    /// The state for a suite by its SSH name. The lengths of `key` and `iv`
    /// must be those of its [`CipherSpec`].
    pub fn new(name: &str, key: &[u8], iv: &[u8]) -> (r: Result<Self, Error>)
        ensures
            match started(name@, key@, iv@) {
                Ok(c) => r matches Ok(x) && x@ == c,
                Err(e) => r matches Err(x) && x == e,
            },
    {
        if str_eq(name, "aes128-ctr") {
            match AesCtr::new_128(key, iv) {
                Ok(c) => Ok(SshCipher::Ctr(c)),
                Err(e) => Err(e),
            }
        } else if str_eq(name, "aes192-ctr") {
            match AesCtr::new_192(key, iv) {
                Ok(c) => Ok(SshCipher::Ctr(c)),
                Err(e) => Err(e),
            }
        } else if str_eq(name, "aes256-ctr") {
            match AesCtr::new_256(key, iv) {
                Ok(c) => Ok(SshCipher::Ctr(c)),
                Err(e) => Err(e),
            }
        } else if str_eq(name, "aes128-gcm@openssh.com") {
            match GcmState::new_128(key, iv) {
                Ok(g) => Ok(SshCipher::Gcm(g)),
                Err(e) => Err(e),
            }
        } else if str_eq(name, "aes256-gcm@openssh.com") {
            match GcmState::new_256(key, iv) {
                Ok(g) => Ok(SshCipher::Gcm(g)),
                Err(e) => Err(e),
            }
        } else if str_eq(name, "chacha20-poly1305@openssh.com") {
            match ChaChaPoly::new(key) {
                Ok(c) => Ok(SshCipher::ChaChaPoly(c)),
                Err(e) => Err(e),
            }
        } else {
            Err(Error::Unsupported("cipher"))
        }
    }

    /// Whether the suite is AEAD, so that no separate MAC is needed.
    pub fn is_aead(&self) -> (r: bool)
        ensures
            r == !(self@ is Ctr),
    {
        !matches!(self, SshCipher::Ctr(_))
    }

    /// Whether the suite encrypts the packet length: all but AES-GCM do.
    pub fn encrypts_length(&self) -> (r: bool)
        ensures
            r == !(self@ is Gcm),
    {
        !matches!(self, SshCipher::Gcm(_))
    }

    /// Encrypt or decrypt with a CTR suite, in place. The keystream continues
    /// across calls.
    pub fn stream(&mut self, buf: &mut [u8]) -> (r: Result<(), Error>)
        ensures
            match old(self)@ {
                SshCipherView::Ctr(place) => {
                    &&& r is Ok
                    &&& final(buf)@ == place.apply(old(buf)@)
                    &&& final(self)@ == SshCipherView::Ctr(place.after(old(buf)@.len() as int))
                },
                _ => {
                    &&& r == Err::<(), Error>(Error::Unsupported("stream op on AEAD cipher"))
                    &&& final(buf)@ == old(buf)@
                    &&& final(self)@ == old(self)@
                },
            },
    {
        match self {
            SshCipher::Ctr(c) => {
                c.apply_keystream(buf);
                Ok(())
            },
            _ => Err(Error::Unsupported("stream op on AEAD cipher")),
        }
    }

    /// Encrypt `payload` in place with AES-GCM and return the tag, which
    /// covers the length too.
    pub fn aead_seal_len_aad(&mut self, length: &[u8], payload: &mut [u8]) -> (r: Result<
        [u8; 16],
        Error,
    >)
        requires
            old(self)@ is Gcm ==> old(payload)@.len() <= gcm_max_len(),
        ensures
            match old(self)@ {
                SshCipherView::Gcm(g) => {
                    &&& final(payload)@ == g.sealed(length@, old(payload)@).0
                    &&& if g.exhausted() {
                        &&& r == Err::<[u8; 16], Error>(used_up())
                        &&& final(self)@ == old(self)@
                    } else {
                        &&& r matches Ok(tag) && tag@ == g.sealed(length@, old(payload)@).1
                        &&& final(self)@ == SshCipherView::Gcm(g.next())
                    }
                },
                _ => {
                    &&& r == Err::<[u8; 16], Error>(
                        Error::Unsupported("GCM seal on non-GCM cipher"),
                    )
                    &&& final(payload)@ == old(payload)@
                    &&& final(self)@ == old(self)@
                },
            },
            old(self)@ is Gcm && r is Ok ==> ({
                let g = old(self)@->Gcm_0;
                r->Ok_0@ == if g.key.len() == 16 {
                    gcm128_tag(g.key, g.nonce(), length@, final(payload)@)
                } else {
                    gcm256_tag(g.key, g.nonce(), length@, final(payload)@)
                }
            }),
    {
        match self {
            SshCipher::Gcm(g) => g.seal(length, payload),
            _ => Err(Error::Unsupported("GCM seal on non-GCM cipher")),
        }
    }

    /// Check the tag and decrypt `payload` in place with AES-GCM. With the
    /// wrong tag nothing changes.
    pub fn aead_open_len_aad(&mut self, length: &[u8], payload: &mut [u8], tag: &[u8]) -> (r: Result<
        (),
        Error,
    >)
        requires
            old(self)@ is Gcm ==> old(payload)@.len() <= gcm_max_len(),
        ensures
            match old(self)@ {
                SshCipherView::Gcm(g) => if tag@.len() != 16 {
                    &&& r == Err::<(), Error>(Error::Format("aes-gcm tag len"))
                    &&& final(payload)@ == old(payload)@
                    &&& final(self)@ == old(self)@
                } else if g.opened(length@, old(payload)@, tag@) is None {
                    &&& r == Err::<(), Error>(Error::BadTag)
                    &&& final(payload)@ == old(payload)@
                    &&& final(self)@ == old(self)@
                } else if g.exhausted() {
                    &&& r == Err::<(), Error>(used_up())
                    &&& g.opened(length@, old(payload)@, tag@) == Some(final(payload)@)
                    &&& final(self)@ == old(self)@
                } else {
                    &&& r is Ok
                    &&& g.opened(length@, old(payload)@, tag@) == Some(final(payload)@)
                    &&& final(self)@ == SshCipherView::Gcm(g.next())
                },
                _ => {
                    &&& r == Err::<(), Error>(Error::Unsupported("GCM open on non-GCM cipher"))
                    &&& final(payload)@ == old(payload)@
                    &&& final(self)@ == old(self)@
                },
            },
            old(self)@ is Gcm && r is Ok ==> ({
                let g = old(self)@->Gcm_0;
                tag@ == if g.key.len() == 16 {
                    gcm128_tag(g.key, g.nonce(), length@, old(payload)@)
                } else {
                    gcm256_tag(g.key, g.nonce(), length@, old(payload)@)
                }
            }),
    {
        match self {
            SshCipher::Gcm(g) => g.open(length, payload, tag),
            _ => Err(Error::Unsupported("GCM open on non-GCM cipher")),
        }
    }

    /// Encrypt or decrypt a length field with ChaCha20-Poly1305, in place.
    pub fn cp_xor_length(&self, seq: u64, buf: &mut [u8]) -> (r: Result<(), Error>)
        requires
            self@ is ChaChaPoly ==> chacha20_fits(0, old(buf)@.len() as int),
        ensures
            match self@ {
                SshCipherView::ChaChaPoly(c) => {
                    &&& r is Ok
                    &&& final(buf)@ == c.length(seq, old(buf)@)
                },
                _ => {
                    &&& r == Err::<(), Error>(not_chachapoly())
                    &&& final(buf)@ == old(buf)@
                },
            },
    {
        match self {
            SshCipher::ChaChaPoly(c) => {
                c.xor_length(seq, buf);
                Ok(())
            },
            _ => Err(Error::Unsupported("chacha20-poly1305 op on other cipher")),
        }
    }

    /// Encrypt or decrypt a payload with ChaCha20-Poly1305, in place.
    pub fn cp_xor_payload(&self, seq: u64, buf: &mut [u8]) -> (r: Result<(), Error>)
        requires
            self@ is ChaChaPoly ==> chacha20_fits(1, old(buf)@.len() as int),
        ensures
            match self@ {
                SshCipherView::ChaChaPoly(c) => {
                    &&& r is Ok
                    &&& final(buf)@ == c.payload(seq, old(buf)@)
                },
                _ => {
                    &&& r == Err::<(), Error>(not_chachapoly())
                    &&& final(buf)@ == old(buf)@
                },
            },
    {
        match self {
            SshCipher::ChaChaPoly(c) => {
                c.xor_payload(seq, buf);
                Ok(())
            },
            _ => Err(Error::Unsupported("chacha20-poly1305 op on other cipher")),
        }
    }

    /// The tag of ChaCha20-Poly1305 over an encrypted length and an encrypted
    /// payload.
    pub fn cp_tag(&self, seq: u64, enc_len: &[u8], enc_payload: &[u8]) -> (r: Result<[u8; 16], Error>)
        ensures
            match self@ {
                SshCipherView::ChaChaPoly(c) => r matches Ok(tag) && tag@ == c.tag(
                    seq,
                    enc_len@,
                    enc_payload@,
                ),
                _ => r == Err::<[u8; 16], Error>(not_chachapoly()),
            },
            self@ is ChaChaPoly && r is Ok ==> r->Ok_0@ == poly1305_tag(
                chacha20_block(self@->ChaChaPoly_0.payload_key, packet_nonce(seq), 0).take(32),
                enc_len@ + enc_payload@,
            ),
    {
        match self {
            SshCipher::ChaChaPoly(c) => Ok(c.tag(seq, enc_len, enc_payload)),
            _ => Err(Error::Unsupported("chacha20-poly1305 op on other cipher")),
        }
    }

    /// Check the tag of ChaCha20-Poly1305, in constant time.
    pub fn cp_verify_tag(&self, seq: u64, enc_len: &[u8], enc_payload: &[u8], tag: &[u8]) -> (r:
        Result<(), Error>)
        ensures
            r == match self@ {
                SshCipherView::ChaChaPoly(c) => if tag@.len() != 16 {
                    Err::<(), Error>(Error::Format("chacha20-poly1305 tag len"))
                } else if tag@ == c.tag(seq, enc_len@, enc_payload@) {
                    Ok(())
                } else {
                    Err(Error::BadTag)
                },
                _ => Err(not_chachapoly()),
            },
    {
        match self {
            SshCipher::ChaChaPoly(c) => c.verify_tag(seq, enc_len, enc_payload, tag),
            _ => Err(Error::Unsupported("chacha20-poly1305 op on other cipher")),
        }
    }
}

/// The state for a suite by its SSH name, or nothing for an unknown name.
pub fn cipher_by_name(name: &str, key: &[u8], iv: &[u8]) -> (r: Option<Result<SshCipher, Error>>)
    ensures
        match geometry(name@) {
            None => r is None,
            Some(_) => r matches Some(x) && match started(name@, key@, iv@) {
                Ok(c) => x matches Ok(y) && y@ == c,
                Err(e) => x matches Err(y) && y == e,
            },
        },
{
    match by_name(name) {
        Some(_) => Some(SshCipher::new(name, key, iv)),
        None => None,
    }
}

/// With a key and an IV of the lengths in the catalogue, every suite starts,
/// and it is AEAD iff the catalogue says so.
pub proof fn lemma_catalogue_lengths_start(name: Seq<char>, key: Seq<u8>, iv: Seq<u8>)
    requires
        geometry(name) matches Some(g) && key.len() == g.key_len && iv.len() == g.iv_len,
    ensures
        started(name, key, iv) matches Ok(c) && geometry(name)->0.aead == !(c is Ctr),
{
    reveal_strlit("chacha20-poly1305@openssh.com");
    reveal_strlit("aes256-gcm@openssh.com");
    reveal_strlit("aes128-gcm@openssh.com");
    reveal_strlit("aes256-ctr");
    reveal_strlit("aes192-ctr");
    reveal_strlit("aes128-ctr");
    assert("chacha20-poly1305@openssh.com"@.len() == 29);
    assert("aes256-gcm@openssh.com"@.len() == 22);
    assert("aes128-gcm@openssh.com"@.len() == 22);
    assert("aes256-gcm@openssh.com"@[3] == '2');
    assert("aes128-gcm@openssh.com"@[3] == '1');
    assert("aes256-ctr"@.len() == 10 && "aes256-ctr"@[3] == '2');
    assert("aes192-ctr"@.len() == 10 && "aes192-ctr"@[4] == '9');
    assert("aes128-ctr"@.len() == 10 && "aes128-ctr"@[3] == '1' && "aes128-ctr"@[4] == '2');
}

/// No other name starts a suite.
pub proof fn lemma_unknown_name_is_unsupported(name: Seq<char>, key: Seq<u8>, iv: Seq<u8>)
    requires
        geometry(name) is None,
    ensures
        started(name, key, iv) == Err::<SshCipherView, Error>(Error::Unsupported("cipher")),
{
}

} // verus!
