//! The block and stream functions that the suites are made of, as
//! `purecrypto` computes them.
//!
//! Keys come as bytes and are wiped again before each function returns.

use crate::format::big_endian;
use purecrypto::cipher::{Aes128, Aes192, Aes256, ChaCha20, Ctr, Gcm, Poly1305};
use purecrypto::ct::ConstantTimeEq;
use vstd::prelude::*;
use zeroize::Zeroizing;

verus! {

/// AES with a 128-bit key, on one block.
pub uninterp spec fn aes128_block(key: Seq<u8>, block: Seq<u8>) -> Seq<u8>;

/// AES with a 192-bit key, on one block.
pub uninterp spec fn aes192_block(key: Seq<u8>, block: Seq<u8>) -> Seq<u8>;

/// AES with a 256-bit key, on one block.
pub uninterp spec fn aes256_block(key: Seq<u8>, block: Seq<u8>) -> Seq<u8>;

/// The tag of AES-GCM with a 128-bit key, over associated data and a
/// ciphertext.
pub uninterp spec fn gcm128_tag(
    key: Seq<u8>,
    nonce: Seq<u8>,
    aad: Seq<u8>,
    ciphertext: Seq<u8>,
) -> Seq<u8>;

/// The tag of AES-GCM with a 256-bit key, over associated data and a
/// ciphertext.
pub uninterp spec fn gcm256_tag(
    key: Seq<u8>,
    nonce: Seq<u8>,
    aad: Seq<u8>,
    ciphertext: Seq<u8>,
) -> Seq<u8>;

/// The ChaCha20 keystream block for a nonce and block counter.
pub uninterp spec fn chacha20_block(key: Seq<u8>, nonce: Seq<u8>, counter: u32) -> Seq<u8>;

/// The Poly1305 tag of a message under a one-time key.
pub uninterp spec fn poly1305_tag(key: Seq<u8>, message: Seq<u8>) -> Seq<u8>;

/// Data with a keystream XORed into it from index `from` on.
pub open spec fn xored(data: Seq<u8>, from: int, keystream: spec_fn(int) -> u8) -> Seq<u8> {
    Seq::new(
        data.len(),
        |i: int|
            if i < from {
                data[i]
            } else {
                data[i] ^ keystream(i - from)
            },
    )
}

/// The counter block that lies `i` blocks after `counter`.
pub open spec fn counter_block(counter: u128, i: int) -> Seq<u8> {
    big_endian(((counter + i) % (u128::MAX + 1)) as nat, 16)
}

/// The counter block that AES-GCM encrypts the `i`th block of a message with:
/// the first counter belongs to the tag.
pub open spec fn gcm_block(nonce: Seq<u8>, i: int) -> Seq<u8> {
    nonce + big_endian(((2 + i) % 0x1_0000_0000) as nat, 4)
}

/// The longest message that AES-GCM takes: beyond it, counters would repeat.
pub open spec fn gcm_max_len() -> int {
    0x10_0000_0000 - 32
}

/// Whether the ChaCha20 block counter lasts for `len` bytes.
pub open spec fn chacha20_fits(counter: u32, len: int) -> bool {
    counter + (len + 63) / 64 <= 0x1_0000_0000
}

/// `purecrypto::cipher::Ctr::apply_keystream` over `Aes128`: XORs the AES
/// encryptions of consecutive counter blocks into the data from `from` on.
#[verifier::external_body]
pub(crate) fn aes128_ctr(key: &[u8], counter: u128, data: &mut [u8], from: usize)
    requires
        key@.len() == 16,
        from <= old(data)@.len(),
    ensures
        final(data)@ == xored(
            old(data)@,
            from as int,
            (|i: int| aes128_block(key@, counter_block(counter, i / 16))[i % 16]),
        ),
{
    let mut k = Zeroizing::new([0u8; 16]);
    k.copy_from_slice(key);
    Ctr::new(Aes128::new(&k), &counter.to_be_bytes()).apply_keystream(&mut data[from..]);
}

/// `purecrypto::cipher::Ctr::apply_keystream` over `Aes192`: XORs the AES
/// encryptions of consecutive counter blocks into the data from `from` on.
#[verifier::external_body]
pub(crate) fn aes192_ctr(key: &[u8], counter: u128, data: &mut [u8], from: usize)
    requires
        key@.len() == 24,
        from <= old(data)@.len(),
    ensures
        final(data)@ == xored(
            old(data)@,
            from as int,
            (|i: int| aes192_block(key@, counter_block(counter, i / 16))[i % 16]),
        ),
{
    let mut k = Zeroizing::new([0u8; 24]);
    k.copy_from_slice(key);
    Ctr::new(Aes192::new(&k), &counter.to_be_bytes()).apply_keystream(&mut data[from..]);
}

/// `purecrypto::cipher::Ctr::apply_keystream` over `Aes256`: XORs the AES
/// encryptions of consecutive counter blocks into the data from `from` on.
#[verifier::external_body]
pub(crate) fn aes256_ctr(key: &[u8], counter: u128, data: &mut [u8], from: usize)
    requires
        key@.len() == 32,
        from <= old(data)@.len(),
    ensures
        final(data)@ == xored(
            old(data)@,
            from as int,
            (|i: int| aes256_block(key@, counter_block(counter, i / 16))[i % 16]),
        ),
{
    let mut k = Zeroizing::new([0u8; 32]);
    k.copy_from_slice(key);
    Ctr::new(Aes256::new(&k), &counter.to_be_bytes()).apply_keystream(&mut data[from..]);
}

/// `purecrypto::cipher::Gcm::encrypt` over `Aes128` with a 12-byte nonce: XORs
/// the keystream of the nonce's counter blocks into the data, and returns the
/// tag over the associated data and the result.
#[verifier::external_body]
pub(crate) fn gcm128_encrypt(key: &[u8], nonce: &[u8], aad: &[u8], data: &mut [u8]) -> (r: [u8; 16])
    requires
        key@.len() == 16,
        nonce@.len() == 12,
        old(data)@.len() <= gcm_max_len(),
    ensures
        final(data)@ == xored(
            old(data)@,
            0,
            (|i: int| aes128_block(key@, gcm_block(nonce@, i / 16))[i % 16]),
        ),
        r@ == gcm128_tag(key@, nonce@, aad@, final(data)@),
{
    let mut k = Zeroizing::new([0u8; 16]);
    k.copy_from_slice(key);
    Gcm::new(Aes128::new(&k)).encrypt(nonce, aad, data)
}

/// `purecrypto::cipher::Gcm::encrypt` over `Aes256` with a 12-byte nonce: XORs
/// the keystream of the nonce's counter blocks into the data, and returns the
/// tag over the associated data and the result.
#[verifier::external_body]
pub(crate) fn gcm256_encrypt(key: &[u8], nonce: &[u8], aad: &[u8], data: &mut [u8]) -> (r: [u8; 16])
    requires
        key@.len() == 32,
        nonce@.len() == 12,
        old(data)@.len() <= gcm_max_len(),
    ensures
        final(data)@ == xored(
            old(data)@,
            0,
            (|i: int| aes256_block(key@, gcm_block(nonce@, i / 16))[i % 16]),
        ),
        r@ == gcm256_tag(key@, nonce@, aad@, final(data)@),
{
    let mut k = Zeroizing::new([0u8; 32]);
    k.copy_from_slice(key);
    Gcm::new(Aes256::new(&k)).encrypt(nonce, aad, data)
}

/// `purecrypto::cipher::Gcm::decrypt` over `Aes128` with a 12-byte nonce: if
/// the tag is the one over the associated data and the data, XORs the
/// keystream into the data; otherwise leaves the data as it was.
#[verifier::external_body]
pub(crate) fn gcm128_decrypt(
    key: &[u8],
    nonce: &[u8],
    aad: &[u8],
    data: &mut [u8],
    tag: &[u8; 16],
) -> (r: bool)
    requires
        key@.len() == 16,
        nonce@.len() == 12,
        old(data)@.len() <= gcm_max_len(),
    ensures
        r == (tag@ == gcm128_tag(key@, nonce@, aad@, old(data)@)),
        final(data)@ == if r {
            xored(
                old(data)@,
                0,
                (|i: int| aes128_block(key@, gcm_block(nonce@, i / 16))[i % 16]),
            )
        } else {
            old(data)@
        },
{
    let mut k = Zeroizing::new([0u8; 16]);
    k.copy_from_slice(key);
    Gcm::new(Aes128::new(&k)).decrypt(nonce, aad, data, tag).is_ok()
}

/// `purecrypto::cipher::Gcm::decrypt` over `Aes256` with a 12-byte nonce: if
/// the tag is the one over the associated data and the data, XORs the
/// keystream into the data; otherwise leaves the data as it was.
#[verifier::external_body]
pub(crate) fn gcm256_decrypt(
    key: &[u8],
    nonce: &[u8],
    aad: &[u8],
    data: &mut [u8],
    tag: &[u8; 16],
) -> (r: bool)
    requires
        key@.len() == 32,
        nonce@.len() == 12,
        old(data)@.len() <= gcm_max_len(),
    ensures
        r == (tag@ == gcm256_tag(key@, nonce@, aad@, old(data)@)),
        final(data)@ == if r {
            xored(
                old(data)@,
                0,
                (|i: int| aes256_block(key@, gcm_block(nonce@, i / 16))[i % 16]),
            )
        } else {
            old(data)@
        },
{
    let mut k = Zeroizing::new([0u8; 32]);
    k.copy_from_slice(key);
    Gcm::new(Aes256::new(&k)).decrypt(nonce, aad, data, tag).is_ok()
}

/// `purecrypto::cipher::ChaCha20::block`: one keystream block.
#[verifier::external_body]
pub(crate) fn chacha20(key: &[u8], nonce: &[u8; 12], counter: u32) -> (r: [u8; 64])
    requires
        key@.len() == 32,
    ensures
        r@ == chacha20_block(key@, nonce@, counter),
{
    let mut k = Zeroizing::new([0u8; 32]);
    k.copy_from_slice(key);
    ChaCha20::new(&k).block(nonce, counter)
}

/// `purecrypto::cipher::ChaCha20::apply_keystream`: XORs consecutive keystream
/// blocks into the data, starting with that of `counter`.
#[verifier::external_body]
pub(crate) fn chacha20_xor(key: &[u8], nonce: &[u8; 12], counter: u32, data: &mut [u8])
    requires
        key@.len() == 32,
        chacha20_fits(counter, old(data)@.len() as int),
    ensures
        final(data)@ == xored(
            old(data)@,
            0,
            (|i: int| chacha20_block(key@, nonce@, (counter + i / 64) as u32)[i % 64]),
        ),
{
    let mut k = Zeroizing::new([0u8; 32]);
    k.copy_from_slice(key);
    ChaCha20::new(&k).apply_keystream(nonce, counter, data);
}

/// `purecrypto::cipher::Poly1305`: the tag over two pieces of a message that
/// are absorbed one after the other.
#[verifier::external_body]
pub(crate) fn poly1305(key: &[u8], first: &[u8], second: &[u8]) -> (r: [u8; 16])
    requires
        key@.len() == 32,
    ensures
        r@ == poly1305_tag(key@, first@ + second@),
{
    let mut k = Zeroizing::new([0u8; 32]);
    k.copy_from_slice(key);
    let mut mac = Poly1305::new(&k);
    mac.update(first);
    mac.update(second);
    mac.finish()
}

/// `purecrypto::ct::ConstantTimeEq::ct_eq` on byte strings: whether they are
/// equal, in time that depends on their lengths alone.
#[verifier::external_body]
pub(crate) fn constant_time_eq(a: &[u8], b: &[u8]) -> (r: bool)
    ensures
        r == (a@ == b@),
{
    bool::from(a.ct_eq(b))
}

/// XORing a keystream in twice takes it out again.
pub proof fn lemma_xored_twice(data: Seq<u8>, from: int, keystream: spec_fn(int) -> u8)
    ensures
        xored(xored(data, from, keystream), from, keystream) == data,
{
    let once = xored(data, from, keystream);
    assert forall|i: int| 0 <= i && from <= i < data.len() implies #[trigger] (once[i] ^ keystream(
        i - from,
    ))
        == data[i] by {
        let a = data[i];
        let b = keystream(i - from);
        assert((a ^ b) ^ b == a) by (bit_vector);
    }
    assert(xored(once, from, keystream) =~= data);
}

} // verus!
