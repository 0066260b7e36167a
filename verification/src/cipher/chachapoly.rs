//! `chacha20-poly1305@openssh.com`.
//!
//! Of the 64-byte key, the first half encrypts payloads and gives each packet's
//! Poly1305 key, and the second half encrypts length fields. A packet's nonce
//! is its sequence number. The tag covers the encrypted length followed by the
//! encrypted payload.

use super::primitives::{
    chacha20, chacha20_block, chacha20_fits, chacha20_xor, constant_time_eq, lemma_xored_twice,
    poly1305, poly1305_tag, xored,
};
use super::secret::Secret;
use crate::error::Error;
use crate::format::{big_endian, lemma_big_endian_len};
use vstd::prelude::*;

verus! {

/// The two keys.
#[verifier::ext_equal]
pub ghost struct ChaChaPolyView {
    pub payload_key: Seq<u8>,
    pub length_key: Seq<u8>,
}

/// The nonce of a packet: four zero bytes and the sequence number.
pub open spec fn packet_nonce(seq: u64) -> Seq<u8> {
    seq![0u8, 0u8, 0u8, 0u8] + big_endian(seq as nat, 8)
}

impl ChaChaPolyView {
    /// The halves of a key.
    pub open spec fn start(key: Seq<u8>) -> ChaChaPolyView {
        ChaChaPolyView { payload_key: key.take(32), length_key: key.skip(32) }
    }

    /// A length field, encrypted or decrypted.
    pub open spec fn length(self, seq: u64, data: Seq<u8>) -> Seq<u8> {
        xored(
            data,
            0,
            |i: int|
                chacha20_block(self.length_key, packet_nonce(seq), (0u32 + i / 64) as u32)[i % 64],
        )
    }

    /// A payload, encrypted or decrypted. The first block of the keystream is
    /// left to the Poly1305 key.
    pub open spec fn payload(self, seq: u64, data: Seq<u8>) -> Seq<u8> {
        xored(
            data,
            0,
            |i: int|
                chacha20_block(self.payload_key, packet_nonce(seq), (1u32 + i / 64) as u32)[i % 64],
        )
    }

    /// The tag of a packet.
    pub open spec fn tag(self, seq: u64, enc_len: Seq<u8>, enc_payload: Seq<u8>) -> Seq<u8> {
        poly1305_tag(
            chacha20_block(self.payload_key, packet_nonce(seq), 0).take(32),
            enc_len + enc_payload,
        )
    }

    /// Whether the keys have their lengths.
    pub open spec fn valid(self) -> bool {
        self.payload_key.len() == 32 && self.length_key.len() == 32
    }
}

/// The state of one direction.
pub struct ChaChaPoly {
    payload_key: Secret,
    length_key: Secret,
}

impl View for ChaChaPoly {
    type V = ChaChaPolyView;

    closed spec fn view(&self) -> ChaChaPolyView {
        ChaChaPolyView { payload_key: self.payload_key@, length_key: self.length_key@ }
    }
}

impl ChaChaPoly {
    #[verifier::type_invariant]
    spec fn valid(self) -> bool {
        self@.valid()
    }

    /// Split a 64-byte key.
    pub fn new(key: &[u8]) -> (r: Result<ChaChaPoly, Error>)
        ensures
            if key@.len() != 64 {
                r matches Err(e) && e == Error::Format("chacha20-poly1305 key len")
            } else {
                r matches Ok(c) && c@ == ChaChaPolyView::start(key@) && c@.valid()
            },
    {
        if key.len() != 64 {
            return Err(Error::Format("chacha20-poly1305 key len"));
        }
        let payload = vstd::slice::slice_subrange(key, 0, 32);
        let length = vstd::slice::slice_subrange(key, 32, 64);
        assert(payload@ =~= key@.take(32));
        assert(length@ =~= key@.skip(32));
        Ok(ChaChaPoly { payload_key: Secret::new(payload), length_key: Secret::new(length) })
    }

    /// The nonce of a packet.
    fn nonce(seq: u64) -> (r: [u8; 12])
        ensures
            r@ == packet_nonce(seq),
    {
        let mut n = [0u8; 12];
        let mut v = seq;
        let mut left: usize = 8;
        let ghost all = big_endian(seq as nat, 8);
        proof {
            lemma_big_endian_len(seq as nat, 8);
        }
        while left > 0
            invariant
                left <= 8,
                n@.len() == 12,
                all.len() == 8,
                forall|k: int| 0 <= k < 4 ==> n@[k] == 0,
                all.take(left as int) == big_endian(v as nat, left as nat),
                forall|k: int| left <= k < 8 ==> n@[4 + k] == all[k],
            decreases left,
        {
            let ghost front = all.take(left as int);
            left -= 1;
            proof {
                assert(front == big_endian((v / 0x100) as nat, left as nat).push(
                    (v % 0x100) as u8,
                ));
                lemma_big_endian_len((v / 0x100) as nat, left as nat);
                assert(all.take(left as int) =~= front.drop_last());
                assert(front.drop_last() =~= big_endian((v / 0x100) as nat, left as nat));
                assert(front.last() == all[left as int]);
            }
            n[4 + left] = (v % 0x100) as u8;
            v = v / 0x100;
        }
        assert(n@ =~= packet_nonce(seq));
        n
    }

    /// XOR the keystream for length fields into `buf`, which encrypts and
    /// decrypts.
    pub fn xor_length(&self, seq: u64, buf: &mut [u8])
        requires
            chacha20_fits(0, old(buf)@.len() as int),
        ensures
            final(buf)@ == self@.length(seq, old(buf)@),
    {
        proof {
            use_type_invariant(self);
        }
        let n = Self::nonce(seq);
        let ghost before = buf@;
        chacha20_xor(self.length_key.bytes(), &n, 0, buf);
        assert(buf@ =~= self@.length(seq, before));
    }

    /// XOR the keystream for payloads into `buf`, which encrypts and decrypts.
    pub fn xor_payload(&self, seq: u64, buf: &mut [u8])
        requires
            chacha20_fits(1, old(buf)@.len() as int),
        ensures
            final(buf)@ == self@.payload(seq, old(buf)@),
    {
        proof {
            use_type_invariant(self);
        }
        let n = Self::nonce(seq);
        let ghost before = buf@;
        chacha20_xor(self.payload_key.bytes(), &n, 1, buf);
        assert(buf@ =~= self@.payload(seq, before));
    }

    /// The tag over an encrypted length and an encrypted payload.
    pub fn tag(&self, seq: u64, enc_len: &[u8], enc_payload: &[u8]) -> (r: [u8; 16])
        ensures
            r@ == self@.tag(seq, enc_len@, enc_payload@),
            r@ == poly1305_tag(
                chacha20_block(self@.payload_key, packet_nonce(seq), 0).take(32),
                enc_len@ + enc_payload@,
            ),
    {
        proof {
            use_type_invariant(self);
        }
        let n = Self::nonce(seq);
        let block = chacha20(self.payload_key.bytes(), &n, 0);
        let key = vstd::slice::slice_subrange(&block, 0, 32);
        assert(key@ =~= block@.take(32));
        poly1305(key, enc_len, enc_payload)
    }

    /// Check the tag over an encrypted length and an encrypted payload.
    pub fn verify_tag(&self, seq: u64, enc_len: &[u8], enc_payload: &[u8], tag: &[u8]) -> (r:
        Result<(), Error>)
        ensures
            r == if tag@.len() != 16 {
                Err::<(), Error>(Error::Format("chacha20-poly1305 tag len"))
            } else if tag@ == self@.tag(seq, enc_len@, enc_payload@) {
                Ok(())
            } else {
                Err(Error::BadTag)
            },
    {
        if tag.len() != 16 {
            return Err(Error::Format("chacha20-poly1305 tag len"));
        }
        let expected = self.tag(seq, enc_len, enc_payload);
        if constant_time_eq(&expected, tag) {
            Ok(())
        } else {
            Err(Error::BadTag)
        }
    }
}

/// What encrypts also decrypts, for length fields and for payloads.
pub proof fn lemma_chacha_is_its_own_inverse(state: ChaChaPolyView, seq: u64, data: Seq<u8>)
    ensures
        state.length(seq, state.length(seq, data)) == data,
        state.payload(seq, state.payload(seq, data)) == data,
{
    lemma_xored_twice(
        data,
        0,
        |i: int|
            chacha20_block(state.length_key, packet_nonce(seq), (0u32 + i / 64) as u32)[i % 64],
    );
    lemma_xored_twice(
        data,
        0,
        |i: int|
            chacha20_block(state.payload_key, packet_nonce(seq), (1u32 + i / 64) as u32)[i % 64],
    );
}

} // verus!
