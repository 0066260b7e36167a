//! `aes*-gcm@openssh.com` (RFC 5647): authenticated encryption with an implicit
//! 12-byte nonce.
//!
//! The IV is split into a 4-byte fixed part and an 8-byte invocation counter,
//! which goes up by one with every packet. The packet length is not encrypted,
//! but the tag covers it.

use super::ctr::aes_block;
use super::primitives::{
    gcm128_decrypt, gcm128_encrypt, gcm128_tag, gcm256_decrypt, gcm256_encrypt, gcm256_tag,
    gcm_block, gcm_max_len, lemma_xored_twice, xored,
};
use super::secret::Secret;
use crate::error::Error;
use crate::format::{
    big_endian, big_endian_value, lemma_big_endian_len, lemma_big_endian_of_value,
    lemma_value_of_big_endian8,
};
use vstd::prelude::*;

verus! {

/// A key, and where its nonces are.
#[verifier::ext_equal]
pub ghost struct GcmView {
    /// The key: 16 or 32 bytes.
    pub key: Seq<u8>,
    /// The fixed part of the nonces: 4 bytes.
    pub fixed: Seq<u8>,
    /// The counter in the next nonce.
    pub invocation: u64,
}

/// The nonce with a counter in it.
pub open spec fn nonce_of(fixed: Seq<u8>, invocation: u64) -> Seq<u8> {
    fixed + big_endian(invocation as nat, 8)
}

/// The error for nonces that are used up.
pub open spec fn used_up() -> Error {
    Error::Crypto("aes-gcm invocation counter exhausted")
}

impl GcmView {
    /// The next nonce.
    pub open spec fn nonce(self) -> Seq<u8> {
        nonce_of(self.fixed, self.invocation)
    }

    /// Data with the keystream of the next nonce XORed into it, which encrypts
    /// and decrypts.
    pub open spec fn apply(self, data: Seq<u8>) -> Seq<u8> {
        xored(data, 0, |i: int| aes_block(self.key, gcm_block(self.nonce(), i / 16))[i % 16])
    }

    /// The tag over associated data and a ciphertext.
    pub open spec fn tag(self, aad: Seq<u8>, ciphertext: Seq<u8>) -> Seq<u8> {
        if self.key.len() == 16 {
            gcm128_tag(self.key, self.nonce(), aad, ciphertext)
        } else {
            gcm256_tag(self.key, self.nonce(), aad, ciphertext)
        }
    }

    /// A payload encrypted, and its tag.
    pub open spec fn sealed(self, aad: Seq<u8>, payload: Seq<u8>) -> (Seq<u8>, Seq<u8>) {
        (self.apply(payload), self.tag(aad, self.apply(payload)))
    }

    /// A ciphertext decrypted, if the tag is right.
    pub open spec fn opened(self, aad: Seq<u8>, ciphertext: Seq<u8>, tag: Seq<u8>) -> Option<
        Seq<u8>,
    > {
        if tag == self.tag(aad, ciphertext) {
            Some(self.apply(ciphertext))
        } else {
            None
        }
    }

    /// The state for the next packet.
    pub open spec fn next(self) -> GcmView {
        GcmView { invocation: (self.invocation + 1) as u64, ..self }
    }

    /// Whether the nonces are used up.
    pub open spec fn exhausted(self) -> bool {
        self.invocation == u64::MAX
    }

    /// The state that a key and an IV start with.
    pub open spec fn start(key: Seq<u8>, iv: Seq<u8>) -> GcmView {
        GcmView { key, fixed: iv.take(4), invocation: big_endian_value(iv.skip(4)) as u64 }
    }

    /// Whether the parts have their lengths.
    pub open spec fn valid(self) -> bool {
        &&& self.key.len() == 16 || self.key.len() == 32
        &&& self.fixed.len() == 4
    }
}

/// The state of one direction.
pub struct GcmState {
    key: Secret,
    fixed: [u8; 4],
    invocation: u64,
}

impl View for GcmState {
    type V = GcmView;

    closed spec fn view(&self) -> GcmView {
        GcmView { key: self.key@, fixed: self.fixed@, invocation: self.invocation }
    }
}

/// Whether a result is the starting state, or the error for a key or an IV of
/// the wrong length.
pub open spec fn is_started(
    r: Result<GcmState, Error>,
    key: Seq<u8>,
    iv: Seq<u8>,
    key_len: int,
    key_error: &'static str,
) -> bool {
    if key.len() != key_len {
        r matches Err(e) && e == Error::Format(key_error)
    } else if iv.len() != 12 {
        r matches Err(e) && e == Error::Format("aes-gcm iv len")
    } else {
        r matches Ok(g) && g@ == GcmView::start(key, iv) && g@.valid()
    }
}

impl GcmState {
    #[verifier::type_invariant]
    spec fn valid(self) -> bool {
        self@.valid()
    }

    /// `aes128-gcm@openssh.com`.
    pub fn new_128(key: &[u8], iv: &[u8]) -> (r: Result<GcmState, Error>)
        ensures
            is_started(r, key@, iv@, 16, "aes128-gcm key len"),
    {
        if key.len() != 16 {
            return Err(Error::Format("aes128-gcm key len"));
        }
        let (fixed, invocation) = split_iv(iv)?;
        Ok(GcmState { key: Secret::new(key), fixed, invocation })
    }

    /// `aes256-gcm@openssh.com`.
    pub fn new_256(key: &[u8], iv: &[u8]) -> (r: Result<GcmState, Error>)
        ensures
            is_started(r, key@, iv@, 32, "aes256-gcm key len"),
    {
        if key.len() != 32 {
            return Err(Error::Format("aes256-gcm key len"));
        }
        let (fixed, invocation) = split_iv(iv)?;
        Ok(GcmState { key: Secret::new(key), fixed, invocation })
    }

    /// The nonce for the next packet.
    pub fn nonce(&self) -> (r: [u8; 12])
        ensures
            r@ == self@.nonce(),
    {
        let mut n = [0u8; 12];
        let mut i: usize = 0;
        while i < 4
            invariant
                i <= 4,
                n@.len() == 12,
                forall|k: int| 0 <= k < i ==> n@[k] == self.fixed@[k],
            decreases 4 - i,
        {
            n[i] = self.fixed[i];
            i += 1;
        }
        let mut v = self.invocation;
        let mut left: usize = 8;
        let ghost all = big_endian(self.invocation as nat, 8);
        proof {
            lemma_big_endian_len(self.invocation as nat, 8);
        }
        while left > 0
            invariant
                left <= 8,
                n@.len() == 12,
                all.len() == 8,
                forall|k: int| 0 <= k < 4 ==> n@[k] == self.fixed@[k],
                all.take(left as int) == big_endian(v as nat, left as nat),
                forall|k: int| left <= k < 8 ==> n@[4 + k] == all[k],
            decreases left,
        {
            let ghost front = all.take(left as int);
            left -= 1;
            proof {
                assert(front == big_endian((v / 0x100) as nat, left as nat).push(
                    (v % 0x100) as u8,
                ));
                lemma_big_endian_len((v / 0x100) as nat, left as nat);
                assert(all.take(left as int) =~= front.drop_last());
                assert(front.drop_last() =~= big_endian((v / 0x100) as nat, left as nat));
                assert(front.last() == all[left as int]);
            }
            n[4 + left] = (v % 0x100) as u8;
            v = v / 0x100;
        }
        assert(n@ =~= self@.nonce());
        n
    }

    /// Step to the next nonce, unless they are used up. A nonce that came back
    /// would give the key away, so the counter never wraps around.
    fn step(&mut self) -> (r: Result<(), Error>)
        ensures
            if old(self)@.exhausted() {
                &&& r == Err::<(), Error>(used_up())
                &&& final(self)@ == old(self)@
            } else {
                &&& r is Ok
                &&& final(self)@ == old(self)@.next()
            },
            final(self)@.valid(),
    {
        proof {
            use_type_invariant(&*self);
        }
        if self.invocation == u64::MAX {
            return Err(Error::Crypto("aes-gcm invocation counter exhausted"));
        }
        self.invocation = self.invocation + 1;
        Ok(())
    }

    /// Encrypt `payload` in place and return the tag over `aad` and the
    /// result. The last nonce is never put to use.
    pub fn seal(&mut self, aad: &[u8], payload: &mut [u8]) -> (r: Result<[u8; 16], Error>)
        requires
            old(payload)@.len() <= gcm_max_len(),
        ensures
            final(payload)@ == old(self)@.sealed(aad@, old(payload)@).0,
            if old(self)@.exhausted() {
                &&& r == Err::<[u8; 16], Error>(used_up())
                &&& final(self)@ == old(self)@
            } else {
                &&& r matches Ok(tag) && tag@ == old(self)@.sealed(aad@, old(payload)@).1
                &&& final(self)@ == old(self)@.next()
            },
            final(self)@.valid(),
            r matches Ok(tag) ==> tag@ == if old(self)@.key.len() == 16 {
                gcm128_tag(old(self)@.key, old(self)@.nonce(), aad@, final(payload)@)
            } else {
                gcm256_tag(old(self)@.key, old(self)@.nonce(), aad@, final(payload)@)
            },
    {
        proof {
            use_type_invariant(&*self);
        }
        let ghost before = payload@;
        let ghost state = self@;
        let nonce = self.nonce();
        let key = self.key.bytes();
        let tag = if key.len() == 16 {
            gcm128_encrypt(key, &nonce, aad, payload)
        } else {
            gcm256_encrypt(key, &nonce, aad, payload)
        };
        assert(payload@ =~= state.apply(before));
        match self.step() {
            Ok(()) => Ok(tag),
            Err(e) => Err(e),
        }
    }

    /// Check the tag over `aad` and `payload` and decrypt `payload` in place.
    /// With the wrong tag nothing changes, the counter included.
    pub fn open(&mut self, aad: &[u8], payload: &mut [u8], tag: &[u8]) -> (r: Result<(), Error>)
        requires
            old(payload)@.len() <= gcm_max_len(),
        ensures
            if tag@.len() != 16 {
                &&& r == Err::<(), Error>(Error::Format("aes-gcm tag len"))
                &&& final(payload)@ == old(payload)@
                &&& final(self)@ == old(self)@
            } else if old(self)@.opened(aad@, old(payload)@, tag@) is None {
                &&& r == Err::<(), Error>(Error::BadTag)
                &&& final(payload)@ == old(payload)@
                &&& final(self)@ == old(self)@
            } else if old(self)@.exhausted() {
                &&& r == Err::<(), Error>(used_up())
                &&& old(self)@.opened(aad@, old(payload)@, tag@) == Some(final(payload)@)
                &&& final(self)@ == old(self)@
            } else {
                &&& r is Ok
                &&& old(self)@.opened(aad@, old(payload)@, tag@) == Some(final(payload)@)
                &&& final(self)@ == old(self)@.next()
            },
            final(self)@.valid(),
            tag@.len() == 16 ==> (r == Err::<(), Error>(Error::BadTag) <==> tag@ != if old(
                self,
            )@.key.len() == 16 {
                gcm128_tag(old(self)@.key, old(self)@.nonce(), aad@, old(payload)@)
            } else {
                gcm256_tag(old(self)@.key, old(self)@.nonce(), aad@, old(payload)@)
            }),
    {
        proof {
            use_type_invariant(&*self);
        }
        if tag.len() != 16 {
            return Err(Error::Format("aes-gcm tag len"));
        }
        let mut t = [0u8; 16];
        let mut i: usize = 0;
        while i < 16
            invariant
                i <= 16,
                tag@.len() == 16,
                t@.len() == 16,
                forall|k: int| 0 <= k < i ==> t@[k] == tag@[k],
            decreases 16 - i,
        {
            t[i] = tag[i];
            i += 1;
        }
        assert(t@ =~= tag@);
        let ghost before = payload@;
        let ghost state = self@;
        let nonce = self.nonce();
        let key = self.key.bytes();
        let ok = if key.len() == 16 {
            gcm128_decrypt(key, &nonce, aad, payload, &t)
        } else {
            gcm256_decrypt(key, &nonce, aad, payload, &t)
        };
        if !ok {
            return Err(Error::BadTag);
        }
        assert(payload@ =~= state.apply(before));
        self.step()
    }
}

/// Split an IV into the fixed part of the nonces and the first counter.
fn split_iv(iv: &[u8]) -> (r: Result<([u8; 4], u64), Error>)
    ensures
        if iv@.len() != 12 {
            r == Err::<([u8; 4], u64), Error>(Error::Format("aes-gcm iv len"))
        } else {
            r matches Ok((fixed, n)) && fixed@ == iv@.take(4) && n == big_endian_value(iv@.skip(4))
        },
{
    if iv.len() != 12 {
        return Err(Error::Format("aes-gcm iv len"));
    }
    let fixed: [u8; 4] = [iv[0], iv[1], iv[2], iv[3]];
    assert(fixed@ =~= iv@.take(4));
    let ghost tail = iv@.skip(4);
    let mut n: u64 = 0;
    let mut i: usize = 0;
    let mut bound: u64 = 1;
    assert(tail.take(0) =~= Seq::<u8>::empty());
    while i < 7
        invariant
            i <= 7,
            iv@.len() == 12,
            tail == iv@.skip(4),
            n == big_endian_value(tail.take(i as int)),
            n < bound,
            i == 0 ==> bound == 1,
            i == 1 ==> bound == 0x100,
            i == 2 ==> bound == 0x1_0000,
            i == 3 ==> bound == 0x100_0000,
            i == 4 ==> bound == 0x1_0000_0000,
            i == 5 ==> bound == 0x100_0000_0000,
            i == 6 ==> bound == 0x1_0000_0000_0000,
            i == 7 ==> bound == 0x100_0000_0000_0000,
        decreases 7 - i,
    {
        assert(tail.take(i + 1).drop_last() =~= tail.take(i as int));
        assert(tail.take(i + 1).last() == iv@[4 + i]);
        n = n * 0x100 + iv[4 + i] as u64;
        bound = bound * 0x100;
        i += 1;
    }
    assert(tail.take(8).drop_last() =~= tail.take(7));
    assert(tail.take(8) =~= tail);
    n = n * 0x100 + iv[11] as u64;
    Ok((fixed, n))
}

/// What was sealed is opened by a peer in the same state: the tag is accepted,
/// and the payload comes back.
pub proof fn lemma_open_undoes_seal(state: GcmView, aad: Seq<u8>, payload: Seq<u8>)
    ensures
        ({
            let (ciphertext, tag) = state.sealed(aad, payload);
            state.opened(aad, ciphertext, tag) == Some(payload)
        }),
{
    lemma_xored_twice(
        payload,
        0,
        |i: int| aes_block(state.key, gcm_block(state.nonce(), i / 16))[i % 16],
    );
}

/// No two counters give the same nonce.
pub proof fn lemma_nonces_differ(fixed: Seq<u8>, a: u64, b: u64)
    requires
        a != b,
    ensures
        nonce_of(fixed, a) != nonce_of(fixed, b),
{
    lemma_big_endian_len(a as nat, 8);
    lemma_big_endian_len(b as nat, 8);
    if nonce_of(fixed, a) == nonce_of(fixed, b) {
        let n = fixed.len() as int;
        assert(nonce_of(fixed, a).skip(n) =~= big_endian(a as nat, 8));
        assert(nonce_of(fixed, b).skip(n) =~= big_endian(b as nat, 8));
        lemma_value_of_big_endian8(a);
        lemma_value_of_big_endian8(b);
    }
}

/// The first nonce is the IV.
pub proof fn lemma_first_nonce_is_the_iv(key: Seq<u8>, iv: Seq<u8>)
    requires
        iv.len() == 12,
    ensures
        GcmView::start(key, iv).nonce() == iv,
{
    lemma_big_endian_of_value(iv.skip(4));
    lemma_value_fits(iv.skip(4));
    assert(iv.take(4) + iv.skip(4) =~= iv);
}

/// Eight bytes stand for a number of 64 bits.
proof fn lemma_value_fits(s: Seq<u8>)
    requires
        s.len() == 8,
    ensures
        big_endian_value(s) <= u64::MAX,
{
    reveal_with_fuel(big_endian_value, 9);
}

} // verus!
