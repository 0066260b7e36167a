//! `aes*-ctr` (RFC 4344): a stream cipher, which a separate MAC goes with.
//!
//! The keystream is the AES encryption of consecutive counter blocks, starting
//! with the IV. It continues across calls, however the data is cut.

use super::primitives::{
    aes128_block, aes128_ctr, aes192_block, aes192_ctr, aes256_block, aes256_ctr, counter_block,
    lemma_xored_twice, xored,
};
use super::secret::Secret;
use crate::error::Error;
use crate::format::big_endian_value;
use vstd::arithmetic::power2::{
    lemma2_to64, lemma2_to64_rest, lemma_pow2_adds, lemma_pow2_strictly_increases, pow2,
};
use vstd::prelude::*;

verus! {

/// AES on one block, by the length of the key.
pub open spec fn aes_block(key: Seq<u8>, block: Seq<u8>) -> Seq<u8> {
    if key.len() == 16 {
        aes128_block(key, block)
    } else if key.len() == 24 {
        aes192_block(key, block)
    } else {
        aes256_block(key, block)
    }
}

/// A place in an AES-CTR keystream.
pub ghost struct CtrView {
    /// The key: 16, 24 or 32 bytes.
    pub key: Seq<u8>,
    /// The counter of the current block.
    pub counter: u128,
    /// How many bytes of the current block are used up.
    pub offset: int,
}

impl CtrView {
    /// The `i`th keystream byte from here.
    #[verifier::opaque]
    pub open spec fn byte(self, i: int) -> u8 {
        aes_block(self.key, counter_block(self.counter, (self.offset + i) / 16))[(self.offset + i)
            % 16]
    }

    /// The place after `n` more bytes.
    #[verifier::opaque]
    pub open spec fn after(self, n: int) -> CtrView {
        CtrView {
            key: self.key,
            counter: ((self.counter + (self.offset + n) / 16) % (u128::MAX + 1)) as u128,
            offset: (self.offset + n) % 16,
        }
    }

    /// Data with the keystream from here XORed into its first `n` bytes.
    pub open spec fn partly(self, data: Seq<u8>, n: int) -> Seq<u8> {
        Seq::new(
            data.len(),
            |i: int|
                if i < n {
                    data[i] ^ self.byte(i)
                } else {
                    data[i]
                },
        )
    }

    /// Data with the keystream from here XORed into it.
    pub open spec fn apply(self, data: Seq<u8>) -> Seq<u8> {
        xored(data, 0, |i: int| self.byte(i))
    }

    /// The start of a keystream.
    pub open spec fn start(key: Seq<u8>, iv: Seq<u8>) -> CtrView {
        CtrView { key, counter: big_endian_value(iv) as u128, offset: 0 }
    }

    /// Whether the key has a length that AES takes, and the offset lies in a
    /// block.
    pub open spec fn valid(self) -> bool {
        &&& self.key.len() == 16 || self.key.len() == 24 || self.key.len() == 32
        &&& 0 <= self.offset < 16
    }
}

/// The state of an AES-CTR stream.
pub struct AesCtr {
    key: Secret,
    counter: u128,
    offset: usize,
}

impl View for AesCtr {
    type V = CtrView;

    closed spec fn view(&self) -> CtrView {
        CtrView { key: self.key@, counter: self.counter, offset: self.offset as int }
    }
}

impl AesCtr {
    #[verifier::type_invariant]
    spec fn valid(self) -> bool {
        self@.valid()
    }

    fn start(key: &[u8], iv: &[u8]) -> (r: AesCtr)
        requires
            key@.len() == 16 || key@.len() == 24 || key@.len() == 32,
            iv@.len() == 16,
        ensures
            r@ == CtrView::start(key@, iv@),
            r@.valid(),
    {
        let mut counter: u128 = 0;
        let mut i: usize = 0;
        assert(iv@.take(0) =~= Seq::<u8>::empty());
        proof {
            lemma2_to64();
        }
        while i < 16
            invariant
                i <= 16,
                iv@.len() == 16,
                counter == big_endian_value(iv@.take(i as int)),
                counter < pow2(8 * i as nat),
            decreases 16 - i,
        {
            proof {
                assert(iv@.take(i + 1).drop_last() =~= iv@.take(i as int));
                lemma_next_byte(counter, iv@[i as int], i as nat);
            }
            counter = counter * 0x100 + iv[i] as u128;
            i += 1;
        }
        assert(iv@.take(16) =~= iv@);
        AesCtr { key: Secret::new(key), counter, offset: 0 }
    }

    /// `aes128-ctr`.
    pub fn new_128(key: &[u8], iv: &[u8]) -> (r: Result<AesCtr, Error>)
        ensures
            is_started(r, key@, iv@, 16, "aes128-ctr key len"),
    {
        if key.len() != 16 {
            return Err(Error::Format("aes128-ctr key len"));
        }
        if iv.len() != 16 {
            return Err(Error::Format("aes-ctr iv len"));
        }
        Ok(AesCtr::start(key, iv))
    }

    /// `aes192-ctr`.
    pub fn new_192(key: &[u8], iv: &[u8]) -> (r: Result<AesCtr, Error>)
        ensures
            is_started(r, key@, iv@, 24, "aes192-ctr key len"),
    {
        if key.len() != 24 {
            return Err(Error::Format("aes192-ctr key len"));
        }
        if iv.len() != 16 {
            return Err(Error::Format("aes-ctr iv len"));
        }
        Ok(AesCtr::start(key, iv))
    }

    /// `aes256-ctr`.
    pub fn new_256(key: &[u8], iv: &[u8]) -> (r: Result<AesCtr, Error>)
        ensures
            is_started(r, key@, iv@, 32, "aes256-ctr key len"),
    {
        if key.len() != 32 {
            return Err(Error::Format("aes256-ctr key len"));
        }
        if iv.len() != 16 {
            return Err(Error::Format("aes-ctr iv len"));
        }
        Ok(AesCtr::start(key, iv))
    }

    /// XOR the keystream of whole blocks from `counter` on into the data from
    /// `from` on.
    fn apply_blocks(key: &Secret, counter: u128, data: &mut [u8], from: usize)
        requires
            key@.len() == 16 || key@.len() == 24 || key@.len() == 32,
            from <= old(data)@.len(),
        ensures
            final(data)@ == xored(
                old(data)@,
                from as int,
                (|i: int| (CtrView { key: key@, counter, offset: 0 }).byte(i)),
            ),
    {
        reveal(CtrView::byte);
        let bytes = key.bytes();
        let ghost place = CtrView { key: key@, counter, offset: 0 };
        if bytes.len() == 16 {
            aes128_ctr(bytes, counter, data, from);
        } else if bytes.len() == 24 {
            aes192_ctr(bytes, counter, data, from);
        } else {
            aes256_ctr(bytes, counter, data, from);
        }
        assert(data@ =~= xored(old(data)@, from as int, |i: int| place.byte(i)));
    }

    /// XOR what is left of the current block into the first bytes of the data.
    fn apply_rest(&self, data: &mut [u8], head: usize)
        requires
            head <= old(data)@.len(),
            0 < self@.offset,
            head <= 16 - self@.offset,
            self@.valid(),
        ensures
            final(data)@ == self@.partly(old(data)@, head as int),
    {
        let ghost before = data@;
        let ghost place = self@;
        let ghost fresh = CtrView { offset: 0, ..place };
        let mut block = [0u8; 16];
        Self::apply_blocks(&self.key, self.counter, &mut block, 0);
        assert forall|j: int| 0 <= j < 16 implies #[trigger] block@[j] == fresh.byte(j) by {
            let b = fresh.byte(j);
            assert(0u8 ^ b == b) by (bit_vector);
        }
        let mut i: usize = 0;
        while i < head
            invariant
                i <= head <= before.len(),
                place == self@,
                place.valid(),
                head <= 16 - place.offset,
                place.offset > 0,
                fresh == (CtrView { offset: 0, ..place }),
                forall|j: int| 0 <= j < 16 ==> #[trigger] block@[j] == fresh.byte(j),
                data@ == place.partly(before, i as int),
            decreases head - i,
        {
            let k = block[self.offset + i];
            assert(k == place.byte(i as int)) by {
                reveal(CtrView::byte);
                assert(block@[place.offset + i] == fresh.byte(place.offset + i));
            }
            data[i] = data[i] ^ k;
            assert(data@ =~= place.partly(before, i + 1));
            i += 1;
        }
    }

    /// XOR the keystream into the data, encrypting or decrypting it. The
    /// keystream continues where the last call left off.
    pub fn apply_keystream(&mut self, data: &mut [u8])
        ensures
            final(data)@ == old(self)@.apply(old(data)@),
            final(self)@ == old(self)@.after(old(data)@.len() as int),
            final(self)@.valid(),
    {
        proof {
            use_type_invariant(&*self);
        }
        let ghost before = data@;
        let ghost place = self@;
        let len: usize = data.len();
        if self.offset > 0 && len < 16 - self.offset {
            self.apply_rest(data, len);
            assert(data@ =~= place.apply(before));
            proof {
                lemma_in_block(place, len as int);
            }
            self.offset = self.offset + len;
            return;
        }
        let mut head: usize = 0;
        let mut start = self.counter;
        if self.offset > 0 {
            head = 16 - self.offset;
            self.apply_rest(data, head);
            start = wrapped_sum(self.counter, 1);
        } else {
            assert(data@ =~= place.partly(before, 0));
        }
        Self::apply_blocks(&self.key, start, data, head);
        let rest: usize = len - head;
        let blocks = (rest / 16) as u128;
        proof {
            lemma_applied(place, start, before, head as int);
            lemma_same_place(place, start, len as int, head as int);
        }
        self.counter = wrapped_sum(start, blocks);
        self.offset = rest % 16;
    }
}

/// The sum of two counters, wrapped around.
fn wrapped_sum(a: u128, b: u128) -> (r: u128)
    ensures
        r == (a + b) % (u128::MAX + 1),
{
    a.wrapping_add(b)
}

/// Whether a result is the start of a keystream, or the error for a key or an
/// IV of the wrong length.
pub open spec fn is_started(
    r: Result<AesCtr, Error>,
    key: Seq<u8>,
    iv: Seq<u8>,
    key_len: int,
    key_error: &'static str,
) -> bool {
    if key.len() != key_len {
        r matches Err(e) && e == Error::Format(key_error)
    } else if iv.len() != 16 {
        r matches Err(e) && e == Error::Format("aes-ctr iv len")
    } else {
        r matches Ok(c) && c@ == CtrView::start(key, iv) && c@.valid()
    }
}

/// A number of `i` bytes with one more byte has `i + 1` bytes, and fits as long
/// as these are 16 at most.
proof fn lemma_next_byte(n: u128, b: u8, i: nat)
    requires
        n < pow2(8 * i),
        i < 16,
    ensures
        n * 0x100 + b < pow2(8 * (i + 1)),
        n * 0x100 + b <= u128::MAX,
{
    let p = pow2(8 * i);
    lemma2_to64();
    lemma2_to64_rest();
    lemma_pow2_adds(8 * i, 8);
    lemma_pow2_adds(64, 64);
    if i < 15 {
        lemma_pow2_strictly_increases(8 * i + 8, 128);
    }
    assert((n + 1) * 256 <= p * 256) by (nonlinear_arith)
        requires
            n + 1 <= p,
    ;
}

/// Past the rest of the current block, the keystream is that of the blocks
/// that follow.
proof fn lemma_same_byte(place: CtrView, start: u128, i: int, head: int)
    requires
        place.valid(),
        head <= i,
        if place.offset == 0 {
            head == 0 && start == place.counter
        } else {
            head == 16 - place.offset && start == (place.counter + 1) % (u128::MAX + 1)
        },
    ensures
        (CtrView { key: place.key, counter: start, offset: 0 }).byte(i - head) == place.byte(i),
{
    reveal(CtrView::byte);
    if place.offset > 0 {
        let t = place.offset + i;
        assert(t == 16 + (i - head));
        assert(t / 16 == 1 + (i - head) / 16);
        assert(t % 16 == (i - head) % 16);
        lemma_wrapped_sum(place.counter as int, 1, (i - head) / 16);
    }
}

/// The rest of the current block and the blocks that follow make up the whole
/// keystream.
proof fn lemma_applied(place: CtrView, start: u128, data: Seq<u8>, head: int)
    requires
        place.valid(),
        0 <= head <= data.len(),
        if place.offset == 0 {
            head == 0 && start == place.counter
        } else {
            head == 16 - place.offset && start == (place.counter + 1) % (u128::MAX + 1)
        },
    ensures
        xored(
            place.partly(data, head),
            head,
            |i: int| (CtrView { key: place.key, counter: start, offset: 0 }).byte(i),
        ) == place.apply(data),
{
    let fresh = CtrView { key: place.key, counter: start, offset: 0 };
    assert forall|i: int| head <= i < data.len() implies #[trigger] fresh.byte(i - head)
        == place.byte(i) by {
        lemma_same_byte(place, start, i, head);
    }
    assert(xored(place.partly(data, head), head, |i: int| fresh.byte(i)) =~= place.apply(data));
}

/// A few bytes more can end in the same block.
proof fn lemma_in_block(place: CtrView, n: int)
    requires
        0 <= place.offset <= place.offset + n < 16,
    ensures
        place.after(n) == (CtrView { offset: place.offset + n, ..place }),
{
    reveal(CtrView::after);
}

/// Going on from the blocks that follow ends in the same place.
proof fn lemma_same_place(place: CtrView, start: u128, len: int, head: int)
    requires
        place.valid(),
        0 <= head <= len,
        if place.offset == 0 {
            head == 0 && start == place.counter
        } else {
            head == 16 - place.offset && start == (place.counter + 1) % (u128::MAX + 1)
        },
    ensures
        place.after(len) == (CtrView {
            key: place.key,
            counter: ((start + (len - head) / 16) % (u128::MAX + 1)) as u128,
            offset: (len - head) % 16,
        }),
{
    reveal(CtrView::after);
    if place.offset > 0 {
        let t = place.offset + len;
        assert(t == 16 + (len - head));
        assert(t / 16 == 1 + (len - head) / 16);
        assert(t % 16 == (len - head) % 16);
        lemma_wrapped_sum(place.counter as int, 1, (len - head) / 16);
    }
}

/// Wrapping around early or late makes no difference.
proof fn lemma_wrapped_sum(a: int, b: int, c: int)
    ensures
        ((a + b) % (u128::MAX + 1) + c) % (u128::MAX + 1) == (a + (b + c)) % (u128::MAX + 1),
{
    vstd::arithmetic::div_mod::lemma_add_mod_noop((a + b) % (u128::MAX + 1), c, u128::MAX + 1);
    vstd::arithmetic::div_mod::lemma_add_mod_noop(a + b, c, u128::MAX + 1);
    vstd::arithmetic::div_mod::lemma_mod_twice(a + b, u128::MAX + 1);
}

/// Applying the keystream twice from the same place gives the data back: what
/// encrypts also decrypts.
pub proof fn lemma_stream_is_its_own_inverse(place: CtrView, data: Seq<u8>)
    ensures
        place.apply(place.apply(data)) == data,
{
    lemma_xored_twice(data, 0, |i: int| place.byte(i));
}

/// However data is cut into pieces, the keystream runs on across them.
pub proof fn lemma_stream_runs_on(place: CtrView, a: Seq<u8>, b: Seq<u8>)
    requires
        place.valid(),
    ensures
        place.apply(a + b) == place.apply(a) + place.after(a.len() as int).apply(b),
        place.after((a.len() + b.len()) as int) == place.after(a.len() as int).after(
            b.len() as int,
        ),
{
    reveal(CtrView::after);
    let next = place.after(a.len() as int);
    let t = place.offset + a.len();
    let skipped = t / 16;
    assert(t == 16 * skipped + t % 16);
    assert forall|i: int| 0 <= i < b.len() implies #[trigger] next.byte(i) == place.byte(
        a.len() + i,
    ) by {
        lemma_run_on(place, a.len() as int, i);
    }
    assert(place.apply(a + b) =~= place.apply(a) + next.apply(b));
    let u = next.offset + b.len();
    assert((t + b.len()) == 16 * skipped + u);
    assert((t + b.len()) / 16 == skipped + u / 16 && (t + b.len()) % 16 == u % 16) by (
    nonlinear_arith)
        requires
            (t + b.len()) == 16 * skipped + u,
            u >= 0,
    ;
    lemma_wrapped_sum(place.counter as int, skipped, u / 16);
}

proof fn lemma_run_on(place: CtrView, n: int, i: int)
    requires
        place.valid(),
        0 <= n,
        0 <= i,
    ensures
        place.after(n).byte(i) == place.byte(n + i),
{
    reveal(CtrView::byte);
    reveal(CtrView::after);
    let t = place.offset + n;
    let next = place.after(n);
    let u = next.offset + i;
    let skipped = t / 16;
    assert(t + i == 16 * skipped + u);
    assert((t + i) / 16 == skipped + u / 16 && (t + i) % 16 == u % 16) by (nonlinear_arith)
        requires
            t + i == 16 * skipped + u,
            u >= 0,
    ;
    lemma_wrapped_sum(place.counter as int, skipped, u / 16);
}

} // verus!
